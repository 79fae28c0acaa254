//! The integer side of the mixture-of-experts model: platform detection,
//! attention settings, expert sizes, which experts a token is routed to once
//! the scores are ranked, and how tokens are assigned under a capacity limit.
//! Everything that computes on floating-point tensors is left to the caller.

use vstd::prelude::*;
use crate::text::string_of;

verus! {

// ------------------------------------------------------------------
// Platform
// ------------------------------------------------------------------

/// The target platform.
#[derive(PartialEq, Eq, Structural, Clone, Copy, Debug)]
pub enum Platform {
    Linux,
    Windows,
    MacOS,
    Android,
    IOs,
    Unknown,
}

/// The platform for a target operating-system name as Rust spells it.
pub open spec fn platform_of(os: Seq<char>) -> Platform {
    if os == "linux"@ {
        Platform::Linux
    } else if os == "windows"@ {
        Platform::Windows
    } else if os == "macos"@ {
        Platform::MacOS
    } else if os == "android"@ {
        Platform::Android
    } else if os == "ios"@ {
        Platform::IOs
    } else {
        Platform::Unknown
    }
}

/// The display name of a platform.
pub open spec fn display_name(p: Platform) -> Seq<char> {
    match p {
        Platform::Linux => "Linux"@,
        Platform::Windows => "Windows"@,
        Platform::MacOS => "macOS"@,
        Platform::Android => "Android"@,
        Platform::IOs => "iOS"@,
        Platform::Unknown => "Unknown"@,
    }
}

/// A character with ASCII upper case turned to lower case.
pub open spec fn lower_char(c: char) -> char {
    if 'A' <= c <= 'Z' {
        ((c as u32) + 32) as char
    } else {
        c
    }
}

/// A text with ASCII upper case turned to lower case.
pub open spec fn ascii_lower(s: Seq<char>) -> Seq<char> {
    s.map_values(|c: char| lower_char(c))
}

/// Detection and display agree: each known platform is detected from its
/// display name in lower case (the Rust target name: linux, windows, macos,
/// android, ios), and whenever a platform is detected, the name it was
/// detected from is its display name in lower case, so any other name gives
/// `Unknown`.
pub proof fn lemma_platform_names(p: Platform, os: Seq<char>)
    ensures
        p != Platform::Unknown ==> platform_of(ascii_lower(display_name(p))) == p,
        platform_of(os) != Platform::Unknown ==> os == ascii_lower(display_name(platform_of(os))),
{
    reveal_strlit("linux");
    reveal_strlit("windows");
    reveal_strlit("macos");
    reveal_strlit("android");
    reveal_strlit("ios");
    reveal_strlit("Linux");
    reveal_strlit("Windows");
    reveal_strlit("macOS");
    reveal_strlit("Android");
    reveal_strlit("iOS");
    assert(ascii_lower("Linux"@) =~= "linux"@);
    assert(ascii_lower("Windows"@) =~= "windows"@);
    assert(ascii_lower("macOS"@) =~= "macos"@);
    assert(ascii_lower("Android"@) =~= "android"@);
    assert(ascii_lower("iOS"@) =~= "ios"@);
    assert("windows"@ != "linux"@ && "macos"@ != "linux"@ && "android"@ != "linux"@ && "ios"@ != "linux"@) by {
        assert("windows"@[0] != "linux"@[0] && "macos"@[0] != "linux"@[0]);
        assert("android"@[0] != "linux"@[0] && "ios"@[0] != "linux"@[0]);
    }
    assert("macos"@ != "windows"@ && "android"@ != "windows"@ && "ios"@ != "windows"@) by {
        assert("macos"@[0] != "windows"@[0] && "android"@[0] != "windows"@[0] && "ios"@[0] != "windows"@[0]);
    }
    assert("android"@ != "macos"@ && "ios"@ != "macos"@) by {
        assert("android"@[0] != "macos"@[0] && "ios"@[0] != "macos"@[0]);
    }
    assert("ios"@ != "android"@) by {
        assert("ios"@[0] != "android"@[0]);
    }
}

fn same_text(a: &str, b: &str) -> (r: bool)
    ensures
        r == (a@ == b@),
{
    let x = a.to_owned();
    let y = b.to_owned();
    x == y
}

impl Platform {
    /// The platform that the program was built for, given the name of the
    /// target operating system (`std::env::consts::OS`).
    pub fn current(target_os: &str) -> (p: Platform)
        ensures
            p == platform_of(target_os@),
            p != Platform::Unknown ==> target_os@ == ascii_lower(display_name(p)),
            p == Platform::Unknown ==> forall|q: Platform|
                q != Platform::Unknown ==> target_os@ != ascii_lower(#[trigger] display_name(q)),
    {
        proof {
            lemma_platform_names(Platform::Unknown, target_os@);
            assert forall|q: Platform| q != Platform::Unknown && platform_of(target_os@) == Platform::Unknown
                implies target_os@ != ascii_lower(#[trigger] display_name(q)) by {
                lemma_platform_names(q, target_os@);
            }
        }
        if same_text(target_os, "linux") {
            Platform::Linux
        } else if same_text(target_os, "windows") {
            Platform::Windows
        } else if same_text(target_os, "macos") {
            Platform::MacOS
        } else if same_text(target_os, "android") {
            Platform::Android
        } else if same_text(target_os, "ios") {
            Platform::IOs
        } else {
            Platform::Unknown
        }
    }

    /// The display name of the platform.
    pub fn as_str(&self) -> (s: &'static str)
        ensures
            s@ == display_name(*self),
            s@ == (match self {
                Platform::Linux => "Linux"@,
                Platform::Windows => "Windows"@,
                Platform::MacOS => "macOS"@,
                Platform::Android => "Android"@,
                Platform::IOs => "iOS"@,
                Platform::Unknown => "Unknown"@,
            }),
    {
        match self {
            Platform::Linux => "Linux",
            Platform::Windows => "Windows",
            Platform::MacOS => "macOS",
            Platform::Android => "Android",
            Platform::IOs => "iOS",
            Platform::Unknown => "Unknown",
        }
    }

    /// Every known platform has native GPU acceleration (on mobile through
    /// NNAPI or Metal); an unknown one has none.
    pub fn has_gpu_acceleration(&self) -> (r: bool)
        ensures
            r == !(*self is Unknown),
    {
        match self {
            Platform::Linux | Platform::Windows | Platform::MacOS => true,
            Platform::Android | Platform::IOs => true,
            _ => false,
        }
    }

    /// Where the model file is looked for by default.
    pub fn default_model_path(&self) -> (p: String)
        ensures
            p@ == (match self {
                Platform::Android | Platform::IOs => "assets/model.qt"@,
                Platform::Linux | Platform::Windows | Platform::MacOS => "/models/cathedral_33t.qt"@,
                Platform::Unknown => "model.qt"@,
            }),
    {
        match self {
            Platform::Android | Platform::IOs => string_of("assets/model.qt"),
            Platform::Linux | Platform::Windows | Platform::MacOS => string_of("/models/cathedral_33t.qt"),
            _ => string_of("model.qt"),
        }
    }
}

// ------------------------------------------------------------------
// Attention settings
// ------------------------------------------------------------------

/// Sizes of the attention variants.
pub struct AttentionConfig {
    pub num_heads: usize,
    pub head_dim: usize,
    pub hca_compression: usize,
    pub sliding_window_size: usize,
    pub mla_latent_dim: usize,
}

/// Heavily compressed attention: heads, their width, the compression ratio
/// and the chunk length.
pub struct HeavilyCompressedAttention {
    pub num_heads: usize,
    pub head_dim: usize,
    pub compression_ratio: usize,
    pub chunk_size: usize,
}

impl HeavilyCompressedAttention {
    /// Takes heads, head width and compression from the configuration; chunks
    /// are 128 positions long.
    pub fn new(config: &AttentionConfig) -> (a: Self)
        ensures
            a.num_heads == config.num_heads,
            a.head_dim == config.head_dim,
            a.compression_ratio == config.hca_compression,
            a.chunk_size == 128,
    {
        HeavilyCompressedAttention {
            num_heads: config.num_heads,
            head_dim: config.head_dim,
            compression_ratio: config.hca_compression,
            chunk_size: 128,
        }
    }
}

/// Attention restricted to a window of recent positions.
pub struct SlidingWindowAttention {
    pub window_size: usize,
}

impl SlidingWindowAttention {
    /// Takes the window length from the configuration.
    pub fn new(config: &AttentionConfig) -> (a: Self)
        ensures
            a.window_size == config.sliding_window_size,
    {
        SlidingWindowAttention { window_size: config.sliding_window_size }
    }
}

// ------------------------------------------------------------------
// Experts
// ------------------------------------------------------------------

/// The parameters of one expert: the three projection matrices and the
/// gate, up and down biases.
pub open spec fn expert_parameters(hidden: nat, intermediate: nat) -> nat {
    hidden * intermediate * 3 + intermediate + intermediate + hidden
}

/// The number of parameters of an expert with the given sizes.
pub fn expert_num_parameters(hidden_size: usize, intermediate_size: usize) -> (n: usize)
    requires
        expert_parameters(hidden_size as nat, intermediate_size as nat) <= usize::MAX,
    ensures
        n == expert_parameters(hidden_size as nat, intermediate_size as nat),
{
    proof {
        assert(hidden_size * intermediate_size <= hidden_size * intermediate_size * 3) by (nonlinear_arith);
    }
    hidden_size * intermediate_size * 3 + intermediate_size + intermediate_size + hidden_size
}

// ------------------------------------------------------------------
// Routing
// ------------------------------------------------------------------

/// The number of expert groups of the hierarchical router.
pub const NUM_GROUPS: usize = 64;

/// The group layout of a hierarchical router.
pub struct RouterLayout {
    pub num_groups: usize,
    pub experts_per_group: usize,
    pub top_k: usize,
}

/// One expert picked for a token: its id, and where in the ranked choices it
/// came from (the rank of its group among the chosen groups, and its rank
/// within that group's chosen experts).
#[derive(PartialEq, Eq, Structural, Clone, Copy, Debug)]
pub struct RoutedExpert {
    pub expert_id: usize,
    pub group_rank: usize,
    pub choice_rank: usize,
}

/// Every (group rank, choice rank) pair in order: group by group, and within
/// a group in the order of its ranked choices.
pub open spec fn candidates(groups: Seq<usize>, choices: Seq<Seq<usize>>, per_group: nat) -> Seq<RoutedExpert>
    decreases groups.len(),
{
    if groups.len() == 0 {
        Seq::empty()
    } else {
        let g = (groups.len() - 1) as int;
        candidates(groups.drop_last(), choices, per_group) + row_candidates(groups[g], choices[g], g, per_group)
    }
}

/// The candidates of one chosen group.
pub open spec fn row_candidates(group: usize, row: Seq<usize>, g: int, per_group: nat) -> Seq<RoutedExpert> {
    Seq::new(row.len(), |c: int| RoutedExpert {
        expert_id: (group * per_group + row[c]) as usize,
        group_rank: g as usize,
        choice_rank: c as usize,
    })
}

/// The ids of a list of picks.
pub open spec fn ids_of(s: Seq<RoutedExpert>) -> Seq<usize> {
    s.map_values(|r: RoutedExpert| r.expert_id)
}

/// The candidates with every pick whose expert was already picked earlier
/// left out.
pub open spec fn first_occurrences(s: Seq<RoutedExpert>) -> Seq<RoutedExpert>
    decreases s.len(),
{
    if s.len() == 0 {
        Seq::empty()
    } else {
        let d = first_occurrences(s.drop_last());
        if ids_of(d).contains(s.last().expert_id) {
            d
        } else {
            d.push(s.last())
        }
    }
}

impl RouterLayout {
    /// Sixty-four groups that share the experts evenly (any remainder is left
    /// out).
    pub fn new(num_experts: usize, top_k: usize) -> (r: RouterLayout)
        ensures
            r.num_groups == NUM_GROUPS,
            r.experts_per_group == num_experts / 64,
            r.top_k == top_k,
    {
        RouterLayout { num_groups: NUM_GROUPS, experts_per_group: num_experts / 64, top_k }
    }

    /// How many experts are taken from each of the chosen groups: half of
    /// `top_k`, rounded up.
    pub fn picks_per_group(&self) -> (n: usize)
        requires
            self.top_k < usize::MAX,
        ensures
            n == (self.top_k + 1) / 2,
    {
        (self.top_k + 1) / 2
    }

    /// The experts a token goes to, given the ranked groups chosen for it and,
    /// for each, the ranked positions of the experts chosen within it: the
    /// candidates in rank order, each expert kept only the first time it
    /// comes, cut to at most `top_k`.
    pub fn collect_experts(&self, groups: &Vec<usize>, choices: &Vec<Vec<usize>>) -> (r: Vec<RoutedExpert>)
        requires
            groups@.len() == choices@.len(),
            forall|g: int| 0 <= g < groups@.len() ==> groups@[g] < self.num_groups,
            forall|g: int, c: int| 0 <= g < choices@.len() && 0 <= c < choices@[g]@.len()
                ==> #[trigger] choices@[g]@[c] < self.experts_per_group,
            self.num_groups * self.experts_per_group <= usize::MAX,
        ensures
            r@ == first_occurrences(
                candidates(groups@, choices@.map_values(|v: Vec<usize>| v@), self.experts_per_group as nat),
            ).take(vstd::math::min(self.top_k as int, first_occurrences(
                candidates(groups@, choices@.map_values(|v: Vec<usize>| v@), self.experts_per_group as nat),
            ).len() as int)),
            r@.len() <= self.top_k,
            forall|i: int, j: int| 0 <= i < j < r@.len() ==> (#[trigger] r@[i]).expert_id != (#[trigger] r@[j]).expert_id,
    {
        let ghost rows = choices@.map_values(|v: Vec<usize>| v@);
        let ghost per = self.experts_per_group as nat;
        let mut picked: Vec<RoutedExpert> = Vec::new();
        let mut g: usize = 0;
        while g < groups.len()
            invariant
                0 <= g <= groups@.len(),
                groups@.len() == choices@.len(),
                rows == choices@.map_values(|v: Vec<usize>| v@),
                per == self.experts_per_group as nat,
                forall|g: int| 0 <= g < groups@.len() ==> groups@[g] < self.num_groups,
                forall|g: int, c: int| 0 <= g < choices@.len() && 0 <= c < choices@[g]@.len()
                    ==> #[trigger] choices@[g]@[c] < self.experts_per_group,
                self.num_groups * self.experts_per_group <= usize::MAX,
                picked@ == first_occurrences(candidates(groups@.take(g as int), rows, per)),
            decreases groups@.len() - g,
        {
            let group = groups[g];
            let row = &choices[g];
            let ghost base = candidates(groups@.take(g as int), rows, per);
            let ghost this_row = row_candidates(group, row@, g as int, per);
            assert(rows[g as int] == row@);
            assert(groups@.take(g + 1).drop_last() =~= groups@.take(g as int));
            assert(candidates(groups@.take(g + 1), rows, per) == base + this_row);
            let mut c: usize = 0;
            while c < row.len()
                invariant
                    0 <= c <= row@.len(),
                    group < self.num_groups,
                    forall|c: int| 0 <= c < row@.len() ==> #[trigger] row@[c] < self.experts_per_group,
                    self.num_groups * self.experts_per_group <= usize::MAX,
                    per == self.experts_per_group as nat,
                    this_row == row_candidates(group, row@, g as int, per),
                    picked@ == first_occurrences(base + this_row.take(c as int)),
                decreases row@.len() - c,
            {
                let idx = row[c];
                proof {
                    assert(group * self.experts_per_group + idx < self.num_groups * self.experts_per_group)
                        by (nonlinear_arith)
                        requires
                            group < self.num_groups,
                            idx < self.experts_per_group,
                    ;
                }
                let expert_id = group * self.experts_per_group + idx;
                let pick = RoutedExpert { expert_id, group_rank: g, choice_rank: c };
                let ghost upto = base + this_row.take(c as int);
                assert(base + this_row.take(c + 1) =~= upto.push(pick));
                assert(upto.push(pick).drop_last() =~= upto);
                let mut seen = false;
                let mut k: usize = 0;
                while k < picked.len()
                    invariant
                        0 <= k <= picked@.len(),
                        seen == exists|j: int| 0 <= j < k && picked@[j].expert_id == expert_id,
                    decreases picked@.len() - k,
                {
                    if picked[k].expert_id == expert_id {
                        seen = true;
                    }
                    k = k + 1;
                }
                assert(seen == ids_of(picked@).contains(expert_id)) by {
                    if seen {
                        let j = choose|j: int| 0 <= j < picked@.len() && picked@[j].expert_id == expert_id;
                        assert(ids_of(picked@)[j] == expert_id);
                    }
                    if ids_of(picked@).contains(expert_id) {
                        let j = choose|j: int| 0 <= j < ids_of(picked@).len() && ids_of(picked@)[j] == expert_id;
                        assert(picked@[j].expert_id == expert_id);
                    }
                }
                if !seen {
                    picked.push(pick);
                }
                c = c + 1;
            }
            assert(this_row.take(row@.len() as int) =~= this_row);
            g = g + 1;
        }
        assert(groups@.take(groups@.len() as int) =~= groups@);
        let ghost all = picked@;
        if picked.len() > self.top_k {
            picked.truncate(self.top_k);
        }
        assert(picked@ =~= all.take(vstd::math::min(self.top_k as int, all.len() as int)));
        proof {
            lemma_routed_experts_distinct(candidates(groups@, rows, per), self.top_k as int);
        }
        picked
    }
}

proof fn lemma_first_occurrences_distinct(s: Seq<RoutedExpert>)
    ensures
        forall|i: int, j: int| 0 <= i < j < first_occurrences(s).len()
            ==> (#[trigger] first_occurrences(s)[i]).expert_id != (#[trigger] first_occurrences(s)[j]).expert_id,
    decreases s.len(),
{
    if s.len() > 0 {
        lemma_first_occurrences_distinct(s.drop_last());
        let d = first_occurrences(s.drop_last());
        let x = s.last();
        if !ids_of(d).contains(x.expert_id) {
            assert forall|i: int| 0 <= i < d.len() implies #[trigger] d[i].expert_id != x.expert_id by {
                assert(ids_of(d)[i] == d[i].expert_id);
            }
            let e = d.push(x);
            assert(first_occurrences(s) == e);
            assert forall|i: int, j: int| 0 <= i < j < e.len() implies (#[trigger] e[i]).expert_id != (#[trigger] e[j]).expert_id by {
                if j < d.len() {
                    assert(e[i] == d[i] && e[j] == d[j]);
                } else {
                    assert(e[i] == d[i] && e[j] == x);
                }
            }
        }
    }
}

/// The router never sends a token to one expert twice, and to at most `k`
/// experts: the candidates kept at their first occurrence and cut to `k`
/// have distinct expert ids.
pub proof fn lemma_routed_experts_distinct(s: Seq<RoutedExpert>, k: int)
    requires
        0 <= k,
    ensures
        first_occurrences(s).take(vstd::math::min(k, first_occurrences(s).len() as int)).len() <= k,
        forall|i: int, j: int|
            0 <= i < j < first_occurrences(s).take(vstd::math::min(k, first_occurrences(s).len() as int)).len()
            ==> (#[trigger] first_occurrences(s).take(vstd::math::min(k, first_occurrences(s).len() as int))[i]).expert_id
                != (#[trigger] first_occurrences(s).take(vstd::math::min(k, first_occurrences(s).len() as int))[j]).expert_id,
{
    lemma_first_occurrences_distinct(s);
    let f = first_occurrences(s);
    let t = f.take(vstd::math::min(k, f.len() as int));
    assert forall|i: int, j: int| 0 <= i < j < t.len() implies (#[trigger] t[i]).expert_id != (#[trigger] t[j]).expert_id by {
        assert(t[i] == f[i] && t[j] == f[j]);
    }
}

// ------------------------------------------------------------------
// Capacity-limited assignment
// ------------------------------------------------------------------

/// One token placed on an expert: the token, the expert, and the rank of
/// that expert among the token's choices.
#[derive(PartialEq, Eq, Structural, Clone, Copy, Debug)]
pub struct Assignment {
    pub token: usize,
    pub expert_id: usize,
    pub rank: usize,
}

/// The first of a token's ranked experts that still has room, if any.
pub open spec fn first_open(choices: Seq<usize>, loads: Seq<usize>, capacity: usize) -> Option<int>
    decreases choices.len(),
{
    if choices.len() == 0 {
        None
    } else {
        match first_open(choices.drop_last(), loads, capacity) {
            Some(r) => Some(r),
            None => if loads[choices.last() as int] < capacity {
                Some((choices.len() - 1) as int)
            } else {
                None
            },
        }
    }
}

/// The assignments and loads after placing the tokens in order, each on the
/// first of its ranked experts with room (a token whose experts are all full
/// is dropped), starting from the given loads.
pub open spec fn assign_spec(routing: Seq<Seq<usize>>, start: Seq<usize>, capacity: usize) -> (Seq<Assignment>, Seq<usize>)
    decreases routing.len(),
{
    if routing.len() == 0 {
        (Seq::empty(), start)
    } else {
        let (a, l) = assign_spec(routing.drop_last(), start, capacity);
        let t = (routing.len() - 1) as int;
        let choices = routing.last();
        match first_open(choices, l, capacity) {
            Some(r) => {
                let e = choices[r];
                (a.push(Assignment { token: t as usize, expert_id: e, rank: r as usize }), l.update(
                    e as int,
                    (l[e as int] + 1) as usize,
                ))
            },
            None => (a, l),
        }
    }
}

/// All-zero loads for `n` experts.
pub open spec fn zero_loads(n: nat) -> Seq<usize> {
    Seq::new(n, |i: int| 0usize)
}

proof fn lemma_first_open_prefix(choices: Seq<usize>, loads: Seq<usize>, capacity: usize, k: int)
    requires
        0 <= k <= choices.len(),
        forall|j: int| 0 <= j < k ==> loads[#[trigger] choices[j] as int] >= capacity,
    ensures
        first_open(choices.take(k), loads, capacity) is None,
    decreases k,
{
    if k > 0 {
        assert(choices.take(k).drop_last() =~= choices.take(k - 1));
        lemma_first_open_prefix(choices, loads, capacity, k - 1);
        assert(choices.take(k).last() == choices[k - 1]);
    }
}

proof fn lemma_first_open_found(choices: Seq<usize>, loads: Seq<usize>, capacity: usize, k: int)
    requires
        0 <= k < choices.len(),
        forall|j: int| 0 <= j < k ==> loads[#[trigger] choices[j] as int] >= capacity,
        loads[choices[k] as int] < capacity,
    ensures
        first_open(choices, loads, capacity) == Some(k),
    decreases choices.len(),
{
    if k < choices.len() - 1 {
        lemma_first_open_found(choices.drop_last(), loads, capacity, k);
    } else {
        lemma_first_open_prefix(choices, loads, capacity, k);
        assert(choices.take(k) =~= choices.drop_last());
    }
}

/// Places the tokens on experts under `capacity`: the loads are first reset
/// to zero, then each token goes, in token order, to the first of its ranked
/// experts whose load is below the capacity, raising that load by one.
pub fn assign_tokens(loads: &mut Vec<usize>, routing: &Vec<Vec<usize>>, capacity: usize) -> (r: Vec<Assignment>)
    requires
        forall|t: int, c: int| 0 <= t < routing@.len() && 0 <= c < routing@[t]@.len()
            ==> #[trigger] routing@[t]@[c] < old(loads)@.len(),
    ensures
        final(loads)@.len() == old(loads)@.len(),
        (r@, final(loads)@) == assign_spec(
            routing@.map_values(|v: Vec<usize>| v@),
            zero_loads(old(loads)@.len()),
            capacity,
        ),
{
    let n = loads.len();
    let mut i: usize = 0;
    while i < n
        invariant
            0 <= i <= n,
            n == loads@.len(),
            n == old(loads)@.len(),
            forall|j: int| 0 <= j < i ==> loads@[j] == 0,
        decreases n - i,
    {
        loads.set(i, 0);
        i = i + 1;
    }
    assert(loads@ =~= zero_loads(n as nat));
    let ghost rows = routing@.map_values(|v: Vec<usize>| v@);
    let mut result: Vec<Assignment> = Vec::new();
    let mut t: usize = 0;
    while t < routing.len()
        invariant
            0 <= t <= routing@.len(),
            n == loads@.len(),
            n == old(loads)@.len(),
            rows == routing@.map_values(|v: Vec<usize>| v@),
            forall|t: int, c: int| 0 <= t < routing@.len() && 0 <= c < routing@[t]@.len()
                ==> #[trigger] routing@[t]@[c] < n,
            (result@, loads@) == assign_spec(rows.take(t as int), zero_loads(n as nat), capacity),
        decreases routing@.len() - t,
    {
        let row = &routing[t];
        assert(rows[t as int] == row@);
        assert(rows.take(t + 1).drop_last() =~= rows.take(t as int));
        assert(rows.take(t + 1).last() == row@);
        let mut r: usize = 0;
        while r < row.len()
            invariant
                0 <= r <= row@.len(),
                n == loads@.len(),
                forall|c: int| 0 <= c < row@.len() ==> #[trigger] row@[c] < n,
                forall|j: int| 0 <= j < r ==> loads@[#[trigger] row@[j] as int] >= capacity,
            ensures
                r <= row@.len(),
                forall|j: int| 0 <= j < r ==> loads@[#[trigger] row@[j] as int] >= capacity,
                r < row@.len() ==> loads@[row@[r as int] as int] < capacity,
            decreases row@.len() - r,
        {
            if loads[row[r]] < capacity {
                break;
            }
            r = r + 1;
        }
        if r < row.len() {
            proof {
                lemma_first_open_found(row@, loads@, capacity, r as int);
            }
            let e = row[r];
            let v = loads[e] + 1;
            loads.set(e, v);
            result.push(Assignment { token: t, expert_id: e, rank: r });
        } else {
            proof {
                lemma_first_open_prefix(row@, loads@, capacity, r as int);
                assert(row@.take(r as int) =~= row@);
            }
        }
        t = t + 1;
    }
    assert(rows.take(routing@.len() as int) =~= rows);
    result
}

/// No expert ever takes more tokens than the capacity.
pub proof fn lemma_capacity_respected(routing: Seq<Seq<usize>>, n: nat, capacity: usize)
    requires
        forall|t: int, c: int| 0 <= t < routing.len() && 0 <= c < routing[t].len() ==> #[trigger] routing[t][c] < n,
    ensures
        assign_spec(routing, zero_loads(n), capacity).1.len() == n,
        forall|e: int| 0 <= e < n ==> #[trigger] assign_spec(routing, zero_loads(n), capacity).1[e] <= capacity,
    decreases routing.len(),
{
    if routing.len() > 0 {
        let init = routing.drop_last();
        assert forall|t: int, c: int| 0 <= t < init.len() && 0 <= c < init[t].len() implies #[trigger] init[t][c] < n by {
            assert(init[t] == routing[t]);
        }
        lemma_capacity_respected(init, n, capacity);
        let (a, l) = assign_spec(init, zero_loads(n), capacity);
        let choices = routing.last();
        assert(choices == routing[routing.len() - 1]);
        match first_open(choices, l, capacity) {
            Some(r) => {
                lemma_first_open_in_range(choices, l, capacity);
                assert(choices[r] < n);
            },
            None => {},
        }
    } else {
        assert forall|e: int| 0 <= e < n implies #[trigger] zero_loads(n)[e] <= capacity by {}
    }
}

proof fn lemma_first_open_in_range(choices: Seq<usize>, loads: Seq<usize>, capacity: usize)
    ensures
        first_open(choices, loads, capacity) matches Some(r) ==> 0 <= r < choices.len() && loads[choices[r] as int] < capacity,
    decreases choices.len(),
{
    if choices.len() > 0 {
        lemma_first_open_in_range(choices.drop_last(), loads, capacity);
    }
}

} // verus!
