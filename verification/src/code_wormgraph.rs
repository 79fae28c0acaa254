//! The provenance ledger of the code agents: signed actions of identified
//! agents, grouped into blocks named by a random hash, kept by a backend.
//! The in-memory backend lists its blocks newest first.

use vstd::prelude::*;
use crate::text::string_of;
use crate::clock::{now_unix_secs, new_uuid_string, CLOCK_BOUND};
use crate::code_identity::{Did, DidView};
use dashmap::DashMap;

verus! {

// ------------------------------------------------------------------
// Actions and blocks
// ------------------------------------------------------------------

/// One action of an agent: who took it, what kind it is, its JSON document
/// as text, its signature and optional proof, and when it was taken.
pub struct Action {
    pub id: String,
    pub did: Did,
    pub action_type: String,
    pub data: String,
    pub signature: Vec<u8>,
    pub proof: Option<String>,
    pub timestamp: i64,
}

/// An action as plain values.
pub struct ActionView {
    pub id: Seq<char>,
    pub did: DidView,
    pub action_type: Seq<char>,
    pub data: Seq<char>,
    pub signature: Seq<u8>,
    pub proof: Option<Seq<char>>,
    pub timestamp: i64,
}

impl View for Action {
    type V = ActionView;

    open spec fn view(&self) -> ActionView {
        ActionView {
            id: self.id@,
            did: self.did@,
            action_type: self.action_type@,
            data: self.data@,
            signature: self.signature@,
            proof: match self.proof {
                Some(p) => Some(p@),
                None => None,
            },
            timestamp: self.timestamp,
        }
    }
}

impl Clone for Action {
    fn clone(&self) -> (r: Self)
        ensures
            r@ == self@,
    {
        let proof = match &self.proof {
            Some(p) => Some(p.clone()),
            None => None,
        };
        let signature = self.signature.clone();
        assert(signature@ =~= self.signature@);
        Action {
            id: self.id.clone(),
            did: self.did.clone(),
            action_type: self.action_type.clone(),
            data: self.data.clone(),
            signature,
            proof,
            timestamp: self.timestamp,
        }
    }
}

/// The views of a sequence of actions.
pub open spec fn action_views(v: Seq<Action>) -> Seq<ActionView> {
    v.map_values(|a: Action| a@)
}

fn clone_actions(v: &Vec<Action>) -> (r: Vec<Action>)
    ensures
        action_views(r@) == action_views(v@),
{
    let mut r: Vec<Action> = Vec::new();
    let mut i: usize = 0;
    while i < v.len()
        invariant
            i <= v@.len(),
            r@.len() == i,
            forall|j: int| 0 <= j < i ==> (#[trigger] r@[j])@ == v@[j]@,
        decreases v@.len() - i,
    {
        r.push(v[i].clone());
        i = i + 1;
    }
    assert(action_views(r@) =~= action_views(v@));
    r
}

/// A block of actions, the Unix time (seconds) it was made at, and the
/// random hash that names it.
pub struct Block {
    pub actions: Vec<Action>,
    pub timestamp: i64,
    pub hash: String,
}

/// A block as plain values.
pub struct BlockView {
    pub actions: Seq<ActionView>,
    pub timestamp: i64,
    pub hash: Seq<char>,
}

impl View for Block {
    type V = BlockView;

    open spec fn view(&self) -> BlockView {
        BlockView { actions: action_views(self.actions@), timestamp: self.timestamp, hash: self.hash@ }
    }
}

impl Clone for Block {
    fn clone(&self) -> (r: Self)
        ensures
            r@ == self@,
    {
        Block { actions: clone_actions(&self.actions), timestamp: self.timestamp, hash: self.hash.clone() }
    }
}

impl Block {
    /// A block of the given actions, stamped with the current time and named
    /// by a fresh UUID.
    pub fn new(actions: Vec<Action>) -> (b: Block)
        ensures
            b.actions@ == actions@,
            -CLOCK_BOUND < b.timestamp < CLOCK_BOUND,
            b.hash@.len() == 36,
    {
        let timestamp = now_unix_secs();
        Block { actions, timestamp, hash: new_uuid_string() }
    }
}

/// The blocks that trace where something came from.
pub struct ProvenanceTrace {
    pub blocks: Vec<Block>,
}

impl Default for ProvenanceTrace {
    /// A trace with no blocks.
    fn default() -> (t: Self)
        ensures
            t.blocks@.len() == 0,
    {
        ProvenanceTrace { blocks: Vec::new() }
    }
}

/// Why the ledger refused an operation.
pub enum WormGraphError {
    /// The storage failed, with its explanation.
    Storage(String),
}

impl WormGraphError {
    /// The error as it is displayed.
    pub fn message(&self) -> (s: String)
        ensures
            s@ == (match self {
                WormGraphError::Storage(e) => "Storage error: "@ + e@,
            }),
    {
        match self {
            WormGraphError::Storage(e) => {
                let mut s = string_of("Storage error: ");
                s.append(e.as_str());
                s
            },
        }
    }
}

// ------------------------------------------------------------------
// Backends
// ------------------------------------------------------------------

/// Where the ledger's blocks are kept, by hash. Implementations promise that
/// a successful append stores the block under its hash.
pub trait WormGraphBackend {
    /// The blocks held, by their hash.
    spec fn stored(&self) -> Map<Seq<char>, BlockView>;

    /// Whether the backend takes every append (it never refuses one).
    spec fn accepts_appends(&self) -> bool;

    /// Stores a block under its hash.
    fn append_entry(&mut self, block: Block) -> (r: Result<(), WormGraphError>)
        ensures
            r is Ok ==> final(self).stored() == old(self).stored().insert(block.hash@, block@),
            old(self).accepts_appends() ==> r is Ok,
    ;

    /// Up to `limit` of the blocks held.
    fn get_entries(&self, limit: Option<usize>) -> (r: Result<Vec<Block>, WormGraphError>);
}

/// Records agents' actions in a backend.
pub struct WormGraphClient<B: WormGraphBackend> {
    backend: B,
}

impl<B: WormGraphBackend> WormGraphClient<B> {
    /// The backend the client writes to.
    pub closed spec fn backend(&self) -> B {
        self.backend
    }

    /// A client over the given backend.
    pub fn new(backend: B) -> (c: Self)
        ensures
            c.backend() == backend,
    {
        WormGraphClient { backend }
    }

    /// Records an action of `did`: a block holding one action with a fresh
    /// id, the identity, the type, the data, no signature, no proof and the
    /// current time is appended; its hash is returned, or the backend's
    /// error. A backend that takes every append never makes it fail.
    pub fn record_action(&mut self, did: &Did, action_type: &str, data: String) -> (r: Result<String, WormGraphError>)
        ensures
            old(self).backend().accepts_appends() ==> r is Ok,
            r matches Ok(h) ==> {
                let st = final(self).backend().stored();
                let b = st[h@];
                &&& h@.len() == 36
                &&& st == old(self).backend().stored().insert(h@, b)
                &&& b.hash == h@
                &&& -CLOCK_BOUND < b.timestamp < CLOCK_BOUND
                &&& b.actions.len() == 1
                &&& b.actions[0].id.len() == 36
                &&& b.actions[0].did == did@
                &&& b.actions[0].action_type == action_type@
                &&& b.actions[0].data == data@
                &&& b.actions[0].signature.len() == 0
                &&& b.actions[0].proof is None
                &&& -CLOCK_BOUND < b.actions[0].timestamp < CLOCK_BOUND
            },
    {
        let action = Action {
            id: new_uuid_string(),
            did: did.clone(),
            action_type: string_of(action_type),
            data,
            signature: Vec::new(),
            proof: None,
            timestamp: now_unix_secs(),
        };
        let mut actions: Vec<Action> = Vec::new();
        actions.push(action);
        let block = Block::new(actions);
        let hash = block.hash.clone();
        let ghost b = block@;
        proof {
            assert(b.actions[0] == action@);
        }
        match self.backend.append_entry(block) {
            Ok(()) => {
                assert(self.backend().stored()[hash@] == b);
                Ok(hash)
            },
            Err(e) => Err(e),
        }
    }

    /// The provenance of an id: no trace is kept yet, so it is empty.
    pub fn query_provenance(&self, id: &str) -> (r: Result<ProvenanceTrace, WormGraphError>)
        ensures
            r matches Ok(t) && t.blocks@.len() == 0,
    {
        Ok(ProvenanceTrace::default())
    }
}

// ------------------------------------------------------------------
// The in-memory backend
// ------------------------------------------------------------------

#[verifier::external_type_specification]
#[verifier::external_body]
#[verifier::reject_recursive_types(K)]
#[verifier::reject_recursive_types(V)]
#[verifier::reject_recursive_types(S)]
pub struct ExDashMap<K, V, S>(DashMap<K, V, S>);

/// What a concurrent map of blocks holds: each block, as plain values, by
/// the text of its key.
pub uninterp spec fn dashmap_blocks(m: DashMap<String, Block>) -> Map<Seq<char>, BlockView>;

/// An empty concurrent map.
///
/// Calls `dashmap::DashMap::new`; the contract claims the map holds nothing.
#[verifier::external_body]
fn dash_new() -> (r: DashMap<String, Block>)
    ensures
        dashmap_blocks(r).dom() == Set::<Seq<char>>::empty(),
{
    DashMap::new()
}

/// Stores a block under a key, replacing what the key held.
///
/// Calls `dashmap::DashMap::insert`; the contract claims what its source
/// shows: afterwards the key maps to the block and the other keys are as
/// they were.
#[verifier::external_body]
fn dash_insert(m: &mut DashMap<String, Block>, key: String, block: Block)
    ensures
        dashmap_blocks(*final(m)) == dashmap_blocks(*old(m)).insert(key@, block@),
{
    m.insert(key, block);
}

/// Every key and block that a concurrent map holds, each once.
///
/// Calls `dashmap::DashMap::iter`, with `key` and `value` on each entry and
/// `clone` (the library's, for blocks). The order depends on the hasher,
/// which each process seeds, so the contract claims only which pairs come
/// out: each pair held, each key once, and every key held among them.
#[verifier::external_body]
fn dash_entries(m: &DashMap<String, Block>) -> (pairs: Vec<(String, Block)>)
    ensures
        forall|i: int| 0 <= i < pairs@.len() ==> {
            &&& dashmap_blocks(*m).contains_key((#[trigger] pairs@[i]).0@)
            &&& dashmap_blocks(*m)[pairs@[i].0@] == pairs@[i].1@
        },
        forall|i: int, j: int| 0 <= i < j < pairs@.len() ==> (#[trigger] pairs@[i]).0@ != (#[trigger] pairs@[j]).0@,
        forall|k: Seq<char>| dashmap_blocks(*m).contains_key(k) ==> exists|i: int| 0 <= i < pairs@.len() && (#[trigger] pairs@[i]).0@ == k,
{
    m.iter().map(|kv| (kv.key().clone(), kv.value().clone())).collect()
}

/// The views of a sequence of blocks.
pub open spec fn block_views(v: Seq<Block>) -> Seq<BlockView> {
    v.map_values(|b: Block| b@)
}

/// `v` lists the blocks of `st` newest first, cut at `limit`: blocks held,
/// each once, in non-increasing order of time, as many as the limit allows
/// of the `st.dom().len()` held; a block left out is no newer than any listed.
pub open spec fn newest_first_listing(st: Map<Seq<char>, BlockView>, limit: Option<usize>, v: Seq<BlockView>) -> bool {
    &&& v.len() == (match limit {
        Some(l) => if (l as nat) < st.dom().len() { l as nat } else { st.dom().len() },
        None => st.dom().len(),
    })
    &&& forall|i: int| 0 <= i < v.len() ==> st.contains_key((#[trigger] v[i]).hash) && st[v[i].hash] == v[i]
    &&& forall|i: int, j: int| 0 <= i < j < v.len() ==> (#[trigger] v[i]).hash != (#[trigger] v[j]).hash
    &&& forall|i: int, j: int| 0 <= i < j < v.len() ==> (#[trigger] v[i]).timestamp >= (#[trigger] v[j]).timestamp
    &&& forall|k: Seq<char>, i: int|
        #![trigger st[k], v[i]]
        st.contains_key(k) && 0 <= i < v.len() && (forall|j: int| 0 <= j < v.len() ==> (#[trigger] v[j]).hash != k)
            ==> st[k].timestamp <= v[i].timestamp
}

/// The in-memory backend: blocks in a concurrent map, each under its hash.
pub struct MemoryGateway {
    entries: DashMap<String, Block>,
}

impl MemoryGateway {
    #[verifier::type_invariant]
    spec fn keyed_by_hash(self) -> bool {
        forall|k: Seq<char>| #[trigger] dashmap_blocks(self.entries).contains_key(k) ==> dashmap_blocks(self.entries)[k].hash == k
    }

    /// A backend that holds nothing.
    pub fn new() -> (g: MemoryGateway)
        ensures
            g.stored().dom() == Set::<Seq<char>>::empty(),
    {
        MemoryGateway { entries: dash_new() }
    }
}

impl WormGraphBackend for MemoryGateway {
    closed spec fn stored(&self) -> Map<Seq<char>, BlockView> {
        dashmap_blocks(self.entries)
    }

    /// The in-memory backend takes every append.
    open spec fn accepts_appends(&self) -> bool {
        true
    }

    /// Stores the block under its hash; this backend never fails.
    fn append_entry(&mut self, block: Block) -> (r: Result<(), WormGraphError>)
        ensures
            r is Ok,
    {
        proof {
            use_type_invariant(&*self);
        }
        let key = block.hash.clone();
        let mut entries = dash_new();
        std::mem::swap(&mut entries, &mut self.entries);
        dash_insert(&mut entries, key, block);
        self.entries = entries;
        Ok(())
    }

    /// The blocks held, newest first, at most `limit` of them.
    fn get_entries(&self, limit: Option<usize>) -> (r: Result<Vec<Block>, WormGraphError>)
        ensures
            r matches Ok(v) && newest_first_listing(self.stored(), limit, block_views(v@)),
    {
        proof {
            use_type_invariant(self);
        }
        let ghost st = self.stored();
        let pairs = dash_entries(&self.entries);
        let mut rest: Vec<Block> = Vec::new();
        let mut i: usize = 0;
        while i < pairs.len()
            invariant
                i <= pairs@.len(),
                rest@.len() == i,
                forall|j: int| 0 <= j < i ==> (#[trigger] rest@[j])@ == pairs@[j].1@,
            decreases pairs@.len() - i,
        {
            let b = pairs[i].1.clone();
            rest.push(b);
            i = i + 1;
        }
        proof {
            let keys = Seq::new(pairs@.len(), |j: int| pairs@[j].0@);
            assert(keys.no_duplicates()) by {
                assert forall|a: int, b: int| 0 <= a < keys.len() && 0 <= b < keys.len() && a != b implies keys[a] != keys[b] by {
                    if a < b {
                        assert(pairs@[a].0@ != pairs@[b].0@);
                    } else {
                        assert(pairs@[b].0@ != pairs@[a].0@);
                    }
                }
            }
            assert(keys.to_set() =~= st.dom()) by {
                assert forall|k: Seq<char>| keys.to_set().contains(k) <==> st.dom().contains(k) by {
                    if st.dom().contains(k) {
                        let j = choose|j: int| 0 <= j < pairs@.len() && (#[trigger] pairs@[j]).0@ == k;
                        assert(keys[j] == k);
                    }
                    if keys.to_set().contains(k) {
                        let j = choose|j: int| 0 <= j < keys.len() && keys[j] == k;
                        assert(pairs@[j].0@ == k);
                    }
                }
            }
            keys.unique_seq_to_set();
            assert forall|j: int| 0 <= j < rest@.len() implies st.contains_key((#[trigger] rest@[j])@.hash)
                && st[rest@[j]@.hash] == rest@[j]@ by {
                assert(st.contains_key(pairs@[j].0@));
            }
            assert forall|a: int, b: int| 0 <= a < b < rest@.len() implies (#[trigger] rest@[a])@.hash != (#[trigger] rest@[b])@.hash by {
                assert(st.contains_key(pairs@[a].0@));
                assert(st.contains_key(pairs@[b].0@));
                assert(pairs@[a].0@ != pairs@[b].0@);
            }
            assert forall|k: Seq<char>| st.contains_key(k) implies exists|j: int| 0 <= j < rest@.len() && (#[trigger] rest@[j])@.hash == k by {
                let j = choose|j: int| 0 <= j < pairs@.len() && (#[trigger] pairs@[j]).0@ == k;
                assert(rest@[j]@.hash == k);
            }
        }
        let cap: usize = match limit {
            Some(l) => if l < rest.len() { l } else { rest.len() },
            None => rest.len(),
        };
        let ghost n = rest@.len();
        let mut out: Vec<Block> = Vec::new();
        while out.len() < cap
            invariant
                n == st.dom().len(),
                cap <= n,
                out@.len() + rest@.len() == n,
                out@.len() <= cap,
                forall|j: int| 0 <= j < out@.len() ==> st.contains_key((#[trigger] out@[j])@.hash) && st[out@[j]@.hash] == out@[j]@,
                forall|j: int| 0 <= j < rest@.len() ==> st.contains_key((#[trigger] rest@[j])@.hash) && st[rest@[j]@.hash] == rest@[j]@,
                forall|a: int, b: int| 0 <= a < b < out@.len() ==> (#[trigger] out@[a])@.hash != (#[trigger] out@[b])@.hash,
                forall|a: int, b: int| 0 <= a < b < rest@.len() ==> (#[trigger] rest@[a])@.hash != (#[trigger] rest@[b])@.hash,
                forall|a: int, b: int| 0 <= a < out@.len() && 0 <= b < rest@.len() ==> (#[trigger] out@[a])@.hash != (#[trigger] rest@[b])@.hash,
                forall|k: Seq<char>| st.contains_key(k) ==> (exists|j: int| 0 <= j < out@.len() && (#[trigger] out@[j])@.hash == k)
                    || (exists|j: int| 0 <= j < rest@.len() && (#[trigger] rest@[j])@.hash == k),
                forall|a: int, b: int| 0 <= a < b < out@.len() ==> (#[trigger] out@[a]).timestamp >= (#[trigger] out@[b]).timestamp,
                forall|a: int, b: int| 0 <= a < out@.len() && 0 <= b < rest@.len() ==> (#[trigger] out@[a]).timestamp >= (#[trigger] rest@[b]).timestamp,
            decreases cap - out@.len(),
        {
            let mut best: usize = 0;
            let mut j: usize = 1;
            while j < rest.len()
                invariant
                    0 < rest@.len(),
                    best < j <= rest@.len(),
                    forall|k: int| 0 <= k < j ==> (#[trigger] rest@[k]).timestamp <= rest@[best as int].timestamp,
                decreases rest@.len() - j,
            {
                if rest[j].timestamp > rest[best].timestamp {
                    best = j;
                }
                j = j + 1;
            }
            let ghost r0 = rest@;
            let ghost o0 = out@;
            let x = rest.remove(best);
            out.push(x);
            proof {
                let bi = best as int;
                assert forall|jj: int| 0 <= jj < rest@.len() implies #[trigger] rest@[jj] == r0[if jj < bi { jj } else { jj + 1 }] by {}
                assert forall|jj: int| 0 <= jj < out@.len() implies #[trigger] out@[jj] == (if jj < o0.len() { o0[jj] } else { r0[bi] }) by {}
                assert forall|k: Seq<char>| st.contains_key(k) implies (exists|j: int| 0 <= j < out@.len() && (#[trigger] out@[j])@.hash == k)
                    || (exists|j: int| 0 <= j < rest@.len() && (#[trigger] rest@[j])@.hash == k) by {
                    if exists|j: int| 0 <= j < o0.len() && (#[trigger] o0[j])@.hash == k {
                        let j = choose|j: int| 0 <= j < o0.len() && (#[trigger] o0[j])@.hash == k;
                        assert(out@[j] == o0[j]);
                    } else {
                        let j = choose|j: int| 0 <= j < r0.len() && (#[trigger] r0[j])@.hash == k;
                        if j < bi {
                            assert(rest@[j] == r0[j]);
                        } else if j == bi {
                            assert(out@[o0.len() as int] == r0[bi]);
                        } else {
                            assert(rest@[j - 1] == r0[j]);
                        }
                    }
                }
            }
        }
        proof {
            let v = block_views(out@);
            assert forall|kk: Seq<char>, ii: int|
                st.contains_key(kk) && 0 <= ii < v.len() && (forall|jj: int| 0 <= jj < v.len() ==> (#[trigger] v[jj]).hash != kk)
                implies st[kk].timestamp <= v[ii].timestamp by {
                if exists|j: int| 0 <= j < out@.len() && (#[trigger] out@[j])@.hash == kk {
                    let j = choose|j: int| 0 <= j < out@.len() && (#[trigger] out@[j])@.hash == kk;
                    assert(v[j].hash == kk);
                } else {
                    let j = choose|j: int| 0 <= j < rest@.len() && (#[trigger] rest@[j])@.hash == kk;
                    assert(out@[ii].timestamp >= rest@[j].timestamp);
                }
            }
        }
        Ok(out)
    }
}

/// What is appended is read back: once a block is stored under its hash, a
/// listing of the store without a limit holds it.
pub proof fn lemma_listing_holds_appended(st: Map<Seq<char>, BlockView>, b: BlockView, v: Seq<BlockView>)
    requires
        st.dom().finite(),
        newest_first_listing(st.insert(b.hash, b), None, v),
    ensures
        v.contains(b),
{
    let st2 = st.insert(b.hash, b);
    let hs = Seq::new(v.len(), |i: int| v[i].hash);
    assert(hs.no_duplicates()) by {
        assert forall|x: int, y: int| 0 <= x < hs.len() && 0 <= y < hs.len() && x != y implies hs[x] != hs[y] by {
            if x < y {
                assert(v[x].hash != v[y].hash);
            } else {
                assert(v[y].hash != v[x].hash);
            }
        }
    }
    hs.unique_seq_to_set();
    assert(hs.to_set().subset_of(st2.dom())) by {
        assert forall|k: Seq<char>| hs.to_set().contains(k) implies st2.dom().contains(k) by {
            let i = choose|i: int| 0 <= i < hs.len() && hs[i] == k;
            assert(st2.contains_key(v[i].hash));
        }
    }
    assert(st2.dom() =~= st.dom().insert(b.hash));
    vstd::set_lib::lemma_subset_equality(hs.to_set(), st2.dom());
    assert(hs.to_set().contains(b.hash));
    let i = choose|i: int| 0 <= i < hs.len() && hs[i] == b.hash;
    assert(v[i] == st2[b.hash]);
    assert(v[i] == b);
}

} // verus!
