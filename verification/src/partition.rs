//! Partition tables for fault-injection scenarios (which nodes each node can
//! reach) and the quorum arithmetic of partition-aware replicated storage.

use vstd::prelude::*;
use vstd::hash_map::StringHashMap;
use crate::text::{push_char, string_of, append_decimal, decimal, digits_value,
    lemma_decimal_digits};

verus! {

/// For each node name, the names of the nodes it can reach.
pub type PartitionTable = StringHashMap<Vec<String>>;

/// The name of the `k`-th node: `node<k>`.
pub open spec fn node_name(k: nat) -> Seq<char> {
    seq!['n', 'o', 'd', 'e'] + decimal(k)
}

/// The names held by a list of strings.
pub open spec fn names(v: Seq<String>) -> Seq<Seq<char>> {
    v.map_values(|s: String| s@)
}

/// Distinct nodes have distinct names.
pub proof fn lemma_node_name_injective(a: nat, b: nat)
    requires
        node_name(a) == node_name(b),
    ensures
        a == b,
{
    lemma_decimal_digits(a);
    lemma_decimal_digits(b);
    assert(decimal(a) =~= node_name(a).skip(4));
    assert(decimal(b) =~= node_name(b).skip(4));
}

/// The name of the `k`-th node.
pub fn node_name_of(k: u64) -> (s: String)
    ensures
        s@ == node_name(k as nat),
{
    let mut s = String::new();
    push_char(&mut s, 'n');
    push_char(&mut s, 'o');
    push_char(&mut s, 'd');
    push_char(&mut s, 'e');
    append_decimal(&mut s, k);
    assert(s@ =~= node_name(k as nat));
    s
}

/// In a ring of `n` nodes, node `k` (counted from 1) reaches itself, the next
/// node and the previous one.
pub open spec fn ring_peers(k: nat, n: nat) -> Seq<Seq<char>> {
    seq![node_name(k), node_name((k % n) + 1), node_name(((k + n - 2) as nat % n) + 1)]
}

/// The table holds exactly the nodes `node1` to `node<n>`.
pub open spec fn holds_nodes(table: Map<Seq<char>, Vec<String>>, n: nat) -> bool {
    &&& forall|k: nat| 1 <= k <= n ==> #[trigger] table.contains_key(node_name(k))
    &&& forall|key: Seq<char>| #[trigger] table.contains_key(key) ==> exists|k: nat|
        1 <= k <= n && key == node_name(k)
}

/// A ring partition of `num_nodes` nodes: each node reaches itself and its
/// two neighbours on the ring.
pub fn create_ring_partition(num_nodes: usize) -> (table: PartitionTable)
    requires
        num_nodes <= usize::MAX / 2 + 1,
    ensures
        holds_nodes(table@, num_nodes as nat),
        forall|k: nat| 1 <= k <= num_nodes ==> names(#[trigger] table@[node_name(k)]@) == ring_peers(
            k,
            num_nodes as nat,
        ),
{
    let n = num_nodes;
    let mut table: PartitionTable = StringHashMap::new();
    let mut i: usize = 0;
    while i < n
        invariant
            0 <= i <= n,
            n == num_nodes,
            n <= usize::MAX / 2 + 1,
            holds_nodes(table@, i as nat),
            forall|k: nat| 1 <= k <= i ==> names(#[trigger] table@[node_name(k)]@) == ring_peers(k, n as nat),
        decreases n - i,
    {
        let name = node_name_of((i + 1) as u64);
        let mut visible: Vec<String> = Vec::new();
        visible.push(name.clone());
        visible.push(node_name_of((((i + 1) % n) + 1) as u64));
        visible.push(node_name_of((((i + n - 1) % n) + 1) as u64));
        let ghost k = (i + 1) as nat;
        assert(names(visible@) =~= ring_peers(k, n as nat)) by {
            assert((i + n - 1) as nat == (k + n - 2) as nat);
        }
        let ghost before = table@;
        table.insert(name, visible);
        proof {
            assert forall|j: nat| 1 <= j <= i implies node_name(j) != node_name(k) by {
                if node_name(j) == node_name(k) {
                    lemma_node_name_injective(j, k);
                }
            }
            assert forall|key: Seq<char>| #[trigger] table@.contains_key(key) implies exists|j: nat|
                1 <= j <= i + 1 && key == node_name(j) by {
                if key != node_name(k) {
                    assert(before.contains_key(key));
                }
            }
            assert forall|j: nat| 1 <= j <= i + 1 implies #[trigger] table@.contains_key(node_name(j)) by {
                if j <= i {
                    assert(before.contains_key(node_name(j)));
                }
            }
            assert forall|j: nat| 1 <= j <= i + 1 implies names(#[trigger] table@[node_name(j)]@)
                == ring_peers(j, n as nat) by {
                if j <= i {
                    assert(table@[node_name(j)] == before[node_name(j)]);
                }
            }
        }
        i = i + 1;
    }
    table
}

/// A split-brain partition of `num_nodes` nodes with node `isolated_node`
/// (counted from 1) cut off from the others.
pub fn create_split_brain_partition(num_nodes: usize, isolated_node: usize) -> (table: PartitionTable)
    requires
        num_nodes == 0 || isolated_node >= 1,
    ensures
        holds_nodes(table@, num_nodes as nat),
        forall|k: nat| 1 <= k <= num_nodes ==> names(#[trigger] table@[node_name(k)]@) == (
        if k == isolated_node {
            seq![node_name(k)]
        } else {
            Seq::new(num_nodes as nat, |j: int| node_name((j + 1) as nat)).filter(|s: Seq<char>| s != node_name(isolated_node as nat))
        }),
{
    let n = num_nodes;
    let mut table: PartitionTable = StringHashMap::new();
    let ghost all = Seq::new(n as nat, |j: int| node_name((j + 1) as nat));
    let ghost keep = |s: Seq<char>| s != node_name(isolated_node as nat);
    let mut i: usize = 0;
    while i < n
        invariant
            0 <= i <= n,
            n == num_nodes,
            n == 0 || isolated_node >= 1,
            all == Seq::new(n as nat, |j: int| node_name((j + 1) as nat)),
            keep == (|s: Seq<char>| s != node_name(isolated_node as nat)),
            holds_nodes(table@, i as nat),
            forall|k: nat| 1 <= k <= i ==> names(#[trigger] table@[node_name(k)]@) == (if k == isolated_node {
                seq![node_name(k)]
            } else {
                all.filter(keep)
            }),
        decreases n - i,
    {
        let name = node_name_of((i + 1) as u64);
        let mut visible: Vec<String> = Vec::new();
        let ghost k = (i + 1) as nat;
        if i + 1 == isolated_node {
            visible.push(name.clone());
            assert(names(visible@) =~= seq![node_name(k)]);
        } else {
            let mut j: usize = 0;
            while j < n
                invariant
                    0 <= j <= n,
                    n == num_nodes,
                    isolated_node >= 1,
                    all == Seq::new(n as nat, |j: int| node_name((j + 1) as nat)),
                    keep == (|s: Seq<char>| s != node_name(isolated_node as nat)),
                    names(visible@) == all.take(j as int).filter(keep),
                decreases n - j,
            {
                let ghost before = visible@;
                assert(all.take(j + 1) =~= all.take(j as int).push(all[j as int]));
                proof {
                    all.take(j as int).lemma_filter_push(all[j as int], keep);
                }
                if j != isolated_node - 1 {
                    visible.push(node_name_of((j + 1) as u64));
                    assert(keep(all[j as int])) by {
                        if all[j as int] == node_name(isolated_node as nat) {
                            lemma_node_name_injective((j + 1) as nat, isolated_node as nat);
                        }
                    }
                    assert(names(visible@) =~= names(before).push(node_name((j + 1) as nat)));
                } else {
                    assert(!keep(all[j as int]));
                }
                j = j + 1;
            }
            assert(all.take(n as int) =~= all);
        }
        let ghost before = table@;
        table.insert(name, visible);
        proof {
            assert forall|key: Seq<char>| #[trigger] table@.contains_key(key) implies exists|j: nat|
                1 <= j <= i + 1 && key == node_name(j) by {
                if key != node_name(k) {
                    assert(before.contains_key(key));
                }
            }
            assert forall|j: nat| 1 <= j <= i + 1 implies #[trigger] table@.contains_key(node_name(j)) by {
                if j <= i {
                    assert(before.contains_key(node_name(j)));
                }
            }
            assert forall|j: nat| 1 <= j <= i + 1 implies names(#[trigger] table@[node_name(j)]@) == (
            if j == isolated_node {
                seq![node_name(j)]
            } else {
                all.filter(keep)
            }) by {
                if j <= i {
                    if node_name(j) == node_name(k) {
                        lemma_node_name_injective(j, k);
                    }
                    assert(table@[node_name(j)] == before[node_name(j)]);
                }
            }
        }
        i = i + 1;
    }
    table
}

/// Whether a list of strings holds a name.
pub fn contains_name(v: &Vec<String>, s: &String) -> (r: bool)
    ensures
        r == names(v@).contains(s@),
{
    let mut i: usize = 0;
    while i < v.len()
        invariant
            0 <= i <= v@.len(),
            forall|j: int| 0 <= j < i ==> v@[j]@ != s@,
        decreases v@.len() - i,
    {
        if v[i] == *s {
            assert(names(v@)[i as int] == s@);
            return true;
        }
        i = i + 1;
    }
    assert(!names(v@).contains(s@)) by {
        if names(v@).contains(s@) {
            let j = choose|j: int| 0 <= j < names(v@).len() && names(v@)[j] == s@;
            assert(v@[j]@ == s@);
        }
    }
    false
}

/// Why a partition-aware quorum operation cannot go ahead.
pub enum QuorumError {
    /// The node is not in the partition table and the storage is not
    /// permissive.
    NodeNotInTable,
    /// Fewer replicas are visible than a write needs.
    WriteQuorumUnreachable { visible: usize, total: usize, needed: usize },
    /// Fewer replicas took the write than the quorum.
    WriteQuorumFailed { successes: usize, total: usize, visible: usize },
    /// Fewer replicas are visible than a read needs.
    ReadQuorumUnreachable { visible: usize, total: usize, needed: usize },
}

/// A strict majority of `n` replicas.
pub open spec fn majority(n: nat) -> nat {
    n / 2 + 1
}

/// The indices of the replicas a node can see: its own and those of the
/// peers the partition lets it reach, in order.
pub open spec fn visible_indices(ids: Seq<Seq<char>>, current: Seq<char>, peers: Seq<Seq<char>>) -> Seq<usize> {
    Seq::new(ids.len(), |i: int| i as usize).filter(
        |i: usize| ids[i as int] == current || peers.contains(ids[i as int]),
    )
}

/// The quorum sizes and the partition view of one node of a partition-aware
/// replicated store.
pub struct QuorumPlan {
    pub node_ids: Vec<String>,
    pub current_node: String,
    pub replica_count: usize,
    pub read_quorum: usize,
    pub write_quorum: usize,
    pub permissive_mode: bool,
}

impl QuorumPlan {
    /// The plan for `replica_count` replicas: reads and writes both need a
    /// strict majority.
    pub fn new(replica_count: usize, node_ids: Vec<String>, current_node: &str, permissive_mode: bool) -> (p: QuorumPlan)
        ensures
            p.node_ids == node_ids,
            p.current_node@ == current_node@,
            p.replica_count == replica_count,
            p.read_quorum == majority(replica_count as nat),
            p.write_quorum == majority(replica_count as nat),
            2 * p.read_quorum > replica_count,
            2 * (p.read_quorum - 1) <= replica_count,
            2 * p.write_quorum > replica_count,
            2 * (p.write_quorum - 1) <= replica_count,
            p.permissive_mode == permissive_mode,
    {
        QuorumPlan {
            node_ids,
            current_node: string_of(current_node),
            replica_count,
            read_quorum: replica_count / 2 + 1,
            write_quorum: replica_count / 2 + 1,
            permissive_mode,
        }
    }

    /// The replicas this node can see under `table`: when the node is in the
    /// table, itself and its listed peers; when it is not, every replica if
    /// the store is permissive, and an error otherwise.
    pub fn visible_replicas(&self, table: &PartitionTable) -> (r: Result<Vec<usize>, QuorumError>)
        ensures
            table@.contains_key(self.current_node@) ==> (r matches Ok(v) && v@ == visible_indices(
                names(self.node_ids@),
                self.current_node@,
                names(table@[self.current_node@]@),
            )),
            !table@.contains_key(self.current_node@) && self.permissive_mode ==> (r matches Ok(v)
                && v@ == visible_indices(names(self.node_ids@), self.current_node@, names(self.node_ids@))),
            !table@.contains_key(self.current_node@) && !self.permissive_mode ==> r matches Err(
                QuorumError::NodeNotInTable,
            ),
    {
        let peers: &Vec<String> = match table.get(self.current_node.as_str()) {
            Some(p) => p,
            None => {
                if self.permissive_mode {
                    &self.node_ids
                } else {
                    return Err(QuorumError::NodeNotInTable);
                }
            },
        };
        let ghost ids = names(self.node_ids@);
        let ghost pn = names(peers@);
        let ghost all = Seq::new(ids.len(), |i: int| i as usize);
        let ghost pick = |i: usize| ids[i as int] == self.current_node@ || pn.contains(ids[i as int]);
        let mut visible: Vec<usize> = Vec::new();
        let mut idx: usize = 0;
        assert(all.take(0).filter(pick) =~= Seq::<usize>::empty()) by {
            reveal(Seq::filter);
        }
        while idx < self.node_ids.len()
            invariant
                0 <= idx <= self.node_ids@.len(),
                ids == names(self.node_ids@),
                pn == names(peers@),
                all == Seq::new(ids.len(), |i: int| i as usize),
                pick == (|i: usize| ids[i as int] == self.current_node@ || pn.contains(ids[i as int])),
                visible@ == all.take(idx as int).filter(pick),
            decreases self.node_ids@.len() - idx,
        {
            assert(all.take(idx + 1) =~= all.take(idx as int).push(idx));
            proof {
                all.take(idx as int).lemma_filter_push(idx, pick);
            }
            let mine = self.node_ids[idx] == self.current_node;
            let reached = contains_name(peers, &self.node_ids[idx]);
            assert(ids[idx as int] == self.node_ids@[idx as int]@);
            if mine || reached {
                visible.push(idx);
            }
            idx = idx + 1;
        }
        assert(all.take(ids.len() as int) =~= all);
        Ok(visible)
    }

    /// Whether a write can be tried: enough replicas must be visible.
    pub fn check_write_reachable(&self, visible: usize) -> (r: Result<(), QuorumError>)
        ensures
            r is Ok <==> visible >= self.write_quorum,
            r matches Err(e) ==> e == (QuorumError::WriteQuorumUnreachable {
                visible,
                total: self.replica_count,
                needed: self.write_quorum,
            }),
    {
        if visible < self.write_quorum {
            Err(QuorumError::WriteQuorumUnreachable { visible, total: self.replica_count, needed: self.write_quorum })
        } else {
            Ok(())
        }
    }

    /// The outcome of a write once `successes` of the `visible` replicas took
    /// it: it stands when at least a quorum did.
    pub fn write_outcome(&self, successes: usize, visible: usize) -> (r: Result<(), QuorumError>)
        ensures
            r is Ok <==> successes >= self.write_quorum,
            r matches Err(e) ==> e == (QuorumError::WriteQuorumFailed {
                successes,
                total: self.replica_count,
                visible,
            }),
    {
        if successes >= self.write_quorum {
            Ok(())
        } else {
            Err(QuorumError::WriteQuorumFailed { successes, total: self.replica_count, visible })
        }
    }

    /// Whether a read can be tried: enough replicas must be visible.
    pub fn check_read_reachable(&self, visible: usize) -> (r: Result<(), QuorumError>)
        ensures
            r is Ok <==> visible >= self.read_quorum,
            r matches Err(e) ==> e == (QuorumError::ReadQuorumUnreachable {
                visible,
                total: self.replica_count,
                needed: self.read_quorum,
            }),
    {
        if visible < self.read_quorum {
            Err(QuorumError::ReadQuorumUnreachable { visible, total: self.replica_count, needed: self.read_quorum })
        } else {
            Ok(())
        }
    }
}

/// The next node on a ring of `n` nodes (counted from 1).
pub open spec fn ring_next(k: nat, n: nat) -> nat {
    (k % n) + 1
}

/// The previous node on a ring of `n` nodes (counted from 1).
pub open spec fn ring_prev(k: nat, n: nat) -> nat {
    (((k + n - 2) as nat) % n) + 1
}

proof fn lemma_ring_steps(k: nat, n: nat)
    requires
        1 <= k <= n,
    ensures
        1 <= ring_next(k, n) <= n,
        1 <= ring_prev(k, n) <= n,
        ring_prev(ring_next(k, n), n) == k,
        ring_next(ring_prev(k, n), n) == k,
{
    if k < n {
        vstd::arithmetic::div_mod::lemma_small_mod(k, n);
        assert(ring_next(k, n) == k + 1);
        // previous of k + 1 is k
        vstd::arithmetic::div_mod::lemma_mod_add_multiples_vanish((k - 1) as int, n as int);
        vstd::arithmetic::div_mod::lemma_small_mod((k - 1) as nat, n);
        assert(((k + 1 + n - 2) as nat) % n == k - 1);
    } else {
        vstd::arithmetic::div_mod::lemma_mod_self_0(n as int);
        assert(ring_next(k, n) == 1);
        vstd::arithmetic::div_mod::lemma_small_mod((n - 1) as nat, n);
        assert(((1 + n - 2) as nat) % n == n - 1);
    }
    if k >= 2 {
        vstd::arithmetic::div_mod::lemma_mod_add_multiples_vanish((k - 2) as int, n as int);
        vstd::arithmetic::div_mod::lemma_small_mod((k - 2) as nat, n);
        assert(ring_prev(k, n) == k - 1);
        vstd::arithmetic::div_mod::lemma_small_mod((k - 1) as nat, n);
    } else {
        vstd::arithmetic::div_mod::lemma_small_mod((n - 1) as nat, n);
        assert(ring_prev(k, n) == n);
        vstd::arithmetic::div_mod::lemma_mod_self_0(n as int);
    }
}

/// Reachability in a ring partition is mutual: if node `a` reaches node `b`,
/// node `b` reaches node `a`.
pub proof fn lemma_ring_reach_is_mutual(a: nat, b: nat, n: nat)
    requires
        1 <= a <= n,
        1 <= b <= n,
        ring_peers(a, n).contains(node_name(b)),
    ensures
        ring_peers(b, n).contains(node_name(a)),
{
    lemma_ring_steps(a, n);
    lemma_ring_steps(b, n);
    assert(ring_peers(a, n)[0] == node_name(a));
    assert(ring_peers(a, n)[1] == node_name(ring_next(a, n)));
    assert(ring_peers(a, n)[2] == node_name(ring_prev(a, n)));
    let i = choose|i: int| 0 <= i < ring_peers(a, n).len() && ring_peers(a, n)[i] == node_name(b);
    if i == 0 {
        lemma_node_name_injective(a, b);
        assert(ring_peers(b, n)[0] == node_name(a));
    } else if i == 1 {
        lemma_node_name_injective(ring_next(a, n), b);
        assert(ring_peers(b, n)[2] == node_name(a));
    } else {
        lemma_node_name_injective(ring_prev(a, n), b);
        assert(ring_peers(b, n)[1] == node_name(a));
    }
}

/// Every node of a ring reaches itself.
pub proof fn lemma_ring_reaches_self(k: nat, n: nat)
    ensures
        ring_peers(k, n).contains(node_name(k)),
{
    assert(ring_peers(k, n)[0] == node_name(k));
}

/// In a split-brain partition, the list of a node other than the isolated
/// one names every node but the isolated one, and never the isolated one.
pub proof fn lemma_split_brain_cut(n: nat, isolated: nat, j: nat)
    requires
        1 <= j <= n,
    ensures
        !Seq::new(n, |i: int| node_name((i + 1) as nat)).filter(|s: Seq<char>| s != node_name(isolated))
            .contains(node_name(isolated)),
        j != isolated ==> Seq::new(n, |i: int| node_name((i + 1) as nat)).filter(
            |s: Seq<char>| s != node_name(isolated),
        ).contains(node_name(j)),
{
    let all = Seq::new(n, |i: int| node_name((i + 1) as nat));
    let keep = |s: Seq<char>| s != node_name(isolated);
    let f = all.filter(keep);
    if f.contains(node_name(isolated)) {
        let i = choose|i: int| 0 <= i < f.len() && f[i] == node_name(isolated);
        all.lemma_filter_pred(keep, i);
    }
    if j != isolated {
        assert(all[j - 1] == node_name(j));
        assert(keep(node_name(j))) by {
            if node_name(j) == node_name(isolated) {
                lemma_node_name_injective(j, isolated);
            }
        }
        all.lemma_filter_contains_rev(keep, node_name(j));
    }
}

/// The majority of `n` replicas is the smallest strict majority: twice it is
/// more than `n`, twice one less is not, and it never asks for more replicas
/// than there are.
pub proof fn lemma_majority_is_smallest_strict_majority(n: nat)
    ensures
        2 * majority(n) > n,
        2 * (majority(n) - 1) <= n,
        n >= 1 ==> majority(n) <= n,
{
}

/// Two strict majorities of the same replicas share a replica, so a read
/// quorum always meets the last write quorum.
pub proof fn lemma_majorities_overlap(n: nat, a: Set<int>, b: Set<int>)
    requires
        a.subset_of(vstd::set_lib::set_int_range(0, n as int)),
        b.subset_of(vstd::set_lib::set_int_range(0, n as int)),
        a.len() >= majority(n),
        b.len() >= majority(n),
    ensures
        exists|x: int| a.contains(x) && b.contains(x),
{
    let r = vstd::set_lib::set_int_range(0, n as int);
    vstd::set_lib::lemma_int_range(0, n as int);
    vstd::set_lib::lemma_len_subset(a, r);
    vstd::set_lib::lemma_len_subset(b, r);
    vstd::set_lib::lemma_len_subset(a + b, r);
    vstd::set_lib::lemma_set_intersect_union_lens(a, b);
    if !exists|x: int| a.contains(x) && b.contains(x) {
        assert(a.intersect(b) =~= Set::<int>::empty());
    }
}

} // verus!
