//! Reputation records and their proofs. The Merkle tree and the manager do
//! not keep scores yet: their answers are fixed.

use vstd::prelude::*;

verus! {

/// A proof of an agent's score against a tree root.
pub struct ReputationProof {
    pub score: u64,
    pub root_hash: [u64; 4],
}

/// A Merkle tree of reputation scores, known by its root.
pub struct ReputationMerkleTree {
    pub root_hash: [u64; 4],
}

/// The all-zero root.
pub open spec fn zero_root() -> Seq<u64> {
    seq![0u64, 0u64, 0u64, 0u64]
}

impl ReputationMerkleTree {
    /// An empty tree, whose root is all zeros.
    pub fn new() -> (t: ReputationMerkleTree)
        ensures
            t.root_hash@ == zero_root(),
    {
        let t = ReputationMerkleTree { root_hash: [0, 0, 0, 0] };
        assert(t.root_hash@ =~= zero_root());
        t
    }

    /// Records a score; the tree does not change.
    pub fn upsert(&mut self, agent: &str, score: u64)
        ensures
            final(self).root_hash == old(self).root_hash,
    {
    }

    /// A proof for an agent: a score of 0 against the all-zero root.
    pub fn generate_proof(&self, agent: &str) -> (p: Option<ReputationProof>)
        ensures
            p matches Some(q) && q.score == 0 && q.root_hash@ == zero_root(),
    {
        let q = ReputationProof { score: 0, root_hash: [0, 0, 0, 0] };
        assert(q.root_hash@ =~= zero_root());
        Some(q)
    }

    /// Every proof is accepted.
    pub fn verify_proof(&self, proof: &ReputationProof) -> (r: Option<bool>)
        ensures
            r == Some(true),
    {
        Some(true)
    }
}

/// A tree made by `new` and then changed only by upserts keeps the all-zero
/// root, so every proof it gives (score 0 against the all-zero root) names
/// the tree's own root. `trees` is the run: the new tree, then the tree after
/// each upsert.
pub proof fn lemma_upserts_keep_zero_root(trees: Seq<ReputationMerkleTree>)
    requires
        trees.len() > 0,
        trees[0].root_hash@ == zero_root(),
        forall|i: int| 0 <= i < trees.len() - 1 ==> (#[trigger] trees[i + 1]).root_hash == trees[i].root_hash,
    ensures
        forall|i: int| 0 <= i < trees.len() ==> (#[trigger] trees[i]).root_hash@ == zero_root(),
    decreases trees.len(),
{
    if trees.len() > 1 {
        let init = trees.drop_last();
        assert forall|i: int| 0 <= i < init.len() - 1 implies (#[trigger] init[i + 1]).root_hash == init[i].root_hash by {
            assert(init[i + 1] == trees[i + 1] && init[i] == trees[i]);
        }
        lemma_upserts_keep_zero_root(init);
        assert forall|i: int| 0 <= i < trees.len() implies (#[trigger] trees[i]).root_hash@ == zero_root() by {
            if i < init.len() {
                assert(init[i] == trees[i]);
            } else {
                let j = i - 1;
                assert(init[j] == trees[j]);
                assert(trees[j + 1].root_hash == trees[j].root_hash);
            }
        }
    }
}

/// The reputation service of the ledger.
pub struct ReputationManager {}

impl ReputationManager {
    /// A manager.
    pub fn new() -> (m: ReputationManager) {
        ReputationManager {}
    }

    /// Recomputes an agent's reputation; there is nothing to recompute yet.
    pub fn update_reputation(&self, agent_id: &str) -> (r: Result<(), String>)
        ensures
            r is Ok,
    {
        Ok(())
    }

    /// An agent's reputation with its proof: 1, proved as a score of 1
    /// against the all-zero root.
    pub fn get_reputation_with_proof(&self, agent_id: &str) -> (r: Result<(u64, ReputationProof), String>)
        ensures
            r matches Ok((s, p)) && s == 1 && p.score == 1 && p.root_hash@ == zero_root(),
    {
        let p = ReputationProof { score: 1, root_hash: [0, 0, 0, 0] };
        assert(p.root_hash@ =~= zero_root());
        Ok((1, p))
    }

    /// Every Merkle proof is accepted.
    pub fn verify_merkle_proof(&self, proof: &ReputationProof) -> (r: Result<bool, String>)
        ensures
            r == Ok::<bool, String>(true),
    {
        Ok(true)
    }

    /// A zero-knowledge proof of an agent's reputation: empty.
    pub fn generate_zk_reputation_proof(&self, agent_id: &str) -> (r: Result<Vec<u8>, String>)
        ensures
            r matches Ok(v) && v@.len() == 0,
    {
        Ok(Vec::new())
    }

    /// Every zero-knowledge reputation proof is accepted.
    pub fn verify_zk_reputation_proof(&self, proof: &[u8], agent_id: &str) -> (r: Result<bool, String>)
        ensures
            r == Ok::<bool, String>(true),
    {
        Ok(true)
    }
}

} // verus!
