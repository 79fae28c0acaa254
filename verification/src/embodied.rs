//! The embodied agent's pieces: proofs of its memory state, the policy that
//! asks for them, the ad-recommendation client and the recorder of
//! successful rounds.

use vstd::prelude::*;

verus! {

/// A proof over the agent's memory: the Merkle root it commits to.
pub struct MemoryProof {
    pub merkle_root: String,
}

/// Proves the current memory state. No memory is committed yet, so the
/// proof carries an empty Merkle root.
pub fn prove_memory_state() -> (r: Result<MemoryProof, String>)
    ensures
        r matches Ok(p) && p.merkle_root@ == Seq::<char>::empty(),
{
    Ok(MemoryProof { merkle_root: String::new() })
}

/// Whether recommendations must come with a proof of memory.
pub struct ZkMemoryProofPolicy {
    pub require_memory_proof_for_recommendations: bool,
}

impl Default for ZkMemoryProofPolicy {
    /// By default no memory proof is required.
    fn default() -> (p: Self)
        ensures
            !p.require_memory_proof_for_recommendations,
    {
        ZkMemoryProofPolicy { require_memory_proof_for_recommendations: false }
    }
}

/// Evolves the proof policy from what the recommendation hubs achieved.
pub struct AegisEvolution {}

impl AegisEvolution {
    /// A fresh evolver; the two optional settings are accepted and unused.
    pub fn new(config_path: Option<String>, state_path: Option<String>) -> (e: AegisEvolution) {
        AegisEvolution {}
    }

    /// Evolves `policy` for the given context. No hub performance has been
    /// gathered, so the policy is left as it is.
    pub fn evolve_policy<C>(&mut self, policy: &mut ZkMemoryProofPolicy, context: &C)
        ensures
            *final(policy) == *old(policy),
            *final(self) == *old(self),
    {
    }
}

/// One recommendation: where it points and the hub that made it.
pub struct PicoAdsRecommendation {
    pub url: String,
    pub hub: String,
}

/// A client of the ad-recommendation service.
pub struct PicoAdsClient {}

impl PicoAdsClient {
    /// A client for the given endpoint and optional key.
    pub fn new(endpoint: String, api_key: Option<String>) -> (c: PicoAdsClient) {
        PicoAdsClient {}
    }

    /// The recommendations for a query: the service answers none.
    pub fn get_recommendations(&self, query: &str, hub: Option<&str>, limit: Option<u32>) -> (r: Result<
        Vec<PicoAdsRecommendation>,
        String,
    >)
        ensures
            r matches Ok(v) && v@.len() == 0,
    {
        Ok(Vec::new())
    }
}

/// One recorded round.
pub struct Record {
    pub memory_proof_used: bool,
}

/// The rounds recorded so far.
pub struct JsonRecorder {
    pub records: Vec<Record>,
}

impl JsonRecorder {
    /// A recorder with no rounds; the optional output path is unused.
    pub fn new(path: Option<&str>) -> (r: JsonRecorder)
        ensures
            r.records@.len() == 0,
    {
        JsonRecorder { records: Vec::new() }
    }
}

} // verus!
