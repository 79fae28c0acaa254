//! Zero-knowledge proofs: the proof record, the backend interface, the
//! physical-constraint prover, the Merkle-path witness, and the jobs and
//! results of the proving pipeline.

use vstd::prelude::*;
use crate::clock::new_uuid_string;
use crate::text::string_of;

verus! {

/// A proof with its public inputs and the circuit and key it is for.
pub struct ZkProof {
    pub proof_bytes: Vec<u8>,
    pub public_inputs: Vec<u64>,
    pub circuit_id: String,
    pub verification_key_hash: String,
}

fn clone_bytes(v: &Vec<u8>) -> (r: Vec<u8>)
    ensures
        r@ == v@,
{
    let r = v.clone();
    assert(r@ =~= v@);
    r
}

impl Clone for ZkProof {
    fn clone(&self) -> (r: Self)
        ensures
            r.proof_bytes@ == self.proof_bytes@,
            r.public_inputs@ == self.public_inputs@,
            r.circuit_id == self.circuit_id,
            r.verification_key_hash == self.verification_key_hash,
    {
        ZkProof {
            proof_bytes: clone_bytes(&self.proof_bytes),
            public_inputs: clone_u64s(&self.public_inputs),
            circuit_id: self.circuit_id.clone(),
            verification_key_hash: self.verification_key_hash.clone(),
        }
    }
}

/// A proving backend, for users to implement.
pub trait ZkBackend {
    /// Proves a circuit on public and private inputs.
    fn generate_proof(&self, circuit_id: &str, public_inputs: &[u8], private_inputs: &[u8]) -> Result<ZkProof, String>;

    /// Checks a proof.
    fn verify_proof(&self, proof: &ZkProof) -> Result<bool, String>;
}

/// The RISC Zero backend. It does not prove yet: it returns an empty proof
/// and accepts every proof.
pub struct Risc0Backend {}

impl Risc0Backend {
    /// A backend; creating it never fails.
    pub fn new() -> (r: Result<Risc0Backend, String>)
        ensures
            r is Ok,
    {
        Ok(Risc0Backend {})
    }
}

impl ZkBackend for Risc0Backend {
    fn generate_proof(&self, circuit_id: &str, public_inputs: &[u8], private_inputs: &[u8]) -> (r: Result<ZkProof, String>)
        ensures
            r matches Ok(p) && {
                &&& p.proof_bytes@.len() == 0
                &&& p.public_inputs@.len() == 0
                &&& p.circuit_id@.len() == 0
                &&& p.verification_key_hash@.len() == 0
            },
    {
        Ok(ZkProof { proof_bytes: Vec::new(), public_inputs: Vec::new(), circuit_id: String::new(), verification_key_hash: String::new() })
    }

    fn verify_proof(&self, proof: &ZkProof) -> (r: Result<bool, String>)
        ensures
            r matches Ok(b) && b,
    {
        Ok(true)
    }
}

/// The physical constraint a design is proved to meet.
#[derive(PartialEq, Eq, Structural, Clone, Copy, Debug)]
pub enum PhysicalConstraintType {
    SafetyFactor,
    MaterialStress,
}

/// Proves that designs meet physical constraints, on a backend.
pub struct PhysicalConstraintProofGenerator<B: ZkBackend> {
    pub backend: B,
}

/// The proof the generator gives: bytes 1, 2, 3, public input 42, circuit
/// `mock`, key hash `mock_vk`.
pub open spec fn is_constraint_proof(p: ZkProof) -> bool {
    &&& p.proof_bytes@ == seq![1u8, 2u8, 3u8]
    &&& p.public_inputs@ == seq![42u64]
    &&& p.circuit_id@ == "mock"@
    &&& p.verification_key_hash@ == "mock_vk"@
}

impl<B: ZkBackend> PhysicalConstraintProofGenerator<B> {
    /// A generator on `backend`.
    pub fn new(backend: B) -> (g: Self)
        ensures
            g.backend == backend,
    {
        PhysicalConstraintProofGenerator { backend }
    }

    /// A proof that a design meets a constraint; in this implementation the
    /// same fixed proof for every design.
    pub fn generate_proof(&self, constraint_type: PhysicalConstraintType, design_hash: &str, parameters: &str) -> (r: Result<ZkProof, String>)
        ensures
            r matches Ok(p) && is_constraint_proof(p),
    {
        let mut bytes: Vec<u8> = Vec::new();
        bytes.push(1);
        bytes.push(2);
        bytes.push(3);
        let mut inputs: Vec<u64> = Vec::new();
        inputs.push(42);
        let p = ZkProof { proof_bytes: bytes, public_inputs: inputs, circuit_id: string_of("mock"), verification_key_hash: string_of("mock_vk") };
        assert(p.proof_bytes@ =~= seq![1u8, 2u8, 3u8]);
        assert(p.public_inputs@ =~= seq![42u64]);
        Ok(p)
    }
}

// ------------------------------------------------------------------
// Merkle-path witness
// ------------------------------------------------------------------

/// The inputs of the Merkle-path circuit: the leaf, the sibling at each
/// level, the leaf's index and the root it should reach.
pub struct ReputationWitness {
    pub leaf_hash: [u64; 4],
    pub sibling_hashes: Vec<[u64; 4]>,
    pub leaf_index: u64,
    pub expected_root: [u64; 4],
}

/// The sibling fed to the circuit at `level`: the witness's sibling where it
/// has one, zeros beyond.
pub open spec fn sibling_at(siblings: Seq<[u64; 4]>, level: int) -> Seq<u64> {
    if level < siblings.len() {
        siblings[level]@
    } else {
        seq![0u64, 0u64, 0u64, 0u64]
    }
}

/// The siblings for all `max_depth` levels of the circuit: the witness's own,
/// cut to the depth, padded with zero hashes.
pub fn circuit_siblings(witness: &ReputationWitness, max_depth: usize) -> (r: Vec<[u64; 4]>)
    ensures
        r@.len() == max_depth,
        forall|l: int| 0 <= l < max_depth ==> (#[trigger] r@[l])@ == sibling_at(witness.sibling_hashes@, l),
{
    let mut r: Vec<[u64; 4]> = Vec::new();
    let mut level: usize = 0;
    while level < max_depth
        invariant
            0 <= level <= max_depth,
            r@.len() == level,
            forall|l: int| 0 <= l < level ==> (#[trigger] r@[l])@ == sibling_at(witness.sibling_hashes@, l),
        decreases max_depth - level,
    {
        if level < witness.sibling_hashes.len() {
            r.push(witness.sibling_hashes[level]);
        } else {
            let z: [u64; 4] = [0, 0, 0, 0];
            assert(z@ =~= seq![0u64, 0u64, 0u64, 0u64]);
            r.push(z);
        }
        level = level + 1;
    }
    r
}

/// The witness for a leaf, its siblings, index and expected root.
pub fn reputation_witness(leaf_hash: [u64; 4], siblings: Vec<[u64; 4]>, leaf_index: u64, root: [u64; 4]) -> (w: ReputationWitness)
    ensures
        w.leaf_hash == leaf_hash,
        w.sibling_hashes == siblings,
        w.leaf_index == leaf_index,
        w.expected_root == root,
{
    ReputationWitness { leaf_hash, sibling_hashes: siblings, leaf_index, expected_root: root }
}

// ------------------------------------------------------------------
// Proving pipeline
// ------------------------------------------------------------------

/// A proving job: which design, which constraint, its parameters (JSON
/// text) and the query it came from.
pub struct ZkProofJob {
    pub job_id: String,
    pub design_hash: String,
    pub constraint_type: PhysicalConstraintType,
    pub parameters: String,
    pub sail_query_id: Option<String>,
}

/// The outcome of a proving job.
pub struct ZkProofResult {
    pub job_id: String,
    pub proof: ZkProof,
    pub public_inputs: Vec<u64>,
    pub verified: bool,
    pub proving_time_ms: u64,
    pub error: Option<String>,
}

impl Clone for ZkProofResult {
    fn clone(&self) -> (r: Self)
        ensures
            r.job_id == self.job_id,
            r.proof.proof_bytes@ == self.proof.proof_bytes@,
            r.proof.public_inputs@ == self.proof.public_inputs@,
            r.proof.circuit_id == self.proof.circuit_id,
            r.proof.verification_key_hash == self.proof.verification_key_hash,
            r.public_inputs@ == self.public_inputs@,
            r.verified == self.verified,
            r.proving_time_ms == self.proving_time_ms,
            r.error == self.error,
    {
        let error = match &self.error {
            Some(e) => Some(e.clone()),
            None => None,
        };
        ZkProofResult {
            job_id: self.job_id.clone(),
            proof: self.proof.clone(),
            public_inputs: clone_u64s(&self.public_inputs),
            verified: self.verified,
            proving_time_ms: self.proving_time_ms,
            error,
        }
    }
}

/// The empty proof recorded for a failed job.
pub open spec fn is_error_proof(p: ZkProof) -> bool {
    &&& p.proof_bytes@.len() == 0
    &&& p.public_inputs@.len() == 0
    &&& p.circuit_id@ == "error"@
    &&& p.verification_key_hash@.len() == 0
}

fn error_proof() -> (p: ZkProof)
    ensures
        is_error_proof(p),
{
    ZkProof { proof_bytes: Vec::new(), public_inputs: Vec::new(), circuit_id: string_of("error"), verification_key_hash: String::new() }
}

fn clone_u64s(v: &Vec<u64>) -> (r: Vec<u64>)
    ensures
        r@ == v@,
{
    let mut r: Vec<u64> = Vec::new();
    let mut i: usize = 0;
    while i < v.len()
        invariant
            0 <= i <= v@.len(),
            r@ == v@.take(i as int),
        decreases v@.len() - i,
    {
        r.push(v[i]);
        i = i + 1;
        assert(r@ =~= v@.take(i as int));
    }
    assert(v@.take(v@.len() as int) =~= v@);
    r
}

/// The result a worker records for a job: a proved job is verified and
/// carries its proof and public inputs; a failed one carries the empty
/// error proof, no inputs, and the error message.
pub fn job_result(job_id: String, outcome: Result<ZkProof, String>, elapsed_ms: u64) -> (r: ZkProofResult)
    ensures
        r.job_id == job_id,
        r.proving_time_ms == elapsed_ms,
        match outcome {
            Ok(p) => r.verified && r.proof == p && r.public_inputs@ == p.public_inputs@ && r.error is None,
            Err(e) => !r.verified && is_error_proof(r.proof) && r.public_inputs@.len() == 0 && r.error == Some(e),
        },
{
    match outcome {
        Ok(p) => {
            let inputs = clone_u64s(&p.public_inputs);
            ZkProofResult { job_id, proof: p, public_inputs: inputs, verified: true, proving_time_ms: elapsed_ms, error: None }
        },
        Err(e) => ZkProofResult {
            job_id,
            proof: error_proof(),
            public_inputs: Vec::new(),
            verified: false,
            proving_time_ms: elapsed_ms,
            error: Some(e),
        },
    }
}

/// The result recorded for a job whose answer never came back: not verified,
/// no time, the empty error proof, and `Oneshot cancelado: ` followed by the
/// reason.
pub fn cancelled_result(job_id: String, reason: &str) -> (r: ZkProofResult)
    ensures
        r.job_id == job_id,
        !r.verified,
        r.proving_time_ms == 0,
        is_error_proof(r.proof),
        r.public_inputs@.len() == 0,
        r.error matches Some(e) && e@ == "Oneshot cancelado: "@ + reason@,
{
    let mut msg = string_of("Oneshot cancelado: ");
    msg.append(reason);
    ZkProofResult { job_id, proof: error_proof(), public_inputs: Vec::new(), verified: false, proving_time_ms: 0, error: Some(msg) }
}

/// Runs a job on a generator.
pub fn process_job<B: ZkBackend>(generator: &PhysicalConstraintProofGenerator<B>, job: &ZkProofJob) -> (r: Result<ZkProof, String>)
    ensures
        r matches Ok(p) && is_constraint_proof(p),
{
    generator.generate_proof(job.constraint_type, job.design_hash.as_str(), job.parameters.as_str())
}

/// The string value of a top-level field of a JSON object.
pub uninterp spec fn json_string_field(json: Seq<char>, key: Seq<char>) -> Option<Seq<char>>;

/// Reads a top-level string field of a JSON object.
///
/// Calls `serde_json::from_str::<serde_json::Value>`, then `get` and
/// `as_str`; the contract claims that the answer depends on the text and the
/// key alone.
#[verifier::external_body]
fn json_str_field(json: &str, key: &str) -> (r: Option<String>)
    ensures
        match r {
            Some(s) => json_string_field(json@, key@) == Some(s@),
            None => json_string_field(json@, key@) is None,
        },
{
    serde_json::from_str::<serde_json::Value>(json).ok()?.get(key)?.as_str().map(|s| s.to_string())
}

/// The design hash of a data-frame row: its `design_hash` string field, or
/// `unknown`.
pub open spec fn row_design_hash(row: Seq<char>) -> Seq<char> {
    match json_string_field(row, "design_hash"@) {
        Some(h) => h,
        None => "unknown"@,
    }
}

/// The proving jobs for the rows of a data frame (each row JSON text): one
/// job per row, in order, with a fresh id, the row's design hash, the given
/// constraint, the row as parameters, and a fresh query id
/// `sail-query-<uuid>`.
pub fn sail_jobs(rows: Vec<String>, constraint_type: PhysicalConstraintType) -> (jobs: Vec<ZkProofJob>)
    ensures
        jobs@.len() == rows@.len(),
        forall|i: int| 0 <= i < rows@.len() ==> {
            &&& (#[trigger] jobs@[i]).design_hash@ == row_design_hash(rows@[i]@)
            &&& jobs@[i].constraint_type == constraint_type
            &&& jobs@[i].parameters == rows@[i]
            &&& jobs@[i].job_id@.len() == 36
            &&& jobs@[i].sail_query_id matches Some(q) && q@.len() == 11 + 36 && q@.take(11) == "sail-query-"@
        },
{
    let ghost orig = rows@;
    let mut rest = rows;
    let mut jobs: Vec<ZkProofJob> = Vec::new();
    proof {
        reveal_strlit("sail-query-");
    }
    while rest.len() > 0
        invariant
            jobs@.len() + rest@.len() == orig.len(),
            rest@ == orig.skip(jobs@.len() as int),
            "sail-query-"@.len() == 11,
            forall|k: int| 0 <= k < jobs@.len() ==> {
                &&& (#[trigger] jobs@[k]).design_hash@ == row_design_hash(orig[k]@)
                &&& jobs@[k].constraint_type == constraint_type
                &&& jobs@[k].parameters == orig[k]
                &&& jobs@[k].job_id@.len() == 36
                &&& jobs@[k].sail_query_id matches Some(q) && q@.len() == 11 + 36 && q@.take(11) == "sail-query-"@
            },
        decreases rest@.len(),
    {
        let row = rest.remove(0);
        assert(row == orig[jobs@.len() as int]);
        assert(rest@ =~= orig.skip(jobs@.len() as int + 1));
        let design_hash = match json_str_field(row.as_str(), "design_hash") {
            Some(h) => h,
            None => string_of("unknown"),
        };
        let job_id = new_uuid_string();
        let mut query = string_of("sail-query-");
        let tail = new_uuid_string();
        let ghost q0 = query@;
        query.append(tail.as_str());
        assert(query@.take(11) =~= q0);
        jobs.push(ZkProofJob { job_id, design_hash, constraint_type, parameters: row, sail_query_id: Some(query) });
    }
    jobs
}

/// The results of a batch, in the order of its jobs: the answer a job's
/// worker sent back, or, where none came, the cancelled result with the
/// reason its channel gave.
pub fn batch_results(job_ids: Vec<String>, answers: Vec<Result<ZkProofResult, String>>) -> (r: Vec<ZkProofResult>)
    requires
        job_ids@.len() == answers@.len(),
    ensures
        r@.len() == job_ids@.len(),
        forall|i: int| 0 <= i < r@.len() ==> match #[trigger] answers@[i] {
            Ok(res) => r@[i] == res,
            Err(reason) => {
                &&& r@[i].job_id == job_ids@[i]
                &&& !r@[i].verified
                &&& r@[i].proving_time_ms == 0
                &&& is_error_proof(r@[i].proof)
                &&& r@[i].public_inputs@.len() == 0
                &&& r@[i].error matches Some(e) && e@ == "Oneshot cancelado: "@ + reason@
            },
        },
{
    let ghost ids0 = job_ids@;
    let ghost ans0 = answers@;
    let mut ids = job_ids;
    let mut rest = answers;
    let mut r: Vec<ZkProofResult> = Vec::new();
    while rest.len() > 0
        invariant
            ids@.len() == rest@.len(),
            r@.len() + rest@.len() == ans0.len(),
            ids0.len() == ans0.len(),
            ids@ == ids0.skip(r@.len() as int),
            rest@ == ans0.skip(r@.len() as int),
            forall|i: int| 0 <= i < r@.len() ==> match #[trigger] ans0[i] {
                Ok(res) => r@[i] == res,
                Err(reason) => {
                    &&& r@[i].job_id == ids0[i]
                    &&& !r@[i].verified
                    &&& r@[i].proving_time_ms == 0
                    &&& is_error_proof(r@[i].proof)
                    &&& r@[i].public_inputs@.len() == 0
                    &&& r@[i].error matches Some(e) && e@ == "Oneshot cancelado: "@ + reason@
                },
            },
        decreases rest@.len(),
    {
        let k = r.len();
        let id = ids.remove(0);
        let answer = rest.remove(0);
        assert(id == ids0[k as int]);
        assert(answer == ans0[k as int]);
        assert(ids@ =~= ids0.skip(k as int + 1));
        assert(rest@ =~= ans0.skip(k as int + 1));
        match answer {
            Ok(res) => r.push(res),
            Err(reason) => r.push(cancelled_result(id, reason.as_str())),
        }
    }
    r
}

/// A backend that proves nothing: every proof is bytes 1, 2, 3 with public
/// input 42, circuit `mock` and key hash `0xMock`, and every proof is
/// accepted.
pub struct MockBackend {}

impl ZkBackend for MockBackend {
    fn generate_proof(&self, circuit_id: &str, public_inputs: &[u8], private_inputs: &[u8]) -> (r: Result<ZkProof, String>)
        ensures
            r matches Ok(p) && {
                &&& p.proof_bytes@ == seq![1u8, 2u8, 3u8]
                &&& p.public_inputs@ == seq![42u64]
                &&& p.circuit_id@ == "mock"@
                &&& p.verification_key_hash@ == "0xMock"@
            },
    {
        let mut bytes: Vec<u8> = Vec::new();
        bytes.push(1);
        bytes.push(2);
        bytes.push(3);
        let mut inputs: Vec<u64> = Vec::new();
        inputs.push(42);
        let p = ZkProof { proof_bytes: bytes, public_inputs: inputs, circuit_id: string_of("mock"), verification_key_hash: string_of("0xMock") };
        assert(p.proof_bytes@ =~= seq![1u8, 2u8, 3u8]);
        assert(p.public_inputs@ =~= seq![42u64]);
        Ok(p)
    }

    fn verify_proof(&self, proof: &ZkProof) -> (r: Result<bool, String>)
        ensures
            r matches Ok(b) && b,
    {
        Ok(true)
    }
}

} // verus!
