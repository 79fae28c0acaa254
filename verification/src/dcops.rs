//! Data-centre operations: agents and their status, the provenance ledger
//! with its storage backend, compliance proofs, and signing key pairs with an
//! Ed25519 fallback for the post-quantum scheme.

use vstd::prelude::*;
use crate::text::string_of;
use crate::clock::{now_unix_secs, CLOCK_BOUND};
use crate::bridge::{ed25519_key_valid, ed25519_accepts, ed25519_key_check, ed25519_verify};

verus! {

// ------------------------------------------------------------------
// Agents
// ------------------------------------------------------------------

/// Whether an agent is running.
#[derive(PartialEq, Eq, Structural, Clone, Copy, Debug)]
pub enum AgentStatus {
    Active,
    Inactive,
    Error,
}

impl AgentStatus {
    /// The status as it is displayed: the variant's name.
    pub fn to_string(&self) -> (s: String)
        ensures
            s@ == (match self {
                AgentStatus::Active => "Active"@,
                AgentStatus::Inactive => "Inactive"@,
                AgentStatus::Error => "Error"@,
            }),
    {
        match self {
            AgentStatus::Active => string_of("Active"),
            AgentStatus::Inactive => string_of("Inactive"),
            AgentStatus::Error => string_of("Error"),
        }
    }
}

/// An operations agent and its decentralised identifier.
pub struct Agent {
    pub id: String,
    pub name: String,
    pub status: AgentStatus,
    pub did: String,
}

// ------------------------------------------------------------------
// The ledger
// ------------------------------------------------------------------

/// One action an agent took; `data` is its JSON document as text.
pub struct Action {
    pub id: String,
    pub agent_id: String,
    pub action_type: String,
    pub data: String,
}

/// A block of actions with the Unix time (seconds) it was made at.
pub struct Block {
    pub actions: Vec<Action>,
    pub timestamp: i64,
}

impl Block {
    /// A block of the given actions, stamped with the current time.
    pub fn new(actions: Vec<Action>) -> (b: Block)
        ensures
            b.actions@ == actions@,
            -CLOCK_BOUND < b.timestamp < CLOCK_BOUND,
    {
        let timestamp = now_unix_secs();
        Block { actions, timestamp }
    }
}

/// The blocks that trace where something came from.
pub struct ProvenanceTrace {
    pub blocks: Vec<Block>,
}

impl Default for ProvenanceTrace {
    /// A trace with no blocks.
    fn default() -> (t: Self)
        ensures
            t.blocks@.len() == 0,
    {
        ProvenanceTrace { blocks: Vec::new() }
    }
}

/// Why the ledger refused an operation.
pub enum WormGraphError {
    /// The storage failed, with its explanation.
    Storage(String),
}

impl WormGraphError {
    /// The error as it is displayed.
    pub fn message(&self) -> (s: String)
        ensures
            s@ == (match self {
                WormGraphError::Storage(e) => "Storage error: "@ + e@,
            }),
    {
        match self {
            WormGraphError::Storage(e) => {
                let mut s = string_of("Storage error: ");
                s.append(e.as_str());
                s
            },
        }
    }
}

/// Where the ledger's blocks are kept, for users to implement.
pub trait WormGraphBackend {
    /// Appends a block.
    fn append_entry(&mut self, block: Block) -> (r: Result<(), WormGraphError>);

    /// Up to `limit` of the blocks held.
    fn get_entries(&self, limit: Option<usize>) -> (r: Result<Vec<Block>, WormGraphError>);
}

/// Records agents' actions in a backend.
pub struct MemoryGateway<B: WormGraphBackend> {
    backend: B,
}

impl<B: WormGraphBackend> MemoryGateway<B> {
    /// The backend the gateway writes to.
    pub closed spec fn backend(&self) -> B {
        self.backend
    }

    /// A gateway over the given backend.
    pub fn new(backend: B) -> (g: Self)
        ensures
            g.backend() == backend,
    {
        MemoryGateway { backend }
    }

    /// The block that records one action: that action alone, stamped now.
    pub fn action_block(action: Action) -> (b: Block)
        ensures
            b.actions@ == seq![action],
            -CLOCK_BOUND < b.timestamp < CLOCK_BOUND,
    {
        let mut actions: Vec<Action> = Vec::new();
        actions.push(action);
        Block::new(actions)
    }

    /// Records one action of an agent: its block (see `action_block`) is
    /// appended to the backend, whose answer is returned; what the backend
    /// does with it is the backend's own.
    pub fn record_action(&mut self, agent_id: &str, action: Action) -> (r: Result<(), WormGraphError>) {
        let block = Self::action_block(action);
        self.backend.append_entry(block)
    }

    /// The provenance of an id: no trace is kept yet, so it is empty.
    pub fn query_provenance(&self, id: &str) -> (r: Result<ProvenanceTrace, WormGraphError>)
        ensures
            r matches Ok(t) && t.blocks@.len() == 0,
    {
        Ok(ProvenanceTrace::default())
    }
}

// ------------------------------------------------------------------
// Compliance proofs
// ------------------------------------------------------------------

/// A zero-knowledge proof, by its hash.
pub struct ZKProof {
    pub hash: String,
}

/// Why a proof could not be made or checked.
#[derive(PartialEq, Eq, Structural, Clone, Copy, Debug)]
pub enum ZkError {
    ProveError,
    VerifyError,
}

impl ZkError {
    /// The error as it is displayed.
    pub fn message(&self) -> (s: String)
        ensures
            s@ == (match self {
                ZkError::ProveError => "Proving failed"@,
                ZkError::VerifyError => "Verification failed"@,
            }),
    {
        match self {
            ZkError::ProveError => string_of("Proving failed"),
            ZkError::VerifyError => string_of("Verification failed"),
        }
    }
}

/// Proves that operations comply with a policy, and checks carbon reports.
pub struct ZkGateway {}

impl ZkGateway {
    pub fn new() -> (g: ZkGateway) {
        ZkGateway {}
    }

    /// A proof that `data` complies with `policy`: the fixed compliance
    /// proof `0xMockZkProofCompliance`.
    pub fn prove_compliance(&self, policy: &str, data: &[u8]) -> (r: Result<ZKProof, ZkError>)
        ensures
            r matches Ok(p) && p.hash@ == "0xMockZkProofCompliance"@,
    {
        Ok(ZKProof { hash: string_of("0xMockZkProofCompliance") })
    }

    /// Checks the proof behind a carbon report: every proof is accepted.
    pub fn verify_carbon_report(&self, proof: &ZKProof) -> (r: Result<bool, ZkError>)
        ensures
            r == Ok::<bool, ZkError>(true),
    {
        Ok(true)
    }
}

// ------------------------------------------------------------------
// Signing key pairs
// ------------------------------------------------------------------

/// Why a key pair could not be made or used.
#[derive(PartialEq, Eq, Structural, Clone, Copy, Debug)]
pub enum PqcError {
    KeygenFailed,
    SigningFailed,
    VerificationFailed,
    InvalidKey,
    /// The post-quantum scheme is not built in.
    MldsaUnavailable,
}

impl PqcError {
    /// The error as it is displayed.
    pub fn message(&self) -> (s: String)
        ensures
            s@ == (match self {
                PqcError::KeygenFailed => "Key generation failed"@,
                PqcError::SigningFailed => "Signing failed"@,
                PqcError::VerificationFailed => "Verification failed"@,
                PqcError::InvalidKey => "Invalid key"@,
                PqcError::MldsaUnavailable => "ML-DSA not available (feature not enabled)"@,
            }),
    {
        match self {
            PqcError::KeygenFailed => string_of("Key generation failed"),
            PqcError::SigningFailed => string_of("Signing failed"),
            PqcError::VerificationFailed => string_of("Verification failed"),
            PqcError::InvalidKey => string_of("Invalid key"),
            PqcError::MldsaUnavailable => string_of("ML-DSA not available (feature not enabled)"),
        }
    }
}

/// The signature scheme of a key pair.
#[derive(PartialEq, Eq, Structural, Clone, Copy, Debug)]
pub enum PqcAlgorithm {
    Ed25519,
    Mldsa65,
}

/// The Ed25519 verifying key (32 bytes) of a 32-byte secret key.
pub uninterp spec fn ed25519_public_of(secret: Seq<u8>) -> Seq<u8>;

/// The Ed25519 signature (64 bytes) of a message under a 32-byte secret key.
pub uninterp spec fn ed25519_signature_of(secret: Seq<u8>, message: Seq<u8>) -> Seq<u8>;

/// 32 random bytes from the operating system.
///
/// Calls `rand::RngCore::fill_bytes` on `rand::rngs::OsRng`; nothing is
/// claimed of the bytes.
#[verifier::external_body]
fn os_random_secret() -> (secret: [u8; 32]) {
    let mut secret = [0u8; 32];
    rand::RngCore::fill_bytes(&mut rand::rngs::OsRng, &mut secret);
    secret
}

/// The verifying key of a secret key.
///
/// Calls `ed25519_dalek::SigningKey::from_bytes`, `verifying_key` and
/// `to_bytes`. The contract claims that the key depends on the secret alone
/// and, as for every key derived this way, that it decodes as a verifying key.
#[verifier::external_body]
fn ed25519_public_key(secret: &[u8; 32]) -> (key: [u8; 32])
    ensures
        key@ == ed25519_public_of(secret@),
        ed25519_key_valid(key@),
{
    ed25519_dalek::SigningKey::from_bytes(secret).verifying_key().to_bytes()
}

/// Signs a message.
///
/// Calls `ed25519_dalek::SigningKey::from_bytes` and `Signer::sign`, then
/// `to_bytes`. Ed25519 signing is deterministic, so the contract claims that
/// the signature depends on the secret and the message alone, and that the
/// secret's verifying key accepts it, as it accepts every signature it made.
#[verifier::external_body]
fn ed25519_sign(secret: &[u8; 32], message: &[u8]) -> (signature: [u8; 64])
    ensures
        signature@ == ed25519_signature_of(secret@, message@),
        ed25519_accepts(ed25519_public_of(secret@), message@, signature@),
{
    let key = ed25519_dalek::SigningKey::from_bytes(secret);
    ed25519_dalek::Signer::sign(&key, message).to_bytes()
}

/// The first 32 bytes of `v` as an array.
fn first_32(v: &Vec<u8>) -> (a: [u8; 32])
    requires
        v@.len() == 32,
    ensures
        a@ == v@,
{
    let mut a = [0u8; 32];
    let mut i: usize = 0;
    while i < 32
        invariant
            i <= 32,
            v@.len() == 32,
            forall|k: int| 0 <= k < i ==> a@[k] == v@[k],
        decreases 32 - i,
    {
        a[i] = v[i];
        i = i + 1;
    }
    assert(a@ =~= v@);
    a
}

/// The first 64 bytes of `s` as an array.
fn first_64(s: &[u8]) -> (a: [u8; 64])
    requires
        s@.len() == 64,
    ensures
        a@ == s@,
{
    let mut a = [0u8; 64];
    let mut i: usize = 0;
    while i < 64
        invariant
            i <= 64,
            s@.len() == 64,
            forall|k: int| 0 <= k < i ==> a@[k] == s@[k],
        decreases 64 - i,
    {
        a[i] = s[i];
        i = i + 1;
    }
    assert(a@ =~= s@);
    a
}

/// The bytes of an array as a vector.
fn to_vec<const N: usize>(a: &[u8; N]) -> (v: Vec<u8>)
    ensures
        v@ == a@,
{
    let mut v: Vec<u8> = Vec::new();
    let mut i: usize = 0;
    while i < N
        invariant
            i <= N,
            a@.len() == N,
            v@ == a@.take(i as int),
        decreases N - i,
    {
        v.push(a[i]);
        i = i + 1;
        assert(v@ =~= a@.take(i as int));
    }
    assert(a@.take(N as int) =~= a@);
    v
}

/// A key pair and its scheme.
pub struct PqcKeyPair {
    pub public_key: Vec<u8>,
    pub private_key: Vec<u8>,
    pub algorithm: PqcAlgorithm,
}

impl PqcKeyPair {
    /// An Ed25519 pair whose public key (32 bytes) is the verifying key of
    /// its 32-byte private key.
    pub open spec fn is_ed25519_pair(&self) -> bool {
        &&& self.algorithm == PqcAlgorithm::Ed25519
        &&& self.private_key@.len() == 32
        &&& self.public_key@.len() == 32
        &&& self.public_key@ == ed25519_public_of(self.private_key@)
    }

    /// The Ed25519 pair of a 32-byte secret.
    pub fn from_ed25519_secret(secret: [u8; 32]) -> (kp: PqcKeyPair)
        ensures
            kp.is_ed25519_pair(),
            kp.private_key@ == secret@,
    {
        let public = ed25519_public_key(&secret);
        PqcKeyPair {
            public_key: to_vec(&public),
            private_key: to_vec(&secret),
            algorithm: PqcAlgorithm::Ed25519,
        }
    }

    /// A fresh key pair of the scheme: an Ed25519 pair from 32 random bytes;
    /// the post-quantum scheme is not built in.
    pub fn generate(algorithm: PqcAlgorithm) -> (r: Result<PqcKeyPair, PqcError>)
        ensures
            algorithm == PqcAlgorithm::Ed25519 ==> (r matches Ok(kp) && kp.is_ed25519_pair()),
            algorithm == PqcAlgorithm::Mldsa65 ==> r == Err::<PqcKeyPair, PqcError>(PqcError::MldsaUnavailable),
    {
        match algorithm {
            PqcAlgorithm::Ed25519 => Ok(PqcKeyPair::from_ed25519_secret(os_random_secret())),
            PqcAlgorithm::Mldsa65 => Err(PqcError::MldsaUnavailable),
        }
    }

    /// Signs a message with the private key. An Ed25519 signature has 64
    /// bytes and is one that the verifying key of the private key accepts, so
    /// a well-formed pair accepts its own signatures.
    pub fn sign(&self, message: &[u8]) -> (r: Result<Vec<u8>, PqcError>)
        requires
            self.algorithm == PqcAlgorithm::Ed25519 ==> self.private_key@.len() == 32,
        ensures
            self.algorithm == PqcAlgorithm::Ed25519 ==> (r matches Ok(sig) && {
                &&& sig@.len() == 64
                &&& sig@ == ed25519_signature_of(self.private_key@, message@)
                &&& ed25519_accepts(ed25519_public_of(self.private_key@), message@, sig@)
                &&& ed25519_key_valid(ed25519_public_of(self.private_key@))
            }),
            self.is_ed25519_pair() ==> (r matches Ok(sig) && ed25519_key_valid(self.public_key@)
                && ed25519_accepts(self.public_key@, message@, sig@)),
            self.algorithm == PqcAlgorithm::Mldsa65 ==> r == Err::<Vec<u8>, PqcError>(PqcError::MldsaUnavailable),
    {
        match self.algorithm {
            PqcAlgorithm::Ed25519 => {
                let secret = first_32(&self.private_key);
                let public = ed25519_public_key(&secret);
                let sig = ed25519_sign(&secret, message);
                Ok(to_vec(&sig))
            },
            PqcAlgorithm::Mldsa65 => Err(PqcError::MldsaUnavailable),
        }
    }

    /// Checks a signature of a message against the public key: `InvalidKey`
    /// where the public key is no verifying key, else whether it accepts.
    pub fn verify(&self, message: &[u8], signature: &[u8]) -> (r: Result<bool, PqcError>)
        requires
            self.algorithm == PqcAlgorithm::Ed25519 ==> self.public_key@.len() == 32 && signature@.len() == 64,
        ensures
            self.algorithm == PqcAlgorithm::Ed25519 ==> r == (if ed25519_key_valid(self.public_key@) {
                Ok::<bool, PqcError>(ed25519_accepts(self.public_key@, message@, signature@))
            } else {
                Err::<bool, PqcError>(PqcError::InvalidKey)
            }),
            self.algorithm == PqcAlgorithm::Mldsa65 ==> r == Err::<bool, PqcError>(PqcError::MldsaUnavailable),
    {
        match self.algorithm {
            PqcAlgorithm::Ed25519 => {
                let key = first_32(&self.public_key);
                if !ed25519_key_check(&key) {
                    return Err(PqcError::InvalidKey);
                }
                let sig = first_64(signature);
                Ok(ed25519_verify(&key, message, &sig))
            },
            PqcAlgorithm::Mldsa65 => Err(PqcError::MldsaUnavailable),
        }
    }
}

} // verus!
