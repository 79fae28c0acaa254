//! Post-quantum identity: the hybrid key exchange and the ML-DSA-87 signer.

use vstd::prelude::*;
use crate::arkhe_core::KernelError;
use crate::text::string_of;

verus! {

/// The BLAKE3 digest of a byte string.
pub uninterp spec fn blake3_digest(data: Seq<u8>) -> Seq<u8>;

/// Hashes bytes with BLAKE3.
///
/// Calls `blake3::hash`; the contract claims that the result is the 32-byte
/// digest, a function of the input alone.
#[verifier::external_body]
fn blake3_hash(data: &[u8]) -> (h: Vec<u8>)
    ensures
        h@ == blake3_digest(data@),
        h@.len() == 32,
{
    blake3::hash(data).as_bytes().to_vec()
}

/// `n` zero bytes.
pub fn zero_bytes(n: usize) -> (v: Vec<u8>)
    ensures
        v@ == Seq::new(n as nat, |i: int| 0u8),
{
    let mut v: Vec<u8> = Vec::new();
    let mut i: usize = 0;
    while i < n
        invariant
            0 <= i <= n,
            v@ == Seq::new(i as nat, |j: int| 0u8),
        decreases n - i,
    {
        v.push(0u8);
        i = i + 1;
        assert(v@ =~= Seq::new(i as nat, |j: int| 0u8));
    }
    v
}

/// The length of the exported hybrid public key: an X25519 part and an
/// ML-KEM-1024 part.
pub const HYBRID_PUBLIC_KEY_LEN: usize = 32 + 1568;

/// The hybrid (X25519 + ML-KEM-1024) key exchange. Its key material is not
/// generated yet: the exported key and the shared secret are fixed values.
pub struct HybridKeyExchange {}

impl HybridKeyExchange {
    /// A key exchange.
    pub fn generate() -> (k: HybridKeyExchange) {
        HybridKeyExchange {}
    }

    /// The exported public key: 32 + 1568 zero bytes.
    pub fn public_key_bytes(&self) -> (b: Vec<u8>)
        ensures
            b@ == Seq::new(HYBRID_PUBLIC_KEY_LEN as nat, |i: int| 0u8),
    {
        zero_bytes(HYBRID_PUBLIC_KEY_LEN)
    }

    /// The shared secret with a peer: the BLAKE3 digest of 64 zero bytes,
    /// whatever the peer's key.
    pub fn derive_shared(&self, peer_public: &[u8]) -> (s: Vec<u8>)
        ensures
            s@ == blake3_digest(Seq::new(64, |i: int| 0u8)),
            s@.len() == 32,
    {
        let input = zero_bytes(64);
        blake3_hash(input.as_slice())
    }
}

/// Length of an encoded ML-DSA-87 signature.
pub const MLDSA87_SIGNATURE_LEN: usize = 4627;

/// Length of an encoded ML-DSA-87 verifying key.
pub const MLDSA87_VERIFYING_KEY_LEN: usize = 2592;

/// The encoded ML-DSA-87 verifying key that belongs to a 32-byte seed.
pub uninterp spec fn mldsa87_verifying_key_of(seed: Seq<u8>) -> Seq<u8>;

/// Whether a 4627-byte string decodes as an ML-DSA-87 signature.
pub uninterp spec fn mldsa87_signature_decodes(sig: Seq<u8>) -> bool;

/// Whether an ML-DSA-87 verifying key accepts a decodable signature of a
/// message (with the empty context).
pub uninterp spec fn mldsa87_accepts(vk: Seq<u8>, msg: Seq<u8>, sig: Seq<u8>) -> bool;

/// Derives the encoded verifying key from a seed.
///
/// Calls `ml_dsa::SigningKey::<MlDsa87>::from_seed`, then `verifying_key`
/// and `encode`; the contract claims a 2592-byte key that depends on the
/// seed alone.
#[verifier::external_body]
fn mldsa87_verifying_key(seed: &[u8; 32]) -> (vk: Vec<u8>)
    ensures
        vk@ == mldsa87_verifying_key_of(seed@),
        vk@.len() == MLDSA87_VERIFYING_KEY_LEN,
{
    let seed: ml_dsa::Seed = (*seed).into();
    let sk = ml_dsa::SigningKey::<ml_dsa::MlDsa87>::from_seed(&seed);
    ml_dsa::Keypair::verifying_key(&sk).encode().to_vec()
}

/// Decodes a signature of the right length.
///
/// Calls `ml_dsa::Signature::<MlDsa87>::decode` on the bytes; the contract
/// claims that the answer depends on the bytes alone.
#[verifier::external_body]
fn mldsa87_decodes(sig: &[u8]) -> (ok: bool)
    requires
        sig@.len() == MLDSA87_SIGNATURE_LEN,
    ensures
        ok == mldsa87_signature_decodes(sig@),
{
    let enc = ml_dsa::EncodedSignature::<ml_dsa::MlDsa87>::try_from(sig).unwrap();
    ml_dsa::Signature::<ml_dsa::MlDsa87>::decode(&enc).is_some()
}

/// Checks a decodable signature against an encoded verifying key.
///
/// Calls `ml_dsa::VerifyingKey::<MlDsa87>::decode` on the key and the
/// `Verifier::verify` of that key on the decoded signature; the contract
/// claims that the answer depends on the key, message and signature alone.
#[verifier::external_body]
fn mldsa87_verify(vk: &[u8], msg: &[u8], sig: &[u8]) -> (ok: bool)
    requires
        vk@.len() == MLDSA87_VERIFYING_KEY_LEN,
        sig@.len() == MLDSA87_SIGNATURE_LEN,
        mldsa87_signature_decodes(sig@),
    ensures
        ok == mldsa87_accepts(vk@, msg@, sig@),
{
    let enc_vk = ml_dsa::EncodedVerifyingKey::<ml_dsa::MlDsa87>::try_from(vk).unwrap();
    let key = ml_dsa::VerifyingKey::<ml_dsa::MlDsa87>::decode(&enc_vk);
    let enc = ml_dsa::EncodedSignature::<ml_dsa::MlDsa87>::try_from(sig).unwrap();
    let s = ml_dsa::Signature::<ml_dsa::MlDsa87>::decode(&enc).unwrap();
    ml_dsa::signature::Verifier::verify(&key, msg, &s).is_ok()
}

/// An ML-DSA-87 signer, derived from a fixed all-zero seed.
pub struct MldsaSigner {
    seed: [u8; 32],
    verifying_key: Vec<u8>,
}

impl MldsaSigner {
    /// The encoded verifying key of the signer.
    pub closed spec fn key(&self) -> Seq<u8> {
        self.verifying_key@
    }

    /// A signer whose keys come from the all-zero seed.
    pub fn generate() -> (s: MldsaSigner)
        ensures
            s.key() == mldsa87_verifying_key_of(Seq::new(32, |i: int| 0u8)),
            s.key().len() == MLDSA87_VERIFYING_KEY_LEN,
    {
        let seed = [0u8; 32];
        assert(seed@ =~= Seq::new(32, |i: int| 0u8));
        let vk = mldsa87_verifying_key(&seed);
        MldsaSigner { seed, verifying_key: vk }
    }

    /// A signature of `msg`: in this implementation 4627 zero bytes for
    /// every message.
    pub fn sign(&self, msg: &[u8]) -> (sig: Vec<u8>)
        ensures
            sig@ == Seq::new(MLDSA87_SIGNATURE_LEN as nat, |i: int| 0u8),
    {
        zero_bytes(MLDSA87_SIGNATURE_LEN)
    }

    /// Checks a signature of `msg` under the signer's key: a signature of the
    /// wrong length, one that does not decode, and one that the key rejects
    /// each give a distinct error; an accepted one gives `Ok(true)`.
    pub fn verify(&self, msg: &[u8], sig: &[u8]) -> (r: Result<bool, KernelError>)
        requires
            self.key().len() == MLDSA87_VERIFYING_KEY_LEN,
        ensures
            sig@.len() != MLDSA87_SIGNATURE_LEN ==> (r matches Err(KernelError::PqcError(m))
                && m@ == "Invalid signature length"@),
            sig@.len() == MLDSA87_SIGNATURE_LEN && !mldsa87_signature_decodes(sig@) ==> (r matches Err(
                KernelError::PqcError(m),
            ) && m@ == "Invalid signature"@),
            sig@.len() == MLDSA87_SIGNATURE_LEN && mldsa87_signature_decodes(sig@) && !mldsa87_accepts(
                self.key(),
                msg@,
                sig@,
            ) ==> (r matches Err(KernelError::PqcError(m)) && m@ == "Verify failed"@),
            sig@.len() == MLDSA87_SIGNATURE_LEN && mldsa87_signature_decodes(sig@) && mldsa87_accepts(
                self.key(),
                msg@,
                sig@,
            ) ==> r == Ok::<bool, KernelError>(true),
    {
        if sig.len() != MLDSA87_SIGNATURE_LEN {
            return Err(KernelError::PqcError(string_of("Invalid signature length")));
        }
        if !mldsa87_decodes(sig) {
            return Err(KernelError::PqcError(string_of("Invalid signature")));
        }
        if !mldsa87_verify(self.verifying_key.as_slice(), msg, sig) {
            return Err(KernelError::PqcError(string_of("Verify failed")));
        }
        Ok(true)
    }

    /// The exported verifying key: in this implementation 2592 zero bytes.
    pub fn verifying_key_bytes(&self) -> (b: Vec<u8>)
        ensures
            b@ == Seq::new(MLDSA87_VERIFYING_KEY_LEN as nat, |i: int| 0u8),
    {
        zero_bytes(MLDSA87_VERIFYING_KEY_LEN)
    }
}

/// A local language model behind a model file. Generation answers with a
/// fixed text.
pub struct LlamaCppEngine {
    pub model_path: String,
}

impl LlamaCppEngine {
    /// An engine for the model at `model_path`.
    pub fn new(model_path: &str) -> (e: LlamaCppEngine)
        ensures
            e.model_path@ == model_path@,
    {
        LlamaCppEngine { model_path: string_of(model_path) }
    }

    /// The answer to a prompt: always `Ok("Mock LLM Output")`.
    pub fn generate_text(&self, prompt: &str, max_tokens: u32) -> (r: Result<String, String>)
        ensures
            r matches Ok(s) && s@ == "Mock LLM Output"@,
    {
        Ok(string_of("Mock LLM Output"))
    }
}

} // verus!
