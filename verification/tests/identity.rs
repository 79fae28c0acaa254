use cathedral::code_identity::{Did, sign_message, verify_signature};
use cathedral::dcops::{PqcKeyPair, PqcAlgorithm, PqcError, AgentStatus};
use cathedral::arkhe_identity::{HybridKeyExchange, MldsaSigner, LlamaCppEngine, zero_bytes};

#[test]
fn did_text_round_trip() {
    let d = Did::new("cathedral", "agents", "alice");
    let text = d.to_string();
    assert_eq!(text, "did:cathedral:agents:alice");
    let back = Did::parse(&text).unwrap();
    assert_eq!(back.method, "cathedral");
    assert_eq!(back.namespace, "agents");
    assert_eq!(back.identifier, "alice");
    assert!(back.public_key.is_empty());
}

#[test]
fn did_identifier_keeps_its_colons() {
    let d = Did::parse("did:web:example.com:users:bob").unwrap();
    assert_eq!(d.method, "web");
    assert_eq!(d.namespace, "example.com");
    assert_eq!(d.identifier, "users:bob");
    let three = Did::parse("did:web:host").unwrap();
    assert_eq!(three.identifier, "");
}

#[test]
fn did_parse_refusals() {
    assert_eq!(Did::parse("did:web").err().unwrap(), "Invalid DID format");
    assert_eq!(Did::parse("uri:web:host").err().unwrap(), "Invalid DID format");
    assert_eq!(Did::parse("").err().unwrap(), "Invalid DID format");
}

#[test]
fn did_signing_stubs() {
    let d = Did::new("m", "n", "i");
    assert_eq!(sign_message(&d, b"msg", b"key").unwrap(), Vec::<u8>::new());
    assert!(verify_signature(&d, b"sig", b"msg"));
}

#[test]
fn ed25519_pair_accepts_its_own_signature() {
    let kp = PqcKeyPair::generate(PqcAlgorithm::Ed25519).unwrap();
    assert_eq!(kp.public_key.len(), 32);
    assert_eq!(kp.private_key.len(), 32);
    let sig = kp.sign(b"hello").unwrap();
    assert_eq!(sig.len(), 64);
    assert_eq!(kp.verify(b"hello", &sig).unwrap(), true);
    assert_eq!(kp.verify(b"hellO", &sig).unwrap(), false);
}

#[test]
fn ed25519_pair_from_known_secret() {
    // RFC 8032, test 1.
    let secret: [u8; 32] = [
        0x9d, 0x61, 0xb1, 0x9d, 0xef, 0xfd, 0x5a, 0x60, 0xba, 0x84, 0x4a, 0xf4, 0x92, 0xec, 0x2c, 0xc4,
        0x44, 0x49, 0xc5, 0x69, 0x7b, 0x32, 0x69, 0x19, 0x70, 0x3b, 0xac, 0x03, 0x1c, 0xae, 0x7f, 0x60,
    ];
    let kp = PqcKeyPair::from_ed25519_secret(secret);
    assert_eq!(
        kp.public_key,
        vec![
            0xd7, 0x5a, 0x98, 0x01, 0x82, 0xb1, 0x0a, 0xb7, 0xd5, 0x4b, 0xfe, 0xd3, 0xc9, 0x64, 0x07, 0x3a,
            0x0e, 0xe1, 0x72, 0xf3, 0xda, 0xa6, 0x23, 0x25, 0xaf, 0x02, 0x1a, 0x68, 0xf7, 0x07, 0x51, 0x1a,
        ]
    );
    let sig = kp.sign(b"").unwrap();
    assert_eq!(sig[0], 0xe5);
    assert_eq!(sig[63], 0x0b);
    assert_eq!(kp.verify(b"", &sig).unwrap(), true);
}

#[test]
fn pqc_invalid_key_and_unavailable_scheme() {
    let mut bad = PqcKeyPair::generate(PqcAlgorithm::Ed25519).unwrap();
    let mut key = [0u8; 32];
    let mut y: u8 = 2;
    loop {
        key[0] = y;
        if ed25519_dalek::VerifyingKey::from_bytes(&key).is_err() {
            break;
        }
        y += 1;
    }
    bad.public_key = key.to_vec();
    assert_eq!(bad.verify(b"m", &[0u8; 64]).err(), Some(PqcError::InvalidKey));
    assert_eq!(PqcKeyPair::generate(PqcAlgorithm::Mldsa65).err(), Some(PqcError::MldsaUnavailable));
    let pq = PqcKeyPair { public_key: vec![], private_key: vec![], algorithm: PqcAlgorithm::Mldsa65 };
    assert_eq!(pq.sign(b"m").err(), Some(PqcError::MldsaUnavailable));
    assert_eq!(pq.verify(b"m", b"s").err(), Some(PqcError::MldsaUnavailable));
    assert_eq!(PqcError::MldsaUnavailable.message(), "ML-DSA not available (feature not enabled)");
    assert_eq!(PqcError::InvalidKey.message(), "Invalid key");
}

#[test]
fn agent_status_display() {
    assert_eq!(AgentStatus::Active.to_string(), "Active");
    assert_eq!(AgentStatus::Inactive.to_string(), "Inactive");
    assert_eq!(AgentStatus::Error.to_string(), "Error");
}

#[test]
fn hybrid_key_exchange_placeholders() {
    let k = HybridKeyExchange::generate();
    let pk = k.public_key_bytes();
    assert_eq!(pk.len(), 32 + 1568);
    assert!(pk.iter().all(|b| *b == 0));
    let shared = k.derive_shared(&pk);
    assert_eq!(shared, blake3::hash(&[0u8; 64]).as_bytes().to_vec());
    assert_ne!(shared, vec![0u8; 32]);
    assert_eq!(zero_bytes(5), vec![0u8; 5]);
}

#[test]
fn mldsa_signer_checks_lengths() {
    let s = MldsaSigner::generate();
    let sig = s.sign(b"message");
    assert_eq!(sig.len(), 4627);
    assert_eq!(s.verifying_key_bytes().len(), 2592);
    assert_eq!(s.verify(b"message", &[0u8; 3]).err().unwrap().message(), "PQC error: Invalid signature length");
}

#[test]
fn llama_engine_answers() {
    let e = LlamaCppEngine::new("model.bin");
    assert_eq!(e.model_path, "model.bin");
    assert_eq!(e.generate_text("hi", 4).unwrap(), "Mock LLM Output");
}

#[test]
fn mldsa_zero_signature_is_refused() {
    let s = MldsaSigner::generate();
    let sig = s.sign(b"message");
    assert!(sig.iter().all(|b| *b == 0));
    let err = s.verify(b"message", &sig).err().unwrap().message();
    assert!(err == "PQC error: Verify failed" || err == "PQC error: Invalid signature");
}
