use base64::Engine;
use cathedral::bridge::{
    MyCathedralBridge, BridgeError, StatusClass, IngestEvent, IngestRequest, GovernanceRequest, GovernanceVerdict,
    MAX_DECOMPRESSED_SIZE,
};
use cathedral::sdk::wire_payload;

fn packed(bytes: &[u8]) -> String {
    let z = zstd::encode_all(std::io::Cursor::new(bytes), 3).unwrap();
    base64::engine::general_purpose::STANDARD.encode(z)
}

fn signing_key() -> ed25519_dalek::SigningKey {
    ed25519_dalek::SigningKey::from_bytes(&[7u8; 32])
}

#[test]
fn decompress_round_trip() {
    let out = MyCathedralBridge::decompress_payload(&packed(b"event bytes")).unwrap();
    assert_eq!(out, b"event bytes".to_vec());
}

#[test]
fn sdk_wire_payload_is_read_back_by_the_bridge() {
    let bytes = b"some encoded event".to_vec();
    let wire = wire_payload(bytes.clone(), true).unwrap();
    assert_ne!(wire, bytes);
    let text = base64::engine::general_purpose::STANDARD.encode(&wire);
    assert_eq!(MyCathedralBridge::decompress_payload(&text).unwrap(), bytes);
    assert_eq!(wire_payload(bytes.clone(), false).unwrap(), bytes);
}

#[test]
fn decompress_refusals() {
    assert_eq!(MyCathedralBridge::decompress_payload("not base64!").err(), Some(BridgeError::InvalidBase64));
    let not_zstd = base64::engine::general_purpose::STANDARD.encode(b"plain");
    assert_eq!(MyCathedralBridge::decompress_payload(&not_zstd).err(), Some(BridgeError::Decompress));
}

#[test]
fn decompress_cuts_at_the_limit() {
    let big = vec![0u8; MAX_DECOMPRESSED_SIZE as usize + 10];
    let out = MyCathedralBridge::decompress_payload(&packed(&big)).unwrap();
    assert_eq!(out.len(), MAX_DECOMPRESSED_SIZE as usize);
}

#[test]
fn signatures_checked_against_registered_keys() {
    let mut bridge = MyCathedralBridge::new();
    let key = signing_key();
    assert!(bridge.register_agent_key("agent-1", key.verifying_key().to_bytes()));
    let sig = ed25519_dalek::Signer::sign(&key, b"payload");
    let sig_hex = hex::encode(sig.to_bytes());
    assert_eq!(bridge.verify_signature("agent-1", b"payload", &sig_hex), Ok(()));
    assert_eq!(bridge.verify_signature("agent-1", b"other", &sig_hex), Err(BridgeError::InvalidSignature));
    assert_eq!(bridge.verify_signature("agent-2", b"payload", &sig_hex), Err(BridgeError::UnknownAgent));
    assert_eq!(bridge.verify_signature("agent-1", b"payload", "zz"), Err(BridgeError::InvalidHexSignature));
    assert_eq!(bridge.verify_signature("agent-1", b"payload", "abcd"), Err(BridgeError::InvalidSignatureLength));
}

#[test]
fn error_classes_and_messages() {
    assert_eq!(BridgeError::UnknownAgent.class(), StatusClass::Unauthenticated);
    assert_eq!(BridgeError::NotImplemented.class(), StatusClass::Unimplemented);
    assert_eq!(BridgeError::InvalidBase64.class(), StatusClass::InvalidArgument);
    assert_eq!(BridgeError::InvalidBase64.message(), "Invalid base64 payload");
    assert_eq!(BridgeError::DecoderInit.message(), "Failed to init zstd decoder");
    assert_eq!(BridgeError::NotImplemented.message(), "Not yet implemented");
}

#[test]
fn ingest_rejects_undecodable_payloads() {
    let bridge = MyCathedralBridge::new();
    let request = IngestRequest {
        project_id: "p".to_string(),
        agent_id: "a".to_string(),
        events: vec![
            IngestEvent { event_id: "e1".to_string(), payload_json: packed(b"{}") },
            IngestEvent { event_id: "e2".to_string(), payload_json: "%%%".to_string() },
            IngestEvent { event_id: "e3".to_string(), payload_json: packed(b"[]") },
        ],
    };
    let r = bridge.ingest(request, true);
    assert_eq!(r.events_accepted, 2);
    assert_eq!(r.rejected_event_ids, vec!["e2".to_string()]);
    assert!(!r.success);
    assert_eq!(r.message, "Events processed");
}

#[test]
fn ingest_uncompressed_accepts_all() {
    let bridge = MyCathedralBridge::new();
    let request = IngestRequest {
        project_id: "p".to_string(),
        agent_id: "a".to_string(),
        events: vec![IngestEvent { event_id: "e1".to_string(), payload_json: "%%%".to_string() }],
    };
    let r = bridge.ingest(request, false);
    assert_eq!(r.events_accepted, 1);
    assert!(r.rejected_event_ids.is_empty());
    assert!(r.success);
}

#[test]
fn governance_is_auto_approved() {
    let bridge = MyCathedralBridge::new();
    let r = bridge.request_governance(GovernanceRequest { request_id: "r1".to_string() }, 1_700_000_000);
    assert_eq!(r.request_id, "r1");
    assert_eq!(r.verdict, GovernanceVerdict::Approved);
    assert_eq!(r.rationale, "Auto-approved by default policy");
    assert_eq!(r.evaluated_by, "grpc_server");
    assert_eq!(r.evaluated_at_secs, 1_700_000_000);
    assert_eq!(bridge.query_provenance("x"), Err(BridgeError::NotImplemented));
}

#[test]
fn verifying_keys_must_decode() {
    let good = signing_key().verifying_key().to_bytes();
    let k = cathedral::bridge::VerifyingKeyBytes::from_bytes(good).unwrap();
    assert_eq!(k.to_bytes(), good);
    let mut bad = [0u8; 32];
    let mut y: u8 = 2;
    loop {
        bad[0] = y;
        if ed25519_dalek::VerifyingKey::from_bytes(&bad).is_err() {
            break;
        }
        y += 1;
    }
    assert!(cathedral::bridge::VerifyingKeyBytes::from_bytes(bad).is_none());
    let mut bridge = MyCathedralBridge::new();
    assert!(!bridge.register_agent_key("x", bad));
    assert_eq!(bridge.verify_signature("x", b"m", "00"), Err(BridgeError::UnknownAgent));
}
