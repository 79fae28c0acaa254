//! The ingestion bridge: decoding compressed event payloads, checking agent
//! signatures, tallying an ingest batch and answering governance requests.
//! Transport (gRPC metadata, status codes) is left to the caller.

use vstd::prelude::*;
use vstd::hash_map::StringHashMap;
use vstd::string::StringSliceAdditionalSpecFns;
use crate::text::string_of;

verus! {

/// Largest payload, in bytes, that a decompressed event may have.
pub const MAX_DECOMPRESSED_SIZE: u64 = 5 * 1024 * 1024;

/// The bytes that standard (padded) base64 text decodes to, if it is valid.
pub uninterp spec fn base64_decoded(text: Seq<u8>) -> Option<Seq<u8>>;

/// Decodes standard base64.
///
/// Calls `base64::Engine::decode` of `base64::engine::general_purpose::STANDARD`;
/// the contract claims that the outcome depends on the text alone.
#[verifier::external_body]
fn base64_decode(text: &[u8]) -> (r: Option<Vec<u8>>)
    ensures
        match r {
            Some(v) => base64_decoded(text@) == Some(v@),
            None => base64_decoded(text@) is None,
        },
{
    base64::Engine::decode(&base64::engine::general_purpose::STANDARD, text).ok()
}

/// What reading at most `limit` bytes out of a zstd decoder over `data`
/// gives, if the read does not fail.
pub uninterp spec fn zstd_read_limited(data: Seq<u8>, limit: u64) -> Option<Seq<u8>>;

/// Why decompression stopped.
pub enum ZstdFailure {
    /// The decompression context could not be set up.
    Init,
    /// The compressed data could not be read.
    Read,
}

/// Decompresses a zstd stream, reading at most `limit` bytes of output.
///
/// Calls `zstd::stream::read::Decoder::new`, then `take(limit)` and
/// `read_to_end` on it. The contract claims that a successful read gives at
/// most `limit` bytes, and that whether the read fails and what it gives
/// depend on the data and the limit alone. Setting up the decoder only
/// creates a decompression context, initialises it and loads the empty
/// dictionary; none of these fails short of the allocator running out of
/// memory (where `DCtx::create` panics), so the contract claims that the set-up
/// does not fail.
#[verifier::external_body]
fn zstd_decompress_limited(data: &[u8], limit: u64) -> (r: Result<Vec<u8>, ZstdFailure>)
    ensures
        match r {
            Ok(v) => zstd_read_limited(data@, limit) == Some(v@) && v@.len() <= limit,
            Err(f) => f is Read && zstd_read_limited(data@, limit) is None,
        },
{
    let decoder = zstd::stream::read::Decoder::new(data).map_err(|_| ZstdFailure::Init)?;
    let mut limited = std::io::Read::take(decoder, limit);
    let mut out = Vec::new();
    std::io::Read::read_to_end(&mut limited, &mut out).map_err(|_| ZstdFailure::Read)?;
    Ok(out)
}

/// The value of a hexadecimal digit byte, either case.
pub open spec fn hex_val(c: u8) -> Option<u8> {
    if 48 <= c <= 57 {
        Some((c - 48) as u8)
    } else if 65 <= c <= 70 {
        Some((c - 65 + 10) as u8)
    } else if 97 <= c <= 102 {
        Some((c - 97 + 10) as u8)
    } else {
        None
    }
}

/// The bytes a hexadecimal text denotes: two digits per byte, high digit
/// first; odd lengths and non-digits are refused.
pub open spec fn hex_decoded(text: Seq<u8>) -> Option<Seq<u8>> {
    if text.len() % 2 == 0 && forall|i: int| 0 <= i < text.len() ==> (#[trigger] hex_val(text[i])) is Some {
        Some(Seq::new(text.len() / 2, |i: int| (hex_val(text[2 * i])->0 * 16 + hex_val(text[2 * i + 1])->0) as u8))
    } else {
        None
    }
}

/// Decodes hexadecimal text.
///
/// Calls `hex::decode`; the contract claims what its source shows: an odd
/// length or a byte outside `0-9`, `a-f`, `A-F` is refused, and otherwise
/// each pair of digits gives one byte, high digit first.
#[verifier::external_body]
fn hex_decode(text: &[u8]) -> (r: Option<Vec<u8>>)
    ensures
        match r {
            Some(v) => hex_decoded(text@) == Some(v@),
            None => hex_decoded(text@) is None,
        },
{
    hex::decode(text).ok()
}

/// Whether 32 bytes are the encoding of an Ed25519 verifying key.
pub uninterp spec fn ed25519_key_valid(key: Seq<u8>) -> bool;

/// Whether an Ed25519 key accepts a signature of a message.
pub uninterp spec fn ed25519_accepts(key: Seq<u8>, message: Seq<u8>, signature: Seq<u8>) -> bool;

/// Checks that 32 bytes encode a verifying key.
///
/// Calls `ed25519_dalek::VerifyingKey::from_bytes`; the contract claims that
/// the answer depends on the bytes alone.
#[verifier::external_body]
pub(crate) fn ed25519_key_check(key: &[u8; 32]) -> (ok: bool)
    ensures
        ok == ed25519_key_valid(key@),
{
    ed25519_dalek::VerifyingKey::from_bytes(key).is_ok()
}

/// Checks an Ed25519 signature.
///
/// Calls `ed25519_dalek::VerifyingKey::from_bytes` on the key (valid by the
/// precondition), `ed25519_dalek::Signature::from_bytes` on the signature and
/// `Verifier::verify`; the contract claims that the answer depends on the key,
/// message and signature alone.
#[verifier::external_body]
pub(crate) fn ed25519_verify(key: &[u8; 32], message: &[u8], signature: &[u8; 64]) -> (ok: bool)
    requires
        ed25519_key_valid(key@),
    ensures
        ok == ed25519_accepts(key@, message@, signature@),
{
    let vk = ed25519_dalek::VerifyingKey::from_bytes(key).unwrap();
    let sig = ed25519_dalek::Signature::from_bytes(signature);
    ed25519_dalek::Verifier::verify(&vk, message, &sig).is_ok()
}

/// Why the bridge refuses a request.
#[derive(PartialEq, Eq, Structural, Clone, Copy, Debug)]
pub enum BridgeError {
    /// The payload is not valid base64.
    InvalidBase64,
    /// The zstd decoder could not be set up.
    DecoderInit,
    /// The payload is not a valid zstd stream.
    Decompress,
    /// No verifying key is registered for the agent.
    UnknownAgent,
    /// The signature is not hexadecimal.
    InvalidHexSignature,
    /// The signature is not 64 bytes long.
    InvalidSignatureLength,
    /// The key rejects the signature.
    InvalidSignature,
    /// The operation is not offered.
    NotImplemented,
}

/// The status class of a refusal, as the transport reports it.
#[derive(PartialEq, Eq, Structural, Clone, Copy, Debug)]
pub enum StatusClass {
    InvalidArgument,
    Unauthenticated,
    Unimplemented,
}

impl BridgeError {
    /// The status class the refusal is reported with.
    pub fn class(&self) -> (c: StatusClass)
        ensures
            c == (match self {
                BridgeError::UnknownAgent | BridgeError::InvalidSignature => StatusClass::Unauthenticated,
                BridgeError::NotImplemented => StatusClass::Unimplemented,
                _ => StatusClass::InvalidArgument,
            }),
    {
        match self {
            BridgeError::UnknownAgent | BridgeError::InvalidSignature => StatusClass::Unauthenticated,
            BridgeError::NotImplemented => StatusClass::Unimplemented,
            _ => StatusClass::InvalidArgument,
        }
    }

    /// The message the refusal is reported with.
    pub fn message(&self) -> (s: String)
        ensures
            s@ == (match self {
                BridgeError::InvalidBase64 => "Invalid base64 payload"@,
                BridgeError::DecoderInit => "Failed to init zstd decoder"@,
                BridgeError::Decompress => "Failed to decompress"@,
                BridgeError::UnknownAgent => "Unknown agent_id"@,
                BridgeError::InvalidHexSignature => "Invalid hex signature"@,
                BridgeError::InvalidSignatureLength => "Invalid signature length"@,
                BridgeError::InvalidSignature => "Invalid signature"@,
                BridgeError::NotImplemented => "Not yet implemented"@,
            }),
    {
        match self {
            BridgeError::InvalidBase64 => string_of("Invalid base64 payload"),
            BridgeError::DecoderInit => string_of("Failed to init zstd decoder"),
            BridgeError::Decompress => string_of("Failed to decompress"),
            BridgeError::UnknownAgent => string_of("Unknown agent_id"),
            BridgeError::InvalidHexSignature => string_of("Invalid hex signature"),
            BridgeError::InvalidSignatureLength => string_of("Invalid signature length"),
            BridgeError::InvalidSignature => string_of("Invalid signature"),
            BridgeError::NotImplemented => string_of("Not yet implemented"),
        }
    }
}

/// An Ed25519 verifying key: 32 bytes that decode as a curve point.
pub struct VerifyingKeyBytes {
    bytes: [u8; 32],
}

impl VerifyingKeyBytes {
    #[verifier::type_invariant]
    spec fn decodes(self) -> bool {
        ed25519_key_valid(self.bytes@)
    }

    /// The key's bytes.
    pub closed spec fn key(self) -> Seq<u8> {
        self.bytes@
    }

    /// The key that 32 bytes encode, if they encode one.
    pub fn from_bytes(bytes: [u8; 32]) -> (r: Option<VerifyingKeyBytes>)
        ensures
            r is Some <==> ed25519_key_valid(bytes@),
            r matches Some(k) ==> k.key() == bytes@,
    {
        if ed25519_key_check(&bytes) {
            Some(VerifyingKeyBytes { bytes })
        } else {
            None
        }
    }

    /// The key's 32 bytes.
    pub fn to_bytes(&self) -> (b: [u8; 32])
        ensures
            b@ == self.key(),
    {
        self.bytes
    }
}

/// The bridge: the verifying keys of the agents it accepts, by agent id.
pub struct MyCathedralBridge {
    pub agent_keys: StringHashMap<VerifyingKeyBytes>,
}

impl MyCathedralBridge {
    /// A bridge that knows no agents.
    pub fn new() -> (b: MyCathedralBridge)
        ensures
            b.agent_keys@.dom() == Set::<Seq<char>>::empty(),
    {
        MyCathedralBridge { agent_keys: StringHashMap::new() }
    }

    /// Registers an agent's key if the bytes are a valid Ed25519 verifying
    /// key; says whether it did.
    pub fn register_agent_key(&mut self, agent_id: &str, key: [u8; 32]) -> (added: bool)
        ensures
            added == ed25519_key_valid(key@),
            added ==> final(self).agent_keys@.dom() == old(self).agent_keys@.dom().insert(agent_id@),
            added ==> final(self).agent_keys@[agent_id@].key() == key@,
            added ==> forall|k: Seq<char>| k != agent_id@ && #[trigger] old(self).agent_keys@.contains_key(k)
                ==> final(self).agent_keys@[k] == old(self).agent_keys@[k],
            !added ==> final(self).agent_keys@ == old(self).agent_keys@,
    {
        match VerifyingKeyBytes::from_bytes(key) {
            Some(k) => {
                self.agent_keys.insert(string_of(agent_id), k);
                true
            },
            None => false,
        }
    }

    /// Decodes an event payload: base64 text of a zstd stream, of which at
    /// most `MAX_DECOMPRESSED_SIZE` bytes are read.
    pub fn decompress_payload(base64_data: &str) -> (r: Result<Vec<u8>, BridgeError>)
        ensures
            base64_decoded(base64_data.spec_bytes()) is None <==> r == Err::<Vec<u8>, BridgeError>(
                BridgeError::InvalidBase64,
            ),
            r is Ok ==> (base64_decoded(base64_data.spec_bytes()) matches Some(z) && zstd_read_limited(
                z,
                MAX_DECOMPRESSED_SIZE,
            ) == Some(r->Ok_0@)),
            r is Ok ==> r->Ok_0@.len() <= MAX_DECOMPRESSED_SIZE,
            r == Err::<Vec<u8>, BridgeError>(BridgeError::Decompress) ==> (base64_decoded(
                base64_data.spec_bytes(),
            ) matches Some(z) && zstd_read_limited(z, MAX_DECOMPRESSED_SIZE) is None),
            r matches Err(e) ==> (e == BridgeError::InvalidBase64 || e == BridgeError::Decompress),
            r is Ok <==> payload_decodes(base64_data.spec_bytes()),
    {
        let compressed = match base64_decode(base64_data.as_bytes()) {
            Some(c) => c,
            None => return Err(BridgeError::InvalidBase64),
        };
        match zstd_decompress_limited(compressed.as_slice(), MAX_DECOMPRESSED_SIZE) {
            Ok(v) => Ok(v),
            Err(ZstdFailure::Init) => Err(BridgeError::DecoderInit),
            Err(ZstdFailure::Read) => Err(BridgeError::Decompress),
        }
    }

    /// Checks an agent's hex-encoded signature of a message: the agent must
    /// have a key, the signature must be hexadecimal of exactly 64 bytes, and
    /// the key must accept it.
    pub fn verify_signature(&self, agent_id: &str, message: &[u8], signature_hex: &str) -> (r: Result<(), BridgeError>)
        ensures
            !self.agent_keys@.contains_key(agent_id@) ==> r == Err::<(), BridgeError>(BridgeError::UnknownAgent),
            self.agent_keys@.contains_key(agent_id@) ==> r == (match hex_decoded(signature_hex.spec_bytes()) {
                None => Err(BridgeError::InvalidHexSignature),
                Some(sig) => if sig.len() != 64 {
                    Err(BridgeError::InvalidSignatureLength)
                } else if ed25519_accepts(self.agent_keys@[agent_id@].key(), message@, sig) {
                    Ok(())
                } else {
                    Err(BridgeError::InvalidSignature)
                },
            }),
    {
        let key = match self.agent_keys.get(agent_id) {
            Some(k) => k,
            None => return Err(BridgeError::UnknownAgent),
        };
        let sig_bytes = match hex_decode(signature_hex.as_bytes()) {
            Some(b) => b,
            None => return Err(BridgeError::InvalidHexSignature),
        };
        if sig_bytes.len() != 64 {
            return Err(BridgeError::InvalidSignatureLength);
        }
        let mut sig = [0u8; 64];
        let mut i: usize = 0;
        while i < 64
            invariant
                0 <= i <= 64,
                sig_bytes@.len() == 64,
                forall|j: int| 0 <= j < i ==> sig@[j] == sig_bytes@[j],
            decreases 64 - i,
        {
            sig[i] = sig_bytes[i];
            i = i + 1;
        }
        assert(sig@ =~= sig_bytes@);
        proof {
            use_type_invariant(key);
        }
        if ed25519_verify(&key.bytes, message, &sig) {
            Ok(())
        } else {
            Err(BridgeError::InvalidSignature)
        }
    }
}

/// One event of an ingest batch.
pub struct IngestEvent {
    pub event_id: String,
    pub payload_json: String,
}

/// A batch of events sent by an agent for a project.
pub struct IngestRequest {
    pub project_id: String,
    pub agent_id: String,
    pub events: Vec<IngestEvent>,
}

/// The answer to an ingest batch.
pub struct IngestResponse {
    pub success: bool,
    pub message: String,
    pub events_accepted: u32,
    pub rejected_event_ids: Vec<String>,
}

/// The ids of the events of a batch.
pub open spec fn event_ids(events: Seq<IngestEvent>) -> Seq<Seq<char>> {
    events.map_values(|e: IngestEvent| e.event_id@)
}

/// How many events of a batch are accepted: all of them when the batch is
/// not compressed, otherwise those whose payload was decoded.
pub open spec fn accepted_count(decoded: Seq<bool>, compressed: bool) -> nat
    decreases decoded.len(),
{
    if decoded.len() == 0 {
        0
    } else {
        accepted_count(decoded.drop_last(), compressed) + if !compressed || decoded.last() {
            1nat
        } else {
            0nat
        }
    }
}

/// The ids of the rejected events, in batch order: none when the batch is
/// not compressed, otherwise those whose payload was not decoded.
pub open spec fn rejected_ids(ids: Seq<Seq<char>>, decoded: Seq<bool>, compressed: bool) -> Seq<Seq<char>>
    decreases decoded.len(),
{
    if decoded.len() == 0 || ids.len() == 0 {
        Seq::empty()
    } else {
        let rest = rejected_ids(ids.drop_last(), decoded.drop_last(), compressed);
        if compressed && !decoded.last() {
            rest.push(ids.last())
        } else {
            rest
        }
    }
}

/// A payload that decodes: valid base64 of a readable zstd stream.
pub open spec fn payload_decodes(payload: Seq<u8>) -> bool {
    base64_decoded(payload) matches Some(z) && zstd_read_limited(z, MAX_DECOMPRESSED_SIZE) is Some
}

/// The answer to a batch, given for each event whether its payload was
/// decoded: the accepted count, the rejected ids in order, and success when
/// nothing was rejected.
pub fn tally_ingest(events: &Vec<IngestEvent>, decoded: &Vec<bool>, compressed: bool) -> (r: IngestResponse)
    requires
        decoded@.len() == events@.len(),
        events@.len() <= u32::MAX,
    ensures
        r.events_accepted == accepted_count(decoded@, compressed),
        r.rejected_event_ids@.map_values(|s: String| s@) == rejected_ids(event_ids(events@), decoded@, compressed),
        r.success == (r.rejected_event_ids@.len() == 0),
        r.message@ == "Events processed"@,
        compressed ==> r.events_accepted == decoded@.filter(|b: bool| b).len(),
        compressed ==> r.rejected_event_ids@.map_values(|s: String| s@) == undecoded_ids(event_ids(events@), decoded@),
        !compressed ==> r.events_accepted == events@.len() && r.rejected_event_ids@.len() == 0,
{
    let ghost ids = event_ids(events@);
    let mut accepted: u32 = 0;
    let mut rejected: Vec<String> = Vec::new();
    let mut i: usize = 0;
    while i < events.len()
        invariant
            0 <= i <= events@.len(),
            decoded@.len() == events@.len(),
            events@.len() <= u32::MAX,
            ids == event_ids(events@),
            accepted == accepted_count(decoded@.take(i as int), compressed),
            accepted <= i,
            rejected@.map_values(|s: String| s@) == rejected_ids(ids.take(i as int), decoded@.take(i as int), compressed),
        decreases events@.len() - i,
    {
        assert(decoded@.take(i + 1).drop_last() =~= decoded@.take(i as int));
        assert(ids.take(i + 1).drop_last() =~= ids.take(i as int));
        assert(decoded@.take(i + 1).last() == decoded@[i as int]);
        assert(ids.take(i + 1).last() == events@[i as int].event_id@);
        if compressed && !decoded[i] {
            let id = events[i].event_id.clone();
            rejected.push(id);
            assert(rejected@.map_values(|s: String| s@) =~= rejected_ids(ids.take(i as int), decoded@.take(i as int), compressed).push(events@[i as int].event_id@));
        } else {
            accepted = accepted + 1;
        }
        i = i + 1;
    }
    assert(decoded@.take(i as int) =~= decoded@);
    assert(ids.take(i as int) =~= ids);
    proof {
        if compressed {
            lemma_compressed_tally_is_exact(ids, decoded@);
        } else {
            lemma_uncompressed_tally(ids, decoded@);
            assert(rejected@.map_values(|s: String| s@).len() == rejected@.len());
        }
    }
    let success = rejected.len() == 0;
    IngestResponse {
        success,
        message: string_of("Events processed"),
        events_accepted: accepted,
        rejected_event_ids: rejected,
    }
}

/// The verdict of a governance evaluation.
#[derive(PartialEq, Eq, Structural, Clone, Copy, Debug)]
pub enum GovernanceVerdict {
    Unspecified,
    Approved,
    Rejected,
    RequiresHuman,
}

/// A request for a governance decision.
pub struct GovernanceRequest {
    pub request_id: String,
}

/// A governance decision and who made it when (Unix seconds).
pub struct GovernanceResponse {
    pub request_id: String,
    pub verdict: GovernanceVerdict,
    pub rationale: String,
    pub conditions: Vec<String>,
    pub evaluated_by: String,
    pub evaluated_at_secs: i64,
}

impl MyCathedralBridge {
    /// Answers an ingest batch. When the batch is compressed, each payload is
    /// decoded and the events whose payload does not decode are rejected;
    /// otherwise every event is accepted.
    pub fn ingest(&self, request: IngestRequest, compressed: bool) -> (r: IngestResponse)
        requires
            request.events@.len() <= u32::MAX,
        ensures
            exists|d: Seq<bool>| #![trigger accepted_count(d, compressed)]
                d.len() == request.events@.len()
                && (forall|i: int| 0 <= i < d.len() ==> (compressed ==> (#[trigger] d[i] <==> payload_decodes(
                    crate::bridge::payload_bytes(request.events@[i]),
                ))))
                && r.events_accepted == accepted_count(d, compressed)
                && r.rejected_event_ids@.map_values(|s: String| s@) == rejected_ids(event_ids(request.events@), d, compressed)
                && (compressed ==> r.events_accepted == d.filter(|b: bool| b).len()
                    && r.rejected_event_ids@.map_values(|s: String| s@) == undecoded_ids(event_ids(request.events@), d)),
            !compressed ==> r.events_accepted == request.events@.len() && r.rejected_event_ids@.len() == 0,
            r.success == (r.rejected_event_ids@.len() == 0),
            r.message@ == "Events processed"@,
    {
        let mut decoded: Vec<bool> = Vec::new();
        let mut i: usize = 0;
        while i < request.events.len()
            invariant
                0 <= i <= request.events@.len(),
                decoded@.len() == i,
                forall|j: int| 0 <= j < i ==> (compressed ==> (#[trigger] decoded@[j] <==> payload_decodes(
                    payload_bytes(request.events@[j]),
                ))),
            decreases request.events@.len() - i,
        {
            let ok = if compressed {
                Self::decompress_payload(request.events[i].payload_json.as_str()).is_ok()
            } else {
                true
            };
            decoded.push(ok);
            i = i + 1;
        }
        let r = tally_ingest(&request.events, &decoded, compressed);
        proof {
            if !compressed {
                lemma_uncompressed_tally(event_ids(request.events@), decoded@);
                assert(r.rejected_event_ids@.map_values(|s: String| s@).len() == r.rejected_event_ids@.len());
            }
        }
        assert(accepted_count(decoded@, compressed) == r.events_accepted);
        r
    }

    /// Approves every governance request, by the default policy, at time
    /// `now_secs`.
    pub fn request_governance(&self, request: GovernanceRequest, now_secs: u64) -> (r: GovernanceResponse)
        ensures
            r.request_id == request.request_id,
            r.verdict == GovernanceVerdict::Approved,
            r.rationale@ == "Auto-approved by default policy"@,
            r.conditions@.len() == 0,
            r.evaluated_by@ == "grpc_server"@,
            r.evaluated_at_secs == now_secs as i64,
    {
        GovernanceResponse {
            request_id: request.request_id,
            verdict: GovernanceVerdict::Approved,
            rationale: string_of("Auto-approved by default policy"),
            conditions: Vec::new(),
            evaluated_by: string_of("grpc_server"),
            evaluated_at_secs: now_secs as i64,
        }
    }

    /// Provenance queries are not offered.
    pub fn query_provenance(&self, id: &str) -> (r: Result<(), BridgeError>)
        ensures
            r == Err::<(), BridgeError>(BridgeError::NotImplemented),
    {
        Err(BridgeError::NotImplemented)
    }
}

/// The UTF-8 bytes of an event's payload text.
pub open spec fn payload_bytes(e: IngestEvent) -> Seq<u8> {
    vstd::utf8::encode_utf8(e.payload_json@)
}

proof fn lemma_uncompressed_tally(ids: Seq<Seq<char>>, d: Seq<bool>)
    ensures
        accepted_count(d, false) == d.len(),
        rejected_ids(ids, d, false) == Seq::<Seq<char>>::empty(),
    decreases d.len(),
{
    if d.len() > 0 {
        lemma_uncompressed_tally(ids.drop_last(), d.drop_last());
    }
}

/// The ids of the events whose payload did not decode, in batch order.
pub open spec fn undecoded_ids(ids: Seq<Seq<char>>, decoded: Seq<bool>) -> Seq<Seq<char>> {
    ids.zip_with(decoded).filter(|p: (Seq<char>, bool)| !p.1).map_values(|p: (Seq<char>, bool)| p.0)
}

/// In a compressed batch an event is rejected exactly when its payload did
/// not decode, wherever it stands in the batch: the rejected ids are the ids
/// of the undecoded events in batch order, and the accepted count is the
/// number of decoded events.
pub proof fn lemma_compressed_tally_is_exact(ids: Seq<Seq<char>>, decoded: Seq<bool>)
    requires
        ids.len() == decoded.len(),
    ensures
        accepted_count(decoded, true) == decoded.filter(|b: bool| b).len(),
        rejected_ids(ids, decoded, true) == undecoded_ids(ids, decoded),
    decreases decoded.len(),
{
    reveal(Seq::filter);
    if decoded.len() > 0 {
        let ids0 = ids.drop_last();
        let d0 = decoded.drop_last();
        lemma_compressed_tally_is_exact(ids0, d0);
        let z = ids.zip_with(decoded);
        let z0 = ids0.zip_with(d0);
        assert(z.drop_last() =~= z0);
        assert(z.last() == (ids.last(), decoded.last()));
        let pred = |p: (Seq<char>, bool)| !p.1;
        let f = |p: (Seq<char>, bool)| p.0;
        assert(z.filter(pred) == if !decoded.last() { z0.filter(pred).push(z.last()) } else { z0.filter(pred) });
        if !decoded.last() {
            assert(z0.filter(pred).push(z.last()).map_values(f) =~= z0.filter(pred).map_values(f).push(ids.last()));
        }
    }
}

/// Every event of a batch is accounted for: the accepted ones and the
/// rejected ones together are the whole batch.
pub proof fn lemma_ingest_accounts_for_every_event(ids: Seq<Seq<char>>, decoded: Seq<bool>, compressed: bool)
    requires
        ids.len() == decoded.len(),
    ensures
        accepted_count(decoded, compressed) + rejected_ids(ids, decoded, compressed).len() == decoded.len(),
    decreases decoded.len(),
{
    if decoded.len() > 0 {
        lemma_ingest_accounts_for_every_event(ids.drop_last(), decoded.drop_last(), compressed);
    }
}

} // verus!
