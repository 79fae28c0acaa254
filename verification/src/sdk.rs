//! The agent SDK: agent identities, its settings, the ingest address it
//! sends to and the schedule of retries.

use vstd::prelude::*;
use vstd::hash_map::StringHashMap;
use vstd::string::StrSliceExecFns;
use crate::text::{push_char, string_of};
use crate::clock::{now_unix_secs, new_uuid_string, CLOCK_BOUND};
use crate::zk::json_string_field;
use crate::bridge::{zstd_read_limited, MAX_DECOMPRESSED_SIZE};

verus! {

/// Who an agent is within a tree of agents.
pub struct AgentIdentity {
    pub agent_id: String,
    pub parent_agent_id: Option<String>,
    pub tree_id: Option<String>,
    pub subagent_ids: Vec<String>,
    pub role: String,
    pub depth: u32,
    pub reputation_hash: Option<String>,
    pub metadata: StringHashMap<String>,
}

impl AgentIdentity {
    /// A root agent: no parent, no tree, no subagents, depth 0.
    pub fn new(agent_id: &str, role: &str) -> (a: AgentIdentity)
        ensures
            a.agent_id@ == agent_id@,
            a.role@ == role@,
            a.parent_agent_id is None,
            a.tree_id is None,
            a.subagent_ids@.len() == 0,
            a.depth == 0,
            a.reputation_hash is None,
            a.metadata@ == Map::<Seq<char>, String>::empty(),
    {
        AgentIdentity {
            agent_id: string_of(agent_id),
            parent_agent_id: None,
            tree_id: None,
            subagent_ids: Vec::new(),
            role: string_of(role),
            depth: 0,
            reputation_hash: None,
            metadata: StringHashMap::new(),
        }
    }

    /// The same identity under a parent, one level deep.
    pub fn with_parent(self, parent: &str) -> (a: AgentIdentity)
        ensures
            a.parent_agent_id matches Some(p) && p@ == parent@,
            a.depth == 1,
            a.agent_id == self.agent_id,
            a.tree_id == self.tree_id,
            a.subagent_ids == self.subagent_ids,
            a.role == self.role,
            a.reputation_hash == self.reputation_hash,
            a.metadata == self.metadata,
    {
        let mut a = self;
        a.parent_agent_id = Some(string_of(parent));
        a.depth = 1;
        a
    }

    /// The same identity within a tree.
    pub fn with_tree(self, tree: &str) -> (a: AgentIdentity)
        ensures
            a.tree_id matches Some(t) && t@ == tree@,
            a.agent_id == self.agent_id,
            a.parent_agent_id == self.parent_agent_id,
            a.subagent_ids == self.subagent_ids,
            a.role == self.role,
            a.depth == self.depth,
            a.reputation_hash == self.reputation_hash,
            a.metadata == self.metadata,
    {
        let mut a = self;
        a.tree_id = Some(string_of(tree));
        a
    }
}

/// When events are sent.
#[derive(PartialEq, Eq, Structural, Clone, Copy, Debug)]
pub enum SdkMode {
    Async,
    Realtime,
}

impl Default for SdkMode {
    fn default() -> (m: Self)
        ensures
            m == SdkMode::Async,
    {
        SdkMode::Async
    }
}

/// Settings of the SDK; `initial_tree` names the agent tree to start in.
pub struct CathedralSdkConfig {
    pub bridge_endpoint: String,
    pub project_id: String,
    pub agent_id: String,
    pub initial_tree: Option<String>,
    pub compression_enabled: bool,
    pub max_retries: u32,
    pub local_logging_enabled: bool,
    pub mode: SdkMode,
}

impl Default for CathedralSdkConfig {
    fn default() -> (c: Self)
        ensures
            c.bridge_endpoint@ == "grpc://localhost:9002"@,
            c.project_id@ == "default"@,
            c.agent_id@ == "default-agent"@,
            c.initial_tree is None,
            c.compression_enabled,
            c.max_retries == 3,
            !c.local_logging_enabled,
            c.mode == SdkMode::Async,
    {
        CathedralSdkConfig {
            bridge_endpoint: string_of("grpc://localhost:9002"),
            project_id: string_of("default"),
            agent_id: string_of("default-agent"),
            initial_tree: None,
            compression_enabled: true,
            max_retries: 3,
            local_logging_enabled: false,
            mode: SdkMode::default(),
        }
    }
}

/// `s` with every occurrence of `from` replaced by `to`, scanning from the
/// left and not overlapping, as `str::replace` does.
pub open spec fn replace_all(s: Seq<char>, from: Seq<char>, to: Seq<char>) -> Seq<char>
    decreases s.len(),
{
    if s.len() == 0 || from.len() == 0 {
        s
    } else if s.len() >= from.len() && s.take(from.len() as int) == from {
        to + replace_all(s.skip(from.len() as int), from, to)
    } else {
        seq![s[0]] + replace_all(s.skip(1), from, to)
    }
}

/// The path of the ingest method on the bridge.
pub open spec fn ingest_path() -> Seq<char> {
    "/cathedral.v1.CathedralBridge/Ingest"@
}

/// The address the SDK posts events to: the bridge endpoint with `grpc://`
/// turned into `http://`, followed by the ingest path.
pub fn ingest_url(endpoint: &str) -> (url: String)
    ensures
        url@ == replace_all(endpoint@, "grpc://"@, "http://"@) + ingest_path(),
{
    let pat = "grpc://";
    let rep = "http://";
    proof {
        reveal_strlit("grpc://");
    }
    let n = endpoint.unicode_len();
    let m: usize = 7;
    assert(pat@.len() == m);
    let mut out = String::new();
    let mut i: usize = 0;
    assert(endpoint@.skip(0) =~= endpoint@);
    while i < n
        invariant
            0 <= i <= n,
            n == endpoint@.len(),
            m == pat@.len(),
            m == 7,
            pat@ == "grpc://"@,
            rep@ == "http://"@,
            out@ + replace_all(endpoint@.skip(i as int), pat@, rep@) == replace_all(endpoint@, pat@, rep@),
        decreases n - i,
    {
        let ghost rest = endpoint@.skip(i as int);
        if m <= n - i && same_text(endpoint.substring_char(i, i + m), pat) {
            assert(rest.take(m as int) =~= endpoint@.subrange(i as int, i + m));
            assert(rest.skip(m as int) =~= endpoint@.skip(i + m));
            assert(replace_all(rest, pat@, rep@) == rep@ + replace_all(rest.skip(m as int), pat@, rep@));
            let ghost before = out@;
            out.append(rep);
            assert(out@ == before + rep@);
            i = i + m;
            assert(out@ + replace_all(endpoint@.skip(i as int), pat@, rep@) =~= replace_all(endpoint@, pat@, rep@));
        } else {
            assert(!(rest.len() >= m && rest.take(m as int) == pat@)) by {
                if rest.len() >= m && rest.take(m as int) == pat@ {
                    assert(rest.take(m as int) =~= endpoint@.subrange(i as int, i + m));
                }
            }
            let c = endpoint.get_char(i);
            push_char(&mut out, c);
            assert(rest.skip(1) =~= endpoint@.skip(i + 1));
            assert(rest[0] == c);
            i = i + 1;
            assert(out@ + replace_all(endpoint@.skip(i as int), pat@, rep@) =~= replace_all(endpoint@, pat@, rep@));
        }
    }
    assert(endpoint@.skip(n as int) =~= Seq::<char>::empty());
    assert(out@ =~= replace_all(endpoint@, pat@, rep@));
    out.append("/cathedral.v1.CathedralBridge/Ingest");
    out
}

fn same_text(a: &str, b: &str) -> (r: bool)
    ensures
        r == (a@ == b@),
{
    let x = a.to_owned();
    let y = b.to_owned();
    x == y
}

/// What the sender does after one attempt to post.
#[derive(PartialEq, Eq, Structural, Clone, Copy, Debug)]
pub enum RetryStep {
    /// The post went through.
    Delivered,
    /// Wait this many milliseconds, then post again as attempt `next_attempt`.
    Retry { wait_ms: u64, next_attempt: u32 },
    /// Every attempt failed: give up with "Max retries exceeded".
    GiveUp,
}

/// The step after attempt `attempt` (counted from 0) of at most
/// `max_retries + 1` attempts: a success ends the sending; a failure before
/// the last attempt waits `100 * (attempt + 1)` milliseconds and tries again;
/// a failure of the last attempt gives up.
pub fn retry_step(attempt: u32, max_retries: u32, succeeded: bool) -> (s: RetryStep)
    requires
        attempt <= max_retries,
    ensures
        succeeded ==> s == RetryStep::Delivered,
        !succeeded && attempt < max_retries ==> s == (RetryStep::Retry {
            wait_ms: (100 * (attempt + 1)) as u64,
            next_attempt: (attempt + 1) as u32,
        }),
        !succeeded && attempt == max_retries ==> s == RetryStep::GiveUp,
{
    if succeeded {
        RetryStep::Delivered
    } else if attempt < max_retries {
        RetryStep::Retry { wait_ms: 100 * (attempt as u64 + 1), next_attempt: attempt + 1 }
    } else {
        RetryStep::GiveUp
    }
}

// ------------------------------------------------------------------
// Events
// ------------------------------------------------------------------

/// The kind of an event sent to the bridge.
#[derive(PartialEq, Eq, Structural, Clone, Copy, Debug)]
pub enum EventKind {
    DesignProposed,
    SimulationCompleted,
    AgentMutation,
    ParameterChange,
}

/// An event before it is encoded: its id, the Unix time (seconds) it was
/// made at, its kind, the design it is about, the designs it derives from,
/// its JSON payload as text, and the domain its metadata names. The metadata
/// always claims full confidence, no compute cost and no tags.
pub struct EventDraft {
    pub event_id: String,
    pub timestamp_secs: i64,
    pub kind: EventKind,
    pub design_hash: String,
    pub parent_hashes: Vec<String>,
    pub payload_json: String,
    pub domain: String,
}

/// The text of a JSON object with the string fields `mutation_type` and
/// `agent_id` and the number field `timestamp`.
pub uninterp spec fn mutation_payload_text(mutation_type: Seq<char>, agent_id: Seq<char>, timestamp: i64) -> Seq<char>;

/// The JSON payload of an agent mutation.
///
/// Builds a `serde_json::Map` with the three fields, wraps it in
/// `serde_json::Value::Object` and calls `to_string`. The contract claims
/// that the text depends on the three values alone and, as serde_json reads
/// back what it writes, that the text's two string fields read back.
#[verifier::external_body]
fn mutation_payload(mutation_type: &str, agent_id: &str, timestamp: i64) -> (text: String)
    ensures
        text@ == mutation_payload_text(mutation_type@, agent_id@, timestamp),
        json_string_field(text@, "mutation_type"@) == Some(mutation_type@),
        json_string_field(text@, "agent_id"@) == Some(agent_id@),
{
    let mut fields = serde_json::Map::new();
    fields.insert("mutation_type".to_string(), serde_json::Value::String(mutation_type.to_string()));
    fields.insert("agent_id".to_string(), serde_json::Value::String(agent_id.to_string()));
    fields.insert("timestamp".to_string(), serde_json::Value::from(timestamp));
    serde_json::Value::Object(fields).to_string()
}

/// `prefix` followed by a fresh UUID.
fn prefixed_uuid(prefix: &str) -> (id: String)
    ensures
        id@.len() == prefix@.len() + 36,
        id@.take(prefix@.len() as int) == prefix@,
{
    let mut id = string_of(prefix);
    let tail = new_uuid_string();
    id.append(tail.as_str());
    assert(id@.take(prefix@.len() as int) =~= prefix@);
    id
}

/// The event that a design was proposed, stamped now.
pub fn design_proposed_event(event_id: String, parent_hashes: Vec<String>, payload_json: String) -> (e: EventDraft)
    ensures
        e.event_id == event_id,
        -CLOCK_BOUND < e.timestamp_secs < CLOCK_BOUND,
        e.kind == EventKind::DesignProposed,
        e.design_hash@.len() == 0,
        e.parent_hashes == parent_hashes,
        e.payload_json == payload_json,
        e.domain@ == "default"@,
{
    EventDraft {
        event_id,
        timestamp_secs: now_unix_secs(),
        kind: EventKind::DesignProposed,
        design_hash: String::new(),
        parent_hashes,
        payload_json,
        domain: string_of("default"),
    }
}

/// The event that a simulation of a design completed, stamped now, with the
/// id `sim-<uuid>` and an empty JSON object as payload.
pub fn simulation_completed_event(design_hash: String) -> (e: EventDraft)
    ensures
        e.event_id@.len() == 40,
        e.event_id@.take(4) == "sim-"@,
        -CLOCK_BOUND < e.timestamp_secs < CLOCK_BOUND,
        e.kind == EventKind::SimulationCompleted,
        e.design_hash == design_hash,
        e.parent_hashes@.len() == 0,
        e.payload_json@ == "{}"@,
        e.domain@ == "default"@,
{
    proof {
        reveal_strlit("sim-");
    }
    EventDraft {
        event_id: prefixed_uuid("sim-"),
        timestamp_secs: now_unix_secs(),
        kind: EventKind::SimulationCompleted,
        design_hash,
        parent_hashes: Vec::new(),
        payload_json: string_of("{}"),
        domain: string_of("default"),
    }
}

/// The event that an agent mutated, stamped now, with the id `mut-<uuid>`
/// and as payload the JSON object of the mutation type, the agent and the
/// time.
pub fn agent_mutation_event(mutation_type: &str, agent_id: &str) -> (e: EventDraft)
    ensures
        e.event_id@.len() == 40,
        e.event_id@.take(4) == "mut-"@,
        -CLOCK_BOUND < e.timestamp_secs < CLOCK_BOUND,
        e.kind == EventKind::AgentMutation,
        e.design_hash@.len() == 0,
        e.parent_hashes@.len() == 0,
        exists|t: i64| e.payload_json@ == mutation_payload_text(mutation_type@, agent_id@, t),
        json_string_field(e.payload_json@, "mutation_type"@) == Some(mutation_type@),
        json_string_field(e.payload_json@, "agent_id"@) == Some(agent_id@),
        e.domain@ == "default"@,
{
    proof {
        reveal_strlit("mut-");
    }
    let event_id = prefixed_uuid("mut-");
    let timestamp_secs = now_unix_secs();
    let payload_json = mutation_payload(mutation_type, agent_id, now_unix_secs());
    EventDraft {
        event_id,
        timestamp_secs,
        kind: EventKind::AgentMutation,
        design_hash: String::new(),
        parent_hashes: Vec::new(),
        payload_json,
        domain: string_of("default"),
    }
}

/// The event that a parameter changed, stamped now.
pub fn parameter_change_event(event_id: String, payload_json: String) -> (e: EventDraft)
    ensures
        e.event_id == event_id,
        -CLOCK_BOUND < e.timestamp_secs < CLOCK_BOUND,
        e.kind == EventKind::ParameterChange,
        e.design_hash@.len() == 0,
        e.parent_hashes@.len() == 0,
        e.payload_json == payload_json,
        e.domain@ == "default"@,
{
    EventDraft {
        event_id,
        timestamp_secs: now_unix_secs(),
        kind: EventKind::ParameterChange,
        design_hash: String::new(),
        parent_hashes: Vec::new(),
        payload_json,
        domain: string_of("default"),
    }
}

/// The zstd stream (at the given level) of some bytes, if encoding succeeds.
pub uninterp spec fn zstd_encoded(data: Seq<u8>, level: i32) -> Option<Seq<u8>>;

/// Compresses bytes into one zstd stream.
///
/// Calls `zstd::encode_all` on a `std::io::Cursor` over the bytes. The
/// contract claims that the outcome depends on the bytes and level alone,
/// and, as zstd is lossless, that reading the stream back with any limit at
/// least the input's length gives the input.
#[verifier::external_body]
fn zstd_compress(data: &[u8], level: i32) -> (r: Option<Vec<u8>>)
    ensures
        match r {
            Some(v) => {
                &&& zstd_encoded(data@, level) == Some(v@)
                &&& forall|limit: u64| data@.len() <= limit ==> zstd_read_limited(v@, limit) == Some(data@)
            },
            None => zstd_encoded(data@, level) is None,
        },
{
    zstd::encode_all(std::io::Cursor::new(data), level).ok()
}

/// The bytes put on the wire for an encoded event: its zstd stream at level
/// 3 where compression is on, else the encoding itself. Bytes that the SDK
/// compresses and that fit the bridge's limit are decompressed by the
/// bridge into the same bytes.
pub fn wire_payload(event_bytes: Vec<u8>, compression_enabled: bool) -> (r: Option<Vec<u8>>)
    ensures
        !compression_enabled ==> r == Some(event_bytes),
        compression_enabled ==> match r {
            Some(v) => zstd_encoded(event_bytes@, 3) == Some(v@),
            None => zstd_encoded(event_bytes@, 3) is None,
        },
        compression_enabled && event_bytes@.len() <= MAX_DECOMPRESSED_SIZE ==> (r matches Some(v)
            ==> zstd_read_limited(v@, MAX_DECOMPRESSED_SIZE) == Some(event_bytes@)),
{
    if compression_enabled {
        zstd_compress(event_bytes.as_slice(), 3)
    } else {
        Some(event_bytes)
    }
}

} // verus!
