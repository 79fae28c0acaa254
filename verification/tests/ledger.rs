use cathedral::code_identity::Did;
use cathedral::code_wormgraph::{
    Action, Block, MemoryGateway, WormGraphBackend, WormGraphClient, WormGraphError, ProvenanceTrace,
};
use cathedral::dcops;

fn action(id: &str, t: i64) -> Action {
    Action {
        id: id.to_string(),
        did: Did::new("m", "n", "i"),
        action_type: "edit".to_string(),
        data: "{}".to_string(),
        signature: vec![],
        proof: None,
        timestamp: t,
    }
}

fn block(hash: &str, t: i64) -> Block {
    Block { actions: vec![action(hash, t)], timestamp: t, hash: hash.to_string() }
}

#[test]
fn block_new_stamps_and_names() {
    let b = Block::new(vec![action("a", 1)]);
    assert_eq!(b.actions.len(), 1);
    assert_eq!(b.hash.len(), 36);
    let c = Block::new(vec![]);
    assert_ne!(b.hash, c.hash);
}

#[test]
fn memory_gateway_lists_newest_first() {
    let mut g = MemoryGateway::new();
    assert!(g.append_entry(block("h1", 10)).is_ok());
    assert!(g.append_entry(block("h2", 30)).is_ok());
    assert!(g.append_entry(block("h3", 20)).is_ok());
    let all = g.get_entries(None).ok().unwrap();
    assert_eq!(all.iter().map(|b| b.hash.clone()).collect::<Vec<_>>(), vec!["h2", "h3", "h1"]);
    let two = g.get_entries(Some(2)).ok().unwrap();
    assert_eq!(two.iter().map(|b| b.hash.clone()).collect::<Vec<_>>(), vec!["h2", "h3"]);
    assert!(g.get_entries(Some(0)).ok().unwrap().is_empty());
    assert_eq!(g.get_entries(Some(10)).ok().unwrap().len(), 3);
}

#[test]
fn memory_gateway_replaces_same_hash() {
    let mut g = MemoryGateway::new();
    assert!(g.append_entry(block("h", 10)).is_ok());
    assert!(g.append_entry(block("h", 40)).is_ok());
    let all = g.get_entries(None).ok().unwrap();
    assert_eq!(all.len(), 1);
    assert_eq!(all[0].timestamp, 40);
}

#[test]
fn appended_block_is_read_back() {
    let mut g = MemoryGateway::new();
    assert!(g.append_entry(block("old", 5)).is_ok());
    assert!(g.append_entry(block("new", 6)).is_ok());
    let all = g.get_entries(None).ok().unwrap();
    let found = all.iter().find(|b| b.hash == "new").unwrap();
    assert_eq!(found.actions[0].id, "new");
}

#[test]
fn client_records_one_action_blocks() {
    let mut client = WormGraphClient::new(MemoryGateway::new());
    let did = Did::new("cathedral", "agents", "alice");
    let h = client.record_action(&did, "deploy", "{\"v\":1}".to_string()).ok().unwrap();
    assert_eq!(h.len(), 36);
    let h2 = client.record_action(&did, "deploy", "{}".to_string()).ok().unwrap();
    assert_ne!(h, h2);
    assert!(client.query_provenance("x").ok().unwrap().blocks.is_empty());
    let trace = ProvenanceTrace::default();
    assert!(trace.blocks.is_empty());
}

#[test]
fn ledger_error_messages() {
    assert_eq!(WormGraphError::Storage("disk".to_string()).message(), "Storage error: disk");
    assert_eq!(dcops::WormGraphError::Storage("x".to_string()).message(), "Storage error: x");
}

#[test]
fn clone_keeps_blocks() {
    let b = block("h", 3);
    let c = b.clone();
    assert_eq!(c.hash, "h");
    assert_eq!(c.actions[0].did.to_string(), "did:m:n:i");
}

struct Log {
    blocks: Vec<dcops::Block>,
}

impl dcops::WormGraphBackend for Log {
    fn append_entry(&mut self, block: dcops::Block) -> Result<(), dcops::WormGraphError> {
        self.blocks.push(block);
        Ok(())
    }

    fn get_entries(&self, _limit: Option<usize>) -> Result<Vec<dcops::Block>, dcops::WormGraphError> {
        Ok(vec![])
    }
}

#[test]
fn dcops_gateway_appends_single_action_blocks() {
    let mut g = dcops::MemoryGateway::new(Log { blocks: vec![] });
    let a = dcops::Action {
        id: "a1".to_string(),
        agent_id: "agent".to_string(),
        action_type: "cool".to_string(),
        data: "{}".to_string(),
    };
    assert!(g.record_action("agent", a).is_ok());
    assert!(g.query_provenance("a1").ok().unwrap().blocks.is_empty());
    let b = dcops::Block::new(vec![]);
    assert!(b.actions.is_empty());
    let one = dcops::MemoryGateway::<Log>::action_block(dcops::Action {
        id: "a2".to_string(),
        agent_id: "agent".to_string(),
        action_type: "heat".to_string(),
        data: "{\"t\":3}".to_string(),
    });
    assert_eq!(one.actions.len(), 1);
    assert_eq!(one.actions[0].id, "a2");
}
