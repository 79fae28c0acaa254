use cathedral::arkhe_agents::{AgentManager, IntentScheduler, Agent, Capsule};
use cathedral::arkhe_core::{Intent, AssetRef, Did, AgentId, KernelError};

fn transfer(id: &str, amount: u64) -> Intent {
    Intent::TransferAsset {
        asset: AssetRef { chain: "test".to_string(), id: id.to_string() },
        amount,
        recipient: Did::new("test", "user"),
        priority: 1,
    }
}

#[test]
fn test_agent_lifecycle() {
    let mut manager = AgentManager::new();
    let id = manager.create_agent("test-agent");
    let agent = manager.get_agent(id).unwrap();
    assert_eq!(agent.name, "test-agent");
}

#[test]
fn test_intent_scheduler() {
    let mut scheduler = IntentScheduler::new();
    let intent = Intent::TransferAsset {
        asset: AssetRef { chain: "test".to_string(), id: "asset1".to_string() },
        amount: 100,
        recipient: Did::new("test", "user"),
        priority: 1,
    };
    scheduler.submit(intent);
    let next = scheduler.schedule_next();
    assert!(next.is_some());
}

#[test]
fn agent_ids_rise_and_are_found() {
    let mut manager = AgentManager::new();
    let a = manager.create_agent("alpha");
    let b = manager.create_agent("beta");
    assert_eq!(a, AgentId(0));
    assert_eq!(b, AgentId(1));
    assert_eq!(manager.get_agent(a).unwrap().name, "alpha");
    assert_eq!(manager.get_agent(b).unwrap().name, "beta");
    assert!(manager.get_agent(AgentId(7)).is_none());
}

#[test]
fn scheduler_is_first_in_first_out() {
    let mut scheduler = IntentScheduler::new();
    scheduler.submit(transfer("a", 1));
    scheduler.submit(transfer("b", 2));
    scheduler.submit(transfer("c", 3));
    let mut amounts = Vec::new();
    while let Some(Intent::TransferAsset { amount, .. }) = scheduler.schedule_next() {
        amounts.push(amount);
    }
    assert_eq!(amounts, vec![1, 2, 3]);
    assert!(scheduler.schedule_next().is_none());
}

#[test]
fn new_agent_is_empty_and_queues_intents() {
    let mut agent = Agent::new(AgentId(4), "worker");
    assert_eq!(agent.capsule.agent_id, AgentId(4));
    assert!(agent.capabilities.is_empty());
    agent.submit_intent(transfer("x", 9));
    assert_eq!(agent.intent_queue.len(), 1);
    let c = Capsule::new(AgentId(5));
    assert_eq!(c.agent_id, AgentId(5));
}

#[test]
fn kernel_did_and_error_texts() {
    assert_eq!(Did::new("arkhe", "alice").0, "did:arkhe:alice");
    assert_eq!(KernelError::Generic.message(), "Generic error");
    assert_eq!(KernelError::AgentNotFound("bob".to_string()).message(), "Agent not found: bob");
}
