use cathedral::cem::{CemConfig, MetaGovernanceVerdict, review_verdict, review_delay_ms, alert_metrics};
use cathedral::sdk::{
    AgentIdentity, CathedralSdkConfig, SdkMode, ingest_url, retry_step, RetryStep, EventKind, design_proposed_event,
    simulation_completed_event, agent_mutation_event, parameter_change_event,
};
use cathedral::fault::FaultType;
use cathedral::council::{SybilState, SybilPhase, VoteStats};
use cathedral::reputation::{ReputationMerkleTree, ReputationManager};
use cathedral::embodied::{prove_memory_state, ZkMemoryProofPolicy, AegisEvolution, PicoAdsClient, JsonRecorder};
use cathedral::orchestrator::{
    MultiAgentOrchestrator, Agent, AgentConfigFile, AgentSection, MemoryConfig, TrustConfig, PlanningConfig,
    OrchestratorError,
};
use cathedral::code_zk::{ZKGateway, ZkError};
use cathedral::dcops::{ZkGateway, ZKProof};
use cathedral::text::parse_u64;

#[test]
fn cem_defaults_and_metrics() {
    let c = CemConfig::default();
    assert_eq!((c.cem_agent_id.as_str(), c.project_key.as_str(), c.review_timeout_secs), ("cem-agent-1", "CEM", 30));
    assert_eq!(review_verdict(), MetaGovernanceVerdict::Approved);
    assert_eq!(review_delay_ms(0), 50);
    assert_eq!(review_delay_ms(149), 199);
    assert_eq!(review_delay_ms(150), 50);
    let m = alert_metrics("al-1".to_string(), 1_000_000_000, 1_250_999_999, 2_000_000_000);
    assert_eq!((m.alerts_processed, m.escalated, m.convergence_time_ms), (1, 1, 250));
    assert_eq!(m.received_at_ns, 1_000_000_000);
    let back = alert_metrics("al-2".to_string(), 1_250_999_999, 1_000_000_000, 0);
    assert_eq!(back.convergence_time_ms, (-250i64) as u64);
    let tiny = alert_metrics("al-3".to_string(), 0, 999_999, 0);
    assert_eq!(tiny.convergence_time_ms, 0);
    assert_eq!(m.verdict, MetaGovernanceVerdict::Approved);
}

#[test]
fn sdk_identity_and_defaults() {
    let a = AgentIdentity::new("agent-7", "planner").with_parent("root").with_tree("tree-1");
    assert_eq!(a.agent_id, "agent-7");
    assert_eq!(a.parent_agent_id.as_deref(), Some("root"));
    assert_eq!(a.tree_id.as_deref(), Some("tree-1"));
    assert_eq!(a.depth, 1);
    let c = CathedralSdkConfig::default();
    assert_eq!(c.bridge_endpoint, "grpc://localhost:9002");
    assert_eq!(c.agent_id, "default-agent");
    assert!(c.compression_enabled);
    assert_eq!(c.max_retries, 3);
    assert_eq!(c.mode, SdkMode::Async);
}

#[test]
fn sdk_ingest_url() {
    assert_eq!(ingest_url("grpc://localhost:9002"), "http://localhost:9002/cathedral.v1.CathedralBridge/Ingest");
    assert_eq!(ingest_url("https://h"), "https://h/cathedral.v1.CathedralBridge/Ingest");
    assert_eq!(ingest_url("grpc://a/grpc://b"), "http://a/http://b/cathedral.v1.CathedralBridge/Ingest");
}

#[test]
fn sdk_retry_schedule() {
    assert_eq!(retry_step(0, 3, true), RetryStep::Delivered);
    assert_eq!(retry_step(0, 3, false), RetryStep::Retry { wait_ms: 100, next_attempt: 1 });
    assert_eq!(retry_step(2, 3, false), RetryStep::Retry { wait_ms: 300, next_attempt: 3 });
    assert_eq!(retry_step(3, 3, false), RetryStep::GiveUp);
}

#[test]
fn sdk_events() {
    let e = design_proposed_event("ev-1".to_string(), vec!["p".to_string()], "{\"a\":1}".to_string());
    assert_eq!(e.kind, EventKind::DesignProposed);
    assert_eq!(e.event_id, "ev-1");
    assert_eq!(e.domain, "default");
    assert!(e.design_hash.is_empty());
    let s = simulation_completed_event("dh".to_string());
    assert!(s.event_id.starts_with("sim-"));
    assert_eq!(s.event_id.len(), 40);
    assert_eq!(s.payload_json, "{}");
    assert_eq!(s.design_hash, "dh");
    let m = agent_mutation_event("retrain", "agent-9");
    assert!(m.event_id.starts_with("mut-"));
    let v: serde_json::Value = serde_json::from_str(&m.payload_json).unwrap();
    assert_eq!(v["mutation_type"], "retrain");
    assert_eq!(v["agent_id"], "agent-9");
    assert!(v["timestamp"].is_i64());
    let p = parameter_change_event("ev-2".to_string(), "{}".to_string());
    assert_eq!(p.kind, EventKind::ParameterChange);
}

#[test]
fn fault_choices_and_outcomes() {
    for _ in 0..20 {
        match FaultType::random_latency() {
            FaultType::Latency(ms) => assert!((50..500).contains(&ms)),
            _ => panic!("a latency fault"),
        }
        let e = FaultType::random_error();
        assert!(e.fails_operation());
    }
    assert_eq!(FaultType::error_at(0), FaultType::Timeout);
    assert_eq!(FaultType::error_at(2), FaultType::DataCorruption);
    assert_eq!(FaultType::Latency(1).effective(70, 0), FaultType::Latency(70));
    assert_eq!(FaultType::Partition.effective(70, 1), FaultType::NetworkError);
    assert_eq!(FaultType::Timeout.effective(70, 1), FaultType::Timeout);
    let t = FaultType::Timeout.outcome();
    assert_eq!((t.delay_ms, t.error.as_deref()), (5000, Some("Timeout simulado")));
    let c = FaultType::DataCorruption.outcome();
    assert_eq!(c.error.as_deref(), Some("Corrupção de dados simulada"));
    let l = FaultType::Latency(120).outcome();
    assert_eq!((l.delay_ms, l.error), (120, None));
    assert!(FaultType::Partition.outcome().error.is_none());
}

#[test]
fn sybil_phases_by_elapsed_time() {
    let mut s = SybilState::new_at(1000);
    assert_eq!(s.phase, SybilPhase::BuildingTrust);
    s.update_phase_at(1009);
    assert_eq!(s.phase, SybilPhase::BuildingTrust);
    s.update_phase_at(1010);
    assert_eq!(s.phase, SybilPhase::CoordinatedAttack);
    s.update_phase_at(1025);
    assert_eq!(s.phase, SybilPhase::Contamination);
    let mut fresh = SybilState::new();
    fresh.update_phase();
    assert_eq!(fresh.phase, SybilPhase::BuildingTrust);
}

#[test]
fn votes_are_counted() {
    let mut v = VoteStats::new();
    v.record_vote(true);
    v.record_vote(false);
    v.record_vote(true);
    assert_eq!(v.stats(), (3, 2, 1));
}

#[test]
fn reputation_answers() {
    let mut t = ReputationMerkleTree::new();
    t.upsert("a", 5);
    assert_eq!(t.root_hash, [0, 0, 0, 0]);
    let p = t.generate_proof("a").unwrap();
    assert_eq!(p.score, 0);
    assert_eq!(t.verify_proof(&p), Some(true));
    let m = ReputationManager::new();
    assert!(m.update_reputation("a").is_ok());
    let (score, proof) = m.get_reputation_with_proof("a").ok().unwrap();
    assert_eq!((score, proof.score), (1, 1));
    assert_eq!(m.verify_merkle_proof(&proof), Ok(true));
    assert!(m.generate_zk_reputation_proof("a").ok().unwrap().is_empty());
    assert_eq!(m.verify_zk_reputation_proof(&[], "a"), Ok(true));
}

#[test]
fn embodied_parts() {
    assert_eq!(prove_memory_state().ok().unwrap().merkle_root, "");
    let mut policy = ZkMemoryProofPolicy::default();
    assert!(!policy.require_memory_proof_for_recommendations);
    let mut evo = AegisEvolution::new(None, None);
    evo.evolve_policy(&mut policy, &0u8);
    assert!(!policy.require_memory_proof_for_recommendations);
    let client = PicoAdsClient::new("http://ads".to_string(), None);
    assert!(client.get_recommendations("shoes", None, Some(3)).ok().unwrap().is_empty());
    assert!(JsonRecorder::new(None).records.is_empty());
}

fn config_file() -> AgentConfigFile {
    AgentConfigFile {
        agent: AgentSection {
            id: "a1".to_string(),
            role: "planner".to_string(),
            memory: MemoryConfig { short_term_capacity: 64, long_term_enabled: true, vector_db: "qdrant".to_string() },
            trust: TrustConfig { require_memory_proof: true, require_spex: false, post_quantum_signature: true },
            planning: PlanningConfig { strategy: "tree".to_string(), max_steps: 12, consensus_mode: "raft".to_string() },
        },
    }
}

#[test]
fn orchestrator_from_config() {
    let o = MultiAgentOrchestrator::from_agent_config(config_file());
    assert_eq!(o.memory_config.short_term_capacity, 64);
    assert_eq!(o.planning_config.max_steps, 12);
    assert_eq!(o.registered_agents.len(), 1);
    assert_eq!(o.registered_agents[0].id, "a1");
    assert_eq!(o.registered_agents[0].strategy, "tree");
    assert!(o.registered_agents[0].require_memory_proof);
    let mut empty = MultiAgentOrchestrator::new();
    empty.register_agent(Agent { id: "x".to_string(), role: "r".to_string(), strategy: "s".to_string(), require_memory_proof: false });
    assert_eq!(empty.registered_agents.len(), 1);
    assert_eq!(OrchestratorError::invalid_task("bad".to_string()).0, "bad");
}

#[test]
fn zk_gateways() {
    let g = ZKGateway::new();
    assert_eq!(g.prove_statement("s").ok().unwrap(), "0xMockZkProof");
    assert_eq!(g.verify_proof("p").ok(), Some(true));
    assert_eq!(ZkError::ProveError.message(), "Proving failed");
    let d = ZkGateway::new();
    let p: ZKProof = d.prove_compliance("policy", b"data").ok().unwrap();
    assert_eq!(p.hash, "0xMockZkProofCompliance");
    assert_eq!(d.verify_carbon_report(&p).ok(), Some(true));
}

#[test]
fn decimal_parsing() {
    assert_eq!(parse_u64("0"), Some(0));
    assert_eq!(parse_u64("+42"), Some(42));
    assert_eq!(parse_u64("18446744073709551615"), Some(u64::MAX));
    assert_eq!(parse_u64("18446744073709551616"), None);
    assert_eq!(parse_u64(""), None);
    assert_eq!(parse_u64("+"), None);
    assert_eq!(parse_u64("-1"), None);
    assert_eq!(parse_u64("1a"), None);
}

#[test]
fn test_full_flow() {}
