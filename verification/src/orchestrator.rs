//! The multi-agent orchestrator's configuration and agent registry.

use vstd::prelude::*;
use crate::text::string_of;

verus! {

/// A refusal of the orchestrator, with its message.
pub struct OrchestratorError(pub String);

impl OrchestratorError {
    /// A refusal of an invalid task with the given message.
    pub fn invalid_task(msg: String) -> (e: OrchestratorError)
        ensures
            e.0 == msg,
    {
        OrchestratorError(msg)
    }
}

/// An agent as the orchestrator knows it.
pub struct Agent {
    pub id: String,
    pub role: String,
    pub strategy: String,
    pub require_memory_proof: bool,
}

/// Memory settings of an agent.
pub struct MemoryConfig {
    pub short_term_capacity: usize,
    pub long_term_enabled: bool,
    pub vector_db: String,
}

/// Trust settings of an agent.
pub struct TrustConfig {
    pub require_memory_proof: bool,
    pub require_spex: bool,
    pub post_quantum_signature: bool,
}

/// Planning settings of an agent.
pub struct PlanningConfig {
    pub strategy: String,
    pub max_steps: u32,
    pub consensus_mode: String,
}

/// The `agent` section of an agent configuration file.
pub struct AgentSection {
    pub id: String,
    pub role: String,
    pub memory: MemoryConfig,
    pub trust: TrustConfig,
    pub planning: PlanningConfig,
}

/// A loaded agent configuration file.
pub struct AgentConfigFile {
    pub agent: AgentSection,
}

/// The orchestrator: the settings it runs under and the agents it
/// coordinates.
pub struct MultiAgentOrchestrator {
    pub memory_config: MemoryConfig,
    pub trust_config: TrustConfig,
    pub planning_config: PlanningConfig,
    pub registered_agents: Vec<Agent>,
}

impl MultiAgentOrchestrator {
    /// An orchestrator with empty settings and no agents.
    pub fn new() -> (o: MultiAgentOrchestrator)
        ensures
            o.memory_config.short_term_capacity == 0,
            !o.memory_config.long_term_enabled,
            o.memory_config.vector_db@.len() == 0,
            !o.trust_config.require_memory_proof,
            !o.trust_config.require_spex,
            !o.trust_config.post_quantum_signature,
            o.planning_config.strategy@.len() == 0,
            o.planning_config.max_steps == 0,
            o.planning_config.consensus_mode@.len() == 0,
            o.registered_agents@.len() == 0,
    {
        MultiAgentOrchestrator {
            memory_config: MemoryConfig { short_term_capacity: 0, long_term_enabled: false, vector_db: String::new() },
            trust_config: TrustConfig { require_memory_proof: false, require_spex: false, post_quantum_signature: false },
            planning_config: PlanningConfig { strategy: String::new(), max_steps: 0, consensus_mode: String::new() },
            registered_agents: Vec::new(),
        }
    }

    /// Adds an agent after the registered ones.
    pub fn register_agent(&mut self, agent: Agent)
        ensures
            final(self).registered_agents@ == old(self).registered_agents@.push(agent),
            final(self).memory_config == old(self).memory_config,
            final(self).trust_config == old(self).trust_config,
            final(self).planning_config == old(self).planning_config,
    {
        self.registered_agents.push(agent);
    }

    /// The orchestrator a loaded configuration describes: its memory, trust
    /// and planning settings, and one registered agent with the configured
    /// id, role, planning strategy and memory-proof requirement.
    pub fn from_agent_config(config: AgentConfigFile) -> (o: MultiAgentOrchestrator)
        ensures
            o.memory_config == config.agent.memory,
            o.trust_config == config.agent.trust,
            o.planning_config.strategy@ == config.agent.planning.strategy@,
            o.planning_config.max_steps == config.agent.planning.max_steps,
            o.planning_config.consensus_mode == config.agent.planning.consensus_mode,
            o.registered_agents@.len() == 1,
            o.registered_agents@[0].id == config.agent.id,
            o.registered_agents@[0].role == config.agent.role,
            o.registered_agents@[0].strategy@ == config.agent.planning.strategy@,
            o.registered_agents@[0].require_memory_proof == config.agent.trust.require_memory_proof,
    {
        let strategy = config.agent.planning.strategy.clone();
        let require_memory_proof = config.agent.trust.require_memory_proof;
        let mut o = MultiAgentOrchestrator::new();
        o.memory_config = config.agent.memory;
        o.trust_config = config.agent.trust;
        o.planning_config = config.agent.planning;
        o.register_agent(Agent { id: config.agent.id, role: config.agent.role, strategy, require_memory_proof });
        o
    }
}

} // verus!
