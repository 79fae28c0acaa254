//! Cathedral: agent identity, provenance ledgers, shard storage planning,
//! leader election, quorum partitions and expert routing, with their
//! behaviour stated as Verus contracts.

pub mod text;
pub mod code_identity;
pub mod storage;
pub mod clock;
pub mod failover;
pub mod partition;
pub mod model33t;
pub mod arkhe_core;
pub mod arkhe_agents;
pub mod arkhe_identity;
pub mod bridge;
pub mod orchestrator;
pub mod cem;
pub mod sdk;
pub mod fault;
pub mod council;
pub mod reputation;
pub mod zk;
pub mod embodied;
pub mod dcops;
pub mod code_wormgraph;
pub mod code_zk;
