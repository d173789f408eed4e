pub mod ballot;
pub mod config;
pub mod election;
pub mod laws;
pub mod leader_election;
pub mod memory_storage;
pub mod quorum;
pub mod replica_state;
pub mod storage;
