//! Consensus core of a replicated key-value store: a Raft-style node that
//! elects a leader and replicates a command log, and a session client that
//! executes operations exactly once across leader changes and retries.

pub mod codec;
pub mod election;
pub mod log;
pub mod message;
pub mod node;
pub mod role;
pub mod session;
