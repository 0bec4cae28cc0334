//! The messages that nodes of a cluster exchange.

use vstd::prelude::*;

use crate::log::LogEntry;

verus! {

/// A candidate's request for a node's vote.
#[derive(Clone, Copy, Debug, PartialEq, Eq, Structural)]
pub struct RequestVoteArgs {
    pub term: u64,
    pub candidate_id: u64,
    pub last_log_index: u64,
    pub last_log_term: u64,
}

/// A node's answer to a `RequestVoteArgs`.
#[derive(Clone, Copy, Debug, PartialEq, Eq, Structural)]
pub struct RequestVoteReply {
    pub term: u64,
    pub vote_granted: bool,
}

/// A leader's request to append entries after a given position; with no
/// entries it serves as a heartbeat.
#[derive(Clone, Debug)]
pub struct AppendEntriesArgs {
    pub term: u64,
    pub leader_id: u64,
    pub prev_log_index: u64,
    pub prev_log_term: u64,
    pub entries: Vec<LogEntry>,
    pub leader_commit: u64,
}

/// A node's answer to an `AppendEntriesArgs`.
#[derive(Clone, Copy, Debug, PartialEq, Eq, Structural)]
pub struct AppendEntriesReply {
    pub term: u64,
    pub success: bool,
}

} // verus!
