//! The role a node plays, each variant with its own volatile state, and the
//! randomized election timeout.

use vstd::prelude::*;

use rand::rngs::StdRng;
use std::collections::HashMap;
use tokio::sync::mpsc::UnboundedSender;

verus! {

/// The interval between leader heartbeats, in ticks.
pub const HEARTBEAT_INTERVAL: u64 = 1;

/// The smallest election timeout, in ticks.
pub const ELECTION_TIMEOUT_MIN: u64 = 8 * HEARTBEAT_INTERVAL;

/// One past the largest election timeout, in ticks.
pub const ELECTION_TIMEOUT_MAX: u64 = 15 * HEARTBEAT_INTERVAL;

#[verifier::external_type_specification]
#[verifier::external_body]
pub struct ExStdRng(StdRng);

#[verifier::external_type_specification]
#[verifier::external_body]
#[verifier::reject_recursive_types(T)]
pub struct ExUnboundedSender<T>(UnboundedSender<T>);

/// Relies on rand's SeedableRng::seed_from_u64: a generator seeded from `seed`.
#[verifier::external_body]
pub(crate) fn seeded_rng(seed: u64) -> StdRng {
    <StdRng as rand::SeedableRng>::seed_from_u64(seed)
}

/// Relies on rand's Rng::gen_range over `lo..hi`: a value in `[lo, hi)`; it
/// panics on an empty range, which `requires` leaves out.
#[verifier::external_body]
fn sample_range(rng: &mut StdRng, lo: u64, hi: u64) -> (r: u64)
    requires
        lo < hi,
    ensures
        lo <= r < hi,
{
    rand::Rng::gen_range(rng, lo..hi)
}

/// Relies on tokio's UnboundedSender::send, which never waits and fails only
/// when the receiving half has closed; whether it failed is returned.
#[verifier::external_body]
pub(crate) fn notify(tx: &UnboundedSender<u64>, index: u64) -> (sent: bool) {
    tx.send(index).is_ok()
}

/// Whether `t` is an admissible election timeout.
pub open spec fn timeout_in_range(t: u64) -> bool {
    ELECTION_TIMEOUT_MIN <= t < ELECTION_TIMEOUT_MAX
}

/// Draws an election timeout uniformly from `[ELECTION_TIMEOUT_MIN, ELECTION_TIMEOUT_MAX)`.
pub fn election_timeout(rng: &mut StdRng) -> (r: u64)
    ensures
        timeout_in_range(r),
{
    sample_range(rng, ELECTION_TIMEOUT_MIN, ELECTION_TIMEOUT_MAX)
}

/// The role of a node and the volatile state that goes with it.
pub enum Role {
    Follower {
        /// The leader, or `None` where it is not known.
        leader: Option<u64>,
        /// Ticks since the last message from the leader.
        leader_seen_ticks: u64,
        /// Ticks without a leader before an election starts.
        leader_seen_timeout: u64,
    },
    Candidate {
        /// Ticks since the election started.
        election_ticks: u64,
        /// Ticks before the election restarts.
        election_timeout: u64,
        /// Votes received, this node's own included.
        votes: u64,
        /// The nodes that granted those votes, each once.
        voters: Vec<u64>,
    },
    Leader {
        /// Ticks since the last heartbeat.
        heartbeat_ticks: u64,
        /// For each node, the next log index to send to it.
        next_index: Vec<u64>,
        /// For each node, the last log index known to be replicated on it.
        match_index: Vec<u64>,
        /// For each peer, the channel that wakes its replication driver.
        work_txs: HashMap<u64, UnboundedSender<u64>>,
    },
}

/// A fresh follower state: no ticks seen, a fresh timeout.
pub open spec fn is_fresh_follower(role: Role, leader: Option<u64>) -> bool {
    role matches Role::Follower { leader: l, leader_seen_ticks: 0, leader_seen_timeout: t }
        && l == leader && timeout_in_range(t)
}

/// A fresh candidate state: only `me`'s own vote, no ticks, a fresh timeout.
pub open spec fn is_fresh_candidate(role: Role, me: u64) -> bool {
    role matches Role::Candidate { election_ticks: 0, election_timeout: t, votes: 1, voters }
        && voters@ == seq![me] && timeout_in_range(t)
}

/// A fresh leader state for `n` nodes whose log ends at `last_index`.
pub open spec fn is_fresh_leader(
    role: Role,
    n: nat,
    last_index: u64,
    txs: Map<u64, UnboundedSender<u64>>,
) -> bool {
    role matches Role::Leader { heartbeat_ticks: 0, next_index, match_index, work_txs }
        && next_index@ == Seq::new(n, |i: int| (last_index + 1) as u64)
        && match_index@ == Seq::new(n, |i: int| 0u64)
        && work_txs@ == txs
}

impl Role {
    /// Invariant of the role of node `me` in a cluster of `n` nodes.
    pub open spec fn wf(&self, n: nat, me: u64) -> bool {
        match self {
            Role::Follower { leader_seen_ticks, leader_seen_timeout, .. } => {
                timeout_in_range(*leader_seen_timeout) && *leader_seen_ticks
                    < *leader_seen_timeout
            },
            Role::Candidate { election_ticks, election_timeout, votes, voters } => {
                &&& timeout_in_range(*election_timeout)
                &&& *election_ticks < *election_timeout
                &&& *votes == voters@.len()
                &&& voters@.no_duplicates()
                &&& voters@.contains(me)
                &&& forall|i: int| 0 <= i < voters@.len() ==> voters@[i] < n
            },
            Role::Leader { heartbeat_ticks, next_index, match_index, work_txs } => {
                &&& *heartbeat_ticks < HEARTBEAT_INTERVAL
                &&& next_index@.len() == n
                &&& match_index@.len() == n
                &&& forall|id: u64| id < n && id != me ==> work_txs@.contains_key(id)
            },
        }
    }

    /// A follower of `leader` that has seen no tick yet.
    pub fn init_follower(leader: Option<u64>, rng: &mut StdRng) -> (r: Role)
        ensures
            is_fresh_follower(r, leader),
    {
        Role::Follower { leader, leader_seen_ticks: 0, leader_seen_timeout: election_timeout(rng) }
    }

    /// A candidate that has voted for itself, `me`.
    pub fn init_candidate(me: u64, rng: &mut StdRng) -> (r: Role)
        ensures
            is_fresh_candidate(r, me),
    {
        let mut voters: Vec<u64> = Vec::new();
        voters.push(me);
        Role::Candidate {
            election_ticks: 0,
            election_timeout: election_timeout(rng),
            votes: 1,
            voters,
        }
    }

    /// A leader of `num_peers` nodes whose log ends at `last_index`.
    pub fn init_leader(
        num_peers: u64,
        last_index: u64,
        work_txs: HashMap<u64, UnboundedSender<u64>>,
    ) -> (r: Role)
        requires
            last_index < u64::MAX,
        ensures
            is_fresh_leader(r, num_peers as nat, last_index, work_txs@),
    {
        let mut next_index: Vec<u64> = Vec::new();
        let mut match_index: Vec<u64> = Vec::new();
        let mut i: u64 = 0;
        while i < num_peers
            invariant
                i <= num_peers,
                last_index < u64::MAX,
                next_index@ == Seq::new(i as nat, |k: int| (last_index + 1) as u64),
                match_index@ == Seq::new(i as nat, |k: int| 0u64),
            decreases num_peers - i,
        {
            next_index.push(last_index + 1);
            match_index.push(0);
            i = i + 1;
            assert(next_index@ =~= Seq::new(i as nat, |k: int| (last_index + 1) as u64));
            assert(match_index@ =~= Seq::new(i as nat, |k: int| 0u64));
        }
        Role::Leader { heartbeat_ticks: 0, next_index, match_index, work_txs }
    }
}

} // verus!
