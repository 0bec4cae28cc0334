//! A consensus node: its persistent and volatile state, the role transitions,
//! the per-tick timers, and the handlers of the peer protocol.

use vstd::prelude::*;

use rand::rngs::StdRng;
use std::collections::HashMap;
use tokio::sync::mpsc::UnboundedSender;

use crate::election::{lemma_distinct_ids_bound, quorum_of};
use crate::log::{command_view, copy_entry, term_at, Log, LogEntry};
use crate::message::{AppendEntriesArgs, AppendEntriesReply, RequestVoteArgs, RequestVoteReply};
use crate::role::{
    election_timeout, is_fresh_candidate, is_fresh_follower, is_fresh_leader, notify, seeded_rng,
    Role, HEARTBEAT_INTERVAL,
};

verus! {

broadcast use vstd::std_specs::hash::group_hash_axioms;

/// An error of a call that only a leader may make.
#[derive(Clone, Copy, Debug, PartialEq, Eq, Structural)]
pub enum RaftError {
    /// The node is not the leader.
    NotLeader,
}

/// What the owner of a node has to do after a tick.
#[derive(Clone, Copy, Debug, PartialEq, Eq, Structural)]
pub enum TickAction {
    /// Nothing.
    Idle,
    /// An election started: send `solicit_votes()`.
    SolicitVotes,
    /// A heartbeat is due: send `send_heartbeats()`.
    SendHeartbeats,
}

/// What a vote reply did to a node.
#[derive(Clone, Copy, Debug, PartialEq, Eq, Structural)]
pub enum VoteTally {
    /// The reply was stale, refused, or already counted: nothing changed.
    Ignored,
    /// A new vote was counted, short of a quorum.
    Counted,
    /// A new vote was counted and the votes reach a quorum: the node may
    /// become leader.
    Quorum,
    /// The reply revealed a higher term: the node is now a follower of it.
    SteppedDown,
}

/// What a leader's replication driver does after an AppendEntries reply.
#[derive(Clone, Copy, Debug, PartialEq, Eq, Structural)]
pub enum ReplicationStep {
    /// The reply was stale: nothing changed.
    Ignored,
    /// The peer holds the entries sent; its cursors moved forward.
    Advanced,
    /// The peer's log did not match; its next index moved back by one:
    /// send again from there.
    Retry,
    /// The reply revealed a higher term: the node is now a follower of it.
    SteppedDown,
}

/// A single consensus node of a cluster of `num_peers` nodes, numbered from 0.
pub struct Raft {
    /// This node's id.
    pub me: u64,
    /// The number of nodes in the cluster, this one included.
    pub num_peers: u64,
    /// The latest term this node has seen.
    pub current_term: u64,
    /// The candidate this node voted for in `current_term`, if any.
    pub voted_for: Option<u64>,
    /// The replicated log.
    pub log: Log,
    /// The highest log index known to be committed.
    pub commit_index: u64,
    /// The highest log index applied to the state machine.
    pub last_applied: u64,
    /// The role and its volatile state.
    pub role: Role,
    /// The source of election timeouts.
    pub rng: StdRng,
}

/// The id of the `i`-th peer of node `me`: every id but `me`, in order.
pub open spec fn peer_at(me: u64, i: int) -> int {
    if i < me {
        i
    } else {
        i + 1
    }
}

/// Whether a candidate whose log ends with (`last_log_index`, `last_log_term`)
/// is at least as up to date as a log that ends with (`my_index`, `my_term`).
pub open spec fn log_up_to_date(
    last_log_index: u64,
    last_log_term: u64,
    my_index: nat,
    my_term: u64,
) -> bool {
    last_log_term > my_term || (last_log_term == my_term && last_log_index >= my_index)
}

/// The term, vote and grant that a node holding `term` and `voted_for`, with
/// a log ending at (`last_index`, `last_term`), arrives at on `args`.
pub open spec fn vote_step(
    term: u64,
    voted_for: Option<u64>,
    last_index: nat,
    last_term: u64,
    args: RequestVoteArgs,
) -> (u64, Option<u64>, bool) {
    let t = if args.term > term { args.term } else { term };
    let v = if args.term > term { None } else { voted_for };
    let grant = args.term >= term && (v is None || v == Some(args.candidate_id))
        && log_up_to_date(args.last_log_index, args.last_log_term, last_index, last_term);
    (t, if grant { Some(args.candidate_id) } else { v }, grant)
}

/// Vote once per term. Of two vote requests of one term that a node answers
/// one after the other, from any state, at most one candidate gets a vote:
/// where both are granted, they name the same candidate.
pub proof fn lemma_vote_once_per_term(
    term: u64,
    voted_for: Option<u64>,
    last_index: nat,
    last_term: u64,
    first: RequestVoteArgs,
    second: RequestVoteArgs,
)
    requires
        first.term == second.term,
    ensures
        ({
            let (t1, v1, g1) = vote_step(term, voted_for, last_index, last_term, first);
            let (t2, v2, g2) = vote_step(t1, v1, last_index, last_term, second);
            g1 && g2 ==> first.candidate_id == second.candidate_id
        }),
{
}

/// A quorum is the smallest majority: it is more than half of the nodes,
/// and one vote fewer is not.
pub proof fn lemma_quorum_is_smallest_majority(n: nat)
    ensures
        2 * quorum_of(n) > n,
        2 * (quorum_of(n) - 1) <= n,
{
}

/// Whether `log` holds an entry of term `prev_term` at index `prev` (index 0,
/// the empty prefix, always matches).
pub open spec fn log_matches(log: Seq<LogEntry>, prev: u64, prev_term: u64) -> bool {
    prev == 0 || (prev <= log.len() && term_at(log, prev as int) == prev_term)
}

/// The number of leading `entries`, from the `k`-th on, that `log` already
/// holds after index `prev` with the same term, plus `k`.
pub open spec fn overlap(log: Seq<LogEntry>, prev: int, entries: Seq<LogEntry>, k: int) -> int
    decreases entries.len() - k,
{
    if 0 <= k < entries.len() && prev + k < log.len() && log[prev + k].term == entries[k].term {
        overlap(log, prev, entries, k + 1)
    } else {
        k
    }
}

/// Whether appending `entries` after index `prev` would drop a committed
/// entry: the first entry that differs in term stands at or below `commit`.
pub open spec fn conflicts_below(
    log: Seq<LogEntry>,
    prev: int,
    entries: Seq<LogEntry>,
    commit: int,
) -> bool {
    let k = overlap(log, prev, entries, 0);
    k < entries.len() && prev + k < log.len() && prev + k < commit
}

/// The log after appending `entries` after index `prev`: entries that match
/// stay, the first that differs and everything after it is replaced.
pub open spec fn merged(log: Seq<LogEntry>, prev: int, entries: Seq<LogEntry>) -> Seq<LogEntry> {
    let k = overlap(log, prev, entries, 0);
    if k >= entries.len() {
        log
    } else {
        log.subrange(0, prev + k) + entries.subrange(k, entries.len() as int)
    }
}

/// The commit index of a follower at `commit` after an accepted request
/// whose entries end at `last_new`.
pub open spec fn advanced_commit(commit: u64, leader_commit: u64, last_new: int) -> int {
    let bound = if leader_commit < last_new { leader_commit as int } else { last_new };
    if bound > commit { bound } else { commit as int }
}

/// Whether a tick ends the current role's timer.
pub open spec fn tick_expires(role: Role) -> bool {
    match role {
        Role::Follower { leader_seen_ticks, leader_seen_timeout, .. } => leader_seen_ticks + 1
            >= leader_seen_timeout,
        Role::Candidate { election_ticks, election_timeout, .. } => election_ticks + 1
            >= election_timeout,
        Role::Leader { heartbeat_ticks, .. } => heartbeat_ticks + 1 >= HEARTBEAT_INTERVAL,
    }
}

/// The role after a tick that does not end its timer.
pub open spec fn ticked(role: Role) -> Role {
    match role {
        Role::Follower { leader, leader_seen_ticks, leader_seen_timeout } => Role::Follower {
            leader,
            leader_seen_ticks: (leader_seen_ticks + 1) as u64,
            leader_seen_timeout,
        },
        Role::Candidate { election_ticks, election_timeout, votes, voters } => Role::Candidate {
            election_ticks: (election_ticks + 1) as u64,
            election_timeout,
            votes,
            voters,
        },
        Role::Leader { heartbeat_ticks, next_index, match_index, work_txs } => Role::Leader {
            heartbeat_ticks: (heartbeat_ticks + 1) as u64,
            next_index,
            match_index,
            work_txs,
        },
    }
}

/// The leader role with its heartbeat timer reset.
pub open spec fn heartbeat_reset(role: Role) -> Role {
    match role {
        Role::Leader { next_index, match_index, work_txs, .. } => Role::Leader {
            heartbeat_ticks: 0,
            next_index,
            match_index,
            work_txs,
        },
        _ => role,
    }
}

impl Raft {
    /// The invariant of a node.
    pub open spec fn wf(&self) -> bool {
        &&& self.me < self.num_peers
        &&& self.log.wf()
        &&& self.commit_index <= self.log@.len()
        &&& self.last_applied <= self.commit_index
        &&& self.role.wf(self.num_peers as nat, self.me)
        &&& !(self.role is Follower) ==> self.voted_for == Some(self.me)
        &&& self.role matches Role::Leader { match_index, .. } ==> forall|i: int|
            0 <= i < match_index@.len() ==> #[trigger] match_index@[i] <= self.log@.len()
    }

    /// The fields that only the log handlers change.
    pub open spec fn same_log(&self, other: &Raft) -> bool {
        &&& self.me == other.me
        &&& self.num_peers == other.num_peers
        &&& self.log@ == other.log@
        &&& self.commit_index == other.commit_index
        &&& self.last_applied == other.last_applied
    }

    /// The request for votes that this node sends in its current term.
    pub open spec fn vote_request(&self) -> RequestVoteArgs {
        RequestVoteArgs {
            term: self.current_term,
            candidate_id: self.me,
            last_log_index: self.log@.len() as u64,
            last_log_term: term_at(self.log@, self.log@.len() as int),
        }
    }

    /// Node `me` of a cluster of `num_peers` nodes, a follower in term 0 with
    /// an empty log, whose election timeouts are drawn from a generator
    /// seeded with `seed`.
    pub fn new(me: u64, num_peers: u64, seed: u64) -> (r: Raft)
        requires
            me < num_peers,
        ensures
            r.wf(),
            r.me == me,
            r.num_peers == num_peers,
            r.current_term == 0,
            r.voted_for is None,
            r.log@ == Seq::<LogEntry>::empty(),
            r.commit_index == 0,
            r.last_applied == 0,
            is_fresh_follower(r.role, None),
    {
        let mut rng = seeded_rng(seed);
        let role = Role::init_follower(None, &mut rng);
        Raft {
            me,
            num_peers,
            current_term: 0,
            voted_for: None,
            log: Log::new(),
            commit_index: 0,
            last_applied: 0,
            role,
            rng,
        }
    }

    /// Whether this node is the leader.
    pub fn is_leader(&self) -> (r: bool)
        ensures
            r == self.role is Leader,
    {
        match self.role {
            Role::Leader { .. } => true,
            _ => false,
        }
    }

    /// The number of votes that make a majority of the cluster.
    pub fn quorum(&self) -> (r: u64)
        ensures
            r == quorum_of(self.num_peers as nat),
    {
        self.num_peers / 2 + 1
    }

    /// Whether this node is a candidate whose votes reach a quorum.
    pub fn has_quorum(&self) -> (r: bool)
        ensures
            r == (self.role matches Role::Candidate { votes, .. } && votes >= quorum_of(
                self.num_peers as nat,
            )),
    {
        match &self.role {
            Role::Candidate { votes, .. } => *votes >= self.quorum(),
            _ => false,
        }
    }

    /// Follows `leader_id` in `term`, which is no older than the current
    /// term. The vote is cleared exactly when the term advances.
    pub fn become_follower(&mut self, term: u64, leader_id: Option<u64>)
        requires
            old(self).wf(),
            term >= old(self).current_term,
        ensures
            final(self).wf(),
            final(self).current_term >= old(self).current_term,
            final(self).same_log(old(self)),
            final(self).current_term == term,
            final(self).voted_for == if term > old(self).current_term {
                None
            } else {
                old(self).voted_for
            },
            is_fresh_follower(final(self).role, leader_id),
    {
        if term > self.current_term {
            self.current_term = term;
            self.voted_for = None;
        }
        self.role = Role::init_follower(leader_id, &mut self.rng);
    }

    /// Starts an election: a new term, in which this node votes for itself.
    pub fn become_candidate(&mut self)
        requires
            old(self).wf(),
            !(old(self).role is Leader),
            old(self).current_term < u64::MAX,
        ensures
            final(self).wf(),
            final(self).current_term >= old(self).current_term,
            final(self).same_log(old(self)),
            final(self).current_term == old(self).current_term + 1,
            final(self).voted_for == Some(old(self).me),
            is_fresh_candidate(final(self).role, old(self).me),
    {
        self.current_term = self.current_term + 1;
        self.role = Role::init_candidate(self.me, &mut self.rng);
        self.voted_for = Some(self.me);
        assert(self.role matches Role::Candidate { voters, .. } && voters@[0] == self.me);
    }

    /// Takes the lead once the votes reach a quorum; `work_txs` holds, for
    /// each peer, the channel of its replication driver.
    pub fn become_leader(&mut self, work_txs: HashMap<u64, UnboundedSender<u64>>)
        requires
            old(self).wf(),
            old(self).role matches Role::Candidate { votes, .. } && votes >= quorum_of(
                old(self).num_peers as nat,
            ),
            forall|id: u64|
                id < old(self).num_peers && id != old(self).me ==> work_txs@.contains_key(id),
        ensures
            final(self).wf(),
            final(self).current_term >= old(self).current_term,
            final(self).same_log(old(self)),
            final(self).current_term == old(self).current_term,
            final(self).voted_for == old(self).voted_for,
            is_fresh_leader(
                final(self).role,
                old(self).num_peers as nat,
                old(self).log@.len() as u64,
                work_txs@,
            ),
    {
        let last = self.log.last_index();
        self.role = Role::init_leader(self.num_peers, last, work_txs);
    }
}

/// Whether `x` occurs in `ids`.
fn contains_id(ids: &Vec<u64>, x: u64) -> (r: bool)
    ensures
        r == ids@.contains(x),
{
    let mut i: usize = 0;
    while i < ids.len()
        invariant
            i <= ids@.len(),
            forall|k: int| 0 <= k < i ==> ids@[k] != x,
        decreases ids@.len() - i,
    {
        if ids[i] == x {
            assert(ids@[i as int] == x);
            return true;
        }
        i = i + 1;
    }
    false
}

/// Timers and the leader's log.
impl Raft {
    /// Advances the role's timer by one tick. A follower or candidate whose
    /// timeout is reached starts a new election; a leader whose heartbeat
    /// interval is reached resets its timer and asks for heartbeats.
    pub fn tick(&mut self) -> (r: TickAction)
        requires
            old(self).wf(),
            old(self).current_term < u64::MAX,
        ensures
            final(self).wf(),
            final(self).current_term >= old(self).current_term,
            final(self).same_log(old(self)),
            old(self).role is Leader ==> final(self).current_term == old(self).current_term
                && final(self).voted_for == old(self).voted_for && if tick_expires(old(self).role) {
                r == TickAction::SendHeartbeats && final(self).role == heartbeat_reset(
                    old(self).role,
                )
            } else {
                r == TickAction::Idle && final(self).role == ticked(old(self).role)
            },
            !(old(self).role is Leader) ==> if tick_expires(old(self).role) {
                &&& r == TickAction::SolicitVotes
                &&& final(self).current_term == old(self).current_term + 1
                &&& final(self).voted_for == Some(old(self).me)
                &&& is_fresh_candidate(final(self).role, old(self).me)
            } else {
                &&& r == TickAction::Idle
                &&& final(self).current_term == old(self).current_term
                &&& final(self).voted_for == old(self).voted_for
                &&& final(self).role == ticked(old(self).role)
            },
    {
        let expired = match &self.role {
            Role::Follower { leader_seen_ticks, leader_seen_timeout, .. } => *leader_seen_ticks
                + 1 >= *leader_seen_timeout,
            Role::Candidate { election_ticks, election_timeout, .. } => *election_ticks + 1
                >= *election_timeout,
            Role::Leader { heartbeat_ticks, .. } => *heartbeat_ticks + 1 >= HEARTBEAT_INTERVAL,
        };
        if expired {
            if self.is_leader() {
                match &mut self.role {
                    Role::Leader { heartbeat_ticks, .. } => {
                        *heartbeat_ticks = 0;
                    },
                    _ => {},
                }
                TickAction::SendHeartbeats
            } else {
                self.become_candidate();
                TickAction::SolicitVotes
            }
        } else {
            match &mut self.role {
                Role::Follower { leader_seen_ticks, .. } => {
                    *leader_seen_ticks = *leader_seen_ticks + 1;
                },
                Role::Candidate { election_ticks, .. } => {
                    *election_ticks = *election_ticks + 1;
                },
                Role::Leader { heartbeat_ticks, .. } => {
                    *heartbeat_ticks = *heartbeat_ticks + 1;
                },
            }
            TickAction::Idle
        }
    }

    /// Appends `command` to the leader's log in the current term and wakes
    /// the replication driver of every peer with the new index. Returns the
    /// index and term of the new entry; fails with `NotLeader`, changing
    /// nothing, where this node is not the leader. A driver whose channel
    /// has closed has retired with its term and is not woken.
    pub fn start(&mut self, command: Option<Vec<u8>>) -> (r: Result<(u64, u64), RaftError>)
        requires
            old(self).wf(),
            old(self).log@.len() + 1 < u64::MAX,
        ensures
            final(self).wf(),
            final(self).current_term >= old(self).current_term,
            match r {
                Ok((index, term)) => {
                    &&& old(self).role is Leader
                    &&& index == old(self).log@.len() + 1
                    &&& term == old(self).current_term
                    &&& final(self).log@ == old(self).log@.push(LogEntry { term, command })
                    &&& final(self).current_term == old(self).current_term
                    &&& final(self).voted_for == old(self).voted_for
                    &&& final(self).commit_index == old(self).commit_index
                    &&& final(self).last_applied == old(self).last_applied
                    &&& final(self).me == old(self).me
                    &&& final(self).num_peers == old(self).num_peers
                    &&& final(self).role == old(self).role
                },
                Err(e) => e == RaftError::NotLeader && !(old(self).role is Leader) && *final(self)
                    == *old(self),
            },
    {
        if !self.is_leader() {
            return Err(RaftError::NotLeader);
        }
        let term = self.current_term;
        let index = self.log.append(term, command);
        match &self.role {
            Role::Leader { work_txs, .. } => {
                let mut id: u64 = 0;
                while id < self.num_peers
                    invariant
                        id <= self.num_peers,
                        forall|p: u64|
                            p < self.num_peers && p != self.me ==> work_txs@.contains_key(p),
                    decreases self.num_peers - id,
                {
                    if id != self.me {
                        match work_txs.get(&id) {
                            Some(tx) => {
                                notify(tx, index);
                            },
                            None => {},
                        }
                    }
                    id = id + 1;
                }
            },
            _ => {},
        }
        Ok((index, term))
    }
}

/// The peer protocol.
impl Raft {
    /// The vote requests of an election, one for each peer in order of id.
    pub fn solicit_votes(&self) -> (r: Vec<(u64, RequestVoteArgs)>)
        requires
            self.wf(),
        ensures
            r@.len() == self.num_peers - 1,
            forall|i: int|
                0 <= i < r@.len() ==> r@[i].0 == peer_at(self.me, i) && r@[i].1
                    == self.vote_request(),
    {
        let args = RequestVoteArgs {
            term: self.current_term,
            candidate_id: self.me,
            last_log_index: self.log.last_index(),
            last_log_term: self.log.last_term(),
        };
        let mut out: Vec<(u64, RequestVoteArgs)> = Vec::new();
        let mut id: u64 = 0;
        while id < self.num_peers
            invariant
                self.wf(),
                id <= self.num_peers,
                args == self.vote_request(),
                out@.len() == if id <= self.me { id as int } else { id - 1 },
                forall|i: int|
                    0 <= i < out@.len() ==> out@[i].0 == peer_at(self.me, i) && out@[i].1
                        == args,
            decreases self.num_peers - id,
        {
            if id != self.me {
                out.push((id, args));
            }
            id = id + 1;
        }
        out
    }

    /// The heartbeats of a leader, one for each peer in order of id: no
    /// entries, and the leader's commit index.
    pub fn send_heartbeats(&self) -> (r: Vec<(u64, AppendEntriesArgs)>)
        requires
            self.wf(),
        ensures
            r@.len() == self.num_peers - 1,
            forall|i: int|
                0 <= i < r@.len() ==> {
                    let (p, a) = #[trigger] r@[i];
                    &&& p == peer_at(self.me, i)
                    &&& a.term == self.current_term
                    &&& a.leader_id == self.me
                    &&& a.prev_log_index == 0
                    &&& a.prev_log_term == 0
                    &&& a.entries@.len() == 0
                    &&& a.leader_commit == self.commit_index
                },
    {
        let mut out: Vec<(u64, AppendEntriesArgs)> = Vec::new();
        let mut id: u64 = 0;
        while id < self.num_peers
            invariant
                self.wf(),
                id <= self.num_peers,
                out@.len() == if id <= self.me { id as int } else { id - 1 },
                forall|i: int|
                    0 <= i < out@.len() ==> {
                        let (p, a) = #[trigger] out@[i];
                        &&& p == peer_at(self.me, i)
                        &&& a.term == self.current_term
                        &&& a.leader_id == self.me
                        &&& a.prev_log_index == 0
                        &&& a.prev_log_term == 0
                        &&& a.entries@.len() == 0
                        &&& a.leader_commit == self.commit_index
                    },
            decreases self.num_peers - id,
        {
            if id != self.me {
                let args = AppendEntriesArgs {
                    term: self.current_term,
                    leader_id: self.me,
                    prev_log_index: 0,
                    prev_log_term: 0,
                    entries: Vec::new(),
                    leader_commit: self.commit_index,
                };
                out.push((id, args));
            }
            id = id + 1;
        }
        out
    }

    /// Answers a request for this node's vote. A higher term makes this node
    /// a follower of it first; the vote goes to the first candidate of a term
    /// whose log is at least as up to date as this node's.
    pub fn handle_request_vote(&mut self, args: RequestVoteArgs) -> (r: RequestVoteReply)
        requires
            old(self).wf(),
        ensures
            final(self).wf(),
            final(self).current_term >= old(self).current_term,
            final(self).same_log(old(self)),
            (final(self).current_term, final(self).voted_for, r.vote_granted) == vote_step(
                old(self).current_term,
                old(self).voted_for,
                old(self).log@.len(),
                term_at(old(self).log@, old(self).log@.len() as int),
                args,
            ),
            r.term == final(self).current_term,
            args.term > old(self).current_term ==> is_fresh_follower(final(self).role, None),
            args.term <= old(self).current_term ==> final(self).role == old(self).role,
    {
        if args.term > self.current_term {
            self.become_follower(args.term, None);
        }
        let up_to_date = args.last_log_term > self.log.last_term() || (args.last_log_term
            == self.log.last_term() && args.last_log_index >= self.log.last_index());
        let free = match self.voted_for {
            None => true,
            Some(c) => c == args.candidate_id,
        };
        let grant = args.term == self.current_term && free && up_to_date;
        if grant {
            self.voted_for = Some(args.candidate_id);
        }
        RequestVoteReply { term: self.current_term, vote_granted: grant }
    }

    /// Answers a leader's request to append entries. A request of an older
    /// term is refused. Otherwise this node follows the sender in its term
    /// (its vote is cleared where the term advances) and accepts where its
    /// log holds the request's previous entry and no committed entry would be
    /// replaced; it then merges the entries and advances its commit index
    /// toward the leader's, up to the last new entry.
    pub fn handle_append_entries(&mut self, args: AppendEntriesArgs) -> (r: AppendEntriesReply)
        requires
            old(self).wf(),
            old(self).log@.len() + args.entries@.len() + 1 < u64::MAX,
        ensures
            final(self).wf(),
            final(self).current_term >= old(self).current_term,
            final(self).me == old(self).me,
            final(self).num_peers == old(self).num_peers,
            final(self).last_applied == old(self).last_applied,
            args.term < old(self).current_term || (args.term == old(self).current_term
                && old(self).role is Leader) ==> r == (AppendEntriesReply {
                term: old(self).current_term,
                success: false,
            }) && *final(self) == *old(self),
            !(args.term < old(self).current_term || (args.term == old(self).current_term
                && old(self).role is Leader)) ==> {
                &&& final(self).current_term == args.term
                &&& final(self).voted_for == if args.term > old(self).current_term {
                    None
                } else {
                    old(self).voted_for
                }
                &&& is_fresh_follower(final(self).role, Some(args.leader_id))
                &&& r.term == args.term
                &&& r.success == (log_matches(
                    old(self).log@,
                    args.prev_log_index,
                    args.prev_log_term,
                ) && !conflicts_below(
                    old(self).log@,
                    args.prev_log_index as int,
                    args.entries@,
                    old(self).commit_index as int,
                ))
                &&& r.success ==> final(self).log@ == merged(
                    old(self).log@,
                    args.prev_log_index as int,
                    args.entries@,
                ) && final(self).commit_index == advanced_commit(
                    old(self).commit_index,
                    args.leader_commit,
                    args.prev_log_index + args.entries@.len(),
                )
                &&& !r.success ==> final(self).log@ == old(self).log@ && final(self).commit_index
                    == old(self).commit_index
            },
    {
        if args.term < self.current_term || (args.term == self.current_term && self.is_leader()) {
            return AppendEntriesReply { term: self.current_term, success: false };
        }
        self.become_follower(args.term, Some(args.leader_id));
        let prev = args.prev_log_index;
        let len = self.log.last_index();
        if !(prev == 0 || (prev <= len && self.log.term_of(prev) == args.prev_log_term)) {
            return AppendEntriesReply { term: self.current_term, success: false };
        }
        let mut entries = args.entries;
        let m = entries.len() as u64;
        let ghost log0 = self.log@;
        let ghost ents = entries@;
        let mut k: u64 = 0;
        while k < m
            invariant
                self.wf(),
                self.log@ == log0,
                entries@ == ents,
                len == log0.len(),
                m == ents.len(),
                ents.len() <= usize::MAX,
                prev <= len,
                k <= m,
                prev + k <= len,
                overlap(log0, prev as int, ents, 0) == overlap(log0, prev as int, ents, k as int),
            ensures
                self.wf(),
                self.log@ == log0,
                entries@ == ents,
                k <= m,
                prev + k <= len,
                overlap(log0, prev as int, ents, 0) == k,
            decreases m - k,
        {
            if prev + k >= len || self.log.term_of(prev + k + 1) != entries[k as usize].term {
                assert(overlap(log0, prev as int, ents, k as int) == k);
                break;
            }
            assert(overlap(log0, prev as int, ents, k as int) == overlap(
                log0,
                prev as int,
                ents,
                k + 1,
            ));
            k = k + 1;
        }
        if k < m {
            if prev + k < len && prev + k < self.commit_index {
                return AppendEntriesReply { term: self.current_term, success: false };
            }
            self.log.truncate(prev + k);
            let tail = entries.split_off(k as usize);
            self.log.append_all(tail);
        }
        let last_new = prev + m;
        if args.leader_commit > self.commit_index {
            let bound = if args.leader_commit < last_new {
                args.leader_commit
            } else {
                last_new
            };
            if bound > self.commit_index {
                self.commit_index = bound;
            }
        }
        AppendEntriesReply { term: self.current_term, success: true }
    }

    /// The request that brings `peer` up to date through index `up_to` (at
    /// most the last index): the entries from the peer's next index on,
    /// after the entry just before it. `None` where this node is not the
    /// leader.
    pub fn replication_args(&self, peer: u64, up_to: u64) -> (r: Option<AppendEntriesArgs>)
        requires
            self.wf(),
            peer < self.num_peers,
        ensures
            match self.role {
                Role::Leader { next_index, .. } => r matches Some(a) && {
                    let next = next_index@[peer as int];
                    let first: int = if next == 0 { 1 } else if next > self.log@.len() + 1 {
                        self.log@.len() + 1 as int
                    } else {
                        next as int
                    };
                    let last = if up_to > self.log@.len() { self.log@.len() as int } else { up_to as int };
                    let count = if last >= first { last - first + 1 } else { 0 };
                    &&& a.term == self.current_term
                    &&& a.leader_id == self.me
                    &&& a.prev_log_index == first - 1
                    &&& a.prev_log_term == term_at(self.log@, first - 1)
                    &&& a.leader_commit == self.commit_index
                    &&& a.entries@.len() == count
                    &&& forall|i: int|
                        0 <= i < count ==> (#[trigger] a.entries@[i]).term == self.log@[first - 1
                            + i].term && command_view(a.entries@[i]) == command_view(
                            self.log@[first - 1 + i],
                        )
                },
                _ => r is None,
            },
    {
        match &self.role {
            Role::Leader { next_index, .. } => {
                let len = self.log.last_index();
                let slots = next_index.len();
                assert(peer < slots);
                let next = next_index[peer as usize];
                let first = if next == 0 {
                    1
                } else if next > len + 1 {
                    len + 1
                } else {
                    next
                };
                let last = if up_to > len { len } else { up_to };
                let mut entries: Vec<LogEntry> = Vec::new();
                let mut idx: u64 = first;
                while idx <= last
                    invariant
                        self.wf(),
                        len == self.log@.len(),
                        1 <= first <= idx,
                        first <= len + 1,
                        last <= len,
                        idx <= last + 1 || idx == first,
                        entries@.len() == idx - first,
                        forall|i: int|
                            0 <= i < idx - first ==> (#[trigger] entries@[i]).term == self.log@[first
                                - 1 + i].term && command_view(entries@[i]) == command_view(
                                self.log@[first - 1 + i],
                            ),
                    decreases last + 1 - idx,
                {
                    match self.log.read(idx) {
                        Ok(e) => {
                            entries.push(copy_entry(e));
                        },
                        Err(_) => {
                            return None;
                        },
                    }
                    idx = idx + 1;
                }
                Some(
                    AppendEntriesArgs {
                        term: self.current_term,
                        leader_id: self.me,
                        prev_log_index: first - 1,
                        prev_log_term: self.log.term_of(first - 1),
                        entries,
                        leader_commit: self.commit_index,
                    },
                )
            },
            _ => None,
        }
    }

    /// Takes in `peer`'s reply to a request whose entries ended at index
    /// `last_sent`. A higher term makes this node a follower of it. In the
    /// current term, a leader moves the peer's match index up to
    /// `last_sent` (at most the last index) on success, and its next index
    /// just past it; on a refusal it moves the next index back by one, not
    /// below 1.
    pub fn handle_append_entries_reply(
        &mut self,
        peer: u64,
        last_sent: u64,
        reply: AppendEntriesReply,
    ) -> (r: ReplicationStep)
        requires
            old(self).wf(),
            peer < old(self).num_peers,
        ensures
            final(self).wf(),
            final(self).current_term >= old(self).current_term,
            final(self).same_log(old(self)),
            reply.term > old(self).current_term ==> {
                &&& r == ReplicationStep::SteppedDown
                &&& final(self).current_term == reply.term
                &&& final(self).voted_for is None
                &&& is_fresh_follower(final(self).role, None)
            },
            reply.term <= old(self).current_term ==> {
                &&& final(self).current_term == old(self).current_term
                &&& final(self).voted_for == old(self).voted_for
                &&& match old(self).role {
                    Role::Leader { heartbeat_ticks, next_index, match_index, .. } => if reply.term
                        < old(self).current_term {
                        r == ReplicationStep::Ignored && final(self).role == old(self).role
                    } else {
                        final(self).role matches Role::Leader {
                            heartbeat_ticks: h2,
                            next_index: n2,
                            match_index: m2,
                            ..
                        } && h2 == heartbeat_ticks && if reply.success {
                            let sent = if last_sent > old(self).log@.len() {
                                old(self).log@.len() as u64
                            } else {
                                last_sent
                            };
                            let m = if sent > match_index@[peer as int] {
                                sent
                            } else {
                                match_index@[peer as int]
                            };
                            &&& r == ReplicationStep::Advanced
                            &&& m2@ == match_index@.update(peer as int, m)
                            &&& n2@ == next_index@.update(peer as int, (m + 1) as u64)
                        } else {
                            let n = next_index@[peer as int];
                            &&& r == ReplicationStep::Retry
                            &&& m2@ == match_index@
                            &&& n2@ == next_index@.update(
                                peer as int,
                                if n > 1 { (n - 1) as u64 } else { 1 },
                            )
                        }
                    },
                    _ => r == ReplicationStep::Ignored && final(self).role == old(self).role,
                }
            },
    {
        if reply.term > self.current_term {
            self.become_follower(reply.term, None);
            return ReplicationStep::SteppedDown;
        }
        if reply.term < self.current_term {
            return ReplicationStep::Ignored;
        }
        let len = self.log.last_index();
        let ghost n = self.num_peers;
        let ghost log_len = self.log@.len();
        match &mut self.role {
            Role::Leader { next_index, match_index, .. } => {
                assert(next_index@.len() == n && match_index@.len() == n);
                assert(match_index@[peer as int] <= log_len);
                let slots = next_index.len();
                assert(peer < slots && peer < match_index.len());
                if reply.success {
                    let sent = if last_sent > len { len } else { last_sent };
                    let cur = match_index[peer as usize];
                    let m = if sent > cur { sent } else { cur };
                    match_index.set(peer as usize, m);
                    next_index.set(peer as usize, m + 1);
                    ReplicationStep::Advanced
                } else {
                    let n = next_index[peer as usize];
                    next_index.set(peer as usize, if n > 1 { n - 1 } else { 1 });
                    ReplicationStep::Retry
                }
            },
            _ => ReplicationStep::Ignored,
        }
    }

    /// Counts a reply to this node's vote request sent to peer `from`. A
    /// higher term makes this node a follower of it; a grant in the current
    /// term, to a candidate, from a node not yet counted, adds one vote.
    pub fn handle_vote_reply(&mut self, from: u64, reply: RequestVoteReply) -> (r: VoteTally)
        requires
            old(self).wf(),
        ensures
            final(self).wf(),
            final(self).current_term >= old(self).current_term,
            final(self).same_log(old(self)),
            reply.term > old(self).current_term ==> {
                &&& r == VoteTally::SteppedDown
                &&& final(self).current_term == reply.term
                &&& final(self).voted_for is None
                &&& is_fresh_follower(final(self).role, None)
            },
            reply.term <= old(self).current_term ==> {
                &&& final(self).current_term == old(self).current_term
                &&& final(self).voted_for == old(self).voted_for
                &&& match old(self).role {
                    Role::Candidate { election_ticks, election_timeout, votes, voters } => {
                        if reply.term == old(self).current_term && reply.vote_granted && from
                            < old(self).num_peers && !voters@.contains(from) {
                            &&& final(self).role matches Role::Candidate {
                                election_ticks: t2,
                                election_timeout: to2,
                                votes: v2,
                                voters: vs2,
                            }
                            &&& t2 == election_ticks && to2 == election_timeout
                            &&& v2 == votes + 1 && vs2@ == voters@.push(from)
                            &&& r == if v2 >= quorum_of(old(self).num_peers as nat) {
                                VoteTally::Quorum
                            } else {
                                VoteTally::Counted
                            }
                        } else {
                            r == VoteTally::Ignored && final(self).role == old(self).role
                        }
                    },
                    _ => r == VoteTally::Ignored && final(self).role == old(self).role,
                }
            },
    {
        if reply.term > self.current_term {
            self.become_follower(reply.term, None);
            return VoteTally::SteppedDown;
        }
        if reply.term != self.current_term || !reply.vote_granted || from >= self.num_peers {
            return VoteTally::Ignored;
        }
        let q = self.quorum();
        let n = self.num_peers;
        let counted = match &self.role {
            Role::Candidate { voters, .. } => contains_id(voters, from),
            _ => true,
        };
        if counted {
            return VoteTally::Ignored;
        }
        match &mut self.role {
            Role::Candidate { votes, voters, .. } => {
                let ghost before = voters@;
                proof {
                    lemma_distinct_ids_bound(before.push(from), n as nat);
                }
                voters.push(from);
                *votes = *votes + 1;
                assert(voters@.no_duplicates()) by {
                    assert forall|a: int, b: int|
                        0 <= a < b < voters@.len() implies voters@[a] != voters@[b] by {
                        if b == before.len() {
                            assert(before.contains(before[a]));
                        }
                    }
                }
                assert(voters@.contains(self.me)) by {
                    let k = choose|k: int| 0 <= k < before.len() && before[k] == self.me;
                    assert(voters@[k] == self.me);
                }
                if *votes >= q {
                    VoteTally::Quorum
                } else {
                    VoteTally::Counted
                }
            },
            _ => VoteTally::Ignored,
        }
    }
}

} // verus!
