use std::collections::HashMap;

use feather_raft::log::{Log, LogError};
use feather_raft::message::{AppendEntriesArgs, AppendEntriesReply, RequestVoteArgs, RequestVoteReply};
use feather_raft::node::{Raft, RaftError, ReplicationStep, TickAction, VoteTally};
use feather_raft::role::{election_timeout, Role, ELECTION_TIMEOUT_MAX, ELECTION_TIMEOUT_MIN};
use feather_raft::log::LogEntry;
use rand::SeedableRng;
use tokio::sync::mpsc::{unbounded_channel, UnboundedReceiver, UnboundedSender};

fn channels(n: u64, me: u64) -> (HashMap<u64, UnboundedSender<u64>>, HashMap<u64, UnboundedReceiver<u64>>) {
    let mut txs = HashMap::new();
    let mut rxs = HashMap::new();
    for id in 0..n {
        if id != me {
            let (tx, rx) = unbounded_channel();
            txs.insert(id, tx);
            rxs.insert(id, rx);
        }
    }
    (txs, rxs)
}

/// Ticks a follower until its election starts.
fn elect_timeout(node: &mut Raft) -> u64 {
    let mut ticks = 0;
    loop {
        ticks += 1;
        if node.tick() == TickAction::SolicitVotes {
            return ticks;
        }
        assert!(ticks < 100);
    }
}

/// Makes `node` the leader of a cluster in which every other node grants.
fn make_leader(node: &mut Raft) -> HashMap<u64, UnboundedReceiver<u64>> {
    elect_timeout(node);
    let n = node.num_peers;
    let term = node.current_term;
    for (peer, _) in node.solicit_votes() {
        if node.has_quorum() {
            break;
        }
        node.handle_vote_reply(peer, RequestVoteReply { term, vote_granted: true });
    }
    let (txs, rxs) = channels(n, node.me);
    node.become_leader(txs);
    rxs
}

#[test]
fn three_nodes_elect_one_leader() {
    // pick seeds whose randomized timeouts have a single smallest one
    let timeout = |n: &Raft| match n.role {
        Role::Follower { leader_seen_timeout, .. } => leader_seen_timeout,
        _ => unreachable!(),
    };
    let mut base = 0;
    let mut nodes: Vec<Raft> = loop {
        let nodes: Vec<Raft> = (0..3).map(|i| Raft::new(i, 3, base * 3 + i)).collect();
        let mut ts: Vec<u64> = nodes.iter().map(timeout).collect();
        ts.sort();
        if ts[0] < ts[1] {
            break nodes;
        }
        base += 1;
    };
    for n in &nodes {
        assert_eq!(n.current_term, 0);
        assert!(matches!(n.role, Role::Follower { leader: None, .. }));
    }
    let mut candidate = None;
    for _ in 0..100 {
        let mut started = vec![];
        for n in nodes.iter_mut() {
            if n.tick() == TickAction::SolicitVotes {
                started.push(n.me);
            }
        }
        if !started.is_empty() {
            assert_eq!(started.len(), 1);
            candidate = Some(started[0]);
            break;
        }
    }
    let c = candidate.unwrap() as usize;
    assert_eq!(nodes[c].current_term, 1);
    assert_eq!(nodes[c].quorum(), 2);
    let requests = nodes[c].solicit_votes();
    assert_eq!(requests.len(), 2);
    let mut won = false;
    for (peer, args) in requests {
        let reply = nodes[peer as usize].handle_request_vote(args);
        assert!(reply.vote_granted);
        assert_eq!(reply.term, 1);
        assert_eq!(nodes[peer as usize].voted_for, Some(c as u64));
        if !won {
            let tally = nodes[c].handle_vote_reply(peer, reply);
            assert_eq!(tally, VoteTally::Quorum);
            let (txs, _rxs) = channels(3, c as u64);
            nodes[c].become_leader(txs);
            won = true;
        }
    }
    let leaders: Vec<&Raft> = nodes.iter().filter(|n| n.is_leader()).collect();
    assert_eq!(leaders.len(), 1);
    assert_eq!(leaders[0].current_term, 1);
    assert_eq!(leaders[0].me, c as u64);
}

#[test]
fn leader_start_on_empty_log_notifies_every_peer() {
    let mut node = Raft::new(0, 3, 7);
    let mut rxs = make_leader(&mut node);
    assert_eq!(node.current_term, 1);
    assert_eq!(node.start(Some(vec![1, 2, 3])), Ok((1, 1)));
    for id in 1..3 {
        assert_eq!(rxs.get_mut(&id).unwrap().try_recv(), Ok(1));
    }
    assert_eq!(node.log.last_index(), 1);
    assert_eq!(node.log.read(1).unwrap().command, Some(vec![1, 2, 3]));
}

#[test]
fn start_appends_consecutive_indices() {
    let mut node = Raft::new(1, 3, 9);
    let mut rxs = make_leader(&mut node);
    assert_eq!(node.start(None), Ok((1, 1)));
    assert_eq!(node.start(Some(vec![9])), Ok((2, 1)));
    assert_eq!(node.start(Some(vec![8])), Ok((3, 1)));
    let rx = rxs.get_mut(&0).unwrap();
    assert_eq!(rx.try_recv(), Ok(1));
    assert_eq!(rx.try_recv(), Ok(2));
    assert_eq!(rx.try_recv(), Ok(3));
}

#[test]
fn start_on_follower_is_not_leader() {
    let mut node = Raft::new(0, 3, 1);
    assert_eq!(node.start(Some(vec![1])), Err(RaftError::NotLeader));
    assert_eq!(node.log.last_index(), 0);
}

#[test]
fn start_with_closed_driver_still_appends() {
    let mut node = Raft::new(0, 3, 3);
    let rxs = make_leader(&mut node);
    drop(rxs);
    assert_eq!(node.start(None), Ok((1, 1)));
}

#[test]
fn quorum_sizes() {
    for (n, q) in [(1u64, 1u64), (2, 2), (3, 2), (4, 3), (5, 3), (7, 4)] {
        assert_eq!(Raft::new(0, n, 0).quorum(), q);
    }
}

#[test]
fn leader_needs_exactly_a_quorum() {
    let mut node = Raft::new(0, 5, 11);
    elect_timeout(&mut node);
    let t = node.current_term;
    assert!(!node.has_quorum());
    assert_eq!(node.handle_vote_reply(1, RequestVoteReply { term: t, vote_granted: true }), VoteTally::Counted);
    assert!(!node.has_quorum());
    // a duplicate does not count twice
    assert_eq!(node.handle_vote_reply(1, RequestVoteReply { term: t, vote_granted: true }), VoteTally::Ignored);
    assert_eq!(node.handle_vote_reply(2, RequestVoteReply { term: t, vote_granted: false }), VoteTally::Ignored);
    assert_eq!(node.handle_vote_reply(3, RequestVoteReply { term: t, vote_granted: true }), VoteTally::Quorum);
    assert!(node.has_quorum());
    match &node.role {
        Role::Candidate { votes, .. } => assert_eq!(*votes, 3),
        _ => panic!("not a candidate"),
    }
}

#[test]
fn stale_vote_reply_is_ignored_and_higher_term_steps_down() {
    let mut node = Raft::new(0, 3, 5);
    elect_timeout(&mut node);
    elect_timeout(&mut node);
    assert_eq!(node.current_term, 2);
    assert_eq!(node.handle_vote_reply(1, RequestVoteReply { term: 1, vote_granted: true }), VoteTally::Ignored);
    assert_eq!(node.handle_vote_reply(1, RequestVoteReply { term: 5, vote_granted: false }), VoteTally::SteppedDown);
    assert_eq!(node.current_term, 5);
    assert_eq!(node.voted_for, None);
    assert!(matches!(node.role, Role::Follower { .. }));
}

#[test]
fn votes_once_per_term() {
    let mut node = Raft::new(0, 3, 2);
    let a = RequestVoteArgs { term: 1, candidate_id: 1, last_log_index: 0, last_log_term: 0 };
    let b = RequestVoteArgs { term: 1, candidate_id: 2, last_log_index: 0, last_log_term: 0 };
    assert!(node.handle_request_vote(a).vote_granted);
    assert!(!node.handle_request_vote(b).vote_granted);
    // the same candidate asking again is granted again
    assert!(node.handle_request_vote(a).vote_granted);
    assert_eq!(node.voted_for, Some(1));
    // a new term clears the vote
    let c = RequestVoteArgs { term: 2, candidate_id: 2, last_log_index: 0, last_log_term: 0 };
    let r = node.handle_request_vote(c);
    assert!(r.vote_granted);
    assert_eq!(r.term, 2);
    assert_eq!(node.voted_for, Some(2));
}

#[test]
fn vote_refused_for_old_term_or_stale_log() {
    let mut node = Raft::new(0, 3, 2);
    node.become_follower(3, None);
    let old = RequestVoteArgs { term: 2, candidate_id: 1, last_log_index: 5, last_log_term: 2 };
    assert_eq!(node.handle_request_vote(old), RequestVoteReply { term: 3, vote_granted: false });
    // give the node a log ending in term 3
    let args = AppendEntriesArgs {
        term: 3,
        leader_id: 2,
        prev_log_index: 0,
        prev_log_term: 0,
        entries: vec![LogEntry { term: 3, command: None }, LogEntry { term: 3, command: None }],
        leader_commit: 0,
    };
    assert!(node.handle_append_entries(args).success);
    let behind = RequestVoteArgs { term: 4, candidate_id: 1, last_log_index: 9, last_log_term: 2 };
    assert!(!node.handle_request_vote(behind).vote_granted);
    assert_eq!(node.current_term, 4);
    let shorter = RequestVoteArgs { term: 4, candidate_id: 1, last_log_index: 1, last_log_term: 3 };
    assert!(!node.handle_request_vote(shorter).vote_granted);
    let even = RequestVoteArgs { term: 4, candidate_id: 1, last_log_index: 2, last_log_term: 3 };
    assert!(node.handle_request_vote(even).vote_granted);
}

#[test]
fn term_never_decreases_and_vote_cleared_on_advance() {
    let mut node = Raft::new(0, 3, 4);
    elect_timeout(&mut node);
    assert_eq!(node.current_term, 1);
    assert_eq!(node.voted_for, Some(0));
    node.become_follower(1, Some(2));
    assert_eq!(node.current_term, 1);
    assert_eq!(node.voted_for, Some(0));
    assert!(matches!(node.role, Role::Follower { leader: Some(2), leader_seen_ticks: 0, .. }));
    node.become_follower(4, None);
    assert_eq!(node.current_term, 4);
    assert_eq!(node.voted_for, None);
}

#[test]
fn timeouts_stay_in_range() {
    let mut rng = rand::rngs::StdRng::seed_from_u64(42);
    let mut seen = std::collections::HashSet::new();
    for _ in 0..2000 {
        let t = election_timeout(&mut rng);
        assert!(t >= ELECTION_TIMEOUT_MIN && t < ELECTION_TIMEOUT_MAX);
        seen.insert(t);
    }
    assert_eq!(seen.len(), 7);
    for seed in 0..50 {
        let mut node = Raft::new(0, 3, seed);
        let ticks = elect_timeout(&mut node);
        assert!(ticks >= 8 && ticks < 15);
        match node.role {
            Role::Candidate { election_timeout, votes, .. } => {
                assert!((8..15).contains(&election_timeout));
                assert_eq!(votes, 1);
            }
            _ => panic!("not a candidate"),
        }
    }
}

#[test]
fn leader_sends_heartbeat_every_tick() {
    let mut node = Raft::new(2, 3, 8);
    let _rxs = make_leader(&mut node);
    assert_eq!(node.tick(), TickAction::SendHeartbeats);
    assert_eq!(node.tick(), TickAction::SendHeartbeats);
    let beats = node.send_heartbeats();
    assert_eq!(beats.len(), 2);
    assert_eq!(beats[0].0, 0);
    assert_eq!(beats[1].0, 1);
    for (_, a) in beats {
        assert_eq!(a.term, 1);
        assert_eq!(a.leader_id, 2);
        assert!(a.entries.is_empty());
        assert_eq!(a.leader_commit, 0);
    }
}

#[test]
fn solicit_votes_skips_self_and_carries_log_position() {
    let mut node = Raft::new(1, 4, 8);
    elect_timeout(&mut node);
    let reqs = node.solicit_votes();
    let peers: Vec<u64> = reqs.iter().map(|r| r.0).collect();
    assert_eq!(peers, vec![0, 2, 3]);
    assert_eq!(reqs[0].1, RequestVoteArgs { term: 1, candidate_id: 1, last_log_index: 0, last_log_term: 0 });
}

#[test]
fn append_entries_merges_and_commits() {
    let mut node = Raft::new(1, 3, 6);
    let e = |t: u64, c: u8| LogEntry { term: t, command: Some(vec![c]) };
    let r = node.handle_append_entries(AppendEntriesArgs {
        term: 1, leader_id: 0, prev_log_index: 0, prev_log_term: 0,
        entries: vec![e(1, 1), e(1, 2), e(1, 3)], leader_commit: 1,
    });
    assert_eq!(r, AppendEntriesReply { term: 1, success: true });
    assert_eq!(node.log.last_index(), 3);
    assert_eq!(node.commit_index, 1);
    assert!(matches!(node.role, Role::Follower { leader: Some(0), .. }));
    // a mismatching previous entry is refused
    let r = node.handle_append_entries(AppendEntriesArgs {
        term: 2, leader_id: 2, prev_log_index: 3, prev_log_term: 2, entries: vec![], leader_commit: 1,
    });
    assert_eq!(r, AppendEntriesReply { term: 2, success: false });
    // a conflict after the commit index replaces the tail
    let r = node.handle_append_entries(AppendEntriesArgs {
        term: 2, leader_id: 2, prev_log_index: 1, prev_log_term: 1,
        entries: vec![e(2, 7)], leader_commit: 5,
    });
    assert!(r.success);
    assert_eq!(node.log.last_index(), 2);
    assert_eq!(node.log.last_term(), 2);
    assert_eq!(node.commit_index, 2);
    // a stale duplicate keeps the longer log
    let r = node.handle_append_entries(AppendEntriesArgs {
        term: 2, leader_id: 2, prev_log_index: 0, prev_log_term: 0,
        entries: vec![e(1, 1)], leader_commit: 0,
    });
    assert!(r.success);
    assert_eq!(node.log.last_index(), 2);
    assert_eq!(node.commit_index, 2);
    // an older term is refused outright
    let r = node.handle_append_entries(AppendEntriesArgs {
        term: 1, leader_id: 0, prev_log_index: 0, prev_log_term: 0, entries: vec![], leader_commit: 0,
    });
    assert_eq!(r, AppendEntriesReply { term: 2, success: false });
}

#[test]
fn append_entries_never_replaces_committed_entries() {
    let mut node = Raft::new(1, 3, 6);
    let e = |t: u64| LogEntry { term: t, command: None };
    assert!(node.handle_append_entries(AppendEntriesArgs {
        term: 1, leader_id: 0, prev_log_index: 0, prev_log_term: 0,
        entries: vec![e(1), e(1)], leader_commit: 2,
    }).success);
    let r = node.handle_append_entries(AppendEntriesArgs {
        term: 3, leader_id: 2, prev_log_index: 0, prev_log_term: 0,
        entries: vec![e(3)], leader_commit: 2,
    });
    assert!(!r.success);
    assert_eq!(node.log.last_index(), 2);
    assert_eq!(node.log.last_term(), 1);
}

#[test]
fn replication_cursors_follow_replies() {
    let mut node = Raft::new(0, 3, 12);
    let _rxs = make_leader(&mut node);
    node.start(Some(vec![1])).unwrap();
    node.start(Some(vec![2])).unwrap();
    // next index starts past the log of the election: 1
    let a = node.replication_args(1, 2).unwrap();
    assert_eq!(a.prev_log_index, 0);
    assert_eq!(a.entries.len(), 2);
    assert_eq!(a.entries[1].command, Some(vec![2]));
    assert_eq!(node.handle_append_entries_reply(1, 2, AppendEntriesReply { term: 1, success: true }), ReplicationStep::Advanced);
    match &node.role {
        Role::Leader { next_index, match_index, .. } => {
            assert_eq!(match_index[1], 2);
            assert_eq!(next_index[1], 3);
        }
        _ => panic!("not a leader"),
    }
    assert_eq!(node.handle_append_entries_reply(2, 2, AppendEntriesReply { term: 1, success: false }), ReplicationStep::Retry);
    match &node.role {
        Role::Leader { next_index, .. } => assert_eq!(next_index[2], 1),
        _ => panic!("not a leader"),
    }
    let a = node.replication_args(1, 2).unwrap();
    assert_eq!(a.prev_log_index, 2);
    assert_eq!(a.prev_log_term, 1);
    assert!(a.entries.is_empty());
    assert_eq!(node.handle_append_entries_reply(1, 2, AppendEntriesReply { term: 4, success: false }), ReplicationStep::SteppedDown);
    assert_eq!(node.current_term, 4);
    assert!(node.replication_args(1, 2).is_none());
}

#[test]
fn log_read_and_truncate() {
    let mut log = Log::new();
    assert_eq!(log.last_index(), 0);
    assert_eq!(log.last_term(), 0);
    assert_eq!(log.read(1).err(), Some(LogError::NotFound));
    assert_eq!(log.append(1, None), 1);
    assert_eq!(log.append(2, Some(vec![5])), 2);
    assert_eq!(log.last_term(), 2);
    assert_eq!(log.term_of(1), 1);
    assert_eq!(log.read(0).err(), Some(LogError::NotFound));
    assert_eq!(log.read(2).unwrap().command, Some(vec![5]));
    log.truncate(1);
    assert_eq!(log.last_index(), 1);
    assert_eq!(log.read(2).err(), Some(LogError::NotFound));
}
