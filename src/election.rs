//! Majorities: the size of a quorum, and why two quorums of one cluster
//! cannot elect two different leaders in one term.

use vstd::prelude::*;
use vstd::set_lib::lemma_set_disjoint_lens;

verus! {

/// The number of votes that make a majority of `n` nodes.
pub open spec fn quorum_of(n: nat) -> nat {
    n / 2 + 1
}

/// A set of node ids below `n` has at most `n` members.
pub proof fn lemma_ids_below_bound(s: Set<u64>, n: nat)
    requires
        n <= u64::MAX,
        forall|x: u64| s.contains(x) ==> x < n,
    ensures
        s.finite(),
        s.len() <= n,
    decreases n,
{
    if n == 0 {
        assert(s =~= Set::<u64>::empty());
    } else {
        let top = (n - 1) as u64;
        let rest = s.remove(top);
        lemma_ids_below_bound(rest, (n - 1) as nat);
        if s.contains(top) {
            assert(s =~= rest.insert(top));
        } else {
            assert(s =~= rest);
        }
    }
}

/// A sequence of distinct node ids below `n` has at most `n` elements.
pub proof fn lemma_distinct_ids_bound(ids: Seq<u64>, n: nat)
    requires
        n <= u64::MAX,
        ids.no_duplicates(),
        forall|i: int| 0 <= i < ids.len() ==> ids[i] < n,
    ensures
        ids.len() <= n,
{
    ids.unique_seq_to_set();
    assert forall|x: u64| ids.to_set().contains(x) implies x < n by {
        let i = choose|i: int| 0 <= i < ids.len() && ids[i] == x;
    }
    lemma_ids_below_bound(ids.to_set(), n);
}

/// Election safety. In a cluster of `n` nodes, let `vote_of` give, for each
/// node that voted in some term, the one candidate it voted for. If every
/// node of `voters_a` voted for `a`, every node of `voters_b` voted for `b`,
/// and both sets are quorums, then `a` and `b` are the same node: at most one
/// leader is elected per term.
pub proof fn lemma_election_safety(
    n: u64,
    vote_of: Map<u64, u64>,
    voters_a: Set<u64>,
    a: u64,
    voters_b: Set<u64>,
    b: u64,
)
    requires
        forall|x: u64| voters_a.contains(x) ==> x < n && vote_of.contains_key(x) && vote_of[x] == a,
        forall|x: u64| voters_b.contains(x) ==> x < n && vote_of.contains_key(x) && vote_of[x] == b,
        voters_a.len() >= quorum_of(n as nat),
        voters_b.len() >= quorum_of(n as nat),
    ensures
        a == b,
{
    lemma_ids_below_bound(voters_a, n as nat);
    lemma_ids_below_bound(voters_b, n as nat);
    lemma_ids_below_bound(voters_a + voters_b, n as nat);
    if a != b {
        assert(voters_a.disjoint(voters_b));
        lemma_set_disjoint_lens(voters_a, voters_b);
        assert(false);
    }
}

} // verus!
