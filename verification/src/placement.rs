//! The decisions of function placement: which neighbors an SLA is passed
//! on to, how the bids that come back are gathered, and how this node's
//! own bid joins them.
use vstd::prelude::*;
use crate::sla::{BidId, NodeId};

verus! {

/// A bid offered for an SLA by some fog node.
///
/// `bid_bits` is the bit pattern of the `f64` bid.
#[derive(Clone, Copy, Debug, PartialEq, Eq)]
pub struct BidProposal {
    pub node_id: NodeId,
    pub id: BidId,
    pub bid_bits: u64,
}

/// The bids gathered for an SLA.
#[derive(Clone, Debug, PartialEq, Eq)]
pub struct BidProposals {
    pub bids: Vec<BidProposal>,
}

/// Why a placement produced no bid.
#[derive(Clone, Copy, Debug, PartialEq, Eq)]
pub enum PlacementError {
    /// No candidate was returned after asking the other nodes.
    NoCandidatesRetained,
}

/// `s` without the occurrences of `x`, in order.
pub open spec fn without(s: Seq<NodeId>, x: NodeId) -> Seq<NodeId>
    decreases s.len(),
{
    if s.len() == 0 {
        Seq::empty()
    } else if s.last() == x {
        without(s.drop_last(), x)
    } else {
        without(s.drop_last(), x).push(s.last())
    }
}

/// The bids of the answers that came back, in the order of the answers.
pub open spec fn flatten(answers: Seq<Option<BidProposals>>) -> Seq<BidProposal>
    decreases answers.len(),
{
    if answers.len() == 0 {
        Seq::empty()
    } else {
        flatten(answers.drop_last()) + match answers.last() {
            Some(p) => p.bids@,
            None => Seq::empty(),
        }
    }
}

/// The neighbors an SLA is passed on to: all but the node it came from, in
/// order.
pub fn follow_up_candidates(neighbors: &Vec<NodeId>, from: NodeId) -> (r: Vec<NodeId>)
    ensures
        r@ == without(neighbors@, from),
{
    let mut r: Vec<NodeId> = Vec::new();
    let n = neighbors.len();
    for i in 0..n
        invariant
            n == neighbors@.len(),
            r@ == without(neighbors@.take(i as int), from),
    {
        assert(neighbors@.take(i + 1).drop_last() =~= neighbors@.take(i as int));
        if neighbors[i] != from {
            r.push(neighbors[i]);
        }
    }
    assert(neighbors@.take(n as int) =~= neighbors@);
    r
}

/// Gather the bids of the neighbors that answered (a neighbor that was
/// skipped or failed gives `None`), in the order of the answers.
pub fn gather_proposals(answers: &Vec<Option<BidProposals>>) -> (r: BidProposals)
    ensures
        r.bids@ == flatten(answers@),
{
    let mut bids: Vec<BidProposal> = Vec::new();
    let n = answers.len();
    for i in 0..n
        invariant
            n == answers@.len(),
            bids@ == flatten(answers@.take(i as int)),
    {
        assert(answers@.take(i + 1).drop_last() =~= answers@.take(i as int));
        match &answers[i] {
            Some(p) => {
                let m = p.bids.len();
                let ghost start = bids@;
                for j in 0..m
                    invariant
                        m == p.bids@.len(),
                        bids@ == start + p.bids@.take(j as int),
                {
                    bids.push(p.bids[j]);
                    assert(p.bids@.take(j + 1) =~= p.bids@.take(j as int).push(p.bids@[j as int]));
                    assert(bids@ =~= start + p.bids@.take(j + 1));
                }
                assert(p.bids@.take(m as int) =~= p.bids@);
            },
            None => {
                assert(bids@ =~= flatten(answers@.take(i as int)) + Seq::<BidProposal>::empty());
            },
        }
    }
    assert(answers@.take(n as int) =~= answers@);
    BidProposals { bids }
}

/// Add this node's own bid, if it could bid, after the bids of the
/// neighbors.
pub fn add_own_proposal(proposals: BidProposals, own: Option<BidProposal>) -> (r: BidProposals)
    ensures
        r.bids@ == (match own {
            Some(b) => proposals.bids@.push(b),
            None => proposals.bids@,
        }),
{
    let mut proposals = proposals;
    match own {
        Some(b) => proposals.bids.push(b),
        None => {},
    }
    proposals
}

/// Keep a single bid: the last one gathered. Refused when there is none.
pub fn keep_last_proposal(proposals: BidProposals) -> (r: Result<BidProposals, PlacementError>)
    ensures
        proposals.bids@.len() == 0 ==> r == Err::<BidProposals, PlacementError>(PlacementError::NoCandidatesRetained),
        proposals.bids@.len() > 0 ==> (r matches Ok(p) && p.bids@ == seq![proposals.bids@.last()]),
{
    let mut proposals = proposals;
    match proposals.bids.pop() {
        Some(b) => {
            let mut bids: Vec<BidProposal> = Vec::new();
            bids.push(b);
            Ok(BidProposals { bids })
        },
        None => Err(PlacementError::NoCandidatesRetained),
    }
}

/// Placement towards the edge first: this node's own bid when it could
/// bid; otherwise the last bid gathered from the others.
pub fn own_bid_or_last(own: Option<BidProposal>, from_others: BidProposals) -> (r: Result<BidProposals, PlacementError>)
    ensures
        own matches Some(b) ==> (r matches Ok(p) && p.bids@ == seq![b]),
        own is None && from_others.bids@.len() == 0 ==> r == Err::<BidProposals, PlacementError>(PlacementError::NoCandidatesRetained),
        own is None && from_others.bids@.len() > 0 ==> (r matches Ok(p) && p.bids@ == seq![from_others.bids@.last()]),
{
    match own {
        Some(b) => {
            let mut bids: Vec<BidProposal> = Vec::new();
            bids.push(b);
            Ok(BidProposals { bids })
        },
        None => keep_last_proposal(from_others),
    }
}

/// The neighbors an SLA is passed on to never include the node it came
/// from, and include every other neighbor, in order.
pub proof fn law_candidates_skip_the_origin(neighbors: Seq<NodeId>, from: NodeId)
    ensures
        !without(neighbors, from).contains(from),
        forall|n: NodeId| n != from && #[trigger] neighbors.contains(n) ==> without(neighbors, from).contains(n),
        forall|n: NodeId| #[trigger] without(neighbors, from).contains(n) ==> neighbors.contains(n),
    decreases neighbors.len(),
{
    if neighbors.len() > 0 {
        let rest = neighbors.drop_last();
        law_candidates_skip_the_origin(rest, from);
        assert forall|n: NodeId| n != from && neighbors.contains(n) implies without(neighbors, from).contains(n) by {
            let i = choose|i: int| 0 <= i < neighbors.len() && neighbors[i] == n;
            if i < neighbors.len() - 1 {
                assert(rest[i] == n);
                assert(rest.contains(n));
                let w = without(rest, from);
                let j = choose|j: int| 0 <= j < w.len() && w[j] == n;
                if neighbors.last() != from {
                    assert(without(neighbors, from)[j] == n);
                }
            } else {
                assert(without(neighbors, from).last() == n);
            }
        }
        assert forall|n: NodeId| without(neighbors, from).contains(n) implies neighbors.contains(n) by {
            let w = without(neighbors, from);
            let j = choose|j: int| 0 <= j < w.len() && w[j] == n;
            if neighbors.last() != from && j == w.len() - 1 {
                assert(neighbors[neighbors.len() - 1] == n);
            } else {
                assert(without(rest, from)[j] == n);
                assert(without(rest, from).contains(n));
                let i = choose|i: int| 0 <= i < rest.len() && rest[i] == n;
                assert(neighbors[i] == n);
            }
        }
        if without(neighbors, from).contains(from) {
            let w = without(neighbors, from);
            let j = choose|j: int| 0 <= j < w.len() && w[j] == from;
            if neighbors.last() != from && j == w.len() - 1 {
            } else {
                assert(without(rest, from)[j] == from);
            }
        }
    }
}

/// Placement towards the edge, asking the nearest neighbors last: the bids
/// of the first neighbor, in the order asked, that answered with at least
/// one bid; no bid when none did.
pub open spec fn first_with_bids_spec(answers: Seq<Option<BidProposals>>) -> Seq<BidProposal>
    decreases answers.len(),
{
    if answers.len() == 0 {
        Seq::empty()
    } else {
        match answers[0] {
            Some(p) => if p.bids@.len() > 0 { p.bids@ } else { first_with_bids_spec(answers.drop_first()) },
            None => first_with_bids_spec(answers.drop_first()),
        }
    }
}

/// The bids of the first neighbor that answered with at least one bid (a
/// neighbor whose request failed gives `None`); no bid when none did.
pub fn first_with_bids(answers: &Vec<Option<BidProposals>>) -> (r: BidProposals)
    ensures
        r.bids@ == first_with_bids_spec(answers@),
{
    let n = answers.len();
    assert(answers@.skip(0) =~= answers@);
    for i in 0..n
        invariant
            n == answers@.len(),
            first_with_bids_spec(answers@) == first_with_bids_spec(answers@.skip(i as int)),
    {
        assert(answers@.skip(i as int)[0] == answers@[i as int]);
        assert(answers@.skip(i as int).drop_first() =~= answers@.skip(i + 1));
        match &answers[i] {
            Some(p) => {
                if p.bids.len() > 0 {
                    return copy_bids(p);
                }
            },
            None => {},
        }
    }
    assert(answers@.skip(n as int) =~= Seq::<Option<BidProposals>>::empty());
    BidProposals { bids: Vec::new() }
}

fn copy_bids(p: &BidProposals) -> (r: BidProposals)
    ensures
        r.bids@ == p.bids@,
{
    let mut bids: Vec<BidProposal> = Vec::new();
    let m = p.bids.len();
    for j in 0..m
        invariant
            m == p.bids@.len(),
            bids@ == p.bids@.take(j as int),
    {
        bids.push(p.bids[j]);
        assert(p.bids@.take(j + 1) =~= p.bids@.take(j as int).push(p.bids@[j as int]));
    }
    assert(p.bids@.take(m as int) =~= p.bids@);
    BidProposals { bids }
}

/// Placement towards the edge, neighbors first: the last bid gathered from
/// the neighbors when there is one; otherwise this node's own bid, if it
/// could bid; otherwise no bid.
pub fn last_or_own(from_others: BidProposals, own: Option<BidProposal>) -> (r: BidProposals)
    ensures
        from_others.bids@.len() > 0 ==> r.bids@ == seq![from_others.bids@.last()],
        from_others.bids@.len() == 0 ==> r.bids@ == (match own {
            Some(b) => seq![b],
            None => Seq::<BidProposal>::empty(),
        }),
{
    let mut from_others = from_others;
    let mut bids: Vec<BidProposal> = Vec::new();
    match from_others.bids.pop() {
        Some(b) => bids.push(b),
        None => match own {
            Some(b) => bids.push(b),
            None => {},
        },
    }
    BidProposals { bids }
}

/// How many proposals each neighbor is asked for when `required` are
/// wanted from `neighbors` neighbors: one when there are enough neighbors,
/// otherwise `required / neighbors` rounded up; with no neighbor at all,
/// as many as a count can say. (The count is below 2^53, where the
/// division of the two counts as `f64` values is exact enough to round up
/// to this.)
pub fn propositions_per_neighbor(required: usize, neighbors: usize) -> (r: usize)
    requires
        required < 0x20_0000_0000_0000,
    ensures
        r == (if required <= neighbors {
            1
        } else if neighbors == 0 {
            usize::MAX as int
        } else {
            (required + neighbors - 1) / (neighbors as int)
        }),
{
    if required <= neighbors {
        1
    } else if neighbors == 0 {
        usize::MAX
    } else {
        assert((required - 1) / (neighbors as int) + 1 == (required + neighbors - 1) / (neighbors as int)) by (nonlinear_arith)
            requires
                neighbors > 0,
                required > neighbors,
        {
            assert(required + neighbors - 1 == (required - 1) + neighbors * 1);
        }
        (required - 1) / neighbors + 1
    }
}

/// Whether an answer holds at least one bid.
pub open spec fn has_bids(a: Option<BidProposals>) -> bool {
    a is Some && a->0.bids@.len() > 0
}

/// Edge-first placement keeps the bids of the first neighbor, in the order
/// asked, that answered with at least one bid: when answer `i` holds bids
/// and no earlier answer does, the result is exactly answer `i`'s bids; when
/// no answer holds a bid, there is no bid.
pub proof fn law_first_answer_with_bids_wins(answers: Seq<Option<BidProposals>>)
    ensures
        forall|i: int| 0 <= i < answers.len() && #[trigger] has_bids(answers[i]) && (forall|j: int| 0 <= j < i ==> !has_bids(answers[j]))
            ==> first_with_bids_spec(answers) == answers[i]->0.bids@,
        (forall|j: int| 0 <= j < answers.len() ==> !has_bids(answers[j])) ==> first_with_bids_spec(answers) == Seq::<BidProposal>::empty(),
    decreases answers.len(),
{
    if answers.len() > 0 {
        let rest = answers.drop_first();
        law_first_answer_with_bids_wins(rest);
        assert forall|i: int| 0 <= i < answers.len() && #[trigger] has_bids(answers[i]) && (forall|j: int| 0 <= j < i ==> !has_bids(answers[j]))
            implies first_with_bids_spec(answers) == answers[i]->0.bids@ by {
            if i > 0 {
                assert(!has_bids(answers[0]));
                assert(rest[i - 1] == answers[i]);
                assert(has_bids(rest[i - 1]));
                assert forall|j: int| 0 <= j < i - 1 implies !has_bids(rest[j]) by {
                    assert(rest[j] == answers[j + 1]);
                }
            }
        }
        if forall|j: int| 0 <= j < answers.len() ==> !has_bids(answers[j]) {
            assert(!has_bids(answers[0]));
            assert forall|j: int| 0 <= j < rest.len() implies !has_bids(rest[j]) by {
                assert(rest[j] == answers[j + 1]);
            }
        }
    }
}

/// The number of bids the answers hold together.
pub open spec fn bid_count(answers: Seq<Option<BidProposals>>) -> nat
    decreases answers.len(),
{
    if answers.len() == 0 {
        0
    } else {
        bid_count(answers.drop_last()) + match answers.last() {
            Some(p) => p.bids@.len(),
            None => 0nat,
        }
    }
}

/// Gathering keeps every bid of every answer: as many bids as the answers
/// hold together, each bid of each answer present, and the bids of answer
/// `k` in their order right after the bids of the answers before it.
pub proof fn law_gathering_keeps_every_bid(answers: Seq<Option<BidProposals>>)
    ensures
        flatten(answers).len() == bid_count(answers),
        forall|k: int, j: int| 0 <= k < answers.len() && answers[k] is Some && 0 <= j < answers[k]->0.bids@.len()
            ==> #[trigger] flatten(answers).contains(#[trigger] answers[k]->0.bids@[j]),
        forall|k: int, j: int| 0 <= k < answers.len() && answers[k] is Some && 0 <= j < answers[k]->0.bids@.len()
            ==> flatten(answers)[bid_count(answers.take(k)) + j] == #[trigger] answers[k]->0.bids@[j],
    decreases answers.len(),
{
    if answers.len() > 0 {
        let prev = answers.drop_last();
        law_gathering_keeps_every_bid(prev);
        let last_bids = match answers.last() {
            Some(p) => p.bids@,
            None => Seq::<BidProposal>::empty(),
        };
        assert(flatten(answers) == flatten(prev) + last_bids);
        assert forall|k: int, j: int| 0 <= k < answers.len() && answers[k] is Some && 0 <= j < answers[k]->0.bids@.len()
            implies #[trigger] flatten(answers).contains(#[trigger] answers[k]->0.bids@[j]) by {
            if k == answers.len() - 1 {
                assert(flatten(answers)[flatten(prev).len() + j] == answers[k]->0.bids@[j]);
            } else {
                assert(prev[k] == answers[k]);
                assert(flatten(prev).contains(prev[k]->0.bids@[j]));
                let m = choose|m: int| 0 <= m < flatten(prev).len() && flatten(prev)[m] == prev[k]->0.bids@[j];
                assert(flatten(answers)[m] == flatten(prev)[m]);
            }
        }
        assert forall|k: int, j: int| 0 <= k < answers.len() && answers[k] is Some && 0 <= j < answers[k]->0.bids@.len()
            implies flatten(answers)[bid_count(answers.take(k)) + j] == #[trigger] answers[k]->0.bids@[j] by {
            if k == answers.len() - 1 {
                assert(answers.take(k) =~= prev);
            } else {
                assert(prev[k] == answers[k]);
                assert(prev.take(k) =~= answers.take(k));
                lemma_bid_count_prefix(prev, k);
                assert(flatten(prev)[bid_count(prev.take(k)) + j] == prev[k]->0.bids@[j]);
            }
        }
    }
}

/// The bids of the first `k` answers are no more than all of them.
proof fn lemma_bid_count_prefix(answers: Seq<Option<BidProposals>>, k: int)
    requires
        0 <= k < answers.len(),
        answers[k] is Some,
    ensures
        bid_count(answers.take(k)) + answers[k]->0.bids@.len() <= bid_count(answers),
    decreases answers.len(),
{
    if k < answers.len() - 1 {
        assert(answers.drop_last().take(k) =~= answers.take(k));
        lemma_bid_count_prefix(answers.drop_last(), k);
    } else {
        assert(answers.take(k) =~= answers.drop_last());
    }
}

} // verus!
