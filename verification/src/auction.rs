//! Bidding on SLAs: finding a cluster node that can host a function, the
//! limit on how many bids may be placed per second, and the recording of
//! a placed bid.
use vstd::prelude::*;
use crate::concurrent_map::Resources;
use crate::function::Function;
use crate::records::{Proposed, States};
use crate::sla::{BidId, Sla, satisfiability_check, spec_satisfiable};

verus! {

/// Why a limit on in-flight proposals was refused.
#[derive(Clone, Copy, Debug, PartialEq, Eq)]
pub enum MaxInFlightError {
    /// The limit must be at least 1.
    GreaterOrEqualViolated,
}

/// How many bids may be placed within one second (at least 1).
#[derive(Debug, PartialEq, PartialOrd)]
pub struct MaxInFlight(usize);

impl Clone for MaxInFlight {
    fn clone(&self) -> (r: Self)
        ensures
            r.value() == self.value(),
    {
        proof { use_type_invariant(self); }
        MaxInFlight(self.0)
    }
}

impl MaxInFlight {
    pub closed spec fn value(&self) -> usize {
        self.0
    }

    #[verifier::type_invariant]
    spec fn at_least_one(&self) -> bool {
        self.0 >= 1
    }

    /// The limit `value`; refused below 1.
    pub fn try_new(value: usize) -> (r: Result<MaxInFlight, MaxInFlightError>)
        ensures
            value >= 1 ==> (r matches Ok(m) && m.value() == value),
            value < 1 ==> r == Err::<MaxInFlight, MaxInFlightError>(MaxInFlightError::GreaterOrEqualViolated),
    {
        if value >= 1 {
            Ok(MaxInFlight(value))
        } else {
            Err(MaxInFlightError::GreaterOrEqualViolated)
        }
    }

    pub fn into_inner(self) -> (r: usize)
        ensures
            r == self.value(),
            r >= 1,
    {
        proof { use_type_invariant(&self); }
        self.0
    }
}

/// Why a bid was not placed.
#[derive(Clone, Copy, Debug, PartialEq, Eq)]
pub enum AuctionError {
    /// More bids were placed in the current second than the limit allows.
    TooManyInFlight,
}

/// The counters of the two alternating seconds after a bid placed during
/// second `second`: the counter of the current parity goes up by one
/// (wrapping around as 32-bit counters do) and the other one is reset.
pub open spec fn counters_after(c1: u32, c2: u32, second: u32) -> (u32, u32) {
    if second % 2 == 0 {
        ((if c1 == u32::MAX { 0 } else { c1 + 1 }) as u32, 0)
    } else {
        (0, (if c2 == u32::MAX { 0 } else { c2 + 1 }) as u32)
    }
}

/// Whether a bid placed during second `second` is within the limit: the
/// counter of the current parity, before it goes up, is at most `max`.
pub open spec fn admitted(c1: u32, c2: u32, second: u32, max: usize) -> bool {
    if second % 2 == 0 {
        c1 as int <= max as int
    } else {
        c2 as int <= max as int
    }
}

/// A cluster node that can take an SLA, with what it uses and offers.
#[derive(Clone, Debug, PartialEq, Eq)]
pub struct NodeChoice {
    pub name: String,
    pub used: Resources,
    pub available: Resources,
}

/// Whether the SLA fits on cluster node `n`.
pub open spec fn fits_on(used: Map<Seq<char>, Resources>, available: Map<Seq<char>, Resources>, n: Seq<char>, sla: Sla) -> bool {
    spec_satisfiable(used[n].memory, used[n].cpu, available[n].memory, available[n].cpu, sla)
}

/// The bidding service of the node.
pub struct Auction {
    in_flight_functions_per_sec_1: u32,
    in_flight_functions_per_sec_2: u32,
    max_in_flight: MaxInFlight,
}

/// A fresh bid identifier: `Uuid::new_v4`, as its 128-bit value. The value
/// is random; only its version (4) and variant (RFC 4122, bits `10`)
/// fields are fixed, as the source sets them.
#[verifier::external_body]
fn new_bid_id() -> (r: BidId)
    ensures
        (r >> 76u32) & 0xfu128 == 4,
        (r >> 62u32) & 0x3u128 == 2,
{
    uuid::Uuid::new_v4().as_u128()
}

/// The current second of the minute (UTC), from the system clock: between
/// 0 and 59, as the documentation of `Timelike::second` says.
#[verifier::external_body]
fn current_second() -> (r: u32)
    ensures
        r < 60,
{
    chrono::Timelike::second(&chrono::Utc::now())
}

impl Auction {
    pub closed spec fn counters(&self) -> (u32, u32) {
        (self.in_flight_functions_per_sec_1, self.in_flight_functions_per_sec_2)
    }

    pub closed spec fn limit(&self) -> usize {
        self.max_in_flight.value()
    }

    /// A bidding service allowing `max_in_flight` bids per second, with no
    /// bid counted yet.
    pub fn new(max_in_flight: MaxInFlight) -> (r: Auction)
        ensures
            r.counters() == (0u32, 0u32),
            r.limit() == max_in_flight.value(),
    {
        Auction { in_flight_functions_per_sec_1: 0, in_flight_functions_per_sec_2: 0, max_in_flight }
    }

    /// Count a bid placed during second `second` and allow it or refuse it.
    pub fn check_in_flight_at(&mut self, second: u32) -> (r: Result<(), AuctionError>)
        ensures
            final(self).counters() == counters_after(old(self).counters().0, old(self).counters().1, second),
            final(self).limit() == old(self).limit(),
            r is Ok <==> admitted(old(self).counters().0, old(self).counters().1, second, old(self).limit()),
            r matches Err(e) ==> e == AuctionError::TooManyInFlight,
    {
        let inc: u32;
        if second % 2 == 0 {
            inc = self.in_flight_functions_per_sec_1;
            self.in_flight_functions_per_sec_1 = self.in_flight_functions_per_sec_1.wrapping_add(1);
            self.in_flight_functions_per_sec_2 = 0;
        } else {
            inc = self.in_flight_functions_per_sec_2;
            self.in_flight_functions_per_sec_2 = self.in_flight_functions_per_sec_2.wrapping_add(1);
            self.in_flight_functions_per_sec_1 = 0;
        }
        let size = self.max_in_flight.clone().into_inner();
        if (inc as usize) > size {
            return Err(AuctionError::TooManyInFlight);
        }
        Ok(())
    }

    /// Count a bid placed now and allow it or refuse it, by the parity of the
    /// current second.
    pub fn check_in_flight(&mut self) -> (r: Result<(), AuctionError>)
        ensures
            final(self).limit() == old(self).limit(),
            exists|second: u32| #![trigger counters_after(old(self).counters().0, old(self).counters().1, second)] {
                &&& second < 60
                &&& final(self).counters() == counters_after(old(self).counters().0, old(self).counters().1, second)
                &&& (r is Ok <==> admitted(old(self).counters().0, old(self).counters().1, second, old(self).limit()))
            },
    {
        let second = current_second();
        let r = self.check_in_flight_at(second);
        assert(counters_after(old(self).counters().0, old(self).counters().1, second) == self.counters());
        r
    }

    /// Place a bid of `bid_bits` (the bit pattern of the computed `f64`
    /// price, which must be positive) for `sla` on cluster node `node`.
    /// Nothing is placed, and no bid is counted, when the node is unknown or
    /// the SLA does not fit on it. Otherwise the bid is counted against the
    /// limit of bids per second; when the limit allows it, the proposal is
    /// recorded and returned with a fresh bid id; otherwise nothing is
    /// recorded.
    pub fn bid_on(&mut self, function: &mut Function, sla: Sla, node: String, bid_bits: u64) -> (r: Option<(BidId, Proposed)>)
        requires
            old(function).wf(),
            positive_bid(bid_bits),
        ensures
            final(function).wf(),
            final(self).limit() == old(self).limit(),
            r matches Some((id, record)) ==> {
                &&& (id >> 76u32) & 0xfu128 == 4
                &&& (id >> 62u32) & 0x3u128 == 2
                &&& record == (Proposed { bid_bits, sla, node })
                &&& old(function).used().dom().contains(node@)
                &&& fits_on(old(function).used(), old(function).available(), node@, sla)
                &&& final(function).records() == old(function).records().insert(sla.id, States::Proposed(record))
            },
            r is None ==> final(function).records() == old(function).records(),
            final(function).used() == old(function).used(),
            final(function).available() == old(function).available(),
            final(function).nodes() == old(function).nodes(),
            !(old(function).used().dom().contains(node@) && fits_on(old(function).used(), old(function).available(), node@, sla)) ==> {
                &&& r is None
                &&& final(self).counters() == old(self).counters()
            },
            old(function).used().dom().contains(node@) && fits_on(old(function).used(), old(function).available(), node@, sla) ==>
                exists|second: u32| #![trigger counters_after(old(self).counters().0, old(self).counters().1, second)] {
                    &&& second < 60
                    &&& final(self).counters() == counters_after(old(self).counters().0, old(self).counters().1, second)
                    &&& (r is Some <==> admitted(old(self).counters().0, old(self).counters().1, second, old(self).limit()))
                },
    {
        let tracking = function.resource_tracking();
        proof { tracking.lemma_nodes(); }
        let used = match tracking.get_used(node.as_str()) {
            Ok(u) => u,
            Err(_) => return None,
        };
        let available = match tracking.get_available(node.as_str()) {
            Ok(a) => a,
            Err(_) => return None,
        };
        if !satisfiability_check(used.memory, used.cpu, available.memory, available.cpu, &sla) {
            return None;
        }
        if self.check_in_flight().is_err() {
            return None;
        }
        let id = sla.id;
        let record = Proposed::new(bid_bits, sla, node);
        function.insert_proposal(record);
        let record = match function.function_tracking().get_proposed(&id) {
            Some(x) => x,
            None => {
                assert(false);
                return None;
            },
        };
        let bid_id = new_bid_id();
        Some((bid_id, record))
    }
}

/// Whether `bits` is the bit pattern of a positive `f64` (not a NaN;
/// positive infinity included).
pub open spec fn positive_bid(bits: u64) -> bool {
    0 < bits <= 0x7ff0_0000_0000_0000
}

/// The counters after `k` bids placed during seconds of the same parity as
/// `second`.
pub open spec fn counters_after_bids(c1: u32, c2: u32, second: u32, k: nat) -> (u32, u32)
    decreases k,
{
    if k == 0 {
        (c1, c2)
    } else {
        let prev = counters_after_bids(c1, c2, second, (k - 1) as nat);
        counters_after(prev.0, prev.1, second)
    }
}

/// Within a stretch of even seconds that starts with its counter at zero,
/// the bids are counted one by one and the other counter is reset; the bid
/// that comes after `k` others is allowed exactly when `k` is at most the
/// limit, so at most `limit + 1` bids go through before the parity changes.
pub proof fn law_in_flight_limit(c2: u32, second: u32, limit: usize, k: nat)
    requires
        second % 2 == 0,
        k < u32::MAX,
    ensures
        k > 0 ==> counters_after_bids(0, c2, second, k) == (k as u32, 0u32),
        admitted(counters_after_bids(0, c2, second, k).0, counters_after_bids(0, c2, second, k).1, second, limit) <==> k <= limit,
    decreases k,
{
    if k > 0 {
        law_in_flight_limit(c2, second, limit, (k - 1) as nat);
    }
}

/// Find a cluster node that can take the SLA: the first of the nodes, in
/// the order in which they are tried, on which it is satisfiable.
pub fn get_a_node(function: &Function, sla: &Sla) -> (r: Option<NodeChoice>)
    requires
        function.wf(),
    ensures
        r is None <==> forall|i: int| 0 <= i < function.nodes().len() ==> !fits_on(function.used(), function.available(), #[trigger] function.nodes()[i], *sla),
        r matches Some(c) ==> exists|i: int| {
            &&& 0 <= i < function.nodes().len()
            &&& #[trigger] function.nodes()[i] == c.name@
            &&& fits_on(function.used(), function.available(), c.name@, *sla)
            &&& forall|j: int| 0 <= j < i ==> !fits_on(function.used(), function.available(), #[trigger] function.nodes()[j], *sla)
        },
        r matches Some(c) ==> c.used == function.used()[c.name@] && c.available == function.available()[c.name@],
{
    let tracking = function.resource_tracking();
    proof { tracking.lemma_nodes(); }
    let nodes = tracking.get_nodes();
    let n = nodes.len();
    for i in 0..n
        invariant
            n == nodes@.len(),
            nodes@.map_values(|s: String| s@) == function.nodes(),
            tracking.wf(),
            tracking.used() == function.used(),
            tracking.available() == function.available(),
            tracking.nodes() == function.nodes(),
            tracking.available().dom() == tracking.used().dom(),
            forall|k: int| 0 <= k < function.nodes().len() ==> tracking.used().dom().contains(#[trigger] function.nodes()[k]),
            forall|j: int| 0 <= j < i ==> !fits_on(function.used(), function.available(), #[trigger] function.nodes()[j], *sla),
    {
        let node = &nodes[i];
        assert(function.nodes()[i as int] == node@);
        let used = match tracking.get_used(node.as_str()) {
            Ok(v) => v,
            Err(_) => {
                assert(false);
                return None;
            },
        };
        let available = match tracking.get_available(node.as_str()) {
            Ok(v) => v,
            Err(_) => {
                assert(false);
                return None;
            },
        };
        if satisfiability_check(used.memory, used.cpu, available.memory, available.cpu, sla) {
            return Some(NodeChoice { name: node.clone(), used, available });
        }
    }
    None
}

} // verus!
