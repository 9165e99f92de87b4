//! The records that follow a function through its life on a node:
//! proposed (a bid was placed), paid, provisioned on the FaaS platform,
//! live, and finished.
use vstd::prelude::*;
use crate::sla::Sla;

verus! {

/// A bid this node placed on an SLA, on one of its cluster nodes.
///
/// `bid_bits` is the bit pattern of the `f64` bid: the library carries it
/// and never computes with it.
#[derive(Clone, Debug, PartialEq, Eq)]
pub struct Proposed {
    pub bid_bits: u64,
    pub sla: Sla,
    pub node: String,
}

/// A proposal that the client accepted and paid for.
#[derive(Clone, Debug, PartialEq, Eq)]
pub struct Paid {
    pub bid_bits: u64,
    pub sla: Sla,
    pub node: String,
}

/// A paid function that the FaaS platform was asked to deploy.
#[derive(Clone, Debug, PartialEq, Eq)]
pub struct Provisioned {
    pub bid_bits: u64,
    pub sla: Sla,
    pub node: String,
    pub function_name: String,
}

/// A provisioned function that answered its liveness check.
#[derive(Clone, Debug, PartialEq, Eq)]
pub struct Live {
    pub bid_bits: u64,
    pub sla: Sla,
    pub node: String,
    pub function_name: String,
}

/// A function whose SLA came to its end.
#[derive(Clone, Debug, PartialEq, Eq)]
pub struct Finished {
    pub bid_bits: u64,
    pub sla: Sla,
    pub node: String,
}

/// The state of an SLA in the node's tracking database.
#[derive(Clone, Debug, PartialEq, Eq)]
pub enum States {
    Proposed(Proposed),
    Paid(Paid),
    Provisioned(Provisioned),
    Live(Live),
    Finished(Finished),
}

/// A record that can be finished: paid, provisioned or live.
#[derive(Clone, Debug, PartialEq, Eq)]
pub enum Finishable {
    Paid(Paid),
    Provisioned(Provisioned),
    Live(Live),
}

/// What is needed to remove a deployed function from the FaaS platform.
#[derive(Clone, Debug, PartialEq, Eq)]
pub struct RemovableFunctionRecord {
    pub function_name: String,
}

impl Proposed {
    /// A new proposal for `sla` on cluster node `node`.
    pub fn new(bid_bits: u64, sla: Sla, node: String) -> (r: Proposed)
        ensures
            r == (Proposed { bid_bits, sla, node }),
    {
        Proposed { bid_bits, sla, node }
    }

    pub open spec fn spec_to_paid(self) -> Paid {
        Paid { bid_bits: self.bid_bits, sla: self.sla, node: self.node }
    }

    /// The proposal, paid.
    pub fn to_paid(self) -> (r: Paid)
        ensures
            r == self.spec_to_paid(),
    {
        Paid { bid_bits: self.bid_bits, sla: self.sla, node: self.node }
    }
}

impl Paid {
    pub open spec fn spec_to_provisioned(self, function_name: String) -> Provisioned {
        Provisioned { bid_bits: self.bid_bits, sla: self.sla, node: self.node, function_name }
    }

    /// The paid function, deployed under `function_name`.
    pub fn to_provisioned(self, function_name: String) -> (r: Provisioned)
        ensures
            r == self.spec_to_provisioned(function_name),
    {
        Provisioned { bid_bits: self.bid_bits, sla: self.sla, node: self.node, function_name }
    }
}

impl Provisioned {
    pub open spec fn spec_to_live(self) -> Live {
        Live {
            bid_bits: self.bid_bits,
            sla: self.sla,
            node: self.node,
            function_name: self.function_name,
        }
    }

    /// The provisioned function, now answering.
    pub fn to_live(self) -> (r: Live)
        ensures
            r == self.spec_to_live(),
    {
        Live {
            bid_bits: self.bid_bits,
            sla: self.sla,
            node: self.node,
            function_name: self.function_name,
        }
    }
}

impl Finishable {
    pub open spec fn spec_sla(self) -> Sla {
        match self {
            Finishable::Paid(r) => r.sla,
            Finishable::Provisioned(r) => r.sla,
            Finishable::Live(r) => r.sla,
        }
    }

    pub open spec fn spec_node(self) -> String {
        match self {
            Finishable::Paid(r) => r.node,
            Finishable::Provisioned(r) => r.node,
            Finishable::Live(r) => r.node,
        }
    }

    pub open spec fn spec_bid_bits(self) -> u64 {
        match self {
            Finishable::Paid(r) => r.bid_bits,
            Finishable::Provisioned(r) => r.bid_bits,
            Finishable::Live(r) => r.bid_bits,
        }
    }

    pub open spec fn spec_to_finished(self) -> Finished {
        Finished { bid_bits: self.spec_bid_bits(), sla: self.spec_sla(), node: self.spec_node() }
    }

    /// The record, finished: its bid, SLA and node are kept.
    pub fn to_finished(self) -> (r: Finished)
        ensures
            r == self.spec_to_finished(),
    {
        match self {
            Finishable::Paid(r) => Finished { bid_bits: r.bid_bits, sla: r.sla, node: r.node },
            Finishable::Provisioned(r) => Finished {
                bid_bits: r.bid_bits,
                sla: r.sla,
                node: r.node,
            },
            Finishable::Live(r) => Finished { bid_bits: r.bid_bits, sla: r.sla, node: r.node },
        }
    }
}

impl RemovableFunctionRecord {
    /// The removal record of a provisioned function.
    pub fn from_provisioned(value: Provisioned) -> (r: RemovableFunctionRecord)
        ensures
            r.function_name == value.function_name,
    {
        RemovableFunctionRecord { function_name: value.function_name }
    }

    /// The removal record of a live function.
    pub fn from_live(value: Live) -> (r: RemovableFunctionRecord)
        ensures
            r.function_name == value.function_name,
    {
        RemovableFunctionRecord { function_name: value.function_name }
    }
}

} // verus!
