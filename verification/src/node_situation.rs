//! Where this fog node stands in the fog: its own identity and addresses,
//! its parent (or the market it is attached to) and its children.
use vstd::prelude::*;
use crate::concurrent_map::{
    NeighborMap, neighbor_entries, neighbor_map_get, neighbor_map_insert, neighbor_map_keys,
};
use crate::sla::NodeId;

verus! {

/// An IP address.
#[derive(Clone, Copy, Debug, PartialEq, Eq)]
pub enum IpAddress {
    V4([u8; 4]),
    V6([u16; 8]),
}

/// How to reach a neighboring fog node, and the bandwidth (bytes per
/// second) it advertised when it registered; the parent, which never
/// registers to this node, advertises none.
#[derive(Clone, Copy, Debug, PartialEq, Eq)]
pub struct NodeDescription {
    pub ip: IpAddress,
    pub port_http: u16,
    pub advertised_bandwidth: Option<u64>,
}

/// What this fog node is attached to: a parent fog node, or the market.
///
/// `parent_latency_bits` is the bit pattern of the `f64` latency to the
/// parent, in seconds, carried and never computed with.
#[derive(Clone, Copy, Debug, PartialEq, Eq)]
pub enum NodeCategory {
    NodeConnected {
        parent_id: NodeId,
        parent_node_ip: IpAddress,
        parent_node_port_http: u16,
        parent_latency_bits: u64,
    },
    MarketConnected {
        market_ip: IpAddress,
        market_port: u16,
    },
}

/// Everything the node knows of its situation.
///
/// Memory is counted in bytes and CPU in nanocpu.
pub struct NodeSituationData {
    pub situation: NodeCategory,
    pub my_id: NodeId,
    pub my_public_ip: IpAddress,
    pub my_public_port_http: u16,
    pub my_public_port_faas: u16,
    pub tags: Vec<String>,
    pub reserved_memory: u64,
    pub reserved_cpu: u64,
    pub children: NeighborMap,
}

/// The situation of the node.
pub struct NodeSituation {
    database: NodeSituationData,
}

/// The description of neighbor `id`: a registered child, or else the
/// parent when `id` is the parent's id.
pub open spec fn neighbor_of(children: Map<NodeId, NodeDescription>, situation: NodeCategory, id: NodeId) -> Option<NodeDescription> {
    if children.dom().contains(id) {
        Some(children[id])
    } else {
        match situation {
            NodeCategory::NodeConnected { parent_id, parent_node_ip, parent_node_port_http, .. } =>
                if parent_id == id {
                    Some(NodeDescription { ip: parent_node_ip, port_http: parent_node_port_http, advertised_bandwidth: None })
                } else {
                    None
                },
            NodeCategory::MarketConnected { .. } => None,
        }
    }
}

impl NodeSituation {
    /// The registered children, by id.
    pub closed spec fn children(&self) -> Map<NodeId, NodeDescription> {
        neighbor_entries(self.database.children)
    }

    pub closed spec fn situation(&self) -> NodeCategory {
        self.database.situation
    }

    pub closed spec fn my_id(&self) -> NodeId {
        self.database.my_id
    }

    pub closed spec fn my_public_ip(&self) -> IpAddress {
        self.database.my_public_ip
    }

    pub closed spec fn my_public_port_http(&self) -> u16 {
        self.database.my_public_port_http
    }

    pub closed spec fn my_public_port_faas(&self) -> u16 {
        self.database.my_public_port_faas
    }

    pub closed spec fn tags(&self) -> Seq<String> {
        self.database.tags@
    }

    pub closed spec fn reserved_memory(&self) -> u64 {
        self.database.reserved_memory
    }

    pub closed spec fn reserved_cpu(&self) -> u64 {
        self.database.reserved_cpu
    }

    pub fn new(situation: NodeSituationData) -> (r: Self)
        ensures
            r.children() == neighbor_entries(situation.children),
            r.situation() == situation.situation,
            r.my_id() == situation.my_id,
            r.my_public_ip() == situation.my_public_ip,
            r.my_public_port_http() == situation.my_public_port_http,
            r.my_public_port_faas() == situation.my_public_port_faas,
            r.tags() == situation.tags@,
            r.reserved_memory() == situation.reserved_memory,
            r.reserved_cpu() == situation.reserved_cpu,
    {
        NodeSituation { database: situation }
    }

    /// Register a child node, replacing its previous description.
    pub fn register(&mut self, id: NodeId, description: NodeDescription)
        ensures
            final(self).children() == old(self).children().insert(id, description),
            final(self).situation() == old(self).situation(),
            final(self).my_id() == old(self).my_id(),
            final(self).my_public_ip() == old(self).my_public_ip(),
            final(self).my_public_port_http() == old(self).my_public_port_http(),
            final(self).my_public_port_faas() == old(self).my_public_port_faas(),
            final(self).tags() == old(self).tags(),
            final(self).reserved_memory() == old(self).reserved_memory(),
            final(self).reserved_cpu() == old(self).reserved_cpu(),
    {
        neighbor_map_insert(&mut self.database.children, id, description);
    }

    /// How to reach neighbor `id`: a registered child, or the parent.
    pub fn get_fog_node_neighbor(&self, id: &NodeId) -> (r: Option<NodeDescription>)
        ensures
            r == neighbor_of(self.children(), self.situation(), *id),
    {
        match neighbor_map_get(&self.database.children, *id) {
            Some(x) => Some(x),
            None => match &self.database.situation {
                NodeCategory::NodeConnected { parent_node_ip, parent_node_port_http, parent_id, .. } => {
                    if *parent_id == *id {
                        Some(NodeDescription { ip: *parent_node_ip, port_http: *parent_node_port_http, advertised_bandwidth: None })
                    } else {
                        None
                    }
                },
                NodeCategory::MarketConnected { .. } => None,
            },
        }
    }

    pub fn get_my_id(&self) -> (r: NodeId)
        ensures
            r == self.my_id(),
    {
        self.database.my_id
    }

    /// The parent's id, when the node has a parent rather than the market.
    pub fn get_parent_id(&self) -> (r: Option<NodeId>)
        ensures
            r == (match self.situation() {
                NodeCategory::NodeConnected { parent_id, .. } => Some(parent_id),
                NodeCategory::MarketConnected { .. } => None::<NodeId>,
            }),
    {
        match &self.database.situation {
            NodeCategory::NodeConnected { parent_id, .. } => Some(*parent_id),
            _ => None,
        }
    }

    pub fn get_my_tags(&self) -> (r: Vec<String>)
        ensures
            r@ == self.tags(),
    {
        let n = self.database.tags.len();
        let mut r: Vec<String> = Vec::new();
        for i in 0..n
            invariant
                n == self.tags().len(),
                r@ == self.tags().take(i as int),
        {
            r.push(self.database.tags[i].clone());
            assert(r@ =~= self.tags().take(i + 1));
        }
        assert(self.tags().take(n as int) =~= self.tags());
        r
    }

    /// Whether the node is attached to the market rather than to a parent.
    pub fn is_market(&self) -> (r: bool)
        ensures
            r == self.situation() is MarketConnected,
    {
        match &self.database.situation {
            NodeCategory::MarketConnected { .. } => true,
            _ => false,
        }
    }

    pub fn get_parent_node_address(&self) -> (r: Option<(IpAddress, u16)>)
        ensures
            r == (match self.situation() {
                NodeCategory::NodeConnected { parent_node_ip, parent_node_port_http, .. } => Some((parent_node_ip, parent_node_port_http)),
                NodeCategory::MarketConnected { .. } => None::<(IpAddress, u16)>,
            }),
    {
        match &self.database.situation {
            NodeCategory::NodeConnected { parent_node_ip, parent_node_port_http, .. } => Some((*parent_node_ip, *parent_node_port_http)),
            _ => None,
        }
    }

    pub fn get_market_node_address(&self) -> (r: Option<(IpAddress, u16)>)
        ensures
            r == (match self.situation() {
                NodeCategory::MarketConnected { market_ip, market_port } => Some((market_ip, market_port)),
                NodeCategory::NodeConnected { .. } => None::<(IpAddress, u16)>,
            }),
    {
        match &self.database.situation {
            NodeCategory::MarketConnected { market_ip, market_port } => Some((*market_ip, *market_port)),
            _ => None,
        }
    }

    /// The neighbors of the node: each registered child once (in an order
    /// left to the child map), then the parent, if there is one.
    pub fn get_neighbors(&self) -> (r: Vec<NodeId>)
        ensures
            (match self.situation() {
                NodeCategory::NodeConnected { parent_id, .. } => {
                    &&& r@.len() >= 1
                    &&& r@.last() == parent_id
                    &&& r@.drop_last().no_duplicates()
                    &&& r@.drop_last().to_set() == self.children().dom()
                },
                NodeCategory::MarketConnected { .. } => {
                    &&& r@.no_duplicates()
                    &&& r@.to_set() == self.children().dom()
                },
            }),
    {
        let mut ret = neighbor_map_keys(&self.database.children);
        let ghost keys = ret@;
        match &self.database.situation {
            NodeCategory::NodeConnected { parent_id, .. } => {
                ret.push(*parent_id);
                assert(ret@.drop_last() =~= keys);
            },
            NodeCategory::MarketConnected { .. } => {},
        }
        ret
    }

    pub fn get_my_public_ip(&self) -> (r: IpAddress)
        ensures
            r == self.my_public_ip(),
    {
        self.database.my_public_ip
    }

    pub fn get_my_public_port_http(&self) -> (r: u16)
        ensures
            r == self.my_public_port_http(),
    {
        self.database.my_public_port_http
    }

    pub fn get_my_public_port_faas(&self) -> (r: u16)
        ensures
            r == self.my_public_port_faas(),
    {
        self.database.my_public_port_faas
    }

    pub fn get_reserved_memory(&self) -> (r: u64)
        ensures
            r == self.reserved_memory(),
    {
        self.database.reserved_memory
    }

    pub fn get_reserved_cpu(&self) -> (r: u64)
        ensures
            r == self.reserved_cpu(),
    {
        self.database.reserved_cpu
    }
}

/// A child registered with a description is reached through that
/// description right after, whatever was known of it before; every other
/// neighbor is reached as before.
pub proof fn law_registered_child_is_reachable(
    children: Map<NodeId, NodeDescription>,
    situation: NodeCategory,
    id: NodeId,
    description: NodeDescription,
    other: NodeId,
)
    ensures
        neighbor_of(children.insert(id, description), situation, id) == Some(description),
        other != id ==> neighbor_of(children.insert(id, description), situation, other) == neighbor_of(children, situation, other),
{
}

} // verus!
