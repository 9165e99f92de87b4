//! How fog nodes join the fog: a node registers to its parent (or to the
//! market), and a parent records the children that register to it.
use vstd::prelude::*;
use crate::node_situation::{IpAddress, NodeCategory, NodeDescription, NodeSituation};
use crate::sla::NodeId;

verus! {

/// A registration request sent up the fog.
///
/// The advertised bandwidth is in bytes per second.
#[derive(Clone, Debug, PartialEq, Eq)]
pub enum RegisterNode {
    /// A fog node registering to its parent.
    Node {
        node_id: NodeId,
        parent: NodeId,
        ip: IpAddress,
        port_http: u16,
        port_faas: u16,
        tags: Vec<String>,
        advertised_bandwidth: u64,
    },
    /// The node attached to the market registering to it.
    MarketNode {
        node_id: NodeId,
        ip: IpAddress,
        port_http: u16,
        port_faas: u16,
        tags: Vec<String>,
        advertised_bandwidth: u64,
    },
}

/// Why a registration was refused.
#[derive(Clone, Copy, Debug, PartialEq, Eq)]
pub enum NodeLifeError {
    /// The market has no parent: nothing can register it as a child.
    MarketCannotBeChild,
}

/// The node-life service: registration of this node and of its children.
pub struct NodeLife;

impl NodeLife {
    pub fn new() -> (r: NodeLife) {
        NodeLife
    }

    /// Record a child that registers through this node: a fog node whose
    /// parent is this node is added to the children (any other fog node is
    /// only passed on); a market registration is refused. The request is
    /// then to be passed on to this node's own parent.
    pub fn register_child_node(&self, node_situation: &mut NodeSituation, register: &RegisterNode) -> (r: Result<(), NodeLifeError>)
        ensures
            (match *register {
                RegisterNode::Node { node_id, parent, ip, port_http, advertised_bandwidth, .. } => {
                    &&& r is Ok
                    &&& final(node_situation).children() == if parent == old(node_situation).my_id() {
                        old(node_situation).children().insert(
                            node_id,
                            NodeDescription { ip, port_http, advertised_bandwidth: Some(advertised_bandwidth) },
                        )
                    } else {
                        old(node_situation).children()
                    }
                },
                RegisterNode::MarketNode { .. } => {
                    &&& r == Err::<(), NodeLifeError>(NodeLifeError::MarketCannotBeChild)
                    &&& final(node_situation).children() == old(node_situation).children()
                },
            }),
            final(node_situation).situation() == old(node_situation).situation(),
            final(node_situation).my_id() == old(node_situation).my_id(),
            final(node_situation).my_public_ip() == old(node_situation).my_public_ip(),
            final(node_situation).my_public_port_http() == old(node_situation).my_public_port_http(),
            final(node_situation).tags() == old(node_situation).tags(),
    {
        match register {
            RegisterNode::Node { node_id, parent, ip, port_http, advertised_bandwidth, .. } => {
                if node_situation.get_my_id() == *parent {
                    node_situation.register(
                        *node_id,
                        NodeDescription { ip: *ip, port_http: *port_http, advertised_bandwidth: Some(*advertised_bandwidth) },
                    );
                }
                Ok(())
            },
            RegisterNode::MarketNode { .. } => Err(NodeLifeError::MarketCannotBeChild),
        }
    }

    /// The registration of this node to what it is attached to: as the
    /// market's node when it is attached to the market, else as a child of
    /// its parent.
    pub fn init_registration(
        &self,
        node_situation: &NodeSituation,
        ip: IpAddress,
        port_http: u16,
        port_faas: u16,
        advertised_bandwidth: u64,
    ) -> (r: RegisterNode)
        ensures
            (match node_situation.situation() {
                NodeCategory::MarketConnected { .. } => r matches RegisterNode::MarketNode { node_id, ip: i, port_http: ph, port_faas: pf, tags, advertised_bandwidth: b }
                    && node_id == node_situation.my_id() && i == ip && ph == port_http && pf == port_faas && tags@ == node_situation.tags() && b == advertised_bandwidth,
                NodeCategory::NodeConnected { parent_id, .. } => r matches RegisterNode::Node { node_id, parent, ip: i, port_http: ph, port_faas: pf, tags, advertised_bandwidth: b }
                    && node_id == node_situation.my_id() && parent == parent_id && i == ip && ph == port_http && pf == port_faas && tags@ == node_situation.tags() && b == advertised_bandwidth,
            }),
    {
        if node_situation.is_market() {
            RegisterNode::MarketNode {
                node_id: node_situation.get_my_id(),
                ip,
                port_http,
                port_faas,
                tags: node_situation.get_my_tags(),
                advertised_bandwidth,
            }
        } else {
            let parent = match node_situation.get_parent_id() {
                Some(p) => p,
                None => {
                    assert(false);
                    0
                },
            };
            RegisterNode::Node {
                ip,
                port_http,
                port_faas,
                node_id: node_situation.get_my_id(),
                parent,
                tags: node_situation.get_my_tags(),
                advertised_bandwidth,
            }
        }
    }
}

/// Where a registration goes: the market when this node is attached to it,
/// else the parent.
pub fn registration_address(node_situation: &NodeSituation) -> (r: (IpAddress, u16))
    ensures
        r == (match node_situation.situation() {
            NodeCategory::MarketConnected { market_ip, market_port } => (market_ip, market_port),
            NodeCategory::NodeConnected { parent_node_ip, parent_node_port_http, .. } => (parent_node_ip, parent_node_port_http),
        }),
{
    if node_situation.is_market() {
        match node_situation.get_market_node_address() {
            Some(a) => a,
            None => {
                assert(false);
                (IpAddress::V4([0, 0, 0, 0]), 0)
            },
        }
    } else {
        match node_situation.get_parent_node_address() {
            Some(a) => a,
            None => {
                assert(false);
                (IpAddress::V4([0, 0, 0, 0]), 0)
            },
        }
    }
}

} // verus!
