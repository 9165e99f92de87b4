//! Routing of the packets that travel between fog nodes: a packet for a
//! fog node carries the stack of nodes it still has to go through, the
//! last of which is the next hop; a packet for the market climbs towards
//! the node attached to the market.
use vstd::prelude::*;
use crate::node_situation::{IpAddress, NodeCategory, NodeSituation, neighbor_of};
use crate::sla::NodeId;

verus! {

/// A packet with its payload `data`, which routing never looks into.
#[derive(Clone, Debug, PartialEq, Eq)]
pub enum Packet<D> {
    /// For a fog node: the nodes still to go through, the next hop last.
    FogNode { route_to_stack: Vec<NodeId>, resource_uri: String, data: D },
    /// For the market.
    Market { resource_uri: String, data: D },
}

/// Where a packet goes next.
#[derive(Clone, Debug, PartialEq, Eq)]
pub enum Forward<D> {
    /// Deliver the payload to a resource of the fog node at this address.
    ToFogNodeUrl { ip: IpAddress, port: u16, resource_uri: String, data: D },
    /// Pass the packet on to the routing service of the node at this address.
    ToRouting { ip: IpAddress, port: u16, packet: Packet<D> },
    /// Deliver the payload to a resource of the market at this address.
    ToMarketUrl { ip: IpAddress, port: u16, resource_uri: String, data: D },
}

/// Why a packet could not be routed.
#[derive(Clone, Copy, Debug, PartialEq, Eq)]
pub enum RoutingError {
    /// The next node is not a neighbor of this one.
    NextNodeDoesntExist(NodeId),
    /// The routing stack was empty or did not name this node on top.
    MalformedRoutingStack,
}

/// Where a fog-node packet with stack `stack` goes from node `me`, as the
/// shape of the decision: `Err` for a refusal, `Ok(None)` to deliver it
/// here, `Ok(Some(next))` to pass it on to `next`.
pub open spec fn fog_hop(stack: Seq<NodeId>, me: NodeId) -> Result<Option<NodeId>, RoutingError> {
    if stack.len() == 0 || stack.last() != me {
        Err(RoutingError::MalformedRoutingStack)
    } else if stack.len() == 1 {
        Ok(None)
    } else {
        Ok(Some(stack.drop_last().last()))
    }
}

impl<D> Packet<D> {
    pub open spec fn uri(self) -> String {
        match self {
            Packet::FogNode { resource_uri, .. } => resource_uri,
            Packet::Market { resource_uri, .. } => resource_uri,
        }
    }

    pub open spec fn payload(self) -> D {
        match self {
            Packet::FogNode { data, .. } => data,
            Packet::Market { data, .. } => data,
        }
    }
}

/// Decide where a packet goes from this node.
///
/// A fog-node packet must name this node on top of its stack; this node
/// is popped off. When nothing is left the payload is for this node's own
/// HTTP service; otherwise the packet goes on, with the shortened stack, to
/// the neighbor now on top. A market packet goes to the market when this
/// node is attached to it, and to the parent otherwise.
pub fn forward<D>(packet: Packet<D>, node_situation: &NodeSituation) -> (r: Result<Forward<D>, RoutingError>)
    ensures
        (match packet {
            Packet::FogNode { route_to_stack, resource_uri, data } => {
                let stack = route_to_stack@;
                match fog_hop(stack, node_situation.my_id()) {
                    Err(e) => r == Err::<Forward<D>, RoutingError>(e),
                    Ok(None) => r == Ok::<Forward<D>, RoutingError>(Forward::ToFogNodeUrl {
                        ip: node_situation.my_public_ip(),
                        port: node_situation.my_public_port_http(),
                        resource_uri,
                        data,
                    }),
                    Ok(Some(next)) => match neighbor_of(node_situation.children(), node_situation.situation(), next) {
                        None => r == Err::<Forward<D>, RoutingError>(RoutingError::NextNodeDoesntExist(next)),
                        Some(desc) => r matches Ok(Forward::ToRouting { ip, port, packet: Packet::FogNode { route_to_stack: rest, resource_uri: uri2, data: data2 } })
                            && ip == desc.ip && port == desc.port_http && rest@ == stack.drop_last()
                            && uri2 == resource_uri && data2 == data,
                    },
                }
            },
            Packet::Market { resource_uri, data } => match node_situation.situation() {
                NodeCategory::MarketConnected { market_ip, market_port } =>
                    r == Ok::<Forward<D>, RoutingError>(Forward::ToMarketUrl { ip: market_ip, port: market_port, resource_uri, data }),
                NodeCategory::NodeConnected { parent_node_ip, parent_node_port_http, .. } =>
                    r == Ok::<Forward<D>, RoutingError>(Forward::ToRouting {
                        ip: parent_node_ip,
                        port: parent_node_port_http,
                        packet: Packet::Market { resource_uri, data },
                    }),
            },
        }),
{
    match packet {
        Packet::FogNode { route_to_stack, resource_uri, data } => {
            let mut route_to = route_to_stack;
            let ghost stack = route_to@;
            let current_node = match route_to.pop() {
                Some(n) => n,
                None => return Err(RoutingError::MalformedRoutingStack),
            };
            if current_node != node_situation.get_my_id() {
                return Err(RoutingError::MalformedRoutingStack);
            }
            if route_to.len() == 0 {
                let my_ip = node_situation.get_my_public_ip();
                let my_port = node_situation.get_my_public_port_http();
                Ok(Forward::ToFogNodeUrl { ip: my_ip, port: my_port, resource_uri, data })
            } else {
                let next = route_to[route_to.len() - 1];
                assert(route_to@ == stack.drop_last());
                let desc = match node_situation.get_fog_node_neighbor(&next) {
                    Some(d) => d,
                    None => return Err(RoutingError::NextNodeDoesntExist(next)),
                };
                Ok(Forward::ToRouting {
                    ip: desc.ip,
                    port: desc.port_http,
                    packet: Packet::FogNode { route_to_stack: route_to, resource_uri, data },
                })
            }
        },
        Packet::Market { resource_uri, data } => {
            if node_situation.is_market() {
                match node_situation.get_market_node_address() {
                    Some((ip, port)) => Ok(Forward::ToMarketUrl { ip, port, resource_uri, data }),
                    None => {
                        assert(false);
                        Err(RoutingError::MalformedRoutingStack)
                    },
                }
            } else {
                match node_situation.get_parent_node_address() {
                    Some((ip, port)) => Ok(Forward::ToRouting { ip, port, packet: Packet::Market { resource_uri, data } }),
                    None => {
                        assert(false);
                        Err(RoutingError::MalformedRoutingStack)
                    },
                }
            }
        },
    }
}

/// A fog-node packet passed on is well formed at the next hop: the stack
/// it travels with names the next node on top, and is one shorter; so a
/// packet whose stack lists a path from this node reaches its end after
/// as many hops as the path has nodes, and is delivered there.
pub proof fn law_hop_keeps_the_route(stack: Seq<NodeId>, me: NodeId)
    ensures
        fog_hop(stack, me) matches Ok(Some(next)) ==> {
            &&& stack.drop_last().len() == stack.len() - 1
            &&& fog_hop(stack.drop_last(), next) is Ok
        },
        stack.len() == 1 && stack[0] == me ==> fog_hop(stack, me) == Ok::<Option<NodeId>, RoutingError>(None),
{
}

} // verus!
