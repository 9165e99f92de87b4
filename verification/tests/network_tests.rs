use fog_node::node_life::{registration_address, NodeLife, NodeLifeError, RegisterNode};
use fog_node::node_situation::{IpAddress, NodeCategory, NodeDescription, NodeSituation, NodeSituationData};
use fog_node::placement::{
    add_own_proposal, first_with_bids, follow_up_candidates, gather_proposals, keep_last_proposal, last_or_own,
    own_bid_or_last, propositions_per_neighbor, BidProposal, BidProposals, PlacementError,
};
use fog_node::routing::{forward, Forward, Packet, RoutingError};

const ME: u128 = 100;
const PARENT: u128 = 200;
const CHILD: u128 = 300;

fn ip(last: u8) -> IpAddress {
    IpAddress::V4([10, 0, 0, last])
}

fn situation(category: NodeCategory) -> NodeSituation {
    NodeSituation::new(NodeSituationData {
        situation: category,
        my_id: ME,
        my_public_ip: ip(1),
        my_public_port_http: 3000,
        my_public_port_faas: 31112,
        tags: vec!["edge".to_string()],
        reserved_memory: 8,
        reserved_cpu: 2,
        children: dashmap::DashMap::new(),
    })
}

fn connected() -> NodeSituation {
    let mut s = situation(NodeCategory::NodeConnected {
        parent_id: PARENT,
        parent_node_ip: ip(2),
        parent_node_port_http: 3002,
        parent_latency_bits: 0.015f64.to_bits(),
    });
    s.register(CHILD, NodeDescription { ip: ip(3), port_http: 3003, advertised_bandwidth: Some(7000) });
    s
}

fn market() -> NodeSituation {
    situation(NodeCategory::MarketConnected { market_ip: ip(9), market_port: 8080 })
}

#[test]
fn neighbors_are_children_then_parent() {
    let s = connected();
    assert_eq!(s.get_neighbors(), vec![CHILD, PARENT]);
    assert_eq!(s.get_fog_node_neighbor(&PARENT), Some(NodeDescription { ip: ip(2), port_http: 3002, advertised_bandwidth: None }));
    assert_eq!(s.get_fog_node_neighbor(&CHILD), Some(NodeDescription { ip: ip(3), port_http: 3003, advertised_bandwidth: Some(7000) }));
    assert_eq!(s.get_fog_node_neighbor(&999), None);
    assert_eq!(s.get_parent_id(), Some(PARENT));
    assert!(!s.is_market());
    assert_eq!(s.get_my_tags(), vec!["edge".to_string()]);
    let m = market();
    assert!(m.get_neighbors().is_empty());
    assert!(m.is_market());
    assert_eq!(m.get_parent_id(), None);
    assert_eq!(m.get_market_node_address(), Some((ip(9), 8080)));
    assert_eq!(m.get_parent_node_address(), None);
}

#[test]
fn fog_packet_delivered_here_on_last_hop() {
    let s = connected();
    let packet = Packet::FogNode { route_to_stack: vec![ME], resource_uri: "f".to_string(), data: 5u8 };
    assert_eq!(forward(packet, &s), Ok(Forward::ToFogNodeUrl { ip: ip(1), port: 3000, resource_uri: "f".to_string(), data: 5u8 }));
}

#[test]
fn fog_packet_passed_on_with_shorter_stack() {
    let s = connected();
    let packet = Packet::FogNode { route_to_stack: vec![CHILD, PARENT, ME], resource_uri: "f".to_string(), data: 5u8 };
    assert_eq!(
        forward(packet, &s),
        Ok(Forward::ToRouting {
            ip: ip(2),
            port: 3002,
            packet: Packet::FogNode { route_to_stack: vec![CHILD, PARENT], resource_uri: "f".to_string(), data: 5u8 },
        })
    );
}

#[test]
fn malformed_stacks_are_refused() {
    let s = connected();
    let empty: Packet<u8> = Packet::FogNode { route_to_stack: vec![], resource_uri: "f".to_string(), data: 5 };
    assert_eq!(forward(empty, &s), Err(RoutingError::MalformedRoutingStack));
    let not_me: Packet<u8> = Packet::FogNode { route_to_stack: vec![ME, PARENT], resource_uri: "f".to_string(), data: 5 };
    assert_eq!(forward(not_me, &s), Err(RoutingError::MalformedRoutingStack));
    let unknown: Packet<u8> = Packet::FogNode { route_to_stack: vec![777, ME], resource_uri: "f".to_string(), data: 5 };
    assert_eq!(forward(unknown, &s), Err(RoutingError::NextNodeDoesntExist(777)));
}

#[test]
fn market_packets_climb_to_the_market() {
    let packet = Packet::Market { resource_uri: "m".to_string(), data: 1u8 };
    assert_eq!(
        forward(packet.clone(), &connected()),
        Ok(Forward::ToRouting { ip: ip(2), port: 3002, packet: packet.clone() })
    );
    assert_eq!(
        forward(packet, &market()),
        Ok(Forward::ToMarketUrl { ip: ip(9), port: 8080, resource_uri: "m".to_string(), data: 1u8 })
    );
}

#[test]
fn children_register_to_their_parent_only() {
    let life = NodeLife::new();
    let mut s = connected();
    let child = RegisterNode::Node {
        node_id: 400,
        parent: ME,
        ip: ip(4),
        port_http: 3004,
        port_faas: 1,
        tags: vec![],
        advertised_bandwidth: 1000,
    };
    assert_eq!(life.register_child_node(&mut s, &child), Ok(()));
    assert_eq!(s.get_fog_node_neighbor(&400), Some(NodeDescription { ip: ip(4), port_http: 3004, advertised_bandwidth: Some(1000) }));
    let grandchild = RegisterNode::Node {
        node_id: 500,
        parent: 400,
        ip: ip(5),
        port_http: 3005,
        port_faas: 1,
        tags: vec![],
        advertised_bandwidth: 1000,
    };
    assert_eq!(life.register_child_node(&mut s, &grandchild), Ok(()));
    assert_eq!(s.get_fog_node_neighbor(&500), None);
    let market_node = RegisterNode::MarketNode { node_id: 1, ip: ip(1), port_http: 1, port_faas: 1, tags: vec![], advertised_bandwidth: 1 };
    assert_eq!(life.register_child_node(&mut s, &market_node), Err(NodeLifeError::MarketCannotBeChild));
}

#[test]
fn registration_of_this_node() {
    let life = NodeLife::new();
    let reg = life.init_registration(&connected(), ip(1), 3000, 31112, 42);
    assert_eq!(
        reg,
        RegisterNode::Node { node_id: ME, parent: PARENT, ip: ip(1), port_http: 3000, port_faas: 31112, tags: vec!["edge".to_string()], advertised_bandwidth: 42 }
    );
    assert_eq!(registration_address(&connected()), (ip(2), 3002));
    let reg = life.init_registration(&market(), ip(1), 3000, 31112, 42);
    assert!(matches!(reg, RegisterNode::MarketNode { node_id: ME, .. }));
    assert_eq!(registration_address(&market()), (ip(9), 8080));
}

fn bidp(node: u128) -> BidProposal {
    BidProposal { node_id: node, id: node + 1, bid_bits: 2.0f64.to_bits() }
}

#[test]
fn placement_decisions() {
    assert_eq!(follow_up_candidates(&vec![1, 2, 3, 2], 2), vec![1, 3]);
    let answers = vec![Some(BidProposals { bids: vec![bidp(1), bidp(2)] }), None, Some(BidProposals { bids: vec![bidp(3)] })];
    let gathered = gather_proposals(&answers);
    assert_eq!(gathered.bids, vec![bidp(1), bidp(2), bidp(3)]);
    let with_own = add_own_proposal(gathered.clone(), Some(bidp(9)));
    assert_eq!(with_own.bids, vec![bidp(1), bidp(2), bidp(3), bidp(9)]);
    assert_eq!(add_own_proposal(gathered.clone(), None).bids, gathered.bids);
    assert_eq!(keep_last_proposal(gathered.clone()), Ok(BidProposals { bids: vec![bidp(3)] }));
    assert_eq!(keep_last_proposal(BidProposals { bids: vec![] }), Err(PlacementError::NoCandidatesRetained));
    assert_eq!(own_bid_or_last(Some(bidp(9)), gathered.clone()), Ok(BidProposals { bids: vec![bidp(9)] }));
    assert_eq!(own_bid_or_last(None, gathered), Ok(BidProposals { bids: vec![bidp(3)] }));
    assert_eq!(own_bid_or_last(None, BidProposals { bids: vec![] }), Err(PlacementError::NoCandidatesRetained));
    let answers = vec![None, Some(BidProposals { bids: vec![] }), Some(BidProposals { bids: vec![bidp(5), bidp(6)] }), Some(BidProposals { bids: vec![bidp(7)] })];
    assert_eq!(first_with_bids(&answers).bids, vec![bidp(5), bidp(6)]);
    assert!(first_with_bids(&vec![None, Some(BidProposals { bids: vec![] })]).bids.is_empty());
    assert_eq!(last_or_own(BidProposals { bids: vec![bidp(5), bidp(6)] }, Some(bidp(9))).bids, vec![bidp(6)]);
    assert_eq!(last_or_own(BidProposals { bids: vec![] }, Some(bidp(9))).bids, vec![bidp(9)]);
    assert!(last_or_own(BidProposals { bids: vec![] }, None).bids.is_empty());
    assert_eq!(propositions_per_neighbor(2, 5), 1);
    assert_eq!(propositions_per_neighbor(5, 5), 1);
    assert_eq!(propositions_per_neighbor(7, 3), 3);
    assert_eq!(propositions_per_neighbor(6, 3), 2);
    assert_eq!(propositions_per_neighbor(3, 0), usize::MAX);
    assert_eq!(propositions_per_neighbor(0, 0), 1);
}
