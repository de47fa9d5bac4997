use order_propagation::network::{Network, NodeId};
use order_propagation::node::{Action, Node};
use order_propagation::order::{MarketId, Order, Side};
use order_propagation::packet::{GossipPacket, PacketId, SerialiedPacket};
use order_propagation::propagation::Propagation;
use std::collections::{HashSet, VecDeque};
use std::time::Duration;

fn as_set(nodes: Vec<NodeId>) -> HashSet<NodeId> {
    let count: usize = nodes.len();
    let set: HashSet<NodeId> = nodes.into_iter().collect();
    assert_eq!(set.len(), count);
    set
}

fn cycle() -> Network {
    Network::new(vec![
        (NodeId(0), vec![NodeId(1)]),
        (NodeId(1), vec![NodeId(2)]),
        (NodeId(2), vec![NodeId(0)]),
    ])
}

#[test]
/// Start a simple network with 3 nodes and check a message can be propagated to the network
fn test_network() {
    let network = cycle();
    let start_id = NodeId(0);
    let mut nodes: Vec<Node> = Vec::new();
    for id in [NodeId(0), NodeId(1), NodeId(2)] {
        nodes.push(Node::new(id, &network.neighbors(id), 1));
    }

    // Send start packet
    let packet = GossipPacket::new(
        PacketId::new(1),
        start_id,
        3,
        Order::new(17, MarketId::SolUsd, Side::Bid, 0.5f64.to_bits(), 0.75f64.to_bits()),
    );
    let mut mailboxes: VecDeque<(NodeId, SerialiedPacket)> = VecDeque::new();
    mailboxes.push_back((start_id, packet.borsh_serialize()));

    // Wait for packet to be propagated
    let mut run = Propagation::new(packet.id, 3);
    let mut reporters: Vec<NodeId> = Vec::new();
    let mut reached = false;
    while let Some((target, bytes)) = mailboxes.pop_front() {
        let at: usize = target.0 as usize;
        match nodes[at].handle_bytes(&bytes).unwrap() {
            Action::Discard => {}
            Action::Deliver { report } => {
                assert!(!reached);
                reached = run.on_report(report, Duration::ZERO);
                reporters.push(target);
            }
            Action::Forward { report, packet, targets } => {
                assert!(!reached);
                reached = run.on_report(report, Duration::ZERO);
                reporters.push(target);
                for neighbor in targets {
                    mailboxes.push_back((neighbor, packet.borsh_serialize()));
                }
            }
        }
    }
    assert!(reached);
    assert_eq!(run.received_count(), 3);
    assert_eq!(reporters, vec![NodeId(0), NodeId(1), NodeId(2)]);
}

#[test]
fn new_network_lists_nodes_and_neighbors() {
    let network = cycle();
    assert_eq!(
        as_set(network.nodes()),
        HashSet::from([NodeId(0), NodeId(1), NodeId(2)])
    );
    assert_eq!(network.neighbors(NodeId(0)), vec![NodeId(1)]);
    assert_eq!(network.neighbors(NodeId(1)), vec![NodeId(2)]);
    assert_eq!(network.neighbors(NodeId(2)), vec![NodeId(0)]);
    assert_eq!(network.neighbors(NodeId(3)), Vec::new());
}

#[test]
fn neighbors_need_not_be_mutual() {
    let network = Network::new(vec![(NodeId(0), vec![NodeId(1)]), (NodeId(1), Vec::new())]);
    assert_eq!(network.neighbors(NodeId(0)), vec![NodeId(1)]);
    assert_eq!(network.neighbors(NodeId(1)), Vec::new());
}

#[test]
fn a_node_listed_twice_keeps_its_last_neighbors() {
    let network = Network::new(vec![
        (NodeId(5), vec![NodeId(1), NodeId(2)]),
        (NodeId(6), vec![NodeId(5)]),
        (NodeId(5), vec![NodeId(3)]),
    ]);
    assert_eq!(as_set(network.nodes()), HashSet::from([NodeId(5), NodeId(6)]));
    assert_eq!(network.neighbors(NodeId(5)), vec![NodeId(3)]);
    assert_eq!(network.neighbors(NodeId(6)), vec![NodeId(5)]);
}

#[test]
fn a_neighbor_named_twice_counts_once() {
    let network = Network::new(vec![(NodeId(0), vec![NodeId(1), NodeId(2), NodeId(1), NodeId(1)])]);
    assert_eq!(
        as_set(network.neighbors(NodeId(0))),
        HashSet::from([NodeId(1), NodeId(2)])
    );
}

#[test]
fn insert_adds_and_replaces() {
    let mut network = Network::empty();
    assert_eq!(network.nodes(), Vec::new());
    network.insert(NodeId(4), &vec![NodeId(7)]);
    network.insert(NodeId(7), &vec![NodeId(4), NodeId(4)]);
    assert_eq!(as_set(network.nodes()), HashSet::from([NodeId(4), NodeId(7)]));
    assert_eq!(network.neighbors(NodeId(7)), vec![NodeId(4)]);
    network.insert(NodeId(4), &Vec::new());
    assert_eq!(as_set(network.nodes()), HashSet::from([NodeId(4), NodeId(7)]));
    assert_eq!(network.neighbors(NodeId(4)), Vec::new());
}

#[test]
fn entry_node_of_an_empty_network() {
    assert_eq!(Network::empty().entry_node(), None);
    assert_eq!(Network::new(Vec::new()).entry_node(), None);
}

#[test]
fn entry_node_is_a_node_of_the_network() {
    let network = cycle();
    let entry = network.entry_node().unwrap();
    assert!(network.nodes().contains(&entry));
    let single = Network::new(vec![(NodeId(9), Vec::new())]);
    assert_eq!(single.entry_node(), Some(NodeId(9)));
}

#[test]
fn generated_network_has_the_asked_shape() {
    let num_nodes: u64 = 40;
    let num_neighbors: u64 = 7;
    let network = Network::generate_network(num_nodes, num_neighbors);
    let nodes = as_set(network.nodes());
    assert_eq!(nodes.len(), 40);
    for id in 0..num_nodes {
        assert!(nodes.contains(&NodeId(id)));
        let neighbors = as_set(network.neighbors(NodeId(id)));
        assert_eq!(neighbors.len(), 7);
        assert!(!neighbors.contains(&NodeId(id)));
        for neighbor in neighbors {
            assert!(neighbor.0 < num_nodes);
        }
    }
}

#[test]
fn generated_network_at_the_edges() {
    let lonely = Network::generate_network(1, 0);
    assert_eq!(lonely.nodes(), vec![NodeId(0)]);
    assert_eq!(lonely.neighbors(NodeId(0)), Vec::new());
    assert_eq!(lonely.entry_node(), Some(NodeId(0)));

    let full = Network::generate_network(5, 4);
    for id in 0..5u64 {
        let mut expected: HashSet<NodeId> = HashSet::new();
        for other in 0..5u64 {
            if other != id {
                expected.insert(NodeId(other));
            }
        }
        assert_eq!(as_set(full.neighbors(NodeId(id))), expected);
    }
}

#[test]
fn generated_networks_differ() {
    let mut seen: HashSet<Vec<NodeId>> = HashSet::new();
    for _ in 0..20 {
        let network = Network::generate_network(200, 3);
        let mut neighbors = network.neighbors(NodeId(0));
        neighbors.sort_by_key(|node| node.0);
        seen.insert(neighbors);
    }
    assert!(seen.len() > 1);
}
