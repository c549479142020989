use waremax::graph::{Edge, Node, WarehouseMap, REVERSE_EDGE_OFFSET};
use waremax::ids::{EdgeId, NodeId};
use waremax::map::{EdgeDirection, NodeType};

fn node(id: u32, name: &str) -> Node {
    Node::new(NodeId(id), name.to_string(), (id as f64).to_bits(), 0f64.to_bits(), NodeType::Aisle)
}

#[test]
fn two_way_edge_adds_reverse() {
    let mut map = WarehouseMap::new();
    map.add_node(node(0, "A"));
    map.add_node(node(1, "B"));
    map.add_edge(Edge::new(EdgeId(7), NodeId(0), NodeId(1), 3.5f64.to_bits()));
    assert_eq!(map.node_count(), 2);
    assert_eq!(map.edge_count(), 2);
    let reverse = map.get_edge(EdgeId(7 + REVERSE_EDGE_OFFSET)).unwrap();
    assert_eq!(reverse.from, NodeId(1));
    assert_eq!(reverse.to, NodeId(0));
    assert_eq!(reverse.direction, EdgeDirection::OneWay);
    assert_eq!(f64::from_bits(reverse.length_bits), 3.5);
    assert_eq!(map.neighbors(NodeId(0)), vec![(NodeId(1), EdgeId(7), 3.5f64.to_bits())]);
    assert_eq!(map.neighbors(NodeId(1)), vec![(NodeId(0), EdgeId(100007), 3.5f64.to_bits())]);
}

#[test]
fn one_way_edge_leads_one_way() {
    let mut map = WarehouseMap::default();
    let edge = Edge::new(EdgeId(1), NodeId(0), NodeId(1), 2f64.to_bits())
        .with_direction(EdgeDirection::OneWay)
        .with_capacity(3)
        .with_speed_multiplier(0.5f64.to_bits());
    map.add_edge(edge);
    assert_eq!(map.edge_count(), 1);
    assert_eq!(map.get_edge(EdgeId(1)).unwrap().capacity, 3);
    assert_eq!(f64::from_bits(map.get_edge(EdgeId(1)).unwrap().speed_multiplier_bits), 0.5);
    assert_eq!(map.neighbors(NodeId(0)).len(), 1);
    assert!(map.neighbors(NodeId(1)).is_empty());
    assert!(map.get_edge(EdgeId(100001)).is_none());
}

#[test]
fn blocked_neighbours_are_left_out() {
    let mut map = WarehouseMap::new();
    map.add_edge(Edge::new(EdgeId(1), NodeId(0), NodeId(1), 1f64.to_bits()));
    map.add_edge(Edge::new(EdgeId(2), NodeId(0), NodeId(2), 1f64.to_bits()));
    map.add_edge(Edge::new(EdgeId(3), NodeId(0), NodeId(3), 1f64.to_bits()));
    map.blocked_nodes.push(NodeId(2));
    map.blocked_edges.push(EdgeId(3));
    let reached: Vec<NodeId> = map.neighbors(NodeId(0)).iter().map(|t| t.0).collect();
    assert_eq!(reached, vec![NodeId(1)]);
}

#[test]
fn nodes_by_name() {
    let mut map = WarehouseMap::new();
    map.add_node(node(4, "P1"));
    map.add_node(node(5, "P2"));
    assert_eq!(map.get_node_by_string("P2").unwrap().id, NodeId(5));
    assert!(map.get_node_by_string("P3").is_none());
    // A name given again points to the later node.
    map.add_node(node(6, "P1"));
    assert_eq!(map.get_node_by_string("P1").unwrap().id, NodeId(6));
    assert_eq!(map.get_node(NodeId(4)).unwrap().string_id, "P1");
    assert!(map.get_node(NodeId(9)).is_none());
    assert!(map.neighbors(NodeId(4)).is_empty());
    assert_eq!(map.get_node(NodeId(5)).unwrap().capacity, 1);
}
