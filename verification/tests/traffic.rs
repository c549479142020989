use waremax::ids::{EdgeId, NodeId, RobotId};
use waremax::policies::CoarseTrafficPolicy;
use waremax::traffic::TrafficManager;

#[test]
fn test_coarse_policy_allows_entry() {
    let mut traffic = TrafficManager::new(1, 1);
    let mut policy = CoarseTrafficPolicy::new();
    assert!(policy.can_enter_edge(&traffic, EdgeId(1), RobotId(1), NodeId(0), NodeId(1)));
    policy.on_enter_edge(&mut traffic, EdgeId(1), RobotId(1), NodeId(0), NodeId(1));
    assert!(!policy.can_enter_edge(&traffic, EdgeId(1), RobotId(2), NodeId(0), NodeId(1)));
}

#[test]
fn occupant_may_reenter_full_edge() {
    let mut traffic = TrafficManager::new(1, 1);
    traffic.enter_edge(EdgeId(3), RobotId(9));
    assert!(traffic.can_enter_edge(EdgeId(3), RobotId(9)));
    assert!(!traffic.can_enter_edge(EdgeId(3), RobotId(8)));
}

#[test]
fn per_edge_capacity_overrides_default() {
    let mut traffic = TrafficManager::new(1, 1);
    traffic.set_edge_capacity(EdgeId(3), 2);
    traffic.enter_edge(EdgeId(3), RobotId(1));
    assert!(traffic.can_enter_edge(EdgeId(3), RobotId(2)));
    traffic.enter_edge(EdgeId(3), RobotId(2));
    assert!(!traffic.can_enter_edge(EdgeId(3), RobotId(4)));
    assert_eq!(traffic.edge_capacity(EdgeId(3)), 2);
    assert_eq!(traffic.edge_capacity(EdgeId(4)), 1);
}

#[test]
fn zero_capacity_admits_nobody() {
    let mut traffic = TrafficManager::new(0, 0);
    assert!(!traffic.can_enter_edge(EdgeId(1), RobotId(1)));
    assert!(!traffic.can_enter_node(NodeId(1), RobotId(1)));
    traffic.set_node_capacity(NodeId(1), 3);
    assert!(traffic.can_enter_node(NodeId(1), RobotId(1)));
}

#[test]
fn enter_twice_counts_once_and_leave_empties() {
    let mut traffic = TrafficManager::new(2, 2);
    traffic.enter_node(NodeId(4), RobotId(1));
    traffic.enter_node(NodeId(4), RobotId(1));
    assert_eq!(traffic.get_node_occupancy(NodeId(4)), 1);
    traffic.enter_node(NodeId(4), RobotId(2));
    assert_eq!(traffic.get_node_occupancy(NodeId(4)), 2);
    assert_eq!(traffic.robots_at_node(NodeId(4)), vec![RobotId(1), RobotId(2)]);
    traffic.leave_node(NodeId(4), RobotId(1));
    assert_eq!(traffic.robots_at_node(NodeId(4)), vec![RobotId(2)]);
    traffic.leave_node(NodeId(4), RobotId(2));
    assert_eq!(traffic.get_node_occupancy(NodeId(4)), 0);
    traffic.leave_node(NodeId(9), RobotId(2));
    assert_eq!(traffic.get_node_occupancy(NodeId(9)), 0);
}

#[test]
fn edge_occupancy_and_robots_on_edge_agree() {
    let mut traffic = TrafficManager::new(3, 1);
    traffic.enter_edge(EdgeId(1), RobotId(5));
    traffic.enter_edge(EdgeId(1), RobotId(6));
    assert_eq!(traffic.edge_occupancy_count(EdgeId(1)), 2);
    assert_eq!(traffic.get_edge_occupancy(EdgeId(1)), 2);
    assert_eq!(traffic.robots_on_edge(EdgeId(1)), vec![RobotId(5), RobotId(6)]);
    traffic.leave_edge(EdgeId(1), RobotId(5));
    assert_eq!(traffic.robots_on_edge(EdgeId(1)), vec![RobotId(6)]);
}

#[test]
fn waits_name_the_other_occupants() {
    let mut traffic = TrafficManager::new(2, 2);
    traffic.set_deadlock_detection(true);
    traffic.enter_edge(EdgeId(1), RobotId(1));
    traffic.enter_edge(EdgeId(1), RobotId(2));
    traffic.record_edge_wait(RobotId(1), EdgeId(1));
    assert!(traffic.is_waiting(RobotId(1)));
    let w = traffic.wait_graph.get_wait(RobotId(1)).expect("wait recorded");
    assert_eq!(w.blockers(), &[RobotId(2)]);
}

#[test]
fn edge_direction_is_recorded_and_cleared() {
    let mut traffic = TrafficManager::new(1, 1);
    assert_eq!(traffic.edge_direction(EdgeId(1)), None);
    traffic.set_edge_direction(EdgeId(1), Some((NodeId(1), NodeId(2))));
    assert_eq!(traffic.edge_direction(EdgeId(1)), Some(Some((NodeId(1), NodeId(2)))));
    traffic.set_edge_direction(EdgeId(1), None);
    assert_eq!(traffic.edge_direction(EdgeId(1)), Some(None));
    traffic.clear_edge_direction(EdgeId(1));
    assert_eq!(traffic.edge_direction(EdgeId(1)), None);
}

#[test]
fn coarse_policy_name_and_node_entry() {
    let mut traffic = TrafficManager::new(1, 1);
    let mut policy = CoarseTrafficPolicy::default();
    assert_eq!(policy.name(), "coarse");
    policy.on_enter_node(&mut traffic, NodeId(1), RobotId(1));
    assert!(!policy.can_enter_node(&traffic, NodeId(1), RobotId(2)));
    policy.on_leave_node(&mut traffic, NodeId(1), RobotId(1));
    assert!(policy.can_enter_node(&traffic, NodeId(1), RobotId(2)));
    policy.on_enter_edge(&mut traffic, EdgeId(2), RobotId(1), NodeId(1), NodeId(2));
    policy.on_leave_edge(&mut traffic, EdgeId(2), RobotId(1));
    assert_eq!(traffic.get_edge_occupancy(EdgeId(2)), 0);
}
