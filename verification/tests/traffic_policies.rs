use waremax::ids::{EdgeId, NodeId, RobotId};
use waremax::policies::{AdaptiveTrafficPolicy, RerouteOnWaitPolicy, TrafficAction, WaitAtNodePolicy};
use waremax::traffic::TrafficManager;

#[test]
fn traffic_test_policy_names() {
    assert_eq!(WaitAtNodePolicy::new().name(), "wait_at_node");
    assert_eq!(RerouteOnWaitPolicy::default().name(), "reroute_on_wait");
    assert_eq!(AdaptiveTrafficPolicy::default().name(), "adaptive");
}

#[test]
fn reroute_on_wait_switches_at_threshold() {
    let policy = RerouteOnWaitPolicy::default();
    assert_eq!(f64::from_bits(policy.wait_threshold_bits()), 2.0);
    assert_eq!(policy.max_reroute_attempts(), 3);
    let waited = 1.5f64;
    let reached = waited >= f64::from_bits(policy.wait_threshold_bits());
    assert_eq!(policy.on_blocked(reached), TrafficAction::Wait);
    let waited = 2.0f64;
    let reached = waited >= f64::from_bits(policy.wait_threshold_bits());
    assert_eq!(policy.on_blocked(reached), TrafficAction::Reroute);
    let custom = RerouteOnWaitPolicy::new(4.0f64.to_bits(), 1);
    assert_eq!(f64::from_bits(custom.wait_threshold_bits()), 4.0);
    assert_eq!(custom.max_reroute_attempts(), 1);
}

#[test]
fn adaptive_reroutes_sooner_under_congestion() {
    let policy = AdaptiveTrafficPolicy::default();
    assert_eq!(f64::from_bits(policy.base_wait_bits()), 1.0);
    assert_eq!(policy.congestion_threshold(), 2);
    let mut traffic = TrafficManager::new(5, 5);
    let edge = EdgeId(1);
    let node = NodeId(3);
    // Quiet: half the base wait is not enough.
    assert_eq!(policy.on_blocked(&traffic, edge, node, true, false), TrafficAction::Wait);
    assert_eq!(policy.on_blocked(&traffic, edge, node, true, true), TrafficAction::Reroute);
    // Two robots on the edge: half the base wait is enough.
    traffic.enter_edge(edge, RobotId(1));
    traffic.enter_edge(edge, RobotId(2));
    assert_eq!(policy.on_blocked(&traffic, edge, node, true, false), TrafficAction::Reroute);
    assert_eq!(policy.on_blocked(&traffic, edge, node, false, false), TrafficAction::Wait);
    // Congestion at the node counts too.
    let other_edge = EdgeId(2);
    traffic.enter_node(node, RobotId(4));
    traffic.enter_node(node, RobotId(5));
    assert_eq!(policy.on_blocked(&traffic, other_edge, node, true, false), TrafficAction::Reroute);
    assert_eq!(policy.on_blocked(&traffic, other_edge, NodeId(9), true, false), TrafficAction::Wait);
}
