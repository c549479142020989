use waremax::ids::{EdgeId, NodeId, RobotId};
use waremax::policies::ContinuousTrafficPolicy;
use waremax::traffic::TrafficManager;

#[test]
fn test_continuous_direction_locking() {
    let mut traffic = TrafficManager::new(2, 2);
    let mut policy = ContinuousTrafficPolicy::new();
    assert!(policy.can_enter_edge(&traffic, EdgeId(1), RobotId(1), NodeId(0), NodeId(1), true));
    policy.on_enter_edge(&mut traffic, EdgeId(1), RobotId(1), NodeId(0), NodeId(1));
    assert!(!policy.can_enter_edge(&traffic, EdgeId(1), RobotId(2), NodeId(1), NodeId(0), true));
    assert!(policy.can_enter_edge(&traffic, EdgeId(1), RobotId(3), NodeId(0), NodeId(1), true));
}

/// Whether no robot tracked at `progress` (fraction of the edge) is closer
/// ahead than `safety_m` on an edge of `length_m`.
fn following_clear(progress_ahead: &[f64], safety_m: f64, length_m: f64) -> bool {
    if length_m <= 0.0 {
        return true;
    }
    let min_gap = safety_m / length_m;
    progress_ahead.iter().all(|p| !(*p < min_gap))
}

#[test]
fn test_continuous_following_distance() {
    let mut traffic = TrafficManager::new(2, 2);
    let mut policy = ContinuousTrafficPolicy::new();
    policy.on_enter_edge(&mut traffic, EdgeId(1), RobotId(1), NodeId(0), NodeId(1));
    // Robot 1 at half way along a 10 m edge: a 3 m gap is kept.
    let clear = following_clear(&[0.5], 3.0, 10.0);
    assert!(policy.can_enter_edge(&traffic, EdgeId(1), RobotId(2), NodeId(0), NodeId(1), clear));
    // Robot 1 only 1 m along: too close.
    let clear = following_clear(&[0.1], 3.0, 10.0);
    assert!(!policy.can_enter_edge(&traffic, EdgeId(1), RobotId(2), NodeId(0), NodeId(1), clear));
}

#[test]
fn continuous_policy_capacity_and_unlock() {
    let mut traffic = TrafficManager::new(1, 1);
    let mut policy = ContinuousTrafficPolicy::default();
    assert_eq!(policy.name(), "continuous");
    policy.on_enter_edge(&mut traffic, EdgeId(2), RobotId(1), NodeId(3), NodeId(4));
    assert_eq!(traffic.edge_direction(EdgeId(2)), Some(Some((NodeId(3), NodeId(4)))));
    // Full edge refuses even the same direction.
    assert!(!policy.can_enter_edge(&traffic, EdgeId(2), RobotId(2), NodeId(3), NodeId(4), true));
    policy.on_leave_edge(&mut traffic, EdgeId(2), RobotId(1));
    // The lock stays until the caller clears it.
    assert!(!policy.can_enter_edge(&traffic, EdgeId(2), RobotId(2), NodeId(4), NodeId(3), true));
    traffic.clear_edge_direction(EdgeId(2));
    assert!(policy.can_enter_edge(&traffic, EdgeId(2), RobotId(2), NodeId(4), NodeId(3), true));
    // A second robot entering keeps the first direction.
    policy.on_enter_edge(&mut traffic, EdgeId(2), RobotId(2), NodeId(4), NodeId(3));
    traffic.set_edge_capacity(EdgeId(2), 3);
    policy.on_enter_edge(&mut traffic, EdgeId(2), RobotId(5), NodeId(4), NodeId(3));
    assert_eq!(traffic.edge_direction(EdgeId(2)), Some(Some((NodeId(4), NodeId(3)))));
    policy.on_enter_node(&mut traffic, NodeId(4), RobotId(2));
    assert!(!policy.can_enter_node(&traffic, NodeId(4), RobotId(7)));
    policy.on_leave_node(&mut traffic, NodeId(4), RobotId(2));
    assert!(policy.can_enter_node(&traffic, NodeId(4), RobotId(7)));
}
