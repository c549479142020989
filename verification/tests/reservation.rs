use waremax::ids::{EdgeId, NodeId, RobotId};
use waremax::map::{EdgeDirection, NodeType, RoutingAlgorithm};
use waremax::reservation::{ReservableResource, Reservation, ReservationManager, TimePoint};

/// Simulation seconds as a point in time order.
fn t(seconds: f64) -> TimePoint {
    let b = seconds.to_bits();
    TimePoint(if b >> 63 == 1 { !b } else { b | (1u64 << 63) })
}

#[test]
fn test_reservation_overlaps() {
    let res = Reservation::new(RobotId(1), ReservableResource::Edge(EdgeId(1)), t(10.0), t(20.0));
    assert!(res.overlaps(t(15.0), t(25.0)));
    assert!(res.overlaps(t(5.0), t(15.0)));
    assert!(res.overlaps(t(12.0), t(18.0)));
    assert!(res.overlaps(t(5.0), t(25.0)));
    assert!(!res.overlaps(t(0.0), t(10.0)));
    assert!(!res.overlaps(t(20.0), t(30.0)));
    assert!(!res.overlaps(t(0.0), t(5.0)));
    assert!(!res.overlaps(t(25.0), t(30.0)));
}

#[test]
fn test_reservation_manager_disabled() {
    let mut mgr = ReservationManager::new();
    assert!(!mgr.enabled);
    assert!(mgr.can_reserve(&ReservableResource::Edge(EdgeId(1)), RobotId(1), t(0.0), t(10.0)));
    mgr.reserve(ReservableResource::Edge(EdgeId(1)), RobotId(1), t(0.0), t(10.0)).unwrap();
    mgr.reserve(ReservableResource::Edge(EdgeId(1)), RobotId(2), t(5.0), t(15.0)).unwrap();
}

#[test]
fn test_reservation_manager_enabled() {
    let mut mgr = ReservationManager::new_enabled();
    assert!(mgr.enabled);
    mgr.reserve(ReservableResource::Edge(EdgeId(1)), RobotId(1), t(0.0), t(10.0)).unwrap();
    assert!(mgr.can_reserve(&ReservableResource::Edge(EdgeId(1)), RobotId(1), t(5.0), t(15.0)));
    assert!(!mgr.can_reserve(&ReservableResource::Edge(EdgeId(1)), RobotId(2), t(5.0), t(15.0)));
    assert!(mgr.can_reserve(&ReservableResource::Edge(EdgeId(1)), RobotId(2), t(10.0), t(20.0)));
}

#[test]
fn test_reservation_conflict() {
    let mut mgr = ReservationManager::new_enabled();
    mgr.reserve(ReservableResource::Edge(EdgeId(1)), RobotId(1), t(0.0), t(10.0)).unwrap();
    let result = mgr.reserve(ReservableResource::Edge(EdgeId(1)), RobotId(2), t(5.0), t(15.0));
    assert!(result.is_err());
    let conflict = result.unwrap_err();
    assert_eq!(conflict.conflicting_robot, RobotId(1));
    assert_eq!(conflict.conflict_start, t(0.0));
    assert_eq!(conflict.conflict_end, t(10.0));
}

#[test]
fn test_release_all() {
    let mut mgr = ReservationManager::new_enabled();
    mgr.reserve(ReservableResource::Edge(EdgeId(1)), RobotId(1), t(0.0), t(10.0)).unwrap();
    mgr.reserve(ReservableResource::Edge(EdgeId(2)), RobotId(1), t(10.0), t(20.0)).unwrap();
    mgr.reserve(ReservableResource::Node(NodeId(5)), RobotId(1), t(0.0), t(5.0)).unwrap();
    assert_eq!(mgr.reservation_count(), 3);
    mgr.release_all(RobotId(1));
    assert_eq!(mgr.reservation_count(), 0);
}

#[test]
fn test_release_specific() {
    let mut mgr = ReservationManager::new_enabled();
    let edge1 = ReservableResource::Edge(EdgeId(1));
    let edge2 = ReservableResource::Edge(EdgeId(2));
    mgr.reserve(edge1.clone(), RobotId(1), t(0.0), t(10.0)).unwrap();
    mgr.reserve(edge2.clone(), RobotId(1), t(0.0), t(10.0)).unwrap();
    assert_eq!(mgr.reservation_count(), 2);
    mgr.release(&edge1, RobotId(1));
    assert_eq!(mgr.reservation_count(), 1);
    assert!(mgr.can_reserve(&edge1, RobotId(2), t(0.0), t(10.0)));
    assert!(!mgr.can_reserve(&edge2, RobotId(2), t(0.0), t(10.0)));
}

#[test]
fn test_cleanup_expired() {
    let mut mgr = ReservationManager::new_enabled();
    mgr.reserve(ReservableResource::Edge(EdgeId(1)), RobotId(1), t(0.0), t(10.0)).unwrap();
    mgr.reserve(ReservableResource::Edge(EdgeId(2)), RobotId(1), t(5.0), t(15.0)).unwrap();
    mgr.reserve(ReservableResource::Edge(EdgeId(3)), RobotId(1), t(10.0), t(20.0)).unwrap();
    assert_eq!(mgr.reservation_count(), 3);
    mgr.cleanup_expired(t(10.0));
    assert_eq!(mgr.reservation_count(), 2);
    mgr.cleanup_expired(t(15.0));
    assert_eq!(mgr.reservation_count(), 1);
}

#[test]
fn test_get_conflicts() {
    let mut mgr = ReservationManager::new_enabled();
    mgr.reserve(ReservableResource::Edge(EdgeId(1)), RobotId(1), t(0.0), t(10.0)).unwrap();
    mgr.reserve(ReservableResource::Edge(EdgeId(1)), RobotId(2), t(15.0), t(25.0)).unwrap();
    let edge1 = ReservableResource::Edge(EdgeId(1));
    let conflicts = mgr.get_conflicts(&edge1, RobotId(3), t(5.0), t(12.0));
    assert_eq!(conflicts.len(), 1);
    assert_eq!(conflicts[0].robot_id, RobotId(1));
    let conflicts = mgr.get_conflicts(&edge1, RobotId(3), t(5.0), t(20.0));
    assert_eq!(conflicts.len(), 2);
    let conflicts = mgr.get_conflicts(&edge1, RobotId(1), t(0.0), t(10.0));
    assert_eq!(conflicts.len(), 0);
}

#[test]
fn test_node_reservations() {
    let mut mgr = ReservationManager::new_enabled();
    let node = ReservableResource::Node(NodeId(5));
    mgr.reserve(node.clone(), RobotId(1), t(0.0), t(10.0)).unwrap();
    assert!(!mgr.can_reserve(&node, RobotId(2), t(5.0), t(15.0)));
    assert!(mgr.can_reserve(&node, RobotId(2), t(10.0), t(20.0)));
}

#[test]
fn test_get_robot_reservations() {
    let mut mgr = ReservationManager::new_enabled();
    mgr.reserve(ReservableResource::Edge(EdgeId(1)), RobotId(1), t(0.0), t(10.0)).unwrap();
    mgr.reserve(ReservableResource::Edge(EdgeId(2)), RobotId(1), t(10.0), t(20.0)).unwrap();
    mgr.reserve(ReservableResource::Edge(EdgeId(3)), RobotId(2), t(0.0), t(10.0)).unwrap();
    assert_eq!(mgr.get_robot_reservations(RobotId(1)).len(), 2);
    assert_eq!(mgr.get_robot_reservations(RobotId(2)).len(), 1);
    assert_eq!(mgr.get_robot_reservations(RobotId(3)).len(), 0);
}

#[test]
fn first_conflict_in_order_wins_and_nothing_changes() {
    let mut mgr = ReservationManager::new_enabled();
    let e = ReservableResource::Edge(EdgeId(4));
    mgr.reserve(e, RobotId(1), t(0.0), t(10.0)).unwrap();
    mgr.reserve(e, RobotId(2), t(10.0), t(20.0)).unwrap();
    mgr.reserve(ReservableResource::Node(NodeId(4)), RobotId(3), t(0.0), t(50.0)).unwrap();
    let c = mgr.reserve(e, RobotId(3), t(5.0), t(15.0)).unwrap_err();
    assert_eq!(c.conflicting_robot, RobotId(1));
    assert_eq!(c.resource, e);
    assert_eq!(mgr.reservation_count(), 3);
    assert!(mgr.has_reservations(&e, t(19.0), t(30.0)));
    assert!(!mgr.has_reservations(&e, t(20.0), t(30.0)));
    mgr.release_all(RobotId(1));
    let c = mgr.reserve(e, RobotId(3), t(5.0), t(15.0)).unwrap_err();
    assert_eq!(c.conflicting_robot, RobotId(2));
    assert_eq!(mgr.get_robot_reservations(RobotId(2))[0].start_time, t(10.0));
    assert_eq!(ReservationManager::default().reservation_count(), 0);
}

#[test]
fn map_kinds_default() {
    assert_eq!(EdgeDirection::default(), EdgeDirection::Bidirectional);
    assert_eq!(NodeType::default(), NodeType::Aisle);
    assert_eq!(RoutingAlgorithm::default(), RoutingAlgorithm::Dijkstra);
}
