use waremax::entities::{OrderLine, OrderStatus, RobotState, Station, StationType, TaskStatus, TaskType};
use waremax::ids::{NodeId, RobotId, SkuId, StationId};

fn station(capacity: Option<u32>, concurrency: u32) -> Station {
    Station::new(StationId(1), "S1".to_string(), NodeId(2), StationType::Pick, concurrency, capacity)
}

#[test]
fn entity_defaults() {
    assert_eq!(OrderStatus::default(), OrderStatus::Pending);
    assert_eq!(RobotState::default(), RobotState::Idle);
    assert_eq!(StationType::default(), StationType::Pick);
    assert_eq!(TaskType::default(), TaskType::Pick);
    assert_eq!(TaskStatus::default(), TaskStatus::Pending);
    let line = OrderLine::new(SkuId(3), 4);
    assert_eq!(line.sku_id, SkuId(3));
    assert_eq!(line.quantity, 4);
}

#[test]
fn station_serves_in_arrival_order() {
    let mut s = station(None, 1);
    s.enqueue(RobotId(1));
    s.enqueue(RobotId(2));
    assert_eq!(s.queue_length(), 2);
    assert_eq!(s.max_queue_length, 2);
    assert_eq!(s.start_service(), Some(RobotId(1)));
    assert_eq!(s.start_service(), None); // concurrency 1
    assert!(s.is_robot_being_served(RobotId(1)));
    assert!(s.is_robot_in_queue(RobotId(2)));
    assert!(s.end_service(RobotId(1)));
    assert_eq!(s.total_served, 1);
    assert!(!s.end_service(RobotId(1)));
    assert_eq!(s.start_service(), Some(RobotId(2)));
    assert_eq!(s.serving_count(), 1);
    assert_eq!(s.queue_length(), 0);
    assert_eq!(s.max_queue_length, 2);
}

#[test]
fn station_capacity_limits() {
    let mut s = station(Some(1), 0);
    assert!(s.can_accept());
    s.enqueue(RobotId(5));
    assert!(!s.can_accept());
    assert!(!s.can_serve());
    assert_eq!(s.start_service(), None);
    assert_eq!(s.queue_length(), 1);
}
