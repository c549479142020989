use waremax::entities::{
    ChargingStation, MaintenanceState, MaintenanceStation, Order, OrderLine, OrderStatus, Robot,
    RobotState,
};
use waremax::ids::{ChargingStationId, MaintenanceStationId, NodeId, OrderId, RobotId, SkuId, TaskId};

#[test]
fn order_progress() {
    let lines = vec![OrderLine::new(SkuId(1), 3), OrderLine::new(SkuId(2), 4)];
    let mut order = Order::new(OrderId(7), lines);
    assert_eq!(order.total_items(), 7);
    assert_eq!(order.total_lines(), 2);
    assert_eq!(order.tasks_total, 2);
    assert_eq!(order.status, OrderStatus::Pending);
    assert!(!order.all_tasks_complete());
    order.start();
    assert_eq!(order.status, OrderStatus::InProgress);
    order.mark_task_complete();
    assert!(!order.all_tasks_complete());
    order.mark_task_complete();
    assert!(order.all_tasks_complete());
    assert!(!order.is_complete());
    order.complete();
    assert!(order.is_complete());
    // Starting again does not reopen a completed order.
    order.start();
    assert_eq!(order.status, OrderStatus::Completed);

    let empty = Order::new(OrderId(8), vec![]);
    assert_eq!(empty.total_items(), 0);
    assert!(empty.all_tasks_complete());
}

#[test]
fn charging_station_bays_and_queue() {
    let mut cs = ChargingStation::new(ChargingStationId(1), "C1".to_string(), NodeId(5), 1)
        .with_queue_capacity(2);
    assert!(cs.can_accept());
    cs.enqueue(RobotId(1));
    cs.enqueue(RobotId(2));
    assert!(!cs.can_accept());
    assert_eq!(cs.max_queue_length, 2);
    assert!(cs.has_free_bay());
    assert!(cs.start_charging(RobotId(2)));
    assert_eq!(cs.queue_length(), 1);
    assert!(cs.is_robot_charging(RobotId(2)));
    assert!(!cs.is_robot_in_queue(RobotId(2)));
    assert!(cs.is_robot_in_queue(RobotId(1)));
    assert!(!cs.has_free_bay());
    assert!(!cs.start_charging(RobotId(1)));
    assert_eq!(cs.next_in_queue(), None);
    cs.end_charging(RobotId(2));
    assert_eq!(cs.total_robots_charged, 1);
    assert_eq!(cs.charging_count(), 0);
    assert_eq!(cs.next_in_queue(), Some(RobotId(1)));
    assert_eq!(cs.queue_length(), 0);
    assert_eq!(cs.max_queue_length, 2);
}

#[test]
fn maintenance_station_counts_repairs_and_maintenance() {
    let mut ms = MaintenanceStation::new(MaintenanceStationId(1), "M1".to_string(), NodeId(9), 2);
    assert!(ms.can_accept());
    ms.enqueue(RobotId(4));
    ms.enqueue(RobotId(4));
    assert!(ms.start_service(RobotId(4), true));
    assert_eq!(ms.queue_length(), 0);
    assert!(ms.start_service(RobotId(5), false));
    assert!(!ms.start_service(RobotId(6), false));
    assert_eq!(ms.servicing_count(), 2);
    assert!(ms.is_robot_servicing(RobotId(5)));
    ms.end_service(RobotId(4), true);
    ms.end_service(RobotId(5), false);
    assert_eq!(ms.total_repair_events, 1);
    assert_eq!(ms.total_maintenance_events, 1);
    assert!(!ms.is_robot_servicing(RobotId(4)));
    ms.enqueue(RobotId(8));
    assert_eq!(ms.next_in_queue(), Some(RobotId(8)));
    assert!(!ms.is_robot_in_queue(RobotId(8)));
}

#[test]
fn robot_follows_its_route() {
    let mut robot = Robot::new(RobotId(0), NodeId(10));
    assert!(robot.is_idle());
    assert!(robot.has_reached_destination());
    assert_eq!(robot.next_node_in_path(), None);
    robot.set_path(vec![NodeId(10), NodeId(11), NodeId(12)]);
    assert!(!robot.has_reached_destination());
    assert_eq!(robot.next_node_in_path(), Some(NodeId(11)));
    robot.advance_path();
    assert_eq!(robot.next_node_in_path(), Some(NodeId(12)));
    robot.advance_path();
    assert!(robot.has_reached_destination());
    assert_eq!(robot.next_node_in_path(), None);
    robot.advance_path();
    assert_eq!(robot.path_index, 2);
}

#[test]
fn robot_tasks_and_failures() {
    let mut robot = Robot::new(RobotId(1), NodeId(0));
    robot.assign_task(TaskId(3));
    robot.assign_task(TaskId(4));
    assert_eq!(robot.task_queue.len(), 2);
    robot.start_task(TaskId(3));
    assert_eq!(robot.current_task, Some(TaskId(3)));
    robot.mark_failed();
    assert!(robot.is_failed());
    assert_eq!(robot.tasks_interrupted_by_failure, 1);
    assert_eq!(robot.maintenance.failure_count, 1);
    robot.seeking_maintenance = true;
    robot.assigned_maintenance_station = Some(MaintenanceStationId(2));
    robot.complete_maintenance();
    assert!(!robot.is_failed());
    assert!(!robot.seeking_maintenance);
    assert_eq!(robot.assigned_maintenance_station, None);
    assert_eq!(robot.maintenance.maintenance_count, 1);
    robot.complete_task();
    assert_eq!(robot.current_task, None);
    assert_eq!(robot.tasks_completed, 1);
    robot.mark_failed();
    assert_eq!(robot.tasks_interrupted_by_failure, 1);
    assert!(!robot.has_maintenance());
    assert!(MaintenanceState::new().enabled);
    assert_eq!(MaintenanceState::default(), MaintenanceState::disabled());
    robot.state = RobotState::Failed;
    assert!(!robot.is_idle());
}

#[test]
fn robot_availability() {
    let mut robot = Robot::new(RobotId(2), NodeId(1));
    assert!(robot.is_available(false));
    // Untracked maintenance never makes the robot unavailable.
    assert!(robot.is_available(true));
    robot.maintenance = MaintenanceState::new();
    assert!(robot.is_available(false));
    assert!(!robot.is_available(true));
    robot.start_task(TaskId(1));
    assert!(!robot.is_available(false));
    robot.complete_task();
    assert!(robot.is_available(false));
    robot.mark_failed();
    assert!(!robot.is_available(false));
    robot.complete_maintenance();
    robot.state = RobotState::Moving { destination: NodeId(4) };
    assert!(!robot.is_available(false));
}

#[test]
fn robot_updates_leave_other_fields_alone() {
    let mut robot = Robot::new(RobotId(3), NodeId(7));
    robot.assign_task(TaskId(1));
    robot.start_task(TaskId(2));
    robot.set_path(vec![NodeId(7), NodeId(8)]);
    assert_eq!(robot.task_queue.len(), 1);
    assert_eq!(robot.current_task, Some(TaskId(2)));
    robot.advance_path();
    robot.complete_task();
    assert_eq!(robot.current_node, NodeId(7));
    assert_eq!(robot.path_index, 1);
    assert_eq!(robot.current_path, vec![NodeId(7), NodeId(8)]);
    assert_eq!(robot.task_queue.len(), 1);
    assert_eq!(robot.tasks_completed, 1);
    assert_eq!(robot.id, RobotId(3));
}
