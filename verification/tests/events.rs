use waremax::entities::RobotState;
use waremax::event::SimEvent;
use waremax::ids::{
    ChargingStationId, MaintenanceStationId, NodeId, OrderId, RobotId, ShipmentId, StationId,
    TaskId,
};
use waremax::robot_state_machine::RobotStateMachinePolicy;

#[test]
fn test_event_type_name() {
    let event = SimEvent::OrderArrival { order_id: OrderId(1) };
    assert_eq!(event.event_type_name(), "order_arrival");
}

#[test]
fn event_accessors() {
    let e = SimEvent::StationServiceEnd { robot_id: RobotId(3), station_id: StationId(1), task_id: TaskId(9) };
    assert_eq!(e.event_type_name(), "station_service_end");
    assert_eq!(e.robot_id(), Some(RobotId(3)));
    assert_eq!(e.task_id(), Some(TaskId(9)));
    assert_eq!(e.shipment_id(), None);

    let e = SimEvent::DeadlockResolved { robots: vec![RobotId(1), RobotId(2)], resolver_robot: RobotId(2) };
    assert_eq!(e.robot_id(), Some(RobotId(2)));
    assert_eq!(e.event_type_name(), "deadlock_resolved");

    let e = SimEvent::DeadlockDetected { robots: vec![RobotId(1)] };
    assert_eq!(e.robot_id(), None);

    let e = SimEvent::PutawayTaskCreated { task_id: TaskId(4), shipment_id: ShipmentId(8) };
    assert_eq!(e.task_id(), Some(TaskId(4)));
    assert_eq!(e.shipment_id(), Some(ShipmentId(8)));

    let e = SimEvent::RobotChargingEnd {
        robot_id: RobotId(0),
        station_id: ChargingStationId(5),
        energy_charged_wh_bits: 12.5f64.to_bits(),
    };
    assert_eq!(e.charging_station_id(), Some(ChargingStationId(5)));
    assert_eq!(e.maintenance_station_id(), None);

    let e = SimEvent::MaintenanceEnd {
        robot_id: RobotId(1),
        station_id: MaintenanceStationId(2),
        is_repair: false,
        duration_s_bits: 60.0f64.to_bits(),
    };
    assert_eq!(e.maintenance_station_id(), Some(MaintenanceStationId(2)));
    assert_eq!(e.event_type_name(), "maintenance_end");
    assert_eq!(SimEvent::DispatchTasks.event_type_name(), "dispatch_tasks");
    assert_eq!(SimEvent::MetricsSampleTick.robot_id(), None);
}

#[test]
fn test_idle_to_moving() {
    let sm = RobotStateMachinePolicy;
    let state = RobotState::Idle;
    let event = SimEvent::TaskAssignment { task_id: TaskId(1), robot_id: RobotId(0) };
    assert!(matches!(sm.transition(&state, &event).unwrap(), RobotState::Moving { .. }));
}

#[test]
fn test_invalid_transition_keeps_state() {
    let sm = RobotStateMachinePolicy;
    let state = RobotState::Idle;
    let event = SimEvent::StationServiceEnd { robot_id: RobotId(0), station_id: StationId(0), task_id: TaskId(0) };
    assert!(sm.transition(&state, &event).is_err());
}

#[test]
fn test_charging_to_idle() {
    let sm = RobotStateMachinePolicy;
    let state = RobotState::Charging { at_station: ChargingStationId(0) };
    let event = SimEvent::RobotChargingEnd {
        robot_id: RobotId(0),
        station_id: ChargingStationId(0),
        energy_charged_wh_bits: 100.0f64.to_bits(),
    };
    assert_eq!(sm.transition(&state, &event).unwrap(), RobotState::Idle);
}

#[test]
fn test_failed_to_maintenance() {
    let sm = RobotStateMachinePolicy;
    let state = RobotState::Failed;
    let event = SimEvent::MaintenanceStart {
        robot_id: RobotId(0),
        station_id: MaintenanceStationId(0),
        is_repair: true,
    };
    assert!(matches!(
        sm.transition(&state, &event).unwrap(),
        RobotState::InMaintenance { is_repair: true, .. }
    ));
}

#[test]
fn transitions_follow_the_rules() {
    let sm = RobotStateMachinePolicy;
    assert_eq!(sm.name(), "robot_state_machine");
    let arrive = SimEvent::RobotArriveNode { robot_id: RobotId(0), node_id: NodeId(4), from_node: NodeId(3) };
    let seeking = RobotState::SeekingMaintenance { destination: MaintenanceStationId(7), is_repair: false };
    assert_eq!(
        sm.transition(&seeking, &arrive).unwrap(),
        RobotState::InMaintenance { at_station: MaintenanceStationId(7), is_repair: false }
    );
    let to_charger = RobotState::SeekingCharge { destination: ChargingStationId(2) };
    assert_eq!(sm.transition(&to_charger, &arrive).unwrap(), RobotState::Charging { at_station: ChargingStationId(2) });

    let fail = SimEvent::RobotFailure { robot_id: RobotId(0), interrupted_task: None };
    assert_eq!(sm.transition(&RobotState::Waiting { for_edge: waremax::ids::EdgeId(1) }, &fail).unwrap(), RobotState::Failed);
    let charging = RobotState::Charging { at_station: ChargingStationId(1) };
    let err = sm.transition(&charging, &fail).unwrap_err();
    assert_eq!(err.from, charging);
    assert_eq!(err.event, "robot_failure");

    let start = SimEvent::RobotChargingStart { robot_id: RobotId(0), station_id: ChargingStationId(9) };
    assert_eq!(sm.transition(&RobotState::Idle, &start).unwrap(), RobotState::Charging { at_station: ChargingStationId(9) });
    let low = SimEvent::RobotLowBattery { robot_id: RobotId(0), soc_bits: 0.1f64.to_bits() };
    assert_eq!(
        sm.transition(&RobotState::Idle, &low).unwrap(),
        RobotState::SeekingCharge { destination: ChargingStationId(0) }
    );
    // Events that do not concern motion leave any state alone.
    let tick = SimEvent::MetricsSampleTick;
    assert_eq!(sm.transition(&charging, &tick).unwrap(), charging);
    assert_eq!(sm.transition(&RobotState::Failed, &SimEvent::DispatchTasks).unwrap(), RobotState::Failed);
}
