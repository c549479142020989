//! Simulation events of the discrete-event simulation.

use vstd::prelude::*;

use crate::ids::{
    BinId, ChargingStationId, EdgeId, MaintenanceStationId, NodeId, OrderId, RobotId, ShipmentId,
    SkuId, StationId, TaskId,
};

verus! {

/// All simulation events.
///
/// The real-valued payloads (energy charged, state of charge, operating
/// hours, a duration) are carried as the bit patterns of their IEEE-754
/// double values (`f64::to_bits`): events only carry them, nothing here
/// computes with them.
#[derive(Clone, Debug)]
pub enum SimEvent {
    /// A new order arrives.
    OrderArrival { order_id: OrderId },
    /// A task is assigned to a robot.
    TaskAssignment { task_id: TaskId, robot_id: RobotId },
    /// A robot leaves a node along an edge.
    RobotDepartNode { robot_id: RobotId, from_node: NodeId, to_node: NodeId, edge_id: EdgeId },
    /// A robot reaches a node.
    RobotArriveNode { robot_id: RobotId, node_id: NodeId, from_node: NodeId },
    /// A robot starts being served at a station.
    StationServiceStart { robot_id: RobotId, station_id: StationId, task_id: TaskId },
    /// A robot's service at a station ends.
    StationServiceEnd { robot_id: RobotId, station_id: StationId, task_id: TaskId },
    /// Stock changes (a pick takes, a putaway adds).
    InventoryUpdate { sku_id: SkuId, bin_id: BinId, delta: i32, task_id: TaskId },
    /// A robot starts waiting for an edge.
    RobotWaitStart { robot_id: RobotId, at_node: NodeId, waiting_for_edge: EdgeId },
    /// A robot's wait ends; it may try to go on.
    RobotWaitEnd { robot_id: RobotId, at_node: NodeId },
    /// A robot picks up at a bin.
    RobotPickup { robot_id: RobotId, task_id: TaskId, node_id: NodeId },
    /// Pending tasks should be dispatched to available robots.
    DispatchTasks,
    /// A shipment arrives at an inbound station.
    InboundArrival { shipment_id: ShipmentId, station_id: StationId },
    /// A putaway task is created for an inbound shipment.
    PutawayTaskCreated { task_id: TaskId, shipment_id: ShipmentId },
    /// An order is ready to go out (all picks done).
    OutboundReady { order_id: OrderId },
    /// A shipment leaves an outbound station.
    ShipmentDeparture { shipment_id: ShipmentId, station_id: StationId },
    /// Stock fell low enough to replenish.
    ReplenishmentTrigger { sku_id: SkuId, bin_id: BinId, current_qty: u32, threshold: u32 },
    /// A robot starts charging.
    RobotChargingStart { robot_id: RobotId, station_id: ChargingStationId },
    /// A robot finishes charging; `energy_charged_wh_bits` holds the energy (Wh).
    RobotChargingEnd {
        robot_id: RobotId,
        station_id: ChargingStationId,
        energy_charged_wh_bits: u64,
    },
    /// A robot's battery fell below its threshold; `soc_bits` holds the charge level.
    RobotLowBattery { robot_id: RobotId, soc_bits: u64 },
    /// Periodic metrics sampling.
    MetricsSampleTick,
    /// A deadlock among these robots was detected.
    DeadlockDetected { robots: Vec<RobotId> },
    /// A deadlock among `robots` was resolved by acting on `resolver_robot`.
    DeadlockResolved { robots: Vec<RobotId>, resolver_robot: RobotId },
    /// A robot failed, possibly interrupting a task.
    RobotFailure { robot_id: RobotId, interrupted_task: Option<TaskId> },
    /// A robot is due for maintenance; `operating_hours_bits` holds the hours run.
    RobotMaintenanceDue { robot_id: RobotId, operating_hours_bits: u64 },
    /// A robot starts maintenance, or repair when `is_repair`.
    MaintenanceStart { robot_id: RobotId, station_id: MaintenanceStationId, is_repair: bool },
    /// A robot's maintenance ends; `duration_s_bits` holds its length (seconds).
    MaintenanceEnd {
        robot_id: RobotId,
        station_id: MaintenanceStationId,
        is_repair: bool,
        duration_s_bits: u64,
    },
}

/// The name of an event's kind.
pub open spec fn event_name(e: SimEvent) -> Seq<char> {
    match e {
        SimEvent::OrderArrival { .. } => "order_arrival"@,
        SimEvent::TaskAssignment { .. } => "task_assignment"@,
        SimEvent::RobotDepartNode { .. } => "robot_depart_node"@,
        SimEvent::RobotArriveNode { .. } => "robot_arrive_node"@,
        SimEvent::StationServiceStart { .. } => "station_service_start"@,
        SimEvent::StationServiceEnd { .. } => "station_service_end"@,
        SimEvent::InventoryUpdate { .. } => "inventory_update"@,
        SimEvent::RobotWaitStart { .. } => "robot_wait_start"@,
        SimEvent::RobotWaitEnd { .. } => "robot_wait_end"@,
        SimEvent::RobotPickup { .. } => "robot_pickup"@,
        SimEvent::DispatchTasks => "dispatch_tasks"@,
        SimEvent::InboundArrival { .. } => "inbound_arrival"@,
        SimEvent::PutawayTaskCreated { .. } => "putaway_task_created"@,
        SimEvent::OutboundReady { .. } => "outbound_ready"@,
        SimEvent::ShipmentDeparture { .. } => "shipment_departure"@,
        SimEvent::ReplenishmentTrigger { .. } => "replenishment_trigger"@,
        SimEvent::RobotChargingStart { .. } => "robot_charging_start"@,
        SimEvent::RobotChargingEnd { .. } => "robot_charging_end"@,
        SimEvent::RobotLowBattery { .. } => "robot_low_battery"@,
        SimEvent::MetricsSampleTick => "metrics_sample_tick"@,
        SimEvent::DeadlockDetected { .. } => "deadlock_detected"@,
        SimEvent::DeadlockResolved { .. } => "deadlock_resolved"@,
        SimEvent::RobotFailure { .. } => "robot_failure"@,
        SimEvent::RobotMaintenanceDue { .. } => "robot_maintenance_due"@,
        SimEvent::MaintenanceStart { .. } => "maintenance_start"@,
        SimEvent::MaintenanceEnd { .. } => "maintenance_end"@,
    }
}

/// The robot an event concerns: the robot it names, or, for a resolved
/// deadlock, the robot that resolved it.
pub open spec fn event_robot(e: SimEvent) -> Option<RobotId> {
    match e {
        SimEvent::TaskAssignment { robot_id, .. } => Some(robot_id),
        SimEvent::RobotDepartNode { robot_id, .. } => Some(robot_id),
        SimEvent::RobotArriveNode { robot_id, .. } => Some(robot_id),
        SimEvent::StationServiceStart { robot_id, .. } => Some(robot_id),
        SimEvent::StationServiceEnd { robot_id, .. } => Some(robot_id),
        SimEvent::RobotWaitStart { robot_id, .. } => Some(robot_id),
        SimEvent::RobotWaitEnd { robot_id, .. } => Some(robot_id),
        SimEvent::RobotPickup { robot_id, .. } => Some(robot_id),
        SimEvent::RobotChargingStart { robot_id, .. } => Some(robot_id),
        SimEvent::RobotChargingEnd { robot_id, .. } => Some(robot_id),
        SimEvent::RobotLowBattery { robot_id, .. } => Some(robot_id),
        SimEvent::DeadlockResolved { resolver_robot, .. } => Some(resolver_robot),
        SimEvent::RobotFailure { robot_id, .. } => Some(robot_id),
        SimEvent::RobotMaintenanceDue { robot_id, .. } => Some(robot_id),
        SimEvent::MaintenanceStart { robot_id, .. } => Some(robot_id),
        SimEvent::MaintenanceEnd { robot_id, .. } => Some(robot_id),
        _ => None,
    }
}

/// The task an event names, if any.
pub open spec fn event_task(e: SimEvent) -> Option<TaskId> {
    match e {
        SimEvent::TaskAssignment { task_id, .. } => Some(task_id),
        SimEvent::StationServiceStart { task_id, .. } => Some(task_id),
        SimEvent::StationServiceEnd { task_id, .. } => Some(task_id),
        SimEvent::InventoryUpdate { task_id, .. } => Some(task_id),
        SimEvent::RobotPickup { task_id, .. } => Some(task_id),
        SimEvent::PutawayTaskCreated { task_id, .. } => Some(task_id),
        _ => None,
    }
}

/// The shipment an event names, if any.
pub open spec fn event_shipment(e: SimEvent) -> Option<ShipmentId> {
    match e {
        SimEvent::InboundArrival { shipment_id, .. } => Some(shipment_id),
        SimEvent::PutawayTaskCreated { shipment_id, .. } => Some(shipment_id),
        SimEvent::ShipmentDeparture { shipment_id, .. } => Some(shipment_id),
        _ => None,
    }
}

/// The charging station an event names, if any.
pub open spec fn event_charging_station(e: SimEvent) -> Option<ChargingStationId> {
    match e {
        SimEvent::RobotChargingStart { station_id, .. } => Some(station_id),
        SimEvent::RobotChargingEnd { station_id, .. } => Some(station_id),
        _ => None,
    }
}

/// The maintenance station an event names, if any.
pub open spec fn event_maintenance_station(e: SimEvent) -> Option<MaintenanceStationId> {
    match e {
        SimEvent::MaintenanceStart { station_id, .. } => Some(station_id),
        SimEvent::MaintenanceEnd { station_id, .. } => Some(station_id),
        _ => None,
    }
}

impl SimEvent {
    /// The name of this event's kind, such as "order_arrival".
    pub fn event_type_name(&self) -> (r: &'static str)
        ensures
            r@ == event_name(*self),
    {
        match self {
            SimEvent::OrderArrival { .. } => "order_arrival",
            SimEvent::TaskAssignment { .. } => "task_assignment",
            SimEvent::RobotDepartNode { .. } => "robot_depart_node",
            SimEvent::RobotArriveNode { .. } => "robot_arrive_node",
            SimEvent::StationServiceStart { .. } => "station_service_start",
            SimEvent::StationServiceEnd { .. } => "station_service_end",
            SimEvent::InventoryUpdate { .. } => "inventory_update",
            SimEvent::RobotWaitStart { .. } => "robot_wait_start",
            SimEvent::RobotWaitEnd { .. } => "robot_wait_end",
            SimEvent::RobotPickup { .. } => "robot_pickup",
            SimEvent::DispatchTasks => "dispatch_tasks",
            SimEvent::InboundArrival { .. } => "inbound_arrival",
            SimEvent::PutawayTaskCreated { .. } => "putaway_task_created",
            SimEvent::OutboundReady { .. } => "outbound_ready",
            SimEvent::ShipmentDeparture { .. } => "shipment_departure",
            SimEvent::ReplenishmentTrigger { .. } => "replenishment_trigger",
            SimEvent::RobotChargingStart { .. } => "robot_charging_start",
            SimEvent::RobotChargingEnd { .. } => "robot_charging_end",
            SimEvent::RobotLowBattery { .. } => "robot_low_battery",
            SimEvent::MetricsSampleTick => "metrics_sample_tick",
            SimEvent::DeadlockDetected { .. } => "deadlock_detected",
            SimEvent::DeadlockResolved { .. } => "deadlock_resolved",
            SimEvent::RobotFailure { .. } => "robot_failure",
            SimEvent::RobotMaintenanceDue { .. } => "robot_maintenance_due",
            SimEvent::MaintenanceStart { .. } => "maintenance_start",
            SimEvent::MaintenanceEnd { .. } => "maintenance_end",
        }
    }

    /// The robot this event concerns, if any.
    pub fn robot_id(&self) -> (r: Option<RobotId>)
        ensures
            r == event_robot(*self),
    {
        match self {
            SimEvent::TaskAssignment { robot_id, .. } => Some(*robot_id),
            SimEvent::RobotDepartNode { robot_id, .. } => Some(*robot_id),
            SimEvent::RobotArriveNode { robot_id, .. } => Some(*robot_id),
            SimEvent::StationServiceStart { robot_id, .. } => Some(*robot_id),
            SimEvent::StationServiceEnd { robot_id, .. } => Some(*robot_id),
            SimEvent::RobotWaitStart { robot_id, .. } => Some(*robot_id),
            SimEvent::RobotWaitEnd { robot_id, .. } => Some(*robot_id),
            SimEvent::RobotPickup { robot_id, .. } => Some(*robot_id),
            SimEvent::RobotChargingStart { robot_id, .. } => Some(*robot_id),
            SimEvent::RobotChargingEnd { robot_id, .. } => Some(*robot_id),
            SimEvent::RobotLowBattery { robot_id, .. } => Some(*robot_id),
            SimEvent::DeadlockResolved { resolver_robot, .. } => Some(*resolver_robot),
            SimEvent::RobotFailure { robot_id, .. } => Some(*robot_id),
            SimEvent::RobotMaintenanceDue { robot_id, .. } => Some(*robot_id),
            SimEvent::MaintenanceStart { robot_id, .. } => Some(*robot_id),
            SimEvent::MaintenanceEnd { robot_id, .. } => Some(*robot_id),
            _ => None,
        }
    }

    /// The task this event names, if any.
    pub fn task_id(&self) -> (r: Option<TaskId>)
        ensures
            r == event_task(*self),
    {
        match self {
            SimEvent::TaskAssignment { task_id, .. } => Some(*task_id),
            SimEvent::StationServiceStart { task_id, .. } => Some(*task_id),
            SimEvent::StationServiceEnd { task_id, .. } => Some(*task_id),
            SimEvent::InventoryUpdate { task_id, .. } => Some(*task_id),
            SimEvent::RobotPickup { task_id, .. } => Some(*task_id),
            SimEvent::PutawayTaskCreated { task_id, .. } => Some(*task_id),
            _ => None,
        }
    }

    /// The shipment this event names, if any.
    pub fn shipment_id(&self) -> (r: Option<ShipmentId>)
        ensures
            r == event_shipment(*self),
    {
        match self {
            SimEvent::InboundArrival { shipment_id, .. } => Some(*shipment_id),
            SimEvent::PutawayTaskCreated { shipment_id, .. } => Some(*shipment_id),
            SimEvent::ShipmentDeparture { shipment_id, .. } => Some(*shipment_id),
            _ => None,
        }
    }

    /// The charging station this event names, if any.
    pub fn charging_station_id(&self) -> (r: Option<ChargingStationId>)
        ensures
            r == event_charging_station(*self),
    {
        match self {
            SimEvent::RobotChargingStart { station_id, .. } => Some(*station_id),
            SimEvent::RobotChargingEnd { station_id, .. } => Some(*station_id),
            _ => None,
        }
    }

    /// The maintenance station this event names, if any.
    pub fn maintenance_station_id(&self) -> (r: Option<MaintenanceStationId>)
        ensures
            r == event_maintenance_station(*self),
    {
        match self {
            SimEvent::MaintenanceStart { station_id, .. } => Some(*station_id),
            SimEvent::MaintenanceEnd { station_id, .. } => Some(*station_id),
            _ => None,
        }
    }
}

} // verus!
