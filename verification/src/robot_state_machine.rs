//! The rules by which events move a robot from state to state.
//!
//! A transition that the rules do not allow is refused; the caller then
//! drops the event and leaves the robot as it was.

use vstd::prelude::*;

use crate::entities::RobotState;
use crate::event::{event_name, SimEvent};
use crate::ids::{ChargingStationId, MaintenanceStationId, NodeId};

verus! {

/// Validates robot state transitions against a fixed set of rules.
#[derive(Debug, Clone, Copy)]
pub struct RobotStateMachinePolicy;

/// A transition the rules do not allow: the state the robot was in and the
/// kind of event that arrived.
///
/// The error carries the state itself, not a text of it, and the event by
/// the name of its kind (`event_type_name`), not a debug print of the whole
/// event with its fields; a caller that wants a message formats these.
#[derive(Debug, Clone, Copy)]
pub struct InvalidTransitionError {
    pub from: RobotState,
    pub event: &'static str,
}

/// The event changes nothing about a robot's state, whatever the state.
pub open spec fn leaves_state(e: SimEvent) -> bool {
    match e {
        SimEvent::RobotDepartNode { .. } => true,
        SimEvent::RobotWaitStart { .. } => true,
        SimEvent::DispatchTasks => true,
        SimEvent::OrderArrival { .. } => true,
        SimEvent::InventoryUpdate { .. } => true,
        SimEvent::InboundArrival { .. } => true,
        SimEvent::PutawayTaskCreated { .. } => true,
        SimEvent::OutboundReady { .. } => true,
        SimEvent::ShipmentDeparture { .. } => true,
        SimEvent::ReplenishmentTrigger { .. } => true,
        SimEvent::MetricsSampleTick => true,
        SimEvent::DeadlockDetected { .. } => true,
        SimEvent::DeadlockResolved { .. } => true,
        SimEvent::RobotMaintenanceDue { .. } => true,
        _ => false,
    }
}

/// A robot in this state can fail.
pub open spec fn can_fail(s: RobotState) -> bool {
    match s {
        RobotState::Idle => true,
        RobotState::Moving { .. } => true,
        RobotState::Waiting { .. } => true,
        RobotState::Servicing { .. } => true,
        RobotState::PickingUp { .. } => true,
        _ => false,
    }
}

/// The state an event moves a robot to, or `None` when the rules do not
/// allow the event in that state. The first rule that applies decides:
/// a task assignment sets an idle robot moving; arrivals, service and
/// pickup ends, charging ends and maintenance ends return a robot to idle;
/// a robot seeking a charger or maintenance starts charging or maintenance
/// on arrival; a failure stops an idle or working robot; an idle robot can
/// start charging or seek a charger when its battery runs low; events that
/// do not concern a robot's motion leave any state as it is.
pub open spec fn robot_transition(current: RobotState, event: SimEvent) -> Option<RobotState> {
    match (current, event) {
        (RobotState::Idle, SimEvent::TaskAssignment { .. }) => Some(
            RobotState::Moving { destination: NodeId(0) },
        ),
        (RobotState::Moving { .. }, SimEvent::RobotArriveNode { .. }) => Some(RobotState::Idle),
        (RobotState::Moving { .. }, SimEvent::StationServiceStart { .. }) => Some(RobotState::Idle),
        (RobotState::Moving { .. }, SimEvent::RobotPickup { .. }) => Some(RobotState::Idle),
        (RobotState::Waiting { .. }, SimEvent::RobotWaitEnd { .. }) => Some(
            RobotState::Moving { destination: NodeId(0) },
        ),
        (RobotState::Servicing { .. }, SimEvent::StationServiceEnd { .. }) => Some(
            RobotState::Idle,
        ),
        (RobotState::PickingUp { .. }, SimEvent::RobotPickup { .. }) => Some(RobotState::Idle),
        (RobotState::Charging { .. }, SimEvent::RobotChargingEnd { .. }) => Some(RobotState::Idle),
        (RobotState::SeekingCharge { destination }, SimEvent::RobotArriveNode { .. }) => Some(
            RobotState::Charging { at_station: destination },
        ),
        (RobotState::Failed, SimEvent::MaintenanceStart { .. }) => Some(
            RobotState::InMaintenance { at_station: MaintenanceStationId(0), is_repair: true },
        ),
        (RobotState::InMaintenance { .. }, SimEvent::MaintenanceEnd { .. }) => Some(
            RobotState::Idle,
        ),
        (
            RobotState::SeekingMaintenance { destination, is_repair },
            SimEvent::RobotArriveNode { .. },
        ) => Some(RobotState::InMaintenance { at_station: destination, is_repair }),
        (s, SimEvent::RobotFailure { .. }) if can_fail(s) => Some(RobotState::Failed),
        (RobotState::Idle, SimEvent::RobotChargingStart { station_id, .. }) => Some(
            RobotState::Charging { at_station: station_id },
        ),
        (RobotState::Idle, SimEvent::RobotLowBattery { .. }) => Some(
            RobotState::SeekingCharge { destination: ChargingStationId(0) },
        ),
        (s, e) => if leaves_state(e) {
            Some(s)
        } else {
            None
        },
    }
}

/// The result of a transition: the next state when the rules allow it, a
/// refusal naming the state and the event's kind otherwise.
pub open spec fn transition_result(
    current: RobotState,
    event: SimEvent,
    r: Result<RobotState, InvalidTransitionError>,
) -> bool {
    match robot_transition(current, event) {
        Some(next) => r == Ok::<RobotState, InvalidTransitionError>(next),
        None => match r {
            Ok(_) => false,
            Err(e) => e.from == current && e.event@ == event_name(event),
        },
    }
}

/// The documented transitions are accepted, each to its documented state:
/// an idle robot given a task starts moving; a moving robot that arrives,
/// starts service or picks up becomes idle; a waiting robot whose wait ends
/// moves on; a robot whose service, pickup, charging or maintenance ends
/// becomes idle; a robot seeking a charger or maintenance that arrives
/// charges or is maintained at its destination; a failed robot whose
/// maintenance starts is in repair; an idle or working robot that fails is
/// failed; an idle robot starts charging where told, or seeks a charger on
/// low battery; and events that do not concern a robot's motion leave any
/// state as it is. Every other pair is refused, and a refusal names the
/// state it was refused in and the kind of event.
pub proof fn law_documented_transitions_accepted(
    current: RobotState,
    event: SimEvent,
    r: Result<RobotState, InvalidTransitionError>,
)
    requires
        transition_result(current, event, r),
    ensures
        current is Idle && event is TaskAssignment ==> r == Ok::<RobotState, InvalidTransitionError>(
            RobotState::Moving { destination: NodeId(0) },
        ),
        current is Moving && (event is RobotArriveNode || event is StationServiceStart
            || event is RobotPickup) ==> r == Ok::<RobotState, InvalidTransitionError>(
            RobotState::Idle,
        ),
        current is Waiting && event is RobotWaitEnd ==> r == Ok::<RobotState, InvalidTransitionError>(
            RobotState::Moving { destination: NodeId(0) },
        ),
        current is Servicing && event is StationServiceEnd ==> r == Ok::<
            RobotState,
            InvalidTransitionError,
        >(RobotState::Idle),
        current is PickingUp && event is RobotPickup ==> r == Ok::<RobotState, InvalidTransitionError>(
            RobotState::Idle,
        ),
        current is Charging && event is RobotChargingEnd ==> r == Ok::<
            RobotState,
            InvalidTransitionError,
        >(RobotState::Idle),
        current is InMaintenance && event is MaintenanceEnd ==> r == Ok::<
            RobotState,
            InvalidTransitionError,
        >(RobotState::Idle),
        current matches RobotState::SeekingCharge { destination } ==> (event is RobotArriveNode
            ==> r == Ok::<RobotState, InvalidTransitionError>(
            RobotState::Charging { at_station: destination },
        )),
        current matches RobotState::SeekingMaintenance { destination, is_repair } ==> (
        event is RobotArriveNode ==> r == Ok::<RobotState, InvalidTransitionError>(
            RobotState::InMaintenance { at_station: destination, is_repair },
        )),
        current is Failed && event is MaintenanceStart ==> r == Ok::<RobotState, InvalidTransitionError>(
            RobotState::InMaintenance { at_station: MaintenanceStationId(0), is_repair: true },
        ),
        (current is Idle || current is Moving || current is Waiting || current is Servicing
            || current is PickingUp) && event is RobotFailure ==> r == Ok::<
            RobotState,
            InvalidTransitionError,
        >(RobotState::Failed),
        event matches SimEvent::RobotChargingStart { station_id, .. } ==> (current is Idle ==> r
            == Ok::<RobotState, InvalidTransitionError>(
            RobotState::Charging { at_station: station_id },
        )),
        current is Idle && event is RobotLowBattery ==> r == Ok::<RobotState, InvalidTransitionError>(
            RobotState::SeekingCharge { destination: ChargingStationId(0) },
        ),
        (event is RobotDepartNode || event is RobotWaitStart || event is DispatchTasks
            || event is OrderArrival || event is InventoryUpdate || event is InboundArrival
            || event is PutawayTaskCreated || event is OutboundReady || event is ShipmentDeparture
            || event is ReplenishmentTrigger || event is MetricsSampleTick
            || event is DeadlockDetected || event is DeadlockResolved
            || event is RobotMaintenanceDue) ==> r == Ok::<RobotState, InvalidTransitionError>(
            current,
        ),
        r matches Err(e) ==> (e.from == current && e.event@ == event_name(event)),
        r is Ok ==> {
            ||| current is Idle && (event is TaskAssignment || event is RobotChargingStart
                || event is RobotLowBattery)
            ||| current is Moving && (event is RobotArriveNode || event is StationServiceStart
                || event is RobotPickup)
            ||| current is Waiting && event is RobotWaitEnd
            ||| current is Servicing && event is StationServiceEnd
            ||| current is PickingUp && event is RobotPickup
            ||| current is Charging && event is RobotChargingEnd
            ||| (current is SeekingCharge || current is SeekingMaintenance) && event is RobotArriveNode
            ||| current is Failed && event is MaintenanceStart
            ||| current is InMaintenance && event is MaintenanceEnd
            ||| (current is Idle || current is Moving || current is Waiting || current is Servicing
                || current is PickingUp) && event is RobotFailure
            ||| event is RobotDepartNode || event is RobotWaitStart || event is DispatchTasks
                || event is OrderArrival || event is InventoryUpdate || event is InboundArrival
                || event is PutawayTaskCreated || event is OutboundReady || event is ShipmentDeparture
                || event is ReplenishmentTrigger || event is MetricsSampleTick
                || event is DeadlockDetected || event is DeadlockResolved
                || event is RobotMaintenanceDue
        },
{
}

impl RobotStateMachinePolicy {
    /// The state `event` moves a robot in state `current` to, or a refusal.
    pub fn transition(&self, current: &RobotState, event: &SimEvent) -> (r: Result<
        RobotState,
        InvalidTransitionError,
    >)
        ensures
            transition_result(*current, *event, r),
    {
        match (current, event) {
            (RobotState::Idle, SimEvent::TaskAssignment { .. }) => Ok(
                RobotState::Moving { destination: NodeId(0) },
            ),
            (RobotState::Moving { .. }, SimEvent::RobotArriveNode { .. }) => Ok(RobotState::Idle),
            (RobotState::Moving { .. }, SimEvent::StationServiceStart { .. }) => Ok(
                RobotState::Idle,
            ),
            (RobotState::Moving { .. }, SimEvent::RobotPickup { .. }) => Ok(RobotState::Idle),
            (RobotState::Waiting { .. }, SimEvent::RobotWaitEnd { .. }) => Ok(
                RobotState::Moving { destination: NodeId(0) },
            ),
            (RobotState::Servicing { .. }, SimEvent::StationServiceEnd { .. }) => Ok(
                RobotState::Idle,
            ),
            (RobotState::PickingUp { .. }, SimEvent::RobotPickup { .. }) => Ok(RobotState::Idle),
            (RobotState::Charging { .. }, SimEvent::RobotChargingEnd { .. }) => Ok(
                RobotState::Idle,
            ),
            (RobotState::SeekingCharge { destination }, SimEvent::RobotArriveNode { .. }) => Ok(
                RobotState::Charging { at_station: *destination },
            ),
            (RobotState::Failed, SimEvent::MaintenanceStart { .. }) => Ok(
                RobotState::InMaintenance { at_station: MaintenanceStationId(0), is_repair: true },
            ),
            (RobotState::InMaintenance { .. }, SimEvent::MaintenanceEnd { .. }) => Ok(
                RobotState::Idle,
            ),
            (
                RobotState::SeekingMaintenance { destination, is_repair },
                SimEvent::RobotArriveNode { .. },
            ) => Ok(RobotState::InMaintenance { at_station: *destination, is_repair: *is_repair }),
            (
                RobotState::Idle
                | RobotState::Moving { .. }
                | RobotState::Waiting { .. }
                | RobotState::Servicing { .. }
                | RobotState::PickingUp { .. },
                SimEvent::RobotFailure { .. },
            ) => Ok(RobotState::Failed),
            (RobotState::Idle, SimEvent::RobotChargingStart { station_id, .. }) => Ok(
                RobotState::Charging { at_station: *station_id },
            ),
            (RobotState::Idle, SimEvent::RobotLowBattery { .. }) => Ok(
                RobotState::SeekingCharge { destination: ChargingStationId(0) },
            ),
            (
                s,
                SimEvent::RobotDepartNode { .. }
                | SimEvent::RobotWaitStart { .. }
                | SimEvent::DispatchTasks
                | SimEvent::OrderArrival { .. }
                | SimEvent::InventoryUpdate { .. }
                | SimEvent::InboundArrival { .. }
                | SimEvent::PutawayTaskCreated { .. }
                | SimEvent::OutboundReady { .. }
                | SimEvent::ShipmentDeparture { .. }
                | SimEvent::ReplenishmentTrigger { .. }
                | SimEvent::MetricsSampleTick
                | SimEvent::DeadlockDetected { .. }
                | SimEvent::DeadlockResolved { .. }
                | SimEvent::RobotMaintenanceDue { .. },
            ) => Ok(*s),
            (from, event) => Err(InvalidTransitionError { from: *from, event: event.event_type_name() }),
        }
    }

    /// The policy's name.
    pub fn name(&self) -> (r: &'static str)
        ensures
            r@ == "robot_state_machine"@,
    {
        "robot_state_machine"
    }
}

} // verus!
