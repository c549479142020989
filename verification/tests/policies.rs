use waremax::entities::{StationType, TaskType};
use waremax::ids::{NodeId, RobotId, StationId, TaskId};
use waremax::policies::{
    DueTimePolicy, FifoPolicy, LeastBusyPolicy, LeastQueuePolicy, NearestEmptyBinPolicy,
    NearestRobotPolicy, NearestStationPolicy, NoBatchingPolicy, RoundRobinPolicy,
    StrictPriorityPolicy, TrafficAction, WaitAtNodePolicy, WeightedFairPolicy,
    WorkloadBalancedPolicy,
};
use waremax::resolution::{
    DeadlockContext, DeadlockResolution, LowestPriorityAborts, TieredResolver, YoungestRobotBacksUp,
};

#[test]
fn allocation_test_policy_names() {
    assert_eq!(NearestRobotPolicy::new().name(), "nearest_robot");
    assert_eq!(RoundRobinPolicy::new().name(), "round_robin");
    assert_eq!(LeastBusyPolicy::new().name(), "least_busy");
}

#[test]
fn priority_test_policy_names() {
    assert_eq!(StrictPriorityPolicy::new().name(), "strict_priority");
    assert_eq!(FifoPolicy::new().name(), "fifo");
    assert_eq!(DueTimePolicy::new().name(), "due_time");
}

#[test]
fn station_test_policy_names() {
    assert_eq!(LeastQueuePolicy::default().name(), "least_queue");
    assert_eq!(NearestStationPolicy::default().name(), "nearest_station");
}

#[test]
fn test_wait_at_node_always_waits() {
    let policy = WaitAtNodePolicy::new();
    assert_eq!(policy.name(), "wait_at_node");
    assert_eq!(policy.on_blocked(), TrafficAction::Wait);
}

#[test]
fn test_round_robin_cycles() {
    let mut policy = RoundRobinPolicy::new();
    // Available robots in an arbitrary order: the policy sorts them by id.
    let available = [RobotId(2), RobotId(0), RobotId(1)];
    assert_eq!(policy.allocate(&available), Some(RobotId(0)));
    assert_eq!(policy.allocate(&available), Some(RobotId(1)));
    assert_eq!(policy.allocate(&available), Some(RobotId(2)));
    assert_eq!(policy.allocate(&available), Some(RobotId(0)));
}

#[test]
fn test_round_robin_no_available() {
    let mut policy = RoundRobinPolicy::new();
    assert_eq!(policy.allocate(&[]), None);
    // The counter did not move: the next allocation starts at the first robot.
    assert_eq!(policy.allocate(&[RobotId(5), RobotId(3)]), Some(RobotId(3)));
}

#[test]
fn test_least_busy_selects_smallest_queue() {
    let policy = LeastBusyPolicy::new();
    let candidates = [(RobotId(0), 2), (RobotId(1), 1), (RobotId(2), 0)];
    assert_eq!(policy.allocate(&candidates), Some(RobotId(2)));
}

#[test]
fn least_busy_takes_first_of_equals() {
    let policy = LeastBusyPolicy::default();
    assert_eq!(policy.allocate(&[(RobotId(4), 1), (RobotId(2), 1)]), Some(RobotId(4)));
    assert_eq!(policy.allocate(&[]), None);
}

#[test]
fn test_least_queue_selects_shortest() {
    let policy = LeastQueuePolicy::default();
    let stations = [
        (StationId(0), StationType::Pick, true, 3),
        (StationId(1), StationType::Pick, true, 1),
        (StationId(2), StationType::Pick, true, 2),
    ];
    assert_eq!(policy.assign(&stations), Some(StationId(1)));
}

#[test]
fn least_queue_skips_wrong_type_and_full() {
    let policy = LeastQueuePolicy::new(StationType::Drop);
    let stations = [
        (StationId(0), StationType::Pick, true, 0),
        (StationId(1), StationType::Drop, false, 0),
        (StationId(2), StationType::Drop, true, 5),
    ];
    assert_eq!(policy.assign(&stations), Some(StationId(2)));
    assert_eq!(policy.assign(&stations[..2]), None);
}

#[test]
fn test_no_batching_creates_individual_batches() {
    let policy = NoBatchingPolicy::new();
    let pending = vec![TaskId(0), TaskId(1), TaskId(2)];
    let batches = policy.batch(&pending);
    assert_eq!(batches.len(), 3);
    assert_eq!(batches[0], vec![TaskId(0)]);
    assert_eq!(batches[1], vec![TaskId(1)]);
    assert_eq!(batches[2], vec![TaskId(2)]);
    assert_eq!(policy.name(), "none");
}

#[test]
fn strict_priority_orders_stably() {
    let policy = StrictPriorityPolicy::new();
    let entries = [
        (TaskId(1), Some(TaskType::Putaway)),
        (TaskId(2), Some(TaskType::Pick)),
        (TaskId(3), None),
        (TaskId(4), Some(TaskType::Replenishment)),
        (TaskId(5), Some(TaskType::Pick)),
    ];
    assert_eq!(
        policy.prioritize(&entries),
        vec![TaskId(2), TaskId(5), TaskId(4), TaskId(1), TaskId(3)]
    );
    assert_eq!(StrictPriorityPolicy::task_priority(&TaskType::Replenishment), 1);
}

#[test]
fn weighted_fair_weights() {
    let p = WeightedFairPolicy::default();
    assert_eq!(p.task_weight(&TaskType::Pick), 1);
    assert_eq!(p.task_weight(&TaskType::Putaway), 2);
    assert_eq!(p.task_weight(&TaskType::Replenishment), 3);
    assert_eq!(p.name(), "weighted_fair");
    assert_eq!(WeightedFairPolicy::new(4, 5, 6).task_weight(&TaskType::Putaway), 5);
}

#[test]
fn other_policy_settings() {
    assert!(WorkloadBalancedPolicy::default().include_travel());
    assert!(!WorkloadBalancedPolicy::new(false).include_travel());
    assert_eq!(WorkloadBalancedPolicy::new(false).name(), "workload_balanced");
    assert_eq!(NearestEmptyBinPolicy::new().name(), "nearest_empty_bin");
    assert_eq!(NearestStationPolicy::new(StationType::Inbound).station_type(), StationType::Inbound);
    assert_eq!(NearestStationPolicy::for_pick().station_type(), StationType::Pick);
}

#[test]
fn test_youngest_robot_backs_up() {
    let resolver = YoungestRobotBacksUp::new();
    let ctx = DeadlockContext::new(vec![RobotId(1), RobotId(5), RobotId(3)])
        .with_previous(RobotId(5), Some(NodeId(100)));
    match resolver.resolve(&ctx) {
        DeadlockResolution::BackUp { robot, to_node } => {
            assert_eq!(robot, RobotId(5));
            assert_eq!(to_node, NodeId(100));
        }
        _ => panic!("Expected BackUp resolution"),
    }
}

#[test]
fn test_youngest_falls_back_to_abort() {
    let resolver = YoungestRobotBacksUp::new();
    let ctx = DeadlockContext::new(vec![RobotId(1), RobotId(5), RobotId(3)]);
    match resolver.resolve(&ctx) {
        DeadlockResolution::AbortTask { robot } => assert_eq!(robot, RobotId(5)),
        _ => panic!("Expected AbortTask resolution"),
    }
}

#[test]
fn test_lowest_priority_aborts() {
    let resolver = LowestPriorityAborts::new();
    let ctx = DeadlockContext::new(vec![RobotId(1), RobotId(2), RobotId(3)])
        .with_priority(RobotId(1), 1)
        .with_priority(RobotId(2), 10)
        .with_priority(RobotId(3), 5);
    match resolver.resolve(&ctx) {
        DeadlockResolution::AbortTask { robot } => assert_eq!(robot, RobotId(2)),
        _ => panic!("Expected AbortTask resolution"),
    }
}

#[test]
fn test_tiered_resolver() {
    let resolver = TieredResolver::new();
    let ctx1 = DeadlockContext::new(vec![RobotId(1), RobotId(3)])
        .with_previous(RobotId(3), Some(NodeId(50)));
    match resolver.resolve(&ctx1) {
        DeadlockResolution::BackUp { robot, .. } => assert_eq!(robot, RobotId(3)),
        _ => panic!("Expected BackUp resolution"),
    }
    let ctx2 = DeadlockContext::new(vec![RobotId(1), RobotId(3)])
        .with_priority(RobotId(1), 5)
        .with_priority(RobotId(3), 1);
    match resolver.resolve(&ctx2) {
        DeadlockResolution::AbortTask { robot } => assert_eq!(robot, RobotId(1)),
        _ => panic!("Expected AbortTask resolution"),
    }
}

#[test]
fn tiered_backs_up_first_able_robot() {
    let ctx = DeadlockContext::new(vec![RobotId(4), RobotId(2), RobotId(9)])
        .with_previous(RobotId(2), Some(NodeId(7)))
        .with_previous(RobotId(4), Some(NodeId(8)));
    assert_eq!(
        TieredResolver::default().resolve(&ctx),
        DeadlockResolution::BackUp { robot: RobotId(4), to_node: NodeId(8) }
    );
}

#[test]
fn context_queries() {
    let ctx = DeadlockContext::new(vec![])
        .with_position(RobotId(1), NodeId(3))
        .with_previous(RobotId(1), None)
        .with_previous(RobotId(1), Some(NodeId(4)))
        .with_priority(RobotId(1), 7)
        .with_priority(RobotId(2), 7);
    assert_eq!(ctx.youngest_robot(), None);
    assert_eq!(ctx.get_previous_node(RobotId(1)), None);
    assert_eq!(ctx.get_previous_node(RobotId(9)), None);
    assert_eq!(ctx.lowest_priority_robot(), Some(RobotId(2)));
    assert_eq!(ctx.positions, vec![(RobotId(1), NodeId(3))]);
    assert_eq!(LowestPriorityAborts::default().resolve(&ctx), DeadlockResolution::AbortTask { robot: RobotId(2) });
    assert_eq!(YoungestRobotBacksUp::default().name(), "youngest_backs_up");
    assert_eq!(LowestPriorityAborts::new().name(), "lowest_priority_aborts");
    assert_eq!(TieredResolver::new().name(), "tiered");
}
