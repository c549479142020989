use waremax::analysis::RCAReporter;
use waremax::deadlock::{WaitForGraph, WaitingFor};
use waremax::entities::{MaintenanceState, Robot, RobotState, Station, StationType};
use waremax::ids::{EdgeId, NodeId, RobotId, StationId, TaskId};
use waremax::policies::{
    AuctionPolicy, LeastBusyPolicy, LeastQueuePolicy, NearestRobotPolicy, NearestStationPolicy,
    RoundRobinPolicy, WorkloadBalancedPolicy,
};
use waremax::resolution::{
    DeadlockContext, DeadlockResolution, DeadlockResolverChoice, WaitAndRetryResolver,
};

/// Five robots: 0 and 4 can take a task; 1 has a task, 2 has failed, and
/// 3 has maintenance enabled with its interval reached (`due[3]`).
fn fleet() -> (Vec<Robot>, Vec<bool>) {
    let r0 = Robot::new(RobotId(0), NodeId(0));
    let mut r1 = Robot::new(RobotId(1), NodeId(1));
    r1.current_task = Some(TaskId(7));
    let mut r2 = Robot::new(RobotId(2), NodeId(2));
    r2.maintenance = MaintenanceState::new();
    r2.maintenance.is_failed = true;
    let mut r3 = Robot::new(RobotId(3), NodeId(3));
    r3.maintenance = MaintenanceState::new();
    let mut r4 = Robot::new(RobotId(4), NodeId(4));
    r4.maintenance = MaintenanceState::new();
    (vec![r0, r1, r2, r3, r4], vec![false, false, false, true, false])
}

#[test]
fn nearest_robot_allocates_only_available_robots() {
    let (robots, due) = fleet();
    let keys = [50u64, 1, 2, 3, 10];
    assert_eq!(NearestRobotPolicy::new().allocate_available(&robots, &due, &keys), Some(RobotId(4)));
    let keys = [5u64, 1, 2, 3, 10];
    assert_eq!(NearestRobotPolicy::new().allocate_available(&robots, &due, &keys), Some(RobotId(0)));
}

#[test]
fn nearest_robot_none_when_nobody_is_available() {
    let (mut robots, due) = fleet();
    robots[0].state = RobotState::Moving { destination: NodeId(9) };
    robots[4].current_task = Some(TaskId(1));
    let keys = [1u64, 1, 1, 1, 1];
    assert_eq!(NearestRobotPolicy::new().allocate_available(&robots, &due, &keys), None);
}

#[test]
fn auction_allocates_lowest_bid_among_available() {
    let (robots, due) = fleet();
    let bids = [9u64, 0, 0, 0, 4];
    assert_eq!(AuctionPolicy::default().allocate_available(&robots, &due, &bids), Some(RobotId(4)));
    let ties = [4u64, 0, 0, 0, 4];
    assert_eq!(AuctionPolicy::default().allocate_available(&robots, &due, &ties), Some(RobotId(0)));
}

#[test]
fn workload_balanced_allocates_least_impact_among_available() {
    let (robots, due) = fleet();
    let impacts = [3u64, 0, 0, 0, 8];
    assert_eq!(
        WorkloadBalancedPolicy::new(true).allocate_available(&robots, &due, &impacts),
        Some(RobotId(0))
    );
}

#[test]
fn least_busy_allocates_shortest_queue_among_available() {
    let (mut robots, due) = fleet();
    robots[0].task_queue.push_back(TaskId(1));
    robots[0].task_queue.push_back(TaskId(2));
    robots[4].task_queue.push_back(TaskId(3));
    assert_eq!(LeastBusyPolicy::new().allocate_available(&robots, &due), Some(RobotId(4)));
}

#[test]
fn round_robin_cycles_over_available_robots() {
    let (robots, due) = fleet();
    let mut policy = RoundRobinPolicy::new();
    assert_eq!(policy.allocate_available(&robots, &due), Some(RobotId(0)));
    assert_eq!(policy.allocate_available(&robots, &due), Some(RobotId(4)));
    assert_eq!(policy.allocate_available(&robots, &due), Some(RobotId(0)));
}

#[test]
fn maintenance_not_due_leaves_robot_available() {
    let (robots, _) = fleet();
    let due = vec![false; 5];
    let keys = [9u64, 0, 0, 1, 5];
    assert_eq!(NearestRobotPolicy::new().allocate_available(&robots, &due, &keys), Some(RobotId(3)));
}

fn stations() -> Vec<Station> {
    let mut s0 = Station::new(StationId(0), "s0".to_string(), NodeId(0), StationType::Pick, 1, None);
    s0.enqueue(RobotId(1));
    s0.enqueue(RobotId(2));
    let s1 = Station::new(StationId(1), "s1".to_string(), NodeId(1), StationType::Drop, 1, None);
    let mut s2 = Station::new(StationId(2), "s2".to_string(), NodeId(2), StationType::Pick, 1, Some(1));
    s2.enqueue(RobotId(3));
    let mut s3 = Station::new(StationId(3), "s3".to_string(), NodeId(3), StationType::Pick, 1, None);
    s3.enqueue(RobotId(4));
    vec![s0, s1, s2, s3]
}

#[test]
fn least_queue_assigns_from_station_state() {
    let stations = stations();
    assert_eq!(LeastQueuePolicy::for_pick().assign_stations(&stations), Some(StationId(3)));
    assert_eq!(LeastQueuePolicy::new(StationType::Drop).assign_stations(&stations), Some(StationId(1)));
    assert_eq!(LeastQueuePolicy::new(StationType::Inbound).assign_stations(&stations), None);
}

#[test]
fn nearest_station_assigns_from_station_state() {
    let stations = stations();
    let keys = [30u64, 1, 2, 20];
    assert_eq!(NearestStationPolicy::for_pick().assign_stations(&stations, &keys), Some(StationId(3)));
    let keys = [10u64, 1, 2, 20];
    assert_eq!(NearestStationPolicy::for_pick().assign_stations(&stations, &keys), Some(StationId(0)));
    assert_eq!(
        NearestStationPolicy::new(StationType::Outbound).assign_stations(&stations, &keys),
        None
    );
}

#[test]
fn wait_and_retry_choice_needs_no_cycle() {
    let choice = DeadlockResolverChoice::WaitAndRetry(WaitAndRetryResolver::new(2.5f64.to_bits()));
    let ctx = DeadlockContext::new(Vec::new());
    assert_eq!(
        choice.resolve(&ctx),
        DeadlockResolution::WaitAndRetry { duration_bits: 2.5f64.to_bits() }
    );
}

fn details(n: usize) -> Vec<String> {
    (0..n).map(|i| format!("anomaly {}", i)).collect()
}

#[test]
fn text_anomalies_without_anomalies() {
    let text = RCAReporter::new().text_anomalies(&[]);
    let rule = "-".repeat(70);
    assert_eq!(text, format!("ANOMALIES DETECTED\n{}\n\n  Total Anomalies: 0\n\n", rule));
}

#[test]
fn text_anomalies_lists_all_under_the_limit() {
    let text = RCAReporter::new().with_max_anomalies(3).text_anomalies(&details(2));
    let rule = "-".repeat(70);
    assert_eq!(
        text,
        format!(
            "ANOMALIES DETECTED\n{}\n\n  Total Anomalies: 2\n\n  Details:\n  1. anomaly 0\n  2. anomaly 1\n\n",
            rule
        )
    );
}

#[test]
fn text_anomalies_counts_the_rest_over_the_limit() {
    let text = RCAReporter::new().with_max_anomalies(2).text_anomalies(&details(5));
    let rule = "-".repeat(70);
    assert_eq!(
        text,
        format!(
            "ANOMALIES DETECTED\n{}\n\n  Total Anomalies: 5\n\n  Details:\n  1. anomaly 0\n  2. anomaly 1\n  ... and 3 more\n\n",
            rule
        )
    );
}

#[test]
fn text_anomalies_exactly_at_the_limit_has_no_more_line() {
    let text = RCAReporter::new().with_max_anomalies(2).text_anomalies(&details(2));
    assert!(!text.contains("more"));
    assert!(text.contains("  2. anomaly 1\n"));
}

fn wait_on(edge: u32, blockers: &[u32]) -> WaitingFor {
    WaitingFor::Edge {
        edge_id: EdgeId(edge),
        blocked_by: blockers.iter().map(|&b| RobotId(b)).collect(),
    }
}

#[test]
fn detect_all_cycles_takes_the_first_cycle_found_breadth_first() {
    let mut graph = WaitForGraph::new();
    graph.add_wait(RobotId(1), wait_on(1, &[2, 3]));
    graph.add_wait(RobotId(2), wait_on(2, &[4]));
    graph.add_wait(RobotId(3), wait_on(3, &[1]));
    graph.add_wait(RobotId(4), wait_on(4, &[1]));
    assert_eq!(
        graph.detect_all_cycles(),
        vec![
            vec![RobotId(1), RobotId(3), RobotId(1)],
            vec![RobotId(2), RobotId(4), RobotId(1), RobotId(2)],
        ]
    );
}

#[test]
fn replayed_calls_give_the_same_detection() {
    let build = |clear_first: bool| {
        let mut graph = WaitForGraph::new();
        if clear_first {
            graph.add_wait(RobotId(9), wait_on(9, &[9]));
            graph.clear();
        }
        graph.add_wait(RobotId(2), wait_on(1, &[3]));
        graph.add_wait(RobotId(3), wait_on(2, &[2]));
        graph.remove_wait(RobotId(2));
        graph.add_wait(RobotId(2), wait_on(3, &[3]));
        graph
    };
    let a = build(false);
    let b = build(true);
    assert_eq!(a.detect_cycle(), b.detect_cycle());
    assert_eq!(a.detect_cycle(), Some(vec![RobotId(3), RobotId(2), RobotId(3)]));
    assert_eq!(a.detect_all_cycles(), b.detect_all_cycles());
}
