use waremax::deadlock::{WaitForGraph, WaitingFor};
use waremax::ids::{EdgeId, NodeId, RobotId};
use waremax::traffic::TrafficManager;

fn edge_wait(edge: u32, blockers: &[u32]) -> WaitingFor {
    WaitingFor::Edge {
        edge_id: EdgeId(edge),
        blocked_by: blockers.iter().map(|&b| RobotId(b)).collect(),
    }
}

fn node_wait(node: u32, blockers: &[u32]) -> WaitingFor {
    WaitingFor::Node {
        node_id: NodeId(node),
        blocked_by: blockers.iter().map(|&b| RobotId(b)).collect(),
    }
}

#[test]
fn test_empty_graph_no_cycle() {
    let graph = WaitForGraph::new();
    assert!(graph.detect_cycle().is_none());
}

#[test]
fn test_single_wait_no_cycle() {
    let mut graph = WaitForGraph::new();
    graph.add_wait(RobotId(1), edge_wait(100, &[2]));
    assert!(graph.detect_cycle().is_none());
}

#[test]
fn test_two_robot_cycle() {
    let mut graph = WaitForGraph::new();
    graph.add_wait(RobotId(1), edge_wait(100, &[2]));
    graph.add_wait(RobotId(2), node_wait(50, &[1]));
    let cycle = graph.detect_cycle();
    assert!(cycle.is_some());
    let cycle = cycle.unwrap();
    assert!(cycle.contains(&RobotId(1)));
    assert!(cycle.contains(&RobotId(2)));
}

#[test]
fn test_three_robot_cycle() {
    let mut graph = WaitForGraph::new();
    graph.add_wait(RobotId(1), edge_wait(100, &[2]));
    graph.add_wait(RobotId(2), edge_wait(101, &[3]));
    graph.add_wait(RobotId(3), edge_wait(102, &[1]));
    let cycle = graph.detect_cycle();
    assert!(cycle.is_some());
    let cycle = cycle.unwrap();
    assert_eq!(cycle.len(), 4);
}

#[test]
fn test_chain_no_cycle() {
    let mut graph = WaitForGraph::new();
    graph.add_wait(RobotId(1), edge_wait(100, &[2]));
    graph.add_wait(RobotId(2), edge_wait(101, &[3]));
    assert!(graph.detect_cycle().is_none());
}

#[test]
fn test_remove_wait_breaks_cycle() {
    let mut graph = WaitForGraph::new();
    graph.add_wait(RobotId(1), edge_wait(100, &[2]));
    graph.add_wait(RobotId(2), node_wait(50, &[1]));
    assert!(graph.detect_cycle().is_some());
    graph.remove_wait(RobotId(1));
    assert!(graph.detect_cycle().is_none());
}

#[test]
fn test_multiple_blockers() {
    let mut graph = WaitForGraph::new();
    graph.add_wait(RobotId(1), edge_wait(100, &[2, 3]));
    graph.add_wait(RobotId(2), node_wait(50, &[1]));
    let cycle = graph.detect_cycle();
    assert!(cycle.is_some());
}

#[test]
fn test_is_waiting() {
    let mut graph = WaitForGraph::new();
    assert!(!graph.is_waiting(RobotId(1)));
    graph.add_wait(RobotId(1), edge_wait(100, &[2]));
    assert!(graph.is_waiting(RobotId(1)));
    assert!(!graph.is_waiting(RobotId(2)));
}

#[test]
fn test_waiting_count() {
    let mut graph = WaitForGraph::new();
    assert_eq!(graph.waiting_count(), 0);
    graph.add_wait(RobotId(1), edge_wait(100, &[2]));
    assert_eq!(graph.waiting_count(), 1);
    graph.add_wait(RobotId(2), node_wait(50, &[1]));
    assert_eq!(graph.waiting_count(), 2);
    graph.remove_wait(RobotId(1));
    assert_eq!(graph.waiting_count(), 1);
}

#[test]
fn self_wait_is_reported_as_single_robot_cycle() {
    let mut graph = WaitForGraph::new();
    graph.add_wait(RobotId(7), edge_wait(1, &[7]));
    assert_eq!(graph.detect_cycle(), Some(vec![RobotId(7)]));
}

#[test]
fn two_robot_cycle_is_closed_at_start_robot() {
    let mut graph = WaitForGraph::new();
    graph.add_wait(RobotId(1), edge_wait(100, &[2]));
    graph.add_wait(RobotId(2), node_wait(50, &[1]));
    assert_eq!(graph.detect_cycle(), Some(vec![RobotId(1), RobotId(2), RobotId(1)]));
}

#[test]
fn cycle_away_from_start_is_reported_without_repeat() {
    let mut graph = WaitForGraph::new();
    // 1 waits on 2, which is in a cycle with 3 that does not pass through 1.
    graph.add_wait(RobotId(1), edge_wait(10, &[2]));
    graph.add_wait(RobotId(2), edge_wait(11, &[3]));
    graph.add_wait(RobotId(3), edge_wait(12, &[2]));
    assert_eq!(graph.detect_cycle(), Some(vec![RobotId(2), RobotId(3)]));
}

#[test]
fn re_adding_wait_replaces_previous_one() {
    let mut graph = WaitForGraph::new();
    graph.add_wait(RobotId(1), edge_wait(100, &[2]));
    graph.add_wait(RobotId(2), node_wait(50, &[1]));
    graph.add_wait(RobotId(1), edge_wait(100, &[3]));
    assert_eq!(graph.waiting_count(), 2);
    assert!(graph.detect_cycle().is_none());
    match graph.get_wait(RobotId(1)) {
        Some(w) => assert_eq!(w.blockers(), &[RobotId(3)]),
        None => panic!("robot 1 should be waiting"),
    }
}

#[test]
fn detect_all_cycles_reports_disjoint_cycles() {
    let mut graph = WaitForGraph::new();
    graph.add_wait(RobotId(1), edge_wait(1, &[2]));
    graph.add_wait(RobotId(2), edge_wait(2, &[1]));
    graph.add_wait(RobotId(3), edge_wait(3, &[4]));
    graph.add_wait(RobotId(4), edge_wait(4, &[3]));
    let cycles = graph.detect_all_cycles();
    assert_eq!(cycles.len(), 2);
    assert_eq!(cycles[0], vec![RobotId(1), RobotId(2), RobotId(1)]);
    assert_eq!(cycles[1], vec![RobotId(3), RobotId(4), RobotId(3)]);
}

#[test]
fn detect_all_cycles_empty_without_deadlock() {
    let mut graph = WaitForGraph::new();
    graph.add_wait(RobotId(1), edge_wait(1, &[2]));
    assert!(graph.detect_all_cycles().is_empty());
    graph.clear();
    assert_eq!(graph.waiting_count(), 0);
}

#[test]
fn mutual_wait_on_edges_is_detected_by_traffic_manager() {
    let mut traffic = TrafficManager::new(1, 1);
    traffic.set_deadlock_detection(true);
    traffic.enter_edge(EdgeId(1), RobotId(1));
    traffic.enter_edge(EdgeId(2), RobotId(2));
    traffic.record_edge_wait(RobotId(1), EdgeId(2));
    assert!(traffic.check_deadlock().is_none());
    traffic.record_edge_wait(RobotId(2), EdgeId(1));
    let cycle = traffic.check_deadlock().expect("deadlock expected");
    assert!(cycle.contains(&RobotId(1)) && cycle.contains(&RobotId(2)));
    traffic.clear_wait(RobotId(2));
    assert!(traffic.check_deadlock().is_none());
    assert_eq!(traffic.waiting_count(), 1);
}

#[test]
fn detection_off_records_nothing() {
    let mut traffic = TrafficManager::new(1, 1);
    traffic.enter_node(NodeId(5), RobotId(1));
    traffic.record_node_wait(RobotId(2), NodeId(5));
    assert!(!traffic.is_waiting(RobotId(2)));
    assert!(traffic.check_deadlock().is_none());
}

#[test]
fn detect_all_cycles_reports_every_robot_on_a_cycle() {
    let mut graph = WaitForGraph::new();
    graph.add_wait(RobotId(1), edge_wait(1, &[2, 3]));
    graph.add_wait(RobotId(2), edge_wait(2, &[1]));
    graph.add_wait(RobotId(3), edge_wait(3, &[1]));
    let cycles = graph.detect_all_cycles();
    assert_eq!(
        cycles,
        vec![
            vec![RobotId(1), RobotId(2), RobotId(1)],
            vec![RobotId(3), RobotId(1), RobotId(3)],
        ]
    );
}

#[test]
fn detection_replays_identically() {
    let build = || {
        let mut graph = WaitForGraph::new();
        graph.add_wait(RobotId(4), edge_wait(1, &[5, 6]));
        graph.add_wait(RobotId(6), edge_wait(2, &[4]));
        graph.add_wait(RobotId(5), edge_wait(3, &[6]));
        graph.remove_wait(RobotId(5));
        graph.add_wait(RobotId(5), edge_wait(4, &[4]));
        graph
    };
    let a = build();
    let b = build();
    assert_eq!(a.detect_cycle(), b.detect_cycle());
    assert_eq!(a.detect_cycle(), Some(vec![RobotId(4), RobotId(5), RobotId(4)]));
    assert_eq!(a.detect_all_cycles(), b.detect_all_cycles());
}
