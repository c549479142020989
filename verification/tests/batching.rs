use waremax::ids::TaskId;
use waremax::policies::{NoBatchingPolicy, ZoneBatchingPolicy};

/// Which pending tasks lie within `radius` of each other, given the x
/// positions of their pickup nodes (all on one line).
fn nearness(xs: &[f64], radius: f64) -> Vec<Vec<bool>> {
    xs.iter().map(|a| xs.iter().map(|b| (a - b).abs() <= radius).collect()).collect()
}

#[test]
fn test_zone_batching_groups_nearby() {
    let xs = [0.0, 5.0, 8.0, 50.0, 52.0];
    let policy = ZoneBatchingPolicy::new(5);
    let pending = vec![TaskId(0), TaskId(1), TaskId(2), TaskId(3), TaskId(4)];
    let batches = policy.batch(&pending, &nearness(&xs, 10.0));
    assert_eq!(batches.len(), 2);
    assert_eq!(batches[0], vec![TaskId(0), TaskId(1), TaskId(2)]);
    assert_eq!(batches[1], vec![TaskId(3), TaskId(4)]);
}

#[test]
fn test_zone_batching_respects_max_items() {
    let xs = [0.0, 5.0, 8.0];
    let policy = ZoneBatchingPolicy::new(2);
    let pending = vec![TaskId(0), TaskId(1), TaskId(2)];
    let batches = policy.batch(&pending, &nearness(&xs, 10.0));
    assert_eq!(batches.len(), 2);
    assert_eq!(batches[0], vec![TaskId(0), TaskId(1)]);
    assert_eq!(batches[1], vec![TaskId(2)]);
}

#[test]
fn batching_test_policy_names() {
    assert_eq!(NoBatchingPolicy::new().name(), "none");
    assert_eq!(ZoneBatchingPolicy::default().name(), "zone");
}

#[test]
fn zone_batching_edge_cases() {
    let pending = vec![TaskId(7), TaskId(8), TaskId(9)];
    // No table: nothing is near anything.
    let batches = ZoneBatchingPolicy::new(3).batch(&pending, &[]);
    assert_eq!(batches, vec![vec![TaskId(7)], vec![TaskId(8)], vec![TaskId(9)]]);
    // A limit of zero still makes one batch per task.
    let all_near = vec![vec![true; 3]; 3];
    let batches = ZoneBatchingPolicy::new(0).batch(&pending, &all_near);
    assert_eq!(batches.len(), 3);
    // A later task near an earlier anchor joins it even if skipped by a full batch.
    let batches = ZoneBatchingPolicy::default_zone().batch(&pending, &all_near);
    assert_eq!(batches, vec![vec![TaskId(7), TaskId(8), TaskId(9)]]);
    assert!(ZoneBatchingPolicy::new(2).batch(&[], &[]).is_empty());
}
