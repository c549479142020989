use waremax::ids::TaskId;
use waremax::policies::{order_by_time, DueTimePolicy, FifoPolicy, WeightedFairPolicy};
use waremax::reservation::TimePoint;

fn t(seconds: f64) -> TimePoint {
    let b = seconds.to_bits();
    TimePoint(if b >> 63 == 1 { !b } else { b | (1u64 << 63) })
}

#[test]
fn test_fifo_orders_by_creation() {
    let created = vec![(TaskId(0), t(30.0)), (TaskId(1), t(10.0)), (TaskId(2), t(20.0))];
    let policy = FifoPolicy::new();
    let task_ids = policy.prioritize(&created);
    assert_eq!(task_ids, vec![TaskId(1), TaskId(2), TaskId(0)]);
}

#[test]
fn test_due_time_orders_by_deadline() {
    let due = vec![(TaskId(0), t(300.0)), (TaskId(1), t(60.0)), (TaskId(2), t(180.0))];
    let policy = DueTimePolicy::new();
    let task_ids = policy.prioritize(&due);
    assert_eq!(task_ids, vec![TaskId(1), TaskId(2), TaskId(0)]);
}

#[test]
fn equal_times_keep_their_order() {
    let unknown = t(f64::MAX);
    let entries = vec![
        (TaskId(5), t(2.0)),
        (TaskId(3), unknown),
        (TaskId(4), t(1.0)),
        (TaskId(1), t(2.0)),
        (TaskId(9), t(1.0)),
        (TaskId(2), unknown),
    ];
    let sorted = order_by_time(&entries);
    let ids: Vec<u32> = sorted.iter().map(|e| e.0 .0).collect();
    assert_eq!(ids, vec![4, 9, 5, 1, 3, 2]);
    // Virtual times: creation time times the weight of the task's type.
    let weighted = WeightedFairPolicy::default();
    let virtual_times = vec![(TaskId(0), t(10.0 * 3.0)), (TaskId(1), t(12.0 * 1.0)), (TaskId(2), t(10.0 * 2.0))];
    assert_eq!(weighted.prioritize(&virtual_times), vec![TaskId(1), TaskId(2), TaskId(0)]);
    assert!(FifoPolicy::new().prioritize(&[]).is_empty());
}
