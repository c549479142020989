use waremax::reservation::TimePoint;
use waremax::trace::{EventTraceCollector, Sampling, TraceDetails};

fn t(seconds: f64) -> TimePoint {
    let b = seconds.to_bits();
    TimePoint(if b >> 63 == 1 { !b } else { b | (1u64 << 63) })
}

/// Sampling at `rate` (clamped to 0..=1).
fn sampling(rate: f64) -> Sampling {
    let rate = rate.clamp(0.0, 1.0);
    Sampling { all: rate >= 1.0, threshold: (rate * 100.0) as u64 }
}

#[test]
fn test_trace_collector_basic() {
    let mut collector = EventTraceCollector::new(100, sampling(1.0));
    collector.set_enabled(true);
    collector.record(t(1.0), "RobotMove", TraceDetails::RobotMove { robot_id: 1, from_node: 10, to_node: 20 });
    assert_eq!(collector.len(), 1);
    let entry = &collector.entries()[0];
    assert_eq!(entry.timestamp, t(1.0));
    assert_eq!(entry.event_type, "RobotMove");
}

#[test]
fn test_trace_collector_ring_buffer() {
    let mut collector = EventTraceCollector::new(3, sampling(1.0));
    collector.set_enabled(true);
    for i in 0..5 {
        collector.record(t(i as f64), "Test", TraceDetails::Generic { message: format!("Event {}", i) });
    }
    assert_eq!(collector.len(), 3);
    assert_eq!(collector.entries()[0].timestamp, t(2.0));
    assert_eq!(collector.entries()[1].timestamp, t(3.0));
    assert_eq!(collector.entries()[2].timestamp, t(4.0));
}

#[test]
fn test_trace_collector_disabled() {
    let mut collector = EventTraceCollector::new(100, sampling(1.0));
    collector.record(t(1.0), "Test", TraceDetails::Generic { message: "test".to_string() });
    assert_eq!(collector.len(), 0);
}

#[test]
fn test_trace_collector_sampling() {
    let mut collector = EventTraceCollector::new(100, sampling(0.5));
    collector.set_enabled(true);
    let mut sampled_count = 0;
    for _ in 0..100 {
        if collector.should_sample() {
            sampled_count += 1;
        }
    }
    assert!(sampled_count >= 40 && sampled_count <= 60);
}

#[test]
fn trace_queries_and_limits() {
    let mut c = EventTraceCollector::new(0, sampling(1.0));
    c.set_enabled(true);
    assert!(c.is_enabled());
    c.record(t(1.0), "A", TraceDetails::RobotFailure { robot_id: 1 });
    c.record(t(2.0), "B", TraceDetails::RobotFailure { robot_id: 2 });
    // A limit of zero still keeps the latest entry.
    assert_eq!(c.len(), 1);
    assert_eq!(c.entries()[0].event_type, "B");

    let mut c = EventTraceCollector::new(10, Sampling { all: false, threshold: 30 });
    c.set_enabled(true);
    for i in 0..10 {
        let kind = if i % 2 == 0 { "even" } else { "odd" };
        c.record_sampled(t(i as f64), kind, TraceDetails::TaskAssign { task_id: i, robot_id: 0 });
    }
    // Counts 1..=10: those below 30 modulo 100 are all taken.
    assert_eq!(c.len(), 10);
    assert_eq!(c.entries_by_type("odd"), vec![1, 3, 5, 7, 9]);
    assert_eq!(c.entries_in_range(t(2.0), t(4.0)), vec![2, 3, 4]);
    assert!(c.entries_in_range(t(20.0), t(30.0)).is_empty());
    c.clear();
    assert!(c.is_empty());

    let mut c = EventTraceCollector::new(10, Sampling { all: false, threshold: 0 });
    c.set_enabled(true);
    c.record_sampled(t(0.0), "x", TraceDetails::Generic { message: String::new() });
    assert!(c.is_empty());
}
