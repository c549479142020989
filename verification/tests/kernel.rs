use waremax::event::SimEvent;
use waremax::ids::{EventId, OrderId};
use waremax::kernel::Kernel;
use waremax::reservation::TimePoint;
use waremax::scheduled::ScheduledEvent;

/// The time key of a non-negative number of seconds.
fn secs(s: f64) -> TimePoint {
    TimePoint(s.to_bits() | (1u64 << 63))
}

/// The number of seconds of a time key of a non-negative time.
fn seconds_of(p: TimePoint) -> f64 {
    f64::from_bits(p.0 & !(1u64 << 63))
}

#[test]
fn test_event_ordering() {
    let e1 = ScheduledEvent::new(EventId(1), secs(10.0), SimEvent::DispatchTasks);
    let e2 = ScheduledEvent::new(EventId(2), secs(5.0), SimEvent::DispatchTasks);

    // e2 should come first (earlier time)
    assert!(e2 > e1);
}

#[test]
fn test_kernel_basic() {
    let kernel = Kernel::new();
    assert_eq!(kernel.now(), secs(0.0));
    assert!(!kernel.has_events());
}

#[test]
fn test_event_scheduling() {
    let mut kernel = Kernel::new();

    kernel.schedule_at(secs(10.0), SimEvent::DispatchTasks);
    kernel.schedule_at(secs(5.0), SimEvent::DispatchTasks);
    kernel.schedule_at(secs(15.0), SimEvent::DispatchTasks);

    assert_eq!(kernel.pending_count(), 3);

    // Events should come out in time order
    let e1 = kernel.pop_next().unwrap();
    assert_eq!(e1.time, secs(5.0));
    assert_eq!(kernel.now(), secs(5.0));

    let e2 = kernel.pop_next().unwrap();
    assert_eq!(e2.time, secs(10.0));

    let e3 = kernel.pop_next().unwrap();
    assert_eq!(e3.time, secs(15.0));

    assert!(!kernel.has_events());
}

#[test]
fn test_schedule_after() {
    let mut kernel = Kernel::new();

    // Advance time first
    kernel.schedule_at(secs(10.0), SimEvent::DispatchTasks);
    kernel.pop_next();

    // Now schedule after current time
    let due = secs(seconds_of(kernel.now()) + 5.0);
    kernel.schedule_at(due, SimEvent::DispatchTasks);

    let event = kernel.pop_next().unwrap();
    assert_eq!(event.time, secs(15.0));
}

#[test]
fn test_event_cancellation() {
    let mut kernel = Kernel::new();

    let id1 = kernel.schedule_at(secs(10.0), SimEvent::DispatchTasks);
    let _id2 = kernel.schedule_at(secs(5.0), SimEvent::DispatchTasks);

    assert_eq!(kernel.pending_count(), 2);

    let found = kernel.cancel(id1);
    assert!(found);
    assert_eq!(kernel.pending_count(), 1);

    // The remaining event should be at t=5
    let event = kernel.pop_next().unwrap();
    assert_eq!(event.time, secs(5.0));
}

#[test]
fn kernel_equal_times_leave_in_scheduling_order() {
    let mut kernel = Kernel::new();
    let a = kernel.schedule_at(secs(3.0), SimEvent::OrderArrival { order_id: OrderId(1) });
    let b = kernel.schedule_at(secs(3.0), SimEvent::OrderArrival { order_id: OrderId(2) });
    let c = kernel.schedule_now(SimEvent::DispatchTasks);
    assert_eq!((a, b, c), (EventId(0), EventId(1), EventId(2)));
    assert_eq!(kernel.pop_next().unwrap().id, c);
    assert_eq!(kernel.pop_next().unwrap().id, a);
    assert_eq!(kernel.pop_next().unwrap().id, b);
    assert!(kernel.pop_next().is_none());
    assert_eq!(kernel.events_processed(), 3);
    assert_eq!(kernel.now(), secs(3.0));
}

#[test]
fn kernel_peek_does_not_remove() {
    let mut kernel = Kernel::new();
    assert!(kernel.peek_next().is_none());
    assert!(kernel.next_event_time().is_none());
    kernel.schedule_at(secs(8.0), SimEvent::DispatchTasks);
    kernel.schedule_at(secs(2.0), SimEvent::DispatchTasks);
    assert_eq!(kernel.peek_next().unwrap().id, EventId(1));
    assert_eq!(kernel.next_event_time(), Some(secs(2.0)));
    assert_eq!(kernel.pending_count(), 2);
    assert_eq!(kernel.now(), secs(0.0));
}

#[test]
fn kernel_pop_due_stops_at_target() {
    let mut kernel = Kernel::new();
    kernel.schedule_at(secs(1.0), SimEvent::DispatchTasks);
    kernel.schedule_at(secs(4.0), SimEvent::DispatchTasks);
    kernel.schedule_at(secs(9.0), SimEvent::DispatchTasks);
    let mut handled = 0;
    while let Some(_) = kernel.pop_due(secs(5.0)) {
        handled += 1;
    }
    assert_eq!(handled, 2);
    assert_eq!(kernel.now(), secs(4.0));
    kernel.advance_clock(secs(5.0));
    assert_eq!(kernel.now(), secs(5.0));
    // The clock does not pass a pending event.
    kernel.advance_clock(secs(20.0));
    assert_eq!(kernel.now(), secs(5.0));
    assert_eq!(kernel.pending_count(), 1);
}

#[test]
fn kernel_cancel_unknown_and_reset() {
    let mut kernel = Kernel::default();
    kernel.schedule_at(secs(1.0), SimEvent::DispatchTasks);
    assert!(!kernel.cancel(EventId(7)));
    assert_eq!(kernel.pending_count(), 1);
    kernel.pop_next();
    kernel.schedule_now(SimEvent::DispatchTasks);
    kernel.clear();
    assert!(!kernel.has_events());
    assert_eq!(kernel.now(), secs(1.0));
    kernel.reset();
    assert_eq!(kernel.now(), secs(0.0));
    assert_eq!(kernel.events_processed(), 0);
    assert_eq!(kernel.peek_next_id(), 0);
}
