//! An event together with the identifier and the time it is scheduled for.

use vstd::prelude::*;
use vstd::std_specs::cmp::{PartialEqSpecImpl, PartialOrdSpec, PartialOrdSpecImpl};
use core::cmp::Ordering;

use crate::event::SimEvent;
use crate::ids::EventId;
use crate::reservation::TimePoint;

verus! {

/// An event scheduled for a point of simulation time.
#[derive(Clone, Debug)]
pub struct ScheduledEvent {
    pub id: EventId,
    pub time: TimePoint,
    pub event: SimEvent,
}

/// `a` is handled before `b`: it is due earlier, or at the same time and was
/// scheduled first (it has the smaller identifier).
pub open spec fn precedes(a: ScheduledEvent, b: ScheduledEvent) -> bool {
    a.time.0 < b.time.0 || (a.time.0 == b.time.0 && a.id.0 < b.id.0)
}

impl ScheduledEvent {
    /// The event `event`, scheduled under `id` for `time`.
    pub fn new(id: EventId, time: TimePoint, event: SimEvent) -> (r: Self)
        ensures
            r.id == id,
            r.time == time,
            r.event == event,
    {
        ScheduledEvent { id, time, event }
    }
}

/// Two scheduled events are the same event when their identifiers agree.
impl PartialEq for ScheduledEvent {
    fn eq(&self, other: &Self) -> (r: bool) {
        self.id.0 == other.id.0
    }
}

impl PartialEqSpecImpl for ScheduledEvent {
    open spec fn obeys_eq_spec() -> bool {
        true
    }

    open spec fn eq_spec(&self, other: &Self) -> bool {
        self.id.0 == other.id.0
    }
}

impl Eq for ScheduledEvent {}

/// Scheduled events are ordered by urgency: the one handled first is the
/// greater, as a max-heap of events wants it.
impl PartialOrd for ScheduledEvent {
    fn partial_cmp(&self, other: &Self) -> (r: Option<Ordering>) {
        if other.time.0 < self.time.0 {
            Some(Ordering::Less)
        } else if self.time.0 < other.time.0 {
            Some(Ordering::Greater)
        } else if other.id.0 < self.id.0 {
            Some(Ordering::Less)
        } else if self.id.0 < other.id.0 {
            Some(Ordering::Greater)
        } else {
            Some(Ordering::Equal)
        }
    }
}

impl PartialOrdSpecImpl for ScheduledEvent {
    open spec fn obeys_partial_cmp_spec() -> bool {
        true
    }

    open spec fn partial_cmp_spec(&self, other: &Self) -> Option<Ordering> {
        if other.time.0 < self.time.0 {
            Some(Ordering::Less)
        } else if self.time.0 < other.time.0 {
            Some(Ordering::Greater)
        } else if other.id.0 < self.id.0 {
            Some(Ordering::Less)
        } else if self.id.0 < other.id.0 {
            Some(Ordering::Greater)
        } else {
            Some(Ordering::Equal)
        }
    }
}

/// Of two distinct scheduled events, the one handled first compares greater.
pub proof fn law_earlier_event_is_greater(a: ScheduledEvent, b: ScheduledEvent)
    requires
        precedes(a, b),
    ensures
        PartialOrdSpec::partial_cmp_spec(&a, &b) == Some(Ordering::Greater),
        PartialOrdSpec::partial_cmp_spec(&b, &a) == Some(Ordering::Less),
{
}

} // verus!
