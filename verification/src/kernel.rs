//! The discrete-event simulation kernel: a queue of scheduled events, handed
//! out earliest first, and the clock that follows them.

use vstd::prelude::*;

use crate::event::SimEvent;
use crate::ids::{EventId, IdGenerator};
use crate::reservation::{zero_key, TimePoint};
use crate::scheduled::{precedes, ScheduledEvent};

verus! {

broadcast use vstd::seq_lib::group_seq_properties;

/// Event `i` of `s` is the one to handle next: it precedes every other.
pub open spec fn is_next(s: Seq<ScheduledEvent>, i: int) -> bool {
    &&& 0 <= i < s.len()
    &&& forall|j: int| 0 <= j < s.len() && j != i ==> precedes(s[i], #[trigger] s[j])
}

/// Some event of `s` is due at or before `t`.
pub open spec fn any_due(s: Seq<ScheduledEvent>, t: TimePoint) -> bool {
    exists|j: int| 0 <= j < s.len() && (#[trigger] s[j]).time.0 <= t.0
}

/// Some event of `s` carries the identifier `id`.
pub open spec fn holds_id(s: Seq<ScheduledEvent>, id: EventId) -> bool {
    exists|j: int| 0 <= j < s.len() && (#[trigger] s[j]).id == id
}

/// The event queue and clock of a simulation.
#[derive(Debug)]
pub struct Kernel {
    /// Pending events, in the order they were scheduled.
    event_queue: Vec<ScheduledEvent>,
    current_time: TimePoint,
    event_id_gen: IdGenerator<EventId>,
    events_processed: u64,
}

impl Kernel {
    /// The pending events, in the order they were scheduled.
    pub closed spec fn pending(&self) -> Seq<ScheduledEvent> {
        self.event_queue@
    }

    /// The current simulation time.
    pub closed spec fn clock(&self) -> TimePoint {
        self.current_time
    }

    /// The raw identifier the next scheduled event will get.
    pub closed spec fn next_id(&self) -> nat {
        self.event_id_gen.next_value()
    }

    /// How many events have been handed out.
    pub closed spec fn processed(&self) -> nat {
        self.events_processed as nat
    }

    /// The queue is consistent: identifiers increase in scheduling order and
    /// stay below the next one to be given out, and no pending event is due
    /// before the current time.
    pub closed spec fn wf(&self) -> bool {
        &&& forall|i: int, j: int|
            0 <= i < j < self.event_queue@.len() ==> (#[trigger] self.event_queue@[i]).id.0
                < (#[trigger] self.event_queue@[j]).id.0
        &&& forall|i: int|
            0 <= i < self.event_queue@.len() ==> (#[trigger] self.event_queue@[i]).id.0
                < self.event_id_gen.next_value()
        &&& forall|i: int|
            0 <= i < self.event_queue@.len() ==> self.current_time.0 <= (
            #[trigger] self.event_queue@[i]).time.0
    }

    /// Distinct pending events have distinct identifiers.
    pub proof fn lemma_ids_distinct(&self)
        requires
            self.wf(),
        ensures
            forall|i: int, j: int|
                0 <= i < self.pending().len() && 0 <= j < self.pending().len() && i != j
                    ==> (#[trigger] self.pending()[i]).id != (#[trigger] self.pending()[j]).id,
            forall|i: int|
                0 <= i < self.pending().len() ==> (#[trigger] self.pending()[i]).id.0
                    < self.next_id(),
            forall|i: int|
                0 <= i < self.pending().len() ==> self.clock().0 <= (
                #[trigger] self.pending()[i]).time.0,
    {
        assert forall|i: int, j: int|
            0 <= i < self.pending().len() && 0 <= j < self.pending().len() && i != j
                implies (#[trigger] self.pending()[i]).id != (#[trigger] self.pending()[j]).id by {
            if i < j {
                assert(self.event_queue@[i].id.0 < self.event_queue@[j].id.0);
            } else {
                assert(self.event_queue@[j].id.0 < self.event_queue@[i].id.0);
            }
        }
    }

    /// A kernel at time zero with no events.
    pub fn new() -> (k: Self)
        ensures
            k.wf(),
            k.pending().len() == 0,
            k.clock() == TimePoint(zero_key()),
            k.next_id() == 0,
            k.processed() == 0,
    {
        Kernel {
            event_queue: Vec::new(),
            current_time: TimePoint::zero(),
            event_id_gen: IdGenerator::new(),
            events_processed: 0,
        }
    }

    /// The current simulation time.
    pub fn now(&self) -> (r: TimePoint)
        ensures
            r == self.clock(),
    {
        self.current_time
    }

    /// Schedules `event` for `time`, which is not before the current time,
    /// and returns the identifier it was given.
    pub fn schedule_at(&mut self, time: TimePoint, event: SimEvent) -> (id: EventId)
        requires
            old(self).wf(),
            old(self).clock().0 <= time.0,
            old(self).next_id() < u32::MAX,
        ensures
            final(self).wf(),
            id.0 == old(self).next_id(),
            final(self).next_id() == old(self).next_id() + 1,
            final(self).pending() == old(self).pending().push(
                ScheduledEvent { id, time, event },
            ),
            final(self).clock() == old(self).clock(),
            final(self).processed() == old(self).processed(),
    {
        let id = self.event_id_gen.next();
        self.event_queue.push(ScheduledEvent { id, time, event });
        id
    }

    /// Schedules `event` for the current time.
    pub fn schedule_now(&mut self, event: SimEvent) -> (id: EventId)
        requires
            old(self).wf(),
            old(self).next_id() < u32::MAX,
        ensures
            final(self).wf(),
            id.0 == old(self).next_id(),
            final(self).next_id() == old(self).next_id() + 1,
            final(self).pending() == old(self).pending().push(
                ScheduledEvent { id, time: old(self).clock(), event },
            ),
            final(self).clock() == old(self).clock(),
            final(self).processed() == old(self).processed(),
    {
        let now = self.current_time;
        self.schedule_at(now, event)
    }

    /// The position of the event to handle next, when any is pending.
    fn next_index(&self) -> (r: Option<usize>)
        requires
            self.wf(),
        ensures
            self.pending().len() == 0 <==> r is None,
            r matches Some(i) ==> is_next(self.pending(), i as int),
    {
        let n = self.event_queue.len();
        if n == 0 {
            return None;
        }
        let mut best: usize = 0;
        let mut k: usize = 1;
        while k < n
            invariant
                self.wf(),
                n == self.event_queue@.len(),
                0 <= best < k <= n,
                forall|j: int|
                    0 <= j < k && j != best ==> precedes(
                        self.event_queue@[best as int],
                        #[trigger] self.event_queue@[j],
                    ),
            decreases n - k,
        {
            if self.event_queue[k].time.0 < self.event_queue[best].time.0 {
                proof {
                    assert forall|j: int| 0 <= j < k + 1 && j != k implies precedes(
                        self.event_queue@[k as int],
                        #[trigger] self.event_queue@[j],
                    ) by {
                        if j != best {
                            assert(precedes(self.event_queue@[best as int], self.event_queue@[j]));
                        }
                        assert(self.event_queue@[j].id.0 < self.event_queue@[k as int].id.0);
                    }
                }
                best = k;
            } else {
                proof {
                    assert(self.event_queue@[best as int].id.0 < self.event_queue@[k as int].id.0);
                }
            }
            k = k + 1;
        }
        Some(best)
    }

    /// Removes and returns the event to handle next, moving the clock to its
    /// time; `None` when no event is pending.
    pub fn pop_next(&mut self) -> (r: Option<ScheduledEvent>)
        requires
            old(self).wf(),
            old(self).processed() < u64::MAX,
        ensures
            final(self).wf(),
            old(self).pending().len() == 0 ==> r is None && *final(self) == *old(self),
            old(self).pending().len() > 0 ==> exists|i: int|
                #[trigger] is_next(old(self).pending(), i) && r == Some(old(self).pending()[i])
                    && final(self).pending() == old(self).pending().remove(i)
                    && final(self).clock() == old(self).pending()[i].time
                    && final(self).processed() == old(self).processed() + 1
                    && final(self).next_id() == old(self).next_id(),
    {
        match self.next_index() {
            None => None,
            Some(i) => {
                let ghost before = self.event_queue@;
                let event = self.event_queue.remove(i);
                proof {
                    assert forall|a: int, b: int|
                        0 <= a < b < self.event_queue@.len() implies (
                        #[trigger] self.event_queue@[a]).id.0 < (
                        #[trigger] self.event_queue@[b]).id.0 by {
                        let a0 = if a < i { a } else { a + 1 };
                        let b0 = if b < i { b } else { b + 1 };
                        assert(self.event_queue@[a] == before[a0]);
                        assert(self.event_queue@[b] == before[b0]);
                        assert(before[a0].id.0 < before[b0].id.0);
                    }
                    assert forall|a: int| 0 <= a < self.event_queue@.len() implies event.time.0
                        <= (#[trigger] self.event_queue@[a]).time.0 by {
                        let a0 = if a < i { a } else { a + 1 };
                        assert(self.event_queue@[a] == before[a0]);
                        assert(precedes(before[i as int], before[a0]));
                    }
                }
                self.current_time = event.time;
                self.events_processed = self.events_processed + 1;
                Some(event)
            },
        }
    }

    /// Removes and returns the event to handle next if it is due at or
    /// before `target`; otherwise changes nothing and returns `None`.
    pub fn pop_due(&mut self, target: TimePoint) -> (r: Option<ScheduledEvent>)
        requires
            old(self).wf(),
            old(self).processed() < u64::MAX,
        ensures
            final(self).wf(),
            r is None <==> !any_due(old(self).pending(), target),
            r is None ==> *final(self) == *old(self),
            r is Some ==> exists|i: int|
                #[trigger] is_next(old(self).pending(), i) && r == Some(old(self).pending()[i])
                    && final(self).pending() == old(self).pending().remove(i)
                    && final(self).clock() == old(self).pending()[i].time
                    && final(self).processed() == old(self).processed() + 1
                    && final(self).next_id() == old(self).next_id(),
    {
        match self.next_index() {
            None => None,
            Some(i) => {
                if target.0 < self.event_queue[i].time.0 {
                    proof {
                        assert forall|j: int| 0 <= j < self.event_queue@.len() implies target.0
                            < (#[trigger] self.event_queue@[j]).time.0 by {
                            if j != i {
                                assert(precedes(self.event_queue@[i as int], self.event_queue@[j]));
                            }
                        }
                    }
                    None
                } else {
                    assert(self.event_queue@[i as int].time.0 <= target.0);
                    self.pop_next()
                }
            },
        }
    }

    /// Moves the clock forward to `target` when it is later than the
    /// current time and no pending event is due at or before it; otherwise
    /// changes nothing.
    pub fn advance_clock(&mut self, target: TimePoint)
        requires
            old(self).wf(),
        ensures
            final(self).wf(),
            final(self).pending() == old(self).pending(),
            final(self).next_id() == old(self).next_id(),
            final(self).processed() == old(self).processed(),
            final(self).clock() == if old(self).clock().0 < target.0 && !any_due(
                old(self).pending(),
                target,
            ) {
                target
            } else {
                old(self).clock()
            },
    {
        if self.current_time.0 < target.0 {
            let mut k: usize = 0;
            while k < self.event_queue.len()
                invariant
                    self.wf(),
                    k <= self.event_queue@.len(),
                    forall|j: int| 0 <= j < k ==> target.0 < (#[trigger] self.event_queue@[j]).time.0,
                decreases self.event_queue@.len() - k,
            {
                if self.event_queue[k].time.0 <= target.0 {
                    assert(any_due(self.event_queue@, target));
                    return;
                }
                k = k + 1;
            }
            self.current_time = target;
        }
    }

    /// The event to handle next, without removing it.
    pub fn peek_next(&self) -> (r: Option<&ScheduledEvent>)
        requires
            self.wf(),
        ensures
            self.pending().len() == 0 <==> r is None,
            r matches Some(e) ==> exists|i: int|
                #[trigger] is_next(self.pending(), i) && *e == self.pending()[i],
    {
        match self.next_index() {
            None => None,
            Some(i) => Some(&self.event_queue[i]),
        }
    }

    /// The time of the event to handle next, if any.
    pub fn next_event_time(&self) -> (r: Option<TimePoint>)
        requires
            self.wf(),
        ensures
            self.pending().len() == 0 <==> r is None,
            r matches Some(t) ==> exists|i: int|
                #[trigger] is_next(self.pending(), i) && t == self.pending()[i].time,
    {
        match self.next_index() {
            None => None,
            Some(i) => Some(self.event_queue[i].time),
        }
    }

    /// Whether any event is pending.
    pub fn has_events(&self) -> (r: bool)
        ensures
            r == (self.pending().len() > 0),
    {
        self.event_queue.len() > 0
    }

    /// The number of pending events.
    pub fn pending_count(&self) -> (r: usize)
        ensures
            r == self.pending().len(),
    {
        self.event_queue.len()
    }

    /// The raw identifier the next scheduled event will get.
    pub fn peek_next_id(&self) -> (r: u32)
        ensures
            r == self.next_id(),
    {
        self.event_id_gen.peek()
    }

    /// How many events have been handed out.
    pub fn events_processed(&self) -> (r: u64)
        ensures
            r == self.processed(),
    {
        self.events_processed
    }

    /// Removes the pending event with identifier `id`; says whether there
    /// was one.
    pub fn cancel(&mut self, id: EventId) -> (found: bool)
        requires
            old(self).wf(),
        ensures
            final(self).wf(),
            found == holds_id(old(self).pending(), id),
            found ==> exists|i: int|
                0 <= i < old(self).pending().len() && (#[trigger] old(self).pending()[i]).id == id
                    && final(self).pending() == old(self).pending().remove(i),
            !found ==> final(self).pending() == old(self).pending(),
            final(self).clock() == old(self).clock(),
            final(self).next_id() == old(self).next_id(),
            final(self).processed() == old(self).processed(),
    {
        let mut k: usize = 0;
        while k < self.event_queue.len()
            invariant
                self.wf(),
                *self == *old(self),
                k <= self.event_queue@.len(),
                forall|j: int| 0 <= j < k ==> (#[trigger] self.event_queue@[j]).id != id,
            decreases self.event_queue@.len() - k,
        {
            if self.event_queue[k].id.0 == id.0 {
                let ghost before = self.event_queue@;
                let _removed = self.event_queue.remove(k);
                proof {
                    assert forall|a: int, b: int|
                        0 <= a < b < self.event_queue@.len() implies (
                        #[trigger] self.event_queue@[a]).id.0 < (
                        #[trigger] self.event_queue@[b]).id.0 by {
                        let a0 = if a < k { a } else { a + 1 };
                        let b0 = if b < k { b } else { b + 1 };
                        assert(self.event_queue@[a] == before[a0]);
                        assert(self.event_queue@[b] == before[b0]);
                        assert(before[a0].id.0 < before[b0].id.0);
                    }
                    assert forall|a: int| 0 <= a < self.event_queue@.len() implies (
                        #[trigger] self.event_queue@[a]).id.0 < self.event_id_gen.next_value()
                        && self.current_time.0 <= self.event_queue@[a].time.0 by {
                        let a0 = if a < k { a } else { a + 1 };
                        assert(self.event_queue@[a] == before[a0]);
                    }
                    assert(before[k as int].id == id);
                    assert(holds_id(old(self).pending(), id));
                }
                return true;
            }
            k = k + 1;
        }
        proof {
            if holds_id(old(self).pending(), id) {
                let j = choose|j: int|
                    0 <= j < old(self).pending().len() && (#[trigger] old(self).pending()[j]).id == id;
                assert(self.event_queue@[j].id != id);
            }
        }
        false
    }

    /// Drops every pending event.
    pub fn clear(&mut self)
        requires
            old(self).wf(),
        ensures
            final(self).wf(),
            final(self).pending().len() == 0,
            final(self).clock() == old(self).clock(),
            final(self).next_id() == old(self).next_id(),
            final(self).processed() == old(self).processed(),
    {
        self.event_queue.clear();
    }

    /// Back to the state of a new kernel.
    pub fn reset(&mut self)
        ensures
            final(self).wf(),
            final(self).pending().len() == 0,
            final(self).clock() == TimePoint(zero_key()),
            final(self).next_id() == 0,
            final(self).processed() == 0,
    {
        self.event_queue.clear();
        self.current_time = TimePoint::zero();
        self.event_id_gen = IdGenerator::new();
        self.events_processed = 0;
    }
}

/// Events leave the queue in order: after the next event is taken out, the
/// one next in line is handled after it (later, or at the same time and
/// scheduled later).
pub proof fn law_events_leave_in_order(s: Seq<ScheduledEvent>, i: int, j: int)
    requires
        is_next(s, i),
        is_next(s.remove(i), j),
    ensures
        precedes(s[i], s.remove(i)[j]),
        s[i].time.0 <= s.remove(i)[j].time.0,
{
    let k = if j < i { j } else { j + 1 };
    assert(s.remove(i)[j] == s[k]);
}

/// Ties are broken canonically: among the pending events of a kernel, only
/// one is next in line, so the order of handling is fully determined.
pub proof fn law_next_event_is_unique(k: Kernel, i: int, j: int)
    requires
        k.wf(),
        is_next(k.pending(), i),
        is_next(k.pending(), j),
    ensures
        i == j,
{
    k.lemma_ids_distinct();
    if i != j {
        assert(precedes(k.pending()[i], k.pending()[j]));
        assert(precedes(k.pending()[j], k.pending()[i]));
        assert(k.pending()[i].id != k.pending()[j].id);
    }
}

/// The clock never runs backwards: the event handed out next is not due
/// before the current time.
pub proof fn law_clock_never_runs_backwards(k: Kernel, i: int)
    requires
        k.wf(),
        is_next(k.pending(), i),
    ensures
        k.clock().0 <= k.pending()[i].time.0,
{
    k.lemma_ids_distinct();
}

impl Default for Kernel {
    fn default() -> (k: Self)
        ensures
            k.wf(),
            k.pending().len() == 0,
            k.clock() == TimePoint(zero_key()),
            k.next_id() == 0,
            k.processed() == 0,
    {
        Kernel::new()
    }
}

} // verus!
