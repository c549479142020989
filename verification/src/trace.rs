//! Event traces for debugging and analysis: a bounded buffer of the most
//! recent entries, with optional deterministic sampling.

use std::collections::VecDeque;
use vstd::prelude::*;

use crate::reservation::TimePoint;
use crate::text::same_text;

verus! {

/// What a trace entry records. Real-valued quantities (durations, charge
/// level, energy) are carried as the bit patterns of their IEEE-754 double
/// values: traces only carry them.
#[derive(Clone, Debug)]
pub enum TraceDetails {
    RobotMove { robot_id: u32, from_node: u32, to_node: u32 },
    TaskAssign { task_id: u32, robot_id: u32 },
    TaskComplete { task_id: u32, robot_id: u32 },
    OrderComplete { order_id: u32, cycle_time_s_bits: u64, is_late: bool },
    StationService { station_id: u32, robot_id: u32, duration_s_bits: u64 },
    RobotFailure { robot_id: u32 },
    RobotMaintenance { robot_id: u32, station_id: u32, is_repair: bool },
    ChargingStart { robot_id: u32, station_id: u32, soc_bits: u64 },
    ChargingEnd { robot_id: u32, energy_wh_bits: u64 },
    Generic { message: String },
}

/// One traced event: when, of what kind, and its details.
#[derive(Clone, Debug)]
pub struct TraceEntry {
    pub timestamp: TimePoint,
    pub event_type: String,
    pub details: TraceDetails,
}

impl TraceEntry {
    /// An entry at `timestamp` of kind `event_type`.
    pub fn new(timestamp: TimePoint, event_type: &str, details: TraceDetails) -> (r: Self)
        ensures
            r.timestamp == timestamp,
            r.event_type@ == event_type@,
            r.details == details,
    {
        TraceEntry { timestamp, event_type: String::from_str(event_type), details }
    }
}

/// How events are sampled: all of them, or those whose running count
/// modulo 100 falls below a threshold (the sampling percentage).
#[derive(Clone, Copy, Debug, PartialEq, Eq, Structural)]
pub struct Sampling {
    pub all: bool,
    pub threshold: u64,
}

/// A buffer of the `max_entries` most recent trace entries, recording only
/// while enabled.
#[derive(Clone, Debug)]
pub struct EventTraceCollector {
    entries: VecDeque<TraceEntry>,
    max_entries: usize,
    sampling: Sampling,
    enabled: bool,
    sample_counter: u64,
}

/// The buffer after recording `entry` into `entries` with room for `max`:
/// the oldest entry makes way when the buffer is full.
pub open spec fn ring_push(entries: Seq<TraceEntry>, max: nat, entry: TraceEntry) -> Seq<TraceEntry> {
    if entries.len() >= max && entries.len() > 0 {
        entries.drop_first().push(entry)
    } else {
        entries.push(entry)
    }
}

/// `after` is `before` with an entry stamped `timestamp`, of kind
/// `event_type`, with `details` recorded into a buffer of `max` entries.
pub open spec fn recorded(
    before: Seq<TraceEntry>,
    max: nat,
    after: Seq<TraceEntry>,
    timestamp: TimePoint,
    event_type: Seq<char>,
    details: TraceDetails,
) -> bool {
    &&& after.len() > 0
    &&& after.last().event_type@ == event_type
    &&& after == ring_push(
        before,
        max,
        TraceEntry { timestamp, event_type: after.last().event_type, details },
    )
}

impl EventTraceCollector {
    /// The entries held, oldest first.
    pub closed spec fn held(&self) -> Seq<TraceEntry> {
        self.entries@
    }

    /// The number of entries kept at most (one when zero).
    pub closed spec fn capacity(&self) -> nat {
        self.max_entries as nat
    }

    /// How events are sampled.
    pub closed spec fn sampling_of(&self) -> Sampling {
        self.sampling
    }

    /// Whether the collector records.
    pub closed spec fn recording(&self) -> bool {
        self.enabled
    }

    /// How many events sampling has counted.
    pub closed spec fn counted(&self) -> u64 {
        self.sample_counter
    }

    /// An empty, disabled collector keeping up to `max_entries` entries.
    pub fn new(max_entries: usize, sampling: Sampling) -> (r: Self)
        ensures
            r.held().len() == 0,
            r.capacity() == max_entries,
            r.sampling_of() == sampling,
            !r.recording(),
            r.counted() == 0,
    {
        EventTraceCollector {
            entries: VecDeque::new(),
            max_entries,
            sampling,
            enabled: false,
            sample_counter: 0,
        }
    }

    /// Switches recording on or off.
    pub fn set_enabled(&mut self, enabled: bool)
        ensures
            final(self).recording() == enabled,
            final(self).held() == old(self).held(),
            final(self).capacity() == old(self).capacity(),
            final(self).sampling_of() == old(self).sampling_of(),
            final(self).counted() == old(self).counted(),
    {
        self.enabled = enabled;
    }

    /// Whether the collector records.
    pub fn is_enabled(&self) -> (r: bool)
        ensures
            r == self.recording(),
    {
        self.enabled
    }

    /// Whether to record the next event: never while disabled; always when
    /// sampling all; otherwise the count of sampled events goes up by one
    /// and the event is taken when the count modulo 100 is below the
    /// threshold.
    pub fn should_sample(&mut self) -> (r: bool)
        requires
            old(self).counted() < u64::MAX,
        ensures
            !old(self).recording() ==> !r && final(self).counted() == old(self).counted(),
            old(self).recording() && old(self).sampling_of().all ==> r && final(self).counted()
                == old(self).counted(),
            old(self).recording() && !old(self).sampling_of().all ==> {
                &&& final(self).counted() == old(self).counted() + 1
                &&& r == ((final(self).counted() % 100) < old(self).sampling_of().threshold)
            },
            final(self).held() == old(self).held(),
            final(self).capacity() == old(self).capacity(),
            final(self).sampling_of() == old(self).sampling_of(),
            final(self).recording() == old(self).recording(),
    {
        if !self.enabled {
            return false;
        }
        if self.sampling.all {
            return true;
        }
        self.sample_counter = self.sample_counter + 1;
        (self.sample_counter % 100) < self.sampling.threshold
    }

    /// Records an entry if enabled; when the buffer is full the oldest entry
    /// is dropped first.
    pub fn record(&mut self, timestamp: TimePoint, event_type: &str, details: TraceDetails)
        ensures
            old(self).recording() ==> recorded(
                old(self).held(),
                old(self).capacity(),
                final(self).held(),
                timestamp,
                event_type@,
                details,
            ),
            !old(self).recording() ==> final(self).held() == old(self).held(),
            final(self).capacity() == old(self).capacity(),
            final(self).sampling_of() == old(self).sampling_of(),
            final(self).recording() == old(self).recording(),
            final(self).counted() == old(self).counted(),
    {
        if !self.enabled {
            return;
        }
        let entry = TraceEntry::new(timestamp, event_type, details);
        if self.entries.len() >= self.max_entries {
            self.entries.pop_front();
        }
        self.entries.push_back(entry);
    }

    /// Records an entry if sampling takes it (see `should_sample`).
    pub fn record_sampled(&mut self, timestamp: TimePoint, event_type: &str, details: TraceDetails)
        requires
            old(self).counted() < u64::MAX,
        ensures
            !old(self).recording() ==> final(self).held() == old(self).held() && final(self).counted()
                == old(self).counted(),
            old(self).recording() && old(self).sampling_of().all ==> final(self).counted() == old(
                self,
            ).counted() && recorded(old(self).held(), old(self).capacity(), final(self).held(), timestamp, event_type@, details),
            old(self).recording() && !old(self).sampling_of().all ==> {
                &&& final(self).counted() == old(self).counted() + 1
                &&& (final(self).counted() % 100) < old(self).sampling_of().threshold ==> recorded(
                    old(self).held(),
                    old(self).capacity(),
                    final(self).held(),
                    timestamp,
                    event_type@,
                    details,
                )
                &&& !((final(self).counted() % 100) < old(self).sampling_of().threshold)
                    ==> final(self).held() == old(self).held()
            },
            final(self).capacity() == old(self).capacity(),
            final(self).sampling_of() == old(self).sampling_of(),
            final(self).recording() == old(self).recording(),
    {
        if self.should_sample() {
            self.record(timestamp, event_type, details);
        }
    }

    /// The entries held, oldest first.
    pub fn entries(&self) -> (r: &VecDeque<TraceEntry>)
        ensures
            r@ == self.held(),
    {
        &self.entries
    }

    /// The number of entries held.
    pub fn len(&self) -> (r: usize)
        ensures
            r == self.held().len(),
    {
        self.entries.len()
    }

    /// Whether no entry is held.
    pub fn is_empty(&self) -> (r: bool)
        ensures
            r == (self.held().len() == 0),
    {
        self.entries.len() == 0
    }

    /// Drops every entry.
    pub fn clear(&mut self)
        ensures
            final(self).held().len() == 0,
            final(self).capacity() == old(self).capacity(),
            final(self).sampling_of() == old(self).sampling_of(),
            final(self).recording() == old(self).recording(),
            final(self).counted() == old(self).counted(),
    {
        self.entries.clear();
    }

    /// The positions of the entries stamped from `start` to `end`
    /// (inclusive), oldest first.
    pub fn entries_in_range(&self, start: TimePoint, end: TimePoint) -> (r: Vec<usize>)
        ensures
            r@.len() <= self.held().len(),
            forall|k: int| 0 <= k < r@.len() ==> #[trigger] r@[k] < self.held().len(),
            forall|k: int, l: int| 0 <= k < l < r@.len() ==> r@[k] < r@[l],
            forall|i: int|
                0 <= i < self.held().len() ==> (r@.contains(i as usize) <==> (start.0
                    <= #[trigger] self.held()[i].timestamp.0 && self.held()[i].timestamp.0 <= end.0)),
    {
        let mut out: Vec<usize> = Vec::new();
        let mut i: usize = 0;
        while i < self.entries.len()
            invariant
                i <= self.entries@.len(),
                out@.len() <= i,
                forall|k: int| 0 <= k < out@.len() ==> #[trigger] out@[k] < i,
                forall|k: int, l: int| 0 <= k < l < out@.len() ==> out@[k] < out@[l],
                forall|j: int|
                    0 <= j < i ==> (out@.contains(j as usize) <==> (start.0
                        <= #[trigger] self.entries@[j].timestamp.0 && self.entries@[j].timestamp.0
                        <= end.0)),
            decreases self.entries@.len() - i,
        {
            let t = self.entries[i].timestamp;
            let ghost before = out@;
            if start.0 <= t.0 && t.0 <= end.0 {
                out.push(i);
                assert(out@[out@.len() - 1] == i);
            }
            proof {
                assert forall|j: int|
                    0 <= j < i + 1 implies (out@.contains(j as usize) <==> (start.0
                        <= #[trigger] self.entries@[j].timestamp.0 && self.entries@[j].timestamp.0
                        <= end.0)) by {
                    if j < i {
                        if before.contains(j as usize) {
                            let k = choose|k: int| 0 <= k < before.len() && before[k] == j as usize;
                            assert(out@[k] == j as usize);
                        }
                        if out@.contains(j as usize) {
                            let k = choose|k: int| 0 <= k < out@.len() && out@[k] == j as usize;
                            if k < before.len() {
                                assert(before[k] == j as usize);
                            }
                        }
                    } else {
                        if out@.contains(j as usize) {
                            let k = choose|k: int| 0 <= k < out@.len() && out@[k] == j as usize;
                            if k < before.len() {
                                assert(before[k] < i);
                            }
                        }
                    }
                }
            }
            i = i + 1;
        }
        out
    }

    /// The positions of the entries of kind `event_type`, oldest first.
    pub fn entries_by_type(&self, event_type: &str) -> (r: Vec<usize>)
        ensures
            forall|k: int| 0 <= k < r@.len() ==> #[trigger] r@[k] < self.held().len(),
            forall|k: int, l: int| 0 <= k < l < r@.len() ==> r@[k] < r@[l],
            forall|i: int|
                0 <= i < self.held().len() ==> (r@.contains(i as usize) <==> (
                #[trigger] self.held()[i]).event_type@ == event_type@),
    {
        let mut out: Vec<usize> = Vec::new();
        let mut i: usize = 0;
        while i < self.entries.len()
            invariant
                i <= self.entries@.len(),
                forall|k: int| 0 <= k < out@.len() ==> #[trigger] out@[k] < i,
                forall|k: int, l: int| 0 <= k < l < out@.len() ==> out@[k] < out@[l],
                forall|j: int|
                    0 <= j < i ==> (out@.contains(j as usize) <==> (
                    #[trigger] self.entries@[j]).event_type@ == event_type@),
            decreases self.entries@.len() - i,
        {
            let ghost before = out@;
            if same_text(self.entries[i].event_type.as_str(), event_type) {
                out.push(i);
                assert(out@[out@.len() - 1] == i);
            }
            proof {
                assert forall|j: int|
                    0 <= j < i + 1 implies (out@.contains(j as usize) <==> (
                    #[trigger] self.entries@[j]).event_type@ == event_type@) by {
                    if j < i {
                        if before.contains(j as usize) {
                            let k = choose|k: int| 0 <= k < before.len() && before[k] == j as usize;
                            assert(out@[k] == j as usize);
                        }
                        if out@.contains(j as usize) {
                            let k = choose|k: int| 0 <= k < out@.len() && out@[k] == j as usize;
                            if k < before.len() {
                                assert(before[k] == j as usize);
                            }
                        }
                    } else {
                        if out@.contains(j as usize) {
                            let k = choose|k: int| 0 <= k < out@.len() && out@[k] == j as usize;
                            if k < before.len() {
                                assert(before[k] < i);
                            }
                        }
                    }
                }
            }
            i = i + 1;
        }
        out
    }
}

/// The buffer never holds more entries than it may keep (one, when the
/// limit is zero), whatever is recorded.
pub proof fn law_ring_stays_bounded(entries: Seq<TraceEntry>, max: nat, entry: TraceEntry)
    requires
        entries.len() <= if max == 0 {
            1
        } else {
            max
        },
    ensures
        ring_push(entries, max, entry).len() <= if max == 0 {
            1
        } else {
            max
        },
        ring_push(entries, max, entry).last() == entry,
{
}

} // verus!
