//! Decision policies: task allocation, station assignment, batching,
//! priority, destination, traffic handling, traffic control and deadlock
//! resolution.
//!
//! Each policy takes the plain facts its decision reads (candidate robots,
//! stations, task types); gathering them from the simulation state happens
//! where that state lives.

use vstd::prelude::*;
use vstd::relations::{sorted_by, total_ordering};

use crate::entities::{Robot, RobotState, Station, StationType, TaskType};
use crate::ids::{EdgeId, NodeId, RobotId, StationId, TaskId};
use crate::reservation::TimePoint;
use crate::traffic::{may_enter, TrafficManager};

verus! {

broadcast use vstd::seq_lib::group_seq_properties;

// ---------------------------------------------------------------------------
// Task allocation
// ---------------------------------------------------------------------------

/// Whether a robot can take a task (as `Robot::is_available` decides),
/// given whether its maintenance interval is reached.
pub open spec fn robot_available(r: Robot, interval_reached: bool) -> bool {
    r.state == RobotState::Idle && r.current_task is None && !r.maintenance.is_failed && !(
    r.maintenance.enabled && interval_reached)
}

/// The first `i` robots that can take a task, with their keys, in order.
pub open spec fn available_upto<K>(robots: Seq<Robot>, due: Seq<bool>, keys: Seq<K>, i: int) -> Seq<
    (RobotId, K),
>
    decreases i,
{
    if i <= 0 {
        Seq::empty()
    } else {
        let rest = available_upto(robots, due, keys, i - 1);
        if robot_available(robots[i - 1], due[i - 1]) {
            rest.push((robots[i - 1].id, keys[i - 1]))
        } else {
            rest
        }
    }
}

/// The robots that can take a task, with their keys, in order.
pub open spec fn available_with<K>(robots: Seq<Robot>, due: Seq<bool>, keys: Seq<K>) -> Seq<
    (RobotId, K),
> {
    available_upto(robots, due, keys, robots.len() as int)
}

/// The task-queue lengths of `robots`.
pub open spec fn queue_lengths(robots: Seq<Robot>) -> Seq<usize> {
    robots.map_values(|r: Robot| r.task_queue@.len() as usize)
}

/// The robots of `robots` that can take a task, each with its key.
/// `due[i]` says whether robot `i`'s maintenance interval is reached.
pub fn available_candidates(robots: &[Robot], due: &[bool], keys: &[u64]) -> (r: Vec<
    (RobotId, u64),
>)
    requires
        due@.len() == robots@.len(),
        keys@.len() == robots@.len(),
    ensures
        r@ == available_with(robots@, due@, keys@),
{
    let mut r: Vec<(RobotId, u64)> = Vec::new();
    let mut i: usize = 0;
    while i < robots.len()
        invariant
            i <= robots@.len(),
            due@.len() == robots@.len(),
            keys@.len() == robots@.len(),
            r@ == available_upto(robots@, due@, keys@, i as int),
        decreases robots@.len() - i,
    {
        if robots[i].is_available(due[i]) {
            r.push((robots[i].id, keys[i]));
        }
        i = i + 1;
    }
    r
}

/// The robots of `robots` that can take a task, each with the length of its
/// task queue.
pub fn available_with_queues(robots: &[Robot], due: &[bool]) -> (r: Vec<(RobotId, usize)>)
    requires
        due@.len() == robots@.len(),
    ensures
        r@ == available_with(robots@, due@, queue_lengths(robots@)),
{
    let mut r: Vec<(RobotId, usize)> = Vec::new();
    let mut i: usize = 0;
    while i < robots.len()
        invariant
            i <= robots@.len(),
            due@.len() == robots@.len(),
            r@ == available_upto(robots@, due@, queue_lengths(robots@), i as int),
        decreases robots@.len() - i,
    {
        if robots[i].is_available(due[i]) {
            r.push((robots[i].id, robots[i].task_queue.len()));
        }
        i = i + 1;
    }
    r
}

/// The identifiers of the available robots, in order.
pub open spec fn available_ids(robots: Seq<Robot>, due: Seq<bool>) -> Seq<RobotId> {
    available_with(robots, due, due).map_values(|p: (RobotId, bool)| p.0)
}

/// The identifiers of the robots of `robots` that can take a task.
pub fn available_robots(robots: &[Robot], due: &[bool]) -> (r: Vec<RobotId>)
    requires
        due@.len() == robots@.len(),
    ensures
        r@ == available_ids(robots@, due@),
{
    let mut r: Vec<RobotId> = Vec::new();
    let mut i: usize = 0;
    while i < robots.len()
        invariant
            i <= robots@.len(),
            due@.len() == robots@.len(),
            r@ == available_upto(robots@, due@, due@, i as int).map_values(|p: (RobotId, bool)| p.0),
        decreases robots@.len() - i,
    {
        let ghost before = available_upto(robots@, due@, due@, i as int);
        if robots[i].is_available(due[i]) {
            r.push(robots[i].id);
            assert(before.push((robots@[i as int].id, due@[i as int])).map_values(
                |p: (RobotId, bool)| p.0,
            ) =~= before.map_values(|p: (RobotId, bool)| p.0).push(robots@[i as int].id));
        }
        i = i + 1;
    }
    r
}

/// Allocates tasks to the nearest idle robot.
pub struct NearestRobotPolicy;

impl NearestRobotPolicy {
    pub fn new() -> (r: Self) {
        NearestRobotPolicy
    }

    /// The policy's name for logging.
    pub fn name(&self) -> (r: &'static str)
        ensures
            r@ == "nearest_robot"@,
    {
        "nearest_robot"
    }

    /// Picks, among the available robots given with the order key of their
    /// distance to the pickup, the first one nearest to it.
    pub fn allocate(&self, candidates: &[(RobotId, u64)]) -> (r: Option<RobotId>)
        ensures
            candidates@.len() == 0 <==> r is None,
            r matches Some(robot) ==> exists|i: int|
                is_first_least(candidates@, i) && candidates@[i].0 == robot,
    {
        match first_least(candidates) {
            Some(i) => Some(candidates[i].0),
            None => None,
        }
    }

    /// Picks among `robots` those that can take a task (`due[i]` says whether
    /// robot `i`'s maintenance interval is reached), each with the order key
    /// of its distance to the pickup, the first one nearest to it.
    pub fn allocate_available(&self, robots: &[Robot], due: &[bool], distance_keys: &[u64]) -> (r:
        Option<RobotId>)
        requires
            due@.len() == robots@.len(),
            distance_keys@.len() == robots@.len(),
        ensures
            available_with(robots@, due@, distance_keys@).len() == 0 <==> r is None,
            r matches Some(robot) ==> exists|i: int|
                is_first_least(available_with(robots@, due@, distance_keys@), i) && available_with(
                    robots@,
                    due@,
                    distance_keys@,
                )[i].0 == robot,
    {
        let candidates = available_candidates(robots, due, distance_keys);
        self.allocate(&candidates)
    }
}

/// Position `i` holds the first smallest key of `s`.
pub open spec fn is_first_least(s: Seq<(RobotId, u64)>, i: int) -> bool {
    &&& 0 <= i < s.len()
    &&& forall|j: int| 0 <= j < s.len() ==> s[i].1 <= #[trigger] s[j].1
    &&& forall|j: int| 0 <= j < i ==> s[i].1 < #[trigger] s[j].1
}

/// The position of the first smallest key, if there is any candidate.
fn first_least(candidates: &[(RobotId, u64)]) -> (r: Option<usize>)
    ensures
        candidates@.len() == 0 <==> r is None,
        r matches Some(i) ==> is_first_least(candidates@, i as int),
{
    if candidates.len() == 0 {
        return None;
    }
    let mut best: usize = 0;
    let mut i: usize = 1;
    while i < candidates.len()
        invariant
            0 <= best < i <= candidates@.len(),
            forall|j: int| 0 <= j < i ==> candidates@[best as int].1 <= #[trigger] candidates@[j].1,
            forall|j: int| 0 <= j < best ==> candidates@[best as int].1 < #[trigger] candidates@[j].1,
        decreases candidates@.len() - i,
    {
        if candidates[i].1 < candidates[best].1 {
            best = i;
        }
        i = i + 1;
    }
    Some(best)
}

impl Default for NearestRobotPolicy {
    fn default() -> (r: Self) {
        NearestRobotPolicy::new()
    }
}

/// Orders robots by raw identifier.
pub open spec fn robot_id_leq() -> spec_fn(RobotId, RobotId) -> bool {
    |a: RobotId, b: RobotId| a.0 <= b.0
}

proof fn lemma_robot_id_leq_total()
    ensures
        total_ordering(robot_id_leq()),
{
}

/// Sorts robots by raw identifier.
fn sort_robots(v: &[RobotId]) -> (r: Vec<RobotId>)
    ensures
        r@ == v@.sort_by(robot_id_leq()),
{
    let ghost leq = robot_id_leq();
    let mut r: Vec<RobotId> = Vec::new();
    let mut i: usize = 0;
    while i < v.len()
        invariant
            i <= v@.len(),
            leq == robot_id_leq(),
            sorted_by(r@, leq),
            r@.to_multiset() == v@.subrange(0, i as int).to_multiset(),
        decreases v@.len() - i,
    {
        let x = v[i];
        let mut p: usize = 0;
        while p < r.len() && r[p].0 <= x.0
            invariant
                p <= r@.len(),
                forall|j: int| 0 <= j < p ==> r@[j].0 <= x.0,
            decreases r@.len() - p,
        {
            p = p + 1;
        }
        let ghost before = r@;
        r.insert(p, x);
        proof {
            assert(r@ == before.insert(p as int, x));
            assert forall|a: int, b: int| 0 <= a < b < r@.len() implies #[trigger] leq(r@[a], r@[b]) by {
                if b < p {
                    assert(leq(before[a], before[b]));
                } else if b == p {
                    assert(before[a].0 <= x.0);
                } else if a < p {
                    assert(leq(before[a], before[b - 1]));
                } else if a == p {
                    assert(!(before[p as int].0 <= x.0));
                    assert(leq(before[p as int], before[b - 1]) || p == b - 1);
                } else {
                    assert(leq(before[a - 1], before[b - 1]));
                }
            }
            assert(v@.subrange(0, i + 1) =~= v@.subrange(0, i as int).push(x));
        }
        i = i + 1;
    }
    proof {
        assert(v@.subrange(0, v@.len() as int) =~= v@);
        lemma_robot_id_leq_total();
        v@.lemma_sort_by_ensures(leq);
        vstd::seq_lib::lemma_sorted_unique(r@, v@.sort_by(leq), leq);
    }
    r
}

/// Round-robin allocation: cycles through the available robots in order of
/// their identifiers.
pub struct RoundRobinPolicy {
    last_index: usize,
}

impl RoundRobinPolicy {
    /// How many allocations have been made (modulo the word size).
    pub closed spec fn counter(&self) -> usize {
        self.last_index
    }

    /// A policy whose next allocation takes the first robot.
    pub fn new() -> (r: Self)
        ensures
            r.counter() == 0,
    {
        RoundRobinPolicy { last_index: 0 }
    }

    /// The policy's name for logging.
    pub fn name(&self) -> (r: &'static str)
        ensures
            r@ == "round_robin"@,
    {
        "round_robin"
    }

    /// Picks among the available robots, sorted by identifier, the one at the
    /// position given by the counter (wrapping around), and advances the
    /// counter. With no robot available it picks none and the counter stays.
    pub fn allocate(&mut self, available: &[RobotId]) -> (r: Option<RobotId>)
        ensures
            available@.len() == 0 ==> r is None && final(self).counter() == old(self).counter(),
            available@.len() > 0 ==> {
                &&& r == Some(
                    available@.sort_by(robot_id_leq())[(old(self).counter() as int) % (available@.len() as int)],
                )
                &&& final(self).counter() == old(self).counter().wrapping_add(1)
            },
    {
        if available.len() == 0 {
            return None;
        }
        let sorted = sort_robots(available);
        proof {
            lemma_robot_id_leq_total();
            available@.lemma_sort_by_ensures(robot_id_leq());
            assert(sorted@.len() == available@.len()) by {
                assert(sorted@.to_multiset().len() == available@.to_multiset().len());
            }
        }
        let idx = self.last_index % available.len();
        self.last_index = self.last_index.wrapping_add(1);
        Some(sorted[idx])
    }

    /// Picks among `robots` those that can take a task (`due[i]` says
    /// whether robot `i`'s maintenance interval is reached), sorted by
    /// identifier, the one at the counter's position (wrapping around), and
    /// advances the counter; with none available it picks none.
    pub fn allocate_available(&mut self, robots: &[Robot], due: &[bool]) -> (r: Option<RobotId>)
        requires
            due@.len() == robots@.len(),
        ensures
            ({
                let avail = available_ids(robots@, due@);
                &&& avail.len() == 0 ==> r is None && final(self).counter() == old(self).counter()
                &&& avail.len() > 0 ==> {
                    &&& r == Some(
                        avail.sort_by(robot_id_leq())[(old(self).counter() as int) % (
                        avail.len() as int)],
                    )
                    &&& final(self).counter() == old(self).counter().wrapping_add(1)
                }
            }),
    {
        let available = available_robots(robots, due);
        self.allocate(&available)
    }
}

/// Round robin gives every robot a turn: over `n` consecutive allocations
/// among the same `n` robots, whatever the counter `c` at the start, every
/// position `j` of the sorted robots is picked by one of them.
pub proof fn law_round_robin_gives_every_robot_a_turn(c: int, n: int, j: int)
    requires
        c >= 0,
        n > 0,
        0 <= j < n,
    ensures
        exists|k: int| 0 <= k < n && #[trigger] ((c + k) % n) == j,
{
    let q = c / n;
    let r = c % n;
    vstd::arithmetic::div_mod::lemma_fundamental_div_mod(c, n);
    if j >= r {
        let k = j - r;
        vstd::arithmetic::div_mod::lemma_fundamental_div_mod_converse(c + k, n, q, j);
        assert((c + k) % n == j);
    } else {
        let k = j - r + n;
        assert(c + k == (q + 1) * n + j) by (nonlinear_arith)
            requires
                c == n * q + r,
                k == j - r + n,
        ;
        vstd::arithmetic::div_mod::lemma_fundamental_div_mod_converse(c + k, n, q + 1, j);
        assert((c + k) % n == j);
    }
}

impl Default for RoundRobinPolicy {
    fn default() -> (r: Self)
        ensures
            r.counter() == 0,
    {
        RoundRobinPolicy::new()
    }
}

/// The first position whose value is the smallest of `s`.
pub open spec fn is_first_min(s: Seq<usize>, i: int) -> bool {
    &&& 0 <= i < s.len()
    &&& forall|j: int| 0 <= j < s.len() ==> s[i] <= #[trigger] s[j]
    &&& forall|j: int| 0 <= j < i ==> s[i] < #[trigger] s[j]
}

/// Allocates tasks to the robot with the shortest task queue.
pub struct LeastBusyPolicy;

impl LeastBusyPolicy {
    pub fn new() -> (r: Self) {
        LeastBusyPolicy
    }

    /// The policy's name for logging.
    pub fn name(&self) -> (r: &'static str)
        ensures
            r@ == "least_busy"@,
    {
        "least_busy"
    }

    /// Picks, among available robots given with their task-queue lengths, the
    /// first one whose queue is shortest.
    pub fn allocate(&self, candidates: &[(RobotId, usize)]) -> (r: Option<RobotId>)
        ensures
            candidates@.len() == 0 <==> r is None,
            r matches Some(robot) ==> exists|i: int|
                is_first_min(candidates@.map_values(|c: (RobotId, usize)| c.1), i)
                    && candidates@[i].0 == robot,
    {
        if candidates.len() == 0 {
            return None;
        }
        let ghost lens = candidates@.map_values(|c: (RobotId, usize)| c.1);
        let mut best: usize = 0;
        let mut i: usize = 1;
        while i < candidates.len()
            invariant
                1 <= i <= candidates@.len(),
                best < i,
                lens == candidates@.map_values(|c: (RobotId, usize)| c.1),
                forall|j: int| 0 <= j < i ==> lens[best as int] <= #[trigger] lens[j],
                forall|j: int| 0 <= j < best ==> lens[best as int] < #[trigger] lens[j],
            decreases candidates@.len() - i,
        {
            if candidates[i].1 < candidates[best].1 {
                best = i;
            }
            i = i + 1;
        }
        assert(is_first_min(lens, best as int));
        Some(candidates[best].0)
    }

    /// Picks among `robots` those that can take a task (`due[i]` says whether
    /// robot `i`'s maintenance interval is reached) the first one whose task
    /// queue is shortest.
    pub fn allocate_available(&self, robots: &[Robot], due: &[bool]) -> (r: Option<RobotId>)
        requires
            due@.len() == robots@.len(),
        ensures
            available_with(robots@, due@, queue_lengths(robots@)).len() == 0 <==> r is None,
            r matches Some(robot) ==> exists|i: int|
                is_first_min(
                    available_with(robots@, due@, queue_lengths(robots@)).map_values(
                        |c: (RobotId, usize)| c.1,
                    ),
                    i,
                ) && available_with(robots@, due@, queue_lengths(robots@))[i].0 == robot,
    {
        let candidates = available_with_queues(robots, due);
        self.allocate(&candidates)
    }
}

impl Default for LeastBusyPolicy {
    fn default() -> (r: Self) {
        LeastBusyPolicy::new()
    }
}


/// Auction allocation: each available robot bids the weighted sum of its
/// distance to the pickup and its queue length, and the lowest bid wins.
///
/// The weights are real numbers kept as the bit patterns of their IEEE-754
/// double values; the caller computes the bids.
pub struct AuctionPolicy {
    travel_weight_bits: u64,
    queue_weight_bits: u64,
}

impl AuctionPolicy {
    /// The weight of travel distance and of queue size (bit patterns).
    pub fn new(travel_weight_bits: u64, queue_weight_bits: u64) -> (r: Self)
        ensures
            r.spec_travel_weight_bits() == travel_weight_bits,
            r.spec_queue_weight_bits() == queue_weight_bits,
    {
        AuctionPolicy { travel_weight_bits, queue_weight_bits }
    }

    pub closed spec fn spec_travel_weight_bits(&self) -> u64 {
        self.travel_weight_bits
    }

    pub closed spec fn spec_queue_weight_bits(&self) -> u64 {
        self.queue_weight_bits
    }

    /// The weight of travel distance, as a bit pattern.
    pub fn travel_weight_bits(&self) -> (r: u64)
        ensures
            r == self.spec_travel_weight_bits(),
    {
        self.travel_weight_bits
    }

    /// The weight of queue size, as a bit pattern.
    pub fn queue_weight_bits(&self) -> (r: u64)
        ensures
            r == self.spec_queue_weight_bits(),
    {
        self.queue_weight_bits
    }

    /// The policy's name for logging.
    pub fn name(&self) -> (r: &'static str)
        ensures
            r@ == "auction"@,
    {
        "auction"
    }

    /// Picks, among the available robots given with the order key of their
    /// bid, the first one with the lowest bid.
    pub fn allocate(&self, bids: &[(RobotId, u64)]) -> (r: Option<RobotId>)
        ensures
            bids@.len() == 0 <==> r is None,
            r matches Some(robot) ==> exists|i: int| is_first_least(bids@, i) && bids@[i].0 == robot,
    {
        match first_least(bids) {
            Some(i) => Some(bids[i].0),
            None => None,
        }
    }

    /// Picks among `robots` those that can take a task (`due[i]` says whether
    /// robot `i`'s maintenance interval is reached), each with the order key
    /// of its bid, the first one with the lowest bid.
    pub fn allocate_available(&self, robots: &[Robot], due: &[bool], bid_keys: &[u64]) -> (r: Option<
        RobotId,
    >)
        requires
            due@.len() == robots@.len(),
            bid_keys@.len() == robots@.len(),
        ensures
            available_with(robots@, due@, bid_keys@).len() == 0 <==> r is None,
            r matches Some(robot) ==> exists|i: int|
                is_first_least(available_with(robots@, due@, bid_keys@), i) && available_with(
                    robots@,
                    due@,
                    bid_keys@,
                )[i].0 == robot,
    {
        let candidates = available_candidates(robots, due, bid_keys);
        self.allocate(&candidates)
    }
}

impl Default for AuctionPolicy {
    /// Travel weighs 1, queue size 0.5.
    fn default() -> (r: Self)
        ensures
            r.spec_travel_weight_bits() == 0x3FF0_0000_0000_0000u64,
            r.spec_queue_weight_bits() == 0x3FE0_0000_0000_0000u64,
    {
        AuctionPolicy::new(0x3FF0_0000_0000_0000u64, 0x3FE0_0000_0000_0000u64)
    }
}

/// Allocation that equalizes estimated work across robots.
pub struct WorkloadBalancedPolicy {
    include_travel: bool,
}

impl WorkloadBalancedPolicy {
    /// Whether travel time counts toward the workload.
    pub closed spec fn counts_travel(&self) -> bool {
        self.include_travel
    }

    pub fn new(include_travel: bool) -> (r: Self)
        ensures
            r.counts_travel() == include_travel,
    {
        WorkloadBalancedPolicy { include_travel }
    }

    /// Whether travel time counts toward the workload.
    pub fn include_travel(&self) -> (r: bool)
        ensures
            r == self.counts_travel(),
    {
        self.include_travel
    }

    /// The policy's name for logging.
    pub fn name(&self) -> (r: &'static str)
        ensures
            r@ == "workload_balanced"@,
    {
        "workload_balanced"
    }

    /// Picks, among the available robots given with the order key of the
    /// change to the fleet's largest workload that taking the task would
    /// make, the first one changing it least.
    pub fn allocate(&self, impacts: &[(RobotId, u64)]) -> (r: Option<RobotId>)
        ensures
            impacts@.len() == 0 <==> r is None,
            r matches Some(robot) ==> exists|i: int|
                is_first_least(impacts@, i) && impacts@[i].0 == robot,
    {
        match first_least(impacts) {
            Some(i) => Some(impacts[i].0),
            None => None,
        }
    }

    /// Picks among `robots` those that can take a task (`due[i]` says whether
    /// robot `i`'s maintenance interval is reached), each with the order key
    /// of the change to the largest workload, the first one changing it
    /// least.
    pub fn allocate_available(&self, robots: &[Robot], due: &[bool], impact_keys: &[u64]) -> (r:
        Option<RobotId>)
        requires
            due@.len() == robots@.len(),
            impact_keys@.len() == robots@.len(),
        ensures
            available_with(robots@, due@, impact_keys@).len() == 0 <==> r is None,
            r matches Some(robot) ==> exists|i: int|
                is_first_least(available_with(robots@, due@, impact_keys@), i) && available_with(
                    robots@,
                    due@,
                    impact_keys@,
                )[i].0 == robot,
    {
        let candidates = available_candidates(robots, due, impact_keys);
        self.allocate(&candidates)
    }
}

impl Default for WorkloadBalancedPolicy {
    fn default() -> (r: Self)
        ensures
            r.counts_travel(),
    {
        WorkloadBalancedPolicy::new(true)
    }
}

// ---------------------------------------------------------------------------
// Station assignment
// ---------------------------------------------------------------------------

/// A station as station assignment sees it: identifier, type, whether its
/// queue has room, and its queue length.
pub type StationCandidate = (StationId, StationType, bool, usize);

/// A station of type `t` whose queue has room.
pub open spec fn eligible(c: StationCandidate, t: StationType) -> bool {
    c.1 == t && c.2
}

/// Position `i` holds the first eligible station with the shortest queue.
pub open spec fn is_best_station(s: Seq<StationCandidate>, t: StationType, i: int) -> bool {
    &&& 0 <= i < s.len()
    &&& eligible(s[i], t)
    &&& forall|j: int| 0 <= j < s.len() && #[trigger] eligible(s[j], t) ==> s[i].3 <= s[j].3
    &&& forall|j: int| 0 <= j < i && #[trigger] eligible(s[j], t) ==> s[i].3 < s[j].3
}

/// Whether a station's queue has room (as `Station::can_accept` decides).
pub open spec fn station_accepts(s: Station) -> bool {
    match s.queue_capacity {
        Some(cap) => s.queue@.len() < cap,
        None => true,
    }
}

/// The stations as station assignment sees them, each with `key`: its
/// queue length.
pub open spec fn queue_candidates(stations: Seq<Station>) -> Seq<StationCandidate> {
    stations.map_values(
        |s: Station| (s.id, s.station_type, station_accepts(s), s.queue@.len() as usize),
    )
}

/// The stations as the nearest-station policy sees them, each with the
/// order key of its distance to the task.
pub open spec fn distance_candidates(stations: Seq<Station>, keys: Seq<u64>) -> Seq<
    (StationId, StationType, bool, u64),
> {
    Seq::new(
        stations.len(),
        |i: int| (stations[i].id, stations[i].station_type, station_accepts(stations[i]), keys[i]),
    )
}

/// Each station with its type, whether its queue has room, and its queue
/// length.
pub fn station_candidates(stations: &[Station]) -> (r: Vec<StationCandidate>)
    ensures
        r@ == queue_candidates(stations@),
{
    let mut r: Vec<StationCandidate> = Vec::new();
    let mut i: usize = 0;
    while i < stations.len()
        invariant
            i <= stations@.len(),
            r@ == queue_candidates(stations@.take(i as int)),
        decreases stations@.len() - i,
    {
        let s = &stations[i];
        r.push((s.id, s.station_type, s.can_accept(), s.queue_length()));
        assert(stations@.take(i + 1) =~= stations@.take(i as int).push(stations@[i as int]));
        assert(queue_candidates(stations@.take(i + 1)) =~= queue_candidates(stations@.take(i as int)).push(
            (s.id, s.station_type, station_accepts(*s), s.queue@.len() as usize),
        ));
        i = i + 1;
    }
    assert(stations@.take(stations@.len() as int) =~= stations@);
    r
}

/// Each station with its type, whether its queue has room, and the order
/// key of its distance to the task.
pub fn station_distance_candidates(stations: &[Station], keys: &[u64]) -> (r: Vec<
    (StationId, StationType, bool, u64),
>)
    requires
        keys@.len() == stations@.len(),
    ensures
        r@ == distance_candidates(stations@, keys@),
{
    let mut r: Vec<(StationId, StationType, bool, u64)> = Vec::new();
    let mut i: usize = 0;
    while i < stations.len()
        invariant
            i <= stations@.len(),
            keys@.len() == stations@.len(),
            r@ == distance_candidates(stations@, keys@).take(i as int),
        decreases stations@.len() - i,
    {
        let s = &stations[i];
        r.push((s.id, s.station_type, s.can_accept(), keys[i]));
        assert(distance_candidates(stations@, keys@).take(i + 1) =~= distance_candidates(
            stations@,
            keys@,
        ).take(i as int).push((s.id, s.station_type, station_accepts(*s), keys@[i as int])));
        i = i + 1;
    }
    assert(distance_candidates(stations@, keys@).take(stations@.len() as int) =~= distance_candidates(
        stations@,
        keys@,
    ));
    r
}

/// Assigns tasks to the station of the wanted type with the shortest queue.
pub struct LeastQueuePolicy {
    station_type: StationType,
}

impl LeastQueuePolicy {
    /// The type of station this policy assigns to.
    pub closed spec fn spec_station_type(&self) -> StationType {
        self.station_type
    }

    pub fn new(station_type: StationType) -> (r: Self)
        ensures
            r.spec_station_type() == station_type,
    {
        LeastQueuePolicy { station_type }
    }

    /// A policy that assigns to pick stations.
    pub fn for_pick() -> (r: Self)
        ensures
            r.spec_station_type() == StationType::Pick,
    {
        Self::new(StationType::Pick)
    }

    /// The policy's name for logging.
    pub fn name(&self) -> (r: &'static str)
        ensures
            r@ == "least_queue"@,
    {
        "least_queue"
    }

    /// Among the stations of the policy's type that can accept a robot, the
    /// first one with the shortest queue.
    pub fn assign(&self, stations: &[StationCandidate]) -> (r: Option<StationId>)
        ensures
            r is None <==> forall|i: int|
                0 <= i < stations@.len() ==> !#[trigger] eligible(stations@[i], self.spec_station_type()),
            r matches Some(s) ==> exists|i: int|
                is_best_station(stations@, self.spec_station_type(), i) && stations@[i].0 == s,
    {
        let ghost t = self.station_type;
        let mut best: Option<usize> = None;
        let mut i: usize = 0;
        while i < stations.len()
            invariant
                i <= stations@.len(),
                t == self.station_type,
                best is None <==> forall|j: int| 0 <= j < i ==> !#[trigger] eligible(stations@[j], t),
                best matches Some(b) ==> {
                    &&& b < i
                    &&& eligible(stations@[b as int], t)
                    &&& forall|j: int|
                        0 <= j < i && #[trigger] eligible(stations@[j], t) ==> stations@[b as int].3
                            <= stations@[j].3
                    &&& forall|j: int|
                        0 <= j < b && #[trigger] eligible(stations@[j], t) ==> stations@[b as int].3
                            < stations@[j].3
                },
            decreases stations@.len() - i,
        {
            let c = &stations[i];
            if c.1 == self.station_type && c.2 {
                assert(eligible(stations@[i as int], t));
                match best {
                    Some(b) => {
                        if c.3 < stations[b].3 {
                            best = Some(i);
                        }
                    },
                    None => {
                        best = Some(i);
                    },
                }
            }
            i = i + 1;
        }
        match best {
            Some(b) => {
                assert(is_best_station(stations@, t, b as int));
                Some(stations[b].0)
            },
            None => None,
        }
    }

    /// Among `stations` of the policy's type that can accept a robot, the
    /// first one with the shortest queue.
    pub fn assign_stations(&self, stations: &[Station]) -> (r: Option<StationId>)
        ensures
            r is None <==> forall|i: int|
                0 <= i < stations@.len() ==> !#[trigger] eligible(
                    queue_candidates(stations@)[i],
                    self.spec_station_type(),
                ),
            r matches Some(s) ==> exists|i: int|
                is_best_station(queue_candidates(stations@), self.spec_station_type(), i)
                    && queue_candidates(stations@)[i].0 == s,
    {
        let candidates = station_candidates(stations);
        self.assign(&candidates)
    }
}

impl Default for LeastQueuePolicy {
    fn default() -> (r: Self)
        ensures
            r.spec_station_type() == StationType::Pick,
    {
        Self::for_pick()
    }
}

/// Assigns tasks to the nearest station of the wanted type.
pub struct NearestStationPolicy {
    station_type: StationType,
}

impl NearestStationPolicy {
    /// The type of station this policy assigns to.
    pub closed spec fn spec_station_type(&self) -> StationType {
        self.station_type
    }

    pub fn new(station_type: StationType) -> (r: Self)
        ensures
            r.spec_station_type() == station_type,
    {
        NearestStationPolicy { station_type }
    }

    /// A policy that assigns to pick stations.
    pub fn for_pick() -> (r: Self)
        ensures
            r.spec_station_type() == StationType::Pick,
    {
        Self::new(StationType::Pick)
    }

    /// The type of station this policy assigns to.
    pub fn station_type(&self) -> (r: StationType)
        ensures
            r == self.spec_station_type(),
    {
        self.station_type
    }

    /// The policy's name for logging.
    pub fn name(&self) -> (r: &'static str)
        ensures
            r@ == "nearest_station"@,
    {
        "nearest_station"
    }

    /// Among the stations of the policy's type that can accept a robot,
    /// given with the order key of their distance to the task, the first
    /// nearest one.
    pub fn assign(&self, stations: &[(StationId, StationType, bool, u64)]) -> (r: Option<
        StationId,
    >)
        ensures
            r is None <==> forall|i: int|
                0 <= i < stations@.len() ==> !#[trigger] open_station(
                    stations@[i],
                    self.spec_station_type(),
                ),
            r matches Some(s) ==> exists|i: int|
                is_nearest_station(stations@, self.spec_station_type(), i) && stations@[i].0 == s,
    {
        let ghost t = self.station_type;
        let mut best: Option<usize> = None;
        let mut i: usize = 0;
        while i < stations.len()
            invariant
                i <= stations@.len(),
                t == self.station_type,
                best is None <==> forall|j: int| 0 <= j < i ==> !#[trigger] open_station(stations@[j], t),
                best matches Some(b) ==> {
                    &&& b < i
                    &&& open_station(stations@[b as int], t)
                    &&& forall|j: int|
                        0 <= j < i && #[trigger] open_station(stations@[j], t) ==> stations@[b as int].3
                            <= stations@[j].3
                    &&& forall|j: int|
                        0 <= j < b && #[trigger] open_station(stations@[j], t) ==> stations@[b as int].3
                            < stations@[j].3
                },
            decreases stations@.len() - i,
        {
            let c = &stations[i];
            if c.1 == self.station_type && c.2 {
                assert(open_station(stations@[i as int], t));
                match best {
                    Some(b) => {
                        if c.3 < stations[b].3 {
                            best = Some(i);
                        }
                    },
                    None => {
                        best = Some(i);
                    },
                }
            }
            i = i + 1;
        }
        match best {
            Some(b) => {
                assert(is_nearest_station(stations@, t, b as int));
                Some(stations[b].0)
            },
            None => None,
        }
    }

    /// Among `stations` of the policy's type that can accept a robot, each
    /// with the order key of its distance to the task, the first nearest one.
    pub fn assign_stations(&self, stations: &[Station], distance_keys: &[u64]) -> (r: Option<
        StationId,
    >)
        requires
            distance_keys@.len() == stations@.len(),
        ensures
            r is None <==> forall|i: int|
                0 <= i < stations@.len() ==> !#[trigger] open_station(
                    distance_candidates(stations@, distance_keys@)[i],
                    self.spec_station_type(),
                ),
            r matches Some(s) ==> exists|i: int|
                is_nearest_station(
                    distance_candidates(stations@, distance_keys@),
                    self.spec_station_type(),
                    i,
                ) && distance_candidates(stations@, distance_keys@)[i].0 == s,
    {
        let candidates = station_distance_candidates(stations, distance_keys);
        self.assign(&candidates)
    }
}

/// A station of type `t` whose queue has room, with its distance key.
pub open spec fn open_station(c: (StationId, StationType, bool, u64), t: StationType) -> bool {
    c.1 == t && c.2
}

/// Position `i` holds the first open station of type `t` with the smallest
/// distance key.
pub open spec fn is_nearest_station(
    s: Seq<(StationId, StationType, bool, u64)>,
    t: StationType,
    i: int,
) -> bool {
    &&& 0 <= i < s.len()
    &&& open_station(s[i], t)
    &&& forall|j: int| 0 <= j < s.len() && #[trigger] open_station(s[j], t) ==> s[i].3 <= s[j].3
    &&& forall|j: int| 0 <= j < i && #[trigger] open_station(s[j], t) ==> s[i].3 < s[j].3
}

impl Default for NearestStationPolicy {
    fn default() -> (r: Self)
        ensures
            r.spec_station_type() == StationType::Pick,
    {
        Self::for_pick()
    }
}

// ---------------------------------------------------------------------------
// Batching
// ---------------------------------------------------------------------------

/// No batching: each task is its own batch.
pub struct NoBatchingPolicy;

impl NoBatchingPolicy {
    pub fn new() -> (r: Self) {
        NoBatchingPolicy
    }

    /// The policy's name for logging.
    pub fn name(&self) -> (r: &'static str)
        ensures
            r@ == "none"@,
    {
        "none"
    }

    /// One batch per pending task, in order.
    pub fn batch(&self, pending_tasks: &[TaskId]) -> (r: Vec<Vec<TaskId>>)
        ensures
            r@.len() == pending_tasks@.len(),
            forall|i: int| 0 <= i < r@.len() ==> #[trigger] r@[i]@ == seq![pending_tasks@[i]],
    {
        let mut r: Vec<Vec<TaskId>> = Vec::new();
        let mut i: usize = 0;
        while i < pending_tasks.len()
            invariant
                i <= pending_tasks@.len(),
                r@.len() == i,
                forall|j: int| 0 <= j < i ==> #[trigger] r@[j]@ == seq![pending_tasks@[j]],
            decreases pending_tasks@.len() - i,
        {
            let mut b: Vec<TaskId> = Vec::new();
            b.push(pending_tasks[i]);
            r.push(b);
            i = i + 1;
        }
        r
    }
}

impl Default for NoBatchingPolicy {
    fn default() -> (r: Self) {
        NoBatchingPolicy::new()
    }
}

/// Whether pending task `j` lies within the zone of pending task `i`
/// (entries missing from the table count as not near).
pub open spec fn near_at(near: Seq<Vec<bool>>, i: int, j: int) -> bool {
    0 <= i < near.len() && 0 <= j < near[i]@.len() && near[i]@[j]
}

/// Scans candidates `j..n` for the batch anchored at `i`: a candidate not
/// yet batched and near the anchor joins while the batch has room.
/// Returns the batch (positions) and the updated batched flags.
pub open spec fn zone_scan(
    near: Seq<Vec<bool>>,
    i: int,
    used: Seq<bool>,
    j: int,
    n: int,
    cap: nat,
    batch: Seq<int>,
) -> (Seq<int>, Seq<bool>)
    decreases n - j,
{
    if j >= n {
        (batch, used)
    } else if !used[j] && batch.len() < cap && near_at(near, i, j) {
        zone_scan(near, i, used.update(j, true), j + 1, n, cap, batch.push(j))
    } else {
        zone_scan(near, i, used, j + 1, n, cap, batch)
    }
}

/// The batches formed from position `i` on: each task not yet batched
/// anchors a new batch, filled from the tasks after it.
pub open spec fn zone_from(near: Seq<Vec<bool>>, used: Seq<bool>, i: int, n: int, cap: nat) -> Seq<
    Seq<int>,
>
    decreases n - i,
{
    if i >= n {
        Seq::empty()
    } else if used[i] {
        zone_from(near, used, i + 1, n, cap)
    } else {
        let scanned = zone_scan(near, i, used.update(i, true), i + 1, n, cap, seq![i]);
        seq![scanned.0] + zone_from(near, scanned.1, i + 1, n, cap)
    }
}

/// The zone batches of `n` pending tasks, as positions.
pub open spec fn zone_batches(near: Seq<Vec<bool>>, n: nat, cap: nat) -> Seq<Seq<int>> {
    zone_from(near, Seq::new(n, |k: int| false), 0, n as int, cap)
}

/// The tasks at the given positions.
pub open spec fn tasks_at(tasks: Seq<TaskId>, positions: Seq<int>) -> Seq<TaskId> {
    positions.map_values(|k: int| tasks[k])
}

proof fn lemma_scan_keeps_len(
    near: Seq<Vec<bool>>,
    i: int,
    used: Seq<bool>,
    j: int,
    n: int,
    cap: nat,
    batch: Seq<int>,
)
    requires
        used.len() == n,
    ensures
        zone_scan(near, i, used, j, n, cap, batch).1.len() == n,
        forall|k: int|
            0 <= k < batch.len() ==> #[trigger] zone_scan(near, i, used, j, n, cap, batch).0[k]
                == batch[k],
        zone_scan(near, i, used, j, n, cap, batch).0.len() >= batch.len(),
        forall|k: int|
            batch.len() <= k < zone_scan(near, i, used, j, n, cap, batch).0.len() ==> 0 <= #[trigger] zone_scan(
                near,
                i,
                used,
                j,
                n,
                cap,
                batch,
            ).0[k] < n,
    decreases n - j,
{
    if j < n {
        if !used[j] && batch.len() < cap && near_at(near, i, j) {
            lemma_scan_keeps_len(near, i, used.update(j, true), j + 1, n, cap, batch.push(j));
        } else {
            lemma_scan_keeps_len(near, i, used, j + 1, n, cap, batch);
        }
    }
}

/// The largest batch the zone policy forms: its item limit, but at least
/// the task that anchors the batch.
pub open spec fn zone_limit(cap: nat) -> nat {
    if cap == 0 {
        1
    } else {
        cap
    }
}

proof fn lemma_scan_bounded(
    near: Seq<Vec<bool>>,
    i: int,
    used: Seq<bool>,
    j: int,
    n: int,
    cap: nat,
    batch: Seq<int>,
)
    requires
        batch.len() <= zone_limit(cap),
    ensures
        zone_scan(near, i, used, j, n, cap, batch).0.len() <= zone_limit(cap),
    decreases n - j,
{
    if j < n {
        if !used[j] && batch.len() < cap && near_at(near, i, j) {
            lemma_scan_bounded(near, i, used.update(j, true), j + 1, n, cap, batch.push(j));
        } else {
            lemma_scan_bounded(near, i, used, j + 1, n, cap, batch);
        }
    }
}

proof fn lemma_from_bounded(near: Seq<Vec<bool>>, used: Seq<bool>, i: int, n: int, cap: nat)
    ensures
        forall|b: int|
            0 <= b < zone_from(near, used, i, n, cap).len() ==> (#[trigger] zone_from(
                near,
                used,
                i,
                n,
                cap,
            )[b]).len() <= zone_limit(cap),
    decreases n - i,
{
    if i < n {
        if used[i] {
            lemma_from_bounded(near, used, i + 1, n, cap);
            assert(zone_from(near, used, i, n, cap) == zone_from(near, used, i + 1, n, cap));
        } else {
            let scanned = zone_scan(near, i, used.update(i, true), i + 1, n, cap, seq![i]);
            lemma_scan_bounded(near, i, used.update(i, true), i + 1, n, cap, seq![i]);
            lemma_from_bounded(near, scanned.1, i + 1, n, cap);
            let rest = zone_from(near, scanned.1, i + 1, n, cap);
            assert(zone_from(near, used, i, n, cap) == seq![scanned.0] + rest);
            assert forall|b: int| 0 <= b < (seq![scanned.0] + rest).len() implies (#[trigger] (seq![scanned.0] + rest)[b]).len()
                <= zone_limit(cap) by {
                if b > 0 {
                    assert((seq![scanned.0] + rest)[b] == rest[b - 1]);
                }
            }
        }
    }
}

/// Zone batching respects its item limit: no batch holds more tasks than
/// the maximum (or than one, the anchor, when the maximum is zero).
pub proof fn law_zone_batches_respect_limit(near: Seq<Vec<bool>>, n: nat, cap: nat)
    ensures
        forall|b: int|
            0 <= b < zone_batches(near, n, cap).len() ==> (#[trigger] zone_batches(
                near,
                n,
                cap,
            )[b]).len() <= zone_limit(cap),
{
    lemma_from_bounded(near, Seq::new(n, |k: int| false), 0, n as int, cap);
}

/// A batch anchored at its first task, every later task near the anchor.
pub open spec fn anchored_near(near: Seq<Vec<bool>>, batch: Seq<int>) -> bool {
    &&& batch.len() >= 1
    &&& forall|q: int| 0 < q < batch.len() ==> near_at(near, batch[0], #[trigger] batch[q])
}

proof fn lemma_scan_near_anchor(
    near: Seq<Vec<bool>>,
    i: int,
    used: Seq<bool>,
    j: int,
    n: int,
    cap: nat,
    batch: Seq<int>,
)
    requires
        anchored_near(near, batch),
        batch[0] == i,
    ensures
        anchored_near(near, zone_scan(near, i, used, j, n, cap, batch).0),
        zone_scan(near, i, used, j, n, cap, batch).0[0] == i,
    decreases n - j,
{
    if j < n {
        if !used[j] && batch.len() < cap && near_at(near, i, j) {
            let b2 = batch.push(j);
            assert forall|q: int| 0 < q < b2.len() implies near_at(near, b2[0], #[trigger] b2[q]) by {
                if q < batch.len() {
                    assert(b2[q] == batch[q]);
                }
            }
            lemma_scan_near_anchor(near, i, used.update(j, true), j + 1, n, cap, b2);
        } else {
            lemma_scan_near_anchor(near, i, used, j + 1, n, cap, batch);
        }
    }
}

proof fn lemma_from_near_anchor(near: Seq<Vec<bool>>, used: Seq<bool>, i: int, n: int, cap: nat)
    ensures
        forall|b: int|
            0 <= b < zone_from(near, used, i, n, cap).len() ==> anchored_near(
                near,
                #[trigger] zone_from(near, used, i, n, cap)[b],
            ),
    decreases n - i,
{
    if i < n {
        if used[i] {
            lemma_from_near_anchor(near, used, i + 1, n, cap);
            assert(zone_from(near, used, i, n, cap) == zone_from(near, used, i + 1, n, cap));
        } else {
            let start = seq![i];
            assert(anchored_near(near, start));
            let scanned = zone_scan(near, i, used.update(i, true), i + 1, n, cap, start);
            lemma_scan_near_anchor(near, i, used.update(i, true), i + 1, n, cap, start);
            lemma_from_near_anchor(near, scanned.1, i + 1, n, cap);
            let rest = zone_from(near, scanned.1, i + 1, n, cap);
            assert(zone_from(near, used, i, n, cap) == seq![scanned.0] + rest);
            assert forall|b: int| 0 <= b < (seq![scanned.0] + rest).len() implies anchored_near(
                near,
                #[trigger] (seq![scanned.0] + rest)[b],
            ) by {
                if b > 0 {
                    assert((seq![scanned.0] + rest)[b] == rest[b - 1]);
                }
            }
        }
    }
}

/// A zone batch never reaches beyond its anchor's zone: every batch has a
/// first (anchor) task, and every other task of the batch is marked near
/// the anchor (`near[anchor][task]`), not merely near some task added
/// before it.
pub proof fn law_zone_batch_members_near_anchor(near: Seq<Vec<bool>>, n: nat, cap: nat)
    ensures
        forall|b: int, q: int|
            0 <= b < zone_batches(near, n, cap).len() && 0 < q < zone_batches(near, n, cap)[b].len()
                ==> near_at(
                near,
                zone_batches(near, n, cap)[b][0],
                #[trigger] zone_batches(near, n, cap)[b][q],
            ),
        forall|b: int|
            0 <= b < zone_batches(near, n, cap).len() ==> (#[trigger] zone_batches(near, n, cap)[b]).len()
                >= 1,
{
    lemma_from_near_anchor(near, Seq::new(n, |k: int| false), 0, n as int, cap);
    assert forall|b: int, q: int|
        0 <= b < zone_batches(near, n, cap).len() && 0 < q < zone_batches(near, n, cap)[b].len()
            implies near_at(
            near,
            zone_batches(near, n, cap)[b][0],
            #[trigger] zone_batches(near, n, cap)[b][q],
        ) by {
        assert(anchored_near(near, zone_batches(near, n, cap)[b]));
    }
    assert forall|b: int| 0 <= b < zone_batches(near, n, cap).len() implies (#[trigger] zone_batches(
        near,
        n,
        cap,
    )[b]).len() >= 1 by {
        assert(anchored_near(near, zone_batches(near, n, cap)[b]));
    }
}

/// The positions of all batches, batch after batch.
pub open spec fn all_positions(bs: Seq<Seq<int>>) -> Seq<int>
    decreases bs.len(),
{
    if bs.len() == 0 {
        Seq::empty()
    } else {
        bs[0] + all_positions(bs.drop_first())
    }
}

proof fn lemma_concat_facts(a: Seq<int>, c: Seq<int>)
    requires
        a.no_duplicates(),
        c.no_duplicates(),
        forall|x: int| a.contains(x) ==> !c.contains(x),
    ensures
        (a + c).no_duplicates(),
        forall|x: int| (a + c).contains(x) <==> (a.contains(x) || c.contains(x)),
{
    let ac = a + c;
    assert forall|x: int, y: int| 0 <= x < ac.len() && 0 <= y < ac.len() && x != y implies ac[x]
        != ac[y] by {
        if x < a.len() && y < a.len() {
        } else if x >= a.len() && y >= a.len() {
            assert(ac[x] == c[x - a.len()] && ac[y] == c[y - a.len()]);
        } else if x < a.len() {
            assert(a.contains(ac[x]));
            assert(c.contains(ac[y])) by {
                assert(c[y - a.len()] == ac[y]);
            }
        } else {
            assert(a.contains(ac[y]));
            assert(c.contains(ac[x])) by {
                assert(c[x - a.len()] == ac[x]);
            }
        }
    }
    assert forall|v: int| ac.contains(v) <==> (a.contains(v) || c.contains(v)) by {
        if ac.contains(v) {
            let x = choose|x: int| 0 <= x < ac.len() && ac[x] == v;
            if x >= a.len() {
                assert(c[x - a.len()] == v);
            }
        }
        if a.contains(v) {
            let x = choose|x: int| 0 <= x < a.len() && a[x] == v;
            assert(ac[x] == v);
        }
        if c.contains(v) {
            let x = choose|x: int| 0 <= x < c.len() && c[x] == v;
            assert(ac[x + a.len()] == v);
        }
    }
}

proof fn lemma_scan_shape(
    near: Seq<Vec<bool>>,
    i: int,
    used: Seq<bool>,
    j: int,
    n: int,
    cap: nat,
    batch: Seq<int>,
)
    requires
        used.len() == n,
        0 <= j,
    ensures
        ({
            let r = zone_scan(near, i, used, j, n, cap, batch);
            &&& r.0.len() >= batch.len()
            &&& r.0.subrange(0, batch.len() as int) == batch
            &&& forall|q: int|
                batch.len() <= q < r.0.len() ==> j <= #[trigger] r.0[q] < n && !used[r.0[q]]
            &&& forall|q1: int, q2: int|
                batch.len() <= q1 < q2 < r.0.len() ==> #[trigger] r.0[q1] < #[trigger] r.0[q2]
            &&& r.1.len() == n
            &&& forall|k: int|
                0 <= k < n ==> (#[trigger] r.1[k] <==> (used[k] || exists|q: int|
                    batch.len() <= q < r.0.len() && r.0[q] == k))
        }),
    decreases n - j,
{
    let r = zone_scan(near, i, used, j, n, cap, batch);
    if j >= n {
        assert(r.0 == batch);
        assert(r.0.subrange(0, batch.len() as int) =~= batch);
    } else if !used[j] && batch.len() < cap && near_at(near, i, j) {
        let used2 = used.update(j, true);
        let batch2 = batch.push(j);
        lemma_scan_shape(near, i, used2, j + 1, n, cap, batch2);
        assert(r == zone_scan(near, i, used2, j + 1, n, cap, batch2));
        assert(r.0.subrange(0, batch2.len() as int) == batch2);
        assert(r.0[batch.len() as int] == j) by {
            assert(r.0.subrange(0, batch2.len() as int)[batch.len() as int] == batch2[batch.len() as int]);
        }
        assert(r.0.subrange(0, batch.len() as int) =~= batch) by {
            assert forall|q: int| 0 <= q < batch.len() implies r.0.subrange(0, batch.len() as int)[q]
                == batch[q] by {
                assert(r.0.subrange(0, batch2.len() as int)[q] == batch2[q]);
            }
        }
        assert forall|q: int| batch.len() <= q < r.0.len() implies j <= #[trigger] r.0[q] < n
            && !used[r.0[q]] by {
            if q > batch.len() {
                assert(!used2[r.0[q]]);
            }
        }
        assert forall|q1: int, q2: int| batch.len() <= q1 < q2 < r.0.len() implies #[trigger] r.0[q1]
            < #[trigger] r.0[q2] by {
            if q1 == batch.len() {
                assert(j + 1 <= r.0[q2]);
            }
        }
        assert forall|k: int| 0 <= k < n implies (#[trigger] r.1[k] <==> (used[k] || exists|q: int|
            batch.len() <= q < r.0.len() && r.0[q] == k)) by {
            if k == j {
                assert(r.0[batch.len() as int] == k);
            } else {
                if exists|q: int| batch.len() <= q < r.0.len() && r.0[q] == k {
                    let q = choose|q: int| batch.len() <= q < r.0.len() && r.0[q] == k;
                    assert(q != batch.len());
                    assert(batch2.len() <= q < r.0.len() && r.0[q] == k);
                }
            }
        }
    } else {
        lemma_scan_shape(near, i, used, j + 1, n, cap, batch);
        assert(r == zone_scan(near, i, used, j + 1, n, cap, batch));
    }
}

proof fn lemma_from_partition(near: Seq<Vec<bool>>, used: Seq<bool>, i: int, n: int, cap: nat)
    requires
        used.len() == n,
        0 <= i,
    ensures
        all_positions(zone_from(near, used, i, n, cap)).no_duplicates(),
        forall|k: int|
            #[trigger] all_positions(zone_from(near, used, i, n, cap)).contains(k) <==> (i <= k < n
                && !used[k]),
    decreases n - i,
{
    let bs = zone_from(near, used, i, n, cap);
    if i >= n {
        assert(bs.len() == 0);
        assert(all_positions(bs) =~= Seq::<int>::empty());
    } else if used[i] {
        lemma_from_partition(near, used, i + 1, n, cap);
        assert(bs == zone_from(near, used, i + 1, n, cap));
    } else {
        let used1 = used.update(i, true);
        let scanned = zone_scan(near, i, used1, i + 1, n, cap, seq![i]);
        let rest = zone_from(near, scanned.1, i + 1, n, cap);
        assert(bs == seq![scanned.0] + rest);
        assert(bs.drop_first() =~= rest);
        assert(bs[0] == scanned.0);
        assert(all_positions(bs) == scanned.0 + all_positions(rest));
        lemma_scan_shape(near, i, used1, i + 1, n, cap, seq![i]);
        lemma_from_partition(near, scanned.1, i + 1, n, cap);
        let b = scanned.0;
        assert(b[0] == i) by {
            assert(b.subrange(0, 1)[0] == seq![i][0]);
        }
        assert(b.no_duplicates()) by {
            assert forall|x: int, y: int| 0 <= x < b.len() && 0 <= y < b.len() && x != y implies b[x]
                != b[y] by {
                if x == 0 && y > 0 {
                    assert(i + 1 <= b[y]);
                } else if y == 0 && x > 0 {
                    assert(i + 1 <= b[x]);
                } else if x < y {
                    assert(b[x] < b[y]);
                } else {
                    assert(b[y] < b[x]);
                }
            }
        }
        let p = all_positions(rest);
        assert forall|x: int| b.contains(x) implies !p.contains(x) by {
            let q = choose|q: int| 0 <= q < b.len() && b[q] == x;
            if q == 0 {
                assert(!(i + 1 <= x));
            } else {
                assert(scanned.1[x]);
            }
        }
        lemma_concat_facts(b, p);
        assert forall|k: int| #[trigger] all_positions(bs).contains(k) <==> (i <= k < n && !used[k]) by {
            if b.contains(k) {
                let q = choose|q: int| 0 <= q < b.len() && b[q] == k;
                if q > 0 {
                    assert(!used1[b[q]]);
                }
            }
            if i <= k < n && !used[k] && !b.contains(k) {
                if k == i {
                    assert(b[0] == k);
                }
                assert(k != i);
                assert(!used1[k]);
                if scanned.1[k] {
                    let q = choose|q: int| 1 <= q < b.len() && b[q] == k;
                    assert(b.contains(k));
                }
            }
            if p.contains(k) {
                assert(!scanned.1[k]);
                assert(!used1[k]);
            }
        }
    }
}

/// Zone batching neither loses nor repeats a task: every pending task is
/// in exactly one batch.
pub proof fn law_zone_batches_partition_tasks(near: Seq<Vec<bool>>, n: nat, cap: nat)
    ensures
        all_positions(zone_batches(near, n, cap)).no_duplicates(),
        forall|k: int| #[trigger] all_positions(zone_batches(near, n, cap)).contains(k) <==> 0 <= k < n,
{
    let init = Seq::new(n, |k: int| false);
    lemma_from_partition(near, init, 0, n as int, cap);
    assert forall|k: int| #[trigger] all_positions(zone_batches(near, n, cap)).contains(k) <==> 0 <= k
        < n by {
        if 0 <= k < n {
            assert(!init[k]);
        }
    }
}

proof fn lemma_all_positions_member(bs: Seq<Seq<int>>, c: int, q: int)
    requires
        0 <= c < bs.len(),
        0 <= q < bs[c].len(),
    ensures
        all_positions(bs).contains(bs[c][q]),
    decreases c,
{
    assert(all_positions(bs) == bs[0] + all_positions(bs.drop_first()));
    if c == 0 {
        assert(all_positions(bs)[q] == bs[0][q]);
    } else {
        lemma_all_positions_member(bs.drop_first(), c - 1, q);
        assert(bs.drop_first()[c - 1] == bs[c]);
        let p = all_positions(bs.drop_first());
        let x = choose|x: int| 0 <= x < p.len() && p[x] == bs[c][q];
        assert(all_positions(bs)[bs[0].len() + x] == bs[c][q]);
    }
}

proof fn lemma_scan_full_stays(
    near: Seq<Vec<bool>>,
    i: int,
    used: Seq<bool>,
    j: int,
    n: int,
    cap: nat,
    batch: Seq<int>,
)
    requires
        batch.len() >= cap,
    ensures
        zone_scan(near, i, used, j, n, cap, batch).0 == batch,
    decreases n - j,
{
    if j < n {
        lemma_scan_full_stays(near, i, used, j + 1, n, cap, batch);
    }
}

proof fn lemma_scan_full_if_skipped(
    near: Seq<Vec<bool>>,
    i: int,
    used: Seq<bool>,
    j: int,
    n: int,
    cap: nat,
    batch: Seq<int>,
    k: int,
)
    requires
        used.len() == n,
        0 <= j <= k < n,
        !used[k],
        near_at(near, i, k),
        !(exists|q: int|
            batch.len() <= q < zone_scan(near, i, used, j, n, cap, batch).0.len() && zone_scan(
                near,
                i,
                used,
                j,
                n,
                cap,
                batch,
            ).0[q] == k),
    ensures
        zone_scan(near, i, used, j, n, cap, batch).0.len() >= cap,
        forall|q: int|
            batch.len() <= q < zone_scan(near, i, used, j, n, cap, batch).0.len() ==> #[trigger] zone_scan(
                near,
                i,
                used,
                j,
                n,
                cap,
                batch,
            ).0[q] < k,
    decreases n - j,
{
    let r = zone_scan(near, i, used, j, n, cap, batch);
    if !used[j] && batch.len() < cap && near_at(near, i, j) {
        let used2 = used.update(j, true);
        let batch2 = batch.push(j);
        assert(r == zone_scan(near, i, used2, j + 1, n, cap, batch2));
        lemma_scan_shape(near, i, used2, j + 1, n, cap, batch2);
        assert(r.0[batch.len() as int] == j) by {
            assert(r.0.subrange(0, batch2.len() as int)[batch.len() as int] == batch2[batch.len() as int]);
        }
        if j == k {
            assert(batch.len() <= batch.len() < r.0.len() && r.0[batch.len() as int] == k);
        } else {
            assert(used2[k] == used[k]);
            lemma_scan_full_if_skipped(near, i, used2, j + 1, n, cap, batch2, k);
            assert forall|q: int| batch.len() <= q < r.0.len() implies #[trigger] r.0[q] < k by {
                if q > batch.len() {
                    assert(batch2.len() <= q < r.0.len());
                }
            }
        }
    } else {
        assert(r == zone_scan(near, i, used, j + 1, n, cap, batch));
        if j == k {
            lemma_scan_full_stays(near, i, used, j + 1, n, cap, batch);
        } else {
            lemma_scan_full_if_skipped(near, i, used, j + 1, n, cap, batch, k);
        }
    }
}

/// Later batches hold no task that an earlier batch had room for: a task
/// after an earlier batch's anchor and near it is in a later batch only when
/// the earlier batch is full.
pub open spec fn fills_before_later(near: Seq<Vec<bool>>, bs: Seq<Seq<int>>, cap: nat) -> bool {
    forall|b: int, c: int, q: int|
        #![trigger bs[b], bs[c][q]]
        0 <= b < c < bs.len() && 0 <= q < bs[c].len() && bs[b].len() >= 1 && bs[b][0] < bs[c][q]
            && near_at(near, bs[b][0], bs[c][q]) ==> bs[b].len() >= cap && bs[b][bs[b].len() - 1]
            < bs[c][q]
}

proof fn lemma_from_greedy(near: Seq<Vec<bool>>, used: Seq<bool>, i: int, n: int, cap: nat)
    requires
        used.len() == n,
        0 <= i,
    ensures
        fills_before_later(near, zone_from(near, used, i, n, cap), cap),
    decreases n - i,
{
    let bs = zone_from(near, used, i, n, cap);
    if i >= n {
    } else if used[i] {
        lemma_from_greedy(near, used, i + 1, n, cap);
        assert(bs == zone_from(near, used, i + 1, n, cap));
    } else {
        let used1 = used.update(i, true);
        let scanned = zone_scan(near, i, used1, i + 1, n, cap, seq![i]);
        let rest = zone_from(near, scanned.1, i + 1, n, cap);
        assert(bs == seq![scanned.0] + rest);
        lemma_scan_shape(near, i, used1, i + 1, n, cap, seq![i]);
        lemma_from_partition(near, scanned.1, i + 1, n, cap);
        lemma_from_greedy(near, scanned.1, i + 1, n, cap);
        assert(scanned.0[0] == i) by {
            assert(scanned.0.subrange(0, 1)[0] == seq![i][0]);
        }
        assert forall|b: int, c: int, q: int|
            #![trigger bs[b], bs[c][q]]
            0 <= b < c < bs.len() && 0 <= q < bs[c].len() && bs[b].len() >= 1 && bs[b][0] < bs[c][q]
                && near_at(near, bs[b][0], bs[c][q]) implies bs[b].len() >= cap && bs[b][bs[b].len()
                - 1] < bs[c][q] by {
            assert(bs[c] == rest[c - 1]);
            if b == 0 {
                let k = bs[c][q];
                assert(bs[0] == scanned.0);
                lemma_all_positions_member(rest, c - 1, q);
                assert(i + 1 <= k < n && !scanned.1[k]);
                assert(!used1[k]);
                lemma_scan_full_if_skipped(near, i, used1, i + 1, n, cap, seq![i], k);
                if scanned.0.len() > 1 {
                    assert(scanned.0[scanned.0.len() - 1] < k);
                }
            } else {
                assert(bs[b] == rest[b - 1]);
                assert(rest[b - 1].len() >= 1 && rest[b - 1][0] < rest[c - 1][q]);
            }
        }
    }
}

/// Zone batching fills each batch before starting another, taking near
/// tasks in order: a task that comes after a batch's anchor and is near it
/// ends up in a later batch only when that batch already holds the maximum
/// number of items, all of them before that task.
pub proof fn law_zone_batches_fill_greedily(near: Seq<Vec<bool>>, n: nat, cap: nat)
    ensures
        forall|b: int, c: int, q: int|
            #![trigger zone_batches(near, n, cap)[b], zone_batches(near, n, cap)[c][q]]
            0 <= b < c < zone_batches(near, n, cap).len() && 0 <= q < zone_batches(near, n, cap)[c].len()
                && zone_batches(near, n, cap)[b][0] < zone_batches(near, n, cap)[c][q] && near_at(
                near,
                zone_batches(near, n, cap)[b][0],
                zone_batches(near, n, cap)[c][q],
            ) ==> zone_batches(near, n, cap)[b].len() >= cap && zone_batches(near, n, cap)[b][zone_batches(
                near,
                n,
                cap,
            )[b].len() - 1] < zone_batches(near, n, cap)[c][q],
{
    let bs = zone_batches(near, n, cap);
    lemma_from_greedy(near, Seq::new(n, |k: int| false), 0, n as int, cap);
    law_zone_batch_members_near_anchor(near, n, cap);
    assert forall|b: int, c: int, q: int|
        #![trigger bs[b], bs[c][q]]
        0 <= b < c < bs.len() && 0 <= q < bs[c].len() && bs[b][0] < bs[c][q] && near_at(
            near,
            bs[b][0],
            bs[c][q],
        ) implies bs[b].len() >= cap && bs[b][bs[b].len() - 1] < bs[c][q] by {
        assert(bs[b].len() >= 1);
    }
}

/// Batches in task order: anchors increase from batch to batch, and each
/// batch lists its tasks in increasing order, its anchor first.
pub open spec fn in_task_order(bs: Seq<Seq<int>>) -> bool {
    &&& forall|b: int, q1: int, q2: int|
        #![trigger bs[b][q1], bs[b][q2]]
        0 <= b < bs.len() && 0 <= q1 < q2 < bs[b].len() ==> bs[b][q1] < bs[b][q2]
    &&& forall|b: int, c: int|
        #![trigger bs[b], bs[c]]
        0 <= b < c < bs.len() && bs[b].len() >= 1 && bs[c].len() >= 1 ==> bs[b][0] < bs[c][0]
}

proof fn lemma_from_order(near: Seq<Vec<bool>>, used: Seq<bool>, i: int, n: int, cap: nat)
    requires
        used.len() == n,
        0 <= i,
    ensures
        in_task_order(zone_from(near, used, i, n, cap)),
    decreases n - i,
{
    let bs = zone_from(near, used, i, n, cap);
    if i >= n {
    } else if used[i] {
        lemma_from_order(near, used, i + 1, n, cap);
        assert(bs == zone_from(near, used, i + 1, n, cap));
    } else {
        let used1 = used.update(i, true);
        let scanned = zone_scan(near, i, used1, i + 1, n, cap, seq![i]);
        let rest = zone_from(near, scanned.1, i + 1, n, cap);
        assert(bs == seq![scanned.0] + rest);
        lemma_scan_shape(near, i, used1, i + 1, n, cap, seq![i]);
        lemma_from_partition(near, scanned.1, i + 1, n, cap);
        lemma_from_order(near, scanned.1, i + 1, n, cap);
        let b0 = scanned.0;
        assert(b0[0] == i) by {
            assert(b0.subrange(0, 1)[0] == seq![i][0]);
        }
        assert forall|b: int, q1: int, q2: int|
            #![trigger bs[b][q1], bs[b][q2]]
            0 <= b < bs.len() && 0 <= q1 < q2 < bs[b].len() implies bs[b][q1] < bs[b][q2] by {
            if b == 0 {
                assert(bs[0] == b0);
                if q1 == 0 {
                    assert(i + 1 <= b0[q2]);
                } else {
                    assert(b0[q1] < b0[q2]);
                }
            } else {
                assert(bs[b] == rest[b - 1]);
                assert(rest[b - 1][q1] < rest[b - 1][q2]);
            }
        }
        assert forall|b: int, c: int|
            #![trigger bs[b], bs[c]]
            0 <= b < c < bs.len() && bs[b].len() >= 1 && bs[c].len() >= 1 implies bs[b][0] < bs[c][0] by {
            assert(bs[c] == rest[c - 1]);
            if b == 0 {
                lemma_all_positions_member(rest, c - 1, 0);
                assert(i + 1 <= rest[c - 1][0]);
            } else {
                assert(bs[b] == rest[b - 1]);
                assert(rest[b - 1][0] < rest[c - 1][0]);
            }
        }
    }
}

/// Zone batching keeps the task order: each batch is anchored at the
/// earliest task not in an earlier batch, the anchors increase from batch to
/// batch, and each batch lists its tasks in their pending order.
pub proof fn law_zone_batches_in_task_order(near: Seq<Vec<bool>>, n: nat, cap: nat)
    ensures
        forall|b: int, q1: int, q2: int|
            #![trigger zone_batches(near, n, cap)[b][q1], zone_batches(near, n, cap)[b][q2]]
            0 <= b < zone_batches(near, n, cap).len() && 0 <= q1 < q2 < zone_batches(near, n, cap)[b].len()
                ==> zone_batches(near, n, cap)[b][q1] < zone_batches(near, n, cap)[b][q2],
        forall|b: int, c: int|
            #![trigger zone_batches(near, n, cap)[b], zone_batches(near, n, cap)[c]]
            0 <= b < c < zone_batches(near, n, cap).len() ==> zone_batches(near, n, cap)[b][0]
                < zone_batches(near, n, cap)[c][0],
{
    lemma_from_order(near, Seq::new(n, |k: int| false), 0, n as int, cap);
    law_zone_batch_members_near_anchor(near, n, cap);
    let bs = zone_batches(near, n, cap);
    assert forall|b: int, c: int|
        #![trigger bs[b], bs[c]]
        0 <= b < c < bs.len() implies bs[b][0] < bs[c][0] by {
        assert(bs[b].len() >= 1 && bs[c].len() >= 1);
    }
}

/// Groups tasks by proximity: each task not yet batched starts a batch and
/// takes the later tasks near it, up to a number of items.
pub struct ZoneBatchingPolicy {
    max_items: u32,
}

impl ZoneBatchingPolicy {
    /// The most tasks in one batch.
    pub closed spec fn cap(&self) -> u32 {
        self.max_items
    }

    /// A policy that puts at most `max_items` tasks in a batch. (The zone
    /// radius stays with the caller, who judges which tasks are near.)
    pub fn new(max_items: u32) -> (r: Self)
        ensures
            r.cap() == max_items,
    {
        ZoneBatchingPolicy { max_items }
    }

    /// The default: at most 5 tasks per batch.
    pub fn default_zone() -> (r: Self)
        ensures
            r.cap() == 5,
    {
        ZoneBatchingPolicy::new(5)
    }

    /// The policy's name for logging.
    pub fn name(&self) -> (r: &'static str)
        ensures
            r@ == "zone"@,
    {
        "zone"
    }

    /// Batches the pending tasks in order: each task not yet batched starts
    /// a batch and takes, in order, the later unbatched tasks that
    /// `near[i][j]` marks as near it, while the batch has fewer than the
    /// maximum number of items. A task whose location is unknown is near no
    /// task.
    pub fn batch(&self, pending_tasks: &[TaskId], near: &[Vec<bool>]) -> (r: Vec<Vec<TaskId>>)
        ensures
            r@.len() == zone_batches(near@, pending_tasks@.len(), self.cap() as nat).len(),
            forall|b: int|
                0 <= b < r@.len() ==> #[trigger] r@[b]@ == tasks_at(
                    pending_tasks@,
                    zone_batches(near@, pending_tasks@.len(), self.cap() as nat)[b],
                ),
    {
        let n = pending_tasks.len();
        let cap = self.max_items as usize;
        let ghost g_cap = self.max_items as nat;
        let mut used: Vec<bool> = Vec::new();
        let mut k: usize = 0;
        while k < n
            invariant
                k <= n,
                used@ == Seq::new(k as nat, |q: int| false),
            decreases n - k,
        {
            used.push(false);
            k = k + 1;
            assert(used@ =~= Seq::new(k as nat, |q: int| false));
        }
        let ghost all = zone_batches(near@, n as nat, g_cap);
        let mut out: Vec<Vec<TaskId>> = Vec::new();
        let ghost mut done: Seq<Seq<int>> = Seq::empty();
        let mut i: usize = 0;
        while i < n
            invariant
                n == pending_tasks@.len(),
                cap == g_cap,
                i <= n,
                used@.len() == n,
                all == zone_batches(near@, n as nat, g_cap),
                done + zone_from(near@, used@, i as int, n as int, g_cap) == all,
                out@.len() == done.len(),
                forall|b: int| 0 <= b < out@.len() ==> #[trigger] out@[b]@ == tasks_at(pending_tasks@, done[b]),
                forall|b: int, q: int|
                    0 <= b < done.len() && 0 <= q < done[b].len() ==> 0 <= #[trigger] done[b][q] < n,
            decreases n - i,
        {
            if used[i] {
                i = i + 1;
            } else {
                let ghost used0 = used@;
                used.set(i, true);
                let mut batch_pos: Vec<usize> = Vec::new();
                batch_pos.push(i);
                let ghost start = used@;
                let ghost target = zone_scan(near@, i as int, start, i + 1, n as int, g_cap, seq![i as int]);
                proof {
                    lemma_scan_keeps_len(near@, i as int, start, i + 1, n as int, g_cap, seq![i as int]);
                }
                assert(batch_pos@.map_values(|x: usize| x as int) =~= seq![i as int]);
                let mut j: usize = i + 1;
                while j < n
                    invariant
                        n == pending_tasks@.len(),
                        cap == g_cap,
                        i < n,
                        i + 1 <= j <= n,
                        used@.len() == n,
                        target == zone_scan(near@, i as int, start, i + 1, n as int, g_cap, seq![i as int]),
                        zone_scan(
                            near@,
                            i as int,
                            used@,
                            j as int,
                            n as int,
                            g_cap,
                            batch_pos@.map_values(|x: usize| x as int),
                        ) == target,
                        forall|q: int| 0 <= q < batch_pos@.len() ==> #[trigger] batch_pos@[q] < n,
                    decreases n - j,
                {
                    let near_ij = i < near.len() && j < near[i].len() && near[i][j];
                    let ghost bseq = batch_pos@.map_values(|x: usize| x as int);
                    if !used[j] && batch_pos.len() < cap && near_ij {
                        used.set(j, true);
                        batch_pos.push(j);
                        assert(batch_pos@.map_values(|x: usize| x as int) =~= bseq.push(j as int));
                    }
                    j = j + 1;
                }
                proof {
                    lemma_scan_keeps_len(near@, i as int, used@, j as int, n as int, g_cap, batch_pos@.map_values(|x: usize| x as int));
                    assert(target.0 =~= batch_pos@.map_values(|x: usize| x as int));
                    assert(target.1 =~= used@);
                }
                let mut batch: Vec<TaskId> = Vec::new();
                let mut q: usize = 0;
                while q < batch_pos.len()
                    invariant
                        n == pending_tasks@.len(),
                        q <= batch_pos@.len(),
                        forall|x: int| 0 <= x < batch_pos@.len() ==> #[trigger] batch_pos@[x] < n,
                        batch@ == tasks_at(pending_tasks@, batch_pos@.map_values(|x: usize| x as int).take(q as int)),
                    decreases batch_pos@.len() - q,
                {
                    let ghost before = batch@;
                    batch.push(pending_tasks[batch_pos[q]]);
                    q = q + 1;
                    assert(batch@ =~= tasks_at(pending_tasks@, batch_pos@.map_values(|x: usize| x as int).take(q as int)));
                }
                assert(batch_pos@.map_values(|x: usize| x as int).take(q as int) =~= target.0);
                proof {
                    assert(zone_from(near@, used0, i as int, n as int, g_cap) == seq![target.0] + zone_from(near@, target.1, i + 1, n as int, g_cap));
                    assert(done + seq![target.0] + zone_from(near@, used@, i + 1, n as int, g_cap) =~= done + zone_from(near@, used0, i as int, n as int, g_cap));
                    done = done + seq![target.0];
                }
                out.push(batch);
                i = i + 1;
            }
        }
        assert(done =~= all);
        out
    }
}

impl Default for ZoneBatchingPolicy {
    fn default() -> (r: Self)
        ensures
            r.cap() == 5,
    {
        ZoneBatchingPolicy::default_zone()
    }
}

// ---------------------------------------------------------------------------
// Priority arbitration
// ---------------------------------------------------------------------------

/// The rank of a task type under strict priority: picks first, then
/// replenishment, then putaway.
pub open spec fn strict_rank(t: TaskType) -> u32 {
    match t {
        TaskType::Pick => 0,
        TaskType::Replenishment => 1,
        TaskType::Putaway => 2,
    }
}

/// The sort key of a task under strict priority; unknown tasks go last.
pub open spec fn strict_key(t: Option<TaskType>) -> u32 {
    match t {
        Some(tt) => strict_rank(tt),
        None => u32::MAX,
    }
}

/// The tasks (with their types) whose key is `k`, in their order.
pub open spec fn with_key(entries: Seq<(TaskId, Option<TaskType>)>, k: u32) -> Seq<(TaskId, Option<TaskType>)> {
    entries.filter(|e: (TaskId, Option<TaskType>)| strict_key(e.1) == k)
}

/// The identifiers of `entries`.
pub open spec fn task_ids(entries: Seq<(TaskId, Option<TaskType>)>) -> Seq<TaskId> {
    entries.map_values(|e: (TaskId, Option<TaskType>)| e.0)
}

/// Stable sort by strict priority: the tasks of each rank, in their
/// input order, ranks in increasing order and unknown tasks last.
pub open spec fn strict_order(entries: Seq<(TaskId, Option<TaskType>)>) -> Seq<TaskId> {
    task_ids(with_key(entries, 0)) + task_ids(with_key(entries, 1)) + task_ids(with_key(entries, 2))
        + task_ids(with_key(entries, u32::MAX))
}

/// Strict priority: pick, then replenishment, then putaway.
pub struct StrictPriorityPolicy;

impl StrictPriorityPolicy {
    pub fn new() -> (r: Self) {
        StrictPriorityPolicy
    }

    /// The rank of a task type (lower runs first).
    pub fn task_priority(task_type: &TaskType) -> (r: u32)
        ensures
            r == strict_rank(*task_type),
    {
        match task_type {
            TaskType::Pick => 0,
            TaskType::Replenishment => 1,
            TaskType::Putaway => 2,
        }
    }

    /// The policy's name for logging.
    pub fn name(&self) -> (r: &'static str)
        ensures
            r@ == "strict_priority"@,
    {
        "strict_priority"
    }

    /// Appends the identifiers of the entries whose key is `k`, in order.
    fn push_with_key(entries: &[(TaskId, Option<TaskType>)], k: u32, out: &mut Vec<TaskId>)
        ensures
            final(out)@ == old(out)@ + task_ids(with_key(entries@, k)),
    {
        let ghost start = out@;
        let mut i: usize = 0;
        while i < entries.len()
            invariant
                i <= entries@.len(),
                out@ == start + task_ids(with_key(entries@.subrange(0, i as int), k)),
            decreases entries@.len() - i,
        {
            let e = &entries[i];
            let key = match &e.1 {
                Some(t) => Self::task_priority(t),
                None => u32::MAX,
            };
            let ghost prefix = entries@.subrange(0, i as int);
            proof {
                assert(entries@.subrange(0, i + 1) =~= prefix.push(*e));
                reveal_with_fuel(Seq::<(TaskId, Option<TaskType>)>::filter, 1);
                assert(prefix.push(*e).drop_last() =~= prefix);
            }
            if key == k {
                out.push(e.0);
                proof {
                    assert(with_key(prefix.push(*e), k) =~= with_key(prefix, k).push(*e));
                    assert(task_ids(with_key(prefix, k).push(*e)) =~= task_ids(with_key(prefix, k)).push(
                        e.0,
                    ));
                }
            } else {
                proof {
                    assert(with_key(prefix.push(*e), k) =~= with_key(prefix, k));
                }
            }
            i = i + 1;
            assert(out@ =~= start + task_ids(with_key(entries@.subrange(0, i as int), k)));
        }
        assert(entries@.subrange(0, entries@.len() as int) =~= entries@);
    }

    /// Orders tasks (given with their types, `None` for an unknown task) by
    /// strict priority; tasks of equal rank keep their order.
    pub fn prioritize(&self, entries: &[(TaskId, Option<TaskType>)]) -> (r: Vec<TaskId>)
        ensures
            r@ == strict_order(entries@),
    {
        let mut out: Vec<TaskId> = Vec::new();
        Self::push_with_key(entries, 0, &mut out);
        Self::push_with_key(entries, 1, &mut out);
        Self::push_with_key(entries, 2, &mut out);
        Self::push_with_key(entries, u32::MAX, &mut out);
        assert(out@ =~= strict_order(entries@));
        out
    }
}

impl Default for StrictPriorityPolicy {
    fn default() -> (r: Self) {
        StrictPriorityPolicy::new()
    }
}

/// A task with the time that orders it.
pub type Timed = (TaskId, TimePoint);

/// The entries of `s` at time key `k`, in their order.
pub open spec fn at_time(s: Seq<Timed>, k: u64) -> Seq<Timed>
    decreases s.len(),
{
    if s.len() == 0 {
        Seq::empty()
    } else {
        let rest = at_time(s.drop_last(), k);
        if s.last().1.0 == k {
            rest.push(s.last())
        } else {
            rest
        }
    }
}

/// `s` is ordered by time, earliest first.
pub open spec fn time_sorted(s: Seq<Timed>) -> bool {
    forall|i: int, j: int| 0 <= i < j < s.len() ==> #[trigger] s[i].1.0 <= #[trigger] s[j].1.0
}

/// `out` is `input` in a stable order by time: earliest first, entries
/// with equal times in their input order.
pub open spec fn stable_time_order(input: Seq<Timed>, out: Seq<Timed>) -> bool {
    &&& time_sorted(out)
    &&& forall|k: u64| #[trigger] at_time(out, k) == at_time(input, k)
}

/// The task identifiers of timed entries.
pub open spec fn timed_ids(s: Seq<Timed>) -> Seq<TaskId> {
    s.map_values(|e: Timed| e.0)
}

proof fn lemma_at_time_add(a: Seq<Timed>, b: Seq<Timed>, k: u64)
    ensures
        at_time(a + b, k) == at_time(a, k) + at_time(b, k),
    decreases b.len(),
{
    if b.len() == 0 {
        assert(a + b =~= a);
        assert(at_time(b, k) =~= Seq::<Timed>::empty());
        assert(at_time(a, k) + at_time(b, k) =~= at_time(a, k));
    } else {
        assert((a + b).drop_last() =~= a + b.drop_last());
        assert((a + b).last() == b.last());
        lemma_at_time_add(a, b.drop_last(), k);
        if b.last().1.0 == k {
            assert(at_time(a, k) + at_time(b.drop_last(), k).push(b.last()) =~= (at_time(a, k)
                + at_time(b.drop_last(), k)).push(b.last()));
        }
    }
}

proof fn lemma_at_time_none(s: Seq<Timed>, k: u64)
    requires
        forall|i: int| 0 <= i < s.len() ==> (#[trigger] s[i]).1.0 != k,
    ensures
        at_time(s, k) == Seq::<Timed>::empty(),
    decreases s.len(),
{
    if s.len() > 0 {
        assert(s.last() == s[s.len() - 1]);
        lemma_at_time_none(s.drop_last(), k);
    }
}

proof fn lemma_at_time_has(s: Seq<Timed>, i: int)
    requires
        0 <= i < s.len(),
    ensures
        at_time(s, s[i].1.0).len() > 0,
    decreases s.len(),
{
    if i < s.len() - 1 {
        assert(s.drop_last()[i] == s[i]);
        lemma_at_time_has(s.drop_last(), i);
    }
}

proof fn lemma_same_groups_sorted_equal(a: Seq<Timed>, b: Seq<Timed>)
    requires
        time_sorted(a),
        time_sorted(b),
        forall|k: u64| #[trigger] at_time(a, k) == at_time(b, k),
    ensures
        a == b,
    decreases a.len(),
{
    if a.len() == 0 {
        if b.len() > 0 {
            lemma_at_time_has(b, 0);
            assert(at_time(a, b[0].1.0) == at_time(b, b[0].1.0));
        }
        assert(a =~= b);
    } else {
        if b.len() == 0 {
            lemma_at_time_has(a, 0);
            assert(at_time(a, a[0].1.0) == at_time(b, a[0].1.0));
        }
        let ma = a.last().1.0;
        let mb = b.last().1.0;
        if ma < mb {
            lemma_at_time_has(b, b.len() - 1);
            assert forall|j: int| 0 <= j < a.len() implies (#[trigger] a[j]).1.0 != mb by {
                if j < a.len() - 1 {
                    assert(a[j].1.0 <= a[a.len() - 1].1.0);
                }
            }
            lemma_at_time_none(a, mb);
            assert(at_time(a, mb) == at_time(b, mb));
        }
        if mb < ma {
            lemma_at_time_has(a, a.len() - 1);
            assert forall|j: int| 0 <= j < b.len() implies (#[trigger] b[j]).1.0 != ma by {
                if j < b.len() - 1 {
                    assert(b[j].1.0 <= b[b.len() - 1].1.0);
                }
            }
            lemma_at_time_none(b, ma);
            assert(at_time(a, ma) == at_time(b, ma));
        }
        assert(ma == mb);
        assert(at_time(a, ma) == at_time(b, ma));
        assert(at_time(a, ma) == at_time(a.drop_last(), ma).push(a.last()));
        assert(at_time(b, ma) == at_time(b.drop_last(), ma).push(b.last()));
        assert(at_time(a, ma).last() == a.last());
        assert(at_time(b, ma).last() == b.last());
        assert(at_time(a.drop_last(), ma) =~= at_time(a, ma).drop_last());
        assert(at_time(b.drop_last(), ma) =~= at_time(b, ma).drop_last());
        assert forall|k: u64| #[trigger] at_time(a.drop_last(), k) == at_time(b.drop_last(), k) by {
            assert(at_time(a, k) == at_time(b, k));
        }
        assert forall|i: int, j: int| 0 <= i < j < a.drop_last().len() implies #[trigger] a.drop_last()[i].1.0
            <= #[trigger] a.drop_last()[j].1.0 by {
            assert(a[i].1.0 <= a[j].1.0);
        }
        assert forall|i: int, j: int| 0 <= i < j < b.drop_last().len() implies #[trigger] b.drop_last()[i].1.0
            <= #[trigger] b.drop_last()[j].1.0 by {
            assert(b[i].1.0 <= b[j].1.0);
        }
        lemma_same_groups_sorted_equal(a.drop_last(), b.drop_last());
        assert(a =~= a.drop_last().push(a.last()));
        assert(b =~= b.drop_last().push(b.last()));
    }
}

/// A stable order by time is unique: the priority policies that order by
/// time have exactly one possible result for each input.
pub proof fn law_stable_time_order_is_unique(input: Seq<Timed>, a: Seq<Timed>, b: Seq<Timed>)
    requires
        stable_time_order(input, a),
        stable_time_order(input, b),
    ensures
        a == b,
{
    assert forall|k: u64| #[trigger] at_time(a, k) == at_time(b, k) by {
        assert(at_time(a, k) == at_time(input, k));
        assert(at_time(b, k) == at_time(input, k));
    }
    lemma_same_groups_sorted_equal(a, b);
}

/// Orders timed entries stably by time, earliest first.
pub fn order_by_time(entries: &[Timed]) -> (r: Vec<Timed>)
    ensures
        stable_time_order(entries@, r@),
{
    let mut out: Vec<Timed> = Vec::new();
    let mut i: usize = 0;
    while i < entries.len()
        invariant
            i <= entries@.len(),
            time_sorted(out@),
            forall|k: u64| #[trigger] at_time(out@, k) == at_time(entries@.subrange(0, i as int), k),
        decreases entries@.len() - i,
    {
        let x = entries[i];
        let mut p: usize = 0;
        while p < out.len() && out[p].1.0 <= x.1.0
            invariant
                p <= out@.len(),
                forall|j: int| 0 <= j < p ==> out@[j].1.0 <= x.1.0,
            decreases out@.len() - p,
        {
            p = p + 1;
        }
        let ghost before = out@;
        let ghost prefix = entries@.subrange(0, i as int);
        out.insert(p, x);
        proof {
            assert(out@ == before.insert(p as int, x));
            assert forall|a: int, b: int| 0 <= a < b < out@.len() implies #[trigger] out@[a].1.0
                <= #[trigger] out@[b].1.0 by {
                if b < p {
                    assert(before[a].1.0 <= before[b].1.0);
                } else if b == p {
                    assert(before[a].1.0 <= x.1.0);
                } else if a < p {
                    assert(before[a].1.0 <= before[b - 1].1.0);
                } else if a == p {
                    assert(!(before[p as int].1.0 <= x.1.0));
                    if p < b - 1 {
                        assert(before[p as int].1.0 <= before[b - 1].1.0);
                    }
                } else {
                    assert(before[a - 1].1.0 <= before[b - 1].1.0);
                }
            }
            let head = before.take(p as int);
            let tail = before.skip(p as int);
            assert(before =~= head + tail);
            assert(out@ =~= head + seq![x] + tail);
            assert(entries@.subrange(0, i + 1) =~= prefix.push(x));
            assert forall|k: u64| #[trigger] at_time(out@, k) == at_time(entries@.subrange(0, i + 1), k) by {
                lemma_at_time_add(head + seq![x], tail, k);
                lemma_at_time_add(head, seq![x], k);
                lemma_at_time_add(head, tail, k);
                assert(seq![x].drop_last() =~= Seq::<Timed>::empty());
                assert(prefix.push(x).drop_last() =~= prefix);
                if k == x.1.0 {
                    assert forall|j: int| 0 <= j < tail.len() implies (#[trigger] tail[j]).1.0 != k by {
                        if p as int + j == p as int {
                            assert(!(before[p as int].1.0 <= x.1.0));
                        } else {
                            assert(before[p as int].1.0 <= before[p + j].1.0);
                            assert(!(before[p as int].1.0 <= x.1.0));
                        }
                    }
                    lemma_at_time_none(tail, k);
                    assert(at_time(head + tail, k) =~= at_time(head, k));
                    assert(at_time(out@, k) =~= at_time(head, k).push(x));
                } else {
                    assert(at_time(seq![x], k) =~= Seq::<Timed>::empty());
                    assert(at_time(out@, k) =~= at_time(head, k) + at_time(tail, k));
                }
            }
        }
        i = i + 1;
    }
    assert(entries@.subrange(0, entries@.len() as int) =~= entries@);
    out
}

/// The identifiers of `entries` in a stable order by time.
fn prioritize_by_time(entries: &[Timed]) -> (r: Vec<TaskId>)
    ensures
        exists|out: Seq<Timed>| stable_time_order(entries@, out) && r@ == timed_ids(out),
{
    let sorted = order_by_time(entries);
    let mut ids: Vec<TaskId> = Vec::new();
    let mut i: usize = 0;
    while i < sorted.len()
        invariant
            i <= sorted@.len(),
            ids@ == timed_ids(sorted@.subrange(0, i as int)),
        decreases sorted@.len() - i,
    {
        ids.push(sorted[i].0);
        i = i + 1;
        assert(ids@ =~= timed_ids(sorted@.subrange(0, i as int)));
    }
    assert(sorted@.subrange(0, sorted@.len() as int) =~= sorted@);
    ids
}

/// First in, first out, by task creation time.
pub struct FifoPolicy;

impl FifoPolicy {
    pub fn new() -> (r: Self) {
        FifoPolicy
    }

    /// The policy's name for logging.
    pub fn name(&self) -> (r: &'static str)
        ensures
            r@ == "fifo"@,
    {
        "fifo"
    }

    /// Orders tasks by creation time, given with each task (the latest
    /// time for a task that is not known), earliest first; tasks created
    /// at the same time keep their order.
    pub fn prioritize(&self, created: &[Timed]) -> (r: Vec<TaskId>)
        ensures
            exists|out: Seq<Timed>| stable_time_order(created@, out) && r@ == timed_ids(out),
    {
        prioritize_by_time(created)
    }
}

impl Default for FifoPolicy {
    fn default() -> (r: Self) {
        FifoPolicy::new()
    }
}

/// Earliest order due time first.
pub struct DueTimePolicy;

impl DueTimePolicy {
    pub fn new() -> (r: Self) {
        DueTimePolicy
    }

    /// The policy's name for logging.
    pub fn name(&self) -> (r: &'static str)
        ensures
            r@ == "due_time"@,
    {
        "due_time"
    }

    /// Orders tasks by the due time of their order, given with each task
    /// (the latest time when the task, its order or its due time is not
    /// known), earliest first; tasks due at the same time keep their order.
    pub fn prioritize(&self, due: &[Timed]) -> (r: Vec<TaskId>)
        ensures
            exists|out: Seq<Timed>| stable_time_order(due@, out) && r@ == timed_ids(out),
    {
        prioritize_by_time(due)
    }
}

impl Default for DueTimePolicy {
    fn default() -> (r: Self) {
        DueTimePolicy::new()
    }
}

/// Weighted fair queueing across task types.
pub struct WeightedFairPolicy {
    pick_weight: u32,
    putaway_weight: u32,
    replen_weight: u32,
}

impl WeightedFairPolicy {
    /// The weight of a task type.
    pub closed spec fn weight_of(&self, t: TaskType) -> u32 {
        match t {
            TaskType::Pick => self.pick_weight,
            TaskType::Putaway => self.putaway_weight,
            TaskType::Replenishment => self.replen_weight,
        }
    }

    pub fn new(pick_weight: u32, putaway_weight: u32, replen_weight: u32) -> (r: Self)
        ensures
            r.weight_of(TaskType::Pick) == pick_weight,
            r.weight_of(TaskType::Putaway) == putaway_weight,
            r.weight_of(TaskType::Replenishment) == replen_weight,
    {
        WeightedFairPolicy { pick_weight, putaway_weight, replen_weight }
    }

    /// The weight of a task type (lower is served more often).
    pub fn task_weight(&self, task_type: &TaskType) -> (r: u32)
        ensures
            r == self.weight_of(*task_type),
    {
        match task_type {
            TaskType::Pick => self.pick_weight,
            TaskType::Putaway => self.putaway_weight,
            TaskType::Replenishment => self.replen_weight,
        }
    }

    /// The policy's name for logging.
    pub fn name(&self) -> (r: &'static str)
        ensures
            r@ == "weighted_fair"@,
    {
        "weighted_fair"
    }

    /// Orders tasks by virtual time (creation time times the weight of the
    /// task's type, the latest time for a task that is not known), given
    /// with each task, earliest first; ties keep their order.
    pub fn prioritize(&self, virtual_times: &[Timed]) -> (r: Vec<TaskId>)
        ensures
            exists|out: Seq<Timed>| stable_time_order(virtual_times@, out) && r@ == timed_ids(out),
    {
        prioritize_by_time(virtual_times)
    }
}

impl Default for WeightedFairPolicy {
    /// Picks weigh 1, putaway 2, replenishment 3.
    fn default() -> (r: Self)
        ensures
            r.weight_of(TaskType::Pick) == 1,
            r.weight_of(TaskType::Putaway) == 2,
            r.weight_of(TaskType::Replenishment) == 3,
    {
        WeightedFairPolicy::new(1, 2, 3)
    }
}

// ---------------------------------------------------------------------------
// Destination selection
// ---------------------------------------------------------------------------

/// Selects the nearest empty bin for putaway.
pub struct NearestEmptyBinPolicy;

impl NearestEmptyBinPolicy {
    pub fn new() -> (r: Self) {
        NearestEmptyBinPolicy
    }

    /// The policy's name for logging.
    pub fn name(&self) -> (r: &'static str)
        ensures
            r@ == "nearest_empty_bin"@,
    {
        "nearest_empty_bin"
    }
}

impl Default for NearestEmptyBinPolicy {
    fn default() -> (r: Self) {
        NearestEmptyBinPolicy::new()
    }
}

// ---------------------------------------------------------------------------
// Traffic handling
// ---------------------------------------------------------------------------

/// What to do when traffic blocks a robot.
#[derive(Clone, Copy, Debug, PartialEq, Eq, Structural)]
pub enum TrafficAction {
    /// Keep waiting at the current position.
    Wait,
    /// Try an alternate route.
    Reroute,
    /// Abort the current movement.
    Abort,
}

/// Waits at the node until the edge becomes available.
pub struct WaitAtNodePolicy;

impl WaitAtNodePolicy {
    pub fn new() -> (r: Self) {
        WaitAtNodePolicy
    }

    /// The decision when blocked: always wait.
    pub fn on_blocked(&self) -> (r: TrafficAction)
        ensures
            r == TrafficAction::Wait,
    {
        TrafficAction::Wait
    }

    /// The policy's name for logging.
    pub fn name(&self) -> (r: &'static str)
        ensures
            r@ == "wait_at_node"@,
    {
        "wait_at_node"
    }
}

impl Default for WaitAtNodePolicy {
    fn default() -> (r: Self) {
        WaitAtNodePolicy::new()
    }
}

/// Reroutes once a robot has waited as long as a threshold, and waits until
/// then.
///
/// The threshold is a real number of seconds, kept as the bit pattern of its
/// IEEE-754 double value; the caller compares the time waited with it.
pub struct RerouteOnWaitPolicy {
    wait_threshold_bits: u64,
    max_reroute_attempts: u32,
}

impl RerouteOnWaitPolicy {
    /// Reroutes after `wait_threshold_bits` (the bit pattern of a number of
    /// seconds); `max_reroute_attempts` is kept for the caller.
    pub fn new(wait_threshold_bits: u64, max_reroute_attempts: u32) -> (r: Self)
        ensures
            r.spec_wait_threshold_bits() == wait_threshold_bits,
            r.spec_max_reroute_attempts() == max_reroute_attempts,
    {
        RerouteOnWaitPolicy { wait_threshold_bits, max_reroute_attempts }
    }

    /// Two seconds of waiting, three attempts.
    pub fn default_thresholds() -> (r: Self)
        ensures
            r.spec_wait_threshold_bits() == 0x4000_0000_0000_0000u64,
            r.spec_max_reroute_attempts() == 3,
    {
        RerouteOnWaitPolicy::new(0x4000_0000_0000_0000u64, 3)
    }

    /// The waiting threshold, as the bit pattern of a number of seconds.
    pub fn wait_threshold_bits(&self) -> (r: u64)
        ensures
            r == self.spec_wait_threshold_bits(),
    {
        self.wait_threshold_bits
    }

    pub closed spec fn spec_wait_threshold_bits(&self) -> u64 {
        self.wait_threshold_bits
    }

    /// The number of reroute attempts allowed.
    pub fn max_reroute_attempts(&self) -> (r: u32)
        ensures
            r == self.spec_max_reroute_attempts(),
    {
        self.max_reroute_attempts
    }

    pub closed spec fn spec_max_reroute_attempts(&self) -> u32 {
        self.max_reroute_attempts
    }

    /// Reroutes when the robot has waited at least the threshold
    /// (`threshold_reached`), and waits otherwise.
    pub fn on_blocked(&self, threshold_reached: bool) -> (r: TrafficAction)
        ensures
            r == if threshold_reached {
                TrafficAction::Reroute
            } else {
                TrafficAction::Wait
            },
    {
        if threshold_reached {
            TrafficAction::Reroute
        } else {
            TrafficAction::Wait
        }
    }

    /// The policy's name for logging.
    pub fn name(&self) -> (r: &'static str)
        ensures
            r@ == "reroute_on_wait"@,
    {
        "reroute_on_wait"
    }
}

impl Default for RerouteOnWaitPolicy {
    fn default() -> (r: Self)
        ensures
            r.spec_wait_threshold_bits() == 0x4000_0000_0000_0000u64,
            r.spec_max_reroute_attempts() == 3,
    {
        RerouteOnWaitPolicy::default_thresholds()
    }
}

/// What the adaptive policy does: on a congested edge or node (as many
/// robots as the threshold, or more) it reroutes after half the base wait;
/// otherwise after the base wait; before that it waits.
pub open spec fn adaptive_action(
    edge_occupancy: nat,
    node_occupancy: nat,
    congestion_threshold: nat,
    half_wait_reached: bool,
    wait_reached: bool,
) -> TrafficAction {
    if (edge_occupancy >= congestion_threshold || node_occupancy >= congestion_threshold)
        && half_wait_reached {
        TrafficAction::Reroute
    } else if wait_reached {
        TrafficAction::Reroute
    } else {
        TrafficAction::Wait
    }
}

/// The adaptive policy judges the edge and the node each on its own: while
/// neither holds as many robots as the threshold and the full base wait is
/// not reached, the robot waits, however many robots the two hold together;
/// once either one holds that many, it reroutes after half the base wait;
/// and after the full base wait it reroutes in any case.
pub proof fn law_adaptive_congestion_is_per_place(
    edge_occupancy: nat,
    node_occupancy: nat,
    congestion_threshold: nat,
    half_wait_reached: bool,
    wait_reached: bool,
)
    ensures
        edge_occupancy < congestion_threshold && node_occupancy < congestion_threshold
            && !wait_reached ==> adaptive_action(
            edge_occupancy,
            node_occupancy,
            congestion_threshold,
            half_wait_reached,
            wait_reached,
        ) == TrafficAction::Wait,
        (edge_occupancy >= congestion_threshold || node_occupancy >= congestion_threshold)
            && half_wait_reached ==> adaptive_action(
            edge_occupancy,
            node_occupancy,
            congestion_threshold,
            half_wait_reached,
            wait_reached,
        ) == TrafficAction::Reroute,
        wait_reached ==> adaptive_action(
            edge_occupancy,
            node_occupancy,
            congestion_threshold,
            half_wait_reached,
            wait_reached,
        ) == TrafficAction::Reroute,
        !half_wait_reached && !wait_reached ==> adaptive_action(
            edge_occupancy,
            node_occupancy,
            congestion_threshold,
            half_wait_reached,
            wait_reached,
        ) == TrafficAction::Wait,
{
}

/// Waits, but reroutes sooner where traffic is congested.
///
/// The base wait is a real number of seconds, kept as the bit pattern of its
/// IEEE-754 double value; the caller compares the time waited with it and
/// with its half.
pub struct AdaptiveTrafficPolicy {
    base_wait_bits: u64,
    congestion_threshold: usize,
}

impl AdaptiveTrafficPolicy {
    /// Waits `base_wait_bits` (the bit pattern of a number of seconds), and
    /// counts an edge or node with `congestion_threshold` robots as congested.
    pub fn new(base_wait_bits: u64, congestion_threshold: usize) -> (r: Self)
        ensures
            r.spec_base_wait_bits() == base_wait_bits,
            r.spec_congestion_threshold() == congestion_threshold,
    {
        AdaptiveTrafficPolicy { base_wait_bits, congestion_threshold }
    }

    /// The base wait, as the bit pattern of a number of seconds.
    pub fn base_wait_bits(&self) -> (r: u64)
        ensures
            r == self.spec_base_wait_bits(),
    {
        self.base_wait_bits
    }

    pub closed spec fn spec_base_wait_bits(&self) -> u64 {
        self.base_wait_bits
    }

    /// The number of robots at which an edge or node counts as congested.
    pub fn congestion_threshold(&self) -> (r: usize)
        ensures
            r == self.spec_congestion_threshold(),
    {
        self.congestion_threshold
    }

    pub closed spec fn spec_congestion_threshold(&self) -> usize {
        self.congestion_threshold
    }

    /// The decision for a robot at `current_node` that cannot enter
    /// `blocked_edge`, given whether it has waited half the base wait and
    /// the whole base wait.
    pub fn on_blocked(
        &self,
        traffic: &TrafficManager,
        blocked_edge: EdgeId,
        current_node: NodeId,
        half_wait_reached: bool,
        wait_reached: bool,
    ) -> (r: TrafficAction)
        requires
            traffic.wf(),
        ensures
            r == adaptive_action(
                traffic.edge_occupants(blocked_edge.0).len(),
                traffic.node_occupants(current_node.0).len(),
                self.spec_congestion_threshold() as nat,
                half_wait_reached,
                wait_reached,
            ),
    {
        let edge_congestion = traffic.get_edge_occupancy(blocked_edge);
        let node_congestion = traffic.get_node_occupancy(current_node);
        if (edge_congestion >= self.congestion_threshold || node_congestion
            >= self.congestion_threshold) && half_wait_reached {
            return TrafficAction::Reroute;
        }
        if wait_reached {
            TrafficAction::Reroute
        } else {
            TrafficAction::Wait
        }
    }

    /// The policy's name for logging.
    pub fn name(&self) -> (r: &'static str)
        ensures
            r@ == "adaptive"@,
    {
        "adaptive"
    }
}

impl Default for AdaptiveTrafficPolicy {
    /// One second of base wait; two robots make congestion.
    fn default() -> (r: Self)
        ensures
            r.spec_base_wait_bits() == 0x3FF0_0000_0000_0000u64,
            r.spec_congestion_threshold() == 2,
    {
        AdaptiveTrafficPolicy::new(0x3FF0_0000_0000_0000u64, 2)
    }
}

/// Capacity-based traffic control: robots occupy whole edges and nodes, up
/// to their capacity, with no direction locking.
pub struct CoarseTrafficPolicy;

impl CoarseTrafficPolicy {
    pub fn new() -> (r: Self) {
        CoarseTrafficPolicy
    }

    /// The policy's name.
    pub fn name(&self) -> (r: &'static str)
        ensures
            r@ == "coarse"@,
    {
        "coarse"
    }

    /// Whether `robot` may enter `edge`: capacity alone decides.
    pub fn can_enter_edge(
        &self,
        traffic: &TrafficManager,
        edge: EdgeId,
        robot: RobotId,
        from: NodeId,
        to: NodeId,
    ) -> (r: bool)
        requires
            traffic.wf(),
        ensures
            r == may_enter(traffic.edge_occupants(edge.0), traffic.edge_cap(edge.0), robot.0),
    {
        traffic.can_enter_edge(edge, robot)
    }

    /// Whether `robot` may enter `node`: capacity alone decides.
    pub fn can_enter_node(&self, traffic: &TrafficManager, node: NodeId, robot: RobotId) -> (r: bool)
        requires
            traffic.wf(),
        ensures
            r == may_enter(traffic.node_occupants(node.0), traffic.node_cap(node.0), robot.0),
    {
        traffic.can_enter_node(node, robot)
    }

    /// Records that `robot` entered `edge`.
    pub fn on_enter_edge(
        &mut self,
        traffic: &mut TrafficManager,
        edge: EdgeId,
        robot: RobotId,
        from: NodeId,
        to: NodeId,
    )
        requires
            old(traffic).wf(),
        ensures
            final(traffic).wf(),
            forall|e: u32|
                #[trigger] final(traffic).edge_occupants(e) == if e == edge.0 {
                    old(traffic).edge_occupants(e).insert(robot.0)
                } else {
                    old(traffic).edge_occupants(e)
                },
            forall|e: u32| #[trigger] final(traffic).edge_cap(e) == old(traffic).edge_cap(e),
            final(traffic).same_nodes(old(traffic)),
            final(traffic).same_waits(old(traffic)),
    {
        traffic.enter_edge(edge, robot);
    }

    /// Records that `robot` left `edge`.
    pub fn on_leave_edge(&mut self, traffic: &mut TrafficManager, edge: EdgeId, robot: RobotId)
        requires
            old(traffic).wf(),
        ensures
            final(traffic).wf(),
            forall|e: u32|
                #[trigger] final(traffic).edge_occupants(e) == if e == edge.0 {
                    old(traffic).edge_occupants(e).remove(robot.0)
                } else {
                    old(traffic).edge_occupants(e)
                },
            forall|e: u32| #[trigger] final(traffic).edge_cap(e) == old(traffic).edge_cap(e),
            final(traffic).same_nodes(old(traffic)),
            final(traffic).same_waits(old(traffic)),
    {
        traffic.leave_edge(edge, robot);
    }

    /// Records that `robot` entered `node`.
    pub fn on_enter_node(&mut self, traffic: &mut TrafficManager, node: NodeId, robot: RobotId)
        requires
            old(traffic).wf(),
        ensures
            final(traffic).wf(),
            forall|n: u32|
                #[trigger] final(traffic).node_occupants(n) == if n == node.0 {
                    old(traffic).node_occupants(n).insert(robot.0)
                } else {
                    old(traffic).node_occupants(n)
                },
            forall|n: u32| #[trigger] final(traffic).node_cap(n) == old(traffic).node_cap(n),
            final(traffic).same_edges(old(traffic)),
            final(traffic).same_waits(old(traffic)),
    {
        traffic.enter_node(node, robot);
    }

    /// Records that `robot` left `node`.
    pub fn on_leave_node(&mut self, traffic: &mut TrafficManager, node: NodeId, robot: RobotId)
        requires
            old(traffic).wf(),
        ensures
            final(traffic).wf(),
            forall|n: u32|
                #[trigger] final(traffic).node_occupants(n) == if n == node.0 {
                    old(traffic).node_occupants(n).remove(robot.0)
                } else {
                    old(traffic).node_occupants(n)
                },
            forall|n: u32| #[trigger] final(traffic).node_cap(n) == old(traffic).node_cap(n),
            final(traffic).same_edges(old(traffic)),
            final(traffic).same_waits(old(traffic)),
    {
        traffic.leave_node(node, robot);
    }
}

impl Default for CoarseTrafficPolicy {
    fn default() -> (r: Self) {
        CoarseTrafficPolicy::new()
    }
}

/// A recorded travel direction lets a robot go from `from` to `to` when no
/// direction is locked or the locked one is the same.
pub open spec fn direction_allows(
    d: Option<Option<(NodeId, NodeId)>>,
    from: NodeId,
    to: NodeId,
) -> bool {
    match d {
        Some(Some(dir)) => dir == (from, to),
        _ => true,
    }
}

/// Traffic control with direction locking and a following distance.
///
/// An edge is used in one direction at a time: the first robot to enter an
/// empty edge locks its direction, and the lock lasts until the edge is
/// empty again. Robots keep a safety distance from the robot ahead; where
/// robots are along an edge (a fraction of its length) is tracked by the
/// caller, who tells `can_enter_edge` whether the way ahead is clear.
pub struct ContinuousTrafficPolicy;

impl ContinuousTrafficPolicy {
    pub fn new() -> (r: Self) {
        ContinuousTrafficPolicy
    }

    /// The policy's name.
    pub fn name(&self) -> (r: &'static str)
        ensures
            r@ == "continuous"@,
    {
        "continuous"
    }

    /// Whether `robot` may enter `edge` going from `from` to `to`: the edge
    /// has room, its locked direction (if any) is this one, and
    /// `following_clear` says no robot going this way is too close ahead.
    pub fn can_enter_edge(
        &self,
        traffic: &TrafficManager,
        edge: EdgeId,
        robot: RobotId,
        from: NodeId,
        to: NodeId,
        following_clear: bool,
    ) -> (r: bool)
        requires
            traffic.wf(),
        ensures
            r == (traffic.edge_occupants(edge.0).len() < traffic.edge_cap(edge.0)
                && direction_allows(traffic.directions().get(edge.0), from, to) && following_clear),
    {
        let capacity = traffic.edge_capacity(edge);
        if traffic.edge_occupancy_count(edge) >= capacity as usize {
            return false;
        }
        match traffic.edge_direction(edge) {
            Some(Some(dir)) => {
                if dir.0 != from || dir.1 != to {
                    return false;
                }
            },
            _ => {},
        }
        following_clear
    }

    /// Whether `robot` may enter `node`: capacity alone decides.
    pub fn can_enter_node(&self, traffic: &TrafficManager, node: NodeId, robot: RobotId) -> (r: bool)
        requires
            traffic.wf(),
        ensures
            r == may_enter(traffic.node_occupants(node.0), traffic.node_cap(node.0), robot.0),
    {
        traffic.can_enter_node(node, robot)
    }

    /// Records that `robot` entered `edge` going from `from` to `to`, and
    /// locks that direction if the edge had none recorded.
    pub fn on_enter_edge(
        &mut self,
        traffic: &mut TrafficManager,
        edge: EdgeId,
        robot: RobotId,
        from: NodeId,
        to: NodeId,
    )
        requires
            old(traffic).wf(),
        ensures
            final(traffic).wf(),
            forall|e: u32|
                #[trigger] final(traffic).edge_occupants(e) == if e == edge.0 {
                    old(traffic).edge_occupants(e).insert(robot.0)
                } else {
                    old(traffic).edge_occupants(e)
                },
            forall|e: u32| #[trigger] final(traffic).edge_cap(e) == old(traffic).edge_cap(e),
            final(traffic).same_nodes(old(traffic)),
            final(traffic).waits() == old(traffic).waits(),
            final(traffic).detection() == old(traffic).detection(),
            final(traffic).directions() == if old(traffic).directions().contains_key(edge.0) {
                old(traffic).directions()
            } else {
                old(traffic).directions().insert(edge.0, Some((from, to)))
            },
    {
        traffic.enter_edge(edge, robot);
        if traffic.edge_direction(edge).is_none() {
            traffic.set_edge_direction(edge, Some((from, to)));
        }
    }

    /// Records that `robot` left `edge`. (The caller drops its tracked
    /// position, and clears the edge's direction when no robot is tracked on
    /// it any more.)
    pub fn on_leave_edge(&mut self, traffic: &mut TrafficManager, edge: EdgeId, robot: RobotId)
        requires
            old(traffic).wf(),
        ensures
            final(traffic).wf(),
            forall|e: u32|
                #[trigger] final(traffic).edge_occupants(e) == if e == edge.0 {
                    old(traffic).edge_occupants(e).remove(robot.0)
                } else {
                    old(traffic).edge_occupants(e)
                },
            forall|e: u32| #[trigger] final(traffic).edge_cap(e) == old(traffic).edge_cap(e),
            final(traffic).same_nodes(old(traffic)),
            final(traffic).same_waits(old(traffic)),
    {
        traffic.leave_edge(edge, robot);
    }

    /// Records that `robot` entered `node`.
    pub fn on_enter_node(&mut self, traffic: &mut TrafficManager, node: NodeId, robot: RobotId)
        requires
            old(traffic).wf(),
        ensures
            final(traffic).wf(),
            forall|n: u32|
                #[trigger] final(traffic).node_occupants(n) == if n == node.0 {
                    old(traffic).node_occupants(n).insert(robot.0)
                } else {
                    old(traffic).node_occupants(n)
                },
            forall|n: u32| #[trigger] final(traffic).node_cap(n) == old(traffic).node_cap(n),
            final(traffic).same_edges(old(traffic)),
            final(traffic).same_waits(old(traffic)),
    {
        traffic.enter_node(node, robot);
    }

    /// Records that `robot` left `node`.
    pub fn on_leave_node(&mut self, traffic: &mut TrafficManager, node: NodeId, robot: RobotId)
        requires
            old(traffic).wf(),
        ensures
            final(traffic).wf(),
            forall|n: u32|
                #[trigger] final(traffic).node_occupants(n) == if n == node.0 {
                    old(traffic).node_occupants(n).remove(robot.0)
                } else {
                    old(traffic).node_occupants(n)
                },
            forall|n: u32| #[trigger] final(traffic).node_cap(n) == old(traffic).node_cap(n),
            final(traffic).same_edges(old(traffic)),
            final(traffic).same_waits(old(traffic)),
    {
        traffic.leave_node(node, robot);
    }
}

impl Default for ContinuousTrafficPolicy {
    fn default() -> (r: Self) {
        ContinuousTrafficPolicy::new()
    }
}

/// While a robot is on an edge whose direction it locked, a robot going
/// the other way is refused.
pub proof fn law_locked_direction_refuses_opposite(
    d: Option<Option<(NodeId, NodeId)>>,
    from: NodeId,
    to: NodeId,
)
    requires
        d == Some(Some((from, to))),
        from != to,
    ensures
        !direction_allows(d, to, from),
        direction_allows(d, from, to),
{
}

} // verus!
