//! Entities of the simulation: orders, robots, stations and tasks, as far as
//! their state is made of identifiers and counts.

use std::collections::VecDeque;
use vstd::prelude::*;

use crate::ids::{
    ChargingStationId, EdgeId, MaintenanceStationId, NodeId, OrderId, RobotId, SkuId, StationId,
    TaskId,
};

verus! {

/// A line item of an order.
#[derive(Clone, Copy, Debug)]
pub struct OrderLine {
    pub sku_id: SkuId,
    pub quantity: u32,
}

impl OrderLine {
    /// A line asking for `quantity` units of `sku_id`.
    pub fn new(sku_id: SkuId, quantity: u32) -> (r: Self)
        ensures
            r.sku_id == sku_id,
            r.quantity == quantity,
    {
        OrderLine { sku_id, quantity }
    }
}

/// Status of an order.
#[derive(Clone, Copy, Debug, PartialEq, Eq, Structural)]
pub enum OrderStatus {
    Pending,
    InProgress,
    Completed,
    Cancelled,
}

impl Default for OrderStatus {
    fn default() -> (r: Self)
        ensures
            r == OrderStatus::Pending,
    {
        OrderStatus::Pending
    }
}

/// State of a robot in the simulation.
#[derive(Clone, Copy, Debug, PartialEq, Eq, Structural)]
#[allow(inconsistent_fields)]
pub enum RobotState {
    /// Idle and available for tasks.
    Idle,
    /// Moving to a destination.
    Moving { destination: NodeId },
    /// Waiting for an edge to become available.
    Waiting { for_edge: EdgeId },
    /// Being served at a station.
    Servicing { at_station: StationId },
    /// Picking up items at a bin.
    PickingUp { at_node: NodeId },
    /// Charging at a charging station.
    Charging { at_station: ChargingStationId },
    /// Moving to a charging station.
    SeekingCharge { destination: ChargingStationId },
    /// Failed and in need of repair.
    Failed,
    /// Moving to a maintenance station.
    SeekingMaintenance { destination: MaintenanceStationId, is_repair: bool },
    /// Being serviced at a maintenance station.
    InMaintenance { at_station: MaintenanceStationId, is_repair: bool },
}

impl Default for RobotState {
    fn default() -> (r: Self)
        ensures
            r == RobotState::Idle,
    {
        RobotState::Idle
    }
}

/// Type of station.
#[derive(Clone, Copy, Debug, PartialEq, Eq, Structural)]
pub enum StationType {
    Pick,
    Drop,
    Inbound,
    Outbound,
}

impl Default for StationType {
    fn default() -> (r: Self)
        ensures
            r == StationType::Pick,
    {
        StationType::Pick
    }
}

/// Type of task.
#[derive(Clone, Copy, Debug, PartialEq, Eq, Structural)]
pub enum TaskType {
    Pick,
    Putaway,
    Replenishment,
}

impl Default for TaskType {
    fn default() -> (r: Self)
        ensures
            r == TaskType::Pick,
    {
        TaskType::Pick
    }
}

/// Status of a task.
#[derive(Clone, Debug, PartialEq)]
pub enum TaskStatus {
    Pending,
    Assigned { robot: RobotId },
    MovingToPickup,
    PickingUp,
    MovingToStation,
    AtStation,
    Completed,
    Failed { reason: String },
}

impl Default for TaskStatus {
    fn default() -> (r: Self)
        ensures
            r == TaskStatus::Pending,
    {
        TaskStatus::Pending
    }
}

/// The first position of `robot` in `v`.
fn position_in(v: &Vec<RobotId>, robot: RobotId) -> (r: Option<usize>)
    ensures
        match r {
            Some(i) => i < v@.len() && v@[i as int] == robot && forall|j: int|
                0 <= j < i ==> v@[j] != robot,
            None => !v@.contains(robot),
        },
{
    let mut i: usize = 0;
    while i < v.len()
        invariant
            i <= v@.len(),
            forall|j: int| 0 <= j < i ==> v@[j] != robot,
        decreases v@.len() - i,
    {
        if v[i] == robot {
            return Some(i);
        }
        i = i + 1;
    }
    None
}

/// The queueing state of a station: robots waiting in arrival order and
/// robots being served, with the station's limits and counters.
pub struct Station {
    pub id: StationId,
    pub string_id: String,
    pub node: NodeId,
    pub station_type: StationType,
    /// How many robots may be served at once.
    pub concurrency: u32,
    /// How many robots may wait; `None` for no limit.
    pub queue_capacity: Option<u32>,
    /// Robots waiting, first come first served.
    pub queue: VecDeque<RobotId>,
    /// Robots being served.
    pub serving: Vec<RobotId>,
    /// Robots whose service has ended.
    pub total_served: u32,
    /// The longest the queue has been.
    pub max_queue_length: usize,
}

impl Station {
    /// A station with an empty queue, nobody served and zero counters.
    pub fn new(
        id: StationId,
        string_id: String,
        node: NodeId,
        station_type: StationType,
        concurrency: u32,
        queue_capacity: Option<u32>,
    ) -> (s: Self)
        ensures
            s.id == id,
            s.string_id@ == string_id@,
            s.node == node,
            s.station_type == station_type,
            s.concurrency == concurrency,
            s.queue_capacity == queue_capacity,
            s.queue@ == Seq::<RobotId>::empty(),
            s.serving@ == Seq::<RobotId>::empty(),
            s.total_served == 0,
            s.max_queue_length == 0,
    {
        Station {
            id,
            string_id,
            node,
            station_type,
            concurrency,
            queue_capacity,
            queue: VecDeque::new(),
            serving: Vec::new(),
            total_served: 0,
            max_queue_length: 0,
        }
    }

    /// Whether the queue has room for another robot.
    pub fn can_accept(&self) -> (r: bool)
        ensures
            r == match self.queue_capacity {
                Some(cap) => self.queue@.len() < cap,
                None => true,
            },
    {
        match self.queue_capacity {
            Some(cap) => (self.queue.len() as u64) < (cap as u64),
            None => true,
        }
    }

    /// Whether another robot may be served now.
    pub fn can_serve(&self) -> (r: bool)
        ensures
            r == (self.serving@.len() < self.concurrency),
    {
        (self.serving.len() as u64) < (self.concurrency as u64)
    }

    /// Puts `robot` at the back of the queue.
    pub fn enqueue(&mut self, robot: RobotId)
        ensures
            final(self).queue@ == old(self).queue@.push(robot),
            final(self).max_queue_length == if old(self).max_queue_length >= old(self).queue@.len()
                + 1 {
                old(self).max_queue_length as int
            } else {
                (old(self).queue@.len() + 1) as int
            },
            final(self).serving@ == old(self).serving@,
            final(self).total_served == old(self).total_served,
            final(self).concurrency == old(self).concurrency,
            final(self).queue_capacity == old(self).queue_capacity,
            final(self).id == old(self).id,
            final(self).node == old(self).node,
            final(self).station_type == old(self).station_type,
            final(self).string_id@ == old(self).string_id@,
    {
        self.queue.push_back(robot);
        let len = self.queue.len();
        if len > self.max_queue_length {
            self.max_queue_length = len;
        }
    }

    /// Starts serving the robot at the front of the queue, if the station has
    /// a free place and the queue is not empty.
    pub fn start_service(&mut self) -> (r: Option<RobotId>)
        ensures
            old(self).serving@.len() < old(self).concurrency && old(self).queue@.len() > 0 ==> {
                &&& r == Some(old(self).queue@[0])
                &&& final(self).queue@ == old(self).queue@.drop_first()
                &&& final(self).serving@ == old(self).serving@.push(old(self).queue@[0])
            },
            !(old(self).serving@.len() < old(self).concurrency && old(self).queue@.len() > 0) ==> {
                &&& r is None
                &&& final(self).queue@ == old(self).queue@
                &&& final(self).serving@ == old(self).serving@
            },
            final(self).total_served == old(self).total_served,
            final(self).max_queue_length == old(self).max_queue_length,
            final(self).concurrency == old(self).concurrency,
            final(self).queue_capacity == old(self).queue_capacity,
            final(self).id == old(self).id,
            final(self).node == old(self).node,
            final(self).station_type == old(self).station_type,
            final(self).string_id@ == old(self).string_id@,
    {
        if self.can_serve() {
            if let Some(robot) = self.queue.pop_front() {
                self.serving.push(robot);
                return Some(robot);
            }
        }
        None
    }

    /// Ends the service of `robot`. Returns whether it was being served; if
    /// it was, it leaves the served robots and the served count grows by one.
    pub fn end_service(&mut self, robot: RobotId) -> (r: bool)
        requires
            old(self).total_served < u32::MAX,
        ensures
            r == old(self).serving@.contains(robot),
            r ==> exists|i: int|
                0 <= i < old(self).serving@.len() && old(self).serving@[i] == robot
                    && final(self).serving@ == old(self).serving@.remove(i) && forall|j: int|
                    0 <= j < i ==> old(self).serving@[j] != robot,
            r ==> final(self).total_served == old(self).total_served + 1,
            !r ==> final(self).serving@ == old(self).serving@ && final(self).total_served == old(
                self,
            ).total_served,
            final(self).queue@ == old(self).queue@,
            final(self).max_queue_length == old(self).max_queue_length,
            final(self).concurrency == old(self).concurrency,
            final(self).queue_capacity == old(self).queue_capacity,
            final(self).id == old(self).id,
            final(self).node == old(self).node,
            final(self).station_type == old(self).station_type,
            final(self).string_id@ == old(self).string_id@,
    {
        match position_in(&self.serving, robot) {
            Some(i) => {
                self.serving.remove(i);
                self.total_served = self.total_served + 1;
                true
            },
            None => false,
        }
    }

    /// The number of robots waiting.
    pub fn queue_length(&self) -> (r: usize)
        ensures
            r == self.queue@.len(),
    {
        self.queue.len()
    }

    /// The number of robots being served.
    pub fn serving_count(&self) -> (r: usize)
        ensures
            r == self.serving@.len(),
    {
        self.serving.len()
    }

    /// Whether `robot` is waiting in the queue.
    pub fn is_robot_in_queue(&self, robot: RobotId) -> (r: bool)
        ensures
            r == self.queue@.contains(robot),
    {
        let mut i: usize = 0;
        while i < self.queue.len()
            invariant
                i <= self.queue@.len(),
                forall|j: int| 0 <= j < i ==> self.queue@[j] != robot,
            decreases self.queue@.len() - i,
        {
            if self.queue[i] == robot {
                assert(self.queue@[i as int] == robot);
                return true;
            }
            i = i + 1;
        }
        false
    }

    /// Whether `robot` is being served.
    pub fn is_robot_being_served(&self, robot: RobotId) -> (r: bool)
        ensures
            r == self.serving@.contains(robot),
    {
        position_in(&self.serving, robot).is_some()
    }
}

/// Robots are served in arrival order: starting service takes the robot that
/// has waited longest, and the robots behind it keep their order.
pub proof fn law_station_serves_first_come(queue: Seq<RobotId>, robot: RobotId)
    requires
        queue.len() > 0,
    ensures
        queue.push(robot)[0] == queue[0],
        queue.push(robot).drop_first() == queue.drop_first().push(robot),
{
    assert(queue.push(robot).drop_first() =~= queue.drop_first().push(robot));
}

/// Starting and ending service moves robots between the queue and the served
/// robots without losing or adding any.
pub proof fn law_station_conserves_robots(queue: Seq<RobotId>, serving: Seq<RobotId>)
    requires
        queue.len() > 0,
    ensures
        queue.drop_first().len() + serving.push(queue[0]).len() == queue.len() + serving.len(),
        serving.push(queue[0]).contains(queue[0]),
{
    assert(serving.push(queue[0])[serving.len() as int] == queue[0]);
}

// ---------------------------------------------------------------------------
// Orders
// ---------------------------------------------------------------------------

/// The sum of the quantities of `lines`.
pub open spec fn items_of(lines: Seq<OrderLine>) -> int
    decreases lines.len(),
{
    if lines.len() == 0 {
        0
    } else {
        items_of(lines.drop_last()) + lines.last().quantity
    }
}

/// The progress of an order: its lines, its status and how many of its
/// tasks are done. (Arrival, due and completion times stay with the
/// caller.)
#[derive(Clone, Debug)]
pub struct Order {
    pub id: OrderId,
    pub lines: Vec<OrderLine>,
    pub status: OrderStatus,
    /// One task per line.
    pub tasks_total: u32,
    pub tasks_completed: u32,
}

impl Order {
    /// A pending order with one task per line, none of them done. The task
    /// count is the number of lines as a `u32` (truncated beyond its range).
    pub fn new(id: OrderId, lines: Vec<OrderLine>) -> (r: Self)
        ensures
            r.id == id,
            r.lines@ == lines@,
            r.status == OrderStatus::Pending,
            r.tasks_total == lines@.len() as u32,
            r.tasks_completed == 0,
    {
        let tasks_total = lines.len() as u32;
        Order { id, lines, status: OrderStatus::Pending, tasks_total, tasks_completed: 0 }
    }

    /// The number of units asked for over all lines.
    pub fn total_items(&self) -> (r: u32)
        requires
            items_of(self.lines@) <= u32::MAX,
        ensures
            r == items_of(self.lines@),
    {
        let mut total: u32 = 0;
        let mut i: usize = 0;
        while i < self.lines.len()
            invariant
                i <= self.lines@.len(),
                items_of(self.lines@) <= u32::MAX,
                total == items_of(self.lines@.subrange(0, i as int)),
            decreases self.lines@.len() - i,
        {
            proof {
                lemma_items_prefix(self.lines@, i as int + 1);
                assert(self.lines@.subrange(0, i + 1).drop_last() =~= self.lines@.subrange(
                    0,
                    i as int,
                ));
            }
            total = total + self.lines[i].quantity;
            i = i + 1;
        }
        assert(self.lines@.subrange(0, self.lines@.len() as int) =~= self.lines@);
        total
    }

    /// The number of lines.
    pub fn total_lines(&self) -> (r: usize)
        ensures
            r == self.lines@.len(),
    {
        self.lines.len()
    }

    /// Whether the order is completed.
    pub fn is_complete(&self) -> (r: bool)
        ensures
            r == (self.status == OrderStatus::Completed),
    {
        self.status == OrderStatus::Completed
    }

    /// Counts one more finished task.
    pub fn mark_task_complete(&mut self)
        requires
            old(self).tasks_completed < u32::MAX,
        ensures
            final(self).tasks_completed == old(self).tasks_completed + 1,
            final(self).tasks_total == old(self).tasks_total,
            final(self).status == old(self).status,
            final(self).id == old(self).id,
            final(self).lines@ == old(self).lines@,
    {
        self.tasks_completed = self.tasks_completed + 1;
    }

    /// Whether as many tasks are done as the order has.
    pub fn all_tasks_complete(&self) -> (r: bool)
        ensures
            r == (self.tasks_completed >= self.tasks_total),
    {
        self.tasks_completed >= self.tasks_total
    }

    /// Marks the order completed.
    pub fn complete(&mut self)
        ensures
            final(self).status == OrderStatus::Completed,
            final(self).tasks_completed == old(self).tasks_completed,
            final(self).tasks_total == old(self).tasks_total,
            final(self).id == old(self).id,
            final(self).lines@ == old(self).lines@,
    {
        self.status = OrderStatus::Completed;
    }

    /// Moves a pending order to in progress; other statuses stay.
    pub fn start(&mut self)
        ensures
            final(self).status == (if old(self).status == OrderStatus::Pending {
                OrderStatus::InProgress
            } else {
                old(self).status
            }),
            final(self).tasks_completed == old(self).tasks_completed,
            final(self).tasks_total == old(self).tasks_total,
            final(self).id == old(self).id,
            final(self).lines@ == old(self).lines@,
    {
        if self.status == OrderStatus::Pending {
            self.status = OrderStatus::InProgress;
        }
    }
}

proof fn lemma_items_prefix(lines: Seq<OrderLine>, n: int)
    requires
        0 <= n <= lines.len(),
    ensures
        items_of(lines.subrange(0, n)) <= items_of(lines),
    decreases lines.len(),
{
    if n < lines.len() {
        assert(lines.drop_last().subrange(0, n) =~= lines.subrange(0, n));
        lemma_items_prefix(lines.drop_last(), n);
    } else {
        assert(lines.subrange(0, n) =~= lines);
    }
}

// ---------------------------------------------------------------------------
// Removing robots from lists
// ---------------------------------------------------------------------------

/// The robots of `s` other than `robot`, in order.
pub open spec fn without(s: Seq<RobotId>, robot: RobotId) -> Seq<RobotId> {
    s.filter(|x: RobotId| x != robot)
}

fn deque_without(v: &VecDeque<RobotId>, robot: RobotId) -> (r: VecDeque<RobotId>)
    ensures
        r@ == without(v@, robot),
{
    let mut out: VecDeque<RobotId> = VecDeque::new();
    let mut i: usize = 0;
    while i < v.len()
        invariant
            i <= v@.len(),
            out@ == without(v@.subrange(0, i as int), robot),
        decreases v@.len() - i,
    {
        let ghost prefix = v@.subrange(0, i + 1);
        assert(prefix.drop_last() =~= v@.subrange(0, i as int));
        assert(prefix.last() == v@[i as int]);
        proof {
            reveal(Seq::filter);
        }
        let x = v[i];
        if x != robot {
            out.push_back(x);
        }
        assert(out@ =~= without(prefix, robot));
        i = i + 1;
    }
    assert(v@.subrange(0, v@.len() as int) =~= v@);
    out
}

fn vec_without(v: &Vec<RobotId>, robot: RobotId) -> (r: Vec<RobotId>)
    ensures
        r@ == without(v@, robot),
{
    let mut out: Vec<RobotId> = Vec::new();
    let mut i: usize = 0;
    while i < v.len()
        invariant
            i <= v@.len(),
            out@ == without(v@.subrange(0, i as int), robot),
        decreases v@.len() - i,
    {
        let ghost prefix = v@.subrange(0, i + 1);
        assert(prefix.drop_last() =~= v@.subrange(0, i as int));
        assert(prefix.last() == v@[i as int]);
        proof {
            reveal(Seq::filter);
        }
        let x = v[i];
        if x != robot {
            out.push(x);
        }
        assert(out@ =~= without(prefix, robot));
        i = i + 1;
    }
    assert(v@.subrange(0, v@.len() as int) =~= v@);
    out
}

/// The entries of `s` whose robot is not `robot`, in order.
pub open spec fn entries_without<T>(s: Seq<(RobotId, T)>, robot: RobotId) -> Seq<(RobotId, T)> {
    s.filter(|x: (RobotId, T)| x.0 != robot)
}

fn entries_without_robot<T: Copy>(v: &Vec<(RobotId, T)>, robot: RobotId) -> (r: Vec<(RobotId, T)>)
    ensures
        r@ == entries_without(v@, robot),
{
    let mut out: Vec<(RobotId, T)> = Vec::new();
    let mut i: usize = 0;
    while i < v.len()
        invariant
            i <= v@.len(),
            out@ == entries_without(v@.subrange(0, i as int), robot),
        decreases v@.len() - i,
    {
        let ghost prefix = v@.subrange(0, i + 1);
        assert(prefix.drop_last() =~= v@.subrange(0, i as int));
        assert(prefix.last() == v@[i as int]);
        proof {
            reveal(Seq::filter);
        }
        let x = v[i];
        if x.0 != robot {
            out.push(x);
        }
        assert(out@ =~= entries_without(prefix, robot));
        i = i + 1;
    }
    assert(v@.subrange(0, v@.len() as int) =~= v@);
    out
}

fn robot_in_deque(v: &VecDeque<RobotId>, robot: RobotId) -> (r: bool)
    ensures
        r == v@.contains(robot),
{
    let mut i: usize = 0;
    while i < v.len()
        invariant
            i <= v@.len(),
            forall|j: int| 0 <= j < i ==> v@[j] != robot,
        decreases v@.len() - i,
    {
        if v[i] == robot {
            assert(v@[i as int] == robot);
            return true;
        }
        i = i + 1;
    }
    false
}

fn robot_in_entries<T>(v: &Vec<(RobotId, T)>, robot: RobotId) -> (r: bool)
    ensures
        r == exists|j: int| 0 <= j < v@.len() && (#[trigger] v@[j]).0 == robot,
{
    let mut i: usize = 0;
    while i < v.len()
        invariant
            i <= v@.len(),
            forall|j: int| 0 <= j < i ==> (#[trigger] v@[j]).0 != robot,
        decreases v@.len() - i,
    {
        if v[i].0 == robot {
            assert(v@[i as int].0 == robot);
            return true;
        }
        i = i + 1;
    }
    false
}

/// Some entry of `s` belongs to `robot`.
pub open spec fn has_entry<T>(s: Seq<(RobotId, T)>, robot: RobotId) -> bool {
    exists|j: int| 0 <= j < s.len() && (#[trigger] s[j]).0 == robot
}

/// A queue with this many robots is below an optional limit, the length
/// read as a `u32`.
pub open spec fn below_limit(len: nat, limit: Option<u32>) -> bool {
    match limit {
        Some(cap) => (len as u32) < cap,
        None => true,
    }
}

// ---------------------------------------------------------------------------
// Charging stations
// ---------------------------------------------------------------------------

/// The queueing state of a charging station: robots waiting in arrival
/// order and robots on its bays. (Charge rates, start times and energy
/// totals stay with the caller.)
#[derive(Clone, Debug)]
pub struct ChargingStation {
    pub id: ChargingStationId,
    pub string_id: String,
    pub node: NodeId,
    /// How many robots may charge at once.
    pub bays: u32,
    /// How many robots may wait; `None` for no limit.
    pub queue_capacity: Option<u32>,
    /// Robots waiting, first come first served.
    pub queue: VecDeque<RobotId>,
    /// Robots charging.
    pub charging: Vec<RobotId>,
    /// Charging sessions that have ended.
    pub total_robots_charged: u32,
    /// The longest the queue has been.
    pub max_queue_length: usize,
}

impl ChargingStation {
    /// A charging station with no robot waiting or charging.
    pub fn new(id: ChargingStationId, string_id: String, node: NodeId, bays: u32) -> (r: Self)
        ensures
            r.id == id,
            r.string_id@ == string_id@,
            r.node == node,
            r.bays == bays,
            r.queue_capacity is None,
            r.queue@.len() == 0,
            r.charging@.len() == 0,
            r.total_robots_charged == 0,
            r.max_queue_length == 0,
    {
        ChargingStation {
            id,
            string_id,
            node,
            bays,
            queue_capacity: None,
            queue: VecDeque::new(),
            charging: Vec::new(),
            total_robots_charged: 0,
            max_queue_length: 0,
        }
    }

    /// The same station with a limit on its queue.
    pub fn with_queue_capacity(self, capacity: u32) -> (r: Self)
        ensures
            r.queue_capacity == Some(capacity),
            r.id == self.id,
            r.string_id@ == self.string_id@,
            r.node == self.node,
            r.bays == self.bays,
            r.queue@ == self.queue@,
            r.charging@ == self.charging@,
            r.total_robots_charged == self.total_robots_charged,
            r.max_queue_length == self.max_queue_length,
    {
        ChargingStation { queue_capacity: Some(capacity), ..self }
    }

    /// Whether the queue has room for another robot.
    pub fn can_accept(&self) -> (r: bool)
        ensures
            r == below_limit(self.queue@.len(), self.queue_capacity),
    {
        match self.queue_capacity {
            Some(limit) => (self.queue.len() as u32) < limit,
            None => true,
        }
    }

    /// Whether a bay is free (the number charging, read as a `u32`, is below
    /// the number of bays).
    pub fn has_free_bay(&self) -> (r: bool)
        ensures
            r == ((self.charging@.len() as u32) < self.bays),
    {
        (self.charging.len() as u32) < self.bays
    }

    /// Puts `robot` at the back of the queue.
    pub fn enqueue(&mut self, robot: RobotId)
        ensures
            final(self).queue@ == old(self).queue@.push(robot),
            final(self).max_queue_length == (if old(self).max_queue_length >= old(
                self,
            ).queue@.len() + 1 {
                old(self).max_queue_length as int
            } else {
                (old(self).queue@.len() + 1) as int
            }),
            final(self).charging@ == old(self).charging@,
            final(self).total_robots_charged == old(self).total_robots_charged,
            final(self).bays == old(self).bays,
            final(self).queue_capacity == old(self).queue_capacity,
            final(self).id == old(self).id,
            final(self).node == old(self).node,
            final(self).string_id@ == old(self).string_id@,
    {
        self.queue.push_back(robot);
        let len = self.queue.len();
        if len > self.max_queue_length {
            self.max_queue_length = len;
        }
    }

    /// Starts charging `robot` if a bay is free: it leaves the queue
    /// (wherever it stood) and takes a bay. Returns whether it did.
    pub fn start_charging(&mut self, robot: RobotId) -> (r: bool)
        ensures
            r == ((old(self).charging@.len() as u32) < old(self).bays),
            r ==> final(self).queue@ == without(old(self).queue@, robot),
            r ==> final(self).charging@ == old(self).charging@.push(robot),
            !r ==> final(self).queue@ == old(self).queue@ && final(self).charging@ == old(
                self,
            ).charging@,
            final(self).total_robots_charged == old(self).total_robots_charged,
            final(self).max_queue_length == old(self).max_queue_length,
            final(self).bays == old(self).bays,
            final(self).queue_capacity == old(self).queue_capacity,
            final(self).id == old(self).id,
            final(self).node == old(self).node,
            final(self).string_id@ == old(self).string_id@,
    {
        if self.has_free_bay() {
            self.queue = deque_without(&self.queue, robot);
            self.charging.push(robot);
            true
        } else {
            false
        }
    }

    /// Ends the charging of `robot`: it leaves the bays, and the count of
    /// charging sessions grows by one.
    pub fn end_charging(&mut self, robot: RobotId)
        requires
            old(self).total_robots_charged < u32::MAX,
        ensures
            final(self).charging@ == without(old(self).charging@, robot),
            final(self).total_robots_charged == old(self).total_robots_charged + 1,
            final(self).queue@ == old(self).queue@,
            final(self).max_queue_length == old(self).max_queue_length,
            final(self).bays == old(self).bays,
            final(self).queue_capacity == old(self).queue_capacity,
            final(self).id == old(self).id,
            final(self).node == old(self).node,
            final(self).string_id@ == old(self).string_id@,
    {
        self.charging = vec_without(&self.charging, robot);
        self.total_robots_charged = self.total_robots_charged + 1;
    }

    /// Takes the robot at the front of the queue if a bay is free.
    pub fn next_in_queue(&mut self) -> (r: Option<RobotId>)
        ensures
            (old(self).charging@.len() as u32) < old(self).bays && old(self).queue@.len() > 0 ==> {
                &&& r == Some(old(self).queue@[0])
                &&& final(self).queue@ == old(self).queue@.drop_first()
            },
            !((old(self).charging@.len() as u32) < old(self).bays && old(self).queue@.len() > 0)
                ==> r is None && final(self).queue@ == old(self).queue@,
            final(self).charging@ == old(self).charging@,
            final(self).total_robots_charged == old(self).total_robots_charged,
            final(self).max_queue_length == old(self).max_queue_length,
            final(self).bays == old(self).bays,
            final(self).queue_capacity == old(self).queue_capacity,
            final(self).id == old(self).id,
            final(self).node == old(self).node,
            final(self).string_id@ == old(self).string_id@,
    {
        if self.has_free_bay() {
            self.queue.pop_front()
        } else {
            None
        }
    }

    /// The number of robots waiting.
    pub fn queue_length(&self) -> (r: usize)
        ensures
            r == self.queue@.len(),
    {
        self.queue.len()
    }

    /// The number of robots charging.
    pub fn charging_count(&self) -> (r: usize)
        ensures
            r == self.charging@.len(),
    {
        self.charging.len()
    }

    /// Whether `robot` is waiting.
    pub fn is_robot_in_queue(&self, robot: RobotId) -> (r: bool)
        ensures
            r == self.queue@.contains(robot),
    {
        robot_in_deque(&self.queue, robot)
    }

    /// Whether `robot` is charging.
    pub fn is_robot_charging(&self, robot: RobotId) -> (r: bool)
        ensures
            r == self.charging@.contains(robot),
    {
        position_in(&self.charging, robot).is_some()
    }
}

// ---------------------------------------------------------------------------
// Maintenance stations
// ---------------------------------------------------------------------------

/// The queueing state of a maintenance station: robots waiting in arrival
/// order and robots on its bays, each marked as repair or scheduled
/// maintenance. (Durations, start times and time totals stay with the
/// caller.)
#[derive(Clone, Debug)]
pub struct MaintenanceStation {
    pub id: MaintenanceStationId,
    pub string_id: String,
    pub node: NodeId,
    /// How many robots may be serviced at once.
    pub bays: u32,
    /// How many robots may wait; `None` for no limit.
    pub queue_capacity: Option<u32>,
    /// Robots waiting, first come first served.
    pub queue: VecDeque<RobotId>,
    /// Robots being serviced, with whether it is a repair.
    pub servicing: Vec<(RobotId, bool)>,
    /// Scheduled maintenance sessions that have ended.
    pub total_maintenance_events: u32,
    /// Repairs that have ended.
    pub total_repair_events: u32,
    /// The longest the queue has been.
    pub max_queue_length: usize,
}

impl MaintenanceStation {
    /// A maintenance station with no robot waiting or serviced.
    pub fn new(id: MaintenanceStationId, string_id: String, node: NodeId, bays: u32) -> (r: Self)
        ensures
            r.id == id,
            r.string_id@ == string_id@,
            r.node == node,
            r.bays == bays,
            r.queue_capacity is None,
            r.queue@.len() == 0,
            r.servicing@.len() == 0,
            r.total_maintenance_events == 0,
            r.total_repair_events == 0,
            r.max_queue_length == 0,
    {
        MaintenanceStation {
            id,
            string_id,
            node,
            bays,
            queue_capacity: None,
            queue: VecDeque::new(),
            servicing: Vec::new(),
            total_maintenance_events: 0,
            total_repair_events: 0,
            max_queue_length: 0,
        }
    }

    /// The same station with a limit on its queue.
    pub fn with_queue_capacity(self, capacity: u32) -> (r: Self)
        ensures
            r.queue_capacity == Some(capacity),
            r.id == self.id,
            r.string_id@ == self.string_id@,
            r.node == self.node,
            r.bays == self.bays,
            r.queue@ == self.queue@,
            r.servicing@ == self.servicing@,
            r.total_maintenance_events == self.total_maintenance_events,
            r.total_repair_events == self.total_repair_events,
            r.max_queue_length == self.max_queue_length,
    {
        MaintenanceStation { queue_capacity: Some(capacity), ..self }
    }

    /// Whether the queue has room for another robot.
    pub fn can_accept(&self) -> (r: bool)
        ensures
            r == below_limit(self.queue@.len(), self.queue_capacity),
    {
        match self.queue_capacity {
            Some(limit) => (self.queue.len() as u32) < limit,
            None => true,
        }
    }

    /// Whether a bay is free.
    pub fn has_free_bay(&self) -> (r: bool)
        ensures
            r == ((self.servicing@.len() as u32) < self.bays),
    {
        (self.servicing.len() as u32) < self.bays
    }

    /// Puts `robot` at the back of the queue.
    pub fn enqueue(&mut self, robot: RobotId)
        ensures
            final(self).queue@ == old(self).queue@.push(robot),
            final(self).max_queue_length == (if old(self).max_queue_length >= old(
                self,
            ).queue@.len() + 1 {
                old(self).max_queue_length as int
            } else {
                (old(self).queue@.len() + 1) as int
            }),
            final(self).servicing@ == old(self).servicing@,
            final(self).total_maintenance_events == old(self).total_maintenance_events,
            final(self).total_repair_events == old(self).total_repair_events,
            final(self).bays == old(self).bays,
            final(self).queue_capacity == old(self).queue_capacity,
            final(self).id == old(self).id,
            final(self).node == old(self).node,
            final(self).string_id@ == old(self).string_id@,
    {
        self.queue.push_back(robot);
        let len = self.queue.len();
        if len > self.max_queue_length {
            self.max_queue_length = len;
        }
    }

    /// Starts servicing `robot` (a repair when `is_repair`) if a bay is
    /// free: it leaves the queue and takes a bay. Returns whether it did;
    /// how long the service lasts is the caller's to draw.
    pub fn start_service(&mut self, robot: RobotId, is_repair: bool) -> (r: bool)
        ensures
            r == ((old(self).servicing@.len() as u32) < old(self).bays),
            r ==> final(self).queue@ == without(old(self).queue@, robot),
            r ==> final(self).servicing@ == old(self).servicing@.push((robot, is_repair)),
            !r ==> final(self).queue@ == old(self).queue@ && final(self).servicing@ == old(
                self,
            ).servicing@,
            final(self).total_maintenance_events == old(self).total_maintenance_events,
            final(self).total_repair_events == old(self).total_repair_events,
            final(self).max_queue_length == old(self).max_queue_length,
            final(self).bays == old(self).bays,
            final(self).queue_capacity == old(self).queue_capacity,
            final(self).id == old(self).id,
            final(self).node == old(self).node,
            final(self).string_id@ == old(self).string_id@,
    {
        if self.has_free_bay() {
            self.queue = deque_without(&self.queue, robot);
            self.servicing.push((robot, is_repair));
            true
        } else {
            false
        }
    }

    /// Ends the service of `robot`: it leaves the bays, and the count of
    /// repairs (when `is_repair`) or of scheduled maintenance grows by one.
    pub fn end_service(&mut self, robot: RobotId, is_repair: bool)
        requires
            is_repair ==> old(self).total_repair_events < u32::MAX,
            !is_repair ==> old(self).total_maintenance_events < u32::MAX,
        ensures
            final(self).servicing@ == entries_without(old(self).servicing@, robot),
            final(self).total_repair_events == old(self).total_repair_events + (if is_repair {
                1int
            } else {
                0int
            }),
            final(self).total_maintenance_events == old(self).total_maintenance_events + (
            if is_repair {
                0int
            } else {
                1int
            }),
            final(self).queue@ == old(self).queue@,
            final(self).max_queue_length == old(self).max_queue_length,
            final(self).bays == old(self).bays,
            final(self).queue_capacity == old(self).queue_capacity,
            final(self).id == old(self).id,
            final(self).node == old(self).node,
            final(self).string_id@ == old(self).string_id@,
    {
        self.servicing = entries_without_robot(&self.servicing, robot);
        if is_repair {
            self.total_repair_events = self.total_repair_events + 1;
        } else {
            self.total_maintenance_events = self.total_maintenance_events + 1;
        }
    }

    /// Takes the robot at the front of the queue if a bay is free.
    pub fn next_in_queue(&mut self) -> (r: Option<RobotId>)
        ensures
            (old(self).servicing@.len() as u32) < old(self).bays && old(self).queue@.len() > 0 ==> {
                &&& r == Some(old(self).queue@[0])
                &&& final(self).queue@ == old(self).queue@.drop_first()
            },
            !((old(self).servicing@.len() as u32) < old(self).bays && old(self).queue@.len() > 0)
                ==> r is None && final(self).queue@ == old(self).queue@,
            final(self).servicing@ == old(self).servicing@,
            final(self).total_maintenance_events == old(self).total_maintenance_events,
            final(self).total_repair_events == old(self).total_repair_events,
            final(self).max_queue_length == old(self).max_queue_length,
            final(self).bays == old(self).bays,
            final(self).queue_capacity == old(self).queue_capacity,
            final(self).id == old(self).id,
            final(self).node == old(self).node,
            final(self).string_id@ == old(self).string_id@,
    {
        if self.has_free_bay() {
            self.queue.pop_front()
        } else {
            None
        }
    }

    /// The number of robots waiting.
    pub fn queue_length(&self) -> (r: usize)
        ensures
            r == self.queue@.len(),
    {
        self.queue.len()
    }

    /// The number of robots being serviced.
    pub fn servicing_count(&self) -> (r: usize)
        ensures
            r == self.servicing@.len(),
    {
        self.servicing.len()
    }

    /// Whether `robot` is waiting.
    pub fn is_robot_in_queue(&self, robot: RobotId) -> (r: bool)
        ensures
            r == self.queue@.contains(robot),
    {
        robot_in_deque(&self.queue, robot)
    }

    /// Whether `robot` is being serviced.
    pub fn is_robot_servicing(&self, robot: RobotId) -> (r: bool)
        ensures
            r == has_entry(self.servicing@, robot),
    {
        robot_in_entries(&self.servicing, robot)
    }
}

// ---------------------------------------------------------------------------
// Robots
// ---------------------------------------------------------------------------

/// The failure and maintenance counts of a robot. (Operating time, the
/// maintenance interval and the times of the last events stay with the
/// caller.)
#[derive(Clone, Copy, Debug, PartialEq, Eq, Structural)]
pub struct MaintenanceState {
    /// Whether maintenance is tracked.
    pub enabled: bool,
    /// Whether the robot is failed.
    pub is_failed: bool,
    pub failure_count: u32,
    pub maintenance_count: u32,
}

impl MaintenanceState {
    /// Tracking switched on, nothing failed or maintained yet.
    pub fn new() -> (r: Self)
        ensures
            r == (MaintenanceState {
                enabled: true,
                is_failed: false,
                failure_count: 0,
                maintenance_count: 0,
            }),
    {
        MaintenanceState { enabled: true, is_failed: false, failure_count: 0, maintenance_count: 0 }
    }

    /// Tracking switched off.
    pub fn disabled() -> (r: Self)
        ensures
            r == (MaintenanceState {
                enabled: false,
                is_failed: false,
                failure_count: 0,
                maintenance_count: 0,
            }),
    {
        MaintenanceState { enabled: false, is_failed: false, failure_count: 0, maintenance_count: 0 }
    }

    /// The robot fails: it is marked failed and one more failure is counted.
    pub fn mark_failed(&mut self)
        requires
            old(self).failure_count < u32::MAX,
        ensures
            *final(self) == (MaintenanceState {
                is_failed: true,
                failure_count: (old(self).failure_count + 1) as u32,
                ..*old(self)
            }),
    {
        self.is_failed = true;
        self.failure_count = self.failure_count + 1;
    }

    /// Maintenance or repair ends: the robot is no longer failed and one
    /// more maintenance is counted.
    pub fn complete_maintenance(&mut self)
        requires
            old(self).maintenance_count < u32::MAX,
        ensures
            *final(self) == (MaintenanceState {
                is_failed: false,
                maintenance_count: (old(self).maintenance_count + 1) as u32,
                ..*old(self)
            }),
    {
        self.is_failed = false;
        self.maintenance_count = self.maintenance_count + 1;
    }
}

impl Default for MaintenanceState {
    fn default() -> (r: Self)
        ensures
            r == (MaintenanceState {
                enabled: false,
                is_failed: false,
                failure_count: 0,
                maintenance_count: 0,
            }),
    {
        MaintenanceState::disabled()
    }
}

/// The discrete state of a robot: where it is, what it does, its tasks and
/// its route. (Speeds, payload, battery and time totals stay with the
/// caller.)
#[derive(Clone, Debug)]
pub struct Robot {
    pub id: RobotId,
    pub current_node: NodeId,
    pub state: RobotState,
    /// Tasks assigned and not yet started, in assignment order.
    pub task_queue: VecDeque<TaskId>,
    pub current_task: Option<TaskId>,
    /// The route being followed, from the node the robot started at.
    pub current_path: Vec<NodeId>,
    /// The position on the route of the node last reached.
    pub path_index: usize,
    pub seeking_charging: bool,
    pub assigned_charging_station: Option<ChargingStationId>,
    pub maintenance: MaintenanceState,
    pub seeking_maintenance: bool,
    pub assigned_maintenance_station: Option<MaintenanceStationId>,
    pub tasks_completed: u32,
    pub tasks_interrupted_by_failure: u32,
}

/// A route of `len` nodes with the robot at position `index` has a next node.
pub open spec fn has_next(len: nat, index: nat) -> bool {
    index + 1 < len
}

/// The position after one step along a route of `len` nodes: one further
/// unless the end is reached.
pub open spec fn step(len: nat, index: nat) -> nat {
    if has_next(len, index) {
        index + 1
    } else {
        index
    }
}

/// The position after `k` steps from `index`.
pub open spec fn steps(len: nat, index: nat, k: nat) -> nat
    decreases k,
{
    if k == 0 {
        index
    } else {
        step(len, steps(len, index, (k - 1) as nat))
    }
}

impl Robot {
    /// An idle robot at `start_node`, with no tasks, no route and zero
    /// counters.
    pub fn new(id: RobotId, start_node: NodeId) -> (r: Self)
        ensures
            r.id == id,
            r.current_node == start_node,
            r.state == RobotState::Idle,
            r.task_queue@.len() == 0,
            r.current_task is None,
            r.current_path@.len() == 0,
            r.path_index == 0,
            !r.seeking_charging,
            r.assigned_charging_station is None,
            !r.maintenance.enabled && !r.maintenance.is_failed,
            r.maintenance.failure_count == 0 && r.maintenance.maintenance_count == 0,
            !r.seeking_maintenance,
            r.assigned_maintenance_station is None,
            r.tasks_completed == 0,
            r.tasks_interrupted_by_failure == 0,
    {
        Robot {
            id,
            current_node: start_node,
            state: RobotState::Idle,
            task_queue: VecDeque::new(),
            current_task: None,
            current_path: Vec::new(),
            path_index: 0,
            seeking_charging: false,
            assigned_charging_station: None,
            maintenance: MaintenanceState::disabled(),
            seeking_maintenance: false,
            assigned_maintenance_station: None,
            tasks_completed: 0,
            tasks_interrupted_by_failure: 0,
        }
    }

    /// Whether the robot is idle.
    pub fn is_idle(&self) -> (r: bool)
        ensures
            r == (self.state == RobotState::Idle),
    {
        match self.state {
            RobotState::Idle => true,
            _ => false,
        }
    }

    /// Whether the robot can take a task: it is idle, has no current task,
    /// is not failed and does not need maintenance. Maintenance is needed
    /// when it is tracked and the operating time since the last one has
    /// reached the interval (`interval_reached`, a comparison of real-valued
    /// times that the caller makes).
    pub fn is_available(&self, interval_reached: bool) -> (r: bool)
        ensures
            r == (self.state == RobotState::Idle && self.current_task is None
                && !self.maintenance.is_failed && !(self.maintenance.enabled && interval_reached)),
    {
        self.is_idle() && self.current_task.is_none() && !self.maintenance.is_failed && !(
        self.maintenance.enabled && interval_reached)
    }

    /// Adds `task_id` to the back of the robot's task queue.
    pub fn assign_task(&mut self, task_id: TaskId)
        ensures
            final(self).task_queue@ == old(self).task_queue@.push(task_id),
            *final(self) == (Robot { task_queue: final(self).task_queue, ..*old(self) }),
    {
        self.task_queue.push_back(task_id);
    }

    /// Makes `task_id` the robot's current task.
    pub fn start_task(&mut self, task_id: TaskId)
        ensures
            *final(self) == (Robot { current_task: Some(task_id), ..*old(self) }),
    {
        self.current_task = Some(task_id);
    }

    /// Finishes the current task: none is current, and one more is counted.
    pub fn complete_task(&mut self)
        requires
            old(self).tasks_completed < u32::MAX,
        ensures
            *final(self) == (Robot {
                current_task: None,
                tasks_completed: (old(self).tasks_completed + 1) as u32,
                ..*old(self)
            }),
    {
        self.current_task = None;
        self.tasks_completed = self.tasks_completed + 1;
    }

    /// Follows a new route from its first node.
    pub fn set_path(&mut self, path: Vec<NodeId>)
        ensures
            *final(self) == (Robot { current_path: path, path_index: 0, ..*old(self) }),
    {
        self.current_path = path;
        self.path_index = 0;
    }

    /// The next node on the route, if the end is not reached.
    pub fn next_node_in_path(&self) -> (r: Option<NodeId>)
        requires
            self.path_index < usize::MAX,
        ensures
            has_next(self.current_path@.len(), self.path_index as nat) ==> r == Some(
                self.current_path@[self.path_index + 1],
            ),
            !has_next(self.current_path@.len(), self.path_index as nat) ==> r is None,
    {
        if self.path_index + 1 < self.current_path.len() {
            Some(self.current_path[self.path_index + 1])
        } else {
            None
        }
    }

    /// Moves one node along the route, unless the end is reached.
    pub fn advance_path(&mut self)
        requires
            old(self).path_index < usize::MAX,
        ensures
            final(self).path_index == step(old(self).current_path@.len(), old(self).path_index as nat),
            *final(self) == (Robot { path_index: final(self).path_index, ..*old(self) }),
    {
        if self.path_index + 1 < self.current_path.len() {
            self.path_index = self.path_index + 1;
        }
    }

    /// Whether the end of the route is reached (or there is no route).
    pub fn has_reached_destination(&self) -> (r: bool)
        requires
            self.path_index < usize::MAX,
        ensures
            r == !has_next(self.current_path@.len(), self.path_index as nat),
    {
        self.path_index + 1 >= self.current_path.len()
    }

    /// Whether the robot is failed.
    pub fn is_failed(&self) -> (r: bool)
        ensures
            r == self.maintenance.is_failed,
    {
        self.maintenance.is_failed
    }

    /// Whether maintenance is tracked for the robot.
    pub fn has_maintenance(&self) -> (r: bool)
        ensures
            r == self.maintenance.enabled,
    {
        self.maintenance.enabled
    }

    /// The robot fails; a task in progress counts as interrupted.
    pub fn mark_failed(&mut self)
        requires
            old(self).maintenance.failure_count < u32::MAX,
            old(self).current_task is Some ==> old(self).tasks_interrupted_by_failure < u32::MAX,
        ensures
            final(self).maintenance == (MaintenanceState {
                is_failed: true,
                failure_count: (old(self).maintenance.failure_count + 1) as u32,
                ..old(self).maintenance
            }),
            final(self).tasks_interrupted_by_failure == old(self).tasks_interrupted_by_failure + (
            if old(self).current_task is Some {
                1int
            } else {
                0int
            }),
            *final(self) == (Robot {
                maintenance: final(self).maintenance,
                tasks_interrupted_by_failure: final(self).tasks_interrupted_by_failure,
                ..*old(self)
            }),
    {
        self.maintenance.mark_failed();
        if self.current_task.is_some() {
            self.tasks_interrupted_by_failure = self.tasks_interrupted_by_failure + 1;
        }
    }

    /// Maintenance or repair ends: the robot is no longer failed, seeks no
    /// maintenance and has no maintenance station assigned.
    pub fn complete_maintenance(&mut self)
        requires
            old(self).maintenance.maintenance_count < u32::MAX,
        ensures
            *final(self) == (Robot {
                maintenance: MaintenanceState {
                    is_failed: false,
                    maintenance_count: (old(self).maintenance.maintenance_count + 1) as u32,
                    ..old(self).maintenance
                },
                seeking_maintenance: false,
                assigned_maintenance_station: None,
                ..*old(self)
            }),
    {
        self.maintenance.complete_maintenance();
        self.seeking_maintenance = false;
        self.assigned_maintenance_station = None;
    }
}

/// Advancing along a route never passes its last node: from the start of a
/// route of `len` nodes, `k` steps lead to position `k`, or to the last
/// node once `k` reaches it, where the destination counts as reached.
pub proof fn law_advance_walks_the_path(len: nat, k: nat)
    requires
        len > 0,
    ensures
        steps(len, 0, k) == if k < len {
            k
        } else {
            (len - 1) as nat
        },
        k + 1 >= len ==> !has_next(len, steps(len, 0, k)),
    decreases k,
{
    if k > 0 {
        law_advance_walks_the_path(len, (k - 1) as nat);
    }
}

} // verus!
