//! Typed identifiers for the entities of the simulation, and sequential generators for them.

use vstd::prelude::*;

verus! {

/// Unique identifier for a robot.
#[derive(Clone, Copy, PartialEq, Eq, Structural, Hash, Default, Debug)]
pub struct RobotId(pub u32);

impl RobotId {
    /// Creates an identifier from its raw value.
    pub fn new(id: u32) -> (r: Self)
        ensures
            r.0 == id,
    {
        RobotId(id)
    }

    /// The raw value of the identifier.
    pub fn as_u32(&self) -> (r: u32)
        ensures
            r == self.0,
    {
        self.0
    }
}

/// Unique identifier for a map node.
#[derive(Clone, Copy, PartialEq, Eq, Structural, Hash, Default, Debug)]
pub struct NodeId(pub u32);

impl NodeId {
    /// Creates an identifier from its raw value.
    pub fn new(id: u32) -> (r: Self)
        ensures
            r.0 == id,
    {
        NodeId(id)
    }

    /// The raw value of the identifier.
    pub fn as_u32(&self) -> (r: u32)
        ensures
            r == self.0,
    {
        self.0
    }
}

/// Unique identifier for a map edge.
#[derive(Clone, Copy, PartialEq, Eq, Structural, Hash, Default, Debug)]
pub struct EdgeId(pub u32);

impl EdgeId {
    /// Creates an identifier from its raw value.
    pub fn new(id: u32) -> (r: Self)
        ensures
            r.0 == id,
    {
        EdgeId(id)
    }

    /// The raw value of the identifier.
    pub fn as_u32(&self) -> (r: u32)
        ensures
            r == self.0,
    {
        self.0
    }
}

/// Unique identifier for a station.
#[derive(Clone, Copy, PartialEq, Eq, Structural, Hash, Default, Debug)]
pub struct StationId(pub u32);

impl StationId {
    /// Creates an identifier from its raw value.
    pub fn new(id: u32) -> (r: Self)
        ensures
            r.0 == id,
    {
        StationId(id)
    }

    /// The raw value of the identifier.
    pub fn as_u32(&self) -> (r: u32)
        ensures
            r == self.0,
    {
        self.0
    }
}

/// Unique identifier for a storage rack.
#[derive(Clone, Copy, PartialEq, Eq, Structural, Hash, Default, Debug)]
pub struct RackId(pub u32);

impl RackId {
    /// Creates an identifier from its raw value.
    pub fn new(id: u32) -> (r: Self)
        ensures
            r.0 == id,
    {
        RackId(id)
    }

    /// The raw value of the identifier.
    pub fn as_u32(&self) -> (r: u32)
        ensures
            r == self.0,
    {
        self.0
    }
}

/// Unique identifier for a storage bin.
#[derive(Clone, Copy, PartialEq, Eq, Structural, Hash, Default, Debug)]
pub struct BinId(pub u32);

impl BinId {
    /// Creates an identifier from its raw value.
    pub fn new(id: u32) -> (r: Self)
        ensures
            r.0 == id,
    {
        BinId(id)
    }

    /// The raw value of the identifier.
    pub fn as_u32(&self) -> (r: u32)
        ensures
            r == self.0,
    {
        self.0
    }
}

/// Unique identifier for a SKU.
#[derive(Clone, Copy, PartialEq, Eq, Structural, Hash, Default, Debug)]
pub struct SkuId(pub u32);

impl SkuId {
    /// Creates an identifier from its raw value.
    pub fn new(id: u32) -> (r: Self)
        ensures
            r.0 == id,
    {
        SkuId(id)
    }

    /// The raw value of the identifier.
    pub fn as_u32(&self) -> (r: u32)
        ensures
            r == self.0,
    {
        self.0
    }
}

/// Unique identifier for an order.
#[derive(Clone, Copy, PartialEq, Eq, Structural, Hash, Default, Debug)]
pub struct OrderId(pub u32);

impl OrderId {
    /// Creates an identifier from its raw value.
    pub fn new(id: u32) -> (r: Self)
        ensures
            r.0 == id,
    {
        OrderId(id)
    }

    /// The raw value of the identifier.
    pub fn as_u32(&self) -> (r: u32)
        ensures
            r == self.0,
    {
        self.0
    }
}

/// Unique identifier for a task.
#[derive(Clone, Copy, PartialEq, Eq, Structural, Hash, Default, Debug)]
pub struct TaskId(pub u32);

impl TaskId {
    /// Creates an identifier from its raw value.
    pub fn new(id: u32) -> (r: Self)
        ensures
            r.0 == id,
    {
        TaskId(id)
    }

    /// The raw value of the identifier.
    pub fn as_u32(&self) -> (r: u32)
        ensures
            r == self.0,
    {
        self.0
    }
}

/// Unique identifier for a scheduled event.
#[derive(Clone, Copy, PartialEq, Eq, Structural, Hash, Default, Debug)]
pub struct EventId(pub u32);

impl EventId {
    /// Creates an identifier from its raw value.
    pub fn new(id: u32) -> (r: Self)
        ensures
            r.0 == id,
    {
        EventId(id)
    }

    /// The raw value of the identifier.
    pub fn as_u32(&self) -> (r: u32)
        ensures
            r == self.0,
    {
        self.0
    }
}

/// Unique identifier for an inbound/outbound shipment.
#[derive(Clone, Copy, PartialEq, Eq, Structural, Hash, Default, Debug)]
pub struct ShipmentId(pub u32);

impl ShipmentId {
    /// Creates an identifier from its raw value.
    pub fn new(id: u32) -> (r: Self)
        ensures
            r.0 == id,
    {
        ShipmentId(id)
    }

    /// The raw value of the identifier.
    pub fn as_u32(&self) -> (r: u32)
        ensures
            r == self.0,
    {
        self.0
    }
}

/// Unique identifier for a charging station.
#[derive(Clone, Copy, PartialEq, Eq, Structural, Hash, Default, Debug)]
pub struct ChargingStationId(pub u32);

impl ChargingStationId {
    /// Creates an identifier from its raw value.
    pub fn new(id: u32) -> (r: Self)
        ensures
            r.0 == id,
    {
        ChargingStationId(id)
    }

    /// The raw value of the identifier.
    pub fn as_u32(&self) -> (r: u32)
        ensures
            r == self.0,
    {
        self.0
    }
}

/// Unique identifier for a maintenance station.
#[derive(Clone, Copy, PartialEq, Eq, Structural, Hash, Default, Debug)]
pub struct MaintenanceStationId(pub u32);

impl MaintenanceStationId {
    /// Creates an identifier from its raw value.
    pub fn new(id: u32) -> (r: Self)
        ensures
            r.0 == id,
    {
        MaintenanceStationId(id)
    }

    /// The raw value of the identifier.
    pub fn as_u32(&self) -> (r: u32)
        ensures
            r == self.0,
    {
        self.0
    }
}

/// Generator of sequential identifiers of one kind.
///
/// The generator hands out the raw values `next`, `next + 1`, ... in order.
#[derive(Debug)]
pub struct IdGenerator<T> {
    next: u32,
    _marker: std::marker::PhantomData<T>,
}

impl<T> Clone for IdGenerator<T> {
    fn clone(&self) -> (g: Self)
        ensures
            g.next_value() == self.next_value(),
    {
        IdGenerator { next: self.next, _marker: std::marker::PhantomData }
    }
}

impl<T> Default for IdGenerator<T> {
    fn default() -> (g: Self)
        ensures
            g.next_value() == 0,
    {
        IdGenerator { next: 0, _marker: std::marker::PhantomData }
    }
}

impl<T> IdGenerator<T> {
    /// The raw value that the next generated identifier will carry.
    pub closed spec fn next_value(&self) -> nat {
        self.next as nat
    }

    /// Creates a generator whose first identifier is 0.
    pub fn new() -> (g: Self)
        ensures
            g.next_value() == 0,
    {
        IdGenerator { next: 0, _marker: std::marker::PhantomData }
    }

    /// Creates a generator whose first identifier is `start`.
    pub fn starting_from(start: u32) -> (g: Self)
        ensures
            g.next_value() == start,
    {
        IdGenerator { next: start, _marker: std::marker::PhantomData }
    }

    /// The raw value of the next identifier, without consuming it.
    pub fn peek(&self) -> (r: u32)
        ensures
            r == self.next_value(),
    {
        self.next
    }
}

/// Identifiers count up: take a generator that starts at `start`
/// (`gens[0]`, as `starting_from(start)` makes it) and its states after
/// each call of `next` (`gens[i + 1]` after the call on `gens[i]`, which
/// advances the next value by one, as `next` ensures). After `k` calls,
/// `peek` gives `start + k`, and the next call of `next` hands out the
/// identifier `start + k`; `peek` reads the state without changing it, so
/// a second `peek` gives the same value.
pub proof fn law_ids_count_up<T>(gens: Seq<IdGenerator<T>>, start: u32, k: int)
    requires
        gens.len() > 0,
        gens[0].next_value() == start,
        forall|i: int|
            0 <= i < gens.len() - 1 ==> #[trigger] gens[i + 1].next_value() == gens[i].next_value()
                + 1,
        0 <= k < gens.len(),
    ensures
        gens[k].next_value() == start + k,
    decreases k,
{
    if k > 0 {
        law_ids_count_up(gens, start, k - 1);
        assert(gens[(k - 1) + 1].next_value() == gens[k - 1].next_value() + 1);
    }
}

impl IdGenerator<RobotId> {
    /// Hands out the next identifier and advances the generator by one.
    pub fn next(&mut self) -> (id: RobotId)
        requires
            old(self).next_value() < u32::MAX,
        ensures
            id.0 == old(self).next_value(),
            final(self).next_value() == old(self).next_value() + 1,
    {
        let id = RobotId(self.next);
        self.next = self.next + 1;
        id
    }
}

impl IdGenerator<NodeId> {
    /// Hands out the next identifier and advances the generator by one.
    pub fn next(&mut self) -> (id: NodeId)
        requires
            old(self).next_value() < u32::MAX,
        ensures
            id.0 == old(self).next_value(),
            final(self).next_value() == old(self).next_value() + 1,
    {
        let id = NodeId(self.next);
        self.next = self.next + 1;
        id
    }
}

impl IdGenerator<EdgeId> {
    /// Hands out the next identifier and advances the generator by one.
    pub fn next(&mut self) -> (id: EdgeId)
        requires
            old(self).next_value() < u32::MAX,
        ensures
            id.0 == old(self).next_value(),
            final(self).next_value() == old(self).next_value() + 1,
    {
        let id = EdgeId(self.next);
        self.next = self.next + 1;
        id
    }
}

impl IdGenerator<StationId> {
    /// Hands out the next identifier and advances the generator by one.
    pub fn next(&mut self) -> (id: StationId)
        requires
            old(self).next_value() < u32::MAX,
        ensures
            id.0 == old(self).next_value(),
            final(self).next_value() == old(self).next_value() + 1,
    {
        let id = StationId(self.next);
        self.next = self.next + 1;
        id
    }
}

impl IdGenerator<RackId> {
    /// Hands out the next identifier and advances the generator by one.
    pub fn next(&mut self) -> (id: RackId)
        requires
            old(self).next_value() < u32::MAX,
        ensures
            id.0 == old(self).next_value(),
            final(self).next_value() == old(self).next_value() + 1,
    {
        let id = RackId(self.next);
        self.next = self.next + 1;
        id
    }
}

impl IdGenerator<BinId> {
    /// Hands out the next identifier and advances the generator by one.
    pub fn next(&mut self) -> (id: BinId)
        requires
            old(self).next_value() < u32::MAX,
        ensures
            id.0 == old(self).next_value(),
            final(self).next_value() == old(self).next_value() + 1,
    {
        let id = BinId(self.next);
        self.next = self.next + 1;
        id
    }
}

impl IdGenerator<SkuId> {
    /// Hands out the next identifier and advances the generator by one.
    pub fn next(&mut self) -> (id: SkuId)
        requires
            old(self).next_value() < u32::MAX,
        ensures
            id.0 == old(self).next_value(),
            final(self).next_value() == old(self).next_value() + 1,
    {
        let id = SkuId(self.next);
        self.next = self.next + 1;
        id
    }
}

impl IdGenerator<OrderId> {
    /// Hands out the next identifier and advances the generator by one.
    pub fn next(&mut self) -> (id: OrderId)
        requires
            old(self).next_value() < u32::MAX,
        ensures
            id.0 == old(self).next_value(),
            final(self).next_value() == old(self).next_value() + 1,
    {
        let id = OrderId(self.next);
        self.next = self.next + 1;
        id
    }
}

impl IdGenerator<TaskId> {
    /// Hands out the next identifier and advances the generator by one.
    pub fn next(&mut self) -> (id: TaskId)
        requires
            old(self).next_value() < u32::MAX,
        ensures
            id.0 == old(self).next_value(),
            final(self).next_value() == old(self).next_value() + 1,
    {
        let id = TaskId(self.next);
        self.next = self.next + 1;
        id
    }
}

impl IdGenerator<EventId> {
    /// Hands out the next identifier and advances the generator by one.
    pub fn next(&mut self) -> (id: EventId)
        requires
            old(self).next_value() < u32::MAX,
        ensures
            id.0 == old(self).next_value(),
            final(self).next_value() == old(self).next_value() + 1,
    {
        let id = EventId(self.next);
        self.next = self.next + 1;
        id
    }
}

impl IdGenerator<ShipmentId> {
    /// Hands out the next identifier and advances the generator by one.
    pub fn next(&mut self) -> (id: ShipmentId)
        requires
            old(self).next_value() < u32::MAX,
        ensures
            id.0 == old(self).next_value(),
            final(self).next_value() == old(self).next_value() + 1,
    {
        let id = ShipmentId(self.next);
        self.next = self.next + 1;
        id
    }
}

impl IdGenerator<ChargingStationId> {
    /// Hands out the next identifier and advances the generator by one.
    pub fn next(&mut self) -> (id: ChargingStationId)
        requires
            old(self).next_value() < u32::MAX,
        ensures
            id.0 == old(self).next_value(),
            final(self).next_value() == old(self).next_value() + 1,
    {
        let id = ChargingStationId(self.next);
        self.next = self.next + 1;
        id
    }
}

impl IdGenerator<MaintenanceStationId> {
    /// Hands out the next identifier and advances the generator by one.
    pub fn next(&mut self) -> (id: MaintenanceStationId)
        requires
            old(self).next_value() < u32::MAX,
        ensures
            id.0 == old(self).next_value(),
            final(self).next_value() == old(self).next_value() + 1,
    {
        let id = MaintenanceStationId(self.next);
        self.next = self.next + 1;
        id
    }
}

} // verus!
