//! Deadlock resolution: which robot of a deadlock cycle backs up or gives up
//! its task.

use vstd::prelude::*;

use crate::ids::{NodeId, RobotId};
use crate::text::same_text;

verus! {

broadcast use vstd::seq_lib::group_seq_properties;

/// A decision that breaks a deadlock.
///
/// The waiting time is a real number of seconds, carried as the bit pattern
/// of its IEEE-754 double value (`f64::to_bits`): resolvers only pass it on.
#[derive(Clone, Copy, Debug, PartialEq, Eq, Structural)]
pub enum DeadlockResolution {
    /// The robot backs up to the given node.
    BackUp { robot: RobotId, to_node: NodeId },
    /// The robot's current task is aborted and requeued.
    AbortTask { robot: RobotId },
    /// Nobody moves; the deadlock is checked again after the given time.
    WaitAndRetry { duration_bits: u64 },
}

/// What a resolver knows about a deadlock.
#[derive(Clone, Debug)]
pub struct DeadlockContext {
    /// Robots in the deadlock cycle.
    pub cycle: Vec<RobotId>,
    /// Current positions of robots in the cycle.
    pub positions: Vec<(RobotId, NodeId)>,
    /// Previous nodes of robots, for backing up.
    pub previous_nodes: Vec<(RobotId, Option<NodeId>)>,
    /// Task priorities of robots (a higher number is a lower priority).
    pub priorities: Vec<(RobotId, u32)>,
}

/// `r` is in `cycle` and no robot of `cycle` has a higher identifier.
pub open spec fn is_youngest(cycle: Seq<RobotId>, r: RobotId) -> bool {
    &&& cycle.contains(r)
    &&& forall|i: int| 0 <= i < cycle.len() ==> #[trigger] cycle[i].0 <= r.0
}

/// Position `i` holds the last entry with the highest priority number.
pub open spec fn is_last_lowest_priority(p: Seq<(RobotId, u32)>, i: int) -> bool {
    &&& 0 <= i < p.len()
    &&& forall|j: int| 0 <= j < p.len() ==> #[trigger] p[j].1 <= p[i].1
    &&& forall|j: int| i < j < p.len() ==> #[trigger] p[j].1 < p[i].1
}

/// The previous node recorded by the first entry for `robot`, if any.
pub open spec fn lookup_previous(s: Seq<(RobotId, Option<NodeId>)>, robot: RobotId) -> Option<NodeId>
    decreases s.len(),
{
    if s.len() == 0 {
        None
    } else if s[0].0 == robot {
        s[0].1
    } else {
        lookup_previous(s.drop_first(), robot)
    }
}

/// The robot that gives up its task when none can back up: the lowest
/// priority one if priorities are known, otherwise the youngest.
pub open spec fn is_abort_victim(ctx: DeadlockContext, r: RobotId) -> bool {
    if ctx.priorities@.len() > 0 {
        exists|i: int| is_last_lowest_priority(ctx.priorities@, i) && ctx.priorities@[i].0 == r
    } else {
        is_youngest(ctx.cycle@, r)
    }
}

/// The position of the first robot of `cycle` with a previous node.
pub open spec fn is_first_able(cycle: Seq<RobotId>, prev: Seq<(RobotId, Option<NodeId>)>, i: int) -> bool {
    &&& 0 <= i < cycle.len()
    &&& lookup_previous(prev, cycle[i]) is Some
    &&& forall|j: int| 0 <= j < i ==> lookup_previous(prev, #[trigger] cycle[j]) is None
}

/// Aborting the task of `x`.
pub open spec fn abort_of(x: RobotId) -> DeadlockResolution {
    DeadlockResolution::AbortTask { robot: x }
}

/// Backing up `x` to `n`.
pub open spec fn back_up_of(x: RobotId, n: NodeId) -> DeadlockResolution {
    DeadlockResolution::BackUp { robot: x, to_node: n }
}

/// The decision for robot `y`: back it up to its previous node, or abort
/// its task when none is known.
pub open spec fn back_up_or_abort(ctx: DeadlockContext, y: RobotId) -> DeadlockResolution {
    match lookup_previous(ctx.previous_nodes@, y) {
        Some(n) => back_up_of(y, n),
        None => abort_of(y),
    }
}

/// The tiered decision, given the youngest robot `y` of the cycle.
pub open spec fn tiered_outcome(ctx: DeadlockContext, y: RobotId, r: DeadlockResolution) -> bool {
    if lookup_previous(ctx.previous_nodes@, y) is Some {
        r == back_up_or_abort(ctx, y)
    } else if exists|i: int| #[trigger] is_first_able(ctx.cycle@, ctx.previous_nodes@, i) {
        exists|i: int|
            #[trigger] is_first_able(ctx.cycle@, ctx.previous_nodes@, i) && r == back_up_or_abort(
                ctx,
                ctx.cycle@[i],
            )
    } else {
        exists|x: RobotId| #[trigger] is_abort_victim(ctx, x) && r == abort_of(x)
    }
}

impl DeadlockContext {
    /// A context for `cycle`, with no positions, previous nodes or priorities.
    pub fn new(cycle: Vec<RobotId>) -> (r: Self)
        ensures
            r.cycle@ == cycle@,
            r.positions@ == Seq::<(RobotId, NodeId)>::empty(),
            r.previous_nodes@ == Seq::<(RobotId, Option<NodeId>)>::empty(),
            r.priorities@ == Seq::<(RobotId, u32)>::empty(),
    {
        DeadlockContext {
            cycle,
            positions: Vec::new(),
            previous_nodes: Vec::new(),
            priorities: Vec::new(),
        }
    }

    /// Adds the position of a robot.
    pub fn with_position(self, robot: RobotId, node: NodeId) -> (r: Self)
        ensures
            r.cycle@ == self.cycle@,
            r.positions@ == self.positions@.push((robot, node)),
            r.previous_nodes@ == self.previous_nodes@,
            r.priorities@ == self.priorities@,
    {
        let mut s = self;
        s.positions.push((robot, node));
        s
    }

    /// Adds the previous node of a robot.
    pub fn with_previous(self, robot: RobotId, prev: Option<NodeId>) -> (r: Self)
        ensures
            r.cycle@ == self.cycle@,
            r.positions@ == self.positions@,
            r.previous_nodes@ == self.previous_nodes@.push((robot, prev)),
            r.priorities@ == self.priorities@,
    {
        let mut s = self;
        s.previous_nodes.push((robot, prev));
        s
    }

    /// Adds the priority of a robot.
    pub fn with_priority(self, robot: RobotId, priority: u32) -> (r: Self)
        ensures
            r.cycle@ == self.cycle@,
            r.positions@ == self.positions@,
            r.previous_nodes@ == self.previous_nodes@,
            r.priorities@ == self.priorities@.push((robot, priority)),
    {
        let mut s = self;
        s.priorities.push((robot, priority));
        s
    }

    /// The robot of the cycle with the highest identifier (the youngest).
    pub fn youngest_robot(&self) -> (r: Option<RobotId>)
        ensures
            r is None <==> self.cycle@.len() == 0,
            r matches Some(y) ==> is_youngest(self.cycle@, y),
    {
        if self.cycle.len() == 0 {
            return None;
        }
        let mut best = self.cycle[0];
        let mut i: usize = 1;
        while i < self.cycle.len()
            invariant
                1 <= i <= self.cycle@.len(),
                self.cycle@.subrange(0, i as int).contains(best),
                forall|j: int| 0 <= j < i ==> #[trigger] self.cycle@[j].0 <= best.0,
            decreases self.cycle@.len() - i,
        {
            let ghost pre = self.cycle@.subrange(0, i as int);
            if self.cycle[i].0 >= best.0 {
                best = self.cycle[i];
            }
            proof {
                assert(self.cycle@.subrange(0, i + 1) =~= pre.push(self.cycle@[i as int]));
            }
            i = i + 1;
        }
        proof {
            assert(self.cycle@.subrange(0, self.cycle@.len() as int) =~= self.cycle@);
        }
        Some(best)
    }

    /// The robot with the highest priority number (the lowest priority);
    /// among equals, the one listed last.
    pub fn lowest_priority_robot(&self) -> (r: Option<RobotId>)
        ensures
            r is None <==> self.priorities@.len() == 0,
            r matches Some(x) ==> exists|i: int|
                is_last_lowest_priority(self.priorities@, i) && self.priorities@[i].0 == x,
    {
        if self.priorities.len() == 0 {
            return None;
        }
        let mut best: usize = 0;
        let mut i: usize = 1;
        while i < self.priorities.len()
            invariant
                1 <= i <= self.priorities@.len(),
                best < i,
                forall|j: int| 0 <= j < i ==> #[trigger] self.priorities@[j].1 <= self.priorities@[best as int].1,
                forall|j: int| best < j < i ==> #[trigger] self.priorities@[j].1 < self.priorities@[best as int].1,
            decreases self.priorities@.len() - i,
        {
            if self.priorities[i].1 >= self.priorities[best].1 {
                best = i;
            }
            i = i + 1;
        }
        assert(is_last_lowest_priority(self.priorities@, best as int));
        Some(self.priorities[best].0)
    }

    /// The previous node recorded by the first entry for `robot`.
    pub fn get_previous_node(&self, robot: RobotId) -> (r: Option<NodeId>)
        ensures
            r == lookup_previous(self.previous_nodes@, robot),
    {
        let mut i: usize = 0;
        assert(self.previous_nodes@.subrange(0, self.previous_nodes@.len() as int) =~= self.previous_nodes@);
        while i < self.previous_nodes.len()
            invariant
                i <= self.previous_nodes@.len(),
                lookup_previous(self.previous_nodes@, robot) == lookup_previous(
                    self.previous_nodes@.subrange(i as int, self.previous_nodes@.len() as int),
                    robot,
                ),
            decreases self.previous_nodes@.len() - i,
        {
            let ghost rest = self.previous_nodes@.subrange(i as int, self.previous_nodes@.len() as int);
            if self.previous_nodes[i].0 == robot {
                assert(rest[0] == self.previous_nodes@[i as int]);
                return self.previous_nodes[i].1;
            }
            assert(rest.drop_first() =~= self.previous_nodes@.subrange(
                i + 1,
                self.previous_nodes@.len() as int,
            ));
            i = i + 1;
        }
        None
    }
}

/// The youngest robot backs up; if it has no previous node, its task is
/// aborted.
#[derive(Clone, Copy, Debug, Default)]
pub struct YoungestRobotBacksUp;

impl YoungestRobotBacksUp {
    pub fn new() -> (r: Self) {
        YoungestRobotBacksUp
    }

    /// The resolver's name.
    pub fn name(&self) -> (r: &'static str)
        ensures
            r@ == "youngest_backs_up"@,
    {
        "youngest_backs_up"
    }

    /// Backs up the youngest robot of the cycle, or aborts its task when no
    /// previous node is known for it.
    pub fn resolve(&self, ctx: &DeadlockContext) -> (r: DeadlockResolution)
        requires
            ctx.cycle@.len() > 0,
        ensures
            exists|y: RobotId| #[trigger] is_youngest(ctx.cycle@, y) && r == back_up_or_abort(*ctx, y),
    {
        let robot = match ctx.youngest_robot() {
            Some(y) => y,
            None => {
                return DeadlockResolution::AbortTask { robot: ctx.cycle[0] };
            },
        };
        match ctx.get_previous_node(robot) {
            Some(prev_node) => DeadlockResolution::BackUp { robot, to_node: prev_node },
            None => DeadlockResolution::AbortTask { robot },
        }
    }
}

/// Aborts the task of the lowest-priority robot.
#[derive(Clone, Copy, Debug, Default)]
pub struct LowestPriorityAborts;

impl LowestPriorityAborts {
    pub fn new() -> (r: Self) {
        LowestPriorityAborts
    }

    /// The resolver's name.
    pub fn name(&self) -> (r: &'static str)
        ensures
            r@ == "lowest_priority_aborts"@,
    {
        "lowest_priority_aborts"
    }

    /// Aborts the task of the lowest-priority robot, or of the youngest robot
    /// when no priorities are known.
    pub fn resolve(&self, ctx: &DeadlockContext) -> (r: DeadlockResolution)
        requires
            ctx.priorities@.len() > 0 || ctx.cycle@.len() > 0,
        ensures
            exists|x: RobotId| #[trigger] is_abort_victim(*ctx, x) && r == abort_of(x),
    {
        let robot = match ctx.lowest_priority_robot() {
            Some(x) => x,
            None => match ctx.youngest_robot() {
                Some(y) => y,
                None => {
                    return DeadlockResolution::AbortTask { robot: ctx.priorities[0].0 };
                },
            },
        };
        assert(is_abort_victim(*ctx, robot));
        DeadlockResolution::AbortTask { robot }
    }
}

/// Backs up the youngest robot if it can, else the first robot of the cycle
/// that can, else aborts the lowest-priority task.
#[derive(Clone, Copy, Debug, Default)]
pub struct TieredResolver;

impl TieredResolver {
    pub fn new() -> (r: Self) {
        TieredResolver
    }

    /// The resolver's name.
    pub fn name(&self) -> (r: &'static str)
        ensures
            r@ == "tiered"@,
    {
        "tiered"
    }

    /// Tries, in turn: backing up the youngest robot; backing up the first
    /// robot of the cycle with a previous node; aborting the task of the
    /// lowest-priority robot (or of the youngest, without priorities).
    pub fn resolve(&self, ctx: &DeadlockContext) -> (r: DeadlockResolution)
        requires
            ctx.cycle@.len() > 0,
        ensures
            exists|y: RobotId| #[trigger] is_youngest(ctx.cycle@, y) && tiered_outcome(*ctx, y, r),
    {
        let youngest = match ctx.youngest_robot() {
            Some(y) => y,
            None => {
                return DeadlockResolution::AbortTask { robot: ctx.cycle[0] };
            },
        };
        if let Some(prev_node) = ctx.get_previous_node(youngest) {
            return DeadlockResolution::BackUp { robot: youngest, to_node: prev_node };
        }
        let mut i: usize = 0;
        while i < ctx.cycle.len()
            invariant
                i <= ctx.cycle@.len(),
                is_youngest(ctx.cycle@, youngest),
                lookup_previous(ctx.previous_nodes@, youngest) is None,
                forall|j: int|
                    0 <= j < i ==> lookup_previous(ctx.previous_nodes@, #[trigger] ctx.cycle@[j]) is None,
            decreases ctx.cycle@.len() - i,
        {
            let robot = ctx.cycle[i];
            if let Some(prev_node) = ctx.get_previous_node(robot) {
                assert(is_first_able(ctx.cycle@, ctx.previous_nodes@, i as int));
                let r = DeadlockResolution::BackUp { robot, to_node: prev_node };
                assert(r == back_up_or_abort(*ctx, ctx.cycle@[i as int]));
                assert(tiered_outcome(*ctx, youngest, r));
                return r;
            }
            i = i + 1;
        }
        let victim = match ctx.lowest_priority_robot() {
            Some(x) => x,
            None => youngest,
        };
        assert(is_abort_victim(*ctx, victim));
        proof {
            assert forall|k: int| !#[trigger] is_first_able(ctx.cycle@, ctx.previous_nodes@, k) by {
                if 0 <= k < ctx.cycle@.len() {
                    assert(lookup_previous(ctx.previous_nodes@, ctx.cycle@[k]) is None);
                }
            }
        }
        let r = DeadlockResolution::AbortTask { robot: victim };
        assert(tiered_outcome(*ctx, youngest, r));
        r
    }
}

/// The bit pattern of one second as an IEEE-754 double.
pub open spec fn one_second_bits() -> u64 {
    0x3FF0_0000_0000_0000u64
}

/// Waits for a fixed time and checks again.
#[derive(Clone, Copy, Debug)]
pub struct WaitAndRetryResolver {
    /// How long to wait, as the bit pattern of a number of seconds.
    pub wait_duration_bits: u64,
}

impl WaitAndRetryResolver {
    /// Waits `wait_duration_bits` (the bit pattern of a number of seconds).
    pub fn new(wait_duration_bits: u64) -> (r: Self)
        ensures
            r.wait_duration_bits == wait_duration_bits,
    {
        WaitAndRetryResolver { wait_duration_bits }
    }

    /// The resolver's name.
    pub fn name(&self) -> (r: &'static str)
        ensures
            r@ == "wait_and_retry"@,
    {
        "wait_and_retry"
    }

    /// Always waits for the configured time.
    pub fn resolve(&self, ctx: &DeadlockContext) -> (r: DeadlockResolution)
        ensures
            r == (DeadlockResolution::WaitAndRetry { duration_bits: self.wait_duration_bits }),
    {
        DeadlockResolution::WaitAndRetry { duration_bits: self.wait_duration_bits }
    }
}

impl Default for WaitAndRetryResolver {
    /// Waits one second.
    fn default() -> (r: Self)
        ensures
            r.wait_duration_bits == one_second_bits(),
    {
        WaitAndRetryResolver::new(0x3FF0_0000_0000_0000u64)
    }
}

/// One of the deadlock resolvers, chosen by name.
#[derive(Clone, Copy, Debug)]
pub enum DeadlockResolverChoice {
    YoungestBacksUp(YoungestRobotBacksUp),
    LowestPriorityAborts(LowestPriorityAborts),
    WaitAndRetry(WaitAndRetryResolver),
    Tiered(TieredResolver),
}

/// What the chosen resolver decides for `ctx`.
pub open spec fn choice_outcome(
    choice: DeadlockResolverChoice,
    ctx: DeadlockContext,
    r: DeadlockResolution,
) -> bool {
    match choice {
        DeadlockResolverChoice::YoungestBacksUp(_) => exists|y: RobotId|
            #[trigger] is_youngest(ctx.cycle@, y) && r == back_up_or_abort(ctx, y),
        DeadlockResolverChoice::LowestPriorityAborts(_) => exists|x: RobotId|
            #[trigger] is_abort_victim(ctx, x) && r == abort_of(x),
        DeadlockResolverChoice::WaitAndRetry(w) => r == (DeadlockResolution::WaitAndRetry {
            duration_bits: w.wait_duration_bits,
        }),
        DeadlockResolverChoice::Tiered(_) => exists|y: RobotId|
            #[trigger] is_youngest(ctx.cycle@, y) && tiered_outcome(ctx, y, r),
    }
}

impl DeadlockResolverChoice {
    /// The chosen resolver's name.
    pub fn name(&self) -> (r: &'static str)
        ensures
            r@ == match *self {
                DeadlockResolverChoice::YoungestBacksUp(_) => "youngest_backs_up"@,
                DeadlockResolverChoice::LowestPriorityAborts(_) => "lowest_priority_aborts"@,
                DeadlockResolverChoice::WaitAndRetry(_) => "wait_and_retry"@,
                DeadlockResolverChoice::Tiered(_) => "tiered"@,
            },
    {
        match self {
            DeadlockResolverChoice::YoungestBacksUp(x) => x.name(),
            DeadlockResolverChoice::LowestPriorityAborts(x) => x.name(),
            DeadlockResolverChoice::WaitAndRetry(x) => x.name(),
            DeadlockResolverChoice::Tiered(x) => x.name(),
        }
    }

    /// What the chosen resolver decides for a deadlock of the robots in
    /// `ctx.cycle`. Waiting needs nothing of the context; aborting the
    /// lowest-priority task needs a priority or a robot; the others need a
    /// robot in the cycle.
    pub fn resolve(&self, ctx: &DeadlockContext) -> (r: DeadlockResolution)
        requires
            match *self {
                DeadlockResolverChoice::YoungestBacksUp(_) => ctx.cycle@.len() > 0,
                DeadlockResolverChoice::LowestPriorityAborts(_) => ctx.priorities@.len() > 0
                    || ctx.cycle@.len() > 0,
                DeadlockResolverChoice::WaitAndRetry(_) => true,
                DeadlockResolverChoice::Tiered(_) => ctx.cycle@.len() > 0,
            },
        ensures
            choice_outcome(*self, *ctx, r),
    {
        match self {
            DeadlockResolverChoice::YoungestBacksUp(x) => x.resolve(ctx),
            DeadlockResolverChoice::LowestPriorityAborts(x) => x.resolve(ctx),
            DeadlockResolverChoice::WaitAndRetry(x) => x.resolve(ctx),
            DeadlockResolverChoice::Tiered(x) => x.resolve(ctx),
        }
    }
}

/// The resolver a configuration names: "youngest_backs_up",
/// "lowest_priority_aborts", "wait_and_retry" (waiting one second) or
/// "tiered"; any other name gives "youngest_backs_up".
pub fn create_deadlock_resolver(name: &str) -> (r: DeadlockResolverChoice)
    ensures
        r == if name@ == "lowest_priority_aborts"@ {
            DeadlockResolverChoice::LowestPriorityAborts(LowestPriorityAborts)
        } else if name@ == "wait_and_retry"@ {
            DeadlockResolverChoice::WaitAndRetry(
                WaitAndRetryResolver { wait_duration_bits: one_second_bits() },
            )
        } else if name@ == "tiered"@ {
            DeadlockResolverChoice::Tiered(TieredResolver)
        } else {
            DeadlockResolverChoice::YoungestBacksUp(YoungestRobotBacksUp)
        },
{
    proof {
        reveal_strlit("youngest_backs_up");
        reveal_strlit("lowest_priority_aborts");
        reveal_strlit("wait_and_retry");
        reveal_strlit("tiered");
        assert("youngest_backs_up"@.len() == 17);
        assert("lowest_priority_aborts"@.len() == 22);
        assert("wait_and_retry"@.len() == 14);
        assert("tiered"@.len() == 6);
    }
    if same_text(name, "youngest_backs_up") {
        DeadlockResolverChoice::YoungestBacksUp(YoungestRobotBacksUp::new())
    } else if same_text(name, "lowest_priority_aborts") {
        DeadlockResolverChoice::LowestPriorityAborts(LowestPriorityAborts::new())
    } else if same_text(name, "wait_and_retry") {
        DeadlockResolverChoice::WaitAndRetry(WaitAndRetryResolver::default())
    } else if same_text(name, "tiered") {
        DeadlockResolverChoice::Tiered(TieredResolver::new())
    } else {
        DeadlockResolverChoice::YoungestBacksUp(YoungestRobotBacksUp::new())
    }
}

} // verus!
