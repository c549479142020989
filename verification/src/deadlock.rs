//! Deadlock detection with a wait-for graph.
//!
//! Each waiting robot points at the robots that block the resource it waits
//! for. A robot that waits, transitively, on itself is deadlocked: a cycle in
//! this graph is a deadlock.

use std::collections::HashSet;
use vstd::prelude::*;

use crate::ids::{EdgeId, NodeId, RobotId};

verus! {

broadcast use {vstd::std_specs::hash::group_hash_axioms, vstd::seq_lib::group_seq_properties};

/// The raw identifiers of a sequence of robots.
pub open spec fn raw_ids(s: Seq<RobotId>) -> Seq<u32> {
    s.map_values(|r: RobotId| r.0)
}

/// What a robot is waiting for, and which robots hold it.
#[derive(Debug)]
pub enum WaitingFor {
    /// Waiting for an edge, blocked by specific robots.
    Edge { edge_id: EdgeId, blocked_by: Vec<RobotId> },
    /// Waiting for a node, blocked by specific robots.
    Node { node_id: NodeId, blocked_by: Vec<RobotId> },
}

/// Copies a list of robots.
fn copy_robots(v: &Vec<RobotId>) -> (r: Vec<RobotId>)
    ensures
        r@ == v@,
{
    let mut r: Vec<RobotId> = Vec::new();
    let mut i: usize = 0;
    while i < v.len()
        invariant
            i <= v@.len(),
            r@ == v@.subrange(0, i as int),
        decreases v@.len() - i,
    {
        r.push(v[i]);
        i = i + 1;
    }
    r
}

impl Clone for WaitingFor {
    fn clone(&self) -> (r: Self)
        ensures
            r@ == self@,
    {
        match self {
            WaitingFor::Edge { edge_id, blocked_by } => WaitingFor::Edge {
                edge_id: *edge_id,
                blocked_by: copy_robots(blocked_by),
            },
            WaitingFor::Node { node_id, blocked_by } => WaitingFor::Node {
                node_id: *node_id,
                blocked_by: copy_robots(blocked_by),
            },
        }
    }
}

/// The value of a wait, as contracts speak of it.
pub ghost enum WaitTarget {
    /// Waiting for an edge, blocked by the given robots.
    Edge { edge_id: EdgeId, blocked_by: Seq<RobotId> },
    /// Waiting for a node, blocked by the given robots.
    Node { node_id: NodeId, blocked_by: Seq<RobotId> },
}

impl WaitTarget {
    /// The robots that block this wait, in order.
    pub open spec fn blocker_list(self) -> Seq<RobotId> {
        match self {
            WaitTarget::Edge { blocked_by, .. } => blocked_by,
            WaitTarget::Node { blocked_by, .. } => blocked_by,
        }
    }

    /// The raw identifiers of the blocking robots.
    pub open spec fn blocker_ids(self) -> Seq<u32> {
        raw_ids(self.blocker_list())
    }
}

impl View for WaitingFor {
    type V = WaitTarget;

    open spec fn view(&self) -> WaitTarget {
        match self {
            WaitingFor::Edge { edge_id, blocked_by } => WaitTarget::Edge {
                edge_id: *edge_id,
                blocked_by: blocked_by@,
            },
            WaitingFor::Node { node_id, blocked_by } => WaitTarget::Node {
                node_id: *node_id,
                blocked_by: blocked_by@,
            },
        }
    }
}

impl WaitingFor {
    /// The robots that block this wait.
    pub fn blockers(&self) -> (r: &[RobotId])
        ensures
            r@ == self@.blocker_list(),
    {
        match self {
            WaitingFor::Edge { blocked_by, .. } => blocked_by.as_slice(),
            WaitingFor::Node { blocked_by, .. } => blocked_by.as_slice(),
        }
    }
}

/// Robot `a` waits in `g` for a resource that robot `b` blocks.
pub open spec fn waits_on(g: Map<u32, WaitTarget>, a: u32, b: u32) -> bool {
    g.contains_key(a) && g[a].blocker_ids().contains(b)
}

/// Step `i` of the sequence `p` is a wait-for edge of `g`.
pub open spec fn wait_step(g: Map<u32, WaitTarget>, p: Seq<u32>, i: int) -> bool {
    waits_on(g, p[i], p[i + 1])
}

/// Each robot of `p` waits on the next one.
pub open spec fn is_wait_walk(g: Map<u32, WaitTarget>, p: Seq<u32>) -> bool {
    forall|i: int| 0 <= i < p.len() - 1 ==> #[trigger] wait_step(g, p, i)
}

/// `c` is a closed walk of waits: a deadlock.
pub open spec fn is_deadlock_cycle(g: Map<u32, WaitTarget>, c: Seq<u32>) -> bool {
    &&& c.len() >= 2
    &&& c[0] == c.last()
    &&& is_wait_walk(g, c)
}

/// Some robots of `g` wait on each other in a circle.
pub open spec fn has_deadlock(g: Map<u32, WaitTarget>) -> bool {
    exists|c: Seq<u32>| #[trigger] is_deadlock_cycle(g, c)
}

/// `p` is a walk of waits from `v` that ends on a robot it already passed.
pub open spec fn is_lasso_from(g: Map<u32, WaitTarget>, v: u32, p: Seq<u32>) -> bool {
    &&& p.len() >= 2
    &&& p[0] == v
    &&& is_wait_walk(g, p)
    &&& exists|j: int| 0 <= j < p.len() - 1 && #[trigger] p[j] == p.last()
}

/// Following the waits from `v` leads into a deadlock.
pub open spec fn reaches_deadlock(g: Map<u32, WaitTarget>, v: u32) -> bool {
    exists|p: Seq<u32>| #[trigger] is_lasso_from(g, v, p)
}

/// The shape of the cycles that detection reports: a walk of waits that is
/// closed either by a wait from its last robot to its first, or by ending on
/// the robot it started from.
pub open spec fn is_reported_cycle(g: Map<u32, WaitTarget>, c: Seq<u32>) -> bool {
    &&& c.len() >= 1
    &&& is_wait_walk(g, c)
    &&& (waits_on(g, c.last(), c[0]) || (c.len() >= 2 && c[0] == c.last()))
}

/// Every reported cycle is a deadlock of the graph.
pub proof fn lemma_reported_cycle_is_deadlock(g: Map<u32, WaitTarget>, c: Seq<u32>)
    requires
        is_reported_cycle(g, c),
    ensures
        has_deadlock(g),
        forall|i: int| 0 <= i < c.len() ==> g.contains_key(#[trigger] c[i]),
{
    if c.len() >= 2 && c[0] == c.last() {
        assert(is_deadlock_cycle(g, c));
        assert forall|i: int| 0 <= i < c.len() implies g.contains_key(#[trigger] c[i]) by {
            if i < c.len() - 1 {
                assert(wait_step(g, c, i));
            } else {
                assert(wait_step(g, c, 0));
            }
        }
    } else {
        let d = c.push(c[0]);
        assert forall|i: int| 0 <= i < d.len() - 1 implies #[trigger] wait_step(g, d, i) by {
            if i < c.len() - 1 {
                assert(wait_step(g, c, i));
            }
        }
        assert(is_deadlock_cycle(g, d));
        assert forall|i: int| 0 <= i < c.len() implies g.contains_key(#[trigger] c[i]) by {
            assert(wait_step(g, d, i));
        }
    }
}

/// Withdrawing a robot's wait never creates a deadlock: every deadlock left
/// after the removal was already there.
pub proof fn law_removing_wait_creates_no_deadlock(g: Map<u32, WaitTarget>, robot: u32)
    requires
        has_deadlock(g.remove(robot)),
    ensures
        has_deadlock(g),
{
    let h = g.remove(robot);
    let c = choose|c: Seq<u32>| #[trigger] is_deadlock_cycle(h, c);
    assert forall|i: int| 0 <= i < c.len() - 1 implies #[trigger] wait_step(g, c, i) by {
        assert(wait_step(h, c, i));
    }
    assert(is_deadlock_cycle(g, c));
}

/// A call that changes a wait-for graph, as contracts speak of it.
pub ghost enum WaitCall {
    /// `add_wait` for the robot with this raw id, with this wait.
    Add { robot: u32, target: WaitTarget },
    /// `remove_wait` for the robot with this raw id.
    Remove { robot: u32 },
    /// `clear`.
    Clear,
}

/// The waits `g2` and order `order2` that `call` leaves of waits `g` and
/// order `order` (what `add_wait`, `remove_wait` and `clear` ensure).
pub open spec fn call_step(
    g: Map<u32, WaitTarget>,
    order: Seq<u32>,
    call: WaitCall,
    g2: Map<u32, WaitTarget>,
    order2: Seq<u32>,
) -> bool {
    match call {
        WaitCall::Add { robot, target } => {
            &&& g2 == g.insert(robot, target)
            &&& order2 == if g.contains_key(robot) {
                order
            } else {
                order.push(robot)
            }
        },
        WaitCall::Remove { robot } => {
            &&& g2 == g.remove(robot)
            &&& !g.contains_key(robot) ==> order2 == order
            &&& g.contains_key(robot) ==> exists|i: int|
                0 <= i < order.len() && order[i] == robot && order2 == order.remove(i)
        },
        WaitCall::Clear => g2 == Map::<u32, WaitTarget>::empty() && order2 == Seq::<u32>::empty(),
    }
}

/// The same call on the same waits and order leaves the same waits and
/// order, where no robot is listed twice in the order.
proof fn lemma_call_step_is_function(
    g: Map<u32, WaitTarget>,
    order: Seq<u32>,
    call: WaitCall,
    a1: Map<u32, WaitTarget>,
    o1: Seq<u32>,
    a2: Map<u32, WaitTarget>,
    o2: Seq<u32>,
)
    requires
        order.no_duplicates(),
        call_step(g, order, call, a1, o1),
        call_step(g, order, call, a2, o2),
    ensures
        a1 == a2,
        o1 == o2,
{
    if let WaitCall::Remove { robot } = call {
        if g.contains_key(robot) {
            let i1 = choose|i: int| 0 <= i < order.len() && order[i] == robot && o1 == order.remove(i);
            let i2 = choose|i: int| 0 <= i < order.len() && order[i] == robot && o2 == order.remove(i);
            assert(i1 == i2);
        }
    }
}

/// Replaying the same calls replays the same detection: two graphs, each
/// made by `new` and then changed by the same sequence of calls (`h1[i]`
/// is the first graph after `i` calls), hold the same waits in the same
/// order after every call, and so report the same cycle and the same list
/// of cycles.
pub proof fn law_same_calls_same_detection(
    h1: Seq<WaitForGraph>,
    h2: Seq<WaitForGraph>,
    calls: Seq<WaitCall>,
)
    requires
        h1.len() == calls.len() + 1,
        h2.len() == calls.len() + 1,
        h1[0]@ == Map::<u32, WaitTarget>::empty() && h1[0].order() == Seq::<u32>::empty(),
        h2[0]@ == Map::<u32, WaitTarget>::empty() && h2[0].order() == Seq::<u32>::empty(),
        forall|i: int| 0 <= i < h1.len() ==> #[trigger] h1[i].wf(),
        forall|i: int|
            0 <= i < calls.len() ==> call_step(
                h1[i]@,
                h1[i].order(),
                #[trigger] calls[i],
                h1[i + 1]@,
                h1[i + 1].order(),
            ),
        forall|i: int|
            0 <= i < calls.len() ==> call_step(
                h2[i]@,
                h2[i].order(),
                #[trigger] calls[i],
                h2[i + 1]@,
                h2[i + 1].order(),
            ),
    ensures
        forall|i: int|
            #![trigger h1[i]]
            0 <= i < h1.len() ==> h1[i]@ == h2[i]@ && h1[i].order() == h2[i].order(),
        detected_cycle(h1.last()@, h1.last().order()) == detected_cycle(h2.last()@, h2.last().order()),
        all_cycles(h1.last()@, h1.last().order(), h1.last().order().len() as int) == all_cycles(
            h2.last()@,
            h2.last().order(),
            h2.last().order().len() as int,
        ),
{
    lemma_replay_agrees(h1, h2, calls, calls.len() as int);
    assert forall|i: int| #![trigger h1[i]] 0 <= i < h1.len() implies h1[i]@ == h2[i]@ && h1[i].order()
        == h2[i].order() by {
        lemma_replay_agrees(h1, h2, calls, i);
    }
}

proof fn lemma_replay_agrees(h1: Seq<WaitForGraph>, h2: Seq<WaitForGraph>, calls: Seq<WaitCall>, k: int)
    requires
        h1.len() == calls.len() + 1,
        h2.len() == calls.len() + 1,
        h1[0]@ == Map::<u32, WaitTarget>::empty() && h1[0].order() == Seq::<u32>::empty(),
        h2[0]@ == Map::<u32, WaitTarget>::empty() && h2[0].order() == Seq::<u32>::empty(),
        forall|i: int| 0 <= i < h1.len() ==> #[trigger] h1[i].wf(),
        forall|i: int|
            0 <= i < calls.len() ==> call_step(
                h1[i]@,
                h1[i].order(),
                #[trigger] calls[i],
                h1[i + 1]@,
                h1[i + 1].order(),
            ),
        forall|i: int|
            0 <= i < calls.len() ==> call_step(
                h2[i]@,
                h2[i].order(),
                #[trigger] calls[i],
                h2[i + 1]@,
                h2[i + 1].order(),
            ),
        0 <= k <= calls.len(),
    ensures
        h1[k]@ == h2[k]@,
        h1[k].order() == h2[k].order(),
    decreases k,
{
    if k > 0 {
        lemma_replay_agrees(h1, h2, calls, k - 1);
        let j = k - 1;
        assert(h1[j].wf());
        h1[j].lemma_order_lists_waiting();
        assert(call_step(h1[j]@, h1[j].order(), calls[j], h1[j + 1]@, h1[j + 1].order()));
        assert(call_step(h2[j]@, h2[j].order(), calls[j], h2[j + 1]@, h2[j + 1].order()));
        lemma_call_step_is_function(
            h1[j]@,
            h1[j].order(),
            calls[j],
            h1[k]@,
            h1[k].order(),
            h2[k]@,
            h2[k].order(),
        );
    }
}

/// Two robots that each wait on the other are deadlocked.
pub proof fn law_mutual_wait_is_deadlock(g: Map<u32, WaitTarget>, a: u32, b: u32)
    requires
        waits_on(g, a, b),
        waits_on(g, b, a),
    ensures
        has_deadlock(g),
{
    let c = seq![a, b, a];
    assert(wait_step(g, c, 0));
    assert(wait_step(g, c, 1));
    assert(is_deadlock_cycle(g, c));
}

/// The first robot of `ids` that leads into a deadlock, if any.
pub open spec fn first_leading(g: Map<u32, WaitTarget>, ids: Seq<u32>) -> Option<u32>
    decreases ids.len(),
{
    if ids.len() == 0 {
        None
    } else if reaches_deadlock(g, ids[0]) {
        Some(ids[0])
    } else {
        first_leading(g, ids.drop_first())
    }
}

/// The first position of `x` in `s` (the length of `s` when it is absent).
pub open spec fn first_position(s: Seq<u32>, x: u32) -> int
    decreases s.len(),
{
    if s.len() == 0 {
        0
    } else if s[0] == x {
        0
    } else {
        1 + first_position(s.drop_first(), x)
    }
}

/// The walk cycle detection follows from `start`, having walked `path` and
/// now entering `cur`: when `cur` is already on the walk, the walk from its
/// first visit; otherwise on to the first robot `cur` waits on that leads
/// into a deadlock, closing the walk with `start` when that robot is
/// `start` itself (after at least one step).
pub open spec fn search_walk(
    g: Map<u32, WaitTarget>,
    start: u32,
    path: Seq<u32>,
    cur: u32,
    fuel: nat,
) -> Seq<u32>
    decreases fuel,
{
    if path.contains(cur) {
        path.subrange(first_position(path, cur), path.len() as int)
    } else if fuel == 0 {
        Seq::empty()
    } else {
        let p1 = path.push(cur);
        match first_leading(g, g[cur].blocker_ids()) {
            Some(b) => if b == start && p1.len() > 1 {
                p1.push(start)
            } else {
                search_walk(g, start, p1, b, (fuel - 1) as nat)
            },
            None => Seq::empty(),
        }
    }
}

/// The cycle that detection reports for waits `g` whose waiting robots
/// started waiting in the order `order`: the walk of `search_walk` from the
/// first robot of `order` that leads into a deadlock.
pub open spec fn detected_cycle(g: Map<u32, WaitTarget>, order: Seq<u32>) -> Option<Seq<u32>> {
    match first_leading(g, order) {
        Some(s) => Some(search_walk(g, s, Seq::empty(), s, (order.len() + 1) as nat)),
        None => None,
    }
}

proof fn lemma_first_position(s: Seq<u32>, x: u32, i: int)
    requires
        0 <= i < s.len(),
        s[i] == x,
        forall|j: int| 0 <= j < i ==> s[j] != x,
    ensures
        first_position(s, x) == i,
    decreases i,
{
    if i > 0 {
        lemma_first_position(s.drop_first(), x, i - 1);
    }
}

proof fn lemma_first_leading_skips(g: Map<u32, WaitTarget>, ids: Seq<u32>, i: int)
    requires
        0 <= i < ids.len(),
        !reaches_deadlock(g, ids[i]),
    ensures
        first_leading(g, ids.subrange(i, ids.len() as int)) == first_leading(
            g,
            ids.subrange(i + 1, ids.len() as int),
        ),
{
    assert(ids.subrange(i, ids.len() as int).drop_first() =~= ids.subrange(i + 1, ids.len() as int));
}

/// A robot waiting on one that leads into a deadlock leads into it too.
proof fn lemma_reaches_back(g: Map<u32, WaitTarget>, a: u32, b: u32)
    requires
        waits_on(g, a, b),
        reaches_deadlock(g, b),
    ensures
        reaches_deadlock(g, a),
{
    let p = choose|p: Seq<u32>| #[trigger] is_lasso_from(g, b, p);
    let j = choose|j: int| 0 <= j < p.len() - 1 && #[trigger] p[j] == p.last();
    let q = seq![a] + p;
    assert forall|i: int| 0 <= i < q.len() - 1 implies #[trigger] wait_step(g, q, i) by {
        if i > 0 {
            assert(wait_step(g, p, i - 1));
        }
    }
    assert(q[j + 1] == q.last());
    assert(is_lasso_from(g, a, q));
}

/// The walk of `search_walk` holds its start robot only closed at both
/// ends, or as a robot that waits on itself.
proof fn lemma_search_walk_shape(
    g: Map<u32, WaitTarget>,
    start: u32,
    path: Seq<u32>,
    cur: u32,
    fuel: nat,
)
    requires
        path.no_duplicates(),
        path.len() == 0 ==> cur == start,
        path.len() > 0 ==> path[0] == start,
        cur == start ==> path.len() <= 1,
    ensures
        ({
            let w = search_walk(g, start, path, cur, fuel);
            w.contains(start) ==> (w == seq![start] || (w.len() >= 3 && w[0] == start && w.last()
                == start))
        }),
    decreases fuel,
{
    let w = search_walk(g, start, path, cur, fuel);
    if path.contains(cur) {
        let i = first_position(path, cur);
        let k = choose|k: int| 0 <= k < path.len() && path[k] == cur;
        let k0 = choose|k0: int| 0 <= k0 <= k && path[k0] == cur && forall|j: int| 0 <= j < k0 ==> path[j] != cur;
        lemma_first_position(path, cur, k0);
        if w.contains(start) {
            let m = choose|m: int| 0 <= m < w.len() && w[m] == start;
            assert(path[i + m] == start);
            assert(path[0] == start);
            assert(i + m == 0);
            assert(cur == start);
            assert(path.len() == 1);
            assert(w =~= seq![start]);
        }
    } else if fuel > 0 {
        let p1 = path.push(cur);
        match first_leading(g, g[cur].blocker_ids()) {
            Some(b) => {
                if !(b == start && p1.len() > 1) {
                    lemma_search_walk_shape(g, start, p1, b, (fuel - 1) as nat);
                }
            },
            None => {},
        }
    }
}

/// The robots of a list of robots with walks, by raw id.
pub open spec fn reached_ids(s: Seq<(RobotId, Vec<RobotId>)>) -> Seq<u32> {
    s.map_values(|e: (RobotId, Vec<RobotId>)| e.0.0)
}

/// The walk kept with a robot leads by waits from `v` to that robot.
pub open spec fn walk_to(g: Map<u32, WaitTarget>, v: u32, e: (RobotId, Vec<RobotId>)) -> bool {
    let w = raw_ids(e.1@);
    &&& w.len() >= 1
    &&& w[0] == v
    &&& w.last() == e.0.0
    &&& is_wait_walk(g, w)
}

/// The robots reached by a search, by raw id, each with its walk.
pub open spec fn abstract_reached(s: Seq<(RobotId, Vec<RobotId>)>) -> Seq<(u32, Seq<u32>)> {
    s.map_values(|e: (RobotId, Vec<RobotId>)| (e.0.0, raw_ids(e.1@)))
}

/// The robots `u` waits on, in the order listed (none when it does not wait).
pub open spec fn blockers_of(g: Map<u32, WaitTarget>, u: u32) -> Seq<u32> {
    if g.contains_key(u) {
        g[u].blocker_ids()
    } else {
        Seq::empty()
    }
}

/// The search for a cycle through `v`, among at most `n` waiting robots.
/// The robots reached are taken in the order they were reached (`idx`),
/// and the robots each waits on in the order listed (`k`). A robot waiting
/// on `v` closes the cycle: its walk from `v`, then `v`. A waiting robot
/// not reached yet is reached, with the walk one step longer.
pub open spec fn through_search(
    g: Map<u32, WaitTarget>,
    v: u32,
    n: int,
    reached: Seq<(u32, Seq<u32>)>,
    idx: int,
    k: int,
) -> Option<Seq<u32>>
    decreases n - idx, blockers_of(g, reached[idx].0).len() - k,
{
    if idx < 0 || idx >= reached.len() || idx >= n {
        None
    } else {
        let u = reached[idx];
        let bl = blockers_of(g, u.0);
        if k < 0 || k >= bl.len() {
            through_search(g, v, n, reached, idx + 1, 0)
        } else {
            let b = bl[k];
            if b == v {
                Some(u.1.push(v))
            } else if g.contains_key(b) && !reached.map_values(|e: (u32, Seq<u32>)| e.0).contains(b) {
                through_search(g, v, n, reached.push((b, u.1.push(b))), idx, k + 1)
            } else {
                through_search(g, v, n, reached, idx, k + 1)
            }
        }
    }
}

/// The cycle through `v` that the search finds among `n` waiting robots.
pub open spec fn cycle_search(g: Map<u32, WaitTarget>, v: u32, n: int) -> Option<Seq<u32>> {
    through_search(g, v, n, seq![(v, seq![v])], 0, 0)
}

/// Some cycle of `cs` holds `x`.
pub open spec fn cycles_hold(cs: Seq<Seq<u32>>, x: u32) -> bool {
    exists|j: int| 0 <= j < cs.len() && #[trigger] cs[j].contains(x)
}

/// The cycles reported for the first `i` robots of `order`: a robot that
/// is in no cycle reported before it gets the cycle the search through it
/// finds, if any.
pub open spec fn all_cycles(g: Map<u32, WaitTarget>, order: Seq<u32>, i: int) -> Seq<Seq<u32>>
    decreases i,
{
    if i <= 0 {
        Seq::empty()
    } else {
        let prev = all_cycles(g, order, i - 1);
        let v = order[i - 1];
        if cycles_hold(prev, v) {
            prev
        } else {
            match cycle_search(g, v, order.len() as int) {
                Some(c) => prev.push(c),
                None => prev,
            }
        }
    }
}

/// Robot `v` lies on a deadlock cycle of `g`.
pub open spec fn on_deadlock(g: Map<u32, WaitTarget>, v: u32) -> bool {
    exists|c: Seq<u32>, k: int|
        #![trigger is_deadlock_cycle(g, c), c[k]]
        is_deadlock_cycle(g, c) && 0 <= k < c.len() && c[k] == v
}

/// Some deadlock cycle of `g` starts (and ends) at `v`.
pub open spec fn cycle_from(g: Map<u32, WaitTarget>, v: u32) -> bool {
    exists|c: Seq<u32>| #[trigger] is_deadlock_cycle(g, c) && c[0] == v
}

/// A robot on a deadlock cycle has a deadlock cycle of its own: the same
/// cycle, walked from that robot.
proof fn lemma_rotate_cycle(g: Map<u32, WaitTarget>, c: Seq<u32>, k: int)
    requires
        is_deadlock_cycle(g, c),
        0 <= k < c.len(),
    ensures
        cycle_from(g, c[k]),
{
    let n = c.len() as int;
    let d = c.subrange(k, n) + c.subrange(1, k + 1);
    assert(d.len() == n);
    assert forall|i: int| 0 <= i < d.len() - 1 implies #[trigger] wait_step(g, d, i) by {
        if i + 1 < n - k {
            assert(d[i] == c[k + i]);
            assert(d[i + 1] == c[k + i + 1]);
            assert(wait_step(g, c, k + i));
        } else if i + 1 == n - k {
            assert(d[i] == c[n - 1]);
            assert(d[i + 1] == c[1]);
            assert(wait_step(g, c, 0));
        } else {
            let j = 1 + i - (n - k);
            assert(d[i] == c[j]);
            assert(d[i + 1] == c[j + 1]);
            assert(wait_step(g, c, j));
        }
    }
    if k == 0 {
        assert(d.last() == c[n - 1]);
    } else {
        assert(d.last() == c[k]);
    }
    assert(d[0] == c[k]);
    assert(is_deadlock_cycle(g, d));
}

/// A set of robots that holds `v`, where no robot waits on `v` and every
/// waiting robot waited on is in the set, holds no deadlock cycle from `v`.
proof fn lemma_closed_region(g: Map<u32, WaitTarget>, nodes: Seq<u32>, v: u32)
    requires
        nodes.contains(v),
        forall|x: u32, b: u32|
            nodes.contains(x) && #[trigger] waits_on(g, x, b) ==> b != v && (g.contains_key(b)
                ==> nodes.contains(b)),
    ensures
        !cycle_from(g, v),
{
    if cycle_from(g, v) {
        let c = choose|c: Seq<u32>| #[trigger] is_deadlock_cycle(g, c) && c[0] == v;
        lemma_walk_stays(g, nodes, v, c, c.len() - 2);
        assert(wait_step(g, c, c.len() - 2));
        assert(c[c.len() - 1] == v);
    }
}

proof fn lemma_walk_stays(g: Map<u32, WaitTarget>, nodes: Seq<u32>, v: u32, c: Seq<u32>, i: int)
    requires
        nodes.contains(v),
        forall|x: u32, b: u32|
            nodes.contains(x) && #[trigger] waits_on(g, x, b) ==> b != v && (g.contains_key(b)
                ==> nodes.contains(b)),
        is_deadlock_cycle(g, c),
        c[0] == v,
        0 <= i <= c.len() - 2,
    ensures
        nodes.contains(c[i]),
    decreases i,
{
    if i > 0 {
        lemma_walk_stays(g, nodes, v, c, i - 1);
        assert(wait_step(g, c, i - 1));
        assert(wait_step(g, c, i));
    }
}

/// A robot that does not wait leads into no deadlock.
proof fn lemma_idle_reaches_nothing(g: Map<u32, WaitTarget>, v: u32)
    requires
        !g.contains_key(v),
    ensures
        !reaches_deadlock(g, v),
{
    if reaches_deadlock(g, v) {
        let p = choose|p: Seq<u32>| #[trigger] is_lasso_from(g, v, p);
        assert(wait_step(g, p, 0));
    }
}

/// If no robot that `v` waits on leads into a deadlock, neither does `v`.
proof fn lemma_clear_successors(g: Map<u32, WaitTarget>, v: u32)
    requires
        forall|b: u32| #[trigger] waits_on(g, v, b) ==> !reaches_deadlock(g, b),
    ensures
        !reaches_deadlock(g, v),
{
    if reaches_deadlock(g, v) {
        let p = choose|p: Seq<u32>| #[trigger] is_lasso_from(g, v, p);
        let j = choose|j: int| 0 <= j < p.len() - 1 && #[trigger] p[j] == p.last();
        assert(wait_step(g, p, 0));
        let s = p[1];
        assert(waits_on(g, v, s));
        if j >= 1 {
            let q = p.drop_first();
            assert forall|i: int| 0 <= i < q.len() - 1 implies #[trigger] wait_step(g, q, i) by {
                assert(wait_step(g, p, i + 1));
            }
            assert(q[j - 1] == q.last());
            assert(is_lasso_from(g, s, q));
        } else {
            let q = p.drop_first().push(s);
            assert forall|i: int| 0 <= i < q.len() - 1 implies #[trigger] wait_step(g, q, i) by {
                if i < q.len() - 2 {
                    assert(wait_step(g, p, i + 1));
                } else {
                    assert(q[i] == p.last());
                    assert(p.last() == v);
                }
            }
            assert(q[0] == q.last());
            assert(is_lasso_from(g, s, q));
        }
    }
}

/// If no waiting robot leads into a deadlock, the graph holds none.
proof fn lemma_all_clear_no_deadlock(g: Map<u32, WaitTarget>)
    requires
        forall|k: u32| g.contains_key(k) ==> !reaches_deadlock(g, k),
    ensures
        !has_deadlock(g),
{
    if has_deadlock(g) {
        let c = choose|c: Seq<u32>| #[trigger] is_deadlock_cycle(g, c);
        assert(wait_step(g, c, 0));
        assert(c[0] == c.last());
        assert(is_lasso_from(g, c[0], c));
        assert(reaches_deadlock(g, c[0]));
        assert(g.contains_key(c[0]));
        assert(false);
    }
}

/// Wait-for graph for deadlock detection.
///
/// Nodes are robots; robot `a` has an edge to robot `b` when `a` waits for a
/// resource that `b` blocks. A cycle in this graph is a deadlock.
pub struct WaitForGraph {
    /// One entry per waiting robot, in the order the robots started waiting.
    entries: Vec<(RobotId, WaitingFor)>,
    /// What each waiting robot (by raw id) waits for.
    model: Ghost<Map<u32, WaitTarget>>,
}

impl View for WaitForGraph {
    type V = Map<u32, WaitTarget>;

    /// What each waiting robot, by raw id, waits for.
    closed spec fn view(&self) -> Map<u32, WaitTarget> {
        self.model@
    }
}

impl Clone for WaitForGraph {
    fn clone(&self) -> (g: Self)
        ensures
            self.wf() ==> g.wf() && g@ == self@,
            g.order() == self.order(),
    {
        let mut entries: Vec<(RobotId, WaitingFor)> = Vec::new();
        let mut i: usize = 0;
        while i < self.entries.len()
            invariant
                i <= self.entries@.len(),
                entries@.len() == i,
                forall|j: int|
                    0 <= j < i ==> #[trigger] entries@[j].0 == self.entries@[j].0 && entries@[j].1@
                        == self.entries@[j].1@,
            decreases self.entries@.len() - i,
        {
            let e = &self.entries[i];
            let w = e.1.clone();
            assert(w@ == self.entries@[i as int].1@);
            let ghost before = entries@;
            entries.push((e.0, w));
            proof {
                assert forall|j: int| 0 <= j < i + 1 implies #[trigger] entries@[j].0
                    == self.entries@[j].0 && entries@[j].1@ == self.entries@[j].1@ by {
                    if j < i {
                        assert(entries@[j] == before[j]);
                    } else {
                        assert(entries@[j] == (e.0, w));
                    }
                }
            }
            i = i + 1;
        }
        let g = WaitForGraph { entries, model: Ghost(self.model@) };
        proof {
            assert(g.key_seq() =~= self.key_seq());
            if self.wf() {
                assert forall|j: int| 0 <= j < g.entries@.len() implies #[trigger] g.model@[
                    g.entries@[j].0.0] == g.entries@[j].1@ by {
                    assert(g.entries@[j].0 == self.entries@[j].0);
                    assert(self.model@[self.entries@[j].0.0] == self.entries@[j].1@);
                }
            }
        }
        g
    }
}

impl Default for WaitForGraph {
    fn default() -> (g: Self)
        ensures
            g.wf(),
            g@ == Map::<u32, WaitTarget>::empty(),
            g.order() == Seq::<u32>::empty(),
    {
        WaitForGraph::new()
    }
}

impl WaitForGraph {
    spec fn key_seq(&self) -> Seq<u32> {
        self.entries@.map_values(|e: (RobotId, WaitingFor)| e.0.0)
    }

    /// The waiting robots, by raw id, in the order they started waiting.
    pub closed spec fn order(&self) -> Seq<u32> {
        self.key_seq()
    }

    /// The waiting robots are finitely many, each listed once in the order.
    pub proof fn lemma_order_lists_waiting(&self)
        requires
            self.wf(),
        ensures
            self@.dom().finite(),
            self@.dom().len() == self.order().len(),
            self.order().no_duplicates(),
            forall|k: u32| #[trigger] self@.contains_key(k) <==> self.order().contains(k),
    {
        self.lemma_count();
    }

    /// The graph's internal invariant: one entry per waiting robot, and the
    /// entries agree with the view.
    pub closed spec fn wf(&self) -> bool {
        &&& self.key_seq().no_duplicates()
        &&& self.model@.dom() == self.key_seq().to_set()
        &&& forall|i: int|
            0 <= i < self.entries@.len() ==> #[trigger] self.model@[self.entries@[i].0.0]
                == self.entries@[i].1@
    }

    proof fn lemma_count(&self)
        requires
            self.wf(),
        ensures
            self@.dom().finite(),
            self@.dom().len() == self.entries@.len(),
    {
        self.key_seq().unique_seq_to_set();
    }

    /// Creates an empty graph.
    pub fn new() -> (g: Self)
        ensures
            g.wf(),
            g@ == Map::<u32, WaitTarget>::empty(),
            g.order() == Seq::<u32>::empty(),
    {
        let g = WaitForGraph { entries: Vec::new(), model: Ghost(Map::empty()) };
        assert(g.key_seq() =~= Seq::<u32>::empty());
        assert(g@.dom() =~= g.key_seq().to_set());
        g
    }

    fn find_index(&self, robot: RobotId) -> (r: Option<usize>)
        requires
            self.wf(),
        ensures
            match r {
                Some(i) => {
                    &&& i < self.entries@.len()
                    &&& self.entries@[i as int].0.0 == robot.0
                    &&& self@.contains_key(robot.0)
                    &&& self@[robot.0] == self.entries@[i as int].1@
                },
                None => !self@.contains_key(robot.0),
            },
    {
        let mut i: usize = 0;
        while i < self.entries.len()
            invariant
                self.wf(),
                i <= self.entries@.len(),
                forall|j: int| 0 <= j < i ==> self.entries@[j].0.0 != robot.0,
            decreases self.entries@.len() - i,
        {
            if self.entries[i].0.0 == robot.0 {
                proof {
                    assert(self.key_seq()[i as int] == robot.0);
                    assert(self.key_seq().to_set().contains(robot.0));
                }
                return Some(i);
            }
            i = i + 1;
        }
        proof {
            if self@.contains_key(robot.0) {
                assert(self.key_seq().to_set().contains(robot.0));
                let j = choose|j: int| 0 <= j < self.key_seq().len() && self.key_seq()[j] == robot.0;
                assert(self.entries@[j].0.0 == robot.0);
            }
        }
        None
    }

    /// Records that `robot` waits for `waiting_for`, replacing what it waited for before.
    pub fn add_wait(&mut self, robot: RobotId, waiting_for: WaitingFor)
        requires
            old(self).wf(),
        ensures
            final(self).wf(),
            final(self)@ == old(self)@.insert(robot.0, waiting_for@),
            final(self).order() == if old(self)@.contains_key(robot.0) {
                old(self).order()
            } else {
                old(self).order().push(robot.0)
            },
            final(self)@.len() == old(self)@.len() + if old(self)@.contains_key(robot.0) {
                0int
            } else {
                1int
            },
            call_step(
                old(self)@,
                old(self).order(),
                WaitCall::Add { robot: robot.0, target: waiting_for@ },
                final(self)@,
                final(self).order(),
            ),
    {
        proof {
            self.lemma_count();
        }
        let ghost old_keys = self.key_seq();
        let ghost new_model = self.model@.insert(robot.0, waiting_for@);
        match self.find_index(robot) {
            Some(i) => {
                let ghost old_entries = self.entries@;
                self.entries.set(i, (robot, waiting_for));
                proof {
                    assert(self.key_seq() =~= old_keys);
                    assert(new_model.dom() =~= self.key_seq().to_set());
                    assert forall|j: int| 0 <= j < self.entries@.len() implies #[trigger] new_model[
                        self.entries@[j].0.0] == self.entries@[j].1@ by {
                        if j != i {
                            assert(old_keys[j] != old_keys[i as int]);
                            assert(self.model@[old_entries[j].0.0] == old_entries[j].1@);
                        }
                    }
                }
            },
            None => {
                let ghost old_entries = self.entries@;
                self.entries.push((robot, waiting_for));
                proof {
                    assert(self.key_seq() =~= old_keys.push(robot.0));
                    assert(!old_keys.to_set().contains(robot.0));
                    assert(!old_keys.contains(robot.0));
                    assert forall|a: int, b: int|
                        0 <= a < b < self.key_seq().len() implies self.key_seq()[a]
                        != self.key_seq()[b] by {
                        if b == old_keys.len() {
                            assert(old_keys[a] == self.key_seq()[a]);
                        }
                    }
                    assert(new_model.dom() =~= self.key_seq().to_set());
                    assert forall|j: int| 0 <= j < self.entries@.len() implies #[trigger] new_model[
                        self.entries@[j].0.0] == self.entries@[j].1@ by {
                        if j < old_entries.len() {
                            assert(old_keys[j] != robot.0);
                            assert(self.model@[old_entries[j].0.0] == old_entries[j].1@);
                        }
                    }
                }
            },
        }
        self.model = Ghost(new_model);
        proof {
            self.lemma_count();
        }
    }

    /// Removes `robot`'s wait, if it has one.
    pub fn remove_wait(&mut self, robot: RobotId)
        requires
            old(self).wf(),
        ensures
            final(self).wf(),
            final(self)@ == old(self)@.remove(robot.0),
            !old(self)@.contains_key(robot.0) ==> final(self).order() == old(self).order(),
            old(self)@.contains_key(robot.0) ==> exists|i: int|
                0 <= i < old(self).order().len() && old(self).order()[i] == robot.0
                    && final(self).order() == old(self).order().remove(i),
            call_step(
                old(self)@,
                old(self).order(),
                WaitCall::Remove { robot: robot.0 },
                final(self)@,
                final(self).order(),
            ),
    {
        let ghost old_keys = self.key_seq();
        let ghost old_entries = self.entries@;
        let ghost new_model = self.model@.remove(robot.0);
        let ghost mut at: int = 0;
        match self.find_index(robot) {
            Some(i) => {
                proof {
                    at = i as int;
                }
                self.entries.remove(i);
                proof {
                    assert(self.key_seq() =~= old_keys.remove(i as int));
                    assert(old_keys[i as int] == robot.0);
                    assert forall|a: int, b: int|
                        0 <= a < b < self.key_seq().len() implies self.key_seq()[a]
                        != self.key_seq()[b] by {
                        let a0 = if a < i { a } else { a + 1 };
                        let b0 = if b < i { b } else { b + 1 };
                        assert(old_keys[a0] != old_keys[b0]);
                    }
                    assert forall|j: int| 0 <= j < self.entries@.len() implies #[trigger] new_model[
                        self.entries@[j].0.0] == self.entries@[j].1@ by {
                        let j0 = if j < i { j } else { j + 1 };
                        assert(old_keys[j0] != old_keys[i as int]);
                        assert(self.model@[old_entries[j0].0.0] == old_entries[j0].1@);
                    }
                    assert forall|k: u32| new_model.dom().contains(k) <==> self.key_seq().to_set().contains(k) by {
                        if new_model.dom().contains(k) {
                            assert(old_keys.to_set().contains(k));
                            let j0 = choose|j0: int| 0 <= j0 < old_keys.len() && old_keys[j0] == k;
                            assert(j0 != i);
                            let j = if j0 < i { j0 } else { j0 - 1 };
                            assert(self.key_seq()[j] == k);
                        }
                        if self.key_seq().to_set().contains(k) {
                            let j = choose|j: int| 0 <= j < self.key_seq().len() && self.key_seq()[j] == k;
                            let j0 = if j < i { j } else { j + 1 };
                            assert(old_keys[j0] == k);
                            assert(old_keys[j0] != old_keys[i as int]);
                        }
                    }
                }
            },
            None => {
                assert(new_model =~= self.model@);
            },
        }
        self.model = Ghost(new_model);
        proof {
            assert(self@.dom() =~= self.key_seq().to_set());
            if old(self)@.contains_key(robot.0) {
                assert(old(self).order()[at] == robot.0);
                assert(self.order() == old(self).order().remove(at));
            }
        }
    }

    /// Whether `robot` is currently waiting.
    pub fn is_waiting(&self, robot: RobotId) -> (r: bool)
        requires
            self.wf(),
        ensures
            r == self@.contains_key(robot.0),
    {
        self.find_index(robot).is_some()
    }

    /// What `robot` waits for, if anything.
    pub fn get_wait(&self, robot: RobotId) -> (r: Option<&WaitingFor>)
        requires
            self.wf(),
        ensures
            match r {
                Some(w) => self@.contains_key(robot.0) && w@ == self@[robot.0],
                None => !self@.contains_key(robot.0),
            },
    {
        match self.find_index(robot) {
            Some(i) => Some(&self.entries[i].1),
            None => None,
        }
    }

    /// The number of robots currently waiting.
    pub fn waiting_count(&self) -> (r: usize)
        requires
            self.wf(),
        ensures
            r == self@.len(),
    {
        proof {
            self.lemma_count();
        }
        self.entries.len()
    }

    /// Removes every wait.
    pub fn clear(&mut self)
        requires
            old(self).wf(),
        ensures
            final(self).wf(),
            final(self)@ == Map::<u32, WaitTarget>::empty(),
            final(self).order() == Seq::<u32>::empty(),
            call_step(
                old(self)@,
                old(self).order(),
                WaitCall::Clear,
                final(self)@,
                final(self).order(),
            ),
    {
        self.entries.clear();
        self.model = Ghost(Map::empty());
        proof {
            assert(self.key_seq() =~= Seq::<u32>::empty());
            assert(self@.dom() =~= self.key_seq().to_set());
        }
    }

    /// The first position of `target` in `path`.
    fn position_of(path: &Vec<RobotId>, target: RobotId) -> (r: Option<usize>)
        ensures
            match r {
                Some(i) => i < path@.len() && path@[i as int].0 == target.0 && forall|j: int|
                    0 <= j < i ==> path@[j].0 != target.0,
                None => forall|j: int| 0 <= j < path@.len() ==> path@[j].0 != target.0,
            },
    {
        let mut idx: usize = 0;
        while idx < path.len()
            invariant
                idx <= path@.len(),
                forall|j: int| 0 <= j < idx ==> path@[j].0 != target.0,
            decreases path@.len() - idx,
        {
            if path[idx].0 == target.0 {
                return Some(idx);
            }
            idx = idx + 1;
        }
        None
    }

    /// Copies `path[from..]`.
    fn copy_suffix(path: &Vec<RobotId>, from: usize) -> (r: Vec<RobotId>)
        requires
            from <= path@.len(),
        ensures
            r@ == path@.subrange(from as int, path@.len() as int),
    {
        let mut r: Vec<RobotId> = Vec::new();
        let mut i = from;
        while i < path.len()
            invariant
                from <= i <= path@.len(),
                r@ == path@.subrange(from as int, i as int),
            decreases path@.len() - i,
        {
            r.push(path[i]);
            i = i + 1;
        }
        r
    }

    /// The DFS behind cycle detection. `path` is the walk from `start` to the
    /// robot before `current`; `visited` holds robots already known to lead
    /// into no deadlock.
    fn dfs_find_cycle(
        &self,
        current: RobotId,
        visited: &mut HashSet<u32>,
        path: &mut Vec<RobotId>,
        path_set: &mut HashSet<u32>,
        start: RobotId,
    ) -> (r: Option<Vec<RobotId>>)
        requires
            self.wf(),
            self@.contains_key(current.0),
            old(path)@.len() == 0 ==> current == start,
            old(path)@.len() > 0 ==> old(path)@[0] == start && waits_on(
                self@,
                old(path)@.last().0,
                current.0,
            ),
            is_wait_walk(self@, raw_ids(old(path)@)),
            raw_ids(old(path)@).no_duplicates(),
            forall|i: int|
                0 <= i < old(path)@.len() ==> self@.contains_key(#[trigger] old(path)@[i].0),
            old(path_set)@ == raw_ids(old(path)@).to_set(),
            forall|v: u32| #[trigger] old(visited)@.contains(v) ==> !reaches_deadlock(self@, v),
        ensures
            forall|v: u32| #[trigger] final(visited)@.contains(v) ==> !reaches_deadlock(self@, v),
            r is None ==> {
                &&& final(path)@ == old(path)@
                &&& final(path_set)@ == old(path_set)@
                &&& final(visited)@.contains(current.0)
            },
            r matches Some(c) ==> is_reported_cycle(self@, raw_ids(c@)),
            (r is Some) == reaches_deadlock(self@, current.0),
            r matches Some(c) ==> raw_ids(c@) == search_walk(
                self@,
                start.0,
                raw_ids(old(path)@),
                current.0,
                (self.entries@.len() + 1 - old(path)@.len()) as nat,
            ),
        decreases self.entries@.len() - old(path)@.len(),
    {
        if visited.contains(&current.0) {
            return None;
        }
        let ghost g = self@;
        let ghost p0 = raw_ids(path@);
        let ghost fuel = (self.entries@.len() + 1 - old(path)@.len()) as nat;
        if path_set.contains(&current.0) {
            // `current` closes a cycle with the part of the path from its first visit.
            proof {
                assert(p0.to_set().contains(current.0));
            }
            let idx = match Self::position_of(path, current) {
                Some(idx) => idx,
                None => {
                    proof {
                        let j = choose|j: int| 0 <= j < p0.len() && p0[j] == current.0;
                        assert(path@[j].0 == current.0);
                    }
                    return None;
                },
            };
            let c = Self::copy_suffix(path, idx);
            proof {
                let cs = raw_ids(c@);
                assert(cs =~= p0.subrange(idx as int, p0.len() as int));
                assert forall|i: int| 0 <= i < cs.len() - 1 implies #[trigger] wait_step(g, cs, i) by {
                    assert(wait_step(g, p0, i + idx));
                }
                assert(cs.last() == p0.last());
                assert forall|j: int| 0 <= j < idx implies p0[j] != current.0 by {
                    assert(path@[j].0 != current.0);
                }
                lemma_first_position(p0, current.0, idx as int);
                assert(p0.contains(current.0));
                let q = cs.push(current.0);
                assert(p0.last() == old(path)@.last().0);
                assert forall|i: int| 0 <= i < q.len() - 1 implies #[trigger] wait_step(g, q, i) by {
                    if i < cs.len() - 1 {
                        assert(wait_step(g, cs, i));
                    } else {
                        assert(q[i] == p0.last());
                        assert(q[i + 1] == current.0);
                    }
                }
                assert(q[0] == current.0);
                assert(q.last() == current.0);
                assert(q[0] == q.last());
                assert(is_lasso_from(g, current.0, q));
            }
            return Some(c);
        }
        // The path grows by `current`; it stays duplicate-free and within the waiting robots.

        proof {
            self.lemma_count();
            p0.unique_seq_to_set();
            let p1 = p0.push(current.0);
            assert(p1.no_duplicates());
            p1.unique_seq_to_set();
            assert forall|k: u32| p1.to_set().contains(k) implies g.dom().contains(k) by {
                let j = choose|j: int| 0 <= j < p1.len() && p1[j] == k;
                if j < p0.len() {
                    assert(g.contains_key(path@[j].0));
                }
            }
            vstd::set_lib::lemma_len_subset(p1.to_set(), g.dom());
        }
        path.push(current);
        path_set.insert(current.0);
        let ghost p1 = raw_ids(path@);
        proof {
            assert(p1 =~= p0.push(current.0));
            assert(path_set@ =~= p1.to_set());
            assert forall|i: int| 0 <= i < p1.len() - 1 implies #[trigger] wait_step(g, p1, i) by {
                if i < p0.len() - 1 {
                    assert(wait_step(g, p0, i));
                } else {
                    assert(path@[i] == old(path)@.last());
                }
            }
        }
        let waiting = match self.get_wait(current) {
            Some(w) => w,
            None => {
                return None;
            },
        };
        let blockers = waiting.blockers();
        let mut i: usize = 0;
        proof {
            assert(g[current.0].blocker_ids().subrange(0, blockers@.len() as int)
                =~= g[current.0].blocker_ids());
            assert(p1.len() <= self.entries@.len());
        }
        while i < blockers.len()
            invariant
                self.wf(),
                g == self@,
                g.contains_key(current.0),
                blockers@ == g[current.0].blocker_list(),
                i <= blockers@.len(),
                path@ == old(path)@.push(current),
                raw_ids(path@) == p1,
                path_set@ == p1.to_set(),
                p1.no_duplicates(),
                is_wait_walk(g, p1),
                path@[0] == start,
                forall|j: int| 0 <= j < path@.len() ==> g.contains_key(#[trigger] path@[j].0),
                forall|v: u32| #[trigger] visited@.contains(v) ==> !reaches_deadlock(g, v),
                forall|j: int| 0 <= j < i ==> !reaches_deadlock(g, #[trigger] blockers@[j].0),
                self.entries@.len() - path@.len() < self.entries@.len() - old(path)@.len(),
                self.entries@.len() >= path@.len(),
                !p0.contains(current.0),
                p1 == p0.push(current.0),
                p0 == raw_ids(old(path)@),
                fuel == (self.entries@.len() + 1 - old(path)@.len()) as nat,
                fuel > 0,
                first_leading(g, g[current.0].blocker_ids()) == first_leading(
                    g,
                    g[current.0].blocker_ids().subrange(i as int, blockers@.len() as int),
                ),
            decreases blockers@.len() - i,
        {
            let blocker = blockers[i];
            proof {
                assert(raw_ids(blockers@)[i as int] == blocker.0);
                assert(waits_on(g, current.0, blocker.0));
            }
            if blocker.0 == start.0 && path.len() > 1 {
                path.push(start);
                let c = Self::copy_suffix(path, 0);
                proof {
                    let cs = raw_ids(c@);
                    assert(cs =~= p1.push(start.0));
                    assert forall|k: int| 0 <= k < cs.len() - 1 implies #[trigger] wait_step(g, cs, k) by {
                        if k < p1.len() - 1 {
                            assert(wait_step(g, p1, k));
                        }
                    }
                    assert(cs[0] == start.0);
                    let q = seq![current.0] + p1;
                    assert forall|k: int| 0 <= k < q.len() - 1 implies #[trigger] wait_step(g, q, k) by {
                        if k > 0 {
                            assert(wait_step(g, p1, k - 1));
                        }
                    }
                    assert(q[0] == q.last());
                    assert(is_lasso_from(g, current.0, q));
                    assert(cs[0] == cs.last());
                    assert(is_lasso_from(g, start.0, cs));
                    let bids = g[current.0].blocker_ids();
                    assert(bids.subrange(i as int, blockers@.len() as int)[0] == start.0);
                    assert(!p0.contains(current.0));
                    assert(first_leading(g, bids.subrange(i as int, blockers@.len() as int)) == Some(
                        start.0,
                    ));
                    assert(first_leading(g, bids) == Some(start.0));
                    assert(search_walk(g, start.0, p0, current.0, fuel) == p1.push(start.0));
                }
                return Some(c);
            }
            if self.is_waiting(blocker) {
                match self.dfs_find_cycle(blocker, visited, path, path_set, start) {
                    Some(c) => {
                        proof {
                            lemma_reaches_back(g, current.0, blocker.0);
                            let bids = g[current.0].blocker_ids();
                            assert(bids.subrange(i as int, blockers@.len() as int)[0] == blocker.0);
                            assert(!p0.contains(current.0));
                            assert(first_leading(g, bids.subrange(i as int, blockers@.len() as int))
                                == Some(blocker.0));
                            assert(first_leading(g, bids) == Some(blocker.0));
                            assert(!(blocker.0 == start.0 && p1.len() > 1));
                            assert(search_walk(g, start.0, p0, current.0, fuel) == search_walk(
                                g,
                                start.0,
                                p1,
                                blocker.0,
                                (fuel - 1) as nat,
                            ));
                        }
                        return Some(c);
                    },
                    None => {},
                }
            } else {
                proof {
                    lemma_idle_reaches_nothing(g, blocker.0);
                }
            }
            proof {
                lemma_first_leading_skips(g, g[current.0].blocker_ids(), i as int);
            }
            i = i + 1;
        }
        proof {
            assert forall|b: u32| #[trigger] waits_on(g, current.0, b) implies !reaches_deadlock(
                g,
                b,
            ) by {
                let j = choose|j: int|
                    0 <= j < blockers@.len() && raw_ids(blockers@)[j] == b;
                assert(blockers@[j].0 == b);
            }
            lemma_clear_successors(g, current.0);
        }
        path.pop();
        path_set.remove(&current.0);
        visited.insert(current.0);
        proof {
            assert(path@ =~= old(path)@);
            assert(path_set@ =~= old(path_set)@) by {
                assert(!p0.contains(current.0));
                assert forall|k: u32| path_set@.contains(k) <==> old(path_set)@.contains(k) by {
                    if k != current.0 && p1.to_set().contains(k) {
                        let j = choose|j: int| 0 <= j < p1.len() && p1[j] == k;
                        assert(j < p0.len());
                        assert(p0[j] == k);
                    }
                    if old(path_set)@.contains(k) {
                        let j = choose|j: int| 0 <= j < p0.len() && p0[j] == k;
                        assert(p1[j] == k);
                    }
                }
            }
        }
        None
    }

    /// Searches for a deadlock reachable from `start` by a depth-first walk.
    fn find_cycle_from(&self, start: RobotId) -> (r: Option<Vec<RobotId>>)
        requires
            self.wf(),
            self@.contains_key(start.0),
        ensures
            r is None ==> !reaches_deadlock(self@, start.0),
            r matches Some(c) ==> is_reported_cycle(self@, raw_ids(c@)),
            (r is Some) == reaches_deadlock(self@, start.0),
            r matches Some(c) ==> raw_ids(c@) == search_walk(
                self@,
                start.0,
                Seq::empty(),
                start.0,
                (self.entries@.len() + 1) as nat,
            ),
    {
        let mut visited: HashSet<u32> = HashSet::new();
        let mut path: Vec<RobotId> = Vec::new();
        let mut path_set: HashSet<u32> = HashSet::new();
        proof {
            assert(raw_ids(path@) =~= Seq::<u32>::empty());
            assert(path_set@ =~= raw_ids(path@).to_set());
        }
        let r = self.dfs_find_cycle(start, &mut visited, &mut path, &mut path_set, start);
        proof {
            assert(raw_ids(Seq::<RobotId>::empty()) =~= Seq::<u32>::empty());
        }
        r
    }

    /// Looks for a deadlock.
    ///
    /// Returns a cycle of robots if the graph holds a deadlock, and `None` if
    /// it holds none. The search starts from the first robot, in the order
    /// the robots started waiting, that leads into a deadlock, and follows
    /// from each robot the first robot it waits on that leads into one. A
    /// cycle that passes through the robot the search started from is
    /// reported with that robot at both ends (or alone, when it waits on
    /// itself).
    pub fn detect_cycle(&self) -> (r: Option<Vec<RobotId>>)
        requires
            self.wf(),
        ensures
            r is None <==> !has_deadlock(self@),
            r matches Some(c) ==> is_reported_cycle(self@, raw_ids(c@)),
            (match r {
                Some(c) => Some(raw_ids(c@)),
                None => None,
            }) == detected_cycle(self@, self.order()),
            r matches Some(c) ==> {
                let s = first_leading(self@, self.order())->0;
                raw_ids(c@).contains(s) ==> (c@.len() == 1 || (c@.len() >= 3 && c@[0].0 == s
                    && c@.last().0 == s))
            },
    {
        let mut i: usize = 0;
        proof {
            self.lemma_count();
            assert(self.key_seq().subrange(0, self.key_seq().len() as int) =~= self.key_seq());
        }
        while i < self.entries.len()
            invariant
                self.wf(),
                i <= self.entries@.len(),
                forall|j: int| 0 <= j < i ==> !reaches_deadlock(self@, #[trigger] self.entries@[j].0.0),
                first_leading(self@, self.key_seq()) == first_leading(
                    self@,
                    self.key_seq().subrange(i as int, self.key_seq().len() as int),
                ),
            decreases self.entries@.len() - i,
        {
            let robot = self.entries[i].0;
            proof {
                assert(self.key_seq()[i as int] == robot.0);
            }
            match self.find_cycle_from(robot) {
                Some(c) => {
                    proof {
                        lemma_reported_cycle_is_deadlock(self@, raw_ids(c@));
                        assert(self.key_seq().subrange(i as int, self.key_seq().len() as int)[0]
                            == robot.0);
                        assert(first_leading(self@, self.key_seq()) == Some(robot.0));
                        assert(self.key_seq().len() == self.entries@.len());
                        lemma_search_walk_shape(
                            self@,
                            robot.0,
                            Seq::empty(),
                            robot.0,
                            (self.entries@.len() + 1) as nat,
                        );
                        let w = raw_ids(c@);
                        if w.contains(robot.0) {
                            if w == seq![robot.0] {
                                assert(c@.len() == 1);
                            } else {
                                assert(c@[0].0 == w[0]);
                                assert(c@.last().0 == w.last());
                            }
                        }
                    }
                    return Some(c);
                },
                None => {
                    proof {
                        lemma_first_leading_skips(self@, self.key_seq(), i as int);
                    }
                },
            }
            i = i + 1;
        }
        proof {
            assert forall|k: u32| self@.contains_key(k) implies !reaches_deadlock(self@, k) by {
                let j = choose|j: int| 0 <= j < self.key_seq().len() && self.key_seq()[j] == k;
                assert(self.entries@[j].0.0 == k);
            }
            lemma_all_clear_no_deadlock(self@);
        }
        None
    }

    /// Whether `robot`'s id is among the robots of `reached`.
    fn listed(reached: &Vec<(RobotId, Vec<RobotId>)>, robot: RobotId) -> (r: bool)
        ensures
            r == reached_ids(reached@).contains(robot.0),
    {
        let mut i: usize = 0;
        while i < reached.len()
            invariant
                i <= reached@.len(),
                forall|j: int| 0 <= j < i ==> reached@[j].0.0 != robot.0,
            decreases reached@.len() - i,
        {
            if reached[i].0.0 == robot.0 {
                assert(reached_ids(reached@)[i as int] == robot.0);
                return true;
            }
            i = i + 1;
        }
        proof {
            if reached_ids(reached@).contains(robot.0) {
                let j = choose|j: int| 0 <= j < reached@.len() && reached_ids(reached@)[j] == robot.0;
                assert(reached@[j].0.0 == robot.0);
            }
        }
        false
    }

    /// A deadlock cycle from `v` back to `v`, if there is one: a search of
    /// the robots `v` leads to, each kept with a walk from `v` to it.
    fn cycle_through(&self, v: RobotId) -> (r: Option<Vec<RobotId>>)
        requires
            self.wf(),
            self@.contains_key(v.0),
        ensures
            (r is Some) == cycle_from(self@, v.0),
            r matches Some(c) ==> is_deadlock_cycle(self@, raw_ids(c@)) && c@[0] == v,
            (match r {
                Some(c) => Some(raw_ids(c@)),
                None => None,
            }) == cycle_search(self@, v.0, self.entries@.len() as int),
    {
        let ghost g = self@;
        let ghost n = self.entries@.len() as int;
        proof {
            self.lemma_count();
        }
        let mut reached: Vec<(RobotId, Vec<RobotId>)> = Vec::new();
        let mut first: Vec<RobotId> = Vec::new();
        first.push(v);
        reached.push((v, first));
        proof {
            assert(reached_ids(reached@) =~= seq![v.0]);
            assert(raw_ids(reached@[0].1@) =~= seq![v.0]);
            assert(abstract_reached(reached@) =~= seq![(v.0, seq![v.0])]);
        }
        let mut idx: usize = 0;
        while idx < reached.len()
            invariant
                self.wf(),
                g == self@,
                g.contains_key(v.0),
                g.dom().finite(),
                g.dom().len() == self.entries@.len(),
                idx <= reached@.len(),
                reached@.len() <= self.entries@.len(),
                reached@.len() > 0,
                reached@[0].0 == v,
                reached_ids(reached@).no_duplicates(),
                forall|j: int| 0 <= j < reached@.len() ==> g.contains_key(#[trigger] reached@[j].0.0),
                forall|j: int| 0 <= j < reached@.len() ==> #[trigger] walk_to(g, v.0, reached@[j]),
                forall|x: u32, b: u32|
                    reached_ids(reached@).subrange(0, idx as int).contains(x) && #[trigger] waits_on(
                        g,
                        x,
                        b,
                    ) ==> b != v.0 && (g.contains_key(b) ==> reached_ids(reached@).contains(b)),
                n == self.entries@.len(),
                cycle_search(g, v.0, n) == through_search(g, v.0, n, abstract_reached(reached@), idx as int, 0),
            decreases self.entries@.len() - idx,
        {
            let u = reached[idx].0;
            assert(g.contains_key(reached@[idx as int].0.0));
            let wait = match self.get_wait(u) {
                Some(w) => w,
                None => {
                    return None;
                },
            };
            let bl = wait.blockers();
            let mut k: usize = 0;
            assert(abstract_reached(reached@)[idx as int].1 == raw_ids(reached@[idx as int].1@));
            while k < bl.len()
                invariant
                    self.wf(),
                    g == self@,
                    g.contains_key(v.0),
                    g.dom().finite(),
                    g.dom().len() == self.entries@.len(),
                    idx < reached@.len(),
                    reached@.len() <= self.entries@.len(),
                    reached@[0].0 == v,
                    reached@[idx as int].0 == u,
                    g.contains_key(u.0),
                    bl@ == g[u.0].blocker_list(),
                    k <= bl@.len(),
                    reached_ids(reached@).no_duplicates(),
                    forall|j: int| 0 <= j < reached@.len() ==> g.contains_key(#[trigger] reached@[j].0.0),
                    forall|j: int| 0 <= j < reached@.len() ==> #[trigger] walk_to(g, v.0, reached@[j]),
                    forall|x: u32, b: u32|
                        reached_ids(reached@).subrange(0, idx as int).contains(x)
                            && #[trigger] waits_on(g, x, b) ==> b != v.0 && (g.contains_key(b)
                            ==> reached_ids(reached@).contains(b)),
                    forall|jj: int|
                        0 <= jj < k ==> #[trigger] bl@[jj].0 != v.0 && (g.contains_key(bl@[jj].0)
                            ==> reached_ids(reached@).contains(bl@[jj].0)),
                    n == self.entries@.len(),
                    cycle_search(g, v.0, n) == through_search(
                        g,
                        v.0,
                        n,
                        abstract_reached(reached@),
                        idx as int,
                        k as int,
                    ),
                    abstract_reached(reached@)[idx as int].1 == raw_ids(reached@[idx as int].1@),
                decreases bl@.len() - k,
            {
                let b = bl[k];
                assert(raw_ids(bl@)[k as int] == b.0);
                assert(waits_on(g, u.0, b.0));
                assert(walk_to(g, v.0, reached@[idx as int]));
                let ghost a = abstract_reached(reached@);
                proof {
                    assert(a[idx as int].0 == u.0);
                    assert(blockers_of(g, u.0) == raw_ids(bl@));
                    assert(a.map_values(|e: (u32, Seq<u32>)| e.0) =~= reached_ids(reached@));
                }
                if b.0 == v.0 {
                    let mut c = copy_robots(&reached[idx].1);
                    c.push(v);
                    proof {
                        let w = raw_ids(reached@[idx as int].1@);
                        let cs = raw_ids(c@);
                        assert(cs =~= w.push(v.0));
                        assert forall|i: int| 0 <= i < cs.len() - 1 implies #[trigger] wait_step(
                            g,
                            cs,
                            i,
                        ) by {
                            if i < w.len() - 1 {
                                assert(wait_step(g, w, i));
                            }
                        }
                        assert(is_deadlock_cycle(g, cs));
                        assert(cs[0] == v.0);
                        assert(through_search(g, v.0, n, a, idx as int, k as int) == Some(w.push(v.0)));
                    }
                    return Some(c);
                }
                if self.is_waiting(b) && !Self::listed(&reached, b) {
                    let mut w = copy_robots(&reached[idx].1);
                    w.push(b);
                    let ghost before = reached@;
                    proof {
                        let ids = reached_ids(before).push(b.0);
                        assert(ids.no_duplicates());
                        ids.unique_seq_to_set();
                        assert forall|x: u32| ids.to_set().contains(x) implies g.dom().contains(x) by {
                            let j = choose|j: int| 0 <= j < ids.len() && ids[j] == x;
                            if j < before.len() {
                                assert(g.contains_key(before[j].0.0));
                            }
                        }
                        vstd::set_lib::lemma_len_subset(ids.to_set(), g.dom());
                        let wr = raw_ids(before[idx as int].1@);
                        let ws = raw_ids(w@);
                        assert(ws =~= wr.push(b.0));
                        assert forall|i: int| 0 <= i < ws.len() - 1 implies #[trigger] wait_step(
                            g,
                            ws,
                            i,
                        ) by {
                            if i < wr.len() - 1 {
                                assert(wait_step(g, wr, i));
                            }
                        }
                    }
                    reached.push((b, w));
                    proof {
                        assert(abstract_reached(reached@) =~= a.push((b.0, a[idx as int].1.push(b.0))));
                        assert(through_search(g, v.0, n, a, idx as int, k as int) == through_search(
                            g,
                            v.0,
                            n,
                            abstract_reached(reached@),
                            idx as int,
                            k + 1,
                        ));
                        assert(abstract_reached(reached@)[idx as int].1 == raw_ids(
                            reached@[idx as int].1@,
                        ));
                        assert(reached_ids(reached@) =~= reached_ids(before).push(b.0));
                        assert(reached_ids(reached@).subrange(0, idx as int) =~= reached_ids(
                            before,
                        ).subrange(0, idx as int));
                        assert forall|j: int| 0 <= j < reached@.len() implies #[trigger] walk_to(
                            g,
                            v.0,
                            reached@[j],
                        ) by {
                            if j < before.len() {
                                assert(reached@[j] == before[j]);
                            }
                        }
                        assert forall|j: int| 0 <= j < reached@.len() implies g.contains_key(
                            #[trigger] reached@[j].0.0,
                        ) by {
                            if j < before.len() {
                                assert(reached@[j] == before[j]);
                            }
                        }
                        assert(reached_ids(reached@)[before.len() as int] == b.0);
                        assert forall|x: u32| #[trigger]
                            reached_ids(before).contains(x) implies reached_ids(reached@).contains(
                            x,
                        ) by {
                            let j = choose|j: int|
                                0 <= j < before.len() && reached_ids(before)[j] == x;
                            assert(reached_ids(reached@)[j] == x);
                        }
                    }
                } else {
                    proof {
                        assert(through_search(g, v.0, n, a, idx as int, k as int) == through_search(
                            g,
                            v.0,
                            n,
                            a,
                            idx as int,
                            k + 1,
                        ));
                    }
                }
                k = k + 1;
            }
            proof {
                let a = abstract_reached(reached@);
                assert(a[idx as int].0 == u.0);
                assert(blockers_of(g, u.0) == raw_ids(bl@));
                assert(through_search(g, v.0, n, a, idx as int, k as int) == through_search(
                    g,
                    v.0,
                    n,
                    a,
                    idx + 1,
                    0,
                ));
                let ids = reached_ids(reached@);
                assert(ids.subrange(0, idx + 1) =~= ids.subrange(0, idx as int).push(u.0));
                assert forall|b: u32| #[trigger] waits_on(g, u.0, b) implies b != v.0 && (
                g.contains_key(b) ==> ids.contains(b)) by {
                    let jj = choose|jj: int| 0 <= jj < raw_ids(bl@).len() && raw_ids(bl@)[jj] == b;
                    assert(bl@[jj].0 == b);
                }
            }
            idx = idx + 1;
        }
        proof {
            let ids = reached_ids(reached@);
            assert(ids.subrange(0, idx as int) =~= ids);
            assert(ids[0] == v.0);
            lemma_closed_region(g, ids, v.0);
            assert(through_search(g, v.0, n, abstract_reached(reached@), idx as int, 0) is None);
        }
        None
    }

    /// Finds the deadlocks for analysis: every robot that lies on a deadlock
    /// cycle appears in one of the reported cycles. Each waiting robot, in
    /// the order the robots started waiting, that is in no cycle reported so
    /// far and lies on a deadlock cycle gets a cycle of its own, reported
    /// with that robot at both ends: the first one found by a breadth-first
    /// search from it, which takes the robots in the order reached and the
    /// robots each waits on in the order listed (`cycle_search`).
    ///
    /// The result is empty exactly when the graph holds no deadlock.
    pub fn detect_all_cycles(&self) -> (r: Vec<Vec<RobotId>>)
        requires
            self.wf(),
        ensures
            r@.len() == 0 <==> !has_deadlock(self@),
            forall|i: int| 0 <= i < r@.len() ==> is_deadlock_cycle(self@, raw_ids(#[trigger] r@[i]@)),
            forall|i: int| 0 <= i < r@.len() ==> is_reported_cycle(self@, raw_ids(#[trigger] r@[i]@)),
            forall|v: u32|
                #[trigger] on_deadlock(self@, v) ==> exists|i: int|
                    0 <= i < r@.len() && #[trigger] raw_ids(r@[i]@).contains(v),
            r@.map_values(|c: Vec<RobotId>| raw_ids(c@)) == all_cycles(
                self@,
                self.order(),
                self.order().len() as int,
            ),
    {
        let mut cycles: Vec<Vec<RobotId>> = Vec::new();
        proof {
            self.lemma_count();
            assert(cycles@.map_values(|c: Vec<RobotId>| raw_ids(c@)) =~= all_cycles(
                self@,
                self.key_seq(),
                0,
            ));
        }
        let mut found_robots: HashSet<u32> = HashSet::new();
        let mut i: usize = 0;
        while i < self.entries.len()
            invariant
                self.wf(),
                i <= self.entries@.len(),
                forall|j: int|
                    0 <= j < cycles@.len() ==> is_deadlock_cycle(self@, raw_ids(#[trigger] cycles@[j]@)),
                forall|x: u32|
                    #[trigger] found_robots@.contains(x) <==> exists|j: int|
                        0 <= j < cycles@.len() && #[trigger] raw_ids(cycles@[j]@).contains(x),
                forall|j: int|
                    0 <= j < i && #[trigger] cycle_from(self@, self.entries@[j].0.0)
                        ==> found_robots@.contains(self.entries@[j].0.0),
                self.key_seq().len() == self.entries@.len(),
                cycles@.map_values(|c: Vec<RobotId>| raw_ids(c@)) == all_cycles(
                    self@,
                    self.key_seq(),
                    i as int,
                ),
            decreases self.entries@.len() - i,
        {
            let robot = self.entries[i].0;
            let ghost prev = cycles@.map_values(|c: Vec<RobotId>| raw_ids(c@));
            proof {
                assert(self.key_seq()[i as int] == robot.0);
                assert(cycles_hold(prev, robot.0) == found_robots@.contains(robot.0)) by {
                    if cycles_hold(prev, robot.0) {
                        let j = choose|j: int| 0 <= j < prev.len() && #[trigger] prev[j].contains(robot.0);
                        assert(raw_ids(cycles@[j]@).contains(robot.0));
                    }
                    if found_robots@.contains(robot.0) {
                        let j = choose|j: int|
                            0 <= j < cycles@.len() && #[trigger] raw_ids(cycles@[j]@).contains(robot.0);
                        assert(prev[j].contains(robot.0));
                    }
                }
            }
            if !found_robots.contains(&robot.0) {
                match self.cycle_through(robot) {
                    Some(cycle) => {
                        let ghost before = found_robots@;
                        let ghost old_cycles = cycles@;
                        let mut k: usize = 0;
                        while k < cycle.len()
                            invariant
                                k <= cycle@.len(),
                                found_robots@ == before.union(
                                    raw_ids(cycle@).subrange(0, k as int).to_set(),
                                ),
                            decreases cycle@.len() - k,
                        {
                            found_robots.insert(cycle[k].0);
                            proof {
                                assert(raw_ids(cycle@).subrange(0, k + 1) =~= raw_ids(
                                    cycle@,
                                ).subrange(0, k as int).push(cycle@[k as int].0));
                                assert(found_robots@ =~= before.union(
                                    raw_ids(cycle@).subrange(0, k + 1).to_set(),
                                ));
                            }
                            k = k + 1;
                        }
                        proof {
                            assert(raw_ids(cycle@).subrange(0, cycle@.len() as int) =~= raw_ids(
                                cycle@,
                            ));
                        }
                        cycles.push(cycle);
                        proof {
                            assert forall|x: u32|
                                #[trigger] found_robots@.contains(x) <==> exists|j: int|
                                    0 <= j < cycles@.len() && #[trigger] raw_ids(
                                        cycles@[j]@,
                                    ).contains(x) by {
                                if found_robots@.contains(x) {
                                    if before.contains(x) {
                                        let j = choose|j: int|
                                            0 <= j < old_cycles.len() && #[trigger] raw_ids(
                                                old_cycles[j]@,
                                            ).contains(x);
                                        assert(cycles@[j] == old_cycles[j]);
                                    } else {
                                        assert(raw_ids(cycles@[old_cycles.len() as int]@).contains(
                                            x,
                                        ));
                                    }
                                }
                                if exists|j: int|
                                    0 <= j < cycles@.len() && #[trigger] raw_ids(
                                        cycles@[j]@,
                                    ).contains(x) {
                                    let j = choose|j: int|
                                        0 <= j < cycles@.len() && #[trigger] raw_ids(
                                            cycles@[j]@,
                                        ).contains(x);
                                    if j < old_cycles.len() {
                                        assert(cycles@[j] == old_cycles[j]);
                                        assert(before.contains(x));
                                    }
                                }
                            }
                            assert forall|j: int|
                                0 <= j < cycles@.len() implies is_deadlock_cycle(
                                self@,
                                raw_ids(#[trigger] cycles@[j]@),
                            ) by {
                                if j < old_cycles.len() {
                                    assert(cycles@[j] == old_cycles[j]);
                                }
                            }
                            assert(raw_ids(cycles@[old_cycles.len() as int]@)[0] == robot.0);
                            assert(found_robots@.contains(robot.0));
                            assert(cycles@.map_values(|c: Vec<RobotId>| raw_ids(c@)) =~= prev.push(
                                raw_ids(cycles@[old_cycles.len() as int]@),
                            ));
                        }
                    },
                    None => {},
                }
            }
            i = i + 1;
        }
        proof {
            self.lemma_count();
            assert forall|v: u32| #[trigger] on_deadlock(self@, v) implies exists|i: int|
                0 <= i < cycles@.len() && #[trigger] raw_ids(cycles@[i]@).contains(v) by {
                let (c, k) = choose|c: Seq<u32>, k: int|
                    #![trigger is_deadlock_cycle(self@, c), c[k]]
                    is_deadlock_cycle(self@, c) && 0 <= k < c.len() && c[k] == v;
                lemma_rotate_cycle(self@, c, k);
                lemma_reported_cycle_is_deadlock(self@, c);
                assert(self@.contains_key(c[k]));
                assert(self.key_seq().to_set().contains(v));
                let j = choose|j: int| 0 <= j < self.key_seq().len() && self.key_seq()[j] == v;
                assert(self.entries@[j].0.0 == v);
                assert(found_robots@.contains(v));
            }
            assert forall|j: int| 0 <= j < cycles@.len() implies is_reported_cycle(
                self@,
                raw_ids(#[trigger] cycles@[j]@),
            ) by {
                assert(is_deadlock_cycle(self@, raw_ids(cycles@[j]@)));
            }
            if cycles@.len() == 0 {
                if has_deadlock(self@) {
                    let c = choose|c: Seq<u32>| #[trigger] is_deadlock_cycle(self@, c);
                    assert(is_deadlock_cycle(self@, c) && 0 <= 0 < c.len() && c[0] == c[0]);
                    assert(on_deadlock(self@, c[0]));
                }
            } else {
                assert(is_deadlock_cycle(self@, raw_ids(cycles@[0]@)));
            }
        }
        cycles
    }
}

} // verus!
