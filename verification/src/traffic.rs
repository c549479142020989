//! Traffic bookkeeping: which robots occupy each edge and node, how many
//! each may hold, who waits for whom, and the direction of travel on edges.

use std::collections::HashMap;
use vstd::prelude::*;

use crate::deadlock::{has_deadlock, is_reported_cycle, raw_ids, WaitForGraph, WaitTarget, WaitingFor};
use crate::ids::{EdgeId, NodeId, RobotId};

verus! {

broadcast use {vstd::std_specs::hash::group_hash_axioms, vstd::seq_lib::group_seq_properties};

/// The robots (by raw id) recorded for key `k` of an occupancy table.
pub open spec fn occupants_in(m: Map<u32, Vec<RobotId>>, k: u32) -> Set<u32> {
    if m.contains_key(k) {
        raw_ids(m[k]@).to_set()
    } else {
        Set::empty()
    }
}

/// The capacity for key `k`: its own if one was set, the default otherwise.
pub open spec fn capacity_in(m: Map<u32, u32>, k: u32, default: u32) -> u32 {
    if m.contains_key(k) {
        m[k]
    } else {
        default
    }
}

/// Whether a robot may enter a resource: it is there already, or the
/// resource holds fewer robots than its capacity.
pub open spec fn may_enter(occupants: Set<u32>, capacity: u32, robot: u32) -> bool {
    occupants.contains(robot) || occupants.len() < capacity
}

/// A robot that has entered a resource may always enter it again.
pub proof fn law_occupant_may_reenter(occupants: Set<u32>, capacity: u32, robot: u32)
    ensures
        may_enter(occupants.insert(robot), capacity, robot),
{
}

/// Entering only when allowed keeps a resource within its capacity.
pub proof fn law_admitted_entry_respects_capacity(occupants: Set<u32>, capacity: u32, robot: u32)
    requires
        occupants.finite(),
        occupants.len() <= capacity,
        may_enter(occupants, capacity, robot),
    ensures
        occupants.insert(robot).len() <= capacity,
{
}

/// Leaving a resource undoes entering it, for a robot that was not there.
pub proof fn law_leave_undoes_enter(occupants: Set<u32>, robot: u32)
    requires
        !occupants.contains(robot),
    ensures
        occupants.insert(robot).remove(robot) == occupants,
{
    assert(occupants.insert(robot).remove(robot) =~= occupants);
}

/// Manages traffic flow and capacity constraints in the warehouse.
pub struct TrafficManager {
    edge_occupancy: HashMap<u32, Vec<RobotId>>,
    node_occupancy: HashMap<u32, Vec<RobotId>>,
    edge_capacity: HashMap<u32, u32>,
    node_capacity: HashMap<u32, u32>,
    default_edge_capacity: u32,
    default_node_capacity: u32,
    /// Wait-for graph for deadlock detection.
    pub wait_graph: WaitForGraph,
    /// Whether deadlock detection is enabled.
    pub deadlock_detection_enabled: bool,
    /// Current travel direction per edge (from, to); `None` if the edge is empty.
    edge_directions: HashMap<u32, Option<(NodeId, NodeId)>>,
}

/// No robot is listed twice for one resource.
pub open spec fn lists_unique(m: Map<u32, Vec<RobotId>>) -> bool {
    forall|k: u32| #[trigger] m.contains_key(k) ==> raw_ids(m[k]@).no_duplicates()
}

impl TrafficManager {
    /// The robots on edge `e`.
    pub closed spec fn edge_occupants(&self, e: u32) -> Set<u32> {
        occupants_in(self.edge_occupancy@, e)
    }

    /// The robots at node `n`.
    pub closed spec fn node_occupants(&self, n: u32) -> Set<u32> {
        occupants_in(self.node_occupancy@, n)
    }

    /// The capacity of edge `e`.
    pub closed spec fn edge_cap(&self, e: u32) -> u32 {
        capacity_in(self.edge_capacity@, e, self.default_edge_capacity)
    }

    /// The capacity of node `n`.
    pub closed spec fn node_cap(&self, n: u32) -> u32 {
        capacity_in(self.node_capacity@, n, self.default_node_capacity)
    }

    /// What each waiting robot waits for.
    pub closed spec fn waits(&self) -> Map<u32, WaitTarget> {
        self.wait_graph@
    }

    /// Whether deadlock detection is on.
    pub closed spec fn detection(&self) -> bool {
        self.deadlock_detection_enabled
    }

    /// The recorded travel directions, by raw edge id.
    pub closed spec fn directions(&self) -> Map<u32, Option<(NodeId, NodeId)>> {
        self.edge_directions@
    }

    /// The manager's internal invariant.
    pub closed spec fn wf(&self) -> bool {
        &&& lists_unique(self.edge_occupancy@)
        &&& lists_unique(self.node_occupancy@)
        &&& self.wait_graph.wf()
    }

    /// Edge occupancy and capacities agree between `self` and `o`.
    pub open spec fn same_edges(&self, o: &Self) -> bool {
        &&& forall|e: u32| #[trigger] self.edge_occupants(e) == o.edge_occupants(e)
        &&& forall|e: u32| #[trigger] self.edge_cap(e) == o.edge_cap(e)
    }

    /// Node occupancy and capacities agree between `self` and `o`.
    pub open spec fn same_nodes(&self, o: &Self) -> bool {
        &&& forall|n: u32| #[trigger] self.node_occupants(n) == o.node_occupants(n)
        &&& forall|n: u32| #[trigger] self.node_cap(n) == o.node_cap(n)
    }

    /// The waits, the detection switch and the directions agree between `self` and `o`.
    pub open spec fn same_waits(&self, o: &Self) -> bool {
        &&& self.waits() == o.waits()
        &&& self.detection() == o.detection()
        &&& self.directions() == o.directions()
    }

    /// A manager with no occupancy, no waits, detection off, and the given
    /// default capacities for edges and nodes.
    pub fn new(default_edge_capacity: u32, default_node_capacity: u32) -> (t: Self)
        ensures
            t.wf(),
            forall|e: u32| #[trigger] t.edge_occupants(e) == Set::<u32>::empty(),
            forall|n: u32| #[trigger] t.node_occupants(n) == Set::<u32>::empty(),
            forall|e: u32| #[trigger] t.edge_cap(e) == default_edge_capacity,
            forall|n: u32| #[trigger] t.node_cap(n) == default_node_capacity,
            t.waits() == Map::<u32, WaitTarget>::empty(),
            !t.detection(),
            t.directions() == Map::<u32, Option<(NodeId, NodeId)>>::empty(),
    {
        TrafficManager {
            edge_occupancy: HashMap::new(),
            node_occupancy: HashMap::new(),
            edge_capacity: HashMap::new(),
            node_capacity: HashMap::new(),
            default_edge_capacity,
            default_node_capacity,
            wait_graph: WaitForGraph::new(),
            deadlock_detection_enabled: false,
            edge_directions: HashMap::new(),
        }
    }

    /// Enables or disables deadlock detection.
    pub fn set_deadlock_detection(&mut self, enabled: bool)
        requires
            old(self).wf(),
        ensures
            final(self).wf(),
            final(self).same_edges(old(self)),
            final(self).same_nodes(old(self)),
            final(self).waits() == old(self).waits(),
            final(self).directions() == old(self).directions(),
            final(self).detection() == enabled,
    {
        self.deadlock_detection_enabled = enabled;
    }

    /// Sets the capacity of one edge.
    pub fn set_edge_capacity(&mut self, edge: EdgeId, capacity: u32)
        requires
            old(self).wf(),
        ensures
            final(self).wf(),
            forall|e: u32| #[trigger] final(self).edge_occupants(e) == old(self).edge_occupants(e),
            forall|e: u32|
                #[trigger] final(self).edge_cap(e) == if e == edge.0 {
                    capacity
                } else {
                    old(self).edge_cap(e)
                },
            final(self).same_nodes(old(self)),
            final(self).same_waits(old(self)),
    {
        self.edge_capacity.insert(edge.0, capacity);
    }

    /// Sets the capacity of one node.
    pub fn set_node_capacity(&mut self, node: NodeId, capacity: u32)
        requires
            old(self).wf(),
        ensures
            final(self).wf(),
            forall|n: u32| #[trigger] final(self).node_occupants(n) == old(self).node_occupants(n),
            forall|n: u32|
                #[trigger] final(self).node_cap(n) == if n == node.0 {
                    capacity
                } else {
                    old(self).node_cap(n)
                },
            final(self).same_edges(old(self)),
            final(self).same_waits(old(self)),
    {
        self.node_capacity.insert(node.0, capacity);
    }

    /// The robots listed in `list`, and whether `robot` is among them.
    fn list_contains(list: &Vec<RobotId>, robot: RobotId) -> (r: bool)
        ensures
            r == raw_ids(list@).contains(robot.0),
    {
        let mut i: usize = 0;
        while i < list.len()
            invariant
                i <= list@.len(),
                forall|j: int| 0 <= j < i ==> list@[j].0 != robot.0,
            decreases list@.len() - i,
        {
            if list[i].0 == robot.0 {
                proof {
                    assert(raw_ids(list@)[i as int] == robot.0);
                }
                return true;
            }
            i = i + 1;
        }
        proof {
            if raw_ids(list@).contains(robot.0) {
                let j = choose|j: int| 0 <= j < raw_ids(list@).len() && raw_ids(list@)[j] == robot.0;
                assert(list@[j].0 == robot.0);
            }
        }
        false
    }

    /// Whether `robot` may enter a resource with the given occupancy list and capacity.
    fn may_enter_list(list: Option<&Vec<RobotId>>, capacity: u32, robot: RobotId) -> (r: bool)
        requires
            list matches Some(l) ==> raw_ids(l@).no_duplicates(),
        ensures
            r == may_enter(
                match list {
                    Some(l) => raw_ids(l@).to_set(),
                    None => Set::<u32>::empty(),
                },
                capacity,
                robot.0,
            ),
    {
        match list {
            Some(set) => {
                proof {
                    raw_ids(set@).unique_seq_to_set();
                }
                if Self::list_contains(set, robot) {
                    return true;
                }
                (set.len() as u64) < (capacity as u64)
            },
            None => capacity > 0,
        }
    }

    /// Whether `robot` may enter `edge`: it is on it already, or the edge
    /// holds fewer robots than its capacity.
    pub fn can_enter_edge(&self, edge: EdgeId, robot: RobotId) -> (r: bool)
        requires
            self.wf(),
        ensures
            r == may_enter(self.edge_occupants(edge.0), self.edge_cap(edge.0), robot.0),
    {
        let capacity = match self.edge_capacity.get(&edge.0) {
            Some(c) => *c,
            None => self.default_edge_capacity,
        };
        Self::may_enter_list(self.edge_occupancy.get(&edge.0), capacity, robot)
    }

    /// Whether `robot` may enter `node`: it is at it already, or the node
    /// holds fewer robots than its capacity.
    pub fn can_enter_node(&self, node: NodeId, robot: RobotId) -> (r: bool)
        requires
            self.wf(),
        ensures
            r == may_enter(self.node_occupants(node.0), self.node_cap(node.0), robot.0),
    {
        let capacity = match self.node_capacity.get(&node.0) {
            Some(c) => *c,
            None => self.default_node_capacity,
        };
        Self::may_enter_list(self.node_occupancy.get(&node.0), capacity, robot)
    }

    /// Adds `robot` to the occupancy list of `key`.
    fn occupy(table: &mut HashMap<u32, Vec<RobotId>>, key: u32, robot: RobotId)
        requires
            lists_unique(old(table)@),
        ensures
            lists_unique(final(table)@),
            forall|k: u32|
                #[trigger] occupants_in(final(table)@, k) == if k == key {
                    occupants_in(old(table)@, k).insert(robot.0)
                } else {
                    occupants_in(old(table)@, k)
                },
    {
        let ghost old_table = table@;
        let mut list = match table.remove(&key) {
            Some(l) => l,
            None => Vec::new(),
        };
        proof {
            assert(raw_ids(list@).no_duplicates());
            assert(raw_ids(list@).to_set() == occupants_in(old_table, key)) by {
                if !old_table.contains_key(key) {
                    assert(raw_ids(list@) =~= Seq::<u32>::empty());
                }
            }
        }
        if !Self::list_contains(&list, robot) {
            let ghost before = raw_ids(list@);
            list.push(robot);
            proof {
                assert(raw_ids(list@) =~= before.push(robot.0));
                assert(raw_ids(list@).to_set() =~= before.to_set().insert(robot.0));
            }
        } else {
            proof {
                assert(raw_ids(list@).to_set() =~= raw_ids(list@).to_set().insert(robot.0));
            }
        }
        let ghost l = list@;
        table.insert(key, list);
        proof {
            assert forall|k: u32| #[trigger] table@.contains_key(k) implies raw_ids(
                table@[k]@,
            ).no_duplicates() by {
                if k != key {
                    assert(old_table.contains_key(k));
                }
            }
        }
    }

    /// Removes `robot` from the occupancy list of `key`, if the key has a list.
    fn vacate(table: &mut HashMap<u32, Vec<RobotId>>, key: u32, robot: RobotId)
        requires
            lists_unique(old(table)@),
        ensures
            lists_unique(final(table)@),
            forall|k: u32|
                #[trigger] occupants_in(final(table)@, k) == if k == key {
                    occupants_in(old(table)@, k).remove(robot.0)
                } else {
                    occupants_in(old(table)@, k)
                },
    {
        let ghost old_table = table@;
        match table.remove(&key) {
            Some(list) => {
                let kept = Self::list_without(Some(&list), robot.0);
                table.insert(key, kept);
                proof {
                    assert forall|k: u32| #[trigger] table@.contains_key(k) implies raw_ids(
                        table@[k]@,
                    ).no_duplicates() by {
                        if k != key {
                            assert(old_table.contains_key(k));
                        }
                    }
                }
            },
            None => {
                proof {
                    assert(occupants_in(old_table, key) =~= occupants_in(old_table, key).remove(
                        robot.0,
                    ));
                }
            },
        }
    }

    /// Records that `robot` is on `edge`.
    pub fn enter_edge(&mut self, edge: EdgeId, robot: RobotId)
        requires
            old(self).wf(),
        ensures
            final(self).wf(),
            forall|e: u32|
                #[trigger] final(self).edge_occupants(e) == if e == edge.0 {
                    old(self).edge_occupants(e).insert(robot.0)
                } else {
                    old(self).edge_occupants(e)
                },
            forall|e: u32| #[trigger] final(self).edge_cap(e) == old(self).edge_cap(e),
            final(self).same_nodes(old(self)),
            final(self).same_waits(old(self)),
    {
        Self::occupy(&mut self.edge_occupancy, edge.0, robot);
    }

    /// Records that `robot` has left `edge`.
    pub fn leave_edge(&mut self, edge: EdgeId, robot: RobotId)
        requires
            old(self).wf(),
        ensures
            final(self).wf(),
            forall|e: u32|
                #[trigger] final(self).edge_occupants(e) == if e == edge.0 {
                    old(self).edge_occupants(e).remove(robot.0)
                } else {
                    old(self).edge_occupants(e)
                },
            forall|e: u32| #[trigger] final(self).edge_cap(e) == old(self).edge_cap(e),
            final(self).same_nodes(old(self)),
            final(self).same_waits(old(self)),
    {
        Self::vacate(&mut self.edge_occupancy, edge.0, robot);
    }

    /// Records that `robot` is at `node`.
    pub fn enter_node(&mut self, node: NodeId, robot: RobotId)
        requires
            old(self).wf(),
        ensures
            final(self).wf(),
            forall|n: u32|
                #[trigger] final(self).node_occupants(n) == if n == node.0 {
                    old(self).node_occupants(n).insert(robot.0)
                } else {
                    old(self).node_occupants(n)
                },
            forall|n: u32| #[trigger] final(self).node_cap(n) == old(self).node_cap(n),
            final(self).same_edges(old(self)),
            final(self).same_waits(old(self)),
    {
        Self::occupy(&mut self.node_occupancy, node.0, robot);
    }

    /// Records that `robot` has left `node`.
    pub fn leave_node(&mut self, node: NodeId, robot: RobotId)
        requires
            old(self).wf(),
        ensures
            final(self).wf(),
            forall|n: u32|
                #[trigger] final(self).node_occupants(n) == if n == node.0 {
                    old(self).node_occupants(n).remove(robot.0)
                } else {
                    old(self).node_occupants(n)
                },
            forall|n: u32| #[trigger] final(self).node_cap(n) == old(self).node_cap(n),
            final(self).same_edges(old(self)),
            final(self).same_waits(old(self)),
    {
        Self::vacate(&mut self.node_occupancy, node.0, robot);
    }

    /// The number of robots in an occupancy list.
    fn list_len(list: Option<&Vec<RobotId>>) -> (r: usize)
        requires
            list matches Some(l) ==> raw_ids(l@).no_duplicates(),
        ensures
            r == (match list {
                Some(l) => raw_ids(l@).to_set(),
                None => Set::<u32>::empty(),
            }).len(),
    {
        match list {
            Some(l) => {
                proof {
                    raw_ids(l@).unique_seq_to_set();
                }
                l.len()
            },
            None => 0,
        }
    }

    /// The number of robots on `edge`.
    pub fn get_edge_occupancy(&self, edge: EdgeId) -> (r: usize)
        requires
            self.wf(),
        ensures
            r == self.edge_occupants(edge.0).len(),
    {
        Self::list_len(self.edge_occupancy.get(&edge.0))
    }

    /// The number of robots at `node`.
    pub fn get_node_occupancy(&self, node: NodeId) -> (r: usize)
        requires
            self.wf(),
        ensures
            r == self.node_occupants(node.0).len(),
    {
        Self::list_len(self.node_occupancy.get(&node.0))
    }

    /// A copy of an occupancy list, without `except`.
    fn list_without(list: Option<&Vec<RobotId>>, except: u32) -> (r: Vec<RobotId>)
        requires
            list matches Some(l) ==> raw_ids(l@).no_duplicates(),
        ensures
            raw_ids(r@).no_duplicates(),
            raw_ids(r@).to_set() == (match list {
                Some(l) => raw_ids(l@).to_set(),
                None => Set::<u32>::empty(),
            }).remove(except),
    {
        let mut kept: Vec<RobotId> = Vec::new();
        match list {
            Some(l) => {
                let ghost before = raw_ids(l@);
                let mut i: usize = 0;
                while i < l.len()
                    invariant
                        i <= l@.len(),
                        before == raw_ids(l@),
                        before.no_duplicates(),
                        raw_ids(kept@).no_duplicates(),
                        raw_ids(kept@).to_set() == before.subrange(0, i as int).to_set().remove(
                            except,
                        ),
                        forall|j: int|
                            0 <= j < kept@.len() ==> before.subrange(0, i as int).contains(
                                #[trigger] kept@[j].0,
                            ),
                    decreases l@.len() - i,
                {
                    let r = l[i];
                    let ghost prev = raw_ids(kept@);
                    if r.0 != except {
                        kept.push(r);
                        proof {
                            assert(raw_ids(kept@) =~= prev.push(r.0));
                            assert(!prev.contains(r.0)) by {
                                if prev.contains(r.0) {
                                    let j = choose|j: int| 0 <= j < prev.len() && prev[j] == r.0;
                                    assert(kept@[j].0 == r.0);
                                    assert(before.subrange(0, i as int).contains(r.0));
                                    let k = choose|k: int| 0 <= k < i && before[k] == r.0;
                                    assert(before[i as int] == r.0);
                                }
                            }
                        }
                    }
                    proof {
                        assert(before.subrange(0, i + 1) =~= before.subrange(0, i as int).push(
                            r.0,
                        ));
                        let s0 = before.subrange(0, i as int).to_set();
                        assert(before.subrange(0, i + 1).to_set() =~= s0.insert(r.0));
                        if r.0 != except {
                            assert(raw_ids(kept@).to_set() =~= prev.to_set().insert(r.0));
                            assert(s0.insert(r.0).remove(except) =~= s0.remove(except).insert(r.0));
                        } else {
                            assert(raw_ids(kept@) == prev);
                            assert(s0.insert(r.0).remove(except) =~= s0.remove(except));
                        }
                        assert(raw_ids(kept@).to_set() =~= before.subrange(0, i + 1).to_set().remove(
                            except,
                        ));
                        assert forall|j: int| 0 <= j < kept@.len() implies before.subrange(
                            0,
                            i + 1,
                        ).contains(#[trigger] kept@[j].0) by {
                            if j < prev.len() {
                                assert(before.subrange(0, i as int).contains(kept@[j].0));
                                let k = choose|k: int|
                                    0 <= k < i && before.subrange(0, i as int)[k] == kept@[j].0;
                                assert(before.subrange(0, i + 1)[k] == kept@[j].0);
                            } else {
                                assert(before.subrange(0, i + 1)[i as int] == kept@[j].0);
                            }
                        }
                    }
                    i = i + 1;
                }
                proof {
                    assert(before.subrange(0, before.len() as int) =~= before);
                }
            },
            None => {
                proof {
                    assert(raw_ids(kept@).to_set() =~= Set::<u32>::empty().remove(except));
                }
            },
        }
        kept
    }

    /// A copy of an occupancy list (empty when there is none).
    fn list_copy(list: Option<&Vec<RobotId>>) -> (r: Vec<RobotId>)
        ensures
            r@ == (match list {
                Some(l) => l@,
                None => Seq::<RobotId>::empty(),
            }),
    {
        let mut r: Vec<RobotId> = Vec::new();
        match list {
            Some(l) => {
                let mut i: usize = 0;
                while i < l.len()
                    invariant
                        i <= l@.len(),
                        r@ == l@.subrange(0, i as int),
                    decreases l@.len() - i,
                {
                    r.push(l[i]);
                    i = i + 1;
                }
            },
            None => {},
        }
        r
    }

    /// The robots on `edge`, each once.
    pub fn robots_on_edge(&self, edge: EdgeId) -> (r: Vec<RobotId>)
        requires
            self.wf(),
        ensures
            raw_ids(r@).no_duplicates(),
            raw_ids(r@).to_set() == self.edge_occupants(edge.0),
    {
        Self::list_copy(self.edge_occupancy.get(&edge.0))
    }

    /// The robots at `node`, each once.
    pub fn robots_at_node(&self, node: NodeId) -> (r: Vec<RobotId>)
        requires
            self.wf(),
        ensures
            raw_ids(r@).no_duplicates(),
            raw_ids(r@).to_set() == self.node_occupants(node.0),
    {
        Self::list_copy(self.node_occupancy.get(&node.0))
    }

    /// Records that `robot` waits for `edge`, blocked by the other robots on it.
    /// Does nothing while deadlock detection is off.
    pub fn record_edge_wait(&mut self, robot: RobotId, edge: EdgeId)
        requires
            old(self).wf(),
        ensures
            final(self).wf(),
            final(self).same_edges(old(self)),
            final(self).same_nodes(old(self)),
            final(self).detection() == old(self).detection(),
            final(self).directions() == old(self).directions(),
            !old(self).detection() ==> final(self).waits() == old(
                self,
            ).waits(),
            old(self).detection() ==> {
                &&& final(self).waits().remove(robot.0) == old(self).waits().remove(robot.0)
                &&& final(self).waits().contains_key(robot.0)
                &&& final(self).waits()[robot.0] matches WaitTarget::Edge { edge_id, blocked_by }
                    && edge_id == edge && raw_ids(blocked_by).no_duplicates() && raw_ids(
                    blocked_by,
                ).to_set() == old(self).edge_occupants(edge.0).remove(robot.0)
            },
    {
        if !self.deadlock_detection_enabled {
            return;
        }
        let blockers = Self::list_without(self.edge_occupancy.get(&edge.0), robot.0);
        let ghost g0 = self.wait_graph@;
        self.wait_graph.add_wait(robot, WaitingFor::Edge { edge_id: edge, blocked_by: blockers });
        proof {
            assert(self.wait_graph@.remove(robot.0) =~= g0.remove(robot.0));
        }
    }

    /// Records that `robot` waits for `node`, blocked by the other robots at it.
    /// Does nothing while deadlock detection is off.
    pub fn record_node_wait(&mut self, robot: RobotId, node: NodeId)
        requires
            old(self).wf(),
        ensures
            final(self).wf(),
            final(self).same_edges(old(self)),
            final(self).same_nodes(old(self)),
            final(self).detection() == old(self).detection(),
            final(self).directions() == old(self).directions(),
            !old(self).detection() ==> final(self).waits() == old(
                self,
            ).waits(),
            old(self).detection() ==> {
                &&& final(self).waits().remove(robot.0) == old(self).waits().remove(robot.0)
                &&& final(self).waits().contains_key(robot.0)
                &&& final(self).waits()[robot.0] matches WaitTarget::Node { node_id, blocked_by }
                    && node_id == node && raw_ids(blocked_by).no_duplicates() && raw_ids(
                    blocked_by,
                ).to_set() == old(self).node_occupants(node.0).remove(robot.0)
            },
    {
        if !self.deadlock_detection_enabled {
            return;
        }
        let blockers = Self::list_without(self.node_occupancy.get(&node.0), robot.0);
        let ghost g0 = self.wait_graph@;
        self.wait_graph.add_wait(robot, WaitingFor::Node { node_id: node, blocked_by: blockers });
        proof {
            assert(self.wait_graph@.remove(robot.0) =~= g0.remove(robot.0));
        }
    }

    /// Clears `robot`'s wait (e.g. when it acquires the resource).
    pub fn clear_wait(&mut self, robot: RobotId)
        requires
            old(self).wf(),
        ensures
            final(self).wf(),
            final(self).same_edges(old(self)),
            final(self).same_nodes(old(self)),
            final(self).detection() == old(self).detection(),
            final(self).directions() == old(self).directions(),
            final(self).waits() == old(self).waits().remove(robot.0),
    {
        self.wait_graph.remove_wait(robot);
    }

    /// Whether `robot` is waiting.
    pub fn is_waiting(&self, robot: RobotId) -> (r: bool)
        requires
            self.wf(),
        ensures
            r == self.waits().contains_key(robot.0),
    {
        self.wait_graph.is_waiting(robot)
    }

    /// Looks for a deadlock, if detection is on.
    pub fn check_deadlock(&self) -> (r: Option<Vec<RobotId>>)
        requires
            self.wf(),
        ensures
            r is None <==> (!self.detection() || !has_deadlock(self.waits())),
            r matches Some(c) ==> is_reported_cycle(self.waits(), raw_ids(c@)),
    {
        if !self.deadlock_detection_enabled {
            return None;
        }
        self.wait_graph.detect_cycle()
    }

    /// The number of robots waiting.
    pub fn waiting_count(&self) -> (r: usize)
        requires
            self.wf(),
        ensures
            r == self.waits().len(),
    {
        self.wait_graph.waiting_count()
    }

    /// The recorded travel direction of `edge`, if one was recorded.
    pub fn edge_direction(&self, edge: EdgeId) -> (r: Option<Option<(NodeId, NodeId)>>)
        ensures
            r == self.directions().get(edge.0),
    {
        match self.edge_directions.get(&edge.0) {
            Some(d) => Some(*d),
            None => None,
        }
    }

    /// Records the travel direction of `edge`.
    pub fn set_edge_direction(&mut self, edge: EdgeId, direction: Option<(NodeId, NodeId)>)
        requires
            old(self).wf(),
        ensures
            final(self).wf(),
            final(self).same_edges(old(self)),
            final(self).same_nodes(old(self)),
            final(self).waits() == old(self).waits(),
            final(self).detection() == old(self).detection(),
            final(self).directions() == old(self).directions().insert(edge.0, direction),
    {
        self.edge_directions.insert(edge.0, direction);
    }

    /// Forgets the travel direction of `edge` (when the edge empties).
    pub fn clear_edge_direction(&mut self, edge: EdgeId)
        requires
            old(self).wf(),
        ensures
            final(self).wf(),
            final(self).same_edges(old(self)),
            final(self).same_nodes(old(self)),
            final(self).waits() == old(self).waits(),
            final(self).detection() == old(self).detection(),
            final(self).directions() == old(self).directions().remove(edge.0),
    {
        self.edge_directions.remove(&edge.0);
    }

    /// The number of robots on `edge`.
    pub fn edge_occupancy_count(&self, edge: EdgeId) -> (r: usize)
        requires
            self.wf(),
        ensures
            r == self.edge_occupants(edge.0).len(),
    {
        self.get_edge_occupancy(edge)
    }

    /// The capacity of `edge`.
    pub fn edge_capacity(&self, edge: EdgeId) -> (r: u32)
        ensures
            r == self.edge_cap(edge.0),
    {
        match self.edge_capacity.get(&edge.0) {
            Some(c) => *c,
            None => self.default_edge_capacity,
        }
    }
}

} // verus!
