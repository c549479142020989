//! The warehouse map as a graph: nodes, directed edges and adjacency lists.
//!
//! Coordinates, lengths and speed multipliers are real numbers, carried as
//! the bit patterns of their IEEE-754 double values (`f64::to_bits`): the
//! graph only stores and hands them on.

use std::collections::HashMap;
use vstd::prelude::*;

use crate::ids::{EdgeId, NodeId};
use crate::map::{EdgeDirection, NodeType};
use crate::text::same_text;

verus! {

broadcast use {vstd::std_specs::hash::group_hash_axioms, vstd::seq_lib::group_seq_properties};

/// The offset between an edge's identifier and that of the reverse edge
/// added for a two-way edge.
pub const REVERSE_EDGE_OFFSET: u32 = 100000;

/// The bit pattern of 1.0.
pub open spec fn unit_bits() -> u64 {
    0x3FF0_0000_0000_0000u64
}

/// A node of the warehouse map.
#[derive(Clone, Debug)]
pub struct Node {
    pub id: NodeId,
    /// The name the map file gives the node.
    pub string_id: String,
    /// The x coordinate in metres, as a bit pattern.
    pub x_bits: u64,
    /// The y coordinate in metres, as a bit pattern.
    pub y_bits: u64,
    pub node_type: NodeType,
    /// How many robots the node holds at once.
    pub capacity: u32,
}

impl Node {
    /// A node of capacity one.
    pub fn new(id: NodeId, string_id: String, x_bits: u64, y_bits: u64, node_type: NodeType) -> (r:
        Self)
        ensures
            r.id == id,
            r.string_id@ == string_id@,
            r.x_bits == x_bits,
            r.y_bits == y_bits,
            r.node_type == node_type,
            r.capacity == 1,
    {
        Node { id, string_id, x_bits, y_bits, node_type, capacity: 1 }
    }
}

/// A directed edge of the warehouse map.
#[derive(Clone, Copy, Debug)]
pub struct Edge {
    pub id: EdgeId,
    pub from: NodeId,
    pub to: NodeId,
    /// The length in metres, as a bit pattern.
    pub length_bits: u64,
    /// How many robots the edge holds at once.
    pub capacity: u32,
    pub direction: EdgeDirection,
    /// The factor on travel cost, as a bit pattern.
    pub speed_multiplier_bits: u64,
}

impl Edge {
    /// A two-way edge of capacity one and speed multiplier 1.
    pub fn new(id: EdgeId, from: NodeId, to: NodeId, length_bits: u64) -> (r: Self)
        ensures
            r == (Edge {
                id,
                from,
                to,
                length_bits,
                capacity: 1,
                direction: EdgeDirection::Bidirectional,
                speed_multiplier_bits: unit_bits(),
            }),
    {
        Edge {
            id,
            from,
            to,
            length_bits,
            capacity: 1,
            direction: EdgeDirection::Bidirectional,
            speed_multiplier_bits: 0x3FF0_0000_0000_0000u64,
        }
    }

    /// The same edge with another direction.
    pub fn with_direction(self, direction: EdgeDirection) -> (r: Self)
        ensures
            r == (Edge { direction, ..self }),
    {
        Edge { direction, ..self }
    }

    /// The same edge with another capacity.
    pub fn with_capacity(self, capacity: u32) -> (r: Self)
        ensures
            r == (Edge { capacity, ..self }),
    {
        Edge { capacity, ..self }
    }

    /// The same edge with another speed multiplier (a bit pattern).
    pub fn with_speed_multiplier(self, multiplier_bits: u64) -> (r: Self)
        ensures
            r == (Edge { speed_multiplier_bits: multiplier_bits, ..self }),
    {
        Edge { speed_multiplier_bits: multiplier_bits, ..self }
    }
}

/// The identifier of the reverse edge of a two-way edge.
pub open spec fn reverse_id(id: EdgeId) -> EdgeId {
    EdgeId((id.0 + REVERSE_EDGE_OFFSET) as u32)
}

/// The one-way reverse of a two-way edge.
pub open spec fn reversed(e: Edge) -> Edge {
    Edge {
        id: reverse_id(e.id),
        from: e.to,
        to: e.from,
        length_bits: e.length_bits,
        capacity: e.capacity,
        direction: EdgeDirection::OneWay,
        speed_multiplier_bits: e.speed_multiplier_bits,
    }
}

/// The adjacency list of node `k`: empty when it has none.
pub open spec fn adjacent_in(m: Map<u32, Vec<(NodeId, EdgeId, u64)>>, k: u32) -> Seq<
    (NodeId, EdgeId, u64),
> {
    if m.contains_key(k) {
        m[k]@
    } else {
        Seq::empty()
    }
}

/// The entries of `s` whose neighbour and edge are not blocked, in order.
pub open spec fn unblocked(
    s: Seq<(NodeId, EdgeId, u64)>,
    blocked_nodes: Seq<NodeId>,
    blocked_edges: Seq<EdgeId>,
) -> Seq<(NodeId, EdgeId, u64)>
    decreases s.len(),
{
    if s.len() == 0 {
        s
    } else {
        let rest = unblocked(s.drop_last(), blocked_nodes, blocked_edges);
        let t = s.last();
        if blocked_nodes.contains(t.0) || blocked_edges.contains(t.1) {
            rest
        } else {
            rest.push(t)
        }
    }
}

proof fn lemma_unblocked_members(
    s: Seq<(NodeId, EdgeId, u64)>,
    blocked_nodes: Seq<NodeId>,
    blocked_edges: Seq<EdgeId>,
)
    ensures
        forall|t: (NodeId, EdgeId, u64)|
            #[trigger] unblocked(s, blocked_nodes, blocked_edges).contains(t) <==> (s.contains(t)
                && !blocked_nodes.contains(t.0) && !blocked_edges.contains(t.1)),
        unblocked(s, blocked_nodes, blocked_edges).len() <= s.len(),
    decreases s.len(),
{
    if s.len() > 0 {
        let init = s.drop_last();
        lemma_unblocked_members(init, blocked_nodes, blocked_edges);
        let rest = unblocked(init, blocked_nodes, blocked_edges);
        assert(s == init.push(s.last()));
        assert forall|t: (NodeId, EdgeId, u64)|
            #[trigger] unblocked(s, blocked_nodes, blocked_edges).contains(t) <==> (s.contains(t)
                && !blocked_nodes.contains(t.0) && !blocked_edges.contains(t.1)) by {
            if s.contains(t) && t != s.last() {
                let k = choose|k: int| 0 <= k < s.len() && s[k] == t;
                assert(k < init.len());
                assert(init[k] == t);
            }
            if init.contains(t) {
                let k = choose|k: int| 0 <= k < init.len() && init[k] == t;
                assert(s[k] == t);
            }
            if rest.push(s.last()).contains(t) && t != s.last() {
                let k = choose|k: int| 0 <= k < rest.push(s.last()).len() && rest.push(s.last())[k] == t;
                assert(rest[k] == t);
            }
            if rest.contains(t) {
                let k = choose|k: int| 0 <= k < rest.len() && rest[k] == t;
                assert(rest.push(s.last())[k] == t);
            }
            assert(s[s.len() - 1] == s.last());
            assert(rest.push(s.last())[rest.len() as int] == s.last());
        }
    }
}

proof fn lemma_unblocked_is_filter(
    s: Seq<(NodeId, EdgeId, u64)>,
    blocked_nodes: Seq<NodeId>,
    blocked_edges: Seq<EdgeId>,
)
    ensures
        unblocked(s, blocked_nodes, blocked_edges) == s.filter(
            |t: (NodeId, EdgeId, u64)| !blocked_nodes.contains(t.0) && !blocked_edges.contains(t.1),
        ),
    decreases s.len(),
{
    reveal(Seq::filter);
    if s.len() > 0 {
        lemma_unblocked_is_filter(s.drop_last(), blocked_nodes, blocked_edges);
    }
}

/// Blocking leaves out exactly the blocked: the neighbours a node's
/// adjacency list yields are the entries whose neighbour node is in no
/// position of the blocked node list and whose edge is in no position of the
/// blocked edge list; every other entry of the adjacency list is kept, in
/// the order of the list (the list filtered by the two blocked lists).
pub proof fn law_neighbors_skip_exactly_blocked(
    s: Seq<(NodeId, EdgeId, u64)>,
    blocked_nodes: Seq<NodeId>,
    blocked_edges: Seq<EdgeId>,
)
    ensures
        forall|k: int|
            0 <= k < unblocked(s, blocked_nodes, blocked_edges).len() ==> {
                let t = #[trigger] unblocked(s, blocked_nodes, blocked_edges)[k];
                &&& s.contains(t)
                &&& forall|m: int| 0 <= m < blocked_nodes.len() ==> blocked_nodes[m] != t.0
                &&& forall|m: int| 0 <= m < blocked_edges.len() ==> blocked_edges[m] != t.1
            },
        forall|k: int|
            0 <= k < s.len() && (forall|m: int| 0 <= m < blocked_nodes.len() ==> blocked_nodes[m] != s[k].0)
                && (forall|m: int| 0 <= m < blocked_edges.len() ==> blocked_edges[m] != s[k].1)
                ==> unblocked(s, blocked_nodes, blocked_edges).contains(#[trigger] s[k]),
        unblocked(s, blocked_nodes, blocked_edges).len() <= s.len(),
        unblocked(s, blocked_nodes, blocked_edges) == s.filter(
            |t: (NodeId, EdgeId, u64)| !blocked_nodes.contains(t.0) && !blocked_edges.contains(t.1),
        ),
{
    lemma_unblocked_members(s, blocked_nodes, blocked_edges);
    lemma_unblocked_is_filter(s, blocked_nodes, blocked_edges);
    let u = unblocked(s, blocked_nodes, blocked_edges);
    assert forall|k: int| 0 <= k < u.len() implies {
        let t = #[trigger] u[k];
        &&& s.contains(t)
        &&& forall|m: int| 0 <= m < blocked_nodes.len() ==> blocked_nodes[m] != t.0
        &&& forall|m: int| 0 <= m < blocked_edges.len() ==> blocked_edges[m] != t.1
    } by {
        assert(u.contains(u[k]));
        assert forall|m: int| 0 <= m < blocked_nodes.len() implies blocked_nodes[m] != u[k].0 by {
            if blocked_nodes[m] == u[k].0 {
                assert(blocked_nodes.contains(u[k].0));
            }
        }
        assert forall|m: int| 0 <= m < blocked_edges.len() implies blocked_edges[m] != u[k].1 by {
            if blocked_edges[m] == u[k].1 {
                assert(blocked_edges.contains(u[k].1));
            }
        }
    }
    assert forall|k: int|
        0 <= k < s.len() && (forall|m: int| 0 <= m < blocked_nodes.len() ==> blocked_nodes[m] != s[k].0)
            && (forall|m: int| 0 <= m < blocked_edges.len() ==> blocked_edges[m] != s[k].1)
            implies u.contains(#[trigger] s[k]) by {
        assert(s.contains(s[k]));
        if blocked_nodes.contains(s[k].0) {
            let m = choose|m: int| 0 <= m < blocked_nodes.len() && blocked_nodes[m] == s[k].0;
            assert(blocked_nodes[m] != s[k].0);
        }
        if blocked_edges.contains(s[k].1) {
            let m = choose|m: int| 0 <= m < blocked_edges.len() && blocked_edges[m] == s[k].1;
            assert(blocked_edges[m] != s[k].1);
        }
    }
}

/// The node the name `s` was last given to.
pub open spec fn name_lookup(v: Seq<(String, NodeId)>, s: Seq<char>) -> Option<NodeId>
    decreases v.len(),
{
    if v.len() == 0 {
        None
    } else if v.last().0@ == s {
        Some(v.last().1)
    } else {
        name_lookup(v.drop_last(), s)
    }
}

/// The names and nodes of `v`, by the names' text.
pub open spec fn names_of(v: Seq<(String, NodeId)>) -> Seq<(Seq<char>, NodeId)> {
    v.map_values(|p: (String, NodeId)| (p.0@, p.1))
}

/// The warehouse map graph.
pub struct WarehouseMap {
    /// Nodes by raw identifier.
    pub nodes: HashMap<u32, Node>,
    /// Edges by raw identifier, the reverse edges of two-way edges included.
    pub edges: HashMap<u32, Edge>,
    /// For each node, the neighbours it leads to: neighbour, edge and the
    /// edge's length (a bit pattern), in the order the edges were added.
    pub adjacency: HashMap<u32, Vec<(NodeId, EdgeId, u64)>>,
    /// Node names with their nodes, in the order added (a later entry for a
    /// name replaces an earlier one).
    pub string_to_node: Vec<(String, NodeId)>,
    pub blocked_nodes: Vec<NodeId>,
    pub blocked_edges: Vec<EdgeId>,
}

impl WarehouseMap {
    /// An empty map.
    pub fn new() -> (m: Self)
        ensures
            m.nodes@ == Map::<u32, Node>::empty(),
            m.edges@ == Map::<u32, Edge>::empty(),
            m.adjacency@ == Map::<u32, Vec<(NodeId, EdgeId, u64)>>::empty(),
            m.string_to_node@.len() == 0,
            m.blocked_nodes@.len() == 0,
            m.blocked_edges@.len() == 0,
    {
        WarehouseMap {
            nodes: HashMap::new(),
            edges: HashMap::new(),
            adjacency: HashMap::new(),
            string_to_node: Vec::new(),
            blocked_nodes: Vec::new(),
            blocked_edges: Vec::new(),
        }
    }

    /// Adds (or replaces) a node; it gets an adjacency list if it had none.
    pub fn add_node(&mut self, node: Node)
        ensures
            final(self).nodes@ == old(self).nodes@.insert(node.id.0, node),
            final(self).adjacency@.dom() == old(self).adjacency@.dom().insert(node.id.0),
            forall|k: u32|
                #[trigger] adjacent_in(final(self).adjacency@, k) == adjacent_in(
                    old(self).adjacency@,
                    k,
                ),
            names_of(final(self).string_to_node@) == names_of(old(self).string_to_node@).push(
                (node.string_id@, node.id),
            ),
            final(self).edges@ == old(self).edges@,
            final(self).blocked_nodes@ == old(self).blocked_nodes@,
            final(self).blocked_edges@ == old(self).blocked_edges@,
    {
        let id = node.id;
        let string_id = node.string_id.clone();
        if !self.adjacency.contains_key(&id.0) {
            self.adjacency.insert(id.0, Vec::new());
            proof {
                assert forall|k: u32|
                    #[trigger] adjacent_in(self.adjacency@, k) == adjacent_in(
                        old(self).adjacency@,
                        k,
                    ) by {
                    if k == id.0 {
                        assert(self.adjacency@[k]@ =~= Seq::<(NodeId, EdgeId, u64)>::empty());
                    }
                }
            }
        }
        let ghost before = self.string_to_node@;
        self.string_to_node.push((string_id, id));
        proof {
            assert(names_of(self.string_to_node@) =~= names_of(before).push((node.string_id@, id)));
        }
        self.nodes.insert(id.0, node);
    }

    /// Appends `entry` to the adjacency list of node `k`.
    fn push_adjacent(
        table: &mut HashMap<u32, Vec<(NodeId, EdgeId, u64)>>,
        k: u32,
        entry: (NodeId, EdgeId, u64),
    )
        ensures
            final(table)@.dom() == old(table)@.dom().insert(k),
            forall|j: u32|
                #[trigger] adjacent_in(final(table)@, j) == if j == k {
                    adjacent_in(old(table)@, j).push(entry)
                } else {
                    adjacent_in(old(table)@, j)
                },
    {
        let ghost before = table@;
        let mut list = match table.remove(&k) {
            Some(l) => l,
            None => Vec::new(),
        };
        proof {
            assert(list@ =~= adjacent_in(before, k));
        }
        list.push(entry);
        table.insert(k, list);
        proof {
            assert(table@.dom() =~= before.dom().insert(k));
        }
    }

    /// Adds an edge to the adjacency list of its start. A two-way edge also
    /// gets a one-way reverse edge, whose identifier is the edge's plus
    /// `REVERSE_EDGE_OFFSET`, in the adjacency list of its end.
    pub fn add_edge(&mut self, edge: Edge)
        requires
            edge.direction == EdgeDirection::Bidirectional ==> edge.id.0 + REVERSE_EDGE_OFFSET
                <= u32::MAX,
        ensures
            ({
                let two_way = edge.direction == EdgeDirection::Bidirectional;
                let fwd = (edge.to, edge.id, edge.length_bits);
                let back = (edge.from, reverse_id(edge.id), edge.length_bits);
                &&& final(self).adjacency@.dom() == if two_way {
                    old(self).adjacency@.dom().insert(edge.from.0).insert(edge.to.0)
                } else {
                    old(self).adjacency@.dom().insert(edge.from.0)
                }
                &&& forall|k: u32|
                    #[trigger] adjacent_in(final(self).adjacency@, k) == {
                        let once = if k == edge.from.0 {
                            adjacent_in(old(self).adjacency@, k).push(fwd)
                        } else {
                            adjacent_in(old(self).adjacency@, k)
                        };
                        if two_way && k == edge.to.0 {
                            once.push(back)
                        } else {
                            once
                        }
                    }
                &&& final(self).edges@ == if two_way {
                    old(self).edges@.insert(reverse_id(edge.id).0, reversed(edge)).insert(
                        edge.id.0,
                        edge,
                    )
                } else {
                    old(self).edges@.insert(edge.id.0, edge)
                }
            }),
            final(self).nodes@ == old(self).nodes@,
            final(self).string_to_node@ == old(self).string_to_node@,
            final(self).blocked_nodes@ == old(self).blocked_nodes@,
            final(self).blocked_edges@ == old(self).blocked_edges@,
    {
        let from = edge.from;
        let to = edge.to;
        let length = edge.length_bits;
        let edge_id = edge.id;
        Self::push_adjacent(&mut self.adjacency, from.0, (to, edge_id, length));
        match edge.direction {
            EdgeDirection::Bidirectional => {
                let reverse = EdgeId(edge_id.0 + REVERSE_EDGE_OFFSET);
                Self::push_adjacent(&mut self.adjacency, to.0, (from, reverse, length));
                self.edges.insert(
                    reverse.0,
                    Edge {
                        id: reverse,
                        from: to,
                        to: from,
                        length_bits: length,
                        capacity: edge.capacity,
                        direction: EdgeDirection::OneWay,
                        speed_multiplier_bits: edge.speed_multiplier_bits,
                    },
                );
            },
            EdgeDirection::OneWay => {},
        }
        self.edges.insert(edge_id.0, edge);
    }

    /// The node with identifier `id`, if any.
    pub fn get_node(&self, id: NodeId) -> (r: Option<&Node>)
        ensures
            r == if self.nodes@.contains_key(id.0) {
                Some(&self.nodes@[id.0])
            } else {
                None
            },
    {
        self.nodes.get(&id.0)
    }

    /// The node the name `s` was last given to, if that node is in the map.
    pub fn get_node_by_string(&self, s: &str) -> (r: Option<&Node>)
        ensures
            r == match name_lookup(self.string_to_node@, s@) {
                Some(id) => if self.nodes@.contains_key(id.0) {
                    Some(&self.nodes@[id.0])
                } else {
                    None
                },
                None => None,
            },
    {
        let mut i: usize = self.string_to_node.len();
        assert(self.string_to_node@.take(i as int) =~= self.string_to_node@);
        while i > 0
            invariant
                i <= self.string_to_node@.len(),
                name_lookup(self.string_to_node@, s@) == name_lookup(
                    self.string_to_node@.take(i as int),
                    s@,
                ),
            decreases i,
        {
            let ghost prefix = self.string_to_node@.take(i as int);
            assert(prefix.drop_last() =~= self.string_to_node@.take(i - 1));
            if same_text(self.string_to_node[i - 1].0.as_str(), s) {
                let id = self.string_to_node[i - 1].1;
                return self.nodes.get(&id.0);
            }
            i = i - 1;
        }
        None
    }

    /// The edge with identifier `id`, if any.
    pub fn get_edge(&self, id: EdgeId) -> (r: Option<&Edge>)
        ensures
            r == if self.edges@.contains_key(id.0) {
                Some(&self.edges@[id.0])
            } else {
                None
            },
    {
        self.edges.get(&id.0)
    }

    /// Whether `v` holds `n`.
    fn holds_node(v: &Vec<NodeId>, n: NodeId) -> (r: bool)
        ensures
            r == v@.contains(n),
    {
        let mut i: usize = 0;
        while i < v.len()
            invariant
                i <= v@.len(),
                forall|j: int| 0 <= j < i ==> v@[j] != n,
            decreases v@.len() - i,
        {
            if v[i].0 == n.0 {
                assert(v@[i as int] == n);
                return true;
            }
            i = i + 1;
        }
        false
    }

    /// Whether `v` holds `e`.
    fn holds_edge(v: &Vec<EdgeId>, e: EdgeId) -> (r: bool)
        ensures
            r == v@.contains(e),
    {
        let mut i: usize = 0;
        while i < v.len()
            invariant
                i <= v@.len(),
                forall|j: int| 0 <= j < i ==> v@[j] != e,
            decreases v@.len() - i,
        {
            if v[i].0 == e.0 {
                assert(v@[i as int] == e);
                return true;
            }
            i = i + 1;
        }
        false
    }

    /// The neighbours `node` leads to, with edge and length, leaving out
    /// blocked nodes and blocked edges.
    pub fn neighbors(&self, node: NodeId) -> (r: Vec<(NodeId, EdgeId, u64)>)
        ensures
            r@ == unblocked(
                adjacent_in(self.adjacency@, node.0),
                self.blocked_nodes@,
                self.blocked_edges@,
            ),
    {
        let mut r: Vec<(NodeId, EdgeId, u64)> = Vec::new();
        match self.adjacency.get(&node.0) {
            None => {
                assert(adjacent_in(self.adjacency@, node.0) =~= Seq::<(NodeId, EdgeId, u64)>::empty());
            },
            Some(list) => {
                let ghost s = list@;
                assert(s == adjacent_in(self.adjacency@, node.0));
                let mut i: usize = 0;
                while i < list.len()
                    invariant
                        s == list@,
                        i <= s.len(),
                        r@ == unblocked(s.take(i as int), self.blocked_nodes@, self.blocked_edges@),
                    decreases s.len() - i,
                {
                    let t = list[i];
                    assert(s.take(i + 1).drop_last() =~= s.take(i as int));
                    assert(s.take(i + 1).last() == t);
                    if !Self::holds_node(&self.blocked_nodes, t.0) && !Self::holds_edge(
                        &self.blocked_edges,
                        t.1,
                    ) {
                        r.push(t);
                    }
                    i = i + 1;
                }
                assert(s.take(s.len() as int) =~= s);
            },
        }
        r
    }

    /// The number of nodes.
    pub fn node_count(&self) -> (r: usize)
        ensures
            r == self.nodes@.len(),
    {
        self.nodes.len()
    }

    /// The number of edges, reverse edges included.
    pub fn edge_count(&self) -> (r: usize)
        ensures
            r == self.edges@.len(),
    {
        self.edges.len()
    }
}

impl Default for WarehouseMap {
    fn default() -> (m: Self)
        ensures
            m.nodes@ == Map::<u32, Node>::empty(),
            m.edges@ == Map::<u32, Edge>::empty(),
            m.adjacency@ == Map::<u32, Vec<(NodeId, EdgeId, u64)>>::empty(),
            m.string_to_node@.len() == 0,
            m.blocked_nodes@.len() == 0,
            m.blocked_edges@.len() == 0,
    {
        WarehouseMap::new()
    }
}

/// A two-way edge connects both ways: after it is added, its end is the
/// last neighbour listed for its start, and its start the last listed for
/// its end (when the two differ).
pub proof fn law_two_way_edge_connects_both_ways(
    adj: Map<u32, Vec<(NodeId, EdgeId, u64)>>,
    after: Map<u32, Vec<(NodeId, EdgeId, u64)>>,
    edge: Edge,
)
    requires
        edge.direction == EdgeDirection::Bidirectional,
        edge.from != edge.to,
        forall|k: u32|
            #[trigger] adjacent_in(after, k) == {
                let once = if k == edge.from.0 {
                    adjacent_in(adj, k).push((edge.to, edge.id, edge.length_bits))
                } else {
                    adjacent_in(adj, k)
                };
                if k == edge.to.0 {
                    once.push((edge.from, reverse_id(edge.id), edge.length_bits))
                } else {
                    once
                }
            },
    ensures
        adjacent_in(after, edge.from.0).last() == (edge.to, edge.id, edge.length_bits),
        adjacent_in(after, edge.to.0).last() == (edge.from, reverse_id(edge.id), edge.length_bits),
{
    assert(adjacent_in(after, edge.from.0) == adjacent_in(adj, edge.from.0).push(
        (edge.to, edge.id, edge.length_bits),
    ));
    assert(adjacent_in(after, edge.to.0) == adjacent_in(adj, edge.to.0).push(
        (edge.from, reverse_id(edge.id), edge.length_bits),
    ));
}

} // verus!
