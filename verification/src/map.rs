//! Kinds of nodes and edges of the warehouse map, and the choice of routing
//! algorithm.

use vstd::prelude::*;

verus! {

/// Direction of travel allowed on an edge.
#[derive(Clone, Copy, Debug, PartialEq, Eq, Structural)]
pub enum EdgeDirection {
    /// Traffic flows both ways.
    Bidirectional,
    /// Traffic flows only from the edge's start to its end.
    OneWay,
}

impl Default for EdgeDirection {
    fn default() -> (r: Self)
        ensures
            r == EdgeDirection::Bidirectional,
    {
        EdgeDirection::Bidirectional
    }
}

/// What stands at a node of the map.
#[derive(Clone, Copy, Debug, PartialEq, Eq, Structural)]
pub enum NodeType {
    Aisle,
    StationPick,
    StationDrop,
    StationInbound,
    StationOutbound,
    Charging,
    Staging,
    Rack,
}

impl Default for NodeType {
    fn default() -> (r: Self)
        ensures
            r == NodeType::Aisle,
    {
        NodeType::Aisle
    }
}

/// The shortest-path algorithm used for routing.
#[derive(Clone, Copy, Debug, PartialEq, Eq, Structural)]
pub enum RoutingAlgorithm {
    Dijkstra,
    AStar,
}

impl Default for RoutingAlgorithm {
    fn default() -> (r: Self)
        ensures
            r == RoutingAlgorithm::Dijkstra,
    {
        RoutingAlgorithm::Dijkstra
    }
}

} // verus!
