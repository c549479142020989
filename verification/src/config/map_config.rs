//! Map configuration: the parts that hold no coordinates or lengths.

use vstd::prelude::*;

verus! {

/// Edges are bidirectional unless said otherwise.
pub fn default_true() -> (r: bool)
    ensures
        r,
{
    true
}

/// An edge holds one robot unless said otherwise.
pub fn default_capacity() -> (r: u32)
    ensures
        r == 1,
{
    1
}

/// An edge that may not be used, named by its end nodes.
#[derive(Debug, Clone)]
pub struct BlockedEdge {
    pub from: String,
    pub to: String,
}

/// Nodes and edges that may not be used.
#[derive(Debug, Clone)]
pub struct ConstraintsConfig {
    pub blocked_nodes: Vec<String>,
    pub blocked_edges: Vec<BlockedEdge>,
}

impl Default for ConstraintsConfig {
    fn default() -> (r: Self)
        ensures
            r.blocked_nodes@.len() == 0,
            r.blocked_edges@.len() == 0,
    {
        ConstraintsConfig { blocked_nodes: Vec::new(), blocked_edges: Vec::new() }
    }
}

} // verus!
