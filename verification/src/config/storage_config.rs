//! Storage configuration: the placement of stock in racks.

use vstd::prelude::*;

verus! {

/// Stock of one SKU placed at a rack position.
#[derive(Debug, Clone)]
pub struct PlacementConfig {
    /// Identifier of the rack.
    pub rack: String,
    /// Level within the rack (0 is the lowest).
    pub level: u32,
    /// Bin within the level.
    pub bin: u32,
    /// Units placed.
    pub qty: u32,
}

} // verus!
