//! What validation reads of the scenario, map and storage files.
//!
//! The files hold real-valued settings (durations, speeds, lengths). The
//! checks only ask how such a setting compares with zero, and quote its
//! printed form in the message; a [`Reading`] holds exactly that.

use vstd::prelude::*;

use crate::config::storage_config::PlacementConfig;

verus! {

/// How a real-valued setting compares with zero. `Unordered` is a value
/// that is neither below, equal to nor above zero (not a number).
#[derive(Debug, Clone, Copy, PartialEq, Eq, Structural)]
pub enum Sign {
    Negative,
    Zero,
    Positive,
    Unordered,
}

/// A real-valued setting as the checks read it.
#[derive(Debug, Clone)]
pub struct Reading {
    /// How the value compares with zero.
    pub sign: Sign,
    /// The value as it is printed.
    pub text: String,
}

impl Reading {
    /// The value is zero or below (a test `value <= 0` holds).
    pub open spec fn spec_at_most_zero(self) -> bool {
        self.sign is Negative || self.sign is Zero
    }

    /// The value is below zero (a test `value < 0` holds).
    pub open spec fn spec_below_zero(self) -> bool {
        self.sign is Negative
    }

    /// Whether the value is zero or below.
    pub fn at_most_zero(&self) -> (r: bool)
        ensures
            r == self.spec_at_most_zero(),
    {
        match self.sign {
            Sign::Negative | Sign::Zero => true,
            _ => false,
        }
    }

    /// Whether the value is below zero.
    pub fn below_zero(&self) -> (r: bool)
        ensures
            r == self.spec_below_zero(),
    {
        match self.sign {
            Sign::Negative => true,
            _ => false,
        }
    }
}

/// A station as validation reads it.
#[derive(Debug, Clone)]
pub struct StationOutline {
    pub id: String,
    /// The map node the station stands at.
    pub node: String,
    pub station_type: String,
    pub concurrency: u32,
    /// Fixed service time (seconds).
    pub service_base: Reading,
    /// Service time per item (seconds).
    pub service_per_item: Reading,
}

/// A scenario as validation reads it.
#[derive(Debug, Clone)]
pub struct ScenarioOutline {
    pub duration_minutes: Reading,
    pub warmup_minutes: Reading,
    pub robot_count: u32,
    pub max_speed_mps: Reading,
    pub max_payload_kg: Reading,
    pub stations: Vec<StationOutline>,
    pub arrival_rate_per_min: Reading,
    pub lines_mean: Reading,
    pub lines_dispersion: Reading,
    pub sku_alpha: Reading,
    pub edge_capacity_default: u32,
    pub node_capacity_default: u32,
}

/// An edge of the map as validation reads it.
#[derive(Debug, Clone)]
pub struct EdgeOutline {
    pub from: String,
    pub to: String,
    pub length_m: Reading,
    /// Older form of the direction: bidirectional unless false.
    pub bidirectional: bool,
    /// Explicit direction ("one_way" or "bidirectional"); takes precedence.
    pub direction: Option<String>,
    pub capacity: u32,
}

/// An edge is one-way when its explicit direction is "one_way", or, with no
/// explicit direction, when it is not bidirectional.
pub open spec fn edge_is_one_way(direction: Option<Seq<char>>, bidirectional: bool) -> bool {
    match direction {
        Some(d) => d == "one_way"@,
        None => !bidirectional,
    }
}

/// The text of an optional string.
pub open spec fn opt_text(o: Option<String>) -> Option<Seq<char>> {
    match o {
        Some(s) => Some(s@),
        None => None,
    }
}

impl EdgeOutline {
    /// Whether the edge is one-way. An explicit direction takes precedence
    /// over the older `bidirectional` flag.
    pub fn is_one_way(&self) -> (r: bool)
        ensures
            r == edge_is_one_way(opt_text(self.direction), self.bidirectional),
    {
        match &self.direction {
            Some(d) => {
                let one_way = String::from_str("one_way");
                *d == one_way
            },
            None => !self.bidirectional,
        }
    }
}

/// A map as validation reads it: the node identifiers in file order, and
/// the edges.
#[derive(Debug, Clone)]
pub struct MapOutline {
    pub node_ids: Vec<String>,
    pub edges: Vec<EdgeOutline>,
}

/// A rack as validation reads it.
#[derive(Debug, Clone)]
pub struct RackOutline {
    pub id: String,
    pub access_node: String,
    pub levels: u32,
    pub bins_per_level: u32,
}

/// Storage as validation reads it: the racks, and the placements of each
/// SKU, SKU by SKU in the order they are handed over.
#[derive(Debug, Clone)]
pub struct StorageOutline {
    pub racks: Vec<RackOutline>,
    pub placements: Vec<(String, Vec<PlacementConfig>)>,
}

} // verus!
