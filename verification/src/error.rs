//! Error types of the simulation.

use vstd::prelude::*;
use vstd::string::*;

use crate::text::{decimal, push_decimal};

verus! {

broadcast use vstd::string::group_string_axioms;

/// An input/output error of the standard library, carried opaquely.
#[verifier::external_type_specification]
#[verifier::external_body]
pub struct ExIoError(std::io::Error);

/// Simulation errors.
#[derive(Debug)]
pub enum SimError {
    /// Configuration error.
    Config(String),
    /// Validation error.
    Validation(String),
    /// An entity was not found.
    NotFound { entity_type: &'static str, id: u32 },
    /// Invalid state transition.
    InvalidState(String),
    /// Capacity exceeded.
    CapacityExceeded(String),
    /// Inventory error.
    Inventory(String),
    /// No route between two nodes.
    NoPath { from: u32, to: u32 },
    /// Input/output error.
    Io(std::io::Error),
    /// Serialization error.
    Serialization(String),
}

/// `e` reports that the entity of kind `kind` with identifier `id` is missing.
pub open spec fn is_not_found(e: SimError, kind: Seq<char>, id: u32) -> bool {
    match e {
        SimError::NotFound { entity_type, id: i } => entity_type@ == kind && i == id,
        _ => false,
    }
}

/// The message of an error that carries no outside value.
pub open spec fn error_message(e: SimError) -> Seq<char> {
    match e {
        SimError::Config(s) => "Configuration error: "@ + s@,
        SimError::Validation(s) => "Validation error: "@ + s@,
        SimError::NotFound { entity_type, id } => "Entity not found: "@ + entity_type@ + " with id "@
            + decimal(id as nat),
        SimError::InvalidState(s) => "Invalid state transition: "@ + s@,
        SimError::CapacityExceeded(s) => "Capacity exceeded: "@ + s@,
        SimError::Inventory(s) => "Inventory error: "@ + s@,
        SimError::NoPath { from, to } => "Routing error: no path from "@ + decimal(from as nat)
            + " to "@ + decimal(to as nat),
        SimError::Io(_) => "IO error: "@,
        SimError::Serialization(s) => "Serialization error: "@ + s@,
    }
}

/// Calls `ToString::to_string` on an I/O error: its text as the standard
/// library displays it. Nothing is stated of that text.
#[verifier::external_body]
fn io_error_text(e: &std::io::Error) -> (r: String) {
    e.to_string()
}

impl SimError {
    /// A robot was not found.
    pub fn robot_not_found(id: u32) -> (r: Self)
        ensures
            is_not_found(r, "Robot"@, id),
    {
        SimError::NotFound { entity_type: "Robot", id }
    }

    /// A node was not found.
    pub fn node_not_found(id: u32) -> (r: Self)
        ensures
            is_not_found(r, "Node"@, id),
    {
        SimError::NotFound { entity_type: "Node", id }
    }

    /// An edge was not found.
    pub fn edge_not_found(id: u32) -> (r: Self)
        ensures
            is_not_found(r, "Edge"@, id),
    {
        SimError::NotFound { entity_type: "Edge", id }
    }

    /// A station was not found.
    pub fn station_not_found(id: u32) -> (r: Self)
        ensures
            is_not_found(r, "Station"@, id),
    {
        SimError::NotFound { entity_type: "Station", id }
    }

    /// A task was not found.
    pub fn task_not_found(id: u32) -> (r: Self)
        ensures
            is_not_found(r, "Task"@, id),
    {
        SimError::NotFound { entity_type: "Task", id }
    }

    /// An order was not found.
    pub fn order_not_found(id: u32) -> (r: Self)
        ensures
            is_not_found(r, "Order"@, id),
    {
        SimError::NotFound { entity_type: "Order", id }
    }

    /// A SKU was not found.
    pub fn sku_not_found(id: u32) -> (r: Self)
        ensures
            is_not_found(r, "SKU"@, id),
    {
        SimError::NotFound { entity_type: "SKU", id }
    }

    /// The error's message. For an I/O error the message continues with the
    /// text of the I/O error.
    pub fn message(&self) -> (r: String)
        ensures
            !(self is Io) ==> r@ == error_message(*self),
            self is Io ==> r@.subrange(0, 10) == "IO error: "@,
    {
        let mut s = String::new();
        match self {
            SimError::Config(m) => {
                s.append("Configuration error: ");
                s.append(m.as_str());
            },
            SimError::Validation(m) => {
                s.append("Validation error: ");
                s.append(m.as_str());
            },
            SimError::NotFound { entity_type, id } => {
                s.append("Entity not found: ");
                s.append(entity_type);
                s.append(" with id ");
                push_decimal(&mut s, *id as u64);
            },
            SimError::InvalidState(m) => {
                s.append("Invalid state transition: ");
                s.append(m.as_str());
            },
            SimError::CapacityExceeded(m) => {
                s.append("Capacity exceeded: ");
                s.append(m.as_str());
            },
            SimError::Inventory(m) => {
                s.append("Inventory error: ");
                s.append(m.as_str());
            },
            SimError::NoPath { from, to } => {
                s.append("Routing error: no path from ");
                push_decimal(&mut s, *from as u64);
                s.append(" to ");
                push_decimal(&mut s, *to as u64);
            },
            SimError::Io(e) => {
                s.append("IO error: ");
                let t = io_error_text(e);
                s.append(t.as_str());
                proof {
                    reveal_strlit("IO error: ");
                }
            },
            SimError::Serialization(m) => {
                s.append("Serialization error: ");
                s.append(m.as_str());
            },
        }
        assert(!(self is Io) ==> s@ =~= error_message(*self));
        s
    }
}

} // verus!
