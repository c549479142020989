//! A deterministic warehouse-robotics simulation library: identifiers, the
//! wait-for graph that detects deadlocks, traffic capacity bookkeeping, policies
//! and the configuration and reporting pieces that go with them.

pub mod deadlock;
pub mod ids;
pub mod text;
pub mod trace;
pub mod analysis;
pub mod traffic;
pub mod entities;
pub mod event;
pub mod scheduled;
pub mod kernel;
pub mod policies;
pub mod reservation;
pub mod resolution;
pub mod robot_state_machine;
pub mod rng;
pub mod config;
pub mod api;
pub mod error;
pub mod html_template;
pub mod map;
pub mod graph;
pub mod metrics;
