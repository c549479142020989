//! Configuration: scenario, map and storage settings with their defaults,
//! and paths that name configuration fields.

pub mod map_config;
pub mod outline;
pub mod scenario;
pub mod storage_config;
pub mod validation;
