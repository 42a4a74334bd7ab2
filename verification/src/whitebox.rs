//! Whitebox testing: message types, caches, scenarios and the actuator.

pub mod actuator;
pub mod collection;
pub mod correctness;
pub mod quorum;
pub mod types;
