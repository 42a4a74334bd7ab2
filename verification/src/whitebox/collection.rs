//! The caches in which the actuator keeps what it has seen.

pub mod lru;
pub mod proposal_cache;
pub mod util;
pub mod vote_cache;
