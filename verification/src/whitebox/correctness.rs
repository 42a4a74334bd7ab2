//! The vocabulary of test scenarios.

pub mod test_case;
pub mod util;
