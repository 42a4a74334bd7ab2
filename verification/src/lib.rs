//! A test framework for BFT consensus algorithms: the protocol oracle that
//! drives one node through adversarial scenarios and checks what it answers.

pub mod error;
pub mod whitebox;

pub use crate::whitebox::correctness::test_case;
