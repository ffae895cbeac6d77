//! A search for high-scoring Dandelifeon boards: a bit-packed cellular
//! automaton and the bees algorithm that explores its configurations.

pub mod bees;
pub mod hive;
pub mod random;
pub mod simulation;

pub use crate::hive::Hive;
