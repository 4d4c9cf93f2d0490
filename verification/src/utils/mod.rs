//! Orderings on sequences and text, and map merging.

pub mod hashmap;
pub mod order;
