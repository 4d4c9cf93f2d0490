//! What the engine knows of the registry: its address, its limits, the
//! ways a lookup can fail, and what to make of an answer.

pub mod client;
pub mod errors;
pub mod options;
