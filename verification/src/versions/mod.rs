//! The version model and the update policy built on it.

pub mod canonical;
pub mod dist_tags;
pub mod matching;
pub mod parse;
pub mod version;
pub mod version_target;
