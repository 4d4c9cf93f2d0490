//! Decides, for each declared dependency of a package manifest, whether the
//! registry offers a newer version under the chosen update target.
//!
//! Everything here is pure computation on plain values: version precedence,
//! the update policy, and the decisions of a batch run. Fetching registry
//! metadata, prompting and installing are left to the caller, which hands the
//! outcomes in and acts on what comes back.

pub mod aggregate;
pub mod dependencies;
pub mod flags;
pub mod fs_utils;
pub mod package_info;
pub mod package_json;
pub mod package_manager;
pub mod registry;
pub mod updater;
pub mod utils;
pub mod versions;
