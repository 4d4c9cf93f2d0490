//! The options of one run.

use crate::versions::version_target::VersionTarget;
use vstd::prelude::*;

verus! {

/// What the user asked for. Built once, then only read.
#[derive(Debug, Clone, Copy, PartialEq, Eq)]
pub struct Flags {
    /// Check only the development dependencies.
    pub development: bool,
    /// Check only the production and optional dependencies.
    pub production: bool,
    /// Check the globally installed packages instead of a project.
    pub global: bool,
    /// Which version to upgrade to.
    pub target: VersionTarget,
}

impl Default for Flags {
    /// All dependency classes of the project, and the `latest` target.
    fn default() -> (r: Flags)
        ensures
            !r.development,
            !r.production,
            !r.global,
            r.target == VersionTarget::Latest,
    {
        Flags { development: false, production: false, global: false, target: VersionTarget::Latest }
    }
}

} // verus!
