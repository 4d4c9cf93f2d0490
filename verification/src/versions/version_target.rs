//! The update targets a run can be asked for.

use crate::utils::order::str_eq;
use vstd::prelude::*;
use vstd::string::StringExecFns;

verus! {

/// Which newer version counts as the update of a dependency.
#[derive(Debug, Clone, Copy, PartialEq, Eq, Structural)]
pub enum VersionTarget {
    /// The registry's `latest`, unless the current version is a prerelease.
    Latest,
    /// The registry's `latest`, if the declared range admits it.
    Semver,
    /// The registry's `latest`, if it is a major bump.
    Major,
    /// The registry's `latest`, if it is a minor bump.
    Minor,
    /// The registry's `latest`, if it is a patch bump.
    Patch,
    /// The highest version among the prerelease channels.
    Pre,
    /// The `next` channel.
    Next,
    /// The `canary` channel.
    Canary,
    /// The `rc` channel.
    Rc,
    /// The `beta` channel.
    Beta,
    /// The `alpha` channel.
    Alpha,
}

/// The name of a target on the command line.
pub open spec fn target_name(target: VersionTarget) -> Seq<char> {
    match target {
        VersionTarget::Latest => "latest"@,
        VersionTarget::Semver => "semver"@,
        VersionTarget::Major => "major"@,
        VersionTarget::Minor => "minor"@,
        VersionTarget::Patch => "patch"@,
        VersionTarget::Pre => "pre"@,
        VersionTarget::Next => "next"@,
        VersionTarget::Canary => "canary"@,
        VersionTarget::Rc => "rc"@,
        VersionTarget::Beta => "beta"@,
        VersionTarget::Alpha => "alpha"@,
    }
}

/// Whether a target asks for a prerelease: `Pre` or one named channel.
pub open spec fn selects_prerelease(target: VersionTarget) -> bool {
    match target {
        VersionTarget::Pre
        | VersionTarget::Next
        | VersionTarget::Canary
        | VersionTarget::Rc
        | VersionTarget::Beta
        | VersionTarget::Alpha => true,
        _ => false,
    }
}

/// No two targets share a name.
pub proof fn lemma_target_names_distinct(a: VersionTarget, b: VersionTarget)
    requires
        target_name(a) == target_name(b),
    ensures
        a == b,
{
    reveal_strlit("latest");
    reveal_strlit("semver");
    reveal_strlit("major");
    reveal_strlit("minor");
    reveal_strlit("patch");
    reveal_strlit("pre");
    reveal_strlit("next");
    reveal_strlit("canary");
    reveal_strlit("rc");
    reveal_strlit("beta");
    reveal_strlit("alpha");
    let x = target_name(a);
    let y = target_name(b);
    assert(x.len() == y.len());
    assert(x[0] == y[0]);
    assert(x[1] == y[1]);
}

impl Default for VersionTarget {
    /// `Latest`.
    fn default() -> (r: VersionTarget)
        ensures
            r == VersionTarget::Latest,
    {
        VersionTarget::Latest
    }
}

impl VersionTarget {
    /// The name of the target.
    pub fn to_str(&self) -> (r: &'static str)
        ensures
            r@ == target_name(*self),
    {
        match self {
            VersionTarget::Latest => "latest",
            VersionTarget::Semver => "semver",
            VersionTarget::Major => "major",
            VersionTarget::Minor => "minor",
            VersionTarget::Patch => "patch",
            VersionTarget::Pre => "pre",
            VersionTarget::Next => "next",
            VersionTarget::Canary => "canary",
            VersionTarget::Rc => "rc",
            VersionTarget::Beta => "beta",
            VersionTarget::Alpha => "alpha",
        }
    }

    /// Whether the target asks for a prerelease.
    pub fn selects_prerelease(&self) -> (r: bool)
        ensures
            r == selects_prerelease(*self),
    {
        match self {
            VersionTarget::Pre
            | VersionTarget::Next
            | VersionTarget::Canary
            | VersionTarget::Rc
            | VersionTarget::Beta
            | VersionTarget::Alpha => true,
            _ => false,
        }
    }

    /// Reads a target from its name. Any other text is refused with a
    /// message that quotes it.
    pub fn from_str(s: &str) -> (r: Result<VersionTarget, String>)
        ensures
            match r {
                Ok(target) => s@ == target_name(target),
                Err(message) => {
                    &&& forall|target: VersionTarget| s@ != #[trigger] target_name(target)
                    &&& message@ == "Invalid version target: "@ + s@
                },
            },
    {
        if str_eq(s, "latest") {
            Ok(VersionTarget::Latest)
        } else if str_eq(s, "semver") {
            Ok(VersionTarget::Semver)
        } else if str_eq(s, "major") {
            Ok(VersionTarget::Major)
        } else if str_eq(s, "minor") {
            Ok(VersionTarget::Minor)
        } else if str_eq(s, "patch") {
            Ok(VersionTarget::Patch)
        } else if str_eq(s, "pre") {
            Ok(VersionTarget::Pre)
        } else if str_eq(s, "next") {
            Ok(VersionTarget::Next)
        } else if str_eq(s, "canary") {
            Ok(VersionTarget::Canary)
        } else if str_eq(s, "rc") {
            Ok(VersionTarget::Rc)
        } else if str_eq(s, "beta") {
            Ok(VersionTarget::Beta)
        } else if str_eq(s, "alpha") {
            Ok(VersionTarget::Alpha)
        } else {
            let mut message = String::from_str("Invalid version target: ");
            message.append(s);
            Err(message)
        }
    }
}

/// Reading a target's own name gives the target back.
pub proof fn lemma_target_name_round_trip(target: VersionTarget, read: Result<VersionTarget, String>)
    requires
        match read {
            Ok(t) => target_name(target) == target_name(t),
            Err(_) => forall|t: VersionTarget| target_name(target) != #[trigger] target_name(t),
        },
    ensures
        read == Ok::<VersionTarget, String>(target),
{
    match read {
        Ok(t) => {
            lemma_target_names_distinct(target, t);
        },
        Err(_) => {
            assert(target_name(target) == target_name(target));
        },
    }
}

} // verus!
