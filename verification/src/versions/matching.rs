//! The update policy: which registry version is the candidate under a
//! target, and whether the candidate warrants an update.

use crate::flags::Flags;
use crate::versions::dist_tags::{highest_prerelease, text_of, DistTags, DistTagsView};
use crate::versions::parse::{
    normalized, parse_range, parse_version, range_admits, range_valid, semver_parse, VersionError,
};
use crate::versions::version::{
    classify_diff, diff_of, is_prerelease, lemma_version_lt_irreflexive, version_lt, VersionDiff,
    VersionSpec, VersionView,
};
use crate::versions::version_target::{selects_prerelease, VersionTarget};
use vstd::prelude::*;

verus! {

/// The version that a target picks from the dist-tags. `Pre` picks the
/// highest prerelease channel and falls back to `latest`; a named channel
/// picks that channel, which may be empty; every other target picks `latest`.
pub open spec fn candidate_of(tags: DistTagsView, target: VersionTarget) -> Option<Seq<char>> {
    match target {
        VersionTarget::Pre => match highest_prerelease(tags) {
            Some(text) => Some(text),
            None => Some(tags.latest),
        },
        VersionTarget::Next => tags.next,
        VersionTarget::Canary => tags.canary,
        VersionTarget::Rc => tags.rc,
        VersionTarget::Beta => tags.beta,
        VersionTarget::Alpha => tags.alpha,
        _ => Some(tags.latest),
    }
}

/// Whether the move from `current` to `candidate` is the update that
/// `target` asks for.
///
/// Nothing is an update unless the candidate ranks strictly above the
/// current version. Beyond that: `Latest` refuses to leave a prerelease;
/// `Semver` needs the declared constraint to be a range that admits the
/// candidate, and fails where the constraint is no range; `Major`, `Minor`
/// and `Patch` need a bump of exactly that tier; the prerelease targets need
/// the candidate to be a prerelease.
pub open spec fn decide(
    constraint: Seq<char>,
    current: VersionView,
    candidate: VersionView,
    target: VersionTarget,
) -> Result<bool, VersionError> {
    if selects_prerelease(target) {
        Ok(is_prerelease(candidate) && version_lt(current, candidate))
    } else if !version_lt(current, candidate) {
        Ok(false)
    } else {
        match target {
            VersionTarget::Latest => Ok(!is_prerelease(current)),
            VersionTarget::Semver => if range_valid(constraint) {
                Ok(range_admits(constraint, candidate))
            } else {
                Err(VersionError::InvalidRange)
            },
            VersionTarget::Major => Ok(diff_of(current, candidate) == Some(VersionDiff::Major)),
            VersionTarget::Minor => Ok(diff_of(current, candidate) == Some(VersionDiff::Minor)),
            _ => Ok(diff_of(current, candidate) == Some(VersionDiff::Patch)),
        }
    }
}

/// The answer of the policy on the raw texts: the current version is read
/// after stripping up to its first digit, the candidate as written; if
/// either is no version the answer is `InvalidVersion`, else it is
/// [`decide`] on the two versions.
pub open spec fn should_update_spec(
    constraint: Seq<char>,
    current_version: Seq<char>,
    candidate_version: Seq<char>,
    target: VersionTarget,
) -> Result<bool, VersionError> {
    match semver_parse(normalized(current_version)) {
        None => Err(VersionError::InvalidVersion),
        Some(current) => match semver_parse(candidate_version) {
            None => Err(VersionError::InvalidVersion),
            Some(candidate) => decide(constraint, current, candidate, target),
        },
    }
}

/// An update is only ever warranted towards a strictly higher version.
pub proof fn lemma_update_only_to_newer(
    constraint: Seq<char>,
    current: VersionView,
    candidate: VersionView,
    target: VersionTarget,
)
    requires
        decide(constraint, current, candidate, target) == Ok::<bool, VersionError>(true),
    ensures
        version_lt(current, candidate),
{
}

/// A version is never an update of itself, whatever the target.
pub proof fn lemma_no_update_to_same(
    constraint: Seq<char>,
    current: VersionView,
    target: VersionTarget,
)
    ensures
        decide(constraint, current, current, target) == Ok::<bool, VersionError>(false),
{
    lemma_version_lt_irreflexive(current);
}

/// Only `Semver` depends on the declared constraint: under every other
/// target a constraint that is no range does no harm.
pub proof fn lemma_only_semver_reads_constraint(
    c1: Seq<char>,
    c2: Seq<char>,
    current: VersionView,
    candidate: VersionView,
    target: VersionTarget,
)
    requires
        target != VersionTarget::Semver,
    ensures
        decide(c1, current, candidate, target) == decide(c2, current, candidate, target),
        decide(c1, current, candidate, target) is Ok,
{
}

/// The tiers exclude each other: a move that is an update under one of
/// `Major`, `Minor` and `Patch` is none under the other two.
pub proof fn lemma_tiers_exclusive(
    constraint: Seq<char>,
    current: VersionView,
    candidate: VersionView,
    a: VersionTarget,
    b: VersionTarget,
)
    requires
        a == VersionTarget::Major || a == VersionTarget::Minor || a == VersionTarget::Patch,
        b == VersionTarget::Major || b == VersionTarget::Minor || b == VersionTarget::Patch,
        a != b,
        decide(constraint, current, candidate, a) == Ok::<bool, VersionError>(true),
    ensures
        decide(constraint, current, candidate, b) == Ok::<bool, VersionError>(false),
{
}

/// Picks the candidate version for `target` from the dist-tags.
pub fn match_dist_tag_with_target(dist_tags: DistTags, target: &VersionTarget) -> (r: Option<
    String,
>)
    ensures
        text_of(r) == candidate_of(dist_tags@, *target),
{
    match target {
        VersionTarget::Pre => match dist_tags.highest_prerelease_version() {
            Some(text) => Some(text),
            None => Some(dist_tags.latest),
        },
        VersionTarget::Next => dist_tags.next,
        VersionTarget::Canary => dist_tags.canary,
        VersionTarget::Rc => dist_tags.rc,
        VersionTarget::Beta => dist_tags.beta,
        VersionTarget::Alpha => dist_tags.alpha,
        _ => Some(dist_tags.latest),
    }
}

/// Decides on two versions that have been read already.
pub fn decide_update(
    constraint: &str,
    current: &VersionSpec,
    candidate: &VersionSpec,
    target: &VersionTarget,
) -> (r: Result<bool, VersionError>)
    ensures
        r == decide(constraint@, current@, candidate@, *target),
{
    let newer = current.less_than(candidate);
    if target.selects_prerelease() {
        return Ok(candidate.is_prerelease() && newer);
    }
    if !newer {
        return Ok(false);
    }
    match target {
        VersionTarget::Latest => Ok(!current.is_prerelease()),
        VersionTarget::Semver => match parse_range(constraint) {
            Ok(range) => Ok(range.satisfies(candidate)),
            Err(e) => Err(e),
        },
        VersionTarget::Major => match classify_diff(current, candidate) {
            Some(VersionDiff::Major) => Ok(true),
            _ => Ok(false),
        },
        VersionTarget::Minor => match classify_diff(current, candidate) {
            Some(VersionDiff::Minor) => Ok(true),
            _ => Ok(false),
        },
        _ => match classify_diff(current, candidate) {
            Some(VersionDiff::Patch) => Ok(true),
            _ => Ok(false),
        },
    }
}

/// Whether `candidate_version` is the update that `target` asks for, for a
/// dependency declared as `current_constraint` whose current version text
/// is `current_version`.
pub fn should_update(
    current_constraint: &str,
    current_version: &str,
    candidate_version: &str,
    target: &VersionTarget,
) -> (r: Result<bool, VersionError>)
    ensures
        r == should_update_spec(
            current_constraint@,
            current_version@,
            candidate_version@,
            *target,
        ),
{
    let current = match parse_version(current_version) {
        Ok(v) => v,
        Err(e) => {
            return Err(e);
        },
    };
    let candidate = match VersionSpec::parse(candidate_version) {
        Ok(v) => v,
        Err(e) => {
            return Err(e);
        },
    };
    decide_update(current_constraint, &current, &candidate, target)
}

/// [`should_update`] for a manifest entry, whose declared constraint is
/// also the text of its current version.
pub fn is_version_satisfying(current_version: &str, latest_version: &str, flags: &Flags) -> (r:
    Result<bool, VersionError>)
    ensures
        r == should_update_spec(current_version@, current_version@, latest_version@, flags.target),
{
    should_update(current_version, current_version, latest_version, &flags.target)
}

} // verus!
