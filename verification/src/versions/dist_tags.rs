//! The registry's named pointers to published versions of one package.

use crate::versions::canonical::version_text;
use crate::versions::parse::semver_parse;
use crate::versions::version::{version_lt, VersionSpec, VersionView};
use vstd::prelude::*;

verus! {

/// The dist-tags of one package: `latest`, and the prerelease channels that
/// the package publishes.
#[derive(Debug, Clone, PartialEq, Eq)]
pub struct DistTags {
    pub latest: String,
    pub next: Option<String>,
    pub canary: Option<String>,
    pub rc: Option<String>,
    pub beta: Option<String>,
    pub alpha: Option<String>,
}

/// The mathematical value of [`DistTags`].
pub struct DistTagsView {
    pub latest: Seq<char>,
    pub next: Option<Seq<char>>,
    pub canary: Option<Seq<char>>,
    pub rc: Option<Seq<char>>,
    pub beta: Option<Seq<char>>,
    pub alpha: Option<Seq<char>>,
}

/// The text of an optional string.
pub open spec fn text_of(s: Option<String>) -> Option<Seq<char>> {
    match s {
        Some(s) => Some(s@),
        None => None,
    }
}

/// The value of an optional version.
pub open spec fn version_of(v: Option<VersionSpec>) -> Option<VersionView> {
    match v {
        Some(v) => Some(v@),
        None => None,
    }
}

impl View for DistTags {
    type V = DistTagsView;

    open spec fn view(&self) -> DistTagsView {
        DistTagsView {
            latest: self.latest@,
            next: text_of(self.next),
            canary: text_of(self.canary),
            rc: text_of(self.rc),
            beta: text_of(self.beta),
            alpha: text_of(self.alpha),
        }
    }
}

/// The version that a channel points to, where the channel is populated and
/// its text reads as a version.
pub open spec fn channel_version(channel: Option<Seq<char>>) -> Option<VersionView> {
    match channel {
        Some(text) => semver_parse(text),
        None => None,
    }
}

/// The higher of the best version so far and the next one, if there is a
/// next one. Of two versions of equal precedence the next one stays.
pub open spec fn pick_higher(best: Option<VersionView>, next: Option<VersionView>) -> Option<
    VersionView,
> {
    match next {
        None => best,
        Some(v) => match best {
            None => Some(v),
            Some(b) => if version_lt(v, b) {
                best
            } else {
                Some(v)
            },
        },
    }
}

/// The higher of the best version so far and the next channel's version. A
/// channel that is empty or unreadable changes nothing.
pub open spec fn keep_higher(best: Option<VersionView>, channel: Option<Seq<char>>) -> Option<
    VersionView,
> {
    pick_higher(best, channel_version(channel))
}

/// The prerelease channels in the order in which they are considered.
pub open spec fn channels(tags: DistTagsView) -> Seq<Option<Seq<char>>> {
    seq![tags.next, tags.canary, tags.rc, tags.beta, tags.alpha]
}

/// The best version among the first `upto` channels.
pub open spec fn best_of(list: Seq<Option<Seq<char>>>, upto: int) -> Option<VersionView>
    decreases upto,
{
    if upto <= 0 {
        None
    } else {
        keep_higher(best_of(list, upto - 1), list[upto - 1])
    }
}

/// The highest version that the prerelease channels point to.
pub open spec fn highest_version(tags: DistTagsView) -> Option<VersionView> {
    best_of(channels(tags), 5)
}

/// The canonical text of [`highest_version`].
pub open spec fn highest_prerelease(tags: DistTagsView) -> Option<Seq<char>> {
    match highest_version(tags) {
        Some(v) => Some(version_text(v)),
        None => None,
    }
}

/// The best of a list of channels is the version of one of them, and none
/// of them points to a version that ranks above it. There is none only if
/// no channel reads as a version.
pub proof fn lemma_best_is_maximum(list: Seq<Option<Seq<char>>>, upto: int)
    requires
        0 <= upto <= list.len(),
    ensures
        match best_of(list, upto) {
            Some(best) => {
                &&& exists|i: int| 0 <= i < upto && #[trigger] channel_version(list[i]) == Some(best)
                &&& forall|i: int|
                    0 <= i < upto ==> match #[trigger] channel_version(list[i]) {
                        Some(v) => !version_lt(best, v),
                        None => true,
                    }
            },
            None => forall|i: int| 0 <= i < upto ==> #[trigger] channel_version(list[i]) is None,
        },
    decreases upto,
{
    if upto > 0 {
        lemma_best_is_maximum(list, upto - 1);
        let before = best_of(list, upto - 1);
        let last = channel_version(list[upto - 1]);
        match last {
            None => {
                if before is Some {
                    let w = choose|i: int|
                        0 <= i < upto - 1 && #[trigger] channel_version(list[i]) == before;
                    assert(0 <= w < upto && channel_version(list[w]) == before);
                }
            },
            Some(v) => {
                crate::versions::version::lemma_version_lt_irreflexive(v);
                match before {
                    None => {
                        assert(channel_version(list[upto - 1]) == Some(v));
                    },
                    Some(b) => {
                        if version_lt(v, b) {
                            let w = choose|i: int|
                                0 <= i < upto - 1 && #[trigger] channel_version(list[i]) == before;
                            assert(0 <= w < upto && channel_version(list[w]) == before);
                            crate::versions::version::lemma_version_trichotomy(v, b);
                        } else {
                            assert(channel_version(list[upto - 1]) == Some(v));
                            assert forall|i: int| 0 <= i < upto - 1 implies match #[trigger] channel_version(
                                list[i],
                            ) {
                                Some(u) => !version_lt(v, u),
                                None => true,
                            } by {
                                match channel_version(list[i]) {
                                    Some(u) => {
                                        if version_lt(v, u) {
                                            // b is not below u, and v is not below b
                                            crate::versions::version::lemma_version_trichotomy(v, b);
                                            crate::versions::version::lemma_version_trichotomy(b, u);
                                            lemma_not_below_chain(u, b, v);
                                        }
                                    },
                                    None => {},
                                }
                            }
                        }
                    },
                }
            },
        }
    }
}

/// If `b` does not rank below `u`, and `v` does not rank below `b`, then
/// `v` does not rank below `u`.
pub proof fn lemma_not_below_chain(u: VersionView, b: VersionView, v: VersionView)
    requires
        !version_lt(b, u),
        !version_lt(v, b),
    ensures
        !version_lt(v, u),
{
    crate::versions::version::lemma_version_trichotomy(b, u);
    crate::versions::version::lemma_version_trichotomy(v, b);
    if version_lt(v, u) {
        if version_lt(u, b) {
            crate::versions::version::lemma_version_lt_transitive(v, u, b);
        } else {
            // u and b have the same precedence
            assert(version_lt(v, b) == version_lt(v, u));
        }
    }
}

/// The higher of the best version so far and the next one, if there is a
/// next one. Of two versions of equal precedence the next one stays.
pub fn higher_of(best: Option<VersionSpec>, next: Option<VersionSpec>) -> (r: Option<VersionSpec>)
    ensures
        version_of(r) == pick_higher(version_of(best), version_of(next)),
{
    match next {
        None => best,
        Some(v) => match best {
            None => Some(v),
            Some(b) => if v.less_than(&b) {
                Some(b)
            } else {
                Some(v)
            },
        },
    }
}

/// The version that a channel points to, where the channel is populated and
/// its text reads as a version.
pub fn read_channel(channel: &Option<String>) -> (r: Option<VersionSpec>)
    ensures
        version_of(r) == channel_version(text_of(*channel)),
{
    match channel {
        None => None,
        Some(text) => match VersionSpec::parse(text.as_str()) {
            Ok(v) => Some(v),
            Err(_) => None,
        },
    }
}

/// The higher of `best` and the version that `channel` points to.
fn consider(best: Option<VersionSpec>, channel: &Option<String>) -> (r: Option<VersionSpec>)
    ensures
        version_of(r) == keep_higher(version_of(best), text_of(*channel)),
{
    higher_of(best, read_channel(channel))
}

impl DistTags {
    /// The highest version that the prerelease channels `next`, `canary`,
    /// `rc`, `beta` and `alpha` point to, in canonical text. Channels that
    /// are empty or do not read as a version are passed over; `latest` is
    /// not considered.
    pub fn highest_prerelease_version(&self) -> (r: Option<String>)
        ensures
            text_of(r) == highest_prerelease(self@),
    {
        let ghost list = channels(self@);
        let best = consider(None, &self.next);
        assert(version_of(best) == best_of(list, 1)) by {
            reveal_with_fuel(best_of, 2);
        }
        let best = consider(best, &self.canary);
        assert(version_of(best) == best_of(list, 2));
        let best = consider(best, &self.rc);
        assert(version_of(best) == best_of(list, 3));
        let best = consider(best, &self.beta);
        assert(version_of(best) == best_of(list, 4));
        let best = consider(best, &self.alpha);
        assert(version_of(best) == best_of(list, 5));
        match best {
            Some(v) => Some(v.to_text()),
            None => None,
        }
    }
}

} // verus!
