//! One available update, and how to show it.

use vstd::prelude::*;
use vstd::string::{StrSliceExecFns, StringExecFns};

verus! {

/// An available update: a package, the version it is declared with, and
/// the version to move to.
#[derive(Debug, Clone, PartialEq, Eq)]
pub struct PackageInfo {
    pub pkg_name: String,
    pub current_version: String,
    pub latest_version: String,
}

/// The mathematical value of a [`PackageInfo`].
pub struct PackageInfoView {
    pub pkg_name: Seq<char>,
    pub current_version: Seq<char>,
    pub latest_version: Seq<char>,
}

impl View for PackageInfo {
    type V = PackageInfoView;

    open spec fn view(&self) -> PackageInfoView {
        PackageInfoView {
            pkg_name: self.pkg_name@,
            current_version: self.current_version@,
            latest_version: self.latest_version@,
        }
    }
}

/// The values of a list of updates, in order.
pub open spec fn infos_view(list: Seq<PackageInfo>) -> Seq<PackageInfoView> {
    list.map_values(|info: PackageInfo| info@)
}

/// How strongly an update is to be brought out when shown.
#[derive(Debug, Clone, Copy, PartialEq, Eq, Structural)]
pub enum Highlight {
    /// The major number rises.
    Major,
    /// The minor number rises, the major number does not.
    Minor,
    /// Anything else.
    Other,
}

/// A range operator that may stand before a declared version.
pub open spec fn is_range_mark(c: char) -> bool {
    c == '^' || c == '~'
}

/// The number of leading `^` and `~` of `s` at or after `from`.
pub open spec fn marks_end(s: Seq<char>, from: int) -> int
    decreases s.len() - from,
{
    if from >= s.len() {
        s.len() as int
    } else if !is_range_mark(s[from]) {
        from
    } else {
        marks_end(s, from + 1)
    }
}

/// `s` without its leading `^` and `~`.
pub open spec fn unmarked(s: Seq<char>) -> Seq<char> {
    s.skip(marks_end(s, 0))
}

/// Strips leading `^` and `~` from a declared version.
pub fn normalize_version(version: &str) -> (r: &str)
    ensures
        r@ == unmarked(version@),
{
    let n: usize = version.unicode_len();
    let mut i: usize = 0;
    while i < n
        invariant
            i <= n,
            n == version@.len(),
            marks_end(version@, 0) == marks_end(version@, i as int),
        decreases n - i,
    {
        let c = version.get_char(i);
        if c != '^' && c != '~' {
            return version.substring_char(i, n);
        }
        i = i + 1;
    }
    version.substring_char(i, n)
}

/// The major and minor number of the version that `semver::Version::parse`
/// reads from a text, or nothing where it rejects the text.
pub uninterp spec fn strict_version_core(text: Seq<char>) -> Option<(nat, nat)>;

/// Calls `semver::Version::parse` and picks the major and minor number of
/// its result. Trusted: the result is what [`strict_version_core`] names.
#[verifier::external_body]
fn read_strict_core(text: &str) -> (r: Option<(u64, u64)>)
    ensures
        r is Some <==> strict_version_core(text@) is Some,
        r matches Some(core) ==> strict_version_core(text@) == Some(
            (core.0 as nat, core.1 as nat),
        ),
{
    semver::Version::parse(text).ok().map(|v| (v.major, v.minor))
}

/// The highlight for a move between two versions given by their major and
/// minor numbers.
pub open spec fn highlight_of(current: (nat, nat), latest: (nat, nat)) -> Highlight {
    if latest.0 > current.0 {
        Highlight::Major
    } else if latest.1 > current.1 {
        Highlight::Minor
    } else {
        Highlight::Other
    }
}

/// The highlight of an update, or nothing where one of its versions, with
/// leading `^` and `~` stripped, is not a strict semantic version.
pub open spec fn highlight_spec(info: PackageInfoView) -> Option<Highlight> {
    match strict_version_core(unmarked(info.current_version)) {
        None => None,
        Some(current) => match strict_version_core(unmarked(info.latest_version)) {
            None => None,
            Some(latest) => Some(highlight_of(current, latest)),
        },
    }
}

/// The line that shows an update: `name: current → latest`.
pub open spec fn line_of(info: PackageInfoView) -> Seq<char> {
    info.pkg_name + ": "@ + info.current_version + " → "@ + info.latest_version
}

/// The highlight for a move between two versions given by their major and
/// minor numbers.
pub fn highlight_between(current: (u64, u64), latest: (u64, u64)) -> (r: Highlight)
    ensures
        r == highlight_of((current.0 as nat, current.1 as nat), (latest.0 as nat, latest.1 as nat)),
{
    if latest.0 > current.0 {
        Highlight::Major
    } else if latest.1 > current.1 {
        Highlight::Minor
    } else {
        Highlight::Other
    }
}

impl PackageInfo {
    /// How to bring out the new version when the update is shown.
    pub fn highlight(&self) -> (r: Option<Highlight>)
        ensures
            r == highlight_spec(self@),
    {
        let current = match read_strict_core(normalize_version(self.current_version.as_str())) {
            Some(core) => core,
            None => {
                return None;
            },
        };
        let latest = match read_strict_core(normalize_version(self.latest_version.as_str())) {
            Some(core) => core,
            None => {
                return None;
            },
        };
        Some(highlight_between(current, latest))
    }

    /// The line that shows the update, without colour.
    pub fn to_text(&self) -> (s: String)
        ensures
            s@ == line_of(self@),
    {
        let mut s = self.pkg_name.clone();
        s.append(": ");
        s.append(self.current_version.as_str());
        s.append(" → ");
        s.append(self.latest_version.as_str());
        s
    }

    /// The argument that asks a package manager for the update: `name@version`.
    pub fn install_arg(&self) -> (s: String)
        ensures
            s@ == self.pkg_name@ + "@"@ + self.latest_version@,
    {
        let mut s = self.pkg_name.clone();
        s.append("@");
        s.append(self.latest_version.as_str());
        s
    }
}

} // verus!
