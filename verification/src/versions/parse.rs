//! Reading versions and ranges from text.
//!
//! The grammar of versions and ranges is that of the `nodejs_semver` crate,
//! which does the reading. What it returns is named here, not restated.

use crate::versions::version::{Identifier, VersionSpec, VersionView};
use vstd::prelude::*;
use vstd::string::StrSliceExecFns;

verus! {

/// Why a version or a constraint could not be read.
#[derive(Debug, Clone, Copy, PartialEq, Eq, Structural)]
pub enum VersionError {
    /// The text is not a semantic version.
    InvalidVersion,
    /// The text is not a range expression.
    InvalidRange,
}

impl VersionError {
    /// A short description, for warnings.
    pub fn message(&self) -> (r: &'static str)
        ensures
            r@ == (match *self {
                VersionError::InvalidVersion => "invalid semantic version"@,
                VersionError::InvalidRange => "invalid version range"@,
            }),
    {
        match self {
            VersionError::InvalidVersion => "invalid semantic version",
            VersionError::InvalidRange => "invalid version range",
        }
    }
}

/// An ASCII decimal digit.
pub open spec fn is_digit(c: char) -> bool {
    '0' <= c && c <= '9'
}

/// The position of the first digit of `s` at or after `from`, or the length
/// of `s` if there is none.
pub open spec fn first_digit(s: Seq<char>, from: int) -> int
    decreases s.len() - from,
{
    if from >= s.len() {
        s.len() as int
    } else if is_digit(s[from]) {
        from
    } else {
        first_digit(s, from + 1)
    }
}

/// `s` without the characters before its first digit.
pub open spec fn normalized(s: Seq<char>) -> Seq<char> {
    s.skip(first_digit(s, 0))
}

/// Before the first digit there is no digit, and at it there is one.
proof fn lemma_first_digit(s: Seq<char>, from: int)
    requires
        0 <= from <= s.len(),
    ensures
        from <= first_digit(s, from) <= s.len(),
        forall|j: int| from <= j < first_digit(s, from) ==> !is_digit(s[j]),
        first_digit(s, from) < s.len() ==> is_digit(s[first_digit(s, from)]),
    decreases s.len() - from,
{
    if from < s.len() && !is_digit(s[from]) {
        lemma_first_digit(s, from + 1);
    }
}

/// Stripping removes a digit-free prefix and nothing else, leaves a text
/// that is empty or starts with a digit, and changes nothing when repeated.
pub proof fn lemma_normalized(s: Seq<char>)
    ensures
        s == s.take(first_digit(s, 0)) + normalized(s),
        forall|j: int| 0 <= j < first_digit(s, 0) ==> !is_digit(s[j]),
        normalized(s).len() > 0 ==> is_digit(normalized(s)[0]),
        normalized(normalized(s)) == normalized(s),
{
    lemma_first_digit(s, 0);
    let k = first_digit(s, 0);
    assert(s =~= s.take(k) + s.skip(k));
    let t = normalized(s);
    if t.len() > 0 {
        assert(t[0] == s[k]);
        assert(first_digit(t, 0) == 0);
    }
    assert(t.skip(first_digit(t, 0)) =~= t);
}

/// Strips everything before the first digit: `^`, `~`, `v` or any other
/// prefix. Purely textual; the stripped operator is not interpreted.
pub fn normalize_version(version: &str) -> (r: &str)
    ensures
        r@ == normalized(version@),
{
    let n: usize = version.unicode_len();
    let mut i: usize = 0;
    while i < n
        invariant
            i <= n,
            n == version@.len(),
            first_digit(version@, 0) == first_digit(version@, i as int),
        decreases n - i,
    {
        let c = version.get_char(i);
        if '0' <= c && c <= '9' {
            return version.substring_char(i, n);
        }
        i = i + 1;
    }
    version.substring_char(i, n)
}

/// The version that `nodejs_semver::Version::parse` reads from a text, or
/// nothing where it rejects the text.
pub uninterp spec fn semver_parse(text: Seq<char>) -> Option<VersionView>;

/// Whether `nodejs_semver::Range::parse` accepts a text as a range.
pub uninterp spec fn range_valid(text: Seq<char>) -> bool;

/// Whether the range that `nodejs_semver::Range::parse` reads from a text
/// is satisfied by a version, as `nodejs_semver::Range::satisfies` decides.
pub uninterp spec fn range_admits(text: Seq<char>, version: VersionView) -> bool;

/// Calls `nodejs_semver::Version::parse` and moves the parts of its result
/// into a [`VersionSpec`]. Trusted: the result is what [`semver_parse`] names.
#[verifier::external_body]
fn read_version(text: &str) -> (r: Option<VersionSpec>)
    ensures
        r is Some <==> semver_parse(text@) is Some,
        r matches Some(v) ==> semver_parse(text@) == Some(v@),
{
    let own = |id: nodejs_semver::Identifier| match id {
        nodejs_semver::Identifier::Numeric(n) => Identifier::Numeric(n),
        nodejs_semver::Identifier::AlphaNumeric(s) => Identifier::AlphaNumeric(s),
    };
    let parts = nodejs_semver::Version::parse(text).ok()?.into_parts();
    Some(VersionSpec {
        major: parts.major,
        minor: parts.minor,
        patch: parts.patch,
        pre_release: parts.pre_release.into_iter().map(own).collect(),
        build: parts.build.into_iter().map(own).collect(),
    })
}

/// Calls `nodejs_semver::Range::parse` and says whether it accepted the
/// text. Trusted: the answer is what [`range_valid`] names.
#[verifier::external_body]
fn range_parses(text: &str) -> (ok: bool)
    ensures
        ok == range_valid(text@),
{
    nodejs_semver::Range::parse(text).is_ok()
}

/// Calls `nodejs_semver::Range::parse` on the text and
/// `nodejs_semver::Range::satisfies` on the version, rebuilt from its
/// parts. Trusted: for a text that parses the answer is what
/// [`range_admits`] names; for one that does not it is `false`.
#[verifier::external_body]
fn range_satisfied_by(text: &str, version: &VersionSpec) -> (r: bool)
    ensures
        range_valid(text@) ==> r == range_admits(text@, version@),
        !range_valid(text@) ==> !r,
{
    let outside = |id: &Identifier| match id {
        Identifier::Numeric(n) => nodejs_semver::Identifier::Numeric(*n),
        Identifier::AlphaNumeric(s) => nodejs_semver::Identifier::AlphaNumeric(s.clone()),
    };
    let v = nodejs_semver::Version::new(
        version.major,
        version.minor,
        version.patch,
        version.pre_release.iter().map(outside).collect(),
        version.build.iter().map(outside).collect(),
    );
    nodejs_semver::Range::parse(text).map(|range| range.satisfies(&v)).unwrap_or(false)
}

impl VersionSpec {
    /// Reads a version as written, with nothing stripped.
    pub fn parse(text: &str) -> (r: Result<VersionSpec, VersionError>)
        ensures
            r is Ok <==> semver_parse(text@) is Some,
            r matches Ok(v) ==> semver_parse(text@) == Some(v@),
            r matches Err(e) ==> e == VersionError::InvalidVersion,
    {
        match read_version(text) {
            Some(v) => Ok(v),
            None => Err(VersionError::InvalidVersion),
        }
    }
}

/// Reads a version from a declared constraint or a plain version: the text
/// is stripped up to its first digit and the rest is read as a version.
pub fn parse_version(s: &str) -> (r: Result<VersionSpec, VersionError>)
    ensures
        r is Ok <==> semver_parse(normalized(s@)) is Some,
        r matches Ok(v) ==> semver_parse(normalized(s@)) == Some(v@),
        r matches Err(e) ==> e == VersionError::InvalidVersion,
{
    VersionSpec::parse(normalize_version(s))
}

/// A version constraint that has been checked to be a range expression.
#[derive(Debug, PartialEq, Eq)]
pub struct RangeSpec {
    source: String,
}

impl View for RangeSpec {
    type V = Seq<char>;

    /// The expression as written.
    closed spec fn view(&self) -> Seq<char> {
        self.source@
    }
}

impl RangeSpec {
    /// The expression is one that reads as a range.
    #[verifier::type_invariant]
    spec fn well_formed(&self) -> bool {
        range_valid(self.source@)
    }

    /// The expression as written.
    pub fn source(&self) -> (r: &str)
        ensures
            r@ == self@,
    {
        self.source.as_str()
    }

    /// Whether `version` lies in the range.
    pub fn satisfies(&self, version: &VersionSpec) -> (r: bool)
        ensures
            range_valid(self@),
            r == range_admits(self@, version@),
    {
        proof {
            use_type_invariant(self);
        }
        range_satisfied_by(self.source.as_str(), version)
    }
}

/// Reads a constraint as a range expression.
pub fn parse_range(s: &str) -> (r: Result<RangeSpec, VersionError>)
    ensures
        r is Ok <==> range_valid(s@),
        r matches Ok(range) ==> range@ == s@,
        r matches Err(e) ==> e == VersionError::InvalidRange,
{
    if range_parses(s) {
        Ok(RangeSpec { source: s.to_owned() })
    } else {
        Err(VersionError::InvalidRange)
    }
}

} // verus!
