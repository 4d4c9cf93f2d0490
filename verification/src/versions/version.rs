//! Semantic versions as plain values: precedence, prerelease and bump
//! classification, and the canonical text.

use crate::utils::order::{
    lemma_lex_strict_total_order, lemma_text_lt_strict_total_order, lex_lt, lex_lt_from, str_eq,
    str_less, strict_total_order, text_lt,
};
use vstd::prelude::*;

verus! {

/// One dot-separated identifier of a prerelease or build section.
#[derive(Debug, Clone, PartialEq, Eq)]
pub enum Identifier {
    /// An identifier made of digits only, held by value.
    Numeric(u64),
    /// Any other identifier, held as written.
    AlphaNumeric(String),
}

/// The mathematical value of an [`Identifier`].
pub enum IdentifierView {
    Numeric(nat),
    AlphaNumeric(Seq<char>),
}

impl View for Identifier {
    type V = IdentifierView;

    open spec fn view(&self) -> IdentifierView {
        match self {
            Identifier::Numeric(n) => IdentifierView::Numeric(*n as nat),
            Identifier::AlphaNumeric(s) => IdentifierView::AlphaNumeric(s@),
        }
    }
}

/// A parsed semantic version: `major.minor.patch[-prerelease][+build]`.
#[derive(Debug, Clone, PartialEq, Eq)]
pub struct VersionSpec {
    pub major: u64,
    pub minor: u64,
    pub patch: u64,
    pub pre_release: Vec<Identifier>,
    pub build: Vec<Identifier>,
}

/// The mathematical value of a [`VersionSpec`].
pub struct VersionView {
    pub major: nat,
    pub minor: nat,
    pub patch: nat,
    pub pre_release: Seq<IdentifierView>,
    pub build: Seq<IdentifierView>,
}

/// The values of a list of identifiers, in order.
pub open spec fn identifiers_view(ids: Seq<Identifier>) -> Seq<IdentifierView> {
    ids.map_values(|i: Identifier| i@)
}

impl View for VersionSpec {
    type V = VersionView;

    open spec fn view(&self) -> VersionView {
        VersionView {
            major: self.major as nat,
            minor: self.minor as nat,
            patch: self.patch as nat,
            pre_release: identifiers_view(self.pre_release@),
            build: identifiers_view(self.build@),
        }
    }
}

/// The tier of a version bump: the most significant numeric component that changed.
#[derive(Debug, Clone, Copy, PartialEq, Eq, Structural)]
pub enum VersionDiff {
    Major,
    Minor,
    Patch,
}

/// Precedence of two identifiers: numbers order by value and below every
/// other identifier; the others order by their bytes.
pub open spec fn identifier_before(a: IdentifierView, b: IdentifierView) -> bool {
    match a {
        IdentifierView::Numeric(x) => match b {
            IdentifierView::Numeric(y) => x < y,
            IdentifierView::AlphaNumeric(_) => true,
        },
        IdentifierView::AlphaNumeric(s) => match b {
            IdentifierView::Numeric(_) => false,
            IdentifierView::AlphaNumeric(t) => text_lt(s, t),
        },
    }
}

/// [`identifier_before`] as a relation value.
pub open spec fn identifier_lt() -> spec_fn(IdentifierView, IdentifierView) -> bool {
    |a: IdentifierView, b: IdentifierView| identifier_before(a, b)
}

/// Precedence of two prerelease sections. A version without one ranks above
/// every prerelease of the same numbers; two prereleases order
/// lexicographically by their identifiers.
pub open spec fn pre_release_lt(a: Seq<IdentifierView>, b: Seq<IdentifierView>) -> bool {
    if a.len() == 0 {
        false
    } else if b.len() == 0 {
        true
    } else {
        lex_lt(a, b, identifier_lt())
    }
}

/// Strict precedence of versions: by major, minor and patch, then by the
/// prerelease section. Build metadata plays no part.
pub open spec fn version_lt(a: VersionView, b: VersionView) -> bool {
    if a.major != b.major {
        a.major < b.major
    } else if a.minor != b.minor {
        a.minor < b.minor
    } else if a.patch != b.patch {
        a.patch < b.patch
    } else {
        pre_release_lt(a.pre_release, b.pre_release)
    }
}

/// Two versions of equal precedence: all but the build metadata agrees.
pub open spec fn same_precedence(a: VersionView, b: VersionView) -> bool {
    &&& a.major == b.major
    &&& a.minor == b.minor
    &&& a.patch == b.patch
    &&& a.pre_release == b.pre_release
}

/// Whether a version carries at least one prerelease identifier.
pub open spec fn is_prerelease(v: VersionView) -> bool {
    v.pre_release.len() > 0
}

/// The bump from `a` to `b`: nothing unless `b` ranks strictly above `a`,
/// else the most significant numeric component in which they differ, if any.
pub open spec fn diff_of(a: VersionView, b: VersionView) -> Option<VersionDiff> {
    if !version_lt(a, b) {
        None
    } else if a.major != b.major {
        Some(VersionDiff::Major)
    } else if a.minor != b.minor {
        Some(VersionDiff::Minor)
    } else if a.patch != b.patch {
        Some(VersionDiff::Patch)
    } else {
        None
    }
}

/// Identifiers are strictly and totally ordered by precedence.
pub proof fn lemma_identifier_order()
    ensures
        strict_total_order(identifier_lt()),
{
    lemma_text_lt_strict_total_order();
    let lt = identifier_lt();
    assert forall|x: IdentifierView| !#[trigger] lt(x, x) by {}
    assert forall|x: IdentifierView, y: IdentifierView, z: IdentifierView| #[trigger]
        lt(x, y) && #[trigger] lt(y, z) implies lt(x, z) by {}
    assert forall|x: IdentifierView, y: IdentifierView| x == y || #[trigger] lt(x, y) || lt(
        y,
        x,
    ) by {}
}

/// No version ranks below itself.
pub proof fn lemma_version_lt_irreflexive(a: VersionView)
    ensures
        !version_lt(a, a),
{
    lemma_identifier_order();
    lemma_lex_strict_total_order(identifier_lt());
}

/// Precedence is transitive.
pub proof fn lemma_version_lt_transitive(a: VersionView, b: VersionView, c: VersionView)
    requires
        version_lt(a, b),
        version_lt(b, c),
    ensures
        version_lt(a, c),
{
    lemma_identifier_order();
    lemma_lex_strict_total_order(identifier_lt());
}

/// Precedence is total: of two versions exactly one ranks below the other,
/// or they have the same precedence.
pub proof fn lemma_version_trichotomy(a: VersionView, b: VersionView)
    ensures
        version_lt(a, b) || same_precedence(a, b) || version_lt(b, a),
        !(version_lt(a, b) && version_lt(b, a)),
        !(version_lt(a, b) && same_precedence(a, b)),
        !(version_lt(b, a) && same_precedence(a, b)),
{
    lemma_identifier_order();
    lemma_lex_strict_total_order(identifier_lt());
    assert(a.pre_release == b.pre_release || lex_lt(a.pre_release, b.pre_release, identifier_lt())
        || lex_lt(b.pre_release, a.pre_release, identifier_lt()));
    if version_lt(a, b) && version_lt(b, a) {
        lemma_version_lt_transitive(a, b, a);
        lemma_version_lt_irreflexive(a);
    }
    if same_precedence(a, b) {
        lemma_version_lt_irreflexive(a);
        assert(version_lt(a, b) == version_lt(a, a));
        assert(version_lt(b, a) == version_lt(a, a));
    }
}

/// A bump is only ever reported towards a strictly higher version, and never
/// from a version to itself.
pub proof fn lemma_diff_implies_newer(a: VersionView, b: VersionView)
    ensures
        diff_of(a, b) is Some ==> version_lt(a, b),
        diff_of(a, a) is None,
{
    lemma_version_lt_irreflexive(a);
}

impl Identifier {
    /// Whether `self` ranks strictly below `other`.
    pub fn less_than(&self, other: &Identifier) -> (r: bool)
        ensures
            r == identifier_before(self@, other@),
    {
        match self {
            Identifier::Numeric(x) => match other {
                Identifier::Numeric(y) => *x < *y,
                Identifier::AlphaNumeric(_) => true,
            },
            Identifier::AlphaNumeric(s) => match other {
                Identifier::Numeric(_) => false,
                Identifier::AlphaNumeric(t) => str_less(s.as_str(), t.as_str()),
            },
        }
    }

    /// Whether the two identifiers are the same.
    pub fn same(&self, other: &Identifier) -> (r: bool)
        ensures
            r == (self@ == other@),
    {
        match self {
            Identifier::Numeric(x) => match other {
                Identifier::Numeric(y) => *x == *y,
                Identifier::AlphaNumeric(_) => false,
            },
            Identifier::AlphaNumeric(s) => match other {
                Identifier::Numeric(_) => false,
                Identifier::AlphaNumeric(t) => str_eq(s.as_str(), t.as_str()),
            },
        }
    }
}

/// Whether the prerelease section `a` ranks strictly below `b`.
pub fn pre_release_less(a: &Vec<Identifier>, b: &Vec<Identifier>) -> (r: bool)
    ensures
        r == pre_release_lt(identifiers_view(a@), identifiers_view(b@)),
{
    if a.len() == 0 {
        return false;
    }
    if b.len() == 0 {
        return true;
    }
    let ghost av = identifiers_view(a@);
    let ghost bv = identifiers_view(b@);
    let mut i: usize = 0;
    while i < a.len() && i < b.len()
        invariant
            i <= a.len(),
            i <= b.len(),
            av == identifiers_view(a@),
            bv == identifiers_view(b@),
            lex_lt(av, bv, identifier_lt()) == lex_lt_from(av, bv, identifier_lt(), i as int),
        decreases a.len() - i,
    {
        if !a[i].same(&b[i]) {
            return a[i].less_than(&b[i]);
        }
        i = i + 1;
    }
    i < b.len()
}

/// Whether two prerelease sections hold the same identifiers.
pub fn pre_release_same(a: &Vec<Identifier>, b: &Vec<Identifier>) -> (r: bool)
    ensures
        r == (identifiers_view(a@) == identifiers_view(b@)),
{
    if a.len() != b.len() {
        return false;
    }
    let mut i: usize = 0;
    while i < a.len()
        invariant
            i <= a.len(),
            a.len() == b.len(),
            forall|j: int| 0 <= j < i ==> a@[j]@ == b@[j]@,
        decreases a.len() - i,
    {
        if !a[i].same(&b[i]) {
            assert(identifiers_view(a@)[i as int] != identifiers_view(b@)[i as int]);
            return false;
        }
        i = i + 1;
    }
    assert(identifiers_view(a@) =~= identifiers_view(b@));
    true
}

impl VersionSpec {
    /// Whether `self` ranks strictly below `other`.
    pub fn less_than(&self, other: &VersionSpec) -> (r: bool)
        ensures
            r == version_lt(self@, other@),
    {
        if self.major != other.major {
            self.major < other.major
        } else if self.minor != other.minor {
            self.minor < other.minor
        } else if self.patch != other.patch {
            self.patch < other.patch
        } else {
            pre_release_less(&self.pre_release, &other.pre_release)
        }
    }

    /// Whether `self` and `other` have the same precedence.
    pub fn same_precedence(&self, other: &VersionSpec) -> (r: bool)
        ensures
            r == same_precedence(self@, other@),
    {
        self.major == other.major && self.minor == other.minor && self.patch == other.patch
            && pre_release_same(&self.pre_release, &other.pre_release)
    }

    /// Whether the version carries a prerelease section.
    pub fn is_prerelease(&self) -> (r: bool)
        ensures
            r == is_prerelease(self@),
    {
        self.pre_release.len() > 0
    }
}

/// Classifies the bump from `a` to `b`.
pub fn classify_diff(a: &VersionSpec, b: &VersionSpec) -> (d: Option<VersionDiff>)
    ensures
        d == diff_of(a@, b@),
{
    if !a.less_than(b) {
        None
    } else if a.major != b.major {
        Some(VersionDiff::Major)
    } else if a.minor != b.minor {
        Some(VersionDiff::Minor)
    } else if a.patch != b.patch {
        Some(VersionDiff::Patch)
    } else {
        None
    }
}

} // verus!
