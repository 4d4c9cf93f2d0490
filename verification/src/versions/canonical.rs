//! The canonical text of a version.

use crate::versions::parse::{first_digit, is_digit, normalized};
use crate::versions::version::{
    identifiers_view, is_prerelease, Identifier, IdentifierView, VersionSpec, VersionView,
};
use vstd::prelude::*;
use vstd::string::StringExecFns;

verus! {

/// The character of one decimal digit.
pub open spec fn digit_char(d: nat) -> char {
    if d == 0 {
        '0'
    } else if d == 1 {
        '1'
    } else if d == 2 {
        '2'
    } else if d == 3 {
        '3'
    } else if d == 4 {
        '4'
    } else if d == 5 {
        '5'
    } else if d == 6 {
        '6'
    } else if d == 7 {
        '7'
    } else if d == 8 {
        '8'
    } else {
        '9'
    }
}

/// A number in decimal, without leading zeros.
pub open spec fn decimal_text(n: nat) -> Seq<char>
    decreases n,
{
    if n < 10 {
        seq![digit_char(n)]
    } else {
        decimal_text(n / 10).push(digit_char(n % 10))
    }
}

/// An identifier as written: a number in decimal, any other as it is.
pub open spec fn identifier_text(id: IdentifierView) -> Seq<char> {
    match id {
        IdentifierView::Numeric(n) => decimal_text(n),
        IdentifierView::AlphaNumeric(s) => s,
    }
}

/// The first `upto` identifiers, separated by dots.
pub open spec fn joined(ids: Seq<IdentifierView>, upto: int) -> Seq<char>
    decreases upto,
{
    if upto <= 0 {
        Seq::empty()
    } else if upto == 1 {
        identifier_text(ids[0])
    } else {
        joined(ids, upto - 1) + seq!['.'] + identifier_text(ids[upto - 1])
    }
}

/// The numeric triple: `major.minor.patch`.
pub open spec fn core_text(v: VersionView) -> Seq<char> {
    decimal_text(v.major) + seq!['.'] + decimal_text(v.minor) + seq!['.'] + decimal_text(v.patch)
}

/// The prerelease section with its leading `-`, or nothing.
pub open spec fn pre_release_text(v: VersionView) -> Seq<char> {
    if v.pre_release.len() > 0 {
        seq!['-'] + joined(v.pre_release, v.pre_release.len() as int)
    } else {
        Seq::empty()
    }
}

/// The build section with its leading `+`, or nothing.
pub open spec fn build_text(v: VersionView) -> Seq<char> {
    if v.build.len() > 0 {
        seq!['+'] + joined(v.build, v.build.len() as int)
    } else {
        Seq::empty()
    }
}

/// The canonical text of a version: `major.minor.patch[-prerelease][+build]`.
pub open spec fn version_text(v: VersionView) -> Seq<char> {
    core_text(v) + pre_release_text(v) + build_text(v)
}

/// Whether a version's text carries a prerelease section: a `-` directly
/// after the numeric triple `core`.
pub open spec fn has_prerelease_section(text: Seq<char>, core: Seq<char>) -> bool {
    &&& text.len() > core.len()
    &&& text.subrange(0, core.len() as int) == core
    &&& text[core.len() as int] == '-'
}

/// A version is a prerelease exactly when its canonical text carries a
/// prerelease section.
pub proof fn lemma_prerelease_iff_text_section(v: VersionView)
    ensures
        is_prerelease(v) <==> has_prerelease_section(version_text(v), core_text(v)),
{
    let core = core_text(v);
    let text = version_text(v);
    assert(text.subrange(0, core.len() as int) =~= core);
    if v.pre_release.len() > 0 {
        assert(text[core.len() as int] == '-');
    } else if v.build.len() > 0 {
        assert(text[core.len() as int] == '+');
    } else {
        assert(text.len() == core.len());
    }
}

/// A number in decimal begins with a digit.
pub proof fn lemma_decimal_text_starts_with_digit(n: nat)
    ensures
        decimal_text(n).len() > 0,
        is_digit(decimal_text(n)[0]),
    decreases n,
{
    if n >= 10 {
        lemma_decimal_text_starts_with_digit(n / 10);
        assert(decimal_text(n)[0] == decimal_text(n / 10)[0]);
    }
}

/// The canonical text of a version has no prefix to strip: reading it as a
/// declared version reads it as written.
pub proof fn lemma_canonical_text_is_normalized(v: VersionView)
    ensures
        normalized(version_text(v)) == version_text(v),
{
    lemma_decimal_text_starts_with_digit(v.major);
    let text = version_text(v);
    assert(text[0] == decimal_text(v.major)[0]);
    assert(first_digit(text, 0) == 0);
    assert(text.skip(0) =~= text);
}

/// One decimal digit as text.
fn digit_str(d: u64) -> (r: &'static str)
    requires
        d < 10,
    ensures
        r@ == seq![digit_char(d as nat)],
{
    proof {
        reveal_strlit("0");
        reveal_strlit("1");
        reveal_strlit("2");
        reveal_strlit("3");
        reveal_strlit("4");
        reveal_strlit("5");
        reveal_strlit("6");
        reveal_strlit("7");
        reveal_strlit("8");
        reveal_strlit("9");
    }
    let r = if d == 0 {
        "0"
    } else if d == 1 {
        "1"
    } else if d == 2 {
        "2"
    } else if d == 3 {
        "3"
    } else if d == 4 {
        "4"
    } else if d == 5 {
        "5"
    } else if d == 6 {
        "6"
    } else if d == 7 {
        "7"
    } else if d == 8 {
        "8"
    } else {
        "9"
    };
    assert(r@ =~= seq![digit_char(d as nat)]);
    r
}

/// Appends `n` in decimal.
pub fn push_decimal(out: &mut String, n: u64)
    ensures
        final(out)@ == old(out)@ + decimal_text(n as nat),
    decreases n,
{
    if n >= 10 {
        push_decimal(out, n / 10);
    }
    let ghost before = out@;
    out.append(digit_str(n % 10));
    proof {
        if n >= 10 {
            assert(out@ =~= old(out)@ + decimal_text((n / 10) as nat).push(
                digit_char((n % 10) as nat),
            ));
        } else {
            assert(out@ =~= old(out)@ + seq![digit_char(n as nat)]);
        }
    }
}

/// Appends an identifier as written.
pub fn push_identifier(out: &mut String, id: &Identifier)
    ensures
        final(out)@ == old(out)@ + identifier_text(id@),
{
    match id {
        Identifier::Numeric(n) => push_decimal(out, *n),
        Identifier::AlphaNumeric(s) => out.append(s.as_str()),
    }
}

/// Appends the identifiers, separated by dots.
pub fn push_joined(out: &mut String, ids: &Vec<Identifier>)
    ensures
        final(out)@ == old(out)@ + joined(identifiers_view(ids@), ids.len() as int),
{
    let ghost idv = identifiers_view(ids@);
    let mut i: usize = 0;
    assert(out@ =~= old(out)@ + joined(idv, 0));
    while i < ids.len()
        invariant
            i <= ids.len(),
            idv == identifiers_view(ids@),
            out@ == old(out)@ + joined(idv, i as int),
        decreases ids.len() - i,
    {
        let ghost before = out@;
        if i > 0 {
            proof {
                reveal_strlit(".");
            }
            out.append(".");
            assert(out@ =~= before + seq!['.']);
        }
        push_identifier(out, &ids[i]);
        proof {
            assert(idv[i as int] == ids@[i as int]@);
            if i == 0 {
                assert(joined(idv, 0) =~= Seq::<char>::empty());
                assert(out@ =~= old(out)@ + joined(idv, 1));
            } else {
                assert(out@ =~= old(out)@ + (joined(idv, i as int) + seq!['.'] + identifier_text(
                    idv[i as int],
                )));
            }
        }
        i = i + 1;
    }
}

impl VersionSpec {
    /// The canonical text of the version.
    pub fn to_text(&self) -> (s: String)
        ensures
            s@ == version_text(self@),
    {
        proof {
            reveal_strlit(".");
            reveal_strlit("-");
            reveal_strlit("+");
        }
        let mut s = String::new();
        push_decimal(&mut s, self.major);
        s.append(".");
        push_decimal(&mut s, self.minor);
        s.append(".");
        push_decimal(&mut s, self.patch);
        assert(s@ =~= core_text(self@));
        if self.pre_release.len() > 0 {
            s.append("-");
            push_joined(&mut s, &self.pre_release);
        }
        assert(s@ =~= core_text(self@) + pre_release_text(self@));
        if self.build.len() > 0 {
            s.append("+");
            push_joined(&mut s, &self.build);
        }
        assert(s@ =~= version_text(self@));
        s
    }
}

} // verus!
