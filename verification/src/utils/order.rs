//! Lexicographic order on sequences, and the byte order of text.

use vstd::prelude::*;
use vstd::utf8::{encode_utf8, encode_utf8_decode_utf8};

verus! {

/// `lt` is irreflexive, transitive and total: a strict total order.
pub open spec fn strict_total_order<T>(lt: spec_fn(T, T) -> bool) -> bool {
    &&& forall|x: T| !#[trigger] lt(x, x)
    &&& forall|x: T, y: T, z: T| #[trigger] lt(x, y) && #[trigger] lt(y, z) ==> lt(x, z)
    &&& forall|x: T, y: T| x == y || #[trigger] lt(x, y) || lt(y, x)
}

/// Whether `a` comes strictly before `b` lexicographically, looking only at
/// positions `i` and later.
pub open spec fn lex_lt_from<T>(a: Seq<T>, b: Seq<T>, lt: spec_fn(T, T) -> bool, i: int) -> bool
    decreases a.len() - i,
{
    if i < 0 || i >= b.len() {
        false
    } else if i >= a.len() {
        true
    } else if a[i] == b[i] {
        lex_lt_from(a, b, lt, i + 1)
    } else {
        lt(a[i], b[i])
    }
}

/// Whether `a` comes strictly before `b` lexicographically: at the first
/// position where they differ `a` holds the smaller element, or `a` is a
/// proper prefix of `b`.
pub open spec fn lex_lt<T>(a: Seq<T>, b: Seq<T>, lt: spec_fn(T, T) -> bool) -> bool {
    lex_lt_from(a, b, lt, 0)
}

/// `a` and `b` have the same length and the same elements from position `i` on.
pub open spec fn agree_from<T>(a: Seq<T>, b: Seq<T>, i: int) -> bool {
    &&& a.len() == b.len()
    &&& forall|j: int| i <= j < a.len() ==> a[j] == b[j]
}

/// From any position on, no sequence comes before itself.
proof fn lemma_lex_irreflexive_from<T>(a: Seq<T>, lt: spec_fn(T, T) -> bool, i: int)
    requires
        0 <= i,
    ensures
        !lex_lt_from(a, a, lt, i),
    decreases a.len() - i,
{
    if i < a.len() {
        lemma_lex_irreflexive_from(a, lt, i + 1);
    }
}

/// From any position on, coming before is transitive.
proof fn lemma_lex_transitive_from<T>(
    a: Seq<T>,
    b: Seq<T>,
    c: Seq<T>,
    lt: spec_fn(T, T) -> bool,
    i: int,
)
    requires
        strict_total_order(lt),
        0 <= i,
        lex_lt_from(a, b, lt, i),
        lex_lt_from(b, c, lt, i),
    ensures
        lex_lt_from(a, c, lt, i),
    decreases a.len() - i,
{
    if i < a.len() {
        if a[i] == b[i] && b[i] == c[i] {
            lemma_lex_transitive_from(a, b, c, lt, i + 1);
        } else if a[i] == b[i] {
            assert(lt(b[i], c[i]));
        } else if b[i] == c[i] {
            assert(lt(a[i], b[i]));
        } else {
            assert(lt(a[i], b[i]) && lt(b[i], c[i]));
            assert(lt(a[i], c[i]));
            assert(a[i] != c[i]);
        }
    }
}

/// From any position on, of two sequences one comes before the other or
/// they agree.
proof fn lemma_lex_total_from<T>(a: Seq<T>, b: Seq<T>, lt: spec_fn(T, T) -> bool, i: int)
    requires
        strict_total_order(lt),
        0 <= i <= a.len(),
        i <= b.len(),
    ensures
        lex_lt_from(a, b, lt, i) || lex_lt_from(b, a, lt, i) || agree_from(a, b, i),
    decreases a.len() - i,
{
    if i < a.len() && i < b.len() {
        if a[i] == b[i] {
            lemma_lex_total_from(a, b, lt, i + 1);
            if agree_from(a, b, i + 1) {
                assert(agree_from(a, b, i));
            }
        } else {
            assert(lt(a[i], b[i]) || lt(b[i], a[i]));
        }
    }
}

/// The lexicographic order built on a strict total order is itself one.
pub proof fn lemma_lex_strict_total_order<T>(lt: spec_fn(T, T) -> bool)
    requires
        strict_total_order(lt),
    ensures
        forall|a: Seq<T>| !#[trigger] lex_lt(a, a, lt),
        forall|a: Seq<T>, b: Seq<T>, c: Seq<T>|
            #[trigger] lex_lt(a, b, lt) && #[trigger] lex_lt(b, c, lt) ==> lex_lt(a, c, lt),
        forall|a: Seq<T>, b: Seq<T>| a == b || #[trigger] lex_lt(a, b, lt) || lex_lt(b, a, lt),
{
    assert forall|a: Seq<T>| !#[trigger] lex_lt(a, a, lt) by {
        lemma_lex_irreflexive_from(a, lt, 0);
    }
    assert forall|a: Seq<T>, b: Seq<T>, c: Seq<T>|
        #[trigger] lex_lt(a, b, lt) && #[trigger] lex_lt(b, c, lt) implies lex_lt(a, c, lt) by {
        lemma_lex_transitive_from(a, b, c, lt, 0);
    }
    assert forall|a: Seq<T>, b: Seq<T>| a == b || #[trigger] lex_lt(a, b, lt) || lex_lt(
        b,
        a,
        lt,
    ) by {
        lemma_lex_total_from(a, b, lt, 0);
        if agree_from(a, b, 0) {
            assert(a =~= b);
        }
    }
}

/// The order of two bytes by value.
pub open spec fn byte_lt() -> spec_fn(u8, u8) -> bool {
    |x: u8, y: u8| x < y
}

/// Byte-wise lexicographic order.
pub open spec fn bytes_lt(a: Seq<u8>, b: Seq<u8>) -> bool {
    lex_lt(a, b, byte_lt())
}

/// The order of two texts by their UTF-8 bytes, which is how `str` orders.
pub open spec fn text_lt(a: Seq<char>, b: Seq<char>) -> bool {
    bytes_lt(encode_utf8(a), encode_utf8(b))
}

/// Bytes are strictly and totally ordered by value.
proof fn lemma_byte_lt_strict_total_order()
    ensures
        strict_total_order(byte_lt()),
{
}

/// Texts with the same UTF-8 bytes are the same text.
pub proof fn lemma_encoding_injective(a: Seq<char>, b: Seq<char>)
    requires
        encode_utf8(a) == encode_utf8(b),
    ensures
        a == b,
{
    encode_utf8_decode_utf8(a);
    encode_utf8_decode_utf8(b);
}

/// The byte order of text is a strict total order.
pub proof fn lemma_text_lt_strict_total_order()
    ensures
        forall|a: Seq<char>| !#[trigger] text_lt(a, a),
        forall|a: Seq<char>, b: Seq<char>, c: Seq<char>|
            #[trigger] text_lt(a, b) && #[trigger] text_lt(b, c) ==> text_lt(a, c),
        forall|a: Seq<char>, b: Seq<char>| a == b || #[trigger] text_lt(a, b) || text_lt(b, a),
{
    lemma_byte_lt_strict_total_order();
    lemma_lex_strict_total_order(byte_lt());
    assert forall|a: Seq<char>, b: Seq<char>| a == b || #[trigger] text_lt(a, b) || text_lt(
        b,
        a,
    ) by {
        if encode_utf8(a) == encode_utf8(b) {
            lemma_encoding_injective(a, b);
        }
    }
}

/// Whether `a` orders strictly before `b` byte by byte.
pub fn bytes_less(a: &[u8], b: &[u8]) -> (r: bool)
    ensures
        r == bytes_lt(a@, b@),
{
    let mut i: usize = 0;
    while i < a.len() && i < b.len()
        invariant
            i <= a.len(),
            i <= b.len(),
            bytes_lt(a@, b@) == lex_lt_from(a@, b@, byte_lt(), i as int),
        decreases a.len() - i,
    {
        if a[i] != b[i] {
            return a[i] < b[i];
        }
        i = i + 1;
    }
    i < b.len()
}

/// Whether two byte strings are equal.
pub fn bytes_equal(a: &[u8], b: &[u8]) -> (r: bool)
    ensures
        r == (a@ == b@),
{
    if a.len() != b.len() {
        return false;
    }
    let mut i: usize = 0;
    while i < a.len()
        invariant
            i <= a.len(),
            a.len() == b.len(),
            forall|j: int| 0 <= j < i ==> a@[j] == b@[j],
        decreases a.len() - i,
    {
        if a[i] != b[i] {
            return false;
        }
        i = i + 1;
    }
    assert(a@ =~= b@);
    true
}

/// Whether `a` orders strictly before `b` as `str` does, by UTF-8 bytes.
pub fn str_less(a: &str, b: &str) -> (r: bool)
    ensures
        r == text_lt(a@, b@),
{
    bytes_less(a.as_bytes(), b.as_bytes())
}

/// Whether two texts are equal.
pub fn str_eq(a: &str, b: &str) -> (r: bool)
    ensures
        r == (a@ == b@),
{
    let r = bytes_equal(a.as_bytes(), b.as_bytes());
    proof {
        if r {
            lemma_encoding_injective(a@, b@);
        }
    }
    r
}

} // verus!
