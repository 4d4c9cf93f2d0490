//! Putting the available updates in the order in which they are shown: by
//! package name, ascending, in byte order.

use crate::package_info::{infos_view, PackageInfo, PackageInfoView};
use crate::utils::order::{lemma_text_lt_strict_total_order, str_less, text_lt};
use vstd::prelude::*;

verus! {

/// Whether `a` is shown strictly before `b`: its name is lower in byte order.
pub open spec fn name_before(a: PackageInfoView, b: PackageInfoView) -> bool {
    text_lt(a.pkg_name, b.pkg_name)
}

/// The first position at or after `from` whose update is not shown before
/// `x`, or the length of `s` if there is none.
pub open spec fn insertion_point(s: Seq<PackageInfoView>, x: PackageInfoView, from: int) -> int
    decreases s.len() - from,
{
    if from >= s.len() {
        s.len() as int
    } else if !name_before(s[from], x) {
        from
    } else {
        insertion_point(s, x, from + 1)
    }
}

/// `s` with `x` put in before the first update that is not shown before it.
pub open spec fn insert_by_name(s: Seq<PackageInfoView>, x: PackageInfoView) -> Seq<
    PackageInfoView,
> {
    s.insert(insertion_point(s, x, 0), x)
}

/// The updates in the order shown. Updates of the same name keep the order
/// in which they came.
pub open spec fn sorted_by_name(s: Seq<PackageInfoView>) -> Seq<PackageInfoView>
    decreases s.len(),
{
    if s.len() == 0 {
        Seq::empty()
    } else {
        insert_by_name(sorted_by_name(s.drop_first()), s.first())
    }
}

/// No update stands after one that is shown strictly after it.
pub open spec fn is_sorted_by_name(s: Seq<PackageInfoView>) -> bool {
    forall|i: int, j: int| 0 <= i < j < s.len() ==> !name_before(s[j], s[i])
}

/// Where an update is put in: after every update shown before it, and
/// before the first that is not.
proof fn lemma_insertion_point(s: Seq<PackageInfoView>, x: PackageInfoView, from: int)
    requires
        0 <= from <= s.len(),
    ensures
        from <= insertion_point(s, x, from) <= s.len(),
        forall|k: int| from <= k < insertion_point(s, x, from) ==> name_before(s[k], x),
        insertion_point(s, x, from) < s.len() ==> !name_before(s[insertion_point(s, x, from)], x),
    decreases s.len() - from,
{
    if from < s.len() && name_before(s[from], x) {
        lemma_insertion_point(s, x, from + 1);
    }
}

/// Putting an update in by name keeps a sorted list sorted.
pub proof fn lemma_insert_keeps_sorted(s: Seq<PackageInfoView>, x: PackageInfoView)
    requires
        is_sorted_by_name(s),
    ensures
        is_sorted_by_name(insert_by_name(s, x)),
{
    lemma_text_lt_strict_total_order();
    lemma_insertion_point(s, x, 0);
    let p = insertion_point(s, x, 0);
    let t = insert_by_name(s, x);
    assert forall|i: int, j: int| 0 <= i < j < t.len() implies !name_before(t[j], t[i]) by {
        if j < p {
        } else if j == p {
            assert(name_before(s[i], x));
            if name_before(x, s[i]) {
                assert(text_lt(x.pkg_name, x.pkg_name));
            }
        } else if i < p {
            assert(!name_before(s[j - 1], s[i]));
        } else if i == p {
            assert(!name_before(s[p], x));
            if j - 1 > p {
                assert(!name_before(s[j - 1], s[p]));
            }
            if name_before(s[j - 1], x) {
                if text_lt(x.pkg_name, s[p].pkg_name) {
                    assert(text_lt(s[j - 1].pkg_name, s[p].pkg_name));
                } else {
                    assert(x.pkg_name == s[p].pkg_name);
                }
            }
        } else {
            assert(!name_before(s[j - 1], s[i - 1]));
        }
    }
}

/// The order shown is sorted by name.
pub proof fn lemma_sorted_by_name_is_sorted(s: Seq<PackageInfoView>)
    ensures
        is_sorted_by_name(sorted_by_name(s)),
    decreases s.len(),
{
    if s.len() > 0 {
        lemma_sorted_by_name_is_sorted(s.drop_first());
        lemma_insert_keeps_sorted(sorted_by_name(s.drop_first()), s.first());
    }
}

/// Sorting neither drops, adds nor repeats an update.
pub proof fn lemma_sorted_by_name_permutes(s: Seq<PackageInfoView>)
    ensures
        sorted_by_name(s).to_multiset() == s.to_multiset(),
        sorted_by_name(s).len() == s.len(),
    decreases s.len(),
{
    broadcast use vstd::seq_lib::group_to_multiset_ensures;

    if s.len() > 0 {
        let rest = sorted_by_name(s.drop_first());
        let x = s.first();
        lemma_sorted_by_name_permutes(s.drop_first());
        lemma_insertion_point(rest, x, 0);
        let p = insertion_point(rest, x, 0);
        let t = rest.insert(p, x);
        assert(t.remove(p) =~= rest);
        assert(t[p] == x);
        assert(t.remove(p).to_multiset() =~= t.to_multiset().remove(x));
        assert(t.to_multiset().count(x) > 0) by {
            assert(t.contains(x));
        }
        assert(t.to_multiset() =~= rest.to_multiset().insert(x));
        assert(s =~= seq![x] + s.drop_first());
        assert(s.to_multiset() =~= s.drop_first().to_multiset().insert(x)) by {
            assert(s.remove(0) =~= s.drop_first());
            assert(s.remove(0).to_multiset() =~= s.to_multiset().remove(s[0]));
            assert(s.to_multiset().count(x) > 0) by {
                assert(s.contains(x));
            }
        }
    }
}

/// No two updates are for the same package.
pub open spec fn names_distinct(s: Seq<PackageInfoView>) -> bool {
    forall|i: int, j: int|
        0 <= i < s.len() && 0 <= j < s.len() && i != j ==> s[i].pkg_name != s[j].pkg_name
}

/// Sorting updates of distinct packages leaves them updates of distinct
/// packages.
pub proof fn lemma_sorted_keeps_names_distinct(s: Seq<PackageInfoView>)
    requires
        names_distinct(s),
    ensures
        names_distinct(sorted_by_name(s)),
    decreases s.len(),
{
    broadcast use vstd::seq_lib::group_to_multiset_ensures;

    if s.len() > 0 {
        let rest = s.drop_first();
        let x = s.first();
        assert(names_distinct(rest)) by {
            assert forall|i: int, j: int|
                0 <= i < rest.len() && 0 <= j < rest.len() && i != j implies rest[i].pkg_name
                != rest[j].pkg_name by {
                assert(s[i + 1].pkg_name != s[j + 1].pkg_name);
            }
        }
        lemma_sorted_keeps_names_distinct(rest);
        lemma_sorted_by_name_permutes(rest);
        let sorted = sorted_by_name(rest);
        lemma_insertion_point(sorted, x, 0);
        let p = insertion_point(sorted, x, 0);
        let t = sorted.insert(p, x);
        assert forall|i: int| 0 <= i < sorted.len() implies sorted[i].pkg_name != x.pkg_name by {
            assert(sorted.contains(sorted[i]));
            assert(sorted.to_multiset().count(sorted[i]) > 0);
            assert(rest.to_multiset().count(sorted[i]) > 0);
            assert(rest.contains(sorted[i]));
            let k = choose|k: int| 0 <= k < rest.len() && rest[k] == sorted[i];
            assert(s[k + 1].pkg_name != s[0].pkg_name);
        }
        assert forall|i: int, j: int|
            0 <= i < t.len() && 0 <= j < t.len() && i != j implies t[i].pkg_name
            != t[j].pkg_name by {
            let a = if i < p {
                i
            } else {
                i - 1
            };
            let b = if j < p {
                j
            } else {
                j - 1
            };
            if i == p {
                assert(t[j] == sorted[b]);
            } else if j == p {
                assert(t[i] == sorted[a]);
            } else {
                assert(t[i] == sorted[a] && t[j] == sorted[b]);
                assert(a != b);
            }
        }
    }
}

/// Updates of distinct packages, sorted by name, can stand in one order
/// only: two such lists of the same updates are the same list.
pub proof fn lemma_sorted_unique(s: Seq<PackageInfoView>, t: Seq<PackageInfoView>)
    requires
        is_sorted_by_name(s),
        is_sorted_by_name(t),
        names_distinct(s),
        names_distinct(t),
        s.to_set() == t.to_set(),
    ensures
        s == t,
    decreases s.len(),
{
    lemma_text_lt_strict_total_order();
    if s.len() == 0 {
        if t.len() > 0 {
            assert(t.contains(t[0]));
            assert(t.to_set().contains(t[0]));
            assert(s.contains(t[0]));
        }
        assert(s =~= t);
    } else {
        assert(s.contains(s[0]));
        assert(s.to_set().contains(s[0]));
        assert(t.contains(s[0]));
        let k = choose|k: int| 0 <= k < t.len() && t[k] == s[0];
        assert(t.contains(t[0]));
        assert(t.to_set().contains(t[0]));
        assert(s.contains(t[0]));
        let m = choose|m: int| 0 <= m < s.len() && s[m] == t[0];
        if k > 0 {
            assert(!name_before(t[k], t[0]));
        }
        if m > 0 {
            assert(!name_before(s[m], s[0]));
        }
        assert(s[0].pkg_name == t[0].pkg_name);
        assert(m == 0);
        assert(s[0] == t[0]);
        let s1 = s.drop_first();
        let t1 = t.drop_first();
        assert(is_sorted_by_name(s1)) by {
            assert forall|i: int, j: int| 0 <= i < j < s1.len() implies !name_before(
                s1[j],
                s1[i],
            ) by {
                assert(!name_before(s[j + 1], s[i + 1]));
            }
        }
        assert(is_sorted_by_name(t1)) by {
            assert forall|i: int, j: int| 0 <= i < j < t1.len() implies !name_before(
                t1[j],
                t1[i],
            ) by {
                assert(!name_before(t[j + 1], t[i + 1]));
            }
        }
        assert(names_distinct(s1)) by {
            assert forall|i: int, j: int|
                0 <= i < s1.len() && 0 <= j < s1.len() && i != j implies s1[i].pkg_name
                != s1[j].pkg_name by {
                assert(s[i + 1].pkg_name != s[j + 1].pkg_name);
            }
        }
        assert(names_distinct(t1)) by {
            assert forall|i: int, j: int|
                0 <= i < t1.len() && 0 <= j < t1.len() && i != j implies t1[i].pkg_name
                != t1[j].pkg_name by {
                assert(t[i + 1].pkg_name != t[j + 1].pkg_name);
            }
        }
        assert forall|x: PackageInfoView| s1.contains(x) == t1.contains(x) by {
            if s1.contains(x) {
                let i = choose|i: int| 0 <= i < s1.len() && s1[i] == x;
                assert(s[i + 1] == x);
                assert(s.contains(x));
                assert(s.to_set().contains(x));
                assert(t.contains(x));
                let j = choose|j: int| 0 <= j < t.len() && t[j] == x;
                if j == 0 {
                    assert(s[i + 1].pkg_name == s[0].pkg_name);
                }
                assert(t1[j - 1] == x);
            }
            if t1.contains(x) {
                let i = choose|i: int| 0 <= i < t1.len() && t1[i] == x;
                assert(t[i + 1] == x);
                assert(t.contains(x));
                assert(t.to_set().contains(x));
                assert(s.contains(x));
                let j = choose|j: int| 0 <= j < s.len() && s[j] == x;
                if j == 0 {
                    assert(t[i + 1].pkg_name == t[0].pkg_name);
                }
                assert(s1[j - 1] == x);
            }
        }
        assert(s1.to_set() =~= t1.to_set());
        lemma_sorted_unique(s1, t1);
        assert(s =~= seq![s[0]] + s1);
        assert(t =~= seq![t[0]] + t1);
    }
}

/// The position at which `x` is put into `out`.
fn find_insertion_point(out: &Vec<PackageInfo>, x: &PackageInfo) -> (p: usize)
    ensures
        p == insertion_point(infos_view(out@), x@, 0),
        p <= out@.len(),
{
    let mut p: usize = 0;
    while p < out.len()
        invariant
            p <= out@.len(),
            insertion_point(infos_view(out@), x@, 0) == insertion_point(
                infos_view(out@),
                x@,
                p as int,
            ),
        decreases out@.len() - p,
    {
        if !str_less(out[p].pkg_name.as_str(), x.pkg_name.as_str()) {
            return p;
        }
        p = p + 1;
    }
    p
}

/// Sorts the updates by package name. Updates of the same name keep their order.
pub fn sort_by_name(updates: Vec<PackageInfo>) -> (r: Vec<PackageInfo>)
    ensures
        infos_view(r@) == sorted_by_name(infos_view(updates@)),
{
    let ghost all = infos_view(updates@);
    let mut rest = updates;
    let mut out: Vec<PackageInfo> = Vec::new();
    assert(all.skip(all.len() as int) =~= Seq::empty());
    assert(infos_view(out@) =~= Seq::empty());
    assert(infos_view(rest@) =~= all.take(all.len() as int));
    while rest.len() > 0
        invariant
            rest@.len() <= all.len(),
            infos_view(rest@) == all.take(rest@.len() as int),
            infos_view(out@) == sorted_by_name(all.skip(rest@.len() as int)),
        decreases rest@.len(),
    {
        let ghost n = rest@.len() as int;
        let ghost rest_before = rest@;
        let ghost out_before = out@;
        let x = rest.pop().unwrap();
        let p = find_insertion_point(&out, &x);
        out.insert(p, x);
        proof {
            assert(infos_view(rest_before)[n - 1] == x@);
            assert(all.take(n)[n - 1] == all[n - 1]);
            assert(infos_view(rest@) =~= all.take(n - 1)) by {
                assert forall|j: int| 0 <= j < n - 1 implies infos_view(rest@)[j] == all[j] by {
                    assert(infos_view(rest_before)[j] == all.take(n)[j]);
                }
            }
            let tail = all.skip(n - 1);
            assert(tail.first() == x@);
            assert(tail.drop_first() =~= all.skip(n));
            assert(infos_view(out@) =~= infos_view(out_before).insert(p as int, x@));
        }
    }
    assert(all.skip(0) =~= all);
    out
}

} // verus!
