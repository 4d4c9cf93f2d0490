//! Merging hash maps.

use std::collections::HashMap;
use std::hash::Hash;
use vstd::prelude::*;
use vstd::std_specs::hash::obeys_key_model;
use vstd::std_specs::iter::IteratorSpec;

verus! {

/// Cloning a `T` gives back the same value.
pub open spec fn clones_exactly<T: Clone>() -> bool {
    forall|a: T, b: T| #[trigger] cloned(a, b) ==> a == b
}

/// The first `upto` maps merged in order: an entry of a later map replaces
/// an entry of the same key of an earlier one, and an absent map adds nothing.
pub open spec fn merged<K, V>(others: Seq<Option<&HashMap<K, V>>>, upto: int) -> Map<K, V>
    decreases upto,
{
    if upto <= 0 {
        Map::empty()
    } else {
        match others[upto - 1] {
            Some(map) => merged(others, upto - 1).union_prefer_right(map@),
            None => merged(others, upto - 1),
        }
    }
}

/// The map built by inserting the first `upto` pairs in order.
pub open spec fn pairs_map<K, V>(pairs: Seq<(&K, &V)>, upto: int) -> Map<K, V>
    decreases upto,
{
    if upto <= 0 {
        Map::empty()
    } else {
        pairs_map(pairs, upto - 1).insert(*pairs[upto - 1].0, *pairs[upto - 1].1)
    }
}

/// The pairs of a map, inserted one by one, hold the keys of the pairs with
/// the values that the map gives them.
proof fn lemma_pairs_map<K, V>(pairs: Seq<(&K, &V)>, upto: int, map: Map<K, V>)
    requires
        0 <= upto <= pairs.len(),
        forall|i: int|
            0 <= i < pairs.len() ==> map.contains_key(*(#[trigger] pairs[i]).0) && map[*pairs[i].0]
                == *pairs[i].1,
    ensures
        forall|k: K| #[trigger]
            pairs_map(pairs, upto).contains_key(k) <==> exists|i: int|
                0 <= i < upto && *(#[trigger] pairs[i]).0 == k,
        forall|k: K| #[trigger] pairs_map(pairs, upto).contains_key(k) ==> pairs_map(pairs, upto)[k]
            == map[k],
    decreases upto,
{
    if upto > 0 {
        lemma_pairs_map(pairs, upto - 1, map);
        let before = pairs_map(pairs, upto - 1);
        let last = pairs[upto - 1];
        assert forall|k: K| #[trigger]
            pairs_map(pairs, upto).contains_key(k) <==> exists|i: int|
                0 <= i < upto && *(#[trigger] pairs[i]).0 == k by {
            if pairs_map(pairs, upto).contains_key(k) {
                if k == *last.0 {
                    assert(*pairs[upto - 1].0 == k);
                } else {
                    assert(before.contains_key(k));
                    let i = choose|i: int| 0 <= i < upto - 1 && *(#[trigger] pairs[i]).0 == k;
                    assert(0 <= i < upto && *pairs[i].0 == k);
                }
            }
            if exists|i: int| 0 <= i < upto && *(#[trigger] pairs[i]).0 == k {
                let i = choose|i: int| 0 <= i < upto && *(#[trigger] pairs[i]).0 == k;
                if i < upto - 1 {
                    assert(before.contains_key(k));
                }
            }
        }
    }
}

/// Merges the maps that are present into one, in order: where two maps hold
/// the same key, the value of the later one stays.
///
/// The key type must hash and compare as the map model of `vstd` expects,
/// which the integer types do. The result is stated for keys and values
/// whose clones are exact copies.
pub fn merge<K, V>(others: &[Option<&HashMap<K, V>>]) -> (r: HashMap<K, V>) where
    K: Eq + Hash + Clone,
    V: Clone,

    requires
        obeys_key_model::<K>(),
    ensures
        clones_exactly::<K>() && clones_exactly::<V>() ==> r@ == merged(
            others@,
            others@.len() as int,
        ),
{
    broadcast use vstd::std_specs::hash::group_hash_axioms;

    let mut base: HashMap<K, V> = HashMap::new();
    let ghost exact = clones_exactly::<K>() && clones_exactly::<V>();
    let mut i: usize = 0;
    while i < others.len()
        invariant
            i <= others@.len(),
            obeys_key_model::<K>(),
            exact == (clones_exactly::<K>() && clones_exactly::<V>()),
            exact ==> base@ == merged(others@, i as int),
        decreases others@.len() - i,
    {
        if let Some(map) = others[i] {
            let ghost start = base@;
            let ghost pairs = map.iter().remaining();
            let ghost mut done: int = 0;
            assert(pairs_map(pairs, 0) =~= Map::<K, V>::empty());
            assert(start.union_prefer_right(Map::<K, V>::empty()) =~= start);
            for pair in it: map.iter()
                invariant
                    obeys_key_model::<K>(),
                    exact == (clones_exactly::<K>() && clones_exactly::<V>()),
                    it.seq() == pairs,
                    done == it.index(),
                    exact ==> base@ == start.union_prefer_right(pairs_map(pairs, done)),
            {
                let (key, value) = pair;
                let k = key.clone();
                let v = value.clone();
                proof {
                    assert(pair == pairs[done]);
                    assert(cloned(*key, k));
                    assert(cloned(*value, v));
                }
                base.insert(k, v);
                proof {
                    if exact {
                        assert(k == *pairs[done].0 && v == *pairs[done].1);
                        assert(base@ =~= start.union_prefer_right(pairs_map(pairs, done + 1)));
                    }
                    done = done + 1;
                }
            }
            proof {
                if exact {
                    assert(done == pairs.len());
                    lemma_pairs_map(pairs, pairs.len() as int, map@);
                    assert(pairs_map(pairs, pairs.len() as int) =~= map@);
                }
            }
        }
        i = i + 1;
    }
    base
}

} // verus!
