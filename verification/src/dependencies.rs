//! The declared dependencies of a project: package names with their
//! version constraints.

use crate::utils::order::str_eq;
use vstd::prelude::*;

verus! {

/// A mapping from package name to declared version constraint. Every name
/// occurs once.
#[derive(Debug)]
pub struct PackageDependencies {
    entries: Vec<(String, String)>,
}

/// The names of a list of entries, in order.
pub open spec fn names_of(entries: Seq<(String, String)>) -> Seq<Seq<char>> {
    entries.map_values(|e: (String, String)| e.0@)
}

/// The mapping that a list of entries with distinct names stands for.
pub open spec fn entries_map(entries: Seq<(String, String)>) -> Map<Seq<char>, Seq<char>> {
    Map::new(
        |name: Seq<char>| names_of(entries).contains(name),
        |name: Seq<char>| entries[names_of(entries).index_of(name)].1@,
    )
}

/// The mapping built by inserting the first `upto` entries in order, a later
/// entry replacing an earlier one of the same name.
pub open spec fn inserted(entries: Seq<(String, String)>, upto: int) -> Map<Seq<char>, Seq<char>>
    decreases upto,
{
    if upto <= 0 {
        Map::empty()
    } else {
        inserted(entries, upto - 1).insert(entries[upto - 1].0@, entries[upto - 1].1@)
    }
}

/// In a list with distinct names each entry is found under its name.
pub proof fn lemma_entry_lookup(entries: Seq<(String, String)>, i: int)
    requires
        names_of(entries).no_duplicates(),
        0 <= i < entries.len(),
    ensures
        entries_map(entries).contains_key(entries[i].0@),
        entries_map(entries)[entries[i].0@] == entries[i].1@,
{
    let names = names_of(entries);
    assert(names[i] == entries[i].0@);
    let c = names.index_of(entries[i].0@);
    assert(0 <= c < names.len() && names[c] == names[i]);
}

/// A list with distinct names stands for the mapping built by inserting
/// its entries one by one.
pub proof fn lemma_entries_map_is_inserted(entries: Seq<(String, String)>, upto: int)
    requires
        names_of(entries).no_duplicates(),
        0 <= upto <= entries.len(),
    ensures
        entries_map(entries.take(upto)) == inserted(entries, upto),
    decreases upto,
{
    let part = entries.take(upto);
    if upto == 0 {
        assert(names_of(part) =~= Seq::empty());
        assert(entries_map(part) =~= Map::empty());
    } else {
        lemma_entries_map_is_inserted(entries, upto - 1);
        let before = entries.take(upto - 1);
        let name = entries[upto - 1].0@;
        let version = entries[upto - 1].1@;
        assert(names_of(part).no_duplicates()) by {
            assert forall|i: int, j: int|
                0 <= i < part.len() && 0 <= j < part.len() && i != j implies names_of(part)[i]
                != names_of(part)[j] by {
                assert(names_of(entries)[i] != names_of(entries)[j]);
            }
        }
        assert(names_of(before).no_duplicates()) by {
            assert forall|i: int, j: int|
                0 <= i < before.len() && 0 <= j < before.len() && i != j implies names_of(
                before,
            )[i] != names_of(before)[j] by {
                assert(names_of(entries)[i] != names_of(entries)[j]);
            }
        }
        assert forall|k: Seq<char>| #[trigger]
            entries_map(part).contains_key(k) == entries_map(before).insert(
                name,
                version,
            ).contains_key(k) by {
            if names_of(part).contains(k) {
                let i = names_of(part).index_of(k);
                if i < upto - 1 {
                    assert(names_of(before)[i] == k);
                }
            }
            if names_of(before).contains(k) {
                let i = names_of(before).index_of(k);
                assert(names_of(part)[i] == k);
            }
            if k == name {
                assert(names_of(part)[upto - 1] == k);
            }
        }
        assert forall|k: Seq<char>| #[trigger]
            entries_map(part).contains_key(k) implies entries_map(part)[k] == entries_map(
            before,
        ).insert(name, version)[k] by {
            let i = names_of(part).index_of(k);
            lemma_entry_lookup(part, i);
            if i < upto - 1 {
                assert(names_of(entries)[i] != names_of(entries)[upto - 1]);
                lemma_entry_lookup(before, i);
            }
        }
        assert(entries_map(part) =~= entries_map(before).insert(name, version));
    }
}

/// A list with distinct names stands for a mapping of as many names.
pub proof fn lemma_entries_len(entries: Seq<(String, String)>)
    requires
        names_of(entries).no_duplicates(),
    ensures
        entries_map(entries).dom().finite(),
        entries_map(entries).dom().len() == entries.len(),
{
    let names = names_of(entries);
    vstd::seq_lib::seq_to_set_is_finite(names);
    names.unique_seq_to_set();
    assert(entries_map(entries).dom() =~= names.to_set());
}

impl View for PackageDependencies {
    type V = Map<Seq<char>, Seq<char>>;

    /// The mapping from name to constraint.
    closed spec fn view(&self) -> Map<Seq<char>, Seq<char>> {
        entries_map(self.entries@)
    }
}

impl PackageDependencies {
    /// Every name occurs once.
    #[verifier::type_invariant]
    spec fn distinct_names(&self) -> bool {
        names_of(self.entries@).no_duplicates()
    }

    /// No dependencies.
    pub fn new() -> (r: PackageDependencies)
        ensures
            r@ == Map::<Seq<char>, Seq<char>>::empty(),
    {
        let r = PackageDependencies { entries: Vec::new() };
        assert(names_of(r.entries@) =~= Seq::empty());
        assert(r@ =~= Map::empty());
        r
    }

    /// The number of dependencies.
    pub fn len(&self) -> (r: usize)
        ensures
            self@.dom().finite(),
            r == self@.dom().len(),
    {
        proof {
            use_type_invariant(self);
            let names = names_of(self.entries@);
            vstd::seq_lib::seq_to_set_is_finite(names);
            names.unique_seq_to_set();
            assert(self@.dom() =~= names.to_set());
        }
        self.entries.len()
    }

    /// Whether there is no dependency.
    pub fn is_empty(&self) -> (r: bool)
        ensures
            r == (self@ == Map::<Seq<char>, Seq<char>>::empty()),
    {
        proof {
            if self.entries@.len() == 0 {
                assert(names_of(self.entries@) =~= Seq::empty());
                assert(self@ =~= Map::empty());
            } else {
                assert(names_of(self.entries@)[0] == self.entries@[0].0@);
                assert(self@.contains_key(self.entries@[0].0@));
            }
        }
        self.entries.len() == 0
    }

    /// The position of the entry for `name`, if there is one.
    fn find(&self, name: &str) -> (r: Option<usize>)
        ensures
            match r {
                Some(i) => i < self.entries@.len() && self.entries@[i as int].0@ == name@,
                None => !names_of(self.entries@).contains(name@),
            },
    {
        let mut i: usize = 0;
        while i < self.entries.len()
            invariant
                i <= self.entries@.len(),
                forall|j: int| 0 <= j < i ==> names_of(self.entries@)[j] != name@,
            decreases self.entries@.len() - i,
        {
            if str_eq(self.entries[i].0.as_str(), name) {
                return Some(i);
            }
            i = i + 1;
        }
        None
    }

    /// The constraint declared for `name`, if it is a dependency.
    pub fn get(&self, name: &str) -> (r: Option<&String>)
        ensures
            match r {
                Some(version) => self@.contains_key(name@) && self@[name@] == version@,
                None => !self@.contains_key(name@),
            },
    {
        proof {
            use_type_invariant(self);
        }
        match self.find(name) {
            Some(i) => {
                proof {
                    lemma_entry_lookup(self.entries@, i as int);
                }
                Some(&self.entries[i].1)
            },
            None => None,
        }
    }

    /// Declares `name` with `version`, in place of what was declared for it before.
    pub fn insert(&mut self, name: String, version: String)
        ensures
            final(self)@ == old(self)@.insert(name@, version@),
    {
        proof {
            use_type_invariant(&*self);
        }
        let ghost before = self.entries@;
        let found = self.find(name.as_str());
        let mut taken = PackageDependencies { entries: Vec::new() };
        assert(names_of(taken.entries@) =~= Seq::empty());
        core::mem::swap(self, &mut taken);
        let mut entries = taken.entries;
        match found {
            Some(i) => {
                entries.set(i, (name, version));
            },
            None => {
                entries.push((name, version));
            },
        }
        proof {
            let after = entries@;
            let at: int = match found {
                Some(i) => i as int,
                None => before.len() as int,
            };
            assert(after[at].0@ == name@ && after[at].1@ == version@);
            assert forall|j: int| 0 <= j < before.len() && j != at implies after[j] == before[j] by {}
            assert(names_of(after).no_duplicates()) by {
                assert forall|i: int, j: int|
                    0 <= i < after.len() && 0 <= j < after.len() && i != j implies names_of(
                    after,
                )[i] != names_of(after)[j] by {
                    if i != at && j != at {
                        assert(names_of(before)[i] != names_of(before)[j]);
                    } else if i == at {
                        assert(names_of(before)[j] == after[j].0@);
                        if found is Some {
                            assert(names_of(before)[at] == name@);
                        }
                    } else {
                        assert(names_of(before)[i] == after[i].0@);
                        if found is Some {
                            assert(names_of(before)[at] == name@);
                        }
                    }
                }
            }
            let target = entries_map(before).insert(name@, version@);
            assert forall|k: Seq<char>| #[trigger]
                entries_map(after).contains_key(k) == target.contains_key(k) by {
                if names_of(after).contains(k) {
                    let i = names_of(after).index_of(k);
                    if i != at {
                        assert(names_of(before)[i] == k);
                    }
                }
                if names_of(before).contains(k) {
                    let i = names_of(before).index_of(k);
                    if i != at {
                        assert(names_of(after)[i] == k);
                    } else {
                        assert(names_of(after)[at] == k);
                    }
                }
                if k == name@ {
                    assert(names_of(after)[at] == k);
                }
            }
            assert forall|k: Seq<char>| #[trigger]
                entries_map(after).contains_key(k) implies entries_map(after)[k] == target[k] by {
                let i = names_of(after).index_of(k);
                lemma_entry_lookup(after, i);
                if i != at {
                    assert(names_of(after)[i] != names_of(after)[at]);
                    lemma_entry_lookup(before, i);
                }
            }
            assert(entries_map(after) =~= target);
        }
        *self = PackageDependencies { entries };
    }

    /// Declares everything that `other` declares, in place of what was
    /// declared for the same names before.
    pub fn extend(&mut self, other: &PackageDependencies)
        ensures
            final(self)@ == old(self)@.union_prefer_right(other@),
    {
        proof {
            use_type_invariant(other);
            lemma_entries_map_is_inserted(other.entries@, 0);
            assert(self@ =~= old(self)@.union_prefer_right(inserted(other.entries@, 0)));
        }
        let mut i: usize = 0;
        while i < other.entries.len()
            invariant
                i <= other.entries@.len(),
                names_of(other.entries@).no_duplicates(),
                self@ == old(self)@.union_prefer_right(inserted(other.entries@, i as int)),
            decreases other.entries@.len() - i,
        {
            let ghost so_far = inserted(other.entries@, i as int);
            let name = other.entries[i].0.clone();
            let version = other.entries[i].1.clone();
            self.insert(name, version);
            assert(self@ =~= old(self)@.union_prefer_right(
                so_far.insert(other.entries@[i as int].0@, other.entries@[i as int].1@),
            ));
            i = i + 1;
        }
        proof {
            lemma_entries_map_is_inserted(other.entries@, other.entries@.len() as int);
            assert(other.entries@.take(other.entries@.len() as int) =~= other.entries@);
        }
    }

    /// The dependencies as a list of names with their constraints, each
    /// name once.
    pub fn entries(&self) -> (r: &Vec<(String, String)>)
        ensures
            names_of(r@).no_duplicates(),
            entries_map(r@) == self@,
    {
        proof {
            use_type_invariant(self);
        }
        &self.entries
    }

    /// The mapping built from a list of names with constraints. Where a name
    /// occurs more than once its last constraint stays.
    pub fn from_entries(entries: &Vec<(String, String)>) -> (r: PackageDependencies)
        ensures
            r@ == inserted(entries@, entries@.len() as int),
    {
        let mut r = PackageDependencies::new();
        let mut i: usize = 0;
        while i < entries.len()
            invariant
                i <= entries@.len(),
                r@ == inserted(entries@, i as int),
            decreases entries@.len() - i,
        {
            let name = entries[i].0.clone();
            let version = entries[i].1.clone();
            r.insert(name, version);
            i = i + 1;
        }
        r
    }
}

} // verus!
