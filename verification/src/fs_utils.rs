//! Choosing the closest file on the way from a directory up to the root.
//!
//! Looking at the disk is the caller's part: it hands in, for each
//! directory from the starting one upward, the path the file would have
//! there and whether it is there.

use vstd::prelude::*;

verus! {

/// The path that a file would have in one directory, and whether it exists.
#[derive(Debug, Clone, PartialEq, Eq)]
pub struct Candidate {
    pub path: String,
    pub exists: bool,
}

/// The position of the first candidate at or after `from` that exists, or
/// the number of candidates if none does.
pub open spec fn first_existing(candidates: Seq<Candidate>, from: int) -> int
    decreases candidates.len() - from,
{
    if from >= candidates.len() {
        candidates.len() as int
    } else if candidates[from].exists {
        from
    } else {
        first_existing(candidates, from + 1)
    }
}

/// The first existing candidate is one that exists, with none before it
/// that does.
pub proof fn lemma_first_existing(candidates: Seq<Candidate>, from: int)
    requires
        0 <= from <= candidates.len(),
    ensures
        from <= first_existing(candidates, from) <= candidates.len(),
        forall|j: int| from <= j < first_existing(candidates, from) ==> !candidates[j].exists,
        first_existing(candidates, from) < candidates.len() ==> candidates[first_existing(
            candidates,
            from,
        )].exists,
    decreases candidates.len() - from,
{
    if from < candidates.len() && !candidates[from].exists {
        lemma_first_existing(candidates, from + 1);
    }
}

/// The path of the closest file that exists, where the candidates are given
/// from the starting directory upward; nothing if none exists.
pub fn find_closest_file(candidates: &Vec<Candidate>) -> (r: Option<String>)
    ensures
        match r {
            Some(path) => first_existing(candidates@, 0) < candidates@.len() && path@
                == candidates@[first_existing(candidates@, 0)].path@,
            None => first_existing(candidates@, 0) == candidates@.len(),
        },
{
    let mut i: usize = 0;
    while i < candidates.len()
        invariant
            i <= candidates@.len(),
            first_existing(candidates@, 0) == first_existing(candidates@, i as int),
        decreases candidates@.len() - i,
    {
        if candidates[i].exists {
            return Some(candidates[i].path.clone());
        }
        i = i + 1;
    }
    None
}

} // verus!
