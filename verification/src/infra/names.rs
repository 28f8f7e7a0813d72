//! Lists of names without repetition.

use itertools::Itertools;
use vstd::prelude::*;

verus! {

/// The texts of the names.
pub open spec fn views(names: Seq<String>) -> Seq<Seq<char>> {
    names.map_values(|name: String| name@)
}

/// The names without repetition: each name stands once, where it stood first.
pub open spec fn first_occurrences(names: Seq<Seq<char>>) -> Seq<Seq<char>>
    decreases names.len(),
{
    if names.len() == 0 {
        Seq::empty()
    } else {
        let before = first_occurrences(names.drop_last());
        if before.contains(names.last()) {
            before
        } else {
            before.push(names.last())
        }
    }
}

/// Calls `unique` of the itertools crate on the names. The contract claims
/// what the crate documents: the adaptor yields the items that were not
/// yielded before, in the order in which they occur, and keeps the first of
/// equal items. Two names are equal when their texts are.
#[verifier::external_body]
pub(crate) fn unique(names: Vec<String>) -> (distinct: Vec<String>)
    ensures
        views(distinct@) == first_occurrences(views(names@)),
{
    names.into_iter().unique().collect()
}

/// Removing repetitions leaves no name twice and loses no name.
pub proof fn lemma_first_occurrences(names: Seq<Seq<char>>)
    ensures
        first_occurrences(names).no_duplicates(),
        forall|name: Seq<char>| first_occurrences(names).contains(name) <==> names.contains(name),
    decreases names.len(),
{
    if names.len() > 0 {
        let before = first_occurrences(names.drop_last());
        lemma_first_occurrences(names.drop_last());
        assert forall|name: Seq<char>| first_occurrences(names).contains(name) <==> names.contains(
            name,
        ) by {
            if names.contains(name) {
                let at = choose|at: int| 0 <= at < names.len() && names[at] == name;
                if at < names.len() - 1 {
                    assert(names.drop_last()[at] == name);
                    assert(names.drop_last().contains(name));
                    assert(before.contains(name));
                    let place = choose|place: int| 0 <= place < before.len() && before[place] == name;
                    assert(first_occurrences(names)[place] == name);
                } else if !before.contains(names.last()) {
                    assert(first_occurrences(names)[before.len() as int] == name);
                } else {
                    let place = choose|place: int| 0 <= place < before.len() && before[place] == name;
                    assert(first_occurrences(names)[place] == name);
                }
            }
            if first_occurrences(names).contains(name) {
                let place = choose|place: int|
                    0 <= place < first_occurrences(names).len() && first_occurrences(names)[place]
                        == name;
                if place < before.len() {
                    assert(before[place] == name);
                    assert(before.contains(name));
                    assert(names.drop_last().contains(name));
                    let at = choose|at: int|
                        0 <= at < names.drop_last().len() && names.drop_last()[at] == name;
                    assert(names[at] == name);
                } else {
                    assert(names[names.len() - 1] == name);
                }
            }
        }
    }
}

} // verus!
