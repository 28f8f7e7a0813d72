//! Labels: pairs of a key and a value that a backend keeps with what it runs.

use vstd::prelude::*;

verus! {

/// The value that the labels give the key: that of the first pair with the key.
pub open spec fn labelled(labels: Seq<(String, String)>, key: Seq<char>) -> Option<String>
    decreases labels.len(),
{
    if labels.len() == 0 {
        None
    } else if labels[0].0@ == key {
        Some(labels[0].1)
    } else {
        labelled(labels.skip(1), key)
    }
}

/// Whether no key occurs twice among the labels, as in the map that a
/// backend keeps them in.
pub open spec fn keyed_once(labels: Seq<(String, String)>) -> bool {
    forall|i: int, j: int| 0 <= i < j < labels.len() ==> labels[i].0@ != labels[j].0@
}

/// Where no key occurs twice, the value that the labels give a key is the
/// value of the pair that holds the key, wherever it stands.
pub proof fn lemma_labelled_once(labels: Seq<(String, String)>, key: Seq<char>, at: int)
    requires
        keyed_once(labels),
        0 <= at < labels.len(),
        labels[at].0@ == key,
    ensures
        labelled(labels, key) == Some(labels[at].1),
    decreases labels.len(),
{
    if at > 0 {
        assert(labels[0].0@ != labels[at].0@);
        let rest = labels.skip(1);
        assert forall|i: int, j: int| 0 <= i < j < rest.len() implies rest[i].0@ != rest[j].0@ by {
            assert(rest[i] == labels[i + 1] && rest[j] == labels[j + 1]);
        }
        lemma_labelled_once(rest, key, at - 1);
    }
}

/// Looks a label up. Where no key occurs twice among the labels, the value
/// found is that of the one pair with the key.
pub fn label_value(labels: &Vec<(String, String)>, key: &String) -> (value: Option<String>)
    ensures
        value == labelled(labels@, key@),
        keyed_once(labels@) ==> forall|at: int|
            0 <= at < labels.len() && (#[trigger] labels[at]).0@ == key@ ==> value == Some(
                labels[at].1,
            ),
{
    let mut seen: usize = 0;
    proof {
        assert(labels@.skip(0) =~= labels@);
        if keyed_once(labels@) {
            assert forall|at: int|
                0 <= at < labels.len() && (#[trigger] labels[at]).0@ == key@ implies labelled(
                labels@,
                key@,
            ) == Some(labels[at].1) by {
                lemma_labelled_once(labels@, key@, at);
            }
        }
    }
    while seen < labels.len()
        invariant
            seen <= labels.len(),
            labelled(labels@, key@) == labelled(labels@.skip(seen as int), key@),
        decreases labels.len() - seen,
    {
        proof {
            assert(labels@.skip(seen as int).skip(1) =~= labels@.skip(seen + 1));
        }
        if labels[seen].0 == *key {
            return Some(labels[seen].1.clone());
        }
        seen = seen + 1;
    }
    None
}

/// The texts of the pairs.
pub open spec fn texts(pairs: Seq<(String, String)>) -> Seq<(Seq<char>, Seq<char>)> {
    pairs.map_values(|pair: (String, String)| (pair.0@, pair.1@))
}

/// Whether the labels hold the key.
pub fn has_label(labels: &Vec<(String, String)>, key: &String) -> (held: bool)
    ensures
        held == labelled(labels@, key@) is Some,
{
    label_value(labels, key).is_some()
}

} // verus!
