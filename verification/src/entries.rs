//! The tracked set as mathematics: keys with what is recorded under each, in their order.

use vstd::prelude::*;

use crate::repos::{CommitsRepo, CommitsRepoView};

verus! {

/// The map as the verifier sees it: keys and values in the order that the map walks them.
pub type Entries = Seq<(Seq<char>, CommitsRepoView)>;

/// `at` is the first place of `pairs` that holds `key`.
pub open spec fn is_position_of(pairs: Entries, key: Seq<char>, at: int) -> bool {
    &&& 0 <= at < pairs.len()
    &&& pairs[at].0 == key
    &&& forall|j: int| 0 <= j < at ==> pairs[j].0 != key
}

/// The first place of `pairs` that holds `key`, if any does.
pub open spec fn position_of(pairs: Entries, key: Seq<char>) -> Option<int> {
    if exists|at: int| is_position_of(pairs, key, at) {
        Some(choose|at: int| is_position_of(pairs, key, at))
    } else {
        None
    }
}

/// `pairs` after `value` was put in under `key`: in the place of the value that the key
/// had, or behind all others where the key is new.
pub open spec fn inserted(pairs: Entries, key: Seq<char>, value: CommitsRepoView) -> Entries {
    match position_of(pairs, key) {
        Some(at) => pairs.update(at, (key, value)),
        None => pairs.push((key, value)),
    }
}

/// `pairs` without `key`: the pairs behind it move up by one place, in their order.
pub open spec fn removed(pairs: Entries, key: Seq<char>) -> Entries {
    match position_of(pairs, key) {
        Some(at) => pairs.remove(at),
        None => pairs,
    }
}

/// The value that `pairs` holds under `key`, if any.
pub open spec fn value_of(pairs: Entries, key: Seq<char>) -> Option<CommitsRepoView> {
    match position_of(pairs, key) {
        Some(at) => Some(pairs[at].1),
        None => None,
    }
}

/// The mathematical value of a value that may be absent.
pub open spec fn view_of(value: Option<CommitsRepo>) -> Option<CommitsRepoView> {
    match value {
        Some(v) => Some(v@),
        None => None,
    }
}

/// The mathematical value of a reference that may be absent.
pub open spec fn view_of_ref(value: Option<&CommitsRepo>) -> Option<CommitsRepoView> {
    match value {
        Some(v) => Some(v@),
        None => None,
    }
}

/// No key stands at two places of `pairs`.
pub open spec fn distinct_keys(pairs: Entries) -> bool {
    forall|i: int, j: int| 0 <= i < j < pairs.len() ==> pairs[i].0 != pairs[j].0
}

/// The keys of `pairs`, in their order.
pub open spec fn keys_of(pairs: Entries) -> Seq<Seq<char>> {
    Seq::new(pairs.len(), |i: int| pairs[i].0)
}

/// What is tracked after the pairs of `pairs` were put in one after the other: a key that
/// comes again keeps its first place and takes the later value.
pub open spec fn loaded(pairs: Entries) -> Entries
    decreases pairs.len(),
{
    if pairs.len() == 0 {
        Entries::empty()
    } else {
        inserted(loaded(pairs.drop_last()), pairs.last().0, pairs.last().1)
    }
}

/// The place found for a key is the only one that holds it.
pub proof fn lemma_position_of(pairs: Entries, key: Seq<char>, at: int)
    requires
        is_position_of(pairs, key, at),
    ensures
        position_of(pairs, key) == Some(at),
{
    let chosen = choose|i: int| is_position_of(pairs, key, i);
    if chosen < at {
        assert(pairs[chosen].0 != key);
    }
    if at < chosen {
        assert(pairs[at].0 != key);
    }
}

/// A key that stands nowhere in `pairs` has no place there.
pub proof fn lemma_position_of_absent(pairs: Entries, key: Seq<char>)
    requires
        forall|i: int| 0 <= i < pairs.len() ==> pairs[i].0 != key,
    ensures
        position_of(pairs, key) is None,
{
}

/// Putting a value in under a key leaves the keys distinct.
pub proof fn lemma_inserted_distinct(pairs: Entries, key: Seq<char>, value: CommitsRepoView)
    requires
        distinct_keys(pairs),
    ensures
        distinct_keys(inserted(pairs, key, value)),
{
    let after = inserted(pairs, key, value);
    match position_of(pairs, key) {
        Some(at) => {
            assert(is_position_of(pairs, key, at));
            assert forall|i: int, j: int| 0 <= i < j < after.len() implies after[i].0
                != after[j].0 by {
                assert(after[i].0 == pairs[i].0);
                assert(after[j].0 == pairs[j].0);
            }
        },
        None => {
            assert forall|i: int, j: int| 0 <= i < j < after.len() implies after[i].0
                != after[j].0 by {
                if j == pairs.len() {
                    if pairs[i].0 == key {
                        lemma_has_position(pairs, key, i);
                    }
                }
            }
        },
    }
}

/// A key that stands somewhere in `pairs` has a first place there.
pub proof fn lemma_has_position(pairs: Entries, key: Seq<char>, at: int)
    requires
        0 <= at < pairs.len(),
        pairs[at].0 == key,
    ensures
        position_of(pairs, key) is Some,
        position_of(pairs, key)->0 <= at,
    decreases at,
{
    if exists|j: int| 0 <= j < at && pairs[j].0 == key {
        let j = choose|j: int| 0 <= j < at && pairs[j].0 == key;
        lemma_has_position(pairs, key, j);
    } else {
        assert(is_position_of(pairs, key, at));
        lemma_position_of(pairs, key, at);
    }
}

/// Taking a key out leaves the keys distinct.
pub proof fn lemma_removed_distinct(pairs: Entries, key: Seq<char>)
    requires
        distinct_keys(pairs),
    ensures
        distinct_keys(removed(pairs, key)),
{
    let after = removed(pairs, key);
    match position_of(pairs, key) {
        Some(at) => {
            assert(is_position_of(pairs, key, at));
            assert forall|i: int, j: int| 0 <= i < j < after.len() implies after[i].0
                != after[j].0 by {
                let from_i = if i < at { i } else { i + 1 };
                let from_j = if j < at { j } else { j + 1 };
                assert(after[i] == pairs[from_i]);
                assert(after[j] == pairs[from_j]);
            }
        },
        None => {},
    }
}

/// What was put in under a key is what is found under it, whatever was there before.
pub proof fn lemma_inserted_value(pairs: Entries, key: Seq<char>, value: CommitsRepoView)
    ensures
        value_of(inserted(pairs, key, value), key) == Some(value),
{
    let after = inserted(pairs, key, value);
    match position_of(pairs, key) {
        Some(at) => {
            assert(is_position_of(pairs, key, at));
            assert(is_position_of(after, key, at));
            lemma_position_of(after, key, at);
        },
        None => {
            let at = pairs.len() as int;
            assert forall|j: int| 0 <= j < at implies after[j].0 != key by {
                if pairs[j].0 == key {
                    lemma_has_position(pairs, key, j);
                }
            }
            assert(is_position_of(after, key, at));
            lemma_position_of(after, key, at);
        },
    }
}

/// Putting a value in under one key changes nothing that is found under another.
pub proof fn lemma_inserted_other(
    pairs: Entries,
    key: Seq<char>,
    value: CommitsRepoView,
    other: Seq<char>,
)
    requires
        other != key,
    ensures
        value_of(inserted(pairs, key, value), other) == value_of(pairs, other),
{
    let after = inserted(pairs, key, value);
    assert forall|j: int| 0 <= j < pairs.len() implies (after[j].0 == other <==> pairs[j].0
        == other) && (pairs[j].0 == other ==> after[j].1 == pairs[j].1) by {
        if position_of(pairs, key) is Some {
            assert(is_position_of(pairs, key, position_of(pairs, key)->0));
        }
    }
    match position_of(pairs, other) {
        Some(at) => {
            assert(is_position_of(pairs, other, at));
            assert(is_position_of(after, other, at));
            lemma_position_of(after, other, at);
        },
        None => {
            if position_of(after, other) is Some {
                let at = position_of(after, other)->0;
                assert(is_position_of(after, other, at));
                if at < pairs.len() {
                    lemma_has_position(pairs, other, at);
                }
            }
        },
    }
}

/// The keys after a value was put in: as before where the key was there, else the keys as
/// before and then the new key.
pub proof fn lemma_inserted_keys(pairs: Entries, key: Seq<char>, value: CommitsRepoView)
    ensures
        keys_of(inserted(pairs, key, value)) == if value_of(pairs, key) is Some {
            keys_of(pairs)
        } else {
            keys_of(pairs).push(key)
        },
{
    let after = inserted(pairs, key, value);
    match position_of(pairs, key) {
        Some(at) => {
            assert(is_position_of(pairs, key, at));
            assert(keys_of(after) =~= keys_of(pairs));
        },
        None => {
            assert(keys_of(after) =~= keys_of(pairs).push(key));
        },
    }
}

/// Among distinct keys, a key that was taken out is found no more, and its place is gone
/// from the order of the others.
pub proof fn lemma_removed_value(pairs: Entries, key: Seq<char>)
    requires
        distinct_keys(pairs),
    ensures
        value_of(removed(pairs, key), key) is None,
{
    let after = removed(pairs, key);
    match position_of(pairs, key) {
        Some(at) => {
            assert(is_position_of(pairs, key, at));
            assert forall|j: int| 0 <= j < after.len() implies after[j].0 != key by {
                let from = if j < at { j } else { j + 1 };
                assert(after[j] == pairs[from]);
            }
            lemma_position_of_absent(after, key);
        },
        None => {},
    }
}

/// Putting distinct keys in one after the other gives the same pairs in the same order:
/// what was read out of a set of tracked repositories builds that set again.
pub proof fn lemma_loaded_distinct_is_same(pairs: Entries)
    requires
        distinct_keys(pairs),
    ensures
        loaded(pairs) == pairs,
    decreases pairs.len(),
{
    if pairs.len() > 0 {
        let front = pairs.drop_last();
        let last = pairs.last();
        lemma_loaded_distinct_is_same(front);
        lemma_position_of_absent(front, last.0);
        assert(front.push(last) =~= pairs);
    }
}

/// Whatever pairs are put in, no key is tracked twice.
pub proof fn lemma_loaded_is_distinct(pairs: Entries)
    ensures
        distinct_keys(loaded(pairs)),
    decreases pairs.len(),
{
    if pairs.len() > 0 {
        lemma_loaded_is_distinct(pairs.drop_last());
        lemma_inserted_distinct(loaded(pairs.drop_last()), pairs.last().0, pairs.last().1);
    }
}

/// Removing a key that is not tracked leaves every pair where it was.
pub proof fn lemma_remove_absent(pairs: Entries, key: Seq<char>)
    requires
        value_of(pairs, key) is None,
    ensures
        removed(pairs, key) == pairs,
{
}

} // verus!
