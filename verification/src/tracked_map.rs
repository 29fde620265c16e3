//! The insertion-ordered map that holds the tracked repositories, and what is taken on
//! trust of it.

use indexmap::IndexMap;
use vstd::prelude::*;

use crate::entries::{inserted, position_of, removed, value_of, view_of, view_of_ref, Entries};
use crate::repos::{CommitsRepo, CommitsRepoView};

verus! {

/// The map type of the `indexmap` crate. Nothing inside it is visible to the verifier.
#[verifier::external_type_specification]
#[verifier::external_body]
#[verifier::reject_recursive_types(K)]
#[verifier::reject_recursive_types(V)]
#[verifier::reject_recursive_types(S)]
pub struct ExIndexMap<K, V, S>(IndexMap<K, V, S>);

/// The pairs that a map holds, in the order in which the map walks them.
pub uninterp spec fn entries(map: IndexMap<String, CommitsRepo>) -> Seq<(Seq<char>, CommitsRepoView)>;

/// `IndexMap::with_capacity`: a map that holds nothing. The bound keeps the space asked
/// for far below what one allocation may be.
#[verifier::external_body]
pub(crate) fn map_with_capacity(n: usize) -> (map: IndexMap<String, CommitsRepo>)
    requires
        n <= 0x1_0000,
    ensures
        entries(map) == Entries::empty(),
{
    IndexMap::with_capacity(n)
}

/// `IndexMap::len`: the number of pairs in the map.
#[verifier::external_body]
pub(crate) fn map_len(map: &IndexMap<String, CommitsRepo>) -> (n: usize)
    ensures
        n == entries(*map).len(),
{
    map.len()
}

/// `IndexMap::insert`: a new key goes behind all others; the value of a key that the map
/// holds is replaced where it stands, and the value it had comes back.
#[verifier::external_body]
pub(crate) fn map_insert(
    map: &mut IndexMap<String, CommitsRepo>,
    key: String,
    value: CommitsRepo,
) -> (previous: Option<CommitsRepo>)
    ensures
        entries(*final(map)) == inserted(entries(*old(map)), key@, value@),
        view_of(previous) == value_of(entries(*old(map)), key@),
{
    map.insert(key, value)
}

/// `IndexMap::shift_remove`: the pair of `key` leaves and its value comes back; the pairs
/// behind it keep their order. A map without the key stays as it is.
#[verifier::external_body]
pub(crate) fn map_shift_remove(map: &mut IndexMap<String, CommitsRepo>, key: &str) -> (value:
    Option<CommitsRepo>)
    ensures
        entries(*final(map)) == removed(entries(*old(map)), key@),
        view_of(value) == value_of(entries(*old(map)), key@),
{
    map.shift_remove(key)
}

/// `IndexMap::clear`: the map holds nothing afterwards.
#[verifier::external_body]
pub(crate) fn map_clear(map: &mut IndexMap<String, CommitsRepo>)
    ensures
        entries(*final(map)) == Entries::empty(),
{
    map.clear()
}

/// `IndexMap::contains_key`: whether some pair of the map holds `key`.
#[verifier::external_body]
pub(crate) fn map_contains_key(map: &IndexMap<String, CommitsRepo>, key: &str) -> (found: bool)
    ensures
        found == (position_of(entries(*map), key@) is Some),
{
    map.contains_key(key)
}

/// `IndexMap::get`: the value stored under `key`, if the map holds the key.
#[verifier::external_body]
pub(crate) fn map_get<'a>(map: &'a IndexMap<String, CommitsRepo>, key: &str) -> (value: Option<
    &'a CommitsRepo,
>)
    ensures
        view_of_ref(value) == value_of(entries(*map), key@),
{
    map.get(key)
}

/// `IndexMap::get_mut`: the value stored under `key`, to be changed in place. What the
/// caller leaves there is what the map holds under the key afterwards; nothing else changes.
#[verifier::external_body]
pub(crate) fn map_get_mut<'a>(map: &'a mut IndexMap<String, CommitsRepo>, key: &str) -> (value:
    Option<&'a mut CommitsRepo>)
    ensures
        match value {
            Some(v) => {
                &&& position_of(entries(*old(map)), key@) is Some
                &&& Some((*v)@) == value_of(entries(*old(map)), key@)
                &&& entries(*final(map)) == inserted(entries(*old(map)), key@, (*final(v))@)
            },
            None => {
                &&& position_of(entries(*old(map)), key@) is None
                &&& entries(*final(map)) == entries(*old(map))
            },
        },
{
    map.get_mut(key)
}

/// `IndexMap::get_index`: the pair at place `index` of the map's order, if there is one.
#[verifier::external_body]
pub(crate) fn map_get_index<'a>(map: &'a IndexMap<String, CommitsRepo>, index: usize) -> (pair:
    Option<(&'a String, &'a CommitsRepo)>)
    ensures
        pair is Some <==> index < entries(*map).len(),
        pair matches Some((key, value)) ==> (key@, value@) == entries(*map)[index as int],
{
    map.get_index(index)
}

} // verus!
