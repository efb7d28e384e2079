//! The ordered name-to-entry map that holds the catalog and its projections.
//!
//! The map itself is `indexmap::IndexMap`. Verus sees it as an opaque value
//! whose contents are named by [`rows`]; the functions below say what each
//! map operation does to those contents. Their contracts restate the
//! documentation of `indexmap` and are believed, not proved.

use crate::entry::Entry;
use crate::rows::{by_popularity, has_name, position, upsert, Row};
use crate::search::{by_score, matching, name_matches, name_score};
use crate::stable::sorts_stably;
use crate::tags::Tags;
use indexmap::IndexMap;
use std::cmp::Ordering;
use std::cmp::Reverse;
use vstd::prelude::*;

verus! {

/// `indexmap::IndexMap`, declared to Verus as a type whose inside it does
/// not look into.
#[verifier::external_type_specification]
#[verifier::external_body]
#[verifier::reject_recursive_types(K)]
#[verifier::reject_recursive_types(V)]
#[verifier::reject_recursive_types(S)]
pub struct ExIndexMap<K, V, S>(IndexMap<K, V, S>);

/// The rows of a map, in the map's own order: each key's text with the
/// value of the entry filed under it.
pub uninterp spec fn rows(map: IndexMap<String, Entry>) -> Seq<Row>;

/// `IndexMap::new`: a map without rows.
#[verifier::external_body]
pub(crate) fn map_new() -> (map: IndexMap<String, Entry>)
    ensures
        rows(map) == Seq::<Row>::empty(),
{
    IndexMap::new()
}

/// `IndexMap::clone`: a map with the same rows in the same order.
#[verifier::external_body]
pub(crate) fn map_clone(map: &IndexMap<String, Entry>) -> (copy: IndexMap<String, Entry>)
    ensures
        rows(copy) == rows(*map),
{
    map.clone()
}

/// `IndexMap::len`: the number of rows.
#[verifier::external_body]
pub(crate) fn map_len(map: &IndexMap<String, Entry>) -> (n: usize)
    ensures
        n == rows(*map).len(),
{
    map.len()
}

/// `IndexMap::get_index`: the row at `index`, or nothing past the end.
#[verifier::external_body]
pub(crate) fn map_get_index(map: &IndexMap<String, Entry>, index: usize) -> (r: Option<
    (&String, &Entry),
>)
    ensures
        r is Some <==> index < rows(*map).len(),
        r matches Some(pair) ==> (pair.0@, pair.1@) == rows(*map)[index as int],
{
    map.get_index(index)
}

/// `IndexMap::contains_key`: whether a row carries `name`.
#[verifier::external_body]
pub(crate) fn map_contains_key(map: &IndexMap<String, Entry>, name: &str) -> (b: bool)
    ensures
        b == has_name(rows(*map), name@),
{
    map.contains_key(name)
}

/// `IndexMap::get_mut`: the entry filed under `name`, for writing. The map
/// afterwards differs from the map before in that entry alone. Where no row
/// carries `name`, nothing is handed out and the map stays as it is.
#[verifier::external_body]
pub(crate) fn map_get_mut<'a>(map: &'a mut IndexMap<String, Entry>, name: &str) -> (r: Option<
    &'a mut Entry,
>)
    ensures
        r is Some <==> has_name(rows(*old(map)), name@),
        r is None ==> rows(*final(map)) == rows(*old(map)),
        r matches Some(entry) ==> (*entry)@ == rows(*old(map))[position(rows(*old(map)), name@)].1
            && rows(*final(map)) == rows(*old(map)).update(
            position(rows(*old(map)), name@),
            (name@, (*final(entry))@),
        ),
{
    map.get_mut(name)
}

/// `IndexMap::insert`: a row of that name takes the new entry and keeps its
/// place; otherwise the row goes to the end.
#[verifier::external_body]
pub(crate) fn map_insert(map: &mut IndexMap<String, Entry>, name: String, entry: Entry)
    ensures
        rows(*final(map)) == upsert(rows(*old(map)), name@, entry@),
{
    map.insert(name, entry);
}

/// `IndexMap::clear`: no row is left.
#[verifier::external_body]
pub(crate) fn map_clear(map: &mut IndexMap<String, Entry>)
    ensures
        rows(*final(map)) == Seq::<Row>::empty(),
{
    map.clear();
}

/// How two entries compare when the more downloaded one goes first.
pub fn popularity_order(a: &Entry, b: &Entry) -> (o: Ordering)
    ensures
        (o is Less) == (a@.downloads > b@.downloads),
        (o is Equal) == (a@.downloads == b@.downloads),
        (o is Greater) == (a@.downloads < b@.downloads),
{
    if a.downloads > b.downloads {
        Ordering::Less
    } else if a.downloads == b.downloads {
        Ordering::Equal
    } else {
        Ordering::Greater
    }
}

/// `IndexMap::retain` with the tag filters as the test: the rows that the
/// tags admit stay, in their order.
#[verifier::external_body]
pub(crate) fn map_retain_admitted(map: &mut IndexMap<String, Entry>, tags: &Tags)
    ensures
        rows(*final(map)) == rows(*old(map)).filter(tags.admitted()),
{
    map.retain(|_, entry| tags.admits(entry));
}

/// `IndexMap::retain` with the search text as the test: the rows whose names
/// match stay, in their order.
#[verifier::external_body]
pub(crate) fn map_retain_matching(map: &mut IndexMap<String, Entry>, query: &str)
    ensures
        rows(*final(map)) == rows(*old(map)).filter(matching(query@)),
{
    map.retain(|name, _| name_matches(name, query));
}

/// `IndexMap::sort_by` with [`popularity_order`]: a stable sort that puts
/// the most downloaded rows first. Rows with equal counters keep the order
/// they had.
#[verifier::external_body]
pub(crate) fn map_sort_by_popularity(map: &mut IndexMap<String, Entry>)
    ensures
        sorts_stably(rows(*old(map)), rows(*final(map)), by_popularity()),
{
    map.sort_by(|_, a, _, b| popularity_order(a, b));
}

/// `IndexMap::sort_by_cached_key` with the reversed match value as the key:
/// a stable sort that puts the best matches first. Rows with equal match
/// values keep the order they had.
#[verifier::external_body]
pub(crate) fn map_sort_by_score(map: &mut IndexMap<String, Entry>, query: &str)
    ensures
        sorts_stably(rows(*old(map)), rows(*final(map)), by_score(query@)),
{
    map.sort_by_cached_key(|name, _| Reverse(name_score(name, query)));
}

} // verus!
