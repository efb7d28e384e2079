//! The pending-update mailbox: entries that background work has finished
//! with, waiting to be taken into the catalog.

use crate::catalog_map::{map_contains_key, map_get_index, map_insert, map_len, rows};
use crate::entry::Entry;
use crate::rows::{
    distinct_names, has_name, lemma_position_of_row, lemma_upsert_names, lookup, position, upsert,
    Row,
};
use indexmap::IndexMap;
use vstd::prelude::*;

verus! {

/// The catalog after it took in `updates` one by one: each update replaces
/// the entry of its name in place, or is added at the end.
pub open spec fn absorbed(catalog: Seq<Row>, updates: Seq<Row>) -> Seq<Row>
    decreases updates.len(),
{
    if updates.len() == 0 {
        catalog
    } else {
        upsert(absorbed(catalog, updates.drop_last()), updates.last().0, updates.last().1)
    }
}

/// The filtered view after it took in `updates` one by one: an update
/// replaces the entry of a row that the view shows; it never adds a row.
pub open spec fn refreshed(view: Seq<Row>, updates: Seq<Row>) -> Seq<Row>
    decreases updates.len(),
{
    if updates.len() == 0 {
        view
    } else {
        let before = refreshed(view, updates.drop_last());
        if has_name(before, updates.last().0) {
            upsert(before, updates.last().0, updates.last().1)
        } else {
            before
        }
    }
}

/// Taking in updates keeps the catalog's names distinct.
pub proof fn lemma_absorbed_distinct(catalog: Seq<Row>, updates: Seq<Row>)
    requires
        distinct_names(catalog),
    ensures
        distinct_names(absorbed(catalog, updates)),
    decreases updates.len(),
{
    if updates.len() > 0 {
        lemma_absorbed_distinct(catalog, updates.drop_last());
        lemma_upsert_names(
            absorbed(catalog, updates.drop_last()),
            updates.last().0,
            updates.last().1,
        );
    }
}

/// After the drain the catalog holds every update under its name; a name
/// without an update is in the catalog exactly if it was, with the entry
/// it had.
pub proof fn lemma_absorbed_rows(catalog: Seq<Row>, updates: Seq<Row>, name: Seq<char>)
    requires
        distinct_names(catalog),
        distinct_names(updates),
    ensures
        has_name(updates, name) ==> has_name(absorbed(catalog, updates), name) && lookup(
            absorbed(catalog, updates),
            name,
        ) == lookup(updates, name),
        !has_name(updates, name) ==> (has_name(absorbed(catalog, updates), name) <==> has_name(
            catalog,
            name,
        )),
        !has_name(updates, name) && has_name(catalog, name) ==> lookup(
            absorbed(catalog, updates),
            name,
        ) == lookup(catalog, name),
    decreases updates.len(),
{
    if updates.len() > 0 {
        let init = updates.drop_last();
        let last = updates.last();
        let n = updates.len() - 1;
        assert forall|i: int, j: int| 0 <= i < j < init.len() implies (#[trigger] init[i]).0 != (
        #[trigger] init[j]).0 by {
            assert(init[i] == updates[i] && init[j] == updates[j]);
        }
        lemma_absorbed_rows(catalog, init, name);
        lemma_absorbed_distinct(catalog, init);
        lemma_upsert_names(absorbed(catalog, init), last.0, last.1);
        if last.0 == name {
            assert(updates[n].0 == name);
            lemma_position_of_row(updates, n);
        } else {
            if has_name(updates, name) {
                let i = position(updates, name);
                assert(0 <= i < updates.len() && updates[i].0 == name);
                assert(i < n);
                assert(init[i].0 == name);
                lemma_position_of_row(init, i);
                lemma_position_of_row(updates, i);
            } else {
                if has_name(init, name) {
                    let i = choose|i: int| 0 <= i < init.len() && (#[trigger] init[i]).0 == name;
                    assert(updates[i].0 == name);
                }
            }
        }
    }
}

/// What is posted under a name is what the catalog files under that name
/// once the mailbox is drained.
pub proof fn lemma_posted_reaches_catalog(
    catalog: Seq<Row>,
    pending: Seq<Row>,
    name: Seq<char>,
    entry: crate::entry::EntryView,
)
    requires
        distinct_names(catalog),
        distinct_names(pending),
    ensures
        has_name(absorbed(catalog, upsert(pending, name, entry)), name),
        lookup(absorbed(catalog, upsert(pending, name, entry)), name) == entry,
{
    lemma_upsert_names(pending, name, entry);
    lemma_absorbed_rows(catalog, upsert(pending, name, entry), name);
}

/// The drain leaves the view's rows where they are: the same names at the
/// same places. A row whose name has an update shows that update's entry;
/// every other row is untouched.
pub proof fn lemma_refreshed_rows(view: Seq<Row>, updates: Seq<Row>)
    requires
        distinct_names(view),
        distinct_names(updates),
    ensures
        refreshed(view, updates).len() == view.len(),
        distinct_names(refreshed(view, updates)),
        forall|name: Seq<char>| has_name(refreshed(view, updates), name) <==> has_name(view, name),
        forall|j: int|
            0 <= j < view.len() ==> #[trigger] refreshed(view, updates)[j] == if has_name(
                updates,
                view[j].0,
            ) {
                (view[j].0, lookup(updates, view[j].0))
            } else {
                view[j]
            },
    decreases updates.len(),
{
    if updates.len() > 0 {
        let init = updates.drop_last();
        let last = updates.last();
        let n = updates.len() - 1;
        assert forall|i: int, j: int| 0 <= i < j < init.len() implies (#[trigger] init[i]).0 != (
        #[trigger] init[j]).0 by {
            assert(init[i] == updates[i] && init[j] == updates[j]);
        }
        lemma_refreshed_rows(view, init);
        let before = refreshed(view, init);
        let after = refreshed(view, updates);
        assert(updates[n] == last);
        lemma_position_of_row(updates, n);
        assert forall|j: int| 0 <= j < view.len() implies (has_name(updates, view[j].0)
            <==> view[j].0 == last.0 || has_name(init, view[j].0)) && (view[j].0 != last.0
            && has_name(init, view[j].0) ==> lookup(updates, view[j].0) == lookup(
            init,
            view[j].0,
        )) by {
            let name = view[j].0;
            if has_name(updates, name) && name != last.0 {
                let i = position(updates, name);
                assert(0 <= i < updates.len() && updates[i].0 == name);
                assert(init[i].0 == name);
            }
            if has_name(init, name) {
                let i = position(init, name);
                assert(0 <= i < init.len() && init[i].0 == name);
                assert(updates[i].0 == name);
                lemma_position_of_row(updates, i);
                lemma_position_of_row(init, i);
            }
        }
        if has_name(before, last.0) {
            let p = position(before, last.0);
            assert(0 <= p < before.len() && before[p].0 == last.0);
            lemma_upsert_names(before, last.0, last.1);
            assert(after =~= before.update(p, last));
            assert forall|j: int| 0 <= j < view.len() implies (#[trigger] before[j]).0
                == view[j].0 by {}
            assert forall|j: int| 0 <= j < view.len() && j != p implies view[j].0 != last.0 by {
                if view[j].0 == last.0 {
                    assert(before[j].0 == last.0);
                    lemma_position_of_row(before, j);
                }
            }
            assert forall|name: Seq<char>| has_name(after, name) <==> has_name(view, name) by {
                if name == last.0 {
                    assert(has_name(before, name));
                }
            }
        } else {
            assert forall|j: int| 0 <= j < view.len() implies view[j].0 != last.0 by {
                if view[j].0 == last.0 {
                    assert(before[j].0 == last.0);
                }
            }
        }
    }
}

/// Takes `updates` into the catalog and into the view; see [`absorbed`] and
/// [`refreshed`].
pub fn drain(
    catalog: &mut IndexMap<String, Entry>,
    view: &mut IndexMap<String, Entry>,
    updates: &IndexMap<String, Entry>,
)
    requires
        distinct_names(rows(*old(catalog))),
        distinct_names(rows(*old(view))),
    ensures
        rows(*final(catalog)) == absorbed(rows(*old(catalog)), rows(*updates)),
        rows(*final(view)) == refreshed(rows(*old(view)), rows(*updates)),
        distinct_names(rows(*final(catalog))),
        distinct_names(rows(*final(view))),
{
    let ghost catalog0 = rows(*catalog);
    let ghost view0 = rows(*view);
    let ghost all = rows(*updates);
    let n = map_len(updates);
    let mut i: usize = 0;
    while i < n
        invariant
            i <= n,
            n == all.len(),
            all == rows(*updates),
            rows(*catalog) == absorbed(catalog0, all.take(i as int)),
            rows(*view) == refreshed(view0, all.take(i as int)),
            distinct_names(rows(*catalog)),
            distinct_names(rows(*view)),
        decreases n - i,
    {
        proof {
            assert(all.take(i + 1).drop_last() =~= all.take(i as int));
            assert(all.take(i + 1).last() == all[i as int]);
        }
        match map_get_index(updates, i) {
            Some(pair) => {
                let name = pair.0;
                let entry = pair.1;
                proof {
                    lemma_upsert_names(rows(*catalog), name@, entry@);
                    lemma_upsert_names(rows(*view), name@, entry@);
                }
                map_insert(catalog, name.clone(), entry.clone());
                if map_contains_key(view, name.as_str()) {
                    map_insert(view, name.clone(), entry.clone());
                }
            },
            None => {},
        }
        i += 1;
    }
    assert(all.take(n as int) =~= all);
}

} // verus!
