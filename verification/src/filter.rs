//! The filtered view: which rows of the catalog the table shows, and in
//! which order.

use crate::catalog_map::{
    map_clone, map_retain_admitted, map_retain_matching, map_sort_by_popularity, map_sort_by_score,
    rows,
};
use crate::entry::Entry;
use crate::rows::{
    by_popularity, distinct_names, lemma_filter_all, lemma_filter_distinct, lemma_sort_distinct, Row,
};
use crate::search::{by_score, fuzzy_score, is_hit, matching, sort_value};
use crate::stable::{
    lemma_sorted_ranks_ascend, lemma_sorted_same_items, lemma_stable_sort_exists,
    lemma_stable_sort_unique, sorts_stably,
};
use crate::tags::Tags;
use indexmap::IndexMap;
use vstd::prelude::*;

verus! {

/// The two stages of the view: `ranked` holds the rows that the tags admit,
/// most downloaded first; `view` is `ranked` itself where there is no
/// search text, and otherwise the rows of `ranked` whose names match it,
/// best match first. Both orders are stable: rows that tie keep the order
/// they had in the stage before.
pub open spec fn staged(
    catalog: Seq<Row>,
    tags: Tags,
    query: Seq<char>,
    ranked: Seq<Row>,
    view: Seq<Row>,
) -> bool {
    &&& sorts_stably(catalog.filter(tags.admitted()), ranked, by_popularity())
    &&& if query.len() == 0 {
        view == ranked
    } else {
        sorts_stably(ranked.filter(matching(query)), view, by_score(query))
    }
}

/// `view` is the filtered view of `catalog` under `tags` and `query`.
pub open spec fn is_filtered_view(
    catalog: Seq<Row>,
    tags: Tags,
    query: Seq<char>,
    view: Seq<Row>,
) -> bool {
    exists|ranked: Seq<Row>| staged(catalog, tags, query, ranked, view)
}

/// Rebuilds the filtered view from the whole catalog.
pub fn filtered(catalog: &IndexMap<String, Entry>, tags: &Tags, query: &str) -> (view: IndexMap<
    String,
    Entry,
>)
    ensures
        is_filtered_view(rows(*catalog), *tags, query@, rows(view)),
{
    let mut view = map_clone(catalog);
    if tags.has_any() {
        map_retain_admitted(&mut view, tags);
    } else {
        proof {
            lemma_filter_all(rows(view), tags.admitted());
        }
    }
    map_sort_by_popularity(&mut view);
    let ghost ranked = rows(view);
    if !query.is_empty() {
        map_retain_matching(&mut view, query);
        map_sort_by_score(&mut view, query);
    }
    assert(staged(rows(*catalog), *tags, query@, ranked, rows(view)));
    view
}

/// Every catalog has a filtered view under every choice of tags and search
/// text.
pub proof fn lemma_filtered_view_exists(catalog: Seq<Row>, tags: Tags, query: Seq<char>)
    ensures
        exists|view: Seq<Row>| is_filtered_view(catalog, tags, query, view),
{
    lemma_stable_sort_exists(catalog.filter(tags.admitted()), by_popularity());
    let ranked = choose|ranked: Seq<Row>|
        sorts_stably(catalog.filter(tags.admitted()), ranked, by_popularity());
    if query.len() == 0 {
        assert(staged(catalog, tags, query, ranked, ranked));
        assert(is_filtered_view(catalog, tags, query, ranked));
    } else {
        lemma_stable_sort_exists(ranked.filter(matching(query)), by_score(query));
        let view = choose|view: Seq<Row>|
            sorts_stably(ranked.filter(matching(query)), view, by_score(query));
        assert(staged(catalog, tags, query, ranked, view));
        assert(is_filtered_view(catalog, tags, query, view));
    }
}

/// Rebuilding the view from the same catalog, tags and search text gives
/// the same rows in the same order.
pub proof fn lemma_filtered_view_unique(
    catalog: Seq<Row>,
    tags: Tags,
    query: Seq<char>,
    first: Seq<Row>,
    second: Seq<Row>,
)
    requires
        is_filtered_view(catalog, tags, query, first),
        is_filtered_view(catalog, tags, query, second),
    ensures
        first == second,
{
    let ranked1 = choose|ranked: Seq<Row>| staged(catalog, tags, query, ranked, first);
    let ranked2 = choose|ranked: Seq<Row>| staged(catalog, tags, query, ranked, second);
    lemma_stable_sort_unique(catalog.filter(tags.admitted()), ranked1, ranked2, by_popularity());
    if query.len() != 0 {
        lemma_stable_sort_unique(ranked1.filter(matching(query)), first, second, by_score(query));
    }
}

/// A row is in the view exactly if it is a row of the catalog, satisfies
/// every tag that is switched on and, where there is a search text, its
/// name matches that text.
pub proof fn lemma_filtered_view_rows(
    catalog: Seq<Row>,
    tags: Tags,
    query: Seq<char>,
    view: Seq<Row>,
)
    requires
        is_filtered_view(catalog, tags, query, view),
    ensures
        forall|row: Row|
            view.contains(row) <==> catalog.contains(row) && tags.admits_entry(row.1) && (
            query.len() != 0 ==> is_hit(fuzzy_score(row.0, query))),
{
    let ranked = choose|ranked: Seq<Row>| staged(catalog, tags, query, ranked, view);
    let admitted = catalog.filter(tags.admitted());
    lemma_sorted_same_items(admitted, ranked, by_popularity());
    assert forall|row: Row| ranked.contains(row) <==> catalog.contains(row) && tags.admits_entry(
        row.1,
    ) by {
        lemma_filter_rows(catalog, tags.admitted(), row);
    }
    if query.len() != 0 {
        let hits = ranked.filter(matching(query));
        lemma_sorted_same_items(hits, view, by_score(query));
        assert forall|row: Row|
            view.contains(row) <==> catalog.contains(row) && tags.admits_entry(row.1) && is_hit(
                fuzzy_score(row.0, query),
            ) by {
            lemma_filter_rows(ranked, matching(query), row);
        }
    }
}

/// A row is among the rows kept exactly if it was there and passes the test.
proof fn lemma_filter_rows(all: Seq<Row>, keep: spec_fn(Row) -> bool, row: Row)
    ensures
        all.filter(keep).contains(row) <==> all.contains(row) && keep(row),
{
    let kept = all.filter(keep);
    if kept.contains(row) {
        all.lemma_filter_contains_rev(keep, row);
        let i = choose|i: int| 0 <= i < kept.len() && kept[i] == row;
        all.lemma_filter_pred(keep, i);
    }
    if all.contains(row) && keep(row) {
        let i = choose|i: int| 0 <= i < all.len() && all[i] == row;
        all.lemma_filter_contains(keep, i);
    }
}

/// With no tag switched on and no search text, the view is the whole
/// catalog, most downloaded first.
pub proof fn lemma_unfiltered_view_is_catalog(catalog: Seq<Row>, tags: Tags, view: Seq<Row>)
    requires
        !tags.any(),
        is_filtered_view(catalog, tags, Seq::<char>::empty(), view),
    ensures
        sorts_stably(catalog, view, by_popularity()),
        view.len() == catalog.len(),
        forall|row: Row| view.contains(row) <==> catalog.contains(row),
{
    lemma_filter_all(catalog, tags.admitted());
    lemma_sorted_same_items(catalog, view, by_popularity());
}

/// Without a search text the view lists the most downloaded rows first:
/// counters never increase from one row to the next.
pub proof fn lemma_filtered_view_by_popularity(catalog: Seq<Row>, tags: Tags, view: Seq<Row>)
    requires
        is_filtered_view(catalog, tags, Seq::<char>::empty(), view),
    ensures
        forall|j: int, k: int| 0 <= j < k < view.len() ==> view[j].1.downloads >= view[k].1.downloads,
{
    lemma_sorted_ranks_ascend(catalog.filter(tags.admitted()), view, by_popularity());
    assert forall|j: int, k: int| 0 <= j < k < view.len() implies view[j].1.downloads
        >= view[k].1.downloads by {
        assert(by_popularity()(view[j]) <= by_popularity()(view[k]));
    }
}

/// With a search text the view lists the best matches first: match values
/// never increase from one row to the next.
pub proof fn lemma_filtered_view_by_score(
    catalog: Seq<Row>,
    tags: Tags,
    query: Seq<char>,
    view: Seq<Row>,
)
    requires
        query.len() != 0,
        is_filtered_view(catalog, tags, query, view),
    ensures
        forall|j: int, k: int|
            0 <= j < k < view.len() ==> sort_value(fuzzy_score(view[j].0, query)) >= sort_value(
                fuzzy_score(view[k].0, query),
            ),
{
    let ranked = choose|ranked: Seq<Row>| staged(catalog, tags, query, ranked, view);
    lemma_sorted_ranks_ascend(ranked.filter(matching(query)), view, by_score(query));
    assert forall|j: int, k: int| 0 <= j < k < view.len() implies sort_value(
        fuzzy_score(view[j].0, query),
    ) >= sort_value(fuzzy_score(view[k].0, query)) by {
        assert(by_score(query)(view[j]) <= by_score(query)(view[k]));
    }
}

/// The view of a catalog with distinct names has distinct names.
pub proof fn lemma_filtered_view_distinct(
    catalog: Seq<Row>,
    tags: Tags,
    query: Seq<char>,
    view: Seq<Row>,
)
    requires
        distinct_names(catalog),
        is_filtered_view(catalog, tags, query, view),
    ensures
        distinct_names(view),
{
    let ranked = choose|ranked: Seq<Row>| staged(catalog, tags, query, ranked, view);
    lemma_filter_distinct(catalog, tags.admitted());
    lemma_sort_distinct(catalog.filter(tags.admitted()), ranked, by_popularity());
    if query.len() != 0 {
        lemma_filter_distinct(ranked, matching(query));
        lemma_sort_distinct(ranked.filter(matching(query)), view, by_score(query));
    }
}

} // verus!
