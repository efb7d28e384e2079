//! Rows: the mathematical contents of an ordered name-to-entry map, and the
//! operations the panel performs on them.

use crate::entry::{DownloadStatusView, EntryView};
use crate::stable::{arranged_by, precedes, sorts_stably};
use vstd::prelude::*;

verus! {

/// A name and the entry filed under it.
pub type Row = (Seq<char>, EntryView);

/// No two rows carry the same name.
pub open spec fn distinct_names(rows: Seq<Row>) -> bool {
    forall|i: int, j: int| 0 <= i < j < rows.len() ==> (#[trigger] rows[i]).0 != (#[trigger] rows[j]).0
}

/// Whether some row carries `name`.
pub open spec fn has_name(rows: Seq<Row>, name: Seq<char>) -> bool {
    exists|i: int| 0 <= i < rows.len() && (#[trigger] rows[i]).0 == name
}

/// Index of the row that carries `name`, where there is one.
pub open spec fn position(rows: Seq<Row>, name: Seq<char>) -> int {
    choose|i: int| 0 <= i < rows.len() && (#[trigger] rows[i]).0 == name
}

/// The entry filed under `name`, where there is one.
pub open spec fn lookup(rows: Seq<Row>, name: Seq<char>) -> EntryView {
    rows[position(rows, name)].1
}

/// Insert-or-replace: a row of that name takes the new entry and keeps its
/// place; otherwise the row is added at the end.
pub open spec fn upsert(rows: Seq<Row>, name: Seq<char>, entry: EntryView) -> Seq<Row> {
    if has_name(rows, name) {
        rows.update(position(rows, name), (name, entry))
    } else {
        rows.push((name, entry))
    }
}

/// The row of that name, if any, gets the download state `status`.
pub open spec fn with_status_at(rows: Seq<Row>, name: Seq<char>, status: DownloadStatusView) -> Seq<
    Row,
> {
    if has_name(rows, name) {
        rows.update(position(rows, name), (name, lookup(rows, name).with_status(status)))
    } else {
        rows
    }
}

/// Rank that puts the most downloaded rows first.
pub open spec fn by_popularity() -> spec_fn(Row) -> int {
    |row: Row| 0 - row.1.downloads
}

/// With distinct names, the row at `i` is the one `position` finds.
pub proof fn lemma_position_of_row(rows: Seq<Row>, i: int)
    requires
        distinct_names(rows),
        0 <= i < rows.len(),
    ensures
        has_name(rows, rows[i].0),
        position(rows, rows[i].0) == i,
{
    let name = rows[i].0;
    let p = position(rows, name);
    assert(0 <= p < rows.len() && rows[p].0 == name);
    if p < i {
        assert(rows[p].0 != rows[i].0);
    } else if i < p {
        assert(rows[i].0 != rows[p].0);
    }
}

/// `position` finds a row of the name it was asked for.
pub proof fn lemma_position_in_range(rows: Seq<Row>, name: Seq<char>)
    requires
        has_name(rows, name),
    ensures
        0 <= position(rows, name) < rows.len(),
        rows[position(rows, name)].0 == name,
{
}

/// Replacing the entry of a row keeps every name in its place.
pub proof fn lemma_update_keeps_names(rows: Seq<Row>, i: int, entry: EntryView)
    requires
        0 <= i < rows.len(),
    ensures
        rows.update(i, (rows[i].0, entry)).len() == rows.len(),
        forall|j: int|
            0 <= j < rows.len() ==> (#[trigger] rows.update(i, (rows[i].0, entry))[j]).0 == rows[j].0,
        distinct_names(rows) ==> distinct_names(rows.update(i, (rows[i].0, entry))),
        forall|name: Seq<char>|
            has_name(rows.update(i, (rows[i].0, entry)), name) <==> has_name(rows, name),
{
    let after = rows.update(i, (rows[i].0, entry));
    assert forall|name: Seq<char>| has_name(after, name) <==> has_name(rows, name) by {
        if has_name(after, name) {
            let j = choose|j: int| 0 <= j < after.len() && (#[trigger] after[j]).0 == name;
            assert(rows[j].0 == name);
        }
        if has_name(rows, name) {
            let j = choose|j: int| 0 <= j < rows.len() && (#[trigger] rows[j]).0 == name;
            assert(after[j].0 == name);
        }
    }
    if distinct_names(rows) {
        assert forall|a: int, b: int| 0 <= a < b < after.len() implies (#[trigger] after[a]).0 != (
        #[trigger] after[b]).0 by {
            assert(after[a].0 == rows[a].0);
            assert(after[b].0 == rows[b].0);
        }
    }
}

/// What `upsert` does to names: the given name is present afterwards, every
/// other name is present exactly if it was, and names stay distinct.
pub proof fn lemma_upsert_names(rows: Seq<Row>, name: Seq<char>, entry: EntryView)
    requires
        distinct_names(rows),
    ensures
        distinct_names(upsert(rows, name, entry)),
        has_name(upsert(rows, name, entry), name),
        lookup(upsert(rows, name, entry), name) == entry,
        forall|other: Seq<char>|
            other != name ==> (has_name(upsert(rows, name, entry), other) <==> has_name(rows, other)),
        forall|other: Seq<char>|
            other != name && has_name(rows, other) ==> lookup(upsert(rows, name, entry), other)
                == lookup(rows, other),
{
    let after = upsert(rows, name, entry);
    if has_name(rows, name) {
        let p = position(rows, name);
        lemma_update_keeps_names(rows, p, entry);
        assert(after[p].0 == name);
        lemma_position_of_row(after, p);
        assert forall|other: Seq<char>| other != name && has_name(rows, other) implies lookup(
            after,
            other,
        ) == lookup(rows, other) by {
            let q = position(rows, other);
            assert(after[q].0 == other);
            lemma_position_of_row(after, q);
        }
    } else {
        let n = rows.len() as int;
        assert(after[n].0 == name);
        assert forall|a: int, b: int| 0 <= a < b < after.len() implies (#[trigger] after[a]).0 != (
        #[trigger] after[b]).0 by {
            if b == n {
                assert(rows[a].0 != name);
            } else {
                assert(after[a] == rows[a] && after[b] == rows[b]);
            }
        }
        lemma_position_of_row(after, n);
        assert forall|other: Seq<char>| other != name implies (has_name(after, other) <==> has_name(
            rows,
            other,
        )) by {
            if has_name(after, other) {
                let j = choose|j: int| 0 <= j < after.len() && (#[trigger] after[j]).0 == other;
                assert(j < n);
                assert(rows[j].0 == other);
            }
            if has_name(rows, other) {
                let j = choose|j: int| 0 <= j < rows.len() && (#[trigger] rows[j]).0 == other;
                assert(after[j].0 == other);
            }
        }
        assert forall|other: Seq<char>| other != name && has_name(rows, other) implies lookup(
            after,
            other,
        ) == lookup(rows, other) by {
            let q = position(rows, other);
            assert(after[q] == rows[q]);
            lemma_position_of_row(after, q);
        }
    }
}

/// Keeping only some rows keeps the names distinct.
pub proof fn lemma_filter_distinct(rows: Seq<Row>, keep: spec_fn(Row) -> bool)
    requires
        distinct_names(rows),
    ensures
        distinct_names(rows.filter(keep)),
    decreases rows.len(),
{
    reveal(Seq::filter);
    if rows.len() > 0 {
        let init = rows.drop_last();
        assert forall|i: int, j: int| 0 <= i < j < init.len() implies (#[trigger] init[i]).0 != (
        #[trigger] init[j]).0 by {
            assert(init[i] == rows[i] && init[j] == rows[j]);
        }
        lemma_filter_distinct(init, keep);
        let kept = init.filter(keep);
        if keep(rows.last()) {
            let after = kept.push(rows.last());
            assert forall|i: int, j: int| 0 <= i < j < after.len() implies (#[trigger] after[i]).0
                != (#[trigger] after[j]).0 by {
                if j == kept.len() {
                    assert(kept.contains(kept[i]));
                    init.lemma_filter_contains_rev(keep, kept[i]);
                    let k = choose|k: int| 0 <= k < init.len() && init[k] == kept[i];
                    assert(rows[k] == kept[i]);
                    assert(rows[k].0 != rows[rows.len() - 1].0);
                } else {
                    assert(after[i] == kept[i] && after[j] == kept[j]);
                }
            }
        }
    }
}

/// Keeping every row changes nothing.
pub proof fn lemma_filter_all(rows: Seq<Row>, keep: spec_fn(Row) -> bool)
    requires
        forall|i: int| 0 <= i < rows.len() ==> keep(#[trigger] rows[i]),
    ensures
        rows.filter(keep) == rows,
    decreases rows.len(),
{
    reveal(Seq::filter);
    if rows.len() > 0 {
        let init = rows.drop_last();
        assert forall|i: int| 0 <= i < init.len() implies keep(#[trigger] init[i]) by {
            assert(init[i] == rows[i]);
        }
        lemma_filter_all(init, keep);
        assert(init.push(rows.last()) =~= rows);
    }
}

/// A stable sort keeps the names distinct.
pub proof fn lemma_sort_distinct(before: Seq<Row>, after: Seq<Row>, rank: spec_fn(Row) -> int)
    requires
        distinct_names(before),
        sorts_stably(before, after, rank),
    ensures
        distinct_names(after),
{
    let src = choose|src: Seq<int>| arranged_by(before, after, rank, src);
    assert forall|i: int, j: int| 0 <= i < j < after.len() implies (#[trigger] after[i]).0 != (
    #[trigger] after[j]).0 by {
        assert(precedes(before, rank, src[i], src[j]));
        assert(after[i] == before[src[i]]);
        assert(after[j] == before[src[j]]);
        if src[i] < src[j] {
            assert(before[src[i]].0 != before[src[j]].0);
        } else if src[j] < src[i] {
            assert(before[src[j]].0 != before[src[i]].0);
        }
    }
}

} // verus!
