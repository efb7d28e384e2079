//! Popularity counters: reading the service's answer and merging it into
//! the catalog.

use crate::catalog_map::{map_get_mut, rows};
use crate::entry::Entry;
use crate::rows::{distinct_names, has_name, lemma_position_of_row, position, Row};
use indexmap::IndexMap;
use std::collections::HashMap;
use vstd::prelude::*;

verus! {

/// A reported count: a pack's name and how often it was downloaded.
pub type Count = (Seq<char>, u32);

/// The count that takes effect for `name`: the last one reported under that
/// name that is not zero. Zero counts are artifacts of the service and are
/// passed over.
pub open spec fn effective_count(counts: Seq<Count>, name: Seq<char>) -> Option<nat>
    decreases counts.len(),
{
    if counts.len() == 0 {
        None
    } else if counts.last().0 == name && counts.last().1 != 0 {
        Some(counts.last().1 as nat)
    } else {
        effective_count(counts.drop_last(), name)
    }
}

/// A row after the counts were merged: its counter and text follow the
/// effective count for its name; a row without one is untouched.
pub open spec fn counted(row: Row, counts: Seq<Count>) -> Row {
    match effective_count(counts, row.0) {
        Some(count) => (row.0, row.1.with_downloads(count)),
        None => row,
    }
}

/// The catalog after the counts were merged: the same rows in the same
/// order, each one [`counted`]. Counts for names that the catalog lacks
/// have no effect.
pub open spec fn merged(rows: Seq<Row>, counts: Seq<Count>) -> Seq<Row> {
    Seq::new(rows.len(), |i: int| counted(rows[i], counts))
}

/// Merging one more count changes at most the row of that name.
proof fn lemma_merge_step(start: Seq<Row>, counts: Seq<Count>, i: int)
    requires
        distinct_names(start),
        0 <= i < counts.len(),
    ensures
        merged(start, counts.take(i)).len() == start.len(),
        forall|name: Seq<char>|
            has_name(merged(start, counts.take(i)), name) <==> has_name(start, name),
        counts[i].1 == 0 || !has_name(start, counts[i].0) ==> merged(start, counts.take(i + 1))
            == merged(start, counts.take(i)),
        counts[i].1 != 0 && has_name(start, counts[i].0) ==> merged(start, counts.take(i + 1))
            == merged(start, counts.take(i)).update(
            position(merged(start, counts.take(i)), counts[i].0),
            (
                counts[i].0,
                merged(start, counts.take(i))[position(merged(start, counts.take(i)), counts[i].0)].1.with_downloads(
                    counts[i].1 as nat,
                ),
            ),
        ),
{
    let now = merged(start, counts.take(i));
    let next = merged(start, counts.take(i + 1));
    let name = counts[i].0;
    let count = counts[i].1;
    assert(counts.take(i + 1).drop_last() =~= counts.take(i));
    assert(counts.take(i + 1).last() == counts[i]);
    assert forall|j: int| 0 <= j < start.len() implies (#[trigger] now[j]).0 == start[j].0 by {}
    assert forall|other: Seq<char>| has_name(now, other) <==> has_name(start, other) by {
        if has_name(now, other) {
            let j = choose|j: int| 0 <= j < now.len() && (#[trigger] now[j]).0 == other;
            assert(start[j].0 == other);
        }
        if has_name(start, other) {
            let j = choose|j: int| 0 <= j < start.len() && (#[trigger] start[j]).0 == other;
            assert(now[j].0 == other);
        }
    }
    assert(distinct_names(now)) by {
        assert forall|a: int, b: int| 0 <= a < b < now.len() implies (#[trigger] now[a]).0 != (
        #[trigger] now[b]).0 by {
            assert(now[a].0 == start[a].0 && now[b].0 == start[b].0);
        }
    }
    if count == 0 || !has_name(start, name) {
        assert(next =~= now) by {
            assert forall|j: int| 0 <= j < start.len() implies next[j] == now[j] by {
                if start[j].0 == name {
                    assert(has_name(start, name));
                }
            }
        }
    } else {
        let p = position(now, name);
        assert(0 <= p < now.len() && now[p].0 == name);
        let patched = now.update(p, (name, now[p].1.with_downloads(count as nat)));
        assert(next =~= patched) by {
            assert forall|j: int| 0 <= j < start.len() implies next[j] == patched[j] by {
                if j == p {
                    assert(start[p].0 == name);
                } else {
                    if start[j].0 == name {
                        assert(now[j].0 == name);
                        lemma_position_of_row(now, j);
                    }
                }
            }
        }
    }
}

/// Merges reported counts into the rows of `entries`: every row whose name
/// has a non-zero count takes that count and its decimal text; where a name
/// is reported more than once the last non-zero count wins; all else stays.
pub fn merge_counts(entries: &mut IndexMap<String, Entry>, counts: &Vec<(String, u32)>)
    requires
        distinct_names(rows(*old(entries))),
    ensures
        rows(*final(entries)) == merged(rows(*old(entries)), counts.deep_view()),
        distinct_names(rows(*final(entries))),
{
    let ghost start = rows(*entries);
    let ghost all = counts.deep_view();
    let mut i: usize = 0;
    assert(merged(start, all.take(0)) =~= start);
    while i < counts.len()
        invariant
            i <= counts.len(),
            all == counts.deep_view(),
            all.len() == counts.len(),
            distinct_names(start),
            rows(*entries) == merged(start, all.take(i as int)),
        decreases counts.len() - i,
    {
        let pair = &counts[i];
        proof {
            lemma_merge_step(start, all, i as int);
            assert(all[i as int] == (pair.0@, pair.1));
        }
        if pair.1 != 0 {
            match map_get_mut(entries, pair.0.as_str()) {
                Some(entry) => {
                    entry.set_downloads(pair.1);
                },
                None => {},
            }
        }
        i += 1;
    }
    assert(all.take(all.len() as int) =~= all);
    proof {
        let done = merged(start, all);
        assert forall|a: int, b: int| 0 <= a < b < done.len() implies (#[trigger] done[a]).0 != (
        #[trigger] done[b]).0 by {
            assert(done[a].0 == start[a].0 && done[b].0 == start[b].0);
        }
    }
}

} // verus!

verus! {

/// The table of counts that a response body spells out as a JSON object of
/// names and unsigned 32-bit numbers, or nothing where the body is not such
/// an object.
pub uninterp spec fn parsed_counts(body: Seq<u8>) -> Option<Map<Seq<char>, u32>>;

/// `counts` lists `table`: each name of the table once, with its count, in
/// some order.
pub open spec fn lists(counts: Seq<Count>, table: Map<Seq<char>, u32>) -> bool {
    &&& forall|i: int, j: int|
        0 <= i < j < counts.len() ==> (#[trigger] counts[i]).0 != (#[trigger] counts[j]).0
    &&& forall|i: int|
        0 <= i < counts.len() ==> table.contains_key((#[trigger] counts[i]).0) && table[counts[i].0]
            == counts[i].1
    &&& forall|name: Seq<char>|
        table.contains_key(name) ==> exists|i: int|
            0 <= i < counts.len() && (#[trigger] counts[i]).0 == name
}

/// `serde_json::from_slice` into a `HashMap<String, u32>`, handed out as a
/// list. Whether the body parses and which table it gives depend on the
/// bytes alone; the order of the list is left open.
#[verifier::external_body]
pub(crate) fn parse_counts(body: &[u8]) -> (r: Option<Vec<(String, u32)>>)
    ensures
        r is Some <==> parsed_counts(body@) is Some,
        r matches Some(counts) ==> lists(counts.deep_view(), parsed_counts(body@).unwrap()),
{
    serde_json::from_slice::<HashMap<String, u32>>(body).ok().map(|table| table.into_iter().collect())
}

/// A row after a table of counts was merged: a non-zero count under the
/// row's name becomes its counter; otherwise the row is untouched.
pub open spec fn tabled(row: Row, table: Map<Seq<char>, u32>) -> Row {
    if table.contains_key(row.0) && table[row.0] != 0 {
        (row.0, row.1.with_downloads(table[row.0] as nat))
    } else {
        row
    }
}

/// The catalog after a table of counts was merged: the same rows in the
/// same order, each one [`tabled`].
pub open spec fn merged_table(rows: Seq<Row>, table: Map<Seq<char>, u32>) -> Seq<Row> {
    Seq::new(rows.len(), |i: int| tabled(rows[i], table))
}

/// In a list without repeated names, the effective count of a name is the
/// one listed under it, unless that is zero.
proof fn lemma_effective_in_prefix(counts: Seq<Count>, name: Seq<char>, upto: int)
    requires
        forall|i: int, j: int|
            0 <= i < j < counts.len() ==> (#[trigger] counts[i]).0 != (#[trigger] counts[j]).0,
        0 <= upto <= counts.len(),
    ensures
        match effective_count(counts.take(upto), name) {
            Some(count) => exists|i: int|
                0 <= i < upto && (#[trigger] counts[i]).0 == name && counts[i].1 == count && count
                    != 0,
            None => forall|i: int|
                0 <= i < upto && (#[trigger] counts[i]).0 == name ==> counts[i].1 == 0,
        },
    decreases upto,
{
    if upto > 0 {
        let prefix = counts.take(upto);
        assert(prefix.drop_last() =~= counts.take(upto - 1));
        assert(prefix.last() == counts[upto - 1]);
        lemma_effective_in_prefix(counts, name, upto - 1);
        if counts[upto - 1].0 == name && counts[upto - 1].1 != 0 {
        } else {
            match effective_count(counts.take(upto - 1), name) {
                Some(count) => {
                    let i = choose|i: int|
                        0 <= i < upto - 1 && (#[trigger] counts[i]).0 == name && counts[i].1
                            == count && count != 0;
                    assert(0 <= i < upto && counts[i].0 == name && counts[i].1 == count);
                },
                None => {},
            }
        }
    }
}

/// Merging a list that lists a table is merging the table.
pub proof fn lemma_merged_list_is_table(
    rows: Seq<Row>,
    counts: Seq<Count>,
    table: Map<Seq<char>, u32>,
)
    requires
        lists(counts, table),
    ensures
        merged(rows, counts) == merged_table(rows, table),
{
    assert(counts.take(counts.len() as int) =~= counts);
    assert forall|r: int| 0 <= r < rows.len() implies counted(rows[r], counts) == tabled(
        rows[r],
        table,
    ) by {
        let name = rows[r].0;
        lemma_effective_in_prefix(counts, name, counts.len() as int);
        match effective_count(counts, name) {
            Some(count) => {
                let i = choose|i: int|
                    0 <= i < counts.len() && (#[trigger] counts[i]).0 == name && counts[i].1
                        == count && count != 0;
                assert(table.contains_key(counts[i].0));
            },
            None => {
                if table.contains_key(name) {
                    let i = choose|i: int| 0 <= i < counts.len() && (#[trigger] counts[i]).0 == name;
                    assert(table[counts[i].0] == counts[i].1);
                }
            },
        }
    }
    assert(merged(rows, counts) =~= merged_table(rows, table));
}

} // verus!
