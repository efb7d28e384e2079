//! Fuzzy matching of entry names against the search text.
//!
//! The score comes from the skim matcher of `fuzzy_matcher`. Its algorithm is
//! not restated here: the score of a name against a query is the value
//! [`fuzzy_score`], and this module says how the panel reads such a score.

use crate::rows::Row;
use fuzzy_matcher::skim::SkimMatcherV2;
use fuzzy_matcher::FuzzyMatcher;
use vstd::prelude::*;

verus! {

/// What the skim matcher, in its default configuration, makes of `choice`
/// against `pattern`: a score, or nothing where `choice` does not match.
pub uninterp spec fn fuzzy_score(choice: Seq<char>, pattern: Seq<char>) -> Option<i64>;

/// `SkimMatcherV2::fuzzy_match` on a matcher in its default configuration.
/// The result depends on the two texts alone.
#[verifier::external_body]
fn skim_match(choice: &str, pattern: &str) -> (score: Option<i64>)
    ensures
        score == fuzzy_score(choice@, pattern@),
{
    SkimMatcherV2::default().fuzzy_match(choice, pattern)
}

/// A name stays in the view exactly if the matcher gave it a score.
pub open spec fn is_hit(score: Option<i64>) -> bool {
    score is Some
}

/// The value a score sorts by: the score itself, or zero where there is none.
pub open spec fn sort_value(score: Option<i64>) -> int {
    match score {
        Some(value) => value as int,
        None => 0,
    }
}

/// Whether a score keeps its name in the view.
pub fn keeps(score: Option<i64>) -> (b: bool)
    ensures
        b == is_hit(score),
{
    score.is_some()
}

/// The value a score sorts by.
pub fn value_of(score: Option<i64>) -> (value: i64)
    ensures
        value == sort_value(score),
{
    match score {
        Some(value) => value,
        None => 0,
    }
}

/// Whether `name` matches `query`.
pub fn name_matches(name: &str, query: &str) -> (b: bool)
    ensures
        b == is_hit(fuzzy_score(name@, query@)),
{
    keeps(skim_match(name, query))
}

/// The value `name` sorts by under `query`.
pub fn name_score(name: &str, query: &str) -> (value: i64)
    ensures
        value == sort_value(fuzzy_score(name@, query@)),
{
    value_of(skim_match(name, query))
}

/// The rows whose names match `query`.
pub open spec fn matching(query: Seq<char>) -> spec_fn(Row) -> bool {
    |row: Row| is_hit(fuzzy_score(row.0, query))
}

/// Rank that puts the best matches of `query` first.
pub open spec fn by_score(query: Seq<char>) -> spec_fn(Row) -> int {
    |row: Row| 0 - sort_value(fuzzy_score(row.0, query))
}

} // verus!
