//! Choosing the directory name for a pack that is downloaded with one click.

use vstd::prelude::*;

verus! {

/// `name` followed by `count` underscores.
pub open spec fn underscored(name: Seq<char>, count: nat) -> Seq<char>
    decreases count,
{
    if count == 0 {
        name
    } else {
        underscored(name, (count - 1) as nat).push('_')
    }
}

/// `chosen` is the first of `name`, `name_`, `name__`, ... that is not
/// among `taken`.
pub open spec fn is_free_name(name: Seq<char>, taken: Seq<Seq<char>>, chosen: Seq<char>) -> bool {
    exists|count: nat|
        {
            &&& chosen == #[trigger] underscored(name, count)
            &&& !taken.contains(chosen)
            &&& forall|fewer: nat| fewer < count ==> taken.contains(#[trigger] underscored(name, fewer))
        }
}

/// Length of the longest of `names`.
pub open spec fn longest(names: Seq<Seq<char>>) -> nat
    decreases names.len(),
{
    if names.len() == 0 {
        0
    } else if names.last().len() > longest(names.drop_last()) {
        names.last().len()
    } else {
        longest(names.drop_last())
    }
}

proof fn lemma_longest_bounds(names: Seq<Seq<char>>, i: int)
    requires
        0 <= i < names.len(),
    ensures
        names[i].len() <= longest(names),
    decreases names.len(),
{
    if i < names.len() - 1 {
        lemma_longest_bounds(names.drop_last(), i);
    }
}

proof fn lemma_underscored_len(name: Seq<char>, count: nat)
    ensures
        underscored(name, count).len() == name.len() + count,
    decreases count,
{
    if count > 0 {
        lemma_underscored_len(name, (count - 1) as nat);
    }
}

/// Only one name is the free name.
pub proof fn lemma_free_name_unique(
    name: Seq<char>,
    taken: Seq<Seq<char>>,
    first: Seq<char>,
    second: Seq<char>,
)
    requires
        is_free_name(name, taken, first),
        is_free_name(name, taken, second),
    ensures
        first == second,
{
    let a = choose|count: nat|
        {
            &&& first == #[trigger] underscored(name, count)
            &&& !taken.contains(first)
            &&& forall|fewer: nat| fewer < count ==> taken.contains(#[trigger] underscored(name, fewer))
        };
    let b = choose|count: nat|
        {
            &&& second == #[trigger] underscored(name, count)
            &&& !taken.contains(second)
            &&& forall|fewer: nat| fewer < count ==> taken.contains(#[trigger] underscored(name, fewer))
        };
    if a < b {
        assert(taken.contains(underscored(name, a)));
    } else if b < a {
        assert(taken.contains(underscored(name, b)));
    }
}

/// Whether `candidate` is among `taken`.
pub fn is_taken(taken: &Vec<String>, candidate: &String) -> (b: bool)
    ensures
        b == taken.deep_view().contains(candidate@),
{
    let ghost names = taken.deep_view();
    let mut i: usize = 0;
    while i < taken.len()
        invariant
            i <= taken.len(),
            names == taken.deep_view(),
            names.len() == taken.len(),
            forall|j: int| 0 <= j < i ==> names[j] != candidate@,
        decreases taken.len() - i,
    {
        assert(names[i as int] == taken[i as int]@);
        if taken[i] == *candidate {
            assert(names[i as int] == candidate@);
            return true;
        }
        i += 1;
    }
    false
}

/// The first of `name`, `name_`, `name__`, ... that is not among `taken`.
pub fn free_name(name: &str, taken: &Vec<String>) -> (chosen: String)
    ensures
        is_free_name(name@, taken.deep_view(), chosen@),
{
    let ghost names = taken.deep_view();
    let mut candidate = name.to_owned();
    let ghost mut count: nat = 0;
    proof {
        reveal_strlit("_");
    }
    while is_taken(taken, &candidate)
        invariant
            names == taken.deep_view(),
            candidate@ == underscored(name@, count),
            forall|fewer: nat| fewer < count ==> names.contains(#[trigger] underscored(name@, fewer)),
            "_"@ == seq!['_'],
        decreases longest(names) + 1 - candidate@.len(),
    {
        proof {
            let i = choose|i: int| 0 <= i < names.len() && names[i] == candidate@;
            lemma_longest_bounds(names, i);
            count = count + 1;
        }
        candidate.append("_");
        assert(candidate@ =~= underscored(name@, count));
    }
    candidate
}

} // verus!
