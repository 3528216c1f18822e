//! Finding the first row of a table that meets a condition.

use vstd::prelude::*;

verus! {

/// The index of the first element at or after `from` that meets `wanted`.
pub open spec fn first_from<T>(rows: Seq<T>, wanted: spec_fn(T) -> bool, from: int) -> Option<int>
    decreases rows.len() - from,
{
    if from < 0 || from >= rows.len() {
        None
    } else if wanted(rows[from]) {
        Some(from)
    } else {
        first_from(rows, wanted, from + 1)
    }
}

/// The index of the first element that meets `wanted`.
pub open spec fn first_index<T>(rows: Seq<T>, wanted: spec_fn(T) -> bool) -> Option<int> {
    first_from(rows, wanted, 0)
}

/// The first element that meets `wanted`.
pub open spec fn first_match<T>(rows: Seq<T>, wanted: spec_fn(T) -> bool) -> Option<T> {
    match first_index(rows, wanted) {
        Some(i) => Some(rows[i]),
        None => None,
    }
}

/// What a search from `from` finds is the earliest match, and it finds
/// nothing only where nothing matches.
pub proof fn lemma_first_from<T>(rows: Seq<T>, wanted: spec_fn(T) -> bool, from: int)
    requires
        0 <= from,
    ensures
        match first_from(rows, wanted, from) {
            Some(i) => from <= i < rows.len() && wanted(rows[i]) && forall|j: int|
                from <= j < i ==> !wanted(#[trigger] rows[j]),
            None => forall|j: int| from <= j < rows.len() ==> !wanted(#[trigger] rows[j]),
        },
    decreases rows.len() - from,
{
    if from < rows.len() && !wanted(rows[from]) {
        lemma_first_from(rows, wanted, from + 1);
    }
}

/// The search finds the earliest match.
pub proof fn lemma_first_index<T>(rows: Seq<T>, wanted: spec_fn(T) -> bool)
    ensures
        match first_index(rows, wanted) {
            Some(i) => 0 <= i < rows.len() && wanted(rows[i]) && forall|j: int|
                0 <= j < i ==> !wanted(#[trigger] rows[j]),
            None => forall|j: int| 0 <= j < rows.len() ==> !wanted(#[trigger] rows[j]),
        },
{
    lemma_first_from(rows, wanted, 0);
}

/// An index whose element matches, with no match before it, is what the search finds.
pub proof fn lemma_first_index_is<T>(rows: Seq<T>, wanted: spec_fn(T) -> bool, i: int)
    requires
        0 <= i < rows.len(),
        wanted(rows[i]),
        forall|j: int| 0 <= j < i ==> !wanted(#[trigger] rows[j]),
    ensures
        first_index(rows, wanted) == Some(i),
{
    lemma_first_index(rows, wanted);
}

/// Where nothing matches the search finds nothing.
pub proof fn lemma_first_index_none<T>(rows: Seq<T>, wanted: spec_fn(T) -> bool)
    requires
        forall|j: int| 0 <= j < rows.len() ==> !wanted(#[trigger] rows[j]),
    ensures
        first_index(rows, wanted) is None,
{
    lemma_first_index(rows, wanted);
}

/// A row added at the end is found only where no earlier row matches.
pub proof fn lemma_first_index_push<T>(rows: Seq<T>, wanted: spec_fn(T) -> bool, row: T)
    ensures
        first_index(rows.push(row), wanted) == match first_index(rows, wanted) {
            Some(i) => Some(i),
            None => if wanted(row) {
                Some(rows.len() as int)
            } else {
                None
            },
        },
{
    lemma_first_index(rows, wanted);
    let longer = rows.push(row);
    match first_index(rows, wanted) {
        Some(i) => {
            assert(longer[i] == rows[i]);
            assert forall|j: int| 0 <= j < i implies !wanted(#[trigger] longer[j]) by {
                assert(longer[j] == rows[j]);
            }
            lemma_first_index_is(longer, wanted, i);
        },
        None => {
            assert forall|j: int| 0 <= j < rows.len() implies !wanted(#[trigger] longer[j]) by {
                assert(longer[j] == rows[j]);
            }
            if wanted(row) {
                lemma_first_index_is(longer, wanted, rows.len() as int);
            } else {
                lemma_first_index_none(longer, wanted);
            }
        },
    }
}

/// A row added at the end is the first match only where no earlier row matches.
pub proof fn lemma_first_match_push<T>(rows: Seq<T>, wanted: spec_fn(T) -> bool, row: T)
    ensures
        first_match(rows.push(row), wanted) == match first_match(rows, wanted) {
            Some(found) => Some(found),
            None => if wanted(row) {
                Some(row)
            } else {
                None
            },
        },
{
    lemma_first_index_push(rows, wanted, row);
    lemma_first_index(rows, wanted);
}

/// Replacing a row by one that matches exactly when the old one did does not
/// change where the first match is.
pub proof fn lemma_first_index_update<T>(rows: Seq<T>, wanted: spec_fn(T) -> bool, at: int, row: T)
    requires
        0 <= at < rows.len(),
        wanted(rows[at]) == wanted(row),
    ensures
        first_index(rows.update(at, row), wanted) == first_index(rows, wanted),
{
    lemma_first_index(rows, wanted);
    let changed = rows.update(at, row);
    assert forall|j: int| 0 <= j < rows.len() implies wanted(#[trigger] changed[j]) == wanted(
        rows[j],
    ) by {}
    match first_index(rows, wanted) {
        Some(i) => {
            assert forall|j: int| 0 <= j < i implies !wanted(#[trigger] changed[j]) by {
                assert(wanted(changed[j]) == wanted(rows[j]));
            }
            assert(wanted(changed[i]) == wanted(rows[i]));
            lemma_first_index_is(changed, wanted, i);
        },
        None => {
            assert forall|j: int| 0 <= j < changed.len() implies !wanted(#[trigger] changed[j]) by {
                assert(wanted(changed[j]) == wanted(rows[j]));
            }
            lemma_first_index_none(changed, wanted);
        },
    }
}

} // verus!
