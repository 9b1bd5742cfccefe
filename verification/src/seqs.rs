//! Searching a sequence for the first or the last item of a kind.

use vstd::prelude::*;

verus! {

/// The place of the first item that `wanted` holds of, if there is one.
pub open spec fn first_where<T>(items: Seq<T>, wanted: spec_fn(T) -> bool) -> Option<int>
    decreases items.len(),
{
    if items.len() == 0 {
        None
    } else if wanted(items[0]) {
        Some(0)
    } else {
        match first_where(items.drop_first(), wanted) {
            Some(at) => Some(at + 1),
            None => None,
        }
    }
}

/// The place of the last item that `wanted` holds of, if there is one.
pub open spec fn last_where<T>(items: Seq<T>, wanted: spec_fn(T) -> bool) -> Option<int>
    decreases items.len(),
{
    if items.len() == 0 {
        None
    } else if wanted(items.last()) {
        Some(items.len() - 1)
    } else {
        last_where(items.drop_last(), wanted)
    }
}

/// `first_where` names an item of the kind with none before it, and names
/// nothing only where no item is of the kind.
pub proof fn lemma_first_where<T>(items: Seq<T>, wanted: spec_fn(T) -> bool)
    ensures
        match first_where(items, wanted) {
            Some(at) => {
                &&& 0 <= at < items.len()
                &&& wanted(items[at])
                &&& forall|j: int| 0 <= j < at ==> !wanted(#[trigger] items[j])
            },
            None => forall|j: int| 0 <= j < items.len() ==> !wanted(#[trigger] items[j]),
        },
    decreases items.len(),
{
    if items.len() > 0 && !wanted(items[0]) {
        let rest = items.drop_first();
        lemma_first_where(rest, wanted);
        assert(forall|j: int| 1 <= j < items.len() ==> items[j] == rest[j - 1]);
    }
}

/// `last_where` names an item of the kind with none after it, and names
/// nothing only where no item is of the kind.
pub proof fn lemma_last_where<T>(items: Seq<T>, wanted: spec_fn(T) -> bool)
    ensures
        match last_where(items, wanted) {
            Some(at) => {
                &&& 0 <= at < items.len()
                &&& wanted(items[at])
                &&& forall|j: int| at < j < items.len() ==> !wanted(#[trigger] items[j])
            },
            None => forall|j: int| 0 <= j < items.len() ==> !wanted(#[trigger] items[j]),
        },
    decreases items.len(),
{
    if items.len() > 0 && !wanted(items.last()) {
        let rest = items.drop_last();
        lemma_last_where(rest, wanted);
        assert(forall|j: int| 0 <= j < rest.len() ==> items[j] == rest[j]);
    }
}

/// An item of the kind with none before it is the one that `first_where`
/// names.
pub proof fn lemma_first_where_is<T>(items: Seq<T>, wanted: spec_fn(T) -> bool, at: int)
    requires
        0 <= at < items.len(),
        wanted(items[at]),
        forall|j: int| 0 <= j < at ==> !wanted(#[trigger] items[j]),
    ensures
        first_where(items, wanted) == Some(at),
{
    lemma_first_where(items, wanted);
}

/// An item of the kind with none after it is the one that `last_where`
/// names.
pub proof fn lemma_last_where_is<T>(items: Seq<T>, wanted: spec_fn(T) -> bool, at: int)
    requires
        0 <= at < items.len(),
        wanted(items[at]),
        forall|j: int| at < j < items.len() ==> !wanted(#[trigger] items[j]),
    ensures
        last_where(items, wanted) == Some(at),
{
    lemma_last_where(items, wanted);
}

/// Where no item is of the kind, `first_where` and `last_where` name
/// nothing.
pub proof fn lemma_where_none<T>(items: Seq<T>, wanted: spec_fn(T) -> bool)
    requires
        forall|j: int| 0 <= j < items.len() ==> !wanted(#[trigger] items[j]),
    ensures
        first_where(items, wanted) is None,
        last_where(items, wanted) is None,
{
    lemma_first_where(items, wanted);
    lemma_last_where(items, wanted);
}

} // verus!
