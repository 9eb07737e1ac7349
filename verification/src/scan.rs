//! Finding the first or the last item of a sequence that has a wanted
//! property.

use vstd::prelude::*;

verus! {

/// The least position of `items` whose item is wanted, if there is one.
pub open spec fn first_where<T>(items: Seq<T>, wanted: spec_fn(T) -> bool) -> Option<int>
    decreases items.len(),
{
    if items.len() == 0 {
        None
    } else {
        match first_where(items.drop_last(), wanted) {
            Some(at) => Some(at),
            None => if wanted(items.last()) {
                Some(items.len() - 1)
            } else {
                None
            },
        }
    }
}

/// `first_where` gives a position whose item is wanted and before which no
/// item is wanted, and gives none exactly when no item is wanted.
pub proof fn lemma_first_where<T>(items: Seq<T>, wanted: spec_fn(T) -> bool)
    ensures
        match first_where(items, wanted) {
            Some(at) => 0 <= at < items.len() && wanted(items[at]) && forall|k: int|
                0 <= k < at ==> !wanted(#[trigger] items[k]),
            None => forall|k: int| 0 <= k < items.len() ==> !wanted(#[trigger] items[k]),
        },
    decreases items.len(),
{
    if items.len() > 0 {
        let front = items.drop_last();
        lemma_first_where(front, wanted);
        assert(forall|k: int| 0 <= k < front.len() ==> front[k] == items[k]);
    }
}

/// A position whose item is wanted and before which no item is wanted is
/// the one `first_where` gives.
pub proof fn lemma_first_where_found<T>(items: Seq<T>, wanted: spec_fn(T) -> bool, at: int)
    requires
        0 <= at < items.len(),
        wanted(items[at]),
        forall|k: int| 0 <= k < at ==> !wanted(#[trigger] items[k]),
    ensures
        first_where(items, wanted) == Some(at),
{
    lemma_first_where(items, wanted);
}

/// If no item is wanted, `first_where` gives no position.
pub proof fn lemma_first_where_absent<T>(items: Seq<T>, wanted: spec_fn(T) -> bool)
    requires
        forall|k: int| 0 <= k < items.len() ==> !wanted(#[trigger] items[k]),
    ensures
        first_where(items, wanted) is None,
{
    lemma_first_where(items, wanted);
}

/// The greatest position of `items` whose item is wanted, if there is one.
pub open spec fn last_where<T>(items: Seq<T>, wanted: spec_fn(T) -> bool) -> Option<int>
    decreases items.len(),
{
    if items.len() == 0 {
        None
    } else if wanted(items.last()) {
        Some(items.len() - 1)
    } else {
        last_where(items.drop_last(), wanted)
    }
}

/// `last_where` gives a position whose item is wanted and after which no
/// item is wanted, and gives none exactly when no item is wanted.
pub proof fn lemma_last_where<T>(items: Seq<T>, wanted: spec_fn(T) -> bool)
    ensures
        match last_where(items, wanted) {
            Some(at) => 0 <= at < items.len() && wanted(items[at]) && forall|k: int|
                at < k < items.len() ==> !wanted(#[trigger] items[k]),
            None => forall|k: int| 0 <= k < items.len() ==> !wanted(#[trigger] items[k]),
        },
    decreases items.len(),
{
    if items.len() > 0 {
        let front = items.drop_last();
        lemma_last_where(front, wanted);
        assert(forall|k: int| 0 <= k < front.len() ==> front[k] == items[k]);
    }
}

/// A position whose item is wanted and after which no item is wanted is the
/// one `last_where` gives.
pub proof fn lemma_last_where_found<T>(items: Seq<T>, wanted: spec_fn(T) -> bool, at: int)
    requires
        0 <= at < items.len(),
        wanted(items[at]),
        forall|k: int| at < k < items.len() ==> !wanted(#[trigger] items[k]),
    ensures
        last_where(items, wanted) == Some(at),
{
    lemma_last_where(items, wanted);
}

/// If no item is wanted, `last_where` gives no position.
pub proof fn lemma_last_where_absent<T>(items: Seq<T>, wanted: spec_fn(T) -> bool)
    requires
        forall|k: int| 0 <= k < items.len() ==> !wanted(#[trigger] items[k]),
    ensures
        last_where(items, wanted) is None,
{
    lemma_last_where(items, wanted);
}

} // verus!
