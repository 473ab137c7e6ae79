//! Finding the first item of a sequence that has a given property.

use vstd::prelude::*;

verus! {

/// Whether `index` is the place of the first item of `items` that meets `wanted`.
pub open spec fn is_first<A>(items: Seq<A>, wanted: spec_fn(A) -> bool, index: int) -> bool {
    &&& 0 <= index < items.len()
    &&& wanted(items[index])
    &&& forall|earlier: int| 0 <= earlier < index ==> !wanted(#[trigger] items[earlier])
}

/// The place of the first item of `items` that meets `wanted`, if there is one.
pub open spec fn first_index<A>(items: Seq<A>, wanted: spec_fn(A) -> bool) -> Option<int> {
    if exists|index: int| is_first(items, wanted, index) {
        Some(choose|index: int| is_first(items, wanted, index))
    } else {
        None
    }
}

/// The first item of `items` that meets `wanted`, if there is one.
pub open spec fn first_match<A>(items: Seq<A>, wanted: spec_fn(A) -> bool) -> Option<A> {
    match first_index(items, wanted) {
        Some(index) => Some(items[index]),
        None => None,
    }
}

/// A place that is the first match is the one that `first_index` names.
pub proof fn lemma_first_index_is<A>(items: Seq<A>, wanted: spec_fn(A) -> bool, index: int)
    requires
        is_first(items, wanted, index),
    ensures
        first_index(items, wanted) == Some(index),
        first_match(items, wanted) == Some(items[index]),
{
    let chosen = choose|index: int| is_first(items, wanted, index);
    assert(is_first(items, wanted, chosen));
    if chosen < index {
        assert(!wanted(items[chosen]));
    }
    if index < chosen {
        assert(!wanted(items[index]));
    }
}

/// Where no item matches, `first_index` names none.
pub proof fn lemma_first_index_none<A>(items: Seq<A>, wanted: spec_fn(A) -> bool)
    requires
        forall|index: int| 0 <= index < items.len() ==> !wanted(#[trigger] items[index]),
    ensures
        first_index(items, wanted) is None,
        first_match(items, wanted) is None,
{
}

/// What `first_index` names is a first match, and where it names none, no item matches.
pub proof fn lemma_first_index_sound<A>(items: Seq<A>, wanted: spec_fn(A) -> bool)
    ensures
        match first_index(items, wanted) {
            Some(index) => is_first(items, wanted, index),
            None => forall|index: int| 0 <= index < items.len() ==> !wanted(#[trigger] items[index]),
        },
{
    if first_index(items, wanted) is None {
        assert forall|index: int| 0 <= index < items.len() implies !wanted(
            #[trigger] items[index],
        ) by {
            if wanted(items[index]) {
                lemma_some_match_has_first(items, wanted, index);
            }
        }
    }
}

/// Below any match lies a first match.
pub proof fn lemma_some_match_has_first<A>(items: Seq<A>, wanted: spec_fn(A) -> bool, index: int)
    requires
        0 <= index < items.len(),
        wanted(items[index]),
    ensures
        exists|first: int| first <= index && is_first(items, wanted, first),
    decreases index,
{
    if exists|earlier: int| 0 <= earlier < index && wanted(items[earlier]) {
        let earlier = choose|earlier: int| 0 <= earlier < index && wanted(items[earlier]);
        lemma_some_match_has_first(items, wanted, earlier);
    } else {
        assert(is_first(items, wanted, index));
    }
}

} // verus!
