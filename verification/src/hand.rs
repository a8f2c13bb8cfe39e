//! What can be said of a row of cards and three positions in it.

use crate::card::Card;
use crate::card_set::{lemma_valid_in_any_order, CardSet};
use crate::index::{lemma_before_is_total, lemma_sorted_is_ordered, Index};
use vstd::prelude::*;

verus! {

/// The three cards of `hand` at the positions of `index`.
pub open spec fn picked(hand: Seq<Card>, index: Index) -> CardSet {
    CardSet(hand[index.0 as int], hand[index.1 as int], hand[index.2 as int])
}

/// `index` names three different cards of `hand`, and they are a set.
pub open spec fn is_set_in(hand: Seq<Card>, index: Index) -> bool {
    index.valid(hand.len() as int) && picked(hand, index).valid()
}

/// Some three cards of `hand` are a set.
pub open spec fn has_set(hand: Seq<Card>) -> bool {
    exists|index: Index| is_set_in(hand, index)
}

/// `index` names a set of `hand` with its positions in ascending order, and
/// no such triple comes before it in dictionary order.
pub open spec fn is_first_set(hand: Seq<Card>, index: Index) -> bool {
    &&& index.ascending()
    &&& is_set_in(hand, index)
    &&& forall|other: Index|
        other.ascending() && #[trigger] is_set_in(hand, other) ==> !other.before(index)
}

/// `found` lists the sets of `hand`, each once with its positions in
/// ascending order, and the list is in dictionary order.
pub open spec fn lists_all_sets(hand: Seq<Card>, found: Seq<Index>) -> bool {
    &&& forall|t: int|
        0 <= t < found.len() ==> (#[trigger] found[t]).ascending() && is_set_in(hand, found[t])
    &&& forall|s: int, t: int|
        0 <= s < t < found.len() ==> (#[trigger] found[s]).before(#[trigger] found[t])
    &&& forall|index: Index|
        index.ascending() && #[trigger] is_set_in(hand, index) ==> found.contains(index)
}

/// Whether three positions name a set of a hand does not depend on the order
/// in which they are given.
pub proof fn lemma_set_in_any_order(hand: Seq<Card>, index: Index)
    ensures
        is_set_in(hand, index.sorted()) == is_set_in(hand, index),
{
    lemma_sorted_is_ordered(index);
    lemma_valid_in_any_order(picked(hand, index));
}

/// A hand has a set exactly if it has one whose positions ascend.
pub proof fn lemma_has_set_ascending(hand: Seq<Card>)
    ensures
        has_set(hand) <==> exists|index: Index| index.ascending() && is_set_in(hand, index),
{
    if has_set(hand) {
        let index = choose|index: Index| is_set_in(hand, index);
        lemma_set_in_any_order(hand, index);
        lemma_sorted_is_ordered(index);
        assert(index.sorted().ascending() && is_set_in(hand, index.sorted()));
    }
}

/// A complete list of the sets of a hand is empty exactly if the hand has no
/// set, and else begins with the first set.
pub proof fn lemma_head_of_all_sets(hand: Seq<Card>, found: Seq<Index>)
    requires
        lists_all_sets(hand, found),
    ensures
        found.len() == 0 <==> !has_set(hand),
        found.len() > 0 ==> is_first_set(hand, found[0]),
{
    lemma_has_set_ascending(hand);
    if found.len() > 0 {
        assert forall|other: Index|
            other.ascending() && #[trigger] is_set_in(hand, other) implies !other.before(
            found[0],
        ) by {
            assert(found.contains(other));
            lemma_before_is_total(found[0], other);
        }
    }
}

/// A hand has at most one first set.
pub proof fn lemma_first_set_is_unique(hand: Seq<Card>, a: Index, b: Index)
    requires
        is_first_set(hand, a),
        is_first_set(hand, b),
    ensures
        a == b,
{
    lemma_before_is_total(a, b);
}

} // verus!
