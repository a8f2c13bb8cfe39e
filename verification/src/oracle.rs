//! The finder that tries every three cards of the hand.

use crate::card::Card;
use crate::card_set::CardSet;
use crate::engine::{is_sound, SetFinder};
use crate::hand::{has_set, is_first_set, is_set_in, lemma_head_of_all_sets, lists_all_sets};
use crate::index::Index;
use itertools::Itertools;
use vstd::prelude::*;

verus! {

/// The positions of three numbered cards.
pub open spec fn positions(triple: Seq<(usize, &Card)>) -> Index {
    Index(triple[0].0, triple[1].0, triple[2].0)
}

/// `triple` holds three cards of `hand`, each with its position, and the
/// positions ascend.
pub open spec fn is_triple_of(hand: Seq<Card>, triple: Seq<(usize, &Card)>) -> bool {
    &&& triple.len() == 3
    &&& triple[0].0 < triple[1].0 < triple[2].0 < hand.len()
    &&& forall|k: int| 0 <= k < 3 ==> *(#[trigger] triple[k]).1 == hand[triple[k].0 as int]
}

/// One of the first `upto` triples of `all` has the positions `index`.
pub open spec fn is_among(all: Seq<Vec<(usize, &Card)>>, upto: int, index: Index) -> bool {
    exists|v: int| 0 <= v < upto && positions((#[trigger] all[v])@) == index
}

/// `all` holds each choice of three positions of `hand` once, with the cards
/// at them: the positions of one choice ascend, and the choices are in
/// dictionary order of their positions.
pub open spec fn lists_all_triples(hand: Seq<Card>, all: Seq<Vec<(usize, &Card)>>) -> bool {
    &&& forall|t: int| 0 <= t < all.len() ==> is_triple_of(hand, (#[trigger] all[t])@)
    &&& forall|s: int, t: int|
        0 <= s < t < all.len() ==> positions((#[trigger] all[s])@).before(
            positions((#[trigger] all[t])@),
        )
    &&& forall|index: Index|
        index.ascending() && #[trigger] index.within(hand.len() as int) ==> is_among(
            all,
            all.len() as int,
            index,
        )
}

/// Of the first `upto` triples of `all`, `found` lists the positions of those
/// that are sets of `hand`, in the order of `all`.
pub open spec fn lists_sets_among(
    hand: Seq<Card>,
    all: Seq<Vec<(usize, &Card)>>,
    upto: int,
    found: Seq<Index>,
) -> bool {
    &&& forall|u: int|
        0 <= u < found.len() ==> {
            &&& (#[trigger] found[u]).ascending()
            &&& is_set_in(hand, found[u])
            &&& is_among(all, upto, found[u])
        }
    &&& forall|u: int, v: int|
        0 <= u < v < found.len() ==> (#[trigger] found[u]).before(#[trigger] found[v])
    &&& forall|v: int|
        0 <= v < upto && is_set_in(hand, positions((#[trigger] all[v])@)) ==> found.contains(
            positions(all[v]@),
        )
}

/// `Itertools::combinations` of the crate itertools, on the cards of `hand`
/// numbered by `Iterator::enumerate`, all of it collected.
///
/// The contract is stated for combinations of three, which is all that is
/// asked for here. It says what the adaptor then yields for a slice: each
/// choice of three positions of `hand` once, with the cards at them, the
/// positions of one choice ascending, and the choices in dictionary order of
/// their positions.
#[verifier::external_body]
fn combinations<'a>(hand: &'a [Card], k: usize) -> (all: Vec<Vec<(usize, &'a Card)>>)
    requires
        k == 3,
    ensures
        lists_all_triples(hand@, all@),
{
    hand.iter().enumerate().combinations(k).collect()
}

/// The positions and the cards of one combination of three.
fn split<'a>(combination: &Vec<(usize, &'a Card)>) -> (parts: (Vec<usize>, Vec<&'a Card>))
    ensures
        parts.0@.len() == combination@.len(),
        parts.1@.len() == combination@.len(),
        forall|k: int|
            0 <= k < combination@.len() ==> parts.0@[k] == (#[trigger] combination@[k]).0,
        forall|k: int|
            0 <= k < combination@.len() ==> *parts.1@[k] == *(#[trigger] combination@[k]).1,
{
    let mut places: Vec<usize> = Vec::new();
    let mut cards: Vec<&Card> = Vec::new();
    let mut k: usize = 0;
    while k < combination.len()
        invariant
            0 <= k <= combination@.len(),
            places@.len() == k,
            cards@.len() == k,
            forall|m: int| 0 <= m < k ==> places@[m] == (#[trigger] combination@[m]).0,
            forall|m: int| 0 <= m < k ==> *cards@[m] == *(#[trigger] combination@[m]).1,
        decreases combination@.len() - k,
    {
        places.push(combination[k].0);
        cards.push(combination[k].1);
        k += 1;
    }
    (places, cards)
}

/// A list of the sets among the first triples stays one when the next triple
/// is looked at: its positions are added if it is a set, and else nothing.
proof fn lemma_next_triple(
    hand: Seq<Card>,
    all: Seq<Vec<(usize, &Card)>>,
    upto: int,
    found: Seq<Index>,
)
    requires
        lists_all_triples(hand, all),
        0 <= upto < all.len(),
        lists_sets_among(hand, all, upto, found),
    ensures
        ({
            let next = positions(all[upto]@);
            if is_set_in(hand, next) {
                lists_sets_among(hand, all, upto + 1, found.push(next))
            } else {
                lists_sets_among(hand, all, upto + 1, found)
            }
        }),
{
    let next = positions(all[upto]@);
    if is_set_in(hand, next) {
        let longer = found.push(next);
        assert forall|v: int|
            0 <= v < upto + 1 && is_set_in(
                hand,
                positions((#[trigger] all[v])@),
            ) implies longer.contains(positions(all[v]@)) by {
            if v < upto {
                let u = choose|u: int| 0 <= u < found.len() && found[u] == positions(all[v]@);
                assert(longer[u] == positions(all[v]@));
            } else {
                assert(longer[found.len() as int] == next);
            }
        }
    }
}

pub struct Oracle;

impl SetFinder for Oracle {
    /// The oracle names the first set of the hand, and none only where the
    /// hand has none.
    open spec fn may_answer(&self, hand: Seq<Card>, answer: Option<Index>) -> bool {
        match answer {
            Some(index) => is_first_set(hand, index),
            None => !has_set(hand),
        }
    }

    fn find(&self, hand: &[Card]) -> (answer: Option<Index>) {
        let all = self.find_all(hand);
        proof {
            lemma_head_of_all_sets(hand@, all@);
        }
        if all.len() > 0 {
            Some(all[0])
        } else {
            None
        }
    }
}

impl Oracle {
    /// Every set of `hand`, by its positions in ascending order, in
    /// dictionary order.
    pub fn find_all(&self, hand: &[Card]) -> (found: Vec<Index>)
        ensures
            lists_all_sets(hand@, found@),
    {
        let all = combinations(hand, 3);
        let mut found: Vec<Index> = Vec::new();
        let mut t: usize = 0;
        while t < all.len()
            invariant
                0 <= t <= all@.len(),
                lists_all_triples(hand@, all@),
                lists_sets_among(hand@, all@, t as int, found@),
            decreases all@.len() - t,
        {
            let combination = &all[t];
            let (places, cards) = split(combination);
            let index = Index::from_vec(places).unwrap();
            let set = CardSet::from_vec(cards).unwrap();
            proof {
                lemma_next_triple(hand@, all@, t as int, found@);
            }
            if set.is_valid() {
                found.push(index);
            }
            t += 1;
        }
        found
    }
}

/// Every answer of the oracle is right: it names a set of the hand, and gives
/// none only for a hand without one.
pub proof fn lemma_oracle_is_sound()
    ensures
        is_sound(Oracle),
{
}

} // verus!
