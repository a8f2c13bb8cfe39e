//! The deck: one card for every choice of color, shape, shading and number.

use crate::card::{lemma_card_code, lemma_codes_are_one_to_one, Card};
use rand::seq::SliceRandom;
use vstd::prelude::*;

verus! {

/// The number of cards in the deck.
pub const DECK_SIZE: usize = 81;

/// The card at position `i` of the unshuffled deck: the digits of `i` in
/// base three are the codes of its color, shape, shading and number.
pub open spec fn card_at(i: int) -> Card {
    Card::of((i / 27, i / 9 % 3, i / 3 % 3, i % 3))
}

/// The unshuffled deck. The number changes fastest and the color slowest.
pub open spec fn full_deck() -> Seq<Card> {
    Seq::new(DECK_SIZE as nat, |i: int| card_at(i))
}

/// `deck` holds every card once, in some order.
pub open spec fn is_full_deck(deck: Seq<Card>) -> bool {
    deck.to_multiset() == full_deck().to_multiset()
}

/// The unshuffled deck holds every card, at the position that is the card's
/// code, and none twice.
pub proof fn lemma_full_deck_has_each_card_once()
    ensures
        full_deck().len() == 81,
        forall|card: Card| 0 <= #[trigger] card.code() < 81 && full_deck()[card.code()] == card,
        forall|i: int| 0 <= i < 81 ==> (#[trigger] full_deck()[i]).code() == i,
        full_deck().no_duplicates(),
{
    assert forall|card: Card| 0 <= #[trigger] card.code() < 81 && full_deck()[card.code()]
        == card by {
        lemma_card_code(card);
    }
    assert forall|i: int| 0 <= i < 81 implies (#[trigger] full_deck()[i]).code() == i by {
        lemma_codes_are_one_to_one();
    }
}

/// A deck that holds every card once has 81 cards, no card twice, and each
/// card somewhere.
pub proof fn lemma_full_deck_in_any_order(deck: Seq<Card>)
    requires
        is_full_deck(deck),
    ensures
        deck.len() == 81,
        deck.no_duplicates(),
        forall|card: Card| deck.contains(card),
        forall|card: Card| deck.to_multiset().count(card) == 1,
{
    broadcast use vstd::seq_lib::group_to_multiset_ensures;

    lemma_full_deck_has_each_card_once();
    vstd::seq_lib::to_multiset_len(deck);
    vstd::seq_lib::to_multiset_len(full_deck());
    full_deck().lemma_multiset_has_no_duplicates();
    assert forall|card: Card| deck.to_multiset().count(card) == 1 by {
        assert(full_deck()[card.code()] == card);
    }
    deck.lemma_multiset_has_no_duplicates_conv();
    assert forall|card: Card| deck.contains(card) by {
        assert(deck.to_multiset().count(card) == 1);
    }
}

/// The deck in its first order: every color in turn, within a color every
/// shape, within a shape every shading, within a shading every number.
pub fn ordered_deck() -> (deck: Vec<Card>)
    ensures
        deck@ == full_deck(),
{
    let mut deck: Vec<Card> = Vec::new();
    let mut color: i32 = 0;
    while color < 3
        invariant
            0 <= color <= 3,
            deck@.len() == 27 * color,
            forall|i: int| 0 <= i < deck@.len() ==> deck@[i] == card_at(i),
        decreases 3 - color,
    {
        let mut shape: i32 = 0;
        while shape < 3
            invariant
                0 <= color < 3,
                0 <= shape <= 3,
                deck@.len() == 27 * color + 9 * shape,
                forall|i: int| 0 <= i < deck@.len() ==> deck@[i] == card_at(i),
            decreases 3 - shape,
        {
            let mut shading: i32 = 0;
            while shading < 3
                invariant
                    0 <= color < 3,
                    0 <= shape < 3,
                    0 <= shading <= 3,
                    deck@.len() == 27 * color + 9 * shape + 3 * shading,
                    forall|i: int| 0 <= i < deck@.len() ==> deck@[i] == card_at(i),
                decreases 3 - shading,
            {
                let mut number: i32 = 0;
                while number < 3
                    invariant
                        0 <= color < 3,
                        0 <= shape < 3,
                        0 <= shading < 3,
                        0 <= number <= 3,
                        deck@.len() == 27 * color + 9 * shape + 3 * shading + number,
                        forall|i: int| 0 <= i < deck@.len() ==> deck@[i] == card_at(i),
                    decreases 3 - number,
                {
                    deck.push(Card::from((color, shape, shading, number)));
                    number += 1;
                }
                shading += 1;
            }
            shape += 1;
        }
        color += 1;
    }
    assert(deck@ =~= full_deck());
    deck
}

/// `rand::rngs::ThreadRng`, the generator that `rand::thread_rng` gives. It is
/// handed on to `shuffle` and nothing is said of what it holds.
#[verifier::external_type_specification]
#[verifier::external_body]
pub struct ExThreadRng(rand::rngs::ThreadRng);

/// `rand::thread_rng`: the generator of the current thread, which the system
/// seeds. Nothing is promised of it.
pub assume_specification[ rand::thread_rng ]() -> (rng: rand::rngs::ThreadRng);

/// `SliceRandom::shuffle` of the crate rand: it exchanges cards of `deck` in
/// place, so that afterwards `deck` holds the cards it held before, each as
/// often as before. In which order is left open, and so is what becomes of
/// the generator.
#[verifier::external_body]
pub(crate) fn shuffle(deck: &mut Vec<Card>, rng: &mut rand::rngs::ThreadRng)
    ensures
        final(deck)@.to_multiset() == old(deck)@.to_multiset(),
{
    deck.shuffle(rng);
}

} // verus!
