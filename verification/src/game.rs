//! The game itself: the cards not yet taken, how many of them lie open, and
//! the sets found so far.

pub use crate::card::{Card, Color, Feature, Number, Shading, Shape};
pub use crate::card_set::{different, same, CardSet};
pub use crate::index::Index;

use crate::deck::{full_deck, lemma_full_deck_in_any_order, ordered_deck, DECK_SIZE};
use crate::engine::SetFinder;
use crate::hand::picked;
use crate::oracle::Oracle;
use crate::state::{cards_text, lemma_with_set_is_wf, row_text, GameState};
use vstd::prelude::*;
use vstd::slice::slice_subrange;

verus! {

/// The number of cards that lie open when a game begins, and to which the
/// hand returns after it was enlarged.
pub const HAND_SIZE: usize = 12;

/// The core state of a game of Set.
#[derive(Debug)]
pub struct Game {
    /// The cards left in the deck and the hand.
    deck: Vec<Card>,
    /// The number of cards in the current hand.
    hand: usize,
    /// The sets found so far.
    sets: Vec<CardSet>,
}

impl View for Game {
    type V = GameState;

    closed spec fn view(&self) -> GameState {
        GameState { deck: self.deck@, hand: self.hand as nat, sets: self.sets@ }
    }
}

impl Game {
    /// A new game with all 81 cards, shuffled if asked for.
    pub fn new(shuffle: bool) -> (game: Game)
        ensures
            game@.wf(),
            game@.fresh(),
            !shuffle ==> game@.deck == full_deck(),
            game@.deck.len() == 81,
            game@.deck.no_duplicates(),
            forall|card: Card| game@.deck.contains(card),
    {
        let mut deck = ordered_deck();
        if shuffle {
            let mut rng = rand::thread_rng();
            crate::deck::shuffle(&mut deck, &mut rng);
        }
        proof {
            lemma_full_deck_in_any_order(deck@);
        }
        Game { deck, hand: HAND_SIZE, sets: Vec::new() }
    }

    /// The game is not playable when there is no set on the board and there
    /// are no more cards in the deck. Otherwise, it is playable.
    pub fn playable(&self) -> (playable: bool)
        requires
            self@.wf(),
        ensures
            playable == self@.playable(),
    {
        let oracle = Oracle;
        let has_set = oracle.find(self.hand()).is_some();
        let has_cards = self.deck.len() > self.hand;
        has_set || has_cards
    }

    /// The sets found so far.
    pub fn sets(&self) -> (sets: &[CardSet])
        ensures
            sets@ == self@.sets,
    {
        self.sets.as_slice()
    }

    /// The cards that are in no set yet, those of the hand first.
    pub fn deck(&self) -> (deck: &[Card])
        ensures
            deck@ == self@.deck,
    {
        self.deck.as_slice()
    }

    /// The three cards of the hand at `index`, if `index` names three.
    pub fn index_to_set(&self, index: &Index) -> (set: Option<CardSet>)
        requires
            self@.wf(),
        ensures
            set is Some <==> index.valid(self@.hand as int),
            set is Some ==> set == Some(picked(self@.shown(), *index)),
    {
        if !index.is_valid(self.hand) {
            return None;
        }
        Some(CardSet(self.deck[index.0], self.deck[index.1], self.deck[index.2]))
    }

    /// The current hand.
    pub fn hand(&self) -> (hand: &[Card])
        requires
            self@.wf(),
        ensures
            hand@ == self@.shown(),
    {
        slice_subrange(self.deck.as_slice(), 0, self.hand)
    }

    /// The hand in three rows of a third of its cards each. Each card is
    /// followed by a blank, each row by a line break.
    pub fn to_string(&self) -> (text: String)
        requires
            self@.wf(),
        ensures
            text@ == self@.text(),
    {
        let hand = self.hand();
        let width = self.hand / 3;
        let mut text = String::new();
        append_row(&mut text, slice_subrange(hand, 0, width));
        append_row(&mut text, slice_subrange(hand, width, 2 * width));
        append_row(&mut text, slice_subrange(hand, 2 * width, 3 * width));
        text
    }

    /// Takes the three cards at `cards` out of the game if they are a set of
    /// the hand, and says whether it did. Otherwise nothing changes.
    pub fn add_set(&mut self, cards: Index) -> (added: bool)
        requires
            old(self)@.wf(),
        ensures
            final(self)@.wf(),
            added == old(self)@.accepts(cards),
            added ==> final(self)@ == old(self)@.with_set(cards),
            !added ==> final(self)@ == old(self)@,
            !cards.distinct() ==> !added,
            !cards.within(old(self)@.hand as int) ==> !added,
            added ==> final(self)@.deck.len() == old(self)@.deck.len() - 3,
    {
        let mut cards = cards;
        let ghost before = self@;
        let ghost asked = cards;
        match self.index_to_set(&cards) {
            None => false,
            Some(set) => {
                if !set.is_valid() {
                    return false;
                }
                proof {
                    lemma_with_set_is_wf(before, asked);
                }
                self.sets.push(set);
                cards.sort();
                self.deck.remove(cards.2);
                self.deck.remove(cards.1);
                self.deck.remove(cards.0);
                if self.hand > HAND_SIZE {
                    self.hand -= 3;
                }
                if self.deck.len() < HAND_SIZE {
                    self.hand = self.deck.len();
                }
                true
            },
        }
    }

    /// Gives the game the answer of a finder: the set is taken, or for `None`
    /// three more cards are laid open. Says whether the game took the answer;
    /// if not, nothing changes.
    pub fn play(&mut self, answer: Option<Index>) -> (taken: bool)
        requires
            old(self)@.wf(),
        ensures
            final(self)@.wf(),
            taken == old(self)@.takes(answer),
            final(self)@ == old(self)@.after(answer),
    {
        match answer {
            Some(index) => self.add_set(index),
            None => self.draw_three(),
        }
    }

    /// Lays three more cards open if that can be done, and says whether it
    /// did. Otherwise nothing changes. It can be done once the first set was
    /// taken, for as long as three of the cards left are not open yet.
    pub fn draw_three(&mut self) -> (drawn: bool)
        requires
            old(self)@.wf(),
        ensures
            final(self)@.wf(),
            drawn == old(self)@.can_draw(),
            drawn ==> final(self)@ == old(self)@.with_draw(),
            !drawn ==> final(self)@ == old(self)@,
            old(self)@.deck.len() < 3 ==> !drawn,
    {
        if self.deck.len() >= 3 && self.deck.len() < DECK_SIZE && self.deck.len() - self.hand >= 3 {
            self.hand += 3;
            true
        } else {
            false
        }
    }
}

/// Appends to `text` the text of a row of `cards`.
fn append_row(text: &mut String, cards: &[Card])
    ensures
        final(text)@ == old(text)@ + row_text(cards@),
{
    let ghost before = text@;
    let mut c: usize = 0;
    while c < cards.len()
        invariant
            0 <= c <= cards@.len(),
            text@ == before + cards_text(cards@.take(c as int)),
        decreases cards@.len() - c,
    {
        text.append(cards[c].to_string().as_str());
        text.append(" ");
        c += 1;
        proof {
            let seen = cards@.take(c as int);
            assert(seen.drop_last() == cards@.take(c - 1));
        }
    }
    text.append("\n");
    assert(cards@.take(c as int) == cards@);
}

} // verus!
