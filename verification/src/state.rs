//! What a game is at one moment, and how an answer changes it.

use crate::card::Card;
use crate::card_set::CardSet;
use crate::deck::{is_full_deck, lemma_full_deck_in_any_order};
use crate::hand::{has_set, is_set_in, picked};
use crate::index::Index;
use vstd::prelude::*;

verus! {

/// What a game is at one moment.
pub struct GameState {
    /// The cards that are in no set yet. Those of the hand come first.
    pub deck: Seq<Card>,
    /// The number of cards that lie open.
    pub hand: nat,
    /// The sets found, the first one first.
    pub sets: Seq<CardSet>,
}

impl GameState {
    /// The cards left and after them those of the sets found.
    pub open spec fn all_cards(self) -> Seq<Card> {
        self.deck + cards_of(self.sets)
    }

    /// What holds of every game. The cards in the sets and those left are the
    /// 81 of the deck, each once; the hand is part of the cards left and grows
    /// and shrinks by three; what was accepted as a set is one.
    pub open spec fn wf(self) -> bool {
        &&& self.sets.len() * 3 + self.deck.len() == 81
        &&& is_full_deck(self.all_cards())
        &&& self.hand <= self.deck.len()
        &&& self.hand % 3 == 0
        &&& forall|i: int| 0 <= i < self.sets.len() ==> (#[trigger] self.sets[i]).valid()
    }

    /// A game before its first move: all cards, twelve of them open.
    pub open spec fn fresh(self) -> bool {
        &&& is_full_deck(self.deck)
        &&& self.hand == 12
        &&& self.sets.len() == 0
    }

    /// The cards that lie open.
    pub open spec fn shown(self) -> Seq<Card> {
        self.deck.take(self.hand as int)
    }

    /// `index` names a set of the hand.
    pub open spec fn accepts(self, index: Index) -> bool {
        is_set_in(self.shown(), index)
    }

    /// The hand as it is after a set was taken from it. A hand that had been
    /// enlarged shrinks by three, any other is filled up from the cards left;
    /// once fewer than twelve cards are left, all of them lie open.
    pub open spec fn hand_after_set(self) -> nat {
        if self.deck.len() - 3 < 12 {
            (self.deck.len() - 3) as nat
        } else if self.hand > 12 {
            (self.hand - 3) as nat
        } else {
            self.hand
        }
    }

    /// The game after the set at `index` was taken: the three cards have left
    /// the deck, the others keep their order, and the set is the last one found.
    pub open spec fn with_set(self, index: Index) -> GameState {
        let at = index.sorted();
        GameState {
            deck: self.deck.remove(at.2 as int).remove(at.1 as int).remove(at.0 as int),
            hand: self.hand_after_set(),
            sets: self.sets.push(picked(self.shown(), index)),
        }
    }

    /// Three more cards can be laid open: the game has begun, and three of
    /// the cards left are not open yet.
    pub open spec fn can_draw(self) -> bool {
        &&& 3 <= self.deck.len() < 81
        &&& self.hand + 3 <= self.deck.len()
    }

    /// The game after three more cards were laid open.
    pub open spec fn with_draw(self) -> GameState {
        GameState { deck: self.deck, hand: self.hand + 3, sets: self.sets }
    }

    /// The game can go on: the hand has a set, or cards are left to lay open.
    pub open spec fn playable(self) -> bool {
        has_set(self.shown()) || self.deck.len() > self.hand
    }

    /// The game takes `answer`: a set of the hand, or `None` where three more
    /// cards can be laid open.
    pub open spec fn takes(self, answer: Option<Index>) -> bool {
        match answer {
            Some(index) => self.accepts(index),
            None => self.can_draw(),
        }
    }

    /// The game after `answer`, which changes it only where the game takes it.
    pub open spec fn after(self, answer: Option<Index>) -> GameState {
        match answer {
            Some(index) => if self.accepts(index) {
                self.with_set(index)
            } else {
                self
            },
            None => if self.can_draw() {
                self.with_draw()
            } else {
                self
            },
        }
    }

    /// The game after the answers of `answers`, one after the other.
    pub open spec fn after_all(self, answers: Seq<Option<Index>>) -> GameState
        decreases answers.len(),
    {
        if answers.len() == 0 {
            self
        } else {
            self.after_all(answers.drop_last()).after(answers.last())
        }
    }

    /// The text of the hand: three rows, a third of the hand in each.
    pub open spec fn text(self) -> Seq<char> {
        let hand = self.shown();
        let width = self.hand as int / 3;
        row_text(hand.subrange(0, width)) + row_text(hand.subrange(width, 2 * width)) + row_text(
            hand.subrange(2 * width, 3 * width),
        )
    }
}

/// The cards of `sets`, set by set.
pub open spec fn cards_of(sets: Seq<CardSet>) -> Seq<Card>
    decreases sets.len(),
{
    if sets.len() == 0 {
        Seq::empty()
    } else {
        cards_of(sets.drop_last()) + seq![sets.last().0, sets.last().1, sets.last().2]
    }
}

/// Taking three cards out of a deck and putting them, in any order, after
/// the others keeps every card as often as it was there.
proof fn lemma_moving_three_cards(deck: Seq<Card>, rest: Seq<Card>, at: Index, index: Index)
    requires
        at.0 < at.1 < at.2 < deck.len(),
        at.names_the_same(index),
    ensures
        (deck.remove(at.2 as int).remove(at.1 as int).remove(at.0 as int) + (rest + seq![
            deck[index.0 as int],
            deck[index.1 as int],
            deck[index.2 as int],
        ])).to_multiset() == (deck + rest).to_multiset(),
{
    broadcast use vstd::multiset::group_multiset_axioms;

    let a = at.0 as int;
    let b = at.1 as int;
    let c = at.2 as int;
    let d1 = deck.remove(c);
    let d2 = d1.remove(b);
    let d3 = d2.remove(a);
    let moved = seq![deck[index.0 as int], deck[index.1 as int], deck[index.2 as int]];
    vstd::seq_lib::to_multiset_remove(deck, c);
    vstd::seq_lib::to_multiset_remove(d1, b);
    vstd::seq_lib::to_multiset_remove(d2, a);
    vstd::seq_lib::to_multiset_contains(deck, deck[c]);
    vstd::seq_lib::to_multiset_contains(d1, d1[b]);
    vstd::seq_lib::to_multiset_contains(d2, d2[a]);
    let none = Seq::<Card>::empty();
    assert(moved == none.push(moved[0]).push(moved[1]).push(moved[2]));
    vstd::seq_lib::to_multiset_build(none, moved[0]);
    vstd::seq_lib::to_multiset_build(none.push(moved[0]), moved[1]);
    vstd::seq_lib::to_multiset_build(none.push(moved[0]).push(moved[1]), moved[2]);
    vstd::seq_lib::to_multiset_len(none);
    vstd::seq_lib::lemma_multiset_commutative(d3, rest + moved);
    vstd::seq_lib::lemma_multiset_commutative(rest, moved);
    vstd::seq_lib::lemma_multiset_commutative(deck, rest);
}

/// Taking a set of the hand out of a game leaves a game: three cards fewer,
/// one set more, and a hand that is part of the cards left.
pub proof fn lemma_with_set_is_wf(state: GameState, index: Index)
    requires
        state.wf(),
        state.accepts(index),
    ensures
        state.with_set(index).wf(),
        state.with_set(index).deck.len() == state.deck.len() - 3,
        state.with_set(index).sets.len() == state.sets.len() + 1,
{
    let after = state.with_set(index);
    assert(is_full_deck(after.all_cards())) by {
        assert(after.sets.drop_last() == state.sets);
        lemma_moving_three_cards(state.deck, cards_of(state.sets), index.sorted(), index);
    }
}

/// Where the card at position `i` of a deck stood before the cards at the
/// ascending positions `at` were taken out of it.
pub open spec fn place_before(at: Index, i: int) -> int {
    if i < at.0 {
        i
    } else if i + 1 < at.1 {
        i + 1
    } else if i + 2 < at.2 {
        i + 2
    } else {
        i + 3
    }
}

/// Taking a set out of a game leaves the other cards of the deck in their
/// order: each moves down by the number of cards taken from before it.
pub proof fn lemma_deck_after_set(state: GameState, index: Index)
    requires
        index.valid(state.deck.len() as int),
    ensures
        state.with_set(index).deck.len() == state.deck.len() - 3,
        forall|i: int|
            0 <= i < state.deck.len() - 3 ==> #[trigger] state.with_set(index).deck[i]
                == state.deck[place_before(index.sorted(), i)],
{
}

/// No card is in a game twice: not in the deck, not in the sets, and not in
/// both. And none is missing.
pub proof fn lemma_game_has_each_card_once(state: GameState)
    requires
        state.wf(),
    ensures
        state.all_cards().len() == 81,
        state.all_cards().no_duplicates(),
        state.deck.no_duplicates(),
        forall|card: Card| state.deck.contains(card) || cards_of(state.sets).contains(card),
        forall|card: Card| !(state.deck.contains(card) && cards_of(state.sets).contains(card)),
{
    let all = state.all_cards();
    lemma_full_deck_in_any_order(all);
    assert forall|card: Card| state.deck.contains(card) || cards_of(state.sets).contains(
        card,
    ) by {
        assert(all.contains(card));
    }
    assert forall|card: Card|
        !(state.deck.contains(card) && cards_of(state.sets).contains(card)) by {
        if state.deck.contains(card) && cards_of(state.sets).contains(card) {
            let i = choose|i: int| 0 <= i < state.deck.len() && state.deck[i] == card;
            let j = choose|j: int|
                0 <= j < cards_of(state.sets).len() && cards_of(state.sets)[j] == card;
            assert(all[i] == card);
            assert(all[state.deck.len() + j] == card);
        }
    }
    assert forall|i: int, j: int|
        0 <= i < state.deck.len() && 0 <= j < state.deck.len() && i != j implies state.deck[i]
        != state.deck[j] by {
        assert(all[i] == state.deck[i]);
        assert(all[j] == state.deck[j]);
    }
}

/// An answer that the game takes leaves a game that has begun and is nearer
/// to its end: three cards have left the deck, or three more of it lie open.
pub proof fn lemma_taken_answer_moves_on(state: GameState, answer: Option<Index>)
    requires
        state.wf(),
        state.takes(answer),
    ensures
        state.after(answer).wf(),
        state.after(answer).deck.len() < 81,
        answer is Some ==> state.after(answer).deck.len() == state.deck.len() - 3,
        answer is None ==> state.after(answer).deck == state.deck && state.after(answer).hand
            == state.hand + 3,
{
    if let Some(index) = answer {
        lemma_with_set_is_wf(state, index);
    }
}

/// Whatever answers a game is given, it stays a game: after every answer,
/// taken or not, three times the number of sets and the number of cards left
/// make 81.
pub proof fn lemma_answers_keep_wf(state: GameState, answers: Seq<Option<Index>>)
    requires
        state.wf(),
    ensures
        state.after_all(answers).wf(),
        state.after_all(answers).sets.len() * 3 + state.after_all(answers).deck.len() == 81,
    decreases answers.len(),
{
    if answers.len() > 0 {
        lemma_answers_keep_wf(state, answers.drop_last());
        let then = state.after_all(answers.drop_last());
        if then.takes(answers.last()) {
            lemma_taken_answer_moves_on(then, answers.last());
        }
    }
}

/// The text of one row: after each card a blank, and a line break at the end.
pub open spec fn row_text(row: Seq<Card>) -> Seq<char> {
    cards_text(row) + "\n"@
}

/// The texts of `cards`, a blank after each.
pub open spec fn cards_text(cards: Seq<Card>) -> Seq<char>
    decreases cards.len(),
{
    if cards.len() == 0 {
        Seq::empty()
    } else {
        cards_text(cards.drop_last()) + cards.last().text() + " "@
    }
}

} // verus!
