//! Finders of sets, and the play of a game with one of them.

use crate::card::Card;
use crate::card_set::CardSet;
use crate::game::Game;
use crate::hand::{has_set, is_set_in};
use crate::index::Index;
use crate::state::GameState;
use vstd::prelude::*;

verus! {

/// A way to look for a set in a hand.
///
/// A finder should answer with a set of the hand whenever the hand has one,
/// and it may choose among several. Nothing forces it to: `may_answer` says
/// which answers an implementation gives, and `is_sound` whether those are
/// always right.
pub trait SetFinder {
    /// `answer` is among the answers that this finder gives for `hand`. A
    /// finder that does not say otherwise may give any answer.
    open spec fn may_answer(&self, hand: Seq<Card>, answer: Option<Index>) -> bool {
        true
    }

    /// Three positions of `hand`, or `None` for a hand in which the finder
    /// sees no set.
    fn find(&self, hand: &[Card]) -> (answer: Option<Index>)
        ensures
            self.may_answer(hand@, answer),
    ;
}

/// `answer` is right for `hand`: it names a set of the hand, or the hand has
/// none.
pub open spec fn is_right(hand: Seq<Card>, answer: Option<Index>) -> bool {
    match answer {
        Some(index) => is_set_in(hand, index),
        None => !has_set(hand),
    }
}

/// Every answer that `finder` gives is right.
pub open spec fn is_sound<F: SetFinder>(finder: F) -> bool {
    forall|hand: Seq<Card>, answer: Option<Index>| #[trigger]
        finder.may_answer(hand, answer) ==> is_right(hand, answer)
}

/// `finder` never names a set.
pub open spec fn is_silent<F: SetFinder>(finder: F) -> bool {
    forall|hand: Seq<Card>, answer: Option<Index>| #[trigger]
        finder.may_answer(hand, answer) ==> answer is None
}

/// `finder` gives for the hand of `game` an answer that the game does not
/// take.
pub open spec fn is_rejected<F: SetFinder>(finder: F, game: GameState) -> bool {
    exists|answer: Option<Index>|
        finder.may_answer(game.shown(), answer) && !#[trigger] game.takes(answer)
}

/// The game has begun, or its hand has a set. A game is in this state from
/// its first move on. Before that, no card can be laid open: a sound finder
/// that sees no set in the first hand has its `None` turned down.
pub open spec fn starts_well(game: GameState) -> bool {
    game.deck.len() < 81 || has_set(game.shown())
}

/// The game has not begun, and it can go on.
pub open spec fn starts_playable(game: GameState) -> bool {
    game.deck.len() == 81 && game.playable()
}

/// `answers` is a play of `game` by `finder`: each answer is one that the
/// finder gives for the hand as it was then, and the game could go on and
/// took the answer.
pub open spec fn is_play<F: SetFinder>(
    finder: F,
    game: GameState,
    answers: Seq<Option<Index>>,
) -> bool {
    forall|k: int|
        0 <= k < answers.len() ==> {
            let then = #[trigger] game.after_all(answers.take(k));
            &&& then.playable()
            &&& finder.may_answer(then.shown(), answers[k])
            &&& then.takes(answers[k])
        }
}

/// `finder` can play `game` until it is `end`.
pub open spec fn leads_to<F: SetFinder>(finder: F, game: GameState, end: GameState) -> bool {
    exists|answers: Seq<Option<Index>>| #[trigger]
        is_play(finder, game, answers) && end == game.after_all(answers)
}

/// A play goes on with any answer that the finder gives for the hand
/// reached, if the game can go on and takes the answer.
pub proof fn lemma_play_goes_on<F: SetFinder>(
    finder: F,
    game: GameState,
    answers: Seq<Option<Index>>,
    answer: Option<Index>,
)
    requires
        is_play(finder, game, answers),
        game.after_all(answers).playable(),
        finder.may_answer(game.after_all(answers).shown(), answer),
        game.after_all(answers).takes(answer),
    ensures
        is_play(finder, game, answers.push(answer)),
        game.after_all(answers.push(answer)) == game.after_all(answers).after(answer),
{
    let longer = answers.push(answer);
    assert(longer.drop_last() == answers);
    assert forall|k: int| 0 <= k < longer.len() implies {
        let then = #[trigger] game.after_all(longer.take(k));
        &&& then.playable()
        &&& finder.may_answer(then.shown(), longer[k])
        &&& then.takes(longer[k])
    } by {
        if k < answers.len() {
            assert(longer.take(k) == answers.take(k));
        }
    }
}

/// A game that has begun or shows a set takes every answer of a sound
/// finder for as long as it can go on, and after the answer it has begun.
pub proof fn lemma_sound_finder_is_never_rejected<F: SetFinder>(finder: F, game: GameState)
    requires
        is_sound(finder),
        game.wf(),
        game.playable(),
        starts_well(game),
    ensures
        !is_rejected(finder, game),
        forall|answer: Option<Index>|
            finder.may_answer(game.shown(), answer) ==> starts_well(#[trigger] game.after(answer)),
{
}

/// A game that has not begun takes no answer of a finder that never names a
/// set.
pub proof fn lemma_silent_finder_is_rejected_at_once<F: SetFinder>(finder: F, game: GameState)
    requires
        is_silent(finder),
        game.deck.len() == 81,
    ensures
        forall|answer: Option<Index>|
            finder.may_answer(game.shown(), answer) ==> !#[trigger] game.takes(answer),
{
}

/// A game and the finder that plays it.
pub struct Solver<F: SetFinder> {
    pub game: Game,
    pub finder: F,
}

impl<F: SetFinder> Solver<F> {
    /// A shuffled game for `finder` to play.
    pub fn new(finder: F) -> (solver: Solver<F>)
        ensures
            solver.finder == finder,
            solver.game@.wf(),
            solver.game@.fresh(),
    {
        Solver { game: Game::new(true), finder }
    }

    /// Plays the game to its end: as long as the game can go on, the finder
    /// is shown the hand and the game is given its answer. The play ends with
    /// `None` as soon as the game does not take an answer, and else with the
    /// sets found when the game cannot go on.
    ///
    /// A sound finder is never turned down by a game that has begun or shows
    /// a set. A game that has not begun lays no card open: there, a finder
    /// that names no set ends the play at once.
    pub fn run(&mut self) -> (sets: Option<&[CardSet]>)
        requires
            old(self).game@.wf(),
        ensures
            final(self).finder == old(self).finder,
            final(self).game@.wf(),
            leads_to(old(self).finder, old(self).game@, final(self).game@),
            sets is Some <==> !final(self).game@.playable(),
            sets matches Some(found) ==> found@ == final(self).game@.sets,
            sets matches Some(found) ==> forall|i: int|
                0 <= i < found@.len() ==> (#[trigger] found@[i]).valid(),
            sets is None ==> is_rejected(old(self).finder, final(self).game@),
            !old(self).game@.playable() ==> final(self).game@ == old(self).game@,
            is_sound(old(self).finder) && starts_well(old(self).game@) ==> sets is Some,
            is_silent(old(self).finder) && starts_playable(old(self).game@) ==> sets is None,
    {
        let ghost mut answers: Seq<Option<Index>> = Seq::empty();
        while self.game.playable()
            invariant
                is_play(self.finder, old(self).game@, answers),
                self.game@ == old(self).game@.after_all(answers),
                self.finder == old(self).finder,
                self.game@.wf(),
                self.game@ == old(self).game@ || self.game@.deck.len() < 81,
                !old(self).game@.playable() ==> self.game@ == old(self).game@,
                is_silent(self.finder) && starts_playable(old(self).game@) ==> self.game@ == old(
                    self,
                ).game@,
            decreases self.game@.deck.len(), self.game@.deck.len() - self.game@.hand,
        {
            let answer = self.finder.find(self.game.hand());
            let ghost asked = self.game@;
            if !self.game.play(answer) {
                return None;
            }
            proof {
                lemma_play_goes_on(self.finder, old(self).game@, answers, answer);
                answers = answers.push(answer);
            }
        }
        Some(self.game.sets())
    }
}

} // verus!
