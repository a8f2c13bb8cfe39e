use setrs::card::Card;
use setrs::card_set::CardSet;
use setrs::engine::{SetFinder, Solver};
use setrs::game::Game;
use setrs::index::Index;
use setrs::oracle::Oracle;
use setrs::solvers::simple::SimpleSolver;

/// Names the last set that the oracle lists.
struct LastSet;

impl SetFinder for LastSet {
    fn find(&self, hand: &[Card]) -> Option<Index> {
        Oracle.find_all(hand).pop()
    }
}

/// Names the same three positions whatever the hand.
struct Stubborn(usize, usize, usize);

impl SetFinder for Stubborn {
    fn find(&self, _hand: &[Card]) -> Option<Index> {
        Some(Index(self.0, self.1, self.2))
    }
}

/// Names the first set once and then sees none.
struct Tired(std::cell::Cell<bool>);

impl SetFinder for Tired {
    fn find(&self, hand: &[Card]) -> Option<Index> {
        if self.0.replace(true) {
            None
        } else {
            Oracle.find(hand)
        }
    }
}

#[test]
fn test_oracle_engine() {
    let mut solver = Solver::new(Oracle);
    // before the first set no card can be drawn: a first hand without a set ends the run
    let first_hand_has_set = Oracle.find(solver.game.hand()).is_some();
    match solver.run() {
        Some(sets) => sets.into_iter().for_each(|set| {
            assert!(set.is_valid());
        }),
        None => assert!(!first_hand_has_set),
    }
}

#[test]
fn oracle_plays_the_unshuffled_deck_to_the_end() {
    let mut solver = Solver { game: Game::new(false), finder: Oracle };
    let expected: Vec<CardSet> = (0..27)
        .map(|i| {
            CardSet(
                Card::from((i / 9, i / 3 % 3, i % 3, 0)),
                Card::from((i / 9, i / 3 % 3, i % 3, 1)),
                Card::from((i / 9, i / 3 % 3, i % 3, 2)),
            )
        })
        .collect();
    assert_eq!(solver.run(), Some(&expected[..]));
    assert!(solver.game.deck().is_empty());
    assert!(!solver.game.playable());
}

#[test]
fn oracle_run_completes_when_the_first_hand_has_a_set() {
    let mut runs = 0;
    while runs < 20 {
        let mut solver = Solver::new(Oracle);
        if Oracle.find(solver.game.hand()).is_none() {
            continue;
        }
        runs += 1;
        let found = solver.run().map(|sets| sets.len());
        assert_eq!(found, Some(solver.game.sets().len()));
        assert!(!solver.game.playable());
        assert!(Oracle.find(solver.game.hand()).is_none());
        assert_eq!(solver.game.hand(), solver.game.deck());
        assert_eq!(solver.game.sets().len() * 3 + solver.game.deck().len(), 81);
        for set in solver.game.sets() {
            assert!(set.is_valid());
        }
    }
}

#[test]
fn oracle_run_ends_at_once_when_the_first_hand_has_no_set() {
    let mut tries = 0;
    loop {
        tries += 1;
        assert!(tries < 100_000);
        let mut solver = Solver::new(Oracle);
        if Oracle.find(solver.game.hand()).is_some() {
            continue;
        }
        let before: Vec<Card> = solver.game.deck().to_vec();
        assert!(solver.run().is_none());
        assert_eq!(solver.game.deck(), before);
        assert_eq!(solver.game.hand().len(), 12);
        assert!(solver.game.sets().is_empty());
        break;
    }
}

#[test]
fn any_sound_finder_plays_to_the_end() {
    let mut solver = Solver { game: Game::new(false), finder: LastSet };
    let sets = solver.run().unwrap();
    assert!(sets.iter().all(|set| set.is_valid()));
    assert_eq!(sets.len() * 3 + solver.game.deck().len(), 81);
    assert!(!solver.game.playable());
}

#[test]
fn simple_solver_finds_nothing() {
    let game = Game::new(false);
    assert!(SimpleSolver.find(game.hand()).is_none());
    assert!(SimpleSolver.find(game.deck()).is_none());
    assert!(SimpleSolver.find(&[]).is_none());
}

#[test]
fn simple_solver_ends_the_run_without_result() {
    for _ in 0..10 {
        let mut solver = Solver::new(SimpleSolver);
        let before: Vec<Card> = solver.game.deck().to_vec();
        assert!(solver.run().is_none());
        assert_eq!(solver.game.deck(), before);
        assert!(solver.game.sets().is_empty());
        assert_eq!(solver.game.hand().len(), 12);
    }
}

#[test]
fn simple_solver_draws_until_every_card_is_shown() {
    let mut game = Game::new(false);
    assert!(game.add_set(Index(0, 1, 2)));
    let mut solver = Solver { game, finder: SimpleSolver };
    assert!(solver.run().is_none());
    assert_eq!(solver.game.hand().len(), 78);
    assert_eq!(solver.game.deck().len(), 78);
    assert_eq!(solver.game.sets().len(), 1);
}

#[test]
fn run_ends_without_result_on_a_wrong_index() {
    for finder in [Stubborn(0, 0, 2), Stubborn(0, 1, 12), Stubborn(0, 1, 3)] {
        let mut solver = Solver { game: Game::new(false), finder };
        assert!(solver.run().is_none());
        assert!(solver.game.sets().is_empty());
        assert_eq!(solver.game.deck().len(), 81);
    }
}

#[test]
fn run_keeps_what_was_found_before_a_wrong_answer() {
    // the cards at 0, 3 and 6 are a set of the first hand and none of the second
    let mut solver = Solver { game: Game::new(false), finder: Stubborn(0, 3, 6) };
    assert!(solver.run().is_none());
    assert_eq!(solver.game.sets().len(), 1);
    assert_eq!(solver.game.deck().len(), 78);
    assert_eq!(solver.game.hand().len(), 12);
    assert!(solver.run().is_none());
    assert_eq!(solver.game.sets().len(), 1);
    assert_eq!(solver.game.deck().len(), 78);
}

#[test]
fn run_ends_when_a_finder_stops_finding() {
    let mut solver = Solver { game: Game::new(false), finder: Tired(std::cell::Cell::new(false)) };
    assert!(solver.run().is_none());
    assert_eq!(solver.game.sets().len(), 1);
    assert_eq!(solver.game.deck().len(), 78);
    assert_eq!(solver.game.hand().len(), 78);
}

#[test]
fn run_returns_at_once_when_the_game_is_over() {
    let mut game = Game::new(false);
    for _ in 0..27 {
        assert!(game.add_set(Index(0, 1, 2)));
    }
    let mut solver = Solver { game, finder: SimpleSolver };
    assert_eq!(solver.run().map(|sets| sets.len()), Some(27));
    let mut solver = Solver { game: solver.game, finder: Stubborn(0, 0, 0) };
    assert_eq!(solver.run().map(|sets| sets.len()), Some(27));
}

#[test]
fn counts_add_up_at_every_step_of_a_play() {
    for shuffle in [false, true, true, true] {
        let mut game = Game::new(shuffle);
        let mut steps = 0;
        while game.playable() {
            let answer = Oracle.find(game.hand());
            let sets = game.sets().len();
            let left = game.deck().len();
            let taken = game.play(answer);
            assert_eq!(game.sets().len() * 3 + game.deck().len(), 81);
            assert!(game.hand().len() <= game.deck().len());
            if !taken {
                // only a first hand without a set is turned down
                assert!(answer.is_none());
                assert_eq!(left, 81);
                break;
            }
            match answer {
                Some(_) => {
                    assert_eq!(game.sets().len(), sets + 1);
                    assert_eq!(game.deck().len(), left - 3);
                }
                None => {
                    assert_eq!(game.sets().len(), sets);
                    assert_eq!(game.deck().len(), left);
                }
            }
            steps += 1;
            assert!(steps <= 27 + 27);
        }
    }
}
