//! The card game Set: the deck, the rule for a valid set, the state of a game,
//! and finders that play a game to its end.

pub mod card;
pub mod card_set;
pub mod deck;
pub mod engine;
pub mod game;
pub mod hand;
pub mod index;
pub mod oracle;
pub mod solvers;
pub mod state;
