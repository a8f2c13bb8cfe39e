//! The finders that can play a game.

pub mod simple;

pub use crate::oracle;
