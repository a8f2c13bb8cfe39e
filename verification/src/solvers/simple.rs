//! A finder that never finds anything.

use crate::card::Card;
use crate::engine::{is_silent, SetFinder};
use crate::index::Index;
use vstd::prelude::*;

verus! {

/// The place of a finder yet to be written. It sees no set in any hand.
pub struct SimpleSolver;

impl SetFinder for SimpleSolver {
    open spec fn may_answer(&self, hand: Seq<Card>, answer: Option<Index>) -> bool {
        answer is None
    }

    fn find(&self, hand: &[Card]) -> (answer: Option<Index>) {
        None
    }
}

/// The simple solver never names a set.
pub proof fn lemma_simple_solver_is_silent()
    ensures
        is_silent(SimpleSolver),
{
}

} // verus!
