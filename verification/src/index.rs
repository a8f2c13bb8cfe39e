//! Three positions in a hand, which pick three cards.

use vstd::prelude::*;

verus! {

/// Three positions in the hand, in the order in which they were named.
#[derive(Debug, Clone, Copy)]
pub struct Index(pub usize, pub usize, pub usize);

pub open spec fn least(a: int, b: int) -> int {
    if a <= b {
        a
    } else {
        b
    }
}

pub open spec fn greatest(a: int, b: int) -> int {
    if a <= b {
        b
    } else {
        a
    }
}

impl Index {
    /// No position is named twice.
    pub open spec fn distinct(self) -> bool {
        self.0 != self.1 && self.1 != self.2 && self.0 != self.2
    }

    /// Every position lies in a hand of `limit` cards.
    pub open spec fn within(self, limit: int) -> bool {
        self.0 < limit && self.1 < limit && self.2 < limit
    }

    /// The positions pick three different cards of a hand of `limit` cards.
    pub open spec fn valid(self, limit: int) -> bool {
        self.within(limit) && self.distinct()
    }

    pub open spec fn ascending(self) -> bool {
        self.0 < self.1 < self.2
    }

    /// `other` names the positions of `self`, in some order.
    pub open spec fn names_the_same(self, other: Index) -> bool {
        ||| other == self
        ||| other == Index(self.0, self.2, self.1)
        ||| other == Index(self.1, self.0, self.2)
        ||| other == Index(self.1, self.2, self.0)
        ||| other == Index(self.2, self.0, self.1)
        ||| other == Index(self.2, self.1, self.0)
    }

    /// The same three positions, the least first and the greatest last.
    pub open spec fn sorted(self) -> Index {
        let a = self.0 as int;
        let b = self.1 as int;
        let c = self.2 as int;
        Index(
            least(a, least(b, c)) as usize,
            greatest(least(a, b), least(greatest(a, b), c)) as usize,
            greatest(a, greatest(b, c)) as usize,
        )
    }

    /// In dictionary order `self` comes before `other`.
    pub open spec fn before(self, other: Index) -> bool {
        ||| self.0 < other.0
        ||| self.0 == other.0 && self.1 < other.1
        ||| self.0 == other.0 && self.1 == other.1 && self.2 < other.2
    }

    pub fn is_valid(&self, limit: usize) -> (valid: bool)
        ensures
            valid == self.valid(limit as int),
    {
        let bounds = self.0 < limit && self.1 < limit && self.2 < limit;
        let equals = self.0 != self.1 && self.1 != self.2 && self.0 != self.2;
        bounds && equals
    }

    /// The first three positions of `vec`, if it has that many.
    pub fn from_vec(vec: Vec<usize>) -> (index: Option<Index>)
        ensures
            vec.len() < 3 ==> index is None,
            vec.len() >= 3 ==> index == Some(Index(vec[0], vec[1], vec[2])),
    {
        if vec.len() < 3 {
            None
        } else {
            Some(Index(vec[0], vec[1], vec[2]))
        }
    }

    /// Puts the positions in ascending order.
    pub fn sort(&mut self)
        ensures
            *final(self) == old(self).sorted(),
    {
        if self.0 > self.2 {
            let tmp = self.0;
            self.0 = self.2;
            self.2 = tmp;
        }
        if self.0 > self.1 {
            let tmp = self.0;
            self.0 = self.1;
            self.1 = tmp;
        }
        if self.1 > self.2 {
            let tmp = self.1;
            self.1 = self.2;
            self.2 = tmp;
        }
    }
}

/// Sorting keeps the three positions and puts them in order: none comes
/// before an earlier one, and where all three differ each is less than the
/// next.
pub proof fn lemma_sorted_is_ordered(index: Index)
    ensures
        index.names_the_same(index.sorted()),
        index.sorted().0 <= index.sorted().1 <= index.sorted().2,
        index.distinct() ==> index.sorted().ascending(),
        forall|limit: int| index.valid(limit) == #[trigger] index.sorted().valid(limit),
{
}

/// Sorting changes nothing in positions that are in order already, so
/// sorting twice is sorting once.
pub proof fn lemma_sorted_is_idempotent(index: Index)
    ensures
        index.0 <= index.1 <= index.2 ==> index.sorted() == index,
        index.sorted().sorted() == index.sorted(),
{
}

/// Of two different triples exactly one comes before the other, and none
/// comes before itself.
pub proof fn lemma_before_is_total(a: Index, b: Index)
    ensures
        a != b ==> (a.before(b) <==> !b.before(a)),
        !a.before(a),
{
}

} // verus!
