//! Three cards, and the rule that makes them a set: on every feature the
//! three agree, or no two of them do.

use crate::card::{Card, Feature};
use vstd::prelude::*;

verus! {

/// Three cards in the order in which they were picked.
#[derive(Debug, PartialEq, Eq, Structural)]
pub struct CardSet(pub Card, pub Card, pub Card);

impl CardSet {
    /// The three cards have the same value of `feature`.
    pub open spec fn alike(self, feature: Feature) -> bool {
        self.0.value(feature) == self.1.value(feature) && self.1.value(feature) == self.2.value(
            feature,
        )
    }

    /// No two of the three cards have the same value of `feature`.
    pub open spec fn apart(self, feature: Feature) -> bool {
        &&& self.0.value(feature) != self.1.value(feature)
        &&& self.1.value(feature) != self.2.value(feature)
        &&& self.0.value(feature) != self.2.value(feature)
    }

    /// Two of the three cards have the same value of `feature`, and the third
    /// has another.
    pub open spec fn split(self, feature: Feature) -> bool {
        let a = self.0.value(feature);
        let b = self.1.value(feature);
        let c = self.2.value(feature);
        (a == b && b != c) || (a == c && c != b) || (b == c && c != a)
    }

    /// The rule of the game, feature by feature.
    pub open spec fn valid(self) -> bool {
        &&& self.alike(Feature::Color) || self.apart(Feature::Color)
        &&& self.alike(Feature::Shape) || self.apart(Feature::Shape)
        &&& self.alike(Feature::Shading) || self.apart(Feature::Shading)
        &&& self.alike(Feature::Number) || self.apart(Feature::Number)
    }

    pub fn is_valid(&self) -> (valid: bool)
        ensures
            valid == self.valid(),
    {
        let color = same(self, Feature::Color) || different(self, Feature::Color);
        let shape = same(self, Feature::Shape) || different(self, Feature::Shape);
        let shading = same(self, Feature::Shading) || different(self, Feature::Shading);
        let number = same(self, Feature::Number) || different(self, Feature::Number);
        color && shape && shading && number
    }

    /// The first three cards of `vec`, if it has that many.
    pub fn from_vec(vec: Vec<&Card>) -> (set: Option<CardSet>)
        ensures
            vec.len() < 3 ==> set is None,
            vec.len() >= 3 ==> set == Some(CardSet(*vec[0], *vec[1], *vec[2])),
    {
        if vec.len() < 3 {
            None
        } else {
            Some(CardSet(*vec[0], *vec[1], *vec[2]))
        }
    }
}

/// Whether the three cards of `set` agree on `feat`.
pub fn same(set: &CardSet, feat: Feature) -> (alike: bool)
    ensures
        alike == set.alike(feat),
{
    match feat {
        Feature::Color => set.0.color == set.1.color && set.1.color == set.2.color,
        Feature::Shape => set.0.shape == set.1.shape && set.1.shape == set.2.shape,
        Feature::Shading => set.0.shading == set.1.shading && set.1.shading == set.2.shading,
        Feature::Number => set.0.number == set.1.number && set.1.number == set.2.number,
    }
}

/// Whether no two cards of `set` agree on `feat`.
pub fn different(set: &CardSet, feat: Feature) -> (apart: bool)
    ensures
        apart == set.apart(feat),
{
    match feat {
        Feature::Color => {
            set.0.color != set.1.color && set.1.color != set.2.color && set.0.color != set.2.color
        },
        Feature::Shape => {
            set.0.shape != set.1.shape && set.1.shape != set.2.shape && set.0.shape != set.2.shape
        },
        Feature::Shading => {
            set.0.shading != set.1.shading && set.1.shading != set.2.shading && set.0.shading
                != set.2.shading
        },
        Feature::Number => {
            set.0.number != set.1.number && set.1.number != set.2.number && set.0.number
                != set.2.number
        },
    }
}

/// On each feature exactly one of three things holds: the cards agree, no two
/// agree, or two agree and the third does not. Three cards are a set when the
/// last holds on no feature.
pub proof fn lemma_valid_iff_no_feature_split(set: CardSet)
    ensures
        forall|feature: Feature|
            #![trigger set.split(feature)]
            set.split(feature) <==> !set.alike(feature) && !set.apart(feature),
        set.valid() <==> forall|feature: Feature| !#[trigger] set.split(feature),
{
    if set.valid() {
        assert forall|feature: Feature| !#[trigger] set.split(feature) by {
            match feature {
                Feature::Color => {},
                Feature::Shape => {},
                Feature::Shading => {},
                Feature::Number => {},
            }
        }
    }
    if forall|feature: Feature| !#[trigger] set.split(feature) {
        assert(!set.split(Feature::Color));
        assert(!set.split(Feature::Shape));
        assert(!set.split(Feature::Shading));
        assert(!set.split(Feature::Number));
    }
}

/// Three cards that agree on three features and have the numbers one, two and
/// three, in any order, are a set.
pub proof fn lemma_one_two_three_is_valid(set: CardSet)
    requires
        set.alike(Feature::Color),
        set.alike(Feature::Shape),
        set.alike(Feature::Shading),
        set.apart(Feature::Number),
    ensures
        set.valid(),
{
}

/// Whether three cards are a set does not depend on their order.
pub proof fn lemma_valid_in_any_order(set: CardSet)
    ensures
        CardSet(set.0, set.2, set.1).valid() == set.valid(),
        CardSet(set.1, set.0, set.2).valid() == set.valid(),
        CardSet(set.1, set.2, set.0).valid() == set.valid(),
        CardSet(set.2, set.0, set.1).valid() == set.valid(),
        CardSet(set.2, set.1, set.0).valid() == set.valid(),
{
}

} // verus!
