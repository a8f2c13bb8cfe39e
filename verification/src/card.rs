//! The four features of a card, each with three values, and the card itself.
//!
//! Every value has a code in `0..=2`, its position among the values of its
//! feature, and a short text. A card is one value of each feature; its code in
//! `0..81` is its position in the deck before any shuffle.

use vstd::prelude::*;

verus! {

#[derive(Debug, PartialEq, Eq, Structural, Clone, Copy)]
pub enum Color {
    Red,
    Green,
    Purple,
}

#[derive(Debug, PartialEq, Eq, Structural, Clone, Copy)]
pub enum Shape {
    Oval,
    Diamond,
    Squiggle,
}

#[derive(Debug, PartialEq, Eq, Structural, Clone, Copy)]
pub enum Shading {
    Solid,
    Striped,
    Outlined,
}

#[derive(Debug, PartialEq, Eq, Structural, Clone, Copy)]
pub enum Number {
    One,
    Two,
    Three,
}

/// One of the four features that every card has.
#[derive(Debug, PartialEq, Eq, Structural, Clone, Copy)]
pub enum Feature {
    Color,
    Shape,
    Shading,
    Number,
}

impl Color {
    pub open spec fn code(self) -> int {
        match self {
            Color::Red => 0,
            Color::Green => 1,
            Color::Purple => 2,
        }
    }

    /// The color with code `t`; for a `t` outside `0..=2` the choice is of no interest.
    pub open spec fn of(t: int) -> Color {
        if t == 0 {
            Color::Red
        } else if t == 1 {
            Color::Green
        } else {
            Color::Purple
        }
    }

    pub open spec fn text(self) -> Seq<char> {
        match self {
            Color::Red => "R"@,
            Color::Green => "G"@,
            Color::Purple => "P"@,
        }
    }

    /// The color with code `t`.
    pub fn from(t: i32) -> (color: Color)
        requires
            0 <= t <= 2,
        ensures
            color == Color::of(t as int),
            color.code() == t,
    {
        if t == 0 {
            Color::Red
        } else if t == 1 {
            Color::Green
        } else {
            Color::Purple
        }
    }

    pub fn to_string(&self) -> (s: String)
        ensures
            s@ == self.text(),
    {
        match self {
            Color::Red => String::from_str("R"),
            Color::Green => String::from_str("G"),
            Color::Purple => String::from_str("P"),
        }
    }
}

impl Shape {
    pub open spec fn code(self) -> int {
        match self {
            Shape::Oval => 0,
            Shape::Diamond => 1,
            Shape::Squiggle => 2,
        }
    }

    /// The shape with code `t`; for a `t` outside `0..=2` the choice is of no interest.
    pub open spec fn of(t: int) -> Shape {
        if t == 0 {
            Shape::Oval
        } else if t == 1 {
            Shape::Diamond
        } else {
            Shape::Squiggle
        }
    }

    pub open spec fn text(self) -> Seq<char> {
        match self {
            Shape::Oval => "○"@,
            Shape::Diamond => "♢"@,
            Shape::Squiggle => "⌇"@,
        }
    }

    /// The shape with code `t`.
    pub fn from(t: i32) -> (shape: Shape)
        requires
            0 <= t <= 2,
        ensures
            shape == Shape::of(t as int),
            shape.code() == t,
    {
        if t == 0 {
            Shape::Oval
        } else if t == 1 {
            Shape::Diamond
        } else {
            Shape::Squiggle
        }
    }

    pub fn to_string(&self) -> (s: String)
        ensures
            s@ == self.text(),
    {
        match self {
            Shape::Oval => String::from_str("○"),
            Shape::Diamond => String::from_str("♢"),
            Shape::Squiggle => String::from_str("⌇"),
        }
    }
}

impl Shading {
    pub open spec fn code(self) -> int {
        match self {
            Shading::Solid => 0,
            Shading::Striped => 1,
            Shading::Outlined => 2,
        }
    }

    /// The shading with code `t`; for a `t` outside `0..=2` the choice is of no interest.
    pub open spec fn of(t: int) -> Shading {
        if t == 0 {
            Shading::Solid
        } else if t == 1 {
            Shading::Striped
        } else {
            Shading::Outlined
        }
    }

    /// An outlined shading is written with the glyph of the oval shape.
    pub open spec fn text(self) -> Seq<char> {
        match self {
            Shading::Solid => "●"@,
            Shading::Striped => "◍"@,
            Shading::Outlined => "○"@,
        }
    }

    /// The shading with code `t`.
    pub fn from(t: i32) -> (shading: Shading)
        requires
            0 <= t <= 2,
        ensures
            shading == Shading::of(t as int),
            shading.code() == t,
    {
        if t == 0 {
            Shading::Solid
        } else if t == 1 {
            Shading::Striped
        } else {
            Shading::Outlined
        }
    }

    pub fn to_string(&self) -> (s: String)
        ensures
            s@ == self.text(),
    {
        match self {
            Shading::Solid => String::from_str("●"),
            Shading::Striped => String::from_str("◍"),
            Shading::Outlined => String::from_str("○"),
        }
    }
}

impl Number {
    pub open spec fn code(self) -> int {
        match self {
            Number::One => 0,
            Number::Two => 1,
            Number::Three => 2,
        }
    }

    /// The number with code `t`; for a `t` outside `0..=2` the choice is of no interest.
    pub open spec fn of(t: int) -> Number {
        if t == 0 {
            Number::One
        } else if t == 1 {
            Number::Two
        } else {
            Number::Three
        }
    }

    pub open spec fn text(self) -> Seq<char> {
        match self {
            Number::One => "1"@,
            Number::Two => "2"@,
            Number::Three => "3"@,
        }
    }

    /// The number with code `t`.
    pub fn from(t: i32) -> (number: Number)
        requires
            0 <= t <= 2,
        ensures
            number == Number::of(t as int),
            number.code() == t,
    {
        if t == 0 {
            Number::One
        } else if t == 1 {
            Number::Two
        } else {
            Number::Three
        }
    }

    pub fn to_string(&self) -> (s: String)
        ensures
            s@ == self.text(),
    {
        match self {
            Number::One => String::from_str("1"),
            Number::Two => String::from_str("2"),
            Number::Three => String::from_str("3"),
        }
    }
}

#[derive(Debug, Clone, Copy, PartialEq, Eq, Structural)]
pub struct Card {
    pub color: Color,
    pub shape: Shape,
    pub shading: Shading,
    pub number: Number,
}

impl Card {
    /// The code of the card's value of `feature`.
    pub open spec fn value(self, feature: Feature) -> int {
        match feature {
            Feature::Color => self.color.code(),
            Feature::Shape => self.shape.code(),
            Feature::Shading => self.shading.code(),
            Feature::Number => self.number.code(),
        }
    }

    /// The card's position in the unshuffled deck: its four codes read as one
    /// number in base three, the color first.
    pub open spec fn code(self) -> int {
        27 * self.color.code() + 9 * self.shape.code() + 3 * self.shading.code()
            + self.number.code()
    }

    /// The card whose values have the codes `t`.
    pub open spec fn of(t: (int, int, int, int)) -> Card {
        Card {
            color: Color::of(t.0),
            shape: Shape::of(t.1),
            shading: Shading::of(t.2),
            number: Number::of(t.3),
        }
    }

    /// Color, shape, shading and number, with nothing between them.
    pub open spec fn text(self) -> Seq<char> {
        self.color.text() + self.shape.text() + self.shading.text() + self.number.text()
    }

    /// The card whose values have the codes `t`.
    pub fn from(t: (i32, i32, i32, i32)) -> (card: Card)
        requires
            0 <= t.0 <= 2,
            0 <= t.1 <= 2,
            0 <= t.2 <= 2,
            0 <= t.3 <= 2,
        ensures
            card == Card::of((t.0 as int, t.1 as int, t.2 as int, t.3 as int)),
            card.code() == 27 * t.0 + 9 * t.1 + 3 * t.2 + t.3,
    {
        Card {
            color: Color::from(t.0),
            shape: Shape::from(t.1),
            shading: Shading::from(t.2),
            number: Number::from(t.3),
        }
    }

    pub fn to_string(&self) -> (s: String)
        ensures
            s@ == self.text(),
    {
        let mut s = self.color.to_string();
        s.append(self.shape.to_string().as_str());
        s.append(self.shading.to_string().as_str());
        s.append(self.number.to_string().as_str());
        s
    }
}

/// A value and its code stand for each other: no two values of a feature
/// share a code, and every code in `0..=2` is taken.
pub proof fn lemma_codes_are_one_to_one()
    ensures
        forall|c: Color| 0 <= #[trigger] c.code() <= 2 && Color::of(c.code()) == c,
        forall|c: Shape| 0 <= #[trigger] c.code() <= 2 && Shape::of(c.code()) == c,
        forall|c: Shading| 0 <= #[trigger] c.code() <= 2 && Shading::of(c.code()) == c,
        forall|c: Number| 0 <= #[trigger] c.code() <= 2 && Number::of(c.code()) == c,
        forall|t: int| 0 <= t <= 2 ==> #[trigger] Color::of(t).code() == t,
        forall|t: int| 0 <= t <= 2 ==> #[trigger] Shape::of(t).code() == t,
        forall|t: int| 0 <= t <= 2 ==> #[trigger] Shading::of(t).code() == t,
        forall|t: int| 0 <= t <= 2 ==> #[trigger] Number::of(t).code() == t,
{
}

/// A card and its code stand for each other: the four codes are the digits of
/// the card's code in base three.
pub proof fn lemma_card_code(card: Card)
    ensures
        0 <= card.code() < 81,
        card.color.code() == card.code() / 27,
        card.shape.code() == card.code() / 9 % 3,
        card.shading.code() == card.code() / 3 % 3,
        card.number.code() == card.code() % 3,
        Card::of((card.code() / 27, card.code() / 9 % 3, card.code() / 3 % 3, card.code() % 3))
            == card,
{
}

} // verus!
