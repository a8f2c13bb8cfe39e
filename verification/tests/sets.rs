use setrs::card::{Card, Color, Feature, Number, Shading, Shape};
use setrs::card_set::{different, same, CardSet};

fn card(color: Color, shape: Shape, shading: Shading, number: Number) -> Card {
    Card { color, shape, shading, number }
}

#[test]
fn test_validset() {
    assert!(!CardSet(
        Card {
            color: Color::Purple,
            shape: Shape::Squiggle,
            shading: Shading::Striped,
            number: Number::One
        },
        Card {
            color: Color::Red,
            shape: Shape::Squiggle,
            shading: Shading::Striped,
            number: Number::Two
        },
        Card {
            color: Color::Red,
            shape: Shape::Squiggle,
            shading: Shading::Striped,
            number: Number::Three,
        }
    )
    .is_valid());
    assert!(CardSet(
        Card {
            color: Color::Red,
            shape: Shape::Squiggle,
            shading: Shading::Striped,
            number: Number::One
        },
        Card {
            color: Color::Red,
            shape: Shape::Squiggle,
            shading: Shading::Striped,
            number: Number::Two
        },
        Card {
            color: Color::Red,
            shape: Shape::Squiggle,
            shading: Shading::Striped,
            number: Number::Three,
        }
    )
    .is_valid());
}

#[test]
fn red_solid_ovals_one_two_three_are_a_set() {
    let set = CardSet(
        card(Color::Red, Shape::Oval, Shading::Solid, Number::One),
        card(Color::Red, Shape::Oval, Shading::Solid, Number::Two),
        card(Color::Red, Shape::Oval, Shading::Solid, Number::Three),
    );
    assert!(set.is_valid());
    assert!(same(&set, Feature::Color));
    assert!(same(&set, Feature::Shape));
    assert!(same(&set, Feature::Shading));
    assert!(different(&set, Feature::Number));
    assert!(!same(&set, Feature::Number));
    assert!(!different(&set, Feature::Color));
}

#[test]
fn all_features_different_is_a_set() {
    let set = CardSet(
        card(Color::Red, Shape::Oval, Shading::Solid, Number::One),
        card(Color::Green, Shape::Diamond, Shading::Striped, Number::Two),
        card(Color::Purple, Shape::Squiggle, Shading::Outlined, Number::Three),
    );
    assert!(set.is_valid());
    for feature in [Feature::Color, Feature::Shape, Feature::Shading, Feature::Number] {
        assert!(different(&set, feature));
        assert!(!same(&set, feature));
    }
}

#[test]
fn two_alike_and_one_apart_spoils_each_feature() {
    let base = card(Color::Red, Shape::Oval, Shading::Solid, Number::One);
    let spoiled = [
        (Feature::Color, card(Color::Green, Shape::Oval, Shading::Solid, Number::One)),
        (Feature::Shape, card(Color::Red, Shape::Diamond, Shading::Solid, Number::One)),
        (Feature::Shading, card(Color::Red, Shape::Oval, Shading::Striped, Number::One)),
        (Feature::Number, card(Color::Red, Shape::Oval, Shading::Solid, Number::Two)),
    ];
    for (feature, odd) in spoiled {
        let set = CardSet(base, base, odd);
        assert!(!set.is_valid());
        assert!(!same(&set, feature));
        assert!(!different(&set, feature));
    }
}

#[test]
fn three_equal_cards_pass_the_rule() {
    let c = card(Color::Green, Shape::Squiggle, Shading::Outlined, Number::Two);
    assert!(CardSet(c, c, c).is_valid());
}

#[test]
fn validity_does_not_depend_on_order() {
    let a = card(Color::Red, Shape::Oval, Shading::Solid, Number::One);
    let b = card(Color::Green, Shape::Oval, Shading::Striped, Number::Two);
    let c = card(Color::Purple, Shape::Oval, Shading::Outlined, Number::Three);
    let d = card(Color::Purple, Shape::Oval, Shading::Outlined, Number::One);
    for (x, y, z) in [(a, b, c), (a, c, b), (b, a, c), (b, c, a), (c, a, b), (c, b, a)] {
        assert!(CardSet(x, y, z).is_valid());
    }
    for (x, y, z) in [(a, b, d), (a, d, b), (b, a, d), (b, d, a), (d, a, b), (d, b, a)] {
        assert!(!CardSet(x, y, z).is_valid());
    }
}

#[test]
fn set_takes_the_first_three_cards() {
    let a = card(Color::Red, Shape::Oval, Shading::Solid, Number::One);
    let b = card(Color::Green, Shape::Oval, Shading::Striped, Number::Two);
    let c = card(Color::Purple, Shape::Oval, Shading::Outlined, Number::Three);
    let d = card(Color::Purple, Shape::Diamond, Shading::Outlined, Number::One);
    assert_eq!(CardSet::from_vec(vec![&a, &b, &c]), Some(CardSet(a, b, c)));
    assert_eq!(CardSet::from_vec(vec![&c, &a, &b]), Some(CardSet(c, a, b)));
    assert_eq!(CardSet::from_vec(vec![&d, &c, &b, &a]), Some(CardSet(d, c, b)));
}

#[test]
fn set_needs_three_cards() {
    let a = card(Color::Red, Shape::Oval, Shading::Solid, Number::One);
    let b = card(Color::Green, Shape::Oval, Shading::Striped, Number::Two);
    assert_eq!(CardSet::from_vec(vec![]), None);
    assert_eq!(CardSet::from_vec(vec![&a]), None);
    assert_eq!(CardSet::from_vec(vec![&a, &b]), None);
}
