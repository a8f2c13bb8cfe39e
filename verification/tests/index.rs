use setrs::index::Index;

fn positions(index: Index) -> (usize, usize, usize) {
    (index.0, index.1, index.2)
}

#[test]
fn index_takes_the_first_three_positions() {
    let index = Index::from_vec(vec![4, 2, 9]).unwrap();
    assert_eq!(positions(index), (4, 2, 9));
}

#[test]
fn index_ignores_positions_after_the_third() {
    let index = Index::from_vec(vec![7, 8, 9, 10, 11]).unwrap();
    assert_eq!(positions(index), (7, 8, 9));
}

#[test]
fn index_needs_three_positions() {
    assert!(Index::from_vec(vec![]).is_none());
    assert!(Index::from_vec(vec![1]).is_none());
    assert!(Index::from_vec(vec![1, 2]).is_none());
}

#[test]
fn index_is_valid_below_the_limit() {
    assert!(Index(0, 1, 2).is_valid(3));
    assert!(Index(11, 0, 5).is_valid(12));
    assert!(Index(2, 1, 0).is_valid(12));
}

#[test]
fn index_is_invalid_at_or_above_the_limit() {
    assert!(!Index(0, 1, 2).is_valid(2));
    assert!(!Index(0, 1, 12).is_valid(12));
    assert!(!Index(12, 1, 2).is_valid(12));
    assert!(!Index(0, 13, 2).is_valid(12));
    assert!(!Index(0, 1, 2).is_valid(0));
}

#[test]
fn index_is_invalid_with_a_repeated_position() {
    assert!(!Index(0, 0, 2).is_valid(12));
    assert!(!Index(0, 2, 2).is_valid(12));
    assert!(!Index(2, 0, 2).is_valid(12));
    assert!(!Index(5, 5, 5).is_valid(12));
}

#[test]
fn sort_orders_every_arrangement() {
    let arrangements = [
        Index(1, 5, 9),
        Index(1, 9, 5),
        Index(5, 1, 9),
        Index(5, 9, 1),
        Index(9, 1, 5),
        Index(9, 5, 1),
    ];
    for mut index in arrangements {
        index.sort();
        assert_eq!(positions(index), (1, 5, 9));
    }
}

#[test]
fn sort_leaves_sorted_positions_alone() {
    let mut index = Index(0, 1, 2);
    index.sort();
    assert_eq!(positions(index), (0, 1, 2));
    index.sort();
    assert_eq!(positions(index), (0, 1, 2));
}

#[test]
fn sort_keeps_repeated_positions() {
    let mut index = Index(4, 1, 4);
    index.sort();
    assert_eq!(positions(index), (1, 4, 4));
    let mut index = Index(7, 7, 3);
    index.sort();
    assert_eq!(positions(index), (3, 7, 7));
}

#[test]
fn sort_is_strict_on_distinct_positions() {
    for a in 0..5usize {
        for b in 0..5usize {
            for c in 0..5usize {
                let mut index = Index(a, b, c);
                index.sort();
                assert!(index.0 <= index.1 && index.1 <= index.2);
                if a != b && b != c && a != c {
                    assert!(index.0 < index.1 && index.1 < index.2);
                }
                let mut again = index;
                again.sort();
                assert_eq!(positions(again), positions(index));
            }
        }
    }
}
