use std::ops::Range;

use every_range::EveryRangeKind::{Excluded, Included};
use every_range::{EveryRange, EveryRangeIter, EveryRangeKind, RangeError};

fn all_items(ranges: Vec<Range<usize>>, end: usize) -> Vec<(EveryRangeKind, Range<usize>)> {
    EveryRangeIter::new(ranges, end).collect_rest()
}

#[test]
fn coverage_tiles_the_domain() {
    let items = all_items(vec![2..4, 4..5, 9..12], 15);
    let mut cursor = 0;
    for (_, range) in &items {
        assert_eq!(cursor, range.start);
        assert!(range.start <= range.end);
        cursor = range.end;
    }
    assert_eq!(15, cursor);
}

#[test]
fn no_two_excluded_in_a_row() {
    let items = all_items(vec![1..2, 3..3, 5..7, 7..9], 12);
    for pair in items.windows(2) {
        assert!(!(pair[0].0 == Excluded && pair[1].0 == Excluded));
    }
}

#[test]
fn included_ranges_are_the_source() {
    let source = vec![1..2, 3..3, 5..7, 7..9];
    let included: Vec<Range<usize>> = all_items(source.clone(), 12)
        .into_iter()
        .filter(|(kind, _)| *kind == Included)
        .map(|(_, range)| range)
        .collect();
    assert_eq!(source, included);
}

#[test]
fn exhausted_stays_exhausted() {
    let mut iter = vec![0..3].every_range(3);
    assert_eq!(Some((Included, 0..3)), iter.next());
    assert_eq!(None, iter.next());
    assert_eq!(None, iter.next());
    assert_eq!(Ok(None), iter.try_next());
    assert_eq!(None, iter.next());
}

#[test]
fn empty_source_empty_domain() {
    let mut iter = EveryRangeIter::new(Vec::new(), 0);
    assert_eq!(None, iter.next());
    assert_eq!(None, iter.next());
}

#[test]
fn empty_source_whole_domain_is_one_gap() {
    assert_eq!(vec![(Excluded, 0..7)], all_items(Vec::new(), 7));
    assert_eq!(vec![(Excluded, 0..1)], all_items(Vec::new(), 1));
}

#[test]
fn letters_of_text_scenario() {
    let source = vec![0..1, 1..2, 2..3, 5..6, 6..7, 7..8, 10..11, 11..12, 12..13];
    let expected = vec![
        (Included, 0..1),
        (Included, 1..2),
        (Included, 2..3),
        (Excluded, 3..5),
        (Included, 5..6),
        (Included, 6..7),
        (Included, 7..8),
        (Excluded, 8..10),
        (Included, 10..11),
        (Included, 11..12),
        (Included, 12..13),
        (Excluded, 13..15),
    ];
    assert_eq!(expected, source.every_range(15).collect_rest());
}

#[test]
fn range_past_domain_end_is_refused() {
    let mut iter = vec![0..2, 4..6].every_range(3);
    assert_eq!(Ok(Some((Included, 0..2))), iter.try_next());
    assert_eq!(Err(RangeError::ExceedsEnd), iter.try_next());
    assert_eq!(Err(RangeError::ExceedsEnd), iter.try_next());
}

#[test]
fn range_before_cursor_is_refused() {
    let mut iter = vec![4..6, 0..2].every_range(20);
    assert_eq!(Ok(Some((Excluded, 0..4))), iter.try_next());
    assert_eq!(Ok(Some((Included, 4..6))), iter.try_next());
    assert_eq!(Err(RangeError::StartsBeforeCursor), iter.try_next());
}

#[test]
fn reversed_range_is_refused() {
    let mut iter = vec![5..3].every_range(10);
    assert_eq!(Err(RangeError::StartAfterEnd), iter.try_next());
}

#[test]
fn gaps_before_between_and_after() {
    let expected = vec![
        (Excluded, 0..4),
        (Included, 4..17),
        (Excluded, 17..26),
        (Included, 26..35),
        (Excluded, 35..39),
    ];
    assert_eq!(expected, vec![4..17, 26..35].every_range(39).collect_rest());
}

#[test]
fn last_range_reaching_end_adds_no_gap() {
    let expected = vec![(Excluded, 0..2), (Included, 2..5)];
    assert_eq!(expected, vec![2..5].every_range(5).collect_rest());
}

#[test]
fn empty_ranges_pass_through() {
    let expected = vec![(Included, 0..0), (Excluded, 0..2), (Included, 2..2)];
    assert_eq!(expected, vec![0..0, 2..2].every_range(2).collect_rest());
}

#[test]
fn largest_end() {
    let expected = vec![(Excluded, 0..usize::MAX - 1), (Included, usize::MAX - 1..usize::MAX)];
    assert_eq!(
        expected,
        vec![usize::MAX - 1..usize::MAX].every_range(usize::MAX).collect_rest()
    );
}

#[test]
fn diagnostics_name_the_rule() {
    assert_eq!("range starts before current position", RangeError::StartsBeforeCursor.message());
    assert_eq!("range exceeds domain end", RangeError::ExceedsEnd.message());
    assert_eq!("range start exceeds range end", RangeError::StartAfterEnd.message());
}
