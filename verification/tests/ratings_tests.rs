use bb_cards::ratings::RatingTable;

/// Rating the same card twice as the same user overwrites the earlier
/// vote: the total stands at what the first call left, and the stored
/// value is the second rating alone.
#[test]
fn rating_twice_counts_once() {
    let mut table = RatingTable::new();
    let r1 = 0.2f32.to_bits();
    let r2 = 0.9f32.to_bits();

    let before = table.total_votes();
    assert_eq!(before, 0);
    let after_first = table.rate(1, 10, r1);
    assert_eq!(after_first, before + 1);
    let after_second = table.rate(1, 10, r2);
    assert_eq!(after_second, after_first);
    assert_eq!(table.get(1, 10), Some(r2));
}

#[test]
fn distinct_pairs_each_count() {
    let mut table = RatingTable::new();
    let r = 0.5f32.to_bits();
    assert_eq!(table.rate(1, 10, r), 1);
    assert_eq!(table.rate(2, 10, r), 2); // another user, same card
    assert_eq!(table.rate(1, 11, r), 3); // same user, another card
    assert_eq!(table.rate(2, 10, r), 3); // an overwrite changes nothing
    assert_eq!(table.get(1, 10), Some(r));
    assert_eq!(table.get(3, 10), None);
}
