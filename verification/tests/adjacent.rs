use stem::adjacent::{adjacent_fetches, keep_fetched, merge_adjacent, Slot};

#[test]
fn adjacent_fetches_skip_neighbours_one_stride_apart() {
    // ids 10, 12 are one stride (2) apart; 20 stands alone
    let plan = adjacent_fetches(&vec![10, 12, 20], 2);
    assert_eq!(plan, vec![(true, false), (false, true), (true, true)]);
    assert!(adjacent_fetches(&vec![], 2).is_empty());
    assert_eq!(adjacent_fetches(&vec![5], 1), vec![(true, true)]);
}

#[test]
fn fetched_neighbour_that_is_a_bounded_point_is_dropped() {
    let ids = vec![10, 20, 30];
    // the neighbour before point 1 is point 0 itself
    assert!(!keep_fetched(&ids, 1, 10, true));
    assert!(keep_fetched(&ids, 1, 15, true));
    // the neighbour after point 1 is point 2 itself
    assert!(!keep_fetched(&ids, 1, 30, false));
    // nothing to compare with before the first or after the last point
    assert!(keep_fetched(&ids, 0, 10, true));
    assert!(keep_fetched(&ids, 2, 30, false));
}

#[test]
fn merge_places_neighbours_and_drops_repeats() {
    let ids = vec![10, 20];
    // before 10: 9; after 10: 11; before 20: 11 again (dropped); after 20: 21
    let fetched = vec![(0, 9), (1, 11), (1, 11), (2, 21)];
    let merged = merge_adjacent(&ids, &fetched);
    assert_eq!(
        merged,
        vec![Slot::Fetched(0), Slot::Bounded(0), Slot::Fetched(1), Slot::Bounded(1), Slot::Fetched(3)]
    );
}

#[test]
fn merge_keeps_every_bounded_point_in_order() {
    let ids = vec![1, 5, 9, 13];
    let fetched = vec![(0, 0), (2, 6), (2, 8), (4, 14)];
    let merged = merge_adjacent(&ids, &fetched);
    let bounded: Vec<usize> = merged
        .iter()
        .filter_map(|s| match s {
            Slot::Bounded(b) => Some(*b),
            Slot::Fetched(_) => None,
        })
        .collect();
    assert_eq!(bounded, vec![0, 1, 2, 3]);
    assert_eq!(merged.len(), 8);
    assert!(merge_adjacent(&ids, &vec![]).iter().all(|s| matches!(s, Slot::Bounded(_))));
}
