use stem::dashboard::{join_timeline, pair_times, TimelineSlot};

#[test]
fn dwell_and_movement_times_split_the_span() {
    let ts = vec![0, 10, 30, 60, 100];
    let dwell = vec![false, false, true, false, false];
    // pairs: 0-10 moving, 10-30 dwell (ends in a dwell), 30-60 dwell, 60-100 moving
    assert_eq!(pair_times(&ts, &dwell), (50, 50));
    let (d, m) = pair_times(&ts, &dwell);
    assert_eq!(d + m, 100);
    assert_eq!(pair_times(&vec![], &vec![]), (0, 0));
    assert_eq!(pair_times(&vec![5], &vec![true]), (0, 0));
}

#[test]
fn timeline_keeps_parts_with_dwells_and_marks_gaps() {
    let slots = join_timeline(&vec![true, false, true], &vec![2, 3, 1]);
    assert_eq!(
        slots,
        vec![
            TimelineSlot::Period { part: 0, index: 0 },
            TimelineSlot::Period { part: 0, index: 1 },
            TimelineSlot::OutOfView { before: 0, after: 2 },
            TimelineSlot::Period { part: 2, index: 0 },
        ]
    );
    assert!(join_timeline(&vec![false, false], &vec![1, 1]).is_empty());
}
