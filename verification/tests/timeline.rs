use stem::segmentation::{dwell_run_colors, timeline_periods, visibility_runs};

#[test]
fn periods_of_dwells_and_movements() {
    // records 0..6; the mark of each pair is its first record's
    let marks = vec![true, true, false, false, false, true, true];
    assert_eq!(timeline_periods(&marks), vec![(true, 0, 2), (false, 2, 5), (true, 5, 6)]);
}

#[test]
fn short_tracks_have_no_periods() {
    assert!(timeline_periods(&vec![]).is_empty());
    assert!(timeline_periods(&vec![true]).is_empty());
    assert_eq!(timeline_periods(&vec![false, true]), vec![(false, 0, 1)]);
}

#[test]
fn visibility_runs_group_equal_flags() {
    assert_eq!(visibility_runs(&vec![true, true, false, true]), vec![(true, 2), (false, 1), (true, 1)]);
    assert!(visibility_runs(&vec![]).is_empty());
}

#[test]
fn dwell_runs_cycle_through_six_colors() {
    let mut marks = vec![];
    for _ in 0..7 {
        marks.push(true);
        marks.push(true);
        marks.push(false);
    }
    let colors = dwell_run_colors(&marks);
    let dwell_slots: Vec<u8> = colors.iter().step_by(3).map(|c| c.unwrap()).collect();
    assert_eq!(dwell_slots, vec![0, 1, 2, 3, 4, 5, 0]);
    assert_eq!(colors[1], colors[0]);
    assert_eq!(colors[2], None);
    assert_eq!(dwell_run_colors(&vec![false, true]), vec![None, Some(0)]);
}
