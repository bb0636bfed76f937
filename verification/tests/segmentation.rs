use itertools::Itertools;
use stem::segmentation::{compute_stat, split_segments, threshold_segmentation};

#[test]
fn pair_iter_test() {
    let arr = (1..4).collect::<Vec<_>>();
    let mut pair_iter = arr.iter().tuple_windows();
    assert_eq!(pair_iter.next(), Some((&1, &2)));
    assert_eq!(pair_iter.next(), Some((&2, &3)));
    assert_eq!(pair_iter.next(), None);
}

#[test]
fn consecutive_pairs_of_short_inputs() {
    let empty: Vec<u32> = vec![];
    assert!(compute_stat(&empty, |(a, b): (u32, u32)| a + b).is_empty());
    assert!(compute_stat(&vec![7u32], |(a, b): (u32, u32)| a + b).is_empty());
    assert_eq!(compute_stat(&vec![1u32, 2, 3], |(a, b): (u32, u32)| (a, b)), vec![(1, 2), (2, 3)]);
}

/// The example of the segmentation's documentation: values 0 1 0 0 1 1 0
/// on the pairs, threshold 0.5.
#[test]
fn segmentation_doc_example() {
    let records: Vec<usize> = (0..8).collect();
    let values = [0.0, 1.0, 0.0, 0.0, 1.0, 1.0, 0.0];
    let (above, below) = threshold_segmentation(&records, |&(a, _b): &(usize, usize)| values[a] > 0.5);
    assert_eq!(above, vec![vec![1, 2], vec![4, 5, 6]]);
    assert_eq!(below, vec![vec![0, 1], vec![2, 3, 4], vec![6, 7]]);
}

/// The speed example: stopped, moving, moving, stopped, moving.
#[test]
fn speed_segmentation_test() {
    let recs: Vec<usize> = (0..6).collect();
    let flags = vec![false, true, true, false, true];
    let (above, below) = split_segments(&recs, &flags);
    assert_eq!(above, vec![vec![1, 2, 3], vec![4, 5]]);
    assert_eq!(below, vec![vec![0, 1], vec![3, 4]]);
}

#[test]
fn segmentation_of_short_tracks() {
    let none: Vec<u8> = vec![];
    assert_eq!(split_segments(&none, &vec![]), (vec![], vec![]));
    assert_eq!(split_segments(&vec![3u8], &vec![]), (vec![], vec![]));
    assert_eq!(split_segments(&vec![3u8, 4], &vec![true]), (vec![vec![3, 4]], vec![]));
    assert_eq!(split_segments(&vec![3u8, 4, 5], &vec![false, false]), (vec![], vec![vec![3, 4, 5]]));
}

#[test]
fn stat_test() {
    // longitudes: 0, 1, 8, 27; latitudes: 0, 2, 6, 8
    let recs: Vec<(f64, f64)> = (0..4).map(|i| ((i * i * i) as f64, (i as f64) * 2.)).collect();
    // difference between cubes, multiplied by the current latitude
    let stat_vals = compute_stat(&recs, |(prev, curr): ((f64, f64), (f64, f64))| (curr.0 - prev.0) * curr.1);
    assert_eq!(stat_vals, vec![2.0, 28.0, 114.0]);
    let expected_sum = 144.;
    let sum: f64 = stat_vals.iter().sum();
    assert_eq!(expected_sum, sum);
}
