use stem::map_data::{
    cmap_keep_flags, decimation_threshold, seg_visible, should_update, spatial_cell_for, tile_plan, DerivedParams,
    MapQueryStats,
};
use stem::query::SpatialCell;
use stem::memory::LastMapQuery;

#[test]
fn segments_need_one_or_both_ends_in_bounds() {
    assert!(seg_visible(true, false, false));
    assert!(!seg_visible(true, false, true));
    assert!(seg_visible(true, true, true));
    assert!(!seg_visible(false, false, false));
}

#[test]
fn tile_plan_points_and_lines() {
    let all = DerivedParams { make_points: true, make_lines: true, lines_within_bounds: false };
    let plan = tile_plan(&vec![true, false, false, true], &all);
    assert_eq!(plan, vec![(true, true), (false, false), (false, true), (true, false)]);
    let lines = DerivedParams { make_points: false, make_lines: true, lines_within_bounds: true };
    let plan = tile_plan(&vec![true, true, false], &lines);
    assert_eq!(plan, vec![(false, true), (false, false), (false, false)]);
    assert!(tile_plan(&vec![], &all).is_empty());
    assert!(lines.seg_visible(true, true));
    assert!(!lines.seg_visible(true, false));
}

#[test]
fn query_stats_add_up_across_mounts() {
    let mut s = MapQueryStats::new(500_000);
    s.add_mount_query(100, 20, false, false);
    s.add_mount_query(50, 5, true, false);
    s.add_tileset(7, 1000);
    s.add_tileset(3, 24);
    assert_eq!(s.n_points, 150);
    assert_eq!(s.duration_ms, 25);
    assert!(s.decimated);
    assert!(!s.memory_capped);
    assert_eq!(s.n_segs, 10);
    assert_eq!(s.last_query(), LastMapQuery { n_points: 150, tileset_bytes: 1024 });
    assert_eq!(s.hard_cap, 500_000);
}

#[test]
fn map_rebuilds_only_when_it_matters() {
    // no frontend state yet: never, even when forced
    assert!(!should_update(true, None, Some(true), Some(true)));
    // forced
    assert!(should_update(true, Some(false), None, Some(false)));
    // not on the map
    assert!(!should_update(false, Some(false), Some(true), Some(true)));
    // on the map: new visible data or a changed state (or none before)
    assert!(should_update(false, Some(true), Some(true), Some(false)));
    assert!(should_update(false, Some(true), None, None));
    assert!(!should_update(false, Some(true), Some(false), Some(false)));
    assert!(!should_update(false, Some(true), None, Some(false)));
}

#[test]
fn colormap_keeps_visible_points_and_segment_starts() {
    assert_eq!(cmap_keep_flags(&vec![false, true, false, false], false), vec![true, true, false, false]);
    assert_eq!(cmap_keep_flags(&vec![false, true, false], true), vec![false, true, false]);
}

#[test]
fn decimation_threshold_by_mode_and_override() {
    assert_eq!(decimation_threshold(None, false, 12_345), 12_345);
    assert_eq!(decimation_threshold(None, true, 12_345), 10_000);
    assert_eq!(decimation_threshold(Some("777"), true, 12_345), 777);
    assert_eq!(decimation_threshold(Some("lots"), false, 5), 5);
}

#[test]
fn spatial_cell_only_for_plain_spatial_maps() {
    assert_eq!(spatial_cell_for(true, false, false, false, 12), Some(SpatialCell { grid_shift: 12 }));
    assert_eq!(spatial_cell_for(false, false, false, false, 12), None);
    assert_eq!(spatial_cell_for(true, true, false, false, 12), None);
    assert_eq!(spatial_cell_for(true, false, true, false, 12), None);
    assert_eq!(spatial_cell_for(true, false, false, true, 12), None);
}
