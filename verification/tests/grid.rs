use stem::grid::{filter_level, index_for, index_name, level_shift, IndexUse};

#[test]
fn coords_and_shifts() {
    // 0.5 px at zoom L is exactly level L's cell: query shift 32 - 9 - L - 1
    for l in [8u8, 10, 12] {
        assert_eq!(level_shift(l), 22 - l as u32);
    }
    assert_eq!(index_for(level_shift(10)), IndexUse::Walk { level: 10 });
    assert_eq!(index_for(level_shift(9)), IndexUse::Walk { level: 10 });
    assert_eq!(index_for(level_shift(6)), IndexUse::Walk { level: 8 });
    assert_eq!(index_for(level_shift(13)), IndexUse::Filter { level: 8 });

    // wide rectangles take the coarsest level, narrow ones the finest
    assert_eq!(filter_level(u32::MAX, u32::MAX), 8);
    assert_eq!(filter_level(64 << level_shift(8), 32 << level_shift(8)), 8);
    assert_eq!(filter_level(8 << level_shift(8), 64 << level_shift(8)), 10);
    assert_eq!(filter_level(1 << level_shift(8), 64 << level_shift(8)), 12);
    assert_eq!(filter_level(0, 0), 12);
}

#[test]
fn index_names() {
    assert_eq!(index_name(8), "location_cell8");
    assert_eq!(index_name(12), "location_cell12");
}

#[test]
fn index_for_boundaries() {
    assert_eq!(index_for(14), IndexUse::Walk { level: 8 });
    assert_eq!(index_for(13), IndexUse::Walk { level: 10 });
    assert_eq!(index_for(11), IndexUse::Walk { level: 12 });
    assert_eq!(index_for(10), IndexUse::Walk { level: 12 });
    assert_eq!(index_for(9), IndexUse::Filter { level: 8 });
    assert_eq!(index_for(0), IndexUse::Filter { level: 8 });
}

#[test]
fn filter_level_thresholds() {
    // 15 cells across plus one reaches the 16 needed
    assert_eq!(filter_level(15 << 14, 15 << 14), 8);
    assert_eq!(filter_level((15 << 14) - 1, u32::MAX), 10);
}
