use stem::query::{
    spatial_route, temporal_route, temporal_view_limit, DataStream, Filter, FilterOp, FilteredQuery,
    GridRect, QueryBounds, Route, SpatialCell, TimeHint, TEMPORAL_COUNT_CAP,
};
use stem::sql::{Bind, Real};

fn empty_query() -> FilteredQuery {
    FilteredQuery {
        start: None,
        end: None,
        filters: None,
        bounds: None,
        get_adjacent: false,
        limit: None,
        decimation_threshold: None,
        spatial_cell: None,
        field1: None,
        field2: None,
        hard_cap: None,
    }
}

fn as_real(v: f64) -> Real {
    Real { bits: v.to_bits() }
}

fn bounds(sw_lng: f64, ne_lng: f64) -> QueryBounds {
    QueryBounds {
        sw_lat: as_real(10.0),
        ne_lat: as_real(20.0),
        sw_lng: as_real(sw_lng),
        ne_lng: as_real(ne_lng),
        alias_positive: sw_lng < -180.,
        alias_negative: ne_lng > 180.,
        sw_lng_east: as_real(sw_lng + 360.),
        ne_lng_east: as_real(ne_lng + 360.),
        sw_lng_west: as_real(sw_lng - 360.),
        ne_lng_west: as_real(ne_lng - 360.),
        y0: 100,
        y1: 200,
        x_sw: 10,
        x_ne: 20,
        x_sw_east: 30,
        x_ne_west: 40,
    }
}

#[test]
fn count_query_plain() {
    let q = empty_query().count_query(false, 1, TimeHint::UseIndex);
    assert_eq!(q.sql, "SELECT count(*) FROM location WHERE 1");
    assert!(q.binds.is_empty());
    let q = empty_query().count_query(true, 10, TimeHint::UseIndex);
    assert_eq!(q.sql, "EXPLAIN QUERY PLAN SELECT count(*) FROM location WHERE 1 AND id % ? == 0 ");
    assert_eq!(q.binds, vec![Bind::Int(10)]);
}

#[test]
fn time_hints() {
    let mut f = empty_query();
    f.start = Some(100);
    f.end = Some(200);
    let q = f.count_query(false, 1, TimeHint::UseIndex);
    assert_eq!(q.sql, "SELECT count(*) FROM location WHERE 1 AND timestamp >= ? AND timestamp < ?");
    let q = f.count_query(false, 1, TimeHint::AvoidIndex);
    assert_eq!(
        q.sql,
        "SELECT count(*) FROM location WHERE 1 AND likelihood(timestamp >= ?, 1.0) AND likelihood(timestamp < ?, 1.0)"
    );
    assert_eq!(q.binds, vec![Bind::Int(100), Bind::Int(200)]);
}

#[test]
fn filters_are_inverted() {
    let mut f = empty_query();
    f.filters = Some(vec![
        Filter { datastream: DataStream::Speed, op: FilterOp::GreaterThan, threshold: as_real(3.0), enabled: true },
        Filter { datastream: DataStream::Lat, op: FilterOp::IsEq, threshold: as_real(1.0), enabled: false },
        Filter { datastream: DataStream::Altitude, op: FilterOp::IsEq, threshold: as_real(5.0), enabled: true },
    ]);
    let q = f.count_query(false, 1, TimeHint::UseIndex);
    assert_eq!(
        q.sql,
        "SELECT count(*) FROM location WHERE 1\n                AND speed <= ?\n                AND msl_altitude != ?"
    );
    assert_eq!(q.binds, vec![Bind::Real(as_real(3.0)), Bind::Real(as_real(5.0))]);
}

#[test]
fn bounds_with_aliases() {
    let mut f = empty_query();
    f.bounds = Some(bounds(-10.0, 10.0));
    let q = f.count_query(false, 1, TimeHint::UseIndex);
    assert_eq!(
        q.sql,
        "SELECT count(*) FROM location WHERE 1 AND latitude >= ?\n                AND latitude <= ?\n                AND ((longitude >= ? AND longitude <= ?))"
    );
    assert_eq!(q.binds.len(), 4);
    f.bounds = Some(bounds(-190.0, 10.0));
    let q = f.count_query(false, 1, TimeHint::UseIndex);
    assert_eq!(
        q.sql,
        "SELECT count(*) FROM location WHERE 1 AND latitude >= ?\n                AND latitude <= ?\n                AND ((longitude >= ? AND longitude <= ?)\n                   OR (longitude >= ? AND longitude <= ?))"
    );
    assert_eq!(q.binds[4], Bind::Real(as_real(170.0)));
    f.bounds = Some(bounds(-190.0, 190.0));
    let q = f.count_query(false, 1, TimeHint::UseIndex);
    assert_eq!(q.sql, "SELECT count(*) FROM location WHERE 1 AND latitude >= ?\n                AND latitude <= ?");
    assert_eq!(q.binds, vec![Bind::Real(as_real(10.0)), Bind::Real(as_real(20.0))]);
}

#[test]
fn select_list_fields() {
    let mut f = empty_query();
    assert_eq!(f.select_list(""), "id, timestamp, latitude, longitude, NULL AS field1, NULL AS field2");
    f.field1 = Some("speed");
    assert_eq!(
        f.select_list("l."),
        "l.id, l.timestamp, l.latitude, l.longitude, CAST(l.speed AS REAL) AS field1, NULL AS field2"
    );
}

#[test]
fn bucketed_query_with_cap() {
    let mut f = empty_query();
    f.hard_cap = Some(500);
    let q = f.bucketed_query(false, 12, TimeHint::UseIndex);
    assert_eq!(
        q.sql,
        "SELECT id, timestamp, latitude, longitude, NULL AS field1, NULL AS field2, max(timestamp) FROM location WHERE 1 GROUP BY gy >> 12, gx >> 12 ORDER BY max(timestamp) DESC LIMIT ?"
    );
    assert_eq!(q.binds, vec![Bind::Int(500)]);
}

#[test]
fn adjacent_queries() {
    let f = empty_query();
    let q = f.adjacent_before_query(false, 3, 77);
    assert!(q.sql.ends_with(" AND id % ? == 0  AND timestamp < ? ORDER BY timestamp DESC LIMIT 1"));
    assert_eq!(q.binds, vec![Bind::Int(3), Bind::Int(77)]);
    let q = f.adjacent_after_query(false, 1, 77);
    assert!(q.sql.ends_with("WHERE 1 AND timestamp > ? ORDER BY timestamp ASC LIMIT 1"));
}

#[test]
fn first_n_and_bounds_queries() {
    let f = empty_query();
    let q = f.first_n_query(false);
    assert_eq!(q.sql, "SELECT * FROM location WHERE 1 ORDER BY timestamp ASC LIMIT ?");
    assert_eq!(q.binds, vec![Bind::Int(10000)]);
    let q = f.get_bounds_query(false);
    assert!(q.sql.starts_with("SELECT MIN(longitude), MIN(latitude),"));
}

#[test]
fn decimation_factor() {
    let mut f = empty_query();
    f.decimation_threshold = Some(100);
    assert_eq!(f.decim_from_count(0), (1, false));
    assert_eq!(f.decim_from_count(100), (1, false));
    assert_eq!(f.decim_from_count(101), (2, false));
    assert_eq!(f.decim_from_count(1000), (10, false));
    f.hard_cap = Some(10);
    assert_eq!(f.decim_from_count(1000), (100, true));
    assert_eq!(f.decim_from_count(10), (1, false));
    f.hard_cap = Some(0);
    assert_eq!(f.decim_from_count(5), (5, true));
    f.hard_cap = Some(1000);
    assert_eq!(f.decim_from_count(1000), (10, false));
    assert_eq!(empty_query().threshold(), 10000);
}

#[test]
fn bucketing_trigger_and_over() {
    let mut f = empty_query();
    assert_eq!(f.bucketing_trigger(), 10000);
    f.hard_cap = Some(50);
    assert_eq!(f.bucketing_trigger(), 50);
    assert!(f.is_over_trigger(Some(51)));
    assert!(!f.is_over_trigger(Some(50)));
    assert!(f.is_over_trigger(None));
    let q = f.over_trigger_query(TimeHint::UseIndex);
    assert_eq!(q.sql, "SELECT count(*) FROM (SELECT 1 FROM location WHERE 1 LIMIT ?)");
    assert_eq!(q.binds, vec![Bind::Int(51)]);
}

#[test]
fn time_range_rows() {
    let mut f = empty_query();
    assert!(f.time_range_rows_query(10).is_none());
    f.end = Some(5);
    let q = f.time_range_rows_query(10).unwrap();
    assert_eq!(q.sql, "SELECT count(*) FROM (SELECT 1 FROM location WHERE 1 AND timestamp < ? LIMIT ?)");
    assert_eq!(q.binds, vec![Bind::Int(5), Bind::Int(11)]);
    f.spatial_cell = Some(SpatialCell { grid_shift: 12 });
    assert_eq!(f.route_cap(), 300_000);
}

#[test]
fn routes() {
    assert_eq!(spatial_route(Some(300_000)), (Route::Time, TimeHint::UseIndex));
    assert_eq!(spatial_route(Some(300_001)), (Route::Grid, TimeHint::AvoidIndex));
    assert_eq!(spatial_route(None), (Route::Grid, TimeHint::AvoidIndex));
    assert_eq!(temporal_view_limit(None), TEMPORAL_COUNT_CAP as i64);
    assert_eq!(temporal_view_limit(Some(5)), 5);
    assert_eq!(temporal_route(Some(100), Some(99)), Route::Grid);
    assert_eq!(temporal_route(Some(100), Some(100)), Route::Time);
    // both capped with no range: grid
    assert_eq!(temporal_route(None, None), Route::Grid);
    assert_eq!(temporal_route(None, Some(5)), Route::Grid);
    // both capped with a range: time
    assert_eq!(temporal_route(Some(TEMPORAL_COUNT_CAP + 1), None), Route::Time);
}

#[test]
fn grid_rects_cover_aliases() {
    let mut f = empty_query();
    assert_eq!(f.grid_rects(), vec![GridRect { x0: 0, x1: u32::MAX, y0: 0, y1: u32::MAX }]);
    f.bounds = Some(bounds(-10.0, 10.0));
    assert_eq!(f.grid_rects(), vec![GridRect { x0: 10, x1: 20, y0: 100, y1: 200 }]);
    f.bounds = Some(bounds(-190.0, 10.0));
    assert_eq!(
        f.grid_rects(),
        vec![GridRect { x0: 10, x1: 20, y0: 100, y1: 200 }, GridRect { x0: 30, x1: u32::MAX, y0: 100, y1: 200 }]
    );
    f.bounds = Some(bounds(-10.0, 190.0));
    assert_eq!(
        f.grid_rects(),
        vec![GridRect { x0: 10, x1: 20, y0: 100, y1: 200 }, GridRect { x0: 0, x1: 40, y0: 100, y1: 200 }]
    );
    f.bounds = Some(bounds(-190.0, 190.0));
    assert_eq!(f.grid_rects(), vec![GridRect { x0: 0, x1: u32::MAX, y0: 0, y1: u32::MAX }]);
}

#[test]
fn grid_filter_query_text() {
    let f = empty_query();
    // 64 x 64 cells at level 8 spans enough: level 8, shift 14
    let rect = GridRect { x0: 0, x1: 64 << 14, y0: 1 << 14, y1: 65 << 14 };
    let q = f.grid_filter_query(&rect, "count(*)", "");
    let expected = format!(
        "\nWITH RECURSIVE r(cy) AS (\n  SELECT 1\n  UNION ALL\n  SELECT cy + 1 FROM r WHERE cy < 65\n)\nSELECT count(*)\nFROM r\nJOIN location INDEXED BY location_cell8\n  ON cy8 = r.cy AND cx8 BETWEEN 0 AND 64\nWHERE (\n  -- cells strictly inside the rectangle pass on the index alone\n  (cy8 BETWEEN 2 AND 64 AND\n   cx8 BETWEEN 1 AND 63)\n  -- edge cells check the row's exact grid coordinates\n  OR (gy BETWEEN {} AND {} AND gx BETWEEN 0 AND {})\n)",
        1u32 << 14,
        65u32 << 14,
        64u32 << 14
    );
    assert_eq!(q.sql, expected);
    let q = f.count_grid_query(&rect, Some(9), false);
    assert!(q.sql.starts_with("SELECT count(*) FROM (\nWITH RECURSIVE"));
    assert!(q.sql.ends_with(" LIMIT ?)"));
    assert_eq!(q.binds, vec![Bind::Int(10)]);
    // a single-cell rectangle has an empty interior
    let tiny = GridRect { x0: 0, x1: 0, y0: 0, y1: 0 };
    let q = f.grid_filter_query(&tiny, "1", "");
    assert!(q.sql.contains("cy12 BETWEEN 1 AND -1"));
}

#[test]
fn grid_bucketed_query_forms() {
    let mut f = empty_query();
    let rect = GridRect { x0: 0, x1: 1 << 20, y0: 0, y1: 1 << 20 };
    let q = f.grid_bucketed_query(&rect, 13);
    assert!(q.sql.contains("INDEXED BY location_cell10"));
    assert!(q.sql.contains("(w.pos >> 32) >> 1 AS qy"));
    assert!(q.sql.ends_with("JOIN location l ON l.timestamp = g.ts"));
    f.hard_cap = Some(7);
    let q = f.grid_bucketed_query(&rect, 5);
    assert!(q.sql.contains("INDEXED BY location_cell8"));
    assert!(q.sql.contains("GROUP BY gy >> 5, gx >> 5"));
    assert!(q.sql.ends_with("JOIN location l ON l.id = g.id ORDER BY l.timestamp DESC LIMIT ?"));
    assert_eq!(q.binds, vec![Bind::Int(7)]);
}

#[test]
fn decimated_sample_lands_under_the_target() {
    for (threshold, hard_cap, count) in [
        (10_000u64, None, 25_001i64),
        (10_000, Some(3_000u64), 25_001),
        (10_000, Some(20_000), 9_999),
        (7, Some(0), 100),
        (1, None, 1),
    ] {
        let mut q = empty_query();
        q.decimation_threshold = Some(threshold);
        q.hard_cap = hard_cap;
        let (d, capped) = q.decim_from_count(count);
        let target = match hard_cap {
            Some(c) if (c.max(1) as u64) < threshold => c.max(1) as i64,
            _ => threshold as i64,
        };
        let n = count.max(1);
        assert!(d >= 1 && n <= d * target && (d - 1) * target < n, "{threshold} {hard_cap:?} {count}");
        assert_eq!(capped, target < threshold as i64 && d > (n - 1) / threshold as i64 + 1);
    }
}

#[test]
fn grid_rects_are_one_or_two_ordered_rects() {
    for (sw, ne) in [(-10.0, 10.0), (-190.0, 10.0), (170.0, 190.0), (-190.0, 190.0)] {
        let mut q = empty_query();
        q.bounds = Some(bounds(sw, ne));
        let rects = q.grid_rects();
        assert!(!rects.is_empty() && rects.len() <= 2);
        assert!(rects.iter().all(|r| r.x0 <= r.x1 && r.y0 <= r.y1));
    }
    assert_eq!(empty_query().grid_rects(), vec![GridRect { x0: 0, x1: u32::MAX, y0: 0, y1: u32::MAX }]);
}

#[test]
fn bounded_queries_add_decimation_and_filters() {
    let mut f = empty_query();
    f.start = Some(100);
    let q = f.bounded_decim_query(false, 3, TimeHint::UseIndex);
    assert!(q.sql.starts_with("SELECT "));
    assert!(q.sql.contains(" FROM location WHERE 1 AND id % ? == 0 "));
    assert_eq!(q.binds[0], Bind::Int(3));
    assert!(q.binds.contains(&Bind::Int(100)));
    let rect = GridRect { x0: 0, x1: 1 << 20, y0: 0, y1: 1 << 20 };
    let q = f.bounded_grid_query(&rect, 7);
    assert!(q.sql.contains("AND id % ? == 0 "));
    assert_eq!(q.binds[0], Bind::Int(7));
}

#[test]
fn bucketed_result_is_capped_at_the_hard_cap() {
    assert!(stem::query::bucketed_memory_capped(Some(10), 10));
    assert!(!stem::query::bucketed_memory_capped(Some(10), 9));
    assert!(!stem::query::bucketed_memory_capped(None, usize::MAX));
}
