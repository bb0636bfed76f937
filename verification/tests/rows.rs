use stem::rows::{grid_backfill_update, lookup_by_timestamps, lookups_in_chunks};
use stem::sql::Bind;

#[test]
fn lookup_lists_one_placeholder_per_timestamp() {
    let q = lookup_by_timestamps(&[5, 7, 9]);
    assert_eq!(q.sql, "SELECT * FROM location WHERE timestamp IN (?, ?, ?)");
    assert_eq!(q.binds, vec![Bind::Int(5), Bind::Int(7), Bind::Int(9)]);
}

#[test]
fn lookups_come_in_chunks_of_500() {
    let ts: Vec<i64> = (0..1201).collect();
    let qs = lookups_in_chunks(&ts);
    assert_eq!(qs.len(), 3);
    assert_eq!(qs[0].binds.len(), 500);
    assert_eq!(qs[1].binds.len(), 500);
    assert_eq!(qs[2].binds, vec![Bind::Int(1000 + 0), Bind::Int(1001)].into_iter().chain((1002..1201).map(Bind::Int)).collect::<Vec<_>>());
    assert_eq!(qs[1].binds[0], Bind::Int(500));
    assert!(lookups_in_chunks(&vec![]).is_empty());
    assert_eq!(lookups_in_chunks(&(0..500).collect()).len(), 1);
}

#[test]
fn backfill_update_batches_rows() {
    let q = grid_backfill_update(&vec![(1, 10, 20), (2, 11, 21)]);
    assert_eq!(
        q.sql,
        "WITH v(id, gx, gy) AS (VALUES (?, ?, ?), (?, ?, ?)) UPDATE location SET gx = v.gx, gy = v.gy FROM v WHERE location.id = v.id"
    );
    assert_eq!(
        q.binds,
        vec![Bind::Int(1), Bind::Int(10), Bind::Int(20), Bind::Int(2), Bind::Int(11), Bind::Int(21)]
    );
}
