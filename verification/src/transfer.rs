//! Moving points between databases: which selected points to copy, the
//! statement that merges an imported database, and the report after it.

use vstd::prelude::*;

use crate::mounted::MountID;
use crate::text::{decimal_int, push_i64};

verus! {

/// The selected points (database, timestamp) that are not already in the
/// destination database, in order.
pub open spec fn points_to_copy_spec(selected: Seq<(MountID, i64)>, dest: MountID) -> Seq<(MountID, i64)> {
    selected.filter(outside(dest))
}

/// Whether a point is in another database than `dest`.
pub open spec fn outside(dest: MountID) -> spec_fn((MountID, i64)) -> bool {
    |p: (MountID, i64)| p.0 != dest
}

/// The selected points to copy into `dest`: those in another database.
pub fn points_to_copy(selected: &Vec<(MountID, i64)>, dest: MountID) -> (to_copy: Vec<(MountID, i64)>)
    ensures
        to_copy@ == points_to_copy_spec(selected@, dest),
        to_copy.len() <= selected.len(),
        forall|i: int| 0 <= i < to_copy.len() ==> (#[trigger] to_copy@[i]).0 != dest,
        forall|i: int| 0 <= i < selected.len() && (#[trigger] selected@[i]).0 != dest ==> to_copy@.contains(selected@[i]),
{
    let mut out: Vec<(MountID, i64)> = Vec::new();
    let mut i: usize = 0;
    while i < selected.len()
        invariant
            i <= selected.len(),
            out@ == points_to_copy_spec(selected@.take(i as int), dest),
        decreases selected.len() - i,
    {
        let p = selected[i];
        proof {
            assert(selected@.take(i + 1).drop_last() =~= selected@.take(i as int));
            reveal(Seq::filter);
        }
        if p.0 != dest {
            out.push(p);
        }
        i = i + 1;
    }
    assert(selected@.take(selected.len() as int) =~= selected@);
    proof {
        broadcast use vstd::seq_lib::group_filter_ensures;
        let pred = outside(dest);
        assert forall|i: int| 0 <= i < out.len() implies (#[trigger] out@[i]).0 != dest by {
            assert(pred(selected@.filter(pred)[i]));
        }
        assert forall|i: int| 0 <= i < selected.len() && (#[trigger] selected@[i]).0 != dest implies out@.contains(selected@[i]) by {
            assert(pred(selected@[i]));
        }
    }
    out
}

/// Start of the statement that merges an imported database, up to its
/// path.
pub const IMPORT_MERGE_HEAD: &'static str = "ATTACH '";

/// The rest of the merge statement: every location of the attached database
/// that is not already present (by timestamp), in time order, then every
/// pin, in one transaction.
pub const IMPORT_MERGE_TAIL: &'static str = "' as toMerge;
        BEGIN;

        INSERT OR IGNORE INTO location (
            timestamp,
            latitude, longitude, horizontal_accuracy,
            msl_altitude, ellipsoid_altitude,
            vertical_accuracy,
            story,
            speed, speed_accuracy,
            course, course_accuracy,
            is_simulated_by_software, is_produced_by_accessory,
            was_imported
        )
        SELECT
            timestamp,
            latitude, longitude, horizontal_accuracy,
            msl_altitude, ellipsoid_altitude,
            vertical_accuracy,
            story,
            speed, speed_accuracy,
            course, course_accuracy,
            is_simulated_by_software, is_produced_by_accessory,
            was_imported
        FROM toMerge.location
        ORDER BY timestamp;

        INSERT INTO pins (
            lng, lat, name, icon, lists, tags, boundary
        )
        SELECT 
            lng, lat, name, icon, lists, tags, boundary
        FROM toMerge.pins;

        COMMIT;
        DETACH toMerge;";

/// The statement that merges the database at `import_db_path` into the
/// main one.
pub fn import_merge_sql(import_db_path: &str) -> (sql: String)
    ensures
        sql@ == IMPORT_MERGE_HEAD@ + import_db_path@ + IMPORT_MERGE_TAIL@,
{
    let mut sql = String::from_str(IMPORT_MERGE_HEAD);
    sql.append(import_db_path);
    sql.append(IMPORT_MERGE_TAIL);
    sql
}

/// The report after an import: how many records were added (the growth of
/// the main database) and how many of the imported ones were duplicates.
pub fn import_success_message(n_to_import: i64, n_initial: i64, n_final: i64) -> (msg: String)
    requires
        i64::MIN <= n_final - n_initial <= i64::MAX,
        i64::MIN <= n_to_import - (n_final - n_initial) <= i64::MAX,
    ensures
        msg@ == "Successfully imported "@ + decimal_int(n_final - n_initial) + " records. ("@
            + decimal_int(n_to_import - (n_final - n_initial)) + " duplicates ignored.)"@,
{
    let n_imported = n_final - n_initial;
    let mut msg = String::from_str("Successfully imported ");
    push_i64(&mut msg, n_imported);
    msg.append(" records. (");
    push_i64(&mut msg, n_to_import - n_imported);
    msg.append(" duplicates ignored.)");
    msg
}

} // verus!
