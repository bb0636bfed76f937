//! Statements over many rows at once: looking up full rows by timestamp in
//! chunks, and filling in grid coordinates in batches.

use vstd::prelude::*;

use crate::sql::{Bind, SqlQuery};

verus! {

/// Timestamps looked up per statement: well under any build's limit on
/// SQLite variables.
pub const LOOKUP_CHUNK: usize = 500;

/// `n` placeholders separated by ", ".
pub open spec fn placeholder_list(n: nat) -> Seq<char>
    decreases n,
{
    if n == 0 {
        Seq::empty()
    } else if n == 1 {
        "?"@
    } else {
        placeholder_list((n - 1) as nat) + ", ?"@
    }
}

/// Each value as an integer parameter.
pub open spec fn int_binds(vals: Seq<i64>) -> Seq<Bind> {
    Seq::new(vals.len(), |i: int| Bind::Int(vals[i]))
}

/// The text of the lookup of `n` timestamps.
pub open spec fn lookup_sql(n: nat) -> Seq<char> {
    "SELECT * FROM location WHERE timestamp IN ("@ + placeholder_list(n) + ")"@
}

/// The full rows at the given timestamps.
pub fn lookup_by_timestamps(timestamps: &[i64]) -> (q: SqlQuery)
    ensures
        q.sql@ == lookup_sql(timestamps@.len()),
        q.binds@ == int_binds(timestamps@),
{
    let mut q = SqlQuery::new(false);
    q.push("SELECT * FROM location WHERE timestamp IN (");
    let ghost head = q.sql@;
    let mut i: usize = 0;
    while i < timestamps.len()
        invariant
            i <= timestamps.len(),
            q.sql@ == head + placeholder_list(i as nat),
            q.binds@ == int_binds(timestamps@.take(i as int)),
        decreases timestamps.len() - i,
    {
        if i > 0 {
            q.push(", ");
        }
        q.push_bind(Bind::Int(timestamps[i]));
        proof {
            reveal_strlit("?");
            reveal_strlit(", ");
            reveal_strlit(", ?");
            if i == 0 {
                assert(q.sql@ =~= head + placeholder_list(1));
            } else {
                assert(q.sql@ =~= head + placeholder_list((i + 1) as nat));
            }
            assert(int_binds(timestamps@.take(i + 1)) =~= int_binds(timestamps@.take(i as int)).push(
                Bind::Int(timestamps@[i as int]),
            ));
        }
        i = i + 1;
    }
    q.push(")");
    assert(timestamps@.take(timestamps.len() as int) =~= timestamps@);
    q
}

/// The lookups of the given timestamps, LOOKUP_CHUNK at a time, in order:
/// lookup `k` holds the timestamps from `k * LOOKUP_CHUNK` up to the next
/// chunk or the end.
pub fn lookups_in_chunks(timestamps: &Vec<i64>) -> (qs: Vec<SqlQuery>)
    ensures
        qs.len() == (timestamps.len() + LOOKUP_CHUNK - 1) / LOOKUP_CHUNK as int,
        forall|k: int| 0 <= k < qs.len() ==> {
            let lo = k * LOOKUP_CHUNK;
            let hi = if lo + LOOKUP_CHUNK < timestamps.len() { lo + LOOKUP_CHUNK } else { timestamps.len() as int };
            &&& (#[trigger] qs@[k]).sql@ == lookup_sql((hi - lo) as nat)
            &&& qs@[k].binds@ == int_binds(timestamps@.subrange(lo, hi))
        },
{
    let n = timestamps.len();
    let mut qs: Vec<SqlQuery> = Vec::new();
    let mut lo: usize = 0;
    while lo < n
        invariant
            n == timestamps.len(),
            lo <= n,
            lo < n ==> lo == qs.len() * LOOKUP_CHUNK,
            lo <= qs.len() * LOOKUP_CHUNK,
            qs.len() == (lo + LOOKUP_CHUNK - 1) / LOOKUP_CHUNK as int,
            forall|k: int| 0 <= k < qs.len() ==> {
                let lo = k * LOOKUP_CHUNK;
                let hi = if lo + LOOKUP_CHUNK < n { lo + LOOKUP_CHUNK } else { n as int };
                &&& (#[trigger] qs@[k]).sql@ == lookup_sql((hi - lo) as nat)
                &&& qs@[k].binds@ == int_binds(timestamps@.subrange(lo, hi))
            },
        decreases n - lo,
    {
        let hi = if n - lo > LOOKUP_CHUNK { lo + LOOKUP_CHUNK } else { n };
        let q = lookup_by_timestamps(&timestamps.as_slice()[lo..hi]);
        qs.push(q);
        lo = hi;
    }
    qs
}

/// `n` groups of three placeholders, "(?, ?, ?)", separated by ", ".
pub open spec fn triple_list(n: nat) -> Seq<char>
    decreases n,
{
    if n == 0 {
        Seq::empty()
    } else if n == 1 {
        "(?, ?, ?)"@
    } else {
        triple_list((n - 1) as nat) + ", (?, ?, ?)"@
    }
}

/// The parameters of rows (id, gx, gy), row after row.
pub open spec fn row_binds(rows: Seq<(i64, i64, i64)>) -> Seq<Bind>
    decreases rows.len(),
{
    if rows.len() == 0 {
        Seq::empty()
    } else {
        row_binds(rows.drop_last()) + seq![
            Bind::Int(rows.last().0),
            Bind::Int(rows.last().1),
            Bind::Int(rows.last().2),
        ]
    }
}

/// End of the batch update of grid coordinates.
pub const GRID_UPDATE_TAIL: &'static str = ") UPDATE location SET gx = v.gx, gy = v.gy FROM v WHERE location.id = v.id";

/// The statement that sets the grid coordinates of a batch of rows, each
/// (id, gx, gy), in one round trip.
pub fn grid_backfill_update(rows: &Vec<(i64, i64, i64)>) -> (q: SqlQuery)
    ensures
        q.sql@ == "WITH v(id, gx, gy) AS (VALUES "@ + triple_list(rows.len() as nat) + GRID_UPDATE_TAIL@,
        q.binds@ == row_binds(rows@),
{
    let mut q = SqlQuery::new(false);
    q.push("WITH v(id, gx, gy) AS (");
    q.push("VALUES ");
    let ghost head = q.sql@;
    let mut i: usize = 0;
    proof {
        assert("WITH v(id, gx, gy) AS ("@ + "VALUES "@ =~= "WITH v(id, gx, gy) AS (VALUES "@) by {
            reveal_strlit("WITH v(id, gx, gy) AS (");
            reveal_strlit("VALUES ");
            reveal_strlit("WITH v(id, gx, gy) AS (VALUES ");
        }
        assert(rows@.take(0) =~= Seq::<(i64, i64, i64)>::empty());
    }
    while i < rows.len()
        invariant
            i <= rows.len(),
            q.sql@ == head + triple_list(i as nat),
            q.binds@ == row_binds(rows@.take(i as int)),
        decreases rows.len() - i,
    {
        let ghost before = q.sql@;
        if i > 0 {
            q.push(", ");
        }
        let (id, gx, gy) = rows[i];
        q.push("(");
        q.push_bind(Bind::Int(id));
        q.push(", ");
        q.push_bind(Bind::Int(gx));
        q.push(", ");
        q.push_bind(Bind::Int(gy));
        q.push(")");
        proof {
            reveal_strlit("(");
            reveal_strlit(", ");
            reveal_strlit("?");
            reveal_strlit(")");
            reveal_strlit("(?, ?, ?)");
            reveal_strlit(", (?, ?, ?)");
            if i == 0 {
                assert(q.sql@ =~= head + triple_list(1));
            } else {
                assert(q.sql@ =~= head + triple_list((i + 1) as nat));
            }
            assert(rows@.take(i + 1).drop_last() =~= rows@.take(i as int));
        }
        i = i + 1;
    }
    q.push(GRID_UPDATE_TAIL);
    assert(rows@.take(rows.len() as int) =~= rows@);
    q
}

} // verus!
