//! The map query: which points a map update reads, as SQL over the
//! `location` table, and the arithmetic that decides how it is decimated.
//!
//! Times are unix seconds. Latitudes, longitudes and filter thresholds are
//! f64 values that the library passes through as `Real` parameters; the
//! bounds arrive with the comparisons and the +/-360 degree aliases already
//! evaluated (`QueryBounds`).

use vstd::prelude::*;

use crate::grid::{
    filter_level, filter_level_spec, index_for, index_for_spec, index_name, level_shift,
    level_shift_spec, IndexUse,
};
use crate::sql::{Bind, Real, SqlQuery};
use crate::text::{contains_text, decimal, decimal_int, lemma_occurs_between};

verus! {

/// The datastreams a filter can test.
#[derive(Debug, Clone, Copy, PartialEq, Eq, Structural)]
pub enum DataStream {
    Lat,
    Lon,
    HorizAccuracy,
    Altitude,
    VertAccuracy,
    Story,
    Speed,
    SpeedAccuracy,
    Course,
    CourseAccuracy,
}

/// The comparison of a filter. A filter hides the points where it holds.
#[derive(Debug, Clone, Copy, PartialEq, Eq, Structural)]
pub enum FilterOp {
    GreaterThan,
    LessThan,
    GreatherThanOrEq,
    LessThanOrEq,
    IsEq,
    IsNotEq,
}

/// A user filter: hides points whose `datastream` compares `op` to
/// `threshold`, when enabled.
#[derive(Debug, Clone, Copy, PartialEq, Eq, Structural)]
pub struct Filter {
    pub datastream: DataStream,
    pub op: FilterOp,
    pub threshold: Real,
    pub enabled: bool,
}

/// Whether the planner should use the timestamp index for the time range.
#[derive(Debug, Clone, Copy, PartialEq, Eq, Structural)]
pub enum TimeHint {
    AvoidIndex,
    UseIndex,
}

/// Which index serves the map query.
#[derive(Debug, Clone, Copy, PartialEq, Eq, Structural)]
pub enum Route {
    /// Timestamp index: rows in the time range, then bounds or cells.
    Time,
    /// Grid level indexes.
    Grid,
}

/// A spatial decimation cell: grid cells gx/gy >> grid_shift.
#[derive(Debug, Clone, Copy, PartialEq, Eq, Structural)]
pub struct SpatialCell {
    pub grid_shift: u32,
}

/// Inclusive rectangle in grid units.
#[derive(Debug, Clone, Copy, PartialEq, Eq, Structural)]
pub struct GridRect {
    pub x0: u32,
    pub x1: u32,
    pub y0: u32,
    pub y1: u32,
}

/// The view bounds of a query. The bounds can spill past the antimeridian
/// onto an aliased copy of the world: `alias_positive` when the south-west
/// longitude is below -180, `alias_negative` when the north-east longitude
/// is above 180. The `_east` longitudes are the bounds shifted by +360, the
/// `_west` ones by -360. The grid fields are the grid coordinates of the
/// bounds: `y0`/`y1` of the north/south latitude, `x_sw` of the south-west
/// longitude clamped to [-180, 180], `x_ne` of the north-east one (u32::MAX
/// at 180 and beyond), `x_sw_east` of the south-west longitude + 360 and
/// `x_ne_west` of the north-east longitude - 360 (u32::MAX at 180 and
/// beyond).
#[derive(Debug, Clone, Copy, PartialEq, Eq, Structural)]
pub struct QueryBounds {
    pub sw_lat: Real,
    pub ne_lat: Real,
    pub sw_lng: Real,
    pub ne_lng: Real,
    pub alias_positive: bool,
    pub alias_negative: bool,
    pub sw_lng_east: Real,
    pub ne_lng_east: Real,
    pub sw_lng_west: Real,
    pub ne_lng_west: Real,
    pub y0: u32,
    pub y1: u32,
    pub x_sw: u32,
    pub x_ne: u32,
    pub x_sw_east: u32,
    pub x_ne_west: u32,
}

// ---------- filters ----------

/// The SQL comparison that keeps a point, the negation of the filter's op.
pub open spec fn op_sql_spec(op: FilterOp) -> Seq<char> {
    match op {
        FilterOp::GreaterThan => "<="@,
        FilterOp::LessThan => ">="@,
        FilterOp::GreatherThanOrEq => "<"@,
        FilterOp::LessThanOrEq => ">"@,
        FilterOp::IsEq => "!="@,
        FilterOp::IsNotEq => "=="@,
    }
}

/// The column holding a datastream.
pub open spec fn column_spec(ds: DataStream) -> Seq<char> {
    match ds {
        DataStream::Lat => "latitude"@,
        DataStream::Lon => "longitude"@,
        DataStream::HorizAccuracy => "horizontal_accuracy"@,
        DataStream::Altitude => "msl_altitude"@,
        DataStream::VertAccuracy => "vertical_accuracy"@,
        DataStream::Story => "story"@,
        DataStream::Speed => "speed"@,
        DataStream::SpeedAccuracy => "speed_accuracy"@,
        DataStream::Course => "course"@,
        DataStream::CourseAccuracy => "course_accuracy"@,
    }
}

/// Inverts the condition, since filters hide data where true.
pub fn op_to_sql(filter: &Filter) -> (r: &'static str)
    ensures
        r@ == op_sql_spec(filter.op),
{
    match filter.op {
        FilterOp::GreaterThan => "<=",
        FilterOp::LessThan => ">=",
        FilterOp::GreatherThanOrEq => "<",
        FilterOp::LessThanOrEq => ">",
        FilterOp::IsEq => "!=",
        FilterOp::IsNotEq => "==",
    }
}

/// The column name of the filter's datastream.
pub fn stream_column_name(filter: &Filter) -> (r: &'static str)
    ensures
        r@ == column_spec(filter.datastream),
{
    match filter.datastream {
        DataStream::Lat => "latitude",
        DataStream::Lon => "longitude",
        DataStream::HorizAccuracy => "horizontal_accuracy",
        DataStream::Altitude => "msl_altitude",
        DataStream::VertAccuracy => "vertical_accuracy",
        DataStream::Story => "story",
        DataStream::Speed => "speed",
        DataStream::SpeedAccuracy => "speed_accuracy",
        DataStream::Course => "course",
        DataStream::CourseAccuracy => "course_accuracy",
    }
}

/// The condition one filter adds: nothing when disabled.
pub open spec fn filter_sql(f: Filter) -> Seq<char> {
    if f.enabled {
        "\n                AND "@ + column_spec(f.datastream) + " "@ + op_sql_spec(f.op) + " "@ + "?"@
    } else {
        Seq::empty()
    }
}

pub open spec fn filter_binds(f: Filter) -> Seq<Bind> {
    if f.enabled { seq![Bind::Real(f.threshold)] } else { Seq::empty() }
}

/// The conditions of the filters, in order.
pub open spec fn filters_sql(fs: Seq<Filter>) -> Seq<char>
    decreases fs.len(),
{
    if fs.len() == 0 { Seq::empty() } else { filters_sql(fs.drop_last()) + filter_sql(fs.last()) }
}

pub open spec fn filters_binds(fs: Seq<Filter>) -> Seq<Bind>
    decreases fs.len(),
{
    if fs.len() == 0 { Seq::empty() } else { filters_binds(fs.drop_last()) + filter_binds(fs.last()) }
}

pub open spec fn opt_filters_sql(fs: Option<Vec<Filter>>) -> Seq<char> {
    match fs { Some(v) => filters_sql(v@), None => Seq::empty() }
}

pub open spec fn opt_filters_binds(fs: Option<Vec<Filter>>) -> Seq<Bind> {
    match fs { Some(v) => filters_binds(v@), None => Seq::empty() }
}

/// Adds the enabled filters' conditions. The WHERE clause must already have
/// a condition.
pub fn add_filters_to_query(filters: &Option<Vec<Filter>>, q: &mut SqlQuery)
    ensures
        final(q).sql@ == old(q).sql@ + opt_filters_sql(*filters),
        final(q).binds@ == old(q).binds@ + opt_filters_binds(*filters),
{
    if let Some(fs) = filters {
        let n = fs.len();
        let mut i: usize = 0;
        while i < n
            invariant
                n == fs@.len(),
                i <= n,
                q.sql@ == old(q).sql@ + filters_sql(fs@.take(i as int)),
                q.binds@ == old(q).binds@ + filters_binds(fs@.take(i as int)),
            decreases n - i,
        {
            let f = &fs[i];
            assert(fs@.take(i + 1).drop_last() =~= fs@.take(i as int));
            if f.enabled {
                q.push("\n                AND ");
                q.push(stream_column_name(f));
                q.push(" ");
                q.push(op_to_sql(f));
                q.push(" ");
                q.push_bind(Bind::Real(f.threshold));
            }
            i = i + 1;
        }
        assert(fs@.take(n as int) =~= fs@);
    } else {
        assert(q.sql@ =~= old(q).sql@ + Seq::<char>::empty());
        assert(q.binds@ =~= old(q).binds@ + Seq::<Bind>::empty());
    }
}

// ---------- time range ----------

/// A time condition: a bare comparison that the planner serves from the
/// timestamp index, or one wrapped in likelihood(X, 1.0) so the planner
/// treats it as unselective and keeps off that index.
pub open spec fn time_sql(t: Option<i64>, is_start: bool, hint: TimeHint) -> Seq<char> {
    match t {
        None => Seq::empty(),
        Some(_) => match hint {
            TimeHint::UseIndex => (if is_start { " AND timestamp >= "@ } else { " AND timestamp < "@ }) + "?"@,
            TimeHint::AvoidIndex => (if is_start { " AND likelihood(timestamp >= "@ } else {
                " AND likelihood(timestamp < "@ }) + "?"@ + ", 1.0)"@,
        },
    }
}

pub open spec fn time_binds(t: Option<i64>) -> Seq<Bind> {
    match t { None => Seq::empty(), Some(s) => seq![Bind::Int(s)] }
}

fn add_time_condition(q: &mut SqlQuery, is_start: bool, t: i64, hint: TimeHint)
    ensures
        final(q).sql@ == old(q).sql@ + time_sql(Some(t), is_start, hint),
        final(q).binds@ == old(q).binds@ + time_binds(Some(t)),
{
    match hint {
        TimeHint::UseIndex => {
            if is_start { q.push(" AND timestamp >= "); } else { q.push(" AND timestamp < "); }
            q.push_bind(Bind::Int(t));
        },
        TimeHint::AvoidIndex => {
            if is_start {
                q.push(" AND likelihood(timestamp >= ");
            } else {
                q.push(" AND likelihood(timestamp < ");
            }
            q.push_bind(Bind::Int(t));
            q.push(", 1.0)");
        },
    }
}

/// Adds the inclusive start of the time range to a WHERE clause that already
/// has a condition.
pub fn add_start_time_to_query(start_time: Option<i64>, q: &mut SqlQuery, hint: TimeHint)
    ensures
        final(q).sql@ == old(q).sql@ + time_sql(start_time, true, hint),
        final(q).binds@ == old(q).binds@ + time_binds(start_time),
{
    if let Some(start) = start_time {
        add_time_condition(q, true, start, hint);
    } else {
        assert(q.sql@ =~= old(q).sql@ + Seq::<char>::empty());
        assert(q.binds@ =~= old(q).binds@ + Seq::<Bind>::empty());
    }
}

/// Adds the exclusive end of the time range to a WHERE clause that already
/// has a condition.
pub fn add_end_time_to_query(end_time: Option<i64>, q: &mut SqlQuery, hint: TimeHint)
    ensures
        final(q).sql@ == old(q).sql@ + time_sql(end_time, false, hint),
        final(q).binds@ == old(q).binds@ + time_binds(end_time),
{
    if let Some(end) = end_time {
        add_time_condition(q, false, end, hint);
    } else {
        assert(q.sql@ =~= old(q).sql@ + Seq::<char>::empty());
        assert(q.binds@ =~= old(q).binds@ + Seq::<Bind>::empty());
    }
}

// ---------- decimation and bounds ----------

pub open spec fn decim_sql(decim: i64) -> Seq<char> {
    if decim <= 1 { Seq::empty() } else { " AND id % "@ + "?"@ + " == 0 "@ }
}

pub open spec fn decim_binds(decim: i64) -> Seq<Bind> {
    if decim <= 1 { Seq::empty() } else { seq![Bind::Int(decim)] }
}

/// Adds a decimation condition: every `decim`-th id. Nothing for 1 or less.
pub fn add_decim_to_query(decim: i64, q: &mut SqlQuery)
    ensures
        final(q).sql@ == old(q).sql@ + decim_sql(decim),
        final(q).binds@ == old(q).binds@ + decim_binds(decim),
{
    if decim <= 1 {
        assert(q.sql@ =~= old(q).sql@ + Seq::<char>::empty());
        assert(q.binds@ =~= old(q).binds@ + Seq::<Bind>::empty());
        return;
    }
    q.push(" AND id % ");
    q.push_bind(Bind::Int(decim));
    q.push(" == 0 ");
}

pub open spec fn lng_range_sql() -> Seq<char> {
    "(longitude >= "@ + "?"@ + " AND longitude <= "@ + "?"@ + ")"@
}

pub open spec fn bounds_sql(bounds: Option<QueryBounds>) -> Seq<char> {
    match bounds {
        None => Seq::empty(),
        Some(b) => {
            let lat = " AND latitude >= "@ + "?"@ + "\n                AND latitude <= "@ + "?"@;
            if b.alias_negative && b.alias_positive {
                lat
            } else {
                lat + "\n                AND ("@ + lng_range_sql()
                    + (if b.alias_positive { "\n                   OR "@ + lng_range_sql() } else { Seq::empty() })
                    + (if b.alias_negative { "\n                   OR "@ + lng_range_sql() } else { Seq::empty() })
                    + ")"@
            }
        },
    }
}

pub open spec fn bounds_binds(bounds: Option<QueryBounds>) -> Seq<Bind> {
    match bounds {
        None => Seq::empty(),
        Some(b) => {
            let lat = seq![Bind::Real(b.sw_lat), Bind::Real(b.ne_lat)];
            if b.alias_negative && b.alias_positive {
                lat
            } else {
                lat + seq![Bind::Real(b.sw_lng), Bind::Real(b.ne_lng)]
                    + (if b.alias_positive { seq![Bind::Real(b.sw_lng_east), Bind::Real(b.ne_lng_east)] } else { Seq::empty() })
                    + (if b.alias_negative { seq![Bind::Real(b.sw_lng_west), Bind::Real(b.ne_lng_west)] } else { Seq::empty() })
            }
        },
    }
}

fn add_lng_bounds(low: Real, high: Real, q: &mut SqlQuery)
    ensures
        final(q).sql@ == old(q).sql@ + lng_range_sql(),
        final(q).binds@ == old(q).binds@ + seq![Bind::Real(low), Bind::Real(high)],
{
    q.push("(longitude >= ");
    q.push_bind(Bind::Real(low));
    q.push(" AND longitude <= ");
    q.push_bind(Bind::Real(high));
    q.push(")");
}

/// Adds the bounds' conditions: the latitude range, and unless the view
/// spills past the antimeridian on both sides (the whole width of the world
/// is visible), the longitude range with its aliased copies.
pub fn add_bounds_to_query(bounds: &Option<QueryBounds>, q: &mut SqlQuery)
    ensures
        final(q).sql@ == old(q).sql@ + bounds_sql(*bounds),
        final(q).binds@ == old(q).binds@ + bounds_binds(*bounds),
{
    if let Some(b) = bounds {
        q.push(" AND latitude >= ");
        q.push_bind(Bind::Real(b.sw_lat));
        q.push("\n                AND latitude <= ");
        q.push_bind(Bind::Real(b.ne_lat));
        if b.alias_negative && b.alias_positive {
            return;
        }
        q.push("\n                AND (");
        add_lng_bounds(b.sw_lng, b.ne_lng, q);
        let ghost mid_sql = q.sql@;
        let ghost mid_binds = q.binds@;
        if b.alias_positive {
            q.push("\n                   OR ");
            add_lng_bounds(b.sw_lng_east, b.ne_lng_east, q);
        } else {
            assert(q.sql@ =~= mid_sql + Seq::<char>::empty());
            assert(q.binds@ =~= mid_binds + Seq::<Bind>::empty());
        }
        let ghost mid_sql2 = q.sql@;
        let ghost mid_binds2 = q.binds@;
        if b.alias_negative {
            q.push("\n                   OR ");
            add_lng_bounds(b.sw_lng_west, b.ne_lng_west, q);
        } else {
            assert(q.sql@ =~= mid_sql2 + Seq::<char>::empty());
            assert(q.binds@ =~= mid_binds2 + Seq::<Bind>::empty());
        }
        q.push(")");
    } else {
        assert(q.sql@ =~= old(q).sql@ + Seq::<char>::empty());
        assert(q.binds@ =~= old(q).binds@ + Seq::<Bind>::empty());
    }
}


// ---------- the query ----------

/// What a map update reads from one database.
pub struct FilteredQuery {
    /// Inclusive start of the time range, unix seconds.
    pub start: Option<i64>,
    /// Exclusive end of the time range, unix seconds.
    pub end: Option<i64>,
    pub filters: Option<Vec<Filter>>,
    /// The view bounds for the query.
    pub bounds: Option<QueryBounds>,
    /// Whether to get the next/previous point just outside the bounds
    /// (decimation queries only). Does not affect the decimation.
    pub get_adjacent: bool,
    /// Number of points returned by first_n queries.
    pub limit: Option<u64>,
    /// Point count above which decimation queries thin the result.
    pub decimation_threshold: Option<u64>,
    /// If set, decimation queries over the threshold keep the most recent
    /// point per cell instead of every nth point.
    pub spatial_cell: Option<SpatialCell>,
    /// Column fetched into the first extra field of the narrow fetches.
    pub field1: Option<&'static str>,
    /// Column fetched into the second extra field.
    pub field2: Option<&'static str>,
    /// Never-bind memory backstop on the number of points fetched.
    pub hard_cap: Option<u64>,
}

/// Spatial mode: rows in the time range under which the query filters by
/// time first rather than walking the grid.
pub const TIME_PATH_MAX_ROWS: u64 = 300_000;

/// Temporal mode: cap on the route estimates (rows in range, points in
/// view).
pub const TEMPORAL_COUNT_CAP: u64 = 1_000_000;

/// Point count used when no decimation threshold is set.
pub const DEFAULT_DECIMATION_THRESHOLD: u64 = 10_000;

/// Rows returned by first_n queries when no limit is set.
pub const DEFAULT_FIRST_N_LIMIT: u64 = 10_000;

pub open spec fn field_sql(col: Option<&'static str>, p: Seq<char>, name: Seq<char>) -> Seq<char> {
    match col {
        Some(c) => "CAST("@ + p + c@ + " AS REAL) AS "@ + name,
        None => "NULL AS "@ + name,
    }
}

/// The fixed narrow columns plus the two extra fields, each prefixed by `p`.
pub open spec fn select_sql(field1: Option<&'static str>, field2: Option<&'static str>, p: Seq<char>) -> Seq<char> {
    p + "id, "@ + p + "timestamp, "@ + p + "latitude, "@ + p + "longitude, "@
        + field_sql(field1, p, "field1"@) + ", "@ + field_sql(field2, p, "field2"@)
}

fn push_field(s: &mut String, col: Option<&'static str>, p: &str, name: &str)
    ensures
        final(s)@ == old(s)@ + field_sql(col, p@, name@),
{
    match col {
        Some(c) => {
            s.append("CAST(");
            s.append(p);
            s.append(c);
            s.append(" AS REAL) AS ");
            s.append(name);
        },
        None => {
            s.append("NULL AS ");
            s.append(name);
        },
    }
}

/// The hard cap as a decimation target: at least 1.
pub open spec fn clamped_cap(c: u64) -> int {
    if (c as i64) < 1 { 1 } else { c as i64 as int }
}

/// ceil(count / n) for count >= 1 and n >= 1.
pub open spec fn ceil_div(count: int, n: int) -> int {
    (count - 1) / n + 1
}

/// The newest of the index cells' timestamps in each query cell.
pub const NEWEST_PER_QUERY_CELL: &'static str = "SELECT max(latest)";
/// An index cell's newest passing row: its rows by timestamp, newest first.
pub const NEWEST_IN_INDEX_CELL: &'static str = "ORDER BY timestamp DESC LIMIT 1) AS latest";
/// The newest row of each grid cell.
pub const NEWEST_IN_GRID_CELL: &'static str = "SELECT id, max(timestamp)";

/// The grouping of walked index cells by query cell (`d` more bits).
pub open spec fn walk_group_sql(d: int) -> Seq<char> {
    ",\n      (w.pos >> 32) >> "@
        + decimal((d) as nat)
        + " AS qy,\n      (w.pos & 4294967295) >> "@
        + decimal((d) as nat)
        + " AS qx\n    FROM w WHERE real\n  ) WHERE latest IS NOT NULL\n  GROUP BY qy, qx\n) g\n-- timestamp is UNIQUE: one autoindex seek per winning row\nJOIN location l ON l.timestamp = g.ts"@
}

impl FilteredQuery {
    pub open spec fn basic_sql(&self, hint: TimeHint) -> Seq<char> {
        time_sql(self.start, true, hint) + time_sql(self.end, false, hint) + opt_filters_sql(self.filters)
    }

    pub open spec fn basic_binds(&self) -> Seq<Bind> {
        time_binds(self.start) + time_binds(self.end) + opt_filters_binds(self.filters)
    }

    pub open spec fn select(&self, p: Seq<char>) -> Seq<char> {
        select_sql(self.field1, self.field2, p)
    }

    /// Select list of the narrow decimated fetches: the fixed columns plus
    /// field1/field2, CAST to REAL (NULL when unset). `p` prefixes every
    /// column with a table alias where needed.
    pub fn select_list(&self, p: &str) -> (r: String)
        ensures
            r@ == self.select(p@),
    {
        let mut s = String::new();
        s.append(p);
        s.append("id, ");
        s.append(p);
        s.append("timestamp, ");
        s.append(p);
        s.append("latitude, ");
        s.append(p);
        s.append("longitude, ");
        push_field(&mut s, self.field1, p, "field1");
        s.append(", ");
        push_field(&mut s, self.field2, p, "field2");
        s
    }

    /// Adds the time range and the user filters.
    pub fn add_basic_filters_hint(&self, q: &mut SqlQuery, hint: TimeHint)
        ensures
            final(q).sql@ == old(q).sql@ + self.basic_sql(hint),
            final(q).binds@ == old(q).binds@ + self.basic_binds(),
    {
        add_start_time_to_query(self.start, q, hint);
        add_end_time_to_query(self.end, q, hint);
        add_filters_to_query(&self.filters, q);
    }

    /// Adds the time range, kept off the timestamp index, and the filters.
    pub fn add_basic_filters(&self, q: &mut SqlQuery)
        ensures
            final(q).sql@ == old(q).sql@ + self.basic_sql(TimeHint::AvoidIndex),
            final(q).binds@ == old(q).binds@ + self.basic_binds(),
    {
        self.add_basic_filters_hint(q, TimeHint::AvoidIndex);
    }

    pub open spec fn explain_sql(explain: bool) -> Seq<char> {
        if explain { "EXPLAIN QUERY PLAN "@ } else { Seq::empty() }
    }

    /// Counts the records inside the view bounds (every `decim`-th).
    pub fn count_query(&self, explain_query_plan: bool, decim: i64, hint: TimeHint) -> (q: SqlQuery)
        ensures
            q.sql@ == Self::explain_sql(explain_query_plan) + "SELECT count(*) FROM location WHERE 1"@
                + bounds_sql(self.bounds) + decim_sql(decim) + self.basic_sql(hint),
            q.binds@ == bounds_binds(self.bounds) + decim_binds(decim) + self.basic_binds(),
    {
        let mut q = SqlQuery::new(explain_query_plan);
        q.push("SELECT count(*) FROM location WHERE 1");
        add_bounds_to_query(&self.bounds, &mut q);
        add_decim_to_query(decim, &mut q);
        self.add_basic_filters_hint(&mut q, hint);
        q
    }

    /// Fetches the records in the bounds, every `decim`-th.
    pub fn bounded_decim_query(&self, explain_query_plan: bool, decim: i64, hint: TimeHint) -> (q: SqlQuery)
        ensures
            q.sql@ == Self::explain_sql(explain_query_plan) + "SELECT "@ + self.select(Seq::empty())
                + " FROM location WHERE 1"@ + bounds_sql(self.bounds) + decim_sql(decim) + self.basic_sql(hint),
            q.binds@ == bounds_binds(self.bounds) + decim_binds(decim) + self.basic_binds(),
    {
        let mut q = SqlQuery::new(explain_query_plan);
        q.push("SELECT ");
        proof { reveal_strlit(""); }
        let sel = self.select_list("");
        q.push(sel.as_str());
        q.push(" FROM location WHERE 1");
        add_bounds_to_query(&self.bounds, &mut q);
        add_decim_to_query(decim, &mut q);
        self.add_basic_filters_hint(&mut q, hint);
        q
    }

    pub open spec fn cap_sql(cap: Option<u64>, order: Seq<char>) -> Seq<char> {
        match cap { Some(_) => order + "?"@, None => Seq::empty() }
    }

    pub open spec fn cap_binds(cap: Option<u64>) -> Seq<Bind> {
        match cap { Some(c) => seq![Bind::Int(c as i64)], None => Seq::empty() }
    }

    /// Fetches the most recent record in each spatial cell (grid >> shift)
    /// inside the bounds; with a hard cap, only the most recent cells.
    pub fn bucketed_query(&self, explain_query_plan: bool, shift: u32, hint: TimeHint) -> (q: SqlQuery)
        ensures
            q.sql@ == Self::explain_sql(explain_query_plan) + "SELECT "@ + self.select(Seq::empty())
                + ", max(timestamp) FROM location WHERE 1"@ + bounds_sql(self.bounds) + self.basic_sql(hint)
                + " GROUP BY gy >> "@ + decimal(shift as nat) + ", gx >> "@ + decimal(shift as nat)
                + Self::cap_sql(self.hard_cap, " ORDER BY max(timestamp) DESC LIMIT "@),
            q.binds@ == bounds_binds(self.bounds) + self.basic_binds() + Self::cap_binds(self.hard_cap),
    {
        let mut q = SqlQuery::new(explain_query_plan);
        q.push("SELECT ");
        proof { reveal_strlit(""); }
        let sel = self.select_list("");
        q.push(sel.as_str());
        q.push(", max(timestamp) FROM location WHERE 1");
        add_bounds_to_query(&self.bounds, &mut q);
        self.add_basic_filters_hint(&mut q, hint);
        q.push(" GROUP BY gy >> ");
        q.push_u64(shift as u64);
        q.push(", gx >> ");
        q.push_u64(shift as u64);
        let ghost mid_sql = q.sql@;
        let ghost mid_binds = q.binds@;
        if let Some(cap) = self.hard_cap {
            q.push(" ORDER BY max(timestamp) DESC LIMIT ");
            q.push_bind(Bind::Int(#[verifier::truncate] (cap as i64)));
        } else {
            assert(q.sql@ =~= mid_sql + Seq::<char>::empty());
            assert(q.binds@ =~= mid_binds + Seq::<Bind>::empty());
        }
        q
    }

    /// Fetches the data point before `timestamp` (every `decim`-th).
    pub fn adjacent_before_query(&self, explain_query_plan: bool, decim: i64, timestamp: i64) -> (q: SqlQuery)
        ensures
            q.sql@ == Self::explain_sql(explain_query_plan) + "SELECT "@ + self.select(Seq::empty())
                + " FROM location WHERE 1"@ + self.basic_sql(TimeHint::AvoidIndex) + decim_sql(decim)
                + " AND timestamp < "@ + "?"@ + " ORDER BY timestamp DESC LIMIT 1"@,
            q.binds@ == self.basic_binds() + decim_binds(decim) + seq![Bind::Int(timestamp)],
    {
        let mut q = SqlQuery::new(explain_query_plan);
        q.push("SELECT ");
        proof { reveal_strlit(""); }
        let sel = self.select_list("");
        q.push(sel.as_str());
        q.push(" FROM location WHERE 1");
        self.add_basic_filters(&mut q);
        add_decim_to_query(decim, &mut q);
        q.push(" AND timestamp < ");
        q.push_bind(Bind::Int(timestamp));
        q.push(" ORDER BY timestamp DESC LIMIT 1");
        q
    }

    /// Fetches the data point after `timestamp` (every `decim`-th).
    pub fn adjacent_after_query(&self, explain_query_plan: bool, decim: i64, timestamp: i64) -> (q: SqlQuery)
        ensures
            q.sql@ == Self::explain_sql(explain_query_plan) + "SELECT "@ + self.select(Seq::empty())
                + " FROM location WHERE 1"@ + self.basic_sql(TimeHint::AvoidIndex) + decim_sql(decim)
                + " AND timestamp > "@ + "?"@ + " ORDER BY timestamp ASC LIMIT 1"@,
            q.binds@ == self.basic_binds() + decim_binds(decim) + seq![Bind::Int(timestamp)],
    {
        let mut q = SqlQuery::new(explain_query_plan);
        q.push("SELECT ");
        proof { reveal_strlit(""); }
        let sel = self.select_list("");
        q.push(sel.as_str());
        q.push(" FROM location WHERE 1");
        self.add_basic_filters(&mut q);
        add_decim_to_query(decim, &mut q);
        q.push(" AND timestamp > ");
        q.push_bind(Bind::Int(timestamp));
        q.push(" ORDER BY timestamp ASC LIMIT 1");
        q
    }

    /// The first `limit` records (10000 by default) in the bounds, oldest
    /// first.
    pub fn first_n_query(&self, explain_query_plan: bool) -> (q: SqlQuery)
        ensures
            q.sql@ == Self::explain_sql(explain_query_plan) + "SELECT * FROM location WHERE 1"@
                + bounds_sql(self.bounds) + self.basic_sql(TimeHint::AvoidIndex)
                + " ORDER BY timestamp ASC LIMIT "@ + "?"@,
            q.binds@ == bounds_binds(self.bounds) + self.basic_binds() + seq![Bind::Int(
                (match self.limit { Some(l) => l, None => DEFAULT_FIRST_N_LIMIT }) as i64,
            )],
    {
        let mut q = SqlQuery::new(explain_query_plan);
        q.push("SELECT * FROM location WHERE 1");
        add_bounds_to_query(&self.bounds, &mut q);
        self.add_basic_filters(&mut q);
        q.push(" ORDER BY timestamp ASC LIMIT ");
        let limit = match self.limit { Some(l) => l, None => DEFAULT_FIRST_N_LIMIT };
        q.push_bind(Bind::Int(#[verifier::truncate] (limit as i64)));
        q
    }

    /// The extent (min/max longitude and latitude) of the matching records.
    pub fn get_bounds_query(&self, explain_query_plan: bool) -> (q: SqlQuery)
        ensures
            q.sql@ == Self::explain_sql(explain_query_plan)
                + "SELECT MIN(longitude), MIN(latitude),\n                    MAX(longitude), MAX(latitude)\n                FROM location WHERE 1"@
                + bounds_sql(self.bounds) + self.basic_sql(TimeHint::AvoidIndex),
            q.binds@ == bounds_binds(self.bounds) + self.basic_binds(),
    {
        let mut q = SqlQuery::new(explain_query_plan);
        q.push("SELECT MIN(longitude), MIN(latitude),\n                    MAX(longitude), MAX(latitude)\n                FROM location WHERE 1");
        add_bounds_to_query(&self.bounds, &mut q);
        self.add_basic_filters(&mut q);
        q
    }
}


// ---------- decimation arithmetic and routing ----------

/// (count - 1) / n + 1 without overflow.
fn ceil_div_exec(count: i64, n: i64) -> (r: i64)
    requires
        count >= 1,
        n != 0,
    ensures
        r == ceil_div(count as int, n as int),
{
    assert(-((count - 1) as int) <= ((count - 1) as int) / (n as int) <= (count - 1) as int) by (nonlinear_arith)
        requires count >= 1, n != 0;
    (count - 1) / n + 1
}

impl FilteredQuery {
    pub open spec fn threshold_spec(&self) -> u64 {
        match self.decimation_threshold { Some(t) => t, None => DEFAULT_DECIMATION_THRESHOLD }
    }

    /// The decimation threshold, 10000 when unset.
    pub fn threshold(&self) -> (t: u64)
        ensures
            t == self.threshold_spec(),
    {
        match self.decimation_threshold { Some(t) => t, None => DEFAULT_DECIMATION_THRESHOLD }
    }

    pub open spec fn bucketing_trigger_spec(&self) -> i64 {
        let t = self.threshold_spec();
        let c = match self.hard_cap { Some(c) => c, None => u64::MAX };
        (if t < c { t } else { c }) as i64
    }

    /// Point count above which spatial mode buckets: min(threshold,
    /// hard_cap).
    pub fn bucketing_trigger(&self) -> (n: i64)
        ensures
            n == self.bucketing_trigger_spec(),
    {
        let t = self.threshold();
        let c = match self.hard_cap { Some(c) => c, None => u64::MAX };
        let m = if t < c { t } else { c };
        #[verifier::truncate] (m as i64)
    }

    /// The decimation factor for `count` matching points, and whether the
    /// hard cap coarsened it beyond what the threshold alone would give.
    pub open spec fn decim_from_count_spec(&self, count: i64) -> (i64, bool) {
        let count = if count < 1 { 1int } else { count as int };
        let thresh = self.threshold_spec() as i64 as int;
        let capped = self.hard_cap.is_some() && clamped_cap(self.hard_cap.unwrap()) < thresh;
        if capped {
            let decim = ceil_div(count, clamped_cap(self.hard_cap.unwrap()));
            (decim as i64, decim > ceil_div(count, thresh))
        } else {
            (ceil_div(count, thresh) as i64, false)
        }
    }

    /// Decimation factor for a count of matching points: ceil(count /
    /// target), where the target is the threshold clamped to the hard cap
    /// (at least 1); the flag is set when that clamp coarsens the sample
    /// beyond what the threshold alone would give.
    pub fn decim_from_count(&self, count: i64) -> (r: (i64, bool))
        requires
            self.threshold_spec() != 0,
        ensures
            r == self.decim_from_count_spec(count),
    {
        let count = if count < 1 { 1 } else { count };
        let t = self.threshold();
        let thresh = #[verifier::truncate] (t as i64);
        assert(t != 0 ==> (t as i64) != 0) by (bit_vector);
        let by_thresh = ceil_div_exec(count, thresh);
        match self.hard_cap {
            Some(c) => {
                let ci = #[verifier::truncate] (c as i64);
                let cap = if ci < 1 { 1 } else { ci };
                if cap < thresh {
                    let decim = ceil_div_exec(count, cap);
                    return (decim, decim > by_thresh);
                }
            },
            None => {},
        }
        (by_thresh, false)
    }

    /// The number of points a decimated sample aims at: the threshold, or
    /// the hard cap (at least 1) where that is smaller.
    pub open spec fn decim_target_spec(&self) -> int {
        let thresh = self.threshold_spec() as int;
        if self.hard_cap.is_some() && clamped_cap(self.hard_cap.unwrap()) < thresh {
            clamped_cap(self.hard_cap.unwrap())
        } else {
            thresh
        }
    }

    /// The cap on the rows-in-range count: TIME_PATH_MAX_ROWS in spatial
    /// mode, TEMPORAL_COUNT_CAP in temporal mode.
    pub fn route_cap(&self) -> (cap: u64)
        ensures
            cap == (if self.spatial_cell.is_some() { TIME_PATH_MAX_ROWS } else { TEMPORAL_COUNT_CAP }),
    {
        match self.spatial_cell {
            Some(_) => TIME_PATH_MAX_ROWS,
            None => TEMPORAL_COUNT_CAP,
        }
    }

    /// Counts the rows in the time range on the timestamp index, stopping at
    /// `limit + 1`. None when the range is open on both ends.
    pub fn time_range_rows_query(&self, limit: u64) -> (r: Option<SqlQuery>)
        requires
            limit < i64::MAX,
        ensures
            match r {
                None => self.start.is_none() && self.end.is_none(),
                Some(q) => (self.start.is_some() || self.end.is_some())
                    && q.sql@ == "SELECT count(*) FROM (SELECT 1 FROM location WHERE 1"@
                        + time_sql(self.start, true, TimeHint::UseIndex)
                        + time_sql(self.end, false, TimeHint::UseIndex) + " LIMIT "@ + "?"@ + ")"@
                    && q.binds@ == time_binds(self.start) + time_binds(self.end)
                        + seq![Bind::Int((limit + 1) as i64)],
            },
    {
        if self.start.is_none() && self.end.is_none() {
            return None;
        }
        let mut q = SqlQuery::new(false);
        q.push("SELECT count(*) FROM (SELECT 1 FROM location WHERE 1");
        add_start_time_to_query(self.start, &mut q, TimeHint::UseIndex);
        add_end_time_to_query(self.end, &mut q, TimeHint::UseIndex);
        q.push(" LIMIT ");
        q.push_bind(Bind::Int(limit as i64 + 1));
        q.push(")");
        Some(q)
    }

    /// Counts the matching points, stopping once past the bucketing trigger.
    pub fn over_trigger_query(&self, hint: TimeHint) -> (q: SqlQuery)
        requires
            self.bucketing_trigger_spec() < i64::MAX,
        ensures
            q.sql@ == "SELECT count(*) FROM (SELECT 1 FROM location WHERE 1"@ + bounds_sql(self.bounds)
                + self.basic_sql(hint) + " LIMIT "@ + "?"@ + ")"@,
            q.binds@ == bounds_binds(self.bounds) + self.basic_binds() + seq![
                Bind::Int((self.bucketing_trigger_spec() + 1) as i64),
            ],
    {
        let n = self.bucketing_trigger();
        let mut q = SqlQuery::new(false);
        q.push("SELECT count(*) FROM (SELECT 1 FROM location WHERE 1");
        add_bounds_to_query(&self.bounds, &mut q);
        self.add_basic_filters_hint(&mut q, hint);
        q.push(" LIMIT ");
        q.push_bind(Bind::Int(n + 1));
        q.push(")");
        q
    }

    /// Whether more than the bucketing trigger points match, from the count
    /// of over_trigger_query; a failed count reads as over, so the memory
    /// backstop fails toward fewer points.
    pub fn is_over_trigger(&self, count: Option<i64>) -> (over: bool)
        ensures
            over == match count { Some(n) => n > self.bucketing_trigger_spec(), None => true },
    {
        let n = self.bucketing_trigger();
        match count {
            Some(c) => c > n,
            None => true,
        }
    }
}

/// Temporal mode's estimate of the time route's cost: the rows in range,
/// or one past the cap when capped or unbounded.
pub open spec fn temporal_n_time(rows_in_range: Option<u64>) -> int {
    match rows_in_range { Some(n) => n as i64 as int, None => TEMPORAL_COUNT_CAP + 1 }
}

/// The limit of the points-in-view count: min(n_time, cap).
pub fn temporal_view_limit(rows_in_range: Option<u64>) -> (limit: i64)
    ensures
        limit == (if temporal_n_time(rows_in_range) < TEMPORAL_COUNT_CAP { temporal_n_time(rows_in_range) } else { TEMPORAL_COUNT_CAP as int }),
{
    let cap = TEMPORAL_COUNT_CAP as i64;
    let n_time = match rows_in_range {
        Some(n) => #[verifier::truncate] (n as i64),
        None => cap + 1,
    };
    if n_time < cap { n_time } else { cap }
}

/// Temporal mode's route: the grid when the view holds fewer points than
/// the range holds rows, or when both are over the cap and there is no
/// range; else the time route. A failed view count reads as one past the
/// limit.
pub fn temporal_route(rows_in_range: Option<u64>, view_count: Option<i64>) -> (route: Route)
    ensures
        ({
            let n_time = temporal_n_time(rows_in_range);
            let limit = if n_time < TEMPORAL_COUNT_CAP { n_time } else { TEMPORAL_COUNT_CAP as int };
            let n_view = match view_count { Some(v) => v as int, None => limit + 1 };
            route == (if n_view < n_time || (n_view > TEMPORAL_COUNT_CAP && rows_in_range.is_none()) {
                Route::Grid
            } else {
                Route::Time
            })
        }),
{
    let cap = TEMPORAL_COUNT_CAP as i64;
    let n_time = match rows_in_range {
        Some(n) => #[verifier::truncate] (n as i64),
        None => cap + 1,
    };
    let limit = temporal_view_limit(rows_in_range);
    let n_view = match view_count {
        Some(v) => v,
        None => limit + 1,
    };
    if n_view < n_time || (n_view > cap && rows_in_range.is_none()) {
        Route::Grid
    } else {
        Route::Time
    }
}

/// Spatial mode's route and time hint: the timestamp index when the range
/// holds at most TIME_PATH_MAX_ROWS rows, else the grid walk with the time
/// bounds kept off the timestamp index.
pub fn spatial_route(rows_in_range: Option<u64>) -> (r: (Route, TimeHint))
    ensures
        r == (match rows_in_range {
            Some(n) if n <= TIME_PATH_MAX_ROWS => (Route::Time, TimeHint::UseIndex),
            _ => (Route::Grid, TimeHint::AvoidIndex),
        }),
{
    match rows_in_range {
        Some(n) => if n <= TIME_PATH_MAX_ROWS {
            (Route::Time, TimeHint::UseIndex)
        } else {
            (Route::Grid, TimeHint::AvoidIndex)
        },
        None => (Route::Grid, TimeHint::AvoidIndex),
    }
}

/// Whether a bucketed fetch of `n_cells` cells hit the hard cap.
pub fn bucketed_memory_capped(hard_cap: Option<u64>, n_cells: usize) -> (capped: bool)
    ensures
        capped == match hard_cap { Some(cap) => n_cells as int >= cap as int, None => false },
{
    match hard_cap {
        Some(cap) => n_cells as u64 >= cap,
        None => false,
    }
}


// ---------- grid routes ----------

/// The 2-D bounds filter over `rect` on a grid level index (see
/// grid_filter_query).
pub open spec fn grid_filter_sql(rect: GridRect, select: Seq<char>, prefix: Seq<char>) -> Seq<char> {
    let level = filter_level_spec((rect.x1 - rect.x0) as u32, (rect.y1 - rect.y0) as u32);
    let s = level_shift_spec(level);
    let idx = "location_cell"@ + decimal(level as nat);
    let cx0 = (rect.x0 >> s) as int;
    let cx1 = (rect.x1 >> s) as int;
    let cy0 = (rect.y0 >> s) as int;
    let cy1 = (rect.y1 >> s) as int;
    prefix
        + "\nWITH RECURSIVE r(cy) AS (\n  SELECT "@
        + decimal_int((cy0) as int)
        + "\n  UNION ALL\n  SELECT cy + 1 FROM r WHERE cy < "@
        + decimal_int((cy1) as int)
        + "\n)\nSELECT "@
        + (select)
        + "\nFROM r\nJOIN location INDEXED BY "@
        + (idx)
        + "\n  ON cy"@
        + decimal((level) as nat)
        + " = r.cy AND cx"@
        + decimal((level) as nat)
        + " BETWEEN "@
        + decimal_int((cx0) as int)
        + " AND "@
        + decimal_int((cx1) as int)
        + "\nWHERE (\n  -- cells strictly inside the rectangle pass on the index alone\n  (cy"@
        + decimal((level) as nat)
        + " BETWEEN "@
        + decimal_int((cy0 + 1) as int)
        + " AND "@
        + decimal_int((cy1 - 1) as int)
        + " AND\n   cx"@
        + decimal((level) as nat)
        + " BETWEEN "@
        + decimal_int((cx0 + 1) as int)
        + " AND "@
        + decimal_int((cx1 - 1) as int)
        + ")\n  -- edge cells check the row's exact grid coordinates\n  OR (gy BETWEEN "@
        + decimal((rect.y0) as nat)
        + " AND "@
        + decimal((rect.y1) as nat)
        + " AND gx BETWEEN "@
        + decimal((rect.x0) as nat)
        + " AND "@
        + decimal((rect.x1) as nat)
        + ")\n)"@
}

impl FilteredQuery {
    /// 2-D bounds filter over `rect` on a grid level index, for the
    /// temporal-mode count and fetch. A recursive CTE over the cell rows of
    /// the rectangle joins the index one row at a time. Cells strictly
    /// inside the rectangle are accepted from the index alone; edge cells
    /// read the row for the exact bounds. The level comes from
    /// grid::filter_level. `select` is the select list.
    pub fn grid_filter_query(&self, rect: &GridRect, select: &str, prefix: &str) -> (q: SqlQuery)
        requires
            rect.x0 <= rect.x1,
            rect.y0 <= rect.y1,
        ensures
            q.sql@ == grid_filter_sql(*rect, select@, prefix@),
            q.binds@ == Seq::<Bind>::empty(),
    {
        let level = filter_level(rect.x1 - rect.x0, rect.y1 - rect.y0);
        let s = level_shift(level);
        let idx = index_name(level);
        let cx0 = (rect.x0 >> s) as i64;
        let cx1 = (rect.x1 >> s) as i64;
        let cy0 = (rect.y0 >> s) as i64;
        let cy1 = (rect.y1 >> s) as i64;
        let mut q = SqlQuery::new(false);
        q.push(prefix);
        q.push("\nWITH RECURSIVE r(cy) AS (\n  SELECT ");
        q.push_i64(cy0);
        q.push("\n  UNION ALL\n  SELECT cy + 1 FROM r WHERE cy < ");
        q.push_i64(cy1);
        q.push("\n)\nSELECT ");
        q.push(select);
        q.push("\nFROM r\nJOIN location INDEXED BY ");
        q.push(idx.as_str());
        q.push("\n  ON cy");
        q.push_u64(level as u64);
        q.push(" = r.cy AND cx");
        q.push_u64(level as u64);
        q.push(" BETWEEN ");
        q.push_i64(cx0);
        q.push(" AND ");
        q.push_i64(cx1);
        q.push("\nWHERE (\n  -- cells strictly inside the rectangle pass on the index alone\n  (cy");
        q.push_u64(level as u64);
        q.push(" BETWEEN ");
        q.push_i64(cy0 + 1);
        q.push(" AND ");
        q.push_i64(cy1 - 1);
        q.push(" AND\n   cx");
        q.push_u64(level as u64);
        q.push(" BETWEEN ");
        q.push_i64(cx0 + 1);
        q.push(" AND ");
        q.push_i64(cx1 - 1);
        q.push(")\n  -- edge cells check the row's exact grid coordinates\n  OR (gy BETWEEN ");
        q.push_u64(rect.y0 as u64);
        q.push(" AND ");
        q.push_u64(rect.y1 as u64);
        q.push(" AND gx BETWEEN ");
        q.push_u64(rect.x0 as u64);
        q.push(" AND ");
        q.push_u64(rect.x1 as u64);
        q.push(")\n)");
        q
    }

    /// The walk over occupied index cells inside `rect`, up to the
    /// selection of each query cell's newest timestamp.
    pub open spec fn walk_seek_sql(&self, rect: GridRect, level: u8) -> Seq<char> {
        let idx = "location_cell"@ + decimal(level as nat);
        let s = level_shift_spec(level);
        let cx0 = rect.x0 >> s;
        let cx1 = rect.x1 >> s;
        let cy0 = rect.y0 >> s;
        let cy1 = rect.y1 >> s;
        "\nWITH RECURSIVE w(pos, real, nxt) AS (\n  -- seed: just before the rectangle's first cell (real = 0)\n  SELECT (("@
            + decimal((cy0) as nat)
            + " << 32) + "@
            + decimal((cx0) as nat)
            + " - 1), 0, \n  (SELECT (cy"@
            + decimal((level) as nat)
            + " << 32) + cx"@
            + decimal((level) as nat)
            + "\n   FROM location INDEXED BY "@
            + (idx)
            + "\n   WHERE (cy"@
            + decimal((level) as nat)
            + ", cx"@
            + decimal((level) as nat)
            + ") > (((("@
            + decimal((cy0) as nat)
            + " << 32) + "@
            + decimal((cx0) as nat)
            + " - 1)) >> 32, ((("@
            + decimal((cy0) as nat)
            + " << 32) + "@
            + decimal((cx0) as nat)
            + " - 1)) & 4294967295)\n     AND cy"@
            + decimal((level) as nat)
            + " <= "@
            + decimal((cy1) as nat)
            + "\n   ORDER BY cy"@
            + decimal((level) as nat)
            + ", cx"@
            + decimal((level) as nat)
            + " LIMIT 1)\n  UNION ALL\n  SELECT \n  (CASE WHEN (w.nxt & 4294967295) < "@
            + decimal((cx0) as nat)
            + "\n          THEN (w.nxt >> 32 << 32) + "@
            + decimal((cx0) as nat)
            + " - 1\n        WHEN (w.nxt & 4294967295) > "@
            + decimal((cx1) as nat)
            + "\n          THEN (((w.nxt >> 32) + 1) << 32) + "@
            + decimal((cx0) as nat)
            + " - 1\n        ELSE w.nxt END),\n  -- real: nxt is an occupied cell inside the x range, not a jump\n  (w.nxt & 4294967295) BETWEEN "@
            + decimal((cx0) as nat)
            + " AND "@
            + decimal((cx1) as nat)
            + ", \n  (SELECT (cy"@
            + decimal((level) as nat)
            + " << 32) + cx"@
            + decimal((level) as nat)
            + "\n   FROM location INDEXED BY "@
            + (idx)
            + "\n   WHERE (cy"@
            + decimal((level) as nat)
            + ", cx"@
            + decimal((level) as nat)
            + ") > ((\n  (CASE WHEN (w.nxt & 4294967295) < "@
            + decimal((cx0) as nat)
            + "\n          THEN (w.nxt >> 32 << 32) + "@
            + decimal((cx0) as nat)
            + " - 1\n        WHEN (w.nxt & 4294967295) > "@
            + decimal((cx1) as nat)
            + "\n          THEN (((w.nxt >> 32) + 1) << 32) + "@
            + decimal((cx0) as nat)
            + " - 1\n        ELSE w.nxt END)) >> 32, (\n  (CASE WHEN (w.nxt & 4294967295) < "@
            + decimal((cx0) as nat)
            + "\n          THEN (w.nxt >> 32 << 32) + "@
            + decimal((cx0) as nat)
            + " - 1\n        WHEN (w.nxt & 4294967295) > "@
            + decimal((cx1) as nat)
            + "\n          THEN (((w.nxt >> 32) + 1) << 32) + "@
            + decimal((cx0) as nat)
            + " - 1\n        ELSE w.nxt END)) & 4294967295)\n     AND cy"@
            + decimal((level) as nat)
            + " <= "@
            + decimal((cy1) as nat)
            + "\n   ORDER BY cy"@
            + decimal((level) as nat)
            + ", cx"@
            + decimal((level) as nat)
            + " LIMIT 1)\n  FROM w WHERE w.nxt IS NOT NULL\n)\n-- newest passing timestamp of each walked cell, grouped by query cell\nSELECT "@
            + (self.select("l."@))
            + " FROM (\n  "@
    }

    /// The seek of an index cell's passing rows, up to its ordering.
    pub open spec fn walk_cell_sql(&self, level: u8) -> Seq<char> {
        let idx = "location_cell"@ + decimal(level as nat);
        " AS ts FROM (\n    SELECT\n      (SELECT timestamp FROM location INDEXED BY "@
            + (idx)
            + "\n       WHERE cy"@
            + decimal((level) as nat)
            + " = w.pos >> 32 AND cx"@
            + decimal((level) as nat)
            + " = w.pos & 4294967295"@
            + self.basic_sql(TimeHint::AvoidIndex)
            + "\n       "@
    }

    /// The rest of the filter form after its selection of the newest row:
    /// the coarse index bounds, the exact grid bounds, the filters, and the
    /// grouping by query cell.
    pub open spec fn grid_filter_grouping_sql(&self, rect: GridRect, level: u8, shift: u32) -> Seq<char> {
        let idx = "location_cell"@ + decimal(level as nat);
        let s = level_shift_spec(level);
        let cx0 = rect.x0 >> s;
        let cx1 = rect.x1 >> s;
        let cy0 = rect.y0 >> s;
        let cy1 = rect.y1 >> s;
        "\n  FROM location INDEXED BY "@
            + (idx)
            + "\n  -- the coarse index narrows to the rectangle; gx/gy are exact\n  WHERE cy"@
            + decimal((level) as nat)
            + " BETWEEN "@
            + decimal((cy0) as nat)
            + " AND "@
            + decimal((cy1) as nat)
            + "\n    AND cx"@
            + decimal((level) as nat)
            + " BETWEEN "@
            + decimal((cx0) as nat)
            + " AND "@
            + decimal((cx1) as nat)
            + "\n    AND gy BETWEEN "@
            + decimal((rect.y0) as nat)
            + " AND "@
            + decimal((rect.y1) as nat)
            + "\n    AND gx BETWEEN "@
            + decimal((rect.x0) as nat)
            + " AND "@
            + decimal((rect.x1) as nat)
            + self.basic_sql(TimeHint::AvoidIndex)
            + "\n  GROUP BY gy >> "@
            + decimal((shift) as nat)
            + ", gx >> "@
            + decimal((shift) as nat)
            + "\n) g\nJOIN location l ON l.id = g.id"@
    }

    pub open spec fn grid_bucketed_body(&self, rect: GridRect, shift: u32) -> Seq<char> {
        match index_for_spec(shift) {
            IndexUse::Walk { level } => {
                let s = level_shift_spec(level);
                let d = shift - s;
                self.walk_seek_sql(rect, level) + NEWEST_PER_QUERY_CELL@ + self.walk_cell_sql(level)
                    + NEWEST_IN_INDEX_CELL@ + walk_group_sql(d)
            },
            IndexUse::Filter { level } => {
                "\nSELECT "@ + (self.select("l."@)) + " FROM (\n  "@ + NEWEST_IN_GRID_CELL@
                    + self.grid_filter_grouping_sql(rect, level, shift)
            },
        }
    }

    /// The newest row per query cell (grid units >> `shift`) inside `rect`,
    /// as narrow rows. Walk form (index cell not coarser than the query
    /// cell): a recursive CTE seeks from occupied index cell to occupied
    /// index cell inside the rectangle (a loose index scan), takes each
    /// cell's newest passing timestamp, groups those by query cell, and
    /// joins the winners' rows back on the UNIQUE timestamp. Positions are
    /// packed (cy << 32 | cx). Filter form (query cell finer than every
    /// index): the coarsest index is the 2-D bounds filter and the grouping
    /// reads gx/gy from rows. With a hard cap, only the most recent cells.
    /// The walk over occupied index cells (see walk_seek_sql).
    fn walk_seek_part(&self, rect: &GridRect, level: u8) -> (q: SqlQuery)
        requires
            level <= 22,
        ensures
            q.sql@ == self.walk_seek_sql(*rect, level),
            q.binds@ == Seq::<Bind>::empty(),
    {
        let mut q = SqlQuery::new(false);
        let idx = index_name(level);
        let s = level_shift(level);
        let cx0 = rect.x0 >> s;
        let cx1 = rect.x1 >> s;
        let cy0 = rect.y0 >> s;
        let cy1 = rect.y1 >> s;
        let sel = self.select_list("l.");
        q.push("\nWITH RECURSIVE w(pos, real, nxt) AS (\n  -- seed: just before the rectangle's first cell (real = 0)\n  SELECT ((");
        q.push_u64(cy0 as u64);
        q.push(" << 32) + ");
        q.push_u64(cx0 as u64);
        q.push(" - 1), 0, \n  (SELECT (cy");
        q.push_u64(level as u64);
        q.push(" << 32) + cx");
        q.push_u64(level as u64);
        q.push("\n   FROM location INDEXED BY ");
        q.push(idx.as_str());
        q.push("\n   WHERE (cy");
        q.push_u64(level as u64);
        q.push(", cx");
        q.push_u64(level as u64);
        q.push(") > ((((");
        q.push_u64(cy0 as u64);
        q.push(" << 32) + ");
        q.push_u64(cx0 as u64);
        q.push(" - 1)) >> 32, (((");
        q.push_u64(cy0 as u64);
        q.push(" << 32) + ");
        q.push_u64(cx0 as u64);
        q.push(" - 1)) & 4294967295)\n     AND cy");
        q.push_u64(level as u64);
        q.push(" <= ");
        q.push_u64(cy1 as u64);
        q.push("\n   ORDER BY cy");
        q.push_u64(level as u64);
        q.push(", cx");
        q.push_u64(level as u64);
        q.push(" LIMIT 1)\n  UNION ALL\n  SELECT \n  (CASE WHEN (w.nxt & 4294967295) < ");
        q.push_u64(cx0 as u64);
        q.push("\n          THEN (w.nxt >> 32 << 32) + ");
        q.push_u64(cx0 as u64);
        q.push(" - 1\n        WHEN (w.nxt & 4294967295) > ");
        q.push_u64(cx1 as u64);
        q.push("\n          THEN (((w.nxt >> 32) + 1) << 32) + ");
        q.push_u64(cx0 as u64);
        q.push(" - 1\n        ELSE w.nxt END),\n  -- real: nxt is an occupied cell inside the x range, not a jump\n  (w.nxt & 4294967295) BETWEEN ");
        q.push_u64(cx0 as u64);
        q.push(" AND ");
        q.push_u64(cx1 as u64);
        q.push(", \n  (SELECT (cy");
        q.push_u64(level as u64);
        q.push(" << 32) + cx");
        q.push_u64(level as u64);
        q.push("\n   FROM location INDEXED BY ");
        q.push(idx.as_str());
        q.push("\n   WHERE (cy");
        q.push_u64(level as u64);
        q.push(", cx");
        q.push_u64(level as u64);
        q.push(") > ((\n  (CASE WHEN (w.nxt & 4294967295) < ");
        q.push_u64(cx0 as u64);
        q.push("\n          THEN (w.nxt >> 32 << 32) + ");
        q.push_u64(cx0 as u64);
        q.push(" - 1\n        WHEN (w.nxt & 4294967295) > ");
        q.push_u64(cx1 as u64);
        q.push("\n          THEN (((w.nxt >> 32) + 1) << 32) + ");
        q.push_u64(cx0 as u64);
        q.push(" - 1\n        ELSE w.nxt END)) >> 32, (\n  (CASE WHEN (w.nxt & 4294967295) < ");
        q.push_u64(cx0 as u64);
        q.push("\n          THEN (w.nxt >> 32 << 32) + ");
        q.push_u64(cx0 as u64);
        q.push(" - 1\n        WHEN (w.nxt & 4294967295) > ");
        q.push_u64(cx1 as u64);
        q.push("\n          THEN (((w.nxt >> 32) + 1) << 32) + ");
        q.push_u64(cx0 as u64);
        q.push(" - 1\n        ELSE w.nxt END)) & 4294967295)\n     AND cy");
        q.push_u64(level as u64);
        q.push(" <= ");
        q.push_u64(cy1 as u64);
        q.push("\n   ORDER BY cy");
        q.push_u64(level as u64);
        q.push(", cx");
        q.push_u64(level as u64);
        q.push(" LIMIT 1)\n  FROM w WHERE w.nxt IS NOT NULL\n)\n-- newest passing timestamp of each walked cell, grouped by query cell\nSELECT ");
        q.push(sel.as_str());
        q.push(" FROM (\n  ");
        q
    }

    /// The seek of an index cell's passing rows (see walk_cell_sql).
    fn walk_cell_part(&self, level: u8) -> (q: SqlQuery)
        ensures
            q.sql@ == self.walk_cell_sql(level),
            q.binds@ == self.basic_binds(),
    {
        let mut q = SqlQuery::new(false);
        let idx = index_name(level);
        q.push(" AS ts FROM (\n    SELECT\n      (SELECT timestamp FROM location INDEXED BY ");
        q.push(idx.as_str());
        q.push("\n       WHERE cy");
        q.push_u64(level as u64);
        q.push(" = w.pos >> 32 AND cx");
        q.push_u64(level as u64);
        q.push(" = w.pos & 4294967295");
        self.add_basic_filters(&mut q);
        q.push("\n       ");
        q
    }

    /// The grouping by query cell (see walk_group_sql).
    fn walk_group_part(d: u32) -> (q: SqlQuery)
        ensures
            q.sql@ == walk_group_sql(d as int),
            q.binds@ == Seq::<Bind>::empty(),
    {
        let mut q = SqlQuery::new(false);
        q.push(",\n      (w.pos >> 32) >> ");
        q.push_u64(d as u64);
        q.push(" AS qy,\n      (w.pos & 4294967295) >> ");
        q.push_u64(d as u64);
        q.push(" AS qx\n    FROM w WHERE real\n  ) WHERE latest IS NOT NULL\n  GROUP BY qy, qx\n) g\n-- timestamp is UNIQUE: one autoindex seek per winning row\nJOIN location l ON l.timestamp = g.ts");
        q
    }

    /// The filter form's bounds, filters and grouping (see
    /// grid_filter_grouping_sql).
    fn grid_filter_grouping_part(&self, rect: &GridRect, level: u8, shift: u32) -> (q: SqlQuery)
        requires
            level <= 22,
        ensures
            q.sql@ == self.grid_filter_grouping_sql(*rect, level, shift),
            q.binds@ == self.basic_binds(),
    {
        let mut q = SqlQuery::new(false);
        let idx = index_name(level);
        let s = level_shift(level);
        let cx0 = rect.x0 >> s;
        let cx1 = rect.x1 >> s;
        let cy0 = rect.y0 >> s;
        let cy1 = rect.y1 >> s;
        q.push("\n  FROM location INDEXED BY ");
        q.push(idx.as_str());
        q.push("\n  -- the coarse index narrows to the rectangle; gx/gy are exact\n  WHERE cy");
        q.push_u64(level as u64);
        q.push(" BETWEEN ");
        q.push_u64(cy0 as u64);
        q.push(" AND ");
        q.push_u64(cy1 as u64);
        q.push("\n    AND cx");
        q.push_u64(level as u64);
        q.push(" BETWEEN ");
        q.push_u64(cx0 as u64);
        q.push(" AND ");
        q.push_u64(cx1 as u64);
        q.push("\n    AND gy BETWEEN ");
        q.push_u64(rect.y0 as u64);
        q.push(" AND ");
        q.push_u64(rect.y1 as u64);
        q.push("\n    AND gx BETWEEN ");
        q.push_u64(rect.x0 as u64);
        q.push(" AND ");
        q.push_u64(rect.x1 as u64);
        self.add_basic_filters(&mut q);
        q.push("\n  GROUP BY gy >> ");
        q.push_u64(shift as u64);
        q.push(", gx >> ");
        q.push_u64(shift as u64);
        q.push("\n) g\nJOIN location l ON l.id = g.id");
        q
    }

    #[verifier::spinoff_prover]
    #[verifier::rlimit(60)]
    pub fn grid_bucketed_query(&self, rect: &GridRect, shift: u32) -> (q: SqlQuery)
        ensures
            q.sql@ == self.grid_bucketed_body(*rect, shift)
                + Self::cap_sql(self.hard_cap, " ORDER BY l.timestamp DESC LIMIT "@),
            q.binds@ == self.basic_binds() + Self::cap_binds(self.hard_cap),
    {
        let mut q = SqlQuery::new(false);
        match index_for(shift) {
            IndexUse::Walk { level } => {
                let s = level_shift(level);
                let d = shift - s;
                q.append(self.walk_seek_part(rect, level));
                q.push(NEWEST_PER_QUERY_CELL);
                q.append(self.walk_cell_part(level));
                q.push(NEWEST_IN_INDEX_CELL);
                q.append(Self::walk_group_part(d));
            },
            IndexUse::Filter { level } => {
                let sel = self.select_list("l.");
                q.push("\nSELECT ");
                q.push(sel.as_str());
                q.push(" FROM (\n  ");
                q.push(NEWEST_IN_GRID_CELL);
                q.append(self.grid_filter_grouping_part(rect, level, shift));
            },
        }
        let ghost mid_sql = q.sql@;
        let ghost mid_binds = q.binds@;
        if let Some(cap) = self.hard_cap {
            q.push(" ORDER BY l.timestamp DESC LIMIT ");
            q.push_bind(Bind::Int(#[verifier::truncate] (cap as i64)));
        } else {
            assert(q.sql@ =~= mid_sql + Seq::<char>::empty());
            assert(q.binds@ =~= mid_binds + Seq::<Bind>::empty());
        }
        q
    }

    /// Counts the matching points in `rect` through the grid. With `limit`,
    /// counting stops past it; with `filters` false the time range and
    /// filters are left out, keeping the count index-only.
    pub fn count_grid_query(&self, rect: &GridRect, limit: Option<i64>, filters: bool) -> (q: SqlQuery)
        requires
            rect.x0 <= rect.x1,
            rect.y0 <= rect.y1,
            match limit { Some(l) => l < i64::MAX, None => true },
        ensures
            q.sql@ == (match limit {
                Some(_) => grid_filter_sql(*rect, "1"@, "SELECT count(*) FROM ("@),
                None => grid_filter_sql(*rect, "count(*)"@, Seq::empty()),
            }) + (if filters { self.basic_sql(TimeHint::AvoidIndex) } else { Seq::empty() })
                + (match limit { Some(_) => " LIMIT "@ + "?"@ + ")"@, None => Seq::empty() }),
            q.binds@ == (if filters { self.basic_binds() } else { Seq::empty() }) + (match limit {
                Some(l) => seq![Bind::Int((l + 1) as i64)],
                None => Seq::empty(),
            }),
    {
        proof { reveal_strlit(""); }
        let mut q = match limit {
            Some(_) => self.grid_filter_query(rect, "1", "SELECT count(*) FROM ("),
            None => self.grid_filter_query(rect, "count(*)", ""),
        };
        let ghost s0 = q.sql@;
        if filters {
            self.add_basic_filters(&mut q);
        } else {
            assert(q.sql@ =~= s0 + Seq::<char>::empty());
            assert(q.binds@ =~= Seq::<Bind>::empty() + Seq::<Bind>::empty());
        }
        let ghost s1 = q.sql@;
        let ghost b1 = q.binds@;
        if let Some(l) = limit {
            q.push(" LIMIT ");
            q.push_bind(Bind::Int(l + 1));
            q.push(")");
        } else {
            assert(q.sql@ =~= s1 + Seq::<char>::empty());
            assert(q.binds@ =~= b1 + Seq::<Bind>::empty());
        }
        q
    }

    /// Fetches the points in `rect` through the grid, every `decim`-th.
    pub fn bounded_grid_query(&self, rect: &GridRect, decim: i64) -> (q: SqlQuery)
        requires
            rect.x0 <= rect.x1,
            rect.y0 <= rect.y1,
        ensures
            q.sql@ == grid_filter_sql(*rect, self.select("location."@), Seq::empty()) + decim_sql(decim)
                + self.basic_sql(TimeHint::AvoidIndex),
            q.binds@ == decim_binds(decim) + self.basic_binds(),
    {
        proof { reveal_strlit(""); }
        let select = self.select_list("location.");
        let mut q = self.grid_filter_query(rect, select.as_str(), "");
        add_decim_to_query(decim, &mut q);
        self.add_basic_filters(&mut q);
        q
    }

    pub open spec fn grid_rects_spec(&self) -> Seq<GridRect> {
        let world = GridRect { x0: 0, x1: u32::MAX, y0: 0, y1: u32::MAX };
        match self.bounds {
            None => seq![world],
            Some(b) => if b.alias_positive && b.alias_negative {
                seq![world]
            } else {
                seq![GridRect { x0: b.x_sw, x1: b.x_ne, y0: b.y0, y1: b.y1 }]
                    + (if b.alias_positive {
                    seq![GridRect { x0: b.x_sw_east, x1: u32::MAX, y0: b.y0, y1: b.y1 }]
                } else {
                    Seq::empty()
                }) + (if b.alias_negative {
                    seq![GridRect { x0: 0, x1: b.x_ne_west, y0: b.y0, y1: b.y1 }]
                } else {
                    Seq::empty()
                })
            },
        }
    }

    /// Grid rectangles (inclusive, in grid units) covering the view bounds:
    /// one normally; two when the view spills past the antimeridian onto an
    /// aliased copy of the world; the whole world when unbounded or spilling
    /// both ways.
    pub fn grid_rects(&self) -> (rects: Vec<GridRect>)
        ensures
            rects@ == self.grid_rects_spec(),
    {
        let world = GridRect { x0: 0, x1: u32::MAX, y0: 0, y1: u32::MAX };
        match &self.bounds {
            None => {
                let mut v = Vec::new();
                v.push(world);
                assert(v@ =~= seq![world]);
                v
            },
            Some(b) => {
                let mut v = Vec::new();
                if b.alias_positive && b.alias_negative {
                    v.push(world);
                    assert(v@ =~= seq![world]);
                    return v;
                }
                v.push(GridRect { x0: b.x_sw, x1: b.x_ne, y0: b.y0, y1: b.y1 });
                if b.alias_positive {
                    v.push(GridRect { x0: b.x_sw_east, x1: u32::MAX, y0: b.y0, y1: b.y1 });
                }
                if b.alias_negative {
                    v.push(GridRect { x0: 0, x1: b.x_ne_west, y0: b.y0, y1: b.y1 });
                }
                assert(v@ =~= self.grid_rects_spec());
                v
            },
        }
    }
}

/// ceil(n / t) is the least factor d with n <= d * t.
proof fn lemma_ceil_div_least(n: int, t: int)
    requires
        n >= 1,
        t >= 1,
    ensures
        ceil_div(n, t) >= 1,
        n <= ceil_div(n, t) * t,
        (ceil_div(n, t) - 1) * t < n,
        ceil_div(n, t) <= n,
{
    vstd::arithmetic::div_mod::lemma_fundamental_div_mod(n - 1, t);
    vstd::arithmetic::div_mod::lemma_mod_pos_bound(n - 1, t);
    let q = (n - 1) / t;
    let r = (n - 1) % t;
    assert(q >= 0) by (nonlinear_arith)
        requires n - 1 >= 0, t >= 1, n - 1 == t * q + r, 0 <= r < t;
    assert(ceil_div(n, t) * t == t * q + t) by (nonlinear_arith)
        requires ceil_div(n, t) == q + 1;
    assert((ceil_div(n, t) - 1) * t == t * q) by (nonlinear_arith)
        requires ceil_div(n, t) == q + 1;
    assert(q <= n - 1) by (nonlinear_arith)
        requires n - 1 == t * q + r, 0 <= r, t >= 1, q >= 0;
}

/// Decimating `count` points by the factor that `decim_from_count` picks
/// leaves no more points than the target (the threshold, or the hard cap
/// where that is smaller), and the factor is the least that does so; the
/// memory-capped flag is set only where the hard cap is below the threshold.
/// In particular, when everything fits under the target, nothing is
/// decimated away.
pub proof fn decimation_lands_under_target(q: FilteredQuery, count: i64)
    requires
        1 <= q.threshold_spec() <= i64::MAX,
    ensures
        ({
            let n = if count < 1 { 1int } else { count as int };
            let (d, capped) = q.decim_from_count_spec(count);
            let t = q.decim_target_spec();
            &&& 1 <= t <= q.threshold_spec()
            &&& 1 <= d <= n
            &&& n <= d * t
            &&& (d - 1) * t < n
            &&& n <= t ==> d == 1
            &&& capped ==> t < q.threshold_spec()
        }),
{
    let n = if count < 1 { 1int } else { count as int };
    let thresh = q.threshold_spec();
    assert(thresh as i64 as int == thresh as int);
    let t = q.decim_target_spec();
    lemma_ceil_div_least(n, t);
    let d = ceil_div(n, t);
    assert(n <= t ==> d == 1) by (nonlinear_arith)
        requires (d - 1) * t < n, d >= 1, t >= 1;
}

/// The grid rectangles of a query are one or two, and each is ordered
/// (x0 <= x1, y0 <= y1), so each can be queried through the grid, whenever
/// the view bounds themselves are ordered; the whole world is one rectangle
/// when the view is unbounded or spills past the antimeridian both ways.
pub proof fn grid_rects_are_ordered(q: FilteredQuery)
    requires
        q.bounds matches Some(b) ==> b.x_sw <= b.x_ne && b.y0 <= b.y1,
    ensures
        1 <= q.grid_rects_spec().len() <= 2,
        forall|i: int| 0 <= i < q.grid_rects_spec().len() ==> {
            let r = #[trigger] q.grid_rects_spec()[i];
            r.x0 <= r.x1 && r.y0 <= r.y1
        },
        (q.bounds is None || (q.bounds.unwrap().alias_positive && q.bounds.unwrap().alias_negative))
            ==> q.grid_rects_spec() == seq![GridRect { x0: 0, x1: u32::MAX, y0: 0, y1: u32::MAX }],
{
}

/// What a filter's comparison of a point's value `v` with the threshold
/// `t` says: a filter hides the points where it holds.
pub open spec fn filter_holds(op: FilterOp, v: int, t: int) -> bool {
    match op {
        FilterOp::GreaterThan => v > t,
        FilterOp::LessThan => v < t,
        FilterOp::GreatherThanOrEq => v >= t,
        FilterOp::LessThanOrEq => v <= t,
        FilterOp::IsEq => v == t,
        FilterOp::IsNotEq => v != t,
    }
}

/// What SQL's comparison operator `cmp` says of `v cmp t`.
pub open spec fn sql_comparison_holds(cmp: Seq<char>, v: int, t: int) -> bool {
    if cmp == "<"@ {
        v < t
    } else if cmp == "<="@ {
        v <= t
    } else if cmp == ">"@ {
        v > t
    } else if cmp == ">="@ {
        v >= t
    } else if cmp == "=="@ || cmp == "="@ {
        v == t
    } else if cmp == "!="@ || cmp == "<>"@ {
        v != t
    } else {
        false
    }
}

/// A filter's SQL condition keeps a point exactly when the filter does not
/// hold for it: `column cmp ?` with the threshold for `?` is true of a
/// value just where the filter's own comparison of that value with the
/// threshold is false (so LessThan keeps value >= threshold).
pub proof fn filter_sql_keeps_what_the_filter_does_not_hide(op: FilterOp, v: int, t: int)
    ensures
        sql_comparison_holds(op_sql_spec(op), v, t) == !filter_holds(op, v, t),
{
    reveal_strlit("<");
    reveal_strlit("<=");
    reveal_strlit(">");
    reveal_strlit(">=");
    reveal_strlit("==");
    reveal_strlit("=");
    reveal_strlit("!=");
    reveal_strlit("<>");
    // the operators differ in length or in their first or second character
    assert("<"@.len() == 1 && "<"@[0] == '<');
    assert(">"@.len() == 1 && ">"@[0] == '>');
    assert("="@.len() == 1 && "="@[0] == '=');
    assert("<="@.len() == 2 && "<="@[0] == '<' && "<="@[1] == '=');
    assert(">="@.len() == 2 && ">="@[0] == '>' && ">="@[1] == '=');
    assert("=="@.len() == 2 && "=="@[0] == '=' && "=="@[1] == '=');
    assert("!="@.len() == 2 && "!="@[0] == '!' && "!="@[1] == '=');
    assert("<>"@.len() == 2 && "<>"@[0] == '<' && "<>"@[1] == '>');
}

/// The spatially bucketed grid query yields the newest point of each cell.
/// Walk form: each walked index cell's passing rows are read newest first,
/// one row (ORDER BY timestamp DESC LIMIT 1), and the query cell takes the
/// largest of those timestamps; filter form: the grouping takes each grid
/// cell's largest timestamp.
#[verifier::spinoff_prover]
pub proof fn bucketing_keeps_newest_per_cell(q: FilteredQuery, rect: GridRect, shift: u32)
    ensures
        index_for_spec(shift) is Walk ==> contains_text(
            q.grid_bucketed_body(rect, shift),
            "ORDER BY timestamp DESC LIMIT 1) AS latest"@,
        ) && contains_text(q.grid_bucketed_body(rect, shift), "SELECT max(latest)"@),
        index_for_spec(shift) is Filter ==> contains_text(
            q.grid_bucketed_body(rect, shift),
            "SELECT id, max(timestamp)"@,
        ),
{
    let body = q.grid_bucketed_body(rect, shift);
    match index_for_spec(shift) {
        IndexUse::Walk { level } => {
            let d = shift - level_shift_spec(level);
            let p = q.walk_seek_sql(rect, level);
            let c = q.walk_cell_sql(level);
            let g = walk_group_sql(d);
            lemma_occurs_between(p + NEWEST_PER_QUERY_CELL@ + c, NEWEST_IN_INDEX_CELL@, g);
            lemma_occurs_between(p, NEWEST_PER_QUERY_CELL@, c + NEWEST_IN_INDEX_CELL@ + g);
            assert(body =~= p + NEWEST_PER_QUERY_CELL@ + (c + NEWEST_IN_INDEX_CELL@ + g));
        },
        IndexUse::Filter { level } => {
            let pre = "\nSELECT "@ + q.select("l."@) + " FROM (\n  "@;
            lemma_occurs_between(pre, NEWEST_IN_GRID_CELL@, q.grid_filter_grouping_sql(rect, level, shift));
        },
    }
}

} // verus!
