//! Building the map's data: which points and segments go into the tiles,
//! and the statistics of a map query across the mounted databases.

use vstd::prelude::*;

use crate::memory::LastMapQuery;
use crate::number::{parse_u64, parse_u64_spec};
use crate::query::SpatialCell;

verus! {

/// Whether the segment between two consecutive points is drawn, from
/// whether each lies within the drawing bounds: both must when lines are
/// kept within the bounds, else either.
pub open spec fn seg_visible_spec(a_in: bool, b_in: bool, lines_within_bounds: bool) -> bool {
    if lines_within_bounds { a_in && b_in } else { a_in || b_in }
}

pub fn seg_visible(a_in: bool, b_in: bool, lines_within_bounds: bool) -> (visible: bool)
    ensures
        visible == seg_visible_spec(a_in, b_in, lines_within_bounds),
{
    if lines_within_bounds { a_in && b_in } else { a_in || b_in }
}

/// What the map draws, derived from its style. (The drawing bounds
/// themselves are floating point and stay with the caller, which tells the
/// library which points lie within them.)
#[derive(Debug, Clone, Copy, PartialEq, Eq, Structural)]
pub struct DerivedParams {
    pub make_points: bool,
    pub make_lines: bool,
    /// Segments need both endpoints in bounds rather than one, so nothing
    /// is drawn to off-screen points.
    pub lines_within_bounds: bool,
}

impl DerivedParams {
    /// Whether the segment between two consecutive points is drawn.
    pub fn seg_visible(&self, a_in: bool, b_in: bool) -> (visible: bool)
        ensures
            visible == seg_visible_spec(a_in, b_in, self.lines_within_bounds),
    {
        seg_visible(a_in, b_in, self.lines_within_bounds)
    }
}

/// For each point of a track (by whether it lies within the drawing
/// bounds): whether it is drawn as a point, and whether the segment from it
/// to the next point is drawn. The last point starts no segment.
pub fn tile_plan(in_bounds: &Vec<bool>, params: &DerivedParams) -> (plan: Vec<(bool, bool)>)
    ensures
        plan.len() == in_bounds.len(),
        forall|i: int| 0 <= i < in_bounds.len() ==> (#[trigger] plan@[i]).0 == (params.make_points && in_bounds@[i]),
        forall|i: int| 0 <= i < in_bounds.len() ==> (#[trigger] plan@[i]).1 == (params.make_lines && i < in_bounds.len() - 1
            && seg_visible_spec(in_bounds@[i], in_bounds@[i + 1], params.lines_within_bounds)),
{
    let make_points = params.make_points;
    let make_lines = params.make_lines;
    let lines_within_bounds = params.lines_within_bounds;
    let n = in_bounds.len();
    let mut plan: Vec<(bool, bool)> = Vec::new();
    let mut i: usize = 0;
    while i < n
        invariant
            n == in_bounds.len(),
            i <= n,
            plan.len() == i,
            forall|k: int| 0 <= k < i ==> (#[trigger] plan@[k]).0 == (make_points && in_bounds@[k]),
            forall|k: int| 0 <= k < i ==> (#[trigger] plan@[k]).1 == (make_lines && k < n - 1
                && seg_visible_spec(in_bounds@[k], in_bounds@[k + 1], lines_within_bounds)),
        decreases n - i,
    {
        let point = make_points && in_bounds[i];
        let line = make_lines && i + 1 < n && seg_visible(in_bounds[i], in_bounds[i + 1], lines_within_bounds);
        plan.push((point, line));
        i = i + 1;
    }
    plan
}

/// Statistics of one map query over all mounted databases.
#[derive(Debug, Clone, Copy, PartialEq, Eq, Structural)]
pub struct MapQueryStats {
    /// The per-mount cap on fetched points.
    pub hard_cap: u64,
    pub n_points: usize,
    pub duration_ms: u64,
    /// Whether any mount's points were decimated.
    pub decimated: bool,
    /// Whether any mount's sample was coarsened by the hard cap.
    pub memory_capped: bool,
    pub n_segs: usize,
    pub tileset_bytes: u64,
    pub footprint_bytes: u64,
}

impl MapQueryStats {
    /// Nothing queried yet.
    pub fn new(hard_cap: u64) -> (s: MapQueryStats)
        ensures
            s == (MapQueryStats {
                hard_cap,
                n_points: 0,
                duration_ms: 0,
                decimated: false,
                memory_capped: false,
                n_segs: 0,
                tileset_bytes: 0,
                footprint_bytes: 0,
            }),
    {
        MapQueryStats {
            hard_cap,
            n_points: 0,
            duration_ms: 0,
            decimated: false,
            memory_capped: false,
            n_segs: 0,
            tileset_bytes: 0,
            footprint_bytes: 0,
        }
    }

    /// Counts one mount's query: its points and time add up, and its
    /// decimation and capping flags are or-ed in.
    pub fn add_mount_query(&mut self, n_points: usize, duration_ms: u64, decimated: bool, memory_capped: bool)
        requires
            old(self).n_points + n_points <= usize::MAX,
            old(self).duration_ms + duration_ms <= u64::MAX,
        ensures
            *final(self) == (MapQueryStats {
                n_points: (old(self).n_points + n_points) as usize,
                duration_ms: (old(self).duration_ms + duration_ms) as u64,
                decimated: old(self).decimated || decimated,
                memory_capped: old(self).memory_capped || memory_capped,
                ..*old(self)
            }),
    {
        self.n_points = self.n_points + n_points;
        self.duration_ms = self.duration_ms + duration_ms;
        self.decimated = self.decimated || decimated;
        self.memory_capped = self.memory_capped || memory_capped;
    }

    /// Counts one mount's tileset: its segments and bytes add up.
    pub fn add_tileset(&mut self, n_segs: usize, tileset_bytes: u64)
        requires
            old(self).n_segs + n_segs <= usize::MAX,
            old(self).tileset_bytes + tileset_bytes <= u64::MAX,
        ensures
            *final(self) == (MapQueryStats {
                n_segs: (old(self).n_segs + n_segs) as usize,
                tileset_bytes: (old(self).tileset_bytes + tileset_bytes) as u64,
                ..*old(self)
            }),
    {
        self.n_segs = self.n_segs + n_segs;
        self.tileset_bytes = self.tileset_bytes + tileset_bytes;
    }

    /// What the next query's memory backstop measures from this one.
    pub fn last_query(&self) -> (q: LastMapQuery)
        ensures
            q == (LastMapQuery { n_points: self.n_points, tileset_bytes: self.tileset_bytes }),
    {
        LastMapQuery { n_points: self.n_points, tileset_bytes: self.tileset_bytes }
    }
}

/// Whether the map's data is rebuilt. Never before the frontend has sent
/// its state (`on_map` is None); always when forced; otherwise only while
/// the map is shown, and then when a new point would be visible or the map
/// state differs from the last build (or there was none).
pub open spec fn should_update_spec(
    force: bool,
    on_map: Option<bool>,
    new_data_visible: Option<bool>,
    state_different: Option<bool>,
) -> bool {
    match on_map {
        None => false,
        Some(shown) => force || (shown && (new_data_visible == Some(true) || !(state_different == Some(false)))),
    }
}

pub fn should_update(force: bool, on_map: Option<bool>, new_data_visible: Option<bool>, state_different: Option<bool>) -> (update: bool)
    ensures
        update == should_update_spec(force, on_map, new_data_visible, state_different),
{
    match on_map {
        None => false,
        Some(shown) => {
            if force {
                return true;
            }
            if !shown {
                return false;
            }
            let visible = match new_data_visible {
                Some(v) => v,
                None => false,
            };
            let different = match state_different {
                Some(d) => d,
                None => true,
            };
            visible || different
        },
    }
}

/// For the colormap, which points count: those within the drawing bounds
/// and those that start a drawn segment.
pub fn cmap_keep_flags(in_bounds: &Vec<bool>, lines_within_bounds: bool) -> (keep: Vec<bool>)
    ensures
        keep.len() == in_bounds.len(),
        forall|i: int| 0 <= i < in_bounds.len() ==> #[trigger] keep@[i] == (in_bounds@[i] || (i < in_bounds.len() - 1
            && seg_visible_spec(in_bounds@[i], in_bounds@[i + 1], lines_within_bounds))),
{
    let n = in_bounds.len();
    let mut keep: Vec<bool> = Vec::new();
    let mut i: usize = 0;
    while i < n
        invariant
            n == in_bounds.len(),
            i <= n,
            keep.len() == i,
            forall|k: int| 0 <= k < i ==> #[trigger] keep@[k] == (in_bounds@[k] || (k < n - 1
                && seg_visible_spec(in_bounds@[k], in_bounds@[k + 1], lines_within_bounds))),
        decreases n - i,
    {
        let k = in_bounds[i] || (i + 1 < n && seg_visible(in_bounds[i], in_bounds[i + 1], lines_within_bounds));
        keep.push(k);
        i = i + 1;
    }
    keep
}

/// Point count above which spatial mode buckets its result.
pub const SPATIAL_BUCKETING_TRIGGER: u64 = 10_000;

/// The point count the map query decimates down to: an override (the
/// text of an environment setting) when it is a number; else the user's
/// max points in temporal mode, and SPATIAL_BUCKETING_TRIGGER in spatial
/// mode.
pub fn decimation_threshold(override_text: Option<&str>, spatial_mode: bool, temporal_max_points: u64) -> (t: u64)
    ensures
        t == (match override_text {
            Some(o) => match parse_u64_spec(o@) {
                Some(v) => v,
                None => if spatial_mode { SPATIAL_BUCKETING_TRIGGER } else { temporal_max_points },
            },
            None => if spatial_mode { SPATIAL_BUCKETING_TRIGGER } else { temporal_max_points },
        }),
{
    let overridden = match override_text {
        Some(o) => parse_u64(o),
        None => None,
    };
    match overridden {
        Some(v) => v,
        None => if spatial_mode { SPATIAL_BUCKETING_TRIGGER } else { temporal_max_points },
    }
}

/// The spatial decimation cell for the map, or None when the map calls for
/// time-uniform decimation instead: in temporal mode, when markers are
/// hidden (a lines-only rendering wants a time-contiguous track), when the
/// coloring is computed from time-adjacent points, or while the time
/// series plot (which needs a time-uniform sample) is shown. The cell's
/// shift comes from the view's zoom.
pub fn spatial_cell_for(
    spatial_mode: bool,
    markers_hidden: bool,
    coloring_uses_adjacent: bool,
    time_series_shown: bool,
    cell_shift: u32,
) -> (cell: Option<SpatialCell>)
    ensures
        cell == (if !spatial_mode || markers_hidden || coloring_uses_adjacent || time_series_shown {
            None
        } else {
            Some(SpatialCell { grid_shift: cell_shift })
        }),
{
    if !spatial_mode || markers_hidden || coloring_uses_adjacent || time_series_shown {
        None
    } else {
        Some(SpatialCell { grid_shift: cell_shift })
    }
}

} // verus!
