//! Web Mercator grid cells for the spatial decimation query.
//!
//! A point's grid coordinates (gx, gy) are u32 positions over the world; a
//! cell at level L is the 0.5 CSS px cell at view zoom L, `g >> (22 - L)`.
//! The levels in `index_levels` carry a (cy, cx, timestamp) index.

use vstd::prelude::*;

use crate::text::{decimal, push_u64};

verus! {

/// Grid resolution: 2^32 divisions per axis.
pub const GRID_BITS: u32 = 32;

/// Below this many cells across a rectangle's smaller side, a level is too
/// coarse to serve as its bounds filter.
pub const MIN_CELLS_ACROSS: u32 = 16;

/// Cell levels with a (cy, cx, timestamp) index, coarsest first.
pub open spec fn index_levels() -> Seq<u8> {
    seq![8u8, 10u8, 12u8]
}

pub open spec fn level_shift_spec(level: u8) -> u32 {
    (GRID_BITS - 10 - level) as u32
}

/// Per-axis shift from grid coordinates to the cell at `level` (0.5 px at
/// view zoom `level`, 512 px tiles: 2^(level + 10) divisions per axis).
pub fn level_shift(level: u8) -> (s: u32)
    requires
        level <= 22,
    ensures
        s == level_shift_spec(level),
        s == 22 - level,
{
    GRID_BITS - 10 - level as u32
}

/// Name of the index of the cells at `level`.
pub fn index_name(level: u8) -> (name: String)
    ensures
        name@ == "location_cell"@ + decimal(level as nat),
{
    let mut name = String::from_str("location_cell");
    push_u64(&mut name, level as u64);
    name
}

/// Which index serves a query cell of the given shift.
#[derive(Debug, Clone, Copy, PartialEq, Eq, Structural)]
pub enum IndexUse {
    /// The index cell is the query cell or finer: walk occupied index cells
    /// and take the newest point per query cell.
    Walk { level: u8 },
    /// The query cell is finer than every index: the coarsest index only
    /// serves as a 2-D bounds filter and the grouping reads row coordinates.
    Filter { level: u8 },
}

/// `level` is the first indexed level (coarsest first) whose cell is not
/// coarser than a query cell of shift `query_shift`.
pub open spec fn is_first_walk_level(level: u8, query_shift: u32) -> bool {
    exists|i: int|
        0 <= i < index_levels().len() && index_levels()[i] == level && level_shift_spec(level)
            <= query_shift && forall|j: int|
            0 <= j < i ==> level_shift_spec(#[trigger] index_levels()[j]) > query_shift
}

pub open spec fn index_for_spec(query_shift: u32) -> IndexUse {
    if level_shift_spec(8) <= query_shift {
        IndexUse::Walk { level: 8 }
    } else if level_shift_spec(10) <= query_shift {
        IndexUse::Walk { level: 10 }
    } else if level_shift_spec(12) <= query_shift {
        IndexUse::Walk { level: 12 }
    } else {
        IndexUse::Filter { level: 8 }
    }
}

/// The coarsest index whose cell is not coarser than the query cell, else
/// the coarsest index as a bounds filter.
pub fn index_for(query_shift: u32) -> (r: IndexUse)
    ensures
        r == index_for_spec(query_shift),
        match r {
            IndexUse::Walk { level } => is_first_walk_level(level, query_shift),
            IndexUse::Filter { level } => level == index_levels()[0] && forall|i: int|
                0 <= i < index_levels().len() ==> level_shift_spec(#[trigger] index_levels()[i])
                    > query_shift,
        },
{
    let levels: [u8; 3] = [8, 10, 12];
    let mut i: usize = 0;
    while i < 3
        invariant
            0 <= i <= 3,
            levels@ == index_levels(),
            forall|j: int| 0 <= j < i ==> level_shift_spec(#[trigger] index_levels()[j]) > query_shift,
        decreases 3 - i,
    {
        let l = levels[i];
        if level_shift(l) <= query_shift {
            assert(index_levels()[i as int] == l);
            return IndexUse::Walk { level: l };
        }
        i = i + 1;
    }
    IndexUse::Filter { level: levels[0] }
}

/// Level `l` spans a `w` x `h` rectangle at least MIN_CELLS_ACROSS times.
pub open spec fn spans_enough(l: u8, w: u32, h: u32) -> bool {
    let s = level_shift_spec(l);
    let cw = (w >> s) as int;
    let ch = (h >> s) as int;
    (if cw < ch { cw } else { ch }) + 1 >= MIN_CELLS_ACROSS
}

pub open spec fn filter_level_spec(w: u32, h: u32) -> u8 {
    if spans_enough(8, w, h) {
        8
    } else if spans_enough(10, w, h) {
        10
    } else {
        12
    }
}

/// Index level for a 2-D bounds filter over a rectangle `w` x `h` grid
/// units: the coarsest level whose cells span the rectangle's smaller side
/// at least MIN_CELLS_ACROSS times, else the finest level.
pub fn filter_level(w: u32, h: u32) -> (level: u8)
    ensures
        level == filter_level_spec(w, h),
        (exists|i: int|
            0 <= i < index_levels().len() && index_levels()[i] == level && spans_enough(level, w, h)
                && forall|j: int| 0 <= j < i ==> !spans_enough(#[trigger] index_levels()[j], w, h))
            || (level == index_levels()[2] && forall|i: int|
            0 <= i < index_levels().len() ==> !spans_enough(#[trigger] index_levels()[i], w, h)),
{
    let levels: [u8; 3] = [8, 10, 12];
    let mut i: usize = 0;
    while i < 3
        invariant
            0 <= i <= 3,
            levels@ == index_levels(),
            forall|j: int| 0 <= j < i ==> !spans_enough(#[trigger] index_levels()[j], w, h),
        decreases 3 - i,
    {
        let l = levels[i];
        let s = level_shift(l);
        let cw = w >> s;
        let ch = h >> s;
        let m = if cw < ch { cw } else { ch };
        assert(s >= 10);
        assert(cw <= w >> 10u32) by (bit_vector) requires s >= 10, s < 32, cw == w >> s;
        assert(w >> 10u32 < 0x400000u32) by (bit_vector);
        if m + 1 >= MIN_CELLS_ACROSS {
            assert(index_levels()[i as int] == l);
            return l;
        }
        i = i + 1;
    }
    levels[2]
}

} // verus!
