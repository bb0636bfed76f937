//! Verified core of the stem backend: the map query text and its routing,
//! the decimation arithmetic, the grid index choices, the neighbours a
//! decimated track needs, track segmentation and timelines, cache eviction,
//! parsing of /proc text and of place properties, and the small text and
//! decision rules around them.

use vstd::prelude::*;

pub mod adjacent;
pub mod app_state;
pub mod basemap;
pub mod color;
pub mod dashboard;
pub mod events;
pub mod grid;
pub mod lib_paths;
pub mod location_config;
pub mod logs;
pub mod map_data;
pub mod memory;
pub mod mounted;
pub mod number;
pub mod paths;
pub mod pin_props;
pub mod popups;
pub mod query;
pub mod rows;
pub mod segmentation;
pub mod server;
pub mod sql;
pub mod text;
pub mod text_match;
pub mod transfer;
pub mod tz;
pub mod update;

verus! {

/// The value the host app reads back to confirm the library is linked.
pub fn get_a_value_from_rust() -> (value: u32)
    ensures
        value == 42,
{
    42
}

} // verus!
