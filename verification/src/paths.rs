//! The app's directories and the files and directories under them.
//!
//! Paths are strings; joining follows `PathBuf::push` for a relative name:
//! a separator goes between the two unless the base is empty or already
//! ends with one.

use vstd::prelude::*;

verus! {

pub const DB_PREFIX: &'static str = "sqlite://";
pub const DB_FNAME: &'static str = "data.db";
/// Directory with cached map data.
pub const MAP_CACHE_DIR: &'static str = "map_cache";
/// Directory with the automap screen / unexplored area.
pub const UNEXPLORED_AREA_DIR: &'static str = "unexplored_area";
/// Directory with the hourly logs.
pub const LOGS_DIR: &'static str = "logs";

/// `base` joined with the relative path `name`.
pub open spec fn join_spec(base: Seq<char>, name: Seq<char>) -> Seq<char> {
    if base.len() == 0 || base.last() == '/' { base + name } else { base + seq!['/'] + name }
}

/// A relative path: nonempty and not starting at the root.
pub open spec fn is_relative(name: Seq<char>) -> bool {
    name.len() > 0 && name[0] != '/'
}

/// `Path::join` for a relative path.
pub fn join(base: &str, name: &str) -> (joined: String)
    requires
        is_relative(name@),
    ensures
        joined@ == join_spec(base@, name@),
{
    let mut joined = String::from_str(base);
    let n = base.unicode_len();
    if n > 0 && base.get_char(n - 1) != '/' {
        crate::text::push_char(&mut joined, '/');
    }
    joined.append(name);
    joined
}

/// The app's directories.
#[derive(Debug, Clone)]
pub struct Paths {
    pub documents_dir: String,
    pub library_dir: String,
    pub temp_dir: String,
    pub bundle_dir: String,
}

/// The documents directory: persistent, shareable user data.
pub fn get_documents_dir(paths: &Paths) -> (dir: String)
    ensures
        dir@ == paths.documents_dir@,
{
    paths.documents_dir.clone()
}

/// The library directory: persistent application data.
pub fn get_library_dir(paths: &Paths) -> (dir: String)
    ensures
        dir@ == paths.library_dir@,
{
    paths.library_dir.clone()
}

/// The bundle directory: read-only data packaged with the app.
pub fn get_bundle_dir(paths: &Paths) -> (dir: String)
    ensures
        dir@ == paths.bundle_dir@,
{
    paths.bundle_dir.clone()
}

/// The temporary directory.
pub fn get_tmp_dir(paths: &Paths) -> (dir: String)
    ensures
        dir@ == paths.temp_dir@,
{
    paths.temp_dir.clone()
}

/// Cached map data: resilient to being cleared out, so under tmp.
pub fn get_map_cache_dir(paths: &Paths) -> (dir: String)
    ensures
        dir@ == join_spec(paths.temp_dir@, MAP_CACHE_DIR@),
{
    proof { reveal_strlit("map_cache"); }
    join(paths.temp_dir.as_str(), MAP_CACHE_DIR)
}

/// The unexplored area: must persist, so under the library directory.
pub fn get_unexplored_data_dir(paths: &Paths) -> (dir: String)
    ensures
        dir@ == join_spec(paths.library_dir@, UNEXPLORED_AREA_DIR@),
{
    proof { reveal_strlit("unexplored_area"); }
    join(paths.library_dir.as_str(), UNEXPLORED_AREA_DIR)
}

/// The database URL: the database file in the documents directory.
pub fn get_db_path_helper(paths: &Paths) -> (url: String)
    ensures
        url@ == DB_PREFIX@ + join_spec(paths.documents_dir@, DB_FNAME@),
{
    proof { reveal_strlit("data.db"); }
    let mut url = String::from_str(DB_PREFIX);
    let file = join(paths.documents_dir.as_str(), DB_FNAME);
    url.append(file.as_str());
    url
}

/// The database URL of the app's directories.
pub fn get_db_path(paths: &Paths) -> (url: String)
    ensures
        url@ == DB_PREFIX@ + join_spec(paths.documents_dir@, DB_FNAME@),
{
    get_db_path_helper(paths)
}

/// The directory of the hourly logs, under the library directory.
pub fn get_logs_dir_helper(paths: &Paths) -> (dir: String)
    ensures
        dir@ == join_spec(paths.library_dir@, LOGS_DIR@),
{
    proof { reveal_strlit("logs"); }
    join(paths.library_dir.as_str(), LOGS_DIR)
}

/// The directory of the hourly logs of the app's directories.
pub fn get_logs_dir(paths: &Paths) -> (dir: String)
    ensures
        dir@ == join_spec(paths.library_dir@, LOGS_DIR@),
{
    get_logs_dir_helper(paths)
}

} // verus!
