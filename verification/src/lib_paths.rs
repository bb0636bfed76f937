//! Directories of the core library, which the host app sets at launch and
//! the library reads back.

use vstd::prelude::*;

use crate::paths::{join, join_spec, DB_FNAME, DB_PREFIX};

verus! {

/// File of the generated visualization.
pub const VIZ_FNAME: &'static str = "viz.html";

/// The directories known to the library; unset until the host app sets
/// them.
#[derive(Debug, Clone)]
pub struct Paths {
    pub documents_dir: Option<String>,
    pub library_dir: Option<String>,
    pub temp_dir: Option<String>,
    pub bundle_dir: Option<String>,
}

/// Reading a directory that was never set.
#[derive(Debug, Clone, Copy, PartialEq, Eq, Structural)]
pub enum PathsError {
    DocumentsDirNotSet,
}

impl PathsError {
    /// The message of the error.
    pub fn message(&self) -> (m: String)
        ensures
            m@ == "Documents directory not set! Call set_app_dirs() at startup."@,
    {
        String::from_str("Documents directory not set! Call set_app_dirs() at startup.")
    }
}

impl Paths {
    /// No directory set.
    pub fn new_empty() -> (p: Paths)
        ensures
            p.documents_dir.is_none(),
            p.library_dir.is_none(),
            p.temp_dir.is_none(),
            p.bundle_dir.is_none(),
    {
        Paths { documents_dir: None, library_dir: None, temp_dir: None, bundle_dir: None }
    }

    pub fn new(
        documents_dir: Option<String>,
        library_dir: Option<String>,
        temp_dir: Option<String>,
        bundle_dir: Option<String>,
    ) -> (p: Paths)
        ensures
            p.documents_dir == documents_dir,
            p.library_dir == library_dir,
            p.temp_dir == temp_dir,
            p.bundle_dir == bundle_dir,
    {
        Paths { documents_dir, library_dir, temp_dir, bundle_dir }
    }
}

/// A string result taken by its text.
pub open spec fn text_result(r: Result<String, PathsError>) -> Result<Seq<char>, PathsError> {
    match r {
        Ok(s) => Ok(s@),
        Err(e) => Err(e),
    }
}

/// What reading the documents directory gives.
pub open spec fn documents_dir_result(state: Paths) -> Result<Seq<char>, PathsError> {
    match state.documents_dir {
        Some(d) => Ok(d@),
        None => Err(PathsError::DocumentsDirNotSet),
    }
}

/// What reading the database URL gives.
pub open spec fn db_path_result(state: Paths) -> Result<Seq<char>, PathsError> {
    match state.documents_dir {
        Some(d) => Ok(DB_PREFIX@ + join_spec(d@, DB_FNAME@)),
        None => Err(PathsError::DocumentsDirNotSet),
    }
}

/// Replaces the directories with `paths_to_set`.
pub fn set_app_dirs(state: &mut Paths, paths_to_set: Paths)
    ensures
        final(state).documents_dir == paths_to_set.documents_dir,
        final(state).library_dir == paths_to_set.library_dir,
        final(state).temp_dir == paths_to_set.temp_dir,
        final(state).bundle_dir == paths_to_set.bundle_dir,
{
    *state = paths_to_set;
}

/// The documents directory, or an error when it was never set.
pub fn get_documents_dir(state: &Paths) -> (r: Result<String, PathsError>)
    ensures
        text_result(r) == documents_dir_result(*state),
{
    match &state.documents_dir {
        Some(d) => Ok(d.clone()),
        None => Err(PathsError::DocumentsDirNotSet),
    }
}

/// The database URL: the database file in the documents directory.
pub fn get_db_path(state: &Paths) -> (r: Result<String, PathsError>)
    ensures
        text_result(r) == db_path_result(*state),
{
    proof { reveal_strlit("data.db"); }
    let dir = get_documents_dir(state)?;
    let mut url = String::from_str(DB_PREFIX);
    let file = join(dir.as_str(), DB_FNAME);
    url.append(file.as_str());
    Ok(url)
}

/// The visualization file in the documents directory, which must be set.
pub fn get_viz_path(state: &Paths) -> (path: String)
    requires
        state.documents_dir.is_some(),
    ensures
        path@ == join_spec(state.documents_dir.unwrap()@, VIZ_FNAME@),
{
    proof { reveal_strlit("viz.html"); }
    let dir = match &state.documents_dir {
        Some(d) => d,
        None => { return String::new(); },
    };
    join(dir.as_str(), VIZ_FNAME)
}

/// Directories read back as they were set: once `set_app_dirs` has set a
/// documents directory, reading it gives that directory and the database
/// URL names the database file in it; before any is set, both reads fail
/// with `DocumentsDirNotSet`.
pub proof fn dirs_read_back_as_set(state: Paths, set: Paths)
    requires
        state.documents_dir == set.documents_dir,
    ensures
        set.documents_dir is Some ==> documents_dir_result(state) == Ok::<Seq<char>, PathsError>(
            set.documents_dir.unwrap()@,
        ),
        set.documents_dir is Some ==> db_path_result(state) == Ok::<Seq<char>, PathsError>(
            DB_PREFIX@ + join_spec(set.documents_dir.unwrap()@, DB_FNAME@),
        ),
        set.documents_dir is None ==> documents_dir_result(state) == Err::<Seq<char>, PathsError>(
            PathsError::DocumentsDirNotSet,
        ) && db_path_result(state) == Err::<Seq<char>, PathsError>(PathsError::DocumentsDirNotSet),
{
}

} // verus!
