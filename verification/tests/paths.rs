use stem::lib_paths;
use stem::paths::{
    get_db_path, get_db_path_helper, get_documents_dir, get_logs_dir_helper, get_map_cache_dir,
    get_unexplored_data_dir, join, Paths,
};

fn test_paths(dir: &str) -> Paths {
    Paths {
        documents_dir: join(dir, "Documents"),
        library_dir: join(dir, "Library"),
        temp_dir: join(dir, "tmp"),
        bundle_dir: join(dir, "Bundle"),
    }
}

#[test]
fn paths_test_set_paths() {
    let dir = String::from("./test_set_paths/");
    let paths = test_paths(&dir);
    assert_eq!(get_documents_dir(&paths), "./test_set_paths/Documents");
    let expected = format!("{}{}{}{}", "sqlite://", dir, "Documents/", "data.db");
    assert_eq!(get_db_path(&paths), expected);
}

#[test]
fn joined_paths() {
    assert_eq!(join("", "a"), "a");
    assert_eq!(join("/x/", "a"), "/x/a");
    assert_eq!(join("/x", "a"), "/x/a");
    let paths = test_paths("/root");
    assert_eq!(get_db_path_helper(&paths), "sqlite:///root/Documents/data.db");
    assert_eq!(get_logs_dir_helper(&paths), "/root/Library/logs");
    assert_eq!(get_map_cache_dir(&paths), "/root/tmp/map_cache");
    assert_eq!(get_unexplored_data_dir(&paths), "/root/Library/unexplored_area");
}

#[test]
fn library_dirs_read_back() {
    let mut state = lib_paths::Paths::new_empty();
    assert_eq!(lib_paths::get_documents_dir(&state), Err(lib_paths::PathsError::DocumentsDirNotSet));
    assert!(lib_paths::get_db_path(&state).is_err());
    lib_paths::set_app_dirs(
        &mut state,
        lib_paths::Paths::new(Some("./test_set_paths/Documents".into()), None, None, None),
    );
    assert_eq!(lib_paths::get_documents_dir(&state).unwrap(), "./test_set_paths/Documents");
    assert_eq!(lib_paths::get_db_path(&state).unwrap(), "sqlite://./test_set_paths/Documents/data.db");
    assert_eq!(lib_paths::get_viz_path(&state), "./test_set_paths/Documents/viz.html");
    assert_eq!(
        lib_paths::PathsError::DocumentsDirNotSet.message(),
        "Documents directory not set! Call set_app_dirs() at startup."
    );
}

#[test]
fn test_storage_dir_update() {
    let mut state = lib_paths::Paths::new_empty();
    assert!(lib_paths::get_documents_dir(&state).is_err());
    let dir = String::from("./");
    lib_paths::set_app_dirs(&mut state, lib_paths::Paths::new(Some(dir.clone()), None, None, None));
    assert_eq!(lib_paths::get_documents_dir(&state).unwrap(), dir);
}

#[test]
fn test_app_dir_update() {
    let paths = test_paths("./test_app_dir_update/");
    let mut state = lib_paths::Paths::new_empty();
    lib_paths::set_app_dirs(
        &mut state,
        lib_paths::Paths::new(
            Some(paths.documents_dir.clone()),
            Some(paths.library_dir.clone()),
            Some(paths.temp_dir.clone()),
            Some(paths.bundle_dir.clone()),
        ),
    );
    assert_eq!(lib_paths::get_documents_dir(&state).unwrap(), paths.documents_dir);
    assert_eq!(state.library_dir, Some(paths.library_dir.clone()));
    assert_eq!(state.bundle_dir, Some(paths.bundle_dir.clone()));
}

#[test]
fn app_directories() {
    let paths = test_paths("/r");
    assert_eq!(stem::paths::get_library_dir(&paths), "/r/Library");
    assert_eq!(stem::paths::get_bundle_dir(&paths), "/r/Bundle");
    assert_eq!(stem::paths::get_tmp_dir(&paths), "/r/tmp");
    assert_eq!(stem::paths::get_logs_dir(&paths), "/r/Library/logs");
}
