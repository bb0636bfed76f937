use stem::basemap::{backend_url, plan_eviction, substitute_urls, CachedFile};

fn file(atime: i128, len: u64) -> CachedFile {
    CachedFile { atime, len }
}

#[test]
fn eviction_takes_least_recently_accessed_first() {
    let files = vec![file(30, 100), file(10, 100), file(20, 100), file(40, 100)];
    let (evicted, size) = plan_eviction(&files, 250);
    assert_eq!(evicted, vec![1, 2]);
    assert_eq!(size, 200);
}

#[test]
fn eviction_stops_once_within_the_limit() {
    let files = vec![file(1, 50), file(2, 50), file(3, 50)];
    let (evicted, size) = plan_eviction(&files, 150);
    assert!(evicted.is_empty());
    assert_eq!(size, 150);
    let (evicted, size) = plan_eviction(&files, 149);
    assert_eq!(evicted, vec![0]);
    assert_eq!(size, 100);
    let (evicted, size) = plan_eviction(&files, 0);
    assert_eq!(evicted, vec![0, 1, 2]);
    assert_eq!(size, 0);
}

#[test]
fn eviction_ties_go_to_the_later_file() {
    let files = vec![file(5, 10), file(5, 10), file(9, 10)];
    let (evicted, _) = plan_eviction(&files, 15);
    assert_eq!(evicted, vec![1, 0]);
    assert_eq!(plan_eviction(&vec![], 0), (vec![], 0));
}

#[test]
fn backend_url_uses_the_first_path_segment() {
    assert_eq!(
        backend_url("127.0.0.1:8000", "/1234/mapdata/tiles/1/2/3.pbf"),
        "http://127.0.0.1:8000/1234/mapdata"
    );
    assert_eq!(backend_url("h", "//scope"), "http://h/scope/mapdata");
    assert_eq!(backend_url("h", "/"), "http://h//mapdata");
}

#[test]
fn urls_substituted_in_json_only() {
    let remote = "https://api.maptiler.com";
    let body = r#"{"a":"https://api.maptiler.com/x","b":"https://api.maptiler.com/y"}"#.to_string();
    assert_eq!(
        substitute_urls(body.clone(), Some("json"), remote, "http://h/s/mapdata"),
        r#"{"a":"http://h/s/mapdata/x","b":"http://h/s/mapdata/y"}"#
    );
    assert_eq!(substitute_urls(body.clone(), Some("pbf"), remote, "http://h/s/mapdata"), body);
    assert_eq!(substitute_urls(body.clone(), None, remote, "x"), body);
}
