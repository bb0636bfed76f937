//! Serving basemap tiles from the cache: content types, the empty answers
//! for unexplored tiles, and when to refresh cached data.

use vstd::prelude::*;

use crate::text::{chars_of, push_char, replace_all, replace_from};
use crate::text_match::str_eq;

verus! {

/// Seconds in a day.
pub const DAY_AS_SECS: u64 = 60 * 60 * 24;
/// Cached map data older than this is fetched again: one week.
pub const REFRESH_CACHE_AFTER: u64 = DAY_AS_SECS * 7;

/// The content type of a cached file by its extension.
pub open spec fn content_type_spec(ext: Option<Seq<char>>) -> Seq<char> {
    match ext {
        Some(e) => if e == "json"@ {
            "application/json"@
        } else if e == "pbf"@ {
            "application/x-protobuf"@
        } else if e == "png"@ {
            "image/png"@
        } else if e == "jpg"@ {
            "image/jpg"@
        } else if e == "jpeg"@ {
            "image/jpeg"@
        } else if e == "webp"@ {
            "image/webp"@
        } else {
            e
        },
        None => "unknown"@,
    }
}

/// Content type of a map data file: by its (UTF-8) extension, the
/// extension itself when unknown, "unknown" without one.
pub fn content_type(ext: Option<&str>) -> (ct: String)
    ensures
        ct@ == content_type_spec(match ext { Some(e) => Some(e@), None => None }),
{
    match ext {
        Some(e) => if str_eq(e, "json") {
            String::from_str("application/json")
        } else if str_eq(e, "pbf") {
            String::from_str("application/x-protobuf")
        } else if str_eq(e, "png") {
            String::from_str("image/png")
        } else if str_eq(e, "jpg") {
            String::from_str("image/jpg")
        } else if str_eq(e, "jpeg") {
            String::from_str("image/jpeg")
        } else if str_eq(e, "webp") {
            String::from_str("image/webp")
        } else {
            String::from_str(e)
        },
        None => String::from_str("unknown"),
    }
}

/// Whether an empty answer for this extension must be a blank image (the
/// map library rejects "no content" for images).
pub fn is_image_ext(ext: Option<&str>) -> (image: bool)
    ensures
        image == match ext {
            Some(e) => e@ == "png"@ || e@ == "webp"@ || e@ == "jpg"@ || e@ == "jpeg"@,
            None => false,
        },
{
    match ext {
        Some(e) => str_eq(e, "png") || str_eq(e, "webp") || str_eq(e, "jpg") || str_eq(e, "jpeg"),
        None => false,
    }
}

/// Whether cached data of the given age (seconds and subsecond
/// nanoseconds; None when its time is in the future) is refetched: when
/// older than a week and fetching is enabled.
pub fn should_refresh_cache(age: Option<(u64, u32)>, fetch_disabled: bool) -> (refresh: bool)
    ensures
        refresh == match age {
            Some((secs, nanos)) => (secs > REFRESH_CACHE_AFTER || (secs == REFRESH_CACHE_AFTER && nanos
                > 0)) && !fetch_disabled,
            None => false,
        },
{
    match age {
        Some((secs, nanos)) => (secs > REFRESH_CACHE_AFTER || (secs == REFRESH_CACHE_AFTER && nanos > 0))
            && !fetch_disabled,
        None => false,
    }
}

/// Whether fetching map data from the network is disabled: the user's
/// setting, off until the frontend has sent its state.
pub fn fetch_is_disabled(disable_fetch: Option<bool>) -> (disabled: bool)
    ensures
        disabled == (disable_fetch == Some(true)),
{
    match disable_fetch {
        Some(d) => d,
        None => false,
    }
}

/// Whether the automap is on: the user's setting, off until the frontend
/// has sent its state.
pub fn automap_is_on(automap: Option<bool>) -> (on: bool)
    ensures
        on == (automap == Some(true)),
{
    match automap {
        Some(a) => a,
        None => false,
    }
}

// ---------- evicting cached tiles ----------

/// A cached tile file: when it was last accessed (nanoseconds from the Unix
/// epoch, negative before it) and its length in bytes.
#[derive(Debug, Clone, Copy, PartialEq, Eq, Structural)]
pub struct CachedFile {
    pub atime: i128,
    pub len: u64,
}

/// Whether file `i` is evicted before file `j`: it was accessed earlier,
/// or at the same time and comes later in the listing.
pub open spec fn evicts_before(files: Seq<CachedFile>, i: int, j: int) -> bool {
    files[i].atime < files[j].atime || (files[i].atime == files[j].atime && i > j)
}

/// Total length of the first `k` files that are not in `evicted`.
pub open spec fn kept_size(files: Seq<CachedFile>, evicted: Seq<usize>, k: nat) -> int
    decreases k,
{
    if k == 0 {
        0
    } else {
        kept_size(files, evicted, (k - 1) as nat) + if evicted.contains((k - 1) as usize) {
            0
        } else {
            files[k - 1].len as int
        }
    }
}

proof fn lemma_kept_size_bounds(files: Seq<CachedFile>, evicted: Seq<usize>, k: nat)
    requires
        k <= files.len(),
    ensures
        0 <= kept_size(files, evicted, k) <= kept_size(files, Seq::empty(), k),
    decreases k,
{
    if k > 0 {
        lemma_kept_size_bounds(files, evicted, (k - 1) as nat);
    }
}

proof fn lemma_kept_size_evict(files: Seq<CachedFile>, evicted: Seq<usize>, m: usize, k: nat)
    requires
        !evicted.contains(m),
        k <= files.len(),
        k <= usize::MAX,
    ensures
        kept_size(files, evicted.push(m), k) == kept_size(files, evicted, k) - if m < k {
            files[m as int].len as int
        } else {
            0
        },
    decreases k,
{
    if k > 0 {
        lemma_kept_size_evict(files, evicted, m, (k - 1) as nat);
        let i = (k - 1) as usize;
        if i == m {
            assert(evicted.push(m).contains(i)) by {
                assert(evicted.push(m)[evicted.len() as int] == m);
            }
        } else {
            assert(evicted.push(m).contains(i) == evicted.contains(i)) by {
                if evicted.push(m).contains(i) {
                    let x = choose|x: int| 0 <= x < evicted.push(m).len() && evicted.push(m)[x] == i;
                    assert(x < evicted.len());
                    assert(evicted[x] == i);
                }
                if evicted.contains(i) {
                    let x = choose|x: int| 0 <= x < evicted.len() && evicted[x] == i;
                    assert(evicted.push(m)[x] == i);
                }
            }
        }
    }
}

/// Which cached files to delete to bring the cache within `max_size`
/// bytes, least recently accessed first (ties: the file later in the
/// listing first), and the size left. Files are evicted while the cache is
/// larger than `max_size`, so the last one evicted is what brought it
/// within.
pub fn plan_eviction(files: &Vec<CachedFile>, max_size: u64) -> (r: (Vec<usize>, u64))
    requires
        kept_size(files@, Seq::empty(), files.len() as nat) <= u64::MAX,
    ensures
        r.1 == kept_size(files@, r.0@, files.len() as nat),
        r.1 <= max_size,
        r.0.len() > 0 ==> r.1 + files@[r.0@.last() as int].len > max_size,
        forall|a: int| 0 <= a < r.0.len() ==> (#[trigger] r.0@[a]) < files.len(),
        forall|a: int, b: int| 0 <= a < b < r.0.len() ==> evicts_before(files@, #[trigger] r.0@[a] as int, #[trigger] r.0@[b] as int),
        forall|a: int, j: usize| 0 <= a < r.0.len() && j < files.len() && !(#[trigger] r.0@.contains(j))
            ==> evicts_before(files@, #[trigger] r.0@[a] as int, j as int),
{
    let n = files.len();
    let ghost f = files@;
    let mut total: u64 = 0;
    let mut i: usize = 0;
    while i < n
        invariant
            n == files.len(),
            f == files@,
            i <= n,
            total == kept_size(f, Seq::empty(), i as nat),
            kept_size(f, Seq::empty(), n as nat) <= u64::MAX,
        decreases n - i,
    {
        proof {
            lemma_kept_size_bounds(f, Seq::empty(), n as nat);
            lemma_kept_size_monotone(f, (i + 1) as nat, n as nat);
        }
        total = total + files[i].len;
        i = i + 1;
    }
    let mut evicted: Vec<usize> = Vec::new();
    let mut is_evicted: Vec<bool> = Vec::new();
    let mut k: usize = 0;
    while k < n
        invariant
            n == files.len(),
            k <= n,
            is_evicted.len() == k,
            forall|x: int| 0 <= x < k ==> !is_evicted@[x],
        decreases n - k,
    {
        is_evicted.push(false);
        k = k + 1;
    }
    let mut size = total;
    proof {
        assert(evicted@ =~= Seq::<usize>::empty());
        lemma_count_true_none(is_evicted@);
    }
    while size > max_size
        invariant
            n == files.len(),
            f == files@,
            is_evicted.len() == n,
            forall|x: int| 0 <= x < n ==> is_evicted@[x] == evicted@.contains(x as usize),
            forall|a: int| 0 <= a < evicted.len() ==> (#[trigger] evicted@[a]) < n,
            evicted.len() == count_true(is_evicted@),
            size == kept_size(f, evicted@, n as nat),
            evicted.len() > 0 ==> size + f[evicted@.last() as int].len > max_size,
            forall|a: int, b: int| 0 <= a < b < evicted.len() ==> evicts_before(f, #[trigger] evicted@[a] as int, #[trigger] evicted@[b] as int),
            forall|a: int, j: usize| 0 <= a < evicted.len() && j < n && !(#[trigger] evicted@.contains(j))
                ==> evicts_before(f, #[trigger] evicted@[a] as int, j as int),
        decreases n - evicted.len(),
    {
        // the least recently accessed file still kept
        let mut best: usize = n;
        let mut j: usize = 0;
        while j < n
            invariant
                n == files.len(),
                f == files@,
                is_evicted.len() == n,
                j <= n,
                best == n || (best < j && !is_evicted@[best as int]),
                forall|x: int| 0 <= x < j && !is_evicted@[x] ==> best < n && (x == best || evicts_before(f, best as int, x)),
            decreases n - j,
        {
            if !is_evicted[j] {
                if best == n || files[j].atime < files[best].atime || files[j].atime == files[best].atime {
                    best = j;
                }
            }
            j = j + 1;
        }
        proof {
            if best == n {
                // every file is evicted, so nothing is kept and size is 0
                assert forall|x: usize| x < n implies #[trigger] evicted@.contains(x) by {
                    assert(is_evicted@[x as int]);
                }
                lemma_all_evicted_size(f, evicted@, n as nat);
                assert(false);
            }
            lemma_count_true_set(is_evicted@, best as int);
            lemma_count_true_bound(is_evicted@.update(best as int, true));
        }
        let ghost old_ev = evicted@;
        proof {
            lemma_kept_size_evict(f, old_ev, best, n as nat);
            lemma_kept_size_bounds(f, old_ev.push(best), n as nat);
        }
        size = size - files[best].len;
        evicted.push(best);
        is_evicted.set(best, true);
        proof {
            assert(evicted@ == old_ev.push(best));
            assert forall|x: int| 0 <= x < n implies is_evicted@[x] == evicted@.contains(x as usize) by {
                if x == best {
                    assert(evicted@[old_ev.len() as int] == best);
                } else {
                    if evicted@.contains(x as usize) {
                        let y = choose|y: int| 0 <= y < evicted@.len() && evicted@[y] == x as usize;
                        assert(y < old_ev.len());
                        assert(old_ev[y] == x as usize);
                    }
                    if old_ev.contains(x as usize) {
                        let y = choose|y: int| 0 <= y < old_ev.len() && old_ev[y] == x as usize;
                        assert(evicted@[y] == x as usize);
                    }
                }
            }
            assert forall|a: int, b: int| 0 <= a < b < evicted.len() implies evicts_before(f, #[trigger] evicted@[a] as int, #[trigger] evicted@[b] as int) by {
                if b == old_ev.len() {
                    assert(!old_ev.contains(best));
                    assert(evicted@[a] == old_ev[a]);
                }
            }
            assert forall|a: int, x: usize| 0 <= a < evicted.len() && x < n && !(#[trigger] evicted@.contains(x))
                implies evicts_before(f, #[trigger] evicted@[a] as int, x as int) by {
                assert(!is_evicted@[x as int]);
                if a < old_ev.len() {
                    assert(evicted@[a] == old_ev[a]);
                    assert(!old_ev.contains(x)) by {
                        if old_ev.contains(x) {
                            let y = choose|y: int| 0 <= y < old_ev.len() && old_ev[y] == x;
                            assert(evicted@[y] == x);
                        }
                    }
                } else {
                    assert(x != best);
                }
            }
        }
    }
    (evicted, size)
}

/// Number of set flags.
spec fn count_true(s: Seq<bool>) -> nat
    decreases s.len(),
{
    if s.len() == 0 {
        0
    } else {
        count_true(s.drop_last()) + if s.last() { 1nat } else { 0nat }
    }
}

proof fn lemma_count_true_bound(s: Seq<bool>)
    ensures
        count_true(s) <= s.len(),
    decreases s.len(),
{
    if s.len() > 0 {
        lemma_count_true_bound(s.drop_last());
    }
}

proof fn lemma_count_true_none(s: Seq<bool>)
    requires
        forall|x: int| 0 <= x < s.len() ==> !s[x],
    ensures
        count_true(s) == 0,
    decreases s.len(),
{
    if s.len() > 0 {
        lemma_count_true_none(s.drop_last());
    }
}

proof fn lemma_count_true_set(s: Seq<bool>, m: int)
    requires
        0 <= m < s.len(),
        !s[m],
    ensures
        count_true(s.update(m, true)) == count_true(s) + 1,
    decreases s.len(),
{
    let t = s.update(m, true);
    if m < s.len() - 1 {
        assert(t.drop_last() =~= s.drop_last().update(m, true));
        lemma_count_true_set(s.drop_last(), m);
    } else {
        assert(t.drop_last() =~= s.drop_last());
    }
}

proof fn lemma_kept_size_monotone(files: Seq<CachedFile>, i: nat, k: nat)
    requires
        i <= k <= files.len(),
    ensures
        kept_size(files, Seq::empty(), i) <= kept_size(files, Seq::empty(), k),
    decreases k,
{
    if i < k {
        lemma_kept_size_monotone(files, i, (k - 1) as nat);
    }
}

proof fn lemma_all_evicted_size(files: Seq<CachedFile>, evicted: Seq<usize>, k: nat)
    requires
        forall|x: usize| x < k ==> #[trigger] evicted.contains(x),
    ensures
        kept_size(files, evicted, k) == 0,
    decreases k,
{
    if k > 0 {
        lemma_all_evicted_size(files, evicted, (k - 1) as nat);
    }
}

// ---------- serving style json through the backend ----------

/// First position at or after `i` whose character is not '/', or the end.
pub open spec fn skip_slashes(s: Seq<char>, i: int) -> int
    decreases s.len() - i,
{
    if i >= s.len() || s[i] != '/' { if i >= s.len() { s.len() as int } else { i } } else { skip_slashes(s, i + 1) }
}

/// First position at or after `i` whose character is '/', or the end.
pub open spec fn next_slash(s: Seq<char>, i: int) -> int
    decreases s.len() - i,
{
    if i >= s.len() { s.len() as int } else if s[i] == '/' { i } else { next_slash(s, i + 1) }
}

/// The first segment of a request path: `path.trim_matches('/')
/// .split('/').next()`.
pub open spec fn first_segment(path: Seq<char>) -> Seq<char> {
    let a = skip_slashes(path, 0);
    path.subrange(a, next_slash(path, a))
}

/// The URL of the backend's map data route for a request to `host` whose
/// path starts with the backend's scope.
pub fn backend_url(host: &str, request_path: &str) -> (url: String)
    ensures
        url@ == "http://"@ + host@ + "/"@ + first_segment(request_path@) + "/mapdata"@,
{
    let cs = chars_of(request_path);
    let n = cs.len();
    let mut a: usize = 0;
    while a < n && cs[a] == '/'
        invariant
            cs@ == request_path@,
            n == cs.len(),
            a <= n,
            skip_slashes(cs@, 0) == skip_slashes(cs@, a as int),
        decreases n - a,
    {
        a = a + 1;
    }
    let mut b: usize = a;
    while b < n && cs[b] != '/'
        invariant
            cs@ == request_path@,
            n == cs.len(),
            a <= b <= n,
            next_slash(cs@, a as int) == next_slash(cs@, b as int),
        decreases n - b,
    {
        b = b + 1;
    }
    let mut url = String::from_str("http://");
    url.append(host);
    url.append("/");
    let mut k = a;
    let ghost head = url@;
    while k < b
        invariant
            cs@ == request_path@,
            a <= k <= b <= n,
            n == cs.len(),
            url@ == head + request_path@.subrange(a as int, k as int),
        decreases b - k,
    {
        push_char(&mut url, cs[k]);
        k = k + 1;
        assert(url@ =~= head + request_path@.subrange(a as int, k as int));
    }
    url.append("/mapdata");
    url
}

/// A map data file as served: style json has the remote server's URL
/// replaced by the backend's everywhere; other files are served as they
/// are.
pub fn substitute_urls(body: String, ext: Option<&str>, remote_url: &str, backend: &str) -> (served: String)
    requires
        remote_url@.len() > 0,
    ensures
        served@ == (if ext matches Some(e) && e@ == "json"@ {
            replace_from(body@, remote_url@, backend@, 0)
        } else {
            body@
        }),
{
    let is_json = match ext {
        Some(e) => str_eq(e, "json"),
        None => false,
    };
    if is_json {
        replace_all(body.as_str(), remote_url, backend)
    } else {
        body
    }
}

} // verus!
