//! Memory budgets: the backend's backstop on fetched map points and the
//! database page-cache size.

use vstd::prelude::*;

use crate::number::{parse_u64, parse_u64_spec};
use crate::text::{chars_of, decimal, push_char, push_u64};

verus! {

/// Bytes per point assumed when there is no usable measurement.
pub const FALLBACK_BYTES_PER_POINT: u64 = 80;
/// The backstop never goes below this many points.
pub const MIN_BACKSTOP_POINTS: u64 = 100_000;
/// Connections per database pool.
pub const DB_POOL_MAX_CONNECTIONS: u32 = 10;
/// Bounds of the per-connection page cache, in KiB.
pub const MIN_CACHE_KIB: u64 = 2_000;
pub const MAX_CACHE_KIB: u64 = 200_000;

/// Size of the last map query: points fetched and bytes of the tile
/// working sets built from them.
#[derive(Debug, Clone, Copy, PartialEq, Eq, Structural)]
pub struct LastMapQuery {
    pub n_points: usize,
    pub tileset_bytes: u64,
}

/// Bytes per point of the working sets: measured on the last query when it
/// had at least 1000 points and some bytes, else the fallback; never below
/// the fallback.
pub open spec fn bytes_per_point(last: Option<LastMapQuery>) -> u64 {
    let measured = match last {
        Some(s) => if s.n_points >= 1000 && s.tileset_bytes > 0 {
            (s.tileset_bytes / (s.n_points as u64)) as u64
        } else {
            FALLBACK_BYTES_PER_POINT
        },
        None => FALLBACK_BYTES_PER_POINT,
    };
    if measured > FALLBACK_BYTES_PER_POINT { measured } else { FALLBACK_BYTES_PER_POINT }
}

/// The per-mount cap on fetched points: a quarter of physical memory, split
/// across the mounts, divided by the bytes per point; at least
/// MIN_BACKSTOP_POINTS.
pub fn backend_backstop_points(last: Option<LastMapQuery>, physical_memory: u64, n_mounts: usize) -> (cap: u64)
    ensures
        ({
            let mounts = if n_mounts < 1 { 1 } else { n_mounts as int };
            let points = (physical_memory as int) / 4 / (bytes_per_point(last) as int) / mounts;
            cap == (if points > MIN_BACKSTOP_POINTS { points } else { MIN_BACKSTOP_POINTS as int })
        }),
{
    let measured = match last {
        Some(s) => if s.n_points >= 1000 && s.tileset_bytes > 0 {
            s.tileset_bytes / (s.n_points as u64)
        } else {
            FALLBACK_BYTES_PER_POINT
        },
        None => FALLBACK_BYTES_PER_POINT,
    };
    let rate = if measured > FALLBACK_BYTES_PER_POINT { measured } else { FALLBACK_BYTES_PER_POINT };
    let budget = physical_memory / 4;
    let mounts: u64 = if n_mounts < 1 { 1 } else { n_mounts as u64 };
    let points = budget / rate / mounts;
    if points > MIN_BACKSTOP_POINTS { points } else { MIN_BACKSTOP_POINTS }
}

/// Per-connection page-cache size in KiB: physical memory / 16 split
/// across a full pool, clamped to [MIN_CACHE_KIB, MAX_CACHE_KIB].
pub open spec fn cache_kib(physical_memory: u64) -> int {
    let k = (physical_memory as int) / 16 / (DB_POOL_MAX_CONNECTIONS as int) / 1024;
    if k < MIN_CACHE_KIB { MIN_CACHE_KIB as int } else if k > MAX_CACHE_KIB { MAX_CACHE_KIB as int } else { k }
}

/// The cache_size pragma value: negative, meaning KiB.
pub fn db_cache_size_pragma(physical_memory: u64) -> (pragma: String)
    ensures
        pragma@ == "-"@ + decimal(cache_kib(physical_memory) as nat),
{
    let budget = physical_memory / 16;
    let per_conn_kib = budget / DB_POOL_MAX_CONNECTIONS as u64 / 1024;
    let k = if per_conn_kib < MIN_CACHE_KIB {
        MIN_CACHE_KIB
    } else if per_conn_kib > MAX_CACHE_KIB {
        MAX_CACHE_KIB
    } else {
        per_conn_kib
    };
    let mut pragma = String::from_str("-");
    push_u64(&mut pragma, k);
    pragma
}

// ---------- reading /proc ----------

/// Physical memory assumed when it cannot be read: a weak device's 2 GiB.
pub const FALLBACK_PHYSICAL_MEMORY: u64 = 2 * 1024 * 1024 * 1024;

/// `char::is_whitespace`: the Unicode White_Space property.
pub open spec fn is_whitespace_spec(c: char) -> bool {
    ||| '\t' <= c <= '\r'
    ||| c == ' '
    ||| c == '\u{85}'
    ||| c == '\u{a0}'
    ||| c == '\u{1680}'
    ||| '\u{2000}' <= c <= '\u{200a}'
    ||| c == '\u{2028}'
    ||| c == '\u{2029}'
    ||| c == '\u{202f}'
    ||| c == '\u{205f}'
    ||| c == '\u{3000}'
}

fn is_whitespace(c: char) -> (ws: bool)
    ensures
        ws == is_whitespace_spec(c),
{
    ('\t' <= c && c <= '\r') || c == ' ' || c == '\u{85}' || c == '\u{a0}' || c == '\u{1680}'
        || ('\u{2000}' <= c && c <= '\u{200a}') || c == '\u{2028}' || c == '\u{2029}' || c
        == '\u{202f}' || c == '\u{205f}' || c == '\u{3000}'
}

/// End of the line that starts at `i`: the next newline, or the end.
pub open spec fn line_end(s: Seq<char>, i: int) -> int
    decreases s.len() - i,
{
    if i >= s.len() {
        s.len() as int
    } else if s[i] == '\n' {
        i
    } else {
        line_end(s, i + 1)
    }
}

/// A line ends at the first newline after its start, or at the end.
pub proof fn lemma_line_end(s: Seq<char>, i: int)
    requires
        0 <= i <= s.len(),
    ensures
        i <= line_end(s, i) <= s.len(),
        forall|j: int| i <= j < line_end(s, i) ==> s[j] != '\n',
        line_end(s, i) < s.len() ==> s[line_end(s, i)] == '\n',
    decreases s.len() - i,
{
    if i < s.len() && s[i] != '\n' {
        lemma_line_end(s, i + 1);
    }
}

/// First position in `i..e` that is not whitespace, or `e`.
pub open spec fn skip_ws(s: Seq<char>, i: int, e: int) -> int
    decreases e - i,
{
    if i >= e {
        e
    } else if is_whitespace_spec(s[i]) {
        skip_ws(s, i + 1, e)
    } else {
        i
    }
}

/// First position in `i..e` that is whitespace, or `e`.
pub open spec fn skip_word(s: Seq<char>, i: int, e: int) -> int
    decreases e - i,
{
    if i >= e {
        e
    } else if !is_whitespace_spec(s[i]) {
        skip_word(s, i + 1, e)
    } else {
        i
    }
}

/// The second whitespace-separated field of `s[i..e]`.
pub open spec fn second_field(s: Seq<char>, i: int, e: int) -> Option<Seq<char>> {
    let a = skip_ws(s, i, e);
    let b = skip_word(s, a, e);
    let c = skip_ws(s, b, e);
    if c < e {
        Some(s.subrange(c, skip_word(s, c, e)))
    } else {
        None
    }
}

/// The first line at or after `i` that starts with `key`, as its start
/// and end.
pub open spec fn find_line(s: Seq<char>, key: Seq<char>, i: int) -> Option<(int, int)>
    decreases s.len() - i,
{
    if i < 0 || i >= s.len() {
        None
    } else {
        let e = line_end(s, i);
        proof {
            lemma_line_end(s, i);
        }
        if e - i >= key.len() && s.subrange(i, i + key.len()) == key {
            Some((i, e))
        } else if e < s.len() {
            find_line(s, key, e + 1)
        } else {
            None
        }
    }
}

/// The number after `key` in /proc text: the second field of the first
/// line starting with `key`, when it is a u64.
pub open spec fn proc_field(s: Seq<char>, key: Seq<char>) -> Option<u64> {
    match find_line(s, key, 0) {
        Some((i, e)) => match second_field(s, i, e) {
            Some(t) => parse_u64_spec(t),
            None => None,
        },
        None => None,
    }
}

fn skip_ws_exec(s: &Vec<char>, i: usize, e: usize) -> (r: usize)
    requires
        i <= e <= s@.len(),
    ensures
        r == skip_ws(s@, i as int, e as int),
        i <= r <= e,
    decreases e - i,
{
    if i >= e {
        e
    } else if is_whitespace(s[i]) {
        skip_ws_exec(s, i + 1, e)
    } else {
        i
    }
}

fn skip_word_exec(s: &Vec<char>, i: usize, e: usize) -> (r: usize)
    requires
        i <= e <= s@.len(),
    ensures
        r == skip_word(s@, i as int, e as int),
        i <= r <= e,
    decreases e - i,
{
    if i >= e {
        e
    } else if !is_whitespace(s[i]) {
        skip_word_exec(s, i + 1, e)
    } else {
        i
    }
}

/// Whether `s[i..e]` starts with `key`.
fn starts_with_at(s: &Vec<char>, i: usize, e: usize, key: &Vec<char>) -> (r: bool)
    requires
        i <= e <= s@.len(),
    ensures
        r == (e - i >= key@.len() && s@.subrange(i as int, i + key@.len()) == key@),
{
    let k = key.len();
    if e - i < k {
        return false;
    }
    let mut j: usize = 0;
    while j < k
        invariant
            k == key@.len(),
            i + k <= e <= s@.len(),
            j <= k,
            forall|x: int| 0 <= x < j ==> s@[i + x] == key@[x],
        decreases k - j,
    {
        if s[i + j] != key[j] {
            assert(s@.subrange(i as int, i + k)[j as int] != key@[j as int]);
            return false;
        }
        j = j + 1;
    }
    assert(s@.subrange(i as int, i + k) =~= key@);
    true
}

/// `text.lines().find(|l| l.starts_with(key))?.split_whitespace().nth(1)?
/// .parse::<u64>().ok()`: the number after `key` in /proc text.
pub fn proc_field_value(text: &str, key: &str) -> (r: Option<u64>)
    ensures
        r == proc_field(text@, key@),
{
    let cs = chars_of(text);
    let ks = chars_of(key);
    let n = cs.len();
    let mut i: usize = 0;
    while i < n
        invariant
            cs@ == text@,
            ks@ == key@,
            n == text@.len(),
            i <= n,
            find_line(text@, key@, 0) == find_line(text@, key@, i as int),
        decreases n - i,
    {
        let mut e = i;
        while e < n && cs[e] != '\n'
            invariant
                cs@ == text@,
                n == text@.len(),
                i <= e <= n,
                line_end(text@, i as int) == line_end(text@, e as int),
            decreases n - e,
        {
            e = e + 1;
        }
        if starts_with_at(&cs, i, e, &ks) {
            let a = skip_ws_exec(&cs, i, e);
            let b = skip_word_exec(&cs, a, e);
            let c = skip_ws_exec(&cs, b, e);
            if c < e {
                let d = skip_word_exec(&cs, c, e);
                let mut field = String::new();
                let mut j = c;
                while j < d
                    invariant
                        cs@ == text@,
                        c <= j <= d <= n,
                        n == cs.len(),
                        field@ == text@.subrange(c as int, j as int),
                    decreases d - j,
                {
                    push_char(&mut field, cs[j]);
                    j = j + 1;
                    assert(field@ =~= text@.subrange(c as int, j as int));
                }
                return parse_u64(field.as_str());
            }
            return None;
        }
        if e >= n {
            return None;
        }
        i = e + 1;
    }
    None
}

/// Physical memory from the text of /proc/meminfo (`None` when it could
/// not be read): MemTotal in bytes, or the fallback when that is missing,
/// unreadable, or too large to count in bytes.
pub fn physical_memory_from_meminfo(meminfo: Option<&str>) -> (bytes: u64)
    ensures
        bytes == match meminfo {
            Some(t) => match proc_field(t@, "MemTotal:"@) {
                Some(kib) => if kib * 1024 <= u64::MAX { (kib * 1024) as u64 } else { FALLBACK_PHYSICAL_MEMORY },
                None => FALLBACK_PHYSICAL_MEMORY,
            },
            None => FALLBACK_PHYSICAL_MEMORY,
        },
{
    match meminfo {
        Some(t) => match proc_field_value(t, "MemTotal:") {
            Some(kib) => match kib.checked_mul(1024) {
                Some(b) => b,
                None => FALLBACK_PHYSICAL_MEMORY,
            },
            None => FALLBACK_PHYSICAL_MEMORY,
        },
        None => FALLBACK_PHYSICAL_MEMORY,
    }
}

/// The process footprint from the text of /proc/self/status (`None` when
/// it could not be read): VmRSS in bytes, or 0 when that is missing,
/// unreadable, or too large to count in bytes.
pub fn footprint_from_status(status: Option<&str>) -> (bytes: u64)
    ensures
        bytes == match status {
            Some(t) => match proc_field(t@, "VmRSS:"@) {
                Some(kib) => if kib * 1024 <= u64::MAX { (kib * 1024) as u64 } else { 0 },
                None => 0,
            },
            None => 0,
        },
{
    match status {
        Some(t) => match proc_field_value(t, "VmRSS:") {
            Some(kib) => match kib.checked_mul(1024) {
                Some(b) => b,
                None => 0,
            },
            None => 0,
        },
        None => 0,
    }
}

} // verus!
