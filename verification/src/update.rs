//! Checking for a newer app version: reading the published version and
//! deciding what the app shows.

use vstd::prelude::*;
use vstd::string::*;

use crate::number::{parse_i64, parse_i64_spec};

verus! {

/// A version the user can update to.
#[derive(Debug, Clone)]
pub struct AvailableVersion {
    pub code: i64,
    pub name: String,
}

/// Why the published version could not be read.
#[derive(Debug, Clone, Copy, PartialEq, Eq, Structural)]
pub enum VersionError {
    /// The text is not a version code and a version name separated by a
    /// comma.
    MissingFields,
    /// The version code is not an integer.
    InvalidCode,
}

/// Index of the first `c` in `s` at or after `from`.
pub open spec fn find_from(s: Seq<char>, from: int, c: char) -> Option<int> {
    if exists|i: int| from <= i < s.len() && s[i] == c {
        Some(choose|i: int| from <= i < s.len() && s[i] == c && forall|j: int| from <= j < i ==> s[j] != c)
    } else {
        None
    }
}

/// Position of the first `c` in `s` (of `len` characters) at or after `from`.
pub fn find_char(s: &str, len: usize, from: usize, c: char) -> (r: Option<usize>)
    requires
        len == s@.len(),
        from <= len,
    ensures
        match r {
            Some(i) => from <= i < len && s@[i as int] == c && forall|j: int| from <= j < i ==> s@[j] != c,
            None => forall|j: int| from <= j < len ==> s@[j] != c,
        },
        r matches Some(i) ==> find_from(s@, from as int, c) == Some(i as int),
        r is None ==> find_from(s@, from as int, c) is None,
{
    let mut i = from;
    while i < len
        invariant
            len == s@.len(),
            from <= i <= len,
            forall|j: int| from <= j < i ==> s@[j] != c,
        decreases len - i,
    {
        if s.get_char(i) == c {
            proof {
                let k = choose|k: int| from <= k < s@.len() && s@[k] == c && forall|j: int| from <= j < k ==> s@[j] != c;
                if k < i {
                } else if k > i {
                    assert(s@[i as int] != c);
                }
            }
            return Some(i);
        }
        i = i + 1;
    }
    None
}

/// The two comma-separated fields the published version text starts with:
/// the code (up to the first comma) and the name (up to the next comma or
/// the end).
pub open spec fn version_fields(s: Seq<char>) -> Option<(Seq<char>, Seq<char>)> {
    match find_from(s, 0, ',') {
        None => None,
        Some(c1) => {
            let name = match find_from(s, c1 + 1, ',') {
                Some(c2) => s.subrange(c1 + 1, c2),
                None => s.subrange(c1 + 1, s.len() as int),
            };
            Some((s.subrange(0, c1), name))
        },
    }
}

/// Reads the published "code,name" version text.
pub fn parse_latest_version(text: &str) -> (r: Result<AvailableVersion, VersionError>)
    ensures
        match version_fields(text@) {
            None => r == Err::<AvailableVersion, VersionError>(VersionError::MissingFields),
            Some((code, name)) => match parse_i64_spec(code) {
                None => r == Err::<AvailableVersion, VersionError>(VersionError::InvalidCode),
                Some(v) => (r matches Ok(av) && av.code == v && av.name@ == name),
            },
        },
{
    let len = text.unicode_len();
    let c1 = match find_char(text, len, 0, ',') {
        Some(c) => c,
        None => { return Err(VersionError::MissingFields); },
    };
    let end = match find_char(text, len, c1 + 1, ',') {
        Some(c) => c,
        None => len,
    };
    let code_str = text.substring_char(0, c1);
    let name_str = text.substring_char(c1 + 1, end);
    match parse_i64(code_str) {
        Some(code) => Ok(AvailableVersion { code, name: String::from_str(name_str) }),
        None => Err(VersionError::InvalidCode),
    }
}

/// The version to offer after a check: the published one when it is newer
/// than the running one, else none.
pub fn available_after_check(current_version_code: i64, latest: AvailableVersion) -> (r: Option<AvailableVersion>)
    ensures
        current_version_code < latest.code ==> (r matches Some(v) && v.code == latest.code && v.name@ == latest.name@),
        current_version_code >= latest.code ==> r is None,
{
    if current_version_code < latest.code {
        Some(latest)
    } else {
        None
    }
}

/// After an update, the version that was offered is the running one and is
/// no longer offered.
pub fn clear_available_if_updated(available: &mut Option<AvailableVersion>, current_version_code: i64)
    ensures
        match *old(available) {
            Some(v) => if v.code == current_version_code {
                (*final(available)) is None
            } else {
                ((*final(available)) matches Some(w) && w.code == v.code && w.name@ == v.name@)
            },
            None => (*final(available)) is None,
        },
{
    let clear = match available {
        Some(v) => v.code == current_version_code,
        None => false,
    };
    if clear {
        *available = None;
    }
}

} // verus!
