//! The error log as the user reviews it: which log file holds the latest
//! errors, and the tail of a long log.

use vstd::prelude::*;
use vstd::string::*;
use vstd::utf8::encode_utf8;

use crate::text_match::{bytes_contain, contains_bytes};
use crate::update::find_from;

verus! {

/// What marks an error line in the log files.
pub const ERROR_PATTERN: &'static str = "Z ERROR ";

/// Most bytes of a log file kept for review and problem reports.
pub const MAX_LOG_BYTES: u64 = 64 * 1024;

/// Whether a log's text has an error line.
pub fn has_logged_error(contents: &str) -> (r: bool)
    ensures
        r == contains_bytes(contents.spec_bytes(), ERROR_PATTERN.spec_bytes()),
{
    bytes_contain(contents.as_bytes(), ERROR_PATTERN.as_bytes())
}

/// The first log (most recent first) with an error line.
pub fn first_logged_error(contents: &Vec<String>) -> (r: Option<usize>)
    ensures
        match r {
            Some(i) => i < contents.len() && contains_bytes(encode_utf8(contents@[i as int]@), ERROR_PATTERN.spec_bytes())
                && forall|j: int| 0 <= j < i ==> !contains_bytes(#[trigger] encode_utf8(contents@[j]@), ERROR_PATTERN.spec_bytes()),
            None => forall|j: int| 0 <= j < contents.len() ==> !contains_bytes(#[trigger] encode_utf8(contents@[j]@), ERROR_PATTERN.spec_bytes()),
        },
{
    let mut i: usize = 0;
    while i < contents.len()
        invariant
            i <= contents.len(),
            forall|j: int| 0 <= j < i ==> !contains_bytes(#[trigger] encode_utf8(contents@[j]@), ERROR_PATTERN.spec_bytes()),
        decreases contents.len() - i,
    {
        if has_logged_error(contents[i].as_str()) {
            return Some(i);
        }
        i = i + 1;
    }
    None
}

/// The tail of a log as shown: when it was cut to its last MAX_LOG_BYTES,
/// from the first full line on, after a "[log truncated]" line.
pub fn log_tail_text(contents: &str, truncated: bool) -> (text: String)
    ensures
        truncated ==> text@ == "[log truncated]\n"@ + match find_from(contents@, 0, '\n') {
            Some(i) => contents@.skip(i + 1),
            None => contents@,
        },
        !truncated ==> text@ == contents@,
{
    if !truncated {
        return String::from_str(contents);
    }
    let len = contents.unicode_len();
    let start = match crate::update::find_char(contents, len, 0, '\n') {
        Some(i) => i + 1,
        None => 0,
    };
    let rest = contents.substring_char(start, len);
    let mut text = String::from_str("[log truncated]\n");
    text.append(rest);
    proof {
        assert(contents@.subrange(start as int, len as int) =~= (match find_from(contents@, 0, '\n') {
            Some(i) => contents@.skip(i + 1),
            None => contents@,
        }));
    }
    text
}

} // verus!
