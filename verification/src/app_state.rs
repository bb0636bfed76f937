//! Reading back the persisted app state: the context shown when the state
//! file fails to parse.

use vstd::prelude::*;
use vstd::utf8::*;
use vstd::string::*;

verus! {

/// Bytes of context kept on each side of a parse error.
pub const ERROR_CONTEXT_RADIUS: usize = 200;

/// Byte offset of the start of line `k + 1` (0-based `k`): just past the
/// k-th newline, or the whole length when there are fewer lines.
pub open spec fn line_start(b: Seq<u8>, k: nat) -> nat
    decreases b.len(),
{
    if k == 0 || b.len() == 0 {
        0
    } else if b[0] == 10u8 {
        1 + line_start(b.drop_first(), (k - 1) as nat)
    } else {
        1 + line_start(b.drop_first(), k)
    }
}

pub open spec fn sat_sub1(n: usize) -> nat {
    if n == 0 { 0 } else { (n - 1) as nat }
}

/// Byte position of the 1-based `line` and `column`, clamped to the input.
pub open spec fn error_pos(b: Seq<u8>, line: usize, column: usize) -> int {
    let p = line_start(b, sat_sub1(line)) + sat_sub1(column);
    if p < b.len() { p as int } else { b.len() as int }
}

/// The window around an error position: up to ERROR_CONTEXT_RADIUS bytes
/// each side, widened to the nearest character boundaries.
pub open spec fn is_error_window(b: Seq<u8>, line: usize, column: usize, start: int, end: int) -> bool {
    let pos = error_pos(b, line, column);
    let s0 = if pos >= ERROR_CONTEXT_RADIUS { pos - ERROR_CONTEXT_RADIUS } else { 0 };
    let e0 = if pos + ERROR_CONTEXT_RADIUS < b.len() { pos + ERROR_CONTEXT_RADIUS } else { b.len() as int };
    &&& 0 <= start <= s0
    &&& is_char_boundary(b, start)
    &&& forall|j: int| start < j <= s0 ==> !is_char_boundary(b, j)
    &&& e0 <= end <= b.len()
    &&& is_char_boundary(b, end)
    &&& forall|j: int| e0 <= j < end ==> !is_char_boundary(b, j)
}

/// The text of `s` as std's `Debug` for `str` prints it: quoted, with
/// quotes, backslashes and control characters escaped.
pub uninterp spec fn debug_quoted(s: Seq<char>) -> Seq<char>;

/// `format!("{:?}", s)` for a `str`.
#[verifier::external_body]
fn debug_str(s: &str) -> (r: String)
    ensures
        r@ == debug_quoted(s@),
{
    format!("{:?}", s)
}

/// Byte offset of the start of the 1-based line `line`.
fn line_start_offset(input: &str, line: usize) -> (off: usize)
    ensures
        off == line_start(input.spec_bytes(), sat_sub1(line)),
        off <= input.spec_bytes().len(),
{
    let bytes = input.as_bytes();
    let ghost b = input.spec_bytes();
    let k: usize = if line == 0 { 0 } else { line - 1 };
    let n = bytes.len();
    let mut i: usize = 0;
    let mut seen: usize = 0;
    assert(b.subrange(0, n as int) =~= b);
    while i < n && seen < k
        invariant
            bytes@ == b,
            n == b.len(),
            i <= n,
            seen <= k,
            k == sat_sub1(line),
            line_start(b, k as nat) == i + line_start(b.subrange(i as int, n as int), (k - seen) as nat),
        decreases n - i,
    {
        let ghost rest = b.subrange(i as int, n as int);
        assert(rest.drop_first() =~= b.subrange(i + 1, n as int));
        assert(rest[0] == bytes[i as int]);
        if bytes[i] == 10u8 {
            seen = seen + 1;
        }
        i = i + 1;
    }
    proof {
        let rest = b.subrange(i as int, n as int);
        assert(line_start(rest, (k - seen) as nat) == 0) by {
            if i == n {
                assert(rest.len() == 0);
            }
        }
    }
    i
}

/// A window of `input` around the 1-based line and column of a parse
/// error, as std's `Debug` prints it: up to ERROR_CONTEXT_RADIUS bytes each
/// side of the position, widened to character boundaries. Positions past
/// the end are clamped.
pub fn error_context(input: &str, line: usize, column: usize) -> (ctx: String)
    ensures
        exists|start: int, end: int|
            is_error_window(input.spec_bytes(), line, column, start, end) && ctx@ == debug_quoted(
                decode_utf8(input.spec_bytes().subrange(start, end)),
            ),
{
    let ghost b = input.spec_bytes();
    proof {
        encode_utf8_valid_utf8(input@);
        is_char_boundary_start_end_of_seq(b);
    }
    let len = input.as_bytes().len();
    let line_start = line_start_offset(input, line);
    let col = if column == 0 { 0 } else { column - 1 };
    // line_start + col, clamped to the length without overflowing
    let pos = if line_start <= len && col <= len - line_start { line_start + col } else { len };
    let mut start = if pos >= ERROR_CONTEXT_RADIUS { pos - ERROR_CONTEXT_RADIUS } else { 0 };
    let mut end = if ERROR_CONTEXT_RADIUS < len - pos { pos + ERROR_CONTEXT_RADIUS } else { len };
    let ghost s0 = start as int;
    let ghost e0 = end as int;
    assert(pos as int == error_pos(b, line, column));
    while !input.is_char_boundary(start)
        invariant
            b == input.spec_bytes(),
            valid_utf8(b),
            is_char_boundary(b, 0),
            0 <= start <= s0,
            forall|j: int| start < j <= s0 ==> !is_char_boundary(b, j),
        decreases start,
    {
        start = start - 1;
    }
    while !input.is_char_boundary(end)
        invariant
            b == input.spec_bytes(),
            len == b.len(),
            valid_utf8(b),
            is_char_boundary(b, len as int),
            e0 <= end <= len,
            forall|j: int| e0 <= j < end ==> !is_char_boundary(b, j),
        decreases len - end,
    {
        end = end + 1;
    }
    let (head, _) = input.split_at(end);
    proof {
        valid_utf8_split(b, end as int);
        let hb = head.spec_bytes();
        assert(hb == b.subrange(0, end as int));
        if start < end {
            is_char_boundary_iff_not_is_continuation_byte(b, start as int);
            is_char_boundary_iff_not_is_continuation_byte(hb, start as int);
            assert(hb[start as int] == b[start as int]);
        } else {
            is_char_boundary_start_end_of_seq(hb);
        }
    }
    let (_, window) = head.split_at(start);
    proof {
        assert(window.spec_bytes() =~= b.subrange(start as int, end as int));
        encode_utf8_decode_utf8(window@);
        assert(is_error_window(b, line, column, start as int, end as int));
    }
    debug_str(window)
}

/// In valid UTF-8, a character boundary lies at most three bytes before any
/// position.
proof fn lemma_boundary_behind(b: Seq<u8>, i: int) -> (j: int)
    requires
        valid_utf8(b),
        0 <= i <= b.len(),
    ensures
        i - 3 <= j <= i,
        0 <= j,
        is_char_boundary(b, j),
    decreases b.len(),
{
    if b.len() == 0 || i < length_of_first_scalar(b) {
        0
    } else {
        let l = length_of_first_scalar(b);
        let rest = pop_first_scalar(b);
        let k = lemma_boundary_behind(rest, i - l);
        if k + l != 0 {
            assert(is_char_boundary(b, k + l) == is_char_boundary(rest, k));
        }
        k + l
    }
}

/// In valid UTF-8, a character boundary lies at most three bytes after any
/// position, within the input.
proof fn lemma_boundary_ahead(b: Seq<u8>, i: int) -> (j: int)
    requires
        valid_utf8(b),
        0 <= i <= b.len(),
    ensures
        i <= j <= i + 3,
        j <= b.len(),
        is_char_boundary(b, j),
    decreases b.len(),
{
    if i == 0 {
        0
    } else {
        let l = length_of_first_scalar(b);
        let rest = pop_first_scalar(b);
        if i <= l {
            assert(is_char_boundary(b, l) == is_char_boundary(rest, 0));
            l
        } else {
            let k = lemma_boundary_ahead(rest, i - l);
            assert(is_char_boundary(b, k + l) == is_char_boundary(rest, k));
            k + l
        }
    }
}

/// The context around a parse error holds the error position and stays
/// small: at most ERROR_CONTEXT_RADIUS bytes each side of it, plus the at
/// most three bytes each side that reaching a character boundary takes.
pub proof fn error_window_holds_position(b: Seq<u8>, line: usize, column: usize, start: int, end: int)
    requires
        valid_utf8(b),
        is_error_window(b, line, column, start, end),
    ensures
        start <= error_pos(b, line, column) <= end,
        error_pos(b, line, column) - start <= ERROR_CONTEXT_RADIUS + 3,
        end - error_pos(b, line, column) <= ERROR_CONTEXT_RADIUS + 3,
        end - start <= 2 * ERROR_CONTEXT_RADIUS + 6,
{
    let pos = error_pos(b, line, column);
    let s0 = if pos >= ERROR_CONTEXT_RADIUS { pos - ERROR_CONTEXT_RADIUS } else { 0 };
    let e0 = if pos + ERROR_CONTEXT_RADIUS < b.len() { pos + ERROR_CONTEXT_RADIUS } else { b.len() as int };
    let j = lemma_boundary_behind(b, s0);
    let k = lemma_boundary_ahead(b, e0);
    assert(start >= j);
    assert(end <= k);
}

} // verus!
