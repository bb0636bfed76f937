//! Integer parsing with the rules of std's `FromStr` for integers.

use vstd::prelude::*;
use vstd::string::*;

use crate::text::{decimal, decimal_int, digit_char};

verus! {

pub open spec fn is_digit(c: char) -> bool {
    '0' <= c && c <= '9'
}

pub open spec fn digit_value(c: char) -> nat {
    (c as int - '0' as int) as nat
}

pub open spec fn all_digits(s: Seq<char>) -> bool {
    forall|i: int| 0 <= i < s.len() ==> is_digit(#[trigger] s[i])
}

/// Value of a run of decimal digits, most significant first.
pub open spec fn digits_value(s: Seq<char>) -> nat
    decreases s.len(),
{
    if s.len() == 0 {
        0
    } else {
        digits_value(s.drop_last()) * 10 + digit_value(s.last())
    }
}

/// What std's integer `FromStr` reads from `s`, before the range check: an
/// optional '+' (or '-' for a signed type) and then one or more ASCII digits.
pub open spec fn parse_int(s: Seq<char>, signed: bool) -> Option<int> {
    if s.len() == 0 {
        None
    } else if s.len() == 1 && (s[0] == '+' || s[0] == '-') {
        None
    } else {
        let neg = signed && s[0] == '-';
        let body = if s[0] == '+' || neg { s.drop_first() } else { s };
        if all_digits(body) {
            Some(if neg { -(digits_value(body) as int) } else { digits_value(body) as int })
        } else {
            None
        }
    }
}

/// `parse::<i64>()`: the value when `s` is an integer in the i64 range.
pub open spec fn parse_i64_spec(s: Seq<char>) -> Option<i64> {
    match parse_int(s, true) {
        Some(v) => if i64::MIN <= v <= i64::MAX { Some(v as i64) } else { None },
        None => None,
    }
}

/// `parse::<u32>()`: the value when `s` is an integer in the u32 range.
pub open spec fn parse_u32_spec(s: Seq<char>) -> Option<u32> {
    match parse_int(s, false) {
        Some(v) => if 0 <= v <= u32::MAX { Some(v as u32) } else { None },
        None => None,
    }
}

/// `parse::<u64>()`: the value when `s` is an integer in the u64 range.
pub open spec fn parse_u64_spec(s: Seq<char>) -> Option<u64> {
    match parse_int(s, false) {
        Some(v) => if 0 <= v <= u64::MAX { Some(v as u64) } else { None },
        None => None,
    }
}

proof fn lemma_digits_value_prefix(s: Seq<char>, i: int)
    requires
        0 <= i <= s.len(),
    ensures
        digits_value(s.take(i)) <= digits_value(s),
    decreases s.len(),
{
    if i < s.len() {
        assert(s.drop_last().take(i) =~= s.take(i));
        lemma_digits_value_prefix(s.drop_last(), i);
    } else {
        assert(s.take(i) =~= s);
    }
}

/// The value of the digits of `s[from..]` when it is at most `limit`;
/// None when a character is not a digit or the value exceeds `limit`.
fn digits_upto(s: &str, from: usize, len: usize, limit: u64) -> (r: Option<u64>)
    requires
        len == s@.len(),
        from <= len,
        limit >= 9,
    ensures
        ({
            let body = s@.subrange(from as int, len as int);
            match r {
                Some(v) => all_digits(body) && v == digits_value(body) && v <= limit,
                None => !all_digits(body) || digits_value(body) > limit,
            }
        }),
{
    let ghost body = s@.subrange(from as int, len as int);
    let mut acc: u64 = 0;
    let mut i = from;
    while i < len
        invariant
            len == s@.len(),
            from <= i <= len,
            body == s@.subrange(from as int, len as int),
            all_digits(body.take(i - from)),
            acc == digits_value(body.take(i - from)),
            acc <= limit,
            limit >= 9,
        decreases len - i,
    {
        let c = s.get_char(i);
        let k = i - from;
        assert(body.take(k + 1).drop_last() =~= body.take(k as int));
        assert(body[k as int] == c);
        if !('0' <= c && c <= '9') {
            assert(!all_digits(body));
            return None;
        }
        let d = (c as u32 - '0' as u32) as u64;
        assert(d == digit_value(c));
        if acc > (limit - d) / 10 {
            proof {
                assert(digits_value(body.take(k + 1)) == acc * 10 + d);
                assert(acc * 10 + d > limit) by (nonlinear_arith)
                    requires acc > (limit - d) / 10, d <= limit, d >= 0;
                lemma_digits_value_prefix(body, k + 1);
            }
            return None;
        }
        proof {
            assert(acc * 10 + d <= limit) by (nonlinear_arith)
                requires acc <= (limit - d) / 10, d <= limit;
        }
        acc = acc * 10 + d;
        i = i + 1;
        assert(all_digits(body.take(i - from))) by {
            assert forall|j: int| 0 <= j < body.take(i - from).len() implies is_digit(
                #[trigger] body.take(i - from)[j],
            ) by {
                if j < k {
                    assert(body.take(i - from)[j] == body.take(k as int)[j]);
                }
            }
        }
    }
    assert(body.take(len - from) =~= body);
    Some(acc)
}

/// `s.parse::<i64>().ok()`.
pub fn parse_i64(s: &str) -> (r: Option<i64>)
    ensures
        r == parse_i64_spec(s@),
{
    let len = s.unicode_len();
    if len == 0 {
        return None;
    }
    let c0 = s.get_char(0);
    if len == 1 && (c0 == '+' || c0 == '-') {
        return None;
    }
    let neg = c0 == '-';
    let from: usize = if c0 == '+' || neg { 1 } else { 0 };
    proof {
        if from == 1 {
            assert(s@.subrange(1, len as int) =~= s@.drop_first());
        } else {
            assert(s@.subrange(0, len as int) =~= s@);
        }
    }
    let limit: u64 = if neg { 9223372036854775808u64 } else { 9223372036854775807u64 };
    match digits_upto(s, from, len, limit) {
        Some(v) => {
            if neg {
                if v == 9223372036854775808u64 {
                    Some(i64::MIN)
                } else {
                    Some(-(v as i64))
                }
            } else {
                Some(v as i64)
            }
        },
        None => None,
    }
}

/// `s.parse::<u32>().ok()`.
pub fn parse_u32(s: &str) -> (r: Option<u32>)
    ensures
        r == parse_u32_spec(s@),
{
    let len = s.unicode_len();
    if len == 0 {
        return None;
    }
    let c0 = s.get_char(0);
    if len == 1 && (c0 == '+' || c0 == '-') {
        return None;
    }
    let from: usize = if c0 == '+' { 1 } else { 0 };
    proof {
        if from == 1 {
            assert(s@.subrange(1, len as int) =~= s@.drop_first());
        } else {
            assert(s@.subrange(0, len as int) =~= s@);
        }
    }
    match digits_upto(s, from, len, 4294967295u64) {
        Some(v) => Some(v as u32),
        None => None,
    }
}

/// `s.parse::<u64>().ok()`.
pub fn parse_u64(s: &str) -> (r: Option<u64>)
    ensures
        r == parse_u64_spec(s@),
{
    let len = s.unicode_len();
    if len == 0 {
        return None;
    }
    let c0 = s.get_char(0);
    if len == 1 && (c0 == '+' || c0 == '-') {
        return None;
    }
    let from: usize = if c0 == '+' { 1 } else { 0 };
    proof {
        if from == 1 {
            assert(s@.subrange(1, len as int) =~= s@.drop_first());
        } else {
            assert(s@.subrange(0, len as int) =~= s@);
        }
    }
    digits_upto(s, from, len, u64::MAX)
}

proof fn lemma_digit_char_roundtrip(d: nat)
    requires
        d < 10,
    ensures
        is_digit(digit_char(d)),
        digit_value(digit_char(d)) == d,
{
}

proof fn lemma_decimal_digits(n: nat)
    ensures
        decimal(n).len() >= 1,
        all_digits(decimal(n)),
        digits_value(decimal(n)) == n,
    decreases n,
{
    if n < 10 {
        lemma_digit_char_roundtrip(n);
        assert(decimal(n).drop_last() =~= Seq::<char>::empty());
        assert(digits_value(Seq::<char>::empty()) == 0);
        assert(decimal(n).last() == digit_char(n));
    } else {
        lemma_decimal_digits(n / 10);
        lemma_digit_char_roundtrip(n % 10);
        let s = decimal(n);
        assert(s.drop_last() =~= decimal(n / 10));
        assert(s.last() == digit_char(n % 10));
        assert(digits_value(s) == (n / 10) * 10 + n % 10);
        assert forall|i: int| 0 <= i < s.len() implies is_digit(#[trigger] s[i]) by {
            if i < s.len() - 1 {
                assert(s[i] == decimal(n / 10)[i]);
            }
        }
    }
}

/// Reading back a written number gives the number: std's integer parsing
/// reads the decimal text the library writes, for signed and unsigned
/// integers alike.
pub proof fn parse_reads_back_decimal(n: int)
    ensures
        parse_int(decimal_int(n), true) == Some(n),
        n >= 0 ==> parse_int(decimal(n as nat), false) == Some(n),
{
    if n >= 0 {
        lemma_decimal_digits(n as nat);
        let s = decimal(n as nat);
        assert(is_digit(s[0]));
    } else {
        let m = (-n) as nat;
        lemma_decimal_digits(m);
        let s = decimal_int(n);
        assert(s == seq!['-'] + decimal(m));
        assert(s.drop_first() =~= decimal(m));
        assert(s.len() >= 2);
    }
}

/// The same for the machine integers the library parses: a written i64
/// reads back as itself, and so does a written u32.
pub proof fn parse_i64_reads_back(n: i64)
    ensures
        parse_i64_spec(decimal_int(n as int)) == Some(n),
        n >= 0 && n <= u32::MAX ==> parse_u32_spec(decimal(n as nat)) == Some(n as u32),
{
    parse_reads_back_decimal(n as int);
}

} // verus!
