//! Text helpers: pushing characters and decimal numbers onto strings.

use vstd::prelude::*;

verus! {

/// The ASCII digit character for `d` (0..=9).
pub open spec fn digit_char(d: nat) -> char {
    if d == 0 { '0' }
    else if d == 1 { '1' }
    else if d == 2 { '2' }
    else if d == 3 { '3' }
    else if d == 4 { '4' }
    else if d == 5 { '5' }
    else if d == 6 { '6' }
    else if d == 7 { '7' }
    else if d == 8 { '8' }
    else { '9' }
}

/// Decimal representation of a natural number, most significant digit first,
/// without leading zeros.
pub open spec fn decimal(n: nat) -> Seq<char>
    decreases n,
{
    if n < 10 {
        seq![digit_char(n)]
    } else {
        decimal(n / 10).push(digit_char(n % 10))
    }
}

/// Decimal representation of an integer, with a leading '-' when negative.
pub open spec fn decimal_int(n: int) -> Seq<char> {
    if n < 0 {
        seq!['-'].add(decimal((-n) as nat))
    } else {
        decimal(n as nat)
    }
}

/// `String::push`: appends one character.
#[verifier::external_body]
pub(crate) fn push_char(s: &mut String, c: char)
    ensures
        final(s)@ == old(s)@.push(c),
{
    s.push(c);
}

fn digit(d: u64) -> (c: char)
    requires
        d < 10,
    ensures
        c == digit_char(d as nat),
{
    match d {
        0 => '0',
        1 => '1',
        2 => '2',
        3 => '3',
        4 => '4',
        5 => '5',
        6 => '6',
        7 => '7',
        8 => '8',
        _ => '9',
    }
}

/// Appends the decimal digits of `n`.
pub fn push_u64(s: &mut String, n: u64)
    ensures
        final(s)@ == old(s)@ + decimal(n as nat),
    decreases n,
{
    if n >= 10 {
        push_u64(s, n / 10);
    }
    push_char(s, digit(n % 10));
}

/// Appends the decimal representation of `n`, '-' first when negative.
pub fn push_i64(s: &mut String, n: i64)
    ensures
        final(s)@ == old(s)@ + decimal_int(n as int),
{
    if n < 0 {
        push_char(s, '-');
        let m: u64 = if n == i64::MIN { 9223372036854775808u64 } else { (-n) as u64 };
        push_u64(s, m);
    } else {
        push_u64(s, n as u64);
    }
}

/// `n` in decimal as a new string.
pub fn u64_to_string(n: u64) -> (r: String)
    ensures
        r@ == decimal(n as nat),
{
    let mut s = String::new();
    push_u64(&mut s, n);
    s
}

/// `n` in decimal as a new string.
pub fn i64_to_string(n: i64) -> (r: String)
    ensures
        r@ == decimal_int(n as int),
{
    let mut s = String::new();
    push_i64(&mut s, n);
    s
}

/// The characters of `s`, in order.
pub fn chars_of(s: &str) -> (cs: Vec<char>)
    ensures
        cs@ == s@,
{
    let mut cs: Vec<char> = Vec::new();
    for c in it: s.chars()
        invariant
            cs@ == it.seq().take(it.index() as int),
    {
        cs.push(c);
    }
    cs
}

/// `p` occurs in `s` at position `i`.
pub open spec fn occurs_at(s: Seq<char>, p: Seq<char>, i: int) -> bool {
    0 <= i && i + p.len() <= s.len() && s.subrange(i, i + p.len()) == p
}

/// `p` occurs somewhere in `s`.
pub open spec fn contains_text(s: Seq<char>, p: Seq<char>) -> bool {
    exists|i: int| occurs_at(s, p, i)
}

/// A text occurs in any text around it.
pub proof fn lemma_occurs_between(a: Seq<char>, m: Seq<char>, b: Seq<char>)
    ensures
        occurs_at(a + m + b, m, a.len() as int),
        contains_text(a + m + b, m),
{
    assert((a + m + b).subrange(a.len() as int, (a.len() + m.len()) as int) =~= m);
}

/// The first position at or after `i` where `p` occurs in `s`.
pub open spec fn find_from(s: Seq<char>, p: Seq<char>, i: int) -> Option<int>
    decreases s.len() + 1 - i,
{
    if i < 0 || i + p.len() > s.len() {
        None
    } else if occurs_at(s, p, i) {
        Some(i)
    } else {
        find_from(s, p, i + 1)
    }
}

/// `s` with the first occurrence of `p` replaced by `w`, as
/// `str::replacen(p, w, 1)` gives it.
pub open spec fn replace_first_spec(s: Seq<char>, p: Seq<char>, w: Seq<char>) -> Seq<char> {
    match find_from(s, p, 0) {
        Some(i) => s.take(i) + w + s.skip(i + p.len()),
        None => s,
    }
}

/// The first occurrence found from `i` is at or after `i`, and none before it.
pub proof fn lemma_find_from_bounds(s: Seq<char>, p: Seq<char>, i: int)
    requires
        i >= 0,
    ensures
        find_from(s, p, i) matches Some(j) ==> i <= j && occurs_at(s, p, j),
        find_from(s, p, i) is None ==> forall|j: int| i <= j ==> !occurs_at(s, p, j),
    decreases s.len() + 1 - i,
{
    if i + p.len() > s.len() {
    } else if occurs_at(s, p, i) {
    } else {
        lemma_find_from_bounds(s, p, i + 1);
    }
}

/// The first position at or after `from` where `ps` occurs in `cs`.
fn find_chars(cs: &Vec<char>, ps: &Vec<char>, from: usize) -> (r: Option<usize>)
    requires
        ps.len() > 0,
        from <= cs.len(),
    ensures
        r == (match find_from(cs@, ps@, from as int) {
            Some(j) => Some(j as usize),
            None => None::<usize>,
        }),
        r matches Some(j) ==> from <= j && j + ps.len() <= cs.len(),
{
    let n = cs.len();
    let m = ps.len();
    if m > n || from > n - m {
        return None;
    }
    let mut i = from;
    while i <= n - m
        invariant
            n == cs.len(),
            m == ps.len(),
            0 < m <= n,
            from <= i <= n - m + 1,
            find_from(cs@, ps@, from as int) == find_from(cs@, ps@, i as int),
        decreases n + 1 - i,
    {
        let mut j: usize = 0;
        while j < m && cs[i + j] == ps[j]
            invariant
                n == cs.len(),
                m == ps.len(),
                i + m <= n,
                j <= m,
                forall|t: int| 0 <= t < j ==> cs@[i + t] == ps@[t],
            decreases m - j,
        {
            j = j + 1;
        }
        if j == m {
            assert(cs@.subrange(i as int, i + m) =~= ps@);
            return Some(i);
        }
        proof {
            if occurs_at(cs@, ps@, i as int) {
                assert(cs@.subrange(i as int, i + m)[j as int] == cs@[i + j]);
            }
        }
        i = i + 1;
    }
    None
}

/// Appends `cs[from..to]`.
fn push_range(r: &mut String, cs: &Vec<char>, from: usize, to: usize)
    requires
        from <= to <= cs.len(),
    ensures
        final(r)@ == old(r)@ + cs@.subrange(from as int, to as int),
{
    let mut k = from;
    while k < to
        invariant
            from <= k <= to <= cs.len(),
            r@ == old(r)@ + cs@.subrange(from as int, k as int),
        decreases to - k,
    {
        push_char(r, cs[k]);
        k = k + 1;
        assert(r@ =~= old(r)@ + cs@.subrange(from as int, k as int));
    }
}

/// `s.replacen(p, w, 1)` for a nonempty pattern `p`.
pub fn replace_first(s: &str, p: &str, w: &str) -> (r: String)
    requires
        p@.len() > 0,
    ensures
        r@ == replace_first_spec(s@, p@, w@),
{
    let cs = chars_of(s);
    let ps = chars_of(p);
    let mut r = String::new();
    proof {
        lemma_find_from_bounds(s@, p@, 0);
    }
    match find_chars(&cs, &ps, 0) {
        Some(at) => {
            push_range(&mut r, &cs, 0, at);
            r.append(w);
            push_range(&mut r, &cs, at + ps.len(), cs.len());
            assert(s@.subrange(0, at as int) =~= s@.take(at as int));
            assert(s@.subrange(at + ps.len(), s@.len() as int) =~= s@.skip(at + ps.len()));
            assert(r@ =~= s@.take(at as int) + w@ + s@.skip(at + ps.len()));
        },
        None => {
            r.append(s);
        },
    }
    r
}

/// `s[i..]` with every occurrence of `p` replaced by `w`, left to right.
pub open spec fn replace_from(s: Seq<char>, p: Seq<char>, w: Seq<char>, i: int) -> Seq<char>
    decreases s.len() + 1 - i,
{
    if p.len() == 0 || i < 0 || i > s.len() {
        Seq::empty()
    } else {
        match find_from(s, p, i) {
            Some(j) => {
                proof {
                    lemma_find_from_bounds(s, p, i);
                }
                s.subrange(i, j) + w + replace_from(s, p, w, j + p.len())
            },
            None => s.skip(i),
        }
    }
}

/// `s.replace(p, w)` for a nonempty pattern `p`: every occurrence
/// replaced, left to right.
pub fn replace_all(s: &str, p: &str, w: &str) -> (r: String)
    requires
        p@.len() > 0,
    ensures
        r@ == replace_from(s@, p@, w@, 0),
{
    let cs = chars_of(s);
    let ps = chars_of(p);
    let n = cs.len();
    let mut r = String::new();
    let mut i: usize = 0;
    let mut done = false;
    while !done
        invariant
            cs@ == s@,
            ps@ == p@,
            n == cs.len(),
            ps.len() > 0,
            i <= n,
            !done ==> r@ + replace_from(s@, p@, w@, i as int) == replace_from(s@, p@, w@, 0),
            done ==> r@ == replace_from(s@, p@, w@, 0),
        decreases n + 1 - i, (if done { 0int } else { 1int }),
    {
        let ghost before = r@;
        proof {
            lemma_find_from_bounds(s@, p@, i as int);
        }
        match find_chars(&cs, &ps, i) {
            Some(j) => {
                push_range(&mut r, &cs, i, j);
                r.append(w);
                proof {
                    assert(find_from(s@, p@, i as int) == Some(j as int));
                    assert(replace_from(s@, p@, w@, i as int) == s@.subrange(i as int, j as int) + w@
                        + replace_from(s@, p@, w@, j + ps.len()));
                    assert(r@ == before + s@.subrange(i as int, j as int) + w@);
                    assert(r@ + replace_from(s@, p@, w@, j + ps.len()) =~= before + replace_from(s@, p@, w@, i as int));
                }
                i = j + ps.len();
            },
            None => {
                push_range(&mut r, &cs, i, n);
                proof {
                    assert(s@.subrange(i as int, n as int) =~= s@.skip(i as int));
                }
                done = true;
            },
        }
    }
    r
}

} // verus!
