//! Segment a track into runs, such as whenever some threshold is crossed,
//! and compute statistics over its consecutive pairs.

use itertools::Itertools;
use vstd::prelude::*;

verus! {

/// The consecutive pairs of a sequence.
pub open spec fn pairs_spec<T>(items: Seq<T>) -> Seq<(T, T)> {
    Seq::new(
        if items.len() == 0 { 0 } else { (items.len() - 1) as nat },
        |i: int| (items[i], items[i + 1]),
    )
}

/// `Itertools::tuple_windows` for pairs: all contiguous windows of two.
#[verifier::external_body]
fn tuple_windows<T: Copy>(items: &Vec<T>) -> (pairs: Vec<(T, T)>)
    ensures
        pairs@ == pairs_spec(items@),
{
    items.iter().copied().tuple_windows().collect()
}

/// The flags expanded from runs of (key, length).
pub open spec fn expand_runs(runs: Seq<(bool, usize)>) -> Seq<bool>
    decreases runs.len(),
{
    if runs.len() == 0 {
        Seq::empty()
    } else {
        Seq::new(runs[0].1 as nat, |i: int| runs[0].0) + expand_runs(runs.drop_first())
    }
}

/// Runs of equal flags as chunk_by groups them: nonempty, maximal (the keys
/// of neighbouring runs differ), and together the whole input.
pub open spec fn is_run_encoding(runs: Seq<(bool, usize)>, flags: Seq<bool>) -> bool {
    &&& expand_runs(runs) == flags
    &&& forall|i: int| 0 <= i < runs.len() ==> #[trigger] runs[i].1 >= 1
    &&& forall|i: int| 0 <= i < runs.len() - 1 ==> #[trigger] runs[i].0 != runs[i + 1].0
}

/// `Itertools::chunk_by` on the flags' own values: the runs of equal flags,
/// each as its key and the number of flags in it.
#[verifier::external_body]
fn chunk_runs(flags: &Vec<bool>) -> (runs: Vec<(bool, usize)>)
    ensures
        is_run_encoding(runs@, flags@),
{
    let mut runs = Vec::new();
    for (key, group) in &flags.iter().chunk_by(|b| **b) {
        runs.push((key, group.count()));
    }
    runs
}

/// Length of the leading run of equal flags.
pub open spec fn run_len(flags: Seq<bool>) -> nat
    decreases flags.len(),
{
    if flags.len() == 0 {
        0
    } else if flags.len() == 1 || flags[1] != flags[0] {
        1
    } else {
        1 + run_len(flags.drop_first())
    }
}

/// The leading run of a nonempty sequence has between 1 and all of its
/// elements.
pub proof fn lemma_run_len_bounds(flags: Seq<bool>)
    ensures
        flags.len() > 0 ==> 1 <= run_len(flags) <= flags.len(),
    decreases flags.len(),
{
    if flags.len() > 1 && flags[1] == flags[0] {
        lemma_run_len_bounds(flags.drop_first());
    }
}

/// The segments of a track, in order: for each maximal run of equal flags
/// over the pairs (flag i is for records i and i + 1), the run's flag and
/// its records. The record at a boundary ends one segment and starts the
/// next.
pub open spec fn segments_spec<T>(records: Seq<T>, flags: Seq<bool>) -> Seq<(bool, Seq<T>)>
    decreases flags.len(),
{
    if flags.len() == 0 {
        Seq::empty()
    } else {
        let k = run_len(flags);
        proof {
            lemma_run_len_bounds(flags);
        }
        if k == 0 {
            Seq::empty()
        } else {
            seq![(flags[0], records.take(k + 1int))] + segments_spec(records.skip(k as int), flags.skip(k as int))
        }
    }
}

/// The records of the segments whose flag is `key`, in order.
pub open spec fn segments_with<T>(segs: Seq<(bool, Seq<T>)>, key: bool) -> Seq<Seq<T>>
    decreases segs.len(),
{
    if segs.len() == 0 {
        Seq::empty()
    } else {
        (if segs[0].0 == key { seq![segs[0].1] } else { Seq::empty() }) + segments_with(segs.drop_first(), key)
    }
}

proof fn lemma_run_len_of_encoding(runs: Seq<(bool, usize)>, flags: Seq<bool>)
    requires
        runs.len() > 0,
        is_run_encoding(runs, flags),
    ensures
        run_len(flags) == runs[0].1,
        flags.take(runs[0].1 as int) == Seq::new(runs[0].1 as nat, |i: int| runs[0].0),
        is_run_encoding(runs.drop_first(), flags.skip(runs[0].1 as int)),
{
    let head = Seq::new(runs[0].1 as nat, |i: int| runs[0].0);
    let rest = expand_runs(runs.drop_first());
    assert(flags == head + rest);
    assert(flags.take(runs[0].1 as int) =~= head);
    assert(flags.skip(runs[0].1 as int) =~= rest);
    assert forall|i: int| 0 <= i < runs.drop_first().len() implies #[trigger] runs.drop_first()[i].1 >= 1 by {
        assert(runs.drop_first()[i] == runs[i + 1]);
    }
    assert forall|i: int| 0 <= i < runs.drop_first().len() - 1 implies #[trigger] runs.drop_first()[i].0
        != runs.drop_first()[i + 1].0 by {
        assert(runs.drop_first()[i] == runs[i + 1]);
        assert(runs.drop_first()[i + 1] == runs[i + 2]);
    }
    // the run after the first starts with a different key
    if runs.len() > 1 {
        let r1 = runs[1];
        assert(runs.drop_first()[0] == r1);
        assert(rest.len() >= 1) by {
            lemma_expand_first(runs.drop_first());
        }
        lemma_expand_first(runs.drop_first());
        assert(rest[0] == r1.0);
        assert(flags[runs[0].1 as int] == r1.0);
    } else {
        assert(runs.drop_first().len() == 0);
        assert(rest.len() == 0);
    }
    lemma_run_len_prefix(flags, runs[0].1 as nat, runs[0].0);
}

proof fn lemma_expand_first(runs: Seq<(bool, usize)>)
    requires
        runs.len() > 0,
        runs[0].1 >= 1,
    ensures
        expand_runs(runs).len() >= 1,
        expand_runs(runs)[0] == runs[0].0,
{
    let head = Seq::new(runs[0].1 as nat, |i: int| runs[0].0);
    assert(expand_runs(runs) == head + expand_runs(runs.drop_first()));
    assert((head + expand_runs(runs.drop_first()))[0] == head[0]);
}

/// A leading block of `k` equal flags that is followed by a different flag
/// (or by the end) is the leading run.
proof fn lemma_run_len_prefix(flags: Seq<bool>, k: nat, key: bool)
    requires
        1 <= k <= flags.len(),
        forall|i: int| 0 <= i < k ==> flags[i] == key,
        k < flags.len() ==> flags[k as int] != key,
    ensures
        run_len(flags) == k,
    decreases k,
{
    if k == 1 {
    } else {
        let t = flags.drop_first();
        assert forall|i: int| 0 <= i < k - 1 implies t[i] == key by {
            assert(t[i] == flags[i + 1]);
        }
        if k - 1 < t.len() {
            assert(t[k - 1] == flags[k as int]);
        }
        lemma_run_len_prefix(t, (k - 1) as nat, key);
    }
}

/// Segments a track into two lists of contiguous segments: those whose
/// pairs `is_above` holds for, and the rest. Records are the boundaries
/// between segments and are shared between adjacent segments: when the
/// threshold is crossed, the record at the boundary appears in both
/// segments.
///
/// `is_above` is called on each consecutive pair of records, in order.
pub fn threshold_segmentation<T: Copy>(
    records: &Vec<T>,
    is_above: impl Fn(&(T, T)) -> bool,
) -> (r: (Vec<Vec<T>>, Vec<Vec<T>>))
    requires
        forall|i: int| 0 <= i < pairs_spec(records@).len() ==> call_requires(is_above, (&#[trigger] pairs_spec(records@)[i],)),
    ensures
        exists|flags: Seq<bool>| {
            &&& flags.len() == pairs_spec(records@).len()
            &&& forall|i: int| 0 <= i < flags.len() ==> call_ensures(
                is_above,
                (&#[trigger] pairs_spec(records@)[i],),
                flags[i],
            )
            &&& r.0@.map_values(|v: Vec<T>| v@) == segments_with(segments_spec(records@, flags), true)
            &&& r.1@.map_values(|v: Vec<T>| v@) == segments_with(segments_spec(records@, flags), false)
        },
{
    let pairs = tuple_windows(records);
    let mut flags: Vec<bool> = Vec::new();
    let mut i: usize = 0;
    while i < pairs.len()
        invariant
            pairs@ == pairs_spec(records@),
            i <= pairs.len(),
            flags.len() == i,
            forall|j: int| 0 <= j < pairs_spec(records@).len() ==> call_requires(is_above, (&#[trigger] pairs_spec(records@)[j],)),
            forall|j: int| 0 <= j < i ==> call_ensures(is_above, (&#[trigger] pairs_spec(records@)[j],), flags@[j]),
        decreases pairs.len() - i,
    {
        let b = is_above(&pairs[i]);
        flags.push(b);
        i = i + 1;
    }
    let (above, below) = split_segments(records, &flags);
    (above, below)
}

/// The segments of `records` for the given pair flags, split by flag.
pub fn split_segments<T: Copy>(records: &Vec<T>, flags: &Vec<bool>) -> (r: (Vec<Vec<T>>, Vec<Vec<T>>))
    requires
        flags.len() == pairs_spec(records@).len(),
    ensures
        r.0@.map_values(|v: Vec<T>| v@) == segments_with(segments_spec(records@, flags@), true),
        r.1@.map_values(|v: Vec<T>| v@) == segments_with(segments_spec(records@, flags@), false),
{
    let runs = chunk_runs(flags);
    let mut above: Vec<Vec<T>> = Vec::new();
    let mut below: Vec<Vec<T>> = Vec::new();
    let mut start: usize = 0;
    let mut r: usize = 0;
    let ghost full_above = segments_with(segments_spec(records@, flags@), true);
    let ghost full_below = segments_with(segments_spec(records@, flags@), false);
    proof {
        assert(runs@.skip(0) =~= runs@);
        assert(flags@.skip(0) =~= flags@);
        assert(records@.skip(0) =~= records@);
        assert(above@.map_values(|v: Vec<T>| v@) =~= Seq::<Seq<T>>::empty());
        assert(below@.map_values(|v: Vec<T>| v@) =~= Seq::<Seq<T>>::empty());
    }
    while r < runs.len()
        invariant
            flags.len() == pairs_spec(records@).len(),
            is_run_encoding(runs@, flags@),
            r <= runs.len(),
            start <= flags.len(),
            is_run_encoding(runs@.skip(r as int), flags@.skip(start as int)),
            above@.map_values(|v: Vec<T>| v@) + segments_with(
                segments_spec(records@.skip(start as int), flags@.skip(start as int)),
                true,
            ) == full_above,
            below@.map_values(|v: Vec<T>| v@) + segments_with(
                segments_spec(records@.skip(start as int), flags@.skip(start as int)),
                false,
            ) == full_below,
        decreases runs.len() - r,
    {
        let (key, len) = runs[r];
        let ghost rs = runs@.skip(r as int);
        let ghost fs = flags@.skip(start as int);
        let ghost recs = records@.skip(start as int);
        proof {
            assert(rs[0] == runs@[r as int]);
            lemma_run_len_of_encoding(rs, fs);
            assert(rs.drop_first() =~= runs@.skip(r + 1));
        }
        // the run covers flags start..start+len, so records start..=start+len
        assert(fs.len() >= len);
        assert(len >= 1);
        assert(records@.len() == flags.len() + 1);
        let mut seg: Vec<T> = Vec::new();
        let mut j: usize = start;
        while j <= start + len
            invariant
                flags.len() == pairs_spec(records@).len(),
                start + len <= flags.len(),
                len >= 1,
                records@.len() == flags.len() + 1,
                records.len() == flags.len() + 1,
                start <= j <= start + len + 1,
                seg@ == records@.subrange(start as int, j as int),
            decreases start + len + 1 - j,
        {
            seg.push(records[j]);
            assert(records@.subrange(start as int, j + 1) =~= records@.subrange(start as int, j as int).push(records@[j as int]));
            j = j + 1;
        }
        proof {
            assert(seg@ =~= recs.take(len + 1int));
            let segs = segments_spec(recs, fs);
            assert(fs.len() > 0);
            assert(run_len(fs) == len);
            assert(segs == seq![(fs[0], recs.take(len + 1int))] + segments_spec(recs.skip(len as int), fs.skip(len as int)));
            assert(recs.skip(len as int) =~= records@.skip(start + len));
            assert(fs.skip(len as int) =~= flags@.skip(start + len));
            assert(fs[0] == key) by {
                assert(fs.take(len as int)[0] == key);
            }
            let tail = segments_spec(records@.skip(start + len), flags@.skip(start + len));
            assert(segs.drop_first() =~= tail);
            assert(segments_with(segs, true) == (if key { seq![seg@] } else { Seq::empty() }) + segments_with(tail, true));
            assert(segments_with(segs, false) == (if !key { seq![seg@] } else { Seq::empty() }) + segments_with(tail, false));
        }
        let ghost old_above = above@;
        let ghost old_below = below@;
        if key {
            above.push(seg);
            proof {
                assert(above@.map_values(|v: Vec<T>| v@) =~= old_above.map_values(|v: Vec<T>| v@) + seq![above@.last()@]);
            }
        } else {
            below.push(seg);
            proof {
                assert(below@.map_values(|v: Vec<T>| v@) =~= old_below.map_values(|v: Vec<T>| v@) + seq![below@.last()@]);
            }
        }
        start = start + len;
        r = r + 1;
    }
    proof {
        assert(runs@.skip(r as int).len() == 0);
        assert(expand_runs(runs@.skip(r as int)) =~= Seq::<bool>::empty());
        assert(flags@.skip(start as int).len() == 0);
    }
    (above, below)
}

/// A statistic of each consecutive pair of records.
pub fn compute_stat<T: Copy, V>(records: &Vec<T>, stat_fn: impl Fn((T, T)) -> V) -> (stats: Vec<V>)
    requires
        forall|i: int| 0 <= i < pairs_spec(records@).len() ==> call_requires(stat_fn, (#[trigger] pairs_spec(records@)[i],)),
    ensures
        stats.len() == pairs_spec(records@).len(),
        forall|i: int| 0 <= i < stats.len() ==> call_ensures(stat_fn, (#[trigger] pairs_spec(records@)[i],), stats@[i]),
{
    let pairs = tuple_windows(records);
    let mut stats: Vec<V> = Vec::new();
    let mut i: usize = 0;
    while i < pairs.len()
        invariant
            pairs@ == pairs_spec(records@),
            i <= pairs.len(),
            stats.len() == i,
            forall|j: int| 0 <= j < pairs_spec(records@).len() ==> call_requires(stat_fn, (#[trigger] pairs_spec(records@)[j],)),
            forall|j: int| 0 <= j < i ==> call_ensures(stat_fn, (#[trigger] pairs_spec(records@)[j],), stats@[j]),
        decreases pairs.len() - i,
    {
        let v = stat_fn(pairs[i]);
        stats.push(v);
        i = i + 1;
    }
    stats
}

/// The leading run holds flags equal to the first, and the flag after it,
/// if any, differs.
proof fn lemma_run_len_shape(flags: Seq<bool>)
    requires
        flags.len() > 0,
    ensures
        forall|i: int| 0 <= i < run_len(flags) ==> #[trigger] flags[i] == flags[0],
        run_len(flags) < flags.len() ==> flags[run_len(flags) as int] != flags[0],
    decreases flags.len(),
{
    lemma_run_len_bounds(flags);
    if flags.len() > 1 && flags[1] == flags[0] {
        let t = flags.drop_first();
        lemma_run_len_shape(t);
        assert forall|i: int| 0 <= i < run_len(flags) implies #[trigger] flags[i] == flags[0] by {
            if i > 0 {
                assert(flags[i] == t[i - 1]);
            }
        }
        if run_len(flags) < flags.len() {
            assert(flags[run_len(flags) as int] == t[run_len(t) as int]);
        }
    }
}

/// The records of the segments with each segment's last record dropped:
/// the track up to its last record, when the segments share boundaries.
pub open spec fn stitch<T>(segs: Seq<(bool, Seq<T>)>) -> Seq<T>
    decreases segs.len(),
{
    if segs.len() == 0 {
        Seq::empty()
    } else {
        segs[0].1.drop_last() + stitch(segs.drop_first())
    }
}

/// How a track falls into segments, for one flag per consecutive pair of
/// records: every segment has at least two records; neighbouring segments
/// have different flags and share the record at their boundary; the first
/// segment starts at the first record and the last ends at the last; and
/// the segments, with the shared records counted once, are the track
/// itself. A track of fewer than two records has no segments.
pub proof fn segments_share_boundaries<T>(records: Seq<T>, flags: Seq<bool>)
    requires
        records.len() == flags.len() + 1,
    ensures
        ({
            let segs = segments_spec(records, flags);
            &&& forall|i: int| 0 <= i < segs.len() ==> (#[trigger] segs[i]).1.len() >= 2
            &&& forall|i: int| 0 <= i < segs.len() - 1 ==> (#[trigger] segs[i]).0 != segs[i + 1].0
            &&& forall|i: int| 0 <= i < segs.len() - 1 ==> (#[trigger] segs[i]).1.last() == segs[i + 1].1[0]
            &&& (flags.len() == 0 <==> segs.len() == 0)
            &&& flags.len() > 0 ==> segs[0].0 == flags[0] && segs[0].1[0] == records[0]
            &&& flags.len() > 0 ==> segs.last().1.last() == records.last()
            &&& flags.len() > 0 ==> stitch(segs).push(records.last()) == records
        }),
    decreases flags.len(),
{
    let segs = segments_spec(records, flags);
    if flags.len() > 0 {
        lemma_run_len_bounds(flags);
        lemma_run_len_shape(flags);
        let k = run_len(flags) as int;
        let head = records.take(k + 1);
        let rrecs = records.skip(k);
        let rflags = flags.skip(k);
        let rest = segments_spec(rrecs, rflags);
        segments_share_boundaries(rrecs, rflags);
        assert(segs == seq![(flags[0], head)] + rest);
        assert(segs.drop_first() =~= rest);
        assert(segs[0] == (flags[0], head));
        assert forall|i: int| 0 <= i < segs.len() implies (#[trigger] segs[i]).1.len() >= 2 by {
            if i > 0 {
                assert(segs[i] == rest[i - 1]);
            }
        }
        if rflags.len() > 0 {
            assert(rest[0].0 == rflags[0]);
            assert(rflags[0] == flags[k]);
            assert(rest[0].1[0] == rrecs[0]);
            assert(head.last() == records[k]);
        }
        assert forall|i: int| 0 <= i < segs.len() - 1 implies (#[trigger] segs[i]).0 != segs[i + 1].0 by {
            assert(segs[i + 1] == rest[i]);
            if i > 0 {
                assert(segs[i] == rest[i - 1]);
            }
        }
        assert forall|i: int| 0 <= i < segs.len() - 1 implies (#[trigger] segs[i]).1.last() == segs[i + 1].1[0] by {
            assert(segs[i + 1] == rest[i]);
            if i > 0 {
                assert(segs[i] == rest[i - 1]);
            }
        }
        assert(stitch(segs) == head.drop_last() + stitch(rest));
        assert(head.drop_last() =~= records.take(k));
        if rflags.len() > 0 {
            assert(segs.last() == rest.last());
            assert(rrecs.last() == records.last());
            assert(stitch(rest).push(records.last()) == rrecs);
            assert(stitch(segs).push(records.last()) =~= records.take(k) + rrecs);
            assert(records.take(k) + rrecs =~= records);
        } else {
            assert(rest.len() == 0);
            assert(stitch(rest) =~= Seq::<T>::empty());
            assert(stitch(segs).push(records.last()) =~= records);
        }
    }
}

/// The positions 0..n, as the records whose segments are index ranges.
pub open spec fn positions(n: nat) -> Seq<usize> {
    Seq::new(n, |i: int| i as usize)
}

/// The periods of a track whose records are marked as dwelling or not: for
/// each maximal run of consecutive pairs whose first record has the same
/// mark, the mark and the indices of the run's first and last records. A
/// record at a boundary ends one period and starts the next.
pub open spec fn periods_spec(is_dwell: Seq<bool>) -> Seq<(bool, usize, usize)> {
    if is_dwell.len() < 2 {
        Seq::empty()
    } else {
        periods_of(segments_spec(positions(is_dwell.len()), is_dwell.drop_last()))
    }
}

/// Each segment of positions as its flag and its first and last position.
pub open spec fn periods_of(segs: Seq<(bool, Seq<usize>)>) -> Seq<(bool, usize, usize)>
    decreases segs.len(),
{
    if segs.len() == 0 {
        Seq::empty()
    } else {
        seq![(segs[0].0, segs[0].1[0], segs[0].1.last())] + periods_of(segs.drop_first())
    }
}

/// The periods of a track, each as its mark and its first and last record.
pub fn timeline_periods(is_dwell: &Vec<bool>) -> (periods: Vec<(bool, usize, usize)>)
    ensures
        periods@ == periods_spec(is_dwell@),
{
    let n = is_dwell.len();
    if n < 2 {
        let empty: Vec<(bool, usize, usize)> = Vec::new();
        assert(empty@ =~= periods_spec(is_dwell@));
        return empty;
    }
    let mut flags: Vec<bool> = Vec::new();
    let mut i: usize = 0;
    while i + 1 < n
        invariant
            n == is_dwell.len(),
            n >= 2,
            i < n,
            flags@ == is_dwell@.take(i as int),
        decreases n - i,
    {
        flags.push(is_dwell[i]);
        i = i + 1;
        assert(flags@ =~= is_dwell@.take(i as int));
    }
    assert(flags@ =~= is_dwell@.drop_last());
    let ghost idx = positions(n as nat);
    let ghost full = periods_of(segments_spec(idx, flags@));
    let runs = chunk_runs(&flags);
    let mut periods: Vec<(bool, usize, usize)> = Vec::new();
    let mut start: usize = 0;
    let mut r: usize = 0;
    proof {
        assert(runs@.skip(0) =~= runs@);
        assert(flags@.skip(0) =~= flags@);
        assert(idx.skip(0) =~= idx);
        assert(periods@ + periods_of(segments_spec(idx, flags@)) =~= full);
    }
    while r < runs.len()
        invariant
            n == is_dwell.len(),
            flags.len() + 1 == n,
            idx == positions(n as nat),
            is_run_encoding(runs@, flags@),
            r <= runs.len(),
            start <= flags.len(),
            is_run_encoding(runs@.skip(r as int), flags@.skip(start as int)),
            periods@ + periods_of(segments_spec(idx.skip(start as int), flags@.skip(start as int))) == full,
        decreases runs.len() - r,
    {
        let (key, len) = runs[r];
        let ghost rs = runs@.skip(r as int);
        let ghost fs = flags@.skip(start as int);
        let ghost recs = idx.skip(start as int);
        proof {
            assert(rs[0] == runs@[r as int]);
            lemma_run_len_of_encoding(rs, fs);
            assert(rs.drop_first() =~= runs@.skip(r + 1));
            assert(fs.len() > 0);
            let segs = segments_spec(recs, fs);
            assert(run_len(fs) == len);
            assert(fs[0] == key) by {
                assert(fs.take(len as int)[0] == key);
            }
            assert(segs == seq![(fs[0], recs.take(len + 1int))] + segments_spec(recs.skip(len as int), fs.skip(len as int)));
            assert(recs.skip(len as int) =~= idx.skip(start + len));
            assert(fs.skip(len as int) =~= flags@.skip(start + len));
            let seg = recs.take(len + 1int);
            assert(seg[0] == start);
            assert(seg.last() == start + len);
            let tail = segments_spec(idx.skip(start + len), flags@.skip(start + len));
            assert(segs[0] == (key, seg));
            assert(segs.drop_first() =~= tail);
            assert(segs[0].1[0] == start);
            assert(segs[0].1.last() == (start + len) as usize);
            assert(periods_of(segs) == seq![(key, start, (start + len) as usize)] + periods_of(tail));
        }
        periods.push((key, start, start + len));
        proof {
            let tail = segments_spec(idx.skip(start + len), flags@.skip(start + len));
            assert(periods@ + periods_of(tail) =~= full);
        }
        start = start + len;
        r = r + 1;
    }
    proof {
        assert(runs@.skip(r as int).len() == 0);
        assert(expand_runs(runs@.skip(r as int)) =~= Seq::<bool>::empty());
        assert(flags@.skip(start as int).len() == 0);
        assert(periods@ =~= full);
    }
    periods
}

proof fn lemma_periods_of_index(segs: Seq<(bool, Seq<usize>)>)
    ensures
        periods_of(segs).len() == segs.len(),
        forall|k: int| 0 <= k < segs.len() ==> #[trigger] periods_of(segs)[k] == (segs[k].0, segs[k].1[0], segs[k].1.last()),
    decreases segs.len(),
{
    if segs.len() > 0 {
        lemma_periods_of_index(segs.drop_first());
        assert forall|k: int| 0 <= k < segs.len() implies #[trigger] periods_of(segs)[k] == (segs[k].0, segs[k].1[0], segs[k].1.last()) by {
            if k > 0 {
                assert(periods_of(segs)[k] == periods_of(segs.drop_first())[k - 1]);
                assert(segs.drop_first()[k - 1] == segs[k]);
            }
        }
    }
}

/// The periods of a track cover it end to end: a track of two or more
/// records has at least one period, the first starts at the first record,
/// the last ends at the last record, each period ends where the next one
/// starts, and neighbouring periods differ in mark. A shorter track has
/// none.
pub proof fn periods_cover_track(is_dwell: Seq<bool>)
    requires
        is_dwell.len() <= usize::MAX,
    ensures
        ({
            let p = periods_spec(is_dwell);
            &&& (is_dwell.len() < 2 <==> p.len() == 0)
            &&& is_dwell.len() >= 2 ==> p[0].1 == 0 && p.last().2 == is_dwell.len() - 1
            &&& is_dwell.len() >= 2 ==> p[0].0 == is_dwell[0]
            &&& forall|k: int| 0 <= k < p.len() - 1 ==> (#[trigger] p[k]).2 == p[k + 1].1
            &&& forall|k: int| 0 <= k < p.len() - 1 ==> (#[trigger] p[k]).0 != p[k + 1].0
        }),
{
    let n = is_dwell.len();
    if n >= 2 {
        let idx = positions(n);
        let flags = is_dwell.drop_last();
        let segs = segments_spec(idx, flags);
        segments_share_boundaries(idx, flags);
        lemma_periods_of_index(segs);
        let p = periods_spec(is_dwell);
        assert(p == periods_of(segs));
        assert(segs.last() == segs[segs.len() - 1]);
        assert(p.last() == p[p.len() - 1]);
        assert forall|k: int| 0 <= k < p.len() - 1 implies (#[trigger] p[k]).2 == p[k + 1].1 by {
            assert(segs[k].1.last() == segs[k + 1].1[0]);
        }
        assert forall|k: int| 0 <= k < p.len() - 1 implies (#[trigger] p[k]).0 != p[k + 1].0 by {
            assert(segs[k].0 != segs[k + 1].0);
        }
    }
}

/// The runs of equal flags of a track's records, such as whether each is
/// in view: each run as its flag and its number of records.
pub fn visibility_runs(visible: &Vec<bool>) -> (runs: Vec<(bool, usize)>)
    ensures
        is_run_encoding(runs@, visible@),
{
    chunk_runs(visible)
}

/// Whether a dwelling record starts a run of dwelling records.
pub open spec fn dwell_run_start(flags: Seq<bool>, j: int) -> bool {
    flags[j] && (j == 0 || !flags[j - 1])
}

/// Number of runs of dwelling records that start before `k`.
pub open spec fn dwell_runs_before(flags: Seq<bool>, k: nat) -> nat
    decreases k,
{
    if k == 0 {
        0
    } else {
        dwell_runs_before(flags, (k - 1) as nat) + if dwell_run_start(flags, k - 1) { 1nat } else { 0nat }
    }
}

/// The color slot of record `i`: the `r`-th run of dwelling records (from
/// 0) takes slot `r` mod 6; a moving record takes none.
pub open spec fn dwell_color_spec(flags: Seq<bool>, i: int) -> Option<u8> {
    if flags[i] {
        Some(((dwell_runs_before(flags, (i + 1) as nat) - 1) % 6) as u8)
    } else {
        None
    }
}

/// The color slot of each record of a track marked as dwelling or not:
/// successive runs of dwelling records cycle through six slots.
pub fn dwell_run_colors(is_dwell: &Vec<bool>) -> (colors: Vec<Option<u8>>)
    ensures
        colors.len() == is_dwell.len(),
        forall|i: int| 0 <= i < is_dwell.len() ==> #[trigger] colors@[i] == dwell_color_spec(is_dwell@, i),
{
    let runs = chunk_runs(is_dwell);
    let ghost flags = is_dwell@;
    let mut colors: Vec<Option<u8>> = Vec::new();
    let mut c: u8 = 0;
    let mut pos: usize = 0;
    let mut r: usize = 0;
    proof {
        assert(runs@.skip(0) =~= runs@);
        assert(flags.skip(0) =~= flags);
    }
    while r < runs.len()
        invariant
            flags == is_dwell@,
            is_run_encoding(runs@, flags),
            r <= runs.len(),
            pos <= flags.len(),
            is_run_encoding(runs@.skip(r as int), flags.skip(pos as int)),
            r == 0 ==> pos == 0,
            r > 0 ==> pos > 0 && flags[pos - 1] == runs@[r - 1].0,
            colors.len() == pos,
            forall|i: int| 0 <= i < pos ==> #[trigger] colors@[i] == dwell_color_spec(flags, i),
            c as nat == dwell_runs_before(flags, pos as nat) % 6,
        decreases runs.len() - r,
    {
        let (key, len) = runs[r];
        let ghost rs = runs@.skip(r as int);
        let ghost fs = flags.skip(pos as int);
        proof {
            assert(rs[0] == runs@[r as int]);
            lemma_run_len_of_encoding(rs, fs);
            assert(rs.drop_first() =~= runs@.skip(r + 1));
            assert(fs.skip(len as int) =~= flags.skip(pos + len));
            assert forall|j: int| pos <= j < pos + len implies flags[j] == key by {
                assert(fs.take(len as int)[j - pos] == key);
            }
            if r > 0 {
                assert(runs@[r - 1].0 != runs@[r as int].0);
            }
        }
        let ghost base = dwell_runs_before(flags, pos as nat);
        let cur = c;
        proof {
            lemma_run_len_bounds(fs);
            assert(fs.len() > 0);
        }
        assert(pos + len <= is_dwell.len());
        let end = pos + len;
        let mut j: usize = pos;
        while j < end
            invariant
                end == pos + len,
                flags == is_dwell@,
                pos + len <= flags.len(),
                pos <= j <= pos + len,
                forall|t: int| pos <= t < pos + len ==> flags[t] == key,
                key ==> (pos == 0 || !flags[pos - 1]),
                base == dwell_runs_before(flags, pos as nat),
                cur as nat == base % 6,
                dwell_runs_before(flags, j as nat) == base + (if key && j > pos { 1nat } else { 0nat }),
                colors.len() == j,
                forall|i: int| 0 <= i < j ==> #[trigger] colors@[i] == dwell_color_spec(flags, i),
            decreases pos + len - j,
        {
            proof {
                if j > pos {
                    assert(flags[j - 1] == key);
                }
                assert(dwell_runs_before(flags, (j + 1) as nat) == base + (if key { 1nat } else { 0nat }));
            }
            if key {
                colors.push(Some(cur));
            } else {
                colors.push(None);
            }
            j = j + 1;
        }
        if key {
            c = if c == 5 { 0 } else { c + 1 };
        }
        proof {
            assert(dwell_runs_before(flags, (pos + len) as nat) == base + (if key { 1nat } else { 0nat }));
            assert(flags[pos + len - 1] == key);
        }
        pos = end;
        r = r + 1;
    }
    proof {
        assert(runs@.skip(r as int).len() == 0);
        assert(expand_runs(runs@.skip(r as int)) =~= Seq::<bool>::empty());
        assert(flags.skip(pos as int).len() == 0);
    }
    colors
}

} // verus!
