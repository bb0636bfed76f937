//! The dashboard's accounting of a track: time spent dwelling and moving,
//! and how the timelines of the visible parts of the track join up.

use vstd::prelude::*;

verus! {

/// Time between consecutive records (by timestamp, in seconds), split into
/// time in dwells and time moving, over the first `k` pairs: a pair with a
/// dwelling record at either end counts as dwelling, since there is often
/// a long delay between the end of a dwell and the next movement.
pub open spec fn pair_times_spec(ts: Seq<i64>, is_dwell: Seq<bool>, k: nat) -> (int, int)
    decreases k,
{
    if k == 0 {
        (0, 0)
    } else {
        let (d, m) = pair_times_spec(ts, is_dwell, (k - 1) as nat);
        let i = k - 1;
        let dur = ts[i + 1] - ts[i];
        if is_dwell[i] || is_dwell[i + 1] { (d + dur, m) } else { (d, m + dur) }
    }
}

/// Number of consecutive pairs of `n` records.
pub open spec fn n_pairs(n: nat) -> nat {
    if n == 0 { 0 } else { (n - 1) as nat }
}

/// Dwell time and movement time of a track, in seconds. (A vector of
/// i64 holds at most isize::MAX bytes, so fewer than 2^60 timestamps.)
pub fn pair_times(timestamps: &Vec<i64>, is_dwell: &Vec<bool>) -> (times: (i128, i128))
    requires
        timestamps.len() == is_dwell.len(),
        timestamps.len() <= 0x1000_0000_0000_0000,
    ensures
        times.0 == pair_times_spec(timestamps@, is_dwell@, n_pairs(timestamps.len() as nat)).0,
        times.1 == pair_times_spec(timestamps@, is_dwell@, n_pairs(timestamps.len() as nat)).1,
{
    let n = timestamps.len();
    let mut dwell: i128 = 0;
    let mut moving: i128 = 0;
    if n == 0 {
        return (0, 0);
    }
    let mut k: usize = 0;
    while k + 1 < n
        invariant
            n == timestamps.len(),
            n == is_dwell.len(),
            n >= 1,
            n <= 0x1000_0000_0000_0000,
            k + 1 <= n,
            dwell == pair_times_spec(timestamps@, is_dwell@, k as nat).0,
            moving == pair_times_spec(timestamps@, is_dwell@, k as nat).1,
            -0x1_0000_0000_0000_0000 * k <= dwell <= 0x1_0000_0000_0000_0000 * k,
            -0x1_0000_0000_0000_0000 * k <= moving <= 0x1_0000_0000_0000_0000 * k,
        decreases n - k,
    {
        let dur = timestamps[k + 1] as i128 - timestamps[k] as i128;
        assert(0x1_0000_0000_0000_0000 * (k + 1) <= 0x1_0000_0000_0000_0000 * 0x1000_0000_0000_0000) by (nonlinear_arith)
            requires k + 1 <= 0x1000_0000_0000_0000;
        if is_dwell[k] || is_dwell[k + 1] {
            dwell = dwell + dur;
        } else {
            moving = moving + dur;
        }
        k = k + 1;
    }
    (dwell, moving)
}

/// Dwell time and movement time together are the time from the first
/// record to the last: every pair is counted once, as one or the other.
pub proof fn pair_times_cover_span(ts: Seq<i64>, is_dwell: Seq<bool>, k: nat)
    requires
        k + 1 <= ts.len(),
        ts.len() == is_dwell.len(),
    ensures
        pair_times_spec(ts, is_dwell, k).0 + pair_times_spec(ts, is_dwell, k).1 == ts[k as int] - ts[0],
    decreases k,
{
    if k > 0 {
        pair_times_cover_span(ts, is_dwell, (k - 1) as nat);
    }
}

/// Each further pair of records adds its duration to one side: to dwell
/// time whenever either of its records is dwelling (in particular when
/// both are), and to movement time only when neither is.
pub proof fn each_pair_counts_once(ts: Seq<i64>, is_dwell: Seq<bool>, k: nat)
    requires
        k + 1 < ts.len(),
        ts.len() == is_dwell.len(),
    ensures
        ({
            let before = pair_times_spec(ts, is_dwell, k);
            let after = pair_times_spec(ts, is_dwell, k + 1);
            let dur = ts[k + 1int] - ts[k as int];
            &&& (is_dwell[k as int] || is_dwell[k + 1int]) ==> after.0 == before.0 + dur && after.1 == before.1
            &&& (!is_dwell[k as int] && !is_dwell[k + 1int]) ==> after.0 == before.0 && after.1 == before.1 + dur
        }),
{
}

/// Whether the pair of records `i` and `i + 1` has a dwelling record.
pub open spec fn pair_has_dwell(is_dwell: Seq<bool>, i: int) -> bool {
    is_dwell[i] || is_dwell[i + 1]
}

/// A track that dwells throughout is all dwell time, and one that never
/// dwells is all movement time; more generally, where every pair has a
/// dwelling record there is no movement time, and where no record dwells
/// there is no dwell time.
pub proof fn whole_track_dwell_or_movement(ts: Seq<i64>, is_dwell: Seq<bool>, k: nat)
    requires
        k + 1 <= ts.len(),
        ts.len() == is_dwell.len(),
    ensures
        (forall|i: int| 0 <= i < k ==> #[trigger] pair_has_dwell(is_dwell, i)) ==> pair_times_spec(ts, is_dwell, k).1 == 0,
        (forall|i: int| 0 <= i <= k ==> !is_dwell[i]) ==> pair_times_spec(ts, is_dwell, k).0 == 0,
        (forall|i: int| 0 <= i <= k ==> is_dwell[i]) ==> pair_times_spec(ts, is_dwell, k) == (ts[k as int] - ts[0], 0int),
        (forall|i: int| 0 <= i <= k ==> !is_dwell[i]) ==> pair_times_spec(ts, is_dwell, k) == (0int, ts[k as int] - ts[0]),
    decreases k,
{
    pair_times_cover_span(ts, is_dwell, k);
    if k > 0 {
        whole_track_dwell_or_movement(ts, is_dwell, (k - 1) as nat);
        let i = k - 1;
        if forall|i: int| 0 <= i < k ==> #[trigger] pair_has_dwell(is_dwell, i) {
            assert(pair_has_dwell(is_dwell, i));
        }
        if forall|i: int| 0 <= i <= k ==> !is_dwell[i] {
            assert(!is_dwell[i] && !is_dwell[i + 1]);
        }
    }
}

/// A place in the joined timeline: period `index` of visible part `part`,
/// or the unknown time between two kept parts, while the track was out of
/// view.
#[derive(Debug, Clone, Copy, PartialEq, Eq, Structural)]
pub enum TimelineSlot {
    Period { part: usize, index: usize },
    OutOfView { before: usize, after: usize },
}

/// The periods of part `p` (of `len` periods) in order.
pub open spec fn part_slots(p: usize, len: nat) -> Seq<TimelineSlot> {
    Seq::new(len, |i: int| TimelineSlot::Period { part: p, index: i as usize })
}

/// The timeline of the first `k` parts: the parts with a dwell (those
/// without are only brief movement where the view's edge cuts the track),
/// in order, with the time out of view between each two of them; `last` is
/// the last part kept so far.
pub open spec fn timeline_spec(has_dwell: Seq<bool>, lens: Seq<usize>, k: nat) -> (Seq<TimelineSlot>, Option<usize>)
    decreases k,
{
    if k == 0 {
        (Seq::empty(), None)
    } else {
        let (t, last) = timeline_spec(has_dwell, lens, (k - 1) as nat);
        let p = (k - 1) as usize;
        if !has_dwell[p as int] {
            (t, last)
        } else {
            let gap = match last {
                Some(q) => seq![TimelineSlot::OutOfView { before: q, after: p }],
                None => Seq::empty(),
            };
            (t + gap + part_slots(p, lens[p as int] as nat), Some(p))
        }
    }
}

/// Joins the timelines of the visible parts of a track, each given by
/// whether it has a dwell and its number of periods.
pub fn join_timeline(has_dwell: &Vec<bool>, lens: &Vec<usize>) -> (slots: Vec<TimelineSlot>)
    requires
        has_dwell.len() == lens.len(),
    ensures
        slots@ == timeline_spec(has_dwell@, lens@, has_dwell.len() as nat).0,
{
    let n = has_dwell.len();
    let mut slots: Vec<TimelineSlot> = Vec::new();
    let mut last: Option<usize> = None;
    let mut p: usize = 0;
    while p < n
        invariant
            n == has_dwell.len(),
            n == lens.len(),
            p <= n,
            slots@ == timeline_spec(has_dwell@, lens@, p as nat).0,
            last == timeline_spec(has_dwell@, lens@, p as nat).1,
        decreases n - p,
    {
        if has_dwell[p] {
            let ghost before = slots@;
            match last {
                Some(q) => {
                    slots.push(TimelineSlot::OutOfView { before: q, after: p });
                },
                None => {},
            }
            let ghost with_gap = slots@;
            let mut i: usize = 0;
            while i < lens[p]
                invariant
                    p < n,
                    n == lens.len(),
                    i <= lens@[p as int],
                    slots@ == with_gap + part_slots(p, i as nat),
                decreases lens@[p as int] - i,
            {
                slots.push(TimelineSlot::Period { part: p, index: i });
                i = i + 1;
                assert(slots@ =~= with_gap + part_slots(p, i as nat));
            }
            proof {
                let gap = match last {
                    Some(q) => seq![TimelineSlot::OutOfView { before: q, after: p }],
                    None => Seq::<TimelineSlot>::empty(),
                };
                assert(with_gap =~= before + gap);
            }
            last = Some(p);
        }
        p = p + 1;
    }
    slots
}

} // verus!
