//! The points just outside the view that a temporally decimated track needs
//! for its lines: which neighbours to fetch, which fetched ones to keep, and
//! where they go among the bounded points.
//!
//! Points are known here by their ids; a decimated query keeps every
//! `decim`-th id, so two bounded points `decim` apart in id are neighbours on
//! the track and need nothing fetched between them.

use vstd::prelude::*;

verus! {

/// Whether the neighbour before bounded point `i` must be fetched: unless
/// the previous bounded point is exactly one stride earlier.
pub open spec fn fetch_before_spec(ids: Seq<i64>, decim: i64, i: int) -> bool {
    !(i > 0 && ids[i - 1] + decim == ids[i])
}

/// Whether the neighbour after bounded point `i` must be fetched: unless
/// the next bounded point is exactly one stride later.
pub open spec fn fetch_after_spec(ids: Seq<i64>, decim: i64, i: int) -> bool {
    !(i < ids.len() - 1 && ids[i] + decim == ids[i + 1])
}

/// For each bounded point (by id, in track order), whether to fetch its
/// neighbour before and its neighbour after.
pub fn adjacent_fetches(ids: &Vec<i64>, decim: i64) -> (plan: Vec<(bool, bool)>)
    ensures
        plan.len() == ids.len(),
        forall|i: int| 0 <= i < ids.len() ==> #[trigger] plan@[i] == (
            fetch_before_spec(ids@, decim, i),
            fetch_after_spec(ids@, decim, i),
        ),
{
    let n = ids.len();
    let mut plan: Vec<(bool, bool)> = Vec::new();
    let mut i: usize = 0;
    while i < n
        invariant
            n == ids.len(),
            i <= n,
            plan.len() == i,
            forall|k: int| 0 <= k < i ==> #[trigger] plan@[k] == (
                fetch_before_spec(ids@, decim, k),
                fetch_after_spec(ids@, decim, k),
            ),
        decreases n - i,
    {
        // compared in i128: an id plus the stride cannot overflow there
        let before = !(i > 0 && ids[i - 1] as i128 + decim as i128 == ids[i] as i128);
        let after = !(i + 1 < n && ids[i] as i128 + decim as i128 == ids[i + 1] as i128);
        plan.push((before, after));
        i = i + 1;
    }
    plan
}

/// Whether a neighbour fetched for bounded point `i` (before it, or after
/// it) is new: it is not, when it is the bounded point on that side.
pub open spec fn keep_fetched_spec(ids: Seq<i64>, i: int, new_id: i64, before: bool) -> bool {
    if (i != 0 && before) || (i != ids.len() - 1 && !before) {
        let j = if before { i - 1 } else { i + 1 };
        !(0 <= j < ids.len() && ids[j] == new_id)
    } else {
        true
    }
}

/// Whether to keep a neighbour fetched for bounded point `i`.
pub fn keep_fetched(ids: &Vec<i64>, i: usize, new_id: i64, before: bool) -> (keep: bool)
    requires
        i < ids.len(),
    ensures
        keep == keep_fetched_spec(ids@, i as int, new_id, before),
{
    let n = ids.len();
    if (i != 0 && before) || (i != n - 1 && !before) {
        let j = if before { i - 1 } else { i + 1 };
        !(j < n && ids[j] == new_id)
    } else {
        true
    }
}

/// Where a point of the merged track comes from: the bounded point with
/// that index, or the fetched neighbour with that index.
#[derive(Debug, Clone, Copy, PartialEq, Eq, Structural)]
pub enum Slot {
    Bounded(usize),
    Fetched(usize),
}

/// The merged track (each slot with its id) after the first `k` fetched
/// neighbours are placed, and how many were placed. Neighbour `j` goes at
/// its insertion index among the bounded points, after the neighbours
/// placed before it there; it is dropped when the point just before that
/// place (past the first gap) has its id.
pub open spec fn merge_spec(ids: Seq<i64>, fetched: Seq<(usize, i64)>, k: nat) -> (Seq<(Slot, i64)>, int)
    decreases k,
{
    if k == 0 {
        (Seq::new(ids.len(), |i: int| (Slot::Bounded(i as usize), ids[i])), 0)
    } else {
        let (cur, placed) = merge_spec(ids, fetched, (k - 1) as nat);
        let (idx, id) = fetched[k - 1];
        let pos = idx + placed;
        if idx > 0 && 0 <= pos - 1 < cur.len() && cur[pos - 1].1 == id {
            (cur, placed)
        } else {
            (cur.insert(pos, (Slot::Fetched((k - 1) as usize), id)), placed + 1)
        }
    }
}

proof fn lemma_merge_len(ids: Seq<i64>, fetched: Seq<(usize, i64)>, k: nat)
    requires
        k <= fetched.len(),
        forall|j: int| 0 <= j < fetched.len() ==> (#[trigger] fetched[j]).0 <= ids.len(),
    ensures
        merge_spec(ids, fetched, k).0.len() == ids.len() + merge_spec(ids, fetched, k).1,
        0 <= merge_spec(ids, fetched, k).1 <= k,
    decreases k,
{
    if k > 0 {
        lemma_merge_len(ids, fetched, (k - 1) as nat);
        let (cur, placed) = merge_spec(ids, fetched, (k - 1) as nat);
        let pos = fetched[k - 1].0 + placed;
        if !(fetched[k - 1].0 > 0 && 0 <= pos - 1 < cur.len() && cur[pos - 1].1 == fetched[k - 1].1) {
            cur.insert_ensures(pos, (Slot::Fetched((k - 1) as usize), fetched[k - 1].1));
        }
    }
}

/// The bounded points merged with the fetched neighbours that are kept,
/// each `(insertion index, id)` in the order they were fetched, the
/// insertion index counting bounded points.
pub fn merge_adjacent(ids: &Vec<i64>, fetched: &Vec<(usize, i64)>) -> (merged: Vec<Slot>)
    requires
        forall|j: int| 0 <= j < fetched.len() ==> (#[trigger] fetched@[j]).0 <= ids.len(),
        ids.len() + fetched.len() <= usize::MAX,
    ensures
        merged@ == merge_spec(ids@, fetched@, fetched.len() as nat).0.map_values(|p: (Slot, i64)| p.0),
{
    let n = ids.len();
    let mut slots: Vec<Slot> = Vec::new();
    let mut slot_ids: Vec<i64> = Vec::new();
    let mut i: usize = 0;
    while i < n
        invariant
            n == ids.len(),
            i <= n,
            slots.len() == i,
            slot_ids.len() == i,
            forall|k: int| 0 <= k < i ==> #[trigger] slots@[k] == Slot::Bounded(k as usize),
            forall|k: int| 0 <= k < i ==> #[trigger] slot_ids@[k] == ids@[k],
        decreases n - i,
    {
        slots.push(Slot::Bounded(i));
        slot_ids.push(ids[i]);
        i = i + 1;
    }
    let mut placed: usize = 0;
    let mut k: usize = 0;
    proof {
        let m = merge_spec(ids@, fetched@, 0);
        assert(m.0.map_values(|p: (Slot, i64)| p.0) =~= slots@);
        assert(m.0.map_values(|p: (Slot, i64)| p.1) =~= slot_ids@);
    }
    while k < fetched.len()
        invariant
            n == ids.len(),
            ids.len() + fetched.len() <= usize::MAX,
            forall|j: int| 0 <= j < fetched.len() ==> (#[trigger] fetched@[j]).0 <= ids.len(),
            k <= fetched.len(),
            placed as int == merge_spec(ids@, fetched@, k as nat).1,
            slots@ == merge_spec(ids@, fetched@, k as nat).0.map_values(|p: (Slot, i64)| p.0),
            slot_ids@ == merge_spec(ids@, fetched@, k as nat).0.map_values(|p: (Slot, i64)| p.1),
        decreases fetched.len() - k,
    {
        proof {
            lemma_merge_len(ids@, fetched@, k as nat);
        }
        let ghost cur = merge_spec(ids@, fetched@, k as nat).0;
        let (idx, id) = fetched[k];
        let pos = idx + placed;
        if idx > 0 && slot_ids[pos - 1] == id {
            proof {
                assert(cur[pos - 1].1 == slot_ids@[pos - 1]);
            }
        } else {
            proof {
                if idx > 0 {
                    assert(cur[pos - 1].1 == slot_ids@[pos - 1]);
                }
            }
            slots.insert(pos, Slot::Fetched(k));
            slot_ids.insert(pos, id);
            placed = placed + 1;
            proof {
                let next = cur.insert(pos as int, (Slot::Fetched(k), id));
                assert(slots@ =~= next.map_values(|p: (Slot, i64)| p.0));
                assert(slot_ids@ =~= next.map_values(|p: (Slot, i64)| p.1));
            }
        }
        k = k + 1;
    }
    slots
}

/// Where each bounded point stands in the merged track after `k` steps.
proof fn lemma_merge_positions(ids: Seq<i64>, fetched: Seq<(usize, i64)>, k: nat) -> (pos: Seq<int>)
    requires
        k <= fetched.len(),
        ids.len() <= usize::MAX,
        fetched.len() <= usize::MAX,
        forall|j: int| 0 <= j < fetched.len() ==> (#[trigger] fetched[j]).0 <= ids.len(),
    ensures
        ({
            let out = merge_spec(ids, fetched, k).0;
            &&& pos.len() == ids.len()
            &&& forall|b: int| 0 <= b < ids.len() ==> 0 <= #[trigger] pos[b] < out.len()
            &&& forall|b: int| 0 <= b < ids.len() ==> out[#[trigger] pos[b]] == (Slot::Bounded(b as usize), ids[b])
            &&& forall|a: int, b: int| 0 <= a < b < ids.len() ==> #[trigger] pos[a] < #[trigger] pos[b]
            &&& forall|q: int| 0 <= q < out.len() ==> match (#[trigger] out[q]).0 {
                Slot::Bounded(b) => b < ids.len() && pos[b as int] == q,
                Slot::Fetched(j) => j < k && out[q].1 == fetched[j as int].1,
            }
        }),
    decreases k,
{
    lemma_merge_len(ids, fetched, k);
    if k == 0 {
        Seq::new(ids.len(), |b: int| b)
    } else {
        let prev = lemma_merge_positions(ids, fetched, (k - 1) as nat);
        lemma_merge_len(ids, fetched, (k - 1) as nat);
        let (cur, placed) = merge_spec(ids, fetched, (k - 1) as nat);
        let (idx, id) = fetched[k - 1];
        let p = idx + placed;
        if idx > 0 && 0 <= p - 1 < cur.len() && cur[p - 1].1 == id {
            assert forall|q: int| 0 <= q < cur.len() implies match (#[trigger] cur[q]).0 {
                Slot::Bounded(b) => b < ids.len() && prev[b as int] == q,
                Slot::Fetched(j) => j < k && cur[q].1 == fetched[j as int].1,
            } by {
                match cur[q].0 {
                    Slot::Bounded(b) => {},
                    Slot::Fetched(j) => {},
                }
            }
            prev
        } else {
            let elt = (Slot::Fetched((k - 1) as usize), id);
            let out = cur.insert(p, elt);
            cur.insert_ensures(p, elt);
            let pos = Seq::new(ids.len(), |b: int| if prev[b] >= p { prev[b] + 1 } else { prev[b] });
            assert forall|b: int| 0 <= b < ids.len() implies out[#[trigger] pos[b]] == (Slot::Bounded(b as usize), ids[b]) by {
                if prev[b] >= p {
                    assert(out[prev[b] + 1] == cur[prev[b]]);
                } else {
                    assert(out[prev[b]] == cur[prev[b]]);
                }
            }
            assert forall|q: int| 0 <= q < out.len() implies match (#[trigger] out[q]).0 {
                Slot::Bounded(b) => b < ids.len() && pos[b as int] == q,
                Slot::Fetched(j) => j < k && out[q].1 == fetched[j as int].1,
            } by {
                if q < p {
                    assert(out[q] == cur[q]);
                    match cur[q].0 {
                        Slot::Bounded(b) => {},
                        Slot::Fetched(j) => {},
                    }
                } else if q == p {
                } else {
                    assert(out[q] == cur[q - 1]);
                    match cur[q - 1].0 {
                        Slot::Bounded(b) => {},
                        Slot::Fetched(j) => {},
                    }
                }
            }
            pos
        }
    }
}

/// Merging never loses or reorders the bounded points: each of them stands
/// in the merged track exactly once, in their order, with its id; every
/// other slot is a fetched neighbour with that neighbour's id; and the
/// track grows by the number of neighbours kept, at most all of them.
pub proof fn merge_keeps_bounded_points(ids: Seq<i64>, fetched: Seq<(usize, i64)>)
    requires
        ids.len() <= usize::MAX,
        fetched.len() <= usize::MAX,
        forall|j: int| 0 <= j < fetched.len() ==> (#[trigger] fetched[j]).0 <= ids.len(),
    ensures
        ({
            let (out, placed) = merge_spec(ids, fetched, fetched.len());
            &&& out.len() == ids.len() + placed
            &&& 0 <= placed <= fetched.len()
            &&& exists|pos: Seq<int>| {
                &&& pos.len() == ids.len()
                &&& forall|b: int| 0 <= b < ids.len() ==> 0 <= #[trigger] pos[b] < out.len()
                &&& forall|b: int| 0 <= b < ids.len() ==> out[#[trigger] pos[b]] == (Slot::Bounded(b as usize), ids[b])
                &&& forall|a: int, b: int| 0 <= a < b < ids.len() ==> #[trigger] pos[a] < #[trigger] pos[b]
            }
            &&& forall|q: int| 0 <= q < out.len() ==> match (#[trigger] out[q]).0 {
                Slot::Bounded(b) => b < ids.len() && out[q].1 == ids[b as int],
                Slot::Fetched(j) => j < fetched.len() && out[q].1 == fetched[j as int].1,
            }
        }),
{
    lemma_merge_len(ids, fetched, fetched.len());
    let pos = lemma_merge_positions(ids, fetched, fetched.len());
    let out = merge_spec(ids, fetched, fetched.len()).0;
    assert forall|q: int| 0 <= q < out.len() implies match (#[trigger] out[q]).0 {
        Slot::Bounded(b) => b < ids.len() && out[q].1 == ids[b as int],
        Slot::Fetched(j) => j < fetched.len() && out[q].1 == fetched[j as int].1,
    } by {
        match out[q].0 {
            Slot::Bounded(b) => {
                assert(out[pos[b as int]] == (Slot::Bounded(b), ids[b as int]));
            },
            Slot::Fetched(j) => {},
        }
    }
}

} // verus!
