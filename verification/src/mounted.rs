//! Databases mounted beside the main one: their ids, the directories they
//! live in, and their names in messages.

use vstd::prelude::*;

use crate::number::{parse_u32, parse_u32_spec};
use crate::text::{decimal, push_u64};

verus! {

/// Id of a mounted database; the main database has id 0.
pub type MountID = u32;

pub const MAIN_DB_MOUNT_ID: MountID = 0;

/// The id a mount directory is named by, if its name is one.
pub fn parse_mount_id(dir_name: &str) -> (id: Option<MountID>)
    ensures
        id == parse_u32_spec(dir_name@),
{
    parse_u32(dir_name)
}

/// The mount directories on disk, by name: the ids of those named by an
/// id, in order, and the positions of the others (which are removed).
pub fn sort_mount_dirs(dir_names: &Vec<String>) -> (r: (Vec<MountID>, Vec<usize>))
    ensures
        r.0@ == dir_names@.filter(|n: String| parse_u32_spec(n@) is Some).map_values(
            |n: String| parse_u32_spec(n@).unwrap(),
        ),
        forall|k: int| 0 <= k < r.1.len() ==> 0 <= #[trigger] r.1@[k] < dir_names.len()
            && parse_u32_spec(dir_names@[r.1@[k] as int]@) is None,
        forall|i: int| 0 <= i < dir_names.len() && parse_u32_spec(#[trigger] dir_names@[i]@) is None
            ==> r.1@.contains(i as usize),
        forall|k: int, l: int| 0 <= k < l < r.1.len() ==> r.1@[k] < r.1@[l],
{
    let ghost pred = |n: String| parse_u32_spec(n@) is Some;
    let ghost f = |n: String| parse_u32_spec(n@).unwrap();
    let mut ids: Vec<MountID> = Vec::new();
    let mut unknown: Vec<usize> = Vec::new();
    let mut i: usize = 0;
    while i < dir_names.len()
        invariant
            i <= dir_names.len(),
            pred == (|n: String| parse_u32_spec(n@) is Some),
            f == (|n: String| parse_u32_spec(n@).unwrap()),
            ids@ == dir_names@.take(i as int).filter(pred).map_values(f),
            forall|k: int| 0 <= k < unknown.len() ==> 0 <= #[trigger] unknown@[k] < i
                && parse_u32_spec(dir_names@[unknown@[k] as int]@) is None,
            forall|j: int| 0 <= j < i && parse_u32_spec(#[trigger] dir_names@[j]@) is None
                ==> unknown@.contains(j as usize),
            forall|k: int, l: int| 0 <= k < l < unknown.len() ==> unknown@[k] < unknown@[l],
        decreases dir_names.len() - i,
    {
        let ghost prev = dir_names@.take(i as int);
        let ghost next = dir_names@.take(i + 1);
        proof {
            assert(next.drop_last() =~= prev);
            assert(next.last() == dir_names@[i as int]);
            reveal_with_fuel(Seq::<String>::filter, 1);
            assert(next.filter(pred) == if pred(next.last()) {
                prev.filter(pred).push(next.last())
            } else {
                prev.filter(pred)
            });
            assert(prev.filter(pred).push(dir_names@[i as int]).map_values(f) =~= prev.filter(pred).map_values(f).push(f(dir_names@[i as int])));
        }
        match parse_mount_id(dir_names[i].as_str()) {
            Some(id) => {
                assert(parse_u32_spec(dir_names@[i as int]@) == Some(id));
                assert(pred(dir_names@[i as int]));
                assert(f(dir_names@[i as int]) == id);
                ids.push(id);
                assert(ids@ =~= dir_names@.take(i + 1).filter(pred).map_values(f));
            },
            None => {
                assert(!pred(dir_names@[i as int]));
                let ghost old_unknown = unknown@;
                unknown.push(i);
                assert(ids@ =~= dir_names@.take(i + 1).filter(pred).map_values(f));
                assert forall|j: int| 0 <= j < i + 1 && parse_u32_spec(#[trigger] dir_names@[j]@) is None
                    implies unknown@.contains(j as usize) by {
                    if j < i {
                        let k = choose|k: int| 0 <= k < old_unknown.len() && old_unknown[k] == j as usize;
                        assert(unknown@[k] == j as usize);
                    } else {
                        assert(unknown@[old_unknown.len() as int] == i);
                    }
                }
            },
        }
        i = i + 1;
    }
    assert(dir_names@.take(i as int) =~= dir_names@);
    (ids, unknown)
}

/// The largest of the ids and the main database's id.
pub open spec fn max_id(ids: Seq<MountID>) -> MountID
    decreases ids.len(),
{
    if ids.len() == 0 {
        MAIN_DB_MOUNT_ID
    } else {
        let m = max_id(ids.drop_last());
        if ids.last() > m { ids.last() } else { m }
    }
}

proof fn lemma_max_id_bounds(ids: Seq<MountID>)
    ensures
        forall|i: int| 0 <= i < ids.len() ==> ids[i] <= max_id(ids),
        max_id(ids) == MAIN_DB_MOUNT_ID || ids.contains(max_id(ids)),
    decreases ids.len(),
{
    if ids.len() > 0 {
        lemma_max_id_bounds(ids.drop_last());
        assert forall|i: int| 0 <= i < ids.len() implies ids[i] <= max_id(ids) by {
            if i < ids.len() - 1 {
                assert(ids[i] == ids.drop_last()[i]);
            }
        }
        if max_id(ids) != MAIN_DB_MOUNT_ID {
            if ids.last() > max_id(ids.drop_last()) {
                assert(ids[ids.len() - 1] == ids.last());
            } else {
                let k = choose|k: int| 0 <= k < ids.drop_last().len() && ids.drop_last()[k] == max_id(ids.drop_last());
                assert(ids[k] == ids.drop_last()[k]);
            }
        }
    }
}

/// The id of a new mount: one more than the largest id on disk (or than the
/// main database's), so ids order mounts by the time they were mounted.
pub fn next_mount_id(ids: &Vec<MountID>) -> (id: MountID)
    requires
        max_id(ids@) < MountID::MAX,
    ensures
        id == max_id(ids@) + 1,
        forall|i: int| 0 <= i < ids.len() ==> ids@[i] < id,
{
    let mut m: MountID = MAIN_DB_MOUNT_ID;
    let mut i: usize = 0;
    while i < ids.len()
        invariant
            i <= ids.len(),
            m == max_id(ids@.take(i as int)),
        decreases ids.len() - i,
    {
        assert(ids@.take(i + 1).drop_last() =~= ids@.take(i as int));
        if ids[i] > m {
            m = ids[i];
        }
        i = i + 1;
    }
    assert(ids@.take(i as int) =~= ids@);
    proof { lemma_max_id_bounds(ids@); }
    m + 1
}

/// The mounts to keep open: the main database and those still on disk.
pub fn keep_mount(id: MountID, on_disk: &Vec<MountID>) -> (keep: bool)
    ensures
        keep == (id == MAIN_DB_MOUNT_ID || on_disk@.contains(id)),
{
    if id == MAIN_DB_MOUNT_ID {
        return true;
    }
    let mut i: usize = 0;
    while i < on_disk.len()
        invariant
            i <= on_disk.len(),
            forall|j: int| 0 <= j < i ==> on_disk@[j] != id,
        decreases on_disk.len() - i,
    {
        if on_disk[i] == id {
            return true;
        }
        i = i + 1;
    }
    false
}

/// A database's name in messages: "name (id)" when the user named it,
/// else the id.
pub fn db_debug_name(id: MountID, name: Option<&str>) -> (s: String)
    ensures
        s@ == match name {
            Some(n) => n@ + " ("@ + decimal(id as nat) + ")"@,
            None => decimal(id as nat),
        },
{
    let mut s = String::new();
    match name {
        Some(n) => {
            s.append(n);
            s.append(" (");
            push_u64(&mut s, id as u64);
            s.append(")");
        },
        None => {
            push_u64(&mut s, id as u64);
        },
    }
    s
}

} // verus!
