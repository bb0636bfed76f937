//! The messages shown after acting on the user's points and places.

use vstd::prelude::*;

use crate::text::{decimal, push_u64};

verus! {

#[derive(Debug, Clone, Copy, PartialEq, Eq, Structural)]
pub enum PopUpKind {
    Success,
    Error,
}

/// What the popup reports on.
#[derive(Debug, Clone, Copy, PartialEq, Eq, Structural)]
pub enum PopUpCode {
    DeletePoints,
    CopyPoints,
    Other,
}

/// A message for the user.
pub struct PopUp {
    pub kind: PopUpKind,
    pub msg: String,
    pub code: PopUpCode,
}

/// The plural ending for a count.
pub open spec fn plural_s(n: nat) -> Seq<char> {
    if n == 1 { Seq::empty() } else { "s"@ }
}

fn push_plural_s(s: &mut String, n: usize)
    ensures
        final(s)@ == old(s)@ + plural_s(n as nat),
{
    if n != 1 {
        s.append("s");
    } else {
        assert(s@ =~= old(s)@ + Seq::<char>::empty());
    }
}

/// The result of deleting the selected points.
pub fn delete_result_popup(n_to_delete: usize, n_deleted: usize) -> (p: PopUp)
    ensures
        p.code == PopUpCode::DeletePoints,
        n_deleted == n_to_delete ==> p.kind == PopUpKind::Success && p.msg@ == "Deleted "@ + decimal(
            n_deleted as nat,
        ) + " point"@ + plural_s(n_deleted as nat),
        n_deleted != n_to_delete && n_deleted > 0 ==> p.kind == PopUpKind::Error && p.msg@
            == "Failed to delete some points. Deleted "@ + decimal(n_deleted as nat) + " of "@
            + decimal(n_to_delete as nat) + "."@,
        n_deleted != n_to_delete && n_deleted == 0 ==> p.kind == PopUpKind::Error && p.msg@
            == "Failed to delete points."@,
{
    let code = PopUpCode::DeletePoints;
    let mut msg = String::new();
    if n_deleted == n_to_delete {
        msg.append("Deleted ");
        push_u64(&mut msg, n_deleted as u64);
        msg.append(" point");
        push_plural_s(&mut msg, n_deleted);
        PopUp { kind: PopUpKind::Success, msg, code }
    } else if n_deleted > 0 {
        msg.append("Failed to delete some points. Deleted ");
        push_u64(&mut msg, n_deleted as u64);
        msg.append(" of ");
        push_u64(&mut msg, n_to_delete as u64);
        msg.append(".");
        PopUp { kind: PopUpKind::Error, msg, code }
    } else {
        PopUp { kind: PopUpKind::Error, msg: String::from_str("Failed to delete points."), code }
    }
}

/// The note on points that were already in the destination database.
pub open spec fn ignored_note(n_ignored: nat) -> Seq<char> {
    if n_ignored > 0 {
        " Ignored "@ + decimal(n_ignored) + " point"@ + plural_s(n_ignored) + " already in database."@
    } else {
        Seq::empty()
    }
}

/// The result of copying the selected points to another database:
/// `n_selected` points were selected, of which `n_to_copy` were not already
/// in the destination, and `n_copied` were copied.
pub fn copy_result_popup(n_to_copy: usize, n_copied: usize, n_selected: usize) -> (p: PopUp)
    requires
        n_to_copy <= n_selected,
    ensures
        p.code == PopUpCode::CopyPoints,
        ({
            let note = ignored_note((n_selected - n_to_copy) as nat);
            &&& n_copied == n_to_copy ==> p.kind == PopUpKind::Success && p.msg@ == "Copied "@ + decimal(
                n_copied as nat,
            ) + " point"@ + plural_s(n_copied as nat) + "."@ + note
            &&& n_copied != n_to_copy && n_copied > 0 ==> p.kind == PopUpKind::Error && p.msg@
                == "Failed to copy some points. Copied "@ + decimal(n_copied as nat) + " of "@ + decimal(
                n_to_copy as nat,
            ) + "."@ + note
            &&& n_copied != n_to_copy && n_copied == 0 ==> p.kind == PopUpKind::Error && p.msg@
                == "Failed to copy "@ + decimal(n_to_copy as nat) + " point"@ + plural_s(n_to_copy as nat)
                + "."@ + note
        }),
{
    let n_ignored = n_selected - n_to_copy;
    let mut note = String::new();
    if n_ignored > 0 {
        note.append(" Ignored ");
        push_u64(&mut note, n_ignored as u64);
        note.append(" point");
        push_plural_s(&mut note, n_ignored);
        note.append(" already in database.");
    }
    let code = PopUpCode::CopyPoints;
    let mut msg = String::new();
    if n_copied == n_to_copy {
        msg.append("Copied ");
        push_u64(&mut msg, n_copied as u64);
        msg.append(" point");
        push_plural_s(&mut msg, n_copied);
        msg.append(".");
        msg.append(note.as_str());
        PopUp { kind: PopUpKind::Success, msg, code }
    } else if n_copied > 0 {
        msg.append("Failed to copy some points. Copied ");
        push_u64(&mut msg, n_copied as u64);
        msg.append(" of ");
        push_u64(&mut msg, n_to_copy as u64);
        msg.append(".");
        msg.append(note.as_str());
        PopUp { kind: PopUpKind::Error, msg, code }
    } else {
        msg.append("Failed to copy ");
        push_u64(&mut msg, n_to_copy as u64);
        msg.append(" point");
        push_plural_s(&mut msg, n_to_copy);
        msg.append(".");
        msg.append(note.as_str());
        PopUp { kind: PopUpKind::Error, msg, code }
    }
}

/// The result of importing places: `n_saved` of `n_features` were saved.
pub fn import_result_popup(n_features: usize, n_saved: usize) -> (p: PopUp)
    ensures
        p.code == PopUpCode::Other,
        n_saved == n_features ==> p.kind == PopUpKind::Success && p.msg@ == "Saved "@ + decimal(
            n_saved as nat,
        ) + " place"@ + plural_s(n_saved as nat),
        n_saved != n_features && n_saved > 0 ==> p.kind == PopUpKind::Error && p.msg@
            == "Failed to save some places. Saved "@ + decimal(n_saved as nat) + " of "@ + decimal(
            n_features as nat,
        ) + "."@,
        n_saved != n_features && n_saved == 0 ==> p.kind == PopUpKind::Error && p.msg@
            == "Failed to save places."@,
{
    let code = PopUpCode::Other;
    let mut msg = String::new();
    if n_saved == n_features {
        msg.append("Saved ");
        push_u64(&mut msg, n_saved as u64);
        msg.append(" place");
        push_plural_s(&mut msg, n_saved);
        PopUp { kind: PopUpKind::Success, msg, code }
    } else if n_saved > 0 {
        msg.append("Failed to save some places. Saved ");
        push_u64(&mut msg, n_saved as u64);
        msg.append(" of ");
        push_u64(&mut msg, n_features as u64);
        msg.append(".");
        PopUp { kind: PopUpKind::Error, msg, code }
    } else {
        PopUp { kind: PopUpKind::Error, msg: String::from_str("Failed to save places."), code }
    }
}

} // verus!
