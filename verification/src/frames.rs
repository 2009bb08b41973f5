//! Which notes a group's frame is drawn around, and which ones have to find a
//! place in it. Where things lie on the canvas is measured outside.
use vstd::prelude::*;

use crate::identity::contains_id;
use crate::lists::filter_ends;
use crate::lists::filter_step;
use crate::lists::views;
use crate::lists::views_push;
use crate::model::Note;
use crate::model::NoteView;

verus! {

/// Whether a note belongs to a group and is not left out.
pub open spec fn is_member(n: NoteView, group: u64, excluded: Seq<u64>) -> bool {
    n.group_id == Some(group) && !excluded.contains(n.id)
}

/// The notes of a group that are not left out, in order.
pub fn group_members(notes: &Vec<Note>, group: u64, excluded: &Vec<u64>) -> (r: Vec<Note>)
    ensures
        views(r@) == views(notes@).filter(|n: NoteView| is_member(n, group, excluded@)),
{
    broadcast use views_push;

    let ghost all = views(notes@);
    let ghost pred = |n: NoteView| is_member(n, group, excluded@);
    let mut out: Vec<Note> = Vec::new();
    proof {
        filter_ends(all, pred);
    }
    assert(views(out@) =~= all.take(0).filter(pred));
    let mut i: usize = 0;
    while i < notes.len()
        invariant
            all == views(notes@),
            pred == (|n: NoteView| is_member(n, group, excluded@)),
            i <= notes@.len(),
            views(out@) == all.take(i as int).filter(pred),
        decreases notes@.len() - i,
    {
        proof {
            filter_step(all, pred, i as int);
        }
        let inside = match notes[i].group_id {
            Some(id) => id == group,
            None => false,
        };
        if inside && !contains_id(excluded, notes[i].id) {
            out.push(notes[i].clone());
        }
        i = i + 1;
    }
    out
}

/// Whether a note that is being moved comes into a group from outside.
pub open spec fn is_newcomer(n: NoteView, group: u64, moving: Seq<u64>) -> bool {
    moving.contains(n.id) && n.group_id != Some(group)
}

/// The notes that come into a group from outside, in the order of the board.
pub fn newcomers(notes: &Vec<Note>, group: u64, moving: &Vec<u64>) -> (r: Vec<Note>)
    ensures
        views(r@) == views(notes@).filter(|n: NoteView| is_newcomer(n, group, moving@)),
{
    broadcast use views_push;

    let ghost all = views(notes@);
    let ghost pred = |n: NoteView| is_newcomer(n, group, moving@);
    let mut out: Vec<Note> = Vec::new();
    proof {
        filter_ends(all, pred);
    }
    assert(views(out@) =~= all.take(0).filter(pred));
    let mut i: usize = 0;
    while i < notes.len()
        invariant
            all == views(notes@),
            pred == (|n: NoteView| is_newcomer(n, group, moving@)),
            i <= notes@.len(),
            views(out@) == all.take(i as int).filter(pred),
        decreases notes@.len() - i,
    {
        proof {
            filter_step(all, pred, i as int);
        }
        let inside = match notes[i].group_id {
            Some(id) => id == group,
            None => false,
        };
        if !inside && contains_id(moving, notes[i].id) {
            out.push(notes[i].clone());
        }
        i = i + 1;
    }
    out
}

/// Whether a group keeps its frame while notes are being moved: one of them
/// was in it when the move began.
pub open spec fn keeps_frame(notes: Seq<NoteView>, group: u64, moving: Seq<u64>) -> bool {
    exists|i: int|
        0 <= i < notes.len() && (#[trigger] notes[i]).group_id == Some(group) && moving.contains(
            notes[i].id,
        )
}

/// Whether a group keeps its frame while notes are being moved. The notes are
/// those at the beginning of the move.
pub fn frame_is_frozen(notes: &Vec<Note>, group: u64, moving: &Vec<u64>) -> (r: bool)
    ensures
        r == keeps_frame(views(notes@), group, moving@),
{
    let ghost all = views(notes@);
    let mut i: usize = 0;
    while i < notes.len()
        invariant
            i <= notes@.len(),
            all == views(notes@),
            forall|j: int|
                0 <= j < i ==> !((#[trigger] all[j]).group_id == Some(group) && moving@.contains(
                    all[j].id,
                )),
        decreases notes@.len() - i,
    {
        let inside = match notes[i].group_id {
            Some(id) => id == group,
            None => false,
        };
        if inside && contains_id(moving, notes[i].id) {
            assert(all[i as int].group_id == Some(group));
            return true;
        }
        i = i + 1;
    }
    false
}

/// A note that is being moved either was in the group or is new to it, never
/// both.
pub proof fn newcomers_are_no_members(n: NoteView, group: u64, moving: Seq<u64>)
    ensures
        !(is_newcomer(n, group, moving) && is_member(n, group, Seq::empty())),
        moving.contains(n.id) ==> (is_newcomer(n, group, moving) || is_member(
            n,
            group,
            Seq::empty(),
        )),
{
}

/// Where a field of a frame lies: its column and its row.
pub fn slot_of(index: usize, columns: usize) -> (r: (usize, usize))
    requires
        columns > 0,
    ensures
        r.0 == index as int % columns as int,
        r.1 == index as int / columns as int,
        r.0 < columns,
{
    (index % columns, index / columns)
}

/// The members of a group are its notes, save those that are left out.
pub proof fn members_are_the_notes_of_the_group(
    notes: Seq<NoteView>,
    group: u64,
    excluded: Seq<u64>,
    n: NoteView,
)
    ensures
        notes.filter(|x: NoteView| is_member(x, group, excluded)).contains(n) == (notes.contains(n)
            && n.group_id == Some(group) && !excluded.contains(n.id)),
        notes.filter(|x: NoteView| is_newcomer(x, group, excluded)).contains(n) == (notes.contains(
            n,
        ) && n.group_id != Some(group) && excluded.contains(n.id)),
{
    let member = |x: NoteView| is_member(x, group, excluded);
    let newcomer = |x: NoteView| is_newcomer(x, group, excluded);
    if notes.filter(member).contains(n) {
        crate::lists::filter_member(notes, member, notes.filter(member).index_of(n));
    }
    if notes.filter(newcomer).contains(n) {
        crate::lists::filter_member(notes, newcomer, notes.filter(newcomer).index_of(n));
    }
    if notes.contains(n) && member(n) {
        crate::lists::filter_keeps(notes, member, notes.index_of(n));
    }
    if notes.contains(n) && newcomer(n) {
        crate::lists::filter_keeps(notes, newcomer, notes.index_of(n));
    }
}

/// The frame of a group stays while one of its own notes is moved, and only
/// then.
pub proof fn frames_stay_while_members_move(
    notes: Seq<NoteView>,
    group: u64,
    moving: Seq<u64>,
    k: int,
)
    ensures
        0 <= k < notes.len() && notes[k].group_id == Some(group) && moving.contains(notes[k].id)
            ==> keeps_frame(notes, group, moving),
        (forall|i: int|
            0 <= i < notes.len() && (#[trigger] notes[i]).group_id == Some(group)
                ==> !moving.contains(notes[i].id)) ==> !keeps_frame(notes, group, moving),
        moving.len() == 0 ==> !keeps_frame(notes, group, moving),
{
}

} // verus!
