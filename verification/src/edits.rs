//! What a user can do to the board on the desk.
//!
//! Positions are computed by the caller from the canvas; which notes and
//! groups they reach, and what can be undone, is decided here.
use vstd::prelude::*;
use vstd::string::*;

use crate::desk::all_committed;
use crate::desk::board_changed;
use crate::desk::committed;
use crate::desk::find_group;
use crate::desk::find_note;
use crate::desk::group_committed;
use crate::desk::keep_used_groups;
use crate::desk::note_index;
use crate::desk::notes_changed;
use crate::desk::recorded;
use crate::desk::set_group;
use crate::desk::set_note;
use crate::desk::snapshot_of;
use crate::desk::undone;
use crate::desk::used_groups;
use crate::desk::with_group;
use crate::desk::with_note;
use crate::desk::Desk;
use crate::desk::DeskView;
use crate::desk::Placement;
use crate::desk::Snapshot;
use crate::desk::SnapshotView;
use crate::identity::contains_id;
use crate::lists::filter_ends;
use crate::lists::filter_step;
use crate::lists::opt_view;
use crate::lists::views;
use crate::lists::views_push;
use crate::model::BoardData;
use crate::model::Coordinate;
use crate::model::Group;
use crate::model::GroupView;
use crate::model::Note;
use crate::model::NoteColor;
use crate::model::NoteStatus;
use crate::model::NoteView;
use crate::persist::has_group;

verus! {

/// The colour that a new note gets from its id.
pub open spec fn color_for(id: u64) -> NoteColor {
    if id % 5 == 0 {
        NoteColor::Yellow
    } else if id % 5 == 1 {
        NoteColor::Pink
    } else if id % 5 == 2 {
        NoteColor::Blue
    } else if id % 5 == 3 {
        NoteColor::Green
    } else {
        NoteColor::Lavender
    }
}

/// The tilt that a new note gets from its id.
pub open spec fn rotation_for(id: u64) -> i32 {
    if id % 5 == 0 || id % 5 == 3 {
        (-2) as i32
    } else if id % 5 == 1 || id % 5 == 4 {
        2
    } else {
        1
    }
}

/// A note without text.
pub open spec fn new_note(
    id: u64,
    stable_id: Seq<char>,
    x: Coordinate,
    y: Coordinate,
    now: u64,
) -> NoteView {
    NoteView {
        id,
        stable_id,
        text: Seq::empty(),
        color: color_for(id),
        status: NoteStatus::Todo,
        due_date: None,
        x,
        y,
        rotation: rotation_for(id),
        group_id: None,
        group_stable_id: None,
        created_at: now,
        updated_at: now,
        deleted_at: None,
    }
}

/// A group without a frame.
pub open spec fn new_group(id: u64, stable_id: Seq<char>, now: u64) -> GroupView {
    GroupView {
        id,
        stable_id,
        label: "new group"@,
        origin: None,
        size: None,
        created_at: now,
        updated_at: now,
        deleted_at: None,
    }
}

/// The desk with a new note on it that is being edited.
pub open spec fn with_new_note(
    d: DeskView,
    id: u64,
    stable_id: Seq<char>,
    x: Coordinate,
    y: Coordinate,
    now: u64,
) -> DeskView {
    let c = committed(d);
    let n = notes_changed(c, c.notes.push(new_note(id, stable_id, x, y, now)));
    DeskView {
        edit_snapshot: Some(SnapshotView { id, board: snapshot_of(n) }),
        editing: Some(id),
        ..n
    }
}

/// The desk with one note changed.
pub open spec fn with_changed_note(
    d: DeskView,
    id: u64,
    change: spec_fn(NoteView) -> NoteView,
) -> DeskView {
    let c = committed(d);
    notes_changed(c, with_note(c.notes, id, change))
}

/// The desk without the notes of the given id, and without the groups that
/// this leaves empty.
pub open spec fn without_note(d: DeskView, id: u64) -> DeskView {
    let c = committed(d);
    let notes = c.notes.filter(|n: NoteView| n.id != id);
    board_changed(c, notes, used_groups(c.groups, notes))
}

/// The first position that a list gives to an id.
pub open spec fn placement_of(list: Seq<Placement>, id: u64) -> Option<Placement>
    decreases list.len(),
{
    if list.len() == 0 {
        None
    } else if list[0].id == id {
        Some(list[0])
    } else {
        placement_of(list.skip(1), id)
    }
}

/// A note at the position that a list gives to it, if it gives one.
pub open spec fn placed(n: NoteView, list: Seq<Placement>) -> NoteView {
    match placement_of(list, n.id) {
        Some(p) => NoteView { x: p.x, y: p.y, ..n },
        None => n,
    }
}

/// The desk with the selected notes in a new group whose label is being
/// edited. Fewer than two selected notes make no group.
pub open spec fn with_new_group(
    d: DeskView,
    id: u64,
    stable_id: Seq<char>,
    origin: Option<(Coordinate, Coordinate)>,
    now: u64,
) -> DeskView {
    if d.selection.len() < 2 {
        d
    } else {
        let c = all_committed(d);
        let notes = c.notes.map_values(
            |n: NoteView|
                if d.selection.contains(n.id) {
                    NoteView { group_id: Some(id), group_stable_id: Some(stable_id), ..n }
                } else {
                    n
                },
        );
        let groups = with_group(
            c.groups.push(new_group(id, stable_id, now)),
            id,
            |g: GroupView| GroupView { origin, ..g },
        );
        let r = board_changed(c, notes, groups);
        DeskView {
            group_edit_snapshot: Some(SnapshotView { id, board: snapshot_of(r) }),
            group_editing: Some(id),
            ..r
        }
    }
}

/// The desk with the selected notes out of their groups.
pub open spec fn with_ungrouped_selection(d: DeskView) -> DeskView {
    if d.selection.len() == 0 {
        d
    } else {
        let c = all_committed(d);
        let notes = c.notes.map_values(
            |n: NoteView|
                if d.selection.contains(n.id) {
                    NoteView { group_id: None, ..n }
                } else {
                    n
                },
        );
        board_changed(c, notes, used_groups(c.groups, notes))
    }
}

/// A note that is moved into a group, or out of all groups.
pub open spec fn regrouped(
    n: NoteView,
    moved: Seq<u64>,
    group: Option<u64>,
    list: Seq<Placement>,
) -> NoteView {
    if moved.contains(n.id) {
        placed(NoteView { group_id: group, ..n }, list)
    } else {
        n
    }
}

/// The notes of a board with some of them moved into a group.
pub open spec fn regrouped_notes(
    notes: Seq<NoteView>,
    moved: Seq<u64>,
    group: Option<u64>,
    list: Seq<Placement>,
) -> Seq<NoteView> {
    notes.map_values(|n: NoteView| regrouped(n, moved, group, list))
}

/// The desk with the selected notes in a group that is there.
pub open spec fn with_selection_in_group(
    d: DeskView,
    group: u64,
    list: Seq<Placement>,
) -> DeskView {
    if d.selection.len() == 0 || !has_group(d.groups, group) {
        d
    } else {
        let c = all_committed(d);
        let notes = regrouped_notes(c.notes, d.selection, Some(group), list);
        board_changed(c, notes, used_groups(c.groups, notes))
    }
}

/// The desk without the selected notes.
pub open spec fn without_selection(d: DeskView) -> DeskView {
    if d.selection.len() == 0 {
        d
    } else {
        let c = all_committed(d);
        let notes = c.notes.filter(|n: NoteView| !d.selection.contains(n.id));
        board_changed(
            DeskView { selection: Seq::empty(), ..c },
            notes,
            used_groups(c.groups, notes),
        )
    }
}

/// The desk without a group; its notes stay.
pub open spec fn without_group(d: DeskView, id: u64) -> DeskView {
    let c = group_committed(d);
    let notes = c.notes.map_values(
        |n: NoteView|
            if n.group_id == Some(id) {
                NoteView { group_id: None, ..n }
            } else {
                n
            },
    );
    board_changed(c, notes, c.groups.filter(|g: GroupView| g.id != id))
}

/// The desk with a note selected and being edited.
pub open spec fn with_edited_note(d: DeskView, id: u64) -> DeskView {
    let s = DeskView { selection: seq![id], ..d };
    if d.editing != Some(id) {
        let c = committed(s);
        DeskView {
            edit_snapshot: Some(SnapshotView { id, board: snapshot_of(c) }),
            editing: Some(id),
            ..c
        }
    } else {
        s
    }
}

/// The desk with a group's label being edited.
pub open spec fn with_edited_group(d: DeskView, id: u64) -> DeskView {
    let c = group_committed(d);
    DeskView {
        group_edit_snapshot: Some(SnapshotView { id, board: snapshot_of(c) }),
        group_editing: Some(id),
        ..c
    }
}

/// A selection with an id taken out where it was in, and put in otherwise.
pub open spec fn toggled(selection: Seq<u64>, id: u64) -> Seq<u64> {
    if selection.contains(id) {
        selection.remove(selection.index_of_first(id)->0)
    } else {
        selection.push(id)
    }
}

/// Where a click on a note landed.
#[derive(Clone, Copy, Debug, PartialEq, Eq, Structural)]
pub enum ClickTarget {
    /// Nowhere that is known.
    Unknown,
    /// On the drag handle or on a button of the note.
    Control,
    /// On the note itself.
    Card,
}

/// The desk after a click on a note. A click that ends a drag, or that lands
/// on a control, changes nothing.
pub open spec fn clicked(
    d: DeskView,
    id: u64,
    after_drag: bool,
    target: ClickTarget,
    modified: bool,
) -> DeskView {
    if after_drag || target == ClickTarget::Control {
        d
    } else if target == ClickTarget::Unknown {
        DeskView { editing: Some(id), ..d }
    } else if modified {
        DeskView { selection: toggled(d.selection, id), editing: None, ..d }
    } else {
        with_edited_note(d, id)
    }
}

/// The notes that a drag of one note moves: the whole selection where the note
/// belongs to it, and the note alone otherwise.
pub open spec fn dragged_with(selection: Seq<u64>, id: u64) -> Seq<u64> {
    if selection.contains(id) {
        selection
    } else {
        seq![id]
    }
}

fn copy_ids(ids: &Vec<u64>) -> (r: Vec<u64>)
    ensures
        r@ == ids@,
{
    let mut out: Vec<u64> = Vec::new();
    let mut i: usize = 0;
    while i < ids.len()
        invariant
            i <= ids@.len(),
            out@ == ids@.take(i as int),
        decreases ids@.len() - i,
    {
        out.push(ids[i]);
        i = i + 1;
    }
    assert(ids@.take(i as int) =~= ids@);
    out
}

fn one_id(id: u64) -> (r: Vec<u64>)
    ensures
        r@ == seq![id],
{
    let mut out: Vec<u64> = Vec::new();
    out.push(id);
    assert(out@ =~= seq![id]);
    out
}

/// The first position that a list gives to an id.
pub fn find_placement(list: &Vec<Placement>, id: u64) -> (r: Option<Placement>)
    ensures
        r == placement_of(list@, id),
{
    let mut i: usize = 0;
    assert(list@.skip(0) =~= list@);
    while i < list.len()
        invariant
            i <= list@.len(),
            placement_of(list@, id) == placement_of(list@.skip(i as int), id),
        decreases list@.len() - i,
    {
        assert(list@.skip(i as int).skip(1) =~= list@.skip(i + 1));
        if list[i].id == id {
            return Some(list[i]);
        }
        i = i + 1;
    }
    None
}

fn notes_without(notes: &Vec<Note>, ids: &Vec<u64>) -> (r: Vec<Note>)
    ensures
        views(r@) == views(notes@).filter(|n: NoteView| !ids@.contains(n.id)),
{
    broadcast use views_push;

    let ghost list = views(notes@);
    let ghost pred = |n: NoteView| !ids@.contains(n.id);
    let mut out: Vec<Note> = Vec::new();
    proof {
        filter_ends(list, pred);
    }
    assert(views(out@) =~= list.take(0).filter(pred));
    let mut i: usize = 0;
    while i < notes.len()
        invariant
            list == views(notes@),
            pred == (|n: NoteView| !ids@.contains(n.id)),
            i <= notes@.len(),
            views(out@) == list.take(i as int).filter(pred),
        decreases notes@.len() - i,
    {
        proof {
            filter_step(list, pred, i as int);
        }
        if !contains_id(ids, notes[i].id) {
            out.push(notes[i].clone());
        }
        i = i + 1;
    }
    out
}

fn notes_without_one(notes: &Vec<Note>, id: u64) -> (r: Vec<Note>)
    ensures
        views(r@) == views(notes@).filter(|n: NoteView| n.id != id),
{
    broadcast use views_push;

    let ghost list = views(notes@);
    let ghost pred = |n: NoteView| n.id != id;
    let mut out: Vec<Note> = Vec::new();
    proof {
        filter_ends(list, pred);
    }
    assert(views(out@) =~= list.take(0).filter(pred));
    let mut i: usize = 0;
    while i < notes.len()
        invariant
            list == views(notes@),
            pred == (|n: NoteView| n.id != id),
            i <= notes@.len(),
            views(out@) == list.take(i as int).filter(pred),
        decreases notes@.len() - i,
    {
        proof {
            filter_step(list, pred, i as int);
        }
        if notes[i].id != id {
            out.push(notes[i].clone());
        }
        i = i + 1;
    }
    out
}

fn groups_without_one(groups: &Vec<Group>, id: u64) -> (r: Vec<Group>)
    ensures
        views(r@) == views(groups@).filter(|g: GroupView| g.id != id),
{
    broadcast use views_push;

    let ghost list = views(groups@);
    let ghost pred = |g: GroupView| g.id != id;
    let mut out: Vec<Group> = Vec::new();
    proof {
        filter_ends(list, pred);
    }
    assert(views(out@) =~= list.take(0).filter(pred));
    let mut i: usize = 0;
    while i < groups.len()
        invariant
            list == views(groups@),
            pred == (|g: GroupView| g.id != id),
            i <= groups@.len(),
            views(out@) == list.take(i as int).filter(pred),
        decreases groups@.len() - i,
    {
        proof {
            filter_step(list, pred, i as int);
        }
        if groups[i].id != id {
            out.push(groups[i].clone());
        }
        i = i + 1;
    }
    out
}

fn ids_without(ids: &Vec<u64>, id: u64) -> (r: Vec<u64>)
    ensures
        r@ == ids@.filter(|x: u64| x != id),
{
    let ghost pred = |x: u64| x != id;
    let mut out: Vec<u64> = Vec::new();
    proof {
        filter_ends(ids@, pred);
    }
    let mut i: usize = 0;
    while i < ids.len()
        invariant
            pred == (|x: u64| x != id),
            i <= ids@.len(),
            out@ == ids@.take(i as int).filter(pred),
        decreases ids@.len() - i,
    {
        proof {
            filter_step(ids@, pred, i as int);
        }
        if ids[i] != id {
            out.push(ids[i]);
        }
        i = i + 1;
    }
    out
}

fn regroup_notes(
    notes: &Vec<Note>,
    moved: &Vec<u64>,
    group: Option<u64>,
    list: &Vec<Placement>,
) -> (r: Vec<Note>)
    ensures
        views(r@) == regrouped_notes(views(notes@), moved@, group, list@),
{
    let mut out: Vec<Note> = Vec::new();
    let mut i: usize = 0;
    while i < notes.len()
        invariant
            i <= notes@.len(),
            out@.len() == i,
            forall|j: int|
                0 <= j < i ==> (#[trigger] out@[j])@ == regrouped(
                    notes@[j]@,
                    moved@,
                    group,
                    list@,
                ),
        decreases notes@.len() - i,
    {
        let mut n = notes[i].clone();
        if contains_id(moved, n.id) {
            n.group_id = group;
            if let Some(p) = find_placement(list, n.id) {
                n.x = p.x;
                n.y = p.y;
            }
        }
        out.push(n);
        i = i + 1;
    }
    assert(views(out@) =~= regrouped_notes(views(notes@), moved@, group, list@));
    out
}

impl Desk {
    /// Puts a new note on the board and starts editing it.
    pub fn create_note(
        &mut self,
        id: u64,
        stable_id: String,
        x: Coordinate,
        y: Coordinate,
        now: u64,
    )
        ensures
            final(self)@ == with_new_note(old(self)@, id, stable_id@, x, y, now),
    {
        broadcast use views_push;

        self.commit_pending_edit();
        let before = self.board_snapshot();
        let color = match id % 5 {
            0 => NoteColor::Yellow,
            1 => NoteColor::Pink,
            2 => NoteColor::Blue,
            3 => NoteColor::Green,
            _ => NoteColor::Lavender,
        };
        let rotation: i32 = match id % 5 {
            0 | 3 => -2,
            1 | 4 => 2,
            _ => 1,
        };
        let note = Note {
            id,
            stable_id,
            text: String::new(),
            color,
            status: NoteStatus::Todo,
            due_date: None,
            x,
            y,
            rotation,
            group_id: None,
            group_stable_id: None,
            created_at: now,
            updated_at: now,
            deleted_at: None,
        };
        assert(note@ == new_note(id, stable_id@, x, y, now));
        self.notes.push(note);
        self.record_snapshot(before);
        self.edit_snapshot = Some(Snapshot { id, board: self.board_snapshot() });
        self.editing = Some(id);
    }

    /// Sets the status of a note.
    pub fn cycle_status(&mut self, id: u64, next: NoteStatus)
        ensures
            final(self)@ == with_changed_note(
                old(self)@,
                id,
                |n: NoteView| NoteView { status: next, ..n },
            ),
    {
        self.commit_pending_edit();
        let before = self.board_snapshot();
        let i = find_note(&self.notes, id);
        if i < self.notes.len() {
            let mut note = self.notes[i].clone();
            note.status = next;
            self.notes = set_note(&self.notes, i, note);
        }
        self.record_snapshot(before);
    }

    /// Sets the colour of a note.
    pub fn cycle_color(&mut self, id: u64, next: NoteColor)
        ensures
            final(self)@ == with_changed_note(
                old(self)@,
                id,
                |n: NoteView| NoteView { color: next, ..n },
            ),
    {
        self.commit_pending_edit();
        let before = self.board_snapshot();
        let i = find_note(&self.notes, id);
        if i < self.notes.len() {
            let mut note = self.notes[i].clone();
            note.color = next;
            self.notes = set_note(&self.notes, i, note);
        }
        self.record_snapshot(before);
    }

    /// Sets or clears the due date of a note.
    pub fn set_note_due_date(&mut self, id: u64, due_date: Option<String>)
        ensures
            final(self)@ == with_changed_note(
                old(self)@,
                id,
                |n: NoteView| NoteView { due_date: opt_view(due_date), ..n },
            ),
    {
        self.commit_pending_edit();
        let before = self.board_snapshot();
        let i = find_note(&self.notes, id);
        if i < self.notes.len() {
            let mut note = self.notes[i].clone();
            note.due_date = due_date;
            self.notes = set_note(&self.notes, i, note);
        }
        self.record_snapshot(before);
    }

    /// Clears the due date of a note.
    pub fn clear_due_date(&mut self, id: u64)
        ensures
            final(self)@ == with_changed_note(
                old(self)@,
                id,
                |n: NoteView| NoteView { due_date: None, ..n },
            ),
    {
        let none: Option<String> = None;
        self.set_note_due_date(id, none);
        let ghost change = |n: NoteView| NoteView { due_date: None, ..n };
        assert(change =~= (|n: NoteView| NoteView { due_date: opt_view(none), ..n }));
    }

    /// Changes the text of a note while it is being edited.
    pub fn set_note_text(&mut self, id: u64, text: String)
        ensures
            final(self)@ == (DeskView {
                notes: with_note(
                    old(self)@.notes,
                    id,
                    |n: NoteView| NoteView { text: text@, ..n },
                ),
                ..old(self)@
            }),
    {
        let i = find_note(&self.notes, id);
        if i < self.notes.len() {
            let mut note = self.notes[i].clone();
            note.text = text;
            self.notes = set_note(&self.notes, i, note);
        }
    }

    /// Changes the label of a group while it is being edited.
    pub fn set_group_label(&mut self, id: u64, label: String)
        ensures
            final(self)@ == (DeskView {
                groups: with_group(
                    old(self)@.groups,
                    id,
                    |g: GroupView| GroupView { label: label@, ..g },
                ),
                ..old(self)@
            }),
    {
        let i = find_group(&self.groups, id);
        if i < self.groups.len() {
            let mut group = self.groups[i].clone();
            group.label = label;
            self.groups = set_group(&self.groups, i, group);
        }
    }

    /// Deletes a note from its own card.
    pub fn remove_note(&mut self, id: u64)
        ensures
            final(self)@ == without_note(old(self)@, id),
    {
        self.commit_pending_edit();
        let before = self.board_snapshot();
        self.notes = notes_without_one(&self.notes, id);
        self.groups = keep_used_groups(&self.groups, &self.notes);
        self.record_snapshot(before);
    }

    /// Deletes a note and takes it out of the selection.
    pub fn delete_note(&mut self, id: u64)
        ensures
            final(self)@ == (DeskView {
                selection: old(self)@.selection.filter(|x: u64| x != id),
                ..without_note(old(self)@, id)
            }),
    {
        let selection = ids_without(&self.selection, id);
        self.remove_note(id);
        self.selection = selection;
    }

    /// Puts the selected notes into a new group.
    pub fn create_group(
        &mut self,
        id: u64,
        stable_id: &String,
        origin: Option<(Coordinate, Coordinate)>,
        now: u64,
    )
        ensures
            final(self)@ == with_new_group(old(self)@, id, stable_id@, origin, now),
    {
        broadcast use views_push;

        if self.selection.len() < 2 {
            return;
        }
        let ghost d = self@;
        self.commit_pending_edit();
        self.commit_pending_group_edit();
        let ghost c = self@;
        let before = self.board_snapshot();
        let group = Group {
            id,
            stable_id: stable_id.clone(),
            label: "new group".to_owned(),
            origin: None,
            size: None,
            created_at: now,
            updated_at: now,
            deleted_at: None,
        };
        assert(group@ == new_group(id, stable_id@, now));
        self.groups.push(group);
        let mut notes: Vec<Note> = Vec::new();
        let mut i: usize = 0;
        while i < self.notes.len()
            invariant
                i <= self.notes@.len(),
                notes@.len() == i,
                self.selection@ == d.selection,
                forall|j: int|
                    0 <= j < i ==> (#[trigger] notes@[j])@ == ({
                        let n = self.notes@[j]@;
                        if d.selection.contains(n.id) {
                            NoteView {
                                group_id: Some(id),
                                group_stable_id: Some(stable_id@),
                                ..n
                            }
                        } else {
                            n
                        }
                    }),
            decreases self.notes@.len() - i,
        {
            let mut n = self.notes[i].clone();
            if contains_id(&self.selection, n.id) {
                n.group_id = Some(id);
                n.group_stable_id = Some(stable_id.clone());
            }
            notes.push(n);
            i = i + 1;
        }
        assert(views(notes@) =~= c.notes.map_values(
            |n: NoteView|
                if d.selection.contains(n.id) {
                    NoteView { group_id: Some(id), group_stable_id: Some(stable_id@), ..n }
                } else {
                    n
                },
        ));
        self.notes = notes;
        let k = find_group(&self.groups, id);
        if k < self.groups.len() {
            let mut framed = self.groups[k].clone();
            framed.origin = origin;
            self.groups = set_group(&self.groups, k, framed);
        }
        self.record_snapshot(before);
        self.group_edit_snapshot = Some(Snapshot { id, board: self.board_snapshot() });
        self.group_editing = Some(id);
    }

    /// Takes the selected notes out of their groups.
    pub fn ungroup_selection(&mut self)
        ensures
            final(self)@ == with_ungrouped_selection(old(self)@),
    {
        if self.selection.len() == 0 {
            return;
        }
        let ghost d = self@;
        self.commit_pending_edit();
        self.commit_pending_group_edit();
        let before = self.board_snapshot();
        let mut notes: Vec<Note> = Vec::new();
        let mut i: usize = 0;
        while i < self.notes.len()
            invariant
                i <= self.notes@.len(),
                notes@.len() == i,
                self.selection@ == d.selection,
                forall|j: int|
                    0 <= j < i ==> (#[trigger] notes@[j])@ == ({
                        let n = self.notes@[j]@;
                        if d.selection.contains(n.id) {
                            NoteView { group_id: None, ..n }
                        } else {
                            n
                        }
                    }),
            decreases self.notes@.len() - i,
        {
            let mut n = self.notes[i].clone();
            if contains_id(&self.selection, n.id) {
                n.group_id = None;
            }
            notes.push(n);
            i = i + 1;
        }
        assert(views(notes@) =~= self@.notes.map_values(
            |n: NoteView|
                if d.selection.contains(n.id) {
                    NoteView { group_id: None, ..n }
                } else {
                    n
                },
        ));
        self.notes = notes;
        self.groups = keep_used_groups(&self.groups, &self.notes);
        self.record_snapshot(before);
    }

    /// Puts the selected notes into a group that is there, at the positions
    /// given.
    pub fn add_selection_to_group(&mut self, group_id: u64, positions: &Vec<Placement>)
        ensures
            final(self)@ == with_selection_in_group(old(self)@, group_id, positions@),
    {
        if self.selection.len() == 0 || find_group(&self.groups, group_id) >= self.groups.len() {
            return;
        }
        self.commit_pending_edit();
        self.commit_pending_group_edit();
        let before = self.board_snapshot();
        self.notes = regroup_notes(&self.notes, &self.selection, Some(group_id), positions);
        self.groups = keep_used_groups(&self.groups, &self.notes);
        self.record_snapshot(before);
    }

    /// Deletes the selected notes.
    pub fn delete_selected_notes(&mut self)
        ensures
            final(self)@ == without_selection(old(self)@),
    {
        if self.selection.len() == 0 {
            return;
        }
        self.commit_pending_edit();
        self.commit_pending_group_edit();
        let before = self.board_snapshot();
        self.notes = notes_without(&self.notes, &self.selection);
        self.groups = keep_used_groups(&self.groups, &self.notes);
        self.selection = Vec::new();
        self.record_snapshot(before);
    }

    /// Starts editing the label of a group that is there.
    pub fn rename_group(&mut self, id: u64)
        ensures
            final(self)@ == (if has_group(old(self)@.groups, id) {
                with_edited_group(old(self)@, id)
            } else {
                old(self)@
            }),
    {
        if find_group(&self.groups, id) < self.groups.len() {
            self.commit_pending_group_edit();
            self.group_edit_snapshot = Some(Snapshot { id, board: self.board_snapshot() });
            self.group_editing = Some(id);
        }
    }

    /// Starts editing the label of a group from its frame.
    pub fn start_group_edit(&mut self, id: u64)
        ensures
            final(self)@ == (if old(self)@.group_editing != Some(id) {
                with_edited_group(old(self)@, id)
            } else {
                old(self)@
            }),
    {
        if self.group_editing != Some(id) {
            self.commit_pending_group_edit();
            self.group_edit_snapshot = Some(Snapshot { id, board: self.board_snapshot() });
        }
        self.group_editing = Some(id);
    }

    /// Removes a group and keeps its notes.
    pub fn ungroup_group(&mut self, id: u64)
        ensures
            final(self)@ == without_group(old(self)@, id),
    {
        self.commit_pending_group_edit();
        let before = self.board_snapshot();
        let mut notes: Vec<Note> = Vec::new();
        let mut i: usize = 0;
        while i < self.notes.len()
            invariant
                i <= self.notes@.len(),
                notes@.len() == i,
                forall|j: int|
                    0 <= j < i ==> (#[trigger] notes@[j])@ == ({
                        let n = self.notes@[j]@;
                        if n.group_id == Some(id) {
                            NoteView { group_id: None, ..n }
                        } else {
                            n
                        }
                    }),
            decreases self.notes@.len() - i,
        {
            let mut n = self.notes[i].clone();
            if n.group_id == Some(id) {
                n.group_id = None;
            }
            notes.push(n);
            i = i + 1;
        }
        assert(views(notes@) =~= self@.notes.map_values(
            |n: NoteView|
                if n.group_id == Some(id) {
                    NoteView { group_id: None, ..n }
                } else {
                    n
                },
        ));
        self.notes = notes;
        self.groups = groups_without_one(&self.groups, id);
        self.record_snapshot(before);
    }

    /// Selects a note and starts editing it.
    pub fn edit_note(&mut self, id: u64)
        ensures
            final(self)@ == with_edited_note(old(self)@, id),
    {
        self.selection = one_id(id);
        if self.editing != Some(id) {
            self.commit_pending_edit();
            self.edit_snapshot = Some(Snapshot { id, board: self.board_snapshot() });
        }
        self.editing = Some(id);
    }

    /// Takes a note into the selection, or out of it.
    pub fn toggle_selection(&mut self, id: u64)
        ensures
            final(self)@ == (DeskView {
                selection: toggled(old(self)@.selection, id),
                ..old(self)@
            }),
    {
        let ghost selection = self.selection@;
        let mut i: usize = 0;
        while i < self.selection.len() && self.selection[i] != id
            invariant
                selection == self.selection@,
                i <= self.selection@.len(),
                forall|j: int| 0 <= j < i ==> selection[j] != id,
            decreases self.selection@.len() - i,
        {
            i = i + 1;
        }
        if i < self.selection.len() {
            proof {
                assert(selection.contains(id));
                selection.index_of_first_ensures(id);
                assert(selection.index_of_first(id)->0 == i) by {
                    let k = selection.index_of_first(id)->0;
                    if k < i {
                        assert(selection[k] != id);
                    }
                }
            }
            self.selection.remove(i);
        } else {
            self.selection.push(id);
        }
    }

    /// A click on a note.
    pub fn click_note(&mut self, id: u64, after_drag: bool, target: ClickTarget, modified: bool)
        ensures
            final(self)@ == clicked(old(self)@, id, after_drag, target, modified),
    {
        if after_drag {
            return;
        }
        match target {
            ClickTarget::Unknown => {
                self.editing = Some(id);
            },
            ClickTarget::Control => {},
            ClickTarget::Card => {
                if modified {
                    self.toggle_selection(id);
                    self.editing = None;
                } else {
                    self.edit_note(id);
                }
            },
        }
    }

    /// Makes sure that the note whose menu opens is selected.
    pub fn select_for_menu(&mut self, id: u64)
        ensures
            final(self)@ == (DeskView {
                selection: dragged_with(old(self)@.selection, id),
                ..old(self)@
            }),
    {
        if !contains_id(&self.selection, id) {
            self.selection = one_id(id);
        }
    }

    /// Starts dragging a note: what is edited is finished, and the selection
    /// becomes what the drag moves.
    pub fn start_drag(&mut self, id: u64) -> (r: (BoardData, Vec<u64>))
        ensures
            final(self)@ == (DeskView {
                selection: dragged_with(old(self)@.selection, id),
                ..committed(old(self)@)
            }),
            r.0@ == snapshot_of(final(self)@),
            r.1@ == final(self)@.selection,
    {
        self.commit_pending_edit();
        if !contains_id(&self.selection, id) {
            self.selection = one_id(id);
        }
        let board = self.board_snapshot();
        let moved = copy_ids(&self.selection);
        (board, moved)
    }

    /// Puts notes where a drag has taken them.
    pub fn place_notes(&mut self, positions: &Vec<Placement>)
        ensures
            final(self)@ == (DeskView {
                notes: old(self)@.notes.map_values(|n: NoteView| placed(n, positions@)),
                ..old(self)@
            }),
    {
        let ghost before = self@.notes;
        let mut notes: Vec<Note> = Vec::new();
        let mut i: usize = 0;
        while i < self.notes.len()
            invariant
                i <= self.notes@.len(),
                notes@.len() == i,
                forall|j: int|
                    0 <= j < i ==> (#[trigger] notes@[j])@ == placed(
                        self.notes@[j]@,
                        positions@,
                    ),
            decreases self.notes@.len() - i,
        {
            let mut n = self.notes[i].clone();
            if let Some(p) = find_placement(positions, n.id) {
                n.x = p.x;
                n.y = p.y;
            }
            notes.push(n);
            i = i + 1;
        }
        self.notes = notes;
        assert(self@.notes =~= before.map_values(|n: NoteView| placed(n, positions@)));
    }

    /// Ends the drag of notes: those that were moved belong to the group that
    /// they were dropped on, or to none.
    pub fn finish_drag(
        &mut self,
        before: BoardData,
        moved: &Vec<u64>,
        drop_group: Option<u64>,
        positions: &Vec<Placement>,
    )
        ensures
            final(self)@ == ({
                let d = old(self)@;
                let notes = regrouped_notes(d.notes, moved@, drop_group, positions@);
                recorded(
                    DeskView { notes, groups: used_groups(d.groups, notes), ..d },
                    before@,
                )
            }),
    {
        self.notes = regroup_notes(&self.notes, moved, drop_group, positions);
        self.groups = keep_used_groups(&self.groups, &self.notes);
        self.record_snapshot(before);
    }

    /// Moves or resizes the frame of a group.
    pub fn set_group_frame(
        &mut self,
        id: u64,
        origin: (Coordinate, Coordinate),
        size: Option<(Coordinate, Coordinate)>,
    )
        ensures
            final(self)@ == (DeskView {
                groups: with_group(
                    old(self)@.groups,
                    id,
                    |g: GroupView|
                        GroupView {
                            origin: Some(origin),
                            size: if size is Some {
                                size
                            } else {
                                g.size
                            },
                            ..g
                        },
                ),
                ..old(self)@
            }),
    {
        let i = find_group(&self.groups, id);
        if i < self.groups.len() {
            let mut group = self.groups[i].clone();
            group.origin = Some(origin);
            if size.is_some() {
                group.size = size;
            }
            self.groups = set_group(&self.groups, i, group);
        }
    }
}

/// Where the notes that a drag moves were when it began: those on the board
/// now, in its order, that the drag moves and that were there before.
pub open spec fn drag_origins(
    notes: Seq<NoteView>,
    before: Seq<NoteView>,
    moved: spec_fn(NoteView) -> bool,
) -> Seq<Placement> {
    notes.filter(
        |n: NoteView| moved(n) && note_index(before, n.id) < before.len(),
    ).map_values(
        |n: NoteView|
            Placement {
                id: n.id,
                x: before[note_index(before, n.id)].x,
                y: before[note_index(before, n.id)].y,
            },
    )
}

proof fn origins_step(
    notes: Seq<NoteView>,
    before: Seq<NoteView>,
    moved: spec_fn(NoteView) -> bool,
    i: int,
)
    requires
        0 <= i < notes.len(),
    ensures
        drag_origins(notes.take(i + 1), before, moved) == (if moved(notes[i]) && note_index(
            before,
            notes[i].id,
        ) < before.len() {
            drag_origins(notes.take(i), before, moved).push(
                Placement {
                    id: notes[i].id,
                    x: before[note_index(before, notes[i].id)].x,
                    y: before[note_index(before, notes[i].id)].y,
                },
            )
        } else {
            drag_origins(notes.take(i), before, moved)
        }),
{
    let pred = |n: NoteView| moved(n) && note_index(before, n.id) < before.len();
    let f = |n: NoteView|
        Placement {
            id: n.id,
            x: before[note_index(before, n.id)].x,
            y: before[note_index(before, n.id)].y,
        };
    filter_step(notes, pred, i);
    let kept = notes.take(i).filter(pred);
    assert(kept.push(notes[i]).map_values(f) =~= kept.map_values(f).push(f(notes[i])));
}

/// Where the dragged notes were when the drag of notes began.
pub fn dragged_note_origins(
    notes: &Vec<Note>,
    before: &BoardData,
    moved: &Vec<u64>,
) -> (r: Vec<Placement>)
    ensures
        r@ == drag_origins(
            views(notes@),
            before@.notes,
            |n: NoteView| moved@.contains(n.id),
        ),
{
    let ghost list = views(notes@);
    let ghost pred = |n: NoteView| moved@.contains(n.id);
    let mut out: Vec<Placement> = Vec::new();
    proof {
        filter_ends(
            list,
            |n: NoteView| pred(n) && note_index(before@.notes, n.id) < before@.notes.len(),
        );
    }
    assert(out@ =~= drag_origins(list.take(0), before@.notes, pred));
    let mut i: usize = 0;
    while i < notes.len()
        invariant
            list == views(notes@),
            pred == (|n: NoteView| moved@.contains(n.id)),
            i <= notes@.len(),
            out@ == drag_origins(list.take(i as int), before@.notes, pred),
        decreases notes@.len() - i,
    {
        proof {
            origins_step(list, before@.notes, pred, i as int);
        }
        let id: u64 = notes[i].id;
        if contains_id(moved, id) {
            let k = find_note(&before.notes, id);
            if k < before.notes.len() {
                out.push(Placement { id, x: before.notes[k].x, y: before.notes[k].y });
            }
        }
        i = i + 1;
    }
    assert(list.take(i as int) =~= list);
    out
}

/// Where the notes of a group were when the drag of the group began.
pub fn dragged_group_origins(
    notes: &Vec<Note>,
    before: &BoardData,
    group: u64,
) -> (r: Vec<Placement>)
    ensures
        r@ == drag_origins(
            views(notes@),
            before@.notes,
            |n: NoteView| n.group_id == Some(group),
        ),
{
    let ghost list = views(notes@);
    let ghost pred = |n: NoteView| n.group_id == Some(group);
    let mut out: Vec<Placement> = Vec::new();
    proof {
        filter_ends(
            list,
            |n: NoteView| pred(n) && note_index(before@.notes, n.id) < before@.notes.len(),
        );
    }
    assert(out@ =~= drag_origins(list.take(0), before@.notes, pred));
    let mut i: usize = 0;
    while i < notes.len()
        invariant
            list == views(notes@),
            pred == (|n: NoteView| n.group_id == Some(group)),
            i <= notes@.len(),
            out@ == drag_origins(list.take(i as int), before@.notes, pred),
        decreases notes@.len() - i,
    {
        proof {
            origins_step(list, before@.notes, pred, i as int);
        }
        let id: u64 = notes[i].id;
        if notes[i].group_id == Some(group) {
            let k = find_note(&before.notes, id);
            if k < before.notes.len() {
                out.push(Placement { id, x: before.notes[k].x, y: before.notes[k].y });
            }
        }
        i = i + 1;
    }
    assert(list.take(i as int) =~= list);
    out
}

/// Finishing the edits of a note and of a label leaves the board and the
/// selection as they are, and nothing is being edited then.
pub proof fn finishing_edits_keeps_the_board(d: DeskView)
    ensures
        committed(d).notes == d.notes,
        committed(d).groups == d.groups,
        committed(d).selection == d.selection,
        committed(d).group_editing == d.group_editing,
        committed(d).editing is None,
        committed(d).edit_snapshot is None,
        all_committed(d).notes == d.notes,
        all_committed(d).groups == d.groups,
        all_committed(d).selection == d.selection,
        all_committed(d).editing is None,
        all_committed(d).group_editing is None,
        all_committed(d).edit_snapshot is None,
        all_committed(d).group_edit_snapshot is None,
{
}

proof fn kept_groups_are_some_notes_groups(
    groups: Seq<GroupView>,
    notes: Seq<NoteView>,
    g: GroupView,
)
    ensures
        used_groups(groups, notes).contains(g) == (groups.contains(g) && exists|i: int|
            0 <= i < notes.len() && (#[trigger] notes[i]).group_id == Some(g.id)),
{
    crate::desk::kept_groups_are_used(groups, notes, g);
}

/// Ungrouping takes exactly the selected notes out of their groups: every other
/// note is as it was, the selected ones keep everything but their group, and a
/// group stays exactly where a note that is not selected is in it.
pub proof fn ungrouping_touches_only_the_selection(d: DeskView, k: int, g: GroupView)
    requires
        0 <= k < d.notes.len(),
        d.selection.len() > 0,
    ensures
        ({
            let r = with_ungrouped_selection(d);
            &&& r.notes.len() == d.notes.len()
            &&& !d.selection.contains(d.notes[k].id) ==> r.notes[k] == d.notes[k]
            &&& d.selection.contains(d.notes[k].id) ==> r.notes[k] == (NoteView {
                group_id: None,
                ..d.notes[k]
            })
            &&& r.selection == d.selection
            &&& r.editing is None
            &&& r.group_editing is None
            &&& r.groups.contains(g) ==> d.groups.contains(g)
            &&& d.groups.contains(g) && d.notes[k].group_id == Some(g.id)
                && !d.selection.contains(d.notes[k].id) ==> r.groups.contains(g)
            &&& (forall|i: int|
                0 <= i < d.notes.len() && (#[trigger] d.notes[i]).group_id == Some(g.id)
                    ==> d.selection.contains(d.notes[i].id)) ==> !r.groups.contains(g)
        }),
{
    finishing_edits_keeps_the_board(d);
    let r = with_ungrouped_selection(d);
    kept_groups_are_some_notes_groups(d.groups, r.notes, g);
    if d.notes[k].group_id == Some(g.id) && !d.selection.contains(d.notes[k].id) {
        assert(r.notes[k].group_id == Some(g.id));
    }
    if r.groups.contains(g) {
        let i = choose|i: int|
            0 <= i < r.notes.len() && (#[trigger] r.notes[i]).group_id == Some(g.id);
        assert(d.notes[i].group_id == Some(g.id));
        assert(!d.selection.contains(d.notes[i].id));
    }
}

/// Where too little is selected, grouping and ungrouping, adding to a group and
/// deleting change nothing.
pub proof fn empty_selections_change_nothing(
    d: DeskView,
    id: u64,
    stable_id: Seq<char>,
    origin: Option<(Coordinate, Coordinate)>,
    now: u64,
    list: Seq<Placement>,
)
    ensures
        d.selection.len() < 2 ==> with_new_group(d, id, stable_id, origin, now) == d,
        d.selection.len() == 0 ==> with_ungrouped_selection(d) == d,
        d.selection.len() == 0 ==> with_selection_in_group(d, id, list) == d,
        d.selection.len() == 0 ==> without_selection(d) == d,
        (forall|j: int| 0 <= j < d.groups.len() ==> (#[trigger] d.groups[j]).id != id)
            ==> with_selection_in_group(d, id, list) == d,
{
    crate::persist::boards_have_what_is_on_them(d.notes, d.groups, id);
}

/// Grouping puts exactly the selected notes into the new group, which comes
/// behind the other groups with the origin that was given and a label that is
/// being edited. Every other note and every other group stays as it was.
pub proof fn grouping_takes_the_selection(
    d: DeskView,
    id: u64,
    stable_id: Seq<char>,
    origin: Option<(Coordinate, Coordinate)>,
    now: u64,
    k: int,
    j: int,
)
    requires
        d.selection.len() >= 2,
        forall|i: int| 0 <= i < d.groups.len() ==> (#[trigger] d.groups[i]).id != id,
    ensures
        ({
            let r = with_new_group(d, id, stable_id, origin, now);
            let made = r.groups.last();
            &&& r.notes.len() == d.notes.len()
            &&& r.groups.len() == d.groups.len() + 1
            &&& 0 <= k < d.notes.len() && d.selection.contains(d.notes[k].id) ==> r.notes[k] == (
            NoteView { group_id: Some(id), group_stable_id: Some(stable_id), ..d.notes[k] })
            &&& 0 <= k < d.notes.len() && !d.selection.contains(d.notes[k].id) ==> r.notes[k]
                == d.notes[k]
            &&& 0 <= j < d.groups.len() ==> r.groups[j] == d.groups[j]
            &&& made.id == id
            &&& made.stable_id == stable_id
            &&& made.label == "new group"@
            &&& made.origin == origin
            &&& made.size is None
            &&& made.created_at == now
            &&& made.updated_at == now
            &&& made.deleted_at is None
            &&& r.selection == d.selection
            &&& r.editing is None
            &&& r.group_editing == Some(id)
        }),
{
    finishing_edits_keeps_the_board(d);
    let c = all_committed(d);
    let grown = c.groups.push(new_group(id, stable_id, now));
    crate::desk::group_index_is_least(grown, id);
    let i = crate::desk::group_index(grown, id);
    assert(grown[d.groups.len() as int].id == id);
    if i < d.groups.len() {
        assert(grown[i] == d.groups[i]);
    }
}

proof fn placement_first(list: Seq<Placement>, id: u64, p: int)
    requires
        0 <= p <= list.len(),
        forall|j: int| 0 <= j < p ==> (#[trigger] list[j]).id != id,
        p < list.len() ==> list[p].id == id,
    ensures
        placement_of(list, id) == (if p < list.len() {
            Some(list[p])
        } else {
            None
        }),
    decreases list.len(),
{
    if list.len() > 0 && list[0].id != id {
        assert forall|j: int| 0 <= j < p - 1 implies (#[trigger] list.skip(1)[j]).id != id by {
            assert(list.skip(1)[j] == list[j + 1]);
        }
        placement_first(list.skip(1), id, p - 1);
    }
}

/// Placing notes moves each to the first position that is given for it and
/// changes nothing else of it; a note without a position stays where it is.
/// `p` is the place of that position.
pub proof fn notes_go_where_they_are_placed(n: NoteView, list: Seq<Placement>, p: int)
    requires
        0 <= p <= list.len(),
        forall|j: int| 0 <= j < p ==> (#[trigger] list[j]).id != n.id,
        p < list.len() ==> list[p].id == n.id,
    ensures
        p < list.len() ==> placed(n, list) == (NoteView { x: list[p].x, y: list[p].y, ..n }),
        p == list.len() ==> placed(n, list) == n,
{
    placement_first(list, n.id, p);
}

/// Notes that are dropped somewhere are in the group there, or in none, and lie
/// where they were placed; every other note is as it was. A group stays exactly
/// where a note is in it afterwards.
pub proof fn dropped_notes_change_their_group(
    d: DeskView,
    moved: Seq<u64>,
    group: Option<u64>,
    list: Seq<Placement>,
    k: int,
    p: int,
    g: GroupView,
)
    requires
        0 <= k < d.notes.len(),
        0 <= p <= list.len(),
        forall|j: int| 0 <= j < p ==> (#[trigger] list[j]).id != d.notes[k].id,
        p < list.len() ==> list[p].id == d.notes[k].id,
    ensures
        ({
            let n = d.notes[k];
            let notes = regrouped_notes(d.notes, moved, group, list);
            let r = notes[k];
            &&& notes.len() == d.notes.len()
            &&& !moved.contains(n.id) ==> r == n
            &&& moved.contains(n.id) ==> {
                &&& r.group_id == group
                &&& p < list.len() ==> r.x == list[p].x && r.y == list[p].y
                &&& p == list.len() ==> r.x == n.x && r.y == n.y
                &&& r == (NoteView { group_id: r.group_id, x: r.x, y: r.y, ..n })
            }
            &&& used_groups(d.groups, notes).contains(g) == (d.groups.contains(g) && exists|i: int|
                0 <= i < notes.len() && (#[trigger] notes[i]).group_id == Some(g.id))
        }),
{
    placement_first(list, d.notes[k].id, p);
    kept_groups_are_some_notes_groups(d.groups, regrouped_notes(d.notes, moved, group, list), g);
}

/// Adding to a group puts exactly the selected notes into it, where they were
/// placed. Every other note is as it was, and the group itself stays where a
/// selected note is on the board.
pub proof fn selections_join_a_group(
    d: DeskView,
    group: u64,
    list: Seq<Placement>,
    k: int,
    p: int,
    j: int,
)
    requires
        d.selection.len() > 0,
        0 <= k < d.notes.len(),
        0 <= j < d.groups.len(),
        d.groups[j].id == group,
        0 <= p <= list.len(),
        forall|a: int| 0 <= a < p ==> (#[trigger] list[a]).id != d.notes[k].id,
        p < list.len() ==> list[p].id == d.notes[k].id,
    ensures
        ({
            let n = d.notes[k];
            let after = with_selection_in_group(d, group, list);
            let r = after.notes[k];
            &&& after.notes.len() == d.notes.len()
            &&& after.selection == d.selection
            &&& !d.selection.contains(n.id) ==> r == n
            &&& d.selection.contains(n.id) ==> {
                &&& r.group_id == Some(group)
                &&& p < list.len() ==> r.x == list[p].x && r.y == list[p].y
                &&& p == list.len() ==> r.x == n.x && r.y == n.y
                &&& r == (NoteView { group_id: r.group_id, x: r.x, y: r.y, ..n })
                &&& after.groups.contains(d.groups[j])
            }
            &&& forall|i: int|
                0 <= i < after.groups.len() ==> d.groups.contains(#[trigger] after.groups[i])
            &&& !d.selection.contains(n.id) && n.group_id is Some ==> forall|i: int|
                0 <= i < d.groups.len() && (#[trigger] d.groups[i]).id == n.group_id->0
                    ==> after.groups.contains(d.groups[i])
        }),
{
    finishing_edits_keeps_the_board(d);
    crate::persist::boards_have_what_is_on_them(d.notes, d.groups, group);
    let after = with_selection_in_group(d, group, list);
    let notes = regrouped_notes(d.notes, d.selection, Some(group), list);
    dropped_notes_change_their_group(d, d.selection, Some(group), list, k, p, d.groups[j]);
    assert(after.notes == notes);
    assert(after.groups == used_groups(d.groups, notes));
    if d.selection.contains(d.notes[k].id) {
        assert(notes[k].group_id == Some(d.groups[j].id));
        assert(d.groups.contains(d.groups[j]));
    }
    assert forall|i: int| 0 <= i < after.groups.len() implies d.groups.contains(
        #[trigger] after.groups[i],
    ) by {
        kept_groups_are_some_notes_groups(d.groups, notes, after.groups[i]);
        assert(after.groups.contains(after.groups[i]));
    }
    assert forall|i: int|
        !d.selection.contains(d.notes[k].id) && d.notes[k].group_id is Some && 0 <= i
            < d.groups.len() && (#[trigger] d.groups[i]).id == d.notes[k].group_id->0 implies after.groups.contains(
        d.groups[i],
    ) by {
        kept_groups_are_some_notes_groups(d.groups, notes, d.groups[i]);
        assert(notes[k].group_id == Some(d.groups[i].id));
        assert(d.groups.contains(d.groups[i]));
    }
}

proof fn filtered_notes(notes: Seq<NoteView>, pred: spec_fn(NoteView) -> bool, n: NoteView)
    ensures
        notes.filter(pred).contains(n) == (notes.contains(n) && pred(n)),
{
    if notes.filter(pred).contains(n) {
        let k = notes.filter(pred).index_of(n);
        crate::lists::filter_member(notes, pred, k);
    }
    if notes.contains(n) && pred(n) {
        let i = notes.index_of(n);
        crate::lists::filter_keeps(notes, pred, i);
    }
}

/// Deleting the selection takes exactly the selected notes off the board and
/// the groups that this leaves empty; nothing is selected then. The notes that
/// stay keep their order.
pub proof fn deleting_takes_only_the_selection(d: DeskView, n: NoteView, g: GroupView)
    requires
        d.selection.len() > 0,
    ensures
        ({
            let r = without_selection(d);
            &&& r.notes.contains(n) == (d.notes.contains(n) && !d.selection.contains(n.id))
            &&& r.notes == d.notes.filter(|x: NoteView| !d.selection.contains(x.id))
            &&& r.selection.len() == 0
            &&& r.editing is None
            &&& r.group_editing is None
            &&& r.groups.contains(g) == (d.groups.contains(g) && exists|i: int|
                0 <= i < d.notes.len() && (#[trigger] d.notes[i]).group_id == Some(g.id)
                    && !d.selection.contains(d.notes[i].id))
        }),
{
    finishing_edits_keeps_the_board(d);
    let r = without_selection(d);
    let pred = |x: NoteView| !d.selection.contains(x.id);
    filtered_notes(d.notes, pred, n);
    kept_groups_are_some_notes_groups(d.groups, r.notes, g);
    assert(r.notes == d.notes.filter(pred));
    stays_in_a_group(d.notes, pred, g.id);
}

proof fn stays_in_a_group(notes: Seq<NoteView>, pred: spec_fn(NoteView) -> bool, id: u64)
    ensures
        (exists|i: int|
            0 <= i < notes.filter(pred).len() && (#[trigger] notes.filter(pred)[i]).group_id
                == Some(id)) == (exists|i: int|
            0 <= i < notes.len() && (#[trigger] notes[i]).group_id == Some(id) && pred(notes[i])),
{
    let kept = notes.filter(pred);
    if exists|i: int| 0 <= i < kept.len() && (#[trigger] kept[i]).group_id == Some(id) {
        let i = choose|i: int| 0 <= i < kept.len() && (#[trigger] kept[i]).group_id == Some(id);
        crate::lists::filter_member(notes, pred, i);
        let j = notes.index_of(kept[i]);
        assert(notes[j].group_id == Some(id) && pred(notes[j]));
    }
    if exists|i: int|
        0 <= i < notes.len() && (#[trigger] notes[i]).group_id == Some(id) && pred(notes[i]) {
        let i = choose|i: int|
            0 <= i < notes.len() && (#[trigger] notes[i]).group_id == Some(id) && pred(notes[i]);
        crate::lists::filter_keeps(notes, pred, i);
        let k = kept.index_of(notes[i]);
        assert(kept[k].group_id == Some(id));
    }
}

/// Deleting one note takes exactly the notes of its id off the board, and the
/// groups that this leaves empty. The notes that stay keep their order.
pub proof fn deleting_takes_one_note(d: DeskView, id: u64, n: NoteView, g: GroupView)
    ensures
        ({
            let r = without_note(d, id);
            &&& r.notes.contains(n) == (d.notes.contains(n) && n.id != id)
            &&& r.notes == d.notes.filter(|x: NoteView| x.id != id)
            &&& r.selection == d.selection
            &&& r.editing is None
            &&& r.groups.contains(g) == (d.groups.contains(g) && exists|i: int|
                0 <= i < d.notes.len() && (#[trigger] d.notes[i]).group_id == Some(g.id)
                    && d.notes[i].id != id)
        }),
{
    finishing_edits_keeps_the_board(d);
    let r = without_note(d, id);
    let pred = |x: NoteView| x.id != id;
    filtered_notes(d.notes, pred, n);
    kept_groups_are_some_notes_groups(d.groups, r.notes, g);
    assert(r.notes == d.notes.filter(pred));
    stays_in_a_group(d.notes, pred, g.id);
}

/// Dissolving a group frees exactly its notes, which stay on the board, and
/// takes exactly this group away.
pub proof fn dissolving_frees_only_its_notes(d: DeskView, id: u64, k: int, g: GroupView)
    ensures
        ({
            let r = without_group(d, id);
            &&& r.notes.len() == d.notes.len()
            &&& 0 <= k < d.notes.len() && d.notes[k].group_id == Some(id) ==> r.notes[k] == (
            NoteView { group_id: None, ..d.notes[k] })
            &&& 0 <= k < d.notes.len() && d.notes[k].group_id != Some(id) ==> r.notes[k]
                == d.notes[k]
            &&& r.groups.contains(g) == (d.groups.contains(g) && g.id != id)
            &&& r.selection == d.selection
            &&& r.group_editing is None
        }),
{
    let r = without_group(d, id);
    let pred = |x: GroupView| x.id != id;
    assert(r.groups == d.groups.filter(pred));
    if r.groups.contains(g) {
        let i = r.groups.index_of(g);
        crate::lists::filter_member(d.groups, pred, i);
    }
    if d.groups.contains(g) && g.id != id {
        let i = d.groups.index_of(g);
        crate::lists::filter_keeps(d.groups, pred, i);
    }
}

/// A new note comes behind the others: empty, still to do, in no group, where
/// it was put, and being edited. The other notes and the groups stay as they
/// were.
pub proof fn new_notes_come_last(
    d: DeskView,
    id: u64,
    stable_id: Seq<char>,
    x: Coordinate,
    y: Coordinate,
    now: u64,
)
    ensures
        ({
            let r = with_new_note(d, id, stable_id, x, y, now);
            let n = r.notes.last();
            &&& r.notes.len() == d.notes.len() + 1
            &&& r.notes.drop_last() == d.notes
            &&& r.groups == d.groups
            &&& r.selection == d.selection
            &&& r.editing == Some(id)
            &&& n.id == id
            &&& n.stable_id == stable_id
            &&& n.text.len() == 0
            &&& n.status == NoteStatus::Todo
            &&& n.due_date is None
            &&& n.x == x
            &&& n.y == y
            &&& n.group_id is None
            &&& n.group_stable_id is None
            &&& n.created_at == now
            &&& n.updated_at == now
            &&& n.deleted_at is None
            &&& n.color == color_for(id)
            &&& n.rotation == rotation_for(id)
            &&& -2 <= n.rotation <= 2
            &&& n.rotation != 0
        }),
{
    finishing_edits_keeps_the_board(d);
    assert(with_new_note(d, id, stable_id, x, y, now).notes.drop_last() =~= d.notes);
}

/// The colours of new notes take turns with their ids.
pub proof fn colors_take_turns(id: u64)
    requires
        id < u64::MAX,
    ensures
        color_for(id) == NoteColor::Yellow ==> color_for((id + 1) as u64) == NoteColor::Pink,
        color_for(id) == NoteColor::Pink ==> color_for((id + 1) as u64) == NoteColor::Blue,
        color_for(id) == NoteColor::Blue ==> color_for((id + 1) as u64) == NoteColor::Green,
        color_for(id) == NoteColor::Green ==> color_for((id + 1) as u64) == NoteColor::Lavender,
        color_for(id) == NoteColor::Lavender ==> color_for((id + 1) as u64) == NoteColor::Yellow,
        color_for(id) == NoteColor::Yellow <==> id % 5 == 0,
        rotation_for(id) == -2 <==> id % 5 == 0 || id % 5 == 3,
        rotation_for(id) == 1 <==> id % 5 == 2,
        rotation_for(id) == 2 <==> id % 5 == 1 || id % 5 == 4,
{
}

/// A change of one note changes the first note of its id, by exactly the change,
/// and no other note, no group and no selection.
pub proof fn changes_touch_one_note(
    d: DeskView,
    id: u64,
    change: spec_fn(NoteView) -> NoteView,
    k: int,
)
    requires
        0 <= k < d.notes.len(),
    ensures
        ({
            let r = with_changed_note(d, id, change);
            let first = d.notes[k].id == id && forall|j: int|
                0 <= j < k ==> (#[trigger] d.notes[j]).id != id;
            &&& r.notes.len() == d.notes.len()
            &&& first ==> r.notes[k] == change(d.notes[k])
            &&& !first ==> r.notes[k] == d.notes[k]
            &&& r.groups == d.groups
            &&& r.selection == d.selection
            &&& r.editing is None
            &&& crate::desk::with_note(d.notes, id, change) == r.notes
        }),
{
    finishing_edits_keeps_the_board(d);
    crate::desk::note_index_is_least(d.notes, id);
    let i = crate::desk::note_index(d.notes, id);
    if d.notes[k].id == id {
        assert(i <= k);
    }
}

/// A change of one group changes the first group of its id, by exactly the
/// change, and no other.
pub proof fn changes_touch_one_group(
    groups: Seq<GroupView>,
    id: u64,
    change: spec_fn(GroupView) -> GroupView,
    k: int,
)
    requires
        0 <= k < groups.len(),
    ensures
        ({
            let r = with_group(groups, id, change);
            let first = groups[k].id == id && forall|j: int|
                0 <= j < k ==> (#[trigger] groups[j]).id != id;
            &&& r.len() == groups.len()
            &&& first ==> r[k] == change(groups[k])
            &&& !first ==> r[k] == groups[k]
        }),
{
    crate::desk::group_index_is_least(groups, id);
    let i = crate::desk::group_index(groups, id);
    if groups[k].id == id {
        assert(i <= k);
    }
}

/// Toggling adds an id to a selection without it and takes it out of one with
/// it; no other id comes or goes.
pub proof fn toggling_changes_one_id(selection: Seq<u64>, id: u64, other: u64)
    requires
        selection.no_duplicates(),
        other != id,
    ensures
        toggled(selection, id).contains(id) == !selection.contains(id),
        toggled(selection, id).contains(other) == selection.contains(other),
        toggled(selection, id).no_duplicates(),
        !selection.contains(id) ==> toggled(selection, id).drop_last() == selection,
        selection.contains(id) ==> toggled(selection, id).len() == selection.len() - 1,
        toggled(toggled(selection, id), id).contains(id) == selection.contains(id),
{
    toggling_once(selection, id, other);
    toggling_once(toggled(selection, id), id, other);
}

proof fn toggling_once(selection: Seq<u64>, id: u64, other: u64)
    requires
        selection.no_duplicates(),
        other != id,
    ensures
        toggled(selection, id).contains(id) == !selection.contains(id),
        toggled(selection, id).contains(other) == selection.contains(other),
        toggled(selection, id).no_duplicates(),
        selection.contains(id) ==> toggled(selection, id).len() == selection.len() - 1,
{
    let r = toggled(selection, id);
    if selection.contains(id) {
        selection.index_of_first_ensures(id);
        let i = selection.index_of_first(id)->0;
        assert(selection[i] == id);
        assert forall|k: int| 0 <= k < r.len() implies #[trigger] r[k] == (if k < i {
            selection[k]
        } else {
            selection[k + 1]
        }) by {}
        if selection.contains(other) {
            let k = selection.index_of(other);
            if k < i {
                assert(r[k] == other);
            } else {
                assert(r[k - 1] == other);
            }
        }
        if r.contains(other) {
            let k = r.index_of(other);
            if k < i {
                assert(selection[k] == other);
            } else {
                assert(selection[k + 1] == other);
            }
        }
        if r.contains(id) {
            let k = r.index_of(id);
            if k < i {
                assert(selection[k] == id);
            } else {
                assert(selection[k + 1] == id);
            }
        }
    } else {
        assert(r[selection.len() as int] == id);
        if selection.contains(other) {
            let k = selection.index_of(other);
            assert(r[k] == other);
        }
        if r.contains(other) {
            let k = r.index_of(other);
            assert(selection[k] == other);
        }
        assert forall|a: int, b: int| 0 <= a < b < r.len() implies r[a] != r[b] by {
            assert(selection.contains(selection[a]));
        }
    }
}

/// A drag moves the selection where the note belongs to it, and the note alone
/// otherwise.
pub proof fn drags_move_the_note(selection: Seq<u64>, id: u64, other: u64)
    ensures
        dragged_with(selection, id).contains(id),
        selection.contains(id) ==> dragged_with(selection, id) == selection,
        !selection.contains(id) && other != id ==> !dragged_with(selection, id).contains(other),
{
    if !selection.contains(id) {
        assert(dragged_with(selection, id)[0] == id);
    }
}

/// A click that ends a drag or lands on a control does nothing; any other click
/// on a note with a modifier key only changes the selection, and one without
/// edits the note and selects it alone.
pub proof fn clicks_select_or_edit_a_note(
    d: DeskView,
    id: u64,
    after_drag: bool,
    target: ClickTarget,
    modified: bool,
)
    ensures
        ({
            let r = clicked(d, id, after_drag, target, modified);
            &&& after_drag || target == ClickTarget::Control ==> r == d
            &&& r.notes == d.notes
            &&& r.groups == d.groups
            &&& !after_drag && target == ClickTarget::Card && !modified ==> r.editing == Some(id)
                && r.selection == seq![id]
            &&& !after_drag && target == ClickTarget::Card && modified ==> r.editing is None
                && r.selection == toggled(d.selection, id)
            &&& !after_drag && target == ClickTarget::Unknown ==> r.editing == Some(id)
                && r.selection == d.selection
        }),
{
}

/// Beginning to edit keeps the board; what was there then comes back with undo
/// once the edit is finished.
pub proof fn edits_begin_with_the_board(d: DeskView, id: u64)
    ensures
        ({
            let r = with_edited_note(d, id);
            &&& r.notes == d.notes
            &&& r.groups == d.groups
            &&& r.selection == seq![id]
            &&& r.editing == Some(id)
            &&& d.editing != Some(id) ==> (r.edit_snapshot matches Some(s) && s.id == id
                && s.board.notes == d.notes && s.board.groups == d.groups)
            &&& d.editing == Some(id) ==> r.edit_snapshot == d.edit_snapshot
        }),
        ({
            let r = with_edited_group(d, id);
            &&& r.notes == d.notes
            &&& r.groups == d.groups
            &&& r.selection == d.selection
            &&& r.editing == d.editing
            &&& r.group_editing == Some(id)
            &&& r.group_edit_snapshot matches Some(s) && (s.id == id && s.board.notes == d.notes
                && s.board.groups == d.groups)
        }),
{
}

/// What was typed into a note since its edit began is one change: undo brings
/// back the board on which it began.
pub proof fn typing_is_undone_at_once(d: DeskView, id: u64, notes: Seq<NoteView>)
    requires
        d.editing != Some(id),
        !crate::model::board_eq(
            snapshot_of(DeskView { notes, ..with_edited_note(d, id) }),
            snapshot_of(d),
        ),
    ensures
        ({
            let typed = DeskView { notes, ..with_edited_note(d, id) };
            &&& undone(typed).notes == d.notes
            &&& undone(typed).groups == d.groups
            &&& undone(typed).editing is None
        }),
{
    let typed = DeskView { notes, ..with_edited_note(d, id) };
    assert(with_edited_note(d, id).edit_snapshot matches Some(s) && s.board == snapshot_of(d));
}

/// Undo takes back grouping, ungrouping, joining a group, dissolving one,
/// deleting and changing a note, wherever they changed the board.
pub proof fn board_edits_can_be_undone(
    d: DeskView,
    id: u64,
    list: Seq<Placement>,
    change: spec_fn(NoteView) -> NoteView,
)
    ensures
        d.selection.len() > 0 ==> undo_restores(d, with_ungrouped_selection(d)),
        d.selection.len() > 0 && (exists|j: int|
            0 <= j < d.groups.len() && (#[trigger] d.groups[j]).id == id) ==> undo_restores(
            d,
            with_selection_in_group(d, id, list),
        ),
        d.selection.len() > 0 ==> undo_restores(d, without_selection(d)),
        undo_restores(d, without_note(d, id)),
        d.edit_snapshot is None ==> undo_restores(d, without_group(d, id)),
        undo_restores(d, with_changed_note(d, id, change)),
{
    crate::persist::boards_have_what_is_on_them(d.notes, d.groups, id);
}

/// Whether undo leads from the desk after a change back to the board before it,
/// where the change changed the board.
pub open spec fn undo_restores(before: DeskView, after: DeskView) -> bool {
    !crate::model::board_eq(snapshot_of(after), snapshot_of(before)) ==> undone(after).notes
        == before.notes && undone(after).groups == before.groups
}

/// Where a drag began: for every moved note that was on the board before, its
/// position then, and nothing else.
pub proof fn drags_begin_where_notes_were(
    notes: Seq<NoteView>,
    before: Seq<NoteView>,
    moved: spec_fn(NoteView) -> bool,
    k: int,
    b: int,
    o: int,
)
    ensures
        ({
            let r = drag_origins(notes, before, moved);
            &&& 0 <= k < notes.len() && moved(notes[k]) && 0 <= b < before.len() && before[b].id
                == notes[k].id && (forall|j: int| 0 <= j < b ==> (#[trigger] before[j]).id
                != notes[k].id) ==> r.contains(
                Placement { id: notes[k].id, x: before[b].x, y: before[b].y },
            )
            &&& 0 <= o < r.len() ==> exists|i: int, j: int|
                0 <= i < notes.len() && 0 <= j < before.len() && moved(#[trigger] notes[i])
                    && notes[i].id == r[o].id && (#[trigger] before[j]).id == r[o].id
                    && before[j].x == r[o].x && before[j].y == r[o].y
        }),
{
    let pred = |n: NoteView| moved(n) && crate::desk::note_index(before, n.id) < before.len();
    let kept = notes.filter(pred);
    let r = drag_origins(notes, before, moved);
    if 0 <= k < notes.len() && moved(notes[k]) && 0 <= b < before.len() && before[b].id
        == notes[k].id && (forall|j: int| 0 <= j < b ==> (#[trigger] before[j]).id != notes[k].id) {
        crate::desk::note_index_is_least(before, notes[k].id);
        let i = crate::desk::note_index(before, notes[k].id);
        assert(i == b) by {
            if i < b {
                assert(before[i].id != notes[k].id);
            }
        }
        crate::lists::filter_keeps(notes, pred, k);
        let f = kept.index_of(notes[k]);
        assert(r[f] == (Placement { id: notes[k].id, x: before[b].x, y: before[b].y }));
    }
    if 0 <= o < r.len() {
        crate::lists::filter_member(notes, pred, o);
        let i = notes.index_of(kept[o]);
        crate::desk::note_index_is_least(before, kept[o].id);
        let j = crate::desk::note_index(before, kept[o].id);
        assert(moved(notes[i]) && notes[i].id == r[o].id && before[j].id == r[o].id);
    }
}

/// A note or a group that was just made is taken back by one undo, whatever was
/// edited before.
pub proof fn new_things_can_be_undone(
    d: DeskView,
    id: u64,
    stable_id: Seq<char>,
    x: Coordinate,
    y: Coordinate,
    origin: Option<(Coordinate, Coordinate)>,
    now: u64,
)
    ensures
        ({
            let made = with_new_note(d, id, stable_id, x, y, now);
            crate::model::board_eq(snapshot_of(made), snapshot_of(made)) ==> undone(made).notes
                == d.notes && undone(made).groups == d.groups && undone(made).editing is None
        }),
        d.selection.len() >= 2 ==> ({
            let made = with_new_group(d, id, stable_id, origin, now);
            undone(made).notes == d.notes && undone(made).groups == d.groups
        }),
{
    let made = with_new_note(d, id, stable_id, x, y, now);
    let c = committed(d);
    crate::desk::changes_are_recorded(
        DeskView { notes: c.notes.push(new_note(id, stable_id, x, y, now)), ..c },
        snapshot_of(c),
    );
    assert(made.notes.len() == d.notes.len() + 1);
    if d.selection.len() >= 2 {
        let a = all_committed(d);
        let group = with_new_group(d, id, stable_id, origin, now);
        assert(group.groups.len() == d.groups.len() + 1) by {
            let pushed = a.groups.push(new_group(id, stable_id, now));
            crate::desk::group_index_is_least(pushed, id);
        }
        crate::desk::changes_are_recorded(
            DeskView { notes: group.notes, groups: group.groups, ..a },
            snapshot_of(a),
        );
    }
}

/// What is typed as the name of a group is undone by one undo, once its edit is
/// finished.
pub proof fn group_names_can_be_undone(d: DeskView, id: u64, groups: Seq<GroupView>)
    requires
        d.edit_snapshot is None,
        !crate::model::board_eq(
            snapshot_of(DeskView { groups, ..with_edited_group(d, id) }),
            snapshot_of(d),
        ),
    ensures
        ({
            let typed = DeskView { groups, ..with_edited_group(d, id) };
            let done = crate::desk::group_committed(typed);
            &&& done.groups == groups
            &&& done.group_editing is None
            &&& undone(done).notes == d.notes
            &&& undone(done).groups == d.groups
        }),
{
    let typed = DeskView { groups, ..with_edited_group(d, id) };
    assert(typed.group_edit_snapshot matches Some(s) && s.board == snapshot_of(d));
    crate::desk::changes_are_recorded(typed, snapshot_of(d));
}

} // verus!
