//! The board that is being edited: its notes and groups, what is selected and
//! edited, and the history that undo and redo walk.
use vstd::prelude::*;

use crate::lists::filter_ends;
use crate::lists::filter_step;
use crate::lists::views;
use crate::lists::views_push;
use crate::model::board_eq;
use crate::model::clone_groups;
use crate::model::clone_notes;
use crate::model::same_board;
use crate::model::BoardData;
use crate::model::BoardView;
use crate::model::Coordinate;
use crate::model::Group;
use crate::model::GroupView;
use crate::model::Note;
use crate::model::NoteView;

verus! {

/// How many boards undo can go back to.
pub const MAX_HISTORY: usize = 100;

/// A board as it was, and what was being edited when it was taken.
#[derive(Debug, PartialEq)]
pub struct Snapshot {
    pub id: u64,
    pub board: BoardData,
}

/// A snapshot with its board as a view.
pub struct SnapshotView {
    pub id: u64,
    pub board: BoardView,
}

impl View for Snapshot {
    type V = SnapshotView;

    open spec fn view(&self) -> SnapshotView {
        SnapshotView { id: self.id, board: self.board@ }
    }
}

/// The boards to go back to and the boards to go forward to, last ones first.
#[derive(Debug, PartialEq)]
pub struct History {
    pub undo: Vec<BoardData>,
    pub redo: Vec<BoardData>,
}

/// The board that is being edited.
#[derive(Debug, PartialEq)]
pub struct Desk {
    pub schema_version: u32,
    pub notes: Vec<Note>,
    pub groups: Vec<Group>,
    pub history: History,
    pub selection: Vec<u64>,
    pub editing: Option<u64>,
    pub edit_snapshot: Option<Snapshot>,
    pub group_editing: Option<u64>,
    pub group_edit_snapshot: Option<Snapshot>,
}

/// A desk as sequences of views.
pub struct DeskView {
    pub schema_version: u32,
    pub notes: Seq<NoteView>,
    pub groups: Seq<GroupView>,
    pub undo: Seq<BoardView>,
    pub redo: Seq<BoardView>,
    pub selection: Seq<u64>,
    pub editing: Option<u64>,
    pub edit_snapshot: Option<SnapshotView>,
    pub group_editing: Option<u64>,
    pub group_edit_snapshot: Option<SnapshotView>,
}

impl View for Desk {
    type V = DeskView;

    open spec fn view(&self) -> DeskView {
        DeskView {
            schema_version: self.schema_version,
            notes: views(self.notes@),
            groups: views(self.groups@),
            undo: views(self.history.undo@),
            redo: views(self.history.redo@),
            selection: self.selection@,
            editing: self.editing,
            edit_snapshot: crate::lists::opt_view(self.edit_snapshot),
            group_editing: self.group_editing,
            group_edit_snapshot: crate::lists::opt_view(self.group_edit_snapshot),
        }
    }
}

/// A position for a note on the canvas.
#[derive(Clone, Copy, Debug, PartialEq, Eq, Structural)]
pub struct Placement {
    pub id: u64,
    pub x: Coordinate,
    pub y: Coordinate,
}

/// The board on a desk.
pub open spec fn snapshot_of(d: DeskView) -> BoardView {
    BoardView {
        schema_version: d.schema_version,
        notes: d.notes,
        groups: d.groups,
        tombstones: Seq::empty(),
    }
}

/// A history grown by one board; the oldest one goes when it gets too long.
pub open spec fn remembered(undo: Seq<BoardView>, before: BoardView) -> Seq<BoardView> {
    let grown = undo.push(before);
    if grown.len() > MAX_HISTORY {
        grown.remove(0)
    } else {
        grown
    }
}

/// The desk after a change is recorded: what was there before can be undone,
/// and nothing can be redone. A change that changed nothing is not recorded.
pub open spec fn recorded(d: DeskView, before: BoardView) -> DeskView {
    if board_eq(snapshot_of(d), before) {
        d
    } else {
        DeskView { undo: remembered(d.undo, before), redo: Seq::empty(), ..d }
    }
}

/// The desk after the edit of a note is finished.
pub open spec fn committed(d: DeskView) -> DeskView {
    let kept = match d.edit_snapshot {
        Some(snapshot) => recorded(d, snapshot.board),
        None => d,
    };
    DeskView { edit_snapshot: None, editing: None, ..kept }
}

/// The desk after the edit of a group is finished.
pub open spec fn group_committed(d: DeskView) -> DeskView {
    let kept = match d.group_edit_snapshot {
        Some(snapshot) => recorded(d, snapshot.board),
        None => d,
    };
    DeskView { group_edit_snapshot: None, group_editing: None, ..kept }
}

/// The desk after every edit is finished.
pub open spec fn all_committed(d: DeskView) -> DeskView {
    group_committed(committed(d))
}

/// The desk after undo.
pub open spec fn undone(d: DeskView) -> DeskView {
    let c = committed(d);
    if c.undo.len() > 0 {
        DeskView {
            notes: c.undo.last().notes,
            groups: c.undo.last().groups,
            undo: c.undo.drop_last(),
            redo: c.redo.push(snapshot_of(c)),
            ..c
        }
    } else {
        c
    }
}

/// The desk after redo.
pub open spec fn redone(d: DeskView) -> DeskView {
    let c = committed(d);
    if c.redo.len() > 0 {
        DeskView {
            notes: c.redo.last().notes,
            groups: c.redo.last().groups,
            redo: c.redo.drop_last(),
            undo: c.undo.push(snapshot_of(c)),
            ..c
        }
    } else {
        c
    }
}

/// The position of the first note with the given id, or the number of notes.
pub open spec fn note_index(notes: Seq<NoteView>, id: u64) -> int
    decreases notes.len(),
{
    if notes.len() == 0 || notes[0].id == id {
        0
    } else {
        1 + note_index(notes.skip(1), id)
    }
}

/// The position of the first group with the given id, or the number of groups.
pub open spec fn group_index(groups: Seq<GroupView>, id: u64) -> int
    decreases groups.len(),
{
    if groups.len() == 0 || groups[0].id == id {
        0
    } else {
        1 + group_index(groups.skip(1), id)
    }
}

/// The notes with the first one of the given id changed.
pub open spec fn with_note(
    notes: Seq<NoteView>,
    id: u64,
    change: spec_fn(NoteView) -> NoteView,
) -> Seq<NoteView> {
    let i = note_index(notes, id);
    if i < notes.len() {
        notes.update(i, change(notes[i]))
    } else {
        notes
    }
}

/// The groups with the first one of the given id changed.
pub open spec fn with_group(
    groups: Seq<GroupView>,
    id: u64,
    change: spec_fn(GroupView) -> GroupView,
) -> Seq<GroupView> {
    let i = group_index(groups, id);
    if i < groups.len() {
        groups.update(i, change(groups[i]))
    } else {
        groups
    }
}

/// The desk after the notes were changed and the change recorded.
pub open spec fn notes_changed(d: DeskView, notes: Seq<NoteView>) -> DeskView {
    recorded(DeskView { notes, ..d }, snapshot_of(d))
}

/// The desk after notes and groups were changed and the change recorded.
pub open spec fn board_changed(
    d: DeskView,
    notes: Seq<NoteView>,
    groups: Seq<GroupView>,
) -> DeskView {
    recorded(DeskView { notes, groups, ..d }, snapshot_of(d))
}

/// Whether a note refers to a group.
pub open spec fn is_used(notes: Seq<NoteView>, id: u64) -> bool {
    exists|i: int| 0 <= i < notes.len() && (#[trigger] notes[i]).group_id == Some(id)
}

/// The groups that still have a note in them.
pub open spec fn used_groups(groups: Seq<GroupView>, notes: Seq<NoteView>) -> Seq<GroupView> {
    groups.filter(|g: GroupView| is_used(notes, g.id))
}

/// `note_index` is the least position with the id.
pub proof fn note_index_is_least(notes: Seq<NoteView>, id: u64)
    ensures
        0 <= note_index(notes, id) <= notes.len(),
        note_index(notes, id) < notes.len() ==> notes[note_index(notes, id)].id == id,
        forall|j: int| 0 <= j < note_index(notes, id) ==> (#[trigger] notes[j]).id != id,
    decreases notes.len(),
{
    if notes.len() > 0 && notes[0].id != id {
        note_index_is_least(notes.skip(1), id);
        assert forall|j: int| 0 <= j < note_index(notes, id) implies (#[trigger] notes[j]).id
            != id by {
            if j > 0 {
                assert(notes.skip(1)[j - 1] == notes[j]);
            }
        }
    }
}

/// `group_index` is the least position with the id.
pub proof fn group_index_is_least(groups: Seq<GroupView>, id: u64)
    ensures
        0 <= group_index(groups, id) <= groups.len(),
        group_index(groups, id) < groups.len() ==> groups[group_index(groups, id)].id == id,
        forall|j: int| 0 <= j < group_index(groups, id) ==> (#[trigger] groups[j]).id != id,
    decreases groups.len(),
{
    if groups.len() > 0 && groups[0].id != id {
        group_index_is_least(groups.skip(1), id);
        assert forall|j: int| 0 <= j < group_index(groups, id) implies (#[trigger] groups[j]).id
            != id by {
            if j > 0 {
                assert(groups.skip(1)[j - 1] == groups[j]);
            }
        }
    }
}

/// The position of the first note with the given id.
pub fn find_note(notes: &Vec<Note>, id: u64) -> (r: usize)
    ensures
        r == note_index(views(notes@), id),
        r <= notes@.len(),
{
    let ghost list = views(notes@);
    let mut i: usize = 0;
    while i < notes.len() && notes[i].id != id
        invariant
            list == views(notes@),
            i <= notes@.len(),
            forall|j: int| 0 <= j < i ==> (#[trigger] list[j]).id != id,
        decreases notes@.len() - i,
    {
        i = i + 1;
    }
    proof {
        note_index_is_least(list, id);
        let k = note_index(list, id);
        if k < i {
            assert(list[k].id != id);
        } else if i < k {
            assert(list[i as int].id != id);
        }
    }
    i
}

/// The position of the first group with the given id.
pub fn find_group(groups: &Vec<Group>, id: u64) -> (r: usize)
    ensures
        r == group_index(views(groups@), id),
        r <= groups@.len(),
{
    let ghost list = views(groups@);
    let mut i: usize = 0;
    while i < groups.len() && groups[i].id != id
        invariant
            list == views(groups@),
            i <= groups@.len(),
            forall|j: int| 0 <= j < i ==> (#[trigger] list[j]).id != id,
        decreases groups@.len() - i,
    {
        i = i + 1;
    }
    proof {
        group_index_is_least(list, id);
        let k = group_index(list, id);
        if k < i {
            assert(list[k].id != id);
        } else if i < k {
            assert(list[i as int].id != id);
        }
    }
    i
}

/// A copy of the first note with the given id.
pub fn note_snapshot(notes: &Vec<Note>, id: u64) -> (r: Option<Note>)
    ensures
        crate::lists::opt_view(r) == ({
            let i = note_index(views(notes@), id);
            if i < notes@.len() {
                Some(views(notes@)[i])
            } else {
                None
            }
        }),
{
    let i = find_note(notes, id);
    if i < notes.len() {
        Some(notes[i].clone())
    } else {
        None
    }
}

pub(crate) fn set_note(notes: &Vec<Note>, at: usize, note: Note) -> (r: Vec<Note>)
    requires
        at < notes@.len(),
    ensures
        views(r@) == views(notes@).update(at as int, note@),
{
    let mut out = clone_notes(notes);
    let ghost before = views(out@);
    assert(before.len() == views(notes@).len());
    out.set(at, note);
    assert(views(out@) =~= before.update(at as int, note@));
    out
}

pub(crate) fn set_group(groups: &Vec<Group>, at: usize, group: Group) -> (r: Vec<Group>)
    requires
        at < groups@.len(),
    ensures
        views(r@) == views(groups@).update(at as int, group@),
{
    let mut out = clone_groups(groups);
    let ghost before = views(out@);
    assert(before.len() == views(groups@).len());
    out.set(at, group);
    assert(views(out@) =~= before.update(at as int, group@));
    out
}

/// Whether a note refers to a group.
pub fn group_is_used(notes: &Vec<Note>, id: u64) -> (r: bool)
    ensures
        r == is_used(views(notes@), id),
{
    let ghost list = views(notes@);
    let mut i: usize = 0;
    while i < notes.len()
        invariant
            list == views(notes@),
            i <= notes@.len(),
            forall|j: int| 0 <= j < i ==> (#[trigger] list[j]).group_id != Some(id),
        decreases notes@.len() - i,
    {
        assert(list[i as int] == notes@[i as int]@);
        if notes[i].group_id == Some(id) {
            return true;
        }
        i = i + 1;
    }
    false
}

pub(crate) fn keep_used_groups(groups: &Vec<Group>, notes: &Vec<Note>) -> (r: Vec<Group>)
    ensures
        views(r@) == used_groups(views(groups@), views(notes@)),
{
    broadcast use views_push;

    let ghost list = views(groups@);
    let ghost pred = |g: GroupView| is_used(views(notes@), g.id);
    let mut out: Vec<Group> = Vec::new();
    proof {
        filter_ends(list, pred);
    }
    assert(views(out@) =~= list.take(0).filter(pred));
    let mut i: usize = 0;
    while i < groups.len()
        invariant
            list == views(groups@),
            pred == (|g: GroupView| is_used(views(notes@), g.id)),
            i <= groups@.len(),
            views(out@) == list.take(i as int).filter(pred),
        decreases groups@.len() - i,
    {
        proof {
            filter_step(list, pred, i as int);
        }
        if group_is_used(notes, groups[i].id) {
            out.push(groups[i].clone());
        }
        i = i + 1;
    }
    out
}

impl Desk {
    /// A desk with a board on it and nothing else.
    pub fn new(schema_version: u32, notes: Vec<Note>, groups: Vec<Group>) -> (r: Self)
        ensures
            r@ == fresh_desk(schema_version, views(notes@), views(groups@)),
    {
        let r = Desk {
            schema_version,
            notes,
            groups,
            history: History { undo: Vec::new(), redo: Vec::new() },
            selection: Vec::new(),
            editing: None,
            edit_snapshot: None,
            group_editing: None,
            group_edit_snapshot: None,
        };
        assert(r@.undo =~= Seq::empty());
        assert(r@.redo =~= Seq::empty());
        r
    }

    /// The board on the desk.
    pub fn board_snapshot(&self) -> (r: BoardData)
        ensures
            r@ == snapshot_of(self@),
    {
        let r = BoardData {
            schema_version: self.schema_version,
            notes: clone_notes(&self.notes),
            groups: clone_groups(&self.groups),
            tombstones: Vec::new(),
        };
        assert(r@.tombstones =~= Seq::empty());
        r
    }

    /// Records a change, given the board before it.
    pub fn record_snapshot(&mut self, before: BoardData)
        ensures
            final(self)@ == recorded(old(self)@, before@),
    {
        broadcast use views_push;

        if same_board(&self.board_snapshot(), &before) {
            return;
        }
        let ghost undo = views(self.history.undo@);
        self.history.undo.push(before);
        if self.history.undo.len() > MAX_HISTORY {
            let ghost grown = self.history.undo@;
            self.history.undo.remove(0);
            assert(views(self.history.undo@) =~= views(grown).remove(0));
        }
        self.history.redo = Vec::new();
        assert(views(self.history.redo@) =~= Seq::empty());
    }

    /// Finishes the edit of a note.
    pub fn commit_pending_edit(&mut self)
        ensures
            final(self)@ == committed(old(self)@),
    {
        if let Some(snapshot) = self.edit_snapshot.take() {
            self.record_snapshot(snapshot.board);
        }
        self.editing = None;
    }

    /// Finishes the edit of a group.
    pub fn commit_pending_group_edit(&mut self)
        ensures
            final(self)@ == group_committed(old(self)@),
    {
        if let Some(snapshot) = self.group_edit_snapshot.take() {
            self.record_snapshot(snapshot.board);
        }
        self.group_editing = None;
    }

    /// Goes back to the board before the last change.
    pub fn undo(&mut self)
        ensures
            final(self)@ == undone(old(self)@),
    {
        broadcast use views_push;

        self.commit_pending_edit();
        let ghost c = self@;
        let current = self.board_snapshot();
        let ghost undo = self.history.undo@;
        if let Some(previous) = self.history.undo.pop() {
            assert(views(self.history.undo@) =~= c.undo.drop_last());
            assert(previous@ == c.undo.last());
            self.history.redo.push(current);
            self.notes = previous.notes;
            self.groups = previous.groups;
        } else {
            assert(c.undo.len() == 0);
        }
    }

    /// Goes forward to the board that undo left.
    pub fn redo(&mut self)
        ensures
            final(self)@ == redone(old(self)@),
    {
        broadcast use views_push;

        self.commit_pending_edit();
        let ghost c = self@;
        let current = self.board_snapshot();
        if let Some(next) = self.history.redo.pop() {
            assert(views(self.history.redo@) =~= c.redo.drop_last());
            assert(next@ == c.redo.last());
            self.history.undo.push(current);
            self.notes = next.notes;
            self.groups = next.groups;
        } else {
            assert(c.redo.len() == 0);
        }
    }
}

/// A desk with a board on it and nothing else.
pub open spec fn fresh_desk(
    schema_version: u32,
    notes: Seq<NoteView>,
    groups: Seq<GroupView>,
) -> DeskView {
    DeskView {
        schema_version,
        notes,
        groups,
        undo: Seq::empty(),
        redo: Seq::empty(),
        selection: Seq::empty(),
        editing: None,
        edit_snapshot: None,
        group_editing: None,
        group_edit_snapshot: None,
    }
}

/// Whether undo and redo together hold no more boards than the history may.
pub open spec fn history_fits(d: DeskView) -> bool {
    d.undo.len() + d.redo.len() <= MAX_HISTORY
}

/// Recording, finishing an edit, undo and redo keep the history within its
/// bound.
pub proof fn history_stays_bounded(d: DeskView, before: BoardView)
    requires
        history_fits(d),
    ensures
        history_fits(recorded(d, before)),
        history_fits(committed(d)),
        history_fits(group_committed(d)),
        history_fits(undone(d)),
        history_fits(redone(d)),
{
}

/// Redo takes back what undo did: the board is as it was once the pending edit
/// is finished, and undo and redo lead to the same boards again.
pub proof fn redo_reverts_undo(d: DeskView)
    requires
        committed(d).undo.len() > 0,
    ensures
        ({
            let c = committed(d);
            let r = redone(undone(d));
            &&& r.notes == c.notes
            &&& r.groups == c.groups
            &&& r.redo == c.redo
            &&& r.undo.len() == c.undo.len()
            &&& r.undo.drop_last() == c.undo.drop_last()
            &&& r.undo.last().notes == c.undo.last().notes
            &&& r.undo.last().groups == c.undo.last().groups
        }),
{
    let c = committed(d);
    let u = undone(d);
    assert(committed(u) == u);
    assert(u.redo.drop_last() =~= c.redo);
    assert(u.undo.push(snapshot_of(u)).drop_last() =~= c.undo.drop_last());
}

/// Undo takes back a change that was recorded: the notes and groups are those
/// before it.
pub proof fn undo_reverts_a_change(d: DeskView, notes: Seq<NoteView>, groups: Seq<GroupView>)
    requires
        d.edit_snapshot is None,
        !board_eq(snapshot_of(DeskView { notes, groups, ..d }), snapshot_of(d)),
    ensures
        undone(board_changed(d, notes, groups)).notes == d.notes,
        undone(board_changed(d, notes, groups)).groups == d.groups,
{
    let r = board_changed(d, notes, groups);
    assert(r.undo.len() > 0);
    assert(r.undo.last() == snapshot_of(d)) by {
        let grown = d.undo.push(snapshot_of(d));
        if grown.len() > MAX_HISTORY {
            assert(grown.remove(0).last() == grown.last());
        }
    }
    assert(committed(r).undo == r.undo);
}

/// Every group that is kept has a note in it, and every group with a note in
/// it is kept.
pub proof fn kept_groups_are_used(groups: Seq<GroupView>, notes: Seq<NoteView>, g: GroupView)
    ensures
        used_groups(groups, notes).contains(g) == (groups.contains(g) && is_used(notes, g.id)),
{
    let pred = |g: GroupView| is_used(notes, g.id);
    let kept = groups.filter(pred);
    if kept.contains(g) {
        let k = kept.index_of(g);
        crate::lists::filter_member(groups, pred, k);
    }
    if groups.contains(g) && is_used(notes, g.id) {
        let i = groups.index_of(g);
        crate::lists::filter_keeps(groups, pred, i);
    }
}

/// A change is recorded where it changed the board: what was there before is
/// what undo brings back next, nothing can be redone, and the older boards stay
/// as long as there is room. The board itself is not touched.
pub proof fn changes_are_recorded(d: DeskView, before: BoardView)
    ensures
        ({
            let r = recorded(d, before);
            &&& r.notes == d.notes
            &&& r.groups == d.groups
            &&& r.selection == d.selection
            &&& r.editing == d.editing
            &&& r.group_editing == d.group_editing
            &&& board_eq(snapshot_of(d), before) ==> r == d
            &&& !board_eq(snapshot_of(d), before) ==> {
                &&& r.redo.len() == 0
                &&& r.undo.len() > 0
                &&& r.undo.last() == before
                &&& d.undo.len() < 100 ==> r.undo.drop_last() == d.undo
                &&& d.undo.len() == 100 ==> r.undo.drop_last() == d.undo.skip(1)
            }
        }),
{
    let r = recorded(d, before);
    if !board_eq(snapshot_of(d), before) {
        if d.undo.len() < 100 {
            assert(r.undo.drop_last() =~= d.undo);
        } else if d.undo.len() == 100 {
            assert(r.undo.drop_last() =~= d.undo.skip(1));
        }
    }
}

/// Undo and redo go one board at a time, and without a board to go to they
/// only finish the edit.
pub proof fn histories_go_one_step(d: DeskView)
    requires
        d.edit_snapshot is None,
    ensures
        d.undo.len() == 0 ==> undone(d).notes == d.notes && undone(d).groups == d.groups && undone(
            d,
        ).redo == d.redo,
        d.redo.len() == 0 ==> redone(d).notes == d.notes && redone(d).groups == d.groups && redone(
            d,
        ).undo == d.undo,
        d.undo.len() > 0 ==> {
            let r = undone(d);
            &&& r.notes == d.undo.last().notes
            &&& r.groups == d.undo.last().groups
            &&& r.undo == d.undo.drop_last()
            &&& r.redo.len() == d.redo.len() + 1
            &&& r.redo.drop_last() == d.redo
            &&& r.redo.last().notes == d.notes
            &&& r.redo.last().groups == d.groups
            &&& r.selection == d.selection
            &&& r.group_editing == d.group_editing
        },
        d.redo.len() > 0 ==> {
            let r = redone(d);
            &&& r.notes == d.redo.last().notes
            &&& r.groups == d.redo.last().groups
            &&& r.redo == d.redo.drop_last()
            &&& r.undo.len() == d.undo.len() + 1
            &&& r.undo.drop_last() == d.undo
            &&& r.undo.last().notes == d.notes
            &&& r.undo.last().groups == d.groups
            &&& r.selection == d.selection
        },
        undone(d).editing is None,
        redone(d).editing is None,
{
    if d.undo.len() > 0 {
        assert(undone(d).redo.drop_last() =~= d.redo);
    }
    if d.redo.len() > 0 {
        assert(redone(d).undo.drop_last() =~= d.undo);
    }
}

/// A finished edit is recorded as a change since it began.
pub proof fn finished_edits_are_recorded(d: DeskView, s: SnapshotView)
    requires
        d.undo.len() <= 100,
    ensures
        d.edit_snapshot == Some(s) && !board_eq(snapshot_of(d), s.board) ==> {
            &&& committed(d).undo.last() == s.board
            &&& committed(d).redo.len() == 0
        },
        d.edit_snapshot == Some(s) && board_eq(snapshot_of(d), s.board) ==> {
            &&& committed(d).undo == d.undo
            &&& committed(d).redo == d.redo
        },
        d.edit_snapshot is None ==> committed(d).undo == d.undo && committed(d).redo == d.redo,
        d.group_edit_snapshot == Some(s) && !board_eq(snapshot_of(d), s.board) ==> {
            &&& group_committed(d).undo.last() == s.board
            &&& group_committed(d).redo.len() == 0
        },
        d.group_edit_snapshot is None ==> group_committed(d).undo == d.undo && group_committed(
            d,
        ).redo == d.redo,
        group_committed(d).notes == d.notes,
        group_committed(d).groups == d.groups,
        group_committed(d).editing == d.editing,
        group_committed(d).group_editing is None,
{
    changes_are_recorded(d, s.board);
}

/// A new desk shows the board that it was given, with nothing selected, nothing
/// being edited and nothing to undo or redo. A snapshot of it is that board.
pub proof fn new_desks_show_the_board(
    schema_version: u32,
    notes: Seq<NoteView>,
    groups: Seq<GroupView>,
)
    ensures
        ({
            let d = fresh_desk(schema_version, notes, groups);
            &&& d.notes == notes
            &&& d.groups == groups
            &&& d.selection.len() == 0
            &&& d.undo.len() == 0
            &&& d.redo.len() == 0
            &&& d.editing is None
            &&& d.group_editing is None
            &&& d.edit_snapshot is None
            &&& d.group_edit_snapshot is None
            &&& snapshot_of(d).notes == notes
            &&& snapshot_of(d).groups == groups
            &&& snapshot_of(d).schema_version == schema_version
            &&& snapshot_of(d).tombstones.len() == 0
        }),
{
}

/// A snapshot holds what is on the desk and nothing else; a group is used where
/// a note is in it.
pub proof fn snapshots_hold_the_desk(d: DeskView, id: u64, k: int)
    ensures
        snapshot_of(d).notes == d.notes,
        snapshot_of(d).groups == d.groups,
        snapshot_of(d).tombstones.len() == 0,
        0 <= k < d.notes.len() && d.notes[k].group_id == Some(id) ==> is_used(d.notes, id),
        (forall|i: int| 0 <= i < d.notes.len() ==> (#[trigger] d.notes[i]).group_id != Some(id))
            ==> !is_used(d.notes, id),
{
}

} // verus!
