//! Notes, groups, boards, spaces and workspaces, and their mathematical views.
use vstd::prelude::*;

use crate::text::clone_opt;
use crate::text::opt_text_eq;
use crate::lists::opt_view;
use crate::lists::views;

verus! {

/// The colour of a note.
#[derive(Clone, Copy, Debug, PartialEq, Eq, Structural)]
pub enum NoteColor {
    Yellow,
    Pink,
    Blue,
    Green,
    Lavender,
}

/// How far a note's task has come.
#[derive(Clone, Copy, Debug, PartialEq, Eq, Structural)]
pub enum NoteStatus {
    Todo,
    InProgress,
    Done,
}

/// What kind of entity a tombstone stands for.
#[derive(Clone, Copy, Debug, PartialEq, Eq, Structural)]
pub enum TombstoneKind {
    Note,
    Group,
    Space,
}

/// A coordinate of the canvas, held as the bits of a double-precision number.
#[derive(Clone, Copy, Debug, PartialEq, Eq, Structural)]
pub struct Coordinate {
    pub bits: u64,
}

/// A task note on a board.
#[derive(Debug, PartialEq)]
pub struct Note {
    pub id: u64,
    pub stable_id: String,
    pub text: String,
    pub color: NoteColor,
    pub status: NoteStatus,
    pub due_date: Option<String>,
    pub x: Coordinate,
    pub y: Coordinate,
    pub rotation: i32,
    pub group_id: Option<u64>,
    pub group_stable_id: Option<String>,
    pub created_at: u64,
    pub updated_at: u64,
    pub deleted_at: Option<u64>,
}

/// A labelled frame around notes.
#[derive(Debug, PartialEq)]
pub struct Group {
    pub id: u64,
    pub stable_id: String,
    pub label: String,
    pub origin: Option<(Coordinate, Coordinate)>,
    pub size: Option<(Coordinate, Coordinate)>,
    pub created_at: u64,
    pub updated_at: u64,
    pub deleted_at: Option<u64>,
}

/// The trace that a deleted entity leaves behind.
#[derive(Debug, PartialEq)]
pub struct Tombstone {
    pub kind: TombstoneKind,
    pub id: u64,
    pub stable_id: String,
    pub deleted_at: u64,
}

/// The notes and groups of one space.
#[derive(Debug, PartialEq)]
pub struct BoardData {
    pub schema_version: u32,
    pub notes: Vec<Note>,
    pub groups: Vec<Group>,
    pub tombstones: Vec<Tombstone>,
}

/// A named board with its place in the workspace.
#[derive(Debug, PartialEq)]
pub struct Space {
    pub id: u64,
    pub stable_id: String,
    pub name: String,
    pub sync_enabled: bool,
    pub sync_override: Option<bool>,
    pub metadata_version: u64,
    pub archived: bool,
    pub created_at: u64,
    pub updated_at: u64,
    pub deleted_at: Option<u64>,
    pub board: BoardData,
}

/// Everything that one principal keeps on a device.
#[derive(Debug, PartialEq)]
pub struct WorkspaceData {
    pub schema_version: u32,
    pub device_id: String,
    pub tombstones: Vec<Tombstone>,
    pub spaces: Vec<Space>,
    pub active_space_id: u64,
}

/// A note with its texts as character sequences.
pub struct NoteView {
    pub id: u64,
    pub stable_id: Seq<char>,
    pub text: Seq<char>,
    pub color: NoteColor,
    pub status: NoteStatus,
    pub due_date: Option<Seq<char>>,
    pub x: Coordinate,
    pub y: Coordinate,
    pub rotation: i32,
    pub group_id: Option<u64>,
    pub group_stable_id: Option<Seq<char>>,
    pub created_at: u64,
    pub updated_at: u64,
    pub deleted_at: Option<u64>,
}

/// A group with its texts as character sequences.
pub struct GroupView {
    pub id: u64,
    pub stable_id: Seq<char>,
    pub label: Seq<char>,
    pub origin: Option<(Coordinate, Coordinate)>,
    pub size: Option<(Coordinate, Coordinate)>,
    pub created_at: u64,
    pub updated_at: u64,
    pub deleted_at: Option<u64>,
}

/// A tombstone with its text as a character sequence.
pub struct TombstoneView {
    pub kind: TombstoneKind,
    pub id: u64,
    pub stable_id: Seq<char>,
    pub deleted_at: u64,
}

/// A board as sequences of views.
pub struct BoardView {
    pub schema_version: u32,
    pub notes: Seq<NoteView>,
    pub groups: Seq<GroupView>,
    pub tombstones: Seq<TombstoneView>,
}

/// A space with its board as a view.
pub struct SpaceView {
    pub id: u64,
    pub stable_id: Seq<char>,
    pub name: Seq<char>,
    pub sync_enabled: bool,
    pub sync_override: Option<bool>,
    pub metadata_version: u64,
    pub archived: bool,
    pub created_at: u64,
    pub updated_at: u64,
    pub deleted_at: Option<u64>,
    pub board: BoardView,
}

/// A workspace as sequences of views.
pub struct WorkspaceView {
    pub schema_version: u32,
    pub device_id: Seq<char>,
    pub tombstones: Seq<TombstoneView>,
    pub spaces: Seq<SpaceView>,
    pub active_space_id: u64,
}

impl View for Note {
    type V = NoteView;

    open spec fn view(&self) -> NoteView {
        NoteView {
            id: self.id,
            stable_id: self.stable_id@,
            text: self.text@,
            color: self.color,
            status: self.status,
            due_date: opt_view(self.due_date),
            x: self.x,
            y: self.y,
            rotation: self.rotation,
            group_id: self.group_id,
            group_stable_id: opt_view(self.group_stable_id),
            created_at: self.created_at,
            updated_at: self.updated_at,
            deleted_at: self.deleted_at,
        }
    }
}

impl View for Group {
    type V = GroupView;

    open spec fn view(&self) -> GroupView {
        GroupView {
            id: self.id,
            stable_id: self.stable_id@,
            label: self.label@,
            origin: self.origin,
            size: self.size,
            created_at: self.created_at,
            updated_at: self.updated_at,
            deleted_at: self.deleted_at,
        }
    }
}

impl View for Tombstone {
    type V = TombstoneView;

    open spec fn view(&self) -> TombstoneView {
        TombstoneView {
            kind: self.kind,
            id: self.id,
            stable_id: self.stable_id@,
            deleted_at: self.deleted_at,
        }
    }
}

impl View for BoardData {
    type V = BoardView;

    open spec fn view(&self) -> BoardView {
        BoardView {
            schema_version: self.schema_version,
            notes: views(self.notes@),
            groups: views(self.groups@),
            tombstones: views(self.tombstones@),
        }
    }
}

impl View for Space {
    type V = SpaceView;

    open spec fn view(&self) -> SpaceView {
        SpaceView {
            id: self.id,
            stable_id: self.stable_id@,
            name: self.name@,
            sync_enabled: self.sync_enabled,
            sync_override: self.sync_override,
            metadata_version: self.metadata_version,
            archived: self.archived,
            created_at: self.created_at,
            updated_at: self.updated_at,
            deleted_at: self.deleted_at,
            board: self.board@,
        }
    }
}

impl View for WorkspaceData {
    type V = WorkspaceView;

    open spec fn view(&self) -> WorkspaceView {
        WorkspaceView {
            schema_version: self.schema_version,
            device_id: self.device_id@,
            tombstones: views(self.tombstones@),
            spaces: views(self.spaces@),
            active_space_id: self.active_space_id,
        }
    }
}

impl Clone for Note {
    fn clone(&self) -> (r: Self)
        ensures
            r@ == self@,
    {
        Note {
            id: self.id,
            stable_id: self.stable_id.clone(),
            text: self.text.clone(),
            color: self.color,
            status: self.status,
            due_date: clone_opt(&self.due_date),
            x: self.x,
            y: self.y,
            rotation: self.rotation,
            group_id: self.group_id,
            group_stable_id: clone_opt(&self.group_stable_id),
            created_at: self.created_at,
            updated_at: self.updated_at,
            deleted_at: self.deleted_at,
        }
    }
}

impl Clone for Group {
    fn clone(&self) -> (r: Self)
        ensures
            r@ == self@,
    {
        Group {
            id: self.id,
            stable_id: self.stable_id.clone(),
            label: self.label.clone(),
            origin: self.origin,
            size: self.size,
            created_at: self.created_at,
            updated_at: self.updated_at,
            deleted_at: self.deleted_at,
        }
    }
}

impl Clone for Tombstone {
    fn clone(&self) -> (r: Self)
        ensures
            r@ == self@,
    {
        Tombstone {
            kind: self.kind,
            id: self.id,
            stable_id: self.stable_id.clone(),
            deleted_at: self.deleted_at,
        }
    }
}

/// Copies a list of notes.
pub fn clone_notes(v: &Vec<Note>) -> (r: Vec<Note>)
    ensures
        views(r@) == views(v@),
{
    let r = v.clone();
    assert forall|i: int| 0 <= i < v@.len() implies #[trigger] r@[i]@ == v@[i]@ by {
        assert(cloned(v@[i], r@[i]));
    }
    assert(views(r@) =~= views(v@));
    r
}

/// Copies a list of groups.
pub fn clone_groups(v: &Vec<Group>) -> (r: Vec<Group>)
    ensures
        views(r@) == views(v@),
{
    let r = v.clone();
    assert forall|i: int| 0 <= i < v@.len() implies #[trigger] r@[i]@ == v@[i]@ by {
        assert(cloned(v@[i], r@[i]));
    }
    assert(views(r@) =~= views(v@));
    r
}

/// Copies a list of tombstones.
pub fn clone_tombstones(v: &Vec<Tombstone>) -> (r: Vec<Tombstone>)
    ensures
        views(r@) == views(v@),
{
    let r = v.clone();
    assert forall|i: int| 0 <= i < v@.len() implies #[trigger] r@[i]@ == v@[i]@ by {
        assert(cloned(v@[i], r@[i]));
    }
    assert(views(r@) =~= views(v@));
    r
}

impl Clone for BoardData {
    fn clone(&self) -> (r: Self)
        ensures
            r@ == self@,
    {
        BoardData {
            schema_version: self.schema_version,
            notes: clone_notes(&self.notes),
            groups: clone_groups(&self.groups),
            tombstones: clone_tombstones(&self.tombstones),
        }
    }
}

impl Clone for Space {
    fn clone(&self) -> (r: Self)
        ensures
            r@ == self@,
    {
        Space {
            id: self.id,
            stable_id: self.stable_id.clone(),
            name: self.name.clone(),
            sync_enabled: self.sync_enabled,
            sync_override: self.sync_override,
            metadata_version: self.metadata_version,
            archived: self.archived,
            created_at: self.created_at,
            updated_at: self.updated_at,
            deleted_at: self.deleted_at,
            board: self.board.clone(),
        }
    }
}

/// Copies a list of spaces.
pub fn clone_spaces(v: &Vec<Space>) -> (r: Vec<Space>)
    ensures
        views(r@) == views(v@),
{
    let r = v.clone();
    assert forall|i: int| 0 <= i < v@.len() implies #[trigger] r@[i]@ == v@[i]@ by {
        assert(cloned(v@[i], r@[i]));
    }
    assert(views(r@) =~= views(v@));
    r
}

impl Clone for WorkspaceData {
    fn clone(&self) -> (r: Self)
        ensures
            r@ == self@,
    {
        WorkspaceData {
            schema_version: self.schema_version,
            device_id: self.device_id.clone(),
            tombstones: clone_tombstones(&self.tombstones),
            spaces: clone_spaces(&self.spaces),
            active_space_id: self.active_space_id,
        }
    }
}

/// A board of the given schema version with nothing on it.
pub open spec fn blank_board(schema_version: u32) -> BoardView {
    BoardView {
        schema_version,
        notes: Seq::empty(),
        groups: Seq::empty(),
        tombstones: Seq::empty(),
    }
}

/// A board with nothing on it.
pub fn empty_board(schema_version: u32) -> (r: BoardData)
    ensures
        r@ == blank_board(schema_version),
{
    let r = BoardData {
        schema_version,
        notes: Vec::new(),
        groups: Vec::new(),
        tombstones: Vec::new(),
    };
    assert(r@.notes =~= Seq::empty());
    assert(r@.groups =~= Seq::empty());
    assert(r@.tombstones =~= Seq::empty());
    r
}

/// The bits of a coordinate without its sign.
pub open spec fn magnitude(c: Coordinate) -> int {
    (c.bits as int) % 0x8000_0000_0000_0000
}

/// Whether the bits stand for no number at all.
pub open spec fn is_nan(c: Coordinate) -> bool {
    magnitude(c) > 0x7ff0_0000_0000_0000
}

/// Whether two coordinates are equal as numbers: the two zeros are equal, and
/// what is no number equals nothing.
pub open spec fn coordinate_eq(a: Coordinate, b: Coordinate) -> bool {
    &&& !is_nan(a)
    &&& !is_nan(b)
    &&& a == b || (magnitude(a) == 0 && magnitude(b) == 0)
}

/// Whether two coordinates are equal as numbers.
pub fn same_coordinate(a: Coordinate, b: Coordinate) -> (r: bool)
    ensures
        r == coordinate_eq(a, b),
{
    let ma: u64 = a.bits % 0x8000_0000_0000_0000;
    let mb: u64 = b.bits % 0x8000_0000_0000_0000;
    if ma > 0x7ff0_0000_0000_0000 || mb > 0x7ff0_0000_0000_0000 {
        false
    } else {
        a.bits == b.bits || (ma == 0 && mb == 0)
    }
}

/// Whether two optional points are both absent, or both present and equal.
pub open spec fn point_eq(
    a: Option<(Coordinate, Coordinate)>,
    b: Option<(Coordinate, Coordinate)>,
) -> bool {
    match (a, b) {
        (Some(p), Some(q)) => coordinate_eq(p.0, q.0) && coordinate_eq(p.1, q.1),
        (None, None) => true,
        _ => false,
    }
}

/// Whether two optional points are equal.
pub fn same_point(
    a: &Option<(Coordinate, Coordinate)>,
    b: &Option<(Coordinate, Coordinate)>,
) -> (r: bool)
    ensures
        r == point_eq(*a, *b),
{
    match (a, b) {
        (Some(p), Some(q)) => same_coordinate(p.0, q.0) && same_coordinate(p.1, q.1),
        (None, None) => true,
        _ => false,
    }
}

/// Whether two notes are equal field by field, positions as numbers.
pub open spec fn note_eq(a: NoteView, b: NoteView) -> bool {
    &&& coordinate_eq(a.x, b.x)
    &&& coordinate_eq(a.y, b.y)
    &&& (NoteView { x: b.x, y: b.y, ..a }) == b
}

/// Whether two groups are equal field by field, frames as numbers.
pub open spec fn group_eq(a: GroupView, b: GroupView) -> bool {
    &&& point_eq(a.origin, b.origin)
    &&& point_eq(a.size, b.size)
    &&& (GroupView { origin: b.origin, size: b.size, ..a }) == b
}

/// Whether two boards hold equal notes, groups and tombstones in the same
/// order under the same schema version.
pub open spec fn board_eq(a: BoardView, b: BoardView) -> bool {
    &&& a.schema_version == b.schema_version
    &&& a.notes.len() == b.notes.len()
    &&& a.groups.len() == b.groups.len()
    &&& forall|i: int| 0 <= i < a.notes.len() ==> note_eq(#[trigger] a.notes[i], b.notes[i])
    &&& forall|i: int| 0 <= i < a.groups.len() ==> group_eq(#[trigger] a.groups[i], b.groups[i])
    &&& a.tombstones == b.tombstones
}

/// Whether two notes are equal.
pub fn same_note(a: &Note, b: &Note) -> (r: bool)
    ensures
        r == note_eq(a@, b@),
{
    a.id == b.id && a.stable_id == b.stable_id && a.text == b.text && a.color == b.color && a.status
        == b.status && opt_text_eq(&a.due_date, &b.due_date) && same_coordinate(a.x, b.x)
        && same_coordinate(a.y, b.y) && a.rotation == b.rotation && a.group_id == b.group_id
        && opt_text_eq(&a.group_stable_id, &b.group_stable_id) && a.created_at == b.created_at
        && a.updated_at == b.updated_at && a.deleted_at == b.deleted_at
}

/// Whether two groups are equal.
pub fn same_group(a: &Group, b: &Group) -> (r: bool)
    ensures
        r == group_eq(a@, b@),
{
    a.id == b.id && a.stable_id == b.stable_id && a.label == b.label && same_point(
        &a.origin,
        &b.origin,
    ) && same_point(&a.size, &b.size) && a.created_at == b.created_at && a.updated_at
        == b.updated_at && a.deleted_at == b.deleted_at
}

/// Whether two tombstones are equal.
pub fn same_tombstone(a: &Tombstone, b: &Tombstone) -> (r: bool)
    ensures
        r == (a@ == b@),
{
    a.kind == b.kind && a.id == b.id && a.stable_id == b.stable_id && a.deleted_at == b.deleted_at
}

/// Whether two boards are equal.
pub fn same_board(a: &BoardData, b: &BoardData) -> (r: bool)
    ensures
        r == board_eq(a@, b@),
{
    if a.schema_version != b.schema_version || a.notes.len() != b.notes.len() || a.groups.len()
        != b.groups.len() || a.tombstones.len() != b.tombstones.len() {
        assert(a@.tombstones.len() == a.tombstones@.len());
        assert(b@.tombstones.len() == b.tombstones@.len());
        return false;
    }
    let mut i: usize = 0;
    while i < a.notes.len()
        invariant
            i <= a.notes@.len() == b.notes@.len(),
            forall|j: int| 0 <= j < i ==> note_eq(#[trigger] a@.notes[j], b@.notes[j]),
        decreases a.notes@.len() - i,
    {
        if !same_note(&a.notes[i], &b.notes[i]) {
            assert(!note_eq(a@.notes[i as int], b@.notes[i as int]));
            return false;
        }
        i = i + 1;
    }
    let mut j: usize = 0;
    while j < a.groups.len()
        invariant
            j <= a.groups@.len() == b.groups@.len(),
            forall|k: int| 0 <= k < j ==> group_eq(#[trigger] a@.groups[k], b@.groups[k]),
        decreases a.groups@.len() - j,
    {
        if !same_group(&a.groups[j], &b.groups[j]) {
            assert(!group_eq(a@.groups[j as int], b@.groups[j as int]));
            return false;
        }
        j = j + 1;
    }
    let mut k: usize = 0;
    while k < a.tombstones.len()
        invariant
            k <= a.tombstones@.len() == b.tombstones@.len(),
            forall|l: int| 0 <= l < k ==> #[trigger] a@.tombstones[l] == b@.tombstones[l],
        decreases a.tombstones@.len() - k,
    {
        if !same_tombstone(&a.tombstones[k], &b.tombstones[k]) {
            assert(a@.tombstones[k as int] != b@.tombstones[k as int]);
            return false;
        }
        k = k + 1;
    }
    assert(a@.tombstones =~= b@.tombstones);
    true
}

/// Boards that are equal hold the same notes and groups in the same places:
/// everything of them but the position is the same, and positions of the same
/// bits that are numbers are equal.
pub proof fn equal_boards_hold_the_same(a: BoardView, b: BoardView, i: int)
    requires
        board_eq(a, b),
    ensures
        a.schema_version == b.schema_version,
        a.notes.len() == b.notes.len(),
        a.groups.len() == b.groups.len(),
        a.tombstones == b.tombstones,
        0 <= i < a.notes.len() ==> {
            let n = a.notes[i];
            let m = b.notes[i];
            &&& n.id == m.id
            &&& n.stable_id == m.stable_id
            &&& n.text == m.text
            &&& n.color == m.color
            &&& n.status == m.status
            &&& n.due_date == m.due_date
            &&& n.rotation == m.rotation
            &&& n.group_id == m.group_id
            &&& n.group_stable_id == m.group_stable_id
            &&& n.created_at == m.created_at
            &&& n.updated_at == m.updated_at
            &&& n.deleted_at == m.deleted_at
            &&& n.x.bits == m.x.bits || (n.x.bits % 0x8000_0000_0000_0000 == 0 && m.x.bits
                % 0x8000_0000_0000_0000 == 0)
            &&& n.y.bits == m.y.bits || (n.y.bits % 0x8000_0000_0000_0000 == 0 && m.y.bits
                % 0x8000_0000_0000_0000 == 0)
        },
        0 <= i < a.groups.len() ==> {
            let g = a.groups[i];
            let h = b.groups[i];
            &&& g.id == h.id
            &&& g.stable_id == h.stable_id
            &&& g.label == h.label
            &&& g.origin is Some == h.origin is Some
            &&& g.size is Some == h.size is Some
            &&& g.created_at == h.created_at
            &&& g.updated_at == h.updated_at
            &&& g.deleted_at == h.deleted_at
        },
{
    if 0 <= i < a.notes.len() {
        assert(note_eq(a.notes[i], b.notes[i]));
    }
    if 0 <= i < a.groups.len() {
        assert(group_eq(a.groups[i], b.groups[i]));
    }
}

/// Whether a point is absent or made of two numbers.
pub open spec fn is_plain_point(p: Option<(Coordinate, Coordinate)>) -> bool {
    p matches Some(xy) ==> xy.0.bits % 0x8000_0000_0000_0000 <= 0x7ff0_0000_0000_0000 && xy.1.bits
        % 0x8000_0000_0000_0000 <= 0x7ff0_0000_0000_0000
}

/// A board whose positions and frames are numbers is equal to itself.
pub proof fn boards_of_numbers_equal_themselves(b: BoardView)
    requires
        forall|i: int|
            0 <= i < b.notes.len() ==> is_plain_point(
                Some(((#[trigger] b.notes[i]).x, b.notes[i].y)),
            ),
        forall|i: int|
            0 <= i < b.groups.len() ==> is_plain_point((#[trigger] b.groups[i]).origin)
                && is_plain_point(b.groups[i].size),
    ensures
        board_eq(b, b),
{
    assert forall|i: int| 0 <= i < b.notes.len() implies note_eq(#[trigger] b.notes[i], b.notes[i]) by {
        assert(is_plain_point(Some((b.notes[i].x, b.notes[i].y))));
    }
}

/// Two coordinates are equal exactly where both are numbers and have the same
/// bits or are both zero.
pub proof fn coordinates_are_equal_as_numbers(a: Coordinate, b: Coordinate)
    ensures
        coordinate_eq(a, b) == (a.bits % 0x8000_0000_0000_0000 <= 0x7ff0_0000_0000_0000 && b.bits
            % 0x8000_0000_0000_0000 <= 0x7ff0_0000_0000_0000 && (a.bits == b.bits || (a.bits
            % 0x8000_0000_0000_0000 == 0 && b.bits % 0x8000_0000_0000_0000 == 0))),
        point_eq(Some((a, b)), Some((b, a))) == coordinate_eq(a, b),
        !point_eq(Some((a, b)), None),
        !point_eq(None, Some((a, b))),
        point_eq(None, None),
{
}

/// An empty board has nothing on it.
pub proof fn empty_boards_are_empty(schema_version: u32)
    ensures
        blank_board(schema_version).schema_version == schema_version,
        blank_board(schema_version).notes.len() == 0,
        blank_board(schema_version).groups.len() == 0,
        blank_board(schema_version).tombstones.len() == 0,
{
}

} // verus!
