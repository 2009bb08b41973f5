//! Writing the board on the desk back into its space.
//!
//! Notes and groups that are gone leave tombstones, those that are back lose
//! theirs, and what changed gets a new time.
use vstd::prelude::*;
use vstd::string::*;

use crate::lists::filter_ends;
use crate::lists::filter_step;
use crate::lists::views;
use crate::lists::views_push;
use crate::desk::find_group;
use crate::desk::find_note;
use crate::desk::group_index;
use crate::desk::note_index;
use crate::model::board_eq;
use crate::model::clone_groups;
use crate::model::clone_notes;
use crate::model::clone_spaces;
use crate::model::clone_tombstones;
use crate::model::coordinate_eq;
use crate::model::point_eq;
use crate::model::same_board;
use crate::model::same_coordinate;
use crate::model::same_point;
use crate::model::BoardData;
use crate::model::BoardView;
use crate::model::Group;
use crate::model::GroupView;
use crate::model::Note;
use crate::model::NoteView;
use crate::model::Space;
use crate::model::SpaceView;
use crate::model::Tombstone;
use crate::model::TombstoneKind;
use crate::model::TombstoneView;
use crate::model::WorkspaceData;
use crate::model::WorkspaceView;
use crate::text::opt_text_eq;
use crate::workspace::first_space;
use crate::workspace::position_of_space;
use crate::workspace::replace_space;
use crate::workspace::time_or;
use crate::workspace::Surroundings;
use crate::workspace::SurroundingsView;

verus! {

/// Whether what a user sees of a note differs.
pub open spec fn note_differs(before: NoteView, after: NoteView) -> bool {
    ||| before.id != after.id
    ||| before.text != after.text
    ||| before.color != after.color
    ||| before.status != after.status
    ||| before.due_date != after.due_date
    ||| !coordinate_eq(before.x, after.x)
    ||| !coordinate_eq(before.y, after.y)
    ||| before.rotation != after.rotation
    ||| before.group_id != after.group_id
    ||| before.deleted_at != after.deleted_at
}

/// Whether what a user sees of a group differs.
pub open spec fn group_differs(before: GroupView, after: GroupView) -> bool {
    ||| before.id != after.id
    ||| before.label != after.label
    ||| !point_eq(before.origin, after.origin)
    ||| !point_eq(before.size, after.size)
    ||| before.deleted_at != after.deleted_at
}

/// Whether what a user sees of a note changed.
pub fn note_content_changed(before: &Note, after: &Note) -> (r: bool)
    ensures
        r == note_differs(before@, after@),
{
    before.id != after.id || before.text != after.text || before.color != after.color
        || before.status != after.status || !opt_text_eq(&before.due_date, &after.due_date)
        || !same_coordinate(before.x, after.x) || !same_coordinate(before.y, after.y)
        || before.rotation != after.rotation || before.group_id != after.group_id
        || before.deleted_at != after.deleted_at
}

/// Whether what a user sees of a group changed.
pub fn group_content_changed(before: &Group, after: &Group) -> (r: bool)
    ensures
        r == group_differs(before@, after@),
{
    before.id != after.id || before.label != after.label || !same_point(
        &before.origin,
        &after.origin,
    ) || !same_point(&before.size, &after.size) || before.deleted_at != after.deleted_at
}

/// Whether a board has a note with the given id.
pub open spec fn has_note(notes: Seq<NoteView>, id: u64) -> bool {
    note_index(notes, id) < notes.len()
}

/// Whether a board has a group with the given id.
pub open spec fn has_group(groups: Seq<GroupView>, id: u64) -> bool {
    group_index(groups, id) < groups.len()
}

/// Whether a tombstone still stands for something that is gone.
pub open spec fn still_gone(
    t: TombstoneView,
    notes: Seq<NoteView>,
    groups: Seq<GroupView>,
) -> bool {
    match t.kind {
        TombstoneKind::Note => !has_note(notes, t.id),
        TombstoneKind::Group => !has_group(groups, t.id),
        TombstoneKind::Space => false,
    }
}

/// Whether a list has a tombstone for an entity.
pub open spec fn has_tombstone(list: Seq<TombstoneView>, kind: TombstoneKind, id: u64) -> bool {
    exists|i: int| 0 <= i < list.len() && (#[trigger] list[i]).kind == kind && list[i].id == id
}

/// The list grown by tombstones for the notes that are gone.
pub open spec fn with_gone_notes(
    list: Seq<TombstoneView>,
    olds: Seq<NoteView>,
    notes: Seq<NoteView>,
    now: u64,
) -> Seq<TombstoneView>
    decreases olds.len(),
{
    if olds.len() == 0 {
        list
    } else {
        let before = with_gone_notes(list, olds.drop_last(), notes, now);
        let old_note = olds.last();
        if !has_note(notes, old_note.id) && !has_tombstone(
            before,
            TombstoneKind::Note,
            old_note.id,
        ) {
            before.push(
                TombstoneView {
                    kind: TombstoneKind::Note,
                    id: old_note.id,
                    stable_id: old_note.stable_id,
                    deleted_at: now,
                },
            )
        } else {
            before
        }
    }
}

/// The list grown by tombstones for the groups that are gone.
pub open spec fn with_gone_groups(
    list: Seq<TombstoneView>,
    olds: Seq<GroupView>,
    groups: Seq<GroupView>,
    now: u64,
) -> Seq<TombstoneView>
    decreases olds.len(),
{
    if olds.len() == 0 {
        list
    } else {
        let before = with_gone_groups(list, olds.drop_last(), groups, now);
        let old_group = olds.last();
        if !has_group(groups, old_group.id) && !has_tombstone(
            before,
            TombstoneKind::Group,
            old_group.id,
        ) {
            before.push(
                TombstoneView {
                    kind: TombstoneKind::Group,
                    id: old_group.id,
                    stable_id: old_group.stable_id,
                    deleted_at: now,
                },
            )
        } else {
            before
        }
    }
}

/// A note with its times brought up to date.
pub open spec fn timed_note(olds: Seq<NoteView>, n: NoteView, now: u64) -> NoteView {
    let i = note_index(olds, n.id);
    NoteView {
        created_at: time_or(n.created_at, now),
        updated_at: if i >= olds.len() || note_differs(olds[i], n) {
            now
        } else {
            n.updated_at
        },
        ..n
    }
}

/// A group with its times brought up to date.
pub open spec fn timed_group(olds: Seq<GroupView>, g: GroupView, now: u64) -> GroupView {
    let i = group_index(olds, g.id);
    GroupView {
        created_at: time_or(g.created_at, now),
        updated_at: if i >= olds.len() || group_differs(olds[i], g) {
            now
        } else {
            g.updated_at
        },
        ..g
    }
}

/// The tombstones of a board that takes the place of another.
pub open spec fn next_tombstones(
    previous: BoardView,
    board: BoardView,
    now: u64,
) -> Seq<TombstoneView> {
    let kept = previous.tombstones.filter(
        |t: TombstoneView| still_gone(t, board.notes, board.groups),
    );
    with_gone_groups(
        with_gone_notes(kept, previous.notes, board.notes, now),
        previous.groups,
        board.groups,
        now,
    )
}

/// A board as it is written in the place of another.
pub open spec fn persisted_board(previous: BoardView, board: BoardView, now: u64) -> BoardView {
    BoardView {
        schema_version: board.schema_version,
        notes: board.notes.map_values(|n: NoteView| timed_note(previous.notes, n, now)),
        groups: board.groups.map_values(|g: GroupView| timed_group(previous.groups, g, now)),
        tombstones: next_tombstones(previous, board, now),
    }
}

/// A space with a board written into it.
pub open spec fn persisted_space(s: SpaceView, board: BoardView, now: u64) -> SpaceView {
    let next = persisted_board(s.board, board, now);
    SpaceView {
        updated_at: if board_eq(s.board, next) {
            s.updated_at
        } else {
            now
        },
        board: next,
        ..s
    }
}

/// The spaces with a board written into the first one of the given id.
pub open spec fn persisted_spaces(
    spaces: Seq<SpaceView>,
    id: u64,
    board: BoardView,
    now: u64,
) -> Seq<SpaceView> {
    let i = first_space(spaces, |s: SpaceView| s.id == id);
    if i < spaces.len() {
        spaces.update(i, persisted_space(spaces[i], board, now))
    } else {
        spaces
    }
}

/// Whether a list has a tombstone for an entity.
pub fn tombstone_exists(list: &Vec<Tombstone>, kind: TombstoneKind, id: u64) -> (r: bool)
    ensures
        r == has_tombstone(views(list@), kind, id),
{
    let ghost all = views(list@);
    let mut i: usize = 0;
    while i < list.len()
        invariant
            all == views(list@),
            i <= list@.len(),
            forall|j: int| 0 <= j < i ==> !((#[trigger] all[j]).kind == kind && all[j].id == id),
        decreases list@.len() - i,
    {
        assert(all[i as int] == list@[i as int]@);
        if list[i].kind == kind && list[i].id == id {
            return true;
        }
        i = i + 1;
    }
    false
}

fn keep_tombstones(list: &Vec<Tombstone>, board: &BoardData) -> (r: Vec<Tombstone>)
    ensures
        views(r@) == views(list@).filter(
            |t: TombstoneView| still_gone(t, board@.notes, board@.groups),
        ),
{
    broadcast use views_push;

    let ghost all = views(list@);
    let ghost pred = |t: TombstoneView| still_gone(t, board@.notes, board@.groups);
    let mut out: Vec<Tombstone> = Vec::new();
    proof {
        filter_ends(all, pred);
    }
    assert(views(out@) =~= all.take(0).filter(pred));
    let mut i: usize = 0;
    while i < list.len()
        invariant
            all == views(list@),
            pred == (|t: TombstoneView| still_gone(t, board@.notes, board@.groups)),
            i <= list@.len(),
            views(out@) == all.take(i as int).filter(pred),
        decreases list@.len() - i,
    {
        proof {
            filter_step(all, pred, i as int);
        }
        let t = &list[i];
        let gone = match t.kind {
            TombstoneKind::Note => find_note(&board.notes, t.id) >= board.notes.len(),
            TombstoneKind::Group => find_group(&board.groups, t.id) >= board.groups.len(),
            TombstoneKind::Space => false,
        };
        if gone {
            out.push(t.clone());
        }
        i = i + 1;
    }
    out
}

fn add_gone_notes(
    list: Vec<Tombstone>,
    olds: &Vec<Note>,
    notes: &Vec<Note>,
    now: u64,
) -> (r: Vec<Tombstone>)
    ensures
        views(r@) == with_gone_notes(views(list@), views(olds@), views(notes@), now),
{
    broadcast use views_push;

    let mut out = list;
    let ghost start = views(list@);
    let ghost all = views(olds@);
    let mut i: usize = 0;
    assert(all.take(0) =~= Seq::empty());
    while i < olds.len()
        invariant
            all == views(olds@),
            i <= olds@.len(),
            views(out@) == with_gone_notes(start, all.take(i as int), views(notes@), now),
        decreases olds@.len() - i,
    {
        assert(all.take(i + 1).drop_last() =~= all.take(i as int));
        assert(all.take(i + 1).last() == olds@[i as int]@);
        let old_note = &olds[i];
        if find_note(notes, old_note.id) >= notes.len() && !tombstone_exists(
            &out,
            TombstoneKind::Note,
            old_note.id,
        ) {
            out.push(
                Tombstone {
                    kind: TombstoneKind::Note,
                    id: old_note.id,
                    stable_id: old_note.stable_id.clone(),
                    deleted_at: now,
                },
            );
        }
        i = i + 1;
    }
    assert(all.take(i as int) =~= all);
    out
}

fn add_gone_groups(
    list: Vec<Tombstone>,
    olds: &Vec<Group>,
    groups: &Vec<Group>,
    now: u64,
) -> (r: Vec<Tombstone>)
    ensures
        views(r@) == with_gone_groups(views(list@), views(olds@), views(groups@), now),
{
    broadcast use views_push;

    let mut out = list;
    let ghost start = views(list@);
    let ghost all = views(olds@);
    let mut i: usize = 0;
    assert(all.take(0) =~= Seq::empty());
    while i < olds.len()
        invariant
            all == views(olds@),
            i <= olds@.len(),
            views(out@) == with_gone_groups(start, all.take(i as int), views(groups@), now),
        decreases olds@.len() - i,
    {
        assert(all.take(i + 1).drop_last() =~= all.take(i as int));
        assert(all.take(i + 1).last() == olds@[i as int]@);
        let old_group = &olds[i];
        if find_group(groups, old_group.id) >= groups.len() && !tombstone_exists(
            &out,
            TombstoneKind::Group,
            old_group.id,
        ) {
            out.push(
                Tombstone {
                    kind: TombstoneKind::Group,
                    id: old_group.id,
                    stable_id: old_group.stable_id.clone(),
                    deleted_at: now,
                },
            );
        }
        i = i + 1;
    }
    assert(all.take(i as int) =~= all);
    out
}

/// The board to write in the place of another.
pub fn board_to_persist(previous: &BoardData, board: &BoardData, now: u64) -> (r: BoardData)
    ensures
        r@ == persisted_board(previous@, board@, now),
{
    let mut notes: Vec<Note> = Vec::new();
    let mut i: usize = 0;
    while i < board.notes.len()
        invariant
            i <= board.notes@.len(),
            notes@.len() == i,
            forall|j: int|
                0 <= j < i ==> (#[trigger] notes@[j])@ == timed_note(
                    previous@.notes,
                    board.notes@[j]@,
                    now,
                ),
        decreases board.notes@.len() - i,
    {
        let mut n = board.notes[i].clone();
        let k = find_note(&previous.notes, n.id);
        if k >= previous.notes.len() || note_content_changed(&previous.notes[k], &n) {
            n.updated_at = now;
        }
        if n.created_at == 0 {
            n.created_at = now;
        }
        notes.push(n);
        i = i + 1;
    }
    let mut groups: Vec<Group> = Vec::new();
    let mut k: usize = 0;
    while k < board.groups.len()
        invariant
            k <= board.groups@.len(),
            groups@.len() == k,
            forall|j: int|
                0 <= j < k ==> (#[trigger] groups@[j])@ == timed_group(
                    previous@.groups,
                    board.groups@[j]@,
                    now,
                ),
        decreases board.groups@.len() - k,
    {
        let mut g = board.groups[k].clone();
        let m = find_group(&previous.groups, g.id);
        if m >= previous.groups.len() || group_content_changed(&previous.groups[m], &g) {
            g.updated_at = now;
        }
        if g.created_at == 0 {
            g.created_at = now;
        }
        groups.push(g);
        k = k + 1;
    }
    let kept = keep_tombstones(&previous.tombstones, board);
    let with_notes = add_gone_notes(kept, &previous.notes, &board.notes, now);
    let tombstones = add_gone_groups(with_notes, &previous.groups, &board.groups, now);
    let r = BoardData { schema_version: board.schema_version, notes, groups, tombstones };
    assert(r@.notes =~= persisted_board(previous@, board@, now).notes);
    assert(r@.groups =~= persisted_board(previous@, board@, now).groups);
    r
}

/// Writes a board into its space.
pub fn persist_space_board(spaces: &Vec<Space>, id: u64, board: &BoardData, now: u64) -> (r: Vec<
    Space,
>)
    ensures
        views(r@) == persisted_spaces(views(spaces@), id, board@, now),
{
    let i = position_of_space(spaces, id);
    if i < spaces.len() {
        let mut space = spaces[i].clone();
        let next = board_to_persist(&space.board, board, now);
        if !same_board(&space.board, &next) {
            space.updated_at = now;
        }
        space.board = next;
        replace_space(spaces, i, space)
    } else {
        clone_spaces(spaces)
    }
}

/// The workspace made of what is on the shelf.
pub open spec fn workspace_of(
    env: SurroundingsView,
    spaces: Seq<SpaceView>,
    active_space_id: u64,
    tombstones: Seq<TombstoneView>,
) -> WorkspaceView {
    WorkspaceView {
        schema_version: env.schema_version,
        device_id: env.device_id,
        tombstones,
        spaces,
        active_space_id,
    }
}

/// The workspace made of its parts.
pub fn workspace_snapshot(
    env: &Surroundings,
    spaces: &Vec<Space>,
    active_space_id: u64,
    tombstones: &Vec<Tombstone>,
) -> (r: WorkspaceData)
    ensures
        r@ == workspace_of(env@, views(spaces@), active_space_id, views(tombstones@)),
{
    WorkspaceData {
        schema_version: env.schema_version,
        device_id: env.device_id.clone(),
        tombstones: clone_tombstones(tombstones),
        spaces: clone_spaces(spaces),
        active_space_id,
    }
}

/// The workspace with what is on the desk in its active space.
pub open spec fn workspace_with_board(
    env: SurroundingsView,
    spaces: Seq<SpaceView>,
    active_space_id: u64,
    notes: Seq<NoteView>,
    groups: Seq<GroupView>,
    tombstones: Seq<TombstoneView>,
) -> WorkspaceView {
    let i = first_space(spaces, |s: SpaceView| s.id == active_space_id);
    workspace_of(
        env,
        if i < spaces.len() {
            spaces.update(
                i,
                SpaceView {
                    board: BoardView {
                        schema_version: env.schema_version,
                        notes,
                        groups,
                        tombstones: spaces[i].board.tombstones,
                    },
                    ..spaces[i]
                },
            )
        } else {
            spaces
        },
        active_space_id,
        tombstones,
    )
}

/// The workspace to export: with what is on the desk in its active space.
pub fn workspace_with_current_board(
    env: &Surroundings,
    spaces: &Vec<Space>,
    active_space_id: u64,
    notes: &Vec<Note>,
    groups: &Vec<Group>,
    tombstones: &Vec<Tombstone>,
) -> (r: WorkspaceData)
    ensures
        r@ == workspace_with_board(
            env@,
            views(spaces@),
            active_space_id,
            views(notes@),
            views(groups@),
            views(tombstones@),
        ),
{
    let i = position_of_space(spaces, active_space_id);
    if i < spaces.len() {
        let mut space = spaces[i].clone();
        space.board = BoardData {
            schema_version: env.schema_version,
            notes: clone_notes(notes),
            groups: clone_groups(groups),
            tombstones: clone_tombstones(&spaces[i].board.tombstones),
        };
        let updated = replace_space(spaces, i, space);
        workspace_snapshot(env, &updated, active_space_id, tombstones)
    } else {
        workspace_snapshot(env, spaces, active_space_id, tombstones)
    }
}

/// Whether the board on the desk has to become an update of the shared
/// document: always after a local change, and after a remote one only where
/// the desk shows something else than the document.
pub fn should_queue_crdt_projection(
    remote_projection_changed: bool,
    canonical_board: Option<&BoardData>,
    projected_board: &BoardData,
) -> (r: bool)
    ensures
        r == (!remote_projection_changed || (canonical_board matches Some(canonical) ==> !board_eq(
            canonical@,
            projected_board@,
        ))),
{
    if !remote_projection_changed {
        return true;
    }
    match canonical_board {
        Some(canonical) => !same_board(canonical, projected_board),
        None => true,
    }
}

proof fn gone_notes_have_tombstones(
    list: Seq<TombstoneView>,
    olds: Seq<NoteView>,
    notes: Seq<NoteView>,
    now: u64,
    i: int,
)
    requires
        0 <= i < olds.len(),
        !has_note(notes, olds[i].id),
    ensures
        has_tombstone(with_gone_notes(list, olds, notes, now), TombstoneKind::Note, olds[i].id),
    decreases olds.len(),
{
    let before = with_gone_notes(list, olds.drop_last(), notes, now);
    let after = with_gone_notes(list, olds, notes, now);
    if i < olds.len() - 1 {
        gone_notes_have_tombstones(list, olds.drop_last(), notes, now, i);
        let k = choose|k: int|
            0 <= k < before.len() && (#[trigger] before[k]).kind == TombstoneKind::Note
                && before[k].id == olds[i].id;
        assert(after[k] == before[k]);
    } else if !has_tombstone(before, TombstoneKind::Note, olds[i].id) {
        assert(after[after.len() - 1].id == olds[i].id);
    }
}

proof fn gone_groups_keep(
    list: Seq<TombstoneView>,
    olds: Seq<GroupView>,
    groups: Seq<GroupView>,
    now: u64,
)
    ensures
        list.len() <= with_gone_groups(list, olds, groups, now).len(),
        forall|k: int|
            0 <= k < list.len() ==> #[trigger] with_gone_groups(list, olds, groups, now)[k]
                == list[k],
        forall|k: int|
            list.len() <= k < with_gone_groups(list, olds, groups, now).len() ==> {
                &&& (#[trigger] with_gone_groups(list, olds, groups, now)[k]).kind
                    == TombstoneKind::Group
                &&& !has_group(groups, with_gone_groups(list, olds, groups, now)[k].id)
            },
        forall|i: int|
            0 <= i < olds.len() && !has_group(groups, (#[trigger] olds[i]).id) ==> has_tombstone(
                with_gone_groups(list, olds, groups, now),
                TombstoneKind::Group,
                olds[i].id,
            ),
    decreases olds.len(),
{
    if olds.len() > 0 {
        gone_groups_keep(list, olds.drop_last(), groups, now);
        let before = with_gone_groups(list, olds.drop_last(), groups, now);
        let after = with_gone_groups(list, olds, groups, now);
        assert forall|i: int|
            0 <= i < olds.len() && !has_group(groups, (#[trigger] olds[i]).id) implies has_tombstone(
            after,
            TombstoneKind::Group,
            olds[i].id,
        ) by {
            if i < olds.len() - 1 {
                assert(olds.drop_last()[i] == olds[i]);
                let k = choose|k: int|
                    0 <= k < before.len() && (#[trigger] before[k]).kind == TombstoneKind::Group
                        && before[k].id == olds[i].id;
                assert(after[k] == before[k]);
            } else if !has_tombstone(before, TombstoneKind::Group, olds[i].id) {
                assert(after[after.len() - 1].id == olds[i].id);
            } else {
                assert(after == before);
            }
        }
    }
}

proof fn gone_notes_shape(
    list: Seq<TombstoneView>,
    olds: Seq<NoteView>,
    notes: Seq<NoteView>,
    now: u64,
)
    ensures
        list.len() <= with_gone_notes(list, olds, notes, now).len(),
        forall|k: int|
            0 <= k < list.len() ==> #[trigger] with_gone_notes(list, olds, notes, now)[k]
                == list[k],
        forall|k: int|
            list.len() <= k < with_gone_notes(list, olds, notes, now).len() ==> {
                &&& (#[trigger] with_gone_notes(list, olds, notes, now)[k]).kind
                    == TombstoneKind::Note
                &&& !has_note(notes, with_gone_notes(list, olds, notes, now)[k].id)
            },
    decreases olds.len(),
{
    if olds.len() > 0 {
        gone_notes_shape(list, olds.drop_last(), notes, now);
    }
}

/// A note or group that was on the board and is gone has a tombstone.
pub proof fn what_is_gone_has_a_tombstone(previous: BoardView, board: BoardView, now: u64, i: int)
    ensures
        0 <= i < previous.notes.len() && !has_note(board.notes, previous.notes[i].id)
            ==> has_tombstone(
            persisted_board(previous, board, now).tombstones,
            TombstoneKind::Note,
            previous.notes[i].id,
        ),
        0 <= i < previous.groups.len() && !has_group(board.groups, previous.groups[i].id)
            ==> has_tombstone(
            persisted_board(previous, board, now).tombstones,
            TombstoneKind::Group,
            previous.groups[i].id,
        ),
{
    let kept = previous.tombstones.filter(
        |t: TombstoneView| still_gone(t, board.notes, board.groups),
    );
    let middle = with_gone_notes(kept, previous.notes, board.notes, now);
    gone_groups_keep(middle, previous.groups, board.groups, now);
    let all = with_gone_groups(middle, previous.groups, board.groups, now);
    if 0 <= i < previous.notes.len() && !has_note(board.notes, previous.notes[i].id) {
        gone_notes_have_tombstones(kept, previous.notes, board.notes, now, i);
        let k = choose|k: int|
            0 <= k < middle.len() && (#[trigger] middle[k]).kind == TombstoneKind::Note
                && middle[k].id == previous.notes[i].id;
        assert(all[k] == middle[k]);
    }
}

/// No note or group on the board has a tombstone.
pub proof fn what_is_there_has_no_tombstone(
    previous: BoardView,
    board: BoardView,
    now: u64,
    k: int,
)
    requires
        0 <= k < persisted_board(previous, board, now).tombstones.len(),
    ensures
        still_gone(
            persisted_board(previous, board, now).tombstones[k],
            board.notes,
            board.groups,
        ),
{
    let pred = |t: TombstoneView| still_gone(t, board.notes, board.groups);
    let kept = previous.tombstones.filter(pred);
    let middle = with_gone_notes(kept, previous.notes, board.notes, now);
    gone_notes_shape(kept, previous.notes, board.notes, now);
    gone_groups_keep(middle, previous.groups, board.groups, now);
    if k < kept.len() {
        crate::lists::filter_member(previous.tombstones, pred, k);
    }
}

/// Writing a board never drops or reorders its notes and groups, and changes
/// nothing of them but their times.
pub proof fn persisting_changes_only_times(previous: BoardView, board: BoardView, now: u64)
    ensures
        ({
            let r = persisted_board(previous, board, now);
            &&& r.notes.len() == board.notes.len()
            &&& r.groups.len() == board.groups.len()
            &&& forall|i: int|
                0 <= i < board.notes.len() ==> #[trigger] r.notes[i] == (NoteView {
                    created_at: r.notes[i].created_at,
                    updated_at: r.notes[i].updated_at,
                    ..board.notes[i]
                })
            &&& forall|i: int|
                0 <= i < board.groups.len() ==> #[trigger] r.groups[i] == (GroupView {
                    created_at: r.groups[i].created_at,
                    updated_at: r.groups[i].updated_at,
                    ..board.groups[i]
                })
        }),
{
}

/// A board has a note or a group of an id exactly where one is on it.
pub proof fn boards_have_what_is_on_them(notes: Seq<NoteView>, groups: Seq<GroupView>, id: u64)
    ensures
        has_note(notes, id) == (exists|i: int|
            0 <= i < notes.len() && (#[trigger] notes[i]).id == id),
        has_group(groups, id) == (exists|i: int|
            0 <= i < groups.len() && (#[trigger] groups[i]).id == id),
{
    crate::desk::note_index_is_least(notes, id);
    crate::desk::group_index_is_least(groups, id);
    if has_note(notes, id) {
        assert(notes[note_index(notes, id)].id == id);
    }
    if has_group(groups, id) {
        assert(groups[group_index(groups, id)].id == id);
    }
}

/// A list has a tombstone for an entity exactly where one of it names the kind
/// and the id.
pub proof fn tombstones_are_found(list: Seq<TombstoneView>, kind: TombstoneKind, id: u64)
    ensures
        has_tombstone(list, kind, id) == (exists|i: int|
            0 <= i < list.len() && (#[trigger] list[i]).kind == kind && list[i].id == id),
{
}

/// A note that is new, or of which a user sees a change, was changed now; any
/// other keeps its time, and a time of creation that is there stays.
pub proof fn times_follow_what_is_seen(
    previous: BoardView,
    board: BoardView,
    now: u64,
    k: int,
    j: int,
)
    requires
        0 <= k < board.notes.len(),
    ensures
        ({
            let n = board.notes[k];
            let r = persisted_board(previous, board, now).notes[k];
            &&& n.created_at != 0 ==> r.created_at == n.created_at
            &&& n.created_at == 0 ==> r.created_at == now
            &&& (forall|i: int| 0 <= i < previous.notes.len() ==> (#[trigger] previous.notes[i]).id
                != n.id) ==> r.updated_at == now
            &&& 0 <= j < previous.notes.len() && previous.notes[j].id == n.id && (forall|i: int|
                0 <= i < j ==> (#[trigger] previous.notes[i]).id != n.id) ==> {
                let o = previous.notes[j];
                &&& o.text != n.text || o.color != n.color || o.status != n.status || o.due_date
                    != n.due_date || o.rotation != n.rotation || o.group_id != n.group_id
                    || o.deleted_at != n.deleted_at || !coordinate_eq(o.x, n.x) || !coordinate_eq(
                    o.y,
                    n.y,
                ) ==> r.updated_at == now
                &&& o.text == n.text && o.color == n.color && o.status == n.status && o.due_date
                    == n.due_date && o.rotation == n.rotation && o.group_id == n.group_id
                    && o.deleted_at == n.deleted_at && coordinate_eq(o.x, n.x) && coordinate_eq(
                    o.y,
                    n.y,
                ) ==> r.updated_at == n.updated_at
            }
        }),
{
    let n = board.notes[k];
    crate::desk::note_index_is_least(previous.notes, n.id);
    let i = note_index(previous.notes, n.id);
    if i < previous.notes.len() {
        assert(previous.notes[i].id == n.id);
    }
}

/// A group that is new, or of which a user sees a change, was changed now; any
/// other keeps its time.
pub proof fn group_times_follow_what_is_seen(
    previous: BoardView,
    board: BoardView,
    now: u64,
    k: int,
    j: int,
)
    requires
        0 <= k < board.groups.len(),
    ensures
        ({
            let g = board.groups[k];
            let r = persisted_board(previous, board, now).groups[k];
            &&& g.created_at != 0 ==> r.created_at == g.created_at
            &&& g.created_at == 0 ==> r.created_at == now
            &&& (forall|i: int|
                0 <= i < previous.groups.len() ==> (#[trigger] previous.groups[i]).id != g.id)
                ==> r.updated_at == now
            &&& 0 <= j < previous.groups.len() && previous.groups[j].id == g.id && (forall|i: int|
                0 <= i < j ==> (#[trigger] previous.groups[i]).id != g.id) ==> {
                let o = previous.groups[j];
                let same = o.label == g.label && o.deleted_at == g.deleted_at && point_eq(
                    o.origin,
                    g.origin,
                ) && point_eq(o.size, g.size);
                &&& !same ==> r.updated_at == now
                &&& same ==> r.updated_at == g.updated_at
            }
        }),
{
    let g = board.groups[k];
    crate::desk::group_index_is_least(previous.groups, g.id);
    let i = group_index(previous.groups, g.id);
    if i < previous.groups.len() {
        assert(previous.groups[i].id == g.id);
    }
}

proof fn gone_notes_come_from(
    list: Seq<TombstoneView>,
    olds: Seq<NoteView>,
    notes: Seq<NoteView>,
    now: u64,
    k: int,
)
    requires
        list.len() <= k < with_gone_notes(list, olds, notes, now).len(),
    ensures
        exists|i: int|
            0 <= i < olds.len() && with_gone_notes(list, olds, notes, now)[k] == (TombstoneView {
                kind: TombstoneKind::Note,
                id: (#[trigger] olds[i]).id,
                stable_id: olds[i].stable_id,
                deleted_at: now,
            }),
    decreases olds.len(),
{
    if olds.len() > 0 {
        let rest = olds.drop_last();
        let before = with_gone_notes(list, rest, notes, now);
        if k < before.len() {
            gone_notes_come_from(list, rest, notes, now, k);
            let i = choose|i: int|
                0 <= i < rest.len() && before[k] == (TombstoneView {
                    kind: TombstoneKind::Note,
                    id: (#[trigger] rest[i]).id,
                    stable_id: rest[i].stable_id,
                    deleted_at: now,
                });
            assert(olds[i] == rest[i]);
        } else {
            assert(olds[olds.len() - 1] == olds.last());
        }
    }
}

proof fn gone_groups_come_from(
    list: Seq<TombstoneView>,
    olds: Seq<GroupView>,
    groups: Seq<GroupView>,
    now: u64,
    k: int,
)
    requires
        list.len() <= k < with_gone_groups(list, olds, groups, now).len(),
    ensures
        exists|i: int|
            0 <= i < olds.len() && with_gone_groups(list, olds, groups, now)[k] == (TombstoneView {
                kind: TombstoneKind::Group,
                id: (#[trigger] olds[i]).id,
                stable_id: olds[i].stable_id,
                deleted_at: now,
            }),
    decreases olds.len(),
{
    if olds.len() > 0 {
        let rest = olds.drop_last();
        let before = with_gone_groups(list, rest, groups, now);
        if k < before.len() {
            gone_groups_come_from(list, rest, groups, now, k);
            let i = choose|i: int|
                0 <= i < rest.len() && before[k] == (TombstoneView {
                    kind: TombstoneKind::Group,
                    id: (#[trigger] rest[i]).id,
                    stable_id: rest[i].stable_id,
                    deleted_at: now,
                });
            assert(olds[i] == rest[i]);
        } else {
            assert(olds[olds.len() - 1] == olds.last());
        }
    }
}

/// Every tombstone of a written board was there before, or stands for a note or
/// a group that was there before, under its identity and since now. One that was
/// there before stays as it is as long as its note or group is not back.
pub proof fn tombstones_stand_for_what_was_there(
    previous: BoardView,
    board: BoardView,
    now: u64,
    k: int,
    t: TombstoneView,
)
    ensures
        0 <= k < persisted_board(previous, board, now).tombstones.len() ==> ({
            let r = persisted_board(previous, board, now).tombstones[k];
            ||| previous.tombstones.contains(r)
            ||| exists|i: int|
                0 <= i < previous.notes.len() && r == (TombstoneView {
                    kind: TombstoneKind::Note,
                    id: (#[trigger] previous.notes[i]).id,
                    stable_id: previous.notes[i].stable_id,
                    deleted_at: now,
                })
            ||| exists|i: int|
                0 <= i < previous.groups.len() && r == (TombstoneView {
                    kind: TombstoneKind::Group,
                    id: (#[trigger] previous.groups[i]).id,
                    stable_id: previous.groups[i].stable_id,
                    deleted_at: now,
                })
        }),
        previous.tombstones.contains(t) && t.kind == TombstoneKind::Note && (forall|i: int|
            0 <= i < board.notes.len() ==> (#[trigger] board.notes[i]).id != t.id)
            ==> persisted_board(previous, board, now).tombstones.contains(t),
        previous.tombstones.contains(t) && t.kind == TombstoneKind::Group && (forall|i: int|
            0 <= i < board.groups.len() ==> (#[trigger] board.groups[i]).id != t.id)
            ==> persisted_board(previous, board, now).tombstones.contains(t),
{
    let pred = |t: TombstoneView| still_gone(t, board.notes, board.groups);
    let kept = previous.tombstones.filter(pred);
    let middle = with_gone_notes(kept, previous.notes, board.notes, now);
    let all = with_gone_groups(middle, previous.groups, board.groups, now);
    gone_notes_shape(kept, previous.notes, board.notes, now);
    gone_groups_keep(middle, previous.groups, board.groups, now);
    if 0 <= k < all.len() {
        if k < kept.len() {
            crate::lists::filter_member(previous.tombstones, pred, k);
            assert(all[k] == middle[k]);
        } else if k < middle.len() {
            gone_notes_come_from(kept, previous.notes, board.notes, now, k);
            assert(all[k] == middle[k]);
        } else {
            gone_groups_come_from(middle, previous.groups, board.groups, now, k);
        }
    }
    boards_have_what_is_on_them(board.notes, board.groups, t.id);
    if previous.tombstones.contains(t) && pred(t) {
        let i = previous.tombstones.index_of(t);
        crate::lists::filter_keeps(previous.tombstones, pred, i);
        let j = kept.index_of(t);
        assert(middle[j] == kept[j]);
        assert(all[j] == t);
    }
}

/// What is gone has a tombstone and what is there has none, said of the notes
/// and groups themselves.
pub proof fn tombstones_mark_what_is_gone(
    previous: BoardView,
    board: BoardView,
    now: u64,
    i: int,
    k: int,
)
    ensures
        0 <= i < previous.notes.len() && (forall|j: int|
            0 <= j < board.notes.len() ==> (#[trigger] board.notes[j]).id != previous.notes[i].id)
            ==> exists|j: int|
            0 <= j < persisted_board(previous, board, now).tombstones.len() && (
            #[trigger] persisted_board(previous, board, now).tombstones[j]).kind
                == TombstoneKind::Note && persisted_board(previous, board, now).tombstones[j].id
                == previous.notes[i].id,
        0 <= i < previous.groups.len() && (forall|j: int|
            0 <= j < board.groups.len() ==> (#[trigger] board.groups[j]).id
                != previous.groups[i].id) ==> exists|j: int|
            0 <= j < persisted_board(previous, board, now).tombstones.len() && (
            #[trigger] persisted_board(previous, board, now).tombstones[j]).kind
                == TombstoneKind::Group && persisted_board(previous, board, now).tombstones[j].id
                == previous.groups[i].id,
        0 <= k < persisted_board(previous, board, now).tombstones.len() ==> ({
            let t = persisted_board(previous, board, now).tombstones[k];
            &&& t.kind != TombstoneKind::Space
            &&& t.kind == TombstoneKind::Note ==> forall|j: int|
                0 <= j < board.notes.len() ==> (#[trigger] board.notes[j]).id != t.id
            &&& t.kind == TombstoneKind::Group ==> forall|j: int|
                0 <= j < board.groups.len() ==> (#[trigger] board.groups[j]).id != t.id
        }),
{
    what_is_gone_has_a_tombstone(previous, board, now, i);
    if 0 <= i < previous.notes.len() {
        boards_have_what_is_on_them(board.notes, board.groups, previous.notes[i].id);
    }
    if 0 <= i < previous.groups.len() {
        boards_have_what_is_on_them(board.notes, board.groups, previous.groups[i].id);
    }
    if 0 <= k < persisted_board(previous, board, now).tombstones.len() {
        what_is_there_has_no_tombstone(previous, board, now, k);
        let t = persisted_board(previous, board, now).tombstones[k];
        boards_have_what_is_on_them(board.notes, board.groups, t.id);
    }
}

/// A board is written into the first space of its id and nowhere else. That
/// space was changed now exactly where what is written differs from what it
/// had, and nothing else of it changes.
pub proof fn boards_are_written_into_one_space(
    spaces: Seq<SpaceView>,
    id: u64,
    board: BoardView,
    now: u64,
    k: int,
)
    requires
        0 <= k < spaces.len(),
    ensures
        ({
            let all = persisted_spaces(spaces, id, board, now);
            let s = spaces[k];
            let r = all[k];
            &&& all.len() == spaces.len()
            &&& !crate::workspace::is_first_of(spaces, id, k) ==> r == s
            &&& crate::workspace::is_first_of(spaces, id, k) ==> {
                &&& r == (SpaceView { board: r.board, updated_at: r.updated_at, ..s })
                &&& r.board.notes.len() == board.notes.len()
                &&& r.board.groups.len() == board.groups.len()
                &&& forall|i: int|
                    0 <= i < board.notes.len() ==> {
                        &&& (#[trigger] r.board.notes[i]).text == board.notes[i].text
                        &&& r.board.notes[i] == (NoteView {
                            created_at: r.board.notes[i].created_at,
                            updated_at: r.board.notes[i].updated_at,
                            ..board.notes[i]
                        })
                    }
                &&& forall|i: int|
                    0 <= i < board.groups.len() ==> (#[trigger] r.board.groups[i]) == (GroupView {
                        created_at: r.board.groups[i].created_at,
                        updated_at: r.board.groups[i].updated_at,
                        ..board.groups[i]
                    })
                &&& board_eq(s.board, r.board) ==> r.updated_at == s.updated_at
                &&& !board_eq(s.board, r.board) ==> r.updated_at == now
            }
        }),
{
    crate::workspace::spaces_are_found_by_id(spaces, id, k);
    persisting_changes_only_times(spaces[k].board, board, now);
}

/// A workspace holds the spaces and tombstones that it is made of; with what is
/// on the desk, its active space has the notes and groups of the desk and keeps
/// its tombstones.
pub proof fn workspaces_hold_what_they_are_made_of(
    env: SurroundingsView,
    spaces: Seq<SpaceView>,
    active: u64,
    notes: Seq<NoteView>,
    groups: Seq<GroupView>,
    tombstones: Seq<TombstoneView>,
    k: int,
)
    requires
        0 <= k < spaces.len(),
    ensures
        ({
            let w = workspace_of(env, spaces, active, tombstones);
            &&& w.spaces == spaces
            &&& w.tombstones == tombstones
            &&& w.active_space_id == active
            &&& w.schema_version == env.schema_version
            &&& w.device_id == env.device_id
        }),
        ({
            let w = workspace_with_board(env, spaces, active, notes, groups, tombstones);
            &&& w.spaces.len() == spaces.len()
            &&& w.tombstones == tombstones
            &&& w.active_space_id == active
            &&& !crate::workspace::is_first_of(spaces, active, k) ==> w.spaces[k] == spaces[k]
            &&& crate::workspace::is_first_of(spaces, active, k) ==> {
                &&& w.spaces[k].board.notes == notes
                &&& w.spaces[k].board.groups == groups
                &&& w.spaces[k].board.tombstones == spaces[k].board.tombstones
                &&& w.spaces[k] == (SpaceView { board: w.spaces[k].board, ..spaces[k] })
            }
        }),
{
    crate::workspace::spaces_are_found_by_id(spaces, active, k);
}

/// The content of a note or a group has changed where anything that is seen of
/// it has; its identity and its times do not count.
pub proof fn contents_change_with_what_is_seen(a: NoteView, b: NoteView, g: GroupView, h: GroupView)
    ensures
        a.id != b.id || a.text != b.text || a.color != b.color || a.status != b.status
            || a.due_date != b.due_date || a.rotation != b.rotation || a.group_id != b.group_id
            || a.deleted_at != b.deleted_at || !coordinate_eq(a.x, b.x) || !coordinate_eq(a.y, b.y)
            ==> note_differs(a, b),
        note_differs(
            a,
            NoteView {
                stable_id: b.stable_id,
                group_stable_id: b.group_stable_id,
                created_at: b.created_at,
                updated_at: b.updated_at,
                ..a
            },
        ) ==> !coordinate_eq(a.x, a.x) || !coordinate_eq(a.y, a.y),
        g.id != h.id || g.label != h.label || g.deleted_at != h.deleted_at || !point_eq(
            g.origin,
            h.origin,
        ) || !point_eq(g.size, h.size) ==> group_differs(g, h),
        group_differs(
            g,
            GroupView {
                stable_id: h.stable_id,
                created_at: h.created_at,
                updated_at: h.updated_at,
                ..g
            },
        ) ==> !point_eq(g.origin, g.origin) || !point_eq(g.size, g.size),
{
}

} // verus!
