//! Taking the spaces of a guest into an account.
//!
//! The numeric ids of guest entities mean nothing outside the guest's own
//! namespace, so they are given anew when the entities enter an account, while
//! the stable identities stay. Adopted spaces remain on the device until their
//! owner chooses otherwise.
use std::collections::HashMap;

use vstd::prelude::*;

use crate::model::clone_tombstones;
use crate::model::empty_board;
use crate::model::blank_board;
use crate::model::BoardData;
use crate::model::BoardView;
use crate::model::Group;
use crate::model::GroupView;
use crate::model::Note;
use crate::model::NoteView;
use crate::model::Space;
use crate::model::SpaceView;
use crate::model::Tombstone;
use crate::model::TombstoneKind;
use crate::model::TombstoneView;
use crate::model::WorkspaceData;
use crate::model::WorkspaceView;
use crate::text::text_eq;
use crate::lists::views;
use crate::lists::views_push;
use crate::workspace::is_open;
use crate::workspace::first_space;
use crate::workspace::first_space_at;
use crate::workspace::normalize_workspace;
use crate::workspace::normalized_workspace;
use crate::workspace::Surroundings;
use crate::workspace::SurroundingsView;

verus! {

broadcast use vstd::std_specs::hash::group_hash_axioms;

/// The numeric ids of some notes, in order.
pub open spec fn note_ids_of(notes: Seq<NoteView>) -> Seq<u64> {
    notes.map_values(|n: NoteView| n.id)
}

/// The numeric ids of some groups, in order.
pub open spec fn group_ids_of(groups: Seq<GroupView>) -> Seq<u64> {
    groups.map_values(|g: GroupView| g.id)
}

/// The numeric ids of some spaces, in order.
pub open spec fn space_ids_of(spaces: Seq<SpaceView>) -> Seq<u64> {
    spaces.map_values(|s: SpaceView| s.id)
}

/// The numeric ids of some notes.
pub fn note_ids(notes: &Vec<Note>) -> (r: Vec<u64>)
    ensures
        r@ == note_ids_of(views(notes@)),
{
    let mut out: Vec<u64> = Vec::new();
    let mut i: usize = 0;
    while i < notes.len()
        invariant
            i <= notes@.len(),
            out@.len() == i,
            forall|j: int| 0 <= j < i ==> #[trigger] out@[j] == notes@[j].id,
        decreases notes@.len() - i,
    {
        out.push(notes[i].id);
        i = i + 1;
    }
    assert(out@ =~= note_ids_of(views(notes@)));
    out
}

/// The numeric ids of some groups.
pub fn group_ids(groups: &Vec<Group>) -> (r: Vec<u64>)
    ensures
        r@ == group_ids_of(views(groups@)),
{
    let mut out: Vec<u64> = Vec::new();
    let mut i: usize = 0;
    while i < groups.len()
        invariant
            i <= groups@.len(),
            out@.len() == i,
            forall|j: int| 0 <= j < i ==> #[trigger] out@[j] == groups@[j].id,
        decreases groups@.len() - i,
    {
        out.push(groups[i].id);
        i = i + 1;
    }
    assert(out@ =~= group_ids_of(views(groups@)));
    out
}

/// The numeric ids of some spaces.
pub fn space_ids(spaces: &Vec<Space>) -> (r: Vec<u64>)
    ensures
        r@ == space_ids_of(views(spaces@)),
{
    let mut out: Vec<u64> = Vec::new();
    let mut i: usize = 0;
    while i < spaces.len()
        invariant
            i <= spaces@.len(),
            out@.len() == i,
            forall|j: int| 0 <= j < i ==> #[trigger] out@[j] == spaces@[j].id,
        decreases spaces@.len() - i,
    {
        out.push(spaces[i].id);
        i = i + 1;
    }
    assert(out@ =~= space_ids_of(views(spaces@)));
    out
}

/// The renaming that gives each of `olds`, in order, the next of `ids`.
pub open spec fn id_map(olds: Seq<u64>, ids: Seq<u64>, from: int) -> Map<u64, u64>
    decreases olds.len(),
{
    if olds.len() == 0 {
        Map::empty()
    } else {
        id_map(olds.drop_last(), ids, from).insert(olds.last(), ids[from + olds.len() - 1])
    }
}

/// The renaming of spaces, grown by the deleted spaces that it does not name
/// yet, and the number of ids in use.
pub open spec fn space_renaming(
    start: (Map<u64, u64>, int),
    ids: Seq<u64>,
    tombstones: Seq<TombstoneView>,
) -> (Map<u64, u64>, int)
    decreases tombstones.len(),
{
    if tombstones.len() == 0 {
        start
    } else {
        let before = space_renaming(start, ids, tombstones.drop_last());
        let t = tombstones.last();
        if t.kind == TombstoneKind::Space && !before.0.contains_key(t.id) {
            (before.0.insert(t.id, ids[before.1]), before.1 + 1)
        } else {
            before
        }
    }
}

/// The renaming of a board's notes and groups, and the number of ids in use.
pub struct BoardRenaming {
    pub notes: Map<u64, u64>,
    pub groups: Map<u64, u64>,
    pub next: int,
}

/// A board's renaming grown by the deleted entities that it does not name yet.
pub open spec fn tombstone_renaming(
    start: BoardRenaming,
    ids: Seq<u64>,
    tombstones: Seq<TombstoneView>,
) -> BoardRenaming
    decreases tombstones.len(),
{
    if tombstones.len() == 0 {
        start
    } else {
        let before = tombstone_renaming(start, ids, tombstones.drop_last());
        let t = tombstones.last();
        if t.kind == TombstoneKind::Note && !before.notes.contains_key(t.id) {
            BoardRenaming {
                notes: before.notes.insert(t.id, ids[before.next]),
                next: before.next + 1,
                ..before
            }
        } else if t.kind == TombstoneKind::Group && !before.groups.contains_key(t.id) {
            BoardRenaming {
                groups: before.groups.insert(t.id, ids[before.next]),
                next: before.next + 1,
                ..before
            }
        } else {
            before
        }
    }
}

/// The renaming of a board whose first new id is `ids[from]`: the notes come
/// first, then the groups, then what is deleted.
pub open spec fn board_renaming(b: BoardView, ids: Seq<u64>, from: int) -> BoardRenaming {
    tombstone_renaming(
        BoardRenaming {
            notes: id_map(note_ids_of(b.notes), ids, from),
            groups: id_map(group_ids_of(b.groups), ids, from + b.notes.len()),
            next: from + b.notes.len() + b.groups.len(),
        },
        ids,
        b.tombstones,
    )
}

/// A tombstone of a board under a renaming.
pub open spec fn rekeyed_tombstone(r: BoardRenaming, t: TombstoneView) -> TombstoneView {
    match t.kind {
        TombstoneKind::Note => TombstoneView { id: r.notes[t.id], ..t },
        TombstoneKind::Group => TombstoneView { id: r.groups[t.id], ..t },
        TombstoneKind::Space => t,
    }
}

/// A note under a renaming: a reference to a group that the board does not
/// know is dropped.
pub open spec fn rekeyed_note(groups: Map<u64, u64>, n: NoteView, id: u64) -> NoteView {
    NoteView {
        id,
        group_id: match n.group_id {
            Some(g) => if groups.contains_key(g) {
                Some(groups[g])
            } else {
                None
            },
            None => None,
        },
        ..n
    }
}

/// A board with new numeric ids.
pub open spec fn rekeyed_board(b: BoardView, ids: Seq<u64>, from: int) -> BoardView {
    let r = board_renaming(b, ids, from);
    BoardView {
        notes: b.notes.map(|i: int, n: NoteView| rekeyed_note(r.groups, n, ids[from + i])),
        groups: b.groups.map(
            |i: int, g: GroupView| GroupView { id: ids[from + b.notes.len() + i], ..g },
        ),
        tombstones: b.tombstones.map_values(|t: TombstoneView| rekeyed_tombstone(r, t)),
        ..b
    }
}

/// The number of ids in use before the board of space `i` gets its own.
pub open spec fn ids_before(spaces: Seq<SpaceView>, ids: Seq<u64>, start: int, i: int) -> int
    decreases i,
{
    if i <= 0 {
        start
    } else {
        board_renaming(spaces[i - 1].board, ids, ids_before(spaces, ids, start, i - 1)).next
    }
}

/// A workspace whose entities have the numeric ids `ids`, in order: spaces,
/// deleted spaces, then board after board. References follow the renaming.
pub open spec fn rekeyed_workspace(w: WorkspaceView, ids: Seq<u64>) -> WorkspaceView {
    let live = id_map(space_ids_of(w.spaces), ids, 0);
    let known = space_renaming((live, w.spaces.len() as int), ids, w.tombstones);
    WorkspaceView {
        active_space_id: if live.contains_key(w.active_space_id) {
            live[w.active_space_id]
        } else {
            w.active_space_id
        },
        tombstones: w.tombstones.map_values(
            |t: TombstoneView|
                if t.kind == TombstoneKind::Space {
                    TombstoneView { id: known.0[t.id], ..t }
                } else {
                    t
                },
        ),
        spaces: w.spaces.map(
            |i: int, s: SpaceView|
                SpaceView {
                    id: ids[i],
                    board: rekeyed_board(s.board, ids, ids_before(w.spaces, ids, known.1, i)),
                    ..s
                },
        ),
        ..w
    }
}

/// The number of entities of a board, deleted ones among them.
pub open spec fn board_entities(b: BoardView) -> int {
    (b.notes.len() + b.groups.len() + b.tombstones.len()) as int
}

/// The number of entities on the boards of some spaces.
pub open spec fn space_entities(spaces: Seq<SpaceView>) -> int
    decreases spaces.len(),
{
    if spaces.len() == 0 {
        0
    } else {
        space_entities(spaces.drop_last()) + board_entities(spaces.last().board)
    }
}

/// The number of ids that renaming a workspace can take.
pub open spec fn workspace_entities(w: WorkspaceView) -> int {
    w.spaces.len() + w.tombstones.len() + space_entities(w.spaces)
}

/// The number of ids that renaming a workspace can take, where it fits.
pub fn entity_count(w: &WorkspaceData) -> (r: Option<usize>)
    ensures
        match r {
            Some(n) => n == workspace_entities(w@),
            None => workspace_entities(w@) > usize::MAX,
        },
{
    let mut total: usize = w.spaces.len();
    match total.checked_add(w.tombstones.len()) {
        Some(n) => {
            total = n;
        },
        None => {
            proof {
                space_entities_grow(w@.spaces, 0);
            }
            return None;
        },
    }
    let ghost base = total as int;
    let mut i: usize = 0;
    assert(w@.spaces.take(0) =~= Seq::empty());
    while i < w.spaces.len()
        invariant
            base == w.spaces@.len() + w.tombstones@.len(),
            i <= w.spaces@.len(),
            total == base + space_entities(w@.spaces.take(i as int)),
        decreases w.spaces@.len() - i,
    {
        let board = &w.spaces[i].board;
        let ghost b = board@;
        assert(w@.spaces.take(i + 1).drop_last() =~= w@.spaces.take(i as int));
        assert(w@.spaces.take(i + 1).last().board == b);
        proof {
            space_entities_grow(w@.spaces, i + 1);
            space_entities_grow(w@.spaces, i as int);
        }
        total = match total.checked_add(board.notes.len()) {
            Some(n) => n,
            None => return None,
        };
        total = match total.checked_add(board.groups.len()) {
            Some(n) => n,
            None => return None,
        };
        total = match total.checked_add(board.tombstones.len()) {
            Some(n) => n,
            None => return None,
        };
        i = i + 1;
    }
    assert(w@.spaces.take(i as int) =~= w@.spaces);
    Some(total)
}

proof fn space_entities_grow(spaces: Seq<SpaceView>, i: int)
    requires
        0 <= i <= spaces.len(),
    ensures
        0 <= space_entities(spaces.take(i)) <= space_entities(spaces),
    decreases spaces.len(),
{
    if i == spaces.len() {
        assert(spaces.take(i) =~= spaces);
        if spaces.len() > 0 {
            space_entities_grow(spaces.drop_last(), i - 1);
            assert(spaces.drop_last().take(i - 1) =~= spaces.drop_last());
        }
    } else {
        assert(spaces.drop_last().take(i) =~= spaces.take(i));
        space_entities_grow(spaces.drop_last(), i);
    }
}

proof fn space_renaming_bound(
    start: (Map<u64, u64>, int),
    ids: Seq<u64>,
    tombstones: Seq<TombstoneView>,
)
    ensures
        start.1 <= space_renaming(start, ids, tombstones).1 <= start.1 + tombstones.len(),
        forall|k: u64|
            start.0.contains_key(k) ==> #[trigger] space_renaming(
                start,
                ids,
                tombstones,
            ).0.contains_key(k),
        forall|i: int|
            0 <= i < tombstones.len() && (#[trigger] tombstones[i]).kind == TombstoneKind::Space
                ==> space_renaming(start, ids, tombstones).0.contains_key(tombstones[i].id),
    decreases tombstones.len(),
{
    if tombstones.len() > 0 {
        space_renaming_bound(start, ids, tombstones.drop_last());
        let r = space_renaming(start, ids, tombstones);
        assert forall|i: int|
            0 <= i < tombstones.len() && (#[trigger] tombstones[i]).kind
                == TombstoneKind::Space implies r.0.contains_key(tombstones[i].id) by {
            if i < tombstones.len() - 1 {
                assert(tombstones.drop_last()[i] == tombstones[i]);
            }
        }
    }
}

proof fn tombstone_renaming_bound(
    start: BoardRenaming,
    ids: Seq<u64>,
    tombstones: Seq<TombstoneView>,
)
    ensures
        start.next <= tombstone_renaming(start, ids, tombstones).next <= start.next
            + tombstones.len(),
        forall|i: int|
            0 <= i < tombstones.len() && (#[trigger] tombstones[i]).kind == TombstoneKind::Note
                ==> tombstone_renaming(start, ids, tombstones).notes.contains_key(
                tombstones[i].id,
            ),
        forall|i: int|
            0 <= i < tombstones.len() && (#[trigger] tombstones[i]).kind == TombstoneKind::Group
                ==> tombstone_renaming(start, ids, tombstones).groups.contains_key(
                tombstones[i].id,
            ),
    decreases tombstones.len(),
{
    if tombstones.len() > 0 {
        tombstone_renaming_bound(start, ids, tombstones.drop_last());
        let r = tombstone_renaming(start, ids, tombstones);
        assert forall|i: int|
            0 <= i < tombstones.len() && (#[trigger] tombstones[i]).kind
                == TombstoneKind::Note implies r.notes.contains_key(tombstones[i].id) by {
            if i < tombstones.len() - 1 {
                assert(tombstones.drop_last()[i] == tombstones[i]);
            }
        }
        assert forall|i: int|
            0 <= i < tombstones.len() && (#[trigger] tombstones[i]).kind
                == TombstoneKind::Group implies r.groups.contains_key(tombstones[i].id) by {
            if i < tombstones.len() - 1 {
                assert(tombstones.drop_last()[i] == tombstones[i]);
            }
        }
    }
}

proof fn ids_before_bound(spaces: Seq<SpaceView>, ids: Seq<u64>, start: int, i: int)
    requires
        0 <= i <= spaces.len(),
    ensures
        start <= ids_before(spaces, ids, start, i) <= start + space_entities(spaces.take(i)),
    decreases i,
{
    if i > 0 {
        ids_before_bound(spaces, ids, start, i - 1);
        assert(spaces.take(i).drop_last() =~= spaces.take(i - 1));
        let b = spaces[i - 1].board;
        let from = ids_before(spaces, ids, start, i - 1);
        tombstone_renaming_bound(
            BoardRenaming {
                notes: id_map(note_ids_of(b.notes), ids, from),
                groups: id_map(group_ids_of(b.groups), ids, from + b.notes.len()),
                next: from + b.notes.len() + b.groups.len(),
            },
            ids,
            b.tombstones,
        );
    }
}

fn number_ids(olds: &Vec<u64>, ids: &Vec<u64>, from: usize) -> (r: HashMap<u64, u64>)
    requires
        from + olds@.len() <= ids@.len(),
    ensures
        r@ == id_map(olds@, ids@, from as int),
{
    let total: usize = ids.len();
    let mut map: HashMap<u64, u64> = HashMap::new();
    let mut i: usize = 0;
    assert(map@ =~= id_map(olds@.take(0), ids@, from as int));
    while i < olds.len()
        invariant
            total == ids@.len(),
            from + olds@.len() <= ids@.len(),
            i <= olds@.len(),
            map@ == id_map(olds@.take(i as int), ids@, from as int),
        decreases olds@.len() - i,
    {
        assert(olds@.take(i + 1).drop_last() =~= olds@.take(i as int));
        map.insert(olds[i], ids[from + i]);
        i = i + 1;
    }
    assert(olds@.take(i as int) =~= olds@);
    map
}

fn rename_spaces(
    start: HashMap<u64, u64>,
    used: usize,
    ids: &Vec<u64>,
    tombstones: &Vec<Tombstone>,
) -> (r: (HashMap<u64, u64>, usize))
    requires
        used + tombstones@.len() <= ids@.len(),
    ensures
        (r.0@, r.1 as int) == space_renaming((start@, used as int), ids@, views(tombstones@)),
{
    let total: usize = ids.len();
    let mut map = start;
    let mut next: usize = used;
    let ghost begin = (start@, used as int);
    let mut i: usize = 0;
    let ghost ts = views(tombstones@);
    assert(ts.take(0) =~= Seq::empty());
    while i < tombstones.len()
        invariant
            total == ids@.len(),
            begin.1 == used,
            ts == views(tombstones@),
            used + tombstones@.len() <= ids@.len(),
            i <= tombstones@.len(),
            (map@, next as int) == space_renaming(begin, ids@, ts.take(i as int)),
            next <= used + i,
        decreases tombstones@.len() - i,
    {
        assert(ts.take(i + 1).drop_last() =~= ts.take(i as int));
        assert(ts.take(i + 1).last() == tombstones@[i as int]@);
        let t = &tombstones[i];
        if t.kind == TombstoneKind::Space && !map.contains_key(&t.id) {
            map.insert(t.id, ids[next]);
            next = next + 1;
        }
        i = i + 1;
    }
    assert(ts.take(i as int) =~= ts);
    (map, next)
}

fn rename_board(
    board: &BoardData,
    ids: &Vec<u64>,
    from: usize,
) -> (r: (HashMap<u64, u64>, HashMap<u64, u64>, usize))
    requires
        from + board_entities(board@) <= ids@.len(),
    ensures
        (BoardRenaming { notes: r.0@, groups: r.1@, next: r.2 as int }) == board_renaming(
            board@,
            ids@,
            from as int,
        ),
{
    let total: usize = ids.len();
    let note_list = note_ids(&board.notes);
    let group_list = group_ids(&board.groups);
    let mut notes = number_ids(&note_list, ids, from);
    let mut groups = number_ids(&group_list, ids, from + board.notes.len());
    let mut next: usize = from + board.notes.len() + board.groups.len();
    let ghost begin = BoardRenaming { notes: notes@, groups: groups@, next: next as int };
    let ghost base = next as int;
    let ghost ts = views(board.tombstones@);
    assert(ts.take(0) =~= Seq::empty());
    let mut i: usize = 0;
    while i < board.tombstones.len()
        invariant
            total == ids@.len(),
            ts == views(board.tombstones@),
            base + board.tombstones@.len() <= ids@.len(),
            i <= board.tombstones@.len(),
            next <= base + i,
            (BoardRenaming { notes: notes@, groups: groups@, next: next as int })
                == tombstone_renaming(begin, ids@, ts.take(i as int)),
        decreases board.tombstones@.len() - i,
    {
        assert(ts.take(i + 1).drop_last() =~= ts.take(i as int));
        assert(ts.take(i + 1).last() == board.tombstones@[i as int]@);
        let t = &board.tombstones[i];
        if t.kind == TombstoneKind::Note && !notes.contains_key(&t.id) {
            notes.insert(t.id, ids[next]);
            next = next + 1;
        } else if t.kind == TombstoneKind::Group && !groups.contains_key(&t.id) {
            groups.insert(t.id, ids[next]);
            next = next + 1;
        }
        i = i + 1;
    }
    assert(ts.take(i as int) =~= ts);
    (notes, groups, next)
}

fn rekey_notes(
    notes: &Vec<Note>,
    groups: &HashMap<u64, u64>,
    ids: &Vec<u64>,
    from: usize,
) -> (r: Vec<Note>)
    requires
        from + notes@.len() <= ids@.len(),
    ensures
        views(r@) == views(notes@).map(
            |i: int, n: NoteView| rekeyed_note(groups@, n, ids@[from + i]),
        ),
{
    let total: usize = ids.len();
    let mut out: Vec<Note> = Vec::new();
    let mut i: usize = 0;
    while i < notes.len()
        invariant
            total == ids@.len(),
            from + notes@.len() <= ids@.len(),
            i <= notes@.len(),
            out@.len() == i,
            forall|j: int|
                0 <= j < i ==> (#[trigger] out@[j])@ == rekeyed_note(
                    groups@,
                    notes@[j]@,
                    ids@[from + j],
                ),
        decreases notes@.len() - i,
    {
        let mut n = notes[i].clone();
        n.id = ids[from + i];
        n.group_id = match notes[i].group_id {
            Some(g) => match groups.get(&g) {
                Some(id) => Some(*id),
                None => None,
            },
            None => None,
        };
        out.push(n);
        i = i + 1;
    }
    assert(views(out@) =~= views(notes@).map(
        |i: int, n: NoteView| rekeyed_note(groups@, n, ids@[from + i]),
    ));
    out
}

fn rekey_board(board: &BoardData, ids: &Vec<u64>, from: usize) -> (r: (BoardData, usize))
    requires
        from + board_entities(board@) <= ids@.len(),
    ensures
        r.0@ == rekeyed_board(board@, ids@, from as int),
        r.1 == board_renaming(board@, ids@, from as int).next,
{
    let (note_map, group_map, next) = rename_board(board, ids, from);
    let ghost r = board_renaming(board@, ids@, from as int);
    proof {
        tombstone_renaming_bound(
            BoardRenaming {
                notes: id_map(note_ids_of(board@.notes), ids@, from as int),
                groups: id_map(group_ids_of(board@.groups), ids@, from + board@.notes.len()),
                next: from + board@.notes.len() + board@.groups.len(),
            },
            ids@,
            board@.tombstones,
        );
    }
    let notes = rekey_notes(&board.notes, &group_map, ids, from);
    let total: usize = ids.len();
    let count: usize = board.notes.len();
    let mut groups: Vec<Group> = Vec::new();
    let mut i: usize = 0;
    while i < board.groups.len()
        invariant
            total == ids@.len(),
            count == board.notes@.len(),
            from + board_entities(board@) <= ids@.len(),
            i <= board.groups@.len(),
            groups@.len() == i,
            forall|j: int|
                0 <= j < i ==> (#[trigger] groups@[j])@ == (GroupView {
                    id: ids@[from + board@.notes.len() + j],
                    ..board.groups@[j]@
                }),
        decreases board.groups@.len() - i,
    {
        let mut g = board.groups[i].clone();
        g.id = ids[from + count + i];
        groups.push(g);
        i = i + 1;
    }
    let mut tombstones: Vec<Tombstone> = Vec::new();
    let mut k: usize = 0;
    while k < board.tombstones.len()
        invariant
            r.notes == note_map@,
            r.groups == group_map@,
            forall|i: int|
                0 <= i < board@.tombstones.len() && (#[trigger] board@.tombstones[i]).kind
                    == TombstoneKind::Note ==> r.notes.contains_key(board@.tombstones[i].id),
            forall|i: int|
                0 <= i < board@.tombstones.len() && (#[trigger] board@.tombstones[i]).kind
                    == TombstoneKind::Group ==> r.groups.contains_key(board@.tombstones[i].id),
            k <= board.tombstones@.len(),
            tombstones@.len() == k,
            forall|j: int|
                0 <= j < k ==> (#[trigger] tombstones@[j])@ == rekeyed_tombstone(
                    r,
                    board.tombstones@[j]@,
                ),
        decreases board.tombstones@.len() - k,
    {
        let mut t = board.tombstones[k].clone();
        assert(board@.tombstones[k as int] == board.tombstones@[k as int]@);
        match t.kind {
            TombstoneKind::Note => {
                if let Some(id) = note_map.get(&t.id) {
                    t.id = *id;
                }
            },
            TombstoneKind::Group => {
                if let Some(id) = group_map.get(&t.id) {
                    t.id = *id;
                }
            },
            TombstoneKind::Space => {},
        }
        tombstones.push(t);
        k = k + 1;
    }
    let out = BoardData { schema_version: board.schema_version, notes, groups, tombstones };
    assert(out@.groups =~= rekeyed_board(board@, ids@, from as int).groups);
    assert(out@.tombstones =~= rekeyed_board(board@, ids@, from as int).tombstones);
    (out, next)
}

/// Gives the entities of a workspace the numeric ids `ids`. The stable
/// identities stay, and references follow the renaming.
pub fn rekey_workspace_for_account(workspace: WorkspaceData, ids: &Vec<u64>) -> (r: WorkspaceData)
    requires
        workspace_entities(workspace@) <= ids@.len(),
    ensures
        r@ == rekeyed_workspace(workspace@, ids@),
{
    let old_ids = space_ids(&workspace.spaces);
    proof {
        space_entities_grow(workspace@.spaces, 0);
    }
    let live = number_ids(&old_ids, ids, 0);
    let active_space_id: u64 = match live.get(&workspace.active_space_id) {
        Some(id) => *id,
        None => workspace.active_space_id,
    };
    let count: usize = workspace.spaces.len();
    let ghost live_map = live@;
    let (known, used) = rename_spaces(live, count, ids, &workspace.tombstones);
    proof {
        space_renaming_bound((live_map, count as int), ids@, workspace@.tombstones);
    }
    let mut tombstones: Vec<Tombstone> = Vec::new();
    let mut k: usize = 0;
    while k < workspace.tombstones.len()
        invariant
            forall|i: int|
                0 <= i < workspace@.tombstones.len() && (#[trigger] workspace@.tombstones[i]).kind
                    == TombstoneKind::Space ==> known@.contains_key(workspace@.tombstones[i].id),
            k <= workspace.tombstones@.len(),
            tombstones@.len() == k,
            forall|j: int|
                0 <= j < k ==> (#[trigger] tombstones@[j])@ == ({
                    let t = workspace.tombstones@[j]@;
                    if t.kind == TombstoneKind::Space {
                        TombstoneView { id: known@[t.id], ..t }
                    } else {
                        t
                    }
                }),
        decreases workspace.tombstones@.len() - k,
    {
        let mut t = workspace.tombstones[k].clone();
        assert(workspace@.tombstones[k as int] == workspace.tombstones@[k as int]@);
        if t.kind == TombstoneKind::Space {
            if let Some(id) = known.get(&t.id) {
                t.id = *id;
            }
        }
        tombstones.push(t);
        k = k + 1;
    }
    let mut spaces: Vec<Space> = Vec::new();
    let mut next: usize = used;
    let mut i: usize = 0;
    while i < workspace.spaces.len()
        invariant
            i <= workspace.spaces@.len(),
            spaces@.len() == i,
            next == ids_before(workspace@.spaces, ids@, used as int, i as int),
            used <= workspace@.spaces.len() + workspace@.tombstones.len(),
            workspace_entities(workspace@) <= ids@.len(),
            forall|j: int|
                0 <= j < i ==> (#[trigger] spaces@[j])@ == (SpaceView {
                    id: ids@[j],
                    board: rekeyed_board(
                        workspace.spaces@[j]@.board,
                        ids@,
                        ids_before(workspace@.spaces, ids@, used as int, j),
                    ),
                    ..workspace.spaces@[j]@
                }),
        decreases workspace.spaces@.len() - i,
    {
        proof {
            ids_before_bound(workspace@.spaces, ids@, used as int, i as int);
            space_entities_grow(workspace@.spaces, i + 1);
            space_entities_grow(workspace@.spaces, 0);
            assert(workspace@.spaces.take(i + 1).drop_last() =~= workspace@.spaces.take(i as int));
            assert(workspace@.spaces.take(i + 1).last() == workspace.spaces@[i as int]@);
        }
        let mut s = workspace.spaces[i].clone();
        let (board, after) = rekey_board(&workspace.spaces[i].board, ids, next);
        s.id = ids[i];
        s.board = board;
        spaces.push(s);
        next = after;
        i = i + 1;
    }
    let out = WorkspaceData {
        schema_version: workspace.schema_version,
        device_id: workspace.device_id.clone(),
        tombstones,
        spaces,
        active_space_id,
    };
    assert(out@.tombstones =~= rekeyed_workspace(workspace@, ids@).tombstones);
    assert(out@.spaces =~= rekeyed_workspace(workspace@, ids@).spaces);
    out
}

/// Whether a space holds anything that its user put there.
pub open spec fn space_has_data(s: SpaceView) -> bool {
    ||| s.board.notes.len() > 0
    ||| s.board.groups.len() > 0
    ||| s.board.tombstones.len() > 0
    ||| s.archived
    ||| s.deleted_at is Some
    ||| s.name != "my space"@
}

/// Whether a workspace holds anything that its user put there.
pub open spec fn workspace_has_data(w: WorkspaceView) -> bool {
    ||| exists|i: int| 0 <= i < w.spaces.len() && space_has_data(#[trigger] w.spaces[i])
    ||| w.tombstones.len() > 0
}

/// Whether a space holds anything that its user put there.
pub fn space_has_local_data(space: &Space) -> (r: bool)
    ensures
        r == space_has_data(space@),
{
    space.board.notes.len() > 0 || space.board.groups.len() > 0 || space.board.tombstones.len() > 0
        || space.archived || space.deleted_at.is_some() || !text_eq(&space.name, "my space")
}

/// Whether a workspace holds anything that its user put there.
pub fn workspace_has_local_data(workspace: &WorkspaceData) -> (r: bool)
    ensures
        r == workspace_has_data(workspace@),
{
    let mut i: usize = 0;
    while i < workspace.spaces.len()
        invariant
            i <= workspace.spaces@.len(),
            forall|j: int| 0 <= j < i ==> !space_has_data(#[trigger] workspace@.spaces[j]),
        decreases workspace.spaces@.len() - i,
    {
        if space_has_local_data(&workspace.spaces[i]) {
            assert(space_has_data(workspace@.spaces[i as int]));
            return true;
        }
        i = i + 1;
    }
    workspace.tombstones.len() > 0
}

/// A space that stays on the device.
pub open spec fn local_space(s: SpaceView) -> SpaceView {
    SpaceView { sync_enabled: false, ..s }
}

/// A guest's workspace as it enters an account: in canonical form, with new
/// numeric ids, and on the device only.
pub open spec fn adopted_workspace(
    env: SurroundingsView,
    guest: WorkspaceView,
    ids: Seq<u64>,
) -> WorkspaceView {
    let w = rekeyed_workspace(normalized_workspace(env, guest), ids);
    WorkspaceView { spaces: w.spaces.map_values(|s: SpaceView| local_space(s)), ..w }
}

/// The stable identities of some spaces.
pub open spec fn stable_ids_of(spaces: Seq<SpaceView>) -> Seq<Seq<char>> {
    spaces.map_values(|s: SpaceView| s.stable_id)
}

/// Tombstones joined to a list that has none of the same kind and identity.
pub open spec fn joined_tombstones(
    list: Seq<TombstoneView>,
    more: Seq<TombstoneView>,
) -> Seq<TombstoneView>
    decreases more.len(),
{
    if more.len() == 0 {
        list
    } else {
        let before = joined_tombstones(list, more.drop_last());
        let t = more.last();
        if exists|i: int|
            0 <= i < before.len() && (#[trigger] before[i]).kind == t.kind && before[i].stable_id
                == t.stable_id {
            before
        } else {
            before.push(t)
        }
    }
}

/// The guest spaces that an account takes in: those with data in them whose
/// stable identity the account does not have yet.
pub open spec fn welcome(account: Seq<SpaceView>, guest: Seq<SpaceView>) -> Seq<SpaceView> {
    guest.filter(
        |s: SpaceView| space_has_data(s) && !stable_ids_of(account).contains(s.stable_id),
    )
}

/// An account's workspace with a guest's spaces behind its own. Where the
/// account had nothing to show, the first open space with data becomes active.
pub open spec fn merged_workspace(
    env: SurroundingsView,
    account: WorkspaceView,
    guest: WorkspaceView,
    ids: Seq<u64>,
) -> WorkspaceView {
    if !workspace_has_data(guest) {
        normalized_workspace(env, account)
    } else {
        let adopted = adopted_workspace(env, guest, ids);
        let spaces = account.spaces + welcome(account.spaces, adopted.spaces);
        let shown = first_space(spaces, |s: SpaceView| space_has_data(s) && is_open(s));
        normalized_workspace(
            env,
            WorkspaceView {
                spaces,
                tombstones: joined_tombstones(account.tombstones, adopted.tombstones),
                active_space_id: if !workspace_has_data(account) && shown < spaces.len() {
                    spaces[shown].id
                } else {
                    account.active_space_id
                },
                ..account
            },
        )
    }
}

/// Canonical form changes no number of entities.
pub proof fn normalizing_keeps_the_count(env: SurroundingsView, w: WorkspaceView)
    ensures
        workspace_entities(normalized_workspace(env, w)) == workspace_entities(w),
{
    let m = w.spaces.map_values(|s: SpaceView| crate::workspace::normalized_space(env, s));
    let r = normalized_workspace(env, w);
    crate::workspace::opening_keeps_the_spaces(
        WorkspaceView {
            schema_version: env.schema_version,
            device_id: r.device_id,
            tombstones: r.tombstones,
            spaces: m,
            active_space_id: w.active_space_id,
        },
    );
    assert forall|i: int| 0 <= i < w.spaces.len() implies board_entities(
        (#[trigger] r.spaces[i]).board,
    ) == board_entities(w.spaces[i].board) by {
        assert(m[i].board == crate::workspace::normalized_board(env, w.spaces[i].board));
    }
    same_counts(w.spaces, r.spaces);
}

proof fn same_counts(a: Seq<SpaceView>, b: Seq<SpaceView>)
    requires
        a.len() == b.len(),
        forall|i: int|
            0 <= i < a.len() ==> board_entities((#[trigger] b[i]).board) == board_entities(
                a[i].board,
            ),
    ensures
        space_entities(a) == space_entities(b),
    decreases a.len(),
{
    if a.len() > 0 {
        assert(board_entities(b.last().board) == board_entities(a.last().board)) by {
            assert(b[b.len() - 1] == b.last());
        }
        assert forall|i: int| 0 <= i < a.drop_last().len() implies board_entities(
            (#[trigger] b.drop_last()[i]).board,
        ) == board_entities(a.drop_last()[i].board) by {
            assert(b.drop_last()[i] == b[i]);
        }
        same_counts(a.drop_last(), b.drop_last());
    }
}

fn adopt_workspace(env: &Surroundings, guest: WorkspaceData, ids: &Vec<u64>) -> (r: WorkspaceData)
    requires
        workspace_entities(guest@) <= ids@.len(),
    ensures
        r@ == adopted_workspace(env@, guest@, ids@),
{
    proof {
        normalizing_keeps_the_count(env@, guest@);
    }
    let mut w = rekey_workspace_for_account(normalize_workspace(env, guest), ids);
    let ghost before = w@;
    let mut spaces: Vec<Space> = Vec::new();
    let mut i: usize = 0;
    while i < w.spaces.len()
        invariant
            i <= w.spaces@.len(),
            spaces@.len() == i,
            forall|j: int| 0 <= j < i ==> (#[trigger] spaces@[j])@ == local_space(w.spaces@[j]@),
        decreases w.spaces@.len() - i,
    {
        let mut s = w.spaces[i].clone();
        s.sync_enabled = false;
        spaces.push(s);
        i = i + 1;
    }
    w.spaces = spaces;
    assert(w@.spaces =~= before.spaces.map_values(|s: SpaceView| local_space(s)));
    w
}

/// Whether one of the spaces has the given stable identity.
pub fn has_stable_id(spaces: &Vec<Space>, stable_id: &String) -> (r: bool)
    ensures
        r == stable_ids_of(views(spaces@)).contains(stable_id@),
{
    let ghost known = stable_ids_of(views(spaces@));
    let mut i: usize = 0;
    while i < spaces.len()
        invariant
            known == stable_ids_of(views(spaces@)),
            i <= spaces@.len(),
            forall|j: int| 0 <= j < i ==> #[trigger] known[j] != stable_id@,
        decreases spaces@.len() - i,
    {
        assert(known[i as int] == spaces@[i as int].stable_id@);
        if spaces[i].stable_id == *stable_id {
            return true;
        }
        i = i + 1;
    }
    false
}

fn join_tombstones(list: &Vec<Tombstone>, more: &Vec<Tombstone>) -> (r: Vec<Tombstone>)
    ensures
        views(r@) == joined_tombstones(views(list@), views(more@)),
{
    broadcast use views_push;

    let mut out = clone_tombstones(list);
    let ghost extra = views(more@);
    let mut k: usize = 0;
    assert(extra.take(0) =~= Seq::empty());
    while k < more.len()
        invariant
            extra == views(more@),
            k <= more@.len(),
            views(out@) == joined_tombstones(views(list@), extra.take(k as int)),
        decreases more@.len() - k,
    {
        let t = &more[k];
        assert(extra.take(k + 1).drop_last() =~= extra.take(k as int));
        assert(extra.take(k + 1).last() == t@);
        let ghost before = views(out@);
        let mut found = false;
        let mut i: usize = 0;
        while i < out.len() && !found
            invariant
                before == views(out@),
                i <= out@.len(),
                found ==> exists|j: int|
                    0 <= j < before.len() && (#[trigger] before[j]).kind == t.kind
                        && before[j].stable_id == t.stable_id@,
                !found ==> forall|j: int|
                    0 <= j < i ==> !((#[trigger] before[j]).kind == t.kind && before[j].stable_id
                        == t.stable_id@),
            decreases out@.len() - i,
        {
            assert(before[i as int] == out@[i as int]@);
            if out[i].kind == t.kind && out[i].stable_id == t.stable_id {
                found = true;
            }
            i = i + 1;
        }
        if !found {
            out.push(t.clone());
        }
        k = k + 1;
    }
    assert(extra.take(k as int) =~= extra);
    out
}

fn position_of_shown(spaces: &Vec<Space>) -> (r: usize)
    ensures
        r == first_space(views(spaces@), |s: SpaceView| space_has_data(s) && is_open(s)),
        r <= spaces@.len(),
{
    let mut i: usize = 0;
    while i < spaces.len() && !(space_has_local_data(&spaces[i]) && !spaces[i].archived
        && spaces[i].deleted_at.is_none())
        invariant
            i <= spaces@.len(),
            forall|j: int|
                0 <= j < i ==> !(space_has_data(#[trigger] views(spaces@)[j]) && is_open(
                    views(spaces@)[j],
                )),
        decreases spaces@.len() - i,
    {
        i = i + 1;
    }
    proof {
        first_space_at(
            views(spaces@),
            |s: SpaceView| space_has_data(s) && is_open(s),
            i as int,
        );
    }
    i
}

/// Moves a guest's spaces into an account's workspace. They stay on the
/// device; nothing of the account is replaced.
pub fn merge_guest_workspace_into_account(
    env: &Surroundings,
    account_workspace: WorkspaceData,
    guest_workspace: WorkspaceData,
    ids: &Vec<u64>,
) -> (r: WorkspaceData)
    requires
        workspace_entities(guest_workspace@) <= ids@.len(),
    ensures
        r@ == merged_workspace(env@, account_workspace@, guest_workspace@, ids@),
{
    if !workspace_has_local_data(&guest_workspace) {
        return normalize_workspace(env, account_workspace);
    }
    let had_data = workspace_has_local_data(&account_workspace);
    let adopted = adopt_workspace(env, guest_workspace, ids);
    let ghost pred = |s: SpaceView|
        space_has_data(s) && !stable_ids_of(account_workspace@.spaces).contains(s.stable_id);
    let mut spaces = crate::model::clone_spaces(&account_workspace.spaces);
    let mut i: usize = 0;
    proof {
        crate::lists::filter_ends(adopted@.spaces, pred);
        assert(account_workspace@.spaces + Seq::empty() =~= account_workspace@.spaces);
    }
    while i < adopted.spaces.len()
        invariant
            pred == (|s: SpaceView|
                space_has_data(s) && !stable_ids_of(account_workspace@.spaces).contains(
                    s.stable_id,
                )),
            i <= adopted.spaces@.len(),
            views(spaces@) == account_workspace@.spaces + adopted@.spaces.take(i as int).filter(
                pred,
            ),
        decreases adopted.spaces@.len() - i,
    {
        broadcast use views_push;

        proof {
            crate::lists::filter_step(adopted@.spaces, pred, i as int);
        }
        let s = &adopted.spaces[i];
        let ghost kept = adopted@.spaces.take(i as int).filter(pred);
        if space_has_local_data(s) && !has_stable_id(&account_workspace.spaces, &s.stable_id) {
            spaces.push(s.clone());
            assert(account_workspace@.spaces + kept.push(s@) =~= (account_workspace@.spaces
                + kept).push(s@));
        }
        i = i + 1;
    }
    proof {
        crate::lists::filter_ends(adopted@.spaces, pred);
    }
    let shown = position_of_shown(&spaces);
    let active_space_id: u64 = if !had_data && shown < spaces.len() {
        spaces[shown].id
    } else {
        account_workspace.active_space_id
    };
    let tombstones = join_tombstones(&account_workspace.tombstones, &adopted.tombstones);
    normalize_workspace(
        env,
        WorkspaceData {
            schema_version: account_workspace.schema_version,
            device_id: account_workspace.device_id.clone(),
            tombstones,
            spaces,
            active_space_id,
        },
    )
}

/// A workspace of one local space that holds a board.
pub open spec fn single_space_workspace(
    env: SurroundingsView,
    id: u64,
    stable_id: Seq<char>,
    board: BoardView,
    active_space_id: u64,
) -> WorkspaceView {
    WorkspaceView {
        schema_version: env.schema_version,
        device_id: env.device_id,
        tombstones: Seq::empty(),
        spaces: seq![
            SpaceView {
                id,
                stable_id,
                name: "my space"@,
                sync_enabled: false,
                sync_override: None,
                metadata_version: 0,
                archived: false,
                created_at: env.now,
                updated_at: env.now,
                deleted_at: None,
                board,
            },
        ],
        active_space_id,
    }
}

/// A workspace of one local space that holds a board.
pub fn single_space(
    env: &Surroundings,
    id: u64,
    stable_id: &str,
    board: BoardData,
    active_space_id: u64,
) -> (r: WorkspaceData)
    ensures
        r@ == single_space_workspace(env@, id, stable_id@, board@, active_space_id),
{
    let mut spaces: Vec<Space> = Vec::new();
    spaces.push(
        Space {
            id,
            stable_id: stable_id.to_owned(),
            name: "my space".to_owned(),
            sync_enabled: false,
            sync_override: None,
            metadata_version: 0,
            archived: false,
            created_at: env.now,
            updated_at: env.now,
            deleted_at: None,
            board,
        },
    );
    let r = WorkspaceData {
        schema_version: env.schema_version,
        device_id: env.device_id.clone(),
        tombstones: Vec::new(),
        spaces,
        active_space_id,
    };
    let ghost expected = single_space_workspace(env@, id, stable_id@, board@, active_space_id);
    assert(r@.tombstones =~= expected.tombstones);
    assert(r@.spaces =~= expected.spaces);
    r
}

/// A new workspace around a board. No space is active until it is brought
/// into canonical form.
pub fn workspace_from_board(
    env: &Surroundings,
    id: u64,
    stable_id: &str,
    board: BoardData,
) -> (r: WorkspaceData)
    ensures
        r@ == single_space_workspace(env@, id, stable_id@, board@, 0),
{
    single_space(env, id, stable_id, board, 0)
}

/// What an account starts with on a device where a guest worked: its own
/// workspace with the guest's spaces, the guest's spaces alone, or an empty
/// space.
pub open spec fn account_start(
    env: SurroundingsView,
    account: Option<WorkspaceView>,
    guest: WorkspaceView,
    ids: Seq<u64>,
    space_id: u64,
    space_stable_id: Seq<char>,
) -> WorkspaceView {
    match account {
        Some(account) => merged_workspace(env, account, guest, ids),
        None => if workspace_has_data(guest) {
            normalized_workspace(env, adopted_workspace(env, guest, ids))
        } else {
            single_space_workspace(
                env,
                space_id,
                space_stable_id,
                blank_board(env.schema_version),
                0,
            )
        },
    }
}

/// What an account starts with on a device where a guest worked.
pub fn account_workspace_with_local_guest_spaces(
    env: &Surroundings,
    account_workspace: Option<WorkspaceData>,
    guest_workspace: WorkspaceData,
    ids: &Vec<u64>,
    space_id: u64,
    space_stable_id: &str,
) -> (r: WorkspaceData)
    requires
        workspace_entities(guest_workspace@) <= ids@.len(),
    ensures
        r@ == account_start(
            env@,
            crate::lists::opt_view(account_workspace),
            guest_workspace@,
            ids@,
            space_id,
            space_stable_id@,
        ),
{
    match account_workspace {
        Some(account) => merge_guest_workspace_into_account(env, account, guest_workspace, ids),
        None => {
            if workspace_has_local_data(&guest_workspace) {
                normalize_workspace(env, adopt_workspace(env, guest_workspace, ids))
            } else {
                workspace_from_board(
                    env,
                    space_id,
                    space_stable_id,
                    empty_board(env.schema_version),
                )
            }
        },
    }
}

/// The part of a workspace that stays on the device: its local spaces, and of
/// the deleted spaces those that were local.
pub open spec fn local_only(env: SurroundingsView, w: WorkspaceView) -> WorkspaceView {
    let local = w.spaces.filter(|s: SpaceView| !s.sync_enabled);
    normalized_workspace(
        env,
        WorkspaceView {
            spaces: local,
            tombstones: w.tombstones.filter(
                |t: TombstoneView|
                    t.kind != TombstoneKind::Space || stable_ids_of(local).contains(t.stable_id),
            ),
            ..w
        },
    )
}

/// Keeps what stays on the device and drops what belongs to an account.
pub fn local_only_workspace(env: &Surroundings, workspace: WorkspaceData) -> (r: WorkspaceData)
    ensures
        r@ == local_only(env@, workspace@),
{
    broadcast use views_push;

    let ghost w = workspace@;
    let ghost is_local = |s: SpaceView| !s.sync_enabled;
    let mut spaces: Vec<Space> = Vec::new();
    let mut i: usize = 0;
    proof {
        crate::lists::filter_ends(w.spaces, is_local);
    }
    assert(views(spaces@) =~= w.spaces.take(0).filter(is_local));
    while i < workspace.spaces.len()
        invariant
            w == workspace@,
            is_local == (|s: SpaceView| !s.sync_enabled),
            i <= workspace.spaces@.len(),
            views(spaces@) == w.spaces.take(i as int).filter(is_local),
        decreases workspace.spaces@.len() - i,
    {
        proof {
            crate::lists::filter_step(w.spaces, is_local, i as int);
        }
        if !workspace.spaces[i].sync_enabled {
            spaces.push(workspace.spaces[i].clone());
        }
        i = i + 1;
    }
    let ghost local = w.spaces.filter(is_local);
    let ghost stays = |t: TombstoneView|
        t.kind != TombstoneKind::Space || stable_ids_of(local).contains(t.stable_id);
    proof {
        crate::lists::filter_ends(w.tombstones, stays);
    }
    let mut tombstones: Vec<Tombstone> = Vec::new();
    assert(views(tombstones@) =~= w.tombstones.take(0).filter(stays));
    let mut k: usize = 0;
    while k < workspace.tombstones.len()
        invariant
            w == workspace@,
            views(spaces@) == local,
            stays == (|t: TombstoneView|
                t.kind != TombstoneKind::Space || stable_ids_of(local).contains(t.stable_id)),
            k <= workspace.tombstones@.len(),
            views(tombstones@) == w.tombstones.take(k as int).filter(stays),
        decreases workspace.tombstones@.len() - k,
    {
        proof {
            crate::lists::filter_step(w.tombstones, stays, k as int);
        }
        let t = &workspace.tombstones[k];
        if t.kind != TombstoneKind::Space || has_stable_id(&spaces, &t.stable_id) {
            tombstones.push(t.clone());
        }
        k = k + 1;
    }
    normalize_workspace(
        env,
        WorkspaceData {
            schema_version: workspace.schema_version,
            device_id: workspace.device_id.clone(),
            tombstones,
            spaces,
            active_space_id: workspace.active_space_id,
        },
    )
}

proof fn id_map_names(olds: Seq<u64>, ids: Seq<u64>, from: int, k: int)
    requires
        0 <= k < olds.len(),
        forall|j: int| k < j < olds.len() ==> olds[j] != olds[k],
    ensures
        id_map(olds, ids, from).contains_key(olds[k]),
        id_map(olds, ids, from)[olds[k]] == ids[from + k],
    decreases olds.len(),
{
    if k < olds.len() - 1 {
        let shorter = olds.drop_last();
        assert(shorter[k] == olds[k]);
        assert forall|j: int| k < j < shorter.len() implies shorter[j] != shorter[k] by {
            assert(shorter[j] == olds[j]);
        }
        id_map_names(shorter, ids, from, k);
        assert(olds.last() != olds[k]);
    }
}

proof fn space_renaming_keeps(
    start: (Map<u64, u64>, int),
    ids: Seq<u64>,
    tombstones: Seq<TombstoneView>,
    key: u64,
)
    requires
        start.0.contains_key(key),
    ensures
        space_renaming(start, ids, tombstones).0.contains_key(key),
        space_renaming(start, ids, tombstones).0[key] == start.0[key],
    decreases tombstones.len(),
{
    if tombstones.len() > 0 {
        space_renaming_keeps(start, ids, tombstones.drop_last(), key);
    }
}

proof fn tombstone_renaming_keeps(
    start: BoardRenaming,
    ids: Seq<u64>,
    tombstones: Seq<TombstoneView>,
    key: u64,
)
    ensures
        start.groups.contains_key(key) ==> {
            &&& tombstone_renaming(start, ids, tombstones).groups.contains_key(key)
            &&& tombstone_renaming(start, ids, tombstones).groups[key] == start.groups[key]
        },
        start.notes.contains_key(key) ==> {
            &&& tombstone_renaming(start, ids, tombstones).notes.contains_key(key)
            &&& tombstone_renaming(start, ids, tombstones).notes[key] == start.notes[key]
        },
    decreases tombstones.len(),
{
    if tombstones.len() > 0 {
        tombstone_renaming_keeps(start, ids, tombstones.drop_last(), key);
    }
}

/// New numeric ids leave everything else of a space as it was: its stable
/// identity, its name and its settings, and every note, group and tombstone of
/// its board in its place with its stable identity and contents.
pub proof fn rekeying_preserves_identity(w: WorkspaceView, ids: Seq<u64>, i: int)
    requires
        0 <= i < w.spaces.len(),
    ensures
        ({
            let s = w.spaces[i];
            let r = rekeyed_workspace(w, ids).spaces[i];
            &&& r == (SpaceView { id: r.id, board: r.board, ..s })
            &&& r.board.notes.len() == s.board.notes.len()
            &&& r.board.groups.len() == s.board.groups.len()
            &&& r.board.tombstones.len() == s.board.tombstones.len()
            &&& forall|k: int|
                0 <= k < s.board.notes.len() ==> #[trigger] r.board.notes[k] == (NoteView {
                    id: r.board.notes[k].id,
                    group_id: r.board.notes[k].group_id,
                    ..s.board.notes[k]
                })
            &&& forall|k: int|
                0 <= k < s.board.groups.len() ==> #[trigger] r.board.groups[k] == (GroupView {
                    id: r.board.groups[k].id,
                    ..s.board.groups[k]
                })
            &&& forall|k: int|
                0 <= k < s.board.tombstones.len() ==> #[trigger] r.board.tombstones[k] == (
                TombstoneView { id: r.board.tombstones[k].id, ..s.board.tombstones[k] })
        }),
{
}

/// What pointed to a space points to it under its new id: the active space,
/// and the tombstone that a deleted copy left. Of several spaces with one id,
/// the last is meant.
pub proof fn rekeying_follows_spaces(w: WorkspaceView, ids: Seq<u64>, k: int)
    requires
        0 <= k < w.spaces.len(),
        forall|j: int| k < j < w.spaces.len() ==> (#[trigger] w.spaces[j]).id != w.spaces[k].id,
    ensures
        ({
            let r = rekeyed_workspace(w, ids);
            &&& w.active_space_id == w.spaces[k].id ==> r.active_space_id == r.spaces[k].id
            &&& forall|t: int|
                0 <= t < w.tombstones.len() && (#[trigger] w.tombstones[t]).kind
                    == TombstoneKind::Space && w.tombstones[t].id == w.spaces[k].id
                    ==> r.tombstones[t].id == r.spaces[k].id
        }),
{
    let olds = space_ids_of(w.spaces);
    assert forall|j: int| k < j < olds.len() implies olds[j] != olds[k] by {
        assert(olds[j] == w.spaces[j].id);
    }
    id_map_names(olds, ids, 0, k);
    let live = id_map(olds, ids, 0);
    space_renaming_keeps((live, w.spaces.len() as int), ids, w.tombstones, w.spaces[k].id);
}

/// A note stays in its group: the reference follows the group's new id. Of
/// several groups with one id, the last is meant.
pub proof fn rekeying_follows_groups(b: BoardView, ids: Seq<u64>, from: int, n: int, k: int)
    requires
        0 <= n < b.notes.len(),
        0 <= k < b.groups.len(),
        b.notes[n].group_id == Some(b.groups[k].id),
        forall|j: int| k < j < b.groups.len() ==> (#[trigger] b.groups[j]).id != b.groups[k].id,
    ensures
        rekeyed_board(b, ids, from).notes[n].group_id == Some(
            rekeyed_board(b, ids, from).groups[k].id,
        ),
{
    let olds = group_ids_of(b.groups);
    assert forall|j: int| k < j < olds.len() implies olds[j] != olds[k] by {
        assert(olds[j] == b.groups[j].id);
    }
    id_map_names(olds, ids, from + b.notes.len(), k);
    tombstone_renaming_keeps(
        BoardRenaming {
            notes: id_map(note_ids_of(b.notes), ids, from),
            groups: id_map(olds, ids, from + b.notes.len()),
            next: from + b.notes.len() + b.groups.len(),
        },
        ids,
        b.tombstones,
        b.groups[k].id,
    );
}

proof fn ids_before_grow(spaces: Seq<SpaceView>, ids: Seq<u64>, start: int, i: int, j: int)
    requires
        0 <= i < j <= spaces.len(),
    ensures
        ids_before(spaces, ids, start, i) + spaces[i].board.notes.len()
            + spaces[i].board.groups.len() <= ids_before(spaces, ids, start, j),
    decreases j,
{
    let b = spaces[j - 1].board;
    let from = ids_before(spaces, ids, start, j - 1);
    tombstone_renaming_bound(
        BoardRenaming {
            notes: id_map(note_ids_of(b.notes), ids, from),
            groups: id_map(group_ids_of(b.groups), ids, from + b.notes.len()),
            next: from + b.notes.len() + b.groups.len(),
        },
        ids,
        b.tombstones,
    );
    if i < j - 1 {
        ids_before_grow(spaces, ids, start, i, j - 1);
    }
}

/// The numeric ids of a space and of everything on its board.
pub open spec fn entity_ids(s: SpaceView) -> Seq<u64> {
    seq![s.id] + note_ids_of(s.board.notes) + group_ids_of(s.board.groups)
}

/// Where an id of a renamed space comes from.
proof fn entity_id_source(w: WorkspaceView, ids: Seq<u64>, i: int, a: int)
    requires
        workspace_entities(w) <= ids.len(),
        0 <= i < w.spaces.len(),
        0 <= a < entity_ids(rekeyed_workspace(w, ids).spaces[i]).len(),
    ensures
        ({
            let live = id_map(space_ids_of(w.spaces), ids, 0);
            let start = space_renaming((live, w.spaces.len() as int), ids, w.tombstones).1;
            let from = ids_before(w.spaces, ids, start, i);
            let board = w.spaces[i].board;
            &&& w.spaces.len() <= from
            &&& from + board.notes.len() + board.groups.len() <= ids.len()
            &&& a <= board.notes.len() + board.groups.len()
            &&& entity_ids(rekeyed_workspace(w, ids).spaces[i])[a] == (if a == 0 {
                ids[i]
            } else {
                ids[from + a - 1]
            })
        }),
{
    let live = id_map(space_ids_of(w.spaces), ids, 0);
    let known = space_renaming((live, w.spaces.len() as int), ids, w.tombstones);
    space_renaming_bound((live, w.spaces.len() as int), ids, w.tombstones);
    ids_before_bound(w.spaces, ids, known.1, i);
    ids_before_bound(w.spaces, ids, known.1, i + 1);
    space_entities_grow(w.spaces, i + 1);
    ids_before_grow(w.spaces, ids, known.1, i, i + 1);
}

/// Where the ids differ from each other, no two of the spaces, notes and groups
/// of the workspace share one.
pub proof fn rekeyed_ids_are_distinct(
    w: WorkspaceView,
    ids: Seq<u64>,
    i: int,
    a: int,
    j: int,
    b: int,
)
    requires
        ids.no_duplicates(),
        workspace_entities(w) <= ids.len(),
        0 <= i < w.spaces.len(),
        0 <= j < w.spaces.len(),
        0 <= a < entity_ids(rekeyed_workspace(w, ids).spaces[i]).len(),
        0 <= b < entity_ids(rekeyed_workspace(w, ids).spaces[j]).len(),
        i != j || a != b,
    ensures
        entity_ids(rekeyed_workspace(w, ids).spaces[i])[a] != entity_ids(
            rekeyed_workspace(w, ids).spaces[j],
        )[b],
{
    let live = id_map(space_ids_of(w.spaces), ids, 0);
    let start = space_renaming((live, w.spaces.len() as int), ids, w.tombstones).1;
    entity_id_source(w, ids, i, a);
    entity_id_source(w, ids, j, b);
    if i < j {
        ids_before_grow(w.spaces, ids, start, i, j);
    } else if j < i {
        ids_before_grow(w.spaces, ids, start, j, i);
    }
}

/// Adopted spaces stay on the device: every space of the merged workspace that
/// syncs is one of the account's own.
pub proof fn adopted_spaces_stay_local(
    env: SurroundingsView,
    account: WorkspaceView,
    guest: WorkspaceView,
    ids: Seq<u64>,
    i: int,
)
    requires
        0 <= i < merged_workspace(env, account, guest, ids).spaces.len(),
    ensures
        ({
            let r = merged_workspace(env, account, guest, ids).spaces;
            &&& account.spaces.len() <= r.len()
            &&& i < account.spaces.len() ==> r[i].sync_enabled == account.spaces[i].sync_enabled
                && r[i].id == account.spaces[i].id && r[i].name == account.spaces[i].name
            &&& i >= account.spaces.len() ==> !r[i].sync_enabled
        }),
{
    let adopted = adopted_workspace(env, guest, ids);
    let extra = welcome(account.spaces, adopted.spaces);
    let spaces = if workspace_has_data(guest) {
        account.spaces + extra
    } else {
        account.spaces
    };
    let r = merged_workspace(env, account, guest, ids);
    let shown = first_space(spaces, |s: SpaceView| space_has_data(s) && is_open(s));
    let base = if !workspace_has_data(guest) {
        account
    } else {
        WorkspaceView {
            spaces,
            tombstones: joined_tombstones(account.tombstones, adopted.tombstones),
            active_space_id: if !workspace_has_data(account) && shown < spaces.len() {
                spaces[shown].id
            } else {
                account.active_space_id
            },
            ..account
        }
    };
    assert(r == normalized_workspace(env, base));
    let m = base.spaces.map_values(|s: SpaceView| crate::workspace::normalized_space(env, s));
    crate::workspace::opening_keeps_the_spaces(
        WorkspaceView {
            schema_version: env.schema_version,
            device_id: r.device_id,
            tombstones: r.tombstones,
            spaces: m,
            active_space_id: base.active_space_id,
        },
    );
    assert(m[i] == crate::workspace::normalized_space(env, base.spaces[i]));
    if i >= account.spaces.len() {
        let pred = |s: SpaceView|
            space_has_data(s) && !stable_ids_of(account.spaces).contains(s.stable_id);
        let k = i - account.spaces.len();
        assert(extra == adopted.spaces.filter(pred));
        crate::lists::filter_member(adopted.spaces, pred, k);
        assert(adopted.spaces.contains(extra[k]));
    }
}

/// A workspace cut down to what stays on the device holds no space that syncs,
/// and every space of it that does not sync is still there, in order, with its
/// board.
pub proof fn local_only_drops_synced_spaces(env: SurroundingsView, w: WorkspaceView)
    ensures
        ({
            let local = w.spaces.filter(|s: SpaceView| !s.sync_enabled);
            let kept = local_only(env, w).spaces;
            &&& kept.len() == local.len()
            &&& forall|i: int|
                0 <= i < kept.len() ==> {
                    &&& !(#[trigger] kept[i]).sync_enabled
                    &&& kept[i].id == local[i].id
                    &&& kept[i].name == local[i].name
                    &&& kept[i].deleted_at == local[i].deleted_at
                    &&& kept[i].board == crate::workspace::normalized_board(env, local[i].board)
                }
        }),
{
    let local = w.spaces.filter(|s: SpaceView| !s.sync_enabled);
    let r = local_only(env, w);
    let m = local.map_values(|s: SpaceView| crate::workspace::normalized_space(env, s));
    crate::workspace::opening_keeps_the_spaces(
        WorkspaceView {
            schema_version: env.schema_version,
            device_id: r.device_id,
            tombstones: r.tombstones,
            spaces: m,
            active_space_id: w.active_space_id,
        },
    );
    assert forall|i: int| 0 <= i < r.spaces.len() implies {
        &&& !(#[trigger] r.spaces[i]).sync_enabled
        &&& r.spaces[i].id == local[i].id
        &&& r.spaces[i].name == local[i].name
        &&& r.spaces[i].deleted_at == local[i].deleted_at
        &&& r.spaces[i].board == crate::workspace::normalized_board(env, local[i].board)
    } by {
        assert(m[i] == crate::workspace::normalized_space(env, local[i]));
        crate::lists::filter_member(w.spaces, |s: SpaceView| !s.sync_enabled, i);
    }
}

/// A note that came along: nothing of it has changed but its ids, its group's
/// ids and times that were missing.
pub open spec fn same_task(a: NoteView, b: NoteView) -> bool {
    &&& a.text == b.text
    &&& a.color == b.color
    &&& a.status == b.status
    &&& a.due_date == b.due_date
    &&& a.x == b.x
    &&& a.y == b.y
    &&& a.rotation == b.rotation
    &&& a.deleted_at == b.deleted_at
    &&& b.created_at != 0 ==> a.created_at == b.created_at
    &&& b.updated_at != 0 ==> a.updated_at == b.updated_at
}

/// Whether two groups are the same but for what names them.
pub open spec fn same_frame(a: GroupView, b: GroupView) -> bool {
    &&& a.label == b.label
    &&& a.origin == b.origin
    &&& a.size == b.size
    &&& a.deleted_at == b.deleted_at
    &&& b.created_at != 0 ==> a.created_at == b.created_at
    &&& b.updated_at != 0 ==> a.updated_at == b.updated_at
}

/// Whether the notes of one board are in the groups that stand where those of
/// the other board stand.
pub open spec fn grouped_alike(a: BoardView, b: BoardView) -> bool {
    &&& forall|n: int, k: int|
        0 <= n < b.notes.len() && 0 <= k < b.groups.len() && (#[trigger] b.notes[n]).group_id
            == Some((#[trigger] b.groups[k]).id) && (forall|j: int|
            k < j < b.groups.len() ==> (#[trigger] b.groups[j]).id != b.groups[k].id)
            ==> a.notes[n].group_id == Some(a.groups[k].id)
    &&& forall|n: int|
        0 <= n < b.notes.len() && (#[trigger] b.notes[n]).group_id is None ==> a.notes[n].group_id
            is None
}

/// Whether a space carries everything that another had on its board.
pub open spec fn same_work(a: SpaceView, b: SpaceView) -> bool {
    &&& a.name == b.name
    &&& a.deleted_at == b.deleted_at
    &&& a.board.notes.len() == b.board.notes.len()
    &&& a.board.groups.len() == b.board.groups.len()
    &&& a.board.tombstones.len() == b.board.tombstones.len()
    &&& forall|k: int|
        0 <= k < b.board.notes.len() ==> same_task(#[trigger] a.board.notes[k], b.board.notes[k])
    &&& forall|k: int|
        0 <= k < b.board.groups.len() ==> same_frame(
            #[trigger] a.board.groups[k],
            b.board.groups[k],
        )
}

proof fn normalizing_keeps_the_work(env: SurroundingsView, w: WorkspaceView, i: int)
    requires
        0 <= i < w.spaces.len(),
    ensures
        same_work(normalized_workspace(env, w).spaces[i], w.spaces[i]),
        normalized_workspace(env, w).spaces.len() == w.spaces.len(),
{
    let r = normalized_workspace(env, w).spaces[i];
    crate::workspace::normalizing_keeps_the_spaces(env, w, i);
    assert forall|k: int| 0 <= k < w.spaces[i].board.notes.len() implies same_task(
        #[trigger] r.board.notes[k],
        w.spaces[i].board.notes[k],
    ) by {
        crate::workspace::normalizing_keeps_the_notes(env, w, i, k);
    }
    assert forall|k: int| 0 <= k < w.spaces[i].board.groups.len() implies same_frame(
        #[trigger] r.board.groups[k],
        w.spaces[i].board.groups[k],
    ) by {
        crate::workspace::normalizing_keeps_the_groups(env, w, i, k);
    }
}

proof fn same_work_goes_on(a: SpaceView, b: SpaceView, c: SpaceView)
    requires
        same_work(a, b),
        same_work(b, c),
    ensures
        same_work(a, c),
{
    assert forall|k: int| 0 <= k < c.board.notes.len() implies same_task(
        #[trigger] a.board.notes[k],
        c.board.notes[k],
    ) by {
        assert(same_task(b.board.notes[k], c.board.notes[k]));
    }
    assert forall|k: int| 0 <= k < c.board.groups.len() implies same_frame(
        #[trigger] a.board.groups[k],
        c.board.groups[k],
    ) by {
        assert(same_frame(b.board.groups[k], c.board.groups[k]));
    }
}

proof fn adopting_keeps_the_work(
    env: SurroundingsView,
    guest: WorkspaceView,
    ids: Seq<u64>,
    i: int,
)
    requires
        0 <= i < guest.spaces.len(),
    ensures
        ({
            let a = adopted_workspace(env, guest, ids).spaces[i];
            let n = normalized_workspace(env, guest).spaces[i];
            &&& adopted_workspace(env, guest, ids).spaces.len() == guest.spaces.len()
            &&& same_work(a, guest.spaces[i])
            &&& a.stable_id == n.stable_id
            &&& a.archived == n.archived
            &&& !a.sync_enabled
        }),
{
    let w = normalized_workspace(env, guest);
    normalizing_keeps_the_work(env, guest, i);
    rekeying_preserves_identity(w, ids, i);
    let r = rekeyed_workspace(w, ids).spaces[i];
    let a = adopted_workspace(env, guest, ids).spaces[i];
    assert(a == local_space(r));
    assert forall|k: int| 0 <= k < w.spaces[i].board.notes.len() implies same_task(
        #[trigger] a.board.notes[k],
        w.spaces[i].board.notes[k],
    ) by {
        assert(r.board.notes[k].text == w.spaces[i].board.notes[k].text);
    }
    assert forall|k: int| 0 <= k < w.spaces[i].board.groups.len() implies same_frame(
        #[trigger] a.board.groups[k],
        w.spaces[i].board.groups[k],
    ) by {
        assert(r.board.groups[k].label == w.spaces[i].board.groups[k].label);
    }
    assert(same_work(a, w.spaces[i]));
    same_work_goes_on(a, w.spaces[i], guest.spaces[i]);
}

/// Notes stay in their groups when a workspace gets new ids, and a note without
/// a group gets none.
pub proof fn rekeyed_notes_stay_in_their_groups(w: WorkspaceView, ids: Seq<u64>, i: int)
    requires
        0 <= i < w.spaces.len(),
    ensures
        grouped_alike(rekeyed_workspace(w, ids).spaces[i].board, w.spaces[i].board),
{
    let b = w.spaces[i].board;
    let r = rekeyed_workspace(w, ids);
    let live = id_map(space_ids_of(w.spaces), ids, 0);
    let known = space_renaming((live, w.spaces.len() as int), ids, w.tombstones);
    let from = ids_before(w.spaces, ids, known.1, i);
    assert(r.spaces[i].board == rekeyed_board(b, ids, from));
    assert forall|n: int, k: int|
        0 <= n < b.notes.len() && 0 <= k < b.groups.len() && (#[trigger] b.notes[n]).group_id
            == Some((#[trigger] b.groups[k]).id) && (forall|j: int|
            k < j < b.groups.len() ==> (#[trigger] b.groups[j]).id
                != b.groups[k].id) implies r.spaces[i].board.notes[n].group_id == Some(
        r.spaces[i].board.groups[k].id,
    ) by {
        rekeying_follows_groups(b, ids, from, n, k);
    }
}

proof fn adopting_keeps_the_groups(
    env: SurroundingsView,
    guest: WorkspaceView,
    ids: Seq<u64>,
    i: int,
)
    requires
        0 <= i < guest.spaces.len(),
    ensures
        grouped_alike(adopted_workspace(env, guest, ids).spaces[i].board, guest.spaces[i].board),
{
    let w = normalized_workspace(env, guest);
    crate::workspace::normalizing_keeps_the_spaces(env, guest, i);
    rekeyed_notes_stay_in_their_groups(w, ids, i);
    let a = adopted_workspace(env, guest, ids).spaces[i];
    let (m, b) = (w.spaces[i].board, guest.spaces[i].board);
    assert(a.board == rekeyed_workspace(w, ids).spaces[i].board);
    assert forall|n: int| 0 <= n < b.notes.len() implies (#[trigger] m.notes[n]).group_id
        == b.notes[n].group_id by {
        crate::workspace::normalizing_keeps_the_notes(env, guest, i, n);
    }
    assert forall|k: int| 0 <= k < b.groups.len() implies (#[trigger] m.groups[k]).id
        == b.groups[k].id by {
        crate::workspace::normalizing_keeps_the_groups(env, guest, i, k);
    }
    assert forall|n: int, k: int|
        0 <= n < b.notes.len() && 0 <= k < b.groups.len() && (#[trigger] b.notes[n]).group_id
            == Some((#[trigger] b.groups[k]).id) && (forall|j: int|
            k < j < b.groups.len() ==> (#[trigger] b.groups[j]).id
                != b.groups[k].id) implies a.board.notes[n].group_id == Some(
        a.board.groups[k].id,
    ) by {
        assert(m.notes[n].group_id == Some(m.groups[k].id));
        assert forall|j: int| k < j < m.groups.len() implies (#[trigger] m.groups[j]).id
            != m.groups[k].id by {
            assert(b.groups[j].id != b.groups[k].id);
        }
    }
    assert forall|n: int|
        0 <= n < b.notes.len() && (#[trigger] b.notes[n]).group_id is None implies a.board.notes[n].group_id
        is None by {
        assert(m.notes[n].group_id is None);
    }
}

proof fn normalizing_keeps_the_grouping(
    env: SurroundingsView,
    w: WorkspaceView,
    i: int,
    b: BoardView,
)
    requires
        0 <= i < w.spaces.len(),
        w.spaces[i].board == b || grouped_alike(w.spaces[i].board, b),
        w.spaces[i].board.notes.len() == b.notes.len(),
        w.spaces[i].board.groups.len() == b.groups.len(),
    ensures
        grouped_alike(normalized_workspace(env, w).spaces[i].board, b),
{
    let m = w.spaces[i].board;
    let r = normalized_workspace(env, w).spaces[i].board;
    crate::workspace::normalizing_keeps_the_spaces(env, w, i);
    assert forall|n: int| 0 <= n < m.notes.len() implies (#[trigger] r.notes[n]).group_id
        == m.notes[n].group_id by {
        crate::workspace::normalizing_keeps_the_notes(env, w, i, n);
    }
    assert forall|k: int| 0 <= k < m.groups.len() implies (#[trigger] r.groups[k]).id
        == m.groups[k].id by {
        crate::workspace::normalizing_keeps_the_groups(env, w, i, k);
    }
}

/// Nothing that a guest made is lost by signing in: every space of the guest
/// with a note, a group or a tombstone on its board, or that was renamed,
/// deleted or archived, and whose identity the account does not have, stands
/// behind the account's own spaces, with its name and everything on its board,
/// and stays on the device.
pub proof fn guest_work_comes_along(
    env: SurroundingsView,
    account: WorkspaceView,
    guest: WorkspaceView,
    ids: Seq<u64>,
    i: int,
)
    requires
        0 <= i < guest.spaces.len(),
        guest.spaces[i].board.notes.len() > 0 || guest.spaces[i].board.groups.len() > 0
            || guest.spaces[i].board.tombstones.len() > 0 || guest.spaces[i].name != "my space"@
            || guest.spaces[i].deleted_at is Some || normalized_workspace(
            env,
            guest,
        ).spaces[i].archived,
        env.valid_ids.contains(normalized_workspace(env, guest).spaces[i].stable_id),
        forall|a: int|
            0 <= a < account.spaces.len() ==> (#[trigger] account.spaces[a]).stable_id
                != normalized_workspace(env, guest).spaces[i].stable_id,
    ensures
        exists|j: int|
            account.spaces.len() <= j < merged_workspace(env, account, guest, ids).spaces.len() && ({
                let s = #[trigger] merged_workspace(env, account, guest, ids).spaces[j];
                &&& s.stable_id == normalized_workspace(env, guest).spaces[i].stable_id
                &&& same_work(s, guest.spaces[i])
                &&& grouped_alike(s.board, guest.spaces[i].board)
                &&& !s.sync_enabled
            }),
{
    let st = normalized_workspace(env, guest).spaces[i].stable_id;
    adopting_keeps_the_work(env, guest, ids, i);
    adopting_keeps_the_groups(env, guest, ids, i);
    crate::workspace::normalizing_keeps_the_spaces(env, guest, i);
    let adopted = adopted_workspace(env, guest, ids);
    let a = adopted.spaces[i];
    let pred = |s: SpaceView|
        space_has_data(s) && !stable_ids_of(account.spaces).contains(s.stable_id);
    assert(space_has_data(guest.spaces[i]));
    assert(workspace_has_data(guest));
    assert(!stable_ids_of(account.spaces).contains(st)) by {
        if stable_ids_of(account.spaces).contains(st) {
            let k = stable_ids_of(account.spaces).index_of(st);
            assert(account.spaces[k].stable_id == st);
        }
    }
    assert(pred(a));
    let extra = welcome(account.spaces, adopted.spaces);
    assert(extra == adopted.spaces.filter(pred));
    crate::lists::filter_keeps(adopted.spaces, pred, i);
    let k = extra.index_of(a);
    let base = merge_base(env, account, guest, ids);
    let j = account.spaces.len() + k;
    assert(base.spaces[j] == a);
    normalizing_keeps_the_work(env, base, j);
    crate::workspace::normalizing_keeps_the_spaces(env, base, j);
    let r = merged_workspace(env, account, guest, ids);
    assert(r == normalized_workspace(env, base));
    same_work_goes_on(r.spaces[j], a, guest.spaces[i]);
    normalizing_keeps_the_grouping(env, base, j, guest.spaces[i].board);
    assert(r.spaces[j].stable_id == st);
}

/// The workspace that is brought into canonical form when a guest's work is
/// merged.
spec fn merge_base(
    env: SurroundingsView,
    account: WorkspaceView,
    guest: WorkspaceView,
    ids: Seq<u64>,
) -> WorkspaceView {
    if !workspace_has_data(guest) {
        account
    } else {
        let adopted = adopted_workspace(env, guest, ids);
        let spaces = account.spaces + welcome(account.spaces, adopted.spaces);
        let shown = first_space(spaces, |s: SpaceView| space_has_data(s) && is_open(s));
        WorkspaceView {
            spaces,
            tombstones: joined_tombstones(account.tombstones, adopted.tombstones),
            active_space_id: if !workspace_has_data(account) && shown < spaces.len() {
                spaces[shown].id
            } else {
                account.active_space_id
            },
            ..account
        }
    }
}

/// Merging a guest's work in leaves the account's own spaces in front, each with
/// its id, its name, its settings and everything on its board.
pub proof fn merging_keeps_the_account(
    env: SurroundingsView,
    account: WorkspaceView,
    guest: WorkspaceView,
    ids: Seq<u64>,
    i: int,
)
    requires
        0 <= i < account.spaces.len(),
    ensures
        ({
            let r = merged_workspace(env, account, guest, ids);
            let s = r.spaces[i];
            let a = account.spaces[i];
            &&& account.spaces.len() <= r.spaces.len()
            &&& same_work(s, a)
            &&& grouped_alike(s.board, a.board)
            &&& s.id == a.id
            &&& s.sync_enabled == a.sync_enabled
            &&& s.sync_override == a.sync_override
            &&& s.metadata_version == a.metadata_version
            &&& a.created_at != 0 ==> s.created_at == a.created_at
            &&& env.valid_ids.contains(a.stable_id) ==> s.stable_id == a.stable_id
            &&& workspace_has_data(account) && a.id == account.active_space_id && !a.archived
                && a.deleted_at is None ==> r.active_space_id == account.active_space_id
        }),
{
    let base = merge_base(env, account, guest, ids);
    assert(base.spaces[i] == account.spaces[i]);
    normalizing_keeps_the_work(env, base, i);
    normalizing_keeps_the_grouping(env, base, i, account.spaces[i].board);
    crate::workspace::normalizing_keeps_the_spaces(env, base, i);
    crate::workspace::normalizing_chooses_the_active_space(env, base, i);
    assert(merged_workspace(env, account, guest, ids) == normalized_workspace(env, base));
}

/// Every space behind the account's own is one of the guest's, with everything
/// on its board, and has an identity that the account did not have; a guest who
/// made nothing adds nothing.
pub proof fn merging_adds_only_guest_work(
    env: SurroundingsView,
    account: WorkspaceView,
    guest: WorkspaceView,
    ids: Seq<u64>,
    j: int,
)
    requires
        account.spaces.len() <= j < merged_workspace(env, account, guest, ids).spaces.len(),
    ensures
        workspace_has_data(guest),
        exists|i: int|
            0 <= i < guest.spaces.len() && same_work(
                merged_workspace(env, account, guest, ids).spaces[j],
                #[trigger] guest.spaces[i],
            ) && (forall|a: int|
                0 <= a < account.spaces.len() ==> (#[trigger] account.spaces[a]).stable_id
                    != normalized_workspace(env, guest).spaces[i].stable_id),
{
    let base = merge_base(env, account, guest, ids);
    let r = merged_workspace(env, account, guest, ids);
    assert(r == normalized_workspace(env, base));
    assert(r.spaces.len() == base.spaces.len()) by {
        if base.spaces.len() > 0 {
            normalizing_keeps_the_work(env, base, 0);
        }
    }
    normalizing_keeps_the_work(env, base, j);
    let adopted = adopted_workspace(env, guest, ids);
    let extra = welcome(account.spaces, adopted.spaces);
    let pred = |s: SpaceView|
        space_has_data(s) && !stable_ids_of(account.spaces).contains(s.stable_id);
    assert(extra == adopted.spaces.filter(pred));
    let k = j - account.spaces.len();
    assert(base.spaces[j] == extra[k]);
    crate::lists::filter_member(adopted.spaces, pred, k);
    let i = adopted.spaces.index_of(extra[k]);
    assert(guest.spaces.len() == adopted.spaces.len()) by {
        if guest.spaces.len() > 0 {
            adopting_keeps_the_work(env, guest, ids, 0);
        }
    }
    adopting_keeps_the_work(env, guest, ids, i);
    same_work_goes_on(r.spaces[j], adopted.spaces[i], guest.spaces[i]);
    assert forall|a: int| 0 <= a < account.spaces.len() implies (
    #[trigger] account.spaces[a]).stable_id != normalized_workspace(
        env,
        guest,
    ).spaces[i].stable_id by {
        assert(stable_ids_of(account.spaces)[a] == account.spaces[a].stable_id);
        assert(stable_ids_of(account.spaces).contains(account.spaces[a].stable_id));
    }
    assert(same_work(r.spaces[j], guest.spaces[i]));
}

/// A space holds work exactly where something is on its board, or where it was
/// renamed, archived or deleted; a workspace does where a space of it does, or
/// where it has tombstones.
pub proof fn work_is_what_was_put_there(s: SpaceView, w: WorkspaceView)
    ensures
        space_has_data(s) == (s.board.notes.len() > 0 || s.board.groups.len() > 0
            || s.board.tombstones.len() > 0 || s.archived || s.deleted_at is Some || s.name
            != "my space"@),
        w.spaces.contains(s) && space_has_data(s) ==> workspace_has_data(w),
        w.tombstones.len() > 0 ==> workspace_has_data(w),
        w.spaces.len() == 0 && w.tombstones.len() == 0 ==> !workspace_has_data(w),
{
    if w.spaces.contains(s) && space_has_data(s) {
        let i = w.spaces.index_of(s);
        assert(space_has_data(w.spaces[i]));
    }
}

/// Joined tombstones keep every one of the first list in its place, and have one
/// of the kind and identity of every one of the second.
pub proof fn joined_tombstones_keep_both(
    list: Seq<TombstoneView>,
    more: Seq<TombstoneView>,
    i: int,
    k: int,
)
    ensures
        list.len() <= joined_tombstones(list, more).len(),
        0 <= i < list.len() ==> joined_tombstones(list, more)[i] == list[i],
        0 <= k < more.len() ==> exists|j: int|
            0 <= j < joined_tombstones(list, more).len() && (#[trigger] joined_tombstones(
                list,
                more,
            )[j]).kind == more[k].kind && joined_tombstones(list, more)[j].stable_id
                == more[k].stable_id,
    decreases more.len(),
{
    if more.len() > 0 {
        let rest = more.drop_last();
        let before = joined_tombstones(list, rest);
        let all = joined_tombstones(list, more);
        joined_tombstones_keep_both(list, rest, i, k);
        if 0 <= k < more.len() - 1 {
            assert(rest[k] == more[k]);
            let j = choose|j: int|
                0 <= j < before.len() && (#[trigger] before[j]).kind == more[k].kind
                    && before[j].stable_id == more[k].stable_id;
            assert(all[j] == before[j]);
        } else if k == more.len() - 1 {
            let t = more.last();
            if exists|a: int|
                0 <= a < before.len() && (#[trigger] before[a]).kind == t.kind
                    && before[a].stable_id == t.stable_id {
                let a = choose|a: int|
                    0 <= a < before.len() && (#[trigger] before[a]).kind == t.kind
                        && before[a].stable_id == t.stable_id;
                assert(all[a] == before[a]);
            } else {
                assert(all[before.len() as int] == t);
            }
        }
    }
}

/// A workspace around one board has one space: with the id and identity that
/// were given, the usual name, and the board as it is, on the device only.
pub proof fn single_spaces_hold_the_board(
    env: SurroundingsView,
    id: u64,
    stable_id: Seq<char>,
    board: BoardView,
    active: u64,
)
    ensures
        ({
            let w = single_space_workspace(env, id, stable_id, board, active);
            &&& w.spaces.len() == 1
            &&& w.spaces[0].id == id
            &&& w.spaces[0].stable_id == stable_id
            &&& w.spaces[0].name == "my space"@
            &&& w.spaces[0].board == board
            &&& !w.spaces[0].sync_enabled
            &&& w.spaces[0].sync_override is None
            &&& !w.spaces[0].archived
            &&& w.spaces[0].deleted_at is None
            &&& w.spaces[0].metadata_version == 0
            &&& w.spaces[0].created_at == env.now
            &&& w.spaces[0].updated_at == env.now
            &&& w.active_space_id == active
            &&& w.tombstones.len() == 0
            &&& w.schema_version == env.schema_version
            &&& w.device_id == env.device_id
        }),
{
}

/// An account starts with everything that it has and everything that the guest
/// made; where neither made anything, with one empty space.
pub proof fn accounts_start_with_all_work(
    env: SurroundingsView,
    account: Option<WorkspaceView>,
    guest: WorkspaceView,
    ids: Seq<u64>,
    space_id: u64,
    space_stable_id: Seq<char>,
    i: int,
)
    ensures
        ({
            let r = account_start(env, account, guest, ids, space_id, space_stable_id);
            &&& account is Some && 0 <= i < account->0.spaces.len() ==> same_work(
                r.spaces[i],
                account->0.spaces[i],
            ) && r.spaces[i].id == account->0.spaces[i].id
            &&& account is None && workspace_has_data(guest) && 0 <= i < guest.spaces.len() ==> {
                &&& r.spaces.len() == guest.spaces.len()
                &&& same_work(r.spaces[i], guest.spaces[i])
                &&& grouped_alike(r.spaces[i].board, guest.spaces[i].board)
                &&& !r.spaces[i].sync_enabled
            }
            &&& account is None && !workspace_has_data(guest) ==> {
                &&& r.spaces.len() == 1
                &&& r.spaces[0].id == space_id
                &&& r.spaces[0].stable_id == space_stable_id
                &&& r.spaces[0].board.notes.len() == 0
                &&& r.spaces[0].board.groups.len() == 0
            }
        }),
{
    if let Some(a) = account {
        if 0 <= i < a.spaces.len() {
            merging_keeps_the_account(env, a, guest, ids, i);
        }
    } else if workspace_has_data(guest) && 0 <= i < guest.spaces.len() {
        let adopted = adopted_workspace(env, guest, ids);
        adopting_keeps_the_work(env, guest, ids, i);
        adopting_keeps_the_groups(env, guest, ids, i);
        normalizing_keeps_the_work(env, adopted, i);
        normalizing_keeps_the_grouping(env, adopted, i, guest.spaces[i].board);
        crate::workspace::normalizing_keeps_the_spaces(env, adopted, i);
        same_work_goes_on(
            normalized_workspace(env, adopted).spaces[i],
            adopted.spaces[i],
            guest.spaces[i],
        );
    }
}

/// What stays on the device are the spaces that do not sync: each of them, with
/// as much on its board, and no other.
pub proof fn local_spaces_stay_on_the_device(env: SurroundingsView, w: WorkspaceView, k: int)
    ensures
        0 <= k < local_only(env, w).spaces.len() ==> !local_only(env, w).spaces[k].sync_enabled,
        0 <= k < w.spaces.len() && !w.spaces[k].sync_enabled ==> exists|i: int|
            0 <= i < local_only(env, w).spaces.len() && (
            #[trigger] local_only(env, w).spaces[i]).id == w.spaces[k].id && local_only(
                env,
                w,
            ).spaces[i].name == w.spaces[k].name && local_only(env, w).spaces[i].board.notes.len()
                == w.spaces[k].board.notes.len(),
{
    let pred = |s: SpaceView| !s.sync_enabled;
    let local = w.spaces.filter(pred);
    let kept = WorkspaceView {
        spaces: local,
        tombstones: w.tombstones.filter(
            |t: TombstoneView|
                t.kind != TombstoneKind::Space || stable_ids_of(local).contains(t.stable_id),
        ),
        ..w
    };
    let r = local_only(env, w);
    assert(r == normalized_workspace(env, kept));
    crate::workspace::normalizing_keeps_the_size(env, kept);
    if 0 <= k < r.spaces.len() {
        crate::workspace::normalizing_keeps_the_spaces(env, kept, k);
        crate::lists::filter_member(w.spaces, pred, k);
    }
    if 0 <= k < w.spaces.len() && !w.spaces[k].sync_enabled {
        crate::lists::filter_keeps(w.spaces, pred, k);
        let i = local.index_of(w.spaces[k]);
        crate::workspace::normalizing_keeps_the_spaces(env, kept, i);
        assert(r.spaces[i].id == w.spaces[k].id);
    }
}

/// Merging keeps what was deleted: every tombstone of the account in its place,
/// and for every one of a guest who made something one of the same kind and
/// identity.
pub proof fn merging_keeps_the_tombstones(
    env: SurroundingsView,
    account: WorkspaceView,
    guest: WorkspaceView,
    ids: Seq<u64>,
    i: int,
    k: int,
)
    ensures
        ({
            let r = merged_workspace(env, account, guest, ids);
            &&& account.tombstones.len() <= r.tombstones.len()
            &&& 0 <= i < account.tombstones.len() ==> r.tombstones[i].kind
                == account.tombstones[i].kind && r.tombstones[i].id == account.tombstones[i].id
                && r.tombstones[i].deleted_at == account.tombstones[i].deleted_at
        }),
        0 <= k < guest.tombstones.len() && env.valid_ids.contains(guest.tombstones[k].stable_id)
            ==> exists|j: int|
            0 <= j < merged_workspace(env, account, guest, ids).tombstones.len() && (
            #[trigger] merged_workspace(env, account, guest, ids).tombstones[j]).kind
                == guest.tombstones[k].kind && merged_workspace(
                env,
                account,
                guest,
                ids,
            ).tombstones[j].stable_id == guest.tombstones[k].stable_id,
{
    let base = merge_base(env, account, guest, ids);
    let r = merged_workspace(env, account, guest, ids);
    assert(r == normalized_workspace(env, base));
    crate::workspace::normalizing_keeps_the_tombstones(env, base);
    let adopted = adopted_workspace(env, guest, ids);
    joined_tombstones_keep_both(account.tombstones, adopted.tombstones, i, k);
    if 0 <= k < guest.tombstones.len() && env.valid_ids.contains(guest.tombstones[k].stable_id) {
        let n = normalized_workspace(env, guest);
        crate::workspace::normalizing_keeps_the_tombstones(env, guest);
        assert(n.tombstones[k].kind == guest.tombstones[k].kind);
        assert(adopted.tombstones[k].kind == guest.tombstones[k].kind);
        assert(adopted.tombstones[k].stable_id == guest.tombstones[k].stable_id);
        assert(workspace_has_data(guest));
        let both = joined_tombstones(account.tombstones, adopted.tombstones);
        let j = choose|j: int|
            0 <= j < both.len() && (#[trigger] both[j]).kind == adopted.tombstones[k].kind
                && both[j].stable_id == adopted.tombstones[k].stable_id;
        assert(base.tombstones[j] == both[j]);
        assert(r.tombstones[j].kind == guest.tombstones[k].kind);
    }
}

/// An account without work of its own shows the guest's: the first open space
/// that holds any comes to the front, and none is closed or opened for it.
pub proof fn guest_work_is_shown_to_new_accounts(
    env: SurroundingsView,
    account: WorkspaceView,
    guest: WorkspaceView,
    ids: Seq<u64>,
    i: int,
)
    requires
        workspace_has_data(guest),
        !workspace_has_data(account),
        0 <= i < adopted_workspace(env, guest, ids).spaces.len(),
        space_has_data(adopted_workspace(env, guest, ids).spaces[i]),
        is_open(adopted_workspace(env, guest, ids).spaces[i]),
        !stable_ids_of(account.spaces).contains(
            adopted_workspace(env, guest, ids).spaces[i].stable_id,
        ),
    ensures
        exists|j: int|
            account.spaces.len() <= j < merged_workspace(env, account, guest, ids).spaces.len() && ({
                let s = #[trigger] merged_workspace(env, account, guest, ids).spaces[j];
                &&& s.id == merged_workspace(env, account, guest, ids).active_space_id
                &&& is_open(s)
                &&& s.board.notes.len() > 0 || s.board.groups.len() > 0 || s.board.tombstones.len()
                    > 0 || s.name != "my space"@
            }),
{
    let base = merge_base(env, account, guest, ids);
    let r = merged_workspace(env, account, guest, ids);
    assert(r == normalized_workspace(env, base));
    let adopted = adopted_workspace(env, guest, ids);
    let keep = |s: SpaceView|
        space_has_data(s) && !stable_ids_of(account.spaces).contains(s.stable_id);
    let extra = welcome(account.spaces, adopted.spaces);
    assert(extra == adopted.spaces.filter(keep));
    crate::lists::filter_keeps(adopted.spaces, keep, i);
    let e = extra.index_of(adopted.spaces[i]);
    let shows = |s: SpaceView| space_has_data(s) && is_open(s);
    assert(shows(base.spaces[account.spaces.len() + e]));
    crate::workspace::first_space_is_least(base.spaces, shows);
    let j = first_space(base.spaces, shows);
    assert(j < base.spaces.len());
    assert(shows(base.spaces[j]));
    if j < account.spaces.len() {
        assert(space_has_data(account.spaces[j]));
    }
    crate::workspace::normalizing_keeps_the_spaces(env, base, j);
    crate::workspace::normalizing_chooses_the_active_space(env, base, j);
    assert(r.spaces[j].id == r.active_space_id);
}

/// Where the space in front of an account is open, merging closes and opens no
/// space of it.
pub proof fn merging_opens_nothing(
    env: SurroundingsView,
    account: WorkspaceView,
    guest: WorkspaceView,
    ids: Seq<u64>,
    k: int,
    i: int,
)
    requires
        workspace_has_data(account),
        0 <= k < account.spaces.len(),
        account.spaces[k].id == account.active_space_id,
        is_open(account.spaces[k]),
        0 <= i < account.spaces.len(),
    ensures
        merged_workspace(env, account, guest, ids).spaces[i].archived
            == account.spaces[i].archived,
        merged_workspace(env, account, guest, ids).active_space_id == account.active_space_id,
{
    let base = merge_base(env, account, guest, ids);
    assert(base.spaces[i] == account.spaces[i]);
    assert(base.spaces[k] == account.spaces[k]);
    crate::workspace::normalizing_keeps_the_spaces(env, base, i);
    crate::workspace::normalizing_chooses_the_active_space(env, base, k);
    assert(merged_workspace(env, account, guest, ids) == normalized_workspace(env, base));
    assert(normalized_workspace(env, base).spaces[i].archived == base.spaces[i].archived);
}

/// A workspace has as many entities as it needs ids for: one for every space,
/// note, group and tombstone.
pub proof fn entities_are_counted(w: WorkspaceView, s: SpaceView, t: TombstoneView)
    ensures
        w.spaces.len() == 0 && w.tombstones.len() == 0 ==> workspace_entities(w) == 0,
        workspace_entities(WorkspaceView { spaces: w.spaces.push(s), ..w }) == workspace_entities(w)
            + 1 + s.board.notes.len() + s.board.groups.len() + s.board.tombstones.len(),
        workspace_entities(WorkspaceView { tombstones: w.tombstones.push(t), ..w })
            == workspace_entities(w) + 1,
{
    assert(w.spaces.push(s).drop_last() =~= w.spaces);
}

/// The ids of a list are those of its items, in their places.
pub proof fn ids_stand_in_their_places(
    notes: Seq<NoteView>,
    groups: Seq<GroupView>,
    spaces: Seq<SpaceView>,
    i: int,
)
    ensures
        note_ids_of(notes).len() == notes.len(),
        group_ids_of(groups).len() == groups.len(),
        space_ids_of(spaces).len() == spaces.len(),
        stable_ids_of(spaces).len() == spaces.len(),
        0 <= i < notes.len() ==> note_ids_of(notes)[i] == notes[i].id,
        0 <= i < groups.len() ==> group_ids_of(groups)[i] == groups[i].id,
        0 <= i < spaces.len() ==> space_ids_of(spaces)[i] == spaces[i].id,
        0 <= i < spaces.len() ==> stable_ids_of(spaces)[i] == spaces[i].stable_id,
{
}

/// What stays on the device keeps its tombstones: every one of a note or a
/// group, and that of a space where the space stays too.
pub proof fn local_tombstones_stay_on_the_device(
    env: SurroundingsView,
    w: WorkspaceView,
    t: int,
    k: int,
)
    requires
        0 <= t < w.tombstones.len(),
    ensures
        w.tombstones[t].kind != TombstoneKind::Space || (0 <= k < w.spaces.len()
            && !w.spaces[k].sync_enabled && w.spaces[k].stable_id == w.tombstones[t].stable_id)
            ==> exists|i: int|
            0 <= i < local_only(env, w).tombstones.len() && (
            #[trigger] local_only(env, w).tombstones[i]).kind == w.tombstones[t].kind
                && local_only(env, w).tombstones[i].id == w.tombstones[t].id,
        w.tombstones[t].kind == TombstoneKind::Space && (forall|i: int|
            0 <= i < w.tombstones.len() && i != t ==> (#[trigger] w.tombstones[i]).id
                != w.tombstones[t].id) && (forall|j: int|
            0 <= j < w.spaces.len() && !(#[trigger] w.spaces[j]).sync_enabled
                ==> w.spaces[j].stable_id != w.tombstones[t].stable_id) ==> forall|i: int|
            0 <= i < local_only(env, w).tombstones.len() ==> (
            #[trigger] local_only(env, w).tombstones[i]).id != w.tombstones[t].id,
{
    let local_pred = |s: SpaceView| !s.sync_enabled;
    let local = w.spaces.filter(local_pred);
    let pred = |x: TombstoneView|
        x.kind != TombstoneKind::Space || stable_ids_of(local).contains(x.stable_id);
    let kept = WorkspaceView { spaces: local, tombstones: w.tombstones.filter(pred), ..w };
    let r = local_only(env, w);
    assert(r == normalized_workspace(env, kept));
    crate::workspace::normalizing_keeps_the_tombstones(env, kept);
    let x = w.tombstones[t];
    if x.kind != TombstoneKind::Space || (0 <= k < w.spaces.len() && !w.spaces[k].sync_enabled
        && w.spaces[k].stable_id == x.stable_id) {
        if x.kind == TombstoneKind::Space {
            crate::lists::filter_keeps(w.spaces, local_pred, k);
            let j = local.index_of(w.spaces[k]);
            assert(stable_ids_of(local)[j] == x.stable_id);
        }
        assert(pred(x));
        crate::lists::filter_keeps(w.tombstones, pred, t);
        let i = kept.tombstones.index_of(x);
        assert(r.tombstones[i].kind == x.kind);
    }
    if x.kind == TombstoneKind::Space && (forall|i: int|
        0 <= i < w.tombstones.len() && i != t ==> (#[trigger] w.tombstones[i]).id != x.id) && (
    forall|j: int|
        0 <= j < w.spaces.len() && !(#[trigger] w.spaces[j]).sync_enabled ==> w.spaces[j].stable_id
            != x.stable_id) {
        assert forall|i: int| 0 <= i < r.tombstones.len() implies (#[trigger] r.tombstones[i]).id
            != x.id by {
            crate::lists::filter_member(w.tombstones, pred, i);
            let y = kept.tombstones[i];
            let m = w.tombstones.index_of(y);
            if y.id == x.id {
                assert(m == t);
                assert(stable_ids_of(local).contains(x.stable_id));
                let j = stable_ids_of(local).index_of(x.stable_id);
                crate::lists::filter_member(w.spaces, local_pred, j);
                let q = w.spaces.index_of(local[j]);
                assert(w.spaces[q].stable_id == x.stable_id);
            }
        }
    }
}

proof fn renamed_tombstones_come_from(
    start: BoardRenaming,
    ids: Seq<u64>,
    tombstones: Seq<TombstoneView>,
    key: u64,
)
    ensures
        ({
            let r = tombstone_renaming(start, ids, tombstones);
            &&& !start.notes.contains_key(key) && r.notes.contains_key(key) ==> exists|m: int|
                start.next <= m < r.next && r.notes[key] == #[trigger] ids[m]
            &&& !start.groups.contains_key(key) && r.groups.contains_key(key) ==> exists|m: int|
                start.next <= m < r.next && r.groups[key] == #[trigger] ids[m]
            &&& start.next <= r.next
        }),
    decreases tombstones.len(),
{
    if tombstones.len() > 0 {
        let rest = tombstones.drop_last();
        renamed_tombstones_come_from(start, ids, rest, key);
        let before = tombstone_renaming(start, ids, rest);
        let r = tombstone_renaming(start, ids, tombstones);
        let fresh = ids[before.next];
        if !start.notes.contains_key(key) && before.notes.contains_key(key) {
            let m = choose|m: int|
                start.next <= m < before.next && before.notes[key] == #[trigger] ids[m];
            assert(r.notes[key] == ids[m]);
        }
        if !start.groups.contains_key(key) && before.groups.contains_key(key) {
            let m = choose|m: int|
                start.next <= m < before.next && before.groups[key] == #[trigger] ids[m];
            assert(r.groups[key] == ids[m]);
        }
        if r.notes.contains_key(key) && !before.notes.contains_key(key) {
            assert(r.notes[key] == fresh);
        }
        if r.groups.contains_key(key) && !before.groups.contains_key(key) {
            assert(r.groups[key] == fresh);
        }
    }
}

proof fn id_map_knows(olds: Seq<u64>, ids: Seq<u64>, from: int, key: u64)
    ensures
        id_map(olds, ids, from).contains_key(key) == olds.contains(key),
    decreases olds.len(),
{
    if olds.len() > 0 {
        let shorter = olds.drop_last();
        id_map_knows(shorter, ids, from, key);
        if shorter.contains(key) {
            assert(olds[shorter.index_of(key)] == key);
        }
        if olds.contains(key) && key != olds.last() {
            assert(shorter[olds.index_of(key)] == key);
        }
        if key == olds.last() {
            assert(olds[olds.len() - 1] == key);
        }
    }
}

/// A tombstone follows its note or group when a workspace gets new ids. One of
/// something that is no longer there gets an id of its own, which nothing on
/// its board has.
pub proof fn rekeyed_tombstones_have_their_own_ids(
    w: WorkspaceView,
    ids: Seq<u64>,
    i: int,
    t: int,
    n: int,
)
    requires
        ids.no_duplicates(),
        workspace_entities(w) <= ids.len(),
        0 <= i < w.spaces.len(),
        0 <= t < w.spaces[i].board.tombstones.len(),
        w.spaces[i].board.tombstones[t].kind != TombstoneKind::Space,
    ensures
        ({
            let b = w.spaces[i].board;
            let r = rekeyed_workspace(w, ids).spaces[i].board;
            let old = b.tombstones[t];
            let live = if old.kind == TombstoneKind::Note {
                exists|k: int| 0 <= k < b.notes.len() && (#[trigger] b.notes[k]).id == old.id
            } else {
                exists|k: int| 0 <= k < b.groups.len() && (#[trigger] b.groups[k]).id == old.id
            };
            &&& ids.contains(r.tombstones[t].id)
            &&& !live && 0 <= n < b.notes.len() ==> r.tombstones[t].id != r.notes[n].id
            &&& !live && 0 <= n < b.groups.len() ==> r.tombstones[t].id != r.groups[n].id
            &&& old.kind == TombstoneKind::Note && 0 <= n < b.notes.len() && b.notes[n].id == old.id
                && (forall|j: int|
                n < j < b.notes.len() ==> (#[trigger] b.notes[j]).id != b.notes[n].id)
                ==> r.tombstones[t].id == r.notes[n].id
            &&& old.kind == TombstoneKind::Group && 0 <= n < b.groups.len() && b.groups[n].id
                == old.id && (forall|j: int|
                n < j < b.groups.len() ==> (#[trigger] b.groups[j]).id != b.groups[n].id)
                ==> r.tombstones[t].id == r.groups[n].id
        }),
{
    let b = w.spaces[i].board;
    let old = b.tombstones[t];
    let live = id_map(space_ids_of(w.spaces), ids, 0);
    let known = space_renaming((live, w.spaces.len() as int), ids, w.tombstones);
    let from = ids_before(w.spaces, ids, known.1, i);
    let r = rekeyed_workspace(w, ids).spaces[i].board;
    assert(r == rekeyed_board(b, ids, from));
    space_renaming_bound((live, w.spaces.len() as int), ids, w.tombstones);
    ids_before_bound(w.spaces, ids, known.1, i);
    ids_before_bound(w.spaces, ids, known.1, i + 1);
    space_entities_grow(w.spaces, i + 1);
    let notes = note_ids_of(b.notes);
    let groups = group_ids_of(b.groups);
    let start = BoardRenaming {
        notes: id_map(notes, ids, from),
        groups: id_map(groups, ids, from + b.notes.len()),
        next: from + b.notes.len() + b.groups.len(),
    };
    let all = board_renaming(b, ids, from);
    assert(all == tombstone_renaming(start, ids, b.tombstones));
    tombstone_renaming_bound(start, ids, b.tombstones);
    renamed_tombstones_come_from(start, ids, b.tombstones, old.id);
    tombstone_renaming_keeps(start, ids, b.tombstones, old.id);
    id_map_knows(notes, ids, from, old.id);
    id_map_knows(groups, ids, from + b.notes.len(), old.id);
    assert(all.next <= ids.len());
    assert(r.tombstones[t] == rekeyed_tombstone(all, old));
    let olds = if old.kind == TombstoneKind::Note {
        notes
    } else {
        groups
    };
    let first = if old.kind == TombstoneKind::Note {
        from
    } else {
        from + b.notes.len()
    };
    if olds.contains(old.id) {
        last_place(olds, old.id);
        let k = choose|k: int|
            0 <= k < olds.len() && olds[k] == old.id && (forall|j: int|
                k < j < olds.len() ==> olds[j] != olds[k]);
        id_map_names(olds, ids, first, k);
        assert(r.tombstones[t].id == ids[first + k]);
        assert(ids.contains(ids[first + k]));
        if old.kind == TombstoneKind::Note {
            assert(b.notes[k].id == old.id);
        } else {
            assert(b.groups[k].id == old.id);
        }
        if 0 <= n < olds.len() && olds[n] == old.id && (forall|j: int|
            n < j < olds.len() ==> olds[j] != olds[n]) {
            assert(k == n);
        }
    } else {
        let m = choose|m: int| start.next <= m < all.next && r.tombstones[t].id == #[trigger] ids[m];
        assert(ids.contains(ids[m]));
        if 0 <= n < b.notes.len() {
            assert(r.notes[n].id == ids[from + n]);
            assert(notes[n] == b.notes[n].id);
        }
        if 0 <= n < b.groups.len() {
            assert(r.groups[n].id == ids[from + b.notes.len() + n]);
            assert(groups[n] == b.groups[n].id);
        }
    }
}

proof fn last_place(olds: Seq<u64>, key: u64)
    requires
        olds.contains(key),
    ensures
        exists|k: int|
            0 <= k < olds.len() && olds[k] == key && (forall|j: int|
                k < j < olds.len() ==> olds[j] != olds[k]),
    decreases olds.len(),
{
    let n = olds.len() - 1;
    if olds[n] != key {
        let shorter = olds.drop_last();
        assert(shorter[olds.index_of(key)] == key);
        last_place(shorter, key);
        let k = choose|k: int|
            0 <= k < shorter.len() && shorter[k] == key && (forall|j: int|
                k < j < shorter.len() ==> shorter[j] != shorter[k]);
        assert(olds[k] == key);
        assert forall|j: int| k < j < olds.len() implies olds[j] != olds[k] by {
            if j < n {
                assert(shorter[j] == olds[j]);
            }
        }
    } else {
        assert(olds[n] == key);
    }
}

proof fn renamed_spaces_come_from(
    start: (Map<u64, u64>, int),
    ids: Seq<u64>,
    tombstones: Seq<TombstoneView>,
    key: u64,
)
    ensures
        ({
            let r = space_renaming(start, ids, tombstones);
            &&& !start.0.contains_key(key) && r.0.contains_key(key) ==> exists|m: int|
                start.1 <= m < r.1 && r.0[key] == #[trigger] ids[m]
            &&& start.1 <= r.1
        }),
    decreases tombstones.len(),
{
    if tombstones.len() > 0 {
        let rest = tombstones.drop_last();
        renamed_spaces_come_from(start, ids, rest, key);
        let before = space_renaming(start, ids, rest);
        let r = space_renaming(start, ids, tombstones);
        let fresh = ids[before.1];
        if !start.0.contains_key(key) && before.0.contains_key(key) {
            let m = choose|m: int| start.1 <= m < before.1 && before.0[key] == #[trigger] ids[m];
            assert(r.0[key] == ids[m]);
        }
        if r.0.contains_key(key) && !before.0.contains_key(key) {
            assert(r.0[key] == fresh);
        }
    }
}

/// The tombstone of a space that is no longer there gets an id that no space
/// has; nothing else of a tombstone changes, and one that is of no space stays.
pub proof fn rekeyed_spaces_are_not_taken_for_deleted(
    w: WorkspaceView,
    ids: Seq<u64>,
    t: int,
    k: int,
)
    requires
        ids.no_duplicates(),
        workspace_entities(w) <= ids.len(),
        0 <= t < w.tombstones.len(),
    ensures
        ({
            let old = w.tombstones[t];
            let r = rekeyed_workspace(w, ids);
            &&& r.tombstones.len() == w.tombstones.len()
            &&& r.tombstones[t] == (TombstoneView { id: r.tombstones[t].id, ..old })
            &&& old.kind != TombstoneKind::Space ==> r.tombstones[t] == old
            &&& old.kind == TombstoneKind::Space && (forall|j: int|
                0 <= j < w.spaces.len() ==> (#[trigger] w.spaces[j]).id != old.id) && 0 <= k
                < w.spaces.len() ==> r.tombstones[t].id != r.spaces[k].id
        }),
{
    let old = w.tombstones[t];
    let r = rekeyed_workspace(w, ids);
    let olds = space_ids_of(w.spaces);
    let live = id_map(olds, ids, 0);
    let start = (live, w.spaces.len() as int);
    let known = space_renaming(start, ids, w.tombstones);
    space_renaming_bound(start, ids, w.tombstones);
    renamed_spaces_come_from(start, ids, w.tombstones, old.id);
    id_map_knows(olds, ids, 0, old.id);
    assert(space_entities(w.spaces) >= 0) by {
        space_entities_grow(w.spaces, 0);
        assert(space_entities(w.spaces.take(0)) == 0);
    }
    if old.kind == TombstoneKind::Space && (forall|j: int|
        0 <= j < w.spaces.len() ==> (#[trigger] w.spaces[j]).id != old.id) && 0 <= k
        < w.spaces.len() {
        if olds.contains(old.id) {
            let j = olds.index_of(old.id);
            assert(w.spaces[j].id == old.id);
        }
        let m = choose|m: int| start.1 <= m < known.1 && known.0[old.id] == #[trigger] ids[m];
        assert(r.tombstones[t].id == ids[m]);
        assert(r.spaces[k].id == ids[k]);
    }
}

} // verus!
