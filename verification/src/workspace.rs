//! Bringing a workspace into its canonical form.
//!
//! A workspace may come from an older client, from a file or from the server.
//! Before anything else reads it, its missing identities and times are filled
//! in and an open space is made active.
use vstd::prelude::*;

use crate::model::BoardData;
use crate::model::BoardView;
use crate::model::Group;
use crate::model::GroupView;
use crate::model::Note;
use crate::model::NoteView;
use crate::model::Space;
use crate::model::SpaceView;
use crate::model::Tombstone;
use crate::model::TombstoneKind;
use crate::model::TombstoneView;
use crate::model::WorkspaceData;
use crate::model::WorkspaceView;
use crate::lists::opt_view;
use crate::lists::views;

verus! {

/// The stable identity that an entity of an older client is known under.
#[derive(Debug, PartialEq)]
pub struct LegacyId {
    pub kind: TombstoneKind,
    pub id: u64,
    pub stable_id: String,
}

/// What a device knows when it reads a workspace: its schema version, its own
/// identifier, the time, which stable identities are well formed, and the
/// identities to give to entities that have none.
#[derive(Debug, PartialEq)]
pub struct Surroundings {
    pub schema_version: u32,
    pub device_id: String,
    pub now: u64,
    pub valid_ids: Vec<String>,
    pub legacy_ids: Vec<LegacyId>,
}

/// A legacy identity with its text as a character sequence.
pub struct LegacyIdView {
    pub kind: TombstoneKind,
    pub id: u64,
    pub stable_id: Seq<char>,
}

/// The surroundings with their texts as character sequences.
pub struct SurroundingsView {
    pub schema_version: u32,
    pub device_id: Seq<char>,
    pub now: u64,
    pub valid_ids: Seq<Seq<char>>,
    pub legacy_ids: Seq<LegacyIdView>,
}

impl View for LegacyId {
    type V = LegacyIdView;

    open spec fn view(&self) -> LegacyIdView {
        LegacyIdView { kind: self.kind, id: self.id, stable_id: self.stable_id@ }
    }
}

impl View for Surroundings {
    type V = SurroundingsView;

    open spec fn view(&self) -> SurroundingsView {
        SurroundingsView {
            schema_version: self.schema_version,
            device_id: self.device_id@,
            now: self.now,
            valid_ids: views(self.valid_ids@),
            legacy_ids: views(self.legacy_ids@),
        }
    }
}

/// The identity that the list gives to an entity, or `otherwise` where it
/// gives none.
pub open spec fn legacy_of(
    list: Seq<LegacyIdView>,
    kind: TombstoneKind,
    id: u64,
    otherwise: Seq<char>,
) -> Seq<char>
    decreases list.len(),
{
    if list.len() == 0 {
        otherwise
    } else if list[0].kind == kind && list[0].id == id {
        list[0].stable_id
    } else {
        legacy_of(list.skip(1), kind, id, otherwise)
    }
}

/// A well-formed stable identity stays; another is replaced by the legacy one.
pub open spec fn resolved_id(
    env: SurroundingsView,
    kind: TombstoneKind,
    id: u64,
    current: Seq<char>,
) -> Seq<char> {
    if env.valid_ids.contains(current) {
        current
    } else {
        legacy_of(env.legacy_ids, kind, id, current)
    }
}

/// A missing time is filled in.
pub open spec fn time_or(time: u64, otherwise: u64) -> u64 {
    if time == 0 {
        otherwise
    } else {
        time
    }
}

/// The identity of the group with the given id: of several, the last counts.
pub open spec fn group_identity(
    env: SurroundingsView,
    groups: Seq<GroupView>,
    id: u64,
) -> Option<Seq<char>>
    decreases groups.len(),
{
    if groups.len() == 0 {
        None
    } else if groups.last().id == id {
        Some(resolved_id(env, TombstoneKind::Group, id, groups.last().stable_id))
    } else {
        group_identity(env, groups.drop_last(), id)
    }
}

/// A tombstone with its identity resolved.
pub open spec fn normalized_tombstone(env: SurroundingsView, t: TombstoneView) -> TombstoneView {
    TombstoneView { stable_id: resolved_id(env, t.kind, t.id, t.stable_id), ..t }
}

/// A group of a board with its identity and times filled in.
pub open spec fn normalized_group(
    env: SurroundingsView,
    groups: Seq<GroupView>,
    g: GroupView,
) -> GroupView {
    let created_at = time_or(g.created_at, env.now);
    GroupView {
        stable_id: if env.valid_ids.contains(g.stable_id) {
            g.stable_id
        } else {
            match group_identity(env, groups, g.id) {
                Some(stable_id) => stable_id,
                None => legacy_of(env.legacy_ids, TombstoneKind::Group, g.id, g.stable_id),
            }
        },
        created_at,
        updated_at: time_or(g.updated_at, created_at),
        ..g
    }
}

/// A note of a board with its identity, its group's identity and its times
/// filled in.
pub open spec fn normalized_note(
    env: SurroundingsView,
    groups: Seq<GroupView>,
    n: NoteView,
) -> NoteView {
    let created_at = time_or(n.created_at, env.now);
    let known = match n.group_stable_id {
        Some(value) => env.valid_ids.contains(value),
        None => false,
    };
    NoteView {
        stable_id: resolved_id(env, TombstoneKind::Note, n.id, n.stable_id),
        group_stable_id: if known {
            n.group_stable_id
        } else {
            match n.group_id {
                Some(id) => group_identity(env, groups, id),
                None => None,
            }
        },
        created_at,
        updated_at: time_or(n.updated_at, created_at),
        ..n
    }
}

/// A board in canonical form.
pub open spec fn normalized_board(env: SurroundingsView, b: BoardView) -> BoardView {
    BoardView {
        schema_version: env.schema_version,
        notes: b.notes.map_values(|n: NoteView| normalized_note(env, b.groups, n)),
        groups: b.groups.map_values(|g: GroupView| normalized_group(env, b.groups, g)),
        tombstones: b.tombstones.map_values(|t: TombstoneView| normalized_tombstone(env, t)),
    }
}

/// A space in canonical form.
pub open spec fn normalized_space(env: SurroundingsView, s: SpaceView) -> SpaceView {
    let created_at = time_or(s.created_at, env.now);
    SpaceView {
        stable_id: resolved_id(env, TombstoneKind::Space, s.id, s.stable_id),
        created_at,
        updated_at: time_or(s.updated_at, created_at),
        board: normalized_board(env, s.board),
        ..s
    }
}

/// Whether a space can be shown: neither archived nor deleted.
pub open spec fn is_open(s: SpaceView) -> bool {
    !s.archived && s.deleted_at is None
}

/// The position of the first space with the given property, or the number of
/// spaces where none has it.
pub open spec fn first_space(spaces: Seq<SpaceView>, pred: spec_fn(SpaceView) -> bool) -> int
    decreases spaces.len(),
{
    if spaces.len() == 0 || pred(spaces[0]) {
        0
    } else {
        1 + first_space(spaces.skip(1), pred)
    }
}

/// The workspace with an open space active: where the active one is not open,
/// the first open one; where none is open, the first that is not deleted,
/// taken out of the archive.
pub open spec fn with_open_active(w: WorkspaceView) -> WorkspaceView {
    let kept = first_space(w.spaces, |s: SpaceView| s.id == w.active_space_id && is_open(s));
    let opened = first_space(w.spaces, |s: SpaceView| is_open(s));
    let present = first_space(w.spaces, |s: SpaceView| s.deleted_at is None);
    if kept < w.spaces.len() {
        w
    } else if opened < w.spaces.len() {
        WorkspaceView { active_space_id: w.spaces[opened].id, ..w }
    } else if present < w.spaces.len() {
        WorkspaceView {
            active_space_id: w.spaces[present].id,
            spaces: w.spaces.update(
                present,
                SpaceView { archived: false, ..w.spaces[present] },
            ),
            ..w
        }
    } else {
        w
    }
}

/// A workspace in canonical form.
pub open spec fn normalized_workspace(env: SurroundingsView, w: WorkspaceView) -> WorkspaceView {
    with_open_active(
        WorkspaceView {
            schema_version: env.schema_version,
            device_id: if w.device_id.len() == 0 {
                env.device_id
            } else {
                w.device_id
            },
            tombstones: w.tombstones.map_values(
                |t: TombstoneView| normalized_tombstone(env, t),
            ),
            spaces: w.spaces.map_values(|s: SpaceView| normalized_space(env, s)),
            active_space_id: w.active_space_id,
        },
    )
}

/// Whether a stable identity is well formed.
pub fn is_valid_id(env: &Surroundings, id: &String) -> (r: bool)
    ensures
        r == env@.valid_ids.contains(id@),
{
    let mut i: usize = 0;
    while i < env.valid_ids.len()
        invariant
            i <= env.valid_ids@.len(),
            forall|j: int| 0 <= j < i ==> #[trigger] env@.valid_ids[j] != id@,
        decreases env.valid_ids@.len() - i,
    {
        if env.valid_ids[i] == *id {
            assert(env@.valid_ids[i as int] == id@);
            return true;
        }
        i = i + 1;
    }
    false
}

/// Replaces an identity that is not well formed.
pub fn resolve_id(env: &Surroundings, kind: TombstoneKind, id: u64, current: &String) -> (r: String)
    ensures
        r@ == resolved_id(env@, kind, id, current@),
{
    if is_valid_id(env, current) {
        current.clone()
    } else {
        legacy_id(env, kind, id, current)
    }
}

fn legacy_id(env: &Surroundings, kind: TombstoneKind, id: u64, otherwise: &String) -> (r: String)
    ensures
        r@ == legacy_of(env@.legacy_ids, kind, id, otherwise@),
{
    let mut i: usize = 0;
    assert(env@.legacy_ids.skip(0) =~= env@.legacy_ids);
    while i < env.legacy_ids.len()
        invariant
            i <= env.legacy_ids@.len(),
            legacy_of(env@.legacy_ids, kind, id, otherwise@) == legacy_of(
                env@.legacy_ids.skip(i as int),
                kind,
                id,
                otherwise@,
            ),
        decreases env.legacy_ids@.len() - i,
    {
        let entry = &env.legacy_ids[i];
        assert(env@.legacy_ids.skip(i as int)[0] == entry@);
        assert(env@.legacy_ids.skip(i as int).skip(1) =~= env@.legacy_ids.skip(i + 1));
        if entry.kind == kind && entry.id == id {
            return entry.stable_id.clone();
        }
        i = i + 1;
    }
    otherwise.clone()
}

fn find_group_identity(env: &Surroundings, groups: &Vec<Group>, id: u64) -> (r: Option<String>)
    ensures
        opt_view(r) == group_identity(env@, views(groups@), id),
{
    let mut i: usize = groups.len();
    assert(views(groups@).take(i as int) =~= views(groups@));
    while i > 0
        invariant
            i <= groups@.len(),
            group_identity(env@, views(groups@), id) == group_identity(
                env@,
                views(groups@).take(i as int),
                id,
            ),
        decreases i,
    {
        let group = &groups[i - 1];
        assert(views(groups@).take(i as int).last() == group@);
        assert(views(groups@).take(i as int).drop_last() =~= views(groups@).take(i - 1));
        if group.id == id {
            return Some(resolve_id(env, TombstoneKind::Group, id, &group.stable_id));
        }
        i = i - 1;
    }
    None
}

fn or_time(time: u64, otherwise: u64) -> (r: u64)
    ensures
        r == time_or(time, otherwise),
{
    if time == 0 {
        otherwise
    } else {
        time
    }
}

/// Resolves the identities of a list of tombstones.
pub fn normalize_tombstones(env: &Surroundings, list: &Vec<Tombstone>) -> (r: Vec<Tombstone>)
    ensures
        views(r@) == views(list@).map_values(|t: TombstoneView| normalized_tombstone(env@, t)),
{
    let mut out: Vec<Tombstone> = Vec::new();
    let mut i: usize = 0;
    while i < list.len()
        invariant
            i <= list@.len(),
            out@.len() == i,
            forall|j: int|
                0 <= j < i ==> (#[trigger] out@[j])@ == normalized_tombstone(env@, list@[j]@),
        decreases list@.len() - i,
    {
        let t = &list[i];
        out.push(
            Tombstone {
                kind: t.kind,
                id: t.id,
                stable_id: resolve_id(env, t.kind, t.id, &t.stable_id),
                deleted_at: t.deleted_at,
            },
        );
        i = i + 1;
    }
    assert(views(out@) =~= views(list@).map_values(
        |t: TombstoneView| normalized_tombstone(env@, t),
    ));
    out
}

fn normalize_groups(env: &Surroundings, groups: &Vec<Group>) -> (r: Vec<Group>)
    ensures
        views(r@) == views(groups@).map_values(
            |g: GroupView| normalized_group(env@, views(groups@), g),
        ),
{
    let mut out: Vec<Group> = Vec::new();
    let mut i: usize = 0;
    while i < groups.len()
        invariant
            i <= groups@.len(),
            out@.len() == i,
            forall|j: int|
                0 <= j < i ==> (#[trigger] out@[j])@ == normalized_group(
                    env@,
                    views(groups@),
                    groups@[j]@,
                ),
        decreases groups@.len() - i,
    {
        let g = &groups[i];
        let mut next = g.clone();
        if !is_valid_id(env, &g.stable_id) {
            next.stable_id = match find_group_identity(env, groups, g.id) {
                Some(stable_id) => stable_id,
                None => legacy_id(env, TombstoneKind::Group, g.id, &g.stable_id),
            };
        }
        next.created_at = or_time(g.created_at, env.now);
        next.updated_at = or_time(g.updated_at, next.created_at);
        out.push(next);
        i = i + 1;
    }
    assert(views(out@) =~= views(groups@).map_values(
        |g: GroupView| normalized_group(env@, views(groups@), g),
    ));
    out
}

fn normalize_notes(env: &Surroundings, groups: &Vec<Group>, notes: &Vec<Note>) -> (r: Vec<Note>)
    ensures
        views(r@) == views(notes@).map_values(
            |n: NoteView| normalized_note(env@, views(groups@), n),
        ),
{
    let mut out: Vec<Note> = Vec::new();
    let mut i: usize = 0;
    while i < notes.len()
        invariant
            i <= notes@.len(),
            out@.len() == i,
            forall|j: int|
                0 <= j < i ==> (#[trigger] out@[j])@ == normalized_note(
                    env@,
                    views(groups@),
                    notes@[j]@,
                ),
        decreases notes@.len() - i,
    {
        let n = &notes[i];
        let mut next = n.clone();
        next.stable_id = resolve_id(env, TombstoneKind::Note, n.id, &n.stable_id);
        let known = match &n.group_stable_id {
            Some(value) => is_valid_id(env, value),
            None => false,
        };
        if !known {
            next.group_stable_id = match n.group_id {
                Some(id) => find_group_identity(env, groups, id),
                None => None,
            };
        }
        next.created_at = or_time(n.created_at, env.now);
        next.updated_at = or_time(n.updated_at, next.created_at);
        out.push(next);
        i = i + 1;
    }
    assert(views(out@) =~= views(notes@).map_values(
        |n: NoteView| normalized_note(env@, views(groups@), n),
    ));
    out
}

/// Brings a space into canonical form.
pub fn normalize_space(env: &Surroundings, space: &Space) -> (r: Space)
    ensures
        r@ == normalized_space(env@, space@),
{
    let created_at: u64 = or_time(space.created_at, env.now);
    Space {
        id: space.id,
        stable_id: resolve_id(env, TombstoneKind::Space, space.id, &space.stable_id),
        name: space.name.clone(),
        sync_enabled: space.sync_enabled,
        sync_override: space.sync_override,
        metadata_version: space.metadata_version,
        archived: space.archived,
        created_at,
        updated_at: or_time(space.updated_at, created_at),
        deleted_at: space.deleted_at,
        board: BoardData {
            schema_version: env.schema_version,
            notes: normalize_notes(env, &space.board.groups, &space.board.notes),
            groups: normalize_groups(env, &space.board.groups),
            tombstones: normalize_tombstones(env, &space.board.tombstones),
        },
    }
}

/// `first_space` is the least position whose space has the property.
pub proof fn first_space_is_least(spaces: Seq<SpaceView>, pred: spec_fn(SpaceView) -> bool)
    ensures
        0 <= first_space(spaces, pred) <= spaces.len(),
        first_space(spaces, pred) < spaces.len() ==> pred(spaces[first_space(spaces, pred)]),
        forall|j: int| 0 <= j < first_space(spaces, pred) ==> !pred(#[trigger] spaces[j]),
    decreases spaces.len(),
{
    if spaces.len() > 0 && !pred(spaces[0]) {
        first_space_is_least(spaces.skip(1), pred);
        let k = first_space(spaces.skip(1), pred);
        assert forall|j: int| 0 <= j < k + 1 implies !pred(#[trigger] spaces[j]) by {
            if j > 0 {
                assert(spaces.skip(1)[j - 1] == spaces[j]);
            }
        }
    }
}

/// A least position with the property is the one that `first_space` gives.
pub proof fn first_space_at(spaces: Seq<SpaceView>, pred: spec_fn(SpaceView) -> bool, i: int)
    requires
        0 <= i <= spaces.len(),
        i < spaces.len() ==> pred(spaces[i]),
        forall|j: int| 0 <= j < i ==> !pred(#[trigger] spaces[j]),
    ensures
        first_space(spaces, pred) == i,
{
    first_space_is_least(spaces, pred);
    let k = first_space(spaces, pred);
    if k < i {
        assert(!pred(spaces[k]));
    } else if i < k {
        assert(!pred(spaces[i]));
    }
}

/// The position of the first space with the given id.
pub fn position_of_space(spaces: &Vec<Space>, id: u64) -> (r: usize)
    ensures
        r == first_space(views(spaces@), |s: SpaceView| s.id == id),
        r <= spaces@.len(),
        r < spaces@.len() ==> spaces@[r as int].id == id,
{
    let mut i: usize = 0;
    while i < spaces.len() && spaces[i].id != id
        invariant
            i <= spaces@.len(),
            forall|j: int| 0 <= j < i ==> (#[trigger] views(spaces@)[j]).id != id,
        decreases spaces@.len() - i,
    {
        i = i + 1;
    }
    proof {
        first_space_at(views(spaces@), |s: SpaceView| s.id == id, i as int);
    }
    i
}

fn position_of_open(spaces: &Vec<Space>) -> (r: usize)
    ensures
        r == first_space(views(spaces@), |s: SpaceView| is_open(s)),
        r <= spaces@.len(),
{
    let mut i: usize = 0;
    while i < spaces.len() && (spaces[i].archived || spaces[i].deleted_at.is_some())
        invariant
            i <= spaces@.len(),
            forall|j: int| 0 <= j < i ==> !is_open(#[trigger] views(spaces@)[j]),
        decreases spaces@.len() - i,
    {
        i = i + 1;
    }
    proof {
        first_space_at(views(spaces@), |s: SpaceView| is_open(s), i as int);
    }
    i
}

fn position_of_present(spaces: &Vec<Space>) -> (r: usize)
    ensures
        r == first_space(views(spaces@), |s: SpaceView| s.deleted_at is None),
        r <= spaces@.len(),
{
    let mut i: usize = 0;
    while i < spaces.len() && spaces[i].deleted_at.is_some()
        invariant
            i <= spaces@.len(),
            forall|j: int| 0 <= j < i ==> !((#[trigger] views(spaces@)[j]).deleted_at is None),
        decreases spaces@.len() - i,
    {
        i = i + 1;
    }
    proof {
        first_space_at(views(spaces@), |s: SpaceView| s.deleted_at is None, i as int);
    }
    i
}

fn position_of_open_with_id(spaces: &Vec<Space>, id: u64) -> (r: usize)
    ensures
        r == first_space(views(spaces@), |s: SpaceView| s.id == id && is_open(s)),
        r <= spaces@.len(),
{
    let mut i: usize = 0;
    while i < spaces.len() && !(spaces[i].id == id && !spaces[i].archived
        && spaces[i].deleted_at.is_none())
        invariant
            i <= spaces@.len(),
            forall|j: int|
                0 <= j < i ==> !((#[trigger] views(spaces@)[j]).id == id && is_open(
                    views(spaces@)[j],
                )),
        decreases spaces@.len() - i,
    {
        i = i + 1;
    }
    proof {
        first_space_at(views(spaces@), |s: SpaceView| s.id == id && is_open(s), i as int);
    }
    i
}

/// Replaces one space of a list.
pub fn replace_space(spaces: &Vec<Space>, at: usize, space: Space) -> (r: Vec<Space>)
    requires
        at < spaces@.len(),
    ensures
        views(r@) == views(spaces@).update(at as int, space@),
{
    let mut out = crate::model::clone_spaces(spaces);
    let ghost before = views(out@);
    assert(before.len() == views(spaces@).len());
    out.set(at, space);
    assert(views(out@) =~= before.update(at as int, space@));
    out
}

/// Makes an open space active.
pub fn open_active_space(workspace: WorkspaceData) -> (r: WorkspaceData)
    ensures
        r@ == with_open_active(workspace@),
{
    let mut w = workspace;
    let count: usize = w.spaces.len();
    if position_of_open_with_id(&w.spaces, w.active_space_id) < count {
        return w;
    }
    let opened = position_of_open(&w.spaces);
    if opened < count {
        w.active_space_id = w.spaces[opened].id;
        return w;
    }
    let present = position_of_present(&w.spaces);
    if present < count {
        let mut space = w.spaces[present].clone();
        space.archived = false;
        w.active_space_id = space.id;
        w.spaces = replace_space(&w.spaces, present, space);
    }
    w
}

/// Brings a workspace into canonical form.
pub fn normalize_workspace(env: &Surroundings, workspace: WorkspaceData) -> (r: WorkspaceData)
    ensures
        r@ == normalized_workspace(env@, workspace@),
{
    let mut spaces: Vec<Space> = Vec::new();
    let mut i: usize = 0;
    while i < workspace.spaces.len()
        invariant
            i <= workspace.spaces@.len(),
            spaces@.len() == i,
            forall|j: int|
                0 <= j < i ==> (#[trigger] spaces@[j])@ == normalized_space(
                    env@,
                    workspace.spaces@[j]@,
                ),
        decreases workspace.spaces@.len() - i,
    {
        spaces.push(normalize_space(env, &workspace.spaces[i]));
        i = i + 1;
    }
    assert(views(spaces@) =~= workspace@.spaces.map_values(
        |s: SpaceView| normalized_space(env@, s),
    ));
    open_active_space(
        WorkspaceData {
            schema_version: env.schema_version,
            device_id: if crate::text::chars_of(&workspace.device_id).len() == 0 {
                env.device_id.clone()
            } else {
                workspace.device_id.clone()
            },
            tombstones: normalize_tombstones(env, &workspace.tombstones),
            spaces,
            active_space_id: workspace.active_space_id,
        },
    )
}

/// Whether the active space of a workspace is open.
pub open spec fn active_is_open(w: WorkspaceView) -> bool {
    exists|i: int|
        0 <= i < w.spaces.len() && (#[trigger] w.spaces[i]).id == w.active_space_id && is_open(
            w.spaces[i],
        )
}

/// A workspace in canonical form has an open active space as soon as one of
/// its spaces is not deleted.
pub proof fn normalizing_opens_the_active_space(env: SurroundingsView, w: WorkspaceView, k: int)
    requires
        0 <= k < w.spaces.len(),
        w.spaces[k].deleted_at is None,
    ensures
        active_is_open(normalized_workspace(env, w)),
{
    let m = WorkspaceView {
        spaces: w.spaces.map_values(|s: SpaceView| normalized_space(env, s)),
        ..w
    };
    let r = normalized_workspace(env, w);
    let kept = |s: SpaceView| s.id == w.active_space_id && is_open(s);
    let opened = |s: SpaceView| is_open(s);
    let present = |s: SpaceView| s.deleted_at is None;
    first_space_is_least(m.spaces, kept);
    first_space_is_least(m.spaces, opened);
    first_space_is_least(m.spaces, present);
    assert(m.spaces[k].deleted_at is None);
    if first_space(m.spaces, kept) < m.spaces.len() {
        let i = first_space(m.spaces, kept);
        assert(r.spaces[i].id == r.active_space_id && is_open(r.spaces[i]));
    } else if first_space(m.spaces, opened) < m.spaces.len() {
        let i = first_space(m.spaces, opened);
        assert(r.spaces[i].id == r.active_space_id && is_open(r.spaces[i]));
    } else {
        let i = first_space(m.spaces, present);
        assert(i < m.spaces.len()) by {
            if i >= m.spaces.len() {
                assert(!present(m.spaces[k]));
            }
        }
        assert(r.spaces[i].id == r.active_space_id && is_open(r.spaces[i]));
    }
}

/// Opening a space changes no space but for taking one out of the archive.
pub proof fn opening_keeps_the_spaces(w: WorkspaceView)
    ensures
        with_open_active(w).spaces.len() == w.spaces.len(),
        forall|i: int|
            0 <= i < w.spaces.len() ==> {
                ||| #[trigger] with_open_active(w).spaces[i] == w.spaces[i]
                ||| with_open_active(w).spaces[i] == (SpaceView { archived: false, ..w.spaces[i] })
            },
{
    first_space_is_least(w.spaces, |s: SpaceView| s.deleted_at is None);
}

/// Every legacy identity that the surroundings hand out is well formed.
pub open spec fn legacy_ids_are_valid(env: SurroundingsView) -> bool {
    forall|i: int|
        0 <= i < env.legacy_ids.len() ==> env.valid_ids.contains(
            (#[trigger] env.legacy_ids[i]).stable_id,
        )
}

proof fn legacy_of_is_valid_or_otherwise(
    list: Seq<LegacyIdView>,
    valid: Seq<Seq<char>>,
    kind: TombstoneKind,
    id: u64,
    otherwise: Seq<char>,
)
    requires
        forall|i: int| 0 <= i < list.len() ==> valid.contains((#[trigger] list[i]).stable_id),
    ensures
        legacy_of(list, kind, id, otherwise) == otherwise || valid.contains(
            legacy_of(list, kind, id, otherwise),
        ),
        legacy_of(list, kind, id, otherwise) == otherwise || legacy_of(list, kind, id, otherwise)
            == legacy_of(list, kind, id, seq![]),
    decreases list.len(),
{
    if list.len() > 0 && !(list[0].kind == kind && list[0].id == id) {
        legacy_of_is_valid_or_otherwise(list.skip(1), valid, kind, id, otherwise);
    }
}

proof fn resolving_twice(env: SurroundingsView, kind: TombstoneKind, id: u64, current: Seq<char>)
    requires
        legacy_ids_are_valid(env),
    ensures
        resolved_id(env, kind, id, resolved_id(env, kind, id, current)) == resolved_id(
            env,
            kind,
            id,
            current,
        ),
{
    legacy_of_is_valid_or_otherwise(env.legacy_ids, env.valid_ids, kind, id, current);
}

proof fn group_identity_is_resolved(env: SurroundingsView, groups: Seq<GroupView>, id: u64)
    requires
        legacy_ids_are_valid(env),
    ensures
        group_identity(env, groups, id) matches Some(stable_id) ==> resolved_id(
            env,
            TombstoneKind::Group,
            id,
            stable_id,
        ) == stable_id,
    decreases groups.len(),
{
    if groups.len() > 0 {
        if groups.last().id == id {
            resolving_twice(env, TombstoneKind::Group, id, groups.last().stable_id);
        } else {
            group_identity_is_resolved(env, groups.drop_last(), id);
        }
    }
}

proof fn group_identity_found(env: SurroundingsView, groups: Seq<GroupView>, i: int)
    requires
        0 <= i < groups.len(),
    ensures
        group_identity(env, groups, groups[i].id) is Some,
    decreases groups.len(),
{
    if groups.last().id != groups[i].id {
        group_identity_found(env, groups.drop_last(), i);
    }
}

proof fn group_identity_survives(
    env: SurroundingsView,
    all: Seq<GroupView>,
    groups: Seq<GroupView>,
    id: u64,
)
    requires
        legacy_ids_are_valid(env),
        groups.len() <= all.len(),
        groups == all.take(groups.len() as int),
        group_identity(env, all, id) == group_identity(env, groups, id),
    ensures
        group_identity(
            env,
            groups.map_values(|g: GroupView| normalized_group(env, all, g)),
            id,
        ) == group_identity(env, all, id),
    decreases groups.len(),
{
    let after = groups.map_values(|g: GroupView| normalized_group(env, all, g));
    if groups.len() > 0 {
        assert(after.drop_last() =~= groups.drop_last().map_values(
            |g: GroupView| normalized_group(env, all, g),
        ));
        assert(after.last() == normalized_group(env, all, groups.last()));
        if groups.last().id == id {
            group_identity_is_resolved(env, all, id);
        } else {
            assert(groups.drop_last() =~= all.take(groups.len() - 1));
            group_identity_survives(env, all, groups.drop_last(), id);
        }
    }
}

proof fn normalizing_board_twice(env: SurroundingsView, b: BoardView)
    requires
        legacy_ids_are_valid(env),
    ensures
        normalized_board(env, normalized_board(env, b)) == normalized_board(env, b),
{
    let once = normalized_board(env, b);
    let twice = normalized_board(env, once);
    assert(b.groups.take(b.groups.len() as int) =~= b.groups);
    assert forall|i: int| 0 <= i < once.groups.len() implies #[trigger] twice.groups[i]
        == once.groups[i] by {
        let g = b.groups[i];
        assert(once.groups[i] == normalized_group(env, b.groups, g));
        group_identity_found(env, b.groups, i);
        group_identity_survives(env, b.groups, b.groups, g.id);
        group_identity_is_resolved(env, b.groups, g.id);
    }
    assert(twice.groups =~= once.groups);
    assert forall|i: int| 0 <= i < once.notes.len() implies #[trigger] twice.notes[i]
        == once.notes[i] by {
        let n = b.notes[i];
        assert(once.notes[i] == normalized_note(env, b.groups, n));
        resolving_twice(env, TombstoneKind::Note, n.id, n.stable_id);
        if let Some(id) = n.group_id {
            group_identity_survives(env, b.groups, b.groups, id);
        }
    }
    assert(twice.notes =~= once.notes);
    assert forall|i: int| 0 <= i < once.tombstones.len() implies #[trigger] twice.tombstones[i]
        == once.tombstones[i] by {
        let t = b.tombstones[i];
        resolving_twice(env, t.kind, t.id, t.stable_id);
    }
    assert(twice.tombstones =~= once.tombstones);
}

/// Bringing a workspace into canonical form twice is the same as doing it
/// once, where the identities handed out are themselves well formed.
pub proof fn normalizing_twice_changes_nothing(env: SurroundingsView, w: WorkspaceView)
    requires
        legacy_ids_are_valid(env),
    ensures
        normalized_workspace(env, normalized_workspace(env, w)) == normalized_workspace(env, w),
{
    let once = normalized_workspace(env, w);
    let m = w.spaces.map_values(|s: SpaceView| normalized_space(env, s));
    opening_keeps_the_spaces(
        WorkspaceView {
            schema_version: env.schema_version,
            device_id: once.device_id,
            tombstones: once.tombstones,
            spaces: m,
            active_space_id: w.active_space_id,
        },
    );
    assert forall|i: int| 0 <= i < once.spaces.len() implies normalized_space(
        env,
        #[trigger] once.spaces[i],
    ) == once.spaces[i] by {
        let s = w.spaces[i];
        assert(m[i] == normalized_space(env, s));
        assert(once.spaces[i] == m[i] || once.spaces[i] == (SpaceView { archived: false, ..m[i] }));
        resolving_twice(env, TombstoneKind::Space, s.id, s.stable_id);
        normalizing_board_twice(env, s.board);
    }
    let again = once.spaces.map_values(|s: SpaceView| normalized_space(env, s));
    assert(again =~= once.spaces);
    assert forall|i: int| 0 <= i < once.tombstones.len() implies normalized_tombstone(
        env,
        #[trigger] once.tombstones[i],
    ) == once.tombstones[i] by {
        let t = w.tombstones[i];
        resolving_twice(env, t.kind, t.id, t.stable_id);
    }
    assert(once.tombstones.map_values(|t: TombstoneView| normalized_tombstone(env, t))
        =~= once.tombstones);
    let kept = |s: SpaceView| s.id == once.active_space_id && is_open(s);
    let present = |s: SpaceView| s.deleted_at is None;
    let opened = |s: SpaceView| is_open(s);
    first_space_is_least(once.spaces, kept);
    if active_is_open(once) {
        let i = choose|i: int|
            0 <= i < once.spaces.len() && (#[trigger] once.spaces[i]).id == once.active_space_id
                && is_open(once.spaces[i]);
        assert(kept(once.spaces[i]));
        assert(first_space(once.spaces, kept) <= i);
    } else {
        first_space_is_least(once.spaces, present);
        first_space_is_least(once.spaces, opened);
        let i = first_space(once.spaces, present);
        if i < once.spaces.len() {
            assert(m[i].deleted_at is None);
            assert(w.spaces[i].deleted_at is None);
            normalizing_opens_the_active_space(env, w, i);
        }
        let j = first_space(once.spaces, opened);
        if j < once.spaces.len() {
            assert(!present(once.spaces[j]));
        }
    }
}

proof fn normalized_parts(env: SurroundingsView, w: WorkspaceView, i: int)
    requires
        0 <= i < w.spaces.len(),
    ensures
        ({
            let r = normalized_workspace(env, w);
            let m = normalized_space(env, w.spaces[i]);
            &&& r.spaces.len() == w.spaces.len()
            &&& r.spaces[i] == m || r.spaces[i] == (SpaceView { archived: false, ..m })
        }),
{
    let m = w.spaces.map_values(|s: SpaceView| normalized_space(env, s));
    let r = normalized_workspace(env, w);
    opening_keeps_the_spaces(
        WorkspaceView {
            schema_version: env.schema_version,
            device_id: r.device_id,
            tombstones: r.tombstones,
            spaces: m,
            active_space_id: w.active_space_id,
        },
    );
    assert(m[i] == normalized_space(env, w.spaces[i]));
}

/// Canonical form keeps every space in its place with its name and its
/// settings, every note, group and tombstone of its board in its place, and
/// every time and well-formed identity that is there.
pub proof fn normalizing_keeps_the_spaces(env: SurroundingsView, w: WorkspaceView, i: int)
    requires
        0 <= i < w.spaces.len(),
    ensures
        ({
            let s = w.spaces[i];
            let r = normalized_workspace(env, w).spaces[i];
            &&& normalized_workspace(env, w).spaces.len() == w.spaces.len()
            &&& r.id == s.id
            &&& r.name == s.name
            &&& r.sync_enabled == s.sync_enabled
            &&& r.sync_override == s.sync_override
            &&& r.metadata_version == s.metadata_version
            &&& r.deleted_at == s.deleted_at
            &&& r.archived ==> s.archived
            &&& s.created_at != 0 ==> r.created_at == s.created_at
            &&& s.created_at == 0 ==> r.created_at == env.now
            &&& s.updated_at != 0 ==> r.updated_at == s.updated_at
            &&& s.updated_at == 0 ==> r.updated_at == r.created_at
            &&& env.valid_ids.contains(s.stable_id) ==> r.stable_id == s.stable_id
            &&& r.board.schema_version == env.schema_version
            &&& r.board.notes.len() == s.board.notes.len()
            &&& r.board.groups.len() == s.board.groups.len()
            &&& r.board.tombstones.len() == s.board.tombstones.len()
        }),
{
    normalized_parts(env, w, i);
}

/// Canonical form changes nothing of a note but an identity that is not well
/// formed and a time that is missing: a note without a time was made now.
pub proof fn normalizing_keeps_the_notes(env: SurroundingsView, w: WorkspaceView, i: int, k: int)
    requires
        0 <= i < w.spaces.len(),
        0 <= k < w.spaces[i].board.notes.len(),
    ensures
        ({
            let n = w.spaces[i].board.notes[k];
            let r = normalized_workspace(env, w).spaces[i].board.notes[k];
            &&& r.id == n.id
            &&& r.text == n.text
            &&& r.color == n.color
            &&& r.status == n.status
            &&& r.due_date == n.due_date
            &&& r.x == n.x
            &&& r.y == n.y
            &&& r.rotation == n.rotation
            &&& r.group_id == n.group_id
            &&& r.deleted_at == n.deleted_at
            &&& n.created_at != 0 ==> r.created_at == n.created_at
            &&& n.created_at == 0 ==> r.created_at == env.now
            &&& n.updated_at != 0 ==> r.updated_at == n.updated_at
            &&& n.updated_at == 0 ==> r.updated_at == r.created_at
            &&& env.valid_ids.contains(n.stable_id) ==> r.stable_id == n.stable_id
            &&& n.group_stable_id is Some && env.valid_ids.contains(n.group_stable_id->0)
                ==> r.group_stable_id == n.group_stable_id
        }),
{
    normalized_parts(env, w, i);
}

/// Canonical form changes nothing of a group or a tombstone but an identity
/// that is not well formed and a time that is missing.
pub proof fn normalizing_keeps_the_groups(env: SurroundingsView, w: WorkspaceView, i: int, k: int)
    requires
        0 <= i < w.spaces.len(),
    ensures
        0 <= k < w.spaces[i].board.groups.len() ==> {
            let g = w.spaces[i].board.groups[k];
            let r = normalized_workspace(env, w).spaces[i].board.groups[k];
            &&& r.id == g.id
            &&& r.label == g.label
            &&& r.origin == g.origin
            &&& r.size == g.size
            &&& r.deleted_at == g.deleted_at
            &&& g.created_at != 0 ==> r.created_at == g.created_at
            &&& g.created_at == 0 ==> r.created_at == env.now
            &&& g.updated_at != 0 ==> r.updated_at == g.updated_at
            &&& g.updated_at == 0 ==> r.updated_at == r.created_at
            &&& env.valid_ids.contains(g.stable_id) ==> r.stable_id == g.stable_id
        },
        0 <= k < w.spaces[i].board.tombstones.len() ==> {
            let t = w.spaces[i].board.tombstones[k];
            let r = normalized_workspace(env, w).spaces[i].board.tombstones[k];
            &&& r.kind == t.kind
            &&& r.id == t.id
            &&& r.deleted_at == t.deleted_at
            &&& env.valid_ids.contains(t.stable_id) ==> r.stable_id == t.stable_id
        },
{
    normalized_parts(env, w, i);
}

/// What canonical form makes of the workspace around its spaces.
pub proof fn normalizing_keeps_the_tombstones(env: SurroundingsView, w: WorkspaceView)
    ensures
        ({
            let r = normalized_workspace(env, w);
            &&& r.schema_version == env.schema_version
            &&& w.device_id.len() > 0 ==> r.device_id == w.device_id
            &&& w.device_id.len() == 0 ==> r.device_id == env.device_id
            &&& r.tombstones.len() == w.tombstones.len()
            &&& forall|k: int|
                0 <= k < w.tombstones.len() ==> {
                    &&& (#[trigger] r.tombstones[k]).kind == w.tombstones[k].kind
                    &&& r.tombstones[k].id == w.tombstones[k].id
                    &&& r.tombstones[k].deleted_at == w.tombstones[k].deleted_at
                    &&& env.valid_ids.contains(w.tombstones[k].stable_id)
                        ==> r.tombstones[k].stable_id == w.tombstones[k].stable_id
                }
        }),
{
}

proof fn legacy_of_first(
    list: Seq<LegacyIdView>,
    kind: TombstoneKind,
    id: u64,
    otherwise: Seq<char>,
    j: int,
)
    requires
        0 <= j <= list.len(),
        forall|k: int|
            0 <= k < j ==> !((#[trigger] list[k]).kind == kind && list[k].id == id),
        j < list.len() ==> list[j].kind == kind && list[j].id == id,
    ensures
        legacy_of(list, kind, id, otherwise) == (if j < list.len() {
            list[j].stable_id
        } else {
            otherwise
        }),
    decreases list.len(),
{
    if list.len() > 0 && !(list[0].kind == kind && list[0].id == id) {
        assert forall|k: int| 0 <= k < j - 1 implies !((#[trigger] list.skip(1)[k]).kind == kind
            && list.skip(1)[k].id == id) by {
            assert(list.skip(1)[k] == list[k + 1]);
        }
        legacy_of_first(list.skip(1), kind, id, otherwise, j - 1);
    }
}

/// A note, a space or a tombstone whose identity is not well formed gets the
/// first one that the surroundings hand out for its kind and id, and keeps its
/// own where they hand out none: `j` is the place of that first one.
pub proof fn missing_identities_are_handed_out(
    env: SurroundingsView,
    w: WorkspaceView,
    i: int,
    k: int,
    kind: TombstoneKind,
    id: u64,
    j: int,
)
    requires
        0 <= i < w.spaces.len(),
        0 <= j <= env.legacy_ids.len(),
        forall|a: int|
            0 <= a < j ==> !((#[trigger] env.legacy_ids[a]).kind == kind && env.legacy_ids[a].id
                == id),
        j < env.legacy_ids.len() ==> env.legacy_ids[j].kind == kind && env.legacy_ids[j].id == id,
    ensures
        ({
            let s = w.spaces[i];
            let r = normalized_workspace(env, w).spaces[i];
            let given = |own: Seq<char>|
                if j < env.legacy_ids.len() {
                    env.legacy_ids[j].stable_id
                } else {
                    own
                };
            &&& kind == TombstoneKind::Space && s.id == id && !env.valid_ids.contains(s.stable_id)
                ==> r.stable_id == given(s.stable_id)
            &&& kind == TombstoneKind::Note && 0 <= k < s.board.notes.len() && s.board.notes[k].id
                == id && !env.valid_ids.contains(s.board.notes[k].stable_id)
                ==> r.board.notes[k].stable_id == given(s.board.notes[k].stable_id)
            &&& 0 <= k < s.board.tombstones.len() && s.board.tombstones[k].kind == kind
                && s.board.tombstones[k].id == id && !env.valid_ids.contains(
                s.board.tombstones[k].stable_id,
            ) ==> r.board.tombstones[k].stable_id == given(s.board.tombstones[k].stable_id)
        }),
{
    normalized_parts(env, w, i);
    legacy_of_first(env.legacy_ids, kind, id, w.spaces[i].stable_id, j);
    if 0 <= k < w.spaces[i].board.notes.len() {
        legacy_of_first(env.legacy_ids, kind, id, w.spaces[i].board.notes[k].stable_id, j);
    }
    if 0 <= k < w.spaces[i].board.tombstones.len() {
        legacy_of_first(env.legacy_ids, kind, id, w.spaces[i].board.tombstones[k].stable_id, j);
    }
}

proof fn group_identity_last(env: SurroundingsView, groups: Seq<GroupView>, id: u64, g: int)
    requires
        0 <= g < groups.len(),
        groups[g].id == id,
        forall|j: int| g < j < groups.len() ==> (#[trigger] groups[j]).id != id,
    ensures
        group_identity(env, groups, id) == Some(
            resolved_id(env, TombstoneKind::Group, id, groups[g].stable_id),
        ),
    decreases groups.len(),
{
    if g < groups.len() - 1 {
        let rest = groups.drop_last();
        assert(groups.last().id != id);
        assert forall|j: int| g < j < rest.len() implies (#[trigger] rest[j]).id != id by {
            assert(rest[j] == groups[j]);
        }
        group_identity_last(env, rest, id, g);
    }
}

proof fn group_identity_none(env: SurroundingsView, groups: Seq<GroupView>, id: u64)
    requires
        forall|j: int| 0 <= j < groups.len() ==> (#[trigger] groups[j]).id != id,
    ensures
        group_identity(env, groups, id) is None,
    decreases groups.len(),
{
    if groups.len() > 0 {
        let rest = groups.drop_last();
        assert(groups.last().id != id);
        assert forall|j: int| 0 <= j < rest.len() implies (#[trigger] rest[j]).id != id by {
            assert(rest[j] == groups[j]);
        }
        group_identity_none(env, rest, id);
    }
}

/// In canonical form a note without a well-formed reference to its group names
/// the identity that the group has: of several groups with one id, the last is
/// meant. A note whose group is not on the board, or that is in none, names
/// none.
pub proof fn normalized_notes_name_their_group(
    env: SurroundingsView,
    w: WorkspaceView,
    i: int,
    k: int,
    g: int,
)
    requires
        0 <= i < w.spaces.len(),
        0 <= k < w.spaces[i].board.notes.len(),
        w.spaces[i].board.notes[k].group_stable_id matches Some(id) ==> !env.valid_ids.contains(id),
    ensures
        ({
            let b = w.spaces[i].board;
            let r = normalized_workspace(env, w).spaces[i].board;
            let n = b.notes[k];
            &&& n.group_id is None ==> r.notes[k].group_stable_id is None
            &&& (forall|j: int| 0 <= j < b.groups.len() ==> n.group_id != Some((#[trigger] b.groups[j]).id))
                ==> r.notes[k].group_stable_id is None
            &&& 0 <= g < b.groups.len() && n.group_id == Some(b.groups[g].id) && (forall|j: int|
                g < j < b.groups.len() ==> (#[trigger] b.groups[j]).id != b.groups[g].id)
                ==> r.notes[k].group_stable_id == Some(r.groups[g].stable_id)
        }),
{
    normalized_parts(env, w, i);
    let b = w.spaces[i].board;
    let n = b.notes[k];
    if let Some(id) = n.group_id {
        if forall|j: int| 0 <= j < b.groups.len() ==> n.group_id != Some((#[trigger] b.groups[j]).id) {
            group_identity_none(env, b.groups, id);
        }
        if 0 <= g < b.groups.len() && id == b.groups[g].id && (forall|j: int|
            g < j < b.groups.len() ==> (#[trigger] b.groups[j]).id != b.groups[g].id) {
            group_identity_last(env, b.groups, id, g);
        }
    }
}

/// Canonical form leaves the active space active where it is open, and else
/// makes the first open one active; only where none is open is a space taken
/// out of the archive: the first that is not deleted.
pub proof fn normalizing_chooses_the_active_space(env: SurroundingsView, w: WorkspaceView, k: int)
    requires
        0 <= k < w.spaces.len(),
    ensures
        ({
            let r = normalized_workspace(env, w);
            let open = |s: SpaceView| !s.archived && s.deleted_at is None;
            &&& w.spaces[k].id == w.active_space_id && open(w.spaces[k]) ==> {
                &&& r.active_space_id == w.active_space_id
                &&& forall|i: int|
                    0 <= i < w.spaces.len() ==> (#[trigger] r.spaces[i]).archived
                        == w.spaces[i].archived
            }
            &&& open(w.spaces[k]) && (forall|i: int|
                0 <= i < k ==> !open(#[trigger] w.spaces[i])) && (forall|i: int|
                0 <= i < w.spaces.len() && (#[trigger] w.spaces[i]).id == w.active_space_id
                    ==> !open(w.spaces[i])) ==> {
                &&& r.active_space_id == w.spaces[k].id
                &&& forall|i: int|
                    0 <= i < w.spaces.len() ==> (#[trigger] r.spaces[i]).archived
                        == w.spaces[i].archived
            }
            &&& w.spaces[k].deleted_at is None && (forall|i: int|
                0 <= i < k ==> (#[trigger] w.spaces[i]).deleted_at is Some) && (forall|i: int|
                0 <= i < w.spaces.len() ==> !open(#[trigger] w.spaces[i])) ==> {
                &&& r.active_space_id == w.spaces[k].id
                &&& forall|i: int|
                    0 <= i < w.spaces.len() ==> (#[trigger] r.spaces[i]).archived == (i != k
                        && w.spaces[i].archived)
            }
            &&& (forall|i: int|
                0 <= i < w.spaces.len() ==> (#[trigger] w.spaces[i]).deleted_at is Some)
                ==> r.active_space_id == w.active_space_id
        }),
{
    let m = w.spaces.map_values(|s: SpaceView| normalized_space(env, s));
    let open = |s: SpaceView| !s.archived && s.deleted_at is None;
    let kept = |s: SpaceView| s.id == w.active_space_id && is_open(s);
    let opened = |s: SpaceView| is_open(s);
    let present = |s: SpaceView| s.deleted_at is None;
    assert forall|i: int| 0 <= i < m.len() implies {
        &&& (#[trigger] m[i]).id == w.spaces[i].id
        &&& m[i].archived == w.spaces[i].archived
        &&& m[i].deleted_at == w.spaces[i].deleted_at
    } by {
        assert(m[i] == normalized_space(env, w.spaces[i]));
    }
    first_space_is_least(m, kept);
    first_space_is_least(m, opened);
    first_space_is_least(m, present);
    let a = first_space(m, kept);
    let b = first_space(m, opened);
    let c = first_space(m, present);
    if kept(m[k]) {
        assert(a <= k);
    }
    if opened(m[k]) {
        assert(b <= k);
    }
    if present(m[k]) {
        assert(c <= k);
    }
    if a < m.len() {
        assert(w.spaces[a].id == w.active_space_id && open(w.spaces[a]));
    }
    if b < m.len() {
        assert(open(w.spaces[b]));
    }
    if c < m.len() {
        assert(w.spaces[c].deleted_at is None);
    }
}

/// Whether a position holds the first space of an id.
pub open spec fn is_first_of(spaces: Seq<SpaceView>, id: u64, k: int) -> bool {
    &&& 0 <= k < spaces.len()
    &&& spaces[k].id == id
    &&& forall|j: int| 0 <= j < k ==> (#[trigger] spaces[j]).id != id
}

/// Looking for an id gives the first space of the id, and the number of spaces
/// where there is none.
pub proof fn spaces_are_found_by_id(spaces: Seq<SpaceView>, id: u64, k: int)
    ensures
        is_first_of(spaces, id, k) ==> first_space(spaces, |s: SpaceView| s.id == id) == k,
        (forall|j: int| 0 <= j < spaces.len() ==> (#[trigger] spaces[j]).id != id) ==> first_space(
            spaces,
            |s: SpaceView| s.id == id,
        ) == spaces.len(),
        first_space(spaces, |s: SpaceView| s.id == id) < spaces.len() ==> is_first_of(
            spaces,
            id,
            first_space(spaces, |s: SpaceView| s.id == id),
        ),
        first_space(spaces, |s: SpaceView| s.id == id) == k && 0 <= k < spaces.len()
            ==> is_first_of(spaces, id, k),
{
    let pred = |s: SpaceView| s.id == id;
    first_space_is_least(spaces, pred);
    let i = first_space(spaces, pred);
    if is_first_of(spaces, id, k) {
        assert(pred(spaces[k]));
        if i < k {
            assert(pred(spaces[i]));
        }
    }
    if i < spaces.len() {
        assert(pred(spaces[i]));
        assert forall|j: int| 0 <= j < i implies (#[trigger] spaces[j]).id != id by {
            assert(!pred(spaces[j]));
        }
    }
}

/// Canonical form has as many spaces as there were and says the version of this
/// client; a workspace that belongs to no device belongs to this one.
pub proof fn normalizing_keeps_the_size(env: SurroundingsView, w: WorkspaceView)
    ensures
        normalized_workspace(env, w).spaces.len() == w.spaces.len(),
        normalized_workspace(env, w).schema_version == env.schema_version,
        w.device_id.len() > 0 ==> normalized_workspace(env, w).device_id == w.device_id,
        w.device_id.len() == 0 ==> normalized_workspace(env, w).device_id == env.device_id,
{
    let r = normalized_workspace(env, w);
    opening_keeps_the_spaces(
        WorkspaceView {
            schema_version: env.schema_version,
            device_id: r.device_id,
            tombstones: r.tombstones,
            spaces: w.spaces.map_values(|s: SpaceView| normalized_space(env, s)),
            active_space_id: w.active_space_id,
        },
    );
}

} // verus!
