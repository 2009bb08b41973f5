//! What a user can do to spaces: create, switch, rename, archive, restore and
//! delete them.
//!
//! An action changes the shelf and returns what is left to be done outside:
//! saving the workspace, showing a space's view, telling the server.
use vstd::prelude::*;
use vstd::string::*;

use crate::workspace::is_first_of;
use crate::model::NoteView;
use crate::model::GroupView;
use crate::desk::all_committed;
use crate::desk::fresh_desk;
use crate::desk::snapshot_of;
use crate::desk::Desk;
use crate::desk::DeskView;
use crate::identity::guest_principal_text;
use crate::identity::is_guest_principal;
use crate::lists::filter_ends;
use crate::lists::filter_step;
use crate::lists::opt_view;
use crate::lists::views;
use crate::lists::views_push;
use crate::model::blank_board;
use crate::model::clone_groups;
use crate::model::clone_notes;
use crate::model::empty_board;
use crate::model::BoardData;
use crate::model::BoardView;
use crate::model::Space;
use crate::model::SpaceView;
use crate::model::Tombstone;
use crate::model::TombstoneKind;
use crate::model::TombstoneView;
use crate::model::WorkspaceData;
use crate::model::WorkspaceView;
use crate::persist::has_tombstone;
use crate::persist::persist_space_board;
use crate::persist::persisted_spaces;
use crate::persist::tombstone_exists;
use crate::persist::workspace_of;
use crate::persist::workspace_snapshot;
use crate::text::concat;
use crate::text::first_chars;
use crate::text::take_chars;
use crate::text::trim;
use crate::text::trimmed;
use crate::workspace::first_space;
use crate::workspace::first_space_at;
use crate::workspace::first_space_is_least;
use crate::workspace::is_open;
use crate::workspace::position_of_space;
use crate::workspace::replace_space;
use crate::workspace::time_or;
use crate::workspace::Surroundings;
use crate::workspace::SurroundingsView;

verus! {

/// A change to what the server knows of a space besides its board.
#[derive(Clone, Copy, Debug, PartialEq, Eq, Structural)]
pub enum SpaceMetadataOperation {
    Rename,
    Archive,
    Unarchive,
    Delete,
    Restore,
}

/// The fields of a space that a request changes.
#[derive(Debug, PartialEq)]
pub struct SpaceUpdate {
    pub name: Option<String>,
    pub archived: Option<bool>,
    pub deleted: Option<bool>,
}

/// The fields of a space that a request changes, its name as characters.
pub struct SpaceUpdateView {
    pub name: Option<Seq<char>>,
    pub archived: Option<bool>,
    pub deleted: Option<bool>,
}

impl View for SpaceUpdate {
    type V = SpaceUpdateView;

    open spec fn view(&self) -> SpaceUpdateView {
        SpaceUpdateView {
            name: opt_view(self.name),
            archived: self.archived,
            deleted: self.deleted,
        }
    }
}

/// The request that an operation makes.
pub open spec fn update_of(
    operation: SpaceMetadataOperation,
    name: Option<Seq<char>>,
) -> SpaceUpdateView {
    SpaceUpdateView {
        name,
        archived: match operation {
            SpaceMetadataOperation::Archive => Some(true),
            SpaceMetadataOperation::Unarchive => Some(false),
            SpaceMetadataOperation::Restore => Some(false),
            SpaceMetadataOperation::Rename => None,
            SpaceMetadataOperation::Delete => None,
        },
        deleted: match operation {
            SpaceMetadataOperation::Delete => Some(true),
            SpaceMetadataOperation::Restore => Some(false),
            SpaceMetadataOperation::Rename => None,
            SpaceMetadataOperation::Archive => None,
            SpaceMetadataOperation::Unarchive => None,
        },
    }
}

/// The request that an operation makes.
pub fn space_update(operation: SpaceMetadataOperation, name: Option<String>) -> (r: SpaceUpdate)
    ensures
        r@ == update_of(operation, opt_view(name)),
{
    SpaceUpdate {
        name,
        archived: match operation {
            SpaceMetadataOperation::Archive => Some(true),
            SpaceMetadataOperation::Unarchive | SpaceMetadataOperation::Restore => Some(false),
            _ => None,
        },
        deleted: match operation {
            SpaceMetadataOperation::Delete => Some(true),
            SpaceMetadataOperation::Restore => Some(false),
            _ => None,
        },
    }
}

/// A space as the server describes it.
#[derive(Debug, PartialEq)]
pub struct RemoteSpace {
    pub id: u64,
    pub stable_id: String,
    pub name: String,
    pub archived: bool,
    pub created_at: u64,
    pub updated_at: u64,
    pub deleted_at: Option<u64>,
    pub board_version: u64,
}

/// A space as the server describes it, its texts as characters.
pub struct RemoteSpaceView {
    pub id: u64,
    pub stable_id: Seq<char>,
    pub name: Seq<char>,
    pub archived: bool,
    pub created_at: u64,
    pub updated_at: u64,
    pub deleted_at: Option<u64>,
    pub board_version: u64,
}

impl View for RemoteSpace {
    type V = RemoteSpaceView;

    open spec fn view(&self) -> RemoteSpaceView {
        RemoteSpaceView {
            id: self.id,
            stable_id: self.stable_id@,
            name: self.name@,
            archived: self.archived,
            created_at: self.created_at,
            updated_at: self.updated_at,
            deleted_at: self.deleted_at,
            board_version: self.board_version,
        }
    }
}

/// A space of the server with a board, as it stands on the device.
pub open spec fn account_space(remote: RemoteSpaceView, board: BoardView) -> SpaceView {
    SpaceView {
        id: remote.id,
        stable_id: remote.stable_id,
        name: remote.name,
        sync_enabled: true,
        sync_override: None,
        metadata_version: remote.board_version,
        archived: remote.archived,
        created_at: remote.created_at,
        updated_at: remote.updated_at,
        deleted_at: remote.deleted_at,
        board,
    }
}

/// A space of the server with a board, as it stands on the device.
pub fn space_from_remote(remote: &RemoteSpace, board: BoardData) -> (r: Space)
    ensures
        r@ == account_space(remote@, board@),
{
    Space {
        id: remote.id,
        stable_id: remote.stable_id.clone(),
        name: remote.name.clone(),
        sync_enabled: true,
        sync_override: None,
        metadata_version: remote.board_version,
        archived: remote.archived,
        created_at: remote.created_at,
        updated_at: remote.updated_at,
        deleted_at: remote.deleted_at,
        board,
    }
}

/// What an action leaves to be done outside.
#[derive(Debug, PartialEq)]
pub enum SpaceEffect {
    /// Save this workspace on the device.
    Save(WorkspaceData),
    /// Show the space at the place it was last left.
    ShowView(u64),
    /// Ask the server for a new space.
    CreateRemote,
    /// Send a change of a space to the server.
    UpdateRemote(u64, SpaceUpdate),
    /// Tell the other tabs about a new space: its id, name and identity.
    Announce(u64, String, String),
}

/// What an action leaves to be done, as views.
pub enum SpaceEffectView {
    Save(WorkspaceView),
    ShowView(u64),
    CreateRemote,
    UpdateRemote(u64, SpaceUpdateView),
    Announce(u64, Seq<char>, Seq<char>),
}

impl View for SpaceEffect {
    type V = SpaceEffectView;

    open spec fn view(&self) -> SpaceEffectView {
        match self {
            SpaceEffect::Save(w) => SpaceEffectView::Save(w@),
            SpaceEffect::ShowView(id) => SpaceEffectView::ShowView(*id),
            SpaceEffect::CreateRemote => SpaceEffectView::CreateRemote,
            SpaceEffect::UpdateRemote(id, u) => SpaceEffectView::UpdateRemote(*id, u@),
            SpaceEffect::Announce(id, name, stable_id) => SpaceEffectView::Announce(
                *id,
                name@,
                stable_id@,
            ),
        }
    }
}

/// The spaces of a principal with the desk in front of them.
#[derive(Debug, PartialEq)]
pub struct Shelf {
    pub principal: String,
    pub spaces: Vec<Space>,
    pub active_space_id: u64,
    pub tombstones: Vec<Tombstone>,
    pub desk: Desk,
    pub message: Option<String>,
    pub menu_open: bool,
    pub pending_delete: Option<u64>,
    pub rename_id: Option<u64>,
    pub rename_value: String,
}

/// A shelf as sequences of views.
pub struct ShelfView {
    pub principal: Seq<char>,
    pub spaces: Seq<SpaceView>,
    pub active_space_id: u64,
    pub tombstones: Seq<TombstoneView>,
    pub desk: DeskView,
    pub message: Option<Seq<char>>,
    pub menu_open: bool,
    pub pending_delete: Option<u64>,
    pub rename_id: Option<u64>,
    pub rename_value: Seq<char>,
}

impl View for Shelf {
    type V = ShelfView;

    open spec fn view(&self) -> ShelfView {
        ShelfView {
            principal: self.principal@,
            spaces: views(self.spaces@),
            active_space_id: self.active_space_id,
            tombstones: views(self.tombstones@),
            desk: self.desk@,
            message: opt_view(self.message),
            menu_open: self.menu_open,
            pending_delete: self.pending_delete,
            rename_id: self.rename_id,
            rename_value: self.rename_value@,
        }
    }
}

/// A shelf together with what is left to be done.
pub struct Step {
    pub shelf: ShelfView,
    pub effects: Seq<SpaceEffectView>,
}

/// The workspace to save, with the given space active.
pub open spec fn saved(s: ShelfView, env: SurroundingsView, active: u64) -> SpaceEffectView {
    SpaceEffectView::Save(workspace_of(env, s.spaces, active, s.tombstones))
}

/// The shelf after what is on the desk was finished and written into its
/// space, and the workspace to save then.
pub open spec fn put_away(s: ShelfView, env: SurroundingsView) -> Step {
    let desk = all_committed(s.desk);
    let shelf = ShelfView {
        desk,
        spaces: persisted_spaces(s.spaces, s.active_space_id, snapshot_of(desk), env.now),
        ..s
    };
    Step { shelf, effects: seq![saved(shelf, env, s.active_space_id)] }
}

/// The position of the first open space with the given id.
pub open spec fn open_position(spaces: Seq<SpaceView>, id: u64) -> int {
    first_space(spaces, |s: SpaceView| s.id == id && is_open(s))
}

/// The shelf with a space in front: its board on an otherwise empty desk.
pub open spec fn activated(s: ShelfView, id: u64) -> ShelfView {
    let space = s.spaces[open_position(s.spaces, id)];
    ShelfView {
        active_space_id: id,
        desk: fresh_desk(s.desk.schema_version, space.board.notes, space.board.groups),
        message: None,
        ..s
    }
}

/// The step of switching to a space. What is on the desk is put away first; a
/// space that is not open cannot be switched to.
pub open spec fn switched(s: ShelfView, env: SurroundingsView, id: u64) -> Step {
    if s.active_space_id == id {
        Step { shelf: ShelfView { menu_open: false, ..s }, effects: Seq::empty() }
    } else {
        let away = put_away(s, env);
        if open_position(away.shelf.spaces, id) < away.shelf.spaces.len() {
            let shelf = ShelfView { menu_open: false, ..activated(away.shelf, id) };
            Step {
                shelf,
                effects: away.effects + seq![
                    SpaceEffectView::ShowView(id),
                    saved(shelf, env, id),
                ],
            }
        } else {
            away
        }
    }
}

/// A new space that stays on the device.
pub open spec fn new_local_space(env: SurroundingsView, id: u64, stable_id: Seq<char>) -> SpaceView {
    SpaceView {
        id,
        stable_id,
        name: "new space"@,
        sync_enabled: false,
        sync_override: None,
        metadata_version: 0,
        archived: false,
        created_at: env.now,
        updated_at: env.now,
        deleted_at: None,
        board: blank_board(env.schema_version),
    }
}

/// The step of creating a space. A guest has one board only; an account asks
/// the server; otherwise the space is made on the device.
pub open spec fn created(
    s: ShelfView,
    env: SurroundingsView,
    entitled: bool,
    id: u64,
    stable_id: Seq<char>,
) -> Step {
    if guest_principal_text(s.principal) {
        Step {
            shelf: ShelfView {
                message: Some("the free board stays single-device; sign in for multiple spaces"@),
                ..s
            },
            effects: Seq::empty(),
        }
    } else if entitled {
        Step { shelf: s, effects: seq![SpaceEffectView::CreateRemote] }
    } else {
        let away = put_away(s, env);
        let grown = ShelfView {
            spaces: away.shelf.spaces.push(new_local_space(env, id, stable_id)),
            ..away.shelf
        };
        let step = switched(grown, env, id);
        let known = first_space(step.shelf.spaces, |s: SpaceView| s.id == id);
        let told = if known < step.shelf.spaces.len() {
            seq![
                SpaceEffectView::Announce(
                    id,
                    step.shelf.spaces[known].name,
                    step.shelf.spaces[known].stable_id,
                ),
            ]
        } else {
            Seq::empty()
        };
        Step {
            shelf: ShelfView { menu_open: false, ..step.shelf },
            effects: away.effects + step.effects + seq![saved(step.shelf, env, id)] + told,
        }
    }
}

/// A space that the server has just made, on the device.
pub open spec fn welcomed_space(env: SurroundingsView, remote: RemoteSpaceView) -> SpaceView {
    let space = account_space(remote, blank_board(env.schema_version));
    SpaceView {
        created_at: time_or(remote.created_at, env.now),
        updated_at: time_or(remote.updated_at, env.now),
        ..space
    }
}

/// The step of taking in a space that the server has just made.
pub open spec fn created_remotely(
    s: ShelfView,
    env: SurroundingsView,
    remote: RemoteSpaceView,
) -> Step {
    let grown = ShelfView { spaces: s.spaces.push(welcomed_space(env, remote)), ..s };
    let step = switched(grown, env, remote.id);
    Step { effects: step.effects.push(saved(step.shelf, env, remote.id)), ..step }
}

/// The number of open spaces.
pub open spec fn open_count(spaces: Seq<SpaceView>) -> int {
    spaces.filter(|s: SpaceView| is_open(s)).len() as int
}

/// The spaces with the first one of the given id changed.
pub open spec fn with_space(
    spaces: Seq<SpaceView>,
    id: u64,
    change: spec_fn(SpaceView) -> SpaceView,
) -> Seq<SpaceView> {
    let i = first_space(spaces, |s: SpaceView| s.id == id);
    if i < spaces.len() {
        spaces.update(i, change(spaces[i]))
    } else {
        spaces
    }
}

/// The request to the server that an operation makes; a guest makes none.
pub open spec fn told_server(
    principal: Seq<char>,
    id: u64,
    operation: SpaceMetadataOperation,
    name: Option<Seq<char>>,
) -> Seq<SpaceEffectView> {
    if guest_principal_text(principal) {
        Seq::empty()
    } else {
        seq![SpaceEffectView::UpdateRemote(id, update_of(operation, name))]
    }
}

/// The step of moving on to the first open space, where there is one.
pub open spec fn moved_on(s: ShelfView, env: SurroundingsView) -> Step {
    let next = first_space(s.spaces, |s: SpaceView| is_open(s));
    if next < s.spaces.len() {
        let step = switched(s, env, s.spaces[next].id);
        Step { effects: step.effects.push(saved(step.shelf, env, s.spaces[next].id)), ..step }
    } else {
        Step { shelf: s, effects: Seq::empty() }
    }
}

/// The step of archiving the space in front. The last open space stays.
pub open spec fn archived_current(s: ShelfView, env: SurroundingsView) -> Step {
    if open_count(s.spaces) <= 1 {
        Step {
            shelf: ShelfView {
                message: Some("keep one space open"@),
                menu_open: false,
                ..s
            },
            effects: Seq::empty(),
        }
    } else {
        let away = put_away(s, env);
        let shut = ShelfView {
            spaces: with_space(
                away.shelf.spaces,
                s.active_space_id,
                |x: SpaceView| SpaceView { archived: true, updated_at: env.now, ..x },
            ),
            ..away.shelf
        };
        let step = moved_on(shut, env);
        Step {
            shelf: ShelfView { menu_open: false, ..step.shelf },
            effects: away.effects + step.effects + told_server(
                s.principal,
                s.active_space_id,
                SpaceMetadataOperation::Archive,
                None,
            ),
        }
    }
}

/// The step of taking a space out of the archive, or back from deletion.
pub open spec fn restored(s: ShelfView, env: SurroundingsView, id: u64) -> Step {
    let i = first_space(s.spaces, |x: SpaceView| x.id == id);
    let operation = if i < s.spaces.len() && s.spaces[i].deleted_at is Some {
        SpaceMetadataOperation::Restore
    } else {
        SpaceMetadataOperation::Unarchive
    };
    let shelf = ShelfView {
        tombstones: s.tombstones.filter(
            |t: TombstoneView| t.kind != TombstoneKind::Space || t.id != id,
        ),
        spaces: with_space(
            s.spaces,
            id,
            |x: SpaceView|
                SpaceView { archived: false, deleted_at: None, updated_at: env.now, ..x },
        ),
        pending_delete: None,
        ..s
    };
    Step {
        shelf,
        effects: seq![saved(shelf, env, s.active_space_id)] + told_server(
            s.principal,
            id,
            operation,
            None,
        ),
    }
}

/// The name that a user's text gives to a space: trimmed, of at most 48
/// characters, and never empty.
pub open spec fn space_name(value: Seq<char>) -> Seq<char> {
    if trimmed(value).len() == 0 {
        "untitled space"@
    } else {
        first_chars(trimmed(value), 48)
    }
}

/// The step of giving the space that is being renamed its new name.
pub open spec fn renamed(s: ShelfView, env: SurroundingsView) -> Step {
    match s.rename_id {
        None => Step { shelf: s, effects: Seq::empty() },
        Some(id) => {
            let name = space_name(s.rename_value);
            let shelf = ShelfView {
                spaces: with_space(
                    s.spaces,
                    id,
                    |x: SpaceView| SpaceView { name, updated_at: env.now, ..x },
                ),
                rename_id: None,
                ..s
            };
            Step {
                shelf,
                effects: seq![saved(shelf, env, s.active_space_id)] + told_server(
                    s.principal,
                    id,
                    SpaceMetadataOperation::Rename,
                    Some(name),
                ),
            }
        },
    }
}

/// The tombstones with one for a space, where it has none yet.
pub open spec fn with_space_tombstone(
    list: Seq<TombstoneView>,
    id: u64,
    stable_id: Seq<char>,
    now: u64,
) -> Seq<TombstoneView> {
    if has_tombstone(list, TombstoneKind::Space, id) {
        list
    } else {
        list.push(
            TombstoneView { kind: TombstoneKind::Space, id, stable_id, deleted_at: now },
        )
    }
}

/// The shelf with a space deleted and its tombstone set.
pub open spec fn without_space(
    s: ShelfView,
    env: SurroundingsView,
    id: u64,
    legacy: Seq<char>,
) -> ShelfView {
    let i = first_space(s.spaces, |x: SpaceView| x.id == id);
    ShelfView {
        tombstones: with_space_tombstone(
            s.tombstones,
            id,
            if i < s.spaces.len() {
                s.spaces[i].stable_id
            } else {
                legacy
            },
            env.now,
        ),
        spaces: with_space(
            s.spaces,
            id,
            |x: SpaceView|
                SpaceView {
                    archived: true,
                    deleted_at: Some(env.now),
                    updated_at: env.now,
                    ..x
                },
        ),
        ..s
    }
}

/// The step of deleting the space whose deletion was requested. The last open
/// space in front stays.
pub open spec fn deleted(s: ShelfView, env: SurroundingsView, legacy: Seq<char>) -> Step {
    match s.pending_delete {
        None => Step { shelf: s, effects: Seq::empty() },
        Some(id) => {
            let current = id == s.active_space_id;
            if current && open_count(s.spaces) <= 1 {
                Step {
                    shelf: ShelfView {
                        message: Some("keep one space open"@),
                        pending_delete: None,
                        ..s
                    },
                    effects: Seq::empty(),
                }
            } else {
                let away = if current {
                    put_away(s, env)
                } else {
                    Step { shelf: s, effects: Seq::empty() }
                };
                let gone = without_space(away.shelf, env, id, legacy);
                let step = if current {
                    moved_on(gone, env)
                } else {
                    Step {
                        shelf: gone,
                        effects: seq![saved(gone, env, s.active_space_id)],
                    }
                };
                Step {
                    shelf: ShelfView { pending_delete: None, menu_open: false, ..step.shelf },
                    effects: away.effects + step.effects + told_server(
                        s.principal,
                        id,
                        SpaceMetadataOperation::Delete,
                        None,
                    ),
                }
            }
        },
    }
}

/// The position of the first open space with the given id.
pub fn position_of_open_space(spaces: &Vec<Space>, id: u64) -> (r: usize)
    ensures
        r == open_position(views(spaces@), id),
        r <= spaces@.len(),
{
    let ghost list = views(spaces@);
    let mut i: usize = 0;
    while i < spaces.len() && !(spaces[i].id == id && !spaces[i].archived
        && spaces[i].deleted_at.is_none())
        invariant
            list == views(spaces@),
            i <= spaces@.len(),
            forall|j: int| 0 <= j < i ==> !((#[trigger] list[j]).id == id && is_open(list[j])),
        decreases spaces@.len() - i,
    {
        i = i + 1;
    }
    proof {
        first_space_at(list, |s: SpaceView| s.id == id && is_open(s), i as int);
    }
    i
}

/// The position of the first open space.
pub fn position_of_any_open_space(spaces: &Vec<Space>) -> (r: usize)
    ensures
        r == first_space(views(spaces@), |s: SpaceView| is_open(s)),
        r <= spaces@.len(),
{
    let ghost list = views(spaces@);
    let mut i: usize = 0;
    while i < spaces.len() && (spaces[i].archived || spaces[i].deleted_at.is_some())
        invariant
            list == views(spaces@),
            i <= spaces@.len(),
            forall|j: int| 0 <= j < i ==> !is_open(#[trigger] list[j]),
        decreases spaces@.len() - i,
    {
        i = i + 1;
    }
    proof {
        first_space_at(list, |s: SpaceView| is_open(s), i as int);
    }
    i
}

/// The number of open spaces.
pub fn count_open(spaces: &Vec<Space>) -> (r: usize)
    ensures
        r == open_count(views(spaces@)),
{
    let ghost list = views(spaces@);
    let ghost pred = |s: SpaceView| is_open(s);
    proof {
        filter_ends(list, pred);
    }
    let mut count: usize = 0;
    let mut i: usize = 0;
    while i < spaces.len()
        invariant
            list == views(spaces@),
            pred == (|s: SpaceView| is_open(s)),
            i <= spaces@.len(),
            count <= i,
            count == list.take(i as int).filter(pred).len(),
        decreases spaces@.len() - i,
    {
        proof {
            filter_step(list, pred, i as int);
        }
        if !spaces[i].archived && spaces[i].deleted_at.is_none() {
            count = count + 1;
        }
        i = i + 1;
    }
    count
}

/// The name that a user's text gives to a space.
pub fn normalize_space_name(value: &str) -> (r: String)
    ensures
        r@ == space_name(value@),
{
    let name = trim(value);
    if name.as_str().is_empty() {
        "untitled space".to_owned()
    } else {
        take_chars(&name, 48)
    }
}

fn append_effects(list: &mut Vec<SpaceEffect>, more: Vec<SpaceEffect>)
    ensures
        views(final(list)@) == views(old(list)@) + views(more@),
{
    let ghost before = views(list@);
    let mut rest = more;
    let ghost extra = rest@;
    list.append(&mut rest);
    assert(views(list@) =~= before + views(extra));
}

impl Shelf {
    fn saved_workspace(&self, env: &Surroundings, active: u64) -> (r: SpaceEffect)
        ensures
            r@ == saved(self@, env@, active),
    {
        SpaceEffect::Save(workspace_snapshot(env, &self.spaces, active, &self.tombstones))
    }

    /// Finishes what is on the desk and writes it into its space.
    pub fn put_desk_away(&mut self, env: &Surroundings) -> (r: Vec<SpaceEffect>)
        ensures
            (Step { shelf: final(self)@, effects: views(r@) }) == put_away(old(self)@, env@),
    {
        broadcast use views_push;

        self.desk.commit_pending_edit();
        self.desk.commit_pending_group_edit();
        let board = self.desk.board_snapshot();
        self.spaces = persist_space_board(&self.spaces, self.active_space_id, &board, env.now);
        let mut effects: Vec<SpaceEffect> = Vec::new();
        effects.push(self.saved_workspace(env, self.active_space_id));
        assert(views(effects@) =~= put_away(old(self)@, env@).effects);
        effects
    }

    /// Puts a space in front, where it is open.
    pub fn activate_space(&mut self, id: u64) -> (r: bool)
        ensures
            r == (open_position(old(self)@.spaces, id) < old(self)@.spaces.len()),
            final(self)@ == (if r {
                activated(old(self)@, id)
            } else {
                old(self)@
            }),
    {
        let i = position_of_open_space(&self.spaces, id);
        if i >= self.spaces.len() {
            return false;
        }
        self.active_space_id = id;
        let notes = clone_notes(&self.spaces[i].board.notes);
        let groups = clone_groups(&self.spaces[i].board.groups);
        self.desk = Desk::new(self.desk.schema_version, notes, groups);
        self.message = None;
        true
    }

    /// Switches to a space.
    pub fn switch(&mut self, env: &Surroundings, id: u64) -> (r: Vec<SpaceEffect>)
        ensures
            (Step { shelf: final(self)@, effects: views(r@) }) == switched(old(self)@, env@, id),
    {
        broadcast use views_push;

        if self.active_space_id == id {
            self.menu_open = false;
            let none: Vec<SpaceEffect> = Vec::new();
            assert(views(none@) =~= Seq::empty());
            return none;
        }
        let mut effects = self.put_desk_away(env);
        let ghost away = views(effects@);
        if self.activate_space(id) {
            self.menu_open = false;
            effects.push(SpaceEffect::ShowView(id));
            effects.push(self.saved_workspace(env, id));
            assert(views(effects@) =~= switched(old(self)@, env@, id).effects);
        }
        effects
    }

    /// Creates a space with the given id and identity.
    pub fn create(
        &mut self,
        env: &Surroundings,
        entitled: bool,
        id: u64,
        stable_id: &str,
    ) -> (r: Vec<SpaceEffect>)
        ensures
            (Step { shelf: final(self)@, effects: views(r@) }) == created(
                old(self)@,
                env@,
                entitled,
                id,
                stable_id@,
            ),
    {
        broadcast use views_push;

        let ghost expected = created(old(self)@, env@, entitled, id, stable_id@);
        if is_guest_principal(&self.principal) {
            self.message = Some(
                "the free board stays single-device; sign in for multiple spaces".to_owned(),
            );
            let none: Vec<SpaceEffect> = Vec::new();
            assert(views(none@) =~= expected.effects);
            return none;
        }
        if entitled {
            let mut one: Vec<SpaceEffect> = Vec::new();
            one.push(SpaceEffect::CreateRemote);
            assert(views(one@) =~= expected.effects);
            return one;
        }
        let mut effects = self.put_desk_away(env);
        let space = Space {
            id,
            stable_id: stable_id.to_owned(),
            name: "new space".to_owned(),
            sync_enabled: false,
            sync_override: None,
            metadata_version: 0,
            archived: false,
            created_at: env.now,
            updated_at: env.now,
            deleted_at: None,
            board: empty_board(env.schema_version),
        };
        assert(space@ == new_local_space(env@, id, stable_id@));
        self.spaces.push(space);
        let switching = self.switch(env, id);
        append_effects(&mut effects, switching);
        effects.push(self.saved_workspace(env, id));
        let known = position_of_space(&self.spaces, id);
        if known < self.spaces.len() {
            let name = self.spaces[known].name.clone();
            let identity = self.spaces[known].stable_id.clone();
            effects.push(SpaceEffect::Announce(id, name, identity));
        }
        self.menu_open = false;
        assert(views(effects@) =~= expected.effects);
        effects
    }

    /// Takes in a space that the server has just made.
    pub fn create_remote(&mut self, env: &Surroundings, remote: &RemoteSpace) -> (r: Vec<
        SpaceEffect,
    >)
        ensures
            (Step { shelf: final(self)@, effects: views(r@) }) == created_remotely(
                old(self)@,
                env@,
                remote@,
            ),
    {
        broadcast use views_push;

        let mut space = space_from_remote(remote, empty_board(env.schema_version));
        if remote.created_at == 0 {
            space.created_at = env.now;
        }
        if remote.updated_at == 0 {
            space.updated_at = env.now;
        }
        assert(space@ == welcomed_space(env@, remote@));
        self.spaces.push(space);
        let mut effects = self.switch(env, remote.id);
        effects.push(self.saved_workspace(env, remote.id));
        effects
    }

    /// Notes that the server could not make a space.
    pub fn create_failed(&mut self, error: &str)
        ensures
            final(self)@ == (ShelfView {
                message: Some("couldn't create space: "@ + error@),
                ..old(self)@
            }),
    {
        self.message = Some(concat("couldn't create space: ", error));
    }

    /// Starts renaming a space that is there.
    pub fn begin_rename(&mut self, id: u64)
        ensures
            final(self)@ == ({
                let s = old(self)@;
                let i = first_space(s.spaces, |x: SpaceView| x.id == id);
                if i < s.spaces.len() {
                    ShelfView {
                        rename_value: s.spaces[i].name,
                        rename_id: Some(id),
                        menu_open: true,
                        ..s
                    }
                } else {
                    s
                }
            }),
    {
        let i = position_of_space(&self.spaces, id);
        if i < self.spaces.len() {
            self.rename_value = self.spaces[i].name.clone();
            self.rename_id = Some(id);
            self.menu_open = true;
        }
    }

    /// Gives up renaming a space.
    pub fn cancel_name(&mut self)
        ensures
            final(self)@ == (ShelfView { rename_id: None, ..old(self)@ }),
    {
        self.rename_id = None;
    }

    fn tell_server(
        &self,
        effects: Vec<SpaceEffect>,
        id: u64,
        operation: SpaceMetadataOperation,
        name: Option<String>,
    ) -> (r: Vec<SpaceEffect>)
        ensures
            views(r@) == views(effects@) + told_server(
                self@.principal,
                id,
                operation,
                opt_view(name),
            ),
    {
        broadcast use views_push;

        let mut out = effects;
        let ghost before = views(out@);
        let ghost told = told_server(self@.principal, id, operation, opt_view(name));
        if !is_guest_principal(&self.principal) {
            out.push(SpaceEffect::UpdateRemote(id, space_update(operation, name)));
        }
        assert(views(out@) =~= before + told);
        out
    }

    fn move_on(&mut self, env: &Surroundings) -> (r: Vec<SpaceEffect>)
        ensures
            (Step { shelf: final(self)@, effects: views(r@) }) == moved_on(old(self)@, env@),
    {
        broadcast use views_push;

        let next = position_of_any_open_space(&self.spaces);
        if next < self.spaces.len() {
            let id: u64 = self.spaces[next].id;
            let mut effects = self.switch(env, id);
            effects.push(self.saved_workspace(env, id));
            effects
        } else {
            let none: Vec<SpaceEffect> = Vec::new();
            assert(views(none@) =~= Seq::empty());
            none
        }
    }

    /// Archives the space in front.
    pub fn archive_current(&mut self, env: &Surroundings) -> (r: Vec<SpaceEffect>)
        ensures
            (Step { shelf: final(self)@, effects: views(r@) }) == archived_current(
                old(self)@,
                env@,
            ),
    {
        if count_open(&self.spaces) <= 1 {
            self.message = Some("keep one space open".to_owned());
            self.menu_open = false;
            let none: Vec<SpaceEffect> = Vec::new();
            assert(views(none@) =~= Seq::empty());
            return none;
        }
        let current: u64 = self.active_space_id;
        let mut effects = self.put_desk_away(env);
        let i = position_of_space(&self.spaces, current);
        if i < self.spaces.len() {
            let mut space = self.spaces[i].clone();
            space.archived = true;
            space.updated_at = env.now;
            self.spaces = replace_space(&self.spaces, i, space);
        }
        let moving = self.move_on(env);
        append_effects(&mut effects, moving);
        self.menu_open = false;
        self.tell_server(effects, current, SpaceMetadataOperation::Archive, None)
    }

    /// Takes a space out of the archive, or back from deletion.
    pub fn restore(&mut self, env: &Surroundings, id: u64) -> (r: Vec<SpaceEffect>)
        ensures
            (Step { shelf: final(self)@, effects: views(r@) }) == restored(old(self)@, env@, id),
    {
        broadcast use views_push;

        self.tombstones = crate::metadata::remove_space_tombstones(&self.tombstones, id);
        let i = position_of_space(&self.spaces, id);
        let mut operation = SpaceMetadataOperation::Unarchive;
        if i < self.spaces.len() {
            if self.spaces[i].deleted_at.is_some() {
                operation = SpaceMetadataOperation::Restore;
            }
            let mut space = self.spaces[i].clone();
            space.archived = false;
            space.deleted_at = None;
            space.updated_at = env.now;
            self.spaces = replace_space(&self.spaces, i, space);
        }
        self.pending_delete = None;
        let mut effects: Vec<SpaceEffect> = Vec::new();
        effects.push(self.saved_workspace(env, self.active_space_id));
        assert(views(effects@) =~= seq![saved(self@, env@, self@.active_space_id)]);
        self.tell_server(effects, id, operation, None)
    }

    /// Gives the space that is being renamed its new name.
    pub fn save_name(&mut self, env: &Surroundings) -> (r: Vec<SpaceEffect>)
        ensures
            (Step { shelf: final(self)@, effects: views(r@) }) == renamed(old(self)@, env@),
    {
        broadcast use views_push;

        match self.rename_id {
            None => {
                let none: Vec<SpaceEffect> = Vec::new();
                assert(views(none@) =~= Seq::empty());
                none
            },
            Some(id) => {
                let name = normalize_space_name(&self.rename_value);
                let i = position_of_space(&self.spaces, id);
                if i < self.spaces.len() {
                    let mut space = self.spaces[i].clone();
                    space.name = name.clone();
                    space.updated_at = env.now;
                    self.spaces = replace_space(&self.spaces, i, space);
                }
                self.rename_id = None;
                let mut effects: Vec<SpaceEffect> = Vec::new();
                effects.push(self.saved_workspace(env, self.active_space_id));
                assert(views(effects@) =~= seq![saved(self@, env@, self@.active_space_id)]);
                self.tell_server(effects, id, SpaceMetadataOperation::Rename, Some(name))
            },
        }
    }

    /// Says where the spaces of this principal are kept.
    pub fn toggle_sync(&mut self, entitled: bool)
        ensures
            final(self)@ == (ShelfView {
                message: Some(
                    if entitled {
                        "account spaces are saved through HTTP"@
                    } else {
                        "guest boards stay on this device; sign in for account spaces"@
                    },
                ),
                ..old(self)@
            }),
    {
        self.message = Some(
            if entitled {
                "account spaces are saved through HTTP".to_owned()
            } else {
                "guest boards stay on this device; sign in for account spaces".to_owned()
            },
        );
    }

    /// Asks for a second word before a space is deleted.
    pub fn request_delete(&mut self, id: u64)
        ensures
            final(self)@ == (ShelfView { pending_delete: Some(id), ..old(self)@ }),
    {
        self.pending_delete = Some(id);
    }

    /// Deletes the space whose deletion was requested. `legacy` is the identity
    /// of a space that is not there any more.
    pub fn confirm_delete(&mut self, env: &Surroundings, legacy: &str) -> (r: Vec<SpaceEffect>)
        ensures
            (Step { shelf: final(self)@, effects: views(r@) }) == deleted(
                old(self)@,
                env@,
                legacy@,
            ),
    {
        broadcast use views_push;

        let ghost s = self@;
        match self.pending_delete {
            None => {
                let none: Vec<SpaceEffect> = Vec::new();
                assert(views(none@) =~= Seq::empty());
                none
            },
            Some(id) => {
                let active: u64 = self.active_space_id;
                let current = id == active;
                if current && count_open(&self.spaces) <= 1 {
                    self.message = Some("keep one space open".to_owned());
                    self.pending_delete = None;
                    let none: Vec<SpaceEffect> = Vec::new();
                    assert(views(none@) =~= Seq::empty());
                    return none;
                }
                let mut effects: Vec<SpaceEffect> = Vec::new();
                assert(views(effects@) =~= Seq::empty());
                if current {
                    effects = self.put_desk_away(env);
                }
                let ghost away = Step { shelf: self@, effects: views(effects@) };
                let i = position_of_space(&self.spaces, id);
                if !tombstone_exists(&self.tombstones, TombstoneKind::Space, id) {
                    let stable_id = if i < self.spaces.len() {
                        self.spaces[i].stable_id.clone()
                    } else {
                        legacy.to_owned()
                    };
                    self.tombstones.push(
                        Tombstone {
                            kind: TombstoneKind::Space,
                            id,
                            stable_id,
                            deleted_at: env.now,
                        },
                    );
                }
                if i < self.spaces.len() {
                    let mut space = self.spaces[i].clone();
                    space.archived = true;
                    space.deleted_at = Some(env.now);
                    space.updated_at = env.now;
                    self.spaces = replace_space(&self.spaces, i, space);
                }
                assert(self@ == without_space(away.shelf, env@, id, legacy@));
                if current {
                    let moving = self.move_on(env);
                    append_effects(&mut effects, moving);
                } else {
                    let ghost before = views(effects@);
                    effects.push(self.saved_workspace(env, active));
                    assert(views(effects@) =~= before + seq![saved(self@, env@, active)]);
                }
                self.pending_delete = None;
                self.menu_open = false;
                self.tell_server(effects, id, SpaceMetadataOperation::Delete, None)
            },
        }
    }
}

/// Whether some space is open.
pub open spec fn some_open(spaces: Seq<SpaceView>) -> bool {
    exists|i: int| 0 <= i < spaces.len() && is_open(#[trigger] spaces[i])
}

proof fn open_besides(spaces: Seq<SpaceView>, k: int)
    requires
        open_count(spaces) > 1,
    ensures
        exists|i: int| 0 <= i < spaces.len() && i != k && is_open(#[trigger] spaces[i]),
    decreases spaces.len(),
{
    let pred = |s: SpaceView| is_open(s);
    reveal(Seq::filter);
    if spaces.len() > 0 {
        let rest = spaces.drop_last();
        if is_open(spaces.last()) && k != spaces.len() - 1 {
            assert(is_open(spaces[spaces.len() - 1]));
        } else if is_open(spaces.last()) {
            assert(rest.filter(pred).len() > 0);
            crate::lists::filter_member(rest, pred, 0);
            let i = rest.index_of(rest.filter(pred)[0]);
            assert(is_open(spaces[i]));
        } else {
            open_besides(rest, k);
            let i = choose|i: int|
                0 <= i < rest.len() && i != k && is_open(#[trigger] rest[i]);
            assert(is_open(spaces[i]));
        }
    }
}

proof fn putting_away_keeps_open(s: ShelfView, env: SurroundingsView)
    ensures
        put_away(s, env).shelf.spaces.len() == s.spaces.len(),
        forall|i: int|
            0 <= i < s.spaces.len() ==> {
                &&& is_open(#[trigger] put_away(s, env).shelf.spaces[i]) == is_open(s.spaces[i])
                &&& put_away(s, env).shelf.spaces[i].id == s.spaces[i].id
            },
        open_count(put_away(s, env).shelf.spaces) == open_count(s.spaces),
{
    first_space_is_least(s.spaces, |x: SpaceView| x.id == s.active_space_id);
    same_open_count(s.spaces, put_away(s, env).shelf.spaces);
}

proof fn same_open_count(a: Seq<SpaceView>, b: Seq<SpaceView>)
    requires
        a.len() == b.len(),
        forall|i: int| 0 <= i < a.len() ==> is_open(#[trigger] b[i]) == is_open(a[i]),
    ensures
        open_count(a) == open_count(b),
    decreases a.len(),
{
    reveal(Seq::filter);
    if a.len() > 0 {
        assert forall|i: int| 0 <= i < a.len() - 1 implies is_open(#[trigger] b.drop_last()[i])
            == is_open(a.drop_last()[i]) by {
            assert(b.drop_last()[i] == b[i]);
        }
        same_open_count(a.drop_last(), b.drop_last());
        assert(is_open(b[b.len() - 1]) == is_open(a.last()));
    }
}

proof fn moving_on_keeps_open(s: ShelfView, env: SurroundingsView)
    requires
        some_open(s.spaces),
    ensures
        some_open(moved_on(s, env).shelf.spaces),
{
    let next = first_space(s.spaces, |x: SpaceView| is_open(x));
    let i = choose|i: int| 0 <= i < s.spaces.len() && is_open(#[trigger] s.spaces[i]);
    putting_away_keeps_open(s, env);
    assert(is_open(put_away(s, env).shelf.spaces[i]));
    let r = moved_on(s, env).shelf.spaces;
    assert(r == s.spaces || r == put_away(s, env).shelf.spaces);
    assert(is_open(r[i]));
}

/// Archiving the space in front always leaves a space open.
pub proof fn archiving_keeps_a_space_open(s: ShelfView, env: SurroundingsView)
    requires
        some_open(s.spaces),
    ensures
        some_open(archived_current(s, env).shelf.spaces),
{
    if open_count(s.spaces) > 1 {
        let away = put_away(s, env);
        putting_away_keeps_open(s, env);
        let k = first_space(away.shelf.spaces, |x: SpaceView| x.id == s.active_space_id);
        first_space_is_least(away.shelf.spaces, |x: SpaceView| x.id == s.active_space_id);
        open_besides(away.shelf.spaces, k);
        let i = choose|i: int|
            0 <= i < away.shelf.spaces.len() && i != k && is_open(
                #[trigger] away.shelf.spaces[i],
            );
        let shut = ShelfView {
            spaces: with_space(
                away.shelf.spaces,
                s.active_space_id,
                |x: SpaceView| SpaceView { archived: true, updated_at: env.now, ..x },
            ),
            ..away.shelf
        };
        assert(is_open(shut.spaces[i]));
        moving_on_keeps_open(shut, env);
    }
}

/// Deleting a space always leaves a space open, where the space in front was.
pub proof fn deleting_keeps_a_space_open(
    s: ShelfView,
    env: SurroundingsView,
    legacy: Seq<char>,
    front: int,
)
    requires
        0 <= front < s.spaces.len(),
        s.spaces[front].id == s.active_space_id,
        is_open(s.spaces[front]),
    ensures
        some_open(deleted(s, env, legacy).shelf.spaces),
{
    assert(some_open(s.spaces)) by {
        assert(is_open(s.spaces[front]));
    }
    if let Some(id) = s.pending_delete {
        let current = id == s.active_space_id;
        if current && open_count(s.spaces) > 1 {
            let away = put_away(s, env);
            putting_away_keeps_open(s, env);
            let k = first_space(away.shelf.spaces, |x: SpaceView| x.id == id);
            first_space_is_least(away.shelf.spaces, |x: SpaceView| x.id == id);
            open_besides(away.shelf.spaces, k);
            let i = choose|i: int|
                0 <= i < away.shelf.spaces.len() && i != k && is_open(
                    #[trigger] away.shelf.spaces[i],
                );
            let gone = without_space(away.shelf, env, id, legacy);
            assert(is_open(gone.spaces[i]));
            moving_on_keeps_open(gone, env);
        } else if !current {
            first_space_is_least(s.spaces, |x: SpaceView| x.id == id);
            let gone = without_space(s, env, id, legacy);
            assert(gone.spaces[front] == s.spaces[front]);
        }
    }
}

/// A space that is restored is open, and nothing marks it as deleted.
pub proof fn restoring_opens_the_space(s: ShelfView, env: SurroundingsView, id: u64)
    requires
        first_space(s.spaces, |x: SpaceView| x.id == id) < s.spaces.len(),
    ensures
        is_open(
            restored(s, env, id).shelf.spaces[first_space(
                s.spaces,
                |x: SpaceView| x.id == id,
            )],
        ),
        !has_tombstone(restored(s, env, id).shelf.tombstones, TombstoneKind::Space, id),
{
    first_space_is_least(s.spaces, |x: SpaceView| x.id == id);
    let pred = |t: TombstoneView| t.kind != TombstoneKind::Space || t.id != id;
    let kept = s.tombstones.filter(pred);
    assert forall|i: int| 0 <= i < kept.len() implies !((#[trigger] kept[i]).kind
        == TombstoneKind::Space && kept[i].id == id) by {
        crate::lists::filter_member(s.tombstones, pred, i);
    }
}

/// A space's name is never empty and never longer than 48 characters.
pub proof fn space_names_fit(value: Seq<char>)
    ensures
        1 <= space_name(value).len() <= 48,
{
    reveal_strlit("untitled space");
}

/// Whether the last workspace that is saved is the one on the shelf.
pub open spec fn saves_the_shelf(step: Step) -> bool {
    exists|i: int|
        0 <= i < step.effects.len() && (#[trigger] step.effects[i] matches SpaceEffectView::Save(w)
            && w.spaces == step.shelf.spaces && w.tombstones == step.shelf.tombstones
            && w.active_space_id == step.shelf.active_space_id) && (forall|j: int|
            i < j < step.effects.len() ==> !(#[trigger] step.effects[j] is Save))
}

/// Whether a board has the notes and groups of a desk, but for their times.
pub open spec fn has_the_desk(b: BoardView, d: DeskView) -> bool {
    &&& b.notes.len() == d.notes.len()
    &&& b.groups.len() == d.groups.len()
    &&& forall|i: int|
        0 <= i < d.notes.len() ==> #[trigger] b.notes[i] == (NoteView {
            created_at: b.notes[i].created_at,
            updated_at: b.notes[i].updated_at,
            ..d.notes[i]
        })
    &&& forall|i: int|
        0 <= i < d.groups.len() ==> #[trigger] b.groups[i] == (GroupView {
            created_at: b.groups[i].created_at,
            updated_at: b.groups[i].updated_at,
            ..d.groups[i]
        })
}

/// Putting the desk away writes what is on it into the space in front and saves
/// that; every other space stays as it is, and so does the board on the desk.
pub proof fn desks_are_put_away(s: ShelfView, env: SurroundingsView, k: int)
    requires
        0 <= k < s.spaces.len(),
    ensures
        ({
            let step = put_away(s, env);
            let r = step.shelf;
            &&& r.spaces.len() == s.spaces.len()
            &&& is_first_of(s.spaces, s.active_space_id, k) ==> has_the_desk(
                r.spaces[k].board,
                s.desk,
            ) && r.spaces[k] == (SpaceView {
                board: r.spaces[k].board,
                updated_at: r.spaces[k].updated_at,
                ..s.spaces[k]
            })
            &&& !is_first_of(s.spaces, s.active_space_id, k) ==> r.spaces[k] == s.spaces[k]
            &&& r.active_space_id == s.active_space_id
            &&& r.tombstones == s.tombstones
            &&& r.principal == s.principal
            &&& r.desk.notes == s.desk.notes
            &&& r.desk.groups == s.desk.groups
            &&& r.desk.editing is None
            &&& r.desk.group_editing is None
            &&& step.effects.len() == 1
            &&& saves_the_shelf(step)
        }),
{
    crate::edits::finishing_edits_keeps_the_board(s.desk);
    let board = snapshot_of(all_committed(s.desk));
    crate::persist::boards_are_written_into_one_space(
        s.spaces,
        s.active_space_id,
        board,
        env.now,
        k,
    );
    let step = put_away(s, env);
    assert(step.effects[0] is Save);
    if is_first_of(s.spaces, s.active_space_id, k) {
        let b = step.shelf.spaces[k].board;
        assert forall|i: int| 0 <= i < s.desk.notes.len() implies #[trigger] b.notes[i] == (
        NoteView {
            created_at: b.notes[i].created_at,
            updated_at: b.notes[i].updated_at,
            ..s.desk.notes[i]
        }) by {
            assert(b.notes[i].text == board.notes[i].text);
        }
    }
}

/// Switching to another open space brings its board on the desk, with nothing
/// selected and nothing to undo, after what was on the desk was written into
/// its own space. No other space changes, and the workspace is saved with the
/// new space active.
pub proof fn switching_shows_the_space(s: ShelfView, env: SurroundingsView, id: u64, k: int, o: int)
    requires
        id != s.active_space_id,
        0 <= k < s.spaces.len(),
        s.spaces[k].id == id,
        !s.spaces[k].archived,
        s.spaces[k].deleted_at is None,
        forall|j: int|
            0 <= j < k && (#[trigger] s.spaces[j]).id == id ==> s.spaces[j].archived
                || s.spaces[j].deleted_at is Some,
        0 <= o < s.spaces.len(),
    ensures
        ({
            let step = switched(s, env, id);
            let r = step.shelf;
            &&& r.active_space_id == id
            &&& r.desk.notes == s.spaces[k].board.notes
            &&& r.desk.groups == s.spaces[k].board.groups
            &&& r.desk.selection.len() == 0
            &&& r.desk.undo.len() == 0
            &&& r.desk.redo.len() == 0
            &&& r.desk.editing is None
            &&& !r.menu_open
            &&& r.spaces.len() == s.spaces.len()
            &&& r.tombstones == s.tombstones
            &&& is_first_of(s.spaces, s.active_space_id, o) ==> has_the_desk(
                r.spaces[o].board,
                s.desk,
            )
            &&& !is_first_of(s.spaces, s.active_space_id, o) ==> r.spaces[o] == s.spaces[o]
            &&& saves_the_shelf(step)
            &&& step.effects.contains(SpaceEffectView::ShowView(id))
        }),
{
    let away = put_away(s, env);
    desks_are_put_away(s, env, k);
    desks_are_put_away(s, env, o);
    let pred = |x: SpaceView| x.id == id && is_open(x);
    assert forall|j: int| 0 <= j < k implies !pred(#[trigger] away.shelf.spaces[j]) by {
        desks_are_put_away(s, env, j);
        assert(away.shelf.spaces[j].id == s.spaces[j].id);
        assert(away.shelf.spaces[j].archived == s.spaces[j].archived);
        assert(away.shelf.spaces[j].deleted_at == s.spaces[j].deleted_at);
    }
    assert(away.shelf.spaces[k] == s.spaces[k]);
    crate::workspace::first_space_at(away.shelf.spaces, pred, k);
    let step = switched(s, env, id);
    assert(open_position(away.shelf.spaces, id) == k);
    assert(step.effects[2] is Save);
    assert(step.effects[1] == SpaceEffectView::ShowView(id));
}

/// A space that is not open cannot be switched to, and switching to the space in
/// front changes nothing but the menu.
pub proof fn closed_spaces_stay_behind(s: ShelfView, env: SurroundingsView, id: u64)
    ensures
        s.active_space_id == id ==> switched(s, env, id).shelf == (ShelfView {
            menu_open: false,
            ..s
        }) && switched(s, env, id).effects.len() == 0,
        (forall|j: int|
            0 <= j < s.spaces.len() && (#[trigger] s.spaces[j]).id == id ==> s.spaces[j].archived
                || s.spaces[j].deleted_at is Some) && s.active_space_id != id ==> {
            let r = switched(s, env, id).shelf;
            &&& r.active_space_id == s.active_space_id
            &&& r.desk.notes == s.desk.notes
            &&& r.desk.groups == s.desk.groups
        },
{
    if (forall|j: int|
        0 <= j < s.spaces.len() && (#[trigger] s.spaces[j]).id == id ==> s.spaces[j].archived
            || s.spaces[j].deleted_at is Some) && s.active_space_id != id {
        let away = put_away(s, env);
        crate::edits::finishing_edits_keeps_the_board(s.desk);
        let pred = |x: SpaceView| x.id == id && is_open(x);
        first_space_is_least(away.shelf.spaces, pred);
        let p = first_space(away.shelf.spaces, pred);
        first_space_is_least(s.spaces, |x: SpaceView| x.id == s.active_space_id);
        if p < away.shelf.spaces.len() {
            desks_are_put_away(s, env, p);
            assert(pred(away.shelf.spaces[p]));
            assert(s.spaces[p].id == id);
        }
    }
}

proof fn switching_reaches(s: ShelfView, env: SurroundingsView, k: int)
    requires
        0 <= k < s.spaces.len(),
        s.spaces[k].id != s.active_space_id,
        is_open(s.spaces[k]),
    ensures
        ({
            let step = switched(s, env, s.spaces[k].id);
            &&& step.shelf.active_space_id == s.spaces[k].id
            &&& step.shelf.spaces == put_away(s, env).shelf.spaces
            &&& step.shelf.tombstones == s.tombstones
            &&& saves_the_shelf(step)
            &&& exists|i: int|
                0 <= i <= k && (#[trigger] s.spaces[i]).id == s.spaces[k].id && is_open(s.spaces[i])
                    && step.shelf.desk.notes == s.spaces[i].board.notes && step.shelf.desk.groups
                    == s.spaces[i].board.groups
        }),
{
    let id = s.spaces[k].id;
    let pred = |x: SpaceView| x.id == id && is_open(x);
    first_space_is_least(s.spaces, pred);
    let i = first_space(s.spaces, pred);
    assert(pred(s.spaces[k]));
    assert(i <= k);
    assert(pred(s.spaces[i]));
    assert forall|j: int| 0 <= j < i && (#[trigger] s.spaces[j]).id == id implies s.spaces[j].archived
        || s.spaces[j].deleted_at is Some by {
        assert(!pred(s.spaces[j]));
    }
    switching_shows_the_space(s, env, id, i, i);
    let away = put_away(s, env);
    putting_away_keeps_open(s, env);
    let open = |x: SpaceView| x.id == id && is_open(x);
    first_space_is_least(away.shelf.spaces, open);
    assert(is_open(away.shelf.spaces[k]) && away.shelf.spaces[k].id == id);
    assert(open(away.shelf.spaces[k]));
}

/// A space that is made on the device comes last: empty, on the device only and
/// in front, and every other space keeps its board. A guest gets none, and an
/// account that may sync asks the server for it.
pub proof fn new_spaces_come_last(
    s: ShelfView,
    env: SurroundingsView,
    entitled: bool,
    id: u64,
    stable_id: Seq<char>,
    k: int,
)
    requires
        forall|j: int| 0 <= j < s.spaces.len() ==> (#[trigger] s.spaces[j]).id != id,
        id != s.active_space_id,
    ensures
        ({
            let step = created(s, env, entitled, id, stable_id);
            let r = step.shelf;
            &&& guest_principal_text(s.principal) ==> r.spaces == s.spaces && r.active_space_id
                == s.active_space_id && r.desk == s.desk && step.effects.len() == 0 && r.message
                is Some
            &&& !guest_principal_text(s.principal) && entitled ==> r == s && step.effects == seq![
                SpaceEffectView::CreateRemote,
            ]
            &&& !guest_principal_text(s.principal) && !entitled ==> {
                let made = r.spaces.last();
                &&& r.spaces.len() == s.spaces.len() + 1
                &&& made.id == id
                &&& made.stable_id == stable_id
                &&& made.name == "new space"@
                &&& made.board.notes.len() == 0
                &&& made.board.groups.len() == 0
                &&& !made.sync_enabled
                &&& !made.archived
                &&& made.deleted_at is None
                &&& made.created_at == env.now
                &&& r.active_space_id == id
                &&& r.desk.notes.len() == 0
                &&& r.desk.groups.len() == 0
                &&& 0 <= k < s.spaces.len() && !is_first_of(s.spaces, s.active_space_id, k)
                    ==> r.spaces[k] == s.spaces[k]
                &&& is_first_of(s.spaces, s.active_space_id, k) ==> has_the_desk(
                    r.spaces[k].board,
                    s.desk,
                )
                &&& saves_the_shelf(step)
                &&& step.effects.contains(SpaceEffectView::Announce(id, "new space"@, stable_id))
            }
        }),
{
    if !guest_principal_text(s.principal) && !entitled {
        let away = put_away(s, env);
        let grown = ShelfView {
            spaces: away.shelf.spaces.push(new_local_space(env, id, stable_id)),
            ..away.shelf
        };
        let n = s.spaces.len() as int;
        assert(away.shelf.spaces.len() == n) by {
            first_space_is_least(s.spaces, |x: SpaceView| x.id == s.active_space_id);
        }
        assert forall|j: int| 0 <= j < n implies (#[trigger] grown.spaces[j]).id != id by {
            desks_are_put_away(s, env, j);
            assert(s.spaces[j].id != id);
        }
        switching_shows_the_space(grown, env, id, n, n);
        let step = switched(grown, env, id);
        let again = put_away(grown, env);
        assert(step.shelf.spaces.len() == n + 1);
        assert forall|j: int| 0 <= j < n implies (#[trigger] step.shelf.spaces[j]).id != id by {
            switching_shows_the_space(grown, env, id, n, j);
            desks_are_put_away(grown, env, j);
            desks_are_put_away(s, env, j);
            assert(grown.spaces[j].id != id);
        }
        assert(step.shelf.spaces[n] == grown.spaces[n]) by {
            assert(!is_first_of(grown.spaces, s.active_space_id, n));
        }
        assert(is_first_of(step.shelf.spaces, id, n));
        crate::workspace::spaces_are_found_by_id(step.shelf.spaces, id, n);
        if 0 <= k < n {
            desks_are_put_away(s, env, k);
            switching_shows_the_space(grown, env, id, n, k);
            assert forall|j: int| 0 <= j < n implies (#[trigger] grown.spaces[j]).id
                == s.spaces[j].id by {
                desks_are_put_away(s, env, j);
            }
            if is_first_of(s.spaces, s.active_space_id, k) {
                assert forall|j: int| 0 <= j < k implies (#[trigger] grown.spaces[j]).id
                    != s.active_space_id by {
                    assert(s.spaces[j].id != s.active_space_id);
                }
                assert(is_first_of(grown.spaces, grown.active_space_id, k));
                assert(has_the_desk(step.shelf.spaces[k].board, grown.desk));
                assert(grown.desk.notes == s.desk.notes);
                let b = step.shelf.spaces[k].board;
                assert forall|i: int| 0 <= i < s.desk.notes.len() implies #[trigger] b.notes[i] == (
                NoteView {
                    created_at: b.notes[i].created_at,
                    updated_at: b.notes[i].updated_at,
                    ..s.desk.notes[i]
                }) by {}
                assert(has_the_desk(b, s.desk));
            } else {
                if is_first_of(grown.spaces, s.active_space_id, k) {
                    assert forall|j: int| 0 <= j < k implies (#[trigger] s.spaces[j]).id
                        != s.active_space_id by {
                        assert(grown.spaces[j].id != s.active_space_id);
                    }
                }
            }
        }
        let all = created(s, env, entitled, id, stable_id);
        let told = SpaceEffectView::Announce(id, "new space"@, stable_id);
        let m = (away.effects.len() + step.effects.len()) as int;
        assert(all.effects[m] == saved(step.shelf, env, id));
        assert(all.effects[m + 1] == told);
        assert(all.effects.len() == m + 2);
        assert(all.effects[m] is Save);
    }
}

/// A space that the server has just made comes last, as the server describes it,
/// empty and in front; every other space keeps its board.
pub proof fn spaces_of_the_server_come_last(
    s: ShelfView,
    env: SurroundingsView,
    remote: RemoteSpaceView,
    k: int,
)
    requires
        forall|j: int| 0 <= j < s.spaces.len() ==> (#[trigger] s.spaces[j]).id != remote.id,
        remote.id != s.active_space_id,
        !remote.archived,
        remote.deleted_at is None,
    ensures
        ({
            let step = created_remotely(s, env, remote);
            let r = step.shelf;
            let made = r.spaces.last();
            &&& r.spaces.len() == s.spaces.len() + 1
            &&& made.id == remote.id
            &&& made.stable_id == remote.stable_id
            &&& made.name == remote.name
            &&& made.metadata_version == remote.board_version
            &&& made.sync_enabled
            &&& made.board.notes.len() == 0
            &&& made.board.groups.len() == 0
            &&& remote.created_at != 0 ==> made.created_at == remote.created_at
            &&& remote.created_at == 0 ==> made.created_at == env.now
            &&& r.active_space_id == remote.id
            &&& r.desk.notes.len() == 0
            &&& 0 <= k < s.spaces.len() && !is_first_of(s.spaces, s.active_space_id, k)
                ==> r.spaces[k] == s.spaces[k]
            &&& is_first_of(s.spaces, s.active_space_id, k) ==> has_the_desk(
                r.spaces[k].board,
                s.desk,
            )
            &&& saves_the_shelf(step)
        }),
{
    let grown = ShelfView { spaces: s.spaces.push(welcomed_space(env, remote)), ..s };
    let n = s.spaces.len() as int;
    assert forall|j: int| 0 <= j < n && (#[trigger] grown.spaces[j]).id == remote.id implies grown.spaces[j].archived
        || grown.spaces[j].deleted_at is Some by {
        assert(grown.spaces[j] == s.spaces[j]);
    }
    switching_shows_the_space(grown, env, remote.id, n, n);
    let step = switched(grown, env, remote.id);
    if 0 <= k < n {
        switching_shows_the_space(grown, env, remote.id, n, k);
        if is_first_of(s.spaces, s.active_space_id, k) {
            assert forall|j: int| 0 <= j < k implies (#[trigger] grown.spaces[j]).id
                != s.active_space_id by {
                assert(grown.spaces[j] == s.spaces[j]);
            }
        } else if is_first_of(grown.spaces, s.active_space_id, k) {
            assert forall|j: int| 0 <= j < k implies (#[trigger] s.spaces[j]).id
                != s.active_space_id by {
                assert(grown.spaces[j] == s.spaces[j]);
            }
        }
    }
    let all = created_remotely(s, env, remote);
    assert(all.effects[step.effects.len() as int] is Save);
    assert(all.shelf.spaces[n] == grown.spaces[n]) by {
        assert(!is_first_of(grown.spaces, s.active_space_id, n));
    }
}

/// A space with another name, and nothing else of it changed but its time; the
/// other spaces, the space in front and the desk stay, and the server is told
/// the name where the spaces are an account's.
pub proof fn renaming_names_one_space(s: ShelfView, env: SurroundingsView, id: u64, k: int)
    requires
        s.rename_id == Some(id),
        0 <= k < s.spaces.len(),
    ensures
        ({
            let step = renamed(s, env);
            let r = step.shelf;
            let name = space_name(s.rename_value);
            &&& r.spaces.len() == s.spaces.len()
            &&& is_first_of(s.spaces, id, k) ==> r.spaces[k] == (SpaceView {
                name,
                updated_at: env.now,
                ..s.spaces[k]
            })
            &&& !is_first_of(s.spaces, id, k) ==> r.spaces[k] == s.spaces[k]
            &&& r.rename_id is None
            &&& r.active_space_id == s.active_space_id
            &&& r.desk == s.desk
            &&& r.tombstones == s.tombstones
            &&& saves_the_shelf(step)
            &&& !guest_principal_text(s.principal) ==> exists|i: int|
                0 <= i < step.effects.len() && (
                #[trigger] step.effects[i] matches SpaceEffectView::UpdateRemote(to, u) && to == id
                    && u.name == Some(name) && u.archived is None && u.deleted is None)
            &&& guest_principal_text(s.principal) ==> forall|i: int|
                0 <= i < step.effects.len() ==> !(#[trigger] step.effects[i] is UpdateRemote)
        }),
        renamed(ShelfView { rename_id: None, ..s }, env).shelf == (ShelfView {
            rename_id: None,
            ..s
        }),
{
    crate::workspace::spaces_are_found_by_id(s.spaces, id, k);
    let step = renamed(s, env);
    assert(step.effects[0] is Save);
    if !guest_principal_text(s.principal) {
        assert(step.effects[1] is UpdateRemote);
    }
}

/// A name is what was typed, without the blanks around it and cut to 48
/// characters; of blanks alone comes a name that says so.
pub proof fn names_are_what_was_typed(value: Seq<char>)
    ensures
        crate::text::blank(value) ==> space_name(value) == "untitled space"@,
        !crate::text::blank(value) && trimmed(value).len() <= 48 ==> space_name(value) == trimmed(
            value,
        ),
        !crate::text::blank(value) && trimmed(value).len() > 48 ==> space_name(value) == trimmed(
            value,
        ).take(48),
{
    crate::text::trimmed_empty_iff_blank(value);
}

/// Taking a space out of the archive or back from deletion changes that space
/// alone and no board; its tombstone goes and the others stay. The server is
/// told which of the two it was.
pub proof fn restoring_changes_one_space(
    s: ShelfView,
    env: SurroundingsView,
    id: u64,
    k: int,
    t: TombstoneView,
)
    requires
        0 <= k < s.spaces.len(),
    ensures
        ({
            let step = restored(s, env, id);
            let r = step.shelf;
            &&& r.spaces.len() == s.spaces.len()
            &&& is_first_of(s.spaces, id, k) ==> r.spaces[k] == (SpaceView {
                archived: false,
                deleted_at: None,
                updated_at: env.now,
                ..s.spaces[k]
            })
            &&& !is_first_of(s.spaces, id, k) ==> r.spaces[k] == s.spaces[k]
            &&& r.tombstones.contains(t) == (s.tombstones.contains(t) && !(t.kind
                == TombstoneKind::Space && t.id == id))
            &&& r.active_space_id == s.active_space_id
            &&& r.desk == s.desk
            &&& r.pending_delete is None
            &&& saves_the_shelf(step)
            &&& is_first_of(s.spaces, id, k) && !guest_principal_text(s.principal) ==> exists|
                i: int,
            |
                0 <= i < step.effects.len() && (
                #[trigger] step.effects[i] matches SpaceEffectView::UpdateRemote(to, u) && to == id
                    && u.name is None && u.archived == Some(false) && u.deleted == (
                if s.spaces[k].deleted_at is Some {
                    Some(false)
                } else {
                    None
                }))
        }),
{
    crate::workspace::spaces_are_found_by_id(s.spaces, id, k);
    let step = restored(s, env, id);
    assert(step.effects[0] is Save);
    if !guest_principal_text(s.principal) {
        assert(step.effects[1] is UpdateRemote);
    }
    let pred = |t: TombstoneView| t.kind != TombstoneKind::Space || t.id != id;
    let kept = s.tombstones.filter(pred);
    if kept.contains(t) {
        crate::lists::filter_member(s.tombstones, pred, kept.index_of(t));
    }
    if s.tombstones.contains(t) && pred(t) {
        crate::lists::filter_keeps(s.tombstones, pred, s.tombstones.index_of(t));
    }
}

proof fn moving_on_shows_an_open_space(s: ShelfView, env: SurroundingsView, k: int, o: int)
    requires
        0 <= k < s.spaces.len(),
        is_open(s.spaces[k]),
        forall|j: int|
            0 <= j < s.spaces.len() && is_open(#[trigger] s.spaces[j]) ==> s.spaces[j].id
                != s.active_space_id,
        0 <= o < s.spaces.len(),
    ensures
        ({
            let step = moved_on(s, env);
            let r = step.shelf;
            &&& r.spaces.len() == s.spaces.len()
            &&& r.tombstones == s.tombstones
            &&& saves_the_shelf(step)
            &&& exists|i: int|
                0 <= i <= k && is_open(#[trigger] s.spaces[i]) && s.spaces[i].id
                    == r.active_space_id && r.desk.notes == s.spaces[i].board.notes
                    && r.desk.groups == s.spaces[i].board.groups
            &&& !is_first_of(s.spaces, s.active_space_id, o) ==> r.spaces[o] == s.spaces[o]
            &&& is_first_of(s.spaces, s.active_space_id, o) ==> has_the_desk(
                r.spaces[o].board,
                s.desk,
            ) && r.spaces[o] == (SpaceView {
                board: r.spaces[o].board,
                updated_at: r.spaces[o].updated_at,
                ..s.spaces[o]
            })
        }),
{
    let pred = |x: SpaceView| is_open(x);
    first_space_is_least(s.spaces, pred);
    let next = first_space(s.spaces, pred);
    assert(pred(s.spaces[k]));
    assert(next <= k);
    assert(pred(s.spaces[next]));
    switching_reaches(s, env, next);
    desks_are_put_away(s, env, o);
    let step = switched(s, env, s.spaces[next].id);
    let all = moved_on(s, env);
    assert(all.effects[step.effects.len() as int] is Save);
    let i = choose|i: int|
        0 <= i <= next && (#[trigger] s.spaces[i]).id == s.spaces[next].id && is_open(s.spaces[i])
            && step.shelf.desk.notes == s.spaces[i].board.notes && step.shelf.desk.groups
            == s.spaces[i].board.groups;
    assert(is_open(s.spaces[i]));
}

/// Archiving closes the space in front and nothing else: its board has what was
/// on the desk, another open space comes to the front with its board on the
/// desk, and the server is told. Ids are taken to be distinct.
pub proof fn archiving_closes_the_front(s: ShelfView, env: SurroundingsView, f: int, k: int, o: int)
    requires
        forall|a: int, b: int|
            0 <= a < b < s.spaces.len() ==> (#[trigger] s.spaces[a]).id != (
            #[trigger] s.spaces[b]).id,
        0 <= f < s.spaces.len(),
        s.spaces[f].id == s.active_space_id,
        0 <= k < s.spaces.len(),
        k != f,
        is_open(s.spaces[k]),
        is_open(s.spaces[f]),
        0 <= o < s.spaces.len(),
    ensures
        ({
            let step = archived_current(s, env);
            let r = step.shelf;
            &&& r.spaces.len() == s.spaces.len()
            &&& r.spaces[f].archived
            &&& r.spaces[f].deleted_at is None
            &&& r.spaces[f].name == s.spaces[f].name
            &&& has_the_desk(r.spaces[f].board, s.desk)
            &&& o != f ==> r.spaces[o] == s.spaces[o]
            &&& exists|i: int|
                0 <= i < s.spaces.len() && i != f && is_open(#[trigger] s.spaces[i])
                    && s.spaces[i].id == r.active_space_id && r.desk.notes
                    == s.spaces[i].board.notes && r.desk.groups == s.spaces[i].board.groups
            &&& saves_the_shelf(step)
            &&& r.tombstones == s.tombstones
            &&& !guest_principal_text(s.principal) ==> (
            step.effects.last() matches SpaceEffectView::UpdateRemote(to, u) && to
                == s.active_space_id && u.archived == Some(true) && u.name is None && u.deleted
                is None)
        }),
{
    two_are_open(s.spaces, f, k);
    let away = put_away(s, env);
    desks_are_put_away(s, env, f);
    desks_are_put_away(s, env, o);
    assert(is_first_of(s.spaces, s.active_space_id, f));
    assert forall|j: int| 0 <= j < s.spaces.len() implies (#[trigger] away.shelf.spaces[j]).id
        == s.spaces[j].id && is_open(away.shelf.spaces[j]) == is_open(s.spaces[j]) && (j != f
        ==> away.shelf.spaces[j] == s.spaces[j]) by {
        desks_are_put_away(s, env, j);
    }
    assert(is_first_of(away.shelf.spaces, s.active_space_id, f));
    crate::workspace::spaces_are_found_by_id(away.shelf.spaces, s.active_space_id, f);
    let shut = ShelfView {
        spaces: with_space(
            away.shelf.spaces,
            s.active_space_id,
            |x: SpaceView| SpaceView { archived: true, updated_at: env.now, ..x },
        ),
        ..away.shelf
    };
    assert forall|j: int|
        0 <= j < shut.spaces.len() && is_open(#[trigger] shut.spaces[j]) implies shut.spaces[j].id
        != shut.active_space_id by {
        assert(j != f);
        assert(s.spaces[j].id != s.spaces[f].id);
    }
    assert(shut.spaces[k] == s.spaces[k]);
    moving_on_shows_an_open_space(shut, env, k, f);
    moving_on_shows_an_open_space(shut, env, k, o);
    assert(is_first_of(shut.spaces, s.active_space_id, f));
    let moved = moved_on(shut, env);
    let step = archived_current(s, env);
    let i = choose|i: int|
        0 <= i <= k && is_open(#[trigger] shut.spaces[i]) && shut.spaces[i].id
            == moved.shelf.active_space_id && moved.shelf.desk.notes == shut.spaces[i].board.notes
            && moved.shelf.desk.groups == shut.spaces[i].board.groups;
    assert(i != f);
    assert(is_open(s.spaces[i]));
    carried_desk(moved.shelf.spaces[f].board, shut.desk, s.desk);
    late_saves(away.effects, moved, told_server(
        s.principal,
        s.active_space_id,
        SpaceMetadataOperation::Archive,
        None,
    ), step);
}

proof fn carried_desk(b: BoardView, c: DeskView, d: DeskView)
    requires
        has_the_desk(b, c),
        c.notes == d.notes,
        c.groups == d.groups,
    ensures
        has_the_desk(b, d),
{
}

proof fn late_saves(
    before: Seq<SpaceEffectView>,
    middle: Step,
    told: Seq<SpaceEffectView>,
    all: Step,
)
    requires
        saves_the_shelf(middle),
        all.effects == before + middle.effects + told,
        all.shelf.spaces == middle.shelf.spaces,
        all.shelf.tombstones == middle.shelf.tombstones,
        all.shelf.active_space_id == middle.shelf.active_space_id,
        forall|i: int| 0 <= i < told.len() ==> !(#[trigger] told[i] is Save),
    ensures
        saves_the_shelf(all),
{
    let i = choose|i: int|
        0 <= i < middle.effects.len() && (
        #[trigger] middle.effects[i] matches SpaceEffectView::Save(w) && w.spaces
            == middle.shelf.spaces && w.tombstones == middle.shelf.tombstones && w.active_space_id
            == middle.shelf.active_space_id) && (forall|j: int|
            i < j < middle.effects.len() ==> !(#[trigger] middle.effects[j] is Save));
    let n = before.len() + i;
    assert(all.effects[n] == middle.effects[i]);
    assert forall|j: int| n < j < all.effects.len() implies !(#[trigger] all.effects[j] is Save) by {
        if j < before.len() + middle.effects.len() {
            assert(all.effects[j] == middle.effects[j - before.len()]);
        } else {
            assert(all.effects[j] == told[j - before.len() - middle.effects.len()]);
        }
    }
}

proof fn two_are_open(spaces: Seq<SpaceView>, f: int, k: int)
    requires
        0 <= f < spaces.len(),
        0 <= k < spaces.len(),
        f != k,
        is_open(spaces[f]),
        is_open(spaces[k]),
    ensures
        open_count(spaces) > 1,
    decreases spaces.len(),
{
    let pred = |s: SpaceView| is_open(s);
    reveal(Seq::filter);
    let rest = spaces.drop_last();
    let last = spaces.len() - 1;
    if f == last {
        crate::lists::filter_keeps(rest, pred, k);
        assert(rest.filter(pred).contains(rest[k]));
    } else if k == last {
        crate::lists::filter_keeps(rest, pred, f);
        assert(rest.filter(pred).contains(rest[f]));
    } else {
        two_are_open(rest, f, k);
    }
}

/// Deleting a space that is not in front marks it as deleted now and leaves a
/// tombstone under its identity; every other space, the space in front and the
/// desk stay, and the server is told.
pub proof fn deleting_marks_one_space(
    s: ShelfView,
    env: SurroundingsView,
    legacy: Seq<char>,
    id: u64,
    k: int,
    o: int,
)
    requires
        s.pending_delete == Some(id),
        id != s.active_space_id,
        is_first_of(s.spaces, id, k),
        0 <= o < s.spaces.len(),
    ensures
        ({
            let step = deleted(s, env, legacy);
            let r = step.shelf;
            &&& r.spaces.len() == s.spaces.len()
            &&& r.spaces[k] == (SpaceView {
                archived: true,
                deleted_at: Some(env.now),
                updated_at: env.now,
                ..s.spaces[k]
            })
            &&& o != k ==> r.spaces[o] == s.spaces[o]
            &&& r.active_space_id == s.active_space_id
            &&& r.desk == s.desk
            &&& r.pending_delete is None
            &&& has_tombstone(r.tombstones, TombstoneKind::Space, id)
            &&& !has_tombstone(s.tombstones, TombstoneKind::Space, id) ==> r.tombstones
                == s.tombstones.push(
                TombstoneView {
                    kind: TombstoneKind::Space,
                    id,
                    stable_id: s.spaces[k].stable_id,
                    deleted_at: env.now,
                },
            )
            &&& has_tombstone(s.tombstones, TombstoneKind::Space, id) ==> r.tombstones
                == s.tombstones
            &&& saves_the_shelf(step)
            &&& !guest_principal_text(s.principal) ==> (
            step.effects.last() matches SpaceEffectView::UpdateRemote(to, u) && to == id
                && u.deleted == Some(true) && u.archived is None && u.name is None)
        }),
        deleted(ShelfView { pending_delete: None, ..s }, env, legacy).shelf == (ShelfView {
            pending_delete: None,
            ..s
        }),
{
    crate::workspace::spaces_are_found_by_id(s.spaces, id, k);
    let step = deleted(s, env, legacy);
    assert(step.effects[0] is Save);
    let gone = without_space(s, env, id, legacy);
    if !has_tombstone(s.tombstones, TombstoneKind::Space, id) {
        assert(gone.tombstones[s.tombstones.len() as int].id == id);
    }
    late_saves(
        Seq::empty(),
        Step { shelf: gone, effects: seq![saved(gone, env, s.active_space_id)] },
        told_server(s.principal, id, SpaceMetadataOperation::Delete, None),
        step,
    );
}

/// The only open space can neither be archived nor, while it is in front, be
/// deleted: nothing changes but the message.
pub proof fn the_last_open_space_stays(s: ShelfView, env: SurroundingsView, legacy: Seq<char>, f: int)
    requires
        forall|j: int|
            0 <= j < s.spaces.len() && j != f ==> (#[trigger] s.spaces[j]).archived
                || s.spaces[j].deleted_at is Some,
        s.pending_delete == Some(s.active_space_id),
    ensures
        archived_current(s, env).shelf == (ShelfView {
            message: Some("keep one space open"@),
            menu_open: false,
            ..s
        }),
        archived_current(s, env).effects.len() == 0,
        deleted(s, env, legacy).shelf == (ShelfView {
            message: Some("keep one space open"@),
            pending_delete: None,
            ..s
        }),
        deleted(s, env, legacy).effects.len() == 0,
{
    if open_count(s.spaces) > 1 {
        open_besides(s.spaces, f);
        let i = choose|i: int|
            0 <= i < s.spaces.len() && i != f && is_open(#[trigger] s.spaces[i]);
        assert(s.spaces[i].archived || s.spaces[i].deleted_at is Some);
    }
}

/// Deleting the space in front, where another one is open, marks it as deleted,
/// with what was on the desk on its board, leaves a tombstone, and brings an
/// open space to the front. Ids are taken to be distinct.
pub proof fn deleting_the_front_moves_on(
    s: ShelfView,
    env: SurroundingsView,
    legacy: Seq<char>,
    f: int,
    k: int,
    o: int,
)
    requires
        forall|a: int, b: int|
            0 <= a < b < s.spaces.len() ==> (#[trigger] s.spaces[a]).id != (
            #[trigger] s.spaces[b]).id,
        s.pending_delete == Some(s.active_space_id),
        0 <= f < s.spaces.len(),
        s.spaces[f].id == s.active_space_id,
        0 <= k < s.spaces.len(),
        k != f,
        is_open(s.spaces[k]),
        is_open(s.spaces[f]),
        0 <= o < s.spaces.len(),
    ensures
        ({
            let step = deleted(s, env, legacy);
            let r = step.shelf;
            &&& r.spaces.len() == s.spaces.len()
            &&& r.spaces[f].archived
            &&& r.spaces[f].deleted_at == Some(env.now)
            &&& has_the_desk(r.spaces[f].board, s.desk)
            &&& o != f ==> r.spaces[o] == s.spaces[o]
            &&& has_tombstone(r.tombstones, TombstoneKind::Space, s.active_space_id)
            &&& r.pending_delete is None
            &&& !r.menu_open
            &&& exists|i: int|
                0 <= i < s.spaces.len() && i != f && is_open(#[trigger] s.spaces[i])
                    && s.spaces[i].id == r.active_space_id && r.desk.notes
                    == s.spaces[i].board.notes && r.desk.groups == s.spaces[i].board.groups
            &&& saves_the_shelf(step)
        }),
{
    let id = s.active_space_id;
    two_are_open(s.spaces, f, k);
    let away = put_away(s, env);
    desks_are_put_away(s, env, f);
    desks_are_put_away(s, env, o);
    assert(is_first_of(s.spaces, id, f));
    assert forall|j: int| 0 <= j < s.spaces.len() implies (#[trigger] away.shelf.spaces[j]).id
        == s.spaces[j].id && is_open(away.shelf.spaces[j]) == is_open(s.spaces[j]) && (j != f
        ==> away.shelf.spaces[j] == s.spaces[j]) by {
        desks_are_put_away(s, env, j);
    }
    assert(is_first_of(away.shelf.spaces, id, f));
    crate::workspace::spaces_are_found_by_id(away.shelf.spaces, id, f);
    let gone = without_space(away.shelf, env, id, legacy);
    if !has_tombstone(s.tombstones, TombstoneKind::Space, id) {
        assert(gone.tombstones[s.tombstones.len() as int].id == id);
    }
    assert(has_tombstone(gone.tombstones, TombstoneKind::Space, id));
    assert forall|j: int|
        0 <= j < gone.spaces.len() && is_open(#[trigger] gone.spaces[j]) implies gone.spaces[j].id
        != gone.active_space_id by {
        assert(j != f);
        assert(s.spaces[j].id != s.spaces[f].id);
    }
    assert(gone.spaces[k] == s.spaces[k]);
    moving_on_shows_an_open_space(gone, env, k, f);
    moving_on_shows_an_open_space(gone, env, k, o);
    assert(is_first_of(gone.spaces, id, f));
    let moved = moved_on(gone, env);
    let step = deleted(s, env, legacy);
    let i = choose|i: int|
        0 <= i <= k && is_open(#[trigger] gone.spaces[i]) && gone.spaces[i].id
            == moved.shelf.active_space_id && moved.shelf.desk.notes == gone.spaces[i].board.notes
            && moved.shelf.desk.groups == gone.spaces[i].board.groups;
    assert(i != f);
    assert(is_open(s.spaces[i]));
    carried_desk(moved.shelf.spaces[f].board, gone.desk, s.desk);
    late_saves(
        away.effects,
        moved,
        told_server(s.principal, id, SpaceMetadataOperation::Delete, None),
        step,
    );
}

/// What the server is asked to change for each operation: nothing but what the
/// operation is about.
pub proof fn requests_change_what_they_name(name: Option<Seq<char>>)
    ensures
        update_of(SpaceMetadataOperation::Rename, name) == (SpaceUpdateView {
            name,
            archived: None,
            deleted: None,
        }),
        update_of(SpaceMetadataOperation::Archive, name) == (SpaceUpdateView {
            name,
            archived: Some(true),
            deleted: None,
        }),
        update_of(SpaceMetadataOperation::Unarchive, name) == (SpaceUpdateView {
            name,
            archived: Some(false),
            deleted: None,
        }),
        update_of(SpaceMetadataOperation::Delete, name) == (SpaceUpdateView {
            name,
            archived: None,
            deleted: Some(true),
        }),
        update_of(SpaceMetadataOperation::Restore, name) == (SpaceUpdateView {
            name,
            archived: Some(false),
            deleted: Some(false),
        }),
{
}

/// A space of the server stands on the device as the server describes it, with
/// the board that came with it, and syncs.
pub proof fn spaces_of_the_server_are_as_described(remote: RemoteSpaceView, board: BoardView)
    ensures
        ({
            let s = account_space(remote, board);
            &&& s.id == remote.id
            &&& s.stable_id == remote.stable_id
            &&& s.name == remote.name
            &&& s.archived == remote.archived
            &&& s.created_at == remote.created_at
            &&& s.updated_at == remote.updated_at
            &&& s.deleted_at == remote.deleted_at
            &&& s.metadata_version == remote.board_version
            &&& s.sync_enabled
            &&& s.sync_override is None
            &&& s.board == board
        }),
{
}

/// A change of one space changes the first space of its id, by exactly the
/// change, and no other.
pub proof fn changes_touch_one_space(
    spaces: Seq<SpaceView>,
    id: u64,
    change: spec_fn(SpaceView) -> SpaceView,
    k: int,
)
    requires
        0 <= k < spaces.len(),
    ensures
        with_space(spaces, id, change).len() == spaces.len(),
        is_first_of(spaces, id, k) ==> with_space(spaces, id, change)[k] == change(spaces[k]),
        !is_first_of(spaces, id, k) ==> with_space(spaces, id, change)[k] == spaces[k],
{
    crate::workspace::spaces_are_found_by_id(spaces, id, k);
}

/// What an operation is not about stays as it is: whose the spaces are, what is
/// being renamed or deleted, and what is said. A space that comes to the front
/// clears the message and closes the menu.
pub proof fn the_rest_of_the_shelf_stays(
    s: ShelfView,
    env: SurroundingsView,
    id: u64,
    entitled: bool,
    stable_id: Seq<char>,
    remote: RemoteSpaceView,
)
    ensures
        ({
            let r = put_away(s, env).shelf;
            &&& r == (ShelfView { desk: r.desk, spaces: r.spaces, ..s })
            &&& r.desk == all_committed(s.desk)
        }),
        ({
            let r = switched(s, env, id).shelf;
            &&& keeps_the_plans(s, r)
            &&& r.tombstones == s.tombstones
            &&& s.active_space_id != id && r.active_space_id == id ==> r.message is None
                && !r.menu_open && r.desk.group_editing is None && r.desk.edit_snapshot is None
                && r.desk.group_edit_snapshot is None && r.desk.schema_version
                == s.desk.schema_version
        }),
        ({
            let r = created(s, env, entitled, id, stable_id).shelf;
            &&& keeps_the_plans(s, r)
            &&& r.tombstones == s.tombstones
            &&& !guest_principal_text(s.principal) && !entitled ==> !r.menu_open
        }),
        ({
            let r = created_remotely(s, env, remote).shelf;
            &&& keeps_the_plans(s, r)
            &&& r.tombstones == s.tombstones
        }),
        ({
            let r = archived_current(s, env).shelf;
            &&& keeps_the_plans(s, r)
            &&& r.tombstones == s.tombstones
            &&& !r.menu_open
        }),
        ({
            let r = restored(s, env, id).shelf;
            r == (ShelfView {
                tombstones: r.tombstones,
                spaces: r.spaces,
                pending_delete: None,
                ..s
            })
        }),
        ({
            let r = renamed(s, env).shelf;
            r == (ShelfView { spaces: r.spaces, rename_id: None, ..s })
        }),
        ({
            let r = deleted(s, env, stable_id).shelf;
            &&& r.pending_delete is None
            &&& r.principal == s.principal
            &&& r.rename_id == s.rename_id
            &&& r.rename_value == s.rename_value
            &&& s.pending_delete matches Some(gone) ==> (gone != s.active_space_id ==> r == (
            ShelfView {
                tombstones: r.tombstones,
                spaces: r.spaces,
                pending_delete: None,
                menu_open: false,
                ..s
            }))
        }),
{
}

/// Whether one shelf has the same principal as another one and plans the same.
pub open spec fn keeps_the_plans(s: ShelfView, r: ShelfView) -> bool {
    &&& r.principal == s.principal
    &&& r.pending_delete == s.pending_delete
    &&& r.rename_id == s.rename_id
    &&& r.rename_value == s.rename_value
}

/// A guest's spaces are never sent: no operation of a guest tells the server
/// anything.
pub proof fn guests_tell_the_server_nothing(
    s: ShelfView,
    env: SurroundingsView,
    id: u64,
    entitled: bool,
    stable_id: Seq<char>,
    i: int,
)
    requires
        guest_principal_text(s.principal),
    ensures
        ({
            let effects = archived_current(s, env).effects;
            0 <= i < effects.len() ==> !(effects[i] is UpdateRemote || effects[i] is CreateRemote)
        }),
        ({
            let effects = restored(s, env, id).effects;
            0 <= i < effects.len() ==> !(effects[i] is UpdateRemote || effects[i] is CreateRemote)
        }),
        ({
            let effects = deleted(s, env, stable_id).effects;
            0 <= i < effects.len() ==> !(effects[i] is UpdateRemote || effects[i] is CreateRemote)
        }),
        ({
            let effects = created(s, env, entitled, id, stable_id).effects;
            0 <= i < effects.len() ==> !(effects[i] is UpdateRemote || effects[i] is CreateRemote)
        }),
{
}

/// Every open space counts once among the open ones, and no other.
pub proof fn open_spaces_are_counted(spaces: Seq<SpaceView>, s: SpaceView)
    ensures
        open_count(Seq::empty()) == 0,
        open_count(spaces.push(s)) == open_count(spaces) + (if !s.archived && s.deleted_at is None {
            1int
        } else {
            0
        }),
{
    reveal(Seq::filter);
    assert(spaces.push(s).drop_last() =~= spaces);
}

/// A space is found open where the first open space of its id is.
pub proof fn open_spaces_are_found(spaces: Seq<SpaceView>, id: u64, k: int)
    ensures
        0 <= k < spaces.len() && spaces[k].id == id && !spaces[k].archived && spaces[k].deleted_at
            is None && (forall|j: int|
            0 <= j < k && (#[trigger] spaces[j]).id == id ==> spaces[j].archived
                || spaces[j].deleted_at is Some) ==> open_position(spaces, id) == k,
        (forall|j: int|
            0 <= j < spaces.len() && (#[trigger] spaces[j]).id == id ==> spaces[j].archived
                || spaces[j].deleted_at is Some) ==> open_position(spaces, id) == spaces.len(),
{
    let pred = |x: SpaceView| x.id == id && is_open(x);
    first_space_is_least(spaces, pred);
    let p = first_space(spaces, pred);
    if p < spaces.len() {
        assert(pred(spaces[p]));
    }
    if 0 <= k < spaces.len() && spaces[k].id == id && is_open(spaces[k]) && (forall|j: int|
        0 <= j < k && (#[trigger] spaces[j]).id == id ==> spaces[j].archived
            || spaces[j].deleted_at is Some) {
        assert forall|j: int| 0 <= j < k implies !pred(#[trigger] spaces[j]) by {}
        first_space_at(spaces, pred, k);
    }
}

} // verus!
