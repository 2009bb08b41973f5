//! From the desk to storage: what happens after every change, and how a backup
//! comes back.
use vstd::prelude::*;
use vstd::string::*;

use crate::arrivals::board_of;
use crate::arrivals::desk_showing;
use crate::arrivals::space_board;
use crate::desk::committed;
use crate::desk::recorded;
use crate::desk::snapshot_of;
use crate::desk::DeskView;
use crate::identity::guest_principal_text;
use crate::identity::is_guest_principal;
use crate::lists::opt_view;
use crate::model::board_eq;
use crate::model::clone_spaces;
use crate::model::clone_tombstones;
use crate::model::BoardData;
use crate::model::BoardView;
use crate::model::NoteView;
use crate::model::SpaceView;
use crate::model::WorkspaceData;
use crate::model::WorkspaceView;
use crate::opening::desk_cleared;
use crate::persist::persist_space_board;
use crate::persist::persisted_spaces;
use crate::persist::should_queue_crdt_projection;
use crate::persist::workspace_snapshot;
use crate::spaces::has_the_desk;
use crate::spaces::Shelf;
use crate::spaces::ShelfView;
use crate::status::StorageStatus;
use crate::storage::generation_after;
use crate::storage::is_blocked;
use crate::storage::StorageGuard;
use crate::tabs::shelf_workspace;
use crate::workspace::is_first_of;
use crate::workspace::normalize_workspace;
use crate::workspace::normalized_workspace;
use crate::workspace::Surroundings;
use crate::workspace::SurroundingsView;

verus! {

/// What was last written of the desk.
#[derive(Debug, PartialEq)]
pub struct Projection {
    /// The number of the last board that came from elsewhere.
    pub remote: u64,
    /// The space and the board that were last written.
    pub space_id: Option<u64>,
    pub board: Option<BoardData>,
}

/// What was last written of the desk, as a view.
pub struct ProjectionView {
    pub remote: u64,
    pub space_id: Option<u64>,
    pub board: Option<BoardView>,
}

impl View for Projection {
    type V = ProjectionView;

    open spec fn view(&self) -> ProjectionView {
        ProjectionView {
            remote: self.remote,
            space_id: self.space_id,
            board: opt_view(self.board),
        }
    }
}

/// What a user is doing on the board.
#[derive(Clone, Copy, Debug, PartialEq, Eq, Structural)]
pub struct Interaction {
    pub dragging_note: bool,
    pub dragging_group: bool,
    pub resizing_group: bool,
    pub editing_note: bool,
    pub editing_group: bool,
}

/// Whether a user is in the middle of something.
pub open spec fn is_busy(i: Interaction) -> bool {
    i.dragging_note || i.dragging_group || i.resizing_group || i.editing_note || i.editing_group
}

/// What has to be written after a change.
#[derive(Debug, PartialEq)]
pub struct Writes {
    /// The workspace for the device, and the number of the write.
    pub workspace: Option<WorkspaceData>,
    pub generation: u64,
    /// The board for the server.
    pub board: Option<BoardData>,
    /// What is shown.
    pub status: StorageStatus,
}

/// What has to be written after a change, as a view.
pub struct WritesView {
    pub workspace: Option<WorkspaceView>,
    pub generation: u64,
    pub board: Option<BoardView>,
    pub status: StorageStatus,
}

impl View for Writes {
    type V = WritesView;

    open spec fn view(&self) -> WritesView {
        WritesView {
            workspace: opt_view(self.workspace),
            generation: self.generation,
            board: opt_view(self.board),
            status: self.status,
        }
    }
}

/// The shelf with what is on the desk written into its space.
pub open spec fn desk_written(s: ShelfView, now: u64) -> ShelfView {
    ShelfView {
        spaces: persisted_spaces(s.spaces, s.active_space_id, snapshot_of(s.desk), now),
        ..s
    }
}

/// Whether the board on the desk has to leave the device as a change: nothing
/// is in the middle of happening, there is something to compare it with, and
/// it is not just what came from elsewhere.
pub open spec fn is_change(
    p: ProjectionView,
    s: ShelfView,
    remote: u64,
    busy: bool,
    canonical: Option<BoardView>,
) -> bool {
    &&& !busy
    &&& (p.remote == remote || (canonical matches Some(board) ==> !board_eq(
        board,
        snapshot_of(s.desk),
    )))
    &&& (canonical is Some || (p.space_id == Some(s.active_space_id) && p.board is Some))
    &&& board_of(s.spaces, s.active_space_id) is Some
}

/// What has to be written after a change: a guest's workspace on the device, an
/// account's board on the server, nothing where nothing may be written.
pub open spec fn writes_for(
    p: ProjectionView,
    s: ShelfView,
    env: SurroundingsView,
    g: StorageGuard,
    remote: u64,
    busy: bool,
    canonical: Option<BoardView>,
) -> WritesView {
    let after = desk_written(s, env.now);
    let change = is_change(p, s, remote, busy, canonical);
    let guest = guest_principal_text(s.principal);
    if is_blocked(g) {
        WritesView { workspace: None, generation: 0, board: None, status: StorageStatus::Error }
    } else {
        WritesView {
            workspace: if guest {
                Some(normalized_workspace(env, shelf_workspace(after, env)))
            } else {
                None
            },
            generation: if guest {
                generation_after(g.write_generation)
            } else {
                0
            },
            board: if !guest && change {
                board_of(after.spaces, s.active_space_id)
            } else {
                None
            },
            status: if change {
                StorageStatus::Saving
            } else {
                StorageStatus::Saved
            },
        }
    }
}

impl Interaction {
    /// Whether a user is in the middle of something.
    pub fn busy(&self) -> (r: bool)
        ensures
            r == is_busy(*self),
    {
        self.dragging_note || self.dragging_group || self.resizing_group || self.editing_note
            || self.editing_group
    }
}

proof fn writing_keeps_the_space(s: ShelfView, now: u64)
    ensures
        board_of(s.spaces, s.active_space_id) is Some <==> board_of(
            desk_written(s, now).spaces,
            s.active_space_id,
        ) is Some,
{
    let id = s.active_space_id;
    let pred = |x: crate::model::SpaceView| x.id == id;
    crate::workspace::first_space_is_least(s.spaces, pred);
    let i = crate::workspace::first_space(s.spaces, pred);
    let after = desk_written(s, now).spaces;
    if i < s.spaces.len() {
        assert(pred(s.spaces[i]));
        assert forall|j: int| 0 <= j < i implies !pred(#[trigger] after[j]) by {
            assert(after[j] == s.spaces[j]);
            assert(!pred(s.spaces[j]));
        }
        crate::workspace::first_space_at(after, pred, i);
    }
}

impl Projection {
    /// Nothing was written yet.
    pub fn new(remote: u64) -> (r: Self)
        ensures
            r@ == (ProjectionView { remote, space_id: None, board: None }),
    {
        Projection { remote, space_id: None, board: None }
    }

    /// Writes what is on the desk into its space, and says what has to be
    /// stored. `canonical` is the board of the shared document, where there is
    /// one, and `remote` the number of the last board that came from
    /// elsewhere.
    pub fn write_desk(
        &mut self,
        shelf: &mut Shelf,
        env: &Surroundings,
        guard: &mut StorageGuard,
        remote: u64,
        interaction: &Interaction,
        canonical: Option<&BoardData>,
    ) -> (r: Writes)
        ensures
            final(shelf)@ == desk_written(old(shelf)@, env@.now),
            final(self)@ == (ProjectionView {
                remote,
                space_id: Some(old(shelf)@.active_space_id),
                board: Some(snapshot_of(old(shelf)@.desk)),
            }),
            *final(guard) == (if is_blocked(*old(guard)) || !guest_principal_text(
                old(shelf)@.principal,
            ) {
                *old(guard)
            } else {
                StorageGuard {
                    write_generation: generation_after(old(guard).write_generation),
                    error_generation: 0,
                    ..*old(guard)
                }
            }),
            r@ == writes_for(
                old(self)@,
                old(shelf)@,
                env@,
                *old(guard),
                remote,
                is_busy(*interaction),
                match canonical {
                    Some(board) => Some(board@),
                    None => None,
                },
            ),
    {
        let ghost s = shelf@;
        let ghost p = self@;
        let board = shelf.desk.board_snapshot();
        let news = self.remote != remote;
        let queue = !interaction.busy() && should_queue_crdt_projection(news, canonical, &board);
        let id: u64 = shelf.active_space_id;
        let known = match self.space_id {
            Some(last) => last == id && self.board.is_some(),
            None => false,
        };
        shelf.spaces = persist_space_board(&shelf.spaces, id, &board, env.now);
        self.remote = remote;
        self.space_id = Some(id);
        self.board = Some(board);
        let current = space_board(&shelf.spaces, id);
        proof {
            writing_keeps_the_space(s, env@.now);
        }
        let change = queue && (canonical.is_some() || known) && current.is_some();
        assert(change == is_change(
            p,
            s,
            remote,
            is_busy(*interaction),
            match canonical {
                Some(board) => Some(board@),
                None => None,
            },
        ));
        if guard.storage_writes_blocked() {
            return Writes {
                workspace: None,
                generation: 0,
                board: None,
                status: StorageStatus::Error,
            };
        }
        let status = if change {
            StorageStatus::Saving
        } else {
            StorageStatus::Saved
        };
        if is_guest_principal(&shelf.principal) {
            let workspace = workspace_snapshot(
                env,
                &shelf.spaces,
                shelf.active_space_id,
                &shelf.tombstones,
            );
            let generation: u64 = guard.begin_storage_write();
            Writes {
                workspace: Some(normalize_workspace(env, workspace)),
                generation,
                board: None,
                status,
            }
        } else {
            Writes {
                workspace: None,
                generation: 0,
                board: if change {
                    current
                } else {
                    None
                },
                status,
            }
        }
    }
}

/// Nothing is written where writing is blocked, and while a user is in the
/// middle of something no board is sent.
pub proof fn blocked_and_busy_desks_send_nothing(
    p: ProjectionView,
    s: ShelfView,
    env: SurroundingsView,
    g: StorageGuard,
    remote: u64,
    busy: bool,
    canonical: Option<BoardView>,
)
    ensures
        is_blocked(g) ==> writes_for(p, s, env, g, remote, busy, canonical).workspace is None,
        is_blocked(g) || busy ==> writes_for(p, s, env, g, remote, busy, canonical).board is None,
        guest_principal_text(s.principal) ==> writes_for(
            p,
            s,
            env,
            g,
            remote,
            busy,
            canonical,
        ).board is None,
{
}

/// What came of a backup.
#[derive(Debug, PartialEq)]
pub enum Restored {
    /// The user did not want it.
    Cancelled,
    /// The workspace in it has no active space.
    Empty,
    /// It is on the shelf; write this workspace under this number.
    Workspace(WorkspaceData, u64),
    /// Its board is on the desk.
    Board,
    /// It is none.
    Unknown,
}

/// What came of a backup, as a view.
pub enum RestoredView {
    Cancelled,
    Empty,
    Workspace(WorkspaceView, u64),
    Board,
    Unknown,
}

impl View for Restored {
    type V = RestoredView;

    open spec fn view(&self) -> RestoredView {
        match self {
            Restored::Cancelled => RestoredView::Cancelled,
            Restored::Empty => RestoredView::Empty,
            Restored::Workspace(w, n) => RestoredView::Workspace(w@, *n),
            Restored::Board => RestoredView::Board,
            Restored::Unknown => RestoredView::Unknown,
        }
    }
}

/// The workspace of a backup as this device takes it over.
pub open spec fn imported(env: SurroundingsView, w: WorkspaceView) -> WorkspaceView {
    normalized_workspace(env, WorkspaceView { device_id: env.device_id, ..w })
}

/// The shelf with the workspace of a backup on it.
pub open spec fn workspace_restored(
    s: ShelfView,
    env: SurroundingsView,
    w: WorkspaceView,
) -> ShelfView {
    let taken = imported(env, w);
    ShelfView {
        spaces: taken.spaces,
        active_space_id: taken.active_space_id,
        tombstones: taken.tombstones,
        desk: desk_cleared(
            desk_showing(s.desk, board_of(taken.spaces, taken.active_space_id)->0),
        ),
        message: Some("workspace restored"@),
        ..s
    }
}

/// The shelf with the board of a backup on the desk. It can be undone.
pub open spec fn board_restored(s: ShelfView, board: BoardView) -> ShelfView {
    let desk = recorded(desk_showing(s.desk, board), snapshot_of(s.desk));
    ShelfView {
        desk: DeskView { edit_snapshot: None, editing: None, ..desk },
        message: Some("board restored into current space"@),
        ..s
    }
}

/// The shelf after a backup was read: a workspace replaces everything once the
/// user agrees, a board goes into the space in front.
pub open spec fn restored(
    s: ShelfView,
    env: SurroundingsView,
    workspace: Option<WorkspaceView>,
    board: Option<BoardView>,
    confirmed: bool,
) -> ShelfView {
    match workspace {
        Some(w) => if !confirmed {
            ShelfView { message: Some("restore cancelled"@), ..s }
        } else if board_of(imported(env, w).spaces, imported(env, w).active_space_id) is None {
            ShelfView { message: Some("that workspace has no active space"@), ..s }
        } else {
            workspace_restored(s, env, w)
        },
        None => match board {
            Some(b) => board_restored(s, b),
            None => ShelfView { message: Some("that file is not a Task Space backup"@), ..s },
        },
    }
}

/// What came of a backup.
pub open spec fn outcome(
    env: SurroundingsView,
    g: StorageGuard,
    workspace: Option<WorkspaceView>,
    board: Option<BoardView>,
    confirmed: bool,
) -> RestoredView {
    match workspace {
        Some(w) => if !confirmed {
            RestoredView::Cancelled
        } else if board_of(imported(env, w).spaces, imported(env, w).active_space_id) is None {
            RestoredView::Empty
        } else {
            RestoredView::Workspace(
                normalized_workspace(
                    env,
                    WorkspaceView {
                        schema_version: env.schema_version,
                        device_id: imported(env, w).device_id,
                        tombstones: imported(env, w).tombstones,
                        spaces: imported(env, w).spaces,
                        active_space_id: imported(env, w).active_space_id,
                    },
                ),
                generation_after(g.write_generation),
            )
        },
        None => match board {
            Some(_) => RestoredView::Board,
            None => RestoredView::Unknown,
        },
    }
}

/// The guard after a backup was read: one that was taken over ends the need
/// for repair.
pub open spec fn guard_after_restore(g: StorageGuard, r: RestoredView) -> StorageGuard {
    match r {
        RestoredView::Workspace(_, n) => StorageGuard {
            schema_blocked: false,
            repair_required: false,
            write_generation: n,
            error_generation: 0,
        },
        RestoredView::Board => StorageGuard {
            schema_blocked: false,
            repair_required: false,
            ..g
        },
        _ => g,
    }
}

impl Shelf {
    /// A backup was chosen: what is being edited is finished first.
    pub fn begin_restore(&mut self)
        ensures
            final(self)@ == (ShelfView { desk: committed(old(self)@.desk), ..old(self)@ }),
    {
        self.desk.commit_pending_edit();
    }

    /// Takes over a backup, which was read as a workspace or else as a board.
    pub fn restore_backup(
        &mut self,
        env: &Surroundings,
        guard: &mut StorageGuard,
        workspace: Option<WorkspaceData>,
        board: Option<BoardData>,
        confirmed: bool,
    ) -> (r: Restored)
        ensures
            final(self)@ == restored(
                old(self)@,
                env@,
                opt_view(workspace),
                opt_view(board),
                confirmed,
            ),
            r@ == outcome(
                env@,
                *old(guard),
                opt_view(workspace),
                opt_view(board),
                confirmed,
            ),
            *final(guard) == guard_after_restore(*old(guard), r@),
    {
        let ghost s = self@;
        match workspace {
            Some(given) => {
                if !confirmed {
                    self.message = Some("restore cancelled".to_owned());
                    return Restored::Cancelled;
                }
                let ghost w = given@;
                let mut mine = given;
                mine.device_id = env.device_id.clone();
                assert(mine@ == (WorkspaceView { device_id: env@.device_id, ..w }));
                let taken = normalize_workspace(env, mine);
                let shown = match space_board(&taken.spaces, taken.active_space_id) {
                    Some(board) => board,
                    None => {
                        self.message = Some("that workspace has no active space".to_owned());
                        return Restored::Empty;
                    },
                };
                guard.clear();
                self.spaces = clone_spaces(&taken.spaces);
                self.active_space_id = taken.active_space_id;
                self.tombstones = clone_tombstones(&taken.tombstones);
                let ghost showing = shown@;
                self.desk.notes = shown.notes;
                self.desk.groups = shown.groups;
                assert(self@.desk == desk_showing(s.desk, showing));
                self.clear_desk();
                self.message = Some("workspace restored".to_owned());
                let exact = WorkspaceData {
                    schema_version: env.schema_version,
                    device_id: taken.device_id,
                    tombstones: taken.tombstones,
                    spaces: taken.spaces,
                    active_space_id: taken.active_space_id,
                };
                let generation: u64 = guard.begin_storage_write();
                Restored::Workspace(normalize_workspace(env, exact), generation)
            },
            None => match board {
                Some(board) => {
                    guard.clear();
                    let before = self.desk.board_snapshot();
                    let ghost showing = board@;
                    self.desk.notes = board.notes;
                    self.desk.groups = board.groups;
                    assert(self@.desk == desk_showing(s.desk, showing));
                    self.desk.record_snapshot(before);
                    self.desk.edit_snapshot = None;
                    self.desk.editing = None;
                    self.message = Some("board restored into current space".to_owned());
                    Restored::Board
                },
                None => {
                    self.message = Some("that file is not a Task Space backup".to_owned());
                    Restored::Unknown
                },
            },
        }
    }
}

/// A backup that was not taken over changes nothing but the message.
pub proof fn refused_backups_change_nothing(
    s: ShelfView,
    env: SurroundingsView,
    g: StorageGuard,
    workspace: Option<WorkspaceView>,
    board: Option<BoardView>,
    confirmed: bool,
)
    ensures
        ({
            let r = outcome(env, g, workspace, board, confirmed);
            !(r is Workspace || r is Board) ==> {
                &&& restored(s, env, workspace, board, confirmed) == (ShelfView {
                    message: restored(s, env, workspace, board, confirmed).message,
                    ..s
                })
                &&& guard_after_restore(g, r) == g
            }
        }),
{
}

/// What this device has saved comes back as it was when it is restored.
pub proof fn saved_workspaces_come_back(env: SurroundingsView, w: WorkspaceView)
    requires
        crate::workspace::legacy_ids_are_valid(env),
        w.device_id == env.device_id,
    ensures
        imported(env, normalized_workspace(env, w)) == normalized_workspace(env, w),
{
    crate::workspace::normalizing_twice_changes_nothing(env, w);
    let saved = normalized_workspace(env, w);
    assert(imported(env, saved) == normalized_workspace(
        env,
        WorkspaceView { device_id: env.device_id, ..saved },
    ));
    assert(saved.device_id == env.device_id ==> (WorkspaceView {
        device_id: env.device_id,
        ..saved
    }) == saved);
}

/// A backup that was taken over ends the need for repair.
pub proof fn restored_backups_unblock(
    env: SurroundingsView,
    g: StorageGuard,
    workspace: Option<WorkspaceView>,
    board: Option<BoardView>,
    confirmed: bool,
)
    ensures
        ({
            let r = outcome(env, g, workspace, board, confirmed);
            r is Workspace || r is Board ==> !is_blocked(guard_after_restore(g, r))
        }),
{
}

/// The user is at work while anything is dragged, resized or edited.
pub proof fn any_interaction_is_work(i: Interaction)
    ensures
        is_busy(i) == (i.dragging_note || i.dragging_group || i.resizing_group || i.editing_note
            || i.editing_group),
{
}

/// Writing the desk puts what is on it into the space in front and leaves every
/// other space, the desk and the tombstones as they are.
pub proof fn desks_are_written_into_their_space(s: ShelfView, now: u64, k: int)
    requires
        0 <= k < s.spaces.len(),
    ensures
        ({
            let r = desk_written(s, now);
            &&& r.spaces.len() == s.spaces.len()
            &&& is_first_of(s.spaces, s.active_space_id, k) ==> has_the_desk(
                r.spaces[k].board,
                s.desk,
            ) && r.spaces[k] == (SpaceView {
                board: r.spaces[k].board,
                updated_at: r.spaces[k].updated_at,
                ..s.spaces[k]
            })
            &&& !is_first_of(s.spaces, s.active_space_id, k) ==> r.spaces[k] == s.spaces[k]
            &&& r.desk == s.desk
            &&& r.active_space_id == s.active_space_id
            &&& r.tombstones == s.tombstones
        }),
{
    let board = snapshot_of(s.desk);
    crate::persist::boards_are_written_into_one_space(s.spaces, s.active_space_id, board, now, k);
    if is_first_of(s.spaces, s.active_space_id, k) {
        let b = desk_written(s, now).spaces[k].board;
        assert forall|i: int| 0 <= i < s.desk.notes.len() implies #[trigger] b.notes[i] == (
        NoteView {
            created_at: b.notes[i].created_at,
            updated_at: b.notes[i].updated_at,
            ..s.desk.notes[i]
        }) by {
            assert(b.notes[i].text == board.notes[i].text);
        }
    }
}

/// What is on the desk is a change of the user's where nobody is at work, the
/// space is there, and it did not come from elsewhere: what just came and equals
/// the desk is none, and neither is the first board after a switch.
pub proof fn desks_change_by_the_user(
    p: ProjectionView,
    s: ShelfView,
    remote: u64,
    canonical: BoardView,
    k: int,
)
    requires
        is_first_of(s.spaces, s.active_space_id, k),
    ensures
        is_change(p, s, p.remote, false, Some(canonical)),
        p.remote != remote ==> is_change(p, s, remote, false, Some(canonical)) == !board_eq(
            canonical,
            snapshot_of(s.desk),
        ),
        is_change(p, s, remote, false, None) == (p.space_id == Some(s.active_space_id) && p.board
            is Some),
        !is_change(p, s, remote, true, Some(canonical)),
        !is_change(p, s, remote, true, None),
        forall|q: ShelfView|
            q.spaces.len() == 0 ==> !(#[trigger] is_change(
                p,
                q,
                remote,
                false,
                Some(canonical),
            )),
{
    crate::arrivals::boards_are_found_by_space(s.spaces, s.active_space_id, k);
    assert forall|q: ShelfView| q.spaces.len() == 0 implies !(#[trigger] is_change(
        p,
        q,
        remote,
        false,
        Some(canonical),
    )) by {
        crate::arrivals::boards_are_found_by_space(q.spaces, q.active_space_id, 0);
    }
}

/// What is written of the desk: for a guest the workspace on the device, with
/// every note; for an account the board of the space in front, with what is on
/// the desk, and only where it changed. What is shown says so.
pub proof fn changes_are_written_where_they_belong(
    p: ProjectionView,
    s: ShelfView,
    env: SurroundingsView,
    g: StorageGuard,
    remote: u64,
    busy: bool,
    canonical: Option<BoardView>,
    k: int,
)
    requires
        is_first_of(s.spaces, s.active_space_id, k),
    ensures
        ({
            let r = writes_for(p, s, env, g, remote, busy, canonical);
            let change = is_change(p, s, remote, busy, canonical);
            let guest = guest_principal_text(s.principal);
            &&& is_blocked(g) ==> r.workspace is None && r.board is None && r.status
                == StorageStatus::Error
            &&& !is_blocked(g) ==> {
                &&& r.workspace is Some == guest
                &&& r.board is Some == (!guest && change)
                &&& change ==> r.status == StorageStatus::Saving
                &&& !change ==> r.status == StorageStatus::Saved
                &&& guest && g.write_generation < u64::MAX ==> r.generation == g.write_generation
                    + 1
                &&& r.board is Some ==> has_the_desk(r.board->0, s.desk)
                &&& r.workspace is Some ==> {
                    &&& r.workspace->0.spaces.len() == s.spaces.len()
                    &&& r.workspace->0.spaces[k].id == s.spaces[k].id
                    &&& r.workspace->0.spaces[k].name == s.spaces[k].name
                    &&& r.workspace->0.spaces[k].board.notes.len() == s.desk.notes.len()
                    &&& r.workspace->0.spaces[k].board.groups.len() == s.desk.groups.len()
                    &&& forall|i: int|
                        0 <= i < s.desk.notes.len() ==> (
                        #[trigger] r.workspace->0.spaces[k].board.notes[i]).text
                            == s.desk.notes[i].text
                }
            }
        }),
{
    let after = desk_written(s, env.now);
    desks_are_written_into_their_space(s, env.now, k);
    assert(is_first_of(after.spaces, s.active_space_id, k)) by {
        assert forall|j: int| 0 <= j < k implies (#[trigger] after.spaces[j]).id
            != s.active_space_id by {
            desks_are_written_into_their_space(s, env.now, j);
            assert(s.spaces[j].id != s.active_space_id);
        }
    }
    crate::arrivals::boards_are_found_by_space(after.spaces, s.active_space_id, k);
    let w = shelf_workspace(after, env);
    crate::workspace::normalizing_keeps_the_spaces(env, w, k);
    let n = normalized_workspace(env, w);
    assert forall|i: int| 0 <= i < s.desk.notes.len() implies (
    #[trigger] n.spaces[k].board.notes[i]).text == s.desk.notes[i].text by {
        crate::workspace::normalizing_keeps_the_notes(env, w, k, i);
        assert(after.spaces[k].board.notes[i].text == s.desk.notes[i].text);
    }
}

/// A workspace that the user wants back takes the place of the shelf, with all
/// of its spaces and the board of its active one on the desk; nothing is selected
/// and nothing can be undone. What is written holds the same spaces.
pub proof fn restored_workspaces_fill_the_shelf(
    s: ShelfView,
    env: SurroundingsView,
    g: StorageGuard,
    w: WorkspaceView,
    board: Option<BoardView>,
    k: int,
)
    requires
        0 <= k < w.spaces.len(),
        outcome(env, g, Some(w), board, true) is Workspace,
    ensures
        ({
            let r = restored(s, env, Some(w), board, true);
            &&& r.spaces.len() == w.spaces.len()
            &&& r.spaces[k].id == w.spaces[k].id
            &&& r.spaces[k].name == w.spaces[k].name
            &&& r.spaces[k].board.notes.len() == w.spaces[k].board.notes.len()
            &&& is_first_of(r.spaces, r.active_space_id, k) ==> r.desk.notes
                == r.spaces[k].board.notes && r.desk.groups == r.spaces[k].board.groups
            &&& r.desk.selection.len() == 0
            &&& r.desk.undo.len() == 0
            &&& r.desk.redo.len() == 0
            &&& r.desk.editing is None
            &&& r.desk.edit_snapshot is None
            &&& r.principal == s.principal
            &&& r.tombstones.len() == w.tombstones.len()
            &&& forall|t: int|
                0 <= t < w.tombstones.len() ==> (#[trigger] r.tombstones[t]).kind
                    == w.tombstones[t].kind && r.tombstones[t].id == w.tombstones[t].id
            &&& outcome(env, g, Some(w), board, true)->Workspace_0.tombstones.len()
                == r.tombstones.len()
            &&& r.message is Some
            &&& r == (ShelfView {
                spaces: r.spaces,
                active_space_id: r.active_space_id,
                tombstones: r.tombstones,
                desk: r.desk,
                message: r.message,
                ..s
            })
            &&& outcome(env, g, Some(w), board, true)->Workspace_0.spaces.len() == r.spaces.len()
            &&& outcome(env, g, Some(w), board, true)->Workspace_0.spaces[k].id == r.spaces[k].id
            &&& outcome(env, g, Some(w), board, true)->Workspace_0.spaces[k].board.notes.len()
                == r.spaces[k].board.notes.len()
            &&& outcome(env, g, Some(w), board, true)->Workspace_0.device_id == env.device_id
            &&& g.write_generation < u64::MAX ==> outcome(
                env,
                g,
                Some(w),
                board,
                true,
            )->Workspace_1 == g.write_generation + 1
        }),
{
    let own = WorkspaceView { device_id: env.device_id, ..w };
    let taken = imported(env, w);
    crate::workspace::normalizing_keeps_the_spaces(env, own, k);
    let written = WorkspaceView {
        schema_version: env.schema_version,
        device_id: taken.device_id,
        tombstones: taken.tombstones,
        spaces: taken.spaces,
        active_space_id: taken.active_space_id,
    };
    crate::workspace::normalizing_keeps_the_spaces(env, written, k);
    crate::workspace::normalizing_keeps_the_tombstones(env, own);
    crate::workspace::normalizing_keeps_the_tombstones(env, written);
    crate::arrivals::boards_are_found_by_space(taken.spaces, taken.active_space_id, k);
}

/// A board that is restored comes on the desk, and the one before it can be
/// undone to; no space changes.
pub proof fn restored_boards_can_be_undone(
    s: ShelfView,
    env: SurroundingsView,
    board: BoardView,
    confirmed: bool,
)
    ensures
        ({
            let r = restored(s, env, None, Some(board), confirmed);
            &&& r.desk.notes == board.notes
            &&& r.desk.groups == board.groups
            &&& r.desk.editing is None
            &&& r.desk.edit_snapshot is None
            &&& r.desk.selection == s.desk.selection
            &&& r.message is Some
            &&& r == (ShelfView { desk: r.desk, message: r.message, ..s })
            &&& !board_eq(snapshot_of(desk_showing(s.desk, board)), snapshot_of(s.desk))
                ==> r.desk.undo.len() > 0 && r.desk.undo.last().notes == s.desk.notes
                && r.desk.undo.last().groups == s.desk.groups && r.desk.redo.len() == 0
        }),
{
    crate::desk::changes_are_recorded(desk_showing(s.desk, board), snapshot_of(s.desk));
}

/// A workspace in a backup counts before a board in it, but only with the user's
/// consent and where its active space is there.
pub proof fn backups_are_taken_with_consent(
    env: SurroundingsView,
    g: StorageGuard,
    w: WorkspaceView,
    b: BoardView,
    board: Option<BoardView>,
    confirmed: bool,
)
    ensures
        outcome(env, g, Some(w), board, false) == RestoredView::Cancelled,
        outcome(env, g, None, Some(b), confirmed) == RestoredView::Board,
        outcome(env, g, None, None, confirmed) == RestoredView::Unknown,
        outcome(env, g, Some(w), board, true) is Workspace || outcome(env, g, Some(w), board, true)
            == RestoredView::Empty,
        outcome(env, g, Some(w), board, true) == RestoredView::Empty ==> forall|i: int|
            0 <= i < imported(env, w).spaces.len() ==> (#[trigger] imported(env, w).spaces[i]).id
                != imported(env, w).active_space_id,
{
    let taken = imported(env, w);
    if outcome(env, g, Some(w), board, true) == RestoredView::Empty {
        let pred = |x: SpaceView| x.id == taken.active_space_id;
        crate::workspace::first_space_is_least(taken.spaces, pred);
        assert forall|i: int| 0 <= i < taken.spaces.len() implies (#[trigger] taken.spaces[i]).id
            != taken.active_space_id by {
            assert(!pred(taken.spaces[i]));
        }
    }
}

/// After a workspace was restored the write that follows is the current one and
/// nothing stands against it; after a board only the blocks go.
pub proof fn restored_backups_start_afresh(g: StorageGuard, w: WorkspaceView, n: u64)
    ensures
        ({
            let r = guard_after_restore(g, RestoredView::Workspace(w, n));
            &&& r.write_generation == n
            &&& r.error_generation == 0
            &&& !r.schema_blocked
            &&& !r.repair_required
        }),
        ({
            let r = guard_after_restore(g, RestoredView::Board);
            &&& r.write_generation == g.write_generation
            &&& r.error_generation == g.error_generation
            &&& !r.schema_blocked
            &&& !r.repair_required
        }),
{
}

} // verus!
