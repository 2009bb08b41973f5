//! Putting a workspace on the shelf: what a device has stored, and what an
//! account has on the server.
use vstd::prelude::*;
use vstd::string::*;

use crate::account::AccountState;
use crate::account::AccountStateView;
use crate::arrivals::board_of;
use crate::arrivals::desk_showing;
use crate::arrivals::space_board;
use crate::desk::DeskView;
use crate::desk::History;
use crate::identity::account_principal;
use crate::identity::account_principal_text;
use crate::lists::opt_view;
use crate::lists::views;
use crate::lists::views_push;
use crate::model::blank_board;
use crate::model::clone_spaces;
use crate::model::clone_tombstones;
use crate::model::empty_board;
use crate::model::BoardView;
use crate::model::Space;
use crate::model::SpaceView;
use crate::model::Tombstone;
use crate::model::TombstoneView;
use crate::model::WorkspaceData;
use crate::model::WorkspaceView;
use crate::pull::RemoteBoard;
use crate::spaces::account_space;
use crate::spaces::position_of_any_open_space;
use crate::spaces::space_from_remote;
use crate::spaces::RemoteSpace;
use crate::spaces::RemoteSpaceView;
use crate::spaces::Shelf;
use crate::spaces::ShelfView;
use crate::text::concat;
use crate::text::text_eq;
use crate::workspace::first_space;
use crate::workspace::first_space_at;
use crate::workspace::first_space_is_least;
use crate::workspace::is_first_of;
use crate::workspace::is_open;
use crate::workspace::normalize_workspace;
use crate::workspace::normalized_workspace;
use crate::workspace::Surroundings;
use crate::workspace::SurroundingsView;

verus! {

/// The board of the active space of a workspace; an empty one where there is
/// no such space.
pub open spec fn active_board(w: WorkspaceView, schema: u32) -> BoardView {
    match board_of(w.spaces, w.active_space_id) {
        Some(board) => board,
        None => blank_board(schema),
    }
}

/// The shelf with a workspace in canonical form on it and the board of its
/// active space on the desk.
pub open spec fn installed(s: ShelfView, env: SurroundingsView, w: WorkspaceView) -> ShelfView {
    let workspace = normalized_workspace(env, w);
    ShelfView {
        spaces: workspace.spaces,
        active_space_id: workspace.active_space_id,
        tombstones: workspace.tombstones,
        desk: desk_showing(s.desk, active_board(workspace, env.schema_version)),
        ..s
    }
}

/// The desk with nothing to undo, nothing selected and no note being edited.
pub open spec fn desk_cleared(d: DeskView) -> DeskView {
    DeskView {
        undo: Seq::empty(),
        redo: Seq::empty(),
        selection: Seq::empty(),
        editing: None,
        edit_snapshot: None,
        ..d
    }
}

/// The shelf with what the device has stored, or with what it began with.
pub open spec fn hydrated(
    s: ShelfView,
    env: SurroundingsView,
    found: Option<WorkspaceView>,
    fallback: WorkspaceView,
) -> ShelfView {
    let w = match found {
        Some(w) => w,
        None => normalized_workspace(env, fallback),
    };
    let shelf = installed(s, env, w);
    ShelfView { desk: desk_cleared(shelf.desk), message: None, ..shelf }
}

impl Shelf {
    /// Puts a workspace on the shelf. Gives it back in canonical form.
    pub fn install_workspace(&mut self, env: &Surroundings, workspace: WorkspaceData) -> (r:
        WorkspaceData)
        ensures
            r@ == normalized_workspace(env@, workspace@),
            final(self)@ == installed(old(self)@, env@, workspace@),
    {
        let ghost before = self@;
        let w = normalize_workspace(env, workspace);
        let board = match space_board(&w.spaces, w.active_space_id) {
            Some(board) => board,
            None => empty_board(env.schema_version),
        };
        assert(board@ == active_board(w@, env@.schema_version));
        self.spaces = clone_spaces(&w.spaces);
        self.active_space_id = w.active_space_id;
        self.tombstones = clone_tombstones(&w.tombstones);
        let ghost shown = board@;
        self.desk.notes = board.notes;
        self.desk.groups = board.groups;
        assert(self@.desk == desk_showing(before.desk, shown));
        w
    }

    pub(crate) fn clear_desk(&mut self)
        ensures
            final(self)@ == (ShelfView { desk: desk_cleared(old(self)@.desk), ..old(self)@ }),
    {
        let ghost before = self@;
        self.desk.selection = Vec::new();
        self.desk.history = History { undo: Vec::new(), redo: Vec::new() };
        self.desk.editing = None;
        self.desk.edit_snapshot = None;
        assert(self@.desk.undo =~= Seq::empty());
        assert(self@.desk.redo =~= Seq::empty());
        assert(self@.desk.selection =~= Seq::empty());
        assert(self@.desk == desk_cleared(before.desk));
    }

    /// Puts on the shelf what the device has stored, or what it began with
    /// where nothing usable was found.
    pub fn hydrate(
        &mut self,
        env: &Surroundings,
        found: Option<WorkspaceData>,
        fallback: WorkspaceData,
    )
        ensures
            final(self)@ == hydrated(old(self)@, env@, opt_view(found), fallback@),
    {
        let workspace = match found {
            Some(w) => w,
            None => normalize_workspace(env, fallback),
        };
        let _ = self.install_workspace(env, workspace);
        self.clear_desk();
        self.message = None;
    }
}

/// Whether the browser is in the namespace of an account that is signed in.
pub open spec fn in_namespace(
    principal: Seq<char>,
    state: AccountStateView,
    account_id: Seq<char>,
) -> bool {
    principal == account_principal_text(account_id) && state is SignedIn
        && state->SignedIn_0.account_id == account_id
}

/// Whether the browser is in the namespace of an account that is signed in.
pub fn account_namespace_is_current(
    principal: &str,
    state: &AccountState,
    account_id: &str,
) -> (r: bool)
    ensures
        r == in_namespace(principal@, state@, account_id@),
{
    if !text_eq(principal, &account_principal(account_id)) {
        return false;
    }
    match state {
        AccountState::SignedIn(entitlement) => text_eq(&entitlement.account_id, account_id),
        _ => false,
    }
}

/// What has to be done next to open an account.
#[derive(Debug, PartialEq)]
pub enum OpeningAction {
    /// Ask for the spaces of the account.
    ListSpaces,
    /// Create its first space under this name.
    CreateSpace(String),
    /// Ask for the board of a space.
    LoadBoard(u64),
    /// The account could not be opened.
    Failed,
    /// The account is open; save this workspace.
    Opened(WorkspaceData),
}

/// What has to be done next, as a view.
pub enum OpeningActionView {
    ListSpaces,
    CreateSpace(Seq<char>),
    LoadBoard(u64),
    Failed,
    Opened(WorkspaceView),
}

impl View for OpeningAction {
    type V = OpeningActionView;

    open spec fn view(&self) -> OpeningActionView {
        match self {
            OpeningAction::ListSpaces => OpeningActionView::ListSpaces,
            OpeningAction::CreateSpace(name) => OpeningActionView::CreateSpace(name@),
            OpeningAction::LoadBoard(id) => OpeningActionView::LoadBoard(*id),
            OpeningAction::Failed => OpeningActionView::Failed,
            OpeningAction::Opened(w) => OpeningActionView::Opened(w@),
        }
    }
}

/// The state of opening an account.
#[derive(Debug, PartialEq)]
pub struct AccountOpening {
    pub account_id: String,
    /// The spaces that the server has.
    pub remotes: Vec<RemoteSpace>,
    /// The first of them, with their boards.
    pub spaces: Vec<Space>,
}

/// The state of opening an account, as a view.
pub struct OpeningView {
    pub account_id: Seq<char>,
    pub remotes: Seq<RemoteSpaceView>,
    pub spaces: Seq<SpaceView>,
}

impl View for AccountOpening {
    type V = OpeningView;

    open spec fn view(&self) -> OpeningView {
        OpeningView {
            account_id: self.account_id@,
            remotes: views(self.remotes@),
            spaces: views(self.spaces@),
        }
    }
}

/// The space that an account is opened at: the first open one, or else the
/// first one.
pub open spec fn opening_space(spaces: Seq<SpaceView>) -> u64 {
    let i = first_space(spaces, |s: SpaceView| is_open(s));
    if i < spaces.len() {
        spaces[i].id
    } else if spaces.len() > 0 {
        spaces[0].id
    } else {
        0
    }
}

/// The workspace of an account.
pub open spec fn account_workspace(
    env: SurroundingsView,
    spaces: Seq<SpaceView>,
) -> WorkspaceView {
    WorkspaceView {
        schema_version: env.schema_version,
        device_id: env.device_id,
        tombstones: Seq::<TombstoneView>::empty(),
        spaces,
        active_space_id: opening_space(spaces),
    }
}

/// The shelf with a message on it.
pub open spec fn with_message(s: ShelfView, message: Seq<char>) -> ShelfView {
    ShelfView { message: Some(message), ..s }
}

/// The next step: the board of the next space, or, once all are there, the
/// account on the shelf.
pub open spec fn continued(
    o: OpeningView,
    env: SurroundingsView,
    s: ShelfView,
    current: bool,
) -> (ShelfView, OpeningActionView) {
    if o.spaces.len() < o.remotes.len() {
        (s, OpeningActionView::LoadBoard(o.remotes[o.spaces.len() as int].id))
    } else if !current {
        (s, OpeningActionView::Failed)
    } else {
        (
            ShelfView {
                message: None,
                ..installed(s, env, account_workspace(env, o.spaces))
            },
            OpeningActionView::Opened(
                normalized_workspace(env, account_workspace(env, o.spaces)),
            ),
        )
    }
}

impl AccountOpening {
    /// Begins to open an account, where the browser is in its namespace.
    pub fn start(account_id: &str, principal: &str, state: &AccountState) -> (r: (
        AccountOpening,
        OpeningAction,
    ))
        ensures
            r.0@ == (OpeningView {
                account_id: account_id@,
                remotes: Seq::empty(),
                spaces: Seq::empty(),
            }),
            r.1@ == (if in_namespace(principal@, state@, account_id@) {
                OpeningActionView::ListSpaces
            } else {
                OpeningActionView::Failed
            }),
    {
        let opening = AccountOpening {
            account_id: account_id.to_owned(),
            remotes: Vec::new(),
            spaces: Vec::new(),
        };
        assert(opening@.remotes =~= Seq::empty());
        assert(opening@.spaces =~= Seq::empty());
        if account_namespace_is_current(principal, state, account_id) {
            (opening, OpeningAction::ListSpaces)
        } else {
            (opening, OpeningAction::Failed)
        }
    }

    fn go_on(
        &self,
        env: &Surroundings,
        shelf: &mut Shelf,
        principal: &str,
        state: &AccountState,
    ) -> (r: OpeningAction)
        ensures
            (final(shelf)@, r@) == continued(
                self@,
                env@,
                old(shelf)@,
                in_namespace(principal@, state@, self@.account_id),
            ),
    {
        if self.spaces.len() < self.remotes.len() {
            return OpeningAction::LoadBoard(self.remotes[self.spaces.len()].id);
        }
        if !account_namespace_is_current(principal, state, &self.account_id) {
            return OpeningAction::Failed;
        }
        let open = position_of_any_open_space(&self.spaces);
        let active: u64 = if open < self.spaces.len() {
            self.spaces[open].id
        } else if self.spaces.len() > 0 {
            self.spaces[0].id
        } else {
            0
        };
        let none: Vec<Tombstone> = Vec::new();
        let workspace = WorkspaceData {
            schema_version: env.schema_version,
            device_id: env.device_id.clone(),
            tombstones: none,
            spaces: clone_spaces(&self.spaces),
            active_space_id: active,
        };
        assert(workspace@.tombstones =~= Seq::<TombstoneView>::empty());
        assert(workspace@ == account_workspace(env@, self@.spaces));
        let opened = shelf.install_workspace(env, workspace);
        shelf.message = None;
        OpeningAction::Opened(opened)
    }

    /// The spaces of the account came, or did not. An account without a space
    /// gets one.
    pub fn listed(
        &mut self,
        result: Result<Vec<RemoteSpace>, String>,
        env: &Surroundings,
        shelf: &mut Shelf,
        principal: &str,
        state: &AccountState,
    ) -> (r: OpeningAction)
        ensures
            match result {
                Err(error) => {
                    &&& final(self)@ == old(self)@
                    &&& final(shelf)@ == with_message(
                        old(shelf)@,
                        "couldn't load your spaces: "@ + error@,
                    )
                    &&& r@ == OpeningActionView::Failed
                },
                Ok(list) => {
                    let next = OpeningView { remotes: views(list@), ..old(self)@ };
                    &&& final(self)@ == next
                    &&& if list@.len() == 0 {
                        &&& final(shelf)@ == old(shelf)@
                        &&& r@ == OpeningActionView::CreateSpace("my space"@)
                    } else {
                        (final(shelf)@, r@) == continued(
                            next,
                            env@,
                            old(shelf)@,
                            in_namespace(principal@, state@, next.account_id),
                        )
                    }
                },
            },
    {
        let list = match result {
            Ok(list) => list,
            Err(error) => {
                shelf.message = Some(concat("couldn't load your spaces: ", &error));
                return OpeningAction::Failed;
            },
        };
        self.remotes = list;
        if self.remotes.len() == 0 {
            return OpeningAction::CreateSpace("my space".to_owned());
        }
        self.go_on(env, shelf, principal, state)
    }

    /// The first space was created, or was not.
    pub fn created(
        &mut self,
        result: Result<RemoteSpace, String>,
        env: &Surroundings,
        shelf: &mut Shelf,
        principal: &str,
        state: &AccountState,
    ) -> (r: OpeningAction)
        ensures
            match result {
                Err(error) => {
                    &&& final(self)@ == old(self)@
                    &&& final(shelf)@ == with_message(
                        old(shelf)@,
                        "couldn't create your first space: "@ + error@,
                    )
                    &&& r@ == OpeningActionView::Failed
                },
                Ok(space) => {
                    let next = OpeningView {
                        remotes: old(self)@.remotes.push(space@),
                        ..old(self)@
                    };
                    &&& final(self)@ == next
                    &&& (final(shelf)@, r@) == continued(
                        next,
                        env@,
                        old(shelf)@,
                        in_namespace(principal@, state@, next.account_id),
                    )
                },
            },
    {
        broadcast use views_push;

        let space = match result {
            Ok(space) => space,
            Err(error) => {
                shelf.message = Some(concat("couldn't create your first space: ", &error));
                return OpeningAction::Failed;
            },
        };
        self.remotes.push(space);
        self.go_on(env, shelf, principal, state)
    }

    /// The board of the next space came, or did not.
    pub fn board_loaded(
        &mut self,
        result: Result<RemoteBoard, String>,
        env: &Surroundings,
        shelf: &mut Shelf,
        principal: &str,
        state: &AccountState,
    ) -> (r: OpeningAction)
        requires
            old(self)@.spaces.len() < old(self)@.remotes.len(),
        ensures
            ({
                let remote = old(self)@.remotes[old(self)@.spaces.len() as int];
                match result {
                    Err(error) => {
                        &&& final(self)@ == old(self)@
                        &&& final(shelf)@ == with_message(
                            old(shelf)@,
                            "couldn't load a space: "@ + error@,
                        )
                        &&& r@ == OpeningActionView::Failed
                    },
                    Ok(board) => if board.space_id != remote.id {
                        &&& final(self)@ == old(self)@
                        &&& final(shelf)@ == with_message(
                            old(shelf)@,
                            "the server returned the wrong space"@,
                        )
                        &&& r@ == OpeningActionView::Failed
                    } else {
                        let next = OpeningView {
                            spaces: old(self)@.spaces.push(account_space(remote, board.board@)),
                            ..old(self)@
                        };
                        &&& final(self)@ == next
                        &&& (final(shelf)@, r@) == continued(
                            next,
                            env@,
                            old(shelf)@,
                            in_namespace(principal@, state@, next.account_id),
                        )
                    },
                }
            }),
    {
        broadcast use views_push;

        let board = match result {
            Ok(board) => board,
            Err(error) => {
                shelf.message = Some(concat("couldn't load a space: ", &error));
                return OpeningAction::Failed;
            },
        };
        let at: usize = self.spaces.len();
        if board.space_id != self.remotes[at].id {
            shelf.message = Some("the server returned the wrong space".to_owned());
            return OpeningAction::Failed;
        }
        let space = space_from_remote(&self.remotes[at], board.board);
        self.spaces.push(space);
        self.go_on(env, shelf, principal, state)
    }
}

/// Until every board has come, opening an account changes nothing on the
/// shelf; in another namespace it never does.
pub proof fn openings_are_all_or_nothing(
    o: OpeningView,
    env: SurroundingsView,
    s: ShelfView,
    current: bool,
)
    ensures
        continued(o, env, s, current).0 != s ==> current && o.spaces.len() >= o.remotes.len(),
        continued(o, env, s, current).1 is Opened <==> current && o.spaces.len()
            >= o.remotes.len(),
{
}

/// An account is opened at an open space, where it has one.
pub proof fn accounts_open_at_an_open_space(spaces: Seq<SpaceView>, k: int)
    requires
        0 <= k < spaces.len(),
        is_open(spaces[k]),
    ensures
        exists|i: int|
            0 <= i < spaces.len() && is_open(#[trigger] spaces[i]) && spaces[i].id
                == opening_space(spaces),
{
    let pred = |s: SpaceView| is_open(s);
    crate::workspace::first_space_is_least(spaces, pred);
    let i = first_space(spaces, pred);
    if i >= spaces.len() {
        assert(!pred(spaces[k]));
    } else {
        assert(pred(spaces[i]));
    }
}

/// A workspace that is installed takes the place of the whole shelf: its spaces,
/// its tombstones and its active space, whose board comes on the desk.
pub proof fn installed_workspaces_fill_the_shelf(
    s: ShelfView,
    env: SurroundingsView,
    w: WorkspaceView,
    k: int,
)
    requires
        0 <= k < w.spaces.len(),
    ensures
        ({
            let r = installed(s, env, w);
            let n = normalized_workspace(env, w);
            &&& r.spaces == n.spaces
            &&& r.tombstones == n.tombstones
            &&& r.active_space_id == n.active_space_id
            &&& r.spaces.len() == w.spaces.len()
            &&& r.spaces[k].id == w.spaces[k].id
            &&& r.spaces[k].name == w.spaces[k].name
            &&& is_first_of(r.spaces, r.active_space_id, k) ==> r.desk.notes
                == r.spaces[k].board.notes && r.desk.groups == r.spaces[k].board.groups
            &&& r.desk.selection == s.desk.selection
            &&& r.desk.undo == s.desk.undo
            &&& r.desk.redo == s.desk.redo
            &&& r.principal == s.principal
        }),
{
    crate::workspace::normalizing_keeps_the_spaces(env, w, k);
    let n = normalized_workspace(env, w);
    crate::arrivals::boards_are_found_by_space(n.spaces, n.active_space_id, k);
}

/// The page starts with the workspace that was found, or else with the one to
/// fall back on; nothing is selected or edited and nothing can be undone.
pub proof fn pages_start_with_what_was_found(
    s: ShelfView,
    env: SurroundingsView,
    found: Option<WorkspaceView>,
    fallback: WorkspaceView,
    k: int,
)
    requires
        found matches Some(w) ==> 0 <= k < w.spaces.len(),
        found is None ==> 0 <= k < fallback.spaces.len(),
    ensures
        ({
            let r = hydrated(s, env, found, fallback);
            let source = match found {
                Some(w) => w,
                None => fallback,
            };
            &&& r.spaces.len() == source.spaces.len()
            &&& r.spaces[k].id == source.spaces[k].id
            &&& r.spaces[k].name == source.spaces[k].name
            &&& r.spaces[k].board.notes.len() == source.spaces[k].board.notes.len()
            &&& is_first_of(r.spaces, r.active_space_id, k) ==> r.desk.notes
                == r.spaces[k].board.notes && r.desk.groups == r.spaces[k].board.groups
            &&& r.desk.selection.len() == 0
            &&& r.desk.undo.len() == 0
            &&& r.desk.redo.len() == 0
            &&& r.desk.editing is None
            &&& r.desk.edit_snapshot is None
            &&& r.message is None
        }),
{
    let w = match found {
        Some(w) => w,
        None => normalized_workspace(env, fallback),
    };
    if found is None {
        crate::workspace::normalizing_keeps_the_spaces(env, fallback, k);
    }
    crate::workspace::normalizing_keeps_the_spaces(env, w, k);
    installed_workspaces_fill_the_shelf(s, env, w, k);
}

/// The page is in the namespace of an account where that account is signed in
/// and the storage is its own.
pub proof fn namespaces_are_of_one_account(
    principal: Seq<char>,
    state: AccountStateView,
    account_id: Seq<char>,
)
    ensures
        in_namespace(principal, state, account_id) ==> principal == account_principal_text(
            account_id,
        ) && (state matches AccountStateView::SignedIn(e) && e.account_id == account_id),
        (state matches AccountStateView::SignedIn(e) && e.account_id == account_id)
            ==> in_namespace(account_principal_text(account_id), state, account_id),
{
}

/// An account opens at the first of its spaces that is open; where none is, at
/// the first of all.
pub proof fn accounts_open_at_the_first_open_space(spaces: Seq<SpaceView>, k: int)
    requires
        0 <= k < spaces.len(),
    ensures
        !spaces[k].archived && spaces[k].deleted_at is None && (forall|j: int|
            0 <= j < k ==> (#[trigger] spaces[j]).archived || spaces[j].deleted_at is Some)
            ==> opening_space(spaces) == spaces[k].id,
        (forall|j: int|
            0 <= j < spaces.len() ==> (#[trigger] spaces[j]).archived || spaces[j].deleted_at
                is Some) ==> opening_space(spaces) == spaces[0].id,
{
    let pred = |s: SpaceView| is_open(s);
    first_space_is_least(spaces, pred);
    if is_open(spaces[k]) && (forall|j: int|
        0 <= j < k ==> (#[trigger] spaces[j]).archived || spaces[j].deleted_at is Some) {
        assert forall|j: int| 0 <= j < k implies !pred(#[trigger] spaces[j]) by {}
        first_space_at(spaces, pred, k);
    }
    let i = first_space(spaces, pred);
    if i < spaces.len() {
        assert(pred(spaces[i]));
    }
}

/// An account asks for the board of one space after the other. When the last is
/// there, all of them are on the shelf and no others, what is saved is what is on
/// the shelf, and the board of the space in front is on the desk.
pub proof fn accounts_open_with_all_their_spaces(
    o: OpeningView,
    env: SurroundingsView,
    s: ShelfView,
    current: bool,
    k: int,
)
    ensures
        o.spaces.len() < o.remotes.len() ==> continued(o, env, s, current) == (
            s,
            OpeningActionView::LoadBoard(o.remotes[o.spaces.len() as int].id),
        ),
        o.spaces.len() >= o.remotes.len() && !current ==> continued(o, env, s, current) == (
            s,
            OpeningActionView::Failed,
        ),
        o.spaces.len() >= o.remotes.len() && current && 0 <= k < o.spaces.len() ==> {
            let (r, action) = continued(o, env, s, current);
            &&& action matches OpeningActionView::Opened(w)
            &&& w.spaces == r.spaces
            &&& w.active_space_id == r.active_space_id
            &&& w.tombstones == r.tombstones
            &&& r.spaces.len() == o.spaces.len()
            &&& r.spaces[k].id == o.spaces[k].id
            &&& r.spaces[k].name == o.spaces[k].name
            &&& r.spaces[k].sync_enabled == o.spaces[k].sync_enabled
            &&& r.spaces[k].board.notes.len() == o.spaces[k].board.notes.len()
            &&& is_first_of(r.spaces, r.active_space_id, k) ==> r.desk.notes
                == r.spaces[k].board.notes && r.desk.groups == r.spaces[k].board.groups
            &&& r.message is None
            &&& r.tombstones.len() == 0
        },
{
    if o.spaces.len() >= o.remotes.len() && current && 0 <= k < o.spaces.len() {
        let w = account_workspace(env, o.spaces);
        installed_workspaces_fill_the_shelf(s, env, w, k);
        crate::workspace::normalizing_keeps_the_spaces(env, w, k);
    }
}

/// A message changes nothing else on the shelf.
pub proof fn messages_change_nothing_else(s: ShelfView, message: Seq<char>)
    ensures
        with_message(s, message).message == Some(message),
        (ShelfView { message: s.message, ..with_message(s, message) }) == s,
{
}

} // verus!
