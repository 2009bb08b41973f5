//! Documents that other tabs have changed.
//!
//! A change comes as a message with the update in it, or is found in the
//! store after this tab was asleep. Both are taken into the document, shown,
//! and only then written.
use vstd::prelude::*;
use vstd::string::*;

use crate::arrivals::board_taken;
use crate::arrivals::StoredDocument;
use crate::lists::opt_view;
use crate::model::board_eq;
use crate::model::same_board;
use crate::model::BoardData;
use crate::model::BoardView;
use crate::model::WorkspaceData;
use crate::persist::workspace_snapshot;
use crate::reconcile::SyncLimits;
use crate::spaces::Shelf;
use crate::tabs::shelf_workspace;
use crate::tabs::LocalSyncUpdate;
use crate::tabs::TabMessageView;
use crate::text::text_eq;
use crate::workspace::Surroundings;

verus! {

/// What follows a message with an update.
#[derive(Clone, Copy, Debug, PartialEq, Eq, Structural)]
pub enum TabUpdateStep {
    /// The message is dropped.
    Drop,
    /// The update has to be decoded.
    Decode,
    /// The document has to be loaded first.
    LoadDocument,
    /// The update has to be taken into the document.
    Apply,
    /// The new board has to be shown.
    Show,
}

/// Looks at a message: it must hold an update and still be for the principal.
pub fn begin_tab_update(message: &LocalSyncUpdate, principal: &str) -> (r: TabUpdateStep)
    ensures
        r == (if message@.principal == principal@ && message@.update is Some {
            TabUpdateStep::Decode
        } else {
            TabUpdateStep::Drop
        }),
{
    if text_eq(&message.principal, principal) && message.update.is_some() {
        TabUpdateStep::Decode
    } else {
        TabUpdateStep::Drop
    }
}

/// The update was decoded into so many bytes, or could not be. A document in
/// memory has already seen what is stored.
pub fn tab_update_decoded(size: Option<usize>, has_document: bool, limits: &SyncLimits) -> (r:
    TabUpdateStep)
    ensures
        r == (match size {
            Some(n) => if n == 0 || n > limits.max_update_bytes {
                TabUpdateStep::Drop
            } else if has_document {
                TabUpdateStep::Apply
            } else {
                TabUpdateStep::LoadDocument
            },
            None => TabUpdateStep::Drop,
        }),
{
    match size {
        Some(n) => {
            if n == 0 || n > limits.max_update_bytes {
                TabUpdateStep::Drop
            } else if has_document {
                TabUpdateStep::Apply
            } else {
                TabUpdateStep::LoadDocument
            }
        },
        None => TabUpdateStep::Drop,
    }
}

/// The update was taken into a copy of the document, whose snapshot has so
/// many bytes, or could not be.
pub fn tab_update_applied(
    message: &LocalSyncUpdate,
    snapshot: Option<usize>,
    principal: &str,
    limits: &SyncLimits,
) -> (r: TabUpdateStep)
    ensures
        r == (match snapshot {
            Some(n) => if message@.principal == principal@ && n <= limits.max_snapshot_bytes {
                TabUpdateStep::Show
            } else {
                TabUpdateStep::Drop
            },
            None => TabUpdateStep::Drop,
        }),
{
    match snapshot {
        Some(n) => {
            if text_eq(&message.principal, principal) && n <= limits.max_snapshot_bytes {
                TabUpdateStep::Show
            } else {
                TabUpdateStep::Drop
            }
        },
        None => TabUpdateStep::Drop,
    }
}

/// The device that a message comes from, as far as it says.
pub open spec fn origin_of(m: TabMessageView) -> Seq<char> {
    match m.origin_device_id {
        Some(device) => device,
        None => match m.origin_tab_id {
            Some(tab) => tab,
            None => "unknown"@,
        },
    }
}

/// What is written once the board of a message is shown.
#[derive(Debug, PartialEq)]
pub struct TabWrites {
    /// Where the update and the snapshot come from.
    pub origin: String,
    /// The number of the change at its origin.
    pub generation: u64,
    /// The workspace to save, where the principal is still the same.
    pub workspace: Option<WorkspaceData>,
    /// The board on the desk is no longer what the user left there.
    pub on_desk: bool,
}

impl Shelf {
    /// Shows the board that a message has led to. Says what to write then.
    pub fn show_tab_update(
        &mut self,
        env: &Surroundings,
        message: &LocalSyncUpdate,
        board: &BoardData,
        principal: &str,
    ) -> (r: TabWrites)
        ensures
            final(self)@ == board_taken(old(self)@, message@.space_id, board@, env@.now),
            r.origin@ == origin_of(message@),
            r.generation == message@.local_generation,
            r.on_desk == (old(self)@.active_space_id == message@.space_id),
            opt_view(r.workspace) == (if message@.principal == principal@ {
                Some(shelf_workspace(final(self)@, env@))
            } else {
                None
            }),
    {
        let on_desk = self.take_board(message.space_id, board, env.now);
        let origin = match &message.origin_device_id {
            Some(device) => device.clone(),
            None => match &message.origin_tab_id {
                Some(tab) => tab.clone(),
                None => "unknown".to_owned(),
            },
        };
        let workspace = if text_eq(&message.principal, principal) {
            Some(
                workspace_snapshot(env, &self.spaces, self.active_space_id, &self.tombstones),
            )
        } else {
            None
        };
        TabWrites { origin, generation: message.local_generation, workspace, on_desk }
    }
}

/// The steps of looking into the store for what other tabs have written.
#[derive(Clone, Copy, Debug, PartialEq, Eq, Structural)]
pub enum RefreshStep {
    /// There is nothing to do.
    Done,
    /// What is stored needs repair.
    Surface,
    /// Make the document from what is stored.
    OpenStored,
    /// Read the updates that are stored beside it.
    ReadPending,
    /// Take the stored document and the updates into a copy.
    Merge,
    /// Show the new board.
    Show,
}

/// The stored document was read.
pub fn refresh_read(stored: StoredDocument, same_principal: bool, has_document: bool) -> (r:
    RefreshStep)
    ensures
        r == (match stored {
            StoredDocument::Unreadable => RefreshStep::Surface,
            _ => if !same_principal {
                RefreshStep::Done
            } else {
                match stored {
                    StoredDocument::Missing => RefreshStep::Done,
                    StoredDocument::Bytes(_) => if has_document {
                        RefreshStep::ReadPending
                    } else {
                        RefreshStep::OpenStored
                    },
                    _ => RefreshStep::Surface,
                }
            },
        }),
{
    match stored {
        StoredDocument::Unreadable => RefreshStep::Surface,
        _ => {
            if !same_principal {
                return RefreshStep::Done;
            }
            match stored {
                StoredDocument::Missing => RefreshStep::Done,
                StoredDocument::Bytes(_) => {
                    if has_document {
                        RefreshStep::ReadPending
                    } else {
                        RefreshStep::OpenStored
                    }
                },
                _ => RefreshStep::Surface,
            }
        },
    }
}

/// The document was made from what is stored, or could not be.
pub fn refresh_opened(opened: bool) -> (r: RefreshStep)
    ensures
        r == (if opened {
            RefreshStep::ReadPending
        } else {
            RefreshStep::Surface
        }),
{
    if opened {
        RefreshStep::ReadPending
    } else {
        RefreshStep::Surface
    }
}

/// The updates were read, or could not be.
pub fn refresh_pending(readable: bool) -> (r: RefreshStep)
    ensures
        r == (if readable {
            RefreshStep::Merge
        } else {
            RefreshStep::Surface
        }),
{
    if readable {
        RefreshStep::Merge
    } else {
        RefreshStep::Surface
    }
}

/// What follows once everything stored was taken into a copy of the document:
/// a board that did not change is not shown again.
pub open spec fn after_merge(
    merged: Option<(BoardView, usize)>,
    before: BoardView,
    same_principal: bool,
    max_snapshot_bytes: usize,
) -> RefreshStep {
    match merged {
        None => if same_principal {
            RefreshStep::Surface
        } else {
            RefreshStep::Done
        },
        Some((board, size)) => if !same_principal || board_eq(board, before) || size
            > max_snapshot_bytes {
            RefreshStep::Done
        } else {
            RefreshStep::Show
        },
    }
}

/// Everything stored was taken into a copy of the document, which now has this
/// board and a snapshot of so many bytes, or could not be.
pub fn refresh_merged(
    merged: Option<(&BoardData, usize)>,
    before: &BoardData,
    same_principal: bool,
    limits: &SyncLimits,
) -> (r: RefreshStep)
    ensures
        r == after_merge(
            match merged {
                Some(m) => Some((m.0@, m.1)),
                None => None,
            },
            before@,
            same_principal,
            limits.max_snapshot_bytes,
        ),
{
    match merged {
        None => {
            if same_principal {
                RefreshStep::Surface
            } else {
                RefreshStep::Done
            }
        },
        Some(m) => {
            if !same_principal || same_board(m.0, before) || m.1 > limits.max_snapshot_bytes {
                RefreshStep::Done
            } else {
                RefreshStep::Show
            }
        },
    }
}

/// An update comes from the device that it names, or else from the tab.
pub proof fn updates_name_their_origin(m: TabMessageView)
    ensures
        m.origin_device_id is Some ==> origin_of(m) == m.origin_device_id->0,
        m.origin_device_id is None && m.origin_tab_id is Some ==> origin_of(m)
            == m.origin_tab_id->0,
        m.origin_device_id is None && m.origin_tab_id is None ==> origin_of(m) == "unknown"@,
{
}

/// A merged board is shown where it is another one than before, fits, and the
/// principal is still the same; a merge that failed needs repair.
pub proof fn merged_boards_are_shown(
    board: BoardView,
    size: usize,
    before: BoardView,
    same_principal: bool,
    max: usize,
)
    ensures
        (after_merge(Some((board, size)), before, same_principal, max) == RefreshStep::Show) == (
        same_principal && !board_eq(board, before) && size <= max),
        after_merge(Some((board, size)), before, same_principal, max) == RefreshStep::Show
            || after_merge(Some((board, size)), before, same_principal, max) == RefreshStep::Done,
        after_merge(None, before, true, max) == RefreshStep::Surface,
        after_merge(None, before, false, max) == RefreshStep::Done,
{
}

} // verus!
