//! The keyboard, the buttons and the texts around the board.
use vstd::prelude::*;
use vstd::string::*;

use crate::account::Entitlement;
use crate::desk::Desk;
use crate::desk::DeskView;
use crate::lists::opt_view;
use crate::lists::views;
use crate::model::NoteView;
use crate::status::StorageStatus;
use crate::text::blank;
use crate::text::concat;
use crate::text::decimal;
use crate::text::decimal_of;
use crate::text::is_blank;
use crate::text::lowercase_of;
use crate::text::text_eq;
use crate::text::to_lowercase;

verus! {

/// A key that was pressed, and what it was pressed with.
#[derive(Clone, Copy, Debug, PartialEq, Eq, Structural)]
pub struct Modifiers {
    pub ctrl: bool,
    pub meta: bool,
    pub alt: bool,
    pub shift: bool,
}

/// What is open above the board.
#[derive(Clone, Copy, Debug, PartialEq, Eq, Structural)]
pub struct Panels {
    pub pending_delete: bool,
    pub context_menu: bool,
    pub space_menu: bool,
    pub help: bool,
}

/// What a key does.
#[derive(Clone, Copy, Debug, PartialEq, Eq, Structural)]
pub enum KeyAction {
    Nothing,
    ForgetDelete,
    CloseContextMenu,
    CloseSpaceMenu,
    CloseHelp,
    DeleteSelection,
    UngroupSelection,
    GroupSelection,
    Redo,
    Undo,
}

/// What the escape key does: it closes one thing at a time.
pub open spec fn escape_action(p: Panels) -> KeyAction {
    if p.pending_delete {
        KeyAction::ForgetDelete
    } else if p.context_menu {
        KeyAction::CloseContextMenu
    } else if p.space_menu {
        KeyAction::CloseSpaceMenu
    } else if p.help {
        KeyAction::CloseHelp
    } else {
        KeyAction::Nothing
    }
}

/// What a key does on the board, by its name in lower case.
pub open spec fn board_key_action(name: Seq<char>, m: Modifiers) -> KeyAction {
    if (name == "delete"@ || name == "backspace"@) && !m.ctrl && !m.meta && !m.alt {
        KeyAction::DeleteSelection
    } else if !m.ctrl && !m.meta {
        KeyAction::Nothing
    } else if name == "g"@ {
        if m.shift {
            KeyAction::UngroupSelection
        } else {
            KeyAction::GroupSelection
        }
    } else if name == "z"@ {
        if m.shift {
            KeyAction::Redo
        } else {
            KeyAction::Undo
        }
    } else {
        KeyAction::Nothing
    }
}

/// What a key does: nothing while the board is off, and nothing while a text
/// is written.
pub open spec fn key_action(
    key: Seq<char>,
    name: Seq<char>,
    m: Modifiers,
    p: Panels,
    off: bool,
    editable: bool,
) -> KeyAction {
    if off || editable {
        KeyAction::Nothing
    } else if key == "Escape"@ {
        escape_action(p)
    } else {
        board_key_action(name, m)
    }
}

/// What a key does on the board, by its name in lower case.
pub fn act_on_board(name: &str, m: &Modifiers) -> (r: KeyAction)
    ensures
        r == board_key_action(name@, *m),
{
    if (text_eq(name, "delete") || text_eq(name, "backspace")) && !m.ctrl && !m.meta && !m.alt {
        return KeyAction::DeleteSelection;
    }
    if !m.ctrl && !m.meta {
        return KeyAction::Nothing;
    }
    if text_eq(name, "g") {
        if m.shift {
            KeyAction::UngroupSelection
        } else {
            KeyAction::GroupSelection
        }
    } else if text_eq(name, "z") {
        if m.shift {
            KeyAction::Redo
        } else {
            KeyAction::Undo
        }
    } else {
        KeyAction::Nothing
    }
}

/// What a key does. `off` says whether the keyboard is off for the board,
/// `editable` whether the key goes into a text field.
pub fn press_key(key: &str, m: &Modifiers, p: &Panels, off: bool, editable: bool) -> (r: KeyAction)
    ensures
        r == key_action(key@, lowercase_of(key@), *m, *p, off, editable),
{
    if off || editable {
        return KeyAction::Nothing;
    }
    if text_eq(key, "Escape") {
        return if p.pending_delete {
            KeyAction::ForgetDelete
        } else if p.context_menu {
            KeyAction::CloseContextMenu
        } else if p.space_menu {
            KeyAction::CloseSpaceMenu
        } else if p.help {
            KeyAction::CloseHelp
        } else {
            KeyAction::Nothing
        };
    }
    let name = to_lowercase(key);
    act_on_board(&name, m)
}

/// Whether the browser's own meaning of a key is switched off.
pub fn prevents_default(action: KeyAction) -> (r: bool)
    ensures
        r == (action is DeleteSelection || action is UngroupSelection || action is GroupSelection
            || action is Redo || action is Undo),
{
    match action {
        KeyAction::DeleteSelection
        | KeyAction::UngroupSelection
        | KeyAction::GroupSelection
        | KeyAction::Redo
        | KeyAction::Undo => true,
        _ => false,
    }
}

/// Whether an element takes text: a field, or something that may be edited.
pub fn keyboard_target_is_editable(tag: &str, inside_editable: bool) -> (r: bool)
    ensures
        r == (tag@ == "INPUT"@ || tag@ == "TEXTAREA"@ || tag@ == "SELECT"@ || inside_editable),
{
    text_eq(tag, "INPUT") || text_eq(tag, "TEXTAREA") || text_eq(tag, "SELECT") || inside_editable
}

/// Which buttons do something.
#[derive(Clone, Copy, Debug, PartialEq, Eq, Structural)]
pub struct Buttons {
    pub undo: bool,
    pub redo: bool,
    pub group: bool,
    pub ungroup: bool,
    pub delete: bool,
    pub add_to_group: bool,
}

/// Whether a note with the given id is in a group.
pub open spec fn is_grouped(notes: Seq<NoteView>, id: u64) -> bool {
    exists|i: int|
        0 <= i < notes.len() && (#[trigger] notes[i]).id == id && notes[i].group_id is Some
}

/// Which buttons do something.
pub open spec fn buttons_of(d: DeskView) -> Buttons {
    Buttons {
        undo: d.undo.len() > 0,
        redo: d.redo.len() > 0,
        group: d.selection.len() >= 2,
        ungroup: exists|i: int|
            0 <= i < d.selection.len() && is_grouped(d.notes, #[trigger] d.selection[i]),
        delete: d.selection.len() > 0,
        add_to_group: d.groups.len() > 0 && d.selection.len() > 0,
    }
}

impl Desk {
    fn has_grouped(&self, id: u64) -> (r: bool)
        ensures
            r == is_grouped(self@.notes, id),
    {
        let ghost all = self@.notes;
        let mut i: usize = 0;
        while i < self.notes.len()
            invariant
                i <= self.notes@.len(),
                all == views(self.notes@),
                forall|j: int|
                    0 <= j < i ==> !((#[trigger] all[j]).id == id && all[j].group_id is Some),
            decreases self.notes@.len() - i,
        {
            if self.notes[i].id == id && self.notes[i].group_id.is_some() {
                assert(all[i as int].id == id);
                return true;
            }
            i = i + 1;
        }
        false
    }

    /// Which buttons do something.
    pub fn buttons(&self) -> (r: Buttons)
        ensures
            r == buttons_of(self@),
    {
        let ghost d = self@;
        let mut ungroup = false;
        let mut i: usize = 0;
        while i < self.selection.len() && !ungroup
            invariant
                d == self@,
                i <= self.selection@.len(),
                ungroup == (exists|j: int|
                    0 <= j < i && is_grouped(d.notes, #[trigger] d.selection[j])),
            decreases self.selection@.len() - i,
        {
            if self.has_grouped(self.selection[i]) {
                ungroup = true;
                assert(is_grouped(d.notes, d.selection[i as int]));
            }
            i = i + 1;
        }
        Buttons {
            undo: self.history.undo.len() > 0,
            redo: self.history.redo.len() > 0,
            group: self.selection.len() >= 2,
            ungroup,
            delete: self.selection.len() > 0,
            add_to_group: self.groups.len() > 0 && self.selection.len() > 0,
        }
    }
}

/// How many notes there are, in words.
pub fn note_count(count: usize) -> (r: String)
    ensures
        r@ == decimal(count as nat) + " "@ + (if count == 1 {
            "note"@
        } else {
            "notes"@
        }),
{
    concat(
        &concat(&decimal_of(count as u64), " "),
        if count == 1 {
            "note"
        } else {
            "notes"
        },
    )
}

/// What is read out of a note.
pub fn note_title(text: &Option<String>) -> (r: String)
    ensures
        r@ == (match opt_view(*text) {
            None => "Task note"@,
            Some(t) => if blank(t) {
                "Empty task note"@
            } else {
                t
            },
        }),
{
    match text {
        None => "Task note".to_owned(),
        Some(t) => {
            if is_blank(t) {
                "Empty task note".to_owned()
            } else {
                t.clone()
            }
        },
    }
}

/// What a note shows.
pub fn note_body(text: &Option<String>) -> (r: String)
    ensures
        r@ == (match opt_view(*text) {
            None => ""@,
            Some(t) => if blank(t) {
                "click to write"@
            } else {
                t
            },
        }),
{
    match text {
        None => "".to_owned(),
        Some(t) => {
            if is_blank(t) {
                "click to write".to_owned()
            } else {
                t.clone()
            }
        },
    }
}

/// What an account that may not sync is told.
pub fn entitlement_message(entitlement: &Entitlement) -> (r: &'static str)
    ensures
        r@ == (if entitlement@.status == "pending"@ {
            "your account is still being prepared; sync will start after confirmation"@
        } else {
            "this account is not enabled for sync yet"@
        }),
{
    if text_eq(&entitlement.status, "pending") {
        "your account is still being prepared; sync will start after confirmation"
    } else {
        "this account is not enabled for sync yet"
    }
}

/// Whether the raw records are exported in place of the workspace.
pub fn exports_raw_records(status: StorageStatus, repair_required: bool) -> (r: bool)
    ensures
        r == (status == StorageStatus::Error && repair_required),
{
    status == StorageStatus::Error && repair_required
}

/// What is said once the raw records were exported, or could not be: they came
/// as a text, as something else, or not at all.
pub fn raw_export_message(exported: Option<bool>) -> (r: &'static str)
    ensures
        r@ == (match exported {
            Some(true) =>
                "local backup exported — keep it before restoring or clearing this device"@,
            Some(false) => "couldn't export local data"@,
            None => "couldn't export local data — keep this device unchanged and retry"@,
        }),
{
    match exported {
        Some(true) => "local backup exported — keep it before restoring or clearing this device",
        Some(false) => "couldn't export local data",
        None => "couldn't export local data — keep this device unchanged and retry",
    }
}

/// What is said of a request that was refused.
pub fn request_failed(status: u16) -> (r: String)
    ensures
        r@ == "request failed ("@ + decimal(status as nat) + ")"@,
{
    concat(&concat("request failed (", &decimal_of(status as u64)), ")")
}

/// Whether a request was answered with success.
pub fn request_succeeded(status: u16) -> (r: bool)
    ensures
        r == (200 <= status < 300),
{
    200 <= status && status < 300
}

/// A key that is pressed in a text field, or while the board is off, never
/// changes anything.
pub proof fn typing_is_left_alone(
    key: Seq<char>,
    name: Seq<char>,
    m: Modifiers,
    p: Panels,
    off: bool,
    editable: bool,
)
    requires
        off || editable,
    ensures
        key_action(key, name, m, p, off, editable) is Nothing,
{
}

/// Escape closes one thing at a time: a deletion that waits for consent first,
/// then the menu of a note, the menu of the spaces and the help.
pub proof fn escape_closes_one_thing(
    name: Seq<char>,
    m: Modifiers,
    p: Panels,
)
    ensures
        ({
            let action = key_action("Escape"@, name, m, p, false, false);
            &&& p.pending_delete ==> action is ForgetDelete
            &&& !p.pending_delete && p.context_menu ==> action is CloseContextMenu
            &&& !p.pending_delete && !p.context_menu && p.space_menu ==> action is CloseSpaceMenu
            &&& !p.pending_delete && !p.context_menu && !p.space_menu && p.help ==> action
                is CloseHelp
            &&& !p.pending_delete && !p.context_menu && !p.space_menu && !p.help ==> action
                is Nothing
        }),
{
}

/// On the board the selection is deleted without any other key, and grouped or
/// undone with the control or the meta key; the shift key turns each of these
/// into its opposite.
pub proof fn keys_act_on_the_board(
    key: Seq<char>,
    name: Seq<char>,
    m: Modifiers,
    p: Panels,
)
    requires
        key != "Escape"@,
    ensures
        ({
            let action = key_action(key, name, m, p, false, false);
            let with_control = m.ctrl || m.meta;
            &&& name == "delete"@ || name == "backspace"@ ==> action is DeleteSelection == (
            !with_control && !m.alt)
            &&& name == "g"@ ==> action is GroupSelection == (with_control && !m.shift)
            &&& name == "g"@ ==> action is UngroupSelection == (with_control && m.shift)
            &&& name == "z"@ ==> action is Undo == (with_control && !m.shift)
            &&& name == "z"@ ==> action is Redo == (with_control && m.shift)
            &&& action is DeleteSelection ==> name == "delete"@ || name == "backspace"@
            &&& action is GroupSelection || action is UngroupSelection ==> name == "g"@
            &&& action is Undo || action is Redo ==> name == "z"@
            &&& !(action is ForgetDelete || action is CloseContextMenu || action is CloseSpaceMenu
                || action is CloseHelp)
        }),
{
    reveal_strlit("delete");
    reveal_strlit("backspace");
    reveal_strlit("g");
    reveal_strlit("z");
    assert("delete"@.len() == 6);
    assert("backspace"@.len() == 9);
    assert("g"@[0] == 'g');
    assert("z"@[0] == 'z');
    assert("g"@.len() == 1 && "z"@.len() == 1);
}

/// A button is there where it would do something.
pub proof fn buttons_are_there_when_of_use(d: DeskView, i: int, k: int)
    ensures
        buttons_of(d).undo == (d.undo.len() > 0),
        buttons_of(d).redo == (d.redo.len() > 0),
        buttons_of(d).group == (d.selection.len() >= 2),
        buttons_of(d).delete == (d.selection.len() > 0),
        buttons_of(d).add_to_group == (d.selection.len() > 0 && d.groups.len() > 0),
        0 <= i < d.selection.len() && 0 <= k < d.notes.len() && d.notes[k].id == d.selection[i]
            && d.notes[k].group_id is Some ==> buttons_of(d).ungroup,
        (forall|j: int| 0 <= j < d.notes.len() ==> (#[trigger] d.notes[j]).group_id is None)
            ==> !buttons_of(d).ungroup,
        d.selection.len() == 0 ==> !buttons_of(d).ungroup,
{
    if 0 <= i < d.selection.len() && 0 <= k < d.notes.len() && d.notes[k].id == d.selection[i]
        && d.notes[k].group_id is Some {
        assert(is_grouped(d.notes, d.selection[i]));
    }
}

} // verus!
