//! Reading boards and workspaces that were stored by this or an older client.
//!
//! Whether a record may be read at all, where in it a workspace or a board may
//! hide, and what older formats mean, is decided here on its text; turning the
//! text of one object into a typed value is left to the caller, who hands the
//! typed values in.
use vstd::prelude::*;
use vstd::string::*;

use crate::adoption::single_space;
use crate::adoption::single_space_workspace;
use crate::identity::is_account_principal;
use crate::json::find_member;
use crate::json::json_layer;
use crate::json::layer_member;
use crate::json::list_of;
use crate::json::member_list;
use crate::json::number_member;
use crate::json::read_layer;
use crate::json::read_list;
use crate::json::read_number_member;
use crate::json::JsonLayer;
use crate::json::JsonLayerView;
use crate::lists::opt_view;
use crate::lists::views;
use crate::model::BoardData;
use crate::model::BoardView;
use crate::model::Note;
use crate::model::NoteStatus;
use crate::model::NoteView;
use crate::model::Space;
use crate::model::SpaceView;
use crate::model::WorkspaceData;
use crate::model::WorkspaceView;
use crate::text::chars_of;
use crate::text::has_prefix;
use crate::text::text_eq;
use crate::workspace::normalize_workspace;
use crate::workspace::normalized_workspace;
use crate::workspace::Surroundings;
use crate::workspace::SurroundingsView;

verus! {

/// Whether a record says that a newer client wrote it.
pub open spec fn is_future_schema(version: Option<u64>, current: u32) -> bool {
    version matches Some(v) && v > current
}

/// Whether a record was written by a newer client. Such a record is kept as it
/// is, and nothing is written over it.
pub fn mark_future_schema(raw: &str, current: u32) -> (r: bool)
    ensures
        r == is_future_schema(number_member(raw@, "schema_version"@), current),
{
    match read_number_member(raw, "schema_version") {
        Some(version) => version > current as u64,
        None => false,
    }
}

/// Whether a record can be read by this client: it is JSON, and no newer
/// client wrote it.
pub open spec fn is_readable(raw: Seq<char>, current: u32) -> bool {
    json_layer(raw) is Some && !is_future_schema(
        number_member(raw, "schema_version"@),
        current,
    )
}

/// Whether a record can be read by this client.
pub fn is_readable_record(raw: &str, current: u32) -> (r: bool)
    ensures
        r == is_readable(raw@, current),
{
    read_layer(raw).is_some() && !mark_future_schema(raw, current)
}

/// What a stored note says about its completion in the older format.
#[derive(Clone, Copy, Debug, PartialEq, Eq, Structural)]
pub struct SavedNote {
    pub has_status: bool,
    pub done: Option<bool>,
}

/// What a stored note says about its completion.
pub open spec fn saved_note(item: Seq<char>) -> SavedNote {
    SavedNote {
        has_status: layer_member(json_layer(item), "status"@) is Some,
        done: match layer_member(json_layer(item), "done"@) {
            Some(value) => match json_layer(value) {
                Some(JsonLayerView::Flag(b)) => Some(b),
                _ => None,
            },
            None => None,
        },
    }
}

/// The texts of the notes of a stored board: the list under `notes`, or the
/// record itself where it is a list.
pub open spec fn saved_note_texts(raw: Seq<char>) -> Seq<Seq<char>> {
    match member_list(json_layer(raw), "notes"@) {
        Some(items) => items,
        None => match list_of(json_layer(raw)) {
            Some(items) => items,
            None => Seq::empty(),
        },
    }
}

/// What the notes of a stored board say about their completion.
pub open spec fn saved_notes_of(raw: Seq<char>) -> Seq<SavedNote> {
    saved_note_texts(raw).map_values(|item: Seq<char>| saved_note(item))
}

/// A note that was stored as done before there were three states is done.
pub open spec fn completed_note(n: NoteView, saved: Seq<SavedNote>, i: int) -> NoteView {
    if i < saved.len() && !saved[i].has_status && saved[i].done == Some(true) {
        NoteView { status: NoteStatus::Done, ..n }
    } else {
        n
    }
}

/// A board with the completions of the older format.
pub open spec fn completed_board(b: BoardView, saved: Seq<SavedNote>) -> BoardView {
    BoardView { notes: b.notes.map(|i: int, n: NoteView| completed_note(n, saved, i)), ..b }
}

fn read_saved_note(item: &String) -> (r: SavedNote)
    ensures
        r == saved_note(item@),
{
    let layer = read_layer(item);
    SavedNote {
        has_status: find_member(&layer, "status").is_some(),
        done: match find_member(&layer, "done") {
            Some(value) => match read_layer(&value) {
                Some(JsonLayer::Flag(b)) => Some(b),
                _ => None,
            },
            None => None,
        },
    }
}

fn read_saved_list(items: &Vec<String>) -> (r: Vec<SavedNote>)
    ensures
        r@ == views(items@).map_values(|item: Seq<char>| saved_note(item)),
{
    let mut out: Vec<SavedNote> = Vec::new();
    let mut i: usize = 0;
    while i < items.len()
        invariant
            i <= items@.len(),
            out@.len() == i,
            forall|j: int| 0 <= j < i ==> #[trigger] out@[j] == saved_note(items@[j]@),
        decreases items@.len() - i,
    {
        out.push(read_saved_note(&items[i]));
        i = i + 1;
    }
    assert(out@ =~= views(items@).map_values(|item: Seq<char>| saved_note(item)));
    out
}

/// What the notes of a stored board say about their completion.
pub fn saved_notes(raw: &str) -> (r: Vec<SavedNote>)
    ensures
        r@ == saved_notes_of(raw@),
{
    let layer = read_layer(raw);
    if let Some(value) = find_member(&layer, "notes") {
        let inner = read_layer(&value);
        if let Some(items) = read_list(&inner) {
            return read_saved_list(items);
        }
    }
    if let Some(items) = read_list(&layer) {
        return read_saved_list(items);
    }
    let none: Vec<SavedNote> = Vec::new();
    assert(none@ =~= saved_notes_of(raw@));
    none
}

/// Gives the notes of a board the completions of the older format.
pub fn complete_legacy_notes(board: BoardData, saved: &Vec<SavedNote>) -> (r: BoardData)
    ensures
        r@ == completed_board(board@, saved@),
{
    let mut notes: Vec<Note> = Vec::new();
    let mut i: usize = 0;
    while i < board.notes.len()
        invariant
            i <= board.notes@.len(),
            notes@.len() == i,
            forall|j: int|
                0 <= j < i ==> (#[trigger] notes@[j])@ == completed_note(
                    board.notes@[j]@,
                    saved@,
                    j,
                ),
        decreases board.notes@.len() - i,
    {
        let mut n = board.notes[i].clone();
        if i < saved.len() && !saved[i].has_status && saved[i].done == Some(true) {
            n.status = NoteStatus::Done;
        }
        notes.push(n);
        i = i + 1;
    }
    let ghost expected = completed_board(board@, saved@);
    let r = BoardData {
        schema_version: board.schema_version,
        notes,
        groups: board.groups,
        tombstones: board.tombstones,
    };
    assert(r@.notes =~= expected.notes);
    r
}

/// The board of a record: what it decodes to as a board, or a board made of
/// the notes that it decodes to.
pub open spec fn decoded_board(
    board: Option<BoardView>,
    notes: Option<Seq<NoteView>>,
    schema: u32,
) -> Option<BoardView> {
    match (board, notes) {
        (Some(b), _) => Some(b),
        (None, Some(n)) => Some(
            BoardView {
                schema_version: schema,
                notes: n,
                groups: Seq::empty(),
                tombstones: Seq::empty(),
            },
        ),
        (None, None) => None,
    }
}

/// The view of an optional list.
pub open spec fn opt_views<T: View>(o: Option<Vec<T>>) -> Option<Seq<T::V>> {
    match o {
        Some(list) => Some(views(list@)),
        None => None,
    }
}

/// Chooses what a record decodes to.
pub fn choose_board(board: Option<BoardData>, notes: Option<Vec<Note>>, schema: u32) -> (r: Option<
    BoardData,
>)
    ensures
        opt_view(r) == decoded_board(opt_view(board), opt_views(notes), schema),
{
    match (board, notes) {
        (Some(b), _) => Some(b),
        (None, Some(n)) => {
            let r = BoardData {
                schema_version: schema,
                notes: n,
                groups: Vec::new(),
                tombstones: Vec::new(),
            };
            assert(r@.groups =~= Seq::empty());
            assert(r@.tombstones =~= Seq::empty());
            Some(r)
        },
        (None, None) => None,
    }
}

/// The board that a record stands for, given what it decodes to as a board and
/// as a list of notes.
pub open spec fn board_read(
    raw: Seq<char>,
    board: Option<BoardView>,
    notes: Option<Seq<NoteView>>,
    schema: u32,
) -> Option<BoardView> {
    if !is_readable(raw, schema) {
        None
    } else {
        match decoded_board(board, notes, schema) {
            Some(b) => Some(completed_board(b, saved_notes_of(raw))),
            None => None,
        }
    }
}

/// Reads a stored board. `board` and `notes` are what the text decodes to as a
/// board and as a list of notes.
pub fn parse_board(
    raw: &str,
    board: Option<BoardData>,
    notes: Option<Vec<Note>>,
    schema: u32,
) -> (r: Option<BoardData>)
    ensures
        opt_view(r) == board_read(raw@, opt_view(board), opt_views(notes), schema),
{
    if !is_readable_record(raw, schema) {
        return None;
    }
    match choose_board(board, notes, schema) {
        Some(b) => Some(complete_legacy_notes(b, &saved_notes(raw))),
        None => None,
    }
}

/// A board that was written by this client reads back as it was, with the
/// status and the due date of every note: where its record decodes to it, and
/// every note in the record names its status.
pub proof fn written_boards_read_back(
    raw: Seq<char>,
    board: BoardView,
    notes: Option<Seq<NoteView>>,
    schema: u32,
)
    requires
        is_readable(raw, schema),
        forall|i: int|
            0 <= i < saved_notes_of(raw).len() ==> (#[trigger] saved_notes_of(raw)[i]).has_status,
    ensures
        board_read(raw, Some(board), notes, schema) == Some(board),
        board_read(raw, Some(board), notes, schema) matches Some(read) && (read.notes.len()
            == board.notes.len() && forall|i: int|
            0 <= i < board.notes.len() ==> (#[trigger] read.notes[i]).status
                == board.notes[i].status && read.notes[i].due_date == board.notes[i].due_date),
{
    let saved = saved_notes_of(raw);
    assert forall|i: int| 0 <= i < board.notes.len() implies completed_note(
        board.notes[i],
        saved,
        i,
    ) == #[trigger] board.notes[i] by {
        if i < saved.len() {
            assert(saved[i].has_status);
        }
    }
    assert(completed_board(board, saved).notes =~= board.notes);
}

/// Whether a stored space is an object that does not say whether it syncs.
pub open spec fn lacks_sync_flag(item: Seq<char>) -> bool {
    (json_layer(item) matches Some(JsonLayerView::Object(_))) && layer_member(
        json_layer(item),
        "sync_enabled"@,
    ) is None
}

/// Which of the stored spaces do not say whether they sync.
pub open spec fn missing_sync_flags(raw: Seq<char>) -> Seq<bool> {
    match member_list(json_layer(raw), "spaces"@) {
        Some(items) => items.map_values(|item: Seq<char>| lacks_sync_flag(item)),
        None => Seq::empty(),
    }
}

/// Which of the stored spaces do not say whether they sync.
pub fn spaces_without_sync_flag(raw: &str) -> (r: Vec<bool>)
    ensures
        r@ == missing_sync_flags(raw@),
{
    let mut out: Vec<bool> = Vec::new();
    if let Some(value) = find_member(&read_layer(raw), "spaces") {
        let inner = read_layer(&value);
        if let Some(items) = read_list(&inner) {
            let mut i: usize = 0;
            while i < items.len()
                invariant
                    i <= items@.len(),
                    out@.len() == i,
                    forall|j: int|
                        0 <= j < i ==> #[trigger] out@[j] == lacks_sync_flag(items@[j]@),
                decreases items@.len() - i,
            {
                let layer = read_layer(&items[i]);
                let object = match &layer {
                    Some(JsonLayer::Object(_)) => true,
                    _ => false,
                };
                out.push(object && find_member(&layer, "sync_enabled").is_none());
                i = i + 1;
            }
            assert(out@ =~= missing_sync_flags(raw@));
            return out;
        }
    }
    assert(out@ =~= missing_sync_flags(raw@));
    out
}

/// A space with the sync flag that an older client implied.
pub open spec fn flagged_space(s: SpaceView, missing: Seq<bool>, i: int, implied: bool) -> SpaceView {
    if i < missing.len() && missing[i] {
        SpaceView { sync_enabled: implied, ..s }
    } else {
        s
    }
}

/// A workspace with the sync flags that an older client implied: the spaces of
/// an account were synced, those of a guest were not.
pub open spec fn flagged_workspace(
    w: WorkspaceView,
    missing: Seq<bool>,
    implied: bool,
) -> WorkspaceView {
    WorkspaceView {
        spaces: w.spaces.map(|i: int, s: SpaceView| flagged_space(s, missing, i, implied)),
        ..w
    }
}

/// Gives the spaces of a workspace the sync flags that an older client
/// implied.
pub fn imply_sync_flags(workspace: WorkspaceData, missing: &Vec<bool>, implied: bool) -> (r:
    WorkspaceData)
    ensures
        r@ == flagged_workspace(workspace@, missing@, implied),
{
    let mut spaces: Vec<Space> = Vec::new();
    let mut i: usize = 0;
    while i < workspace.spaces.len()
        invariant
            i <= workspace.spaces@.len(),
            spaces@.len() == i,
            forall|j: int|
                0 <= j < i ==> (#[trigger] spaces@[j])@ == flagged_space(
                    workspace.spaces@[j]@,
                    missing@,
                    j,
                    implied,
                ),
        decreases workspace.spaces@.len() - i,
    {
        let mut s = workspace.spaces[i].clone();
        if i < missing.len() && missing[i] {
            s.sync_enabled = implied;
        }
        spaces.push(s);
        i = i + 1;
    }
    let ghost expected = flagged_workspace(workspace@, missing@, implied);
    let r = WorkspaceData {
        schema_version: workspace.schema_version,
        device_id: workspace.device_id,
        tombstones: workspace.tombstones,
        spaces,
        active_space_id: workspace.active_space_id,
    };
    assert(r@.spaces =~= expected.spaces);
    r
}

/// The workspace that a readable record stands for, given what it decodes to.
pub open spec fn parsed_workspace(
    env: SurroundingsView,
    decoded: Option<WorkspaceView>,
    missing: Seq<bool>,
    principal: Seq<char>,
) -> Option<WorkspaceView> {
    match decoded {
        Some(w) => if w.spaces.len() == 0 {
            None
        } else {
            Some(
                normalized_workspace(
                    env,
                    flagged_workspace(w, missing, has_prefix(principal, "account:"@)),
                ),
            )
        },
        None => None,
    }
}

/// The workspace that a readable record stands for, given what it decodes to
/// and which of its spaces do not say whether they sync.
pub fn workspace_from_record(
    env: &Surroundings,
    decoded: Option<WorkspaceData>,
    missing: &Vec<bool>,
    principal: &str,
) -> (r: Option<WorkspaceData>)
    ensures
        opt_view(r) == parsed_workspace(env@, opt_view(decoded), missing@, principal@),
{
    match decoded {
        Some(w) => {
            if w.spaces.len() == 0 {
                None
            } else {
                let implied = is_account_principal(principal);
                Some(normalize_workspace(env, imply_sync_flags(w, missing, implied)))
            }
        },
        None => None,
    }
}

/// The workspace that a record stands for, given what it decodes to.
pub open spec fn workspace_read(
    env: SurroundingsView,
    raw: Seq<char>,
    decoded: Option<WorkspaceView>,
    principal: Seq<char>,
) -> Option<WorkspaceView> {
    if is_readable(raw, env.schema_version) {
        parsed_workspace(env, decoded, missing_sync_flags(raw), principal)
    } else {
        None
    }
}

/// Reads a stored workspace. `decoded` is what the text decodes to.
pub fn parse_workspace(
    env: &Surroundings,
    raw: &str,
    decoded: Option<WorkspaceData>,
    principal: &str,
) -> (r: Option<WorkspaceData>)
    ensures
        opt_view(r) == workspace_read(env@, raw@, opt_view(decoded), principal@),
{
    if !is_readable_record(raw, env.schema_version) {
        return None;
    }
    workspace_from_record(env, decoded, &spaces_without_sync_flag(raw), principal)
}

/// An object in a record of the browser's database that may be a workspace or a
/// board: its text, and the schema version that it names.
#[derive(Debug, PartialEq)]
pub struct Place {
    pub text: String,
    pub schema_version: Option<u64>,
}

/// A place, its text as characters.
pub struct PlaceView {
    pub text: Seq<char>,
    pub schema_version: Option<u64>,
}

impl View for Place {
    type V = PlaceView;

    open spec fn view(&self) -> PlaceView {
        PlaceView { text: self.text@, schema_version: self.schema_version }
    }
}

/// The object that a text is.
pub open spec fn place_of(text: Seq<char>) -> PlaceView {
    PlaceView { text, schema_version: number_member(text, "schema_version"@) }
}

/// The places in a JSON text, in the order in which they are looked at: in a
/// text those in what it holds, in a list those in its elements, and of an
/// object first itself, then those in four of its members. No deeper than
/// `depth` layers.
pub open spec fn places_in(text: Seq<char>, depth: nat) -> Seq<PlaceView>
    decreases depth, 0nat,
{
    if depth == 0 {
        Seq::empty()
    } else {
        let below = (depth - 1) as nat;
        match json_layer(text) {
            Some(JsonLayerView::Text(inner)) => places_in(inner, below),
            Some(JsonLayerView::List(items)) => places_in_list(items, below),
            Some(JsonLayerView::Object(_)) => seq![place_of(text)] + places_in_member(
                text,
                "value"@,
                below,
            ) + places_in_member(text, "data"@, below) + places_in_member(
                text,
                "workspace"@,
                below,
            ) + places_in_member(text, "board"@, below),
            _ => Seq::empty(),
        }
    }
}

/// The places in the elements of a list.
pub open spec fn places_in_list(items: Seq<Seq<char>>, depth: nat) -> Seq<PlaceView>
    decreases depth, items.len() + 1,
{
    if items.len() == 0 {
        Seq::empty()
    } else {
        places_in_list(items.drop_last(), depth) + places_in(items.last(), depth)
    }
}

/// The places in a member of an object.
pub open spec fn places_in_member(text: Seq<char>, key: Seq<char>, depth: nat) -> Seq<PlaceView>
    decreases depth, 1nat,
{
    match layer_member(json_layer(text), key) {
        Some(value) => places_in(value, depth),
        None => Seq::empty(),
    }
}

/// The places in a record. No text has more layers than characters, so none is
/// left out.
pub open spec fn places_of(raw: Seq<char>) -> Seq<PlaceView> {
    places_in(raw, raw.len())
}

fn search_list(items: &Vec<String>, depth: usize) -> (r: Vec<Place>)
    ensures
        views(r@) == places_in_list(views(items@), depth as nat),
    decreases depth, 1nat,
{
    let ghost all = views(items@);
    let mut out: Vec<Place> = Vec::new();
    let mut i: usize = 0;
    assert(views(out@) =~= places_in_list(all.take(0), depth as nat));
    while i < items.len()
        invariant
            all == views(items@),
            i <= items@.len(),
            views(out@) == places_in_list(all.take(i as int), depth as nat),
        decreases items@.len() - i,
    {
        assert(all.take(i + 1).drop_last() =~= all.take(i as int));
        let ghost before = out@;
        let mut found = search_places(&items[i], depth);
        let ghost more = found@;
        out.append(&mut found);
        assert(views(out@) =~= views(before) + views(more));
        i = i + 1;
    }
    assert(all.take(i as int) =~= all);
    out
}

fn search_member(value: Option<String>, depth: usize) -> (r: Vec<Place>)
    ensures
        views(r@) == (match value {
            Some(text) => places_in(text@, depth as nat),
            None => Seq::empty(),
        }),
    decreases depth, 1nat,
{
    match value {
        Some(text) => search_places(&text, depth),
        None => {
            let none: Vec<Place> = Vec::new();
            assert(views(none@) =~= Seq::empty());
            none
        },
    }
}

/// The places in a JSON text, no deeper than `depth` layers.
pub fn search_places(raw: &str, depth: usize) -> (r: Vec<Place>)
    ensures
        views(r@) == places_in(raw@, depth as nat),
    decreases depth, 0nat,
{
    let mut out: Vec<Place> = Vec::new();
    assert(views(out@) =~= Seq::empty());
    if depth == 0 {
        return out;
    }
    let layer = read_layer(raw);
    match &layer {
        Some(JsonLayer::Text(inner)) => search_places(inner, depth - 1),
        Some(JsonLayer::List(items)) => search_list(items, depth - 1),
        Some(JsonLayer::Object(_)) => {
            out.push(
                Place {
                    text: raw.to_owned(),
                    schema_version: read_number_member(raw, "schema_version"),
                },
            );
            let mut value = search_member(find_member(&layer, "value"), depth - 1);
            let mut data = search_member(find_member(&layer, "data"), depth - 1);
            let mut workspace = search_member(find_member(&layer, "workspace"), depth - 1);
            let mut board = search_member(find_member(&layer, "board"), depth - 1);
            let ghost below = (depth - 1) as nat;
            assert(views(value@) == places_in_member(raw@, "value"@, below));
            assert(views(data@) == places_in_member(raw@, "data"@, below));
            assert(views(workspace@) == places_in_member(raw@, "workspace"@, below));
            assert(views(board@) == places_in_member(raw@, "board"@, below));
            let ghost expected = seq![place_of(raw@)] + views(value@) + views(data@) + views(
                workspace@,
            ) + views(board@);
            assert(expected == places_in(raw@, depth as nat));
            out.append(&mut value);
            out.append(&mut data);
            out.append(&mut workspace);
            out.append(&mut board);
            assert(views(out@) =~= expected);
            out
        },
        _ => out,
    }
}

/// The places in a record.
pub fn record_places(raw: &str) -> (r: Vec<Place>)
    ensures
        views(r@) == places_of(raw@),
{
    search_places(raw, chars_of(raw).len())
}

/// What a place decodes to.
#[derive(Debug, PartialEq)]
pub struct Decoded {
    pub workspace: Option<WorkspaceData>,
    pub board: Option<BoardData>,
}

/// What a place decodes to, as a view.
pub struct DecodedView {
    pub workspace: Option<WorkspaceView>,
    pub board: Option<BoardView>,
}

impl View for Decoded {
    type V = DecodedView;

    open spec fn view(&self) -> DecodedView {
        DecodedView { workspace: opt_view(self.workspace), board: opt_view(self.board) }
    }
}

/// What was found: a workspace, and whether a record of a newer client was met
/// on the way.
#[derive(Debug, PartialEq)]
pub struct Found {
    pub workspace: Option<WorkspaceData>,
    pub blocked: bool,
}

/// What was found, as a view.
pub struct FoundView {
    pub workspace: Option<WorkspaceView>,
    pub blocked: bool,
}

impl View for Found {
    type V = FoundView;

    open spec fn view(&self) -> FoundView {
        FoundView { workspace: opt_view(self.workspace), blocked: self.blocked }
    }
}

/// Whether a board has anything on it.
pub open spec fn board_in_use(b: BoardView) -> bool {
    b.notes.len() > 0 || b.groups.len() > 0
}

/// What a place stands for: a workspace with spaces, or a board with something
/// on it.
pub open spec fn own_workspace(
    env: SurroundingsView,
    decoded: DecodedView,
    id: u64,
    stable_id: Seq<char>,
) -> Option<WorkspaceView> {
    if decoded.workspace matches Some(w) && w.spaces.len() > 0 {
        Some(normalized_workspace(env, decoded.workspace->0))
    } else if decoded.board matches Some(b) && board_in_use(b) {
        Some(single_space_workspace(env, id, stable_id, decoded.board->0, 0))
    } else {
        None
    }
}

/// What the first place from position `i` on stands for that stands for
/// anything, and whether a newer client wrote it or a place before it. `decoded`
/// says of each place what it decodes to.
pub open spec fn first_find(
    env: SurroundingsView,
    places: Seq<PlaceView>,
    decoded: Seq<DecodedView>,
    id: u64,
    stable_id: Seq<char>,
    i: int,
) -> FoundView
    decreases places.len() - i,
{
    if i < 0 || i >= places.len() {
        FoundView { workspace: None, blocked: false }
    } else {
        let blocked = is_future_schema(places[i].schema_version, env.schema_version);
        let own = if i < decoded.len() {
            own_workspace(env, decoded[i], id, stable_id)
        } else {
            None
        };
        if own is Some {
            FoundView { workspace: own, blocked }
        } else {
            let rest = first_find(env, places, decoded, id, stable_id, i + 1);
            FoundView { workspace: rest.workspace, blocked: blocked || rest.blocked }
        }
    }
}

/// Searches a record for a workspace, or for a board to make one of with the
/// given space id and identity. `decoded` says of each of the record's places
/// what it decodes to.
pub fn parse_indexed_db_json(
    env: &Surroundings,
    raw: &str,
    decoded: &Vec<Decoded>,
    id: u64,
    stable_id: &str,
) -> (r: Found)
    ensures
        r@ == first_find(env@, places_of(raw@), views(decoded@), id, stable_id@, 0),
{
    let places = record_places(raw);
    let ghost all = views(places@);
    let ghost known = views(decoded@);
    let mut blocked = false;
    let mut i: usize = 0;
    while i < places.len()
        invariant
            all == views(places@),
            all == places_of(raw@),
            known == views(decoded@),
            i <= places@.len(),
            ({
                let rest = first_find(env@, all, known, id, stable_id@, i as int);
                first_find(env@, all, known, id, stable_id@, 0) == (FoundView {
                    workspace: rest.workspace,
                    blocked: blocked || rest.blocked,
                })
            }),
        decreases places@.len() - i,
    {
        assert(all[i as int] == places@[i as int]@);
        assert(i < known.len() ==> known[i as int] == decoded@[i as int]@);
        let newer = match places[i].schema_version {
            Some(version) => version > env.schema_version as u64,
            None => false,
        };
        blocked = blocked || newer;
        if i < decoded.len() {
            if let Some(w) = &decoded[i].workspace {
                if w.spaces.len() > 0 {
                    return Found { workspace: Some(normalize_workspace(env, w.clone())), blocked };
                }
            }
            if let Some(b) = &decoded[i].board {
                if b.notes.len() > 0 || b.groups.len() > 0 {
                    return Found {
                        workspace: Some(single_space(env, id, stable_id, b.clone(), 0)),
                        blocked,
                    };
                }
            }
        }
        i = i + 1;
    }
    Found { workspace: None, blocked }
}

/// What a record of the database decodes to: as a workspace, as a board, and as
/// a list of notes.
#[derive(Debug, PartialEq)]
pub struct DecodedRecord {
    pub workspace: Option<WorkspaceData>,
    pub board: Option<BoardData>,
    pub notes: Option<Vec<Note>>,
}

/// What a record decodes to, as a view.
pub struct DecodedRecordView {
    pub workspace: Option<WorkspaceView>,
    pub board: Option<BoardView>,
    pub notes: Option<Seq<NoteView>>,
}

impl View for DecodedRecord {
    type V = DecodedRecordView;

    open spec fn view(&self) -> DecodedRecordView {
        DecodedRecordView {
            workspace: opt_view(self.workspace),
            board: opt_view(self.board),
            notes: opt_views(self.notes),
        }
    }
}

/// What a record of the database gives: the workspace that it is, or one around
/// the board that it is, or else what a search in it finds. Nothing may be
/// written where a newer client wrote the record, or where the search met one
/// of its records.
pub open spec fn database_find(
    env: SurroundingsView,
    raw: Seq<char>,
    record: DecodedRecordView,
    places: Seq<DecodedView>,
    principal: Seq<char>,
    id: u64,
    stable_id: Seq<char>,
) -> FoundView {
    let newer = is_future_schema(number_member(raw, "schema_version"@), env.schema_version);
    let workspace = workspace_read(env, raw, record.workspace, principal);
    let board = board_read(raw, record.board, record.notes, env.schema_version);
    if workspace is Some {
        FoundView { workspace, blocked: newer }
    } else if board matches Some(b) && board_in_use(b) {
        FoundView {
            workspace: Some(single_space_workspace(env, id, stable_id, board->0, 0)),
            blocked: newer,
        }
    } else {
        let found = first_find(env, places_of(raw), places, id, stable_id, 0);
        FoundView { workspace: found.workspace, blocked: newer || found.blocked }
    }
}

/// Reads a record of the database. `record` is what its text decodes to, and
/// `places` what each of its places decodes to.
pub fn parse_indexed_db_value(
    env: &Surroundings,
    raw: &str,
    record: DecodedRecord,
    places: &Vec<Decoded>,
    principal: &str,
    id: u64,
    stable_id: &str,
) -> (r: Found)
    ensures
        r@ == database_find(
            env@,
            raw@,
            record@,
            views(places@),
            principal@,
            id,
            stable_id@,
        ),
{
    let newer = mark_future_schema(raw, env.schema_version);
    let workspace = parse_workspace(env, raw, record.workspace, principal);
    if workspace.is_some() {
        return Found { workspace, blocked: newer };
    }
    let board = parse_board(raw, record.board, record.notes, env.schema_version);
    if let Some(b) = board {
        if b.notes.len() > 0 || b.groups.len() > 0 {
            return Found {
                workspace: Some(single_space(env, id, stable_id, b, 0)),
                blocked: newer,
            };
        }
    }
    let found = parse_indexed_db_json(env, raw, places, id, stable_id);
    Found { workspace: found.workspace, blocked: newer || found.blocked }
}

/// The workspace that a device starts with: the stored one, or a first space
/// around a board.
pub fn load_workspace(
    env: &Surroundings,
    stored: Option<WorkspaceData>,
    id: u64,
    stable_id: &str,
    board: BoardData,
) -> (r: WorkspaceData)
    ensures
        r@ == normalized_workspace(
            env@,
            match stored {
                Some(w) => w@,
                None => single_space_workspace(env@, id, stable_id@, board@, id),
            },
        ),
{
    match stored {
        Some(w) => normalize_workspace(env, w),
        None => normalize_workspace(env, single_space(env, id, stable_id, board, id)),
    }
}

/// Whether records that older clients kept outside the database may be read:
/// where the browser has storage and does not say that they were taken over.
pub fn can_read_legacy(has_storage: bool, migrated: &Option<String>) -> (r: bool)
    ensures
        r == (has_storage && opt_view(*migrated) != Some("1"@)),
{
    has_storage && (match migrated {
        Some(value) => !text_eq(value, "1"),
        None => true,
    })
}

/// Which legacy board a device starts with.
#[derive(Clone, Copy, Debug, PartialEq, Eq, Structural)]
pub enum LegacyBoard {
    /// The one of the second format.
    Current,
    /// The one of the first format, whose positions have to be converted.
    Oldest,
    /// None: an empty board.
    Empty,
}

/// Which legacy board a device starts with, given which of them can be read.
pub fn choose_legacy_board(may_read: bool, current: bool, oldest: bool) -> (r: LegacyBoard)
    ensures
        r == (if may_read && current {
            LegacyBoard::Current
        } else if may_read && oldest {
            LegacyBoard::Oldest
        } else {
            LegacyBoard::Empty
        }),
{
    if may_read && current {
        LegacyBoard::Current
    } else if may_read && oldest {
        LegacyBoard::Oldest
    } else {
        LegacyBoard::Empty
    }
}

/// A record of a newer client is never read as a workspace or a board of this
/// one.
pub proof fn newer_records_are_left_alone(raw: Seq<char>, current: u32, version: u64)
    requires
        number_member(raw, "schema_version"@) == Some(version),
        version > current,
    ensures
        !is_readable(raw, current),
{
}

/// A record is newer than this client where it says a larger version; nothing
/// of such a record is read.
pub proof fn newer_records_are_not_read(
    env: SurroundingsView,
    raw: Seq<char>,
    version: u64,
    workspace: Option<WorkspaceView>,
    board: Option<BoardView>,
    notes: Option<Seq<NoteView>>,
    principal: Seq<char>,
    current: u32,
)
    ensures
        is_future_schema(Some(version), current) == (version > current),
        !is_future_schema(None, current),
        number_member(raw, "schema_version"@) == Some(version) && version > env.schema_version
            ==> board_read(raw, board, notes, env.schema_version) is None && workspace_read(
            env,
            raw,
            workspace,
            principal,
        ) is None,
        json_layer(raw) is None ==> board_read(raw, board, notes, env.schema_version) is None
            && workspace_read(env, raw, workspace, principal) is None,
{
}

/// Reading a board changes nothing on it but the status of notes that were
/// written without one: those that were done are done.
pub proof fn notes_of_older_boards_stay_done(
    raw: Seq<char>,
    board: BoardView,
    notes: Option<Seq<NoteView>>,
    schema: u32,
    i: int,
)
    requires
        is_readable(raw, schema),
        0 <= i < board.notes.len(),
    ensures
        ({
            let saved = saved_notes_of(raw);
            let was_done = i < saved.len() && !saved[i].has_status && saved[i].done == Some(true);
            &&& board_read(raw, Some(board), notes, schema) is Some
            &&& board_read(raw, Some(board), notes, schema)->0.groups == board.groups
            &&& board_read(raw, Some(board), notes, schema)->0.tombstones == board.tombstones
            &&& board_read(raw, Some(board), notes, schema)->0.schema_version
                == board.schema_version
            &&& board_read(raw, Some(board), notes, schema)->0.notes.len() == board.notes.len()
            &&& !was_done ==> board_read(raw, Some(board), notes, schema)->0.notes[i]
                == board.notes[i]
            &&& was_done ==> board_read(raw, Some(board), notes, schema)->0.notes[i] == (NoteView {
                status: NoteStatus::Done,
                ..board.notes[i]
            })
        }),
{
}

/// A list of notes alone is a board with those notes and nothing else; where
/// there is a board, the list does not count.
pub proof fn bare_notes_make_a_board(
    board: BoardView,
    notes: Seq<NoteView>,
    other: Option<Seq<NoteView>>,
    schema: u32,
)
    ensures
        decoded_board(Some(board), other, schema) == Some(board),
        decoded_board(None, None, schema) is None,
        decoded_board(None, Some(notes), schema) matches Some(b) && (b.notes == notes
            && b.groups.len() == 0 && b.tombstones.len() == 0 && b.schema_version == schema),
{
}

/// The notes of a record are those under its own key, or the record itself where
/// it is a list; of each is known whether it has a status and whether it is done.
pub proof fn saved_notes_stand_in_the_record(raw: Seq<char>, items: Seq<Seq<char>>, i: int)
    requires
        member_list(json_layer(raw), "notes"@) == Some(items) || (member_list(
            json_layer(raw),
            "notes"@,
        ) is None && json_layer(raw) == Some(JsonLayerView::List(items))),
        0 <= i < items.len(),
    ensures
        saved_notes_of(raw).len() == items.len(),
        saved_notes_of(raw)[i].has_status == layer_member(json_layer(items[i]), "status"@) is Some,
        forall|b: bool|
            (saved_notes_of(raw)[i].done == Some(b)) == (#[trigger] flag_in(items[i], "done"@, b)),
{
}

/// Whether a member of an object is this truth value.
pub open spec fn flag_in(text: Seq<char>, key: Seq<char>, b: bool) -> bool {
    layer_member(json_layer(text), key) matches Some(value) && json_layer(value) == Some(
        JsonLayerView::Flag(b),
    )
}

/// Spaces that were written without a sync flag get the one that the principal
/// implies; the others keep their own, and nothing else of a space changes.
pub proof fn missing_flags_are_implied(
    w: WorkspaceView,
    missing: Seq<bool>,
    implied: bool,
    i: int,
)
    requires
        0 <= i < w.spaces.len(),
    ensures
        ({
            let after = flagged_workspace(w, missing, implied);
            &&& after.spaces.len() == w.spaces.len()
            &&& after.active_space_id == w.active_space_id
            &&& after.tombstones == w.tombstones
            &&& after.spaces[i] == (SpaceView {
                sync_enabled: after.spaces[i].sync_enabled,
                ..w.spaces[i]
            })
            &&& i < missing.len() && missing[i] ==> after.spaces[i].sync_enabled == implied
            &&& !(i < missing.len() && missing[i]) ==> after.spaces[i].sync_enabled
                == w.spaces[i].sync_enabled
        }),
{
}

/// A flag is missing where a space is an object without a member for it.
pub proof fn flags_are_missing_where_no_member_is(raw: Seq<char>, items: Seq<Seq<char>>, i: int)
    requires
        member_list(json_layer(raw), "spaces"@) == Some(items),
        0 <= i < items.len(),
    ensures
        missing_sync_flags(raw).len() == items.len(),
        missing_sync_flags(raw)[i] == ((json_layer(items[i]) matches Some(JsonLayerView::Object(_)))
            && layer_member(json_layer(items[i]), "sync_enabled"@) is None),
{
}

/// A workspace is read where a readable record holds one with spaces: it has the
/// spaces of the record, normalized, with the flags that an account implies.
pub proof fn workspaces_with_spaces_are_read(
    env: SurroundingsView,
    raw: Seq<char>,
    w: WorkspaceView,
    principal: Seq<char>,
)
    ensures
        workspace_read(env, raw, None, principal) is None,
        w.spaces.len() == 0 ==> workspace_read(env, raw, Some(w), principal) is None,
        w.spaces.len() > 0 && is_readable(raw, env.schema_version) ==> workspace_read(
            env,
            raw,
            Some(w),
            principal,
        ) == Some(
            normalized_workspace(
                env,
                flagged_workspace(
                    w,
                    missing_sync_flags(raw),
                    has_prefix(principal, "account:"@),
                ),
            ),
        ),
{
}

/// An object is itself the first place to look at; a text or a list is none,
/// and neither is anything too deep.
pub proof fn objects_come_before_their_members(text: Seq<char>, depth: nat)
    ensures
        depth > 0 && (json_layer(text) matches Some(JsonLayerView::Object(_))) ==> places_in(
            text,
            depth,
        ).len() > 0 && places_in(text, depth)[0].text == text && places_in(
            text,
            depth,
        )[0].schema_version == number_member(text, "schema_version"@),
        depth == 0 ==> places_in(text, depth).len() == 0,
        json_layer(text) is None ==> places_in(text, depth).len() == 0,
{
}

/// A search goes into every text, into every item of a list and into the four
/// members of an object that can hold a workspace or a board.
pub proof fn searches_reach_what_is_inside(
    text: Seq<char>,
    depth: nat,
    place: PlaceView,
    key: Seq<char>,
    k: int,
)
    ensures
        json_layer(text) matches Some(JsonLayerView::Text(inner)) ==> places_in(text, depth + 1)
            .contains(place) == places_in(inner, depth).contains(place),
        json_layer(text) matches Some(JsonLayerView::List(items)) ==> (0 <= k < items.len()
            && places_in(items[k], depth).contains(place) ==> places_in(text, depth + 1).contains(
            place,
        )),
        (json_layer(text) matches Some(JsonLayerView::Object(_))) && (key == "value"@ || key
            == "data"@ || key == "workspace"@ || key == "board"@) && layer_member(
            json_layer(text),
            key,
        ) is Some && places_in(layer_member(json_layer(text), key)->0, depth).contains(place)
            ==> places_in(text, depth + 1).contains(place),
{
    match json_layer(text) {
        Some(JsonLayerView::List(items)) => {
            if 0 <= k < items.len() && places_in(items[k], depth).contains(place) {
                list_places_hold(items, depth, place, k);
            }
        },
        Some(JsonLayerView::Object(_)) => {
            if (key == "value"@ || key == "data"@ || key == "workspace"@ || key == "board"@)
                && layer_member(json_layer(text), key) is Some && places_in(
                layer_member(json_layer(text), key)->0,
                depth,
            ).contains(place) {
                let a = seq![place_of(text)];
                let v = places_in_member(text, "value"@, depth);
                let d = places_in_member(text, "data"@, depth);
                let w = places_in_member(text, "workspace"@, depth);
                let b = places_in_member(text, "board"@, depth);
                assert(places_in(text, depth + 1) == a + v + d + w + b);
                let all = a + v + d + w + b;
                if key == "value"@ {
                    assert(all[a.len() + v.index_of(place)] == place);
                } else if key == "data"@ {
                    assert(all[a.len() + v.len() + d.index_of(place)] == place);
                } else if key == "workspace"@ {
                    assert(all[a.len() + v.len() + d.len() + w.index_of(place)] == place);
                } else {
                    assert(all[a.len() + v.len() + d.len() + w.len() + b.index_of(place)] == place);
                }
            }
        },
        _ => {},
    }
}

proof fn list_places_hold(items: Seq<Seq<char>>, depth: nat, place: PlaceView, k: int)
    requires
        0 <= k < items.len(),
        places_in(items[k], depth).contains(place),
    ensures
        places_in_list(items, depth).contains(place),
    decreases items.len(),
{
    let before = places_in_list(items.drop_last(), depth);
    let last = places_in(items.last(), depth);
    if k == items.len() - 1 {
        assert((before + last)[before.len() + last.index_of(place)] == place);
    } else {
        list_places_hold(items.drop_last(), depth, place, k);
        assert((before + last)[before.index_of(place)] == place);
    }
}

/// The first place that holds something of use is taken, and what stands behind
/// it does not count; storage is blocked where a newer record was passed.
pub proof fn the_first_find_is_taken(
    env: SurroundingsView,
    places: Seq<PlaceView>,
    decoded: Seq<DecodedView>,
    id: u64,
    stable_id: Seq<char>,
    i: int,
    k: int,
)
    requires
        decoded.len() == places.len(),
        0 <= i <= k <= places.len(),
        forall|j: int|
            i <= j < k ==> own_workspace(env, #[trigger] decoded[j], id, stable_id) is None,
        k < places.len() ==> own_workspace(env, decoded[k], id, stable_id) is Some,
    ensures
        ({
            let found = first_find(env, places, decoded, id, stable_id, i);
            &&& k < places.len() ==> found.workspace == own_workspace(
                env,
                decoded[k],
                id,
                stable_id,
            )
            &&& k == places.len() ==> found.workspace is None
            &&& found.blocked == exists|j: int|
                i <= j <= k && j < places.len() && is_future_schema(
                    (#[trigger] places[j]).schema_version,
                    env.schema_version,
                )
        }),
    decreases places.len() - i,
{
    let found = first_find(env, places, decoded, id, stable_id, i);
    if i < k {
        the_first_find_is_taken(env, places, decoded, id, stable_id, i + 1, k);
        let rest = first_find(env, places, decoded, id, stable_id, i + 1);
        assert(own_workspace(env, decoded[i], id, stable_id) is None);
        if rest.blocked {
            let j = choose|j: int|
                i + 1 <= j <= k && j < places.len() && is_future_schema(
                    (#[trigger] places[j]).schema_version,
                    env.schema_version,
                );
            assert(is_future_schema(places[j].schema_version, env.schema_version));
        }
        if exists|j: int|
            i <= j <= k && j < places.len() && is_future_schema(
                (#[trigger] places[j]).schema_version,
                env.schema_version,
            ) {
            let j = choose|j: int|
                i <= j <= k && j < places.len() && is_future_schema(
                    (#[trigger] places[j]).schema_version,
                    env.schema_version,
                );
            if j > i {
                assert(is_future_schema(places[j].schema_version, env.schema_version));
            }
        }
    } else if i < places.len() {
        assert(is_future_schema(places[i].schema_version, env.schema_version) == found.blocked);
    }
}

/// A workspace with spaces is of use, and after it a board with something on
/// it, in a space of its own; an empty board is none.
pub proof fn workspaces_come_before_boards(
    env: SurroundingsView,
    decoded: DecodedView,
    id: u64,
    stable_id: Seq<char>,
)
    ensures
        decoded.workspace matches Some(w) ==> (w.spaces.len() > 0 ==> own_workspace(
            env,
            decoded,
            id,
            stable_id,
        ) == Some(normalized_workspace(env, w))),
        !(decoded.workspace is Some && decoded.workspace->0.spaces.len() > 0) ==> {
            let own = own_workspace(env, decoded, id, stable_id);
            &&& own is Some == (decoded.board is Some && (decoded.board->0.notes.len() > 0
                || decoded.board->0.groups.len() > 0))
            &&& own is Some ==> own == Some(
                single_space_workspace(env, id, stable_id, decoded.board->0, 0),
            )
        },
{
}

/// A record of the database is read as a workspace first, then as a board that
/// has something on it; only then is it searched. It blocks where it is newer,
/// or where the search passed something newer.
pub proof fn records_are_read_before_they_are_searched(
    env: SurroundingsView,
    raw: Seq<char>,
    record: DecodedRecordView,
    places: Seq<DecodedView>,
    principal: Seq<char>,
    id: u64,
    stable_id: Seq<char>,
)
    ensures
        ({
            let found = database_find(env, raw, record, places, principal, id, stable_id);
            let workspace = workspace_read(env, raw, record.workspace, principal);
            let board = board_read(raw, record.board, record.notes, env.schema_version);
            let searched = first_find(env, places_of(raw), places, id, stable_id, 0);
            let newer = number_member(raw, "schema_version"@) matches Some(v) && v
                > env.schema_version;
            &&& workspace is Some ==> found.workspace == workspace
            &&& workspace is None && board is Some && (board->0.notes.len() > 0
                || board->0.groups.len() > 0) ==> found.workspace == Some(
                single_space_workspace(env, id, stable_id, board->0, 0),
            )
            &&& workspace is None && (board is None || (board->0.notes.len() == 0
                && board->0.groups.len() == 0)) ==> found.workspace == searched.workspace
                && found.blocked == (newer || searched.blocked)
            &&& newer ==> found.blocked
            &&& found.workspace is Some && (workspace is Some || (board is Some && (
            board->0.notes.len() > 0 || board->0.groups.len() > 0))) ==> found.blocked == newer
        }),
{
}

} // verus!
