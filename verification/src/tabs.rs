//! What the tabs of one browser tell each other.
//!
//! A tab listens to messages of its own principal that other tabs sent. It
//! renders what they did, and keeps what it cannot render yet in a bounded
//! queue.
use vstd::prelude::*;
use vstd::string::*;

use crate::lists::opt_view;
use crate::lists::views;
use crate::lists::views_push;
use crate::metadata::add_space_tombstone;
use crate::metadata::key_less;
use crate::metadata::operation_text;
use crate::metadata::remove_space_tombstones;
use crate::metadata::without_space_tombstones;
use crate::metadata::RemoteMetadataView;
use crate::model::blank_board;
use crate::model::clone_groups;
use crate::model::clone_notes;
use crate::model::empty_board;
use crate::model::Space;
use crate::model::SpaceView;
use crate::model::TombstoneKind;
use crate::model::TombstoneView;
use crate::model::WorkspaceData;
use crate::model::WorkspaceView;
use crate::persist::has_tombstone;
use crate::persist::workspace_of;
use crate::persist::workspace_snapshot;
use crate::spaces::position_of_any_open_space;
use crate::spaces::with_space;
use crate::spaces::with_space_tombstone;
use crate::spaces::Shelf;
use crate::spaces::ShelfView;
use crate::spaces::SpaceMetadataOperation;
use crate::text::blank;
use crate::text::is_blank;
use crate::text::text_before;
use crate::text::text_eq;
use crate::text::trim;
use crate::text::trimmed;
use crate::workspace::first_space;
use crate::workspace::first_space_is_least;
use crate::workspace::is_first_of;
use crate::workspace::is_open;
use crate::workspace::position_of_space;
use crate::workspace::replace_space;
use crate::workspace::resolve_id;
use crate::workspace::resolved_id;
use crate::workspace::Surroundings;
use crate::workspace::SurroundingsView;

verus! {

/// The version of the messages between tabs.
pub const LOCAL_BROADCAST_PROTOCOL_VERSION: u32 = 1;

/// How many messages wait at most.
pub const LONGEST_TAB_QUEUE: usize = 256;

/// A message of a tab.
#[derive(Debug, PartialEq)]
pub struct LocalSyncUpdate {
    pub protocol_version: u32,
    pub kind: String,
    pub principal: String,
    pub space_id: u64,
    pub origin_device_id: Option<String>,
    pub origin_tab_id: Option<String>,
    pub local_generation: u64,
    pub update: Option<String>,
    pub operation: Option<String>,
    pub operation_id: Option<String>,
    pub name: Option<String>,
    pub stable_space_id: Option<String>,
    pub sync_enabled: Option<bool>,
    pub created_at: u64,
}

/// A message of a tab, its texts as characters.
pub struct TabMessageView {
    pub protocol_version: u32,
    pub kind: Seq<char>,
    pub principal: Seq<char>,
    pub space_id: u64,
    pub origin_device_id: Option<Seq<char>>,
    pub origin_tab_id: Option<Seq<char>>,
    pub local_generation: u64,
    pub update: Option<Seq<char>>,
    pub operation: Option<Seq<char>>,
    pub operation_id: Option<Seq<char>>,
    pub name: Option<Seq<char>>,
    pub stable_space_id: Option<Seq<char>>,
    pub sync_enabled: Option<bool>,
    pub created_at: u64,
}

impl View for LocalSyncUpdate {
    type V = TabMessageView;

    open spec fn view(&self) -> TabMessageView {
        TabMessageView {
            protocol_version: self.protocol_version,
            kind: self.kind@,
            principal: self.principal@,
            space_id: self.space_id,
            origin_device_id: opt_view(self.origin_device_id),
            origin_tab_id: opt_view(self.origin_tab_id),
            local_generation: self.local_generation,
            update: opt_view(self.update),
            operation: opt_view(self.operation),
            operation_id: opt_view(self.operation_id),
            name: opt_view(self.name),
            stable_space_id: opt_view(self.stable_space_id),
            sync_enabled: self.sync_enabled,
            created_at: self.created_at,
        }
    }
}

/// The kind of a message that names none.
pub fn default_local_sync_kind() -> (r: &'static str)
    ensures
        r@ == "document"@,
{
    "document"
}

/// Where a message goes.
#[derive(Clone, Copy, Debug, PartialEq, Eq, Structural)]
pub enum TabRoute {
    /// It is not for this tab.
    Ignored,
    /// It waits until what is stored was read.
    Held,
    Metadata,
    NewSpace,
    SpaceSettings,
    Document,
}

/// Whether a message is for a tab: another tab sent it, in this version, for
/// the same principal.
pub open spec fn is_for_tab(m: TabMessageView, tab: Seq<char>, principal: Seq<char>) -> bool {
    m.origin_tab_id != Some(tab) && m.protocol_version == LOCAL_BROADCAST_PROTOCOL_VERSION
        && m.principal == principal
}

/// Where a message goes.
pub open spec fn route_of(
    m: TabMessageView,
    tab: Seq<char>,
    principal: Seq<char>,
    hydrated: bool,
) -> TabRoute {
    if !is_for_tab(m, tab, principal) {
        TabRoute::Ignored
    } else if !hydrated {
        TabRoute::Held
    } else if m.kind == "metadata"@ {
        TabRoute::Metadata
    } else if m.kind == "space"@ {
        TabRoute::NewSpace
    } else if m.kind == "space-settings"@ {
        TabRoute::SpaceSettings
    } else {
        TabRoute::Document
    }
}

/// Whether a tab sent a message itself.
pub fn is_own_local_tab_message(message: &LocalSyncUpdate, tab: &str) -> (r: bool)
    ensures
        r == (message@.origin_tab_id == Some(tab@)),
{
    match &message.origin_tab_id {
        Some(origin) => text_eq(origin, tab),
        None => false,
    }
}

/// Where a message goes.
pub fn route_tab_message(message: &LocalSyncUpdate, tab: &str, principal: &str, hydrated: bool) -> (r:
    TabRoute)
    ensures
        r == route_of(message@, tab@, principal@, hydrated),
{
    if is_own_local_tab_message(message, tab) || message.protocol_version
        != LOCAL_BROADCAST_PROTOCOL_VERSION || !text_eq(&message.principal, principal) {
        return TabRoute::Ignored;
    }
    if !hydrated {
        return TabRoute::Held;
    }
    if text_eq(&message.kind, "metadata") {
        TabRoute::Metadata
    } else if text_eq(&message.kind, "space") {
        TabRoute::NewSpace
    } else if text_eq(&message.kind, "space-settings") {
        TabRoute::SpaceSettings
    } else {
        TabRoute::Document
    }
}

/// Messages that wait, oldest first, and whether they are being worked on.
#[derive(Debug, PartialEq)]
pub struct TabQueue {
    pub messages: Vec<LocalSyncUpdate>,
    pub running: bool,
}

/// Messages that wait, as views.
pub struct TabQueueView {
    pub messages: Seq<TabMessageView>,
    pub running: bool,
}

impl View for TabQueue {
    type V = TabQueueView;

    open spec fn view(&self) -> TabQueueView {
        TabQueueView { messages: views(self.messages@), running: self.running }
    }
}

/// The messages with one more at the end. Where too many wait, the oldest
/// goes.
pub open spec fn queued(messages: Seq<TabMessageView>, m: TabMessageView) -> Seq<TabMessageView> {
    if messages.len() >= LONGEST_TAB_QUEUE {
        messages.skip(1).push(m)
    } else {
        messages.push(m)
    }
}

impl TabQueue {
    /// Nothing waits.
    pub fn new() -> (r: Self)
        ensures
            r@.messages == Seq::<TabMessageView>::empty(),
            !r@.running,
    {
        let messages: Vec<LocalSyncUpdate> = Vec::new();
        let r = TabQueue { messages, running: false };
        assert(r@.messages =~= Seq::<TabMessageView>::empty());
        r
    }

    /// Puts a message at the end.
    pub fn hold(&mut self, message: LocalSyncUpdate)
        ensures
            final(self)@ == (TabQueueView {
                messages: queued(old(self)@.messages, message@),
                ..old(self)@
            }),
    {
        broadcast use views_push;

        let ghost before = self@.messages;
        if self.messages.len() >= LONGEST_TAB_QUEUE {
            let _ = self.messages.remove(0);
            assert(views(self.messages@) =~= before.skip(1));
        }
        self.messages.push(message);
    }

    /// Puts a message at the end. Says whether work has to be started.
    pub fn queue_local_tab_update(&mut self, message: LocalSyncUpdate) -> (r: bool)
        ensures
            final(self)@ == (TabQueueView {
                messages: queued(old(self)@.messages, message@),
                running: true,
            }),
            r == !old(self)@.running,
    {
        self.hold(message);
        let start = !self.running;
        self.running = true;
        start
    }

    /// Takes the oldest message; where there is none, the work is over.
    pub fn next(&mut self) -> (r: Option<LocalSyncUpdate>)
        ensures
            old(self)@.messages.len() == 0 ==> r is None && final(self)@ == (TabQueueView {
                running: false,
                ..old(self)@
            }),
            old(self)@.messages.len() > 0 ==> opt_view(r) == Some(old(self)@.messages[0])
                && final(self)@ == (TabQueueView {
                messages: old(self)@.messages.skip(1),
                ..old(self)@
            }),
    {
        let ghost before = self@.messages;
        if self.messages.len() == 0 {
            self.running = false;
            return None;
        }
        let first = self.messages.remove(0);
        assert(views(self.messages@) =~= before.skip(1));
        Some(first)
    }
}

/// However many messages come, no more than the bound wait, and the newest is
/// always among them.
pub proof fn tab_queues_stay_bounded(messages: Seq<TabMessageView>, m: TabMessageView)
    requires
        messages.len() <= LONGEST_TAB_QUEUE,
    ensures
        queued(messages, m).len() <= LONGEST_TAB_QUEUE,
        queued(messages, m).last() == m,
{
}

/// What a message changed on the shelf.
#[derive(Debug, PartialEq)]
pub struct TabOutcome {
    /// The workspace to save, if anything changed.
    pub save: Option<WorkspaceData>,
    /// Whether the queues have to be looked at.
    pub wake: bool,
}

/// What a message changed, as a view.
pub struct TabOutcomeView {
    pub save: Option<WorkspaceView>,
    pub wake: bool,
}

impl View for TabOutcome {
    type V = TabOutcomeView;

    open spec fn view(&self) -> TabOutcomeView {
        TabOutcomeView { save: opt_view(self.save), wake: self.wake }
    }
}

/// Nothing changed.
pub open spec fn nothing() -> TabOutcomeView {
    TabOutcomeView { save: None, wake: false }
}

/// The workspace of a shelf.
pub open spec fn shelf_workspace(s: ShelfView, env: SurroundingsView) -> WorkspaceView {
    workspace_of(env, s.spaces, s.active_space_id, s.tombstones)
}

/// The space that another tab created.
pub open spec fn announced_space(env: SurroundingsView, m: TabMessageView) -> SpaceView {
    SpaceView {
        id: m.space_id,
        stable_id: resolved_id(
            env,
            TombstoneKind::Space,
            m.space_id,
            match m.stable_space_id {
                Some(id) => id,
                None => ""@,
            },
        ),
        name: trimmed(m.name->0),
        sync_enabled: false,
        sync_override: None,
        metadata_version: 0,
        archived: false,
        created_at: env.now,
        updated_at: env.now,
        deleted_at: None,
        board: blank_board(env.schema_version),
    }
}

/// Whether a message announces a space that this tab does not know.
pub open spec fn announces_space(s: ShelfView, m: TabMessageView) -> bool {
    &&& m.operation == Some("create"@)
    &&& m.name is Some
    &&& !blank(m.name->0)
    &&& first_space(s.spaces, |x: SpaceView| x.id == m.space_id) >= s.spaces.len()
}

/// The shelf after another tab created a space. What is in front stays.
pub open spec fn space_announced(
    s: ShelfView,
    env: SurroundingsView,
    m: TabMessageView,
) -> ShelfView {
    if announces_space(s, m) {
        ShelfView {
            spaces: s.spaces.push(announced_space(env, m)),
            tombstones: without_space_tombstones(s.tombstones, m.space_id),
            ..s
        }
    } else {
        s
    }
}

/// Whether a message changes where a space is kept.
pub open spec fn changes_sync(s: ShelfView, m: TabMessageView) -> bool {
    let i = first_space(s.spaces, |x: SpaceView| x.id == m.space_id);
    &&& m.operation == Some("sync"@)
    &&& m.sync_enabled is Some
    &&& i < s.spaces.len()
    &&& (s.spaces[i].sync_enabled != m.sync_enabled->0 || s.spaces[i].sync_override
        != m.sync_enabled)
}

/// The shelf after another tab changed where a space is kept.
pub open spec fn sync_changed(s: ShelfView, env: SurroundingsView, m: TabMessageView) -> ShelfView {
    if changes_sync(s, m) {
        ShelfView {
            spaces: with_space(
                s.spaces,
                m.space_id,
                |x: SpaceView|
                    SpaceView {
                        sync_enabled: m.sync_enabled->0,
                        sync_override: m.sync_enabled,
                        updated_at: env.now,
                        ..x
                    },
            ),
            ..s
        }
    } else {
        s
    }
}

/// A space after another tab changed it.
pub open spec fn space_changed(x: SpaceView, m: TabMessageView, now: u64) -> SpaceView {
    let operation = m.operation->0;
    if operation == "rename"@ {
        SpaceView {
            name: match m.name {
                Some(name) => name,
                None => x.name,
            },
            updated_at: now,
            ..x
        }
    } else if operation == "archive"@ {
        SpaceView { archived: true, updated_at: now, ..x }
    } else if operation == "unarchive"@ {
        SpaceView { archived: false, deleted_at: None, updated_at: now, ..x }
    } else if operation == "delete"@ {
        SpaceView { archived: true, deleted_at: Some(now), updated_at: now, ..x }
    } else if operation == "restore"@ {
        SpaceView { archived: false, deleted_at: None, updated_at: now, ..x }
    } else {
        x
    }
}

/// The tombstones after another tab changed a space.
pub open spec fn tombstones_changed(
    s: ShelfView,
    m: TabMessageView,
    now: u64,
) -> Seq<TombstoneView> {
    let i = first_space(s.spaces, |x: SpaceView| x.id == m.space_id);
    if i >= s.spaces.len() {
        s.tombstones
    } else if m.operation == Some("delete"@) {
        with_space_tombstone(s.tombstones, m.space_id, s.spaces[i].stable_id, now)
    } else if m.operation == Some("restore"@) {
        without_space_tombstones(s.tombstones, m.space_id)
    } else {
        s.tombstones
    }
}

/// The shelf with the first open space in front, where there is one. What is
/// being edited and what can be undone stays.
pub open spec fn fallen_back(s: ShelfView) -> ShelfView {
    let i = first_space(s.spaces, |x: SpaceView| is_open(x));
    if i < s.spaces.len() {
        ShelfView {
            active_space_id: s.spaces[i].id,
            desk: crate::arrivals::desk_showing(s.desk, s.spaces[i].board),
            ..s
        }
    } else {
        s
    }
}

/// The shelf after another tab changed a space. Where the space in front was
/// archived or deleted, an open one comes in front.
pub open spec fn metadata_changed(
    s: ShelfView,
    env: SurroundingsView,
    m: TabMessageView,
) -> ShelfView {
    let next = ShelfView {
        spaces: with_space(s.spaces, m.space_id, |x: SpaceView| space_changed(x, m, env.now)),
        tombstones: tombstones_changed(s, m, env.now),
        ..s
    };
    if (m.operation == Some("delete"@) || m.operation == Some("archive"@)) && s.active_space_id
        == m.space_id {
        fallen_back(next)
    } else {
        next
    }
}

/// The last change of a space that this tab has seen.
#[derive(Debug, PartialEq)]
pub struct Watermark {
    pub principal: String,
    pub space_id: u64,
    pub created_at: u64,
    pub operation_id: String,
}

/// The last change of a space, its texts as characters.
pub struct WatermarkView {
    pub principal: Seq<char>,
    pub space_id: u64,
    pub created_at: u64,
    pub operation_id: Seq<char>,
}

impl View for Watermark {
    type V = WatermarkView;

    open spec fn view(&self) -> WatermarkView {
        WatermarkView {
            principal: self.principal@,
            space_id: self.space_id,
            created_at: self.created_at,
            operation_id: self.operation_id@,
        }
    }
}

/// The position of the watermark of a space; the length of the list where it
/// has none.
pub open spec fn mark_position(marks: Seq<WatermarkView>, principal: Seq<char>, id: u64) -> int
    decreases marks.len(),
{
    if marks.len() == 0 {
        0
    } else if marks[0].principal == principal && marks[0].space_id == id {
        0
    } else {
        1 + mark_position(marks.skip(1), principal, id)
    }
}

/// Whether a change is newer than all that this tab has seen of the space.
pub open spec fn is_news(
    marks: Seq<WatermarkView>,
    principal: Seq<char>,
    id: u64,
    created_at: u64,
    operation_id: Seq<char>,
) -> bool {
    let i = mark_position(marks, principal, id);
    i >= marks.len() || key_less(
        (marks[i].created_at, marks[i].operation_id),
        (created_at, operation_id),
    )
}

/// The watermarks with a change of a space as the last one.
pub open spec fn with_mark(marks: Seq<WatermarkView>, mark: WatermarkView) -> Seq<WatermarkView> {
    let i = mark_position(marks, mark.principal, mark.space_id);
    if i < marks.len() {
        marks.update(i, mark)
    } else {
        marks.push(mark)
    }
}

proof fn mark_position_is_least(marks: Seq<WatermarkView>, principal: Seq<char>, id: u64)
    ensures
        0 <= mark_position(marks, principal, id) <= marks.len(),
        forall|j: int|
            0 <= j < mark_position(marks, principal, id) ==> !((#[trigger] marks[j]).principal
                == principal && marks[j].space_id == id),
        mark_position(marks, principal, id) < marks.len() ==> marks[mark_position(
            marks,
            principal,
            id,
        )].principal == principal && marks[mark_position(marks, principal, id)].space_id == id,
    decreases marks.len(),
{
    if marks.len() > 0 && !(marks[0].principal == principal && marks[0].space_id == id) {
        let rest = marks.skip(1);
        mark_position_is_least(rest, principal, id);
        assert forall|j: int| 0 <= j < mark_position(marks, principal, id) implies !((
        #[trigger] marks[j]).principal == principal && marks[j].space_id == id) by {
            if j > 0 {
                assert(marks[j] == rest[j - 1]);
            }
        }
    }
}

proof fn mark_position_at(marks: Seq<WatermarkView>, principal: Seq<char>, id: u64, i: int)
    requires
        0 <= i <= marks.len(),
        forall|j: int|
            0 <= j < i ==> !((#[trigger] marks[j]).principal == principal && marks[j].space_id
                == id),
        i < marks.len() ==> marks[i].principal == principal && marks[i].space_id == id,
    ensures
        mark_position(marks, principal, id) == i,
{
    mark_position_is_least(marks, principal, id);
    let k = mark_position(marks, principal, id);
    if k < i {
        assert(!(marks[k].principal == principal && marks[k].space_id == id));
    } else if i < k {
        assert(!(marks[i].principal == principal && marks[i].space_id == id));
    }
}

/// Once a change was seen, it is not news again, and of the same space only a
/// newer one is; what was seen of other spaces stays.
pub proof fn changes_are_news_once(marks: Seq<WatermarkView>, mark: WatermarkView)
    ensures
        !is_news(
            with_mark(marks, mark),
            mark.principal,
            mark.space_id,
            mark.created_at,
            mark.operation_id,
        ),
        forall|created_at: u64, operation_id: Seq<char>|
            #[trigger] is_news(
                with_mark(marks, mark),
                mark.principal,
                mark.space_id,
                created_at,
                operation_id,
            ) == key_less(
                (mark.created_at, mark.operation_id),
                (created_at, operation_id),
            ),
        forall|principal: Seq<char>, id: u64, created_at: u64, operation_id: Seq<char>|
            !(principal == mark.principal && id == mark.space_id) ==> (#[trigger] is_news(
                with_mark(marks, mark),
                principal,
                id,
                created_at,
                operation_id,
            ) == is_news(marks, principal, id, created_at, operation_id)),
{
    let after = with_mark(marks, mark);
    let i = mark_position(marks, mark.principal, mark.space_id);
    mark_position_is_least(marks, mark.principal, mark.space_id);
    assert forall|j: int| 0 <= j < i implies !((#[trigger] after[j]).principal == mark.principal
        && after[j].space_id == mark.space_id) by {
        assert(after[j] == marks[j]);
    }
    mark_position_at(after, mark.principal, mark.space_id, i);
    crate::text::text_less_is_a_strict_order(
        mark.operation_id,
        mark.operation_id,
        mark.operation_id,
    );
    assert forall|principal: Seq<char>, id: u64, created_at: u64, operation_id: Seq<char>|
        !(principal == mark.principal && id == mark.space_id) implies (#[trigger] is_news(
        after,
        principal,
        id,
        created_at,
        operation_id,
    ) == is_news(marks, principal, id, created_at, operation_id)) by {
        let k = mark_position(marks, principal, id);
        mark_position_is_least(marks, principal, id);
        if k < marks.len() {
            assert(after[k] == marks[k]);
            assert forall|j: int| 0 <= j < k implies !((#[trigger] after[j]).principal
                == principal && after[j].space_id == id) by {
                if j != i {
                    assert(after[j] == marks[j]);
                }
            }
            mark_position_at(after, principal, id, k);
        } else {
            assert forall|j: int| 0 <= j < after.len() implies !((#[trigger] after[j]).principal
                == principal && after[j].space_id == id) by {
                if j != i {
                    assert(after[j] == marks[j]);
                }
            }
            mark_position_at(after, principal, id, after.len() as int);
        }
    }
}

/// Takes note of a change, where it is news. Says whether it is.
pub fn advance_watermark(
    marks: &mut Vec<Watermark>,
    principal: &str,
    id: u64,
    created_at: u64,
    operation_id: &str,
) -> (r: bool)
    ensures
        r == is_news(views(old(marks)@), principal@, id, created_at, operation_id@),
        views(final(marks)@) == (if r {
            with_mark(
                views(old(marks)@),
                WatermarkView {
                    principal: principal@,
                    space_id: id,
                    created_at,
                    operation_id: operation_id@,
                },
            )
        } else {
            views(old(marks)@)
        }),
{
    broadcast use views_push;

    let ghost before = views(marks@);
    let mut i: usize = 0;
    while i < marks.len() && !(text_eq(&marks[i].principal, principal) && marks[i].space_id == id)
        invariant
            i <= marks@.len(),
            before == views(marks@),
            marks@ == old(marks)@,
            forall|j: int|
                0 <= j < i ==> !((#[trigger] before[j]).principal == principal@
                    && before[j].space_id == id),
        decreases marks@.len() - i,
    {
        i = i + 1;
    }
    proof {
        mark_position_at(before, principal@, id, i as int);
    }
    if i < marks.len() {
        let newer = marks[i].created_at < created_at || (marks[i].created_at == created_at
            && text_before(&marks[i].operation_id, operation_id));
        if !newer {
            return false;
        }
        let mark = Watermark {
            principal: principal.to_owned(),
            space_id: id,
            created_at,
            operation_id: operation_id.to_owned(),
        };
        let ghost view = mark@;
        marks.set(i, mark);
        assert(views(marks@) =~= before.update(i as int, view));
    } else {
        marks.push(
            Watermark {
                principal: principal.to_owned(),
                space_id: id,
                created_at,
                operation_id: operation_id.to_owned(),
            },
        );
    }
    true
}

/// Whether a message has an operation id by which its change is told apart.
pub open spec fn has_operation_id(m: TabMessageView) -> bool {
    m.operation_id is Some && m.operation_id->0.len() > 0
}

/// Whether a change of another tab is applied: it names an operation and, where
/// it can be told apart, it is news.
pub open spec fn is_applied(
    marks: Seq<WatermarkView>,
    principal: Seq<char>,
    m: TabMessageView,
) -> bool {
    m.operation is Some && (has_operation_id(m) ==> is_news(
        marks,
        principal,
        m.space_id,
        m.created_at,
        m.operation_id->0,
    ))
}

fn is_operation(message: &LocalSyncUpdate, operation: &str) -> (r: bool)
    ensures
        r == (message@.operation == Some(operation@)),
{
    match &message.operation {
        Some(given) => text_eq(given, operation),
        None => false,
    }
}

impl Shelf {
    fn workspace(&self, env: &Surroundings) -> (r: WorkspaceData)
        ensures
            r@ == shelf_workspace(self@, env@),
    {
        workspace_snapshot(env, &self.spaces, self.active_space_id, &self.tombstones)
    }

    /// Another tab created a space.
    pub fn apply_local_tab_space(&mut self, env: &Surroundings, message: &LocalSyncUpdate) -> (r:
        TabOutcome)
        ensures
            final(self)@ == space_announced(old(self)@, env@, message@),
            r@ == (if announces_space(old(self)@, message@) {
                TabOutcomeView {
                    save: Some(shelf_workspace(final(self)@, env@)),
                    wake: false,
                }
            } else {
                nothing()
            }),
    {
        broadcast use views_push;

        if !is_operation(message, "create") {
            return TabOutcome { save: None, wake: false };
        }
        let name = match &message.name {
            Some(name) => {
                if is_blank(name) {
                    return TabOutcome { save: None, wake: false };
                }
                trim(name)
            },
            None => return TabOutcome { save: None, wake: false },
        };
        if position_of_space(&self.spaces, message.space_id) < self.spaces.len() {
            return TabOutcome { save: None, wake: false };
        }
        let given = match &message.stable_space_id {
            Some(id) => id.clone(),
            None => "".to_owned(),
        };
        let stable_id = resolve_id(env, TombstoneKind::Space, message.space_id, &given);
        self.spaces.push(
            Space {
                id: message.space_id,
                stable_id,
                name,
                sync_enabled: false,
                sync_override: None,
                metadata_version: 0,
                archived: false,
                created_at: env.now,
                updated_at: env.now,
                deleted_at: None,
                board: empty_board(env.schema_version),
            },
        );
        self.tombstones = remove_space_tombstones(&self.tombstones, message.space_id);
        TabOutcome { save: Some(self.workspace(env)), wake: false }
    }

    /// Another tab changed where a space is kept.
    pub fn apply_local_tab_space_settings(
        &mut self,
        env: &Surroundings,
        message: &LocalSyncUpdate,
    ) -> (r: TabOutcome)
        ensures
            final(self)@ == sync_changed(old(self)@, env@, message@),
            r@ == (if changes_sync(old(self)@, message@) {
                TabOutcomeView {
                    save: Some(shelf_workspace(final(self)@, env@)),
                    wake: message@.sync_enabled->0,
                }
            } else {
                nothing()
            }),
    {
        if !is_operation(message, "sync") {
            return TabOutcome { save: None, wake: false };
        }
        let enabled = match message.sync_enabled {
            Some(enabled) => enabled,
            None => return TabOutcome { save: None, wake: false },
        };
        let i = position_of_space(&self.spaces, message.space_id);
        if i >= self.spaces.len() {
            return TabOutcome { save: None, wake: false };
        }
        let same = self.spaces[i].sync_enabled == enabled && match self.spaces[i].sync_override {
            Some(choice) => choice == enabled,
            None => false,
        };
        if same {
            return TabOutcome { save: None, wake: false };
        }
        let mut space = self.spaces[i].clone();
        space.sync_enabled = enabled;
        space.sync_override = Some(enabled);
        space.updated_at = env.now;
        self.spaces = replace_space(&self.spaces, i, space);
        TabOutcome { save: Some(self.workspace(env)), wake: enabled }
    }

    pub(crate) fn fall_back(&mut self)
        ensures
            final(self)@ == fallen_back(old(self)@),
    {
        let ghost before = self@;
        let i = position_of_any_open_space(&self.spaces);
        if i < self.spaces.len() {
            self.active_space_id = self.spaces[i].id;
            self.desk.notes = clone_notes(&self.spaces[i].board.notes);
            self.desk.groups = clone_groups(&self.spaces[i].board.groups);
            assert(self@.desk == crate::arrivals::desk_showing(
                before.desk,
                before.spaces[i as int].board,
            ));
        }
    }

    /// Another tab changed a space.
    pub fn apply_local_tab_metadata(
        &mut self,
        env: &Surroundings,
        marks: &mut Vec<Watermark>,
        message: &LocalSyncUpdate,
    ) -> (r: TabOutcome)
        ensures
            views(final(marks)@) == (if is_applied(
                views(old(marks)@),
                old(self)@.principal,
                message@,
            ) && has_operation_id(message@) {
                with_mark(
                    views(old(marks)@),
                    WatermarkView {
                        principal: old(self)@.principal,
                        space_id: message@.space_id,
                        created_at: message@.created_at,
                        operation_id: message@.operation_id->0,
                    },
                )
            } else {
                views(old(marks)@)
            }),
            final(self)@ == (if is_applied(
                views(old(marks)@),
                old(self)@.principal,
                message@,
            ) {
                metadata_changed(old(self)@, env@, message@)
            } else {
                old(self)@
            }),
            r@ == (if is_applied(views(old(marks)@), old(self)@.principal, message@) {
                TabOutcomeView { save: Some(shelf_workspace(final(self)@, env@)), wake: true }
            } else {
                nothing()
            }),
    {
        let operation = match &message.operation {
            Some(operation) => operation,
            None => return TabOutcome { save: None, wake: false },
        };
        if let Some(id) = &message.operation_id {
            if !text_eq(id, "") {
                proof {
                    reveal_strlit("");
                    assert(id@.len() > 0) by {
                        if id@.len() == 0 {
                            assert(id@ =~= ""@);
                        }
                    }
                }
                if !advance_watermark(
                    marks,
                    &self.principal,
                    message.space_id,
                    message.created_at,
                    id,
                ) {
                    return TabOutcome { save: None, wake: false };
                }
            } else {
                proof {
                    reveal_strlit("");
                }
            }
        }
        let ghost before = self@;
        let i = position_of_space(&self.spaces, message.space_id);
        if i < self.spaces.len() {
            let mut space = self.spaces[i].clone();
            let ghost was = space@;
            if text_eq(operation, "rename") {
                if let Some(name) = &message.name {
                    space.name = name.clone();
                }
                space.updated_at = env.now;
            } else if text_eq(operation, "archive") {
                space.archived = true;
                space.updated_at = env.now;
            } else if text_eq(operation, "unarchive") {
                space.archived = false;
                space.deleted_at = None;
                space.updated_at = env.now;
            } else if text_eq(operation, "delete") {
                self.tombstones =
                add_space_tombstone(
                    &self.tombstones,
                    message.space_id,
                    &space.stable_id,
                    env.now,
                );
                space.archived = true;
                space.deleted_at = Some(env.now);
                space.updated_at = env.now;
            } else if text_eq(operation, "restore") {
                self.tombstones = remove_space_tombstones(&self.tombstones, message.space_id);
                space.archived = false;
                space.deleted_at = None;
                space.updated_at = env.now;
            }
            proof {
                operations_differ();
            }
            assert(space@ == space_changed(was, message@, env.now));
            self.spaces = replace_space(&self.spaces, i, space);
            assert(views(self.spaces@) == with_space(
                before.spaces,
                message@.space_id,
                |x: SpaceView| space_changed(x, message@, env.now),
            ));
        }
        assert(views(self.tombstones@) == tombstones_changed(before, message@, env.now)) by {
            operations_differ();
        }
        if (text_eq(operation, "delete") || text_eq(operation, "archive"))
            && self.active_space_id == message.space_id {
            self.fall_back();
        }
        TabOutcome { save: Some(self.workspace(env)), wake: true }
    }
}

proof fn operations_differ()
    ensures
        "rename"@ != "delete"@,
        "rename"@ != "restore"@,
        "archive"@ != "delete"@,
        "archive"@ != "restore"@,
        "unarchive"@ != "delete"@,
        "unarchive"@ != "restore"@,
        "delete"@ != "restore"@,
{
    reveal_strlit("rename");
    reveal_strlit("archive");
    reveal_strlit("unarchive");
    reveal_strlit("delete");
    reveal_strlit("restore");
    assert("rename"@[0] == 'r');
    assert("delete"@[0] == 'd');
    assert("archive"@[0] == 'a');
    assert("restore"@[0] == 'r');
    assert("unarchive"@[0] == 'u');
    assert("rename"@[2] == 'n');
    assert("restore"@[2] == 's');
}

/// A message of another tab never takes a space out of the list, and never
/// changes the board of a space.
pub proof fn messages_keep_the_boards(
    s: ShelfView,
    env: SurroundingsView,
    m: TabMessageView,
    k: int,
)
    requires
        0 <= k < s.spaces.len(),
    ensures
        space_announced(s, env, m).spaces.len() >= s.spaces.len(),
        space_announced(s, env, m).spaces[k] == s.spaces[k],
        sync_changed(s, env, m).spaces.len() == s.spaces.len(),
        sync_changed(s, env, m).spaces[k].board == s.spaces[k].board,
        metadata_changed(s, env, m).spaces.len() == s.spaces.len(),
        metadata_changed(s, env, m).spaces[k].board == s.spaces[k].board,
{
    crate::workspace::first_space_is_least(s.spaces, |x: SpaceView| x.id == m.space_id);
}

/// A message counts for this tab where another tab of the same principal sent it
/// in the same version.
pub proof fn messages_of_other_tabs_count(
    m: TabMessageView,
    tab: Seq<char>,
    principal: Seq<char>,
    hydrated: bool,
)
    ensures
        m.origin_tab_id == Some(tab) ==> route_of(m, tab, principal, hydrated)
            == TabRoute::Ignored,
        m.principal != principal ==> route_of(m, tab, principal, hydrated) == TabRoute::Ignored,
        m.protocol_version != 1 ==> route_of(
            m,
            tab,
            principal,
            hydrated,
        ) == TabRoute::Ignored,
        m.origin_tab_id != Some(tab) && m.principal == principal && m.protocol_version
            == 1 ==> {
            let route = route_of(m, tab, principal, hydrated);
            &&& !hydrated ==> route == TabRoute::Held
            &&& hydrated && m.kind == "metadata"@ ==> route == TabRoute::Metadata
            &&& hydrated && m.kind == "space"@ ==> route == TabRoute::NewSpace
            &&& hydrated && m.kind == "space-settings"@ ==> route == TabRoute::SpaceSettings
            &&& hydrated && m.kind != "metadata"@ && m.kind != "space"@ && m.kind
                != "space-settings"@ ==> route == TabRoute::Document
        },
{
    reveal_strlit("metadata");
    reveal_strlit("space");
    reveal_strlit("space-settings");
    assert("metadata"@.len() == 8);
    assert("space"@.len() == 5);
    assert("space-settings"@.len() == 14);
}

/// A message is queued last; only a full queue loses one, its oldest.
pub proof fn full_queues_lose_their_oldest(messages: Seq<TabMessageView>, m: TabMessageView, i: int)
    ensures
        queued(messages, m).last() == m,
        messages.len() < 256 ==> queued(messages, m).len() == messages.len() + 1,
        messages.len() < 256 && 0 <= i < messages.len() ==> queued(messages, m)[i]
            == messages[i],
        messages.len() >= 256 ==> queued(messages, m).len() == messages.len(),
        messages.len() >= 256 && 1 <= i < messages.len() ==> queued(messages, m)[i
            - 1] == messages[i],
{
}

/// A space that another tab made is added once, last, with the name that was
/// given it, empty and on the device only; its tombstones go, and nothing else
/// changes.
pub proof fn announced_spaces_come_last(
    s: ShelfView,
    env: SurroundingsView,
    m: TabMessageView,
    t: TombstoneView,
)
    ensures
        ({
            let r = space_announced(s, env, m);
            let made = r.spaces.last();
            let asked = m.operation == Some("create"@) && m.name is Some && !blank(m.name->0);
            let there = exists|j: int|
                0 <= j < s.spaces.len() && (#[trigger] s.spaces[j]).id == m.space_id;
            &&& announces_space(s, m) == (asked && !there)
            &&& !(asked && !there) ==> r == s
            &&& asked && !there ==> {
                &&& r.spaces.drop_last() == s.spaces
                &&& made.id == m.space_id
                &&& made.name == trimmed(m.name->0)
                &&& made.board.notes.len() == 0
                &&& made.board.groups.len() == 0
                &&& !made.sync_enabled
                &&& !made.archived
                &&& made.deleted_at is None
                &&& made.created_at == env.now
                &&& (m.stable_space_id is Some && env.valid_ids.contains(m.stable_space_id->0))
                    ==> made.stable_id == m.stable_space_id->0
                &&& r.active_space_id == s.active_space_id
                &&& r.desk == s.desk
                &&& r.tombstones.contains(t) == (s.tombstones.contains(t) && !(t.kind
                    == TombstoneKind::Space && t.id == m.space_id))
            }
        }),
{
    let pred = |x: SpaceView| x.id == m.space_id;
    first_space_is_least(s.spaces, pred);
    let p = first_space(s.spaces, pred);
    if p < s.spaces.len() {
        assert(pred(s.spaces[p]));
        assert(s.spaces[p].id == m.space_id);
    } else {
        assert forall|j: int| 0 <= j < s.spaces.len() implies (#[trigger] s.spaces[j]).id
            != m.space_id by {
            assert(!pred(s.spaces[j]));
        }
    }
    let keep = |x: TombstoneView| x.kind != TombstoneKind::Space || x.id != m.space_id;
    let kept = s.tombstones.filter(keep);
    if kept.contains(t) {
        crate::lists::filter_member(s.tombstones, keep, kept.index_of(t));
    }
    if s.tombstones.contains(t) && keep(t) {
        crate::lists::filter_keeps(s.tombstones, keep, s.tombstones.index_of(t));
    }
    let r = space_announced(s, env, m);
    if announces_space(s, m) {
        assert(r.spaces.drop_last() =~= s.spaces);
    }
}

/// A sync setting of another tab goes into the first space of its id, as the
/// user's own choice, and into no other.
pub proof fn sync_settings_reach_one_space(
    s: ShelfView,
    env: SurroundingsView,
    m: TabMessageView,
    k: int,
)
    requires
        0 <= k < s.spaces.len(),
    ensures
        ({
            let r = sync_changed(s, env, m);
            let asked = m.operation == Some("sync"@) && m.sync_enabled is Some;
            &&& !asked ==> r == s && !changes_sync(s, m)
            &&& (forall|j: int| 0 <= j < s.spaces.len() ==> (#[trigger] s.spaces[j]).id
                != m.space_id) ==> r == s && !changes_sync(s, m)
            &&& r.spaces.len() == s.spaces.len()
            &&& !is_first_of(s.spaces, m.space_id, k) ==> r.spaces[k] == s.spaces[k]
            &&& asked && is_first_of(s.spaces, m.space_id, k) ==> {
                &&& r.spaces[k].sync_enabled == m.sync_enabled->0
                &&& r.spaces[k].sync_override == m.sync_enabled
                &&& r.spaces[k] == (SpaceView {
                    sync_enabled: r.spaces[k].sync_enabled,
                    sync_override: r.spaces[k].sync_override,
                    updated_at: r.spaces[k].updated_at,
                    ..s.spaces[k]
                })
                &&& changes_sync(s, m) == (s.spaces[k].sync_enabled != m.sync_enabled->0
                    || s.spaces[k].sync_override != m.sync_enabled)
                &&& changes_sync(s, m) ==> r.spaces[k].updated_at == env.now
            }
            &&& r.active_space_id == s.active_space_id
            &&& r.desk == s.desk
            &&& r.tombstones == s.tombstones
        }),
{
    crate::spaces::changes_touch_one_space(
        s.spaces,
        m.space_id,
        |x: SpaceView|
            SpaceView {
                sync_enabled: m.sync_enabled->0,
                sync_override: m.sync_enabled,
                updated_at: env.now,
                ..x
            },
        k,
    );
    let pred = |x: SpaceView| x.id == m.space_id;
    first_space_is_least(s.spaces, pred);
    let p = first_space(s.spaces, pred);
    if p < s.spaces.len() {
        assert(pred(s.spaces[p]));
    }
    if is_first_of(s.spaces, m.space_id, k) {
        crate::workspace::first_space_at(s.spaces, pred, k);
    }
}

/// What another tab did to a space is done here to the first space of its id:
/// its name, or whether it is archived or deleted. No other space changes.
pub proof fn changes_of_other_tabs_reach_one_space(
    s: ShelfView,
    env: SurroundingsView,
    m: TabMessageView,
    operation: SpaceMetadataOperation,
    k: int,
)
    requires
        0 <= k < s.spaces.len(),
        m.operation == Some(operation_text(operation)),
    ensures
        ({
            let r = metadata_changed(s, env, m);
            &&& r.spaces.len() == s.spaces.len()
            &&& !is_first_of(s.spaces, m.space_id, k) ==> r.spaces[k] == s.spaces[k]
            &&& is_first_of(s.spaces, m.space_id, k) ==> {
                &&& r.spaces[k].updated_at == env.now
                &&& r.spaces[k] == (SpaceView {
                    name: r.spaces[k].name,
                    archived: r.spaces[k].archived,
                    deleted_at: r.spaces[k].deleted_at,
                    updated_at: r.spaces[k].updated_at,
                    ..s.spaces[k]
                })
                &&& operation == SpaceMetadataOperation::Rename && m.name is Some
                    ==> r.spaces[k].name == m.name->0
                &&& operation != SpaceMetadataOperation::Rename || m.name is None
                    ==> r.spaces[k].name == s.spaces[k].name
                &&& operation == SpaceMetadataOperation::Rename ==> r.spaces[k].archived
                    == s.spaces[k].archived && r.spaces[k].deleted_at == s.spaces[k].deleted_at
                &&& operation == SpaceMetadataOperation::Archive ==> r.spaces[k].archived
                    && r.spaces[k].deleted_at == s.spaces[k].deleted_at
                &&& operation == SpaceMetadataOperation::Delete ==> r.spaces[k].archived
                    && r.spaces[k].deleted_at == Some(env.now)
                &&& operation == SpaceMetadataOperation::Unarchive || operation
                    == SpaceMetadataOperation::Restore ==> !r.spaces[k].archived
                    && r.spaces[k].deleted_at is None
            }
        }),
{
    operation_words_differ();
    crate::spaces::changes_touch_one_space(
        s.spaces,
        m.space_id,
        |x: SpaceView| space_changed(x, m, env.now),
        k,
    );
}

proof fn operation_words_differ()
    ensures
        "rename"@ != "archive"@,
        "rename"@ != "unarchive"@,
        "rename"@ != "delete"@,
        "rename"@ != "restore"@,
        "archive"@ != "unarchive"@,
        "archive"@ != "delete"@,
        "archive"@ != "restore"@,
        "unarchive"@ != "delete"@,
        "unarchive"@ != "restore"@,
        "delete"@ != "restore"@,
{
    reveal_strlit("rename");
    reveal_strlit("archive");
    reveal_strlit("unarchive");
    reveal_strlit("delete");
    reveal_strlit("restore");
    assert("rename"@[0] == 'r');
    assert("rename"@.len() == 6);
    assert("restore"@.len() == 7);
    assert("archive"@[0] == 'a');
    assert("unarchive"@[0] == 'u');
    assert("delete"@[0] == 'd');
    assert("restore"@[0] == 'r');
}

/// A space that another tab deleted has a tombstone here, one that it restored
/// has none, and every other tombstone stays.
pub proof fn changes_of_other_tabs_mark_the_space(
    s: ShelfView,
    env: SurroundingsView,
    m: TabMessageView,
    k: int,
    t: TombstoneView,
)
    requires
        is_first_of(s.spaces, m.space_id, k),
    ensures
        ({
            let r = metadata_changed(s, env, m);
            let of_space = t.kind == TombstoneKind::Space && t.id == m.space_id;
            &&& !of_space ==> r.tombstones.contains(t) == s.tombstones.contains(t)
            &&& m.operation == Some("delete"@) ==> has_tombstone(
                r.tombstones,
                TombstoneKind::Space,
                m.space_id,
            ) && (s.tombstones.contains(t) ==> r.tombstones.contains(t))
            &&& m.operation == Some("restore"@) && of_space ==> !r.tombstones.contains(t)
            &&& m.operation != Some("delete"@) && m.operation != Some("restore"@) ==> r.tombstones
                == s.tombstones
        }),
{
    operation_words_differ();
    crate::workspace::first_space_at(s.spaces, |x: SpaceView| x.id == m.space_id, k);
    let operation = if m.operation == Some("delete"@) {
        SpaceMetadataOperation::Delete
    } else if m.operation == Some("restore"@) {
        SpaceMetadataOperation::Restore
    } else {
        SpaceMetadataOperation::Rename
    };
    crate::metadata::tombstones_follow_the_change(
        s.tombstones,
        operation,
        RemoteMetadataView {
            space_id: m.space_id,
            stable_id: s.spaces[k].stable_id,
            name: s.spaces[k].name,
            archived: s.spaces[k].archived,
            metadata_version: s.spaces[k].metadata_version,
            deleted_at: Some(env.now),
        },
        env.now,
        t,
    );
}

/// Where the space in front was closed by another tab, the first space that is
/// open comes to the front with its board on the desk; else the front stays.
pub proof fn closed_fronts_give_way(s: ShelfView, env: SurroundingsView, m: TabMessageView, k: int)
    ensures
        s.active_space_id != m.space_id || (m.operation != Some("delete"@) && m.operation != Some(
            "archive"@,
        )) ==> metadata_changed(s, env, m).active_space_id == s.active_space_id
            && metadata_changed(s, env, m).desk == s.desk,
        s.active_space_id == m.space_id && (m.operation == Some("delete"@) || m.operation == Some(
            "archive"@,
        )) && 0 <= k < s.spaces.len() && is_open(metadata_changed(s, env, m).spaces[k]) && (forall|
            j: int,
        |
            0 <= j < k ==> !is_open(#[trigger] metadata_changed(s, env, m).spaces[j])) ==> {
            let r = metadata_changed(s, env, m);
            &&& r.active_space_id == r.spaces[k].id
            &&& r.desk.notes == r.spaces[k].board.notes
            &&& r.desk.groups == r.spaces[k].board.groups
        },
{
    let next = with_space(s.spaces, m.space_id, |x: SpaceView| space_changed(x, m, env.now));
    let pred = |x: SpaceView| is_open(x);
    assert(metadata_changed(s, env, m).spaces == next);
    if 0 <= k < s.spaces.len() && is_open(next[k]) && (forall|j: int|
        0 <= j < k ==> !is_open(#[trigger] next[j])) {
        crate::spaces::changes_touch_one_space(
            s.spaces,
            m.space_id,
            |x: SpaceView| space_changed(x, m, env.now),
            k,
        );
        assert forall|j: int| 0 <= j < k implies !pred(#[trigger] next[j]) by {}
        crate::workspace::first_space_at(next, pred, k);
    }
}

/// A change that names itself is done once; one that does not is always done,
/// and a message without an operation never.
pub proof fn named_changes_are_done_once(
    marks: Seq<WatermarkView>,
    principal: Seq<char>,
    m: TabMessageView,
)
    ensures
        m.operation is None ==> !is_applied(marks, principal, m),
        m.operation is Some && (m.operation_id is None || m.operation_id == Some(
            Seq::<char>::empty(),
        )) ==> is_applied(marks, principal, m),
        m.operation is Some && m.operation_id is Some && m.operation_id->0.len() > 0 ==> is_applied(
            marks,
            principal,
            m,
        ) == is_news(marks, principal, m.space_id, m.created_at, m.operation_id->0),
        m.operation_id is Some && m.operation_id->0.len() > 0 ==> !is_applied(
            with_mark(
                marks,
                WatermarkView {
                    principal,
                    space_id: m.space_id,
                    created_at: m.created_at,
                    operation_id: m.operation_id->0,
                },
            ),
            principal,
            m,
        ),
{
    changes_are_news_once(
        marks,
        WatermarkView {
            principal,
            space_id: m.space_id,
            created_at: m.created_at,
            operation_id: m.operation_id->0,
        },
    );
}

/// Of a space about which nothing was heard everything is news.
pub proof fn first_changes_are_news(
    marks: Seq<WatermarkView>,
    principal: Seq<char>,
    id: u64,
    created_at: u64,
    operation_id: Seq<char>,
)
    requires
        forall|i: int|
            0 <= i < marks.len() ==> !((#[trigger] marks[i]).principal == principal
                && marks[i].space_id == id),
    ensures
        is_news(marks, principal, id, created_at, operation_id),
{
    unmarked(marks, principal, id);
}

proof fn unmarked(marks: Seq<WatermarkView>, principal: Seq<char>, id: u64)
    requires
        forall|i: int|
            0 <= i < marks.len() ==> !((#[trigger] marks[i]).principal == principal
                && marks[i].space_id == id),
    ensures
        mark_position(marks, principal, id) == marks.len(),
    decreases marks.len(),
{
    if marks.len() > 0 {
        let rest = marks.skip(1);
        assert forall|i: int| 0 <= i < rest.len() implies !((#[trigger] rest[i]).principal
            == principal && rest[i].space_id == id) by {
            assert(rest[i] == marks[i + 1]);
        }
        unmarked(rest, principal, id);
    }
}

/// What is saved of a shelf are its spaces, its tombstones and which space is in
/// front.
pub proof fn saved_shelves_hold_everything(s: ShelfView, env: SurroundingsView)
    ensures
        shelf_workspace(s, env).spaces == s.spaces,
        shelf_workspace(s, env).tombstones == s.tombstones,
        shelf_workspace(s, env).active_space_id == s.active_space_id,
        shelf_workspace(s, env).device_id == env.device_id,
        shelf_workspace(s, env).schema_version == env.schema_version,
        nothing().save is None,
        !nothing().wake,
{
}

} // verus!
