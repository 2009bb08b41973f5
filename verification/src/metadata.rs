//! Changes of a space's metadata on their way to and from the server.
use vstd::prelude::*;
use vstd::string::*;

use crate::lists::filter_ends;
use crate::lists::filter_keeps;
use crate::lists::filter_member;
use crate::lists::filter_step;
use crate::lists::opt_view;
use crate::lists::views;
use crate::lists::views_push;
use crate::model::clone_spaces;
use crate::model::clone_tombstones;
use crate::model::Space;
use crate::model::SpaceView;
use crate::model::Tombstone;
use crate::model::TombstoneKind;
use crate::model::TombstoneView;
use crate::persist::has_tombstone;
use crate::persist::tombstone_exists;
use crate::spaces::update_of;
use crate::spaces::with_space;
use crate::spaces::with_space_tombstone;
use crate::spaces::SpaceMetadataOperation;
use crate::text::text_before;
use crate::text::text_eq;
use crate::text::text_less;
use crate::text::text_less_is_a_strict_order;
use crate::workspace::is_first_of;
use crate::workspace::position_of_space;
use crate::workspace::replace_space;

verus! {

/// A change of a space's metadata that waits to be sent.
#[derive(Debug, PartialEq)]
pub struct QueuedMetadataUpdate {
    pub principal: Option<String>,
    pub space_id: u64,
    pub operation_id: String,
    pub operation: String,
    pub name: Option<String>,
    pub expected_version: Option<u64>,
    pub created_at: u64,
}

/// A change that waits to be sent, its texts as characters.
pub struct QueuedMetadataView {
    pub principal: Option<Seq<char>>,
    pub space_id: u64,
    pub operation_id: Seq<char>,
    pub operation: Seq<char>,
    pub name: Option<Seq<char>>,
    pub expected_version: Option<u64>,
    pub created_at: u64,
}

impl View for QueuedMetadataUpdate {
    type V = QueuedMetadataView;

    open spec fn view(&self) -> QueuedMetadataView {
        QueuedMetadataView {
            principal: opt_view(self.principal),
            space_id: self.space_id,
            operation_id: self.operation_id@,
            operation: self.operation@,
            name: opt_view(self.name),
            expected_version: self.expected_version,
            created_at: self.created_at,
        }
    }
}

/// What orders the changes that wait.
pub open spec fn queue_key(q: QueuedMetadataView) -> (u64, Seq<char>) {
    (q.created_at, q.operation_id)
}

/// Whether a change must come before another: it was made earlier, or at the
/// same time under a smaller operation id.
pub open spec fn key_less(a: (u64, Seq<char>), b: (u64, Seq<char>)) -> bool {
    a.0 < b.0 || (a.0 == b.0 && text_less(a.1, b.1))
}

/// Whether no change stands after one that must come later.
pub open spec fn queue_in_order(queue: Seq<QueuedMetadataView>) -> bool {
    forall|i: int, j: int|
        0 <= i < j < queue.len() ==> !key_less(
            queue_key(#[trigger] queue[j]),
            queue_key(#[trigger] queue[i]),
        )
}

/// The changes with one key, in order.
pub open spec fn with_key(
    queue: Seq<QueuedMetadataView>,
    key: (u64, Seq<char>),
) -> Seq<QueuedMetadataView> {
    queue.filter(|q: QueuedMetadataView| queue_key(q) == key)
}

fn comes_before(a: &QueuedMetadataUpdate, b: &QueuedMetadataUpdate) -> (r: bool)
    ensures
        r == key_less(queue_key(a@), queue_key(b@)),
{
    a.created_at < b.created_at || (a.created_at == b.created_at && text_before(
        &a.operation_id,
        &b.operation_id,
    ))
}

proof fn with_key_push(
    queue: Seq<QueuedMetadataView>,
    x: QueuedMetadataView,
    key: (u64, Seq<char>),
)
    ensures
        with_key(queue.push(x), key) == (if queue_key(x) == key {
            with_key(queue, key).push(x)
        } else {
            with_key(queue, key)
        }),
{
    reveal(Seq::filter);
    assert(queue.push(x).drop_last() =~= queue);
}

proof fn insert_keeps_keys(
    queue: Seq<QueuedMetadataView>,
    x: QueuedMetadataView,
    p: int,
    key: (u64, Seq<char>),
)
    requires
        0 <= p <= queue.len(),
        forall|i: int| p <= i < queue.len() ==> queue_key(#[trigger] queue[i]) != queue_key(x),
    ensures
        with_key(queue.insert(p, x), key) == with_key(queue.push(x), key),
    decreases queue.len() - p,
{
    if p == queue.len() {
        assert(queue.insert(p, x) =~= queue.push(x));
    } else {
        let rest = queue.drop_last();
        let last = queue.last();
        assert(queue.insert(p, x) =~= rest.insert(p, x).push(last));
        assert forall|i: int| p <= i < rest.len() implies queue_key(#[trigger] rest[i])
            != queue_key(x) by {
            assert(rest[i] == queue[i]);
        }
        insert_keeps_keys(rest, x, p, key);
        with_key_push(rest.insert(p, x), last, key);
        with_key_push(rest, x, key);
        with_key_push(rest, last, key);
        with_key_push(queue, x, key);
        assert(rest.push(last) =~= queue);
        assert(queue_key(queue[queue.len() - 1]) != queue_key(x));
    }
}

/// Puts the changes that wait in the order in which they were made. Changes
/// that nothing tells apart keep their order.
pub fn sort_metadata_updates(queued: Vec<QueuedMetadataUpdate>) -> (r: Vec<QueuedMetadataUpdate>)
    ensures
        r@.len() == queued@.len(),
        queue_in_order(views(r@)),
        forall|key: (u64, Seq<char>)|
            #[trigger] with_key(views(r@), key) == with_key(views(queued@), key),
{
    broadcast use views_push;

    let ghost all = views(queued@);
    let mut rest = queued;
    let mut out: Vec<QueuedMetadataUpdate> = Vec::new();
    let ghost mut taken: int = 0;
    assert(all.take(0) =~= Seq::empty());
    assert(views(out@) =~= Seq::empty());
    assert(views(rest@) =~= all.skip(0));
    while rest.len() > 0
        invariant
            0 <= taken <= all.len(),
            out@.len() == taken,
            views(rest@) == all.skip(taken),
            queue_in_order(views(out@)),
            forall|key: (u64, Seq<char>)|
                #[trigger] with_key(views(out@), key) == with_key(all.take(taken), key),
        decreases rest@.len(),
    {
        let ghost remaining = rest@;
        let ghost before = views(out@);
        assert(views(rest@).len() == rest@.len());
        let x = rest.remove(0);
        assert(views(remaining)[0] == all.skip(taken)[0]);
        assert(x@ == all[taken]);
        assert forall|i: int| 0 <= i < rest@.len() implies #[trigger] views(rest@)[i] == all.skip(
            taken + 1,
        )[i] by {
            assert(views(remaining)[i + 1] == all.skip(taken)[i + 1]);
        }
        assert(views(rest@) =~= all.skip(taken + 1));
        let mut p: usize = out.len();
        while p > 0 && comes_before(&x, &out[p - 1])
            invariant
                before == views(out@),
                p <= out@.len(),
                forall|i: int|
                    p <= i < before.len() ==> key_less(
                        queue_key(x@),
                        queue_key(#[trigger] before[i]),
                    ),
            decreases p,
        {
            assert(before[p - 1] == out@[p - 1]@);
            p = p - 1;
        }
        proof {
            if p > 0 {
                assert(before[p - 1] == out@[p - 1]@);
                assert(!key_less(queue_key(x@), queue_key(before[p - 1])));
            }
            assert forall|i: int| 0 <= i < p implies !key_less(
                queue_key(x@),
                queue_key(#[trigger] before[i]),
            ) by {
                if i < p - 1 {
                    key_order(
                        queue_key(x@),
                        queue_key(before[i]),
                        queue_key(before[p - 1]),
                    );
                }
            }
            assert forall|i: int| p <= i < before.len() implies queue_key(#[trigger] before[i])
                != queue_key(x@) by {
                key_order(queue_key(x@), queue_key(before[i]), queue_key(x@));
            }
            assert forall|key: (u64, Seq<char>)| #[trigger] with_key(
                before.insert(p as int, x@),
                key,
            ) == with_key(all.take(taken + 1), key) by {
                insert_keeps_keys(before, x@, p as int, key);
                with_key_push(before, x@, key);
                with_key_push(all.take(taken), x@, key);
                assert(all.take(taken + 1) =~= all.take(taken).push(x@));
                assert(with_key(before, key) == with_key(all.take(taken), key));
            }
            let after = before.insert(p as int, x@);
            assert forall|i: int, j: int| 0 <= i < j < after.len() implies !key_less(
                queue_key(#[trigger] after[j]),
                queue_key(#[trigger] after[i]),
            ) by {
                if i < p && j == p {
                } else if i == p && j > p {
                    assert(after[j] == before[j - 1]);
                    key_order(queue_key(x@), queue_key(before[j - 1]), queue_key(x@));
                } else {
                    let i0 = if i < p {
                        i
                    } else {
                        i - 1
                    };
                    let j0 = if j < p {
                        j
                    } else {
                        j - 1
                    };
                    assert(after[i] == before[i0]);
                    assert(after[j] == before[j0]);
                }
            }
        }
        out.insert(p, x);
        assert(views(out@) =~= before.insert(p as int, x@));
        proof {
            taken = taken + 1;
        }
    }
    assert(views(rest@).len() == rest@.len());
    assert(all.take(taken) =~= all);
    out
}

proof fn key_order(a: (u64, Seq<char>), b: (u64, Seq<char>), c: (u64, Seq<char>))
    ensures
        !key_less(a, a),
        key_less(a, b) ==> !key_less(b, a),
        key_less(a, b) && !key_less(c, b) ==> key_less(a, c),
        !key_less(b, a) && !key_less(c, b) ==> !key_less(c, a),
{
    text_less_is_a_strict_order(a.1, b.1, c.1);
    text_less_is_a_strict_order(a.1, c.1, b.1);
    text_less_is_a_strict_order(b.1, a.1, c.1);
    text_less_is_a_strict_order(b.1, c.1, a.1);
    text_less_is_a_strict_order(c.1, a.1, b.1);
    text_less_is_a_strict_order(c.1, b.1, a.1);
}

/// The name that an operation is sent under.
pub open spec fn operation_text(operation: SpaceMetadataOperation) -> Seq<char> {
    match operation {
        SpaceMetadataOperation::Rename => "rename"@,
        SpaceMetadataOperation::Archive => "archive"@,
        SpaceMetadataOperation::Unarchive => "unarchive"@,
        SpaceMetadataOperation::Delete => "delete"@,
        SpaceMetadataOperation::Restore => "restore"@,
    }
}

/// The operation that a name stands for.
pub open spec fn named_operation(name: Seq<char>) -> Option<SpaceMetadataOperation> {
    if name == "rename"@ {
        Some(SpaceMetadataOperation::Rename)
    } else if name == "archive"@ {
        Some(SpaceMetadataOperation::Archive)
    } else if name == "unarchive"@ {
        Some(SpaceMetadataOperation::Unarchive)
    } else if name == "delete"@ {
        Some(SpaceMetadataOperation::Delete)
    } else if name == "restore"@ {
        Some(SpaceMetadataOperation::Restore)
    } else {
        None
    }
}

/// The name that an operation is sent under.
pub fn metadata_operation_name(operation: SpaceMetadataOperation) -> (r: &'static str)
    ensures
        r@ == operation_text(operation),
{
    match operation {
        SpaceMetadataOperation::Rename => "rename",
        SpaceMetadataOperation::Archive => "archive",
        SpaceMetadataOperation::Unarchive => "unarchive",
        SpaceMetadataOperation::Delete => "delete",
        SpaceMetadataOperation::Restore => "restore",
    }
}

/// The operation that a name stands for.
pub fn metadata_operation_from_name(name: &str) -> (r: Option<SpaceMetadataOperation>)
    ensures
        r == named_operation(name@),
{
    if text_eq(name, "rename") {
        Some(SpaceMetadataOperation::Rename)
    } else if text_eq(name, "archive") {
        Some(SpaceMetadataOperation::Archive)
    } else if text_eq(name, "unarchive") {
        Some(SpaceMetadataOperation::Unarchive)
    } else if text_eq(name, "delete") {
        Some(SpaceMetadataOperation::Delete)
    } else if text_eq(name, "restore") {
        Some(SpaceMetadataOperation::Restore)
    } else {
        None
    }
}

/// A name leads back to the operation that it was made from.
pub proof fn operation_names_lead_back(operation: SpaceMetadataOperation)
    ensures
        named_operation(operation_text(operation)) == Some(operation),
{
    reveal_strlit("rename");
    reveal_strlit("archive");
    reveal_strlit("unarchive");
    reveal_strlit("delete");
    reveal_strlit("restore");
    assert("rename"@[2] == 'n');
    assert("delete"@[2] == 'l');
    assert("archive"@[0] == 'a');
    assert("restore"@[0] == 'r');
}

/// A space as the server's list of spaces describes it.
#[derive(Debug, PartialEq)]
pub struct SpaceManifestEntry {
    pub id: u64,
    pub stable_id: String,
    pub name: String,
    pub metadata_version: u64,
    pub archived: bool,
    pub created_at: u64,
    pub updated_at: u64,
    pub deleted_at: Option<u64>,
}

/// A space of the server's list, its texts as characters.
pub struct ManifestView {
    pub id: u64,
    pub stable_id: Seq<char>,
    pub name: Seq<char>,
    pub metadata_version: u64,
    pub archived: bool,
    pub created_at: u64,
    pub updated_at: u64,
    pub deleted_at: Option<u64>,
}

impl View for SpaceManifestEntry {
    type V = ManifestView;

    open spec fn view(&self) -> ManifestView {
        ManifestView {
            id: self.id,
            stable_id: self.stable_id@,
            name: self.name@,
            metadata_version: self.metadata_version,
            archived: self.archived,
            created_at: self.created_at,
            updated_at: self.updated_at,
            deleted_at: self.deleted_at,
        }
    }
}

/// Whether the server's space already is as an operation would make it.
pub open spec fn is_satisfied(
    operation: SpaceMetadataOperation,
    name: Option<Seq<char>>,
    remote: ManifestView,
) -> bool {
    match operation {
        SpaceMetadataOperation::Rename => remote.deleted_at is None && name == Some(remote.name),
        SpaceMetadataOperation::Archive => remote.archived || remote.deleted_at is Some,
        SpaceMetadataOperation::Unarchive => !remote.archived && remote.deleted_at is None,
        SpaceMetadataOperation::Delete => remote.deleted_at is Some,
        SpaceMetadataOperation::Restore => !remote.archived && remote.deleted_at is None,
    }
}

/// Whether the server's space already is as an operation would make it.
pub fn metadata_operation_is_satisfied(
    operation: SpaceMetadataOperation,
    name: &Option<String>,
    remote: &SpaceManifestEntry,
) -> (r: bool)
    ensures
        r == is_satisfied(operation, opt_view(*name), remote@),
{
    match operation {
        SpaceMetadataOperation::Rename => remote.deleted_at.is_none() && (match name {
            Some(n) => *n == remote.name,
            None => false,
        }),
        SpaceMetadataOperation::Archive => remote.archived || remote.deleted_at.is_some(),
        SpaceMetadataOperation::Unarchive => !remote.archived && remote.deleted_at.is_none(),
        SpaceMetadataOperation::Delete => remote.deleted_at.is_some(),
        SpaceMetadataOperation::Restore => !remote.archived && remote.deleted_at.is_none(),
    }
}

/// What the server says of a space's metadata.
#[derive(Debug, PartialEq)]
pub struct RemoteMetadata {
    pub space_id: u64,
    pub stable_id: String,
    pub name: String,
    pub archived: bool,
    pub metadata_version: u64,
    pub deleted_at: Option<u64>,
}

/// What the server says of a space's metadata, its texts as characters.
pub struct RemoteMetadataView {
    pub space_id: u64,
    pub stable_id: Seq<char>,
    pub name: Seq<char>,
    pub archived: bool,
    pub metadata_version: u64,
    pub deleted_at: Option<u64>,
}

impl View for RemoteMetadata {
    type V = RemoteMetadataView;

    open spec fn view(&self) -> RemoteMetadataView {
        RemoteMetadataView {
            space_id: self.space_id,
            stable_id: self.stable_id@,
            name: self.name@,
            archived: self.archived,
            metadata_version: self.metadata_version,
            deleted_at: self.deleted_at,
        }
    }
}

/// A space with the server's metadata.
pub open spec fn space_with_metadata(s: SpaceView, m: RemoteMetadataView) -> SpaceView {
    SpaceView {
        name: m.name,
        archived: m.archived,
        metadata_version: m.metadata_version,
        deleted_at: m.deleted_at,
        ..s
    }
}

/// The tombstones without those of a space.
pub open spec fn without_space_tombstones(
    list: Seq<TombstoneView>,
    id: u64,
) -> Seq<TombstoneView> {
    list.filter(|t: TombstoneView| t.kind != TombstoneKind::Space || t.id != id)
}

/// The tombstones after an operation reached the server: a deletion leaves
/// one, a restoration takes it away.
pub open spec fn tombstones_after(
    list: Seq<TombstoneView>,
    operation: SpaceMetadataOperation,
    m: RemoteMetadataView,
    now: u64,
) -> Seq<TombstoneView> {
    match operation {
        SpaceMetadataOperation::Delete => with_space_tombstone(
            list,
            m.space_id,
            m.stable_id,
            match m.deleted_at {
                Some(deleted_at) => deleted_at,
                None => now,
            },
        ),
        SpaceMetadataOperation::Restore => without_space_tombstones(list, m.space_id),
        _ => list,
    }
}

/// Takes the tombstones of a space out of a list.
pub fn remove_space_tombstones(list: &Vec<Tombstone>, id: u64) -> (r: Vec<Tombstone>)
    ensures
        views(r@) == without_space_tombstones(views(list@), id),
{
    broadcast use views_push;

    let ghost all = views(list@);
    let ghost pred = |t: TombstoneView| t.kind != TombstoneKind::Space || t.id != id;
    let mut out: Vec<Tombstone> = Vec::new();
    proof {
        filter_ends(all, pred);
    }
    assert(views(out@) =~= all.take(0).filter(pred));
    let mut i: usize = 0;
    while i < list.len()
        invariant
            all == views(list@),
            pred == (|t: TombstoneView| t.kind != TombstoneKind::Space || t.id != id),
            i <= list@.len(),
            views(out@) == all.take(i as int).filter(pred),
        decreases list@.len() - i,
    {
        proof {
            filter_step(all, pred, i as int);
        }
        if list[i].kind != TombstoneKind::Space || list[i].id != id {
            out.push(list[i].clone());
        }
        i = i + 1;
    }
    out
}

/// Puts a tombstone for a space into a list that has none.
pub fn add_space_tombstone(
    list: &Vec<Tombstone>,
    id: u64,
    stable_id: &String,
    deleted_at: u64,
) -> (r: Vec<Tombstone>)
    ensures
        views(r@) == with_space_tombstone(views(list@), id, stable_id@, deleted_at),
{
    broadcast use views_push;

    let mut out = clone_tombstones(list);
    if !tombstone_exists(list, TombstoneKind::Space, id) {
        out.push(
            Tombstone {
                kind: TombstoneKind::Space,
                id,
                stable_id: stable_id.clone(),
                deleted_at,
            },
        );
    }
    out
}

/// Gives a space the server's metadata.
pub fn apply_metadata(spaces: &Vec<Space>, m: &RemoteMetadata) -> (r: Vec<Space>)
    ensures
        views(r@) == with_space(
            views(spaces@),
            m.space_id,
            |s: SpaceView| space_with_metadata(s, m@),
        ),
{
    let i = position_of_space(spaces, m.space_id);
    if i < spaces.len() {
        let mut space = spaces[i].clone();
        space.name = m.name.clone();
        space.archived = m.archived;
        space.metadata_version = m.metadata_version;
        space.deleted_at = m.deleted_at;
        replace_space(spaces, i, space)
    } else {
        clone_spaces(spaces)
    }
}

/// Sets or removes the tombstone of a space after an operation.
pub fn apply_tombstones(
    list: &Vec<Tombstone>,
    operation: SpaceMetadataOperation,
    m: &RemoteMetadata,
    now: u64,
) -> (r: Vec<Tombstone>)
    ensures
        views(r@) == tombstones_after(views(list@), operation, m@, now),
{
    match operation {
        SpaceMetadataOperation::Delete => {
            let deleted_at: u64 = match m.deleted_at {
                Some(time) => time,
                None => now,
            };
            add_space_tombstone(list, m.space_id, &m.stable_id, deleted_at)
        },
        SpaceMetadataOperation::Restore => remove_space_tombstones(list, m.space_id),
        _ => clone_tombstones(list),
    }
}

/// On the way to the server an operation goes by the word for what it does.
pub proof fn operations_go_by_their_words(name: Seq<char>)
    ensures
        operation_text(SpaceMetadataOperation::Rename) == "rename"@,
        operation_text(SpaceMetadataOperation::Archive) == "archive"@,
        operation_text(SpaceMetadataOperation::Unarchive) == "unarchive"@,
        operation_text(SpaceMetadataOperation::Delete) == "delete"@,
        operation_text(SpaceMetadataOperation::Restore) == "restore"@,
        named_operation(name) matches Some(operation) ==> operation_text(operation) == name,
{
}

/// A change counts as done where the space already is as the change asks. In a
/// deleted space nothing but the archiving and the deletion are done.
pub proof fn changes_are_done_where_nothing_is_left_to_do(
    operation: SpaceMetadataOperation,
    name: Option<Seq<char>>,
    remote: ManifestView,
)
    ensures
        remote.deleted_at is Some ==> is_satisfied(operation, name, remote) == (operation
            == SpaceMetadataOperation::Archive || operation == SpaceMetadataOperation::Delete),
        remote.deleted_at is None ==> is_satisfied(operation, name, remote) == {
            let asked = update_of(operation, name);
            &&& operation == SpaceMetadataOperation::Rename ==> asked.name == Some(remote.name)
            &&& asked.archived matches Some(archived) ==> archived == remote.archived
            &&& asked.deleted matches Some(deleted) ==> !deleted
        },
        is_satisfied(SpaceMetadataOperation::Archive, name, remote) && is_satisfied(
            SpaceMetadataOperation::Unarchive,
            name,
            remote,
        ) ==> false,
        is_satisfied(SpaceMetadataOperation::Delete, name, remote) && is_satisfied(
            SpaceMetadataOperation::Restore,
            name,
            remote,
        ) ==> false,
{
}

/// What the server says of a space goes into the first space of its id and into
/// no other: its name, whether it is archived or deleted, and its version; the
/// board stays.
pub proof fn metadata_reaches_one_space(spaces: Seq<SpaceView>, m: RemoteMetadataView, k: int)
    requires
        0 <= k < spaces.len(),
    ensures
        ({
            let after = with_space(
                spaces,
                m.space_id,
                |s: SpaceView| space_with_metadata(s, m),
            );
            &&& after.len() == spaces.len()
            &&& !is_first_of(spaces, m.space_id, k) ==> after[k] == spaces[k]
            &&& is_first_of(spaces, m.space_id, k) ==> {
                &&& after[k].name == m.name
                &&& after[k].archived == m.archived
                &&& after[k].deleted_at == m.deleted_at
                &&& after[k].metadata_version == m.metadata_version
                &&& after[k].id == spaces[k].id
                &&& after[k].stable_id == spaces[k].stable_id
                &&& after[k].board == spaces[k].board
                &&& after[k].created_at == spaces[k].created_at
                &&& after[k].updated_at == spaces[k].updated_at
                &&& after[k].sync_enabled == spaces[k].sync_enabled
                &&& after[k].sync_override == spaces[k].sync_override
            }
        }),
{
    crate::spaces::changes_touch_one_space(
        spaces,
        m.space_id,
        |s: SpaceView| space_with_metadata(s, m),
        k,
    );
}

/// A deletion leaves a tombstone of the space and takes none away; a restoring
/// takes the tombstones of the space away and no other; nothing else touches
/// them.
pub proof fn tombstones_follow_the_change(
    list: Seq<TombstoneView>,
    operation: SpaceMetadataOperation,
    m: RemoteMetadataView,
    now: u64,
    t: TombstoneView,
)
    ensures
        ({
            let after = tombstones_after(list, operation, m, now);
            let of_space = t.kind == TombstoneKind::Space && t.id == m.space_id;
            &&& !of_space ==> after.contains(t) == list.contains(t)
            &&& operation == SpaceMetadataOperation::Restore && of_space ==> !after.contains(t)
            &&& operation == SpaceMetadataOperation::Delete ==> has_tombstone(
                after,
                TombstoneKind::Space,
                m.space_id,
            ) && (list.contains(t) ==> after.contains(t))
            &&& operation == SpaceMetadataOperation::Delete && !list.contains(t) && after.contains(t)
                ==> t.stable_id == m.stable_id && t.deleted_at == (match m.deleted_at {
                Some(deleted_at) => deleted_at,
                None => now,
            }) && !has_tombstone(list, TombstoneKind::Space, m.space_id)
            &&& operation != SpaceMetadataOperation::Delete && operation
                != SpaceMetadataOperation::Restore ==> after == list
        }),
{
    let after = tombstones_after(list, operation, m, now);
    if operation == SpaceMetadataOperation::Restore {
        let pred = |t: TombstoneView| t.kind != TombstoneKind::Space || t.id != m.space_id;
        if after.contains(t) {
            filter_member(list, pred, after.index_of(t));
        }
        if list.contains(t) && pred(t) {
            filter_keeps(list, pred, list.index_of(t));
        }
    }
    if operation == SpaceMetadataOperation::Delete && !has_tombstone(
        list,
        TombstoneKind::Space,
        m.space_id,
    ) {
        assert(after[list.len() as int].id == m.space_id);
        assert(after.contains(after[list.len() as int]));
        if list.contains(t) {
            assert(after[list.index_of(t)] == t);
        }
        if after.contains(t) && after.index_of(t) < list.len() {
            assert(list[after.index_of(t)] == t);
        }
    }
}

/// Queued changes go by the time at which they were made, and at one time by
/// their identity.
pub proof fn queues_go_by_time(queue: Seq<QueuedMetadataView>, i: int, j: int)
    requires
        queue_in_order(queue),
        0 <= i < j < queue.len(),
    ensures
        queue[i].created_at <= queue[j].created_at,
        queue[i].created_at == queue[j].created_at ==> queue[i].operation_id
            == queue[j].operation_id || text_less(queue[i].operation_id, queue[j].operation_id),
{
    text_less_is_a_strict_order(
        queue[i].operation_id,
        queue[j].operation_id,
        queue[i].operation_id,
    );
}

/// Two queues that agree on every time and identity hold the same changes.
pub proof fn sorted_queues_hold_the_same(
    a: Seq<QueuedMetadataView>,
    b: Seq<QueuedMetadataView>,
    q: QueuedMetadataView,
)
    requires
        forall|key: (u64, Seq<char>)| #[trigger] with_key(a, key) == with_key(b, key),
    ensures
        a.contains(q) == b.contains(q),
{
    let key = (q.created_at, q.operation_id);
    let pred = |x: QueuedMetadataView| queue_key(x) == key;
    assert(with_key(a, key) == with_key(b, key));
    if a.contains(q) {
        filter_keeps(a, pred, a.index_of(q));
        filter_member(b, pred, b.filter(pred).index_of(q));
    }
    if b.contains(q) {
        filter_keeps(b, pred, b.index_of(q));
        filter_member(a, pred, a.filter(pred).index_of(q));
    }
}

} // verus!
