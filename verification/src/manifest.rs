//! Joining the server's list of spaces with the spaces on the device.
use vstd::prelude::*;
use vstd::string::*;

use crate::identity::contains_id;
use crate::lists::filter_ends;
use crate::lists::filter_step;
use crate::lists::views;
use crate::lists::views_push;
use crate::metadata::add_space_tombstone;
use crate::metadata::remove_space_tombstones;
use crate::metadata::without_space_tombstones;
use crate::metadata::ManifestView;
use crate::metadata::RemoteMetadataView;
use crate::metadata::SpaceManifestEntry;
use crate::model::blank_board;
use crate::model::clone_spaces;
use crate::model::clone_tombstones;
use crate::model::empty_board;
use crate::model::Space;
use crate::model::SpaceView;
use crate::model::Tombstone;
use crate::model::TombstoneKind;
use crate::model::TombstoneView;
use crate::spaces::with_space_tombstone;
use crate::spaces::SpaceMetadataOperation;
use crate::text::text_eq;
use crate::workspace::first_space;
use crate::workspace::first_space_at;
use crate::workspace::first_space_is_least;
use crate::workspace::is_first_of;
use crate::workspace::is_open;
use crate::workspace::position_of_space;
use crate::workspace::replace_space;
use crate::workspace::resolve_id;
use crate::workspace::resolved_id;
use crate::workspace::Surroundings;
use crate::workspace::SurroundingsView;

verus! {

/// The ids of the server's spaces.
pub open spec fn manifest_ids(remotes: Seq<ManifestView>) -> Seq<u64> {
    remotes.map_values(|r: ManifestView| r.id)
}

/// Whether the user decided that a space stays on the device.
pub open spec fn kept_local(spaces: Seq<SpaceView>, id: u64) -> bool {
    let i = first_space(spaces, |s: SpaceView| s.id == id);
    i < spaces.len() && spaces[i].sync_override == Some(false)
}

/// The tombstones after the server's list was read: what the server deleted
/// has one, what it has not deleted has none. Spaces that the user keeps on
/// the device are left alone.
pub open spec fn tombstones_from_manifest(
    list: Seq<TombstoneView>,
    spaces: Seq<SpaceView>,
    remotes: Seq<ManifestView>,
) -> Seq<TombstoneView>
    decreases remotes.len(),
{
    if remotes.len() == 0 {
        list
    } else {
        let before = tombstones_from_manifest(list, spaces, remotes.drop_last());
        let r = remotes.last();
        if kept_local(spaces, r.id) {
            before
        } else {
            match r.deleted_at {
                Some(deleted_at) => with_space_tombstone(before, r.id, r.stable_id, deleted_at),
                None => without_space_tombstones(before, r.id),
            }
        }
    }
}

/// A space that nobody has used: the one that an empty namespace starts with.
pub open spec fn is_placeholder(s: SpaceView) -> bool {
    &&& s.board.notes.len() == 0
    &&& s.board.groups.len() == 0
    &&& s.board.tombstones.len() == 0
    &&& s.name == "my space"@
}

/// Whether the active space is an unused one.
pub open spec fn active_is_placeholder(spaces: Seq<SpaceView>, active: u64) -> bool {
    let i = first_space(spaces, |s: SpaceView| s.id == active);
    i < spaces.len() && is_placeholder(spaces[i])
}

/// The spaces without the unused active one, where the server has others and
/// does not know it.
pub open spec fn without_placeholder(
    spaces: Seq<SpaceView>,
    active: u64,
    remotes: Seq<ManifestView>,
) -> Seq<SpaceView> {
    if active_is_placeholder(spaces, active) && exists|i: int|
        0 <= i < remotes.len() && (#[trigger] remotes[i]).id != active {
        spaces.filter(
            |s: SpaceView|
                s.id != active || manifest_ids(remotes).contains(s.id) || s.sync_override == Some(
                    false,
                ) || !is_placeholder(s),
        )
    } else {
        spaces
    }
}

/// A space on the device that the server has too. Where the user keeps it on
/// the device, its name, its place and its times stay.
pub open spec fn joined_space(env: SurroundingsView, s: SpaceView, r: ManifestView) -> SpaceView {
    let base = SpaceView {
        stable_id: resolved_id(env, TombstoneKind::Space, r.id, r.stable_id),
        sync_enabled: match s.sync_override {
            Some(choice) => choice,
            None => true,
        },
        metadata_version: r.metadata_version,
        ..s
    };
    if s.sync_override == Some(false) {
        base
    } else {
        SpaceView {
            name: r.name,
            archived: r.archived || r.deleted_at is Some,
            updated_at: r.updated_at,
            deleted_at: r.deleted_at,
            ..base
        }
    }
}

/// A space that only the server has, on the device. Its board comes later.
pub open spec fn arrived_space(env: SurroundingsView, r: ManifestView) -> SpaceView {
    SpaceView {
        id: r.id,
        stable_id: resolved_id(env, TombstoneKind::Space, r.id, r.stable_id),
        name: r.name,
        sync_enabled: true,
        sync_override: None,
        metadata_version: r.metadata_version,
        archived: r.archived || r.deleted_at is Some,
        created_at: r.created_at,
        updated_at: r.updated_at,
        deleted_at: r.deleted_at,
        board: blank_board(env.schema_version),
    }
}

/// The spaces with those of the server joined in, in order.
pub open spec fn joined_spaces(
    env: SurroundingsView,
    spaces: Seq<SpaceView>,
    remotes: Seq<ManifestView>,
) -> Seq<SpaceView>
    decreases remotes.len(),
{
    if remotes.len() == 0 {
        spaces
    } else {
        let before = joined_spaces(env, spaces, remotes.drop_last());
        let r = remotes.last();
        let i = first_space(before, |s: SpaceView| s.id == r.id);
        if i < before.len() {
            before.update(i, joined_space(env, before[i], r))
        } else {
            before.push(arrived_space(env, r))
        }
    }
}

/// The active space after the server's spaces were joined in: an unused one,
/// or one that is not open, makes room for the first open space of the server.
pub open spec fn joined_active(
    spaces: Seq<SpaceView>,
    active: u64,
    was_placeholder: bool,
    remotes: Seq<ManifestView>,
) -> u64 {
    let valid = first_space(spaces, |s: SpaceView| s.id == active && is_open(s)) < spaces.len();
    let remote = manifest_ids(remotes).contains(active);
    let next = first_space(
        spaces,
        |s: SpaceView| manifest_ids(remotes).contains(s.id) && is_open(s),
    );
    if (!valid || (!remote && was_placeholder)) && next < spaces.len() {
        spaces[next].id
    } else {
        active
    }
}

/// What a device holds after the server's list was joined in.
pub struct JoinedView {
    pub spaces: Seq<SpaceView>,
    pub tombstones: Seq<TombstoneView>,
    pub active_space_id: u64,
}

/// The whole step of joining the server's list in.
pub open spec fn joined(
    env: SurroundingsView,
    spaces: Seq<SpaceView>,
    tombstones: Seq<TombstoneView>,
    active: u64,
    remotes: Seq<ManifestView>,
) -> JoinedView {
    let next = joined_spaces(env, without_placeholder(spaces, active, remotes), remotes);
    JoinedView {
        spaces: next,
        tombstones: tombstones_from_manifest(tombstones, spaces, remotes),
        active_space_id: joined_active(
            next,
            active,
            active_is_placeholder(spaces, active),
            remotes,
        ),
    }
}

/// What a device holds after the server's list was joined in.
#[derive(Debug, PartialEq)]
pub struct Joined {
    pub spaces: Vec<Space>,
    pub tombstones: Vec<Tombstone>,
    pub active_space_id: u64,
}

impl View for Joined {
    type V = JoinedView;

    open spec fn view(&self) -> JoinedView {
        JoinedView {
            spaces: views(self.spaces@),
            tombstones: views(self.tombstones@),
            active_space_id: self.active_space_id,
        }
    }
}

fn ids_of_manifest(remotes: &Vec<SpaceManifestEntry>) -> (r: Vec<u64>)
    ensures
        r@ == manifest_ids(views(remotes@)),
{
    let mut out: Vec<u64> = Vec::new();
    let mut i: usize = 0;
    while i < remotes.len()
        invariant
            i <= remotes@.len(),
            out@.len() == i,
            forall|j: int| 0 <= j < i ==> #[trigger] out@[j] == remotes@[j].id,
        decreases remotes@.len() - i,
    {
        out.push(remotes[i].id);
        i = i + 1;
    }
    assert(out@ =~= manifest_ids(views(remotes@)));
    out
}

fn is_kept_local(spaces: &Vec<Space>, id: u64) -> (r: bool)
    ensures
        r == kept_local(views(spaces@), id),
{
    let i = position_of_space(spaces, id);
    i < spaces.len() && spaces[i].sync_override == Some(false)
}

fn tombstones_for_manifest(
    list: &Vec<Tombstone>,
    spaces: &Vec<Space>,
    remotes: &Vec<SpaceManifestEntry>,
) -> (r: Vec<Tombstone>)
    ensures
        views(r@) == tombstones_from_manifest(views(list@), views(spaces@), views(remotes@)),
{
    let ghost all = views(remotes@);
    let mut out = clone_tombstones(list);
    let mut i: usize = 0;
    assert(all.take(0) =~= Seq::empty());
    while i < remotes.len()
        invariant
            all == views(remotes@),
            i <= remotes@.len(),
            views(out@) == tombstones_from_manifest(
                views(list@),
                views(spaces@),
                all.take(i as int),
            ),
        decreases remotes@.len() - i,
    {
        let r = &remotes[i];
        assert(all.take(i + 1).drop_last() =~= all.take(i as int));
        assert(all.take(i + 1).last() == r@);
        if !is_kept_local(spaces, r.id) {
            out = match r.deleted_at {
                Some(deleted_at) => add_space_tombstone(&out, r.id, &r.stable_id, deleted_at),
                None => remove_space_tombstones(&out, r.id),
            };
        }
        i = i + 1;
    }
    assert(all.take(i as int) =~= all);
    out
}

fn unused(space: &Space) -> (r: bool)
    ensures
        r == is_placeholder(space@),
{
    space.board.notes.len() == 0 && space.board.groups.len() == 0 && space.board.tombstones.len()
        == 0 && text_eq(&space.name, "my space")
}

fn drop_placeholder(spaces: &Vec<Space>, active: u64, ids: &Vec<u64>) -> (r: Vec<Space>)
    ensures
        views(r@) == views(spaces@).filter(
            |s: SpaceView|
                s.id != active || ids@.contains(s.id) || s.sync_override == Some(false)
                    || !is_placeholder(s),
        ),
{
    broadcast use views_push;

    let ghost all = views(spaces@);
    let ghost pred = |s: SpaceView|
        s.id != active || ids@.contains(s.id) || s.sync_override == Some(false) || !is_placeholder(
            s,
        );
    let mut out: Vec<Space> = Vec::new();
    proof {
        filter_ends(all, pred);
    }
    assert(views(out@) =~= all.take(0).filter(pred));
    let mut i: usize = 0;
    while i < spaces.len()
        invariant
            all == views(spaces@),
            pred == (|s: SpaceView|
                s.id != active || ids@.contains(s.id) || s.sync_override == Some(false)
                    || !is_placeholder(s)),
            i <= spaces@.len(),
            views(out@) == all.take(i as int).filter(pred),
        decreases spaces@.len() - i,
    {
        proof {
            filter_step(all, pred, i as int);
        }
        let s = &spaces[i];
        if s.id != active || contains_id(ids, s.id) || s.sync_override == Some(false) || !unused(
            s,
        ) {
            out.push(s.clone());
        }
        i = i + 1;
    }
    out
}

fn join_spaces(
    env: &Surroundings,
    spaces: &Vec<Space>,
    remotes: &Vec<SpaceManifestEntry>,
) -> (r: Vec<Space>)
    ensures
        views(r@) == joined_spaces(env@, views(spaces@), views(remotes@)),
{
    broadcast use views_push;

    let ghost all = views(remotes@);
    let mut out = clone_spaces(spaces);
    let mut i: usize = 0;
    assert(all.take(0) =~= Seq::empty());
    while i < remotes.len()
        invariant
            all == views(remotes@),
            i <= remotes@.len(),
            views(out@) == joined_spaces(env@, views(spaces@), all.take(i as int)),
        decreases remotes@.len() - i,
    {
        let r = &remotes[i];
        assert(all.take(i + 1).drop_last() =~= all.take(i as int));
        assert(all.take(i + 1).last() == r@);
        let stable_id = resolve_id(env, TombstoneKind::Space, r.id, &r.stable_id);
        let k = position_of_space(&out, r.id);
        if k < out.len() {
            let mut s = out[k].clone();
            s.stable_id = stable_id;
            s.sync_enabled = match s.sync_override {
                Some(choice) => choice,
                None => true,
            };
            if s.sync_override != Some(false) {
                s.name = r.name.clone();
                s.archived = r.archived || r.deleted_at.is_some();
                s.updated_at = r.updated_at;
                s.deleted_at = r.deleted_at;
            }
            s.metadata_version = r.metadata_version;
            assert(s@ == joined_space(env@, out@[k as int]@, r@));
            out = replace_space(&out, k, s);
        } else {
            let s = Space {
                id: r.id,
                stable_id,
                name: r.name.clone(),
                sync_enabled: true,
                sync_override: None,
                metadata_version: r.metadata_version,
                archived: r.archived || r.deleted_at.is_some(),
                created_at: r.created_at,
                updated_at: r.updated_at,
                deleted_at: r.deleted_at,
                board: empty_board(env.schema_version),
            };
            assert(s@ == arrived_space(env@, r@));
            out.push(s);
        }
        i = i + 1;
    }
    assert(all.take(i as int) =~= all);
    out
}

fn position_of_remote_open(spaces: &Vec<Space>, ids: &Vec<u64>) -> (r: usize)
    ensures
        r == first_space(
            views(spaces@),
            |s: SpaceView| ids@.contains(s.id) && is_open(s),
        ),
        r <= spaces@.len(),
{
    let ghost all = views(spaces@);
    let mut i: usize = 0;
    while i < spaces.len() && !(contains_id(ids, spaces[i].id) && !spaces[i].archived
        && spaces[i].deleted_at.is_none())
        invariant
            all == views(spaces@),
            i <= spaces@.len(),
            forall|j: int|
                0 <= j < i ==> !(ids@.contains((#[trigger] all[j]).id) && is_open(all[j])),
        decreases spaces@.len() - i,
    {
        i = i + 1;
    }
    proof {
        first_space_at(all, |s: SpaceView| ids@.contains(s.id) && is_open(s), i as int);
    }
    i
}

/// Joins the server's list of spaces with the spaces on the device.
pub fn merge_remote_spaces(
    env: &Surroundings,
    spaces: &Vec<Space>,
    tombstones: &Vec<Tombstone>,
    active: u64,
    remotes: &Vec<SpaceManifestEntry>,
) -> (r: Joined)
    ensures
        r@ == joined(env@, views(spaces@), views(tombstones@), active, views(remotes@)),
{
    let ids = ids_of_manifest(remotes);
    let next_tombstones = tombstones_for_manifest(tombstones, spaces, remotes);
    let front = position_of_space(spaces, active);
    let was_placeholder = front < spaces.len() && unused(&spaces[front]);
    let mut others = false;
    let mut i: usize = 0;
    while i < remotes.len()
        invariant
            i <= remotes@.len(),
            others == exists|j: int|
                0 <= j < i && (#[trigger] views(remotes@)[j]).id != active,
        decreases remotes@.len() - i,
    {
        assert(views(remotes@)[i as int] == remotes@[i as int]@);
        if remotes[i].id != active {
            others = true;
        }
        i = i + 1;
    }
    let kept = if was_placeholder && others {
        drop_placeholder(spaces, active, &ids)
    } else {
        clone_spaces(spaces)
    };
    assert(views(kept@) == without_placeholder(views(spaces@), active, views(remotes@)));
    let next = join_spaces(env, &kept, remotes);
    let valid = crate::spaces::position_of_open_space(&next, active) < next.len();
    let mut active_space_id: u64 = active;
    if !valid || (!contains_id(&ids, active) && was_placeholder) {
        let k = position_of_remote_open(&next, &ids);
        if k < next.len() {
            active_space_id = next[k].id;
        }
    }
    Joined { spaces: next, tombstones: next_tombstones, active_space_id }
}

/// The number that the next space could get: above every id of the server.
pub open spec fn next_above(next: u64, remotes: Seq<ManifestView>) -> u64
    decreases remotes.len(),
{
    if remotes.len() == 0 {
        next
    } else {
        let before = next_above(next, remotes.drop_last());
        let after = if remotes.last().id == u64::MAX {
            u64::MAX
        } else {
            (remotes.last().id + 1) as u64
        };
        if after > before {
            after
        } else {
            before
        }
    }
}

/// The number that the next space could get after the server's list came.
pub fn next_space_number(next: u64, remotes: &Vec<SpaceManifestEntry>) -> (r: u64)
    ensures
        r == next_above(next, views(remotes@)),
{
    let ghost all = views(remotes@);
    let mut out: u64 = next;
    let mut i: usize = 0;
    assert(all.take(0) =~= Seq::empty());
    while i < remotes.len()
        invariant
            all == views(remotes@),
            i <= remotes@.len(),
            out == next_above(next, all.take(i as int)),
        decreases remotes@.len() - i,
    {
        assert(all.take(i + 1).drop_last() =~= all.take(i as int));
        assert(all.take(i + 1).last() == remotes@[i as int]@);
        let after: u64 = remotes[i].id.saturating_add(1);
        if after > out {
            out = after;
        }
        i = i + 1;
    }
    assert(all.take(i as int) =~= all);
    out
}

proof fn joining_keeps_places(env: SurroundingsView, spaces: Seq<SpaceView>, remotes: Seq<ManifestView>)
    ensures
        spaces.len() <= joined_spaces(env, spaces, remotes).len(),
        forall|i: int|
            0 <= i < spaces.len() ==> {
                let s = #[trigger] joined_spaces(env, spaces, remotes)[i];
                &&& s.id == spaces[i].id
                &&& s.board == spaces[i].board
                &&& s.created_at == spaces[i].created_at
                &&& s.sync_override == spaces[i].sync_override
                &&& spaces[i].sync_override == Some(false) ==> {
                    &&& s.name == spaces[i].name
                    &&& s.archived == spaces[i].archived
                    &&& s.deleted_at == spaces[i].deleted_at
                    &&& s.updated_at == spaces[i].updated_at
                    &&& spaces[i].sync_enabled == false ==> s.sync_enabled == false
                }
            },
    decreases remotes.len(),
{
    if remotes.len() > 0 {
        joining_keeps_places(env, spaces, remotes.drop_last());
        let before = joined_spaces(env, spaces, remotes.drop_last());
        let id = remotes.last().id;
        first_space_is_least(before, |s: SpaceView| s.id == id);
    }
}

/// Whether a space of the device came through the joining with its board, and
/// with everything else where the user keeps it on the device.
pub open spec fn survives_as(s: SpaceView, t: SpaceView) -> bool {
    &&& t.id == s.id
    &&& t.board == s.board
    &&& t.created_at == s.created_at
    &&& t.sync_override == s.sync_override
    &&& s.sync_override == Some(false) ==> {
        &&& t.name == s.name
        &&& t.archived == s.archived
        &&& t.deleted_at == s.deleted_at
        &&& t.updated_at == s.updated_at
        &&& !s.sync_enabled ==> !t.sync_enabled
    }
}

/// Joining the server's list never takes a space from the device but for an
/// unused placeholder, and never touches a board. Spaces that the user keeps
/// on the device keep their name, their place and their times.
pub proof fn joining_keeps_local_work(
    env: SurroundingsView,
    spaces: Seq<SpaceView>,
    tombstones: Seq<TombstoneView>,
    active: u64,
    remotes: Seq<ManifestView>,
    s: SpaceView,
)
    requires
        spaces.contains(s),
        !is_placeholder(s) || s.sync_override == Some(false),
    ensures
        exists|j: int|
            0 <= j < joined(env, spaces, tombstones, active, remotes).spaces.len() && survives_as(
                s,
                #[trigger] joined(env, spaces, tombstones, active, remotes).spaces[j],
            ),
{
    let kept = without_placeholder(spaces, active, remotes);
    let i = spaces.index_of(s);
    let pred = |s: SpaceView|
        s.id != active || manifest_ids(remotes).contains(s.id) || s.sync_override == Some(false)
            || !is_placeholder(s);
    assert(kept.contains(s)) by {
        if kept == spaces.filter(pred) {
            crate::lists::filter_keeps(spaces, pred, i);
        } else {
            assert(kept == spaces);
        }
    }
    let k = kept.index_of(s);
    joining_keeps_places(env, kept, remotes);
    let r = joined(env, spaces, tombstones, active, remotes).spaces;
    assert(survives_as(s, r[k]));
}

/// No two entries of a list share an id.
pub open spec fn ids_differ(remotes: Seq<ManifestView>) -> bool {
    forall|a: int, b: int|
        0 <= a < b < remotes.len() ==> (#[trigger] remotes[a]).id != (#[trigger] remotes[b]).id
}

/// Whether a space is as an entry of the server's list says.
pub open spec fn follows(s: SpaceView, r: ManifestView) -> bool {
    &&& s.id == r.id
    &&& s.name == r.name
    &&& s.updated_at == r.updated_at
    &&& s.deleted_at == r.deleted_at
    &&& s.archived == (r.archived || r.deleted_at is Some)
    &&& s.metadata_version == r.metadata_version
}

proof fn joined_entry(
    env: SurroundingsView,
    spaces: Seq<SpaceView>,
    remotes: Seq<ManifestView>,
    k: int,
)
    requires
        ids_differ(remotes),
        0 <= k < remotes.len(),
    ensures
        ({
            let all = joined_spaces(env, spaces, remotes);
            let r = remotes[k];
            let i = first_space(all, |s: SpaceView| s.id == r.id);
            let p = first_space(spaces, |s: SpaceView| s.id == r.id);
            &&& i < all.len()
            &&& all[i].id == r.id
            &&& all[i].metadata_version == r.metadata_version
            &&& all[i].stable_id == resolved_id(env, TombstoneKind::Space, r.id, r.stable_id)
            &&& all[i].sync_enabled == (all[i].sync_override != Some(false))
            &&& all[i].sync_override != Some(false) ==> follows(all[i], r)
            &&& p < spaces.len() ==> i == p && all[i].sync_override == spaces[p].sync_override
                && all[i].board == spaces[p].board && all[i].created_at == spaces[p].created_at
            &&& p >= spaces.len() ==> all[i].sync_override is None && all[i].created_at
                == r.created_at && all[i].board == blank_board(env.schema_version)
        }),
    decreases remotes.len(),
{
    let all = joined_spaces(env, spaces, remotes);
    let rest = remotes.drop_last();
    let before = joined_spaces(env, spaces, rest);
    let last = remotes.last();
    let r = remotes[k];
    let pred = |s: SpaceView| s.id == r.id;
    let other = |s: SpaceView| s.id == last.id;
    let u = first_space(before, other);
    first_space_is_least(before, other);
    first_space_is_least(before, pred);
    first_space_is_least(spaces, pred);
    joining_keeps_places(env, spaces, rest);
    assert(ids_differ(rest)) by {
        assert forall|a: int, b: int| 0 <= a < b < rest.len() implies (#[trigger] rest[a]).id != (
        #[trigger] rest[b]).id by {
            assert(rest[a] == remotes[a] && rest[b] == remotes[b]);
        }
    }
    let p = first_space(spaces, pred);
    if k == remotes.len() - 1 {
        // The last entry was joined in just now, and no earlier one has its id.
        if u < before.len() {
            assert forall|j: int| 0 <= j < u implies !pred(#[trigger] all[j]) by {
                assert(all[j] == before[j]);
                assert(!other(before[j]));
            }
            first_space_at(all, pred, u);
            joined_untouched(env, spaces, rest, last.id);
        } else {
            assert forall|j: int| 0 <= j < before.len() implies !pred(#[trigger] all[j]) by {
                assert(all[j] == before[j]);
                assert(!other(before[j]));
            }
            first_space_at(all, pred, before.len() as int);
            joined_untouched(env, spaces, rest, last.id);
        }
    } else {
        assert(remotes[k].id != remotes[remotes.len() - 1].id);
        joined_entry(env, spaces, rest, k);
        assert(rest[k] == r);
        let i = first_space(before, pred);
        assert forall|j: int| 0 <= j < i implies !pred(#[trigger] all[j]) by {
            assert(!pred(before[j]));
            if u < before.len() && j == u {
                assert(other(before[u]));
            }
        }
        if u < before.len() {
            assert(other(before[u]));
        }
        assert(all[i] == before[i]);
        first_space_at(all, pred, i);
    }
}

proof fn joined_untouched(
    env: SurroundingsView,
    spaces: Seq<SpaceView>,
    remotes: Seq<ManifestView>,
    id: u64,
)
    requires
        forall|a: int| 0 <= a < remotes.len() ==> (#[trigger] remotes[a]).id != id,
    ensures
        ({
            let all = joined_spaces(env, spaces, remotes);
            let pred = |s: SpaceView| s.id == id;
            let p = first_space(spaces, pred);
            &&& spaces.len() <= all.len()
            &&& forall|i: int|
                0 <= i < spaces.len() && spaces[i].id == id ==> #[trigger] all[i] == spaces[i]
            &&& forall|i: int|
                0 <= i < spaces.len() ==> (#[trigger] all[i]).id == spaces[i].id
            &&& forall|i: int| spaces.len() <= i < all.len() ==> (#[trigger] all[i]).id != id
            &&& p < spaces.len() ==> first_space(all, pred) == p
            &&& p >= spaces.len() ==> first_space(all, pred) == all.len()
        }),
    decreases remotes.len(),
{
    let all = joined_spaces(env, spaces, remotes);
    let pred = |s: SpaceView| s.id == id;
    let p = first_space(spaces, pred);
    first_space_is_least(spaces, pred);
    if remotes.len() > 0 {
        let rest = remotes.drop_last();
        let before = joined_spaces(env, spaces, rest);
        let last = remotes.last();
        assert forall|a: int| 0 <= a < rest.len() implies (#[trigger] rest[a]).id != id by {
            assert(rest[a] == remotes[a]);
        }
        assert(last.id != id);
        joined_untouched(env, spaces, rest, id);
        first_space_is_least(before, |s: SpaceView| s.id == last.id);
    }
    if p < spaces.len() {
        assert forall|j: int| 0 <= j < p implies !pred(#[trigger] all[j]) by {
            assert(!pred(spaces[j]));
        }
        assert(all[p].id == id);
        first_space_at(all, pred, p);
    } else {
        assert forall|j: int| 0 <= j < all.len() implies !pred(#[trigger] all[j]) by {
            if j < spaces.len() {
                assert(!pred(spaces[j]));
            }
        }
        first_space_at(all, pred, all.len() as int);
    }
}

proof fn placeholder_filter(
    spaces: Seq<SpaceView>,
    active: u64,
    remotes: Seq<ManifestView>,
    s: SpaceView,
)
    ensures
        without_placeholder(spaces, active, remotes).contains(s) ==> spaces.contains(s),
        spaces.contains(s) && (s.id != active || manifest_ids(remotes).contains(s.id)
            || s.sync_override == Some(false) || !is_placeholder(s)) ==> without_placeholder(
            spaces,
            active,
            remotes,
        ).contains(s),
{
    let pred = |s: SpaceView|
        s.id != active || manifest_ids(remotes).contains(s.id) || s.sync_override == Some(false)
            || !is_placeholder(s);
    let kept = without_placeholder(spaces, active, remotes);
    if kept == spaces.filter(pred) {
        if kept.contains(s) {
            crate::lists::filter_member(spaces, pred, kept.index_of(s));
        }
        if spaces.contains(s) && pred(s) {
            crate::lists::filter_keeps(spaces, pred, spaces.index_of(s));
        }
    } else {
        assert(kept == spaces);
    }
}

/// What another device did to a space reaches this one: for every entry of the
/// server's list whose space the user does not keep on the device, there is a
/// space with its id that has its name, its times and its version, is archived
/// exactly where the entry is archived or deleted, and syncs. Before it stands
/// no other space of the id.
pub proof fn joining_follows_the_server(
    env: SurroundingsView,
    spaces: Seq<SpaceView>,
    tombstones: Seq<TombstoneView>,
    active: u64,
    remotes: Seq<ManifestView>,
    k: int,
)
    requires
        ids_differ(remotes),
        0 <= k < remotes.len(),
        forall|i: int|
            0 <= i < spaces.len() && (#[trigger] spaces[i]).id == remotes[k].id
                ==> spaces[i].sync_override != Some(false),
    ensures
        exists|i: int|
            0 <= i < joined(env, spaces, tombstones, active, remotes).spaces.len() && ({
                let s = #[trigger] joined(env, spaces, tombstones, active, remotes).spaces[i];
                let r = remotes[k];
                &&& s.id == r.id
                &&& s.name == r.name
                &&& s.updated_at == r.updated_at
                &&& s.deleted_at == r.deleted_at
                &&& s.archived == (r.archived || r.deleted_at is Some)
                &&& s.metadata_version == r.metadata_version
                &&& s.sync_enabled
                &&& env.valid_ids.contains(r.stable_id) ==> s.stable_id == r.stable_id
                &&& forall|j: int|
                    0 <= j < i ==> (#[trigger] joined(
                        env,
                        spaces,
                        tombstones,
                        active,
                        remotes,
                    ).spaces[j]).id != r.id
            }),
{
    let kept = without_placeholder(spaces, active, remotes);
    let r = remotes[k];
    let pred = |s: SpaceView| s.id == r.id;
    joined_entry(env, kept, remotes, k);
    let all = joined_spaces(env, kept, remotes);
    let i = first_space(all, pred);
    first_space_is_least(all, pred);
    first_space_is_least(kept, pred);
    let p = first_space(kept, pred);
    if p < kept.len() {
        assert(kept.contains(kept[p]));
        placeholder_filter(spaces, active, remotes, kept[p]);
        let o = spaces.index_of(kept[p]);
        assert(spaces[o].id == r.id);
    }
    assert(follows(all[i], r));
    assert forall|j: int| 0 <= j < i implies (#[trigger] all[j]).id != r.id by {
        assert(!pred(all[j]));
    }
    assert(joined(env, spaces, tombstones, active, remotes).spaces == all);
    assert(joined(env, spaces, tombstones, active, remotes).spaces[i].id == r.id);
}

/// A space that only the server has comes to the device with an empty board and
/// the server's times; one that the device has too keeps its board.
pub proof fn joining_brings_new_spaces(
    env: SurroundingsView,
    spaces: Seq<SpaceView>,
    tombstones: Seq<TombstoneView>,
    active: u64,
    remotes: Seq<ManifestView>,
    k: int,
)
    requires
        ids_differ(remotes),
        0 <= k < remotes.len(),
        forall|i: int| 0 <= i < spaces.len() ==> (#[trigger] spaces[i]).id != remotes[k].id,
    ensures
        exists|i: int|
            0 <= i < joined(env, spaces, tombstones, active, remotes).spaces.len() && ({
                let s = #[trigger] joined(env, spaces, tombstones, active, remotes).spaces[i];
                &&& s.id == remotes[k].id
                &&& s.name == remotes[k].name
                &&& s.created_at == remotes[k].created_at
                &&& s.board.notes.len() == 0
                &&& s.board.groups.len() == 0
                &&& s.board.tombstones.len() == 0
                &&& s.sync_enabled
                &&& s.sync_override is None
            }),
{
    let kept = without_placeholder(spaces, active, remotes);
    let r = remotes[k];
    let pred = |s: SpaceView| s.id == r.id;
    joined_entry(env, kept, remotes, k);
    first_space_is_least(kept, pred);
    let p = first_space(kept, pred);
    if p < kept.len() {
        assert(kept.contains(kept[p]));
        placeholder_filter(spaces, active, remotes, kept[p]);
        let o = spaces.index_of(kept[p]);
        assert(spaces[o].id == r.id);
    }
    let all = joined_spaces(env, kept, remotes);
    let i = first_space(all, pred);
    assert(i >= 0) by {
        first_space_is_least(all, pred);
    }
    assert(joined(env, spaces, tombstones, active, remotes).spaces == all);
    assert(joined(env, spaces, tombstones, active, remotes).spaces[i].id == r.id);
}

proof fn joined_sources(
    env: SurroundingsView,
    spaces: Seq<SpaceView>,
    remotes: Seq<ManifestView>,
    j: int,
)
    requires
        0 <= j < joined_spaces(env, spaces, remotes).len(),
    ensures
        ({
            let s = joined_spaces(env, spaces, remotes)[j];
            ||| j < spaces.len() && s.id == spaces[j].id
            ||| exists|k: int| 0 <= k < remotes.len() && (#[trigger] remotes[k]).id == s.id
        }),
    decreases remotes.len(),
{
    joining_keeps_places(env, spaces, remotes);
    if remotes.len() > 0 && j >= spaces.len() {
        let rest = remotes.drop_last();
        let before = joined_spaces(env, spaces, rest);
        let last = remotes.last();
        first_space_is_least(before, |s: SpaceView| s.id == last.id);
        if j < before.len() {
            joining_keeps_places(env, spaces, rest);
            joined_sources(env, spaces, rest, j);
            let s = before[j];
            let k = choose|k: int| 0 <= k < rest.len() && (#[trigger] rest[k]).id == s.id;
            assert(remotes[k] == rest[k]);
        } else {
            assert(remotes[remotes.len() - 1].id == last.id);
        }
    }
}

/// Joining makes up no space: each was on the device or is in the server's list.
/// A space of the device that the server does not list stays as it is, unless
/// it is the unused one that makes room.
pub proof fn joining_makes_nothing_up(
    env: SurroundingsView,
    spaces: Seq<SpaceView>,
    tombstones: Seq<TombstoneView>,
    active: u64,
    remotes: Seq<ManifestView>,
    j: int,
    s: SpaceView,
)
    ensures
        0 <= j < joined(env, spaces, tombstones, active, remotes).spaces.len() ==> ({
            let id = joined(env, spaces, tombstones, active, remotes).spaces[j].id;
            ||| exists|i: int| 0 <= i < spaces.len() && (#[trigger] spaces[i]).id == id
            ||| exists|k: int| 0 <= k < remotes.len() && (#[trigger] remotes[k]).id == id
        }),
        spaces.contains(s) && (forall|k: int|
            0 <= k < remotes.len() ==> (#[trigger] remotes[k]).id != s.id) && (s.id != active
            || s.name != "my space"@ || s.board.notes.len() > 0 || s.board.groups.len() > 0
            || s.board.tombstones.len() > 0 || s.sync_override == Some(false)) ==> joined(
            env,
            spaces,
            tombstones,
            active,
            remotes,
        ).spaces.contains(s),
{
    let kept = without_placeholder(spaces, active, remotes);
    let all = joined_spaces(env, kept, remotes);
    if 0 <= j < all.len() {
        joined_sources(env, kept, remotes, j);
        if j < kept.len() && all[j].id == kept[j].id {
            assert(kept.contains(kept[j]));
            placeholder_filter(spaces, active, remotes, kept[j]);
            let i = spaces.index_of(kept[j]);
            assert(spaces[i].id == all[j].id);
        }
    }
    if spaces.contains(s) && (forall|k: int|
        0 <= k < remotes.len() ==> (#[trigger] remotes[k]).id != s.id) && (s.id != active || s.name
        != "my space"@ || s.board.notes.len() > 0 || s.board.groups.len() > 0
        || s.board.tombstones.len() > 0 || s.sync_override == Some(false)) {
        placeholder_filter(spaces, active, remotes, s);
        let i = kept.index_of(s);
        joined_untouched(env, kept, remotes, s.id);
        assert(all[i] == s);
    }
}

/// The unused space that an empty namespace starts with makes room where the
/// server has another space and does not know this one.
pub proof fn unused_spaces_make_room(
    env: SurroundingsView,
    spaces: Seq<SpaceView>,
    tombstones: Seq<TombstoneView>,
    active: u64,
    remotes: Seq<ManifestView>,
)
    requires
        remotes.len() > 0,
        forall|k: int| 0 <= k < remotes.len() ==> (#[trigger] remotes[k]).id != active,
        spaces.len() == 1,
        spaces[0].id == active,
        spaces[0].name == "my space"@,
        spaces[0].board.notes.len() == 0,
        spaces[0].board.groups.len() == 0,
        spaces[0].board.tombstones.len() == 0,
        spaces[0].sync_override != Some(false),
    ensures
        forall|j: int|
            0 <= j < joined(env, spaces, tombstones, active, remotes).spaces.len() ==> (
            #[trigger] joined(env, spaces, tombstones, active, remotes).spaces[j]).id != active,
{
    let kept = without_placeholder(spaces, active, remotes);
    let own = |s: SpaceView| s.id == active;
    first_space_at(spaces, own, 0);
    assert(remotes[0].id != active);
    let pred = |s: SpaceView|
        s.id != active || manifest_ids(remotes).contains(s.id) || s.sync_override == Some(false)
            || !is_placeholder(s);
    assert(kept == spaces.filter(pred));
    assert(!manifest_ids(remotes).contains(active)) by {
        if manifest_ids(remotes).contains(active) {
            let k = manifest_ids(remotes).index_of(active);
            assert(remotes[k].id == active);
        }
    }
    assert(kept.len() == 0) by {
        if kept.len() > 0 {
            crate::lists::filter_member(spaces, pred, 0);
            let i = spaces.index_of(kept[0]);
        }
    }
    let all = joined_spaces(env, kept, remotes);
    assert forall|j: int| 0 <= j < all.len() implies (#[trigger] all[j]).id != active by {
        joined_sources(env, kept, remotes, j);
        let k = choose|k: int| 0 <= k < remotes.len() && (#[trigger] remotes[k]).id == all[j].id;
        assert(remotes[k].id != active);
    }
}

/// The space in front stays in front where it is open and used or known to the
/// server; where another one comes to the front, it is an open one of the
/// server's.
pub proof fn joining_keeps_the_front(
    env: SurroundingsView,
    spaces: Seq<SpaceView>,
    tombstones: Seq<TombstoneView>,
    active: u64,
    remotes: Seq<ManifestView>,
    i: int,
)
    ensures
        ({
            let r = joined(env, spaces, tombstones, active, remotes);
            let open = |s: SpaceView| !s.archived && s.deleted_at is None;
            let listed = |id: u64|
                exists|k: int| 0 <= k < remotes.len() && (#[trigger] remotes[k]).id == id;
            &&& 0 <= i < r.spaces.len() && r.spaces[i].id == active && open(r.spaces[i]) && (listed(
                active,
            ) || (forall|j: int|
                0 <= j < spaces.len() && (#[trigger] spaces[j]).id == active ==> spaces[j].name
                    != "my space"@ || spaces[j].board.notes.len() > 0
                    || spaces[j].board.groups.len() > 0 || spaces[j].board.tombstones.len() > 0))
                ==> r.active_space_id == active
            &&& r.active_space_id != active ==> listed(r.active_space_id) && exists|j: int|
                0 <= j < r.spaces.len() && (#[trigger] r.spaces[j]).id == r.active_space_id && open(
                    r.spaces[j],
                )
            &&& 0 <= i < r.spaces.len() && open(r.spaces[i]) && listed(r.spaces[i].id) && (forall|
                j: int,
            |
                0 <= j < r.spaces.len() && (#[trigger] r.spaces[j]).id == active ==> !open(
                    r.spaces[j],
                )) ==> exists|j: int|
                0 <= j <= i && (#[trigger] r.spaces[j]).id == r.active_space_id && open(r.spaces[j])
                    && listed(r.spaces[j].id)
        }),
{
    let r = joined(env, spaces, tombstones, active, remotes);
    let open = |s: SpaceView| !s.archived && s.deleted_at is None;
    let listed = |id: u64| exists|k: int| 0 <= k < remotes.len() && (#[trigger] remotes[k]).id == id;
    let valid = |s: SpaceView| s.id == active && is_open(s);
    let next = |s: SpaceView| manifest_ids(remotes).contains(s.id) && is_open(s);
    let own = |s: SpaceView| s.id == active;
    assert forall|id: u64| manifest_ids(remotes).contains(id) == #[trigger] listed(id) by {
        if manifest_ids(remotes).contains(id) {
            let k = manifest_ids(remotes).index_of(id);
            assert(remotes[k].id == id);
        }
        if listed(id) {
            let k = choose|k: int| 0 <= k < remotes.len() && (#[trigger] remotes[k]).id == id;
            assert(manifest_ids(remotes)[k] == id);
        }
    }
    assert(listed(active) == manifest_ids(remotes).contains(active));
    first_space_is_least(r.spaces, valid);
    first_space_is_least(r.spaces, next);
    first_space_is_least(spaces, own);
    let v = first_space(r.spaces, valid);
    let n = first_space(r.spaces, next);
    if 0 <= i < r.spaces.len() {
        assert(valid(r.spaces[i]) ==> v <= i);
        assert(listed(r.spaces[i].id) == manifest_ids(remotes).contains(r.spaces[i].id));
        assert(next(r.spaces[i]) ==> n <= i);
    }
    if v < r.spaces.len() {
        assert(r.spaces[v].id == active && open(r.spaces[v]));
    }
    if n < r.spaces.len() {
        assert(next(r.spaces[n]));
        assert(listed(r.spaces[n].id));
        assert(r.spaces[n].id == r.spaces[n].id && open(r.spaces[n]));
    }
    let o = first_space(spaces, own);
    if o < spaces.len() {
        assert(spaces[o].id == active);
    }
}

proof fn manifest_tombstone_step(
    list: Seq<TombstoneView>,
    spaces: Seq<SpaceView>,
    remotes: Seq<ManifestView>,
    k: int,
)
    requires
        ids_differ(remotes),
        0 <= k < remotes.len(),
        !kept_local(spaces, remotes[k].id),
    ensures
        has_space_tombstone(tombstones_from_manifest(list, spaces, remotes), remotes[k].id)
            == remotes[k].deleted_at is Some,
    decreases remotes.len(),
{
    let rest = remotes.drop_last();
    let before = tombstones_from_manifest(list, spaces, rest);
    let last = remotes.last();
    let r = remotes[k];
    assert(ids_differ(rest)) by {
        assert forall|a: int, b: int| 0 <= a < b < rest.len() implies (#[trigger] rest[a]).id != (
        #[trigger] rest[b]).id by {
            assert(rest[a] == remotes[a] && rest[b] == remotes[b]);
        }
    }
    if k < remotes.len() - 1 {
        assert(rest[k] == r);
        assert(remotes[k].id != remotes[remotes.len() - 1].id);
        manifest_tombstone_step(list, spaces, rest, k);
    }
    space_tombstone_changes(before, last, r.id);
}

/// Whether a list has a tombstone of a space.
pub open spec fn has_space_tombstone(list: Seq<TombstoneView>, id: u64) -> bool {
    exists|i: int|
        0 <= i < list.len() && (#[trigger] list[i]).kind == TombstoneKind::Space && list[i].id == id
}

proof fn space_tombstone_changes(list: Seq<TombstoneView>, r: ManifestView, id: u64)
    ensures
        r.deleted_at matches Some(t) ==> has_space_tombstone(
            with_space_tombstone(list, r.id, r.stable_id, t),
            id,
        ) == (id == r.id || has_space_tombstone(list, id)),
        has_space_tombstone(without_space_tombstones(list, r.id), id) == (id != r.id
            && has_space_tombstone(list, id)),
{
    if let Some(t) = r.deleted_at {
        let after = with_space_tombstone(list, r.id, r.stable_id, t);
        if has_space_tombstone(list, id) {
            let i = choose|i: int|
                0 <= i < list.len() && (#[trigger] list[i]).kind == TombstoneKind::Space
                    && list[i].id == id;
            assert(after[i] == list[i]);
        }
        if has_space_tombstone(after, id) {
            let i = choose|i: int|
                0 <= i < after.len() && (#[trigger] after[i]).kind == TombstoneKind::Space
                    && after[i].id == id;
            if i < list.len() {
                assert(after[i] == list[i]);
            }
        }
        if after != list {
            assert(after[list.len() as int].id == r.id);
        } else {
            crate::persist::tombstones_are_found(list, TombstoneKind::Space, r.id);
        }
    }
    let pred = |t: TombstoneView| t.kind != TombstoneKind::Space || t.id != r.id;
    let left = without_space_tombstones(list, r.id);
    assert(left == list.filter(pred));
    if has_space_tombstone(left, id) {
        let i = choose|i: int|
            0 <= i < left.len() && (#[trigger] left[i]).kind == TombstoneKind::Space && left[i].id
                == id;
        crate::lists::filter_member(list, pred, i);
        let j = list.index_of(left[i]);
        assert(list[j].kind == TombstoneKind::Space && list[j].id == id);
    }
    if id != r.id && has_space_tombstone(list, id) {
        let i = choose|i: int|
            0 <= i < list.len() && (#[trigger] list[i]).kind == TombstoneKind::Space && list[i].id
                == id;
        crate::lists::filter_keeps(list, pred, i);
        let j = left.index_of(list[i]);
        assert(left[j].kind == TombstoneKind::Space && left[j].id == id);
    }
}

/// What the server deleted has a tombstone after its list was joined in, and
/// what it has not deleted has none, but for spaces that the user keeps on the
/// device.
pub proof fn joining_marks_what_was_deleted(
    env: SurroundingsView,
    spaces: Seq<SpaceView>,
    tombstones: Seq<TombstoneView>,
    active: u64,
    remotes: Seq<ManifestView>,
    k: int,
)
    requires
        ids_differ(remotes),
        0 <= k < remotes.len(),
        forall|i: int|
            0 <= i < spaces.len() && (#[trigger] spaces[i]).id == remotes[k].id
                ==> spaces[i].sync_override != Some(false),
    ensures
        (exists|i: int|
            0 <= i < joined(env, spaces, tombstones, active, remotes).tombstones.len() && (
            #[trigger] joined(env, spaces, tombstones, active, remotes).tombstones[i]).kind
                == TombstoneKind::Space && joined(
                env,
                spaces,
                tombstones,
                active,
                remotes,
            ).tombstones[i].id == remotes[k].id) == remotes[k].deleted_at is Some,
{
    let own = |s: SpaceView| s.id == remotes[k].id;
    first_space_is_least(spaces, own);
    let o = first_space(spaces, own);
    if o < spaces.len() {
        assert(spaces[o].id == remotes[k].id);
    }
    assert(!kept_local(spaces, remotes[k].id));
    manifest_tombstone_step(tombstones, spaces, remotes, k);
    let list = joined(env, spaces, tombstones, active, remotes).tombstones;
    assert(has_space_tombstone(list, remotes[k].id) == remotes[k].deleted_at is Some);
}

proof fn number_above(next: u64, remotes: Seq<ManifestView>, k: int)
    requires
        0 <= k < remotes.len(),
    ensures
        next_above(next, remotes) >= next,
        next_above(next, remotes) > remotes[k].id || next_above(next, remotes) == u64::MAX,
    decreases remotes.len(),
{
    next_grows(next, remotes.drop_last());
    if k < remotes.len() - 1 {
        number_above(next, remotes.drop_last(), k);
    }
}

proof fn next_grows(next: u64, remotes: Seq<ManifestView>)
    ensures
        next_above(next, remotes) >= next,
    decreases remotes.len(),
{
    if remotes.len() > 0 {
        next_grows(next, remotes.drop_last());
    }
}

/// The next number for a space is above every id of the server's list and never
/// goes back, until the numbers run out.
pub proof fn next_numbers_are_free(next: u64, remotes: Seq<ManifestView>, k: int)
    requires
        0 <= k < remotes.len(),
    ensures
        next_above(next, remotes) >= next,
        next_above(next, remotes) > remotes[k].id || next_above(next, remotes) == u64::MAX,
{
    number_above(next, remotes, k);
}

/// Joining touches no tombstone but those of the spaces in the server's list,
/// and leaves those of spaces that the user keeps on the device.
pub proof fn joining_keeps_other_tombstones(
    env: SurroundingsView,
    spaces: Seq<SpaceView>,
    tombstones: Seq<TombstoneView>,
    active: u64,
    remotes: Seq<ManifestView>,
    t: TombstoneView,
)
    requires
        t.kind != TombstoneKind::Space || (forall|k: int|
            0 <= k < remotes.len() ==> (#[trigger] remotes[k]).id != t.id) || kept_local(
            spaces,
            t.id,
        ),
    ensures
        joined(env, spaces, tombstones, active, remotes).tombstones.contains(t)
            == tombstones.contains(t),
{
    untouched_tombstones(tombstones, spaces, remotes, t);
}

proof fn untouched_tombstones(
    list: Seq<TombstoneView>,
    spaces: Seq<SpaceView>,
    remotes: Seq<ManifestView>,
    t: TombstoneView,
)
    requires
        t.kind != TombstoneKind::Space || (forall|k: int|
            0 <= k < remotes.len() ==> (#[trigger] remotes[k]).id != t.id) || kept_local(
            spaces,
            t.id,
        ),
    ensures
        tombstones_from_manifest(list, spaces, remotes).contains(t) == list.contains(t),
    decreases remotes.len(),
{
    if remotes.len() > 0 {
        let rest = remotes.drop_last();
        assert forall|k: int| 0 <= k < rest.len() && (#[trigger] rest[k]).id == t.id implies exists|
            i: int,
        |
            0 <= i < remotes.len() && (#[trigger] remotes[i]).id == t.id by {
            assert(remotes[k].id == t.id);
        }
        untouched_tombstones(list, spaces, rest, t);
        let before = tombstones_from_manifest(list, spaces, rest);
        let r = remotes.last();
        assert(remotes[remotes.len() - 1] == r);
        if !kept_local(spaces, r.id) {
            crate::metadata::tombstones_follow_the_change(
                before,
                if r.deleted_at is Some {
                    SpaceMetadataOperation::Delete
                } else {
                    SpaceMetadataOperation::Restore
                },
                RemoteMetadataView {
                    space_id: r.id,
                    stable_id: r.stable_id,
                    name: r.name,
                    archived: r.archived,
                    metadata_version: r.metadata_version,
                    deleted_at: r.deleted_at,
                },
                0,
                t,
            );
        }
    }
}

/// A space is kept on the device where the user has said so of the first space
/// of its id.
pub proof fn users_keep_spaces_on_the_device(spaces: Seq<SpaceView>, id: u64, k: int)
    ensures
        is_first_of(spaces, id, k) ==> kept_local(spaces, id) == (spaces[k].sync_override == Some(
            false,
        )),
        (forall|j: int| 0 <= j < spaces.len() ==> (#[trigger] spaces[j]).id != id) ==> !kept_local(
            spaces,
            id,
        ),
{
    let pred = |s: SpaceView| s.id == id;
    first_space_is_least(spaces, pred);
    if is_first_of(spaces, id, k) {
        crate::workspace::first_space_at(spaces, pred, k);
    }
    let i = first_space(spaces, pred);
    if i < spaces.len() {
        assert(pred(spaces[i]));
    }
}

/// Whether no two spaces have the same id.
pub open spec fn space_ids_differ(spaces: Seq<SpaceView>) -> bool {
    forall|a: int, b: int|
        0 <= a < b < spaces.len() ==> (#[trigger] spaces[a]).id != (#[trigger] spaces[b]).id
}

/// Joining makes no second space of an id.
pub proof fn joining_makes_no_doubles(
    env: SurroundingsView,
    spaces: Seq<SpaceView>,
    tombstones: Seq<TombstoneView>,
    active: u64,
    remotes: Seq<ManifestView>,
)
    requires
        space_ids_differ(spaces),
    ensures
        space_ids_differ(joined(env, spaces, tombstones, active, remotes).spaces),
{
    let kept = without_placeholder(spaces, active, remotes);
    let pred = |s: SpaceView|
        s.id != active || manifest_ids(remotes).contains(s.id) || s.sync_override == Some(false)
            || !is_placeholder(s);
    if kept == spaces.filter(pred) {
        filtered_ids_differ(spaces, pred);
    } else {
        assert(kept == spaces);
    }
    joined_ids_differ(env, kept, remotes);
}

proof fn filtered_ids_differ(spaces: Seq<SpaceView>, pred: spec_fn(SpaceView) -> bool)
    requires
        space_ids_differ(spaces),
    ensures
        space_ids_differ(spaces.filter(pred)),
    decreases spaces.len(),
{
    reveal(Seq::filter);
    if spaces.len() > 0 {
        let rest = spaces.drop_last();
        assert(space_ids_differ(rest)) by {
            assert forall|a: int, b: int| 0 <= a < b < rest.len() implies (#[trigger] rest[a]).id != (
            #[trigger] rest[b]).id by {
                assert(spaces[a].id != spaces[b].id);
            }
        }
        filtered_ids_differ(rest, pred);
        let before = rest.filter(pred);
        let last = spaces.last();
        if pred(last) {
            let after = before.push(last);
            assert(spaces.filter(pred) == after);
            assert forall|a: int, b: int| 0 <= a < b < after.len() implies (#[trigger] after[a]).id
                != (#[trigger] after[b]).id by {
                if b == before.len() {
                    crate::lists::filter_member(rest, pred, a);
                    let i = rest.index_of(before[a]);
                    assert(spaces[i].id != spaces[spaces.len() - 1].id);
                } else {
                    assert(before[a].id != before[b].id);
                }
            }
        }
    }
}

proof fn joined_ids_differ(
    env: SurroundingsView,
    spaces: Seq<SpaceView>,
    remotes: Seq<ManifestView>,
)
    requires
        space_ids_differ(spaces),
    ensures
        space_ids_differ(joined_spaces(env, spaces, remotes)),
    decreases remotes.len(),
{
    if remotes.len() > 0 {
        joined_ids_differ(env, spaces, remotes.drop_last());
        let before = joined_spaces(env, spaces, remotes.drop_last());
        let r = remotes.last();
        let pred = |s: SpaceView| s.id == r.id;
        first_space_is_least(before, pred);
        let i = first_space(before, pred);
        let after = joined_spaces(env, spaces, remotes);
        assert forall|a: int, b: int| 0 <= a < b < after.len() implies (#[trigger] after[a]).id != (
        #[trigger] after[b]).id by {
            if i < before.len() {
                assert(pred(before[i]));
                assert(before[a].id != before[b].id);
            } else if b == before.len() {
                assert(!pred(before[a]));
            } else {
                assert(before[a].id != before[b].id);
            }
        }
    }
}

/// The next number is no larger than it has to be: it is the one before, or the
/// one after an id of the server's list.
pub proof fn next_numbers_follow_an_id(next: u64, remotes: Seq<ManifestView>)
    ensures
        next_above(next, remotes) == next || exists|k: int|
            0 <= k < remotes.len() && (next_above(next, remotes) == (#[trigger] remotes[k]).id + 1
                || remotes[k].id == u64::MAX),
    decreases remotes.len(),
{
    if remotes.len() > 0 {
        let rest = remotes.drop_last();
        next_numbers_follow_an_id(next, rest);
        let last = remotes[remotes.len() - 1];
        assert(last == remotes.last());
        if next_above(next, remotes) == next_above(next, rest) && next_above(next, rest) != next {
            let k = choose|k: int|
                0 <= k < rest.len() && (next_above(next, rest) == (#[trigger] rest[k]).id + 1
                    || rest[k].id == u64::MAX);
            assert(remotes[k] == rest[k]);
        }
    }
}

/// The tombstone of a space that the server has deleted, and that was not known
/// as deleted here, has the identity and the time that the server gives.
pub proof fn joining_takes_over_the_time_of_deletion(
    env: SurroundingsView,
    spaces: Seq<SpaceView>,
    tombstones: Seq<TombstoneView>,
    active: u64,
    remotes: Seq<ManifestView>,
    k: int,
)
    requires
        ids_differ(remotes),
        0 <= k < remotes.len(),
        remotes[k].deleted_at is Some,
        !kept_local(spaces, remotes[k].id),
        !has_space_tombstone(tombstones, remotes[k].id),
    ensures
        joined(env, spaces, tombstones, active, remotes).tombstones.contains(
            TombstoneView {
                kind: TombstoneKind::Space,
                id: remotes[k].id,
                stable_id: remotes[k].stable_id,
                deleted_at: remotes[k].deleted_at->0,
            },
        ),
{
    dated_tombstone(tombstones, spaces, remotes, k);
}

proof fn dated_tombstone(
    list: Seq<TombstoneView>,
    spaces: Seq<SpaceView>,
    remotes: Seq<ManifestView>,
    k: int,
)
    requires
        ids_differ(remotes),
        0 <= k < remotes.len(),
        remotes[k].deleted_at is Some,
        !kept_local(spaces, remotes[k].id),
        !has_space_tombstone(list, remotes[k].id),
    ensures
        tombstones_from_manifest(list, spaces, remotes).contains(
            TombstoneView {
                kind: TombstoneKind::Space,
                id: remotes[k].id,
                stable_id: remotes[k].stable_id,
                deleted_at: remotes[k].deleted_at->0,
            },
        ),
    decreases remotes.len(),
{
    let rest = remotes.drop_last();
    let before = tombstones_from_manifest(list, spaces, rest);
    let last = remotes.last();
    let r = remotes[k];
    let t = TombstoneView {
        kind: TombstoneKind::Space,
        id: r.id,
        stable_id: r.stable_id,
        deleted_at: r.deleted_at->0,
    };
    assert(remotes[remotes.len() - 1] == last);
    assert(ids_differ(rest)) by {
        assert forall|a: int, b: int| 0 <= a < b < rest.len() implies (#[trigger] rest[a]).id != (
        #[trigger] rest[b]).id by {
            assert(rest[a] == remotes[a] && rest[b] == remotes[b]);
        }
    }
    if k < remotes.len() - 1 {
        assert(rest[k] == r);
        assert(remotes[k].id != remotes[remotes.len() - 1].id);
        dated_tombstone(list, spaces, rest, k);
        if !kept_local(spaces, last.id) {
            crate::metadata::tombstones_follow_the_change(
                before,
                if last.deleted_at is Some {
                    SpaceMetadataOperation::Delete
                } else {
                    SpaceMetadataOperation::Restore
                },
                RemoteMetadataView {
                    space_id: last.id,
                    stable_id: last.stable_id,
                    name: last.name,
                    archived: last.archived,
                    metadata_version: last.metadata_version,
                    deleted_at: last.deleted_at,
                },
                0,
                t,
            );
        }
    } else {
        assert forall|j: int| 0 <= j < rest.len() implies (#[trigger] rest[j]).id != r.id by {
            assert(remotes[j].id != remotes[remotes.len() - 1].id);
            assert(rest[j] == remotes[j]);
        }
        unlisted_tombstones(list, spaces, rest, r.id);
        let after = with_space_tombstone(before, r.id, r.stable_id, r.deleted_at->0);
        assert(!crate::persist::has_tombstone(before, TombstoneKind::Space, r.id));
        assert(after[before.len() as int] == t);
    }
}

proof fn unlisted_tombstones(
    list: Seq<TombstoneView>,
    spaces: Seq<SpaceView>,
    remotes: Seq<ManifestView>,
    id: u64,
)
    requires
        forall|k: int| 0 <= k < remotes.len() ==> (#[trigger] remotes[k]).id != id,
    ensures
        has_space_tombstone(tombstones_from_manifest(list, spaces, remotes), id)
            == has_space_tombstone(list, id),
    decreases remotes.len(),
{
    if remotes.len() > 0 {
        let rest = remotes.drop_last();
        assert forall|k: int| 0 <= k < rest.len() implies (#[trigger] rest[k]).id != id by {
            assert(remotes[k].id != id);
        }
        unlisted_tombstones(list, spaces, rest, id);
        assert(remotes[remotes.len() - 1].id != id);
        space_tombstone_changes(
            tombstones_from_manifest(list, spaces, rest),
            remotes.last(),
            id,
        );
    }
}

} // verus!
