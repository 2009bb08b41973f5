//! The updates of a document that are stored beside it.
use vstd::prelude::*;

use crate::json::find_member;
use crate::json::json_layer;
use crate::json::layer_member;
use crate::json::list_of;
use crate::json::member_of;
use crate::json::read_layer;
use crate::json::read_list;
use crate::json::JsonLayer;
use crate::json::JsonLayerView;
use crate::json::JsonMemberView;
use crate::lists::opt_view;
use crate::lists::views;

verus! {

/// The updates of a document, and the keys under which those of other tabs are
/// stored.
#[derive(Debug, PartialEq)]
pub struct Outbox {
    pub updates: Vec<String>,
    pub inbox_keys: Vec<String>,
}

/// The updates of a document, as texts.
pub struct OutboxView {
    pub updates: Seq<Seq<char>>,
    pub inbox_keys: Seq<Seq<char>>,
}

impl View for Outbox {
    type V = OutboxView;

    open spec fn view(&self) -> OutboxView {
        OutboxView { updates: views(self.updates@), inbox_keys: views(self.inbox_keys@) }
    }
}

/// The text that a JSON text holds.
pub open spec fn text_in(item: Seq<char>) -> Option<Seq<char>> {
    match json_layer(item) {
        Some(JsonLayerView::Text(s)) => Some(s),
        _ => None,
    }
}

/// The texts that a list holds, where it holds nothing else.
pub open spec fn texts_in(items: Seq<Seq<char>>) -> Option<Seq<Seq<char>>> {
    if forall|i: int| 0 <= i < items.len() ==> text_in(#[trigger] items[i]) is Some {
        Some(items.map_values(|item: Seq<char>| text_in(item)->0))
    } else {
        None
    }
}

/// The texts in the list of a member; none where the member is not there.
pub open spec fn member_texts(layer: Option<JsonLayerView>, key: Seq<char>) -> Option<
    Seq<Seq<char>>,
> {
    match layer_member(layer, key) {
        Some(value) => match list_of(json_layer(value)) {
            Some(items) => texts_in(items),
            None => None,
        },
        None => Some(Seq::empty()),
    }
}

/// What a record holds: older clients stored the list of the updates alone,
/// newer ones an object with the keys beside it.
pub open spec fn outbox_in(raw: Seq<char>) -> Option<OutboxView> {
    let layer = json_layer(raw);
    match layer {
        Some(JsonLayerView::List(items)) => match texts_in(items) {
            Some(updates) => Some(OutboxView { updates, inbox_keys: Seq::empty() }),
            None => None,
        },
        Some(JsonLayerView::Object(_)) => match (
            member_texts(layer, "updates"@),
            member_texts(layer, "inboxKeys"@),
        ) {
            (Some(updates), Some(inbox_keys)) => Some(OutboxView { updates, inbox_keys }),
            _ => None,
        },
        _ => None,
    }
}

fn read_texts(items: &Vec<String>) -> (r: Option<Vec<String>>)
    ensures
        match r {
            Some(texts) => texts_in(views(items@)) == Some(views(texts@)),
            None => texts_in(views(items@)) is None,
        },
{
    let ghost all = views(items@);
    let mut out: Vec<String> = Vec::new();
    let mut i: usize = 0;
    while i < items.len()
        invariant
            all == views(items@),
            i <= items@.len(),
            out@.len() == i,
            forall|j: int| 0 <= j < i ==> text_in(#[trigger] all[j]) == Some(out@[j]@),
        decreases items@.len() - i,
    {
        match read_layer(&items[i]) {
            Some(JsonLayer::Text(text)) => {
                assert(text_in(all[i as int]) == Some(text@));
                out.push(text);
            },
            _ => {
                assert(text_in(all[i as int]) is None);
                return None;
            },
        }
        i = i + 1;
    }
    assert(views(out@) =~= all.map_values(|item: Seq<char>| text_in(item)->0));
    Some(out)
}

fn read_member_texts(layer: &Option<JsonLayer>, key: &str) -> (r: Option<Vec<String>>)
    ensures
        match r {
            Some(texts) => member_texts(opt_view(*layer), key@) == Some(views(texts@)),
            None => member_texts(opt_view(*layer), key@) is None,
        },
{
    match find_member(layer, key) {
        Some(value) => {
            let inner = read_layer(&value);
            match read_list(&inner) {
                Some(items) => read_texts(items),
                None => None,
            }
        },
        None => {
            let none: Vec<String> = Vec::new();
            assert(views(none@) =~= Seq::empty());
            Some(none)
        },
    }
}

/// Reads the updates that are stored beside a document, in either form.
pub fn load_pending_crdt_updates(raw: &str) -> (r: Option<Outbox>)
    ensures
        opt_view(r) == outbox_in(raw@),
{
    let layer = read_layer(raw);
    match &layer {
        Some(JsonLayer::List(items)) => match read_texts(items) {
            Some(updates) => {
                let r = Outbox { updates, inbox_keys: Vec::new() };
                assert(r@.inbox_keys =~= Seq::empty());
                Some(r)
            },
            None => None,
        },
        Some(JsonLayer::Object(_)) => {
            let updates = read_member_texts(&layer, "updates");
            let inbox_keys = read_member_texts(&layer, "inboxKeys");
            match (updates, inbox_keys) {
                (Some(updates), Some(inbox_keys)) => Some(Outbox { updates, inbox_keys }),
                _ => None,
            }
        },
        _ => None,
    }
}

/// An outbox that is a list holds the updates of that list, in its order, and
/// no keys; one item that is no text spoils the whole.
pub proof fn outboxes_hold_every_update(raw: Seq<char>, items: Seq<Seq<char>>)
    requires
        json_layer(raw) == Some(JsonLayerView::List(items)),
    ensures
        outbox_in(raw) is Some == (forall|i: int|
            0 <= i < items.len() ==> (json_layer(#[trigger] items[i]) matches Some(
                JsonLayerView::Text(_),
            ))),
        outbox_in(raw) matches Some(o) ==> {
            &&& o.inbox_keys.len() == 0
            &&& o.updates.len() == items.len()
            &&& forall|i: int|
                0 <= i < items.len() ==> json_layer(#[trigger] items[i]) == Some(
                    JsonLayerView::Text(o.updates[i]),
                )
        },
{
}

/// An outbox that is an object holds the texts under its two keys, in their
/// order; a key that is not there stands for no texts.
pub proof fn outboxes_hold_updates_and_keys(
    raw: Seq<char>,
    members: Seq<JsonMemberView>,
    updates: Seq<Seq<char>>,
    keys: Seq<Seq<char>>,
)
    requires
        json_layer(raw) == Some(JsonLayerView::Object(members)),
        member_of(members, "updates"@) matches Some(value) ==> json_layer(value)
            == Some(JsonLayerView::List(updates)),
        member_of(members, "updates"@) is None ==> updates.len() == 0,
        member_of(members, "inboxKeys"@) matches Some(value) ==> json_layer(value)
            == Some(JsonLayerView::List(keys)),
        member_of(members, "inboxKeys"@) is None ==> keys.len() == 0,
    ensures
        outbox_in(raw) is Some == ((forall|i: int|
            0 <= i < updates.len() ==> (json_layer(#[trigger] updates[i]) matches Some(
                JsonLayerView::Text(_),
            ))) && (forall|i: int|
            0 <= i < keys.len() ==> (json_layer(#[trigger] keys[i]) matches Some(
                JsonLayerView::Text(_),
            )))),
        outbox_in(raw) matches Some(o) ==> {
            &&& o.updates.len() == updates.len()
            &&& o.inbox_keys.len() == keys.len()
            &&& forall|i: int|
                0 <= i < updates.len() ==> json_layer(#[trigger] updates[i]) == Some(
                    JsonLayerView::Text(o.updates[i]),
                )
            &&& forall|i: int|
                0 <= i < keys.len() ==> json_layer(#[trigger] keys[i]) == Some(
                    JsonLayerView::Text(o.inbox_keys[i]),
                )
        },
{
}

/// What is neither a list nor an object is no outbox.
pub proof fn other_values_are_no_outbox(raw: Seq<char>)
    requires
        !(json_layer(raw) matches Some(JsonLayerView::List(_))),
        !(json_layer(raw) matches Some(JsonLayerView::Object(_))),
    ensures
        outbox_in(raw) is None,
{
}

} // verus!
