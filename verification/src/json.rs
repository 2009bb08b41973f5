//! Stored records, one layer at a time.
use vstd::prelude::*;
use vstd::string::*;

use crate::lists::opt_view;
use crate::lists::views;
use crate::text::text_eq;

verus! {

/// A member of a JSON object: its key and the text of its value.
#[derive(Debug, PartialEq)]
pub struct JsonMember {
    pub key: String,
    pub value: String,
}

/// The outermost layer of a JSON text; what lies deeper stays text. Numbers
/// are kept where they are whole and not negative.
#[derive(Debug, PartialEq)]
pub enum JsonLayer {
    Null,
    Flag(bool),
    Number(Option<u64>),
    Text(String),
    List(Vec<String>),
    Object(Vec<JsonMember>),
}

/// A member of a JSON object, its texts as characters.
pub struct JsonMemberView {
    pub key: Seq<char>,
    pub value: Seq<char>,
}

/// The outermost layer of a JSON text, its texts as characters.
pub enum JsonLayerView {
    Null,
    Flag(bool),
    Number(Option<u64>),
    Text(Seq<char>),
    List(Seq<Seq<char>>),
    Object(Seq<JsonMemberView>),
}

impl View for JsonMember {
    type V = JsonMemberView;

    open spec fn view(&self) -> JsonMemberView {
        JsonMemberView { key: self.key@, value: self.value@ }
    }
}

impl View for JsonLayer {
    type V = JsonLayerView;

    open spec fn view(&self) -> JsonLayerView {
        match self {
            JsonLayer::Null => JsonLayerView::Null,
            JsonLayer::Flag(b) => JsonLayerView::Flag(*b),
            JsonLayer::Number(n) => JsonLayerView::Number(*n),
            JsonLayer::Text(s) => JsonLayerView::Text(s@),
            JsonLayer::List(items) => JsonLayerView::List(views(items@)),
            JsonLayer::Object(members) => JsonLayerView::Object(views(members@)),
        }
    }
}

/// What `serde_json::from_str` finds outermost in a text; nothing where the
/// text is no JSON.
pub uninterp spec fn json_layer(text: Seq<char>) -> Option<JsonLayerView>;

/// `serde_json::from_str` into a `serde_json::Value`, with the elements and
/// members written back as texts: the result depends on the text alone. What
/// JSON is, is not stated.
#[verifier::external_body]
pub(crate) fn read_layer(raw: &str) -> (r: Option<JsonLayer>)
    ensures
        opt_view(r) == json_layer(raw@),
{
    let value = serde_json::from_str::<serde_json::Value>(raw).ok()?;
    Some(match value {
        serde_json::Value::Null => JsonLayer::Null,
        serde_json::Value::Bool(b) => JsonLayer::Flag(b),
        serde_json::Value::Number(n) => JsonLayer::Number(n.as_u64()),
        serde_json::Value::String(s) => JsonLayer::Text(s),
        serde_json::Value::Array(a) => JsonLayer::List(a.iter().map(|v| v.to_string()).collect()),
        serde_json::Value::Object(m) => JsonLayer::Object(
            m.iter().map(|(k, v)| JsonMember { key: k.clone(), value: v.to_string() }).collect(),
        ),
    })
}

/// The value of the first member with the given key.
pub open spec fn member_of(members: Seq<JsonMemberView>, key: Seq<char>) -> Option<Seq<char>>
    decreases members.len(),
{
    if members.len() == 0 {
        None
    } else if members[0].key == key {
        Some(members[0].value)
    } else {
        member_of(members.skip(1), key)
    }
}

/// The value of a member, where the layer is an object that has it.
pub open spec fn layer_member(layer: Option<JsonLayerView>, key: Seq<char>) -> Option<Seq<char>> {
    match layer {
        Some(JsonLayerView::Object(members)) => member_of(members, key),
        _ => None,
    }
}

fn find_in(members: &Vec<JsonMember>, key: &str) -> (r: Option<String>)
    ensures
        opt_view(r) == member_of(views(members@), key@),
{
    let ghost all = views(members@);
    let mut i: usize = 0;
    assert(all.skip(0) =~= all);
    while i < members.len()
        invariant
            all == views(members@),
            i <= members@.len(),
            member_of(all, key@) == member_of(all.skip(i as int), key@),
        decreases members@.len() - i,
    {
        assert(all.skip(i as int)[0] == members@[i as int]@);
        assert(all.skip(i as int).skip(1) =~= all.skip(i + 1));
        if text_eq(&members[i].key, key) {
            return Some(members[i].value.clone());
        }
        i = i + 1;
    }
    None
}

/// The value of a member, where the layer is an object that has it.
pub fn find_member(layer: &Option<JsonLayer>, key: &str) -> (r: Option<String>)
    ensures
        opt_view(r) == layer_member(opt_view(*layer), key@),
{
    match layer {
        Some(JsonLayer::Object(members)) => find_in(members, key),
        _ => None,
    }
}

/// The elements of a layer that is a list.
pub open spec fn list_of(layer: Option<JsonLayerView>) -> Option<Seq<Seq<char>>> {
    match layer {
        Some(JsonLayerView::List(items)) => Some(items),
        _ => None,
    }
}

/// The elements of the list in a member.
pub open spec fn member_list(layer: Option<JsonLayerView>, key: Seq<char>) -> Option<Seq<Seq<char>>> {
    match layer_member(layer, key) {
        Some(value) => list_of(json_layer(value)),
        None => None,
    }
}

/// The elements of a layer that is a list.
pub fn read_list(layer: &Option<JsonLayer>) -> (r: Option<&Vec<String>>)
    ensures
        match r {
            Some(items) => list_of(opt_view(*layer)) == Some(views(items@)),
            None => list_of(opt_view(*layer)) is None,
        },
{
    match layer {
        Some(JsonLayer::List(items)) => Some(items),
        _ => None,
    }
}

/// The number in a member of a JSON text.
pub open spec fn number_member(text: Seq<char>, key: Seq<char>) -> Option<u64> {
    match layer_member(json_layer(text), key) {
        Some(value) => match json_layer(value) {
            Some(JsonLayerView::Number(n)) => n,
            _ => None,
        },
        None => None,
    }
}

/// The number in a member of a JSON text.
pub fn read_number_member(text: &str, key: &str) -> (r: Option<u64>)
    ensures
        r == number_member(text@, key@),
{
    match find_member(&read_layer(text), key) {
        Some(value) => match read_layer(&value) {
            Some(JsonLayer::Number(n)) => n,
            _ => None,
        },
        None => None,
    }
}

/// A member of an object is the first one of its key.
pub proof fn members_are_found_by_key(members: Seq<JsonMemberView>, key: Seq<char>, k: int)
    ensures
        (forall|i: int| 0 <= i < members.len() ==> (#[trigger] members[i]).key != key)
            ==> member_of(members, key) is None,
        0 <= k < members.len() && members[k].key == key && (forall|i: int|
            0 <= i < k ==> (#[trigger] members[i]).key != key) ==> member_of(members, key) == Some(
            members[k].value,
        ),
    decreases members.len(),
{
    if members.len() > 0 && members[0].key != key {
        let rest = members.skip(1);
        members_are_found_by_key(rest, key, k - 1);
        if forall|i: int| 0 <= i < members.len() ==> (#[trigger] members[i]).key != key {
            assert forall|i: int| 0 <= i < rest.len() implies (#[trigger] rest[i]).key != key by {
                assert(rest[i] == members[i + 1]);
            }
        }
        if 0 <= k < members.len() && members[k].key == key && (forall|i: int|
            0 <= i < k ==> (#[trigger] members[i]).key != key) {
            assert forall|i: int| 0 <= i < k - 1 implies (#[trigger] rest[i]).key != key by {
                assert(rest[i] == members[i + 1]);
            }
            assert(rest[k - 1] == members[k]);
        }
    }
}

/// Only an object has members, only a list has items, and only a whole number
/// is read as one.
pub proof fn layers_are_what_they_are(layer: Option<JsonLayerView>, text: Seq<char>, key: Seq<char>)
    ensures
        !(layer matches Some(JsonLayerView::Object(_))) ==> layer_member(layer, key) is None,
        layer matches Some(JsonLayerView::Object(members)) ==> layer_member(layer, key)
            == member_of(members, key),
        (list_of(layer) is Some) == (layer matches Some(JsonLayerView::List(_))),
        layer matches Some(JsonLayerView::List(items)) ==> list_of(layer) == Some(items),
        number_member(text, key) matches Some(n) ==> layer_member(json_layer(text), key) is Some
            && json_layer(layer_member(json_layer(text), key)->0) == Some(
            JsonLayerView::Number(Some(n)),
        ),
        layer_member(json_layer(text), key) matches Some(value) ==> (json_layer(
            value,
        ) matches Some(JsonLayerView::Number(n)) ==> number_member(text, key) == n),
{
}

} // verus!
