//! JSON text, read into values and written from them.

use vstd::prelude::*;

use crate::json::items_view;
use crate::json::lemma_items_view;
use crate::json::members_view;
use crate::json::Json;
use crate::json::JsonObject;
use crate::json::JsonView;
use crate::trusted::encode_value;
use crate::trusted::json_parsed;
use crate::trusted::json_text;
use crate::trusted::map_insert;
use crate::trusted::map_meaning;
use crate::trusted::map_members;
use crate::trusted::map_new;
use crate::trusted::number_copy;
use crate::trusted::number_meaning;
use crate::trusted::parse_value;
use crate::trusted::value_meaning;
use crate::trusted::value_of;
use crate::trusted::value_parts;

verus! {

/// A `serde_json` value by its variant.
pub enum ValueParts<'a> {
    Null,
    Bool(bool),
    Number(&'a serde_json::Number),
    Text(&'a String),
    Array(&'a Vec<serde_json::Value>),
    Object(&'a serde_json::Map<String, serde_json::Value>),
}

/// What a `serde_json` value is made of.
pub enum ValueShape {
    Null,
    Bool(bool),
    Number(serde_json::Number),
    Text(String),
    Array(Vec<serde_json::Value>),
    Object(serde_json::Map<String, serde_json::Value>),
}

/// A member of a `serde_json` object.
pub struct ValueMember<'a> {
    pub key: &'a String,
    pub value: &'a serde_json::Value,
}

/// What values hold, in order.
pub open spec fn values_meaning(items: Seq<serde_json::Value>) -> Seq<JsonView> {
    items.map_values(|v: serde_json::Value| value_meaning(v))
}

/// What an object without members holds.
pub open spec fn no_members() -> Map<Seq<char>, JsonView> {
    Map::empty()
}

/// What members hold, by key.
pub open spec fn value_members(members: Seq<ValueMember<'_>>) -> Map<Seq<char>, JsonView>
    decreases members.len(),
{
    if members.len() == 0 {
        Map::empty()
    } else {
        value_members(members.drop_last()).insert(
            members.last().key@,
            value_meaning(*members.last().value),
        )
    }
}

/// What a value with the given part holds.
pub open spec fn parts_meaning(parts: ValueParts<'_>) -> JsonView {
    match parts {
        ValueParts::Null => JsonView::Null,
        ValueParts::Bool(b) => JsonView::Bool(b),
        ValueParts::Number(n) => JsonView::Number(number_meaning(*n)),
        ValueParts::Text(s) => JsonView::Text(s@),
        ValueParts::Array(items) => JsonView::Array(values_meaning(items@)),
        ValueParts::Object(m) => JsonView::Object(map_meaning(*m)),
    }
}

/// What a value of the given shape holds.
pub open spec fn shape_meaning(shape: ValueShape) -> JsonView {
    match shape {
        ValueShape::Null => JsonView::Null,
        ValueShape::Bool(b) => JsonView::Bool(b),
        ValueShape::Number(n) => JsonView::Number(number_meaning(n)),
        ValueShape::Text(s) => JsonView::Text(s@),
        ValueShape::Array(items) => JsonView::Array(values_meaning(items@)),
        ValueShape::Object(m) => JsonView::Object(map_meaning(m)),
    }
}

/// An object holds each of its members under the member's key.
proof fn lemma_member_is_held(members: Seq<ValueMember<'_>>, i: int)
    requires
        0 <= i < members.len(),
        forall|j: int, k: int|
            0 <= j < k < members.len() ==> (#[trigger] members[j]).key@ != (
            #[trigger] members[k]).key@,
    ensures
        value_members(members).contains_key(members[i].key@),
        value_members(members)[members[i].key@] == value_meaning(*members[i].value),
        value_members(members).dom().finite(),
    decreases members.len(),
{
    let front = members.drop_last();
    lemma_members_are_finite(front);
    if i < members.len() - 1 {
        assert(front[i] == members[i]);
        assert forall|j: int, k: int| 0 <= j < k < front.len() implies (
        #[trigger] front[j]).key@ != (#[trigger] front[k]).key@ by {
            assert(front[j] == members[j]);
            assert(front[k] == members[k]);
        }
        lemma_member_is_held(front, i);
        assert(members[i].key@ != members[members.len() - 1].key@);
    }
}

proof fn lemma_members_are_finite(members: Seq<ValueMember<'_>>)
    ensures
        value_members(members).dom().finite(),
    decreases members.len(),
{
    if members.len() > 0 {
        lemma_members_are_finite(members.drop_last());
    }
}

/// The value that a `serde_json` value is.
fn json_of(v: &serde_json::Value) -> (r: Json)
    ensures
        r@ == value_meaning(*v),
    decreases value_meaning(*v),
{
    match value_parts(v) {
        ValueParts::Null => Json::Null,
        ValueParts::Bool(b) => Json::Bool(b),
        ValueParts::Number(n) => Json::Number(number_copy(n)),
        ValueParts::Text(s) => Json::Text(s.as_str().to_owned()),
        ValueParts::Array(items) => {
            let ghost views = values_meaning(items@);
            let n: usize = items.len();
            let mut out: Vec<Json> = Vec::new();
            let mut i: usize = 0;
            assert(items_view(out@) =~= views.take(0));
            while i < n
                invariant
                    n == items@.len(),
                    i <= n,
                    views == values_meaning(items@),
                    value_meaning(*v) == JsonView::Array(views),
                    items_view(out@) == views.take(i as int),
                decreases n - i,
            {
                let ghost before = out@;
                assert(views[i as int] == value_meaning(items@[i as int]));
                assert(decreases_to!(views => views[i as int]));
                assert(decreases_to!(value_meaning(*v) => value_meaning(*v)->Array_0));
                let item: Json = json_of(&items[i]);
                out.push(item);
                assert(out@.drop_last() =~= before);
                assert(views.take(i + 1) =~= views.take(i as int).push(views[i as int]));
                i = i + 1;
            }
            assert(views.take(n as int) =~= views);
            Json::Array(out)
        },
        ValueParts::Object(m) => {
            let members: Vec<ValueMember> = map_members(m);
            let ghost held = map_meaning(*m);
            let n: usize = members.len();
            let mut out: JsonObject = JsonObject::new();
            let mut i: usize = 0;
            assert(value_members(members@.take(0)) =~= out@);
            while i < n
                invariant
                    n == members@.len(),
                    i <= n,
                    held == value_members(members@),
                    value_meaning(*v) == JsonView::Object(held),
                    forall|j: int, k: int|
                        0 <= j < k < members@.len() ==> (#[trigger] members@[j]).key@ != (
                        #[trigger] members@[k]).key@,
                    out@ == value_members(members@.take(i as int)),
                decreases n - i,
            {
                proof {
                    lemma_member_is_held(members@, i as int);
                    assert(decreases_to!(held => held[members@[i as int].key@]));
                    assert(decreases_to!(value_meaning(*v) => value_meaning(*v)->Object_0));
                }
                let value: Json = json_of(members[i].value);
                out.put(members[i].key.as_str(), value);
                assert(members@.take(i + 1).drop_last() =~= members@.take(i as int));
                i = i + 1;
            }
            assert(members@.take(n as int) =~= members@);
            Json::Object(out)
        },
    }
}

/// The `serde_json` value that a value is.
fn value_from(json: &Json) -> (r: serde_json::Value)
    ensures
        value_meaning(r) == json@,
    decreases json,
{
    match json {
        Json::Null => value_of(ValueShape::Null),
        Json::Bool(b) => value_of(ValueShape::Bool(*b)),
        Json::Number(n) => value_of(ValueShape::Number(number_copy(n))),
        Json::Text(s) => value_of(ValueShape::Text(s.as_str().to_owned())),
        Json::Array(items) => {
            let n: usize = items.len();
            let mut out: Vec<serde_json::Value> = Vec::new();
            let mut i: usize = 0;
            proof {
                lemma_items_view(items@);
            }
            while i < n
                invariant
                    n == items@.len(),
                    i <= n,
                    *json == Json::Array(*items),
                    items_view(items@).len() == n,
                    forall|k: int| 0 <= k < n ==> #[trigger] items_view(items@)[k] == items@[k]@,
                    out@.len() == i,
                    forall|k: int|
                        0 <= k < i ==> value_meaning(#[trigger] out@[k]) == items_view(items@)[k],
                decreases n - i,
            {
                assert(decreases_to!(items@ => items@[i as int]));
                assert(decreases_to!(*items => items@));
                assert(decreases_to!(*json => json->Array_0));
                let value: serde_json::Value = value_from(&items[i]);
                out.push(value);
                assert(items_view(items@)[i as int] == items@[i as int]@);
                i = i + 1;
            }
            assert(values_meaning(out@) =~= items_view(items@));
            value_of(ValueShape::Array(out))
        },
        Json::Object(o) => {
            let n: usize = o.members.len();
            let mut out: serde_json::Map<String, serde_json::Value> = map_new();
            let mut i: usize = 0;
            assert(members_view(o.members@.take(0)) =~= map_meaning(out));
            while i < n
                invariant
                    n == o.members@.len(),
                    i <= n,
                    *json == Json::Object(*o),
                    map_meaning(out) == members_view(o.members@.take(i as int)),
                decreases n - i,
            {
                assert(decreases_to!(o.members@ => o.members@[i as int]));
                assert(decreases_to!(o.members => o.members@));
                assert(decreases_to!(*o => o.members));
                assert(decreases_to!(*json => json->Object_0));
                assert(decreases_to!(o.members@[i as int] => o.members@[i as int].value));
                let value: serde_json::Value = value_from(&o.members[i].value);
                map_insert(&mut out, o.members[i].key.as_str().to_owned(), value);
                assert(o.members@.take(i + 1).drop_last() =~= o.members@.take(i as int));
                i = i + 1;
            }
            assert(o.members@.take(n as int) =~= o.members@);
            value_of(ValueShape::Object(out))
        },
    }
}

/// The value of a parse.
pub open spec fn parse_result(r: Result<Json, String>) -> Result<JsonView, Seq<char>> {
    match r {
        Ok(json) => Ok(json@),
        Err(e) => Err(e@),
    }
}

/// Parses JSON text.
pub fn parse_json(text: &str) -> (r: Result<Json, String>)
    ensures
        parse_result(r) == json_parsed(text@),
{
    match parse_value(text) {
        Ok(v) => Ok(json_of(&v)),
        Err(e) => Err(e),
    }
}

/// Writes a value as compact JSON text.
pub fn encode_json(json: &Json) -> (r: Result<String, String>)
    ensures
        r matches Ok(s) && s@ == json_text(json@),
{
    let v: serde_json::Value = value_from(json);
    encode_value(&v)
}

/// The compact JSON text of a value.
pub fn json_to_string(json: &Json) -> (r: String)
    ensures
        r@ == json_text(json@),
{
    match encode_json(json) {
        Ok(s) => s,
        Err(e) => e,
    }
}

} // verus!
