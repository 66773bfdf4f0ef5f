//! What holds of reading JSON values, stated on the values themselves.

use vstd::prelude::*;

use crate::json::items_in;
use crate::json::json_view;
use crate::json::lemma_items_view;
use crate::json::member;
use crate::json::nested;
use crate::json::signed_in;
use crate::json::text_in;
use crate::json::text_or_null;
use crate::json::unsigned_in;
use crate::json::Json;
use crate::json::JsonView;
use crate::json::NumberView;
use crate::json_text::no_members;
use crate::json_text::parse_result;
use crate::json_text::parts_meaning;
use crate::json_text::shape_meaning;
use crate::json_text::value_members;
use crate::json_text::ValueMember;
use crate::json_text::ValueParts;
use crate::json_text::ValueShape;
use crate::trusted::map_meaning;
use crate::trusted::number_meaning;
use crate::trusted::value_meaning;

verus! {

/// Only an object has members, and they are what it maps its keys to.
pub proof fn law_members_are_those_of_objects(j: JsonView, key: Seq<char>, value: JsonView)
    ensures
        member(j, key) == Some(value) <==> j is Object && j->Object_0.dom().contains(key)
            && j->Object_0[key] == value,
{
}

/// A nested member is the member of a member.
pub proof fn law_nested_members_are_members_of_members(
    j: JsonView,
    outer: Seq<char>,
    inner: Seq<char>,
    value: JsonView,
)
    ensures
        nested(j, outer, inner) == Some(value) <==> exists|middle: JsonView| #[trigger]
            member(middle, inner) == Some(value) && member(j, outer) == Some(middle),
{
    if nested(j, outer, inner) == Some(value) {
        let middle = member(j, outer)->Some_0;
        assert(member(middle, inner) == Some(value));
    }
}

/// Text is read from text alone, an integer from a number that is that integer,
/// and items from an array.
pub proof fn law_values_are_read_as_what_they_are(
    j: Option<JsonView>,
    text: Seq<char>,
    unsigned: u64,
    signed: i64,
    items: Seq<JsonView>,
)
    ensures
        text_in(j) == Some(text) <==> j == Some(JsonView::Text(text)),
        unsigned_in(j) == Some(unsigned) <==> j == Some(
            JsonView::Number(NumberView::Unsigned(unsigned)),
        ),
        signed_in(j) == Some(signed) <==> j == Some(JsonView::Number(NumberView::Negative(signed)))
            || (signed >= 0 && j == Some(JsonView::Number(NumberView::Unsigned(signed as u64)))),
        items_in(j) == Some(items) <==> j == Some(JsonView::Array(items)),
{
}

/// An optional text is the text, or null.
pub proof fn law_optional_text_is_text_or_null(text: Seq<char>)
    ensures
        text_or_null(Some(text)) == JsonView::Text(text),
        text_or_null(None) == JsonView::Null,
{
}

/// The meaning of a value is that of its parts: texts and booleans stand for
/// themselves, a number for its meaning, and an array for its items in order.
pub proof fn law_values_mean_their_parts(j: Json)
    ensures
        j is Null ==> json_view(j) == JsonView::Null,
        j matches Json::Bool(b) ==> json_view(j) == JsonView::Bool(b),
        j matches Json::Number(n) ==> json_view(j) == JsonView::Number(number_meaning(n)),
        j matches Json::Text(s) ==> json_view(j) == JsonView::Text(s@),
        j matches Json::Array(items) ==> {
            &&& json_view(j) is Array
            &&& json_view(j)->Array_0.len() == items@.len()
            &&& forall|i: int|
                0 <= i < items@.len() ==> #[trigger] json_view(j)->Array_0[i] == json_view(
                    items@[i],
                )
        },
        j matches Json::Object(o) ==> json_view(j) == JsonView::Object(o@),
{
    if let Json::Array(items) = j {
        lemma_items_view(items@);
    }
}

/// A value of `serde_json` means what its part means, whether it is taken apart or
/// made: nothing is changed on the way in or out.
pub proof fn law_parts_and_shapes_mean_the_same(
    b: bool,
    n: serde_json::Number,
    text: String,
    items: Vec<serde_json::Value>,
    object: serde_json::Map<String, serde_json::Value>,
    i: int,
)
    ensures
        parts_meaning(ValueParts::Null) == JsonView::Null,
        shape_meaning(ValueShape::Null) == JsonView::Null,
        parts_meaning(ValueParts::Bool(b)) == JsonView::Bool(b),
        shape_meaning(ValueShape::Bool(b)) == JsonView::Bool(b),
        parts_meaning(ValueParts::Number(&n)) == JsonView::Number(number_meaning(n)),
        shape_meaning(ValueShape::Number(n)) == JsonView::Number(number_meaning(n)),
        parts_meaning(ValueParts::Text(&text)) == JsonView::Text(text@),
        shape_meaning(ValueShape::Text(text)) == JsonView::Text(text@),
        parts_meaning(ValueParts::Object(&object)) == JsonView::Object(map_meaning(object)),
        shape_meaning(ValueShape::Object(object)) == JsonView::Object(map_meaning(object)),
        parts_meaning(ValueParts::Array(&items)) == shape_meaning(ValueShape::Array(items)),
        items_in(Some(parts_meaning(ValueParts::Array(&items)))) matches Some(meant) && {
            &&& meant.len() == items@.len()
            &&& 0 <= i < items@.len() ==> meant[i] == value_meaning(items@[i])
        },
{
}

/// The members of an object are held under their keys, and a new object holds
/// none.
pub proof fn law_object_members_are_held_by_key(
    members: Seq<ValueMember<'_>>,
    last: ValueMember<'_>,
)
    ensures
        no_members() == Map::<Seq<char>, JsonView>::empty(),
        value_members(Seq::empty()) == Map::<Seq<char>, JsonView>::empty(),
        value_members(members.push(last)) == value_members(members).insert(
            last.key@,
            value_meaning(*last.value),
        ),
{
    assert(members.push(last).drop_last() =~= members);
}

/// A parse stands for the value or for the message of the error.
pub proof fn law_parses_stand_for_what_they_hold(json: Json, e: String)
    ensures
        parse_result(Ok(json)) == Ok::<JsonView, Seq<char>>(json@),
        parse_result(Err(e)) == Err::<JsonView, Seq<char>>(e@),
        json@ == json_view(json),
{
}

} // verus!
