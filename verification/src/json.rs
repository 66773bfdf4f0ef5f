//! JSON values as plain data: what is read from one and how one is built.

use vstd::prelude::*;

use crate::text::str_equal;
use crate::trusted::number_as_i64;
use crate::trusted::number_as_u64;
use crate::trusted::number_copy;
use crate::trusted::number_meaning;

verus! {

/// A JSON value.
#[derive(Debug, PartialEq, Eq)]
pub enum Json {
    Null,
    Bool(bool),
    Number(serde_json::Number),
    Text(String),
    Array(Vec<Json>),
    Object(JsonObject),
}

/// A JSON object: of two members with one key the later one counts.
#[derive(Debug, PartialEq, Eq)]
pub struct JsonObject {
    pub members: Vec<JsonMember>,
}

/// One member of a JSON object.
#[derive(Debug, PartialEq, Eq)]
pub struct JsonMember {
    pub key: String,
    pub value: Json,
}

/// The meaning of a JSON number: an integer that fits, or the text of any other
/// number.
pub enum NumberView {
    /// Zero or a positive integer.
    Unsigned(u64),
    /// A negative integer.
    Negative(i64),
    /// Any other number, as it is written.
    Other(Seq<char>),
}

/// The meaning of a JSON value.
pub enum JsonView {
    Null,
    Bool(bool),
    Number(NumberView),
    Text(Seq<char>),
    Array(Seq<JsonView>),
    Object(Map<Seq<char>, JsonView>),
}

/// The meaning of a JSON value.
pub open spec fn json_view(j: Json) -> JsonView
    decreases j,
{
    match j {
        Json::Null => JsonView::Null,
        Json::Bool(b) => JsonView::Bool(b),
        Json::Number(n) => JsonView::Number(number_meaning(n)),
        Json::Text(s) => JsonView::Text(s@),
        Json::Array(items) => JsonView::Array(items_view(items@)),
        Json::Object(o) => JsonView::Object(members_view(o.members@)),
    }
}

/// The meanings of the items of an array.
pub open spec fn items_view(items: Seq<Json>) -> Seq<JsonView>
    decreases items,
{
    if items.len() == 0 {
        seq![]
    } else {
        items_view(items.drop_last()).push(json_view(items.last()))
    }
}

/// The members of an object by key.
pub open spec fn members_view(members: Seq<JsonMember>) -> Map<Seq<char>, JsonView>
    decreases members,
{
    if members.len() == 0 {
        Map::empty()
    } else {
        members_view(members.drop_last()).insert(
            members.last().key@,
            json_view(members.last().value),
        )
    }
}

impl View for Json {
    type V = JsonView;

    open spec fn view(&self) -> JsonView {
        json_view(*self)
    }
}

impl View for JsonObject {
    type V = Map<Seq<char>, JsonView>;

    open spec fn view(&self) -> Map<Seq<char>, JsonView> {
        members_view(self.members@)
    }
}

/// The value of an optional reference.
pub open spec fn json_option(j: Option<&Json>) -> Option<JsonView> {
    match j {
        Some(v) => Some(v@),
        None => None,
    }
}

/// The member of an object with the given key.
pub open spec fn member(j: JsonView, key: Seq<char>) -> Option<JsonView> {
    match j {
        JsonView::Object(m) => if m.contains_key(key) {
            Some(m[key])
        } else {
            None
        },
        _ => None,
    }
}

/// The member of a member.
pub open spec fn nested(j: JsonView, outer: Seq<char>, inner: Seq<char>) -> Option<JsonView> {
    match member(j, outer) {
        Some(v) => member(v, inner),
        None => None,
    }
}

/// The text that a value is.
pub open spec fn text_in(j: Option<JsonView>) -> Option<Seq<char>> {
    match j {
        Some(JsonView::Text(s)) => Some(s),
        _ => None,
    }
}

/// The unsigned integer that a number is.
pub open spec fn unsigned_number(n: NumberView) -> Option<u64> {
    match n {
        NumberView::Unsigned(v) => Some(v),
        _ => None,
    }
}

/// The signed integer that a number is.
pub open spec fn signed_number(n: NumberView) -> Option<i64> {
    match n {
        NumberView::Unsigned(v) => if v <= i64::MAX {
            Some(v as i64)
        } else {
            None
        },
        NumberView::Negative(v) => Some(v),
        NumberView::Other(_) => None,
    }
}

/// The unsigned integer that a value is.
pub open spec fn unsigned_in(j: Option<JsonView>) -> Option<u64> {
    match j {
        Some(JsonView::Number(n)) => unsigned_number(n),
        _ => None,
    }
}

/// The signed integer that a value is.
pub open spec fn signed_in(j: Option<JsonView>) -> Option<i64> {
    match j {
        Some(JsonView::Number(n)) => signed_number(n),
        _ => None,
    }
}

/// The items that a value holds.
pub open spec fn items_in(j: Option<JsonView>) -> Option<Seq<JsonView>> {
    match j {
        Some(JsonView::Array(items)) => Some(items),
        _ => None,
    }
}

/// The text of an optional string slice.
pub open spec fn str_option(s: Option<&str>) -> Option<Seq<char>> {
    match s {
        Some(t) => Some(t@),
        None => None,
    }
}

/// The meanings of items, position by position.
pub proof fn lemma_items_view(items: Seq<Json>)
    ensures
        items_view(items).len() == items.len(),
        forall|i: int| 0 <= i < items.len() ==> #[trigger] items_view(items)[i] == items[i]@,
    decreases items.len(),
{
    if items.len() > 0 {
        lemma_items_view(items.drop_last());
        assert forall|i: int| 0 <= i < items.len() implies #[trigger] items_view(items)[i]
            == items[i]@ by {
            if i < items.len() - 1 {
                assert(items_view(items)[i] == items_view(items.drop_last())[i]);
            }
        }
    }
}

impl JsonObject {
    /// The object without members.
    pub fn new() -> (r: JsonObject)
        ensures
            r@ == Map::<Seq<char>, JsonView>::empty(),
    {
        JsonObject { members: Vec::new() }
    }

    /// Sets the member with the given key.
    pub fn put(&mut self, key: &str, value: Json)
        ensures
            final(self)@ == old(self)@.insert(key@, value@),
    {
        let ghost before = self.members@;
        let added: JsonMember = JsonMember { key: key.to_owned(), value };
        self.members.push(added);
        assert(self.members@.drop_last() =~= before);
    }

    /// The member with the given key.
    pub fn get(&self, key: &str) -> (r: Option<&Json>)
        ensures
            json_option(r) == member(JsonView::Object(self@), key@),
    {
        let mut n: usize = self.members.len();
        assert(self.members@.take(n as int) =~= self.members@);
        while n > 0
            invariant
                n <= self.members@.len(),
                member(JsonView::Object(members_view(self.members@.take(n as int))), key@)
                    == member(JsonView::Object(self@), key@),
            decreases n,
        {
            assert(self.members@.take(n as int).drop_last() =~= self.members@.take(n - 1));
            if str_equal(self.members[n - 1].key.as_str(), key) {
                return Some(&self.members[n - 1].value);
            }
            n = n - 1;
        }
        assert(members_view(self.members@.take(0)) =~= Map::<Seq<char>, JsonView>::empty());
        None
    }
}

impl Json {
    /// The member of an object with the given key.
    pub fn get(&self, key: &str) -> (r: Option<&Json>)
        ensures
            json_option(r) == member(self@, key@),
    {
        match self {
            Json::Object(o) => o.get(key),
            _ => None,
        }
    }

    /// The member of a member.
    pub fn get_nested(&self, outer: &str, inner: &str) -> (r: Option<&Json>)
        ensures
            json_option(r) == nested(self@, outer@, inner@),
    {
        match self.get(outer) {
            Some(v) => v.get(inner),
            None => None,
        }
    }

    /// A copy of the value.
    pub fn copied(&self) -> (r: Json)
        ensures
            r@ == self@,
        decreases self,
    {
        match self {
            Json::Null => Json::Null,
            Json::Bool(b) => Json::Bool(*b),
            Json::Number(n) => Json::Number(number_copy(n)),
            Json::Text(s) => Json::Text(s.as_str().to_owned()),
            Json::Array(items) => {
                let n: usize = items.len();
                let mut out: Vec<Json> = Vec::new();
                let mut i: usize = 0;
                while i < n
                    invariant
                        n == items@.len(),
                        i <= n,
                        *self == Json::Array(*items),
                        items_view(out@) == items_view(items@.take(i as int)),
                    decreases n - i,
                {
                    let ghost before = out@;
                    assert(decreases_to!(items@ => items@[i as int]));
                    assert(decreases_to!(*items => items@));
                    assert(decreases_to!(*self => self->Array_0));
                    let item: Json = items[i].copied();
                    out.push(item);
                    assert(out@.drop_last() =~= before);
                    assert(items@.take(i + 1).drop_last() =~= items@.take(i as int));
                    i = i + 1;
                }
                assert(items@.take(n as int) =~= items@);
                Json::Array(out)
            },
            Json::Object(o) => {
                let n: usize = o.members.len();
                let mut out: JsonObject = JsonObject::new();
                let mut i: usize = 0;
                while i < n
                    invariant
                        n == o.members@.len(),
                        i <= n,
                        *self == Json::Object(*o),
                        out@ == members_view(o.members@.take(i as int)),
                    decreases n - i,
                {
                    assert(decreases_to!(o.members@ => o.members@[i as int]));
                    assert(decreases_to!(o.members => o.members@));
                    assert(decreases_to!(*o => o.members));
                    assert(decreases_to!(*self => self->Object_0));
                    assert(decreases_to!(o.members@[i as int] => o.members@[i as int].value));
                    let value: Json = o.members[i].value.copied();
                    out.put(o.members[i].key.as_str(), value);
                    assert(o.members@.take(i + 1).drop_last() =~= o.members@.take(i as int));
                    i = i + 1;
                }
                assert(o.members@.take(n as int) =~= o.members@);
                Json::Object(out)
            },
        }
    }
}

/// The text that a value is.
pub fn as_str(j: Option<&Json>) -> (r: Option<&str>)
    ensures
        str_option(r) == text_in(json_option(j)),
{
    match j {
        Some(Json::Text(s)) => Some(s.as_str()),
        _ => None,
    }
}

/// The unsigned integer that a value is.
pub fn as_u64(j: Option<&Json>) -> (r: Option<u64>)
    ensures
        r == unsigned_in(json_option(j)),
{
    match j {
        Some(Json::Number(n)) => number_as_u64(n),
        _ => None,
    }
}

/// The signed integer that a value is.
pub fn as_i64(j: Option<&Json>) -> (r: Option<i64>)
    ensures
        r == signed_in(json_option(j)),
{
    match j {
        Some(Json::Number(n)) => number_as_i64(n),
        _ => None,
    }
}

/// Whether an optional value is the given text.
pub fn is_text(j: Option<&Json>, text: &str) -> (r: bool)
    ensures
        r == (text_in(json_option(j)) == Some(text@)),
{
    match as_str(j) {
        Some(s) => str_equal(s, text),
        None => false,
    }
}

/// A text value.
pub fn text_json(s: &str) -> (r: Json)
    ensures
        r@ == JsonView::Text(s@),
{
    Json::Text(s.to_owned())
}

/// What an optional text becomes: the text, or null.
pub open spec fn text_or_null(s: Option<Seq<char>>) -> JsonView {
    match s {
        Some(t) => JsonView::Text(t),
        None => JsonView::Null,
    }
}

/// An optional text as a value: the text, or null.
pub fn option_json(s: Option<&str>) -> (r: Json)
    ensures
        r@ == text_or_null(str_option(s)),
{
    match s {
        Some(t) => text_json(t),
        None => Json::Null,
    }
}

} // verus!
