//! JSON documents, as far as the oracles read them.

use vstd::prelude::*;
use crate::bytes::same_text;
use crate::text::joined;

verus! {

/// A JSON value.
#[derive(Debug, PartialEq, Eq)]
pub enum Json {
    Null,
    Bool(bool),
    /// A number: how it is written, and its value where that is a whole number of 64 bits.
    Number { text: String, unsigned: Option<u64> },
    Text(String),
    Array(Vec<Json>),
    /// An object: its members with their names.
    Object(Vec<(String, Json)>),
}

/// What a [`Json`] value stands for.
pub enum JsonView {
    Null,
    Bool(bool),
    Number { text: Seq<char>, unsigned: Option<u64> },
    Text(Seq<char>),
    Array(Seq<JsonView>),
    Object(Seq<(Seq<char>, JsonView)>),
}

/// The meaning of a value, part by part.
pub open spec fn meaning(value: Json) -> JsonView
    decreases value,
{
    match value {
        Json::Null => JsonView::Null,
        Json::Bool(b) => JsonView::Bool(b),
        Json::Number { text, unsigned } => JsonView::Number { text: text@, unsigned },
        Json::Text(text) => JsonView::Text(text@),
        Json::Array(items) => JsonView::Array(
            Seq::new(
                items@.len(),
                |i: int|
                    if 0 <= i < items@.len() {
                        meaning(items@[i])
                    } else {
                        JsonView::Null
                    },
            ),
        ),
        Json::Object(members) => JsonView::Object(
            Seq::new(
                members@.len(),
                |i: int|
                    if 0 <= i < members@.len() {
                        (members@[i].0@, meaning(members@[i].1))
                    } else {
                        (Seq::empty(), JsonView::Null)
                    },
            ),
        ),
    }
}

impl View for Json {
    type V = JsonView;

    open spec fn view(&self) -> JsonView {
        meaning(*self)
    }
}

/// A JSON value of the `serde_json` crate.
#[verifier::external_type_specification]
#[verifier::external_body]
pub struct ExValue(serde_json::Value);

/// The document that some bytes are the text of; where they are the text of none, what the decoder
/// says is wrong with them.
pub uninterp spec fn json_of(text: Seq<u8>) -> Result<JsonView, Seq<char>>;

/// Takes a `serde_json::Value` apart, one variant for one; of a number it takes
/// `serde_json::Number`'s `to_string` and `as_u64`. Nothing is claimed of it here.
#[verifier::external_body]
fn take_apart(value: serde_json::Value) -> Json {
    match value {
        serde_json::Value::Null => Json::Null,
        serde_json::Value::Bool(b) => Json::Bool(b),
        serde_json::Value::Number(n) => Json::Number { text: n.to_string(), unsigned: n.as_u64() },
        serde_json::Value::String(text) => Json::Text(text),
        serde_json::Value::Array(items) => Json::Array(items.into_iter().map(take_apart).collect()),
        serde_json::Value::Object(members) => Json::Object(
            members.into_iter().map(|(name, value)| (name, take_apart(value))).collect(),
        ),
    }
}

/// Calls `serde_json::from_slice` for a `serde_json::Value` and names its result: the document,
/// taken apart, where the bytes are the text of one, and the text of the `serde_json::Error` where
/// they are not.
#[verifier::external_body]
fn from_slice(text: &[u8]) -> (document: Result<Json, String>)
    ensures
        match document {
            Ok(value) => json_of(text@) == Ok::<JsonView, Seq<char>>(value@),
            Err(message) => json_of(text@) == Err::<JsonView, Seq<char>>(message@),
        },
{
    serde_json::from_slice::<serde_json::Value>(text).map(take_apart).map_err(|e| e.to_string())
}

/// What came of an HTTP request. Errors are told in words.
#[derive(Clone, Debug, PartialEq, Eq)]
pub enum Response {
    /// The request could not be sent.
    RequestFailed(String),
    /// The request was sent, and no response came.
    ResponseFailed(String),
    /// The body of the response, whatever its status.
    Body(Vec<u8>),
}

/// What a [`Response`] says.
pub enum ResponseView {
    RequestFailed(Seq<char>),
    ResponseFailed(Seq<char>),
    Body(Seq<u8>),
}

impl View for Response {
    type V = ResponseView;

    open spec fn view(&self) -> ResponseView {
        match *self {
            Response::RequestFailed(error) => ResponseView::RequestFailed(error@),
            Response::ResponseFailed(error) => ResponseView::ResponseFailed(error@),
            Response::Body(body) => ResponseView::Body(body@),
        }
    }
}

/// The document in a response, or why there is none, in words.
pub open spec fn fetched(response: ResponseView) -> Result<JsonView, Seq<char>> {
    match response {
        ResponseView::RequestFailed(error) => Err("HTTP request: "@ + error),
        ResponseView::ResponseFailed(error) => Err("HTTP response: "@ + error),
        ResponseView::Body(body) => match json_of(body) {
            Ok(document) => Ok(document),
            Err(message) => Err("JSON decode: "@ + message),
        },
    }
}

/// Reads the document in a response, or tells in words why there is none.
pub fn fetch_json(response: &Response) -> (document: Result<Json, String>)
    ensures
        match document {
            Ok(document) => fetched(response@) == Ok::<JsonView, Seq<char>>(document@),
            Err(message) => fetched(response@) == Err::<JsonView, Seq<char>>(message@),
        },
{
    match response {
        Response::RequestFailed(error) => Err(joined("HTTP request: ", error.as_str())),
        Response::ResponseFailed(error) => Err(joined("HTTP response: ", error.as_str())),
        Response::Body(body) => match from_slice(body.as_slice()) {
            Ok(document) => Ok(document),
            Err(message) => Err(joined("JSON decode: ", message.as_str())),
        },
    }
}

/// The member with a name, null where there is none.
pub open spec fn find_member(members: Seq<(Seq<char>, JsonView)>, name: Seq<char>) -> JsonView
    decreases members.len(),
{
    if members.len() == 0 {
        JsonView::Null
    } else if members[0].0 == name {
        members[0].1
    } else {
        find_member(members.drop_first(), name)
    }
}

impl JsonView {
    /// The member with a name; null where there is none, or the value is no object.
    pub open spec fn member(self, name: Seq<char>) -> JsonView {
        match self {
            JsonView::Object(members) => find_member(members, name),
            _ => JsonView::Null,
        }
    }

    /// The item with an index; null where there is none, or the value is no array.
    pub open spec fn item(self, index: int) -> JsonView {
        match self {
            JsonView::Array(items) => if 0 <= index < items.len() {
                items[index]
            } else {
                JsonView::Null
            },
            _ => JsonView::Null,
        }
    }

    /// The value of a whole number of 64 bits.
    pub open spec fn as_u64(self) -> Option<u64> {
        match self {
            JsonView::Number { unsigned, .. } => unsigned,
            _ => None,
        }
    }
}

/// A part of a document stands for its value, a missing part for null.
pub open spec fn part_view(part: Option<&Json>) -> JsonView {
    match part {
        None => JsonView::Null,
        Some(value) => value@,
    }
}

/// Reads the member with a name.
pub fn member<'a>(value: Option<&'a Json>, name: &str) -> (part: Option<&'a Json>)
    ensures
        part_view(part) == part_view(value).member(name@),
{
    match value {
        Some(Json::Object(members)) => {
            let ghost all = part_view(value)->Object_0;
            let mut i: usize = 0;
            assert(all.skip(0) =~= all);
            while i < members.len()
                invariant
                    i <= members@.len(),
                    all == part_view(value)->Object_0,
                    value matches Some(v) && v matches Json::Object(m) && m == members,
                    find_member(all, name@) == find_member(all.skip(i as int), name@),
                decreases members@.len() - i,
            {
                assert(all.skip(i as int)[0] == (members@[i as int].0@, members@[i as int].1@));
                if same_text(members[i].0.as_str(), name) {
                    return Some(&members[i].1);
                }
                assert(all.skip(i as int).drop_first() =~= all.skip(i + 1));
                i += 1;
            }
            None
        },
        _ => None,
    }
}

/// Reads the item with an index.
pub fn item<'a>(value: Option<&'a Json>, index: usize) -> (part: Option<&'a Json>)
    ensures
        part_view(part) == part_view(value).item(index as int),
{
    match value {
        Some(Json::Array(items)) => if index < items.len() {
            Some(&items[index])
        } else {
            None
        },
        _ => None,
    }
}

/// Reads a whole number of 64 bits.
pub fn as_u64(value: Option<&Json>) -> (number: Option<u64>)
    ensures
        number == part_view(value).as_u64(),
{
    match value {
        Some(Json::Number { unsigned, .. }) => *unsigned,
        _ => None,
    }
}

/// Whether a part is a given text.
pub fn is_text(value: Option<&Json>, text: &str) -> (is: bool)
    ensures
        is == (part_view(value) == JsonView::Text(text@)),
{
    match value {
        Some(Json::Text(own)) => same_text(own.as_str(), text),
        _ => false,
    }
}

/// Whether two values are the same.
pub fn same_json(a: &Json, b: &Json) -> (same: bool)
    ensures
        same == (a@ == b@),
    decreases a,
{
    match (a, b) {
        (Json::Null, Json::Null) => true,
        (Json::Bool(x), Json::Bool(y)) => *x == *y,
        (
            Json::Number { text: x, unsigned: u },
            Json::Number { text: y, unsigned: v },
        ) => same_text(x.as_str(), y.as_str()) && match (u, v) {
            (Some(u), Some(v)) => *u == *v,
            (None, None) => true,
            _ => false,
        },
        (Json::Text(x), Json::Text(y)) => same_text(x.as_str(), y.as_str()),
        (Json::Array(x), Json::Array(y)) => {
            let ghost (s, t) = (a@->Array_0, b@->Array_0);
            if x.len() != y.len() {
                assert(s.len() != t.len());
                return false;
            }
            let mut i: usize = 0;
            while i < x.len()
                invariant
                    i <= x@.len(),
                    x@.len() == y@.len(),
                    *a == Json::Array(*x),
                    *b == Json::Array(*y),
                    s == a@->Array_0,
                    t == b@->Array_0,
                    forall|j: int| 0 <= j < i ==> #[trigger] s[j] == t[j],
                decreases x@.len() - i,
            {
                assert(s[i as int] == x@[i as int]@);
                assert(t[i as int] == y@[i as int]@);
                if !same_json(&x[i], &y[i]) {
                    return false;
                }
                i += 1;
            }
            assert(s =~= t);
            true
        },
        (Json::Object(x), Json::Object(y)) => {
            let ghost (s, t) = (a@->Object_0, b@->Object_0);
            if x.len() != y.len() {
                assert(s.len() != t.len());
                return false;
            }
            let mut i: usize = 0;
            while i < x.len()
                invariant
                    i <= x@.len(),
                    x@.len() == y@.len(),
                    *a == Json::Object(*x),
                    *b == Json::Object(*y),
                    s == a@->Object_0,
                    t == b@->Object_0,
                    forall|j: int| 0 <= j < i ==> #[trigger] s[j] == t[j],
                decreases x@.len() - i,
            {
                assert(s[i as int] == (x@[i as int].0@, x@[i as int].1@));
                assert(t[i as int] == (y@[i as int].0@, y@[i as int].1@));
                if !same_text(x[i].0.as_str(), y[i].0.as_str()) || !same_json(&x[i].1, &y[i].1) {
                    return false;
                }
                i += 1;
            }
            assert(s =~= t);
            true
        },
        _ => false,
    }
}

/// What a value is made of is what it stands for: texts, numbers and truth values as they are,
/// arrays item by item and objects member by member.
pub proof fn law_values_stand_for_their_parts(value: Json, i: int)
    ensures
        value is Null <==> value@ is Null,
        value matches Json::Bool(b) ==> value@ == JsonView::Bool(b),
        value matches Json::Text(text) ==> value@ == JsonView::Text(text@),
        value matches Json::Number { text, unsigned } ==> value@ == (JsonView::Number {
            text: text@,
            unsigned,
        }),
        value matches Json::Array(items) ==> (value@ matches JsonView::Array(views)
            && views.len() == items@.len() && (0 <= i < items@.len() ==> views[i]
            == items@[i]@)),
        value matches Json::Object(members) ==> (value@ matches JsonView::Object(views)
            && views.len() == members@.len() && (0 <= i < members@.len() ==> views[i] == (
            members@[i].0@,
            members@[i].1@,
        ))),
{
}

/// The first member with a name is found, wherever it stands.
pub proof fn law_members_are_found(members: Seq<(Seq<char>, JsonView)>, i: int)
    requires
        0 <= i < members.len(),
        forall|j: int| 0 <= j < i ==> (#[trigger] members[j]).0 != members[i].0,
    ensures
        JsonView::Object(members).member(members[i].0) == members[i].1,
    decreases i,
{
    if i > 0 {
        let rest = members.drop_first();
        assert(members[0].0 != members[i].0);
        assert forall|j: int| 0 <= j < i - 1 implies (#[trigger] rest[j]).0 != rest[i - 1].0 by {
            assert(members[j + 1].0 != members[i].0);
        }
        law_members_are_found(rest, i - 1);
    }
}

/// A member that is not there is null, and so is each member of what is no object.
pub proof fn law_missing_members_are_null(value: JsonView, name: Seq<char>)
    requires
        value matches JsonView::Object(members) ==> forall|j: int|
            0 <= j < members.len() ==> (#[trigger] members[j]).0 != name,
    ensures
        value.member(name) is Null,
    decreases value->Object_0.len(),
{
    if let JsonView::Object(members) = value {
        if members.len() > 0 {
            let rest = members.drop_first();
            assert(members[0].0 != name);
            assert forall|j: int| 0 <= j < rest.len() implies (#[trigger] rest[j]).0 != name by {
                assert(members[j + 1].0 != name);
            }
            law_missing_members_are_null(JsonView::Object(rest), name);
        }
    }
}

/// Items are found by their place, and what is not there is null; numbers are read where they are
/// whole numbers of 64 bits, and nothing else is.
pub proof fn law_items_and_numbers_are_read(value: JsonView, i: int)
    ensures
        value matches JsonView::Array(items) ==> (0 <= i < items.len() ==> value.item(i)
            == items[i]),
        !(value matches JsonView::Array(items) && 0 <= i < items.len()) ==> value.item(i) is Null,
        value matches JsonView::Number { unsigned, .. } ==> value.as_u64() == unsigned,
        !(value is Number) ==> value.as_u64() is None,
{
}

/// What a response gives: the document of a body that the decoder takes, and else a text that tells
/// what failed, followed by the error, in full.
pub proof fn law_fetch_errors_are_told_in_full(response: ResponseView)
    ensures
        match response {
            ResponseView::RequestFailed(error) => fetched(response) matches Err(text)
                && text.len() == 14 + error.len() && text.take(14) == "HTTP request: "@
                && text.skip(14) == error,
            ResponseView::ResponseFailed(error) => fetched(response) matches Err(text)
                && text.len() == 15 + error.len() && text.take(15) == "HTTP response: "@
                && text.skip(15) == error,
            ResponseView::Body(body) => {
                &&& json_of(body) is Ok <==> fetched(response) is Ok
                &&& json_of(body) matches Ok(document) ==> fetched(response)->Ok_0 == document
                &&& json_of(body) matches Err(message) ==> (fetched(response) matches Err(text)
                    && text.len() == 13 + message.len() && text.take(13) == "JSON decode: "@
                    && text.skip(13) == message)
            },
        },
{
    reveal_strlit("HTTP request: ");
    reveal_strlit("HTTP response: ");
    reveal_strlit("JSON decode: ");
    match response {
        ResponseView::RequestFailed(error) => {
            assert(("HTTP request: "@ + error).take(14) =~= "HTTP request: "@);
            assert(("HTTP request: "@ + error).skip(14) =~= error);
        },
        ResponseView::ResponseFailed(error) => {
            assert(("HTTP response: "@ + error).take(15) =~= "HTTP response: "@);
            assert(("HTTP response: "@ + error).skip(15) =~= error);
        },
        ResponseView::Body(body) => {
            if let Err(message) = json_of(body) {
                assert(("JSON decode: "@ + message).take(13) =~= "JSON decode: "@);
                assert(("JSON decode: "@ + message).skip(13) =~= message);
            }
        },
    }
}

/// A part stands for its value, a missing part for null; a response stands for its body or its
/// error.
pub proof fn law_parts_and_responses_stand_for_what_they_hold(part: Option<&Json>, r: Response)
    ensures
        part is None ==> part_view(part) is Null,
        part matches Some(value) ==> part_view(part) == value@,
        r matches Response::RequestFailed(error) ==> r@ == ResponseView::RequestFailed(error@),
        r matches Response::ResponseFailed(error) ==> r@ == ResponseView::ResponseFailed(error@),
        r matches Response::Body(body) ==> r@ == ResponseView::Body(body@),
{
}

} // verus!
