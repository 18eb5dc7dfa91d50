//! JSON documents: the tree that a notebook is read from, and the few
//! questions the conversion asks of it.

use crate::error::{
    failure, text_result, unexpected, J2TError, J2TErrorKind, J2TErrorKindView, J2TErrorView,
    JsonShape,
};
use tinyjson::{JsonParseError, JsonValue};
use vstd::prelude::*;
use vstd::string::StringExecFns;

verus! {

/// The mathematical content of a JSON document.
pub enum JsonView {
    Null,
    Bool(bool),
    /// A number, by the decimal text that prints it.
    Number(Seq<char>),
    Str(Seq<char>),
    Array(Seq<JsonView>),
    Object(Map<Seq<char>, JsonView>),
}

/// A JSON document held in memory.
#[derive(Debug, PartialEq, Eq)]
pub enum Json {
    Null,
    Bool(bool),
    /// A number, by the decimal text that prints it: `1` for one, `2.5` for
    /// two and a half.
    Number(String),
    Str(String),
    Array(Vec<Json>),
    /// The members of an object. Where a key occurs twice, the first
    /// occurrence is the one that counts.
    Object(Vec<(String, Json)>),
}

impl Json {
    /// The contents of the items of an array, in order.
    pub open spec fn items_view(items: Seq<Json>) -> Seq<JsonView>
        decreases items, 0nat,
    {
        Seq::new(
            items.len(),
            |i: int|
                if 0 <= i < items.len() {
                    items[i].view()
                } else {
                    JsonView::Null
                },
        )
    }

    /// The mapping that a list of members stands for.
    pub open spec fn members_view(members: Seq<(String, Json)>) -> Map<Seq<char>, JsonView>
        decreases members, 0nat,
    {
        if members.len() == 0 {
            Map::empty()
        } else {
            Self::members_view(members.drop_first()).insert(
                members.first().0@,
                members.first().1.view(),
            )
        }
    }
}

impl View for Json {
    type V = JsonView;

    open spec fn view(&self) -> JsonView
        decreases self, 1nat,
    {
        match self {
            Json::Null => JsonView::Null,
            Json::Bool(b) => JsonView::Bool(*b),
            Json::Number(n) => JsonView::Number(n@),
            Json::Str(s) => JsonView::Str(s@),
            Json::Array(items) => JsonView::Array(Json::items_view(items@)),
            Json::Object(members) => JsonView::Object(Json::members_view(members@)),
        }
    }
}

/// The shape of a JSON value.
pub open spec fn shape_of(v: JsonView) -> JsonShape {
    match v {
        JsonView::Null => JsonShape::Null,
        JsonView::Bool(_) => JsonShape::Bool,
        JsonView::Number(_) => JsonShape::Number,
        JsonView::Str(_) => JsonShape::Str,
        JsonView::Array(_) => JsonShape::Array,
        JsonView::Object(_) => JsonShape::Object,
    }
}

/// The member of the object `v` under `key`; `None` where `v` is no object
/// or has no such member.
pub open spec fn member(v: JsonView, key: Seq<char>) -> Option<JsonView> {
    match v {
        JsonView::Object(members) => if members.contains_key(key) {
            Some(members[key])
        } else {
            None
        },
        _ => None,
    }
}

/// The shape of a value that may be absent.
pub open spec fn found_shape(v: Option<JsonView>) -> Option<JsonShape> {
    match v {
        Some(v) => Some(shape_of(v)),
        None => None,
    }
}

/// The object that the field `field` must hold.
pub open spec fn expect_object(field: Seq<char>, v: Option<JsonView>) -> Result<
    Map<Seq<char>, JsonView>,
    J2TErrorView,
> {
    match v {
        Some(JsonView::Object(members)) => Ok(members),
        _ => Err(unexpected(field, JsonShape::Object, found_shape(v))),
    }
}

/// The array that the field `field` must hold.
pub open spec fn expect_array(field: Seq<char>, v: Option<JsonView>) -> Result<
    Seq<JsonView>,
    J2TErrorView,
> {
    match v {
        Some(JsonView::Array(items)) => Ok(items),
        _ => Err(unexpected(field, JsonShape::Array, found_shape(v))),
    }
}

/// The string that the field `field` must hold.
pub open spec fn expect_str(field: Seq<char>, v: Option<JsonView>) -> Result<
    Seq<char>,
    J2TErrorView,
> {
    match v {
        Some(JsonView::Str(s)) => Ok(s),
        _ => Err(unexpected(field, JsonShape::Str, found_shape(v))),
    }
}

/// The number that the field `field` must hold, by its decimal text.
pub open spec fn expect_number(field: Seq<char>, v: Option<JsonView>) -> Result<
    Seq<char>,
    J2TErrorView,
> {
    match v {
        Some(JsonView::Number(n)) => Ok(n),
        _ => Err(unexpected(field, JsonShape::Number, found_shape(v))),
    }
}

/// The strings in `items` put one after the other with nothing between
/// them; where some item is no string, the shape of the first such item.
pub open spec fn joined(items: Seq<JsonView>) -> Result<Seq<char>, JsonShape>
    decreases items.len(),
{
    if items.len() == 0 {
        Ok(Seq::empty())
    } else {
        match joined(items.drop_last()) {
            Err(shape) => Err(shape),
            Ok(text) => match items.last() {
                JsonView::Str(s) => Ok(text + s),
                other => Err(shape_of(other)),
            },
        }
    }
}

/// The text that a list of fragments stands for; `None` where `v` is no
/// array of strings.
pub open spec fn fragments_text(v: JsonView) -> Option<Seq<char>> {
    match v {
        JsonView::Array(items) => match joined(items) {
            Ok(text) => Some(text),
            Err(_) => None,
        },
        _ => None,
    }
}

/// The text of the field `field`, which must hold a list of fragments.
pub open spec fn expect_text(field: Seq<char>, v: Option<JsonView>) -> Result<
    Seq<char>,
    J2TErrorView,
> {
    match expect_array(field, v) {
        Err(e) => Err(e),
        Ok(items) => match joined(items) {
            Ok(text) => Ok(text),
            Err(shape) => Err(unexpected(field, JsonShape::Str, Some(shape))),
        },
    }
}

/// A member found under `key` with no member of that key before it is what
/// the mapping holds under `key`.
pub proof fn lemma_member_found(members: Seq<(String, Json)>, i: int, key: Seq<char>)
    requires
        0 <= i < members.len(),
        members[i].0@ == key,
        forall|j: int| 0 <= j < i ==> members[j].0@ != key,
    ensures
        Json::members_view(members).contains_key(key),
        Json::members_view(members)[key] == members[i].1@,
    decreases i,
{
    assert(Json::members_view(members) == Json::members_view(members.drop_first()).insert(
        members.first().0@,
        members.first().1.view(),
    ));
    if i > 0 {
        let rest = members.drop_first();
        assert forall|j: int| 0 <= j < i - 1 implies rest[j].0@ != key by {
            assert(rest[j] == members[j + 1]);
        }
        lemma_member_found(rest, i - 1, key);
    }
}

/// The mapping holds a key exactly if some member has it.
pub proof fn lemma_member_keys(members: Seq<(String, Json)>, key: Seq<char>)
    ensures
        Json::members_view(members).contains_key(key) <==> exists|j: int|
            0 <= j < members.len() && #[trigger] members[j].0@ == key,
    decreases members.len(),
{
    if members.len() > 0 {
        let rest = members.drop_first();
        assert(Json::members_view(members) == Json::members_view(rest).insert(
            members.first().0@,
            members.first().1.view(),
        ));
        lemma_member_keys(rest, key);
        if Json::members_view(members).contains_key(key) {
            if members[0].0@ != key {
                let j = choose|j: int| 0 <= j < rest.len() && #[trigger] rest[j].0@ == key;
                assert(rest[j] == members[j + 1]);
            }
        }
        if exists|j: int| 0 <= j < members.len() && #[trigger] members[j].0@ == key {
            let j = choose|j: int| 0 <= j < members.len() && #[trigger] members[j].0@ == key;
            if j > 0 {
                assert(rest[j - 1] == members[j]);
            }
        }
    }
}

/// Once a prefix of `items` holds something that is no string, the whole
/// list fails in the same way.
pub proof fn lemma_joined_fails(items: Seq<JsonView>, n: int)
    requires
        0 <= n <= items.len(),
        joined(items.take(n)) is Err,
    ensures
        joined(items) == joined(items.take(n)),
    decreases items.len() - n,
{
    if n < items.len() {
        assert(items.take(n + 1).drop_last() == items.take(n));
        lemma_joined_fails(items, n + 1);
    } else {
        assert(items.take(n) == items);
    }
}

impl Json {
    /// The shape of the value.
    pub fn shape(&self) -> (r: JsonShape)
        ensures
            r == shape_of(self@),
    {
        match self {
            Json::Null => JsonShape::Null,
            Json::Bool(_) => JsonShape::Bool,
            Json::Number(_) => JsonShape::Number,
            Json::Str(_) => JsonShape::Str,
            Json::Array(_) => JsonShape::Array,
            Json::Object(_) => JsonShape::Object,
        }
    }

    /// The member under `key`, where the value is an object that has one.
    pub fn get(&self, key: &str) -> (r: Option<&Json>)
        ensures
            match r {
                Some(found) => member(self@, key@) == Some(found@),
                None => member(self@, key@) is None,
            },
    {
        match self {
            Json::Object(members) => {
                let wanted = key.to_owned();
                let mut i: usize = 0;
                while i < members.len()
                    invariant
                        i <= members.len(),
                        wanted@ == key@,
                        self@ == JsonView::Object(Json::members_view(members@)),
                        forall|j: int| 0 <= j < i ==> members@[j].0@ != key@,
                    decreases members.len() - i,
                {
                    if members[i].0 == wanted {
                        proof {
                            lemma_member_found(members@, i as int, key@);
                        }
                        return Some(&members[i].1);
                    }
                    i += 1;
                }
                proof {
                    lemma_member_keys(members@, key@);
                }
                None
            },
            _ => None,
        }
    }
}

/// The shape of a value that may be absent.
pub fn shape_found(v: Option<&Json>) -> (r: Option<JsonShape>)
    ensures
        r == found_shape(option_view(v)),
{
    match v {
        Some(v) => Some(v.shape()),
        None => None,
    }
}

/// The content of a value that may be absent.
pub open spec fn option_view(v: Option<&Json>) -> Option<JsonView> {
    match v {
        Some(v) => Some(v@),
        None => None,
    }
}

/// The object that the field `field` must hold.
pub fn require_object<'a>(field: &str, v: Option<&'a Json>) -> (r: Result<&'a Json, J2TError>)
    ensures
        match expect_object(field@, option_view(v)) {
            Ok(members) => r matches Ok(object) && object@ == JsonView::Object(members) && Some(
                object,
            ) == v,
            Err(e) => r matches Err(f) && f@ == e,
        },
{
    match v {
        Some(object) => match object {
            Json::Object(_) => Ok(object),
            _ => Err(J2TError::unexpected(field, JsonShape::Object, shape_found(v))),
        },
        None => Err(J2TError::unexpected(field, JsonShape::Object, None)),
    }
}

/// The items of the array that the field `field` must hold.
pub fn require_array<'a>(field: &str, v: Option<&'a Json>) -> (r: Result<&'a Vec<Json>, J2TError>)
    ensures
        match expect_array(field@, option_view(v)) {
            Ok(items) => r matches Ok(found) && Json::items_view(found@) == items,
            Err(e) => r matches Err(f) && f@ == e,
        },
{
    match v {
        Some(array) => match array {
            Json::Array(items) => Ok(items),
            _ => Err(J2TError::unexpected(field, JsonShape::Array, shape_found(v))),
        },
        None => Err(J2TError::unexpected(field, JsonShape::Array, None)),
    }
}

/// The string that the field `field` must hold.
pub fn require_str<'a>(field: &str, v: Option<&'a Json>) -> (r: Result<&'a String, J2TError>)
    ensures
        match expect_str(field@, option_view(v)) {
            Ok(s) => r matches Ok(found) && found@ == s,
            Err(e) => r matches Err(f) && f@ == e,
        },
{
    match v {
        Some(string) => match string {
            Json::Str(s) => Ok(s),
            _ => Err(J2TError::unexpected(field, JsonShape::Str, shape_found(v))),
        },
        None => Err(J2TError::unexpected(field, JsonShape::Str, None)),
    }
}

/// The decimal text of the number that the field `field` must hold.
pub fn require_number<'a>(field: &str, v: Option<&'a Json>) -> (r: Result<&'a String, J2TError>)
    ensures
        match expect_number(field@, option_view(v)) {
            Ok(n) => r matches Ok(found) && found@ == n,
            Err(e) => r matches Err(f) && f@ == e,
        },
{
    match v {
        Some(number) => match number {
            Json::Number(n) => Ok(n),
            _ => Err(J2TError::unexpected(field, JsonShape::Number, shape_found(v))),
        },
        None => Err(J2TError::unexpected(field, JsonShape::Number, None)),
    }
}

/// Puts the strings of `items` one after the other. Where some item is no
/// string, gives the shape of the first such item instead.
pub fn join_fragments(items: &Vec<Json>) -> (r: Result<String, JsonShape>)
    ensures
        match joined(Json::items_view(items@)) {
            Ok(text) => r matches Ok(found) && found@ == text,
            Err(shape) => r == Err::<String, JsonShape>(shape),
        },
{
    let ghost views = Json::items_view(items@);
    let mut text = String::new();
    let mut i: usize = 0;
    assert(views.take(0) == Seq::<JsonView>::empty());
    while i < items.len()
        invariant
            i <= items.len(),
            views == Json::items_view(items@),
            joined(views.take(i as int)) == Ok::<Seq<char>, JsonShape>(text@),
        decreases items.len() - i,
    {
        assert(views.take(i + 1).drop_last() == views.take(i as int));
        assert(views.take(i + 1).last() == items@[i as int]@);
        match &items[i] {
            Json::Str(s) => {
                text.append(s.as_str());
            },
            other => {
                proof {
                    lemma_joined_fails(views, i + 1);
                }
                return Err(other.shape());
            },
        }
        i += 1;
    }
    assert(views.take(i as int) == views);
    Ok(text)
}

/// Joins the fragments of a text field named `field` into one string, with
/// nothing between them. Fails where `lines` is no array, or holds an item
/// that is no string.
pub fn join_json_lines_array(field: &str, lines: &Json) -> (r: Result<String, J2TError>)
    ensures
        text_result(r) == expect_text(field@, Some(lines@)),
{
    match lines {
        Json::Array(items) => match join_fragments(items) {
            Ok(text) => Ok(text),
            Err(shape) => Err(J2TError::unexpected(field, JsonShape::Str, Some(shape))),
        },
        _ => Err(J2TError::unexpected(field, JsonShape::Array, Some(lines.shape()))),
    }
}

/// The text of a list of fragments, where `lines` is one.
pub fn fragments(lines: &Json) -> (r: Option<String>)
    ensures
        match fragments_text(lines@) {
            Some(text) => r matches Some(found) && found@ == text,
            None => r is None,
        },
{
    match lines {
        Json::Array(items) => match join_fragments(items) {
            Ok(text) => Some(text),
            Err(_) => None,
        },
        _ => None,
    }
}

/// A JSON value as the parser of `tinyjson` builds it.
#[verifier::external_type_specification]
#[verifier::external_body]
pub struct ExJsonValue(JsonValue);

/// The failure of the parser of `tinyjson`.
#[verifier::external_type_specification]
#[verifier::external_body]
pub struct ExJsonParseError(JsonParseError);

/// The document that the parser of `tinyjson` reads from a text; `None`
/// where it rejects the text.
pub uninterp spec fn json_document(text: Seq<char>) -> Option<JsonView>;

/// What a value built by `tinyjson` holds.
pub uninterp spec fn json_value_view(value: JsonValue) -> JsonView;

/// Calls `<tinyjson::JsonValue as FromStr>::from_str`. The contract names
/// the document that this text gives, each time it is parsed, and says
/// that a text which gives none fails each time. Of the failure itself it
/// says nothing: where the parser finds a key that is no string, its
/// message prints the value found, and with it the members of an object in
/// the order in which a hash map is walked.
#[verifier::external_body]
fn parse_json_value(text: &str) -> (r: Result<JsonValue, JsonParseError>)
    ensures
        match r {
            Ok(value) => json_document(text@) == Some(json_value_view(value)),
            Err(_) => json_document(text@) is None,
        },
{
    text.parse()
}

/// Moves a `tinyjson::JsonValue` into a [`Json`], variant by variant. A
/// number is kept by the text that `f64` prints; the members of an object
/// come in the order in which its hash map is walked, which the content of
/// the result does not depend on, since no key occurs twice.
#[verifier::external_body]
fn json_from_value(value: JsonValue) -> (json: Json)
    ensures
        json@ == json_value_view(value),
{
    match value {
        JsonValue::Null => Json::Null,
        JsonValue::Boolean(b) => Json::Bool(b),
        JsonValue::Number(n) => Json::Number(n.to_string()),
        JsonValue::String(s) => Json::Str(s),
        JsonValue::Array(a) => Json::Array(a.into_iter().map(json_from_value).collect()),
        JsonValue::Object(o) => Json::Object(
            o.into_iter().map(|(k, v)| (k, json_from_value(v))).collect(),
        ),
    }
}

/// Calls `to_string` on a `tinyjson::JsonParseError`, which prints the line,
/// the column and the parser's message. Nothing is claimed of the text.
#[verifier::external_body]
fn json_parse_error_message(e: &JsonParseError) -> (r: String) {
    e.to_string()
}

/// What becomes of the outcome of parsing the text of a notebook: a
/// document is handed on, a message becomes a `Syntax` failure.
pub open spec fn notebook_of_outcome(parsed: Result<JsonView, Seq<char>>) -> Result<
    JsonView,
    J2TErrorView,
> {
    match parsed {
        Ok(document) => Ok(document),
        Err(message) => Err(failure(J2TErrorKindView::Syntax(message))),
    }
}

/// Hands on what the parser made of the text of a notebook: a document as
/// it is, a message as a `Syntax` failure.
pub fn notebook_of_parsed(parsed: Result<Json, String>) -> (r: Result<Json, J2TError>)
    ensures
        match notebook_of_outcome(
            match parsed {
                Ok(json) => Ok(json@),
                Err(message) => Err(message@),
            },
        ) {
            Ok(document) => r matches Ok(json) && json@ == document,
            Err(e) => r matches Err(f) && f@ == e,
        },
        parsed is Ok ==> r == Ok::<Json, J2TError>(parsed->Ok_0),
{
    match parsed {
        Ok(json) => Ok(json),
        Err(message) => Err(J2TError::of_kind(J2TErrorKind::Syntax(message))),
    }
}

/// Reads a notebook from the text of its file. A text that the parser
/// rejects gives a `Syntax` failure that holds the parser's message.
pub fn parse_notebook(text: &str) -> (r: Result<Json, J2TError>)
    ensures
        match json_document(text@) {
            Some(document) => r matches Ok(json) && json@ == document,
            None => r matches Err(f) && f@.kind is Syntax && f@.msg is None,
        },
{
    let parsed = match parse_json_value(text) {
        Ok(value) => Ok(json_from_value(value)),
        Err(e) => Err(json_parse_error_message(&e)),
    };
    notebook_of_parsed(parsed)
}

} // verus!
