//! JSON values of `serde_json`, and what the library knows of them.

use vstd::prelude::*;

verus! {

/// What a JSON value holds.
pub enum JsonView {
    Null,
    Bool(bool),
    /// A number kept as an integer.
    Integer(int),
    /// A number kept in floating point, by its IEEE 754 bits.
    Float(u64),
    Text(Seq<char>),
    Array(Seq<JsonView>),
    Object(Map<Seq<char>, JsonView>),
}

impl JsonView {
    /// The member `key` of an object.
    pub open spec fn member(self, key: Seq<char>) -> Option<JsonView> {
        match self {
            JsonView::Object(members) => if members.contains_key(key) {
                Some(members[key])
            } else {
                None
            },
            _ => None,
        }
    }

    /// The characters of a string.
    pub open spec fn as_text(self) -> Option<Seq<char>> {
        match self {
            JsonView::Text(chars) => Some(chars),
            _ => None,
        }
    }

    /// The elements of an array.
    pub open spec fn as_items(self) -> Option<Seq<JsonView>> {
        match self {
            JsonView::Array(items) => Some(items),
            _ => None,
        }
    }

    /// A number that is an integer from 0 to `u64::MAX`.
    pub open spec fn as_unsigned(self) -> Option<u64> {
        match self {
            JsonView::Integer(n) => if 0 <= n <= u64::MAX {
                Some(n as u64)
            } else {
                None
            },
            _ => None,
        }
    }
}

/// `serde_json::Value`, whose contents `json_view` names.
#[verifier::external_type_specification]
#[verifier::external_body]
pub struct ExValue(serde_json::Value);

/// `serde_json::Map`, whose members `json_members` names.
#[verifier::external_type_specification]
#[verifier::external_body]
#[verifier::reject_recursive_types(K)]
#[verifier::reject_recursive_types(V)]
pub struct ExMap<K, V>(serde_json::Map<K, V>);

/// `serde_json::Error`, carried through and never looked into.
#[verifier::external_type_specification]
#[verifier::external_body]
pub struct ExError(serde_json::Error);

/// The contents of a `serde_json::Value`.
pub uninterp spec fn json_view(value: serde_json::Value) -> JsonView;

/// The members of a `serde_json::Map`.
pub uninterp spec fn json_members(members: serde_json::Map<String, serde_json::Value>) -> Map<
    Seq<char>,
    JsonView,
>;

/// The value that `serde_json::from_str` reads from a text, or `None` where it
/// reports an error.
pub uninterp spec fn json_parsed(source: Seq<char>) -> Option<JsonView>;

/// The text that the `Display` of `serde_json::Value` writes for a value. An
/// object keeps its members ordered by name, so the text depends on the contents
/// alone.
pub uninterp spec fn json_display(value: JsonView) -> Seq<char>;

/// The contents of a sequence of values.
pub open spec fn json_views(values: Seq<serde_json::Value>) -> Seq<JsonView> {
    values.map_values(|value: serde_json::Value| json_view(value))
}

/// The members of an empty object.
pub open spec fn no_members() -> Map<Seq<char>, JsonView> {
    Map::empty()
}

/// `serde_json::from_str` at the type `serde_json::Value`. Which texts it reads,
/// and to which value, is named by `json_parsed` and not spelled out.
#[verifier::external_body]
pub(crate) fn parse_json(source: &str) -> (parsed: Result<serde_json::Value, serde_json::Error>)
    ensures
        match parsed {
            Ok(value) => json_parsed(source@) == Some(json_view(value)),
            Err(_) => json_parsed(source@) is None,
        },
{
    serde_json::from_str(source)
}

/// `serde_json::Value::get` with a string: the member of that name where the
/// value is an object that has one, and `None` otherwise.
#[verifier::external_body]
pub(crate) fn json_get<'a>(value: &'a serde_json::Value, key: &str) -> (member: Option<
    &'a serde_json::Value,
>)
    ensures
        match member {
            Some(inner) => json_view(*value).member(key@) == Some(json_view(*inner)),
            None => json_view(*value).member(key@) is None,
        },
{
    value.get(key)
}

/// `serde_json::Value::as_str`: the characters of a string, `None` for any other
/// kind of value.
pub assume_specification[ serde_json::Value::as_str ](value: &serde_json::Value) -> (text: Option<
    &str,
>)
    ensures
        match text {
            Some(chars) => json_view(*value).as_text() == Some(chars@),
            None => json_view(*value).as_text() is None,
        },
;

/// `serde_json::Value::as_array`: the elements of an array, `None` for any other
/// kind of value.
pub assume_specification[ serde_json::Value::as_array ](value: &serde_json::Value) -> (items:
    Option<&Vec<serde_json::Value>>)
    ensures
        match items {
            Some(elements) => json_view(*value).as_items() == Some(json_views(elements@)),
            None => json_view(*value).as_items() is None,
        },
;

/// `serde_json::Value::as_u64`: the number, where the value is one that is kept
/// as an integer and is not negative; `None` otherwise.
pub assume_specification[ serde_json::Value::as_u64 ](value: &serde_json::Value) -> (number: Option<
    u64,
>)
    ensures
        number == json_view(*value).as_unsigned(),
;

/// `Clone` of `serde_json::Value`: a value with the same contents.
pub assume_specification[ <serde_json::Value as Clone>::clone ](value: &serde_json::Value) -> (copy:
    serde_json::Value)
    ensures
        json_view(copy) == json_view(*value),
;

/// `serde_json::Value::String`: a JSON string of these characters.
#[verifier::external_body]
pub(crate) fn json_string(chars: String) -> (value: serde_json::Value)
    ensures
        json_view(value) == JsonView::Text(chars@),
{
    serde_json::Value::String(chars)
}

/// `serde_json::Value::Bool`: a JSON boolean.
#[verifier::external_body]
pub(crate) fn json_bool(flag: bool) -> (value: serde_json::Value)
    ensures
        json_view(value) == JsonView::Bool(flag),
{
    serde_json::Value::Bool(flag)
}

/// `serde_json::Value::Array`: a JSON array of these elements, in this order.
#[verifier::external_body]
pub(crate) fn json_array(elements: Vec<serde_json::Value>) -> (value: serde_json::Value)
    ensures
        json_view(value) == JsonView::Array(json_views(elements@)),
{
    serde_json::Value::Array(elements)
}

/// `serde_json::Map::new`: no members.
#[verifier::external_body]
pub(crate) fn json_members_new() -> (members: serde_json::Map<String, serde_json::Value>)
    ensures
        json_members(members) == no_members(),
{
    serde_json::Map::new()
}

/// `serde_json::Map::insert`: the member `key` is there afterwards with this value,
/// whether it was there before or not, and the others stay.
#[verifier::external_body]
pub(crate) fn json_insert(
    members: &mut serde_json::Map<String, serde_json::Value>,
    key: &str,
    value: serde_json::Value,
)
    ensures
        json_members(*final(members)) == json_members(*old(members)).insert(
            key@,
            json_view(value),
        ),
{
    members.insert(key.to_string(), value);
}

/// `serde_json::Value::Object`: a JSON object of these members.
#[verifier::external_body]
pub(crate) fn json_object(members: serde_json::Map<String, serde_json::Value>) -> (value:
    serde_json::Value)
    ensures
        json_view(value) == JsonView::Object(json_members(members)),
{
    serde_json::Value::Object(members)
}

/// `to_string` of `serde_json::Value`, that is, its `Display`: the compact JSON
/// text, named by `json_display`.
#[verifier::external_body]
pub(crate) fn json_to_string(value: &serde_json::Value) -> (text: String)
    ensures
        text@ == json_display(json_view(*value)),
{
    value.to_string()
}

/// The contents of a sequence of values are as many as the values, each those of its
/// own.
pub proof fn law_json_views(values: Seq<serde_json::Value>)
    ensures
        json_views(values).len() == values.len(),
        forall|i: int|
            0 <= i < values.len() ==> #[trigger] json_views(values)[i] == json_view(values[i]),
{
}

} // verus!
