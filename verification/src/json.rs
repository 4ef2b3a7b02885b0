//! The JSON values that intent cards are read from and receipts are filled with.
//!
//! The values themselves are `serde_json`'s. Contracts speak of them through [`Json`], a
//! mathematical picture of a JSON document, which [`json_view`] and [`object_view`] give for each
//! `serde_json` value and object.

use vstd::prelude::*;

verus! {

/// A JSON document.
pub enum Json {
    /// The literal `null`.
    Null,
    /// `true` or `false`.
    Bool(bool),
    /// A number held as an integer.
    Integer(int),
    /// A number held in floating point; its value is not modelled.
    Real,
    /// A string.
    Text(Seq<char>),
    /// An array.
    Array(Seq<Json>),
    /// An object: its members by name.
    Object(Map<Seq<char>, Json>),
}

impl Json {
    /// The member called `name`, where this is an object that has one.
    pub open spec fn member(self, name: Seq<char>) -> Option<Json> {
        match self {
            Json::Object(members) => if members.contains_key(name) {
                Some(members[name])
            } else {
                None
            },
            _ => None,
        }
    }

    /// The boolean that this is, if it is one.
    pub open spec fn as_bool(self) -> Option<bool> {
        match self {
            Json::Bool(b) => Some(b),
            _ => None,
        }
    }

    /// The integer that this is, if it is one and a `u64` can hold it.
    pub open spec fn as_u64(self) -> Option<u64> {
        match self {
            Json::Integer(n) => if 0 <= n <= u64::MAX {
                Some(n as u64)
            } else {
                None
            },
            _ => None,
        }
    }
}

/// `serde_json`'s JSON value.
#[verifier::external_type_specification]
#[verifier::external_body]
pub struct ExValue(serde_json::Value);

/// `serde_json`'s JSON object.
#[verifier::external_type_specification]
#[verifier::external_body]
#[verifier::reject_recursive_types(K)]
#[verifier::reject_recursive_types(V)]
pub struct ExMap<K, V>(serde_json::Map<K, V>);

/// The document that a `serde_json::Value` holds.
pub uninterp spec fn json_view(value: serde_json::Value) -> Json;

/// The members that a `serde_json::Map` holds.
pub uninterp spec fn object_view(
    object: serde_json::Map<String, serde_json::Value>,
) -> Map<Seq<char>, Json>;

/// `serde_json::Map::clone`: an object with the same members.
pub assume_specification[ <serde_json::Map<
    String,
    serde_json::Value,
> as Clone>::clone ](
    object: &serde_json::Map<String, serde_json::Value>,
) -> (res: serde_json::Map<String, serde_json::Value>)
    ensures
        object_view(res) == object_view(*object),
;

/// `serde_json::Value::get` with a string: the member of that name where the value is an object
/// that has it, and `None` for every other value.
#[verifier::external_body]
pub(crate) fn get_member<'a>(value: &'a serde_json::Value, name: &str) -> (res: Option<
    &'a serde_json::Value,
>)
    ensures
        json_view(*value).member(name@) == (match res {
            Some(member) => Some(json_view(*member)),
            None => None,
        }),
{
    value.get(name)
}

/// `serde_json::Value::as_bool`: the boolean that the value is, and `None` where it is none.
#[verifier::external_body]
pub(crate) fn get_bool(value: &serde_json::Value) -> (res: Option<bool>)
    ensures
        res == json_view(*value).as_bool(),
{
    value.as_bool()
}

/// `serde_json::Value::as_u64`: the non-negative integer that the value is, and `None` for every
/// other value, floating point numbers with an integral value among them.
#[verifier::external_body]
pub(crate) fn get_u64(value: &serde_json::Value) -> (res: Option<u64>)
    ensures
        res == json_view(*value).as_u64(),
{
    value.as_u64()
}

/// `serde_json::Value::Bool`: a value that is the given boolean.
#[verifier::external_body]
pub(crate) fn bool_value(b: bool) -> (res: serde_json::Value)
    ensures
        json_view(res) == Json::Bool(b),
{
    serde_json::Value::Bool(b)
}

/// `serde_json::Value::Number` of `serde_json::Number::from(u64)`: a value that is the given
/// integer.
#[verifier::external_body]
pub(crate) fn integer_value(n: u64) -> (res: serde_json::Value)
    ensures
        json_view(res) == Json::Integer(n as int),
{
    serde_json::Value::Number(n.into())
}

/// `serde_json::Value::Object`: a value that is an object with the members of the given one.
#[verifier::external_body]
pub(crate) fn object_value(object: serde_json::Map<String, serde_json::Value>) -> (res:
    serde_json::Value)
    ensures
        json_view(res) == Json::Object(object_view(object)),
{
    serde_json::Value::Object(object)
}

/// `serde_json::Map::new`: an object without members.
#[verifier::external_body]
pub(crate) fn empty_object() -> (res: serde_json::Map<String, serde_json::Value>)
    ensures
        object_view(res) == (Map::<Seq<char>, Json>::empty()),
{
    serde_json::Map::new()
}

/// `serde_json::Map::insert`: gives the member of that name the given value, whether or not the
/// object had one before, and leaves the other members as they were. The value that was replaced
/// is dropped.
#[verifier::external_body]
pub(crate) fn insert_member(
    object: &mut serde_json::Map<String, serde_json::Value>,
    name: String,
    value: serde_json::Value,
)
    ensures
        object_view(*final(object)) == object_view(*old(object)).insert(name@, json_view(value)),
{
    object.insert(name, value);
}

} // verus!
