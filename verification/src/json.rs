//! JSON values, which `serde_json` provides.

use vstd::prelude::*;

verus! {

#[verifier::external_type_specification]
#[verifier::external_body]
#[verifier::reject_recursive_types(K)]
#[verifier::reject_recursive_types(V)]
pub struct ExJsonMap<K, V>(serde_json::Map<K, V>);

#[verifier::external_type_specification]
#[verifier::external_body]
pub struct ExJsonValue(serde_json::Value);

/// A JSON value.
#[verifier::ext_equal]
pub enum JsonModel {
    Number(nat),
    Text(Seq<char>),
    Object(Map<Seq<char>, JsonModel>),
    /// Any other value, by its JSON text.
    Other(Seq<char>),
}

/// The members of an empty object.
pub open spec fn no_members() -> Map<Seq<char>, JsonModel> {
    Map::empty()
}

/// The members of a JSON object.
pub uninterp spec fn members(object: serde_json::Map<String, serde_json::Value>) -> Map<
    Seq<char>,
    JsonModel,
>;

/// The compact JSON text of an object with the given members.
pub uninterp spec fn object_text(members: Map<Seq<char>, JsonModel>) -> Seq<char>;

/// The members of a JSON value that are booleans; a value that is no object has none.
pub uninterp spec fn bool_members(value: serde_json::Value) -> Map<Seq<char>, bool>;

/// The members of a JSON value that are unsigned 64-bit integers; a value that is no object has
/// none. A number with a fraction or an exponent is no integer, even where its value is whole.
pub uninterp spec fn number_members(value: serde_json::Value) -> Map<Seq<char>, u64>;

/// Calls `serde_json::Map::new`. The object has no members.
#[verifier::external_body]
pub(crate) fn new_object() -> (object: serde_json::Map<String, serde_json::Value>)
    ensures
        members(object) == no_members(),
{
    serde_json::Map::new()
}

/// Calls `serde_json::Map::insert` with a number. The member replaces one of the same name.
#[verifier::external_body]
pub(crate) fn insert_number(
    object: &mut serde_json::Map<String, serde_json::Value>,
    name: &str,
    value: u64,
)
    ensures
        members(*final(object)) == members(*old(object)).insert(
            name@,
            JsonModel::Number(value as nat),
        ),
{
    object.insert(name.to_owned(), serde_json::Value::from(value));
}

/// Calls `serde_json::Map::insert` with a text. The member replaces one of the same name.
#[verifier::external_body]
pub(crate) fn insert_text(
    object: &mut serde_json::Map<String, serde_json::Value>,
    name: &str,
    value: &str,
)
    ensures
        members(*final(object)) == members(*old(object)).insert(name@, JsonModel::Text(value@)),
{
    object.insert(name.to_owned(), serde_json::Value::from(value));
}

/// Calls `serde_json::Map::insert` with an object. The member replaces one of the same name.
#[verifier::external_body]
pub(crate) fn insert_object(
    object: &mut serde_json::Map<String, serde_json::Value>,
    name: &str,
    value: serde_json::Map<String, serde_json::Value>,
)
    ensures
        members(*final(object)) == members(*old(object)).insert(
            name@,
            JsonModel::Object(members(value)),
        ),
{
    object.insert(name.to_owned(), serde_json::Value::from(value));
}

/// Calls `serde_json::to_string`. The text of an object always exists, and depends on its members
/// alone: their order is that of their names.
#[verifier::external_body]
pub(crate) fn encode_object(object: &serde_json::Map<String, serde_json::Value>) -> (text: Option<
    String,
>)
    ensures
        text matches Some(text) && text@ == object_text(members(*object)),
{
    serde_json::to_string(object).ok()
}

/// Calls `serde_json::Value::get` and `serde_json::Value::as_bool`. The result is the boolean
/// member of the given name, if there is one.
#[verifier::external_body]
pub(crate) fn bool_member(value: &serde_json::Value, name: &str) -> (member: Option<bool>)
    ensures
        member == if bool_members(*value).contains_key(name@) {
            Some(bool_members(*value)[name@])
        } else {
            None::<bool>
        },
{
    value.get(name).and_then(serde_json::Value::as_bool)
}

/// Calls `serde_json::Value::get` and `serde_json::Value::as_u64`. The result is the member of the
/// given name that is an unsigned 64-bit integer, if there is one.
#[verifier::external_body]
pub(crate) fn number_member(value: &serde_json::Value, name: &str) -> (member: Option<u64>)
    ensures
        member == if number_members(*value).contains_key(name@) {
            Some(number_members(*value)[name@])
        } else {
            None::<u64>
        },
{
    value.get(name).and_then(serde_json::Value::as_u64)
}

} // verus!
