//! JSON objects that carry an event's structured data.
//!
//! The objects are `serde_json` maps. Verus does not look inside them: the
//! functions here say what each call does to the entries of a map, and those
//! statements are taken on trust.

use vstd::prelude::*;

verus! {

#[verifier::external_type_specification]
#[verifier::external_body]
pub struct ExJsonValue(serde_json::Value);

#[verifier::external_type_specification]
#[verifier::external_body]
pub struct ExJsonNumber(serde_json::Number);

#[verifier::external_type_specification]
#[verifier::external_body]
#[verifier::reject_recursive_types(K)]
#[verifier::reject_recursive_types(V)]
pub struct ExJsonMap<K, V>(serde_json::Map<K, V>);

/// What an entry of an event's data holds.
pub enum Scalar {
    /// A whole number.
    Integer(int),
    /// A decimal number: a JSON number that holds a float, as it was handed
    /// in.
    Decimal(serde_json::Number),
    /// A text.
    Text(Seq<char>),
}

/// The entries of a data mapping, by key.
pub type Entries = Map<Seq<char>, Scalar>;

/// The entries of a JSON object whose values are scalars, by key.
pub uninterp spec fn object_entries(object: serde_json::Map<String, serde_json::Value>) -> Entries;

/// Whether a JSON number holds a float, and not an integer.
pub uninterp spec fn number_is_float(number: serde_json::Number) -> bool;

/// The mapping without entries.
pub open spec fn no_entries() -> Entries {
    Map::empty()
}

/// `serde_json::Map::new`: the object it makes has no entries.
#[verifier::external_body]
pub(crate) fn object_new() -> (object: serde_json::Map<String, serde_json::Value>)
    ensures
        object_entries(object) == no_entries(),
{
    serde_json::Map::new()
}

/// `serde_json::Map::insert` of an integer, made a JSON value by
/// `serde_json::Value::from`: afterwards the key holds that integer, whatever
/// it held before, and the other entries are as they were.
#[verifier::external_body]
pub(crate) fn object_put_integer(
    object: &mut serde_json::Map<String, serde_json::Value>,
    key: &str,
    value: i32,
)
    ensures
        object_entries(*final(object)) == object_entries(*old(object)).insert(
            key@,
            Scalar::Integer(value as int),
        ),
{
    object.insert(key.to_owned(), serde_json::Value::from(value));
}

/// `serde_json::Number::is_f64`: whether the number holds a float.
#[verifier::external_body]
pub(crate) fn is_float_number(number: &serde_json::Number) -> (b: bool)
    ensures
        b == number_is_float(*number),
{
    number.is_f64()
}

/// `serde_json::Map::insert` of a JSON number that holds a float, made a JSON
/// value by `serde_json::Value::from`: afterwards the key holds that number,
/// whatever it held before, and the other entries are as they were. A number
/// that holds an integer is left out: in the object it could not be told from
/// an integer entry.
#[verifier::external_body]
pub(crate) fn object_put_decimal(
    object: &mut serde_json::Map<String, serde_json::Value>,
    key: &str,
    value: serde_json::Number,
)
    requires
        number_is_float(value),
    ensures
        object_entries(*final(object)) == object_entries(*old(object)).insert(
            key@,
            Scalar::Decimal(value),
        ),
{
    object.insert(key.to_owned(), serde_json::Value::from(value));
}

/// `serde_json::Map::insert` of a text, made a JSON value by
/// `serde_json::Value::from`: afterwards the key holds that text, whatever it
/// held before, and the other entries are as they were.
#[verifier::external_body]
pub(crate) fn object_put_text(
    object: &mut serde_json::Map<String, serde_json::Value>,
    key: &str,
    value: String,
)
    ensures
        object_entries(*final(object)) == object_entries(*old(object)).insert(
            key@,
            Scalar::Text(value@),
        ),
{
    object.insert(key.to_owned(), serde_json::Value::from(value));
}

} // verus!
