//! JSON values, built with `serde_json`.

#[allow(unused_imports)]
use crate::text::decimal;
use vstd::prelude::*;

verus! {

/// `serde_json::Value`.
#[verifier::external_type_specification]
#[verifier::external_body]
pub struct ExValue(serde_json::Value);

/// `serde_json::Map`.
#[verifier::external_type_specification]
#[verifier::external_body]
#[verifier::reject_recursive_types(K)]
#[verifier::reject_recursive_types(V)]
pub struct ExObject<K, V>(serde_json::Map<K, V>);

/// What a JSON value says. A number is the text it is written as.
pub enum Json {
    Null,
    Bool(bool),
    Number(Seq<char>),
    Text(Seq<char>),
    Array(Seq<Json>),
    Object(Map<Seq<char>, Json>),
}

/// What a `serde_json::Value` holds.
pub uninterp spec fn json_of(value: serde_json::Value) -> Json;

/// What a `serde_json::Map` holds, by key.
pub uninterp spec fn fields_of(object: serde_json::Map<String, serde_json::Value>) -> Map<
    Seq<char>,
    Json,
>;

/// What `serde_json::to_string_pretty` writes for a value. The fields of an object are written in
/// the order of their keys, so the text depends on nothing but what the value says.
pub uninterp spec fn pretty(value: Json) -> Seq<char>;

/// What each of a sequence of values says.
pub open spec fn jsons_of(values: Seq<serde_json::Value>) -> Seq<Json> {
    Seq::new(values.len(), |i: int| json_of(values[i]))
}

/// The JSON number that a natural number is written as.
pub open spec fn number(n: nat) -> Json {
    Json::Number(decimal(n))
}

/// No fields at all.
pub open spec fn no_fields() -> Map<Seq<char>, Json> {
    Map::empty()
}

/// The value `serde_json::Value::Null`.
#[verifier::external_body]
pub(crate) fn null_value() -> (value: serde_json::Value)
    ensures
        json_of(value) == Json::Null,
{
    serde_json::Value::Null
}

/// `serde_json::Value::String`: the string with that text.
#[verifier::external_body]
pub(crate) fn text_value(text: String) -> (value: serde_json::Value)
    ensures
        json_of(value) == Json::Text(text@),
{
    serde_json::Value::String(text)
}

/// `serde_json::Value::from` on a `u64`: the number, which is written in decimal.
#[verifier::external_body]
pub(crate) fn number_value(n: u64) -> (value: serde_json::Value)
    ensures
        json_of(value) == number(n as nat),
{
    serde_json::Value::from(n)
}

/// `serde_json::Value::Array`: the array of those values, in that order.
#[verifier::external_body]
pub(crate) fn array_value(values: Vec<serde_json::Value>) -> (value: serde_json::Value)
    ensures
        json_of(value) == Json::Array(jsons_of(values@)),
{
    serde_json::Value::Array(values)
}

/// `serde_json::Map::new`: the object with no field.
#[verifier::external_body]
pub(crate) fn new_object() -> (object: serde_json::Map<String, serde_json::Value>)
    ensures
        fields_of(object) == no_fields(),
{
    serde_json::Map::new()
}

/// `serde_json::Map::insert`: gives the field a value, in place of the one it had.
#[verifier::external_body]
pub(crate) fn set_field(
    object: &mut serde_json::Map<String, serde_json::Value>,
    key: String,
    value: serde_json::Value,
)
    ensures
        fields_of(*final(object)) == fields_of(*old(object)).insert(key@, json_of(value)),
{
    object.insert(key, value);
}

/// `serde_json::Value::Object`: the object with those fields.
#[verifier::external_body]
pub(crate) fn object_value(
    object: serde_json::Map<String, serde_json::Value>,
) -> (value: serde_json::Value)
    ensures
        json_of(value) == Json::Object(fields_of(object)),
{
    serde_json::Value::Object(object)
}

/// `serde_json::to_string_pretty` on a `Value`, which has no key but strings and so is always
/// written.
#[verifier::external_body]
pub(crate) fn pretty_text(value: &serde_json::Value) -> (text: String)
    ensures
        text@ == pretty(json_of(*value)),
{
    serde_json::to_string_pretty(value).unwrap()
}

/// The object with one field.
pub(crate) fn single_field(key: String, value: serde_json::Value) -> (object: serde_json::Value)
    ensures
        json_of(object) == Json::Object(no_fields().insert(key@, json_of(value))),
{
    let mut fields = new_object();
    set_field(&mut fields, key, value);
    object_value(fields)
}

/// An array of numbers.
pub(crate) fn numbers_value(numbers: &Vec<u64>) -> (value: serde_json::Value)
    ensures
        json_of(value) == Json::Array(numbers@.map_values(|n: u64| number(n as nat))),
{
    let mut values: Vec<serde_json::Value> = Vec::new();
    for i in 0..numbers.len()
        invariant
            values.len() == i,
            forall|k: int| 0 <= k < i ==> json_of(#[trigger] values[k]) == number(numbers[k] as nat),
    {
        values.push(number_value(numbers[i]));
    }
    assert(jsons_of(values@) =~= numbers@.map_values(|n: u64| number(n as nat)));
    array_value(values)
}

/// Values are seen each as what it says, every one and in order, and a number as its decimal text.
pub proof fn law_values_are_seen(values: Seq<serde_json::Value>, i: int, n: nat)
    requires
        0 <= i < values.len(),
    ensures
        jsons_of(values).len() == values.len(),
        jsons_of(values)[i] == json_of(values[i]),
        number(n) == Json::Number(decimal(n)),
        no_fields().dom() =~= Set::<Seq<char>>::empty(),
{
}

} // verus!
