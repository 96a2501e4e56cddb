use rand::rngs::ThreadRng;
use rand::Rng;
use serde_json::Value;
use vstd::prelude::*;

verus! {

/// What a JSON value holds. A number stands without its digits: this library
/// builds none.
pub enum JsonModel {
    Null,
    Bool(bool),
    Number,
    Text(Seq<char>),
    List(Seq<JsonModel>),
    Fields(Map<Seq<char>, JsonModel>),
}

/// `serde_json::Value`, a JSON value.
#[verifier::external_type_specification]
#[verifier::external_body]
pub struct ExValue(Value);

/// `serde_json::Map`, the map from keys to values that a JSON object holds.
#[verifier::external_type_specification]
#[verifier::external_body]
#[verifier::reject_recursive_types(K)]
#[verifier::reject_recursive_types(V)]
pub struct ExJsonMap<K, V>(serde_json::Map<K, V>);

/// `rand::rngs::ThreadRng`, the random number generator of a thread.
#[verifier::external_type_specification]
#[verifier::external_body]
pub struct ExThreadRng(ThreadRng);

/// What a JSON value holds.
pub uninterp spec fn json_model(value: Value) -> JsonModel;

/// The value that a JSON map holds under each of its keys.
pub uninterp spec fn json_fields(map: serde_json::Map<String, Value>) -> Map<Seq<char>, JsonModel>;

/// The fields of an empty JSON object.
pub open spec fn no_fields() -> Map<Seq<char>, JsonModel> {
    Map::empty()
}

/// What each of some JSON values holds.
pub open spec fn json_models(values: Seq<Value>) -> Seq<JsonModel> {
    values.map_values(|v: Value| json_model(v))
}

/// `Value::String`: the JSON string with the given text.
#[verifier::external_body]
pub(crate) fn json_text(text: String) -> (res: Value)
    ensures
        json_model(res) == JsonModel::Text(text@),
{
    Value::String(text)
}

/// `Value::Array`: the JSON array with the given items in their order.
#[verifier::external_body]
pub(crate) fn json_list(items: Vec<Value>) -> (res: Value)
    ensures
        json_model(res) == JsonModel::List(json_models(items@)),
{
    Value::Array(items)
}

/// `serde_json::Map::new`: an empty map.
#[verifier::external_body]
pub(crate) fn json_fields_new() -> (res: serde_json::Map<String, Value>)
    ensures
        json_fields(res) == no_fields(),
{
    serde_json::Map::new()
}

/// `serde_json::Map::insert`: puts the value under the key; a value that
/// stood under that key before is replaced.
#[verifier::external_body]
pub(crate) fn json_fields_insert(
    map: &mut serde_json::Map<String, Value>,
    key: String,
    value: Value,
)
    ensures
        json_fields(*final(map)) == json_fields(*old(map)).insert(key@, json_model(value)),
{
    map.insert(key, value);
}

/// `Value::Object`: the JSON object with the fields of the given map.
#[verifier::external_body]
pub(crate) fn json_object(map: serde_json::Map<String, Value>) -> (res: Value)
    ensures
        json_model(res) == JsonModel::Fields(json_fields(map)),
{
    Value::Object(map)
}

/// `Rng::gen` for `bool`: a random boolean. Nothing is known of it.
#[verifier::external_body]
pub(crate) fn coin(rng: &mut ThreadRng) -> (res: bool) {
    rng.gen()
}

} // verus!
