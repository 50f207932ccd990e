//! JSON values, which this library carries and builds but never reads.
//!
//! `serde_json::Value` is opaque to the verifier. What a value holds is
//! named by `json_shape`, and each function below states, on trust, what
//! the call it makes does to that shape.

use vstd::prelude::*;

verus! {

#[verifier::external_type_specification]
#[verifier::external_body]
pub struct ExJsonValue(serde_json::Value);

#[verifier::external_type_specification]
#[verifier::external_body]
#[verifier::reject_recursive_types(K)]
#[verifier::reject_recursive_types(V)]
pub struct ExJsonMap<K, V>(serde_json::Map<K, V>);

/// What a JSON value holds.
pub enum JsonShape {
    Null,
    Bool(bool),
    /// A number, as the text that `serde_json` writes for it.
    Number(Seq<char>),
    String(Seq<char>),
    Array(Seq<JsonShape>),
    Object(Map<Seq<char>, JsonShape>),
}

/// What `value` holds.
pub uninterp spec fn json_shape(value: serde_json::Value) -> JsonShape;

/// The members of a JSON object, each name with the shape of its value.
pub uninterp spec fn json_members(object: serde_json::Map<String, serde_json::Value>) -> Map<
    Seq<char>,
    JsonShape,
>;

/// No members.
pub open spec fn no_members() -> Map<Seq<char>, JsonShape> {
    Map::empty()
}

/// The compact text of a value of the given shape, as `Value`'s `Display`
/// writes it: no white space, the members of an object in the order of
/// their names.
pub uninterp spec fn json_text(shape: JsonShape) -> Seq<char>;

/// What `serde_json::to_string` makes of a list of values of the given
/// shapes: their compact text as one array, or nothing where it fails.
pub uninterp spec fn json_list_text(shapes: Seq<JsonShape>) -> Option<Seq<char>>;

/// The shapes of a run of values, in order.
pub open spec fn json_shapes(values: Seq<serde_json::Value>) -> Seq<JsonShape> {
    values.map_values(|v: serde_json::Value| json_shape(v))
}

/// `Value::clone`: a value of the same shape.
pub assume_specification[ <serde_json::Value as Clone>::clone ](
    value: &serde_json::Value,
) -> (copy: serde_json::Value)
    ensures
        json_shape(copy) == json_shape(*value),
;

/// `Value::from(bool)`: the JSON `true` or `false`.
#[verifier::external_body]
pub(crate) fn json_bool(b: bool) -> (value: serde_json::Value)
    ensures
        json_shape(value) == JsonShape::Bool(b),
{
    serde_json::Value::from(b)
}

/// `Value::from(&str)`: the JSON string that holds `s`.
#[verifier::external_body]
pub(crate) fn json_string(s: &str) -> (value: serde_json::Value)
    ensures
        json_shape(value) == JsonShape::String(s@),
{
    serde_json::Value::from(s)
}

/// `Value::from(Vec<Value>)`: the JSON array of `items`, in their order.
#[verifier::external_body]
pub(crate) fn json_array(items: Vec<serde_json::Value>) -> (value: serde_json::Value)
    ensures
        json_shape(value) == JsonShape::Array(json_shapes(items@)),
{
    serde_json::Value::from(items)
}

/// `Map::new`: the object without members.
#[verifier::external_body]
fn json_map_new() -> (fresh: serde_json::Map<String, serde_json::Value>)
    ensures
        json_members(fresh) == no_members(),
{
    serde_json::Map::new()
}

/// `Map::insert`: the object has the member `name` with `member`, in place
/// of any member of that name; its other members stay.
#[verifier::external_body]
fn json_map_insert(
    object: &mut serde_json::Map<String, serde_json::Value>,
    name: &str,
    member: serde_json::Value,
)
    ensures
        json_members(*final(object)) == json_members(*old(object)).insert(
            name@,
            json_shape(member),
        ),
{
    object.insert(name.to_string(), member);
}

/// `Value::from(Map)`: the JSON object with the members of `object`.
#[verifier::external_body]
fn json_object(object: serde_json::Map<String, serde_json::Value>) -> (value: serde_json::Value)
    ensures
        json_shape(value) == JsonShape::Object(json_members(object)),
{
    serde_json::Value::from(object)
}

/// The JSON object whose one member is `name` with `member`.
pub fn json_member(name: &str, member: serde_json::Value) -> (value: serde_json::Value)
    ensures
        json_shape(value) == JsonShape::Object(Map::empty().insert(name@, json_shape(member))),
{
    let mut object = json_map_new();
    json_map_insert(&mut object, name, member);
    json_object(object)
}

/// `Value`'s `Display`, through `to_string`: the compact text of `value`.
#[verifier::external_body]
pub(crate) fn json_to_text(value: &serde_json::Value) -> (text: String)
    ensures
        text@ == json_text(json_shape(*value)),
{
    value.to_string()
}

/// `serde_json::to_string` on a list of values.
#[verifier::external_body]
pub(crate) fn json_list_to_text(values: &Vec<serde_json::Value>) -> (text: Option<String>)
    ensures
        text.deep_view() == json_list_text(json_shapes(values@)),
{
    serde_json::to_string(values).ok()
}

} // verus!
