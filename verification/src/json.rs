//! Trusted declarations around `serde_json`.  Values of the store are
//! JSON documents, opaque to the engine beyond identity and serialization;
//! this module names what the `serde_json` calls return and wraps the calls
//! the store's logic makes.

use vstd::prelude::*;

use crate::dict::{keys_distinct, map_of};

verus! {

#[verifier::external_type_specification]
#[verifier::external_body]
pub struct ExValue(serde_json::Value);

#[verifier::external_type_specification]
#[verifier::external_body]
#[verifier::reject_recursive_types(K)]
#[verifier::reject_recursive_types(V)]
pub struct ExJsonMap<K, V>(serde_json::Map<K, V>);

/// The compact JSON text of a value, as `serde_json::to_string` renders it.
pub uninterp spec fn json_text(v: serde_json::Value) -> Seq<char>;

/// The value that `serde_json::from_str` reads from a text, if any.
pub uninterp spec fn json_parse(s: Seq<char>) -> Option<serde_json::Value>;

/// The pretty-printed JSON bytes of a value, as `serde_json::to_vec_pretty`
/// renders them.
pub uninterp spec fn json_pretty_bytes(v: serde_json::Value) -> Seq<u8>;

/// The value that `serde_json::from_slice` reads from bytes, if any.
pub uninterp spec fn json_parse_bytes(b: Seq<u8>) -> Option<serde_json::Value>;

/// The characters of a value, if it is a JSON string.
pub uninterp spec fn str_content(v: serde_json::Value) -> Option<Seq<char>>;

/// The member map of a value, if it is a JSON object.
pub uninterp spec fn object_content(v: serde_json::Value) -> Option<
    serde_json::Map<String, serde_json::Value>,
>;

/// What a `serde_json::Map` holds, keyed by the characters of its keys.
pub uninterp spec fn obj_entries(m: serde_json::Map<String, serde_json::Value>) -> Map<
    Seq<char>,
    serde_json::Value,
>;

/// The text that `serde_json::to_string` gives to a list of strings.
pub uninterp spec fn json_text_of_list(elems: Seq<Seq<char>>) -> Seq<char>;

/// The list of strings that `serde_json::from_str` reads from a text, if any.
pub uninterp spec fn string_list_of(s: Seq<char>) -> Option<Seq<Seq<char>>>;

/// Relies on `serde_json::Value`'s `Clone`: a deep copy equal to the
/// original.
#[verifier::external_body]
pub fn clone_value(v: &serde_json::Value) -> (r: serde_json::Value)
    ensures
        r == *v,
{
    v.clone()
}

/// Relies on `serde_json::Value::String` and `Value::as_str`: a string
/// value holds exactly the given characters, and is not an object.
#[verifier::external_body]
pub fn string_value(s: String) -> (r: serde_json::Value)
    ensures
        str_content(r) == Some(s@),
        object_content(r) is None,
{
    serde_json::Value::String(s)
}

/// Relies on `serde_json::Value::as_str`: the characters of a string value.
#[verifier::external_body]
pub fn value_str<'a>(v: &'a serde_json::Value) -> (r: Option<&'a str>)
    ensures
        match r {
            Some(s) => str_content(*v) == Some(s@),
            None => str_content(*v) is None,
        },
{
    v.as_str()
}

/// Relies on `serde_json::Map::new`: a new map is empty.
#[verifier::external_body]
pub fn obj_new() -> (r: serde_json::Map<String, serde_json::Value>)
    ensures
        forall|k: Seq<char>| !obj_entries(r).contains_key(k),
{
    serde_json::Map::new()
}

/// Relies on `serde_json::Map::insert`: the entry is added, other entries
/// are kept.
#[verifier::external_body]
pub fn obj_insert(
    m: &mut serde_json::Map<String, serde_json::Value>,
    k: String,
    v: serde_json::Value,
)
    ensures
        obj_entries(*final(m)) == obj_entries(*old(m)).insert(k@, v),
{
    m.insert(k, v);
}

/// Relies on `serde_json::Value::Object` and `Value::as_object`: an object
/// value holds exactly the given member map, and is not a string.
#[verifier::external_body]
pub fn obj_value(m: serde_json::Map<String, serde_json::Value>) -> (r: serde_json::Value)
    ensures
        object_content(r) == Some(m),
        str_content(r) is None,
{
    serde_json::Value::Object(m)
}

/// Relies on `serde_json::Value::as_object`: the member map of an object
/// value.
#[verifier::external_body]
pub fn value_object<'a>(v: &'a serde_json::Value) -> (r: Option<
    &'a serde_json::Map<String, serde_json::Value>,
>)
    ensures
        match r {
            Some(m) => object_content(*v) == Some(*m),
            None => object_content(*v) is None,
        },
{
    v.as_object()
}

/// Relies on `serde_json::Map::get`: the value at the key, if present.
#[verifier::external_body]
pub fn obj_get<'a>(m: &'a serde_json::Map<String, serde_json::Value>, key: &str) -> (r: Option<
    &'a serde_json::Value,
>)
    ensures
        match r {
            Some(v) => obj_entries(*m).contains_key(key@) && *v == obj_entries(*m)[key@],
            None => !obj_entries(*m).contains_key(key@),
        },
{
    m.get(key)
}

/// Relies on `serde_json::Map::iter` and the `Clone` of keys and values:
/// the pairs list every entry once, in the map's iteration order.
#[verifier::external_body]
pub fn obj_pairs(m: &serde_json::Map<String, serde_json::Value>) -> (r: Vec<
    (String, serde_json::Value),
>)
    ensures
        keys_distinct(r@),
        map_of(r@) == obj_entries(*m),
{
    m.iter().map(|(k, v)| (k.clone(), v.clone())).collect()
}

/// Relies on `serde_json::to_string`: serializing a `Value` succeeds (its
/// map keys are strings and its numbers finite), the text is the compact
/// rendering, and when `serde_json::from_str` can read that text back (the
/// deserializer enforces a recursion limit the serializer does not), it
/// reads an equal value.
#[verifier::external_body]
pub fn to_json_text(v: &serde_json::Value) -> (r: Option<String>)
    ensures
        r is Some,
        match r {
            Some(s) => s@ == json_text(*v) && (json_parse(s@) is Some ==> json_parse(s@) == Some(
                *v,
            )),
            None => false,
        },
{
    serde_json::to_string(v).ok()
}

/// Relies on `serde_json::from_str::<Value>`: the value read from a text;
/// `None` exactly on malformed input.
#[verifier::external_body]
pub fn parse_json_text(s: &str) -> (r: Option<serde_json::Value>)
    ensures
        match r {
            Some(v) => json_parse(s@) == Some(v),
            None => json_parse(s@) is None,
        },
{
    serde_json::from_str(s).ok()
}

/// Relies on `serde_json::to_vec_pretty`: serializing a `Value` succeeds,
/// the bytes are the pretty rendering, and when `serde_json::from_slice`
/// can read them back (the deserializer enforces a recursion limit the
/// serializer does not), it reads an equal value.
#[verifier::external_body]
pub fn to_json_pretty(v: &serde_json::Value) -> (r: Option<Vec<u8>>)
    ensures
        r is Some,
        match r {
            Some(b) => b@ == json_pretty_bytes(*v) && (json_parse_bytes(b@) is Some
                ==> json_parse_bytes(b@) == Some(*v)),
            None => false,
        },
{
    serde_json::to_vec_pretty(v).ok()
}

/// Relies on `serde_json::from_slice::<Value>`: the value read from bytes;
/// `None` exactly on malformed input.
#[verifier::external_body]
pub fn parse_json_bytes(b: &[u8]) -> (r: Option<serde_json::Value>)
    ensures
        match r {
            Some(v) => json_parse_bytes(b@) == Some(v),
            None => json_parse_bytes(b@) is None,
        },
{
    serde_json::from_slice(b).ok()
}

/// Relies on `serde_json::to_string` on a `Vec<String>`: serializing a
/// list of strings succeeds and gives the rendered JSON array, which
/// `serde_json::from_str` reads back as the same list (a flat array is far
/// inside the deserializer's recursion limit).
#[verifier::external_body]
pub fn string_list_text(v: &Vec<String>) -> (r: Option<String>)
    ensures
        r is Some,
        match r {
            Some(s) => s@ == json_text_of_list(v@.map_values(|x: String| x@)) && string_list_of(s@)
                == Some(v@.map_values(|x: String| x@)),
            None => false,
        },
{
    serde_json::to_string(v).ok()
}

/// Relies on `serde_json::from_str::<Vec<String>>`: the list of strings read
/// from a JSON array text; `None` exactly on input of another shape.
#[verifier::external_body]
pub fn parse_string_list(s: &str) -> (r: Option<Vec<String>>)
    ensures
        match r {
            Some(v) => string_list_of(s@) == Some(v@.map_values(|x: String| x@)),
            None => string_list_of(s@) is None,
        },
{
    serde_json::from_str(s).ok()
}

/// The member map of an object value, keyed by member-name characters.
pub open spec fn obj_view(v: serde_json::Value) -> Option<Map<Seq<char>, serde_json::Value>> {
    match object_content(v) {
        Some(m) => Some(obj_entries(m)),
        None => None,
    }
}

/// The two-level member map of an object value whose members are all
/// objects themselves.
pub open spec fn obj2_view(v: serde_json::Value) -> Option<
    Map<Seq<char>, Map<Seq<char>, serde_json::Value>>,
> {
    match object_content(v) {
        None => None,
        Some(m) => {
            let e = obj_entries(m);
            if forall|k: Seq<char>| e.contains_key(k) ==> obj_view(#[trigger] e[k]) is Some {
                Some(e.map_values(|x: serde_json::Value| obj_view(x).unwrap()))
            } else {
                None
            }
        },
    }
}

} // verus!
