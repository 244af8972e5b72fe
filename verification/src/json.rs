use vstd::prelude::*;

verus! {

/// The view of an optional owned string.
pub open spec fn view_opt(o: Option<String>) -> Option<Seq<char>> {
    match o {
        Some(s) => Some(s@),
        None => None,
    }
}

/// The text of the string under `key` in the JSON document `text`, or
/// nothing when the document does not parse, is not an object, lacks the
/// key, or holds a non-string there. Parsing is deterministic, so this is
/// a function of the two texts alone.
pub uninterp spec fn json_text_field(text: Seq<char>, key: Seq<char>) -> Option<Seq<char>>;

/// The length of the array under `key` in the JSON document `text`, under
/// the same conditions.
pub uninterp spec fn json_list_len(text: Seq<char>, key: Seq<char>) -> Option<usize>;

/// The text of the `i`-th element of the array under `key` in the JSON
/// document `text`, or nothing when there is no such element or it is not
/// a string.
pub uninterp spec fn json_list_item(text: Seq<char>, key: Seq<char>, i: usize) -> Option<Seq<char>>;

/// Relies on serde_json::from_str::<Value>, Value::get and Value::as_str:
/// parsing is deterministic and the lookup reads the document alone, so
/// the result is a function of the document and the key.
#[verifier::external_body]
pub fn json_text_field_of(text: &str, key: &str) -> (r: Option<String>)
    ensures
        view_opt(r) == json_text_field(text@, key@),
{
    let v: serde_json::Value = match serde_json::from_str(text) {
        Ok(v) => v,
        Err(_) => return None,
    };
    let f = match v.get(key) { Some(f) => f, None => return None };
    match f.as_str() {
        Some(s) => Some(s.to_owned()),
        None => None,
    }
}

/// Relies on serde_json::from_str::<Value>, Value::get and Value::as_array:
/// deterministic as above.
#[verifier::external_body]
pub fn json_list_len_of(text: &str, key: &str) -> (r: Option<usize>)
    ensures
        r == json_list_len(text@, key@),
{
    let v: serde_json::Value = match serde_json::from_str(text) {
        Ok(v) => v,
        Err(_) => return None,
    };
    let f = match v.get(key) { Some(f) => f, None => return None };
    match f.as_array() {
        Some(a) => Some(a.len()),
        None => None,
    }
}

/// Relies on serde_json::from_str::<Value>, Value::get, Value::as_array,
/// slice indexing and Value::as_str: deterministic as above.
#[verifier::external_body]
pub fn json_list_item_of(text: &str, key: &str, i: usize) -> (r: Option<String>)
    ensures
        view_opt(r) == json_list_item(text@, key@, i),
{
    let v: serde_json::Value = match serde_json::from_str(text) {
        Ok(v) => v,
        Err(_) => return None,
    };
    let f = match v.get(key) { Some(f) => f, None => return None };
    let a = match f.as_array() { Some(a) => a, None => return None };
    let e = match a.get(i) { Some(e) => e, None => return None };
    match e.as_str() {
        Some(s) => Some(s.to_owned()),
        None => None,
    }
}

} // verus!
