use vstd::prelude::*;

verus! {

/// Declares serde_json's number type, used to carry non-integer numbers unchanged.
#[verifier::external_type_specification]
#[verifier::external_body]
pub struct ExNumber(serde_json::Number);

/// Relies on the derived `Clone` of serde_json's `Number`: a copy of the same value.
pub assume_specification[ <serde_json::Number as Clone>::clone ](n: &serde_json::Number) -> (r: serde_json::Number)
    ensures
        r == *n,
;

/// A JSON document as a plain tree. Object members keep the order in which the
/// parser produced them; integers that fit in an `i64` are held as `Int`, every
/// other number as `Num`.
pub enum JsonValue {
    Null,
    Bool(bool),
    Int(i64),
    Num(serde_json::Number),
    Str(String),
    Array(Vec<JsonValue>),
    Object(Vec<(String, JsonValue)>),
}

/// What serde_json makes of the bytes `b`: the tree of the JSON document they hold, or
/// the text of its error where they hold none.
pub uninterp spec fn json_of_bytes(b: Seq<u8>) -> Result<JsonValue, String>;

/// The bytes that serde_json writes for the tree `j`.
pub uninterp spec fn bytes_of_json(j: JsonValue) -> Seq<u8>;

/// Relies on serde_json::from_slice: parses `b` as one JSON document into
/// `serde_json::Value`; the error's message is kept as text.
#[verifier::external_body]
pub(crate) fn parse_json(b: &[u8]) -> (r: Result<JsonValue, String>)
    ensures
        r == json_of_bytes(b@),
{
    match serde_json::from_slice::<serde_json::Value>(b) {
        Ok(v) => Ok(tree_of_value(v)),
        Err(e) => Err(e.to_string()),
    }
}

/// Relies on serde_json::to_vec: writes the tree, converted to `serde_json::Value`,
/// as compact JSON text. Writing a `Value` into a `Vec` fails only on a map key that
/// is not a string, which a `Value` cannot hold.
#[verifier::external_body]
pub(crate) fn render_json(j: &JsonValue) -> (r: Result<Vec<u8>, String>)
    ensures
        r is Ok,
        r matches Ok(b) ==> b@ == bytes_of_json(*j),
{
    match serde_json::to_vec(&value_of_tree(j)) {
        Ok(b) => Ok(b),
        Err(e) => Err(e.to_string()),
    }
}

/// Converts a `serde_json::Value` into the tree, variant for variant (used by
/// `parse_json`).
#[verifier::external_body]
fn tree_of_value(v: serde_json::Value) -> JsonValue {
    match v {
        serde_json::Value::Null => JsonValue::Null,
        serde_json::Value::Bool(b) => JsonValue::Bool(b),
        serde_json::Value::Number(n) => match n.as_i64() {
            Some(i) => JsonValue::Int(i),
            None => JsonValue::Num(n),
        },
        serde_json::Value::String(s) => JsonValue::Str(s),
        serde_json::Value::Array(a) => JsonValue::Array(a.into_iter().map(tree_of_value).collect()),
        serde_json::Value::Object(m) => JsonValue::Object(m.into_iter().map(|(k, x)| (k, tree_of_value(x))).collect()),
    }
}

/// Converts the tree into a `serde_json::Value`, variant for variant (used by
/// `render_json`).
#[verifier::external_body]
fn value_of_tree(j: &JsonValue) -> serde_json::Value {
    match j {
        JsonValue::Null => serde_json::Value::Null,
        JsonValue::Bool(b) => serde_json::Value::Bool(*b),
        JsonValue::Int(i) => serde_json::Value::Number((*i).into()),
        JsonValue::Num(n) => serde_json::Value::Number(n.clone()),
        JsonValue::Str(s) => serde_json::Value::String(s.clone()),
        JsonValue::Array(a) => serde_json::Value::Array(a.iter().map(value_of_tree).collect()),
        JsonValue::Object(m) => serde_json::Value::Object(m.iter().map(|(k, x)| (k.clone(), value_of_tree(x))).collect()),
    }
}

/// Declares serde_json's document type, which the two conversions above handle.
#[verifier::external_type_specification]
#[verifier::external_body]
pub struct ExValue(serde_json::Value);

/// The value of the first member named `key` among `entries`, starting at index `i`.
pub open spec fn member_from(entries: Seq<(String, JsonValue)>, key: Seq<char>, i: int) -> Option<JsonValue>
    decreases entries.len() - i,
{
    if i < 0 || i >= entries.len() {
        None
    } else if entries[i].0@ == key {
        Some(entries[i].1)
    } else {
        member_from(entries, key, i + 1)
    }
}

/// The value of member `key` of `j`: the first one of that name, if `j` is an object.
pub open spec fn member(j: JsonValue, key: Seq<char>) -> Option<JsonValue> {
    match j {
        JsonValue::Object(entries) => member_from(entries@, key, 0),
        _ => None,
    }
}

/// Finds member `key` of `j`.
pub fn get_member<'a>(j: &'a JsonValue, key: &str) -> (r: Option<&'a JsonValue>)
    ensures
        r is None <==> member(*j, key@) is None,
        r matches Some(v) ==> member(*j, key@) == Some(*v),
{
    match j {
        JsonValue::Object(entries) => {
            let k = key.to_owned();
            let mut i: usize = 0;
            while i < entries.len()
                invariant
                    i <= entries.len(),
                    k@ == key@,
                    member(*j, key@) == member_from(entries@, key@, 0),
                    member_from(entries@, key@, 0) == member_from(entries@, key@, i as int),
                decreases entries.len() - i,
            {
                if entries[i].0 == k {
                    assert(member_from(entries@, key@, i as int) == Some(entries@[i as int].1));
                    return Some(&entries[i].1);
                }
                i = i + 1;
            }
            None
        },
        _ => None,
    }
}

/// Member `key` of `j`, where it is an integer.
pub open spec fn int_at(j: JsonValue, key: Seq<char>) -> Option<i64> {
    match member(j, key) {
        Some(JsonValue::Int(n)) => Some(n),
        _ => None,
    }
}

/// Member `key` of `j`, where it is a boolean.
pub open spec fn bool_at(j: JsonValue, key: Seq<char>) -> Option<bool> {
    match member(j, key) {
        Some(JsonValue::Bool(b)) => Some(b),
        _ => None,
    }
}

/// Member `key` of `j`, where it is a string.
pub open spec fn str_at(j: JsonValue, key: Seq<char>) -> Option<String> {
    match member(j, key) {
        Some(JsonValue::Str(s)) => Some(s),
        _ => None,
    }
}

/// Member `key` of `j` as an optional string: absent or `null` gives `Some(None)`,
/// a string gives `Some(Some(..))`, anything else `None`.
pub open spec fn opt_str_at(j: JsonValue, key: Seq<char>) -> Option<Option<String>> {
    match member(j, key) {
        None => Some(None),
        Some(JsonValue::Null) => Some(None),
        Some(JsonValue::Str(s)) => Some(Some(s)),
        _ => None,
    }
}

/// The items of member `key` of `j`, where it is an array.
pub open spec fn array_at(j: JsonValue, key: Seq<char>) -> Option<Seq<JsonValue>> {
    match member(j, key) {
        Some(JsonValue::Array(items)) => Some(items@),
        _ => None,
    }
}

/// Reads the integer member `key`; the error names the key.
pub fn int_field(j: &JsonValue, key: &str) -> (r: Result<i64, String>)
    ensures
        r matches Ok(n) ==> int_at(*j, key@) == Some(n),
        r matches Err(e) ==> int_at(*j, key@) is None && e@ == key@,
{
    match get_member(j, key) {
        Some(JsonValue::Int(n)) => Ok(*n),
        _ => Err(key.to_owned()),
    }
}

/// Reads the boolean member `key`; the error names the key.
pub fn bool_field(j: &JsonValue, key: &str) -> (r: Result<bool, String>)
    ensures
        r matches Ok(b) ==> bool_at(*j, key@) == Some(b),
        r matches Err(e) ==> bool_at(*j, key@) is None && e@ == key@,
{
    match get_member(j, key) {
        Some(JsonValue::Bool(b)) => Ok(*b),
        _ => Err(key.to_owned()),
    }
}

/// Reads the string member `key`; the error names the key.
pub fn str_field(j: &JsonValue, key: &str) -> (r: Result<String, String>)
    ensures
        r matches Ok(s) ==> str_at(*j, key@) == Some(s),
        r matches Err(e) ==> str_at(*j, key@) is None && e@ == key@,
{
    match get_member(j, key) {
        Some(JsonValue::Str(s)) => Ok(s.clone()),
        _ => Err(key.to_owned()),
    }
}

/// Reads the optional string member `key`; the error names the key.
pub fn opt_str_field(j: &JsonValue, key: &str) -> (r: Result<Option<String>, String>)
    ensures
        r matches Ok(s) ==> opt_str_at(*j, key@) == Some(s),
        r matches Err(e) ==> opt_str_at(*j, key@) is None && e@ == key@,
{
    match get_member(j, key) {
        None => Ok(None),
        Some(JsonValue::Null) => Ok(None),
        Some(JsonValue::Str(s)) => Ok(Some(s.clone())),
        _ => Err(key.to_owned()),
    }
}

/// Reads the array member `key`; the error names the key.
pub fn array_field<'a>(j: &'a JsonValue, key: &str) -> (r: Result<&'a Vec<JsonValue>, String>)
    ensures
        r matches Ok(items) ==> array_at(*j, key@) == Some(items@),
        r matches Err(e) ==> array_at(*j, key@) is None && e@ == key@,
{
    match get_member(j, key) {
        Some(JsonValue::Array(items)) => Ok(items),
        _ => Err(key.to_owned()),
    }
}

} // verus!
