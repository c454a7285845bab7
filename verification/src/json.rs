//! JSON documents as the library reads them (schemas, answers), and the two
//! outside computations over them: JSON Schema validation and Handlebars
//! rendering.

use vstd::prelude::*;

verus! {

/// A JSON number: what the logic reads of it (its value as an `i64`, when it
/// is an integer that fits) and the number itself, carried to the outside
/// crates unread.
#[derive(Debug)]
pub struct JsonNumber {
    /// The integer the logic reads.  The library's own constructors
    /// (`integer_number`, parsing) set it to `serde_json::Number::as_i64` of
    /// `raw`; a value built by hand is taken as it is given.
    pub as_integer: Option<i64>,
    pub raw: serde_json::Number,
}

/// A JSON value.  Object members keep their order; a well-formed object
/// names each member once.
#[derive(Debug)]
pub enum JsonValue {
    Null,
    Bool(bool),
    Number(JsonNumber),
    Text(String),
    Array(Vec<JsonValue>),
    Object(Vec<(String, JsonValue)>),
}

#[verifier::external_type_specification]
#[verifier::external_body]
pub struct ExJsonNumber(serde_json::Number);

#[verifier::external_type_specification]
#[verifier::external_body]
pub struct ExJsonDocument(serde_json::Value);

/// `serde_json::Number` derives `Clone`: the copy equals the original.
pub assume_specification[ <serde_json::Number as Clone>::clone ](n: &serde_json::Number) -> (r:
    serde_json::Number)
    ensures
        r == *n,
;

/// A copy of a number.
pub fn copy_number(n: &JsonNumber) -> (r: JsonNumber)
    ensures
        r == *n,
{
    JsonNumber { as_integer: n.as_integer, raw: n.raw.clone() }
}

/// The value of the first member named `key` among `members`.
pub open spec fn member(members: Seq<(String, JsonValue)>, key: Seq<char>) -> Option<JsonValue>
    decreases members.len(),
{
    if members.len() == 0 {
        None
    } else if members[0].0@ == key {
        Some(members[0].1)
    } else {
        member(members.drop_first(), key)
    }
}

/// The member `key` of an object (`Value::get`); `None` for a non-object.
pub open spec fn field(v: JsonValue, key: Seq<char>) -> Option<JsonValue> {
    match v {
        JsonValue::Object(members) => member(members@, key),
        _ => None,
    }
}

/// The text of a JSON string (`Value::as_str`).
pub open spec fn text_of(v: Option<JsonValue>) -> Option<Seq<char>> {
    match v {
        Some(JsonValue::Text(s)) => Some(s@),
        _ => None,
    }
}

/// The number `serde_json::Number::from(i)`, with its `as_i64`.
pub uninterp spec fn json_integer(i: i64) -> JsonNumber;

/// A `serde_json::Number` made from an integer (`Number::from`); its
/// `as_i64` gives the integer back.
#[verifier::external_body]
pub(crate) fn integer_number(i: i64) -> (n: JsonNumber)
    ensures
        n == json_integer(i),
        n.as_integer == Some(i),
{
    let raw = serde_json::Number::from(i);
    JsonNumber { as_integer: raw.as_i64(), raw }
}

/// Looks up the first member named `key`.
pub fn get_member<'a>(members: &'a Vec<(String, JsonValue)>, key: &str) -> (r: Option<&'a JsonValue>)
    ensures
        match member(members@, key@) {
            Some(v) => r == Some(&v),
            None => r is None,
        },
{
    let mut i: usize = 0;
    assert(members@.skip(0) =~= members@);
    while i < members.len()
        invariant
            i <= members@.len(),
            member(members@, key@) == member(members@.skip(i as int), key@),
        decreases members@.len() - i,
    {
        assert(members@.skip(i as int).drop_first() =~= members@.skip(i + 1));
        if crate::text::same_text(members[i].0.as_str(), key) {
            return Some(&members[i].1);
        }
        i = i + 1;
    }
    None
}

/// The member `key` of `v` when `v` is an object.
pub fn get_field<'a>(v: &'a JsonValue, key: &str) -> (r: Option<&'a JsonValue>)
    ensures
        match field(*v, key@) {
            Some(f) => r == Some(&f),
            None => r is None,
        },
{
    match v {
        JsonValue::Object(members) => get_member(members, key),
        _ => None,
    }
}

/// The text of `v` when it is a JSON string.
pub fn get_text(v: Option<&JsonValue>) -> (r: Option<&String>)
    ensures
        match r {
            Some(s) => text_of(
                match v {
                    Some(x) => Some(*x),
                    None => None,
                },
            ) == Some(s@),
            None => text_of(
                match v {
                    Some(x) => Some(*x),
                    None => None,
                },
            ) is None,
        },
{
    match v {
        Some(JsonValue::Text(s)) => Some(s),
        _ => None,
    }
}


/// The `serde_json::Value` that `v` stands for.
#[verifier::external_body]
fn to_serde_json(v: &JsonValue) -> serde_json::Value {
    match v {
        JsonValue::Null => serde_json::Value::Null,
        JsonValue::Bool(b) => serde_json::Value::Bool(*b),
        JsonValue::Number(n) => serde_json::Value::Number(n.raw.clone()),
        JsonValue::Text(s) => serde_json::Value::String(s.clone()),
        JsonValue::Array(items) => serde_json::Value::Array(items.iter().map(to_serde_json).collect()),
        JsonValue::Object(members) => serde_json::Value::Object(
            members.iter().map(|(k, x)| (k.clone(), to_serde_json(x))).collect(),
        ),
    }
}

/// The library's form of a parsed JSON document: numbers keep their
/// `as_i64`, objects their members in the map's order.
#[verifier::external_body]
fn from_serde_json(v: &serde_json::Value) -> JsonValue {
    match v {
        serde_json::Value::Null => JsonValue::Null,
        serde_json::Value::Bool(b) => JsonValue::Bool(*b),
        serde_json::Value::Number(n) => JsonValue::Number(JsonNumber { as_integer: n.as_i64(), raw: n.clone() }),
        serde_json::Value::String(s) => JsonValue::Text(s.clone()),
        serde_json::Value::Array(items) => JsonValue::Array(items.iter().map(from_serde_json).collect()),
        serde_json::Value::Object(members) => JsonValue::Object(
            members.iter().map(|(k, x)| (k.clone(), from_serde_json(x))).collect(),
        ),
    }
}

/// The document that `serde_json::from_str::<Value>` parses from `text`, or
/// `None` when `text` is not JSON.
pub uninterp spec fn parsed_json(text: Seq<char>) -> Option<JsonValue>;

/// Parses `text` as JSON (`serde_json::from_str`); which texts parse, and to
/// what, is not stated.
#[verifier::external_body]
pub(crate) fn parse_json(text: &str) -> (r: Option<JsonValue>)
    ensures
        r == parsed_json(text@),
{
    serde_json::from_str::<serde_json::Value>(text).ok().map(|v| from_serde_json(&v))
}

/// The schema of a schematic given the text of its `schema.json`: JSON
/// `null` when there is no such file (nothing is asked then), the parsed
/// document when the text is JSON, and `None` when it is not.
pub fn schema_from_file(content: Option<&str>) -> (r: Option<JsonValue>)
    ensures
        match content {
            None => r == Some(JsonValue::Null),
            Some(t) => r == parsed_json(t@),
        },
{
    match content {
        None => Some(JsonValue::Null),
        Some(t) => parse_json(t),
    }
}

/// The message of the error that `jsonschema::validator_for` reports for
/// `schema`, or `None` when the schema compiles.
pub uninterp spec fn schema_compile_error(schema: JsonValue) -> Option<Seq<char>>;

/// The messages of the errors that a validator compiled from `schema`
/// reports for `instance` (`Validator::iter_errors`), in its order.
pub uninterp spec fn schema_instance_errors(schema: JsonValue, instance: JsonValue) -> Seq<Seq<char>>;

/// Compiles `schema` with `jsonschema::validator_for` and gives the error's
/// message when that fails.  Which schemas compile is not stated.
#[verifier::external_body]
pub(crate) fn schema_build_error(schema: &JsonValue) -> (r: Option<String>)
    ensures
        match r {
            Some(e) => schema_compile_error(*schema) == Some(e@),
            None => schema_compile_error(*schema) is None,
        },
{
    jsonschema::validator_for(&to_serde_json(schema)).err().map(|e| e.to_string())
}

/// The messages of the errors that `Validator::iter_errors`, on the
/// validator compiled from `schema`, reports for `instance`; no messages
/// when `schema` does not compile.  Which instances a schema accepts is not
/// stated.
#[verifier::external_body]
pub(crate) fn instance_errors(schema: &JsonValue, instance: &JsonValue) -> (r: Vec<String>)
    ensures
        schema_compile_error(*schema) is None ==> r@.map_values(|s: String| s@)
            == schema_instance_errors(*schema, *instance),
{
    match jsonschema::validator_for(&to_serde_json(schema)) {
        Ok(validator) => validator.iter_errors(&to_serde_json(instance)).map(|e| e.to_string()).collect(),
        Err(_) => Vec::new(),
    }
}

/// What `Handlebars::new().render_template` gives for `template` with
/// `context` as its data, or `None` when it reports an error.
pub uninterp spec fn handlebars_output(template: Seq<char>, context: JsonValue) -> Option<Seq<char>>;

/// Renders `template` with `context` through a default Handlebars registry
/// (`Handlebars::render_template`); an error is given back as its message,
/// whose text is not stated.
#[verifier::external_body]
pub(crate) fn render_template(template: &str, context: &JsonValue) -> (r: Result<String, String>)
    ensures
        match r {
            Ok(s) => handlebars_output(template@, *context) == Some(s@),
            Err(_) => handlebars_output(template@, *context) is None,
        },
{
    handlebars::Handlebars::new().render_template(template, &to_serde_json(context)).map_err(|e| e.to_string())
}

} // verus!
