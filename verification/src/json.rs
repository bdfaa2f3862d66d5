//! JSON documents, as `serde_json` holds, reads and writes them.
//!
//! `serde_json::Value` is opaque here: [`Json`] is the mathematical document
//! that a value holds, and every item below states its effect on that document.
use serde_json::Value;
use vstd::prelude::*;

verus! {

/// The document that a JSON value holds. A fractional number is held as the
/// bit pattern of its double-precision value.
pub ghost enum Json {
    Null,
    Bool(bool),
    Unsigned(u64),
    Negative(i64),
    Fraction(u64),
    Text(Seq<char>),
    Array(Seq<Json>),
    Object(Map<Seq<char>, Json>),
}

/// `serde_json::Value`; what it holds is its [`document`].
#[verifier::external_type_specification]
#[verifier::external_body]
pub struct ExValue(serde_json::Value);

/// `serde_json::Error`; of it only its message is used.
#[verifier::external_type_specification]
#[verifier::external_body]
pub struct ExError(serde_json::Error);

/// `serde_json::Map`; what it holds are its [`members`].
#[verifier::external_type_specification]
#[verifier::external_body]
#[verifier::reject_recursive_types(K)]
#[verifier::reject_recursive_types(V)]
pub struct ExMap<K, V>(serde_json::Map<K, V>);

/// The document held by a `serde_json::Value`.
pub uninterp spec fn document(value: serde_json::Value) -> Json;

/// The members held by a `serde_json::Map`, by key.
pub uninterp spec fn members(map: serde_json::Map<String, Value>) -> Map<Seq<char>, Json>;

/// The document that a text spells, if it spells one.
pub uninterp spec fn parsed(text: Seq<char>) -> Option<Json>;

/// The compact text that spells a document.
pub uninterp spec fn spelled(value: Json) -> Seq<char>;

/// The strings that a text spells as an array of strings, or the complaint
/// about it.
pub uninterp spec fn parsed_list(text: Seq<char>) -> Result<Seq<Seq<char>>, Seq<char>>;

/// The indented text that spells an array of strings.
pub uninterp spec fn spelled_list(items: Seq<Seq<char>>) -> Seq<char>;

/// The message of a `serde_json` error.
pub uninterp spec fn error_message(error: serde_json::Error) -> Seq<char>;

/// The characters of each of a sequence of strings.
pub open spec fn texts(strings: Seq<String>) -> Seq<Seq<char>> {
    strings.map_values(|s: String| s@)
}

/// The documents held by a sequence of values, one by one.
pub open spec fn documents(values: Seq<Value>) -> Seq<Json> {
    values.map_values(|v: Value| document(v))
}

/// What looking a key up in a document gives: null where the document is no
/// object or has no such member.
pub open spec fn member(value: Json, key: Seq<char>) -> Json {
    match value {
        Json::Object(fields) if fields.contains_key(key) => fields[key],
        _ => Json::Null,
    }
}

/// Whether a document is an array of objects whose members are all unsigned
/// integers or texts.
pub open spec fn is_record_list(value: Json) -> bool {
    match value {
        Json::Array(items) => forall|i: int| 0 <= i < items.len() ==> #[trigger] is_record(items[i]),
        _ => false,
    }
}

/// Whether a document is an object whose members are all unsigned integers or
/// texts.
pub open spec fn is_record(value: Json) -> bool {
    match value {
        Json::Object(fields) => forall|k: Seq<char>| #[trigger]
            fields.contains_key(k) ==> fields[k] is Unsigned || fields[k] is Text,
        _ => false,
    }
}

/// `serde_json::from_str`, read as a `Value`: it succeeds exactly on the texts
/// that spell a document, and then gives that document.
#[verifier::external_body]
pub(crate) fn parse(text: &str) -> (r: Result<Value, serde_json::Error>)
    ensures
        match r {
            Ok(value) => parsed(text@) == Some(document(value)),
            Err(_) => parsed(text@) is None,
        },
{
    serde_json::from_str::<Value>(text)
}

/// `Value::to_string` of a list of flat records: its compact text, and reading
/// back that text gives the list again.
#[verifier::external_body]
pub(crate) fn spell(value: &Value) -> (r: String)
    requires
        is_record_list(document(*value)),
    ensures
        r@ == spelled(document(*value)),
        parsed(r@) == Some(document(*value)),
{
    value.to_string()
}

/// `serde_json::from_str`, read as a vector of strings: the strings that the
/// text spells, or an error with the complaint about it.
#[verifier::external_body]
pub(crate) fn parse_list(text: &str) -> (r: Result<Vec<String>, serde_json::Error>)
    ensures
        match r {
            Ok(items) => parsed_list(text@) is Ok && parsed_list(text@)->Ok_0 == texts(items@),
            Err(error) => parsed_list(text@) is Err && parsed_list(text@)->Err_0 == error_message(
                error,
            ),
        },
{
    serde_json::from_str::<Vec<String>>(text)
}

/// `serde_json::to_string_pretty` of a vector of strings, which never fails:
/// the indented text, and reading it back gives the same strings.
#[verifier::external_body]
pub(crate) fn spell_list(items: &Vec<String>) -> (r: Result<String, serde_json::Error>)
    ensures
        r is Ok,
        r->Ok_0@ == spelled_list(texts(items@)),
        parsed_list(r->Ok_0@) is Ok && parsed_list(r->Ok_0@)->Ok_0 == texts(items@),
{
    serde_json::to_string_pretty(items)
}

/// The `Display` text of a `serde_json::Error`.
#[verifier::external_body]
pub(crate) fn message(error: &serde_json::Error) -> (r: String)
    ensures
        r@ == error_message(*error),
{
    error.to_string()
}

/// `Value::as_array`: the elements of an array, nothing for any other document.
pub assume_specification[ Value::as_array ](value: &Value) -> (r: Option<&Vec<Value>>)
    ensures
        match r {
            Some(items) => document(*value) == Json::Array(documents(items@)),
            None => !(document(*value) is Array),
        },
;

/// `Value::as_u64`: the number where the document is an integer that is not
/// negative, nothing for any other document.
pub assume_specification[ Value::as_u64 ](value: &Value) -> (r: Option<u64>)
    ensures
        r == match document(*value) {
            Json::Unsigned(n) => Some(n),
            _ => None,
        },
;

/// `Value::as_str`: the characters of a text, nothing for any other document.
pub assume_specification[ Value::as_str ](value: &Value) -> (r: Option<&str>)
    ensures
        match r {
            Some(s) => document(*value) == Json::Text(s@),
            None => !(document(*value) is Text),
        },
;

/// Indexing a `Value` by a key: the member of that name, null where there is
/// none.
#[verifier::external_body]
pub(crate) fn get<'a>(value: &'a Value, key: &str) -> (r: &'a Value)
    ensures
        document(*r) == member(document(*value), key@),
{
    &value[key]
}

/// `Value::from` of a byte: an unsigned integer.
#[verifier::external_body]
pub(crate) fn from_byte(n: u8) -> (r: Value)
    ensures
        document(r) == Json::Unsigned(n as u64),
{
    Value::from(n)
}

/// `Value::from` of a string slice: a text.
#[verifier::external_body]
pub(crate) fn from_text(s: &str) -> (r: Value)
    ensures
        document(r) == Json::Text(s@),
{
    Value::from(s)
}

/// `Value::from` of a vector of values: an array of them.
#[verifier::external_body]
pub(crate) fn from_items(items: Vec<Value>) -> (r: Value)
    ensures
        document(r) == Json::Array(documents(items@)),
{
    Value::from(items)
}

/// `Value::from` of a map: an object with its members.
#[verifier::external_body]
pub(crate) fn from_members(map: serde_json::Map<String, Value>) -> (r: Value)
    ensures
        document(r) == Json::Object(members(map)),
{
    Value::from(map)
}

/// `serde_json::Map::new`: a map without members.
#[verifier::external_body]
pub(crate) fn no_members() -> (r: serde_json::Map<String, Value>)
    ensures
        members(r).dom() == Set::<Seq<char>>::empty(),
{
    serde_json::Map::new()
}

/// `serde_json::Map::insert`: the member is set, every other one is kept.
#[verifier::external_body]
pub(crate) fn set_member(map: &mut serde_json::Map<String, Value>, key: &str, value: Value)
    ensures
        members(*final(map)) == members(*old(map)).insert(key@, document(value)),
{
    map.insert(key.to_owned(), value);
}

} // verus!
