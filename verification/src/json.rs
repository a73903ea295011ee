//! A JSON document as plain values, with lookups over it. Parsing and
//! pretty-printing are done by `serde_json`.

use vstd::prelude::*;
use vstd::utf8::encode_utf8;

use crate::text::str_eq;

verus! {

/// A JSON number: its `i64` value when it is an integer that fits, and its
/// canonical text.
#[derive(Debug)]
pub struct JsonNumber {
    pub as_i64: Option<i64>,
    pub text: String,
}

/// A JSON value. Object members keep the order in which the parser yields
/// them (sorted by key), each key once.
#[derive(Debug)]
pub enum Json {
    Null,
    Bool(bool),
    Number(JsonNumber),
    Str(String),
    Array(Vec<Json>),
    Object(Vec<(String, Json)>),
}

/// A JSON value as plain values.
pub enum JsonView {
    Null,
    Bool(bool),
    Number(Option<i64>, Seq<char>),
    Str(Seq<char>),
    Array(Seq<JsonView>),
    Object(Seq<(Seq<char>, JsonView)>),
}

/// A `Json` as plain values.
pub open spec fn json_view(value: Json) -> JsonView
    decreases value,
{
    match value {
        Json::Null => JsonView::Null,
        Json::Bool(flag) => JsonView::Bool(flag),
        Json::Number(number) => JsonView::Number(number.as_i64, number.text@),
        Json::Str(text) => JsonView::Str(text@),
        Json::Array(items) => JsonView::Array(
            Seq::new(
                items@.len(),
                |i: int|
                    if 0 <= i < items@.len() {
                        json_view(items@[i])
                    } else {
                        JsonView::Null
                    },
            ),
        ),
        Json::Object(members) => JsonView::Object(
            Seq::new(
                members@.len(),
                |i: int|
                    if 0 <= i < members@.len() {
                        (members@[i].0@, json_view(members@[i].1))
                    } else {
                        (Seq::empty(), JsonView::Null)
                    },
            ),
        ),
    }
}

#[verifier::external_type_specification]
#[verifier::external_body]
pub struct ExJsonValue(serde_json::Value);

/// What `serde_json::from_slice::<serde_json::Value>` yields for a byte
/// string, as a `Json`, or nothing when the bytes are not a JSON document.
pub uninterp spec fn parsed_json(bytes: Seq<u8>) -> Option<Json>;

/// What `serde_json::to_vec_pretty` writes for a JSON value.
pub uninterp spec fn pretty_json_text(value: Json) -> Seq<u8>;

/// What `String::from_utf8_lossy` gives for a byte string.
pub uninterp spec fn lossy_text(bytes: Seq<u8>) -> Seq<char>;

/// What `serde_json::to_vec` writes for a JSON value.
pub uninterp spec fn compact_json_text(value: JsonView) -> Seq<u8>;

/// A lower-case hexadecimal digit.
pub open spec fn hex_digit_char(v: int) -> char {
    if v < 10 {
        (48 + v) as char
    } else {
        (87 + v) as char
    }
}

/// A character inside a JSON string: a quote and a backslash get a
/// backslash; backspace, form feed, line feed, carriage return and tab get
/// their short escapes; other characters below U+0020 become `\u00` and
/// two lower-case hex digits; every other character stands as it is.
pub open spec fn escaped_char(c: char) -> Seq<char> {
    if c == '"' {
        seq!['\\', '"']
    } else if c == '\\' {
        seq!['\\', '\\']
    } else if c == '\u{8}' {
        seq!['\\', 'b']
    } else if c == '\u{c}' {
        seq!['\\', 'f']
    } else if c == '\n' {
        seq!['\\', 'n']
    } else if c == '\r' {
        seq!['\\', 'r']
    } else if c == '\t' {
        seq!['\\', 't']
    } else if (c as u32) < 0x20 {
        seq!['\\', 'u', '0', '0', hex_digit_char((c as u32) as int / 16), hex_digit_char((c as u32) as int % 16)]
    } else {
        seq![c]
    }
}

pub open spec fn escaped_text(text: Seq<char>) -> Seq<char>
    decreases text.len(),
{
    if text.len() == 0 {
        Seq::empty()
    } else {
        escaped_text(text.drop_last()) + escaped_char(text.last())
    }
}

/// What `serde_json::to_vec` writes for a string: the UTF-8 of the
/// escaped text between quotes.
pub open spec fn json_string_text(text: Seq<char>) -> Seq<u8> {
    encode_utf8(seq!['"'] + escaped_text(text) + seq!['"'])
}

#[verifier::external_body]
fn json_from_value(value: serde_json::Value) -> Json {
    match value {
        serde_json::Value::Null => Json::Null,
        serde_json::Value::Bool(flag) => Json::Bool(flag),
        serde_json::Value::Number(number) => Json::Number(
            JsonNumber { as_i64: number.as_i64(), text: number.to_string() },
        ),
        serde_json::Value::String(text) => Json::Str(text),
        serde_json::Value::Array(items) => Json::Array(items.into_iter().map(json_from_value).collect()),
        serde_json::Value::Object(members) => Json::Object(
            members.into_iter().map(|(key, item)| (key, json_from_value(item))).collect(),
        ),
    }
}

#[verifier::external_body]
fn json_to_value(value: &Json) -> serde_json::Value {
    match value {
        Json::Null => serde_json::Value::Null,
        Json::Bool(flag) => serde_json::Value::Bool(*flag),
        Json::Number(number) => match number.text.parse::<serde_json::Number>() {
            Ok(parsed) => serde_json::Value::Number(parsed),
            Err(_) => serde_json::Value::Null,
        },
        Json::Str(text) => serde_json::Value::String(text.clone()),
        Json::Array(items) => serde_json::Value::Array(items.iter().map(json_to_value).collect()),
        Json::Object(members) => serde_json::Value::Object(
            members.iter().map(|(key, item)| (key.clone(), json_to_value(item))).collect(),
        ),
    }
}

/// Parses a JSON document with `serde_json::from_slice` into a
/// `serde_json::Value`, converted to `Json`. The contract only names the
/// result: which byte strings parse, and to what, is `serde_json`'s.
#[verifier::external_body]
pub fn parse_json(bytes: &[u8]) -> (parsed: Option<Json>)
    ensures
        parsed == parsed_json(bytes@),
{
    serde_json::from_slice::<serde_json::Value>(bytes).ok().map(json_from_value)
}

/// Renders a value with `serde_json::to_vec_pretty` (two-space indent);
/// serializing a `serde_json::Value` does not fail, so no error is
/// reported. The contract only names the text.
#[verifier::external_body]
pub fn pretty_json(value: &Json) -> (pretty: Vec<u8>)
    ensures
        pretty@ == pretty_json_text(*value),
{
    serde_json::to_vec_pretty(&json_to_value(value)).unwrap_or_default()
}

/// Renders a value with `serde_json::to_vec` (no whitespace); serializing
/// a `serde_json::Value` does not fail, so no error is reported. The
/// contract only names the text.
#[verifier::external_body]
pub fn compact_json(value: &Json) -> (bytes: Vec<u8>)
    ensures
        bytes@ == compact_json_text(json_view(*value)),
{
    serde_json::to_vec(&json_to_value(value)).unwrap_or_default()
}

/// Writes a string as a JSON string with `serde_json::to_vec`, which
/// escapes it as `json_string_text` states; serializing a `str` does not
/// fail, so no error is reported.
#[verifier::external_body]
pub fn json_string_bytes(text: &str) -> (bytes: Vec<u8>)
    ensures
        bytes@ == json_string_text(text@),
{
    serde_json::to_vec(text).unwrap_or_default()
}

/// Decodes bytes with `String::from_utf8_lossy`, each invalid sequence
/// becoming U+FFFD. The contract only names the text.
#[verifier::external_body]
pub fn lossy_string(bytes: &[u8]) -> (text: String)
    ensures
        text@ == lossy_text(bytes@),
{
    String::from_utf8_lossy(bytes).into_owned()
}

/// The first member named `key`.
pub open spec fn member_of(members: Seq<(String, Json)>, key: Seq<char>) -> Option<Json>
    decreases members.len(),
{
    if members.len() == 0 {
        None
    } else if members[0].0@ == key {
        Some(members[0].1)
    } else {
        member_of(members.drop_first(), key)
    }
}

/// `value.get(key)`: the member `key` of an object; nothing for other
/// values.
pub open spec fn get_spec(value: Json, key: Seq<char>) -> Option<Json> {
    match value {
        Json::Object(members) => member_of(members@, key),
        _ => None,
    }
}

/// `value.get(key)` on an optional value.
pub open spec fn get_opt(value: Option<Json>, key: Seq<char>) -> Option<Json> {
    match value {
        Some(value) => get_spec(value, key),
        None => None,
    }
}

/// `Value::as_str`.
pub open spec fn str_of(value: Option<Json>) -> Option<Seq<char>> {
    match value {
        Some(Json::Str(text)) => Some(text@),
        _ => None,
    }
}

/// Present and not `null`.
pub open spec fn non_null(value: Option<Json>) -> bool {
    match value {
        Some(Json::Null) => false,
        Some(_) => true,
        None => false,
    }
}

pub open spec fn opt_ref(value: Option<&Json>) -> Option<Json> {
    match value {
        Some(value) => Some(*value),
        None => None,
    }
}

/// `value.get(key)`.
pub fn json_get<'a>(value: &'a Json, key: &str) -> (found: Option<&'a Json>)
    ensures
        opt_ref(found) == get_spec(*value, key@),
{
    match value {
        Json::Object(members) => {
            let mut index: usize = 0;
            assert(members@.skip(0) =~= members@);
            while index < members.len()
                invariant
                    index <= members@.len(),
                    get_spec(*value, key@) == member_of(members@, key@),
                    member_of(members@, key@) == member_of(members@.skip(index as int), key@),
                decreases members@.len() - index,
            {
                let ghost rest = members@.skip(index as int);
                assert(rest[0] == members@[index as int]);
                if str_eq(members[index].0.as_str(), key) {
                    return Some(&members[index].1);
                }
                assert(rest.drop_first() =~= members@.skip(index + 1));
                index += 1;
            }
            assert(members@.skip(index as int) =~= Seq::<(String, Json)>::empty());
            None
        },
        _ => None,
    }
}

/// `value.get(key)` on an optional value.
pub fn json_get_opt<'a>(value: Option<&'a Json>, key: &str) -> (found: Option<&'a Json>)
    ensures
        opt_ref(found) == get_opt(opt_ref(value), key@),
{
    match value {
        Some(value) => json_get(value, key),
        None => None,
    }
}

/// `Value::as_str`.
pub fn json_str<'a>(value: Option<&'a Json>) -> (text: Option<&'a str>)
    ensures
        match text {
            Some(text) => str_of(opt_ref(value)) == Some(text@),
            None => str_of(opt_ref(value)) is None,
        },
{
    match value {
        Some(Json::Str(text)) => Some(text.as_str()),
        _ => None,
    }
}

/// Present and not `null`.
pub fn json_non_null(value: Option<&Json>) -> (present: bool)
    ensures
        present == non_null(opt_ref(value)),
{
    match value {
        Some(Json::Null) => false,
        Some(_) => true,
        None => false,
    }
}

/// How `serde` reads an optional string field: missing or `null` is
/// `None`, a string is its text, any other value is a type error (`Err`).
pub open spec fn optional_text_field(value: Option<Json>) -> Result<Option<Seq<char>>, ()> {
    match value {
        None => Ok(None),
        Some(Json::Null) => Ok(None),
        Some(Json::Str(text)) => Ok(Some(text@)),
        Some(_) => Err(()),
    }
}

/// How `serde` reads an optional boolean field.
pub open spec fn optional_bool_field(value: Option<Json>) -> Result<Option<bool>, ()> {
    match value {
        None => Ok(None),
        Some(Json::Null) => Ok(None),
        Some(Json::Bool(flag)) => Ok(Some(flag)),
        Some(_) => Err(()),
    }
}

/// How `serde` reads an optional integer field whose values lie in
/// `[low, high]` (an `i64` field, or a narrower one): a number must be an
/// integer in that range.
pub open spec fn optional_integer_field(value: Option<Json>, low: int, high: int) -> Result<Option<i64>, ()> {
    match value {
        None => Ok(None),
        Some(Json::Null) => Ok(None),
        Some(Json::Number(number)) => match number.as_i64 {
            Some(n) => if low <= n <= high {
                Ok(Some(n))
            } else {
                Err(())
            },
            None => Err(()),
        },
        Some(_) => Err(()),
    }
}

/// How `serde` reads a boolean field declared with a `false` default:
/// missing is `false`; `null` and other non-boolean values are type errors.
pub open spec fn defaulted_bool_field(value: Option<Json>) -> Result<bool, ()> {
    match value {
        None => Ok(false),
        Some(Json::Bool(flag)) => Ok(flag),
        Some(_) => Err(()),
    }
}

pub open spec fn optional_text_view(value: Result<Option<String>, ()>) -> Result<Option<Seq<char>>, ()> {
    match value {
        Ok(Some(text)) => Ok(Some(text@)),
        Ok(None) => Ok(None),
        Err(()) => Err(()),
    }
}

/// Reads an optional string field the way `serde` does.
pub fn read_optional_text(value: Option<&Json>) -> (field: Result<Option<String>, ()>)
    ensures
        optional_text_view(field) == optional_text_field(opt_ref(value)),
{
    match value {
        None => Ok(None),
        Some(Json::Null) => Ok(None),
        Some(Json::Str(text)) => Ok(Some(text.clone())),
        Some(_) => Err(()),
    }
}

/// Reads an optional boolean field the way `serde` does.
pub fn read_optional_bool(value: Option<&Json>) -> (field: Result<Option<bool>, ()>)
    ensures
        field == optional_bool_field(opt_ref(value)),
{
    match value {
        None => Ok(None),
        Some(Json::Null) => Ok(None),
        Some(Json::Bool(flag)) => Ok(Some(*flag)),
        Some(_) => Err(()),
    }
}

/// Reads an optional integer field with values in `[low, high]` the way
/// `serde` does.
pub fn read_optional_integer(value: Option<&Json>, low: i64, high: i64) -> (field: Result<Option<i64>, ()>)
    ensures
        field == optional_integer_field(opt_ref(value), low as int, high as int),
{
    match value {
        None => Ok(None),
        Some(Json::Null) => Ok(None),
        Some(Json::Number(number)) => match number.as_i64 {
            Some(n) => if low <= n && n <= high {
                Ok(Some(n))
            } else {
                Err(())
            },
            None => Err(()),
        },
        Some(_) => Err(()),
    }
}

/// Reads a boolean field with a `false` default the way `serde` does.
pub fn read_defaulted_bool(value: Option<&Json>) -> (field: Result<bool, ()>)
    ensures
        field == defaulted_bool_field(opt_ref(value)),
{
    match value {
        None => Ok(false),
        Some(Json::Bool(flag)) => Ok(*flag),
        Some(_) => Err(()),
    }
}

/// How `serde` reads a required boolean field: it must be present and a
/// boolean.
pub open spec fn required_bool_field(value: Option<Json>) -> Result<bool, ()> {
    match value {
        Some(Json::Bool(flag)) => Ok(flag),
        _ => Err(()),
    }
}

/// How `serde` reads a required integer field with values in
/// `[low, high]`.
pub open spec fn required_integer_field(value: Option<Json>, low: int, high: int) -> Result<i64, ()> {
    match value {
        Some(Json::Number(number)) => match number.as_i64 {
            Some(n) => if low <= n <= high {
                Ok(n)
            } else {
                Err(())
            },
            None => Err(()),
        },
        _ => Err(()),
    }
}

/// Reads a required boolean field the way `serde` does.
pub fn read_required_bool(value: Option<&Json>) -> (field: Result<bool, ()>)
    ensures
        field == required_bool_field(opt_ref(value)),
{
    match value {
        Some(Json::Bool(flag)) => Ok(*flag),
        _ => Err(()),
    }
}

/// Reads a required integer field with values in `[low, high]` the way
/// `serde` does.
pub fn read_required_integer(value: Option<&Json>, low: i64, high: i64) -> (field: Result<i64, ()>)
    ensures
        field == required_integer_field(opt_ref(value), low as int, high as int),
{
    match value {
        Some(Json::Number(number)) => match number.as_i64 {
            Some(n) => if low <= n && n <= high {
                Ok(n)
            } else {
                Err(())
            },
            None => Err(()),
        },
        _ => Err(()),
    }
}

/// What `serde_json::Value::pointer` finds in a JSON document for a JSON
/// pointer (RFC 6901).
pub uninterp spec fn json_pointer_target(document: JsonView, pointer: Seq<char>) -> Option<JsonView>;

pub open spec fn json_view_option(value: Option<Json>) -> Option<JsonView> {
    match value {
        Some(value) => Some(json_view(value)),
        None => None,
    }
}

/// Looks up a JSON pointer with `serde_json::Value::pointer`. The contract
/// only names the result.
#[verifier::external_body]
pub(crate) fn json_pointer(document: &Json, pointer: &str) -> (found: Option<Json>)
    ensures
        json_view_option(found) == json_pointer_target(json_view(*document), pointer@),
{
    json_to_value(document).pointer(pointer).cloned().map(json_from_value)
}

} // verus!
