//! JSON text for the list columns of the database, through `serde_json`.
use vstd::prelude::*;

verus! {

/// `serde_json::Value`, any JSON value; opaque here.
#[verifier::external_type_specification]
#[verifier::external_body]
pub struct ExJsonValue(serde_json::Value);

/// `serde_json::Error`; opaque here.
#[verifier::external_type_specification]
#[verifier::external_body]
pub struct ExJsonError(serde_json::Error);

/// The views of a list of strings.
pub open spec fn views(v: Seq<String>) -> Seq<Seq<char>> {
    v.map_values(|s: String| s@)
}

/// The lower-case hexadecimal digit of `d`, for `0 <= d < 16`.
pub open spec fn hex_digit(d: int) -> char {
    seq!['0', '1', '2', '3', '4', '5', '6', '7', '8', '9', 'a', 'b', 'c', 'd', 'e', 'f'][d]
}

/// How `serde_json` writes a character inside a JSON string: the quote and
/// the backslash after a backslash, the control characters with a short
/// escape where JSON has one and as `\u00XX` otherwise, and every other
/// character as it is.
pub open spec fn json_escape_char(c: char) -> Seq<char> {
    if c == '"' {
        seq!['\\', '"']
    } else if c == '\\' {
        seq!['\\', '\\']
    } else if c == '\u{8}' {
        seq!['\\', 'b']
    } else if c == '\t' {
        seq!['\\', 't']
    } else if c == '\n' {
        seq!['\\', 'n']
    } else if c == '\u{c}' {
        seq!['\\', 'f']
    } else if c == '\r' {
        seq!['\\', 'r']
    } else if (c as u32) < 0x20 {
        seq!['\\', 'u', '0', '0', hex_digit((c as int) / 16), hex_digit((c as int) % 16)]
    } else {
        seq![c]
    }
}

/// A string as a JSON string: quoted, with its characters escaped.
pub open spec fn json_string(s: Seq<char>) -> Seq<char> {
    seq!['"'] + s.map_values(|c: char| json_escape_char(c)).flatten() + seq!['"']
}

/// The JSON strings of `v`, separated by commas.
pub open spec fn json_items(v: Seq<Seq<char>>) -> Seq<char>
    decreases v.len(),
{
    if v.len() == 0 {
        Seq::empty()
    } else if v.len() == 1 {
        json_string(v[0])
    } else {
        json_items(v.drop_last()) + seq![','] + json_string(v.last())
    }
}

/// What `serde_json::to_string` writes for a list of strings: a JSON array
/// of JSON strings, with no spaces.
pub open spec fn json_of_strings(v: Seq<Seq<char>>) -> Seq<char> {
    seq!['['] + json_items(v) + seq![']']
}

/// What `serde_json::from_str::<Vec<String>>` reads from a text: the list
/// of strings, or `None` when the text is not a JSON array of strings.
pub uninterp spec fn strings_of_json(t: Seq<char>) -> Option<Seq<Seq<char>>>;

/// Calls `serde_json::to_string` on a list of strings, which writes the
/// text `json_of_strings` states. It never fails: the documented failures need a
/// `Serialize` impl that fails or a map with non-string keys, and a list of
/// strings has neither. Its text reads back as the same list: the writer
/// (`format_escaped_str`) escapes exactly the quote, the backslash and the
/// control characters, all of which the reader (`parse_str`) unescapes.
#[verifier::external_body]
pub(crate) fn strings_to_json(v: &Vec<String>) -> (r: Result<String, serde_json::Error>)
    ensures
        r is Ok,
        match r {
            Ok(t) => t@ == json_of_strings(views(v@)) && strings_of_json(t@) == Some(views(v@)),
            Err(_) => true,
        },
{
    serde_json::to_string(v)
}

/// Calls `serde_json::from_str::<Vec<String>>`. Its result is named
/// `strings_of_json`: `Ok` with the strings when the name gives some, `Err`
/// when it gives none.
#[verifier::external_body]
pub(crate) fn json_to_strings(t: &str) -> (r: Result<Vec<String>, serde_json::Error>)
    ensures
        match r {
            Ok(v) => strings_of_json(t@) == Some(views(v@)),
            Err(_) => strings_of_json(t@) is None,
        },
{
    serde_json::from_str(t)
}

/// What `serde_json::to_string` writes for a JSON value.
pub uninterp spec fn json_text_of_value(v: serde_json::Value) -> Seq<char>;

/// What `serde_json::from_str::<serde_json::Value>` reads from a text: the
/// value, or `None` when the text is not JSON.
pub uninterp spec fn value_of_json(t: Seq<char>) -> Option<serde_json::Value>;

/// Calls `serde_json::to_string` on a JSON value. Its text is named
/// `json_text_of_value`. It never fails: the documented failures need a
/// `Serialize` impl that fails or a map with non-string keys, and `Value`'s
/// impl writes only strings as keys and has no failing case, into a `Vec`
/// that cannot fail.
#[verifier::external_body]
pub(crate) fn value_to_json(v: &serde_json::Value) -> (r: Result<String, serde_json::Error>)
    ensures
        r is Ok,
        match r {
            Ok(t) => t@ == json_text_of_value(*v),
            Err(_) => true,
        },
{
    serde_json::to_string(v)
}

/// Calls `serde_json::from_str::<serde_json::Value>`. Its result is named
/// `value_of_json`: `Ok` with the value when the name gives one, `Err` when
/// it gives none.
#[verifier::external_body]
pub(crate) fn json_to_value(t: &str) -> (r: Result<serde_json::Value, serde_json::Error>)
    ensures
        match r {
            Ok(v) => value_of_json(t@) == Some(v),
            Err(_) => value_of_json(t@) is None,
        },
{
    serde_json::from_str(t)
}

/// Calls `serde_json::Value::default`, which is `Value::Null`: the value
/// `serde_json::from_str` reads from the text `null`.
#[verifier::external_body]
pub(crate) fn json_null() -> (r: serde_json::Value)
    ensures
        value_of_json("null"@) == Some(r),
{
    serde_json::Value::default()
}

/// JSON `null`.
pub open spec fn null_value() -> serde_json::Value {
    value_of_json("null"@)->0
}

/// The JSON value a stored text holds: what it reads as, or `null` when it
/// does not parse.
pub open spec fn decode_value(t: Seq<char>) -> serde_json::Value {
    match value_of_json(t) {
        Some(v) => v,
        None => null_value(),
    }
}

/// The strings a stored list column holds: what the text reads as, or the
/// empty list when it does not read as a list of strings.
pub open spec fn decode_strings(t: Seq<char>) -> Seq<Seq<char>> {
    match strings_of_json(t) {
        Some(v) => v,
        None => Seq::empty(),
    }
}

/// The strings a stored list column holds, or none if its text does not
/// read as a list of strings.
pub fn strings_or_empty(t: &str) -> (r: Vec<String>)
    ensures
        views(r@) == decode_strings(t@),
{
    match json_to_strings(t) {
        Ok(v) => v,
        Err(_) => {
            let v: Vec<String> = Vec::new();
            assert(views(v@) =~= Seq::<Seq<char>>::empty());
            v
        },
    }
}

/// The JSON value a stored text holds, or `null` if it does not parse.
pub(crate) fn value_or_null(t: &str) -> (r: serde_json::Value)
    ensures
        r == decode_value(t@),
{
    match json_to_value(t) {
        Ok(v) => v,
        Err(_) => json_null(),
    }
}

} // verus!
