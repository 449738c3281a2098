//! Calls into other crates and into std functions that vstd leaves unspecified.

use vstd::prelude::*;

verus! {

/// What `serde_json` finds at string field `key` of the JSON object in `text`,
/// if `text` parses as an object holding such a field with a string value.
pub uninterp spec fn json_field(text: Seq<char>, key: Seq<char>) -> Option<Seq<char>>;

/// A lowercase hexadecimal digit.
pub open spec fn hex_digit(d: nat) -> char {
    if d < 10 {
        ((d + 48) as u8) as char
    } else {
        ((d + 87) as u8) as char
    }
}

/// How `serde_json` writes one character inside a string literal: `"` and
/// `\` escaped, the short escapes for backspace, tab, line feed, form feed
/// and carriage return, `\u00XX` for the other control characters below
/// 0x20, and any other character as itself.
pub open spec fn json_escape_char(c: char) -> Seq<char> {
    if c == '"' {
        seq!['\\', '"']
    } else if c == '\\' {
        seq!['\\', '\\']
    } else if c == '\u{08}' {
        seq!['\\', 'b']
    } else if c == '\t' {
        seq!['\\', 't']
    } else if c == '\n' {
        seq!['\\', 'n']
    } else if c == '\u{0C}' {
        seq!['\\', 'f']
    } else if c == '\r' {
        seq!['\\', 'r']
    } else if (c as u32) < 0x20 {
        seq!['\\', 'u', '0', '0', hex_digit((c as u32 / 16) as nat), hex_digit((c as u32 % 16) as nat)]
    } else {
        seq![c]
    }
}

pub open spec fn json_escaped(s: Seq<char>) -> Seq<char>
    decreases s.len(),
{
    if s.len() == 0 {
        Seq::empty()
    } else {
        json_escaped(s.drop_last()) + json_escape_char(s.last())
    }
}

/// The JSON string literal that `serde_json` writes for `s`, quotes included.
pub open spec fn json_quoted(s: Seq<char>) -> Seq<char> {
    seq!['"'] + json_escaped(s) + seq!['"']
}

/// Relies on `uuid::Uuid::new_v4` and its hyphenated `Display`: a random id.
#[verifier::external_body]
pub(crate) fn new_uuid_text() -> (r: String) {
    uuid::Uuid::new_v4().to_string()
}

/// Relies on `serde_json::from_str` into a `Value`, `Value::get` and
/// `Value::as_str`: the string at field `key` of the object `text` holds.
#[verifier::external_body]
pub(crate) fn json_string_field(text: &str, key: &str) -> (r: Option<String>)
    ensures
        match r {
            Some(v) => json_field(text@, key@) == Some(v@),
            None => json_field(text@, key@) is None,
        },
{
    let value: serde_json::Value = serde_json::from_str(text).ok()?;
    value.get(key).and_then(|v| v.as_str()).map(|v| v.to_string())
}

/// Relies on `serde_json::Map` (a `BTreeMap` without the `preserve_order`
/// feature, so keys come out in byte order, which for distinct keys with
/// `lex_lt(k1, k2)` puts `k1` first) and compact `serde_json::to_string`:
/// the object holding string `v1` under `k1` and the number `v2` under `k2`.
#[verifier::external_body]
pub(crate) fn json_object_text_number(k1: &str, v1: &str, k2: &str, v2: u32) -> (r: String)
    requires
        crate::workflow::lex_lt(k1@, k2@),
    ensures
        r@ == "{"@ + json_quoted(k1@) + ":"@ + json_quoted(v1@) + ","@ + json_quoted(k2@) + ":"@
            + crate::decimal::decimal_text(v2 as nat) + "}"@,
{
    let mut map = serde_json::Map::new();
    map.insert(k1.to_string(), serde_json::Value::String(v1.to_string()));
    map.insert(k2.to_string(), serde_json::Value::from(v2));
    serde_json::to_string(&map).unwrap_or_default()
}

/// Relies on `serde_json::Map` and compact `serde_json::to_string`: the
/// object holding string `v` under `k`.
#[verifier::external_body]
pub(crate) fn json_object_text(k: &str, v: &str) -> (r: String)
    ensures
        r@ == "{"@ + json_quoted(k@) + ":"@ + json_quoted(v@) + "}"@,
{
    let mut map = serde_json::Map::new();
    map.insert(k.to_string(), serde_json::Value::String(v.to_string()));
    serde_json::to_string(&map).unwrap_or_default()
}

/// Relies on `serde_json::Map` and compact `serde_json::to_string`: the
/// object holding the number `v` under `k`.
#[verifier::external_body]
pub(crate) fn json_object_number(k: &str, v: u32) -> (r: String)
    ensures
        r@ == "{"@ + json_quoted(k@) + ":"@ + crate::decimal::decimal_text(v as nat) + "}"@,
{
    let mut map = serde_json::Map::new();
    map.insert(k.to_string(), serde_json::Value::from(v));
    serde_json::to_string(&map).unwrap_or_default()
}

/// `s` with every non-overlapping occurrence of `from`, scanned left to right,
/// replaced by `to`.
pub open spec fn replace_all(s: Seq<char>, from: Seq<char>, to: Seq<char>) -> Seq<char>
    decreases s.len(),
{
    if s.len() == 0 || from.len() == 0 {
        s
    } else if from.len() <= s.len() && s.subrange(0, from.len() as int) == from {
        to + replace_all(s.subrange(from.len() as int, s.len() as int), from, to)
    } else {
        seq![s[0]] + replace_all(s.drop_first(), from, to)
    }
}

/// Relies on `str::replace`, which replaces all matches of a non-empty pattern
/// from left to right.
#[verifier::external_body]
pub(crate) fn replace_text(s: &str, from: &str, to: &str) -> (r: String)
    requires
        from@.len() > 0,
    ensures
        r@ == replace_all(s@, from@, to@),
{
    s.replace(from, to)
}

} // verus!
