//! Contracts for the functions of other crates and of the standard library that
//! this crate calls. The contracts in this file are taken on trust: each
//! restates what the called function is documented to do.

use vstd::prelude::*;
use sha2::Digest;
use crate::text::views;

verus! {

/// `String::push`: appends one character to the end of the string.
pub assume_specification[ String::push ](s: &mut String, c: char)
    ensures
        final(s)@ == old(s)@.push(c),
;

#[verifier::external_type_specification]
#[verifier::external_body]
pub struct ExJsonValue(serde_json::Value);

#[verifier::external_type_specification]
#[verifier::external_body]
#[verifier::reject_recursive_types(K)]
#[verifier::reject_recursive_types(V)]
pub struct ExJsonMap<K, V>(serde_json::Map<K, V>);

/// The entries of a JSON object all of whose values are strings: key to value.
pub uninterp spec fn json_entries(
    object: serde_json::Map<String, serde_json::Value>,
) -> Map<Seq<char>, Seq<char>>;

/// Whether every value of a JSON object is a string.
pub uninterp spec fn json_holds_texts(object: serde_json::Map<String, serde_json::Value>) -> bool;

/// The entries of an empty object.
pub open spec fn no_entries() -> Map<Seq<char>, Seq<char>> {
    Map::empty()
}

/// `serde_json::Map::new`: an object without entries, so without a value that
/// is no string.
#[verifier::external_body]
pub(crate) fn json_object_new() -> (r: serde_json::Map<String, serde_json::Value>)
    ensures
        json_entries(r) == no_entries(),
        json_holds_texts(r),
{
    serde_json::Map::new()
}

/// `serde_json::Map::insert` with a string value, on an object of strings: the
/// entry under `key` is set to `value`, replacing an earlier one; the other
/// entries stay, and the object is still one of strings.
#[verifier::external_body]
pub(crate) fn json_object_insert(
    object: &mut serde_json::Map<String, serde_json::Value>,
    key: String,
    value: String,
)
    requires
        json_holds_texts(*old(object)),
    ensures
        json_entries(*final(object)) == json_entries(*old(object)).insert(key@, value@),
        json_holds_texts(*final(object)),
{
    object.insert(key, serde_json::Value::String(value));
}

/// The pretty-printed JSON array of objects with the given string entries.
pub uninterp spec fn json_pretty_text(rows: Seq<Map<Seq<char>, Seq<char>>>) -> Seq<char>;

/// `serde_json::to_string_pretty` on a list of objects of strings. It writes
/// into a byte vector, and the only failures it has are those of its writer
/// and of values that refuse to be written, neither of which there is here:
/// so there is a text. The text depends on the entries alone, as the keys of
/// an object are written in sorted order.
#[verifier::external_body]
pub(crate) fn json_pretty(rows: &Vec<serde_json::Map<String, serde_json::Value>>) -> (r: Option<
    String,
>)
    requires
        forall|i: int| 0 <= i < rows@.len() ==> json_holds_texts(#[trigger] rows@[i]),
    ensures
        r is Some,
        r matches Some(text) ==> text@ == json_pretty_text(
            rows@.map_values(|o: serde_json::Map<String, serde_json::Value>| json_entries(o)),
        ),
{
    serde_json::to_string_pretty(rows).ok()
}

/// One record of comma-separated values: the fields, quoted where needed, with
/// commas between and a line feed after.
pub uninterp spec fn csv_record_text(fields: Seq<Seq<char>>) -> Seq<char>;

/// `csv::Writer::write_record` into a fresh writer over a byte vector, then
/// `into_inner`: the bytes written for this one record. A first record is of
/// any length, a byte vector takes every write, and what is written is the
/// bytes of the fields with quotes, commas and a line feed between them, which
/// is UTF-8: so there is a text.
#[verifier::external_body]
pub(crate) fn csv_record(fields: &Vec<String>) -> (r: Option<String>)
    ensures
        r is Some,
        r matches Some(text) ==> text@ == csv_record_text(views(fields@)),
{
    let mut writer = csv::Writer::from_writer(Vec::new());
    match writer.write_record(fields) {
        Ok(()) => match writer.into_inner() {
            Ok(bytes) => String::from_utf8(bytes).ok(),
            Err(_) => None,
        },
        Err(_) => None,
    }
}

/// The SHA-256 digest of a message.
pub uninterp spec fn sha256_digest(message: Seq<u8>) -> Seq<u8>;

/// `sha2::Sha256::digest`: the SHA-256 digest of `message`, which is 32 bytes long.
#[verifier::external_body]
pub(crate) fn sha256(message: &Vec<u8>) -> (digest: Vec<u8>)
    ensures
        digest@ == sha256_digest(message@),
        digest@.len() == 32,
{
    sha2::Sha256::digest(message).to_vec()
}

/// The lower-case hexadecimal digit for `d < 16`.
pub open spec fn hex_digit(d: int) -> char {
    if d < 10 {
        (48 + d) as u8 as char
    } else {
        (87 + d) as u8 as char
    }
}

/// The bytes written as lower-case hexadecimal digits, two per byte.
pub open spec fn hex_lower(bytes: Seq<u8>) -> Seq<char>
    decreases bytes.len(),
{
    if bytes.len() == 0 {
        Seq::empty()
    } else {
        hex_lower(bytes.drop_last()) + seq![
            hex_digit(bytes.last() as int / 16),
            hex_digit(bytes.last() as int % 16),
        ]
    }
}

/// `hex::encode`: each byte as two lower-case hexadecimal digits.
#[verifier::external_body]
pub(crate) fn hex_encode(bytes: &Vec<u8>) -> (text: String)
    ensures
        text@ == hex_lower(bytes@),
{
    hex::encode(bytes)
}

/// The lower-case form of a text by the rules of Unicode.
pub uninterp spec fn unicode_lower(s: Seq<char>) -> Seq<char>;

/// `str::to_lowercase`: the lower-case equivalent of `s`, a function of `s` alone.
#[verifier::external_body]
pub(crate) fn lowercase(s: &str) -> (lowered: String)
    ensures
        lowered@ == unicode_lower(s@),
{
    s.to_lowercase()
}

} // verus!
