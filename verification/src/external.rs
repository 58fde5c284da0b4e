//! The calls into outside crates that the library makes, each behind a trusted
//! wrapper whose contract states what the outside crate's source shows.
use vstd::prelude::*;

verus! {

/// A JSON document (`serde_json::Value`); the library only carries it.
#[verifier::external_type_specification]
#[verifier::external_body]
pub struct ExJsonValue(serde_json::Value);

/// The error type of `serde_json`.
#[verifier::external_type_specification]
#[verifier::external_body]
pub struct ExJsonError(serde_json::Error);

/// Whether `s` is the hyphenated, lower-case text form of a UUID:
/// 8-4-4-4-12 hexadecimal digits separated by `-`.
pub open spec fn is_uuid_text(s: Seq<char>) -> bool {
    &&& s.len() == 36
    &&& forall|i: int|
        #![trigger s[i]]
        0 <= i < 36 ==> if i == 8 || i == 13 || i == 18 || i == 23 {
            s[i] == '-'
        } else {
            is_lower_hex_digit(s[i])
        }
}

/// `0-9` or `a-f`.
pub open spec fn is_lower_hex_digit(c: char) -> bool {
    ('0' <= c && c <= '9') || ('a' <= c && c <= 'f')
}

/// A fresh random identifier: `uuid::Uuid::new_v4()` in its `Display` form.
/// The contract states only the shape of the text (`Uuid`'s `Display` writes the
/// hyphenated lower-case form); which identifier comes out rests on chance.
#[verifier::external_body]
pub fn new_uuid_text() -> (s: String)
    ensures
        is_uuid_text(s@),
{
    uuid::Uuid::new_v4().to_string()
}

/// The current time in whole seconds since the Unix epoch:
/// `chrono::Utc::now().timestamp()`. Nothing is promised of the value, which
/// rests on the machine's clock.
#[verifier::external_body]
pub fn unix_now() -> (t: i64) {
    chrono::Utc::now().timestamp()
}

/// The list of strings that a JSON text denotes, when it is a JSON array of
/// strings; `None` otherwise.
pub uninterp spec fn json_string_list(text: Seq<char>) -> Option<Seq<Seq<char>>>;

/// The JSON text that `serde_json` writes for a list of strings.
pub uninterp spec fn json_of_strings(list: Seq<Seq<char>>) -> Seq<char>;

/// Whether `serde_json` accepts the text as a JSON document.
pub uninterp spec fn json_accepts(text: Seq<char>) -> bool;

/// The JSON document that `serde_json` reads from a text it accepts.
pub uninterp spec fn json_value_of(text: Seq<char>) -> serde_json::Value;

/// The JSON text that `serde_json` writes for a document.
pub uninterp spec fn json_text_of(v: serde_json::Value) -> Seq<char>;

/// `serde_json::from_str::<Vec<String>>`: succeeds exactly on the texts that
/// denote a JSON array of strings, and gives back those strings.
#[verifier::external_body]
pub fn parse_string_list(text: &str) -> (r: Result<Vec<String>, serde_json::Error>)
    ensures
        match r {
            Ok(v) => json_string_list(text@) == Some(v.deep_view()),
            Err(_) => json_string_list(text@) is None,
        },
{
    serde_json::from_str::<Vec<String>>(text)
}

/// `serde_json::to_string` on a list of strings. Serialising strings into an
/// in-memory buffer cannot fail, so the result is always `Ok`; the text is named.
#[verifier::external_body]
pub fn encode_string_list(list: &Vec<String>) -> (r: Result<String, serde_json::Error>)
    ensures
        r is Ok,
        r matches Ok(s) ==> s@ == json_of_strings(list.deep_view()),
{
    serde_json::to_string(list)
}

/// `serde_json::from_str::<serde_json::Value>`: succeeds exactly on the texts
/// that `serde_json` accepts, giving the document they denote (named).
#[verifier::external_body]
pub fn parse_json_value(text: &str) -> (r: Result<serde_json::Value, serde_json::Error>)
    ensures
        r is Ok <==> json_accepts(text@),
        r matches Ok(v) ==> v == json_value_of(text@),
{
    serde_json::from_str::<serde_json::Value>(text)
}

/// `serde_json::to_string` on a JSON document. A `Value`'s map keys are
/// strings and writing into an in-memory buffer cannot fail, so the result is
/// always `Ok`; the text is named. That it reads back as the same document is
/// not stated: serde_json refuses documents nested more than 128 deep, and
/// some floats do not read back exactly.
#[verifier::external_body]
pub fn encode_json_value(v: &serde_json::Value) -> (r: Result<String, serde_json::Error>)
    ensures
        r is Ok,
        r matches Ok(s) ==> s@ == json_text_of(*v),
{
    serde_json::to_string(v)
}

/// The `Display` text of a `serde_json` error; its wording is not stated.
#[verifier::external_body]
pub fn json_error_text(e: &serde_json::Error) -> (s: String) {
    e.to_string()
}

} // verus!
