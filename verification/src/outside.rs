//! Everything the library believes about code it does not verify.
//!
//! Each item here makes one outside computation available and states what is
//! taken for granted about it.

use vstd::prelude::*;

use crate::number;
use crate::text;

verus! {

// ── Standard library ─────────────────────────────────────────

/// `String::push` appends one character at the end.
pub assume_specification[ String::push ](s: &mut String, c: char)
    ensures
        final(s)@ == old(s)@.push(c),
;

/// What `str::to_lowercase` makes of a text.
pub uninterp spec fn lowercase(s: Seq<char>) -> Seq<char>;

/// `str::to_lowercase` is a function of the characters of the text.
pub assume_specification[ str::to_lowercase ](s: &str) -> (r: String)
    ensures
        r@ == lowercase(s@),
;

/// What `char::is_alphanumeric` says of a character.
pub uninterp spec fn alphanumeric(c: char) -> bool;

/// `char::is_alphanumeric` is a function of the character.
pub assume_specification[ char::is_alphanumeric ](c: char) -> (b: bool)
    ensures
        b == alphanumeric(c),
;

/// A reading of the monotonic clock.
#[verifier::external_type_specification]
#[verifier::external_body]
pub struct ExInstant(std::time::Instant);

/// `Instant::now` reads the clock.
#[verifier::external_body]
pub(crate) fn clock_now() -> (r: std::time::Instant) {
    std::time::Instant::now()
}

/// `Instant::elapsed` reads the clock again. Of the number of milliseconds since
/// the first reading nothing is claimed.
#[verifier::external_body]
pub(crate) fn clock_millis_since(start: &std::time::Instant) -> (r: u64) {
    start.elapsed().as_millis() as u64
}

// ── chrono ───────────────────────────────────────────────────

/// What `DateTime::to_rfc3339` writes for the instant in UTC.
pub uninterp spec fn rfc3339(seconds: i64, nanos: u32) -> Seq<char>;

/// `DateTime::from_timestamp` gives an instant for these parts, and `to_rfc3339`
/// writes it as a function of the parts.
#[verifier::external_body]
pub(crate) fn instant_text(seconds: i64, nanos: u32) -> (r: String)
    requires
        number::is_instant(seconds, nanos),
    ensures
        r@ == rfc3339(seconds, nanos),
{
    chrono::DateTime::from_timestamp(seconds, nanos).unwrap().to_rfc3339()
}

/// What `NaiveDateTime::parse_from_str` reads from `text` in the notation `layout`,
/// taken as UTC: seconds since the epoch and nanoseconds behind the second.
pub uninterp spec fn instant_read(text: Seq<char>, layout: Seq<char>) -> Option<(i64, u32)>;

/// `NaiveDateTime::parse_from_str` is a function of the text and the notation, and
/// what it reads is an instant of the calendar.
#[verifier::external_body]
pub(crate) fn parse_instant(text: &str, layout: &str) -> (r: Option<(i64, u32)>)
    ensures
        r == instant_read(text@, layout@),
        r matches Some(p) ==> number::is_instant(p.0, p.1),
{
    chrono::NaiveDateTime::parse_from_str(text, layout)
        .ok()
        .map(|dt| (dt.and_utc().timestamp(), dt.and_utc().timestamp_subsec_nanos()))
}

// ── regex ────────────────────────────────────────────────────

/// Whether `Regex::new` accepts the pattern. It rejects what does not parse and what
/// compiles to more than its size limit of 10 MiB. Sizes are in bytes of memory, so
/// that for a pattern close to the limit this also depends on the width of a pointer;
/// the name stands for one such width.
pub uninterp spec fn regex_valid(pattern: Seq<char>) -> bool;

/// Whether `Regex::is_match` finds the pattern anywhere in the text.
pub uninterp spec fn regex_found(pattern: Seq<char>, text: Seq<char>) -> bool;

/// `Regex::new` accepts or rejects a pattern by its text alone, and
/// `Regex::is_match` on what it accepted is a function of the pattern and the text.
#[verifier::external_body]
pub(crate) fn regex_search(pattern: &str, text: &str) -> (r: Option<bool>)
    ensures
        r is Some <==> regex_valid(pattern@),
        r matches Some(found) ==> found == regex_found(pattern@, text@),
{
    regex::Regex::new(pattern).ok().map(|re| re.is_match(text))
}

// ── serde_json ───────────────────────────────────────────────

/// What `serde_json::to_string` writes for a list of strings.
pub uninterp spec fn json_list_text(list: Seq<Seq<char>>) -> Seq<char>;

/// What `serde_json::from_str` reads from a text as a list of strings, or what its
/// error says.
pub uninterp spec fn json_list_read(text: Seq<char>) -> Result<Seq<Seq<char>>, Seq<char>>;

/// `serde_json::to_string` writes a list of strings as a function of the strings,
/// and `serde_json::from_str` reads the same list back from what it wrote.
#[verifier::external_body]
pub(crate) fn write_json_list(list: &Vec<String>) -> (r: String)
    ensures
        r@ == json_list_text(text::strings(list@)),
        json_list_read(r@) is Ok && json_list_read(r@)->Ok_0 == text::strings(list@),
{
    serde_json::to_string(list).unwrap()
}

/// `serde_json::from_str` reads a list of strings, or says why it cannot, as a
/// function of the text.
#[verifier::external_body]
pub(crate) fn read_json_list(text: &str) -> (r: Result<Vec<String>, String>)
    ensures
        r is Ok <==> json_list_read(text@) is Ok,
        r matches Ok(list) ==> text::strings(list@) == json_list_read(text@)->Ok_0,
        r matches Err(e) ==> e@ == json_list_read(text@)->Err_0,
{
    serde_json::from_str(text).map_err(|e| e.to_string())
}

/// The text that `Value::as_str` gives for a field of a JSON object.
pub uninterp spec fn json_text_field(json: Seq<char>, field: Seq<char>) -> Option<Seq<char>>;

/// `serde_json::from_str`, `Value::get` and `Value::as_str` give the text of a
/// field, if there is one, as a function of the JSON text and the name.
#[verifier::external_body]
pub(crate) fn json_str(json: &str, field: &str) -> (r: Option<String>)
    ensures
        text::opt_text(r) == json_text_field(json@, field@),
{
    let value: Option<serde_json::Value> = serde_json::from_str(json).ok();
    value.as_ref().and_then(|v| v.get(field)).and_then(|v| v.as_str()).map(String::from)
}

/// The number that `Value::as_u64` gives for a field of a JSON object.
pub uninterp spec fn json_count_field(json: Seq<char>, field: Seq<char>) -> Option<u64>;

/// `serde_json::from_str`, `Value::get` and `Value::as_u64` give the count in a
/// field, if there is one, as a function of the JSON text and the name.
#[verifier::external_body]
pub(crate) fn json_u64(json: &str, field: &str) -> (r: Option<u64>)
    ensures
        r == json_count_field(json@, field@),
{
    let value: Option<serde_json::Value> = serde_json::from_str(json).ok();
    value.as_ref().and_then(|v| v.get(field)).and_then(|v| v.as_u64())
}

/// The compact JSON text that `Value::to_string` gives for a field of a JSON object.
pub uninterp spec fn json_raw_field(json: Seq<char>, field: Seq<char>) -> Option<Seq<char>>;

/// `serde_json::from_str`, `Value::get` and `Value::to_string` give a field as
/// compact JSON text, if it is there, as a function of the JSON text and the name.
#[verifier::external_body]
pub(crate) fn json_raw(json: &str, field: &str) -> (r: Option<String>)
    ensures
        text::opt_text(r) == json_raw_field(json@, field@),
{
    let value: Option<serde_json::Value> = serde_json::from_str(json).ok();
    value.as_ref().and_then(|v| v.get(field)).map(|v| v.to_string())
}

/// The texts of the elements of an array in a field of a JSON object, with nothing
/// for an element that is no text.
pub uninterp spec fn json_items_field(json: Seq<char>, field: Seq<char>) -> Option<
    Seq<Option<Seq<char>>>,
>;

/// `serde_json::from_str`, `Value::get` and `Value::as_array` give the elements of
/// an array in a field, and `Value::as_str` the text of each, as a function of the
/// JSON text and the name.
#[verifier::external_body]
pub(crate) fn json_items(json: &str, field: &str) -> (r: Option<Vec<Option<String>>>)
    ensures
        r is Some <==> json_items_field(json@, field@) is Some,
        r matches Some(v) ==> text::opt_texts(v@) == json_items_field(json@, field@)->0,
{
    let value: Option<serde_json::Value> = serde_json::from_str(json).ok();
    value
        .as_ref()
        .and_then(|v| v.get(field))
        .and_then(|v| v.as_array())
        .map(|items| items.iter().map(|v| v.as_str().map(String::from)).collect())
}

/// The compact form that `Value::to_string` gives to a JSON text.
pub uninterp spec fn json_compact_text(json: Seq<char>) -> Option<Seq<char>>;

/// `serde_json::from_str` reads any JSON value, and `Value::to_string` writes it in
/// compact form, as a function of the text.
#[verifier::external_body]
pub(crate) fn json_compact(json: &str) -> (r: Option<String>)
    ensures
        text::opt_text(r) == json_compact_text(json@),
{
    let value: Option<serde_json::Value> = serde_json::from_str(json).ok();
    value.map(|v| v.to_string())
}

/// The compact text of the JSON object that has these text fields.
pub uninterp spec fn json_object_text(names: Seq<Seq<char>>, values: Seq<Seq<char>>) -> Seq<char>;

/// `serde_json::Map` takes the fields, and `Value::to_string` writes the object in
/// compact form, as a function of the names and the texts.
#[verifier::external_body]
pub(crate) fn json_object(names: &Vec<String>, values: &Vec<String>) -> (r: String)
    requires
        names@.len() == values@.len(),
    ensures
        r@ == json_object_text(text::strings(names@), text::strings(values@)),
{
    let texts = values.iter().cloned().map(serde_json::Value::String);
    let fields: serde_json::Map<String, serde_json::Value> =
        names.iter().cloned().zip(texts).collect();
    serde_json::Value::Object(fields).to_string()
}

}
