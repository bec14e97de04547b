//! The calls that the library makes into other crates and into parts of the
//! standard library that have no specification of their own.  Each item here
//! is trusted: its contract is believed, not proved.

use colored::Colorize;
use vstd::prelude::*;
use vstd::utf8::is_ascii_chars;

use crate::formatter::models::{FieldValue, FieldView, UtcTime};
use crate::text::join;
use crate::viewer::render::{painted, Paint};

verus! {

/// `serde_json::Value`, carried through the library as an opaque value.
#[verifier::external_type_specification]
#[verifier::external_body]
pub struct ExJsonValue(serde_json::Value);

/// `serde_json::Map`, the label collection of a log entry.
#[verifier::external_type_specification]
#[verifier::external_body]
#[verifier::reject_recursive_types(K)]
#[verifier::reject_recursive_types(V)]
pub struct ExJsonMap<K, V>(serde_json::Map<K, V>);

/// The label collection of a log entry.
pub type LabelMap = serde_json::Map<String, serde_json::Value>;

/// The JSON text that `serde_json` writes (`serde_json::to_string`) for the
/// JSON value that a field value stands for (`serde_json::Value::from` of
/// its number, text, flag or bytes; a JSON field value as it is).  Distinct
/// field values may stand for the same JSON value, and then have the same
/// text: nothing here tells them apart.
pub uninterp spec fn json_text(value: FieldView) -> Seq<char>;

/// The decimal digit for a number below ten.
pub open spec fn digit(d: nat) -> char {
    (48 + d) as char
}

/// The decimal digits of a natural number, without leading zeros.
pub open spec fn digits_text(n: nat) -> Seq<char>
    decreases n,
{
    if n < 10 {
        seq![digit(n)]
    } else {
        digits_text(n / 10) + seq![digit(n % 10)]
    }
}

/// An integer in decimal, with a minus sign where it is negative.
pub open spec fn decimal_text(n: int) -> Seq<char> {
    if n < 0 {
        seq!['-'] + digits_text((-n) as nat)
    } else {
        digits_text(n as nat)
    }
}

/// The digits of a natural number start with a digit.
proof fn lemma_digits_start(n: nat)
    ensures
        digits_text(n).len() > 0,
        '0' <= digits_text(n)[0] <= '9',
    decreases n,
{
    if n >= 10 {
        lemma_digits_start(n / 10);
    }
}

/// An integer in decimal starts with a minus sign exactly where it is
/// negative; so a negative signed field value never has the JSON text of an
/// unsigned one.
pub proof fn lemma_decimal_sign(n: int, signed: i64, unsigned: u64)
    ensures
        decimal_text(n).len() > 0,
        (decimal_text(n)[0] == '-') == (n < 0),
        signed < 0 ==> known_json_text(FieldView::I64(signed)) != known_json_text(
            FieldView::U64(unsigned),
        ),
{
    if n < 0 {
        lemma_digits_start((-n) as nat);
    } else {
        lemma_digits_start(n as nat);
    }
    lemma_digits_start(unsigned as nat);
    lemma_digits_start((-signed) as nat);
}

/// Whether JSON writes a text between double quotes as it is: it holds no
/// double quote, no backslash and no control character below U+0020.
pub open spec fn json_plain_text(text: Seq<char>) -> bool {
    forall|i: int|
        0 <= i < text.len() ==> (#[trigger] text[i]) != '"' && text[i] != '\\' && (text[i] as u32)
            >= 0x20
}

/// The JSON text of a field value, where it is short to state: a number in
/// decimal (with its sign), `true` or `false`, bytes as an array of decimal
/// numbers separated by commas, a text that needs no escapes between double
/// quotes.  `None` for a text that needs escapes and for a JSON value.
pub open spec fn known_json_text(value: FieldView) -> Option<Seq<char>> {
    match value {
        FieldView::I64(n) => Some(decimal_text(n as int)),
        FieldView::U64(n) => Some(decimal_text(n as int)),
        FieldView::Bool(b) => Some(
            if b {
                seq!['t', 'r', 'u', 'e']
            } else {
                seq!['f', 'a', 'l', 's', 'e']
            },
        ),
        FieldView::Bytes(bytes) => Some(
            seq!['['] + join(bytes.map_values(|b: u8| decimal_text(b as int)), seq![','])
                + seq![']'],
        ),
        FieldView::Str(text) => if json_plain_text(text) {
            Some(seq!['"'] + text + seq!['"'])
        } else {
            None
        },
        FieldView::Json(_) => None,
    }
}

/// What a label collection holds: each key with the JSON text of the value
/// stored under it.
pub uninterp spec fn label_contents(labels: LabelMap) -> Map<Seq<char>, Seq<char>>;

/// `serde_json::Map::new`: a map with no entries.
#[verifier::external_body]
pub(crate) fn new_label_map() -> (fresh: LabelMap)
    ensures
        label_contents(fresh).dom().is_empty(),
{
    serde_json::Map::new()
}

/// `serde_json::Map::insert`: after the call the key maps to the JSON value
/// that the field value stands for, whether or not the key was present
/// before; every other key keeps its value.  Where the JSON text of that
/// value is short to state (`known_json_text`), the contract states it:
/// serde_json writes integers in decimal with their sign (`itoa`), `true`
/// and `false`, a byte vector as an array of numbers with commas and no
/// spaces, and a text that needs no escape between double quotes.
#[verifier::external_body]
pub(crate) fn insert_label(
    labels: &mut LabelMap,
    key: String,
    value: FieldValue,
)
    ensures
        label_contents(*final(labels)) == label_contents(*old(labels)).insert(key@, json_text(value@)),
        known_json_text(value@) is Some ==> label_contents(*final(labels))[key@] == known_json_text(
            value@,
        )->0,
{
    let json = match value {
        FieldValue::I64(v) => serde_json::Value::from(v),
        FieldValue::U64(v) => serde_json::Value::from(v),
        FieldValue::Str(v) => serde_json::Value::String(v),
        FieldValue::Bool(v) => serde_json::Value::Bool(v),
        FieldValue::Bytes(v) => serde_json::Value::from(v),
        FieldValue::Json(v) => v,
    };
    labels.insert(key, json);
}

/// The upper-case form of a text, as `str::to_uppercase` computes it
/// (Unicode case mapping, character by character).
pub uninterp spec fn spec_to_uppercase(text: Seq<char>) -> Seq<char>;

/// A character in upper case where it is an ASCII lower-case letter, and
/// unchanged otherwise.
pub open spec fn ascii_upper(c: char) -> char {
    if 'a' <= c <= 'z' {
        ((c as u32) - 32) as char
    } else {
        c
    }
}

/// `str::to_uppercase`.  The contract names the result, and states it where
/// the text is ASCII: each lower-case letter becomes its upper-case letter and
/// every other character stays.
#[verifier::external_body]
pub(crate) fn to_uppercase(text: &str) -> (upper: String)
    ensures
        upper@ == spec_to_uppercase(text@),
        is_ascii_chars(text@) ==> upper@ == text@.map_values(|c: char| ascii_upper(c)),
{
    text.to_uppercase()
}

/// `Colorize::color` followed by `Display` of the colored string.  Whether
/// `colored` writes escape sequences depends on the environment and on
/// whether standard output is a terminal, so the contract states what holds
/// either way: the text comes back unchanged, or wrapped in the escape
/// sequence that selects the foreground color and the one that resets it,
/// with the color selected again after each reset that the text already
/// holds.
#[verifier::external_body]
pub(crate) fn paint(text: &str, color: Paint) -> (shown: String)
    ensures
        shown@ == text@ || shown@ == painted(text@, color),
{
    let color = match color {
        Paint::White => colored::Color::White,
        Paint::Yellow => colored::Color::Yellow,
        Paint::Cyan => colored::Color::Cyan,
        Paint::Magenta => colored::Color::Magenta,
        Paint::Red => colored::Color::Red,
    };
    text.color(color).to_string()
}

/// The millisecond-precision RFC 3339 form (with `Z` for UTC) of a
/// timestamp given in RFC 3339 form, or `None` where the text is not a valid
/// RFC 3339 timestamp: what `DateTime::parse_from_rfc3339` followed by
/// `to_rfc3339_opts(SecondsFormat::Millis, true)` computes.
pub uninterp spec fn spec_rfc3339_millis(text: Seq<char>) -> Option<Seq<char>>;

/// `chrono::DateTime::parse_from_rfc3339`, then
/// `DateTime::to_rfc3339_opts(SecondsFormat::Millis, true)` on what it
/// parsed.  The two calls share one item because the parsed
/// `DateTime<FixedOffset>` cannot be declared to Verus (its parameter is
/// bound by a trait of `chrono`).  The contract names the result as a
/// function of the text.
#[verifier::external_body]
pub(crate) fn rfc3339_millis(text: &str) -> (millis: Option<String>)
    ensures
        millis is Some <==> spec_rfc3339_millis(text@) is Some,
        millis matches Some(m) ==> m@ == spec_rfc3339_millis(text@)->0,
{
    match chrono::DateTime::parse_from_rfc3339(text) {
        Ok(parsed) => Some(parsed.to_rfc3339_opts(chrono::SecondsFormat::Millis, true)),
        Err(_) => None,
    }
}

/// How far a text is from being one JSON value.
#[derive(Clone, Copy, Debug, PartialEq, Eq, Structural)]
pub enum JsonStatus {
    /// The text is one complete JSON value.
    Complete,
    /// The text ends before the value does: more text could complete it.
    Incomplete,
    /// The text holds an error that no further text can mend.
    Invalid,
}

/// How `serde_json::from_str` into a `serde_json::Value` judges a text:
/// success, an error at the end of the input, or any other error.
pub uninterp spec fn spec_json_status(text: Seq<char>) -> JsonStatus;

/// `serde_json::from_str::<serde_json::Value>`, keeping only whether it
/// succeeded and, where it failed, whether the error is one at the end of
/// the input (`serde_json::Error::is_eof`).  The contract names the answer
/// as a function of the text.
#[verifier::external_body]
pub(crate) fn json_status(text: &str) -> (status: JsonStatus)
    ensures
        status == spec_json_status(text@),
{
    match serde_json::from_str::<serde_json::Value>(text) {
        Ok(_) => JsonStatus::Complete,
        Err(e) => if e.is_eof() {
            JsonStatus::Incomplete
        } else {
            JsonStatus::Invalid
        },
    }
}

/// The millisecond-precision RFC 3339 form (with `Z`) of the UTC time that
/// lies the given seconds and nanoseconds after the Unix epoch, or `None`
/// where chrono has no such time: what `DateTime::from_timestamp` followed
/// by `to_rfc3339_opts(SecondsFormat::Millis, true)` computes.
pub uninterp spec fn spec_utc_millis(seconds: i64, nanoseconds: u32) -> Option<Seq<char>>;

/// `chrono::DateTime::from_timestamp`, then
/// `DateTime::to_rfc3339_opts(SecondsFormat::Millis, true)` on the time it
/// made.  The contract names the result as a function of the two numbers.
#[verifier::external_body]
pub(crate) fn utc_millis(time: UtcTime) -> (millis: Option<String>)
    ensures
        millis is Some <==> spec_utc_millis(time.seconds, time.nanoseconds) is Some,
        millis matches Some(m) ==> m@ == spec_utc_millis(time.seconds, time.nanoseconds)->0,
{
    match chrono::DateTime::from_timestamp(time.seconds, time.nanoseconds) {
        Some(t) => Some(t.to_rfc3339_opts(chrono::SecondsFormat::Millis, true)),
        None => None,
    }
}

} // verus!
