//! The pieces of JSON that the web interface reads and writes.

use vstd::prelude::*;

verus! {

pub const HEX_DIGITS: [char; 16] = [
    '0',
    '1',
    '2',
    '3',
    '4',
    '5',
    '6',
    '7',
    '8',
    '9',
    'a',
    'b',
    'c',
    'd',
    'e',
    'f',
];

/// A character as it stands in a JSON string.
pub open spec fn escaped(c: char) -> Seq<char> {
    let u = c as int;
    if c == '"' || c == '\\' {
        seq!['\\', c]
    } else if u == 8 {
        seq!['\\', 'b']
    } else if u == 9 {
        seq!['\\', 't']
    } else if u == 10 {
        seq!['\\', 'n']
    } else if u == 12 {
        seq!['\\', 'f']
    } else if u == 13 {
        seq!['\\', 'r']
    } else if u < 32 {
        seq!['\\', 'u', '0', '0', HEX_DIGITS@[u / 16], HEX_DIGITS@[u % 16]]
    } else {
        seq![c]
    }
}

/// The characters of a text as they stand in a JSON string.
pub open spec fn all_escaped(s: Seq<char>) -> Seq<char>
    decreases s.len(),
{
    if s.len() == 0 {
        s
    } else {
        all_escaped(s.drop_last()) + escaped(s.last())
    }
}

/// A text as a JSON string.
pub open spec fn json_string(s: Seq<char>) -> Seq<char> {
    "\""@ + all_escaped(s) + "\""@
}

/// Calls `serde_json::to_string` on a string, which never fails: quotes stand around the text,
/// in which quotes, backslashes and control characters are escaped.
#[verifier::external_body]
pub(crate) fn quote_json(s: &str) -> (r: String)
    ensures
        r@ == json_string(s@),
{
    serde_json::to_string(s).unwrap_or_default()
}

/// What the member of a JSON object is, where the text is such an object and the member a string.
pub uninterp spec fn text_member(json: Seq<char>, key: Seq<char>) -> Option<Seq<char>>;

/// What the member of a JSON object is, where the text is such an object and the member a whole
/// number of 64 bits.
pub uninterp spec fn int_member(json: Seq<char>, key: Seq<char>) -> Option<i64>;

/// Calls `serde_json::from_str`, `Value::get` and `Value::as_str`: the text decides what comes
/// out, and nothing more is claimed of it.
#[verifier::external_body]
pub(crate) fn get_text(json: &str, key: &str) -> (r: Option<String>)
    ensures
        crate::text::opt(r) == text_member(json@, key@),
{
    let v: serde_json::Value = serde_json::from_str(json).ok()?;
    v.get(key)?.as_str().map(String::from)
}

/// Calls `serde_json::from_str`, `Value::get` and `Value::as_i64`: the text decides what comes
/// out, and nothing more is claimed of it.
#[verifier::external_body]
pub(crate) fn get_int(json: &str, key: &str) -> (r: Option<i64>)
    ensures
        r == int_member(json@, key@),
{
    let v: serde_json::Value = serde_json::from_str(json).ok()?;
    v.get(key)?.as_i64()
}

/// The text of a member, or nothing where there is none.
pub open spec fn member_or_empty(json: Seq<char>, key: Seq<char>) -> Seq<char> {
    match text_member(json, key) {
        Some(s) => s,
        None => Seq::<char>::empty(),
    }
}

/// The text of a member, or nothing where there is none.
pub fn member(json: &str, key: &str) -> (r: String)
    ensures
        r@ == member_or_empty(json@, key@),
{
    match get_text(json, key) {
        Some(s) => s,
        None => String::new(),
    }
}

/// The number of a member, or zero where there is none.
pub fn index_member(json: &str, key: &str) -> (r: i64)
    ensures
        r == (match int_member(json@, key@) {
            Some(v) => v,
            None => 0,
        }),
{
    match get_int(json, key) {
        Some(v) => v,
        None => 0,
    }
}

} // verus!
