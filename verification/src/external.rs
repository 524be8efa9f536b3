//! Calls into std and serde_json: lower-casing, letter classes, building a
//! string from chars, and quoting a JSON string, each with what its
//! documentation promises of the result.
use vstd::prelude::*;

verus! {

/// The text that `str::to_lowercase` gives for a text (Unicode lower case,
/// which can change the length of the text).
pub uninterp spec fn lowercase_of(s: Seq<char>) -> Seq<char>;

/// `str::to_lowercase`: its result is a function of the text alone; nothing more
/// of the Unicode case tables is stated.
#[verifier::external_body]
pub(crate) fn to_lowercase(s: &[char]) -> (r: Vec<char>)
    ensures
        r@ == lowercase_of(s@),
{
    let text: String = s.iter().collect();
    text.to_lowercase().chars().collect()
}

/// Whether a char has the Unicode `Alphabetic` or `Numeric` property.
pub uninterp spec fn alphanumeric(c: char) -> bool;

/// `char::is_alphanumeric`: its result is a function of the char alone; the
/// Unicode tables behind it are not stated.
#[verifier::external_body]
pub(crate) fn is_alphanumeric(c: char) -> (b: bool)
    ensures
        b == alphanumeric(c),
{
    c.is_alphanumeric()
}

pub open spec fn opt_chars(r: Option<Vec<char>>) -> Option<Seq<char>> {
    match r {
        Some(v) => Some(v@),
        None => None,
    }
}

/// `String: FromIterator<char>`: the string holds exactly the given chars.
#[verifier::external_body]
pub(crate) fn string_of(t: &[char]) -> (s: String)
    ensures
        s@ == t@,
{
    t.iter().collect()
}

/// A hexadecimal digit in lower case, for `d` in `0..16`.
pub open spec fn hex_digit(d: int) -> char {
    if d < 10 {
        ((48 + d) as u8) as char
    } else {
        ((87 + d) as u8) as char
    }
}

/// One char inside a JSON string as serde_json writes it: `"` and `\` and the
/// control chars below U+0020 escaped (the common ones by letter, the others
/// as `\u00XX`), every other char as it is.
pub open spec fn json_char(c: char) -> Seq<char> {
    if c == '"' {
        seq!['\\', '"']
    } else if c == '\\' {
        seq!['\\', '\\']
    } else if c == '\u{8}' {
        seq!['\\', 'b']
    } else if c == '\u{c}' {
        seq!['\\', 'f']
    } else if c == '\n' {
        seq!['\\', 'n']
    } else if c == '\r' {
        seq!['\\', 'r']
    } else if c == '\t' {
        seq!['\\', 't']
    } else if (c as int) < 32 {
        seq!['\\', 'u', '0', '0', hex_digit(c as int / 16), hex_digit(c as int % 16)]
    } else {
        seq![c]
    }
}

/// The chars of a text, each escaped as in a JSON string.
pub open spec fn json_escaped(s: Seq<char>) -> Seq<char>
    decreases s.len(),
{
    if s.len() == 0 {
        Seq::empty()
    } else {
        json_escaped(s.drop_last()) + json_char(s.last())
    }
}

/// A text as a JSON string literal.
pub open spec fn json_string(s: Seq<char>) -> Seq<char> {
    seq!['"'] + json_escaped(s) + seq!['"']
}

/// `serde_json::to_string` on a string: the string in double quotes, escaped as
/// `json_char` says (serde_json's `format_escaped_str`). Serialising a `str`
/// into memory does not fail, so the fallback of the error arm is never taken.
#[verifier::external_body]
pub(crate) fn json_quote(s: &[char]) -> (r: Vec<char>)
    ensures
        r@ == json_string(s@),
{
    let text: String = s.iter().collect();
    match serde_json::to_string(&text) {
        Ok(quoted) => quoted.chars().collect(),
        Err(_) => vec!['"', '"'],
    }
}

} // verus!
