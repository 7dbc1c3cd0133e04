//! What the library takes from serde_json: quoting a string as a JSON
//! literal, and reading a string out of a JSON document.

use vstd::prelude::*;

verus! {

/// A lowercase hexadecimal digit.
pub open spec fn hex_digit(d: nat) -> char {
    if d == 0 { '0' } else if d == 1 { '1' } else if d == 2 { '2' } else if d == 3 { '3' }
    else if d == 4 { '4' } else if d == 5 { '5' } else if d == 6 { '6' } else if d == 7 { '7' }
    else if d == 8 { '8' } else if d == 9 { '9' } else if d == 10 { 'a' } else if d == 11 { 'b' }
    else if d == 12 { 'c' } else if d == 13 { 'd' } else if d == 14 { 'e' } else { 'f' }
}

/// How one character is written inside a JSON string: the quote and the
/// backslash escaped, backspace, tab, line feed, form feed and carriage
/// return by their short escapes, any other control character below 0x20
/// as `\u00xx`, and every other character as itself.
pub open spec fn escape_char(c: char) -> Seq<char> {
    let n = c as u32;
    if c == '"' {
        seq!['\\', '"']
    } else if c == '\\' {
        seq!['\\', '\\']
    } else if n == 8 {
        seq!['\\', 'b']
    } else if n == 9 {
        seq!['\\', 't']
    } else if n == 10 {
        seq!['\\', 'n']
    } else if n == 12 {
        seq!['\\', 'f']
    } else if n == 13 {
        seq!['\\', 'r']
    } else if n < 32 {
        seq!['\\', 'u', '0', '0', hex_digit((n / 16) as nat), hex_digit((n % 16) as nat)]
    } else {
        seq![c]
    }
}

/// The characters of `s`, each escaped.
pub open spec fn escaped(s: Seq<char>) -> Seq<char>
    decreases s.len(),
{
    if s.len() == 0 {
        Seq::empty()
    } else {
        escaped(s.drop_last()) + escape_char(s.last())
    }
}

/// The JSON string literal that stands for `s`, quotes included.
pub open spec fn json_quoted(s: Seq<char>) -> Seq<char> {
    seq!['"'] + escaped(s) + seq!['"']
}

/// The string found in the JSON document `doc` at the JSON pointer
/// `pointer`; `None` where `doc` is no JSON document, or where nothing, or
/// something other than a string, stands there.
pub uninterp spec fn json_string_at(doc: Seq<u8>, pointer: Seq<char>) -> Option<Seq<char>>;

pub open spec fn string_opt_view(o: Option<String>) -> Option<Seq<char>> {
    match o {
        Some(s) => Some(s@),
        None => None,
    }
}

/// Relies on `serde_json::to_string` on a `str`: it writes the text between
/// quotes, escaped by serde_json's table of escapes, which `escape_char`
/// states. Writing a `str` into a `String` does not fail.
#[verifier::external_body]
pub(crate) fn quote(s: &str) -> (r: String)
    ensures
        r@ == json_quoted(s@),
{
    serde_json::to_string(s).unwrap_or_default()
}

/// Relies on `serde_json::from_slice` into a `serde_json::Value`, then on
/// `Value::pointer` and `Value::as_str`: the string that stands at `pointer`
/// in the document, if the bytes parse and a string stands there.
#[verifier::external_body]
pub(crate) fn string_at(doc: &Vec<u8>, pointer: &str) -> (r: Option<String>)
    ensures
        string_opt_view(r) == json_string_at(doc@, pointer@),
{
    let value: serde_json::Value = serde_json::from_slice(doc).ok()?;
    value.pointer(pointer).and_then(|v| v.as_str()).map(|s| s.to_string())
}

} // verus!
