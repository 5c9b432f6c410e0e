//! JSON text for the frames and records the relay writes.
use vstd::prelude::*;
use vstd::string::*;
use crate::text::{join, join_strings, strs};

verus! {

/// The lower-case hexadecimal digit for `d`, for `d` below sixteen.
pub open spec fn hex_lower(d: nat) -> char {
    if d == 0 {
        '0'
    } else if d == 1 {
        '1'
    } else if d == 2 {
        '2'
    } else if d == 3 {
        '3'
    } else if d == 4 {
        '4'
    } else if d == 5 {
        '5'
    } else if d == 6 {
        '6'
    } else if d == 7 {
        '7'
    } else if d == 8 {
        '8'
    } else if d == 9 {
        '9'
    } else if d == 10 {
        'a'
    } else if d == 11 {
        'b'
    } else if d == 12 {
        'c'
    } else if d == 13 {
        'd'
    } else if d == 14 {
        'e'
    } else {
        'f'
    }
}

/// How one character stands inside a JSON string: the quote, the backslash
/// and the control characters below U+0020 are escaped, all others stand
/// for themselves.
pub open spec fn json_escape(c: char) -> Seq<char> {
    if c == '"' {
        seq!['\\', '"']
    } else if c == '\\' {
        seq!['\\', '\\']
    } else if c == '\u{8}' {
        seq!['\\', 'b']
    } else if c == '\u{9}' {
        seq!['\\', 't']
    } else if c == '\u{a}' {
        seq!['\\', 'n']
    } else if c == '\u{c}' {
        seq!['\\', 'f']
    } else if c == '\u{d}' {
        seq!['\\', 'r']
    } else if (c as nat) < 0x20 {
        seq!['\\', 'u', '0', '0', hex_lower((c as nat) / 16), hex_lower((c as nat) % 16)]
    } else {
        seq![c]
    }
}

/// The escaped forms of the characters of `s`, one after the other.
pub open spec fn json_escaped(s: Seq<char>) -> Seq<char>
    decreases s.len(),
{
    if s.len() == 0 {
        Seq::empty()
    } else {
        json_escaped(s.drop_last()) + json_escape(s.last())
    }
}

/// The JSON string that holds `s`: its escaped characters between quotes.
pub open spec fn json_string(s: Seq<char>) -> Seq<char> {
    seq!['"'] + json_escaped(s) + seq!['"']
}

/// Writes `s` as a JSON string.
///
/// Stands for `serde_json::to_string` on a string slice, which cannot fail
/// there: the result is `s` between double quotes, with `"` and `\`
/// preceded by a backslash, the control characters backspace, tab, line
/// feed, form feed and carriage return written `\b \t \n \f \r`, every
/// other character below U+0020 written `\u00` and two lower-case
/// hexadecimal digits, and all other characters unchanged.
#[verifier::external_body]
pub(crate) fn quote(s: &str) -> (r: String)
    ensures
        r@ == json_string(s@),
{
    match serde_json::to_string(s) {
        Ok(text) => text,
        Err(_) => String::new(),
    }
}

/// The JSON strings of `items`, in order.
pub open spec fn json_strings(items: Seq<Seq<char>>) -> Seq<Seq<char>> {
    Seq::new(items.len(), |i: int| json_string(items[i]))
}

/// A JSON array whose elements are the given texts.
pub open spec fn json_array(elements: Seq<Seq<char>>) -> Seq<char> {
    seq!['['] + join(elements, seq![',']) + seq![']']
}

/// Writes a JSON array whose elements are the given texts.
pub fn make_array(elements: &Vec<String>) -> (r: String)
    ensures
        r@ == json_array(strs(elements@)),
{
    let mut r = String::new();
    proof {
        reveal_strlit("[");
        reveal_strlit(",");
        reveal_strlit("]");
    }
    r.append("[");
    let body = join_strings(elements, ",");
    r.append(body.as_str());
    r.append("]");
    assert(","@ =~= seq![',']);
    r
}

/// Writes each of `items` as a JSON string.
pub fn quote_all(items: &Vec<String>) -> (out: Vec<String>)
    ensures
        strs(out@) == json_strings(strs(items@)),
{
    let mut out: Vec<String> = Vec::new();
    let mut i: usize = 0;
    while i < items.len()
        invariant
            i <= items.len(),
            out@.len() == i,
            forall|j: int| 0 <= j < i ==> (#[trigger] out@[j])@ == json_string(items@[j]@),
        decreases items.len() - i,
    {
        out.push(quote(items[i].as_str()));
        i += 1;
    }
    out
}

} // verus!
