//! How JavaScript makes numbers of JSON values. A number is a double, by its bits.

use crate::json::{Json, Tree};
use crate::numbers;
use crate::numbers::TextNumber;
use crate::text;
use vstd::prelude::*;

verus! {

/// Infinity.
pub const INFINITY: u64 = 0x7FF0_0000_0000_0000;

/// A double with the sign.
pub open spec fn signed(negative: bool, b: u64) -> u64 {
    if negative && b < 0x8000_0000_0000_0000 {
        (b + 0x8000_0000_0000_0000) as u64
    } else {
        b
    }
}

/// A text without its sign, and whether that is a minus.
pub open spec fn unsigned(s: Seq<char>) -> (bool, Seq<char>) {
    if s.len() > 0 && s[0] == '-' {
        (true, s.skip(1))
    } else if s.len() > 0 && s[0] == '+' {
        (false, s.skip(1))
    } else {
        (false, s)
    }
}

/// The base that a text says by a zero and a letter at its start.
pub open spec fn base_of(s: Seq<char>) -> Option<nat> {
    if s.len() < 2 || s[0] != '0' {
        None
    } else if s[1] == 'x' || s[1] == 'X' {
        Some(16)
    } else if s[1] == 'o' || s[1] == 'O' {
        Some(8)
    } else if s[1] == 'b' || s[1] == 'B' {
        Some(2)
    } else {
        None
    }
}

/// The number that JavaScript makes of a text: zero of one without anything but whitespace;
/// a whole number in the base that it says; infinity by its name; otherwise what the table
/// gives for it.
pub open spec fn text_number(raw: Seq<char>, table: Seq<TextNumber>) -> Option<u64> {
    let t = text::trimmed(raw);
    let (negative, digits) = unsigned(t);
    if t.len() == 0 {
        Some(numbers::ZERO)
    } else {
        match base_of(digits) {
            Some(radix) => match numbers::radix_value(digits.skip(2), radix) {
                Some(v) => Some(signed(negative, numbers::double_bits(v as nat) as u64)),
                None => None,
            },
            None => if text::ascii_lower(digits) == "infinity"@ {
                Some(signed(negative, INFINITY))
            } else {
                match numbers::number_from(table, t, 0) {
                    Some(n) => numbers::double_value(n),
                    None => None,
                }
            },
        }
    }
}

/// The number that JavaScript makes of a value.
pub open spec fn number_of(t: Tree, table: Seq<TextNumber>) -> Option<u64> {
    match t {
        Tree::Text(s) => text_number(s, table),
        Tree::Bool(b) => Some(
            if b {
                numbers::ONE
            } else {
                numbers::ZERO
            },
        ),
        _ => numbers::double_value(t),
    }
}

fn with_sign(negative: bool, b: u64) -> (r: u64)
    ensures
        r == signed(negative, b),
{
    if negative && b < 0x8000_0000_0000_0000 {
        b + 0x8000_0000_0000_0000
    } else {
        b
    }
}

/// The number that JavaScript makes of a text. `table` gives the numbers that decimal texts
/// stand for.
pub fn parse_js_number_string(raw: &str, table: &Vec<TextNumber>) -> (r: Option<u64>)
    ensures
        r == text_number(raw@, table@),
{
    let t = text::trim(raw);
    if t.as_str().is_empty() {
        return Some(numbers::ZERO);
    }
    let a = text::chars_of(&t);
    let negative = a[0] == '-';
    let from: usize = if negative || a[0] == '+' {
        1
    } else {
        0
    };
    let ghost digits = a@.skip(from as int);
    assert(from == 0 ==> digits =~= a@);
    let n: usize = a.len() - from;
    let mut radix: u32 = 0;
    if n >= 2 && a[from] == '0' {
        let c = a[from + 1];
        if c == 'x' || c == 'X' {
            radix = 16;
        } else if c == 'o' || c == 'O' {
            radix = 8;
        } else if c == 'b' || c == 'B' {
            radix = 2;
        }
    }
    if radix > 0 {
        assert(digits.skip(2) =~= a@.subrange(from + 2, a@.len() as int));
        let rest = text::slice_text(&a, from + 2, a.len());
        return match numbers::parse_radix(&rest, radix) {
            Some(v) => Some(with_sign(negative, numbers::double_of(v))),
            None => None,
        };
    }
    assert(digits =~= a@.subrange(from as int, a@.len() as int));
    let word = text::slice_text(&a, from, a.len());
    if text::same(&text::to_ascii_lowercase(&word), "infinity") {
        return Some(with_sign(negative, INFINITY));
    }
    match numbers::find_number(table, &t) {
        Some(j) => numbers::double_at(&j),
        None => None,
    }
}

/// The number that JavaScript makes of a value.
pub fn parse_js_number(value: &Json, table: &Vec<TextNumber>) -> (r: Option<u64>)
    ensures
        r == number_of(value@, table@),
{
    match value {
        Json::Text(s) => parse_js_number_string(s, table),
        Json::Bool(b) => Some(
            if *b {
                numbers::ONE
            } else {
                numbers::ZERO
            },
        ),
        _ => numbers::double_at(value),
    }
}

/// The 32 bits that JavaScript's bit operations read off a double.
pub fn js_to_int32(value: u64) -> (r: u32)
    ensures
        r == numbers::as_int32(value),
{
    numbers::double_to_int32(value)
}

} // verus!
