//! How JavaScript reads JSON values: what counts as true, and what text a value is.

use crate::json;
use crate::json::{Json, Number, Tree};
use crate::numbers;
use crate::text;
use vstd::prelude::*;

verus! {

/// Whether JavaScript takes the value for true.
pub open spec fn truthy(t: Tree) -> bool {
    match t {
        Tree::Null => false,
        Tree::Bool(b) => b,
        Tree::Number(Number::Pos(n)) => n != 0,
        Tree::Number(Number::Neg(n)) => n != 0,
        Tree::Float(b, _) => numbers::magnitude(b) != 0,
        Tree::Text(s) => s.len() > 0,
        Tree::Array(_) => true,
        Tree::Object(_) => true,
    }
}

/// Whether JavaScript takes the value for true.
pub fn js_truthy(value: &Json) -> (r: bool)
    ensures
        r == truthy(value@),
{
    match value {
        Json::Null => false,
        Json::Bool(b) => *b,
        Json::Number(Number::Pos(n)) => *n != 0,
        Json::Number(Number::Neg(n)) => *n != 0,
        Json::Float(d) => d.bits != 0 && d.bits != 0x8000_0000_0000_0000,
        Json::Text(s) => !s.as_str().is_empty(),
        Json::Array(_) => true,
        Json::Object(_) => true,
    }
}

/// `value || default`.
pub open spec fn or_default(o: Option<Tree>, d: Tree) -> Tree {
    match o {
        Some(t) => if truthy(t) {
            t
        } else {
            d
        },
        None => d,
    }
}

/// `value || default`.
pub fn js_or_value(value: Option<&Json>, default: Json) -> (r: Json)
    ensures
        r@ == or_default(json::tree_opt(value), default@),
{
    match value {
        Some(v) => if js_truthy(v) {
            v.copy()
        } else {
            default
        },
        None => default,
    }
}

/// `value ?? default`.
pub open spec fn coalesced(o: Option<Tree>, d: Tree) -> Tree {
    match o {
        Some(Tree::Null) => d,
        Some(t) => t,
        None => d,
    }
}

/// `value ?? default`.
pub fn coalesce_non_null(value: Option<&Json>, default: Json) -> (r: Json)
    ensures
        r@ == coalesced(json::tree_opt(value), default@),
{
    match value {
        Some(v) => if v.is_null() {
            default
        } else {
            v.copy()
        },
        None => default,
    }
}

/// A whole number in decimal.
pub open spec fn number_text(n: Number) -> Seq<char> {
    match n {
        Number::Pos(x) => text::decimal(x as nat),
        Number::Neg(x) => if x < 0 {
            "-"@ + text::decimal((-x) as nat)
        } else {
            text::decimal(x as nat)
        },
    }
}

/// A whole number in decimal.
pub fn number_string(n: Number) -> (r: String)
    ensures
        r@ == number_text(n),
{
    match n {
        Number::Pos(x) => text::decimal_text(x as u128),
        Number::Neg(x) => {
            let w: i128 = x as i128;
            if w < 0 {
                text::join2("-", &text::decimal_text((-w) as u128))
            } else {
                text::decimal_text(w as u128)
            }
        },
    }
}

/// The text that JavaScript makes of the value.
pub open spec fn js_text(t: Tree) -> Seq<char>
    decreases t,
{
    match t {
        Tree::Null => "null"@,
        Tree::Bool(b) => if b {
            "true"@
        } else {
            "false"@
        },
        Tree::Number(n) => number_text(n),
        Tree::Float(_, s) => s,
        Tree::Text(s) => s,
        Tree::Array(a) => text::joined(item_texts(a), ","@),
        Tree::Object(_) => "[object Object]"@,
    }
}

/// The texts of the items of an array; `null` has none.
pub open spec fn item_texts(a: Seq<Tree>) -> Seq<Seq<char>>
    decreases a,
{
    if a.len() == 0 {
        Seq::empty()
    } else {
        item_texts(a.drop_last()).push(
            if a.last() is Null {
                Seq::empty()
            } else {
                js_text(a.last())
            },
        )
    }
}

/// The text that JavaScript makes of the value.
pub fn js_string(value: &Json) -> (r: String)
    ensures
        r@ == js_text(value@),
    decreases value, 1int,
{
    match value {
        Json::Null => "null".to_owned(),
        Json::Bool(b) => if *b {
            "true".to_owned()
        } else {
            "false".to_owned()
        },
        Json::Number(n) => number_string(*n),
        Json::Float(d) => d.text.clone(),
        Json::Text(s) => s.clone(),
        Json::Array(values) => {
            assert(value@->Array_0 =~= json::trees(values@));
            js_array_to_string(values)
        },
        Json::Object(_) => "[object Object]".to_owned(),
    }
}

/// The text that JavaScript makes of an array.
pub fn js_array_to_string(values: &Vec<Json>) -> (r: String)
    ensures
        r@ == text::joined(item_texts(json::trees(values@)), ","@),
    decreases values, 0int,
{
    let mut parts: Vec<String> = Vec::new();
    let mut i: usize = 0;
    let ghost a = json::trees(values@);
    assert(json::texts(parts@) =~= item_texts(a.take(0)));
    while i < values.len()
        invariant
            a == json::trees(values@),
            i <= values@.len(),
            json::texts(parts@) == item_texts(a.take(i as int)),
        decreases values@.len() - i,
    {
        let ghost before = parts@;
        assert(a.take(i as int + 1).drop_last() =~= a.take(i as int));
        assert(decreases_to!(values => values@));
        assert(decreases_to!(values@ => values@[i as int]));
        let part = if values[i].is_null() {
            String::new()
        } else {
            js_string(&values[i])
        };
        parts.push(part);
        assert(json::texts(parts@) =~= json::texts(before).push(part@));
        i += 1;
    }
    assert(a.take(a.len() as int) =~= a);
    text::join(&parts, ",")
}

} // verus!
