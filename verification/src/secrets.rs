//! The secrets that a user keeps for other services.

use crate::json;
use crate::json::Json;
use vstd::prelude::*;

verus! {

/// The position of the first active item at or after `i`; the number of items where there
/// is none.
pub open spec fn first_active(items: Seq<json::Tree>, i: int) -> int
    decreases items.len() - i,
{
    if i >= items.len() {
        items.len() as int
    } else if items[i].flag_at("active"@) == Some(true) {
        i
    } else {
        first_active(items, i + 1)
    }
}

/// The secret under `key`: a text, or of a list the value of its first active item, or of
/// its first item where none is active.
pub open spec fn secret(secrets: Option<json::Tree>, key: Seq<char>) -> Option<Seq<char>> {
    match secrets {
        Some(t) => match t.get(key) {
            Some(json::Tree::Array(a)) => {
                let p = first_active(a, 0);
                if 0 <= p < a.len() {
                    a[p].text_at("value"@)
                } else if a.len() > 0 {
                    a[0].text_at("value"@)
                } else {
                    None
                }
            },
            Some(json::Tree::Text(s)) => Some(s),
            _ => None,
        },
        None => None,
    }
}

/// The secret under `key` of the secrets file, which is absent where it cannot be read or
/// is no object.
pub fn read_secret(secrets: Option<&Json>, key: &str) -> (r: Option<String>)
    ensures
        json::string_opt(r) == secret(json::tree_opt(secrets), key@),
{
    let entry = match secrets {
        Some(j) => j.get(key),
        None => None,
    };
    match entry {
        Some(e) => match e {
            Json::Text(s) => Some(s.clone()),
            _ => match e.as_array() {
                Some(items) => active_value(items),
                None => None,
            },
        },
        None => None,
    }
}

/// The value of the first active item, or of the first item where none is active.
fn active_value(items: &Vec<Json>) -> (r: Option<String>)
    ensures
        json::string_opt(r) == ({
            let a = json::trees(items@);
            let p = first_active(a, 0);
            if 0 <= p < a.len() {
                a[p].text_at("value"@)
            } else if a.len() > 0 {
                a[0].text_at("value"@)
            } else {
                None
            }
        }),
{
    let ghost a = json::trees(items@);
    let mut i: usize = 0;
    while i < items.len()
        invariant
            a == json::trees(items@),
            i <= items@.len(),
            first_active(a, 0) == first_active(a, i as int),
        decreases items@.len() - i,
    {
        assert(a[i as int] == items@[i as int]@);
        let active = match items[i].bool_at("active") {
            Some(b) => b,
            None => false,
        };
        if active {
            return value_text(&items[i]);
        }
        i += 1;
    }
    if items.len() > 0 {
        assert(a[0] == items@[0]@);
        value_text(&items[0])
    } else {
        None
    }
}

/// The text of the value of an item.
fn value_text(item: &Json) -> (r: Option<String>)
    ensures
        json::string_opt(r) == item@.text_at("value"@),
{
    match item.str_at("value") {
        Some(s) => Some(s.to_owned()),
        None => None,
    }
}

/// The secret under `key` where there is one and it is not empty.
pub open spec fn filled_secret(secrets: Option<json::Tree>, key: Seq<char>) -> Option<Seq<char>> {
    filled(secret(secrets, key))
}

/// A text where there is one and it is not empty.
pub open spec fn filled(o: Option<Seq<char>>) -> Option<Seq<char>> {
    match o {
        Some(s) => if s.len() > 0 {
            Some(s)
        } else {
            None
        },
        None => None,
    }
}

/// A text where there is one and it is not empty.
pub fn non_empty(o: &Option<String>) -> (r: Option<&str>)
    ensures
        json::text_opt(r) == filled(json::string_opt(*o)),
{
    match o {
        Some(s) => if s.as_str().is_empty() {
            None
        } else {
            Some(s.as_str())
        },
        None => None,
    }
}

/// The text, or an empty one where there is none.
pub open spec fn or_empty(o: Option<Seq<char>>) -> Seq<char> {
    match o {
        Some(s) => s,
        None => Seq::empty(),
    }
}

/// The text, or `d` where there is none.
pub open spec fn text_or(o: Option<Seq<char>>, d: Seq<char>) -> Seq<char> {
    match o {
        Some(s) => s,
        None => d,
    }
}

/// The text, or an empty one where there is none.
pub fn unwrap_or_empty(o: Option<String>) -> (r: String)
    ensures
        r@ == or_empty(json::string_opt(o)),
{
    match o {
        Some(s) => s,
        None => String::new(),
    }
}

/// A copy of the text, or of `default` where there is none.
pub fn unwrap_or(o: &Option<String>, default: &str) -> (r: String)
    ensures
        r@ == text_or(json::string_opt(*o), default@),
{
    match o {
        Some(s) => s.clone(),
        None => default.to_owned(),
    }
}

} // verus!
