//! The placeholders for names in texts.

use crate::text;
use vstd::prelude::*;

verus! {

/// `c` as it is compared where case is ignored: small letters for capital ones, and the
/// letters that are forms of `s` and `k` for those.
pub open spec fn folded(c: char) -> char {
    if c == '\u{17F}' {
        's'
    } else if c == '\u{212A}' {
        'k'
    } else {
        text::small(c)
    }
}

/// Whether `s` has `t`, which is in small letters, at position `i`, ignoring case.
pub open spec fn has_folded(s: Seq<char>, t: Seq<char>, i: int) -> bool {
    0 <= i && i + t.len() <= s.len() && forall|j: int|
        0 <= j < t.len() ==> folded(#[trigger] s[i + j]) == t[j]
}

/// Whether the placeholder `t` stands at position `i` of `s`; where it is `open`, no closing
/// brace may follow it.
pub open spec fn stands_at(s: Seq<char>, t: Seq<char>, open: bool, i: int) -> bool {
    has_folded(s, t, i) && !(open && i + t.len() < s.len() && s[i + t.len()] == '}')
}

/// `s[from..]` with every placeholder `t`, found from left to right, replaced by `u`.
pub open spec fn filled_from(
    s: Seq<char>,
    t: Seq<char>,
    u: Seq<char>,
    open: bool,
    from: int,
) -> Seq<char>
    decreases s.len() - from,
    when 0 <= from <= s.len() && t.len() > 0
{
    if from == s.len() {
        Seq::empty()
    } else if stands_at(s, t, open, from) {
        u + filled_from(s, t, u, open, from + t.len())
    } else {
        seq![s[from]] + filled_from(s, t, u, open, from + 1)
    }
}

/// `s` with every placeholder `t` replaced by `u`.
pub open spec fn filled(s: Seq<char>, t: Seq<char>, u: Seq<char>, open: bool) -> Seq<char> {
    filled_from(s, t, u, open, 0)
}

fn is_at(s: &Vec<char>, t: &Vec<char>, open: bool, i: usize) -> (r: bool)
    ensures
        r == stands_at(s@, t@, open, i as int),
{
    if i > s.len() || t.len() > s.len() - i {
        return false;
    }
    let n: usize = s.len();
    let mut k: usize = 0;
    while k < t.len()
        invariant
            n == s@.len(),
            i + t@.len() <= n,
            k <= t@.len(),
            forall|j: int| 0 <= j < k ==> folded(#[trigger] s@[i + j]) == t@[j],
        decreases t@.len() - k,
    {
        let c = s[i + k];
        let f = if c == '\u{17F}' {
            's'
        } else if c == '\u{212A}' {
            'k'
        } else {
            text::small_char(c)
        };
        if f != t[k] {
            assert(folded(s@[i + k as int]) != t@[k as int]);
            return false;
        }
        k += 1;
    }
    let m: usize = t.len();
    !(open && i + m < n && s[i + m] == '}')
}

fn fill(s: &str, t: &str, u: &str, open: bool) -> (r: String)
    requires
        t@.len() > 0,
    ensures
        r@ == filled(s@, t@, u@, open),
{
    let a = text::chars_of(s);
    let b = text::chars_of(t);
    let mut out = String::new();
    let mut i: usize = 0;
    assert(out@ + filled_from(a@, b@, u@, open, 0) =~= filled(a@, b@, u@, open));
    while i < a.len()
        invariant
            b@.len() > 0,
            i <= a@.len(),
            out@ + filled_from(a@, b@, u@, open, i as int) == filled(a@, b@, u@, open),
        decreases a@.len() - i,
    {
        let ghost before = out@;
        if is_at(&a, &b, open, i) {
            out.push_str(u);
            assert(out@ + filled_from(a@, b@, u@, open, i + b@.len()) =~= before + filled_from(
                a@,
                b@,
                u@,
                open,
                i as int,
            ));
            i += b.len();
        } else {
            out.push(a[i]);
            assert(out@ + filled_from(a@, b@, u@, open, i + 1) =~= before + filled_from(
                a@,
                b@,
                u@,
                open,
                i as int,
            ));
            i += 1;
        }
    }
    assert(out@ =~= out@ + Seq::<char>::empty());
    out
}

/// A text with the placeholders of other programs replaced by those of this one: `#{user}:`
/// and `#{character}:` first, then `{character}` and `{user}` where no brace follows.
pub open spec fn with_macros(s: Seq<char>) -> Seq<char> {
    let a = filled(s, "#{user}:"@, "{{user}}:"@, false);
    let b = filled(a, "#{character}:"@, "{{char}}:"@, false);
    let c = filled(b, "{character}"@, "{{char}}"@, true);
    filled(c, "{user}"@, "{{user}}"@, true)
}

/// A text with the placeholders of other programs replaced by those of this one.
pub fn replace_macros(input: &str) -> (r: String)
    ensures
        r@ == with_macros(input@),
{
    proof {
        reveal_strlit("#{user}:");
        reveal_strlit("#{character}:");
        reveal_strlit("{character}");
        reveal_strlit("{user}");
    }
    let a = fill(input, "#{user}:", "{{user}}:", false);
    let b = fill(&a, "#{character}:", "{{char}}:", false);
    let c = fill(&b, "{character}", "{{char}}", true);
    fill(&c, "{user}", "{{user}}", true)
}

} // verus!
