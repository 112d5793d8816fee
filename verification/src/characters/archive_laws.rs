//! What holds of the paths of the entries of an archive.

use crate::characters::archive;
use crate::text;
use vstd::prelude::*;

verus! {

/// Whether a component of a path is a plain name.
pub open spec fn plain(s: Seq<char>) -> bool {
    s.len() > 0 && s != "."@ && s != ".."@ && !s.contains('/')
}

/// Whether every component is a plain name.
pub open spec fn all_plain(v: Seq<Seq<char>>) -> bool {
    forall|i: int| 0 <= i < v.len() ==> plain(#[trigger] v[i])
}

/// Whether none of the texts holds a character.
spec fn none_holds(v: Seq<Seq<char>>, c: char) -> bool {
    forall|i: int| 0 <= i < v.len() ==> !(#[trigger] v[i]).contains(c)
}

proof fn trimmed_holds_no_more(s: Seq<char>, c: char)
    requires
        !s.contains(c),
    ensures
        !text::trimmed(s).contains(c),
{
    left_holds_no_more(s, c);
    right_holds_no_more(text::trim_left(s), c);
}

proof fn left_holds_no_more(s: Seq<char>, c: char)
    requires
        !s.contains(c),
    ensures
        !text::trim_left(s).contains(c),
    decreases s.len(),
{
    if s.len() > 0 {
        assert forall|i: int| 0 <= i < s.skip(1).len() implies s.skip(1)[i] != c by {
            assert(s.contains(s[i + 1]));
        }
        left_holds_no_more(s.skip(1), c);
    }
}

proof fn right_holds_no_more(s: Seq<char>, c: char)
    requires
        !s.contains(c),
    ensures
        !text::trim_right(s).contains(c),
    decreases s.len(),
{
    if s.len() > 0 {
        assert forall|i: int| 0 <= i < s.drop_last().len() implies s.drop_last()[i] != c by {
            assert(s.contains(s[i]));
        }
        right_holds_no_more(s.drop_last(), c);
    }
}

proof fn pieces_hold_no_more(s: Seq<char>, c: char, d: char, from: int)
    requires
        0 <= from <= s.len(),
        !s.contains(d),
    ensures
        none_holds(text::pieces_from(s, c, from), c),
        none_holds(text::pieces_from(s, c, from), d),
    decreases s.len() - from,
{
    text::char_from_is_first(s, c, from);
    let p = text::char_from(s, c, from);
    let piece = s.subrange(from, p);
    assert forall|k: int| 0 <= k < piece.len() implies piece[k] != c && piece[k] != d by {
        assert(piece[k] == s[from + k]);
        assert(s.contains(s[from + k]));
    }
    if p < s.len() {
        pieces_hold_no_more(s, c, d, p + 1);
        let rest = text::pieces_from(s, c, p + 1);
        let all = text::pieces_from(s, c, from);
        assert forall|i: int| 0 <= i < all.len() implies !(#[trigger] all[i]).contains(c)
            && !all[i].contains(d) by {
            if i > 0 {
                assert(all[i] == rest[i - 1]);
            }
        }
    }
}

proof fn resolved_is_plain(v: Seq<Seq<char>>, d: char)
    requires
        none_holds(v, '/'),
        none_holds(v, d),
    ensures
        archive::resolved(v) matches Some(stack) ==> all_plain(stack) && none_holds(stack, d),
    decreases v.len(),
{
    if v.len() > 0 {
        let h = v.drop_last();
        assert forall|i: int| 0 <= i < h.len() implies !(#[trigger] h[i]).contains('/')
            && !h[i].contains(d) by {
            assert(h[i] == v[i]);
        }
        resolved_is_plain(h, d);
        assert(v[v.len() - 1] == v.last());
        match (archive::resolved(h), archive::resolved(v)) {
            (Some(before), Some(stack)) => {
                assert forall|i: int| 0 <= i < stack.len() implies plain(#[trigger] stack[i])
                    && !stack[i].contains(d) by {
                    if i < before.len() {
                        assert(stack[i] == before[i]);
                    } else {
                        assert(stack[i] == v.last());
                    }
                }
            },
            _ => {},
        }
    }
}

proof fn plain_is_resolved(v: Seq<Seq<char>>)
    requires
        all_plain(v),
    ensures
        archive::resolved(v) == Some(v),
    decreases v.len(),
{
    if v.len() > 0 {
        let h = v.drop_last();
        assert forall|i: int| 0 <= i < h.len() implies plain(#[trigger] h[i]) by {
            assert(h[i] == v[i]);
        }
        plain_is_resolved(h);
        assert(plain(v[v.len() - 1]));
        assert(h.push(v.last()) =~= v);
    } else {
        assert(v =~= Seq::empty());
    }
}

proof fn char_from_of(s: Seq<char>, c: char, from: int, p: int)
    requires
        0 <= from <= p <= s.len(),
        p < s.len() ==> s[p] == c,
        forall|j: int| from <= j < p ==> s[j] != c,
    ensures
        text::char_from(s, c, from) == p,
{
    text::char_from_is_first(s, c, from);
    let q = text::char_from(s, c, from);
    if q < p {
        assert(s[q] != c);
    }
    if p < q {
        assert(s[p] != c);
    }
}

proof fn pieces_with_one_more(a: Seq<char>, b: Seq<char>, c: char, from: int)
    requires
        0 <= from <= a.len(),
        !b.contains(c),
    ensures
        text::pieces_from(a + seq![c] + b, c, from) == text::pieces_from(a, c, from).push(b),
    decreases a.len() - from,
{
    let s = a + seq![c] + b;
    text::char_from_is_first(a, c, from);
    let p = text::char_from(a, c, from);
    assert forall|j: int| from <= j < p implies s[j] != c by {
        assert(s[j] == a[j]);
    }
    char_from_of(s, c, from, p);
    assert(s.subrange(from, p) =~= a.subrange(from, p));
    if p < a.len() {
        pieces_with_one_more(a, b, c, p + 1);
        assert(seq![a.subrange(from, p)] + text::pieces_from(a, c, p + 1).push(b) =~= (seq![
            a.subrange(from, p),
        ] + text::pieces_from(a, c, p + 1)).push(b));
    } else {
        let n = a.len() as int + 1;
        assert forall|j: int| n <= j < s.len() implies s[j] != c by {
            assert(b.contains(b[j - n]));
        }
        char_from_of(s, c, n, s.len() as int);
        assert(s.subrange(n, s.len() as int) =~= b);
        assert(text::pieces_from(s, c, n) == seq![b]);
        assert(text::pieces_from(s, c, from) == seq![s.subrange(from, p)] + seq![b]);
        assert(seq![a.subrange(from, p)] + seq![b] =~= seq![a.subrange(from, p)].push(b));
    }
}

/// Names that are joined by slashes and cut at the slashes are the same names.
pub proof fn joined_names_are_cut(v: Seq<Seq<char>>)
    requires
        v.len() > 0,
        all_plain(v),
    ensures
        text::pieces(text::joined(v, "/"@), '/') == v,
    decreases v.len(),
{
    reveal_strlit("/");
    assert("/"@ =~= seq!['/']);
    assert(plain(v[v.len() - 1]));
    let last = v.last();
    if v.len() == 1 {
        assert forall|j: int| 0 <= j < last.len() implies last[j] != '/' by {
            assert(last.contains(last[j]));
        }
        char_from_of(last, '/', 0, last.len() as int);
        assert(last.subrange(0, last.len() as int) =~= last);
        assert(seq![last] =~= v);
    } else {
        let h = v.drop_last();
        assert forall|i: int| 0 <= i < h.len() implies plain(#[trigger] h[i]) by {
            assert(h[i] == v[i]);
        }
        joined_names_are_cut(h);
        pieces_with_one_more(text::joined(h, "/"@), last, '/', 0);
        assert(h.push(last) =~= v);
    }
}

proof fn joined_holds_no_more(v: Seq<Seq<char>>, d: char)
    requires
        v.len() > 0,
        all_plain(v),
        none_holds(v, d),
        d != '/',
    ensures
        !text::joined(v, "/"@).contains(d),
        text::joined(v, "/"@).len() > 0,
        text::joined(v, "/"@)[0] != '/',
        text::joined(v, "/"@).last() != '/',
    decreases v.len(),
{
    reveal_strlit("/");
    let s = text::joined(v, "/"@);
    let last = v.last();
    assert(plain(v[v.len() - 1]));
    assert(last.contains(last[0]) && last.contains(last.last()));
    if v.len() > 1 {
        let h = v.drop_last();
        assert forall|i: int| 0 <= i < h.len() implies plain(#[trigger] h[i]) && !h[i].contains(d)
            by {
            assert(h[i] == v[i]);
        }
        joined_holds_no_more(h, d);
        let t = text::joined(h, "/"@);
        assert(s[0] == t[0]);
        assert(s.last() == last.last());
        if s.contains(d) {
            let k = choose|k: int| 0 <= k < s.len() && s[k] == d;
            if k < t.len() {
                assert(t[k] == d);
            } else if k > t.len() {
                assert(last[k - t.len() - 1] == d);
            }
            assert(false);
        }
    }
}

proof fn normal_stack(name: Seq<char>) -> (stack: Seq<Seq<char>>)
    requires
        archive::normalized(name) is Some,
    ensures
        stack.len() > 0,
        all_plain(stack),
        none_holds(stack, '\\'),
        archive::normalized(name) == Some(text::joined(stack, "/"@)),
{
    reveal_strlit("\\");
    reveal_strlit("/");
    let s = text::replaced(name, "\\"@, "/"@);
    text::replacing_leaves_none(name, "\\"@, "/"@, 0);
    trimmed_holds_no_more(s, '\\');
    let t = text::trimmed(s);
    pieces_hold_no_more(t, '/', '\\', 0);
    resolved_is_plain(text::pieces(t, '/'), '\\');
    archive::resolved(text::pieces(t, '/'))->0
}

/// A normalized path is not empty, has no backslash, neither begins nor ends with a slash, and
/// all its components are plain names.
pub proof fn normalized_path_is_plain(name: Seq<char>)
    requires
        archive::normalized(name) is Some,
    ensures
        archive::normalized(name) matches Some(p) && p.len() > 0 && !p.contains('\\') && p[0] != '/'
            && p.last() != '/' && all_plain(text::pieces(p, '/')),
{
    let stack = normal_stack(name);
    joined_holds_no_more(stack, '\\');
    joined_names_are_cut(stack);
}

/// A normalized path without white space around it is normalized to itself.
pub proof fn normalizing_twice(name: Seq<char>)
    requires
        archive::normalized(name) matches Some(p) && text::trimmed(p) == p,
    ensures
        archive::normalized(name) matches Some(p) && archive::normalized(p) == Some(p),
{
    reveal_strlit("\\");
    let stack = normal_stack(name);
    joined_holds_no_more(stack, '\\');
    joined_names_are_cut(stack);
    plain_is_resolved(stack);
    let p = text::joined(stack, "/"@);
    text::replacing_nothing(p, "\\"@, "/"@, 0);
    assert(p.skip(0) =~= p);
}

} // verus!
