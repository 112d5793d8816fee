//! What holds of the plain operations on texts: what is cut apart can be put together again, and
//! what is trimmed loses only what it was trimmed of.

use crate::text;
use vstd::prelude::*;

verus! {

proof fn char_behind(p: Seq<char>, t: Seq<char>, c: char, k: int)
    requires
        0 <= k <= t.len(),
    ensures
        text::char_from(p + t, c, p.len() + k) == p.len() + text::char_from(t, c, k),
    decreases t.len() - k,
{
    if k < t.len() && t[k] != c {
        char_behind(p, t, c, k + 1);
    }
}

proof fn pieces_behind(p: Seq<char>, t: Seq<char>, c: char, k: int)
    requires
        0 <= k <= t.len(),
    ensures
        text::pieces_from(p + t, c, p.len() + k) == text::pieces_from(t, c, k),
    decreases t.len() - k,
{
    let s = p + t;
    let n = p.len() as int;
    char_behind(p, t, c, k);
    text::char_from_is_first(t, c, k);
    text::char_from_is_first(s, c, n + k);
    let e = text::char_from(t, c, k);
    assert(s.subrange(n + k, n + e) =~= t.subrange(k, e));
    if e < t.len() {
        pieces_behind(p, t, c, e + 1);
    }
}

proof fn none_before(a: Seq<char>, t: Seq<char>, c: char, k: int)
    requires
        !a.contains(c),
        0 <= k <= a.len(),
    ensures
        text::char_from(a + t, c, k) == text::char_from(a + t, c, a.len() as int),
    decreases a.len() - k,
{
    if k < a.len() {
        assert((a + t)[k] == a[k]);
        assert(a.contains(a[k]));
        none_before(a, t, c, k + 1);
    }
}

/// What stands before the first separator is the first piece, and what stands behind it is cut on;
/// a text without the separator is its own only piece.
pub proof fn first_piece_is_cut(a: Seq<char>, c: char, b: Seq<char>)
    requires
        !a.contains(c),
    ensures
        text::pieces(a + seq![c] + b, c) == seq![a] + text::pieces(b, c),
        text::pieces(a, c) == seq![a],
{
    let p = a + seq![c];
    let s = p + b;
    assert(s =~= a + (seq![c] + b));
    none_before(a, seq![c] + b, c, 0);
    assert(s[a.len() as int] == c);
    assert(text::char_from(s, c, a.len() as int) == a.len());
    assert(s.subrange(0, a.len() as int) =~= a);
    pieces_behind(p, b, c, 0);
    none_before(a, Seq::empty(), c, 0);
    assert(a + Seq::<char>::empty() =~= a);
    assert(a.subrange(0, a.len() as int) =~= a);
}

/// What stands behind the last separator is the last piece.
pub proof fn last_piece_is_cut(a: Seq<char>, c: char, b: Seq<char>)
    requires
        !b.contains(c),
    ensures
        text::pieces(a + seq![c] + b, c).last() == b,
    decreases a.len(),
{
    if a.contains(c) {
        let i = a.index_of_first(c)->0;
        a.index_of_first_ensures(c);
        let x = a.take(i);
        let y = a.skip(i + 1);
        assert(!x.contains(c));
        assert(a + seq![c] + b =~= x + seq![c] + (y + seq![c] + b));
        first_piece_is_cut(x, c, y + seq![c] + b);
        text::pieces_not_empty(y + seq![c] + b, c, 0);
        last_piece_is_cut(y, c, b);
    } else {
        first_piece_is_cut(a, c, b);
        first_piece_is_cut(b, c, Seq::empty());
    }
}

proof fn joined_first(a: Seq<char>, rest: Seq<Seq<char>>, sep: Seq<char>)
    requires
        rest.len() > 0,
    ensures
        text::joined(seq![a] + rest, sep) == a + sep + text::joined(rest, sep),
    decreases rest.len(),
{
    let all = seq![a] + rest;
    assert(all.drop_last() =~= seq![a] + rest.drop_last());
    assert(all.last() == rest.last());
    if rest.len() == 1 {
        assert(all.drop_last() =~= seq![a]);
        assert(text::joined(all.drop_last(), sep) == a);
    } else {
        joined_first(a, rest.drop_last(), sep);
    }
    assert(text::joined(all, sep) =~= a + sep + text::joined(rest, sep));
}

proof fn pieces_from_join(s: Seq<char>, c: char, from: int)
    requires
        0 <= from <= s.len(),
    ensures
        text::pieces_from(s, c, from).len() > 0,
        text::joined(text::pieces_from(s, c, from), seq![c]) == s.skip(from),
        forall|i: int|
            0 <= i < text::pieces_from(s, c, from).len() ==> !(#[trigger] text::pieces_from(
                s,
                c,
                from,
            )[i]).contains(c),
    decreases s.len() - from,
{
    text::char_from_is_first(s, c, from);
    let p = text::char_from(s, c, from);
    let first = s.subrange(from, p);
    assert(!first.contains(c));
    if p < s.len() {
        pieces_from_join(s, c, p + 1);
        joined_first(first, text::pieces_from(s, c, p + 1), seq![c]);
        assert(first + seq![c] + s.skip(p + 1) =~= s.skip(from));
    } else {
        assert(s.subrange(from, s.len() as int) =~= s.skip(from));
    }
}

/// The pieces of a text, with the separator between them, are the text again; no piece holds the
/// separator.
pub proof fn pieces_join_again(s: Seq<char>, c: char)
    ensures
        text::joined(text::pieces(s, c), seq![c]) == s,
        forall|i: int|
            0 <= i < text::pieces(s, c).len() ==> !(#[trigger] text::pieces(s, c)[i]).contains(c),
{
    pieces_from_join(s, c, 0);
    assert(s.skip(0) =~= s);
}

/// A text is parted where the separator stands first.
pub proof fn parted_at_first(a: Seq<char>, sep: Seq<char>, b: Seq<char>)
    requires
        sep.len() > 0,
        !a.contains(sep[0]),
    ensures
        text::parted(a + sep + b, sep) == Some((a, b)),
{
    let s = a + sep + b;
    let n = a.len() as int;
    assert(s.subrange(n, n + sep.len()) =~= sep);
    assert(text::has_at(s, sep, n));
    text::first_from_is_first(s, sep, 0);
    let p = text::first_from(s, sep, 0)->0;
    if p < n {
        assert(s.subrange(p, p + sep.len())[0] == s[p]);
        assert(s[p] == a[p]);
        assert(a.contains(a[p]));
    }
    assert(s.take(n) =~= a);
    assert(s.skip(n + sep.len()) =~= b);
}

/// A text without the first character of a separator is not parted.
pub proof fn not_parted(a: Seq<char>, sep: Seq<char>)
    requires
        sep.len() > 0,
        !a.contains(sep[0]),
    ensures
        text::parted(a, sep) is None,
{
    text::first_from_is_first(a, sep, 0);
    if text::first_from(a, sep, 0) is Some {
        let p = text::first_from(a, sep, 0)->0;
        assert(a.subrange(p, p + sep.len())[0] == a[p]);
        assert(a.contains(a[p]));
    }
}

/// Whether a text is white throughout.
pub open spec fn all_white(s: Seq<char>) -> bool {
    forall|i: int| 0 <= i < s.len() ==> text::white(#[trigger] s[i])
}

/// Whether a text neither begins nor ends with a white character.
pub open spec fn tight(s: Seq<char>) -> bool {
    s.len() > 0 ==> !text::white(s[0]) && !text::white(s.last())
}

proof fn left_is_trimmed(a: Seq<char>, b: Seq<char>)
    requires
        all_white(a),
        b.len() > 0 ==> !text::white(b[0]),
    ensures
        text::trim_left(a + b) == b,
    decreases a.len(),
{
    if a.len() > 0 {
        assert((a + b)[0] == a[0]);
        assert((a + b).skip(1) =~= a.skip(1) + b);
        left_is_trimmed(a.skip(1), b);
    } else {
        assert(a + b =~= b);
    }
}

proof fn right_is_trimmed(b: Seq<char>, c: Seq<char>)
    requires
        all_white(c),
        b.len() > 0 ==> !text::white(b.last()),
    ensures
        text::trim_right(b + c) == b,
    decreases c.len(),
{
    if c.len() > 0 {
        assert((b + c).last() == c.last());
        assert((b + c).drop_last() =~= b + c.drop_last());
        right_is_trimmed(b, c.drop_last());
    } else {
        assert(b + c =~= b);
    }
}

/// Trimming takes away the white characters on both sides and nothing else.
pub proof fn white_is_trimmed(a: Seq<char>, b: Seq<char>, c: Seq<char>)
    requires
        all_white(a),
        all_white(c),
        tight(b),
    ensures
        text::trimmed(a + b + c) == b,
{
    if b.len() > 0 {
        assert(a + b + c =~= a + (b + c));
        assert((b + c)[0] == b[0]);
        left_is_trimmed(a, b + c);
        right_is_trimmed(b, c);
    } else {
        assert(a + b + c =~= (a + c) + Seq::<char>::empty());
        assert(all_white(a + c));
        left_is_trimmed(a + c, Seq::empty());
        assert(text::trim_right(Seq::empty()) =~= b);
    }
}

/// Trailing characters are dropped and nothing else.
pub proof fn trailing_is_dropped(a: Seq<char>, c: char, n: nat)
    requires
        a.len() > 0 ==> a.last() != c,
    ensures
        text::drop_trailing(a + Seq::new(n, |i: int| c), c) == a,
    decreases n,
{
    let s = a + Seq::new(n, |i: int| c);
    if n > 0 {
        assert(s.last() == c);
        assert(s.drop_last() =~= a + Seq::new((n - 1) as nat, |i: int| c));
        trailing_is_dropped(a, c, (n - 1) as nat);
    } else {
        assert(s =~= a);
    }
}

/// Leading characters are dropped and nothing else.
pub proof fn leading_is_dropped(a: Seq<char>, c: char, n: nat)
    requires
        a.len() > 0 ==> a[0] != c,
    ensures
        text::drop_leading(Seq::new(n, |i: int| c) + a, c) == a,
    decreases n,
{
    let s = Seq::new(n, |i: int| c) + a;
    if n > 0 {
        assert(s[0] == c);
        assert(s.skip(1) =~= Seq::new((n - 1) as nat, |i: int| c) + a);
        leading_is_dropped(a, c, (n - 1) as nat);
    } else {
        assert(s =~= a);
    }
}

/// The number that a text of digits writes, the last digit counting once.
pub open spec fn number_of(s: Seq<char>) -> int
    decreases s.len(),
{
    if s.len() == 0 {
        0
    } else {
        10 * number_of(s.drop_last()) + (s.last() as int - 48)
    }
}

/// A number that is written down is read again; it is written in digits, the first of which is not
/// a zero unless it is the only one.
pub proof fn decimal_is_read_again(n: nat)
    ensures
        number_of(text::decimal(n)) == n,
        text::decimal(n).len() > 0,
        text::decimal(n)[0] == '0' ==> n == 0,
        forall|i: int|
            0 <= i < text::decimal(n).len() ==> '0' <= #[trigger] text::decimal(n)[i] <= '9',
    decreases n,
{
    reveal_with_fuel(number_of, 2);
    if n < 10 {
        let d = seq![text::digit(n as int)];
        assert(d.drop_last() =~= Seq::empty());
    } else {
        decimal_is_read_again(n / 10);
        let front = text::decimal(n / 10);
        let d = front.push(text::digit(n as int % 10));
        assert(d.drop_last() =~= front);
        assert(d[0] == front[0]);
    }
}

/// Only the capital letters of the first characters are made small, and making them small twice
/// does no more.
pub proof fn small_letters_stay(s: Seq<char>)
    ensures
        text::ascii_lower(s).len() == s.len(),
        forall|i: int|
            0 <= i < s.len() ==> #[trigger] text::ascii_lower(s)[i] == if 'A' <= s[i] <= 'Z' {
                (s[i] as u32 - 'A' as u32 + 'a' as u32) as char
            } else {
                s[i]
            },
        text::ascii_lower(text::ascii_lower(s)) == text::ascii_lower(s),
{
    assert(text::ascii_lower(text::ascii_lower(s)) =~= text::ascii_lower(s));
}

/// Each line of a text stands behind the last one, whether it ends in a line feed or in a carriage
/// return and a line feed; an empty last line is none.
pub proof fn lines_are_read_in_turn(a: Seq<char>, b: Seq<char>)
    requires
        !a.contains('\n'),
        a.len() > 0 ==> a.last() != '\r',
    ensures
        text::lines(a + seq!['\n'] + b) == seq![a] + text::lines(b),
        text::lines(a + seq!['\r', '\n'] + b) == seq![a] + text::lines(b),
        a.len() > 0 ==> text::lines(a) == seq![a],
        text::lines(Seq::empty()) == Seq::<Seq<char>>::empty(),
{
    first_piece_is_cut(a, '\n', b);
    let r = a.push('\r');
    assert forall|i: int| 0 <= i < r.len() implies r[i] != '\n' by {
        if i < a.len() {
            assert(a.contains(a[i]));
        }
    }
    first_piece_is_cut(r, '\n', b);
    assert(a + seq!['\r', '\n'] + b =~= r + seq!['\n'] + b);
    assert(r.drop_last() =~= a);
    first_piece_is_cut(Seq::empty(), '\n', Seq::empty());
    pieces_from_join(b, '\n', 0);
    let p = text::pieces(b, '\n');
    assert((seq![a] + p).last() == p.last());
    assert((seq![r] + p).last() == p.last());
    assert(text::lines(a + seq!['\n'] + b) =~= seq![a] + text::lines(b));
    assert(text::lines(a + seq!['\r', '\n'] + b) =~= seq![a] + text::lines(b));
    assert(text::lines(a) =~= if a.len() > 0 {
        seq![a]
    } else {
        Seq::empty()
    });
}

/// A text of white parts and tight words is cut into the words.
pub proof fn word_is_cut(a: Seq<char>, w: Seq<char>, b: Seq<char>)
    requires
        all_white(a),
        w.len() > 0,
        forall|i: int| 0 <= i < w.len() ==> !text::white(#[trigger] w[i]),
        b.len() > 0 ==> text::white(b[0]),
    ensures
        text::words_from(a + w + b, 0) == seq![w] + text::words_from(b, 0),
{
    let s = a + w + b;
    words_skip(s, a.len() as int, 0);
    word_reaches(s, a.len() as int, (a.len() + w.len()) as int);
    assert(s.subrange(a.len() as int, (a.len() + w.len()) as int) =~= w);
    words_behind(a + w, b, 0);
}

proof fn words_skip(s: Seq<char>, to: int, i: int)
    requires
        0 <= i <= to < s.len(),
        forall|j: int| i <= j < to ==> text::white(#[trigger] s[j]),
    ensures
        text::words_from(s, i) == text::words_from(s, to),
    decreases to - i,
{
    if i < to {
        words_skip(s, to, i + 1);
    }
}

proof fn word_reaches(s: Seq<char>, i: int, e: int)
    requires
        0 <= i <= e <= s.len(),
        forall|j: int| i <= j < e ==> !text::white(#[trigger] s[j]),
        e < s.len() ==> text::white(s[e]),
    ensures
        text::word_end(s, i) == e,
    decreases e - i,
{
    if i < e {
        word_reaches(s, i + 1, e);
    }
}

proof fn word_end_bounds(s: Seq<char>, i: int)
    requires
        0 <= i <= s.len(),
    ensures
        i <= text::word_end(s, i) <= s.len(),
    decreases s.len() - i,
{
    if i < s.len() && !text::white(s[i]) {
        word_end_bounds(s, i + 1);
    }
}

proof fn word_end_behind(p: Seq<char>, t: Seq<char>, k: int)
    requires
        0 <= k <= t.len(),
    ensures
        text::word_end(p + t, p.len() + k) == p.len() + text::word_end(t, k),
    decreases t.len() - k,
{
    if k < t.len() && !text::white(t[k]) {
        word_end_behind(p, t, k + 1);
    }
}

proof fn words_behind(p: Seq<char>, t: Seq<char>, k: int)
    requires
        0 <= k <= t.len(),
    ensures
        text::words_from(p + t, p.len() + k) == text::words_from(t, k),
    decreases t.len() - k,
{
    let s = p + t;
    let n = p.len() as int;
    if k < t.len() {
        assert(s[n + k] == t[k]);
        if text::white(t[k]) {
            words_behind(p, t, k + 1);
        } else {
            word_end_behind(p, t, k);
            word_end_bounds(t, k + 1);
            let e = text::word_end(t, k);
            assert(s.subrange(n + k, n + e) =~= t.subrange(k, e));
            words_behind(p, t, e);
        }
    }
}

} // verus!
