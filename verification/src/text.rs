//! Text as sequences of characters: the string operations that the rest of the
//! library is written with.

use vstd::prelude::*;
use vstd::string::StringExecFns;

verus! {

/// `String::push`: appends one character.
pub assume_specification[ String::push ](s: &mut String, c: char)
    ensures
        final(s)@ == old(s)@.push(c),
;

/// `String::push_str`: appends the characters of `t`.
pub assume_specification[ String::push_str ](s: &mut String, t: &str)
    ensures
        final(s)@ == old(s)@ + t@,
;

/// The characters of `s`.
pub fn chars_of(s: &str) -> (r: Vec<char>)
    ensures
        r@ == s@,
{
    let mut out: Vec<char> = Vec::new();
    for c in it: s.chars()
        invariant
            out@ == s@.take(it.index() as int),
            it.seq() == s@,
    {
        out.push(c);
        assert(s@.take(it.index() as int).push(c) =~= s@.take(it.index() as int + 1));
    }
    out
}

/// The text made of the characters of `v`.
pub fn text_of(v: &Vec<char>) -> (r: String)
    ensures
        r@ == v@,
{
    slice_text(v, 0, v.len())
}

/// The text made of `v[from..to]`.
pub fn slice_text(v: &Vec<char>, from: usize, to: usize) -> (r: String)
    requires
        from <= to <= v@.len(),
    ensures
        r@ == v@.subrange(from as int, to as int),
{
    let mut out = String::new();
    let mut i: usize = from;
    while i < to
        invariant
            from <= i <= to <= v@.len(),
            out@ == v@.subrange(from as int, i as int),
        decreases to - i,
    {
        out.push(v[i]);
        assert(v@.subrange(from as int, i as int).push(v@[i as int]) =~= v@.subrange(
            from as int,
            i as int + 1,
        ));
        i += 1;
    }
    out
}

/// Whether two texts are the same.
pub fn same(a: &str, b: &str) -> (r: bool)
    ensures
        r == (a@ == b@),
{
    a.to_owned() == b.to_owned()
}

/// `a` followed by `b`.
pub fn join2(a: &str, b: &str) -> (r: String)
    ensures
        r@ == a@ + b@,
{
    let mut out = a.to_owned();
    out.push_str(b);
    out
}

/// `a`, `b` and `c` in a row.
pub fn join3(a: &str, b: &str, c: &str) -> (r: String)
    ensures
        r@ == a@ + b@ + c@,
{
    let mut out = a.to_owned();
    out.push_str(b);
    out.push_str(c);
    out
}

/// Whether `s` has `t` at position `i`.
pub open spec fn has_at(s: Seq<char>, t: Seq<char>, i: int) -> bool {
    0 <= i && i + t.len() <= s.len() && s.subrange(i, i + t.len()) == t
}

/// Whether `s` begins with `t`.
pub open spec fn begins(s: Seq<char>, t: Seq<char>) -> bool {
    has_at(s, t, 0)
}

/// Whether `s` ends with `t`.
pub open spec fn ends(s: Seq<char>, t: Seq<char>) -> bool {
    has_at(s, t, s.len() - t.len())
}

/// Whether `t` occurs in `s`.
pub open spec fn occurs(s: Seq<char>, t: Seq<char>) -> bool {
    exists|i: int| has_at(s, t, i)
}

/// Whether `s[i..]` begins with `t`, on characters.
pub fn matches_at(s: &Vec<char>, t: &Vec<char>, i: usize) -> (r: bool)
    ensures
        r == has_at(s@, t@, i as int),
{
    if i > s.len() || t.len() > s.len() - i {
        return false;
    }
    let n: usize = s.len();
    let mut k: usize = 0;
    while k < t.len()
        invariant
            n == s@.len(),
            i + t@.len() <= n,
            k <= t@.len(),
            forall|j: int| 0 <= j < k ==> s@[i + j] == t@[j],
        decreases t@.len() - k,
    {
        if s[i + k] != t[k] {
            assert(s@.subrange(i as int, i + t@.len())[k as int] != t@[k as int]);
            return false;
        }
        k += 1;
    }
    assert(s@.subrange(i as int, i + t@.len()) =~= t@);
    true
}

/// Whether `s` begins with `t`.
pub fn starts_with(s: &str, t: &str) -> (r: bool)
    ensures
        r == begins(s@, t@),
{
    matches_at(&chars_of(s), &chars_of(t), 0)
}

/// Whether `s` ends with `t`.
pub fn ends_with(s: &str, t: &str) -> (r: bool)
    ensures
        r == ends(s@, t@),
{
    let a = chars_of(s);
    let b = chars_of(t);
    if b.len() > a.len() {
        return false;
    }
    matches_at(&a, &b, a.len() - b.len())
}

/// The first position at or after `from` where `t` occurs in `s`.
pub open spec fn first_from(s: Seq<char>, t: Seq<char>, from: int) -> Option<int>
    decreases s.len() + 1 - from,
{
    if from < 0 || from > s.len() {
        None
    } else if has_at(s, t, from) {
        Some(from)
    } else {
        first_from(s, t, from + 1)
    }
}

/// What `first_from` finds is an occurrence, and the first one; where it finds
/// none there is none.
pub proof fn first_from_is_first(s: Seq<char>, t: Seq<char>, from: int)
    requires
        from >= 0,
    ensures
        first_from(s, t, from) matches Some(p) ==> from <= p && has_at(s, t, p),
        forall|i: int|
            #![trigger has_at(s, t, i)]
            from <= i && has_at(s, t, i) ==> (first_from(s, t, from) matches Some(p) && p <= i),
    decreases s.len() + 1 - from,
{
    if from <= s.len() && !has_at(s, t, from) {
        first_from_is_first(s, t, from + 1);
    }
}

/// The first position at or after `from` where `t` occurs in `s`.
pub fn find_from(s: &Vec<char>, t: &Vec<char>, from: usize) -> (r: Option<usize>)
    ensures
        r.is_some() == first_from(s@, t@, from as int).is_some(),
        r matches Some(p) ==> first_from(s@, t@, from as int) == Some(p as int),
        r matches Some(p) ==> from <= p && p + t@.len() <= s@.len(),
{
    let n: usize = s.len();
    if from > n {
        return None;
    }
    let mut i: usize = from;
    while i < n
        invariant
            n == s@.len(),
            from <= i <= n,
            first_from(s@, t@, from as int) == first_from(s@, t@, i as int),
        decreases n - i,
    {
        if matches_at(s, t, i) {
            return Some(i);
        }
        i += 1;
    }
    if matches_at(s, t, n) {
        return Some(n);
    }
    assert(first_from(s@, t@, n + 1).is_none());
    None
}

/// Whether `t` occurs in `s`.
pub fn contains(s: &str, t: &str) -> (r: bool)
    ensures
        r == occurs(s@, t@),
{
    let a = chars_of(s);
    let b = chars_of(t);
    proof {
        first_from_is_first(s@, t@, 0);
    }
    find_from(&a, &b, 0).is_some()
}

/// Whether the character `c` occurs in `s`.
pub fn contains_char(s: &str, c: char) -> (r: bool)
    ensures
        r == s@.contains(c),
{
    let a = chars_of(s);
    let mut i: usize = 0;
    while i < a.len()
        invariant
            a@ == s@,
            i <= a@.len(),
            forall|j: int| 0 <= j < i ==> a@[j] != c,
        decreases a@.len() - i,
    {
        if a[i] == c {
            assert(s@[i as int] == c);
            return true;
        }
        i += 1;
    }
    false
}

/// Whether a character is white space: whether it has Unicode's White_Space property.
pub open spec fn white(c: char) -> bool {
    let n = c as u32;
    9 <= n <= 13 || n == 0x20 || n == 0x85 || n == 0xA0 || n == 0x1680 || 0x2000 <= n <= 0x200A
        || n == 0x2028 || n == 0x2029 || n == 0x202F || n == 0x205F || n == 0x3000
}

/// Whether a character is white space.
pub fn is_white(c: char) -> (r: bool)
    ensures
        r == white(c),
{
    let n: u32 = c as u32;
    9 <= n && n <= 13 || n == 0x20 || n == 0x85 || n == 0xA0 || n == 0x1680 || 0x2000 <= n && n
        <= 0x200A || n == 0x2028 || n == 0x2029 || n == 0x202F || n == 0x205F || n == 0x3000
}

/// `s` without the white space that it begins with.
pub open spec fn trim_left(s: Seq<char>) -> Seq<char>
    decreases s.len(),
{
    if s.len() > 0 && white(s[0]) {
        trim_left(s.skip(1))
    } else {
        s
    }
}

/// `s` without the white space that it ends with.
pub open spec fn trim_right(s: Seq<char>) -> Seq<char>
    decreases s.len(),
{
    if s.len() > 0 && white(s.last()) {
        trim_right(s.drop_last())
    } else {
        s
    }
}

/// `s` without the white space around it.
pub open spec fn trimmed(s: Seq<char>) -> Seq<char> {
    trim_right(trim_left(s))
}

/// `s` without the white space around it.
pub fn trim(s: &str) -> (r: String)
    ensures
        r@ == trimmed(s@),
{
    let a = chars_of(s);
    let n: usize = a.len();
    let mut i: usize = 0;
    assert(a@.skip(0) =~= a@);
    while i < n && is_white(a[i])
        invariant
            n == a@.len(),
            i <= n,
            trim_left(a@) == trim_left(a@.skip(i as int)),
        ensures
            i <= n,
            trim_left(a@) == trim_left(a@.skip(i as int)),
            i < n ==> !white(a@[i as int]),
        decreases n - i,
    {
        assert(a@.skip(i as int).skip(1) =~= a@.skip(i as int + 1));
        i += 1;
    }
    assert(trim_left(a@) == a@.skip(i as int));
    let mut j: usize = n;
    assert(a@.subrange(i as int, n as int) =~= a@.skip(i as int));
    while j > i && is_white(a[j - 1])
        invariant
            n == a@.len(),
            i <= j <= n,
            trim_right(a@.skip(i as int)) == trim_right(a@.subrange(i as int, j as int)),
        ensures
            i <= j <= n,
            trim_right(a@.skip(i as int)) == trim_right(a@.subrange(i as int, j as int)),
            j > i ==> !white(a@[j as int - 1]),
        decreases j,
    {
        assert(a@.subrange(i as int, j as int).drop_last() =~= a@.subrange(
            i as int,
            j as int - 1,
        ));
        j -= 1;
    }
    slice_text(&a, i, j)
}

/// `s` without the characters `c` that it ends with.
pub open spec fn drop_trailing(s: Seq<char>, c: char) -> Seq<char>
    decreases s.len(),
{
    if s.len() > 0 && s.last() == c {
        drop_trailing(s.drop_last(), c)
    } else {
        s
    }
}

/// `s` without the characters `c` that it ends with.
pub fn trim_end_char(s: &str, c: char) -> (r: String)
    ensures
        r@ == drop_trailing(s@, c),
{
    let a = chars_of(s);
    let mut j: usize = a.len();
    assert(a@.take(a@.len() as int) =~= a@);
    while j > 0 && a[j - 1] == c
        invariant
            j <= a@.len(),
            drop_trailing(a@, c) == drop_trailing(a@.take(j as int), c),
        ensures
            j <= a@.len(),
            drop_trailing(a@, c) == drop_trailing(a@.take(j as int), c),
            j > 0 ==> a@[j as int - 1] != c,
        decreases j,
    {
        assert(a@.take(j as int).drop_last() =~= a@.take(j as int - 1));
        j -= 1;
    }
    assert(a@.take(j as int) =~= a@.subrange(0, j as int));
    slice_text(&a, 0, j)
}

/// `s` without the characters `c` that it begins with.
pub open spec fn drop_leading(s: Seq<char>, c: char) -> Seq<char>
    decreases s.len(),
{
    if s.len() > 0 && s[0] == c {
        drop_leading(s.skip(1), c)
    } else {
        s
    }
}

/// `s` without the characters `c` that it begins with.
pub fn trim_start_char(s: &str, c: char) -> (r: String)
    ensures
        r@ == drop_leading(s@, c),
{
    let a = chars_of(s);
    let n: usize = a.len();
    let mut i: usize = 0;
    assert(a@.skip(0) =~= a@);
    while i < n && a[i] == c
        invariant
            n == a@.len(),
            i <= n,
            drop_leading(a@, c) == drop_leading(a@.skip(i as int), c),
        ensures
            i <= n,
            drop_leading(a@, c) == drop_leading(a@.skip(i as int), c),
            i < n ==> a@[i as int] != c,
        decreases n - i,
    {
        assert(a@.skip(i as int).skip(1) =~= a@.skip(i as int + 1));
        i += 1;
    }
    assert(a@.skip(i as int) =~= a@.subrange(i as int, n as int));
    slice_text(&a, i, n)
}

/// The first position at or after `i` of the character `c`; the length where there is
/// none.
pub open spec fn char_from(s: Seq<char>, c: char, i: int) -> int
    decreases s.len() - i,
{
    if i >= s.len() {
        s.len() as int
    } else if s[i] == c {
        i
    } else {
        char_from(s, c, i + 1)
    }
}

/// Where `char_from` stops: at `c`, with no `c` before it, or at the end.
pub proof fn char_from_is_first(s: Seq<char>, c: char, i: int)
    requires
        0 <= i <= s.len(),
    ensures
        i <= char_from(s, c, i) <= s.len(),
        char_from(s, c, i) < s.len() ==> s[char_from(s, c, i)] == c,
        forall|j: int| i <= j < char_from(s, c, i) ==> s[j] != c,
    decreases s.len() - i,
{
    if i < s.len() && s[i] != c {
        char_from_is_first(s, c, i + 1);
    }
}

/// The first position at or after `from` of `c`; the length where there is none.
pub fn find_char(s: &Vec<char>, c: char, from: usize) -> (r: usize)
    requires
        from <= s@.len(),
    ensures
        r == char_from(s@, c, from as int),
        from <= r <= s@.len(),
        r < s@.len() ==> s@[r as int] == c,
{
    let mut i: usize = from;
    while i < s.len()
        invariant
            from <= i <= s@.len(),
            char_from(s@, c, from as int) == char_from(s@, c, i as int),
        decreases s@.len() - i,
    {
        if s[i] == c {
            return i;
        }
        i += 1;
    }
    i
}

/// The pieces of `s` between the characters `c`.
pub open spec fn pieces(s: Seq<char>, c: char) -> Seq<Seq<char>> {
    pieces_from(s, c, 0)
}

/// The pieces of `s[from..]` between the characters `c`.
pub open spec fn pieces_from(s: Seq<char>, c: char, from: int) -> Seq<Seq<char>>
    decreases s.len() - from,
    when 0 <= from <= s.len()
{
    proof {
        char_from_is_first(s, c, from);
    }
    let p = char_from(s, c, from);
    if p < s.len() {
        seq![s.subrange(from, p)] + pieces_from(s, c, p + 1)
    } else {
        seq![s.subrange(from, s.len() as int)]
    }
}

/// The pieces of `s` between the characters `c`.
pub fn split(s: &str, c: char) -> (r: Vec<String>)
    ensures
        crate::json::texts(r@) == pieces(s@, c),
        r@.len() >= 1,
{
    let a = chars_of(s);
    let n: usize = a.len();
    let mut out: Vec<String> = Vec::new();
    let mut from: usize = 0;
    assert(crate::json::texts(out@) + pieces_from(a@, c, 0) =~= pieces(a@, c));
    loop
        invariant
            n == a@.len(),
            a@ == s@,
            from <= n,
            crate::json::texts(out@) + pieces_from(a@, c, from as int) == pieces(a@, c),
        decreases n - from,
    {
        let p = find_char(&a, c, from);
        let piece = slice_text(&a, from, p);
        let ghost before = out@;
        out.push(piece);
        assert(crate::json::texts(out@) =~= crate::json::texts(before).push(
            a@.subrange(from as int, p as int),
        ));
        if p == n {
            assert(crate::json::texts(out@) =~= pieces(a@, c));
            return out;
        }
        assert(crate::json::texts(out@) + pieces_from(a@, c, p + 1) =~= crate::json::texts(before)
            + pieces_from(a@, c, from as int));
        from = p + 1;
    }
}

/// The texts in a row with `sep` between them.
pub open spec fn joined(parts: Seq<Seq<char>>, sep: Seq<char>) -> Seq<char>
    decreases parts.len(),
{
    if parts.len() == 0 {
        Seq::empty()
    } else if parts.len() == 1 {
        parts[0]
    } else {
        joined(parts.drop_last(), sep) + sep + parts.last()
    }
}

/// The texts in a row with `sep` between them.
pub fn join(parts: &Vec<String>, sep: &str) -> (r: String)
    ensures
        r@ == joined(crate::json::texts(parts@), sep@),
{
    let mut out = String::new();
    let mut i: usize = 0;
    let ghost all = crate::json::texts(parts@);
    while i < parts.len()
        invariant
            all == crate::json::texts(parts@),
            i <= parts@.len(),
            out@ == joined(all.take(i as int), sep@),
        decreases parts@.len() - i,
    {
        assert(all.take(i as int + 1).drop_last() =~= all.take(i as int));
        assert(all.take(i as int + 1).last() == parts@[i as int]@);
        if i > 0 {
            out.push_str(sep);
        }
        out.push_str(&parts[i]);
        assert(out@ =~= joined(all.take(i as int + 1), sep@));
        i += 1;
    }
    assert(all.take(all.len() as int) =~= all);
    out
}

/// What precedes the first `sep` in `s` and what follows it.
pub open spec fn parted(s: Seq<char>, sep: Seq<char>) -> Option<(Seq<char>, Seq<char>)> {
    match first_from(s, sep, 0) {
        Some(p) => Some((s.take(p), s.skip(p + sep.len()))),
        None => None,
    }
}

/// What precedes the first `sep` in `s` and what follows it.
pub fn split_once(s: &str, sep: &str) -> (r: Option<(String, String)>)
    ensures
        r matches Some(x) ==> parted(s@, sep@) == Some((x.0@, x.1@)),
        r is None ==> parted(s@, sep@) is None,
{
    let a = chars_of(s);
    let b = chars_of(sep);
    let n: usize = a.len();
    match find_from(&a, &b, 0) {
        Some(p) => {
            assert(a@.subrange(0, p as int) =~= a@.take(p as int));
            assert(a@.subrange(p + b@.len(), a@.len() as int) =~= a@.skip(p + b@.len()));
            Some((slice_text(&a, 0, p), slice_text(&a, p + b.len(), n)))
        },
        None => None,
    }
}

/// What follows `t` at the beginning of `s`.
pub open spec fn after_prefix(s: Seq<char>, t: Seq<char>) -> Option<Seq<char>> {
    if begins(s, t) {
        Some(s.skip(t.len() as int))
    } else {
        None
    }
}

/// What follows `t` at the beginning of `s`.
pub fn strip_prefix(s: &str, t: &str) -> (r: Option<String>)
    ensures
        crate::json::string_opt(r) == after_prefix(s@, t@),
{
    let a = chars_of(s);
    let b = chars_of(t);
    if matches_at(&a, &b, 0) {
        assert(a@.subrange(b@.len() as int, a@.len() as int) =~= a@.skip(b@.len() as int));
        Some(slice_text(&a, b.len(), a.len()))
    } else {
        None
    }
}

/// What precedes `t` at the end of `s`.
pub open spec fn before_suffix(s: Seq<char>, t: Seq<char>) -> Option<Seq<char>> {
    if ends(s, t) {
        Some(s.take(s.len() - t.len()))
    } else {
        None
    }
}

/// What precedes `t` at the end of `s`.
pub fn strip_suffix(s: &str, t: &str) -> (r: Option<String>)
    ensures
        crate::json::string_opt(r) == before_suffix(s@, t@),
{
    let a = chars_of(s);
    let b = chars_of(t);
    if b.len() <= a.len() && matches_at(&a, &b, a.len() - b.len()) {
        assert(a@.subrange(0, a@.len() - b@.len()) =~= a@.take(a@.len() - b@.len()));
        Some(slice_text(&a, 0, a.len() - b.len()))
    } else {
        None
    }
}

/// `s[from..]` with every `t`, found from left to right, replaced by `u`.
pub open spec fn replaced_from(s: Seq<char>, t: Seq<char>, u: Seq<char>, from: int) -> Seq<char>
    decreases s.len() - from,
    when 0 <= from <= s.len() && t.len() > 0
{
    if from == s.len() {
        Seq::empty()
    } else if has_at(s, t, from) {
        u + replaced_from(s, t, u, from + t.len())
    } else {
        seq![s[from]] + replaced_from(s, t, u, from + 1)
    }
}

/// `s` with every `t`, found from left to right, replaced by `u`.
pub open spec fn replaced(s: Seq<char>, t: Seq<char>, u: Seq<char>) -> Seq<char> {
    replaced_from(s, t, u, 0)
}

/// A character that was replaced is nowhere in the result.
pub proof fn replacing_leaves_none(s: Seq<char>, t: Seq<char>, u: Seq<char>, from: int)
    requires
        0 <= from <= s.len(),
        t.len() == 1,
        !u.contains(t[0]),
    ensures
        !replaced_from(s, t, u, from).contains(t[0]),
    decreases s.len() - from,
{
    let r = replaced_from(s, t, u, from);
    if from < s.len() {
        replacing_leaves_none(s, t, u, from + 1);
        let rest = replaced_from(s, t, u, from + 1);
        if s[from] == t[0] {
            assert(s.subrange(from, from + 1) =~= t);
        }
        if r.contains(t[0]) {
            let k = choose|k: int| 0 <= k < r.len() && r[k] == t[0];
            let n = r.len() - rest.len();
            if k >= n {
                assert(rest[k - n] == t[0]);
            } else if has_at(s, t, from) {
                assert(u[k] == t[0]);
            }
            assert(false);
        }
    }
}

/// Where the text that is to be replaced cannot begin, nothing is replaced.
pub proof fn replacing_nothing(s: Seq<char>, t: Seq<char>, u: Seq<char>, from: int)
    requires
        0 <= from <= s.len(),
        t.len() > 0,
        !s.contains(t[0]),
    ensures
        replaced_from(s, t, u, from) == s.skip(from),
    decreases s.len() - from,
{
    if from < s.len() {
        if has_at(s, t, from) {
            assert(s.subrange(from, from + t.len())[0] == s[from]);
            assert(s.contains(s[from]));
        }
        replacing_nothing(s, t, u, from + 1);
        assert(seq![s[from]] + s.skip(from + 1) =~= s.skip(from));
    } else {
        assert(s.skip(from) =~= Seq::empty());
    }
}

/// `s` with every `t`, found from left to right, replaced by `u`.
pub fn replace(s: &str, t: &str, u: &str) -> (r: String)
    requires
        t@.len() > 0,
    ensures
        r@ == replaced(s@, t@, u@),
{
    let a = chars_of(s);
    let b = chars_of(t);
    let mut out = String::new();
    let mut i: usize = 0;
    assert(out@ + replaced_from(a@, b@, u@, 0) =~= replaced(a@, b@, u@));
    while i < a.len()
        invariant
            b@.len() > 0,
            i <= a@.len(),
            out@ + replaced_from(a@, b@, u@, i as int) == replaced(a@, b@, u@),
        decreases a@.len() - i,
    {
        let ghost before = out@;
        if matches_at(&a, &b, i) {
            out.push_str(u);
            assert(out@ + replaced_from(a@, b@, u@, i + b@.len()) =~= before + replaced_from(
                a@,
                b@,
                u@,
                i as int,
            ));
            i += b.len();
        } else {
            out.push(a[i]);
            assert(out@ + replaced_from(a@, b@, u@, i + 1) =~= before + replaced_from(
                a@,
                b@,
                u@,
                i as int,
            ));
            i += 1;
        }
    }
    assert(out@ =~= out@ + Seq::<char>::empty());
    out
}

/// `c` with an ASCII capital letter made small.
pub open spec fn small(c: char) -> char {
    if 'A' <= c <= 'Z' {
        (c as u32 + 32) as char
    } else {
        c
    }
}

/// `s` with its ASCII capital letters made small.
pub open spec fn ascii_lower(s: Seq<char>) -> Seq<char> {
    Seq::new(s.len(), |i: int| small(s[i]))
}

/// `c` with an ASCII capital letter made small.
pub fn small_char(c: char) -> (r: char)
    ensures
        r == small(c),
{
    if 'A' <= c && c <= 'Z' {
        ((c as u8) + 32) as char
    } else {
        c
    }
}

/// `s` with its ASCII capital letters made small.
pub fn to_ascii_lowercase(s: &str) -> (r: String)
    ensures
        r@ == ascii_lower(s@),
{
    let a = chars_of(s);
    let mut out = String::new();
    let mut i: usize = 0;
    while i < a.len()
        invariant
            i <= a@.len(),
            out@ == ascii_lower(a@).take(i as int),
        decreases a@.len() - i,
    {
        out.push(small_char(a[i]));
        assert(out@ =~= ascii_lower(a@).take(i as int + 1));
        i += 1;
    }
    assert(ascii_lower(a@).take(a@.len() as int) =~= ascii_lower(a@));
    out
}

/// What `str::to_lowercase` makes of a text.
pub uninterp spec fn lowercase(s: Seq<char>) -> Seq<char>;

/// `str::to_lowercase`: the text in lower case by Unicode's rules. The result is a
/// function of the text; the rules are not spelled out.
#[verifier::external_body]
pub(crate) fn to_lowercase(s: &str) -> (r: String)
    ensures
        r@ == lowercase(s@),
{
    s.to_lowercase()
}

/// The decimal digit of `d`.
pub open spec fn digit(d: int) -> char {
    (48 + d) as char
}

/// `n` in decimal.
pub open spec fn decimal(n: nat) -> Seq<char>
    decreases n,
{
    if n < 10 {
        seq![digit(n as int)]
    } else {
        decimal(n / 10).push(digit(n as int % 10))
    }
}

/// `n` in decimal.
pub fn decimal_text(n: u128) -> (r: String)
    ensures
        r@ == decimal(n as nat),
    decreases n,
{
    let d: u8 = (n % 10) as u8;
    let c: char = (48 + d) as char;
    if n < 10 {
        let mut out = String::new();
        out.push(c);
        assert(out@ =~= seq![digit(n as int)]);
        out
    } else {
        let mut out = decimal_text(n / 10);
        out.push(c);
        out
    }
}

/// `s` without the white space that it ends with.
pub fn trim_end(s: &str) -> (r: String)
    ensures
        r@ == trim_right(s@),
{
    let a = chars_of(s);
    let mut j: usize = a.len();
    assert(a@.take(a@.len() as int) =~= a@);
    while j > 0 && is_white(a[j - 1])
        invariant
            j <= a@.len(),
            trim_right(a@) == trim_right(a@.take(j as int)),
        ensures
            j <= a@.len(),
            trim_right(a@) == trim_right(a@.take(j as int)),
            j > 0 ==> !white(a@[j as int - 1]),
        decreases j,
    {
        assert(a@.take(j as int).drop_last() =~= a@.take(j as int - 1));
        j -= 1;
    }
    assert(a@.take(j as int) =~= a@.subrange(0, j as int));
    slice_text(&a, 0, j)
}

/// `s` without the suffixes `t` at its end.
pub open spec fn drop_suffixes(s: Seq<char>, t: Seq<char>) -> Seq<char>
    decreases s.len(),
{
    if t.len() > 0 && ends(s, t) {
        drop_suffixes(s.take(s.len() - t.len()), t)
    } else {
        s
    }
}

/// The text without the suffixes `t` at its end.
pub fn trim_end_text(s: &str, t: &str) -> (r: String)
    ensures
        r@ == drop_suffixes(s@, t@),
{
    let a = chars_of(s);
    let b = chars_of(t);
    let m: usize = b.len();
    let mut n: usize = a.len();
    assert(a@.take(n as int) =~= a@);
    while m > 0 && n >= m && matches_at(&a, &b, n - m)
        invariant
            m == b@.len(),
            n <= a@.len(),
            drop_suffixes(a@.take(n as int), b@) == drop_suffixes(a@, b@),
        ensures
            n <= a@.len(),
            drop_suffixes(a@.take(n as int), b@) == drop_suffixes(a@, b@),
            !(m > 0 && n >= m && has_at(a@, b@, n - m)),
        decreases n,
    {
        let ghost cut = a@.take(n as int);
        assert(cut.subrange(n - m, n as int) =~= a@.subrange(n - m, n as int));
        assert(ends(cut, b@));
        assert(cut.take(n - m) =~= a@.take(n - m));
        n -= m;
    }
    proof {
        let cut = a@.take(n as int);
        if m > 0 && ends(cut, b@) {
            assert(cut.subrange(n - m, n as int) =~= a@.subrange(n - m, n as int));
            assert(has_at(a@, b@, n - m));
        }
    }
    assert(a@.take(n as int) =~= a@.subrange(0, n as int));
    slice_text(&a, 0, n)
}

/// The words of `s[i..]`: what stands between white space.
pub open spec fn words_from(s: Seq<char>, i: int) -> Seq<Seq<char>>
    decreases s.len() - i,
{
    if i < 0 || i >= s.len() {
        Seq::empty()
    } else if white(s[i]) {
        words_from(s, i + 1)
    } else {
        let e = word_end(s, i);
        if e <= i || e > s.len() {
            Seq::empty()
        } else {
            seq![s.subrange(i, e)] + words_from(s, e)
        }
    }
}

/// Where the word that `s[i]` is part of ends.
pub open spec fn word_end(s: Seq<char>, i: int) -> int
    decreases s.len() - i,
{
    if i >= s.len() {
        s.len() as int
    } else if white(s[i]) {
        i
    } else {
        word_end(s, i + 1)
    }
}

/// The words of a text.
pub fn split_whitespace(s: &str) -> (r: Vec<String>)
    ensures
        crate::json::texts(r@) == words_from(s@, 0),
{
    let a = chars_of(s);
    let n: usize = a.len();
    let mut out: Vec<String> = Vec::new();
    let mut i: usize = 0;
    assert(crate::json::texts(out@) + words_from(a@, 0) =~= words_from(a@, 0));
    while i < n
        invariant
            n == a@.len(),
            i <= n,
            crate::json::texts(out@) + words_from(a@, i as int) == words_from(a@, 0),
        decreases n - i,
    {
        if is_white(a[i]) {
            i += 1;
        } else {
            let mut e: usize = i + 1;
            while e < n && !is_white(a[e])
                invariant
                    n == a@.len(),
                    i < e <= n,
                    word_end(a@, i as int) == word_end(a@, e as int),
                ensures
                    i < e <= n,
                    word_end(a@, i as int) == e,
                decreases n - e,
            {
                e += 1;
            }
            let ghost before = crate::json::texts(out@);
            let word = slice_text(&a, i, e);
            out.push(word);
            assert(crate::json::texts(out@) =~= before.push(word@));
            assert(crate::json::texts(out@) + words_from(a@, e as int) =~= before + words_from(
                a@,
                i as int,
            ));
            i = e;
        }
    }
    assert(crate::json::texts(out@) =~= crate::json::texts(out@) + Seq::<Seq<char>>::empty());
    out
}

/// How many bytes a character takes in UTF-8.
pub open spec fn char_width(c: char) -> int {
    vstd::utf8::encode_scalar(c as u32).len() as int
}

fn width_of(c: char) -> (r: usize)
    ensures
        r == char_width(c),
        1 <= r <= 4,
{
    let v: u32 = c as u32;
    if v <= 0x7F {
        1
    } else if v <= 0x7FF {
        2
    } else if v <= 0xFFFF {
        3
    } else {
        4
    }
}

/// The beginning of `s` that takes `n` bytes, where a character ends there.
pub open spec fn first_bytes(s: Seq<char>, n: int) -> Option<Seq<char>>
    decreases s.len(),
{
    if n == 0 {
        Some(Seq::empty())
    } else if s.len() == 0 || n < char_width(s[0]) {
        None
    } else {
        match first_bytes(s.skip(1), n - char_width(s[0])) {
            Some(rest) => Some(seq![s[0]] + rest),
            None => None,
        }
    }
}

/// The beginning of `s` that takes `n` bytes, where a character ends there.
pub fn take_bytes(s: &str, n: usize) -> (r: Option<String>)
    ensures
        crate::json::string_opt(r) == first_bytes(s@, n as int),
{
    let a = chars_of(s);
    let mut i: usize = 0;
    let mut left: usize = n;
    proof {
        assert(a@.skip(0) =~= a@);
        match first_bytes(a@, n as int) {
            Some(rest) => assert(a@.take(0) + rest =~= rest),
            None => {},
        }
    }
    while left > 0
        invariant
            a@ == s@,
            i <= a@.len(),
            first_bytes(s@, n as int) == (match first_bytes(a@.skip(i as int), left as int) {
                Some(rest) => Some(a@.take(i as int) + rest),
                None => None,
            }),
        decreases left,
    {
        if i == a.len() {
            return None;
        }
        let w: usize = width_of(a[i]);
        assert(a@.skip(i as int)[0] == a@[i as int]);
        if left < w {
            return None;
        }
        proof {
            assert(a@.skip(i as int).skip(1) =~= a@.skip(i as int + 1));
            match first_bytes(a@.skip(i as int + 1), left - w) {
                Some(rest) => assert(a@.take(i as int) + (seq![a@[i as int]] + rest) =~= a@.take(
                    i as int + 1,
                ) + rest),
                None => {},
            }
        }
        left -= w;
        i += 1;
    }
    assert(a@.take(i as int) + Seq::<char>::empty() =~= a@.subrange(0, i as int));
    Some(slice_text(&a, 0, i))
}

/// A hexadecimal digit, large.
pub open spec fn hex_char(d: int) -> char {
    if d < 10 {
        (48 + d) as char
    } else {
        (55 + d) as char
    }
}

/// A hexadecimal digit, large.
pub fn hex_digit_char(d: u8) -> (r: char)
    requires
        d < 16,
    ensures
        r == hex_char(d as int),
{
    if d < 10 {
        (48 + d) as char
    } else {
        (55 + d) as char
    }
}

/// A hexadecimal digit, small.
pub open spec fn small_hex_char(d: int) -> char {
    if d < 10 {
        (48 + d) as char
    } else {
        (87 + d) as char
    }
}

/// Whether a character is a small hexadecimal digit.
pub open spec fn is_small_hex(c: char) -> bool {
    '0' <= c <= '9' || 'a' <= c <= 'f'
}

/// Bytes in small hexadecimal digits, two to a byte.
pub open spec fn hexed(b: Seq<u8>) -> Seq<char> {
    Seq::new(
        2 * b.len(),
        |i: int|
            small_hex_char(
                if i % 2 == 0 {
                    b[i / 2] as int / 16
                } else {
                    b[i / 2] as int % 16
                },
            ),
    )
}

fn small_hex_digit(d: u8) -> (r: char)
    requires
        d < 16,
    ensures
        r == small_hex_char(d as int),
{
    if d < 10 {
        (48 + d) as char
    } else {
        (87 + d) as char
    }
}

/// Bytes in small hexadecimal digits, two to a byte.
pub fn hex_text(b: &Vec<u8>) -> (r: String)
    ensures
        r@ == hexed(b@),
        r@.len() == 2 * b@.len(),
        forall|i: int| 0 <= i < r@.len() ==> is_small_hex(#[trigger] r@[i]),
{
    let mut out: Vec<char> = Vec::new();
    let mut i: usize = 0;
    while i < b.len()
        invariant
            i <= b@.len(),
            out@ == hexed(b@.take(i as int)),
        decreases b@.len() - i,
    {
        out.push(small_hex_digit(b[i] / 16));
        out.push(small_hex_digit(b[i] % 16));
        i += 1;
        assert(out@ =~= hexed(b@.take(i as int)));
    }
    assert(b@.take(b@.len() as int) =~= b@);
    text_of(&out)
}

/// A text without the carriage return at its end, where it has one.
pub open spec fn before_return(s: Seq<char>) -> Seq<char> {
    if s.len() > 0 && s.last() == '\r' {
        s.drop_last()
    } else {
        s
    }
}

/// The lines that parts between line feeds are: a carriage return before a line feed belongs
/// to the end of the line, and what follows the last line feed is a line where it is not
/// empty.
pub open spec fn lines_of(parts: Seq<Seq<char>>) -> Seq<Seq<char>> {
    let n = parts.len() - 1;
    let ended = Seq::new(n as nat, |i: int| before_return(parts[i]));
    if parts.last().len() == 0 {
        ended
    } else {
        ended.push(parts.last())
    }
}

/// The lines of a text.
pub open spec fn lines(s: Seq<char>) -> Seq<Seq<char>> {
    lines_of(pieces(s, '\n'))
}

/// A text has a piece at least.
pub proof fn pieces_not_empty(s: Seq<char>, c: char, from: int)
    requires
        0 <= from <= s.len(),
    ensures
        pieces_from(s, c, from).len() > 0,
    decreases s.len() - from,
{
    char_from_is_first(s, c, from);
}

fn drop_return(s: &str) -> (r: String)
    ensures
        r@ == before_return(s@),
{
    let a = chars_of(s);
    let n: usize = a.len();
    if n > 0 && a[n - 1] == '\r' {
        assert(a@.subrange(0, n as int - 1) =~= a@.drop_last());
        slice_text(&a, 0, n - 1)
    } else {
        s.to_owned()
    }
}

/// The lines of a text.
pub fn split_lines(s: &str) -> (r: Vec<String>)
    ensures
        crate::json::texts(r@) == lines(s@),
{
    let parts = split(s, '\n');
    let n: usize = parts.len();
    let ghost all = pieces(s@, '\n');
    proof {
        pieces_not_empty(s@, '\n', 0);
        assert(crate::json::texts(parts@).len() == n);
    }
    let mut out: Vec<String> = Vec::new();
    let mut i: usize = 0;
    while i < n - 1
        invariant
            n == parts@.len(),
            n > 0,
            i <= n - 1,
            out@.len() == i,
            forall|j: int| 0 <= j < i ==> (#[trigger] out@[j])@ == before_return(parts@[j]@),
        decreases n - i,
    {
        out.push(drop_return(&parts[i]));
        i += 1;
    }
    assert(all.last() == parts@[n as int - 1]@);
    let ghost ended = Seq::new((n - 1) as nat, |j: int| before_return(all[j]));
    assert(crate::json::texts(out@) =~= ended) by {
        assert forall|j: int| 0 <= j < n - 1 implies all[j] == (#[trigger] parts@[j])@ by {}
    }
    if !parts[n - 1].as_str().is_empty() {
        out.push(parts[n - 1].clone());
        assert(crate::json::texts(out@) =~= ended.push(all.last()));
    }
    out
}

} // verus!
