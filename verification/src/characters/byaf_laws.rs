//! What holds of the addresses that are made of the parts of a BYAF archive.

use crate::characters::byaf;
use crate::text;
use vstd::prelude::*;

verus! {

/// The value of a large hexadecimal digit.
pub open spec fn digit_value(c: char) -> int {
    if c <= '9' {
        c as int - 48
    } else {
        c as int - 55
    }
}

/// The bytes that an address stands for: a percent sign and the two hexadecimal digits behind
/// it stand for a byte, any other character for itself.
pub open spec fn percent_decoded(s: Seq<char>) -> Seq<u8>
    decreases s.len(),
{
    if s.len() == 0 {
        Seq::empty()
    } else if s[0] == '%' && s.len() >= 3 {
        seq![(16 * digit_value(s[1]) + digit_value(s[2])) as u8] + percent_decoded(s.skip(3))
    } else {
        seq![s[0] as u8] + percent_decoded(s.skip(1))
    }
}

proof fn uri_bytes_joined(a: Seq<u8>, b: Seq<u8>)
    ensures
        byaf::uri_bytes(a + b) == byaf::uri_bytes(a) + byaf::uri_bytes(b),
    decreases b.len(),
{
    if b.len() == 0 {
        assert(a + b =~= a);
        assert(byaf::uri_bytes(a) + Seq::<char>::empty() =~= byaf::uri_bytes(a));
    } else {
        uri_bytes_joined(a, b.drop_last());
        assert((a + b).drop_last() =~= a + b.drop_last());
        assert((byaf::uri_bytes(a) + byaf::uri_bytes(b.drop_last())) + byaf::uri_byte(b.last())
            =~= byaf::uri_bytes(a) + (byaf::uri_bytes(b.drop_last()) + byaf::uri_byte(b.last())));
    }
}

proof fn utf8_joined(s: Seq<char>, t: Seq<char>)
    ensures
        vstd::utf8::encode_utf8(s + t) == vstd::utf8::encode_utf8(s) + vstd::utf8::encode_utf8(t),
    decreases s.len(),
{
    if s.len() == 0 {
        assert(s + t =~= t);
        assert(Seq::<u8>::empty() + vstd::utf8::encode_utf8(t) =~= vstd::utf8::encode_utf8(t));
    } else {
        let d = s.drop_first();
        utf8_joined(d, t);
        assert((s + t).drop_first() =~= d + t);
        let head = vstd::utf8::encode_scalar(s[0] as u32);
        assert(head + (vstd::utf8::encode_utf8(d) + vstd::utf8::encode_utf8(t)) =~= (head
            + vstd::utf8::encode_utf8(d)) + vstd::utf8::encode_utf8(t));
    }
}

proof fn byte_is_decoded(b: u8, rest: Seq<char>)
    ensures
        percent_decoded(byaf::uri_byte(b) + rest) == seq![b] + percent_decoded(rest),
{
    let s = byaf::uri_byte(b) + rest;
    if byaf::uri_allowed(b) {
        assert(s.skip(1) =~= rest);
        assert((b as char) as u8 == b);
    } else {
        let hi = b as int / 16;
        let lo = b as int % 16;
        assert(0 <= hi < 16 && 0 <= lo < 16 && 16 * hi + lo == b);
        assert(digit_value(text::hex_char(hi)) == hi);
        assert(digit_value(text::hex_char(lo)) == lo);
        assert(s.skip(3) =~= rest);
    }
}

proof fn bytes_are_decoded(b: Seq<u8>)
    ensures
        percent_decoded(byaf::uri_bytes(b)) == b,
    decreases b.len(),
{
    if b.len() > 0 {
        let tail = b.skip(1);
        bytes_are_decoded(tail);
        assert(b =~= seq![b[0]] + tail);
        uri_bytes_joined(seq![b[0]], tail);
        assert(byaf::uri_bytes(seq![b[0]]) == byaf::uri_byte(b[0])) by {
            reveal_with_fuel(byaf::uri_bytes, 2);
            assert(seq![b[0]].drop_last() =~= Seq::<u8>::empty());
            assert(Seq::<char>::empty() + byaf::uri_byte(b[0]) =~= byaf::uri_byte(b[0]));
        }
        byte_is_decoded(b[0], byaf::uri_bytes(tail));
    }
}

proof fn bytes_are_ascii(b: Seq<u8>)
    ensures
        forall|i: int|
            0 <= i < byaf::uri_bytes(b).len() ==> (#[trigger] byaf::uri_bytes(b)[i]) as u32 <= 127,
    decreases b.len(),
{
    if b.len() > 0 {
        bytes_are_ascii(b.drop_last());
        let head = byaf::uri_bytes(b.drop_last());
        let tail = byaf::uri_byte(b.last());
        let all = byaf::uri_bytes(b);
        assert forall|i: int| 0 <= i < all.len() implies (#[trigger] all[i]) as u32 <= 127 by {
            if i < head.len() {
                assert(all[i] == head[i]);
            } else {
                assert(all[i] == tail[i - head.len()]);
            }
        }
    }
}

/// A text that was encoded for an address is all ASCII, and decoding it gives the bytes of the
/// text back.
pub proof fn encoded_uri_is_decoded(s: Seq<char>)
    ensures
        percent_decoded(byaf::uri_bytes(vstd::utf8::encode_utf8(s))) == vstd::utf8::encode_utf8(s),
        forall|i: int|
            0 <= i < byaf::uri_bytes(vstd::utf8::encode_utf8(s)).len() ==> (
            #[trigger] byaf::uri_bytes(vstd::utf8::encode_utf8(s))[i]) as u32 <= 127,
{
    bytes_are_decoded(vstd::utf8::encode_utf8(s));
    bytes_are_ascii(vstd::utf8::encode_utf8(s));
}

/// No two texts are encoded alike.
pub proof fn encoded_uri_is_unique(s: Seq<char>, t: Seq<char>)
    requires
        byaf::uri_bytes(vstd::utf8::encode_utf8(s)) == byaf::uri_bytes(vstd::utf8::encode_utf8(t)),
    ensures
        s == t,
{
    encoded_uri_is_decoded(s);
    encoded_uri_is_decoded(t);
    vstd::utf8::encode_utf8_decode_utf8(s);
    vstd::utf8::encode_utf8_decode_utf8(t);
}

/// Two texts in a row are encoded as each is by itself.
pub proof fn encoded_uri_of_joined(s: Seq<char>, t: Seq<char>)
    ensures
        byaf::uri_bytes(vstd::utf8::encode_utf8(s + t)) == byaf::uri_bytes(
            vstd::utf8::encode_utf8(s),
        ) + byaf::uri_bytes(vstd::utf8::encode_utf8(t)),
{
    utf8_joined(s, t);
    uri_bytes_joined(vstd::utf8::encode_utf8(s), vstd::utf8::encode_utf8(t));
}

/// A path with slashes for backslashes.
spec fn slashed(s: Seq<char>) -> Seq<char> {
    text::replaced(s, "\\"@, "/"@)
}

proof fn slashed_has_no_backslash(s: Seq<char>)
    ensures
        !slashed(s).contains('\\'),
        !s.contains('\\') ==> slashed(s) == s,
{
    reveal_strlit("\\");
    reveal_strlit("/");
    text::replacing_leaves_none(s, "\\"@, "/"@, 0);
    if !s.contains('\\') {
        text::replacing_nothing(s, "\\"@, "/"@, 0);
        assert(s.skip(0) =~= s);
    }
}

proof fn leading_dropped(s: Seq<char>, c: char) -> (n: int)
    ensures
        0 <= n <= s.len(),
        text::drop_leading(s, c) == s.skip(n),
        forall|i: int| 0 <= i < n ==> s[i] == c,
        n < s.len() ==> s[n] != c,
    decreases s.len(),
{
    if s.len() > 0 && s[0] == c {
        let m = leading_dropped(s.skip(1), c);
        assert(s.skip(1).skip(m) =~= s.skip(m + 1));
        assert forall|i: int| 0 <= i < m + 1 implies s[i] == c by {
            if i > 0 {
                assert(s.skip(1)[i - 1] == c);
            }
        }
        m + 1
    } else {
        assert(s.skip(0) =~= s);
        0
    }
}

proof fn trailing_dropped(s: Seq<char>, c: char) -> (n: int)
    ensures
        0 <= n <= s.len(),
        text::drop_trailing(s, c) == s.take(n),
        forall|i: int| n <= i < s.len() ==> s[i] == c,
        n > 0 ==> s[n - 1] != c,
    decreases s.len(),
{
    if s.len() > 0 && s.last() == c {
        let m = trailing_dropped(s.drop_last(), c);
        assert(s.drop_last().take(m) =~= s.take(m));
        assert forall|i: int| m <= i < s.len() implies s[i] == c by {
            if i < s.len() - 1 {
                assert(s.drop_last()[i] == c);
            }
        }
        m
    } else {
        assert(s.take(s.len() as int) =~= s);
        s.len() as int
    }
}

/// Two parts with a slash between them, where both are there.
spec fn linked(a: Seq<char>, b: Seq<char>) -> Seq<char> {
    if a.len() == 0 {
        b
    } else if b.len() == 0 {
        a
    } else {
        a + seq!['/'] + b
    }
}

proof fn linked_has_no_backslash(a: Seq<char>, b: Seq<char>)
    requires
        !a.contains('\\'),
        !b.contains('\\'),
    ensures
        !linked(a, b).contains('\\'),
{
    let s = linked(a, b);
    if s.contains('\\') {
        let k = choose|k: int| 0 <= k < s.len() && s[k] == '\\';
        if a.len() > 0 && b.len() > 0 {
            if k < a.len() {
                assert(a[k] == '\\');
            } else if k > a.len() {
                assert(b[k - a.len() - 1] == '\\');
            }
        }
        assert(false);
    }
}

proof fn joined_url_is_linked(base: Seq<char>, relative: Seq<char>)
    ensures
        byaf::joined_url(base, relative) == linked(
            text::drop_trailing(slashed(base), '/'),
            text::drop_leading(slashed(relative), '/'),
        ),
        !byaf::joined_url(base, relative).contains('\\'),
{
    reveal_strlit("/");
    assert("/"@ =~= seq!['/']);
    slashed_has_no_backslash(base);
    slashed_has_no_backslash(relative);
    let a = text::drop_trailing(slashed(base), '/');
    let b = text::drop_leading(slashed(relative), '/');
    let m = trailing_dropped(slashed(base), '/');
    let n = leading_dropped(slashed(relative), '/');
    assert forall|k: int| 0 <= k < a.len() implies a[k] != '\\' by {
        assert(slashed(base)[k] == a[k]);
    }
    assert forall|k: int| 0 <= k < b.len() implies b[k] != '\\' by {
        assert(slashed(relative)[n + k] == b[k]);
    }
    linked_has_no_backslash(a, b);
}

/// What two parts are joined to holds no backslash.
pub proof fn joined_url_has_no_backslash(base: Seq<char>, relative: Seq<char>)
    ensures
        !byaf::joined_url(base, relative).contains('\\'),
{
    joined_url_is_linked(base, relative);
}

proof fn trailing_of(s: Seq<char>, c: char, n: int)
    requires
        0 <= n <= s.len(),
        forall|i: int| n <= i < s.len() ==> s[i] == c,
        n > 0 ==> s[n - 1] != c,
    ensures
        text::drop_trailing(s, c) == s.take(n),
{
    let m = trailing_dropped(s, c);
    assert(m == n) by {
        if m < n {
            assert(s[n - 1] == c);
        }
        if n < m {
            assert(s[m - 1] == c);
        }
    }
}

proof fn leading_of(s: Seq<char>, c: char, n: int)
    requires
        0 <= n <= s.len(),
        forall|i: int| 0 <= i < n ==> s[i] == c,
        n < s.len() ==> s[n] != c,
    ensures
        text::drop_leading(s, c) == s.skip(n),
{
    let m = leading_dropped(s, c);
    assert(m == n) by {
        if m < n {
            assert(s[m] == c);
        }
        if n < m {
            assert(s[n] == c);
        }
    }
}

/// It does not matter which of three parts are joined first.
pub proof fn joining_is_associative(a: Seq<char>, b: Seq<char>, c: Seq<char>)
    ensures
        byaf::joined_url(byaf::joined_url(a, b), c) == byaf::joined_url(a, byaf::joined_url(b, c)),
{
    let left = byaf::joined_url(a, b);
    let right = byaf::joined_url(b, c);
    joined_url_is_linked(a, b);
    joined_url_is_linked(b, c);
    joined_url_is_linked(left, c);
    joined_url_is_linked(a, right);
    slashed_has_no_backslash(left);
    slashed_has_no_backslash(right);
    let f = text::drop_trailing(slashed(a), '/');
    let h = text::drop_leading(slashed(c), '/');
    let s = slashed(b);
    let n = leading_dropped(s, '/');
    let m = trailing_dropped(s, '/');
    let p = trailing_dropped(slashed(a), '/');
    let q = leading_dropped(slashed(c), '/');
    if f.len() > 0 {
        assert(f.last() == slashed(a)[p - 1]);
    }
    if h.len() > 0 {
        assert(h[0] == slashed(c)[q]);
    }
    if n == s.len() {
        assert(m == 0) by {
            if m > 0 {
                assert(s[m - 1] == '/');
            }
        }
        assert(left =~= f);
        assert(right =~= h);
        trailing_of(f, '/', f.len() as int);
        leading_of(h, '/', 0);
        assert(f.take(f.len() as int) =~= f);
        assert(h.skip(0) =~= h);
    } else {
        assert(n < m) by {
            assert(s[n] != '/');
        }
        let mid = s.subrange(n, m);
        assert(mid.len() > 0);
        let fm = linked(f, mid);
        let mh = linked(mid, h);
        assert(text::drop_trailing(left, '/') == fm) by {
            let start = left.len() - (s.len() - n);
            assert forall|i: int| fm.len() <= i < left.len() implies left[i] == '/' by {
                assert(left[i] == s[n + i - start]);
            }
            assert(left[fm.len() - 1] == s[m - 1]);
            trailing_of(left, '/', fm.len() as int);
            assert(left.take(fm.len() as int) =~= fm);
        }
        assert(text::drop_leading(right, '/') == mh) by {
            let k = n;
            assert forall|i: int| 0 <= i < k implies right[i] == '/' by {
                assert(right[i] == s[i]);
            }
            assert(right[k] == s[n]);
            leading_of(right, '/', k);
            assert(right.skip(k) =~= mh);
        }
        assert(linked(fm, h) =~= linked(f, mh));
    }
}

} // verus!
