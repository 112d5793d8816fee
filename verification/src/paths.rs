//! Paths as texts, with `/` between their components.

use crate::json;
use crate::text;
use vstd::prelude::*;

verus! {

/// Whether the piece `s[i..p]` between two separators is a component: it is not empty, and
/// it is not `.` unless the path begins with it.
pub open spec fn is_component(s: Seq<char>, i: int, p: int) -> bool {
    i < p && !(i > 0 && p == i + 1 && s[i] == '.')
}

/// Where the components of `s[i..]` begin and end.
pub open spec fn spans_from(s: Seq<char>, i: int) -> Seq<(int, int)>
    decreases s.len() - i,
    when 0 <= i <= s.len()
{
    proof {
        text::char_from_is_first(s, '/', i);
    }
    let p = text::char_from(s, '/', i);
    let rest = if p < s.len() {
        spans_from(s, p + 1)
    } else {
        Seq::empty()
    };
    if is_component(s, i, p) {
        seq![(i, p)] + rest
    } else {
        rest
    }
}

/// Where the components of a path begin and end.
pub open spec fn spans(s: Seq<char>) -> Seq<(int, int)> {
    spans_from(s, 0)
}

/// The texts of the spans.
pub open spec fn span_texts(s: Seq<char>, v: Seq<(int, int)>) -> Seq<Seq<char>> {
    Seq::new(v.len(), |i: int| s.subrange(v[i].0, v[i].1))
}

/// Whether a path begins at the root.
pub open spec fn rooted(s: Seq<char>) -> bool {
    s.len() > 0 && s[0] == '/'
}

/// The names of the components of a path.
pub open spec fn names(s: Seq<char>) -> Seq<Seq<char>> {
    span_texts(s, spans(s))
}

/// Whether the path `s` lies under the path `base` or is the same.
pub open spec fn under(s: Seq<char>, base: Seq<char>) -> bool {
    (base.len() > 0 ==> rooted(s) == rooted(base)) && names(base).len() <= names(s).len()
        && names(s).take(names(base).len() as int) == names(base)
}

/// The path `s` as seen from `base`, where it lies under it: what is left behind the
/// components of `base`.
pub open spec fn relative(s: Seq<char>, base: Seq<char>) -> Option<Seq<char>> {
    let v = spans(s);
    let k = names(base).len() as int;
    if !under(s, base) {
        None
    } else if base.len() == 0 {
        Some(
            s.take(
                if v.len() > 0 {
                    v.last().1
                } else if rooted(s) {
                    1
                } else {
                    0
                },
            ),
        )
    } else if k < v.len() {
        Some(s.subrange(v[k].0, v.last().1))
    } else {
        Some(Seq::empty())
    }
}

proof fn spans_are_ordered(s: Seq<char>, i: int)
    requires
        0 <= i <= s.len(),
    ensures
        forall|j: int|
            0 <= j < spans_from(s, i).len() ==> i <= (#[trigger] spans_from(s, i)[j]).0
                < spans_from(s, i)[j].1 <= s.len(),
        forall|j: int, k: int|
            0 <= j < k < spans_from(s, i).len() ==> (#[trigger] spans_from(s, i)[j]).1
                < (#[trigger] spans_from(s, i)[k]).0,
    decreases s.len() - i,
{
    text::char_from_is_first(s, '/', i);
    let p = text::char_from(s, '/', i);
    let all = spans_from(s, i);
    let rest = if p < s.len() {
        spans_from(s, p + 1)
    } else {
        Seq::empty()
    };
    if p < s.len() {
        spans_are_ordered(s, p + 1);
    }
    if is_component(s, i, p) {
        assert(all == seq![(i, p)] + rest);
        assert forall|j: int| 0 <= j < all.len() implies i <= (#[trigger] all[j]).0 < all[j].1
            <= s.len() by {
            if j > 0 {
                assert(all[j] == rest[j - 1]);
            }
        }
        assert forall|j: int, k: int| 0 <= j < k < all.len() implies (#[trigger] all[j]).1
            < (#[trigger] all[k]).0 by {
            assert(all[k] == rest[k - 1]);
            if j > 0 {
                assert(all[j] == rest[j - 1]);
            }
        }
    } else {
        assert(all == rest);
    }
}

/// The spans of a vector, as integers.
pub open spec fn span_ints(v: Seq<(usize, usize)>) -> Seq<(int, int)> {
    Seq::new(v.len(), |i: int| (v[i].0 as int, v[i].1 as int))
}

/// Where the components of a path begin and end.
pub fn find_spans(s: &Vec<char>) -> (r: Vec<(usize, usize)>)
    ensures
        span_ints(r@) == spans(s@),
        forall|j: int|
            0 <= j < r@.len() ==> (#[trigger] r@[j]).0 < r@[j].1 <= s@.len(),
        forall|j: int, k: int|
            0 <= j < k < r@.len() ==> (#[trigger] r@[j]).1 < (#[trigger] r@[k]).0,
{
    let n: usize = s.len();
    let mut out: Vec<(usize, usize)> = Vec::new();
    let mut i: usize = 0;
    assert(span_ints(out@) + spans_from(s@, 0) =~= spans(s@));
    proof {
        spans_are_ordered(s@, 0);
    }
    loop
        invariant
            n == s@.len(),
            i <= n,
            span_ints(out@) + spans_from(s@, i as int) == spans(s@),
            forall|j: int|
                0 <= j < spans(s@).len() ==> 0 <= (#[trigger] spans(s@)[j]).0 < spans(s@)[j].1
                    <= s@.len(),
            forall|j: int, k: int|
                0 <= j < k < spans(s@).len() ==> (#[trigger] spans(s@)[j]).1
                    < (#[trigger] spans(s@)[k]).0,
        decreases n - i,
    {
        let p = text::find_char(s, '/', i);
        let ghost before = out@;
        if i < p && !(i > 0 && p == i + 1 && s[i] == '.') {
            out.push((i, p));
            assert(span_ints(out@) =~= span_ints(before).push((i as int, p as int)));
        }
        if p == n {
            assert(span_ints(out@) =~= spans(s@));
            assert forall|j: int| 0 <= j < out@.len() implies (#[trigger] out@[j]).0 < out@[j].1
                <= s@.len() by {
                assert(spans(s@)[j] == (out@[j].0 as int, out@[j].1 as int));
            }
            assert forall|j: int, k: int| 0 <= j < k < out@.len() implies (#[trigger] out@[j]).1
                < (#[trigger] out@[k]).0 by {
                assert(spans(s@)[j] == (out@[j].0 as int, out@[j].1 as int));
                assert(spans(s@)[k] == (out@[k].0 as int, out@[k].1 as int));
            }
            return out;
        }
        assert(span_ints(out@) + spans_from(s@, p + 1) =~= span_ints(before) + spans_from(
            s@,
            i as int,
        ));
        i = p + 1;
    }
}

/// Whether `s[a.0..a.1]` and `t[b.0..b.1]` are the same.
fn same_span(s: &Vec<char>, a: (usize, usize), t: &Vec<char>, b: (usize, usize)) -> (r: bool)
    requires
        a.0 <= a.1 <= s@.len(),
        b.0 <= b.1 <= t@.len(),
    ensures
        r == (s@.subrange(a.0 as int, a.1 as int) == t@.subrange(b.0 as int, b.1 as int)),
{
    text::same(&text::slice_text(s, a.0, a.1), &text::slice_text(t, b.0, b.1))
}

/// Whether the path `s` lies under the path `base` or is the same.
pub fn starts_with(s: &str, base: &str) -> (r: bool)
    ensures
        r == under(s@, base@),
{
    strip_prefix(s, base).is_some()
}

/// The path `s` as seen from `base`, where it lies under it.
pub fn strip_prefix(s: &str, base: &str) -> (r: Option<String>)
    ensures
        json::string_opt(r) == relative(s@, base@),
{
    let a = text::chars_of(s);
    let b = text::chars_of(base);
    let v = find_spans(&a);
    let w = find_spans(&b);
    let ra = a.len() > 0 && a[0] == '/';
    let rb = b.len() > 0 && b[0] == '/';
    let k: usize = w.len();
    let n: usize = v.len();
    assert(names(base@).len() == k);
    assert(names(s@).len() == n);
    if (b.len() > 0 && ra != rb) || k > n {
        return None;
    }
    let mut i: usize = 0;
    while i < k
        invariant
            a@ == s@,
            b@ == base@,
            span_ints(v@) == spans(s@),
            span_ints(w@) == spans(base@),
            k == w@.len(),
            n == v@.len(),
            k <= n,
            i <= k,
            forall|j: int|
                0 <= j < v@.len() ==> (#[trigger] v@[j]).0 < v@[j].1 <= a@.len(),
            forall|j: int|
                0 <= j < w@.len() ==> (#[trigger] w@[j]).0 < w@[j].1 <= b@.len(),
            forall|j: int| 0 <= j < i ==> names(s@)[j] == names(base@)[j],
        decreases k - i,
    {
        assert(spans(s@)[i as int] == (v@[i as int].0 as int, v@[i as int].1 as int));
        assert(spans(base@)[i as int] == (w@[i as int].0 as int, w@[i as int].1 as int));
        if !same_span(&a, v[i], &b, w[i]) {
            assert(names(s@)[i as int] != names(base@)[i as int]);
            assert(names(s@).take(k as int)[i as int] != names(base@)[i as int]);
            return None;
        }
        i += 1;
    }
    assert(names(s@).take(k as int) =~= names(base@));
    if n > 0 {
        assert(spans(s@)[n as int - 1] == (v@[n as int - 1].0 as int, v@[n as int - 1].1 as int));
    }
    if b.len() == 0 {
        let end: usize = if n > 0 {
            v[n - 1].1
        } else if ra {
            1
        } else {
            0
        };
        assert(a@.take(end as int) =~= a@.subrange(0, end as int));
        return Some(text::slice_text(&a, 0, end));
    }
    if k < n {
        assert(spans(s@)[k as int] == (v@[k as int].0 as int, v@[k as int].1 as int));
        assert(v@[k as int].0 <= v@[n as int - 1].1);
        Some(text::slice_text(&a, v[k].0, v[n - 1].1))
    } else {
        Some(String::new())
    }
}

/// The components of a path once those that mean a directory itself are left out and those that
/// step out of one are taken together with the component that they step out of. Nothing steps
/// out of the root.
pub open spec fn settled(v: Seq<Seq<char>>, from_root: bool) -> Seq<Seq<char>>
    decreases v.len(),
{
    if v.len() == 0 {
        Seq::empty()
    } else {
        let rest = settled(v.drop_last(), from_root);
        if v.last() == "."@ {
            rest
        } else if v.last() != ".."@ {
            rest.push(v.last())
        } else if rest.len() > 0 && rest.last() != ".."@ {
            rest.drop_last()
        } else if from_root {
            rest
        } else {
            rest.push(v.last())
        }
    }
}

/// The components of a path once it is normalized.
pub open spec fn normal_names(s: Seq<char>) -> Seq<Seq<char>> {
    settled(names(s), rooted(s))
}

/// Whether the path `s` lies under the path `base` or is the same, both normalized.
pub open spec fn lies_under(s: Seq<char>, base: Seq<char>) -> bool {
    let a = normal_names(s);
    let b = normal_names(base);
    (base.len() > 0 ==> rooted(s) == rooted(base)) && b.len() <= a.len() && a.take(b.len() as int)
        == b && !(b.len() < a.len() && a[b.len() as int] == ".."@)
}

/// A path whose components name files and directories alone is normal as it stands.
pub proof fn plain_names_are_settled(v: Seq<Seq<char>>, from_root: bool)
    requires
        forall|i: int| 0 <= i < v.len() ==> #[trigger] v[i] != "."@ && v[i] != ".."@,
    ensures
        settled(v, from_root) == v,
    decreases v.len(),
{
    if v.len() > 0 {
        let d = v.drop_last();
        assert forall|i: int| 0 <= i < d.len() implies #[trigger] d[i] != "."@ && d[i]
            != ".."@ by {
            assert(d[i] == v[i]);
        }
        plain_names_are_settled(d, from_root);
        assert(v[v.len() - 1] == v.last());
        assert(d.push(v.last()) =~= v);
    }
}

/// The components of a path once it is normalized.
pub fn find_normal_names(s: &str) -> (r: Vec<String>)
    ensures
        json::texts(r@) == normal_names(s@),
{
    let a = text::chars_of(s);
    let v = find_spans(&a);
    let from_root = a.len() > 0 && a[0] == '/';
    let ghost all = names(s@);
    let mut out: Vec<String> = Vec::new();
    let mut i: usize = 0;
    assert(json::texts(out@) =~= settled(all.take(0), from_root));
    while i < v.len()
        invariant
            a@ == s@,
            all == names(s@),
            span_ints(v@) == spans(s@),
            all.len() == v@.len(),
            i <= v@.len(),
            forall|j: int| 0 <= j < v@.len() ==> (#[trigger] v@[j]).0 < v@[j].1 <= a@.len(),
            json::texts(out@) == settled(all.take(i as int), from_root),
        decreases v@.len() - i,
    {
        assert(spans(s@)[i as int] == (v@[i as int].0 as int, v@[i as int].1 as int));
        assert(all.take(i as int + 1).drop_last() =~= all.take(i as int));
        let name = text::slice_text(&a, v[i].0, v[i].1);
        assert(all.take(i as int + 1).last() == name@);
        let ghost before = out@;
        if !text::same(&name, ".") {
            let n: usize = out.len();
            assert(json::texts(before).len() == n);
            if !text::same(&name, "..") {
                out.push(name);
                assert(json::texts(out@) =~= json::texts(before).push(name@));
            } else if n > 0 && !text::same(&out[n - 1], "..") {
                assert(json::texts(before).last() == before[n as int - 1]@);
                let _ = out.pop();
                assert(json::texts(out@) =~= json::texts(before).drop_last());
            } else {
                assert(n > 0 ==> json::texts(before).last() == before[n as int - 1]@);
                if !from_root {
                    out.push(name);
                    assert(json::texts(out@) =~= json::texts(before).push(name@));
                }
            }
        }
        i += 1;
    }
    assert(all.take(all.len() as int) =~= all);
    out
}

/// Whether the path `s` lies under the path `base` or is the same, both normalized.
pub fn is_under(s: &str, base: &str) -> (r: bool)
    ensures
        r == lies_under(s@, base@),
{
    let a = find_normal_names(s);
    let b = find_normal_names(base);
    let x = text::chars_of(s);
    let y = text::chars_of(base);
    let ghost p = json::texts(a@);
    let ghost q = json::texts(b@);
    let k: usize = b.len();
    assert(p.len() == a@.len() && q.len() == k);
    if y.len() > 0 && (x.len() > 0 && x[0] == '/') != (y[0] == '/') {
        return false;
    }
    if k > a.len() {
        return false;
    }
    let mut i: usize = 0;
    while i < k
        invariant
            p == json::texts(a@),
            q == json::texts(b@),
            p == normal_names(s@),
            q == normal_names(base@),
            k == b@.len(),
            k <= a@.len(),
            i <= k,
            forall|j: int| 0 <= j < i ==> p[j] == q[j],
        decreases k - i,
    {
        assert(p[i as int] == a@[i as int]@ && q[i as int] == b@[i as int]@);
        if !text::same(&a[i], &b[i]) {
            assert(p.take(k as int)[i as int] != q[i as int]);
            return false;
        }
        i += 1;
    }
    assert(p.take(k as int) =~= q);
    if k < a.len() {
        assert(p[k as int] == a@[k as int]@);
        !text::same(&a[k], "..")
    } else {
        true
    }
}

/// `base` followed by `tail`; a `tail` that begins at the root stands alone.
pub open spec fn joined_path(base: Seq<char>, tail: Seq<char>) -> Seq<char> {
    if rooted(tail) {
        tail
    } else if base.len() == 0 || base.last() == '/' {
        base + tail
    } else {
        base + "/"@ + tail
    }
}

/// `base` followed by `tail`; a `tail` that begins at the root stands alone.
pub fn join(base: &str, tail: &str) -> (r: String)
    ensures
        r@ == joined_path(base@, tail@),
{
    let a = text::chars_of(base);
    let b = text::chars_of(tail);
    if b.len() > 0 && b[0] == '/' {
        tail.to_owned()
    } else if a.len() == 0 || a[a.len() - 1] == '/' {
        text::join2(base, tail)
    } else {
        text::join3(base, "/", tail)
    }
}

/// The last component of a path, where it names a file or a directory.
pub open spec fn last_name(s: Seq<char>) -> Option<Seq<char>> {
    let v = names(s);
    if v.len() == 0 || v.last() == "."@ || v.last() == ".."@ {
        None
    } else {
        Some(v.last())
    }
}

/// The last component of a path, where it names a file or a directory.
pub fn file_name(s: &str) -> (r: Option<String>)
    ensures
        json::string_opt(r) == last_name(s@),
{
    let a = text::chars_of(s);
    let v = find_spans(&a);
    let n: usize = v.len();
    assert(names(s@).len() == n);
    if n == 0 {
        return None;
    }
    assert(spans(s@)[n as int - 1] == (v@[n as int - 1].0 as int, v@[n as int - 1].1 as int));
    let name = text::slice_text(&a, v[n - 1].0, v[n - 1].1);
    if text::same(&name, ".") || text::same(&name, "..") {
        None
    } else {
        Some(name)
    }
}

/// The last position before `i` of the character `c`, plus one; zero where there is none.
pub open spec fn after_last(s: Seq<char>, c: char, i: int) -> int
    decreases i,
{
    if i <= 0 {
        0
    } else if s[i - 1] == c {
        i
    } else {
        after_last(s, c, i - 1)
    }
}

/// A name without its extension: what precedes its last dot, unless that is the first
/// character.
pub open spec fn stem_of(name: Seq<char>) -> Seq<char> {
    let p = after_last(name, '.', name.len() as int);
    if p <= 1 {
        name
    } else {
        name.take(p - 1)
    }
}

/// The extension of a name: what follows its last dot, unless that is the first character.
pub open spec fn extension_of(name: Seq<char>) -> Option<Seq<char>> {
    let p = after_last(name, '.', name.len() as int);
    if p <= 1 {
        None
    } else {
        Some(name.skip(p))
    }
}

/// The last position of `c` plus one; zero where there is none.
pub fn find_after_last(s: &Vec<char>, c: char) -> (r: usize)
    ensures
        r == after_last(s@, c, s@.len() as int),
        r <= s@.len(),
        r > 0 ==> s@[r as int - 1] == c,
{
    let mut i: usize = s.len();
    while i > 0
        invariant
            i <= s@.len(),
            after_last(s@, c, s@.len() as int) == after_last(s@, c, i as int),
        decreases i,
    {
        if s[i - 1] == c {
            return i;
        }
        i -= 1;
    }
    0
}

/// A file name without its extension.
pub fn stem(name: &str) -> (r: String)
    ensures
        r@ == stem_of(name@),
{
    let a = text::chars_of(name);
    let p = find_after_last(&a, '.');
    if p <= 1 {
        name.to_owned()
    } else {
        assert(a@.take(p as int - 1) =~= a@.subrange(0, p as int - 1));
        text::slice_text(&a, 0, p - 1)
    }
}

/// The extension of a file name.
pub fn extension(name: &str) -> (r: Option<String>)
    ensures
        json::string_opt(r) == extension_of(name@),
{
    let a = text::chars_of(name);
    let p = find_after_last(&a, '.');
    if p <= 1 {
        None
    } else {
        assert(a@.skip(p as int) =~= a@.subrange(p as int, a@.len() as int));
        Some(text::slice_text(&a, p, a.len()))
    }
}

/// A path below `root` as a client names it: from `root` on, with a leading slash and with
/// slashes for backslashes. A path that does not lie below `root` is left as it is.
pub open spec fn client_path(root: Seq<char>, path: Seq<char>) -> Seq<char> {
    match relative(path, root) {
        Some(rest) => {
            let s = text::replaced(rest, "\\"@, "/"@);
            if rooted(s) {
                s
            } else {
                "/"@ + s
            }
        },
        None => path,
    }
}

/// A path below `root` as a client names it.
pub fn client_relative_path(root: &str, path: &str) -> (r: String)
    ensures
        r@ == client_path(root@, path@),
{
    match strip_prefix(path, root) {
        Some(rest) => {
            proof {
                reveal_strlit("\\");
            }
            let s = text::replace(&rest, "\\", "/");
            let a = text::chars_of(&s);
            if a.len() > 0 && a[0] == '/' {
                s
            } else {
                text::join2("/", &s)
            }
        },
        None => path.to_owned(),
    }
}

proof fn char_from_is(s: Seq<char>, c: char, i: int, p: int)
    requires
        0 <= i <= p <= s.len(),
        p < s.len() ==> s[p] == c,
        forall|j: int| i <= j < p ==> s[j] != c,
    ensures
        text::char_from(s, c, i) == p,
{
    text::char_from_is_first(s, c, i);
    let q = text::char_from(s, c, i);
    if q < p {
        assert(s[q] != c);
    }
    if p < q {
        assert(s[p] != c);
    }
}

/// The components of a path that goes on behind a separator: those before it, then those
/// behind it.
proof fn spans_of_joined(a: Seq<char>, b: Seq<char>, i: int)
    requires
        0 <= i <= a.len(),
    ensures
        spans_from(a.push('/') + b, i) == spans_from(a, i) + spans_from(
            a.push('/') + b,
            a.len() as int + 1,
        ),
    decreases a.len() - i,
{
    let t = a.push('/') + b;
    let n = a.len() as int;
    text::char_from_is_first(a, '/', i);
    let p = text::char_from(a, '/', i);
    assert(forall|j: int| 0 <= j < n ==> t[j] == a[j]);
    assert(t[n] == '/');
    char_from_is(t, '/', i, p);
    assert(is_component(t, i, p) == is_component(a, i, p));
    if p < n {
        spans_of_joined(a, b, p + 1);
        assert(spans_from(t, i) =~= spans_from(a, i) + spans_from(t, n + 1));
    } else {
        assert(spans_from(t, i) =~= spans_from(a, i) + spans_from(t, n + 1));
    }
}

/// What precedes the separator between the two parts of a joined path.
spec fn before_separator(base: Seq<char>) -> Seq<char> {
    if base.last() == '/' {
        base.drop_last()
    } else {
        base
    }
}

proof fn joined_form(base: Seq<char>, tail: Seq<char>)
    requires
        base.len() > 0,
        !rooted(tail),
    ensures
        joined_path(base, tail) == before_separator(base).push('/') + tail,
        spans(base) == spans(before_separator(base)),
{
    let a = before_separator(base);
    reveal_strlit("/");
    assert("/"@ =~= seq!['/']);
    if base.last() == '/' {
        assert(a.push('/') =~= base);
        assert(a.push('/') + Seq::empty() =~= base);
        spans_of_joined(a, Seq::empty(), 0);
        let n = base.len() as int;
        char_from_is(base, '/', n, n);
        assert(spans_from(base, n) =~= Seq::empty());
        assert(spans(base) =~= spans(a));
    } else {
        assert(a.push('/') + tail =~= base + "/"@ + tail);
    }
}

/// What is joined to a path lies under it.
pub proof fn joined_lies_under(base: Seq<char>, tail: Seq<char>)
    requires
        base.len() > 0,
        !rooted(tail),
    ensures
        under(joined_path(base, tail), base),
{
    let t = joined_path(base, tail);
    let a = before_separator(base);
    joined_form(base, tail);
    spans_of_joined(a, tail, 0);
    spans_are_ordered(a, 0);
    let k = names(base).len() as int;
    assert forall|j: int| 0 <= j < k implies names(t)[j] == names(base)[j] by {
        let v = spans(a)[j];
        assert(spans(t)[j] == v);
        assert(t.subrange(v.0, v.1) =~= base.subrange(v.0, v.1));
    }
    assert(names(t).take(k) =~= names(base));
    assert(t[0] == base[0]);
}

/// Whether a path begins and ends with a component, and not with one that is left out.
pub open spec fn is_plain(s: Seq<char>) -> bool {
    s.len() > 0 && s[0] != '/' && s.last() != '/' && !(s[0] == '.' && (s.len() == 1 || s[1] == '/'))
        && !(s.last() == '.' && s[s.len() - 2] == '/')
}

proof fn last_span_ends(t: Seq<char>, i: int)
    requires
        0 < i < t.len(),
        t[i - 1] == '/',
        t.last() != '/',
        !(t.last() == '.' && t[t.len() - 2] == '/'),
    ensures
        spans_from(t, i).len() > 0,
        spans_from(t, i).last().1 == t.len(),
    decreases t.len() - i,
{
    text::char_from_is_first(t, '/', i);
    let p = text::char_from(t, '/', i);
    if p < t.len() {
        last_span_ends(t, p + 1);
    }
}

/// A plain path joined to another is what is seen of the result from there.
pub proof fn joined_is_seen(base: Seq<char>, tail: Seq<char>)
    requires
        base.len() > 0,
        is_plain(tail),
    ensures
        relative(joined_path(base, tail), base) == Some(tail),
{
    let t = joined_path(base, tail);
    let a = before_separator(base);
    joined_lies_under(base, tail);
    joined_form(base, tail);
    spans_of_joined(a, tail, 0);
    let n = a.len() as int + 1;
    assert(t.skip(n) =~= tail);
    assert(forall|j: int| 0 <= j < tail.len() ==> t[n + j] == tail[j]);
    assert(t[n - 1] == '/');
    if tail.len() >= 2 {
        assert(t[t.len() - 2] == tail[tail.len() - 2]);
        assert(t[n + 1] == tail[1]);
    }
    last_span_ends(t, n);
    text::char_from_is_first(t, '/', n);
    let p = text::char_from(t, '/', n);
    assert(is_component(t, n, p));
    assert(spans_from(t, n)[0] == (n, p));
    assert(spans(t)[spans(a).len() as int] == (n, p));
    assert(spans(t).last() == spans_from(t, n).last());
    assert(t.subrange(n, t.len() as int) =~= tail);
}

/// A name joined to a path is the last component of the normalized result, behind those of the
/// path.
pub proof fn joined_name_is_last(base: Seq<char>, name: Seq<char>)
    requires
        base.len() > 0,
        !name.contains('/'),
        name != "."@,
        name != ".."@,
    ensures
        joined_path(base, name).len() > 0,
        rooted(joined_path(base, name)) == rooted(base),
        normal_names(joined_path(base, name)) == if name.len() == 0 {
            normal_names(base)
        } else {
            normal_names(base).push(name)
        },
{
    let t = joined_path(base, name);
    let a = before_separator(base);
    assert(!rooted(name)) by {
        if rooted(name) {
            assert(name.contains(name[0]));
        }
    }
    joined_lies_under(base, name);
    joined_form(base, name);
    spans_of_joined(a, name, 0);
    let n = a.len() as int + 1;
    let k = names(base).len() as int;
    assert(t[0] == base[0]);
    assert forall|j: int| n <= j < t.len() implies t[j] != '/' by {
        assert(t[j] == name[j - n]);
        assert(name.contains(name[j - n]));
    }
    char_from_is(t, '/', n, t.len() as int);
    if name.len() == 0 {
        assert(spans_from(t, n) =~= Seq::empty());
        assert(names(t) =~= names(base));
    } else {
        reveal_strlit(".");
        assert(is_component(t, n, t.len() as int)) by {
            if name.len() == 1 && name[0] == '.' {
                assert(name =~= "."@);
            }
            assert(t[n] == name[0]);
        }
        assert(spans_from(t, n) =~= seq![(n, t.len() as int)]);
        assert(t.subrange(n, t.len() as int) =~= name);
        assert(names(t).last() == name);
        assert(names(t).drop_last() =~= names(base));
    }
}

/// A name on its own is the only component of the path that it is.
pub proof fn name_is_a_path(name: Seq<char>)
    requires
        name.len() > 0,
        !name.contains('/'),
    ensures
        names(name) == seq![name],
{
    assert forall|j: int| 0 <= j < name.len() implies name[j] != '/' by {
        assert(name.contains(name[j]));
    }
    char_from_is(name, '/', 0, name.len() as int);
    assert(spans(name) =~= seq![(0int, name.len() as int)]);
    assert(name.subrange(0, name.len() as int) =~= name);
    assert(names(name) =~= seq![name]);
}

/// A single name joined to a path is what is seen of the result from there.
pub proof fn joined_name_is_seen(base: Seq<char>, name: Seq<char>)
    requires
        base.len() > 0,
        name.len() > 0,
        !name.contains('/'),
        name != "."@,
    ensures
        relative(joined_path(base, name), base) == Some(name),
        name != ".."@ ==> last_name(joined_path(base, name)) == Some(name),
{
    let t = joined_path(base, name);
    let a = before_separator(base);
    assert(name[0] != '/') by {
        if name[0] == '/' {
            assert(name.contains(name[0]));
        }
    }
    joined_lies_under(base, name);
    joined_form(base, name);
    spans_of_joined(a, name, 0);
    let n = a.len() as int + 1;
    assert forall|j: int| n <= j < t.len() implies t[j] != '/' by {
        assert(t[j] == name[j - n]);
        assert(name.contains(name[j - n]));
    }
    char_from_is(t, '/', n, t.len() as int);
    reveal_strlit(".");
    assert(is_component(t, n, t.len() as int)) by {
        if name.len() == 1 && name[0] == '.' {
            assert(name =~= "."@);
        }
        assert(t[n] == name[0]);
    }
    assert(spans_from(t, n) =~= seq![(n, t.len() as int)]);
    assert(spans(t).last() == (n, t.len() as int));
    assert(t.subrange(n, t.len() as int) =~= name);
    assert(names(t).last() == name);
}

/// The path of the directory that the last component of a path lies in.
pub open spec fn parent_of(s: Seq<char>) -> Option<Seq<char>> {
    let v = spans(s);
    if v.len() == 0 {
        None
    } else if v.len() == 1 {
        Some(
            if rooted(s) {
                "/"@
            } else {
                Seq::empty()
            },
        )
    } else {
        Some(s.take(v[v.len() - 2].1))
    }
}

/// The path of the directory that the last component of a path lies in.
pub fn parent(s: &str) -> (r: Option<String>)
    ensures
        json::string_opt(r) == parent_of(s@),
{
    let a = text::chars_of(s);
    let v = find_spans(&a);
    let n: usize = v.len();
    assert(spans(s@).len() == n);
    if n == 0 {
        return None;
    }
    if n == 1 {
        if a[0] == '/' {
            return Some("/".to_owned());
        }
        return Some(String::new());
    }
    assert(spans(s@)[n as int - 2] == (v@[n as int - 2].0 as int, v@[n as int - 2].1 as int));
    assert(a@.take(v@[n as int - 2].1 as int) =~= a@.subrange(0, v@[n as int - 2].1 as int));
    Some(text::slice_text(&a, 0, v[n - 2].1))
}

/// The name of the file of a path without its extension, where there is one.
pub open spec fn path_stem(s: Seq<char>) -> Option<Seq<char>> {
    match last_name(s) {
        Some(n) => Some(stem_of(n)),
        None => None,
    }
}

/// The name of the file of a path without its extension, where there is one.
pub fn file_stem(s: &str) -> (r: Option<String>)
    ensures
        json::string_opt(r) == path_stem(s@),
{
    match file_name(s) {
        Some(n) => Some(stem(&n)),
        None => None,
    }
}

/// The extension of the file of a path, where there is one.
pub open spec fn path_extension(s: Seq<char>) -> Option<Seq<char>> {
    match last_name(s) {
        Some(n) => extension_of(n),
        None => None,
    }
}

/// The extension of the file of a path, where there is one.
pub fn file_extension(s: &str) -> (r: Option<String>)
    ensures
        json::string_opt(r) == path_extension(s@),
{
    match file_name(s) {
        Some(n) => extension(&n),
        None => None,
    }
}

} // verus!
