//! What holds of names, numbers and sizes: what is written is read again, and what is rounded is
//! near.

use crate::characters::charx;
use crate::characters::helpers;
use crate::json;
use crate::json::Tree;
use crate::numbers;
use crate::paths;
use crate::text;
use crate::text_laws;
use vstd::prelude::*;

verus! {

proof fn last_dot(a: Seq<char>, b: Seq<char>, i: int)
    requires
        !b.contains('.'),
        a.len() + 1 <= i <= a.len() + 1 + b.len(),
    ensures
        paths::after_last(a + seq!['.'] + b, '.', i) == a.len() + 1,
    decreases i,
{
    let s = a + seq!['.'] + b;
    if i > a.len() + 1 {
        assert(s[i - 1] == b[i - a.len() - 2]);
        assert(b.contains(b[i - a.len() - 2]));
        last_dot(a, b, i - 1);
    } else {
        assert(s[i - 1] == '.');
    }
}

proof fn no_dot(a: Seq<char>, i: int)
    requires
        !a.contains('.'),
        0 <= i <= a.len(),
    ensures
        paths::after_last(a, '.', i) == 0,
    decreases i,
{
    if i > 0 {
        assert(a.contains(a[i - 1]));
        no_dot(a, i - 1);
    }
}

/// A name is its stem, a dot and its extension; a name without a dot, or with only one at its
/// beginning, is its own stem.
pub proof fn name_is_parted_at_last_dot(a: Seq<char>, ext: Seq<char>)
    requires
        !ext.contains('.'),
    ensures
        a.len() > 0 ==> paths::stem_of(a + seq!['.'] + ext) == a && paths::extension_of(
            a + seq!['.'] + ext,
        ) == Some(ext),
        paths::stem_of(ext) == ext && paths::extension_of(ext) is None,
        paths::stem_of(seq!['.'] + ext) == seq!['.'] + ext,
{
    let s = a + seq!['.'] + ext;
    last_dot(a, ext, s.len() as int);
    no_dot(ext, ext.len() as int);
    if a.len() > 0 {
        assert(s.take(a.len() as int) =~= a);
        assert(s.skip((a.len() + 1) as int) =~= ext);
    }
    let e = Seq::<char>::empty();
    assert(e + seq!['.'] + ext =~= seq!['.'] + ext);
    last_dot(e, ext, (seq!['.'] + ext).len() as int);
}

/// The stem and the extension of a plain file name, taken as a path, are those of the name.
pub proof fn plain_name_is_a_path(a: Seq<char>, ext: Seq<char>)
    requires
        a.len() > 0,
        ext.len() > 0,
        !a.contains('/'),
        !ext.contains('/'),
        !ext.contains('.'),
    ensures
        paths::path_stem(a + seq!['.'] + ext) == Some(a),
        paths::path_extension(a + seq!['.'] + ext) == Some(ext),
        paths::last_name(a + seq!['.'] + ext) == Some(a + seq!['.'] + ext),
{
    let s = a + seq!['.'] + ext;
    assert forall|i: int| 0 <= i < s.len() implies s[i] != '/' by {
        if i < a.len() {
            assert(a.contains(a[i]));
        } else if i > a.len() {
            assert(ext.contains(ext[i - a.len() - 1]));
        }
    }
    paths::name_is_a_path(s);
    reveal_strlit(".");
    reveal_strlit("..");
    assert(s.len() >= 3);
    name_is_parted_at_last_dot(a, ext);
}

proof fn digits_of_decimal(n: nat)
    ensures
        numbers::digits_value(text::decimal(n)) == Some(n),
    decreases n,
{
    reveal_with_fuel(numbers::digits_value, 2);
    if n < 10 {
        let s = seq![text::digit(n as int)];
        assert(s.last() == text::digit(n as int));
        assert(numbers::digits_value(s) == Some(n));
    } else {
        digits_of_decimal(n / 10);
        text_laws::decimal_is_read_again(n / 10);
        let f = text::decimal(n / 10);
        let s = f.push(text::digit(n as int % 10));
        assert(s.drop_last() =~= f);
        assert(s.len() > 1);
    }
}

/// A number that is written in digits is read again, with its sign where it has one.
pub proof fn written_number_is_read(n: u64, m: i64)
    requires
        m > i64::MIN,
    ensures
        numbers::u64_value(text::decimal(n as nat)) == Some(n),
        m >= 0 ==> numbers::i64_value(text::decimal(m as nat)) == Some(m),
        m < 0 ==> numbers::i64_value(seq!['-'] + text::decimal((-m) as nat)) == Some(m)
            && numbers::u64_value(seq!['-'] + text::decimal((-m) as nat)) is None,
        numbers::u64_value(Seq::empty()) is None,
{
    digits_of_decimal(n as nat);
    text_laws::decimal_is_read_again(n as nat);
    assert('0' <= text::decimal(n as nat)[0] <= '9');
    if m >= 0 {
        digits_of_decimal(m as nat);
        text_laws::decimal_is_read_again(m as nat);
        assert('0' <= text::decimal(m as nat)[0] <= '9');
    } else {
        let k = (-m) as nat;
        digits_of_decimal(k);
        let s = seq!['-'] + text::decimal(k);
        assert(s.skip(1) =~= text::decimal(k));
    }
}

/// A text that is no number in digits is not read as one.
pub proof fn other_texts_are_no_numbers(s: Seq<char>, i: int)
    requires
        0 < i < s.len(),
        !('0' <= s[i] <= '9'),
    ensures
        numbers::u64_value(s) is None,
        numbers::i64_value(s) is None,
{
    no_digits(s, i);
    let t = s.skip(1);
    assert(t[i - 1] == s[i]);
    no_digits(t, i - 1);
}

proof fn no_digits(s: Seq<char>, i: int)
    requires
        0 <= i < s.len(),
        !('0' <= s[i] <= '9'),
    ensures
        numbers::digits_value(s) is None,
    decreases s.len(),
{
    if i < s.len() - 1 {
        no_digits(s.drop_last(), i);
    }
}

/// A whole number is at most half a unit away from where it is rounded to, and that is a multiple
/// of the unit; a number below the first unit larger than one stays as it is.
pub proof fn rounded_is_near(n: nat, u: nat)
    requires
        u > 0,
    ensures
        numbers::nearest(n, u) % u == 0,
        2 * (numbers::nearest(n, u) - n) <= u,
        2 * (n - numbers::nearest(n, u)) <= u,
        numbers::nearest(n, 1) == n,
        n < 0x20_0000_0000_0000 ==> numbers::as_double(n) == n,
{
    let q = n / u;
    let r = n % u;
    vstd::arithmetic::div_mod::lemma_fundamental_div_mod(n as int, u as int);
    assert((q + 1) * u == q * u + u) by (nonlinear_arith);
    assert(u * q == q * u) by (nonlinear_arith);
    vstd::arithmetic::div_mod::lemma_mod_multiples_basic(q as int, u as int);
    vstd::arithmetic::div_mod::lemma_mod_multiples_basic((q + 1) as int, u as int);
}

/// A size below a kilobyte is told in bytes, and whole kilobytes are told in kilobytes.
pub proof fn sizes_are_told(n: nat)
    requires
        n < 1024,
    ensures
        helpers::size_text(n) == text::decimal(n) + "B"@,
        n > 0 ==> helpers::size_text(1024 * n) == text::decimal(n) + "KB"@,
{
    reveal_with_fuel(helpers::kilo, 4);
    reveal_with_fuel(helpers::size_unit, 3);
    assert(helpers::kilo(0) == 1 && helpers::kilo(1) == 1024 && helpers::kilo(2) == 1048576);
    rounded_is_near(n, 1);
    rounded_is_near(n * 100, 1);
    assert((n * 100) / 100 == n);
    let m = 1024 * n;
    rounded_is_near(m, 1);
    assert(helpers::size_unit(n, 0) == 0);
    if n > 0 {
        assert(helpers::size_unit(m, 0) == 1);
        assert((m * 100) % 1024 == 0);
        assert((m * 100) / 1024 == n * 100);
        assert(numbers::nearest(m * 100, 1024) == (n * 100) * 1024);
    }
}

/// Numbers that are looked up are found by their text, the first of the same text counting.
pub proof fn number_is_found_by_text(table: Seq<numbers::TextNumber>, i: int, from: int)
    requires
        0 <= from <= i < table.len(),
        forall|j: int| from <= j < i ==> (#[trigger] table[j]).text@ != table[i].text@,
    ensures
        numbers::number_from(table, table[i].text@, from) == Some(table[i].value@),
    decreases i - from,
{
    if from < i {
        number_is_found_by_text(table, i, from + 1);
    }
}

/// A number in another radix is read digit by digit, the last one counting once.
pub proof fn radix_is_read_by_digits(s: Seq<char>, c: char, radix: nat, v: nat)
    requires
        s.len() > 0,
        numbers::radix_digits(s, radix) == Some(v),
        2 <= radix <= 16,
    ensures
        '0' <= c <= '9'
            && c as int - 48 < radix ==> numbers::radix_digits(s.push(c), radix) == Some(
            (radix * v + (c as int - 48)) as nat,
        ),
        'a' <= c <= 'f' && radix == 16 ==> numbers::radix_digits(s.push(c), radix) == Some(
            (16 * v + (c as int - 87)) as nat,
        ),
        'A' <= c <= 'F' && radix == 16 ==> numbers::radix_digits(s.push(c), radix) == Some(
            (16 * v + (c as int - 55)) as nat,
        ),
{
    assert(s.push(c).drop_last() =~= s);
    assert(s.push(c).last() == c);
    assert(radix * v >= 0) by (nonlinear_arith);
}

/// A slug keeps small letters and digits, makes capital letters small, and has one separator for
/// whatever stands between them.
pub proof fn slug_is_built_by_letters(s: Seq<char>, sep: char, c: char)
    requires
        sep == '-' || sep == '_',
    ensures
        'a' <= c <= 'z' || '0' <= c <= '9' ==> charx::slug(s.push(c), sep) == charx::slug(
            s,
            sep,
        ).push(c),
        'A' <= c <= 'Z' ==> charx::slug(s.push(c), sep) == charx::slug(s, sep).push(
            (c as u32 + 32) as char,
        ),
        c == ' ' ==> charx::slug(s.push(c), sep) == (if charx::slug(s, sep).len() > 0
            && charx::slug(s, sep).last() == sep {
            charx::slug(s, sep)
        } else {
            charx::slug(s, sep).push(sep)
        }),
        charx::slug(Seq::empty(), sep) == Seq::<char>::empty(),
{
    assert(s.push(c).drop_last() =~= s);
}

/// A small whole number is taken as the same number with a fraction of nothing.
pub proof fn whole_numbers_are_floated(
    n: u64,
    table: Seq<numbers::TextNumber>,
    b: u64,
    s: Seq<char>,
)
    ensures
        n < 0x20_0000_0000_0000 ==> (numbers::floated(json::num(n), table) matches Some(t)
            && t is Float && t->Float_1 == text::decimal(n as nat) + ".0"@),
        numbers::floated(Tree::Float(b, s), table) == Some(Tree::Float(b, s)),
        numbers::floated(Tree::Text(s), table) is None,
        numbers::floated(Tree::Null, table) is None,
{
}

} // verus!
