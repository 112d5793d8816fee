//! Doubles by their bits, and whole numbers as doubles.

use crate::json::{Json, Number, Tree};
use vstd::prelude::*;

verus! {

/// One half.
pub const HALF: u64 = 0x3FE0_0000_0000_0000;

/// Zero.
pub const ZERO: u64 = 0;

/// One.
pub const ONE: u64 = 0x3FF0_0000_0000_0000;

/// Three.
pub const THREE: u64 = 0x4008_0000_0000_0000;

/// Four.
pub const FOUR: u64 = 0x4010_0000_0000_0000;

/// The smallest power of two `u` such that `n / u` has at most 53 bits.
pub open spec fn unit(n: nat) -> nat
    decreases n,
{
    if n < 0x20_0000_0000_0000 {
        1
    } else {
        2 * unit(n / 2)
    }
}

/// The multiple of `u` nearest to `n`; halfway between two, the even one.
pub open spec fn nearest(n: nat, u: nat) -> nat {
    let q = n / u;
    let r = n % u;
    if 2 * r > u || (2 * r == u && q % 2 == 1) {
        (q + 1) * u
    } else {
        q * u
    }
}

/// The double nearest to `n`, as a whole number.
pub open spec fn as_double(n: nat) -> nat {
    nearest(n, unit(n))
}

/// The largest power of two that is not above `n`.
pub open spec fn leading(n: nat) -> nat
    decreases n,
{
    if n < 2 {
        1
    } else {
        2 * leading(n / 2)
    }
}

/// The exponent of `leading(n)`.
pub open spec fn exponent(n: nat) -> nat
    decreases n,
{
    if n < 2 {
        0
    } else {
        1 + exponent(n / 2)
    }
}

/// The bits of the double nearest to `n`.
pub open spec fn double_bits(n: nat) -> nat {
    let m = as_double(n);
    if m == 0 {
        0
    } else {
        (1023 + exponent(m)) * 0x10_0000_0000_0000 + ((m - leading(m)) as nat
            * 0x10_0000_0000_0000) / leading(m)
    }
}

/// The size of a double without its sign.
pub open spec fn magnitude(b: u64) -> int {
    if b >= 0x8000_0000_0000_0000 {
        b - 0x8000_0000_0000_0000
    } else {
        b as int
    }
}

/// Whether the double is a number, finite or not.
pub open spec fn is_number(b: u64) -> bool {
    magnitude(b) <= 0x7FF0_0000_0000_0000
}

/// Whether the double is finite.
pub open spec fn finite(b: u64) -> bool {
    magnitude(b) < 0x7FF0_0000_0000_0000
}

/// The place of a double in the order of the numbers.
pub open spec fn rank(b: u64) -> int {
    if b >= 0x8000_0000_0000_0000 {
        -magnitude(b)
    } else {
        magnitude(b)
    }
}

/// Whether the double `a` is less than the double `b`.
pub open spec fn less(a: u64, b: u64) -> bool {
    is_number(a) && is_number(b) && rank(a) < rank(b)
}

/// Whether the double is a number, finite or not.
pub fn is_numeric(b: u64) -> (r: bool)
    ensures
        r == is_number(b),
{
    let m: u64 = if b >= 0x8000_0000_0000_0000 {
        b - 0x8000_0000_0000_0000
    } else {
        b
    };
    m <= 0x7FF0_0000_0000_0000
}

/// The place of a double in the order of the numbers.
fn rank_of(b: u64) -> (r: i128)
    ensures
        r == rank(b),
{
    if b >= 0x8000_0000_0000_0000 {
        -((b - 0x8000_0000_0000_0000) as i128)
    } else {
        b as i128
    }
}

/// Whether the double `a` is less than the double `b`.
pub fn is_less(a: u64, b: u64) -> (r: bool)
    ensures
        r == less(a, b),
{
    let x = rank_of(a);
    let y = rank_of(b);
    -0x7FF0_0000_0000_0000 <= x && x <= 0x7FF0_0000_0000_0000 && -0x7FF0_0000_0000_0000 <= y && y
        <= 0x7FF0_0000_0000_0000 && x < y
}

proof fn unit_bounds(n: nat)
    ensures
        1 <= unit(n),
        n >= 1 ==> unit(n) <= n,
        n / unit(n) < 0x20_0000_0000_0000,
    decreases n,
{
    if n >= 0x20_0000_0000_0000 {
        unit_bounds(n / 2);
        let u = unit(n / 2);
        assert(n / (2 * u) == (n / 2) / u) by (nonlinear_arith)
            requires
                u >= 1,
        {
            vstd::arithmetic::div_mod::lemma_div_denominator(n as int, 2, u as int);
        }
    } else {
        assert(n / 1 == n);
    }
}

/// The double nearest to `n`, as a whole number.
pub fn round_to_double(n: u64) -> (r: u128)
    ensures
        r == as_double(n as nat),
        r <= 0x2_0000_0000_0000_0002,
{
    let mut u: u128 = 1;
    let mut h: u64 = n;
    while h >= 0x20_0000_0000_0000
        invariant
            1 <= u,
            u * h <= n,
            unit(n as nat) == u * unit(h as nat),
        decreases h,
    {
        assert((2 * u) * (h / 2) <= n) by (nonlinear_arith)
            requires
                u * h <= n,
                u >= 1,
                h >= 0,
        ;
        assert(2 * u <= n) by (nonlinear_arith)
            requires
                u * h <= n,
                h >= 2,
        ;
        assert(u * (2 * unit((h / 2) as nat)) == (2 * u) * unit((h / 2) as nat))
            by (nonlinear_arith);
        u = 2 * u;
        h = h / 2;
    }
    assert(u * 1 == u);
    let w: u128 = n as u128;
    let q: u128 = w / u;
    let r: u128 = w % u;
    proof {
        unit_bounds(n as nat);
        vstd::arithmetic::div_mod::lemma_fundamental_div_mod(w as int, u as int);
        assert(q * u == u * q) by (nonlinear_arith);
        assert(q * u + u <= 2 * w + 2) by (nonlinear_arith)
            requires
                q * u <= w,
                u <= w + 1,
        ;
        assert((q + 1) * u == q * u + u) by (nonlinear_arith);
    }
    if 2 * r > u || (2 * r == u && q % 2 == 1) {
        (q + 1) * u
    } else {
        q * u
    }
}

proof fn leading_is(m: nat, p: nat, e: nat)
    requires
        p == vstd::arithmetic::power2::pow2(e),
        p <= m < 2 * p,
    ensures
        leading(m) == p,
        exponent(m) == e,
    decreases e,
{
    vstd::arithmetic::power2::lemma2_to64();
    if e > 0 {
        vstd::arithmetic::power2::lemma_pow2_unfold(e);
        leading_is(m / 2, vstd::arithmetic::power2::pow2((e - 1) as nat), (e - 1) as nat);
    }
}

/// The bits of the double nearest to `n`.
pub fn double_of(n: u64) -> (r: u64)
    ensures
        r == double_bits(n as nat),
        r < 0x7FF0_0000_0000_0000,
{
    let m: u128 = round_to_double(n);
    if m == 0 {
        return 0;
    }
    let mut p: u128 = 1;
    let mut e: u64 = 0;
    proof {
        vstd::arithmetic::power2::lemma2_to64();
    }
    while 2 * p <= m
        invariant
            m <= 0x2_0000_0000_0000_0002,
            1 <= p <= m,
            e < p,
            e <= 100,
            e >= 66 ==> p >= 0x4_0000_0000_0000_0000,
            p == vstd::arithmetic::power2::pow2(e as nat),
        decreases m - p,
    {
        proof {
            vstd::arithmetic::power2::lemma_pow2_unfold((e + 1) as nat);
            vstd::arithmetic::power2::lemma2_to64();
            vstd::arithmetic::power2::lemma2_to64_rest();
            if e >= 65 {
                vstd::arithmetic::power2::lemma_pow2_adds(64, (e + 1 - 64) as nat);
                vstd::arithmetic::power2::lemma_pow2_adds(2, (e + 1 - 66) as nat);
                vstd::arithmetic::power2::lemma_pow2_pos((e + 1 - 66) as nat);
                let x = vstd::arithmetic::power2::pow2((e + 1 - 66) as nat);
                assert(0x1_0000_0000_0000_0000 * (4 * x) >= 0x4_0000_0000_0000_0000)
                    by (nonlinear_arith)
                    requires
                        x >= 1,
                ;
            }
        }
        p = 2 * p;
        e = e + 1;
    }
    proof {
        leading_is(m as nat, p as nat, e as nat);
    }
    let rest: u128 = (m - p) * 0x10_0000_0000_0000;
    let fraction: u128 = rest / p;
    assert(fraction < 0x10_0000_0000_0000) by (nonlinear_arith)
        requires
            fraction == rest / p,
            rest == (m - p) * 0x10_0000_0000_0000,
            m - p < p,
            p >= 1,
    ;
    (1023 + e) * 0x10_0000_0000_0000 + fraction as u64
}

/// The bits of the double that a JSON number stands for; none for another value.
pub open spec fn double_value(t: Tree) -> Option<u64> {
    match t {
        Tree::Number(Number::Pos(x)) => Some(double_bits(x as nat) as u64),
        Tree::Number(Number::Neg(x)) => Some(
            (0x8000_0000_0000_0000 + double_bits(
                (if x < 0 {
                    -x
                } else {
                    x as int
                }) as nat,
            )) as u64,
        ),
        Tree::Float(b, _) => Some(b),
        _ => None,
    }
}

/// The bits of the double that a JSON number stands for; none for another value.
pub fn double_at(j: &Json) -> (r: Option<u64>)
    ensures
        r == double_value(j@),
{
    match j {
        Json::Number(Number::Pos(x)) => Some(double_of(*x)),
        Json::Number(Number::Neg(x)) => {
            let w: i128 = *x as i128;
            let a: u64 = (if w < 0 {
                -w
            } else {
                w
            }) as u64;
            Some(0x8000_0000_0000_0000 + double_of(a))
        },
        Json::Float(d) => Some(d.bits),
        _ => None,
    }
}

/// The number that decimal digits stand for; none where there are none or a character is
/// no digit.
pub open spec fn digits_value(s: Seq<char>) -> Option<nat>
    decreases s.len(),
{
    if s.len() == 0 {
        None
    } else if !('0' <= s.last() <= '9') {
        None
    } else {
        let d = (s.last() as int - 48) as nat;
        if s.len() == 1 {
            Some(d)
        } else {
            match digits_value(s.drop_last()) {
                Some(v) => Some(10 * v + d),
                None => None,
            }
        }
    }
}

/// The whole number that a text with an optional sign stands for.
pub open spec fn integer_value(s: Seq<char>) -> Option<int> {
    if s.len() > 0 && (s[0] == '+' || s[0] == '-') {
        match digits_value(s.skip(1)) {
            Some(v) => Some(
                if s[0] == '-' {
                    -(v as int)
                } else {
                    v as int
                },
            ),
            None => None,
        }
    } else {
        match digits_value(s) {
            Some(v) => Some(v as int),
            None => None,
        }
    }
}

/// The `i64` that a text stands for.
pub open spec fn i64_value(s: Seq<char>) -> Option<i64> {
    match integer_value(s) {
        Some(v) => if i64::MIN <= v <= i64::MAX {
            Some(v as i64)
        } else {
            None
        },
        None => None,
    }
}

/// The `u64` that a text stands for.
pub open spec fn u64_value(s: Seq<char>) -> Option<u64> {
    match integer_value(s) {
        Some(v) => if 0 <= v <= u64::MAX && s[0] != '-' {
            Some(v as u64)
        } else {
            None
        },
        None => None,
    }
}

proof fn digits_grow(s: Seq<char>, i: int)
    requires
        0 < i <= s.len(),
    ensures
        digits_value(s.take(i)) is None ==> digits_value(s) is None,
        digits_value(s.take(i)) matches Some(v) ==> (digits_value(s) matches Some(w) ==> v <= w),
    decreases s.len() - i,
{
    if i < s.len() {
        digits_grow(s.drop_last(), i);
        assert(s.drop_last().take(i) =~= s.take(i));
    } else {
        assert(s.take(i) =~= s);
    }
}

/// The number that the digits `s[from..]` stand for, where it is at most 2^64.
fn read_digits(s: &Vec<char>, from: usize) -> (r: Option<u128>)
    requires
        from <= s@.len(),
    ensures
        match r {
            Some(v) => digits_value(s@.skip(from as int)) == Some(v as nat) && v
                <= 0x1_0000_0000_0000_0000,
            None => match digits_value(s@.skip(from as int)) {
                Some(v) => v > 0x1_0000_0000_0000_0000,
                None => true,
            },
        },
{
    let ghost t = s@.skip(from as int);
    if from == s.len() {
        return None;
    }
    let mut acc: u128 = 0;
    let mut i: usize = from;
    while i < s.len()
        invariant
            t == s@.skip(from as int),
            from <= i <= s@.len(),
            from < s@.len(),
            acc <= 0x1_0000_0000_0000_0000,
            i == from ==> acc == 0,
            i > from ==> digits_value(t.take(i - from)) == Some(acc as nat),
        decreases s@.len() - i,
    {
        let c = s[i];
        let ghost k = i - from;
        assert(t.take(k + 1).drop_last() =~= t.take(k));
        assert(t.take(k + 1).last() == c);
        proof {
            digits_grow(t, k + 1);
        }
        if !('0' <= c && c <= '9') {
            return None;
        }
        let d: u128 = (c as u32 - 48) as u128;
        acc = acc * 10 + d;
        if acc > 0x1_0000_0000_0000_0000 {
            return None;
        }
        i += 1;
    }
    assert(t.take(t.len() as int) =~= t);
    Some(acc)
}

/// The `i64` that a text stands for: an optional sign and decimal digits.
pub fn parse_i64(s: &str) -> (r: Option<i64>)
    ensures
        r == i64_value(s@),
{
    let a = crate::text::chars_of(s);
    let signed = a.len() > 0 && (a[0] == '+' || a[0] == '-');
    assert(a@.skip(0) =~= a@);
    let from: usize = if signed {
        1
    } else {
        0
    };
    match read_digits(&a, from) {
        Some(v) => if signed && a[0] == '-' {
            if v <= 0x8000_0000_0000_0000 {
                Some((-(v as i128)) as i64)
            } else {
                None
            }
        } else if v <= 0x7FFF_FFFF_FFFF_FFFF {
            Some(v as i64)
        } else {
            None
        },
        None => None,
    }
}

/// The `u64` that a text stands for: an optional plus sign and decimal digits.
pub fn parse_u64(s: &str) -> (r: Option<u64>)
    ensures
        r == u64_value(s@),
{
    let a = crate::text::chars_of(s);
    if a.len() == 0 {
        return None;
    }
    assert(a@.skip(0) =~= a@);
    if a[0] == '-' {
        return None;
    }
    let from: usize = if a[0] == '+' {
        1
    } else {
        0
    };
    match read_digits(&a, from) {
        Some(v) => if v <= 0xFFFF_FFFF_FFFF_FFFF {
            Some(v as u64)
        } else {
            None
        },
        None => None,
    }
}

/// The digits of a double's fraction, with the one before the point.
pub open spec fn significand(b: u64) -> nat {
    let m = magnitude(b) as nat;
    if m < 0x10_0000_0000_0000 {
        m
    } else {
        m % 0x10_0000_0000_0000 + 0x10_0000_0000_0000
    }
}

/// The power of two that the significand of a double is multiplied by.
pub open spec fn scale_of(b: u64) -> int {
    let m = magnitude(b);
    if m < 0x10_0000_0000_0000 {
        -1074
    } else {
        m / 0x10_0000_0000_0000 - 1075
    }
}

/// The size of a double without what follows the point.
pub open spec fn whole_part(b: u64) -> nat {
    let e = scale_of(b);
    if e >= 0 {
        significand(b) * vstd::arithmetic::power2::pow2(e as nat)
    } else {
        significand(b) / vstd::arithmetic::power2::pow2((-e) as nat)
    }
}

/// A double as an `i64`: without what follows the point, and at most as far from zero as an
/// `i64` can be; zero where it is no number.
pub open spec fn as_i64(b: u64) -> i64 {
    let n = whole_part(b);
    if !is_number(b) {
        0
    } else if b >= 0x8000_0000_0000_0000 {
        if n >= 0x8000_0000_0000_0000 {
            i64::MIN
        } else {
            (-(n as int)) as i64
        }
    } else if n > i64::MAX {
        i64::MAX
    } else {
        n as i64
    }
}

fn power_of_two(k: u32) -> (r: u128)
    requires
        k < 64,
    ensures
        r == vstd::arithmetic::power2::pow2(k as nat),
        1 <= r <= 0x8000_0000_0000_0000,
{
    let mut p: u128 = 1;
    let mut i: u32 = 0;
    proof {
        vstd::arithmetic::power2::lemma2_to64();
    }
    while i < k
        invariant
            i <= k < 64,
            p == vstd::arithmetic::power2::pow2(i as nat),
            1 <= p <= 0x8000_0000_0000_0000,
        decreases k - i,
    {
        proof {
            vstd::arithmetic::power2::lemma_pow2_unfold((i + 1) as nat);
            vstd::arithmetic::power2::lemma_pow2_strictly_increases((i + 1) as nat, 64);
            vstd::arithmetic::power2::lemma2_to64();
            vstd::arithmetic::power2::lemma2_to64_rest();
            if i + 1 < 63 {
                vstd::arithmetic::power2::lemma_pow2_strictly_increases((i + 1) as nat, 63);
            }
        }
        p = 2 * p;
        i += 1;
    }
    p
}

/// A double as an `i64`.
pub fn double_to_i64(b: u64) -> (r: i64)
    ensures
        r == as_i64(b),
{
    let negative = b >= 0x8000_0000_0000_0000;
    let m: u64 = if negative {
        b - 0x8000_0000_0000_0000
    } else {
        b
    };
    if m > 0x7FF0_0000_0000_0000 {
        return 0;
    }
    if m < 0x10_0000_0000_0000 {
        proof {
            small_whole_part(b);
        }
        return 0;
    }
    let f: u64 = m % 0x10_0000_0000_0000 + 0x10_0000_0000_0000;
    let e: u64 = m / 0x10_0000_0000_0000;
    assert(significand(b) == f);
    assert(scale_of(b) == e - 1075);
    let n: u128 = if e >= 1086 {
        proof {
            large_whole_part(b);
        }
        0x8000_0000_0000_0000
    } else if e >= 1075 {
        let p = power_of_two((e - 1075) as u32);
        assert(f * p <= 0x20_0000_0000_0000 * 0x8000_0000_0000_0000) by (nonlinear_arith)
            requires
                f <= 0x20_0000_0000_0000,
                p <= 0x8000_0000_0000_0000,
        ;
        (f as u128) * p
    } else if 1075 - e >= 53 {
        proof {
            small_whole_part(b);
        }
        0
    } else {
        let p = power_of_two((1075 - e) as u32);
        assert((f as u128) / p == f as nat / p as nat);
        (f as u128) / p
    };
    if negative {
        if n >= 0x8000_0000_0000_0000 {
            i64::MIN
        } else {
            (-(n as i128)) as i64
        }
    } else if n > 0x7FFF_FFFF_FFFF_FFFF {
        i64::MAX
    } else {
        n as i64
    }
}

proof fn small_whole_part(b: u64)
    requires
        scale_of(b) <= -53,
    ensures
        whole_part(b) == 0,
{
    let k = (-scale_of(b)) as nat;
    let f = significand(b);
    vstd::arithmetic::power2::lemma2_to64_rest();
    vstd::arithmetic::power2::lemma2_to64();
    assert(f < 0x20_0000_0000_0000);
    if k > 53 {
        vstd::arithmetic::power2::lemma_pow2_strictly_increases(53, k);
    }
    assert(vstd::arithmetic::power2::pow2(53) == 0x20_0000_0000_0000);
    let p = vstd::arithmetic::power2::pow2(k);
    assert(f / p == 0) by (nonlinear_arith)
        requires
            f < p,
    ;
}

proof fn large_whole_part(b: u64)
    requires
        scale_of(b) >= 11,
    ensures
        whole_part(b) >= 0x8000_0000_0000_0000,
{
    let k = scale_of(b) as nat;
    let f = significand(b);
    vstd::arithmetic::power2::lemma2_to64();
    if k > 11 {
        vstd::arithmetic::power2::lemma_pow2_strictly_increases(11, k);
    }
    assert(vstd::arithmetic::power2::pow2(11) == 0x800);
    let p = vstd::arithmetic::power2::pow2(k);
    assert(f * p >= 0x10_0000_0000_0000 * 0x800) by (nonlinear_arith)
        requires
            f >= 0x10_0000_0000_0000,
            p >= 0x800,
    ;
}

/// A text and the number that it stands for.
#[derive(Debug)]
pub struct TextNumber {
    pub text: String,
    pub value: Json,
}

/// The number that a text stands for by the table, from the `i`th row on.
pub open spec fn number_from(table: Seq<TextNumber>, s: Seq<char>, i: int) -> Option<Tree>
    decreases table.len() - i,
{
    if i < 0 || i >= table.len() {
        None
    } else if table[i].text@ == s {
        Some(table[i].value@)
    } else {
        number_from(table, s, i + 1)
    }
}

/// The number that a text stands for by the table; `null` where it stands for none.
pub open spec fn number_named(table: Seq<TextNumber>, s: Seq<char>) -> Tree {
    crate::json::tree_or(number_from(table, s, 0), Tree::Null)
}

/// The number that a text stands for by the table, where it stands for one.
pub fn find_number(table: &Vec<TextNumber>, s: &str) -> (r: Option<Json>)
    ensures
        r matches Some(x) ==> number_from(table@, s@, 0) == Some(x@),
        r is None ==> number_from(table@, s@, 0) is None,
{
    let mut i: usize = 0;
    while i < table.len()
        invariant
            i <= table@.len(),
            number_from(table@, s@, 0) == number_from(table@, s@, i as int),
        decreases table@.len() - i,
    {
        if crate::text::same(&table[i].text, s) {
            return Some(table[i].value.copy());
        }
        i += 1;
    }
    None
}

/// The number that a text stands for by the table.
pub fn look_up_number(table: &Vec<TextNumber>, s: &str) -> (r: Json)
    ensures
        r@ == number_named(table@, s@),
{
    match find_number(table, s) {
        Some(x) => x,
        None => Json::Null,
    }
}

/// A JSON number as one that is not kept as a whole number. A whole number of more than 53
/// bits is looked up in the table by its decimal text.
pub open spec fn floated(t: Tree, table: Seq<TextNumber>) -> Option<Tree> {
    match t {
        Tree::Float(b, s) => Some(Tree::Float(b, s)),
        Tree::Number(Number::Pos(n)) => Some(
            if n < 0x20_0000_0000_0000 {
                Tree::Float(double_bits(n as nat) as u64, crate::text::decimal(n as nat) + ".0"@)
            } else {
                number_named(table, crate::text::decimal(n as nat))
            },
        ),
        Tree::Number(Number::Neg(n)) => Some(
            if -0x20_0000_0000_0000 < n < 0 {
                Tree::Float(
                    (0x8000_0000_0000_0000 + double_bits((-n) as nat)) as u64,
                    "-"@ + crate::text::decimal((-n) as nat) + ".0"@,
                )
            } else {
                number_named(table, crate::js::number_text(t->Number_0))
            },
        ),
        _ => None,
    }
}

/// A JSON number as one that is not kept as a whole number.
pub fn to_float(j: &Json, table: &Vec<TextNumber>) -> (r: Option<Json>)
    ensures
        r matches Some(x) ==> floated(j@, table@) == Some(x@),
        r is None ==> floated(j@, table@) is None,
{
    match j {
        Json::Float(_) => Some(j.copy()),
        Json::Number(Number::Pos(n)) => {
            let shown = crate::text::decimal_text(*n as u128);
            if *n < 0x20_0000_0000_0000 {
                Some(Json::float(double_of(*n), &crate::text::join2(&shown, ".0")))
            } else {
                Some(look_up_number(table, &shown))
            }
        },
        Json::Number(Number::Neg(n)) => {
            if -0x20_0000_0000_0000 < *n && *n < 0 {
                let a: u64 = (-*n) as u64;
                let shown = crate::text::join3("-", &crate::text::decimal_text(a as u128), ".0");
                Some(Json::float(0x8000_0000_0000_0000 + double_of(a), &shown))
            } else {
                Some(look_up_number(table, &crate::js::number_string(Number::Neg(*n))))
            }
        },
        _ => None,
    }
}

/// A double as JavaScript's bit operations read it: without what follows the point, and
/// what is left of it below 2^32; zero where it is not finite.
pub open spec fn as_int32(b: u64) -> u32 {
    let n = whole_part(b) % 0x1_0000_0000;
    if !finite(b) {
        0
    } else if b >= 0x8000_0000_0000_0000 {
        ((0x1_0000_0000 - n) % 0x1_0000_0000) as u32
    } else {
        n as u32
    }
}

proof fn scaled_away(b: u64)
    requires
        scale_of(b) >= 32,
    ensures
        whole_part(b) % 0x1_0000_0000 == 0,
{
    let k = scale_of(b) as nat;
    let f = significand(b);
    let p = vstd::arithmetic::power2::pow2((k - 32) as nat);
    vstd::arithmetic::power2::lemma2_to64();
    vstd::arithmetic::power2::lemma_pow2_adds(32, (k - 32) as nat);
    assert(f * (0x1_0000_0000 * p) == 0x1_0000_0000 * (f * p)) by (nonlinear_arith);
    vstd::arithmetic::div_mod::lemma_mod_multiples_basic((f * p) as int, 0x1_0000_0000);
    assert((0x1_0000_0000 * (f * p)) % 0x1_0000_0000 == 0);
}

/// A double as JavaScript's bit operations read it.
pub fn double_to_int32(b: u64) -> (r: u32)
    ensures
        r == as_int32(b),
{
    let negative = b >= 0x8000_0000_0000_0000;
    let m: u64 = if negative {
        b - 0x8000_0000_0000_0000
    } else {
        b
    };
    if m >= 0x7FF0_0000_0000_0000 {
        return 0;
    }
    if m < 0x10_0000_0000_0000 {
        proof {
            small_whole_part(b);
        }
        return 0;
    }
    let f: u64 = m % 0x10_0000_0000_0000 + 0x10_0000_0000_0000;
    let e: u64 = m / 0x10_0000_0000_0000;
    assert(significand(b) == f);
    assert(scale_of(b) == e - 1075);
    let n: u128 = if e >= 1107 {
        proof {
            scaled_away(b);
        }
        0
    } else if e >= 1075 {
        let p = power_of_two((e - 1075) as u32);
        assert(f * p <= 0x20_0000_0000_0000 * 0x8000_0000_0000_0000) by (nonlinear_arith)
            requires
                f <= 0x20_0000_0000_0000,
                p <= 0x8000_0000_0000_0000,
        ;
        ((f as u128) * p) % 0x1_0000_0000
    } else if 1075 - e >= 53 {
        proof {
            small_whole_part(b);
        }
        0
    } else {
        let p = power_of_two((1075 - e) as u32);
        assert((f as u128) / p == f as nat / p as nat);
        ((f as u128) / p) % 0x1_0000_0000
    };
    if negative {
        ((0x1_0000_0000 - n) % 0x1_0000_0000) as u32
    } else {
        n as u32
    }
}

/// Whether two doubles are equal as numbers.
pub open spec fn equal(a: u64, b: u64) -> bool {
    is_number(a) && is_number(b) && rank(a) == rank(b)
}

/// Whether two doubles are equal as numbers.
pub fn is_equal(a: u64, b: u64) -> (r: bool)
    ensures
        r == equal(a, b),
{
    is_numeric(a) && is_numeric(b) && !is_less(a, b) && !is_less(b, a)
}

/// What a character counts as a digit.
pub open spec fn digit_value(c: char) -> int {
    if '0' <= c <= '9' {
        c as int - 48
    } else if 'a' <= c <= 'z' {
        c as int - 87
    } else if 'A' <= c <= 'Z' {
        c as int - 55
    } else {
        36
    }
}

/// The number that digits of the base `radix` stand for; none where there are none or a
/// character is no such digit.
pub open spec fn radix_digits(s: Seq<char>, radix: nat) -> Option<nat>
    decreases s.len(),
{
    if s.len() == 0 {
        None
    } else if digit_value(s.last()) >= radix {
        None
    } else {
        let d = digit_value(s.last()) as nat;
        if s.len() == 1 {
            Some(d)
        } else {
            match radix_digits(s.drop_last(), radix) {
                Some(v) => Some(radix * v + d),
                None => None,
            }
        }
    }
}

/// The `u64` that an optional plus sign and digits of the base `radix` stand for.
pub open spec fn radix_value(s: Seq<char>, radix: nat) -> Option<u64> {
    let digits = if s.len() > 0 && s[0] == '+' {
        s.skip(1)
    } else {
        s
    };
    match radix_digits(digits, radix) {
        Some(v) => if v <= u64::MAX {
            Some(v as u64)
        } else {
            None
        },
        None => None,
    }
}

proof fn radix_digits_grow(s: Seq<char>, radix: nat, i: int)
    requires
        0 < i <= s.len(),
        radix >= 1,
    ensures
        radix_digits(s.take(i), radix) is None ==> radix_digits(s, radix) is None,
        radix_digits(s.take(i), radix) matches Some(v) ==> (radix_digits(s, radix) matches Some(w)
            ==> v <= w),
    decreases s.len() - i,
{
    if i < s.len() {
        radix_digits_grow(s.drop_last(), radix, i);
        assert(s.drop_last().take(i) =~= s.take(i));
        match radix_digits(s.drop_last(), radix) {
            Some(v) => {
                assert(v <= radix * v) by (nonlinear_arith)
                    requires
                        radix >= 1,
                ;
            },
            None => {},
        }
    } else {
        assert(s.take(i) =~= s);
    }
}

fn digit_of(c: char) -> (r: u32)
    ensures
        r == digit_value(c),
{
    if '0' <= c && c <= '9' {
        c as u32 - 48
    } else if 'a' <= c && c <= 'z' {
        c as u32 - 87
    } else if 'A' <= c && c <= 'Z' {
        c as u32 - 55
    } else {
        36
    }
}

/// The `u64` that an optional plus sign and digits of the base `radix` stand for.
pub fn parse_radix(s: &str, radix: u32) -> (r: Option<u64>)
    requires
        2 <= radix <= 36,
    ensures
        r == radix_value(s@, radix as nat),
{
    let a = crate::text::chars_of(s);
    let from: usize = if a.len() > 0 && a[0] == '+' {
        1
    } else {
        0
    };
    let ghost t = a@.skip(from as int);
    assert(from == 0 ==> t =~= a@);
    if from == a.len() {
        return None;
    }
    let mut acc: u128 = 0;
    let mut i: usize = from;
    while i < a.len()
        invariant
            t == a@.skip(from as int),
            from <= i <= a@.len(),
            from < a@.len(),
            2 <= radix <= 36,
            acc <= 0xFFFF_FFFF_FFFF_FFFF,
            i == from ==> acc == 0,
            i > from ==> radix_digits(t.take(i - from), radix as nat) == Some(acc as nat),
            a@ == s@,
            from == (if a@.len() > 0 && a@[0] == '+' {
                1int
            } else {
                0
            }),
            from == 0 ==> t == a@,
        decreases a@.len() - i,
    {
        let ghost k = i - from;
        assert(t.take(k + 1).drop_last() =~= t.take(k));
        assert(t.take(k + 1).last() == a@[i as int]);
        proof {
            radix_digits_grow(t, radix as nat, k + 1);
        }
        let d = digit_of(a[i]);
        if d >= radix {
            return None;
        }
        assert(acc * radix <= 0xFFFF_FFFF_FFFF_FFFF * 36) by (nonlinear_arith)
            requires
                acc <= 0xFFFF_FFFF_FFFF_FFFF,
                radix <= 36,
        ;
        assert(acc * radix == radix * acc) by (nonlinear_arith);
        acc = acc * radix as u128 + d as u128;
        if acc > 0xFFFF_FFFF_FFFF_FFFF {
            return None;
        }
        i += 1;
    }
    assert(t.take(t.len() as int) =~= t);
    Some(acc as u64)
}

} // verus!
