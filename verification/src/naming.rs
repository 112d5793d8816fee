//! File names that are not taken yet.

use crate::json;
use crate::text;
use vstd::prelude::*;

verus! {

proof fn decimal_is_not_empty(n: nat)
    ensures
        text::decimal(n).len() >= 1,
        n >= 10 ==> text::decimal(n).len() >= 2,
    decreases n,
{
    if n >= 10 {
        decimal_is_not_empty(n / 10);
    }
}

/// Two numbers with the same decimal text are the same.
pub proof fn decimal_is_injective(n: nat, m: nat)
    requires
        text::decimal(n) == text::decimal(m),
    ensures
        n == m,
    decreases n,
{
    decimal_is_not_empty(n);
    decimal_is_not_empty(m);
    let a = text::decimal(n);
    let b = text::decimal(m);
    if n < 10 && m < 10 {
        assert(a[0] == b[0]);
    } else {
        assert(a.last() == b.last());
        assert(a.drop_last() == b.drop_last());
        assert(text::decimal(n / 10) =~= a.drop_last());
        assert(text::decimal(m / 10) =~= b.drop_last());
        decimal_is_injective(n / 10, m / 10);
        assert(n as int % 10 == m as int % 10);
    }
}

/// The `i`th name to try: `base`, then `base` followed by 1, 2 and so on.
pub open spec fn numbered(base: Seq<char>, i: nat) -> Seq<char> {
    if i == 0 {
        base
    } else {
        base + text::decimal(i)
    }
}

proof fn numbered_is_injective(base: Seq<char>, i: nat, j: nat)
    requires
        numbered(base, i) == numbered(base, j),
    ensures
        i == j,
{
    decimal_is_not_empty(i);
    decimal_is_not_empty(j);
    if i > 0 && j > 0 {
        let n = base.len() as int;
        assert((base + text::decimal(i)).skip(n) =~= text::decimal(i));
        assert((base + text::decimal(j)).skip(n) =~= text::decimal(j));
        decimal_is_injective(i, j);
    }
}

/// Among as many names as there are taken ones and one more, one is free.
proof fn one_is_free(names: Seq<Seq<char>>, taken: Seq<Seq<char>>)
    requires
        names.no_duplicates(),
        names.len() > taken.len(),
    ensures
        exists|i: int| 0 <= i < names.len() && !taken.contains(#[trigger] names[i]),
{
    if forall|i: int| 0 <= i < names.len() ==> taken.contains(#[trigger] names[i]) {
        names.unique_seq_to_set();
        vstd::seq_lib::seq_to_set_is_finite(taken);
        taken.lemma_cardinality_of_set();
        assert(names.to_set().subset_of(taken.to_set())) by {
            assert forall|x: Seq<char>| names.to_set().contains(x) implies taken.to_set().contains(
                x,
            ) by {
                let i = choose|i: int| 0 <= i < names.len() && names[i] == x;
                assert(taken.contains(names[i]));
            }
        }
        vstd::set_lib::lemma_len_subset(names.to_set(), taken.to_set());
    }
}

/// Whether `name` is the first of the numbered names of `base` that is free: the file
/// `name` followed by `suffix` is not taken, and those of the names before it are.
pub open spec fn is_first_free(
    name: Seq<char>,
    base: Seq<char>,
    suffix: Seq<char>,
    taken: Seq<Seq<char>>,
) -> bool {
    exists|i: nat|
        {
            &&& name == #[trigger] numbered(base, i)
            &&& !taken.contains(name + suffix)
            &&& forall|j: nat| j < i ==> taken.contains(#[trigger] numbered(base, j) + suffix)
        }
}

/// Whether `name` is among the taken ones.
pub fn is_taken(name: &str, taken: &Vec<String>) -> (r: bool)
    ensures
        r == json::texts(taken@).contains(name@),
{
    let ghost all = json::texts(taken@);
    let mut i: usize = 0;
    while i < taken.len()
        invariant
            all == json::texts(taken@),
            i <= taken@.len(),
            forall|j: int| 0 <= j < i ==> all[j] != name@,
        decreases taken@.len() - i,
    {
        if text::same(&taken[i], name) {
            assert(all[i as int] == name@);
            return true;
        }
        i += 1;
    }
    false
}

/// The first of the numbered names of `base` that is free.
pub fn first_free(base: &str, suffix: &str, taken: &Vec<String>) -> (r: String)
    ensures
        is_first_free(r@, base@, suffix@, json::texts(taken@)),
{
    let ghost all = json::texts(taken@);
    let limit: usize = taken.len();
    let mut name = base.to_owned();
    let mut i: usize = 0;
    while is_taken(&text::join2(&name, suffix), taken)
        invariant
            all == json::texts(taken@),
            limit == taken@.len(),
            i <= limit,
            name@ == numbered(base@, i as nat),
            forall|j: nat| j < i ==> all.contains(#[trigger] numbered(base@, j) + suffix@),
        ensures
            !all.contains(name@ + suffix@),
        decreases limit - i,
    {
        proof {
            if i == limit {
                let names = Seq::new(
                    (limit + 1) as nat,
                    |k: int| numbered(base@, k as nat) + suffix@,
                );
                assert forall|a: int, b: int| 0 <= a < b < names.len() implies names[a]
                    != names[b] by {
                    if names[a] == names[b] {
                        let x = numbered(base@, a as nat);
                        let y = numbered(base@, b as nat);
                        assert((x + suffix@).len() == (y + suffix@).len());
                        assert((x + suffix@).take(x.len() as int) =~= x);
                        assert((y + suffix@).take(y.len() as int) =~= y);
                        numbered_is_injective(base@, a as nat, b as nat);
                    }
                }
                one_is_free(names, all);
                let f = choose|f: int| 0 <= f < names.len() && !all.contains(#[trigger] names[f]);
                assert(names[f] == numbered(base@, f as nat) + suffix@);
                assert(false);
            }
        }
        i += 1;
        name = text::join2(base, &text::decimal_text(i as u128));
    }
    name
}

/// The `i`th name to try where the numbers begin at `start`.
pub open spec fn numbered_from(prefix: Seq<char>, start: nat, i: nat) -> Seq<char> {
    prefix + text::decimal(start + i)
}

/// Whether `name` is the first of the names made of `prefix` and a number, from `start` on,
/// that is free: the file `name` followed by `suffix` is not taken, and those before it are.
pub open spec fn is_first_numbered(
    name: Seq<char>,
    prefix: Seq<char>,
    start: nat,
    suffix: Seq<char>,
    taken: Seq<Seq<char>>,
) -> bool {
    exists|i: nat|
        {
            &&& name == #[trigger] numbered_from(prefix, start, i)
            &&& !taken.contains(name + suffix)
            &&& forall|j: nat|
                j < i ==> taken.contains(#[trigger] numbered_from(prefix, start, j) + suffix)
        }
}

/// The first of the names made of `prefix` and a number, from `start` on, that is free.
pub fn first_numbered(prefix: &str, start: u64, suffix: &str, taken: &Vec<String>) -> (r: String)
    ensures
        is_first_numbered(r@, prefix@, start as nat, suffix@, json::texts(taken@)),
{
    let ghost all = json::texts(taken@);
    let limit: usize = taken.len();
    let mut name = text::join2(prefix, &text::decimal_text(start as u128));
    let mut i: usize = 0;
    while is_taken(&text::join2(&name, suffix), taken)
        invariant
            all == json::texts(taken@),
            limit == taken@.len(),
            i <= limit,
            name@ == numbered_from(prefix@, start as nat, i as nat),
            forall|j: nat|
                j < i ==> all.contains(
                    #[trigger] numbered_from(prefix@, start as nat, j) + suffix@,
                ),
        ensures
            !all.contains(name@ + suffix@),
        decreases limit - i,
    {
        proof {
            if i == limit {
                let names = Seq::new(
                    (limit + 1) as nat,
                    |k: int| numbered_from(prefix@, start as nat, k as nat) + suffix@,
                );
                assert forall|a: int, b: int| 0 <= a < b < names.len() implies names[a]
                    != names[b] by {
                    if names[a] == names[b] {
                        let x = numbered_from(prefix@, start as nat, a as nat);
                        let y = numbered_from(prefix@, start as nat, b as nat);
                        let n = prefix@.len() as int;
                        assert((x + suffix@).len() == (y + suffix@).len());
                        assert((x + suffix@).take(x.len() as int) =~= x);
                        assert((y + suffix@).take(y.len() as int) =~= y);
                        assert(x.skip(n) =~= text::decimal(start as nat + a as nat));
                        assert(y.skip(n) =~= text::decimal(start as nat + b as nat));
                        decimal_is_injective(start as nat + a as nat, start as nat + b as nat);
                    }
                }
                one_is_free(names, all);
                let f = choose|f: int| 0 <= f < names.len() && !all.contains(#[trigger] names[f]);
                assert(names[f] == numbered_from(prefix@, start as nat, f as nat) + suffix@);
                assert(false);
            }
        }
        i += 1;
        let number: u128 = start as u128 + i as u128;
        name = text::join2(prefix, &text::decimal_text(number));
    }
    name
}

} // verus!
