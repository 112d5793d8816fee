//! What holds of merging one value into another.

use crate::characters::helpers;
use crate::characters::laws;
use crate::json;
use crate::json::Tree;
use vstd::prelude::*;

verus! {

/// Whether no object in a value, however deep among its members, has a key twice.
pub open spec fn well_keyed(t: Tree) -> bool
    decreases t,
{
    match t {
        Tree::Object(f) => json::keys_distinct(f) && forall|i: int|
            #![trigger f[i]]
            0 <= i < f.len() ==> well_keyed(f[i].1),
        _ => true,
    }
}

/// What comes out under a key of the source.
spec fn taken(t: Seq<(Seq<char>, Tree)>, k: Seq<char>, v: Tree) -> Tree {
    match json::lookup(t, k) {
        Some(u) => if v is Object {
            helpers::merged(u, v)
        } else {
            v
        },
        None => v,
    }
}

proof fn lookup_of_member(f: Seq<(Seq<char>, Tree)>, i: int)
    requires
        json::keys_distinct(f),
        0 <= i < f.len(),
    ensures
        json::lookup(f, f[i].0) == Some(f[i].1),
{
    assert forall|j: int| 0 <= j < i implies #[trigger] f[j].0 != f[i].0 by {
        assert(f[j].0 != f[i].0);
    }
    json::position_is(f, f[i].0, i);
}

proof fn put_of_same(f: Seq<(Seq<char>, Tree)>, k: Seq<char>, v: Tree)
    requires
        json::lookup(f, k) == Some(v),
    ensures
        json::put(f, k, v) == f,
{
    json::position_is_first(f, k, 0);
    let p = json::position(f, k, 0);
    assert(f.update(p, (k, v)) =~= f);
}

/// Merging members that are there already, each with the value that comes out, changes nothing.
proof fn merging_what_is_there(m: Seq<(Seq<char>, Tree)>, s: Seq<(Seq<char>, Tree)>)
    requires
        forall|i: int|
            #![trigger s[i]]
            0 <= i < s.len() ==> json::lookup(m, s[i].0) == Some(taken(m, s[i].0, s[i].1)),
    ensures
        helpers::merged_members(m, s) == m,
    decreases s.len(),
{
    if s.len() > 0 {
        let h = s.drop_last();
        assert forall|i: int| #![trigger h[i]] 0 <= i < h.len() implies json::lookup(m, h[i].0)
            == Some(taken(m, h[i].0, h[i].1)) by {
            assert(h[i] == s[i]);
        }
        merging_what_is_there(m, h);
        assert(s[s.len() - 1] == s.last());
        put_of_same(m, s.last().0, taken(m, s.last().0, s.last().1));
    }
}

/// Merging a value into itself changes nothing.
pub proof fn merging_with_itself(t: Tree)
    requires
        well_keyed(t),
    ensures
        helpers::merged(t, t) == t,
    decreases t,
{
    match t {
        Tree::Object(f) => {
            assert forall|i: int| #![trigger f[i]] 0 <= i < f.len() implies json::lookup(f, f[i].0)
                == Some(taken(f, f[i].0, f[i].1)) by {
                lookup_of_member(f, i);
                merging_with_itself(f[i].1);
            }
            merging_what_is_there(f, f);
        },
        _ => {},
    }
}

/// Merging the same source once more changes nothing.
pub proof fn merging_twice(t: Tree, s: Tree)
    requires
        well_keyed(s),
    ensures
        helpers::merged(helpers::merged(t, s), s) == helpers::merged(t, s),
    decreases s,
{
    match (t, s) {
        (Tree::Object(a), Tree::Object(b)) => {
            let m = helpers::merged_members(a, b);
            assert forall|i: int| #![trigger b[i]] 0 <= i < b.len() implies json::lookup(m, b[i].0)
                == Some(taken(m, b[i].0, b[i].1)) by {
                laws::merging_takes_members(a, b, i);
                match json::lookup(a, b[i].0) {
                    Some(u) => merging_twice(u, b[i].1),
                    None => merging_with_itself(b[i].1),
                }
            }
            merging_what_is_there(m, b);
        },
        _ => merging_with_itself(s),
    }
}

/// The keys of what comes out are those of the target and those of the source.
pub proof fn merging_unites_keys(t: Seq<(Seq<char>, Tree)>, s: Seq<(Seq<char>, Tree)>, k: Seq<char>)
    ensures
        json::lookup(helpers::merged_members(t, s), k) is Some <==> json::lookup(t, k) is Some
            || json::lookup(s, k) is Some,
    decreases s.len(),
{
    if s.len() == 0 {
    } else {
        let h = s.drop_last();
        let last = s.last();
        merging_unites_keys(t, h, k);
        json::position_is_first(h, k, 0);
        json::position_is_first(s, k, 0);
        let p = json::position(h, k, 0);
        let w = taken(t, last.0, last.1);
        if p < h.len() {
            assert forall|j: int| 0 <= j < p implies #[trigger] s[j].0 != k by {
                assert(h[j].0 != k);
            }
            assert(s[p] == h[p]);
            json::position_is(s, k, p);
        } else {
            assert forall|j: int| 0 <= j < s.len() - 1 implies #[trigger] s[j].0 != k by {
                assert(h[j].0 != k);
            }
            if last.0 == k {
                json::position_is(s, k, s.len() - 1);
            } else {
                assert forall|j: int| 0 <= j < s.len() implies #[trigger] s[j].0 != k by {}
                json::position_is(s, k, s.len() as int);
            }
        }
        if last.0 == k {
            json::lookup_after_put(helpers::merged_members(t, h), k, w);
        } else {
            json::lookup_after_put_elsewhere(helpers::merged_members(t, h), last.0, w, k);
        }
    }
}

} // verus!
