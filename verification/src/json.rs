//! JSON values: the tree that requests, character cards, chats and answers are
//! made of.

use crate::text;
use vstd::prelude::*;

verus! {

/// A whole number.
#[derive(Clone, Copy, Debug, PartialEq, Eq, Structural)]
pub enum Number {
    /// A whole number that is not negative.
    Pos(u64),
    /// A negative whole number.
    Neg(i64),
}

/// A number that is not kept as a whole number: the bits of its double-precision value
/// and the text that it is printed as.
#[derive(Debug)]
pub struct Double {
    pub bits: u64,
    pub text: String,
}

/// A JSON value.
#[derive(Debug)]
pub enum Json {
    Null,
    Bool(bool),
    Number(Number),
    Float(Double),
    Text(String),
    Array(Vec<Json>),
    Object(Fields),
}

/// The members of an object, in the order in which they were added.
#[derive(Debug)]
pub struct Fields {
    pub members: Vec<Member>,
}

/// A key of an object and its value.
#[derive(Debug)]
pub struct Member {
    pub key: String,
    pub value: Json,
}

/// What a [`Json`] is, with texts and lists as sequences.
pub enum Tree {
    Null,
    Bool(bool),
    Number(Number),
    Float(u64, Seq<char>),
    Text(Seq<char>),
    Array(Seq<Tree>),
    Object(Seq<(Seq<char>, Tree)>),
}

impl Json {
    pub open spec fn view(&self) -> Tree
        decreases self,
    {
        match self {
            Json::Null => Tree::Null,
            Json::Bool(b) => Tree::Bool(*b),
            Json::Number(n) => Tree::Number(*n),
            Json::Float(d) => Tree::Float(d.bits, d.text@),
            Json::Text(s) => Tree::Text(s@),
            Json::Array(v) => Tree::Array(
                Seq::new(
                    v@.len(),
                    |i: int|
                        if 0 <= i < v@.len() {
                            v@[i].view()
                        } else {
                            Tree::Null
                        },
                ),
            ),
            Json::Object(f) => Tree::Object(f.view()),
        }
    }
}

impl Fields {
    pub open spec fn view(&self) -> Seq<(Seq<char>, Tree)>
        decreases self,
    {
        Seq::new(
            self.members@.len(),
            |i: int|
                if 0 <= i < self.members@.len() {
                    self.members@[i].view()
                } else {
                    (Seq::empty(), Tree::Null)
                },
        )
    }
}

impl Member {
    pub open spec fn view(&self) -> (Seq<char>, Tree)
        decreases self,
    {
        (self.key@, self.value.view())
    }
}

/// The trees of a sequence of values.
pub open spec fn trees(s: Seq<Json>) -> Seq<Tree> {
    Seq::new(s.len(), |i: int| s[i]@)
}

/// The texts of a sequence of strings.
pub open spec fn texts(s: Seq<String>) -> Seq<Seq<char>> {
    Seq::new(s.len(), |i: int| s[i]@)
}

/// The tree behind an optional value.
pub open spec fn tree_opt(o: Option<&Json>) -> Option<Tree> {
    match o {
        Some(j) => Some(j@),
        None => None,
    }
}

/// The text behind an optional slice.
pub open spec fn text_opt(o: Option<&str>) -> Option<Seq<char>> {
    match o {
        Some(s) => Some(s@),
        None => None,
    }
}

/// The text behind an optional string.
pub open spec fn string_opt(o: Option<String>) -> Option<Seq<char>> {
    match o {
        Some(s) => Some(s@),
        None => None,
    }
}

/// The first position at or after `i` of the key `k`; the number of members where
/// there is none.
pub open spec fn position(f: Seq<(Seq<char>, Tree)>, k: Seq<char>, i: int) -> int
    decreases f.len() - i,
{
    if i >= f.len() {
        f.len() as int
    } else if f[i].0 == k {
        i
    } else {
        position(f, k, i + 1)
    }
}

/// The value under the key `k`.
pub open spec fn lookup(f: Seq<(Seq<char>, Tree)>, k: Seq<char>) -> Option<Tree> {
    let p = position(f, k, 0);
    if 0 <= p < f.len() {
        Some(f[p].1)
    } else {
        None
    }
}

/// `f` with `v` under the key `k`: in the place of the value that was there, or as a
/// new last member.
pub open spec fn put(f: Seq<(Seq<char>, Tree)>, k: Seq<char>, v: Tree) -> Seq<
    (Seq<char>, Tree),
> {
    let p = position(f, k, 0);
    if 0 <= p < f.len() {
        f.update(p, (k, v))
    } else {
        f.push((k, v))
    }
}

/// `f` without the member `k`.
pub open spec fn without(f: Seq<(Seq<char>, Tree)>, k: Seq<char>) -> Seq<(Seq<char>, Tree)> {
    let p = position(f, k, 0);
    if 0 <= p < f.len() {
        f.remove(p)
    } else {
        f
    }
}

/// No key occurs twice.
pub open spec fn keys_distinct(f: Seq<(Seq<char>, Tree)>) -> bool {
    forall|i: int, j: int| #![trigger f[i], f[j]] 0 <= i < j < f.len() ==> f[i].0 != f[j].0
}

impl Tree {
    /// The member `k` of an object.
    pub open spec fn get(self, k: Seq<char>) -> Option<Tree> {
        match self {
            Tree::Object(f) => lookup(f, k),
            _ => None,
        }
    }

    /// The text of a text.
    pub open spec fn as_text(self) -> Option<Seq<char>> {
        match self {
            Tree::Text(s) => Some(s),
            _ => None,
        }
    }

    /// The text under the key `k`.
    pub open spec fn text_at(self, k: Seq<char>) -> Option<Seq<char>> {
        match self.get(k) {
            Some(t) => t.as_text(),
            None => None,
        }
    }

    /// The text under the key `k`, or `d`.
    pub open spec fn text_or(self, k: Seq<char>, d: Seq<char>) -> Seq<char> {
        match self.text_at(k) {
            Some(s) => s,
            None => d,
        }
    }

    /// The value of a boolean.
    pub open spec fn as_flag(self) -> Option<bool> {
        match self {
            Tree::Bool(b) => Some(b),
            _ => None,
        }
    }

    /// The boolean under the key `k`.
    pub open spec fn flag_at(self, k: Seq<char>) -> Option<bool> {
        match self.get(k) {
            Some(t) => t.as_flag(),
            None => None,
        }
    }

    /// The value of a whole number that is not negative.
    pub open spec fn as_natural(self) -> Option<u64> {
        match self {
            Tree::Number(Number::Pos(n)) => Some(n),
            _ => None,
        }
    }

    /// The value of a whole number that fits an `i64`.
    pub open spec fn as_integer(self) -> Option<i64> {
        match self {
            Tree::Number(Number::Pos(n)) => if n <= i64::MAX {
                Some(n as i64)
            } else {
                None
            },
            Tree::Number(Number::Neg(n)) => Some(n),
            _ => None,
        }
    }

    /// The items of an array.
    pub open spec fn as_items(self) -> Option<Seq<Tree>> {
        match self {
            Tree::Array(a) => Some(a),
            _ => None,
        }
    }

    /// The items of the array under the key `k`.
    pub open spec fn items_at(self, k: Seq<char>) -> Option<Seq<Tree>> {
        match self.get(k) {
            Some(t) => t.as_items(),
            None => None,
        }
    }

    /// The members of an object.
    pub open spec fn as_fields(self) -> Option<Seq<(Seq<char>, Tree)>> {
        match self {
            Tree::Object(f) => Some(f),
            _ => None,
        }
    }
}

/// `position` finds the first member with the key, and every member before it has
/// another one.
pub proof fn position_is_first(f: Seq<(Seq<char>, Tree)>, k: Seq<char>, i: int)
    requires
        0 <= i <= f.len(),
    ensures
        i <= position(f, k, i) <= f.len(),
        position(f, k, i) < f.len() ==> f[position(f, k, i)].0 == k,
        forall|j: int| i <= j < position(f, k, i) ==> #[trigger] f[j].0 != k,
    decreases f.len() - i,
{
    if i < f.len() && f[i].0 != k {
        position_is_first(f, k, i + 1);
    }
}

/// A member that has the key and that no earlier member shares it with is the one
/// that `position` finds.
pub proof fn position_is(f: Seq<(Seq<char>, Tree)>, k: Seq<char>, p: int)
    requires
        0 <= p <= f.len(),
        p < f.len() ==> f[p].0 == k,
        forall|j: int| 0 <= j < p ==> #[trigger] f[j].0 != k,
    ensures
        position(f, k, 0) == p,
{
    position_is_first(f, k, 0);
    if position(f, k, 0) < p {
        assert(f[position(f, k, 0)].0 != k);
    }
    if p < position(f, k, 0) {
        assert(f[p].0 != k);
    }
}

/// A read gives back what the last write under the same key wrote.
pub proof fn lookup_after_put(f: Seq<(Seq<char>, Tree)>, k: Seq<char>, v: Tree)
    ensures
        lookup(put(f, k, v), k) == Some(v),
{
    position_is_first(f, k, 0);
    position_is(put(f, k, v), k, position(f, k, 0));
}

/// A write under one key leaves what is read under every other key.
pub proof fn lookup_after_put_elsewhere(
    f: Seq<(Seq<char>, Tree)>,
    k: Seq<char>,
    v: Tree,
    other: Seq<char>,
)
    requires
        k != other,
    ensures
        lookup(put(f, k, v), other) == lookup(f, other),
{
    position_is_first(f, k, 0);
    position_is_first(f, other, 0);
    let g = put(f, k, v);
    let q = position(f, other, 0);
    if q < f.len() {
        position_is(g, other, q);
    } else {
        position_is(g, other, g.len() as int);
    }
}

/// What is read after a write: what was written under its key, and what was there before under
/// any other.
pub proof fn put_reads(f: Seq<(Seq<char>, Tree)>, k: Seq<char>, v: Tree, other: Seq<char>)
    ensures
        lookup(put(f, k, v), other) == if k == other {
            Some(v)
        } else {
            lookup(f, other)
        },
{
    if k == other {
        lookup_after_put(f, k, v);
    } else {
        lookup_after_put_elsewhere(f, k, v, other);
    }
}

/// Where the keys are distinct, every member is read under its key.
pub proof fn member_reads(f: Seq<(Seq<char>, Tree)>, i: int)
    requires
        keys_distinct(f),
        0 <= i < f.len(),
    ensures
        lookup(f, f[i].0) == Some(f[i].1),
{
    assert forall|j: int| 0 <= j < i implies #[trigger] f[j].0 != f[i].0 by {
        assert(f[j].0 != f[i].0);
    }
    position_is(f, f[i].0, i);
}

/// A write keeps the keys distinct.
pub proof fn put_keeps_keys_distinct(f: Seq<(Seq<char>, Tree)>, k: Seq<char>, v: Tree)
    requires
        keys_distinct(f),
    ensures
        keys_distinct(put(f, k, v)),
{
    position_is_first(f, k, 0);
    let g = put(f, k, v);
    assert forall|i: int, j: int| 0 <= i < j < g.len() implies #[trigger] g[i].0
        != #[trigger] g[j].0 by {
        if i < f.len() {
            assert(f[i].0 == g[i].0);
        }
        if j < f.len() {
            assert(f[j].0 == g[j].0);
        }
    }
}

/// What was removed is no longer read, where the keys are distinct.
pub proof fn lookup_after_removal(f: Seq<(Seq<char>, Tree)>, k: Seq<char>)
    requires
        keys_distinct(f),
    ensures
        lookup(without(f, k), k) == None::<Tree>,
        keys_distinct(without(f, k)),
{
    position_is_first(f, k, 0);
    let p = position(f, k, 0);
    let g = without(f, k);
    if p < f.len() {
        assert forall|j: int| 0 <= j < g.len() implies #[trigger] g[j].0 != k by {
            if j < p {
                assert(g[j] == f[j]);
            } else {
                assert(g[j] == f[j + 1]);
                assert(f[p].0 != f[j + 1].0);
            }
        }
        assert forall|i: int, j: int| 0 <= i < j < g.len() implies #[trigger] g[i].0
            != #[trigger] g[j].0 by {
            let a = if i < p {
                i
            } else {
                i + 1
            };
            let b = if j < p {
                j
            } else {
                j + 1
            };
            assert(g[i] == f[a]);
            assert(g[j] == f[b]);
        }
        position_is(g, k, g.len() as int);
    }
}

/// A removal leaves what is read under every other key.
pub proof fn lookup_after_removal_elsewhere(
    f: Seq<(Seq<char>, Tree)>,
    k: Seq<char>,
    other: Seq<char>,
)
    requires
        k != other,
    ensures
        lookup(without(f, k), other) == lookup(f, other),
{
    position_is_first(f, k, 0);
    position_is_first(f, other, 0);
    let p = position(f, k, 0);
    let q = position(f, other, 0);
    let g = without(f, k);
    if p < f.len() {
        let r = if q < p {
            q
        } else {
            q - 1
        };
        assert forall|j: int| 0 <= j < r implies #[trigger] g[j].0 != other by {
            if j < p {
                assert(g[j] == f[j]);
            } else {
                assert(g[j] == f[j + 1]);
            }
        }
        position_is(g, other, r);
    }
}

impl Member {
    /// A copy of the member.
    pub fn copy(&self) -> (r: Member)
        ensures
            r@ == self@,
        decreases self,
    {
        Member { key: self.key.clone(), value: self.value.copy() }
    }
}

impl Fields {
    /// No members.
    pub fn new() -> (r: Fields)
        ensures
            r@ == Seq::<(Seq<char>, Tree)>::empty(),
    {
        let r = Fields { members: Vec::new() };
        assert(r@ =~= Seq::<(Seq<char>, Tree)>::empty());
        r
    }

    /// The members with one more behind them.
    pub fn with(self, key: &str, value: Json) -> (r: Fields)
        ensures
            r@ == self@.push((key@, value@)),
    {
        let mut r = self;
        r.push(key, value);
        r
    }

    /// Adds a member behind the others.
    pub fn push(&mut self, key: &str, value: Json)
        ensures
            final(self)@ == old(self)@.push((key@, value@)),
    {
        let ghost before = self.members@;
        let m = Member { key: key.to_owned(), value };
        self.members.push(m);
        assert(self@ =~= old(self)@.push((key@, value@)));
    }

    /// The object that has these members.
    pub fn done(self) -> (r: Json)
        ensures
            r@ == Tree::Object(self@),
    {
        Json::Object(self)
    }

    /// The number of members.
    pub fn len(&self) -> (r: usize)
        ensures
            r == self@.len(),
    {
        self.members.len()
    }

    /// The position of the key `key`; the number of members where there is none.
    pub fn find(&self, key: &str) -> (r: usize)
        ensures
            r == position(self@, key@, 0),
            r <= self.members@.len(),
    {
        let mut i: usize = 0;
        while i < self.members.len()
            invariant
                i <= self.members@.len(),
                position(self@, key@, 0) == position(self@, key@, i as int),
            decreases self.members@.len() - i,
        {
            assert(self@[i as int] == self.members@[i as int]@);
            if text::same(&self.members[i].key, key) {
                return i;
            }
            i += 1;
        }
        i
    }

    /// The value under `key`.
    pub fn get(&self, key: &str) -> (r: Option<&Json>)
        ensures
            tree_opt(r) == lookup(self@, key@),
            r matches Some(j) ==> decreases_to!(self => *j),
    {
        let i = self.find(key);
        if i < self.members.len() {
            assert(self@[i as int] == self.members@[i as int]@);
            assert(decreases_to!(self => self.members));
            assert(decreases_to!(self.members => self.members@));
            assert(decreases_to!(self.members@ => self.members@[i as int]));
            assert(decreases_to!(self.members@[i as int] => self.members@[i as int].value));
            Some(&self.members[i].value)
        } else {
            None
        }
    }

    /// Whether there is a member `key`.
    pub fn contains_key(&self, key: &str) -> (r: bool)
        ensures
            r == lookup(self@, key@).is_some(),
    {
        proof {
            position_is_first(self@, key@, 0);
        }
        self.find(key) < self.members.len()
    }

    /// Writes `value` under `key`.
    pub fn insert(&mut self, key: &str, value: Json)
        ensures
            final(self)@ == put(old(self)@, key@, value@),
    {
        proof {
            position_is_first(self@, key@, 0);
        }
        let i = self.find(key);
        if i < self.members.len() {
            let m = Member { key: key.to_owned(), value };
            self.members.set(i, m);
            assert(self@ =~= old(self)@.update(i as int, (key@, value@)));
        } else {
            self.push(key, value);
        }
    }

    /// Removes the member `key`.
    pub fn remove(&mut self, key: &str)
        ensures
            final(self)@ == without(old(self)@, key@),
    {
        proof {
            position_is_first(self@, key@, 0);
        }
        let i = self.find(key);
        if i < self.members.len() {
            let ghost before = self.members@;
            let m = self.members.remove(i);
            assert(self@ =~= old(self)@.remove(i as int));
        }
    }

    /// A copy of the members.
    pub fn copy(&self) -> (r: Fields)
        ensures
            r@ == self@,
        decreases self,
    {
        let mut members: Vec<Member> = Vec::new();
        let mut i: usize = 0;
        while i < self.members.len()
            invariant
                i <= self.members@.len(),
                members@.len() == i,
                forall|j: int| 0 <= j < i ==> #[trigger] members@[j]@ == self.members@[j]@,
            decreases self.members@.len() - i,
        {
            assert(decreases_to!(self => self.members));
            assert(decreases_to!(self.members => self.members@));
            assert(decreases_to!(self.members@ => self.members@[i as int]));
            let m = self.members[i].copy();
            members.push(m);
            i += 1;
        }
        let r = Fields { members };
        assert forall|j: int| 0 <= j < r@.len() implies r@[j] == self@[j] by {
            assert(r.members@[j]@ == self.members@[j]@);
        }
        assert(r@ =~= self@);
        r
    }
}

impl Json {
    /// A copy of the value.
    pub fn copy(&self) -> (r: Json)
        ensures
            r@ == self@,
        decreases self,
    {
        match self {
            Json::Null => Json::Null,
            Json::Bool(b) => Json::Bool(*b),
            Json::Number(n) => Json::Number(*n),
            Json::Float(d) => Json::Float(Double { bits: d.bits, text: d.text.clone() }),
            Json::Text(s) => Json::Text(s.clone()),
            Json::Array(v) => {
                let mut out: Vec<Json> = Vec::new();
                let mut i: usize = 0;
                while i < v.len()
                    invariant
                        i <= v@.len(),
                        out@.len() == i,
                        self matches Json::Array(w) && *w == *v,
                        forall|j: int| 0 <= j < i ==> #[trigger] out@[j]@ == v@[j]@,
                    decreases v@.len() - i,
                {
                    assert(decreases_to!(self => v));
                    assert(decreases_to!(v => v@));
                    assert(decreases_to!(v@ => v@[i as int]));
                    let x = v[i].copy();
                    out.push(x);
                    i += 1;
                }
                assert(trees(out@) =~= trees(v@));
                let r = Json::Array(out);
                assert(r@->Array_0 =~= trees(out@));
                assert(self@->Array_0 =~= trees(v@));
                r
            },
            Json::Object(f) => Json::Object(f.copy()),
        }
    }

    /// A text.
    pub fn text(s: &str) -> (r: Json)
        ensures
            r@ == Tree::Text(s@),
    {
        Json::Text(s.to_owned())
    }

    /// A whole number.
    pub fn natural(n: u64) -> (r: Json)
        ensures
            r@ == Tree::Number(Number::Pos(n)),
    {
        Json::Number(Number::Pos(n))
    }

    /// A number that is not kept as a whole number.
    pub fn float(bits: u64, shown: &str) -> (r: Json)
        ensures
            r@ == Tree::Float(bits, shown@),
    {
        Json::Float(Double { bits, text: shown.to_owned() })
    }

    /// An array.
    pub fn array(v: Vec<Json>) -> (r: Json)
        ensures
            r@ == Tree::Array(trees(v@)),
    {
        let r = Json::Array(v);
        assert(r@->Array_0 =~= trees(v@));
        r
    }

    /// The member `key` of an object.
    pub fn get(&self, key: &str) -> (r: Option<&Json>)
        ensures
            tree_opt(r) == self@.get(key@),
    {
        match self {
            Json::Object(f) => f.get(key),
            _ => None,
        }
    }

    /// The text of a text.
    pub fn as_str(&self) -> (r: Option<&str>)
        ensures
            text_opt(r) == self@.as_text(),
    {
        match self {
            Json::Text(s) => Some(s.as_str()),
            _ => None,
        }
    }

    /// The text under `key`.
    pub fn str_at(&self, key: &str) -> (r: Option<&str>)
        ensures
            text_opt(r) == self@.text_at(key@),
    {
        match self.get(key) {
            Some(j) => j.as_str(),
            None => None,
        }
    }

    /// The text under `key`, or `default`.
    pub fn str_or<'a>(&'a self, key: &str, default: &'a str) -> (r: &'a str)
        ensures
            r@ == self@.text_or(key@, default@),
    {
        match self.str_at(key) {
            Some(s) => s,
            None => default,
        }
    }

    /// The value of a boolean.
    pub fn as_bool(&self) -> (r: Option<bool>)
        ensures
            r == self@.as_flag(),
    {
        match self {
            Json::Bool(b) => Some(*b),
            _ => None,
        }
    }

    /// The boolean under `key`.
    pub fn bool_at(&self, key: &str) -> (r: Option<bool>)
        ensures
            r == self@.flag_at(key@),
    {
        match self.get(key) {
            Some(j) => j.as_bool(),
            None => None,
        }
    }

    /// The value of a whole number that is not negative.
    pub fn as_u64(&self) -> (r: Option<u64>)
        ensures
            r == self@.as_natural(),
    {
        match self {
            Json::Number(Number::Pos(n)) => Some(*n),
            _ => None,
        }
    }

    /// The value of a whole number that fits an `i64`.
    pub fn as_i64(&self) -> (r: Option<i64>)
        ensures
            r == self@.as_integer(),
    {
        match self {
            Json::Number(Number::Pos(n)) => if *n <= i64::MAX as u64 {
                Some(*n as i64)
            } else {
                None
            },
            Json::Number(Number::Neg(n)) => Some(*n),
            _ => None,
        }
    }

    /// The items of an array.
    pub fn as_array(&self) -> (r: Option<&Vec<Json>>)
        ensures
            r matches Some(v) ==> self@.as_items() == Some(trees(v@)),
            r is None ==> self@.as_items() is None,
    {
        match self {
            Json::Array(v) => {
                assert(self@->Array_0 =~= trees(v@));
                Some(v)
            },
            _ => None,
        }
    }

    /// The items of the array under `key`.
    pub fn array_at(&self, key: &str) -> (r: Option<&Vec<Json>>)
        ensures
            r matches Some(v) ==> self@.items_at(key@) == Some(trees(v@)),
            r is None ==> self@.items_at(key@) is None,
    {
        match self.get(key) {
            Some(j) => j.as_array(),
            None => None,
        }
    }

    /// The members of an object.
    pub fn as_object(&self) -> (r: Option<&Fields>)
        ensures
            r matches Some(f) ==> self@.as_fields() == Some(f@),
            r is None ==> self@.as_fields() is None,
    {
        match self {
            Json::Object(f) => Some(f),
            _ => None,
        }
    }

    /// Whether the value is `null`.
    pub fn is_null(&self) -> (r: bool)
        ensures
            r == (self@ is Null),
    {
        match self {
            Json::Null => true,
            _ => false,
        }
    }
}

impl Clone for Json {
    fn clone(&self) -> (r: Json)
        ensures
            r@ == self@,
    {
        self.copy()
    }
}

/// `f` with the members of `g` written into it, one after the other.
pub open spec fn put_all(f: Seq<(Seq<char>, Tree)>, g: Seq<(Seq<char>, Tree)>) -> Seq<
    (Seq<char>, Tree),
>
    decreases g.len(),
{
    if g.len() == 0 {
        f
    } else {
        put(put_all(f, g.drop_last()), g.last().0, g.last().1)
    }
}

/// The members of an object; none where the value is something else or absent.
pub open spec fn fields_of(t: Option<Tree>) -> Seq<(Seq<char>, Tree)> {
    match t {
        Some(Tree::Object(f)) => f,
        _ => Seq::empty(),
    }
}

/// The value, or `d` where there is none.
pub open spec fn tree_or(o: Option<Tree>, d: Tree) -> Tree {
    match o {
        Some(t) => t,
        None => d,
    }
}

/// No members; further ones are pushed.
pub open spec fn members() -> Seq<(Seq<char>, Tree)> {
    Seq::empty()
}

/// No items; further ones are pushed.
pub open spec fn items() -> Seq<Tree> {
    Seq::empty()
}

/// A text.
pub open spec fn txt(s: Seq<char>) -> Tree {
    Tree::Text(s)
}

/// A whole number.
pub open spec fn num(n: u64) -> Tree {
    Tree::Number(Number::Pos(n))
}

/// What was written is read back: under a key that `g` writes, the last value that it
/// writes there.
pub proof fn lookup_after_put_all(
    f: Seq<(Seq<char>, Tree)>,
    g: Seq<(Seq<char>, Tree)>,
    i: int,
)
    requires
        0 <= i < g.len(),
        forall|j: int| i < j < g.len() ==> #[trigger] g[j].0 != g[i].0,
    ensures
        lookup(put_all(f, g), g[i].0) == Some(g[i].1),
    decreases g.len(),
{
    let h = g.drop_last();
    let k = g.last().0;
    let v = g.last().1;
    if i == g.len() - 1 {
        lookup_after_put(put_all(f, h), k, v);
    } else {
        assert(g[g.len() - 1].0 != g[i].0);
        assert forall|j: int| i < j < h.len() implies #[trigger] h[j].0 != h[i].0 by {
            assert(g[j].0 != g[i].0);
        }
        lookup_after_put_all(f, h, i);
        lookup_after_put_elsewhere(put_all(f, h), k, v, g[i].0);
    }
}

/// What `g` does not write stays as it was.
pub proof fn lookup_after_put_all_elsewhere(
    f: Seq<(Seq<char>, Tree)>,
    g: Seq<(Seq<char>, Tree)>,
    k: Seq<char>,
)
    requires
        forall|j: int| 0 <= j < g.len() ==> #[trigger] g[j].0 != k,
    ensures
        lookup(put_all(f, g), k) == lookup(f, k),
    decreases g.len(),
{
    if g.len() > 0 {
        let h = g.drop_last();
        assert forall|j: int| 0 <= j < h.len() implies #[trigger] h[j].0 != k by {
            assert(g[j].0 != k);
        }
        lookup_after_put_all_elsewhere(f, h, k);
        assert(g[g.len() - 1].0 != k);
        lookup_after_put_elsewhere(put_all(f, h), g.last().0, g.last().1, k);
    }
}

/// Every member that is written is read back, where the keys that are written are distinct.
pub proof fn put_all_reads(f: Seq<(Seq<char>, Tree)>, g: Seq<(Seq<char>, Tree)>, i: int)
    requires
        keys_distinct(g),
        0 <= i < g.len(),
    ensures
        lookup(put_all(f, g), g[i].0) == Some(g[i].1),
{
    assert forall|j: int| i < j < g.len() implies #[trigger] g[j].0 != g[i].0 by {
        assert(g[i].0 != g[j].0);
    }
    lookup_after_put_all(f, g, i);
}

/// Writing members keeps the keys distinct.
pub proof fn put_all_keeps_keys_distinct(f: Seq<(Seq<char>, Tree)>, g: Seq<(Seq<char>, Tree)>)
    requires
        keys_distinct(f),
    ensures
        keys_distinct(put_all(f, g)),
    decreases g.len(),
{
    if g.len() > 0 {
        put_all_keeps_keys_distinct(f, g.drop_last());
        put_keeps_keys_distinct(put_all(f, g.drop_last()), g.last().0, g.last().1);
    }
}

impl Fields {
    /// Writes every member of `other` into this object.
    pub fn insert_all(&mut self, other: &Fields)
        ensures
            final(self)@ == put_all(old(self)@, other@),
    {
        let ghost start = self@;
        let mut i: usize = 0;
        assert(other@.take(0) =~= Seq::<(Seq<char>, Tree)>::empty());
        while i < other.members.len()
            invariant
                i <= other.members@.len(),
                self@ == put_all(start, other@.take(i as int)),
            decreases other.members@.len() - i,
        {
            assert(other@.take(i as int + 1).drop_last() =~= other@.take(i as int));
            assert(other@[i as int] == other.members@[i as int]@);
            let v = other.members[i].value.copy();
            self.insert(&other.members[i].key, v);
            i += 1;
        }
        assert(other@.take(other@.len() as int) =~= other@);
    }

    /// The key of a member.
    pub fn key_at(&self, i: usize) -> (r: &str)
        requires
            i < self@.len(),
        ensures
            r@ == self@[i as int].0,
    {
        assert(self@[i as int] == self.members@[i as int]@);
        self.members[i].key.as_str()
    }

    /// The value of a member.
    pub fn value_at(&self, i: usize) -> (r: &Json)
        requires
            i < self@.len(),
        ensures
            r@ == self@[i as int].1,
    {
        assert(self@[i as int] == self.members@[i as int]@);
        &self.members[i].value
    }
}

impl Json {
    /// A copy of the member `key`, or `default`.
    pub fn get_or(&self, key: &str, default: Json) -> (r: Json)
        ensures
            r@ == tree_or(self@.get(key@), default@),
    {
        match self.get(key) {
            Some(j) => j.copy(),
            None => default,
        }
    }

    /// A copy of the members of an object; none where the value is something else.
    pub fn fields(&self) -> (r: Fields)
        ensures
            r@ == fields_of(Some(self@)),
    {
        match self {
            Json::Object(f) => f.copy(),
            _ => Fields::new(),
        }
    }

    /// A copy of the members of the object under `key`; none where there is no object.
    pub fn fields_at(&self, key: &str) -> (r: Fields)
        ensures
            r@ == fields_of(self@.get(key@)),
    {
        match self.get(key) {
            Some(j) => j.fields(),
            None => Fields::new(),
        }
    }

    /// Whether the value is an object.
    pub fn is_object(&self) -> (r: bool)
        ensures
            r == (self@ is Object),
    {
        match self {
            Json::Object(_) => true,
            _ => false,
        }
    }

    /// An empty array.
    pub fn no_items() -> (r: Json)
        ensures
            r@ == Tree::Array(Seq::empty()),
    {
        let v: Vec<Json> = Vec::new();
        assert(trees(v@) =~= Seq::empty());
        Json::array(v)
    }

    /// An empty object.
    pub fn no_members() -> (r: Json)
        ensures
            r@ == Tree::Object(Seq::empty()),
    {
        Fields::new().done()
    }

    /// An array of two items.
    pub fn two_items(first: Json, second: Json) -> (r: Json)
        ensures
            r@ == Tree::Array(items().push(first@).push(second@)),
    {
        let mut v: Vec<Json> = Vec::new();
        v.push(first);
        v.push(second);
        assert(trees(v@) =~= items().push(first@).push(second@));
        Json::array(v)
    }

    /// An array of one item.
    pub fn one_item(item: Json) -> (r: Json)
        ensures
            r@ == Tree::Array(items().push(item@)),
    {
        let mut v: Vec<Json> = Vec::new();
        v.push(item);
        assert(trees(v@) =~= items().push(item@));
        Json::array(v)
    }
}

impl Json {
    /// An array of texts.
    pub fn texts(parts: &[&str]) -> (r: Json)
        ensures
            r@ == Tree::Array(Seq::new(parts@.len(), |i: int| txt(parts@[i]@))),
    {
        let mut out: Vec<Json> = Vec::new();
        let mut i: usize = 0;
        while i < parts.len()
            invariant
                i <= parts@.len(),
                out@.len() == i,
                forall|j: int| 0 <= j < i ==> #[trigger] out@[j]@ == txt(parts@[j]@),
            decreases parts@.len() - i,
        {
            out.push(Json::text(parts[i]));
            i += 1;
        }
        assert(trees(out@) =~= Seq::new(parts@.len(), |k: int| txt(parts@[k]@)));
        Json::array(out)
    }
}

/// The texts as JSON values.
pub open spec fn text_items(v: Seq<Seq<char>>) -> Seq<Tree> {
    Seq::new(v.len(), |i: int| txt(v[i]))
}

/// Texts as a JSON value.
pub fn texts_json(v: &Vec<String>) -> (r: Json)
    ensures
        r@ == Tree::Array(text_items(texts(v@))),
{
    let mut out: Vec<Json> = Vec::new();
    let mut i: usize = 0;
    while i < v.len()
        invariant
            i <= v@.len(),
            out@.len() == i,
            forall|j: int| 0 <= j < i ==> (#[trigger] out@[j])@ == txt(v@[j]@),
        decreases v@.len() - i,
    {
        out.push(Json::Text(v[i].clone()));
        i += 1;
    }
    assert(trees(out@) =~= text_items(texts(v@)));
    Json::array(out)
}

} // verus!
