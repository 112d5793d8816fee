//! What holds of archives from Backyard AI and of cards that are checked: which words become
//! macros, which greetings, lore and pictures are kept, and which cards are of which format.

use crate::characters::archive;
use crate::characters::byaf;
use crate::characters::byaf_import;
use crate::characters::helpers;
use crate::characters::macros;
use crate::characters::validator;
use crate::json;
use crate::json::Tree;
use crate::text;
use vstd::prelude::*;

verus! {

proof fn nothing_is_filled(s: Seq<char>, t: Seq<char>, u: Seq<char>, open: bool, from: int)
    requires
        0 <= from <= s.len(),
        t.len() > 0,
        forall|i: int| from <= i < s.len() ==> !macros::stands_at(s, t, open, i),
    ensures
        macros::filled_from(s, t, u, open, from) == s.skip(from),
    decreases s.len() - from,
{
    if from < s.len() {
        nothing_is_filled(s, t, u, open, from + 1);
        assert(seq![s[from]] + s.skip(from + 1) =~= s.skip(from));
    } else {
        assert(s.skip(from) =~= Seq::empty());
    }
}

proof fn one_is_filled(s: Seq<char>, t: Seq<char>, u: Seq<char>, open: bool, p: int, from: int)
    requires
        0 <= from <= p,
        p + t.len() <= s.len(),
        t.len() > 0,
        macros::stands_at(s, t, open, p),
        forall|i: int| from <= i < p ==> !macros::stands_at(s, t, open, i),
        forall|i: int| p + t.len() <= i < s.len() ==> !macros::stands_at(s, t, open, i),
    ensures
        macros::filled_from(s, t, u, open, from) == s.subrange(from, p) + u + s.skip(
            (p + t.len()) as int,
        ),
    decreases p - from,
{
    if from < p {
        one_is_filled(s, t, u, open, p, from + 1);
        assert(seq![s[from]] + (s.subrange(from + 1, p) + u + s.skip((p + t.len()) as int))
            =~= s.subrange(from, p) + u + s.skip((p + t.len()) as int));
    } else {
        nothing_is_filled(s, t, u, open, (p + t.len()) as int);
        assert(s.subrange(from, p) + u + s.skip((p + t.len()) as int) =~= u + s.skip(
            (p + t.len()) as int,
        ));
    }
}

proof fn marks_are_themselves(c: char)
    ensures
        macros::folded(c) == '{' ==> c == '{',
        macros::folded(c) == '}' ==> c == '}',
        macros::folded(c) == '#' ==> c == '#',
        macros::folded(c) == ':' ==> c == ':',
        c == '{' || c == '}' || c == '#' || c == ':' || 'a' <= c <= 'z' ==> macros::folded(c) == c,
{
}

/// Whether a text has none of the marks that macros are made of.
pub open spec fn unmarked(s: Seq<char>) -> bool {
    forall|i: int| 0 <= i < s.len() ==> #[trigger] s[i] != '{' && s[i] != '}' && s[i] != '#'
}

proof fn literals()
    ensures
        "#{user}:"@ =~= seq!['#', '{', 'u', 's', 'e', 'r', '}', ':'],
        "#{character}:"@ =~= seq![
            '#',
            '{',
            'c',
            'h',
            'a',
            'r',
            'a',
            'c',
            't',
            'e',
            'r',
            '}',
            ':',
        ],
        "{character}"@ =~= seq!['{', 'c', 'h', 'a', 'r', 'a', 'c', 't', 'e', 'r', '}'],
        "{user}"@ =~= seq!['{', 'u', 's', 'e', 'r', '}'],
        "{{user}}"@ =~= seq!['{', '{', 'u', 's', 'e', 'r', '}', '}'],
        "{{char}}"@ =~= seq!['{', '{', 'c', 'h', 'a', 'r', '}', '}'],
        "{{user}}:"@ =~= seq!['{', '{', 'u', 's', 'e', 'r', '}', '}', ':'],
        "{{char}}:"@ =~= seq!['{', '{', 'c', 'h', 'a', 'r', '}', '}', ':'],
{
    reveal_strlit("#{user}:");
    reveal_strlit("#{character}:");
    reveal_strlit("{character}");
    reveal_strlit("{user}");
    reveal_strlit("{{user}}");
    reveal_strlit("{{char}}");
    reveal_strlit("{{user}}:");
    reveal_strlit("{{char}}:");
}

proof fn no_mark(s: Seq<char>, t: Seq<char>, u: Seq<char>, open: bool)
    requires
        t.len() > 0,
        t[0] == '#',
        forall|i: int| 0 <= i < s.len() ==> #[trigger] s[i] != '#',
    ensures
        macros::filled(s, t, u, open) == s,
{
    assert forall|i: int| 0 <= i < s.len() implies !macros::stands_at(s, t, open, i) by {
        marks_are_themselves(s[i]);
        if macros::has_folded(s, t, i) {
            assert(macros::folded(s[i + 0]) == t[0]);
        }
    }
    nothing_is_filled(s, t, u, open, 0);
    assert(s.skip(0) =~= s);
}

/// Which words become macros: those for the user and for the character in braces, and those with
/// which a line of either begins. What stands around them stays as it is.
pub proof fn words_become_macros(a: Seq<char>, b: Seq<char>)
    requires
        unmarked(a),
        unmarked(b),
    ensures
        macros::with_macros(a) == a,
        macros::with_macros(a + "{user}"@ + b) == a + "{{user}}"@ + b,
        macros::with_macros(a + "{character}"@ + b) == a + "{{char}}"@ + b,
        macros::with_macros(a + "#{user}:"@ + b) == a + "{{user}}:"@ + b,
        macros::with_macros(a + "#{character}:"@ + b) == a + "{{char}}:"@ + b,
{
    plain_stays(a);
    user_in_braces(a, b);
    character_in_braces(a, b);
    user_begins_line(a, b);
    character_begins_line(a, b);
}

/// A macro stays one.
pub proof fn macros_stay(a: Seq<char>, b: Seq<char>)
    requires
        unmarked(a),
        unmarked(b),
    ensures
        macros::with_macros(a + "{{user}}"@ + b) == a + "{{user}}"@ + b,
        macros::with_macros(a + "{{char}}"@ + b) == a + "{{char}}"@ + b,
{
    literals();
    let s = a + "{{user}}"@ + b;
    no_mark(s, "#{user}:"@, "{{user}}:"@, false);
    no_mark(s, "#{character}:"@, "{{char}}:"@, false);
    braces_stay(s, a.len() as int, "{character}"@, "{{char}}"@);
    braces_stay(s, a.len() as int, "{user}"@, "{{user}}"@);
    let r = a + "{{char}}"@ + b;
    no_mark(r, "#{user}:"@, "{{user}}:"@, false);
    no_mark(r, "#{character}:"@, "{{char}}:"@, false);
    braces_stay(r, a.len() as int, "{character}"@, "{{char}}"@);
    braces_stay(r, a.len() as int, "{user}"@, "{{user}}"@);
}

proof fn braces_stay(s: Seq<char>, p: int, t: Seq<char>, u: Seq<char>)
    requires
        t =~= "{character}"@ || t =~= "{user}"@,
        0 <= p,
        p + 8 <= s.len(),
        s.subrange(p, p + 8) =~= "{{user}}"@ || s.subrange(p, p + 8) =~= "{{char}}"@,
        forall|i: int| 0 <= i < s.len() && i != p && i != p + 1 ==> #[trigger] s[i] != '{',
    ensures
        macros::filled(s, t, u, true) == s,
{
    literals();
    let m = s.subrange(p, p + 8);
    assert(m[0] == s[p] && m[1] == s[p + 1] && m[2] == s[p + 2] && m[3] == s[p + 3] && m[4] == s[p
        + 4] && m[5] == s[p + 5] && m[6] == s[p + 6] && m[7] == s[p + 7]);
    assert forall|i: int| 0 <= i < s.len() implies !macros::stands_at(s, t, true, i) by {
        if macros::has_folded(s, t, i) {
            assert(macros::folded(s[i + 0]) == t[0]);
            assert(macros::folded(s[i + 1]) == t[1]);
            assert(macros::folded(s[i + 5]) == t[5]);
            marks_are_themselves(s[i]);
            marks_are_themselves(s[i + 1]);
            marks_are_themselves(s[i + 5]);
            if t =~= "{user}"@ {
                if i == p + 1 && m =~= "{{user}}"@ {
                    assert(s[i + t.len()] == '}');
                }
            } else {
                assert(macros::folded(s[i + 7]) == t[7]);
                marks_are_themselves(s[i + 7]);
                assert(macros::folded(s[i + 6]) == t[6]);
                marks_are_themselves(s[i + 6]);
            }
        }
    }
    nothing_is_filled(s, t, u, true, 0);
    assert(s.skip(0) =~= s);
}

proof fn plain_stays(a: Seq<char>)
    requires
        unmarked(a),
    ensures
        macros::with_macros(a) == a,
{
    literals();
    no_mark(a, "#{user}:"@, "{{user}}:"@, false);
    no_mark(a, "#{character}:"@, "{{char}}:"@, false);
    assert forall|i: int| 0 <= i < a.len() implies !macros::stands_at(a, "{character}"@, true, i)
        && !macros::stands_at(a, "{user}"@, true, i) by {
        marks_are_themselves(a[i]);
        if macros::has_folded(a, "{character}"@, i) {
            assert(macros::folded(a[i + 0]) == '{');
        }
        if macros::has_folded(a, "{user}"@, i) {
            assert(macros::folded(a[i + 0]) == '{');
        }
    }
    nothing_is_filled(a, "{character}"@, "{{char}}"@, true, 0);
    nothing_is_filled(a, "{user}"@, "{{user}}"@, true, 0);
    assert(a.skip(0) =~= a);
}

proof fn brace_is_filled(a: Seq<char>, t: Seq<char>, b: Seq<char>, u: Seq<char>)
    requires
        t =~= "{character}"@ || t =~= "{user}"@,
        unmarked(a),
        unmarked(b),
    ensures
        macros::filled(a + t + b, t, u, true) == a + u + b,
{
    literals();
    let s = a + t + b;
    let p = a.len() as int;
    assert forall|j: int| 0 <= j < t.len() implies macros::folded(#[trigger] s[p + j]) == t[j] by {
        marks_are_themselves(t[j]);
        assert(s[p + j] == t[j]);
    }
    if p + t.len() < s.len() {
        assert(s[p + t.len()] == b[0]);
    }
    assert(macros::stands_at(s, t, true, p));
    assert forall|i: int| 0 <= i < s.len() && i != p implies !macros::stands_at(s, t, true, i) by {
        marks_are_themselves(s[i]);
        if macros::has_folded(s, t, i) {
            assert(macros::folded(s[i + 0]) == '{');
        }
    }
    one_is_filled(s, t, u, true, p, 0);
    assert(s.subrange(0, p) + u + s.skip((p + t.len()) as int) =~= a + u + b);
}

proof fn user_in_braces(a: Seq<char>, b: Seq<char>)
    requires
        unmarked(a),
        unmarked(b),
    ensures
        macros::with_macros(a + "{user}"@ + b) == a + "{{user}}"@ + b,
{
    literals();
    let s = a + "{user}"@ + b;
    no_mark(s, "#{user}:"@, "{{user}}:"@, false);
    no_mark(s, "#{character}:"@, "{{char}}:"@, false);
    let p = a.len() as int;
    let t = "{character}"@;
    assert(s[p + 1] == 'u');
    assert forall|i: int| 0 <= i < s.len() implies !macros::stands_at(s, t, true, i) by {
        marks_are_themselves(s[i]);
        if macros::has_folded(s, t, i) {
            assert(macros::folded(s[i + 0]) == '{');
            assert(macros::folded(s[i + 1]) == 'c');
        }
    }
    nothing_is_filled(s, t, "{{char}}"@, true, 0);
    assert(s.skip(0) =~= s);
    brace_is_filled(a, "{user}"@, b, "{{user}}"@);
}

proof fn character_in_braces(a: Seq<char>, b: Seq<char>)
    requires
        unmarked(a),
        unmarked(b),
    ensures
        macros::with_macros(a + "{character}"@ + b) == a + "{{char}}"@ + b,
{
    literals();
    let s = a + "{character}"@ + b;
    no_mark(s, "#{user}:"@, "{{user}}:"@, false);
    no_mark(s, "#{character}:"@, "{{char}}:"@, false);
    brace_is_filled(a, "{character}"@, b, "{{char}}"@);
    let r = a + "{{char}}"@ + b;
    assert(r.subrange(a.len() as int, a.len() as int + 8) =~= "{{char}}"@);
    braces_stay(r, a.len() as int, "{user}"@, "{{user}}"@);
}

proof fn line_is_filled(a: Seq<char>, t: Seq<char>, b: Seq<char>, u: Seq<char>)
    requires
        t =~= "#{character}:"@ || t =~= "#{user}:"@,
        unmarked(a),
        unmarked(b),
    ensures
        macros::filled(a + t + b, t, u, false) == a + u + b,
{
    literals();
    let s = a + t + b;
    let p = a.len() as int;
    assert forall|j: int| 0 <= j < t.len() implies macros::folded(#[trigger] s[p + j]) == t[j] by {
        marks_are_themselves(t[j]);
        assert(s[p + j] == t[j]);
    }
    assert forall|i: int| 0 <= i < s.len() && i != p implies !macros::stands_at(s, t, false, i) by {
        marks_are_themselves(s[i]);
        if macros::has_folded(s, t, i) {
            assert(macros::folded(s[i + 0]) == '#');
        }
    }
    one_is_filled(s, t, u, false, p, 0);
    assert(s.subrange(0, p) + u + s.skip((p + t.len()) as int) =~= a + u + b);
}

proof fn user_begins_line(a: Seq<char>, b: Seq<char>)
    requires
        unmarked(a),
        unmarked(b),
    ensures
        macros::with_macros(a + "#{user}:"@ + b) == a + "{{user}}:"@ + b,
{
    literals();
    line_is_filled(a, "#{user}:"@, b, "{{user}}:"@);
    let r = a + "{{user}}:"@ + b;
    no_mark(r, "#{character}:"@, "{{char}}:"@, false);
    assert(r.subrange(a.len() as int, a.len() as int + 8) =~= "{{user}}"@);
    braces_stay(r, a.len() as int, "{character}"@, "{{char}}"@);
    braces_stay(r, a.len() as int, "{user}"@, "{{user}}"@);
}

proof fn character_begins_line(a: Seq<char>, b: Seq<char>)
    requires
        unmarked(a),
        unmarked(b),
    ensures
        macros::with_macros(a + "#{character}:"@ + b) == a + "{{char}}:"@ + b,
{
    literals();
    let s = a + "#{character}:"@ + b;
    let t = "#{user}:"@;
    let p = a.len() as int;
    assert(s[p + 2] == 'c');
    assert forall|i: int| 0 <= i < s.len() implies !macros::stands_at(s, t, false, i) by {
        marks_are_themselves(s[i]);
        if macros::has_folded(s, t, i) {
            assert(macros::folded(s[i + 0]) == '#');
            assert(macros::folded(s[i + 2]) == 'u');
        }
    }
    nothing_is_filled(s, t, "{{user}}:"@, false, 0);
    assert(s.skip(0) =~= s);
    line_is_filled(a, "#{character}:"@, b, "{{char}}:"@);
    let r = a + "{{char}}:"@ + b;
    assert(r.subrange(a.len() as int, a.len() as int + 8) =~= "{{char}}"@);
    braces_stay(r, a.len() as int, "{character}"@, "{{char}}"@);
    braces_stay(r, a.len() as int, "{user}"@, "{{user}}"@);
}

/// Each example stands behind those before it, under a mark of its own; one without a text does
/// not count.
pub proof fn example_is_added(items: Seq<Tree>, item: Tree, t: Seq<char>)
    requires
        item.text_at("text"@) == Some(t),
    ensures
        t.len() > 0 ==> byaf::examples_text(items.push(item)) == byaf::examples_text(items)
            + "<START>\n"@ + macros::with_macros(t) + seq!['\n'],
        t.len() == 0 ==> byaf::examples_text(items.push(item)) == byaf::examples_text(items),
        byaf::example_messages(Some(items)) == text::trim_right(byaf::examples_text(items)),
        byaf::examples_text(Seq::empty()) == Seq::<char>::empty(),
{
    assert(items.push(item).drop_last() =~= items);
    let s = byaf::examples_text(items) + "<START>\n"@ + macros::with_macros(t);
    assert(s.push('\n') =~= s + seq!['\n']);
}

/// Every later scenario that begins with another message than the first one gives a greeting, and
/// there are no other greetings.
pub proof fn later_scenarios_give_greetings(scenarios: Seq<Tree>, k: int, t: Seq<char>)
    requires
        1 <= k < scenarios.len(),
        byaf::first_message(scenarios[k]) == Some(t),
        byaf::first_message(scenarios[0]) != Some(t),
    ensures
        byaf::alternate_greetings(scenarios).contains(macros::with_macros(t)),
{
    let rest = scenarios.skip(1);
    assert(rest[k - 1] == scenarios[k]);
    greeting_is_there(rest, byaf::first_message(scenarios[0]), k - 1, t);
}

proof fn greeting_is_there(s: Seq<Tree>, first: Option<Seq<char>>, k: int, t: Seq<char>)
    requires
        0 <= k < s.len(),
        byaf::first_message(s[k]) == Some(t),
        first != Some(t),
    ensures
        byaf::other_greetings(s, first).contains(macros::with_macros(t)),
    decreases s.len(),
{
    let all = byaf::other_greetings(s, first);
    let rest = byaf::other_greetings(s.drop_last(), first);
    let m = macros::with_macros(t);
    if k < s.len() - 1 {
        greeting_is_there(s.drop_last(), first, k, t);
        let i = choose|i: int| 0 <= i < rest.len() && rest[i] == m;
        assert(all[i] == m);
    } else if !rest.contains(m) {
        assert(all.last() == m);
    }
}

/// A scenario that begins as the first one does gives no further greeting, and neither does one
/// without a first message.
pub proof fn first_greeting_is_not_repeated(scenarios: Seq<Tree>, s: Tree)
    requires
        scenarios.len() > 0,
        byaf::first_message(s) == byaf::first_message(scenarios[0]) || byaf::first_message(s)
            is None,
    ensures
        byaf::alternate_greetings(scenarios.push(s)) == byaf::alternate_greetings(scenarios),
{
    let rest = scenarios.push(s).skip(1);
    assert(rest.drop_last() =~= scenarios.skip(1));
    assert(rest.last() == s);
    assert(scenarios.push(s)[0] == scenarios[0]);
    if scenarios.len() == 1 {
        assert(rest.drop_last().len() == 0);
        reveal_with_fuel(byaf::other_greetings, 2);
    }
}

/// A greeting is the first message of a later scenario.
pub proof fn greetings_come_from_scenarios(scenarios: Seq<Tree>, i: int)
    requires
        0 <= i < byaf::alternate_greetings(scenarios).len(),
    ensures
        exists|k: int|
            1 <= k < scenarios.len()
                && (byaf::first_message(#[trigger] scenarios[k]) matches Some(t)
                && byaf::alternate_greetings(scenarios)[i] == macros::with_macros(t)),
{
    let rest = scenarios.skip(1);
    let first = byaf::first_message(scenarios[0]);
    greeting_has_source(rest, first, i);
    let k = choose|k: int|
        0 <= k < rest.len() && (byaf::first_message(#[trigger] rest[k]) matches Some(t)
            && byaf::other_greetings(rest, first)[i] == macros::with_macros(t));
    assert(scenarios[k + 1] == rest[k]);
}

proof fn greeting_has_source(s: Seq<Tree>, first: Option<Seq<char>>, i: int)
    requires
        0 <= i < byaf::other_greetings(s, first).len(),
    ensures
        exists|k: int|
            0 <= k < s.len() && (byaf::first_message(#[trigger] s[k]) matches Some(t)
                && byaf::other_greetings(s, first)[i] == macros::with_macros(t)),
    decreases s.len(),
{
    let front = s.drop_last();
    let rest = byaf::other_greetings(front, first);
    if i < rest.len() {
        greeting_has_source(front, first, i);
        let k = choose|k: int|
            0 <= k < front.len() && (byaf::first_message(#[trigger] front[k]) matches Some(t)
                && rest[i] == macros::with_macros(t));
        assert(s[k] == front[k]);
    } else {
        assert(s[s.len() - 1] == s.last());
    }
}

/// The first message of a scenario is the first in its list.
pub proof fn first_message_is_listed_first(scenario: Tree, m: Tree, rest: Seq<Tree>, t: Seq<char>)
    requires
        scenario.items_at("firstMessages"@) == Some(seq![m] + rest),
        m.text_at("text"@) == Some(t),
    ensures
        byaf::first_message(scenario) == Some(t),
{
    assert((seq![m] + rest)[0] == m);
}

/// A piece of lore is kept as an entry behind those before it: its keys between commas, what it
/// says, and its place in the list. One that says nothing is passed over.
pub proof fn lore_is_kept(items: Seq<Tree>, item: Tree, key: Seq<char>, value: Seq<char>)
    requires
        item.text_at("key"@) == Some(key),
        item.text_at("value"@) == Some(value),
    ensures
        key.len() > 0 || value.len() > 0 ==> {
            let all = byaf::lore_entries(items.push(item));
            let e = all.last();
            &&& all.drop_last() == byaf::lore_entries(items)
            &&& all.len() == byaf::lore_entries(items).len() + 1
            &&& e.get("keys"@) == Some(
                helpers::tags_of(Some(Tree::Text(macros::with_macros(key)))),
            )
            &&& e.text_at("content"@) == Some(macros::with_macros(value))
            &&& e.flag_at("enabled"@) == Some(true)
            &&& e.get("insertion_order"@) == Some(json::num(items.len() as u64))
        },
        key.len() == 0 && value.len() == 0 ==> byaf::lore_entries(items.push(item))
            == byaf::lore_entries(items),
{
    assert(items.push(item).drop_last() =~= items);
    let all = byaf::lore_entries(items.push(item));
    assert(all.len() > 0 ==> all.drop_last() =~= all.take(all.len() - 1));
    if key.len() > 0 || value.len() > 0 {
        assert(all.drop_last() =~= byaf::lore_entries(items));
    }
    reveal_strlit("content");
    reveal_strlit("enabled");
    reveal_strlit("extensions");
    reveal_strlit("insertion_order");
    reveal_strlit("keys");
    assert("content"@.len() == 7 && "content"@[0] == 'c');
    assert("enabled"@.len() == 7 && "enabled"@[0] == 'e');
    assert("extensions"@.len() == 10);
    assert("insertion_order"@.len() == 15);
    assert("keys"@.len() == 4);
    reveal_with_fuel(json::position, 6);
}

/// The pictures of a character are those of its list that are in the archive, each with its name,
/// its bytes and its label; without any, the default picture stands in.
pub proof fn pictures_are_kept(
    entries: Seq<(Option<Seq<char>>, Option<Seq<u8>>)>,
    base: Seq<char>,
    images: Seq<Tree>,
    image: Tree,
    path: Seq<char>,
    label: Seq<char>,
    data: Seq<u8>,
    name: Seq<char>,
)
    requires
        image.text_at("path"@) == Some(path),
        image.text_at("label"@) == Some(label),
        archive::content_of(entries, byaf::joined_url(base, path)) == Some(data),
        crate::paths::last_name(path) == Some(name),
    ensures
        byaf::images_at(entries, base, images.push(image)) == byaf::images_at(
            entries,
            base,
            images,
        ).push((byaf::ImageView { filename: name, image: data, label })),
{
    assert(images.push(image).drop_last() =~= images);
}

/// A character without pictures in the archive has the default one.
pub proof fn default_picture_stands_in(
    entries: Seq<(Option<Seq<char>>, Option<Seq<u8>>)>,
    path: Seq<char>,
    character: Tree,
    default_avatar: Seq<u8>,
)
    requires
        character.items_at("images"@) is None,
    ensures
        byaf::images_of(entries, path, character, default_avatar).len() == 1,
        byaf::images_of(entries, path, character, default_avatar)[0].image == default_avatar,
{
}

/// The background of a scenario is kept with its bytes and the path by which the scenario names it,
/// and two scenarios with the same picture share one.
pub proof fn backgrounds_are_kept(
    entries: Seq<(Option<Seq<char>>, Option<Seq<u8>>)>,
    base: Seq<char>,
    scenarios: Seq<Tree>,
    scenario: Tree,
    path: Seq<char>,
    data: Seq<u8>,
)
    requires
        scenario.text_at("backgroundImage"@) == Some(path),
        path.len() > 0,
        archive::content_of(entries, path) == Some(data),
    ensures
        ({
            let before = byaf::backgrounds_of(entries, base, scenarios);
            let after = byaf::backgrounds_of(entries, base, scenarios.push(scenario));
            &&& exists|i: int|
                0 <= i < after.len() && (#[trigger] after[i]).data == data
                    && after[i].paths.contains(path)
            &&& (exists|i: int| 0 <= i < before.len() && (#[trigger] before[i]).data == data)
                <==> after.len() == before.len()
            &&& after.len() != before.len() ==> after.last().name == base + " bg "@ + text::decimal(
                after.len(),
            )
        }),
{
    assert(scenarios.push(scenario).drop_last() =~= scenarios);
    let before = byaf::backgrounds_of(entries, base, scenarios);
    let after = byaf::backgrounds_of(entries, base, scenarios.push(scenario));
    background_is_first(before, data, 0);
    let p = byaf::background_from(before, data, 0);
    if p < before.len() {
        let paths = before[p].paths.push(path);
        assert(paths[paths.len() - 1] == path);
        assert(after[p].paths.contains(path));
        assert(before[p].data == data);
    } else {
        assert(after.last().paths[0] == path);
        assert(after[after.len() - 1].data == data);
    }
}

proof fn background_is_first(v: Seq<byaf::BackgroundView>, data: Seq<u8>, i: int)
    requires
        0 <= i <= v.len(),
    ensures
        ({
            let p = byaf::background_from(v, data, i);
            &&& i <= p <= v.len()
            &&& p < v.len() ==> v[p].data == data
            &&& forall|k: int| i <= k < p ==> (#[trigger] v[k]).data != data
        }),
    decreases v.len() - i,
{
    if i < v.len() && v[i].data != data {
        background_is_first(v, data, i + 1);
    }
}

/// A chat that is imported bears the title of its scenario, or the character's name where the
/// scenario has no title.
pub proof fn imported_chat_is_titled(
    scenario: Tree,
    title: Seq<char>,
    name: Seq<char>,
    stamp: Seq<char>,
)
    ensures
        scenario.text_at("title"@) == Some(title) && title.len() > 0 ==> byaf_import::chat_title(
            scenario,
            name,
            stamp,
        ) == title + " - "@ + stamp + " imported.jsonl"@,
        scenario.get("title"@) is None ==> byaf_import::chat_title(scenario, name, stamp) == name
            + " - "@ + stamp + " imported.jsonl"@,
{
    reveal_strlit("");
}

/// A character's files bear the name that is shown of it, or the name on its card.
pub proof fn shown_name_is_preferred(character: Tree, card: Tree, shown: Seq<char>, name: Seq<char>)
    requires
        card.text_at("name"@) == Some(name),
    ensures
        character.text_at("displayName"@) == Some(shown) && shown.len() > 0
            ==> byaf_import::shown_name(character, card) == shown,
        character.get("displayName"@) is None ==> byaf_import::shown_name(character, card) == name,
{
    reveal_strlit("");
}

proof fn missing_is_first(t: Tree, fields: Seq<Seq<char>>, i: int)
    requires
        0 <= i <= fields.len(),
    ensures
        ({
            let p = validator::first_missing(t, fields, i);
            &&& i <= p <= fields.len()
            &&& p < fields.len() ==> t.get(fields[p]) is None
            &&& forall|k: int| i <= k < p ==> t.get(#[trigger] fields[k]) is Some
        }),
    decreases fields.len() - i,
{
    if i < fields.len() && t.get(fields[i]) is Some {
        missing_is_first(t, fields, i + 1);
    }
}

/// The members that every card of the first format has.
pub open spec fn first_members() -> Seq<Seq<char>> {
    seq![
        "name"@,
        "description"@,
        "personality"@,
        "scenario"@,
        "first_mes"@,
        "mes_example"@,
    ]
}

/// The members that the data of every card of the second format have.
pub open spec fn second_members() -> Seq<Seq<char>> {
    seq![
        "name"@,
        "description"@,
        "personality"@,
        "scenario"@,
        "first_mes"@,
        "mes_example"@,
        "creator_notes"@,
        "system_prompt"@,
        "post_history_instructions"@,
        "alternate_greetings"@,
        "tags"@,
        "creator"@,
        "character_version"@,
        "extensions"@,
    ]
}

/// Whether a tree has all of the members.
pub open spec fn has_all(t: Tree, names: Seq<Seq<char>>) -> bool {
    forall|i: int| 0 <= i < names.len() ==> t.get(#[trigger] names[i]) is Some
}

/// A card is of the first format if and only if it has all members of that format.
pub proof fn first_format_is_told(card: Tree, version: Option<u64>)
    ensures
        validator::verdict(card, version).0 == Some(1u8) <==> has_all(card, first_members()),
        has_all(card, first_members()) ==> validator::verdict(card, version).1 is None,
{
    let fields = validator::v1_fields();
    assert(fields =~= first_members());
    missing_is_first(card, fields, 0);
}

/// Whether data are those of a card of the second format.
pub open spec fn second_data(d: Tree) -> bool {
    &&& has_all(d, second_members())
    &&& d.items_at("alternate_greetings"@) is Some
    &&& d.items_at("tags"@) is Some
    &&& d.get("extensions"@)->0 is Object
    &&& d.get("character_book"@) matches Some(b) ==> b.items_at("entries"@) is Some && b.get(
        "extensions"@,
    ) is Some && b.get("extensions"@)->0 is Object
}

/// A card that is not of the first format is of the second one if and only if it says so and its
/// data have all that belongs to it.
pub proof fn second_format_is_told(card: Tree, version: Option<u64>, d: Tree)
    requires
        !has_all(card, first_members()),
        card.get("data"@) == Some(d),
    ensures
        validator::verdict(card, version).0 == Some(2u8) <==> card.text_at("spec"@) == Some(
            "chara_card_v2"@,
        ) && card.text_at("spec_version"@) == Some("2.0"@) && second_data(d),
{
    let one = validator::v1_fields();
    assert(one =~= first_members());
    missing_is_first(card, one, 0);
    let two = validator::v2_fields();
    assert(two =~= second_members());
    missing_is_first(d, two, 0);
    assert(two[13] == "extensions"@);
    if d.get("character_book"@) is Some {
        let book = d.get("character_book"@)->0;
        missing_is_first(book, validator::book_fields(), 0);
        assert(validator::book_fields()[0] == "extensions"@);
        assert(validator::book_fields()[1] == "entries"@);
    }
}

/// A member that is missing from the data of a card of the second format is named.
pub proof fn missing_member_is_named(card: Tree, version: Option<u64>, d: Tree, i: int)
    requires
        !has_all(card, first_members()),
        card.text_at("spec"@) == Some("chara_card_v2"@),
        card.text_at("spec_version"@) == Some("2.0"@),
        card.get("data"@) == Some(d),
        0 <= i < second_members().len(),
        d.get(second_members()[i]) is None,
        forall|k: int| 0 <= k < i ==> d.get(#[trigger] second_members()[k]) is Some,
    ensures
        validator::v2_verdict(card, None) == (false, Some("data."@ + second_members()[i])),
        validator::verdict(card, version).0 is None,
{
    let one = validator::v1_fields();
    assert(one =~= first_members());
    missing_is_first(card, one, 0);
    let two = validator::v2_fields();
    assert(two =~= second_members());
    missing_is_first(d, two, 0);
    reveal_strlit("chara_card_v2");
    reveal_strlit("chara_card_v3");
    assert("chara_card_v2"@[12] == '2' && "chara_card_v3"@[12] == '3');
}

/// A card that says that it is of the third format is of that format where it has data and its
/// version, if it is a number, is at least three and less than four.
pub proof fn third_format_is_told(card: Tree, version: Option<u64>)
    requires
        !has_all(card, first_members()),
        card.text_at("spec"@) == Some("chara_card_v3"@),
    ensures
        card.get("spec_version"@) is None && card.get("data"@) is Some && card.get("data"@)->0
            is Object ==> validator::verdict(card, version).0 == Some(3u8),
        card.get("data"@) is None ==> validator::verdict(card, version).0 is None,
{
    let one = validator::v1_fields();
    assert(one =~= first_members());
    missing_is_first(card, one, 0);
    reveal_strlit("chara_card_v2");
    reveal_strlit("chara_card_v3");
    assert("chara_card_v2"@[12] == '2' && "chara_card_v3"@[12] == '3');
}

} // verus!
