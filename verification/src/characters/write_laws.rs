//! What holds of cards that are written: what is kept of a file that is imported, what an edit
//! changes, what a short form tells, and how copies are named.

use crate::characters::helpers;
use crate::characters::writes;
use crate::json;
use crate::json::Tree;
use crate::numbers;
use crate::sanitize;
use crate::text;
use crate::text_laws;
use crate::web;
use vstd::prelude::*;

verus! {

proof fn card_names_differ()
    ensures
        "avatar"@.len() == 6,
        "chat"@.len() == 4 && "chat"@[0] == 'c',
        "chat_size"@.len() == 9 && "chat_size"@[0] == 'c',
        "create_date"@.len() == 11 && "create_date"@[0] == 'c',
        "creator"@.len() == 7 && "creator"@[0] == 'c',
        "creatorcomment"@.len() == 14 && "creatorcomment"@[0] == 'c',
        "data"@.len() == 4 && "data"@[0] == 'd',
        "data_size"@.len() == 9 && "data_size"@[0] == 'd',
        "date_added"@.len() == 10,
        "date_last_chat"@.len() == 14 && "date_last_chat"@[0] == 'd',
        "description"@.len() == 11 && "description"@[0] == 'd',
        "fav"@.len() == 3,
        "first_mes"@.len() == 9 && "first_mes"@[0] == 'f',
        "mes_example"@.len() == 11 && "mes_example"@[0] == 'm',
        "name"@.len() == 4 && "name"@[0] == 'n',
        "personality"@.len() == 11 && "personality"@[0] == 'p',
        "scenario"@.len() == 8,
        "shallow"@.len() == 7 && "shallow"@[0] == 's',
        "tags"@.len() == 4 && "tags"@[0] == 't',
        "talkativeness"@.len() == 13,
{
    reveal_strlit("avatar");
    reveal_strlit("chat");
    reveal_strlit("chat_size");
    reveal_strlit("create_date");
    reveal_strlit("creator");
    reveal_strlit("creatorcomment");
    reveal_strlit("data");
    reveal_strlit("data_size");
    reveal_strlit("date_added");
    reveal_strlit("date_last_chat");
    reveal_strlit("description");
    reveal_strlit("fav");
    reveal_strlit("first_mes");
    reveal_strlit("mes_example");
    reveal_strlit("name");
    reveal_strlit("personality");
    reveal_strlit("scenario");
    reveal_strlit("shallow");
    reveal_strlit("tags");
    reveal_strlit("talkativeness");
}

proof fn early_keys(f: Seq<(Seq<char>, Tree)>)
    requires
        f.len() == 13,
        f[0].0 == "name"@,
        f[1].0 == "description"@,
        f[2].0 == "creatorcomment"@,
        f[3].0 == "personality"@,
        f[4].0 == "first_mes"@,
        f[5].0 == "avatar"@,
        f[6].0 == "chat"@,
        f[7].0 == "mes_example"@,
        f[8].0 == "scenario"@,
        f[9].0 == "create_date"@,
        f[10].0 == "talkativeness"@,
        f[11].0 == "creator"@,
        f[12].0 == "tags"@,
    ensures
        json::keys_distinct(f),
{
    card_names_differ();
}

proof fn yaml_keys(f: Seq<(Seq<char>, Tree)>)
    requires
        f.len() == 13,
        f[0].0 == "name"@,
        f[1].0 == "description"@,
        f[2].0 == "first_mes"@,
        f[3].0 == "create_date"@,
        f[4].0 == "chat"@,
        f[5].0 == "personality"@,
        f[6].0 == "creatorcomment"@,
        f[7].0 == "avatar"@,
        f[8].0 == "mes_example"@,
        f[9].0 == "scenario"@,
        f[10].0 == "talkativeness"@,
        f[11].0 == "creator"@,
        f[12].0 == "tags"@,
    ensures
        json::keys_distinct(f),
{
    card_names_differ();
}

/// The texts of a card of the first format.
pub open spec fn first_texts() -> Seq<Seq<char>> {
    seq![
        "description"@,
        "personality"@,
        "first_mes"@,
        "mes_example"@,
        "scenario"@,
        "creatorcomment"@,
        "creator"@,
    ]
}

/// The texts of a card, and what the oldest format calls them.
pub open spec fn oldest_texts() -> Seq<(Seq<char>, Seq<char>)> {
    seq![
        ("description"@, "char_persona"@),
        ("first_mes"@, "char_greeting"@),
        ("mes_example"@, "example_dialogue"@),
        ("scenario"@, "world_scenario"@),
    ]
}

/// A card of the first format keeps its texts, each under its own name, its talkativeness and its
/// tags, when it is imported; it is named and dated, and its first chat bears its name.
pub proof fn first_format_is_kept(
    file: Tree,
    stamp: Seq<char>,
    now: Seq<char>,
    n: Seq<char>,
    i: int,
    s: Seq<char>,
    v: Tree,
)
    requires
        0 <= i < first_texts().len(),
        file.get("char_json"@) is None,
        file.get("spec"@) is None,
        file.text_at("name"@) == Some(n),
    ensures
        writes::json_import(file, stamp, now) matches Ok(r) && {
            let name = sanitize::sanitized(n, ""@);
            &&& r.0 == Some(name)
            &&& r.1.text_at("name"@) == Some(name)
            &&& file.text_at(first_texts()[i]) == Some(s) ==> r.1.text_at(first_texts()[i]) == Some(
                s,
            )
            &&& file.get("talkativeness"@) == Some(v) ==> r.1.get("talkativeness"@) == Some(v)
            &&& file.get("tags"@) == Some(v) ==> r.1.get("tags"@) == Some(v)
            &&& r.1.text_at("create_date"@) == Some(now)
            &&& r.1.text_at("chat"@) == Some(name + " - "@ + stamp)
        },
{
    let f = writes::json_import(file, stamp, now)->Ok_0.1->Object_0;
    early_keys(f);
    json::member_reads(f, 0);
    json::member_reads(f, 1);
    json::member_reads(f, 2);
    json::member_reads(f, 3);
    json::member_reads(f, 4);
    json::member_reads(f, 5);
    json::member_reads(f, 6);
    json::member_reads(f, 7);
    json::member_reads(f, 8);
    json::member_reads(f, 9);
    json::member_reads(f, 10);
    json::member_reads(f, 11);
    json::member_reads(f, 12);
}

/// A card of the oldest format keeps its texts, each under the name of today.
pub proof fn oldest_format_is_kept(
    file: Tree,
    stamp: Seq<char>,
    now: Seq<char>,
    n: Seq<char>,
    i: int,
    s: Seq<char>,
    v: Tree,
)
    requires
        0 <= i < oldest_texts().len(),
        file.get("char_json"@) is None,
        file.get("spec"@) is None,
        file.text_at("name"@) is None,
        file.text_at("char_name"@) == Some(n),
    ensures
        writes::json_import(file, stamp, now) matches Ok(r) && {
            let name = sanitize::sanitized(n, ""@);
            &&& r.0 == Some(name)
            &&& r.1.text_at("name"@) == Some(name)
            &&& file.text_at(oldest_texts()[i].1) == Some(s) ==> r.1.text_at(oldest_texts()[i].0)
                == Some(s)
            &&& file.text_at("creatorcomment"@) == Some(s) ==> r.1.text_at("creatorcomment"@)
                == Some(s)
            &&& file.text_at("creator"@) == Some(s) ==> r.1.text_at("creator"@) == Some(s)
            &&& file.get("talkativeness"@) == Some(v) ==> r.1.get("talkativeness"@) == Some(v)
            &&& file.get("tags"@) == Some(v) ==> r.1.get("tags"@) == Some(v)
            &&& r.1.text_at("create_date"@) == Some(now)
        },
{
    let f = writes::json_import(file, stamp, now)->Ok_0.1->Object_0;
    early_keys(f);
    json::member_reads(f, 0);
    json::member_reads(f, 1);
    json::member_reads(f, 2);
    json::member_reads(f, 3);
    json::member_reads(f, 4);
    json::member_reads(f, 5);
    json::member_reads(f, 6);
    json::member_reads(f, 7);
    json::member_reads(f, 8);
    json::member_reads(f, 9);
    json::member_reads(f, 10);
    json::member_reads(f, 11);
    json::member_reads(f, 12);
}

/// A card that tells its format is taken as it is, also where it is held inside another file; a
/// file without a format and without a name is refused.
pub proof fn told_format_is_taken(file: Tree, card: Tree, stamp: Seq<char>, now: Seq<char>, v: Tree)
    requires
        card.get("spec"@) == Some(v),
    ensures
        file.get("char_json"@) == Some(card) ==> writes::json_import(file, stamp, now) == Ok::<
            (Option<Seq<char>>, Tree),
            web::ReplyView,
        >((None, card)),
        card.get("char_json"@) is None ==> writes::json_import(card, stamp, now) == Ok::<
            (Option<Seq<char>>, Tree),
            web::ReplyView,
        >((None, card)),
        file.get("char_json"@) is None && file.get("spec"@) is None && file.get("name"@) is None
            && file.get("char_name"@) is None ==> (writes::json_import(file, stamp, now) matches Err(
            e,
        ) && e.status == 400),
{
}

/// A card in YAML keeps its context as the description and its greeting as the first message.
pub proof fn yaml_card_is_kept(
    t: Tree,
    name: Seq<char>,
    stamp: Seq<char>,
    now: Seq<char>,
    s: Seq<char>,
)
    ensures
        ({
            let c = writes::yaml_card(t, name, stamp, now);
            &&& c.text_at("name"@) == Some(name)
            &&& t.text_at("context"@) == Some(s) ==> c.text_at("description"@) == Some(s)
            &&& t.text_at("greeting"@) == Some(s) ==> c.text_at("first_mes"@) == Some(s)
            &&& c.text_at("create_date"@) == Some(now)
            &&& c.text_at("chat"@) == Some(name + " - "@ + stamp)
        }),
{
    let f = writes::yaml_card(t, name, stamp, now)->Object_0;
    yaml_keys(f);
    json::member_reads(f, 0);
    json::member_reads(f, 1);
    json::member_reads(f, 2);
    json::member_reads(f, 3);
    json::member_reads(f, 4);
    json::member_reads(f, 5);
    json::member_reads(f, 6);
    json::member_reads(f, 7);
    json::member_reads(f, 8);
    json::member_reads(f, 9);
    json::member_reads(f, 10);
    json::member_reads(f, 11);
    json::member_reads(f, 12);
}

/// The notes of a card's maker are taken from where they stand; a placeholder is no note.
pub proof fn maker_notes_are_found(t: Tree, s: Seq<char>)
    ensures
        t.text_at("creatorcomment"@) == Some(s) ==> writes::maker_notes(t) == s,
        t.get("creatorcomment"@) is None && t.text_at("creator_notes"@) == Some(s) && !s.contains(
            'C',
        ) ==> writes::maker_notes(t) == s,
{
    reveal_strlit("Creator's notes go here.");
    let p = "Creator's notes go here."@;
    assert(p.len() == 24 && p[0] == 'C');
    if !s.contains('C') {
        text::replacing_nothing(s, p, ""@, 0);
        assert(s.skip(0) =~= s);
    }
}

/// The name of a card is the one in its data, or the one beside the data.
pub proof fn card_is_named(card: Tree, d: Tree, n: Seq<char>)
    ensures
        card.get("data"@) == Some(d) && d.text_at("name"@) == Some(n) ==> writes::name_on_card(card)
            == n,
        card.get("data"@) is None && card.text_at("name"@) == Some(n) ==> writes::name_on_card(card)
            == n,
        card.get("data"@) is None && card.get("name"@) is None ==> writes::name_on_card(card)
            == "Unknown"@,
{
}

/// The chat and the date of a card that is edited are the client's, and nothing where the client
/// has none; the rest is what the form makes of it.
pub proof fn edit_takes_over_chat_and_date(
    body: Tree,
    extras: writes::FormExtras,
    stamp: Seq<char>,
    f: Seq<(Seq<char>, Tree)>,
    k: Seq<char>,
)
    requires
        writes::form_card(body, extras, stamp) == Tree::Object(f),
        json::keys_distinct(f),
    ensures
        ({
            let c = writes::edited_card(body, extras, stamp);
            &&& c.get("chat"@) == body.get("chat"@)
            &&& c.get("create_date"@) == body.get("create_date"@)
            &&& k != "chat"@ && k != "create_date"@ ==> c.get(k) == Tree::Object(f).get(k)
        }),
{
    card_names_differ();
    let g = writes::taken_over(f, body, "chat"@);
    takes_over(f, body, "chat"@, "chat"@);
    takes_over(f, body, "chat"@, k);
    takes_over(g, body, "create_date"@, "chat"@);
    takes_over(g, body, "create_date"@, "create_date"@);
    takes_over(g, body, "create_date"@, k);
}

proof fn takes_over(f: Seq<(Seq<char>, Tree)>, body: Tree, k: Seq<char>, other: Seq<char>)
    requires
        json::keys_distinct(f),
    ensures
        json::lookup(writes::taken_over(f, body, k), other) == if other == k {
            body.get(k)
        } else {
            json::lookup(f, other)
        },
        json::keys_distinct(writes::taken_over(f, body, k)),
{
    if body.get(k) is Some {
        json::put_reads(f, k, body.get(k)->0, other);
        json::put_keeps_keys_distinct(f, k, body.get(k)->0);
    } else {
        json::lookup_after_removal(f, k);
        if other != k {
            json::lookup_after_removal_elsewhere(f, k, other);
        }
        assert(json::keys_distinct(json::without(f, k)));
    }
}

/// A card that is updated has each text of the update, keeps what the update does not speak of,
/// and never holds itself as a text.
pub proof fn update_is_taken_over(
    card: Seq<(Seq<char>, Tree)>,
    update: Seq<(Seq<char>, Tree)>,
    k: Seq<char>,
    s: Seq<char>,
)
    requires
        json::keys_distinct(card),
        json::keys_distinct(update),
        k != "json_data"@,
    ensures
        ({
            let r = writes::updated_card(Tree::Object(card), Tree::Object(update));
            &&& Tree::Object(update).text_at(k) == Some(s) ==> r.text_at(k) == Some(s)
            &&& Tree::Object(update).get(k) is None ==> r.get(k) == Tree::Object(card).get(k)
            &&& r.get("json_data"@) is None
        }),
{
    let c = json::without(card, "json_data"@);
    let u = json::without(update, "json_data"@);
    json::lookup_after_removal(card, "json_data"@);
    json::lookup_after_removal(update, "json_data"@);
    json::lookup_after_removal_elsewhere(card, "json_data"@, k);
    json::lookup_after_removal_elsewhere(update, "json_data"@, k);
    assert(json::keys_distinct(u));
    merged_reads(c, u, k);
    merged_reads(c, u, "json_data"@);
}

proof fn merged_reads(c: Seq<(Seq<char>, Tree)>, u: Seq<(Seq<char>, Tree)>, k: Seq<char>)
    requires
        json::keys_distinct(u),
    ensures
        json::lookup(u, k) is None ==> json::lookup(helpers::merged_members(c, u), k)
            == json::lookup(c, k),
        json::lookup(u, k) is Some && json::lookup(u, k)->0 is Text ==> json::lookup(
            helpers::merged_members(c, u),
            k,
        ) == json::lookup(u, k),
{
    json::position_is_first(u, k, 0);
    let p = json::position(u, k, 0);
    if p < u.len() {
        crate::characters::laws::merging_takes_members(c, u, p);
        if json::lookup(c, k) is Some && u[p].1 is Text {
            crate::characters::laws::merging_takes_over(json::lookup(c, k)->0, u[p].1);
        }
    } else {
        assert forall|j: int| 0 <= j < u.len() implies #[trigger] u[j].0 != k by {}
        crate::characters::laws::merging_keeps_other_members(c, u, k);
    }
}

/// A copy counts on from the number that its original bears, and from one where it bears none.
pub proof fn copy_counts_on(a: Seq<char>, digits: Seq<char>, n: u64)
    requires
        !digits.contains('_'),
        numbers::u64_value(digits) == Some(n),
        n <= u32::MAX,
    ensures
        writes::numbered_copy(a + seq!['_'] + digits) == (a, (n + 1) as nat),
        !a.contains('_') ==> writes::numbered_copy(a) == (a, 1nat),
{
    let s = a + seq!['_'] + digits;
    reveal_strlit("_");
    assert("_"@ =~= seq!['_']);
    text_laws::pieces_join_again(s, '_');
    text_laws::last_piece_is_cut(a, '_', digits);
    let parts = text::pieces(s, '_');
    if parts.len() <= 1 {
        text::pieces_not_empty(s, '_', 0);
        assert(parts.len() == 1);
        assert(text::joined(parts, "_"@) == parts[0]);
        assert(s[a.len() as int] == '_');
        assert(parts[0].contains('_'));
        assert(false);
    }
    let front = text::joined(parts.drop_last(), "_"@);
    assert(s == front + "_"@ + digits);
    assert(front.len() == a.len());
    assert(front =~= s.take(a.len() as int));
    assert(a =~= s.take(a.len() as int));
    if !a.contains('_') {
        text_laws::first_piece_is_cut(a, '_', Seq::empty());
    }
}

/// A character's chats are deleted with it where the client asks for it, and only then.
pub proof fn chats_are_deleted_on_demand(avatar: Seq<char>, safe: Seq<char>, name: Seq<char>)
    requires
        crate::paths::path_stem(avatar) == Some(name),
        name.len() > 0,
        safe.len() > 0,
    ensures
        writes::chats_to_delete(avatar, true, safe) == Ok::<Option<Seq<char>>, web::ReplyView>(
            Some(safe),
        ),
        writes::chats_to_delete(avatar, false, safe) == Ok::<Option<Seq<char>>, web::ReplyView>(
            None,
        ),
{
}

/// What the short form of a character keeps beside its data.
pub open spec fn short_members() -> Seq<Seq<char>> {
    seq![
        "avatar"@,
        "chat"@,
        "fav"@,
        "date_added"@,
        "create_date"@,
        "date_last_chat"@,
        "chat_size"@,
        "data_size"@,
        "tags"@,
    ]
}

proof fn picked_reads(t: Tree, keys: Seq<Seq<char>>, k: Seq<char>)
    requires
        forall|i: int, j: int| 0 <= i < j < keys.len() ==> keys[i] != keys[j],
    ensures
        json::lookup(helpers::picked(t, keys), k) == if keys.contains(k) {
            t.get(k)
        } else {
            None
        },
    decreases keys.len(),
{
    if keys.len() > 0 {
        let front = keys.drop_last();
        let f = helpers::picked(t, front);
        picked_reads(t, front, k);
        let last = keys.last();
        if t.get(last) is Some {
            picked_reads(t, front, last);
            assert(!front.contains(last));
            lookup_pushed(f, last, t.get(last)->0, k);
        }
        if keys.contains(k) && k != last {
            let i = choose|i: int| 0 <= i < keys.len() && keys[i] == k;
            assert(front[i] == k);
        }
        if k == last {
            assert(keys[keys.len() - 1] == k);
            assert(!front.contains(k));
        }
        if front.contains(k) {
            let i = choose|i: int| 0 <= i < front.len() && front[i] == k;
            assert(keys[i] == k);
        }
    }
}

proof fn lookup_pushed(f: Seq<(Seq<char>, Tree)>, k: Seq<char>, v: Tree, other: Seq<char>)
    requires
        json::lookup(f, k) is None,
    ensures
        json::lookup(f.push((k, v)), other) == if other == k {
            Some(v)
        } else {
            json::lookup(f, other)
        },
{
    json::position_is_first(f, k, 0);
    assert(json::put(f, k, v) == f.push((k, v)));
    json::put_reads(f, k, v, other);
}

proof fn lookup_joined(f: Seq<(Seq<char>, Tree)>, g: Seq<(Seq<char>, Tree)>, k: Seq<char>)
    ensures
        json::lookup(f + g, k) == match json::lookup(f, k) {
            Some(v) => Some(v),
            None => json::lookup(g, k),
        },
    decreases g.len(),
{
    json::position_is_first(f, k, 0);
    json::position_is_first(g, k, 0);
    json::position_is_first(f + g, k, 0);
    let p = json::position(f, k, 0);
    let q = json::position(g, k, 0);
    let r = json::position(f + g, k, 0);
    if p < f.len() {
        assert((f + g)[p] == f[p]);
        if r < p {
            assert((f + g)[r] == f[r]);
        }
    } else if q < g.len() {
        assert((f + g)[f.len() + q] == g[q]);
        if r < f.len() {
            assert((f + g)[r] == f[r]);
        } else if r < f.len() + q {
            assert((f + g)[r] == g[r - f.len()]);
        }
    } else if r < (f + g).len() {
        if r < f.len() {
            assert((f + g)[r] == f[r]);
        } else {
            assert((f + g)[r] == g[r - f.len()]);
        }
    }
}

/// The short form of a character has its name, its dates, its sizes, its picture and its tags, and
/// says that it is short; of its data it tells who made it, in which version, and with which tags.
pub proof fn short_form_is_kept(c: Tree, d: Tree, name: Seq<char>, i: int, v: Tree)
    requires
        0 <= i < short_members().len(),
        c.text_at("name"@) == Some(name),
        c.get("data"@) == Some(d),
    ensures
        helpers::shallow(c) matches Some(t) && {
            &&& t.flag_at("shallow"@) == Some(true)
            &&& t.text_at("name"@) == Some(name)
            &&& t.get(short_members()[i]) == c.get(short_members()[i])
            &&& t.get("data"@) matches Some(e) && (d.get("name"@) == Some(v) ==> e.get("name"@)
                == Some(v)) && (d.get("creator"@) == Some(v) ==> e.get("creator"@) == Some(v)) && (
            d.get("character_version"@) == Some(v) ==> e.get("character_version"@) == Some(v)) && (
            d.get("creator_notes"@) == Some(v) ==> e.get("creator_notes"@) == Some(v)) && (d.get(
                "tags"@,
            ) == Some(v) ==> e.get("tags"@) == Some(v)) && e.get("description"@) is None
        },
        helpers::shallow(Tree::Null) is None,
{
    card_names_differ();
    short_data_reads(d, v);
    let head = seq![("shallow"@, Tree::Bool(true)), ("name"@, json::txt(name))];
    let keys = helpers::shallow_keys();
    let f = helpers::picked(c, keys);
    let k = short_members()[i];
    assert(keys =~= short_members());
    assert(keys[i] == k);
    picked_reads(c, keys, k);
    picked_reads(c, keys, "name"@);
    picked_reads(c, keys, "shallow"@);
    picked_reads(c, keys, "data"@);
    reveal_with_fuel(json::position, 3);
    lookup_joined(head, f, k);
    lookup_joined(head, f, "name"@);
    lookup_joined(head, f, "shallow"@);
    lookup_joined(head, f, "data"@);
    let e = helpers::shallow_data(d);
    lookup_pushed(head + f, "data"@, e, k);
    lookup_pushed(head + f, "data"@, e, "name"@);
    lookup_pushed(head + f, "data"@, e, "shallow"@);
    lookup_pushed(head + f, "data"@, e, "data"@);
}

proof fn short_data_reads(d: Tree, v: Tree)
    ensures
        ({
            let e = helpers::shallow_data(d);
            &&& d.get("name"@) == Some(v) ==> e.get("name"@) == Some(v)
            &&& d.get("creator"@) == Some(v) ==> e.get("creator"@) == Some(v)
            &&& d.get("character_version"@) == Some(v) ==> e.get("character_version"@) == Some(v)
            &&& d.get("creator_notes"@) == Some(v) ==> e.get("creator_notes"@) == Some(v)
            &&& d.get("tags"@) == Some(v) ==> e.get("tags"@) == Some(v)
            &&& e.get("description"@) is None
        }),
{
    reveal_strlit("character_version");
    reveal_strlit("creator");
    reveal_strlit("creator_notes");
    reveal_strlit("description");
    reveal_strlit("extensions");
    reveal_strlit("name");
    reveal_strlit("tags");
    assert("character_version"@.len() == 17);
    assert("creator"@.len() == 7);
    assert("creator_notes"@.len() == 13);
    assert("description"@.len() == 11);
    assert("extensions"@.len() == 10);
    assert("name"@.len() == 4 && "name"@[0] == 'n');
    assert("tags"@.len() == 4 && "tags"@[0] == 't');
    reveal_with_fuel(json::position, 7);
}

/// The size of all chats is the sum of their sizes, and the last one is none older than any.
pub proof fn chat_sizes_add_up(files: Seq<helpers::ChatFile>, file: helpers::ChatFile)
    ensures
        helpers::total_size(files.push(file)) == helpers::total_size(files) + file.size,
        helpers::total_size(Seq::empty()) == 0,
        helpers::latest(files.push(file)) >= file.mtime,
        helpers::latest(files.push(file)) >= helpers::latest(files),
        helpers::latest(files.push(file)) == file.mtime || helpers::latest(files.push(file))
            == helpers::latest(files),
{
    assert(files.push(file).drop_last() =~= files);
}

/// The size of a card's data is that of the texts of its members.
pub proof fn data_sizes_add_up(f: Seq<(Seq<char>, Tree)>, k: Seq<char>, s: Seq<char>)
    ensures
        helpers::text_size(f.push((k, Tree::Text(s)))) == helpers::text_size(f)
            + vstd::utf8::encode_utf8(s).len(),
        helpers::text_size(Seq::empty()) == 0,
{
    assert(f.push((k, Tree::Text(s))).drop_last() =~= f);
}

/// Tags that are written in one text stand between commas; white space around them, and tags
/// without a character, do not count.
pub proof fn tags_stand_between_commas(a: Seq<char>, w: Seq<char>, tag: Seq<char>, x: Seq<char>)
    requires
        text_laws::all_white(w),
        text_laws::all_white(x),
        text_laws::tight(tag),
        tag.len() > 0,
        !(w + tag + x).contains(','),
    ensures
        helpers::tags_of(Some(Tree::Text(a + seq![','] + (w + tag + x)))) == Tree::Array(
            (helpers::tags_of(Some(Tree::Text(a)))->Array_0).push(Tree::Text(tag)),
        ),
        helpers::tags_of(Some(Tree::Text(w + tag + x))) == Tree::Array(seq![Tree::Text(tag)]),
        helpers::tags_of(None) == Tree::Array(Seq::empty()),
{
    let last = w + tag + x;
    text_laws::white_is_trimmed(w, tag, x);
    text_laws::first_piece_is_cut(last, ',', Seq::empty());
    let one = seq![last];
    assert(one.drop_last() =~= Seq::<Seq<char>>::empty());
    assert(one.last() == last);
    reveal_with_fuel(helpers::tag_items, 2);
    assert(helpers::tag_items(one) =~= seq![Tree::Text(tag)]);
    pieces_pushed(a, ',', last);
    let p = text::pieces(a, ',');
    assert(p.push(last).drop_last() =~= p);
}

proof fn pieces_pushed(a: Seq<char>, c: char, b: Seq<char>)
    requires
        !b.contains(c),
    ensures
        text::pieces(a + seq![c] + b, c) == text::pieces(a, c).push(b),
    decreases a.len(),
{
    if a.contains(c) {
        let i = a.index_of_first(c)->0;
        a.index_of_first_ensures(c);
        let x = a.take(i);
        let y = a.skip(i + 1);
        assert(!x.contains(c));
        assert(a + seq![c] + b =~= x + seq![c] + (y + seq![c] + b));
        assert(a =~= x + seq![c] + y);
        text_laws::first_piece_is_cut(x, c, y + seq![c] + b);
        text_laws::first_piece_is_cut(x, c, y);
        pieces_pushed(y, c, b);
        assert(seq![x] + text::pieces(y, c).push(b) =~= (seq![x] + text::pieces(y, c)).push(b));
    } else {
        text_laws::first_piece_is_cut(a, c, b);
        text_laws::first_piece_is_cut(b, c, Seq::empty());
        assert(seq![a] + seq![b] =~= seq![a].push(b));
    }
}

} // verus!
