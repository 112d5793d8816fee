//! What holds of cards that are made of forms and of older cards: every field holds what stood
//! under its name.

use crate::characters::helpers;
use crate::json;
use crate::json::Tree;
use vstd::prelude::*;

verus! {

/// The fields of a form that a card has under `data` by the same name.
pub open spec fn text_fields() -> Seq<Seq<char>> {
    seq![
        "description"@,
        "personality"@,
        "scenario"@,
        "first_mes"@,
        "mes_example"@,
        "creator_notes"@,
        "system_prompt"@,
        "post_history_instructions"@,
        "creator"@,
        "character_version"@,
    ]
}

/// The fields of a form that a card has at its top by the same name.
pub open spec fn top_fields() -> Seq<Seq<char>> {
    seq![
        "description"@,
        "personality"@,
        "scenario"@,
        "first_mes"@,
        "mes_example"@,
    ]
}

proof fn keys_are_told_apart()
    ensures
        "alternate_greetings"@.len() == 19 && "alternate_greetings"@[0] == 'a',
        "avatar"@.len() == 6 && "avatar"@[0] == 'a',
        "ch_name"@.len() == 7 && "ch_name"@[0] == 'c' && "ch_name"@[1] == 'h',
        "character_book"@.len() == 14 && "character_book"@[1] == 'h',
        "character_version"@.len() == 17 && "character_version"@[0] == 'c',
        "chat"@.len() == 4 && "chat"@[0] == 'c',
        "create_date"@.len() == 11 && "create_date"@[0] == 'c',
        "creator"@.len() == 7 && "creator"@[0] == 'c' && "creator"@[1] == 'r',
        "creator_notes"@.len() == 13 && "creator_notes"@[0] == 'c',
        "creatorcomment"@.len() == 14 && "creatorcomment"@[1] == 'r',
        "data"@.len() == 4 && "data"@[0] == 'd',
        "depth"@.len() == 5 && "depth"@[0] == 'd',
        "depth_prompt"@.len() == 12 && "depth_prompt"@[0] == 'd',
        "depth_prompt_depth"@.len() == 18,
        "depth_prompt_prompt"@.len() == 19 && "depth_prompt_prompt"@[0] == 'd',
        "depth_prompt_role"@.len() == 17 && "depth_prompt_role"@[0] == 'd',
        "description"@.len() == 11 && "description"@[0] == 'd',
        "entries"@.len() == 7 && "entries"@[0] == 'e',
        "extensions"@.len() == 10,
        "fav"@.len() == 3,
        "first_mes"@.len() == 9 && "first_mes"@[0] == 'f',
        "json_data"@.len() == 9 && "json_data"@[0] == 'j',
        "mes_example"@.len() == 11 && "mes_example"@[0] == 'm',
        "name"@.len() == 4 && "name"@[0] == 'n',
        "originalData"@.len() == 12 && "originalData"@[0] == 'o',
        "personality"@.len() == 11 && "personality"@[0] == 'p',
        "post_history_instructions"@.len() == 25,
        "prompt"@.len() == 6 && "prompt"@[0] == 'p',
        "role"@.len() == 4 && "role"@[0] == 'r',
        "scenario"@.len() == 8,
        "spec"@.len() == 4 && "spec"@[0] == 's',
        "spec_version"@.len() == 12 && "spec_version"@[0] == 's',
        "system_prompt"@.len() == 13 && "system_prompt"@[0] == 's',
        "tags"@.len() == 4 && "tags"@[0] == 't',
        "talkativeness"@.len() == 13 && "talkativeness"@[0] == 't',
        "world"@.len() == 5 && "world"@[0] == 'w',
{
    reveal_strlit("alternate_greetings");
    reveal_strlit("avatar");
    reveal_strlit("ch_name");
    reveal_strlit("character_book");
    reveal_strlit("character_version");
    reveal_strlit("chat");
    reveal_strlit("create_date");
    reveal_strlit("creator");
    reveal_strlit("creator_notes");
    reveal_strlit("creatorcomment");
    reveal_strlit("data");
    reveal_strlit("depth");
    reveal_strlit("depth_prompt");
    reveal_strlit("depth_prompt_depth");
    reveal_strlit("depth_prompt_prompt");
    reveal_strlit("depth_prompt_role");
    reveal_strlit("description");
    reveal_strlit("entries");
    reveal_strlit("extensions");
    reveal_strlit("fav");
    reveal_strlit("first_mes");
    reveal_strlit("json_data");
    reveal_strlit("mes_example");
    reveal_strlit("name");
    reveal_strlit("originalData");
    reveal_strlit("personality");
    reveal_strlit("post_history_instructions");
    reveal_strlit("prompt");
    reveal_strlit("role");
    reveal_strlit("scenario");
    reveal_strlit("spec");
    reveal_strlit("spec_version");
    reveal_strlit("system_prompt");
    reveal_strlit("tags");
    reveal_strlit("talkativeness");
    reveal_strlit("world");
}

proof fn extended_reads(
    f: Seq<(Seq<char>, Tree)>,
    flat: Seq<(Seq<char>, Tree)>,
    prompt: Seq<(Seq<char>, Tree)>,
)
    requires
        flat.len() == 3 && flat[0].0 == "talkativeness"@ && flat[1].0 == "fav"@ && flat[2].0
            == "world"@,
        prompt.len() == 3 && prompt[0].0 == "prompt"@ && prompt[1].0 == "depth"@ && prompt[2].0
            == "role"@,
    ensures
        ({
            let e = Tree::Object(helpers::extended(f, flat, prompt));
            &&& e.get("talkativeness"@) == Some(flat[0].1)
            &&& e.get("fav"@) == Some(flat[1].1)
            &&& e.get("world"@) == Some(flat[2].1)
            &&& e.get("depth_prompt"@) matches Some(p) && p.get("prompt"@) == Some(prompt[0].1)
                && p.get("depth"@) == Some(prompt[1].1) && p.get("role"@) == Some(prompt[2].1)
        }),
{
    keys_are_told_apart();
    let g = json::put_all(f, flat);
    let inner = json::put_all(json::fields_of(json::lookup(g, "depth_prompt"@)), prompt);
    json::put_all_reads(f, flat, 0);
    json::put_all_reads(f, flat, 1);
    json::put_all_reads(f, flat, 2);
    json::put_all_reads(json::fields_of(json::lookup(g, "depth_prompt"@)), prompt, 0);
    json::put_all_reads(json::fields_of(json::lookup(g, "depth_prompt"@)), prompt, 1);
    json::put_all_reads(json::fields_of(json::lookup(g, "depth_prompt"@)), prompt, 2);
    json::put_reads(g, "depth_prompt"@, Tree::Object(inner), "talkativeness"@);
    json::put_reads(g, "depth_prompt"@, Tree::Object(inner), "fav"@);
    json::put_reads(g, "depth_prompt"@, Tree::Object(inner), "world"@);
    json::put_reads(g, "depth_prompt"@, Tree::Object(inner), "depth_prompt"@);
}

proof fn other_members_stay(
    f: Seq<(Seq<char>, Tree)>,
    g: Seq<(Seq<char>, Tree)>,
    k: Seq<char>,
)
    requires
        forall|j: int| 0 <= j < g.len() ==> (#[trigger] g[j]).0 != k,
    ensures
        json::lookup(json::put_all(f, g), k) == json::lookup(f, k),
{
    assert forall|j: int| 0 <= j < g.len() implies #[trigger] g[j].0 != k by {
        assert(g[j].0 != k);
    }
    json::lookup_after_put_all_elsewhere(f, g, k);
}

proof fn form_data_is_distinct(d: Tree)
    ensures
        json::keys_distinct(helpers::form_data(d)),
{
    keys_are_told_apart();
    let g = helpers::form_data(d);
    assert(g[0].0 == "name"@ && g[1].0 == "description"@ && g[2].0 == "personality"@
        && g[3].0 == "scenario"@ && g[4].0 == "first_mes"@ && g[5].0 == "mes_example"@
        && g[6].0 == "creator_notes"@ && g[7].0 == "system_prompt"@
        && g[8].0 == "post_history_instructions"@ && g[9].0 == "tags"@ && g[10].0 == "creator"@
        && g[11].0 == "character_version"@ && g[12].0 == "alternate_greetings"@);
    assert(g.len() == 13);
    assert forall|i: int, j: int| 0 <= i < j < g.len() implies #[trigger] g[i].0
        != #[trigger] g[j].0 by {}
}

proof fn form_members_is_distinct(d: Tree, talkativeness: Tree, stamp: Seq<char>)
    ensures
        json::keys_distinct(helpers::form_members(d, talkativeness, stamp)),
{
    keys_are_told_apart();
    let g = helpers::form_members(d, talkativeness, stamp);
    assert(g[0].0 == "name"@ && g[1].0 == "description"@ && g[2].0 == "personality"@
        && g[3].0 == "scenario"@ && g[4].0 == "first_mes"@ && g[5].0 == "mes_example"@
        && g[6].0 == "creatorcomment"@ && g[7].0 == "avatar"@ && g[8].0 == "chat"@
        && g[9].0 == "talkativeness"@ && g[10].0 == "fav"@ && g[11].0 == "tags"@
        && g[12].0 == "spec"@ && g[13].0 == "spec_version"@);
    assert(g.len() == 14);
    assert forall|i: int, j: int| 0 <= i < j < g.len() implies #[trigger] g[i].0
        != #[trigger] g[j].0 by {}
}

proof fn form_data_reads(
    f: Seq<(Seq<char>, Tree)>,
    d: Tree,
    e: Tree,
    more: Option<Tree>,
)
    ensures
        forall|i: int|
            0 <= i < helpers::form_data(d).len() ==> json::lookup(
                helpers::with_extensions(
                    json::put(json::put_all(f, helpers::form_data(d)), "extensions"@, e),
                    more,
                ),
                (#[trigger] helpers::form_data(d)[i]).0,
            ) == Some(helpers::form_data(d)[i].1),
{
    let g = helpers::form_data(d);
    let plain = json::put_all(f, g);
    let a = json::put(plain, "extensions"@, e);
    let b = helpers::with_extensions(a, more);
    form_data_is_distinct(d);
    assert forall|i: int| 0 <= i < g.len() implies json::lookup(b, (#[trigger] g[i]).0) == Some(
        g[i].1,
    ) by {
        form_data_is_plain(d, i);
        json::put_all_reads(f, g, i);
        json::put_reads(plain, "extensions"@, e, g[i].0);
        match more {
            Some(m) => json::put_reads(
                a,
                "extensions"@,
                helpers::merged(
                    json::tree_or(json::lookup(a, "extensions"@), Tree::Object(Seq::empty())),
                    m,
                ),
                g[i].0,
            ),
            None => {},
        }
    }
}

proof fn form_data_is_plain(d: Tree, i: int)
    requires
        0 <= i < helpers::form_data(d).len(),
    ensures
        helpers::form_data(d)[i].0 != "extensions"@,
{
    keys_are_told_apart();
}

/// Under `data` of the card that a form is made into, every field holds the text that the form
/// has under the same key, the name is the one under `ch_name`, and what the form gives for the
/// extensions stands there.
#[verifier::rlimit(30)]
pub proof fn form_fills_data(
    d: Tree,
    base: Option<Tree>,
    parsed: Option<Tree>,
    talkativeness: Tree,
    depth: Tree,
    stamp: Seq<char>,
)
    ensures
        ({
            let c = helpers::formatted(d, base, parsed, talkativeness, depth, stamp);
            let data = c.get("data"@)->0;
            &&& c.get("data"@) is Some
            &&& data.text_at("name"@) == Some(d.text_or("ch_name"@, ""@))
            &&& forall|i: int|
                0 <= i < text_fields().len() ==> data.text_at(#[trigger] text_fields()[i]) == Some(
                    d.text_or(text_fields()[i], ""@),
                )
            &&& data.get("tags"@) == Some(helpers::tags_of(d.get("tags"@)))
            &&& d.get("alternate_greetings"@) matches Some(Tree::Array(v)) ==> data.get(
                "alternate_greetings"@,
            ) == Some(Tree::Array(v))
            &&& d.get("alternate_greetings"@) matches Some(Tree::Text(t)) ==> data.get(
                "alternate_greetings"@,
            ) == Some(Tree::Array(seq![Tree::Text(t)]))
            &&& d.text_at("extensions"@) is None ==> {
                let e = data.get("extensions"@)->0;
                &&& data.get("extensions"@) is Some
                &&& e.get("talkativeness"@) == Some(talkativeness)
                &&& e.flag_at("fav"@) == Some(d.get("fav"@) == Some(Tree::Text("true"@)))
                &&& e.text_at("world"@) == Some(d.text_or("world"@, ""@))
                &&& e.get("depth_prompt"@) matches Some(p) && p.text_at("prompt"@) == Some(
                    d.text_or("depth_prompt_prompt"@, ""@),
                ) && p.get("depth"@) == Some(depth) && p.text_at("role"@) == Some(
                    d.text_or("depth_prompt_role"@, "system"@),
                )
            }
        }),
{
    keys_are_told_apart();
    let top = match json::tree_or(base, Tree::Object(Seq::empty())) {
        Tree::Object(f) => json::put_all(
            json::without(f, "json_data"@),
            helpers::form_members(d, talkativeness, stamp),
        ),
        _ => Seq::empty(),
    };
    let f = json::fields_of(json::lookup(top, "data"@));
    let g = helpers::form_data(d);
    let plain = json::put_all(f, g);
    let flat = helpers::form_extensions(d, talkativeness);
    let prompt = helpers::form_prompt(d, depth);
    let inner = json::fields_of(json::lookup(plain, "extensions"@));
    let e = Tree::Object(helpers::extended(inner, flat, prompt));
    extended_reads(inner, flat, prompt);
    let a = json::put(plain, "extensions"@, e);
    json::put_reads(plain, "extensions"@, e, "extensions"@);
    let more = if d.text_at("extensions"@) is Some {
        parsed
    } else {
        None
    };
    let b = helpers::with_extensions(a, more);
    json::put_reads(top, "data"@, Tree::Object(b), "data"@);
    form_data_is_distinct(d);
    assert(g[0].0 == "name"@ && g[1].0 == "description"@ && g[2].0 == "personality"@
        && g[3].0 == "scenario"@ && g[4].0 == "first_mes"@ && g[5].0 == "mes_example"@
        && g[6].0 == "creator_notes"@ && g[7].0 == "system_prompt"@
        && g[8].0 == "post_history_instructions"@ && g[9].0 == "tags"@ && g[10].0 == "creator"@
        && g[11].0 == "character_version"@ && g[12].0 == "alternate_greetings"@);
    form_data_reads(f, d, e, more);
    let w = text_fields();
    assert(w[0] == "description"@ && w[1] == "personality"@ && w[2] == "scenario"@
        && w[3] == "first_mes"@ && w[4] == "mes_example"@ && w[5] == "creator_notes"@
        && w[6] == "system_prompt"@ && w[7] == "post_history_instructions"@ && w[8] == "creator"@
        && w[9] == "character_version"@);
    assert(json::lookup(b, "name"@) == Some(g[0].1)
        && json::lookup(b, "description"@) == Some(g[1].1)
        && json::lookup(b, "personality"@) == Some(g[2].1)
        && json::lookup(b, "scenario"@) == Some(g[3].1)
        && json::lookup(b, "first_mes"@) == Some(g[4].1)
        && json::lookup(b, "mes_example"@) == Some(g[5].1)
        && json::lookup(b, "creator_notes"@) == Some(g[6].1)
        && json::lookup(b, "system_prompt"@) == Some(g[7].1)
        && json::lookup(b, "post_history_instructions"@) == Some(g[8].1)
        && json::lookup(b, "tags"@) == Some(g[9].1) && json::lookup(b, "creator"@) == Some(g[10].1)
        && json::lookup(b, "character_version"@) == Some(g[11].1)
        && json::lookup(b, "alternate_greetings"@) == Some(g[12].1));
}

/// At the top of the card that a form is made into, the fields of older cards hold the texts of
/// the form too.
pub proof fn form_fills_top(
    d: Tree,
    base: Option<Tree>,
    parsed: Option<Tree>,
    talkativeness: Tree,
    depth: Tree,
    stamp: Seq<char>,
)
    requires
        base is None || base->0 is Object,
    ensures
        ({
            let c = helpers::formatted(d, base, parsed, talkativeness, depth, stamp);
            &&& c.text_at("name"@) == Some(d.text_or("ch_name"@, ""@))
            &&& forall|i: int|
                0 <= i < top_fields().len() ==> c.text_at(#[trigger] top_fields()[i]) == Some(
                    d.text_or(top_fields()[i], ""@),
                )
            &&& c.text_at("creatorcomment"@) == Some(d.text_or("creator_notes"@, ""@))
            &&& c.text_at("avatar"@) == Some("none"@)
            &&& c.text_at("chat"@) == Some(d.text_or("ch_name"@, ""@) + " - "@ + stamp)
            &&& c.get("talkativeness"@) == Some(talkativeness)
            &&& c.flag_at("fav"@) == Some(d.get("fav"@) == Some(Tree::Text("true"@)))
            &&& c.get("tags"@) == c.get("data"@)->0.get("tags"@)
            &&& c.text_at("spec"@) == Some("chara_card_v2"@)
            &&& c.text_at("spec_version"@) == Some("2.0"@)
        }),
{
    keys_are_told_apart();
    form_fills_data(d, base, parsed, talkativeness, depth, stamp);
    let g = helpers::form_members(d, talkativeness, stamp);
    let start = json::without(
        json::fields_of(Some(json::tree_or(base, Tree::Object(Seq::empty())))),
        "json_data"@,
    );
    let top = json::put_all(start, g);
    let c = helpers::formatted(d, base, parsed, talkativeness, depth, stamp);
    let data = c.get("data"@)->0;
    form_members_is_distinct(d, talkativeness, stamp);
    assert(g[0].0 == "name"@ && g[1].0 == "description"@ && g[2].0 == "personality"@
        && g[3].0 == "scenario"@ && g[4].0 == "first_mes"@ && g[5].0 == "mes_example"@
        && g[6].0 == "creatorcomment"@ && g[7].0 == "avatar"@ && g[8].0 == "chat"@
        && g[9].0 == "talkativeness"@ && g[10].0 == "fav"@ && g[11].0 == "tags"@
        && g[12].0 == "spec"@ && g[13].0 == "spec_version"@);
    assert(c == Tree::Object(json::put(top, "data"@, data))) by {
        let plain = json::put_all(
            json::fields_of(json::lookup(top, "data"@)),
            helpers::form_data(d),
        );
        let e = helpers::extended(
            json::fields_of(json::lookup(plain, "extensions"@)),
            helpers::form_extensions(d, talkativeness),
            helpers::form_prompt(d, depth),
        );
        let made = Tree::Object(
            helpers::with_extensions(
                json::put(plain, "extensions"@, Tree::Object(e)),
                if d.text_at("extensions"@) is Some {
                    parsed
                } else {
                    None
                },
            ),
        );
        json::put_reads(top, "data"@, made, "data"@);
    }
    assert forall|i: int| 0 <= i < g.len() implies c.get((#[trigger] g[i]).0) == Some(g[i].1) by {
        json::put_all_reads(start, g, i);
        json::put_reads(top, "data"@, data, g[i].0);
    }
    let w = top_fields();
    assert(w[0] == "description"@ && w[1] == "personality"@ && w[2] == "scenario"@
        && w[3] == "first_mes"@ && w[4] == "mes_example"@);
    assert(c.get("name"@) == Some(g[0].1) && c.get("description"@) == Some(g[1].1)
        && c.get("personality"@) == Some(g[2].1) && c.get("scenario"@) == Some(g[3].1)
        && c.get("first_mes"@) == Some(g[4].1) && c.get("mes_example"@) == Some(g[5].1)
        && c.get("creatorcomment"@) == Some(g[6].1) && c.get("avatar"@) == Some(g[7].1)
        && c.get("chat"@) == Some(g[8].1) && c.get("talkativeness"@) == Some(g[9].1)
        && c.get("fav"@) == Some(g[10].1) && c.get("tags"@) == Some(g[11].1)
        && c.get("spec"@) == Some(g[12].1) && c.get("spec_version"@) == Some(g[13].1));
}

/// What a card has besides, at its top or under `data`, is still there once a form was filled in
/// on top of it.
pub proof fn form_keeps_the_rest(
    d: Tree,
    f: Seq<(Seq<char>, Tree)>,
    parsed: Option<Tree>,
    talkativeness: Tree,
    depth: Tree,
    stamp: Seq<char>,
    k: Seq<char>,
)
    requires
        k != "data"@,
        k != "json_data"@,
        k != "extensions"@,
        forall|i: int|
            0 <= i < helpers::form_members(d, talkativeness, stamp).len() ==> (
            #[trigger] helpers::form_members(d, talkativeness, stamp)[i]).0 != k,
        forall|i: int|
            0 <= i < helpers::form_data(d).len() ==> (#[trigger] helpers::form_data(d)[i]).0 != k,
    ensures
        ({
            let before = Tree::Object(f);
            let c = helpers::formatted(d, Some(before), parsed, talkativeness, depth, stamp);
            &&& c.get(k) == before.get(k)
            &&& before.get("data"@) is Some && before.get("data"@)->0 is Object ==> c.get(
                "data"@,
            )->0.get(k) == before.get("data"@)->0.get(k)
        }),
{
    keys_are_told_apart();
    let g = helpers::form_members(d, talkativeness, stamp);
    let start = json::without(f, "json_data"@);
    let top = json::put_all(start, g);
    json::lookup_after_removal_elsewhere(f, "json_data"@, k);
    json::lookup_after_removal_elsewhere(f, "json_data"@, "data"@);
    other_members_stay(start, g, k);
    assert(g[0].0 == "name"@ && g[1].0 == "description"@ && g[2].0 == "personality"@
        && g[3].0 == "scenario"@ && g[4].0 == "first_mes"@ && g[5].0 == "mes_example"@
        && g[6].0 == "creatorcomment"@ && g[7].0 == "avatar"@ && g[8].0 == "chat"@
        && g[9].0 == "talkativeness"@ && g[10].0 == "fav"@ && g[11].0 == "tags"@
        && g[12].0 == "spec"@ && g[13].0 == "spec_version"@);
    other_members_stay(start, g, "data"@);
    let inner = json::fields_of(json::lookup(top, "data"@));
    let plain = json::put_all(inner, helpers::form_data(d));
    other_members_stay(inner, helpers::form_data(d), k);
    let e = Tree::Object(
        helpers::extended(
            json::fields_of(json::lookup(plain, "extensions"@)),
            helpers::form_extensions(d, talkativeness),
            helpers::form_prompt(d, depth),
        ),
    );
    let a = json::put(plain, "extensions"@, e);
    json::put_reads(plain, "extensions"@, e, k);
    let more = if d.text_at("extensions"@) is Some {
        parsed
    } else {
        None
    };
    match more {
        Some(m) => json::put_reads(
            a,
            "extensions"@,
            helpers::merged(
                json::tree_or(json::lookup(a, "extensions"@), Tree::Object(Seq::empty())),
                m,
            ),
            k,
        ),
        None => {},
    }
    let made = Tree::Object(helpers::with_extensions(a, more));
    json::put_reads(top, "data"@, made, k);
    json::put_reads(top, "data"@, made, "data"@);
}

proof fn legacy_is_distinct(o: Tree, stamp: Seq<char>)
    ensures
        json::keys_distinct(helpers::legacy_data(o)),
        json::keys_distinct(helpers::legacy_members(o, stamp)),
{
    keys_are_told_apart();
    let g = helpers::legacy_data(o);
    assert(g[0].0 == "name"@ && g[1].0 == "description"@ && g[2].0 == "personality"@
        && g[3].0 == "scenario"@ && g[4].0 == "first_mes"@ && g[5].0 == "mes_example"@
        && g[6].0 == "creator_notes"@ && g[7].0 == "system_prompt"@
        && g[8].0 == "post_history_instructions"@ && g[9].0 == "tags"@ && g[10].0 == "creator"@
        && g[11].0 == "character_version"@ && g[12].0 == "alternate_greetings"@);
    assert(g.len() == 13);
    assert forall|i: int, j: int| 0 <= i < j < g.len() implies #[trigger] g[i].0
        != #[trigger] g[j].0 by {}
    let h = helpers::legacy_members(o, stamp);
    assert(h[0].0 == "name"@ && h[1].0 == "description"@ && h[2].0 == "personality"@
        && h[3].0 == "scenario"@ && h[4].0 == "first_mes"@ && h[5].0 == "mes_example"@
        && h[6].0 == "creatorcomment"@ && h[7].0 == "avatar"@ && h[8].0 == "chat"@
        && h[9].0 == "talkativeness"@ && h[10].0 == "fav"@ && h[11].0 == "tags"@
        && h[12].0 == "spec"@ && h[13].0 == "spec_version"@);
    assert(h.len() == 14);
    assert forall|i: int, j: int| 0 <= i < j < h.len() implies #[trigger] h[i].0
        != #[trigger] h[j].0 by {}
}

/// Where a card of the first format has texts that are not empty, the card of the second format
/// made of it has them under the same keys, at its top and under `data`; the comment of the
/// creator becomes the notes of the creator.
#[verifier::rlimit(60)]
pub proof fn upgrade_keeps_texts(
    o: Tree,
    stamp: Seq<char>,
    now: Seq<char>,
    depth: Tree,
    world: Option<Tree>,
    parsed: Option<Tree>,
    i: int,
    t: Seq<char>,
)
    requires
        0 <= i < top_fields().len(),
        t.len() > 0,
    ensures
        ({
            let c = helpers::upgraded(o, stamp, now, depth, world, parsed);
            let data = c.get("data"@)->0;
            let k = top_fields()[i];
            &&& c.get("data"@) is Some
            &&& o.text_at(k) == Some(t) ==> c.text_at(k) == Some(t) && data.text_at(k) == Some(t)
            &&& o.text_at("name"@) == Some(t) ==> c.text_at("name"@) == Some(t) && data.text_at(
                "name"@,
            ) == Some(t)
            &&& o.text_at("creatorcomment"@) == Some(t) ==> c.text_at("creatorcomment"@) == Some(t)
                && data.text_at("creator_notes"@) == Some(t)
            &&& o.text_at("creator"@) == Some(t) ==> data.text_at("creator"@) == Some(t)
            &&& data.get("tags"@) == Some(helpers::tags_of(o.get("tags"@)))
            &&& o.get("chat"@) is Some && !(o.get("chat"@)->0 is Null) ==> c.get("chat"@) == o.get(
                "chat"@,
            )
            &&& o.get("chat"@) is None ==> c.text_at("chat"@) == Some(
                o.text_or("name"@, ""@) + " - "@ + stamp,
            )
            &&& o.get("create_date"@) is None ==> c.text_at("create_date"@) == Some(now)
            &&& o.get("create_date"@) is Some && !(o.get("create_date"@)->0 is Null) ==> c.get(
                "create_date"@,
            ) == o.get("create_date"@)
        }),
{
    keys_are_told_apart();
    let base = json::without(json::fields_of(Some(o)), "json_data"@);
    let h = helpers::legacy_members(o, stamp);
    let top = json::put_all(base, h);
    let f = json::fields_of(json::lookup(top, "data"@));
    let g = helpers::legacy_data(o);
    let plain = json::put_all(f, g);
    let e = Tree::Object(
        helpers::extended(
            json::fields_of(json::lookup(plain, "extensions"@)),
            helpers::legacy_extensions(o),
            helpers::legacy_prompt(o, depth),
        ),
    );
    let a = json::put(plain, "extensions"@, e);
    let b = helpers::with_book(a, o.text_or("world"@, ""@), world);
    let more = helpers::brought_extensions(o, parsed);
    let z = helpers::with_extensions(b, more);
    legacy_is_distinct(o, stamp);
    assert(g[0].0 == "name"@ && g[1].0 == "description"@ && g[2].0 == "personality"@
        && g[3].0 == "scenario"@ && g[4].0 == "first_mes"@ && g[5].0 == "mes_example"@
        && g[6].0 == "creator_notes"@ && g[7].0 == "system_prompt"@
        && g[8].0 == "post_history_instructions"@ && g[9].0 == "tags"@ && g[10].0 == "creator"@
        && g[11].0 == "character_version"@ && g[12].0 == "alternate_greetings"@);
    assert(h[0].0 == "name"@ && h[1].0 == "description"@ && h[2].0 == "personality"@
        && h[3].0 == "scenario"@ && h[4].0 == "first_mes"@ && h[5].0 == "mes_example"@
        && h[6].0 == "creatorcomment"@ && h[7].0 == "avatar"@ && h[8].0 == "chat"@
        && h[9].0 == "talkativeness"@ && h[10].0 == "fav"@ && h[11].0 == "tags"@
        && h[12].0 == "spec"@ && h[13].0 == "spec_version"@);
    assert forall|j: int| 0 <= j < g.len() implies json::lookup(z, (#[trigger] g[j]).0) == Some(
        g[j].1,
    ) by {
        let k = g[j].0;
        json::put_all_reads(f, g, j);
        json::put_reads(plain, "extensions"@, e, k);
        match world {
            Some(file) => match file.get("originalData"@) {
                Some(book) => json::put_reads(a, "character_book"@, book, k),
                None => match file.get("entries"@) {
                    Some(x) => json::put_reads(
                        a,
                        "character_book"@,
                        helpers::character_book(o.text_or("world"@, ""@), x),
                        k,
                    ),
                    None => {},
                },
            },
            None => {},
        }
        match more {
            Some(m) => json::put_reads(
                b,
                "extensions"@,
                helpers::merged(
                    json::tree_or(json::lookup(b, "extensions"@), Tree::Object(Seq::empty())),
                    m,
                ),
                k,
            ),
            None => {},
        }
    }
    let data = Tree::Object(z);
    let whole = json::put(top, "data"@, data);
    let chat = json::tree_or(o.get("chat"@), Tree::Null);
    let chatted = if chat is Null {
        whole
    } else {
        json::put(whole, "chat"@, chat)
    };
    let date = json::tree_or(o.get("create_date"@), json::txt(now));
    assert forall|k: Seq<char>| #![trigger json::lookup(top, k)] {
        &&& json::lookup(chatted, k) == if k == "chat"@ && !(chat is Null) {
            Some(chat)
        } else if k == "data"@ {
            Some(data)
        } else {
            json::lookup(top, k)
        }
        &&& json::lookup(json::put(chatted, "create_date"@, date), k) == if k == "create_date"@ {
            Some(date)
        } else {
            json::lookup(chatted, k)
        }
    } by {
        json::put_reads(top, "data"@, data, k);
        json::put_reads(whole, "chat"@, chat, k);
        json::put_reads(chatted, "create_date"@, date, k);
    }
    assert forall|j: int| 0 <= j < h.len() implies json::lookup(top, (#[trigger] h[j]).0) == Some(
        h[j].1,
    ) by {
        json::put_all_reads(base, h, j);
    }
    assert(json::lookup(top, "data"@) == json::lookup(top, "data"@));
    assert(json::lookup(top, "create_date"@) == json::lookup(top, "create_date"@));
    let w = top_fields();
    assert(w[0] == "description"@ && w[1] == "personality"@ && w[2] == "scenario"@
        && w[3] == "first_mes"@ && w[4] == "mes_example"@);
    assert(json::lookup(z, "name"@) == Some(g[0].1)
        && json::lookup(z, "description"@) == Some(g[1].1)
        && json::lookup(z, "personality"@) == Some(g[2].1)
        && json::lookup(z, "scenario"@) == Some(g[3].1)
        && json::lookup(z, "first_mes"@) == Some(g[4].1)
        && json::lookup(z, "mes_example"@) == Some(g[5].1)
        && json::lookup(z, "creator_notes"@) == Some(g[6].1)
        && json::lookup(z, "system_prompt"@) == Some(g[7].1)
        && json::lookup(z, "post_history_instructions"@) == Some(g[8].1)
        && json::lookup(z, "tags"@) == Some(g[9].1) && json::lookup(z, "creator"@) == Some(g[10].1)
        && json::lookup(z, "character_version"@) == Some(g[11].1)
        && json::lookup(z, "alternate_greetings"@) == Some(g[12].1));
    assert(json::lookup(top, "name"@) == Some(h[0].1)
        && json::lookup(top, "description"@) == Some(h[1].1)
        && json::lookup(top, "personality"@) == Some(h[2].1)
        && json::lookup(top, "scenario"@) == Some(h[3].1)
        && json::lookup(top, "first_mes"@) == Some(h[4].1)
        && json::lookup(top, "mes_example"@) == Some(h[5].1)
        && json::lookup(top, "creatorcomment"@) == Some(h[6].1)
        && json::lookup(top, "avatar"@) == Some(h[7].1)
        && json::lookup(top, "chat"@) == Some(h[8].1)
        && json::lookup(top, "talkativeness"@) == Some(h[9].1)
        && json::lookup(top, "fav"@) == Some(h[10].1) && json::lookup(top, "tags"@) == Some(h[11].1)
        && json::lookup(top, "spec"@) == Some(h[12].1)
        && json::lookup(top, "spec_version"@) == Some(h[13].1));
}

proof fn upgrade_form_is_distinct(v1: Tree, json_data: Seq<char>)
    ensures
        json::keys_distinct(helpers::upgrade_form(v1, json_data)->Object_0),
        json::lookup(helpers::upgrade_form(v1, json_data)->Object_0, "extensions"@) is None,
{
    keys_are_told_apart();
    let f = helpers::upgrade_form(v1, json_data)->Object_0;
    assert(f[0].0 == "json_data"@ && f[1].0 == "ch_name"@ && f[2].0 == "description"@
        && f[3].0 == "personality"@ && f[4].0 == "scenario"@ && f[5].0 == "first_mes"@
        && f[6].0 == "mes_example"@ && f[7].0 == "creator_notes"@ && f[8].0 == "talkativeness"@
        && f[9].0 == "fav"@ && f[10].0 == "creator"@ && f[11].0 == "tags"@
        && f[12].0 == "depth_prompt_prompt"@ && f[13].0 == "depth_prompt_depth"@
        && f[14].0 == "depth_prompt_role"@);
    assert(f.len() == 15);
    assert forall|i: int, j: int| 0 <= i < j < f.len() implies #[trigger] f[i].0
        != #[trigger] f[j].0 by {}
    assert forall|j: int| 0 <= j < f.len() implies #[trigger] f[j].0 != "extensions"@ by {}
    json::position_is(f, "extensions"@, f.len() as int);
}

proof fn upgrade_form_reads(v1: Tree, json_data: Seq<char>)
    ensures
        ({
            let d = helpers::upgrade_form(v1, json_data);
            &&& d.text_at("ch_name"@) == Some(v1.text_or("name"@, ""@))
            &&& forall|i: int|
                0 <= i < top_fields().len() ==> d.text_at(#[trigger] top_fields()[i]) == Some(
                    v1.text_or(top_fields()[i], ""@),
                )
            &&& d.text_at("creator_notes"@) == Some(v1.text_or("creatorcomment"@, ""@))
            &&& v1.text_at("creator"@) matches Some(t) ==> d.text_at("creator"@) == Some(t)
            &&& v1.get("tags"@) matches Some(t) ==> d.get("tags"@) == Some(t)
            &&& d.get("extensions"@) is None
        }),
{
    upgrade_form_is_distinct(v1, json_data);
    let f = helpers::upgrade_form(v1, json_data)->Object_0;
    json::member_reads(f, 0);
    json::member_reads(f, 1);
    json::member_reads(f, 2);
    json::member_reads(f, 3);
    json::member_reads(f, 4);
    json::member_reads(f, 5);
    json::member_reads(f, 6);
    json::member_reads(f, 7);
    json::member_reads(f, 8);
    json::member_reads(f, 9);
    json::member_reads(f, 10);
    json::member_reads(f, 11);
    json::member_reads(f, 12);
    json::member_reads(f, 13);
    json::member_reads(f, 14);
    assert(f[0].0 == "json_data"@ && f[1].0 == "ch_name"@ && f[2].0 == "description"@
        && f[3].0 == "personality"@ && f[4].0 == "scenario"@ && f[5].0 == "first_mes"@
        && f[6].0 == "mes_example"@ && f[7].0 == "creator_notes"@ && f[8].0 == "talkativeness"@
        && f[9].0 == "fav"@ && f[10].0 == "creator"@ && f[11].0 == "tags"@
        && f[12].0 == "depth_prompt_prompt"@ && f[13].0 == "depth_prompt_depth"@
        && f[14].0 == "depth_prompt_role"@);
    let w = top_fields();
    assert(w[0] == "description"@ && w[1] == "personality"@ && w[2] == "scenario"@
        && w[3] == "first_mes"@ && w[4] == "mes_example"@);
    assert(json::lookup(f, "json_data"@) == Some(f[0].1)
        && json::lookup(f, "ch_name"@) == Some(f[1].1)
        && json::lookup(f, "description"@) == Some(f[2].1)
        && json::lookup(f, "personality"@) == Some(f[3].1)
        && json::lookup(f, "scenario"@) == Some(f[4].1)
        && json::lookup(f, "first_mes"@) == Some(f[5].1)
        && json::lookup(f, "mes_example"@) == Some(f[6].1)
        && json::lookup(f, "creator_notes"@) == Some(f[7].1)
        && json::lookup(f, "talkativeness"@) == Some(f[8].1)
        && json::lookup(f, "fav"@) == Some(f[9].1) && json::lookup(f, "creator"@) == Some(f[10].1)
        && json::lookup(f, "tags"@) == Some(f[11].1)
        && json::lookup(f, "depth_prompt_prompt"@) == Some(f[12].1)
        && json::lookup(f, "depth_prompt_depth"@) == Some(f[13].1)
        && json::lookup(f, "depth_prompt_role"@) == Some(f[14].1));
}

/// A card of the first format is imported with its texts: under `data` each field holds the text
/// that the card has under the same key, and the notes of the creator the comment of the creator.
pub proof fn import_keeps_texts(
    v1: Tree,
    json_data: Seq<char>,
    base: Option<Tree>,
    talkativeness: Tree,
    depth: Tree,
    stamp: Seq<char>,
    i: int,
)
    requires
        0 <= i < top_fields().len(),
    ensures
        ({
            let c = helpers::imported_v2(v1, json_data, base, talkativeness, depth, stamp);
            let data = c.get("data"@)->0;
            let k = top_fields()[i];
            &&& c.get("data"@) is Some
            &&& data.text_at(k) == Some(v1.text_or(k, ""@))
            &&& data.text_at("name"@) == Some(v1.text_or("name"@, ""@))
            &&& data.text_at("creator_notes"@) == Some(v1.text_or("creatorcomment"@, ""@))
            &&& v1.text_at("creator"@) matches Some(t) ==> data.text_at("creator"@) == Some(t)
            &&& v1.get("chat"@) matches Some(chat) ==> c.get("chat"@) == Some(chat)
            &&& v1.get("chat"@) is None ==> c.text_at("chat"@) == Some(
                v1.text_or("name"@, ""@) + " - "@ + stamp,
            )
            &&& v1.get("create_date"@) matches Some(date) ==> c.get("create_date"@) == Some(date)
        }),
{
    keys_are_told_apart();
    let d = helpers::upgrade_form(v1, json_data);
    upgrade_form_reads(v1, json_data);
    form_fills_data(d, base, None, talkativeness, depth, stamp);
    let card = helpers::formatted(d, base, None, talkativeness, depth, stamp)->Object_0;
    let chat = json::tree_or(
        v1.get("chat"@),
        json::txt(helpers::first_chat(v1.text_or("name"@, ""@), stamp)),
    );
    let chatted = json::put(card, "chat"@, chat);
    json::put_reads(card, "chat"@, chat, "data"@);
    json::put_reads(card, "chat"@, chat, "chat"@);
    match v1.get("create_date"@) {
        Some(date) => {
            json::put_reads(chatted, "create_date"@, date, "data"@);
            json::put_reads(chatted, "create_date"@, date, "chat"@);
            json::put_reads(chatted, "create_date"@, date, "create_date"@);
        },
        None => {},
    }
    let w = top_fields();
    let x = text_fields();
    assert(w[0] == "description"@ && x[0] == "description"@ && w[1] == "personality"@
        && x[1] == "personality"@ && w[2] == "scenario"@ && x[2] == "scenario"@
        && w[3] == "first_mes"@ && x[3] == "first_mes"@ && w[4] == "mes_example"@
        && x[4] == "mes_example"@);
    assert(x[5] == "creator_notes"@ && x[8] == "creator"@);
}

/// Where the values of a world info entry go: the key in the book, the key in the entry, and
/// what stands in the book where the entry has no value.
pub open spec fn book_keys() -> Seq<(Seq<char>, Seq<char>, Tree)> {
    seq![
        ("id"@, "uid"@, Tree::Null),
        ("keys"@, "key"@, Tree::Array(Seq::empty())),
        ("secondary_keys"@, "keysecondary"@, Tree::Array(Seq::empty())),
        ("comment"@, "comment"@, Tree::Text(Seq::empty())),
        ("content"@, "content"@, Tree::Text(Seq::empty())),
        ("constant"@, "constant"@, Tree::Bool(false)),
        ("selective"@, "selective"@, Tree::Bool(false)),
        ("insertion_order"@, "order"@, json::num(100)),
    ]
}

/// Where the values of a world info entry go under the extensions.
pub open spec fn book_extension_keys() -> Seq<(Seq<char>, Seq<char>, Tree)> {
    seq![
        ("position"@, "position"@, json::num(0)),
        ("exclude_recursion"@, "excludeRecursion"@, Tree::Bool(false)),
        ("display_index"@, "displayIndex"@, json::num(0)),
        ("probability"@, "probability"@, Tree::Null),
        ("useProbability"@, "useProbability"@, Tree::Bool(false)),
        ("depth"@, "depth"@, json::num(4)),
        ("selectiveLogic"@, "selectiveLogic"@, json::num(0)),
        ("outlet_name"@, "outletName"@, Tree::Text(Seq::empty())),
        ("group"@, "group"@, Tree::Text(Seq::empty())),
        ("group_override"@, "groupOverride"@, Tree::Bool(false)),
        ("group_weight"@, "groupWeight"@, Tree::Null),
        ("prevent_recursion"@, "preventRecursion"@, Tree::Bool(false)),
        ("delay_until_recursion"@, "delayUntilRecursion"@, Tree::Bool(false)),
        ("scan_depth"@, "scanDepth"@, Tree::Null),
        ("match_whole_words"@, "matchWholeWords"@, Tree::Null),
        ("use_group_scoring"@, "useGroupScoring"@, Tree::Bool(false)),
        ("case_sensitive"@, "caseSensitive"@, Tree::Null),
        ("automation_id"@, "automationId"@, Tree::Text(Seq::empty())),
        ("role"@, "role"@, json::num(0)),
        ("vectorized"@, "vectorized"@, Tree::Bool(false)),
        ("sticky"@, "sticky"@, Tree::Null),
        ("cooldown"@, "cooldown"@, Tree::Null),
        ("delay"@, "delay"@, Tree::Null),
        ("match_persona_description"@, "matchPersonaDescription"@, Tree::Bool(false)),
        ("match_character_description"@, "matchCharacterDescription"@, Tree::Bool(false)),
        ("match_character_personality"@, "matchCharacterPersonality"@, Tree::Bool(false)),
        ("match_character_depth_prompt"@, "matchCharacterDepthPrompt"@, Tree::Bool(false)),
        ("match_scenario"@, "matchScenario"@, Tree::Bool(false)),
        ("match_creator_notes"@, "matchCreatorNotes"@, Tree::Bool(false)),
        ("triggers"@, "triggers"@, Tree::Array(Seq::empty())),
        ("ignore_budget"@, "ignoreBudget"@, Tree::Bool(false)),
    ]
}

proof fn book_keys_are_told_apart()
    ensures
        "comment"@.len() == 7 && "comment"@[0] == 'c' && "comment"@[2] == 'm',
        "constant"@.len() == 8 && "constant"@[0] == 'c',
        "content"@.len() == 7 && "content"@[0] == 'c' && "content"@[2] == 'n',
        "enabled"@.len() == 7 && "enabled"@[0] == 'e',
        "extensions"@.len() == 10,
        "id"@.len() == 2,
        "insertion_order"@.len() == 15,
        "keys"@.len() == 4,
        "position"@.len() == 8 && "position"@[0] == 'p',
        "secondary_keys"@.len() == 14,
        "selective"@.len() == 9 && "selective"@[0] == 's',
        "use_regex"@.len() == 9 && "use_regex"@[0] == 'u',
{
    reveal_strlit("comment");
    reveal_strlit("constant");
    reveal_strlit("content");
    reveal_strlit("enabled");
    reveal_strlit("extensions");
    reveal_strlit("id");
    reveal_strlit("insertion_order");
    reveal_strlit("keys");
    reveal_strlit("position");
    reveal_strlit("secondary_keys");
    reveal_strlit("selective");
    reveal_strlit("use_regex");
}

proof fn book_extension_keys_are_told_apart()
    ensures
        "automation_id"@.len() == 13 && "automation_id"@[0] == 'a',
        "case_sensitive"@.len() == 14 && "case_sensitive"@[0] == 'c',
        "cooldown"@.len() == 8 && "cooldown"@[0] == 'c',
        "delay"@.len() == 5 && "delay"@[0] == 'd' && "delay"@[2] == 'l',
        "delay_until_recursion"@.len() == 21,
        "depth"@.len() == 5 && "depth"@[0] == 'd' && "depth"@[2] == 'p',
        "display_index"@.len() == 13 && "display_index"@[0] == 'd',
        "exclude_recursion"@.len() == 17 && "exclude_recursion"@[0] == 'e',
        "group"@.len() == 5 && "group"@[0] == 'g',
        "group_override"@.len() == 14 && "group_override"@[0] == 'g',
        "group_weight"@.len() == 12,
        "ignore_budget"@.len() == 13 && "ignore_budget"@[0] == 'i',
        "match_character_depth_prompt"@.len() == 28,
        "match_character_description"@.len() == 27 && "match_character_description"@[16] == 'd',
        "match_character_personality"@.len() == 27 && "match_character_personality"@[16] == 'p',
        "match_creator_notes"@.len() == 19,
        "match_persona_description"@.len() == 25,
        "match_scenario"@.len() == 14 && "match_scenario"@[0] == 'm',
        "match_whole_words"@.len() == 17 && "match_whole_words"@[0] == 'm',
        "outlet_name"@.len() == 11 && "outlet_name"@[0] == 'o',
        "position"@.len() == 8 && "position"@[0] == 'p',
        "prevent_recursion"@.len() == 17 && "prevent_recursion"@[0] == 'p',
        "probability"@.len() == 11 && "probability"@[0] == 'p',
        "role"@.len() == 4,
        "scan_depth"@.len() == 10 && "scan_depth"@[0] == 's',
        "selectiveLogic"@.len() == 14 && "selectiveLogic"@[0] == 's',
        "sticky"@.len() == 6,
        "triggers"@.len() == 8 && "triggers"@[0] == 't',
        "useProbability"@.len() == 14 && "useProbability"@[0] == 'u',
        "use_group_scoring"@.len() == 17 && "use_group_scoring"@[0] == 'u',
        "vectorized"@.len() == 10 && "vectorized"@[0] == 'v',
{
    reveal_strlit("automation_id");
    reveal_strlit("case_sensitive");
    reveal_strlit("cooldown");
    reveal_strlit("delay");
    reveal_strlit("delay_until_recursion");
    reveal_strlit("depth");
    reveal_strlit("display_index");
    reveal_strlit("exclude_recursion");
    reveal_strlit("group");
    reveal_strlit("group_override");
    reveal_strlit("group_weight");
    reveal_strlit("ignore_budget");
    reveal_strlit("match_character_depth_prompt");
    reveal_strlit("match_character_description");
    reveal_strlit("match_character_personality");
    reveal_strlit("match_creator_notes");
    reveal_strlit("match_persona_description");
    reveal_strlit("match_scenario");
    reveal_strlit("match_whole_words");
    reveal_strlit("outlet_name");
    reveal_strlit("position");
    reveal_strlit("prevent_recursion");
    reveal_strlit("probability");
    reveal_strlit("role");
    reveal_strlit("scan_depth");
    reveal_strlit("selectiveLogic");
    reveal_strlit("sticky");
    reveal_strlit("triggers");
    reveal_strlit("useProbability");
    reveal_strlit("use_group_scoring");
    reveal_strlit("vectorized");
}

proof fn book_core_reads(e: Tree)
    ensures
        ({
            let b = helpers::book_entry(e);
            let g = helpers::book_core(e);
            &&& forall|n: int| 0 <= n < g.len() ==> b.get((#[trigger] g[n]).0) == Some(g[n].1)
            &&& b.get("extensions"@) == Some(
                Tree::Object(
                    json::put_all(
                        json::fields_of(e.get("extensions"@)),
                        helpers::book_extensions(e),
                    ),
                ),
            )
        }),
{
    book_keys_are_told_apart();
    let x = Tree::Object(
        json::put_all(json::fields_of(e.get("extensions"@)), helpers::book_extensions(e)),
    );
    let g = helpers::book_core(e);
    let f = g.push(("extensions"@, x));
    assert(f[0].0 == "id"@ && f[1].0 == "keys"@ && f[2].0 == "secondary_keys"@
        && f[3].0 == "comment"@ && f[4].0 == "content"@ && f[5].0 == "constant"@
        && f[6].0 == "selective"@ && f[7].0 == "insertion_order"@ && f[8].0 == "enabled"@
        && f[9].0 == "position"@ && f[10].0 == "use_regex"@ && f[11].0 == "extensions"@);
    assert(f.len() == 12);
    assert forall|n: int| 0 <= n < f.len() implies json::lookup(f, (#[trigger] f[n]).0) == Some(
        f[n].1,
    ) by {
        assert forall|m: int| 0 <= m < n implies #[trigger] f[m].0 != f[n].0 by {}
        json::position_is(f, f[n].0, n);
    }
    assert forall|n: int| 0 <= n < g.len() implies json::lookup(f, (#[trigger] g[n]).0) == Some(
        g[n].1,
    ) by {
        assert(f[n] == g[n]);
    }
    assert(f[11].1 == x);
}

/// An entry of the book of a character holds what the world info entry says, is enabled unless
/// that is disabled, and stands before the character only at the position zero.
pub proof fn book_entry_is_kept(e: Tree, i: int)
    requires
        0 <= i < book_keys().len(),
    ensures
        ({
            let b = helpers::book_entry(e);
            &&& b.get(book_keys()[i].0) == Some(
                match e.get(book_keys()[i].1) {
                    Some(v) => v,
                    None => book_keys()[i].2,
                },
            )
            &&& b.flag_at("enabled"@) == Some(e.get("disable"@) != Some(Tree::Bool(true)))
            &&& b.text_at("position"@) == Some(
                if e.get("position"@) == Some(json::num(0)) || e.get("position"@) == Some(
                    Tree::Number(json::Number::Neg(0)),
                ) {
                    "before_char"@
                } else {
                    "after_char"@
                },
            )
            &&& b.flag_at("use_regex"@) == Some(true)
        }),
{
    book_core_reads(e);
    let g = helpers::book_core(e);
    let w = book_keys();
    assert(w[0] == ("id"@, "uid"@, Tree::Null) && g[0].0 == "id"@
        && w[1] == ("keys"@, "key"@, Tree::Array(Seq::empty())) && g[1].0 == "keys"@
        && w[2] == ("secondary_keys"@, "keysecondary"@, Tree::Array(Seq::empty()))
        && g[2].0 == "secondary_keys"@ && w[3] == ("comment"@, "comment"@, Tree::Text(Seq::empty()))
        && g[3].0 == "comment"@ && w[4] == ("content"@, "content"@, Tree::Text(Seq::empty()))
        && g[4].0 == "content"@ && w[5] == ("constant"@, "constant"@, Tree::Bool(false))
        && g[5].0 == "constant"@ && w[6] == ("selective"@, "selective"@, Tree::Bool(false))
        && g[6].0 == "selective"@ && w[7] == ("insertion_order"@, "order"@, json::num(100))
        && g[7].0 == "insertion_order"@);
    assert(g[8].0 == "enabled"@ && g[9].0 == "position"@ && g[10].0 == "use_regex"@);
}

proof fn book_extensions_are_distinct(e: Tree)
    ensures
        json::keys_distinct(helpers::book_extensions(e)),
{
    book_extension_keys_are_told_apart();
    let g = helpers::book_extensions(e);
    assert(g[0].0 == "position"@ && g[1].0 == "exclude_recursion"@ && g[2].0 == "display_index"@
        && g[3].0 == "probability"@ && g[4].0 == "useProbability"@ && g[5].0 == "depth"@
        && g[6].0 == "selectiveLogic"@ && g[7].0 == "outlet_name"@ && g[8].0 == "group"@
        && g[9].0 == "group_override"@ && g[10].0 == "group_weight"@
        && g[11].0 == "prevent_recursion"@ && g[12].0 == "delay_until_recursion"@
        && g[13].0 == "scan_depth"@ && g[14].0 == "match_whole_words"@
        && g[15].0 == "use_group_scoring"@ && g[16].0 == "case_sensitive"@
        && g[17].0 == "automation_id"@ && g[18].0 == "role"@ && g[19].0 == "vectorized"@
        && g[20].0 == "sticky"@ && g[21].0 == "cooldown"@ && g[22].0 == "delay"@
        && g[23].0 == "match_persona_description"@ && g[24].0 == "match_character_description"@
        && g[25].0 == "match_character_personality"@ && g[26].0 == "match_character_depth_prompt"@
        && g[27].0 == "match_scenario"@ && g[28].0 == "match_creator_notes"@
        && g[29].0 == "triggers"@ && g[30].0 == "ignore_budget"@);
    assert(g.len() == 31);
    assert forall|n: int, m: int| 0 <= n < m < g.len() implies #[trigger] g[n].0
        != #[trigger] g[m].0 by {}
}

/// The extensions of an entry of the book of a character hold what the world info entry says.
pub proof fn book_entry_keeps_extensions(e: Tree, j: int)
    requires
        0 <= j < book_extension_keys().len(),
    ensures
        helpers::book_entry(e).get("extensions"@) is Some,
        helpers::book_entry(e).get("extensions"@)->0.get(book_extension_keys()[j].0) == Some(
            match e.get(book_extension_keys()[j].1) {
                Some(v) => v,
                None => book_extension_keys()[j].2,
            },
        ),
{
    book_core_reads(e);
    book_extensions_are_distinct(e);
    let g = helpers::book_extensions(e);
    json::put_all_reads(json::fields_of(e.get("extensions"@)), g, j);
    let y = book_extension_keys();
    assert(y[0] == ("position"@, "position"@, json::num(0))
        && y[1] == ("exclude_recursion"@, "excludeRecursion"@, Tree::Bool(false))
        && y[2] == ("display_index"@, "displayIndex"@, json::num(0))
        && y[3] == ("probability"@, "probability"@, Tree::Null)
        && y[4] == ("useProbability"@, "useProbability"@, Tree::Bool(false))
        && y[5] == ("depth"@, "depth"@, json::num(4))
        && y[6] == ("selectiveLogic"@, "selectiveLogic"@, json::num(0))
        && y[7] == ("outlet_name"@, "outletName"@, Tree::Text(Seq::empty()))
        && y[8] == ("group"@, "group"@, Tree::Text(Seq::empty()))
        && y[9] == ("group_override"@, "groupOverride"@, Tree::Bool(false))
        && y[10] == ("group_weight"@, "groupWeight"@, Tree::Null)
        && y[11] == ("prevent_recursion"@, "preventRecursion"@, Tree::Bool(false))
        && y[12] == ("delay_until_recursion"@, "delayUntilRecursion"@, Tree::Bool(false))
        && y[13] == ("scan_depth"@, "scanDepth"@, Tree::Null)
        && y[14] == ("match_whole_words"@, "matchWholeWords"@, Tree::Null)
        && y[15] == ("use_group_scoring"@, "useGroupScoring"@, Tree::Bool(false))
        && y[16] == ("case_sensitive"@, "caseSensitive"@, Tree::Null)
        && y[17] == ("automation_id"@, "automationId"@, Tree::Text(Seq::empty()))
        && y[18] == ("role"@, "role"@, json::num(0))
        && y[19] == ("vectorized"@, "vectorized"@, Tree::Bool(false))
        && y[20] == ("sticky"@, "sticky"@, Tree::Null)
        && y[21] == ("cooldown"@, "cooldown"@, Tree::Null)
        && y[22] == ("delay"@, "delay"@, Tree::Null)
        && y[23] == ("match_persona_description"@, "matchPersonaDescription"@, Tree::Bool(false))
        && y[24] == ("match_character_description"@, "matchCharacterDescription"@, Tree::Bool(false))
        && y[25] == ("match_character_personality"@, "matchCharacterPersonality"@, Tree::Bool(false))
        && y[26] == ("match_character_depth_prompt"@, "matchCharacterDepthPrompt"@, Tree::Bool(false))
        && y[27] == ("match_scenario"@, "matchScenario"@, Tree::Bool(false))
        && y[28] == ("match_creator_notes"@, "matchCreatorNotes"@, Tree::Bool(false))
        && y[29] == ("triggers"@, "triggers"@, Tree::Array(Seq::empty()))
        && y[30] == ("ignore_budget"@, "ignoreBudget"@, Tree::Bool(false)));
    assert(g[0].0 == "position"@ && g[1].0 == "exclude_recursion"@ && g[2].0 == "display_index"@
        && g[3].0 == "probability"@ && g[4].0 == "useProbability"@ && g[5].0 == "depth"@
        && g[6].0 == "selectiveLogic"@ && g[7].0 == "outlet_name"@ && g[8].0 == "group"@
        && g[9].0 == "group_override"@ && g[10].0 == "group_weight"@
        && g[11].0 == "prevent_recursion"@ && g[12].0 == "delay_until_recursion"@
        && g[13].0 == "scan_depth"@ && g[14].0 == "match_whole_words"@
        && g[15].0 == "use_group_scoring"@ && g[16].0 == "case_sensitive"@
        && g[17].0 == "automation_id"@ && g[18].0 == "role"@ && g[19].0 == "vectorized"@
        && g[20].0 == "sticky"@ && g[21].0 == "cooldown"@ && g[22].0 == "delay"@
        && g[23].0 == "match_persona_description"@ && g[24].0 == "match_character_description"@
        && g[25].0 == "match_character_personality"@ && g[26].0 == "match_character_depth_prompt"@
        && g[27].0 == "match_scenario"@ && g[28].0 == "match_creator_notes"@
        && g[29].0 == "triggers"@ && g[30].0 == "ignore_budget"@);
}

/// The book of a character has the entries in their order, and the name of the world.
pub proof fn book_keeps_order(name: Seq<char>, f: Seq<(Seq<char>, Tree)>, i: int)
    requires
        0 <= i < f.len(),
    ensures
        ({
            let b = helpers::character_book(name, Tree::Object(f));
            &&& b.text_at("name"@) == Some(name)
            &&& b.items_at("entries"@) matches Some(v) && v.len() == f.len() && v[i]
                == helpers::book_entry(f[i].1)
        }),
{
    reveal_strlit("name");
    reveal_strlit("entries");
    assert("name"@.len() == 4 && "entries"@.len() == 7);
    reveal_with_fuel(json::position, 3);
}

} // verus!
