//! The shapes of character cards and the conversions between them.

use crate::js;
use crate::json;
use crate::json::{Fields, Json, Tree};
use crate::naming;
use crate::numbers;
use crate::numbers::TextNumber;
use crate::outside;
use crate::sanitize;
use crate::sanitize::sanitize_filename_strip;
use crate::secrets;
use crate::text;
use crate::web;
use crate::web::Reply;
use vstd::prelude::*;

verus! {

/// Whether a file name holds a path separator, by the rules of systems other than Windows, or a
/// null character.
pub open spec fn forbidden(s: Seq<char>) -> bool {
    s.contains('/') || s.contains('\0')
}

/// Whether a file name holds a path separator, by the rules of systems other than Windows, or a
/// null character.
pub fn contains_forbidden_chars(input: &str) -> (r: bool)
    ensures
        r == forbidden(input@),
{
    text::contains_char(input, '/') || text::contains_char(input, '\0')
}

/// `source` merged into `target`: objects member by member, anything else taken over.
pub open spec fn merged(target: Tree, source: Tree) -> Tree
    decreases source,
{
    match (target, source) {
        (Tree::Object(t), Tree::Object(s)) => Tree::Object(merged_members(t, s)),
        _ => source,
    }
}

/// The members of `s` merged into the members `t`.
pub open spec fn merged_members(t: Seq<(Seq<char>, Tree)>, s: Seq<(Seq<char>, Tree)>) -> Seq<
    (Seq<char>, Tree),
>
    decreases s,
{
    if s.len() == 0 {
        t
    } else {
        let k = s.last().0;
        let v = s.last().1;
        let w = match json::lookup(t, k) {
            Some(u) => if v is Object {
                merged(u, s.last().1)
            } else {
                v
            },
            None => v,
        };
        json::put(merged_members(t, s.drop_last()), k, w)
    }
}

/// Merges `source` into `target`: objects member by member, anything else is taken over.
pub fn deep_merge(target: &Json, source: &Json) -> (r: Json)
    ensures
        r@ == merged(target@, source@),
    decreases source,
{
    match (target, source) {
        (Json::Object(t), Json::Object(s)) => {
            let mut out = t.copy();
            let mut i: usize = 0;
            assert(s@.take(0) =~= Seq::<(Seq<char>, Tree)>::empty());
            while i < s.members.len()
                invariant
                    i <= s.members@.len(),
                    source matches Json::Object(x) && *x == *s,
                    out@ == merged_members(t@, s@.take(i as int)),
                decreases s.members@.len() - i,
            {
                assert(s@.take(i as int + 1).drop_last() =~= s@.take(i as int));
                assert(s@[i as int] == s.members@[i as int]@);
                assert(decreases_to!(source => s));
                assert(decreases_to!(s => s.members));
                assert(decreases_to!(s.members => s.members@));
                assert(decreases_to!(s.members@ => s.members@[i as int]));
                assert(decreases_to!(s.members@[i as int] => s.members@[i as int].value));
                let m = &s.members[i];
                let w = match t.get(&m.key) {
                    Some(u) => if m.value.is_object() {
                        deep_merge(u, &m.value)
                    } else {
                        m.value.copy()
                    },
                    None => m.value.copy(),
                };
                out.insert(&m.key, w);
                i += 1;
            }
            assert(s@.take(s@.len() as int) =~= s@);
            Json::Object(out)
        },
        _ => source.copy(),
    }
}

/// The members of a book entry that are read off a world info entry `e`.
pub open spec fn book_core(e: Tree) -> Seq<(Seq<char>, Tree)> {
    seq![
        ("id"@, json::tree_or(e.get("uid"@), Tree::Null)),
        ("keys"@, json::tree_or(e.get("key"@), Tree::Array(Seq::empty()))),
        ("secondary_keys"@, json::tree_or(e.get("keysecondary"@), Tree::Array(Seq::empty()))),
        ("comment"@, json::tree_or(e.get("comment"@), json::txt(Seq::empty()))),
        ("content"@, json::tree_or(e.get("content"@), json::txt(Seq::empty()))),
        ("constant"@, json::tree_or(e.get("constant"@), Tree::Bool(false))),
        ("selective"@, json::tree_or(e.get("selective"@), Tree::Bool(false))),
        ("insertion_order"@, json::tree_or(e.get("order"@), json::num(100))),
        (
            "enabled"@,
            Tree::Bool(
                match e.get("disable"@) {
                    Some(Tree::Bool(b)) => !b,
                    _ => true,
                },
            ),
        ),
        (
            "position"@,
            json::txt(
                match e.get("position"@) {
                    Some(t) => if t.as_integer() == Some(0i64) {
                        "before_char"@
                    } else {
                        "after_char"@
                    },
                    None => "after_char"@,
                },
            ),
        ),
        ("use_regex"@, Tree::Bool(true)),
    ]
}

/// The extensions of a book entry that are read off a world info entry `e`.
pub open spec fn book_extensions(e: Tree) -> Seq<(Seq<char>, Tree)> {
    seq![
        ("position"@, json::tree_or(e.get("position"@), json::num(0))),
        ("exclude_recursion"@, json::tree_or(e.get("excludeRecursion"@), Tree::Bool(false))),
        ("display_index"@, json::tree_or(e.get("displayIndex"@), json::num(0))),
        ("probability"@, json::tree_or(e.get("probability"@), Tree::Null)),
        ("useProbability"@, json::tree_or(e.get("useProbability"@), Tree::Bool(false))),
        ("depth"@, json::tree_or(e.get("depth"@), json::num(4))),
        ("selectiveLogic"@, json::tree_or(e.get("selectiveLogic"@), json::num(0))),
        ("outlet_name"@, json::tree_or(e.get("outletName"@), json::txt(Seq::empty()))),
        ("group"@, json::tree_or(e.get("group"@), json::txt(Seq::empty()))),
        ("group_override"@, json::tree_or(e.get("groupOverride"@), Tree::Bool(false))),
        ("group_weight"@, json::tree_or(e.get("groupWeight"@), Tree::Null)),
        ("prevent_recursion"@, json::tree_or(e.get("preventRecursion"@), Tree::Bool(false))),
        ("delay_until_recursion"@, json::tree_or(e.get("delayUntilRecursion"@), Tree::Bool(false))),
        ("scan_depth"@, json::tree_or(e.get("scanDepth"@), Tree::Null)),
        ("match_whole_words"@, json::tree_or(e.get("matchWholeWords"@), Tree::Null)),
        ("use_group_scoring"@, json::tree_or(e.get("useGroupScoring"@), Tree::Bool(false))),
        ("case_sensitive"@, json::tree_or(e.get("caseSensitive"@), Tree::Null)),
        ("automation_id"@, json::tree_or(e.get("automationId"@), json::txt(Seq::empty()))),
        ("role"@, json::tree_or(e.get("role"@), json::num(0))),
        ("vectorized"@, json::tree_or(e.get("vectorized"@), Tree::Bool(false))),
        ("sticky"@, json::tree_or(e.get("sticky"@), Tree::Null)),
        ("cooldown"@, json::tree_or(e.get("cooldown"@), Tree::Null)),
        ("delay"@, json::tree_or(e.get("delay"@), Tree::Null)),
        ("match_persona_description"@, json::tree_or(e.get("matchPersonaDescription"@), Tree::Bool(false))),
        ("match_character_description"@, json::tree_or(e.get("matchCharacterDescription"@), Tree::Bool(false))),
        ("match_character_personality"@, json::tree_or(e.get("matchCharacterPersonality"@), Tree::Bool(false))),
        ("match_character_depth_prompt"@, json::tree_or(e.get("matchCharacterDepthPrompt"@), Tree::Bool(false))),
        ("match_scenario"@, json::tree_or(e.get("matchScenario"@), Tree::Bool(false))),
        ("match_creator_notes"@, json::tree_or(e.get("matchCreatorNotes"@), Tree::Bool(false))),
        ("triggers"@, json::tree_or(e.get("triggers"@), Tree::Array(Seq::empty()))),
        ("ignore_budget"@, json::tree_or(e.get("ignoreBudget"@), Tree::Bool(false))),
    ]
}

/// The book entry for a world info entry `e`.
pub open spec fn book_entry(e: Tree) -> Tree {
    Tree::Object(
        book_core(e).push(
            (
                "extensions"@,
                Tree::Object(
                    json::put_all(json::fields_of(e.get("extensions"@)), book_extensions(e)),
                ),
            ),
        ),
    )
}

/// The character book with the world info entries `entries`, in their order.
pub open spec fn character_book(name: Seq<char>, entries: Tree) -> Tree {
    let f = json::fields_of(Some(entries));
    Tree::Object(
        seq![
            ("entries"@, Tree::Array(Seq::new(f.len(), |i: int| book_entry(f[i].1)))),
            ("name"@, json::txt(name)),
        ],
    )
}

/// The book entry for a world info entry.
fn book_entry_of(entry: &Json) -> (r: Json)
    ensures
        r@ == book_entry(entry@),
{
    let enabled = match entry.get("disable") {
        Some(Json::Bool(b)) => !*b,
        _ => true,
    };
    let place = match entry.get("position") {
        Some(p) => match p.as_i64() {
            Some(n) => if n == 0 {
                "before_char"
            } else {
                "after_char"
            },
            None => "after_char",
        },
        None => "after_char",
    };
    let core = Fields::new()
        .with("id", entry.get_or("uid", Json::Null))
        .with("keys", entry.get_or("key", Json::no_items()))
        .with("secondary_keys", entry.get_or("keysecondary", Json::no_items()))
        .with("comment", entry.get_or("comment", Json::Text(String::new())))
        .with("content", entry.get_or("content", Json::Text(String::new())))
        .with("constant", entry.get_or("constant", Json::Bool(false)))
        .with("selective", entry.get_or("selective", Json::Bool(false)))
        .with("insertion_order", entry.get_or("order", Json::natural(100)))
        .with("enabled", Json::Bool(enabled))
        .with("position", Json::text(place))
        .with("use_regex", Json::Bool(true));
    assert(core@ =~= book_core(entry@));
    let added = Fields::new()
        .with("position", entry.get_or("position", Json::natural(0)))
        .with("exclude_recursion", entry.get_or("excludeRecursion", Json::Bool(false)))
        .with("display_index", entry.get_or("displayIndex", Json::natural(0)))
        .with("probability", entry.get_or("probability", Json::Null))
        .with("useProbability", entry.get_or("useProbability", Json::Bool(false)))
        .with("depth", entry.get_or("depth", Json::natural(4)))
        .with("selectiveLogic", entry.get_or("selectiveLogic", Json::natural(0)))
        .with("outlet_name", entry.get_or("outletName", Json::Text(String::new())))
        .with("group", entry.get_or("group", Json::Text(String::new())))
        .with("group_override", entry.get_or("groupOverride", Json::Bool(false)))
        .with("group_weight", entry.get_or("groupWeight", Json::Null))
        .with("prevent_recursion", entry.get_or("preventRecursion", Json::Bool(false)))
        .with("delay_until_recursion", entry.get_or("delayUntilRecursion", Json::Bool(false)))
        .with("scan_depth", entry.get_or("scanDepth", Json::Null))
        .with("match_whole_words", entry.get_or("matchWholeWords", Json::Null))
        .with("use_group_scoring", entry.get_or("useGroupScoring", Json::Bool(false)))
        .with("case_sensitive", entry.get_or("caseSensitive", Json::Null))
        .with("automation_id", entry.get_or("automationId", Json::Text(String::new())))
        .with("role", entry.get_or("role", Json::natural(0)))
        .with("vectorized", entry.get_or("vectorized", Json::Bool(false)))
        .with("sticky", entry.get_or("sticky", Json::Null))
        .with("cooldown", entry.get_or("cooldown", Json::Null))
        .with("delay", entry.get_or("delay", Json::Null))
        .with("match_persona_description", entry.get_or("matchPersonaDescription", Json::Bool(false)))
        .with("match_character_description", entry.get_or("matchCharacterDescription", Json::Bool(false)))
        .with("match_character_personality", entry.get_or("matchCharacterPersonality", Json::Bool(false)))
        .with("match_character_depth_prompt", entry.get_or("matchCharacterDepthPrompt", Json::Bool(false)))
        .with("match_scenario", entry.get_or("matchScenario", Json::Bool(false)))
        .with("match_creator_notes", entry.get_or("matchCreatorNotes", Json::Bool(false)))
        .with("triggers", entry.get_or("triggers", Json::no_items()))
        .with("ignore_budget", entry.get_or("ignoreBudget", Json::Bool(false)));
    assert(added@ =~= book_extensions(entry@));
    let mut extensions = entry.fields_at("extensions");
    extensions.insert_all(&added);
    core.with("extensions", extensions.done()).done()
}

/// The character book with the given world info entries.
pub fn convert_world_info_to_character_book(name: &str, entries: &Json) -> (r: Json)
    ensures
        r@ == character_book(name@, entries@),
{
    let from = entries.fields();
    let mut out: Vec<Json> = Vec::new();
    let mut i: usize = 0;
    while i < from.members.len()
        invariant
            i <= from.members@.len(),
            out@.len() == i,
            forall|j: int| 0 <= j < i ==> #[trigger] out@[j]@ == book_entry(from@[j].1),
        decreases from.members@.len() - i,
    {
        let e = book_entry_of(from.value_at(i));
        out.push(e);
        i += 1;
    }
    assert(json::trees(out@) =~= Seq::new(from@.len(), |k: int| book_entry(from@[k].1)));
    let r = Fields::new().with("entries", Json::array(out)).with("name", Json::text(name));
    assert(r@ =~= character_book(name@, entries@)->Object_0);
    r.done()
}

/// `t` with `v` at the end of `path`; what stands in the way becomes an object.
pub open spec fn at_path(t: Tree, path: Seq<Seq<char>>, v: Tree) -> Tree
    decreases path.len(),
{
    if path.len() == 0 {
        t
    } else {
        let f = json::fields_of(Some(t));
        if path.len() == 1 {
            Tree::Object(json::put(f, path[0], v))
        } else {
            let child = json::tree_or(json::lookup(f, path[0]), Tree::Object(Seq::empty()));
            Tree::Object(json::put(f, path[0], at_path(child, path.skip(1), v)))
        }
    }
}

/// The texts of a sequence of slices.
pub open spec fn slices(s: Seq<&str>) -> Seq<Seq<char>> {
    Seq::new(s.len(), |i: int| s[i]@)
}

/// `t` with `v` at the end of `path[from..]`.
fn written_at(t: &Json, path: &[&str], from: usize, v: Json) -> (r: Json)
    requires
        from <= path@.len(),
    ensures
        r@ == at_path(t@, slices(path@).skip(from as int), v@),
    decreases path@.len() - from,
{
    let ghost rest = slices(path@).skip(from as int);
    if from == path.len() {
        return t.copy();
    }
    assert(rest[0] == path@[from as int]@);
    assert(rest.skip(1) =~= slices(path@).skip(from as int + 1));
    let mut f = t.fields();
    if from + 1 == path.len() {
        f.insert(path[from], v);
    } else {
        let child = match f.get(path[from]) {
            Some(c) => c.copy(),
            None => Json::no_members(),
        };
        let w = written_at(&child, path, from + 1, v);
        f.insert(path[from], w);
    }
    f.done()
}

/// Writes `value` at the end of `path`, making objects of what stands in the way.
pub fn set_nested_value(target: &mut Json, path: &[&str], value: Json)
    ensures
        final(target)@ == at_path(old(target)@, slices(path@), value@),
{
    assert(slices(path@).skip(0) =~= slices(path@));
    *target = written_at(target, path, 0, value);
}

/// Writes `val` under `key` of an object; another value is left as it is.
pub fn set_val(obj: &mut Json, key: &str, val: Json)
    ensures
        final(obj)@ == (match old(obj)@ {
            Tree::Object(f) => Tree::Object(json::put(f, key@, val@)),
            t => t,
        }),
{
    if obj.is_object() {
        let mut f = obj.fields();
        f.insert(key, val);
        *obj = f.done();
    }
}

/// The tags among the comma-separated pieces.
pub open spec fn tag_items(parts: Seq<Seq<char>>) -> Seq<Tree>
    decreases parts.len(),
{
    if parts.len() == 0 {
        Seq::empty()
    } else {
        let rest = tag_items(parts.drop_last());
        let t = text::trimmed(parts.last());
        if t.len() > 0 {
            rest.push(json::txt(t))
        } else {
            rest
        }
    }
}

/// The tags of a card: a text is split at its commas, any other value that counts as
/// true is kept.
pub open spec fn tags_of(o: Option<Tree>) -> Tree {
    match o {
        Some(Tree::Text(s)) => Tree::Array(tag_items(text::pieces(s, ','))),
        Some(t) => if js::truthy(t) {
            t
        } else {
            Tree::Array(Seq::empty())
        },
        None => Tree::Array(Seq::empty()),
    }
}

/// The tags of a card.
pub fn parse_tags(value: Option<&Json>) -> (r: Json)
    ensures
        r@ == tags_of(json::tree_opt(value)),
{
    match value {
        Some(Json::Text(s)) => {
            let parts = text::split(s, ',');
            let ghost all = json::texts(parts@);
            let mut out: Vec<Json> = Vec::new();
            let mut i: usize = 0;
            assert(json::trees(out@) =~= tag_items(all.take(0)));
            while i < parts.len()
                invariant
                    all == json::texts(parts@),
                    i <= parts@.len(),
                    json::trees(out@) == tag_items(all.take(i as int)),
                decreases parts@.len() - i,
            {
                assert(all.take(i as int + 1).drop_last() =~= all.take(i as int));
                let t = text::trim(&parts[i]);
                let ghost before = out@;
                if !t.as_str().is_empty() {
                    out.push(Json::Text(t));
                    assert(json::trees(out@) =~= json::trees(before).push(json::txt(t@)));
                }
                i += 1;
            }
            assert(all.take(all.len() as int) =~= all);
            Json::array(out)
        },
        Some(v) => if js::js_truthy(v) {
            v.copy()
        } else {
            Json::no_items()
        },
        None => Json::no_items(),
    }
}

/// Whether the value is the text `true`.
pub open spec fn text_true(o: Option<Tree>) -> bool {
    match o {
        Some(Tree::Text(s)) => s == "true"@,
        _ => false,
    }
}

/// Whether the value is the text `true`.
pub fn is_string_true(value: Option<&Json>) -> (r: bool)
    ensures
        r == text_true(json::tree_opt(value)),
{
    match value {
        Some(Json::Text(s)) => text::same(s, "true"),
        _ => false,
    }
}

/// The talkativeness of a card that has none: one half.
pub open spec fn half() -> Tree {
    Tree::Float(numbers::HALF, "0.5"@)
}

/// One half.
pub fn one_half() -> (r: Json)
    ensures
        r@ == half(),
{
    Json::float(numbers::HALF, "0.5")
}

/// The text under `key`, or an empty one.
pub fn str_or_empty<'a>(obj: &'a Json, key: &str) -> (r: &'a str)
    ensures
        r@ == obj@.text_or(key@, ""@),
{
    obj.str_or(key, "")
}

/// The name of the first chat of a character.
pub open spec fn first_chat(name: Seq<char>, stamp: Seq<char>) -> Seq<char> {
    name + " - "@ + stamp
}

/// The members that a card of the first format gets at its top level.
pub open spec fn legacy_members(o: Tree, stamp: Seq<char>) -> Seq<(Seq<char>, Tree)> {
    let name = o.text_or("name"@, ""@);
    seq![
        ("name"@, json::txt(name)),
        ("description"@, js::or_default(o.get("description"@), json::txt(Seq::empty()))),
        ("personality"@, js::or_default(o.get("personality"@), json::txt(Seq::empty()))),
        ("scenario"@, js::or_default(o.get("scenario"@), json::txt(Seq::empty()))),
        ("first_mes"@, js::or_default(o.get("first_mes"@), json::txt(Seq::empty()))),
        ("mes_example"@, js::or_default(o.get("mes_example"@), json::txt(Seq::empty()))),
        ("creatorcomment"@, js::or_default(o.get("creatorcomment"@), json::txt(Seq::empty()))),
        ("avatar"@, json::txt("none"@)),
        ("chat"@, json::txt(first_chat(name, stamp))),
        ("talkativeness"@, js::or_default(o.get("talkativeness"@), half())),
        ("fav"@, Tree::Bool(text_true(o.get("fav"@)))),
        ("tags"@, tags_of(o.get("tags"@))),
        ("spec"@, json::txt("chara_card_v2"@)),
        ("spec_version"@, json::txt("2.0"@)),
    ]
}

/// The members that a card of the first format gets under `data`.
pub open spec fn legacy_data(o: Tree) -> Seq<(Seq<char>, Tree)> {
    seq![
        ("name"@, json::txt(o.text_or("name"@, ""@))),
        ("description"@, js::or_default(o.get("description"@), json::txt(Seq::empty()))),
        ("personality"@, js::or_default(o.get("personality"@), json::txt(Seq::empty()))),
        ("scenario"@, js::or_default(o.get("scenario"@), json::txt(Seq::empty()))),
        ("first_mes"@, js::or_default(o.get("first_mes"@), json::txt(Seq::empty()))),
        ("mes_example"@, js::or_default(o.get("mes_example"@), json::txt(Seq::empty()))),
        ("creator_notes"@, js::or_default(o.get("creatorcomment"@), json::txt(Seq::empty()))),
        ("system_prompt"@, json::txt(Seq::empty())),
        ("post_history_instructions"@, json::txt(Seq::empty())),
        ("tags"@, tags_of(o.get("tags"@))),
        ("creator"@, js::or_default(o.get("creator"@), json::txt(Seq::empty()))),
        ("character_version"@, json::txt(Seq::empty())),
        ("alternate_greetings"@, Tree::Array(Seq::empty())),
    ]
}

/// The members `f` with the extensions written into them: `flat` at the top, `prompt`
/// under `depth_prompt`.
pub open spec fn extended(
    f: Seq<(Seq<char>, Tree)>,
    flat: Seq<(Seq<char>, Tree)>,
    prompt: Seq<(Seq<char>, Tree)>,
) -> Seq<(Seq<char>, Tree)> {
    let g = json::put_all(f, flat);
    json::put(g, "depth_prompt"@, Tree::Object(json::put_all(json::fields_of(json::lookup(g, "depth_prompt"@)), prompt)))
}

/// The members `f` with the extensions written into them.
fn extend(f: Fields, flat: &Fields, prompt: &Fields) -> (r: Fields)
    ensures
        r@ == extended(f@, flat@, prompt@),
{
    let mut g = f;
    g.insert_all(flat);
    let mut inner = match g.get("depth_prompt") {
        Some(j) => j.fields(),
        None => Fields::new(),
    };
    inner.insert_all(prompt);
    g.insert("depth_prompt", inner.done());
    g
}

/// The data of a card with the character book of its world file `world`: the book that
/// the file was imported from, or one made of its entries.
pub open spec fn with_book(
    data: Seq<(Seq<char>, Tree)>,
    name: Seq<char>,
    world: Option<Tree>,
) -> Seq<(Seq<char>, Tree)> {
    match world {
        Some(file) => if name.len() == 0 {
            data
        } else {
            match file.get("originalData"@) {
                Some(book) => json::put(data, "character_book"@, book),
                None => match file.get("entries"@) {
                    Some(e) => json::put(data, "character_book"@, character_book(name, e)),
                    None => data,
                },
            }
        },
        None => data,
    }
}

/// The data of a card with `more` merged into its extensions.
pub open spec fn with_extensions(
    data: Seq<(Seq<char>, Tree)>,
    more: Option<Tree>,
) -> Seq<(Seq<char>, Tree)> {
    match more {
        Some(m) => json::put(
            data,
            "extensions"@,
            merged(json::tree_or(json::lookup(data, "extensions"@), Tree::Object(Seq::empty())), m),
        ),
        None => data,
    }
}

/// The extensions that a card of the first format brings: its object, or what its text
/// was parsed to.
pub open spec fn brought_extensions(o: Tree, parsed: Option<Tree>) -> Option<Tree> {
    match o.get("extensions"@) {
        Some(Tree::Text(_)) => parsed,
        Some(Tree::Object(f)) => Some(Tree::Object(f)),
        _ => None,
    }
}

/// The extensions that are read off the top level of a card of the first format.
pub open spec fn legacy_extensions(o: Tree) -> Seq<(Seq<char>, Tree)> {
    seq![
        ("talkativeness"@, js::or_default(o.get("talkativeness"@), half())),
        ("fav"@, Tree::Bool(text_true(o.get("fav"@)))),
        ("world"@, json::txt(o.text_or("world"@, ""@))),
    ]
}

/// The depth prompt that is read off the top level of a card of the first format.
pub open spec fn legacy_prompt(o: Tree, depth: Tree) -> Seq<(Seq<char>, Tree)> {
    seq![
        ("prompt"@, js::coalesced(o.get("depth_prompt_prompt"@), json::txt(Seq::empty()))),
        ("depth"@, depth),
        ("role"@, js::coalesced(o.get("depth_prompt_role"@), json::txt("system"@))),
    ]
}

/// The data of the second-format card made of the first-format card `o`, on top of the
/// data `f` that it already had.
pub open spec fn upgraded_data(
    f: Seq<(Seq<char>, Tree)>,
    o: Tree,
    depth: Tree,
    world: Option<Tree>,
    parsed: Option<Tree>,
) -> Seq<(Seq<char>, Tree)> {
    let plain = json::put_all(f, legacy_data(o));
    let name = o.text_or("world"@, ""@);
    let extensions = extended(
        json::fields_of(json::lookup(plain, "extensions"@)),
        legacy_extensions(o),
        legacy_prompt(o, depth),
    );
    with_extensions(
        with_book(json::put(plain, "extensions"@, Tree::Object(extensions)), name, world),
        brought_extensions(o, parsed),
    )
}

/// The card of the second format made of the card `o` of the first.
///
/// `stamp` names the first chat, `now` is the creation date of a card without one,
/// `depth` is the number that the card's prompt depth stands for, `world` is what its
/// world file holds and `parsed` what its extensions were parsed to, where they are a
/// text.
pub open spec fn upgraded(
    o: Tree,
    stamp: Seq<char>,
    now: Seq<char>,
    depth: Tree,
    world: Option<Tree>,
    parsed: Option<Tree>,
) -> Tree {
    let base = crate::json::without(json::fields_of(Some(o)), "json_data"@);
    let top = json::put_all(base, legacy_members(o, stamp));
    let data = upgraded_data(json::fields_of(json::lookup(top, "data"@)), o, depth, world, parsed);
    let whole = json::put(top, "data"@, Tree::Object(data));
    let chatted = match o.get("chat"@) {
        Some(c) => if c is Null {
            whole
        } else {
            json::put(whole, "chat"@, c)
        },
        None => whole,
    };
    Tree::Object(
        match o.get("create_date"@) {
            Some(d) => if d is Null {
                chatted
            } else {
                json::put(chatted, "create_date"@, d)
            },
            None => json::put(chatted, "create_date"@, json::txt(now)),
        },
    )
}

/// The data of the second-format card made of the first-format card `o`.
fn upgrade_data(
    f: Fields,
    o: &Json,
    depth: &Json,
    world: Option<&Json>,
    parsed: Option<&Json>,
) -> (r: Fields)
    ensures
        r@ == upgraded_data(f@, o@, depth@, json::tree_opt(world), json::tree_opt(parsed)),
{
    let mut data = f;
    let plain = Fields::new()
        .with("name", Json::text(o.str_or("name", "")))
        .with("description", js::js_or_value(o.get("description"), Json::Text(String::new())))
        .with("personality", js::js_or_value(o.get("personality"), Json::Text(String::new())))
        .with("scenario", js::js_or_value(o.get("scenario"), Json::Text(String::new())))
        .with("first_mes", js::js_or_value(o.get("first_mes"), Json::Text(String::new())))
        .with("mes_example", js::js_or_value(o.get("mes_example"), Json::Text(String::new())))
        .with("creator_notes", js::js_or_value(o.get("creatorcomment"), Json::Text(String::new())))
        .with("system_prompt", Json::Text(String::new()))
        .with("post_history_instructions", Json::Text(String::new()))
        .with("tags", parse_tags(o.get("tags")))
        .with("creator", js::js_or_value(o.get("creator"), Json::Text(String::new())))
        .with("character_version", Json::Text(String::new()))
        .with("alternate_greetings", Json::no_items());
    assert(plain@ =~= legacy_data(o@));
    data.insert_all(&plain);
    let name = o.str_or("world", "");
    let flat = Fields::new()
        .with("talkativeness", js::js_or_value(o.get("talkativeness"), one_half()))
        .with("fav", Json::Bool(is_string_true(o.get("fav"))))
        .with("world", Json::text(name));
    let prompt = Fields::new()
        .with("prompt", js::coalesce_non_null(o.get("depth_prompt_prompt"), Json::Text(String::new())))
        .with("depth", depth.copy())
        .with("role", js::coalesce_non_null(o.get("depth_prompt_role"), Json::text("system")));
    assert(flat@ =~= legacy_extensions(o@));
    assert(prompt@ =~= legacy_prompt(o@, depth@));
    let inner = match data.get("extensions") {
        Some(j) => j.fields(),
        None => Fields::new(),
    };
    let extensions = extend(inner, &flat, &prompt);
    data.insert("extensions", extensions.done());
    add_book(&mut data, name, world);
    let more = match o.get("extensions") {
        Some(Json::Text(_)) => parsed,
        Some(j) => if j.is_object() {
            Some(j)
        } else {
            None
        },
        None => None,
    };
    add_extensions(&mut data, more);
    data
}

/// Gives the data of a card the character book of its world file.
fn add_book(data: &mut Fields, name: &str, world: Option<&Json>)
    ensures
        final(data)@ == with_book(old(data)@, name@, json::tree_opt(world)),
{
    match world {
        Some(file) => if !name.is_empty() {
            match file.get("originalData") {
                Some(book) => data.insert("character_book", book.copy()),
                None => match file.get("entries") {
                    Some(e) => data.insert(
                        "character_book",
                        convert_world_info_to_character_book(name, e),
                    ),
                    None => {},
                },
            }
        },
        None => {},
    }
}

/// Merges `more` into the extensions of the data of a card.
fn add_extensions(data: &mut Fields, more: Option<&Json>)
    ensures
        final(data)@ == with_extensions(old(data)@, json::tree_opt(more)),
{
    match more {
        Some(m) => {
            let current = match data.get("extensions") {
                Some(j) => j.copy(),
                None => Json::no_members(),
            };
            let w = deep_merge(&current, m);
            data.insert("extensions", w);
        },
        None => {},
    }
}

/// Makes a card of the second format of one of the first.
pub fn convert_v1_to_v2(
    value: &mut Json,
    stamp: &str,
    now: &str,
    depth: &Json,
    world: Option<&Json>,
    parsed: Option<&Json>,
)
    ensures
        final(value)@ == upgraded(
            old(value)@,
            stamp@,
            now@,
            depth@,
            json::tree_opt(world),
            json::tree_opt(parsed),
        ),
{
    let o = value.copy();
    let mut top = o.fields();
    top.remove("json_data");
    let name = o.str_or("name", "");
    let members = Fields::new()
        .with("name", Json::text(name))
        .with("description", js::js_or_value(o.get("description"), Json::Text(String::new())))
        .with("personality", js::js_or_value(o.get("personality"), Json::Text(String::new())))
        .with("scenario", js::js_or_value(o.get("scenario"), Json::Text(String::new())))
        .with("first_mes", js::js_or_value(o.get("first_mes"), Json::Text(String::new())))
        .with("mes_example", js::js_or_value(o.get("mes_example"), Json::Text(String::new())))
        .with("creatorcomment", js::js_or_value(o.get("creatorcomment"), Json::Text(String::new())))
        .with("avatar", Json::text("none"))
        .with("chat", Json::Text(text::join3(name, " - ", stamp)))
        .with("talkativeness", js::js_or_value(o.get("talkativeness"), one_half()))
        .with("fav", Json::Bool(is_string_true(o.get("fav"))))
        .with("tags", parse_tags(o.get("tags")))
        .with("spec", Json::text("chara_card_v2"))
        .with("spec_version", Json::text("2.0"));
    assert(members@ =~= legacy_members(o@, stamp@));
    top.insert_all(&members);
    let inner = match top.get("data") {
        Some(j) => j.fields(),
        None => Fields::new(),
    };
    let data = upgrade_data(inner, &o, depth, world, parsed);
    top.insert("data", data.done());
    match o.get("chat") {
        Some(c) => if !c.is_null() {
            top.insert("chat", c.copy());
        },
        None => {},
    }
    match o.get("create_date") {
        Some(d) => if !d.is_null() {
            top.insert("create_date", d.copy());
        },
        None => top.insert("create_date", Json::text(now)),
    }
    *value = top.done();
}

/// The file that the world info of a name is kept in.
pub fn world_info_file_name(world_name: &str) -> (r: String)
    ensures
        r@ == sanitize::sanitized(world_name@, ""@) + ".json"@,
{
    text::join2(&sanitize_filename_strip(world_name), ".json")
}

/// The members that a form gives a card at its top level.
pub open spec fn form_members(d: Tree, talkativeness: Tree, stamp: Seq<char>) -> Seq<
    (Seq<char>, Tree),
> {
    let name = d.text_or("ch_name"@, ""@);
    seq![
        ("name"@, json::txt(name)),
        ("description"@, json::txt(d.text_or("description"@, ""@))),
        ("personality"@, json::txt(d.text_or("personality"@, ""@))),
        ("scenario"@, json::txt(d.text_or("scenario"@, ""@))),
        ("first_mes"@, json::txt(d.text_or("first_mes"@, ""@))),
        ("mes_example"@, json::txt(d.text_or("mes_example"@, ""@))),
        ("creatorcomment"@, json::txt(d.text_or("creator_notes"@, ""@))),
        ("avatar"@, json::txt("none"@)),
        ("chat"@, json::txt(first_chat(name, stamp))),
        ("talkativeness"@, talkativeness),
        ("fav"@, Tree::Bool(text_true(d.get("fav"@)))),
        ("tags"@, tags_of(d.get("tags"@))),
        ("spec"@, json::txt("chara_card_v2"@)),
        ("spec_version"@, json::txt("2.0"@)),
    ]
}

/// The greetings of a form: its list, or its text as a list of one.
pub open spec fn greetings_of(o: Option<Tree>) -> Tree {
    match o {
        Some(Tree::Array(a)) => Tree::Array(a),
        Some(Tree::Text(s)) => Tree::Array(seq![json::txt(s)]),
        _ => Tree::Array(Seq::empty()),
    }
}

/// The greetings of a form.
fn greetings(o: Option<&Json>) -> (r: Json)
    ensures
        r@ == greetings_of(json::tree_opt(o)),
{
    match o {
        Some(j) => match j {
            Json::Array(_) => j.copy(),
            Json::Text(s) => Json::one_item(Json::Text(s.clone())),
            _ => Json::no_items(),
        },
        None => Json::no_items(),
    }
}

/// The members that a form gives a card under `data`.
pub open spec fn form_data(d: Tree) -> Seq<(Seq<char>, Tree)> {
    seq![
        ("name"@, json::txt(d.text_or("ch_name"@, ""@))),
        ("description"@, json::txt(d.text_or("description"@, ""@))),
        ("personality"@, json::txt(d.text_or("personality"@, ""@))),
        ("scenario"@, json::txt(d.text_or("scenario"@, ""@))),
        ("first_mes"@, json::txt(d.text_or("first_mes"@, ""@))),
        ("mes_example"@, json::txt(d.text_or("mes_example"@, ""@))),
        ("creator_notes"@, json::txt(d.text_or("creator_notes"@, ""@))),
        ("system_prompt"@, json::txt(d.text_or("system_prompt"@, ""@))),
        ("post_history_instructions"@, json::txt(d.text_or("post_history_instructions"@, ""@))),
        ("tags"@, tags_of(d.get("tags"@))),
        ("creator"@, json::txt(d.text_or("creator"@, ""@))),
        ("character_version"@, json::txt(d.text_or("character_version"@, ""@))),
        ("alternate_greetings"@, greetings_of(d.get("alternate_greetings"@))),
    ]
}

/// The extensions that a form gives a card.
pub open spec fn form_extensions(d: Tree, talkativeness: Tree) -> Seq<(Seq<char>, Tree)> {
    seq![
        ("talkativeness"@, talkativeness),
        ("fav"@, Tree::Bool(text_true(d.get("fav"@)))),
        ("world"@, json::txt(d.text_or("world"@, ""@))),
    ]
}

/// The depth prompt that a form gives a card.
pub open spec fn form_prompt(d: Tree, depth: Tree) -> Seq<(Seq<char>, Tree)> {
    seq![
        ("prompt"@, json::txt(d.text_or("depth_prompt_prompt"@, ""@))),
        ("depth"@, depth),
        ("role"@, json::txt(d.text_or("depth_prompt_role"@, "system"@))),
    ]
}

/// The card made of the form `d` on top of the card `base` that it was filled in from.
///
/// `base` is what the form's `json_data` was parsed to, `parsed` what its `extensions` were
/// parsed to; `talkativeness` and `depth` are the numbers that the form's entries stand for.
pub open spec fn formatted(
    d: Tree,
    base: Option<Tree>,
    parsed: Option<Tree>,
    talkativeness: Tree,
    depth: Tree,
    stamp: Seq<char>,
) -> Tree {
    let top = match json::tree_or(base, Tree::Object(Seq::empty())) {
        Tree::Object(f) => json::put_all(
            crate::json::without(f, "json_data"@),
            form_members(d, talkativeness, stamp),
        ),
        _ => Seq::empty(),
    };
    let plain = json::put_all(json::fields_of(json::lookup(top, "data"@)), form_data(d));
    let extensions = extended(
        json::fields_of(json::lookup(plain, "extensions"@)),
        form_extensions(d, talkativeness),
        form_prompt(d, depth),
    );
    let data = with_extensions(
        json::put(plain, "extensions"@, Tree::Object(extensions)),
        if d.text_at("extensions"@) is Some {
            parsed
        } else {
            None
        },
    );
    Tree::Object(json::put(top, "data"@, Tree::Object(data)))
}

/// The data of the card made of a form.
fn format_data(
    inner: Fields,
    data: &Json,
    parsed: Option<&Json>,
    talkativeness: &Json,
    depth: &Json,
) -> (r: Fields)
    ensures
        r@ == ({
            let plain = json::put_all(inner@, form_data(data@));
            let extensions = extended(
                json::fields_of(json::lookup(plain, "extensions"@)),
                form_extensions(data@, talkativeness@),
                form_prompt(data@, depth@),
            );
            with_extensions(
                json::put(plain, "extensions"@, Tree::Object(extensions)),
                if data@.text_at("extensions"@) is Some {
                    json::tree_opt(parsed)
                } else {
                    None
                },
            )
        }),
{
    let mut out = inner;
    let plain = Fields::new()
        .with("name", Json::text(str_or_empty(data, "ch_name")))
        .with("description", Json::text(str_or_empty(data, "description")))
        .with("personality", Json::text(str_or_empty(data, "personality")))
        .with("scenario", Json::text(str_or_empty(data, "scenario")))
        .with("first_mes", Json::text(str_or_empty(data, "first_mes")))
        .with("mes_example", Json::text(str_or_empty(data, "mes_example")))
        .with("creator_notes", Json::text(str_or_empty(data, "creator_notes")))
        .with("system_prompt", Json::text(str_or_empty(data, "system_prompt")))
        .with("post_history_instructions", Json::text(str_or_empty(data, "post_history_instructions")))
        .with("tags", parse_tags(data.get("tags")))
        .with("creator", Json::text(str_or_empty(data, "creator")))
        .with("character_version", Json::text(str_or_empty(data, "character_version")))
        .with("alternate_greetings", greetings(data.get("alternate_greetings")));
    assert(plain@ =~= form_data(data@));
    out.insert_all(&plain);
    let flat = Fields::new()
        .with("talkativeness", talkativeness.copy())
        .with("fav", Json::Bool(is_string_true(data.get("fav"))))
        .with("world", Json::text(str_or_empty(data, "world")));
    let prompt = Fields::new()
        .with("prompt", Json::text(str_or_empty(data, "depth_prompt_prompt")))
        .with("depth", depth.copy())
        .with("role", Json::text(data.str_or("depth_prompt_role", "system")));
    assert(flat@ =~= form_extensions(data@, talkativeness@));
    assert(prompt@ =~= form_prompt(data@, depth@));
    let before = match out.get("extensions") {
        Some(j) => j.fields(),
        None => Fields::new(),
    };
    let extensions = extend(before, &flat, &prompt);
    out.insert("extensions", extensions.done());
    let more = if data.str_at("extensions").is_some() {
        parsed
    } else {
        None
    };
    add_extensions(&mut out, more);
    out
}

/// The card made of the form `data` on top of the card that it was filled in from.
pub fn chara_format_data(
    data: &Json,
    base: Option<&Json>,
    parsed: Option<&Json>,
    talkativeness: &Json,
    depth: &Json,
    stamp: &str,
) -> (r: Json)
    ensures
        r@ == formatted(
            data@,
            json::tree_opt(base),
            json::tree_opt(parsed),
            talkativeness@,
            depth@,
            stamp@,
        ),
{
    let name = str_or_empty(data, "ch_name");
    let start = match base {
        Some(j) => j.copy(),
        None => Json::no_members(),
    };
    let mut top = start.fields();
    if start.is_object() {
        top.remove("json_data");
        let members = Fields::new()
            .with("name", Json::text(name))
            .with("description", Json::text(str_or_empty(data, "description")))
            .with("personality", Json::text(str_or_empty(data, "personality")))
            .with("scenario", Json::text(str_or_empty(data, "scenario")))
            .with("first_mes", Json::text(str_or_empty(data, "first_mes")))
            .with("mes_example", Json::text(str_or_empty(data, "mes_example")))
            .with("creatorcomment", Json::text(str_or_empty(data, "creator_notes")))
            .with("avatar", Json::text("none"))
            .with("chat", Json::Text(text::join3(name, " - ", stamp)))
            .with("talkativeness", talkativeness.copy())
            .with("fav", Json::Bool(is_string_true(data.get("fav"))))
            .with("tags", parse_tags(data.get("tags")))
            .with("spec", Json::text("chara_card_v2"))
            .with("spec_version", Json::text("2.0"));
        assert(members@ =~= form_members(data@, talkativeness@, stamp@));
        top.insert_all(&members);
    }
    let inner = match top.get("data") {
        Some(j) => j.fields(),
        None => Fields::new(),
    };
    let made = format_data(inner, data, parsed, talkativeness, depth);
    top.insert("data", made.done());
    top.done()
}

/// The form that a card of the first format fills in, with the card itself as the text
/// `json_data`.
pub open spec fn upgrade_form(v1: Tree, json_data: Seq<char>) -> Tree {
    Tree::Object(
        seq![
            ("json_data"@, json::txt(json_data)),
            ("ch_name"@, json::txt(v1.text_or("name"@, ""@))),
            ("description"@, json::txt(v1.text_or("description"@, ""@))),
            ("personality"@, json::txt(v1.text_or("personality"@, ""@))),
            ("scenario"@, json::txt(v1.text_or("scenario"@, ""@))),
            ("first_mes"@, json::txt(v1.text_or("first_mes"@, ""@))),
            ("mes_example"@, json::txt(v1.text_or("mes_example"@, ""@))),
            ("creator_notes"@, json::txt(v1.text_or("creatorcomment"@, ""@))),
            ("talkativeness"@, json::tree_or(v1.get("talkativeness"@), half())),
            ("fav"@, json::tree_or(v1.get("fav"@), Tree::Bool(false))),
            ("creator"@, json::tree_or(v1.get("creator"@), json::txt(Seq::empty()))),
            ("tags"@, json::tree_or(v1.get("tags"@), json::txt(Seq::empty()))),
            ("depth_prompt_prompt"@, json::tree_or(v1.get("depth_prompt_prompt"@), json::txt(Seq::empty()))),
            ("depth_prompt_depth"@, json::tree_or(v1.get("depth_prompt_depth"@), json::txt(Seq::empty()))),
            ("depth_prompt_role"@, json::tree_or(v1.get("depth_prompt_role"@), json::txt(Seq::empty()))),
        ],
    )
}

/// The form that a card of the first format fills in.
pub fn v2_form(v1: &Json, json_data: &str) -> (r: Json)
    ensures
        r@ == upgrade_form(v1@, json_data@),
{
    let f = Fields::new()
        .with("json_data", Json::text(json_data))
        .with("ch_name", Json::text(str_or_empty(v1, "name")))
        .with("description", Json::text(str_or_empty(v1, "description")))
        .with("personality", Json::text(str_or_empty(v1, "personality")))
        .with("scenario", Json::text(str_or_empty(v1, "scenario")))
        .with("first_mes", Json::text(str_or_empty(v1, "first_mes")))
        .with("mes_example", Json::text(str_or_empty(v1, "mes_example")))
        .with("creator_notes", Json::text(str_or_empty(v1, "creatorcomment")))
        .with("talkativeness", v1.get_or("talkativeness", one_half()))
        .with("fav", v1.get_or("fav", Json::Bool(false)))
        .with("creator", v1.get_or("creator", Json::Text(String::new())))
        .with("tags", v1.get_or("tags", Json::Text(String::new())))
        .with("depth_prompt_prompt", v1.get_or("depth_prompt_prompt", Json::Text(String::new())))
        .with("depth_prompt_depth", v1.get_or("depth_prompt_depth", Json::Text(String::new())))
        .with("depth_prompt_role", v1.get_or("depth_prompt_role", Json::Text(String::new())));
    assert(f@ =~= upgrade_form(v1@, json_data@)->Object_0);
    f.done()
}

/// The card of the second format that a card of the first is imported as.
pub open spec fn imported_v2(
    v1: Tree,
    json_data: Seq<char>,
    base: Option<Tree>,
    talkativeness: Tree,
    depth: Tree,
    stamp: Seq<char>,
) -> Tree {
    let card = formatted(
        upgrade_form(v1, json_data),
        base,
        None,
        talkativeness,
        depth,
        stamp,
    )->Object_0;
    let chatted = json::put(
        card,
        "chat"@,
        json::tree_or(v1.get("chat"@), json::txt(first_chat(v1.text_or("name"@, ""@), stamp))),
    );
    Tree::Object(
        match v1.get("create_date"@) {
            Some(d) => json::put(chatted, "create_date"@, d),
            None => chatted,
        },
    )
}

/// The card of the second format that a card of the first is imported as. `base` is what
/// its text `json_data` is parsed to.
pub fn convert_to_v2(
    v1: &Json,
    json_data: &str,
    base: Option<&Json>,
    talkativeness: &Json,
    depth: &Json,
    stamp: &str,
) -> (r: Json)
    ensures
        r@ == imported_v2(v1@, json_data@, json::tree_opt(base), talkativeness@, depth@, stamp@),
{
    let form = v2_form(v1, json_data);
    let mut card = chara_format_data(&form, base, None, talkativeness, depth, stamp);
    match v1.get("chat") {
        Some(c) => set_val(&mut card, "chat", c.copy()),
        None => set_val(
            &mut card,
            "chat",
            Json::Text(text::join3(str_or_empty(v1, "name"), " - ", stamp)),
        ),
    }
    match v1.get("create_date") {
        Some(d) => set_val(&mut card, "create_date", d.copy()),
        None => {},
    }
    card
}

/// The members of `t` under those of `keys` that it has, in the order of the keys.
pub open spec fn picked(t: Tree, keys: Seq<Seq<char>>) -> Seq<(Seq<char>, Tree)>
    decreases keys.len(),
{
    if keys.len() == 0 {
        Seq::empty()
    } else {
        let rest = picked(t, keys.drop_last());
        match t.get(keys.last()) {
            Some(v) => rest.push((keys.last(), v)),
            None => rest,
        }
    }
}

/// Adds the members of `t` under those of `keys` that it has.
fn pick_into(out: &mut Fields, t: &Json, keys: &[&str])
    ensures
        final(out)@ == old(out)@ + picked(t@, slices(keys@)),
{
    let ghost all = slices(keys@);
    let ghost start = out@;
    let mut i: usize = 0;
    assert(out@ =~= start + picked(t@, all.take(0)));
    while i < keys.len()
        invariant
            all == slices(keys@),
            i <= keys@.len(),
            out@ == start + picked(t@, all.take(i as int)),
        decreases keys@.len() - i,
    {
        assert(all.take(i as int + 1).drop_last() =~= all.take(i as int));
        assert(all.take(i as int + 1).last() == keys@[i as int]@);
        let ghost before = out@;
        match t.get(keys[i]) {
            Some(v) => {
                out.push(keys[i], v.copy());
                assert(out@ =~= start + picked(t@, all.take(i as int + 1)));
            },
            None => {},
        }
        i += 1;
    }
    assert(all.take(all.len() as int) =~= all);
}

/// The members of a card that its short form keeps.
pub open spec fn shallow_keys() -> Seq<Seq<char>> {
    seq![
        "avatar"@,
        "chat"@,
        "fav"@,
        "date_added"@,
        "create_date"@,
        "date_last_chat"@,
        "chat_size"@,
        "data_size"@,
        "tags"@,
    ]
}

/// The data of the short form of a card.
pub open spec fn shallow_data(d: Tree) -> Tree {
    Tree::Object(
        seq![
            ("name"@, json::tree_or(d.get("name"@), json::txt(Seq::empty()))),
            ("character_version"@, json::tree_or(d.get("character_version"@), json::txt(Seq::empty()))),
            ("creator"@, json::tree_or(d.get("creator"@), json::txt(Seq::empty()))),
            ("creator_notes"@, json::tree_or(d.get("creator_notes"@), json::txt(Seq::empty()))),
            ("tags"@, json::tree_or(d.get("tags"@), Tree::Array(Seq::empty()))),
            (
                "extensions"@,
                Tree::Object(
                    seq![
                        (
                            "fav"@,
                            json::tree_or(
                                match d.get("extensions"@) {
                                    Some(e) => e.get("fav"@),
                                    None => None,
                                },
                                Tree::Bool(false),
                            ),
                        ),
                    ],
                ),
            ),
        ],
    )
}

/// The short form of a card that has a name.
pub open spec fn shallow(c: Tree) -> Option<Tree> {
    match c.text_at("name"@) {
        Some(name) => Some(
            Tree::Object(
                (seq![("shallow"@, Tree::Bool(true)), ("name"@, json::txt(name))] + picked(
                    c,
                    shallow_keys(),
                )).push(("data"@, shallow_data(json::tree_or(c.get("data"@), Tree::Null)))),
            ),
        ),
        None => None,
    }
}

/// The short form of a card that has a name.
pub fn to_shallow(character: &Json) -> (r: Option<Json>)
    ensures
        r matches Some(j) ==> shallow(character@) == Some(j@),
        r is None ==> shallow(character@) is None,
{
    let name = match character.str_at("name") {
        Some(s) => s,
        None => return None,
    };
    let mut out = Fields::new().with("shallow", Json::Bool(true)).with("name", Json::text(name));
    let keys = [
        "avatar",
        "chat",
        "fav",
        "date_added",
        "create_date",
        "date_last_chat",
        "chat_size",
        "data_size",
        "tags",
    ];
    assert(slices(keys@) =~= shallow_keys());
    pick_into(&mut out, character, &keys);
    let nothing = Json::Null;
    let source = match character.get("data") {
        Some(d) => d,
        None => &nothing,
    };
    let fav = match source.get("extensions") {
        Some(e) => e.get_or("fav", Json::Bool(false)),
        None => Json::Bool(false),
    };
    let data = Fields::new()
        .with("name", source.get_or("name", Json::Text(String::new())))
        .with("character_version", source.get_or("character_version", Json::Text(String::new())))
        .with("creator", source.get_or("creator", Json::Text(String::new())))
        .with("creator_notes", source.get_or("creator_notes", Json::Text(String::new())))
        .with("tags", source.get_or("tags", Json::no_items()))
        .with("extensions", Fields::new().with("fav", fav).done());
    assert(data@ =~= shallow_data(source@)->Object_0);
    let made = data.done();
    assert(made@ == shallow_data(source@));
    out.push("data", made);
    assert(out@ =~= shallow(character@)->Some_0->Object_0);
    Some(out.done())
}

/// A card without what is private: not a favourite, and with no chat.
pub open spec fn published(c: Tree) -> Tree {
    match c {
        Tree::Object(f) => at_path(
            Tree::Object(crate::json::without(json::put(f, "fav"@, Tree::Bool(false)), "chat"@)),
            seq!["data"@, "extensions"@, "fav"@],
            Tree::Bool(false),
        ),
        t => t,
    }
}

/// Takes out of a card what is private.
pub fn unset_private_fields(card: &mut Json)
    ensures
        final(card)@ == published(old(card)@),
{
    if card.is_object() {
        let mut f = card.fields();
        f.insert("fav", Json::Bool(false));
        f.remove("chat");
        *card = f.done();
        let path = ["data", "extensions", "fav"];
        assert(slices(path@) =~= seq!["data"@, "extensions"@, "fav"@]);
        set_nested_value(card, &path, Json::Bool(false));
    }
}

/// The number of bytes that the texts of the members take.
pub open spec fn text_size(f: Seq<(Seq<char>, Tree)>) -> nat
    decreases f.len(),
{
    if f.len() == 0 {
        0
    } else {
        text_size(f.drop_last()) + vstd::utf8::encode_utf8(js::js_text(f.last().1)).len()
    }
}

/// The number of bytes that the texts of a card's data take.
pub open spec fn data_size(c: Tree) -> nat {
    text_size(json::fields_of(c.get("data"@)))
}

proof fn text_size_grows(f: Seq<(Seq<char>, Tree)>, i: int)
    requires
        0 <= i <= f.len(),
    ensures
        text_size(f.take(i)) <= text_size(f),
    decreases f.len(),
{
    if i == f.len() {
        assert(f.take(i) =~= f);
    } else {
        text_size_grows(f.drop_last(), i);
        assert(f.drop_last().take(i) =~= f.take(i));
    }
}

/// The number of bytes that the texts of a card's data take.
pub fn calculate_data_size(json: &Json) -> (r: usize)
    requires
        data_size(json@) <= usize::MAX,
    ensures
        r == data_size(json@),
{
    let f = json.fields_at("data");
    let mut total: usize = 0;
    let mut i: usize = 0;
    assert(f@.take(0) =~= Seq::<(Seq<char>, Tree)>::empty());
    while i < f.len()
        invariant
            text_size(f@) <= usize::MAX,
            i <= f@.len(),
            total == text_size(f@.take(i as int)),
        decreases f@.len() - i,
    {
        assert(f@.take(i as int + 1).drop_last() =~= f@.take(i as int));
        proof {
            text_size_grows(f@, i as int + 1);
        }
        let s = js::js_string(f.value_at(i));
        total += s.as_str().as_bytes().len();
        i += 1;
    }
    assert(f@.take(f@.len() as int) =~= f@);
    total
}

/// The size of a chat file, and the bits of the time of its last change.
pub struct ChatFile {
    pub size: u64,
    pub mtime: u64,
}

/// The bytes that the files take together.
pub open spec fn total_size(files: Seq<ChatFile>) -> nat
    decreases files.len(),
{
    if files.len() == 0 {
        0
    } else {
        total_size(files.drop_last()) + files.last().size as nat
    }
}

/// The latest time of the files; zero where there are none.
pub open spec fn latest(files: Seq<ChatFile>) -> u64
    decreases files.len(),
{
    if files.len() == 0 {
        0
    } else {
        let rest = latest(files.drop_last());
        if files.last().mtime > rest {
            files.last().mtime
        } else {
            rest
        }
    }
}

proof fn total_size_grows(files: Seq<ChatFile>, i: int)
    requires
        0 <= i <= files.len(),
    ensures
        total_size(files.take(i)) <= total_size(files),
    decreases files.len(),
{
    if i == files.len() {
        assert(files.take(i) =~= files);
    } else {
        total_size_grows(files.drop_last(), i);
        assert(files.drop_last().take(i) =~= files.take(i));
    }
}

/// The bytes that the chat files of a character take, and the time of the last chat. Times
/// are doubles that are not negative, by their bits.
pub fn calculate_chat_size(files: &Vec<ChatFile>) -> (r: (u64, u64))
    requires
        total_size(files@) <= u64::MAX,
    ensures
        r.0 == total_size(files@),
        r.1 == latest(files@),
{
    let mut size: u64 = 0;
    let mut last: u64 = 0;
    let mut i: usize = 0;
    assert(files@.take(0) =~= Seq::<ChatFile>::empty());
    while i < files.len()
        invariant
            total_size(files@) <= u64::MAX,
            i <= files@.len(),
            size == total_size(files@.take(i as int)),
            last == latest(files@.take(i as int)),
        decreases files@.len() - i,
    {
        assert(files@.take(i as int + 1).drop_last() =~= files@.take(i as int));
        proof {
            total_size_grows(files@, i as int + 1);
        }
        size += files[i].size;
        if files[i].mtime > last {
            last = files[i].mtime;
        }
        i += 1;
    }
    assert(files@.take(files@.len() as int) =~= files@);
    (size, last)
}

/// 1024 to the power of `k`.
pub open spec fn kilo(k: nat) -> nat
    decreases k,
{
    if k == 0 {
        1
    } else {
        1024 * kilo((k - 1) as nat)
    }
}

/// The unit that a size of `m` bytes is given in, from `k` on: the last of five below
/// which it does not lie.
pub open spec fn size_unit(m: nat, k: nat) -> nat
    decreases 4 - k,
{
    if k < 4 && m >= kilo(k + 1) {
        size_unit(m, k + 1)
    } else {
        k
    }
}

/// The name of a unit.
pub open spec fn unit_name(k: nat) -> Seq<char> {
    if k == 0 {
        "B"@
    } else if k == 1 {
        "KB"@
    } else if k == 2 {
        "MB"@
    } else if k == 3 {
        "GB"@
    } else {
        "TB"@
    }
}

/// `h` hundredths in decimal, without zeros at the end.
pub open spec fn hundredths_text(h: nat) -> Seq<char> {
    let whole = text::decimal(h / 100);
    if h % 100 == 0 {
        whole
    } else if h % 10 == 0 {
        whole + "."@ + text::decimal((h % 100) / 10)
    } else {
        whole + "."@ + text::decimal((h % 100) / 10) + text::decimal(h % 10)
    }
}

/// A number of bytes for people to read: in the largest unit below which it does not lie,
/// to two places, halves to even.
pub open spec fn size_text(bytes: nat) -> Seq<char> {
    let m = numbers::as_double(bytes);
    let k = size_unit(m, 0);
    hundredths_text(numbers::nearest(m * 100, kilo(k)) / kilo(k)) + unit_name(k)
}

/// A number of bytes for people to read.
pub fn format_bytes(bytes: u64) -> (r: String)
    ensures
        r@ == size_text(bytes as nat),
{
    let m: u128 = numbers::round_to_double(bytes);
    let mut k: u8 = 0;
    let mut d: u128 = 1;
    assert(kilo(0) == 1);
    while k < 4 && m >= 1024 * d
        invariant
            k <= 4,
            d == kilo(k as nat),
            k == 0 ==> d == 1,
            k == 1 ==> d == 0x400,
            k == 2 ==> d == 0x10_0000,
            k == 3 ==> d == 0x4000_0000,
            k == 4 ==> d == 0x100_0000_0000,
            size_unit(m as nat, 0) == size_unit(m as nat, k as nat),
        decreases 4 - k,
    {
        assert(kilo((k + 1) as nat) == 1024 * kilo(k as nat));
        d = 1024 * d;
        k = k + 1;
    }
    assert(kilo((k + 1) as nat) == 1024 * kilo(k as nat));
    let n: u128 = m * 100;
    let q: u128 = n / d;
    let rest: u128 = n % d;
    let h: u128 = if 2 * rest > d || (2 * rest == d && q % 2 == 1) {
        q + 1
    } else {
        q
    };
    assert(numbers::nearest(n as nat, d as nat) == h * d);
    assert((h * d) / (d as int) == h) by (nonlinear_arith)
        requires
            d > 0,
            h >= 0,
    ;
    let mut out = text::decimal_text(h / 100);
    if h % 100 != 0 {
        out.push_str(".");
        out.push_str(&text::decimal_text((h % 100) / 10));
        if h % 10 != 0 {
            out.push_str(&text::decimal_text(h % 10));
        }
    }
    let name = if k == 0 {
        "B"
    } else if k == 1 {
        "KB"
    } else if k == 2 {
        "MB"
    } else if k == 3 {
        "GB"
    } else {
        "TB"
    };
    out.push_str(name);
    out
}

/// A change to one member of a card.
#[derive(Debug)]
pub struct EditAttributeRequest {
    pub avatar_url: String,
    pub ch_name: Option<String>,
    pub field: String,
    pub value: Json,
}

/// A new name for a character.
#[derive(Debug)]
pub struct RenameRequest {
    pub avatar_url: String,
    pub new_name: String,
}

/// A character to be copied.
#[derive(Debug)]
pub struct DuplicateRequest {
    pub avatar_url: String,
}

/// A character to be deleted, with its chats or without them.
#[derive(Debug)]
pub struct DeleteRequest {
    pub avatar_url: String,
    pub delete_chats: bool,
}

/// A character to be handed out, and in which form.
#[derive(Debug)]
pub struct ExportRequest {
    pub format: String,
    pub avatar_url: String,
}

/// The name that a new character is stored under, where `files` are there already: the name
/// itself, or the name followed by the first number that makes it free.
pub fn get_png_name(name: &str, files: &Vec<String>) -> (r: String)
    ensures
        naming::is_first_free(r@, name@, ".png"@, json::texts(files@)),
{
    naming::first_free(name, ".png", files)
}

/// How talkative a form says that a character is; one half where it does not say. The table
/// holds the texts in it that stand for numbers.
pub open spec fn talkativeness_of(data: Tree, table: Seq<TextNumber>) -> Tree {
    match data.get("talkativeness"@) {
        Some(Tree::Text(s)) => json::tree_or(numbers::number_from(table, s, 0), half()),
        Some(t) => json::tree_or(numbers::floated(t, table), half()),
        None => half(),
    }
}

/// How talkative a form says that a character is.
pub fn read_talkativeness(data: &Json, table: &Vec<TextNumber>) -> (r: Json)
    ensures
        r@ == talkativeness_of(data@, table@),
{
    match data.get("talkativeness") {
        Some(j) => match j.as_str() {
            Some(s) => match numbers::find_number(table, s) {
                Some(x) => x,
                None => one_half(),
            },
            None => match numbers::to_float(j, table) {
                Some(x) => x,
                None => one_half(),
            },
        },
        None => one_half(),
    }
}

/// The depth where none is given.
pub open spec fn default_depth() -> Tree {
    Tree::Float(0x4010000000000000, "4.0"@)
}

/// A number as a depth, which is finite.
pub open spec fn finite_depth(o: Option<Tree>) -> Tree {
    match o {
        Some(Tree::Float(b, s)) => Tree::Float(b, s),
        _ => default_depth(),
    }
}

/// The depth of a prompt. The table holds the texts that stand for finite numbers.
pub open spec fn depth_of(value: Option<Tree>, table: Seq<TextNumber>) -> Tree {
    match value {
        Some(Tree::Text(s)) => finite_depth(numbers::number_from(table, text::trimmed(s), 0)),
        Some(Tree::Bool(b)) => if b {
            Tree::Float(0x3FF0000000000000, "1.0"@)
        } else {
            Tree::Float(0, "0.0"@)
        },
        Some(t) => finite_depth(numbers::floated(t, table)),
        None => default_depth(),
    }
}

fn only_float(o: Option<Json>) -> (r: Json)
    ensures
        r@ == finite_depth(
            match o {
                Some(j) => Some(j@),
                None => None,
            },
        ),
{
    match o {
        Some(j) => match &j {
            Json::Float(_) => j,
            _ => Json::float(0x4010000000000000, "4.0"),
        },
        None => Json::float(0x4010000000000000, "4.0"),
    }
}

/// The depth of a prompt.
pub fn parse_depth_prompt_depth(value: Option<&Json>, table: &Vec<TextNumber>) -> (r: Json)
    ensures
        r@ == depth_of(json::tree_opt(value), table@),
{
    match value {
        Some(Json::Text(s)) => only_float(numbers::find_number(table, &text::trim(s))),
        Some(Json::Bool(b)) => if *b {
            Json::float(0x3FF0000000000000, "1.0")
        } else {
            Json::float(0, "0.0")
        },
        Some(j) => only_float(numbers::to_float(j, table)),
        None => Json::float(0x4010000000000000, "4.0"),
    }
}

/// The text of a time, or that of the present where the time is out of range.
pub fn timestamp_to_iso(secs: i64, nanos: u32, now: &str) -> (r: String)
    ensures
        r@ == secrets::text_or(outside::rfc3339_text(secs, nanos), now@),
{
    iso_or_now(outside::format_rfc3339(secs, nanos), now)
}

/// The text of a time, where there is one, or that of the present.
pub fn iso_or_now(shown: Option<String>, now: &str) -> (r: String)
    ensures
        r@ == secrets::text_or(json::string_opt(shown), now@),
{
    secrets::unwrap_or(&shown, now)
}

/// The fields of a form for a character as they come in: the members that are told of it and
/// its picture.
#[derive(Debug)]
pub struct CharacterForm {
    pub body: Fields,
    pub image: Option<Vec<u8>>,
}

impl CharacterForm {
    /// No fields yet.
    pub fn new() -> (r: CharacterForm)
        ensures
            r.body@ == Seq::<(Seq<char>, Tree)>::empty(),
            r.image is None,
    {
        CharacterForm { body: Fields::new(), image: None }
    }

    /// The picture came in. One without bytes, or one that could not be read, counts as none.
    pub fn take_image(&mut self, bytes: Option<Vec<u8>>)
        ensures
            final(self).body == old(self).body,
            final(self).image == match bytes {
                Some(b) => if b@.len() > 0 {
                    Some(b)
                } else {
                    old(self).image
                },
                None => old(self).image,
            },
    {
        match bytes {
            Some(b) => if b.len() > 0 {
                self.image = Some(b);
            },
            None => {},
        }
    }

    /// Another field came in: the JSON value that its text stands for, or the text itself
    /// where it stands for none.
    pub fn take_field(&mut self, name: &str, content: &str, parsed: Option<Json>)
        ensures
            final(self).body@ == json::put(
                old(self).body@,
                name@,
                match parsed {
                    Some(j) => j@,
                    None => json::txt(content@),
                },
            ),
            final(self).image == old(self).image,
    {
        let value = match parsed {
            Some(j) => j,
            None => Json::text(content),
        };
        self.body.insert(name, value);
    }
}

/// The picture for a character: the one that came in, or the default one; an internal error
/// where there is neither.
pub fn read_image_source(image: Option<Vec<u8>>, default: Option<Vec<u8>>) -> (r: Result<
    Vec<u8>,
    Reply,
>)
    ensures
        match r {
            Ok(b) => if image is Some && image->0@.len() > 0 {
                image == Some(b)
            } else {
                default == Some(b)
            },
            Err(e) => !(image is Some && image->0@.len() > 0) && default is None && e@
                == web::status_only(500),
        },
{
    match image {
        Some(b) => if b.len() > 0 {
            return Ok(b);
        },
        None => {},
    }
    match default {
        Some(b) => Ok(b),
        None => Err(Reply::empty(500)),
    }
}

} // verus!
