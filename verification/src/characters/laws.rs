//! What holds of the conversions between cards as a whole.

use crate::characters::helpers;
use crate::characters::reads;
use crate::characters::validator;
use crate::characters::writes;
use crate::chats;
use crate::json;
use crate::json::Tree;
use crate::paths;
use crate::text;
use vstd::prelude::*;

verus! {

/// Merging an empty object changes nothing.
pub proof fn merging_nothing(t: Seq<(Seq<char>, Tree)>)
    ensures
        helpers::merged(Tree::Object(t), Tree::Object(Seq::empty())) == Tree::Object(t),
{
    assert(helpers::merged_members(t, Seq::empty()) == t);
}

/// Where one of the two is no object, merging takes the source over.
pub proof fn merging_takes_over(target: Tree, source: Tree)
    requires
        !(target is Object) || !(source is Object),
    ensures
        helpers::merged(target, source) == source,
{
}

/// A member that the source does not have stays as it is.
pub proof fn merging_keeps_other_members(
    t: Seq<(Seq<char>, Tree)>,
    s: Seq<(Seq<char>, Tree)>,
    k: Seq<char>,
)
    requires
        forall|j: int| 0 <= j < s.len() ==> #[trigger] s[j].0 != k,
    ensures
        json::lookup(helpers::merged_members(t, s), k) == json::lookup(t, k),
    decreases s.len(),
{
    if s.len() > 0 {
        let h = s.drop_last();
        assert forall|j: int| 0 <= j < h.len() implies #[trigger] h[j].0 != k by {
            assert(s[j].0 != k);
        }
        merging_keeps_other_members(t, h, k);
        assert(s[s.len() - 1].0 != k);
        let v = s.last().1;
        let w = match json::lookup(t, s.last().0) {
            Some(u) => if v is Object {
                helpers::merged(u, s.last().1)
            } else {
                v
            },
            None => v,
        };
        json::lookup_after_put_elsewhere(helpers::merged_members(t, h), s.last().0, w, k);
    }
}

/// A member of the source comes out merged with the one of the target, where both are
/// objects, and as the source has it otherwise.
pub proof fn merging_takes_members(
    t: Seq<(Seq<char>, Tree)>,
    s: Seq<(Seq<char>, Tree)>,
    i: int,
)
    requires
        json::keys_distinct(s),
        0 <= i < s.len(),
    ensures
        json::lookup(helpers::merged_members(t, s), s[i].0) == Some(
            match json::lookup(t, s[i].0) {
                Some(u) => helpers::merged(u, s[i].1),
                None => s[i].1,
            },
        ),
    decreases s.len(),
{
    let h = s.drop_last();
    let k = s.last().0;
    let v = s.last().1;
    let w = match json::lookup(t, k) {
        Some(u) => if v is Object {
            helpers::merged(u, s.last().1)
        } else {
            v
        },
        None => v,
    };
    if i == s.len() - 1 {
        json::lookup_after_put(helpers::merged_members(t, h), k, w);
    } else {
        assert(json::keys_distinct(h)) by {
            assert forall|a: int, b: int| 0 <= a < b < h.len() implies #[trigger] h[a].0
                != #[trigger] h[b].0 by {
                assert(s[a].0 != s[b].0);
            }
        }
        merging_takes_members(t, h, i);
        assert(h[i] == s[i]);
        assert(s[i].0 != s[s.len() - 1].0);
        json::lookup_after_put_elsewhere(helpers::merged_members(t, h), k, w, s[i].0);
    }
}

/// The value at the end of `path`.
pub open spec fn read_path(t: Tree, path: Seq<Seq<char>>) -> Option<Tree>
    decreases path.len(),
{
    if path.len() == 0 {
        Some(t)
    } else {
        match t.get(path[0]) {
            Some(u) => read_path(u, path.skip(1)),
            None => None,
        }
    }
}

/// What was written at the end of a path is read there.
pub proof fn read_after_write(t: Tree, path: Seq<Seq<char>>, v: Tree)
    requires
        path.len() > 0,
    ensures
        read_path(helpers::at_path(t, path, v), path) == Some(v),
    decreases path.len(),
{
    let f = json::fields_of(Some(t));
    if path.len() == 1 {
        json::lookup_after_put(f, path[0], v);
        assert(read_path(v, path.skip(1)) == Some(v));
    } else {
        let child = json::tree_or(json::lookup(f, path[0]), Tree::Object(Seq::empty()));
        read_after_write(child, path.skip(1), v);
        json::lookup_after_put(f, path[0], helpers::at_path(child, path.skip(1), v));
    }
}

/// A write keeps every member there, and adds the one that it writes.
proof fn put_keeps_presence(f: Seq<(Seq<char>, Tree)>, k: Seq<char>, v: Tree, other: Seq<char>)
    requires
        json::lookup(f, other) is Some || k == other,
    ensures
        json::lookup(json::put(f, k, v), other) is Some,
{
    if k == other {
        json::lookup_after_put(f, k, v);
    } else {
        json::lookup_after_put_elsewhere(f, k, v, other);
    }
}

proof fn put_all_keeps_presence(
    f: Seq<(Seq<char>, Tree)>,
    g: Seq<(Seq<char>, Tree)>,
    other: Seq<char>,
)
    requires
        json::lookup(f, other) is Some || exists|j: int|
            0 <= j < g.len() && #[trigger] g[j].0 == other,
    ensures
        json::lookup(json::put_all(f, g), other) is Some,
    decreases g.len(),
{
    if g.len() > 0 {
        let h = g.drop_last();
        if g.last().0 != other {
            if json::lookup(f, other) is None {
                let j = choose|j: int| 0 <= j < g.len() && #[trigger] g[j].0 == other;
                assert(h[j].0 == other);
            }
            put_all_keeps_presence(f, h, other);
        }
        put_keeps_presence(json::put_all(f, h), g.last().0, g.last().1, other);
    }
}

proof fn complete_when_present(t: Tree, fields: Seq<Seq<char>>, i: int)
    requires
        0 <= i <= fields.len(),
        forall|j: int| 0 <= j < fields.len() ==> t.get(#[trigger] fields[j]) is Some,
    ensures
        validator::first_missing(t, fields, i) == fields.len(),
    decreases fields.len() - i,
{
    if i < fields.len() {
        complete_when_present(t, fields, i + 1);
    }
}

/// The fields of the second format are, but for the extensions, written by a table `g` that
/// lists them.
spec fn lists_data(g: Seq<(Seq<char>, Tree)>) -> bool {
    forall|i: int|
        0 <= i < validator::v2_fields().len() - 1 ==> exists|j: int|
            0 <= j < g.len() && #[trigger] g[j].0 == #[trigger] validator::v2_fields()[i]
}

proof fn data_is_complete(
    f: Seq<(Seq<char>, Tree)>,
    g: Seq<(Seq<char>, Tree)>,
    e: Tree,
    name: Seq<char>,
    world: Option<Tree>,
    more: Option<Tree>,
)
    requires
        lists_data(g),
    ensures
        validator::complete(
            Tree::Object(
                helpers::with_extensions(
                    helpers::with_book(
                        json::put(json::put_all(f, g), "extensions"@, e),
                        name,
                        world,
                    ),
                    more,
                ),
            ),
            validator::v2_fields(),
        ),
{
    let a = json::put_all(f, g);
    let b = json::put(a, "extensions"@, e);
    let c = helpers::with_book(b, name, world);
    let d = helpers::with_extensions(c, more);
    assert forall|i: int| 0 <= i < validator::v2_fields().len() implies Tree::Object(d).get(
        #[trigger] validator::v2_fields()[i],
    ) is Some by {
        let k = validator::v2_fields()[i];
        if i < validator::v2_fields().len() - 1 {
            put_all_keeps_presence(f, g, k);
        }
        put_keeps_presence(a, "extensions"@, e, k);
        match world {
            Some(file) => match file.get("originalData"@) {
                Some(book) => put_keeps_presence(b, "character_book"@, book, k),
                None => match file.get("entries"@) {
                    Some(x) => put_keeps_presence(
                        b,
                        "character_book"@,
                        helpers::character_book(name, x),
                        k,
                    ),
                    None => {},
                },
            },
            None => {},
        }
        match more {
            Some(m) => put_keeps_presence(
                c,
                "extensions"@,
                helpers::merged(
                    json::tree_or(json::lookup(c, "extensions"@), Tree::Object(Seq::empty())),
                    m,
                ),
                k,
            ),
            None => {},
        }
    }
    complete_when_present(Tree::Object(d), validator::v2_fields(), 0);
}

/// What a card of the first format is converted to names the second format as its own, and
/// its data has every field of that format.
pub proof fn upgraded_is_second_format(
    o: Tree,
    stamp: Seq<char>,
    now: Seq<char>,
    depth: Tree,
    world: Option<Tree>,
    parsed: Option<Tree>,
)
    ensures
        ({
            let c = helpers::upgraded(o, stamp, now, depth, world, parsed);
            &&& c.text_at("spec"@) == Some("chara_card_v2"@)
            &&& c.text_at("spec_version"@) == Some("2.0"@)
            &&& c.get("data"@) is Some
            &&& validator::complete(c.get("data"@)->Some_0, validator::v2_fields())
        }),
{
    reveal_strlit("spec");
    reveal_strlit("spec_version");
    reveal_strlit("data");
    reveal_strlit("chat");
    reveal_strlit("create_date");
    assert("spec"@.len() == 4 && "spec_version"@.len() == 12 && "data"@.len() == 4 && "chat"@.len()
        == 4 && "create_date"@.len() == 11);
    assert("spec"@[0] == 's' && "data"@[0] == 'd' && "chat"@[0] == 'c');
    let base = json::without(json::fields_of(Some(o)), "json_data"@);
    let g = helpers::legacy_members(o, stamp);
    let top = json::put_all(base, g);
    json::lookup_after_put_all(base, g, 12);
    json::lookup_after_put_all(base, g, 13);
    let f = json::fields_of(json::lookup(top, "data"@));
    let data = Tree::Object(helpers::upgraded_data(f, o, depth, world, parsed));
    let whole = json::put(top, "data"@, data);
    json::lookup_after_put(top, "data"@, data);
    json::lookup_after_put_elsewhere(top, "data"@, data, "spec"@);
    json::lookup_after_put_elsewhere(top, "data"@, data, "spec_version"@);
    let c = match o.get("chat"@) {
        Some(c) => c,
        None => Tree::Null,
    };
    let chatted = if c is Null {
        whole
    } else {
        json::put(whole, "chat"@, c)
    };
    json::lookup_after_put_elsewhere(whole, "chat"@, c, "spec"@);
    json::lookup_after_put_elsewhere(whole, "chat"@, c, "spec_version"@);
    json::lookup_after_put_elsewhere(whole, "chat"@, c, "data"@);
    let d = match o.get("create_date"@) {
        Some(d) => d,
        None => json::txt(now),
    };
    json::lookup_after_put_elsewhere(chatted, "create_date"@, d, "spec"@);
    json::lookup_after_put_elsewhere(chatted, "create_date"@, d, "spec_version"@);
    json::lookup_after_put_elsewhere(chatted, "create_date"@, d, "data"@);
    let plain = json::put_all(f, helpers::legacy_data(o));
    let e = helpers::extended(
        json::fields_of(json::lookup(plain, "extensions"@)),
        helpers::legacy_extensions(o),
        helpers::legacy_prompt(o, depth),
    );
    assert(lists_data(helpers::legacy_data(o))) by {
        let t = helpers::legacy_data(o);
        let w = validator::v2_fields();
        assert(t[0].0 == w[0] && t[1].0 == w[1] && t[2].0 == w[2] && t[3].0 == w[3]);
        assert(t[4].0 == w[4] && t[5].0 == w[5] && t[6].0 == w[6] && t[7].0 == w[7]);
        assert(t[8].0 == w[8] && t[12].0 == w[9] && t[9].0 == w[10] && t[10].0 == w[11]);
        assert(t[11].0 == w[12]);
    }
    data_is_complete(
        f,
        helpers::legacy_data(o),
        Tree::Object(e),
        o.text_or("world"@, ""@),
        world,
        helpers::brought_extensions(o, parsed),
    );
}

/// What a form is made into has, under its data, every field of the second format; it names
/// that format as its own unless it was filled in from something that is no card.
pub proof fn formatted_is_second_format(
    d: Tree,
    base: Option<Tree>,
    parsed: Option<Tree>,
    talkativeness: Tree,
    depth: Tree,
    stamp: Seq<char>,
)
    ensures
        ({
            let c = helpers::formatted(d, base, parsed, talkativeness, depth, stamp);
            &&& c.get("data"@) is Some
            &&& validator::complete(c.get("data"@)->Some_0, validator::v2_fields())
            &&& (base is None || base->Some_0 is Object) ==> c.text_at("spec"@) == Some(
                "chara_card_v2"@,
            ) && c.text_at("spec_version"@) == Some("2.0"@)
        }),
{
    reveal_strlit("spec");
    reveal_strlit("spec_version");
    reveal_strlit("data");
    assert("spec"@.len() == 4 && "spec_version"@.len() == 12 && "data"@.len() == 4);
    assert("spec"@[0] == 's' && "data"@[0] == 'd');
    let g = helpers::form_members(d, talkativeness, stamp);
    let start = match json::tree_or(base, Tree::Object(Seq::empty())) {
        Tree::Object(f) => json::without(f, "json_data"@),
        _ => Seq::empty(),
    };
    let top = if json::tree_or(base, Tree::Object(Seq::empty())) is Object {
        json::put_all(start, g)
    } else {
        Seq::empty()
    };
    json::lookup_after_put_all(start, g, 12);
    json::lookup_after_put_all(start, g, 13);
    let f = json::fields_of(json::lookup(top, "data"@));
    let plain = json::put_all(f, helpers::form_data(d));
    let e = helpers::extended(
        json::fields_of(json::lookup(plain, "extensions"@)),
        helpers::form_extensions(d, talkativeness),
        helpers::form_prompt(d, depth),
    );
    let more = if d.text_at("extensions"@) is Some {
        parsed
    } else {
        None
    };
    let data = Tree::Object(
        helpers::with_extensions(json::put(plain, "extensions"@, Tree::Object(e)), more),
    );
    json::lookup_after_put(top, "data"@, data);
    json::lookup_after_put_elsewhere(top, "data"@, data, "spec"@);
    json::lookup_after_put_elsewhere(top, "data"@, data, "spec_version"@);
    assert(lists_data(helpers::form_data(d))) by {
        let t = helpers::form_data(d);
        let w = validator::v2_fields();
        assert(t[0].0 == w[0] && t[1].0 == w[1] && t[2].0 == w[2] && t[3].0 == w[3]);
        assert(t[4].0 == w[4] && t[5].0 == w[5] && t[6].0 == w[6] && t[7].0 == w[7]);
        assert(t[8].0 == w[8] && t[12].0 == w[9] && t[9].0 == w[10] && t[10].0 == w[11]);
        assert(t[11].0 == w[12]);
    }
    data_is_complete(f, helpers::form_data(d), Tree::Object(e), Seq::empty(), None, more);
}

/// A card without what is private is no favourite, neither at its top nor in its
/// extensions, and has no chat.
pub proof fn published_is_private(f: Seq<(Seq<char>, Tree)>)
    requires
        json::keys_distinct(f),
    ensures
        ({
            let c = helpers::published(Tree::Object(f));
            &&& c.get("fav"@) == Some(Tree::Bool(false))
            &&& c.get("chat"@) is None
            &&& read_path(c, seq!["data"@, "extensions"@, "fav"@]) == Some(Tree::Bool(false))
        }),
{
    reveal_strlit("fav");
    reveal_strlit("chat");
    reveal_strlit("data");
    assert("fav"@.len() == 3 && "chat"@.len() == 4 && "data"@.len() == 4);
    assert("chat"@[0] == 'c' && "data"@[0] == 'd');
    let a = json::put(f, "fav"@, Tree::Bool(false));
    json::lookup_after_put(f, "fav"@, Tree::Bool(false));
    json::put_keeps_keys_distinct(f, "fav"@, Tree::Bool(false));
    let b = json::without(a, "chat"@);
    json::lookup_after_removal(a, "chat"@);
    crate::json::lookup_after_removal_elsewhere(a, "chat"@, "fav"@);
    let path = seq!["data"@, "extensions"@, "fav"@];
    let child = json::tree_or(json::lookup(b, path[0]), Tree::Object(Seq::empty()));
    let v = helpers::at_path(child, path.skip(1), Tree::Bool(false));
    json::lookup_after_put_elsewhere(b, "data"@, v, "fav"@);
    json::lookup_after_put_elsewhere(b, "data"@, v, "chat"@);
    read_after_write(Tree::Object(b), path, Tree::Bool(false));
}

proof fn suffix_is_taken_out(name: Seq<char>, i: int)
    requires
        !text::occurs(name, ".png"@),
        0 <= i <= name.len(),
    ensures
        text::replaced_from(name + ".png"@, ".png"@, ""@, i) == name.skip(i),
    decreases name.len() - i,
{
    reveal_strlit(".png");
    reveal_strlit("");
    let t = ".png"@;
    let p = name + t;
    if i == name.len() {
        assert(p.subrange(i, i + t.len()) =~= t);
        assert(text::replaced_from(p, t, ""@, p.len() as int) == Seq::<char>::empty());
        assert(text::replaced_from(p, t, ""@, i) =~= name.skip(i));
    } else {
        suffix_is_taken_out(name, i + 1);
        if text::has_at(p, t, i) {
            if i + t.len() <= name.len() {
                assert(p.subrange(i, i + t.len()) =~= name.subrange(i, i + t.len()));
                assert(text::has_at(name, t, i));
            } else {
                let q = p.subrange(i, i + t.len());
                let d = name.len() - i;
                assert(q[d] == p[name.len() as int]);
                assert(t[1] == 'p' && t[2] == 'n' && t[3] == 'g' && t[0] == '.');
            }
        }
        assert(p[i] == name[i]);
        assert(seq![name[i]] + name.skip(i + 1) =~= name.skip(i));
    }
}

/// The picture of a character leads to the same name wherever it is read off: where the
/// character is changed, where its chats are stored, and where they are listed or counted.
pub proof fn picture_leads_to_one_name(name: Seq<char>)
    requires
        name.len() > 0,
        !name.contains('/'),
        !text::occurs(name, ".png"@),
    ensures
        writes::target_of(name + ".png"@) == name,
        chats::folder_of(name + ".png"@) == name,
        reads::chats_folder(name + ".png"@) == name,
        text::replaced(name + ".png"@, ".png"@, ""@) == name,
{
    reveal_strlit(".png");
    reveal_strlit(".");
    reveal_strlit("..");
    let t = ".png"@;
    let p = name + t;
    let n = name.len() as int;
    assert(p.subrange(n, n + 4) =~= t);
    assert(p.take(n) =~= name);
    assert(!text::ends(name, t));
    reveal_with_fuel(text::drop_suffixes, 2);
    suffix_is_taken_out(name, 0);
    assert(name.skip(0) =~= name);
    assert(!p.contains('/')) by {
        if p.contains('/') {
            let j = choose|j: int| 0 <= j < p.len() && p[j] == '/';
            if j < n {
                assert(name[j] == '/');
            } else {
                assert(p[j] == t[j - n]);
            }
        }
    }
    paths::name_is_a_path(p);
    assert(p[n + 3] == 'g' && p[n + 2] == 'n' && p[n + 1] == 'p' && p[n] == '.');
    reveal_with_fuel(paths::after_last, 5);
    assert(paths::after_last(p, '.', p.len() as int) == n + 1);
}

} // verus!
