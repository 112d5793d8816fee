//! What holds of the pictures in a CharX archive: where each of them is stored, and which one is
//! the avatar.

use crate::characters::archive;
use crate::characters::charx;
use crate::characters::helpers;
use crate::json;
use crate::json::Tree;
use crate::paths;
use crate::sanitize;
use crate::text;
use vstd::prelude::*;

verus! {

/// How the pictures that a card lists are written.
pub open spec fn written(
    assets: Seq<Tree>,
    buffers: Seq<(Seq<char>, Seq<u8>)>,
    characters: Seq<char>,
    images: Seq<char>,
    folder: Seq<char>,
) -> Seq<charx::WriteView> {
    charx::asset_writes(
        charx::stored_assets(charx::embedded_assets(assets)),
        buffers,
        characters,
        images,
        folder,
    )
}

proof fn kinds_differ()
    ensures
        "emotion"@ != "background"@,
        "expression"@ != "background"@,
        "emotion"@ != "icon"@,
        "expression"@ != "icon"@,
        "background"@ != "icon"@,
        "emotion"@ != "user_icon"@,
        "expression"@ != "user_icon"@,
        "background"@ != "user_icon"@,
{
    reveal_strlit("emotion");
    reveal_strlit("expression");
    reveal_strlit("background");
    reveal_strlit("icon");
    reveal_strlit("user_icon");
    assert("emotion"@.len() == 7 && "expression"@.len() == 10 && "background"@.len() == 10
        && "icon"@.len() == 4 && "user_icon"@.len() == 9);
    assert("expression"@[0] == 'e' && "background"@[0] == 'b');
}

/// One more picture in the list of a card is one more file to be written, with the picture in it:
/// an emotion or expression directly in the directory of the character, a background in
/// `backgrounds` below it, in either case in the place of files that differ in the extension
/// alone, and any other below the directory for images. Icons are not written.
pub proof fn listed_picture_is_stored(
    assets: Seq<Tree>,
    a: Tree,
    path: Seq<char>,
    data: Seq<u8>,
    buffers: Seq<(Seq<char>, Seq<u8>)>,
    characters: Seq<char>,
    images: Seq<char>,
    folder: Seq<char>,
)
    requires
        charx::embedded_path(a.text_or("uri"@, ""@)) == Some(path),
        charx::is_image(charx::asset_extension(a.text_or("ext"@, ""@), path)),
        charx::buffer_at(buffers, path, 0) == Some(data),
    ensures
        ({
            let before = written(assets, buffers, characters, images, folder);
            let after = written(assets.push(a), buffers, characters, images, folder);
            let kind = text::lowercase(a.text_or("type"@, ""@));
            let w = after.last();
            if kind == "icon"@ || kind == "user_icon"@ {
                after == before
            } else {
                &&& after.drop_last() == before
                &&& after.len() > 0
                &&& w.data == data
                &&& kind == "emotion"@ || kind == "expression"@ ==> w.directory
                    == paths::joined_path(characters, folder) && w.replaces
                &&& kind == "background"@ ==> w.directory == paths::joined_path(
                    paths::joined_path(characters, folder),
                    "backgrounds"@,
                ) && w.replaces
                &&& kind != "emotion"@ && kind != "expression"@ && kind != "background"@
                    ==> w.directory == paths::joined_path(images, folder) && !w.replaces
                &&& charx::asset_extension(a.text_or("ext"@, ""@), path).len() > 0 ==> w.path
                    == paths::joined_path(
                    w.directory,
                    w.base_name + "."@ + charx::asset_extension(a.text_or("ext"@, ""@), path),
                )
            }
        }),
{
    kinds_differ();
    let raws = charx::embedded_assets(assets);
    let all = assets.push(a);
    assert(all.drop_last() =~= assets);
    let raw = charx::RawView {
        kind: text::lowercase(a.text_or("type"@, ""@)),
        name: a.text_or("name"@, ""@),
        ext: charx::asset_extension(a.text_or("ext"@, ""@), path),
        zip_path: path,
        order: assets.len() as int,
    };
    assert(charx::embedded_assets(all) =~= raws.push(raw));
    assert(raws.push(raw).drop_last() =~= raws);
    let stored = charx::stored_assets(raws);
    if raw.kind != "icon"@ && raw.kind != "user_icon"@ {
        let s = charx::stored(raw);
        assert(charx::stored_assets(raws.push(raw)) =~= stored.push(s));
        assert(stored.push(s).drop_last() =~= stored);
        let before = charx::asset_writes(stored, buffers, characters, images, folder);
        let w = charx::write_of(s, data, characters, images, folder);
        assert(charx::asset_writes(stored.push(s), buffers, characters, images, folder)
            =~= before.push(w));
        assert(before.push(w).drop_last() =~= before);
    }
}

/// A picture that is not in the archive, or that is no picture, is not written.
pub proof fn other_assets_are_passed_over(
    assets: Seq<Tree>,
    a: Tree,
    buffers: Seq<(Seq<char>, Seq<u8>)>,
    characters: Seq<char>,
    images: Seq<char>,
    folder: Seq<char>,
)
    requires
        charx::embedded_path(a.text_or("uri"@, ""@)) matches Some(path) ==> charx::buffer_at(
            buffers,
            path,
            0,
        ) is None || !charx::image_extensions().contains(
            text::lowercase(charx::asset_extension(a.text_or("ext"@, ""@), path)),
        ),
    ensures
        written(assets.push(a), buffers, characters, images, folder) == written(
            assets,
            buffers,
            characters,
            images,
            folder,
        ),
{
    let raws = charx::embedded_assets(assets);
    let all = assets.push(a);
    assert(all.drop_last() =~= assets);
    match charx::embedded_path(a.text_or("uri"@, ""@)) {
        Some(path) => {
            let raw = charx::RawView {
                kind: text::lowercase(a.text_or("type"@, ""@)),
                name: a.text_or("name"@, ""@),
                ext: charx::asset_extension(a.text_or("ext"@, ""@), path),
                zip_path: path,
                order: assets.len() as int,
            };
            assert(charx::embedded_assets(all) =~= raws.push(raw));
            assert(raws.push(raw).drop_last() =~= raws);
            let stored = charx::stored_assets(raws);
            assert(stored.push(charx::stored(raw)).drop_last() =~= stored);
        },
        None => {},
    }
}

/// The addresses `embeded://`, `embedded://` and `__asset:` name the file behind them in the
/// archive.
pub proof fn embedded_address_names_file(path: Seq<char>)
    requires
        text::trimmed("embeded://"@ + path) == "embeded://"@ + path,
        text::trimmed("embedded://"@ + path) == "embedded://"@ + path,
        text::trimmed("__asset:"@ + path) == "__asset:"@ + path,
    ensures
        charx::embedded_path("embeded://"@ + path) == archive::normalized(path),
        charx::embedded_path("embedded://"@ + path) == archive::normalized(path),
        charx::embedded_path("__asset:"@ + path) == archive::normalized(path),
{
    reveal_strlit("embeded://");
    reveal_strlit("embedded://");
    reveal_strlit("__asset:");
    reveal_with_fuel(charx::embedded_from, 4);
    let p = charx::embedded_prefixes();
    assert(p[0] == "embeded://"@ && p[1] == "embedded://"@ && p[2] == "__asset:"@);
    assert(p[0].len() == 10 && p[1].len() == 11 && p[2].len() == 8);
    assert(p[0][5] == 'e' && p[1][5] == 'd' && p[2][0] == '_' && p[0][0] == 'e' && p[1][0] == 'e');
    assert forall|k: int| 0 <= k < 3 implies {
        let s = #[trigger] p[k] + path;
        &&& text::ascii_lower(s).subrange(0, p[k].len() as int) == p[k]
        &&& s.skip(p[k].len() as int) == path
    } by {
        let s = p[k] + path;
        assert(s.skip(p[k].len() as int) =~= path);
        assert(text::ascii_lower(s).subrange(0, p[k].len() as int) =~= p[k]);
    }
    let a = p[0] + path;
    let b = p[1] + path;
    let c = p[2] + path;
    assert(text::ascii_lower(b)[5] == 'd' && text::ascii_lower(c)[0] == '_');
    if text::begins(text::ascii_lower(b), p[0]) {
        assert(text::ascii_lower(b).subrange(0, 10)[5] == 'd');
    }
    if text::begins(text::ascii_lower(c), p[0]) {
        assert(text::ascii_lower(c).subrange(0, 10)[0] == '_');
    }
    if text::begins(text::ascii_lower(c), p[1]) {
        assert(text::ascii_lower(c).subrange(0, 11)[0] == '_');
    }
}

proof fn icon_from_is_first(assets: Seq<charx::RawView>, main: bool, i: int)
    requires
        0 <= i <= assets.len(),
    ensures
        ({
            let p = charx::icon_from(assets, main, i);
            &&& i <= p <= assets.len()
            &&& p < assets.len() ==> charx::is_icon(assets[p]) && (main ==> text::lowercase(
                assets[p].name,
            ) == "main"@)
            &&& forall|j: int|
                i <= j < p ==> !(charx::is_icon(#[trigger] assets[j]) && (main ==> text::lowercase(
                    assets[j].name,
                ) == "main"@))
        }),
    decreases assets.len() - i,
{
    if i < assets.len() && !(charx::is_icon(assets[i]) && (main ==> text::lowercase(assets[i].name)
        == "main"@)) {
        icon_from_is_first(assets, main, i + 1);
    }
}

/// The avatar of a character is a picture of the type `icon`: one of the name `main` where there
/// is one, and the first of them otherwise. There is none only where no asset is such a picture.
pub proof fn avatar_is_the_main_icon(assets: Seq<charx::RawView>, i: int)
    requires
        0 <= i < assets.len(),
        assets[i].kind == "icon"@,
        charx::image_extensions().contains(text::lowercase(assets[i].ext)),
    ensures
        charx::icon_of(assets) matches Some(a) && assets.contains(a) && a.kind == "icon"@
            && charx::image_extensions().contains(text::lowercase(a.ext)) && (text::lowercase(
            assets[i].name,
        ) == "main"@ ==> text::lowercase(a.name) == "main"@) && ((forall|j: int|
            0 <= j < i ==> (#[trigger] assets[j]).kind != "icon"@) ==> a == assets[i]
            || text::lowercase(a.name) == "main"@),
{
    icon_from_is_first(assets, true, 0);
    icon_from_is_first(assets, false, 0);
    let m = charx::icon_from(assets, true, 0);
    let f = charx::icon_from(assets, false, 0);
    assert(charx::is_icon(assets[i]));
    if m < assets.len() {
        assert(assets[m] == charx::icon_of(assets)->0);
    } else {
        assert(f <= i);
        assert(assets[f] == charx::icon_of(assets)->0);
    }
}

/// A card from an archive is stored with the date of the import and its name made safe; it is no
/// favourite and has no chat, and all else that it has at its top stays.
pub proof fn archived_card_is_dated(f: Seq<(Seq<char>, Tree)>, now: Seq<char>, k: Seq<char>)
    requires
        json::keys_distinct(f),
    ensures
        ({
            let c = charx::archived_card(Tree::Object(f), now);
            let name = sanitize::sanitized(Tree::Object(f).text_or("name"@, ""@), ""@);
            &&& charx::archived_name(Tree::Object(f), now) == name
            &&& c.text_at("name"@) == Some(name)
            &&& c.text_at("create_date"@) == Some(now)
            &&& c.flag_at("fav"@) == Some(false)
            &&& c.get("chat"@) is None
            &&& k != "name"@ && k != "create_date"@ && k != "fav"@ && k != "chat"@ && k != "data"@
                ==> c.get(k) == Tree::Object(f).get(k)
        }),
{
    reveal_strlit("name");
    reveal_strlit("create_date");
    reveal_strlit("fav");
    reveal_strlit("chat");
    reveal_strlit("data");
    assert("name"@.len() == 4 && "create_date"@.len() == 11 && "fav"@.len() == 3 && "chat"@.len()
        == 4 && "data"@.len() == 4 && "name"@[0] == 'n' && "chat"@[0] == 'c' && "data"@[0] == 'd');
    let a = json::put(f, "fav"@, Tree::Bool(false));
    json::put_keeps_keys_distinct(f, "fav"@, Tree::Bool(false));
    let b = json::without(a, "chat"@);
    json::lookup_after_removal(a, "chat"@);
    let path = seq!["data"@, "extensions"@, "fav"@];
    let p = helpers::at_path(Tree::Object(b), path, Tree::Bool(false))->Object_0;
    let child = json::tree_or(json::lookup(b, "data"@), Tree::Object(Seq::empty()));
    let v = helpers::at_path(child, path.skip(1), Tree::Bool(false));
    assert(p == json::put(b, "data"@, v));
    let d = json::put(p, "create_date"@, json::txt(now));
    let name = charx::archived_name(Tree::Object(f), now);
    let keys = seq!["name"@, "create_date"@, "fav"@, "chat"@, k];
    assert forall|i: int| 0 <= i < keys.len() implies {
        let x = #[trigger] keys[i];
        &&& json::lookup(a, x) == if x == "fav"@ {
            Some(Tree::Bool(false))
        } else {
            json::lookup(f, x)
        }
        &&& x != "chat"@ ==> json::lookup(b, x) == json::lookup(a, x)
        &&& x != "data"@ ==> json::lookup(p, x) == json::lookup(b, x)
        &&& json::lookup(d, x) == if x == "create_date"@ {
            Some(json::txt(now))
        } else {
            json::lookup(p, x)
        }
        &&& json::lookup(json::put(d, "name"@, json::txt(name)), x) == if x == "name"@ {
            Some(json::txt(name))
        } else {
            json::lookup(d, x)
        }
    } by {
        let x = keys[i];
        json::put_reads(f, "fav"@, Tree::Bool(false), x);
        if x != "chat"@ {
            json::lookup_after_removal_elsewhere(a, "chat"@, x);
        }
        json::put_reads(b, "data"@, v, x);
        json::put_reads(p, "create_date"@, json::txt(now), x);
        json::put_reads(d, "name"@, json::txt(name), x);
    }
    assert(keys[0] == "name"@ && keys[1] == "create_date"@ && keys[2] == "fav"@ && keys[3]
        == "chat"@ && keys[4] == k);
}

} // verus!
