//! What holds of stored files: assets, avatars, images, attachments and backups.

use crate::assets;
use crate::avatars;
use crate::backups;
use crate::files;
use crate::images;
use crate::json;
use crate::json::Tree;
use crate::paths;
use crate::sanitize;
use crate::text;
use crate::web;
use vstd::prelude::*;

verus! {

/// An asset is stored in the folder of its category among the assets.
pub proof fn asset_is_in_its_category(folder: Seq<char>, category: Seq<char>, name: Seq<char>)
    requires
        folder.len() > 0,
        folder.last() != '/',
        category.len() > 0,
        category[0] != '/',
        category.last() != '/',
        name.len() > 0,
        name[0] != '/',
    ensures
        assets::asset_path(folder, category, name) == folder + "/"@ + category + "/"@ + name,
{
    let a = folder + "/"@ + category;
    assert(a.last() == category.last());
}

/// An asset is downloaded from a listed host into a known category under a valid name, and from
/// nowhere else, into no other category and under no other name.
pub proof fn download_is_allowed_where_listed(
    host: Seq<char>,
    listed: Seq<Seq<char>>,
    category: Seq<char>,
    check: sanitize::FilenameCheck,
)
    ensures
        assets::download_refusal(Some(Some(host)), listed, category, check) is None
            <==> listed.contains(host) && check.valid && (category == "bgm"@ || category
            == "ambient"@ || category == "blip"@ || category == "live2d"@ || category == "vrm"@
            || category == "character"@ || category == "temp"@),
        !listed.contains(host) ==> (assets::download_refusal(
            Some(Some(host)),
            listed,
            category,
            check,
        ) matches Some(r) && r.status == 404),
        assets::download_refusal(None, listed, category, check) matches Some(r) && r.status == 400,
        assets::deletion_refusal(category, check) is None <==> check.valid && (category == "bgm"@
            || category == "ambient"@ || category == "blip"@ || category == "live2d"@ || category
            == "vrm"@ || category == "character"@ || category == "temp"@),
{
    let v = assets::valid_categories();
    assert(v[0] == "bgm"@ && v[1] == "ambient"@ && v[2] == "blip"@ && v[3] == "live2d"@ && v[4]
        == "vrm"@ && v[5] == "character"@ && v[6] == "temp"@);
    if v.contains(category) {
        let i = choose|i: int| 0 <= i < v.len() && v[i] == category;
    }
}

/// The assets are listed folder by folder, the temporary ones left out.
pub proof fn assets_are_listed_by_folder(
    root: Seq<char>,
    folders: Seq<assets::AssetFolder>,
    f: assets::AssetFolder,
    k: Seq<char>,
)
    ensures
        ({
            let before = Tree::Object(assets::listing(root, folders));
            let after = Tree::Object(assets::listing(root, folders.push(f)));
            &&& f.name@ == "temp"@ ==> after == before
            &&& f.name@ != "temp"@ ==> after.get(f.name@) == Some(assets::folder_listing(root, f))
            &&& k != f.name@ ==> after.get(k) == before.get(k)
        }),
{
    assert(folders.push(f).drop_last() =~= folders);
    let rest = assets::listing(root, folders);
    json::put_reads(rest, f.name@, assets::folder_listing(root, f), f.name@);
    json::put_reads(rest, f.name@, assets::folder_listing(root, f), k);
}

/// A folder of VRM assets lists its models and its animations, each under its name; a folder of
/// Live2D assets lists its models; any other lists its files by their address.
pub proof fn folder_lists_its_files(root: Seq<char>, f: assets::AssetFolder)
    ensures
        f.name@ == "vrm"@ ==> assets::folder_listing(root, f).items_at("model"@) == Some(
            assets::file_items(root, json::texts(f.models@)),
        ) && assets::folder_listing(root, f).items_at("animation"@) == Some(
            assets::file_items(root, json::texts(f.animations@)),
        ),
        f.name@ == "live2d"@ ==> assets::folder_listing(root, f) == Tree::Array(
            assets::model_items(root, json::texts(f.files@)),
        ),
        f.name@ != "vrm"@ && f.name@ != "live2d"@ ==> assets::folder_listing(root, f)
            == Tree::Array(
            assets::name_items("assets/"@ + f.name@ + "/"@, json::texts(f.entries@)),
        ),
{
    reveal_strlit("animation");
    reveal_strlit("live2d");
    reveal_strlit("model");
    reveal_strlit("vrm");
    assert("animation"@.len() == 9);
    assert("live2d"@.len() == 6);
    assert("model"@.len() == 5);
    assert("vrm"@.len() == 3);
    reveal_with_fuel(json::position, 3);
}

/// Files are listed in their order; a placeholder is no asset, and a model is a JSON file that
/// says so in its name.
pub proof fn files_are_listed_in_turn(
    root: Seq<char>,
    prefix: Seq<char>,
    v: Seq<Seq<char>>,
    n: Seq<char>,
)
    ensures
        n != ".placeholder"@ ==> assets::name_items(prefix, v.push(n)) == assets::name_items(
            prefix,
            v,
        ).push(Tree::Text(prefix + n)),
        n == ".placeholder"@ ==> assets::name_items(prefix, v.push(n)) == assets::name_items(
            prefix,
            v,
        ),
        assets::model_names(prefix, v.push(n)) == if text::occurs(n, "model"@) && text::ends(
            n,
            ".json"@,
        ) {
            assets::model_names(prefix, v).push(Tree::Text(prefix + n))
        } else {
            assets::model_names(prefix, v)
        },
        assets::file_items(root, v.push(n)) == if paths::last_name(n) == Some(".placeholder"@) {
            assets::file_items(root, v)
        } else {
            assets::file_items(root, v).push(Tree::Text(paths::client_path(root, n)))
        },
{
    assert(v.push(n).drop_last() =~= v);
    reveal_strlit(".placeholder");
    assert(".placeholder"@.len() == 12);
}

/// The region that is cut out of a picture lies in the picture; where the client's region does, it
/// is taken as it is, and otherwise it is not larger.
pub proof fn region_lies_in_picture(want: avatars::Region, width: u32, height: u32)
    ensures
        ({
            let r = avatars::clamped(want, width, height);
            &&& r.x + r.width <= width && r.y + r.height <= height
            &&& r.width <= want.width && r.height <= want.height
            &&& want.x < width && want.y < height && want.x + want.width <= width && want.y
                + want.height <= height ==> r == want
            &&& want.x < width ==> r.x == want.x
            &&& want.y < height ==> r.y == want.y
            &&& want.x < width && want.x + want.width > width ==> r.x + r.width == width
            &&& want.y < height && want.y + want.height > height ==> r.y + r.height == height
        }),
{
}

/// An avatar that replaces another bears its name; a new one is named after the time.
pub proof fn avatar_is_named(name: Seq<char>, millis: nat)
    ensures
        avatars::upload_name(Some(name), millis) == sanitize::sanitized(name, ""@),
        avatars::upload_name(None, millis) == text::decimal(millis) + ".png"@,
{
}

/// The cache is cleared where that is switched on and the pattern fits, and for everyone where
/// there is no pattern.
pub proof fn cache_is_cleared_where_asked(pattern: Seq<char>, found: Option<bool>)
    ensures
        !avatars::busted(false, pattern, found),
        text::trimmed(pattern).len() == 0 ==> avatars::busted(true, pattern, found),
        text::trimmed(pattern).len() > 0 ==> avatars::busted(true, pattern, Some(true))
            && !avatars::busted(true, pattern, Some(false)),
{
}

/// An image is stored under the name that the client gives it, with the format as its extension, in
/// the folder of its character; without a name it is named after the time.
pub proof fn image_is_stored_by_name(
    folder: Seq<char>,
    character: Seq<char>,
    name: Seq<char>,
    format: Seq<char>,
    millis: u128,
)
    requires
        name.len() > 0,
        character.len() > 0,
    ensures
        images::image_name(Some(name), format, millis) == paths::stem_of(name) + "."@ + format,
        images::image_name(None, format, millis) == text::decimal(millis as nat) + "."@ + format,
        images::image_path(folder, Some(character), name) == paths::joined_path(
            paths::joined_path(folder, sanitize::sanitized(character, ""@)),
            sanitize::sanitized(name, ""@),
        ),
        images::image_path(folder, None, name) == paths::joined_path(
            folder,
            sanitize::sanitized(name, ""@),
        ),
{
}

/// The folders of images are listed in their order, and no files.
pub proof fn folders_are_listed(v: Seq<images::DirectoryEntry>, e: images::DirectoryEntry)
    ensures
        e.is_directory ==> images::folder_names(v.push(e)) == images::folder_names(v).push(e.name@),
        !e.is_directory ==> images::folder_names(v.push(e)) == images::folder_names(v),
{
    assert(v.push(e).drop_last() =~= v);
}

/// An image is refused for its format or for want of data, and for nothing else.
pub proof fn image_needs_format_and_data(
    body: images::UploadImageRequest,
    formats: Seq<String>,
)
    ensures
        images::upload_refusal(body, formats) is None <==> json::texts(formats).contains(
            body.format@,
        ) && body.image@.len() > 0,
{
}

/// An attachment needs a name, data and a valid name.
pub proof fn attachment_needs_name_and_data(
    body: files::UploadFileRequest,
    check: sanitize::FilenameCheck,
)
    ensures
        files::upload_refusal(body, check) is None <==> body.name@.len() > 0 && body.data@.len() > 0
            && check.valid,
{
}

/// Only files among the attachments are looked for, each where its address leads.
pub proof fn targets_lie_among_attachments(
    urls: Seq<Seq<char>>,
    url: Seq<char>,
    root: Seq<char>,
    folder: Seq<char>,
)
    ensures
        ({
            let before = files::targets_of(urls, root, folder);
            let after = files::targets_of(urls.push(url), root, folder);
            let path = paths::joined_path(root, url);
            after == if paths::lies_under(path, folder) {
                before.push((url, path))
            } else {
                before
            }
        }),
{
    assert(urls.push(url).drop_last() =~= urls);
}

/// For every address the client is told whether its file was found.
pub proof fn addresses_are_answered(
    targets: Seq<(Seq<char>, Seq<char>)>,
    found: Seq<bool>,
    i: int,
)
    requires
        found.len() == targets.len(),
        0 <= i < targets.len(),
        forall|j: int| i < j < targets.len() ==> (#[trigger] targets[j]).0 != targets[i].0,
    ensures
        Tree::Object(files::verified(targets, found)).flag_at(targets[i].0) == Some(found[i]),
    decreases targets.len(),
{
    let rest = targets.drop_last();
    let last = targets.last();
    let f = files::verified(rest, found);
    let v = Tree::Bool(found[targets.len() - 1]);
    json::put_reads(f, last.0, v, targets[i].0);
    if i < targets.len() - 1 {
        assert(targets[targets.len() - 1].0 != targets[i].0);
        answered_before(rest, found, i);
    }
}

proof fn answered_before(targets: Seq<(Seq<char>, Seq<char>)>, found: Seq<bool>, i: int)
    requires
        found.len() >= targets.len(),
        0 <= i < targets.len(),
        forall|j: int| i < j < targets.len() ==> (#[trigger] targets[j]).0 != targets[i].0,
    ensures
        Tree::Object(files::verified(targets, found)).flag_at(targets[i].0) == Some(found[i]),
    decreases targets.len(),
{
    let rest = targets.drop_last();
    let last = targets.last();
    let f = files::verified(rest, found);
    let v = Tree::Bool(found[targets.len() - 1]);
    json::put_reads(f, last.0, v, targets[i].0);
    if i < targets.len() - 1 {
        assert(targets[targets.len() - 1].0 != targets[i].0);
        answered_before(rest, found, i);
    }
}

/// A backup of chats begins with the prefix and ends with the extension of chats; the backups are
/// listed in their order.
pub proof fn backups_are_listed(
    names: Seq<Seq<char>>,
    prefix: Seq<char>,
    middle: Seq<char>,
    n: Seq<char>,
)
    ensures
        backups::backup_names(names.push(prefix + middle + ".jsonl"@), prefix)
            == backups::backup_names(names, prefix).push(prefix + middle + ".jsonl"@),
        !text::ends(n, ".jsonl"@) || !text::begins(n, prefix) ==> backups::backup_names(
            names.push(n),
            prefix,
        ) == backups::backup_names(names, prefix),
{
    let s = prefix + middle + ".jsonl"@;
    assert(names.push(s).drop_last() =~= names);
    assert(names.push(n).drop_last() =~= names);
    assert(s.subrange(0, prefix.len() as int) =~= prefix);
    assert(s.subrange(s.len() - ".jsonl"@.len(), s.len() as int) =~= ".jsonl"@);
}

/// A backup is handed out as an attachment under its name.
pub proof fn backup_is_attached(name: Seq<char>)
    requires
        !name.contains('"'),
    ensures
        backups::attachment(name) == "attachment; filename=\""@ + name + "\""@,
{
    reveal_strlit("\"");
    assert("\""@[0] == '"');
    text::replacing_nothing(name, "\""@, "\\\""@, 0);
    assert(name.skip(0) =~= name);
}

/// What another service says is passed on where it answers well; its failures are failures here.
pub proof fn answers_are_passed_on(s: u16, t: Seq<char>, j: Tree, why: Seq<char>)
    ensures
        200 <= s < 300 ==> web::relayed(web::UpstreamView::Got(s, t, Some(j))) == web::json_reply(
            200,
            j,
        ) && web::relayed_with_error(web::UpstreamView::Got(s, t, Some(j))) == web::json_reply(
            200,
            j,
        ),
        !(200 <= s < 300) ==> web::relayed(web::UpstreamView::Got(s, t, Some(j))).status == 500,
        400 <= s < 600 ==> web::relayed_with_error(web::UpstreamView::Got(s, t, Some(j)))
            == web::text_reply(s, t),
        web::relayed(web::UpstreamView::Failed(why)).status == 500,
        web::relayed_with_error(web::UpstreamView::Failed(why)).status == 500,
{
}

} // verus!
