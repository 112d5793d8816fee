//! Music, sounds and models that a user adds.

use crate::json;
use crate::json::{Fields, Json};
use crate::outside;
use crate::paths;
use crate::sanitize;
use crate::sanitize::FilenameCheck;
use crate::secrets;
use crate::text;
use crate::web;
use crate::web::{Download, Reply};
use vstd::prelude::*;

pub use crate::paths::client_relative_path;

verus! {

/// Asks for an asset to be downloaded.
#[derive(Debug)]
pub struct DownloadAssetRequest {
    pub url: String,
    pub category: String,
    pub filename: String,
}

/// Asks for an asset to be deleted.
#[derive(Debug)]
pub struct DeleteAssetRequest {
    pub category: String,
    pub filename: String,
}

/// Asks for the assets of a character.
#[derive(Debug)]
pub struct CharacterAssetsQuery {
    pub name: Option<String>,
    pub category: Option<String>,
}

/// The categories of assets.
pub open spec fn valid_categories() -> Seq<Seq<char>> {
    seq!["bgm"@, "ambient"@, "blip"@, "live2d"@, "vrm"@, "character"@, "temp"@]
}

/// The categories of assets.
pub fn categories() -> (r: [&'static str; 7])
    ensures
        crate::characters::helpers::slices(r@) == valid_categories(),
{
    let r = ["bgm", "ambient", "blip", "live2d", "vrm", "character", "temp"];
    assert(crate::characters::helpers::slices(r@) =~= valid_categories());
    r
}

/// The category of that name.
pub fn validate_category(input: &str) -> (r: Option<&'static str>)
    ensures
        r matches Some(c) ==> c@ == input@ && valid_categories().contains(input@),
        r is None ==> !valid_categories().contains(input@),
{
    let all = categories();
    let ghost names = valid_categories();
    let mut i: usize = 0;
    while i < 7
        invariant
            names == valid_categories(),
            crate::characters::helpers::slices(all@) == names,
            i <= 7,
            forall|j: int| 0 <= j < i ==> names[j] != input@,
        decreases 7 - i,
    {
        assert(names[i as int] == all@[i as int]@);
        if text::same(all[i], input) {
            assert(names[i as int] == input@);
            return Some(all[i]);
        }
        i += 1;
    }
    None
}

/// The host that an address names; empty where it names none.
pub open spec fn host_name(parsed: Option<Option<Seq<char>>>) -> Seq<char> {
    match parsed {
        Some(h) => secrets::or_empty(h),
        None => Seq::empty(),
    }
}

/// The host that an address names; empty where it names none.
pub fn get_host_from_url(url: &str) -> (r: String)
    ensures
        r@ == host_name(outside::url_host(url@)),
{
    match outside::parse_url(url) {
        Some(h) => secrets::unwrap_or_empty(h),
        None => String::new(),
    }
}

/// Whether the host is on the list.
pub fn is_host_whitelisted(host: &str, whitelist: &Vec<String>) -> (r: bool)
    ensures
        r == json::texts(whitelist@).contains(host@),
{
    crate::naming::is_taken(host, whitelist)
}

/// Why a download is refused: the text is no address (`parsed` is what it was parsed to),
/// its host is not on the list, there is no such category, or the file name may not be
/// used.
pub open spec fn download_refusal(
    parsed: Option<Option<Seq<char>>>,
    whitelist: Seq<Seq<char>>,
    category: Seq<char>,
    check: FilenameCheck,
) -> Option<web::ReplyView> {
    if parsed is None {
        Some(web::text_reply(400, "Bad Request"@))
    } else if !whitelist.contains(host_name(parsed)) {
        Some(web::text_reply(404, "Not Found"@))
    } else if !valid_categories().contains(category) {
        Some(web::status_only(400))
    } else if !check.valid {
        Some(web::text_reply(400, check.reason()))
    } else {
        None
    }
}

/// Whether a download goes ahead, given what its address was parsed to.
pub fn download_decision(
    parsed: &Option<Option<String>>,
    whitelist: &Vec<String>,
    category: &str,
    check: &FilenameCheck,
) -> (r: Result<(), Reply>)
    ensures
        match r {
            Ok(_) => download_refusal(
                outside::nested_text(*parsed),
                json::texts(whitelist@),
                category@,
                *check,
            ) is None,
            Err(e) => download_refusal(
                outside::nested_text(*parsed),
                json::texts(whitelist@),
                category@,
                *check,
            ) == Some(e@),
        },
{
    let host = match parsed {
        Some(h) => match h {
            Some(s) => s.clone(),
            None => String::new(),
        },
        None => return Err(Reply::text(400, "Bad Request")),
    };
    if !is_host_whitelisted(&host, whitelist) {
        return Err(Reply::text(404, "Not Found"));
    }
    if validate_category(category).is_none() {
        return Err(Reply::empty(400));
    }
    if !check.valid {
        return Err(Reply::text(400, &check.reason_text()));
    }
    Ok(())
}

/// Where a download goes: first to a temporary file, then to its place.
#[derive(Debug)]
pub struct DownloadPlan {
    pub temp_path: String,
    pub file_path: String,
}

/// Where a download goes in the directory `assets`, or why it is refused.
pub fn download_asset(
    body: &DownloadAssetRequest,
    whitelist: &Vec<String>,
    check: &FilenameCheck,
    assets: &str,
) -> (r: Result<DownloadPlan, Reply>)
    ensures
        match r {
            Ok(p) => {
                &&& download_refusal(
                    outside::url_host(body.url@),
                    json::texts(whitelist@),
                    body.category@,
                    *check,
                ) is None
                &&& p.temp_path@ == asset_path(assets@, "temp"@, body.filename@)
                &&& p.file_path@ == asset_path(assets@, body.category@, body.filename@)
            },
            Err(e) => download_refusal(
                outside::url_host(body.url@),
                json::texts(whitelist@),
                body.category@,
                *check,
            ) == Some(e@),
        },
{
    let parsed = outside::parse_url(&body.url);
    match download_decision(&parsed, whitelist, &body.category, check) {
        Ok(_) => {},
        Err(e) => return Err(e),
    }
    Ok(
        DownloadPlan {
            temp_path: paths::join(&paths::join(assets, "temp"), &body.filename),
            file_path: paths::join(&paths::join(assets, &body.category), &body.filename),
        },
    )
}

/// The path of an asset.
pub open spec fn asset_path(assets: Seq<char>, category: Seq<char>, name: Seq<char>) -> Seq<char> {
    paths::joined_path(paths::joined_path(assets, category), name)
}

/// The bytes of a download, or the answer where there are none.
pub fn downloaded(d: Download) -> (r: Result<Vec<u8>, Reply>)
    ensures
        match r {
            Ok(b) => d matches Download::Got(s, Some(x)) && web::success(s) && x@ == b@,
            Err(e) => e@ == web::status_only(500) && !(d matches Download::Got(s, Some(_))
                && web::success(s)),
        },
{
    match d {
        Download::Got(s, Some(b)) => if web::is_success(s) {
            Ok(b)
        } else {
            Err(Reply::empty(500))
        },
        _ => Err(Reply::empty(500)),
    }
}

/// The answer with a character that was downloaded, of the media type that the name of its
/// file suggests.
pub fn character_reply(temp_path: &str, content: Vec<u8>) -> (r: Reply)
    ensures
        r@ == (web::ReplyView {
            status: 200,
            headers: Seq::empty(),
            payload: web::PayloadView::Bytes(outside::media_type(temp_path@), content@),
        }),
{
    Reply::bytes(200, &outside::guess_media_type(temp_path), content)
}

/// Why a deletion is refused: there is no such category, or the file name may not be used.
pub open spec fn deletion_refusal(category: Seq<char>, check: FilenameCheck) -> Option<
    web::ReplyView,
> {
    if !valid_categories().contains(category) {
        Some(web::text_reply(400, "Bad Request"@))
    } else if !check.valid {
        Some(web::html_reply(400, check.reason()))
    } else {
        None
    }
}

/// The path of the asset to be deleted, or why it is not.
pub fn delete_asset(body: &DeleteAssetRequest, check: &FilenameCheck, assets: &str) -> (r: Result<
    String,
    Reply,
>)
    ensures
        match r {
            Ok(p) => deletion_refusal(body.category@, *check) is None && p@ == asset_path(
                assets@,
                body.category@,
                body.filename@,
            ),
            Err(e) => deletion_refusal(body.category@, *check) == Some(e@),
        },
{
    if validate_category(&body.category).is_none() {
        return Err(Reply::text(400, "Bad Request"));
    }
    if !check.valid {
        return Err(Reply::html(400, &check.reason_text()));
    }
    Ok(paths::join(&paths::join(assets, &body.category), &body.filename))
}

/// The answer once an asset was to be deleted: whether there was one, and whether it is
/// gone.
pub fn deletion_reply(found: bool, removed: bool) -> (r: Reply)
    ensures
        r@ == if !found {
            web::text_reply(400, "Bad Request"@)
        } else if !removed {
            web::status_only(500)
        } else {
            web::text_reply(200, "OK"@)
        },
{
    if !found {
        Reply::text(400, "Bad Request")
    } else if !removed {
        Reply::empty(500)
    } else {
        Reply::text(200, "OK")
    }
}

/// The name of the file at the end of a path; empty where there is none.
pub open spec fn name_at(path: Seq<char>) -> Seq<char> {
    secrets::or_empty(paths::last_name(path))
}

/// Whether a file of that name describes a model.
pub open spec fn is_model(name: Seq<char>) -> bool {
    text::occurs(name, "model"@) && text::ends(name, ".json"@)
}

fn describes_model(name: &str) -> (r: bool)
    ensures
        r == is_model(name@),
{
    text::contains(name, "model") && text::ends_with(name, ".json")
}

/// The paths of the descriptions of models, as a client names them.
pub open spec fn model_items(root: Seq<char>, files: Seq<Seq<char>>) -> Seq<json::Tree>
    decreases files.len(),
{
    if files.len() == 0 {
        Seq::empty()
    } else {
        let rest = model_items(root, files.drop_last());
        if is_model(name_at(files.last())) {
            rest.push(json::txt(paths::client_path(root, files.last())))
        } else {
            rest
        }
    }
}

/// The paths of the files but for placeholders, as a client names them.
pub open spec fn file_items(root: Seq<char>, files: Seq<Seq<char>>) -> Seq<json::Tree>
    decreases files.len(),
{
    if files.len() == 0 {
        Seq::empty()
    } else {
        let rest = file_items(root, files.drop_last());
        if name_at(files.last()) != ".placeholder"@ {
            rest.push(json::txt(paths::client_path(root, files.last())))
        } else {
            rest
        }
    }
}

/// The names but for placeholders, behind `prefix`.
pub open spec fn name_items(prefix: Seq<char>, names: Seq<Seq<char>>) -> Seq<json::Tree>
    decreases names.len(),
{
    if names.len() == 0 {
        Seq::empty()
    } else {
        let rest = name_items(prefix, names.drop_last());
        if names.last() != ".placeholder"@ {
            rest.push(json::txt(prefix + names.last()))
        } else {
            rest
        }
    }
}

/// The names that describe models, behind `prefix`.
pub open spec fn model_names(prefix: Seq<char>, names: Seq<Seq<char>>) -> Seq<json::Tree>
    decreases names.len(),
{
    if names.len() == 0 {
        Seq::empty()
    } else {
        let rest = model_names(prefix, names.drop_last());
        if is_model(names.last()) {
            rest.push(json::txt(prefix + names.last()))
        } else {
            rest
        }
    }
}

fn list_models(root: &str, files: &Vec<String>) -> (r: Vec<Json>)
    ensures
        json::trees(r@) == model_items(root@, json::texts(files@)),
{
    let ghost all = json::texts(files@);
    let mut out: Vec<Json> = Vec::new();
    let mut i: usize = 0;
    assert(json::trees(out@) =~= model_items(root@, all.take(0)));
    while i < files.len()
        invariant
            all == json::texts(files@),
            i <= files@.len(),
            json::trees(out@) == model_items(root@, all.take(i as int)),
        decreases files@.len() - i,
    {
        assert(all.take(i as int + 1).drop_last() =~= all.take(i as int));
        assert(all.take(i as int + 1).last() == files@[i as int]@);
        let ghost before = out@;
        if describes_model(&secrets::unwrap_or_empty(paths::file_name(&files[i]))) {
            let shown = paths::client_relative_path(root, &files[i]);
            out.push(Json::Text(shown));
            assert(json::trees(out@) =~= json::trees(before).push(json::txt(shown@)));
        }
        i += 1;
    }
    assert(all.take(all.len() as int) =~= all);
    out
}

fn list_files(root: &str, files: &Vec<String>) -> (r: Vec<Json>)
    ensures
        json::trees(r@) == file_items(root@, json::texts(files@)),
{
    let ghost all = json::texts(files@);
    let mut out: Vec<Json> = Vec::new();
    let mut i: usize = 0;
    assert(json::trees(out@) =~= file_items(root@, all.take(0)));
    while i < files.len()
        invariant
            all == json::texts(files@),
            i <= files@.len(),
            json::trees(out@) == file_items(root@, all.take(i as int)),
        decreases files@.len() - i,
    {
        assert(all.take(i as int + 1).drop_last() =~= all.take(i as int));
        assert(all.take(i as int + 1).last() == files@[i as int]@);
        let ghost before = out@;
        let name = secrets::unwrap_or_empty(paths::file_name(&files[i]));
        if !text::same(&name, ".placeholder") {
            let shown = paths::client_relative_path(root, &files[i]);
            out.push(Json::Text(shown));
            assert(json::trees(out@) =~= json::trees(before).push(json::txt(shown@)));
        }
        i += 1;
    }
    assert(all.take(all.len() as int) =~= all);
    out
}

fn list_names(prefix: &str, names: &Vec<String>, models: bool) -> (r: Vec<Json>)
    ensures
        json::trees(r@) == if models {
            model_names(prefix@, json::texts(names@))
        } else {
            name_items(prefix@, json::texts(names@))
        },
{
    let ghost all = json::texts(names@);
    let mut out: Vec<Json> = Vec::new();
    let mut i: usize = 0;
    assert(json::trees(out@) =~= model_names(prefix@, all.take(0)));
    assert(json::trees(out@) =~= name_items(prefix@, all.take(0)));
    while i < names.len()
        invariant
            all == json::texts(names@),
            i <= names@.len(),
            json::trees(out@) == if models {
                model_names(prefix@, all.take(i as int))
            } else {
                name_items(prefix@, all.take(i as int))
            },
        decreases names@.len() - i,
    {
        assert(all.take(i as int + 1).drop_last() =~= all.take(i as int));
        assert(all.take(i as int + 1).last() == names@[i as int]@);
        let ghost before = out@;
        let keep = if models {
            describes_model(&names[i])
        } else {
            !text::same(&names[i], ".placeholder")
        };
        if keep {
            let shown = text::join2(prefix, &names[i]);
            out.push(Json::Text(shown));
            assert(json::trees(out@) =~= json::trees(before).push(json::txt(shown@)));
        }
        i += 1;
    }
    assert(all.take(all.len() as int) =~= all);
    out
}

/// A directory of assets: its name, the names of what it holds, the paths of all the files
/// below it, and, of models with animations, the paths of either.
#[derive(Debug)]
pub struct AssetFolder {
    pub name: String,
    pub entries: Vec<String>,
    pub files: Vec<String>,
    pub models: Vec<String>,
    pub animations: Vec<String>,
}

/// What is listed of a directory of assets.
pub open spec fn folder_listing(root: Seq<char>, f: AssetFolder) -> json::Tree {
    if f.name@ == "live2d"@ {
        json::Tree::Array(model_items(root, json::texts(f.files@)))
    } else if f.name@ == "vrm"@ {
        json::Tree::Object(
            json::members()
                .push(("model"@, json::Tree::Array(file_items(root, json::texts(f.models@)))))
                .push((
                    "animation"@,
                    json::Tree::Array(file_items(root, json::texts(f.animations@))),
                )),
        )
    } else {
        json::Tree::Array(name_items("assets/"@ + f.name@ + "/"@, json::texts(f.entries@)))
    }
}

/// What is listed of directories of assets; the one for temporary files is passed over.
pub open spec fn listing(root: Seq<char>, folders: Seq<AssetFolder>) -> Seq<
    (Seq<char>, json::Tree),
>
    decreases folders.len(),
{
    if folders.len() == 0 {
        Seq::empty()
    } else {
        let rest = listing(root, folders.drop_last());
        if folders.last().name@ == "temp"@ {
            rest
        } else {
            json::put(rest, folders.last().name@, folder_listing(root, folders.last()))
        }
    }
}

fn list_folder(root: &str, f: &AssetFolder) -> (r: Json)
    ensures
        r@ == folder_listing(root@, *f),
{
    if text::same(&f.name, "live2d") {
        Json::array(list_models(root, &f.files))
    } else if text::same(&f.name, "vrm") {
        Fields::new()
            .with("model", Json::array(list_files(root, &f.models)))
            .with("animation", Json::array(list_files(root, &f.animations)))
            .done()
    } else {
        Json::array(list_names(&text::join3("assets/", &f.name, "/"), &f.entries, false))
    }
}

/// The assets of a user by category.
pub fn get_assets(root: &str, folders: &Vec<AssetFolder>) -> (r: Json)
    ensures
        r@ == json::Tree::Object(listing(root@, folders@)),
{
    let mut out = Fields::new();
    let mut i: usize = 0;
    assert(out@ =~= listing(root@, folders@.take(0)));
    while i < folders.len()
        invariant
            i <= folders@.len(),
            out@ == listing(root@, folders@.take(i as int)),
        decreases folders@.len() - i,
    {
        assert(folders@.take(i as int + 1).drop_last() =~= folders@.take(i as int));
        if !text::same(&folders[i].name, "temp") {
            let listed = list_folder(root, &folders[i]);
            out.insert(&folders[i].name, listed);
        }
        i += 1;
    }
    assert(folders@.take(folders@.len() as int) =~= folders@);
    out.done()
}

/// The directory whose assets are asked for: the character's name, made safe, and the
/// category.
#[derive(Debug)]
pub struct CharacterFolder {
    pub name: String,
    pub category: String,
}

/// The directory whose assets are asked for, or the refusal where the name or the category
/// is missing or there is no such category.
pub fn character_assets(query: &CharacterAssetsQuery) -> (r: Result<CharacterFolder, Reply>)
    ensures
        match (json::string_opt(query.name), json::string_opt(query.category)) {
            (Some(n), Some(c)) => if valid_categories().contains(c) {
                r matches Ok(f) && f.name@ == sanitize::sanitized(n, ""@) && f.category@ == c
            } else {
                r matches Err(e) && e@ == web::status_only(400)
            },
            _ => r matches Err(e) && e@ == web::status_only(400),
        },
{
    let name = match &query.name {
        Some(n) => n,
        None => return Err(Reply::empty(400)),
    };
    let category = match &query.category {
        Some(c) => c,
        None => return Err(Reply::empty(400)),
    };
    let safe = sanitize::sanitize_filename_strip(name);
    match validate_category(category) {
        Some(c) => Ok(CharacterFolder { name: safe, category: c.to_owned() }),
        None => Err(Reply::empty(400)),
    }
}

/// The files of a character's category, as a client names them: `names` are the names of
/// what the directory holds.
pub fn character_listing(folder: &CharacterFolder, names: &Vec<String>) -> (r: Json)
    ensures
        r@ == json::Tree::Array(
            name_items(
                "/characters/"@ + folder.name@ + "/"@ + folder.category@ + "/"@,
                json::texts(names@),
            ),
        ),
{
    let start = text::join3("/characters/", &folder.name, "/");
    let prefix = text::join3(&start, &folder.category, "/");
    Json::array(list_names(&prefix, names, false))
}

/// The models in one directory of a character's models, as a client names them.
pub fn character_models(folder: &CharacterFolder, model: &str, names: &Vec<String>) -> (r: Vec<Json>)
    ensures
        json::trees(r@) == model_names(
            "characters/"@ + folder.name@ + "/"@ + folder.category@ + "/"@ + model@ + "/"@,
            json::texts(names@),
        ),
{
    let start = text::join3("characters/", &folder.name, "/");
    let middle = text::join3(&start, &folder.category, "/");
    let prefix = text::join3(&middle, model, "/");
    list_names(&prefix, names, true)
}

} // verus!
