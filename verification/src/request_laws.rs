//! What holds of requests from end to end: whatever a function answers, the files and folders it
//! names are those that the client means, and what is refused is refused.

use crate::assets;
use crate::avatars;
use crate::backgrounds;
use crate::backups;
use crate::characters::byaf;
use crate::characters::byaf_import;
use crate::characters::charx;
use crate::characters::helpers;
use crate::characters::reads;
use crate::characters::writes;
use crate::chat_import;
use crate::chat_search as search;
use crate::chats;
use crate::content;
use crate::data_maid;
use crate::extensions;
use crate::files;
use crate::global;
use crate::groups;
use crate::image_metadata as meta;
use crate::images;
use crate::json;
use crate::json::Json;
use crate::json::Tree;
use crate::moving_ui;
use crate::paths;
use crate::sanitize;
use crate::text;
use crate::web;
use crate::web::Reply;
use vstd::prelude::*;

verus! {

/// A background is renamed from the name that it has to the one that it is to have.
pub proof fn background_is_renamed(
    body: &backgrounds::RenameBackgroundRequest,
    folder: &str,
    r: backgrounds::Renaming,
)
    requires
        call_ensures(backgrounds::rename_background, (body, folder), r),
    ensures
        r.old_path@ == paths::joined_path(folder@, sanitize::sanitized(body.old_bg@, ""@)),
        r.new_path@ == paths::joined_path(folder@, sanitize::sanitized(body.new_bg@, ""@)),
{
}

/// A renaming goes on where the old background is there and the new one is not.
pub proof fn renaming_needs_old_and_no_new(old_found: bool, new_found: bool, r: Result<(), Reply>)
    requires
        call_ensures(backgrounds::rename_check, (old_found, new_found), r),
    ensures
        r is Ok <==> old_found && !new_found,
        r matches Err(e) ==> e@.status == 400,
{
}

/// A background is deleted under the name that the client gives, and only under a safe one.
pub proof fn background_is_deleted_by_name(
    body: &backgrounds::DeleteBackgroundRequest,
    folder: &str,
    r: Result<String, Reply>,
)
    requires
        call_ensures(backgrounds::delete_background, (body, folder), r),
    ensures
        r matches Ok(p) ==> p@ == paths::joined_path(folder@, body.bg@),
        r is Ok <==> sanitize::sanitized(body.bg@, ""@) == body.bg@,
        r matches Err(e) ==> e@.status == 403,
{
}

/// The backgrounds are told in their order, with the width and the height of their thumbnails.
pub proof fn backgrounds_are_told(
    names: Vec<String>,
    size: (u32, u32),
    r: backgrounds::BackgroundsAllResponse,
    j: Json,
)
    requires
        call_ensures(backgrounds::get_all_backgrounds, (names, size), r),
        call_ensures(backgrounds::BackgroundsAllResponse::to_json, (&r,), j),
    ensures
        j@.items_at("images"@) == Some(json::text_items(json::texts(names@))),
        j@.get("config"@) matches Some(c) && c.get("width"@) == Some(json::num(size.0 as u64))
            && c.get("height"@) == Some(json::num(size.1 as u64)),
{
    reveal_strlit("images");
    reveal_strlit("config");
    reveal_strlit("width");
    reveal_strlit("height");
    assert("images"@[0] == 'i' && "config"@[0] == 'c' && "width"@.len() == 5 && "height"@.len()
        == 6);
    reveal_with_fuel(json::position, 3);
}

/// A global extension is installed by an administrator alone, and every extension from the address
/// and the branch that the client names.
pub proof fn extension_is_installed_from_address(
    body: &extensions::InstallRequest,
    is_admin: bool,
    r: Result<extensions::Installation, Reply>,
    url: Seq<char>,
)
    requires
        call_ensures(extensions::install_extension, (body, is_admin), r),
        json::string_opt(body.url) == Some(url),
        url.len() > 0,
    ensures
        r is Ok <==> is_admin || body.global != Some(true),
        r matches Err(e) ==> e@.status == 403,
        r matches Ok(x) ==> x.url@ == url && x.global == (body.global == Some(true))
            && json::string_opt(x.branch) == json::string_opt(body.branch) && x.name@
            == sanitize::sanitized(extensions::repo_name(url), ""@),
{
}

/// An extension is named by the client; a global one is touched by an administrator alone, but
/// anyone may ask for its version.
pub proof fn extension_is_named(
    body: &extensions::ExtensionNameRequest,
    is_admin: bool,
    action: extensions::ExtensionAction,
    r: Result<extensions::ExtensionTarget, Reply>,
    name: Seq<char>,
)
    requires
        call_ensures(extensions::extension_target, (body, is_admin, action), r),
        json::string_opt(body.extension_name) == Some(name),
        name.len() > 0,
    ensures
        r is Ok <==> is_admin || body.global != Some(true) || action
            == extensions::ExtensionAction::Version,
        r matches Err(e) ==> e@.status == 403,
        r matches Ok(x) ==> x.name@ == sanitize::sanitized(name, ""@) && x.global == (body.global
            == Some(true)),
{
}

/// An extension is moved from where the client says to where the client says, by an administrator
/// alone.
pub proof fn extension_is_moved(
    body: &extensions::MoveRequest,
    is_admin: bool,
    r: Result<extensions::Move, Reply>,
    name: Seq<char>,
    source: Seq<char>,
    destination: Seq<char>,
)
    requires
        call_ensures(extensions::move_extension, (body, is_admin), r),
        json::string_opt(body.extension_name) == Some(name),
        json::string_opt(body.source) == Some(source),
        json::string_opt(body.destination) == Some(destination),
        name.len() > 0 && source.len() > 0 && destination.len() > 0,
    ensures
        r is Ok <==> is_admin,
        r matches Err(e) ==> e@.status == 403,
        r matches Ok(x) ==> x.name@ == sanitize::sanitized(name, ""@) && x.from_global == (source
            == "global"@) && x.to_global == (destination == "global"@) && x.same == (source
            == destination),
{
}

/// A move goes on where there is something to move and nothing in the way, and what was moved is
/// gone from where it was if and only if it was copied.
pub proof fn move_needs_a_way(
    there: bool,
    taken: bool,
    same: bool,
    copied: bool,
    r: Option<Reply>,
    e: extensions::MoveEnd,
)
    requires
        call_ensures(extensions::move_obstacle, (there, taken, same), r),
        call_ensures(extensions::move_reply, (copied,), e),
    ensures
        r is None <==> there && !taken && !same,
        !there ==> r->0@.status == 404,
        there && taken ==> r->0@.status == 409,
        e.remove_source == copied,
        e.reply@.status == if copied {
            204
        } else {
            500u16
        },
{
}

/// The branch of an extension is switched to the one that the client names.
pub proof fn branch_is_named(
    body: &extensions::SwitchRequest,
    is_admin: bool,
    r: Result<extensions::Switch, Reply>,
    name: Seq<char>,
    branch: Seq<char>,
)
    requires
        call_ensures(extensions::switch_branch, (body, is_admin), r),
        json::string_opt(body.extension_name) == Some(name),
        json::string_opt(body.branch) == Some(branch),
        name.len() > 0 && branch.len() > 0,
    ensures
        r is Ok <==> is_admin || body.global != Some(true),
        r matches Ok(x) ==> x.name@ == sanitize::sanitized(name, ""@) && x.branch@ == branch
            && x.global == (body.global == Some(true)),
{
}

/// An asset is downloaded to the temporary folder and then kept in its category, under its name.
pub proof fn asset_is_kept_in_category(
    body: &assets::DownloadAssetRequest,
    listed: &Vec<String>,
    check: &sanitize::FilenameCheck,
    folder: &str,
    r: Result<assets::DownloadPlan, Reply>,
)
    requires
        call_ensures(assets::download_asset, (body, listed, check, folder), r),
    ensures
        r matches Ok(p) ==> p.temp_path@ == assets::asset_path(folder@, "temp"@, body.filename@)
            && p.file_path@ == assets::asset_path(folder@, body.category@, body.filename@)
            && check.valid,
{
}

/// An asset is deleted in its category under its name.
pub proof fn asset_is_deleted_in_category(
    body: &assets::DeleteAssetRequest,
    check: &sanitize::FilenameCheck,
    folder: &str,
    r: Result<String, Reply>,
)
    requires
        call_ensures(assets::delete_asset, (body, check, folder), r),
    ensures
        r matches Ok(p) ==> p@ == assets::asset_path(folder@, body.category@, body.filename@)
            && check.valid,
{
}

/// The assets of a character are those in the folder of its name and their category.
pub proof fn character_assets_are_told(
    folder: &assets::CharacterFolder,
    names: &Vec<String>,
    model: &str,
    r: Json,
    v: Vec<Json>,
)
    requires
        call_ensures(assets::character_listing, (folder, names), r),
        call_ensures(assets::character_models, (folder, model, names), v),
    ensures
        r@ == Tree::Array(
            assets::name_items(
                "/characters/"@ + folder.name@ + "/"@ + folder.category@ + "/"@,
                json::texts(names@),
            ),
        ),
        json::trees(v@) == assets::model_names(
            "characters/"@ + folder.name@ + "/"@ + folder.category@ + "/"@ + model@ + "/"@,
            json::texts(names@),
        ),
{
}

/// An avatar is stored among the avatars under the name that it replaces, and then the old
/// thumbnail of that name is outdated; a new one is named after the time and outdates nothing.
pub proof fn avatar_is_stored(
    form: &avatars::UploadForm,
    folder: &str,
    millis: u128,
    r: Result<avatars::AvatarUpload, Reply>,
    name: Seq<char>,
)
    requires
        call_ensures(avatars::upload_avatar, (form, folder, millis), r),
    ensures
        r is Ok <==> (form.avatar matches Some(b) && b@.len() > 0),
        r matches Ok(u) ==> u.path@ == paths::joined_path(folder@, u.name@),
        r matches Ok(u) ==> (json::string_opt(form.overwrite_name) == Some(name) ==> u.name@
            == sanitize::sanitized(name, ""@) && json::string_opt(u.outdated) == Some(
            sanitize::sanitized(name, ""@),
        )),
        r matches Ok(u) ==> (form.overwrite_name is None ==> u.name@ == text::decimal(millis as nat)
            + ".png"@ && u.outdated is None),
{
}

/// An avatar is deleted under a safe name only.
pub proof fn avatar_is_deleted_by_name(
    body: &avatars::DeleteAvatarRequest,
    r: Result<String, Reply>,
)
    requires
        call_ensures(avatars::delete_avatar, (body,), r),
    ensures
        r matches Ok(n) ==> n@ == body.avatar@,
        body.avatar@.contains('/') || body.avatar@.contains('\\') ==> (r matches Err(e)
            && e@.status == 400),
{
}

/// A picture is cut to the middle of what it was scaled to, and an avatar that is resized is of the
/// size of avatars.
pub proof fn avatar_is_cut_to_the_middle(
    kept: avatars::Region,
    resize: bool,
    size: (u32, u32),
    scaled: u32,
    target: u32,
    at: u32,
)
    requires
        call_ensures(avatars::final_size, (kept, resize), size),
        call_ensures(avatars::centre_offset, (scaled, target), at),
    ensures
        size == if resize {
            (512u32, 768u32)
        } else {
            (kept.width, kept.height)
        },
        scaled >= target ==> 0 <= (scaled - target) - 2 * at <= 1,
        scaled < target ==> at == 0,
{
}

/// Images are listed from the folder that the client names, sorted as the client says, by their
/// date where nothing is said.
pub proof fn images_are_listed_from_folder(
    body: &images::ListImagesRequest,
    folder: &str,
    table: &Vec<crate::numbers::TextNumber>,
    r: Result<images::Listing, Reply>,
    name: Seq<char>,
)
    requires
        call_ensures(images::list_images, (body, folder, table), r),
        json::string_opt(body.folder) == Some(name),
        name.len() > 0,
    ensures
        r matches Ok(x) && x.directory@ == paths::joined_path(
            folder@,
            sanitize::sanitized(name, ""@),
        ) && (body.sort_field matches Some(f) ==> x.sort_field@ == f@)
            && (body.sort_order matches Some(
            o,
        ) ==> x.sort_order@ == o@) && (body.sort_field is None ==> x.sort_field@ == "date"@) && (
        body.sort_order is None ==> x.sort_order@ == "asc"@),
{
}

/// The images are told in their order, or the other way round where they descend.
pub proof fn images_are_told_in_order(names: &Vec<String>, descending: bool, r: Reply, i: int)
    requires
        call_ensures(images::listing_reply, (Some(names), descending), r),
        0 <= i < names@.len(),
    ensures
        r@.status == 200,
        r@.payload matches web::PayloadView::Json(Tree::Array(v)) && v.len() == names@.len() && v[i]
            == Tree::Text(
            if descending {
                names@[names@.len() - 1 - i]@
            } else {
                names@[i]@
            },
        ),
{
    assert(json::texts(names@)[i] == names@[i]@);
    if descending {
        assert(json::texts(names@).reverse()[i] == names@[names@.len() - 1 - i]@);
    }
}

/// An image is stored under its character and its name with what its data stand for, and the client
/// is told where.
pub proof fn image_is_stored(
    body: &images::UploadImageRequest,
    formats: &Vec<String>,
    root: &str,
    folder: &str,
    millis: u128,
    r: Result<images::ImageUpload, Reply>,
    bytes: Seq<u8>,
)
    requires
        call_ensures(images::upload_image, (body, formats, root, folder, millis), r),
        json::texts(formats@).contains(body.format@),
        body.image@.len() > 0,
        crate::base64_text::stands_for(body.image@, bytes),
    ensures
        r matches Ok(u) && u.bytes@ == bytes && u.path@ == images::image_path(
            folder@,
            json::string_opt(body.ch_name),
            images::image_name(json::string_opt(body.filename), body.format@, millis),
        ) && u.reply@.status == 200 && u.reply@.payload is Json && u.reply@.payload->Json_0.text_at(
            "path"@,
        ) == Some(paths::client_path(root@, u.path@)),
{
    assert(crate::base64_text::base64_of(bytes) == crate::base64_text::base64_of(bytes));
    reveal_with_fuel(json::position, 2);
}

/// An attachment is stored under its name with what its data stand for, and the client is told
/// where.
pub proof fn attachment_is_stored(
    body: &files::UploadFileRequest,
    check: &sanitize::FilenameCheck,
    root: &str,
    folder: &str,
    r: Result<files::Upload, Reply>,
    bytes: Seq<u8>,
)
    requires
        call_ensures(files::upload_file, (body, check, root, folder), r),
        body.name@.len() > 0,
        body.data@.len() > 0,
        check.valid,
        crate::base64_text::stands_for(body.data@, bytes),
    ensures
        r matches Ok(u) && u.path@ == paths::joined_path(folder@, body.name@) && u.bytes@ == bytes
            && u.response.path@ == paths::client_path(root@, u.path@),
{
    assert(crate::base64_text::base64_of(bytes) == crate::base64_text::base64_of(bytes));
}

/// An attachment is deleted where the client says, and only among the attachments.
pub proof fn attachment_is_deleted_inside(
    body: &files::DeleteFileRequest,
    root: &str,
    folder: &str,
    r: Result<String, Reply>,
)
    requires
        call_ensures(files::delete_file, (body, root, folder), r),
        body.path@.len() > 0,
    ensures
        r is Ok <==> paths::lies_under(paths::joined_path(root@, body.path@), folder@),
        r matches Ok(p) ==> p@ == paths::joined_path(root@, body.path@),
        r matches Err(e) ==> e@.status == 400,
{
}

/// A backup is found among the backups under its name.
pub proof fn backup_is_found_by_name(
    body: &backups::ChatBackupRequest,
    folder: &str,
    prefix: &str,
    r: Result<backups::BackupTarget, Reply>,
    name: Seq<char>,
)
    requires
        call_ensures(backups::find_chat_backup, (body, folder, prefix), r),
        json::string_opt(body.name) == Some(name),
        name.len() > 0,
    ensures
        r matches Ok(t) ==> t.path@ == paths::joined_path(folder@, sanitize::sanitized(name, ""@))
            && text::begins(t.base_name@, prefix@),
        r matches Err(e) ==> e@.status == 400,
{
}

/// A backup is downloaded with its bytes under its name.
pub proof fn backup_is_downloaded(target: &backups::BackupTarget, data: Option<Vec<u8>>, r: Reply)
    requires
        call_ensures(backups::download_chat_backup, (target, data), r),
    ensures
        data matches Some(b) ==> r@.status == 200 && r@.payload == web::PayloadView::Bytes(
            "application/octet-stream"@,
            b@,
        ) && r@.headers == seq![("Content-Disposition"@, backups::attachment(target.base_name@))],
        data is None ==> r@.status == 500,
{
    assert(data is Some ==> r@.headers =~= seq![
        ("Content-Disposition"@, backups::attachment(target.base_name@)),
    ]);
}

/// A chat is saved where nothing else changed it meanwhile: the integrity that its header tells is
/// compared unless the client forces the save.
pub proof fn integrity_is_compared(
    chat: &Vec<Json>,
    check: bool,
    force: Option<bool>,
    r: Option<String>,
    intact: bool,
    written: bool,
    reply: Reply,
)
    requires
        call_ensures(chats::integrity_to_check, (chat, check, force), r),
        call_ensures(chats::try_save_chat, (intact, written), reply),
    ensures
        json::string_opt(r) == if check && force != Some(true) {
            chats::integrity_of(json::trees(chat@))
        } else {
            None
        },
        !intact ==> reply@.status == 400,
        intact && !written ==> reply@.status == 500,
        intact && written ==> reply@.status == 200,
{
}

/// A chat is exported from the folder of its character, or from the chats of groups.
pub proof fn chat_is_exported_from_folder(
    body: &chats::ExportChatRequest,
    r: Result<chats::ChatPlace, Reply>,
    file: Seq<char>,
    avatar: Seq<char>,
)
    requires
        call_ensures(chats::export_chat, (body,), r),
        json::string_opt(body.file) == Some(file),
        json::string_opt(body.avatar_url) == Some(avatar),
        file.len() > 0 && avatar.len() > 0,
    ensures
        r is Ok <==> !avatar.contains('/') && !avatar.contains('\0'),
        r matches Ok(p) ==> p.file@ == file && json::string_opt(p.folder) == if body.is_group
            == Some(true) {
            None
        } else {
            Some(chats::folder_of(avatar))
        },
{
}

/// A chat of a group is saved and read under the group's identifier of it.
pub proof fn group_chat_has_one_file(
    saved: &chats::GroupSaveRequest,
    read: &chats::GroupIdRequest,
    a: Result<chats::ChatPlace, Reply>,
    b: Result<String, Reply>,
    id: Seq<char>,
)
    requires
        call_ensures(chats::group_save_chat, (saved,), a),
        call_ensures(chats::group_chat_file, (read,), b),
        json::string_opt(saved.id) == Some(id),
        json::string_opt(read.id) == Some(id),
        id.len() > 0,
        saved.chat is Some,
    ensures
        a matches Ok(p) && p.folder is None && p.file@ == sanitize::sanitized(id + ".jsonl"@, ""@),
        b matches Ok(f) && f@ == sanitize::sanitized(id + ".jsonl"@, ""@),
{
}

/// A new character's card is made of the form under the character's name, and its file bears the
/// name that is wished for, or a free one made of the character's.
pub proof fn character_is_created(
    body: &Json,
    extras: &writes::FormExtras,
    stamp: &str,
    taken: &Vec<String>,
    r: Result<writes::NewCharacter, Reply>,
    name: Seq<char>,
)
    requires
        call_ensures(writes::create_character, (body, extras, stamp, taken), r),
        body@.text_at("ch_name"@) == Some(name),
    ensures
        r matches Ok(c) ==> c.card@.get("data"@) is Some && c.card@.get("data"@)->0.text_at("name"@)
            == Some(sanitize::sanitized(name, ""@)),
        r matches Ok(c) ==> (body@.get("file_name"@) is None ==> !json::texts(taken@).contains(
            c.file_name@ + ".png"@,
        ) && text::begins(c.file_name@, sanitize::sanitized(name, ""@))),
        r matches Err(e) ==> e@.status == 400,
{
    let safe = sanitize::sanitized(name, ""@);
    if let Ok(c) = r {
        let form = charx::member_set(body@, "ch_name"@, json::txt(safe));
        json::put_reads(body@->Object_0, "ch_name"@, json::txt(safe), "ch_name"@);
        assert(form.text_at("ch_name"@) == Some(safe));
        crate::characters::card_laws::form_fills_data(
            form,
            web::owned_tree(extras.base),
            web::owned_tree(extras.extensions),
            extras.talkativeness@,
            extras.depth@,
            stamp@,
        );
        if body@.get("file_name"@) is None {
            let i = choose|i: nat|
                {
                    &&& c.file_name@ == #[trigger] crate::naming::numbered(safe, i)
                    &&& !json::texts(taken@).contains(c.file_name@ + ".png"@)
                    &&& forall|j: nat|
                        j < i ==> json::texts(taken@).contains(
                            #[trigger] crate::naming::numbered(safe, j) + ".png"@,
                        )
                };
            assert(crate::naming::numbered(safe, i).subrange(0, safe.len() as int) =~= safe);
        }
    }
}

/// A character is edited in the file that the client names.
pub proof fn character_is_edited_in_its_file(
    body: &Json,
    extras: &writes::FormExtras,
    stamp: &str,
    r: Result<writes::NewCharacter, Reply>,
    avatar: Seq<char>,
)
    requires
        call_ensures(writes::edit_character, (body, extras, stamp), r),
        body@.text_at("avatar_url"@) == Some(avatar),
    ensures
        r matches Ok(c) ==> c.file_name@ == writes::target_of(avatar) && c.card@
            == writes::edited_card(body@, *extras, stamp@),
        body@.text_at("ch_name"@) == Some("."@) ==> r is Err,
        avatar.contains('/') ==> r is Err,
{
    reveal_strlit(".");
}

/// A character is renamed to the new name: its file is a free one of that name.
pub proof fn character_is_renamed(
    body: &helpers::RenameRequest,
    taken: &Vec<String>,
    r: Result<writes::Renaming, Reply>,
)
    requires
        call_ensures(writes::rename_character, (body, taken), r),
    ensures
        r matches Ok(x) ==> {
            let name = sanitize::sanitized(body.new_name@, ""@);
            &&& x.new_name@ == name
            &&& crate::paths::path_stem(body.avatar_url@) == Some(x.old_internal_name@)
                || crate::paths::path_stem(body.avatar_url@) is None && x.old_internal_name@.len()
                == 0
            &&& !json::texts(taken@).contains(x.new_internal_name@ + ".png"@)
            &&& text::begins(x.new_internal_name@, name)
        },
        r matches Err(e) ==> e@.status == 400,
{
    if let Ok(x) = r {
        let name = sanitize::sanitized(body.new_name@, ""@);
        let i = choose|i: nat|
            {
                &&& x.new_internal_name@ == #[trigger] crate::naming::numbered(name, i)
                &&& !json::texts(taken@).contains(x.new_internal_name@ + ".png"@)
                &&& forall|j: nat|
                    j < i ==> json::texts(taken@).contains(
                        #[trigger] crate::naming::numbered(name, j) + ".png"@,
                    )
            };
        assert(crate::naming::numbered(name, i).subrange(0, name.len() as int) =~= name);
    }
}

/// A character is deleted under a safe name only.
pub proof fn character_is_deleted_by_name(body: &helpers::DeleteRequest, r: Result<(), Reply>)
    requires
        call_ensures(writes::delete_character, (body,), r),
    ensures
        r is Ok <==> reads::good_avatar(body.avatar_url@) && sanitize::sanitized(
            body.avatar_url@,
            ""@,
        ) == body.avatar_url@,
        body.avatar_url@.contains('/') ==> r is Err,
{
}

/// Which importer takes a file is told by its type; a file of another type, or none, is refused.
pub proof fn importer_is_told_by_type(
    body: &Json,
    file: Option<&Vec<u8>>,
    r: Result<writes::ImportKind, Reply>,
    kind: Seq<char>,
)
    requires
        call_ensures(writes::import_character, (body, file), r),
        body@.text_at("file_type"@) == Some(kind),
        file is Some && file->0@.len() > 0,
    ensures
        kind == "png"@ ==> r == Ok::<writes::ImportKind, Reply>(writes::ImportKind::Png),
        kind == "json"@ ==> r == Ok::<writes::ImportKind, Reply>(writes::ImportKind::Json),
        kind == "yaml"@ || kind == "yml"@ ==> r == Ok::<writes::ImportKind, Reply>(
            writes::ImportKind::Yaml,
        ),
        kind == "charx"@ ==> r == Ok::<writes::ImportKind, Reply>(writes::ImportKind::CharX),
        kind == "byaf"@ ==> r == Ok::<writes::ImportKind, Reply>(writes::ImportKind::Byaf),
        kind != "png"@ && kind != "json"@ && kind != "yaml"@ && kind != "yml"@ && kind != "charx"@
            && kind != "byaf"@ ==> (r matches Err(e) && e@.status == 400),
{
    reveal_strlit("png");
    reveal_strlit("json");
    reveal_strlit("yaml");
    reveal_strlit("yml");
    reveal_strlit("charx");
    reveal_strlit("byaf");
    assert("png"@.len() == 3 && "png"@[0] == 'p' && "yml"@.len() == 3 && "yml"@[0] == 'y');
    assert("json"@.len() == 4 && "json"@[0] == 'j' && "yaml"@.len() == 4 && "yaml"@[0] == 'y'
        && "byaf"@.len() == 4 && "byaf"@[0] == 'b' && "charx"@.len() == 5);
}

/// A card from a picture keeps everything but its name, which is made safe.
pub proof fn card_from_picture_is_kept(
    card: &Json,
    r: charx::NamedCard,
    f: Seq<(Seq<char>, Tree)>,
    k: Seq<char>,
    n: Seq<char>,
)
    requires
        call_ensures(writes::import_from_png, (card,), r),
        card@ == Tree::Object(f),
    ensures
        writes::name_on_card(card@) == n ==> r.name@ == sanitize::sanitized(n, ""@),
        r.card@.text_at("name"@) == Some(r.name@),
        k != "name"@ ==> r.card@.get(k) == card@.get(k),
{
    json::put_reads(f, "name"@, json::txt(r.name@), "name"@);
    json::put_reads(f, "name"@, json::txt(r.name@), k);
}

/// A character is exported as a picture with its bytes, or as JSON with its text, as an attachment
/// under its name.
pub proof fn character_is_exported(avatar: &str, data: Vec<u8>, a: Reply, b: Reply, name: Seq<char>)
    requires
        call_ensures(writes::export_picture, (avatar, data), a),
        call_ensures(writes::export_json, (avatar, data), b),
        paths::path_stem(avatar@) == Some(name),
    ensures
        a@.status == 200 && b@.status == 200,
        a@.payload == web::PayloadView::Bytes("image/png"@, data@),
        b@.payload == web::PayloadView::Bytes("application/json; charset=utf-8"@, data@),
        a@.headers == seq![
            ("content-disposition"@, "attachment; filename=\""@ + name + ".png"@ + "\""@),
        ],
        b@.headers == seq![
            ("content-disposition"@, "attachment; filename=\""@ + name + ".json"@ + "\""@),
        ],
{
    assert(a@.headers =~= seq![
        ("content-disposition"@, "attachment; filename=\""@ + name + ".png"@ + "\""@),
    ]);
    assert(b@.headers =~= seq![
        ("content-disposition"@, "attachment; filename=\""@ + name + ".json"@ + "\""@),
    ]);
}

/// A picture is exported for the format of pictures, JSON for the format of JSON, and nothing for
/// any other.
pub proof fn format_tells_export(format: &str, r: Result<bool, Reply>)
    requires
        call_ensures(writes::exports_picture, (format,), r),
    ensures
        format@ == "png"@ ==> r == Ok::<bool, Reply>(true),
        format@ == "json"@ ==> r == Ok::<bool, Reply>(false),
        format@ != "png"@ && format@ != "json"@ ==> (r matches Err(e) && e@.status == 400),
{
    reveal_strlit("png");
    reveal_strlit("json");
    assert("png"@.len() == 3 && "json"@.len() == 4);
}

/// A character from an archive keeps the file that it is to replace, and otherwise has a free one
/// of its name; its assets are kept where it is new.
pub proof fn archive_is_imported_as(
    preserved: Option<&str>,
    name: &str,
    taken: &Vec<String>,
    body: &Json,
    r: byaf_import::ByafImport,
    user: Seq<char>,
)
    requires
        call_ensures(byaf_import::import_from_byaf, (preserved, name, taken, body), r),
    ensures
        preserved matches Some(p) ==> r.file_name@ == p@ && !r.keeps_assets,
        preserved is None ==> r.keeps_assets && !json::texts(taken@).contains(
            r.file_name@ + ".png"@,
        ),
        body@.text_at("user_name"@) == Some(user) ==> r.user_name@ == user,
{
    if preserved is None {
        let i = choose|i: nat|
            {
                &&& r.file_name@ == #[trigger] crate::naming::numbered(name@, i)
                &&& !json::texts(taken@).contains(r.file_name@ + ".png"@)
                &&& forall|j: nat|
                    j < i ==> json::texts(taken@).contains(
                        #[trigger] crate::naming::numbered(name@, j) + ".png"@,
                    )
            };
    }
}

/// The picture of a character from an archive is its first one.
pub proof fn archive_picture_is_first(
    parsed: &byaf::ByafParseResult,
    default_avatar: &Vec<u8>,
    r: &Vec<u8>,
)
    requires
        call_ensures(byaf_import::avatar_of, (parsed, default_avatar), r),
    ensures
        parsed.images@.len() > 0 ==> r@ == parsed.images@[0].image@,
        parsed.images@.len() == 0 ==> r@ == default_avatar@,
{
}

/// A chat is imported into the folder of its character, under the name of the character, line by
/// line where the file says that it is made of lines.
pub proof fn chat_is_imported_into_folder(
    form: &chat_import::ChatImportForm,
    r: Result<chat_import::ChatImport, Reply>,
)
    requires
        call_ensures(chat_import::import_chat, (form,), r),
    ensures
        r matches Ok(x) ==> x.folder@ == chats::folder_of(form.avatar_url@) && (
        form.character_name@.len() > 0 ==> x.character_name@ == form.character_name@) && x.by_line
            == (form.file_type@ == "jsonl"@) && (form.file_type@ == "json"@ || form.file_type@
            == "jsonl"@) && form.has_file,
        !form.has_file ==> (r matches Err(e) && e@.status == 400),
{
}

/// What the client is told of the files that were made of a chat.
pub proof fn imported_files_are_told(
    names: &Vec<String>,
    r: Reply,
    name: &str,
    stamp: &str,
    f: String,
)
    requires
        call_ensures(chat_import::import_reply, (names,), r),
        call_ensures(chat_import::imported_file_name, (name, stamp), f),
    ensures
        r@.status == 200 && r@.payload is Json,
        r@.payload->Json_0.flag_at("res"@) == Some(true),
        r@.payload->Json_0.items_at("fileNames"@) == Some(json::text_items(json::texts(names@))),
        f@ == name@ + " - "@ + stamp@ + " imported.jsonl"@,
{
    reveal_strlit("res");
    reveal_strlit("fileNames");
    assert("res"@.len() == 3 && "fileNames"@.len() == 9);
    reveal_with_fuel(json::position, 3);
}

/// What is downloaded is named after what it is: a lorebook and a character of Chub's after the
/// last part of their address and the name on the card, others after their identifier.
pub proof fn downloads_are_named(
    id: &str,
    data: Vec<u8>,
    kind: Option<String>,
    address: String,
    a: Result<content::DownloadResult, Reply>,
    b: Result<content::DownloadResult, Reply>,
    c: Result<content::DownloadResult, Reply>,
)
    requires
        call_ensures(
            content::download_chub_lorebook,
            (
                id,
                Some(
                    content::FetchedFile {
                        status: 200,
                        media_type: kind,
                        final_url: address,
                        data: Some(data),
                    },
                ),
            ),
            a,
        ),
        call_ensures(
            content::download_risu_character,
            (
                id,
                Some(
                    content::FetchedFile {
                        status: 200,
                        media_type: kind,
                        final_url: address,
                        data: Some(data),
                    },
                ),
            ),
            b,
        ),
        call_ensures(
            content::download_aicc_character,
            (
                id,
                Some(
                    content::FetchedFile {
                        status: 200,
                        media_type: kind,
                        final_url: address,
                        data: Some(data),
                    },
                ),
            ),
            c,
        ),
    ensures
        a matches Ok(x) && x.buffer@ == data@ && x.file_name@ == sanitize::sanitized(
            text::pieces(id@, '/').last(),
            ""@,
        ) + ".json"@,
        b matches Ok(x) && x.buffer@ == data@ && x.file_name@ == sanitize::sanitized(id@, ""@)
            + ".png"@ && json::string_opt(x.file_type) == Some("image/png"@),
        c matches Ok(x) && x.buffer@ == data@ && x.file_name@ == sanitize::sanitized(id@, ""@)
            + ".png"@ && (kind is None ==> json::string_opt(x.file_type) == Some("image/png"@)),
{
}

/// What is asked of the sites where characters are: each by the identifier of the character.
pub proof fn sites_are_asked_by_identifier(
    id: &str,
    a: web::Outgoing,
    b: web::Outgoing,
    c: web::Outgoing,
)
    requires
        call_ensures(content::pygmalion_request, (id,), a),
        call_ensures(content::aicc_request, (id,), b),
        call_ensures(content::risu_request, (id,), c),
    ensures
        a@.url == "https://server.pygmalion.chat/api/export/character/"@ + id@ + "/v2"@,
        b@.url == "https://aicharactercards.com/wp-json/pngapi/v1/image/"@ + id@,
        c@.url == "https://realm.risuai.net/api/v1/download/png-v3/"@ + id@
            + "?non_commercial=true"@,
        a@.method == web::Method::Get && b@.method == web::Method::Get && c@.method
            == web::Method::Get,
{
}

/// A character of Chub's is made into its card, by the creator whom its address names.
pub proof fn chub_character_is_made(
    id: &str,
    u: web::Upstream,
    r: Result<content::DownloadedCard, Reply>,
    t: Seq<char>,
    m: Tree,
    creator: Seq<char>,
    rest: Seq<char>,
)
    requires
        call_ensures(content::download_chub_character, (id, u), r),
        u@ == web::UpstreamView::Got(200, t, Some(m)),
        id@ == creator + seq!['/'] + rest,
        !creator.contains('/'),
    ensures
        r matches Ok(c) && c.card@ == content::chub_card(m, creator),
{
    crate::text_laws::first_piece_is_cut(creator, '/', rest);
}

/// What is told of a loose file is its own name, its mark, its folder where that is asked for, and
/// its size and time.
pub proof fn record_tells_of_its_file(
    path: &str,
    with_parent: bool,
    size: Option<u64>,
    mtime: Option<Json>,
    r: data_maid::SanitizedRecord,
    name: Seq<char>,
)
    requires
        call_ensures(data_maid::sanitize_record, (path, with_parent, size, mtime), r),
        paths::last_name(path@) == Some(name),
    ensures
        r.name@ == name,
        r.hash@ == data_maid::mark(path@),
        r.size == size && r.mtime == mtime,
        !with_parent ==> r.parent is None,
        with_parent ==> json::string_opt(r.parent) == data_maid::parent_name(path@),
{
}

/// Every image and every file that a message or a chat refers to is among the references.
pub proof fn references_are_collected(
    messages: &Vec<Json>,
    metadata: &Vec<Json>,
    settings: Option<&Json>,
    a: Vec<String>,
    b: Vec<String>,
    s: Seq<char>,
)
    requires
        call_ensures(data_maid::image_references, (messages, metadata), a),
        call_ensures(data_maid::file_references, (messages, metadata, settings), b),
    ensures
        data_maid::images_in(json::trees(messages@)).contains(s) || data_maid::backgrounds_in(
            json::trees(metadata@),
        ).contains(s) ==> json::texts(a@).contains(s),
        data_maid::files_in(json::trees(messages@)).contains(s) || data_maid::attachments_in(
            json::trees(metadata@),
        ).contains(s) || data_maid::settings_files(json::tree_opt(settings)).contains(s)
            ==> json::texts(b@).contains(s),
{
    let x = data_maid::images_in(json::trees(messages@));
    let y = data_maid::backgrounds_in(json::trees(metadata@));
    joined_holds(x, y, s);
    let f = data_maid::files_in(json::trees(messages@));
    let g = data_maid::attachments_in(json::trees(metadata@));
    let h = data_maid::settings_files(json::tree_opt(settings));
    joined_holds(f, g, s);
    joined_holds(f + g, h, s);
}

proof fn joined_holds(a: Seq<Seq<char>>, b: Seq<Seq<char>>, s: Seq<char>)
    ensures
        a.contains(s) || b.contains(s) ==> (a + b).contains(s),
{
    if a.contains(s) {
        let i = choose|i: int| 0 <= i < a.len() && a[i] == s;
        assert((a + b)[i] == s);
    }
    if b.contains(s) {
        let i = choose|i: int| 0 <= i < b.len() && b[i] == s;
        assert((a + b)[a.len() + i] == s);
    }
}

/// This server tells its version, its revision with the date of it, and its branch; it is the
/// latest unless both sides are known and differ.
pub proof fn version_is_made_of_sources(
    s: &global::VersionSources,
    r: global::VersionInfo,
    v: Seq<char>,
)
    requires
        call_ensures(global::compute_version_info, (s,), r),
        json::string_opt(s.version_override) == Some(v) || s.version_override is None
            && json::string_opt(s.package_version) == Some(v),
    ensures
        r.pkg_version@ == v,
        r.agent@ == "SillyTavern:"@ + v + ":Cohee#1207"@,
        s.revision_override matches Some(x) ==> json::string_opt(r.git_revision) == Some(x@),
        s.revision_override is None ==> json::string_opt(r.git_revision) == json::string_opt(
            s.revision,
        ),
        s.branch_override matches Some(x) ==> json::string_opt(r.git_branch) == Some(x@),
        s.branch_override is None ==> json::string_opt(r.git_branch) == json::string_opt(s.branch),
        r.git_revision is None ==> r.commit_date is None,
        r.is_latest == (s.local_latest is None || s.remote_latest is None || s.local_latest->0@
            == s.remote_latest->0@),
{
}

/// A layout of windows is saved under its name.
pub proof fn layout_is_saved_by_name(body: &Json, r: Result<String, Reply>, name: Seq<char>)
    requires
        call_ensures(moving_ui::save_moving_ui, (body,), r),
        body@.text_at("name"@) == Some(name),
    ensures
        name.len() > 0 ==> (r matches Ok(f) && f@ == sanitize::sanitized(name + ".json"@, ""@)),
        name.len() == 0 ==> (r matches Err(e) && e@.status == 400),
{
}

/// A group is edited and deleted in the file of its identifier, and edited as the client says.
pub proof fn group_has_one_file(
    body: &Json,
    a: Result<groups::GroupWrite, Reply>,
    b: Result<String, Reply>,
    id: Seq<char>,
)
    requires
        call_ensures(groups::edit_group, (Some(body),), a),
        call_ensures(groups::delete_group, (Some(body),), b),
        body@.text_at("id"@) == Some(id),
        id.len() > 0,
        !id.contains('/'),
        !id.contains('\0'),
    ensures
        a matches Ok(w) && w.file_name@ == sanitize::sanitized(id + ".json"@, ""@) && w.group@
            == groups::modern(body@),
        b matches Ok(f) && f@ == sanitize::sanitized(id + ".json"@, ""@),
{
}

/// A new group is made of what the client says.
pub proof fn group_is_created(body: &Json, id: &str, r: Result<Json, Reply>)
    requires
        call_ensures(groups::create_group, (Some(body), id), r),
    ensures
        !(body@ is Null) ==> (r matches Ok(g) && g@ == Tree::Object(
            groups::new_group(groups::modern(body@), id@),
        )),
        body@ is Null ==> (r matches Err(e) && e@.status == 400),
{
}

/// An address is imported from where it leads, and refused where it leads nowhere that is known.
pub proof fn address_is_imported(
    body: &content::ImportUrlRequest,
    listed: &Vec<String>,
    r: Result<content::Source, Reply>,
    url: Seq<char>,
)
    requires
        call_ensures(content::import_url, (body, listed), r),
    ensures
        json::string_opt(body.url) == Some(url) && url.len() > 0 ==> (match content::source_at(
            url,
            content::host_of(url),
            content::parts_of(url),
            json::texts(listed@),
        ) {
            Some(s) => r matches Ok(x) && x@ == s,
            None => r matches Err(e) && e@.status == 404,
        }),
        body.url is None ==> (r matches Err(e) && e@.status == 400),
{
}

/// An identifier is imported from the site that it names.
pub proof fn identifier_is_imported(
    body: &content::ImportUuidRequest,
    r: Result<content::Source, Reply>,
    id: Seq<char>,
    kind: &'static str,
    shown: &str,
)
    requires
        call_ensures(content::import_uuid, (body,), r),
        call_ensures(content::uuid_type, (shown,), kind),
    ensures
        json::string_opt(body.url) == Some(id) && id.len() > 0 ==> (r matches Ok(x) ==> Some(x@)
            == content::source_named(
            id,
            crate::outside::regex_groups(content::perchance_pattern(), id) is Some,
        )),
        kind@ == if text::occurs(shown@, "lorebook"@) {
            "lorebook"@
        } else {
            "character"@
        },
{
}

/// What a source is: a lorebook where it is one of Chub's, a character everywhere else.
pub proof fn source_tells_its_kind(s: &content::Source, r: &'static str)
    requires
        call_ensures(content::Source::content_type, (s,), r),
    ensures
        s is ChubLorebook ==> r@ == "lorebook"@,
        !(s is ChubLorebook) ==> r@ == "character"@,
{
}

/// The lorebook of a project is fetched by the project's number.
pub proof fn lorebook_is_fetched_by_number(
    u: web::Upstream,
    r: Result<web::Outgoing, Reply>,
    t: Seq<char>,
    m: Tree,
    node: Tree,
    n: u64,
)
    requires
        call_ensures(content::chub_lorebook_download, (u,), r),
        u@ == web::UpstreamView::Got(200, t, Some(m)),
        m.get("node"@) == Some(node),
        node.get("id"@) == Some(json::num(n)),
        n <= i64::MAX,
    ensures
        r matches Ok(q) && q@.method == web::Method::Get && q@.url
            == "https://api.chub.ai/api/v4/projects/"@ + text::decimal(n as nat)
            + "/repository/files/raw%252Fsillytavern_raw.json/raw"@,
{
}

/// A character of Perchance's is made into its card under its name.
pub proof fn perchance_character_is_made(
    slug: &str,
    data: &Json,
    r: Result<content::DownloadedCard, Reply>,
    c: Tree,
    name: Seq<char>,
)
    requires
        call_ensures(content::download_perchance_character, (slug, Some(data)), r),
        data@.get("addCharacter"@) == Some(c),
        c.text_at("name"@) == Some(name),
    ensures
        r matches Ok(x) && x.card@ == content::perchance_card(c, slug@) && x.file_name@ == name
            + ".json"@,
{
}

/// What is loose among images and files is what nothing refers to; among folders of chats it is
/// what no character has, and among thumbnails what no picture has.
pub proof fn loose_is_what_nothing_has(
    service: &data_maid::DataMaidService,
    found: &Vec<String>,
    known: &Vec<String>,
    a: Vec<String>,
    b: Vec<String>,
    c: Vec<String>,
    s: Seq<char>,
)
    requires
        call_ensures(data_maid::DataMaidService::collect_images, (service, found, known), a),
        call_ensures(data_maid::DataMaidService::collect_files, (service, found, known), b),
        call_ensures(
            data_maid::DataMaidService::collect_loose_thumbnails,
            (service, known, found),
            c,
        ),
    ensures
        json::texts(a@).contains(s) <==> json::texts(found@).contains(s) && !json::texts(
            known@,
        ).contains(s),
        json::texts(b@).contains(s) <==> json::texts(found@).contains(s) && !json::texts(
            known@,
        ).contains(s),
        json::texts(c@).contains(s) <==> json::texts(found@).contains(s) && !json::texts(
            known@,
        ).contains(s),
{
    data_maid::loose_is_unknown(json::texts(found@), json::texts(known@), s);
}

/// A folder of chats is loose where no picture of a character bears its name, and a chat of groups
/// where no group knows it.
pub proof fn chats_are_loose_without_owner(
    service: &data_maid::DataMaidService,
    folders: &Vec<String>,
    characters: &Vec<String>,
    all: &Vec<Json>,
    a: Vec<String>,
    b: Vec<String>,
    s: Seq<char>,
)
    requires
        call_ensures(data_maid::DataMaidService::collect_chats, (service, folders, characters), a),
        call_ensures(data_maid::DataMaidService::collect_group_chats, (service, folders, all), b),
    ensures
        json::texts(a@).contains(s) <==> json::texts(folders@).contains(s) && !data_maid::stems(
            reads::with_extension(json::texts(characters@), "png"@),
        ).contains(s),
        json::texts(b@) == data_maid::loose_by_stem(
            reads::with_extension(json::texts(folders@), "jsonl"@),
            data_maid::known_chats(json::trees(all@)),
        ),
{
    data_maid::loose_is_unknown(
        json::texts(folders@),
        data_maid::stems(reads::with_extension(json::texts(characters@), "png"@)),
        s,
    );
}

/// As many recent chats are told as are wanted, with the pinned ones besides, where there are so
/// many; no chat that is left out precedes one that is told.
pub proof fn recent_chats_are_told(
    body: &search::RecentChatRequest,
    found: &Vec<search::RecentFile>,
    r: Vec<usize>,
    n: u64,
    k: usize,
    i: int,
)
    requires
        call_ensures(search::recent_chats, (body, found), r),
        web::owned_tree(body.max) == Some(json::num(n)),
    ensures
        body.pinned is None && n <= found@.len() ==> r@.len() == n,
        body.pinned is None && n > found@.len() ==> r@.len() == found@.len(),
        body.pinned matches Some(p) ==> (n + p@.len() <= found@.len() ==> r@.len() == n + p@.len()),
        search::in_order(found@, search::pins_of(*body), r@),
        k < found@.len() && !r@.contains(k) && 0 <= i < r@.len() && body.pinned is None
            ==> found@[r@[i] as int].mtime >= found@[k as int].mtime,
{
    if k < found@.len() && !r@.contains(k) && 0 <= i < r@.len() && body.pinned is None {
        assert(search::precedes(found@, search::pins_of(*body), r@[i] as int, k as int));
    }
}

/// A search tells of the chats in their order, and without a query of every one that can be read.
pub proof fn chats_are_found_in_order(
    v: Seq<search::SearchedChat>,
    c: search::SearchedChat,
    query: Seq<char>,
)
    ensures
        search::found_chats(Seq::empty(), v.push(c)) == if reads::info_of(
            c.content,
            false,
        ).file_name.len() > 0 {
            search::found_chats(Seq::empty(), v).push(reads::info_of(c.content, false))
        } else {
            search::found_chats(Seq::empty(), v)
        },
        search::found_chats(query, v).is_prefix_of(search::found_chats(query, v.push(c))),
        search::found_chats(query, v.push(c)).len() <= search::found_chats(query, v).len() + 1,
{
    assert(v.push(c).drop_last() =~= v);
}

/// The metadata of an image tell its own mark, its ratio, the time when it was added and the pixels
/// of its kind of thumbnail; it lies in no folder yet.
pub proof fn metadata_are_made(
    data: &[u8],
    ratio: json::Double,
    added: i64,
    sizes: &meta::ThumbnailDimensions,
    kind: &str,
    r: Result<meta::ImageMetadata, String>,
)
    requires
        call_ensures(meta::generate_image_metadata, (data, ratio, added, sizes, kind), r),
    ensures
        r is Ok <==> meta::size_of(data@) is Some,
        r matches Ok(m) ==> m.hash@ == crate::outside::sha256_of(data@) && m.aspect_ratio == ratio
            && m.added_timestamp == added && m.thumbnail_resolution == meta::pixels(*sizes, kind@)
            && m.folder_ids@.len() == 0 && m.mtime is None && (m.is_animated ==> m.dominant_color@
            == "#808080"@) && m.is_animated == meta::animated(
            crate::outside::image_media_type(data@)->0,
            data@,
        ),
{
}

/// An attribute of a card is set in the card that the client names, both beside the data and in
/// them; a field that the card has nowhere is refused.
pub proof fn attribute_is_set(
    card: &Json,
    body: &helpers::EditAttributeRequest,
    r: Result<Json, Reply>,
    d: Seq<(Seq<char>, Tree)>,
)
    requires
        call_ensures(writes::edit_character_attribute, (Some(card), body), r),
        card@.get("data"@) == Some(Tree::Object(d)),
    ensures
        r is Ok <==> card@.get(body.field@) is Some || Tree::Object(d).get(body.field@) is Some,
        r matches Ok(c) ==> c@ == writes::attribute_set(card@, body.field@, body.value@),
        r matches Err(e) ==> e@.status == 400,
{
}

/// A card is updated where it is then of a known format, and refused with the reason where not.
pub proof fn update_is_checked(
    card: &Json,
    update: &Json,
    version: Option<u64>,
    r: Result<Json, Reply>,
)
    requires
        call_ensures(writes::merge_character_attributes, (Some(card), update, version), r),
    ensures
        r is Ok <==> crate::characters::validator::verdict(
            writes::updated_card(card@, update@),
            version,
        ).0 is Some,
        r matches Ok(c) ==> c@ == writes::updated_card(card@, update@),
        r matches Err(e) ==> e@.status == 400,
{
}

/// The card that an update is for is named by its avatar.
pub proof fn updated_card_is_named(update: &Json, r: Result<String, Reply>, avatar: Seq<char>)
    requires
        call_ensures(writes::check_update, (update,), r),
        update@.text_at("avatar"@) == Some(avatar) || update@.get("avatar"@) is None
            && update@.text_at("avatar_url"@) == Some(avatar),
    ensures
        r is Ok <==> avatar.len() > 0 && !avatar.contains('/') && !avatar.contains('\0'),
        r matches Ok(a) ==> a@ == avatar,
{
}

/// A sound that was fetched is given in its type; a failure is told.
pub proof fn fetched_sound_is_given(d: web::Download, media: &str, r: Reply, s: u16, b: Vec<u8>)
    requires
        call_ensures(web::relay_bytes, (d, media), r),
    ensures
        d == web::Download::Got(s, Some(b)) && 200 <= s < 300 ==> r@.status == 200 && r@.payload
            == web::PayloadView::Bytes(media@, b@),
        d is Failed ==> r@.status == 500,
{
}

/// The Horde is asked for what each question is about.
pub proof fn horde_is_asked_about(
    a: web::Outgoing,
    b: web::Outgoing,
    c: web::Outgoing,
    d: web::Outgoing,
    e: Result<web::Outgoing, Reply>,
    f: Result<web::Outgoing, Reply>,
    cancelled: &crate::horde::CancelTaskRequest,
    asked: &crate::horde::TaskStatusRequest,
    id: Seq<char>,
)
    requires
        call_ensures(crate::horde::text_workers, (), a),
        call_ensures(crate::horde::text_models, (), b),
        call_ensures(crate::horde::horde_status, (), c),
        call_ensures(crate::horde::sd_models, (), d),
        call_ensures(crate::horde::cancel_task, (cancelled,), e),
        call_ensures(crate::horde::task_status, (asked,), f),
        json::string_opt(cancelled.task_id) == Some(id),
        json::string_opt(asked.task_id) == Some(id),
        id.len() > 0,
    ensures
        a@.url == "https://aihorde.net/api/v2"@ + "/workers?type=text"@,
        b@.url == "https://aihorde.net/api/v2"@ + "/status/models?type=text"@,
        c@.url == "https://aihorde.net/api/v2"@ + "/status/heartbeat"@,
        d@.url == "https://aihorde.net/api/v2"@ + "/status/models?type=image"@,
        e matches Ok(q) && q@.method == web::Method::Delete
            && q@.url == "https://aihorde.net/api/v2"@
            + ("/generate/text/status/"@ + id),
        f matches Ok(q) && q@.method == web::Method::Get && q@.url == "https://aihorde.net/api/v2"@
            + ("/generate/text/status/"@ + id),
{
}

/// An extension that is gone is told of with its place, and a failure with its reason.
pub proof fn deletion_of_extension_is_told(path: &str, why: &str, a: Reply, b: Reply)
    requires
        call_ensures(extensions::delete_extension, (path, None), a),
        call_ensures(extensions::delete_extension, (path, Some(why)), b),
    ensures
        a@ == web::text_reply(200, "Extension has been deleted at "@ + path@),
        b@ == web::text_reply(500, "Server Error: "@ + why@),
{
}

/// The version of an extension is told with its branch and its commit.
pub proof fn extension_version_is_told(
    commit: &str,
    branch: &str,
    state: &extensions::RepoState,
    r: Reply,
)
    requires
        call_ensures(extensions::get_version, (Some(commit), branch, state), r),
    ensures
        r@ == web::json_reply(
            200,
            extensions::version_tree(branch@, commit@, state.is_up_to_date, state.remote_url@),
        ),
{
}

/// Where extensions are: those of everyone in their folder, the user's own in the user's.
pub proof fn extensions_have_their_folders<'a>(
    user: &'a str,
    everyone: &'a str,
    a: &'a str,
    b: &'a str,
)
    requires
        call_ensures(extensions::resolve_base_path, (user, everyone, true), a),
        call_ensures(extensions::resolve_base_path, (user, everyone, false), b),
    ensures
        a@ == everyone@,
        b@ == user@,
{
}

/// What is to be compared with the remote is what the remote's branch has behind a commit.
pub proof fn behind_is_counted_from_commit(commit: &str, branch: &str, r: String)
    requires
        call_ensures(extensions::behind_range, (commit, branch), r),
    ensures
        r@ == commit@ + "..origin/"@ + branch@,
{
}

/// What a repository says is heard without the white space around it, and its complaints are told.
pub proof fn repository_is_heard(
    args: &Vec<String>,
    out: String,
    complaint: String,
    a: Result<String, String>,
    b: Result<String, String>,
)
    requires
        call_ensures(
            extensions::git_in_dir,
            (args, &extensions::GitRun::Ended(true, out, complaint)),
            a,
        ),
        call_ensures(
            extensions::git_in_dir,
            (args, &extensions::GitRun::Ended(false, out, complaint)),
            b,
        ),
    ensures
        a matches Ok(s) && s@ == text::trimmed(out@),
        b matches Err(s) && s@ == "git "@ + text::joined(json::texts(args@), " "@) + ": "@
            + text::trimmed(complaint@),
{
}

/// What a server answers about its properties is told, and nothing where it does not answer.
pub proof fn properties_are_told(u: web::Upstream, r: Reply, s: u16, t: Seq<char>, j: Tree)
    requires
        call_ensures(crate::backends_text_completions::props_reply, (u,), r),
    ensures
        u@ == web::UpstreamView::Got(s, t, Some(j)) && 200 <= s < 300 ==> r@ == web::json_reply(
            200,
            j,
        ),
        u@ is Failed ==> r@ == web::json_reply(200, Tree::Object(Seq::empty())),
{
}

/// An image is deleted where the client says, if it lies inside and is there.
pub proof fn image_is_deleted_inside(
    body: &images::DeleteImageRequest,
    root: &str,
    a: Result<String, Reply>,
    inside: bool,
    found: bool,
    b: Result<(), Reply>,
)
    requires
        call_ensures(images::delete_image, (body, root), a),
        call_ensures(images::delete_check, (inside, found), b),
    ensures
        a matches Ok(p) ==> p@ == paths::joined_path(root@, body.path@),
        a is Ok <==> body.path@.len() > 0,
        b is Ok <==> inside && found,
        !inside ==> b->Err_0@.status == 400,
        inside && !found ==> b->Err_0@.status == 404,
{
}

/// The images that are asked for are several where several are named, and one where one is.
pub proof fn images_are_asked_for(
    body: &meta::GetMetadataRequest,
    r: Result<meta::MetadataPlan, Reply>,
    kind: String,
)
    requires
        call_ensures(meta::get_image_metadata, (body,), r),
        call_ensures(meta::thumbnail_kind, (body,), kind),
    ensures
        body.paths matches Some(v) ==> (r matches Ok(meta::MetadataPlan::Many(w)) && *w == v),
        body.paths is None && body.path is Some ==> (r matches Ok(meta::MetadataPlan::One(p))
            && Some(*p) == body.path),
        body.paths is None && body.path is None ==> (r matches Err(e) && e@.status == 400),
        body.thumbnail_type matches Some(t) ==> kind@ == t@,
        body.thumbnail_type is None ==> kind@ == "bg"@,
{
}

} // verus!
