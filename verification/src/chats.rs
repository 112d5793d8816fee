//! Chats with characters and groups: how they are stored, read, renamed, deleted and handed
//! out.

use crate::characters::helpers;
use crate::characters::reads;
use crate::characters::reads::ChatInfo;
use crate::json;
use crate::json::{Fields, Json};
use crate::paths;
use crate::sanitize;
use crate::secrets;
use crate::text;
use crate::web;
use crate::web::Reply;
use vstd::prelude::*;

pub use crate::chat_import::{
    flatten_chub_chat, import_agnai_chat, import_cai_chat, import_chat, import_kobold_lite_chat,
    import_ooba_chat, import_risu_chat,
};
pub use crate::chat_search::{
    recent_chats, search_chat, PinnedChat, RecentChatRequest, SearchChatRequest,
};

verus! {

/// A chat to be stored.
#[derive(Debug)]
pub struct SaveChatRequest {
    pub avatar_url: Option<String>,
    pub file_name: Option<String>,
    pub chat: Option<Vec<Json>>,
    pub force: Option<bool>,
}

/// A chat that is asked for.
#[derive(Debug)]
pub struct GetChatRequest {
    pub avatar_url: Option<String>,
    pub file_name: Option<String>,
}

/// A new name for a chat.
#[derive(Debug)]
pub struct RenameChatRequest {
    pub avatar_url: Option<String>,
    pub original_file: Option<String>,
    pub renamed_file: Option<String>,
    pub is_group: Option<bool>,
}

/// A chat to be deleted.
#[derive(Debug)]
pub struct DeleteChatRequest {
    pub avatar_url: Option<String>,
    pub chatfile: Option<String>,
}

/// A chat to be handed out.
#[derive(Debug)]
pub struct ExportChatRequest {
    pub file: Option<String>,
    pub avatar_url: Option<String>,
    pub is_group: Option<bool>,
    pub format: Option<String>,
    pub exportfilename: Option<String>,
}

/// The chat of a group.
#[derive(Debug)]
pub struct GroupIdRequest {
    pub id: Option<String>,
}

/// The chat of a group to be stored.
#[derive(Debug)]
pub struct GroupSaveRequest {
    pub id: Option<String>,
    pub chat: Option<Vec<Json>>,
    pub force: Option<bool>,
}

/// The directory of the chats with a character.
pub open spec fn folder_of(avatar_url: Seq<char>) -> Seq<char> {
    text::drop_suffixes(avatar_url, ".png"@)
}

/// The directory of the chats with a character.
pub fn chat_folder(avatar_url: &str) -> (r: String)
    ensures
        r@ == folder_of(avatar_url@),
{
    text::trim_end_text(avatar_url, ".png")
}

/// The file of a chat.
pub open spec fn file_of(name: Seq<char>) -> Seq<char> {
    sanitize::sanitized(name + ".jsonl"@, ""@)
}

/// The file of a chat.
pub fn chat_file(name: &str) -> (r: String)
    ensures
        r@ == file_of(name@),
        sanitize::legal(r@),
{
    sanitize::sanitize_filename_strip(&text::join2(name, ".jsonl"))
}

/// Where a chat is: the directory, which is nothing for the chat of a group, and the file.
#[derive(Debug)]
pub struct ChatPlace {
    pub folder: Option<String>,
    pub file: String,
}

fn no_chat() -> (r: Reply)
    ensures
        r@ == web::json_reply(
            400,
            web::error_tree("The request's body.chat is not an array."@),
        ),
{
    Reply::error(400, "The request's body.chat is not an array.")
}

/// The folder and the file that a chat is saved in, or the refusal.
pub open spec fn save_place(body: SaveChatRequest) -> Result<
    (Option<Seq<char>>, Seq<char>),
    web::ReplyView,
> {
    let avatar = secrets::or_empty(json::string_opt(body.avatar_url));
    let name = secrets::or_empty(json::string_opt(body.file_name));
    if !reads::good_avatar(avatar) || name.len() == 0 {
        Err(web::status_only(400))
    } else if body.chat is None {
        Err(web::json_reply(400, web::error_tree("The request's body.chat is not an array."@)))
    } else {
        Ok((Some(folder_of(avatar)), file_of(name)))
    }
}

/// Where a chat is stored, or the refusal: the character, the name of the chat and the chat
/// itself have to be given.
pub fn save_chat(body: &SaveChatRequest) -> (r: Result<ChatPlace, Reply>)
    ensures
        match r {
            Ok(p) => save_place(*body) == Ok::<(Option<Seq<char>>, Seq<char>), web::ReplyView>(
                (json::string_opt(p.folder), p.file@),
            ),
            Err(e) => save_place(*body) == Err::<(Option<Seq<char>>, Seq<char>), web::ReplyView>(
                e@,
            ),
        },
{
    let avatar = match secrets::non_empty(&body.avatar_url) {
        Some(u) => u,
        None => return Err(Reply::empty(400)),
    };
    if helpers::contains_forbidden_chars(avatar) {
        return Err(Reply::empty(400));
    }
    let name = match secrets::non_empty(&body.file_name) {
        Some(f) => f,
        None => return Err(Reply::empty(400)),
    };
    if body.chat.is_none() {
        return Err(no_chat());
    }
    Ok(ChatPlace { folder: Some(chat_folder(avatar)), file: chat_file(name) })
}

/// The mark by which a chat is told from another one under the same name.
pub open spec fn integrity_of(chat: Seq<json::Tree>) -> Option<Seq<char>> {
    if chat.len() == 0 {
        None
    } else {
        match chat[0].get("chat_metadata"@) {
            Some(m) => m.text_at("integrity"@),
            None => None,
        }
    }
}

/// The mark that the chat that is stored already has to have, where that is looked at: it is
/// not where the client insists.
pub fn integrity_to_check(chat: &Vec<Json>, check: bool, force: Option<bool>) -> (r: Option<String>)
    ensures
        json::string_opt(r) == if check && force != Some(true) {
            integrity_of(json::trees(chat@))
        } else {
            None
        },
{
    let skip = match force {
        Some(b) => b,
        None => false,
    };
    if !check || skip || chat.len() == 0 {
        return None;
    }
    assert(json::trees(chat@)[0] == chat@[0]@);
    match chat[0].get("chat_metadata") {
        Some(m) => match m.str_at("integrity") {
            Some(s) => Some(s.to_owned()),
            None => None,
        },
        None => None,
    }
}

/// The answer that all went well.
pub open spec fn ok_tree() -> json::Tree {
    json::Tree::Object(json::members().push(("ok"@, json::Tree::Bool(true))))
}

fn ok_json() -> (r: Json)
    ensures
        r@ == ok_tree(),
{
    Fields::new().with("ok", Json::Bool(true)).done()
}

/// The answer once a chat was to be stored: whether the one stored before was the same chat,
/// and whether it could be written.
pub fn try_save_chat(intact: bool, written: bool) -> (r: Reply)
    ensures
        r@ == if !intact {
            web::json_reply(400, web::error_tree("integrity"@))
        } else if !written {
            web::status_only(500)
        } else {
            web::json_reply(200, ok_tree())
        },
{
    if !intact {
        Reply::error(400, "integrity")
    } else if !written {
        Reply::empty(500)
    } else {
        Reply::json(200, ok_json())
    }
}

/// The answer to a request for a chat that is not there.
pub open spec fn empty_answer() -> web::ReplyView {
    web::json_reply(200, json::Tree::Object(Seq::empty()))
}

/// The folder that a chat is read from, or the answer without one.
pub open spec fn read_folder(body: GetChatRequest) -> Result<Seq<char>, web::ReplyView> {
    let avatar = secrets::or_empty(json::string_opt(body.avatar_url));
    if avatar.len() == 0 {
        Err(empty_answer())
    } else if helpers::forbidden(avatar) {
        Err(web::status_only(400))
    } else {
        Ok(folder_of(avatar))
    }
}

/// The directory of the chat that is asked for, or the answer where it cannot be told.
pub fn get_chat_folder(body: &GetChatRequest) -> (r: Result<String, Reply>)
    ensures
        match r {
            Ok(f) => read_folder(*body) == Ok::<Seq<char>, web::ReplyView>(f@),
            Err(e) => read_folder(*body) == Err::<Seq<char>, web::ReplyView>(e@),
        },
{
    match secrets::non_empty(&body.avatar_url) {
        Some(u) => if helpers::contains_forbidden_chars(u) {
            Err(Reply::empty(400))
        } else {
            Ok(chat_folder(u))
        },
        None => Err(Reply::json(200, Json::no_members())),
    }
}

/// The file that a chat is read from, or the answer without one.
pub open spec fn read_file(body: GetChatRequest, found: bool) -> Result<Seq<char>, web::ReplyView> {
    let name = secrets::or_empty(json::string_opt(body.file_name));
    if found && name.len() > 0 {
        Ok(file_of(name))
    } else {
        Err(empty_answer())
    }
}

/// The file of the chat that is asked for, or the answer where there is none. `found` says
/// whether its directory is there.
pub fn get_chat(body: &GetChatRequest, found: bool) -> (r: Result<String, Reply>)
    ensures
        match r {
            Ok(f) => read_file(*body, found) == Ok::<Seq<char>, web::ReplyView>(f@),
            Err(e) => read_file(*body, found) == Err::<Seq<char>, web::ReplyView>(e@),
        },
{
    if !found {
        return Err(Reply::json(200, Json::no_members()));
    }
    match secrets::non_empty(&body.file_name) {
        Some(f) => Ok(chat_file(f)),
        None => Err(Reply::json(200, Json::no_members())),
    }
}

/// The names that a chat has and gets, and its directory, which is nothing for the chat of a
/// group.
#[derive(Debug)]
pub struct ChatRenaming {
    pub folder: Option<String>,
    pub original: String,
    pub renamed: String,
}

/// Whether a request to rename a chat says all that it has to.
pub open spec fn renaming_complete(body: RenameChatRequest) -> bool {
    secrets::or_empty(json::string_opt(body.original_file)).len() > 0 && secrets::or_empty(
        json::string_opt(body.renamed_file),
    ).len() > 0 && (body.is_group == Some(true) || reads::good_avatar(
        secrets::or_empty(json::string_opt(body.avatar_url)),
    ))
}

/// The folder of a chat that is to be renamed, its file and its new file, or the refusal.
pub open spec fn rename_places(body: RenameChatRequest) -> Result<
    (Option<Seq<char>>, Seq<char>, Seq<char>),
    web::ReplyView,
> {
    if renaming_complete(body) {
        Ok(
            (
                if body.is_group == Some(true) {
                    None
                } else {
                    Some(folder_of(body.avatar_url->Some_0@))
                },
                sanitize::sanitized(body.original_file->Some_0@, ""@),
                sanitize::sanitized(body.renamed_file->Some_0@, ""@),
            ),
        )
    } else {
        Err(web::status_only(400))
    }
}

/// The names that a chat has and gets, made safe, or the refusal.
pub fn rename_chat(body: &RenameChatRequest) -> (r: Result<ChatRenaming, Reply>)
    ensures
        match r {
            Ok(x) => rename_places(*body) == Ok::<
                (Option<Seq<char>>, Seq<char>, Seq<char>),
                web::ReplyView,
            >((json::string_opt(x.folder), x.original@, x.renamed@)),
            Err(e) => rename_places(*body) == Err::<
                (Option<Seq<char>>, Seq<char>, Seq<char>),
                web::ReplyView,
            >(e@),
        },
{
    let original = match secrets::non_empty(&body.original_file) {
        Some(f) => f,
        None => return Err(Reply::empty(400)),
    };
    let renamed = match secrets::non_empty(&body.renamed_file) {
        Some(f) => f,
        None => return Err(Reply::empty(400)),
    };
    let group = match body.is_group {
        Some(b) => b,
        None => false,
    };
    let folder = if group {
        None
    } else {
        match secrets::non_empty(&body.avatar_url) {
            Some(u) => if helpers::contains_forbidden_chars(u) {
                return Err(Reply::empty(400));
            } else {
                Some(chat_folder(u))
            },
            None => return Err(Reply::empty(400)),
        }
    };
    Ok(
        ChatRenaming {
            folder,
            original: sanitize::sanitize_filename_strip(original),
            renamed: sanitize::sanitize_filename_strip(renamed),
        },
    )
}

/// The answer once a chat was to be renamed: whether the one was there and the other not,
/// whether it could be copied, and the path that it has now.
pub fn rename_reply(available: bool, copied: bool, renamed_path: &str) -> (r: Reply)
    ensures
        r@ == if !available {
            web::json_reply(400, web::true_error())
        } else if !copied {
            web::status_only(500)
        } else {
            web::json_reply(
                200,
                json::Tree::Object(
                    json::members()
                        .push(("ok"@, json::Tree::Bool(true)))
                        .push((
                            "sanitizedFileName"@,
                            json::txt(secrets::or_empty(paths::path_stem(renamed_path@))),
                        )),
                ),
            )
        },
{
    if !available {
        return Reply::json(400, web::error_flag());
    }
    if !copied {
        return Reply::empty(500);
    }
    let name = secrets::unwrap_or_empty(paths::file_stem(renamed_path));
    Reply::json(
        200,
        Fields::new().with("ok", Json::Bool(true)).with("sanitizedFileName", Json::Text(name)).done(),
    )
}

/// The file of a chat that is to be deleted; its extension may be left out.
pub open spec fn deleted_file(chatfile: Seq<char>) -> Seq<char> {
    sanitize::sanitized(
        if chatfile.contains('.') {
            chatfile
        } else {
            chatfile + ".jsonl"@
        },
        ""@,
    )
}

/// A chat is deleted where it was stored, whether it is named with its extension or, where its
/// name has no dot, without.
pub proof fn chat_is_deleted_where_stored(name: Seq<char>)
    ensures
        deleted_file(name + ".jsonl"@) == file_of(name),
        !name.contains('.') ==> deleted_file(name) == file_of(name),
{
    reveal_strlit(".jsonl");
    let full = name + ".jsonl"@;
    assert(full[name.len() as int] == '.');
    assert(full.contains('.'));
}

/// The folder and the file of a chat that is to be deleted, or the refusal.
pub open spec fn delete_place(body: DeleteChatRequest) -> Result<
    (Option<Seq<char>>, Seq<char>),
    web::ReplyView,
> {
    let avatar = secrets::or_empty(json::string_opt(body.avatar_url));
    let name = secrets::or_empty(json::string_opt(body.chatfile));
    if reads::good_avatar(avatar) && name.len() > 0 {
        Ok((Some(folder_of(avatar)), deleted_file(name)))
    } else {
        Err(web::status_only(400))
    }
}

/// Where the chat is that is to be deleted, or the refusal.
pub fn delete_chat(body: &DeleteChatRequest) -> (r: Result<ChatPlace, Reply>)
    ensures
        match r {
            Ok(p) => delete_place(*body) == Ok::<(Option<Seq<char>>, Seq<char>), web::ReplyView>(
                (json::string_opt(p.folder), p.file@),
            ),
            Err(e) => delete_place(*body) == Err::<(Option<Seq<char>>, Seq<char>), web::ReplyView>(
                e@,
            ),
        },
{
    let avatar = match secrets::non_empty(&body.avatar_url) {
        Some(u) => u,
        None => return Err(Reply::empty(400)),
    };
    if helpers::contains_forbidden_chars(avatar) {
        return Err(Reply::empty(400));
    }
    let name = match secrets::non_empty(&body.chatfile) {
        Some(f) => f,
        None => return Err(Reply::empty(400)),
    };
    let file = if text::contains_char(name, '.') {
        sanitize::sanitize_filename_strip(name)
    } else {
        sanitize::sanitize_filename_strip(&text::join2(name, ".jsonl"))
    };
    Ok(ChatPlace { folder: Some(chat_folder(avatar)), file })
}

/// The answer once a chat was to be deleted.
pub fn deletion_reply(removed: bool) -> (r: Reply)
    ensures
        r@ == if removed {
            web::json_reply(200, ok_tree())
        } else {
            web::status_only(400)
        },
{
    if removed {
        Reply::json(200, ok_json())
    } else {
        Reply::empty(400)
    }
}

/// Whether a request for a chat to be handed out says all that it has to.
pub open spec fn export_complete(body: ExportChatRequest) -> bool {
    let avatar = secrets::or_empty(json::string_opt(body.avatar_url));
    secrets::or_empty(json::string_opt(body.file)).len() > 0 && !helpers::forbidden(avatar) && (
    body.is_group == Some(true) || avatar.len() > 0)
}

/// Where the chat is that is to be handed out, or the refusal.
pub fn export_chat(body: &ExportChatRequest) -> (r: Result<ChatPlace, Reply>)
    ensures
        match r {
            Ok(p) => {
                &&& export_complete(*body)
                &&& p.file@ == body.file->Some_0@
                &&& json::string_opt(p.folder) == if body.is_group == Some(true) {
                    None
                } else {
                    Some(folder_of(body.avatar_url->Some_0@))
                }
            },
            Err(e) => !export_complete(*body) && e@ == web::status_only(400),
        },
{
    let file = match secrets::non_empty(&body.file) {
        Some(f) => f,
        None => return Err(Reply::empty(400)),
    };
    let group = match body.is_group {
        Some(b) => b,
        None => false,
    };
    match secrets::non_empty(&body.avatar_url) {
        Some(u) => {
            if helpers::contains_forbidden_chars(u) {
                return Err(Reply::empty(400));
            }
            let folder = if group {
                None
            } else {
                Some(chat_folder(u))
            };
            Ok(ChatPlace { folder, file: file.to_owned() })
        },
        None => if group {
            Ok(ChatPlace { folder: None, file: file.to_owned() })
        } else {
            Err(Reply::empty(400))
        },
    }
}

/// What is said of a line of a chat in plain text: nothing of one of the system, nor of one
/// without a message.
pub open spec fn plain_line(t: json::Tree) -> Seq<char> {
    match t.text_at("mes"@) {
        Some(mes) => if t.flag_at("is_system"@) == Some(true) {
            Seq::empty()
        } else {
            let shown = match t.get("extra"@) {
                Some(x) => x.text_or("display_text"@, mes),
                None => mes,
            };
            t.text_or("name"@, ""@) + ": "@ + text::replaced(shown, "\r\n"@, "\n"@) + "\n\n"@
        },
        None => Seq::empty(),
    }
}

/// A chat in plain text.
pub open spec fn plain_text(lines: Seq<json::Tree>) -> Seq<char>
    decreases lines.len(),
{
    if lines.len() == 0 {
        Seq::empty()
    } else {
        plain_text(lines.drop_last()) + plain_line(lines.last())
    }
}

fn make_plain_line(t: &Json) -> (r: String)
    ensures
        r@ == plain_line(t@),
{
    let mes = match t.str_at("mes") {
        Some(m) => m,
        None => return String::new(),
    };
    let system = match t.bool_at("is_system") {
        Some(b) => b,
        None => false,
    };
    if system {
        return String::new();
    }
    let shown = match t.get("extra") {
        Some(x) => x.str_or("display_text", mes),
        None => mes,
    };
    proof {
        reveal_strlit("\r\n");
    }
    let cleaned = text::replace(shown, "\r\n", "\n");
    let mut out = text::join3(t.str_or("name", ""), ": ", &cleaned);
    out.push_str("\n\n");
    out
}

/// A chat in plain text, given those of its lines that are JSON values.
pub fn export_plain_text(lines: &Vec<Json>) -> (r: String)
    ensures
        r@ == plain_text(json::trees(lines@)),
{
    let ghost all = json::trees(lines@);
    let mut out = String::new();
    let mut i: usize = 0;
    assert(out@ =~= plain_text(all.take(0)));
    while i < lines.len()
        invariant
            all == json::trees(lines@),
            i <= lines@.len(),
            out@ == plain_text(all.take(i as int)),
        decreases lines@.len() - i,
    {
        assert(all.take(i as int + 1).drop_last() =~= all.take(i as int));
        assert(all.take(i as int + 1).last() == lines@[i as int]@);
        out.push_str(&make_plain_line(&lines[i]));
        i += 1;
    }
    assert(all.take(all.len() as int) =~= all);
    out
}

/// An answer with a message alone.
pub open spec fn message_tree(message: Seq<char>) -> json::Tree {
    json::Tree::Object(json::members().push(("message"@, json::txt(message))))
}

/// The answer that there is no chat to be handed out at the path.
pub fn export_not_found(path: &str) -> (r: Reply)
    ensures
        r@ == web::json_reply(
            404,
            message_tree(
                "Could not find JSONL file to export. Source chat file: "@ + path@ + "."@,
            ),
        ),
{
    let m = text::join3("Could not find JSONL file to export. Source chat file: ", path, ".");
    Reply::json(404, Fields::new().with("message", Json::Text(m)).done())
}

/// What a chat that is handed out is called.
pub open spec fn exported_as(body: ExportChatRequest) -> Seq<char> {
    secrets::text_or(json::string_opt(body.exportfilename), "undefined"@)
}

/// The reply to the export of a chat, given the content of its file and its lines.
pub open spec fn exported(
    body: ExportChatRequest,
    path: Seq<char>,
    content: Option<Seq<char>>,
    lines: Seq<json::Tree>,
) -> web::ReplyView {
    let raw = json::string_opt(body.format) == Some("jsonl"@);
    match content {
        Some(c) => web::json_reply(
            200,
            json::Tree::Object(
                json::members()
                    .push(("message"@, json::txt("Chat saved to "@ + exported_as(body))))
                    .push((
                        "result"@,
                        json::txt(
                            if raw {
                                c
                            } else {
                                plain_text(lines)
                            },
                        ),
                    )),
            ),
        ),
        None => if raw {
            web::json_reply(
                500,
                message_tree(
                    "Could not read JSONL file to export. Source chat file: "@ + path + "."@,
                ),
            )
        } else {
            web::status_only(400)
        },
    }
}

/// The answer with a chat: as it is stored where that is asked for, and otherwise in plain
/// text. `content` is nothing where the file at `path` could not be read, and `lines` are
/// those of its lines that are JSON values.
pub fn export_reply(
    body: &ExportChatRequest,
    path: &str,
    content: Option<&str>,
    lines: &Vec<Json>,
) -> (r: Reply)
    ensures
        r@ == exported(*body, path@, json::text_opt(content), json::trees(lines@)),
{
    let raw = match &body.format {
        Some(f) => text::same(f, "jsonl"),
        None => false,
    };
    match content {
        Some(c) => {
            let name = secrets::unwrap_or(&body.exportfilename, "undefined");
            let message = text::join2("Chat saved to ", &name);
            let result = if raw {
                c.to_owned()
            } else {
                export_plain_text(lines)
            };
            Reply::json(
                200,
                Fields::new()
                    .with("message", Json::Text(message))
                    .with("result", Json::Text(result))
                    .done(),
            )
        },
        None => if raw {
            let m = text::join3(
                "Could not read JSONL file to export. Source chat file: ",
                path,
                ".",
            );
            Reply::json(500, Fields::new().with("message", Json::Text(m)).done())
        } else {
            Reply::empty(400)
        },
    }
}

/// The answer once the chat of a group was to be imported under a name.
pub fn group_import_chat(name: &str, written: bool) -> (r: Reply)
    ensures
        r@ == web::json_reply(
            200,
            if written {
                json::Tree::Object(json::members().push(("res"@, json::txt(name@))))
            } else {
                web::true_error()
            },
        ),
{
    if written {
        Reply::json(200, Fields::new().with("res", Json::text(name)).done())
    } else {
        Reply::json(200, web::error_flag())
    }
}

/// The file of the chat of a group, or the refusal.
pub open spec fn group_file(id: Option<Seq<char>>) -> Option<Seq<char>> {
    match secrets::filled(id) {
        Some(s) => Some(file_of(s)),
        None => None,
    }
}

/// The file of the chat of a group that is asked for, told of, or to be deleted, or the
/// refusal.
pub fn group_chat_file(body: &GroupIdRequest) -> (r: Result<String, Reply>)
    ensures
        match r {
            Ok(f) => group_file(json::string_opt(body.id)) == Some(f@) && sanitize::legal(f@),
            Err(e) => group_file(json::string_opt(body.id)) is None && e@ == web::status_only(400),
        },
{
    match secrets::non_empty(&body.id) {
        Some(id) => Ok(chat_file(id)),
        None => Err(Reply::empty(400)),
    }
}

/// The answer with what is known of the chat of a group, where it could be read.
pub fn group_info_chat(info: Option<&ChatInfo>) -> (r: Reply)
    ensures
        r@ == match info {
            Some(i) => web::json_reply(200, reads::info_tree(i@)),
            None => web::status_only(500),
        },
{
    match info {
        Some(i) => Reply::json(200, i.to_fields().done()),
        None => Reply::empty(500),
    }
}

/// Where the chat of a group is stored, or the refusal.
pub fn group_save_chat(body: &GroupSaveRequest) -> (r: Result<ChatPlace, Reply>)
    ensures
        match r {
            Ok(p) => body.chat is Some && p.folder is None && group_file(json::string_opt(body.id))
                == Some(p.file@),
            Err(e) => if group_file(json::string_opt(body.id)) is None {
                e@ == web::status_only(400)
            } else {
                body.chat is None && e@ == web::json_reply(
                    400,
                    web::error_tree("The request's body.chat is not an array."@),
                )
            },
        },
{
    match secrets::non_empty(&body.id) {
        Some(id) => if body.chat.is_none() {
            Err(no_chat())
        } else {
            Ok(ChatPlace { folder: None, file: chat_file(id) })
        },
        None => Err(Reply::empty(400)),
    }
}

/// The answer with the chat of a group.
pub fn group_get_chat(lines: Vec<Json>) -> (r: Reply)
    ensures
        r@ == web::json_reply(200, json::Tree::Array(json::trees(lines@))),
{
    Reply::json(200, Json::array(lines))
}

/// The answer once the chat of a group was to be deleted.
pub fn group_delete_chat(removed: bool) -> (r: Reply)
    ensures
        r@ == if removed {
            web::json_reply(
                200,
                json::Tree::Object(json::members().push(("ok"@, json::Tree::Bool(true)))),
            )
        } else {
            web::status_only(400)
        },
{
    if removed {
        Reply::json(200, Fields::new().with("ok", Json::Bool(true)).done())
    } else {
        Reply::empty(400)
    }
}

} // verus!
