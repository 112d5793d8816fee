//! What is handed out of the characters: their cards, and what is known of their chats.

use crate::characters::helpers;
use crate::json;
use crate::json::{Fields, Json};
use crate::paths;
use crate::text;
use crate::web;
use crate::web::Reply;
use vstd::prelude::*;

verus! {

/// A character that is asked for.
#[derive(Debug)]
pub struct GetCharacterRequest {
    pub avatar_url: Option<String>,
}

/// The chats of a character that are asked for.
#[derive(Debug)]
pub struct CharacterChatsRequest {
    pub avatar_url: Option<String>,
    pub simple: Option<bool>,
    pub metadata: Option<bool>,
}

/// Whether a text names a picture of a character: it is not empty and holds no separator.
pub open spec fn good_avatar(s: Seq<char>) -> bool {
    s.len() > 0 && !helpers::forbidden(s)
}

/// Whether a text names a picture of a character.
pub fn is_good_avatar(s: &str) -> (r: bool)
    ensures
        r == good_avatar(s@),
{
    !s.is_empty() && !helpers::contains_forbidden_chars(s)
}

/// The picture that is asked for, or the refusal.
pub fn requested_avatar(avatar_url: &Option<String>) -> (r: Result<String, Reply>)
    ensures
        match r {
            Ok(s) => json::string_opt(*avatar_url) == Some(s@) && good_avatar(s@),
            Err(e) => e@ == web::status_only(400) && (match *avatar_url {
                Some(s) => !good_avatar(s@),
                None => true,
            }),
        },
{
    match avatar_url {
        Some(s) => if is_good_avatar(s) {
            Ok(s.clone())
        } else {
            Err(Reply::empty(400))
        },
        None => Err(Reply::empty(400)),
    }
}

/// Whether a file has an extension.
pub open spec fn has_extension(name: Seq<char>, extension: Seq<char>) -> bool {
    paths::extension_of(name) == Some(extension)
}

/// The names among `files` of those with an extension.
pub open spec fn with_extension(files: Seq<Seq<char>>, extension: Seq<char>) -> Seq<Seq<char>>
    decreases files.len(),
{
    if files.len() == 0 {
        Seq::empty()
    } else {
        let rest = with_extension(files.drop_last(), extension);
        if has_extension(files.last(), extension) {
            rest.push(files.last())
        } else {
            rest
        }
    }
}

/// The names among `files` of those with an extension.
pub fn files_with_extension(files: &Vec<String>, extension: &str) -> (r: Vec<String>)
    ensures
        json::texts(r@) == with_extension(json::texts(files@), extension@),
{
    let ghost all = json::texts(files@);
    let mut out: Vec<String> = Vec::new();
    let mut i: usize = 0;
    assert(json::texts(out@) =~= with_extension(all.take(0), extension@));
    while i < files.len()
        invariant
            all == json::texts(files@),
            i <= files@.len(),
            json::texts(out@) == with_extension(all.take(i as int), extension@),
        decreases files@.len() - i,
    {
        assert(all.take(i as int + 1).drop_last() =~= all.take(i as int));
        assert(all.take(i as int + 1).last() == files@[i as int]@);
        let ghost before = out@;
        let fits = match paths::extension(&files[i]) {
            Some(e) => text::same(&e, extension),
            None => false,
        };
        if fits {
            out.push(files[i].clone());
            assert(json::texts(out@) =~= json::texts(before).push(files@[i as int]@));
        }
        i += 1;
    }
    assert(all.take(all.len() as int) =~= all);
    out
}

/// What a card is handed out as in a list: nothing where it has no name, and a short form
/// where that is wanted.
pub open spec fn listed(character: json::Tree, short: bool) -> Option<json::Tree> {
    if character.text_at("name"@) is None {
        None
    } else if short {
        helpers::shallow(character)
    } else {
        Some(character)
    }
}

/// What the cards are handed out as in a list, those that could not be read left out.
pub open spec fn listed_all(characters: Seq<Option<Json>>, short: bool) -> Seq<json::Tree>
    decreases characters.len(),
{
    if characters.len() == 0 {
        Seq::empty()
    } else {
        let rest = listed_all(characters.drop_last(), short);
        match characters.last() {
            Some(c) => match listed(c@, short) {
                Some(t) => rest.push(t),
                None => rest,
            },
            None => rest,
        }
    }
}

fn list_one(character: &Json, short: bool) -> (r: Option<Json>)
    ensures
        web::owned_tree(r) == listed(character@, short),
{
    if character.str_at("name").is_none() {
        None
    } else if short {
        helpers::to_shallow(character)
    } else {
        Some(character.copy())
    }
}

/// The list of the characters, given what each of their files came to.
pub fn list_characters(characters: &Vec<Option<Json>>, short: bool) -> (r: Vec<Json>)
    ensures
        json::trees(r@) == listed_all(characters@, short),
{
    let mut out: Vec<Json> = Vec::new();
    let mut i: usize = 0;
    assert(json::trees(out@) =~= listed_all(characters@.take(0), short));
    while i < characters.len()
        invariant
            i <= characters@.len(),
            json::trees(out@) == listed_all(characters@.take(i as int), short),
        decreases characters@.len() - i,
    {
        assert(characters@.take(i as int + 1).drop_last() =~= characters@.take(i as int));
        let ghost before = out@;
        match &characters[i] {
            Some(c) => match list_one(c, short) {
                Some(j) => {
                    out.push(j);
                    assert(json::trees(out@) =~= json::trees(before).push(j@));
                },
                None => {},
            },
            None => {},
        }
        i += 1;
    }
    assert(characters@.take(characters@.len() as int) =~= characters@);
    out
}

/// The answer to the request for all characters: the list, or that it could not be made.
pub fn get_all_characters(list: Option<Vec<Json>>) -> (r: Reply)
    ensures
        r@ == match list {
            Some(v) => web::json_reply(200, json::Tree::Array(json::trees(v@))),
            None => web::json_reply(
                500,
                json::Tree::Object(
                    json::members()
                        .push(("overflow"@, json::Tree::Bool(false)))
                        .push(("error"@, json::Tree::Bool(true))),
                ),
            ),
        },
{
    match list {
        Some(v) => Reply::json(200, Json::array(v)),
        None => Reply::json(
            500,
            Fields::new().with("overflow", Json::Bool(false)).with("error", Json::Bool(true)).done(),
        ),
    }
}

/// What is known of the file of a character besides its card.
#[derive(Debug)]
pub struct CharacterFile {
    pub name: String,
    /// The card as it stands in the file.
    pub json_data: String,
    /// When the file came to be: a number of milliseconds, and as text.
    pub date_added: Json,
    pub date_added_text: String,
    /// The size of the chats, and when the last of them changed.
    pub chat_size: u64,
    pub date_last_chat: Json,
}

/// The directory that the chats of a character are in.
pub open spec fn chats_folder(file: Seq<char>) -> Seq<char> {
    match text::before_suffix(file, ".png"@) {
        Some(s) => s,
        None => file,
    }
}

/// The directory that the chats of a character are in.
pub fn chats_directory(file: &str) -> (r: String)
    ensures
        r@ == chats_folder(file@),
{
    match text::strip_suffix(file, ".png") {
        Some(s) => s,
        None => file.to_owned(),
    }
}

/// The card `f` with what is known of its file, but for the size of its data.
pub open spec fn described(f: Seq<(Seq<char>, json::Tree)>, file: CharacterFile) -> Seq<
    (Seq<char>, json::Tree),
> {
    let named = json::put(f, "avatar"@, json::txt(file.name@));
    let raw = json::put(named, "json_data"@, json::txt(file.json_data@));
    let added = json::put(raw, "date_added"@, file.date_added@);
    let created = if json::Tree::Object(added).text_at("create_date"@) is None {
        json::put(added, "create_date"@, json::txt(file.date_added_text@))
    } else {
        added
    };
    let sized = json::put(created, "chat_size"@, json::num(file.chat_size));
    json::put(sized, "date_last_chat"@, file.date_last_chat@)
}

/// The card `f` with what is known of its file.
pub open spec fn enriched(f: Seq<(Seq<char>, json::Tree)>, file: CharacterFile) -> Seq<
    (Seq<char>, json::Tree),
> {
    json::put(
        described(f, file),
        "data_size"@,
        json::num(helpers::data_size(json::Tree::Object(f)) as u64),
    )
}

proof fn other_member_keeps_size(f: Seq<(Seq<char>, json::Tree)>, k: Seq<char>, v: json::Tree)
    requires
        k != "data"@,
    ensures
        helpers::data_size(json::Tree::Object(json::put(f, k, v))) == helpers::data_size(
            json::Tree::Object(f),
        ),
{
    json::lookup_after_put_elsewhere(f, k, v, "data"@);
}

/// What is known of the file of a card is not part of the size of its data.
pub proof fn size_is_kept(f: Seq<(Seq<char>, json::Tree)>, file: CharacterFile)
    ensures
        helpers::data_size(json::Tree::Object(described(f, file))) == helpers::data_size(
            json::Tree::Object(f),
        ),
        helpers::data_size(json::Tree::Object(enriched(f, file))) == helpers::data_size(
            json::Tree::Object(f),
        ),
{
    reveal_strlit("data");
    reveal_strlit("avatar");
    reveal_strlit("json_data");
    reveal_strlit("date_added");
    reveal_strlit("create_date");
    reveal_strlit("chat_size");
    reveal_strlit("date_last_chat");
    reveal_strlit("data_size");
    assert("data"@.len() == 4);
    assert("avatar"@.len() == 6);
    assert("json_data"@.len() == 9);
    assert("date_added"@.len() == 10);
    assert("create_date"@.len() == 11);
    assert("chat_size"@.len() == 9);
    assert("date_last_chat"@.len() == 14);
    assert("data_size"@.len() == 9);
    let named = json::put(f, "avatar"@, json::txt(file.name@));
    let raw = json::put(named, "json_data"@, json::txt(file.json_data@));
    let added = json::put(raw, "date_added"@, file.date_added@);
    let created = if json::Tree::Object(added).text_at("create_date"@) is None {
        json::put(added, "create_date"@, json::txt(file.date_added_text@))
    } else {
        added
    };
    let sized = json::put(created, "chat_size"@, json::num(file.chat_size));
    let size = json::num(helpers::data_size(json::Tree::Object(f)) as u64);
    other_member_keeps_size(f, "avatar"@, json::txt(file.name@));
    other_member_keeps_size(named, "json_data"@, json::txt(file.json_data@));
    other_member_keeps_size(raw, "date_added"@, file.date_added@);
    other_member_keeps_size(added, "create_date"@, json::txt(file.date_added_text@));
    other_member_keeps_size(created, "chat_size"@, json::num(file.chat_size));
    other_member_keeps_size(sized, "date_last_chat"@, file.date_last_chat@);
    other_member_keeps_size(described(f, file), "data_size"@, size);
}

/// A card with what is known of its file.
pub fn process_character(card: &Json, file: &CharacterFile) -> (r: Json)
    requires
        card@ is Object,
        helpers::data_size(card@) <= usize::MAX,
    ensures
        r@ == json::Tree::Object(enriched(card@->Object_0, *file)),
{
    let mut f = card.fields();
    proof {
        size_is_kept(f@, *file);
    }
    f.insert("avatar", Json::text(&file.name));
    f.insert("json_data", Json::text(&file.json_data));
    f.insert("date_added", file.date_added.copy());
    let dated = match f.get("create_date") {
        Some(d) => d.as_str().is_some(),
        None => false,
    };
    if !dated {
        f.insert("create_date", Json::text(&file.date_added_text));
    }
    f.insert("chat_size", Json::natural(file.chat_size));
    f.insert("date_last_chat", file.date_last_chat.copy());
    let size: usize = helpers::calculate_data_size(&f.copy().done());
    f.insert("data_size", Json::natural(size as u64));
    f.done()
}

/// The answer to the request for a character: whether its file is there, and its card where
/// it could be read.
pub fn get_character(found: bool, card: Option<Json>) -> (r: Reply)
    ensures
        r@ == if !found {
            web::status_only(404)
        } else {
            match card {
                Some(c) => web::json_reply(200, c@),
                None => web::status_only(500),
            }
        },
{
    if !found {
        return Reply::empty(404);
    }
    match card {
        Some(c) => Reply::json(200, c),
        None => Reply::empty(500),
    }
}

/// What is known of a chat.
#[derive(Debug)]
pub struct ChatInfo {
    pub is_match: bool,
    pub file_id: String,
    pub file_name: String,
    pub file_size: String,
    pub chat_items: usize,
    pub mes: String,
    pub last_mes: Json,
    pub chat_metadata: Option<Json>,
}

/// What a [`ChatInfo`] is.
pub struct ChatInfoView {
    pub is_match: bool,
    pub file_id: Seq<char>,
    pub file_name: Seq<char>,
    pub file_size: Seq<char>,
    pub chat_items: nat,
    pub mes: Seq<char>,
    pub last_mes: json::Tree,
    pub chat_metadata: Option<json::Tree>,
}

impl ChatInfo {
    pub open spec fn view(&self) -> ChatInfoView {
        ChatInfoView {
            is_match: self.is_match,
            file_id: self.file_id@,
            file_name: self.file_name@,
            file_size: self.file_size@,
            chat_items: self.chat_items as nat,
            mes: self.mes@,
            last_mes: self.last_mes@,
            chat_metadata: web::owned_tree(self.chat_metadata),
        }
    }
}

/// The file of a chat: its name and size, when it changed, as a number of milliseconds and as
/// text, how many lines it has, and the JSON values that the first and the last of them are.
#[derive(Debug)]
pub struct ChatContent {
    pub file_name: String,
    pub size: u64,
    pub modified: Json,
    pub modified_text: String,
    pub lines: usize,
    pub first: Option<Json>,
    pub last: Option<Json>,
}

/// What the first line of a chat says of it.
pub open spec fn metadata_of(first: Option<json::Tree>) -> Option<json::Tree> {
    match first {
        Some(t) => match t.get("chat_metadata"@) {
            Some(m) => if m is Object {
                Some(m)
            } else {
                None
            },
            None => None,
        },
        None => None,
    }
}

/// Whether a line is one of a chat.
pub open spec fn chat_line(t: json::Tree) -> bool {
    t.get("name"@) is Some || t.get("character_name"@) is Some || t.get("chat_metadata"@) is Some
}

/// What is known of a chat; one whose last line is none of a chat is known without a name.
pub open spec fn info_of(c: ChatContent, with_metadata: bool) -> ChatInfoView {
    let empty = ChatInfoView {
        is_match: false,
        file_id: paths::stem_of(c.file_name@),
        file_name: c.file_name@,
        file_size: helpers::size_text(c.size as nat),
        chat_items: 0,
        mes: "[The chat is empty]"@,
        last_mes: c.modified@,
        chat_metadata: None,
    };
    if c.size == 0 {
        empty
    } else {
        match web::owned_tree(c.last) {
            Some(t) => if chat_line(t) {
                ChatInfoView {
                    is_match: true,
                    chat_items: if c.lines == 0 {
                        0
                    } else {
                        (c.lines - 1) as nat
                    },
                    mes: t.text_or("mes"@, "[The message is empty]"@),
                    last_mes: match t.get("send_date"@) {
                        Some(json::Tree::Text(s)) => json::txt(s),
                        _ => json::txt(c.modified_text@),
                    },
                    chat_metadata: if with_metadata {
                        metadata_of(web::owned_tree(c.first))
                    } else {
                        None
                    },
                    ..empty
                }
            } else {
                ChatInfoView { file_id: Seq::empty(), file_name: Seq::empty(), ..empty }
            },
            None => ChatInfoView { file_id: Seq::empty(), file_name: Seq::empty(), ..empty },
        }
    }
}

fn first_metadata(first: &Option<Json>) -> (r: Option<Json>)
    ensures
        web::owned_tree(r) == metadata_of(web::owned_tree(*first)),
{
    match first {
        Some(j) => match j.get("chat_metadata") {
            Some(m) => if m.is_object() {
                Some(m.copy())
            } else {
                None
            },
            None => None,
        },
        None => None,
    }
}

/// What is known of a chat.
pub fn get_chat_info(content: &ChatContent, with_metadata: bool) -> (r: ChatInfo)
    ensures
        r@ == info_of(*content, with_metadata),
{
    let mut info = ChatInfo {
        is_match: false,
        file_id: paths::stem(&content.file_name),
        file_name: content.file_name.clone(),
        file_size: helpers::format_bytes(content.size),
        chat_items: 0,
        mes: "[The chat is empty]".to_owned(),
        last_mes: content.modified.copy(),
        chat_metadata: None,
    };
    if content.size == 0 {
        return info;
    }
    match &content.last {
        Some(last) => {
            if last.get("name").is_some() || last.get("character_name").is_some() || last.get(
                "chat_metadata",
            ).is_some() {
                let items: usize = if content.lines == 0 {
                    0
                } else {
                    content.lines - 1
                };
                info.chat_items = items;
                info.mes = last.str_or("mes", "[The message is empty]").to_owned();
                info.last_mes = match last.get("send_date") {
                    Some(Json::Text(s)) => Json::text(s),
                    _ => Json::text(&content.modified_text),
                };
                info.is_match = true;
                if with_metadata {
                    info.chat_metadata = first_metadata(&content.first);
                }
                return info;
            }
        },
        None => {},
    }
    info.file_name = String::new();
    info.file_id = String::new();
    info
}

/// A chat as it stands in an answer.
pub open spec fn info_tree(i: ChatInfoView) -> json::Tree {
    let known = json::members()
        .push(("match"@, json::Tree::Bool(i.is_match)))
        .push(("file_id"@, json::txt(i.file_id)))
        .push(("file_name"@, json::txt(i.file_name)))
        .push(("file_size"@, json::txt(i.file_size)))
        .push(("chat_items"@, json::num(i.chat_items as u64)))
        .push(("mes"@, json::txt(i.mes)))
        .push(("last_mes"@, i.last_mes));
    json::Tree::Object(
        match i.chat_metadata {
            Some(m) => known.push(("chat_metadata"@, m)),
            None => known,
        },
    )
}

impl ChatInfo {
    /// The members that a chat has in an answer.
    pub fn to_fields(&self) -> (r: Fields)
        ensures
            json::Tree::Object(r@) == info_tree(self@),
    {
        let known = Fields::new()
            .with("match", Json::Bool(self.is_match))
            .with("file_id", Json::text(&self.file_id))
            .with("file_name", Json::text(&self.file_name))
            .with("file_size", Json::text(&self.file_size))
            .with("chat_items", Json::natural(self.chat_items as u64))
            .with("mes", Json::text(&self.mes))
            .with("last_mes", self.last_mes.copy());
        match &self.chat_metadata {
            Some(m) => known.with("chat_metadata", m.copy()),
            None => known,
        }
    }
}

/// The directory of the chats that are asked for.
pub fn requested_chats(body: &CharacterChatsRequest) -> (r: Result<String, Reply>)
    ensures
        match r {
            Ok(dir) => body.avatar_url is Some && good_avatar(body.avatar_url->Some_0@) && dir@
                == text::replaced(body.avatar_url->Some_0@, ".png"@, ""@),
            Err(e) => e@ == web::status_only(400) && (match body.avatar_url {
                Some(s) => !good_avatar(s@),
                None => true,
            }),
        },
{
    proof {
        reveal_strlit(".png");
    }
    match requested_avatar(&body.avatar_url) {
        Ok(url) => Ok(text::replace(&url, ".png", "")),
        Err(e) => Err(e),
    }
}

/// The short form of a list of chats.
pub open spec fn simple_list(files: Seq<Seq<char>>) -> Seq<json::Tree> {
    Seq::new(
        files.len(),
        |i: int|
            json::Tree::Object(
                json::members()
                    .push(("file_name"@, json::txt(files[i])))
                    .push(("file_id"@, json::txt(paths::stem_of(files[i])))),
            ),
    )
}

fn list_simply(files: &Vec<String>) -> (r: Vec<Json>)
    ensures
        json::trees(r@) == simple_list(json::texts(files@)),
{
    let mut out: Vec<Json> = Vec::new();
    let mut i: usize = 0;
    while i < files.len()
        invariant
            i <= files@.len(),
            out@.len() == i,
            forall|j: int|
                0 <= j < i ==> (#[trigger] out@[j])@ == simple_list(json::texts(files@))[j],
        decreases files@.len() - i,
    {
        out.push(
            Fields::new()
                .with("file_name", Json::text(&files[i]))
                .with("file_id", Json::Text(paths::stem(&files[i])))
                .done(),
        );
        i += 1;
    }
    assert(json::trees(out@) =~= simple_list(json::texts(files@)));
    out
}

/// The full form of a list of chats: those without a name are left out.
pub open spec fn full_list(chats: Seq<ChatContent>, with_metadata: bool) -> Seq<json::Tree>
    decreases chats.len(),
{
    if chats.len() == 0 {
        Seq::empty()
    } else {
        let rest = full_list(chats.drop_last(), with_metadata);
        let info = info_of(chats.last(), with_metadata);
        if info.file_name.len() == 0 {
            rest
        } else {
            rest.push(info_tree(info))
        }
    }
}

fn list_fully(chats: &Vec<ChatContent>, with_metadata: bool) -> (r: Vec<Json>)
    ensures
        json::trees(r@) == full_list(chats@, with_metadata),
{
    let mut out: Vec<Json> = Vec::new();
    let mut i: usize = 0;
    assert(json::trees(out@) =~= full_list(chats@.take(0), with_metadata));
    while i < chats.len()
        invariant
            i <= chats@.len(),
            json::trees(out@) == full_list(chats@.take(i as int), with_metadata),
        decreases chats@.len() - i,
    {
        assert(chats@.take(i as int + 1).drop_last() =~= chats@.take(i as int));
        let ghost before = out@;
        let info = get_chat_info(&chats[i], with_metadata);
        if !info.file_name.as_str().is_empty() {
            let j = info.to_fields().done();
            out.push(j);
            assert(json::trees(out@) =~= json::trees(before).push(j@));
        }
        i += 1;
    }
    assert(chats@.take(chats@.len() as int) =~= chats@);
    out
}

/// The chats of a character: the short form of the list of its files, or what is known of
/// those that could be read. `files` is nothing where the directory could not be read.
pub open spec fn chats_reply(
    files: Option<Seq<Seq<char>>>,
    chats: Seq<ChatContent>,
    simple: bool,
    with_metadata: bool,
) -> json::Tree {
    match files {
        Some(f) => json::Tree::Array(
            if simple {
                simple_list(with_extension(f, "jsonl"@))
            } else {
                full_list(chats, with_metadata)
            },
        ),
        None => json::Tree::Object(json::members().push(("error"@, json::Tree::Bool(true)))),
    }
}

/// The answer to the request for the chats of a character: `files` are the files of their
/// directory, where it could be read, and `chats` those of them with the extension `jsonl`
/// that could be read.
pub fn get_character_chats(
    body: &CharacterChatsRequest,
    files: Option<&Vec<String>>,
    chats: &Vec<ChatContent>,
) -> (r: Reply)
    ensures
        r@ == web::json_reply(
            200,
            chats_reply(
                match files {
                    Some(f) => Some(json::texts(f@)),
                    None => None,
                },
                chats@,
                body.simple == Some(true),
                body.metadata == Some(true),
            ),
        ),
{
    let files = match files {
        Some(f) => f,
        None => {
            return Reply::json(200, Fields::new().with("error", Json::Bool(true)).done());
        },
    };
    let simple = match body.simple {
        Some(b) => b,
        None => false,
    };
    if simple {
        let names = files_with_extension(files, "jsonl");
        return Reply::json(200, Json::array(list_simply(&names)));
    }
    let with_metadata = match body.metadata {
        Some(b) => b,
        None => false,
    };
    Reply::json(200, Json::array(list_fully(chats, with_metadata)))
}

} // verus!
