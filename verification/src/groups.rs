//! Groups of characters that chat together.

use crate::characters::helpers;
use crate::js;
use crate::json;
use crate::json::{Fields, Json};
use crate::outside;
use crate::sanitize;
use crate::secrets;
use crate::text;
use crate::web;
use crate::web::Reply;
use vstd::prelude::*;

pub use crate::js::{coalesce_non_null, js_truthy};

verus! {

/// Asks for a group to be changed.
#[derive(Debug)]
pub struct EditGroupRequest {
    pub id: Option<String>,
    pub rest: Json,
}

/// Asks for a group to be deleted.
#[derive(Debug)]
pub struct DeleteGroupRequest {
    pub id: Option<String>,
}

/// A group without the members that are no longer used.
pub open spec fn modern(group: json::Tree) -> json::Tree {
    match group {
        json::Tree::Object(f) => json::Tree::Object(
            json::without(json::without(f, "chat_metadata"@), "past_metadata"@),
        ),
        t => t,
    }
}

/// Takes out of a group the members that are no longer used.
pub fn warn_on_group_metadata(group_data: &mut Json)
    ensures
        final(group_data)@ == modern(old(group_data)@),
{
    if group_data.is_object() {
        let mut f = group_data.fields();
        f.remove("chat_metadata");
        f.remove("past_metadata");
        *group_data = f.done();
    }
}

/// The file of a group chat: its name without the extension, its size, and the time of its
/// last change by its bits and as it is printed.
#[derive(Debug)]
pub struct GroupChatFile {
    pub stem: String,
    pub size: u64,
    pub mtime: u64,
    pub mtime_shown: String,
}

/// Whether a chat is among those of a group.
pub open spec fn has_chat(chats: Seq<json::Tree>, stem: Seq<char>) -> bool {
    exists|i: int| 0 <= i < chats.len() && (#[trigger] chats[i]).as_text() == Some(stem)
}

/// The size of those of the files that are chats of the group.
pub open spec fn chats_size(files: Seq<GroupChatFile>, chats: Seq<json::Tree>) -> nat
    decreases files.len(),
{
    if files.len() == 0 {
        0
    } else {
        chats_size(files.drop_last(), chats) + if has_chat(chats, files.last().stem@) {
            files.last().size as nat
        } else {
            0
        }
    }
}

/// The time of the last change to those of the files that are chats of the group.
pub open spec fn last_chat(files: Seq<GroupChatFile>, chats: Seq<json::Tree>) -> (u64, Seq<char>)
    decreases files.len(),
{
    if files.len() == 0 {
        (0, "0.0"@)
    } else {
        let rest = last_chat(files.drop_last(), chats);
        if has_chat(chats, files.last().stem@) && files.last().mtime > rest.0 {
            (files.last().mtime, files.last().mtime_shown@)
        } else {
            rest
        }
    }
}

/// The chats that a group lists.
pub open spec fn chats_of(group: json::Tree) -> Seq<json::Tree> {
    match group.items_at("chats"@) {
        Some(a) => a,
        None => Seq::empty(),
    }
}

/// What a client is told of a group: its members, the picture where it has none, when it
/// was made, and the size and the last change of its chats.
pub open spec fn annotated(
    group: json::Tree,
    added: json::Tree,
    create_date: Seq<char>,
    files: Seq<GroupChatFile>,
) -> Option<json::Tree> {
    match group {
        json::Tree::Object(f) => {
            let pictured = if json::lookup(f, "avatar_url"@) is Some {
                f
            } else {
                json::put(f, "avatar_url"@, json::txt(Seq::empty()))
            };
            let dated = json::put(
                json::put(pictured, "date_added"@, added),
                "create_date"@,
                json::txt(create_date),
            );
            let chats = chats_of(json::Tree::Object(dated));
            let last = last_chat(files, chats);
            Some(
                json::Tree::Object(
                    json::put(
                        json::put(
                            dated,
                            "date_last_chat"@,
                            json::Tree::Float(last.0, last.1),
                        ),
                        "chat_size"@,
                        json::num(chats_size(files, chats) as u64),
                    ),
                ),
            )
        },
        _ => None,
    }
}

/// The size of all files.
pub open spec fn files_size(files: Seq<GroupChatFile>) -> nat
    decreases files.len(),
{
    if files.len() == 0 {
        0
    } else {
        files_size(files.drop_last()) + files.last().size as nat
    }
}

proof fn files_size_grows(files: Seq<GroupChatFile>, chats: Seq<json::Tree>, i: int)
    requires
        0 <= i <= files.len(),
    ensures
        chats_size(files.take(i), chats) <= files_size(files.take(i)) <= files_size(files),
    decreases files.len(), i,
{
    if i < files.len() {
        files_size_grows(files.drop_last(), chats, i);
        assert(files.drop_last().take(i) =~= files.take(i));
    } else {
        assert(files.take(i) =~= files);
        if i > 0 {
            files_size_grows(files, chats, i - 1);
            assert(files.take(i - 1) =~= files.drop_last());
        }
    }
}

fn lists_chat(chats: &Vec<Json>, stem: &str) -> (r: bool)
    ensures
        r == has_chat(json::trees(chats@), stem@),
{
    let ghost all = json::trees(chats@);
    let mut i: usize = 0;
    while i < chats.len()
        invariant
            all == json::trees(chats@),
            i <= chats@.len(),
            forall|j: int| 0 <= j < i ==> (#[trigger] all[j]).as_text() != Some(stem@),
        decreases chats@.len() - i,
    {
        assert(all[i as int] == chats@[i as int]@);
        match chats[i].as_str() {
            Some(s) => if text::same(s, stem) {
                assert(all[i as int].as_text() == Some(stem@));
                return true;
            },
            None => {},
        }
        i += 1;
    }
    false
}

/// What a client is told of a group; nothing where the file is no group.
pub fn annotate_group(
    group: &Json,
    added: &Json,
    create_date: &str,
    files: &Vec<GroupChatFile>,
) -> (r: Option<Json>)
    requires
        files_size(files@) <= u64::MAX,
    ensures
        r matches Some(j) ==> annotated(group@, added@, create_date@, files@) == Some(j@),
        r is None ==> annotated(group@, added@, create_date@, files@) is None,
{
    let mut f = match group {
        Json::Object(f) => f.copy(),
        _ => return None,
    };
    if !f.contains_key("avatar_url") {
        f.insert("avatar_url", Json::Text(String::new()));
    }
    f.insert("date_added", added.copy());
    f.insert("create_date", Json::text(create_date));
    let dated = f.done();
    let none: Vec<Json> = Vec::new();
    assert(json::trees(none@) =~= Seq::empty());
    let chats = match dated.array_at("chats") {
        Some(c) => c,
        None => &none,
    };
    let ghost listed = chats_of(dated@);
    let mut size: u64 = 0;
    let mut last: u64 = 0;
    let mut shown = "0.0".to_owned();
    let mut i: usize = 0;
    assert(files@.take(0) =~= Seq::<GroupChatFile>::empty());
    while i < files.len()
        invariant
            files_size(files@) <= u64::MAX,
            listed == json::trees(chats@),
            i <= files@.len(),
            size == chats_size(files@.take(i as int), listed),
            (last, shown@) == last_chat(files@.take(i as int), listed),
        decreases files@.len() - i,
    {
        assert(files@.take(i as int + 1).drop_last() =~= files@.take(i as int));
        proof {
            files_size_grows(files@, listed, i as int + 1);
        }
        if lists_chat(chats, &files[i].stem) {
            size += files[i].size;
            if files[i].mtime > last {
                last = files[i].mtime;
                shown = files[i].mtime_shown.clone();
            }
        }
        i += 1;
    }
    assert(files@.take(files@.len() as int) =~= files@);
    let mut out = dated.fields();
    out.insert("date_last_chat", Json::float(last, &shown));
    out.insert("chat_size", Json::natural(size));
    Some(out.done())
}

/// The group that is made of a request, with the name `id`.
pub open spec fn new_group(o: json::Tree, id: Seq<char>) -> Seq<(Seq<char>, json::Tree)> {
    let base = json::members()
        .push(("id"@, json::txt(id)))
        .push(("name"@, js::coalesced(o.get("name"@), json::txt("New Group"@))))
        .push(("members"@, js::coalesced(o.get("members"@), json::Tree::Array(Seq::empty()))))
        .push((
            "allow_self_responses"@,
            json::Tree::Bool(
                match o.get("allow_self_responses"@) {
                    Some(t) => js::truthy(t),
                    None => false,
                },
            ),
        ))
        .push(("activation_strategy"@, js::coalesced(o.get("activation_strategy"@), json::num(0))))
        .push(("generation_mode"@, js::coalesced(o.get("generation_mode"@), json::num(0))))
        .push((
            "disabled_members"@,
            js::coalesced(o.get("disabled_members"@), json::Tree::Array(Seq::empty())),
        ))
        .push(("chat_id"@, js::coalesced(o.get("chat_id"@), json::txt(id))))
        .push((
            "chats"@,
            js::coalesced(o.get("chats"@), json::Tree::Array(json::items().push(json::txt(id)))),
        ))
        .push(("auto_mode_delay"@, js::coalesced(o.get("auto_mode_delay"@), json::num(5))))
        .push((
            "generation_mode_join_prefix"@,
            js::coalesced(o.get("generation_mode_join_prefix"@), json::txt(Seq::empty())),
        ))
        .push((
            "generation_mode_join_suffix"@,
            js::coalesced(o.get("generation_mode_join_suffix"@), json::txt(Seq::empty())),
        ));
    let pictured = match o.get("avatar_url"@) {
        Some(t) => base.push(("avatar_url"@, t)),
        None => base,
    };
    match o.get("fav"@) {
        Some(t) => pictured.push(("fav"@, t)),
        None => pictured,
    }
}

/// The group that is made of a request, or the refusal of a request without a body. `id` is
/// the time as a text.
pub fn create_group(body: Option<&Json>, id: &str) -> (r: Result<Json, Reply>)
    ensures
        match json::tree_opt(body) {
            Some(t) => if t is Null {
                r matches Err(e) && e@ == web::status_only(400)
            } else {
                r matches Ok(g) && g@ == json::Tree::Object(new_group(modern(t), id@))
            },
            None => r matches Err(e) && e@ == web::status_only(400),
        },
{
    let mut o = match body {
        Some(j) => j.copy(),
        None => return Err(Reply::empty(400)),
    };
    if o.is_null() {
        return Err(Reply::empty(400));
    }
    warn_on_group_metadata(&mut o);
    let own = match o.get("allow_self_responses") {
        Some(t) => js::js_truthy(t),
        None => false,
    };
    let mut f = Fields::new()
        .with("id", Json::text(id))
        .with("name", js::coalesce_non_null(o.get("name"), Json::text("New Group")))
        .with("members", js::coalesce_non_null(o.get("members"), Json::no_items()))
        .with("allow_self_responses", Json::Bool(own))
        .with("activation_strategy", js::coalesce_non_null(o.get("activation_strategy"), Json::natural(0)))
        .with("generation_mode", js::coalesce_non_null(o.get("generation_mode"), Json::natural(0)))
        .with("disabled_members", js::coalesce_non_null(o.get("disabled_members"), Json::no_items()))
        .with("chat_id", js::coalesce_non_null(o.get("chat_id"), Json::text(id)))
        .with("chats", js::coalesce_non_null(o.get("chats"), Json::one_item(Json::text(id))))
        .with("auto_mode_delay", js::coalesce_non_null(o.get("auto_mode_delay"), Json::natural(5)))
        .with(
            "generation_mode_join_prefix",
            js::coalesce_non_null(o.get("generation_mode_join_prefix"), Json::Text(String::new())),
        )
        .with(
            "generation_mode_join_suffix",
            js::coalesce_non_null(o.get("generation_mode_join_suffix"), Json::Text(String::new())),
        );
    match o.get("avatar_url") {
        Some(t) => f.push("avatar_url", t.copy()),
        None => {},
    }
    match o.get("fav") {
        Some(t) => f.push("fav", t.copy()),
        None => {},
    }
    Ok(f.done())
}

/// The file that a group is kept in.
pub open spec fn group_file(id: Seq<char>) -> Seq<char> {
    sanitize::sanitized(id + ".json"@, ""@)
}

/// The file that a group is kept in.
pub fn group_file_name(id: &str) -> (r: String)
    ensures
        r@ == group_file(id@),
{
    sanitize::sanitize_filename_strip(&text::join2(id, ".json"))
}

/// The name of the group that a request is about, where it has one that can be used.
pub open spec fn named_group(body: Option<json::Tree>) -> Option<Seq<char>> {
    match body {
        Some(t) => match t.text_at("id"@) {
            Some(id) => if id.len() > 0 && !helpers::forbidden(id) {
                Some(id)
            } else {
                None
            },
            None => None,
        },
        None => None,
    }
}

fn group_id(body: Option<&Json>) -> (r: Option<String>)
    ensures
        json::string_opt(r) == named_group(json::tree_opt(body)),
{
    match body {
        Some(j) => match j.str_at("id") {
            Some(id) => if !id.is_empty() && !helpers::contains_forbidden_chars(id) {
                Some(id.to_owned())
            } else {
                None
            },
            None => None,
        },
        None => None,
    }
}

/// A group to be written.
#[derive(Debug)]
pub struct GroupWrite {
    pub file_name: String,
    pub group: Json,
}

/// The group to be written for a change, or the refusal where the request is no group or
/// has no name that can be used.
pub fn edit_group(body: Option<&Json>) -> (r: Result<GroupWrite, Reply>)
    ensures
        match named_group(json::tree_opt(body)) {
            Some(id) => r matches Ok(w) && w.file_name@ == group_file(id) && w.group@ == modern(
                json::tree_opt(body)->Some_0,
            ),
            None => r matches Err(e) && e@ == web::status_only(400),
        },
{
    match (group_id(body), body) {
        (Some(id), Some(j)) => {
            let mut group = j.copy();
            warn_on_group_metadata(&mut group);
            Ok(GroupWrite { file_name: group_file_name(&id), group })
        },
        _ => Err(Reply::empty(400)),
    }
}

/// The file of the group to be deleted, or the refusal where the request is no group or has
/// no name that can be used.
pub fn delete_group(body: Option<&Json>) -> (r: Result<String, Reply>)
    ensures
        match named_group(json::tree_opt(body)) {
            Some(id) => r matches Ok(f) && f@ == group_file(id),
            None => r matches Err(e) && e@ == web::status_only(400),
        },
{
    match group_id(body) {
        Some(id) => Ok(group_file_name(&id)),
        None => Err(Reply::empty(400)),
    }
}

/// The files of the chats among the items.
pub open spec fn chat_files(chats: Seq<json::Tree>) -> Seq<Seq<char>>
    decreases chats.len(),
{
    if chats.len() == 0 {
        Seq::empty()
    } else {
        let rest = chat_files(chats.drop_last());
        match chats.last().as_text() {
            Some(id) => rest.push(sanitize::sanitized(id + ".jsonl"@, ""@)),
            None => rest,
        }
    }
}

/// The files of the chats of a group, which are deleted along with it.
pub fn group_chat_files(group: &Json) -> (r: Vec<String>)
    ensures
        json::texts(r@) == chat_files(chats_of(group@)),
{
    let mut out: Vec<String> = Vec::new();
    assert(json::texts(out@) =~= Seq::empty());
    match group.array_at("chats") {
        Some(chats) => {
            let ghost all = json::trees(chats@);
            let mut i: usize = 0;
            assert(json::texts(out@) =~= chat_files(all.take(0)));
            while i < chats.len()
                invariant
                    all == json::trees(chats@),
                    i <= chats@.len(),
                    json::texts(out@) == chat_files(all.take(i as int)),
                decreases chats@.len() - i,
            {
                assert(all.take(i as int + 1).drop_last() =~= all.take(i as int));
                assert(all.take(i as int + 1).last() == chats@[i as int]@);
                let ghost before = out@;
                match chats[i].as_str() {
                    Some(id) => {
                        let name = sanitize::sanitize_filename_strip(&text::join2(id, ".jsonl"));
                        out.push(name);
                        assert(json::texts(out@) =~= json::texts(before).push(name@));
                    },
                    None => {},
                }
                i += 1;
            }
            assert(all.take(all.len() as int) =~= all);
        },
        None => {},
    }
    out
}

/// The answer once a group was written or deleted.
pub fn done_reply() -> (r: Reply)
    ensures
        r@ == web::json_reply(
            200,
            json::Tree::Object(json::members().push(("ok"@, json::Tree::Bool(true)))),
        ),
{
    Reply::json(200, Fields::new().with("ok", Json::Bool(true)).done())
}

/// A group without the members that are no longer used has neither of them.
pub proof fn modern_has_no_metadata(f: Seq<(Seq<char>, json::Tree)>)
    requires
        json::keys_distinct(f),
    ensures
        modern(json::Tree::Object(f)).get("chat_metadata"@) is None,
        modern(json::Tree::Object(f)).get("past_metadata"@) is None,
{
    let a = json::without(f, "chat_metadata"@);
    json::lookup_after_removal(f, "chat_metadata"@);
    json::lookup_after_removal(a, "past_metadata"@);
    reveal_strlit("chat_metadata");
    reveal_strlit("past_metadata");
    assert("chat_metadata"@[0] == 'c' && "past_metadata"@[0] == 'p');
    json::lookup_after_removal_elsewhere(a, "past_metadata"@, "chat_metadata"@);
}

/// Whether a member is one that a client is told of a group beyond what its file says.
pub open spec fn told_beyond(k: Seq<char>) -> bool {
    k == "date_added"@ || k == "create_date"@ || k == "date_last_chat"@ || k == "chat_size"@
}

/// A client is always told of a picture of a group, an empty one where there is none, and of
/// every other member as it stands in the file.
pub proof fn picture_is_always_told(
    f: Seq<(Seq<char>, json::Tree)>,
    added: json::Tree,
    create_date: Seq<char>,
    files: Seq<GroupChatFile>,
)
    ensures
        annotated(json::Tree::Object(f), added, create_date, files) matches Some(t) && t.get(
            "avatar_url"@,
        ) == Some(json::tree_or(json::lookup(f, "avatar_url"@), json::txt(Seq::empty())))
            && forall|k: Seq<char>|
            k != "avatar_url"@ && !told_beyond(k) ==> #[trigger] t.get(k) == json::lookup(f, k),
{
    reveal_strlit("avatar_url");
    reveal_strlit("date_added");
    reveal_strlit("create_date");
    reveal_strlit("date_last_chat");
    reveal_strlit("chat_size");
    assert("avatar_url"@[0] == 'a' && "date_added"@[0] == 'd');
    assert("create_date"@.len() == 11 && "date_last_chat"@.len() == 14 && "chat_size"@.len() == 9);
    let picture = json::txt(Seq::empty());
    let pictured = if json::lookup(f, "avatar_url"@) is Some {
        f
    } else {
        json::put(f, "avatar_url"@, picture)
    };
    json::lookup_after_put(f, "avatar_url"@, picture);
    let a = json::put(pictured, "date_added"@, added);
    let dated = json::put(a, "create_date"@, json::txt(create_date));
    let chats = chats_of(json::Tree::Object(dated));
    let last = last_chat(files, chats);
    let time = json::Tree::Float(last.0, last.1);
    let timed = json::put(dated, "date_last_chat"@, time);
    let size = json::num(chats_size(files, chats) as u64);
    let out = json::put(timed, "chat_size"@, size);
    assert forall|k: Seq<char>| !told_beyond(k) implies #[trigger] json::lookup(out, k)
        == json::lookup(pictured, k) by {
        json::lookup_after_put_elsewhere(pictured, "date_added"@, added, k);
        json::lookup_after_put_elsewhere(a, "create_date"@, json::txt(create_date), k);
        json::lookup_after_put_elsewhere(dated, "date_last_chat"@, time, k);
        json::lookup_after_put_elsewhere(timed, "chat_size"@, size, k);
    }
    let t = json::Tree::Object(out);
    assert(json::lookup(out, "avatar_url"@) == json::lookup(pictured, "avatar_url"@));
    assert forall|k: Seq<char>| k != "avatar_url"@ && !told_beyond(k) implies #[trigger] t.get(k)
        == json::lookup(f, k) by {
        assert(json::lookup(out, k) == json::lookup(pictured, k));
        json::lookup_after_put_elsewhere(f, "avatar_url"@, picture, k);
    }
}

/// A group that is made without chats has one, named after the group, and the file of that
/// chat is what is deleted along with the group.
pub proof fn new_group_has_its_chat(o: json::Tree, id: Seq<char>)
    requires
        o.get("chats"@) is None || o.get("chats"@) == Some(json::Tree::Null),
    ensures
        chats_of(json::Tree::Object(new_group(o, id))) == json::items().push(json::txt(id)),
        chat_files(chats_of(json::Tree::Object(new_group(o, id)))) == Seq::<Seq<char>>::empty().push(
            sanitize::sanitized(id + ".jsonl"@, ""@),
        ),
{
    reveal_strlit("id");
    reveal_strlit("name");
    reveal_strlit("members");
    reveal_strlit("allow_self_responses");
    reveal_strlit("activation_strategy");
    reveal_strlit("generation_mode");
    reveal_strlit("disabled_members");
    reveal_strlit("chat_id");
    reveal_strlit("chats");
    assert("chats"@.len() == 5);
    let g = new_group(o, id);
    assert(g[8].0 == "chats"@);
    assert(g[0].0.len() == 2 && g[1].0.len() == 4 && g[2].0.len() == 7 && g[3].0.len() == 20);
    assert(g[4].0.len() == 19 && g[5].0.len() == 15 && g[6].0.len() == 16 && g[7].0.len() == 7);
    json::position_is(g, "chats"@, 8);
    let chats = json::items().push(json::txt(id));
    assert(json::lookup(g, "chats"@) == Some(json::Tree::Array(chats)));
    assert(chats.drop_last() =~= Seq::empty());
    assert(chat_files(chats.drop_last()) =~= Seq::empty());
}

/// The file of a group: what it holds where it could be read, when it was made as it is told
/// of, and the same in seconds and nanoseconds where that is known.
#[derive(Debug)]
pub struct GroupFile {
    pub group: Option<Json>,
    pub added: Json,
    pub created: Option<(i64, u32)>,
}

/// When a group was made, as text; empty where that is not known or cannot be told.
pub open spec fn created_text(created: Option<(i64, u32)>) -> Seq<char> {
    match created {
        Some(t) => secrets::or_empty(outside::rfc3339_text(t.0, t.1)),
        None => Seq::empty(),
    }
}

/// What a client is told of the group of a file.
pub open spec fn told_of(file: GroupFile, chats: Seq<GroupChatFile>) -> Option<json::Tree> {
    match web::owned_tree(file.group) {
        Some(g) => annotated(g, file.added@, created_text(file.created), chats),
        None => None,
    }
}

/// What a client is told of the groups of files, in their order; those that are no groups
/// are passed over.
pub open spec fn told_of_all(files: Seq<GroupFile>, chats: Seq<GroupChatFile>) -> Seq<json::Tree>
    decreases files.len(),
{
    if files.len() == 0 {
        Seq::empty()
    } else {
        let rest = told_of_all(files.drop_last(), chats);
        match told_of(files.last(), chats) {
            Some(t) => rest.push(t),
            None => rest,
        }
    }
}

/// The answer that tells of all groups; of none where their directory cannot be read.
pub fn get_all_groups(files: Option<&Vec<GroupFile>>, chats: &Vec<GroupChatFile>) -> (r: Reply)
    requires
        files_size(chats@) <= u64::MAX,
    ensures
        r@ == web::json_reply(
            200,
            json::Tree::Array(
                match files {
                    Some(v) => told_of_all(v@, chats@),
                    None => Seq::empty(),
                },
            ),
        ),
{
    let list = match files {
        Some(v) => v,
        None => return Reply::json(200, Json::no_items()),
    };
    let mut out: Vec<Json> = Vec::new();
    let mut i: usize = 0;
    assert(json::trees(out@) =~= told_of_all(list@.take(0), chats@));
    while i < list.len()
        invariant
            files_size(chats@) <= u64::MAX,
            i <= list@.len(),
            json::trees(out@) == told_of_all(list@.take(i as int), chats@),
        decreases list@.len() - i,
    {
        assert(list@.take(i as int + 1).drop_last() =~= list@.take(i as int));
        assert(list@.take(i as int + 1).last() == list@[i as int]);
        let file = &list[i];
        match &file.group {
            Some(g) => {
                let date = match file.created {
                    Some(t) => secrets::unwrap_or_empty(outside::format_rfc3339(t.0, t.1)),
                    None => String::new(),
                };
                match annotate_group(g, &file.added, &date, chats) {
                    Some(t) => {
                        let ghost before = out@;
                        out.push(t);
                        assert(json::trees(out@) =~= json::trees(before).push(t@));
                    },
                    None => {},
                }
            },
            None => {},
        }
        i += 1;
    }
    assert(list@.take(list@.len() as int) =~= list@);
    Reply::json(200, Json::array(out))
}

} // verus!
