//! Files of a user that nothing refers to any more: how they are found, and the tokens by
//! which they are looked at and deleted.

use crate::characters::reads;
use crate::chat_search;
use crate::json;
use crate::json::{Fields, Json};
use crate::naming;
use crate::outside;
use crate::paths;
use crate::secrets;
use crate::text;
use crate::web;
use crate::web::Reply;
use vstd::prelude::*;

verus! {

/// A token, and what is to be deleted by it.
#[derive(Debug)]
pub struct TokenRequest {
    pub token: Option<String>,
    pub hashes: Option<Vec<String>>,
}

/// A token, and the file that is looked at by it.
#[derive(Debug)]
pub struct ViewQuery {
    pub token: Option<String>,
    pub hash: Option<String>,
}

/// The mark of a path.
pub open spec fn mark(path: Seq<char>) -> Seq<char> {
    outside::sha256_of(vstd::utf8::encode_utf8(path))
}

/// The mark of a path.
pub fn sha256_hex(s: &str) -> (r: String)
    ensures
        r@ == mark(s@),
{
    outside::sha256_digest(s.as_bytes())
}

/// Whether `child` lies under `parent` once both are normalized. Links are followed before,
/// where the paths lead to something.
pub fn is_path_under_parent(parent: &str, child: &str) -> (r: bool)
    ensures
        r == paths::lies_under(child@, parent@),
{
    paths::is_under(child, parent)
}

/// What is told of a file.
#[derive(Debug)]
pub struct SanitizedRecord {
    pub name: String,
    pub hash: String,
    pub parent: Option<String>,
    pub size: Option<u64>,
    pub mtime: Option<Json>,
}

/// The name of the directory that a file is in.
pub open spec fn parent_name(path: Seq<char>) -> Option<Seq<char>> {
    match paths::parent_of(path) {
        Some(p) => paths::last_name(p),
        None => None,
    }
}

/// What is told of a file, given its size and when it changed, where these are known.
pub fn sanitize_record(path: &str, with_parent: bool, size: Option<u64>, mtime: Option<Json>) -> (r:
    SanitizedRecord)
    ensures
        r.name@ == secrets::or_empty(paths::last_name(path@)),
        r.hash@ == mark(path@),
        json::string_opt(r.parent) == if with_parent {
            parent_name(path@)
        } else {
            None
        },
        r.size == size,
        r.mtime == mtime,
{
    let parent = if with_parent {
        match paths::parent(path) {
            Some(p) => paths::file_name(&p),
            None => None,
        }
    } else {
        None
    };
    SanitizedRecord {
        name: secrets::unwrap_or_empty(paths::file_name(path)),
        hash: sha256_hex(path),
        parent,
        size,
        mtime,
    }
}

/// A record as it stands in an answer: what is not known is left out.
pub open spec fn record_tree(r: SanitizedRecord) -> json::Tree {
    let a = json::members().push(("name"@, json::txt(r.name@))).push(("hash"@, json::txt(r.hash@)));
    let b = match r.parent {
        Some(p) => a.push(("parent"@, json::txt(p@))),
        None => a,
    };
    let c = match r.size {
        Some(n) => b.push(("size"@, json::num(n))),
        None => b,
    };
    json::Tree::Object(
        match r.mtime {
            Some(m) => c.push(("mtime"@, m@)),
            None => c,
        },
    )
}

impl SanitizedRecord {
    /// The record as it stands in an answer.
    pub fn to_json(&self) -> (r: Json)
        ensures
            r@ == record_tree(*self),
    {
        let mut f = Fields::new().with("name", Json::text(&self.name)).with(
            "hash",
            Json::text(&self.hash),
        );
        match &self.parent {
            Some(p) => f.push("parent", Json::text(p)),
            None => {},
        }
        match self.size {
            Some(n) => f.push("size", Json::natural(n)),
            None => {},
        }
        match &self.mtime {
            Some(m) => f.push("mtime", m.copy()),
            None => {},
        }
        f.done()
    }
}

/// The files that nothing refers to, by their paths.
#[derive(Debug)]
pub struct RawReport {
    pub images: Vec<String>,
    pub files: Vec<String>,
    pub chats: Vec<String>,
    pub group_chats: Vec<String>,
    pub avatar_thumbnails: Vec<String>,
    pub background_thumbnails: Vec<String>,
    pub persona_thumbnails: Vec<String>,
    pub chat_backups: Vec<String>,
    pub settings_backups: Vec<String>,
}

impl RawReport {
    /// All the files, kind after kind.
    pub open spec fn all(&self) -> Seq<Seq<char>> {
        json::texts(self.images@) + json::texts(self.files@) + json::texts(self.chats@)
            + json::texts(self.group_chats@) + json::texts(self.avatar_thumbnails@)
            + json::texts(self.background_thumbnails@) + json::texts(self.persona_thumbnails@)
            + json::texts(self.chat_backups@) + json::texts(self.settings_backups@)
    }
}

/// What is told of the files that nothing refers to.
#[derive(Debug)]
pub struct SanitizedReport {
    pub images: Vec<SanitizedRecord>,
    pub files: Vec<SanitizedRecord>,
    pub chats: Vec<SanitizedRecord>,
    pub group_chats: Vec<SanitizedRecord>,
    pub avatar_thumbnails: Vec<SanitizedRecord>,
    pub background_thumbnails: Vec<SanitizedRecord>,
    pub persona_thumbnails: Vec<SanitizedRecord>,
    pub chat_backups: Vec<SanitizedRecord>,
    pub settings_backups: Vec<SanitizedRecord>,
}

/// Records as they stand in an answer.
pub open spec fn record_trees(v: Seq<SanitizedRecord>) -> json::Tree {
    json::Tree::Array(Seq::new(v.len(), |i: int| record_tree(v[i])))
}

fn records_json(v: &Vec<SanitizedRecord>) -> (r: Json)
    ensures
        r@ == record_trees(v@),
{
    let mut out: Vec<Json> = Vec::new();
    let mut i: usize = 0;
    while i < v.len()
        invariant
            i <= v@.len(),
            out@.len() == i,
            forall|j: int| 0 <= j < i ==> (#[trigger] out@[j])@ == record_tree(v@[j]),
        decreases v@.len() - i,
    {
        out.push(v[i].to_json());
        i += 1;
    }
    assert(json::trees(out@) =~= record_trees(v@)->Array_0);
    Json::array(out)
}

/// What the client is told of files that nothing refers to, with the token for them.
pub open spec fn report_tree(report: SanitizedReport, token: Seq<char>) -> json::Tree {
    json::Tree::Object(
        json::members()
            .push((
                "report"@,
                json::Tree::Object(
                    json::members()
                        .push(("images"@, record_trees(report.images@)))
                        .push(("files"@, record_trees(report.files@)))
                        .push(("chats"@, record_trees(report.chats@)))
                        .push(("groupChats"@, record_trees(report.group_chats@)))
                        .push(("avatarThumbnails"@, record_trees(report.avatar_thumbnails@)))
                        .push((
                            "backgroundThumbnails"@,
                            record_trees(report.background_thumbnails@),
                        ))
                        .push(("personaThumbnails"@, record_trees(report.persona_thumbnails@)))
                        .push(("chatBackups"@, record_trees(report.chat_backups@)))
                        .push(("settingsBackups"@, record_trees(report.settings_backups@))),
                ),
            ))
            .push(("token"@, json::txt(token))),
    )
}

/// The answer with a report and the token that goes with it.
pub fn generate_report(report: &SanitizedReport, token: &str) -> (r: Reply)
    ensures
        r@ == web::json_reply(200, report_tree(*report, token@)),
{
    let inner = Fields::new()
        .with("images", records_json(&report.images))
        .with("files", records_json(&report.files))
        .with("chats", records_json(&report.chats))
        .with("groupChats", records_json(&report.group_chats))
        .with("avatarThumbnails", records_json(&report.avatar_thumbnails))
        .with("backgroundThumbnails", records_json(&report.background_thumbnails))
        .with("personaThumbnails", records_json(&report.persona_thumbnails))
        .with("chatBackups", records_json(&report.chat_backups))
        .with("settingsBackups", records_json(&report.settings_backups));
    Reply::json(
        200,
        Fields::new().with("report", inner.done()).with("token", Json::text(token)).done(),
    )
}

/// The text under a key of what stands under another one.
pub open spec fn text_below(t: json::Tree, key: Seq<char>, inner: Seq<char>) -> Option<Seq<char>> {
    match t.get(key) {
        Some(x) => x.text_at(inner),
        None => None,
    }
}

/// One reference, where there is one.
pub open spec fn one(o: Option<Seq<char>>) -> Seq<Seq<char>> {
    match o {
        Some(s) => Seq::empty().push(s),
        None => Seq::empty(),
    }
}

/// The texts among the items under a key.
pub open spec fn texts_under(t: json::Tree, key: Seq<char>) -> Seq<Seq<char>> {
    match t.items_at(key) {
        Some(v) => chat_search::texts_among(v),
        None => Seq::empty(),
    }
}

/// The addresses of items.
pub open spec fn urls_among(v: Seq<json::Tree>) -> Seq<Seq<char>>
    decreases v.len(),
{
    if v.len() == 0 {
        Seq::empty()
    } else {
        urls_among(v.drop_last()) + one(v.last().text_at("url"@))
    }
}

/// The addresses of the items under a key.
pub open spec fn urls_under(t: json::Tree, key: Seq<char>) -> Seq<Seq<char>> {
    match t.items_at(key) {
        Some(v) => urls_among(v),
        None => Seq::empty(),
    }
}

/// The pictures that a message refers to.
pub open spec fn message_images(m: json::Tree) -> Seq<Seq<char>> {
    match m.get("extra"@) {
        Some(x) => one(x.text_at("image"@)) + one(x.text_at("video"@)) + texts_under(
            x,
            "image_swipes"@,
        ) + urls_under(x, "media"@),
        None => Seq::empty(),
    }
}

/// The files that a message refers to.
pub open spec fn message_files(m: json::Tree) -> Seq<Seq<char>> {
    match m.get("extra"@) {
        Some(x) => one(text_below(x, "file"@, "url"@)) + urls_under(x, "files"@),
        None => Seq::empty(),
    }
}

/// The files that the settings of a user refer to for characters.
pub open spec fn attached_to(members: Seq<(Seq<char>, json::Tree)>) -> Seq<Seq<char>>
    decreases members.len(),
{
    if members.len() == 0 {
        Seq::empty()
    } else {
        attached_to(members.drop_last()) + (match members.last().1 {
            json::Tree::Array(v) => urls_among(v),
            _ => Seq::empty(),
        })
    }
}

/// The files that the settings of a user refer to.
pub open spec fn settings_files(settings: Option<json::Tree>) -> Seq<Seq<char>> {
    match settings {
        Some(s) => match s.get("extension_settings"@) {
            Some(x) => urls_under(x, "attachments"@) + (match x.get("character_attachments"@) {
                Some(json::Tree::Object(f)) => attached_to(f),
                _ => Seq::empty(),
            }),
            None => Seq::empty(),
        },
        None => Seq::empty(),
    }
}

fn push_one(out: &mut Vec<String>, o: Option<&str>)
    ensures
        json::texts(final(out)@) == json::texts(old(out)@) + one(json::text_opt(o)),
{
    let ghost before = json::texts(out@);
    match o {
        Some(s) => {
            out.push(s.to_owned());
            assert(json::texts(out@) =~= before + one(Some(s@)));
        },
        None => {
            assert(before =~= before + Seq::<Seq<char>>::empty());
        },
    }
}

fn push_texts(out: &mut Vec<String>, t: &Json, key: &str)
    ensures
        json::texts(final(out)@) == json::texts(old(out)@) + texts_under(t@, key@),
{
    let ghost start = json::texts(out@);
    match t.array_at(key) {
        Some(v) => {
            let ghost all = json::trees(v@);
            let mut i: usize = 0;
            assert(start =~= start + chat_search::texts_among(all.take(0)));
            while i < v.len()
                invariant
                    all == json::trees(v@),
                    i <= v@.len(),
                    json::texts(out@) == start + chat_search::texts_among(all.take(i as int)),
                decreases v@.len() - i,
            {
                assert(all.take(i as int + 1).drop_last() =~= all.take(i as int));
                assert(all.take(i as int + 1).last() == v@[i as int]@);
                let ghost before = json::texts(out@);
                push_one(out, v[i].as_str());
                assert(json::texts(out@) =~= start + chat_search::texts_among(
                    all.take(i as int + 1),
                ));
                i += 1;
            }
            assert(all.take(all.len() as int) =~= all);
        },
        None => {
            assert(start =~= start + Seq::<Seq<char>>::empty());
        },
    }
}

fn push_urls(out: &mut Vec<String>, v: &Vec<Json>)
    ensures
        json::texts(final(out)@) == json::texts(old(out)@) + urls_among(json::trees(v@)),
{
    let ghost start = json::texts(out@);
    let ghost all = json::trees(v@);
    let mut i: usize = 0;
    assert(start =~= start + urls_among(all.take(0)));
    while i < v.len()
        invariant
            all == json::trees(v@),
            i <= v@.len(),
            json::texts(out@) == start + urls_among(all.take(i as int)),
        decreases v@.len() - i,
    {
        assert(all.take(i as int + 1).drop_last() =~= all.take(i as int));
        assert(all.take(i as int + 1).last() == v@[i as int]@);
        push_one(out, v[i].str_at("url"));
        assert(json::texts(out@) =~= start + urls_among(all.take(i as int + 1)));
        i += 1;
    }
    assert(all.take(all.len() as int) =~= all);
}

fn push_urls_under(out: &mut Vec<String>, t: &Json, key: &str)
    ensures
        json::texts(final(out)@) == json::texts(old(out)@) + urls_under(t@, key@),
{
    let ghost start = json::texts(out@);
    match t.array_at(key) {
        Some(v) => push_urls(out, v),
        None => {
            assert(start =~= start + Seq::<Seq<char>>::empty());
        },
    }
}

fn push_message_images(out: &mut Vec<String>, m: &Json)
    ensures
        json::texts(final(out)@) == json::texts(old(out)@) + message_images(m@),
{
    let ghost start = json::texts(out@);
    match m.get("extra") {
        Some(x) => {
            push_one(out, x.str_at("image"));
            push_one(out, x.str_at("video"));
            push_texts(out, x, "image_swipes");
            push_urls_under(out, x, "media");
            assert(json::texts(out@) =~= start + message_images(m@));
        },
        None => {
            assert(start =~= start + Seq::<Seq<char>>::empty());
        },
    }
}

fn push_message_files(out: &mut Vec<String>, m: &Json)
    ensures
        json::texts(final(out)@) == json::texts(old(out)@) + message_files(m@),
{
    let ghost start = json::texts(out@);
    match m.get("extra") {
        Some(x) => {
            let url = match x.get("file") {
                Some(f) => f.str_at("url"),
                None => None,
            };
            push_one(out, url);
            push_urls_under(out, x, "files");
            assert(json::texts(out@) =~= start + message_files(m@));
        },
        None => {
            assert(start =~= start + Seq::<Seq<char>>::empty());
        },
    }
}

/// The pictures that messages refer to.
pub open spec fn images_in(messages: Seq<json::Tree>) -> Seq<Seq<char>>
    decreases messages.len(),
{
    if messages.len() == 0 {
        Seq::empty()
    } else {
        images_in(messages.drop_last()) + message_images(messages.last())
    }
}

/// The backgrounds that are known of chats.
pub open spec fn backgrounds_in(metadata: Seq<json::Tree>) -> Seq<Seq<char>>
    decreases metadata.len(),
{
    if metadata.len() == 0 {
        Seq::empty()
    } else {
        backgrounds_in(metadata.drop_last()) + texts_under(
            metadata.last(),
            "chat_backgrounds"@,
        )
    }
}

/// The pictures that the messages of chats and what is known of them refer to.
pub fn image_references(messages: &Vec<Json>, metadata: &Vec<Json>) -> (r: Vec<String>)
    ensures
        json::texts(r@) == images_in(json::trees(messages@)) + backgrounds_in(
            json::trees(metadata@),
        ),
{
    let mut out: Vec<String> = Vec::new();
    let ghost all = json::trees(messages@);
    let mut i: usize = 0;
    assert(json::texts(out@) =~= images_in(all.take(0)));
    while i < messages.len()
        invariant
            all == json::trees(messages@),
            i <= messages@.len(),
            json::texts(out@) == images_in(all.take(i as int)),
        decreases messages@.len() - i,
    {
        assert(all.take(i as int + 1).drop_last() =~= all.take(i as int));
        assert(all.take(i as int + 1).last() == messages@[i as int]@);
        push_message_images(&mut out, &messages[i]);
        i += 1;
    }
    assert(all.take(all.len() as int) =~= all);
    let ghost start = json::texts(out@);
    let ghost more = json::trees(metadata@);
    let mut k: usize = 0;
    assert(start =~= start + backgrounds_in(more.take(0)));
    while k < metadata.len()
        invariant
            more == json::trees(metadata@),
            k <= metadata@.len(),
            json::texts(out@) == start + backgrounds_in(more.take(k as int)),
        decreases metadata@.len() - k,
    {
        assert(more.take(k as int + 1).drop_last() =~= more.take(k as int));
        assert(more.take(k as int + 1).last() == metadata@[k as int]@);
        push_texts(&mut out, &metadata[k], "chat_backgrounds");
        assert(json::texts(out@) =~= start + backgrounds_in(more.take(k as int + 1)));
        k += 1;
    }
    assert(more.take(more.len() as int) =~= more);
    out
}

/// The files that messages refer to.
pub open spec fn files_in(messages: Seq<json::Tree>) -> Seq<Seq<char>>
    decreases messages.len(),
{
    if messages.len() == 0 {
        Seq::empty()
    } else {
        files_in(messages.drop_last()) + message_files(messages.last())
    }
}

/// The files that are known to be attached to chats.
pub open spec fn attachments_in(metadata: Seq<json::Tree>) -> Seq<Seq<char>>
    decreases metadata.len(),
{
    if metadata.len() == 0 {
        Seq::empty()
    } else {
        attachments_in(metadata.drop_last()) + urls_under(metadata.last(), "attachments"@)
    }
}

fn push_attached(out: &mut Vec<String>, f: &Fields)
    ensures
        json::texts(final(out)@) == json::texts(old(out)@) + attached_to(f@),
{
    let ghost start = json::texts(out@);
    let ghost all = f@;
    let mut i: usize = 0;
    assert(start =~= start + attached_to(all.take(0)));
    while i < f.len()
        invariant
            all == f@,
            i <= all.len(),
            json::texts(out@) == start + attached_to(all.take(i as int)),
        decreases all.len() - i,
    {
        assert(all.take(i as int + 1).drop_last() =~= all.take(i as int));
        let ghost before = json::texts(out@);
        match f.value_at(i).as_array() {
            Some(v) => push_urls(out, v),
            None => {},
        }
        assert(json::texts(out@) =~= start + attached_to(all.take(i as int + 1)));
        i += 1;
    }
    assert(all.take(all.len() as int) =~= all);
}

fn push_settings(out: &mut Vec<String>, settings: Option<&Json>)
    ensures
        json::texts(final(out)@) == json::texts(old(out)@) + settings_files(
            json::tree_opt(settings),
        ),
{
    let ghost start = json::texts(out@);
    let x = match settings {
        Some(s) => match s.get("extension_settings") {
            Some(x) => x,
            None => {
                assert(start =~= start + Seq::<Seq<char>>::empty());
                return;
            },
        },
        None => {
            assert(start =~= start + Seq::<Seq<char>>::empty());
            return;
        },
    };
    push_urls_under(out, x, "attachments");
    match x.get("character_attachments") {
        Some(c) => match c.as_object() {
            Some(f) => push_attached(out, f),
            None => {},
        },
        None => {},
    }
    assert(json::texts(out@) =~= start + settings_files(json::tree_opt(settings)));
}

/// The files that the messages of chats, what is known of them, and the settings of the user
/// refer to.
pub fn file_references(
    messages: &Vec<Json>,
    metadata: &Vec<Json>,
    settings: Option<&Json>,
) -> (r: Vec<String>)
    ensures
        json::texts(r@) == files_in(json::trees(messages@)) + attachments_in(
            json::trees(metadata@),
        ) + settings_files(json::tree_opt(settings)),
{
    let mut out: Vec<String> = Vec::new();
    let ghost all = json::trees(messages@);
    let mut i: usize = 0;
    assert(json::texts(out@) =~= files_in(all.take(0)));
    while i < messages.len()
        invariant
            all == json::trees(messages@),
            i <= messages@.len(),
            json::texts(out@) == files_in(all.take(i as int)),
        decreases messages@.len() - i,
    {
        assert(all.take(i as int + 1).drop_last() =~= all.take(i as int));
        assert(all.take(i as int + 1).last() == messages@[i as int]@);
        push_message_files(&mut out, &messages[i]);
        i += 1;
    }
    assert(all.take(all.len() as int) =~= all);
    let ghost start = json::texts(out@);
    let ghost more = json::trees(metadata@);
    let mut k: usize = 0;
    assert(start =~= start + attachments_in(more.take(0)));
    while k < metadata.len()
        invariant
            more == json::trees(metadata@),
            k <= metadata@.len(),
            json::texts(out@) == start + attachments_in(more.take(k as int)),
        decreases metadata@.len() - k,
    {
        assert(more.take(k as int + 1).drop_last() =~= more.take(k as int));
        assert(more.take(k as int + 1).last() == metadata@[k as int]@);
        push_urls_under(&mut out, &metadata[k], "attachments");
        assert(json::texts(out@) =~= start + attachments_in(more.take(k as int + 1)));
        k += 1;
    }
    assert(more.take(more.len() as int) =~= more);
    push_settings(&mut out, settings);
    out
}

/// What is known of the chats of a group that keeps it itself.
pub open spec fn group_metadata(group: json::Tree) -> Seq<json::Tree> {
    (match group.get("chat_metadata"@) {
        Some(m) => json::items().push(m),
        None => Seq::empty(),
    }) + (match group.get("past_metadata"@) {
        Some(json::Tree::Object(f)) => Seq::new(f.len(), |i: int| f[i].1),
        _ => Seq::empty(),
    })
}

/// What is known of the chats of a group that keeps it itself.
pub fn metadata_of_group(group: &Json) -> (r: Vec<Json>)
    ensures
        json::trees(r@) == group_metadata(group@),
{
    let mut out: Vec<Json> = Vec::new();
    match group.get("chat_metadata") {
        Some(m) => out.push(m.copy()),
        None => {},
    }
    let ghost start = json::trees(out@);
    assert(start =~= (match group@.get("chat_metadata"@) {
        Some(m) => json::items().push(m),
        None => Seq::empty(),
    }));
    match group.get("past_metadata") {
        Some(past) => match past.as_object() {
            Some(f) => {
                let ghost all = Seq::new(f@.len(), |i: int| f@[i].1);
                let mut i: usize = 0;
                assert(json::trees(out@) =~= start + all.take(0));
                while i < f.len()
                    invariant
                        all == Seq::new(f@.len(), |i: int| f@[i].1),
                        i <= f@.len(),
                        json::trees(out@) == start + all.take(i as int),
                    decreases f@.len() - i,
                {
                    let ghost before = json::trees(out@);
                    let v = f.value_at(i).copy();
                    out.push(v);
                    assert(json::trees(out@) =~= before.push(v@));
                    assert(start + all.take(i as int + 1) =~= (start + all.take(i as int)).push(v@));
                    i += 1;
                }
                assert(all.take(all.len() as int) =~= all);
            },
            None => {},
        },
        None => {},
    }
    assert(json::trees(out@) =~= group_metadata(group@));
    out
}

/// The paths under the root that pictures are referred to by: those that are addresses or
/// hold the picture themselves are left out.
pub open spec fn image_paths(root: Seq<char>, refs: Seq<Seq<char>>) -> Seq<Seq<char>>
    decreases refs.len(),
{
    if refs.len() == 0 {
        Seq::empty()
    } else {
        let rest = image_paths(root, refs.drop_last());
        if text::begins(refs.last(), "http"@) || text::begins(refs.last(), "data:"@) {
            rest
        } else {
            rest.push(referred_path(root, refs.last()))
        }
    }
}

/// The path under the root that a client refers to by its name for it, which may begin with a
/// slash.
pub open spec fn referred_path(root: Seq<char>, reference: Seq<char>) -> Seq<char> {
    paths::joined_path(root, text::drop_leading(reference, '/'))
}

fn find_referred_path(root: &str, reference: &str) -> (r: String)
    ensures
        r@ == referred_path(root@, reference@),
{
    paths::join(root, &text::trim_start_char(reference, '/'))
}

/// The paths under the root that files are referred to by.
pub open spec fn file_paths(root: Seq<char>, refs: Seq<Seq<char>>) -> Seq<Seq<char>> {
    Seq::new(refs.len(), |i: int| referred_path(root, refs[i]))
}

proof fn reference_gives_path(root: Seq<char>, refs: Seq<Seq<char>>, i: int)
    requires
        0 <= i < refs.len(),
        !text::begins(refs[i], "http"@),
        !text::begins(refs[i], "data:"@),
    ensures
        image_paths(root, refs).contains(referred_path(root, refs[i])),
    decreases refs.len(),
{
    let d = refs.drop_last();
    let rest = image_paths(root, d);
    let all = image_paths(root, refs);
    let p = referred_path(root, refs[i]);
    if i == d.len() {
        assert(all[rest.len() as int] == p);
    } else {
        reference_gives_path(root, d, i);
        let j = choose|j: int| 0 <= j < rest.len() && rest[j] == p;
        assert(all[j] == p);
    }
}

/// A picture that a chat refers to, by anything but an address or the picture itself, is not
/// loose.
pub proof fn referred_image_is_kept(
    root: Seq<char>,
    refs: Seq<Seq<char>>,
    files: Seq<Seq<char>>,
    i: int,
)
    requires
        0 <= i < refs.len(),
        !text::begins(refs[i], "http"@),
        !text::begins(refs[i], "data:"@),
    ensures
        !loose(files, image_paths(root, refs)).contains(referred_path(root, refs[i])),
{
    reference_gives_path(root, refs, i);
    loose_is_unknown(files, image_paths(root, refs), referred_path(root, refs[i]));
}

/// A file that something refers to is not loose.
pub proof fn referred_file_is_kept(
    root: Seq<char>,
    refs: Seq<Seq<char>>,
    files: Seq<Seq<char>>,
    i: int,
)
    requires
        0 <= i < refs.len(),
    ensures
        !loose(files, file_paths(root, refs)).contains(referred_path(root, refs[i])),
{
    assert(file_paths(root, refs)[i] == referred_path(root, refs[i]));
    loose_is_unknown(files, file_paths(root, refs), referred_path(root, refs[i]));
}

/// A client that refers to a picture by what it was told of its path keeps it from being loose.
pub proof fn told_image_is_kept(
    root: Seq<char>,
    tail: Seq<char>,
    refs: Seq<Seq<char>>,
    files: Seq<Seq<char>>,
)
    requires
        root.len() > 0,
        paths::is_plain(tail),
        !tail.contains('\\'),
        refs.contains(paths::client_path(root, paths::joined_path(root, tail))),
    ensures
        !loose(files, image_paths(root, refs)).contains(paths::joined_path(root, tail)),
        !loose(files, file_paths(root, refs)).contains(paths::joined_path(root, tail)),
{
    let told = paths::client_path(root, paths::joined_path(root, tail));
    reveal_strlit("/");
    reveal_strlit("\\");
    reveal_strlit("http");
    reveal_strlit("data:");
    assert("\\"@ =~= seq!['\\']);
    paths::joined_is_seen(root, tail);
    text::replacing_nothing(tail, "\\"@, "/"@, 0);
    assert(tail.skip(0) =~= tail);
    assert(told[0] == '/');
    assert(told.skip(1) =~= tail);
    reveal_with_fuel(text::drop_leading, 2);
    let i = choose|i: int| 0 <= i < refs.len() && refs[i] == told;
    if text::begins(told, "http"@) {
        assert(told.subrange(0, 4)[0] == told[0]);
    }
    if text::begins(told, "data:"@) {
        assert(told.subrange(0, 5)[0] == told[0]);
    }
    referred_image_is_kept(root, refs, files, i);
    referred_file_is_kept(root, refs, files, i);
}

/// The elements of `v` that are not known.
pub open spec fn loose(v: Seq<Seq<char>>, known: Seq<Seq<char>>) -> Seq<Seq<char>>
    decreases v.len(),
{
    if v.len() == 0 {
        Seq::empty()
    } else {
        let rest = loose(v.drop_last(), known);
        if known.contains(v.last()) {
            rest
        } else {
            rest.push(v.last())
        }
    }
}

/// Nothing that is known is loose, and everything else is.
pub proof fn loose_is_unknown(v: Seq<Seq<char>>, known: Seq<Seq<char>>, s: Seq<char>)
    ensures
        loose(v, known).contains(s) <==> v.contains(s) && !known.contains(s),
    decreases v.len(),
{
    if v.len() > 0 {
        let d = v.drop_last();
        loose_is_unknown(d, known, s);
        assert(v =~= d.push(v.last()));
        let rest = loose(d, known);
        if known.contains(v.last()) {
            if v.contains(s) && !known.contains(s) {
                let i = choose|i: int| 0 <= i < v.len() && v[i] == s;
                assert(d[i] == s);
            }
            if d.contains(s) {
                let i = choose|i: int| 0 <= i < d.len() && d[i] == s;
                assert(v[i] == s);
            }
        } else {
            let all = rest.push(v.last());
            if all.contains(s) {
                let i = choose|i: int| 0 <= i < all.len() && all[i] == s;
                if i < rest.len() {
                    assert(rest[i] == s);
                    let j = choose|j: int| 0 <= j < d.len() && d[j] == s;
                    assert(v[j] == s);
                } else {
                    assert(v[v.len() - 1] == s);
                }
            }
            if v.contains(s) && !known.contains(s) {
                let i = choose|i: int| 0 <= i < v.len() && v[i] == s;
                if i < d.len() {
                    assert(d[i] == s);
                    let j = choose|j: int| 0 <= j < rest.len() && rest[j] == s;
                    assert(all[j] == s);
                } else {
                    assert(all[rest.len() as int] == s);
                }
            }
        }
    }
}

/// The elements of `v` that are not known.
pub fn keep_loose(v: &Vec<String>, known: &Vec<String>) -> (r: Vec<String>)
    ensures
        json::texts(r@) == loose(json::texts(v@), json::texts(known@)),
{
    let ghost all = json::texts(v@);
    let ghost k = json::texts(known@);
    let mut out: Vec<String> = Vec::new();
    let mut i: usize = 0;
    assert(json::texts(out@) =~= loose(all.take(0), k));
    while i < v.len()
        invariant
            all == json::texts(v@),
            k == json::texts(known@),
            i <= v@.len(),
            json::texts(out@) == loose(all.take(i as int), k),
        decreases v@.len() - i,
    {
        assert(all.take(i as int + 1).drop_last() =~= all.take(i as int));
        assert(all.take(i as int + 1).last() == v@[i as int]@);
        let ghost before = out@;
        if !naming::is_taken(&v[i], known) {
            out.push(v[i].clone());
            assert(json::texts(out@) =~= json::texts(before).push(v@[i as int]@));
        }
        i += 1;
    }
    assert(all.take(all.len() as int) =~= all);
    out
}

/// The stems of names.
pub open spec fn stems(v: Seq<Seq<char>>) -> Seq<Seq<char>> {
    Seq::new(v.len(), |i: int| paths::stem_of(v[i]))
}

fn find_stems(v: &Vec<String>) -> (r: Vec<String>)
    ensures
        json::texts(r@) == stems(json::texts(v@)),
{
    let mut out: Vec<String> = Vec::new();
    let mut i: usize = 0;
    while i < v.len()
        invariant
            i <= v@.len(),
            out@.len() == i,
            forall|j: int| 0 <= j < i ==> (#[trigger] out@[j])@ == paths::stem_of(v@[j]@),
        decreases v@.len() - i,
    {
        out.push(paths::stem(&v[i]));
        i += 1;
    }
    assert(json::texts(out@) =~= stems(json::texts(v@)));
    out
}

/// The chats that groups know of.
pub open spec fn known_chats(groups: Seq<json::Tree>) -> Seq<Seq<char>>
    decreases groups.len(),
{
    if groups.len() == 0 {
        Seq::empty()
    } else {
        known_chats(groups.drop_last()) + one(groups.last().text_at("chat_id"@)) + texts_under(
            groups.last(),
            "chats"@,
        )
    }
}

/// Of files those whose name without the extension is not known.
pub open spec fn loose_by_stem(files: Seq<Seq<char>>, known: Seq<Seq<char>>) -> Seq<Seq<char>>
    decreases files.len(),
{
    if files.len() == 0 {
        Seq::empty()
    } else {
        let rest = loose_by_stem(files.drop_last(), known);
        if known.contains(paths::stem_of(files.last())) {
            rest
        } else {
            rest.push(files.last())
        }
    }
}

/// Of names those that begin with a prefix.
pub open spec fn with_prefix(names: Seq<Seq<char>>, prefix: Seq<char>) -> Seq<Seq<char>>
    decreases names.len(),
{
    if names.len() == 0 {
        Seq::empty()
    } else {
        let rest = with_prefix(names.drop_last(), prefix);
        if text::begins(names.last(), prefix) {
            rest.push(names.last())
        } else {
            rest
        }
    }
}

/// Finds the files of a user that nothing refers to any more. The lists of files are lists of
/// names within a directory, or of paths with links followed.
#[derive(Debug)]
pub struct DataMaidService {
    pub handle: String,
    pub root: String,
}

impl DataMaidService {
    /// For the user with a handle, whose files are under a root.
    pub fn new(handle: String, root: String) -> (r: Self)
        ensures
            r.handle == handle,
            r.root == root,
    {
        DataMaidService { handle, root }
    }

    /// The paths under the root that pictures are referred to by.
    pub fn image_paths(&self, refs: &Vec<String>) -> (r: Vec<String>)
        ensures
            json::texts(r@) == image_paths(self.root@, json::texts(refs@)),
    {
        let ghost all = json::texts(refs@);
        let mut out: Vec<String> = Vec::new();
        let mut i: usize = 0;
        assert(json::texts(out@) =~= image_paths(self.root@, all.take(0)));
        while i < refs.len()
            invariant
                all == json::texts(refs@),
                i <= refs@.len(),
                json::texts(out@) == image_paths(self.root@, all.take(i as int)),
            decreases refs@.len() - i,
        {
            assert(all.take(i as int + 1).drop_last() =~= all.take(i as int));
            assert(all.take(i as int + 1).last() == refs@[i as int]@);
            let ghost before = out@;
            if !(text::starts_with(&refs[i], "http") || text::starts_with(&refs[i], "data:")) {
                let p = find_referred_path(&self.root, &refs[i]);
                out.push(p);
                assert(json::texts(out@) =~= json::texts(before).push(p@));
            }
            i += 1;
        }
        assert(all.take(all.len() as int) =~= all);
        out
    }

    /// The paths under the root that files are referred to by.
    pub fn file_paths(&self, refs: &Vec<String>) -> (r: Vec<String>)
        ensures
            json::texts(r@) == file_paths(self.root@, json::texts(refs@)),
    {
        let mut out: Vec<String> = Vec::new();
        let mut i: usize = 0;
        while i < refs.len()
            invariant
                i <= refs@.len(),
                out@.len() == i,
                forall|j: int|
                    0 <= j < i ==> (#[trigger] out@[j])@ == referred_path(self.root@, refs@[j]@),
            decreases refs@.len() - i,
        {
            out.push(find_referred_path(&self.root, &refs[i]));
            i += 1;
        }
        assert(json::texts(out@) =~= file_paths(self.root@, json::texts(refs@)));
        out
    }

    /// The pictures of the user at paths that no chat refers to.
    pub fn collect_images(&self, images: &Vec<String>, known: &Vec<String>) -> (r: Vec<String>)
        ensures
            json::texts(r@) == loose(json::texts(images@), json::texts(known@)),
    {
        keep_loose(images, known)
    }

    /// The files of the user at paths that nothing refers to.
    pub fn collect_files(&self, files: &Vec<String>, known: &Vec<String>) -> (r: Vec<String>)
        ensures
            json::texts(r@) == loose(json::texts(files@), json::texts(known@)),
    {
        keep_loose(files, known)
    }

    /// The directories of chats without a character, given the files of the characters.
    pub fn collect_chats(&self, folders: &Vec<String>, characters: &Vec<String>) -> (r: Vec<String>)
        ensures
            json::texts(r@) == loose(
                json::texts(folders@),
                stems(reads::with_extension(json::texts(characters@), "png"@)),
            ),
    {
        let pictures = reads::files_with_extension(characters, "png");
        keep_loose(folders, &find_stems(&pictures))
    }

    /// The chats of groups that no group knows of, given the files of the chats.
    pub fn collect_group_chats(&self, files: &Vec<String>, groups: &Vec<Json>) -> (r: Vec<String>)
        ensures
            json::texts(r@) == loose_by_stem(
                reads::with_extension(json::texts(files@), "jsonl"@),
                known_chats(json::trees(groups@)),
            ),
    {
        let mut known: Vec<String> = Vec::new();
        let ghost all = json::trees(groups@);
        let mut i: usize = 0;
        assert(json::texts(known@) =~= known_chats(all.take(0)));
        while i < groups.len()
            invariant
                all == json::trees(groups@),
                i <= groups@.len(),
                json::texts(known@) == known_chats(all.take(i as int)),
            decreases groups@.len() - i,
        {
            assert(all.take(i as int + 1).drop_last() =~= all.take(i as int));
            assert(all.take(i as int + 1).last() == groups@[i as int]@);
            push_one(&mut known, groups[i].str_at("chat_id"));
            push_texts(&mut known, &groups[i], "chats");
            i += 1;
        }
        assert(all.take(all.len() as int) =~= all);
        let chats = reads::files_with_extension(files, "jsonl");
        let ghost c = json::texts(chats@);
        let ghost k = json::texts(known@);
        let mut out: Vec<String> = Vec::new();
        let mut j: usize = 0;
        assert(json::texts(out@) =~= loose_by_stem(c.take(0), k));
        while j < chats.len()
            invariant
                c == json::texts(chats@),
                k == json::texts(known@),
                j <= chats@.len(),
                json::texts(out@) == loose_by_stem(c.take(j as int), k),
            decreases chats@.len() - j,
        {
            assert(c.take(j as int + 1).drop_last() =~= c.take(j as int));
            assert(c.take(j as int + 1).last() == chats@[j as int]@);
            let ghost before = out@;
            if !naming::is_taken(&paths::stem(&chats[j]), &known) {
                out.push(chats[j].clone());
                assert(json::texts(out@) =~= json::texts(before).push(chats@[j as int]@));
            }
            j += 1;
        }
        assert(c.take(c.len() as int) =~= c);
        out
    }

    /// The thumbnails without a picture that they are of.
    pub fn collect_loose_thumbnails(&self, sources: &Vec<String>, thumbnails: &Vec<String>) -> (r:
        Vec<String>)
        ensures
            json::texts(r@) == loose(json::texts(thumbnails@), json::texts(sources@)),
    {
        keep_loose(thumbnails, sources)
    }

    /// The backups whose names begin with a prefix.
    pub fn collect_backup_files(&self, names: &Vec<String>, prefix: &str) -> (r: Vec<String>)
        ensures
            json::texts(r@) == with_prefix(json::texts(names@), prefix@),
    {
        let ghost all = json::texts(names@);
        let mut out: Vec<String> = Vec::new();
        let mut i: usize = 0;
        assert(json::texts(out@) =~= with_prefix(all.take(0), prefix@));
        while i < names.len()
            invariant
                all == json::texts(names@),
                i <= names@.len(),
                json::texts(out@) == with_prefix(all.take(i as int), prefix@),
            decreases names@.len() - i,
        {
            assert(all.take(i as int + 1).drop_last() =~= all.take(i as int));
            assert(all.take(i as int + 1).last() == names@[i as int]@);
            let ghost before = out@;
            if text::starts_with(&names[i], prefix) {
                out.push(names[i].clone());
                assert(json::texts(out@) =~= json::texts(before).push(names@[i as int]@));
            }
            i += 1;
        }
        assert(all.take(all.len() as int) =~= all);
        out
    }
}

/// What is known of a chat: what its first line says.
pub fn metadata_of_chat(messages: &Vec<Json>) -> (r: Option<Json>)
    ensures
        match r {
            Some(m) => messages@.len() > 0 && messages@[0]@.get("chat_metadata"@) == Some(m@),
            None => messages@.len() == 0 || messages@[0]@.get("chat_metadata"@) is None,
        },
{
    if messages.len() == 0 {
        return None;
    }
    match messages[0].get("chat_metadata") {
        Some(m) => Some(m.copy()),
        None => None,
    }
}

} // verus!
