//! What holds of the search for files that nothing refers to: what counts as a reference, what is
//! told of the files that are found, and which of them a token opens.

use crate::data_maid as maid;
use crate::data_maid_tokens as tokens;
use crate::json;
use crate::json::Tree;
use crate::paths;
use crate::web;
use vstd::prelude::*;

verus! {

proof fn joined_has(a: Seq<Seq<char>>, b: Seq<Seq<char>>, s: Seq<char>)
    ensures
        (a + b).contains(s) <==> a.contains(s) || b.contains(s),
{
    if a.contains(s) {
        let i = choose|i: int| 0 <= i < a.len() && a[i] == s;
        assert((a + b)[i] == s);
    }
    if b.contains(s) {
        let i = choose|i: int| 0 <= i < b.len() && b[i] == s;
        assert((a + b)[a.len() + i] == s);
    }
    if (a + b).contains(s) {
        let i = choose|i: int| 0 <= i < (a + b).len() && (a + b)[i] == s;
        if i < a.len() {
            assert(a[i] == s);
        } else {
            assert(b[i - a.len()] == s);
        }
    }
}

proof fn one_has(s: Seq<char>)
    ensures
        maid::one(Some(s)).contains(s),
{
    assert(maid::one(Some(s))[0] == s);
}

proof fn text_is_among(v: Seq<Tree>, i: int, s: Seq<char>)
    requires
        0 <= i < v.len(),
        v[i] == Tree::Text(s),
    ensures
        crate::chat_search::texts_among(v).contains(s),
    decreases v.len(),
{
    let rest = crate::chat_search::texts_among(v.drop_last());
    let all = crate::chat_search::texts_among(v);
    if i < v.len() - 1 {
        text_is_among(v.drop_last(), i, s);
        let k = choose|k: int| 0 <= k < rest.len() && rest[k] == s;
        assert(all[k] == s);
    } else {
        assert(all.last() == s);
    }
}

proof fn url_is_among(v: Seq<Tree>, i: int, s: Seq<char>)
    requires
        0 <= i < v.len(),
        v[i].text_at("url"@) == Some(s),
    ensures
        maid::urls_among(v).contains(s),
    decreases v.len(),
{
    joined_has(maid::urls_among(v.drop_last()), maid::one(v.last().text_at("url"@)), s);
    if i < v.len() - 1 {
        url_is_among(v.drop_last(), i, s);
    } else {
        one_has(s);
    }
}

/// Whether a message refers to an image or a video: as its picture, as its film, as one of its
/// alternatives, or among its media.
pub open spec fn shows(m: Tree, s: Seq<char>) -> bool {
    m.get("extra"@) matches Some(x) && {
        ||| x.text_at("image"@) == Some(s)
        ||| x.text_at("video"@) == Some(s)
        ||| x.items_at("image_swipes"@) is Some && x.items_at("image_swipes"@)->0.contains(
            Tree::Text(s),
        )
        ||| x.items_at("media"@) is Some && exists|i: int|
            0 <= i < x.items_at("media"@)->0.len()
                && (#[trigger] x.items_at("media"@)->0[i]).text_at(
                "url"@,
            ) == Some(s)
    }
}

proof fn shown_is_found(m: Tree, s: Seq<char>)
    requires
        shows(m, s),
    ensures
        maid::message_images(m).contains(s),
{
    let x = m.get("extra"@)->0;
    let a = maid::one(x.text_at("image"@));
    let b = maid::one(x.text_at("video"@));
    let c = maid::texts_under(x, "image_swipes"@);
    let d = maid::urls_under(x, "media"@);
    joined_has(a, b, s);
    joined_has(a + b, c, s);
    joined_has(a + b + c, d, s);
    one_has(s);
    if x.items_at("image_swipes"@) is Some && x.items_at("image_swipes"@)->0.contains(
        Tree::Text(s),
    ) {
        let v = x.items_at("image_swipes"@)->0;
        let i = choose|i: int| 0 <= i < v.len() && v[i] == Tree::Text(s);
        text_is_among(v, i, s);
    }
    if x.items_at("media"@) is Some {
        let v = x.items_at("media"@)->0;
        if exists|i: int| 0 <= i < v.len() && (#[trigger] v[i]).text_at("url"@) == Some(s) {
            let i = choose|i: int| 0 <= i < v.len() && (#[trigger] v[i]).text_at("url"@) == Some(s);
            url_is_among(v, i, s);
        }
    }
}

/// Every image that a message shows counts as referred to.
pub proof fn shown_images_are_referred_to(messages: Seq<Tree>, i: int, s: Seq<char>)
    requires
        0 <= i < messages.len(),
        shows(messages[i], s),
    ensures
        maid::images_in(messages).contains(s),
    decreases messages.len(),
{
    joined_has(
        maid::images_in(messages.drop_last()),
        maid::message_images(messages.last()),
        s,
    );
    if i < messages.len() - 1 {
        shown_images_are_referred_to(messages.drop_last(), i, s);
    } else {
        shown_is_found(messages.last(), s);
    }
}

/// Every background of a chat counts as referred to.
pub proof fn backgrounds_are_referred_to(metadata: Seq<Tree>, i: int, v: Seq<Tree>, s: Seq<char>)
    requires
        0 <= i < metadata.len(),
        metadata[i].items_at("chat_backgrounds"@) == Some(v),
        v.contains(Tree::Text(s)),
    ensures
        maid::backgrounds_in(metadata).contains(s),
    decreases metadata.len(),
{
    joined_has(
        maid::backgrounds_in(metadata.drop_last()),
        maid::texts_under(metadata.last(), "chat_backgrounds"@),
        s,
    );
    if i < metadata.len() - 1 {
        backgrounds_are_referred_to(metadata.drop_last(), i, v, s);
    } else {
        let k = choose|k: int| 0 <= k < v.len() && v[k] == Tree::Text(s);
        text_is_among(v, k, s);
    }
}

/// Whether a message has a file attached: as its file or among its files.
pub open spec fn has_attached(m: Tree, s: Seq<char>) -> bool {
    m.get("extra"@) matches Some(x) && {
        ||| x.get("file"@) is Some && x.get("file"@)->0.text_at("url"@) == Some(s)
        ||| x.items_at("files"@) is Some && exists|i: int|
            0 <= i < x.items_at("files"@)->0.len()
                && (#[trigger] x.items_at("files"@)->0[i]).text_at(
                "url"@,
            ) == Some(s)
    }
}

/// Every file that is attached to a message counts as referred to.
pub proof fn attached_files_are_referred_to(messages: Seq<Tree>, i: int, s: Seq<char>)
    requires
        0 <= i < messages.len(),
        has_attached(messages[i], s),
    ensures
        maid::files_in(messages).contains(s),
    decreases messages.len(),
{
    joined_has(maid::files_in(messages.drop_last()), maid::message_files(messages.last()), s);
    if i < messages.len() - 1 {
        attached_files_are_referred_to(messages.drop_last(), i, s);
    } else {
        let x = messages.last().get("extra"@)->0;
        joined_has(
            maid::one(maid::text_below(x, "file"@, "url"@)),
            maid::urls_under(x, "files"@),
            s,
        );
        one_has(s);
        if x.items_at("files"@) is Some {
            let v = x.items_at("files"@)->0;
            if exists|i: int| 0 <= i < v.len() && (#[trigger] v[i]).text_at("url"@) == Some(s) {
                let k = choose|k: int|
                    0 <= k < v.len() && (#[trigger] v[k]).text_at("url"@) == Some(s);
                url_is_among(v, k, s);
            }
        }
    }
}

/// Every file that is attached to a chat counts as referred to.
pub proof fn chat_attachments_are_referred_to(
    metadata: Seq<Tree>,
    i: int,
    v: Seq<Tree>,
    k: int,
    s: Seq<char>,
)
    requires
        0 <= i < metadata.len(),
        metadata[i].items_at("attachments"@) == Some(v),
        0 <= k < v.len(),
        v[k].text_at("url"@) == Some(s),
    ensures
        maid::attachments_in(metadata).contains(s),
    decreases metadata.len(),
{
    joined_has(
        maid::attachments_in(metadata.drop_last()),
        maid::urls_under(metadata.last(), "attachments"@),
        s,
    );
    if i < metadata.len() - 1 {
        chat_attachments_are_referred_to(metadata.drop_last(), i, v, k, s);
    } else {
        url_is_among(v, k, s);
    }
}

/// Every file that the settings attach, to all chats or to a character, counts as referred to.
pub proof fn settings_attachments_are_referred_to(
    settings: Tree,
    x: Tree,
    v: Seq<Tree>,
    k: int,
    f: Seq<(Seq<char>, Tree)>,
    i: int,
    s: Seq<char>,
)
    requires
        settings.get("extension_settings"@) == Some(x),
        0 <= k < v.len(),
        v[k].text_at("url"@) == Some(s),
    ensures
        x.items_at("attachments"@) == Some(v) ==> maid::settings_files(Some(settings)).contains(s),
        x.get("character_attachments"@) == Some(Tree::Object(f)) && 0 <= i < f.len() && f[i].1
            == Tree::Array(v) ==> maid::settings_files(Some(settings)).contains(s),
{
    let a = maid::urls_under(x, "attachments"@);
    let b = match x.get("character_attachments"@) {
        Some(Tree::Object(g)) => maid::attached_to(g),
        _ => Seq::empty(),
    };
    joined_has(a, b, s);
    url_is_among(v, k, s);
    if x.get("character_attachments"@) == Some(Tree::Object(f)) && 0 <= i < f.len() && f[i].1
        == Tree::Array(v) {
        attached_is_found(f, i, v, s);
    }
}

proof fn attached_is_found(f: Seq<(Seq<char>, Tree)>, i: int, v: Seq<Tree>, s: Seq<char>)
    requires
        0 <= i < f.len(),
        f[i].1 == Tree::Array(v),
        maid::urls_among(v).contains(s),
    ensures
        maid::attached_to(f).contains(s),
    decreases f.len(),
{
    joined_has(
        maid::attached_to(f.drop_last()),
        match f.last().1 {
            Tree::Array(w) => maid::urls_among(w),
            _ => Seq::empty(),
        },
        s,
    );
    if i < f.len() - 1 {
        attached_is_found(f.drop_last(), i, v, s);
    }
}

/// The chats of a group are known: the current one and all that it names. A file of a chat is loose
/// where no group knows it, and only there.
pub proof fn chats_of_groups_are_known(groups: Seq<Tree>, i: int, c: Seq<Tree>, s: Seq<char>)
    requires
        0 <= i < groups.len(),
        groups[i].text_at("chat_id"@) == Some(s) || groups[i].items_at("chats"@) == Some(c)
            && c.contains(Tree::Text(s)),
    ensures
        maid::known_chats(groups).contains(s),
    decreases groups.len(),
{
    let g = groups.last();
    let a = maid::known_chats(groups.drop_last());
    let b = maid::one(g.text_at("chat_id"@));
    let d = maid::texts_under(g, "chats"@);
    joined_has(a, b, s);
    joined_has(a + b, d, s);
    if i < groups.len() - 1 {
        chats_of_groups_are_known(groups.drop_last(), i, c, s);
    } else {
        one_has(s);
        if g.items_at("chats"@) == Some(c) && c.contains(Tree::Text(s)) {
            let k = choose|k: int| 0 <= k < c.len() && c[k] == Tree::Text(s);
            text_is_among(c, k, s);
        }
    }
}

/// A file of a chat is loose where its name is unknown, and files with a prefix are all those that
/// begin with it.
pub proof fn files_are_told_by_name(v: Seq<Seq<char>>, known: Seq<Seq<char>>, n: Seq<char>)
    ensures
        maid::loose_by_stem(v.push(n), known) == if known.contains(paths::stem_of(n)) {
            maid::loose_by_stem(v, known)
        } else {
            maid::loose_by_stem(v, known).push(n)
        },
        maid::with_prefix(v.push(n), n) == maid::with_prefix(v, n).push(n),
        maid::loose_by_stem(Seq::empty(), known) == Seq::<Seq<char>>::empty(),
{
    assert(v.push(n).drop_last() =~= v);
    assert(n.subrange(0, n.len() as int) =~= n);
}

/// The metadata of a group are its own and those of its past chats.
pub proof fn group_metadata_are_found(
    group: Tree,
    m: Tree,
    f: Seq<(Seq<char>, Tree)>,
    i: int,
)
    ensures
        group.get("chat_metadata"@) == Some(m) ==> maid::group_metadata(group).contains(m),
        group.get("past_metadata"@) == Some(Tree::Object(f)) && 0 <= i < f.len()
            ==> maid::group_metadata(group).contains(f[i].1),
{
    let a = match group.get("chat_metadata"@) {
        Some(x) => json::items().push(x),
        None => Seq::empty(),
    };
    let all = maid::group_metadata(group);
    if group.get("chat_metadata"@) == Some(m) {
        assert(all[0] == m);
    }
    if group.get("past_metadata"@) == Some(Tree::Object(f)) && 0 <= i < f.len() {
        assert(all[a.len() + i] == f[i].1);
    }
}

/// What is told of a loose file: its name and its mark, and its folder, its size and its time where
/// they are known.
pub proof fn record_is_told(r: maid::SanitizedRecord)
    ensures
        ({
            let t = maid::record_tree(r);
            &&& t.text_at("name"@) == Some(r.name@)
            &&& t.text_at("hash"@) == Some(r.hash@)
            &&& t.text_at("parent"@) == json::string_opt(r.parent)
            &&& r.size matches Some(n) ==> t.get("size"@) == Some(json::num(n))
            &&& r.size is None ==> t.get("size"@) is None
            &&& t.get("mtime"@) == web::owned_tree(r.mtime)
        }),
{
    reveal_strlit("hash");
    reveal_strlit("mtime");
    reveal_strlit("name");
    reveal_strlit("parent");
    reveal_strlit("size");
    assert("hash"@.len() == 4 && "hash"@[0] == 'h');
    assert("mtime"@.len() == 5);
    assert("name"@.len() == 4 && "name"@[0] == 'n');
    assert("parent"@.len() == 6);
    assert("size"@.len() == 4 && "size"@[0] == 's');
    reveal_with_fuel(json::position, 6);
}

/// The report tells of each kind of file under its own name, with the token.
pub proof fn report_is_told_by_kind(report: maid::SanitizedReport, token: Seq<char>)
    ensures
        ({
            let t = maid::report_tree(report, token);
            &&& t.text_at("token"@) == Some(token)
            &&& t.get("report"@) matches Some(r)
                && r.get("images"@) == Some(maid::record_trees(report.images@))
                && r.get("files"@) == Some(maid::record_trees(report.files@))
                && r.get("chats"@) == Some(maid::record_trees(report.chats@))
                && r.get("groupChats"@) == Some(maid::record_trees(report.group_chats@))
                && r.get("avatarThumbnails"@) == Some(maid::record_trees(report.avatar_thumbnails@))
                && r.get("backgroundThumbnails"@) == Some(maid::record_trees(report.background_thumbnails@))
                && r.get("personaThumbnails"@) == Some(maid::record_trees(report.persona_thumbnails@))
                && r.get("chatBackups"@) == Some(maid::record_trees(report.chat_backups@))
                && r.get("settingsBackups"@) == Some(maid::record_trees(report.settings_backups@))
        }),
{
    reveal_strlit("avatarThumbnails");
    reveal_strlit("backgroundThumbnails");
    reveal_strlit("chatBackups");
    reveal_strlit("chats");
    reveal_strlit("files");
    reveal_strlit("groupChats");
    reveal_strlit("images");
    reveal_strlit("personaThumbnails");
    reveal_strlit("report");
    reveal_strlit("settingsBackups");
    reveal_strlit("token");
    assert("avatarThumbnails"@.len() == 16);
    assert("backgroundThumbnails"@.len() == 20);
    assert("chatBackups"@.len() == 11);
    assert("chats"@.len() == 5 && "chats"@[0] == 'c');
    assert("files"@.len() == 5 && "files"@[0] == 'f');
    assert("groupChats"@.len() == 10);
    assert("images"@.len() == 6 && "images"@[0] == 'i');
    assert("personaThumbnails"@.len() == 17);
    assert("report"@.len() == 6 && "report"@[0] == 'r');
    assert("settingsBackups"@.len() == 15);
    assert("token"@.len() == 5 && "token"@[0] == 't');
    reveal_with_fuel(json::position, 10);
}

proof fn path_of_mark(files: Seq<Seq<char>>, i: int, from: int)
    requires
        0 <= from <= i < files.len(),
    ensures
        tokens::path_from(tokens::marked(files), maid::mark(files[i]), from) matches Some(p)
            && maid::mark(p) == maid::mark(files[i]) && files.contains(p),
    decreases i - from,
{
    let v = tokens::marked(files);
    if v[from].1 == maid::mark(files[i]) {
        assert(files.contains(files[from]));
    } else if from < i {
        path_of_mark(files, i, from + 1);
    }
}

/// A file of the report is seen by its mark with the token of the report, by the user whom it was
/// made for.
pub proof fn reported_file_is_seen(
    s: Seq<tokens::EntryView>,
    handle: Seq<char>,
    files: Seq<Seq<char>>,
    token: Seq<char>,
    query: maid::ViewQuery,
    i: int,
)
    requires
        tokens::one_each(s),
        tokens::entry_of(s, token) is None,
        0 <= i < files.len(),
        json::string_opt(query.token) == Some(token),
        json::string_opt(query.hash) == Some(maid::mark(files[i])),
    ensures
        tokens::view_of(tokens::issued(s, handle, files, token), query, handle) matches Ok(p)
            && files.contains(p) && maid::mark(p) == maid::mark(files[i]),
{
    tokens::issuing_keeps_one_each(s, handle, files, token);
    path_of_mark(files, i, 0);
}

/// Whether a file of the same mark as another is among some paths.
pub open spec fn has_marked(v: Seq<Seq<char>>, files: Seq<Seq<char>>, file: Seq<char>) -> bool {
    exists|p: int|
        0 <= p < v.len() && files.contains(#[trigger] v[p]) && maid::mark(v[p]) == maid::mark(file)
}

/// A file of the report that the client marks is among those that are deleted.
pub proof fn marked_file_is_deleted(
    s: Seq<tokens::EntryView>,
    handle: Seq<char>,
    files: Seq<Seq<char>>,
    token: Seq<char>,
    body: maid::TokenRequest,
    i: int,
    k: int,
)
    requires
        tokens::one_each(s),
        tokens::entry_of(s, token) is None,
        0 <= i < files.len(),
        json::string_opt(body.token) == Some(token),
        body.hashes is Some && 0 <= k < body.hashes->0@.len(),
        body.hashes->0@[k]@ == maid::mark(files[i]),
    ensures
        tokens::deletion_of(tokens::issued(s, handle, files, token), body, handle) matches Ok(v)
            && has_marked(v, files, files[i]),
{
    tokens::issuing_keeps_one_each(s, handle, files, token);
    let hashes = json::texts(body.hashes->0@);
    assert(hashes[k] == maid::mark(files[i]));
    marked_path_is_named(files, hashes, i, k);
    let v = tokens::paths_named(tokens::marked(files), hashes);
    let stored = tokens::issued(s, handle, files, token);
    assert(tokens::usable(stored, token, handle)->0.paths == tokens::marked(files));
    assert(tokens::deletion_of(stored, body, handle) == Ok::<Seq<Seq<char>>, web::ReplyView>(v));
}

proof fn marked_path_is_named(files: Seq<Seq<char>>, hashes: Seq<Seq<char>>, i: int, k: int)
    requires
        0 <= i < files.len(),
        0 <= k < hashes.len(),
        hashes[k] == maid::mark(files[i]),
    ensures
        has_marked(tokens::paths_named(tokens::marked(files), hashes), files, files[i]),
    decreases hashes.len(),
{
    let front = hashes.drop_last();
    let rest = tokens::paths_named(tokens::marked(files), front);
    let v = tokens::paths_named(tokens::marked(files), hashes);
    if k < hashes.len() - 1 {
        marked_path_is_named(files, front, i, k);
        let p = choose|p: int|
            0 <= p < rest.len() && files.contains(#[trigger] rest[p]) && maid::mark(rest[p])
                == maid::mark(files[i]);
        assert(v[p] == rest[p]);
    } else {
        path_of_mark(files, i, 0);
        assert(files.contains(v[v.len() - 1]));
    }
}

/// Only what lies in the user's folder is deleted.
pub proof fn only_own_files_are_deleted(
    root: Seq<char>,
    v: Seq<tokens::ResolvedPath>,
    p: tokens::ResolvedPath,
)
    ensures
        tokens::within(root, v.push(p)) == if paths::lies_under(p.resolved@, root) {
            tokens::within(root, v).push(p.path@)
        } else {
            tokens::within(root, v)
        },
{
    assert(v.push(p).drop_last() =~= v);
}

} // verus!
