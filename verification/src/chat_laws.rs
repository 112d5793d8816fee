//! What holds of chats and groups: where they are stored, how they are found and ordered, and what
//! is told of them.

use crate::characters::helpers;
use crate::characters::reads;
use crate::chat_search as search;
use crate::chats;
use crate::groups;
use crate::json;
use crate::json::Tree;
use crate::sanitize;
use crate::text;
use crate::web;
use vstd::prelude::*;

verus! {

proof fn picture_names_folder(a: Seq<char>)
    requires
        !text::ends(a, ".png"@),
    ensures
        chats::folder_of(a + ".png"@) == a,
        chats::folder_of(a) == a,
{
    reveal_strlit(".png");
    let s = a + ".png"@;
    assert(s.subrange(a.len() as int, (a.len() + 4) as int) =~= ".png"@);
    assert(text::ends(s, ".png"@));
    assert(s.take(s.len() - 4) =~= a);
    reveal_with_fuel(text::drop_suffixes, 2);
}

/// The chats of a character are in the folder that bears the name of its picture: there a chat is
/// saved, there it is read, there it is renamed, and from there it is deleted, in the file that
/// bears its name.
pub proof fn chat_has_one_place(
    character: Seq<char>,
    name: Seq<char>,
    saved: chats::SaveChatRequest,
    read: chats::GetChatRequest,
    deleted: chats::DeleteChatRequest,
    renamed: chats::RenameChatRequest,
    old_file: Seq<char>,
    new_file: Seq<char>,
)
    requires
        !text::ends(character, ".png"@),
        !character.contains('/') && !character.contains('\0'),
        name.len() > 0 && old_file.len() > 0 && new_file.len() > 0,
        json::string_opt(saved.avatar_url) == Some(character + ".png"@),
        json::string_opt(saved.file_name) == Some(name),
        saved.chat is Some,
        json::string_opt(read.avatar_url) == Some(character + ".png"@),
        json::string_opt(read.file_name) == Some(name),
        json::string_opt(deleted.avatar_url) == Some(character + ".png"@),
        json::string_opt(deleted.chatfile) == Some(name + ".jsonl"@),
        json::string_opt(renamed.avatar_url) == Some(character + ".png"@),
        json::string_opt(renamed.original_file) == Some(old_file),
        json::string_opt(renamed.renamed_file) == Some(new_file),
    ensures
        chats::save_place(saved) == Ok::<(Option<Seq<char>>, Seq<char>), web::ReplyView>(
            (Some(character), sanitize::sanitized(name + ".jsonl"@, ""@)),
        ),
        chats::read_folder(read) == Ok::<Seq<char>, web::ReplyView>(character),
        chats::read_file(read, true) == Ok::<Seq<char>, web::ReplyView>(
            sanitize::sanitized(name + ".jsonl"@, ""@),
        ),
        chats::delete_place(deleted) == chats::save_place(saved),
        chats::rename_places(renamed) matches Ok(p) && p.0 == (if renamed.is_group == Some(true) {
            None
        } else {
            Some(character)
        }) && p.1 == sanitize::sanitized(old_file, ""@)
            && p.2 == sanitize::sanitized(new_file, ""@),
{
    picture_names_folder(character);
    reveal_strlit(".png");
    reveal_strlit(".jsonl");
    let s = character + ".png"@;
    assert forall|i: int| 0 <= i < s.len() implies s[i] != '/' && s[i] != '\0' by {
        if i < character.len() {
            assert(character.contains(character[i]));
        } else {
            assert(".png"@[0] == '.' && ".png"@[1] == 'p' && ".png"@[2] == 'n' && ".png"@[3]
                == 'g');
        }
    }
    assert(!helpers::forbidden(s));
    chats::chat_is_deleted_where_stored(name);
}

/// Without the name of a chat, or with a name of a character that leads out of its folder, no chat
/// is saved or deleted.
pub proof fn chat_needs_its_names(
    saved: chats::SaveChatRequest,
    deleted: chats::DeleteChatRequest,
    avatar: Seq<char>,
)
    requires
        json::string_opt(saved.avatar_url) == Some(avatar),
        json::string_opt(deleted.avatar_url) == Some(avatar),
        avatar.contains('/') || saved.file_name is None && deleted.chatfile is None,
    ensures
        chats::save_place(saved) matches Err(e) && e.status == 400,
        chats::delete_place(deleted) matches Err(e) && e.status == 400,
{
}

/// The integrity of a chat is told by its header.
pub proof fn integrity_is_in_header(header: Tree, rest: Seq<Tree>, m: Tree, token: Seq<char>)
    requires
        header.get("chat_metadata"@) == Some(m),
        m.text_at("integrity"@) == Some(token),
    ensures
        chats::integrity_of(seq![header] + rest) == Some(token),
{
    assert((seq![header] + rest)[0] == header);
}

/// A line that is exported as plain text stands behind those before it, with who says it and what
/// is shown; what the system says is left out.
pub proof fn exported_line_is_added(
    lines: Seq<Tree>,
    line: Tree,
    who: Seq<char>,
    mes: Seq<char>,
    extra: Tree,
    shown: Seq<char>,
)
    requires
        line.text_at("name"@) == Some(who),
        line.text_at("mes"@) == Some(mes),
        ({
            ||| line.get("extra"@) is None && shown == mes
            ||| line.get("extra"@) == Some(extra) && extra.text_at("display_text"@) == Some(shown)
        }),
        !shown.contains('\r'),
    ensures
        line.flag_at("is_system"@) == Some(true) ==> chats::plain_text(lines.push(line))
            == chats::plain_text(lines),
        line.flag_at("is_system"@) != Some(true) ==> chats::plain_text(lines.push(line))
            == chats::plain_text(lines) + (who + ": "@ + shown + "\n\n"@),
{
    assert(lines.push(line).drop_last() =~= lines);
    reveal_strlit("\r\n");
    assert("\r\n"@.len() == 2 && "\r\n"@[0] == '\r');
    text::replacing_nothing(shown, "\r\n"@, "\n"@, 0);
    assert(shown.skip(0) =~= shown);
    assert(chats::plain_text(lines) + Seq::<char>::empty() =~= chats::plain_text(lines));
}

/// A chat is exported as it stands in its file, or as plain text where that is asked for, under
/// the name that is asked for.
pub proof fn export_gives_content(
    body: chats::ExportChatRequest,
    path: Seq<char>,
    content: Seq<char>,
    lines: Seq<Tree>,
    name: Seq<char>,
)
    requires
        json::string_opt(body.exportfilename) == Some(name),
    ensures
        ({
            let r = chats::exported(body, path, Some(content), lines);
            &&& r.status == 200 && r.payload is Json
            &&& r.payload->Json_0.text_at("message"@) == Some("Chat saved to "@ + name)
            &&& r.payload->Json_0.text_at("result"@) == Some(
                if json::string_opt(body.format) == Some("jsonl"@) {
                    content
                } else {
                    chats::plain_text(lines)
                },
            )
        }),
        chats::exported(body, path, None, lines).status >= 400,
{
    reveal_strlit("message");
    reveal_strlit("result");
    assert("message"@.len() == 7);
    assert("result"@.len() == 6);
    reveal_with_fuel(json::position, 3);
}

/// A chat is found where every word of the query occurs in a message, or every one in its name; a
/// query without words finds every chat that has a name.
pub proof fn every_word_is_found(
    query: Seq<char>,
    fragments: Seq<Seq<char>>,
    info: reads::ChatInfoView,
    id: Seq<char>,
    texts: Seq<Seq<char>>,
    j: int,
)
    requires
        search::chat_found(query, fragments, info, id, texts),
        query.len() > 0,
        0 <= j < fragments.len(),
    ensures
        info.file_name.len() > 0,
        text::occurs(id, fragments[j]) || exists|i: int|
            0 <= i < texts.len() && text::occurs(#[trigger] texts[i], fragments[j]),
{
    if search::all_found(fragments, texts) {
        assert(search::found_in(fragments[j], texts));
    } else {
        let one = Seq::empty().push(id);
        assert(search::found_in(fragments[j], one));
        let i = choose|i: int| 0 <= i < one.len() && text::occurs(#[trigger] one[i], fragments[j]);
        assert(one[i] == id);
    }
}

/// A chat is found by its name, and by a message that holds all that is searched for.
pub proof fn what_occurs_is_found(
    query: Seq<char>,
    fragments: Seq<Seq<char>>,
    info: reads::ChatInfoView,
    id: Seq<char>,
    texts: Seq<Seq<char>>,
    k: int,
)
    requires
        info.file_name.len() > 0,
        ({
            ||| query.len() == 0
            ||| forall|j: int| 0 <= j < fragments.len() ==> text::occurs(id, #[trigger] fragments[j])
            ||| 0 <= k < texts.len() && forall|j: int|
                0 <= j < fragments.len() ==> text::occurs(texts[k], #[trigger] fragments[j])
        }),
    ensures
        search::chat_found(query, fragments, info, id, texts),
{
    let one = Seq::empty().push(id);
    assert(one[0] == id);
    if query.len() > 0 {
        if forall|j: int| 0 <= j < fragments.len() ==> text::occurs(id, #[trigger] fragments[j]) {
            assert forall|j: int| 0 <= j < fragments.len() implies search::found_in(
                #[trigger] fragments[j],
                one,
            ) by {
                assert(text::occurs(one[0], fragments[j]));
            }
        } else {
            assert forall|j: int| 0 <= j < fragments.len() implies search::found_in(
                #[trigger] fragments[j],
                texts,
            ) by {
                assert(text::occurs(texts[k], fragments[j]));
            }
        }
    }
}

/// Every message that has a text is searched, in small letters.
pub proof fn messages_are_searched(messages: Seq<Tree>, m: Tree, mes: Seq<char>)
    ensures
        m.text_at("mes"@) == Some(mes) ==> search::message_texts(messages.push(m))
            == search::message_texts(messages).push(text::lowercase(mes)),
        m.text_at("mes"@) is None ==> search::message_texts(messages.push(m))
            == search::message_texts(messages),
{
    assert(messages.push(m).drop_last() =~= messages);
}

/// What is told of a chat that was found: its name without the extension, its size, the number of
/// its messages, when the last of them was sent, and the preview.
pub proof fn found_chat_is_described(info: reads::ChatInfoView, preview: Seq<char>)
    ensures
        ({
            let t = search::search_tree(info, preview);
            &&& t.text_at("file_name"@) == Some(info.file_id)
            &&& t.text_at("file_size"@) == Some(info.file_size)
            &&& t.get("message_count"@) == Some(json::num(info.chat_items as u64))
            &&& t.get("last_mes"@) == Some(info.last_mes)
            &&& t.text_at("preview_message"@) == Some(preview)
        }),
{
    reveal_strlit("file_name");
    reveal_strlit("file_size");
    reveal_strlit("last_mes");
    reveal_strlit("message_count");
    reveal_strlit("preview_message");
    assert("file_name"@.len() == 9 && "file_name"@[5] == 'n');
    assert("file_size"@.len() == 9 && "file_size"@[5] == 's');
    assert("last_mes"@.len() == 8);
    assert("message_count"@.len() == 13);
    assert("preview_message"@.len() == 15);
    reveal_with_fuel(json::position, 6);
}

/// The chats of a group are those that the first group of its identifier names, in their order.
pub proof fn group_names_its_chats(groups: Seq<Tree>, id: Seq<char>, c: Seq<Tree>, k: int)
    requires
        0 <= k < groups.len(),
        groups[k].text_at("id"@) == Some(id),
        groups[k].items_at("chats"@) == Some(c),
        forall|j: int| 0 <= j < k ==> (#[trigger] groups[j]).text_at("id"@) != Some(id),
        forall|j: int| 0 <= j < c.len() ==> #[trigger] c[j] is Text,
    ensures
        search::chats_of_group(groups, id, 0).len() == c.len(),
        forall|j: int|
            0 <= j < c.len() ==> Tree::Text(#[trigger] search::chats_of_group(groups, id, 0)[j])
                == c[j],
{
    group_is_reached(groups, id, k, 0);
    texts_are_kept(c);
}

proof fn group_is_reached(groups: Seq<Tree>, id: Seq<char>, k: int, i: int)
    requires
        0 <= i <= k < groups.len(),
        groups[k].text_at("id"@) == Some(id),
        forall|j: int| i <= j < k ==> (#[trigger] groups[j]).text_at("id"@) != Some(id),
    ensures
        search::chats_of_group(groups, id, i) == search::chats_of_group(groups, id, k),
    decreases k - i,
{
    if i < k {
        group_is_reached(groups, id, k, i + 1);
    }
}

proof fn texts_are_kept(c: Seq<Tree>)
    requires
        forall|j: int| 0 <= j < c.len() ==> #[trigger] c[j] is Text,
    ensures
        search::texts_among(c).len() == c.len(),
        forall|j: int| 0 <= j < c.len() ==> Tree::Text(#[trigger] search::texts_among(c)[j]) == c[j],
    decreases c.len(),
{
    if c.len() > 0 {
        texts_are_kept(c.drop_last());
        assert(c[c.len() - 1] is Text);
    }
}

/// Among the recent chats the pinned ones stand before the others, and among the pinned ones as
/// among the others a chat does not stand before a newer one.
pub proof fn recent_chats_are_ordered(
    files: Seq<search::RecentFile>,
    pinned: Seq<search::PinnedChat>,
    order: Seq<usize>,
    i: int,
    j: int,
)
    requires
        search::in_order(files, pinned, order),
        0 <= i < j < order.len(),
    ensures
        ({
            let a = files[order[i] as int];
            let b = files[order[j] as int];
            &&& order[i] != order[j]
            &&& search::is_pinned(pinned, b) ==> search::is_pinned(pinned, a)
            &&& search::is_pinned(pinned, a) == search::is_pinned(pinned, b) ==> a.mtime >= b.mtime
        }),
{
    assert(search::precedes(files, pinned, order[i] as int, order[j] as int));
}

/// A chat is pinned by its file and its character, or by its file and its group; no other file is.
pub proof fn pin_names_its_chat(
    pinned: Seq<search::PinnedChat>,
    f: search::RecentFile,
    k: int,
    name: Seq<char>,
)
    ensures
        0 <= k < pinned.len() && json::string_opt(pinned[k].file_name) == Some(f.file_name@) && (
        f.png_file is Some && json::string_opt(pinned[k].avatar) == json::string_opt(f.png_file)
            || f.group_id is Some && json::string_opt(pinned[k].group) == json::string_opt(
            f.group_id,
        )) ==> search::is_pinned(pinned, f),
        (forall|i: int|
            0 <= i < pinned.len() ==> json::string_opt((#[trigger] pinned[i]).file_name) != Some(
                f.file_name@,
            )) ==> !search::is_pinned(pinned, f),
{
    if 0 <= k < pinned.len() {
        assert(search::pin_fits(pinned[k], f) ==> search::is_pinned(pinned, f));
    }
}

/// As many recent chats are wanted as the client says, in digits or as a number.
pub proof fn wanted_is_said(n: u64, t: Tree)
    ensures
        search::wanted(Some(json::num(n))) == n,
        search::wanted(None) == u64::MAX,
        t is Null ==> search::wanted(Some(t)) == u64::MAX,
{
}

/// A recent chat is told with its character's picture or its group, besides what is told of any
/// chat; a chat that could not be read is not told.
pub proof fn recent_chat_names_its_owner(
    f: search::RecentFile,
    info: reads::ChatInfoView,
    k: Seq<char>,
)
    requires
        info.file_name.len() > 0,
    ensures
        search::recent_tree(f, info) matches Some(t) && (f.group_id matches Some(g) ==> t.text_at(
            "group"@,
        ) == Some(g@)) && (f.png_file matches Some(p) ==> t.text_at("avatar"@) == Some(p@)) && (k
            != "avatar"@ && k != "group"@ ==> t.get(k) == reads::info_tree(info).get(k)),
{
    reveal_strlit("avatar");
    reveal_strlit("group");
    assert("avatar"@.len() == 6 && "group"@.len() == 5);
    let known = reads::info_tree(info)->Object_0;
    let pictured = match f.png_file {
        Some(p) => json::put(known, "avatar"@, json::txt(p@)),
        None => known,
    };
    if f.png_file is Some {
        json::put_reads(known, "avatar"@, json::txt(f.png_file->0@), "avatar"@);
        json::put_reads(known, "avatar"@, json::txt(f.png_file->0@), k);
    }
    if f.group_id is Some {
        json::put_reads(pictured, "group"@, json::txt(f.group_id->0@), "group"@);
        json::put_reads(pictured, "group"@, json::txt(f.group_id->0@), "avatar"@);
        json::put_reads(pictured, "group"@, json::txt(f.group_id->0@), k);
    }
}

/// What is told of a chat with messages: the name of its file, with and without the extension, how
/// many messages follow its header, and the last message with the time when it was sent.
pub proof fn chat_is_described_by_its_last_line(
    c: reads::ChatContent,
    last: Tree,
    who: Tree,
    mes: Seq<char>,
    sent: Seq<char>,
    m: Tree,
)
    requires
        c.size > 0,
        c.lines > 0,
        web::owned_tree(c.last) == Some(last),
        last.get("name"@) == Some(who),
        last.text_at("mes"@) == Some(mes),
    ensures
        ({
            let i = reads::info_of(c, false);
            &&& i.is_match
            &&& i.file_name == c.file_name@
            &&& i.chat_items == c.lines - 1
            &&& i.mes == mes
            &&& i.file_size == helpers::size_text(c.size as nat)
            &&& last.text_at("send_date"@) == Some(sent) ==> i.last_mes == Tree::Text(sent)
            &&& last.get("send_date"@) is None ==> i.last_mes == Tree::Text(c.modified_text@)
            &&& i.chat_metadata is None
        }),
        c.first is Some && c.first->0@.get("chat_metadata"@) == Some(m) && m is Object
            ==> reads::info_of(c, true).chat_metadata == Some(m),
{
}

/// An empty file is an empty chat, and a file whose last line is none of a chat is passed over.
pub proof fn other_files_are_no_chats(c: reads::ChatContent, with_metadata: bool)
    ensures
        c.size == 0 ==> reads::info_of(c, with_metadata).chat_items == 0 && reads::info_of(
            c,
            with_metadata,
        ).mes == "[The chat is empty]"@ && reads::info_of(c, with_metadata).file_name
            == c.file_name@,
        c.size > 0 && c.last is None ==> reads::info_of(c, with_metadata).file_name.len() == 0,
{
}

/// What is told of a chat is told under its own name each.
pub proof fn chat_info_is_told(i: reads::ChatInfoView, m: Tree)
    ensures
        ({
            let t = reads::info_tree(i);
            &&& t.text_at("file_id"@) == Some(i.file_id)
            &&& t.text_at("file_name"@) == Some(i.file_name)
            &&& t.text_at("file_size"@) == Some(i.file_size)
            &&& t.get("chat_items"@) == Some(json::num(i.chat_items as u64))
            &&& t.text_at("mes"@) == Some(i.mes)
            &&& t.get("last_mes"@) == Some(i.last_mes)
            &&& i.chat_metadata == Some(m) ==> t.get("chat_metadata"@) == Some(m)
            &&& i.chat_metadata is None ==> t.get("chat_metadata"@) is None
        }),
{
    reveal_strlit("chat_items");
    reveal_strlit("chat_metadata");
    reveal_strlit("file_id");
    reveal_strlit("file_name");
    reveal_strlit("file_size");
    reveal_strlit("last_mes");
    reveal_strlit("match");
    reveal_strlit("mes");
    assert("chat_items"@.len() == 10);
    assert("chat_metadata"@.len() == 13);
    assert("file_id"@.len() == 7);
    assert("file_name"@.len() == 9 && "file_name"@[5] == 'n');
    assert("file_size"@.len() == 9 && "file_size"@[5] == 's');
    assert("last_mes"@.len() == 8);
    assert("match"@.len() == 5);
    assert("mes"@.len() == 3);
    reveal_with_fuel(json::position, 9);
}

/// The chats of a character are told one behind the other: each chat that can be read, or each
/// file of a chat with its name where only the names are asked for.
pub proof fn chats_of_character_are_told(
    chats: Seq<reads::ChatContent>,
    c: reads::ChatContent,
    files: Seq<Seq<char>>,
    with_metadata: bool,
    i: int,
)
    ensures
        reads::full_list(chats.push(c), with_metadata) == if reads::info_of(
            c,
            with_metadata,
        ).file_name.len() > 0 {
            reads::full_list(chats, with_metadata).push(
                reads::info_tree(reads::info_of(c, with_metadata)),
            )
        } else {
            reads::full_list(chats, with_metadata)
        },
        reads::full_list(Seq::empty(), with_metadata) == Seq::<Tree>::empty(),
        reads::simple_list(files).len() == files.len(),
        0 <= i < files.len() ==> reads::simple_list(files)[i].text_at("file_name"@) == Some(files[i]),
        reads::chats_reply(Some(files), chats, false, with_metadata) == Tree::Array(
            reads::full_list(chats, with_metadata),
        ),
        reads::chats_reply(Some(files), chats, true, with_metadata) == Tree::Array(
            reads::simple_list(reads::with_extension(files, "jsonl"@)),
        ),
        reads::chats_reply(None, chats, true, with_metadata).flag_at("error"@) == Some(true),
{
    assert(chats.push(c).drop_last() =~= chats);
    reveal_strlit("file_id");
    reveal_strlit("file_name");
    assert("file_id"@.len() == 7);
    assert("file_name"@.len() == 9);
    reveal_with_fuel(json::position, 3);
}

/// The files of an extension are kept in their order, and no others.
pub proof fn files_are_chosen_by_extension(files: Seq<Seq<char>>, f: Seq<char>, ext: Seq<char>)
    ensures
        reads::with_extension(files.push(f), ext) == if crate::paths::extension_of(f) == Some(ext) {
            reads::with_extension(files, ext).push(f)
        } else {
            reads::with_extension(files, ext)
        },
        reads::with_extension(Seq::empty(), ext) == Seq::<Seq<char>>::empty(),
{
    assert(files.push(f).drop_last() =~= files);
}

/// A character is listed behind those before it, whole or in short; one that has no name is not.
pub proof fn characters_are_listed_in_turn(
    characters: Seq<Option<json::Json>>,
    c: json::Json,
    name: Seq<char>,
)
    ensures
        c@.text_at("name"@) == Some(name) ==> reads::listed_all(characters.push(Some(c)), false)
            == reads::listed_all(characters, false).push(c@),
        c@.text_at("name"@) is None ==> reads::listed_all(characters.push(Some(c)), false)
            == reads::listed_all(characters, false) && reads::listed_all(
            characters.push(Some(c)),
            true,
        ) == reads::listed_all(characters, true),
        reads::listed_all(characters.push(None), false) == reads::listed_all(characters, false),
{
    assert(characters.push(Some(c)).drop_last() =~= characters);
    assert(characters.push(None).drop_last() =~= characters);
}

/// A character is told with the name of its file, its card as it stands there, and what is known
/// of its chats; the rest of the card is kept.
pub proof fn character_is_told_with_its_file(
    f: Seq<(Seq<char>, Tree)>,
    file: reads::CharacterFile,
    k: Seq<char>,
)
    ensures
        ({
            let t = Tree::Object(reads::enriched(f, file));
            &&& t.text_at("avatar"@) == Some(file.name@)
            &&& t.text_at("json_data"@) == Some(file.json_data@)
            &&& t.get("date_added"@) == Some(file.date_added@)
            &&& t.get("chat_size"@) == Some(json::num(file.chat_size))
            &&& t.get("date_last_chat"@) == Some(file.date_last_chat@)
            &&& t.get("data_size"@) == Some(
                json::num(helpers::data_size(Tree::Object(f)) as u64),
            )
            &&& Tree::Object(f).text_at("create_date"@) is None ==> t.text_at("create_date"@)
                == Some(file.date_added_text@)
            &&& Tree::Object(f).text_at("create_date"@) is Some ==> t.get("create_date"@)
                == Tree::Object(f).get("create_date"@)
            &&& k != "avatar"@ && k != "json_data"@ && k != "date_added"@ && k != "chat_size"@ && k
                != "date_last_chat"@ && k != "data_size"@ && k != "create_date"@ ==> t.get(k)
                == Tree::Object(f).get(k)
        }),
{
    reveal_strlit("avatar");
    reveal_strlit("chat_size");
    reveal_strlit("create_date");
    reveal_strlit("data_size");
    reveal_strlit("date_added");
    reveal_strlit("date_last_chat");
    reveal_strlit("json_data");
    assert("avatar"@.len() == 6);
    assert("chat_size"@.len() == 9 && "chat_size"@[0] == 'c');
    assert("create_date"@.len() == 11);
    assert("data_size"@.len() == 9 && "data_size"@[0] == 'd');
    assert("date_added"@.len() == 10);
    assert("date_last_chat"@.len() == 14);
    assert("json_data"@.len() == 9 && "json_data"@[0] == 'j');
    let named = json::put(f, "avatar"@, json::txt(file.name@));
    let raw = json::put(named, "json_data"@, json::txt(file.json_data@));
    let added = json::put(raw, "date_added"@, file.date_added@);
    let dated = Tree::Object(added).text_at("create_date"@) is None;
    let created = if dated {
        json::put(added, "create_date"@, json::txt(file.date_added_text@))
    } else {
        added
    };
    let sized = json::put(created, "chat_size"@, json::num(file.chat_size));
    let last = json::put(sized, "date_last_chat"@, file.date_last_chat@);
    let size = json::num(helpers::data_size(Tree::Object(f)) as u64);
    let keys = seq![
        "avatar"@,
        "json_data"@,
        "date_added"@,
        "create_date"@,
        "chat_size"@,
        "date_last_chat"@,
        "data_size"@,
        k,
    ];
    assert forall|i: int| 0 <= i < keys.len() implies ({
        let key = #[trigger] keys[i];
        &&& json::lookup(named, key) == if key == "avatar"@ {
            Some(json::txt(file.name@))
        } else {
            json::lookup(f, key)
        }
        &&& json::lookup(raw, key) == if key == "json_data"@ {
            Some(json::txt(file.json_data@))
        } else {
            json::lookup(named, key)
        }
        &&& json::lookup(added, key) == if key == "date_added"@ {
            Some(file.date_added@)
        } else {
            json::lookup(raw, key)
        }
        &&& json::lookup(created, key) == if key == "create_date"@ && dated {
            Some(json::txt(file.date_added_text@))
        } else {
            json::lookup(added, key)
        }
        &&& json::lookup(sized, key) == if key == "chat_size"@ {
            Some(json::num(file.chat_size))
        } else {
            json::lookup(created, key)
        }
        &&& json::lookup(last, key) == if key == "date_last_chat"@ {
            Some(file.date_last_chat@)
        } else {
            json::lookup(sized, key)
        }
        &&& json::lookup(reads::enriched(f, file), key) == if key == "data_size"@ {
            Some(size)
        } else {
            json::lookup(last, key)
        }
    }) by {
        let key = keys[i];
        json::put_reads(f, "avatar"@, json::txt(file.name@), key);
        json::put_reads(named, "json_data"@, json::txt(file.json_data@), key);
        json::put_reads(raw, "date_added"@, file.date_added@, key);
        if dated {
            json::put_reads(added, "create_date"@, json::txt(file.date_added_text@), key);
        }
        json::put_reads(created, "chat_size"@, json::num(file.chat_size), key);
        json::put_reads(sized, "date_last_chat"@, file.date_last_chat@, key);
        json::put_reads(last, "data_size"@, size, key);
    }
    assert(keys[0] == "avatar"@ && keys[1] == "json_data"@ && keys[2] == "date_added"@ && keys[3]
        == "create_date"@ && keys[4] == "chat_size"@ && keys[5] == "date_last_chat"@ && keys[6]
        == "data_size"@ && keys[7] == k);
}

/// What a new group takes over from the client as it is.
pub open spec fn group_settings() -> Seq<Seq<char>> {
    seq![
        "name"@,
        "members"@,
        "activation_strategy"@,
        "generation_mode"@,
        "disabled_members"@,
        "chat_id"@,
        "chats"@,
        "auto_mode_delay"@,
        "generation_mode_join_prefix"@,
        "generation_mode_join_suffix"@,
    ]
}

proof fn group_names_differ()
    ensures
        "activation_strategy"@.len() == 19,
        "allow_self_responses"@.len() == 20,
        "auto_mode_delay"@.len() == 15 && "auto_mode_delay"@[0] == 'a',
        "avatar_url"@.len() == 10,
        "chat_id"@.len() == 7 && "chat_id"@[0] == 'c',
        "chats"@.len() == 5,
        "disabled_members"@.len() == 16,
        "fav"@.len() == 3,
        "generation_mode"@.len() == 15 && "generation_mode"@[0] == 'g',
        "generation_mode_join_prefix"@.len() == 27 && "generation_mode_join_prefix"@[21] == 'p',
        "generation_mode_join_suffix"@.len() == 27 && "generation_mode_join_suffix"@[21] == 's',
        "id"@.len() == 2,
        "members"@.len() == 7 && "members"@[0] == 'm',
        "name"@.len() == 4,
{
    reveal_strlit("activation_strategy");
    reveal_strlit("allow_self_responses");
    reveal_strlit("auto_mode_delay");
    reveal_strlit("avatar_url");
    reveal_strlit("chat_id");
    reveal_strlit("chats");
    reveal_strlit("disabled_members");
    reveal_strlit("fav");
    reveal_strlit("generation_mode");
    reveal_strlit("generation_mode_join_prefix");
    reveal_strlit("generation_mode_join_suffix");
    reveal_strlit("id");
    reveal_strlit("members");
    reveal_strlit("name");
}

proof fn group_keys(g: Seq<(Seq<char>, Tree)>)
    requires
        12 <= g.len() <= 14,
        g[0].0 == "id"@,
        g[1].0 == "name"@,
        g[2].0 == "members"@,
        g[3].0 == "allow_self_responses"@,
        g[4].0 == "activation_strategy"@,
        g[5].0 == "generation_mode"@,
        g[6].0 == "disabled_members"@,
        g[7].0 == "chat_id"@,
        g[8].0 == "chats"@,
        g[9].0 == "auto_mode_delay"@,
        g[10].0 == "generation_mode_join_prefix"@,
        g[11].0 == "generation_mode_join_suffix"@,
        g.len() > 12 ==> g[12].0 == "avatar_url"@ || g[12].0 == "fav"@,
        g.len() > 13 ==> g[12].0 == "avatar_url"@ && g[13].0 == "fav"@,
    ensures
        json::keys_distinct(g),
{
    group_names_differ();
}

/// A new group has the identifier that it is given, and every setting that the client sends; its
/// chat and its chats are named after the group where the client names none, and it has no members
/// where the client names none.
pub proof fn new_group_keeps_settings(o: Tree, id: Seq<char>, i: int, v: Tree)
    requires
        0 <= i < group_settings().len(),
    ensures
        ({
            let g = Tree::Object(groups::new_group(o, id));
            &&& g.text_at("id"@) == Some(id)
            &&& o.get(group_settings()[i]) == Some(v) && v != Tree::Null ==> g.get(
                group_settings()[i],
            ) == Some(v)
            &&& o.get("name"@) is None ==> g.text_at("name"@) == Some("New Group"@)
            &&& o.get("chat_id"@) is None ==> g.text_at("chat_id"@) == Some(id)
            &&& o.get("members"@) is None ==> g.items_at("members"@) == Some(Seq::<Tree>::empty())
            &&& o.get("allow_self_responses"@) == Some(Tree::Bool(true)) ==> g.flag_at(
                "allow_self_responses"@,
            ) == Some(true)
            &&& o.get("allow_self_responses"@) is None ==> g.flag_at("allow_self_responses"@)
                == Some(false)
            &&& o.get("avatar_url"@) == Some(v) ==> g.get("avatar_url"@) == Some(v)
            &&& o.get("fav"@) == Some(v) ==> g.get("fav"@) == Some(v)
        }),
{
    let g = groups::new_group(o, id);
    group_keys(g);
    json::member_reads(g, 0);
    json::member_reads(g, 1);
    json::member_reads(g, 2);
    json::member_reads(g, 3);
    json::member_reads(g, 4);
    json::member_reads(g, 5);
    json::member_reads(g, 6);
    json::member_reads(g, 7);
    json::member_reads(g, 8);
    json::member_reads(g, 9);
    json::member_reads(g, 10);
    json::member_reads(g, 11);
    if g.len() > 12 {
        json::member_reads(g, 12);
    }
    if g.len() > 13 {
        json::member_reads(g, 13);
    }
}

/// A group that is told has the dates that it is given.
pub proof fn group_is_told_with_dates(
    f: Seq<(Seq<char>, Tree)>,
    added: Tree,
    date: Seq<char>,
    files: Seq<groups::GroupChatFile>,
    c: Seq<Tree>,
)
    requires
        Tree::Object(f).items_at("chats"@) == Some(c),
    ensures
        groups::annotated(Tree::Object(f), added, date, files) matches Some(t) && t.get(
            "date_added"@,
        ) == Some(added) && t.text_at("create_date"@) == Some(date) && t.get("chat_size"@) == Some(
            json::num(groups::chats_size(files, c) as u64),
        ) && t.get("date_last_chat"@) == Some(
            Tree::Float(groups::last_chat(files, c).0, groups::last_chat(files, c).1),
        ),
{
    reveal_strlit("avatar_url");
    reveal_strlit("chat_size");
    reveal_strlit("chats");
    reveal_strlit("create_date");
    reveal_strlit("date_added");
    reveal_strlit("date_last_chat");
    assert("avatar_url"@.len() == 10 && "avatar_url"@[0] == 'a');
    assert("chat_size"@.len() == 9);
    assert("chats"@.len() == 5);
    assert("create_date"@.len() == 11);
    assert("date_added"@.len() == 10 && "date_added"@[0] == 'd');
    assert("date_last_chat"@.len() == 14);
    let pictured = if json::lookup(f, "avatar_url"@) is Some {
        f
    } else {
        json::put(f, "avatar_url"@, json::txt(Seq::empty()))
    };
    json::put_reads(f, "avatar_url"@, json::txt(Seq::empty()), "chats"@);
    let a = json::put(pictured, "date_added"@, added);
    json::put_reads(pictured, "date_added"@, added, "chats"@);
    json::put_reads(pictured, "date_added"@, added, "date_added"@);
    let b = json::put(a, "create_date"@, json::txt(date));
    json::put_reads(a, "create_date"@, json::txt(date), "chats"@);
    json::put_reads(a, "create_date"@, json::txt(date), "date_added"@);
    json::put_reads(a, "create_date"@, json::txt(date), "create_date"@);
    let last = groups::last_chat(files, c);
    let shown = Tree::Float(last.0, last.1);
    let d = json::put(b, "date_last_chat"@, shown);
    json::put_reads(b, "date_last_chat"@, shown, "date_added"@);
    json::put_reads(b, "date_last_chat"@, shown, "create_date"@);
    json::put_reads(b, "date_last_chat"@, shown, "date_last_chat"@);
    let size = json::num(groups::chats_size(files, c) as u64);
    json::put_reads(d, "chat_size"@, size, "date_added"@);
    json::put_reads(d, "chat_size"@, size, "create_date"@);
    json::put_reads(d, "chat_size"@, size, "date_last_chat"@);
    json::put_reads(d, "chat_size"@, size, "chat_size"@);
}

/// A file counts to a group's chats where the group names it, and then with its whole size.
pub proof fn group_chats_are_counted(
    files: Seq<groups::GroupChatFile>,
    file: groups::GroupChatFile,
    c: Seq<Tree>,
)
    ensures
        c.contains(Tree::Text(file.stem@)) ==> groups::chats_size(files.push(file), c)
            == groups::chats_size(files, c) + file.size,
        !c.contains(Tree::Text(file.stem@)) ==> groups::chats_size(files.push(file), c)
            == groups::chats_size(files, c) && groups::last_chat(files.push(file), c)
            == groups::last_chat(files, c),
        groups::chats_size(Seq::empty(), c) == 0,
{
    assert(files.push(file).drop_last() =~= files);
    if c.contains(Tree::Text(file.stem@)) {
        let i = choose|i: int| 0 <= i < c.len() && c[i] == Tree::Text(file.stem@);
        assert(c[i].as_text() == Some(file.stem@));
    }
    if groups::has_chat(c, file.stem@) {
        let i = choose|i: int| 0 <= i < c.len() && (#[trigger] c[i]).as_text() == Some(file.stem@);
        assert(c[i] == Tree::Text(file.stem@));
    }
}

/// The last chat of a group is none older than any of its chats, and it is one of them.
pub proof fn last_chat_is_newest(files: Seq<groups::GroupChatFile>, c: Seq<Tree>)
    ensures
        forall|i: int|
            0 <= i < files.len() && c.contains(Tree::Text((#[trigger] files[i]).stem@))
                ==> files[i].mtime <= groups::last_chat(files, c).0,
        groups::last_chat(files, c).0 == 0 || exists|i: int|
            0 <= i < files.len() && c.contains(Tree::Text((#[trigger] files[i]).stem@))
                && groups::last_chat(files, c) == (files[i].mtime, files[i].mtime_shown@),
    decreases files.len(),
{
    if files.len() > 0 {
        let rest = files.drop_last();
        let f = files.last();
        last_chat_is_newest(rest, c);
        assert(rest.push(f) =~= files);
        group_chats_are_counted(rest, f, c);
        assert forall|i: int|
            0 <= i < files.len() && c.contains(
                Tree::Text((#[trigger] files[i]).stem@),
            ) implies files[i].mtime <= groups::last_chat(files, c).0 by {
            if i < rest.len() {
                assert(rest[i] == files[i]);
            } else if c.contains(Tree::Text(f.stem@)) {
                let k = choose|k: int| 0 <= k < c.len() && c[k] == Tree::Text(f.stem@);
                assert(c[k].as_text() == Some(f.stem@));
                assert(groups::has_chat(c, f.stem@));
            }
        }
        if groups::last_chat(files, c).0 != 0 {
            if groups::last_chat(files, c) == groups::last_chat(rest, c) {
                let i = choose|i: int|
                    0 <= i < rest.len() && c.contains(Tree::Text((#[trigger] rest[i]).stem@))
                        && groups::last_chat(rest, c) == (rest[i].mtime, rest[i].mtime_shown@);
                assert(files[i] == rest[i]);
            } else {
                assert(files[files.len() - 1] == f);
            }
        }
    }
}

/// Each group that could be read is told, behind those before it.
pub proof fn groups_are_told_in_turn(
    files: Seq<groups::GroupFile>,
    file: groups::GroupFile,
    c: Seq<groups::GroupChatFile>,
    f: Seq<(Seq<char>, Tree)>,
)
    ensures
        web::owned_tree(file.group) == Some(Tree::Object(f)) ==> groups::told_of_all(
            files.push(file),
            c,
        ).len() == groups::told_of_all(files, c).len() + 1,
        web::owned_tree(file.group) is None ==> groups::told_of_all(files.push(file), c)
            == groups::told_of_all(files, c),
        groups::told_of_all(files, c).is_prefix_of(groups::told_of_all(files.push(file), c)),
{
    assert(files.push(file).drop_last() =~= files);
}

/// A group's chats are deleted with it: one file for each chat that it names.
pub proof fn group_chats_are_deleted(c: Seq<Tree>, id: Seq<char>)
    ensures
        groups::chat_files(c.push(Tree::Text(id))) == groups::chat_files(c).push(
            sanitize::sanitized(id + ".jsonl"@, ""@),
        ),
        groups::chat_files(Seq::empty()) == Seq::<Seq<char>>::empty(),
{
    assert(c.push(Tree::Text(id)).drop_last() =~= c);
}

/// A group of the client's keeps all but what groups no longer have.
pub proof fn group_keeps_the_rest(f: Seq<(Seq<char>, Tree)>, k: Seq<char>)
    requires
        k != "chat_metadata"@,
        k != "past_metadata"@,
    ensures
        groups::modern(Tree::Object(f)).get(k) == Tree::Object(f).get(k),
{
    json::lookup_after_removal_elsewhere(f, "chat_metadata"@, k);
    json::lookup_after_removal_elsewhere(json::without(f, "chat_metadata"@), "past_metadata"@, k);
}

/// A group is named by its identifier, unless that leads out of the folder of the groups.
pub proof fn group_is_named_by_identifier(body: Tree, id: Seq<char>)
    requires
        body.text_at("id"@) == Some(id),
    ensures
        groups::named_group(Some(body)) == if id.len() == 0 || id.contains('/') || id.contains(
            '\0',
        ) {
            None
        } else {
            Some(id)
        },
        groups::group_file(id) == sanitize::sanitized(id + ".json"@, ""@),
{
}

} // verus!
