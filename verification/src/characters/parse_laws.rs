//! What holds of archives that are read and of chats in other formats: which entry is found, which
//! bytes are gathered, which picture is shown, and which importer a chat is for.

use crate::characters::archive;
use crate::characters::byaf;
use crate::characters::byaf_chat;
use crate::characters::charx;
use crate::chat_import;
use crate::json;
use crate::json::Tree;
use crate::numbers::TextNumber;
use crate::text;
use vstd::prelude::*;

verus! {

proof fn signature_is_first(a: Seq<u8>, b: Seq<u8>, i: int)
    requires
        0 <= i <= a.len(),
        forall|k: int|
            i <= k < a.len() ==> (#[trigger] (a + archive::zip_signature() + b).subrange(k, k + 4))
                != archive::zip_signature(),
    ensures
        archive::signature_from(a + archive::zip_signature() + b, i) == a.len(),
    decreases a.len() - i,
{
    let s = a + archive::zip_signature() + b;
    if i < a.len() {
        assert(s.subrange(i, i + 4) != archive::zip_signature());
        signature_is_first(a, b, i + 1);
    } else {
        assert(s.subrange(i, i + 4) =~= archive::zip_signature());
    }
}

/// An archive that is appended to something else begins where its signature first stands.
pub proof fn archive_begins_at_signature(a: Seq<u8>, sig: Seq<u8>, b: Seq<u8>)
    requires
        sig == seq![0x50u8, 0x4Bu8, 0x03u8, 0x04u8],
        forall|k: int| 0 <= k < a.len() ==> #[trigger] (a + sig + b).subrange(k, k + 4) != sig,
    ensures
        archive::payload(a + sig + b) == sig + b,
{
    assert(archive::zip_signature() =~= sig);
    signature_is_first(a, b, 0);
    assert((a + sig + b).skip(a.len() as int) =~= sig + b);
}

/// Whether an entry is the one that a suffix asks for.
pub open spec fn fits(e: (Option<Seq<char>>, Option<Seq<u8>>), suffix: Seq<char>) -> bool {
    e.0 is Some && e.1 is Some && text::ends(e.0->0, suffix) && !text::begins(e.0->0, "__MACOSX"@)
}

/// What is read under a suffix is the content of the first entry whose name ends with it, those
/// left out that another system put there.
pub proof fn first_fitting_entry_is_read(
    entries: Seq<(Option<Seq<char>>, Option<Seq<u8>>)>,
    suffix: Seq<char>,
    i: int,
)
    requires
        0 <= i < entries.len(),
        fits(entries[i], suffix),
        forall|k: int|
            0 <= k < i ==> (#[trigger] entries[k]).0 is Some && !fits(entries[k], suffix),
    ensures
        archive::content_of(entries, suffix) == entries[i].1,
{
    entry_is_reached(entries, suffix, i, 0);
}

proof fn entry_is_reached(
    entries: Seq<(Option<Seq<char>>, Option<Seq<u8>>)>,
    suffix: Seq<char>,
    i: int,
    k: int,
)
    requires
        0 <= k <= i < entries.len(),
        fits(entries[i], suffix),
        forall|j: int|
            k <= j < i ==> (#[trigger] entries[j]).0 is Some && !fits(entries[j], suffix),
    ensures
        archive::entry_from(entries, suffix, k) == Some(i),
    decreases i - k,
{
    if k < i {
        assert(!fits(entries[k], suffix));
        entry_is_reached(entries, suffix, i, k + 1);
    }
}

/// Whether an entry has a path and content.
pub open spec fn holds(
    e: (Option<Seq<char>>, Option<Seq<u8>>),
    path: Seq<char>,
    data: Seq<u8>,
) -> bool {
    e.0 is Some && e.1 == Some(data) && archive::normalized(e.0->0) == Some(path)
}

/// Every file that is asked for is gathered with its bytes, from the first entry of its path.
pub proof fn asked_files_are_gathered(
    entries: Seq<(Option<Seq<char>>, Option<Seq<u8>>)>,
    names: Seq<Seq<char>>,
    path: Seq<char>,
    data: Seq<u8>,
    i: int,
    n: int,
)
    requires
        0 <= i < entries.len(),
        holds(entries[i], path, data),
        0 <= n < names.len(),
        archive::normalized(names[n]) == Some(path),
        forall|k: int, d: Seq<u8>|
            0 <= k < i ==> !#[trigger] holds(entries[k], path, d),
    ensures
        archive::gathered(entries, names).contains((path, data)),
        charx::buffer_at(archive::gathered(entries, names), path, 0) == Some(data),
{
    file_is_gathered(entries, names, path, data, i, n);
    let v = archive::gathered(entries, names);
    let p = choose|p: int| 0 <= p < v.len() && v[p] == (path, data);
    gathered_once(entries, names);
    buffer_is_reached(v, path, p, 0);
}

proof fn buffer_is_reached(v: Seq<(Seq<char>, Seq<u8>)>, path: Seq<char>, p: int, i: int)
    requires
        0 <= i <= p < v.len(),
        v[p].0 == path,
        forall|k: int| 0 <= k < p ==> (#[trigger] v[k]).0 != path,
    ensures
        charx::buffer_at(v, path, i) == Some(v[p].1),
    decreases p - i,
{
    if i < p {
        buffer_is_reached(v, path, p, i + 1);
    }
}

proof fn gathered_once(entries: Seq<(Option<Seq<char>>, Option<Seq<u8>>)>, names: Seq<Seq<char>>)
    ensures
        forall|i: int, j: int|
            0 <= i < j < archive::gathered(entries, names).len() ==> (#[trigger] archive::gathered(
                entries,
                names,
            )[i]).0 != (#[trigger] archive::gathered(entries, names)[j]).0,
    decreases entries.len(),
{
    if entries.len() > 0 {
        gathered_once(entries.drop_last(), names);
        let rest = archive::gathered(entries.drop_last(), names);
        let all = archive::gathered(entries, names);
        assert forall|i: int, j: int| 0 <= i < j < all.len() implies (#[trigger] all[i]).0 != (
        #[trigger] all[j]).0 by {
            if j < rest.len() {
                assert(all[i] == rest[i] && all[j] == rest[j]);
            } else if all.len() > rest.len() {
                assert(all[i] == rest[i]);
                assert(!archive::has_path(rest, all[j].0));
                assert(rest[i].0 != all[j].0);
            }
        }
    }
}

proof fn path_has_source(
    entries: Seq<(Option<Seq<char>>, Option<Seq<u8>>)>,
    names: Seq<Seq<char>>,
    p: int,
)
    requires
        0 <= p < archive::gathered(entries, names).len(),
    ensures
        exists|k: int|
            0 <= k < entries.len() && #[trigger] holds(
                entries[k],
                archive::gathered(entries, names)[p].0,
                archive::gathered(entries, names)[p].1,
            ),
    decreases entries.len(),
{
    let front = entries.drop_last();
    let rest = archive::gathered(front, names);
    let all = archive::gathered(entries, names);
    if p < rest.len() {
        path_has_source(front, names, p);
        let k = choose|k: int|
            0 <= k < front.len() && #[trigger] holds(front[k], rest[p].0, rest[p].1);
        assert(entries[k] == front[k]);
        assert(all[p] == rest[p]);
        assert(holds(entries[k], all[p].0, all[p].1));
    } else {
        assert(holds(entries[entries.len() - 1], all[p].0, all[p].1));
    }
}

proof fn file_is_gathered(
    entries: Seq<(Option<Seq<char>>, Option<Seq<u8>>)>,
    names: Seq<Seq<char>>,
    path: Seq<char>,
    data: Seq<u8>,
    i: int,
    n: int,
)
    requires
        0 <= i < entries.len(),
        holds(entries[i], path, data),
        0 <= n < names.len(),
        archive::normalized(names[n]) == Some(path),
        forall|k: int, d: Seq<u8>|
            0 <= k < i ==> !#[trigger] holds(entries[k], path, d),
    ensures
        archive::gathered(entries, names).contains((path, data)),
    decreases entries.len(),
{
    let front = entries.drop_last();
    let rest = archive::gathered(front, names);
    let all = archive::gathered(entries, names);
    if i < entries.len() - 1 {
        assert forall|k: int, d: Seq<u8>| 0 <= k < i implies !#[trigger] holds(
            front[k],
            path,
            d,
        ) by {
            assert(!holds(entries[k], path, d));
        }
        file_is_gathered(front, names, path, data, i, n);
        let p = choose|p: int| 0 <= p < rest.len() && rest[p] == (path, data);
        assert(all[p] == rest[p]);
    } else {
        assert(archive::wanted(names).contains(path));
        if archive::has_path(rest, path) {
            let p = choose|p: int| 0 <= p < rest.len() && (#[trigger] rest[p]).0 == path;
            path_has_source(front, names, p);
            let k = choose|k: int|
                0 <= k < front.len() && #[trigger] holds(front[k], rest[p].0, rest[p].1);
            assert(entries[k] == front[k]);
            assert(holds(entries[k], path, rest[p].1));
            assert(false);
        }
        assert(all.last() == (path, data));
        assert(all[all.len() - 1] == (path, data));
    }
}

/// The card of an archive is the one in its file for cards, and its picture holds the bytes of the
/// icon that the card names.
pub proof fn archive_gives_card_and_icon(
    entries: &Vec<archive::ArchiveEntry>,
    r: Result<charx::CharXParseResult, String>,
    card: Tree,
    icon: charx::RawView,
    data: Seq<u8>,
    i: int,
)
    requires
        call_ensures(charx::parse_charx, (entries,), r),
        r is Ok,
        charx::json_of_entry(entries@, "card.json"@) == Some(card),
        charx::icon_of(charx::embedded_assets(charx::listed_assets(card))) == Some(icon),
        archive::normalized(icon.zip_path) == Some(icon.zip_path),
        0 <= i < entries@.len(),
        holds(archive::names_and_contents(entries@)[i], icon.zip_path, data),
        forall|k: int, d: Seq<u8>|
            0 <= k < i ==> !#[trigger] holds(
                archive::names_and_contents(entries@)[k],
                icon.zip_path,
                d,
            ),
    ensures
        r matches Ok(x) && x.card@ == card && archive::bytes_opt(x.avatar) == Some(data),
{
    let raws = charx::embedded_assets(charx::listed_assets(card));
    let paths = charx::asset_paths(Some(icon), charx::stored_assets(raws));
    assert(paths[0] == icon.zip_path);
    asked_files_are_gathered(
        archive::names_and_contents(entries@),
        paths,
        icon.zip_path,
        data,
        i,
        0,
    );
}

/// Every version of a reply is kept in its order, and the number of the version that is shown leads
/// to it.
pub proof fn versions_of_reply_are_kept(
    m: Tree,
    outputs: Seq<Tree>,
    name: Seq<char>,
    table: Seq<TextNumber>,
    shown: Seq<char>,
)
    requires
        m.items_at("outputs"@) == Some(outputs),
        outputs.len() > 0,
        forall|i: int| 0 <= i < outputs.len() ==> (#[trigger] outputs[i]).text_at("text"@) is Some,
        byaf_chat::newest_output(m) matches Some(o) && o.text_at("text"@) == Some(shown),
        outputs.len() <= u64::MAX,
    ensures
        ({
            let t = byaf_chat::character_line(m, name, table);
            let v = t.items_at("swipes"@)->0;
            &&& t.items_at("swipes"@) is Some && v.len() == outputs.len()
            &&& forall|i: int|
                0 <= i < outputs.len() ==> #[trigger] v[i] == Tree::Text(
                    outputs[i].text_at("text"@)->0,
                )
            &&& t.get("swipe_id"@) matches Some(Tree::Number(json::Number::Pos(k))) && k
                < outputs.len() && v[k as int] == Tree::Text(shown)
            &&& t.text_at("mes"@) == Some(shown)
        }),
{
    reveal_strlit("name");
    reveal_strlit("is_user");
    reveal_strlit("send_date");
    reveal_strlit("mes");
    reveal_strlit("swipes");
    reveal_strlit("swipe_id");
    assert("name"@.len() == 4 && "is_user"@.len() == 7 && "send_date"@.len() == 9 && "mes"@.len()
        == 3 && "swipes"@.len() == 6 && "swipe_id"@.len() == 8);
    reveal_with_fuel(json::position, 7);
    texts_are_kept(outputs);
    byaf_chat::newest_is_latest(byaf_chat::output_stamps(outputs));
    let p = byaf_chat::newest_of(byaf_chat::output_stamps(outputs));
    let swipes = byaf_chat::swipes_of(m);
    assert(swipes[p] == shown);
    version_is_there(swipes, shown, p, 0);
}

proof fn texts_are_kept(outputs: Seq<Tree>)
    requires
        forall|i: int| 0 <= i < outputs.len() ==> (#[trigger] outputs[i]).text_at("text"@) is Some,
    ensures
        byaf_chat::output_texts(outputs).len() == outputs.len(),
        forall|i: int|
            0 <= i < outputs.len() ==> #[trigger] byaf_chat::output_texts(outputs)[i]
                == outputs[i].text_at("text"@)->0,
    decreases outputs.len(),
{
    if outputs.len() > 0 {
        let front = outputs.drop_last();
        assert forall|i: int| 0 <= i < front.len() implies (#[trigger] front[i]).text_at("text"@)
            is Some by {
            assert(front[i] == outputs[i]);
        }
        texts_are_kept(front);
        assert(outputs[outputs.len() - 1].text_at("text"@) is Some);
    }
}

proof fn version_is_there(v: Seq<Seq<char>>, t: Seq<char>, p: int, i: int)
    requires
        0 <= i <= p < v.len(),
        v[p] == t,
    ensures
        ({
            let k = byaf_chat::version_from(v, t, i);
            i <= k <= p && v[k] == t
        }),
    decreases p - i,
{
    if i < p && v[i] != t {
        version_is_there(v, t, p, i + 1);
    }
}

/// The scenarios of an archive are those of its list that can be read, in their order.
pub proof fn scenarios_are_read_in_order(
    entries: Seq<archive::ArchiveEntry>,
    list: Seq<Tree>,
    path: Seq<char>,
)
    ensures
        byaf::scenarios_at(entries, list.push(Tree::Text(path))) == match charx::json_of_entry(
            entries,
            path,
        ) {
            Some(t) => byaf::scenarios_at(entries, list).push(t),
            None => byaf::scenarios_at(entries, list),
        },
{
    assert(list.push(Tree::Text(path)).drop_last() =~= list);
}

/// The character of an archive is the first that its index names.
pub proof fn character_is_named_first(index: Tree, path: Seq<char>, rest: Seq<Tree>)
    requires
        index.items_at("characters"@) == Some(seq![Tree::Text(path)] + rest),
    ensures
        byaf::character_path(index) == Some(path),
{
    assert((seq![Tree::Text(path)] + rest)[0] == Tree::Text(path));
}

/// A time is read from a number as it is, and from a text of digits as the number that it writes.
pub proof fn moment_is_read(n: i64, digits: Seq<char>)
    requires
        n >= 0,
        crate::numbers::i64_value(digits) == Some(n),
    ensures
        byaf_chat::stamp_of(Some(json::num(n as u64))) == Some(n),
        byaf_chat::stamp_of(Some(Tree::Text(digits))) == Some(n),
        byaf_chat::stamp_of(None) is None,
        byaf_chat::stamp_of(Some(Tree::Null)) is None,
{
}

/// Which importer a chat is for: its shape tells. A save of KoboldAI Lite, the histories of
/// Character.AI, the exchanges of a web UI, the messages of Agnai, and a chat of RisuAI are each
/// taken by their own.
pub proof fn shape_tells_importer(
    data: Tree,
    s: chat_import::SpeakersView,
    now: i64,
    chat: Seq<Tree>,
    all: Seq<Seq<Tree>>,
    v: Tree,
    pairs: Seq<Tree>,
)
    ensures
        data.get("savedsettings"@) == Some(v) && chat_import::kobold_chat(data, s.now) == Some(chat)
            ==> chat_import::json_chats(data, s, now) == Some(seq![chat]),
        data.get("savedsettings"@) is None && chat_import::cai_chats(data, s) == Some(all)
            ==> chat_import::json_chats(data, s, now) == Some(all),
        data.get("savedsettings"@) is None && data.get("histories"@) is None && data.items_at(
            "data_visible"@,
        ) == Some(pairs) && chat_import::ooba_chat(data, s) == Some(chat)
            ==> chat_import::json_chats(data, s, now) == Some(seq![chat]),
        data.get("savedsettings"@) is None && data.get("histories"@) is None && data.items_at(
            "data_visible"@,
        ) is None && chat_import::agnai_chat(data, s) == Some(chat) ==> chat_import::json_chats(
            data,
            s,
            now,
        ) == Some(seq![chat]),
        data.get("savedsettings"@) is None && data.get("histories"@) is None && data.items_at(
            "data_visible"@,
        ) is None && data.items_at("messages"@) is None && data.text_at("type"@) == Some(
            "risuChat"@,
        ) && chat_import::risu_chat(data, s, now) == Some(chat) ==> chat_import::json_chats(
            data,
            s,
            now,
        ) == Some(seq![chat]),
        data == Tree::Null ==> chat_import::json_chats(data, s, now) is None,
{
    assert(Seq::empty().push(chat) =~= seq![chat]);
}

/// A line of a chat from Chub is flattened: its message stands for itself, and so does each of its
/// versions; the rest of the line stays.
pub proof fn chub_line_is_flattened(
    f: Seq<(Seq<char>, Tree)>,
    m: Tree,
    inner: Tree,
    v: Seq<Tree>,
    i: int,
    k: Seq<char>,
)
    requires
        Tree::Object(f).get("mes"@) == Some(m),
        m.get("message"@) == Some(inner),
        Tree::Object(f).items_at("swipes"@) == Some(v),
        0 <= i < v.len(),
    ensures
        ({
            let t = chat_import::flat_line(Tree::Object(f));
            &&& t.get("mes"@) == Some(inner)
            &&& t.items_at("swipes"@) matches Some(w) && w.len() == v.len() && (v[i].get("message"@)
                matches Some(x) ==> w[i] == x) && (v[i].get("message"@) is None ==> w[i] == v[i])
            &&& k != "mes"@ && k != "swipes"@ ==> t.get(k) == Tree::Object(f).get(k)
        }),
{
    reveal_strlit("mes");
    reveal_strlit("swipes");
    assert("mes"@.len() == 3 && "swipes"@.len() == 6);
    let a = json::put(f, "mes"@, inner);
    json::put_reads(f, "mes"@, inner, "mes"@);
    json::put_reads(f, "mes"@, inner, "swipes"@);
    json::put_reads(f, "mes"@, inner, k);
    let w = Tree::Array(Seq::new(v.len(), |j: int| chat_import::flat_version(v[j])));
    json::put_reads(a, "swipes"@, w, "mes"@);
    json::put_reads(a, "swipes"@, w, "swipes"@);
    json::put_reads(a, "swipes"@, w, k);
}

} // verus!
