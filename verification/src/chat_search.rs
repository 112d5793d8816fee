//! Which chats are found and which are the latest.

use crate::characters::reads;
use crate::characters::reads::{ChatContent, ChatInfo};
use crate::chats;
use crate::json;
use crate::json::{Fields, Json};
use crate::numbers;
use crate::secrets;
use crate::text;
use vstd::prelude::*;

verus! {

/// What chats are looked for, and where.
#[derive(Debug)]
pub struct SearchChatRequest {
    pub query: Option<String>,
    pub avatar_url: Option<String>,
    pub group_id: Option<String>,
}

/// Which of the latest chats are asked for.
#[derive(Debug)]
pub struct RecentChatRequest {
    pub pinned: Option<Vec<PinnedChat>>,
    pub max: Option<Json>,
    pub metadata: Option<bool>,
}

/// A chat that the user has pinned.
#[derive(Debug)]
pub struct PinnedChat {
    pub file_name: Option<String>,
    pub avatar: Option<String>,
    pub group: Option<String>,
}

/// The words that are looked for.
pub open spec fn fragments_of(query: Seq<char>) -> Seq<Seq<char>> {
    if query.len() == 0 {
        Seq::empty()
    } else {
        text::words_from(text::lowercase(text::trimmed(query)), 0)
    }
}

/// The words that are looked for.
pub fn query_fragments(query: &str) -> (r: Vec<String>)
    ensures
        json::texts(r@) == fragments_of(query@),
{
    if query.is_empty() {
        let none: Vec<String> = Vec::new();
        assert(json::texts(none@) =~= Seq::empty());
        return none;
    }
    text::split_whitespace(&text::to_lowercase(&text::trim(query)))
}

/// Whether a word occurs in one of the texts, which are in lower case.
pub open spec fn found_in(fragment: Seq<char>, texts: Seq<Seq<char>>) -> bool {
    exists|i: int| 0 <= i < texts.len() && text::occurs(#[trigger] texts[i], fragment)
}

/// Whether every word occurs in one of the texts, which are in lower case.
pub open spec fn all_found(fragments: Seq<Seq<char>>, texts: Seq<Seq<char>>) -> bool {
    forall|j: int| 0 <= j < fragments.len() ==> found_in(#[trigger] fragments[j], texts)
}

fn is_found(fragment: &str, texts: &Vec<String>) -> (r: bool)
    ensures
        r == found_in(fragment@, json::texts(texts@)),
{
    let ghost all = json::texts(texts@);
    let mut i: usize = 0;
    while i < texts.len()
        invariant
            all == json::texts(texts@),
            i <= texts@.len(),
            forall|k: int| 0 <= k < i ==> !text::occurs(#[trigger] all[k], fragment@),
        decreases texts@.len() - i,
    {
        if text::contains(&texts[i], fragment) {
            assert(text::occurs(all[i as int], fragment@));
            return true;
        }
        i += 1;
    }
    false
}

/// Whether every word occurs in one of the texts, which are in lower case.
pub fn has_text_match(fragments: &Vec<String>, texts: &Vec<String>) -> (r: bool)
    ensures
        r == all_found(json::texts(fragments@), json::texts(texts@)),
{
    let ghost all = json::texts(fragments@);
    let mut i: usize = 0;
    while i < fragments.len()
        invariant
            all == json::texts(fragments@),
            i <= fragments@.len(),
            forall|k: int|
                0 <= k < i ==> found_in(#[trigger] all[k], json::texts(texts@)),
        decreases fragments@.len() - i,
    {
        if !is_found(&fragments[i], texts) {
            assert(!found_in(all[i as int], json::texts(texts@)));
            return false;
        }
        i += 1;
    }
    true
}

/// The texts of messages in lower case, where they have one.
pub open spec fn message_texts(messages: Seq<json::Tree>) -> Seq<Seq<char>>
    decreases messages.len(),
{
    if messages.len() == 0 {
        Seq::empty()
    } else {
        let rest = message_texts(messages.drop_last());
        match messages.last().text_at("mes"@) {
            Some(m) => rest.push(text::lowercase(m)),
            None => rest,
        }
    }
}

fn lower_messages(messages: &Vec<Json>) -> (r: Vec<String>)
    ensures
        json::texts(r@) == message_texts(json::trees(messages@)),
{
    let ghost all = json::trees(messages@);
    let mut out: Vec<String> = Vec::new();
    let mut i: usize = 0;
    assert(json::texts(out@) =~= message_texts(all.take(0)));
    while i < messages.len()
        invariant
            all == json::trees(messages@),
            i <= messages@.len(),
            json::texts(out@) == message_texts(all.take(i as int)),
        decreases messages@.len() - i,
    {
        assert(all.take(i as int + 1).drop_last() =~= all.take(i as int));
        assert(all.take(i as int + 1).last() == messages@[i as int]@);
        let ghost before = out@;
        match messages[i].str_at("mes") {
            Some(m) => {
                let low = text::to_lowercase(m);
                out.push(low);
                assert(json::texts(out@) =~= json::texts(before).push(low@));
            },
            None => {},
        }
        i += 1;
    }
    assert(all.take(all.len() as int) =~= all);
    out
}

/// A chat that may be found: its file and its messages.
#[derive(Debug)]
pub struct SearchedChat {
    pub content: ChatContent,
    pub messages: Vec<Json>,
}

/// Whether a chat is found: it has a name, and all words occur in its messages or in its
/// name, where any are looked for. `id` is its name in lower case, and `texts` are its
/// messages in lower case.
pub open spec fn chat_found(
    query: Seq<char>,
    fragments: Seq<Seq<char>>,
    info: reads::ChatInfoView,
    id: Seq<char>,
    texts: Seq<Seq<char>>,
) -> bool {
    info.file_name.len() > 0 && (query.len() == 0 || all_found(fragments, texts) || all_found(
        fragments,
        Seq::empty().push(id),
    ))
}

/// Whether a chat is found, given its name, its messages and the words in lower case.
pub fn matches_query(
    query: &str,
    fragments: &Vec<String>,
    info: &ChatInfo,
    id: String,
    texts: &Vec<String>,
) -> (r: bool)
    ensures
        r == chat_found(query@, json::texts(fragments@), info@, id@, json::texts(texts@)),
{
    if info.file_name.as_str().is_empty() {
        return false;
    }
    let mut ids: Vec<String> = Vec::new();
    ids.push(id);
    assert(json::texts(ids@) =~= Seq::empty().push(id@));
    query.is_empty() || has_text_match(fragments, texts) || has_text_match(fragments, &ids)
}

/// The chats that are found, in the order that they are given in.
pub open spec fn found_chats(query: Seq<char>, chats: Seq<SearchedChat>) -> Seq<reads::ChatInfoView>
    decreases chats.len(),
{
    if chats.len() == 0 {
        Seq::empty()
    } else {
        let rest = found_chats(query, chats.drop_last());
        let info = reads::info_of(chats.last().content, false);
        if chat_found(
            query,
            fragments_of(query),
            info,
            text::lowercase(info.file_id),
            message_texts(json::trees(chats.last().messages@)),
        ) {
            rest.push(info)
        } else {
            rest
        }
    }
}

/// What is known of several chats.
pub open spec fn infos_view(v: Seq<ChatInfo>) -> Seq<reads::ChatInfoView> {
    Seq::new(v.len(), |i: int| v[i]@)
}

/// What is known of the chats that are found.
pub fn search_chat(query: Option<&str>, chats: &Vec<SearchedChat>) -> (r: Vec<ChatInfo>)
    ensures
        infos_view(r@) == found_chats(secrets::or_empty(json::text_opt(query)), chats@),
{
    let query = match query {
        Some(q) => q,
        None => {
            proof {
                reveal_strlit("");
                assert(""@ =~= Seq::<char>::empty());
            }
            ""
        },
    };
    let fragments = query_fragments(query);
    let mut out: Vec<ChatInfo> = Vec::new();
    let mut i: usize = 0;
    assert(infos_view(out@) =~= found_chats(query@, chats@.take(0)));
    while i < chats.len()
        invariant
            json::texts(fragments@) == fragments_of(query@),
            i <= chats@.len(),
            infos_view(out@) == found_chats(query@, chats@.take(i as int)),
        decreases chats@.len() - i,
    {
        assert(chats@.take(i as int + 1).drop_last() =~= chats@.take(i as int));
        assert(chats@.take(i as int + 1).last() == chats@[i as int]);
        let ghost before = out@;
        let info = reads::get_chat_info(&chats[i].content, false);
        let texts = lower_messages(&chats[i].messages);
        let id = text::to_lowercase(&info.file_id);
        if matches_query(query, &fragments, &info, id, &texts) {
            out.push(info);
            assert(infos_view(out@) =~= infos_view(before).push(info@));
        }
        i += 1;
    }
    assert(chats@.take(chats@.len() as int) =~= chats@);
    out
}

/// What is told of a chat that was found.
pub open spec fn search_tree(info: reads::ChatInfoView, preview: Seq<char>) -> json::Tree {
    json::Tree::Object(
        json::members()
            .push(("file_name"@, json::txt(info.file_id)))
            .push(("file_size"@, json::txt(info.file_size)))
            .push(("message_count"@, json::num(info.chat_items as u64)))
            .push(("last_mes"@, info.last_mes))
            .push(("preview_message"@, json::txt(preview))),
    )
}

/// What is told of a chat that is found. `preview` is the beginning of its last message.
pub fn search_entry(info: &ChatInfo, preview: &str) -> (r: Json)
    ensures
        r@ == search_tree(info@, preview@),
{
    Fields::new()
        .with("file_name", Json::text(&info.file_id))
        .with("file_size", Json::text(&info.file_size))
        .with("message_count", Json::natural(info.chat_items as u64))
        .with("last_mes", info.last_mes.copy())
        .with("preview_message", Json::text(preview))
        .done()
}

/// The directory that is searched where no group is named; nothing where no character is
/// either.
pub fn searched_folder(body: &SearchChatRequest) -> (r: Option<String>)
    ensures
        json::string_opt(r) == match secrets::filled(json::string_opt(body.avatar_url)) {
            Some(u) => Some(chats::folder_of(u)),
            None => None,
        },
{
    match secrets::non_empty(&body.avatar_url) {
        Some(u) => Some(chats::chat_folder(u)),
        None => None,
    }
}

/// The texts among values.
pub open spec fn texts_among(v: Seq<json::Tree>) -> Seq<Seq<char>>
    decreases v.len(),
{
    if v.len() == 0 {
        Seq::empty()
    } else {
        let rest = texts_among(v.drop_last());
        match v.last().as_text() {
            Some(t) => rest.push(t),
            None => rest,
        }
    }
}

/// The chats of the first of the groups from the `i`th on with an id.
pub open spec fn chats_of_group(groups: Seq<json::Tree>, id: Seq<char>, i: int) -> Seq<Seq<char>>
    decreases groups.len() - i,
{
    if i < 0 || i >= groups.len() {
        Seq::empty()
    } else if groups[i].text_at("id"@) == Some(id) {
        match groups[i].items_at("chats"@) {
            Some(c) => texts_among(c),
            None => Seq::empty(),
        }
    } else {
        chats_of_group(groups, id, i + 1)
    }
}

fn pick_texts(v: &Vec<Json>) -> (r: Vec<String>)
    ensures
        json::texts(r@) == texts_among(json::trees(v@)),
{
    let ghost all = json::trees(v@);
    let mut out: Vec<String> = Vec::new();
    let mut i: usize = 0;
    assert(json::texts(out@) =~= texts_among(all.take(0)));
    while i < v.len()
        invariant
            all == json::trees(v@),
            i <= v@.len(),
            json::texts(out@) == texts_among(all.take(i as int)),
        decreases v@.len() - i,
    {
        assert(all.take(i as int + 1).drop_last() =~= all.take(i as int));
        assert(all.take(i as int + 1).last() == v@[i as int]@);
        let ghost before = out@;
        match v[i].as_str() {
            Some(t) => {
                out.push(t.to_owned());
                assert(json::texts(out@) =~= json::texts(before).push(t@));
            },
            None => {},
        }
        i += 1;
    }
    assert(all.take(all.len() as int) =~= all);
    out
}

/// The chats that a group lists.
pub fn group_chat_ids(group: &Json) -> (r: Vec<String>)
    ensures
        json::texts(r@) == match group@.items_at("chats"@) {
            Some(c) => texts_among(c),
            None => Seq::empty(),
        },
{
    match group.array_at("chats") {
        Some(c) => pick_texts(c),
        None => {
            let none: Vec<String> = Vec::new();
            assert(json::texts(none@) =~= Seq::empty());
            none
        },
    }
}

/// The chats of the group with an id.
pub fn find_group_chats(groups: &Vec<Json>, id: &str) -> (r: Vec<String>)
    ensures
        json::texts(r@) == chats_of_group(json::trees(groups@), id@, 0),
{
    let ghost all = json::trees(groups@);
    let mut i: usize = 0;
    while i < groups.len()
        invariant
            all == json::trees(groups@),
            i <= groups@.len(),
            chats_of_group(all, id@, 0) == chats_of_group(all, id@, i as int),
        decreases groups@.len() - i,
    {
        assert(all[i as int] == groups@[i as int]@);
        let fits = match groups[i].str_at("id") {
            Some(s) => text::same(s, id),
            None => false,
        };
        if fits {
            return group_chat_ids(&groups[i]);
        }
        i += 1;
    }
    let none: Vec<String> = Vec::new();
    assert(json::texts(none@) =~= Seq::empty());
    none
}

/// A chat that may be among the latest: whose it is, its file, and when that changed, by the
/// bits of a number that is not negative.
#[derive(Debug)]
pub struct RecentFile {
    pub png_file: Option<String>,
    pub group_id: Option<String>,
    pub file_name: String,
    pub mtime: u64,
}

/// Whether a pin is on a chat.
pub open spec fn pin_fits(p: PinnedChat, f: RecentFile) -> bool {
    json::string_opt(p.file_name) == Some(f.file_name@) && (json::string_opt(p.avatar)
        == json::string_opt(f.png_file) || json::string_opt(p.group) == json::string_opt(
        f.group_id,
    ))
}

/// Whether a chat is pinned.
pub open spec fn is_pinned(pinned: Seq<PinnedChat>, f: RecentFile) -> bool {
    exists|i: int| 0 <= i < pinned.len() && pin_fits(#[trigger] pinned[i], f)
}

fn same_option(a: &Option<String>, b: &Option<String>) -> (r: bool)
    ensures
        r == (json::string_opt(*a) == json::string_opt(*b)),
{
    match (a, b) {
        (Some(x), Some(y)) => text::same(x, y),
        (None, None) => true,
        _ => false,
    }
}

fn find_pin(pinned: &Vec<PinnedChat>, f: &RecentFile) -> (r: bool)
    ensures
        r == is_pinned(pinned@, *f),
{
    let mut i: usize = 0;
    while i < pinned.len()
        invariant
            i <= pinned@.len(),
            forall|k: int| 0 <= k < i ==> !pin_fits(#[trigger] pinned@[k], *f),
        decreases pinned@.len() - i,
    {
        let named = match &pinned[i].file_name {
            Some(n) => text::same(n, &f.file_name),
            None => false,
        };
        if named && (same_option(&pinned[i].avatar, &f.png_file) || same_option(
            &pinned[i].group,
            &f.group_id,
        )) {
            assert(pin_fits(pinned@[i as int], *f));
            return true;
        }
        i += 1;
    }
    false
}

/// Whether a chat is shown above another one: pinned ones first, then the later ones.
pub open spec fn above(pinned: Seq<PinnedChat>, a: RecentFile, b: RecentFile) -> bool {
    if is_pinned(pinned, a) != is_pinned(pinned, b) {
        is_pinned(pinned, a)
    } else {
        a.mtime > b.mtime
    }
}

/// Whether the `i`th of the chats precedes the `j`th: where neither is above the other, the
/// one that is given first does.
pub open spec fn precedes(
    files: Seq<RecentFile>,
    pinned: Seq<PinnedChat>,
    i: int,
    j: int,
) -> bool {
    above(pinned, files[i], files[j]) || (!above(pinned, files[j], files[i]) && i < j)
}

/// Whether the positions are those of all the chats, in order.
pub open spec fn in_order(files: Seq<RecentFile>, pinned: Seq<PinnedChat>, order: Seq<usize>) -> bool {
    &&& forall|i: int| 0 <= i < order.len() ==> (#[trigger] order[i]) < files.len()
    &&& forall|i: int, j: int|
        0 <= i < j < order.len() ==> precedes(
            files,
            pinned,
            #[trigger] order[i] as int,
            #[trigger] order[j] as int,
        )
}

/// The flag and time that a chat is ordered by.
fn is_above(a: (bool, u64), b: (bool, u64)) -> (r: bool)
    ensures
        r == if a.0 != b.0 {
            a.0
        } else {
            a.1 > b.1
        },
{
    if a.0 != b.0 {
        a.0
    } else {
        a.1 > b.1
    }
}

/// All the chats in order.
fn sort_files(files: &Vec<RecentFile>, pinned: &Vec<PinnedChat>) -> (r: Vec<usize>)
    ensures
        in_order(files@, pinned@, r@),
        forall|k: usize| k < files@.len() ==> #[trigger] r@.contains(k),
        r@.len() == files@.len(),
{
    let mut keys: Vec<(bool, u64)> = Vec::new();
    let mut order: Vec<usize> = Vec::new();
    let n: usize = files.len();
    let mut i: usize = 0;
    while i < n
        invariant
            n == files@.len(),
            i <= n,
            keys@.len() == i,
            forall|k: int|
                0 <= k < i ==> (#[trigger] keys@[k]) == (
                    is_pinned(pinned@, files@[k]),
                    files@[k].mtime,
                ),
            order@.len() == i,
            forall|a: int| 0 <= a < order@.len() ==> (#[trigger] order@[a]) < i,
            in_order(files@, pinned@, order@),
            forall|k: usize| k < i ==> #[trigger] order@.contains(k),
        decreases n - i,
    {
        let key = (find_pin(pinned, &files[i]), files[i].mtime);
        keys.push(key);
        let mut p: usize = order.len();
        while p > 0 && is_above(key, keys[order[p - 1]])
            invariant
                n == files@.len(),
                i < n,
                keys@.len() == i + 1,
                forall|k: int|
                    0 <= k <= i ==> (#[trigger] keys@[k]) == (
                        is_pinned(pinned@, files@[k]),
                        files@[k].mtime,
                    ),
                key == keys@[i as int],
                order@.len() == i,
                p <= order@.len(),
                forall|a: int| 0 <= a < order@.len() ==> (#[trigger] order@[a]) < i,
                forall|a: int|
                    p <= a < order@.len() ==> above(
                        pinned@,
                        files@[i as int],
                        files@[#[trigger] order@[a] as int],
                    ),
            ensures
                p <= order@.len(),
                forall|a: int|
                    p <= a < order@.len() ==> above(
                        pinned@,
                        files@[i as int],
                        files@[#[trigger] order@[a] as int],
                    ),
                p > 0 ==> !above(
                    pinned@,
                    files@[i as int],
                    files@[order@[p as int - 1] as int],
                ),
            decreases p,
        {
            p -= 1;
        }
        let ghost before = order@;
        order.insert(p, i);
        proof {
            assert(order@ == before.insert(p as int, i));
            assert forall|a: int, b: int| 0 <= a < b < order@.len() implies precedes(
                files@,
                pinned@,
                #[trigger] order@[a] as int,
                #[trigger] order@[b] as int,
            ) by {
                if b == p {
                    // What stands before is not below the one before it, nor is that.
                    let q = before[p as int - 1] as int;
                    let x = before[a] as int;
                    if a < p - 1 {
                        assert(precedes(files@, pinned@, x, q));
                    }
                    assert(x < i);
                } else if a == p {
                    assert(order@[b] == before[b - 1]);
                } else {
                    let x = if a < p {
                        a
                    } else {
                        a - 1
                    };
                    let y = if b < p {
                        b
                    } else {
                        b - 1
                    };
                    assert(precedes(files@, pinned@, before[x] as int, before[y] as int));
                }
            }
            assert forall|k: usize| k < i + 1 implies #[trigger] order@.contains(k) by {
                if k == i {
                    assert(order@[p as int] == k);
                } else {
                    assert(before.contains(k));
                    let w = choose|w: int| 0 <= w < before.len() && before[w] == k;
                    if w < p {
                        assert(order@[w] == k);
                    } else {
                        assert(order@[w + 1] == k);
                    }
                }
            }
        }
        i += 1;
    }
    order
}

/// How many of the latest chats are asked for.
pub open spec fn wanted(max: Option<json::Tree>) -> u64 {
    match max {
        Some(t) => match t.as_natural() {
            Some(n) => n,
            None => match t {
                json::Tree::Text(s) => match numbers::u64_value(s) {
                    Some(n) => n,
                    None => u64::MAX,
                },
                _ => u64::MAX,
            },
        },
        None => u64::MAX,
    }
}

fn read_wanted(max: &Option<Json>) -> (r: u64)
    ensures
        r == wanted(crate::web::owned_tree(*max)),
{
    match max {
        Some(t) => match t.as_u64() {
            Some(n) => n,
            None => match t.as_str() {
                Some(s) => match numbers::parse_u64(s) {
                    Some(n) => n,
                    None => u64::MAX,
                },
                None => u64::MAX,
            },
        },
        None => u64::MAX,
    }
}

/// The chats that the user has pinned.
pub open spec fn pins_of(body: RecentChatRequest) -> Seq<PinnedChat> {
    match body.pinned {
        Some(v) => v@,
        None => Seq::empty(),
    }
}

/// The positions of the latest chats in order: as many as are asked for, and one more for
/// each that is pinned. No chat that is left out precedes one of them.
pub fn recent_chats(body: &RecentChatRequest, files: &Vec<RecentFile>) -> (r: Vec<usize>)
    ensures
        ({
            let pinned = pins_of(*body);
            let limit = wanted(crate::web::owned_tree(body.max)) + pinned.len();
            &&& r@.len() == if limit < files@.len() {
                limit
            } else {
                files@.len() as int
            }
            &&& in_order(files@, pinned, r@)
            &&& forall|k: usize, i: int|
                k < files@.len() && !#[trigger] r@.contains(k) && 0 <= i < r@.len() ==> precedes(
                    files@,
                    pinned,
                    #[trigger] r@[i] as int,
                    k as int,
                )
        }),
{
    let none: Vec<PinnedChat> = Vec::new();
    assert(none@ =~= Seq::empty());
    let pinned = match &body.pinned {
        Some(v) => v,
        None => &none,
    };
    let full = sort_files(files, pinned);
    let limit: u128 = read_wanted(&body.max) as u128 + pinned.len() as u128;
    let mut out: Vec<usize> = Vec::new();
    let mut i: usize = 0;
    while i < full.len() && (i as u128) < limit
        invariant
            full@.len() == files@.len(),
            i <= full@.len(),
            i <= limit,
            out@ == full@.take(i as int),
        ensures
            out@ == full@.take(i as int),
            i <= full@.len(),
            i == full@.len() || i == limit,
            i <= limit,
        decreases full@.len() - i,
    {
        out.push(full[i]);
        assert(out@ =~= full@.take(i as int + 1));
        i += 1;
    }
    proof {
        assert forall|k: usize, a: int|
            k < files@.len() && !#[trigger] out@.contains(k) && 0 <= a < out@.len() implies precedes(
            files@,
            pinned@,
            #[trigger] out@[a] as int,
            k as int,
        ) by {
            assert(full@.contains(k));
            let w = choose|w: int| 0 <= w < full@.len() && full@[w] == k;
            if w < i {
                assert(out@[w] == k);
            }
            assert(precedes(files@, pinned@, full@[a] as int, full@[w] as int));
        }
    }
    out
}

/// No two chats precede each other, so that there is one order alone.
pub proof fn one_order(files: Seq<RecentFile>, pinned: Seq<PinnedChat>, i: int, j: int)
    requires
        0 <= i < files.len(),
        0 <= j < files.len(),
        i != j,
    ensures
        precedes(files, pinned, i, j) != precedes(files, pinned, j, i),
{
}

/// What is told of one of the latest chats: what is known of it, and whose it is; nothing of
/// one without a name.
pub open spec fn recent_tree(file: RecentFile, info: reads::ChatInfoView) -> Option<json::Tree> {
    let known = reads::info_tree(info)->Object_0;
    let pictured = match file.png_file {
        Some(p) => json::put(known, "avatar"@, json::txt(p@)),
        None => known,
    };
    let grouped = match file.group_id {
        Some(g) => json::put(pictured, "group"@, json::txt(g@)),
        None => pictured,
    };
    if info.file_name.len() == 0 {
        None
    } else {
        Some(json::Tree::Object(grouped))
    }
}

/// What is told of one of the latest chats.
pub fn recent_entry(file: &RecentFile, info: &ChatInfo) -> (r: Option<Json>)
    ensures
        crate::web::owned_tree(r) == recent_tree(*file, info@),
{
    if info.file_name.as_str().is_empty() {
        return None;
    }
    let mut f = info.to_fields();
    match &file.png_file {
        Some(p) => f.insert("avatar", Json::text(p)),
        None => {},
    }
    match &file.group_id {
        Some(g) => f.insert("group", Json::text(g)),
        None => {},
    }
    Some(f.done())
}

} // verus!
