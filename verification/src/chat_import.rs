//! Chats from other programs.

use crate::characters::helpers;
use crate::json;
use crate::json::{Fields, Json};
use crate::outside;
use crate::secrets;
use crate::text;
use crate::web;
use crate::web::Reply;
use vstd::prelude::*;

verus! {

/// The first line of an imported chat.
pub open spec fn header() -> json::Tree {
    json::Tree::Object(
        json::members()
            .push(("chat_metadata"@, json::Tree::Object(Seq::empty())))
            .push(("user_name"@, json::txt("unused"@)))
            .push(("character_name"@, json::txt("unused"@))),
    )
}

fn make_header() -> (r: Json)
    ensures
        r@ == header(),
{
    Fields::new()
        .with("chat_metadata", Json::no_members())
        .with("user_name", Json::text("unused"))
        .with("character_name", Json::text("unused"))
        .done()
}

/// A line of an imported chat.
pub open spec fn line(name: Seq<char>, is_user: bool, date: Seq<char>, mes: Seq<char>) ->
    json::Tree {
    json::Tree::Object(
        json::members()
            .push(("name"@, json::txt(name)))
            .push(("is_user"@, json::Tree::Bool(is_user)))
            .push(("send_date"@, json::txt(date)))
            .push(("mes"@, json::txt(mes)))
            .push(("extra"@, json::Tree::Object(Seq::empty()))),
    )
}

fn make_line(name: &str, is_user: bool, date: &str, mes: &str) -> (r: Json)
    ensures
        r@ == line(name@, is_user, date@, mes@),
{
    Fields::new()
        .with("name", Json::text(name))
        .with("is_user", Json::Bool(is_user))
        .with("send_date", Json::text(date))
        .with("mes", Json::text(mes))
        .with("extra", Json::no_members())
        .done()
}

/// Who speaks in a chat, and when it is imported.
#[derive(Debug)]
pub struct Speakers {
    pub user: String,
    pub character: String,
    pub now: String,
}

/// What a [`Speakers`] is.
pub struct SpeakersView {
    pub user: Seq<char>,
    pub character: Seq<char>,
    pub now: Seq<char>,
}

impl Speakers {
    pub open spec fn view(&self) -> SpeakersView {
        SpeakersView { user: self.user@, character: self.character@, now: self.now@ }
    }

    /// The name of the user or of the character.
    pub fn name(&self, is_user: bool) -> (r: &str)
        ensures
            r@ == self@.name(is_user),
    {
        if is_user {
            &self.user
        } else {
            &self.character
        }
    }
}

impl SpeakersView {
    /// The name of the user or of the character.
    pub open spec fn name(self, is_user: bool) -> Seq<char> {
        if is_user {
            self.user
        } else {
            self.character
        }
    }
}

/// The lines for the messages of an exchange: those that are not empty.
pub open spec fn exchange_line(
    pair: Seq<json::Tree>,
    i: int,
    is_user: bool,
    s: SpeakersView,
) -> Seq<json::Tree> {
    if i < pair.len() {
        match pair[i].as_text() {
            Some(t) => if t.len() > 0 {
                json::items().push(line(s.name(is_user), is_user, s.now, t))
            } else {
                Seq::empty()
            },
            None => Seq::empty(),
        }
    } else {
        Seq::empty()
    }
}

/// The lines for exchanges; none where one of them is no list.
pub open spec fn exchange_lines(pairs: Seq<json::Tree>, s: SpeakersView) -> Option<Seq<json::Tree>>
    decreases pairs.len(),
{
    if pairs.len() == 0 {
        Some(Seq::empty())
    } else {
        match (exchange_lines(pairs.drop_last(), s), pairs.last().as_items()) {
            (Some(rest), Some(pair)) => Some(
                rest + exchange_line(pair, 0, true, s) + exchange_line(pair, 1, false, s),
            ),
            _ => None,
        }
    }
}

/// The lines of a chat behind its header.
pub open spec fn chat_of(lines: Option<Seq<json::Tree>>) -> Option<Seq<json::Tree>> {
    match lines {
        Some(v) => Some(json::items().push(header()) + v),
        None => None,
    }
}

/// The lines of a chat over plain values.
pub open spec fn lines_view(v: Option<Vec<Json>>) -> Option<Seq<json::Tree>> {
    match v {
        Some(l) => Some(json::trees(l@)),
        None => None,
    }
}

fn push_exchange(out: &mut Vec<Json>, pair: &Vec<Json>, i: usize, is_user: bool, s: &Speakers)
    ensures
        json::trees(final(out)@) == json::trees(old(out)@) + exchange_line(
            json::trees(pair@),
            i as int,
            is_user,
            s@,
        ),
{
    let ghost before = json::trees(out@);
    if i < pair.len() {
        assert(json::trees(pair@)[i as int] == pair@[i as int]@);
        match pair[i].as_str() {
            Some(t) => if !t.is_empty() {
                let l = make_line(s.name(is_user), is_user, &s.now, t);
                out.push(l);
                assert(json::trees(out@) =~= before + json::items().push(l@));
                return;
            },
            None => {},
        }
    }
    assert(json::trees(out@) =~= before + Seq::<json::Tree>::empty());
}

/// A chat in which an exchange is no list has no lines.
pub proof fn failed_exchange(pairs: Seq<json::Tree>, s: SpeakersView, i: int)
    requires
        0 <= i < pairs.len(),
        pairs[i].as_items() is None,
    ensures
        exchange_lines(pairs, s) is None,
    decreases pairs.len(),
{
    if i < pairs.len() - 1 {
        assert(pairs.drop_last()[i] == pairs[i]);
        failed_exchange(pairs.drop_last(), s, i);
    }
}

/// The lines of a chat from Text Generation WebUI.
pub open spec fn ooba_chat(data: json::Tree, s: SpeakersView) -> Option<Seq<json::Tree>> {
    chat_of(
        match data.items_at("data_visible"@) {
            Some(pairs) => exchange_lines(pairs, s),
            None => None,
        },
    )
}

/// A chat from Text Generation WebUI: lists of what the user and the character said.
pub fn import_ooba_chat(s: &Speakers, data: &Json) -> (r: Option<Vec<Json>>)
    ensures
        lines_view(r) == ooba_chat(data@, s@),
{
    let pairs = match data.array_at("data_visible") {
        Some(p) => p,
        None => return None,
    };
    let ghost all = json::trees(pairs@);
    let mut out: Vec<Json> = Vec::new();
    let first = make_header();
    out.push(first);
    let ghost head = json::items().push(header());
    let mut i: usize = 0;
    assert(json::trees(out@) =~= head + exchange_lines(all.take(0), s@)->Some_0);
    while i < pairs.len()
        invariant
            all == json::trees(pairs@),
            data@.items_at("data_visible"@) == Some(all),
            i <= pairs@.len(),
            exchange_lines(all.take(i as int), s@) is Some,
            json::trees(out@) == head + exchange_lines(all.take(i as int), s@)->Some_0,
        decreases pairs@.len() - i,
    {
        assert(all.take(i as int + 1).drop_last() =~= all.take(i as int));
        assert(all.take(i as int + 1).last() == pairs@[i as int]@);
        let pair = match pairs[i].as_array() {
            Some(p) => p,
            None => {
                proof {
                    assert(all[i as int] == pairs@[i as int]@);
                    failed_exchange(all, s@, i as int);
                }
                return None;
            },
        };
        let ghost before = json::trees(out@);
        push_exchange(&mut out, pair, 0, true, s);
        push_exchange(&mut out, pair, 1, false, s);
        assert(json::trees(out@) =~= head + exchange_lines(all.take(i as int + 1), s@)->Some_0);
        i += 1;
    }
    assert(all.take(all.len() as int) =~= all);
    Some(out)
}

/// The lines for messages of Agnaistic.
pub open spec fn agnai_lines(messages: Seq<json::Tree>, s: SpeakersView) -> Seq<json::Tree> {
    Seq::new(
        messages.len(),
        |i: int|
            {
                let is_user = messages[i].get("userId"@) is Some;
                line(s.name(is_user), is_user, s.now, messages[i].text_or("msg"@, ""@))
            },
    )
}

/// The lines of a chat from Agnaistic.
pub open spec fn agnai_chat(data: json::Tree, s: SpeakersView) -> Option<Seq<json::Tree>> {
    chat_of(
        match data.items_at("messages"@) {
            Some(m) => Some(agnai_lines(m, s)),
            None => None,
        },
    )
}

/// A chat from Agnaistic.
pub fn import_agnai_chat(s: &Speakers, data: &Json) -> (r: Option<Vec<Json>>)
    ensures
        lines_view(r) == agnai_chat(data@, s@),
{
    let messages = match data.array_at("messages") {
        Some(m) => m,
        None => return None,
    };
    let ghost all = json::trees(messages@);
    let mut out: Vec<Json> = Vec::new();
    out.push(make_header());
    let ghost head = json::items().push(header());
    let mut i: usize = 0;
    assert(json::trees(out@) =~= head + agnai_lines(all, s@).take(0));
    while i < messages.len()
        invariant
            all == json::trees(messages@),
            i <= messages@.len(),
            json::trees(out@) == head + agnai_lines(all, s@).take(i as int),
        decreases messages@.len() - i,
    {
        assert(all[i as int] == messages@[i as int]@);
        let ghost before = json::trees(out@);
        let is_user = messages[i].get("userId").is_some();
        let l = make_line(s.name(is_user), is_user, &s.now, messages[i].str_or("msg", ""));
        out.push(l);
        assert(json::trees(out@) =~= before.push(l@));
        assert(agnai_lines(all, s@).take(i as int + 1) =~= agnai_lines(all, s@).take(
            i as int,
        ).push(l@));
        assert(head + agnai_lines(all, s@).take(i as int).push(l@) =~= (head + agnai_lines(
            all,
            s@,
        ).take(i as int)).push(l@));
        i += 1;
    }
    assert(agnai_lines(all, s@).take(all.len() as int) =~= agnai_lines(all, s@));
    Some(out)
}

/// Whether a message of Character.AI is one of the user.
pub open spec fn from_human(message: json::Tree) -> bool {
    match message.get("src"@) {
        Some(src) => src.flag_at("is_human"@) == Some(true),
        None => false,
    }
}

/// The lines for messages of Character.AI.
pub open spec fn cai_lines(messages: Seq<json::Tree>, s: SpeakersView) -> Seq<json::Tree> {
    Seq::new(
        messages.len(),
        |i: int|
            {
                let human = from_human(messages[i]);
                line(s.name(human), human, s.now, messages[i].text_or("text"@, ""@))
            },
    )
}

/// The lines of one of the chats of Character.AI.
pub open spec fn cai_chat(history: json::Tree, s: SpeakersView) -> Seq<json::Tree> {
    json::items().push(header()) + (match history.items_at("msgs"@) {
        Some(m) => cai_lines(m, s),
        None => Seq::empty(),
    })
}

/// The chats of Character.AI.
pub open spec fn cai_chats(data: json::Tree, s: SpeakersView) -> Option<Seq<Seq<json::Tree>>> {
    match data.get("histories"@) {
        Some(h) => match h.items_at("histories"@) {
            Some(v) => Some(Seq::new(v.len(), |i: int| cai_chat(v[i], s))),
            None => None,
        },
        None => None,
    }
}

/// The lines of chats over plain values.
pub open spec fn chats_view(v: Seq<Vec<Json>>) -> Seq<Seq<json::Tree>> {
    Seq::new(v.len(), |i: int| json::trees(v[i]@))
}

fn make_cai_chat(history: &Json, s: &Speakers) -> (r: Vec<Json>)
    ensures
        json::trees(r@) == cai_chat(history@, s@),
{
    let mut out: Vec<Json> = Vec::new();
    out.push(make_header());
    let ghost head = json::items().push(header());
    assert(json::trees(out@) =~= head + Seq::<json::Tree>::empty());
    match history.array_at("msgs") {
        Some(messages) => {
            let ghost all = json::trees(messages@);
            let ghost want = cai_lines(all, s@);
            let mut i: usize = 0;
            assert(json::trees(out@) =~= head + want.take(0));
            while i < messages.len()
                invariant
                    all == json::trees(messages@),
                    want == cai_lines(all, s@),
                    i <= messages@.len(),
                    json::trees(out@) == head + want.take(i as int),
                decreases messages@.len() - i,
            {
                assert(all[i as int] == messages@[i as int]@);
                let ghost before = json::trees(out@);
                let human = match messages[i].get("src") {
                    Some(src) => match src.bool_at("is_human") {
                        Some(b) => b,
                        None => false,
                    },
                    None => false,
                };
                let l = make_line(s.name(human), human, &s.now, messages[i].str_or("text", ""));
                out.push(l);
                assert(json::trees(out@) =~= before.push(l@));
                assert(head + want.take(i as int + 1) =~= (head + want.take(i as int)).push(l@));
                i += 1;
            }
            assert(want.take(all.len() as int) =~= want);
        },
        None => {},
    }
    out
}

/// The chats of Character.AI.
pub fn import_cai_chat(s: &Speakers, data: &Json) -> (r: Option<Vec<Vec<Json>>>)
    ensures
        match r {
            Some(v) => cai_chats(data@, s@) == Some(chats_view(v@)),
            None => cai_chats(data@, s@) is None,
        },
{
    let histories = match data.get("histories") {
        Some(h) => match h.array_at("histories") {
            Some(v) => v,
            None => return None,
        },
        None => return None,
    };
    let ghost all = json::trees(histories@);
    let mut out: Vec<Vec<Json>> = Vec::new();
    let mut i: usize = 0;
    while i < histories.len()
        invariant
            all == json::trees(histories@),
            i <= histories@.len(),
            out@.len() == i,
            forall|j: int| 0 <= j < i ==> json::trees((#[trigger] out@[j])@) == cai_chat(all[j], s@),
        decreases histories@.len() - i,
    {
        assert(all[i as int] == histories@[i as int]@);
        out.push(make_cai_chat(&histories[i], s));
        i += 1;
    }
    assert(chats_view(out@) =~= cai_chats(data@, s@)->Some_0);
    Some(out)
}

/// A message of KoboldAI Lite without the marks of who speaks.
pub open spec fn unmarked(msg: Seq<char>) -> Seq<char> {
    text::trimmed(
        text::replaced(text::replaced(msg, "{{[INPUT]}}"@, ""@), "{{[OUTPUT]}}"@, ""@),
    )
}

/// The line for a message of KoboldAI Lite.
pub open spec fn kobold_line(msg: Seq<char>, s: SpeakersView) -> json::Tree {
    let is_user = text::occurs(msg, "{{[INPUT]}}"@);
    json::Tree::Object(
        json::members()
            .push(("name"@, json::txt(s.name(is_user))))
            .push(("is_user"@, json::Tree::Bool(is_user)))
            .push(("mes"@, json::txt(unmarked(msg))))
            .push(("send_date"@, json::txt(s.now)))
            .push(("extra"@, json::Tree::Object(Seq::empty()))),
    )
}

fn make_kobold_line(msg: &str, s: &Speakers) -> (r: Json)
    ensures
        r@ == kobold_line(msg@, s@),
{
    proof {
        reveal_strlit("{{[INPUT]}}");
        reveal_strlit("{{[OUTPUT]}}");
    }
    let is_user = text::contains(msg, "{{[INPUT]}}");
    let bare = text::replace(&text::replace(msg, "{{[INPUT]}}", ""), "{{[OUTPUT]}}", "");
    Fields::new()
        .with("name", Json::text(s.name(is_user)))
        .with("is_user", Json::Bool(is_user))
        .with("mes", Json::Text(text::trim(&bare)))
        .with("send_date", Json::text(&s.now))
        .with("extra", Json::no_members())
        .done()
}

/// The lines for those of the actions of KoboldAI Lite that are texts.
pub open spec fn action_lines(actions: Seq<json::Tree>, s: SpeakersView) -> Seq<json::Tree>
    decreases actions.len(),
{
    if actions.len() == 0 {
        Seq::empty()
    } else {
        let rest = action_lines(actions.drop_last(), s);
        match actions.last().as_text() {
            Some(t) => rest.push(kobold_line(t, s)),
            None => rest,
        }
    }
}

/// The speakers that a save of KoboldAI Lite names, where it has settings for both.
pub open spec fn kobold_speakers(data: json::Tree, now: Seq<char>) -> Option<SpeakersView> {
    match data.get("savedsettings"@) {
        Some(v) => match (v.get("chatname"@), v.get("chatopponent"@)) {
            (Some(_), Some(_)) => {
                let raw = v.text_or("chatopponent"@, "Character"@);
                Some(
                    SpeakersView {
                        user: v.text_or("chatname"@, "User"@),
                        character: match text::parted(raw, "||$||"@) {
                            Some(p) => p.0,
                            None => raw,
                        },
                        now,
                    },
                )
            },
            _ => None,
        },
        None => None,
    }
}

fn find_kobold_speakers(data: &Json, now: &str) -> (r: Option<Speakers>)
    ensures
        match r {
            Some(s) => kobold_speakers(data@, now@) == Some(s@),
            None => kobold_speakers(data@, now@) is None,
        },
{
    let v = match data.get("savedsettings") {
        Some(v) => v,
        None => return None,
    };
    if v.get("chatname").is_none() || v.get("chatopponent").is_none() {
        return None;
    }
    let raw = v.str_or("chatopponent", "Character");
    let character = match text::split_once(raw, "||$||") {
        Some(p) => p.0,
        None => raw.to_owned(),
    };
    Some(
        Speakers {
            user: v.str_or("chatname", "User").to_owned(),
            character,
            now: now.to_owned(),
        },
    )
}

/// The lines of a save of KoboldAI Lite.
pub open spec fn kobold_chat(data: json::Tree, now: Seq<char>) -> Option<Seq<json::Tree>> {
    match (kobold_speakers(data, now), data.items_at("actions"@)) {
        (Some(s), Some(actions)) => Some(
            (match data.text_at("prompt"@) {
                Some(p) => json::items().push(header()).push(kobold_line(p, s)),
                None => json::items().push(header()),
            }) + action_lines(actions, s),
        ),
        _ => None,
    }
}

/// A chat from KoboldAI Lite.
pub fn import_kobold_lite_chat(data: &Json, now: &str) -> (r: Option<Vec<Json>>)
    ensures
        lines_view(r) == kobold_chat(data@, now@),
{
    let s = match find_kobold_speakers(data, now) {
        Some(s) => s,
        None => return None,
    };
    let actions = match data.array_at("actions") {
        Some(a) => a,
        None => return None,
    };
    let mut out: Vec<Json> = Vec::new();
    out.push(make_header());
    assert(json::trees(out@) =~= json::items().push(header()));
    match data.str_at("prompt") {
        Some(p) => {
            let l = make_kobold_line(p, &s);
            let ghost before = json::trees(out@);
            out.push(l);
            assert(json::trees(out@) =~= before.push(l@));
        },
        None => {},
    }
    let ghost head = json::trees(out@);
    let ghost all = json::trees(actions@);
    let mut i: usize = 0;
    assert(json::trees(out@) =~= head + action_lines(all.take(0), s@));
    while i < actions.len()
        invariant
            all == json::trees(actions@),
            i <= actions@.len(),
            json::trees(out@) == head + action_lines(all.take(i as int), s@),
        decreases actions@.len() - i,
    {
        assert(all.take(i as int + 1).drop_last() =~= all.take(i as int));
        assert(all.take(i as int + 1).last() == actions@[i as int]@);
        let ghost before = json::trees(out@);
        match actions[i].as_str() {
            Some(t) => {
                let l = make_kobold_line(t, &s);
                out.push(l);
                assert(json::trees(out@) =~= before.push(l@));
                assert(before.push(l@) =~= head + action_lines(all.take(i as int), s@).push(l@));
            },
            None => {},
        }
        i += 1;
    }
    assert(all.take(all.len() as int) =~= all);
    Some(out)
}

/// The time of a message of RisuAI in milliseconds; now where it has none.
pub open spec fn risu_time(message: json::Tree, now_millis: i64) -> i64 {
    match message.get("time"@) {
        Some(t) => match t.as_natural() {
            Some(n) => n as i64,
            None => now_millis,
        },
        None => now_millis,
    }
}

/// The line for a message of RisuAI with the text of its time, where it has one.
pub open spec fn risu_line(message: json::Tree, s: SpeakersView, date: Option<Seq<char>>) ->
    json::Tree {
    let is_user = message.text_or("role"@, ""@) == "user"@;
    line(
        message.text_or("name"@, s.name(is_user)),
        is_user,
        secrets::text_or(date, s.now),
        message.text_or("data"@, ""@),
    )
}

/// The line for a message of RisuAI with the text of its time, where it has one.
pub fn risu_message(message: &Json, s: &Speakers, date: Option<String>) -> (r: Json)
    ensures
        r@ == risu_line(message@, s@, json::string_opt(date)),
{
    let is_user = text::same(message.str_or("role", ""), "user");
    let shown = secrets::unwrap_or(&date, &s.now);
    make_line(
        message.str_or("name", s.name(is_user)),
        is_user,
        &shown,
        message.str_or("data", ""),
    )
}

fn time_of_risu(message: &Json, now_millis: i64) -> (r: i64)
    ensures
        r == risu_time(message@, now_millis),
{
    match message.get("time") {
        Some(t) => match t.as_u64() {
            Some(n) => #[verifier::truncate]
            (n as i64),
            None => now_millis,
        },
        None => now_millis,
    }
}

/// The lines for messages of RisuAI.
pub open spec fn risu_lines(messages: Seq<json::Tree>, s: SpeakersView, now_millis: i64) -> Seq<
    json::Tree,
> {
    Seq::new(
        messages.len(),
        |i: int|
            risu_line(messages[i], s, outside::millis_text(risu_time(messages[i], now_millis))),
    )
}

/// The messages of a chat of RisuAI.
pub open spec fn risu_messages(data: json::Tree) -> Option<Seq<json::Tree>> {
    match data.get("data"@) {
        Some(d) => d.items_at("message"@),
        None => None,
    }
}

/// The lines of a chat from RisuAI.
pub open spec fn risu_chat(data: json::Tree, s: SpeakersView, now_millis: i64) -> Option<
    Seq<json::Tree>,
> {
    chat_of(
        match risu_messages(data) {
            Some(m) => Some(risu_lines(m, s, now_millis)),
            None => None,
        },
    )
}

/// A chat from RisuAI.
pub fn import_risu_chat(s: &Speakers, data: &Json, now_millis: i64) -> (r: Option<Vec<Json>>)
    ensures
        lines_view(r) == risu_chat(data@, s@, now_millis),
{
    let messages = match data.get("data") {
        Some(d) => match d.array_at("message") {
            Some(m) => m,
            None => return None,
        },
        None => return None,
    };
    let ghost all = json::trees(messages@);
    let ghost want = risu_lines(all, s@, now_millis);
    let mut out: Vec<Json> = Vec::new();
    out.push(make_header());
    let ghost head = json::items().push(header());
    let mut i: usize = 0;
    assert(json::trees(out@) =~= head + want.take(0));
    while i < messages.len()
        invariant
            all == json::trees(messages@),
            want == risu_lines(all, s@, now_millis),
            i <= messages@.len(),
            json::trees(out@) == head + want.take(i as int),
        decreases messages@.len() - i,
    {
        assert(all[i as int] == messages@[i as int]@);
        let ghost before = json::trees(out@);
        let date = outside::format_millis(time_of_risu(&messages[i], now_millis));
        let l = risu_message(&messages[i], s, date);
        out.push(l);
        assert(json::trees(out@) =~= before.push(l@));
        assert(head + want.take(i as int + 1) =~= (head + want.take(i as int)).push(l@));
        i += 1;
    }
    assert(want.take(all.len() as int) =~= want);
    Some(out)
}

/// A version of a message from Chub: its text, where it is wrapped.
pub open spec fn flat_version(t: json::Tree) -> json::Tree {
    json::tree_or(t.get("message"@), t)
}

/// A line of a chat from Chub with its message and their versions unwrapped.
pub open spec fn flat_line(t: json::Tree) -> json::Tree {
    let a = match t.get("mes"@) {
        Some(m) => match m.get("message"@) {
            Some(inner) => json::Tree::Object(json::put(t->Object_0, "mes"@, inner)),
            None => t,
        },
        None => t,
    };
    match a.items_at("swipes"@) {
        Some(v) => json::Tree::Object(
            json::put(
                a->Object_0,
                "swipes"@,
                json::Tree::Array(Seq::new(v.len(), |i: int| flat_version(v[i]))),
            ),
        ),
        None => a,
    }
}

/// A line of a chat from Chub with its message and their versions unwrapped.
pub fn flatten_line(data: &Json) -> (r: Json)
    ensures
        r@ == flat_line(data@),
{
    let mut out = data.copy();
    match data.get("mes") {
        Some(m) => match m.get("message") {
            Some(inner) => helpers::set_val(&mut out, "mes", inner.copy()),
            None => {},
        },
        None => {},
    }
    let mut flat: Vec<Json> = Vec::new();
    match out.array_at("swipes") {
        Some(swipes) => {
            let ghost all = json::trees(swipes@);
            let mut i: usize = 0;
            while i < swipes.len()
                invariant
                    all == json::trees(swipes@),
                    i <= swipes@.len(),
                    flat@.len() == i,
                    forall|j: int| 0 <= j < i ==> (#[trigger] flat@[j])@ == flat_version(all[j]),
                decreases swipes@.len() - i,
            {
                assert(all[i as int] == swipes@[i as int]@);
                match swipes[i].get("message") {
                    Some(m) => flat.push(m.copy()),
                    None => flat.push(swipes[i].copy()),
                }
                i += 1;
            }
            assert(json::trees(flat@) =~= Seq::new(all.len(), |j: int| flat_version(all[j])));
        },
        None => return out,
    }
    helpers::set_val(&mut out, "swipes", Json::array(flat));
    out
}

/// The lines of a chat from Chub, flattened; a line that is no JSON value is nothing.
pub fn flatten_chub_chat(lines: &Vec<Option<Json>>) -> (r: Vec<Option<Json>>)
    ensures
        r@.len() == lines@.len(),
        forall|i: int|
            0 <= i < lines@.len() ==> web::owned_tree(#[trigger] r@[i]) == (match lines@[i] {
                Some(j) => Some(flat_line(j@)),
                None => None,
            }),
{
    let mut out: Vec<Option<Json>> = Vec::new();
    let mut i: usize = 0;
    while i < lines.len()
        invariant
            i <= lines@.len(),
            out@.len() == i,
            forall|j: int|
                0 <= j < i ==> web::owned_tree(#[trigger] out@[j]) == (match lines@[j] {
                    Some(x) => Some(flat_line(x@)),
                    None => None,
                }),
        decreases lines@.len() - i,
    {
        let l = match &lines[i] {
            Some(j) => Some(flatten_line(j)),
            None => None,
        };
        out.push(l);
        i += 1;
    }
    out
}

/// A line of a chat from Chub that is flat already stays as it is.
pub proof fn flat_line_stays(t: json::Tree)
    requires
        t.get("mes"@) matches Some(m) ==> m.get("message"@) is None,
        t.items_at("swipes"@) is None,
    ensures
        flat_line(t) == t,
{
}

/// The form that a chat is imported with.
#[derive(Debug)]
pub struct ChatImportForm {
    pub has_file: bool,
    pub avatar_url: String,
    pub file_type: String,
    pub character_name: String,
}

/// What a chat is imported as: the directory, the name of the character, and whether the file
/// holds a chat line by line.
#[derive(Debug)]
pub struct ChatImport {
    pub folder: String,
    pub character_name: String,
    pub by_line: bool,
}

/// Why a chat is not imported.
pub open spec fn import_error(form: ChatImportForm) -> Option<web::ReplyView> {
    if !form.has_file || helpers::forbidden(form.avatar_url@) || text::drop_suffixes(
        form.avatar_url@,
        ".png"@,
    ).len() == 0 {
        Some(web::status_only(400))
    } else if form.file_type@ != "json"@ && form.file_type@ != "jsonl"@ {
        Some(web::json_reply(200, web::true_error()))
    } else {
        None
    }
}

/// What a chat is imported as, or the refusal.
pub fn import_chat(form: &ChatImportForm) -> (r: Result<ChatImport, Reply>)
    ensures
        match r {
            Ok(x) => {
                &&& import_error(*form) is None
                &&& x.folder@ == text::drop_suffixes(form.avatar_url@, ".png"@)
                &&& x.character_name@ == if form.character_name@.len() == 0 {
                    "Character"@
                } else {
                    form.character_name@
                }
                &&& x.by_line == (form.file_type@ == "jsonl"@)
            },
            Err(e) => import_error(*form) == Some(e@),
        },
{
    if !form.has_file || helpers::contains_forbidden_chars(&form.avatar_url) {
        return Err(Reply::empty(400));
    }
    let folder = text::trim_end_text(&form.avatar_url, ".png");
    if folder.as_str().is_empty() {
        return Err(Reply::empty(400));
    }
    let by_line = text::same(&form.file_type, "jsonl");
    if !by_line && !text::same(&form.file_type, "json") {
        return Err(Reply::json(200, web::error_flag()));
    }
    let character_name = if form.character_name.as_str().is_empty() {
        "Character".to_owned()
    } else {
        form.character_name.clone()
    };
    Ok(ChatImport { folder, character_name, by_line })
}

/// The file that an imported chat is stored in.
pub fn imported_file_name(character_name: &str, stamp: &str) -> (r: String)
    ensures
        r@ == character_name@ + " - "@ + stamp@ + " imported.jsonl"@,
{
    let mut out = text::join3(character_name, " - ", stamp);
    out.push_str(" imported.jsonl");
    out
}

/// The single chat of a list, where there is one.
pub open spec fn one_chat(c: Option<Seq<json::Tree>>) -> Seq<Seq<json::Tree>> {
    match c {
        Some(v) => Seq::empty().push(v),
        None => Seq::empty(),
    }
}

/// The chats in a JSON file, by the program that it is from; nothing where that is not known.
pub open spec fn json_chats(data: json::Tree, s: SpeakersView, now_millis: i64) -> Option<
    Seq<Seq<json::Tree>>,
> {
    if data.get("savedsettings"@) is Some {
        Some(one_chat(kobold_chat(data, s.now)))
    } else if data.get("histories"@) is Some {
        Some(
            match cai_chats(data, s) {
                Some(v) => v,
                None => Seq::empty(),
            },
        )
    } else if data.items_at("data_visible"@) is Some {
        Some(one_chat(chat_of(exchange_lines(data.items_at("data_visible"@)->Some_0, s))))
    } else if data.items_at("messages"@) is Some {
        Some(one_chat(chat_of(Some(agnai_lines(data.items_at("messages"@)->Some_0, s)))))
    } else if data.text_at("type"@) == Some("risuChat"@) {
        Some(
            one_chat(
                chat_of(
                    match risu_messages(data) {
                        Some(m) => Some(risu_lines(m, s, now_millis)),
                        None => None,
                    },
                ),
            ),
        )
    } else {
        None
    }
}

fn as_list(chat: Option<Vec<Json>>) -> (r: Vec<Vec<Json>>)
    ensures
        chats_view(r@) == one_chat(lines_view(chat)),
{
    let mut out: Vec<Vec<Json>> = Vec::new();
    match chat {
        Some(c) => out.push(c),
        None => {},
    }
    assert(chats_view(out@) =~= one_chat(lines_view(chat)));
    out
}

/// The chats in a JSON file, or the answer where there are none. `data` is nothing where the
/// file holds no JSON value.
pub fn import_json_chats(data: Option<&Json>, s: &Speakers, now_millis: i64) -> (r: Result<
    Vec<Vec<Json>>,
    Reply,
>)
    ensures
        match data {
            Some(d) => {
                let found = json_chats(d@, s@, now_millis);
                match r {
                    Ok(v) => found == Some(chats_view(v@)) && v@.len() > 0,
                    Err(e) => e@ == web::json_reply(200, web::true_error()) && (found is None
                        || found->Some_0.len() == 0),
                }
            },
            None => r matches Err(e) && e@ == web::json_reply(200, web::true_error()),
        },
{
    let data = match data {
        Some(d) => d,
        None => return Err(Reply::json(200, web::error_flag())),
    };
    let is_risu = match data.str_at("type") {
        Some(t) => text::same(t, "risuChat"),
        None => false,
    };
    let chats = if data.get("savedsettings").is_some() {
        as_list(import_kobold_lite_chat(data, &s.now))
    } else if data.get("histories").is_some() {
        match import_cai_chat(s, data) {
            Some(v) => v,
            None => {
                let none: Vec<Vec<Json>> = Vec::new();
                assert(chats_view(none@) =~= Seq::empty());
                none
            },
        }
    } else if data.array_at("data_visible").is_some() {
        as_list(import_ooba_chat(s, data))
    } else if data.array_at("messages").is_some() {
        as_list(import_agnai_chat(s, data))
    } else if is_risu {
        as_list(import_risu_chat(s, data, now_millis))
    } else {
        return Err(Reply::json(200, web::error_flag()));
    };
    assert(chats_view(chats@).len() == chats@.len());
    if chats.len() == 0 {
        return Err(Reply::json(200, web::error_flag()));
    }
    Ok(chats)
}

/// Whether the first line of a file is one of a chat.
pub open spec fn begins_chat(first: Option<json::Tree>) -> bool {
    match first {
        Some(t) => t.get("user_name"@) is Some || t.get("name"@) is Some || t.get(
            "chat_metadata"@,
        ) is Some,
        None => false,
    }
}

/// The lines of a chat that is stored line by line, flattened, or the answer where the file
/// holds none.
pub fn import_jsonl_chat(lines: &Vec<Option<Json>>) -> (r: Result<Vec<Option<Json>>, Reply>)
    ensures
        ({
            let ready = lines@.len() > 0 && begins_chat(web::owned_tree(lines@[0]));
            match r {
                Ok(v) => ready && v@.len() == lines@.len() && forall|i: int|
                    0 <= i < lines@.len() ==> web::owned_tree(#[trigger] v@[i]) == (match lines@[i] {
                        Some(j) => Some(flat_line(j@)),
                        None => None,
                    }),
                Err(e) => !ready && e@ == web::json_reply(200, web::true_error()),
            }
        }),
{
    if lines.len() == 0 {
        return Err(Reply::json(200, web::error_flag()));
    }
    let ready = match &lines[0] {
        Some(t) => t.get("user_name").is_some() || t.get("name").is_some() || t.get(
            "chat_metadata",
        ).is_some(),
        None => false,
    };
    if !ready {
        return Err(Reply::json(200, web::error_flag()));
    }
    Ok(flatten_chub_chat(lines))
}

/// The answer once chats were imported.
pub fn import_reply(file_names: &Vec<String>) -> (r: Reply)
    ensures
        r@ == web::json_reply(
            200,
            json::Tree::Object(
                json::members()
                    .push(("res"@, json::Tree::Bool(true)))
                    .push((
                        "fileNames"@,
                        json::Tree::Array(
                            json::text_items(json::texts(file_names@)),
                        ),
                    )),
            ),
        ),
{
    let names = json::texts_json(file_names);
    Reply::json(
        200,
        Fields::new().with("res", Json::Bool(true)).with("fileNames", names).done(),
    )
}

} // verus!
