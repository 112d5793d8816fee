//! The chats of a scenario in a BYAF archive.

use crate::characters::byaf;
use crate::characters::byaf::ByafChatBackground;
use crate::characters::macros;
use crate::json;
use crate::json::{Fields, Json};
use crate::numbers;
use crate::numbers::TextNumber;
use crate::outside;
use crate::text;
use vstd::prelude::*;

verus! {

/// A value as a number: a whole number as it is, another number as a fraction, a text by the
/// table of texts that stand for numbers; `null` where there is none.
pub open spec fn number_of(o: Option<json::Tree>, table: Seq<TextNumber>) -> json::Tree {
    match o {
        Some(t) => if t.as_integer() is Some {
            t
        } else {
            match numbers::floated(t, table) {
                Some(x) => x,
                None => match t {
                    json::Tree::Text(s) => numbers::number_named(table, s),
                    _ => json::Tree::Null,
                },
            }
        },
        None => json::Tree::Null,
    }
}

/// A value as a number.
pub fn value_to_number(val: Option<&Json>, table: &Vec<TextNumber>) -> (r: Json)
    ensures
        r@ == number_of(json::tree_opt(val), table@),
{
    let v = match val {
        Some(v) => v,
        None => return Json::Null,
    };
    if v.as_i64().is_some() {
        return v.copy();
    }
    match numbers::to_float(v, table) {
        Some(x) => return x,
        None => {},
    }
    match v.as_str() {
        Some(s) => numbers::look_up_number(table, s),
        None => Json::Null,
    }
}

/// The text that has to be read as a date for a time to be known: one that is no whole
/// number.
pub open spec fn date_text(o: Option<json::Tree>) -> Option<Seq<char>> {
    match o {
        Some(json::Tree::Text(s)) => if numbers::i64_value(s) is None {
            Some(s)
        } else {
            None
        },
        _ => None,
    }
}

/// A time in milliseconds, where `date` is what the text that has to be read as a date
/// stands for.
pub open spec fn moment(o: Option<json::Tree>, date: Option<i64>) -> Option<i64> {
    match o {
        Some(t) => match t.as_integer() {
            Some(n) => Some(n),
            None => match numbers::double_value(t) {
                Some(b) => Some(numbers::as_i64(b)),
                None => match t {
                    json::Tree::Text(s) => match numbers::i64_value(s) {
                        Some(n) => Some(n),
                        None => date,
                    },
                    _ => None,
                },
            },
        },
        None => None,
    }
}

/// A time in milliseconds; dates are in the format of RFC 3339.
pub open spec fn stamp_of(o: Option<json::Tree>) -> Option<i64> {
    moment(
        o,
        match date_text(o) {
            Some(s) => outside::rfc3339_millis(s),
            None => None,
        },
    )
}

/// A time in milliseconds, given what its text stands for as a date.
pub fn timestamp_with_date(val: Option<&Json>, date: Option<i64>) -> (r: Option<i64>)
    ensures
        r == moment(json::tree_opt(val), date),
{
    let v = match val {
        Some(v) => v,
        None => return None,
    };
    match v.as_i64() {
        Some(n) => return Some(n),
        None => {},
    }
    match numbers::double_at(v) {
        Some(b) => return Some(numbers::double_to_i64(b)),
        None => {},
    }
    match v.as_str() {
        Some(s) => match numbers::parse_i64(s) {
            Some(n) => Some(n),
            None => date,
        },
        None => None,
    }
}

/// A time in milliseconds.
pub fn parse_active_timestamp(val: Option<&Json>) -> (r: Option<i64>)
    ensures
        r == stamp_of(json::tree_opt(val)),
{
    let date = match val {
        Some(v) => match v.as_str() {
            Some(s) => if numbers::parse_i64(s).is_none() {
                outside::parse_rfc3339(s)
            } else {
                None
            },
            None => None,
        },
        None => None,
    };
    timestamp_with_date(val, date)
}

/// A time, or 0 where it is not known.
pub open spec fn stamp_or_zero(o: Option<i64>) -> int {
    match o {
        Some(n) => n as int,
        None => 0,
    }
}

/// The position of the newest of some times: the last of those that none is later than; -1
/// where there are no times.
pub open spec fn newest_of(stamps: Seq<Option<i64>>) -> int
    decreases stamps.len(),
{
    if stamps.len() == 0 {
        -1
    } else {
        let p = newest_of(stamps.drop_last());
        if p < 0 || stamp_or_zero(stamps.last()) >= stamp_or_zero(stamps[p]) {
            stamps.len() - 1
        } else {
            p
        }
    }
}

/// No time is later than the newest, and those behind it are earlier.
pub proof fn newest_is_latest(stamps: Seq<Option<i64>>)
    requires
        stamps.len() > 0,
    ensures
        0 <= newest_of(stamps) < stamps.len(),
        forall|i: int|
            0 <= i < stamps.len() ==> stamp_or_zero(#[trigger] stamps[i]) <= stamp_or_zero(
                stamps[newest_of(stamps)],
            ),
        forall|i: int|
            newest_of(stamps) < i < stamps.len() ==> stamp_or_zero(#[trigger] stamps[i])
                < stamp_or_zero(stamps[newest_of(stamps)]),
    decreases stamps.len(),
{
    reveal_with_fuel(newest_of, 2);
    if stamps.len() > 1 {
        let d = stamps.drop_last();
        newest_is_latest(d);
        assert forall|i: int| 0 <= i < stamps.len() implies stamp_or_zero(#[trigger] stamps[i])
            <= stamp_or_zero(stamps[newest_of(stamps)]) by {
            if i < d.len() {
                assert(d[i] == stamps[i]);
            }
        }
        assert forall|i: int| newest_of(stamps) < i < stamps.len() implies stamp_or_zero(
            #[trigger] stamps[i],
        ) < stamp_or_zero(stamps[newest_of(stamps)]) by {
            if i < d.len() {
                assert(d[i] == stamps[i]);
            }
        }
    }
}

/// The position of the newest of some times.
pub fn newest_index(stamps: &Vec<Option<i64>>) -> (r: Option<usize>)
    ensures
        match r {
            Some(p) => p == newest_of(stamps@) && p < stamps@.len(),
            None => stamps@.len() == 0,
        },
{
    if stamps.len() == 0 {
        return None;
    }
    let mut p: usize = 0;
    let mut i: usize = 1;
    proof {
        reveal_with_fuel(newest_of, 2);
    }
    assert(stamps@.take(1).drop_last().len() == 0);
    while i < stamps.len()
        invariant
            1 <= i <= stamps@.len(),
            p < i,
            p == newest_of(stamps@.take(i as int)),
        decreases stamps@.len() - i,
    {
        assert(stamps@.take(i as int + 1).drop_last() =~= stamps@.take(i as int));
        let a: i64 = match stamps[i] {
            Some(n) => n,
            None => 0,
        };
        let b: i64 = match stamps[p] {
            Some(n) => n,
            None => 0,
        };
        if a >= b {
            p = i;
        }
        i += 1;
    }
    assert(stamps@.take(stamps@.len() as int) =~= stamps@);
    Some(p)
}

/// The times of the outputs of a message.
pub open spec fn output_stamps(outputs: Seq<json::Tree>) -> Seq<Option<i64>> {
    Seq::new(outputs.len(), |i: int| stamp_of(outputs[i].get("activeTimestamp"@)))
}

/// The newest output of a message.
pub open spec fn newest_output(message: json::Tree) -> Option<json::Tree> {
    match message.items_at("outputs"@) {
        Some(outputs) => if outputs.len() == 0 {
            None
        } else {
            Some(outputs[newest_of(output_stamps(outputs))])
        },
        None => None,
    }
}

/// The newest output of a message.
pub fn get_newest_ai_message(message: &Json) -> (r: Option<&Json>)
    ensures
        json::tree_opt(r) == newest_output(message@),
{
    let outputs = match message.array_at("outputs") {
        Some(a) => a,
        None => return None,
    };
    let ghost all = json::trees(outputs@);
    let mut stamps: Vec<Option<i64>> = Vec::new();
    let mut i: usize = 0;
    while i < outputs.len()
        invariant
            all == json::trees(outputs@),
            i <= outputs@.len(),
            stamps@.len() == i,
            forall|j: int| 0 <= j < i ==> #[trigger] stamps@[j] == output_stamps(all)[j],
        decreases outputs@.len() - i,
    {
        assert(all[i as int] == outputs@[i as int]@);
        stamps.push(parse_active_timestamp(outputs[i].get("activeTimestamp")));
        i += 1;
    }
    assert(stamps@ =~= output_stamps(all));
    match newest_index(&stamps) {
        Some(p) => {
            assert(all[p as int] == outputs@[p as int]@);
            Some(&outputs[p])
        },
        None => None,
    }
}

/// The texts of those outputs that have one.
pub open spec fn output_texts(outputs: Seq<json::Tree>) -> Seq<Seq<char>>
    decreases outputs.len(),
{
    if outputs.len() == 0 {
        Seq::empty()
    } else {
        let rest = output_texts(outputs.drop_last());
        match outputs.last().text_at("text"@) {
            Some(t) => rest.push(t),
            None => rest,
        }
    }
}

/// The versions of a message.
pub open spec fn swipes_of(message: json::Tree) -> Seq<Seq<char>> {
    match message.items_at("outputs"@) {
        Some(outputs) => output_texts(outputs),
        None => Seq::empty(),
    }
}

/// The versions of a message.
pub fn get_swipes(message: &Json) -> (r: Vec<String>)
    ensures
        json::texts(r@) == swipes_of(message@),
{
    let mut out: Vec<String> = Vec::new();
    assert(json::texts(out@) =~= Seq::empty());
    match message.array_at("outputs") {
        Some(outputs) => {
            let ghost all = json::trees(outputs@);
            let mut i: usize = 0;
            assert(json::texts(out@) =~= output_texts(all.take(0)));
            while i < outputs.len()
                invariant
                    all == json::trees(outputs@),
                    i <= outputs@.len(),
                    json::texts(out@) == output_texts(all.take(i as int)),
                decreases outputs@.len() - i,
            {
                assert(all.take(i as int + 1).drop_last() =~= all.take(i as int));
                assert(all.take(i as int + 1).last() == outputs@[i as int]@);
                let ghost before = out@;
                match outputs[i].str_at("text") {
                    Some(t) => {
                        out.push(t.to_owned());
                        assert(json::texts(out@) =~= json::texts(before).push(t@));
                    },
                    None => {},
                }
                i += 1;
            }
            assert(all.take(all.len() as int) =~= all);
        },
        None => {},
    }
    out
}

/// The position of the first of the texts from the `i`th on that is `t`; 0 where none is.
pub open spec fn version_from(v: Seq<Seq<char>>, t: Seq<char>, i: int) -> int
    decreases v.len() - i,
{
    if i < 0 || i >= v.len() {
        0
    } else if v[i] == t {
        i
    } else {
        version_from(v, t, i + 1)
    }
}

fn find_version(v: &Vec<String>, t: &str) -> (r: usize)
    ensures
        r == version_from(json::texts(v@), t@, 0),
{
    let ghost all = json::texts(v@);
    let mut i: usize = 0;
    while i < v.len()
        invariant
            all == json::texts(v@),
            i <= v@.len(),
            version_from(all, t@, 0) == version_from(all, t@, i as int),
        decreases v@.len() - i,
    {
        assert(all[i as int] == v@[i as int]@);
        if text::same(&v[i], t) {
            return i;
        }
        i += 1;
    }
    0
}

/// The line of a chat for a message of the user.
pub open spec fn user_line(
    message: json::Tree,
    user_name: Seq<char>,
    table: Seq<TextNumber>,
) -> json::Tree {
    json::Tree::Object(
        json::members()
            .push(("name"@, json::txt(user_name)))
            .push(("is_user"@, json::Tree::Bool(true)))
            .push(("send_date"@, number_of(message.get("createdAt"@), table)))
            .push(("mes"@, json::txt(message.text_or("text"@, ""@)))),
    )
}

/// The line of a chat for a message of the character: its newest output, and all of them as
/// versions.
pub open spec fn character_line(
    message: json::Tree,
    character_name: Seq<char>,
    table: Seq<TextNumber>,
) -> json::Tree {
    let newest = newest_output(message);
    let shown = byaf::text_in(newest, "text"@);
    let swipes = swipes_of(message);
    json::Tree::Object(
        json::members()
            .push(("name"@, json::txt(character_name)))
            .push(("is_user"@, json::Tree::Bool(false)))
            .push((
                "send_date"@,
                number_of(
                    match newest {
                        Some(t) => t.get("createdAt"@),
                        None => None,
                    },
                    table,
                ),
            ))
            .push(("mes"@, json::txt(shown)))
            .push(("swipes"@, json::Tree::Array(json::text_items(swipes))))
            .push(("swipe_id"@, json::num(version_from(swipes, shown, 0) as u64))),
    )
}

fn make_user_line(message: &Json, user_name: &str, table: &Vec<TextNumber>) -> (r: Json)
    ensures
        r@ == user_line(message@, user_name@, table@),
{
    Fields::new()
        .with("name", Json::text(user_name))
        .with("is_user", Json::Bool(true))
        .with("send_date", value_to_number(message.get("createdAt"), table))
        .with("mes", Json::text(message.str_or("text", "")))
        .done()
}

fn make_character_line(message: &Json, character_name: &str, table: &Vec<TextNumber>) -> (r: Json)
    ensures
        r@ == character_line(message@, character_name@, table@),
{
    let newest = get_newest_ai_message(message);
    let swipes = get_swipes(message);
    let shown = byaf::text_under(newest, "text");
    let id: usize = find_version(&swipes, shown);
    let created = match newest {
        Some(m) => m.get("createdAt"),
        None => None,
    };
    Fields::new()
        .with("name", Json::text(character_name))
        .with("is_user", Json::Bool(false))
        .with("send_date", value_to_number(created, table))
        .with("mes", Json::text(shown))
        .with("swipes", json::texts_json(&swipes))
        .with("swipe_id", Json::natural(id as u64))
        .done()
}

/// The messages of a kind.
pub open spec fn of_kind(messages: Seq<json::Tree>, kind: Seq<char>) -> Seq<json::Tree>
    decreases messages.len(),
{
    if messages.len() == 0 {
        Seq::empty()
    } else {
        let rest = of_kind(messages.drop_last(), kind);
        if messages.last().text_at("type"@) == Some(kind) {
            rest.push(messages.last())
        } else {
            rest
        }
    }
}

fn is_kind(message: &Json, kind: &str) -> (r: bool)
    ensures
        r == (message@.text_at("type"@) == Some(kind@)),
{
    match message.str_at("type") {
        Some(t) => text::same(t, kind),
        None => false,
    }
}

fn pick_kind<'a>(messages: &'a Vec<Json>, kind: &str) -> (r: Vec<&'a Json>)
    ensures
        of_kind(json::trees(messages@), kind@) == Seq::new(r@.len(), |i: int| r@[i]@),
{
    let ghost all = json::trees(messages@);
    let mut out: Vec<&'a Json> = Vec::new();
    let mut i: usize = 0;
    assert(of_kind(all.take(0), kind@) =~= Seq::new(out@.len(), |i: int| out@[i]@));
    while i < messages.len()
        invariant
            all == json::trees(messages@),
            i <= messages@.len(),
            of_kind(all.take(i as int), kind@) == Seq::new(out@.len(), |j: int| out@[j]@),
        decreases messages@.len() - i,
    {
        assert(all.take(i as int + 1).drop_last() =~= all.take(i as int));
        assert(all.take(i as int + 1).last() == messages@[i as int]@);
        let ghost before = Seq::new(out@.len(), |j: int| out@[j]@);
        if is_kind(&messages[i], kind) {
            out.push(&messages[i]);
            assert(Seq::new(out@.len(), |j: int| out@[j]@) =~= before.push(messages@[i as int]@));
        }
        i += 1;
    }
    assert(all.take(all.len() as int) =~= all);
    out
}

/// The lines for messages of the user and the character that follow each other in turn.
pub open spec fn paired_lines(
    users: Seq<json::Tree>,
    characters: Seq<json::Tree>,
    user_name: Seq<char>,
    character_name: Seq<char>,
    table: Seq<TextNumber>,
) -> Seq<json::Tree>
    decreases users.len(),
{
    if users.len() == 0 {
        Seq::empty()
    } else {
        paired_lines(
            users.drop_last(),
            characters.drop_last(),
            user_name,
            character_name,
            table,
        ).push(user_line(users.last(), user_name, table)).push(
            character_line(characters.last(), character_name, table),
        )
    }
}

/// The lines for messages one by one.
pub open spec fn single_lines(
    messages: Seq<json::Tree>,
    user_name: Seq<char>,
    character_name: Seq<char>,
    table: Seq<TextNumber>,
) -> Seq<json::Tree>
    decreases messages.len(),
{
    if messages.len() == 0 {
        Seq::empty()
    } else {
        let m = messages.last();
        single_lines(messages.drop_last(), user_name, character_name, table).push(
            if m.text_at("type"@) == Some("human"@) {
                user_line(m, user_name, table)
            } else {
                character_line(m, character_name, table)
            },
        )
    }
}

/// The lines for the messages of a scenario: in turn where there are as many of the user as
/// of the character, and one by one otherwise.
pub open spec fn message_lines(
    messages: Seq<json::Tree>,
    user_name: Seq<char>,
    character_name: Seq<char>,
    table: Seq<TextNumber>,
) -> Seq<json::Tree> {
    let users = of_kind(messages, "human"@);
    let characters = of_kind(messages, "ai"@);
    if users.len() > 0 && users.len() == characters.len() {
        paired_lines(users, characters, user_name, character_name, table)
    } else {
        single_lines(messages, user_name, character_name, table)
    }
}

fn push_messages(
    chat: &mut Vec<Json>,
    messages: &Vec<Json>,
    user_name: &str,
    character_name: &str,
    table: &Vec<TextNumber>,
)
    ensures
        json::trees(final(chat)@) == json::trees(old(chat)@) + message_lines(
            json::trees(messages@),
            user_name@,
            character_name@,
            table@,
        ),
{
    let users = pick_kind(messages, "human");
    let characters = pick_kind(messages, "ai");
    let ghost start = json::trees(chat@);
    let mut i: usize = 0;
    if users.len() > 0 && users.len() == characters.len() {
        let ghost u = Seq::new(users@.len(), |j: int| users@[j]@);
        let ghost c = Seq::new(characters@.len(), |j: int| characters@[j]@);
        assert(start =~= start + paired_lines(
            u.take(0),
            c.take(0),
            user_name@,
            character_name@,
            table@,
        ));
        while i < users.len()
            invariant
                users@.len() == characters@.len(),
                u == Seq::new(users@.len(), |j: int| users@[j]@),
                c == Seq::new(characters@.len(), |j: int| characters@[j]@),
                i <= users@.len(),
                json::trees(chat@) == start + paired_lines(
                    u.take(i as int),
                    c.take(i as int),
                    user_name@,
                    character_name@,
                    table@,
                ),
            decreases users@.len() - i,
        {
            assert(u.take(i as int + 1).drop_last() =~= u.take(i as int));
            assert(c.take(i as int + 1).drop_last() =~= c.take(i as int));
            assert(u.take(i as int + 1).last() == users@[i as int]@);
            assert(c.take(i as int + 1).last() == characters@[i as int]@);
            let ghost before = json::trees(chat@);
            let a = make_user_line(users[i], user_name, table);
            let b = make_character_line(characters[i], character_name, table);
            chat.push(a);
            chat.push(b);
            assert(json::trees(chat@) =~= before.push(a@).push(b@));
            i += 1;
        }
        assert(u.take(u.len() as int) =~= u);
        assert(c.take(c.len() as int) =~= c);
    } else {
        let ghost all = json::trees(messages@);
        assert(start =~= start + single_lines(all.take(0), user_name@, character_name@, table@));
        while i < messages.len()
            invariant
                all == json::trees(messages@),
                i <= messages@.len(),
                json::trees(chat@) == start + single_lines(
                    all.take(i as int),
                    user_name@,
                    character_name@,
                    table@,
                ),
            decreases messages@.len() - i,
        {
            assert(all.take(i as int + 1).drop_last() =~= all.take(i as int));
            assert(all.take(i as int + 1).last() == messages@[i as int]@);
            let ghost before = json::trees(chat@);
            let line = if is_kind(&messages[i], "human") {
                make_user_line(&messages[i], user_name, table)
            } else {
                make_character_line(&messages[i], character_name, table)
            };
            chat.push(line);
            assert(json::trees(chat@) =~= before.push(line@));
            i += 1;
        }
        assert(all.take(all.len() as int) =~= all);
    }
}

/// The first date among messages from the `i`th on.
pub open spec fn date_from(messages: Seq<json::Tree>, i: int) -> json::Tree
    decreases messages.len() - i,
{
    if i < 0 || i >= messages.len() {
        json::Tree::Null
    } else {
        match messages[i].get("createdAt"@) {
            Some(d) => d,
            None => date_from(messages, i + 1),
        }
    }
}

/// When a chat began: where it has no messages yet, now.
pub open spec fn start_date(messages: Option<Seq<json::Tree>>, now: Seq<char>) -> json::Tree {
    match messages {
        Some(a) => if a.len() == 0 {
            json::txt(now)
        } else {
            date_from(a, 0)
        },
        None => json::Tree::Null,
    }
}

fn find_start_date(messages: Option<&Vec<Json>>, now: &str) -> (r: Json)
    ensures
        r@ == start_date(
            match messages {
                Some(v) => Some(json::trees(v@)),
                None => None,
            },
            now@,
        ),
{
    let list = match messages {
        Some(v) => v,
        None => return Json::Null,
    };
    if list.len() == 0 {
        return Json::text(now);
    }
    let ghost all = json::trees(list@);
    let mut i: usize = 0;
    while i < list.len()
        invariant
            all == json::trees(list@),
            list@.len() > 0,
            messages == Some(list),
            i <= list@.len(),
            date_from(all, 0) == date_from(all, i as int),
        decreases list@.len() - i,
    {
        assert(all[i as int] == list@[i as int]@);
        match list[i].get("createdAt") {
            Some(d) => return d.copy(),
            None => {},
        }
        i += 1;
    }
    Json::Null
}

/// The name of the first background from the `i`th on that was found at a path; empty where
/// there is none.
pub open spec fn background_at(
    backgrounds: Seq<byaf::BackgroundView>,
    path: Seq<char>,
    i: int,
) -> Seq<char>
    decreases backgrounds.len() - i,
{
    if i < 0 || i >= backgrounds.len() {
        Seq::empty()
    } else if backgrounds[i].paths.contains(path) {
        backgrounds[i].name
    } else {
        background_at(backgrounds, path, i + 1)
    }
}

fn find_background_name(backgrounds: &Vec<ByafChatBackground>, path: &str) -> (r: String)
    ensures
        r@ == background_at(byaf::backgrounds_view(backgrounds@), path@, 0),
{
    let ghost all = byaf::backgrounds_view(backgrounds@);
    let mut i: usize = 0;
    while i < backgrounds.len()
        invariant
            all == byaf::backgrounds_view(backgrounds@),
            i <= backgrounds@.len(),
            background_at(all, path@, 0) == background_at(all, path@, i as int),
        decreases backgrounds@.len() - i,
    {
        assert(all[i as int] == backgrounds@[i as int]@);
        if crate::naming::is_taken(path, &backgrounds[i].paths) {
            return backgrounds[i].name.clone();
        }
        i += 1;
    }
    String::new()
}

/// A number of a scenario as a fraction, or the default one.
pub open spec fn setting(
    scenario: json::Tree,
    key: Seq<char>,
    bits: u64,
    shown: Seq<char>,
    table: Seq<TextNumber>,
) -> json::Tree {
    let found = match scenario.get(key) {
        Some(t) => numbers::floated(t, table),
        None => None,
    };
    json::tree_or(found, json::Tree::Float(bits, shown))
}

fn read_setting(scenario: &Json, key: &str, bits: u64, shown: &str, table: &Vec<TextNumber>) -> (r:
    Json)
    ensures
        r@ == setting(scenario@, key@, bits, shown@, table@),
{
    match scenario.get(key) {
        Some(j) => match numbers::to_float(j, table) {
            Some(x) => x,
            None => Json::float(bits, shown),
        },
        None => Json::float(bits, shown),
    }
}

/// A flag of a value, or the default one.
pub open spec fn flag_or(t: json::Tree, key: Seq<char>, default: bool) -> bool {
    match t.flag_at(key) {
        Some(b) => b,
        None => default,
    }
}

fn bool_or(j: &Json, key: &str, default: bool) -> (r: bool)
    ensures
        r == flag_or(j@, key@, default),
{
    match j.bool_at(key) {
        Some(b) => b,
        None => default,
    }
}

/// The settings of the model that a scenario was played with.
pub open spec fn model_settings(s: json::Tree, table: Seq<TextNumber>) -> json::Tree {
    json::Tree::Object(
        json::members()
            .push(("model"@, json::txt(s.text_or("model"@, ""@))))
            .push((
                "temperature"@,
                setting(s, "temperature"@, 0x3FF3333333333333, "1.2"@, table),
            ))
            .push(("top_k"@, setting(s, "topK"@, 0x4044000000000000, "40.0"@, table)))
            .push(("top_p"@, setting(s, "topP"@, 0x3FECCCCCCCCCCCCD, "0.9"@, table)))
            .push(("min_p"@, setting(s, "minP"@, 0x3FB999999999999A, "0.1"@, table)))
            .push(("min_p_enabled"@, json::Tree::Bool(flag_or(s, "minPEnabled"@, true))))
            .push((
                "repeat_penalty"@,
                setting(s, "repeatPenalty"@, 0x3FF0CCCCCCCCCCCD, "1.05"@, table),
            ))
            .push((
                "repeat_penalty_tokens"@,
                setting(s, "repeatLastN"@, 0x4070000000000000, "256.0"@, table),
            ))
            .push(("by_prompt_template"@, json::txt(s.text_or("promptTemplate"@, "general"@))))
            .push(("grammar"@, json::tree_or(s.get("grammar"@), json::Tree::Null))),
    )
}

fn make_model_settings(s: &Json, table: &Vec<TextNumber>) -> (r: Json)
    ensures
        r@ == model_settings(s@, table@),
{
    Fields::new()
        .with("model", Json::text(s.str_or("model", "")))
        .with("temperature", read_setting(s, "temperature", 0x3FF3333333333333, "1.2", table))
        .with("top_k", read_setting(s, "topK", 0x4044000000000000, "40.0", table))
        .with("top_p", read_setting(s, "topP", 0x3FECCCCCCCCCCCCD, "0.9", table))
        .with("min_p", read_setting(s, "minP", 0x3FB999999999999A, "0.1", table))
        .with("min_p_enabled", Json::Bool(bool_or(s, "minPEnabled", true)))
        .with(
            "repeat_penalty",
            read_setting(s, "repeatPenalty", 0x3FF0CCCCCCCCCCCD, "1.05", table),
        )
        .with(
            "repeat_penalty_tokens",
            read_setting(s, "repeatLastN", 0x4070000000000000, "256.0", table),
        )
        .with("by_prompt_template", Json::text(s.str_or("promptTemplate", "general")))
        .with("grammar", s.get_or("grammar", Json::Null))
        .done()
}

/// The text under `key` with its placeholders replaced; empty where there is none.
pub open spec fn filled_text(s: json::Tree, key: Seq<char>) -> Seq<char> {
    match s.text_at(key) {
        Some(t) => macros::with_macros(t),
        None => Seq::empty(),
    }
}

fn fill_text(s: &Json, key: &str) -> (r: String)
    ensures
        r@ == filled_text(s@, key@),
{
    match s.str_at(key) {
        Some(t) => macros::replace_macros(t),
        None => String::new(),
    }
}

/// What is known of the chat of a scenario, with its background.
pub open spec fn chat_metadata(s: json::Tree, background: Seq<char>, table: Seq<TextNumber>) -> Seq<
    (Seq<char>, json::Tree),
> {
    let known = json::members()
        .push(("scenario"@, json::txt(filled_text(s, "narrative"@))))
        .push(("mes_example"@, json::txt(byaf::example_messages(s.items_at("exampleMessages"@)))))
        .push(("system_prompt"@, json::txt(filled_text(s, "formattingInstructions"@))))
        .push((
            "mes_examples_optional"@,
            json::Tree::Bool(flag_or(s, "canDeleteExampleMessages"@, false)),
        ))
        .push(("byaf_model_settings"@, model_settings(s, table)));
    if background.len() > 0 {
        known
            .push(("chat_backgrounds"@, json::Tree::Array(json::items().push(json::txt(background)))))
            .push((
                "custom_background"@,
                json::txt(
                    "url(\""@ + byaf::uri_bytes(vstd::utf8::encode_utf8(background)) + "\")"@,
                ),
            ))
    } else {
        known
            .push(("chat_backgrounds"@, json::Tree::Array(Seq::empty())))
            .push(("custom_background"@, json::txt(Seq::empty())))
    }
}

fn make_chat_metadata(s: &Json, background: &str, table: &Vec<TextNumber>) -> (r: Fields)
    ensures
        r@ == chat_metadata(s@, background@, table@),
{
    let known = Fields::new()
        .with("scenario", Json::Text(fill_text(s, "narrative")))
        .with("mes_example", Json::Text(byaf::format_example_messages(s.array_at("exampleMessages"))))
        .with("system_prompt", Json::Text(fill_text(s, "formattingInstructions")))
        .with("mes_examples_optional", Json::Bool(bool_or(s, "canDeleteExampleMessages", false)))
        .with("byaf_model_settings", make_model_settings(s, table));
    if !background.is_empty() {
        let shown = text::join3("url(\"", &byaf::encode_uri(background), "\")");
        known
            .with("chat_backgrounds", Json::one_item(Json::text(background)))
            .with("custom_background", Json::Text(shown))
    } else {
        known
            .with("chat_backgrounds", Json::no_items())
            .with("custom_background", Json::Text(String::new()))
    }
}

/// The first line of the chat of a scenario.
pub open spec fn header_line(s: json::Tree, background: Seq<char>, table: Seq<TextNumber>) ->
    json::Tree {
    json::Tree::Object(
        json::members()
            .push(("user_name"@, json::txt("unused"@)))
            .push(("character_name"@, json::txt("unused"@)))
            .push(("chat_metadata"@, json::Tree::Object(chat_metadata(s, background, table)))),
    )
}

/// The line for the greeting of a scenario, where there is one.
pub open spec fn greeting_lines(s: json::Tree, character_name: Seq<char>, date: json::Tree) -> Seq<
    json::Tree,
> {
    match byaf::first_message(s) {
        Some(first) => if first.len() > 0 {
            json::items().push(
                json::Tree::Object(
                    json::members()
                        .push(("name"@, json::txt(character_name)))
                        .push(("is_user"@, json::Tree::Bool(false)))
                        .push(("send_date"@, date))
                        .push(("mes"@, json::txt(first))),
                ),
            )
        } else {
            Seq::empty()
        },
        None => Seq::empty(),
    }
}

/// The lines of the chat of a scenario.
pub open spec fn scenario_chat(
    s: json::Tree,
    user_name: Seq<char>,
    character_name: Seq<char>,
    backgrounds: Seq<byaf::BackgroundView>,
    now: Seq<char>,
    table: Seq<TextNumber>,
) -> Seq<json::Tree> {
    let background = background_at(backgrounds, s.text_or("backgroundImage"@, ""@), 0);
    let messages = s.items_at("messages"@);
    let head = json::items().push(header_line(s, background, table)) + greeting_lines(
        s,
        character_name,
        start_date(messages, now),
    );
    match messages {
        Some(a) => head + message_lines(a, user_name, character_name, table),
        None => head,
    }
}

/// The lines of the chat of a scenario, in the order of the file. The table holds the texts
/// in it that stand for numbers.
pub fn get_chat_from_scenario(
    scenario: &Json,
    user_name: &str,
    character_name: &str,
    chat_backgrounds: &Vec<ByafChatBackground>,
    now: &str,
    table: &Vec<TextNumber>,
) -> (r: Vec<Json>)
    ensures
        json::trees(r@) == scenario_chat(
            scenario@,
            user_name@,
            character_name@,
            byaf::backgrounds_view(chat_backgrounds@),
            now@,
            table@,
        ),
{
    let messages = scenario.array_at("messages");
    let date = find_start_date(messages, now);
    let background = find_background_name(
        chat_backgrounds,
        scenario.str_or("backgroundImage", ""),
    );
    let header = Fields::new()
        .with("user_name", Json::text("unused"))
        .with("character_name", Json::text("unused"))
        .with("chat_metadata", make_chat_metadata(scenario, &background, table).done())
        .done();
    let mut chat: Vec<Json> = Vec::new();
    chat.push(header);
    assert(json::trees(chat@) =~= json::items().push(header@) + Seq::empty());
    match byaf::get_first_message_text(scenario) {
        Some(first) => if !first.as_str().is_empty() {
            let line = Fields::new()
                .with("name", Json::text(character_name))
                .with("is_user", Json::Bool(false))
                .with("send_date", date)
                .with("mes", Json::Text(first))
                .done();
            chat.push(line);
            assert(json::trees(chat@) =~= json::items().push(header@) + json::items().push(line@));
        },
        None => {},
    }
    match messages {
        Some(list) => push_messages(&mut chat, list, user_name, character_name, table),
        None => {},
    }
    chat
}

} // verus!
