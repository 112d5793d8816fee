//! What holds of chats that are imported from other programs: who speaks in them, and in which
//! order.

use crate::chat_import;
use crate::chat_import::Speakers;
use crate::json;
use crate::json::Tree;
use crate::outside;
use crate::text;
use vstd::prelude::*;

verus! {

/// Whether a line of a chat is one that the user or the character says, under a name, with a
/// text and a date.
pub open spec fn says(
    line: Tree,
    by_user: bool,
    name: Seq<char>,
    mes: Seq<char>,
    date: Seq<char>,
) -> bool {
    &&& line.flag_at("is_user"@) == Some(by_user)
    &&& line.text_at("name"@) == Some(name)
    &&& line.text_at("mes"@) == Some(mes)
    &&& line.text_at("send_date"@) == Some(date)
}

/// Whether a line of a chat is its header: it names nobody and says nothing.
pub open spec fn heads(line: Tree) -> bool {
    &&& line.text_at("user_name"@) == Some("unused"@)
    &&& line.text_at("character_name"@) == Some("unused"@)
    &&& line.get("chat_metadata"@) == Some(Tree::Object(Seq::empty()))
    &&& line.get("mes"@) is None
}

/// Whether a value is a text that is not empty.
pub open spec fn filled(t: Tree) -> bool {
    t is Text && t->Text_0.len() > 0
}

proof fn header_heads()
    ensures
        heads(chat_import::header()),
{
    reveal_strlit("character_name");
    reveal_strlit("chat_metadata");
    reveal_strlit("mes");
    reveal_strlit("user_name");
    assert("character_name"@.len() == 14);
    assert("chat_metadata"@.len() == 13);
    assert("mes"@.len() == 3);
    assert("user_name"@.len() == 9);
    reveal_with_fuel(json::position, 5);
}

proof fn line_says(name: Seq<char>, by_user: bool, date: Seq<char>, mes: Seq<char>)
    ensures
        says(chat_import::line(name, by_user, date, mes), by_user, name, mes, date),
{
    reveal_strlit("extra");
    reveal_strlit("is_user");
    reveal_strlit("mes");
    reveal_strlit("name");
    reveal_strlit("send_date");
    assert("extra"@.len() == 5);
    assert("is_user"@.len() == 7);
    assert("mes"@.len() == 3);
    assert("name"@.len() == 4);
    assert("send_date"@.len() == 9);
    reveal_with_fuel(json::position, 6);
}

/// Every history of Character.AI becomes a chat with a header and a line for each message, in
/// their order: a message whose source is human is said by the user under the user's name, any
/// other by the character under the character's, and each keeps its text.
pub proof fn cai_chats_keep_who_speaks(data: Tree, s: Speakers, h: int, i: int)
    requires
        data.get("histories"@) is Some,
        data.get("histories"@)->0.items_at("histories"@) is Some,
        0 <= h < data.get("histories"@)->0.items_at("histories"@)->0.len(),
    ensures
        chat_import::cai_chats(data, s@) is Some,
        chat_import::cai_chats(data, s@)->0.len() == data.get("histories"@)->0.items_at(
            "histories"@,
        )->0.len(),
        ({
            let history = data.get("histories"@)->0.items_at("histories"@)->0[h];
            let chat = chat_import::cai_chats(data, s@)->0[h];
            &&& chat.len() > 0 && heads(chat[0])
            &&& history.items_at("msgs"@) is None ==> chat.len() == 1
            &&& history.items_at("msgs"@) matches Some(msgs) ==> {
                &&& chat.len() == msgs.len() + 1
                &&& 0 <= i < msgs.len() ==> {
                    let human = msgs[i].get("src"@) is Some && msgs[i].get("src"@)->0.get(
                        "is_human"@,
                    ) == Some(Tree::Bool(true));
                    says(
                        chat[i + 1],
                        human,
                        if human {
                            s.user@
                        } else {
                            s.character@
                        },
                        msgs[i].text_or("text"@, ""@),
                        s.now@,
                    )
                }
            }
        }),
{
    let history = data.get("histories"@)->0.items_at("histories"@)->0[h];
    header_heads();
    match history.items_at("msgs"@) {
        Some(msgs) => {
            if 0 <= i < msgs.len() {
                let human = chat_import::from_human(msgs[i]);
                line_says(s@.name(human), human, s.now@, msgs[i].text_or("text"@, ""@));
            }
        },
        None => {},
    }
}

/// A chat of Agnaistic becomes a header and a line for each message, in their order: one with the
/// identifier of a user is said by the user, any other by the character.
pub proof fn agnai_chat_keeps_who_speaks(data: Tree, s: Speakers, i: int)
    requires
        data.items_at("messages"@) is Some,
    ensures
        ({
            let messages = data.items_at("messages"@)->0;
            &&& chat_import::agnai_chat(data, s@) is Some
            &&& chat_import::agnai_chat(data, s@)->0.len() == messages.len() + 1
            &&& heads(chat_import::agnai_chat(data, s@)->0[0])
            &&& 0 <= i < messages.len() ==> {
                let by_user = messages[i].get("userId"@) is Some;
                says(
                    chat_import::agnai_chat(data, s@)->0[i + 1],
                    by_user,
                    if by_user {
                        s.user@
                    } else {
                        s.character@
                    },
                    messages[i].text_or("msg"@, ""@),
                    s.now@,
                )
            }
        }),
{
    let messages = data.items_at("messages"@)->0;
    header_heads();
    if 0 <= i < messages.len() {
        let by_user = messages[i].get("userId"@) is Some;
        line_says(s@.name(by_user), by_user, s.now@, messages[i].text_or("msg"@, ""@));
    }
}

/// A chat of RisuAI becomes a header and a line for each message, in their order: one of the role
/// of the user is said by the user, any other by the character, under the name that the message
/// gives or else the speaker's.
pub proof fn risu_chat_keeps_who_speaks(data: Tree, s: Speakers, now_millis: i64, i: int)
    requires
        data.get("data"@) is Some,
        data.get("data"@)->0.items_at("message"@) is Some,
    ensures
        ({
            let messages = data.get("data"@)->0.items_at("message"@)->0;
            &&& chat_import::risu_chat(data, s@, now_millis) is Some
            &&& chat_import::risu_chat(data, s@, now_millis)->0.len() == messages.len() + 1
            &&& heads(chat_import::risu_chat(data, s@, now_millis)->0[0])
            &&& 0 <= i < messages.len() ==> {
                let m = messages[i];
                let by_user = m.text_at("role"@) == Some("user"@);
                let time = match m.get("time"@) {
                    Some(Tree::Number(json::Number::Pos(n))) => n as i64,
                    _ => now_millis,
                };
                says(
                    chat_import::risu_chat(data, s@, now_millis)->0[i + 1],
                    by_user,
                    match m.text_at("name"@) {
                        Some(n) => n,
                        None => if by_user {
                            s.user@
                        } else {
                            s.character@
                        },
                    },
                    m.text_or("data"@, ""@),
                    match outside::millis_text(time) {
                        Some(d) => d,
                        None => s.now@,
                    },
                )
            }
        }),
{
    let messages = data.get("data"@)->0.items_at("message"@)->0;
    header_heads();
    reveal_strlit("user");
    reveal_strlit("");
    assert("user"@.len() == 4 && ""@.len() == 0);
    if 0 <= i < messages.len() {
        let m = messages[i];
        let by_user = m.text_or("role"@, ""@) == "user"@;
        let date = outside::millis_text(chat_import::risu_time(m, now_millis));
        line_says(
            m.text_or("name"@, s@.name(by_user)),
            by_user,
            crate::secrets::text_or(date, s.now@),
            m.text_or("data"@, ""@),
        );
    }
}

/// One more exchange in a chat of Text Generation WebUI leaves the lines before it as they are
/// and adds what the user said and behind it what the character answered; what is empty or no
/// text is left out.
pub proof fn ooba_exchange_is_added(
    before: Tree,
    after: Tree,
    earlier: Seq<Tree>,
    said: Tree,
    answered: Tree,
    s: Speakers,
)
    requires
        before.items_at("data_visible"@) == Some(earlier),
        after.items_at("data_visible"@) == Some(earlier.push(Tree::Array(seq![said, answered]))),
        chat_import::ooba_chat(before, s@) is Some,
    ensures
        chat_import::ooba_chat(after, s@) is Some,
        ({
            let old_lines = chat_import::ooba_chat(before, s@)->0;
            let lines = chat_import::ooba_chat(after, s@)->0;
            let n = old_lines.len() as int;
            let m = n + if filled(said) {
                1int
            } else {
                0int
            };
            &&& n > 0 && heads(lines[0]) && lines.take(n) == old_lines
            &&& filled(said) ==> says(
                lines[n],
                true,
                s.user@,
                said->Text_0,
                s.now@,
            )
            &&& filled(answered) ==> lines.len() == m + 1 && says(
                lines[m],
                false,
                s.character@,
                answered->Text_0,
                s.now@,
            )
            &&& !filled(answered) ==> lines.len() == m
        }),
{
    let pair = seq![said, answered];
    let all = earlier.push(Tree::Array(pair));
    assert(all.drop_last() =~= earlier);
    header_heads();
    match said {
        Tree::Text(t) => line_says(s.user@, true, s.now@, t),
        _ => {},
    }
    match answered {
        Tree::Text(t) => line_says(s.character@, false, s.now@, t),
        _ => {},
    }
    let head = json::items().push(chat_import::header());
    let rest = chat_import::exchange_lines(earlier, s@)->0;
    let a = chat_import::exchange_line(pair, 0, true, s@);
    let b = chat_import::exchange_line(pair, 1, false, s@);
    assert(chat_import::ooba_chat(after, s@)->0 =~= head + rest + a + b);
    assert((head + rest + a + b).take((head + rest).len() as int) =~= head + rest);
}

/// A chat of Text Generation WebUI without exchanges is its header alone, and one in which an
/// exchange is no list is no chat.
pub proof fn ooba_chat_begins(data: Tree, pairs: Seq<Tree>, s: Speakers, i: int)
    requires
        data.items_at("data_visible"@) == Some(pairs),
    ensures
        pairs.len() == 0 ==> (chat_import::ooba_chat(data, s@) matches Some(v) && v.len() == 1
            && heads(v[0])),
        0 <= i < pairs.len() && !(pairs[i] is Array) ==> chat_import::ooba_chat(data, s@) is None,
{
    header_heads();
    if 0 <= i < pairs.len() && !(pairs[i] is Array) {
        chat_import::failed_exchange(pairs, s@, i);
    }
}

proof fn mark_is_removed(mark: Seq<char>, t: Seq<char>)
    requires
        mark.len() > 0,
        !t.contains(mark[0]),
    ensures
        text::replaced(mark + t, mark, ""@) == t,
{
    reveal_strlit("");
    let s = mark + t;
    let n = mark.len() as int;
    assert(s.subrange(0, n) =~= mark);
    nothing_behind(s, mark, n);
    assert(s.skip(n) =~= t);
    assert(""@ + t =~= t);
}

proof fn nothing_behind(s: Seq<char>, mark: Seq<char>, from: int)
    requires
        0 <= from <= s.len(),
        mark.len() > 0,
        !s.skip(from).contains(mark[0]),
    ensures
        text::replaced_from(s, mark, ""@, from) == s.skip(from),
    decreases s.len() - from,
{
    if from < s.len() {
        assert(s.skip(from)[0] == s[from]);
        if text::has_at(s, mark, from) {
            assert(s.subrange(from, from + mark.len())[0] == s[from]);
            assert(s.skip(from).contains(s[from]));
        }
        let rest = s.skip(from + 1);
        assert forall|k: int| 0 <= k < rest.len() implies rest[k] != mark[0] by {
            assert(s.skip(from)[k + 1] == s[from + 1 + k]);
            assert(s.skip(from).contains(s[from + 1 + k]));
        }
        nothing_behind(s, mark, from + 1);
        assert(seq![s[from]] + s.skip(from + 1) =~= s.skip(from));
    }
}

proof fn marks_are_seen(t: Seq<char>)
    requires
        !t.contains('{'),
    ensures
        text::occurs("{{[INPUT]}}"@ + t, "{{[INPUT]}}"@),
        !text::occurs("{{[OUTPUT]}}"@ + t, "{{[INPUT]}}"@),
        chat_import::unmarked("{{[INPUT]}}"@ + t) == text::trimmed(t),
        chat_import::unmarked("{{[OUTPUT]}}"@ + t) == text::trimmed(t),
{
    reveal_strlit("{{[INPUT]}}");
    reveal_strlit("{{[OUTPUT]}}");
    reveal_strlit("");
    let a = "{{[INPUT]}}"@;
    let b = "{{[OUTPUT]}}"@;
    assert(a.len() == 11 && b.len() == 12 && a[0] == '{' && b[0] == '{' && a[3] == 'I' && b[3]
        == 'O' && a[1] == '{' && a[2] == '[' && b[1] == '{' && b[2] == '[');
    mark_is_removed(a, t);
    mark_is_removed(b, t);
    text::replacing_nothing(t, b, ""@, 0);
    assert(t.skip(0) =~= t);
    assert((a + t).subrange(0, 11) =~= a);
    text::first_from_is_first(a + t, a, 0);
    assert(text::has_at(a + t, a, 0));
    let s = b + t;
    assert forall|i: int| 0 <= i implies !#[trigger] text::has_at(s, a, i) by {
        if text::has_at(s, a, i) {
            let w = s.subrange(i, i + 11);
            assert(w[0] == s[i] && w[1] == s[i + 1] && w[3] == s[i + 3]);
            if i >= 12 {
                assert(t.contains(s[i]));
            } else if i == 0 {
                assert(s[3] == 'O');
            } else if i == 1 {
                assert(s[2] == '[');
            } else {
                assert(b[2] == '[' && b[3] == 'O' && b[4] == 'U' && b[5] == 'T' && b[6] == 'P'
                    && b[7]
                    == 'U' && b[8] == 'T' && b[9] == ']' && b[10] == '}' && b[11] == '}');
            }
        }
    }
    text::first_from_is_first(s, a, 0);
    assert(text::replaced(s, a, ""@) == s) by {
        unmarked_stays(s, a, 0);
        assert(s.skip(0) =~= s);
    }
}

proof fn unmarked_stays(s: Seq<char>, mark: Seq<char>, from: int)
    requires
        0 <= from <= s.len(),
        mark.len() > 0,
        forall|i: int| 0 <= i ==> !#[trigger] text::has_at(s, mark, i),
    ensures
        text::replaced_from(s, mark, ""@, from) == s.skip(from),
    decreases s.len() - from,
{
    if from < s.len() {
        assert(!text::has_at(s, mark, from));
        unmarked_stays(s, mark, from + 1);
        assert(seq![s[from]] + s.skip(from + 1) =~= s.skip(from));
    }
}

/// One more text among the actions of a save of KoboldAI Lite leaves the lines before it as they
/// are and adds one: with the mark of input it is said by the user whom the save names, with the
/// mark of output by the opponent, without the mark and the white space around it.
pub proof fn kobold_action_is_added(
    before: Tree,
    after: Tree,
    saved: Tree,
    earlier: Seq<Tree>,
    t: Seq<char>,
    input: bool,
    now: Seq<char>,
)
    requires
        before.get("savedsettings"@) == Some(saved),
        after.get("savedsettings"@) == Some(saved),
        saved.text_at("chatname"@) is Some,
        saved.text_at("chatopponent"@) is Some,
        !text::occurs(saved.text_at("chatopponent"@)->0, "||$||"@),
        before.get("prompt"@) == after.get("prompt"@),
        before.items_at("actions"@) == Some(earlier),
        after.items_at("actions"@) == Some(
            earlier.push(
                Tree::Text(
                    if input {
                        "{{[INPUT]}}"@ + t
                    } else {
                        "{{[OUTPUT]}}"@ + t
                    },
                ),
            ),
        ),
        !t.contains('{'),
    ensures
        ({
            let old_lines = chat_import::kobold_chat(before, now);
            let lines = chat_import::kobold_chat(after, now);
            &&& old_lines is Some && lines is Some
            &&& heads(lines->0[0])
            &&& lines->0.drop_last() == old_lines->0
            &&& says(
                lines->0.last(),
                input,
                if input {
                    saved.text_at("chatname"@)->0
                } else {
                    saved.text_at("chatopponent"@)->0
                },
                text::trimmed(t),
                now,
            )
        }),
{
    let msg = if input {
        "{{[INPUT]}}"@ + t
    } else {
        "{{[OUTPUT]}}"@ + t
    };
    let all = earlier.push(Tree::Text(msg));
    assert(all.drop_last() =~= earlier);
    marks_are_seen(t);
    header_heads();
    let s = chat_import::kobold_speakers(before, now)->0;
    text::first_from_is_first(saved.text_at("chatopponent"@)->0, "||$||"@, 0);
    kobold_line_reads(msg, s);
    let old_lines = chat_import::kobold_chat(before, now)->0;
    assert(chat_import::kobold_chat(after, now)->0 =~= old_lines.push(
        chat_import::kobold_line(msg, s),
    ));
    assert(old_lines.push(chat_import::kobold_line(msg, s)).drop_last() =~= old_lines);
}

proof fn kobold_line_reads(msg: Seq<char>, s: chat_import::SpeakersView)
    ensures
        says(
            chat_import::kobold_line(msg, s),
            text::occurs(msg, "{{[INPUT]}}"@),
            s.name(text::occurs(msg, "{{[INPUT]}}"@)),
            chat_import::unmarked(msg),
            s.now,
        ),
{
    reveal_strlit("extra");
    reveal_strlit("is_user");
    reveal_strlit("mes");
    reveal_strlit("name");
    reveal_strlit("send_date");
    assert("extra"@.len() == 5);
    assert("is_user"@.len() == 7);
    assert("mes"@.len() == 3);
    assert("name"@.len() == 4);
    assert("send_date"@.len() == 9);
    reveal_with_fuel(json::position, 6);
}

} // verus!
