//! What holds of the card and the chats that a BYAF archive is imported as.

use crate::characters::byaf;
use crate::characters::byaf_chat;
use crate::characters::macros;
use crate::json;
use crate::json::Tree;
use crate::numbers::TextNumber;
use crate::text;
use vstd::prelude::*;

verus! {

/// Whether a line of a chat is one that the user or the character says, under a name and with a
/// text.
pub open spec fn says(line: Tree, by_user: bool, name: Seq<char>, mes: Seq<char>) -> bool {
    &&& line.flag_at("is_user"@) == Some(by_user)
    &&& line.text_at("name"@) == Some(name)
    &&& line.text_at("mes"@) == Some(mes)
}

/// Whether a text is that of one of the newest outputs of a message: none is later. It is empty
/// where the message has no outputs or the newest no text.
pub open spec fn newest_text(message: Tree, t: Seq<char>) -> bool {
    match message.items_at("outputs"@) {
        Some(outputs) => if outputs.len() == 0 {
            t.len() == 0
        } else {
            exists|k: int|
                0 <= k < outputs.len() && t == (#[trigger] outputs[k]).text_or("text"@, ""@)
                    && forall|j: int|
                    0 <= j < outputs.len() ==> output_time(#[trigger] outputs[j]) <= output_time(
                        outputs[k],
                    )
        },
        None => t.len() == 0,
    }
}

/// When an output was made; zero where that is not known.
pub open spec fn output_time(output: Tree) -> int {
    match byaf_chat::stamp_of(output.get("activeTimestamp"@)) {
        Some(n) => n as int,
        None => 0,
    }
}

/// Whether a line of a chat is the one for a message: what the user says has the text of the
/// message, and what the character says that of its newest output and all outputs as versions,
/// of which it names the one that is shown.
pub open spec fn is_line_of(
    line: Tree,
    message: Tree,
    human: bool,
    user_name: Seq<char>,
    character_name: Seq<char>,
) -> bool {
    if human {
        says(line, true, user_name, message.text_or("text"@, ""@))
    } else {
        &&& line.text_at("mes"@) is Some
        &&& says(line, false, character_name, line.text_at("mes"@)->0)
        &&& newest_text(message, line.text_at("mes"@)->0)
        &&& line.items_at("swipes"@) == Some(json::text_items(byaf_chat::swipes_of(message)))
    }
}

proof fn line_keys_differ()
    ensures
        "is_user"@.len() == 7,
        "mes"@.len() == 3,
        "name"@.len() == 4,
        "send_date"@.len() == 9,
        "swipe_id"@.len() == 8,
        "swipes"@.len() == 6,
{
    reveal_strlit("is_user");
    reveal_strlit("mes");
    reveal_strlit("name");
    reveal_strlit("send_date");
    reveal_strlit("swipe_id");
    reveal_strlit("swipes");
}

proof fn user_line_says(
    message: Tree,
    user_name: Seq<char>,
    character_name: Seq<char>,
    table: Seq<TextNumber>,
)
    ensures
        is_line_of(
            byaf_chat::user_line(message, user_name, table),
            message,
            true,
            user_name,
            character_name,
        ),
{
    line_keys_differ();
    reveal_with_fuel(json::position, 5);
}

proof fn character_line_says(
    message: Tree,
    user_name: Seq<char>,
    character_name: Seq<char>,
    table: Seq<TextNumber>,
)
    ensures
        is_line_of(
            byaf_chat::character_line(message, character_name, table),
            message,
            false,
            user_name,
            character_name,
        ),
{
    line_keys_differ();
    reveal_with_fuel(json::position, 7);
    reveal_strlit("");
    let line = byaf_chat::character_line(message, character_name, table);
    let shown = byaf::text_in(byaf_chat::newest_output(message), "text"@);
    assert(line.text_at("mes"@) == Some(shown));
    match message.items_at("outputs"@) {
        Some(outputs) => if outputs.len() > 0 {
            let stamps = byaf_chat::output_stamps(outputs);
            byaf_chat::newest_is_latest(stamps);
            let k = byaf_chat::newest_of(stamps);
            assert forall|j: int| 0 <= j < outputs.len() implies output_time(#[trigger] outputs[j])
                <= output_time(outputs[k]) by {
                assert(byaf_chat::stamp_or_zero(stamps[j]) <= byaf_chat::stamp_or_zero(stamps[k]));
            }
            assert(shown == outputs[k].text_or("text"@, ""@));
        },
        None => {},
    }
}

/// The number of lines before the messages: the header and the greeting, where there is one.
pub open spec fn lines_before(scenario: Tree) -> int {
    match scenario.items_at("firstMessages"@) {
        Some(v) => if v.len() > 0 && v[0].text_at("text"@) is Some && v[0].text_at(
            "text"@,
        )->0.len() > 0 {
            2
        } else {
            1
        },
        None => 1,
    }
}

proof fn of_alternating(messages: Seq<Tree>)
    requires
        messages.len() % 2 == 0,
        forall|i: int|
            0 <= i < messages.len() ==> (#[trigger] messages[i]).text_at("type"@) == Some(
                if i % 2 == 0 {
                    "human"@
                } else {
                    "ai"@
                },
            ),
    ensures
        ({
            let users = byaf_chat::of_kind(messages, "human"@);
            let characters = byaf_chat::of_kind(messages, "ai"@);
            &&& users.len() == messages.len() / 2
            &&& characters.len() == messages.len() / 2
            &&& forall|j: int| 0 <= j < users.len() ==> #[trigger] users[j] == messages[2 * j]
            &&& forall|j: int|
                0 <= j < characters.len() ==> #[trigger] characters[j] == messages[2 * j + 1]
        }),
    decreases messages.len(),
{
    reveal_strlit("human");
    reveal_strlit("ai");
    assert("human"@.len() == 5 && "ai"@.len() == 2);
    if messages.len() > 0 {
        let n = messages.len() as int;
        let one = messages.drop_last();
        let two = one.drop_last();
        assert(messages[n - 1].text_at("type"@) == Some("ai"@));
        assert(messages[n - 2].text_at("type"@) == Some("human"@));
        assert(one.last() == messages[n - 2]);
        assert forall|i: int| 0 <= i < two.len() implies (#[trigger] two[i]).text_at("type"@)
            == Some(
            if i % 2 == 0 {
                "human"@
            } else {
                "ai"@
            },
        ) by {
            assert(two[i] == messages[i]);
        }
        of_alternating(two);
        let users = byaf_chat::of_kind(two, "human"@);
        let characters = byaf_chat::of_kind(two, "ai"@);
        assert(byaf_chat::of_kind(one, "human"@) == users.push(messages[n - 2]));
        assert(byaf_chat::of_kind(one, "ai"@) == characters);
        assert(byaf_chat::of_kind(messages, "human"@) == users.push(messages[n - 2]));
        assert(byaf_chat::of_kind(messages, "ai"@) == characters.push(messages[n - 1]));
        assert forall|j: int| 0 <= j < users.push(messages[n - 2]).len() implies
            #[trigger] users.push(messages[n - 2])[j] == messages[2 * j] by {
            if j < users.len() {
                assert(users[j] == two[2 * j]);
            }
        }
        assert forall|j: int| 0 <= j < characters.push(messages[n - 1]).len() implies
            #[trigger] characters.push(messages[n - 1])[j] == messages[2 * j + 1] by {
            if j < characters.len() {
                assert(characters[j] == two[2 * j + 1]);
            }
        }
    }
}

proof fn paired_lines_say(
    users: Seq<Tree>,
    characters: Seq<Tree>,
    user_name: Seq<char>,
    character_name: Seq<char>,
    table: Seq<TextNumber>,
)
    requires
        users.len() == characters.len(),
    ensures
        ({
            let v = byaf_chat::paired_lines(users, characters, user_name, character_name, table);
            &&& v.len() == 2 * users.len()
            &&& forall|j: int|
                0 <= j < users.len() ==> is_line_of(
                    #[trigger] v[2 * j],
                    users[j],
                    true,
                    user_name,
                    character_name,
                )
            &&& forall|j: int|
                0 <= j < users.len() ==> is_line_of(
                    #[trigger] v[2 * j + 1],
                    characters[j],
                    false,
                    user_name,
                    character_name,
                )
        }),
    decreases users.len(),
{
    if users.len() > 0 {
        let n = users.len() as int;
        let a = users.drop_last();
        let b = characters.drop_last();
        paired_lines_say(a, b, user_name, character_name, table);
        user_line_says(users.last(), user_name, character_name, table);
        character_line_says(characters.last(), user_name, character_name, table);
        let w = byaf_chat::paired_lines(a, b, user_name, character_name, table);
        let v = byaf_chat::paired_lines(users, characters, user_name, character_name, table);
        assert forall|j: int| 0 <= j < users.len() implies is_line_of(
            #[trigger] v[2 * j],
            users[j],
            true,
            user_name,
            character_name,
        ) by {
            if j < n - 1 {
                assert(v[2 * j] == w[2 * j]);
                assert(a[j] == users[j]);
            }
        }
        assert forall|j: int| 0 <= j < users.len() implies is_line_of(
            #[trigger] v[2 * j + 1],
            characters[j],
            false,
            user_name,
            character_name,
        ) by {
            if j < n - 1 {
                assert(v[2 * j + 1] == w[2 * j + 1]);
                assert(b[j] == characters[j]);
            }
        }
    }
}

proof fn single_lines_say(
    messages: Seq<Tree>,
    user_name: Seq<char>,
    character_name: Seq<char>,
    table: Seq<TextNumber>,
    i: int,
)
    requires
        0 <= i < messages.len(),
    ensures
        byaf_chat::single_lines(messages, user_name, character_name, table).len()
            == messages.len(),
        is_line_of(
            byaf_chat::single_lines(messages, user_name, character_name, table)[i],
            messages[i],
            messages[i].text_at("type"@) == Some("human"@),
            user_name,
            character_name,
        ),
    decreases messages.len(),
{
    let d = messages.drop_last();
    let v = byaf_chat::single_lines(messages, user_name, character_name, table);
    if messages.len() > 1 {
        single_lines_say(
            d,
            user_name,
            character_name,
            table,
            if i < d.len() {
                i
            } else {
                0
            },
        );
    } else {
        assert(byaf_chat::single_lines(d, user_name, character_name, table).len() == 0);
    }
    if i < d.len() {
        assert(v[i] == byaf_chat::single_lines(d, user_name, character_name, table)[i]);
        assert(d[i] == messages[i]);
    } else {
        user_line_says(messages[i], user_name, character_name, table);
        character_line_says(messages[i], user_name, character_name, table);
    }
}

proof fn chat_is_headed(
    s: Tree,
    user_name: Seq<char>,
    character_name: Seq<char>,
    backgrounds: Seq<byaf::BackgroundView>,
    now: Seq<char>,
    table: Seq<TextNumber>,
    messages: Seq<Tree>,
)
    requires
        s.items_at("messages"@) == Some(messages),
    ensures
        ({
            let chat = byaf_chat::scenario_chat(
                s,
                user_name,
                character_name,
                backgrounds,
                now,
                table,
            );
            let lines = byaf_chat::message_lines(messages, user_name, character_name, table);
            &&& chat.len() == lines_before(s) + lines.len()
            &&& forall|i: int|
                0 <= i < lines.len() ==> chat[lines_before(s) + i] == #[trigger] lines[i]
        }),
{
}

/// Where the messages of a scenario are in turn the user's and the character's, the lines behind
/// the header and the greeting are those of the messages, in their order.
pub proof fn alternating_messages_keep_order(
    s: Tree,
    user_name: Seq<char>,
    character_name: Seq<char>,
    backgrounds: Seq<byaf::BackgroundView>,
    now: Seq<char>,
    table: Seq<TextNumber>,
    messages: Seq<Tree>,
    i: int,
)
    requires
        s.items_at("messages"@) == Some(messages),
        messages.len() % 2 == 0,
        forall|j: int|
            0 <= j < messages.len() ==> (#[trigger] messages[j]).text_at("type"@) == Some(
                if j % 2 == 0 {
                    "human"@
                } else {
                    "ai"@
                },
            ),
        0 <= i < messages.len(),
    ensures
        ({
            let chat = byaf_chat::scenario_chat(
                s,
                user_name,
                character_name,
                backgrounds,
                now,
                table,
            );
            &&& chat.len() == lines_before(s) + messages.len()
            &&& is_line_of(
                chat[lines_before(s) + i],
                messages[i],
                i % 2 == 0,
                user_name,
                character_name,
            )
        }),
{
    chat_is_headed(s, user_name, character_name, backgrounds, now, table, messages);
    of_alternating(messages);
    let users = byaf_chat::of_kind(messages, "human"@);
    let characters = byaf_chat::of_kind(messages, "ai"@);
    paired_lines_say(users, characters, user_name, character_name, table);
    let lines = byaf_chat::message_lines(messages, user_name, character_name, table);
    let j = i / 2;
    if i % 2 == 0 {
        assert(i == 2 * j);
        assert(users[j] == messages[2 * j]);
        assert(is_line_of(lines[2 * j], users[j], true, user_name, character_name));
    } else {
        assert(i == 2 * j + 1);
        assert(characters[j] == messages[2 * j + 1]);
        assert(is_line_of(lines[2 * j + 1], characters[j], false, user_name, character_name));
    }
    assert(lines[i] == lines[i]);
}

/// Where the user and the character have as many messages as each other, the lines are in turn
/// theirs; the messages of each stay in their order.
pub proof fn paired_messages_are_in_turn(
    s: Tree,
    user_name: Seq<char>,
    character_name: Seq<char>,
    backgrounds: Seq<byaf::BackgroundView>,
    now: Seq<char>,
    table: Seq<TextNumber>,
    messages: Seq<Tree>,
    j: int,
)
    requires
        s.items_at("messages"@) == Some(messages),
        byaf_chat::of_kind(messages, "human"@).len() == byaf_chat::of_kind(messages, "ai"@).len(),
        0 <= j < byaf_chat::of_kind(messages, "human"@).len(),
    ensures
        ({
            let chat = byaf_chat::scenario_chat(
                s,
                user_name,
                character_name,
                backgrounds,
                now,
                table,
            );
            let n = lines_before(s);
            &&& is_line_of(
                chat[n + 2 * j],
                byaf_chat::of_kind(messages, "human"@)[j],
                true,
                user_name,
                character_name,
            )
            &&& is_line_of(
                chat[n + 2 * j + 1],
                byaf_chat::of_kind(messages, "ai"@)[j],
                false,
                user_name,
                character_name,
            )
        }),
{
    chat_is_headed(s, user_name, character_name, backgrounds, now, table, messages);
    let users = byaf_chat::of_kind(messages, "human"@);
    let characters = byaf_chat::of_kind(messages, "ai"@);
    paired_lines_say(users, characters, user_name, character_name, table);
    let lines = byaf_chat::message_lines(messages, user_name, character_name, table);
    assert(is_line_of(lines[2 * j], users[j], true, user_name, character_name));
    assert(is_line_of(lines[2 * j + 1], characters[j], false, user_name, character_name));
}

/// Otherwise the lines are those of the messages one by one, the user's where the message is of
/// the type `human` and the character's where it is of any other.
pub proof fn other_messages_keep_order(
    s: Tree,
    user_name: Seq<char>,
    character_name: Seq<char>,
    backgrounds: Seq<byaf::BackgroundView>,
    now: Seq<char>,
    table: Seq<TextNumber>,
    messages: Seq<Tree>,
    i: int,
)
    requires
        s.items_at("messages"@) == Some(messages),
        byaf_chat::of_kind(messages, "human"@).len() != byaf_chat::of_kind(messages, "ai"@).len(),
        0 <= i < messages.len(),
    ensures
        ({
            let chat = byaf_chat::scenario_chat(
                s,
                user_name,
                character_name,
                backgrounds,
                now,
                table,
            );
            &&& chat.len() == lines_before(s) + messages.len()
            &&& is_line_of(
                chat[lines_before(s) + i],
                messages[i],
                messages[i].text_at("type"@) == Some("human"@),
                user_name,
                character_name,
            )
        }),
{
    chat_is_headed(s, user_name, character_name, backgrounds, now, table, messages);
    single_lines_say(messages, user_name, character_name, table, i);
    let lines = byaf_chat::message_lines(messages, user_name, character_name, table);
    assert(lines[i] == lines[i]);
}

/// The messages of a kind are exactly those whose type it is, in their order.
pub proof fn kinds_are_told_apart(messages: Seq<Tree>, m: Tree, kind: Seq<char>)
    ensures
        byaf_chat::of_kind(messages.push(m), kind) == if m.text_at("type"@) == Some(kind) {
            byaf_chat::of_kind(messages, kind).push(m)
        } else {
            byaf_chat::of_kind(messages, kind)
        },
        byaf_chat::of_kind(Seq::empty(), kind).len() == 0,
{
    assert(messages.push(m).drop_last() =~= messages);
}

/// The greeting of a scenario is the second line of its chat, said by the character, and dated as
/// the first message that has a date, or with the time of the import where there are no messages
/// yet.
pub proof fn greeting_comes_first(
    s: Tree,
    user_name: Seq<char>,
    character_name: Seq<char>,
    backgrounds: Seq<byaf::BackgroundView>,
    now: Seq<char>,
    table: Seq<TextNumber>,
    greetings: Seq<Tree>,
    t: Seq<char>,
)
    requires
        s.items_at("firstMessages"@) == Some(greetings),
        greetings.len() > 0,
        greetings[0].text_at("text"@) == Some(t),
        t.len() > 0,
    ensures
        ({
            let chat = byaf_chat::scenario_chat(
                s,
                user_name,
                character_name,
                backgrounds,
                now,
                table,
            );
            &&& chat.len() >= 2
            &&& says(chat[1], false, character_name, t)
            &&& s.items_at("messages"@) == Some(Seq::<Tree>::empty()) ==> chat[1].text_at(
                "send_date"@,
            ) == Some(now)
            &&& s.items_at("messages"@) is Some && s.items_at("messages"@)->0.len() > 0
                && s.items_at("messages"@)->0[0].get("createdAt"@) is Some ==> chat[1].get(
                "send_date"@,
            ) == s.items_at("messages"@)->0[0].get("createdAt"@)
        }),
{
    line_keys_differ();
    reveal_with_fuel(json::position, 5);
    let chat = byaf_chat::scenario_chat(s, user_name, character_name, backgrounds, now, table);
    let date = byaf_chat::start_date(s.items_at("messages"@), now);
    assert(chat[1] == byaf_chat::greeting_lines(s, character_name, date)[0]);
}

/// The header of the chat of a scenario tells of the scenario: its narrative, its instructions
/// and the background that was found for it.
pub proof fn header_tells_of_scenario(
    s: Tree,
    user_name: Seq<char>,
    character_name: Seq<char>,
    backgrounds: Seq<byaf::BackgroundView>,
    now: Seq<char>,
    table: Seq<TextNumber>,
    b: int,
)
    requires
        0 <= b < backgrounds.len(),
        s.text_at("narrative"@) is Some,
        s.text_at("formattingInstructions"@) is Some,
        s.text_at("backgroundImage"@) is Some,
        backgrounds[b].paths.contains(s.text_at("backgroundImage"@)->0),
        backgrounds[b].name.len() > 0,
        forall|j: int|
            0 <= j < b ==> !(#[trigger] backgrounds[j]).paths.contains(
                s.text_at("backgroundImage"@)->0,
            ),
    ensures
        ({
            let head = byaf_chat::scenario_chat(
                s,
                user_name,
                character_name,
                backgrounds,
                now,
                table,
            )[0];
            let known = head.get("chat_metadata"@)->0;
            &&& head.text_at("user_name"@) == Some("unused"@)
            &&& head.text_at("character_name"@) == Some("unused"@)
            &&& head.get("chat_metadata"@) is Some
            &&& known.text_at("scenario"@) == Some(
                macros::with_macros(s.text_at("narrative"@)->0),
            )
            &&& known.text_at("system_prompt"@) == Some(
                macros::with_macros(s.text_at("formattingInstructions"@)->0),
            )
            &&& known.text_at("mes_example"@) == Some(
                byaf::example_messages(s.items_at("exampleMessages"@)),
            )
            &&& known.flag_at("mes_examples_optional"@) == Some(
                s.get("canDeleteExampleMessages"@) == Some(Tree::Bool(true)),
            )
            &&& known.items_at("chat_backgrounds"@) == Some(seq![Tree::Text(backgrounds[b].name)])
            &&& known.text_at("custom_background"@) == Some(
                "url(\""@ + byaf::uri_bytes(vstd::utf8::encode_utf8(backgrounds[b].name))
                    + "\")"@,
            )
            &&& known.get("byaf_model_settings"@) == Some(byaf_chat::model_settings(s, table))
        }),
{
    reveal_strlit("user_name");
    reveal_strlit("character_name");
    reveal_strlit("chat_metadata");
    assert("user_name"@.len() == 9 && "character_name"@.len() == 14
        && "chat_metadata"@.len() == 13);
    background_is_found(backgrounds, s.text_at("backgroundImage"@)->0, 0, b);
    let background = backgrounds[b].name;
    let f = byaf_chat::chat_metadata(s, background, table);
    metadata_reads(s, background, table);
    let head = byaf_chat::header_line(s, background, table);
    assert(head.get("chat_metadata"@) == Some(Tree::Object(f)) && head.text_at("user_name"@)
        == Some("unused"@) && head.text_at("character_name"@) == Some("unused"@)) by {
        reveal_with_fuel(json::position, 4);
    }
    assert(json::items().push(json::txt(background)) =~= seq![Tree::Text(background)]);
}

proof fn metadata_reads(s: Tree, background: Seq<char>, table: Seq<TextNumber>)
    ensures
        ({
            let f = byaf_chat::chat_metadata(s, background, table);
            &&& f.len() == 7
            &&& f[0].0 == "scenario"@ && f[1].0 == "mes_example"@ && f[2].0 == "system_prompt"@
                && f[3].0 == "mes_examples_optional"@ && f[4].0 == "byaf_model_settings"@
                && f[5].0 == "chat_backgrounds"@ && f[6].0 == "custom_background"@
            &&& forall|i: int| 0 <= i < 7 ==> json::lookup(f, (#[trigger] f[i]).0) == Some(
                f[i].1,
            )
        }),
{
    reveal_strlit("byaf_model_settings");
    reveal_strlit("chat_backgrounds");
    reveal_strlit("custom_background");
    reveal_strlit("mes_example");
    reveal_strlit("mes_examples_optional");
    reveal_strlit("scenario");
    reveal_strlit("system_prompt");
    assert("byaf_model_settings"@.len() == 19);
    assert("chat_backgrounds"@.len() == 16);
    assert("custom_background"@.len() == 17);
    assert("mes_example"@.len() == 11);
    assert("mes_examples_optional"@.len() == 21);
    assert("scenario"@.len() == 8);
    assert("system_prompt"@.len() == 13);
    let f = byaf_chat::chat_metadata(s, background, table);
    assert(f.len() == 7);
    assert(f[0].0 == "scenario"@ && f[1].0 == "mes_example"@ && f[2].0 == "system_prompt"@
        && f[3].0 == "mes_examples_optional"@ && f[4].0 == "byaf_model_settings"@
        && f[5].0 == "chat_backgrounds"@ && f[6].0 == "custom_background"@);
    assert forall|i: int, j: int| 0 <= i < j < f.len() implies #[trigger] f[i].0
        != #[trigger] f[j].0 by {}
    assert forall|i: int| 0 <= i < f.len() implies json::lookup(f, (#[trigger] f[i]).0) == Some(f[i].1) by {
        json::member_reads(f, i);
    }
}

proof fn background_is_found(
    backgrounds: Seq<byaf::BackgroundView>,
    path: Seq<char>,
    i: int,
    b: int,
)
    requires
        0 <= i <= b < backgrounds.len(),
        backgrounds[b].paths.contains(path),
        forall|j: int| 0 <= j < b ==> !(#[trigger] backgrounds[j]).paths.contains(path),
    ensures
        byaf_chat::background_at(backgrounds, path, i) == backgrounds[b].name,
    decreases b - i,
{
    if i < b {
        assert(!backgrounds[i].paths.contains(path));
        background_is_found(backgrounds, path, i + 1, b);
    }
}

/// The settings of the model that a scenario was played with are those that it names, each under
/// the name that it has here.
pub proof fn model_settings_are_kept(s: Tree, table: Seq<TextNumber>)
    ensures
        ({
            let m = byaf_chat::model_settings(s, table);
            &&& m.text_at("model"@) == Some(s.text_or("model"@, ""@))
            &&& s.get("temperature"@) matches Some(Tree::Float(b, t)) ==> m.get("temperature"@)
                == Some(Tree::Float(b, t))
            &&& s.get("topK"@) matches Some(Tree::Float(b, t)) ==> m.get("top_k"@) == Some(
                Tree::Float(b, t),
            )
            &&& s.get("topP"@) matches Some(Tree::Float(b, t)) ==> m.get("top_p"@) == Some(
                Tree::Float(b, t),
            )
            &&& s.get("minP"@) matches Some(Tree::Float(b, t)) ==> m.get("min_p"@) == Some(
                Tree::Float(b, t),
            )
            &&& m.flag_at("min_p_enabled"@) == Some(s.get("minPEnabled"@) != Some(Tree::Bool(false)))
            &&& s.get("repeatPenalty"@) matches Some(Tree::Float(b, t)) ==> m.get(
                "repeat_penalty"@,
            ) == Some(Tree::Float(b, t))
            &&& s.get("repeatLastN"@) matches Some(Tree::Float(b, t)) ==> m.get(
                "repeat_penalty_tokens"@,
            ) == Some(Tree::Float(b, t))
            &&& m.text_at("by_prompt_template"@) == Some(s.text_or("promptTemplate"@, "general"@))
            &&& m.get("grammar"@) == Some(
                match s.get("grammar"@) {
                    Some(g) => g,
                    None => Tree::Null,
                },
            )
        }),
{
    reveal_strlit("by_prompt_template");
    reveal_strlit("grammar");
    reveal_strlit("min_p");
    reveal_strlit("min_p_enabled");
    reveal_strlit("model");
    reveal_strlit("repeat_penalty");
    reveal_strlit("repeat_penalty_tokens");
    reveal_strlit("temperature");
    reveal_strlit("top_k");
    reveal_strlit("top_p");
    assert("by_prompt_template"@.len() == 18);
    assert("grammar"@.len() == 7);
    assert("min_p"@.len() == 5 && "min_p"@[0] == 'm' && "min_p"@[1] == 'i');
    assert("min_p_enabled"@.len() == 13);
    assert("model"@.len() == 5 && "model"@[0] == 'm' && "model"@[1] == 'o');
    assert("repeat_penalty"@.len() == 14);
    assert("repeat_penalty_tokens"@.len() == 21);
    assert("temperature"@.len() == 11);
    assert("top_k"@.len() == 5 && "top_k"@[0] == 't' && "top_k"@[4] == 'k');
    assert("top_p"@.len() == 5 && "top_p"@[0] == 't' && "top_p"@[4] == 'p');
    let f = byaf_chat::model_settings(s, table)->Object_0;
    assert(f.len() == 10);
    assert(f[0].0 == "model"@ && f[1].0 == "temperature"@ && f[2].0 == "top_k"@
        && f[3].0 == "top_p"@ && f[4].0 == "min_p"@ && f[5].0 == "min_p_enabled"@
        && f[6].0 == "repeat_penalty"@ && f[7].0 == "repeat_penalty_tokens"@
        && f[8].0 == "by_prompt_template"@ && f[9].0 == "grammar"@);
    assert forall|i: int, j: int| 0 <= i < j < f.len() implies #[trigger] f[i].0
        != #[trigger] f[j].0 by {}
    json::member_reads(f, 0);
    json::member_reads(f, 1);
    json::member_reads(f, 2);
    json::member_reads(f, 3);
    json::member_reads(f, 4);
    json::member_reads(f, 5);
    json::member_reads(f, 6);
    json::member_reads(f, 7);
    json::member_reads(f, 8);
    json::member_reads(f, 9);
}

proof fn card_data_reads(manifest: Tree, character: Tree, scenarios: Seq<Tree>)
    ensures
        ({
            let f = byaf::card_data(manifest, character, scenarios);
            let book = byaf::lore_book(character.items_at("loreItems"@));
            let n = if book is Some {
                11int
            } else {
                10int
            };
            &&& f.len() == n + 4
            &&& f[0].0 == "name"@ && f[1].0 == "description"@ && f[2].0 == "personality"@
                && f[3].0 == "scenario"@ && f[4].0 == "first_mes"@ && f[5].0 == "mes_example"@
                && f[6].0 == "creator_notes"@ && f[7].0 == "system_prompt"@
                && f[8].0 == "post_history_instructions"@ && f[9].0 == "alternate_greetings"@
            &&& f[n].0 == "tags"@ && f[n + 1].0 == "creator"@ && f[n + 2].0 == "character_version"@
                && f[n + 3].0 == "extensions"@
            &&& book matches Some(x) ==> f[10] == ("character_book"@, x)
            &&& json::keys_distinct(f)
        }),
{
    reveal_strlit("alternate_greetings");
    reveal_strlit("character_book");
    reveal_strlit("character_version");
    reveal_strlit("creator");
    reveal_strlit("creator_notes");
    reveal_strlit("description");
    reveal_strlit("extensions");
    reveal_strlit("first_mes");
    reveal_strlit("mes_example");
    reveal_strlit("name");
    reveal_strlit("personality");
    reveal_strlit("post_history_instructions");
    reveal_strlit("scenario");
    reveal_strlit("system_prompt");
    reveal_strlit("tags");
    assert("alternate_greetings"@.len() == 19);
    assert("character_book"@.len() == 14);
    assert("character_version"@.len() == 17);
    assert("creator"@.len() == 7);
    assert("creator_notes"@.len() == 13 && "creator_notes"@[0] == 'c');
    assert("description"@.len() == 11 && "description"@[0] == 'd');
    assert("extensions"@.len() == 10);
    assert("first_mes"@.len() == 9);
    assert("mes_example"@.len() == 11 && "mes_example"@[0] == 'm');
    assert("name"@.len() == 4 && "name"@[0] == 'n');
    assert("personality"@.len() == 11 && "personality"@[0] == 'p');
    assert("post_history_instructions"@.len() == 25);
    assert("scenario"@.len() == 8);
    assert("system_prompt"@.len() == 13 && "system_prompt"@[0] == 's');
    assert("tags"@.len() == 4 && "tags"@[0] == 't');
    let f = byaf::card_data(manifest, character, scenarios);
    let book = byaf::lore_book(character.items_at("loreItems"@));
    let n = if book is Some {
        11int
    } else {
        10int
    };
    assert(f.len() == n + 4);
    assert(f[0].0 == "name"@ && f[1].0 == "description"@ && f[2].0 == "personality"@
        && f[3].0 == "scenario"@ && f[4].0 == "first_mes"@ && f[5].0 == "mes_example"@
        && f[6].0 == "creator_notes"@ && f[7].0 == "system_prompt"@
        && f[8].0 == "post_history_instructions"@ && f[9].0 == "alternate_greetings"@);
    if book is Some {
        assert(f[10] == ("character_book"@, book->0));
        assert(f[11].0 == "tags"@ && f[12].0 == "creator"@ && f[13].0 == "character_version"@
            && f[14].0
            == "extensions"@);
    } else {
        assert(f[10].0 == "tags"@ && f[11].0 == "creator"@ && f[12].0 == "character_version"@
            && f[13].0
            == "extensions"@);
    }
    assert forall|i: int, j: int| 0 <= i < j < f.len() implies #[trigger] f[i].0
        != #[trigger] f[j].0 by {}
}

/// The card of a character from a BYAF archive: its name, its persona as the description, the
/// narrative and the greeting of its first scenario, and its author.
pub proof fn card_tells_of_character(
    manifest: Tree,
    character: Tree,
    scenarios: Seq<Tree>,
    now: Seq<char>,
)
    requires
        scenarios.len() > 0,
    ensures
        ({
            let c = byaf::card_of(manifest, character, scenarios, now);
            let data = c.get("data"@)->0;
            let first = scenarios[0];
            &&& c.text_at("spec"@) == Some("chara_card_v2"@)
            &&& c.text_at("spec_version"@) == Some("2.0"@)
            &&& c.text_at("create_date"@) == Some(now)
            &&& c.get("data"@) is Some
            &&& character.text_at("name"@) matches Some(n) ==> data.text_at("name"@) == Some(n)
            &&& character.text_at("name"@) is None ==> data.text_at("name"@) == Some(
                character.text_or("displayName"@, ""@),
            )
            &&& data.text_at("description"@) == Some(
                macros::with_macros(character.text_or("persona"@, ""@)),
            )
            &&& data.text_at("scenario"@) == Some(
                macros::with_macros(first.text_or("narrative"@, ""@)),
            )
            &&& first.items_at("firstMessages"@) is Some && first.items_at(
                "firstMessages"@,
            )->0.len() > 0 && first.items_at("firstMessages"@)->0[0].text_at("text"@) is Some
                ==> data.text_at("first_mes"@) == Some(
                macros::with_macros(first.items_at("firstMessages"@)->0[0].text_at("text"@)->0),
            )
            &&& data.text_at("system_prompt"@) == Some(
                macros::with_macros(first.text_or("formattingInstructions"@, ""@)),
            )
            &&& data.text_at("mes_example"@) == Some(
                byaf::example_messages(first.items_at("exampleMessages"@)),
            )
            &&& manifest.get("author"@) matches Some(a) ==> data.text_at("creator"@) == Some(
                a.text_or("name"@, ""@),
            ) && data.text_at("creator_notes"@) == Some(a.text_or("backyardURL"@, ""@))
            &&& data.items_at("alternate_greetings"@) == Some(
                json::text_items(byaf::alternate_greetings(scenarios)),
            )
            &&& data.items_at("tags"@) == Some(
                if character.get("isNSFW"@) == Some(Tree::Bool(true)) {
                    seq![Tree::Text("nsfw"@)]
                } else {
                    Seq::empty()
                },
            )
            &&& data.text_at("personality"@) == Some(Seq::<char>::empty())
            &&& data.text_at("post_history_instructions"@) == Some(Seq::<char>::empty())
            &&& data.text_at("character_version"@) == Some(Seq::<char>::empty())
            &&& byaf::lore_book(character.items_at("loreItems"@)) matches Some(book) ==> data.get(
                "character_book"@,
            ) == Some(book)
            &&& character.text_at("displayName"@) matches Some(d) ==> (data.get("extensions"@)
                matches Some(e) && e.text_at("display_name"@) == Some(d))
        }),
{
    reveal_strlit("create_date");
    reveal_strlit("data");
    reveal_strlit("spec");
    reveal_strlit("spec_version");
    assert("create_date"@.len() == 11);
    assert("data"@.len() == 4 && "data"@[0] == 'd');
    assert("spec"@.len() == 4 && "spec"@[0] == 's');
    assert("spec_version"@.len() == 12);
    let c = byaf::card_of(manifest, character, scenarios, now);
    let f = byaf::card_data(manifest, character, scenarios);
    assert(c.get("data"@) == Some(Tree::Object(f)) && c.text_at("spec"@) == Some("chara_card_v2"@)
        && c.text_at("spec_version"@) == Some("2.0"@) && c.text_at("create_date"@) == Some(now))
        by {
        reveal_with_fuel(json::position, 5);
    }
    card_data_reads(manifest, character, scenarios);
    let book = byaf::lore_book(character.items_at("loreItems"@));
    let n = if book is Some {
        11int
    } else {
        10int
    };
    json::member_reads(f, 0);
    json::member_reads(f, 1);
    json::member_reads(f, 2);
    json::member_reads(f, 3);
    json::member_reads(f, 4);
    json::member_reads(f, 5);
    json::member_reads(f, 6);
    json::member_reads(f, 7);
    json::member_reads(f, 8);
    json::member_reads(f, 9);
    json::member_reads(f, n);
    json::member_reads(f, n + 1);
    json::member_reads(f, n + 2);
    json::member_reads(f, n + 3);
    if book is Some {
        json::member_reads(f, 10);
    }
    reveal_with_fuel(json::position, 2);
    assert(json::items().push(json::txt("nsfw"@)) =~= seq![Tree::Text("nsfw"@)]);
}

} // verus!
