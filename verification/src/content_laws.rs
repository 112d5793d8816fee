//! What holds of characters and lorebooks that are taken from elsewhere: where an address leads,
//! what is asked for there, and what the card keeps of the answer.

use crate::completion_laws;
use crate::content;
use crate::content::SourceView;
use crate::json;
use crate::json::Tree;
use crate::outside;
use crate::text;
use crate::text_laws;
use crate::web;
use crate::web::Method;
use vstd::prelude::*;

verus! {

/// The members of a card, and what Chub calls them in a character's definition.
pub open spec fn chub_members() -> Seq<(Seq<char>, Seq<char>)> {
    seq![
        ("name"@, "name"@),
        ("description"@, "personality"@),
        ("personality"@, "tavern_personality"@),
        ("scenario"@, "scenario"@),
        ("first_mes"@, "first_message"@),
        ("mes_example"@, "example_dialogs"@),
        ("creator_notes"@, "description"@),
        ("system_prompt"@, "system_prompt"@),
        ("post_history_instructions"@, "post_history_instructions"@),
        ("alternate_greetings"@, "alternate_greetings"@),
        ("character_book"@, "embedded_lorebook"@),
        ("extensions"@, "extensions"@),
    ]
}

/// The members of a card, and what Perchance calls them.
pub open spec fn perchance_members() -> Seq<(Seq<char>, Seq<char>)> {
    seq![
        ("description"@, "roleInstruction"@),
        ("personality"@, "reminderMessage"@),
        ("creator"@, "metaTitle"@),
        ("creator_notes"@, "metaDescription"@),
    ]
}

proof fn card_names_differ()
    ensures
        "alternate_greetings"@.len() == 19,
        "character_book"@.len() == 14,
        "character_version"@.len() == 17,
        "creator"@.len() == 7,
        "creator_notes"@.len() == 13 && "creator_notes"@[0] == 'c',
        "description"@.len() == 11 && "description"@[0] == 'd',
        "extensions"@.len() == 10,
        "first_mes"@.len() == 9,
        "mes_example"@.len() == 11 && "mes_example"@[0] == 'm',
        "name"@.len() == 4 && "name"@[0] == 'n',
        "personality"@.len() == 11 && "personality"@[0] == 'p',
        "post_history_instructions"@.len() == 25,
        "scenario"@.len() == 8,
        "system_prompt"@.len() == 13 && "system_prompt"@[0] == 's',
        "tags"@.len() == 4 && "tags"@[0] == 't',
{
    reveal_strlit("alternate_greetings");
    reveal_strlit("character_book");
    reveal_strlit("character_version");
    reveal_strlit("creator");
    reveal_strlit("creator_notes");
    reveal_strlit("description");
    reveal_strlit("extensions");
    reveal_strlit("first_mes");
    reveal_strlit("mes_example");
    reveal_strlit("name");
    reveal_strlit("personality");
    reveal_strlit("post_history_instructions");
    reveal_strlit("scenario");
    reveal_strlit("system_prompt");
    reveal_strlit("tags");
}

proof fn chub_data_keys(f: Seq<(Seq<char>, Tree)>)
    requires
        f.len() == 15,
        f[0].0 == "name"@,
        f[1].0 == "description"@,
        f[2].0 == "personality"@,
        f[3].0 == "scenario"@,
        f[4].0 == "first_mes"@,
        f[5].0 == "mes_example"@,
        f[6].0 == "creator_notes"@,
        f[7].0 == "system_prompt"@,
        f[8].0 == "post_history_instructions"@,
        f[9].0 == "alternate_greetings"@,
        f[10].0 == "tags"@,
        f[11].0 == "creator"@,
        f[12].0 == "character_version"@,
        f[13].0 == "character_book"@,
        f[14].0 == "extensions"@,
    ensures
        json::keys_distinct(f),
{
    card_names_differ();
}

proof fn perchance_data_keys(f: Seq<(Seq<char>, Tree)>)
    requires
        f.len() == 14,
        f[0].0 == "name"@,
        f[1].0 == "first_mes"@,
        f[2].0 == "tags"@,
        f[3].0 == "description"@,
        f[4].0 == "creator"@,
        f[5].0 == "creator_notes"@,
        f[6].0 == "alternate_greetings"@,
        f[7].0 == "character_version"@,
        f[8].0 == "mes_example"@,
        f[9].0 == "post_history_instructions"@,
        f[10].0 == "system_prompt"@,
        f[11].0 == "scenario"@,
        f[12].0 == "personality"@,
        f[13].0 == "extensions"@,
    ensures
        json::keys_distinct(f),
{
    card_names_differ();
}

/// The card of a character on Chub holds what its definition holds, each under its own name; the
/// tags are the topics, and the creator is the one whom the address names. It is a card of the
/// second format.
pub proof fn chub_card_keeps_definition(
    metadata: Tree,
    node: Tree,
    definition: Tree,
    creator: Seq<char>,
    i: int,
)
    requires
        0 <= i < chub_members().len(),
        metadata.get("node"@) == Some(node),
        node.get("definition"@) == Some(definition),
    ensures
        content::chub_card(metadata, creator).text_at("spec"@) == Some("chara_card_v2"@),
        content::chub_card(metadata, creator).text_at("spec_version"@) == Some("2.0"@),
        content::chub_card(metadata, creator).get("data"@) matches Some(d) && (definition.get(
            chub_members()[i].1,
        ) matches Some(v) ==> d.get(chub_members()[i].0) == Some(v)) && (node.get(
            "topics"@,
        ) matches Some(v) ==> d.get("tags"@) == Some(v)) && d.text_at("creator"@) == Some(creator),
{
    reveal_strlit("data");
    reveal_strlit("spec");
    reveal_strlit("spec_version");
    assert("data"@.len() == 4 && "data"@[0] == 'd');
    assert("spec"@.len() == 4 && "spec"@[0] == 's');
    assert("spec_version"@.len() == 12);
    reveal_with_fuel(json::position, 4);
    let card = content::chub_card(metadata, creator);
    let d = card.get("data"@)->0;
    let f = d->Object_0;
    chub_data_keys(f);
    json::member_reads(f, 0);
    json::member_reads(f, 1);
    json::member_reads(f, 2);
    json::member_reads(f, 3);
    json::member_reads(f, 4);
    json::member_reads(f, 5);
    json::member_reads(f, 6);
    json::member_reads(f, 7);
    json::member_reads(f, 8);
    json::member_reads(f, 9);
    json::member_reads(f, 10);
    json::member_reads(f, 11);
    json::member_reads(f, 13);
    json::member_reads(f, 14);
}

/// The card of a character on Perchance holds its texts, each under its own name, and tells where
/// it comes from. It is a card of the second format.
pub proof fn perchance_card_keeps_texts(c: Tree, slug: Seq<char>, s: Seq<char>, i: int)
    requires
        0 <= i < perchance_members().len(),
    ensures
        ({
            let card = content::perchance_card(c, slug);
            &&& card.text_at("spec"@) == Some("chara_card_v2"@)
            &&& card.text_at("spec_version"@) == Some("2.0"@)
            &&& card.get("data"@) matches Some(d) && (c.text_at(perchance_members()[i].1) == Some(s)
                ==> d.text_at(perchance_members()[i].0) == Some(s)) && (c.text_at("name"@) == Some(
                s,
            ) ==> d.text_at("name"@) == Some(s)) && (d.get("extensions"@) matches Some(e) && (
            e.get("perchance_data"@) matches Some(o) && o.text_at("slug"@) == Some(slug)
                && o.text_at("char_url"@) == Some("https://user.uploads.dev/file/"@ + slug) && (
            c.get("uuid"@) matches Some(u) ==> o.get("uuid"@) == Some(u))))
        }),
{
    reveal_strlit("char_url");
    reveal_strlit("data");
    reveal_strlit("perchance_data");
    reveal_strlit("slug");
    reveal_strlit("spec");
    reveal_strlit("spec_version");
    reveal_strlit("uuid");
    assert("char_url"@.len() == 8);
    assert("data"@.len() == 4 && "data"@[0] == 'd');
    assert("perchance_data"@.len() == 14);
    assert("slug"@.len() == 4 && "slug"@[0] == 's' && "slug"@[1] == 'l');
    assert("spec"@.len() == 4 && "spec"@[0] == 's' && "spec"@[1] == 'p');
    assert("spec_version"@.len() == 12);
    assert("uuid"@.len() == 4 && "uuid"@[0] == 'u');
    reveal_with_fuel(json::position, 4);
    let card = content::perchance_card(c, slug);
    let d = card.get("data"@)->0;
    let f = d->Object_0;
    perchance_data_keys(f);
    json::member_reads(f, 0);
    json::member_reads(f, 3);
    json::member_reads(f, 4);
    json::member_reads(f, 5);
    json::member_reads(f, 12);
    json::member_reads(f, 13);
}

/// The sites that addresses may lead to.
pub open spec fn sites() -> Seq<Seq<char>> {
    seq![
        "pygmalion.chat"@,
        "janitorai"@,
        "aicharactercards.com"@,
        "chub.ai"@,
        "characterhub.org"@,
        "realm.risuai.net"@,
        "perchance.org"@,
    ]
}

/// Whether a host belongs to one of the sites and to no other.
pub open spec fn only_at(host: Seq<char>, i: int) -> bool {
    forall|j: int|
        #![trigger sites()[j]]
        0 <= j < sites().len() ==> (text::occurs(host, sites()[j]) <==> i == j)
}

/// An address leads to the site that its host names, with what it tells of the character there:
/// its identifier, or the creator and the name.
pub proof fn address_leads_to_its_site(
    url: Seq<char>,
    host: Seq<char>,
    found: content::AddressView,
    listed: Seq<Seq<char>>,
    id: Seq<char>,
    i: int,
)
    requires
        0 <= i < sites().len(),
        only_at(host, i),
    ensures
        ({
            let r = content::source_at(url, host, found, listed);
            &&& i == 0 && found.uuid == Some(id) ==> r == Some(SourceView::Pygmalion(id))
            &&& i == 1 && found.uuid == Some(id) ==> r == Some(SourceView::Janny(id))
            &&& i == 2 && found.aicc == Some(id) ==> r == Some(SourceView::Aicc(id))
            &&& (i == 3 || i == 4) && found.chub == Some((true, id)) ==> r == Some(
                SourceView::ChubCharacter(id),
            )
            &&& (i == 3 || i == 4) && found.chub == Some((false, id)) ==> r == Some(
                SourceView::ChubLorebook(id),
            )
            &&& i == 5 && found.risu == Some(id) ==> r == Some(SourceView::Risu(id))
            &&& i == 6 && content::slug_of(url) == id && id.len() > 0 ==> r == Some(
                SourceView::Perchance(id),
            )
        }),
{
    let s = sites();
    assert(s[0] == "pygmalion.chat"@ && s[1] == "janitorai"@ && s[2] == "aicharactercards.com"@
        && s[3] == "chub.ai"@ && s[4] == "characterhub.org"@ && s[5] == "realm.risuai.net"@ && s[6]
        == "perchance.org"@);
}

/// Any other address is taken as it is where its host is listed, and refused where it is not.
pub proof fn other_addresses_are_listed(
    url: Seq<char>,
    host: Seq<char>,
    found: content::AddressView,
    listed: Seq<Seq<char>>,
)
    requires
        only_at(host, -1),
    ensures
        content::source_at(url, host, found, listed) == if listed.contains(host) {
            Some(SourceView::Generic(url))
        } else {
            None
        },
{
    let s = sites();
    assert(s[0] == "pygmalion.chat"@ && s[1] == "janitorai"@ && s[2] == "aicharactercards.com"@
        && s[3] == "chub.ai"@ && s[4] == "characterhub.org"@ && s[5] == "realm.risuai.net"@ && s[6]
        == "perchance.org"@);
}

/// The address of a character on Perchance names it behind a tilde.
pub proof fn slug_stands_behind_tilde(a: Seq<char>, slug: Seq<char>)
    requires
        !a.contains('~'),
        !slug.contains('~'),
    ensures
        content::slug_of(a + seq!['~'] + slug) == slug,
        content::slug_of(a) == Seq::<char>::empty(),
{
    text_laws::first_piece_is_cut(a, '~', slug);
    text_laws::first_piece_is_cut(slug, '~', Seq::empty());
}

/// Whether no part of an address is a domain of Chub.
pub open spec fn before_domains(parts: Seq<Seq<char>>) -> bool {
    forall|i: int|
        0 <= i < parts.len() ==> {
            let p = #[trigger] parts[i];
            p != "www.chub.ai"@ && p != "chub.ai"@ && p != "www.characterhub.org"@ && p
                != "characterhub.org"@
        }
}

proof fn domain_is_found(pre: Seq<Seq<char>>, domain: Seq<char>, rest: Seq<Seq<char>>, i: int)
    requires
        0 <= i <= pre.len(),
        before_domains(pre),
        content::chub_domain(domain),
    ensures
        content::domain_from(pre.push(domain) + rest, i) == Some(pre.len() as int),
    decreases pre.len() - i,
{
    if i < pre.len() {
        assert((pre.push(domain) + rest)[i] == pre[i]);
        domain_is_found(pre, domain, rest, i + 1);
    }
}

/// An address on Chub leads to what follows the domain: the characters under their heading, the
/// lorebooks with theirs.
pub proof fn chub_address_is_read(
    pre: Seq<Seq<char>>,
    domain: Seq<char>,
    heading: Seq<char>,
    rest: Seq<Seq<char>>,
)
    requires
        before_domains(pre),
        domain == "chub.ai"@ || domain == "www.chub.ai"@ || domain == "characterhub.org"@ || domain
            == "www.characterhub.org"@,
    ensures
        content::chub_target(pre.push(domain).push(heading) + rest, "characters"@) == Some(
            (true, text::joined(rest, "/"@)),
        ),
        content::chub_target(pre.push(domain).push(heading) + rest, "lorebooks"@) == Some(
            (false, text::joined(seq![heading] + rest, "/"@)),
        ),
{
    reveal_strlit("characters");
    reveal_strlit("lorebooks");
    assert("characters"@.len() == 10 && "lorebooks"@.len() == 9);
    let parts = pre.push(domain).push(heading) + rest;
    assert(parts =~= pre.push(domain) + (seq![heading] + rest));
    domain_is_found(pre, domain, seq![heading] + rest, 0);
    assert(parts.skip((pre.len() + 1) as int) =~= seq![heading] + rest);
    assert((seq![heading] + rest).skip(1) =~= rest);
}

/// An identifier of a character names its site: one with a mark of a character behind an
/// underscore is on JanitorAI, one behind its prefix is among the character cards, and one that
/// speaks of a lorebook is a lorebook on Chub, as any other is a character there.
pub proof fn identifier_names_its_site(a: Seq<char>, b: Seq<char>, uuid: Seq<char>)
    requires
        !a.contains('_'),
        b.contains('/'),
        !text::occurs("AICC/"@ + b, "_character"@),
        vstd::utf8::encode_utf8("AICC/"@ + b).len() != 36,
        !text::occurs(uuid, "_character"@),
    ensures
        content::source_named(a + "_character"@, false) == Some(SourceView::Janny(a)),
        content::source_named("AICC/"@ + b, false) == Some(SourceView::Aicc(b)),
        vstd::utf8::encode_utf8(uuid).len() == 36 ==> content::source_named(uuid, false) == Some(
            SourceView::Pygmalion(uuid),
        ),
        vstd::utf8::encode_utf8(uuid).len() != 36 && !text::begins(uuid, "AICC/"@)
            ==> content::source_named(uuid, false) == Some(
            if text::occurs(uuid, "lorebook"@) {
                SourceView::ChubLorebook(uuid)
            } else {
                SourceView::ChubCharacter(uuid)
            },
        ) && content::source_named(uuid, true) == Some(
            SourceView::Perchance(content::slug_of(uuid)),
        ),
{
    reveal_strlit("_character");
    reveal_strlit("_");
    reveal_strlit("AICC/");
    let s = a + "_character"@;
    assert(s.subrange(a.len() as int, (a.len() + 10) as int) =~= "_character"@);
    assert(text::has_at(s, "_character"@, a.len() as int));
    assert("_"@[0] == '_');
    let tail = "_character"@.skip(1);
    assert(s =~= a + "_"@ + tail);
    text_laws::parted_at_first(a, "_"@, tail);
    let t = "AICC/"@ + b;
    assert(t.subrange(0, 5) =~= "AICC/"@);
    assert(t.skip(5) =~= b);
}

proof fn two_parts(a: Seq<char>, b: Seq<char>)
    requires
        !a.contains('/'),
        !b.contains('/'),
    ensures
        text::pieces(a + seq!['/'] + b, '/') == seq![a, b],
{
    text_laws::first_piece_is_cut(a, '/', b);
    text_laws::first_piece_is_cut(b, '/', Seq::empty());
    assert(seq![a] + seq![b] =~= seq![a, b]);
}

/// A character on Chub is asked for by its creator and its name, a lorebook by its heading before
/// them, and the answer is to be in JSON.
pub proof fn chub_is_asked_for_both_names(a: Seq<char>, b: Seq<char>, heading: Seq<char>)
    requires
        !a.contains('/'),
        !b.contains('/'),
        !heading.contains('/'),
    ensures
        content::chub_character_order(a + seq!['/'] + b) matches Ok(q) && q.method == Method::Get
            && q.url == "https://api.chub.ai/api/characters/"@ + a + "/"@ + b + "?full=true"@
            && completion_laws::carries(q, "Accept"@, "application/json"@),
        content::chub_character_order(a) is Err,
        content::chub_lorebook_order(heading + seq!['/'] + (a + seq!['/'] + b)) matches Ok(q)
            && q.method == Method::Get && q.url == "https://api.chub.ai/api/"@ + heading + "/"@ + a
            + "/"@ + b && completion_laws::carries(q, "Accept"@, "application/json"@),
        content::chub_lorebook_order(a + seq!['/'] + b) is Err,
{
    two_parts(a, b);
    text_laws::first_piece_is_cut(heading, '/', a + seq!['/'] + b);
    text_laws::first_piece_is_cut(a, '/', Seq::empty());
    assert(seq![heading] + seq![a, b] =~= seq![heading, a, b]);
    let q = content::chub_character_order(a + seq!['/'] + b)->Ok_0;
    assert(q.headers[0] == ("Accept"@, "application/json"@));
    let p = content::chub_lorebook_order(heading + seq!['/'] + (a + seq!['/'] + b))->Ok_0;
    assert(p.headers[0] == ("Accept"@, "application/json"@));
}

/// JanitorAI is asked with the identifier of the character, and its address is used where the
/// answer says that all is well.
pub proof fn janny_is_asked_and_followed(id: Seq<char>, answer: Tree, url: Seq<char>)
    requires
        answer.text_at("downloadUrl"@) == Some(url),
    ensures
        content::janny_order(id).method == Method::Post,
        content::janny_order(id).url == "https://api.jannyai.com/api/v1/download"@,
        content::janny_order(id).payload is Json,
        content::janny_order(id).payload->Json_0.text_at("characterId"@) == Some(id),
        content::janny_address(Some(answer)) == if answer.text_at("status"@) == Some("ok"@) {
            Some(url)
        } else {
            None
        },
{
    reveal_with_fuel(json::position, 2);
}

/// The name of a downloaded file is the last part of the address, without what is asked behind it.
pub proof fn file_is_named_last(a: Seq<char>, name: Seq<char>, asked: Seq<char>)
    requires
        !a.contains('?'),
        !name.contains('?'),
        !name.contains('/'),
    ensures
        content::last_part(a + seq!['/'] + name) == name,
        content::last_part(a + seq!['/'] + name + "?"@ + asked) == name,
{
    reveal_strlit("?");
    let s = a + seq!['/'] + name;
    assert forall|i: int| 0 <= i < s.len() implies s[i] != '?' by {
        if i < a.len() {
            assert(a.contains(a[i]));
        } else if i > a.len() {
            assert(name.contains(name[i - a.len() - 1]));
        }
    }
    assert("?"@[0] == '?');
    text_laws::not_parted(s, "?"@);
    text_laws::parted_at_first(s, "?"@, asked);
    text_laws::last_piece_is_cut(a, '/', name);
}

/// A PNG picture without an extension is given one, and every other name is left alone.
pub proof fn picture_gets_extension(name: Seq<char>, kind: Seq<char>)
    requires
        kind != "image/png"@,
    ensures
        content::with_png(name, "image/png"@, false) == name + ".png"@,
        content::with_png(name, "image/png"@, true) == name,
        content::with_png(name, kind, false) == name,
        content::with_png(name, kind, true) == name,
{
}

/// A download is handed out with its bytes and its type as an attachment under its name, and the
/// client is told what kind of content it is.
pub proof fn download_is_handed_out(
    result: content::DownloadResult,
    kind: Seq<char>,
    media: Seq<char>,
)
    requires
        json::string_opt(result.file_type) == Some(media),
    ensures
        ({
            let plain = content::download_reply(result, kind, false);
            let encoded = content::download_reply(result, kind, true);
            &&& plain.status == 200 && encoded.status == 200
            &&& plain.payload == web::PayloadView::Bytes(media, result.buffer@)
            &&& encoded.payload == plain.payload
            &&& plain.headers.contains(
                ("content-disposition"@, "attachment; filename=\""@ + result.file_name@ + "\""@),
            )
            &&& encoded.headers.contains(
                (
                    "content-disposition"@,
                    "attachment; filename=\""@ + outside::percent_encoded(
                        vstd::utf8::encode_utf8(result.file_name@),
                    ) + "\""@,
                ),
            )
            &&& plain.headers.contains(("X-Custom-Content-Type"@, kind))
            &&& encoded.headers.contains(("X-Custom-Content-Type"@, kind))
        }),
{
    let plain = content::download_reply(result, kind, false);
    let encoded = content::download_reply(result, kind, true);
    assert(plain.headers[0].0 == "content-disposition"@);
    assert(encoded.headers[0].0 == "content-disposition"@);
    assert(plain.headers[1] == ("X-Custom-Content-Type"@, kind));
    assert(encoded.headers[1] == ("X-Custom-Content-Type"@, kind));
}

} // verus!
