//! Characters and lorebooks from other sites.

use crate::json;
use crate::json::{Fields, Json};
use crate::numbers;
use crate::outside;
use crate::sanitize;
use crate::secrets;
use crate::text;
use crate::web;
use crate::web::{Method, Outgoing, Reply, Upstream};
use vstd::prelude::*;

verus! {

/// What the requests to other sites say of who makes them.
pub const USER_AGENT: &'static str = "SillyTavern";

/// The address of what is to be imported.
#[derive(Debug)]
pub struct ImportUrlRequest {
    pub url: Option<String>,
}

/// The id of what is to be imported.
#[derive(Debug)]
pub struct ImportUuidRequest {
    pub url: Option<String>,
}

/// One of the groups of a match, where there is a match and it has that group.
pub open spec fn group(groups: Option<Seq<Option<Seq<char>>>>, i: int) -> Option<Seq<char>> {
    match groups {
        Some(g) => if 0 <= i < g.len() {
            g[i]
        } else {
            None
        },
        None => None,
    }
}

/// The groups of a match over plain values.
pub open spec fn groups_of(v: Option<Vec<Option<String>>>) -> Option<Seq<Option<Seq<char>>>> {
    match v {
        Some(g) => Some(outside::groups_view(g@)),
        None => None,
    }
}

fn group_text(groups: &Option<Vec<Option<String>>>, i: usize) -> (r: Option<String>)
    ensures
        json::string_opt(r) == group(groups_of(*groups), i as int),
{
    match groups {
        Some(g) => if i < g.len() {
            match &g[i] {
                Some(s) => Some(s.clone()),
                None => None,
            }
        } else {
            None
        },
        None => None,
    }
}

/// The expression for a UUID.
pub open spec fn uuid_pattern() -> Seq<char> {
    "[a-f0-9]{8}-[a-f0-9]{4}-[a-f0-9]{4}-[a-f0-9]{4}-[a-f0-9]{12}"@
}

/// The first UUID in an address.
pub fn get_uuid_from_url(url: &str) -> (r: Option<String>)
    ensures
        json::string_opt(r) == group(outside::regex_groups(uuid_pattern(), url@), 0),
{
    group_text(
        &outside::capture_groups(
            "[a-f0-9]{8}-[a-f0-9]{4}-[a-f0-9]{4}-[a-f0-9]{4}-[a-f0-9]{12}",
            url,
        ),
        0,
    )
}

/// The host of an address; empty where there is none.
pub open spec fn host_of(url: Seq<char>) -> Seq<char> {
    match outside::url_host(url) {
        Some(h) => secrets::or_empty(h),
        None => Seq::empty(),
    }
}

/// The host of an address.
pub fn get_host_from_url(url: &str) -> (r: String)
    ensures
        r@ == host_of(url@),
{
    match outside::parse_url(url) {
        Some(h) => secrets::unwrap_or_empty(h),
        None => String::new(),
    }
}

/// Whether a part of an address is the domain of Chub.
pub open spec fn chub_domain(s: Seq<char>) -> bool {
    s == "www.chub.ai"@ || s == "chub.ai"@ || s == "www.characterhub.org"@ || s
        == "characterhub.org"@
}

/// The position of the first part from the `i`th on that is the domain of Chub.
pub open spec fn domain_from(parts: Seq<Seq<char>>, i: int) -> Option<int>
    decreases parts.len() - i,
{
    if i < 0 || i >= parts.len() {
        None
    } else if chub_domain(parts[i]) {
        Some(i)
    } else {
        domain_from(parts, i + 1)
    }
}

/// The parts of an address behind the domain of Chub, or all of them.
pub open spec fn after_domain(parts: Seq<Seq<char>>) -> Seq<Seq<char>> {
    match domain_from(parts, 0) {
        Some(i) => parts.skip(i + 1),
        None => parts,
    }
}

/// What an address at Chub names: whether it is a character, or else a lorebook, and its id.
/// `first` is the first of the last parts in lower case.
pub open spec fn chub_target(parts: Seq<Seq<char>>, first: Seq<char>) -> Option<
    (bool, Seq<char>),
> {
    let last = after_domain(parts);
    if parts.len() < 2 || last.len() == 0 {
        None
    } else if first == "characters"@ {
        Some((true, text::joined(last.skip(1), "/"@)))
    } else if first == "lorebooks"@ {
        Some((false, text::joined(last, "/"@)))
    } else if parts.len() == 2 {
        Some((true, text::joined(last, "/"@)))
    } else {
        None
    }
}

/// What an address at Chub names.
pub open spec fn chub_of(url: Seq<char>) -> Option<(bool, Seq<char>)> {
    let parts = text::pieces(url, '/');
    let last = after_domain(parts);
    chub_target(
        parts,
        text::lowercase(
            if last.len() > 0 {
                last[0]
            } else {
                Seq::empty()
            },
        ),
    )
}

/// What is to be found at Chub: whether it is a character, or else a lorebook, and its id.
#[derive(Debug)]
pub struct ChubTarget {
    pub is_character: bool,
    pub id: String,
}

/// The target over plain values.
pub open spec fn chub_view(t: Option<ChubTarget>) -> Option<(bool, Seq<char>)> {
    match t {
        Some(c) => Some((c.is_character, c.id@)),
        None => None,
    }
}

fn parts_from(parts: &Vec<String>, from: usize) -> (r: Vec<String>)
    requires
        from <= parts@.len(),
    ensures
        json::texts(r@) == json::texts(parts@).skip(from as int),
{
    let mut out: Vec<String> = Vec::new();
    let mut i: usize = from;
    while i < parts.len()
        invariant
            from <= i <= parts@.len(),
            out@.len() == i - from,
            forall|j: int| 0 <= j < out@.len() ==> (#[trigger] out@[j])@ == parts@[from + j]@,
        decreases parts@.len() - i,
    {
        out.push(parts[i].clone());
        i += 1;
    }
    assert(json::texts(out@) =~= json::texts(parts@).skip(from as int));
    out
}

fn is_chub_domain(s: &str) -> (r: bool)
    ensures
        r == chub_domain(s@),
{
    text::same(s, "www.chub.ai") || text::same(s, "chub.ai") || text::same(
        s,
        "www.characterhub.org",
    ) || text::same(s, "characterhub.org")
}

fn drop_domain(parts: &Vec<String>) -> (r: Vec<String>)
    ensures
        json::texts(r@) == after_domain(json::texts(parts@)),
{
    let ghost all = json::texts(parts@);
    let mut i: usize = 0;
    while i < parts.len()
        invariant
            all == json::texts(parts@),
            i <= parts@.len(),
            domain_from(all, 0) == domain_from(all, i as int),
        decreases parts@.len() - i,
    {
        assert(all[i as int] == parts@[i as int]@);
        if is_chub_domain(&parts[i]) {
            return parts_from(parts, i + 1);
        }
        i += 1;
    }
    assert(all.skip(0) =~= all);
    parts_from(parts, 0)
}

/// What the parts of an address at Chub name, given the first of the last parts in lower
/// case.
pub fn find_chub_target(parts: &Vec<String>, first: &str) -> (r: Option<ChubTarget>)
    ensures
        chub_view(r) == chub_target(json::texts(parts@), first@),
{
    let last = drop_domain(parts);
    assert(json::texts(last@).len() == last@.len());
    assert(json::texts(parts@).len() == parts@.len());
    if parts.len() < 2 || last.len() == 0 {
        return None;
    }
    if text::same(first, "characters") {
        let id = text::join(&parts_from(&last, 1), "/");
        Some(ChubTarget { is_character: true, id })
    } else if text::same(first, "lorebooks") {
        Some(ChubTarget { is_character: false, id: text::join(&last, "/") })
    } else if parts.len() == 2 {
        Some(ChubTarget { is_character: true, id: text::join(&last, "/") })
    } else {
        None
    }
}

/// What an address at Chub names.
pub fn parse_chub_url(url: &str) -> (r: Option<ChubTarget>)
    ensures
        chub_view(r) == chub_of(url@),
{
    let parts = text::split(url, '/');
    let last = drop_domain(&parts);
    let first = if last.len() > 0 {
        assert(json::texts(last@)[0] == last@[0]@);
        text::to_lowercase(&last[0])
    } else {
        assert(json::texts(last@).len() == 0);
        text::to_lowercase(&String::new())
    };
    find_chub_target(&parts, &first)
}

/// The expression for a card at AICharacterCards, by its address or by its author and name.
pub open spec fn aicc_pattern() -> Seq<char> {
    "^https?://aicharactercards\\.com/character-cards/([^/]+)/([^/]+)/?$|([^/]+)/([^/]+)$"@
}

/// The author and name that the groups of a match give.
pub open spec fn aicc_of(groups: Option<Seq<Option<Seq<char>>>>) -> Option<Seq<char>> {
    match (group(groups, 1), group(groups, 2)) {
        (Some(a), Some(b)) => Some(a + "/"@ + b),
        _ => match (group(groups, 3), group(groups, 4)) {
            (Some(a), Some(b)) => Some(a + "/"@ + b),
            _ => None,
        },
    }
}

/// The author and name that the groups of a match give.
pub fn aicc_id(groups: &Option<Vec<Option<String>>>) -> (r: Option<String>)
    ensures
        json::string_opt(r) == aicc_of(groups_of(*groups)),
{
    match (group_text(groups, 1), group_text(groups, 2)) {
        (Some(a), Some(b)) => Some(text::join3(&a, "/", &b)),
        _ => match (group_text(groups, 3), group_text(groups, 4)) {
            (Some(a), Some(b)) => Some(text::join3(&a, "/", &b)),
            _ => None,
        },
    }
}

/// The author and name of the card at an address.
pub fn parse_aicc(url: &str) -> (r: Option<String>)
    ensures
        json::string_opt(r) == aicc_of(outside::regex_groups(aicc_pattern(), url@)),
{
    aicc_id(
        &outside::capture_groups(
            "^https?://aicharactercards\\.com/character-cards/([^/]+)/([^/]+)/?$|([^/]+)/([^/]+)$",
            url,
        ),
    )
}

/// The expression for a character at RisuAI.
pub open spec fn risu_pattern() -> Seq<char> {
    "(?i)^https?://realm\\.risuai\\.net/character/([a-f0-9-]+)/?$"@
}

/// The id of the character at an address at RisuAI.
pub fn parse_risu_url(url: &str) -> (r: Option<String>)
    ensures
        json::string_opt(r) == group(outside::regex_groups(risu_pattern(), url@), 1),
{
    group_text(
        &outside::capture_groups(
            "(?i)^https?://realm\\.risuai\\.net/character/([a-f0-9-]+)/?$",
            url,
        ),
        1,
    )
}

/// The expression for a character at Perchance.
pub open spec fn perchance_pattern() -> Seq<char> {
    "^\\w+~[a-f0-9]{32}\\.gz$"@
}

/// Whether a text is the id of a character at Perchance.
pub fn is_perchance_uuid(uuid: &str) -> (r: bool)
    ensures
        r == (uuid@.len() > 0 && outside::regex_groups(perchance_pattern(), uuid@) is Some),
{
    if uuid.is_empty() {
        return false;
    }
    outside::capture_groups("^\\w+~[a-f0-9]{32}\\.gz$", uuid).is_some()
}

/// The second of the parts of a text between tildes; empty where there is none.
pub open spec fn slug_of(url: Seq<char>) -> Seq<char> {
    let parts = text::pieces(url, '~');
    if parts.len() > 1 {
        parts[1]
    } else {
        Seq::empty()
    }
}

/// The file of a character at Perchance.
pub fn parse_perchance_slug(url: &str) -> (r: String)
    ensures
        r@ == slug_of(url@),
{
    let parts = text::split(url, '~');
    assert(json::texts(parts@).len() == parts@.len());
    if parts.len() > 1 {
        assert(json::texts(parts@)[1] == parts@[1]@);
        parts[1].clone()
    } else {
        String::new()
    }
}

/// What was downloaded.
#[derive(Debug)]
pub struct DownloadResult {
    pub buffer: Vec<u8>,
    pub file_name: String,
    pub file_type: Option<String>,
}

/// The file that something with a name is downloaded as.
pub open spec fn safe_file(name: Seq<char>, extension: Seq<char>) -> Seq<char> {
    sanitize::sanitized(name, ""@) + extension
}

/// The file that something with a name is downloaded as.
pub fn download_file_name(name: &str, extension: &str) -> (r: String)
    ensures
        r@ == safe_file(name@, extension@),
{
    text::join2(&sanitize::sanitize_filename_strip(name), extension)
}

/// A request for JSON.
pub open spec fn json_request(url: Seq<char>) -> web::OutgoingView {
    web::bare(Method::Get, url).with_header("Accept"@, "application/json"@)
}

/// The request for the metadata of a lorebook on Chub.
pub open spec fn chub_lorebook_order(id: Seq<char>) -> Result<web::OutgoingView, web::ReplyView> {
    let parts = text::pieces(id, '/');
    if parts.len() < 3 {
        Err(web::status_only(500))
    } else {
        Ok(
            json_request(
                "https://api.chub.ai/api/"@ + parts[0] + "/"@ + parts[1] + "/"@ + parts[2],
            ),
        )
    }
}

/// The request for what Chub knows of a lorebook; refused where the id has too few parts.
pub fn chub_lorebook_request(id: &str) -> (r: Result<Outgoing, Reply>)
    ensures
        web::outcome(r) == chub_lorebook_order(id@),
{
    let parts = text::split(id, '/');
    let ghost all = text::pieces(id@, '/');
    assert(all.len() == parts@.len());
    if parts.len() < 3 {
        return Err(Reply::empty(500));
    }
    assert(all[0] == parts@[0]@ && all[1] == parts@[1]@ && all[2] == parts@[2]@);
    let mut url = text::join3("https://api.chub.ai/api/", &parts[0], "/");
    url.push_str(&parts[1]);
    url.push_str("/");
    url.push_str(&parts[2]);
    Ok(Outgoing::new(Method::Get, url).header("Accept", "application/json"))
}

/// The number of a lorebook in what Chub knows of it.
pub open spec fn project_id(metadata: json::Tree) -> Option<i64> {
    match metadata.get("node"@) {
        Some(n) => match n.get("id"@) {
            Some(t) => match t.as_integer() {
                Some(i) => Some(i),
                None => match t {
                    json::Tree::Text(s) => numbers::i64_value(s),
                    _ => None,
                },
            },
            None => None,
        },
        None => None,
    }
}

/// A whole number as text.
pub open spec fn integer_text(n: i64) -> Seq<char> {
    if n >= 0 {
        text::decimal(n as nat)
    } else {
        "-"@ + text::decimal((-n) as nat)
    }
}

fn write_integer(n: i64) -> (r: String)
    ensures
        r@ == integer_text(n),
{
    if n >= 0 {
        text::decimal_text(n as u128)
    } else {
        let a: i128 = -(n as i128);
        text::join2("-", &text::decimal_text(a as u128))
    }
}

/// The JSON value of a successful answer.
pub open spec fn answered(u: web::UpstreamView) -> Option<json::Tree> {
    match u {
        web::UpstreamView::Got(s, _, p) => if web::success(s) {
            p
        } else {
            None
        },
        web::UpstreamView::Failed(_) => None,
    }
}

fn answer(u: Upstream) -> (r: Option<Json>)
    ensures
        web::owned_tree(r) == answered(u@),
{
    match u {
        Upstream::Got(s, _, p) => if web::is_success(s) {
            p
        } else {
            None
        },
        Upstream::Failed(_) => None,
    }
}

/// A file as another site sent it: the status, the media type that it is said to be of, the
/// address that it came from in the end, and its bytes where they could be read.
#[derive(Debug)]
pub struct FetchedFile {
    pub status: u16,
    pub media_type: Option<String>,
    pub final_url: String,
    pub data: Option<Vec<u8>>,
}

/// The bytes of a file that was sent; nothing where no answer came or it is an error.
pub open spec fn delivered(file: Option<FetchedFile>) -> Option<Seq<u8>> {
    match file {
        Some(f) => if web::success(f.status) {
            all_of(f)
        } else {
            None
        },
        None => None,
    }
}

/// The bytes of a file, whatever the status.
pub open spec fn all_of(file: FetchedFile) -> Option<Seq<u8>> {
    match file.data {
        Some(d) => Some(d@),
        None => None,
    }
}

/// The media type that a file is said to be of.
pub open spec fn said_type(file: Option<FetchedFile>) -> Option<Seq<char>> {
    match file {
        Some(f) => json::string_opt(f.media_type),
        None => None,
    }
}

/// Whether `r` is the download of bytes as a file; an error where there are none.
pub open spec fn downloads(
    r: Result<DownloadResult, Reply>,
    data: Option<Seq<u8>>,
    name: Seq<char>,
    file_type: Option<Seq<char>>,
) -> bool {
    match data {
        Some(d) => r matches Ok(x) && x.buffer@ == d && x.file_name@ == name && json::string_opt(
            x.file_type,
        ) == file_type,
        None => r matches Err(e) && e@ == web::status_only(500),
    }
}

fn keep_success(file: Option<FetchedFile>) -> (r: Option<FetchedFile>)
    ensures
        r is Some <==> file is Some && web::success(file->Some_0.status),
        r is Some ==> r == file,
{
    match file {
        Some(f) => if web::is_success(f.status) {
            Some(f)
        } else {
            None
        },
        None => None,
    }
}

fn make_download(data: Option<Vec<u8>>, file_name: String, file_type: Option<String>) -> (r: Result<
    DownloadResult,
    Reply,
>)
    ensures
        downloads(
            r,
            match data {
                Some(d) => Some(d@),
                None => None,
            },
            file_name@,
            json::string_opt(file_type),
        ),
{
    match data {
        Some(buffer) => Ok(DownloadResult { buffer, file_name, file_type }),
        None => Err(Reply::empty(500)),
    }
}

/// The request for a lorebook itself, given what Chub knows of it.
pub fn chub_lorebook_download(u: Upstream) -> (r: Result<Outgoing, Reply>)
    ensures
        web::outcome(r) == match answered(u@) {
            Some(m) => match project_id(m) {
                Some(n) => Ok(
                    json_request(
                        "https://api.chub.ai/api/v4/projects/"@ + integer_text(n)
                            + "/repository/files/raw%252Fsillytavern_raw.json/raw"@,
                    ),
                ),
                None => Err(web::status_only(500)),
            },
            None => Err(web::status_only(500)),
        },
{
    let metadata = match answer(u) {
        Some(m) => m,
        None => return Err(Reply::empty(500)),
    };
    let id: Option<i64> = match metadata.get("node") {
        Some(n) => match n.get("id") {
            Some(t) => match t.as_i64() {
                Some(i) => Some(i),
                None => match t.as_str() {
                    Some(s) => numbers::parse_i64(s),
                    None => None,
                },
            },
            None => None,
        },
        None => None,
    };
    match id {
        Some(n) => {
            let url = text::join3(
                "https://api.chub.ai/api/v4/projects/",
                &write_integer(n),
                "/repository/files/raw%252Fsillytavern_raw.json/raw",
            );
            Ok(Outgoing::new(Method::Get, url).header("Accept", "application/json"))
        },
        None => Err(Reply::empty(500)),
    }
}

/// The file that a lorebook is downloaded as: after the last part of its id.
pub fn lorebook_file_name(id: &str) -> (r: String)
    ensures
        r@ == safe_file(text::pieces(id@, '/').last(), ".json"@),
{
    let parts = text::split(id, '/');
    let n: usize = parts.len();
    proof {
        text::pieces_not_empty(id@, '/', 0);
        assert(json::texts(parts@).len() == n);
        assert(text::pieces(id@, '/').last() == parts@[n as int - 1]@);
    }
    download_file_name(&parts[n - 1], ".json")
}

/// A lorebook from Chub, given the file that was sent.
pub fn download_chub_lorebook(id: &str, file: Option<FetchedFile>) -> (r: Result<
    DownloadResult,
    Reply,
>)
    ensures
        downloads(
            r,
            delivered(file),
            safe_file(text::pieces(id@, '/').last(), ".json"@),
            said_type(file),
        ),
{
    match keep_success(file) {
        Some(f) => make_download(f.data, lorebook_file_name(id), f.media_type),
        None => Err(Reply::empty(500)),
    }
}

/// The request for a character on Chub.
pub open spec fn chub_character_order(id: Seq<char>) -> Result<web::OutgoingView, web::ReplyView> {
    let parts = text::pieces(id, '/');
    if parts.len() < 2 {
        Err(web::status_only(500))
    } else {
        Ok(
            json_request(
                "https://api.chub.ai/api/characters/"@ + parts[0] + "/"@ + parts[1]
                    + "?full=true"@,
            ),
        )
    }
}

/// The request for what Chub knows of a character; refused where the id has too few parts.
pub fn chub_character_request(id: &str) -> (r: Result<Outgoing, Reply>)
    ensures
        web::outcome(r) == chub_character_order(id@),
{
    let parts = text::split(id, '/');
    let ghost all = text::pieces(id@, '/');
    assert(all.len() == parts@.len());
    if parts.len() < 2 {
        return Err(Reply::empty(500));
    }
    assert(all[0] == parts@[0]@ && all[1] == parts@[1]@);
    let mut url = text::join3("https://api.chub.ai/api/characters/", &parts[0], "/");
    url.push_str(&parts[1]);
    url.push_str("?full=true");
    Ok(Outgoing::new(Method::Get, url).header("Accept", "application/json"))
}

/// The value under a key, or `null`.
pub open spec fn member(t: json::Tree, k: Seq<char>) -> json::Tree {
    json::tree_or(t.get(k), json::Tree::Null)
}

/// The card of a character from Chub by its author.
pub open spec fn chub_card(metadata: json::Tree, creator: Seq<char>) -> json::Tree {
    let node = member(metadata, "node"@);
    let d = member(node, "definition"@);
    json::Tree::Object(
        json::members()
            .push((
                "data"@,
                json::Tree::Object(
                    json::members()
                        .push(("name"@, member(d, "name"@)))
                        .push(("description"@, member(d, "personality"@)))
                        .push(("personality"@, member(d, "tavern_personality"@)))
                        .push(("scenario"@, member(d, "scenario"@)))
                        .push(("first_mes"@, member(d, "first_message"@)))
                        .push(("mes_example"@, member(d, "example_dialogs"@)))
                        .push(("creator_notes"@, member(d, "description"@)))
                        .push(("system_prompt"@, member(d, "system_prompt"@)))
                        .push((
                            "post_history_instructions"@,
                            member(d, "post_history_instructions"@),
                        ))
                        .push(("alternate_greetings"@, member(d, "alternate_greetings"@)))
                        .push(("tags"@, member(node, "topics"@)))
                        .push(("creator"@, json::txt(creator)))
                        .push(("character_version"@, json::txt(Seq::empty())))
                        .push(("character_book"@, member(d, "embedded_lorebook"@)))
                        .push(("extensions"@, member(d, "extensions"@))),
                ),
            ))
            .push(("spec"@, json::txt("chara_card_v2"@)))
            .push(("spec_version"@, json::txt("2.0"@))),
    )
}

/// The card that is downloaded and the name of its file.
#[derive(Debug)]
pub struct DownloadedCard {
    pub card: Json,
    pub file_name: String,
}

/// The name of a character from Chub.
pub open spec fn chub_name(metadata: json::Tree) -> Seq<char> {
    member(member(metadata, "node"@), "definition"@).text_or("name"@, "Unknown"@)
}

/// The card of a character from Chub, given what Chub knows of it.
pub fn download_chub_character(id: &str, u: Upstream) -> (r: Result<DownloadedCard, Reply>)
    ensures
        match answered(u@) {
            Some(m) => r matches Ok(c) && c.card@ == chub_card(m, text::pieces(id@, '/')[0])
                && c.file_name@ == safe_file(chub_name(m), ".json"@),
            None => r matches Err(e) && e@ == web::status_only(500),
        },
{
    let metadata = match answer(u) {
        Some(m) => m,
        None => return Err(Reply::empty(500)),
    };
    let parts = text::split(id, '/');
    proof {
        text::pieces_not_empty(id@, '/', 0);
        assert(json::texts(parts@).len() == parts@.len());
        assert(text::pieces(id@, '/')[0] == parts@[0]@);
    }
    let node = metadata.get_or("node", Json::Null);
    let d = node.get_or("definition", Json::Null);
    let data = Fields::new()
        .with("name", d.get_or("name", Json::Null))
        .with("description", d.get_or("personality", Json::Null))
        .with("personality", d.get_or("tavern_personality", Json::Null))
        .with("scenario", d.get_or("scenario", Json::Null))
        .with("first_mes", d.get_or("first_message", Json::Null))
        .with("mes_example", d.get_or("example_dialogs", Json::Null))
        .with("creator_notes", d.get_or("description", Json::Null))
        .with("system_prompt", d.get_or("system_prompt", Json::Null))
        .with("post_history_instructions", d.get_or("post_history_instructions", Json::Null))
        .with("alternate_greetings", d.get_or("alternate_greetings", Json::Null))
        .with("tags", node.get_or("topics", Json::Null))
        .with("creator", Json::text(&parts[0]))
        .with("character_version", Json::Text(String::new()))
        .with("character_book", d.get_or("embedded_lorebook", Json::Null))
        .with("extensions", d.get_or("extensions", Json::Null));
    let card = Fields::new()
        .with("data", data.done())
        .with("spec", Json::text("chara_card_v2"))
        .with("spec_version", Json::text("2.0"))
        .done();
    Ok(DownloadedCard { card, file_name: download_file_name(d.str_or("name", "Unknown"), ".json") })
}

/// The request for a character at Pygmalion.
pub fn pygmalion_request(id: &str) -> (r: Outgoing)
    ensures
        r@ == web::bare(
            Method::Get,
            "https://server.pygmalion.chat/api/export/character/"@ + id@ + "/v2"@,
        ),
{
    Outgoing::new(
        Method::Get,
        text::join3("https://server.pygmalion.chat/api/export/character/", id, "/v2"),
    )
}

/// A character from Pygmalion; refused where the answer holds none.
pub fn download_pygmalion_character(id: &str, u: Upstream) -> (r: Result<DownloadedCard, Reply>)
    ensures
        match answered(u@) {
            Some(m) => if m.get("character"@) is Some {
                r matches Ok(c) && c.card@ == m && c.file_name@ == safe_file(id@, ".json"@)
            } else {
                r matches Err(e) && e@ == web::status_only(500)
            },
            None => r matches Err(e) && e@ == web::status_only(500),
        },
{
    match answer(u) {
        Some(m) => if m.get("character").is_some() {
            Ok(DownloadedCard { card: m, file_name: download_file_name(id, ".json") })
        } else {
            Err(Reply::empty(500))
        },
        None => Err(Reply::empty(500)),
    }
}

/// The request for the address of a character on JanitorAI.
pub open spec fn janny_order(uuid: Seq<char>) -> web::OutgoingView {
    web::bare(Method::Post, "https://api.jannyai.com/api/v1/download"@).with_json(
        json::Tree::Object(json::members().push(("characterId"@, json::txt(uuid)))),
    )
}

/// The request for where a character at JanitorAI is.
pub fn janny_request(uuid: &str) -> (r: Outgoing)
    ensures
        r@ == janny_order(uuid@),
{
    Outgoing::new(Method::Post, "https://api.jannyai.com/api/v1/download".to_owned()).json(
        Fields::new().with("characterId", Json::text(uuid)).done(),
    )
}

/// The address that JanitorAI gives for a character.
pub open spec fn janny_address(answer: Option<json::Tree>) -> Option<Seq<char>> {
    match answer {
        Some(m) => if m.text_at("status"@) == Some("ok"@) {
            m.text_at("downloadUrl"@)
        } else {
            None
        },
        None => None,
    }
}

/// The request for a character at JanitorAI, given where it is.
pub fn janny_download(u: Upstream) -> (r: Result<Outgoing, Reply>)
    ensures
        web::outcome(r) == match janny_address(answered(u@)) {
            Some(url) => Ok(web::bare(Method::Get, url)),
            None => Err(web::status_only(500)),
        },
{
    let m = match answer(u) {
        Some(m) => m,
        None => return Err(Reply::empty(500)),
    };
    let fine = match m.str_at("status") {
        Some(s) => text::same(s, "ok"),
        None => false,
    };
    if !fine {
        return Err(Reply::empty(500));
    }
    match m.str_at("downloadUrl") {
        Some(url) => Ok(Outgoing::new(Method::Get, url.to_owned())),
        None => Err(Reply::empty(500)),
    }
}

/// A character from JanitorAI, given the picture that was sent; its status is not looked at.
pub fn download_janny_character(uuid: &str, file: Option<FetchedFile>) -> (r: Result<
    DownloadResult,
    Reply,
>)
    ensures
        downloads(
            r,
            match file {
                Some(f) => all_of(f),
                None => None,
            },
            safe_file(uuid@, ".png"@),
            said_type(file),
        ),
{
    match file {
        Some(f) => make_download(f.data, download_file_name(uuid, ".png"), f.media_type),
        None => Err(Reply::empty(500)),
    }
}

/// The request for a card at AICharacterCards.
pub fn aicc_request(id: &str) -> (r: Outgoing)
    ensures
        r@ == web::bare(
            Method::Get,
            "https://aicharactercards.com/wp-json/pngapi/v1/image/"@ + id@,
        ),
{
    Outgoing::new(
        Method::Get,
        text::join2("https://aicharactercards.com/wp-json/pngapi/v1/image/", id),
    )
}

/// A character from AICharacterCards, given the picture that was sent; one of no type is taken
/// for a PNG file.
pub fn download_aicc_character(id: &str, file: Option<FetchedFile>) -> (r: Result<
    DownloadResult,
    Reply,
>)
    ensures
        downloads(
            r,
            delivered(file),
            safe_file(id@, ".png"@),
            Some(secrets::text_or(said_type(file), "image/png"@)),
        ),
{
    match keep_success(file) {
        Some(f) => {
            let kind = secrets::unwrap_or(&f.media_type, "image/png");
            make_download(f.data, download_file_name(id, ".png"), Some(kind))
        },
        None => Err(Reply::empty(500)),
    }
}

/// The request for a character at RisuAI.
pub fn risu_request(uuid: &str) -> (r: Outgoing)
    ensures
        r@ == web::bare(
            Method::Get,
            "https://realm.risuai.net/api/v1/download/png-v3/"@ + uuid@ + "?non_commercial=true"@,
        ),
{
    Outgoing::new(
        Method::Get,
        text::join3(
            "https://realm.risuai.net/api/v1/download/png-v3/",
            uuid,
            "?non_commercial=true",
        ),
    )
}

/// A character from RisuAI, given the picture that was sent.
pub fn download_risu_character(uuid: &str, file: Option<FetchedFile>) -> (r: Result<
    DownloadResult,
    Reply,
>)
    ensures
        downloads(r, delivered(file), safe_file(uuid@, ".png"@), Some("image/png"@)),
{
    match keep_success(file) {
        Some(f) => make_download(
            f.data,
            download_file_name(uuid, ".png"),
            Some("image/png".to_owned()),
        ),
        None => Err(Reply::empty(500)),
    }
}

/// The address of a character at Perchance.
pub open spec fn perchance_address(slug: Seq<char>) -> Seq<char> {
    "https://user.uploads.dev/file/"@ + slug
}

/// The request for a character at Perchance; refused where none is named.
pub fn perchance_request(slug: &str) -> (r: Result<Outgoing, Reply>)
    ensures
        web::outcome(r) == if slug@.len() == 0 {
            Err(web::status_only(500))
        } else {
            Ok(
                web::bare(Method::Get, perchance_address(slug@)).with_header(
                    "Content-Type"@,
                    "application/json"@,
                ),
            )
        },
{
    if slug.is_empty() {
        return Err(Reply::empty(500));
    }
    let url = text::join2("https://user.uploads.dev/file/", slug);
    Ok(Outgoing::new(Method::Get, url).header("Content-Type", "application/json"))
}

/// The text of a character from Perchance, given the file that was sent; refused where that is
/// none.
pub fn perchance_text(file: Option<FetchedFile>) -> (r: Result<String, Reply>)
    ensures
        ({
            let content = match delivered(file) {
                Some(d) => outside::gunzipped(d),
                None => None,
            };
            match r {
                Ok(s) => content == Some(s@),
                Err(e) => content is None && e@ == web::status_only(500),
            }
        }),
{
    match keep_success(file) {
        Some(f) => match f.data {
            Some(data) => match outside::gunzip_text(&data) {
                Some(s) => Ok(s),
                None => Err(Reply::empty(500)),
            },
            None => Err(Reply::empty(500)),
        },
        None => Err(Reply::empty(500)),
    }
}

/// The name of a character from Perchance.
pub open spec fn perchance_name(c: json::Tree) -> Seq<char> {
    c.text_or("name"@, "Unnamed Perchance Character"@)
}

/// The card of a character from Perchance.
pub open spec fn perchance_card(c: json::Tree, slug: Seq<char>) -> json::Tree {
    let origin = json::Tree::Object(
        json::members()
            .push(("slug"@, json::txt(slug)))
            .push(("char_url"@, json::txt(perchance_address(slug))))
            .push(("uuid"@, member(c, "uuid"@))),
    );
    json::Tree::Object(
        json::members()
            .push(("spec"@, json::txt("chara_card_v2"@)))
            .push(("spec_version"@, json::txt("2.0"@)))
            .push((
                "data"@,
                json::Tree::Object(
                    json::members()
                        .push(("name"@, json::txt(perchance_name(c))))
                        .push(("first_mes"@, json::txt(Seq::empty())))
                        .push(("tags"@, json::Tree::Array(Seq::empty())))
                        .push(("description"@, json::txt(c.text_or("roleInstruction"@, ""@))))
                        .push(("creator"@, json::txt(c.text_or("metaTitle"@, ""@))))
                        .push(("creator_notes"@, json::txt(c.text_or("metaDescription"@, ""@))))
                        .push(("alternate_greetings"@, json::Tree::Array(Seq::empty())))
                        .push(("character_version"@, json::txt(Seq::empty())))
                        .push(("mes_example"@, json::txt(Seq::empty())))
                        .push(("post_history_instructions"@, json::txt(Seq::empty())))
                        .push(("system_prompt"@, json::txt(Seq::empty())))
                        .push(("scenario"@, json::txt(Seq::empty())))
                        .push(("personality"@, json::txt(c.text_or("reminderMessage"@, ""@))))
                        .push((
                            "extensions"@,
                            json::Tree::Object(
                                json::members().push(("perchance_data"@, origin)),
                            ),
                        )),
                ),
            )),
    )
}

/// The card of a character from Perchance; refused where the answer holds none. `data` is the
/// JSON value of the answer, where it is one.
pub fn download_perchance_character(slug: &str, data: Option<&Json>) -> (r: Result<
    DownloadedCard,
    Reply,
>)
    ensures
        match r {
            Ok(x) => data is Some && data->Some_0@.get("addCharacter"@) is Some && {
                let c = data->Some_0@.get("addCharacter"@)->Some_0;
                x.card@ == perchance_card(c, slug@) && x.file_name@ == perchance_name(c)
                    + ".json"@
            },
            Err(e) => e@ == web::status_only(500) && (data is None || data->Some_0@.get(
                "addCharacter"@,
            ) is None),
        },
{
    let c = match data {
        Some(d) => match d.get("addCharacter") {
            Some(c) => c,
            None => return Err(Reply::empty(500)),
        },
        None => return Err(Reply::empty(500)),
    };
    let name = c.str_or("name", "Unnamed Perchance Character");
    let url = text::join2("https://user.uploads.dev/file/", slug);
    let origin = Fields::new()
        .with("slug", Json::text(slug))
        .with("char_url", Json::Text(url))
        .with("uuid", c.get_or("uuid", Json::Null));
    let data = Fields::new()
        .with("name", Json::text(name))
        .with("first_mes", Json::Text(String::new()))
        .with("tags", Json::no_items())
        .with("description", Json::text(c.str_or("roleInstruction", "")))
        .with("creator", Json::text(c.str_or("metaTitle", "")))
        .with("creator_notes", Json::text(c.str_or("metaDescription", "")))
        .with("alternate_greetings", Json::no_items())
        .with("character_version", Json::Text(String::new()))
        .with("mes_example", Json::Text(String::new()))
        .with("post_history_instructions", Json::Text(String::new()))
        .with("system_prompt", Json::Text(String::new()))
        .with("scenario", Json::Text(String::new()))
        .with("personality", Json::text(c.str_or("reminderMessage", "")))
        .with("extensions", Fields::new().with("perchance_data", origin.done()).done());
    let card = Fields::new()
        .with("spec", Json::text("chara_card_v2"))
        .with("spec_version", Json::text("2.0"))
        .with("data", data.done())
        .done();
    Ok(DownloadedCard { card, file_name: text::join2(name, ".json") })
}

/// The last part of an address before what is asked of it.
pub open spec fn last_part(url: Seq<char>) -> Seq<char> {
    let path = match text::parted(url, "?"@) {
        Some(p) => p.0,
        None => url,
    };
    text::pieces(path, '/').last()
}

/// The name of a downloaded file with an extension, where it is a PNG file without one. `dotted`
/// says whether it has one.
pub open spec fn with_png(name: Seq<char>, file_type: Seq<char>, dotted: bool) -> Seq<char> {
    if file_type == "image/png"@ && !dotted {
        name + ".png"@
    } else {
        name
    }
}

/// The file that something from another site is downloaded as, given the address that it came
/// from in the end.
pub open spec fn generic_name(final_url: Seq<char>, file_type: Seq<char>) -> Seq<char> {
    let name = sanitize::sanitized(last_part(final_url), ""@);
    with_png(name, file_type, outside::regex_groups("\\.(\\w+)$"@, name) is Some)
}

/// The file that something from another site is downloaded as, given the address that it came
/// from in the end.
pub fn generic_file_name(final_url: &str, file_type: &str) -> (r: String)
    ensures
        r@ == generic_name(final_url@, file_type@),
{
    let path = match text::split_once(final_url, "?") {
        Some(p) => p.0,
        None => final_url.to_owned(),
    };
    let parts = text::split(&path, '/');
    let n: usize = parts.len();
    proof {
        text::pieces_not_empty(path@, '/', 0);
        assert(json::texts(parts@).len() == n);
        assert(text::pieces(path@, '/').last() == parts@[n as int - 1]@);
    }
    let name = sanitize::sanitize_filename_strip(&parts[n - 1]);
    let dotted = outside::capture_groups("\\.(\\w+)$", &name).is_some();
    add_png(&name, file_type, dotted)
}

/// A picture from another site, given the file that was sent; one of no type is taken for a PNG
/// file.
pub fn download_generic_png(file: Option<FetchedFile>) -> (r: Result<DownloadResult, Reply>)
    ensures
        ({
            let kind = secrets::text_or(said_type(file), "image/png"@);
            let from = match file {
                Some(f) => f.final_url@,
                None => Seq::empty(),
            };
            downloads(r, delivered(file), generic_name(from, kind), Some(kind))
        }),
{
    match keep_success(file) {
        Some(f) => {
            let kind = secrets::unwrap_or(&f.media_type, "image/png");
            let name = generic_file_name(&f.final_url, &kind);
            make_download(f.data, name, Some(kind))
        },
        None => Err(Reply::empty(500)),
    }
}

/// The name of a downloaded file with an extension, where it is a PNG file without one.
pub fn add_png(name: &str, file_type: &str, has_extension: bool) -> (r: String)
    ensures
        r@ == with_png(name@, file_type@, has_extension),
{
    if text::same(file_type, "image/png") && !has_extension {
        text::join2(name, ".png")
    } else {
        name.to_owned()
    }
}

/// Where something is imported from.
#[derive(Debug)]
pub enum Source {
    Pygmalion(String),
    Janny(String),
    Aicc(String),
    ChubCharacter(String),
    ChubLorebook(String),
    Risu(String),
    Perchance(String),
    Generic(String),
}

/// What a [`Source`] is.
pub enum SourceView {
    Pygmalion(Seq<char>),
    Janny(Seq<char>),
    Aicc(Seq<char>),
    ChubCharacter(Seq<char>),
    ChubLorebook(Seq<char>),
    Risu(Seq<char>),
    Perchance(Seq<char>),
    Generic(Seq<char>),
}

impl Source {
    pub open spec fn view(&self) -> SourceView {
        match self {
            Source::Pygmalion(s) => SourceView::Pygmalion(s@),
            Source::Janny(s) => SourceView::Janny(s@),
            Source::Aicc(s) => SourceView::Aicc(s@),
            Source::ChubCharacter(s) => SourceView::ChubCharacter(s@),
            Source::ChubLorebook(s) => SourceView::ChubLorebook(s@),
            Source::Risu(s) => SourceView::Risu(s@),
            Source::Perchance(s) => SourceView::Perchance(s@),
            Source::Generic(s) => SourceView::Generic(s@),
        }
    }

    /// What is imported.
    pub fn content_type(&self) -> (r: &'static str)
        ensures
            r@ == if self is ChubLorebook {
                "lorebook"@
            } else {
                "character"@
            },
    {
        match self {
            Source::ChubLorebook(_) => "lorebook",
            _ => "character",
        }
    }
}

/// What was found in an address: a UUID, a card at AICharacterCards, a target at Chub and a
/// character at RisuAI.
#[derive(Debug)]
pub struct AddressParts {
    pub uuid: Option<String>,
    pub aicc: Option<String>,
    pub chub: Option<ChubTarget>,
    pub risu: Option<String>,
}

/// What an [`AddressParts`] is.
pub struct AddressView {
    pub uuid: Option<Seq<char>>,
    pub aicc: Option<Seq<char>>,
    pub chub: Option<(bool, Seq<char>)>,
    pub risu: Option<Seq<char>>,
}

impl AddressParts {
    pub open spec fn view(&self) -> AddressView {
        AddressView {
            uuid: json::string_opt(self.uuid),
            aicc: json::string_opt(self.aicc),
            chub: chub_view(self.chub),
            risu: json::string_opt(self.risu),
        }
    }
}

/// Where an address at a host leads, where the site is known or welcome.
pub open spec fn source_at(
    url: Seq<char>,
    host: Seq<char>,
    found: AddressView,
    whitelist: Seq<Seq<char>>,
) -> Option<SourceView> {
    if text::occurs(host, "pygmalion.chat"@) {
        match found.uuid {
            Some(u) => Some(SourceView::Pygmalion(u)),
            None => None,
        }
    } else if text::occurs(host, "janitorai"@) {
        match found.uuid {
            Some(u) => Some(SourceView::Janny(u)),
            None => None,
        }
    } else if text::occurs(host, "aicharactercards.com"@) {
        match found.aicc {
            Some(u) => Some(SourceView::Aicc(u)),
            None => None,
        }
    } else if text::occurs(host, "chub.ai"@) || text::occurs(host, "characterhub.org"@) {
        match found.chub {
            Some((true, id)) => Some(SourceView::ChubCharacter(id)),
            Some((false, id)) => Some(SourceView::ChubLorebook(id)),
            None => None,
        }
    } else if text::occurs(host, "realm.risuai.net"@) {
        match found.risu {
            Some(u) => Some(SourceView::Risu(u)),
            None => None,
        }
    } else if text::occurs(host, "perchance.org"@) {
        if slug_of(url).len() == 0 {
            None
        } else {
            Some(SourceView::Perchance(slug_of(url)))
        }
    } else if whitelist.contains(host) {
        Some(SourceView::Generic(url))
    } else {
        None
    }
}

/// The source over plain values.
pub open spec fn source_view(s: Option<Source>) -> Option<SourceView> {
    match s {
        Some(x) => Some(x@),
        None => None,
    }
}

/// Where an address at a host leads, given what was found in it.
pub fn find_source(url: &str, host: &str, found: AddressParts, whitelist: &Vec<String>) -> (r: Option<
    Source,
>)
    ensures
        source_view(r) == source_at(url@, host@, found@, json::texts(whitelist@)),
{
    if text::contains(host, "pygmalion.chat") {
        match found.uuid {
            Some(u) => Some(Source::Pygmalion(u)),
            None => None,
        }
    } else if text::contains(host, "janitorai") {
        match found.uuid {
            Some(u) => Some(Source::Janny(u)),
            None => None,
        }
    } else if text::contains(host, "aicharactercards.com") {
        match found.aicc {
            Some(u) => Some(Source::Aicc(u)),
            None => None,
        }
    } else if text::contains(host, "chub.ai") || text::contains(host, "characterhub.org") {
        match found.chub {
            Some(t) => if t.is_character {
                Some(Source::ChubCharacter(t.id))
            } else {
                Some(Source::ChubLorebook(t.id))
            },
            None => None,
        }
    } else if text::contains(host, "realm.risuai.net") {
        match found.risu {
            Some(u) => Some(Source::Risu(u)),
            None => None,
        }
    } else if text::contains(host, "perchance.org") {
        let slug = parse_perchance_slug(url);
        if slug.as_str().is_empty() {
            None
        } else {
            Some(Source::Perchance(slug))
        }
    } else if crate::naming::is_taken(host, whitelist) {
        Some(Source::Generic(url.to_owned()))
    } else {
        None
    }
}

/// What is found in an address.
pub open spec fn parts_of(url: Seq<char>) -> AddressView {
    AddressView {
        uuid: group(outside::regex_groups(uuid_pattern(), url), 0),
        aicc: aicc_of(outside::regex_groups(aicc_pattern(), url)),
        chub: chub_of(url),
        risu: group(outside::regex_groups(risu_pattern(), url), 1),
    }
}

/// Where an address that is to be imported from leads; refused where none is given or the
/// site is neither known nor welcome.
pub fn import_url(body: &ImportUrlRequest, whitelist: &Vec<String>) -> (r: Result<Source, Reply>)
    ensures
        match secrets::filled(json::string_opt(body.url)) {
            Some(url) => {
                let source = source_at(url, host_of(url), parts_of(url), json::texts(whitelist@));
                match r {
                    Ok(s) => source == Some(s@),
                    Err(e) => source is None && e@ == web::status_only(404),
                }
            },
            None => r matches Err(e) && e@ == web::status_only(400),
        },
{
    let url = match secrets::non_empty(&body.url) {
        Some(u) => u,
        None => return Err(Reply::empty(400)),
    };
    let host = get_host_from_url(url);
    let found = AddressParts {
        uuid: get_uuid_from_url(url),
        aicc: parse_aicc(url),
        chub: parse_chub_url(url),
        risu: parse_risu_url(url),
    };
    match find_source(url, &host, found, whitelist) {
        Some(s) => Ok(s),
        None => Err(Reply::empty(404)),
    }
}

/// The part of a text before its first `_`.
pub open spec fn before_underscore(s: Seq<char>) -> Seq<char> {
    match text::parted(s, "_"@) {
        Some(p) => p.0,
        None => s,
    }
}

/// What an id names; nothing where it is one of AICharacterCards without an author. `perchance`
/// says whether it is one of Perchance.
pub open spec fn source_named(uuid: Seq<char>, perchance: bool) -> Option<SourceView> {
    if text::occurs(uuid, "_character"@) {
        Some(SourceView::Janny(before_underscore(uuid)))
    } else if vstd::utf8::encode_utf8(uuid).len() == 36 {
        Some(SourceView::Pygmalion(uuid))
    } else if text::begins(uuid, "AICC/"@) {
        if text::after_prefix(uuid, "AICC/"@)->Some_0.contains('/') {
            Some(SourceView::Aicc(text::after_prefix(uuid, "AICC/"@)->Some_0))
        } else {
            None
        }
    } else if perchance {
        Some(SourceView::Perchance(slug_of(uuid)))
    } else if text::occurs(uuid, "lorebook"@) {
        Some(SourceView::ChubLorebook(uuid))
    } else {
        Some(SourceView::ChubCharacter(uuid))
    }
}

/// What an id names, given whether it is one of Perchance.
pub fn find_named_source(uuid: &str, perchance: bool) -> (r: Option<Source>)
    ensures
        source_view(r) == source_named(uuid@, perchance),
{
    if text::contains(uuid, "_character") {
        return Some(
            Source::Janny(
                match text::split_once(uuid, "_") {
                    Some(p) => p.0,
                    None => uuid.to_owned(),
                },
            ),
        );
    }
    let bytes = uuid.as_bytes();
    if bytes.len() == 36 {
        return Some(Source::Pygmalion(uuid.to_owned()));
    }
    match text::strip_prefix(uuid, "AICC/") {
        Some(rest) => {
            return if text::contains_char(&rest, '/') {
                Some(Source::Aicc(rest))
            } else {
                None
            };
        },
        None => {},
    }
    if perchance {
        Some(Source::Perchance(parse_perchance_slug(uuid)))
    } else if text::contains(uuid, "lorebook") {
        Some(Source::ChubLorebook(uuid.to_owned()))
    } else {
        Some(Source::ChubCharacter(uuid.to_owned()))
    }
}

/// What an id that is to be imported names.
pub fn import_uuid(body: &ImportUuidRequest) -> (r: Result<Source, Reply>)
    ensures
        match secrets::filled(json::string_opt(body.url)) {
            Some(uuid) => {
                let source = source_named(
                    uuid,
                    outside::regex_groups(perchance_pattern(), uuid) is Some,
                );
                match r {
                    Ok(s) => source == Some(s@),
                    Err(e) => source is None && e@ == web::status_only(500),
                }
            },
            None => r matches Err(e) && e@ == web::status_only(400),
        },
{
    let uuid = match secrets::non_empty(&body.url) {
        Some(u) => u,
        None => return Err(Reply::empty(400)),
    };
    match find_named_source(uuid, is_perchance_uuid(uuid)) {
        Some(s) => Ok(s),
        None => Err(Reply::empty(500)),
    }
}

/// What an id that is imported is said to be.
pub fn uuid_type(uuid: &str) -> (r: &'static str)
    ensures
        r@ == if text::occurs(uuid@, "lorebook"@) {
            "lorebook"@
        } else {
            "character"@
        },
{
    if text::contains(uuid, "lorebook") {
        "lorebook"
    } else {
        "character"
    }
}

/// The reply that hands a download to the client.
pub open spec fn download_reply(
    result: DownloadResult,
    content_type: Seq<char>,
    encode_filename: bool,
) -> web::ReplyView {
    let name = if encode_filename {
        outside::percent_encoded(vstd::utf8::encode_utf8(result.file_name@))
    } else {
        result.file_name@
    };
    web::ReplyView {
        status: 200,
        headers: Seq::empty()
            .push(("content-disposition"@, "attachment; filename=\""@ + name + "\""@))
            .push(("X-Custom-Content-Type"@, content_type)),
        payload: web::PayloadView::Bytes(
            secrets::or_empty(json::string_opt(result.file_type)),
            result.buffer@,
        ),
    }
}

/// The answer with a downloaded file; its name may be encoded for an address.
pub fn build_download_response(
    result: DownloadResult,
    content_type: &str,
    encode_filename: bool,
) -> (r: Reply)
    ensures
        r@ == download_reply(result, content_type@, encode_filename),
{
    let name = if encode_filename {
        outside::url_encode(&result.file_name)
    } else {
        result.file_name
    };
    let media = secrets::unwrap_or_empty(result.file_type);
    let shown = text::join3("attachment; filename=\"", &name, "\"");
    Reply::bytes(200, &media, result.buffer).header("content-disposition", &shown).header(
        "X-Custom-Content-Type",
        content_type,
    )
}

} // verus!
