//! Characters in BYAF archives: a character, its scenarios, pictures and chats.

use crate::characters::archive;
use crate::characters::archive::ArchiveEntry;
use crate::characters::charx;
use crate::characters::helpers;
use crate::characters::macros;
use crate::json;
use crate::json::{Fields, Json};
use crate::paths;
use crate::secrets;
use crate::text;
use vstd::prelude::*;

pub use crate::characters::macros::replace_macros;

verus! {

/// Two paths joined by one slash, with slashes for backslashes.
pub open spec fn joined_url(base: Seq<char>, relative: Seq<char>) -> Seq<char> {
    let a = text::drop_trailing(text::replaced(base, "\\"@, "/"@), '/');
    let b = text::drop_leading(text::replaced(relative, "\\"@, "/"@), '/');
    if a.len() == 0 {
        b
    } else if b.len() == 0 {
        a
    } else {
        a + "/"@ + b
    }
}

/// Two paths joined by one slash.
pub fn url_join(base: &str, relative: &str) -> (r: String)
    ensures
        r@ == joined_url(base@, relative@),
{
    proof {
        reveal_strlit("\\");
    }
    let a = text::trim_end_char(&text::replace(base, "\\", "/"), '/');
    let b = text::trim_start_char(&text::replace(relative, "\\", "/"), '/');
    if a.as_str().is_empty() {
        b
    } else if b.as_str().is_empty() {
        a
    } else {
        text::join3(&a, "/", &b)
    }
}

/// The example messages in a row, each behind a mark.
pub open spec fn examples_text(items: Seq<json::Tree>) -> Seq<char>
    decreases items.len(),
{
    if items.len() == 0 {
        Seq::empty()
    } else {
        let rest = examples_text(items.drop_last());
        let t = items.last().text_or("text"@, ""@);
        if t.len() == 0 {
            rest
        } else {
            (rest + "<START>\n"@ + macros::with_macros(t)).push('\n')
        }
    }
}

/// The example messages of a scenario.
pub open spec fn example_messages(items: Option<Seq<json::Tree>>) -> Seq<char> {
    match items {
        Some(a) => text::trim_right(examples_text(a)),
        None => text::trim_right(Seq::empty()),
    }
}

/// The example messages of a scenario.
pub fn format_example_messages(examples: Option<&Vec<Json>>) -> (r: String)
    ensures
        r@ == example_messages(
            match examples {
                Some(v) => Some(json::trees(v@)),
                None => None,
            },
        ),
{
    let mut out = String::new();
    match examples {
        Some(items) => {
            let ghost all = json::trees(items@);
            let mut i: usize = 0;
            assert(out@ =~= examples_text(all.take(0)));
            while i < items.len()
                invariant
                    all == json::trees(items@),
                    i <= items@.len(),
                    out@ == examples_text(all.take(i as int)),
                decreases items@.len() - i,
            {
                assert(all.take(i as int + 1).drop_last() =~= all.take(i as int));
                assert(all.take(i as int + 1).last() == items@[i as int]@);
                proof {
                    reveal_strlit("");
                }
                let t = items[i].str_or("text", "");
                if !t.is_empty() {
                    out.push_str("<START>\n");
                    out.push_str(&macros::replace_macros(t));
                    out.push('\n');
                }
                i += 1;
            }
            assert(all.take(all.len() as int) =~= all);
        },
        None => {},
    }
    text::trim_end(&out)
}

/// The text of the first message of a scenario.
pub open spec fn first_message(scenario: json::Tree) -> Option<Seq<char>> {
    match scenario.items_at("firstMessages"@) {
        Some(a) => if a.len() > 0 {
            a[0].text_at("text"@)
        } else {
            None
        },
        None => None,
    }
}

/// The text of the first message of a scenario.
pub fn get_first_message_text(scenario: &Json) -> (r: Option<String>)
    ensures
        json::string_opt(r) == first_message(scenario@),
{
    match scenario.array_at("firstMessages") {
        Some(a) => if a.len() > 0 {
            assert(json::trees(a@)[0] == a@[0]@);
            match a[0].str_at("text") {
                Some(s) => Some(s.to_owned()),
                None => None,
            }
        } else {
            None
        },
        None => None,
    }
}

/// The first messages of the scenarios other than `first`, each once, in their order.
pub open spec fn other_greetings(scenarios: Seq<json::Tree>, first: Option<Seq<char>>) -> Seq<
    Seq<char>,
>
    decreases scenarios.len(),
{
    if scenarios.len() == 0 {
        Seq::empty()
    } else {
        let rest = other_greetings(scenarios.drop_last(), first);
        match first_message(scenarios.last()) {
            Some(t) => if first == Some(t) || rest.contains(macros::with_macros(t)) {
                rest
            } else {
                rest.push(macros::with_macros(t))
            },
            None => rest,
        }
    }
}

/// The greetings of the scenarios behind the first one.
pub open spec fn alternate_greetings(scenarios: Seq<json::Tree>) -> Seq<Seq<char>> {
    if scenarios.len() <= 1 {
        Seq::empty()
    } else {
        other_greetings(scenarios.skip(1), first_message(scenarios[0]))
    }
}

/// The greetings of the scenarios behind the first one, each once.
pub fn format_alternate_greetings(scenarios: &Vec<Json>) -> (r: Vec<String>)
    ensures
        json::texts(r@) == alternate_greetings(json::trees(scenarios@)),
{
    let ghost all = json::trees(scenarios@);
    let mut out: Vec<String> = Vec::new();
    assert(json::texts(out@) =~= Seq::empty());
    if scenarios.len() <= 1 {
        return out;
    }
    let first = get_first_message_text(&scenarios[0]);
    let ghost rest = all.skip(1);
    let mut i: usize = 1;
    assert(json::texts(out@) =~= other_greetings(rest.take(0), json::string_opt(first)));
    while i < scenarios.len()
        invariant
            all == json::trees(scenarios@),
            rest == all.skip(1),
            1 <= i <= scenarios@.len(),
            json::texts(out@) == other_greetings(rest.take(i - 1), json::string_opt(first)),
        decreases scenarios@.len() - i,
    {
        assert(rest.take(i as int).drop_last() =~= rest.take(i - 1));
        assert(rest.take(i as int).last() == scenarios@[i as int]@);
        let ghost before = out@;
        match get_first_message_text(&scenarios[i]) {
            Some(t) => {
                let same = match &first {
                    Some(f) => text::same(f, &t),
                    None => false,
                };
                if !same {
                    let m = macros::replace_macros(&t);
                    if !crate::naming::is_taken(&m, &out) {
                        out.push(m);
                        assert(json::texts(out@) =~= json::texts(before).push(m@));
                    }
                }
            },
            None => {},
        }
        i += 1;
    }
    assert(rest.take(rest.len() as int) =~= rest);
    out
}

/// No greeting is given twice.
pub proof fn greetings_are_distinct(scenarios: Seq<json::Tree>, first: Option<Seq<char>>)
    ensures
        other_greetings(scenarios, first).no_duplicates(),
    decreases scenarios.len(),
{
    if scenarios.len() > 0 {
        greetings_are_distinct(scenarios.drop_last(), first);
    }
}

/// The book entry for a piece of lore, the `i`th of the character's.
pub open spec fn lore_entry(item: json::Tree, i: int) -> json::Tree {
    json::Tree::Object(
        json::members()
            .push((
                "keys"@,
                json::Tree::Array(
                    helpers::tag_items(
                        text::pieces(macros::with_macros(item.text_or("key"@, ""@)), ','),
                    ),
                ),
            ))
            .push(("content"@, json::txt(macros::with_macros(item.text_or("value"@, ""@)))))
            .push(("extensions"@, json::Tree::Object(Seq::empty())))
            .push(("enabled"@, json::Tree::Bool(true)))
            .push(("insertion_order"@, json::num(i as u64))),
    )
}

/// The book entries for the pieces of lore that are not empty.
pub open spec fn lore_entries(items: Seq<json::Tree>) -> Seq<json::Tree>
    decreases items.len(),
{
    if items.len() == 0 {
        Seq::empty()
    } else {
        let rest = lore_entries(items.drop_last());
        let item = items.last();
        if item.text_or("key"@, ""@).len() == 0 && item.text_or("value"@, ""@).len() == 0 {
            rest
        } else {
            rest.push(lore_entry(item, items.len() - 1))
        }
    }
}

/// The character book made of pieces of lore, where there are any.
pub open spec fn lore_book(items: Option<Seq<json::Tree>>) -> Option<json::Tree> {
    match items {
        Some(a) => if lore_entries(a).len() == 0 {
            None
        } else {
            Some(
                json::Tree::Object(
                    json::members()
                        .push(("entries"@, json::Tree::Array(lore_entries(a))))
                        .push(("extensions"@, json::Tree::Object(Seq::empty()))),
                ),
            )
        },
        None => None,
    }
}

/// The character book made of pieces of lore, where there are any.
pub fn convert_character_book(items: Option<&Vec<Json>>) -> (r: Option<Json>)
    ensures
        crate::web::owned_tree(r) == lore_book(
            match items {
                Some(v) => Some(json::trees(v@)),
                None => None,
            },
        ),
{
    let items = match items {
        Some(v) => v,
        None => return None,
    };
    let ghost all = json::trees(items@);
    let mut out: Vec<Json> = Vec::new();
    let mut i: usize = 0;
    assert(json::trees(out@) =~= lore_entries(all.take(0)));
    while i < items.len()
        invariant
            all == json::trees(items@),
            i <= items@.len(),
            json::trees(out@) == lore_entries(all.take(i as int)),
        decreases items@.len() - i,
    {
        assert(all.take(i as int + 1).drop_last() =~= all.take(i as int));
        assert(all.take(i as int + 1).last() == items@[i as int]@);
        let ghost before = out@;
        let key = items[i].str_or("key", "");
        let value = items[i].str_or("value", "");
        if !(key.is_empty() && value.is_empty()) {
            let keys = Json::Text(macros::replace_macros(key));
            let e = Fields::new()
                .with("keys", helpers::parse_tags(Some(&keys)))
                .with("content", Json::Text(macros::replace_macros(value)))
                .with("extensions", Json::no_members())
                .with("enabled", Json::Bool(true))
                .with("insertion_order", Json::natural(i as u64))
                .done();
            out.push(e);
            assert(json::trees(out@) =~= json::trees(before).push(e@));
        }
        i += 1;
    }
    assert(all.take(all.len() as int) =~= all);
    if out.len() == 0 {
        return None;
    }
    Some(
        Fields::new().with("entries", Json::array(out)).with("extensions", Json::no_members()).done(),
    )
}

/// Whether a byte stands for itself in an address.
pub open spec fn uri_allowed(b: u8) -> bool {
    65 <= b <= 90 || 97 <= b <= 122 || 48 <= b <= 57 || b == 45 || b == 95 || b == 46 || b == 33
        || b == 126 || b == 42 || b == 39 || b == 40 || b == 41 || b == 59 || b == 47 || b == 63
        || b == 58 || b == 64 || b == 38 || b == 61 || b == 43 || b == 36 || b == 44 || b == 35
}

/// A byte as it stands in an address.
pub open spec fn uri_byte(b: u8) -> Seq<char> {
    if uri_allowed(b) {
        seq![b as char]
    } else {
        seq!['%', text::hex_char(b as int / 16), text::hex_char(b as int % 16)]
    }
}

/// Bytes as they stand in an address.
pub open spec fn uri_bytes(s: Seq<u8>) -> Seq<char>
    decreases s.len(),
{
    if s.len() == 0 {
        Seq::empty()
    } else {
        uri_bytes(s.drop_last()) + uri_byte(s.last())
    }
}

/// A text as it stands in an address: bytes that are not allowed there are written in
/// hexadecimal behind a percent sign.
pub fn encode_uri(input: &str) -> (r: String)
    ensures
        r@ == uri_bytes(vstd::utf8::encode_utf8(input@)),
{
    let s = input.as_bytes();
    let mut out = String::new();
    let mut i: usize = 0;
    assert(s@.take(0) =~= Seq::<u8>::empty());
    while i < s.len()
        invariant
            i <= s@.len(),
            out@ == uri_bytes(s@.take(i as int)),
        decreases s@.len() - i,
    {
        assert(s@.take(i as int + 1).drop_last() =~= s@.take(i as int));
        let b = s[i];
        let allowed = (65 <= b && b <= 90) || (97 <= b && b <= 122) || (48 <= b && b <= 57) || b
            == 45 || b == 95 || b == 46 || b == 33 || b == 126 || b == 42 || b == 39 || b == 40
            || b == 41 || b == 59 || b == 47 || b == 63 || b == 58 || b == 64 || b == 38 || b == 61
            || b == 43 || b == 36 || b == 44 || b == 35;
        let ghost before = out@;
        if allowed {
            out.push(b as char);
            assert(out@ =~= before + uri_byte(b));
        } else {
            out.push('%');
            out.push(text::hex_digit_char(b / 16));
            out.push(text::hex_digit_char(b % 16));
            assert(out@ =~= before + uri_byte(b));
        }
        i += 1;
    }
    assert(s@.take(s@.len() as int) =~= s@);
    out
}

/// A picture of a character.
#[derive(Debug)]
pub struct ByafImage {
    pub filename: String,
    pub image: Vec<u8>,
    pub label: String,
}

/// What a [`ByafImage`] is.
pub struct ImageView {
    pub filename: Seq<char>,
    pub image: Seq<u8>,
    pub label: Seq<char>,
}

impl ByafImage {
    pub open spec fn view(&self) -> ImageView {
        ImageView { filename: self.filename@, image: self.image@, label: self.label@ }
    }
}

/// The views of pictures.
pub open spec fn images_view(v: Seq<ByafImage>) -> Seq<ImageView> {
    Seq::new(v.len(), |i: int| v[i]@)
}

/// A picture behind chats, and the paths in the archive that it was found at.
#[derive(Debug)]
pub struct ByafChatBackground {
    pub name: String,
    pub data: Vec<u8>,
    pub paths: Vec<String>,
}

/// What a [`ByafChatBackground`] is.
pub struct BackgroundView {
    pub name: Seq<char>,
    pub data: Seq<u8>,
    pub paths: Seq<Seq<char>>,
}

impl ByafChatBackground {
    pub open spec fn view(&self) -> BackgroundView {
        BackgroundView { name: self.name@, data: self.data@, paths: json::texts(self.paths@) }
    }
}

/// The views of backgrounds.
pub open spec fn backgrounds_view(v: Seq<ByafChatBackground>) -> Seq<BackgroundView> {
    Seq::new(v.len(), |i: int| v[i]@)
}

/// What a BYAF archive holds.
#[derive(Debug)]
pub struct ByafParseResult {
    pub card: Json,
    pub images: Vec<ByafImage>,
    pub scenarios: Vec<Json>,
    pub chat_backgrounds: Vec<ByafChatBackground>,
    pub character: Json,
}

/// The path of the character that a manifest names first.
pub open spec fn character_path(manifest: json::Tree) -> Option<Seq<char>> {
    match manifest.items_at("characters"@) {
        Some(a) => if a.len() > 0 {
            a[0].as_text()
        } else {
            None
        },
        None => None,
    }
}

/// The scenarios at those of the paths where there are any.
pub open spec fn scenarios_at(entries: Seq<ArchiveEntry>, paths: Seq<json::Tree>) -> Seq<
    json::Tree,
>
    decreases paths.len(),
{
    if paths.len() == 0 {
        Seq::empty()
    } else {
        let rest = scenarios_at(entries, paths.drop_last());
        match paths.last().as_text() {
            Some(p) => match charx::json_of_entry(entries, p) {
                Some(t) => rest.push(t),
                None => rest,
            },
            None => rest,
        }
    }
}

/// The scenarios of a character; an empty one where there is none.
pub open spec fn scenarios_of(entries: Seq<ArchiveEntry>, manifest: json::Tree) -> Seq<
    json::Tree,
> {
    let found = match manifest.items_at("scenarios"@) {
        Some(paths) => scenarios_at(entries, paths),
        None => Seq::empty(),
    };
    if found.len() == 0 {
        json::items().push(json::Tree::Object(Seq::empty()))
    } else {
        found
    }
}

fn find_scenarios(entries: &Vec<ArchiveEntry>, manifest: &Json) -> (r: Vec<Json>)
    ensures
        json::trees(r@) == scenarios_of(entries@, manifest@),
{
    let mut out: Vec<Json> = Vec::new();
    assert(json::trees(out@) =~= Seq::empty());
    match manifest.array_at("scenarios") {
        Some(list) => {
            let ghost all = json::trees(list@);
            let mut i: usize = 0;
            assert(json::trees(out@) =~= scenarios_at(entries@, all.take(0)));
            while i < list.len()
                invariant
                    all == json::trees(list@),
                    i <= list@.len(),
                    json::trees(out@) == scenarios_at(entries@, all.take(i as int)),
                decreases list@.len() - i,
            {
                assert(all.take(i as int + 1).drop_last() =~= all.take(i as int));
                assert(all.take(i as int + 1).last() == list@[i as int]@);
                let ghost before = out@;
                match list[i].as_str() {
                    Some(p) => match charx::entry_json(entries, p) {
                        Some(j) => {
                            out.push(j.copy());
                            assert(json::trees(out@) =~= json::trees(before).push(j@));
                        },
                        None => {},
                    },
                    None => {},
                }
                i += 1;
            }
            assert(all.take(all.len() as int) =~= all);
        },
        None => {},
    }
    if out.len() == 0 {
        out.push(Json::no_members());
        assert(json::trees(out@) =~= json::items().push(json::Tree::Object(Seq::empty())));
    }
    out
}

/// The pictures at those of the paths where there are any.
pub open spec fn images_at(
    entries: Seq<(Option<Seq<char>>, Option<Seq<u8>>)>,
    base: Seq<char>,
    images: Seq<json::Tree>,
) -> Seq<ImageView>
    decreases images.len(),
{
    if images.len() == 0 {
        Seq::empty()
    } else {
        let rest = images_at(entries, base, images.drop_last());
        match images.last().text_at("path"@) {
            Some(p) => match archive::content_of(entries, joined_url(base, p)) {
                Some(data) => rest.push(
                    ImageView {
                        filename: secrets::or_empty(paths::last_name(p)),
                        image: data,
                        label: images.last().text_or("label"@, ""@),
                    },
                ),
                None => rest,
            },
            None => rest,
        }
    }
}

/// The pictures of a character; the default one where there is none.
pub open spec fn images_of(
    entries: Seq<(Option<Seq<char>>, Option<Seq<u8>>)>,
    path: Seq<char>,
    character: json::Tree,
    default_avatar: Seq<u8>,
) -> Seq<ImageView> {
    let found = match character.items_at("images"@) {
        Some(list) => images_at(entries, secrets::or_empty(paths::parent_of(path)), list),
        None => Seq::empty(),
    };
    if found.len() == 0 {
        Seq::empty().push(
            ImageView { filename: Seq::empty(), image: default_avatar, label: Seq::empty() },
        )
    } else {
        found
    }
}

fn find_images(
    entries: &Vec<ArchiveEntry>,
    path: &str,
    character: &Json,
    default_avatar: &Vec<u8>,
) -> (r: Vec<ByafImage>)
    ensures
        images_view(r@) == images_of(
            archive::names_and_contents(entries@),
            path@,
            character@,
            default_avatar@,
        ),
{
    let ghost files = archive::names_and_contents(entries@);
    let mut out: Vec<ByafImage> = Vec::new();
    assert(images_view(out@) =~= Seq::empty());
    match character.array_at("images") {
        Some(list) => {
            let ghost all = json::trees(list@);
            let base = secrets::unwrap_or_empty(paths::parent(path));
            let mut i: usize = 0;
            assert(images_view(out@) =~= images_at(files, base@, all.take(0)));
            while i < list.len()
                invariant
                    all == json::trees(list@),
                    files == archive::names_and_contents(entries@),
                    i <= list@.len(),
                    images_view(out@) == images_at(files, base@, all.take(i as int)),
                decreases list@.len() - i,
            {
                assert(all.take(i as int + 1).drop_last() =~= all.take(i as int));
                assert(all.take(i as int + 1).last() == list@[i as int]@);
                let ghost before = out@;
                match list[i].str_at("path") {
                    Some(p) => match archive::entry_content(entries, &url_join(&base, p)) {
                        Some(data) => {
                            let image = ByafImage {
                                filename: secrets::unwrap_or_empty(paths::file_name(p)),
                                image: data,
                                label: list[i].str_or("label", "").to_owned(),
                            };
                            out.push(image);
                            assert(images_view(out@) =~= images_view(before).push(image@));
                        },
                        None => {},
                    },
                    None => {},
                }
                i += 1;
            }
            assert(all.take(all.len() as int) =~= all);
        },
        None => {},
    }
    if out.len() == 0 {
        let image = ByafImage {
            filename: String::new(),
            image: archive::copy_bytes(default_avatar),
            label: String::new(),
        };
        out.push(image);
        assert(images_view(out@) =~= Seq::empty().push(image@));
    }
    out
}

/// The position of the first background at or after `i` with those bytes; the number of
/// backgrounds where there is none.
pub open spec fn background_from(v: Seq<BackgroundView>, data: Seq<u8>, i: int) -> int
    decreases v.len() - i,
{
    if i >= v.len() {
        v.len() as int
    } else if v[i].data == data {
        i
    } else {
        background_from(v, data, i + 1)
    }
}

/// The backgrounds with one more, or with one more path where its bytes are among them.
pub open spec fn with_background(
    v: Seq<BackgroundView>,
    base: Seq<char>,
    path: Seq<char>,
    data: Seq<u8>,
) -> Seq<BackgroundView> {
    let p = background_from(v, data, 0);
    if 0 <= p < v.len() {
        v.update(p, BackgroundView { paths: v[p].paths.push(path), ..v[p] })
    } else {
        v.push(
            BackgroundView {
                name: base + " bg "@ + text::decimal((v.len() + 1) as nat),
                data,
                paths: Seq::empty().push(path),
            },
        )
    }
}

/// The backgrounds of scenarios, each picture once.
pub open spec fn backgrounds_of(
    entries: Seq<(Option<Seq<char>>, Option<Seq<u8>>)>,
    base: Seq<char>,
    scenarios: Seq<json::Tree>,
) -> Seq<BackgroundView>
    decreases scenarios.len(),
{
    if scenarios.len() == 0 {
        Seq::empty()
    } else {
        let rest = backgrounds_of(entries, base, scenarios.drop_last());
        let path = scenarios.last().text_or("backgroundImage"@, ""@);
        if path.len() == 0 {
            rest
        } else {
            match archive::content_of(entries, path) {
                Some(data) => with_background(rest, base, path, data),
                None => rest,
            }
        }
    }
}

fn same_bytes(a: &Vec<u8>, b: &Vec<u8>) -> (r: bool)
    ensures
        r == (a@ == b@),
{
    if a.len() != b.len() {
        return false;
    }
    let mut i: usize = 0;
    while i < a.len()
        invariant
            i <= a@.len(),
            a@.len() == b@.len(),
            forall|j: int| 0 <= j < i ==> a@[j] == b@[j],
        decreases a@.len() - i,
    {
        if a[i] != b[i] {
            return false;
        }
        i += 1;
    }
    assert(a@ =~= b@);
    true
}

fn find_background(v: &Vec<ByafChatBackground>, data: &Vec<u8>) -> (r: usize)
    ensures
        r == background_from(backgrounds_view(v@), data@, 0),
        r <= v@.len(),
        r < v@.len() ==> v@[r as int].data@ == data@,
{
    let ghost all = backgrounds_view(v@);
    let mut i: usize = 0;
    while i < v.len()
        invariant
            all == backgrounds_view(v@),
            i <= v@.len(),
            background_from(all, data@, 0) == background_from(all, data@, i as int),
        decreases v@.len() - i,
    {
        assert(all[i as int] == v@[i as int]@);
        if same_bytes(&v[i].data, data) {
            return i;
        }
        i += 1;
    }
    i
}

fn copy_texts(v: &Vec<String>) -> (r: Vec<String>)
    ensures
        json::texts(r@) == json::texts(v@),
        r@.len() == v@.len(),
{
    let mut out: Vec<String> = Vec::new();
    let mut i: usize = 0;
    while i < v.len()
        invariant
            i <= v@.len(),
            out@.len() == i,
            forall|j: int| 0 <= j < i ==> (#[trigger] out@[j])@ == v@[j]@,
        decreases v@.len() - i,
    {
        out.push(v[i].clone());
        i += 1;
    }
    assert(json::texts(out@) =~= json::texts(v@));
    out
}

fn add_background(v: &mut Vec<ByafChatBackground>, base: &str, path: &str, data: Vec<u8>)
    ensures
        backgrounds_view(final(v)@) == with_background(
            backgrounds_view(old(v)@),
            base@,
            path@,
            data@,
        ),
{
    let ghost before = v@;
    let p = find_background(v, &data);
    if p < v.len() {
        assert(backgrounds_view(before)[p as int] == before[p as int]@);
        let mut more = copy_texts(&v[p].paths);
        let ghost old_paths = more@;
        more.push(path.to_owned());
        assert(json::texts(more@) =~= json::texts(old_paths).push(path@));
        let b = ByafChatBackground { name: v[p].name.clone(), data, paths: more };
        v.set(p, b);
        assert(backgrounds_view(v@) =~= backgrounds_view(before).update(p as int, b@));
    } else {
        let number: u128 = v.len() as u128 + 1;
        let mut one: Vec<String> = Vec::new();
        one.push(path.to_owned());
        assert(json::texts(one@) =~= Seq::empty().push(path@));
        let b = ByafChatBackground {
            name: text::join3(base, " bg ", &text::decimal_text(number)),
            data,
            paths: one,
        };
        v.push(b);
        assert(backgrounds_view(v@) =~= backgrounds_view(before).push(b@));
    }
}

fn find_backgrounds(entries: &Vec<ArchiveEntry>, base: &str, scenarios: &Vec<Json>) -> (r: Vec<
    ByafChatBackground,
>)
    ensures
        backgrounds_view(r@) == backgrounds_of(
            archive::names_and_contents(entries@),
            base@,
            json::trees(scenarios@),
        ),
{
    let ghost all = json::trees(scenarios@);
    let ghost files = archive::names_and_contents(entries@);
    let mut out: Vec<ByafChatBackground> = Vec::new();
    let mut i: usize = 0;
    assert(backgrounds_view(out@) =~= backgrounds_of(files, base@, all.take(0)));
    while i < scenarios.len()
        invariant
            all == json::trees(scenarios@),
            files == archive::names_and_contents(entries@),
            i <= scenarios@.len(),
            backgrounds_view(out@) == backgrounds_of(files, base@, all.take(i as int)),
        decreases scenarios@.len() - i,
    {
        assert(all.take(i as int + 1).drop_last() =~= all.take(i as int));
        assert(all.take(i as int + 1).last() == scenarios@[i as int]@);
        let path = scenarios[i].str_or("backgroundImage", "");
        if !path.is_empty() {
            match archive::entry_content(entries, path) {
                Some(data) => add_background(&mut out, base, path, data),
                None => {},
            }
        }
        i += 1;
    }
    assert(all.take(all.len() as int) =~= all);
    out
}

/// The text under `key` of a value that may not be there, or an empty one.
pub open spec fn text_in(t: Option<json::Tree>, key: Seq<char>) -> Seq<char> {
    match t {
        Some(x) => x.text_or(key, ""@),
        None => ""@,
    }
}

/// The name of a character.
pub open spec fn character_name(character: json::Tree) -> Seq<char> {
    match character.text_at("name"@) {
        Some(n) => n,
        None => character.text_or("displayName"@, ""@),
    }
}

/// The data of the card of a character.
pub open spec fn card_data(
    manifest: json::Tree,
    character: json::Tree,
    scenarios: Seq<json::Tree>,
) -> Seq<(Seq<char>, json::Tree)> {
    let first = scenarios[0];
    let before = json::members()
        .push(("name"@, json::txt(character_name(character))))
        .push(("description"@, json::txt(macros::with_macros(character.text_or("persona"@, ""@)))))
        .push(("personality"@, json::txt(Seq::empty())))
        .push(("scenario"@, json::txt(macros::with_macros(first.text_or("narrative"@, ""@)))))
        .push((
            "first_mes"@,
            json::txt(macros::with_macros(secrets::or_empty(first_message(first)))),
        ))
        .push(("mes_example"@, json::txt(example_messages(first.items_at("exampleMessages"@)))))
        .push(("creator_notes"@, json::txt(text_in(manifest.get("author"@), "backyardURL"@))))
        .push((
            "system_prompt"@,
            json::txt(macros::with_macros(first.text_or("formattingInstructions"@, ""@))),
        ))
        .push(("post_history_instructions"@, json::txt(Seq::empty())))
        .push((
            "alternate_greetings"@,
            json::Tree::Array(json::text_items(alternate_greetings(scenarios))),
        ));
    let booked = match lore_book(character.items_at("loreItems"@)) {
        Some(book) => before.push(("character_book"@, book)),
        None => before,
    };
    booked
        .push((
            "tags"@,
            json::Tree::Array(
                if character.flag_at("isNSFW"@) == Some(true) {
                    json::items().push(json::txt("nsfw"@))
                } else {
                    Seq::empty()
                },
            ),
        ))
        .push(("creator"@, json::txt(text_in(manifest.get("author"@), "name"@))))
        .push(("character_version"@, json::txt(Seq::empty())))
        .push((
            "extensions"@,
            json::Tree::Object(
                match character.text_at("displayName"@) {
                    Some(d) => json::members().push(("display_name"@, json::txt(d))),
                    None => Seq::empty(),
                },
            ),
        ))
}

/// The card of a character.
pub open spec fn card_of(
    manifest: json::Tree,
    character: json::Tree,
    scenarios: Seq<json::Tree>,
    now: Seq<char>,
) -> json::Tree {
    json::Tree::Object(
        json::members()
            .push(("spec"@, json::txt("chara_card_v2"@)))
            .push(("spec_version"@, json::txt("2.0"@)))
            .push(("data"@, json::Tree::Object(card_data(manifest, character, scenarios))))
            .push(("create_date"@, json::txt(now))),
    )
}

/// The text under `key` of a value that may not be there, or an empty one.
pub fn text_under<'a>(j: Option<&'a Json>, key: &str) -> (r: &'a str)
    ensures
        r@ == text_in(json::tree_opt(j), key@),
{
    match j {
        Some(x) => x.str_or(key, ""),
        None => "",
    }
}

fn make_card(manifest: &Json, character: &Json, scenarios: &Vec<Json>, now: &str) -> (r: Json)
    requires
        scenarios@.len() > 0,
    ensures
        r@ == card_of(manifest@, character@, json::trees(scenarios@), now@),
{
    let first = &scenarios[0];
    assert(json::trees(scenarios@)[0] == first@);
    let name = match character.str_at("name") {
        Some(n) => n,
        None => character.str_or("displayName", ""),
    };
    let greeting = secrets::unwrap_or_empty(get_first_message_text(first));
    let mut data = Fields::new()
        .with("name", Json::text(name))
        .with("description", Json::Text(macros::replace_macros(character.str_or("persona", ""))))
        .with("personality", Json::Text(String::new()))
        .with("scenario", Json::Text(macros::replace_macros(first.str_or("narrative", ""))))
        .with("first_mes", Json::Text(macros::replace_macros(&greeting)))
        .with("mes_example", Json::Text(format_example_messages(first.array_at("exampleMessages"))))
        .with("creator_notes", Json::text(text_under(manifest.get("author"), "backyardURL")))
        .with(
            "system_prompt",
            Json::Text(macros::replace_macros(first.str_or("formattingInstructions", ""))),
        )
        .with("post_history_instructions", Json::Text(String::new()))
        .with("alternate_greetings", json::texts_json(&format_alternate_greetings(scenarios)));
    match convert_character_book(character.array_at("loreItems")) {
        Some(book) => data.push("character_book", book),
        None => {},
    }
    let nsfw = match character.bool_at("isNSFW") {
        Some(b) => b,
        None => false,
    };
    let tags = if nsfw {
        Json::one_item(Json::text("nsfw"))
    } else {
        Json::no_items()
    };
    let extensions = match character.str_at("displayName") {
        Some(d) => Fields::new().with("display_name", Json::text(d)),
        None => Fields::new(),
    };
    let whole = data
        .with("tags", tags)
        .with("creator", Json::text(text_under(manifest.get("author"), "name")))
        .with("character_version", Json::Text(String::new()))
        .with("extensions", extensions.done());
    Fields::new()
        .with("spec", Json::text("chara_card_v2"))
        .with("spec_version", Json::text("2.0"))
        .with("data", whole.done())
        .with("create_date", Json::text(now))
        .done()
}

/// What is wrong with a BYAF archive whose manifest is the entry `index`.
pub open spec fn byaf_error(entries: Seq<ArchiveEntry>, index: Seq<char>) -> Option<Seq<char>> {
    let files = archive::names_and_contents(entries);
    if archive::entry_from(files, index, 0) is None {
        Some("Failed to extract "@ + index + " from BYAF file"@)
    } else {
        match charx::json_of_entry(entries, index) {
            Some(manifest) => match character_path(manifest) {
                Some(path) => if archive::entry_from(files, path, 0) is None {
                    Some("Invalid BYAF file: failed to extract character JSON"@)
                } else if charx::json_of_entry(entries, path) is None {
                    Some("Invalid BYAF file: character is not valid JSON"@)
                } else {
                    None
                },
                None => Some("Invalid BYAF file: missing character path"@),
            },
            None => Some("Invalid BYAF manifest"@),
        }
    }
}

/// The character in a BYAF archive whose manifest is the entry `index`, and of whose entries
/// the JSON values are known.
pub fn parse_byaf(
    entries: &Vec<ArchiveEntry>,
    index: &str,
    default_avatar: &Vec<u8>,
    now: &str,
) -> (r: Result<ByafParseResult, String>)
    ensures
        match r {
            Ok(x) => {
                let files = archive::names_and_contents(entries@);
                let manifest = charx::json_of_entry(entries@, index@)->Some_0;
                let path = character_path(manifest)->Some_0;
                let character = charx::json_of_entry(entries@, path)->Some_0;
                let scenarios = scenarios_of(entries@, manifest);
                &&& byaf_error(entries@, index@) is None
                &&& x.character@ == character
                &&& json::trees(x.scenarios@) == scenarios
                &&& images_view(x.images@) == images_of(files, path, character, default_avatar@)
                &&& backgrounds_view(x.chat_backgrounds@) == backgrounds_of(
                    files,
                    character.text_or("name"@, ""@),
                    scenarios,
                )
                &&& x.card@ == card_of(manifest, character, scenarios, now@)
            },
            Err(e) => byaf_error(entries@, index@) == Some(e@),
        },
{
    if archive::find_entry(entries, index).is_none() {
        return Err(text::join3("Failed to extract ", index, " from BYAF file"));
    }
    let manifest = match charx::entry_json(entries, index) {
        Some(j) => j,
        None => return Err("Invalid BYAF manifest".to_owned()),
    };
    let path = match manifest.array_at("characters") {
        Some(a) => if a.len() > 0 {
            assert(json::trees(a@)[0] == a@[0]@);
            match a[0].as_str() {
                Some(s) => s,
                None => return Err("Invalid BYAF file: missing character path".to_owned()),
            }
        } else {
            return Err("Invalid BYAF file: missing character path".to_owned());
        },
        None => return Err("Invalid BYAF file: missing character path".to_owned()),
    };
    if archive::find_entry(entries, path).is_none() {
        return Err("Invalid BYAF file: failed to extract character JSON".to_owned());
    }
    let character = match charx::entry_json(entries, path) {
        Some(j) => j,
        None => return Err("Invalid BYAF file: character is not valid JSON".to_owned()),
    };
    let scenarios = find_scenarios(entries, manifest);
    let images = find_images(entries, path, character, default_avatar);
    let chat_backgrounds = find_backgrounds(entries, character.str_or("name", ""), &scenarios);
    assert(json::trees(scenarios@).len() > 0);
    let card = make_card(manifest, character, &scenarios, now);
    Ok(ByafParseResult { card, images, scenarios, chat_backgrounds, character: character.copy() })
}

} // verus!
