//! How a character from a BYAF archive is stored.

use crate::characters::byaf::{ByafChatBackground, ByafImage, ByafParseResult};
use crate::characters::charx;
use crate::characters::helpers;
use crate::json;
use crate::json::Json;
use crate::naming;
use crate::paths;
use crate::sanitize;
use crate::text;
use vstd::prelude::*;

verus! {

/// The part of a path behind its root, which it begins with.
pub fn client_relative_path(root: &str, input_path: &str) -> (r: Result<String, String>)
    ensures
        match r {
            Ok(rel) => text::after_prefix(input_path@, root@) == Some(rel@),
            Err(e) => !text::begins(input_path@, root@) && e@
                == "Input path does not start with root"@,
        },
{
    match text::strip_prefix(input_path, root) {
        Some(rel) => Ok(rel),
        None => Err("Input path does not start with root".to_owned()),
    }
}

/// How many names are tried.
pub const MAX_TRIES: u64 = 1000;

/// The `i`th name to try for a base.
pub open spec fn candidate(base: Seq<char>, i: nat) -> Seq<char> {
    base + " ("@ + text::decimal(i) + ")"@
}

fn make_candidate(base: &str, i: u64) -> (r: String)
    ensures
        r@ == candidate(base@, i as nat),
{
    let mut out = text::join3(base, " (", &text::decimal_text(i as u128));
    out.push_str(")");
    out
}

/// Whether `taken` said `answer` of the name `s`.
pub open spec fn said<F: Fn(&str) -> bool>(taken: F, s: Seq<char>, answer: bool) -> bool {
    exists|t: &str| t@ == s && #[trigger] taken.ensures((t,), answer)
}

/// The first name for a base that is not taken: the base followed by a number in brackets,
/// from 1 on.
pub fn get_unique_name<F: Fn(&str) -> bool>(base_name: &str, taken: F) -> (r: Option<String>)
    requires
        forall|t: &str| #[trigger] taken.requires((t,)),
    ensures
        match r {
            Some(name) => exists|i: nat|
                {
                    &&& 1 <= i <= MAX_TRIES
                    &&& name@ == #[trigger] candidate(base_name@, i)
                    &&& said(taken, name@, false)
                    &&& forall|j: nat|
                        1 <= j < i ==> said(taken, #[trigger] candidate(base_name@, j), true)
                },
            None => forall|j: nat|
                1 <= j <= MAX_TRIES ==> said(taken, #[trigger] candidate(base_name@, j), true),
        },
{
    let mut i: u64 = 1;
    while i <= MAX_TRIES
        invariant
            1 <= i <= MAX_TRIES + 1,
            forall|t: &str| #[trigger] taken.requires((t,)),
            forall|j: nat|
                1 <= j < i ==> said(taken, #[trigger] candidate(base_name@, j), true),
        decreases MAX_TRIES + 1 - i,
    {
        let name = make_candidate(base_name, i);
        let t: &str = name.as_str();
        let found = taken(t);
        assert(taken.ensures((t,), found));
        assert(said(taken, candidate(base_name@, i as nat), found));
        if !found {
            return Some(name);
        }
        i += 1;
    }
    None
}

/// Whether a file of a folder is the first for a base and an extension that is free there.
pub open spec fn first_in_folder(
    name: Seq<char>,
    base: Seq<char>,
    extension: Seq<char>,
    files: Seq<Seq<char>>,
) -> bool {
    exists|i: nat|
        {
            &&& 1 <= i <= MAX_TRIES
            &&& name == #[trigger] candidate(base, i) + extension
            &&& !files.contains(name)
            &&& forall|j: nat|
                1 <= j < i ==> files.contains(#[trigger] candidate(base, j) + extension)
        }
}

/// Whether a folder holds all the files for a base and an extension that are tried.
pub open spec fn folder_full(base: Seq<char>, extension: Seq<char>, files: Seq<Seq<char>>) -> bool {
    forall|j: nat|
        1 <= j <= MAX_TRIES ==> files.contains(#[trigger] candidate(base, j) + extension)
}

/// The first file for a base and an extension that is free in a folder.
pub fn free_file(base: &str, extension: &str, files: &Vec<String>) -> (r: Option<String>)
    ensures
        match r {
            Some(name) => first_in_folder(name@, base@, extension@, json::texts(files@)),
            None => folder_full(base@, extension@, json::texts(files@)),
        },
{
    let taken = |name: &str| -> (b: bool)
        ensures
            b == json::texts(files@).contains(name@ + extension@),
        { naming::is_taken(&text::join2(name, extension), files) };
    match get_unique_name(base, taken) {
        Some(name) => Some(text::join2(&name, extension)),
        None => None,
    }
}

/// The extension of a path with its dot, or that of a PNG file.
pub open spec fn dotted_extension(path: Seq<char>) -> Seq<char> {
    match paths::path_extension(path) {
        Some(e) => "."@ + e,
        None => ".png"@,
    }
}

fn extension_with_dot(path: &str) -> (r: String)
    ensures
        r@ == dotted_extension(path@),
{
    match paths::file_extension(path) {
        Some(e) => text::join2(".", &e),
        None => ".png".to_owned(),
    }
}

/// The extension that a background is stored with.
pub open spec fn background_extension(paths: Seq<Seq<char>>) -> Seq<char> {
    if paths.len() > 0 {
        dotted_extension(paths[0])
    } else {
        ".png"@
    }
}

/// The file that a background of a character is stored in, in a folder that holds `files`.
pub fn background_file(
    background: &ByafChatBackground,
    base_name: &str,
    files: &Vec<String>,
) -> (r: Option<String>)
    ensures
        ({
            let extension = background_extension(background@.paths);
            match r {
                Some(name) => first_in_folder(
                    name@,
                    base_name@ + "_bg"@,
                    extension,
                    json::texts(files@),
                ),
                None => folder_full(base_name@ + "_bg"@, extension, json::texts(files@)),
            }
        }),
{
    let extension = if background.paths.len() > 0 {
        assert(background@.paths[0] == background.paths@[0]@);
        extension_with_dot(&background.paths[0])
    } else {
        ".png".to_owned()
    };
    free_file(&text::join2(base_name, "_bg"), &extension, files)
}

/// The name of a character that its file is named after: the one that is shown, where there
/// is one.
pub open spec fn shown_name(character: json::Tree, card: json::Tree) -> Seq<char> {
    let shown = character.text_or("displayName"@, ""@);
    if shown.len() == 0 {
        card.text_or("name"@, ""@)
    } else {
        shown
    }
}

/// The name of a character that its file is named after.
pub fn name_for_file(character: &Json, card: &Json) -> (r: String)
    ensures
        r@ == shown_name(character@, card@),
{
    let shown = character.str_or("displayName", "");
    if shown.is_empty() {
        card.str_or("name", "").to_owned()
    } else {
        shown.to_owned()
    }
}

/// What the chat of a scenario is called: after its title, or else after the character.
pub open spec fn chat_title(
    scenario: json::Tree,
    card_name: Seq<char>,
    stamp: Seq<char>,
) -> Seq<char> {
    let title = scenario.text_or("title"@, ""@);
    (if title.len() > 0 {
        title
    } else {
        card_name
    }) + " - "@ + stamp + " imported.jsonl"@
}

/// The file that the chat of a scenario is stored in.
pub fn chat_file(scenario: &Json, card_name: &str, stamp: &str, replacement: &str) -> (r: String)
    ensures
        r@ == sanitize::sanitized(chat_title(scenario@, card_name@, stamp@), replacement@),
{
    let title = scenario.str_or("title", "");
    let base = if !title.is_empty() {
        title
    } else {
        card_name
    };
    let mut name = text::join3(base, " - ", stamp);
    name.push_str(" imported.jsonl");
    sanitize::sanitize_filename(&name, replacement)
}

/// Names the first of the chats that were stored as the chat of a card.
pub fn set_first_chat(card: &mut Json, chats: &Vec<String>)
    ensures
        final(card)@ == if chats@.len() == 0 {
            old(card)@
        } else {
            charx::member_set(old(card)@, "chat"@, json::txt(paths::stem_of(chats@[0]@)))
        },
{
    if chats.len() > 0 {
        let id = paths::stem(&chats[0]);
        helpers::set_val(card, "chat", Json::Text(id));
    }
}

/// The base that another picture of a character is stored under.
pub open spec fn icon_base(label: Seq<char>, replacement: Seq<char>) -> Seq<char> {
    let safe = sanitize::sanitized(label, replacement);
    if safe.len() == 0 {
        "alt"@
    } else {
        safe
    }
}

/// The file that another picture of a character is stored in, in a folder that holds
/// `files`.
pub fn icon_file(icon: &ByafImage, replacement: &str, files: &Vec<String>) -> (r: Option<String>)
    ensures
        ({
            let base = icon_base(icon@.label, replacement@);
            let extension = dotted_extension(icon@.filename);
            match r {
                Some(name) => first_in_folder(name@, base, extension, json::texts(files@)),
                None => folder_full(base, extension, json::texts(files@)),
            }
        }),
{
    let safe = sanitize::sanitize_filename(&icon.label, replacement);
    icon_file_named(&safe, &icon.filename, files)
}

/// The file that another picture of a character is stored in, given its label made safe.
pub fn icon_file_named(safe: &str, filename: &str, files: &Vec<String>) -> (r: Option<String>)
    ensures
        ({
            let base = if safe@.len() == 0 {
                "alt"@
            } else {
                safe@
            };
            let extension = dotted_extension(filename@);
            match r {
                Some(name) => first_in_folder(name@, base, extension, json::texts(files@)),
                None => folder_full(base, extension, json::texts(files@)),
            }
        }),
{
    let base = if safe.is_empty() {
        "alt"
    } else {
        safe
    };
    free_file(base, &extension_with_dot(filename), files)
}

/// The picture that a character is stored with: the first one, or the default one.
pub fn avatar_of<'a>(parsed: &'a ByafParseResult, default_avatar: &'a Vec<u8>) -> (r: &'a Vec<u8>)
    ensures
        r@ == if parsed.images@.len() > 0 {
            parsed.images@[0].image@
        } else {
            default_avatar@
        },
{
    if parsed.images.len() > 0 {
        &parsed.images[0].image
    } else {
        default_avatar
    }
}

/// How a character from an archive is stored: the name of its file, the name that what comes
/// with it is stored under, who the user is, and whether what comes with it is stored at all,
/// which it is not where a character of that name is replaced.
#[derive(Debug)]
pub struct ByafImport {
    pub file_name: String,
    pub base_name: String,
    pub user_name: String,
    pub keeps_assets: bool,
}

/// The last name of a path, or the whole where it has none.
pub open spec fn base_of(file: Seq<char>) -> Seq<char> {
    match paths::last_name(file) {
        Some(n) => n,
        None => file,
    }
}

/// How a character from an archive is stored, under `preserved` where that is given, and
/// otherwise under a name that is free among `files`. `safe_name` is its name made safe.
pub fn import_from_byaf(
    preserved: Option<&str>,
    safe_name: &str,
    files: &Vec<String>,
    body: &Json,
) -> (r: ByafImport)
    ensures
        match json::text_opt(preserved) {
            Some(n) => r.file_name@ == n,
            None => naming::is_first_free(
                r.file_name@,
                safe_name@,
                ".png"@,
                json::texts(files@),
            ),
        },
        r.base_name@ == base_of(r.file_name@),
        r.user_name@ == body@.text_or("user_name"@, "undefined"@),
        r.keeps_assets == (preserved is None),
{
    let file_name = match preserved {
        Some(n) => n.to_owned(),
        None => helpers::get_png_name(safe_name, files),
    };
    let base_name = match paths::file_name(&file_name) {
        Some(n) => n,
        None => file_name.clone(),
    };
    ByafImport {
        file_name,
        base_name,
        user_name: body.str_or("user_name", "undefined").to_owned(),
        keeps_assets: preserved.is_none(),
    }
}

/// Names a background after the path that it was written to, as a client sees it; one that
/// was written elsewhere keeps its name.
pub fn name_background(background: &mut ByafChatBackground, root: &str, path: &str)
    ensures
        final(background).name@ == match text::after_prefix(path@, root@) {
            Some(rel) => rel,
            None => old(background).name@,
        },
        final(background).data == old(background).data,
        final(background).paths == old(background).paths,
{
    match client_relative_path(root, path) {
        Ok(rel) => {
            background.name = rel;
        },
        Err(_) => {},
    }
}

} // verus!
