//! How characters are made, changed, renamed, copied, deleted and handed out.

use crate::characters::charx;
use crate::characters::helpers;
use crate::characters::helpers::{
    DeleteRequest, DuplicateRequest, EditAttributeRequest, ExportRequest, RenameRequest,
};
use crate::characters::reads;
use crate::characters::validator;
use crate::characters::validator::TavernCardValidator;
use crate::json;
use crate::json::{Fields, Json};
use crate::naming;
use crate::numbers;
use crate::paths;
use crate::sanitize;
use crate::secrets;
use crate::text;
use crate::web;
use crate::web::Reply;
use vstd::prelude::*;

verus! {

/// Whether a form has fields.
pub open spec fn has_fields(body: json::Tree) -> bool {
    body matches json::Tree::Object(f) && f.len() > 0
}

fn is_filled_form(body: &Json) -> (r: bool)
    ensures
        r == has_fields(body@),
{
    match body.as_object() {
        Some(f) => f.len() > 0,
        None => false,
    }
}

/// A character that is to be stored.
#[derive(Debug)]
pub struct NewCharacter {
    pub card: Json,
    pub file_name: String,
}

/// What a form says beyond its plain texts: the card that it was filled in from, the
/// extensions that it brings, how talkative the character is, and the depth of its prompt.
#[derive(Debug)]
pub struct FormExtras {
    pub base: Option<Json>,
    pub extensions: Option<Json>,
    pub talkativeness: Json,
    pub depth: Json,
}

/// The card that a form makes.
pub open spec fn form_card(body: json::Tree, extras: FormExtras, stamp: Seq<char>) -> json::Tree {
    helpers::formatted(
        body,
        web::owned_tree(extras.base),
        web::owned_tree(extras.extensions),
        extras.talkativeness@,
        extras.depth@,
        stamp,
    )
}

fn make_form_card(body: &Json, extras: &FormExtras, stamp: &str) -> (r: Json)
    ensures
        r@ == form_card(body@, *extras, stamp@),
{
    helpers::chara_format_data(
        body,
        extras.base.as_ref(),
        extras.extensions.as_ref(),
        &extras.talkativeness,
        &extras.depth,
        stamp,
    )
}

/// The name of a file that a form asks for.
pub open spec fn wished_file(body: json::Tree) -> Option<Seq<char>> {
    secrets::filled(body.text_at("file_name"@))
}

/// A character made of a form, whose name was made safe: stored under the name that the form
/// asks for, or else under the first free one.
pub fn create_named_character(
    body: &Json,
    ch_name: &str,
    extras: &FormExtras,
    stamp: &str,
    files: &Vec<String>,
) -> (r: Result<NewCharacter, Reply>)
    ensures
        match r {
            Ok(c) => {
                &&& has_fields(body@)
                &&& c.card@ == form_card(
                    charx::member_set(body@, "ch_name"@, json::txt(ch_name@)),
                    *extras,
                    stamp@,
                )
                &&& match wished_file(body@) {
                    Some(f) => !helpers::forbidden(f) && c.file_name@ == f,
                    None => naming::is_first_free(
                        c.file_name@,
                        ch_name@,
                        ".png"@,
                        json::texts(files@),
                    ),
                }
            },
            Err(e) => e@ == web::status_only(400) && (!has_fields(body@) || (wished_file(
                body@,
            ) matches Some(f) && helpers::forbidden(f))),
        },
{
    if !is_filled_form(body) {
        return Err(Reply::empty(400));
    }
    let mut form = body.copy();
    helpers::set_val(&mut form, "ch_name", Json::text(ch_name));
    let card = make_form_card(&form, extras, stamp);
    proof {
        reveal_strlit("");
    }
    let wish = body.str_or("file_name", "");
    if !wish.is_empty() {
        if helpers::contains_forbidden_chars(wish) {
            return Err(Reply::empty(400));
        }
        return Ok(NewCharacter { card, file_name: wish.to_owned() });
    }
    Ok(NewCharacter { card, file_name: helpers::get_png_name(ch_name, files) })
}

/// A character made of a form.
pub fn create_character(
    body: &Json,
    extras: &FormExtras,
    stamp: &str,
    files: &Vec<String>,
) -> (r: Result<NewCharacter, Reply>)
    ensures
        ({
            let ch_name = sanitize::sanitized(body@.text_or("ch_name"@, ""@), ""@);
            match r {
                Ok(c) => {
                    &&& has_fields(body@)
                    &&& c.card@ == form_card(
                        charx::member_set(body@, "ch_name"@, json::txt(ch_name)),
                        *extras,
                        stamp@,
                    )
                    &&& match wished_file(body@) {
                        Some(f) => !helpers::forbidden(f) && c.file_name@ == f,
                        None => naming::is_first_free(
                            c.file_name@,
                            ch_name,
                            ".png"@,
                            json::texts(files@),
                        ),
                    }
                },
                Err(e) => e@ == web::status_only(400) && (!has_fields(body@) || (wished_file(
                    body@,
                ) matches Some(f) && helpers::forbidden(f))),
            }
        }),
{
    let ch_name = sanitize::sanitize_filename_strip(body.str_or("ch_name", ""));
    create_named_character(body, &ch_name, extras, stamp, files)
}

/// The picture of a character that is stored under a name.
pub fn avatar_name(file_name: &str) -> (r: String)
    ensures
        r@ == file_name@ + ".png"@,
{
    text::join2(file_name, ".png")
}

/// The name that a character with a picture is stored under.
pub open spec fn target_of(avatar_url: Seq<char>) -> Seq<char> {
    secrets::text_or(paths::path_stem(avatar_url), avatar_url)
}

/// The name that a character with a picture is stored under.
pub fn target_file(avatar_url: &str) -> (r: String)
    ensures
        r@ == target_of(avatar_url@),
{
    secrets::unwrap_or(&paths::file_stem(avatar_url), avatar_url)
}

/// `f` with the value under `k` of the form, or without one where the form has none.
pub open spec fn taken_over(
    f: Seq<(Seq<char>, json::Tree)>,
    body: json::Tree,
    k: Seq<char>,
) -> Seq<(Seq<char>, json::Tree)> {
    match body.get(k) {
        Some(v) => json::put(f, k, v),
        None => json::without(f, k),
    }
}

/// The card that a form changes a character to: its chat and its date are those of the form.
pub open spec fn edited_card(body: json::Tree, extras: FormExtras, stamp: Seq<char>) -> json::Tree {
    match form_card(body, extras, stamp) {
        json::Tree::Object(f) => json::Tree::Object(
            taken_over(taken_over(f, body, "chat"@), body, "create_date"@),
        ),
        t => t,
    }
}

fn take_over(f: &mut Fields, body: &Json, key: &str)
    ensures
        final(f)@ == taken_over(old(f)@, body@, key@),
{
    match body.get(key) {
        Some(v) => f.insert(key, v.copy()),
        None => f.remove(key),
    }
}

/// What is wrong with a form that is to change a character.
pub open spec fn edit_error(body: json::Tree) -> Option<web::ReplyView> {
    let name = body.text_or("ch_name"@, ""@);
    if !has_fields(body) {
        Some(web::text_reply(400, "Error: no response body detected"@))
    } else if name.len() == 0 || name == "."@ {
        Some(web::text_reply(400, "Error: invalid name."@))
    } else if !reads::good_avatar(body.text_or("avatar_url"@, ""@)) {
        Some(web::status_only(400))
    } else {
        None
    }
}

/// A character as a form changes it, and the name that it is stored under.
pub fn edit_character(body: &Json, extras: &FormExtras, stamp: &str) -> (r: Result<
    NewCharacter,
    Reply,
>)
    ensures
        match r {
            Ok(c) => edit_error(body@) is None && c.card@ == edited_card(body@, *extras, stamp@)
                && c.file_name@ == target_of(body@.text_or("avatar_url"@, ""@)),
            Err(e) => edit_error(body@) == Some(e@),
        },
{
    if !is_filled_form(body) {
        return Err(Reply::text(400, "Error: no response body detected"));
    }
    let name = body.str_or("ch_name", "");
    if name.is_empty() || text::same(name, ".") {
        return Err(Reply::text(400, "Error: invalid name."));
    }
    let avatar = body.str_or("avatar_url", "");
    if !reads::is_good_avatar(avatar) {
        return Err(Reply::empty(400));
    }
    let mut card = make_form_card(body, extras, stamp);
    if card.is_object() {
        let mut f = card.fields();
        take_over(&mut f, body, "chat");
        take_over(&mut f, body, "create_date");
        card = f.done();
    }
    Ok(NewCharacter { card, file_name: target_file(avatar) })
}

/// The answer once a character was changed. The client's cache is to be cleared where the
/// picture is a new one and clients are told so.
pub fn edit_reply(new_image: bool, bust_cache: bool) -> (r: Reply)
    ensures
        r@ == if new_image && bust_cache {
            (web::ReplyView {
                headers: Seq::empty().push(("clear-site-data"@, "\"cache\""@)),
                ..web::text_reply(200, "OK"@)
            })
        } else {
            web::text_reply(200, "OK"@)
        },
{
    let reply = Reply::text(200, "OK");
    if new_image && bust_cache {
        reply.header("clear-site-data", "\"cache\"")
    } else {
        reply
    }
}

/// The name of the character whose picture is to be changed, or the refusal: the form has to
/// name a picture, and a new one has to come with it.
pub fn edit_character_avatar(body: &Json, image: Option<&Vec<u8>>) -> (r: Result<String, Reply>)
    ensures
        ({
            let avatar = body@.text_or("avatar_url"@, ""@);
            let ready = reads::good_avatar(avatar) && (image matches Some(d) && d@.len() > 0);
            match r {
                Ok(name) => ready && name@ == target_of(avatar),
                Err(e) => !ready && e@ == web::status_only(400),
            }
        }),
{
    let avatar = body.str_or("avatar_url", "");
    if !reads::is_good_avatar(avatar) {
        return Err(Reply::empty(400));
    }
    match image {
        Some(d) => if d.len() == 0 {
            return Err(Reply::empty(400));
        },
        None => return Err(Reply::empty(400)),
    }
    Ok(target_file(avatar))
}

/// What is wrong with a request to change one member of a card.
pub open spec fn attribute_error(body: EditAttributeRequest) -> Option<web::ReplyView> {
    let name = secrets::or_empty(json::string_opt(body.ch_name));
    if name.len() == 0 || name == "."@ {
        Some(web::text_reply(400, "Error: invalid name."@))
    } else if !reads::good_avatar(body.avatar_url@) {
        Some(web::status_only(400))
    } else if body.field@ == "json_data"@ {
        Some(web::text_reply(400, "Error: cannot edit json_data field."@))
    } else {
        None
    }
}

/// The name of the character whose card is to be changed, or the refusal.
pub fn check_attribute(body: &EditAttributeRequest) -> (r: Result<String, Reply>)
    ensures
        match r {
            Ok(name) => attribute_error(*body) is None && name@ == target_of(body.avatar_url@),
            Err(e) => attribute_error(*body) == Some(e@),
        },
{
    let name = match &body.ch_name {
        Some(s) => s.clone(),
        None => String::new(),
    };
    if name.as_str().is_empty() || text::same(&name, ".") {
        return Err(Reply::text(400, "Error: invalid name."));
    }
    if !reads::is_good_avatar(&body.avatar_url) {
        return Err(Reply::empty(400));
    }
    if text::same(&body.field, "json_data") {
        return Err(Reply::text(400, "Error: cannot edit json_data field."));
    }
    Ok(target_file(&body.avatar_url))
}

/// Why a member of a card cannot be changed. `card` is nothing where it could not be read.
pub open spec fn card_error(card: Option<json::Tree>, field: Seq<char>) -> Option<web::ReplyView> {
    match card {
        Some(t) => match t.get("data"@) {
            Some(json::Tree::Object(d)) => if t.get(field) is None && json::lookup(d, field)
                is None {
                Some(web::text_reply(400, "Error: invalid field."@))
            } else {
                None
            },
            _ => Some(web::status_only(500)),
        },
        None => Some(web::status_only(500)),
    }
}

/// A card with a value both under `field` and under `field` of its data.
pub open spec fn attribute_set(card: json::Tree, field: Seq<char>, value: json::Tree) -> json::Tree {
    helpers::at_path(
        charx::member_set(card, field, value),
        Seq::empty().push("data"@).push(field),
        value,
    )
}

fn set_attribute(card: &mut Json, field: &str, value: &Json)
    ensures
        final(card)@ == attribute_set(old(card)@, field@, value@),
{
    helpers::set_val(card, field, value.copy());
    let path = ["data", field];
    assert(helpers::slices(path@) =~= Seq::empty().push("data"@).push(field@));
    helpers::set_nested_value(card, &path, value.copy());
}

/// A card with one of its members changed. `card` is nothing where it could not be read.
pub fn edit_character_attribute(card: Option<&Json>, body: &EditAttributeRequest) -> (r: Result<
    Json,
    Reply,
>)
    ensures
        match r {
            Ok(c) => card is Some && card_error(json::tree_opt(card), body.field@) is None && c@
                == attribute_set(card->Some_0@, body.field@, body.value@),
            Err(e) => card_error(json::tree_opt(card), body.field@) == Some(e@),
        },
{
    let old = match card {
        Some(c) => c,
        None => return Err(Reply::empty(500)),
    };
    let known = match old.get("data") {
        Some(d) => match d.as_object() {
            Some(f) => old.get(&body.field).is_some() || f.contains_key(&body.field),
            None => return Err(Reply::empty(500)),
        },
        None => return Err(Reply::empty(500)),
    };
    if !known {
        return Err(Reply::text(400, "Error: invalid field."));
    }
    let mut out = old.copy();
    set_attribute(&mut out, &body.field, &body.value);
    Ok(out)
}

/// The picture of the character that an update is for.
pub open spec fn update_avatar(update: json::Tree) -> Seq<char> {
    match update.text_at("avatar"@) {
        Some(a) => a,
        None => update.text_or("avatar_url"@, ""@),
    }
}

/// The picture of the character that an update is for, or the refusal.
pub fn check_update(update: &Json) -> (r: Result<String, Reply>)
    ensures
        match r {
            Ok(a) => a@ == update_avatar(update@) && reads::good_avatar(a@),
            Err(e) => e@ == web::status_only(400) && !reads::good_avatar(update_avatar(update@)),
        },
{
    let avatar = match update.str_at("avatar") {
        Some(a) => a,
        None => update.str_or("avatar_url", ""),
    };
    if reads::is_good_avatar(avatar) {
        Ok(avatar.to_owned())
    } else {
        Err(Reply::empty(400))
    }
}

/// A value without the text of the card that it was made of.
pub open spec fn without_text(t: json::Tree) -> json::Tree {
    match t {
        json::Tree::Object(f) => json::Tree::Object(json::without(f, "json_data"@)),
        x => x,
    }
}

fn drop_text(j: &Json) -> (r: Json)
    ensures
        r@ == without_text(j@),
{
    match j.as_object() {
        Some(f) => {
            let mut g = f.copy();
            g.remove("json_data");
            g.done()
        },
        None => j.copy(),
    }
}

/// The card that an update makes of a card.
pub open spec fn updated_card(card: json::Tree, update: json::Tree) -> json::Tree {
    helpers::merged(without_text(card), without_text(update))
}

/// The answer to an update that would leave a card of no version.
pub open spec fn invalid_update(card: json::Tree, blame: Option<Seq<char>>) -> web::ReplyView {
    web::json_reply(
        400,
        json::Tree::Object(
            json::members()
                .push(("message"@, json::txt("Validation failed for "@ + card.text_or("name"@, ""@))))
                .push((
                    "error"@,
                    match blame {
                        Some(b) => json::txt(b),
                        None => json::Tree::Null,
                    },
                )),
        ),
    )
}

/// A card with an update merged into it; refused where the outcome keeps to no version of
/// the format. `card` is nothing where it could not be read, and `version` is the number that
/// the text of the outcome's `spec_version` is, by its bits.
pub fn merge_character_attributes(
    card: Option<&Json>,
    update: &Json,
    version: Option<u64>,
) -> (r: Result<Json, Reply>)
    ensures
        match card {
            Some(c) => {
                let out = updated_card(c@, update@);
                let verdict = validator::verdict(out, version);
                match r {
                    Ok(x) => x@ == out && verdict.0 is Some,
                    Err(e) => verdict.0 is None && e@ == invalid_update(out, verdict.1),
                }
            },
            None => r matches Err(e) && e@ == web::status_only(500),
        },
{
    let old = match card {
        Some(c) => c,
        None => return Err(Reply::empty(500)),
    };
    let out = helpers::deep_merge(&drop_text(old), &drop_text(update));
    let mut judge = TavernCardValidator::new(&out, version);
    if judge.validate().is_none() {
        let blame = match judge.last_error() {
            Some(s) => Json::text(s),
            None => Json::Null,
        };
        let message = text::join2("Validation failed for ", out.str_or("name", ""));
        return Err(
            Reply::json(
                400,
                Fields::new().with("message", Json::Text(message)).with("error", blame).done(),
            ),
        );
    }
    Ok(out)
}

/// A character that gets a new name: the name, and the names that it was and is stored
/// under.
#[derive(Debug)]
pub struct Renaming {
    pub new_name: String,
    pub old_internal_name: String,
    pub new_internal_name: String,
}

impl Renaming {
    /// Whether the file under the old name is to be removed.
    pub fn leaves_old_file(&self) -> (r: bool)
        ensures
            r == (self.old_internal_name@ != self.new_internal_name@),
    {
        !text::same(&self.old_internal_name, &self.new_internal_name)
    }

    /// The answer once the character has its new name.
    pub fn reply(&self) -> (r: Reply)
        ensures
            r@ == web::json_reply(
                200,
                json::Tree::Object(
                    json::members().push((
                        "avatar"@,
                        json::txt(self.new_internal_name@ + ".png"@),
                    )),
                ),
            ),
    {
        let name = avatar_name(&self.new_internal_name);
        Reply::json(200, Fields::new().with("avatar", Json::Text(name)).done())
    }
}

/// The new name of a character, made safe before, and where it is stored; refused where the
/// request names no picture or the name is empty.
pub fn rename_to(avatar_url: &str, new_name: &str, files: &Vec<String>) -> (r: Result<
    Renaming,
    Reply,
>)
    ensures
        match r {
            Ok(x) => {
                &&& reads::good_avatar(avatar_url@)
                &&& new_name@.len() > 0
                &&& x.new_name@ == new_name@
                &&& x.old_internal_name@ == secrets::or_empty(paths::path_stem(avatar_url@))
                &&& naming::is_first_free(
                    x.new_internal_name@,
                    new_name@,
                    ".png"@,
                    json::texts(files@),
                )
            },
            Err(e) => e@ == web::status_only(400) && !(reads::good_avatar(avatar_url@)
                && new_name@.len() > 0),
        },
{
    if !reads::is_good_avatar(avatar_url) || new_name.is_empty() {
        return Err(Reply::empty(400));
    }
    Ok(
        Renaming {
            new_name: new_name.to_owned(),
            old_internal_name: secrets::unwrap_or_empty(paths::file_stem(avatar_url)),
            new_internal_name: helpers::get_png_name(new_name, files),
        },
    )
}

/// The new name of a character and where it is stored.
pub fn rename_character(body: &RenameRequest, files: &Vec<String>) -> (r: Result<Renaming, Reply>)
    ensures
        ({
            let name = sanitize::sanitized(body.new_name@, ""@);
            match r {
                Ok(x) => {
                    &&& reads::good_avatar(body.avatar_url@)
                    &&& name.len() > 0
                    &&& x.new_name@ == name
                    &&& x.old_internal_name@ == secrets::or_empty(
                        paths::path_stem(body.avatar_url@),
                    )
                    &&& naming::is_first_free(
                        x.new_internal_name@,
                        name,
                        ".png"@,
                        json::texts(files@),
                    )
                },
                Err(e) => e@ == web::status_only(400) && !(reads::good_avatar(body.avatar_url@)
                    && name.len() > 0),
            }
        }),
{
    let name = sanitize::sanitize_filename_strip(&body.new_name);
    rename_to(&body.avatar_url, &name, files)
}

/// Writes the new name of a character into its card.
pub fn rename_card(card: &mut Json, new_name: &str)
    ensures
        final(card)@ == attribute_set(old(card)@, "name"@, json::txt(new_name@)),
{
    set_attribute(card, "name", &Json::text(new_name));
}

/// The picture of the character that is to be copied, or the refusal.
pub fn duplicate_character(body: &DuplicateRequest) -> (r: Result<String, Reply>)
    ensures
        match r {
            Ok(name) => reads::good_avatar(body.avatar_url@) && name@ == sanitize::sanitized(
                body.avatar_url@,
                ""@,
            ),
            Err(e) => e@ == web::status_only(400) && !reads::good_avatar(body.avatar_url@),
        },
{
    if !reads::is_good_avatar(&body.avatar_url) {
        return Err(Reply::empty(400));
    }
    Ok(sanitize::sanitize_filename_strip(&body.avatar_url))
}

/// The number at the end of a name, behind an underscore, and what precedes it.
pub open spec fn numbered_copy(stem: Seq<char>) -> (Seq<char>, nat) {
    let parts = text::pieces(stem, '_');
    if parts.len() > 1 {
        match numbers::u64_value(parts.last()) {
            Some(n) => if n <= u32::MAX {
                (text::joined(parts.drop_last(), "_"@), n as nat + 1)
            } else {
                (stem, 1)
            },
            None => (stem, 1),
        }
    } else {
        (stem, 1)
    }
}

fn find_copy_number(stem: &str) -> (r: (String, u64))
    ensures
        (r.0@, r.1 as nat) == numbered_copy(stem@),
{
    let parts = text::split(stem, '_');
    let n: usize = parts.len();
    if n > 1 {
        assert(text::pieces(stem@, '_').last() == parts@[n as int - 1]@);
        match numbers::parse_u64(&parts[n - 1]) {
            Some(number) => if number <= u32::MAX as u64 {
                let mut front: Vec<String> = Vec::new();
                let mut i: usize = 0;
                while i < n - 1
                    invariant
                        n == parts@.len(),
                        n > 1,
                        i <= n - 1,
                        front@.len() == i,
                        forall|j: int| 0 <= j < i ==> (#[trigger] front@[j])@ == parts@[j]@,
                    decreases n - i,
                {
                    front.push(parts[i].clone());
                    i += 1;
                }
                assert(json::texts(front@) =~= text::pieces(stem@, '_').drop_last());
                return (text::join(&front, "_"), number + 1);
            },
            None => {},
        }
    }
    (stem.to_owned(), 1)
}

/// The extension that the copy of a character is stored with.
pub open spec fn copy_extension(avatar: Seq<char>) -> Seq<char> {
    match paths::path_extension(avatar) {
        Some(e) => "."@ + e,
        None => ".png"@,
    }
}

/// The file that the copy of a character is stored in: the name counts on from the number at
/// its end to the first that is free.
pub fn duplicate_file(avatar: &str, files: &Vec<String>) -> (r: String)
    ensures
        ({
            let copy = numbered_copy(secrets::or_empty(paths::path_stem(avatar@)));
            let extension = copy_extension(avatar@);
            exists|name: Seq<char>|
                #[trigger] naming::is_first_numbered(
                    name,
                    copy.0 + "_"@,
                    copy.1,
                    extension,
                    json::texts(files@),
                ) && r@ == name + extension
        }),
{
    let stem = secrets::unwrap_or_empty(paths::file_stem(avatar));
    let extension = match paths::file_extension(avatar) {
        Some(e) => text::join2(".", &e),
        None => ".png".to_owned(),
    };
    let copy = find_copy_number(&stem);
    let prefix = text::join2(&copy.0, "_");
    let name = naming::first_numbered(&prefix, copy.1, &extension, files);
    assert(extension@ == copy_extension(avatar@));
    assert(naming::is_first_numbered(
        name@,
        numbered_copy(stem@).0 + "_"@,
        numbered_copy(stem@).1,
        copy_extension(avatar@),
        json::texts(files@),
    ));
    text::join2(&name, &extension)
}

/// The answer once a character was copied.
pub fn duplicate_reply(file: &str) -> (r: Reply)
    ensures
        r@ == web::json_reply(
            200,
            json::Tree::Object(json::members().push(("path"@, json::txt(file@)))),
        ),
{
    Reply::json(200, Fields::new().with("path", Json::text(file)).done())
}

/// Whether a character may be deleted, given its name made safe: nothing, or the refusal.
pub open spec fn delete_error(avatar_url: Seq<char>, safe: Seq<char>) -> Option<web::ReplyView> {
    if !reads::good_avatar(avatar_url) {
        Some(web::status_only(400))
    } else if safe != avatar_url {
        Some(web::status_only(403))
    } else {
        None
    }
}

/// Whether a character may be deleted: its picture has to be named safely.
pub fn delete_character(body: &DeleteRequest) -> (r: Result<(), Reply>)
    ensures
        match r {
            Ok(_) => delete_error(body.avatar_url@, sanitize::sanitized(body.avatar_url@, ""@))
                is None && sanitize::legal(body.avatar_url@),
            Err(e) => delete_error(body.avatar_url@, sanitize::sanitized(body.avatar_url@, ""@))
                == Some(e@),
        },
{
    if !reads::is_good_avatar(&body.avatar_url) {
        return Err(Reply::empty(400));
    }
    let safe = sanitize::sanitize_filename_strip(&body.avatar_url);
    if !text::same(&safe, &body.avatar_url) {
        return Err(Reply::empty(403));
    }
    Ok(())
}

/// The directory of the chats that are to be deleted with a character, made safe, where they
/// are; refused where the character has no name. `safe` is what its name is made safe to.
pub open spec fn chats_to_delete(
    avatar_url: Seq<char>,
    delete_chats: bool,
    safe: Seq<char>,
) -> Result<Option<Seq<char>>, web::ReplyView> {
    let name = secrets::or_empty(paths::path_stem(avatar_url));
    if name.len() == 0 {
        Err(web::status_only(403))
    } else if !delete_chats {
        Ok(None)
    } else if safe.len() == 0 {
        Err(web::status_only(403))
    } else {
        Ok(Some(safe))
    }
}

/// The outcome over plain values.
pub open spec fn chats_outcome(r: Result<Option<String>, Reply>) -> Result<
    Option<Seq<char>>,
    web::ReplyView,
> {
    match r {
        Ok(o) => Ok(json::string_opt(o)),
        Err(e) => Err(e@),
    }
}

/// The directory of the chats that are to be deleted with a character.
pub fn chats_of_deleted(body: &DeleteRequest) -> (r: Result<Option<String>, Reply>)
    ensures
        chats_outcome(r) == chats_to_delete(
            body.avatar_url@,
            body.delete_chats,
            sanitize::sanitized(secrets::or_empty(paths::path_stem(body.avatar_url@)), ""@),
        ),
{
    let name = secrets::unwrap_or_empty(paths::file_stem(&body.avatar_url));
    if name.as_str().is_empty() {
        return Err(Reply::empty(403));
    }
    if !body.delete_chats {
        return Ok(None);
    }
    let safe = sanitize::sanitize_filename_strip(&name);
    if safe.as_str().is_empty() {
        return Err(Reply::empty(403));
    }
    Ok(Some(safe))
}

/// The kinds of files that characters are imported from.
#[derive(Clone, Copy, Debug, PartialEq, Eq, Structural)]
pub enum ImportKind {
    Png,
    Json,
    Yaml,
    CharX,
    Byaf,
}

/// The kind of file that a text names.
pub open spec fn kind_named(s: Seq<char>) -> Option<ImportKind> {
    if s == "png"@ {
        Some(ImportKind::Png)
    } else if s == "json"@ {
        Some(ImportKind::Json)
    } else if s == "yaml"@ || s == "yml"@ {
        Some(ImportKind::Yaml)
    } else if s == "charx"@ {
        Some(ImportKind::CharX)
    } else if s == "byaf"@ {
        Some(ImportKind::Byaf)
    } else {
        None
    }
}

/// What a file is imported as, or the refusal: there has to be one, and its kind has to be
/// known.
pub fn import_character(body: &Json, file: Option<&Vec<u8>>) -> (r: Result<ImportKind, Reply>)
    ensures
        ({
            let there = file matches Some(d) && d@.len() > 0;
            let kind = kind_named(body@.text_or("file_type"@, ""@));
            match r {
                Ok(k) => there && kind == Some(k),
                Err(e) => if !there {
                    e@ == web::status_only(400)
                } else {
                    kind is None && e@ == web::text_reply(400, "Unknown file type"@)
                },
            }
        }),
{
    match file {
        Some(d) => if d.len() == 0 {
            return Err(Reply::empty(400));
        },
        None => return Err(Reply::empty(400)),
    }
    let kind = body.str_or("file_type", "");
    if text::same(kind, "png") {
        Ok(ImportKind::Png)
    } else if text::same(kind, "json") {
        Ok(ImportKind::Json)
    } else if text::same(kind, "yaml") || text::same(kind, "yml") {
        Ok(ImportKind::Yaml)
    } else if text::same(kind, "charx") {
        Ok(ImportKind::CharX)
    } else if text::same(kind, "byaf") {
        Ok(ImportKind::Byaf)
    } else {
        Err(Reply::text(400, "Unknown file type"))
    }
}

/// The name that an imported character is to keep.
pub open spec fn kept_name(body: json::Tree) -> Option<Seq<char>> {
    match secrets::filled(body.text_at("preserved_name"@)) {
        Some(s) => paths::path_stem(s),
        None => None,
    }
}

/// The name that an imported character is to keep.
pub fn preserved_name(body: &Json) -> (r: Option<String>)
    ensures
        json::string_opt(r) == kept_name(body@),
{
    proof {
        reveal_strlit("");
    }
    let name = body.str_or("preserved_name", "");
    if name.is_empty() {
        None
    } else {
        paths::file_stem(name)
    }
}

/// The answer once a character was imported.
pub fn import_reply(file_name: &str) -> (r: Reply)
    ensures
        r@ == web::json_reply(
            200,
            json::Tree::Object(json::members().push(("file_name"@, json::txt(file_name@)))),
        ),
{
    Reply::json(200, Fields::new().with("file_name", Json::text(file_name)).done())
}

/// The name that an imported character is stored under: the one that it is to keep, or else
/// the first free one for its own.
pub fn import_file_name(preserved: Option<&str>, name: &str, files: &Vec<String>) -> (r: String)
    ensures
        match preserved {
            Some(p) => r@ == p@,
            None => naming::is_first_free(r@, name@, ".png"@, json::texts(files@)),
        },
{
    match preserved {
        Some(p) => p.to_owned(),
        None => helpers::get_png_name(name, files),
    }
}

/// The name of the character of a card: that of its data comes first.
pub open spec fn name_on_card(card: json::Tree) -> Seq<char> {
    let inner = match card.get("data"@) {
        Some(d) => d.text_at("name"@),
        None => None,
    };
    match inner {
        Some(n) => n,
        None => card.text_or("name"@, "Unknown"@),
    }
}

/// The name of the character of a card.
pub fn card_name(card: &Json) -> (r: String)
    ensures
        r@ == name_on_card(card@),
{
    let inner = match card.get("data") {
        Some(d) => d.str_at("name"),
        None => None,
    };
    match inner {
        Some(n) => n.to_owned(),
        None => card.str_or("name", "Unknown").to_owned(),
    }
}

/// A card from a picture with its name made safe.
pub fn import_from_png(card: &Json) -> (r: charx::NamedCard)
    ensures
        r.name@ == sanitize::sanitized(name_on_card(card@), ""@),
        r.card@ == charx::member_set(card@, "name"@, json::txt(r.name@)),
{
    let name = sanitize::sanitize_filename_strip(&card_name(card));
    let mut out = card.copy();
    helpers::set_val(&mut out, "name", Json::text(&name));
    charx::NamedCard { card: out, name }
}

/// What the maker of a card of an early format notes on it.
pub open spec fn maker_notes(t: json::Tree) -> Seq<char> {
    match t.text_at("creatorcomment"@) {
        Some(c) => c,
        None => match t.text_at("creator_notes"@) {
            Some(n) => text::replaced(n, "Creator's notes go here."@, ""@),
            None => Seq::empty(),
        },
    }
}

fn read_notes(j: &Json) -> (r: String)
    ensures
        r@ == maker_notes(j@),
{
    proof {
        reveal_strlit("Creator's notes go here.");
    }
    match j.str_at("creatorcomment") {
        Some(c) => c.to_owned(),
        None => match j.str_at("creator_notes") {
            Some(n) => text::replace(n, "Creator's notes go here.", ""),
            None => String::new(),
        },
    }
}

/// The texts of a card of an early format that differ from kind to kind.
pub struct EarlyTexts {
    pub description: Seq<char>,
    pub personality: Seq<char>,
    pub first_mes: Seq<char>,
    pub chat_name: Seq<char>,
    pub mes_example: Seq<char>,
    pub scenario: Seq<char>,
}

/// The members of a card of the first format that an early card is taken for.
pub open spec fn early_card(
    t: json::Tree,
    name: Seq<char>,
    x: EarlyTexts,
    stamp: Seq<char>,
    now: Seq<char>,
) -> Seq<(Seq<char>, json::Tree)> {
    json::members()
        .push(("name"@, json::txt(name)))
        .push(("description"@, json::txt(x.description)))
        .push(("creatorcomment"@, json::txt(maker_notes(t))))
        .push(("personality"@, json::txt(x.personality)))
        .push(("first_mes"@, json::txt(x.first_mes)))
        .push(("avatar"@, json::txt("none"@)))
        .push(("chat"@, json::txt(helpers::first_chat(x.chat_name, stamp))))
        .push(("mes_example"@, json::txt(x.mes_example)))
        .push(("scenario"@, json::txt(x.scenario)))
        .push(("create_date"@, json::txt(now)))
        .push(("talkativeness"@, json::tree_or(t.get("talkativeness"@), helpers::half())))
        .push(("creator"@, json::txt(t.text_or("creator"@, ""@))))
        .push(("tags"@, json::tree_or(t.get("tags"@), json::txt(Seq::empty()))))
}

/// The card of the first format that a card with a name is taken for.
pub open spec fn named_card(
    t: json::Tree,
    name: Seq<char>,
    stamp: Seq<char>,
    now: Seq<char>,
) -> json::Tree {
    json::Tree::Object(
        early_card(
            t,
            name,
            EarlyTexts {
                description: t.text_or("description"@, ""@),
                personality: t.text_or("personality"@, ""@),
                first_mes: t.text_or("first_mes"@, ""@),
                chat_name: name,
                mes_example: t.text_or("mes_example"@, ""@),
                scenario: t.text_or("scenario"@, ""@),
            },
            stamp,
            now,
        ),
    )
}

/// The card of the first format that a card with a name, made safe, is taken for.
pub fn named_card_base(j: &Json, name: &str, stamp: &str, now: &str) -> (r: Json)
    ensures
        r@ == named_card(j@, name@, stamp@, now@),
{
    Fields::new()
        .with("name", Json::text(name))
        .with("description", Json::text(j.str_or("description", "")))
        .with("creatorcomment", Json::Text(read_notes(j)))
        .with("personality", Json::text(j.str_or("personality", "")))
        .with("first_mes", Json::text(j.str_or("first_mes", "")))
        .with("avatar", Json::text("none"))
        .with("chat", Json::Text(text::join3(name, " - ", stamp)))
        .with("mes_example", Json::text(j.str_or("mes_example", "")))
        .with("scenario", Json::text(j.str_or("scenario", "")))
        .with("create_date", Json::text(now))
        .with("talkativeness", j.get_or("talkativeness", helpers::one_half()))
        .with("creator", Json::text(j.str_or("creator", "")))
        .with("tags", j.get_or("tags", Json::Text(String::new())))
        .done()
}

/// The card of the first format that a card of the oldest one is taken for.
pub open spec fn oldest_card(
    t: json::Tree,
    name: Seq<char>,
    stamp: Seq<char>,
    now: Seq<char>,
) -> json::Tree {
    json::Tree::Object(
        early_card(
            t,
            name,
            EarlyTexts {
                description: t.text_or("char_persona"@, ""@),
                personality: Seq::empty(),
                first_mes: t.text_or("char_greeting"@, ""@),
                chat_name: t.text_or("name"@, "undefined"@),
                mes_example: t.text_or("example_dialogue"@, ""@),
                scenario: t.text_or("world_scenario"@, ""@),
            },
            stamp,
            now,
        ),
    )
}

/// The card of the first format that a card of the oldest one, with its name made safe, is
/// taken for.
pub fn oldest_card_base(j: &Json, name: &str, stamp: &str, now: &str) -> (r: Json)
    ensures
        r@ == oldest_card(j@, name@, stamp@, now@),
{
    Fields::new()
        .with("name", Json::text(name))
        .with("description", Json::text(j.str_or("char_persona", "")))
        .with("creatorcomment", Json::Text(read_notes(j)))
        .with("personality", Json::Text(String::new()))
        .with("first_mes", Json::text(j.str_or("char_greeting", "")))
        .with("avatar", Json::text("none"))
        .with("chat", Json::Text(text::join3(j.str_or("name", "undefined"), " - ", stamp)))
        .with("mes_example", Json::text(j.str_or("example_dialogue", "")))
        .with("scenario", Json::text(j.str_or("world_scenario", "")))
        .with("create_date", Json::text(now))
        .with("talkativeness", j.get_or("talkativeness", helpers::one_half()))
        .with("creator", Json::text(j.str_or("creator", "")))
        .with("tags", j.get_or("tags", Json::Text(String::new())))
        .done()
}

/// What a JSON file is imported as: a card of a version that it names, or a card of the first
/// format made of one with a name or one of the oldest format.
#[derive(Debug)]
pub enum JsonImport {
    Card(Json),
    Early(charx::NamedCard),
}

/// The card that a JSON file holds.
pub open spec fn held_card(t: json::Tree) -> json::Tree {
    match t.get("char_json"@) {
        Some(c) => c,
        None => t,
    }
}

/// The card that a JSON file holds, with its name where it is made from one of an earlier format;
/// or the refusal.
pub open spec fn json_import(file: json::Tree, stamp: Seq<char>, now: Seq<char>) -> Result<
    (Option<Seq<char>>, json::Tree),
    web::ReplyView,
> {
    let t = held_card(file);
    if t.get("spec"@) is Some {
        Ok((None, t))
    } else {
        match t.text_at("name"@) {
            Some(n) => {
                let name = sanitize::sanitized(n, ""@);
                Ok((Some(name), named_card(t, name, stamp, now)))
            },
            None => match t.text_at("char_name"@) {
                Some(n) => {
                    let name = sanitize::sanitized(n, ""@);
                    Ok((Some(name), oldest_card(t, name, stamp, now)))
                },
                None => Err(web::text_reply(400, "Invalid JSON"@)),
            },
        }
    }
}

/// What a JSON file is imported as, or the refusal.
pub fn import_from_json(file: &Json, stamp: &str, now: &str) -> (r: Result<JsonImport, Reply>)
    ensures
        match r {
            Ok(JsonImport::Card(c)) => json_import(file@, stamp@, now@) == Ok::<
                (Option<Seq<char>>, json::Tree),
                web::ReplyView,
            >((None, c@)),
            Ok(JsonImport::Early(x)) => json_import(file@, stamp@, now@) == Ok::<
                (Option<Seq<char>>, json::Tree),
                web::ReplyView,
            >((Some(x.name@), x.card@)),
            Err(e) => json_import(file@, stamp@, now@) == Err::<
                (Option<Seq<char>>, json::Tree),
                web::ReplyView,
            >(e@),
        },
{
    let t = match file.get("char_json") {
        Some(c) => c,
        None => file,
    };
    if t.get("spec").is_some() {
        return Ok(JsonImport::Card(t.copy()));
    }
    match t.str_at("name") {
        Some(n) => {
            let name = sanitize::sanitize_filename_strip(n);
            let card = named_card_base(t, &name, stamp, now);
            return Ok(JsonImport::Early(charx::NamedCard { card, name }));
        },
        None => {},
    }
    match t.str_at("char_name") {
        Some(n) => {
            let name = sanitize::sanitize_filename_strip(n);
            let card = oldest_card_base(t, &name, stamp, now);
            Ok(JsonImport::Early(charx::NamedCard { card, name }))
        },
        None => Err(Reply::text(400, "Invalid JSON")),
    }
}

/// A card with the time of its import.
pub fn date_card(card: &mut Json, now: &str)
    ensures
        final(card)@ == charx::member_set(old(card)@, "create_date"@, json::txt(now@)),
{
    helpers::set_val(card, "create_date", Json::text(now));
}

/// The card of the first format that a YAML file is taken for.
pub open spec fn yaml_card(
    t: json::Tree,
    name: Seq<char>,
    stamp: Seq<char>,
    now: Seq<char>,
) -> json::Tree {
    json::Tree::Object(
        json::members()
            .push(("name"@, json::txt(name)))
            .push(("description"@, json::txt(t.text_or("context"@, ""@))))
            .push(("first_mes"@, json::txt(t.text_or("greeting"@, ""@))))
            .push(("create_date"@, json::txt(now)))
            .push(("chat"@, json::txt(helpers::first_chat(name, stamp))))
            .push(("personality"@, json::txt(Seq::empty())))
            .push(("creatorcomment"@, json::txt(Seq::empty())))
            .push(("avatar"@, json::txt("none"@)))
            .push(("mes_example"@, json::txt(Seq::empty())))
            .push(("scenario"@, json::txt(Seq::empty())))
            .push(("talkativeness"@, helpers::half()))
            .push(("creator"@, json::txt(Seq::empty())))
            .push(("tags"@, json::txt(Seq::empty()))),
    )
}

/// The card of the first format that a YAML file is taken for, with its name made safe.
pub fn import_from_yaml(file: &Json, stamp: &str, now: &str) -> (r: charx::NamedCard)
    ensures
        r.name@ == sanitize::sanitized(file@.text_or("name"@, "Unknown"@), ""@),
        r.card@ == yaml_card(file@, r.name@, stamp@, now@),
{
    let name = sanitize::sanitize_filename_strip(file.str_or("name", "Unknown"));
    let card = Fields::new()
        .with("name", Json::text(&name))
        .with("description", Json::text(file.str_or("context", "")))
        .with("first_mes", Json::text(file.str_or("greeting", "")))
        .with("create_date", Json::text(now))
        .with("chat", Json::Text(text::join3(&name, " - ", stamp)))
        .with("personality", Json::Text(String::new()))
        .with("creatorcomment", Json::Text(String::new()))
        .with("avatar", Json::text("none"))
        .with("mes_example", Json::Text(String::new()))
        .with("scenario", Json::Text(String::new()))
        .with("talkativeness", helpers::one_half())
        .with("creator", Json::Text(String::new()))
        .with("tags", Json::Text(String::new()))
        .done();
    charx::NamedCard { card, name }
}

/// The picture of the character that is to be handed out, made safe, or the refusal.
pub fn export_character(body: &ExportRequest) -> (r: Result<String, Reply>)
    ensures
        match r {
            Ok(name) => reads::good_avatar(body.avatar_url@) && name@ == sanitize::sanitized(
                body.avatar_url@,
                ""@,
            ),
            Err(e) => e@ == web::status_only(400) && !reads::good_avatar(body.avatar_url@),
        },
{
    if !reads::is_good_avatar(&body.avatar_url) {
        return Err(Reply::empty(400));
    }
    Ok(sanitize::sanitize_filename_strip(&body.avatar_url))
}

/// Whether a character is handed out as a picture, or else as JSON; refused in another form.
pub fn exports_picture(format: &str) -> (r: Result<bool, Reply>)
    ensures
        match r {
            Ok(picture) => if picture {
                format@ == "png"@
            } else {
                format@ == "json"@
            },
            Err(e) => format@ != "png"@ && format@ != "json"@ && e@ == web::text_reply(
                400,
                "Unsupported export format"@,
            ),
        },
{
    proof {
        reveal_strlit("png");
        reveal_strlit("json");
    }
    if text::same(format, "png") {
        Ok(true)
    } else if text::same(format, "json") {
        Ok(false)
    } else {
        Err(Reply::text(400, "Unsupported export format"))
    }
}

/// What a character that is handed out is called.
pub open spec fn export_label(avatar: Seq<char>) -> Seq<char> {
    secrets::text_or(paths::path_stem(avatar), "character"@)
}

/// The header that tells what a character that is handed out is called.
pub open spec fn disposition(avatar: Seq<char>, extension: Seq<char>) -> Seq<char> {
    "attachment; filename=\""@ + export_label(avatar) + extension + "\""@
}

fn make_disposition(avatar: &str, extension: &str) -> (r: String)
    ensures
        r@ == disposition(avatar@, extension@),
{
    let label = secrets::unwrap_or(&paths::file_stem(avatar), "character");
    let mut out = text::join3("attachment; filename=\"", &label, extension);
    out.push_str("\"");
    out
}

/// A character handed out as a picture. `avatar` is what it is called after.
pub fn export_picture(avatar: &str, image: Vec<u8>) -> (r: Reply)
    ensures
        r@ == (web::ReplyView {
            status: 200,
            headers: Seq::empty().push(("content-disposition"@, disposition(avatar@, ".png"@))),
            payload: web::PayloadView::Bytes("image/png"@, image@),
        }),
{
    let shown = make_disposition(avatar, ".png");
    Reply::bytes(200, "image/png", image).header("content-disposition", &shown)
}

/// A character handed out as the bytes of a JSON text.
pub fn export_json(avatar: &str, text: Vec<u8>) -> (r: Reply)
    ensures
        r@ == (web::ReplyView {
            status: 200,
            headers: Seq::empty().push(("content-disposition"@, disposition(avatar@, ".json"@))),
            payload: web::PayloadView::Bytes("application/json; charset=utf-8"@, text@),
        }),
{
    let shown = make_disposition(avatar, ".json");
    Reply::bytes(200, "application/json; charset=utf-8", text).header(
        "content-disposition",
        &shown,
    )
}

/// A member that was changed is read back from the card and from its data.
pub proof fn attribute_reads_back(card: json::Tree, field: Seq<char>, value: json::Tree)
    requires
        card_error(Some(card), field) is None,
        field != "data"@,
    ensures
        attribute_set(card, field, value).get(field) == Some(value),
        attribute_set(card, field, value).get("data"@) matches Some(d) && d.get(field) == Some(
            value,
        ),
{
    let f = card->Object_0;
    let g = json::put(f, field, value);
    let path = Seq::empty().push("data"@).push(field);
    json::lookup_after_put(f, field, value);
    json::lookup_after_put_elsewhere(f, field, value, "data"@);
    let child = json::tree_or(json::lookup(g, "data"@), json::Tree::Object(Seq::empty()));
    let inner = helpers::at_path(child, path.skip(1), value);
    assert(path.skip(1) =~= Seq::empty().push(field));
    let d = json::fields_of(Some(child));
    assert(inner == json::Tree::Object(json::put(d, field, value)));
    json::lookup_after_put(d, field, value);
    json::lookup_after_put(g, "data"@, inner);
    json::lookup_after_put_elsewhere(g, "data"@, inner, field);
}

} // verus!
