//! The pictures of a user's personas.

use crate::images;
use crate::json;
use crate::json::{Fields, Json};
use crate::outside;
use crate::paths;
use crate::sanitize;
use crate::secrets;
use crate::text;
use crate::web;
use crate::web::Reply;
use vstd::prelude::*;

verus! {

/// The width of an avatar in pixels.
pub const AVATAR_WIDTH: u32 = 512;

/// The height of an avatar in pixels.
pub const AVATAR_HEIGHT: u32 = 768;

/// Asks for an avatar to be deleted.
#[derive(Debug)]
pub struct DeleteAvatarRequest {
    pub avatar: String,
}

/// The name that an avatar was stored under.
#[derive(Debug)]
pub struct UploadAvatarResponse {
    pub path: String,
}

impl UploadAvatarResponse {
    /// The answer as JSON.
    pub fn to_json(&self) -> (r: Json)
        ensures
            r@ == json::Tree::Object(json::members().push(("path"@, json::txt(self.path@)))),
    {
        Fields::new().with("path", Json::text(&self.path)).done()
    }
}

/// What the address of an upload may add: the part of the picture to keep, as JSON.
#[derive(Debug)]
pub struct UploadAvatarQuery {
    pub crop: Option<String>,
}

/// Whether a file name holds a path separator or a null character.
pub open spec fn forbidden(s: Seq<char>) -> bool {
    s.contains('/') || s.contains('\\') || s.contains('\0')
}

/// Whether a file name holds a path separator or a null character.
pub fn contains_forbidden_chars(s: &str) -> (r: bool)
    ensures
        r == forbidden(s@),
{
    text::contains_char(s, '/') || text::contains_char(s, '\\') || text::contains_char(s, '\0')
}

/// The name of the avatar to be deleted, or the refusal: a name with a separator in it is
/// bad, one that is not safe as it stands is forbidden.
pub fn delete_avatar(body: &DeleteAvatarRequest) -> (r: Result<String, Reply>)
    ensures
        match r {
            Ok(name) => !forbidden(body.avatar@) && name@ == body.avatar@ && sanitize::legal(name@)
                && sanitize::sanitized(body.avatar@, ""@) == body.avatar@,
            Err(e) => if forbidden(body.avatar@) {
                e@ == web::status_only(400)
            } else {
                sanitize::sanitized(body.avatar@, ""@) != body.avatar@ && e@ == web::status_only(
                    403,
                )
            },
        },
{
    if contains_forbidden_chars(&body.avatar) {
        return Err(Reply::empty(400));
    }
    let name = sanitize::sanitize_filename_strip(&body.avatar);
    if !text::same(&name, &body.avatar) {
        return Err(Reply::empty(403));
    }
    Ok(name)
}

/// The answer once an avatar was to be deleted: whether there was one, and whether it is
/// gone.
pub fn deletion_reply(found: bool, removed: bool) -> (r: Reply)
    ensures
        r@ == if !found {
            web::status_only(404)
        } else if !removed {
            web::status_only(500)
        } else {
            web::json_reply(
                200,
                json::Tree::Object(json::members().push(("result"@, json::txt("ok"@)))),
            )
        },
{
    if !found {
        Reply::empty(404)
    } else if !removed {
        Reply::empty(500)
    } else {
        Reply::json(200, Fields::new().with("result", Json::text("ok")).done())
    }
}

/// The fields of an upload as they come in.
#[derive(Debug)]
pub struct UploadForm {
    pub avatar: Option<Vec<u8>>,
    pub overwrite_name: Option<String>,
}

impl UploadForm {
    /// No fields yet.
    pub fn new() -> (r: UploadForm)
        ensures
            r.avatar is None,
            r.overwrite_name is None,
    {
        UploadForm { avatar: None, overwrite_name: None }
    }

    /// The picture itself came in; without bytes where it could not be read.
    pub fn take_avatar(&mut self, bytes: Option<Vec<u8>>) -> (r: Result<(), Reply>)
        ensures
            match bytes {
                Some(b) => r is Ok && final(self).avatar == Some(b),
                None => r matches Err(e) && e@ == web::status_only(400) && final(self).avatar
                    == old(self).avatar,
            },
            final(self).overwrite_name == old(self).overwrite_name,
    {
        match bytes {
            Some(b) => {
                self.avatar = Some(b);
                Ok(())
            },
            None => Err(Reply::empty(400)),
        }
    }

    /// The name to overwrite came in. An empty one, or one that could not be read, counts
    /// as none.
    pub fn take_overwrite_name(&mut self, name: Option<String>) -> (r: Result<(), Reply>)
        ensures
            final(self).avatar == old(self).avatar,
            match secrets::filled(json::string_opt(name)) {
                Some(s) => if forbidden(s) {
                    (r matches Err(e) && e@ == web::status_only(400))
                        && final(self).overwrite_name == old(self).overwrite_name
                } else {
                    r is Ok && json::string_opt(final(self).overwrite_name) == Some(s)
                },
                None => r is Ok && final(self).overwrite_name == old(self).overwrite_name,
            },
    {
        match name {
            Some(s) => if s.as_str().is_empty() {
                Ok(())
            } else if contains_forbidden_chars(&s) {
                Err(Reply::empty(400))
            } else {
                self.overwrite_name = Some(s);
                Ok(())
            },
            None => Ok(()),
        }
    }

    /// The bytes of the picture, or the refusal where none came in.
    pub fn image(&self) -> (r: Result<&Vec<u8>, Reply>)
        ensures
            match r {
                Ok(b) => self.avatar == Some(*b) && b@.len() > 0,
                Err(e) => e@ == web::status_only(400) && (self.avatar is None
                    || self.avatar->Some_0@.len() == 0),
            },
    {
        match &self.avatar {
            Some(b) => if b.len() > 0 {
                Ok(b)
            } else {
                Err(Reply::empty(400))
            },
            None => Err(Reply::empty(400)),
        }
    }
}

/// The name that an avatar is stored under: the one to overwrite, made safe, or one made of
/// the time.
pub open spec fn upload_name(overwrite: Option<Seq<char>>, millis: nat) -> Seq<char> {
    match overwrite {
        Some(name) => sanitize::sanitized(name, ""@),
        None => text::decimal(millis) + ".png"@,
    }
}

/// The name that an avatar is stored under. `millis` is the time.
pub fn upload_filename(overwrite: Option<&str>, millis: u128) -> (r: String)
    ensures
        r@ == upload_name(json::text_opt(overwrite), millis as nat),
{
    match overwrite {
        Some(name) => sanitize::sanitize_filename_strip(name),
        None => text::join2(&text::decimal_text(millis), ".png"),
    }
}

/// Whether and for whom caches are to be cleared.
#[derive(Debug)]
pub struct CacheBuster {
    pub enabled: bool,
    pub user_agent_pattern: String,
}

/// Whether the cache is to be cleared, given what looking for the expression in the
/// client's name came to: an expression that is none matches every client.
pub open spec fn busted(enabled: bool, pattern: Seq<char>, found: Option<bool>) -> bool {
    enabled && (text::trimmed(pattern).len() == 0 || found != Some(false))
}

/// Whether the cache is to be cleared, given what looking for the expression in the
/// client's name came to.
pub fn bust_decision(config: &CacheBuster, found: Option<bool>) -> (r: bool)
    ensures
        r == busted(config.enabled, config.user_agent_pattern@, found),
{
    if !config.enabled {
        return false;
    }
    if text::trim(&config.user_agent_pattern).as_str().is_empty() {
        return true;
    }
    match found {
        Some(b) => b,
        None => true,
    }
}

/// Whether the client's cache is to be cleared.
pub fn should_bust_cache(config: &CacheBuster, user_agent: Option<&str>) -> (r: bool)
    ensures
        r == busted(
            config.enabled,
            config.user_agent_pattern@,
            outside::regex_found(
                text::trimmed(config.user_agent_pattern@),
                secrets::text_or(json::text_opt(user_agent), ""@),
            ),
        ),
{
    let agent = match user_agent {
        Some(s) => s,
        None => "",
    };
    let pattern = text::trim(&config.user_agent_pattern);
    bust_decision(config, outside::matches_ignoring_case(&pattern, agent))
}

/// A part of a picture.
#[derive(Clone, Copy, Debug, PartialEq, Eq, Structural)]
pub struct Region {
    pub x: u32,
    pub y: u32,
    pub width: u32,
    pub height: u32,
}

/// The smaller of two numbers.
pub open spec fn least(a: int, b: int) -> int {
    if a <= b {
        a
    } else {
        b
    }
}

/// The part `want` as far as it lies in a picture of the given size.
pub open spec fn clamped(want: Region, width: u32, height: u32) -> Region {
    let x = least(want.x as int, if width == 0 { 0 } else { width - 1 });
    let y = least(want.y as int, if height == 0 { 0 } else { height - 1 });
    Region {
        x: x as u32,
        y: y as u32,
        width: least(want.width as int, width - x) as u32,
        height: least(want.height as int, height - y) as u32,
    }
}

/// The part `want` as far as it lies in a picture of the given size.
pub fn clamp_region(want: Region, width: u32, height: u32) -> (r: Region)
    ensures
        r == clamped(want, width, height),
        r.x + r.width <= width,
        r.y + r.height <= height,
{
    let right: u32 = if width == 0 {
        0
    } else {
        width - 1
    };
    let bottom: u32 = if height == 0 {
        0
    } else {
        height - 1
    };
    let x: u32 = if want.x <= right {
        want.x
    } else {
        right
    };
    let y: u32 = if want.y <= bottom {
        want.y
    } else {
        bottom
    };
    let w: u32 = if want.width <= width - x {
        want.width
    } else {
        width - x
    };
    let h: u32 = if want.height <= height - y {
        want.height
    } else {
        height - y
    };
    Region { x, y, width: w, height: h }
}

/// The size that a picture comes out in: that of an avatar where that is wanted, otherwise
/// that of the part that is kept.
pub fn final_size(kept: Region, want_resize: bool) -> (r: (u32, u32))
    ensures
        r == if want_resize {
            (AVATAR_WIDTH, AVATAR_HEIGHT)
        } else {
            (kept.width, kept.height)
        },
{
    if want_resize {
        (AVATAR_WIDTH, AVATAR_HEIGHT)
    } else {
        (kept.width, kept.height)
    }
}

/// The bytes that are kept of a picture: those of the cut and scaled one, or the bytes as they
/// came where they are no picture or no PNG file could be made of it.
pub fn kept_picture(data: Vec<u8>, made: Option<Vec<u8>>) -> (r: Vec<u8>)
    ensures
        r@ == match made {
            Some(m) => m@,
            None => data@,
        },
{
    match made {
        Some(m) => m,
        None => data,
    }
}

/// How far in the middle `target` of `scaled` pixels begins; at the edge where they are too
/// few.
pub fn centre_offset(scaled: u32, target: u32) -> (r: u32)
    ensures
        r == if scaled >= target {
            ((scaled - target) / 2) as u32
        } else {
            0
        },
        scaled >= target ==> r + target <= scaled,
{
    if scaled >= target {
        (scaled - target) / 2
    } else {
        0
    }
}

/// The answer that lists the avatars.
pub fn get_avatars(names: &Vec<String>) -> (r: Reply)
    ensures
        r@ == web::json_reply(200, images::text_array(json::texts(names@))),
{
    images::listing_reply(Some(names), false)
}

/// An avatar to be written, and the picture of another of which a small copy is no longer
/// good.
#[derive(Debug)]
pub struct AvatarUpload {
    pub name: String,
    pub path: String,
    pub outdated: Option<String>,
}

/// The avatar to be written into the directory `avatars`, or the refusal where no picture
/// came in. `millis` is the time.
pub fn upload_avatar(form: &UploadForm, avatars: &str, millis: u128) -> (r: Result<
    AvatarUpload,
    Reply,
>)
    ensures
        match r {
            Ok(u) => {
                &&& form.avatar is Some && form.avatar->Some_0@.len() > 0
                &&& u.name@ == upload_name(json::string_opt(form.overwrite_name), millis as nat)
                &&& u.path@ == paths::joined_path(avatars@, u.name@)
                &&& json::string_opt(u.outdated) == match json::string_opt(form.overwrite_name) {
                    Some(n) => Some(sanitize::sanitized(n, ""@)),
                    None => None,
                }
            },
            Err(e) => e@ == web::status_only(400) && (form.avatar is None
                || form.avatar->Some_0@.len() == 0),
        },
{
    match form.image() {
        Ok(_) => {},
        Err(e) => return Err(e),
    }
    let outdated = match &form.overwrite_name {
        Some(n) => Some(sanitize::sanitize_filename_strip(n)),
        None => None,
    };
    let name = match &form.overwrite_name {
        Some(n) => upload_filename(Some(n.as_str()), millis),
        None => upload_filename(None, millis),
    };
    let path = paths::join(avatars, &name);
    Ok(AvatarUpload { name, path, outdated })
}

/// The answer once an avatar was to be written. The client's cache is cleared where another
/// avatar was overwritten and `bust` says so.
pub fn upload_reply(upload: &AvatarUpload, written: bool, bust: bool) -> (r: Reply)
    ensures
        r@ == ({
            let done = web::json_reply(
                200,
                json::Tree::Object(json::members().push(("path"@, json::txt(upload.name@)))),
            );
            if !written {
                web::text_reply(400, "Is not a valid image"@)
            } else if upload.outdated is Some && bust {
                web::ReplyView {
                    headers: done.headers.push(("clear-site-data"@, "\"cache\""@)),
                    ..done
                }
            } else {
                done
            }
        }),
{
    if !written {
        return Reply::text(400, "Is not a valid image");
    }
    let response = UploadAvatarResponse { path: upload.name.clone() };
    let done = Reply::json(200, response.to_json());
    if upload.outdated.is_some() && bust {
        done.header("clear-site-data", "\"cache\"")
    } else {
        done
    }
}

} // verus!
