//! The pictures behind a chat.

use crate::json;
use crate::json::{Fields, Json};
use crate::paths;
use crate::sanitize;
use crate::text;
use crate::web;
use crate::web::Reply;
use vstd::prelude::*;

verus! {

/// The backgrounds and the size of their thumbnails.
#[derive(Debug)]
pub struct BackgroundsAllResponse {
    pub images: Vec<String>,
    pub config: ThumbnailConfig,
}

/// The size of thumbnails in pixels.
#[derive(Debug)]
pub struct ThumbnailConfig {
    pub width: u32,
    pub height: u32,
}

impl BackgroundsAllResponse {
    /// The answer as JSON.
    pub fn to_json(&self) -> (r: Json)
        ensures
            r@ == json::Tree::Object(
                json::members()
                    .push((
                        "images"@,
                        json::Tree::Array(json::text_items(json::texts(self.images@))),
                    ))
                    .push((
                        "config"@,
                        json::Tree::Object(
                            json::members()
                                .push(("width"@, json::num(self.config.width as u64)))
                                .push(("height"@, json::num(self.config.height as u64))),
                        ),
                    )),
            ),
    {
        let config = Fields::new()
            .with("width", Json::natural(self.config.width as u64))
            .with("height", Json::natural(self.config.height as u64));
        Fields::new()
            .with("images", json::texts_json(&self.images))
            .with("config", config.done())
            .done()
    }
}

/// Asks for a background to be deleted.
#[derive(Debug)]
pub struct DeleteBackgroundRequest {
    pub bg: String,
}

/// Asks for a background to be renamed.
#[derive(Debug)]
pub struct RenameBackgroundRequest {
    pub old_bg: String,
    pub new_bg: String,
}

/// The backgrounds and the size of their thumbnails.
pub fn get_all_backgrounds(images: Vec<String>, dimensions: (u32, u32)) -> (r:
    BackgroundsAllResponse)
    ensures
        r.images == images,
        r.config.width == dimensions.0,
        r.config.height == dimensions.1,
{
    BackgroundsAllResponse {
        images,
        config: ThumbnailConfig { width: dimensions.0, height: dimensions.1 },
    }
}

/// What of an upload is to be written: its bytes, under the name that it came with. It is
/// refused where either is missing or empty.
pub fn upload_background(data: Option<Vec<u8>>, name: Option<String>) -> (r: Result<
    (String, Vec<u8>),
    Reply,
>)
    ensures
        match (data, name) {
            (Some(d), Some(n)) => if d@.len() > 0 && n@.len() > 0 {
                r matches Ok(x) && x.0 == n && x.1 == d
            } else {
                r matches Err(e) && e@ == web::status_only(400)
            },
            _ => r matches Err(e) && e@ == web::status_only(400),
        },
{
    let d = match data {
        Some(d) => if d.len() == 0 {
            return Err(Reply::empty(400));
        } else {
            d
        },
        None => return Err(Reply::empty(400)),
    };
    match name {
        Some(n) => if n.as_str().is_empty() {
            Err(Reply::empty(400))
        } else {
            Ok((n, d))
        },
        None => Err(Reply::empty(400)),
    }
}

/// The path of the background to be deleted; a name that is not safe as it stands is
/// forbidden.
pub fn delete_background(body: &DeleteBackgroundRequest, backgrounds: &str) -> (r: Result<
    String,
    Reply,
>)
    ensures
        match r {
            Ok(p) => sanitize::sanitized(body.bg@, ""@) == body.bg@ && p@ == paths::joined_path(
                backgrounds@,
                body.bg@,
            ),
            Err(e) => sanitize::sanitized(body.bg@, ""@) != body.bg@ && e@ == web::status_only(403),
        },
{
    let name = sanitize::sanitize_filename_strip(&body.bg);
    if !text::same(&name, &body.bg) {
        return Err(Reply::empty(403));
    }
    Ok(paths::join(backgrounds, &name))
}

/// The answer once a background was to be deleted: whether there was one, and whether it is
/// gone.
pub fn deletion_reply(found: bool, removed: bool) -> (r: Reply)
    ensures
        r@ == if !found {
            web::status_only(400)
        } else if !removed {
            web::status_only(500)
        } else {
            web::html_reply(200, "ok"@)
        },
{
    if !found {
        Reply::empty(400)
    } else if !removed {
        Reply::empty(500)
    } else {
        Reply::html(200, "ok")
    }
}

/// The paths that a background is moved from and to.
#[derive(Debug)]
pub struct Renaming {
    pub old_path: String,
    pub new_path: String,
}

/// The paths that a background is moved from and to, of the names made safe.
pub fn rename_background(body: &RenameBackgroundRequest, backgrounds: &str) -> (r: Renaming)
    ensures
        r.old_path@ == paths::joined_path(
            backgrounds@,
            sanitize::sanitized(body.old_bg@, ""@),
        ),
        r.new_path@ == paths::joined_path(
            backgrounds@,
            sanitize::sanitized(body.new_bg@, ""@),
        ),
{
    Renaming {
        old_path: paths::join(backgrounds, &sanitize::sanitize_filename_strip(&body.old_bg)),
        new_path: paths::join(backgrounds, &sanitize::sanitize_filename_strip(&body.new_bg)),
    }
}

/// Whether a background can be moved: there has to be one, and none in its new place.
pub fn rename_check(old_found: bool, new_found: bool) -> (r: Result<(), Reply>)
    ensures
        match r {
            Ok(_) => old_found && !new_found,
            Err(e) => (!old_found || new_found) && e@ == web::status_only(400),
        },
{
    if !old_found || new_found {
        Err(Reply::empty(400))
    } else {
        Ok(())
    }
}

} // verus!
