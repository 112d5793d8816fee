//! Captions made on this machine, which this program does not offer.

use crate::json;
use crate::secrets;
use crate::web;
use crate::web::Reply;
use vstd::prelude::*;

verus! {

/// Asks for a caption for an image.
#[derive(Debug)]
pub struct CaptionRequest {
    pub image: Option<String>,
}

/// The answer to every request that brings an image: captions are not to be had here.
pub fn caption_image(body: &CaptionRequest) -> (r: Reply)
    ensures
        r@ == if secrets::filled(json::string_opt(body.image)) is Some {
            web::json_reply(
                501,
                web::error_tree(
                    "Image captioning pipeline not available in Rust sidecar. Use Node server for this feature."@,
                ),
            )
        } else {
            web::text_reply(400, "Bad Request"@)
        },
{
    if secrets::non_empty(&body.image).is_some() {
        Reply::error(
            501,
            "Image captioning pipeline not available in Rust sidecar. Use Node server for this feature.",
        )
    } else {
        Reply::text(400, "Bad Request")
    }
}

} // verus!
