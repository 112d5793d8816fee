//! Classification of texts on this machine, which this program does not offer.

use crate::json;
use crate::secrets;
use crate::web;
use crate::web::Reply;
use vstd::prelude::*;

verus! {

/// Asks for a text to be classified.
#[derive(Debug)]
pub struct ClassifyRequest {
    pub text: Option<String>,
}

/// The message that there is no classification here.
pub open spec fn unavailable() -> web::ReplyView {
    web::json_reply(
        501,
        web::error_tree(
            "Text classification pipeline not available in Rust sidecar. Use Node server for this feature."@,
        ),
    )
}

/// The answer to a request for the labels.
pub fn classify_labels() -> (r: Reply)
    ensures
        r@ == unavailable(),
{
    Reply::error(
        501,
        "Text classification pipeline not available in Rust sidecar. Use Node server for this feature.",
    )
}

/// The answer to a request for a text to be classified.
pub fn classify_text(body: &ClassifyRequest) -> (r: Reply)
    ensures
        r@ == if secrets::filled(json::string_opt(body.text)) is Some {
            unavailable()
        } else {
            web::json_reply(400, web::error_tree("Text is required"@))
        },
{
    if secrets::non_empty(&body.text).is_some() {
        classify_labels()
    } else {
        Reply::error(400, "Text is required")
    }
}

} // verus!
