//! The layouts of movable panels.

use crate::json;
use crate::json::Json;
use crate::sanitize;
use crate::text;
use crate::web;
use crate::web::Reply;
use vstd::prelude::*;

verus! {

/// The name of the file that a layout is kept in, or the refusal where it has no name.
pub fn save_moving_ui(body: &Json) -> (r: Result<String, Reply>)
    ensures
        match body@.text_at("name"@) {
            Some(n) => if n.len() > 0 {
                r matches Ok(f) && f@ == sanitize::sanitized(n + ".json"@, ""@)
            } else {
                r matches Err(e) && e@ == web::text_reply(400, "Bad Request"@)
            },
            None => r matches Err(e) && e@ == web::text_reply(400, "Bad Request"@),
        },
{
    match body.str_at("name") {
        Some(n) => if n.is_empty() {
            Err(Reply::text(400, "Bad Request"))
        } else {
            Ok(sanitize::sanitize_filename_strip(&text::join2(n, ".json")))
        },
        None => Err(Reply::text(400, "Bad Request")),
    }
}

} // verus!
