//! Captions by Anthropic.

use crate::json;
use crate::json::{Fields, Json};
use crate::secrets;
use crate::text;
use crate::web;
use crate::web::{Method, Outgoing, Reply};
use vstd::prelude::*;

verus! {

/// The name of the secret.
pub const SECRET_CLAUDE: &'static str = "api_key_claude";

/// Where the service is.
pub const API_CLAUDE: &'static str = "https://api.anthropic.com/v1";

/// Asks for a caption for an image.
#[derive(Debug)]
pub struct CaptionImageRequest {
    pub image: Option<String>,
    pub prompt: Option<String>,
    pub model: Option<String>,
    pub reverse_proxy: Option<String>,
    pub proxy_password: Option<String>,
}

/// The media type and the data of an image: those of a base64 data URI; anything else is
/// taken for the data of a PNG.
pub open spec fn image_parts(image: Seq<char>) -> (Seq<char>, Seq<char>) {
    match text::after_prefix(image, "data:"@) {
        Some(rest) => match text::parted(rest, ";base64,"@) {
            Some(p) => p,
            None => ("image/png"@, image),
        },
        None => ("image/png"@, image),
    }
}

/// The media type and the data of an image.
pub fn split_image(image: &str) -> (r: (String, String))
    ensures
        (r.0@, r.1@) == image_parts(image@),
{
    match text::strip_prefix(image, "data:") {
        Some(rest) => match text::split_once(&rest, ";base64,") {
            Some(p) => p,
            None => ("image/png".to_owned(), image.to_owned()),
        },
        None => ("image/png".to_owned(), image.to_owned()),
    }
}

/// The question about an image.
pub open spec fn question(model: Seq<char>, prompt: Seq<char>, image: Seq<char>) -> json::Tree {
    let parts = image_parts(image);
    let source = json::members()
        .push(("type"@, json::txt("base64"@)))
        .push(("media_type"@, json::txt(parts.0)))
        .push(("data"@, json::txt(parts.1)));
    let picture = json::members()
        .push(("type"@, json::txt("image"@)))
        .push(("source"@, json::Tree::Object(source)));
    let words = json::members()
        .push(("type"@, json::txt("text"@)))
        .push(("text"@, json::txt(prompt)));
    let content = json::items()
        .push(json::Tree::Object(picture))
        .push(json::Tree::Object(words));
    let message = json::members()
        .push(("role"@, json::txt("user"@)))
        .push(("content"@, json::Tree::Array(content)));
    json::Tree::Object(
        json::members()
            .push(("model"@, json::txt(model)))
            .push(("max_tokens"@, json::num(500)))
            .push(("messages"@, json::Tree::Array(json::items().push(json::Tree::Object(message))))),
    )
}

/// The question about an image.
fn ask(model: &str, prompt: &str, image: &str) -> (r: Json)
    ensures
        r@ == question(model@, prompt@, image@),
{
    let parts = split_image(image);
    let source = Fields::new()
        .with("type", Json::text("base64"))
        .with("media_type", Json::Text(parts.0))
        .with("data", Json::Text(parts.1))
        .done();
    let picture = Fields::new().with("type", Json::text("image")).with("source", source).done();
    let words = Fields::new().with("type", Json::text("text")).with("text", Json::text(prompt)).done();
    let message = Fields::new()
        .with("role", Json::text("user"))
        .with("content", Json::two_items(picture, words))
        .done();
    Fields::new()
        .with("model", Json::text(model))
        .with("max_tokens", Json::natural(500))
        .with("messages", Json::one_item(message))
        .done()
}

/// The request for a caption, or the refusal where there is no key or no image.
pub open spec fn captioning(
    secrets: Option<json::Tree>,
    image: Option<Seq<char>>,
    prompt: Option<Seq<char>>,
    model: Option<Seq<char>>,
    proxy: Option<Seq<char>>,
    password: Option<Seq<char>>,
    default_model: Seq<char>,
) -> Result<web::OutgoingView, web::ReplyView> {
    let key = if proxy is Some {
        password
    } else {
        secrets::secret(secrets, SECRET_CLAUDE@)
    };
    match secrets::filled(key) {
        Some(k) => match secrets::filled(image) {
            Some(picture) => Ok(
                web::bare(
                    Method::Post,
                    text::drop_trailing(secrets::text_or(proxy, API_CLAUDE@), '/') + "/messages"@,
                ).with_header("Content-Type"@, "application/json"@).with_header(
                    "x-api-key"@,
                    k,
                ).with_header("anthropic-version"@, "2023-06-01"@).with_json(
                    question(
                        secrets::text_or(model, default_model),
                        secrets::text_or(prompt, "What's in this image?"@),
                        picture,
                    ),
                ),
            ),
            None => Err(web::json_reply(400, web::error_tree("No image provided"@))),
        },
        None => Err(web::json_reply(400, web::true_error())),
    }
}

/// The request for a caption, from the model `default_model` where the client names none. Its
/// answer is passed on by [`web::relay_with_error`].
pub fn caption_image(
    secrets: Option<&Json>,
    body: &CaptionImageRequest,
    default_model: &str,
) -> (r: Result<Outgoing, Reply>)
    ensures
        web::outcome(r) == captioning(
            json::tree_opt(secrets),
            json::string_opt(body.image),
            json::string_opt(body.prompt),
            json::string_opt(body.model),
            json::string_opt(body.reverse_proxy),
            json::string_opt(body.proxy_password),
            default_model@,
        ),
{
    let secret = if body.reverse_proxy.is_some() {
        body.proxy_password.clone()
    } else {
        secrets::read_secret(secrets, SECRET_CLAUDE)
    };
    let key = match secrets::non_empty(&secret) {
        Some(k) => k,
        None => return Err(Reply::json(400, web::error_flag())),
    };
    let image = match secrets::non_empty(&body.image) {
        Some(i) => i,
        None => return Err(Reply::error(400, "No image provided")),
    };
    let model = secrets::unwrap_or(&body.model, default_model);
    let prompt = secrets::unwrap_or(&body.prompt, "What's in this image?");
    let base = secrets::unwrap_or(&body.reverse_proxy, API_CLAUDE);
    let url = text::join2(&text::trim_end_char(&base, '/'), "/messages");
    Ok(
        Outgoing::new(Method::Post, url)
            .header("Content-Type", "application/json")
            .header("x-api-key", key)
            .header("anthropic-version", "2023-06-01")
            .json(ask(&model, &prompt, image)),
    )
}

} // verus!
