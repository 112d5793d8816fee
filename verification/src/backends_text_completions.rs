//! Text completion by servers of many kinds.

use crate::json;
use crate::json::{Fields, Json};
use crate::secrets;
use crate::text;
use crate::web;
use crate::web::{Method, Outgoing, Reply, Upstream};
use vstd::prelude::*;

verus! {

/// Asks which models a server has.
#[derive(Debug)]
pub struct StatusRequest {
    pub api_server: Option<String>,
    pub api_type: Option<String>,
    pub legacy_api: Option<bool>,
}

/// Asks for the properties of a server.
#[derive(Debug)]
pub struct PropsRequest {
    pub api_server: Option<String>,
    pub api_type: Option<String>,
}

/// The kind of a server that is not named.
pub const DEFAULT_TYPE: &'static str = "koboldcpp";

/// The name of the secret for a kind of server.
pub open spec fn secret_key(api_type: Seq<char>) -> Seq<char> {
    if api_type == "mancer"@ {
        "api_key_mancer"@
    } else if api_type == "aphrodite"@ {
        "api_key_aphrodite"@
    } else if api_type == "tabby"@ {
        "api_key_tabby"@
    } else if api_type == "vllm"@ {
        "api_key_vllm"@
    } else if api_type == "infermaticai"@ {
        "api_key_infermaticai"@
    } else if api_type == "dreamgen"@ {
        "api_key_dreamgen"@
    } else if api_type == "ooba"@ {
        "api_key_ooba"@
    } else if api_type == "featherless"@ {
        "api_key_featherless"@
    } else if api_type == "huggingface"@ {
        "api_key_huggingface"@
    } else if api_type == "llamacpp"@ {
        "api_key_llamacpp"@
    } else if api_type == "koboldcpp"@ {
        "api_key_koboldcpp"@
    } else if api_type == "openrouter"@ {
        "api_key_openrouter"@
    } else {
        "api_key_custom"@
    }
}

/// The name of the secret for a kind of server.
pub fn get_secret_key_for_api_type(api_type: &str) -> (r: &'static str)
    ensures
        r@ == secret_key(api_type@),
{
    if text::same(api_type, "mancer") {
        "api_key_mancer"
    } else if text::same(api_type, "aphrodite") {
        "api_key_aphrodite"
    } else if text::same(api_type, "tabby") {
        "api_key_tabby"
    } else if text::same(api_type, "vllm") {
        "api_key_vllm"
    } else if text::same(api_type, "infermaticai") {
        "api_key_infermaticai"
    } else if text::same(api_type, "dreamgen") {
        "api_key_dreamgen"
    } else if text::same(api_type, "ooba") {
        "api_key_ooba"
    } else if text::same(api_type, "featherless") {
        "api_key_featherless"
    } else if text::same(api_type, "huggingface") {
        "api_key_huggingface"
    } else if text::same(api_type, "llamacpp") {
        "api_key_llamacpp"
    } else if text::same(api_type, "koboldcpp") {
        "api_key_koboldcpp"
    } else if text::same(api_type, "openrouter") {
        "api_key_openrouter"
    } else {
        "api_key_custom"
    }
}

/// Where a server of a kind lists its models.
pub open spec fn models_url(api_type: Seq<char>, base: Seq<char>) -> Seq<char> {
    if api_type == "mancer"@ {
        base + "/oai/v1/models"@
    } else if api_type == "tabby"@ {
        base + "/v1/model/list"@
    } else if api_type == "ooba"@ {
        base + "/v1/internal/model/info"@
    } else if api_type == "openrouter"@ {
        "https://openrouter.ai/api/v1/models"@
    } else {
        base + "/v1/models"@
    }
}

fn model_list_url(api_type: &str, base: &str) -> (r: String)
    ensures
        r@ == models_url(api_type@, base@),
{
    if text::same(api_type, "mancer") {
        text::join2(base, "/oai/v1/models")
    } else if text::same(api_type, "tabby") {
        text::join2(base, "/v1/model/list")
    } else if text::same(api_type, "ooba") {
        text::join2(base, "/v1/internal/model/info")
    } else if text::same(api_type, "openrouter") {
        "https://openrouter.ai/api/v1/models".to_owned()
    } else {
        text::join2(base, "/v1/models")
    }
}

/// The key for a kind of server; empty where there is none.
pub open spec fn key_of(secrets: Option<json::Tree>, api_type: Seq<char>) -> Seq<char> {
    secrets::or_empty(secrets::secret(secrets, secret_key(api_type)))
}

/// The request which models a server has, or the refusal where no server is named.
pub open spec fn model_listing(
    secrets: Option<json::Tree>,
    server: Option<Seq<char>>,
    api_type: Option<Seq<char>>,
) -> Result<web::OutgoingView, web::ReplyView> {
    let kind = secrets::text_or(api_type, DEFAULT_TYPE@);
    match secrets::filled(server) {
        Some(s) => Ok(
            web::bare(
                Method::Get,
                models_url(kind, text::drop_trailing(s, '/')),
            ).with_bearer(key_of(secrets, kind)),
        ),
        None => Err(web::json_reply(400, web::error_tree("No api_server"@))),
    }
}

/// The request which models a server has. Its answer is passed on by [`web::relay`].
pub fn tc_status(secrets: Option<&Json>, body: &StatusRequest) -> (r: Result<Outgoing, Reply>)
    ensures
        web::outcome(r) == model_listing(
            json::tree_opt(secrets),
            json::string_opt(body.api_server),
            json::string_opt(body.api_type),
        ),
{
    let server = match secrets::non_empty(&body.api_server) {
        Some(s) => s,
        None => return Err(Reply::error(400, "No api_server")),
    };
    let kind = secrets::unwrap_or(&body.api_type, DEFAULT_TYPE);
    let key = secrets::unwrap_or_empty(
        secrets::read_secret(secrets, get_secret_key_for_api_type(&kind)),
    );
    let url = model_list_url(&kind, &text::trim_end_char(server, '/'));
    Ok(Outgoing::new(Method::Get, url).bearer(&key))
}

/// The request for the properties of a server, or the refusal where none is named.
pub open spec fn props_listing(
    secrets: Option<json::Tree>,
    server: Option<Seq<char>>,
    api_type: Option<Seq<char>>,
) -> Result<web::OutgoingView, web::ReplyView> {
    let kind = secrets::text_or(api_type, DEFAULT_TYPE@);
    match secrets::filled(server) {
        Some(s) => Ok(
            web::bare(Method::Get, text::drop_trailing(s, '/') + "/props"@).with_bearer(
                key_of(secrets, kind),
            ),
        ),
        None => Err(web::json_reply(400, web::error_tree("No api_server"@))),
    }
}

/// The request for the properties of a server. Its answer is passed on by [`props_reply`].
pub fn tc_props(secrets: Option<&Json>, body: &PropsRequest) -> (r: Result<Outgoing, Reply>)
    ensures
        web::outcome(r) == props_listing(
            json::tree_opt(secrets),
            json::string_opt(body.api_server),
            json::string_opt(body.api_type),
        ),
{
    let server = match secrets::non_empty(&body.api_server) {
        Some(s) => s,
        None => return Err(Reply::error(400, "No api_server")),
    };
    let kind = secrets::unwrap_or(&body.api_type, DEFAULT_TYPE);
    let key = secrets::unwrap_or_empty(
        secrets::read_secret(secrets, get_secret_key_for_api_type(&kind)),
    );
    let url = text::join2(&text::trim_end_char(server, '/'), "/props");
    Ok(Outgoing::new(Method::Get, url).bearer(&key))
}

/// Passes the properties of a server on; an empty object stands for ones that are not to
/// be had.
pub fn props_reply(u: Upstream) -> (r: Reply)
    ensures
        r@ == (match u@ {
            web::UpstreamView::Got(s, _, Some(j)) => web::json_reply(
                200,
                if web::success(s) {
                    j
                } else {
                    json::Tree::Object(Seq::empty())
                },
            ),
            _ => web::json_reply(200, json::Tree::Object(Seq::empty())),
        }),
{
    match u {
        Upstream::Got(s, _, Some(j)) => if web::is_success(s) {
            Reply::json(200, j)
        } else {
            Reply::json(200, Json::no_members())
        },
        _ => Reply::json(200, Json::no_members()),
    }
}

/// Where a server of a kind completes texts.
pub open spec fn completion_url(api_type: Seq<char>, base: Seq<char>) -> Seq<char> {
    if api_type == "mancer"@ {
        base + "/oai/v1/completions"@
    } else if api_type == "koboldcpp"@ {
        base + "/api/v1/generate"@
    } else if api_type == "llamacpp"@ {
        base + "/completion"@
    } else if api_type == "openrouter"@ {
        "https://openrouter.ai/api/v1/completions"@
    } else {
        base + "/v1/completions"@
    }
}

fn generate_url(api_type: &str, base: &str) -> (r: String)
    ensures
        r@ == completion_url(api_type@, base@),
{
    if text::same(api_type, "mancer") {
        text::join2(base, "/oai/v1/completions")
    } else if text::same(api_type, "koboldcpp") {
        text::join2(base, "/api/v1/generate")
    } else if text::same(api_type, "llamacpp") {
        text::join2(base, "/completion")
    } else if text::same(api_type, "openrouter") {
        "https://openrouter.ai/api/v1/completions".to_owned()
    } else {
        text::join2(base, "/v1/completions")
    }
}

/// An order without the members that are meant for this program.
pub open spec fn forwarded(body: json::Tree) -> json::Tree {
    match body {
        json::Tree::Object(f) => json::Tree::Object(
            json::without(json::without(f, "api_server"@), "api_type"@),
        ),
        t => t,
    }
}

/// The request for a completion, or the refusal where no server is named.
pub open spec fn completing(secrets: Option<json::Tree>, body: json::Tree) -> Result<
    web::OutgoingView,
    web::ReplyView,
> {
    let server = body.text_or("api_server"@, ""@);
    let kind = body.text_or("api_type"@, DEFAULT_TYPE@);
    if server.len() == 0 {
        Err(web::json_reply(400, web::error_tree("No api_server"@)))
    } else {
        let q = web::bare(
            Method::Post,
            completion_url(kind, text::drop_trailing(server, '/')),
        ).with_header("Content-Type"@, "application/json"@).with_json(
            forwarded(body),
        ).with_bearer(key_of(secrets, kind));
        Ok(
            if kind == "openrouter"@ {
                q.with_header("HTTP-Referer"@, "https://sillytavern.app"@).with_header(
                    "X-Title"@,
                    "SillyTavern"@,
                )
            } else {
                q
            },
        )
    }
}

/// The request for a completion. Its answer is passed on by [`web::relay_with_error`], or
/// as it comes in where [`wants_stream`] says so.
pub fn tc_generate(secrets: Option<&Json>, body: &Json) -> (r: Result<Outgoing, Reply>)
    ensures
        web::outcome(r) == completing(json::tree_opt(secrets), body@),
{
    proof {
        reveal_strlit("");
    }
    let server = body.str_or("api_server", "");
    if server.is_empty() {
        return Err(Reply::error(400, "No api_server"));
    }
    let kind = body.str_or("api_type", DEFAULT_TYPE);
    let key = secrets::unwrap_or_empty(
        secrets::read_secret(secrets, get_secret_key_for_api_type(kind)),
    );
    let url = generate_url(kind, &text::trim_end_char(server, '/'));
    let order = if body.is_object() {
        let mut f = body.fields();
        f.remove("api_server");
        f.remove("api_type");
        f.done()
    } else {
        body.copy()
    };
    let q = Outgoing::new(Method::Post, url)
        .header("Content-Type", "application/json")
        .json(order)
        .bearer(&key);
    if text::same(kind, "openrouter") {
        Ok(
            q.header("HTTP-Referer", "https://sillytavern.app").header("X-Title", "SillyTavern"),
        )
    } else {
        Ok(q)
    }
}

/// Whether the completion is to be passed on as it comes in.
pub fn wants_stream(body: &Json) -> (r: bool)
    ensures
        r == (body@.flag_at("stream"@) == Some(true)),
{
    match body.bool_at("stream") {
        Some(b) => b,
        None => false,
    }
}

/// The message about a server that gave no answer.
pub open spec fn failure(refused: bool, error: Seq<char>) -> json::Tree {
    let message = if refused {
        "Connection refused: "@ + error
    } else {
        error
    };
    json::Tree::Object(
        json::members().push((
            "error"@,
            json::Tree::Object(json::members().push(("message"@, json::txt(message)))),
        )),
    )
}

/// The answer where the server gave none; `refused` says that it could not be reached.
pub fn generate_failed(refused: bool, error: &str) -> (r: Reply)
    ensures
        r@ == web::json_reply(502, failure(refused, error@)),
{
    let message = if refused {
        text::join2("Connection refused: ", error)
    } else {
        error.to_owned()
    };
    let inner = Fields::new().with("message", Json::Text(message)).done();
    Reply::json(502, Fields::new().with("error", inner).done())
}

} // verus!
