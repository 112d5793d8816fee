//! Text, transcripts and embeddings by KoboldAI servers.

use crate::horde;
use crate::horde::PollStep;
use crate::json;
use crate::json::{Fields, Json};
use crate::secrets;
use crate::text;
use crate::web;
use crate::web::{Method, Outgoing, Reply, Upstream};
use vstd::prelude::*;

verus! {

/// The name of the secret.
pub const SECRET_KOBOLDCPP: &'static str = "api_key_koboldcpp";

/// Asks for the state of a server.
#[derive(Debug)]
pub struct KoboldStatusRequest {
    pub api_server: Option<String>,
    pub legacy_api: Option<bool>,
}

/// Asks for a transcript of a recording.
#[derive(Debug)]
pub struct KoboldTranscribeRequest {
    pub api_server: Option<String>,
    pub audio: Option<String>,
    pub lang: Option<String>,
}

/// Asks for the embedding of a text.
#[derive(Debug)]
pub struct KoboldEmbedRequest {
    pub api_server: Option<String>,
    pub text: Option<Json>,
}

/// The key for a server; empty where there is none.
pub open spec fn key_of(secrets: Option<json::Tree>) -> Seq<char> {
    secrets::or_empty(secrets::secret(secrets, SECRET_KOBOLDCPP@))
}

/// A request with a payload.
pub open spec fn posted(
    server: Seq<char>,
    path: Seq<char>,
    key: Seq<char>,
    body: json::Tree,
) -> web::OutgoingView {
    web::bare(Method::Post, text::drop_trailing(server, '/') + path).with_header(
        "Content-Type"@,
        "application/json"@,
    ).with_json(body).with_bearer(key)
}

fn post(secrets: Option<&Json>, server: &str, path: &str, body: Json) -> (r: Outgoing)
    ensures
        r@ == posted(server@, path@, key_of(json::tree_opt(secrets)), body@),
{
    let key = secrets::unwrap_or_empty(secrets::read_secret(secrets, SECRET_KOBOLDCPP));
    Outgoing::new(Method::Post, text::join2(&text::trim_end_char(server, '/'), path))
        .header("Content-Type", "application/json")
        .json(body)
        .bearer(&key)
}

/// An order without the member that is meant for this program.
pub open spec fn forwarded(body: json::Tree) -> json::Tree {
    match body {
        json::Tree::Object(f) => json::Tree::Object(json::without(f, "api_server"@)),
        t => t,
    }
}

/// The request for a text, or the refusal where no server is named.
pub open spec fn generating(secrets: Option<json::Tree>, body: json::Tree) -> Result<
    web::OutgoingView,
    web::ReplyView,
> {
    let server = body.text_or("api_server"@, ""@);
    if server.len() == 0 {
        Err(web::json_reply(400, web::error_tree("No api_server"@)))
    } else {
        Ok(posted(server, "/api/v1/generate"@, key_of(secrets), forwarded(body)))
    }
}

/// The request for a text. What its answer calls for is [`generate_next`].
pub fn generate(secrets: Option<&Json>, body: &Json) -> (r: Result<Outgoing, Reply>)
    ensures
        web::outcome(r) == generating(json::tree_opt(secrets), body@),
{
    proof {
        reveal_strlit("");
    }
    let server = body.str_or("api_server", "");
    if server.is_empty() {
        return Err(Reply::error(400, "No api_server"));
    }
    let order = if body.is_object() {
        let mut f = body.fields();
        f.remove("api_server");
        f.done()
    } else {
        body.copy()
    };
    Ok(post(secrets, server, "/api/v1/generate", order))
}

/// How often a text is asked for.
pub const GENERATE_TRIES: u32 = 2;

/// What a try to have a text made gave: a text, which is the answer to the client, or the answer
/// where no try is left.
pub open spec fn generated(u: web::UpstreamView) -> Result<web::ReplyView, web::ReplyView> {
    match u {
        web::UpstreamView::Got(s, t, p) => if web::success(s) {
            match p {
                Some(j) => Ok(web::json_reply(200, j)),
                None => Err(web::status_only(500)),
            }
        } else {
            Err(web::text_reply(web::passed_status(s), t))
        },
        web::UpstreamView::Failed(_) => Err(web::status_only(500)),
    }
}

/// What is done after a try with `left` tries left: a try that gave no text is followed by
/// another as long as there is one.
pub open spec fn generate_step(u: web::UpstreamView, left: u32) -> Result<web::ReplyView, u32> {
    match generated(u) {
        Ok(r) => Ok(r),
        Err(r) => if left > 0 {
            Err((left - 1) as u32)
        } else {
            Ok(r)
        },
    }
}

/// What is done after a try to have a text made. The first of the [`GENERATE_TRIES`] leaves all
/// but one.
pub fn generate_next(u: Upstream, left: u32) -> (r: PollStep)
    ensures
        horde::step_view(r) == generate_step(u@, left),
{
    let fault = match u {
        Upstream::Got(s, t, p) => if web::is_success(s) {
            match p {
                Some(j) => return PollStep::Done(Reply::json(200, j)),
                None => Reply::empty(500),
            }
        } else {
            Reply::text(web::pass_status(s), &t)
        },
        Upstream::Failed(_) => Reply::empty(500),
    };
    if left > 0 {
        PollStep::Again(left - 1)
    } else {
        PollStep::Done(fault)
    }
}

/// Each try leaves one less, and the last is answered: a text is asked for no more often than
/// there were tries.
pub proof fn trying_ends(u: web::UpstreamView, left: u32)
    ensures
        generate_step(u, left) matches Err(n) ==> n + 1 == left,
        left == 0 ==> generate_step(u, left) is Ok,
{
}

/// The three requests about the state of a server.
pub struct StatusCalls {
    pub model: Outgoing,
    pub extra: Outgoing,
    pub united: Outgoing,
}

/// A request about the state of a server.
pub open spec fn asked(server: Seq<char>, path: Seq<char>, key: Seq<char>) -> web::OutgoingView {
    web::bare(Method::Get, text::drop_trailing(server, '/') + path).with_bearer(key)
}

/// The three questions to a server about its state, or the refusal.
pub open spec fn status_asking(kept: Option<json::Tree>, server: Option<Seq<char>>) -> Result<
    (web::OutgoingView, web::OutgoingView, web::OutgoingView),
    web::ReplyView,
> {
    match secrets::filled(server) {
        Some(s) => Ok(
            (
                asked(s, "/api/v1/model"@, key_of(kept)),
                asked(s, "/api/extra/version"@, key_of(kept)),
                asked(s, "/api/extra/true_max_context_length"@, key_of(kept)),
            ),
        ),
        None => Err(web::json_reply(400, web::error_tree("No api_server"@))),
    }
}

/// The requests for the model, the version and the context length of a server, or the
/// refusal where none is named. What they give is put together by [`status_reply`].
pub fn status(secrets: Option<&Json>, body: &KoboldStatusRequest) -> (r: Result<StatusCalls, Reply>)
    ensures
        match status_asking(json::tree_opt(secrets), json::string_opt(body.api_server)) {
            Ok(x) => r matches Ok(c) && (c.model@, c.extra@, c.united@) == x,
            Err(x) => r matches Err(e) && e@ == x,
        },
{
    let server = match secrets::non_empty(&body.api_server) {
        Some(s) => s,
        None => return Err(Reply::error(400, "No api_server")),
    };
    let key = secrets::unwrap_or_empty(secrets::read_secret(secrets, SECRET_KOBOLDCPP));
    let base = text::trim_end_char(server, '/');
    Ok(
        StatusCalls {
            model: Outgoing::new(Method::Get, text::join2(&base, "/api/v1/model")).bearer(&key),
            extra: Outgoing::new(Method::Get, text::join2(&base, "/api/extra/version")).bearer(&key),
            united: Outgoing::new(
                Method::Get,
                text::join2(&base, "/api/extra/true_max_context_length"),
            ).bearer(&key),
        },
    )
}

/// The value of a successful answer.
pub open spec fn gained(u: web::UpstreamView) -> Option<json::Tree> {
    match u {
        web::UpstreamView::Got(s, _, Some(j)) => if web::success(s) {
            Some(j)
        } else {
            None
        },
        _ => None,
    }
}

fn gain(u: Upstream) -> (r: Option<Json>)
    ensures
        web::owned_tree(r) == gained(u@),
{
    match u {
        Upstream::Got(s, _, Some(j)) => if web::is_success(s) {
            Some(j)
        } else {
            None
        },
        _ => None,
    }
}

/// `f` with the value behind it, where there is one.
pub open spec fn pushed(
    f: Seq<(Seq<char>, json::Tree)>,
    k: Seq<char>,
    v: Option<json::Tree>,
) -> Seq<(Seq<char>, json::Tree)> {
    match v {
        Some(t) => f.push((k, t)),
        None => f,
    }
}

fn push_if(f: Fields, k: &str, v: Option<Json>) -> (r: Fields)
    ensures
        r@ == pushed(f@, k@, web::owned_tree(v)),
{
    match v {
        Some(j) => f.with(k, j),
        None => f,
    }
}

/// What is told of a server, from its three answers.
pub open spec fn status_told(
    model: web::UpstreamView,
    extra: web::UpstreamView,
    united: web::UpstreamView,
) -> web::ReplyView {
    web::json_reply(
        200,
        json::Tree::Object(
            pushed(
                pushed(
                    pushed(json::members(), "model"@, gained(model)),
                    "extra"@,
                    gained(extra),
                ),
                "united"@,
                gained(united),
            ),
        ),
    )
}

/// The state of a server: what each of the three requests gave.
pub fn status_reply(model: Upstream, extra: Upstream, united: Upstream) -> (r: Reply)
    ensures
        r@ == status_told(model@, extra@, united@),
{
    let a = push_if(Fields::new(), "model", gain(model));
    let b = push_if(a, "extra", gain(extra));
    let c = push_if(b, "united", gain(united));
    Reply::json(200, c.done())
}

/// `{"prompt": value}`.
pub open spec fn prompt(value: json::Tree) -> json::Tree {
    json::Tree::Object(json::members().push(("prompt"@, value)))
}

/// The request for a transcript, or the refusal where no server or no recording is named.
pub open spec fn transcribing(
    secrets: Option<json::Tree>,
    server: Option<Seq<char>>,
    audio: Option<Seq<char>>,
) -> Result<web::OutgoingView, web::ReplyView> {
    match (secrets::filled(server), secrets::filled(audio)) {
        (Some(s), Some(a)) => Ok(
            posted(s, "/api/extra/transcribe"@, key_of(secrets), prompt(json::txt(a))),
        ),
        _ => Err(web::status_only(400)),
    }
}

/// The request for a transcript. Its answer is passed on by [`web::relay`].
pub fn transcribe_audio(secrets: Option<&Json>, body: &KoboldTranscribeRequest) -> (r: Result<
    Outgoing,
    Reply,
>)
    ensures
        web::outcome(r) == transcribing(
            json::tree_opt(secrets),
            json::string_opt(body.api_server),
            json::string_opt(body.audio),
        ),
{
    let server = match secrets::non_empty(&body.api_server) {
        Some(s) => s,
        None => return Err(Reply::empty(400)),
    };
    let audio = match secrets::non_empty(&body.audio) {
        Some(a) => a,
        None => return Err(Reply::empty(400)),
    };
    let order = Fields::new().with("prompt", Json::text(audio)).done();
    Ok(post(secrets, server, "/api/extra/transcribe", order))
}

/// The request for an embedding, or the refusal where no server or no text is given.
pub open spec fn embedding(
    secrets: Option<json::Tree>,
    server: Option<Seq<char>>,
    value: Option<json::Tree>,
) -> Result<web::OutgoingView, web::ReplyView> {
    match (secrets::filled(server), value) {
        (Some(s), Some(v)) => Ok(
            posted(
                s,
                "/api/extra/generate/check/embeddings"@,
                key_of(secrets),
                prompt(v),
            ),
        ),
        _ => Err(web::status_only(400)),
    }
}

/// The request for an embedding. Its answer is passed on by [`web::relay`].
pub fn embed(secrets: Option<&Json>, body: &KoboldEmbedRequest) -> (r: Result<Outgoing, Reply>)
    ensures
        web::outcome(r) == embedding(
            json::tree_opt(secrets),
            json::string_opt(body.api_server),
            web::owned_tree(body.text),
        ),
{
    let server = match secrets::non_empty(&body.api_server) {
        Some(s) => s,
        None => return Err(Reply::empty(400)),
    };
    let value = match &body.text {
        Some(v) => v.copy(),
        None => return Err(Reply::empty(400)),
    };
    let order = Fields::new().with("prompt", value).done();
    Ok(post(secrets, server, "/api/extra/generate/check/embeddings", order))
}

} // verus!
