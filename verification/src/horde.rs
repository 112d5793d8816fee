//! Text and images by the AI Horde.

use crate::json;
use crate::json::{Fields, Json};
use crate::outside;
use crate::secrets;
use crate::text;
use crate::web;
use crate::web::{Method, Outgoing, Reply, Upstream};
use vstd::prelude::*;

verus! {

/// The name of the secret.
pub const SECRET_HORDE: &'static str = "api_key_horde";

/// The key of a user who has none.
pub const ANONYMOUS_KEY: &'static str = "0000000000";

/// Where the service is.
pub const HORDE_API_BASE: &'static str = "https://aihorde.net/api/v2";

/// How this program names itself.
pub const CLIENT_AGENT: &'static str = "SillyTavern:UNKNOWN:1";

/// The words that are taken out of the prompt for an image.
pub const REFUSED_WORDS: &'static str = "(?i)(child|underage|minor|loli|shota)";

/// How often the service is asked whether a caption is done.
pub const CAPTION_POLLS: u32 = 60;

/// How often the service is asked whether an image is done.
pub const IMAGE_POLLS: u32 = 200;

/// Asks for a task to be cancelled.
#[derive(Debug)]
pub struct CancelTaskRequest {
    pub task_id: Option<String>,
}

/// Asks how a task stands.
#[derive(Debug)]
pub struct TaskStatusRequest {
    pub task_id: Option<String>,
}

/// Asks for a caption for an image.
#[derive(Debug)]
pub struct CaptionImageRequest {
    pub image: Option<String>,
}

/// Asks about the user that a key belongs to.
#[derive(Debug)]
pub struct UserInfoRequest {
    pub api_key_horde: Option<String>,
}

/// A request to the service.
pub open spec fn call(method: Method, path: Seq<char>) -> web::OutgoingView {
    web::bare(method, HORDE_API_BASE@ + path)
}

/// A request to the service that is not made in a user's name.
pub open spec fn anonymous(method: Method, path: Seq<char>) -> web::OutgoingView {
    call(method, path).with_header("Client-Agent"@, CLIENT_AGENT@)
}

/// A request to the service with a payload, in the name of the user with the key.
pub open spec fn posted(path: Seq<char>, key: Seq<char>, body: json::Tree) -> web::OutgoingView {
    call(Method::Post, path).with_header("Content-Type"@, "application/json"@).with_header(
        "apikey"@,
        key,
    ).with_header("Client-Agent"@, CLIENT_AGENT@).with_json(body)
}

/// The key of a user.
pub open spec fn key_of(secrets: Option<json::Tree>) -> Seq<char> {
    secrets::text_or(secrets::secret(secrets, SECRET_HORDE@), ANONYMOUS_KEY@)
}

fn ask(method: Method, path: &str) -> (r: Outgoing)
    ensures
        r@ == anonymous(method, path@),
{
    Outgoing::new(method, text::join2(HORDE_API_BASE, path)).header("Client-Agent", CLIENT_AGENT)
}

fn post(path: &str, key: &str, body: Json) -> (r: Outgoing)
    ensures
        r@ == posted(path@, key@, body@),
{
    Outgoing::new(Method::Post, text::join2(HORDE_API_BASE, path))
        .header("Content-Type", "application/json")
        .header("apikey", key)
        .header("Client-Agent", CLIENT_AGENT)
        .json(body)
}

fn user_key(secrets: Option<&Json>) -> (r: String)
    ensures
        r@ == key_of(json::tree_opt(secrets)),
{
    secrets::unwrap_or(&secrets::read_secret(secrets, SECRET_HORDE), ANONYMOUS_KEY)
}

/// The request for the list of text workers. Its answer is passed on by [`web::relay`].
pub fn text_workers() -> (r: Outgoing)
    ensures
        r@ == anonymous(Method::Get, "/workers?type=text"@),
{
    ask(Method::Get, "/workers?type=text")
}

/// The request for the list of text models. Its answer is passed on by [`web::relay`].
pub fn text_models() -> (r: Outgoing)
    ensures
        r@ == anonymous(Method::Get, "/status/models?type=text"@),
{
    ask(Method::Get, "/status/models?type=text")
}

/// The request for a sign of life. Its answer is passed on by [`heartbeat`].
pub fn horde_status() -> (r: Outgoing)
    ensures
        r@ == anonymous(Method::Get, "/status/heartbeat"@),
{
    ask(Method::Get, "/status/heartbeat")
}

/// What the client is told of the heartbeat.
pub open spec fn heartbeat_reply(u: web::UpstreamView) -> web::ReplyView {
    match u {
        web::UpstreamView::Got(s, t, _) => web::text_reply(
            if 100 <= s < 1000 {
                s
            } else {
                200
            },
            t,
        ),
        web::UpstreamView::Failed(_) => web::status_only(500),
    }
}

/// Passes the status and the text of a sign of life on.
pub fn heartbeat(u: &Upstream) -> (r: Reply)
    ensures
        r@ == heartbeat_reply(u@),
{
    match u {
        Upstream::Got(s, t, _) => {
            let status: u16 = if 100 <= *s && *s < 1000 {
                *s
            } else {
                200
            };
            Reply::text(status, t)
        },
        Upstream::Failed(_) => Reply::empty(500),
    }
}

/// The request about a task, or the refusal where none is named.
pub open spec fn about_task(method: Method, id: Option<Seq<char>>) -> Result<
    web::OutgoingView,
    web::ReplyView,
> {
    match secrets::filled(id) {
        Some(t) => Ok(anonymous(method, "/generate/text/status/"@ + t)),
        None => Err(web::json_reply(400, web::error_tree("No taskId"@))),
    }
}

fn ask_about_task(method: Method, id: &Option<String>) -> (r: Result<Outgoing, Reply>)
    ensures
        web::outcome(r) == about_task(method, json::string_opt(*id)),
{
    match secrets::non_empty(id) {
        Some(t) => Ok(ask(method, &text::join2("/generate/text/status/", t))),
        None => Err(Reply::error(400, "No taskId")),
    }
}

/// The request to cancel a task. Its answer is passed on by [`web::relay`].
pub fn cancel_task(body: &CancelTaskRequest) -> (r: Result<Outgoing, Reply>)
    ensures
        web::outcome(r) == about_task(Method::Delete, json::string_opt(body.task_id)),
{
    ask_about_task(Method::Delete, &body.task_id)
}

/// The request how a task stands. Its answer is passed on by [`web::relay`].
pub fn task_status(body: &TaskStatusRequest) -> (r: Result<Outgoing, Reply>)
    ensures
        web::outcome(r) == about_task(Method::Get, json::string_opt(body.task_id)),
{
    ask_about_task(Method::Get, &body.task_id)
}

/// The order for a text.
pub open spec fn text_asking(kept: Option<json::Tree>, body: json::Tree) -> web::OutgoingView {
    posted("/generate/text/async"@, key_of(kept), body)
}

/// The request for a text. Its answer is passed on by [`web::relay_with_error`].
pub fn generate_text(secrets: Option<&Json>, body: &Json) -> (r: Outgoing)
    ensures
        r@ == text_asking(json::tree_opt(secrets), body@),
{
    post("/generate/text/async", &user_key(secrets), body.copy())
}

/// The names of the samplers.
pub open spec fn samplers() -> Seq<Seq<char>> {
    seq![
        "k_lms"@,
        "k_heun"@,
        "k_euler"@,
        "k_euler_a"@,
        "k_dpm_2"@,
        "k_dpm_2_a"@,
        "k_dpm_fast"@,
        "k_dpm_adaptive"@,
        "k_dpmpp_2s_a"@,
        "k_dpmpp_2m"@,
        "k_dpmpp_sde"@,
        "DDIM"@,
        "dpmsolver"@,
        "lcm"@,
    ]
}

/// The answer that lists the samplers.
pub fn sd_samplers() -> (r: Reply)
    ensures
        r@ == web::json_reply(
            200,
            json::Tree::Array(Seq::new(samplers().len(), |i: int| json::txt(samplers()[i]))),
        ),
{
    let names = [
        "k_lms",
        "k_heun",
        "k_euler",
        "k_euler_a",
        "k_dpm_2",
        "k_dpm_2_a",
        "k_dpm_fast",
        "k_dpm_adaptive",
        "k_dpmpp_2s_a",
        "k_dpmpp_2m",
        "k_dpmpp_sde",
        "DDIM",
        "dpmsolver",
        "lcm",
    ];
    let list = Json::texts(&names);
    assert(list@->Array_0 =~= Seq::new(samplers().len(), |i: int| json::txt(samplers()[i])));
    Reply::json(200, list)
}

/// The request for the list of image models. Its answer is passed on by [`web::relay`].
pub fn sd_models() -> (r: Outgoing)
    ensures
        r@ == anonymous(Method::Get, "/status/models?type=image"@),
{
    ask(Method::Get, "/status/models?type=image")
}

/// The order for a caption.
pub open spec fn interrogation(image: Seq<char>) -> json::Tree {
    json::Tree::Object(
        json::members()
            .push(("source_image"@, json::txt(image)))
            .push((
                "forms"@,
                json::Tree::Array(
                    json::items().push(
                        json::Tree::Object(json::members().push(("name"@, json::txt("caption"@)))),
                    ),
                ),
            )),
    )
}

/// The request for a caption, or the refusal where there is no image.
pub open spec fn captioning(secrets: Option<json::Tree>, image: Option<Seq<char>>) -> Result<
    web::OutgoingView,
    web::ReplyView,
> {
    match secrets::filled(image) {
        Some(i) => Ok(posted("/interrogate/async"@, key_of(secrets), interrogation(i))),
        None => Err(web::json_reply(400, web::error_tree("No image"@))),
    }
}

/// The request for a caption. What its answer calls for is [`caption_submitted`].
pub fn caption_image(secrets: Option<&Json>, body: &CaptionImageRequest) -> (r: Result<
    Outgoing,
    Reply,
>)
    ensures
        web::outcome(r) == captioning(json::tree_opt(secrets), json::string_opt(body.image)),
{
    match secrets::non_empty(&body.image) {
        Some(i) => {
            let form = Fields::new().with("name", Json::text("caption")).done();
            let order = Fields::new()
                .with("source_image", Json::text(i))
                .with("forms", Json::one_item(form))
                .done();
            Ok(post("/interrogate/async", &user_key(secrets), order))
        },
        None => Err(Reply::error(400, "No image")),
    }
}

/// The request how an order for a caption stands; an internal error where the service did
/// not take the order.
pub open spec fn caption_poll(u: web::UpstreamView) -> Result<web::OutgoingView, web::ReplyView> {
    match u {
        web::UpstreamView::Got(s, _, Some(j)) => match j.text_at("id"@) {
            Some(id) => if web::success(s) {
                Ok(anonymous(Method::Get, "/interrogate/status/"@ + id))
            } else {
                Err(web::status_only(500))
            },
            None => Err(web::status_only(500)),
        },
        _ => Err(web::status_only(500)),
    }
}

/// The request how an order for a caption stands, to be sent up to [`CAPTION_POLLS`] times.
pub fn caption_submitted(u: &Upstream) -> (r: Result<Outgoing, Reply>)
    ensures
        web::outcome(r) == caption_poll(u@),
{
    match u {
        Upstream::Got(s, _, Some(j)) => match j.str_at("id") {
            Some(id) => if web::is_success(*s) {
                Ok(ask(Method::Get, &text::join2("/interrogate/status/", id)))
            } else {
                Err(Reply::empty(500))
            },
            None => Err(Reply::empty(500)),
        },
        _ => Err(Reply::empty(500)),
    }
}

/// The caption in a form of an answer.
pub open spec fn form_caption(form: json::Tree) -> Option<Seq<char>> {
    if form.text_at("form"@) == Some("caption"@) {
        match form.get("result"@) {
            Some(r) => r.text_at("caption"@),
            None => None,
        }
    } else {
        None
    }
}

/// The first caption in the forms from `i` on.
pub open spec fn first_caption(forms: Seq<json::Tree>, i: int) -> Option<Seq<char>>
    decreases forms.len() - i,
{
    if i >= forms.len() {
        None
    } else {
        match form_caption(forms[i]) {
            Some(c) => Some(c),
            None => first_caption(forms, i + 1),
        }
    }
}

/// The caption in an answer.
pub open spec fn caption_in(answer: json::Tree) -> Option<Seq<char>> {
    match answer.items_at("forms"@) {
        Some(forms) => first_caption(forms, 0),
        None => None,
    }
}

fn find_caption(answer: &Json) -> (r: Option<String>)
    ensures
        json::string_opt(r) == caption_in(answer@),
{
    match answer.array_at("forms") {
        Some(forms) => {
            let ghost all = json::trees(forms@);
            let mut i: usize = 0;
            while i < forms.len()
                invariant
                    all == json::trees(forms@),
                    answer@.items_at("forms"@) == Some(all),
                    i <= forms@.len(),
                    first_caption(all, 0) == first_caption(all, i as int),
                decreases forms@.len() - i,
            {
                assert(all[i as int] == forms@[i as int]@);
                let is_caption = match forms[i].str_at("form") {
                    Some(f) => text::same(f, "caption"),
                    None => false,
                };
                if is_caption {
                    let caption = match forms[i].get("result") {
                        Some(x) => x.str_at("caption"),
                        None => None,
                    };
                    match caption {
                        Some(c) => return Some(c.to_owned()),
                        None => {},
                    }
                }
                i += 1;
            }
            None
        },
        None => None,
    }
}

/// What an answer about an order calls for.
pub enum PollStep {
    /// This is the answer to the client.
    Done(Reply),
    /// The service is to be asked again; so many times are left.
    Again(u32),
}

/// What a [`PollStep`] is.
pub open spec fn step_view(s: PollStep) -> Result<web::ReplyView, u32> {
    match s {
        PollStep::Done(r) => Ok(r@),
        PollStep::Again(n) => Err(n),
    }
}

/// Where an order for a caption is done or failed, the answer to the client.
pub open spec fn caption_verdict(answer: Option<json::Tree>) -> Option<web::ReplyView> {
    match answer {
        Some(a) => {
            let state = a.text_or("state"@, ""@);
            if state == "done"@ {
                Some(
                    match caption_in(a) {
                        Some(c) => web::json_reply(
                            200,
                            json::Tree::Object(json::members().push(("caption"@, json::txt(c)))),
                        ),
                        None => web::status_only(500),
                    },
                )
            } else if state == "faulted"@ || state == "cancelled"@ {
                Some(web::status_only(500))
            } else {
                None
            }
        },
        None => None,
    }
}

/// What to do after one more look at an order: `verdict` where there is one; otherwise
/// look again while looks are left, and then give `late` as the answer.
pub open spec fn polled(
    verdict: Option<web::ReplyView>,
    left: u32,
    late: web::ReplyView,
) -> Result<web::ReplyView, u32> {
    match verdict {
        Some(r) => Ok(r),
        None => if left > 0 {
            Err((left - 1) as u32)
        } else {
            Ok(late)
        },
    }
}

/// What to do after a look at an order for a caption, with `left` looks left. `answer` is
/// the JSON value of the service's answer, where it has one.
pub fn caption_next(answer: Option<&Json>, left: u32) -> (r: PollStep)
    ensures
        step_view(r) == polled(
            caption_verdict(json::tree_opt(answer)),
            left,
            web::text_reply(408, "Caption timed out"@),
        ),
{
    match answer {
        Some(a) => {
            let state = a.str_or("state", "");
            if text::same(state, "done") {
                return PollStep::Done(
                    match find_caption(a) {
                        Some(c) => {
                            let f = Fields::new().with("caption", Json::Text(c));
                            Reply::json(200, f.done())
                        },
                        None => Reply::empty(500),
                    },
                );
            }
            if text::same(state, "faulted") || text::same(state, "cancelled") {
                return PollStep::Done(Reply::empty(500));
            }
        },
        None => {},
    }
    if left > 0 {
        PollStep::Again(left - 1)
    } else {
        PollStep::Done(Reply::text(408, "Caption timed out"))
    }
}

/// The question about the user.
pub open spec fn user_asking(kept: Option<json::Tree>, body: UserInfoRequest) -> web::OutgoingView {
    call(Method::Get, "/find_user"@).with_header(
        "apikey"@,
        match json::string_opt(body.api_key_horde) {
            Some(k) => k,
            None => key_of(kept),
        },
    ).with_header("Client-Agent"@, CLIENT_AGENT@)
}

/// The request about the user that a key belongs to: the one given, or the user's own. Its
/// answer is passed on by [`web::relay`].
pub fn user_info(secrets: Option<&Json>, body: &UserInfoRequest) -> (r: Outgoing)
    ensures
        r@ == user_asking(json::tree_opt(secrets), *body),
{
    let key = match &body.api_key_horde {
        Some(k) => k.clone(),
        None => user_key(secrets),
    };
    Outgoing::new(Method::Get, text::join2(HORDE_API_BASE, "/find_user"))
        .header("apikey", &key)
        .header("Client-Agent", CLIENT_AGENT)
}

/// A prompt without the words that are refused, as the expression for them finds them.
pub open spec fn clean_prompt(prompt: Seq<char>) -> Seq<char> {
    match outside::regex_replaced(REFUSED_WORDS@, prompt, ""@) {
        Some(s) => s,
        None => prompt,
    }
}

/// A prompt without the words that are refused.
pub fn sanitize_horde_image_prompt(prompt: &str) -> (r: String)
    ensures
        r@ == clean_prompt(prompt@),
{
    match outside::replace_matches(REFUSED_WORDS, prompt, "") {
        Some(s) => s,
        None => prompt.to_owned(),
    }
}

/// The order for an image, with `prompt` in the place of its prompt where it has one.
pub open spec fn image_order(body: json::Tree, prompt: Seq<char>) -> json::Tree {
    match body {
        json::Tree::Object(f) => if body.text_at("prompt"@) is Some {
            json::Tree::Object(json::put(f, "prompt"@, json::txt(prompt)))
        } else {
            body
        },
        t => t,
    }
}

/// The order for an image, with `prompt` in the place of its prompt where it has one.
pub fn with_prompt(body: &Json, prompt: &str) -> (r: Json)
    ensures
        r@ == image_order(body@, prompt@),
{
    if body.str_at("prompt").is_some() {
        let mut f = body.fields();
        f.insert("prompt", Json::text(prompt));
        f.done()
    } else {
        body.copy()
    }
}

/// The order for an image.
pub open spec fn image_asking(kept: Option<json::Tree>, body: json::Tree) -> web::OutgoingView {
    posted(
        "/generate/async"@,
        key_of(kept),
        image_order(body, clean_prompt(body.text_or("prompt"@, ""@))),
    )
}

/// The request for an image, its prompt without the words that are refused. What its answer
/// calls for is [`image_submitted`].
pub fn generate_image(secrets: Option<&Json>, body: &Json) -> (r: Outgoing)
    ensures
        r@ == image_asking(json::tree_opt(secrets), body@),
{
    let prompt = sanitize_horde_image_prompt(body.str_or("prompt", ""));
    post("/generate/async", &user_key(secrets), with_prompt(body, &prompt))
}

/// The request how an order for an image stands. An order that the service did not take is
/// answered with the service's status and text, one without a number with its answer.
pub open spec fn image_poll(u: web::UpstreamView) -> Result<web::OutgoingView, web::ReplyView> {
    match u {
        web::UpstreamView::Got(s, t, p) => if web::success(s) {
            match p {
                Some(j) => match j.text_at("id"@) {
                    Some(id) => Ok(anonymous(Method::Get, "/generate/status/"@ + id)),
                    None => Err(web::json_reply(200, j)),
                },
                None => Err(web::status_only(500)),
            }
        } else {
            Err(web::text_reply(web::passed_status(s), t))
        },
        web::UpstreamView::Failed(_) => Err(web::status_only(500)),
    }
}

/// The request how an order for an image stands, to be sent up to [`IMAGE_POLLS`] times.
pub fn image_submitted(u: &Upstream) -> (r: Result<Outgoing, Reply>)
    ensures
        web::outcome(r) == image_poll(u@),
{
    match u {
        Upstream::Got(s, t, p) => if web::is_success(*s) {
            match p {
                Some(j) => match j.str_at("id") {
                    Some(id) => Ok(ask(Method::Get, &text::join2("/generate/status/", id))),
                    None => Err(Reply::json(200, j.copy())),
                },
                None => Err(Reply::empty(500)),
            }
        } else {
            Err(Reply::text(web::pass_status(*s), t))
        },
        Upstream::Failed(_) => Err(Reply::empty(500)),
    }
}

/// Where an order for an image is done or failed, the answer to the client.
pub open spec fn image_verdict(answer: Option<json::Tree>) -> Option<web::ReplyView> {
    match answer {
        Some(a) => if a.flag_at("faulted"@) == Some(true) {
            Some(web::json_reply(500, web::error_tree("Generation faulted"@)))
        } else if a.flag_at("done"@) == Some(true) {
            Some(web::json_reply(200, a))
        } else {
            None
        },
        None => None,
    }
}

/// What to do after a look at an order for an image, with `left` looks left.
pub fn image_next(answer: Option<&Json>, left: u32) -> (r: PollStep)
    ensures
        step_view(r) == polled(
            image_verdict(json::tree_opt(answer)),
            left,
            web::json_reply(408, web::error_tree("Image generation timed out"@)),
        ),
{
    match answer {
        Some(a) => {
            let faulted = match a.bool_at("faulted") {
                Some(b) => b,
                None => false,
            };
            let done = match a.bool_at("done") {
                Some(b) => b,
                None => false,
            };
            if faulted {
                return PollStep::Done(Reply::error(500, "Generation faulted"));
            }
            if done {
                return PollStep::Done(Reply::json(200, a.copy()));
            }
        },
        None => {},
    }
    if left > 0 {
        PollStep::Again(left - 1)
    } else {
        PollStep::Done(Reply::error(408, "Image generation timed out"))
    }
}

/// An order is looked at again only as long as looks are left, and each look leaves one
/// less: the client is answered after at most one look more than were left.
pub proof fn polling_ends(verdict: Option<web::ReplyView>, left: u32, late: web::ReplyView)
    ensures
        polled(verdict, left, late) matches Err(n) ==> n < left,
        left == 0 ==> polled(verdict, left, late) is Ok,
{
}

} // verus!
