//! Chat completion by services of many kinds.

use crate::json;
use crate::json::{Fields, Json};
use crate::naming;
use crate::numbers;
use crate::numbers::TextNumber;
use crate::outside;
use crate::secrets;
use crate::text;
use crate::web;
use crate::web::{Method, Outgoing, Reply, Upstream};
use vstd::prelude::*;

verus! {

/// Asks which models a service has.
#[derive(Debug)]
pub struct StatusRequest {
    pub chat_completion_source: Option<String>,
    pub api_server: Option<String>,
    pub reverse_proxy: Option<String>,
    pub proxy_password: Option<String>,
    pub model: Option<String>,
    pub extra: Json,
}

/// Asks for the bias of texts.
#[derive(Debug)]
pub struct BiasRequest {
    pub text: Option<String>,
    pub bias_preset: Option<Json>,
    pub model: Option<String>,
    pub chat_completion_source: Option<String>,
}

/// Messages to be brought into shape.
#[derive(Debug)]
pub struct ProcessRequest {
    pub messages: Option<Json>,
    pub processing_type: Option<String>,
}

/// What Anthropic's service is called among the services, and the model that it is asked for
/// where a client names none.
#[derive(Debug)]
pub struct AnthropicNames {
    pub source: String,
    pub model: String,
}

/// The name of the secret for a service.
pub open spec fn secret_name(source: Seq<char>, names: AnthropicNames) -> Seq<char> {
    if source == "openai"@ {
        "api_key_openai"@
    } else if source == names.source@ {
        "api_key_claude"@
    } else if source == "makersuite"@ {
        "api_key_makersuite"@
    } else if source == "google"@ {
        "api_key_makersuite"@
    } else if source == "vertexai"@ {
        "api_key_makersuite"@
    } else if source == "ai21"@ {
        "api_key_ai21"@
    } else if source == "mistralai"@ {
        "api_key_mistralai"@
    } else if source == "cohere"@ {
        "api_key_cohere"@
    } else if source == "deepseek"@ {
        "api_key_deepseek"@
    } else if source == "openrouter"@ {
        "api_key_openrouter"@
    } else if source == "perplexity"@ {
        "api_key_perplexity"@
    } else if source == "groq"@ {
        "api_key_groq"@
    } else if source == "fireworks"@ {
        "api_key_fireworks"@
    } else if source == "nanogpt"@ {
        "api_key_nanogpt"@
    } else if source == "pollinations"@ {
        "api_key_pollinations"@
    } else if source == "xai"@ {
        "api_key_xai"@
    } else if source == "chutes"@ {
        "api_key_chutes"@
    } else if source == "electronhub"@ {
        "api_key_electronhub"@
    } else if source == "aimlapi"@ {
        "api_key_aimlapi"@
    } else if source == "moonshot"@ {
        "api_key_moonshot"@
    } else if source == "azure_openai"@ {
        "api_key_azure_openai"@
    } else if source == "zai"@ {
        "api_key_zai"@
    } else if source == "siliconflow"@ {
        "api_key_siliconflow"@
    } else {
        "api_key_custom"@
    }
}

/// The name of the secret for a service.
pub fn get_secret_for_source(source: &str, names: &AnthropicNames) -> (r: &'static str)
    ensures
        r@ == secret_name(source@, *names),
{
    if text::same(source, "openai") {
        "api_key_openai"
    } else if text::same(source, &names.source) {
        "api_key_claude"
    } else if text::same(source, "makersuite") {
        "api_key_makersuite"
    } else if text::same(source, "google") {
        "api_key_makersuite"
    } else if text::same(source, "vertexai") {
        "api_key_makersuite"
    } else if text::same(source, "ai21") {
        "api_key_ai21"
    } else if text::same(source, "mistralai") {
        "api_key_mistralai"
    } else if text::same(source, "cohere") {
        "api_key_cohere"
    } else if text::same(source, "deepseek") {
        "api_key_deepseek"
    } else if text::same(source, "openrouter") {
        "api_key_openrouter"
    } else if text::same(source, "perplexity") {
        "api_key_perplexity"
    } else if text::same(source, "groq") {
        "api_key_groq"
    } else if text::same(source, "fireworks") {
        "api_key_fireworks"
    } else if text::same(source, "nanogpt") {
        "api_key_nanogpt"
    } else if text::same(source, "pollinations") {
        "api_key_pollinations"
    } else if text::same(source, "xai") {
        "api_key_xai"
    } else if text::same(source, "chutes") {
        "api_key_chutes"
    } else if text::same(source, "electronhub") {
        "api_key_electronhub"
    } else if text::same(source, "aimlapi") {
        "api_key_aimlapi"
    } else if text::same(source, "moonshot") {
        "api_key_moonshot"
    } else if text::same(source, "azure_openai") {
        "api_key_azure_openai"
    } else if text::same(source, "zai") {
        "api_key_zai"
    } else if text::same(source, "siliconflow") {
        "api_key_siliconflow"
    } else {
        "api_key_custom"
    }
}

/// The address of a service; empty where it has none of its own.
pub open spec fn api_url(source: Seq<char>) -> Seq<char> {
    if source == "openai"@ {
        "https://api.openai.com/v1"@
    } else if source == "openrouter"@ {
        "https://openrouter.ai/api/v1"@
    } else if source == "mistralai"@ {
        "https://api.mistral.ai/v1"@
    } else if source == "cohere"@ {
        "https://api.cohere.com/v2"@
    } else if source == "deepseek"@ {
        "https://api.deepseek.com/v1"@
    } else if source == "perplexity"@ {
        "https://api.perplexity.ai"@
    } else if source == "groq"@ {
        "https://api.groq.com/openai/v1"@
    } else if source == "fireworks"@ {
        "https://api.fireworks.ai/inference/v1"@
    } else if source == "nanogpt"@ {
        "https://nano-gpt.com/api/v1"@
    } else if source == "pollinations"@ {
        "https://gen.pollinations.ai/v1"@
    } else if source == "xai"@ {
        "https://api.x.ai/v1"@
    } else if source == "chutes"@ {
        "https://llm.chutes.ai/v1"@
    } else if source == "electronhub"@ {
        "https://api.electronhub.ai/v1"@
    } else if source == "aimlapi"@ {
        "https://api.aimlapi.com/v1"@
    } else if source == "moonshot"@ {
        "https://api.moonshot.ai/v1"@
    } else if source == "siliconflow"@ {
        "https://api.siliconflow.cn/v1"@
    } else if source == "ai21"@ {
        "https://api.ai21.com/studio/v1"@
    } else {
        ""@
    }
}

/// The address of a service.
pub fn get_api_url_for_source(source: &str) -> (r: &'static str)
    ensures
        r@ == api_url(source@),
{
    if text::same(source, "openai") {
        "https://api.openai.com/v1"
    } else if text::same(source, "openrouter") {
        "https://openrouter.ai/api/v1"
    } else if text::same(source, "mistralai") {
        "https://api.mistral.ai/v1"
    } else if text::same(source, "cohere") {
        "https://api.cohere.com/v2"
    } else if text::same(source, "deepseek") {
        "https://api.deepseek.com/v1"
    } else if text::same(source, "perplexity") {
        "https://api.perplexity.ai"
    } else if text::same(source, "groq") {
        "https://api.groq.com/openai/v1"
    } else if text::same(source, "fireworks") {
        "https://api.fireworks.ai/inference/v1"
    } else if text::same(source, "nanogpt") {
        "https://nano-gpt.com/api/v1"
    } else if text::same(source, "pollinations") {
        "https://gen.pollinations.ai/v1"
    } else if text::same(source, "xai") {
        "https://api.x.ai/v1"
    } else if text::same(source, "chutes") {
        "https://llm.chutes.ai/v1"
    } else if text::same(source, "electronhub") {
        "https://api.electronhub.ai/v1"
    } else if text::same(source, "aimlapi") {
        "https://api.aimlapi.com/v1"
    } else if text::same(source, "moonshot") {
        "https://api.moonshot.ai/v1"
    } else if text::same(source, "siliconflow") {
        "https://api.siliconflow.cn/v1"
    } else if text::same(source, "ai21") {
        "https://api.ai21.com/studio/v1"
    } else {
        ""
    }
}

/// The service that is meant where none is named.
pub const DEFAULT_SOURCE: &'static str = "openai";

/// The request for the models of a service by a key, which may be empty.
pub open spec fn listing(
    names: AnthropicNames,
    source: Seq<char>,
    proxy: Option<Seq<char>>,
    key: Seq<char>,
) -> Result<web::OutgoingView, web::ReplyView> {
    if source == names.source@ {
        if key.len() == 0 {
            Err(web::json_reply(401, web::error_tree("No API key"@)))
        } else {
            let base = secrets::text_or(proxy, "https://api.anthropic.com/v1"@);
            Ok(
                web::bare(
                    Method::Get,
                    text::drop_trailing(base, '/') + "/models?limit=1000"@,
                ).with_header("x-api-key"@, key).with_header("anthropic-version"@, "2023-06-01"@),
            )
        }
    } else if source == "makersuite"@ || source == "google"@ {
        if key.len() == 0 {
            Err(web::json_reply(401, web::error_tree("No API key"@)))
        } else {
            Ok(
                web::bare(
                    Method::Get,
                    "https://generativelanguage.googleapis.com/v1beta/models?key="@ + key,
                ),
            )
        }
    } else if source == "azure_openai"@ {
        let base = secrets::or_empty(proxy);
        if base.len() == 0 || key.len() == 0 {
            Err(web::json_reply(400, web::error_tree("Missing Azure config"@)))
        } else {
            Ok(
                web::bare(
                    Method::Get,
                    text::drop_trailing(base, '/') + "/models?api-version=2023-03-15-preview"@,
                ).with_header("api-key"@, key),
            )
        }
    } else {
        let base = secrets::text_or(proxy, api_url(source));
        if base.len() == 0 {
            Err(web::json_reply(400, web::error_tree("No API URL"@)))
        } else {
            let q = web::bare(
                Method::Get,
                text::drop_trailing(base, '/') + "/models"@,
            ).with_bearer(key);
            Ok(
                if source == "openrouter"@ {
                    q.with_header("HTTP-Referer"@, "https://sillytavern.app"@).with_header(
                        "X-Title"@,
                        "SillyTavern"@,
                    )
                } else {
                    q
                },
            )
        }
    }
}

/// The service that a request for models is about.
pub open spec fn status_source(body: StatusRequest) -> Seq<char> {
    secrets::text_or(json::string_opt(body.chat_completion_source), DEFAULT_SOURCE@)
}

/// The key that a request for models is made with: the password of a proxy, or the secret.
pub open spec fn status_key(
    names: AnthropicNames,
    secrets: Option<json::Tree>,
    body: StatusRequest,
) -> Seq<char> {
    secrets::or_empty(
        if body.reverse_proxy is Some {
            json::string_opt(body.proxy_password)
        } else {
            secrets::secret(secrets, secret_name(status_source(body), names))
        },
    )
}

fn list_models(names: &AnthropicNames, source: &str, proxy: &Option<String>, key: &str) -> (r:
    Result<Outgoing, Reply>)
    ensures
        web::outcome(r) == listing(*names, source@, json::string_opt(*proxy), key@),
{
    if text::same(source, &names.source) {
        if key.is_empty() {
            return Err(Reply::error(401, "No API key"));
        }
        let base = secrets::unwrap_or(proxy, "https://api.anthropic.com/v1");
        let url = text::join2(&text::trim_end_char(&base, '/'), "/models?limit=1000");
        return Ok(
            Outgoing::new(Method::Get, url).header("x-api-key", key).header(
                "anthropic-version",
                "2023-06-01",
            ),
        );
    }
    if text::same(source, "makersuite") || text::same(source, "google") {
        if key.is_empty() {
            return Err(Reply::error(401, "No API key"));
        }
        let url = text::join2(
            "https://generativelanguage.googleapis.com/v1beta/models?key=",
            key,
        );
        return Ok(Outgoing::new(Method::Get, url));
    }
    if text::same(source, "azure_openai") {
        let base = match proxy {
            Some(p) => p.clone(),
            None => String::new(),
        };
        if base.as_str().is_empty() || key.is_empty() {
            return Err(Reply::error(400, "Missing Azure config"));
        }
        let url = text::join2(
            &text::trim_end_char(&base, '/'),
            "/models?api-version=2023-03-15-preview",
        );
        return Ok(Outgoing::new(Method::Get, url).header("api-key", key));
    }
    let base = secrets::unwrap_or(proxy, get_api_url_for_source(source));
    if base.as_str().is_empty() {
        return Err(Reply::error(400, "No API URL"));
    }
    let url = text::join2(&text::trim_end_char(&base, '/'), "/models");
    let q = Outgoing::new(Method::Get, url).bearer(key);
    if text::same(source, "openrouter") {
        Ok(q.header("HTTP-Referer", "https://sillytavern.app").header("X-Title", "SillyTavern"))
    } else {
        Ok(q)
    }
}

/// The request for the models of a service, or the refusal.
pub fn cc_status(names: &AnthropicNames, secrets: Option<&Json>, body: &StatusRequest) -> (r:
    Result<Outgoing, Reply>)
    ensures
        web::outcome(r) == listing(
            *names,
            status_source(*body),
            json::string_opt(body.reverse_proxy),
            status_key(*names, json::tree_opt(secrets), *body),
        ),
{
    let source = secrets::unwrap_or(&body.chat_completion_source, DEFAULT_SOURCE);
    let key = if body.reverse_proxy.is_some() {
        match &body.proxy_password {
            Some(p) => p.clone(),
            None => String::new(),
        }
    } else {
        let name = get_secret_for_source(&source, names);
        secrets::unwrap_or_empty(secrets::read_secret(secrets, name))
    };
    list_models(names, &source, &body.reverse_proxy, &key)
}

/// Whether the errors of a service are passed on to a client that asks for models.
pub open spec fn passes_errors(names: AnthropicNames, source: Seq<char>) -> bool {
    source != names.source@ && source != "makersuite"@ && source != "google"@ && source
        != "azure_openai"@
}

/// Passes the models of a service on.
pub fn status_reply(names: &AnthropicNames, body: &StatusRequest, u: Upstream) -> (r: Reply)
    ensures
        r@ == if passes_errors(*names, status_source(*body)) {
            web::relayed_with_error(u@)
        } else {
            web::relayed(u@)
        },
{
    let source = secrets::unwrap_or(&body.chat_completion_source, DEFAULT_SOURCE);
    if text::same(&source, &names.source) || text::same(&source, "makersuite") || text::same(
        &source,
        "google",
    ) || text::same(&source, "azure_openai") {
        web::relay(u)
    } else {
        web::relay_with_error(u)
    }
}

/// The answer to a request for the bias of texts, which clients work out themselves.
pub fn cc_bias(_body: &BiasRequest) -> (r: Reply)
    ensures
        r@ == web::json_reply(200, json::Tree::Object(Seq::empty())),
{
    Reply::json(200, Json::no_members())
}

/// The service that an order is for.
pub open spec fn order_source(body: json::Tree) -> Seq<char> {
    body.text_or("chat_completion_source"@, DEFAULT_SOURCE@)
}

/// The proxy that an order is to go through.
pub open spec fn order_proxy(body: json::Tree) -> Option<Seq<char>> {
    secrets::filled(body.text_at("reverse_proxy"@))
}

/// The key for an order: the password of the proxy, or the secret.
pub open spec fn order_key(
    names: AnthropicNames,
    secrets: Option<json::Tree>,
    body: json::Tree,
) -> Seq<char> {
    secrets::or_empty(
        if order_proxy(body) is Some {
            body.text_at("proxy_password"@)
        } else {
            secrets::secret(secrets, secret_name(order_source(body), names))
        },
    )
}

/// The address that an order goes to; empty where there is none.
pub open spec fn order_url(body: json::Tree) -> Seq<char> {
    match order_proxy(body) {
        Some(p) => p,
        None => if order_source(body) == "custom"@ {
            body.text_or("custom_url"@, ""@)
        } else {
            api_url(order_source(body))
        },
    }
}

/// Whether a member of an order is meant for this program.
pub open spec fn internal(key: Seq<char>) -> bool {
    key == "chat_completion_source"@ || key == "api_server"@ || key == "reverse_proxy"@ || key
        == "proxy_password"@ || key == "custom_url"@ || key == "custom_include_body"@ || key
        == "custom_include_headers"@ || key == "custom_exclude_body"@ || key
        == "custom_prompt_post_processing"@ || key == "json_schema"@ || key == "api_type"@
}

fn is_internal(key: &str) -> (r: bool)
    ensures
        r == internal(key@),
{
    text::same(key, "chat_completion_source") || text::same(key, "api_server") || text::same(
        key,
        "reverse_proxy",
    ) || text::same(key, "proxy_password") || text::same(key, "custom_url") || text::same(
        key,
        "custom_include_body",
    ) || text::same(key, "custom_include_headers") || text::same(key, "custom_exclude_body")
        || text::same(key, "custom_prompt_post_processing") || text::same(key, "json_schema")
        || text::same(key, "api_type")
}

/// The members of an order that are passed on.
pub open spec fn passed_on(f: Seq<(Seq<char>, json::Tree)>) -> Seq<(Seq<char>, json::Tree)>
    decreases f.len(),
{
    if f.len() == 0 {
        Seq::empty()
    } else {
        let rest = passed_on(f.drop_last());
        if internal(f.last().0) {
            rest
        } else {
            json::put(rest, f.last().0, f.last().1)
        }
    }
}

/// No member that is meant for this program is passed on, and all others are.
pub proof fn internal_members_stay(f: Seq<(Seq<char>, json::Tree)>, k: Seq<char>)
    requires
        json::keys_distinct(f),
    ensures
        json::lookup(passed_on(f), k) == if internal(k) {
            None
        } else {
            json::lookup(f, k)
        },
    decreases f.len(),
{
    json::position_is_first(f, k, 0);
    json::position_is_first(passed_on(f), k, 0);
    if f.len() > 0 {
        let d = f.drop_last();
        assert(json::keys_distinct(d)) by {
            assert forall|i: int, j: int| 0 <= i < j < d.len() implies d[i].0 != d[j].0 by {
                assert(d[i] == f[i] && d[j] == f[j]);
            }
        }
        internal_members_stay(d, k);
        json::position_is_first(d, k, 0);
        let (key, value) = f.last();
        let n = f.len() - 1;
        if key == k {
            json::lookup_after_put(passed_on(d), key, value);
            json::position_is(f, k, n);
            assert(json::lookup(d, k) is None) by {
                let p = json::position(d, k, 0);
                if p < d.len() {
                    assert(d[p] == f[p]);
                    assert(f[p].0 != f[n].0);
                }
            }
        } else {
            json::lookup_after_put_elsewhere(passed_on(d), key, value, k);
            let p = json::position(d, k, 0);
            if p < d.len() {
                assert(d[p] == f[p]);
                assert forall|i: int| 0 <= i < p implies f[i].0 != k by {
                    assert(d[i] == f[i]);
                }
                json::position_is(f, k, p);
            } else {
                let q = json::position(f, k, 0);
                if q < f.len() {
                    if q < d.len() {
                        assert(d[q] == f[q]);
                    } else {
                        assert(f[q] == f.last());
                    }
                }
            }
        }
    }
}

/// What of an order is passed on.
pub open spec fn order_body(body: json::Tree) -> json::Tree {
    json::Tree::Object(passed_on(json::fields_of(Some(body))))
}

fn make_order_body(body: &Json) -> (r: Json)
    ensures
        r@ == order_body(body@),
{
    let f = body.fields();
    let mut out = Fields::new();
    let ghost all = f@;
    let mut i: usize = 0;
    assert(out@ =~= passed_on(all.take(0)));
    while i < f.len()
        invariant
            all == f@,
            i <= all.len(),
            out@ == passed_on(all.take(i as int)),
        decreases all.len() - i,
    {
        assert(all.take(i as int + 1).drop_last() =~= all.take(i as int));
        assert(all.take(i as int + 1).last() == all[i as int]);
        if !is_internal(f.key_at(i)) {
            out.insert(f.key_at(i), f.value_at(i).copy());
        }
        i += 1;
    }
    assert(all.take(all.len() as int) =~= all);
    out.done()
}

/// Whether a key can stand in a header.
pub open spec fn header_key(key: Seq<char>) -> bool {
    forall|i: int|
        0 <= i < vstd::utf8::encode_utf8("Bearer "@ + key).len() ==> outside::header_byte(
            #[trigger] vstd::utf8::encode_utf8("Bearer "@ + key)[i],
        )
}

/// The request for a completion by a service with the usual interface, or the refusal.
pub open spec fn plain_order(source: Seq<char>, url: Seq<char>, key: Seq<char>, body: json::Tree) ->
    Result<web::OutgoingView, web::ReplyView> {
    if key.len() > 0 && !header_key(key) {
        Err(
            web::json_reply(
                400,
                json::Tree::Object(
                    json::members().push((
                        "error"@,
                        json::Tree::Object(
                            json::members().push((
                                "message"@,
                                json::txt("Invalid API key header value"@),
                            )),
                        ),
                    )),
                ),
            ),
        )
    } else {
        let q = web::bare(
            Method::Post,
            text::drop_trailing(url, '/') + "/chat/completions"@,
        ).with_header("Content-Type"@, "application/json"@).with_json(order_body(body));
        Ok(
            if source == "azure_openai"@ {
                q.with_header("api-key"@, key)
            } else if source == "openrouter"@ {
                q.with_bearer(key).with_header(
                    "HTTP-Referer"@,
                    "https://sillytavern.app"@,
                ).with_header("X-Title"@, "SillyTavern"@)
            } else {
                q.with_bearer(key)
            },
        )
    }
}

fn make_plain_order(source: &str, url: &str, key: &str, body: &Json) -> (r: Result<Outgoing, Reply>)
    ensures
        web::outcome(r) == plain_order(source@, url@, key@, body@),
{
    if !key.is_empty() && !outside::is_header_value(&text::join2("Bearer ", key)) {
        let message = Fields::new().with("message", Json::text("Invalid API key header value"));
        return Err(Reply::json(400, Fields::new().with("error", message.done()).done()));
    }
    let full = text::join2(&text::trim_end_char(url, '/'), "/chat/completions");
    let q = Outgoing::new(Method::Post, full).header("Content-Type", "application/json").json(
        make_order_body(body),
    );
    if text::same(source, "azure_openai") {
        Ok(q.header("api-key", key))
    } else if text::same(source, "openrouter") {
        Ok(
            q.bearer(key).header("HTTP-Referer", "https://sillytavern.app").header(
                "X-Title",
                "SillyTavern",
            ),
        )
    } else {
        Ok(q.bearer(key))
    }
}

/// A number of an order as a fraction, or the default one.
pub open spec fn order_number(body: json::Tree, key: Seq<char>, table: Seq<TextNumber>) ->
    json::Tree {
    let found = match body.get(key) {
        Some(t) => numbers::floated(t, table),
        None => None,
    };
    json::tree_or(found, json::Tree::Float(0x3FF0000000000000, "1.0"@))
}

fn read_order_number(body: &Json, key: &str, table: &Vec<TextNumber>) -> (r: Json)
    ensures
        r@ == order_number(body@, key@, table@),
{
    match body.get(key) {
        Some(t) => match numbers::to_float(t, table) {
            Some(x) => x,
            None => Json::float(0x3FF0000000000000, "1.0"),
        },
        None => Json::float(0x3FF0000000000000, "1.0"),
    }
}

/// How long a completion may be.
pub open spec fn order_length(body: json::Tree) -> u64 {
    match body.get("max_tokens"@) {
        Some(t) => match t.as_natural() {
            Some(n) => n,
            None => 4096,
        },
        None => 4096,
    }
}

fn read_order_length(body: &Json) -> (r: u64)
    ensures
        r == order_length(body@),
{
    match body.get("max_tokens") {
        Some(t) => match t.as_u64() {
            Some(n) => n,
            None => 4096,
        },
        None => 4096,
    }
}

/// `f` with the value under `from` of an order under `to`, where it has one.
pub open spec fn with_option(
    f: Seq<(Seq<char>, json::Tree)>,
    body: json::Tree,
    from: Seq<char>,
    to: Seq<char>,
) -> Seq<(Seq<char>, json::Tree)> {
    match body.get(from) {
        Some(v) => json::put(f, to, v),
        None => f,
    }
}

fn take_option(f: &mut Fields, body: &Json, from: &str, to: &str)
    ensures
        final(f)@ == with_option(old(f)@, body@, from@, to@),
{
    match body.get(from) {
        Some(v) => f.insert(to, v.copy()),
        None => {},
    }
}

/// The order to Anthropic: what the system says at first is no message of its own.
pub open spec fn claude_body(
    names: AnthropicNames,
    body: json::Tree,
    stream: bool,
    table: Seq<TextNumber>,
) -> json::Tree {
    let messages = json::tree_or(body.get("messages"@), json::Tree::Array(Seq::empty()));
    let base = json::members()
        .push(("model"@, json::txt(body.text_or("model"@, names.model@))))
        .push(("messages"@, messages))
        .push(("max_tokens"@, json::num(order_length(body))))
        .push(("temperature"@, order_number(body, "temperature"@, table)))
        .push(("stream"@, json::Tree::Bool(stream)));
    let a = with_option(base, body, "top_p"@, "top_p"@);
    let b = with_option(a, body, "top_k"@, "top_k"@);
    let c = with_option(b, body, "stop"@, "stop_sequences"@);
    json::Tree::Object(
        match messages {
            json::Tree::Array(v) => if v.len() > 0 && v[0].text_at("role"@) == Some("system"@) {
                json::put(
                    json::put(
                        c,
                        "system"@,
                        json::tree_or(v[0].get("content"@), json::txt(Seq::empty())),
                    ),
                    "messages"@,
                    json::Tree::Array(v.skip(1)),
                )
            } else {
                c
            },
            _ => c,
        },
    )
}

fn copy_from(v: &Vec<Json>, from: usize) -> (r: Json)
    requires
        from <= v@.len(),
    ensures
        r@ == json::Tree::Array(json::trees(v@).skip(from as int)),
{
    let mut out: Vec<Json> = Vec::new();
    let mut i: usize = from;
    while i < v.len()
        invariant
            from <= i <= v@.len(),
            out@.len() == i - from,
            forall|j: int| 0 <= j < out@.len() ==> (#[trigger] out@[j])@ == v@[from + j]@,
        decreases v@.len() - i,
    {
        out.push(v[i].copy());
        i += 1;
    }
    assert(json::trees(out@) =~= json::trees(v@).skip(from as int));
    Json::array(out)
}

fn make_claude_body(
    names: &AnthropicNames,
    body: &Json,
    stream: bool,
    table: &Vec<TextNumber>,
) -> (r: Json)
    ensures
        r@ == claude_body(*names, body@, stream, table@),
{
    let messages = body.get_or("messages", Json::no_items());
    let mut f = Fields::new()
        .with("model", Json::text(body.str_or("model", &names.model)))
        .with("messages", messages.copy())
        .with("max_tokens", Json::natural(read_order_length(body)))
        .with("temperature", read_order_number(body, "temperature", table))
        .with("stream", Json::Bool(stream));
    take_option(&mut f, body, "top_p", "top_p");
    take_option(&mut f, body, "top_k", "top_k");
    take_option(&mut f, body, "stop", "stop_sequences");
    match messages.as_array() {
        Some(v) => if v.len() > 0 {
            assert(json::trees(v@)[0] == v@[0]@);
            let system = match v[0].str_at("role") {
                Some(r) => text::same(r, "system"),
                None => false,
            };
            if system {
                f.insert("system", v[0].get_or("content", Json::Text(String::new())));
                f.insert("messages", copy_from(v, 1));
            }
        },
        None => {},
    }
    f.done()
}

/// The request to Anthropic.
pub open spec fn claude_order(
    names: AnthropicNames,
    key: Seq<char>,
    url: Seq<char>,
    body: json::Tree,
    stream: bool,
    table: Seq<TextNumber>,
) -> web::OutgoingView {
    web::bare(Method::Post, text::drop_trailing(url, '/') + "/messages"@).with_header(
        "Content-Type"@,
        "application/json"@,
    ).with_header("x-api-key"@, key).with_header(
        "anthropic-version"@,
        "2023-06-01"@,
    ).with_json(claude_body(names, body, stream, table))
}

/// The request to Anthropic. Its answer is passed on by [`web::relay_with_error`], or as it comes
/// in where a stream is asked for.
pub fn send_claude_request(
    names: &AnthropicNames,
    api_key: &str,
    api_url: &str,
    body: &Json,
    stream: bool,
    table: &Vec<TextNumber>,
) -> (r: Outgoing)
    ensures
        r@ == claude_order(*names, api_key@, api_url@, body@, stream, table@),
{
    let url = text::join2(&text::trim_end_char(api_url, '/'), "/messages");
    Outgoing::new(Method::Post, url)
        .header("Content-Type", "application/json")
        .header("x-api-key", api_key)
        .header("anthropic-version", "2023-06-01")
        .json(make_claude_body(names, body, stream, table))
}

/// A message in the form that Gemini takes.
pub open spec fn gemini_message(m: json::Tree) -> json::Tree {
    let content = json::tree_or(m.get("content"@), json::txt(""@));
    json::Tree::Object(
        json::members()
            .push((
                "role"@,
                json::txt(
                    if m.text_or("role"@, "user"@) == "assistant"@ {
                        "model"@
                    } else {
                        "user"@
                    },
                ),
            ))
            .push((
                "parts"@,
                match content {
                    json::Tree::Text(s) => json::Tree::Array(
                        json::items().push(
                            json::Tree::Object(json::members().push(("text"@, json::txt(s)))),
                        ),
                    ),
                    t => t,
                },
            )),
    )
}

fn make_gemini_message(m: &Json) -> (r: Json)
    ensures
        r@ == gemini_message(m@),
{
    let role = if text::same(m.str_or("role", "user"), "assistant") {
        "model"
    } else {
        "user"
    };
    let content = m.get_or("content", Json::text(""));
    let parts = match content.as_str() {
        Some(s) => Json::one_item(Fields::new().with("text", Json::text(s)).done()),
        None => content.copy(),
    };
    Fields::new().with("role", Json::text(role)).with("parts", parts).done()
}

/// The messages of an order in the form that Gemini takes.
pub open spec fn gemini_contents(body: json::Tree) -> Seq<json::Tree> {
    match body.items_at("messages"@) {
        Some(v) => Seq::new(v.len(), |i: int| gemini_message(v[i])),
        None => Seq::empty(),
    }
}

fn make_gemini_contents(body: &Json) -> (r: Vec<Json>)
    ensures
        json::trees(r@) == gemini_contents(body@),
{
    let mut out: Vec<Json> = Vec::new();
    match body.array_at("messages") {
        Some(v) => {
            let ghost all = json::trees(v@);
            let mut i: usize = 0;
            while i < v.len()
                invariant
                    all == json::trees(v@),
                    i <= v@.len(),
                    out@.len() == i,
                    forall|j: int| 0 <= j < i ==> (#[trigger] out@[j])@ == gemini_message(all[j]),
                decreases v@.len() - i,
            {
                assert(all[i as int] == v@[i as int]@);
                out.push(make_gemini_message(&v[i]));
                i += 1;
            }
        },
        None => {},
    }
    assert(json::trees(out@) =~= gemini_contents(body@));
    out
}

/// The request to Gemini.
pub open spec fn gemini_order(key: Seq<char>, body: json::Tree, table: Seq<TextNumber>) ->
    web::OutgoingView {
    web::bare(
        Method::Post,
        "https://generativelanguage.googleapis.com/v1beta/models/"@ + body.text_or(
            "model"@,
            "gemini-1.5-flash-latest"@,
        ) + ":generateContent?key="@ + key,
    ).with_header("Content-Type"@, "application/json"@).with_json(
        json::Tree::Object(
            json::members()
                .push(("contents"@, json::Tree::Array(gemini_contents(body))))
                .push((
                    "generationConfig"@,
                    json::Tree::Object(
                        json::members()
                            .push(("temperature"@, order_number(body, "temperature"@, table)))
                            .push(("maxOutputTokens"@, json::num(order_length(body)))),
                    ),
                )),
        ),
    )
}

/// The request to Gemini. Its answer is passed on by [`web::relay`].
pub fn send_google_request(api_key: &str, body: &Json, table: &Vec<TextNumber>) -> (r: Outgoing)
    ensures
        r@ == gemini_order(api_key@, body@, table@),
{
    let mut url = text::join3(
        "https://generativelanguage.googleapis.com/v1beta/models/",
        body.str_or("model", "gemini-1.5-flash-latest"),
        ":generateContent?key=",
    );
    url.push_str(api_key);
    let config = Fields::new()
        .with("temperature", read_order_number(body, "temperature", table))
        .with("maxOutputTokens", Json::natural(read_order_length(body)));
    let order = Fields::new()
        .with("contents", Json::array(make_gemini_contents(body)))
        .with("generationConfig", config.done());
    Outgoing::new(Method::Post, url).header("Content-Type", "application/json").json(order.done())
}

/// Whether a service is Anthropic.
pub open spec fn is_claude(names: AnthropicNames, source: Seq<char>) -> bool {
    source == names.source@
}

/// Whether a service is one of Google's.
pub open spec fn is_google(source: Seq<char>) -> bool {
    source == "makersuite"@ || source == "google"@ || source == "vertexai"@
}

/// Whether an order wants its answer as it comes in.
pub open spec fn wants_stream(body: json::Tree) -> bool {
    body.flag_at("stream"@) == Some(true)
}

/// The request for a completion, or the refusal: most services need a key, and all need an
/// address.
pub open spec fn completing(
    names: AnthropicNames,
    secrets: Option<json::Tree>,
    body: json::Tree,
    table: Seq<TextNumber>,
) -> Result<web::OutgoingView, web::ReplyView> {
    let source = order_source(body);
    let key = order_key(names, secrets, body);
    let url = order_url(body);
    if key.len() == 0 && source != "custom"@ && source != "pollinations"@ {
        Err(web::json_reply(400, web::true_error()))
    } else if url.len() == 0 {
        Err(web::json_reply(400, web::error_tree("No API URL"@)))
    } else if is_claude(names, source) {
        Ok(claude_order(names, key, url, body, wants_stream(body), table))
    } else if is_google(source) {
        Ok(gemini_order(key, body, table))
    } else {
        plain_order(source, url, key, body)
    }
}

/// The request for a completion, or the refusal. The table holds the texts of the whole numbers
/// of an order that have too many digits to be fractions as they are.
pub fn cc_generate(
    names: &AnthropicNames,
    secrets: Option<&Json>,
    body: &Json,
    table: &Vec<TextNumber>,
) -> (r: Result<Outgoing, Reply>)
    ensures
        web::outcome(r) == completing(*names, json::tree_opt(secrets), body@, table@),
{
    proof {
        reveal_strlit("");
        assert(""@ =~= Seq::<char>::empty());
    }
    let source = body.str_or("chat_completion_source", DEFAULT_SOURCE);
    let proxy = body.str_or("reverse_proxy", "");
    let key = if !proxy.is_empty() {
        match body.str_at("proxy_password") {
            Some(p) => p.to_owned(),
            None => String::new(),
        }
    } else {
        let name = get_secret_for_source(source, names);
        secrets::unwrap_or_empty(secrets::read_secret(secrets, name))
    };
    if key.as_str().is_empty() && !text::same(source, "custom") && !text::same(
        source,
        "pollinations",
    ) {
        return Err(Reply::json(400, web::error_flag()));
    }
    let url = if !proxy.is_empty() {
        proxy
    } else if text::same(source, "custom") {
        body.str_or("custom_url", "")
    } else {
        get_api_url_for_source(source)
    };
    if url.is_empty() {
        return Err(Reply::error(400, "No API URL"));
    }
    let stream = match body.bool_at("stream") {
        Some(b) => b,
        None => false,
    };
    if text::same(source, &names.source) {
        return Ok(send_claude_request(names, &key, url, body, stream, table));
    }
    if text::same(source, "makersuite") || text::same(source, "google") || text::same(
        source,
        "vertexai",
    ) {
        return Ok(send_google_request(&key, body, table));
    }
    make_plain_order(source, url, &key, body)
}

/// A message under `error`.
pub open spec fn error_message(message: Seq<char>) -> json::Tree {
    json::Tree::Object(json::members().push(("message"@, json::txt(message))))
}

/// What a client is told of the answer of a service with the usual interface. `refused` says
/// whether no connection could be made.
pub open spec fn plain_answer(u: web::UpstreamView, refused: bool) -> web::ReplyView {
    match u {
        web::UpstreamView::Got(s, t, p) => if web::success(s) {
            match p {
                Some(j) => web::json_reply(200, j),
                None => web::status_only(500),
            }
        } else {
            web::json_reply(
                200,
                json::Tree::Object(
                    json::members()
                        .push(("error"@, error_message(t)))
                        .push(("quota_error"@, json::Tree::Bool(s == 429))),
                ),
            )
        },
        web::UpstreamView::Failed(m) => web::json_reply(
            502,
            json::Tree::Object(
                json::members().push((
                    "error"@,
                    error_message(
                        if refused {
                            "Connection refused: "@ + m
                        } else {
                            m
                        },
                    ),
                )),
            ),
        ),
    }
}

fn plain_reply(u: Upstream, refused: bool) -> (r: Reply)
    ensures
        r@ == plain_answer(u@, refused),
{
    match u {
        Upstream::Got(s, t, p) => if web::is_success(s) {
            match p {
                Some(j) => Reply::json(200, j),
                None => Reply::empty(500),
            }
        } else {
            let message = Fields::new().with("message", Json::Text(t));
            Reply::json(
                200,
                Fields::new()
                    .with("error", message.done())
                    .with("quota_error", Json::Bool(s == 429))
                    .done(),
            )
        },
        Upstream::Failed(m) => {
            let shown = if refused {
                text::join2("Connection refused: ", &m)
            } else {
                m
            };
            let message = Fields::new().with("message", Json::Text(shown));
            Reply::json(502, Fields::new().with("error", message.done()).done())
        },
    }
}

/// What the client is told of the answer to an order.
pub open spec fn completion_reply(
    names: AnthropicNames,
    body: json::Tree,
    u: web::UpstreamView,
    refused: bool,
) -> web::ReplyView {
    let source = order_source(body);
    if is_claude(names, source) {
        web::relayed_with_error(u)
    } else if is_google(source) {
        web::relayed(u)
    } else {
        plain_answer(u, refused)
    }
}

/// What a client is told of the answer to an order. `refused` says whether no connection could
/// be made.
pub fn generate_reply(names: &AnthropicNames, body: &Json, u: Upstream, refused: bool) -> (r:
    Reply)
    ensures
        r@ == completion_reply(*names, body@, u@, refused),
{
    let source = body.str_or("chat_completion_source", DEFAULT_SOURCE);
    if text::same(source, &names.source) {
        web::relay_with_error(u)
    } else if text::same(source, "makersuite") || text::same(source, "google") || text::same(
        source,
        "vertexai",
    ) {
        web::relay(u)
    } else {
        plain_reply(u, refused)
    }
}

/// The type under which an answer is streamed to the client, where it is streamed.
pub open spec fn streamed_as(
    names: AnthropicNames,
    body: json::Tree,
    media_type: Option<Seq<char>>,
) -> Option<Seq<char>> {
    let source = order_source(body);
    if !wants_stream(body) || is_google(source) {
        None
    } else if is_claude(names, source) {
        Some("text/event-stream"@)
    } else {
        Some(secrets::text_or(media_type, "text/event-stream"@))
    }
}

/// The media type that an answer is passed on as while it comes in, given the one that it came
/// with; nothing where it is not passed on before it is complete.
pub fn stream_type(names: &AnthropicNames, body: &Json, media_type: Option<&str>) -> (r: Option<
    String,
>)
    ensures
        json::string_opt(r) == streamed_as(*names, body@, json::text_opt(media_type)),
{
    let stream = match body.bool_at("stream") {
        Some(b) => b,
        None => false,
    };
    let source = body.str_or("chat_completion_source", DEFAULT_SOURCE);
    if !stream || text::same(source, "makersuite") || text::same(source, "google") || text::same(
        source,
        "vertexai",
    ) {
        return None;
    }
    if text::same(source, &names.source) {
        return Some("text/event-stream".to_owned());
    }
    match media_type {
        Some(t) => Some(t.to_owned()),
        None => Some("text/event-stream".to_owned()),
    }
}

/// The answer with messages in shape, which is how they came.
pub fn cc_process(body: &ProcessRequest) -> (r: Reply)
    ensures
        r@ == match web::owned_tree(body.messages) {
            Some(json::Tree::Array(v)) => web::json_reply(
                200,
                json::Tree::Object(json::members().push(("messages"@, json::Tree::Array(v)))),
            ),
            _ => web::json_reply(400, web::error_tree("Invalid messages format"@)),
        },
{
    match &body.messages {
        Some(m) => if m.as_array().is_some() {
            Reply::json(200, Fields::new().with("messages", m.copy()).done())
        } else {
            Reply::error(400, "Invalid messages format")
        },
        None => Reply::error(400, "Invalid messages format"),
    }
}

/// The services that can be asked which of their models see pictures.
#[derive(Clone, Copy, Debug, PartialEq, Eq, Structural)]
pub enum MultimodalSource {
    Pollinations,
    Aimlapi,
    Nanogpt,
    Electronhub,
    Chutes,
    Mistral,
    Xai,
    Moonshot,
}

/// The request for the models of Pollinations.
pub fn mm_pollinations() -> (r: Outgoing)
    ensures
        vision_listing(MultimodalSource::Pollinations, None) == Ok::<web::OutgoingView, web::ReplyView>(r@),
{
    Outgoing::new(Method::Get, "https://gen.pollinations.ai/models".to_owned())
}

/// The request for the models of AI/ML API.
pub fn mm_aimlapi() -> (r: Outgoing)
    ensures
        vision_listing(MultimodalSource::Aimlapi, None) == Ok::<web::OutgoingView, web::ReplyView>(r@),
{
    Outgoing::new(Method::Get, "https://api.aimlapi.com/v1/models".to_owned())
}

/// The request for the models of NanoGPT.
pub fn mm_nanogpt() -> (r: Outgoing)
    ensures
        vision_listing(MultimodalSource::Nanogpt, None) == Ok::<web::OutgoingView, web::ReplyView>(r@),
{
    Outgoing::new(Method::Get, "https://nano-gpt.com/api/v1/models?detailed=true".to_owned())
}

/// The request for the models of Electron Hub.
pub fn mm_electronhub() -> (r: Outgoing)
    ensures
        vision_listing(MultimodalSource::Electronhub, None) == Ok::<web::OutgoingView, web::ReplyView>(r@),
{
    Outgoing::new(Method::Get, "https://api.electronhub.ai/v1/models".to_owned())
}

/// A request for models by a secret; no models where there is none.
pub open spec fn keyed_listing(
    secrets: Option<json::Tree>,
    name: Seq<char>,
    url: Seq<char>,
) -> Result<web::OutgoingView, web::ReplyView> {
    match secrets::filled_secret(secrets, name) {
        Some(key) => Ok(
            web::bare(Method::Get, url).with_header("Authorization"@, "Bearer "@ + key),
        ),
        None => Err(web::json_reply(200, json::Tree::Array(Seq::empty()))),
    }
}

/// The question for the models of a service, of which some see images; or the reply without a key.
pub open spec fn vision_listing(source: MultimodalSource, kept: Option<json::Tree>) -> Result<
    web::OutgoingView,
    web::ReplyView,
> {
    match source {
        MultimodalSource::Pollinations => Ok(
            web::bare(Method::Get, "https://gen.pollinations.ai/models"@),
        ),
        MultimodalSource::Aimlapi => Ok(
            web::bare(Method::Get, "https://api.aimlapi.com/v1/models"@),
        ),
        MultimodalSource::Nanogpt => Ok(
            web::bare(Method::Get, "https://nano-gpt.com/api/v1/models?detailed=true"@),
        ),
        MultimodalSource::Electronhub => Ok(
            web::bare(Method::Get, "https://api.electronhub.ai/v1/models"@),
        ),
        MultimodalSource::Chutes => keyed_listing(
            kept,
            "api_key_chutes"@,
            "https://llm.chutes.ai/v1/models"@,
        ),
        MultimodalSource::Mistral => keyed_listing(
            kept,
            "api_key_mistralai"@,
            "https://api.mistral.ai/v1/models"@,
        ),
        MultimodalSource::Xai => keyed_listing(
            kept,
            "api_key_xai"@,
            "https://api.x.ai/v1/language-models"@,
        ),
        MultimodalSource::Moonshot => keyed_listing(
            kept,
            "api_key_moonshot"@,
            "https://api.moonshot.ai/v1/models"@,
        ),
    }
}

fn list_by_key(secrets: Option<&Json>, name: &str, url: &str) -> (r: Result<Outgoing, Reply>)
    ensures
        web::outcome(r) == keyed_listing(json::tree_opt(secrets), name@, url@),
{
    match secrets::non_empty(&secrets::read_secret(secrets, name)) {
        Some(key) => Ok(
            Outgoing::new(Method::Get, url.to_owned()).header(
                "Authorization",
                &text::join2("Bearer ", key),
            ),
        ),
        None => Err(Reply::json(200, Json::no_items())),
    }
}

/// The request for the models of Chutes.
pub fn mm_chutes(secrets: Option<&Json>) -> (r: Result<Outgoing, Reply>)
    ensures
        web::outcome(r) == vision_listing(MultimodalSource::Chutes, json::tree_opt(secrets)),
{
    list_by_key(secrets, "api_key_chutes", "https://llm.chutes.ai/v1/models")
}

/// The request for the models of Mistral.
pub fn mm_mistral(secrets: Option<&Json>) -> (r: Result<Outgoing, Reply>)
    ensures
        web::outcome(r) == vision_listing(MultimodalSource::Mistral, json::tree_opt(secrets)),
{
    list_by_key(secrets, "api_key_mistralai", "https://api.mistral.ai/v1/models")
}

/// The request for the models of xAI.
pub fn mm_xai(secrets: Option<&Json>) -> (r: Result<Outgoing, Reply>)
    ensures
        web::outcome(r) == vision_listing(MultimodalSource::Xai, json::tree_opt(secrets)),
{
    list_by_key(secrets, "api_key_xai", "https://api.x.ai/v1/language-models")
}

/// The request for the models of Moonshot.
pub fn mm_moonshot(secrets: Option<&Json>) -> (r: Result<Outgoing, Reply>)
    ensures
        web::outcome(r) == vision_listing(MultimodalSource::Moonshot, json::tree_opt(secrets)),
{
    list_by_key(secrets, "api_key_moonshot", "https://api.moonshot.ai/v1/models")
}

/// Whether a text is among the items under a key.
pub open spec fn lists(m: json::Tree, key: Seq<char>, value: Seq<char>) -> bool {
    match m.items_at(key) {
        Some(v) => exists|i: int| 0 <= i < v.len() && (#[trigger] v[i]).as_text() == Some(value),
        None => false,
    }
}

/// Whether a flag is set in what stands under a key.
pub open spec fn flag_below(m: json::Tree, key: Seq<char>, flag: Seq<char>) -> bool {
    match m.get(key) {
        Some(t) => t.flag_at(flag) == Some(true),
        None => false,
    }
}

/// Whether a model of a service sees pictures.
pub open spec fn sees(source: MultimodalSource, m: json::Tree) -> bool {
    match source {
        MultimodalSource::Pollinations | MultimodalSource::Chutes | MultimodalSource::Xai => lists(
            m,
            "input_modalities"@,
            "image"@,
        ),
        MultimodalSource::Aimlapi => lists(m, "features"@, "openai/chat-completion.vision"@),
        MultimodalSource::Nanogpt | MultimodalSource::Mistral => flag_below(
            m,
            "capabilities"@,
            "vision"@,
        ),
        MultimodalSource::Electronhub => flag_below(m, "metadata"@, "vision"@),
        MultimodalSource::Moonshot => m.flag_at("supports_image_in"@) == Some(true),
    }
}

fn has_item(m: &Json, key: &str, value: &str) -> (r: bool)
    ensures
        r == lists(m@, key@, value@),
{
    match m.array_at(key) {
        Some(v) => {
            let ghost all = json::trees(v@);
            let mut i: usize = 0;
            while i < v.len()
                invariant
                    all == json::trees(v@),
                    m@.items_at(key@) == Some(all),
                    i <= v@.len(),
                    forall|j: int| 0 <= j < i ==> (#[trigger] all[j]).as_text() != Some(value@),
                decreases v@.len() - i,
            {
                assert(all[i as int] == v@[i as int]@);
                let fits = match v[i].as_str() {
                    Some(s) => text::same(s, value),
                    None => false,
                };
                if fits {
                    assert(all[i as int].as_text() == Some(value@));
                    return true;
                }
                i += 1;
            }
            false
        },
        None => false,
    }
}

fn has_flag(m: &Json, flag: &str) -> (r: bool)
    ensures
        r == (m@.flag_at(flag@) == Some(true)),
{
    match m.bool_at(flag) {
        Some(b) => b,
        None => false,
    }
}

fn has_flag_below(m: &Json, key: &str, flag: &str) -> (r: bool)
    ensures
        r == flag_below(m@, key@, flag@),
{
    match m.get(key) {
        Some(t) => has_flag(t, flag),
        None => false,
    }
}

fn is_sighted(source: MultimodalSource, m: &Json) -> (r: bool)
    ensures
        r == sees(source, m@),
{
    match source {
        MultimodalSource::Pollinations | MultimodalSource::Chutes
        | MultimodalSource::Xai => has_item(m, "input_modalities", "image"),
        MultimodalSource::Aimlapi => has_item(m, "features", "openai/chat-completion.vision"),
        MultimodalSource::Nanogpt | MultimodalSource::Mistral => has_flag_below(
            m,
            "capabilities",
            "vision",
        ),
        MultimodalSource::Electronhub => has_flag_below(m, "metadata", "vision"),
        MultimodalSource::Moonshot => has_flag(m, "supports_image_in"),
    }
}

/// The name of a model of a service.
pub open spec fn model_name(source: MultimodalSource, m: json::Tree) -> Option<Seq<char>> {
    m.text_at(
        if source == MultimodalSource::Pollinations {
            "name"@
        } else {
            "id"@
        },
    )
}

/// The names of those of the models that see pictures.
pub open spec fn sighted(source: MultimodalSource, models: Seq<json::Tree>) -> Seq<Seq<char>>
    decreases models.len(),
{
    if models.len() == 0 {
        Seq::empty()
    } else {
        let rest = sighted(source, models.drop_last());
        match model_name(source, models.last()) {
            Some(n) => if sees(source, models.last()) {
                rest.push(n)
            } else {
                rest
            },
            None => rest,
        }
    }
}

/// The models in the answer of a service.
pub open spec fn models_in(source: MultimodalSource, t: json::Tree) -> Seq<json::Tree> {
    let found = match source {
        MultimodalSource::Pollinations => t.as_items(),
        MultimodalSource::Xai => t.items_at("models"@),
        _ => t.items_at("data"@),
    };
    match found {
        Some(v) => v,
        None => Seq::empty(),
    }
}

/// The names of the models of a service that see pictures, by its answer. One of xAI's is
/// always among them.
pub open spec fn vision_models(source: MultimodalSource, t: json::Tree) -> Seq<Seq<char>> {
    let found = sighted(source, models_in(source, t));
    if source == MultimodalSource::Xai && !found.contains("grok-4-0709"@) {
        found.push("grok-4-0709"@)
    } else {
        found
    }
}

fn pick_sighted(source: MultimodalSource, models: &Vec<Json>) -> (r: Vec<String>)
    ensures
        json::texts(r@) == sighted(source, json::trees(models@)),
{
    let ghost all = json::trees(models@);
    let mut out: Vec<String> = Vec::new();
    let mut i: usize = 0;
    assert(json::texts(out@) =~= sighted(source, all.take(0)));
    while i < models.len()
        invariant
            all == json::trees(models@),
            i <= models@.len(),
            json::texts(out@) == sighted(source, all.take(i as int)),
        decreases models@.len() - i,
    {
        assert(all.take(i as int + 1).drop_last() =~= all.take(i as int));
        assert(all.take(i as int + 1).last() == models@[i as int]@);
        let ghost before = out@;
        let key = if source == MultimodalSource::Pollinations {
            "name"
        } else {
            "id"
        };
        match models[i].str_at(key) {
            Some(n) => if is_sighted(source, &models[i]) {
                out.push(n.to_owned());
                assert(json::texts(out@) =~= json::texts(before).push(n@));
            },
            None => {},
        }
        i += 1;
    }
    assert(all.take(all.len() as int) =~= all);
    out
}

/// What a client is told of the models of a service: the names of those that see pictures,
/// or none where the service does not say.
pub open spec fn mm_answer(source: MultimodalSource, u: web::UpstreamView) -> json::Tree {
    match u {
        web::UpstreamView::Got(s, _, Some(t)) => if web::success(s) {
            json::Tree::Array(
                json::text_items(vision_models(source, t)),
            )
        } else {
            json::Tree::Array(Seq::empty())
        },
        _ => json::Tree::Array(Seq::empty()),
    }
}

/// What a client is told of the models of a service.
pub fn mm_reply(source: MultimodalSource, u: Upstream) -> (r: Reply)
    ensures
        r@ == web::json_reply(200, mm_answer(source, u@)),
{
    let t = match u {
        Upstream::Got(s, _, Some(t)) => if web::is_success(s) {
            t
        } else {
            return Reply::json(200, Json::no_items());
        },
        _ => return Reply::json(200, Json::no_items()),
    };
    let found = match source {
        MultimodalSource::Pollinations => t.as_array(),
        MultimodalSource::Xai => t.array_at("models"),
        _ => t.array_at("data"),
    };
    let mut names = match found {
        Some(v) => pick_sighted(source, v),
        None => {
            let none: Vec<String> = Vec::new();
            assert(json::texts(none@) =~= Seq::empty());
            none
        },
    };
    if source == MultimodalSource::Xai && !naming::is_taken("grok-4-0709", &names) {
        let ghost before = names@;
        names.push("grok-4-0709".to_owned());
        assert(json::texts(names@) =~= json::texts(before).push("grok-4-0709"@));
    }
    Reply::json(200, json::texts_json(&names))
}

} // verus!
