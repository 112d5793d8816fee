//! What holds of answers to orders: what the client is told, how answers are streamed, and which
//! models can see images.

use crate::backends_chat_completions as cc;
use crate::backends_chat_completions::AnthropicNames;
use crate::backends_chat_completions::MultimodalSource;
use crate::completion_laws;
use crate::json;
use crate::json::Tree;
use crate::numbers;
use crate::numbers::TextNumber;
use crate::service_laws;
use crate::text;
use crate::web;
use crate::web::Method;
use vstd::prelude::*;

verus! {

proof fn sources_differ()
    ensures
        "azure_openai"@.len() == 12 && "azure_openai"@[0] == 'a',
        "custom"@.len() == 6 && "custom"@[0] == 'c',
        "google"@.len() == 6 && "google"@[0] == 'g',
        "makersuite"@.len() == 10,
        "openai"@.len() == 6 && "openai"@[0] == 'o',
        "pollinations"@.len() == 12 && "pollinations"@[0] == 'p',
        "vertexai"@.len() == 8,
{
    reveal_strlit("azure_openai");
    reveal_strlit("custom");
    reveal_strlit("google");
    reveal_strlit("makersuite");
    reveal_strlit("openai");
    reveal_strlit("pollinations");
    reveal_strlit("vertexai");
}

/// Whether a source is none of Google's.
pub open spec fn elsewhere(source: Seq<char>) -> bool {
    source != "makersuite"@ && source != "google"@ && source != "vertexai"@
}

/// An order for Anthropic that goes through a proxy goes to the proxy's messages with the proxy's
/// password as the key, and is streamed where the client asks for it.
pub proof fn anthropic_is_reached_through_proxy(
    names: AnthropicNames,
    kept: Option<Tree>,
    body: Tree,
    table: Seq<TextNumber>,
    proxy: Seq<char>,
    password: Seq<char>,
    messages: Seq<Tree>,
)
    requires
        body.text_at("chat_completion_source"@) == Some(names.source@),
        body.text_at("reverse_proxy"@) == Some(proxy),
        body.text_at("proxy_password"@) == Some(password),
        body.items_at("messages"@) == Some(messages),
        proxy.len() > 0,
        password.len() > 0,
    ensures
        cc::completing(names, kept, body, table) matches Ok(q) && q.method == Method::Post && q.url
            == text::drop_trailing(proxy, '/') + "/messages"@ && completion_laws::carries(
            q,
            "x-api-key"@,
            password,
        ) && q.payload is Json && q.payload->Json_0.flag_at("stream"@) == Some(
            body.flag_at("stream"@) == Some(true),
        ),
{
    completion_laws::anthropic_order_is_shaped(
        names,
        password,
        proxy,
        body,
        messages,
        body.flag_at("stream"@) == Some(true),
        table,
    );
}

/// An order for one of Google's services goes to Google with the key that is kept for it.
pub proof fn google_is_reached_with_its_key(
    names: AnthropicNames,
    kept: Tree,
    body: Tree,
    table: Seq<TextNumber>,
    key: Seq<char>,
    model: Seq<char>,
    messages: Seq<Tree>,
)
    requires
        names.source@ != "makersuite"@ && names.source@ != "google"@ && names.source@
            != "vertexai"@,
        body.text_at("chat_completion_source"@) == Some("makersuite"@) || body.text_at(
            "chat_completion_source"@,
        ) == Some("google"@) || body.text_at("chat_completion_source"@) == Some("vertexai"@),
        body.get("reverse_proxy"@) is None,
        body.text_at("model"@) == Some(model),
        body.items_at("messages"@) == Some(messages),
        messages.len() > 0,
        service_laws::keeps(Some(kept), "api_key_makersuite"@, key),
        key.len() > 0,
        cc::api_url(cc::order_source(body)).len() > 0,
    ensures
        cc::completing(names, Some(kept), body, table) matches Ok(q) && q.method == Method::Post
            && q.url == "https://generativelanguage.googleapis.com/v1beta/models/"@ + model
            + ":generateContent?key="@ + key,
{
    sources_differ();
    completion_laws::gemini_order_is_shaped(key, body, messages, table, 0);
}

/// The temperature of an order is the client's, and one where the client has none.
pub proof fn temperature_is_kept(body: Tree, table: Seq<TextNumber>, t: Tree, v: Tree)
    ensures
        body.get("temperature"@) == Some(t) && numbers::floated(t, table) == Some(v)
            ==> cc::order_number(body, "temperature"@, table) == v,
        body.get("temperature"@) is None ==> cc::order_number(body, "temperature"@, table)
            == Tree::Float(0x3FF0000000000000, "1.0"@),
{
}

/// A good answer is given to the client as it came, whoever answered; a bad one of Anthropic's is
/// told with its status, a bad one of Google's is a failure, and any other is told as an error.
pub proof fn answers_are_told(
    names: AnthropicNames,
    body: Tree,
    source: Seq<char>,
    s: u16,
    t: Seq<char>,
    j: Tree,
    p: Option<Tree>,
    refused: bool,
)
    requires
        body.text_at("chat_completion_source"@) == Some(source),
    ensures
        200 <= s < 300 ==> cc::completion_reply(
            names,
            body,
            web::UpstreamView::Got(s, t, Some(j)),
            refused,
        ) == web::json_reply(200, j),
        400 <= s < 600 && source == names.source@ ==> cc::completion_reply(
            names,
            body,
            web::UpstreamView::Got(s, t, p),
            refused,
        ) == web::text_reply(s, t),
        400 <= s < 600 && source != names.source@ && !elsewhere(source) ==> cc::completion_reply(
            names,
            body,
            web::UpstreamView::Got(s, t, p),
            refused,
        ).status == 500,
        400 <= s < 600 && source != names.source@ && elsewhere(source) ==> {
            let r = cc::completion_reply(names, body, web::UpstreamView::Got(s, t, p), refused);
            &&& r.status == 200 && r.payload is Json
            &&& r.payload->Json_0.get("error"@) matches Some(e) && e.text_at("message"@) == Some(t)
            &&& r.payload->Json_0.flag_at("quota_error"@) == Some(s == 429)
        },
{
    reveal_strlit("error");
    reveal_strlit("message");
    reveal_strlit("quota_error");
    assert("error"@.len() == 5);
    assert("message"@.len() == 7);
    assert("quota_error"@.len() == 11);
    reveal_with_fuel(json::position, 3);
}

/// An answer is streamed where the client asks for it, but never one of Google's; one of
/// Anthropic's is streamed as events, any other as what it says it is.
pub proof fn answers_are_streamed_on_demand(
    names: AnthropicNames,
    body: Tree,
    source: Seq<char>,
    media: Seq<char>,
    other: Option<Seq<char>>,
)
    requires
        body.text_at("chat_completion_source"@) == Some(source),
    ensures
        body.flag_at("stream"@) != Some(true) ==> cc::streamed_as(names, body, other) is None,
        !elsewhere(source) ==> cc::streamed_as(names, body, other) is None,
        body.flag_at("stream"@) == Some(true) && elsewhere(source) && source == names.source@
            ==> cc::streamed_as(names, body, other) == Some("text/event-stream"@),
        body.flag_at("stream"@) == Some(true) && elsewhere(source) && source != names.source@
            ==> cc::streamed_as(names, body, Some(media)) == Some(media) && cc::streamed_as(
            names,
            body,
            None,
        ) == Some("text/event-stream"@),
{
}

/// The models of a service that needs a key are asked for with its key; without the key there are
/// none.
pub proof fn vision_models_need_key(kept: Option<Tree>, key: Seq<char>)
    requires
        key.len() > 0,
    ensures
        service_laws::keeps(kept, "api_key_chutes"@, key) ==> (cc::vision_listing(
            MultimodalSource::Chutes,
            kept,
        ) matches Ok(q) && q.url == "https://llm.chutes.ai/v1/models"@ && completion_laws::carries(
            q,
            "Authorization"@,
            "Bearer "@ + key,
        )),
        service_laws::keeps(kept, "api_key_mistralai"@, key) ==> (cc::vision_listing(
            MultimodalSource::Mistral,
            kept,
        ) matches Ok(q) && q.url == "https://api.mistral.ai/v1/models"@ && completion_laws::carries(
            q,
            "Authorization"@,
            "Bearer "@ + key,
        )),
        service_laws::keeps(kept, "api_key_xai"@, key) ==> (cc::vision_listing(
            MultimodalSource::Xai,
            kept,
        ) matches Ok(q) && q.url == "https://api.x.ai/v1/language-models"@
            && completion_laws::carries(q, "Authorization"@, "Bearer "@ + key)),
        service_laws::keeps(kept, "api_key_moonshot"@, key) ==> (cc::vision_listing(
            MultimodalSource::Moonshot,
            kept,
        ) matches Ok(q) && q.url == "https://api.moonshot.ai/v1/models"@
            && completion_laws::carries(q, "Authorization"@, "Bearer "@ + key)),
        cc::vision_listing(MultimodalSource::Chutes, None) matches Err(r) && r.status == 200
            && r.payload == web::PayloadView::Json(Tree::Array(Seq::empty())),
        cc::vision_listing(MultimodalSource::Pollinations, kept) matches Ok(q) && q.url
            == "https://gen.pollinations.ai/models"@ && q.headers.len() == 0,
        cc::vision_listing(MultimodalSource::Aimlapi, kept) matches Ok(q) && q.url
            == "https://api.aimlapi.com/v1/models"@ && q.headers.len() == 0,
        cc::vision_listing(MultimodalSource::Nanogpt, kept) matches Ok(q) && q.url
            == "https://nano-gpt.com/api/v1/models?detailed=true"@ && q.headers.len() == 0,
        cc::vision_listing(MultimodalSource::Electronhub, kept) matches Ok(q) && q.url
            == "https://api.electronhub.ai/v1/models"@ && q.headers.len() == 0,
{
    keyed(kept, key, "api_key_chutes"@, "https://llm.chutes.ai/v1/models"@);
    keyed(kept, key, "api_key_mistralai"@, "https://api.mistral.ai/v1/models"@);
    keyed(kept, key, "api_key_xai"@, "https://api.x.ai/v1/language-models"@);
    keyed(kept, key, "api_key_moonshot"@, "https://api.moonshot.ai/v1/models"@);
}

proof fn keyed(kept: Option<Tree>, key: Seq<char>, name: Seq<char>, url: Seq<char>)
    requires
        key.len() > 0,
    ensures
        service_laws::keeps(kept, name, key) ==> (cc::keyed_listing(kept, name, url) matches Ok(q)
            && q.method == Method::Get && q.url == url && completion_laws::carries(
            q,
            "Authorization"@,
            "Bearer "@ + key,
        )),
{
    if service_laws::keeps(kept, name, key) {
        let q = cc::keyed_listing(kept, name, url)->Ok_0;
        assert(q.headers[0] == ("Authorization"@, "Bearer "@ + key));
    }
}

/// A model of a service is told, by its identifier and behind those before it, where it takes
/// images; each service says so in its own way.
pub proof fn sighted_models_are_told(
    models: Seq<Tree>,
    m: Tree,
    id: Seq<char>,
    v: Seq<Tree>,
    c: Tree,
)
    requires
        m.text_at("id"@) == Some(id),
    ensures
        m.items_at("input_modalities"@) == Some(v) && v.contains(Tree::Text("image"@))
            ==> cc::sighted(MultimodalSource::Chutes, models.push(m)) == cc::sighted(
            MultimodalSource::Chutes,
            models,
        ).push(id) && cc::sighted(MultimodalSource::Xai, models.push(m)) == cc::sighted(
            MultimodalSource::Xai,
            models,
        ).push(id),
        m.items_at("input_modalities"@) is None ==> cc::sighted(
            MultimodalSource::Chutes,
            models.push(m),
        ) == cc::sighted(MultimodalSource::Chutes, models),
        m.items_at("features"@) == Some(v) && v.contains(
            Tree::Text("openai/chat-completion.vision"@),
        ) ==> cc::sighted(MultimodalSource::Aimlapi, models.push(m)) == cc::sighted(
            MultimodalSource::Aimlapi,
            models,
        ).push(id),
        m.get("capabilities"@) == Some(c) && c.flag_at("vision"@) == Some(true) ==> cc::sighted(
            MultimodalSource::Nanogpt,
            models.push(m),
        ) == cc::sighted(MultimodalSource::Nanogpt, models).push(id) && cc::sighted(
            MultimodalSource::Mistral,
            models.push(m),
        ) == cc::sighted(MultimodalSource::Mistral, models).push(id),
        m.get("capabilities"@) is None ==> cc::sighted(MultimodalSource::Mistral, models.push(m))
            == cc::sighted(MultimodalSource::Mistral, models),
        m.get("metadata"@) == Some(c) && c.flag_at("vision"@) == Some(true) ==> cc::sighted(
            MultimodalSource::Electronhub,
            models.push(m),
        ) == cc::sighted(MultimodalSource::Electronhub, models).push(id),
        cc::sighted(MultimodalSource::Moonshot, models.push(m)) == if m.flag_at(
            "supports_image_in"@,
        ) == Some(true) {
            cc::sighted(MultimodalSource::Moonshot, models).push(id)
        } else {
            cc::sighted(MultimodalSource::Moonshot, models)
        },
{
    assert(models.push(m).drop_last() =~= models);
    if v.contains(Tree::Text("image"@)) {
        let i = choose|i: int| 0 <= i < v.len() && v[i] == Tree::Text("image"@);
        assert(v[i].as_text() == Some("image"@));
    }
    if v.contains(Tree::Text("openai/chat-completion.vision"@)) {
        let i = choose|i: int|
            0 <= i < v.len() && v[i] == Tree::Text("openai/chat-completion.vision"@);
        assert(v[i].as_text() == Some("openai/chat-completion.vision"@));
    }
}

/// The models are found where the service lists them, and the client is told their names.
pub proof fn models_are_found_in_answer(s: u16, t: Seq<char>, j: Tree, v: Seq<Tree>)
    requires
        200 <= s < 300,
    ensures
        j.items_at("data"@) == Some(v) ==> cc::mm_answer(
            MultimodalSource::Mistral,
            web::UpstreamView::Got(s, t, Some(j)),
        ) == Tree::Array(json::text_items(cc::sighted(MultimodalSource::Mistral, v))),
        j == Tree::Array(v) ==> cc::mm_answer(
            MultimodalSource::Pollinations,
            web::UpstreamView::Got(s, t, Some(j)),
        ) == Tree::Array(json::text_items(cc::sighted(MultimodalSource::Pollinations, v))),
        j.items_at("models"@) == Some(v) ==> {
            let told = cc::mm_answer(MultimodalSource::Xai, web::UpstreamView::Got(s, t, Some(j)));
            &&& told is Array && told->Array_0.contains(Tree::Text("grok-4-0709"@))
            &&& json::text_items(cc::sighted(MultimodalSource::Xai, v)).is_prefix_of(told->Array_0)
        },
        cc::mm_answer(MultimodalSource::Mistral, web::UpstreamView::Failed(t)) == Tree::Array(
            Seq::empty(),
        ),
{
    if j.items_at("models"@) == Some(v) {
        let found = cc::sighted(MultimodalSource::Xai, v);
        let all = cc::vision_models(MultimodalSource::Xai, j);
        assert(all.contains("grok-4-0709"@)) by {
            if !found.contains("grok-4-0709"@) {
                assert(all.last() == "grok-4-0709"@);
            }
        }
        let i = choose|i: int| 0 <= i < all.len() && all[i] == "grok-4-0709"@;
        assert(json::text_items(all)[i] == Tree::Text("grok-4-0709"@));
        assert forall|k: int| 0 <= k < found.len() implies json::text_items(found)[k]
            == json::text_items(all)[k] by {
            assert(all[k] == found[k]);
        }
    }
}

} // verus!
