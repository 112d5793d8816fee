//! What holds of requests to the services that complete chats: where they go, with which key, and
//! what they carry.

use crate::backends_chat_completions as cc;
use crate::backends_chat_completions::AnthropicNames;
use crate::json;
use crate::json::Tree;
use crate::numbers::TextNumber;
use crate::outside;
use crate::secrets;
use crate::text;
use crate::web;
use crate::web::Method;
use vstd::prelude::*;

verus! {

/// The services with the usual interface, and their addresses.
pub open spec fn services() -> Seq<(Seq<char>, Seq<char>)> {
    seq![
        ("openai"@, "https://api.openai.com/v1"@),
        ("openrouter"@, "https://openrouter.ai/api/v1"@),
        ("mistralai"@, "https://api.mistral.ai/v1"@),
        ("cohere"@, "https://api.cohere.com/v2"@),
        ("deepseek"@, "https://api.deepseek.com/v1"@),
        ("perplexity"@, "https://api.perplexity.ai"@),
        ("groq"@, "https://api.groq.com/openai/v1"@),
        ("fireworks"@, "https://api.fireworks.ai/inference/v1"@),
        ("nanogpt"@, "https://nano-gpt.com/api/v1"@),
        ("pollinations"@, "https://gen.pollinations.ai/v1"@),
        ("xai"@, "https://api.x.ai/v1"@),
        ("chutes"@, "https://llm.chutes.ai/v1"@),
        ("electronhub"@, "https://api.electronhub.ai/v1"@),
        ("aimlapi"@, "https://api.aimlapi.com/v1"@),
        ("moonshot"@, "https://api.moonshot.ai/v1"@),
        ("siliconflow"@, "https://api.siliconflow.cn/v1"@),
        ("ai21"@, "https://api.ai21.com/studio/v1"@),
    ]
}

/// What of an order is not for the service.
pub open spec fn kept_back() -> Seq<Seq<char>> {
    seq![
        "chat_completion_source"@,
        "api_server"@,
        "reverse_proxy"@,
        "proxy_password"@,
        "custom_url"@,
        "custom_include_body"@,
        "custom_include_headers"@,
        "custom_exclude_body"@,
        "custom_prompt_post_processing"@,
        "json_schema"@,
        "api_type"@,
    ]
}

/// Whether a key is made of characters that may stand in a header.
pub open spec fn printable(key: Seq<char>) -> bool {
    forall|i: int|
        0 <= i < vstd::utf8::encode_utf8("Bearer "@ + key).len() ==> 32 <= (
        #[trigger] vstd::utf8::encode_utf8("Bearer "@ + key)[i]) < 127
}

/// Whether the only header of a name is one with this value.
pub open spec fn carries(q: web::OutgoingView, name: Seq<char>, value: Seq<char>) -> bool {
    &&& exists|i: int| 0 <= i < q.headers.len() && #[trigger] q.headers[i] == (name, value)
    &&& forall|i: int|
        0 <= i < q.headers.len() && (#[trigger] q.headers[i]).0 == name ==> q.headers[i].1 == value
}

/// Whether a payload is an order without what is kept back, and otherwise as it came.
pub open spec fn passes_on(q: web::OutgoingView, body: Tree) -> bool {
    &&& q.payload is Json
    &&& q.payload->Json_0 is Object
    &&& forall|k: Seq<char>|
        #![trigger q.payload->Json_0.get(k)]
        q.payload->Json_0.get(k) == if kept_back().contains(k) {
            None
        } else {
            body.get(k)
        }
}

proof fn names_differ()
    ensures
        "ai21"@.len() == 4 && "ai21"@[0] == 'a',
        "aimlapi"@.len() == 7 && "aimlapi"@[0] == 'a',
        "azure_openai"@.len() == 12 && "azure_openai"@[0] == 'a',
        "chutes"@.len() == 6 && "chutes"@[0] == 'c' && "chutes"@[1] == 'h',
        "cohere"@.len() == 6 && "cohere"@[0] == 'c' && "cohere"@[1] == 'o',
        "custom"@.len() == 6 && "custom"@[0] == 'c' && "custom"@[1] == 'u',
        "deepseek"@.len() == 8 && "deepseek"@[0] == 'd',
        "electronhub"@.len() == 11 && "electronhub"@[0] == 'e',
        "fireworks"@.len() == 9 && "fireworks"@[0] == 'f',
        "google"@.len() == 6 && "google"@[0] == 'g',
        "groq"@.len() == 4 && "groq"@[0] == 'g',
        "makersuite"@.len() == 10 && "makersuite"@[0] == 'm',
        "mistralai"@.len() == 9 && "mistralai"@[0] == 'm',
        "moonshot"@.len() == 8 && "moonshot"@[0] == 'm',
        "nanogpt"@.len() == 7 && "nanogpt"@[0] == 'n',
        "openai"@.len() == 6 && "openai"@[0] == 'o',
        "openrouter"@.len() == 10 && "openrouter"@[0] == 'o',
        "perplexity"@.len() == 10 && "perplexity"@[0] == 'p',
        "pollinations"@.len() == 12 && "pollinations"@[0] == 'p',
        "siliconflow"@.len() == 11 && "siliconflow"@[0] == 's',
        "vertexai"@.len() == 8 && "vertexai"@[0] == 'v',
        "xai"@.len() == 3 && "xai"@[0] == 'x',
        "zai"@.len() == 3 && "zai"@[0] == 'z',
{
    reveal_strlit("ai21");
    reveal_strlit("aimlapi");
    reveal_strlit("azure_openai");
    reveal_strlit("chutes");
    reveal_strlit("cohere");
    reveal_strlit("custom");
    reveal_strlit("deepseek");
    reveal_strlit("electronhub");
    reveal_strlit("fireworks");
    reveal_strlit("google");
    reveal_strlit("groq");
    reveal_strlit("makersuite");
    reveal_strlit("mistralai");
    reveal_strlit("moonshot");
    reveal_strlit("nanogpt");
    reveal_strlit("openai");
    reveal_strlit("openrouter");
    reveal_strlit("perplexity");
    reveal_strlit("pollinations");
    reveal_strlit("siliconflow");
    reveal_strlit("vertexai");
    reveal_strlit("xai");
    reveal_strlit("zai");
}

proof fn kept_back_is_internal(k: Seq<char>)
    ensures
        kept_back().contains(k) == cc::internal(k),
{
    let v = kept_back();
    if cc::internal(k) {
        assert(v[0] == "chat_completion_source"@ && v[1] == "api_server"@ && v[2]
            == "reverse_proxy"@ && v[3] == "proxy_password"@ && v[4] == "custom_url"@ && v[5]
            == "custom_include_body"@ && v[6] == "custom_include_headers"@ && v[7]
            == "custom_exclude_body"@ && v[8] == "custom_prompt_post_processing"@ && v[9]
            == "json_schema"@ && v[10] == "api_type"@);
    }
}

proof fn order_is_passed_on(q: web::OutgoingView, f: Seq<(Seq<char>, Tree)>)
    requires
        json::keys_distinct(f),
        q.payload == web::PayloadView::Json(cc::order_body(Tree::Object(f))),
    ensures
        passes_on(q, Tree::Object(f)),
{
    assert forall|k: Seq<char>| #![trigger q.payload->Json_0.get(k)] q.payload->Json_0.get(k)
        == if kept_back().contains(k) {
        None
    } else {
        Tree::Object(f).get(k)
    } by {
        kept_back_is_internal(k);
        cc::internal_members_stay(f, k);
    }
}

proof fn header_names_differ()
    ensures
        "Authorization"@ != "Content-Type"@,
        "Authorization"@ != "HTTP-Referer"@,
        "Authorization"@ != "X-Title"@,
        "Authorization"@ != "api-key"@,
        "api-key"@ != "Content-Type"@,
{
    reveal_strlit("Authorization");
    reveal_strlit("Content-Type");
    reveal_strlit("HTTP-Referer");
    reveal_strlit("X-Title");
    reveal_strlit("api-key");
    assert("Authorization"@.len() == 13);
    assert("Content-Type"@.len() == 12 && "Content-Type"@[0] == 'C');
    assert("HTTP-Referer"@.len() == 12 && "HTTP-Referer"@[0] == 'H');
    assert("X-Title"@.len() == 7 && "X-Title"@[0] == 'X');
    assert("api-key"@.len() == 7 && "api-key"@[0] == 'a');
}

proof fn plain_order_carries_key(
    source: Seq<char>,
    url: Seq<char>,
    key: Seq<char>,
    f: Seq<(Seq<char>, Tree)>,
)
    requires
        json::keys_distinct(f),
        printable(key),
    ensures
        cc::plain_order(source, url, key, Tree::Object(f)) matches Ok(q) && q.method == Method::Post
            && q.url == text::drop_trailing(url, '/') + "/chat/completions"@ && passes_on(
            q,
            Tree::Object(f),
        ) && (source == "azure_openai"@ ==> carries(q, "api-key"@, key)) && (source
            != "azure_openai"@ && key.len() > 0 ==> carries(q, "Authorization"@, "Bearer "@ + key))
            && (source != "azure_openai"@ && key.len() == 0 ==> forall|i: int|
            0 <= i < q.headers.len() ==> (#[trigger] q.headers[i]).0 != "Authorization"@),
{
    assert(cc::header_key(key)) by {
        assert forall|i: int| 0 <= i < vstd::utf8::encode_utf8("Bearer "@ + key).len() implies
            outside::header_byte(#[trigger] vstd::utf8::encode_utf8("Bearer "@ + key)[i]) by {}
    }
    header_names_differ();
    let q = cc::plain_order(source, url, key, Tree::Object(f))->Ok_0;
    order_is_passed_on(q, f);
    assert(q.headers[0].0 == "Content-Type"@);
    if source == "azure_openai"@ {
        assert(q.headers[1] == ("api-key"@, key));
    } else if key.len() > 0 {
        assert(q.headers[1] == ("Authorization"@, "Bearer "@ + key));
    }
}

/// An order for a service with the usual interface, for which a key is kept under the name of the
/// service, goes to that service's address and carries the key as a bearer token; all of the
/// order is passed on but what is not for the service.
pub proof fn order_goes_to_its_service(
    names: AnthropicNames,
    kept: Tree,
    f: Seq<(Seq<char>, Tree)>,
    key: Seq<char>,
    table: Seq<TextNumber>,
    i: int,
)
    requires
        0 <= i < services().len(),
        json::keys_distinct(f),
        Tree::Object(f).text_at("chat_completion_source"@) == Some(services()[i].0) || i == 0
            && Tree::Object(f).get("chat_completion_source"@) is None,
        Tree::Object(f).get("reverse_proxy"@) is None,
        services()[i].0 != names.source@,
        kept.get("api_key_"@ + services()[i].0) == Some(Tree::Text(key)),
        key.len() > 0,
        printable(key),
    ensures
        cc::completing(names, Some(kept), Tree::Object(f), table) matches Ok(q) && q.method
            == Method::Post && q.url == services()[i].1 + "/chat/completions"@ && carries(
            q,
            "Authorization"@,
            "Bearer "@ + key,
        ) && passes_on(q, Tree::Object(f)),
{
    names_differ();
    let body = Tree::Object(f);
    let source = services()[i].0;
    let url = services()[i].1;
    if i == 0 {
        assert("api_key_openai"@ =~= "api_key_"@ + "openai"@) by {
            reveal_strlit("api_key_");
            reveal_strlit("openai");
            reveal_strlit("api_key_openai");
        }
        assert("https://api.openai.com/v1"@.last() != '/') by {
            reveal_strlit("https://api.openai.com/v1");
        }
        assert("https://api.openai.com/v1"@.len() > 0) by {
            reveal_strlit("https://api.openai.com/v1");
        }
    }
    if i == 1 {
        assert("api_key_openrouter"@ =~= "api_key_"@ + "openrouter"@) by {
            reveal_strlit("api_key_");
            reveal_strlit("openrouter");
            reveal_strlit("api_key_openrouter");
        }
        assert("https://openrouter.ai/api/v1"@.last() != '/') by {
            reveal_strlit("https://openrouter.ai/api/v1");
        }
        assert("https://openrouter.ai/api/v1"@.len() > 0) by {
            reveal_strlit("https://openrouter.ai/api/v1");
        }
    }
    if i == 2 {
        assert("api_key_mistralai"@ =~= "api_key_"@ + "mistralai"@) by {
            reveal_strlit("api_key_");
            reveal_strlit("mistralai");
            reveal_strlit("api_key_mistralai");
        }
        assert("https://api.mistral.ai/v1"@.last() != '/') by {
            reveal_strlit("https://api.mistral.ai/v1");
        }
        assert("https://api.mistral.ai/v1"@.len() > 0) by {
            reveal_strlit("https://api.mistral.ai/v1");
        }
    }
    if i == 3 {
        assert("api_key_cohere"@ =~= "api_key_"@ + "cohere"@) by {
            reveal_strlit("api_key_");
            reveal_strlit("cohere");
            reveal_strlit("api_key_cohere");
        }
        assert("https://api.cohere.com/v2"@.last() != '/') by {
            reveal_strlit("https://api.cohere.com/v2");
        }
        assert("https://api.cohere.com/v2"@.len() > 0) by {
            reveal_strlit("https://api.cohere.com/v2");
        }
    }
    if i == 4 {
        assert("api_key_deepseek"@ =~= "api_key_"@ + "deepseek"@) by {
            reveal_strlit("api_key_");
            reveal_strlit("deepseek");
            reveal_strlit("api_key_deepseek");
        }
        assert("https://api.deepseek.com/v1"@.last() != '/') by {
            reveal_strlit("https://api.deepseek.com/v1");
        }
        assert("https://api.deepseek.com/v1"@.len() > 0) by {
            reveal_strlit("https://api.deepseek.com/v1");
        }
    }
    if i == 5 {
        assert("api_key_perplexity"@ =~= "api_key_"@ + "perplexity"@) by {
            reveal_strlit("api_key_");
            reveal_strlit("perplexity");
            reveal_strlit("api_key_perplexity");
        }
        assert("https://api.perplexity.ai"@.last() != '/') by {
            reveal_strlit("https://api.perplexity.ai");
        }
        assert("https://api.perplexity.ai"@.len() > 0) by {
            reveal_strlit("https://api.perplexity.ai");
        }
    }
    if i == 6 {
        assert("api_key_groq"@ =~= "api_key_"@ + "groq"@) by {
            reveal_strlit("api_key_");
            reveal_strlit("groq");
            reveal_strlit("api_key_groq");
        }
        assert("https://api.groq.com/openai/v1"@.last() != '/') by {
            reveal_strlit("https://api.groq.com/openai/v1");
        }
        assert("https://api.groq.com/openai/v1"@.len() > 0) by {
            reveal_strlit("https://api.groq.com/openai/v1");
        }
    }
    if i == 7 {
        assert("api_key_fireworks"@ =~= "api_key_"@ + "fireworks"@) by {
            reveal_strlit("api_key_");
            reveal_strlit("fireworks");
            reveal_strlit("api_key_fireworks");
        }
        assert("https://api.fireworks.ai/inference/v1"@.last() != '/') by {
            reveal_strlit("https://api.fireworks.ai/inference/v1");
        }
        assert("https://api.fireworks.ai/inference/v1"@.len() > 0) by {
            reveal_strlit("https://api.fireworks.ai/inference/v1");
        }
    }
    if i == 8 {
        assert("api_key_nanogpt"@ =~= "api_key_"@ + "nanogpt"@) by {
            reveal_strlit("api_key_");
            reveal_strlit("nanogpt");
            reveal_strlit("api_key_nanogpt");
        }
        assert("https://nano-gpt.com/api/v1"@.last() != '/') by {
            reveal_strlit("https://nano-gpt.com/api/v1");
        }
        assert("https://nano-gpt.com/api/v1"@.len() > 0) by {
            reveal_strlit("https://nano-gpt.com/api/v1");
        }
    }
    if i == 9 {
        assert("api_key_pollinations"@ =~= "api_key_"@ + "pollinations"@) by {
            reveal_strlit("api_key_");
            reveal_strlit("pollinations");
            reveal_strlit("api_key_pollinations");
        }
        assert("https://gen.pollinations.ai/v1"@.last() != '/') by {
            reveal_strlit("https://gen.pollinations.ai/v1");
        }
        assert("https://gen.pollinations.ai/v1"@.len() > 0) by {
            reveal_strlit("https://gen.pollinations.ai/v1");
        }
    }
    if i == 10 {
        assert("api_key_xai"@ =~= "api_key_"@ + "xai"@) by {
            reveal_strlit("api_key_");
            reveal_strlit("xai");
            reveal_strlit("api_key_xai");
        }
        assert("https://api.x.ai/v1"@.last() != '/') by {
            reveal_strlit("https://api.x.ai/v1");
        }
        assert("https://api.x.ai/v1"@.len() > 0) by {
            reveal_strlit("https://api.x.ai/v1");
        }
    }
    if i == 11 {
        assert("api_key_chutes"@ =~= "api_key_"@ + "chutes"@) by {
            reveal_strlit("api_key_");
            reveal_strlit("chutes");
            reveal_strlit("api_key_chutes");
        }
        assert("https://llm.chutes.ai/v1"@.last() != '/') by {
            reveal_strlit("https://llm.chutes.ai/v1");
        }
        assert("https://llm.chutes.ai/v1"@.len() > 0) by {
            reveal_strlit("https://llm.chutes.ai/v1");
        }
    }
    if i == 12 {
        assert("api_key_electronhub"@ =~= "api_key_"@ + "electronhub"@) by {
            reveal_strlit("api_key_");
            reveal_strlit("electronhub");
            reveal_strlit("api_key_electronhub");
        }
        assert("https://api.electronhub.ai/v1"@.last() != '/') by {
            reveal_strlit("https://api.electronhub.ai/v1");
        }
        assert("https://api.electronhub.ai/v1"@.len() > 0) by {
            reveal_strlit("https://api.electronhub.ai/v1");
        }
    }
    if i == 13 {
        assert("api_key_aimlapi"@ =~= "api_key_"@ + "aimlapi"@) by {
            reveal_strlit("api_key_");
            reveal_strlit("aimlapi");
            reveal_strlit("api_key_aimlapi");
        }
        assert("https://api.aimlapi.com/v1"@.last() != '/') by {
            reveal_strlit("https://api.aimlapi.com/v1");
        }
        assert("https://api.aimlapi.com/v1"@.len() > 0) by {
            reveal_strlit("https://api.aimlapi.com/v1");
        }
    }
    if i == 14 {
        assert("api_key_moonshot"@ =~= "api_key_"@ + "moonshot"@) by {
            reveal_strlit("api_key_");
            reveal_strlit("moonshot");
            reveal_strlit("api_key_moonshot");
        }
        assert("https://api.moonshot.ai/v1"@.last() != '/') by {
            reveal_strlit("https://api.moonshot.ai/v1");
        }
        assert("https://api.moonshot.ai/v1"@.len() > 0) by {
            reveal_strlit("https://api.moonshot.ai/v1");
        }
    }
    if i == 15 {
        assert("api_key_siliconflow"@ =~= "api_key_"@ + "siliconflow"@) by {
            reveal_strlit("api_key_");
            reveal_strlit("siliconflow");
            reveal_strlit("api_key_siliconflow");
        }
        assert("https://api.siliconflow.cn/v1"@.last() != '/') by {
            reveal_strlit("https://api.siliconflow.cn/v1");
        }
        assert("https://api.siliconflow.cn/v1"@.len() > 0) by {
            reveal_strlit("https://api.siliconflow.cn/v1");
        }
    }
    if i == 16 {
        assert("api_key_ai21"@ =~= "api_key_"@ + "ai21"@) by {
            reveal_strlit("api_key_");
            reveal_strlit("ai21");
            reveal_strlit("api_key_ai21");
        }
        assert("https://api.ai21.com/studio/v1"@.last() != '/') by {
            reveal_strlit("https://api.ai21.com/studio/v1");
        }
        assert("https://api.ai21.com/studio/v1"@.len() > 0) by {
            reveal_strlit("https://api.ai21.com/studio/v1");
        }
    }
    assert(cc::order_source(body) == source);
    assert(cc::secret_name(source, names) == "api_key_"@ + source);
    assert(cc::api_url(source) == url);
    assert(text::drop_trailing(url, '/') == url);
    plain_order_carries_key(source, url, key, f);
}

/// An order that names a proxy goes to the proxy, with the password of the proxy for its key.
pub proof fn order_goes_through_proxy(
    names: AnthropicNames,
    kept: Option<Tree>,
    f: Seq<(Seq<char>, Tree)>,
    proxy: Seq<char>,
    key: Seq<char>,
    table: Seq<TextNumber>,
)
    requires
        json::keys_distinct(f),
        Tree::Object(f).text_at("chat_completion_source"@) is Some,
        ({
            let source = Tree::Object(f).text_at("chat_completion_source"@)->0;
            source != names.source@ && source != "makersuite"@ && source != "google"@ && source
                != "vertexai"@ && source != "azure_openai"@
        }),
        Tree::Object(f).text_at("reverse_proxy"@) == Some(proxy),
        proxy.len() > 0,
        Tree::Object(f).text_at("proxy_password"@) == Some(key),
        key.len() > 0,
        printable(key),
    ensures
        cc::completing(names, kept, Tree::Object(f), table) matches Ok(q) && q.method
            == Method::Post && q.url == text::drop_trailing(proxy, '/') + "/chat/completions"@
            && carries(q, "Authorization"@, "Bearer "@ + key) && passes_on(q, Tree::Object(f)),
{
    let body = Tree::Object(f);
    plain_order_carries_key(body.text_at("chat_completion_source"@)->0, proxy, key, f);
}

/// An order for Azure carries its key in a header of its own.
pub proof fn azure_order_carries_key(
    names: AnthropicNames,
    kept: Option<Tree>,
    f: Seq<(Seq<char>, Tree)>,
    proxy: Seq<char>,
    key: Seq<char>,
    table: Seq<TextNumber>,
)
    requires
        json::keys_distinct(f),
        Tree::Object(f).text_at("chat_completion_source"@) == Some("azure_openai"@),
        "azure_openai"@ != names.source@,
        Tree::Object(f).text_at("reverse_proxy"@) == Some(proxy),
        proxy.len() > 0,
        Tree::Object(f).text_at("proxy_password"@) == Some(key),
        key.len() > 0,
        printable(key),
    ensures
        cc::completing(names, kept, Tree::Object(f), table) matches Ok(q) && q.method
            == Method::Post && q.url == text::drop_trailing(proxy, '/') + "/chat/completions"@
            && carries(q, "api-key"@, key) && passes_on(q, Tree::Object(f)),
{
    names_differ();
    plain_order_carries_key("azure_openai"@, proxy, key, f);
}

/// An order to a server of the user's own goes to the address that it gives, without a key where
/// none is kept.
pub proof fn custom_order_goes_where_it_says(
    names: AnthropicNames,
    f: Seq<(Seq<char>, Tree)>,
    url: Seq<char>,
    table: Seq<TextNumber>,
)
    requires
        json::keys_distinct(f),
        Tree::Object(f).text_at("chat_completion_source"@) == Some("custom"@),
        "custom"@ != names.source@,
        Tree::Object(f).get("reverse_proxy"@) is None,
        Tree::Object(f).text_at("custom_url"@) == Some(url),
        url.len() > 0,
        printable(Seq::empty()),
    ensures
        cc::completing(names, None, Tree::Object(f), table) matches Ok(q) && q.method
            == Method::Post && q.url == text::drop_trailing(url, '/') + "/chat/completions"@
            && passes_on(q, Tree::Object(f)) && forall|i: int|
            0 <= i < q.headers.len() ==> (#[trigger] q.headers[i]).0 != "Authorization"@,
{
    names_differ();
    plain_order_carries_key("custom"@, url, Seq::empty(), f);
}

/// Without a key nothing is asked of a service, other than one of the user's own and
/// Pollinations.
pub proof fn order_needs_key(
    names: AnthropicNames,
    kept: Option<Tree>,
    body: Tree,
    table: Seq<TextNumber>,
    source: Seq<char>,
)
    requires
        body.text_at("chat_completion_source"@) == Some(source),
        source != "custom"@,
        source != "pollinations"@,
        body.get("reverse_proxy"@) is None,
        kept is None || (kept->0 matches Tree::Object(f) && f.len() == 0),
    ensures
        cc::completing(names, kept, body, table) matches Err(r) && r.status == 400,
{
}

proof fn listing_headers_differ()
    ensures
        "x-api-key"@ != "anthropic-version"@,
        "Authorization"@ != "HTTP-Referer"@,
        "Authorization"@ != "X-Title"@,
{
    reveal_strlit("Authorization");
    reveal_strlit("HTTP-Referer");
    reveal_strlit("X-Title");
    reveal_strlit("anthropic-version");
    reveal_strlit("x-api-key");
    assert("Authorization"@.len() == 13);
    assert("HTTP-Referer"@.len() == 12);
    assert("X-Title"@.len() == 7);
    assert("anthropic-version"@.len() == 17);
    assert("x-api-key"@.len() == 9);
}

/// The models of a service with the usual interface are asked for at its address with the key
/// that is kept under its name.
pub proof fn models_are_asked_of_their_service(
    names: AnthropicNames,
    kept: Tree,
    body: cc::StatusRequest,
    key: Seq<char>,
    i: int,
)
    requires
        0 <= i < services().len(),
        body.chat_completion_source matches Some(x) && x@ == services()[i].0,
        body.reverse_proxy is None,
        services()[i].0 != names.source@,
        kept.get("api_key_"@ + services()[i].0) == Some(Tree::Text(key)),
        key.len() > 0,
    ensures
        cc::listing(
            names,
            cc::status_source(body),
            json::string_opt(body.reverse_proxy),
            cc::status_key(names, Some(kept), body),
        ) matches Ok(q) && q.method == Method::Get && q.url == services()[i].1 + "/models"@
            && q.payload == web::PayloadView::Empty && carries(
            q,
            "Authorization"@,
            "Bearer "@ + key,
        ),
{
    names_differ();
    listing_headers_differ();
    let source = services()[i].0;
    let url = services()[i].1;
    if i == 0 {
        assert("api_key_openai"@ =~= "api_key_"@ + "openai"@) by {
            reveal_strlit("api_key_");
            reveal_strlit("openai");
            reveal_strlit("api_key_openai");
        }
        assert("https://api.openai.com/v1"@.last() != '/') by {
            reveal_strlit("https://api.openai.com/v1");
        }
        assert("https://api.openai.com/v1"@.len() > 0) by {
            reveal_strlit("https://api.openai.com/v1");
        }
    }
    if i == 1 {
        assert("api_key_openrouter"@ =~= "api_key_"@ + "openrouter"@) by {
            reveal_strlit("api_key_");
            reveal_strlit("openrouter");
            reveal_strlit("api_key_openrouter");
        }
        assert("https://openrouter.ai/api/v1"@.last() != '/') by {
            reveal_strlit("https://openrouter.ai/api/v1");
        }
        assert("https://openrouter.ai/api/v1"@.len() > 0) by {
            reveal_strlit("https://openrouter.ai/api/v1");
        }
    }
    if i == 2 {
        assert("api_key_mistralai"@ =~= "api_key_"@ + "mistralai"@) by {
            reveal_strlit("api_key_");
            reveal_strlit("mistralai");
            reveal_strlit("api_key_mistralai");
        }
        assert("https://api.mistral.ai/v1"@.last() != '/') by {
            reveal_strlit("https://api.mistral.ai/v1");
        }
        assert("https://api.mistral.ai/v1"@.len() > 0) by {
            reveal_strlit("https://api.mistral.ai/v1");
        }
    }
    if i == 3 {
        assert("api_key_cohere"@ =~= "api_key_"@ + "cohere"@) by {
            reveal_strlit("api_key_");
            reveal_strlit("cohere");
            reveal_strlit("api_key_cohere");
        }
        assert("https://api.cohere.com/v2"@.last() != '/') by {
            reveal_strlit("https://api.cohere.com/v2");
        }
        assert("https://api.cohere.com/v2"@.len() > 0) by {
            reveal_strlit("https://api.cohere.com/v2");
        }
    }
    if i == 4 {
        assert("api_key_deepseek"@ =~= "api_key_"@ + "deepseek"@) by {
            reveal_strlit("api_key_");
            reveal_strlit("deepseek");
            reveal_strlit("api_key_deepseek");
        }
        assert("https://api.deepseek.com/v1"@.last() != '/') by {
            reveal_strlit("https://api.deepseek.com/v1");
        }
        assert("https://api.deepseek.com/v1"@.len() > 0) by {
            reveal_strlit("https://api.deepseek.com/v1");
        }
    }
    if i == 5 {
        assert("api_key_perplexity"@ =~= "api_key_"@ + "perplexity"@) by {
            reveal_strlit("api_key_");
            reveal_strlit("perplexity");
            reveal_strlit("api_key_perplexity");
        }
        assert("https://api.perplexity.ai"@.last() != '/') by {
            reveal_strlit("https://api.perplexity.ai");
        }
        assert("https://api.perplexity.ai"@.len() > 0) by {
            reveal_strlit("https://api.perplexity.ai");
        }
    }
    if i == 6 {
        assert("api_key_groq"@ =~= "api_key_"@ + "groq"@) by {
            reveal_strlit("api_key_");
            reveal_strlit("groq");
            reveal_strlit("api_key_groq");
        }
        assert("https://api.groq.com/openai/v1"@.last() != '/') by {
            reveal_strlit("https://api.groq.com/openai/v1");
        }
        assert("https://api.groq.com/openai/v1"@.len() > 0) by {
            reveal_strlit("https://api.groq.com/openai/v1");
        }
    }
    if i == 7 {
        assert("api_key_fireworks"@ =~= "api_key_"@ + "fireworks"@) by {
            reveal_strlit("api_key_");
            reveal_strlit("fireworks");
            reveal_strlit("api_key_fireworks");
        }
        assert("https://api.fireworks.ai/inference/v1"@.last() != '/') by {
            reveal_strlit("https://api.fireworks.ai/inference/v1");
        }
        assert("https://api.fireworks.ai/inference/v1"@.len() > 0) by {
            reveal_strlit("https://api.fireworks.ai/inference/v1");
        }
    }
    if i == 8 {
        assert("api_key_nanogpt"@ =~= "api_key_"@ + "nanogpt"@) by {
            reveal_strlit("api_key_");
            reveal_strlit("nanogpt");
            reveal_strlit("api_key_nanogpt");
        }
        assert("https://nano-gpt.com/api/v1"@.last() != '/') by {
            reveal_strlit("https://nano-gpt.com/api/v1");
        }
        assert("https://nano-gpt.com/api/v1"@.len() > 0) by {
            reveal_strlit("https://nano-gpt.com/api/v1");
        }
    }
    if i == 9 {
        assert("api_key_pollinations"@ =~= "api_key_"@ + "pollinations"@) by {
            reveal_strlit("api_key_");
            reveal_strlit("pollinations");
            reveal_strlit("api_key_pollinations");
        }
        assert("https://gen.pollinations.ai/v1"@.last() != '/') by {
            reveal_strlit("https://gen.pollinations.ai/v1");
        }
        assert("https://gen.pollinations.ai/v1"@.len() > 0) by {
            reveal_strlit("https://gen.pollinations.ai/v1");
        }
    }
    if i == 10 {
        assert("api_key_xai"@ =~= "api_key_"@ + "xai"@) by {
            reveal_strlit("api_key_");
            reveal_strlit("xai");
            reveal_strlit("api_key_xai");
        }
        assert("https://api.x.ai/v1"@.last() != '/') by {
            reveal_strlit("https://api.x.ai/v1");
        }
        assert("https://api.x.ai/v1"@.len() > 0) by {
            reveal_strlit("https://api.x.ai/v1");
        }
    }
    if i == 11 {
        assert("api_key_chutes"@ =~= "api_key_"@ + "chutes"@) by {
            reveal_strlit("api_key_");
            reveal_strlit("chutes");
            reveal_strlit("api_key_chutes");
        }
        assert("https://llm.chutes.ai/v1"@.last() != '/') by {
            reveal_strlit("https://llm.chutes.ai/v1");
        }
        assert("https://llm.chutes.ai/v1"@.len() > 0) by {
            reveal_strlit("https://llm.chutes.ai/v1");
        }
    }
    if i == 12 {
        assert("api_key_electronhub"@ =~= "api_key_"@ + "electronhub"@) by {
            reveal_strlit("api_key_");
            reveal_strlit("electronhub");
            reveal_strlit("api_key_electronhub");
        }
        assert("https://api.electronhub.ai/v1"@.last() != '/') by {
            reveal_strlit("https://api.electronhub.ai/v1");
        }
        assert("https://api.electronhub.ai/v1"@.len() > 0) by {
            reveal_strlit("https://api.electronhub.ai/v1");
        }
    }
    if i == 13 {
        assert("api_key_aimlapi"@ =~= "api_key_"@ + "aimlapi"@) by {
            reveal_strlit("api_key_");
            reveal_strlit("aimlapi");
            reveal_strlit("api_key_aimlapi");
        }
        assert("https://api.aimlapi.com/v1"@.last() != '/') by {
            reveal_strlit("https://api.aimlapi.com/v1");
        }
        assert("https://api.aimlapi.com/v1"@.len() > 0) by {
            reveal_strlit("https://api.aimlapi.com/v1");
        }
    }
    if i == 14 {
        assert("api_key_moonshot"@ =~= "api_key_"@ + "moonshot"@) by {
            reveal_strlit("api_key_");
            reveal_strlit("moonshot");
            reveal_strlit("api_key_moonshot");
        }
        assert("https://api.moonshot.ai/v1"@.last() != '/') by {
            reveal_strlit("https://api.moonshot.ai/v1");
        }
        assert("https://api.moonshot.ai/v1"@.len() > 0) by {
            reveal_strlit("https://api.moonshot.ai/v1");
        }
    }
    if i == 15 {
        assert("api_key_siliconflow"@ =~= "api_key_"@ + "siliconflow"@) by {
            reveal_strlit("api_key_");
            reveal_strlit("siliconflow");
            reveal_strlit("api_key_siliconflow");
        }
        assert("https://api.siliconflow.cn/v1"@.last() != '/') by {
            reveal_strlit("https://api.siliconflow.cn/v1");
        }
        assert("https://api.siliconflow.cn/v1"@.len() > 0) by {
            reveal_strlit("https://api.siliconflow.cn/v1");
        }
    }
    if i == 16 {
        assert("api_key_ai21"@ =~= "api_key_"@ + "ai21"@) by {
            reveal_strlit("api_key_");
            reveal_strlit("ai21");
            reveal_strlit("api_key_ai21");
        }
        assert("https://api.ai21.com/studio/v1"@.last() != '/') by {
            reveal_strlit("https://api.ai21.com/studio/v1");
        }
        assert("https://api.ai21.com/studio/v1"@.len() > 0) by {
            reveal_strlit("https://api.ai21.com/studio/v1");
        }
    }
    assert(cc::secret_name(source, names) == "api_key_"@ + source);
    assert(cc::api_url(source) == url);
    assert(text::drop_trailing(url, '/') == url);
    let q = cc::listing(names, source, None, key)->Ok_0;
    assert(q.headers[0] == ("Authorization"@, "Bearer "@ + key));
}

/// The models of Anthropic, of Google and of Azure are asked for in their own ways: the key goes
/// into a header of theirs or into the address.
pub proof fn models_are_asked_of_others(
    names: AnthropicNames,
    proxy: Option<Seq<char>>,
    key: Seq<char>,
)
    requires
        key.len() > 0,
        names.source@ != "makersuite"@,
        names.source@ != "google"@,
        names.source@ != "azure_openai"@,
    ensures
        cc::listing(names, names.source@, proxy, key) matches Ok(q) && q.method == Method::Get
            && carries(q, "x-api-key"@, key) && carries(q, "anthropic-version"@, "2023-06-01"@)
            && q.url == text::drop_trailing(
            match proxy {
                Some(p) => p,
                None => "https://api.anthropic.com/v1"@,
            },
            '/',
        ) + "/models?limit=1000"@,
        cc::listing(names, "makersuite"@, proxy, key) matches Ok(q) && q.method == Method::Get
            && q.url == "https://generativelanguage.googleapis.com/v1beta/models?key="@ + key,
        cc::listing(names, "google"@, proxy, key) == cc::listing(names, "makersuite"@, proxy, key),
        proxy matches Some(p) && p.len() > 0 ==> (cc::listing(
            names,
            "azure_openai"@,
            proxy,
            key,
        ) matches Ok(q) && q.method == Method::Get && carries(q, "api-key"@, key) && q.url
            == text::drop_trailing(proxy->0, '/') + "/models?api-version=2023-03-15-preview"@),
        cc::listing(names, names.source@, proxy, Seq::empty()) matches Err(r) && r.status == 401,
        cc::listing(names, "makersuite"@, proxy, Seq::empty()) matches Err(r) && r.status == 401,
        cc::listing(names, "azure_openai"@, proxy, Seq::empty()) matches Err(r) && r.status == 400,
{
    names_differ();
    listing_headers_differ();
    let q = cc::listing(names, names.source@, proxy, key)->Ok_0;
    assert(q.headers[0] == ("x-api-key"@, key));
    assert(q.headers[1] == ("anthropic-version"@, "2023-06-01"@));
    match proxy {
        Some(p) => if p.len() > 0 {
            let z = cc::listing(names, "azure_openai"@, proxy, key)->Ok_0;
            assert(z.headers[0] == ("api-key"@, key));
        },
        None => {},
    }
}

/// An order to Anthropic carries the key in a header of its own, and asks for the model, length
/// and messages of the client. Where the first message is the system's it is taken out of the
/// messages and stands by itself.
pub proof fn anthropic_order_is_shaped(
    names: AnthropicNames,
    key: Seq<char>,
    url: Seq<char>,
    body: Tree,
    messages: Seq<Tree>,
    stream: bool,
    table: Seq<TextNumber>,
)
    requires
        body.items_at("messages"@) == Some(messages),
    ensures
        ({
            let q = cc::claude_order(names, key, url, body, stream, table);
            let order = q.payload->Json_0;
            let system = messages.len() > 0 && messages[0].text_at("role"@) == Some("system"@);
            &&& q.method == Method::Post
            &&& q.url == text::drop_trailing(url, '/') + "/messages"@
            &&& carries(q, "x-api-key"@, key)
            &&& carries(q, "anthropic-version"@, "2023-06-01"@)
            &&& q.payload is Json
            &&& order.text_at("model"@) == Some(
                match body.text_at("model"@) {
                    Some(m) => m,
                    None => names.model@,
                },
            )
            &&& order.get("max_tokens"@) == Some(
                json::num(
                    match body.get("max_tokens"@) {
                        Some(Tree::Number(json::Number::Pos(n))) => n,
                        _ => 4096,
                    },
                ),
            )
            &&& order.flag_at("stream"@) == Some(stream)
            &&& order.get("top_p"@) == body.get("top_p"@)
            &&& order.get("top_k"@) == body.get("top_k"@)
            &&& order.get("stop_sequences"@) == body.get("stop"@)
            &&& order.items_at("messages"@) == Some(
                if system {
                    messages.skip(1)
                } else {
                    messages
                },
            )
            &&& system ==> order.get("system"@) == Some(
                match messages[0].get("content"@) {
                    Some(c) => c,
                    None => Tree::Text(Seq::empty()),
                },
            )
            &&& !system ==> order.get("system"@) is None
        }),
{
    listing_headers_differ();
    reveal_strlit("Content-Type");
    reveal_strlit("anthropic-version");
    reveal_strlit("max_tokens");
    reveal_strlit("messages");
    reveal_strlit("model");
    reveal_strlit("stop");
    reveal_strlit("stop_sequences");
    reveal_strlit("stream");
    reveal_strlit("system");
    reveal_strlit("temperature");
    reveal_strlit("top_k");
    reveal_strlit("top_p");
    reveal_strlit("x-api-key");
    assert("Content-Type"@.len() == 12);
    assert("anthropic-version"@.len() == 17);
    assert("max_tokens"@.len() == 10);
    assert("messages"@.len() == 8);
    assert("model"@.len() == 5 && "model"@[0] == 'm');
    assert("stop"@.len() == 4);
    assert("stop_sequences"@.len() == 14);
    assert("stream"@.len() == 6 && "stream"@[1] == 't');
    assert("system"@.len() == 6 && "system"@[1] == 'y');
    assert("temperature"@.len() == 11);
    assert("top_k"@.len() == 5 && "top_k"@[0] == 't' && "top_k"@[4] == 'k');
    assert("top_p"@.len() == 5 && "top_p"@[0] == 't' && "top_p"@[4] == 'p');
    assert("x-api-key"@.len() == 9);
    let q = cc::claude_order(names, key, url, body, stream, table);
    assert(q.headers[0] == ("Content-Type"@, "application/json"@));
    assert(q.headers[1] == ("x-api-key"@, key));
    assert(q.headers[2] == ("anthropic-version"@, "2023-06-01"@));
    let base = json::members()
        .push(("model"@, json::txt(body.text_or("model"@, names.model@))))
        .push(("messages"@, Tree::Array(messages)))
        .push(("max_tokens"@, json::num(cc::order_length(body))))
        .push(("temperature"@, cc::order_number(body, "temperature"@, table)))
        .push(("stream"@, Tree::Bool(stream)));
    let a = cc::with_option(base, body, "top_p"@, "top_p"@);
    let b = cc::with_option(a, body, "top_k"@, "top_k"@);
    let c = cc::with_option(b, body, "stop"@, "stop_sequences"@);
    assert(json::lookup(base, "model"@) == Some(json::txt(body.text_or("model"@, names.model@)))
        && json::lookup(base, "messages"@) == Some(Tree::Array(messages)) && json::lookup(
        base,
        "max_tokens"@,
    ) == Some(json::num(cc::order_length(body))) && json::lookup(base, "stream"@) == Some(
        Tree::Bool(stream),
    ) && json::lookup(base, "top_p"@) is None && json::lookup(base, "top_k"@) is None
        && json::lookup(base, "stop_sequences"@) is None && json::lookup(base, "system"@) is None)
        by {
        reveal_with_fuel(json::position, 7);
    }
    let system = messages.len() > 0 && messages[0].text_at("role"@) == Some("system"@);
    let content = json::tree_or(messages[0].get("content"@), json::txt(Seq::empty()));
    let keys = seq![
        "model"@,
        "messages"@,
        "max_tokens"@,
        "stream"@,
        "top_p"@,
        "top_k"@,
        "stop_sequences"@,
        "system"@,
    ];
    let d = json::put(c, "system"@, content);
    assert forall|i: int| 0 <= i < keys.len() implies {
        let k = #[trigger] keys[i];
        &&& json::lookup(c, k) == if k == "top_p"@ {
            body.get("top_p"@)
        } else if k == "top_k"@ {
            body.get("top_k"@)
        } else if k == "stop_sequences"@ {
            body.get("stop"@)
        } else {
            json::lookup(base, k)
        }
        &&& json::lookup(json::put(d, "messages"@, Tree::Array(messages.skip(1))), k) == if k
            == "messages"@ {
            Some(Tree::Array(messages.skip(1)))
        } else if k == "system"@ {
            Some(content)
        } else {
            json::lookup(c, k)
        }
    } by {
        let k = keys[i];
        option_reads(base, body, "top_p"@, "top_p"@, k);
        option_reads(a, body, "top_k"@, "top_k"@, k);
        option_reads(b, body, "stop"@, "stop_sequences"@, k);
        json::put_reads(c, "system"@, content, k);
        json::put_reads(d, "messages"@, Tree::Array(messages.skip(1)), k);
    }
    assert(keys[0] == "model"@ && keys[1] == "messages"@ && keys[2] == "max_tokens"@ && keys[3]
        == "stream"@ && keys[4] == "top_p"@ && keys[5] == "top_k"@ && keys[6] == "stop_sequences"@
        && keys[7] == "system"@);
}

proof fn option_reads(
    f: Seq<(Seq<char>, Tree)>,
    body: Tree,
    from: Seq<char>,
    to: Seq<char>,
    other: Seq<char>,
)
    ensures
        json::lookup(cc::with_option(f, body, from, to), other) == if to == other
            && body.get(from) is Some {
            body.get(from)
        } else {
            json::lookup(f, other)
        },
{
    match body.get(from) {
        Some(v) => json::put_reads(f, to, v, other),
        None => {},
    }
}

/// An order to Gemini goes to the model that the client names, with the key in the address; its
/// contents are the messages in their order, the assistant's in the role of the model and all
/// others in that of the user, each with its text.
pub proof fn gemini_order_is_shaped(
    key: Seq<char>,
    body: Tree,
    messages: Seq<Tree>,
    table: Seq<TextNumber>,
    i: int,
)
    requires
        body.items_at("messages"@) == Some(messages),
        0 <= i < messages.len(),
    ensures
        ({
            let q = cc::gemini_order(key, body, table);
            let contents = q.payload->Json_0.items_at("contents"@);
            let config = q.payload->Json_0.get("generationConfig"@);
            &&& q.method == Method::Post
            &&& q.url == "https://generativelanguage.googleapis.com/v1beta/models/"@ + (
            match body.text_at("model"@) {
                Some(m) => m,
                None => "gemini-1.5-flash-latest"@,
            }) + ":generateContent?key="@ + key
            &&& q.payload is Json
            &&& contents is Some && contents->0.len() == messages.len()
            &&& contents->0[i].text_at("role"@) == Some(
                if messages[i].text_at("role"@) == Some("assistant"@) {
                    "model"@
                } else {
                    "user"@
                },
            )
            &&& messages[i].text_at("content"@) matches Some(t) ==> (contents->0[i].items_at(
                "parts"@,
            ) matches Some(parts) && parts.len() == 1 && parts[0].text_at("text"@) == Some(t))
            &&& config is Some && config->0.get("maxOutputTokens"@) == Some(
                json::num(
                    match body.get("max_tokens"@) {
                        Some(Tree::Number(json::Number::Pos(n))) => n,
                        _ => 4096,
                    },
                ),
            )
        }),
{
    reveal_strlit("assistant");
    reveal_strlit("contents");
    reveal_strlit("generationConfig");
    reveal_strlit("maxOutputTokens");
    reveal_strlit("parts");
    reveal_strlit("role");
    reveal_strlit("temperature");
    reveal_strlit("text");
    reveal_strlit("user");
    assert("assistant"@.len() == 9);
    assert("contents"@.len() == 8);
    assert("generationConfig"@.len() == 16);
    assert("maxOutputTokens"@.len() == 15);
    assert("parts"@.len() == 5);
    assert("role"@.len() == 4 && "role"@[0] == 'r');
    assert("temperature"@.len() == 11);
    assert("text"@.len() == 4 && "text"@[0] == 't');
    assert("user"@.len() == 4 && "user"@[0] == 'u');
    reveal_with_fuel(json::position, 4);
    let q = cc::gemini_order(key, body, table);
    assert(q.payload->Json_0.items_at("contents"@) == Some(cc::gemini_contents(body)));
    assert(cc::gemini_contents(body)[i] == cc::gemini_message(messages[i]));
}

/// A completion is given to the client as it came; what a service with the usual interface
/// refuses is told under `error`, and as a lack of quota where the service says so by its status.
pub proof fn completions_are_given_back(s: u16, t: Seq<char>, j: Tree, m: Seq<char>)
    requires
        200 <= s < 300,
    ensures
        cc::plain_answer(web::UpstreamView::Got(s, t, Some(j)), false) == web::json_reply(200, j),
        web::relayed(web::UpstreamView::Got(s, t, Some(j))) == web::json_reply(200, j),
        web::relayed_with_error(web::UpstreamView::Got(s, t, Some(j))) == web::json_reply(200, j),
        forall|bad: u16, p: Option<Tree>|
            #![trigger cc::plain_answer(web::UpstreamView::Got(bad, t, p), false)]
            !(200 <= bad < 300) ==> {
                let r = cc::plain_answer(web::UpstreamView::Got(bad, t, p), false);
                &&& r.status == 200
                &&& r.payload is Json
                &&& r.payload->Json_0.get("error"@) matches Some(e) && e.text_at("message"@)
                    == Some(t)
                &&& r.payload->Json_0.flag_at("quota_error"@) == Some(bad == 429)
            },
        ({
            let r = cc::plain_answer(web::UpstreamView::Failed(m), false);
            let refused = cc::plain_answer(web::UpstreamView::Failed(m), true);
            &&& r.status == 502 && refused.status == 502
            &&& r.payload is Json && refused.payload is Json
            &&& r.payload->Json_0.get("error"@) matches Some(e) && e.text_at("message"@) == Some(m)
            &&& refused.payload->Json_0.get("error"@) matches Some(e) && e.text_at("message"@)
                == Some("Connection refused: "@ + m)
        }),
{
    reveal_strlit("error");
    reveal_strlit("message");
    reveal_strlit("quota_error");
    assert("error"@.len() == 5);
    assert("message"@.len() == 7);
    assert("quota_error"@.len() == 11);
    reveal_with_fuel(json::position, 3);
}

/// The secret under a key is the text there, or of a list the value of an active item that no
/// active one stands before, or that of the first item where none is active.
pub proof fn secret_is_the_active_one(kept: Tree, key: Seq<char>, items: Seq<Tree>, i: int)
    requires
        kept.get(key) == Some(Tree::Array(items)),
        0 <= i < items.len(),
    ensures
        items[i].flag_at("active"@) == Some(true) && (forall|j: int|
            0 <= j < i ==> (#[trigger] items[j]).flag_at("active"@) != Some(true))
            ==> secrets::secret(Some(kept), key) == items[i].text_at("value"@),
        (forall|j: int|
            0 <= j < items.len() ==> (#[trigger] items[j]).flag_at("active"@) != Some(true))
            ==> secrets::secret(Some(kept), key) == items[0].text_at("value"@),
{
    active_is_first(items, i, 0);
}

proof fn active_is_first(items: Seq<Tree>, i: int, from: int)
    requires
        0 <= from <= items.len(),
        0 <= i < items.len(),
    ensures
        from <= i && items[i].flag_at("active"@) == Some(true) && (forall|j: int|
            from <= j < i ==> (#[trigger] items[j]).flag_at("active"@) != Some(true))
            ==> secrets::first_active(items, from) == i,
        (forall|j: int|
            from <= j < items.len() ==> (#[trigger] items[j]).flag_at("active"@) != Some(true))
            ==> secrets::first_active(items, from) == items.len(),
    decreases items.len() - from,
{
    if from < items.len() {
        active_is_first(items, i, from + 1);
    }
}

} // verus!
