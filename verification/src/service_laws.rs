//! What holds of requests to other services: where they go, with which key, and what they carry.

use crate::anthropic;
use crate::azure;
use crate::backends_kobold as kobold;
use crate::backends_text_completions as tc;
use crate::completion_laws;
use crate::google;
use crate::horde;
use crate::json;
use crate::json::Tree;
use crate::minimax;
use crate::secrets;
use crate::text;
use crate::text_laws;
use crate::web;
use crate::web::Method;
use vstd::prelude::*;

verus! {

/// Whether a text is kept under a name among the secrets.
pub open spec fn keeps(kept: Option<Tree>, name: Seq<char>, key: Seq<char>) -> bool {
    kept matches Some(t) && t.get(name) == Some(Tree::Text(key))
}

/// Whether a payload is an order without some members, and otherwise as it came.
pub open spec fn leaves_out(q: web::OutgoingView, body: Tree, names: Seq<Seq<char>>) -> bool {
    &&& q.payload is Json
    &&& forall|k: Seq<char>|
        #![trigger q.payload->Json_0.get(k)]
        q.payload->Json_0.get(k) == if names.contains(k) {
            None
        } else {
            body.get(k)
        }
}

proof fn headers_differ()
    ensures
        "Authorization"@.len() == 13,
        "Client-Agent"@.len() == 12 && "Client-Agent"@[0] == 'C' && "Client-Agent"@[1] == 'l',
        "Content-Type"@.len() == 12 && "Content-Type"@[0] == 'C' && "Content-Type"@[1] == 'o',
        "HTTP-Referer"@.len() == 12 && "HTTP-Referer"@[0] == 'H',
        "Ocp-Apim-Subscription-Key"@.len() == 25,
        "X-Microsoft-OutputFormat"@.len() == 24,
        "X-Title"@.len() == 7,
        "anthropic-version"@.len() == 17,
        "apikey"@.len() == 6,
        "x-api-key"@.len() == 9,
{
    reveal_strlit("Authorization");
    reveal_strlit("Client-Agent");
    reveal_strlit("Content-Type");
    reveal_strlit("HTTP-Referer");
    reveal_strlit("Ocp-Apim-Subscription-Key");
    reveal_strlit("X-Microsoft-OutputFormat");
    reveal_strlit("X-Title");
    reveal_strlit("anthropic-version");
    reveal_strlit("apikey");
    reveal_strlit("x-api-key");
}

/// A picture in a data address is parted into its media type and its data; any other text is the
/// data of a PNG picture.
pub proof fn data_address_is_parted(media: Seq<char>, data: Seq<char>, plain: Seq<char>)
    requires
        !media.contains(';'),
        !text::begins(plain, "data:"@),
    ensures
        anthropic::image_parts("data:"@ + media + ";base64,"@ + data) == (media, data),
        anthropic::image_parts(plain) == ("image/png"@, plain),
{
    reveal_strlit("data:");
    reveal_strlit(";base64,");
    let s = "data:"@ + media + ";base64,"@ + data;
    assert(s.subrange(0, 5) =~= "data:"@);
    assert(s.skip(5) =~= media + ";base64,"@ + data);
    assert(";base64,"@[0] == ';');
    text_laws::parted_at_first(media, ";base64,"@, data);
}

/// A caption is asked of Anthropic with its key, or of a proxy with the password of the proxy: the
/// picture and behind it the words of the client, in one message of the user.
pub proof fn anthropic_is_shown_the_picture(
    kept: Option<Tree>,
    key: Seq<char>,
    image: Seq<char>,
    prompt: Option<Seq<char>>,
    model: Option<Seq<char>>,
    proxy: Option<Seq<char>>,
    default_model: Seq<char>,
)
    requires
        proxy is None ==> keeps(kept, "api_key_claude"@, key),
        key.len() > 0,
        image.len() > 0,
    ensures
        anthropic::captioning(kept, Some(image), prompt, model, proxy, Some(key), default_model)
            matches Ok(q) && {
            let order = q.payload->Json_0;
            let message = order.items_at("messages"@)->0[0];
            let content = message.items_at("content"@)->0;
            &&& q.method == Method::Post
            &&& q.url == text::drop_trailing(
                match proxy {
                    Some(p) => p,
                    None => "https://api.anthropic.com/v1"@,
                },
                '/',
            ) + "/messages"@
            &&& completion_laws::carries(q, "x-api-key"@, key)
            &&& completion_laws::carries(q, "anthropic-version"@, "2023-06-01"@)
            &&& q.payload is Json
            &&& order.text_at("model"@) == Some(
                match model {
                    Some(m) => m,
                    None => default_model,
                },
            )
            &&& order.get("max_tokens"@) == Some(json::num(500))
            &&& order.items_at("messages"@) is Some && order.items_at("messages"@)->0.len() == 1
            &&& message.text_at("role"@) == Some("user"@)
            &&& message.items_at("content"@) is Some && content.len() == 2
            &&& content[0].text_at("type"@) == Some("image"@)
            &&& content[0].get("source"@) matches Some(s) && s.text_at("type"@) == Some("base64"@)
                && s.text_at("media_type"@) == Some(anthropic::image_parts(image).0) && s.text_at(
                "data"@,
            ) == Some(anthropic::image_parts(image).1)
            &&& content[1].text_at("type"@) == Some("text"@)
            &&& content[1].text_at("text"@) == Some(
                match prompt {
                    Some(p) => p,
                    None => "What's in this image?"@,
                },
            )
        },
{
    headers_differ();
    reveal_strlit("content");
    reveal_strlit("data");
    reveal_strlit("max_tokens");
    reveal_strlit("media_type");
    reveal_strlit("messages");
    reveal_strlit("model");
    reveal_strlit("role");
    reveal_strlit("source");
    reveal_strlit("text");
    reveal_strlit("type");
    assert("content"@.len() == 7);
    assert("data"@.len() == 4 && "data"@[0] == 'd');
    assert("max_tokens"@.len() == 10 && "max_tokens"@[1] == 'a');
    assert("media_type"@.len() == 10 && "media_type"@[1] == 'e');
    assert("messages"@.len() == 8);
    assert("model"@.len() == 5);
    assert("role"@.len() == 4 && "role"@[0] == 'r');
    assert("source"@.len() == 6);
    assert("text"@.len() == 4 && "text"@[0] == 't' && "text"@[1] == 'e');
    assert("type"@.len() == 4 && "type"@[0] == 't' && "type"@[1] == 'y');
    reveal_with_fuel(json::position, 4);
    let q = anthropic::captioning(
        kept,
        Some(image),
        prompt,
        model,
        proxy,
        Some(key),
        default_model,
    )->Ok_0;
    assert(q.headers[0].0 == "Content-Type"@);
    assert(q.headers[1] == ("x-api-key"@, key));
    assert(q.headers[2] == ("anthropic-version"@, "2023-06-01"@));
    let order = q.payload->Json_0;
    let shown = anthropic::question(
        secrets::text_or(model, default_model),
        secrets::text_or(prompt, "What's in this image?"@),
        image,
    );
    assert(order == shown);
    let message = order.items_at("messages"@)->0[0];
    let content = message.items_at("content"@)->0;
    assert(content[0].get("source"@) is Some);
}

/// Without a key or without a picture no caption is asked for.
pub proof fn captions_need_key_and_picture(
    prompt: Option<Seq<char>>,
    model: Option<Seq<char>>,
    key: Seq<char>,
    kept: Option<Tree>,
    default_model: Seq<char>,
    image: Option<Seq<char>>,
)
    requires
        keeps(kept, "api_key_claude"@, key),
        key.len() > 0,
    ensures
        anthropic::captioning(None, image, prompt, model, None, None, default_model) matches Err(r)
            && r.status == 400,
        anthropic::captioning(kept, None, prompt, model, None, None, default_model) matches Err(r)
            && r.status == 400,
{
}

/// Speech is asked of Azure in the region that the client names, with the key for Azure's voices
/// and the text as it came; so is the list of its voices.
pub proof fn azure_speaks_in_its_region(
    kept: Option<Tree>,
    key: Seq<char>,
    region: Seq<char>,
    words: Seq<char>,
)
    requires
        keeps(kept, "api_key_azure_tts"@, key),
        key.len() > 0,
        region.len() > 0,
        words.len() > 0,
    ensures
        azure::listing(kept, Some(region)) matches Ok(q) && q.method == Method::Get && q.url
            == "https://"@ + region + ".tts.speech.microsoft.com/cognitiveservices/voices/list"@
            && completion_laws::carries(q, "Ocp-Apim-Subscription-Key"@, key),
        azure::speaking(kept, Some(words), Some(region)) matches Ok(q) && q.method == Method::Post
            && q.url == "https://"@ + region + ".tts.speech.microsoft.com/cognitiveservices/v1"@
            && completion_laws::carries(q, "Ocp-Apim-Subscription-Key"@, key)
            && completion_laws::carries(q, "Content-Type"@, "application/ssml+xml"@)
            && completion_laws::carries(
            q,
            "X-Microsoft-OutputFormat"@,
            "audio-16khz-128kbitrate-mono-mp3"@,
        ) && q.payload == web::PayloadView::Text(words),
        azure::listing(None, Some(region)) matches Err(r) && r.status == 401,
        azure::listing(kept, None) matches Err(r) && r.status == 400,
        azure::speaking(None, Some(words), Some(region)) matches Err(r) && r.status == 401,
        azure::speaking(kept, None, Some(region)) matches Err(r) && r.status == 400,
        azure::speaking(kept, Some(words), None) matches Err(r) && r.status == 400,
{
    headers_differ();
    let a = azure::listing(kept, Some(region))->Ok_0;
    assert(a.headers[0] == ("Ocp-Apim-Subscription-Key"@, key));
    let b = azure::speaking(kept, Some(words), Some(region))->Ok_0;
    assert(b.headers[0] == ("Ocp-Apim-Subscription-Key"@, key));
    assert(b.headers[1] == ("Content-Type"@, "application/ssml+xml"@));
    assert(b.headers[2] == ("X-Microsoft-OutputFormat"@, "audio-16khz-128kbitrate-mono-mp3"@));
}

proof fn kobold_carries(server: Seq<char>, path: Seq<char>, key: Seq<char>, body: Tree)
    ensures
        ({
            let q = kobold::posted(server, path, key, body);
            &&& q.method == Method::Post
            &&& q.url == text::drop_trailing(server, '/') + path
            &&& q.payload == web::PayloadView::Json(body)
            &&& key.len() > 0 ==> completion_laws::carries(q, "Authorization"@, "Bearer "@ + key)
        }),
{
    headers_differ();
    let q = kobold::posted(server, path, key, body);
    assert(q.headers[0].0 == "Content-Type"@);
    if key.len() > 0 {
        assert(q.headers[1] == ("Authorization"@, "Bearer "@ + key));
    }
}

/// A text is asked of the KoboldAI server that the order names, with the key for such servers;
/// all of the order but the name of the server is passed on. A recording and texts to embed are
/// sent to it as they came.
pub proof fn kobold_is_asked_at_its_server(
    kept: Option<Tree>,
    key: Seq<char>,
    f: Seq<(Seq<char>, Tree)>,
    server: Seq<char>,
    audio: Seq<char>,
    value: Tree,
)
    requires
        keeps(kept, "api_key_koboldcpp"@, key),
        key.len() > 0,
        server.len() > 0,
        audio.len() > 0,
        json::keys_distinct(f),
        Tree::Object(f).text_at("api_server"@) == Some(server),
    ensures
        kobold::generating(kept, Tree::Object(f)) matches Ok(q) && q.method == Method::Post && q.url
            == text::drop_trailing(server, '/') + "/api/v1/generate"@ && completion_laws::carries(
            q,
            "Authorization"@,
            "Bearer "@ + key,
        ) && leaves_out(q, Tree::Object(f), seq!["api_server"@]),
        kobold::transcribing(kept, Some(server), Some(audio)) matches Ok(q) && q.method
            == Method::Post && q.url == text::drop_trailing(server, '/')
            + "/api/extra/transcribe"@ && completion_laws::carries(
            q,
            "Authorization"@,
            "Bearer "@ + key,
        ) && q.payload is Json && q.payload->Json_0.text_at("prompt"@) == Some(audio),
        kobold::embedding(kept, Some(server), Some(value)) matches Ok(q) && q.method == Method::Post
            && q.url == text::drop_trailing(server, '/') + "/api/extra/generate/check/embeddings"@
            && completion_laws::carries(q, "Authorization"@, "Bearer "@ + key) && q.payload is Json
            && q.payload->Json_0.get("prompt"@) == Some(value),
        kobold::transcribing(kept, None, Some(audio)) matches Err(r) && r.status == 400,
        kobold::transcribing(kept, Some(server), None) matches Err(r) && r.status == 400,
        kobold::embedding(kept, Some(server), None) matches Err(r) && r.status == 400,
{
    reveal_strlit("");
    reveal_with_fuel(json::position, 2);
    kobold_carries(
        server,
        "/api/v1/generate"@,
        key,
        kobold::forwarded(Tree::Object(f)),
    );
    kobold_carries(server, "/api/extra/transcribe"@, key, kobold::prompt(json::txt(audio)));
    kobold_carries(server, "/api/extra/generate/check/embeddings"@, key, kobold::prompt(value));
    let q = kobold::generating(kept, Tree::Object(f))->Ok_0;
    let names = seq!["api_server"@];
    assert(names[0] == "api_server"@);
    json::lookup_after_removal(f, "api_server"@);
    assert forall|k: Seq<char>| #![trigger q.payload->Json_0.get(k)] q.payload->Json_0.get(k)
        == if names.contains(k) {
        None
    } else {
        Tree::Object(f).get(k)
    } by {
        if k != "api_server"@ {
            json::lookup_after_removal_elsewhere(f, "api_server"@, k);
        }
    }
}

/// A try that gives a text ends the asking with that text; the last try ends it with what was
/// said.
pub proof fn kobold_answers_are_given_back(s: u16, t: Seq<char>, j: Tree, left: u32)
    ensures
        200 <= s < 300 ==> kobold::generate_step(web::UpstreamView::Got(s, t, Some(j)), left) == Ok::<
            web::ReplyView,
            u32,
        >(web::json_reply(200, j)),
        !(200 <= s < 300) && 100 <= s < 1000 ==> kobold::generate_step(
            web::UpstreamView::Got(s, t, Some(j)),
            0,
        ) == Ok::<web::ReplyView, u32>(web::text_reply(s, t)),
        !(200 <= s < 300) && left > 0 ==> kobold::generate_step(
            web::UpstreamView::Got(s, t, Some(j)),
            left,
        ) == Err::<web::ReplyView, u32>((left - 1) as u32),
{
}

/// The kinds of servers for texts that have keys of their own.
pub open spec fn text_kinds() -> Seq<Seq<char>> {
    seq![
        "mancer"@,
        "aphrodite"@,
        "tabby"@,
        "vllm"@,
        "infermaticai"@,
        "dreamgen"@,
        "ooba"@,
        "featherless"@,
        "huggingface"@,
        "llamacpp"@,
        "koboldcpp"@,
        "openrouter"@,
    ]
}

proof fn kinds_differ()
    ensures
        "aphrodite"@.len() == 9 && "aphrodite"@[0] == 'a',
        "dreamgen"@.len() == 8 && "dreamgen"@[0] == 'd',
        "featherless"@.len() == 11 && "featherless"@[0] == 'f',
        "huggingface"@.len() == 11 && "huggingface"@[0] == 'h',
        "infermaticai"@.len() == 12,
        "koboldcpp"@.len() == 9 && "koboldcpp"@[0] == 'k',
        "llamacpp"@.len() == 8 && "llamacpp"@[0] == 'l',
        "mancer"@.len() == 6,
        "ooba"@.len() == 4 && "ooba"@[0] == 'o',
        "openrouter"@.len() == 10,
        "tabby"@.len() == 5,
        "vllm"@.len() == 4 && "vllm"@[0] == 'v',
{
    reveal_strlit("aphrodite");
    reveal_strlit("dreamgen");
    reveal_strlit("featherless");
    reveal_strlit("huggingface");
    reveal_strlit("infermaticai");
    reveal_strlit("koboldcpp");
    reveal_strlit("llamacpp");
    reveal_strlit("mancer");
    reveal_strlit("ooba");
    reveal_strlit("openrouter");
    reveal_strlit("tabby");
    reveal_strlit("vllm");
}

/// The key of a server for texts is kept under the name of its kind.
pub proof fn text_key_is_named_after_kind(i: int)
    requires
        0 <= i < text_kinds().len(),
    ensures
        tc::secret_key(text_kinds()[i]) == "api_key_"@ + text_kinds()[i],
{
    kinds_differ();
    if i == 0 {
        assert("api_key_mancer"@ =~= "api_key_"@ + "mancer"@) by {
            reveal_strlit("api_key_");
            reveal_strlit("mancer");
            reveal_strlit("api_key_mancer");
        }
    }
    if i == 1 {
        assert("api_key_aphrodite"@ =~= "api_key_"@ + "aphrodite"@) by {
            reveal_strlit("api_key_");
            reveal_strlit("aphrodite");
            reveal_strlit("api_key_aphrodite");
        }
    }
    if i == 2 {
        assert("api_key_tabby"@ =~= "api_key_"@ + "tabby"@) by {
            reveal_strlit("api_key_");
            reveal_strlit("tabby");
            reveal_strlit("api_key_tabby");
        }
    }
    if i == 3 {
        assert("api_key_vllm"@ =~= "api_key_"@ + "vllm"@) by {
            reveal_strlit("api_key_");
            reveal_strlit("vllm");
            reveal_strlit("api_key_vllm");
        }
    }
    if i == 4 {
        assert("api_key_infermaticai"@ =~= "api_key_"@ + "infermaticai"@) by {
            reveal_strlit("api_key_");
            reveal_strlit("infermaticai");
            reveal_strlit("api_key_infermaticai");
        }
    }
    if i == 5 {
        assert("api_key_dreamgen"@ =~= "api_key_"@ + "dreamgen"@) by {
            reveal_strlit("api_key_");
            reveal_strlit("dreamgen");
            reveal_strlit("api_key_dreamgen");
        }
    }
    if i == 6 {
        assert("api_key_ooba"@ =~= "api_key_"@ + "ooba"@) by {
            reveal_strlit("api_key_");
            reveal_strlit("ooba");
            reveal_strlit("api_key_ooba");
        }
    }
    if i == 7 {
        assert("api_key_featherless"@ =~= "api_key_"@ + "featherless"@) by {
            reveal_strlit("api_key_");
            reveal_strlit("featherless");
            reveal_strlit("api_key_featherless");
        }
    }
    if i == 8 {
        assert("api_key_huggingface"@ =~= "api_key_"@ + "huggingface"@) by {
            reveal_strlit("api_key_");
            reveal_strlit("huggingface");
            reveal_strlit("api_key_huggingface");
        }
    }
    if i == 9 {
        assert("api_key_llamacpp"@ =~= "api_key_"@ + "llamacpp"@) by {
            reveal_strlit("api_key_");
            reveal_strlit("llamacpp");
            reveal_strlit("api_key_llamacpp");
        }
    }
    if i == 10 {
        assert("api_key_koboldcpp"@ =~= "api_key_"@ + "koboldcpp"@) by {
            reveal_strlit("api_key_");
            reveal_strlit("koboldcpp");
            reveal_strlit("api_key_koboldcpp");
        }
    }
    if i == 11 {
        assert("api_key_openrouter"@ =~= "api_key_"@ + "openrouter"@) by {
            reveal_strlit("api_key_");
            reveal_strlit("openrouter");
            reveal_strlit("api_key_openrouter");
        }
    }
}

/// A text is asked of the server that the order names, at the address for its kind and with the
/// key for its kind; all of the order but the server and its kind is passed on. The models and
/// the properties are asked of the same server with the same key.
pub proof fn texts_are_asked_at_their_server(
    kept: Option<Tree>,
    key: Seq<char>,
    f: Seq<(Seq<char>, Tree)>,
    server: Seq<char>,
    i: int,
)
    requires
        0 <= i < text_kinds().len(),
        keeps(kept, "api_key_"@ + text_kinds()[i], key),
        key.len() > 0,
        server.len() > 0,
        json::keys_distinct(f),
        Tree::Object(f).text_at("api_server"@) == Some(server),
        Tree::Object(f).text_at("api_type"@) == Some(text_kinds()[i]),
    ensures
        ({
            let kind = text_kinds()[i];
            let base = text::drop_trailing(server, '/');
            &&& tc::completing(kept, Tree::Object(f)) matches Ok(q) && q.method == Method::Post
                && q.url == (if kind == "openrouter"@ {
                "https://openrouter.ai/api/v1/completions"@
            } else if kind == "mancer"@ {
                base + "/oai/v1/completions"@
            } else if kind == "koboldcpp"@ {
                base + "/api/v1/generate"@
            } else if kind == "llamacpp"@ {
                base + "/completion"@
            } else {
                base + "/v1/completions"@
            }) && completion_laws::carries(q, "Authorization"@, "Bearer "@ + key) && leaves_out(
                q,
                Tree::Object(f),
                seq!["api_server"@, "api_type"@],
            )
            &&& tc::model_listing(kept, Some(server), Some(kind)) matches Ok(q) && q.method
                == Method::Get && q.url == (if kind == "openrouter"@ {
                "https://openrouter.ai/api/v1/models"@
            } else if kind == "mancer"@ {
                base + "/oai/v1/models"@
            } else if kind == "tabby"@ {
                base + "/v1/model/list"@
            } else if kind == "ooba"@ {
                base + "/v1/internal/model/info"@
            } else {
                base + "/v1/models"@
            }) && completion_laws::carries(q, "Authorization"@, "Bearer "@ + key)
            &&& tc::props_listing(kept, Some(server), Some(kind)) matches Ok(q) && q.method
                == Method::Get && q.url == base + "/props"@ && completion_laws::carries(
                q,
                "Authorization"@,
                "Bearer "@ + key,
            )
        }),
{
    headers_differ();
    kinds_differ();
    text_key_is_named_after_kind(i);
    reveal_strlit("");
    reveal_strlit("api_server");
    reveal_strlit("api_type");
    assert("api_server"@.len() == 10 && "api_type"@.len() == 8);
    let kind = text_kinds()[i];
    let q = tc::completing(kept, Tree::Object(f))->Ok_0;
    assert(q.headers[0].0 == "Content-Type"@);
    assert(q.headers[1] == ("Authorization"@, "Bearer "@ + key));
    let a = tc::model_listing(kept, Some(server), Some(kind))->Ok_0;
    assert(a.headers[0] == ("Authorization"@, "Bearer "@ + key));
    let b = tc::props_listing(kept, Some(server), Some(kind))->Ok_0;
    assert(b.headers[0] == ("Authorization"@, "Bearer "@ + key));
    let names = seq!["api_server"@, "api_type"@];
    assert(names[0] == "api_server"@ && names[1] == "api_type"@);
    let g = json::without(f, "api_server"@);
    json::lookup_after_removal(f, "api_server"@);
    json::lookup_after_removal(g, "api_type"@);
    assert(q.payload == web::PayloadView::Json(Tree::Object(json::without(g, "api_type"@))));
    assert forall|k: Seq<char>| #![trigger q.payload->Json_0.get(k)] q.payload->Json_0.get(k)
        == if names.contains(k) {
        None
    } else {
        Tree::Object(f).get(k)
    } by {
        if k != "api_server"@ {
            json::lookup_after_removal_elsewhere(f, "api_server"@, k);
        }
        if k != "api_type"@ {
            json::lookup_after_removal_elsewhere(g, "api_type"@, k);
        }
    }
    assert(kind == "mancer"@ || kind != "mancer"@);
}

/// Bytes that were written in small hexadecimal digits are read back.
pub proof fn hexadecimal_is_read_back(b: Seq<u8>)
    ensures
        minimax::unhexed(hex_bytes(b), 0) == Some(b),
{
    hexadecimal_from(b, 0);
    assert(b.skip(0) =~= b);
}

/// Bytes in small hexadecimal digits.
pub open spec fn hex_bytes(b: Seq<u8>) -> Seq<u8> {
    Seq::new(
        2 * b.len(),
        |i: int|
            {
                let d = if i % 2 == 0 {
                    b[i / 2] as int / 16
                } else {
                    b[i / 2] as int % 16
                };
                if d < 10 {
                    (48 + d) as u8
                } else {
                    (87 + d) as u8
                }
            },
    )
}

proof fn hexadecimal_from(b: Seq<u8>, i: int)
    requires
        0 <= i <= b.len(),
    ensures
        minimax::unhexed(hex_bytes(b), 2 * i) == Some(b.skip(i)),
    decreases b.len() - i,
{
    if i < b.len() {
        hexadecimal_from(b, i + 1);
        let s = hex_bytes(b);
        assert((2 * i) / 2 == i && (2 * i + 1) / 2 == i);
        assert(minimax::hex_pair(s[2 * i], s[2 * i + 1]) == Some(b[i]));
        assert(seq![b[i]] + b.skip(i + 1) =~= b.skip(i));
    } else {
        assert(b.skip(i) =~= Seq::empty());
    }
}

/// Speech is asked of MiniMax for the user's group with the user's key: the text, the voice and
/// the sound that the client asks for.
pub proof fn minimax_speaks_for_its_group(
    kept: Option<Tree>,
    key: Seq<char>,
    group: Seq<char>,
    body: minimax::MinimaxGenerateVoiceRequest,
)
    requires
        keeps(kept, "api_key_minimax"@, key),
        keeps(kept, "minimax_group_id"@, group),
        key.len() > 0,
        body.text matches Some(t) && t@.len() > 0,
    ensures
        minimax::speaking(kept, body) matches Ok(q) && {
            let order = q.payload->Json_0;
            let voice = match body.voice_id {
                Some(v) => v@,
                None => "male-qn-qingse"@,
            };
            &&& q.method == Method::Post
            &&& q.url == "https://api.minimax.chat/v1/t2a_v2?GroupId="@ + group
            &&& completion_laws::carries(q, "Authorization"@, "Bearer "@ + key)
            &&& q.payload is Json
            &&& order.text_at("text"@) == Some(body.text->0@)
            &&& order.text_at("model"@) == Some(
                match body.model {
                    Some(m) => m@,
                    None => "speech-01-turbo"@,
                },
            )
            &&& order.get("voice_setting"@) matches Some(s) && s.text_at("voice_id"@) == Some(voice)
                && (body.speed matches Some(x) ==> s.get("speed"@) == Some(x@)) && (body.vol
                matches Some(x) ==> s.get("vol"@) == Some(x@)) && (body.pitch matches Some(x)
                ==> s.get("pitch"@) == Some(x@))
            &&& order.get("audio_setting"@) matches Some(s) && s.text_at("format"@) == Some(
                match body.format {
                    Some(x) => x@,
                    None => "mp3"@,
                },
            ) && s.get("sample_rate"@) == Some(
                json::num(
                    match body.audio_sample_rate {
                        Some(n) => n as u64,
                        None => 32000,
                    },
                ),
            ) && s.get("bitrate"@) == Some(
                json::num(
                    match body.bitrate {
                        Some(n) => n as u64,
                        None => 128000,
                    },
                ),
            )
            &&& order.items_at("timber_weights"@) matches Some(w) && w.len() == 1 && w[0].text_at(
                "voice_id"@,
            ) == Some(voice)
            &&& body.language_boost matches Some(l) ==> (l@.len() > 0 ==> order.text_at(
                "language_boost"@,
            ) == Some(l@))
        },
{
    headers_differ();
    reveal_strlit("audio_setting");
    reveal_strlit("bitrate");
    reveal_strlit("format");
    reveal_strlit("language_boost");
    reveal_strlit("model");
    reveal_strlit("pitch");
    reveal_strlit("sample_rate");
    reveal_strlit("speed");
    reveal_strlit("text");
    reveal_strlit("timber_weights");
    reveal_strlit("voice_id");
    reveal_strlit("voice_setting");
    reveal_strlit("vol");
    reveal_strlit("weight");
    assert("audio_setting"@.len() == 13 && "audio_setting"@[0] == 'a');
    assert("bitrate"@.len() == 7);
    assert("format"@.len() == 6 && "format"@[0] == 'f');
    assert("language_boost"@.len() == 14 && "language_boost"@[0] == 'l');
    assert("model"@.len() == 5 && "model"@[0] == 'm');
    assert("pitch"@.len() == 5 && "pitch"@[0] == 'p');
    assert("sample_rate"@.len() == 11);
    assert("speed"@.len() == 5 && "speed"@[0] == 's');
    assert("text"@.len() == 4);
    assert("timber_weights"@.len() == 14 && "timber_weights"@[0] == 't');
    assert("voice_id"@.len() == 8);
    assert("voice_setting"@.len() == 13 && "voice_setting"@[0] == 'v');
    assert("vol"@.len() == 3);
    assert("weight"@.len() == 6 && "weight"@[0] == 'w');
    reveal_with_fuel(json::position, 7);
    let q = minimax::speaking(kept, body)->Ok_0;
    assert(q.headers[0].0 == "Content-Type"@);
    assert(q.headers[1] == ("Authorization"@, "Bearer "@ + key));
    assert(q.payload->Json_0 == minimax::order(body, body.text->0@));
}

/// What MiniMax answers: an error is told, a sound in hexadecimal is given in the format that was
/// asked for, and one at an address is fetched.
pub proof fn minimax_answers_are_understood(
    answer: Tree,
    audio: Tree,
    sound: Seq<u8>,
    hex: Seq<char>,
    format: Seq<char>,
    url: Seq<char>,
)
    requires
        answer.get("base_resp"@) is None,
        answer.get("data"@) matches Some(d) && d.get("audio"@) == Some(audio),
        vstd::utf8::encode_utf8(hex) == hex_bytes(sound),
    ensures
        audio.text_at("data"@) == Some(hex) ==> (minimax::step_of(answer, format) matches Ok(r)
            && r.status == 200 && r.payload == web::PayloadView::Bytes(
            if format == "wav"@ {
                "audio/wav"@
            } else if format == "pcm"@ {
                "audio/x-pcm"@
            } else if format == "flac"@ {
                "audio/flac"@
            } else {
                "audio/mpeg"@
            },
            sound,
        )),
        audio.get("data"@) is None && audio.text_at("audio_url"@) == Some(url)
            ==> minimax::step_of(answer, format) == Err::<web::ReplyView, Seq<char>>(url),
{
    hexadecimal_is_read_back(sound);
}

/// An error that MiniMax reports is told to the client with its message.
pub proof fn minimax_errors_are_told(
    answer: Tree,
    report: Tree,
    code: i64,
    message: Seq<char>,
    format: Seq<char>,
)
    requires
        answer.get("base_resp"@) == Some(report),
        report.get("status_code"@) matches Some(t) && t.as_integer() == Some(code),
        code != 0,
        report.text_at("status_msg"@) == Some(message),
    ensures
        minimax::step_of(answer, format) matches Ok(r) && r.status == 500 && r.payload
            == web::PayloadView::Text(message),
{
}

proof fn horde_carries(path: Seq<char>, key: Seq<char>, body: Tree)
    ensures
        ({
            let q = horde::posted(path, key, body);
            &&& q.method == Method::Post
            &&& q.url == "https://aihorde.net/api/v2"@ + path
            &&& completion_laws::carries(q, "apikey"@, key)
            &&& completion_laws::carries(q, "Client-Agent"@, "SillyTavern:UNKNOWN:1"@)
            &&& q.payload == web::PayloadView::Json(body)
        }),
{
    headers_differ();
    let q = horde::posted(path, key, body);
    assert(q.headers[0].0 == "Content-Type"@);
    assert(q.headers[1] == ("apikey"@, key));
    assert(q.headers[2] == ("Client-Agent"@, "SillyTavern:UNKNOWN:1"@));
}

/// A caption is ordered from the Horde with the user's key, or with the anonymous one where the
/// user has none: the picture, and the form for a caption.
pub proof fn horde_is_shown_the_picture(kept: Option<Tree>, key: Seq<char>, image: Seq<char>)
    requires
        keeps(kept, "api_key_horde"@, key),
        image.len() > 0,
    ensures
        horde::captioning(kept, Some(image)) matches Ok(q) && q.method == Method::Post && q.url
            == "https://aihorde.net/api/v2"@ + "/interrogate/async"@ && completion_laws::carries(
            q,
            "apikey"@,
            key,
        ) && q.payload is Json && q.payload->Json_0.text_at("source_image"@) == Some(image) && (
        q.payload->Json_0.items_at("forms"@) matches Some(forms) && forms.len() == 1
            && forms[0].text_at("name"@) == Some("caption"@)),
        horde::captioning(None, Some(image)) matches Ok(q) && completion_laws::carries(
            q,
            "apikey"@,
            "0000000000"@,
        ),
        horde::captioning(kept, None) matches Err(r) && r.status == 400,
{
    reveal_strlit("forms");
    reveal_strlit("name");
    reveal_strlit("source_image");
    assert("forms"@.len() == 5);
    assert("name"@.len() == 4);
    assert("source_image"@.len() == 12);
    reveal_with_fuel(json::position, 3);
    horde_carries("/interrogate/async"@, key, horde::interrogation(image));
    horde_carries("/interrogate/async"@, "0000000000"@, horde::interrogation(image));
}

/// A task of the Horde is looked at, or ended, under its identifier.
pub proof fn horde_task_is_meant(id: Seq<char>, method: Method)
    requires
        id.len() > 0,
    ensures
        horde::about_task(method, Some(id)) matches Ok(q) && q.method == method && q.url
            == "https://aihorde.net/api/v2"@ + ("/generate/text/status/"@ + id),
        horde::about_task(method, None) matches Err(r) && r.status == 400,
{
}

/// An order to the Horde that was taken is looked at under the identifier that it was given.
pub proof fn horde_orders_are_followed(s: u16, t: Seq<char>, j: Tree, id: Seq<char>)
    requires
        200 <= s < 300,
        j.text_at("id"@) == Some(id),
    ensures
        horde::caption_poll(web::UpstreamView::Got(s, t, Some(j))) matches Ok(q) && q.method
            == Method::Get && q.url == "https://aihorde.net/api/v2"@ + ("/interrogate/status/"@
            + id),
        horde::image_poll(web::UpstreamView::Got(s, t, Some(j))) matches Ok(q) && q.method
            == Method::Get && q.url == "https://aihorde.net/api/v2"@ + ("/generate/status/"@ + id),
{
}

/// The caption that the Horde made is given to the client once it is done; a caption that was
/// given up is an error, and an image that is done is given as it came.
pub proof fn horde_results_are_given_back(
    answer: Tree,
    forms: Seq<Tree>,
    caption: Seq<char>,
    left: u32,
    late: web::ReplyView,
)
    requires
        forms.len() > 0,
        forms[0].text_at("form"@) == Some("caption"@),
        forms[0].get("result"@) matches Some(r) && r.text_at("caption"@) == Some(caption),
        answer.items_at("forms"@) == Some(forms),
    ensures
        answer.text_at("state"@) == Some("done"@) ==> (horde::polled(
            horde::caption_verdict(Some(answer)),
            left,
            late,
        ) matches Ok(r) && r.status == 200 && r.payload is Json && r.payload->Json_0.text_at(
            "caption"@,
        ) == Some(caption)),
        answer.text_at("state"@) == Some("faulted"@) || answer.text_at("state"@) == Some(
            "cancelled"@,
        ) ==> (horde::polled(horde::caption_verdict(Some(answer)), left, late) matches Ok(r)
            && r.status == 500),
        answer.flag_at("done"@) == Some(true) && answer.flag_at("faulted"@) != Some(true)
            ==> horde::polled(horde::image_verdict(Some(answer)), left, late) == Ok::<
            web::ReplyView,
            u32,
        >(web::json_reply(200, answer)),
        answer.flag_at("faulted"@) == Some(true) ==> (horde::polled(
            horde::image_verdict(Some(answer)),
            left,
            late,
        ) matches Ok(r) && r.status == 500),
{
    reveal_strlit("cancelled");
    reveal_strlit("caption");
    reveal_strlit("done");
    reveal_strlit("faulted");
    assert("cancelled"@.len() == 9);
    assert("caption"@.len() == 7 && "caption"@[0] == 'c');
    assert("done"@.len() == 4);
    assert("faulted"@.len() == 7 && "faulted"@[0] == 'f');
    reveal_with_fuel(json::position, 2);
}

/// The prompt for an image goes to the Horde without the words that it refuses; the rest of the
/// order stays as it is.
pub proof fn horde_prompt_is_cleaned(f: Seq<(Seq<char>, Tree)>, prompt: Seq<char>, k: Seq<char>)
    requires
        Tree::Object(f).text_at("prompt"@) is Some,
    ensures
        horde::image_order(Tree::Object(f), prompt).get(k) == if k == "prompt"@ {
            Some(Tree::Text(prompt))
        } else {
            Tree::Object(f).get(k)
        },
{
    json::put_reads(f, "prompt"@, json::txt(prompt), k);
}

/// A request to one of Google's models goes to Google with the key in the address, or to the proxy
/// without it; the key is the one for Google, or the password of the proxy.
pub proof fn google_is_asked_with_its_key(
    kept: Option<Tree>,
    key: Seq<char>,
    proxy: Seq<char>,
    password: Seq<char>,
    model: Seq<char>,
    action: Seq<char>,
)
    requires
        keeps(kept, "api_key_makersuite"@, key),
        key.len() > 0,
        password.len() > 0,
    ensures
        google::key_for(kept, None, None) == Some(key),
        google::key_for(kept, Some(proxy), Some(password)) == Some(password),
        google::key_for(kept, Some(proxy), None) is None,
        google::model_address(None, model, action, key)
            == "https://generativelanguage.googleapis.com"@ + "/v1beta/models/"@ + model + ":"@
            + action + "?key="@ + key,
        google::model_address(Some(proxy), model, action, key) == text::drop_trailing(proxy, '/')
            + "/v1beta/models/"@ + model + ":"@ + action,
{
}

/// The question for a caption holds the words and behind them the picture.
pub proof fn google_is_shown_the_picture(prompt: Seq<char>, image: Seq<char>)
    ensures
        ({
            let q = google::question(prompt, image);
            let parts = q.items_at("contents"@)->0[0].items_at("parts"@)->0;
            &&& q.items_at("contents"@) is Some && q.items_at("contents"@)->0.len() == 1
            &&& q.items_at("contents"@)->0[0].items_at("parts"@) is Some && parts.len() == 2
            &&& parts[0].text_at("text"@) == Some(prompt)
            &&& parts[1].get("inlineData"@) matches Some(d) && d.text_at("mimeType"@) == Some(
                anthropic::image_parts(image).0,
            ) && d.text_at("data"@) == Some(anthropic::image_parts(image).1)
        }),
{
    reveal_strlit("contents");
    reveal_strlit("data");
    reveal_strlit("inlineData");
    reveal_strlit("mimeType");
    reveal_strlit("parts");
    reveal_strlit("text");
    assert("contents"@.len() == 8 && "contents"@[0] == 'c');
    assert("data"@.len() == 4 && "data"@[0] == 'd');
    assert("inlineData"@.len() == 10);
    assert("mimeType"@.len() == 8 && "mimeType"@[0] == 'm');
    assert("parts"@.len() == 5);
    assert("text"@.len() == 4 && "text"@[0] == 't');
    reveal_with_fuel(json::position, 3);
}

/// The order for speech names the words and the voice.
pub proof fn google_speaks_the_words(words: Seq<char>, voice: Seq<char>)
    ensures
        ({
            let q = google::speech(words, voice);
            let parts = q.items_at("contents"@)->0[0].items_at("parts"@)->0;
            let config = q.get("generationConfig"@)->0;
            &&& q.items_at("contents"@) is Some && q.items_at("contents"@)->0.len() == 1
            &&& q.items_at("contents"@)->0[0].items_at("parts"@) is Some && parts.len() == 1
            &&& parts[0].text_at("text"@) == Some(words)
            &&& q.get("generationConfig"@) is Some
            &&& config.items_at("response_modalities"@) == Some(seq![Tree::Text("AUDIO"@)])
            &&& config.get("speechConfig"@) matches Some(a)
                && (a.get("voiceConfig"@) matches Some(b)
                && (b.get("prebuiltVoiceConfig"@) matches Some(c) && c.text_at("voiceName"@)
                == Some(voice)))
        }),
{
    reveal_strlit("contents");
    reveal_strlit("generationConfig");
    reveal_strlit("parts");
    reveal_strlit("prebuiltVoiceConfig");
    reveal_strlit("response_modalities");
    reveal_strlit("speechConfig");
    reveal_strlit("text");
    reveal_strlit("voiceConfig");
    reveal_strlit("voiceName");
    assert("contents"@.len() == 8);
    assert("generationConfig"@.len() == 16);
    assert("parts"@.len() == 5);
    assert("prebuiltVoiceConfig"@.len() == 19 && "prebuiltVoiceConfig"@[0] == 'p');
    assert("response_modalities"@.len() == 19 && "response_modalities"@[0] == 'r');
    assert("speechConfig"@.len() == 12);
    assert("text"@.len() == 4);
    assert("voiceConfig"@.len() == 11);
    assert("voiceName"@.len() == 9);
    reveal_with_fuel(json::position, 3);
    assert(json::items().push(json::txt("AUDIO"@)) =~= seq![Tree::Text("AUDIO"@)]);
}

/// The order for images holds the prompt, how many images there are to be and their shape, and
/// what is not to be seen on them.
pub proof fn google_draws_the_prompt(
    prompt: Seq<char>,
    count: u32,
    ratio: Seq<char>,
    negative: Seq<char>,
)
    requires
        negative.len() > 0,
    ensures
        ({
            let q = google::image_order(prompt, count, ratio, Some(negative));
            let p = q.get("parameters"@)->0;
            &&& q.items_at("instances"@) matches Some(v) && v.len() == 1 && v[0].text_at("prompt"@)
                == Some(prompt)
            &&& q.get("parameters"@) is Some
            &&& p.get("sampleCount"@) == Some(json::num(count as u64))
            &&& p.text_at("aspectRatio"@) == Some(ratio)
            &&& p.text_at("negativePrompt"@) == Some(negative)
            &&& p.get("outputOptions"@) matches Some(o) && o.text_at("mimeType"@) == Some(
                "image/png"@,
            )
        }),
{
    reveal_strlit("aspectRatio");
    reveal_strlit("instances");
    reveal_strlit("mimeType");
    reveal_strlit("negativePrompt");
    reveal_strlit("outputOptions");
    reveal_strlit("parameters");
    reveal_strlit("prompt");
    reveal_strlit("sampleCount");
    assert("aspectRatio"@.len() == 11 && "aspectRatio"@[0] == 'a');
    assert("instances"@.len() == 9);
    assert("mimeType"@.len() == 8);
    assert("negativePrompt"@.len() == 14);
    assert("outputOptions"@.len() == 13);
    assert("parameters"@.len() == 10);
    assert("prompt"@.len() == 6);
    assert("sampleCount"@.len() == 11 && "sampleCount"@[0] == 's');
    reveal_with_fuel(json::position, 5);
}

/// The order for a video holds the prompt, the picture to begin with and the shape.
pub proof fn google_films_the_prompt(prompt: Seq<char>, image: Seq<char>, ratio: Seq<char>)
    requires
        image.len() > 0,
    ensures
        ({
            let q = google::video_order(prompt, Some(image), ratio);
            let first = q.items_at("instances"@)->0[0];
            &&& q.items_at("instances"@) is Some && q.items_at("instances"@)->0.len() == 1
            &&& first.text_at("prompt"@) == Some(prompt)
            &&& first.get("image"@) matches Some(i) && i.text_at("bytesBase64Encoded"@) == Some(
                image,
            )
            &&& q.get("parameters"@) matches Some(p) && p.text_at("aspectRatio"@) == Some(ratio)
        }),
{
    reveal_strlit("aspectRatio");
    reveal_strlit("bytesBase64Encoded");
    reveal_strlit("image");
    reveal_strlit("instances");
    reveal_strlit("parameters");
    reveal_strlit("prompt");
    assert("aspectRatio"@.len() == 11);
    assert("bytesBase64Encoded"@.len() == 18);
    assert("image"@.len() == 5);
    assert("instances"@.len() == 9);
    assert("parameters"@.len() == 10);
    assert("prompt"@.len() == 6);
    reveal_with_fuel(json::position, 3);
}

/// The sound in an answer is the one of the first part of the first candidate, and it is given to
/// the client behind a header.
pub proof fn google_sound_is_found(
    answer: Tree,
    candidates: Seq<Tree>,
    parts: Seq<Tree>,
    a: Seq<char>,
)
    requires
        answer.items_at("candidates"@) == Some(candidates),
        candidates.len() > 0,
        candidates[0].get("content"@) matches Some(c) && c.items_at("parts"@) == Some(parts),
        parts.len() > 0,
        parts[0].get("inlineData"@) matches Some(d) && d.text_at("data"@) == Some(a),
    ensures
        google::audio_in(answer) == Some(a),
{
}

/// A video that is done or failed is given to the client as it came; otherwise it is looked at
/// again as long as looks are left.
pub proof fn google_video_is_followed(answer: Tree, left: u32, late: web::ReplyView)
    ensures
        answer.flag_at("done"@) == Some(true) || answer.get("error"@) is Some ==> horde::polled(
            google::video_verdict(Some(answer)),
            left,
            late,
        ) == Ok::<web::ReplyView, u32>(web::json_reply(200, answer)),
        answer.get("done"@) is None && answer.get("error"@) is None && left > 0 ==> horde::polled(
            google::video_verdict(Some(answer)),
            left,
            late,
        ) == Err::<web::ReplyView, u32>((left - 1) as u32),
{
}

} // verus!
