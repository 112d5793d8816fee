//! What holds of requests to Google, to the Horde and to KoboldAI as a whole, and of what the
//! client is told of this server.

use crate::backends_kobold as kobold;
use crate::completion_laws;
use crate::global;
use crate::google;
use crate::horde;
use crate::js;
use crate::json;
use crate::json::Tree;
use crate::outside;
use crate::service_laws;
use crate::text;
use crate::web;
use crate::web::Method;
use vstd::prelude::*;

verus! {

/// A caption is asked of Google's model with the key for it: the client's words and picture.
pub proof fn caption_is_asked_of_google(
    kept: Option<Tree>,
    key: Seq<char>,
    model: Seq<char>,
    image: Seq<char>,
    body: google::CaptionImageRequest,
)
    requires
        service_laws::keeps(kept, "api_key_makersuite"@, key),
        key.len() > 0,
        body.reverse_proxy is None,
        json::string_opt(body.image) == Some(image),
        image.len() > 0,
        json::string_opt(body.model) == Some(model) || body.model is None
            && model == "gemini-1.5-flash-latest"@,
    ensures
        google::captioning(kept, body) matches Ok(q) && q.method == Method::Post && q.url
            == "https://generativelanguage.googleapis.com"@ + "/v1beta/models/"@ + model + ":"@
            + "generateContent"@ + "?key="@ + key
                && q.payload == web::PayloadView::Json(google::question(
            match body.prompt {
                Some(x) => x@,
                None => "What's in this image?"@,
            },
            image,
        )),
        google::captioning(None, body) matches Err(r) && r.status == 400,
{
}

/// Speech is asked of Google's model with the key for it: the client's words in the client's voice.
pub proof fn speech_is_asked_of_google(
    kept: Option<Tree>,
    key: Seq<char>,
    model: Seq<char>,
    words: Seq<char>,
    body: google::GenerateNativeTtsRequest,
)
    requires
        service_laws::keeps(kept, "api_key_makersuite"@, key),
        key.len() > 0,
        body.reverse_proxy is None,
        json::string_opt(body.text) == Some(words),
        words.len() > 0,
        json::string_opt(body.model) == Some(model) || body.model is None
            && model == "gemini-2.0-flash"@,
    ensures
        google::speaking(kept, body) matches Ok(q) && q.method == Method::Post && q.url
            == "https://generativelanguage.googleapis.com"@ + "/v1beta/models/"@ + model + ":"@
            + "generateContent"@ + "?key="@ + key
                && q.payload == web::PayloadView::Json(google::speech(
            words,
            match body.voice_name {
                Some(x) => x@,
                None => "Kore"@,
            },
        )),
        google::speaking(None, body) matches Err(r) && r.status == 400,
{
}

/// Images are asked of Google's model with the key for it: as many and of such a shape as the
/// client says.
pub proof fn images_are_asked_of_google(
    kept: Option<Tree>,
    key: Seq<char>,
    model: Seq<char>,
    prompt: Seq<char>,
    body: google::GenerateImageRequest,
)
    requires
        service_laws::keeps(kept, "api_key_makersuite"@, key),
        key.len() > 0,
        body.reverse_proxy is None,
        json::string_opt(body.prompt) == Some(prompt),
        prompt.len() > 0,
        json::string_opt(body.model) == Some(model) || body.model is None
            && model == "imagen-3.0-generate-001"@,
    ensures
        google::drawing(kept, body) matches Ok(q) && q.method == Method::Post && q.url
            == "https://generativelanguage.googleapis.com"@ + "/v1beta/models/"@ + model + ":"@
            + "predict"@ + "?key="@ + key
                && q.payload == web::PayloadView::Json(google::image_order(
            prompt,
            match body.count {
                Some(n) => n,
                None => 1,
            },
            match body.aspect_ratio {
                Some(x) => x@,
                None => "1:1"@,
            },
            json::string_opt(body.negative_prompt),
        )),
        google::drawing(None, body) matches Err(r) && r.status == 400,
{
}

/// A video is asked of Google's model with the key for it: of the client's picture and shape.
pub proof fn video_is_asked_of_google(
    kept: Option<Tree>,
    key: Seq<char>,
    model: Seq<char>,
    prompt: Seq<char>,
    body: google::GenerateVideoRequest,
)
    requires
        service_laws::keeps(kept, "api_key_makersuite"@, key),
        key.len() > 0,
        body.reverse_proxy is None,
        json::string_opt(body.prompt) == Some(prompt),
        prompt.len() > 0,
        json::string_opt(body.model) == Some(model) || body.model is None
            && model == "veo-2.0-generate-001"@,
    ensures
        google::filming(kept, body) matches Ok(q) && q.method == Method::Post && q.url
            == "https://generativelanguage.googleapis.com"@ + "/v1beta/models/"@ + model + ":"@
            + "predictLongRunning"@ + "?key="@ + key
                && q.payload == web::PayloadView::Json(google::video_order(
            prompt,
            json::string_opt(body.image),
            match body.aspect_ratio {
                Some(x) => x@,
                None => "16:9"@,
            },
        )),
        google::filming(None, body) matches Err(r) && r.status == 400,
{
}

/// A proxy is asked in Google's place where the client names one, and only with a password.
pub proof fn proxy_is_asked_in_place_of_google(
    kept: Option<Tree>,
    proxy: Seq<char>,
    password: Seq<char>,
    image: Seq<char>,
    model: Seq<char>,
    body: google::CaptionImageRequest,
)
    requires
        json::string_opt(body.reverse_proxy) == Some(proxy),
        json::string_opt(body.image) == Some(image),
        image.len() > 0,
        json::string_opt(body.model) == Some(model),
    ensures
        json::string_opt(body.proxy_password) == Some(password) && password.len() > 0 ==> (
        google::captioning(kept, body) matches Ok(q) && q.url == text::drop_trailing(proxy, '/')
            + "/v1beta/models/"@ + model + ":"@ + "generateContent"@),
        body.proxy_password is None ==> google::captioning(kept, body) is Err,
{
}

/// A video that was ordered is looked at under the name that Google gave it, with the key.
pub proof fn video_is_looked_at_by_name(
    kept: Option<Tree>,
    key: Seq<char>,
    body: google::GenerateVideoRequest,
    s: u16,
    t: Seq<char>,
    j: Tree,
    name: Seq<char>,
)
    requires
        service_laws::keeps(kept, "api_key_makersuite"@, key),
        key.len() > 0,
        body.reverse_proxy is None,
        200 <= s < 300,
        j.text_at("name"@) == Some(name),
    ensures
        google::film_watch(kept, body, web::UpstreamView::Got(s, t, Some(j))) matches Ok(q)
            && q.method == Method::Get && q.url == "https://generativelanguage.googleapis.com"@
            + "/v1beta/"@ + name + "?key="@ + key,
{
}

/// A text is spoken by the translator in the language that the client names.
pub proof fn translator_speaks(
    body: google::GenerateVoiceRequest,
    words: Seq<char>,
    lang: Seq<char>,
)
    requires
        json::string_opt(body.text) == Some(words),
        words.len() > 0,
        json::string_opt(body.lang) == Some(lang) || body.lang is None && lang == "en"@,
    ensures
        google::voicing(body) matches Ok(q) && q.method == Method::Get && q.url
            == "https://translate.google.com/translate_tts?ie=UTF-8&q="@ + outside::percent_encoded(
            vstd::utf8::encode_utf8(words),
        ) + "&tl="@ + lang + "&client=tw-ob"@,
{
}

/// A sound is given to the client behind its header: one channel of sixteen bits at the rate that
/// was asked for.
pub proof fn sound_follows_its_header(pcm: Seq<u8>, rate: u32)
    ensures
        google::sounded(Some(pcm), rate).status == 200,
        google::sounded(Some(pcm), rate).payload == web::PayloadView::Bytes(
            "audio/wav"@,
            google::wav_header(pcm.len() as usize, rate, 1, 16) + pcm,
        ),
        google::sounded(None, rate).status == 500,
{
}

proof fn horde_headers_differ()
    ensures
        "Client-Agent"@.len() == 12 && "Client-Agent"@[1] == 'l',
        "Content-Type"@.len() == 12 && "Content-Type"@[1] == 'o',
        "apikey"@.len() == 6,
{
    reveal_strlit("Client-Agent");
    reveal_strlit("Content-Type");
    reveal_strlit("apikey");
}

/// The Horde is asked about the user with the key that the client gives, or else with the one that
/// is kept.
pub proof fn user_is_asked_with_key(
    kept: Option<Tree>,
    key: Seq<char>,
    given: Seq<char>,
    body: horde::UserInfoRequest,
)
    requires
        service_laws::keeps(kept, "api_key_horde"@, key),
    ensures
        horde::user_asking(kept, body).method == Method::Get,
        horde::user_asking(kept, body).url == "https://aihorde.net/api/v2"@ + "/find_user"@,
        json::string_opt(body.api_key_horde) == Some(given) ==> completion_laws::carries(
            horde::user_asking(kept, body),
            "apikey"@,
            given,
        ),
        body.api_key_horde is None ==> completion_laws::carries(
            horde::user_asking(kept, body),
            "apikey"@,
            key,
        ),
{
    horde_headers_differ();
    let q = horde::user_asking(kept, body);
    assert(q.headers[0].0 == "apikey"@);
    assert(q.headers[1].0 == "Client-Agent"@);
}

/// A text is ordered from the Horde as the client asks for it, and an image with its prompt
/// cleaned, both with the user's key.
pub proof fn orders_go_to_the_horde(
    kept: Option<Tree>,
    key: Seq<char>,
    f: Seq<(Seq<char>, Tree)>,
    k: Seq<char>,
    prompt: Seq<char>,
)
    requires
        service_laws::keeps(kept, "api_key_horde"@, key),
        Tree::Object(f).text_at("prompt"@) == Some(prompt),
    ensures
        ({
            let q = horde::text_asking(kept, Tree::Object(f));
            &&& q.method == Method::Post
            &&& q.url == "https://aihorde.net/api/v2"@ + "/generate/text/async"@
            &&& completion_laws::carries(q, "apikey"@, key)
            &&& q.payload == web::PayloadView::Json(Tree::Object(f))
        }),
        ({
            let q = horde::image_asking(kept, Tree::Object(f));
            &&& q.method == Method::Post
            &&& q.url == "https://aihorde.net/api/v2"@ + "/generate/async"@
            &&& completion_laws::carries(q, "apikey"@, key)
            &&& q.payload is Json
            &&& q.payload->Json_0.text_at("prompt"@) == Some(horde::clean_prompt(prompt))
            &&& k != "prompt"@ ==> q.payload->Json_0.get(k) == Tree::Object(f).get(k)
        }),
{
    horde_headers_differ();
    let a = horde::text_asking(kept, Tree::Object(f));
    let b = horde::image_asking(kept, Tree::Object(f));
    assert(a.headers[0].0 == "Content-Type"@ && a.headers[1] == ("apikey"@, key) && a.headers[2].0
        == "Client-Agent"@);
    assert(b.headers[0].0 == "Content-Type"@ && b.headers[1] == ("apikey"@, key) && b.headers[2].0
        == "Client-Agent"@);
    service_laws::horde_prompt_is_cleaned(f, horde::clean_prompt(prompt), "prompt"@);
    service_laws::horde_prompt_is_cleaned(f, horde::clean_prompt(prompt), k);
}

/// The heartbeat of the Horde is told as it was given.
pub proof fn heartbeat_is_told(s: u16, t: Seq<char>, j: Option<Tree>)
    requires
        100 <= s < 1000,
    ensures
        horde::heartbeat_reply(web::UpstreamView::Got(s, t, j)) == web::text_reply(s, t),
{
}

/// A KoboldAI server is asked for its model, its version and its longest context, with the key for
/// such servers.
pub proof fn kobold_is_asked_for_its_state(kept: Option<Tree>, key: Seq<char>, server: Seq<char>)
    requires
        service_laws::keeps(kept, "api_key_koboldcpp"@, key),
        key.len() > 0,
        server.len() > 0,
    ensures
        kobold::status_asking(kept, Some(server)) matches Ok(c) && {
            let base = text::drop_trailing(server, '/');
            &&& c.0.method == Method::Get && c.0.url == base + "/api/v1/model"@
            &&& c.1.method == Method::Get && c.1.url == base + "/api/extra/version"@
            &&& c.2.method == Method::Get && c.2.url == base
                + "/api/extra/true_max_context_length"@
            &&& completion_laws::carries(c.0, "Authorization"@, "Bearer "@ + key)
            &&& completion_laws::carries(c.1, "Authorization"@, "Bearer "@ + key)
            &&& completion_laws::carries(c.2, "Authorization"@, "Bearer "@ + key)
        },
        kobold::status_asking(kept, None) matches Err(e) && e.status == 400,
{
    let c = kobold::status_asking(kept, Some(server))->Ok_0;
    assert(c.0.headers[0] == ("Authorization"@, "Bearer "@ + key));
    assert(c.1.headers[0] == ("Authorization"@, "Bearer "@ + key));
    assert(c.2.headers[0] == ("Authorization"@, "Bearer "@ + key));
}

/// Whether an answer came and is a good one with the given content.
pub open spec fn answers(u: web::UpstreamView, j: Tree) -> bool {
    u matches web::UpstreamView::Got(s, _, Some(t)) && 200 <= s < 300 && t == j
}

/// Whether an answer did not come or is none.
pub open spec fn fails(u: web::UpstreamView) -> bool {
    u is Failed || (u matches web::UpstreamView::Got(s, _, _) && s >= 400)
}

/// Each answer of a KoboldAI server is told under its own name, and what it did not answer is not
/// told.
pub proof fn kobold_state_is_told(
    model: web::UpstreamView,
    extra: web::UpstreamView,
    united: web::UpstreamView,
    j: Tree,
)
    ensures
        ({
            let r = kobold::status_told(model, extra, united);
            &&& r.status == 200 && r.payload is Json
            &&& answers(model, j) ==> r.payload->Json_0.get("model"@) == Some(j)
            &&& answers(extra, j) ==> r.payload->Json_0.get("extra"@) == Some(j)
            &&& answers(united, j) ==> r.payload->Json_0.get("united"@) == Some(j)
            &&& fails(model) ==> r.payload->Json_0.get("model"@) is None
            &&& fails(extra) ==> r.payload->Json_0.get("extra"@) is None
            &&& fails(united) ==> r.payload->Json_0.get("united"@) is None
        }),
{
    reveal_strlit("extra");
    reveal_strlit("model");
    reveal_strlit("united");
    assert("extra"@.len() == 5 && "extra"@[0] == 'e');
    assert("model"@.len() == 5 && "model"@[0] == 'm');
    assert("united"@.len() == 6);
    reveal_with_fuel(json::position, 4);
}

/// The client is told the version of this server, each part under its own name.
pub proof fn version_is_told(info: global::VersionInfo)
    ensures
        ({
            let t = global::version_tree(info);
            &&& t.text_at("agent"@) == Some(info.agent@)
            &&& t.text_at("pkgVersion"@) == Some(info.pkg_version@)
            &&& t.text_at("gitRevision"@) == json::string_opt(info.git_revision)
            &&& t.text_at("gitBranch"@) == json::string_opt(info.git_branch)
            &&& t.text_at("commitDate"@) == json::string_opt(info.commit_date)
            &&& t.flag_at("isLatest"@) == Some(info.is_latest)
        }),
{
    reveal_strlit("agent");
    reveal_strlit("commitDate");
    reveal_strlit("gitBranch");
    reveal_strlit("gitRevision");
    reveal_strlit("isLatest");
    reveal_strlit("pkgVersion");
    assert("agent"@.len() == 5);
    assert("commitDate"@.len() == 10 && "commitDate"@[0] == 'c');
    assert("gitBranch"@.len() == 9);
    assert("gitRevision"@.len() == 11);
    assert("isLatest"@.len() == 8);
    assert("pkgVersion"@.len() == 10 && "pkgVersion"@[0] == 'p');
    reveal_with_fuel(json::position, 7);
}

/// The version is the one that is set, or the one of the package; so are the revision and the
/// branch the ones that are set, or those of the repository.
pub proof fn set_version_comes_first(s: global::VersionSources, v: Seq<char>)
    ensures
        json::string_opt(s.version_override) == Some(v) ==> global::version_text(s) == v,
        s.version_override is None && json::string_opt(s.package_version) == Some(v)
            ==> global::version_text(s) == v,
        s.version_override is None && s.package_version is None ==> global::version_text(s)
            == "UNKNOWN"@,
        json::string_opt(s.revision_override) == Some(v) ==> global::revision_of(s) == Some(v),
        s.revision_override is None ==> global::revision_of(s) == json::string_opt(s.revision),
{
}

/// What a value is as a text: a text is itself, a list is its items between commas with nothing
/// for what is null, and a number is written in digits.
pub proof fn value_is_shown(a: Seq<Tree>, t: Tree, s: Seq<char>, n: u64)
    ensures
        js::js_text(Tree::Text(s)) == s,
        js::js_text(Tree::Bool(true)) == "true"@,
        js::js_text(Tree::Bool(false)) == "false"@,
        js::js_text(Tree::Null) == "null"@,
        js::js_text(json::num(n)) == text::decimal(n as nat),
        js::js_text(Tree::Array(Seq::empty())) == Seq::<char>::empty(),
        js::js_text(Tree::Array(seq![Tree::Text(s)])) == s,
        a.len() > 0 ==> js::js_text(Tree::Array(a.push(Tree::Text(s)))) == js::js_text(
            Tree::Array(a),
        ) + ","@ + s,
        a.len() > 0 ==> js::js_text(Tree::Array(a.push(Tree::Null))) == js::js_text(Tree::Array(a))
            + ","@,
{
    reveal_with_fuel(js::js_text, 3);
    reveal_with_fuel(js::item_texts, 3);
    let one = seq![Tree::Text(s)];
    assert(one.drop_last() =~= Seq::<Tree>::empty());
    assert(one.last() == Tree::Text(s));
    assert(js::item_texts(one) =~= seq![s]);
    let b = a.push(Tree::Text(s));
    assert(b.drop_last() =~= a);
    let c = a.push(Tree::Null);
    assert(c.drop_last() =~= a);
    texts_are_as_many(a);
    let v = js::item_texts(a);
    assert(v.push(s).drop_last() =~= v);
    assert(v.push(Seq::empty()).drop_last() =~= v);
    assert(js::js_text(Tree::Array(a)) + ","@ + Seq::<char>::empty() =~= js::js_text(
        Tree::Array(a),
    ) + ","@);
}

proof fn texts_are_as_many(a: Seq<Tree>)
    ensures
        js::item_texts(a).len() == a.len(),
    decreases a.len(),
{
    if a.len() > 0 {
        texts_are_as_many(a.drop_last());
    }
}

/// Which values count as true: all but nothing, false, zero and the empty text.
pub proof fn empty_values_are_false(
    s: Seq<char>,
    n: u64,
    a: Seq<Tree>,
    f: Seq<(Seq<char>, Tree)>,
    d: Tree,
)
    ensures
        !js::truthy(Tree::Null) && !js::truthy(Tree::Bool(false)) && js::truthy(Tree::Bool(true)),
        js::truthy(Tree::Text(s)) <==> s.len() > 0,
        js::truthy(json::num(n)) <==> n != 0,
        js::truthy(Tree::Array(a)) && js::truthy(Tree::Object(f)),
        js::or_default(Some(Tree::Text(s)), d) == if s.len() > 0 {
            Tree::Text(s)
        } else {
            d
        },
        js::or_default(None, d) == d,
        js::coalesced(Some(Tree::Bool(false)), d) == Tree::Bool(false),
        js::coalesced(Some(Tree::Null), d) == d,
        js::coalesced(None, d) == d,
{
}

} // verus!
