//! Speech, images, videos and captions by Google.

use crate::anthropic;
use crate::horde;
use crate::horde::PollStep;
use crate::json;
use crate::json::{Fields, Json};
use crate::outside;
use crate::secrets;
use crate::text;
use crate::web;
use crate::web::{Method, Outgoing, Reply, Upstream};
use vstd::prelude::*;

verus! {

/// The name of the secret.
pub const SECRET_MAKERSUITE: &'static str = "api_key_makersuite";

/// Where the service is.
pub const GOOGLE_API: &'static str = "https://generativelanguage.googleapis.com";

/// How often the service is asked whether a video is ready.
pub const VIDEO_POLLS: u32 = 120;

/// Asks for a caption for an image.
#[derive(Debug)]
pub struct CaptionImageRequest {
    pub image: Option<String>,
    pub prompt: Option<String>,
    pub model: Option<String>,
    pub reverse_proxy: Option<String>,
    pub proxy_password: Option<String>,
}

/// Asks for a text to be spoken in a language.
#[derive(Debug)]
pub struct GenerateVoiceRequest {
    pub text: Option<String>,
    pub lang: Option<String>,
}

/// Asks for a text to be spoken by a model.
#[derive(Debug)]
pub struct GenerateNativeTtsRequest {
    pub text: Option<String>,
    pub model: Option<String>,
    pub voice_name: Option<String>,
    pub sample_rate: Option<u32>,
    pub reverse_proxy: Option<String>,
    pub proxy_password: Option<String>,
}

/// Asks for images.
#[derive(Debug)]
pub struct GenerateImageRequest {
    pub prompt: Option<String>,
    pub negative_prompt: Option<String>,
    pub model: Option<String>,
    pub width: Option<u32>,
    pub height: Option<u32>,
    pub count: Option<u32>,
    pub aspect_ratio: Option<String>,
    pub reverse_proxy: Option<String>,
    pub proxy_password: Option<String>,
}

/// Asks for a video.
#[derive(Debug)]
pub struct GenerateVideoRequest {
    pub prompt: Option<String>,
    pub model: Option<String>,
    pub image: Option<String>,
    pub aspect_ratio: Option<String>,
    pub reverse_proxy: Option<String>,
    pub proxy_password: Option<String>,
}

/// The key for a request: the proxy's password where there is a proxy, and the user's own
/// key otherwise; nothing where it is empty.
pub open spec fn key_for(
    secrets: Option<json::Tree>,
    proxy: Option<Seq<char>>,
    password: Option<Seq<char>>,
) -> Option<Seq<char>> {
    secrets::filled(
        if proxy is Some {
            password
        } else {
            secrets::secret(secrets, SECRET_MAKERSUITE@)
        },
    )
}

/// The key for a request.
fn find_key(secrets: Option<&Json>, proxy: &Option<String>, password: &Option<String>) -> (r:
    Option<String>)
    ensures
        json::string_opt(r) == key_for(
            json::tree_opt(secrets),
            json::string_opt(*proxy),
            json::string_opt(*password),
        ),
{
    let secret = if proxy.is_some() {
        password.clone()
    } else {
        secrets::read_secret(secrets, SECRET_MAKERSUITE)
    };
    match secrets::non_empty(&secret) {
        Some(k) => Some(k.to_owned()),
        None => None,
    }
}

/// The address at which a model does something. Only the service itself is told the key in
/// its address.
pub open spec fn model_address(
    proxy: Option<Seq<char>>,
    model: Seq<char>,
    action: Seq<char>,
    key: Seq<char>,
) -> Seq<char> {
    match proxy {
        Some(p) => text::drop_trailing(p, '/') + "/v1beta/models/"@ + model + ":"@ + action,
        None => GOOGLE_API@ + "/v1beta/models/"@ + model + ":"@ + action + "?key="@ + key,
    }
}

/// The address at which a model does something.
fn model_url(proxy: &Option<String>, model: &str, action: &str, key: &str) -> (r: String)
    ensures
        r@ == model_address(json::string_opt(*proxy), model@, action@, key@),
{
    let base = match proxy {
        Some(p) => text::trim_end_char(p, '/'),
        None => GOOGLE_API.to_owned(),
    };
    let place = text::join3(&text::join3(&base, "/v1beta/models/", model), ":", action);
    if proxy.is_some() {
        place
    } else {
        text::join3(&place, "?key=", key)
    }
}

/// A request that sends a JSON value.
pub open spec fn posted(url: Seq<char>, body: json::Tree) -> web::OutgoingView {
    web::bare(Method::Post, url).with_header("Content-Type"@, "application/json"@).with_json(body)
}

/// A request that sends a JSON value.
fn post(url: String, body: Json) -> (r: Outgoing)
    ensures
        r@ == posted(url@, body@),
{
    Outgoing::new(Method::Post, url).header("Content-Type", "application/json").json(body)
}

/// `[part]`.
pub open spec fn one(part: json::Tree) -> json::Tree {
    json::Tree::Array(json::items().push(part))
}

/// The question about an image.
pub open spec fn question(prompt: Seq<char>, image: Seq<char>) -> json::Tree {
    let parts = anthropic::image_parts(image);
    let data = json::members()
        .push(("mimeType"@, json::txt(parts.0)))
        .push(("data"@, json::txt(parts.1)));
    let words = json::Tree::Object(json::members().push(("text"@, json::txt(prompt))));
    let picture = json::Tree::Object(
        json::members().push(("inlineData"@, json::Tree::Object(data))),
    );
    let content = json::members().push(
        ("parts"@, json::Tree::Array(json::items().push(words).push(picture))),
    );
    json::Tree::Object(
        json::members().push(("contents"@, one(json::Tree::Object(content)))),
    )
}

/// The question about an image.
fn ask(prompt: &str, image: &str) -> (r: Json)
    ensures
        r@ == question(prompt@, image@),
{
    let parts = anthropic::split_image(image);
    let data = Fields::new()
        .with("mimeType", Json::Text(parts.0))
        .with("data", Json::Text(parts.1))
        .done();
    let words = Fields::new().with("text", Json::text(prompt)).done();
    let picture = Fields::new().with("inlineData", data).done();
    let content = Fields::new().with("parts", Json::two_items(words, picture)).done();
    Fields::new().with("contents", Json::one_item(content)).done()
}

/// The request for a caption, or the refusal.
pub open spec fn captioning(kept: Option<json::Tree>, body: CaptionImageRequest) -> Result<
    web::OutgoingView,
    web::ReplyView,
> {
    let proxy = json::string_opt(body.reverse_proxy);
    let key = key_for(
        kept,
        proxy,
        json::string_opt(body.proxy_password),
    );
    match key {
        Some(k) => match secrets::filled(json::string_opt(body.image)) {
            Some(image) => Ok(
                posted(
                    model_address(
                        proxy,
                        secrets::text_or(
                            json::string_opt(body.model),
                            "gemini-1.5-flash-latest"@,
                        ),
                        "generateContent"@,
                        k,
                    ),
                    question(
                        secrets::text_or(
                            json::string_opt(body.prompt),
                            "What's in this image?"@,
                        ),
                        image,
                    ),
                ),
            ),
            None => Err(web::json_reply(400, web::error_tree("No image"@))),
        },
        None => Err(web::json_reply(400, web::true_error())),
    }
}

/// The request for a caption, or the refusal where there is no key or no image. Its answer
/// is passed on by [`web::relay`].
pub fn caption_image(secrets: Option<&Json>, body: &CaptionImageRequest) -> (r: Result<
    Outgoing,
    Reply,
>)
    ensures
        web::outcome(r) == captioning(json::tree_opt(secrets), *body),
{
    let key = match find_key(secrets, &body.reverse_proxy, &body.proxy_password) {
        Some(k) => k,
        None => return Err(Reply::json(400, web::error_flag())),
    };
    let image = match secrets::non_empty(&body.image) {
        Some(i) => i,
        None => return Err(Reply::error(400, "No image")),
    };
    let model = secrets::unwrap_or(&body.model, "gemini-1.5-flash-latest");
    let prompt = secrets::unwrap_or(&body.prompt, "What's in this image?");
    let url = model_url(&body.reverse_proxy, &model, "generateContent", &key);
    Ok(post(url, ask(&prompt, image)))
}

/// The languages in which a text can be spoken.
pub open spec fn languages() -> Seq<Seq<char>> {
    seq![
        "af"@, "am"@, "ar"@, "bg"@, "bn"@, "bs"@, "ca"@, "cs"@, "cy"@, "da"@, "de"@, "el"@,
        "en"@, "eo"@, "es"@, "et"@, "eu"@, "fi"@, "fr"@, "gl"@, "gu"@, "ha"@, "hi"@, "hr"@,
        "hu"@, "hy"@, "id"@, "is"@, "it"@, "iw"@, "ja"@, "jw"@, "ka"@, "kk"@, "km"@, "kn"@,
        "ko"@, "ku"@, "la"@, "lt"@, "lv"@, "mg"@, "mi"@, "mk"@, "ml"@, "mn"@, "mr"@, "ms"@,
        "my"@, "ne"@, "nl"@, "no"@, "ny"@, "pa"@, "pl"@, "ps"@, "pt"@, "ro"@, "ru"@, "rw"@,
        "sd"@, "si"@, "sk"@, "sl"@, "sm"@, "sn"@, "so"@, "sq"@, "sr"@, "st"@, "su"@, "sv"@,
        "sw"@, "ta"@, "te"@, "tg"@, "th"@, "tl"@, "tr"@, "ts"@, "tt"@, "ug"@, "uk"@, "ur"@,
        "uz"@, "vi"@, "xh"@, "yi"@, "yo"@, "zh-CN"@, "zh-TW"@, "zu"@,
    ]
}

/// The answer that lists the languages in which a text can be spoken.
pub fn list_voices() -> (r: Reply)
    ensures
        r@ == web::json_reply(
            200,
            json::Tree::Array(Seq::new(languages().len(), |i: int| json::txt(languages()[i]))),
        ),
{
    let list = [
        "af", "am", "ar", "bg", "bn", "bs", "ca", "cs", "cy", "da", "de", "el", "en", "eo", "es",
        "et", "eu", "fi", "fr", "gl", "gu", "ha", "hi", "hr", "hu", "hy", "id", "is", "it", "iw",
        "ja", "jw", "ka", "kk", "km", "kn", "ko", "ku", "la", "lt", "lv", "mg", "mi", "mk", "ml",
        "mn", "mr", "ms", "my", "ne", "nl", "no", "ny", "pa", "pl", "ps", "pt", "ro", "ru", "rw",
        "sd", "si", "sk", "sl", "sm", "sn", "so", "sq", "sr", "st", "su", "sv", "sw", "ta", "te",
        "tg", "th", "tl", "tr", "ts", "tt", "ug", "uk", "ur", "uz", "vi", "xh", "yi", "yo",
        "zh-CN", "zh-TW", "zu",
    ];
    let r = Json::texts(&list);
    assert(r@->Array_0 =~= Seq::new(languages().len(), |i: int| json::txt(languages()[i])));
    Reply::json(200, r)
}

/// The request for a spoken translation, or the refusal.
pub open spec fn voicing(body: GenerateVoiceRequest) -> Result<
    web::OutgoingView,
    web::ReplyView,
> {
    match secrets::filled(json::string_opt(body.text)) {
        Some(words) => Ok(
            web::bare(
                Method::Get,
                "https://translate.google.com/translate_tts?ie=UTF-8&q="@
                    + outside::percent_encoded(vstd::utf8::encode_utf8(words)) + "&tl="@
                    + secrets::text_or(json::string_opt(body.lang), "en"@)
                    + "&client=tw-ob"@,
            ),
        ),
        None => Err(web::status_only(400)),
    }
}

/// The request that has a text spoken, or the refusal where there is none. The sound is
/// passed on by [`web::relay_bytes`] as `audio/mpeg`.
pub fn generate_voice(body: &GenerateVoiceRequest) -> (r: Result<Outgoing, Reply>)
    ensures
        web::outcome(r) == voicing(*body),
{
    let words = match secrets::non_empty(&body.text) {
        Some(t) => t,
        None => return Err(Reply::empty(400)),
    };
    let lang = secrets::unwrap_or(&body.lang, "en");
    let start = text::join3(
        "https://translate.google.com/translate_tts?ie=UTF-8&q=",
        &outside::url_encode(words),
        "&tl=",
    );
    Ok(Outgoing::new(Method::Get, text::join3(&start, &lang, "&client=tw-ob")))
}

/// The voices that a model can speak with.
pub open spec fn voices() -> Seq<Seq<char>> {
    seq![
        "Zephyr"@, "Puck"@, "Charon"@, "Kore"@, "Fenrir"@, "Leda"@, "Orus"@, "Aoede"@,
        "Callirrhoe"@, "Autonoe"@, "Enceladus"@, "Iapetus"@, "Umbriel"@, "Algieba"@, "Despina"@,
        "Erinome"@, "Gacrux"@, "Linus"@, "Pegasi"@, "Schedar"@, "Sulafat"@, "Vindemiatrix"@,
        "Achernar"@, "Hamal"@, "Zubenelgenubi"@, "Sadachbia"@, "Sadaltager"@, "Diphda"@,
        "Ginan"@, "Muscida"@,
    ]
}

/// A voice as it is listed.
pub open spec fn voice(name: Seq<char>) -> json::Tree {
    json::Tree::Object(
        json::members()
            .push(("voice_id"@, json::txt(name)))
            .push(("name"@, json::txt(name)))
            .push(("lang"@, json::txt("en"@))),
    )
}

/// The answer that lists the voices that a model can speak with.
pub fn list_native_voices() -> (r: Reply)
    ensures
        r@ == web::json_reply(
            200,
            json::Tree::Array(Seq::new(voices().len(), |i: int| voice(voices()[i]))),
        ),
{
    let list = [
        "Zephyr", "Puck", "Charon", "Kore", "Fenrir", "Leda", "Orus", "Aoede", "Callirrhoe",
        "Autonoe", "Enceladus", "Iapetus", "Umbriel", "Algieba", "Despina", "Erinome", "Gacrux",
        "Linus", "Pegasi", "Schedar", "Sulafat", "Vindemiatrix", "Achernar", "Hamal",
        "Zubenelgenubi", "Sadachbia", "Sadaltager", "Diphda", "Ginan", "Muscida",
    ];
    let mut out: Vec<Json> = Vec::new();
    let mut i: usize = 0;
    assert(list@.len() == voices().len());
    assert(forall|j: int| 0 <= j < voices().len() ==> #[trigger] list@[j]@ == voices()[j]);
    while i < list.len()
        invariant
            i <= list@.len(),
            list@.len() == voices().len(),
            forall|j: int| 0 <= j < voices().len() ==> #[trigger] list@[j]@ == voices()[j],
            out@.len() == i,
            forall|j: int| 0 <= j < i ==> #[trigger] out@[j]@ == voice(voices()[j]),
        decreases list@.len() - i,
    {
        let name: &str = list[i];
        assert(name@ == voices()[i as int]);
        let v = Fields::new()
            .with("voice_id", Json::text(name))
            .with("name", Json::text(name))
            .with("lang", Json::text("en"))
            .done();
        out.push(v);
        i += 1;
    }
    assert(json::trees(out@) =~= Seq::new(voices().len(), |k: int| voice(voices()[k])));
    Reply::json(200, Json::array(out))
}

/// The request that has a text spoken by a model.
pub open spec fn speech(words: Seq<char>, voice: Seq<char>) -> json::Tree {
    let said = json::Tree::Object(json::members().push(("text"@, json::txt(words))));
    let content = json::Tree::Object(json::members().push(("parts"@, one(said))));
    let prebuilt = json::Tree::Object(json::members().push(("voiceName"@, json::txt(voice))));
    let chosen = json::Tree::Object(
        json::members().push(("prebuiltVoiceConfig"@, prebuilt)),
    );
    let config = json::Tree::Object(
        json::members()
            .push(("response_modalities"@, one(json::txt("AUDIO"@))))
            .push(
                (
                    "speechConfig"@,
                    json::Tree::Object(json::members().push(("voiceConfig"@, chosen))),
                ),
            ),
    );
    json::Tree::Object(
        json::members()
            .push(("contents"@, one(content)))
            .push(("generationConfig"@, config)),
    )
}

/// The request that has a text spoken by a model.
fn speak(words: &str, voice: &str) -> (r: Json)
    ensures
        r@ == speech(words@, voice@),
{
    let said = Fields::new().with("text", Json::text(words)).done();
    let content = Fields::new().with("parts", Json::one_item(said)).done();
    let prebuilt = Fields::new().with("voiceName", Json::text(voice)).done();
    let chosen = Fields::new().with("prebuiltVoiceConfig", prebuilt).done();
    let speaker = Fields::new().with("voiceConfig", chosen).done();
    let config = Fields::new()
        .with("response_modalities", Json::one_item(Json::text("AUDIO")))
        .with("speechConfig", speaker)
        .done();
    Fields::new()
        .with("contents", Json::one_item(content))
        .with("generationConfig", config)
        .done()
}

/// The request for speech, or the refusal.
pub open spec fn speaking(kept: Option<json::Tree>, body: GenerateNativeTtsRequest) -> Result<
    web::OutgoingView,
    web::ReplyView,
> {
    let proxy = json::string_opt(body.reverse_proxy);
    let key = key_for(
        kept,
        proxy,
        json::string_opt(body.proxy_password),
    );
    match key {
        Some(k) => match secrets::filled(json::string_opt(body.text)) {
            Some(words) => Ok(
                posted(
                    model_address(
                        proxy,
                        secrets::text_or(
                            json::string_opt(body.model),
                            "gemini-2.0-flash"@,
                        ),
                        "generateContent"@,
                        k,
                    ),
                    speech(
                        words,
                        secrets::text_or(json::string_opt(body.voice_name), "Kore"@),
                    ),
                ),
            ),
            None => Err(web::status_only(400)),
        },
        None => Err(web::json_reply(400, web::error_tree("No API key"@))),
    }
}

/// The request that has a text spoken by a model, or the refusal where there is no key or no
/// text. What its answer calls for is [`native_tts_reply`].
pub fn generate_native_tts(secrets: Option<&Json>, body: &GenerateNativeTtsRequest) -> (r: Result<
    Outgoing,
    Reply,
>)
    ensures
        web::outcome(r) == speaking(json::tree_opt(secrets), *body),
{
    let key = match find_key(secrets, &body.reverse_proxy, &body.proxy_password) {
        Some(k) => k,
        None => return Err(Reply::error(400, "No API key")),
    };
    let words = match secrets::non_empty(&body.text) {
        Some(t) => t,
        None => return Err(Reply::empty(400)),
    };
    let model = secrets::unwrap_or(&body.model, "gemini-2.0-flash");
    let voice = secrets::unwrap_or(&body.voice_name, "Kore");
    let url = model_url(&body.reverse_proxy, &model, "generateContent", &key);
    Ok(post(url, speak(words, &voice)))
}

/// How many samples a second has: as many as the request says, or 24000.
pub open spec fn rate_of(body: GenerateNativeTtsRequest) -> u32 {
    match body.sample_rate {
        Some(n) => n,
        None => 24000,
    }
}

/// How many samples a second has.
fn sample_rate(body: &GenerateNativeTtsRequest) -> (r: u32)
    ensures
        r == rate_of(*body),
{
    match body.sample_rate {
        Some(n) => n,
        None => 24000,
    }
}

/// The two bytes of a number, the lowest first.
pub open spec fn le16(n: int) -> Seq<u8> {
    seq![(n % 256) as u8, (n / 256 % 256) as u8]
}

/// The four bytes of a number, the lowest first.
pub open spec fn le32(n: int) -> Seq<u8> {
    le16(n % 65536) + le16(n / 65536)
}

/// The number that four bytes stand for, the lowest first.
pub open spec fn le_value(b: Seq<u8>) -> int {
    b[0] + 256 * b[1] + 65536 * b[2] + 16777216 * b[3]
}

/// The size of sound as a header tells it, in four bytes.
pub open spec fn told_size(data_size: usize) -> int {
    data_size as int % 0x1_0000_0000
}

/// Whether the numbers of a header fit into it.
pub open spec fn header_fits(data_size: usize, rate: u32, channels: u16, bits: u16) -> bool {
    &&& rate * channels <= u32::MAX
    &&& rate * channels * bits <= u32::MAX
    &&& channels * bits <= u16::MAX
    &&& 36 + told_size(data_size) <= u32::MAX
}

/// The header of a WAV file with sound of `data_size` bytes: of so many samples a second, so
/// many channels, and so many bits for a sample.
pub open spec fn wav_header(data_size: usize, rate: u32, channels: u16, bits: u16) -> Seq<u8> {
    // RIFF
    seq![82u8, 73u8, 70u8, 70u8] + le32(36 + told_size(data_size))
        // WAVE
         + seq![87u8, 65u8, 86u8, 69u8]
        // fmt
         + seq![102u8, 109u8, 116u8, 32u8] + le32(16) + le16(1) + le16(channels as int) + le32(
        rate as int,
    ) + le32(rate * channels * bits / 8) + le16(channels * bits / 8) + le16(bits as int)
        // data
         + seq![100u8, 97u8, 116u8, 97u8] + le32(told_size(data_size))
}

fn push_four(v: &mut Vec<u8>, a: u8, b: u8, c: u8, d: u8)
    ensures
        final(v)@ == old(v)@ + seq![a, b, c, d],
{
    v.push(a);
    v.push(b);
    v.push(c);
    v.push(d);
    assert(v@ =~= old(v)@ + seq![a, b, c, d]);
}

fn push_u16(v: &mut Vec<u8>, n: u16)
    ensures
        final(v)@ == old(v)@ + le16(n as int),
{
    v.push((n % 256) as u8);
    v.push((n / 256) as u8);
    assert(v@ =~= old(v)@ + le16(n as int));
}

fn push_u32(v: &mut Vec<u8>, n: u32)
    ensures
        final(v)@ == old(v)@ + le32(n as int),
{
    push_u16(v, (n % 65536) as u16);
    push_u16(v, (n / 65536) as u16);
    assert(v@ =~= old(v)@ + le32(n as int));
}

/// The header of a WAV file with sound of `data_size` bytes.
pub fn create_wav_header(
    data_size: usize,
    sample_rate: u32,
    num_channels: u16,
    bits_per_sample: u16,
) -> (r: Vec<u8>)
    requires
        header_fits(data_size, sample_rate, num_channels, bits_per_sample),
    ensures
        r@ == wav_header(data_size, sample_rate, num_channels, bits_per_sample),
{
    let byte_rate: u32 = sample_rate * num_channels as u32 * bits_per_sample as u32 / 8;
    let block_align: u16 = num_channels * bits_per_sample / 8;
    let size: u32 = (data_size as u64 % 0x1_0000_0000) as u32;
    let mut header: Vec<u8> = Vec::new();
    push_four(&mut header, 82, 73, 70, 70);
    push_u32(&mut header, 36 + size);
    push_four(&mut header, 87, 65, 86, 69);
    push_four(&mut header, 102, 109, 116, 32);
    push_u32(&mut header, 16);
    push_u16(&mut header, 1);
    push_u16(&mut header, num_channels);
    push_u32(&mut header, sample_rate);
    push_u32(&mut header, byte_rate);
    push_u16(&mut header, block_align);
    push_u16(&mut header, bits_per_sample);
    push_four(&mut header, 100, 97, 116, 97);
    push_u32(&mut header, size);
    assert(header@ =~= wav_header(data_size, sample_rate, num_channels, bits_per_sample));
    header
}

/// A header is 44 bytes long; the size of the sound and the number of samples a second can be
/// read from it, and what follows its first eight bytes in the file is as long as it tells.
pub proof fn header_reads_back(data_size: usize, rate: u32, channels: u16, bits: u16)
    requires
        header_fits(data_size, rate, channels, bits),
    ensures
        wav_header(data_size, rate, channels, bits).len() == 44,
        le_value(wav_header(data_size, rate, channels, bits).subrange(40, 44)) == told_size(
            data_size,
        ),
        le_value(wav_header(data_size, rate, channels, bits).subrange(24, 28)) == rate,
        le_value(wav_header(data_size, rate, channels, bits).subrange(4, 8)) == 44 - 8 + told_size(
            data_size,
        ),
{
    let size = told_size(data_size);
    parts_stand(
        seq![82u8, 73u8, 70u8, 70u8],
        le32(36 + size),
        seq![87u8, 65u8, 86u8, 69u8],
        seq![102u8, 109u8, 116u8, 32u8],
        le32(16),
        le16(1),
        le16(channels as int),
        le32(rate as int),
        le32(rate * channels * bits / 8),
        le16(channels * bits / 8),
        le16(bits as int),
        seq![100u8, 97u8, 116u8, 97u8],
        le32(size),
    );
    le32_reads_back(size);
    le32_reads_back(rate as int);
    le32_reads_back(36 + size);
}

proof fn parts_stand(
    riff: Seq<u8>,
    chunk: Seq<u8>,
    wave: Seq<u8>,
    fmt: Seq<u8>,
    sixteen: Seq<u8>,
    format: Seq<u8>,
    channels: Seq<u8>,
    rate: Seq<u8>,
    byte_rate: Seq<u8>,
    align: Seq<u8>,
    bits: Seq<u8>,
    data: Seq<u8>,
    size: Seq<u8>,
)
    requires
        riff.len() == 4,
        chunk.len() == 4,
        wave.len() == 4,
        fmt.len() == 4,
        sixteen.len() == 4,
        format.len() == 2,
        channels.len() == 2,
        rate.len() == 4,
        byte_rate.len() == 4,
        align.len() == 2,
        bits.len() == 2,
        data.len() == 4,
        size.len() == 4,
    ensures
        ({
            let h = riff + chunk + wave + fmt + sixteen + format + channels + rate + byte_rate
                + align + bits + data + size;
            &&& h.len() == 44
            &&& h.subrange(4, 8) == chunk
            &&& h.subrange(24, 28) == rate
            &&& h.subrange(40, 44) == size
        }),
{
    let h = riff + chunk + wave + fmt + sixteen + format + channels + rate + byte_rate + align
        + bits + data + size;
    assert(h.subrange(4, 8) =~= chunk);
    assert(h.subrange(24, 28) =~= rate);
    assert(h.subrange(40, 44) =~= size);
}

proof fn le32_reads_back(n: int)
    requires
        0 <= n <= u32::MAX,
    ensures
        le_value(le32(n)) == n,
{
    let low = n % 65536;
    let high = n / 65536;
    assert(low == low % 256 + 256 * (low / 256 % 256));
    assert(high == high % 256 + 256 * (high / 256 % 256));
}

/// The first item of a list under `key`.
pub open spec fn first_at(t: Option<json::Tree>, key: Seq<char>) -> Option<json::Tree> {
    match t {
        Some(x) => match x.items_at(key) {
            Some(a) => if a.len() > 0 {
                Some(a[0])
            } else {
                None
            },
            None => None,
        },
        None => None,
    }
}

/// What stands under `key`.
pub open spec fn under(t: Option<json::Tree>, key: Seq<char>) -> Option<json::Tree> {
    match t {
        Some(x) => x.get(key),
        None => None,
    }
}

/// The first item of a list under `key`.
fn first_item<'a>(t: Option<&'a Json>, key: &str) -> (r: Option<&'a Json>)
    ensures
        json::tree_opt(r) == first_at(json::tree_opt(t), key@),
{
    match t {
        Some(x) => match x.array_at(key) {
            Some(a) => if a.len() > 0 {
                assert(json::trees(a@)[0] == a@[0]@);
                Some(&a[0])
            } else {
                None
            },
            None => None,
        },
        None => None,
    }
}

/// What stands under `key`.
fn member<'a>(t: Option<&'a Json>, key: &str) -> (r: Option<&'a Json>)
    ensures
        json::tree_opt(r) == under(json::tree_opt(t), key@),
{
    match t {
        Some(x) => x.get(key),
        None => None,
    }
}

/// The sound in an answer, in base64: that of the first part of the first candidate.
pub open spec fn audio_in(answer: json::Tree) -> Option<Seq<char>> {
    let candidate = first_at(Some(answer), "candidates"@);
    let part = first_at(under(candidate, "content"@), "parts"@);
    match under(under(part, "inlineData"@), "data"@) {
        Some(d) => d.as_text(),
        None => None,
    }
}

/// The sound in an answer, in base64.
pub fn find_audio(answer: &Json) -> (r: Option<&str>)
    ensures
        json::text_opt(r) == audio_in(answer@),
{
    let candidate = first_item(Some(answer), "candidates");
    let part = first_item(member(candidate, "content"), "parts");
    match member(member(part, "inlineData"), "data") {
        Some(d) => d.as_str(),
        None => None,
    }
}

/// A WAV file with sound of one channel in samples of sixteen bits.
pub open spec fn wav(pcm: Seq<u8>, rate: u32) -> Seq<u8> {
    wav_header(pcm.len() as usize, rate, 1, 16) + pcm
}

/// The answer with sound as a WAV file, or an internal error where there is none.
pub open spec fn sounded(pcm: Option<Seq<u8>>, rate: u32) -> web::ReplyView {
    match pcm {
        Some(b) => web::ReplyView {
            status: 200,
            headers: Seq::empty(),
            payload: web::PayloadView::Bytes("audio/wav"@, wav(b, rate)),
        },
        None => web::status_only(500),
    }
}

/// What an optional list of bytes is.
pub open spec fn bytes_opt(o: Option<Vec<u8>>) -> Option<Seq<u8>> {
    match o {
        Some(v) => Some(v@),
        None => None,
    }
}

/// Whether sound can be told of in a header.
pub open spec fn sound_fits(pcm: Option<Seq<u8>>, rate: u32) -> bool {
    pcm matches Some(b) ==> header_fits(b.len() as usize, rate, 1, 16)
}

/// The answer with sound as a WAV file, or an internal error where there is none.
pub fn sound_reply(pcm: Option<Vec<u8>>, rate: u32) -> (r: Reply)
    requires
        sound_fits(bytes_opt(pcm), rate),
    ensures
        r@ == sounded(bytes_opt(pcm), rate),
{
    match pcm {
        Some(b) => {
            let mut file = create_wav_header(b.len(), rate, 1, 16);
            let mut bytes = b;
            file.append(&mut bytes);
            Reply::bytes(200, "audio/wav", file)
        },
        None => Reply::empty(500),
    }
}

/// The sound that an answer brings: nothing where the service failed, or brought none, or
/// none that can be read.
pub open spec fn sound_of(u: web::UpstreamView) -> Option<Seq<u8>> {
    match u {
        web::UpstreamView::Got(s, _, Some(answer)) => if web::success(s) {
            match audio_in(answer) {
                Some(a) => outside::base64_strict(a),
                None => None,
            }
        } else {
            None
        },
        _ => None,
    }
}

/// The answer with the sound that the service brings as a WAV file, or an internal error
/// where it brings none. Nothing is answered where the numbers of the sound do not fit into
/// the header of such a file.
pub fn native_tts_reply(body: &GenerateNativeTtsRequest, u: &Upstream) -> (r: Option<Reply>)
    ensures
        r is Some <==> sound_fits(sound_of(u@), rate_of(*body)),
        r matches Some(x) ==> x@ == sounded(sound_of(u@), rate_of(*body)),
{
    let rate = sample_rate(body);
    let pcm: Option<Vec<u8>> = match u {
        Upstream::Got(s, _, Some(answer)) => if web::is_success(*s) {
            match find_audio(answer) {
                Some(a) => outside::decode_base64_strict(a),
                None => None,
            }
        } else {
            None
        },
        _ => None,
    };
    let fits = match &pcm {
        Some(b) => rate <= 0xFFF_FFFF && b.len() as u64 % 0x1_0000_0000 <= 0xFFFF_FFFF - 36,
        None => true,
    };
    if fits {
        Some(sound_reply(pcm, rate))
    } else {
        None
    }
}

/// The order for images.
pub open spec fn image_order(
    prompt: Seq<char>,
    count: u32,
    ratio: Seq<char>,
    negative: Option<Seq<char>>,
) -> json::Tree {
    let start = json::members()
        .push(("sampleCount"@, json::num(count as u64)))
        .push(("aspectRatio"@, json::txt(ratio)));
    let more = match secrets::filled(negative) {
        Some(n) => start.push(("negativePrompt"@, json::txt(n))),
        None => start,
    };
    let output = json::Tree::Object(json::members().push(("mimeType"@, json::txt("image/png"@))));
    let instance = json::Tree::Object(json::members().push(("prompt"@, json::txt(prompt))));
    json::Tree::Object(
        json::members()
            .push(("instances"@, one(instance)))
            .push(("parameters"@, json::Tree::Object(more.push(("outputOptions"@, output))))),
    )
}

/// The order for images.
fn order_images(prompt: &str, count: u32, ratio: &str, negative: &Option<String>) -> (r: Json)
    ensures
        r@ == image_order(prompt@, count, ratio@, json::string_opt(*negative)),
{
    let mut parameters = Fields::new()
        .with("sampleCount", Json::natural(count as u64))
        .with("aspectRatio", Json::text(ratio));
    match secrets::non_empty(negative) {
        Some(n) => parameters.push("negativePrompt", Json::text(n)),
        None => {},
    }
    let output = Fields::new().with("mimeType", Json::text("image/png")).done();
    let instance = Fields::new().with("prompt", Json::text(prompt)).done();
    Fields::new()
        .with("instances", Json::one_item(instance))
        .with("parameters", parameters.with("outputOptions", output).done())
        .done()
}

/// The request for images, or the refusal.
pub open spec fn drawing(kept: Option<json::Tree>, body: GenerateImageRequest) -> Result<
    web::OutgoingView,
    web::ReplyView,
> {
    let proxy = json::string_opt(body.reverse_proxy);
    let key = key_for(
        kept,
        proxy,
        json::string_opt(body.proxy_password),
    );
    match key {
        Some(k) => match secrets::filled(json::string_opt(body.prompt)) {
            Some(prompt) => Ok(
                posted(
                    model_address(
                        proxy,
                        secrets::text_or(
                            json::string_opt(body.model),
                            "imagen-3.0-generate-001"@,
                        ),
                        "predict"@,
                        k,
                    ),
                    image_order(
                        prompt,
                        match body.count {
                            Some(n) => n,
                            None => 1,
                        },
                        secrets::text_or(json::string_opt(body.aspect_ratio), "1:1"@),
                        json::string_opt(body.negative_prompt),
                    ),
                ),
            ),
            None => Err(web::status_only(400)),
        },
        None => Err(web::json_reply(400, web::error_tree("No API key"@))),
    }
}

/// The request for images, or the refusal where there is no key or no prompt. Its answer is
/// passed on by [`web::relay`].
pub fn generate_image(secrets: Option<&Json>, body: &GenerateImageRequest) -> (r: Result<
    Outgoing,
    Reply,
>)
    ensures
        web::outcome(r) == drawing(json::tree_opt(secrets), *body),
{
    let key = match find_key(secrets, &body.reverse_proxy, &body.proxy_password) {
        Some(k) => k,
        None => return Err(Reply::error(400, "No API key")),
    };
    let prompt = match secrets::non_empty(&body.prompt) {
        Some(p) => p,
        None => return Err(Reply::empty(400)),
    };
    let model = secrets::unwrap_or(&body.model, "imagen-3.0-generate-001");
    let ratio = secrets::unwrap_or(&body.aspect_ratio, "1:1");
    let count: u32 = match body.count {
        Some(n) => n,
        None => 1,
    };
    let url = model_url(&body.reverse_proxy, &model, "predict", &key);
    Ok(post(url, order_images(prompt, count, &ratio, &body.negative_prompt)))
}

/// The order for a video.
pub open spec fn video_order(prompt: Seq<char>, image: Option<Seq<char>>, ratio: Seq<char>) -> json::Tree {
    let words = json::members().push(("prompt"@, json::txt(prompt)));
    let instance = match secrets::filled(image) {
        Some(i) => words.push(
            (
                "image"@,
                json::Tree::Object(json::members().push(("bytesBase64Encoded"@, json::txt(i)))),
            ),
        ),
        None => words,
    };
    let parameters = json::members().push(("aspectRatio"@, json::txt(ratio)));
    json::Tree::Object(
        json::members()
            .push(("instances"@, one(json::Tree::Object(instance))))
            .push(("parameters"@, json::Tree::Object(parameters))),
    )
}

/// The order for a video.
fn order_video(prompt: &str, image: &Option<String>, ratio: &str) -> (r: Json)
    ensures
        r@ == video_order(prompt@, json::string_opt(*image), ratio@),
{
    let mut instance = Fields::new().with("prompt", Json::text(prompt));
    match secrets::non_empty(image) {
        Some(i) => instance.push(
            "image",
            Fields::new().with("bytesBase64Encoded", Json::text(i)).done(),
        ),
        None => {},
    }
    let parameters = Fields::new().with("aspectRatio", Json::text(ratio)).done();
    Fields::new()
        .with("instances", Json::one_item(instance.done()))
        .with("parameters", parameters)
        .done()
}

/// The request for a video, or the refusal.
pub open spec fn filming(kept: Option<json::Tree>, body: GenerateVideoRequest) -> Result<
    web::OutgoingView,
    web::ReplyView,
> {
    let proxy = json::string_opt(body.reverse_proxy);
    let key = key_for(
        kept,
        proxy,
        json::string_opt(body.proxy_password),
    );
    match key {
        Some(k) => match secrets::filled(json::string_opt(body.prompt)) {
            Some(prompt) => Ok(
                posted(
                    model_address(
                        proxy,
                        secrets::text_or(
                            json::string_opt(body.model),
                            "veo-2.0-generate-001"@,
                        ),
                        "predictLongRunning"@,
                        k,
                    ),
                    video_order(
                        prompt,
                        json::string_opt(body.image),
                        secrets::text_or(json::string_opt(body.aspect_ratio), "16:9"@),
                    ),
                ),
            ),
            None => Err(web::status_only(400)),
        },
        None => Err(web::json_reply(400, web::error_tree("No API key"@))),
    }
}

/// The request for a video, or the refusal where there is no key or no prompt. What its
/// answer calls for is [`video_submitted`].
pub fn generate_video(secrets: Option<&Json>, body: &GenerateVideoRequest) -> (r: Result<
    Outgoing,
    Reply,
>)
    ensures
        web::outcome(r) == filming(json::tree_opt(secrets), *body),
{
    let key = match find_key(secrets, &body.reverse_proxy, &body.proxy_password) {
        Some(k) => k,
        None => return Err(Reply::error(400, "No API key")),
    };
    let prompt = match secrets::non_empty(&body.prompt) {
        Some(p) => p,
        None => return Err(Reply::empty(400)),
    };
    let model = secrets::unwrap_or(&body.model, "veo-2.0-generate-001");
    let ratio = secrets::unwrap_or(&body.aspect_ratio, "16:9");
    let url = model_url(&body.reverse_proxy, &model, "predictLongRunning", &key);
    Ok(post(url, order_video(prompt, &body.image, &ratio)))
}

/// The address that tells how an order for a video stands.
pub open spec fn video_address(
    proxy: Option<Seq<char>>,
    operation: Seq<char>,
    key: Seq<char>,
) -> Seq<char> {
    match proxy {
        Some(p) => text::drop_trailing(p, '/') + "/v1beta/"@ + operation,
        None => GOOGLE_API@ + "/v1beta/"@ + operation + "?key="@ + key,
    }
}

/// How a video that was ordered is looked at, or what the client is told at once.
pub open spec fn film_watch(kept: Option<json::Tree>, body: GenerateVideoRequest, u: web::UpstreamView) -> Result<
    web::OutgoingView,
    web::ReplyView,
> {
    match u {
        web::UpstreamView::Got(s, _, Some(j)) => if web::success(s) {
            match j.text_at("name"@) {
                Some(operation) => Ok(
                    web::bare(
                        Method::Get,
                        video_address(
                            json::string_opt(body.reverse_proxy),
                            operation,
                            secrets::or_empty(
                                key_for(
                                    kept,
                                    json::string_opt(body.reverse_proxy),
                                    json::string_opt(body.proxy_password),
                                ),
                            ),
                        ),
                    ),
                ),
                None => Err(web::json_reply(200, j)),
            }
        } else {
            Err(web::status_only(500))
        },
        _ => Err(web::status_only(500)),
    }
}

/// The request how an order for a video stands, to be sent up to [`VIDEO_POLLS`] times. An
/// order that the service did not take is an internal error; one without a name is answered
/// with what the service said.
pub fn video_submitted(secrets: Option<&Json>, body: &GenerateVideoRequest, u: &Upstream) -> (r:
    Result<Outgoing, Reply>)
    ensures
        web::outcome(r) == film_watch(json::tree_opt(secrets), *body, u@),
{
    match u {
        Upstream::Got(s, _, Some(j)) => if web::is_success(*s) {
            match j.str_at("name") {
                Some(operation) => {
                    let url = match &body.reverse_proxy {
                        Some(p) => text::join3(
                            &text::trim_end_char(p, '/'),
                            "/v1beta/",
                            operation,
                        ),
                        None => {
                            let found = find_key(
                                secrets,
                                &body.reverse_proxy,
                                &body.proxy_password,
                            );
                            let key = secrets::unwrap_or_empty(found);
                            let place = text::join3(GOOGLE_API, "/v1beta/", operation);
                            text::join3(&place, "?key=", &key)
                        },
                    };
                    Ok(Outgoing::new(Method::Get, url))
                },
                None => Err(Reply::json(200, j.copy())),
            }
        } else {
            Err(Reply::empty(500))
        },
        _ => Err(Reply::empty(500)),
    }
}

/// Where an order for a video is done or failed, the answer to the client.
pub open spec fn video_verdict(answer: Option<json::Tree>) -> Option<web::ReplyView> {
    match answer {
        Some(a) => if a.flag_at("done"@) == Some(true) || a.get("error"@) is Some {
            Some(web::json_reply(200, a))
        } else {
            None
        },
        None => None,
    }
}

/// What to do after a look at an order for a video, with `left` looks left. `answer` is the
/// JSON value of the service's answer, where it has one.
pub fn video_next(answer: Option<&Json>, left: u32) -> (r: PollStep)
    ensures
        horde::step_view(r) == horde::polled(
            video_verdict(json::tree_opt(answer)),
            left,
            web::json_reply(408, web::error_tree("Video generation timed out"@)),
        ),
{
    match answer {
        Some(a) => {
            let done = match a.bool_at("done") {
                Some(b) => b,
                None => false,
            };
            if done || a.get("error").is_some() {
                return PollStep::Done(Reply::json(200, a.copy()));
            }
        },
        None => {},
    }
    if left > 0 {
        PollStep::Again(left - 1)
    } else {
        PollStep::Done(Reply::error(408, "Video generation timed out"))
    }
}

} // verus!
