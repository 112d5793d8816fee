//! Speech by MiniMax.

use crate::json;
use crate::json::{Fields, Json};
use crate::numbers;
use crate::secrets;
use crate::text;
use crate::web;
use crate::web::{Download, Method, Outgoing, Reply};
use vstd::prelude::*;

verus! {

/// The name of the secret.
pub const SECRET_MINIMAX: &'static str = "api_key_minimax";

/// The name of the secret that is the group.
pub const SECRET_MINIMAX_GROUP_ID: &'static str = "minimax_group_id";

/// Asks for a text to be spoken. Speed, volume and pitch are numbers.
#[derive(Debug)]
pub struct MinimaxGenerateVoiceRequest {
    pub text: Option<String>,
    pub voice_id: Option<String>,
    pub speed: Option<Json>,
    pub vol: Option<Json>,
    pub pitch: Option<Json>,
    pub audio_sample_rate: Option<u32>,
    pub bitrate: Option<u32>,
    pub model: Option<String>,
    pub format: Option<String>,
    pub language_boost: Option<String>,
}

/// The media type of a sound format.
pub open spec fn mime_of(format: Seq<char>) -> Seq<char> {
    if format == "wav"@ {
        "audio/wav"@
    } else if format == "pcm"@ {
        "audio/x-pcm"@
    } else if format == "flac"@ {
        "audio/flac"@
    } else {
        "audio/mpeg"@
    }
}

/// The media type of a sound format.
pub fn get_audio_mime_type(format: &str) -> (r: &'static str)
    ensures
        r@ == mime_of(format@),
{
    if text::same(format, "wav") {
        "audio/wav"
    } else if text::same(format, "pcm") {
        "audio/x-pcm"
    } else if text::same(format, "flac") {
        "audio/flac"
    } else {
        "audio/mpeg"
    }
}

/// The number, or `d` where there is none.
pub open spec fn number_or(o: Option<u32>, d: u32) -> u32 {
    match o {
        Some(n) => n,
        None => d,
    }
}

/// The payload of the request that has a text spoken.
pub open spec fn order(body: MinimaxGenerateVoiceRequest, words: Seq<char>) -> json::Tree {
    let voice = secrets::text_or(json::string_opt(body.voice_id), "male-qn-qingse"@);
    let weight = json::members()
        .push(("voice_id"@, json::txt(voice)))
        .push(("weight"@, json::num(1)));
    let setting = json::members()
        .push(("voice_id"@, json::txt(voice)))
        .push(("speed"@, json::tree_or(web::owned_tree(body.speed), json::Tree::Float(numbers::ONE, "1.0"@))))
        .push(("vol"@, json::tree_or(web::owned_tree(body.vol), json::Tree::Float(numbers::ONE, "1.0"@))))
        .push(("pitch"@, json::tree_or(web::owned_tree(body.pitch), json::Tree::Float(numbers::ZERO, "0.0"@))));
    let audio = json::members()
        .push(("sample_rate"@, json::num(number_or(body.audio_sample_rate, 32000) as u64)))
        .push(("bitrate"@, json::num(number_or(body.bitrate, 128000) as u64)))
        .push(("format"@, json::txt(secrets::text_or(json::string_opt(body.format), "mp3"@))));
    let base = json::members()
        .push(("model"@, json::txt(secrets::text_or(json::string_opt(body.model), "speech-01-turbo"@))))
        .push(("text"@, json::txt(words)))
        .push(("timber_weights"@, json::Tree::Array(json::items().push(json::Tree::Object(weight)))))
        .push(("voice_setting"@, json::Tree::Object(setting)))
        .push(("audio_setting"@, json::Tree::Object(audio)));
    json::Tree::Object(
        match secrets::filled(json::string_opt(body.language_boost)) {
            Some(l) => base.push(("language_boost"@, json::txt(l))),
            None => base,
        },
    )
}

/// A copy of the number, or `default` where there is none.
fn number_or_default(o: &Option<Json>, default: Json) -> (r: Json)
    ensures
        r@ == json::tree_or(web::owned_tree(*o), default@),
{
    match o {
        Some(j) => j.copy(),
        None => default,
    }
}

/// The payload of the request that has a text spoken.
fn place_order(body: &MinimaxGenerateVoiceRequest, words: &str) -> (r: Json)
    ensures
        r@ == order(*body, words@),
{
    let voice = secrets::unwrap_or(&body.voice_id, "male-qn-qingse");
    let rate: u32 = match body.audio_sample_rate {
        Some(n) => n,
        None => 32000,
    };
    let bits: u32 = match body.bitrate {
        Some(n) => n,
        None => 128000,
    };
    let weight = Fields::new().with("voice_id", Json::text(&voice)).with("weight", Json::natural(1)).done();
    let setting = Fields::new()
        .with("voice_id", Json::text(&voice))
        .with("speed", number_or_default(&body.speed, Json::float(numbers::ONE, "1.0")))
        .with("vol", number_or_default(&body.vol, Json::float(numbers::ONE, "1.0")))
        .with("pitch", number_or_default(&body.pitch, Json::float(numbers::ZERO, "0.0")))
        .done();
    let audio = Fields::new()
        .with("sample_rate", Json::natural(rate as u64))
        .with("bitrate", Json::natural(bits as u64))
        .with("format", Json::Text(secrets::unwrap_or(&body.format, "mp3")))
        .done();
    let base = Fields::new()
        .with("model", Json::Text(secrets::unwrap_or(&body.model, "speech-01-turbo")))
        .with("text", Json::text(words))
        .with("timber_weights", Json::one_item(weight))
        .with("voice_setting", setting)
        .with("audio_setting", audio);
    match secrets::non_empty(&body.language_boost) {
        Some(l) => base.with("language_boost", Json::text(l)).done(),
        None => base.done(),
    }
}

/// The request that has a text spoken, or the refusal where there is no key or no text.
pub open spec fn speaking(
    secrets: Option<json::Tree>,
    body: MinimaxGenerateVoiceRequest,
) -> Result<web::OutgoingView, web::ReplyView> {
    match secrets::filled_secret(secrets, SECRET_MINIMAX@) {
        Some(key) => match secrets::filled(json::string_opt(body.text)) {
            Some(words) => Ok(
                web::bare(
                    Method::Post,
                    "https://api.minimax.chat/v1/t2a_v2?GroupId="@ + secrets::or_empty(
                        secrets::secret(secrets, SECRET_MINIMAX_GROUP_ID@),
                    ),
                ).with_header("Content-Type"@, "application/json"@).with_header(
                    "Authorization"@,
                    "Bearer "@ + key,
                ).with_json(order(body, words)),
            ),
            None => Err(web::json_reply(400, web::error_tree("No text"@))),
        },
        None => Err(web::json_reply(400, web::true_error())),
    }
}

/// The request that has a text spoken. What its answer calls for is [`voice_step`].
pub fn generate_voice(secrets: Option<&Json>, body: &MinimaxGenerateVoiceRequest) -> (r: Result<
    Outgoing,
    Reply,
>)
    ensures
        web::outcome(r) == speaking(json::tree_opt(secrets), *body),
{
    let secret = secrets::read_secret(secrets, SECRET_MINIMAX);
    let key = match secrets::non_empty(&secret) {
        Some(k) => k,
        None => return Err(Reply::json(400, web::error_flag())),
    };
    let group = secrets::unwrap_or_empty(secrets::read_secret(secrets, SECRET_MINIMAX_GROUP_ID));
    let words = match secrets::non_empty(&body.text) {
        Some(t) => t,
        None => return Err(Reply::error(400, "No text")),
    };
    let url = text::join2("https://api.minimax.chat/v1/t2a_v2?GroupId=", &group);
    Ok(
        Outgoing::new(Method::Post, url)
            .header("Content-Type", "application/json")
            .header("Authorization", &text::join2("Bearer ", key))
            .json(place_order(body, words)),
    )
}

/// The value of a hexadecimal digit.
pub open spec fn hex_digit(b: u8) -> Option<u8> {
    if 48 <= b <= 57 {
        Some((b - 48) as u8)
    } else if 97 <= b <= 102 {
        Some((b - 87) as u8)
    } else if 65 <= b <= 70 {
        Some((b - 55) as u8)
    } else {
        None
    }
}

/// The value of two characters in hexadecimal; the first may be a plus sign.
pub open spec fn hex_pair(a: u8, b: u8) -> Option<u8> {
    match (hex_digit(a), hex_digit(b)) {
        (Some(x), Some(y)) => Some((16 * x + y) as u8),
        (None, Some(y)) => if a == 43 {
            Some(y)
        } else {
            None
        },
        _ => None,
    }
}

/// The bytes that `s[i..]` spells in hexadecimal; none where it cannot be cut into pairs of
/// digits.
pub open spec fn unhexed(s: Seq<u8>, i: int) -> Option<Seq<u8>>
    decreases s.len() - i,
{
    if i < 0 || i >= s.len() {
        Some(Seq::empty())
    } else if i + 1 == s.len() {
        None
    } else {
        match (hex_pair(s[i], s[i + 1]), unhexed(s, i + 2)) {
            (Some(v), Some(rest)) => Some(seq![v] + rest),
            _ => None,
        }
    }
}

/// The value of a hexadecimal digit.
fn hex_value(b: u8) -> (r: Option<u8>)
    ensures
        r == hex_digit(b),
        r matches Some(v) ==> v < 16,
{
    if 48 <= b && b <= 57 {
        Some(b - 48)
    } else if 97 <= b && b <= 102 {
        Some(b - 87)
    } else if 65 <= b && b <= 70 {
        Some(b - 55)
    } else {
        None
    }
}

/// The bytes that a text spells in hexadecimal, two characters to a byte.
pub fn decode_hex(s: &str) -> (r: Option<Vec<u8>>)
    ensures
        r matches Some(v) ==> unhexed(vstd::utf8::encode_utf8(s@), 0) == Some(v@),
        r is None ==> unhexed(vstd::utf8::encode_utf8(s@), 0) is None,
{
    let b = s.as_bytes();
    let n: usize = b.len();
    let mut out: Vec<u8> = Vec::new();
    let mut i: usize = 0;
    assert(unhexed(b@, 0) == (match unhexed(b@, 0) {
        Some(rest) => Some(out@ + rest),
        None => None,
    })) by {
        match unhexed(b@, 0) {
            Some(rest) => assert(out@ + rest =~= rest),
            None => {},
        }
    }
    while i < n
        invariant
            n == b@.len(),
            b@ == vstd::utf8::encode_utf8(s@),
            i <= n,
            unhexed(b@, 0) == (match unhexed(b@, i as int) {
                Some(rest) => Some(out@ + rest),
                None => None,
            }),
        decreases n - i,
    {
        if n - i == 1 {
            return None;
        }
        let pair = match (hex_value(b[i]), hex_value(b[i + 1])) {
            (Some(x), Some(y)) => Some(16 * x + y),
            (None, Some(y)) => if b[i] == 43 {
                Some(y)
            } else {
                None
            },
            _ => None,
        };
        match pair {
            Some(v) => {
                let ghost before = out@;
                out.push(v);
                proof {
                    match unhexed(b@, i + 2) {
                        Some(rest) => assert(before + (seq![v] + rest) =~= out@ + rest),
                        None => {},
                    }
                }
            },
            None => return None,
        }
        i += 2;
    }
    assert(out@ + Seq::<u8>::empty() =~= out@);
    Some(out)
}

/// What the service's answer calls for.
pub enum VoiceStep {
    /// This is the answer to the client.
    Done(Reply),
    /// The sound is to be fetched from this place.
    Fetch(String),
}

/// The sound under `data.audio` of an answer.
pub open spec fn audio_of(answer: json::Tree) -> Option<json::Tree> {
    match answer.get("data"@) {
        Some(d) => d.get("audio"@),
        None => None,
    }
}

/// The text under `key` of the sound of an answer.
pub open spec fn audio_text(answer: json::Tree, key: Seq<char>) -> Option<Seq<char>> {
    match audio_of(answer) {
        Some(a) => a.text_at(key),
        None => None,
    }
}

/// The message of an answer that tells of an error.
pub open spec fn service_error(answer: json::Tree) -> Option<Seq<char>> {
    match answer.get("base_resp"@) {
        Some(b) => {
            let code = match b.get("status_code"@) {
                Some(t) => t.as_integer(),
                None => None,
            };
            match code {
                Some(c) => if c != 0 {
                    Some(b.text_or("status_msg"@, "Unknown error"@))
                } else {
                    None
                },
                None => None,
            }
        },
        None => None,
    }
}

/// The answer that carries a sound.
pub open spec fn sound(format: Seq<char>, data: Seq<u8>) -> web::ReplyView {
    web::ReplyView {
        status: 200,
        headers: Seq::empty(),
        payload: web::PayloadView::Bytes(mime_of(format), data),
    }
}

/// What the service's answer calls for: an error is passed on, a sound in hexadecimal is
/// decoded, one at an address is fetched, and any other answer is passed on as it is.
pub open spec fn step_of(answer: json::Tree, format: Seq<char>) -> Result<
    web::ReplyView,
    Seq<char>,
> {
    match service_error(answer) {
        Some(m) => Ok(web::text_reply(500, m)),
        None => match audio_text(answer, "data"@) {
            Some(hex) => Ok(
                match unhexed(vstd::utf8::encode_utf8(hex), 0) {
                    Some(b) => sound(format, b),
                    None => web::status_only(500),
                },
            ),
            None => match audio_text(answer, "audio_url"@) {
                Some(url) => Err(url),
                None => Ok(web::json_reply(200, answer)),
            },
        },
    }
}

/// What a [`VoiceStep`] is.
pub open spec fn step_view(s: VoiceStep) -> Result<web::ReplyView, Seq<char>> {
    match s {
        VoiceStep::Done(r) => Ok(r@),
        VoiceStep::Fetch(u) => Err(u@),
    }
}

/// What the service's successful answer calls for.
pub fn voice_step(answer: &Json, format: &str) -> (r: VoiceStep)
    ensures
        step_view(r) == step_of(answer@, format@),
{
    match answer.get("base_resp") {
        Some(b) => {
            let code = match b.get("status_code") {
                Some(t) => t.as_i64(),
                None => None,
            };
            match code {
                Some(c) => if c != 0 {
                    return VoiceStep::Done(Reply::text(500, b.str_or("status_msg", "Unknown error")));
                },
                None => {},
            }
        },
        None => {},
    }
    let audio = match answer.get("data") {
        Some(d) => d.get("audio"),
        None => None,
    };
    let hex = match audio {
        Some(a) => a.str_at("data"),
        None => None,
    };
    match hex {
        Some(h) => {
            return VoiceStep::Done(
                match decode_hex(h) {
                    Some(b) => Reply::bytes(200, get_audio_mime_type(format), b),
                    None => Reply::empty(500),
                },
            );
        },
        None => {},
    }
    let url = match audio {
        Some(a) => a.str_at("audio_url"),
        None => None,
    };
    match url {
        Some(u) => VoiceStep::Fetch(u.to_owned()),
        None => VoiceStep::Done(Reply::json(200, answer.copy())),
    }
}

/// The answer once the sound was to be fetched: the sound, or the service's own answer
/// where the place has none.
pub open spec fn fetched(
    answer: json::Tree,
    format: Seq<char>,
    download: Download,
) -> web::ReplyView {
    match download {
        Download::Failed => web::status_only(500),
        Download::Got(s, b) => if web::success(s) {
            match b {
                Some(data) => sound(format, data@),
                None => web::status_only(500),
            }
        } else {
            web::json_reply(200, answer)
        },
    }
}

/// The answer once the sound was to be fetched.
pub fn voice_fetched(answer: &Json, format: &str, download: Download) -> (r: Reply)
    ensures
        r@ == fetched(answer@, format@, download),
{
    match download {
        Download::Failed => Reply::empty(500),
        Download::Got(s, b) => if web::is_success(s) {
            match b {
                Some(data) => Reply::bytes(200, get_audio_mime_type(format), data),
                None => Reply::empty(500),
            }
        } else {
            Reply::json(200, answer.copy())
        },
    }
}

} // verus!
