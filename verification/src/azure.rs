//! Speech by Azure.

use crate::json;
use crate::json::Json;
use crate::secrets;
use crate::text;
use crate::web;
use crate::web::{Method, Outgoing, Reply};
use vstd::prelude::*;

verus! {

/// The name of the secret.
pub const SECRET_AZURE_TTS: &'static str = "api_key_azure_tts";

/// Asks for the voices of a region.
#[derive(Debug)]
pub struct AzureListRequest {
    pub region: Option<String>,
}

/// Asks for a text to be spoken.
#[derive(Debug)]
pub struct AzureGenerateRequest {
    pub text: Option<String>,
    pub region: Option<String>,
}

/// The request that lists the voices of a region, or the refusal: without a key the client
/// is not authorised, without a region its request is bad.
pub open spec fn listing(
    secrets: Option<json::Tree>,
    region: Option<Seq<char>>,
) -> Result<web::OutgoingView, web::ReplyView> {
    match secrets::filled_secret(secrets, SECRET_AZURE_TTS@) {
        Some(key) => match secrets::filled(region) {
            Some(place) => Ok(
                web::bare(
                    Method::Get,
                    "https://"@ + place
                        + ".tts.speech.microsoft.com/cognitiveservices/voices/list"@,
                ).with_header("Ocp-Apim-Subscription-Key"@, key),
            ),
            None => Err(web::status_only(400)),
        },
        None => Err(web::status_only(401)),
    }
}

/// The request that lists the voices of a region. Its answer is passed on by
/// [`web::relay`].
pub fn list_voices(secrets: Option<&Json>, body: &AzureListRequest) -> (r: Result<Outgoing, Reply>)
    ensures
        web::outcome(r) == listing(json::tree_opt(secrets), json::string_opt(body.region)),
{
    let secret = secrets::read_secret(secrets, SECRET_AZURE_TTS);
    let key = match secrets::non_empty(&secret) {
        Some(k) => k,
        None => return Err(Reply::empty(401)),
    };
    let region = match secrets::non_empty(&body.region) {
        Some(p) => p,
        None => return Err(Reply::empty(400)),
    };
    let url = text::join3(
        "https://",
        region,
        ".tts.speech.microsoft.com/cognitiveservices/voices/list",
    );
    Ok(Outgoing::new(Method::Get, url).header("Ocp-Apim-Subscription-Key", key))
}

/// The request that has a text spoken, or the refusal.
pub open spec fn speaking(
    secrets: Option<json::Tree>,
    words: Option<Seq<char>>,
    region: Option<Seq<char>>,
) -> Result<web::OutgoingView, web::ReplyView> {
    match secrets::filled_secret(secrets, SECRET_AZURE_TTS@) {
        Some(key) => match (secrets::filled(region), secrets::filled(words)) {
            (Some(place), Some(words)) => Ok(
                web::bare(
                    Method::Post,
                    "https://"@ + place + ".tts.speech.microsoft.com/cognitiveservices/v1"@,
                ).with_header("Ocp-Apim-Subscription-Key"@, key).with_header(
                    "Content-Type"@,
                    "application/ssml+xml"@,
                ).with_header(
                    "X-Microsoft-OutputFormat"@,
                    "audio-16khz-128kbitrate-mono-mp3"@,
                ).with_text(words),
            ),
            _ => Err(web::status_only(400)),
        },
        None => Err(web::status_only(401)),
    }
}

/// The request that has a text spoken. The sound is passed on by [`web::relay_bytes`] as
/// `audio/mpeg`.
pub fn generate_voice(secrets: Option<&Json>, body: &AzureGenerateRequest) -> (r: Result<
    Outgoing,
    Reply,
>)
    ensures
        web::outcome(r) == speaking(
            json::tree_opt(secrets),
            json::string_opt(body.text),
            json::string_opt(body.region),
        ),
{
    let secret = secrets::read_secret(secrets, SECRET_AZURE_TTS);
    let key = match secrets::non_empty(&secret) {
        Some(k) => k,
        None => return Err(Reply::empty(401)),
    };
    let region = match secrets::non_empty(&body.region) {
        Some(p) => p,
        None => return Err(Reply::empty(400)),
    };
    let words = match secrets::non_empty(&body.text) {
        Some(t) => t,
        None => return Err(Reply::empty(400)),
    };
    let url = text::join3(
        "https://",
        region,
        ".tts.speech.microsoft.com/cognitiveservices/v1",
    );
    Ok(
        Outgoing::new(Method::Post, url)
            .header("Ocp-Apim-Subscription-Key", key)
            .header("Content-Type", "application/ssml+xml")
            .header("X-Microsoft-OutputFormat", "audio-16khz-128kbitrate-mono-mp3")
            .text(words),
    )
}

} // verus!
