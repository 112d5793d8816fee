use std::io::Write;
use tavern_backend::anthropic;
use tavern_backend::assets;
use tavern_backend::backends_chat_completions::{cc_generate, AnthropicNames};
use tavern_backend::base64_text::{clean_base64, decode_base64_loose};
use tavern_backend::characters::archive::{
    extract_file_from_zip_buffer, extract_files_from_zip_buffer, normalize_zip_entry_path,
    read_archive,
};
use tavern_backend::characters::byaf_chat::parse_active_timestamp;
use tavern_backend::chat_import::{import_risu_chat, Speakers};
use tavern_backend::content::{
    build_download_response, download_aicc_character, download_chub_lorebook,
    download_generic_png, download_janny_character, download_risu_character, get_host_from_url,
    get_uuid_from_url, import_url, parse_aicc, parse_chub_url, parse_risu_url, perchance_text,
    DownloadResult, FetchedFile, ImportUrlRequest, Source,
};
use tavern_backend::data_maid::sha256_hex;
use tavern_backend::data_maid_tokens::view_reply;
use tavern_backend::google;
use tavern_backend::horde::sanitize_horde_image_prompt;
use tavern_backend::image_metadata::{
    generate_image_metadata, get_dominant_color, image_dimensions, ThumbnailDimensions,
};
use tavern_backend::json::{Double, Fields, Json};
use tavern_backend::sanitize::sanitize_filename_strip;
use tavern_backend::text;
use tavern_backend::web::{Payload, Reply, Upstream};

fn media_type(reply: &Reply) -> &str {
    match &reply.payload {
        Payload::Bytes(t, _) => t,
        _ => "",
    }
}

fn bytes(reply: &Reply) -> &[u8] {
    match &reply.payload {
        Payload::Bytes(_, b) => b,
        _ => &[],
    }
}

fn gzip(text: &str) -> Vec<u8> {
    let mut e = flate2::write::GzEncoder::new(Vec::new(), flate2::Compression::default());
    e.write_all(text.as_bytes()).unwrap();
    e.finish().unwrap()
}

fn zip_of(files: &[(&str, &str)]) -> Vec<u8> {
    let mut w = zip::ZipWriter::new(std::io::Cursor::new(Vec::new()));
    for (name, content) in files {
        w.start_file(*name, zip::write::SimpleFileOptions::default()).unwrap();
        w.write_all(content.as_bytes()).unwrap();
    }
    w.finish().unwrap().into_inner()
}

fn picture(width: u32, height: u32) -> Vec<u8> {
    let img = image::RgbImage::from_pixel(width, height, image::Rgb([255, 0, 16]));
    let mut buf = std::io::Cursor::new(Vec::new());
    image::DynamicImage::ImageRgb8(img).write_to(&mut buf, image::ImageFormat::Png).unwrap();
    buf.into_inner()
}

#[test]
fn file_names_lose_what_is_illegal() {
    assert_eq!(sanitize_filename_strip("a/b:c*d.png"), "abcd.png");
    assert_eq!(sanitize_filename_strip(".."), "");
}

#[test]
fn lower_case_and_white_space_follow_unicode() {
    assert_eq!(text::trim("\u{2003}a b\u{a0}"), "a b");
    let found = tavern_backend::chat_search::query_fragments("  ÄPFEL und ");
    assert_eq!(found, vec!["äpfel".to_string(), "und".to_string()]);
}

#[test]
fn prompts_lose_refused_words() {
    assert_eq!(sanitize_horde_image_prompt("a Minor road"), "a  road");
    assert_eq!(sanitize_horde_image_prompt("a house by the sea"), "a house by the sea");
}

#[test]
fn loose_base64_is_read() {
    assert_eq!(clean_base64("aG Vs\nbG8"), "aGVsbG8=");
    assert_eq!(decode_base64_loose("aGVsbG8="), b"hello");
    assert_eq!(decode_base64_loose("aG Vs\nbG8"), b"hello");
    assert_eq!(decode_base64_loose("_-8="), vec![0xff, 0xef]);
    assert_eq!(decode_base64_loose("a"), Vec::<u8>::new());
    assert_eq!(decode_base64_loose("=AAA"), Vec::<u8>::new());
}

#[test]
fn encoded_bytes_are_read_back() {
    let engine = base64::engine::general_purpose::STANDARD;
    let safe = base64::engine::general_purpose::URL_SAFE_NO_PAD;
    for n in 0..40usize {
        let bytes: Vec<u8> = (0..n).map(|i| (i * 89 + 251 * n) as u8).collect();
        let text = base64::Engine::encode(&engine, &bytes);
        assert_eq!(decode_base64_loose(&text), bytes);
        assert_eq!(decode_base64_loose(text.trim_end_matches('=')), bytes);
        assert_eq!(decode_base64_loose(&base64::Engine::encode(&safe, &bytes)), bytes);
        let strewn: String = text.chars().flat_map(|c| [c, '\n', '*']).collect();
        assert_eq!(decode_base64_loose(&strewn), bytes);
    }
}

fn spoken(data: &str) -> Json {
    let inline = Fields::new().with("data", Json::text(data)).done();
    let part = Fields::new().with("inlineData", inline).done();
    let content = Fields::new().with("parts", Json::one_item(part)).done();
    let candidate = Fields::new().with("content", content).done();
    Fields::new().with("candidates", Json::one_item(candidate)).done()
}

fn tts(rate: Option<u32>) -> google::GenerateNativeTtsRequest {
    google::GenerateNativeTtsRequest {
        text: Some("hi".to_string()),
        model: None,
        voice_name: None,
        sample_rate: rate,
        reverse_proxy: None,
        proxy_password: None,
    }
}

#[test]
fn speech_becomes_a_wav_file() {
    let good = Upstream::Got(200, String::new(), Some(spoken("aGVsbG8=")));
    let reply = google::native_tts_reply(&tts(None), &good).unwrap();
    assert_eq!(media_type(&reply), "audio/wav");
    assert_eq!(bytes(&reply).len(), 49);
    assert_eq!(&bytes(&reply)[0..4], b"RIFF");
    assert_eq!(&bytes(&reply)[4..8], &41u32.to_le_bytes());
    assert_eq!(&bytes(&reply)[24..28], &24000u32.to_le_bytes());
    assert_eq!(&bytes(&reply)[28..32], &48000u32.to_le_bytes());
    assert_eq!(&bytes(&reply)[44..], b"hello");
    let stray = Upstream::Got(200, String::new(), Some(spoken("aGVs bG8=")));
    assert_eq!(google::native_tts_reply(&tts(None), &stray).unwrap().status, 500);
    let failed = Upstream::Failed("gone".to_string());
    assert_eq!(google::native_tts_reply(&tts(None), &failed).unwrap().status, 500);
    assert!(google::native_tts_reply(&tts(Some(u32::MAX)), &good).is_none());
}

#[test]
fn spoken_texts_are_escaped() {
    let body = google::GenerateVoiceRequest { text: Some("a b/ä".to_string()), lang: None };
    assert_eq!(
        google::generate_voice(&body).unwrap().url,
        "https://translate.google.com/translate_tts?ie=UTF-8&q=a%20b%2F%C3%A4&tl=en&client=tw-ob"
    );
}

#[test]
fn hosts_are_found() {
    assert_eq!(get_host_from_url("https://chub.ai/characters/a"), "chub.ai");
    assert_eq!(get_host_from_url("nowhere"), "");
    assert_eq!(assets::get_host_from_url("https://Example.com:80/x"), "example.com");
}

#[test]
fn media_types_are_guessed() {
    assert_eq!(media_type(&assets::character_reply("/tmp/a.png", vec![1])), "image/png");
    assert_eq!(media_type(&view_reply("/x/a.jpg", true, true, Some(vec![1]))), "image/jpeg");
    assert_eq!(media_type(&view_reply("/x/a.zzz", true, true, Some(vec![1]))), "text/plain");
    assert_eq!(view_reply("/x/a.jpg", false, true, Some(vec![1])).status, 403);
}

#[test]
fn archives_are_read() {
    let data = zip_of(&[("a/card.json", "{}"), ("b.txt", "hello")]);
    let entries = read_archive(&data).unwrap();
    assert_eq!(entries.len(), 2);
    assert_eq!(entries[0].name.as_deref(), Some("a/card.json"));
    assert_eq!(extract_file_from_zip_buffer(&data, "b.txt"), Some(b"hello".to_vec()));
    assert_eq!(extract_file_from_zip_buffer(&data, "c.txt"), None);
    assert!(read_archive(b"nothing").is_none());
}

#[test]
fn wanted_entries_are_taken_out() {
    let data = zip_of(&[("x/./a.png", "one"), ("b.png", "two"), ("c.png", "three")]);
    let wanted = vec!["c.png".to_string(), "x/a.png".to_string(), "d.png".to_string()];
    let found = extract_files_from_zip_buffer(&data, &wanted);
    let found: Vec<(&str, &[u8])> =
        found.iter().map(|b| (b.path.as_str(), b.data.as_slice())).collect();
    assert_eq!(found, vec![("x/a.png", &b"one"[..]), ("c.png", &b"three"[..])]);
    assert!(extract_files_from_zip_buffer(b"nothing", &wanted).is_empty());
}

#[test]
fn archive_paths_stay_inside() {
    assert_eq!(normalize_zip_entry_path("../a"), None);
    assert_eq!(normalize_zip_entry_path("a/../b.png"), Some("b.png".to_string()));
    for name in ["/a//./b\\c/", " x/y ", "a/b/../../c", ".hidden/...", "a/ b"] {
        let path = normalize_zip_entry_path(name).unwrap();
        assert!(path.split('/').all(|p| !p.is_empty() && p != "." && p != ".."));
        assert!(!path.contains('\\'));
        assert_eq!(normalize_zip_entry_path(&path), Some(path.clone()));
    }
    for name in ["", " / ", "a/..", "a/../.."] {
        assert_eq!(normalize_zip_entry_path(name), None);
    }
}

#[test]
fn dates_are_read() {
    assert_eq!(parse_active_timestamp(Some(&Json::text("1970-01-01T00:00:01.5Z"))), Some(1500));
    assert_eq!(parse_active_timestamp(Some(&Json::text("some day"))), None);
}

#[test]
fn dates_are_written() {
    let message = Fields::new()
        .with("role", Json::text("user"))
        .with("data", Json::text("hi"))
        .with("time", Json::natural(1500))
        .done();
    let inner = Fields::new().with("message", Json::one_item(message)).done();
    let chat = Fields::new().with("type", Json::text("risuChat")).with("data", inner).done();
    let s = Speakers {
        user: "U".to_string(),
        character: "C".to_string(),
        now: "now".to_string(),
    };
    let lines = import_risu_chat(&s, &chat, 0).unwrap();
    assert_eq!(lines[1].str_at("send_date"), Some("1970-01-01T00:00:01.500+00:00"));
}

#[test]
fn addresses_are_taken_apart() {
    let uuid = "123e4567-e89b-12d3-a456-426614174000";
    assert_eq!(get_uuid_from_url(&format!("https://x.y/{}/z", uuid)), Some(uuid.to_string()));
    assert_eq!(get_uuid_from_url("https://x.y/z"), None);
    let target = parse_chub_url("https://chub.ai/characters/anon/name").unwrap();
    assert!(target.is_character);
    assert_eq!(target.id, "anon/name");
    assert_eq!(
        parse_aicc("https://aicharactercards.com/character-cards/a/b"),
        Some("a/b".to_string())
    );
    assert_eq!(
        parse_risu_url(&format!("https://realm.risuai.net/character/{}", uuid)),
        Some(uuid.to_string())
    );
    let body = ImportUrlRequest { url: Some("https://chub.ai/lorebooks/anon/book".to_string()) };
    match import_url(&body, &Vec::new()) {
        Ok(Source::ChubLorebook(id)) => assert_eq!(id, "lorebooks/anon/book"),
        other => panic!("{:?}", other),
    }
}

#[test]
fn gzipped_texts_are_read() {
    assert_eq!(perchance_text(fetched(200, None, gzip("hello"))).unwrap(), "hello");
    assert!(perchance_text(fetched(404, None, gzip("hello"))).is_err());
    assert!(perchance_text(fetched(200, None, b"hello".to_vec())).is_err());
    assert!(perchance_text(None).is_err());
}

fn fetched(status: u16, media_type: Option<&str>, data: Vec<u8>) -> Option<FetchedFile> {
    Some(FetchedFile {
        status,
        media_type: media_type.map(|s| s.to_string()),
        final_url: "https://example.org/pictures/ann?size=2".to_string(),
        data: Some(data),
    })
}

fn summary(r: Result<DownloadResult, Reply>) -> Result<(String, Option<String>, Vec<u8>), u16> {
    r.map(|d| (d.file_name, d.file_type, d.buffer)).map_err(|e| e.status)
}

#[test]
fn downloads_keep_what_was_sent() {
    let png = || Some("image/png".to_string());
    assert_eq!(
        summary(download_chub_lorebook("lorebooks/anon/my book", fetched(200, None, vec![1]))),
        Ok(("my book.json".to_string(), None, vec![1]))
    );
    assert_eq!(summary(download_chub_lorebook("a/b/c", fetched(404, None, vec![1]))), Err(500));
    assert_eq!(
        summary(download_janny_character("ab", fetched(404, Some("text/html"), vec![2]))),
        Ok(("ab.png".to_string(), Some("text/html".to_string()), vec![2]))
    );
    assert_eq!(
        summary(download_aicc_character("a/b", fetched(200, None, vec![3]))),
        Ok(("ab.png".to_string(), png(), vec![3]))
    );
    assert_eq!(
        summary(download_risu_character("ab", fetched(200, Some("text/html"), vec![4]))),
        Ok(("ab.png".to_string(), png(), vec![4]))
    );
    assert_eq!(summary(download_risu_character("ab", None)), Err(500));
    assert_eq!(
        summary(download_generic_png(fetched(200, None, vec![5]))),
        Ok(("ann.png".to_string(), png(), vec![5]))
    );
    assert_eq!(
        summary(download_generic_png(fetched(200, Some("image/webp"), vec![5]))),
        Ok(("ann".to_string(), Some("image/webp".to_string()), vec![5]))
    );
    assert_eq!(summary(download_generic_png(fetched(500, None, vec![5]))), Err(500));
}

#[test]
fn downloads_are_named_in_a_header() {
    let result = DownloadResult {
        buffer: vec![1],
        file_name: "a b.png".to_string(),
        file_type: None,
    };
    let reply = build_download_response(result, "character", true);
    assert!(reply.headers.iter().any(|h| h.value.contains("a%20b.png")));
}

#[test]
fn digests_are_hexadecimal() {
    assert_eq!(
        sha256_hex("abc"),
        "ba7816bf8f01cfea414140de5dae2223b00361a396177a9cb410ff61f20015ad"
    );
}

fn names() -> AnthropicNames {
    AnthropicNames { source: "own".to_string(), model: "model-1".to_string() }
}

fn order(source: &str, password: &str) -> Json {
    Fields::new()
        .with("chat_completion_source", Json::text(source))
        .with("reverse_proxy", Json::text("https://proxy/v1/"))
        .with("proxy_password", Json::text(password))
        .with("messages", Json::no_items())
        .done()
}

#[test]
fn keys_have_to_fit_into_a_header() {
    let table = Vec::new();
    assert!(cc_generate(&names(), None, &order("openai", "key"), &table).is_ok());
    assert!(cc_generate(&names(), None, &order("openai", "ke\ny"), &table).is_err());
}

#[test]
fn the_named_service_gets_an_order_of_its_own() {
    let table = Vec::new();
    let sent = cc_generate(&names(), None, &order("own", "key"), &table).unwrap();
    assert_eq!(sent.url, "https://proxy/v1/messages");
    match &sent.payload {
        Payload::Json(j) => assert_eq!(j.str_at("model"), Some("model-1")),
        other => panic!("{:?}", other),
    }
    let body = anthropic::CaptionImageRequest {
        image: Some("data:image/gif;base64,AAAA".to_string()),
        prompt: None,
        model: None,
        reverse_proxy: Some("https://proxy/".to_string()),
        proxy_password: Some("key".to_string()),
    };
    let asked = anthropic::caption_image(None, &body, "model-2").unwrap();
    assert_eq!(asked.url, "https://proxy/messages");
    match &asked.payload {
        Payload::Json(j) => assert_eq!(j.str_at("model"), Some("model-2")),
        other => panic!("{:?}", other),
    }
}

#[test]
fn pictures_are_measured() {
    let data = picture(4, 2);
    assert_eq!(image_dimensions(&data), Some((4, 2)));
    assert_eq!(image_dimensions(b"no picture"), None);
    assert_eq!(get_dominant_color(&data, false), "#ff0010");
    assert_eq!(get_dominant_color(&data, true), "#808080");
    assert_eq!(get_dominant_color(b"no picture", false), "#808080");
    let sizes = ThumbnailDimensions { bg: (160, 90), avatar: (96, 144), persona: (96, 144) };
    let ratio = || Double { bits: (2.0f64).to_bits(), text: "2.0".to_string() };
    let known = generate_image_metadata(&data, ratio(), 7, &sizes, "bg").unwrap();
    assert_eq!(known.thumbnail_resolution, 14400);
    assert!(!known.is_animated);
    assert_eq!(known.hash.len(), 64);
    assert_eq!(
        generate_image_metadata(b"no picture", ratio(), 7, &sizes, "bg").unwrap_err(),
        "Could not determine image dimensions."
    );
}
