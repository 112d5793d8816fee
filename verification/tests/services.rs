use tavern_backend::backends_chat_completions as cc;
use tavern_backend::backends_kobold as kobold;
use tavern_backend::backends_text_completions as tc;
use tavern_backend::backups;
use tavern_backend::chat_import::{
    import_agnai_chat, import_cai_chat, import_kobold_lite_chat, import_ooba_chat, Speakers,
};
use tavern_backend::chats;
use tavern_backend::extensions;
use tavern_backend::files;
use tavern_backend::google;
use tavern_backend::horde;
use tavern_backend::json::{Fields, Json};
use tavern_backend::minimax;
use tavern_backend::secrets::read_secret;
use tavern_backend::web;
use tavern_backend::web::{Download, Method, Outgoing, Payload, Reply, Upstream};

fn text(s: &str) -> Option<String> {
    Some(s.to_string())
}

fn body(reply: &Reply) -> &Json {
    match &reply.payload {
        Payload::Json(j) => j,
        _ => panic!("no JSON"),
    }
}

fn sent(q: &Outgoing) -> &Json {
    match &q.payload {
        Payload::Json(j) => j,
        _ => panic!("no JSON"),
    }
}

fn header<'a>(q: &'a Outgoing, name: &str) -> Option<&'a str> {
    q.headers.iter().find(|h| h.name == name).map(|h| h.value.as_str())
}

fn got(j: Json) -> Upstream {
    Upstream::Got(200, String::new(), Some(j))
}

fn items(v: Vec<Json>) -> Json {
    Json::array(v)
}

#[test]
fn the_active_secret_is_read() {
    let item = |v: &str, active: bool| {
        Fields::new().with("value", Json::text(v)).with("active", Json::Bool(active)).done()
    };
    let kept = Fields::new()
        .with("a", items(vec![item("one", false), item("two", true)]))
        .with("b", items(vec![item("one", false), item("two", false)]))
        .with("c", Json::text("plain"))
        .with("d", Json::natural(1))
        .done();
    assert_eq!(read_secret(Some(&kept), "a"), text("two"));
    assert_eq!(read_secret(Some(&kept), "b"), text("one"));
    assert_eq!(read_secret(Some(&kept), "c"), text("plain"));
    assert_eq!(read_secret(Some(&kept), "d"), None);
    assert_eq!(read_secret(None, "a"), None);
}

#[test]
fn answers_are_passed_on() {
    assert_eq!(web::relay(got(Json::Null)).status, 200);
    assert_eq!(web::relay(Upstream::Got(404, String::new(), None)).status, 500);
    let refused = web::relay_with_error(Upstream::Got(429, "slow".to_string(), None));
    assert_eq!(refused.status, 429);
    assert!(matches!(&refused.payload, Payload::Text(t) if t == "slow"));
    assert_eq!(web::relay_bytes(Download::Failed, "audio/mpeg").status, 500);
    let sound = web::relay_bytes(Download::Got(200, Some(vec![1])), "audio/mpeg");
    assert!(matches!(&sound.payload, Payload::Bytes(t, b) if t == "audio/mpeg" && b.len() == 1));
}

fn voice() -> minimax::MinimaxGenerateVoiceRequest {
    minimax::MinimaxGenerateVoiceRequest {
        text: text("hi"),
        voice_id: None,
        speed: None,
        vol: None,
        pitch: None,
        audio_sample_rate: None,
        bitrate: None,
        model: None,
        format: text("wav"),
        language_boost: None,
    }
}

#[test]
fn minimax_speaks() {
    assert_eq!(minimax::generate_voice(None, &voice()).unwrap_err().status, 400);
    let kept = Fields::new()
        .with("api_key_minimax", Json::text("k"))
        .with("minimax_group_id", Json::text("g"))
        .done();
    let q = minimax::generate_voice(Some(&kept), &voice()).unwrap();
    assert!(q.url.starts_with("https://api.minimax.chat/v1/t2a_v2?GroupId="));
    assert_eq!(header(&q, "Authorization"), Some("Bearer k"));
    assert_eq!(sent(&q).str_at("model"), Some("speech-01-turbo"));
    let mut silent = voice();
    silent.text = None;
    let no = minimax::generate_voice(Some(&kept), &silent).unwrap_err();
    assert_eq!(body(&no).str_at("error"), Some("No text"));
}

fn audio(key: &str, value: &str) -> Json {
    let inner = Fields::new().with(key, Json::text(value)).done();
    let data = Fields::new().with("audio", inner).done();
    Fields::new().with("data", data).done()
}

#[test]
fn minimax_answers_in_three_ways() {
    match minimax::voice_step(&audio("data", "00fF"), "wav") {
        minimax::VoiceStep::Done(r) => {
            assert!(matches!(&r.payload, Payload::Bytes(t, b) if t == "audio/wav" && b[..] == [0, 255]))
        }
        minimax::VoiceStep::Fetch(_) => panic!("no address"),
    }
    match minimax::voice_step(&audio("audio_url", "https://x"), "wav") {
        minimax::VoiceStep::Fetch(u) => assert_eq!(u, "https://x"),
        minimax::VoiceStep::Done(_) => panic!("an address"),
    }
    let resp = Fields::new()
        .with("status_code", Json::natural(1))
        .with("status_msg", Json::text("no"))
        .done();
    match minimax::voice_step(&Fields::new().with("base_resp", resp).done(), "wav") {
        minimax::VoiceStep::Done(r) => assert_eq!(r.status, 500),
        minimax::VoiceStep::Fetch(_) => panic!("an error"),
    }
    for hex in ["000", "0g", "\u{e9}", "0\u{e9}0"] {
        match minimax::voice_step(&audio("data", hex), "wav") {
            minimax::VoiceStep::Done(r) => assert_eq!(r.status, 500),
            minimax::VoiceStep::Fetch(_) => panic!("no address"),
        }
    }
    assert_eq!(minimax::decode_hex("+f10"), Some(vec![15, 16]));
    assert_eq!(minimax::decode_hex(""), Some(Vec::new()));
    assert_eq!(minimax::get_audio_mime_type("pcm"), "audio/x-pcm");
    assert_eq!(minimax::get_audio_mime_type("?"), "audio/mpeg");
}

#[test]
fn text_completions_know_their_servers() {
    let ask = |server: Option<&str>, kind: &str| tc::StatusRequest {
        api_server: server.map(|s| s.to_string()),
        api_type: text(kind),
        legacy_api: None,
    };
    assert_eq!(tc::tc_status(None, &ask(None, "tabby")).unwrap_err().status, 400);
    assert_eq!(
        tc::tc_status(None, &ask(Some("http://s//"), "tabby")).unwrap().url,
        "http://s/v1/model/list"
    );
    assert_eq!(
        tc::tc_status(None, &ask(Some("http://s"), "openrouter")).unwrap().url,
        "https://openrouter.ai/api/v1/models"
    );
    let order = Fields::new()
        .with("api_server", Json::text("http://s/"))
        .with("api_type", Json::text("llamacpp"))
        .with("prompt", Json::text("p"))
        .done();
    let q = tc::tc_generate(None, &order).unwrap();
    assert_eq!(q.url, "http://s/completion");
    assert!(sent(&q).get("api_server").is_none());
    assert!(sent(&q).get("api_type").is_none());
    assert_eq!(sent(&q).str_at("prompt"), Some("p"));
    assert!(header(&q, "Authorization").is_none());
    let none = Upstream::Failed("x".to_string());
    assert_eq!(body(&tc::props_reply(none)).fields().len(), 0);
}

#[test]
fn kobold_is_asked_twice() {
    let failed = || Upstream::Got(503, "busy".to_string(), None);
    let left = kobold::GENERATE_TRIES - 1;
    let left = match kobold::generate_next(failed(), left) {
        horde::PollStep::Again(n) => n,
        horde::PollStep::Done(_) => panic!("once more"),
    };
    match kobold::generate_next(failed(), left) {
        horde::PollStep::Done(r) => {
            assert_eq!(r.status, 503);
            assert!(matches!(&r.payload, Payload::Text(t) if t == "busy"));
        }
        horde::PollStep::Again(_) => panic!("no more"),
    }
    match kobold::generate_next(Upstream::Got(200, String::new(), Some(Json::natural(1))), 1) {
        horde::PollStep::Done(r) => assert_eq!(body(&r).as_u64(), Some(1)),
        horde::PollStep::Again(_) => panic!("a text"),
    }
}

#[test]
fn kobold_wants_a_server() {
    assert_eq!(kobold::generate(None, &Json::no_members()).unwrap_err().status, 400);
    let embed = kobold::KoboldEmbedRequest { api_server: None, text: None };
    assert!(kobold::embed(None, &embed).is_err());
}

fn names() -> cc::AnthropicNames {
    cc::AnthropicNames { source: "own".to_string(), model: "model-1".to_string() }
}

#[test]
fn chat_services_have_secrets_and_addresses() {
    assert_eq!(cc::get_secret_for_source("openai", &names()), "api_key_openai");
    assert_eq!(cc::get_secret_for_source("google", &names()), "api_key_makersuite");
    assert_eq!(cc::get_secret_for_source("own", &names()), "api_key_claude");
    assert_eq!(cc::get_secret_for_source("?", &names()), "api_key_custom");
    let order = Fields::new().with("chat_completion_source", Json::text("openai")).done();
    let table = Vec::new();
    let no_key = cc::cc_generate(&names(), None, &order, &table).unwrap_err();
    assert_eq!(body(&no_key).bool_at("error"), Some(true));
    let custom = Fields::new().with("chat_completion_source", Json::text("custom")).done();
    let no_url = cc::cc_generate(&names(), None, &custom, &table).unwrap_err();
    assert_eq!(body(&no_url).str_at("error"), Some("No API URL"));
}

#[test]
fn google_draws_and_films() {
    let image = google::GenerateImageRequest {
        prompt: text("p"),
        negative_prompt: text("n"),
        model: None,
        width: None,
        height: None,
        count: Some(2),
        aspect_ratio: None,
        reverse_proxy: text("http://p/"),
        proxy_password: text("k"),
    };
    let q = google::generate_image(None, &image).unwrap();
    assert_eq!(q.url, "http://p/v1beta/models/imagen-3.0-generate-001:predict");
    let parameters = sent(&q).get("parameters").unwrap();
    assert_eq!(parameters.get("sampleCount").unwrap().as_u64(), Some(2));
    assert_eq!(parameters.str_at("negativePrompt"), Some("n"));
    let kept = Fields::new().with("api_key_makersuite", Json::text("k")).done();
    let video = google::GenerateVideoRequest {
        prompt: text("p"),
        model: None,
        image: None,
        aspect_ratio: None,
        reverse_proxy: None,
        proxy_password: None,
    };
    assert_eq!(google::generate_video(None, &video).unwrap_err().status, 400);
    let q = google::generate_video(Some(&kept), &video).unwrap();
    assert!(q.url.ends_with(":predictLongRunning?key=k"));
    let named = Fields::new().with("name", Json::text("op")).done();
    let poll = google::video_submitted(Some(&kept), &video, &got(named)).unwrap();
    assert_eq!(poll.url, "https://generativelanguage.googleapis.com/v1beta/op?key=k");
    assert_eq!(
        google::video_submitted(Some(&kept), &video, &got(Json::no_members())).unwrap_err().status,
        200
    );
    assert_eq!(body(&google::list_voices()).as_array().unwrap().len(), 92);
    assert_eq!(body(&google::list_native_voices()).as_array().unwrap().len(), 30);
}

#[test]
fn horde_orders_are_followed() {
    assert_eq!(horde::text_workers().method, Method::Get);
    let none = horde::CancelTaskRequest { task_id: None };
    assert!(horde::cancel_task(&none).is_err());
    let id = Fields::new().with("id", Json::text("7")).done();
    assert!(horde::image_submitted(&got(id)).unwrap().url.ends_with("/generate/status/7"));
    let faulted = Fields::new().with("faulted", Json::Bool(true)).done();
    match horde::image_next(Some(&faulted), 3) {
        horde::PollStep::Done(r) => assert_eq!(r.status, 500),
        horde::PollStep::Again(_) => panic!("it failed"),
    }
    match horde::caption_next(None, 0) {
        horde::PollStep::Done(r) => assert_eq!(r.status, 408),
        horde::PollStep::Again(_) => panic!("too late"),
    }
}

#[test]
fn backups_are_told_by_their_prefix() {
    let ask = |n: Option<&str>| backups::ChatBackupRequest { name: n.map(|s| s.to_string()) };
    assert!(backups::find_chat_backup(&ask(None), "/b", "chat_").is_err());
    assert!(backups::find_chat_backup(&ask(Some("settings_1")), "/b", "chat_").is_err());
    let found = backups::find_chat_backup(&ask(Some("chat_a\".jsonl")), "/b", "chat_").unwrap();
    assert_eq!(found.path, "/b/chat_a.jsonl");
    let names = vec!["chat_1.jsonl".to_string(), "chat_1.txt".to_string(), "x.jsonl".to_string()];
    assert_eq!(backups::get_chat_backups(&names, "chat_"), vec!["chat_1.jsonl".to_string()]);
    assert_eq!(backups::delete_chat_backup(false, false).status, 404);
    assert_eq!(backups::delete_chat_backup(true, false).status, 500);
    assert_eq!(backups::delete_chat_backup(true, true).status, 200);
}

#[test]
fn extensions_are_named_after_their_address() {
    let ask = |url: &str, global: bool| extensions::InstallRequest {
        url: text(url),
        global: Some(global),
        branch: None,
    };
    assert_eq!(extensions::install_extension(&ask("", false), true).unwrap_err().status, 400);
    assert_eq!(extensions::install_extension(&ask("x", true), false).unwrap_err().status, 403);
    let plan = extensions::install_extension(&ask("https://h/u/Ext.git/", false), false).unwrap();
    assert_eq!(plan.name, "Ext");
    assert_eq!(
        extensions::git_clone("u", "d", Some("b")),
        vec!["clone", "--depth", "1", "--branch", "b", "u", "d"]
    );
    assert_eq!(extensions::install_conflict("/x").status, 409);
}

fn answers(count: &str) -> extensions::RepoAnswers {
    let remotes = "origin\thttps://h/u (fetch)\norigin\thttps://h/u (push)";
    extensions::RepoAnswers {
        fetched: Ok(String::new()),
        branch: Ok("main".to_string()),
        commit: Ok("0123".to_string()),
        remotes: Ok(remotes.to_string()),
        count: Ok(count.to_string()),
    }
}

#[test]
fn repositories_are_looked_at() {
    let state = extensions::check_if_repo_is_up_to_date(&answers("3")).unwrap();
    assert!(!state.is_up_to_date);
    assert_eq!(state.remote_url, "https://h/u");
    for count in ["0", "none", "-1"] {
        let state = extensions::check_if_repo_is_up_to_date(&answers(count)).unwrap();
        assert!(state.is_up_to_date);
        assert_eq!(state.remote_url, "https://h/u");
    }
    let mut uncounted = answers("3");
    uncounted.count = Err("no".to_string());
    assert!(extensions::check_if_repo_is_up_to_date(&uncounted).unwrap().is_up_to_date);
    for remotes in [Ok(String::new()), Err("no".to_string())] {
        let mut alone = answers("3");
        alone.remotes = remotes;
        let state = extensions::check_if_repo_is_up_to_date(&alone).unwrap();
        assert!(state.is_up_to_date);
        assert_eq!(state.remote_url, "");
    }
    let mut pushed = answers("3");
    pushed.remotes = Ok("origin\thttps://h/u (push)".to_string());
    assert_eq!(extensions::check_if_repo_is_up_to_date(&pushed).unwrap().remote_url, "");
}

#[test]
fn git_has_to_know_the_repository() {
    let fault = |a: &extensions::RepoAnswers| extensions::check_if_repo_is_up_to_date(a).unwrap_err();
    let mut a = answers("0");
    a.commit = Err("c".to_string());
    assert_eq!(fault(&a), "c");
    a.branch = Err("b".to_string());
    assert_eq!(fault(&a), "b");
    a.fetched = Err("f".to_string());
    assert_eq!(fault(&a), "f");
}

#[test]
fn moved_extensions_leave_once_they_are_copied() {
    let done = extensions::move_reply(true);
    assert!(done.remove_source);
    assert_eq!(done.reply.status, 204);
    let failed = extensions::move_reply(false);
    assert!(!failed.remove_source);
    assert_eq!(failed.reply.status, 500);
}

#[test]
fn hashes_are_shortened() {
    let state = extensions::RepoState { is_up_to_date: true, remote_url: String::new() };
    let short = |hash: &str| match extensions::update_extension("/x", &state, hash).payload {
        Payload::Json(j) => j.str_at("shortCommitHash").unwrap().to_string(),
        other => panic!("{:?}", other),
    };
    assert_eq!(short("0123456789abcdef"), "0123456");
    assert_eq!(short("0123"), "0123");
    assert_eq!(short("\u{e9}23456789"), "\u{e9}23456");
}

#[test]
fn git_says_what_went_wrong() {
    let args = vec!["fetch".to_string(), "origin".to_string()];
    let ended = |ok: bool| {
        extensions::GitRun::Ended(ok, " out\n".to_string(), "fatal: no\n".to_string())
    };
    let missing = extensions::GitRun::NotStarted("no such file".to_string());
    assert_eq!(extensions::git_in_dir(&args, &ended(true)), Ok("out".to_string()));
    assert_eq!(
        extensions::git_in_dir(&args, &ended(false)),
        Err("git fetch origin: fatal: no".to_string())
    );
    assert_eq!(
        extensions::git_in_dir(&args, &missing),
        Err("Failed to run git: no such file".to_string())
    );
    assert!(extensions::clone_error(&ended(true)).is_none());
    let said = |r: Option<Reply>| match r.map(|x| (x.status, x.payload)) {
        Some((500, Payload::Text(t))) => t,
        other => panic!("{:?}", other),
    };
    assert_eq!(
        said(extensions::clone_error(&ended(false))),
        "Server Error: git clone failed: fatal: no"
    );
    assert_eq!(
        said(extensions::clone_error(&missing)),
        "Server Error: Failed to run git clone: no such file"
    );
    let read = |m| said(extensions::get_manifest("/x/m.json", m).err());
    assert_eq!(
        read(extensions::ManifestRead::Missing),
        "Server Error: Manifest file not found at /x/m.json"
    );
    assert_eq!(
        read(extensions::ManifestRead::Unreadable("e".to_string())),
        "Server Error: Failed to read manifest: e"
    );
    assert_eq!(
        read(extensions::ManifestRead::Malformed("e".to_string())),
        "Server Error: Failed to parse manifest: e"
    );
    let found = extensions::ManifestRead::Found(Json::text("m"));
    assert_eq!(extensions::get_manifest("/x", found).unwrap().as_str(), Some("m"));
}

#[test]
fn chats_are_kept_by_character() {
    let ask = |avatar: &str, file: &str, chat: Option<Vec<Json>>| chats::SaveChatRequest {
        avatar_url: text(avatar),
        file_name: text(file),
        chat,
        force: None,
    };
    assert!(chats::save_chat(&ask("", "f", Some(Vec::new()))).is_err());
    assert!(chats::save_chat(&ask("a/b.png", "f", Some(Vec::new()))).is_err());
    assert!(chats::save_chat(&ask("a.png", "", Some(Vec::new()))).is_err());
    let no_chat = chats::save_chat(&ask("a.png", "f", None)).unwrap_err();
    assert_eq!(
        body(&no_chat).str_at("error"),
        Some("The request's body.chat is not an array.")
    );
    let place = chats::save_chat(&ask("a.png", "f:1", Some(Vec::new()))).unwrap();
    assert_eq!(place.folder, text("a"));
    assert_eq!(place.file, "f1.jsonl");
    assert_eq!(chats::try_save_chat(false, false).status, 400);
    assert_eq!(chats::try_save_chat(true, false).status, 500);
    assert_eq!(chats::try_save_chat(true, true).status, 200);
    assert_eq!(chats::group_delete_chat(false).status, 400);
    assert_eq!(body(&chats::group_delete_chat(true)).bool_at("ok"), Some(true));
}

fn speakers() -> Speakers {
    Speakers { user: "U".to_string(), character: "C".to_string(), now: "now".to_string() }
}

#[test]
fn foreign_chats_are_brought_in() {
    let pair = items(vec![Json::text("hi"), Json::text("")]);
    let ooba = Fields::new().with("data_visible", items(vec![pair])).done();
    let lines = import_ooba_chat(&speakers(), &ooba).unwrap();
    assert_eq!(lines.len(), 2);
    assert_eq!(lines[1].str_at("name"), Some("U"));
    assert_eq!(lines[1].str_at("send_date"), Some("now"));
    assert!(import_ooba_chat(&speakers(), &Json::no_members()).is_none());
    let message = Fields::new().with("msg", Json::text("yo")).done();
    let agnai = Fields::new().with("messages", items(vec![message])).done();
    let lines = import_agnai_chat(&speakers(), &agnai).unwrap();
    assert_eq!(lines[1].str_at("name"), Some("C"));
    assert_eq!(lines[1].bool_at("is_user"), Some(false));
    let histories = Fields::new().with("histories", items(vec![Json::no_members()])).done();
    let cai = Fields::new().with("histories", histories).done();
    let all = import_cai_chat(&speakers(), &cai).unwrap();
    assert_eq!(all.len(), 1);
    assert_eq!(all[0].len(), 1);
    let settings = Fields::new()
        .with("chatname", Json::text("Me"))
        .with("chatopponent", Json::text("Bot||$||Other"))
        .done();
    let lite = Fields::new()
        .with("savedsettings", settings)
        .with("prompt", Json::text("{{[INPUT]}} a "))
        .with("actions", items(vec![Json::text("{{[OUTPUT]}}b")]))
        .done();
    let lines = import_kobold_lite_chat(&lite, "now").unwrap();
    assert_eq!(lines[1].str_at("name"), Some("Me"));
    assert_eq!(lines[1].str_at("mes"), Some("a"));
    assert_eq!(lines[2].str_at("name"), Some("Bot"));
}

#[test]
fn files_stay_in_their_directory() {
    let gone = |p: &str| files::DeleteFileRequest { path: p.to_string() };
    assert!(files::delete_file(&gone(""), "/u", "/u/user/files").is_err());
    assert!(files::delete_file(&gone("characters/a"), "/u", "/u/user/files").is_err());
    for out in ["user/files/../../settings.json", "user/files/a/../../b", "user/files2/a"] {
        let refused = files::delete_file(&gone(out), "/u", "/u/user/files").unwrap_err();
        assert_eq!(refused.status, 400);
    }
    assert!(files::delete_file(&gone("user/files/a/../b"), "/u", "/u/user/files").is_ok());
    assert_eq!(
        files::delete_file(&gone("user/files/a"), "/u", "/u/user/files").unwrap(),
        "/u/user/files/a"
    );
    let urls = files::VerifyFilesRequest {
        urls: vec![
            "user/files/a".to_string(),
            "other/b".to_string(),
            "user/files/../b".to_string(),
        ],
    };
    let targets = files::verify_targets(&urls, "/u", "/u/user/files");
    assert_eq!(targets.len(), 1);
    let reply = files::verify_files(&targets, &vec![true]);
    assert_eq!(body(&reply).bool_at("user/files/a"), Some(true));
}
