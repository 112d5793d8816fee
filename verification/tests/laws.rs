use tavern_backend::avatars::{clamp_region, kept_picture, Region};
use tavern_backend::characters::byaf::format_alternate_greetings;
use tavern_backend::characters::byaf_chat::newest_index;
use tavern_backend::characters::helpers::{
    deep_merge, read_image_source, set_nested_value, unset_private_fields, CharacterForm,
    EditAttributeRequest,
};
use tavern_backend::characters::reads::{
    chats_directory, process_character, requested_chats, CharacterChatsRequest, CharacterFile,
};
use tavern_backend::characters::writes::{avatar_name, edit_character_attribute, target_file};
use tavern_backend::chat_import::flatten_line;
use tavern_backend::chat_search::{recent_chats, RecentChatRequest, RecentFile};
use tavern_backend::chats::{
    chat_folder, delete_chat, save_chat, DeleteChatRequest, SaveChatRequest,
};
use tavern_backend::data_maid::{
    is_path_under_parent, keep_loose, metadata_of_chat, sha256_hex, DataMaidService, RawReport,
    TokenRequest, ViewQuery,
};
use tavern_backend::data_maid_tokens::{token_text, TokenStore};
use tavern_backend::extensions::discover_extensions;
use tavern_backend::global::{compute_version_info, ping_handler, version_handler, VersionSources};
use tavern_backend::google::{create_wav_header, video_next};
use tavern_backend::groups::{
    create_group, get_all_groups, group_chat_files, GroupChatFile, GroupFile,
};
use tavern_backend::horde::{image_next, PollStep};
use tavern_backend::image_metadata::{
    cleanup_image_metadata, cleanup_orphaned_metadata, get_all_image_metadata,
    get_image_metadata, get_or_generate_metadata_batch, handle_multi_paths, is_animated_apng,
    is_animated_webp, single_check, single_reply, to_posix_path, EntryCheck,
    GetAllMetadataRequest, GetMetadataRequest, ImageFile, ImageMetadata, MetadataIndex,
    MetadataPlan, RequestedPath,
};
use tavern_backend::images::{
    delete_check, delete_image, deletion_reply, list_images, list_images_with_folder,
    listing_reply, upload_image, DeleteImageRequest, ListImagesRequest, UploadImageRequest,
};
use tavern_backend::json::{Double, Fields, Json};
use tavern_backend::naming::first_free;
use tavern_backend::paths;
use tavern_backend::text::{is_white, trim};
use tavern_backend::web::{Payload, Reply};

fn body(reply: &Reply) -> &Json {
    match &reply.payload {
        Payload::Json(j) => j,
        _ => panic!("no JSON"),
    }
}

fn texts(v: &[&str]) -> Vec<String> {
    v.iter().map(|s| s.to_string()).collect()
}

#[test]
fn what_is_put_is_found() {
    let mut f = Fields::new().with("a", Json::natural(1)).with("b", Json::natural(2));
    f.insert("a", Json::natural(3));
    assert_eq!(f.len(), 2);
    assert_eq!(f.get("a").unwrap().as_u64(), Some(3));
    f.remove("a");
    assert!(f.get("a").is_none());
    assert_eq!(f.get("b").unwrap().as_u64(), Some(2));
}

#[test]
fn nested_values_read_back() {
    let mut j = Json::no_members();
    set_nested_value(&mut j, &["data", "extensions", "fav"], Json::Bool(true));
    assert_eq!(j.get("data").unwrap().get("extensions").unwrap().bool_at("fav"), Some(true));
}

#[test]
fn merging_nothing_changes_nothing() {
    let t = Fields::new().with("a", Json::text("x")).done();
    let merged = deep_merge(&t, &Json::no_members());
    assert_eq!(merged.str_at("a"), Some("x"));
    assert_eq!(merged.fields().len(), 1);
}

#[test]
fn merging_again_changes_nothing() {
    let inner = |v: u64| Fields::new().with("x", Json::natural(v)).done();
    let t = Fields::new().with("a", Json::text("x")).with("b", inner(1)).done();
    let s = Fields::new().with("b", inner(2)).with("c", Json::Bool(true)).done();
    let once = deep_merge(&t, &s);
    assert_eq!(format!("{:?}", deep_merge(&once, &s)), format!("{:?}", once));
    assert_eq!(format!("{:?}", deep_merge(&t, &t)), format!("{:?}", t));
    let fields = once.fields();
    assert_eq!(fields.len(), 3);
    for k in ["a", "b", "c"] {
        assert!(fields.get(k).is_some());
    }
    assert_eq!(once.get("b").unwrap().get("x").unwrap().as_u64(), Some(2));
}

#[test]
fn what_is_private_is_taken_out() {
    let mut card = Fields::new()
        .with("fav", Json::Bool(true))
        .with("chat", Json::text("mine"))
        .with("data", Json::no_members())
        .done();
    unset_private_fields(&mut card);
    assert_eq!(card.bool_at("fav"), Some(false));
    assert!(card.get("chat").is_none());
}

#[test]
fn the_size_of_the_data_is_kept() {
    let data = Fields::new().with("name", Json::text("abc")).done();
    let card = Fields::new().with("data", data).done();
    let file = CharacterFile {
        name: "a.png".to_string(),
        json_data: "{}".to_string(),
        date_added: Json::natural(0),
        date_added_text: String::new(),
        chat_size: 0,
        date_last_chat: Json::natural(0),
    };
    assert_eq!(process_character(&card, &file).get("data_size").unwrap().as_u64(), Some(3));
}

#[test]
fn an_edited_attribute_reads_back() {
    let card = Fields::new()
        .with("name", Json::text("A"))
        .with("data", Fields::new().with("name", Json::text("A")).done())
        .done();
    let edit = EditAttributeRequest {
        avatar_url: "a.png".to_string(),
        ch_name: Some("A".to_string()),
        field: "name".to_string(),
        value: Json::text("B"),
    };
    let after = edit_character_attribute(Some(&card), &edit).unwrap();
    assert_eq!(after.str_at("name"), Some("B"));
    assert_eq!(after.get("data").unwrap().str_at("name"), Some("B"));
}

#[test]
fn forms_fill_up() {
    let mut form = CharacterForm::new();
    form.take_image(Some(Vec::new()));
    assert!(form.image.is_none());
    form.take_field("a", "text", None);
    form.take_field("b", "1", Some(Json::natural(1)));
    assert_eq!(form.body.get("a").unwrap().as_str(), Some("text"));
    assert_eq!(form.body.get("b").unwrap().as_u64(), Some(1));
    assert_eq!(read_image_source(form.image, Some(vec![9])).unwrap(), vec![9]);
    assert_eq!(read_image_source(None, None).unwrap_err().status, 500);
}

#[test]
fn greetings_come_once() {
    let greet = |s: &str| {
        let m = Fields::new().with("text", Json::text(s)).done();
        Fields::new().with("firstMessages", Json::one_item(m)).done()
    };
    let found = format_alternate_greetings(&vec![greet("a"), greet("b"), greet("b"), greet("a")]);
    assert_eq!(found, texts(&["b"]));
}

#[test]
fn the_newest_is_the_latest() {
    assert_eq!(newest_index(&vec![Some(1), Some(5), None, Some(3)]), Some(1));
    assert_eq!(newest_index(&Vec::new()), None);
}

#[test]
fn flat_lines_stay() {
    let line = Fields::new().with("mes", Json::text("hi")).done();
    let once = flatten_line(&line);
    let twice = flatten_line(&once);
    assert_eq!(once.str_at("mes"), Some("hi"));
    assert_eq!(twice.str_at("mes"), Some("hi"));
}

#[test]
fn recent_chats_come_newest_first() {
    let file = |name: &str, t: f64| RecentFile {
        png_file: Some("a.png".to_string()),
        group_id: None,
        file_name: name.to_string(),
        mtime: t.to_bits(),
    };
    let files = vec![file("old", 1.0), file("new", 3.0), file("mid", 2.0)];
    let all = RecentChatRequest { pinned: None, max: None, metadata: None };
    assert_eq!(recent_chats(&all, &files), vec![1, 2, 0]);
}

#[test]
fn what_is_known_is_not_loose() {
    assert_eq!(keep_loose(&texts(&["a", "b"]), &texts(&["b"])), texts(&["a"]));
    let line = Fields::new().with("chat_metadata", Json::natural(1)).done();
    assert_eq!(metadata_of_chat(&vec![line]).unwrap().as_u64(), Some(1));
    assert!(metadata_of_chat(&Vec::new()).is_none());
}

#[test]
fn what_is_referred_to_is_not_loose() {
    let service = DataMaidService::new("ann".to_string(), "/u".to_string());
    let refs = texts(&["/user/images/a.png", "user/images/b.png", "https://h/c.png"]);
    let known = service.image_paths(&refs);
    assert_eq!(known, texts(&["/u/user/images/a.png", "/u/user/images/b.png"]));
    let found = texts(&["/u/user/images/a.png", "/u/user/images/b.png", "/u/user/images/c.png"]);
    assert_eq!(service.collect_images(&found, &known), texts(&["/u/user/images/c.png"]));
    let known = service.file_paths(&texts(&["//user/files/a.txt"]));
    assert_eq!(known, texts(&["/u/user/files/a.txt"]));
    assert!(service.collect_files(&known, &known).is_empty());
}

#[test]
fn paths_are_normalized_before_they_are_held_against_a_directory() {
    assert!(is_path_under_parent("/nope/a", "/nope/a/b"));
    assert!(is_path_under_parent("/nope/a", "/nope/a"));
    assert!(is_path_under_parent("/nope/./a", "/nope/x/../a/b"));
    assert!(is_path_under_parent("/", "/../a"));
    assert!(!is_path_under_parent("/nope/a", "/nope/a/../b"));
    assert!(!is_path_under_parent("/nope/a", "/nope/ab"));
    assert!(!is_path_under_parent("/nope/a", "nope/a/b"));
}

fn report(path: &str) -> RawReport {
    RawReport {
        images: texts(&[path]),
        files: Vec::new(),
        chats: Vec::new(),
        group_chats: Vec::new(),
        avatar_thumbnails: Vec::new(),
        background_thumbnails: Vec::new(),
        persona_thumbnails: Vec::new(),
        chat_backups: Vec::new(),
        settings_backups: Vec::new(),
    }
}

#[test]
fn tokens_are_personal_and_end() {
    let mut store = TokenStore::new().issue("ann", &report("/u/a.png"), "t1");
    let ask = |t: &str| TokenRequest {
        token: Some(t.to_string()),
        hashes: Some(vec![sha256_hex("/u/a.png")]),
    };
    assert_eq!(store.delete_files(&ask("t1"), "ann").unwrap(), texts(&["/u/a.png"]));
    assert!(store.delete_files(&ask("t1"), "bob").is_err());
    let query = ViewQuery {
        token: Some("t1".to_string()),
        hash: Some(sha256_hex("/u/a.png")),
    };
    assert_eq!(store.view_file(&query, "ann").unwrap(), "/u/a.png");
    store = store.issue("ann", &report("/u/b.png"), "t2");
    assert!(store.delete_files(&ask("t1"), "ann").is_err());
    store.finalize_token(&ask("t2"), "ann");
    assert!(store.delete_files(&ask("t2"), "ann").is_err());
}

#[test]
fn tokens_are_hexadecimal() {
    let first = vec![0x0f; 16];
    let second = vec![0xa0; 16];
    let want = format!("{}{}", "0f".repeat(16), "a0".repeat(16));
    assert_eq!(token_text(first, second), want);
    let (store, token) = TokenStore::new().generate_token("ann", &report("/u/a.png"));
    assert_eq!(token.len(), 64);
    assert!(token.chars().all(|c| c.is_ascii_digit() || ('a'..='f').contains(&c)));
    assert_eq!((&token[12..13], &token[44..45]), ("4", "4"));
    let query = ViewQuery { token: Some(token.clone()), hash: Some(sha256_hex("/u/a.png")) };
    assert_eq!(store.view_file(&query, "ann").unwrap(), "/u/a.png");
    let (store, other) = store.generate_token("ann", &report("/u/b.png"));
    assert_ne!(token, other);
    assert!(store.view_file(&query, "ann").is_err());
}

#[test]
fn white_space_is_trimmed() {
    let points = [
        0x9, 0xa, 0xb, 0xc, 0xd, 0x20, 0x85, 0xa0, 0x1680, 0x2000, 0x2001, 0x2002, 0x2003, 0x2004,
        0x2005, 0x2006, 0x2007, 0x2008, 0x2009, 0x200a, 0x2028, 0x2029, 0x202f, 0x205f, 0x3000,
    ];
    for c in (0..0x11000u32).filter_map(char::from_u32) {
        assert_eq!(is_white(c), points.contains(&(c as u32)));
        assert_eq!(is_white(c), c.is_whitespace());
    }
    assert_eq!(trim("\u{3000} a b\u{85}"), "a b");
}

#[test]
fn avatar_crop_resize_unsupported_format_fallback() {
    let garbage = b"this is not an image".to_vec();
    assert_eq!(kept_picture(garbage.clone(), None), garbage);
    assert_eq!(kept_picture(garbage, Some(vec![1])), vec![1]);
}

#[test]
fn user_extensions_hide_global_ones() {
    let found = discover_extensions(&texts(&["s"]), &texts(&["x"]), &texts(&["x", "y"]));
    let x = found
        .iter()
        .filter(|e| e.str_at("name").unwrap_or("").ends_with("x"))
        .map(|e| e.str_at("type").unwrap_or(""))
        .collect::<Vec<_>>();
    assert_eq!(x, vec!["local"]);
    assert_eq!(found.len(), 3);
}

#[test]
fn polling_comes_to_an_end() {
    match image_next(None, 1) {
        PollStep::Again(n) => assert_eq!(n, 0),
        PollStep::Done(_) => panic!("too early"),
    }
    match video_next(None, 0) {
        PollStep::Done(r) => assert_eq!(r.status, 408),
        PollStep::Again(_) => panic!("too late"),
    }
    let done = Fields::new().with("done", Json::Bool(true)).done();
    match video_next(Some(&done), 5) {
        PollStep::Done(r) => assert_eq!(r.status, 200),
        PollStep::Again(_) => panic!("too late"),
    }
}

#[test]
fn wav_headers_read_back() {
    let h = create_wav_header(1000, 44100, 2, 16);
    assert_eq!(h.len(), 44);
    assert_eq!(&h[40..44], &1000u32.to_le_bytes());
    assert_eq!(&h[4..8], &1036u32.to_le_bytes());
    assert_eq!(&h[24..28], &44100u32.to_le_bytes());
    assert_eq!(&h[28..32], &176400u32.to_le_bytes());
    assert_eq!(&h[32..34], &4u16.to_le_bytes());
    assert_eq!(&h[12..16], b"fmt ");
}

#[test]
fn regions_lie_in_the_picture() {
    let want = Region { x: 50, y: 900, width: 200, height: 300 };
    let r = clamp_region(want, 100, 100);
    assert_eq!(r, Region { x: 50, y: 99, width: 50, height: 1 });
}

#[test]
fn free_names_are_numbered() {
    assert_eq!(first_free("a", ".png", &Vec::new()), "a");
    assert_eq!(first_free("a", ".png", &texts(&["a.png"])), "a1");
}

#[test]
fn joined_paths_lie_under() {
    assert!(paths::starts_with(&paths::join("/a/b", "c"), "/a/b"));
    assert_eq!(paths::strip_prefix("/a/b/c", "/a/b"), Some("c".to_string()));
    assert!(!paths::starts_with("/a/bc", "/a/b"));
}

#[test]
fn groups_are_told_of() {
    assert!(create_group(None, "1").is_err());
    let group = create_group(Some(&Json::no_members()), "1").unwrap();
    assert_eq!(group.str_at("name"), Some("New Group"));
    let file = GroupFile {
        group: Some(group),
        added: Json::natural(1500),
        created: Some((1, 500_000_000)),
    };
    let broken = GroupFile { group: None, added: Json::natural(0), created: None };
    let chat = |stem: &str, size: u64| GroupChatFile {
        stem: stem.to_string(),
        size,
        mtime: (5.0f64).to_bits(),
        mtime_shown: "5.0".to_string(),
    };
    let reply = get_all_groups(Some(&vec![file, broken]), &vec![chat("1", 7), chat("2", 9)]);
    let list = body(&reply).as_array().unwrap();
    assert_eq!(list.len(), 1);
    assert_eq!(list[0].str_at("create_date"), Some("1970-01-01T00:00:01.500Z"));
    assert_eq!(list[0].get("chat_size").unwrap().as_u64(), Some(7));
    assert_eq!(list[0].str_at("avatar_url"), Some(""));
    assert!(body(&get_all_groups(None, &Vec::new())).as_array().unwrap().is_empty());
}

#[test]
fn a_new_group_has_its_chat() {
    let group = create_group(Some(&Json::no_members()), "17").unwrap();
    assert_eq!(group_chat_files(&group), texts(&["17.jsonl"]));
    let body = Fields::new().with("chats", Json::texts(&["a", "b/c"])).done();
    let group = create_group(Some(&body), "17").unwrap();
    assert_eq!(group_chat_files(&group), texts(&["a.jsonl", "bc.jsonl"]));
}

#[test]
fn a_chat_is_deleted_where_it_was_stored() {
    let saved = save_chat(&SaveChatRequest {
        avatar_url: Some("Ann.png".to_string()),
        file_name: Some("first".to_string()),
        chat: Some(Vec::new()),
        force: None,
    })
    .unwrap();
    for name in ["first", "first.jsonl"] {
        let gone = delete_chat(&DeleteChatRequest {
            avatar_url: Some("Ann.png".to_string()),
            chatfile: Some(name.to_string()),
        })
        .unwrap();
        assert_eq!((&gone.folder, &gone.file), (&saved.folder, &saved.file));
    }
    assert_eq!(saved.folder.as_deref(), Some("Ann"));
    assert_eq!(saved.file, "first.jsonl");
}

#[test]
fn a_picture_leads_to_one_name() {
    let picture = avatar_name("Ann.v2");
    assert_eq!(picture, "Ann.v2.png");
    assert_eq!(target_file(&picture), "Ann.v2");
    assert_eq!(chat_folder(&picture), "Ann.v2");
    assert_eq!(chats_directory(&picture), "Ann.v2");
    let listed = requested_chats(&CharacterChatsRequest {
        avatar_url: Some(picture),
        simple: None,
        metadata: None,
    });
    assert_eq!(listed.unwrap(), "Ann.v2");
}

#[test]
fn versions_are_told() {
    let info = compute_version_info(&VersionSources {
        version_override: None,
        package_version: Some("1.2".to_string()),
        revision_override: None,
        revision: Some("abc".to_string()),
        branch_override: Some("main".to_string()),
        branch: Some("other".to_string()),
        commit_date: Some(" then ".to_string()),
        local_latest: Some("x".to_string()),
        remote_latest: Some("y".to_string()),
    });
    assert_eq!(info.agent, "SillyTavern:1.2:Cohee#1207");
    assert!(!info.is_latest);
    let reply = version_handler(&info, true);
    assert_eq!(body(&reply).str_at("gitBranch"), Some("main"));
    assert_eq!(body(&reply).str_at("commitDate"), Some("then"));
    assert_eq!(reply.headers.len(), 2);
    assert_eq!(ping_handler(false).status, 204);
    assert!(ping_handler(false).headers.is_empty());
}

fn request(folder: Option<&str>) -> ListImagesRequest {
    ListImagesRequest {
        folder: folder.map(|s| s.to_string()),
        media_type: None,
        sort_field: None,
        sort_order: None,
    }
}

#[test]
fn image_lists_are_asked_for() {
    let table = Vec::new();
    assert_eq!(list_images(&request(None), "/i", &table).unwrap_err().status, 400);
    let plan = list_images(&request(Some("../x")), "/i", &table).unwrap();
    assert_eq!(plan.directory, "/i/..x");
    assert_eq!(plan.sort_field, "date");
    assert!(list_images_with_folder("y", request(Some("x"))).is_err());
    assert_eq!(
        list_images_with_folder("y", request(None)).unwrap().folder,
        Some("y".to_string())
    );
    let names = texts(&["a", "b"]);
    let reply = listing_reply(Some(&names), true);
    assert_eq!(body(&reply).as_array().unwrap()[0].as_str(), Some("b"));
    assert_eq!(listing_reply(None, true).status, 500);
}

#[test]
fn images_go_where_they_belong() {
    let upload = |format: &str, image: &str| UploadImageRequest {
        image: image.to_string(),
        format: format.to_string(),
        filename: Some("x.jpg".to_string()),
        ch_name: Some("../Ann".to_string()),
    };
    let formats = texts(&["png"]);
    assert!(upload_image(&upload("exe", "aGVsbG8="), &formats, "/u", "/u/i", 5).is_err());
    assert!(upload_image(&upload("png", ""), &formats, "/u", "/u/i", 5).is_err());
    let done = upload_image(&upload("png", "aGVsbG8="), &formats, "/u", "/u/i", 5).unwrap();
    assert_eq!(done.path, "/u/i/..Ann/x.png");
    assert_eq!(done.bytes, b"hello");
    assert_eq!(body(&done.reply).str_at("path"), Some("/i/..Ann/x.png"));
    let gone = |p: &str| DeleteImageRequest { path: p.to_string() };
    assert!(delete_image(&gone(""), "/u").is_err());
    assert_eq!(delete_image(&gone("i/a.png"), "/u").unwrap(), "/u/i/a.png");
    assert_eq!(delete_check(false, true).unwrap_err().status, 400);
    assert_eq!(delete_check(true, false).unwrap_err().status, 404);
    assert!(delete_check(true, true).is_ok());
    assert_eq!(deletion_reply(false).status, 500);
}

fn known(hash: &str) -> ImageMetadata {
    ImageMetadata {
        hash: hash.to_string(),
        aspect_ratio: Double { bits: (1.5f64).to_bits(), text: "1.5".to_string() },
        is_animated: false,
        dominant_color: "#000000".to_string(),
        folder_ids: Vec::new(),
        added_timestamp: -1,
        thumbnail_resolution: 4,
        mtime: None,
    }
}

fn file(path: &str, time: f64, fresh: Option<ImageMetadata>) -> ImageFile {
    let mtime = Some(Double { bits: time.to_bits(), text: format!("{:?}", time) });
    ImageFile { path: path.to_string(), mtime, fresh }
}

#[test]
fn images_are_looked_at_once() {
    let mut index = MetadataIndex::default();
    let first = vec![
        file("a\\b.png", 5.0, Some(known("h1"))),
        ImageFile { path: "gone.png".to_string(), mtime: None, fresh: Some(known("h2")) },
        file("bad.png", 5.0, None),
    ];
    let batch = get_or_generate_metadata_batch(&mut index, &first);
    assert_eq!(batch.generated, 1);
    assert_eq!(index.images.len(), 1);
    assert_eq!(index.images[0].path, "a/b.png");
    assert_eq!(single_reply(&batch.results, "a\\b.png").status, 200);
    assert_eq!(single_reply(&batch.results, "gone.png").status, 404);
    index.images[0].metadata.folder_ids = texts(&["f"]);
    let again = vec![file("a\\b.png", 5.0, Some(known("h3")))];
    assert_eq!(get_or_generate_metadata_batch(&mut index, &again).generated, 0);
    let changed = vec![file("a\\b.png", 6.0, Some(known("h3")))];
    assert_eq!(get_or_generate_metadata_batch(&mut index, &changed).generated, 1);
    assert_eq!(index.images[0].metadata.hash, "h3");
    assert_eq!(index.images[0].metadata.folder_ids, texts(&["f"]));
    let all = get_all_image_metadata(&GetAllMetadataRequest { prefix: None }, &index);
    assert!(body(&all).get("folders").is_some());
    let some = GetAllMetadataRequest { prefix: Some("z".to_string()) };
    let none = get_all_image_metadata(&some, &index);
    assert_eq!(body(&none).get("images").unwrap().fields().len(), 0);
    assert!(body(&none).get("folders").is_none());
    let gone = cleanup_orphaned_metadata(
        &mut index,
        &vec![EntryCheck { inside: true, found: false }],
    );
    assert_eq!(gone, texts(&["a/b.png"]));
    assert!(index.images.is_empty());
    assert_eq!(body(&cleanup_image_metadata(&gone)).get("count").unwrap().as_u64(), Some(1));
}

#[test]
fn metadata_is_asked_for() {
    let ask = |path: Option<&str>, paths: Option<&[&str]>| GetMetadataRequest {
        path: path.map(|s| s.to_string()),
        paths: paths.map(texts),
        thumbnail_type: None,
    };
    assert_eq!(get_image_metadata(&ask(None, None)).unwrap_err().status, 400);
    assert!(matches!(get_image_metadata(&ask(Some("a"), None)), Ok(MetadataPlan::One(_))));
    assert!(matches!(
        get_image_metadata(&ask(Some("a"), Some(&["b"]))),
        Ok(MetadataPlan::Many(_))
    ));
    assert_eq!(
        body(&single_check("../x", false, true).unwrap_err()).str_at("error"),
        Some("Path \"../x\" is outside the user data directory.")
    );
    assert_eq!(single_check("x", true, false).unwrap_err().status, 404);
    let wanted = |p: &str, inside: bool| RequestedPath { path: p.to_string(), inside };
    let results = Fields::new().with("a", Json::natural(1));
    let many = handle_multi_paths(
        &vec![wanted("a", true), wanted("b", true), wanted("../c", false)],
        &results,
    );
    assert_eq!(body(&many).get("a").unwrap().as_u64(), Some(1));
    assert_eq!(
        body(&many).get("b").unwrap().str_at("error"),
        Some("File not found or could not process.")
    );
    assert!(body(&many).get("../c").unwrap().str_at("error").is_some());
}

#[test]
fn animation_is_marked_early() {
    let mut data = vec![0u8; 300];
    assert!(!is_animated_apng(&data));
    data[196..200].copy_from_slice(b"acTL");
    assert!(is_animated_apng(&data));
    data[197..201].copy_from_slice(b"acTL");
    assert!(!is_animated_apng(&data));
    assert!(is_animated_webp(b"RIFF....ANMF"));
    assert!(is_animated_webp(b"ANIM"));
    assert!(!is_animated_webp(b"ANI"));
    assert_eq!(to_posix_path("a\\b/c"), "a/b/c");
}
