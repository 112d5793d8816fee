use tavern_backend::assets::{categories, validate_category};
use tavern_backend::avatars::{
    contains_forbidden_chars, should_bust_cache, upload_avatar, upload_filename, upload_reply,
    CacheBuster, UploadAvatarResponse, UploadForm,
};
use tavern_backend::backgrounds::{BackgroundsAllResponse, ThumbnailConfig};
use tavern_backend::files;
use tavern_backend::files::SanitizeFilenameResponse;
use tavern_backend::global::{version_handler, VersionInfo};
use tavern_backend::groups::warn_on_group_metadata;
use tavern_backend::images;
use tavern_backend::images::{
    list_image_folders, parse_media_type, remove_file_extension, DirectoryEntry, MEDIA_IMAGE,
};
use tavern_backend::json::{Fields, Json};
use tavern_backend::numbers::TextNumber;
use tavern_backend::paths;
use tavern_backend::sanitize::sanitize_filename_strip;
use tavern_backend::web::Payload;

fn buster(enabled: bool, pattern: &str) -> CacheBuster {
    CacheBuster { enabled, user_agent_pattern: pattern.to_string() }
}

fn table(texts: &[&str]) -> Vec<TextNumber> {
    let mut out = Vec::new();
    for t in texts {
        if let Ok(d) = t.parse::<f64>() {
            out.push(TextNumber { text: t.to_string(), value: Json::float(d.to_bits(), t) });
        }
    }
    out
}

#[test]
fn validate_category_accepts_valid() {
    assert_eq!(validate_category("bgm"), Some("bgm"));
    assert_eq!(validate_category("ambient"), Some("ambient"));
    assert_eq!(validate_category("character"), Some("character"));
    assert_eq!(validate_category("temp"), Some("temp"));
}

#[test]
fn validate_category_rejects_invalid() {
    assert_eq!(validate_category("invalid"), None);
    assert_eq!(validate_category(""), None);
}

#[test]
fn every_category_is_valid() {
    for c in categories() {
        assert_eq!(validate_category(c), Some(c));
    }
}

#[test]
fn delete_avatar_rejects_malicious_name() {
    let sanitized = sanitize_filename_strip("../../../etc/passwd");
    assert_ne!(sanitized, "../../../etc/passwd");
    assert_eq!(sanitized, "......etcpasswd");
}

#[test]
fn forbidden_chars_detected() {
    assert!(contains_forbidden_chars("path/to/file"));
    assert!(contains_forbidden_chars("path\\to\\file"));
    assert!(contains_forbidden_chars("file\0name"));
    assert!(!contains_forbidden_chars("valid-file.png"));
    assert!(!contains_forbidden_chars("my avatar.png"));
}

#[test]
fn upload_generates_timestamp_filename() {
    let timestamp = std::time::SystemTime::now()
        .duration_since(std::time::UNIX_EPOCH)
        .unwrap_or_default()
        .as_millis();
    let filename = upload_filename(None, timestamp);
    assert_eq!(filename, format!("{}.png", timestamp));
    assert!(filename.ends_with(".png"));
    assert!(filename.len() > 4);
}

#[test]
fn cache_buster_disabled_returns_false() {
    assert!(!should_bust_cache(&buster(false, ""), Some("Mozilla/5.0")));
}

#[test]
fn cache_buster_enabled_no_pattern_returns_true() {
    assert!(should_bust_cache(&buster(true, ""), Some("Mozilla/5.0")));
}

#[test]
fn cache_buster_pattern_matches_user_agent() {
    let config = buster(true, "firefox");
    assert!(should_bust_cache(&config, Some("Mozilla/5.0 Firefox/120.0")));
    assert!(!should_bust_cache(&config, Some("Mozilla/5.0 Chrome/120.0")));
}

#[test]
fn cache_buster_invalid_pattern_returns_true() {
    assert!(should_bust_cache(&buster(true, "("), Some("Mozilla/5.0")));
}

#[test]
fn avatar_upload_overwrites_under_a_safe_name() {
    let mut form = UploadForm::new();
    assert!(upload_avatar(&form, "/avatars", 7).is_err());
    assert!(form.take_avatar(Some(vec![1, 2])).is_ok());
    let fresh = upload_avatar(&form, "/avatars", 7).unwrap();
    assert_eq!(fresh.path, "/avatars/7.png");
    assert!(upload_reply(&fresh, true, true).headers.is_empty());
    assert!(form.take_overwrite_name(Some("a/b".to_string())).is_err());
    assert!(form.take_overwrite_name(Some("a:b.png".to_string())).is_ok());
    let again = upload_avatar(&form, "/avatars", 7).unwrap();
    assert_eq!(again.path, "/avatars/ab.png");
    assert_eq!(upload_reply(&again, true, true).headers[0].value, "\"cache\"");
    assert_eq!(upload_reply(&again, false, true).status, 400);
}

#[test]
fn client_relative_path_computation() {
    assert_eq!(
        files::client_relative_path("/data/user1", "/data/user1/user/files/test.txt"),
        "/user/files/test.txt"
    );
}

#[test]
fn client_relative_path_computes_correctly() {
    let result =
        images::client_relative_path("/data/user1", "/data/user1/user/images/test.png");
    assert_eq!(result, "/user/images/test.png");
}

#[test]
fn verify_files_path_validation() {
    let root = "/data/test-user";
    let inside = "/data/test-user/user/files";
    assert!(paths::starts_with(&paths::join(root, "user/files/test.txt"), inside));
    assert!(!paths::starts_with(&paths::join(root, "characters/test.txt"), inside));
}

#[test]
fn remove_extension_works() {
    assert_eq!(remove_file_extension("hello.png"), "hello");
    assert_eq!(remove_file_extension("no-ext"), "no-ext");
    assert_eq!(remove_file_extension("multi.dots.png"), "multi.dots");
}

#[test]
fn list_folders_returns_directories_only() {
    let entry = |name: &str, is_directory: bool| DirectoryEntry {
        name: name.to_string(),
        is_directory,
    };
    let entries = vec![
        entry("characters", true),
        entry("readme.txt", false),
        entry("portraits", true),
    ];
    let names = match list_image_folders(Some(&entries)).payload {
        Payload::Json(j) => match j.as_array() {
            Some(a) => a.iter().map(|x| x.as_str().unwrap().to_string()).collect(),
            None => Vec::new(),
        },
        _ => Vec::new(),
    };
    assert_eq!(names.len(), 2);
    assert!(names.contains(&"characters".to_string()));
    assert!(names.contains(&"portraits".to_string()));
    assert_eq!(list_image_folders(None).status, 500);
}

#[test]
fn parse_media_type_defaults_to_image() {
    assert_eq!(parse_media_type(None, &Vec::new()), MEDIA_IMAGE);
    assert_eq!(parse_media_type(Some(&Json::Null), &Vec::new()), MEDIA_IMAGE);
}

#[test]
fn parse_media_type_invalid_to_zero() {
    let numbers = table(&["not-a-number", ""]);
    assert_eq!(parse_media_type(Some(&Json::text("not-a-number")), &numbers), 0);
    assert_eq!(parse_media_type(Some(&Json::text("")), &numbers), 0);
}

#[test]
fn parse_media_type_numeric_variants() {
    let numbers = table(&["1", "1.9"]);
    assert_eq!(parse_media_type(Some(&Json::text("1")), &numbers), 1);
    assert_eq!(parse_media_type(Some(&Json::text("1.9")), &numbers), 1);
    assert_eq!(parse_media_type(Some(&Json::Bool(true)), &numbers), 1);
    assert_eq!(parse_media_type(Some(&Json::Bool(false)), &numbers), 0);
}

#[test]
fn media_types_wrap_at_thirty_two_bits() {
    let numbers = table(&["-1", "4294967298", "1e300"]);
    assert_eq!(parse_media_type(Some(&Json::text(" 0x1F ")), &numbers), 31);
    assert_eq!(parse_media_type(Some(&Json::text("-0b11")), &numbers), u32::MAX - 2);
    assert_eq!(parse_media_type(Some(&Json::text("0o17")), &numbers), 15);
    assert_eq!(parse_media_type(Some(&Json::text("0x")), &numbers), 0);
    assert_eq!(parse_media_type(Some(&Json::text("-Infinity")), &numbers), 0);
    assert_eq!(parse_media_type(Some(&Json::text("-1")), &numbers), u32::MAX);
    assert_eq!(parse_media_type(Some(&Json::text("4294967298")), &numbers), 2);
    assert_eq!(parse_media_type(Some(&Json::text("1e300")), &numbers), 0);
    assert_eq!(parse_media_type(Some(&Json::natural(6)), &numbers), 6);
}

#[test]
fn test_warn_on_group_metadata_strips_deprecated_keys() {
    let mut data = Fields::new()
        .with("id", Json::text("123"))
        .with("name", Json::text("Test Group"))
        .with("chat_metadata", Fields::new().with("key", Json::text("value")).done())
        .with("past_metadata", Fields::new().with("old", Json::text("data")).done())
        .done();
    warn_on_group_metadata(&mut data);
    assert!(data.get("chat_metadata").is_none());
    assert!(data.get("past_metadata").is_none());
    assert_eq!(data.str_at("id"), Some("123"));
    assert_eq!(data.str_at("name"), Some("Test Group"));
}

#[test]
fn test_warn_on_group_metadata_no_deprecated_keys() {
    let mut data = Fields::new()
        .with("id", Json::text("456"))
        .with("name", Json::text("Clean Group"))
        .done();
    warn_on_group_metadata(&mut data);
    assert_eq!(data.str_at("id"), Some("456"));
}

#[test]
fn backgrounds_all_response_shape() {
    let resp = BackgroundsAllResponse {
        images: vec!["bg1.png".to_string(), "bg2.jpg".to_string()],
        config: ThumbnailConfig { width: 160, height: 90 },
    };
    let json = resp.to_json();
    let images = json.array_at("images").unwrap();
    assert_eq!(images[0].as_str(), Some("bg1.png"));
    assert_eq!(images[1].as_str(), Some("bg2.jpg"));
    let config = json.get("config").unwrap();
    assert_eq!(config.get("width").unwrap().as_u64(), Some(160));
    assert_eq!(config.get("height").unwrap().as_u64(), Some(90));
}

#[test]
fn sanitize_response_serialization() {
    let resp = SanitizeFilenameResponse { file_name: "hello_world.png".to_string() };
    assert_eq!(resp.to_json().str_at("fileName"), Some("hello_world.png"));
}

#[test]
fn upload_response_serialization() {
    let resp = UploadAvatarResponse { path: "12345.png".to_string() };
    assert_eq!(resp.to_json().str_at("path"), Some("12345.png"));
}

fn version_json(info: &VersionInfo) -> Json {
    match version_handler(info, false).payload {
        Payload::Json(j) => j,
        _ => panic!("no JSON"),
    }
}

#[test]
fn version_info_serializes_to_camel_case() {
    let info = VersionInfo {
        agent: "SillyTavern:1.0.0:Cohee#1207".to_string(),
        pkg_version: "1.0.0".to_string(),
        git_revision: Some("abc1234".to_string()),
        git_branch: Some("main".to_string()),
        commit_date: Some("2026-01-01 00:00:00 +0000".to_string()),
        is_latest: true,
    };
    let json = version_json(&info);
    assert!(json.get("pkgVersion").is_some());
    assert!(json.get("gitRevision").is_some());
    assert!(json.get("gitBranch").is_some());
    assert!(json.get("commitDate").is_some());
    assert!(json.get("isLatest").is_some());
    assert!(json.get("agent").is_some());
    assert!(json.get("pkg_version").is_none());
    assert!(json.get("git_revision").is_none());
}

#[test]
fn version_info_handles_none_fields() {
    let info = VersionInfo {
        agent: "SillyTavern:UNKNOWN:Cohee#1207".to_string(),
        pkg_version: "UNKNOWN".to_string(),
        git_revision: None,
        git_branch: None,
        commit_date: None,
        is_latest: true,
    };
    let json = version_json(&info);
    assert!(json.get("gitRevision").unwrap().is_null());
    assert!(json.get("gitBranch").unwrap().is_null());
    assert!(json.get("commitDate").unwrap().is_null());
}
