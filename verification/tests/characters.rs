use tavern_backend::characters::helpers::{
    calculate_chat_size, calculate_data_size, convert_v1_to_v2,
    convert_world_info_to_character_book, deep_merge, format_bytes, timestamp_to_iso, ChatFile,
};
use tavern_backend::characters::reads::{
    files_with_extension, get_chat_info, process_character, CharacterFile, ChatContent,
};
use tavern_backend::json::{Fields, Json, Number};

fn json_of(value: &serde_json::Value) -> Json {
    match value {
        serde_json::Value::Null => Json::Null,
        serde_json::Value::Bool(b) => Json::Bool(*b),
        serde_json::Value::Number(n) => match (n.as_u64(), n.as_i64(), n.as_f64()) {
            (Some(x), _, _) => Json::Number(Number::Pos(x)),
            (None, Some(x), _) => Json::Number(Number::Neg(x)),
            (None, None, Some(d)) => Json::float(d.to_bits(), &n.to_string()),
            _ => Json::Null,
        },
        serde_json::Value::String(s) => Json::text(s),
        serde_json::Value::Array(a) => Json::array(a.iter().map(json_of).collect()),
        serde_json::Value::Object(m) => {
            let mut f = Fields::new();
            for (k, v) in m {
                f.push(k, json_of(v));
            }
            f.done()
        }
    }
}

fn parse(text: &str) -> Json {
    json_of(&serde_json::from_str(text).unwrap())
}

fn at<'a>(j: &'a Json, path: &[&str]) -> &'a Json {
    let mut here = j;
    for key in path {
        here = here.get(key).unwrap();
    }
    here
}

fn str_of<'a>(j: &'a Json, path: &[&str]) -> &'a str {
    at(j, path).as_str().unwrap()
}

#[test]
fn format_bytes_zero() {
    assert_eq!(format_bytes(0), "0B");
}

#[test]
fn format_bytes_small() {
    assert_eq!(format_bytes(100), "100B");
}

#[test]
fn format_bytes_kilobytes() {
    assert_eq!(format_bytes(1024), "1KB");
}

#[test]
fn format_bytes_megabytes() {
    let result = format_bytes(1_048_576);
    assert_eq!(result, "1MB");
}

#[test]
fn format_bytes_fractional() {
    let result = format_bytes(1_536);
    assert_eq!(result, "1.5KB");
}

#[test]
fn format_bytes_matches_node() {
    assert_eq!(format_bytes(0), "0B");
    assert_eq!(format_bytes(1), "1B");
    assert_eq!(format_bytes(1024), "1KB");
    assert_eq!(format_bytes(1536), "1.5KB");
    assert_eq!(format_bytes(1048576), "1MB");
    assert_eq!(format_bytes(1073741824), "1GB");
    // Edge case: values that previously triggered rounding issues
    assert_eq!(format_bytes(1023), "1023B");
    assert_eq!(format_bytes(1025), "1KB");
}

#[test]
fn calculate_data_size_with_data() {
    let json = parse(r#"{"data": {"name": "Test", "description": "A character"}}"#);
    let size = calculate_data_size(&json);
    assert!(size > 0);
    assert_eq!(size, "Test".len() + "A character".len());
}

#[test]
fn calculate_data_size_no_data() {
    let json = parse(r#"{"name": "Test"}"#);
    assert_eq!(calculate_data_size(&json), 0);
}

#[test]
fn timestamp_to_iso_produces_valid_string() {
    let iso = timestamp_to_iso(1_700_000_000, 0, "now");
    assert!(iso.contains("2023"));
    assert!(iso.contains("T"));
    assert_eq!(iso, "2023-11-14T22:13:20.000Z");
}

#[test]
fn timestamp_out_of_range_is_now() {
    assert_eq!(timestamp_to_iso(i64::MAX, 0, "now"), "now");
}

#[test]
fn process_character_from_temp_file() {
    let card = parse(
        r#"{"spec": "chara_card_v2", "spec_version": "2.0", "name": "TestChar",
            "data": {"name": "TestChar", "description": "A test character",
                     "personality": "Friendly", "scenario": "", "first_mes": "Hello!",
                     "tags": [], "extensions": {"talkativeness": 0.5, "fav": false}}}"#,
    );
    let file = CharacterFile {
        name: "TestChar.png".to_string(),
        json_data: "{}".to_string(),
        date_added: Json::natural(5),
        date_added_text: "then".to_string(),
        chat_size: 0,
        date_last_chat: Json::natural(0),
    };
    let character = process_character(&card, &file);
    assert_eq!(str_of(&character, &["name"]), "TestChar");
    assert_eq!(str_of(&character, &["avatar"]), "TestChar.png");
    assert!(character.get("date_added").is_some());
    assert!(character.get("chat_size").is_some());
    assert_eq!(str_of(&character, &["create_date"]), "then");
}

#[test]
fn get_chat_info_from_jsonl() {
    let content = ChatContent {
        file_name: "test_chat.jsonl".to_string(),
        size: 300,
        modified: Json::natural(1),
        modified_text: "then".to_string(),
        lines: 3,
        first: Some(parse(
            r#"{"chat_metadata": {"some": "data"}, "user_name": "User",
                "character_name": "Char"}"#,
        )),
        last: Some(parse(
            r#"{"name": "Char", "is_user": false, "mes": "Hi! How can I help?",
                "send_date": "2024-01-15T10:01:00.000Z"}"#,
        )),
    };
    let info = get_chat_info(&content, true);
    assert_eq!(info.file_name, "test_chat.jsonl");
    assert_eq!(info.file_id, "test_chat");
    assert_eq!(info.chat_items, 2);
    assert_eq!(info.mes, "Hi! How can I help?");
    assert_eq!(info.last_mes.as_str(), Some("2024-01-15T10:01:00.000Z"));
    assert!(info.is_match);
    assert!(info.chat_metadata.is_some());
}

#[test]
fn get_chat_info_empty_file() {
    let content = ChatContent {
        file_name: "empty.jsonl".to_string(),
        size: 0,
        modified: Json::natural(1),
        modified_text: "then".to_string(),
        lines: 0,
        first: None,
        last: None,
    };
    let info = get_chat_info(&content, false);
    assert_eq!(info.chat_items, 0);
    assert_eq!(info.mes, "[The chat is empty]");
}

#[test]
fn simple_chat_list() {
    let files = vec![
        "TestChar - 2024-01-15.jsonl".to_string(),
        "TestChar - 2024-01-16.jsonl".to_string(),
        "notes.txt".to_string(),
    ];
    assert_eq!(files_with_extension(&files, "jsonl").len(), 2);
}

#[test]
fn calculate_chat_size_nonexistent() {
    let (size, last) = calculate_chat_size(&Vec::new());
    assert_eq!(size, 0);
    assert_eq!(f64::from_bits(last), 0.0);
}

#[test]
fn calculate_chat_size_with_files() {
    let files = vec![
        ChatFile { size: 11, mtime: (2000.5f64).to_bits() },
        ChatFile { size: 12, mtime: (1000.0f64).to_bits() },
    ];
    let (size, last) = calculate_chat_size(&files);
    assert_eq!(size, 23);
    assert_eq!(f64::from_bits(last), 2000.5);
}

#[test]
fn deep_merge_objects() {
    let target =
        parse(r#"{"a": 1, "b": {"nested": true, "keep": "yes"}, "c": "original"}"#);
    let source = parse(r#"{"b": {"nested": false, "added": "new"}, "d": "extra"}"#);
    let result = deep_merge(&target, &source);
    assert_eq!(at(&result, &["a"]).as_u64(), Some(1));
    assert_eq!(at(&result, &["b", "nested"]).as_bool(), Some(false));
    assert_eq!(str_of(&result, &["b", "keep"]), "yes");
    assert_eq!(str_of(&result, &["b", "added"]), "new");
    assert_eq!(str_of(&result, &["c"]), "original");
    assert_eq!(str_of(&result, &["d"]), "extra");
}

#[test]
fn deep_merge_overwrite_non_object() {
    let target = parse(r#"{"x": [1, 2, 3]}"#);
    let source = parse(r#"{"x": [4, 5]}"#);
    let result = deep_merge(&target, &source);
    // Arrays are replaced, not merged.
    let x = at(&result, &["x"]).as_array().unwrap();
    assert_eq!(x.len(), 2);
    assert_eq!(x[0].as_u64(), Some(4));
    assert_eq!(x[1].as_u64(), Some(5));
}

#[test]
fn convert_world_info_to_character_book_basic() {
    let entries = parse(
        r#"{"0": {"uid": 42, "key": ["hello", "world"], "keysecondary": [],
                  "comment": "Test entry", "content": "Some lore content", "constant": true,
                  "selective": false, "order": 10, "disable": false, "position": 0}}"#,
    );
    let book = convert_world_info_to_character_book("TestWorld", &entries);
    assert_eq!(str_of(&book, &["name"]), "TestWorld");
    let book_entries = book.array_at("entries").unwrap();
    assert_eq!(book_entries.len(), 1);
    let e = &book_entries[0];
    assert_eq!(at(e, &["id"]).as_u64(), Some(42));
    let keys = e.array_at("keys").unwrap();
    assert_eq!(keys.len(), 2);
    assert_eq!(keys[0].as_str(), Some("hello"));
    assert_eq!(keys[1].as_str(), Some("world"));
    assert_eq!(str_of(e, &["content"]), "Some lore content");
    assert_eq!(at(e, &["constant"]).as_bool(), Some(true));
    assert_eq!(at(e, &["insertion_order"]).as_u64(), Some(10));
    assert_eq!(at(e, &["enabled"]).as_bool(), Some(true));
    assert_eq!(str_of(e, &["position"]), "before_char");
    assert_eq!(at(e, &["use_regex"]).as_bool(), Some(true));
    assert_eq!(at(e, &["extensions", "depth"]).as_u64(), Some(4));
}

#[test]
fn convert_v1_to_v2_with_world_info() {
    let world = parse(
        r#"{"entries": {"0": {"uid": 1, "key": ["keyword"], "keysecondary": [], "comment": "",
            "content": "World lore", "constant": false, "selective": false, "order": 100,
            "disable": false, "position": 1}}}"#,
    );
    let mut card =
        parse(r#"{"name": "TestChar", "description": "A test character", "world": "MyWorld"}"#);
    let depth = Json::float((4.0f64).to_bits(), "4.0");
    convert_v1_to_v2(&mut card, "stamp", "now", &depth, Some(&world), None);
    assert_eq!(str_of(&card, &["spec"]), "chara_card_v2");
    assert_eq!(str_of(&card, &["data", "extensions", "world"]), "MyWorld");
    let book = at(&card, &["data", "character_book"]);
    assert_eq!(str_of(book, &["name"]), "MyWorld");
    assert!(book.array_at("entries").unwrap().len() > 0);
}

#[test]
fn convert_v1_to_v2_with_extensions_merge() {
    let text = r#"{"custom_field": "custom_val", "depth_prompt": {"extra": true}}"#;
    let mut card = parse(r#"{"name": "TestChar", "description": "A test"}"#).fields();
    card.push("extensions", Json::text(text));
    let mut card = card.done();
    let depth = Json::float((4.0f64).to_bits(), "4.0");
    let parsed = parse(text);
    convert_v1_to_v2(&mut card, "stamp", "now", &depth, None, Some(&parsed));
    let extensions = at(&card, &["data", "extensions"]);
    assert_eq!(str_of(extensions, &["custom_field"]), "custom_val");
    match at(extensions, &["depth_prompt", "depth"]) {
        Json::Float(d) => assert_eq!(f64::from_bits(d.bits), 4.0),
        _ => panic!("depth is no fraction"),
    }
    assert_eq!(at(extensions, &["depth_prompt", "extra"]).as_bool(), Some(true));
}
