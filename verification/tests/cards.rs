use tavern_backend::characters::archive::ArchiveEntry;
use tavern_backend::characters::byaf::{encode_uri, parse_byaf, replace_macros, url_join};
use tavern_backend::characters::byaf_import::{
    chat_file, free_file, import_from_byaf, name_background, set_first_chat,
};
use tavern_backend::characters::charx::{
    get_embedded_zip_path_from_uri, import_from_charx, parse_charx, shares_base_name,
    strip_image_extension_or_keep, strip_trailing_image_extension,
};
use tavern_backend::characters::byaf::ByafChatBackground;
use tavern_backend::characters::helpers::{DeleteRequest, DuplicateRequest, RenameRequest};
use tavern_backend::characters::validator::TavernCardValidator;
use tavern_backend::characters::writes::{
    create_character, delete_character, duplicate_character, duplicate_file, exports_picture,
    import_character, rename_character, FormExtras, ImportKind,
};
use tavern_backend::json::{Fields, Json};

fn entry(name: &str, json: Option<Json>) -> ArchiveEntry {
    ArchiveEntry { name: Some(name.to_string()), data: Some(vec![123, 125]), json }
}

fn member(key: &str, value: Json) -> Json {
    Fields::new().with(key, value).done()
}

const INDEX: &str = "index.json";

fn byaf_error(entries: Vec<ArchiveEntry>) -> String {
    parse_byaf(&entries, INDEX, &vec![1], "now").unwrap_err()
}

#[test]
fn broken_byaf_archives_are_told() {
    assert_eq!(byaf_error(Vec::new()), "Failed to extract index.json from BYAF file");
    assert_eq!(byaf_error(vec![entry(INDEX, None)]), "Invalid BYAF manifest");
    assert_eq!(
        byaf_error(vec![entry(INDEX, Some(Json::no_members()))]),
        "Invalid BYAF file: missing character path"
    );
    let index = || member("characters", Json::one_item(Json::text("c/character.json")));
    assert_eq!(
        byaf_error(vec![entry(INDEX, Some(index()))]),
        "Invalid BYAF file: failed to extract character JSON"
    );
    assert_eq!(
        byaf_error(vec![entry(INDEX, Some(index())), entry("c/character.json", None)]),
        "Invalid BYAF file: character is not valid JSON"
    );
}

#[test]
fn byaf_archives_are_read() {
    let index = member("characters", Json::one_item(Json::text("c/character.json")));
    let character = Fields::new()
        .with("name", Json::text("Ann"))
        .with("persona", Json::text("#{character}: is kind"))
        .done();
    let entries =
        vec![entry(INDEX, Some(index)), entry("c/character.json", Some(character))];
    let found = parse_byaf(&entries, INDEX, &vec![7], "now").unwrap();
    assert_eq!(found.card.str_at("spec"), Some("chara_card_v2"));
    assert_eq!(found.card.get("data").unwrap().str_at("name"), Some("Ann"));
    assert_eq!(found.images[0].image, vec![7]);
}

#[test]
fn byaf_characters_are_stored() {
    let files = vec!["Ann.png".to_string()];
    let body = member("user_name", Json::text("Me"));
    let plan = import_from_byaf(None, "Ann", &files, &body);
    assert_eq!(plan.file_name, "Ann1");
    assert_eq!(plan.user_name, "Me");
    assert!(plan.keeps_assets);
    let kept = import_from_byaf(Some("Ann"), "x", &files, &Json::no_members());
    assert_eq!(kept.file_name, "Ann");
    assert_eq!(kept.user_name, "undefined");
    assert!(!kept.keeps_assets);
    assert_eq!(free_file("a", ".png", &Vec::new()), Some("a (1).png".to_string()));
    let scenario = member("title", Json::text("T"));
    assert_eq!(chat_file(&scenario, "Ann", "stamp", ""), "T - stamp imported.jsonl");
    let mut card = Json::no_members();
    set_first_chat(&mut card, &vec!["T - stamp imported.jsonl".to_string()]);
    assert_eq!(card.str_at("chat"), Some("T - stamp imported"));
    let mut bg = ByafChatBackground { name: "n".to_string(), data: vec![1], paths: Vec::new() };
    name_background(&mut bg, "/other", "/u/i/bg.png");
    assert_eq!(bg.name, "n");
    name_background(&mut bg, "/u", "/u/i/bg.png");
    assert_eq!(bg.name, "/i/bg.png");
}

#[test]
fn macros_and_addresses_are_written_out() {
    assert_eq!(replace_macros("#{user}: hi {character}"), "{{user}}: hi {{char}}");
    assert_eq!(encode_uri("a b"), "a%20b");
    assert!(url_join("https://h/a", "b").contains("b"));
}

#[test]
fn addresses_are_joined_and_encoded() {
    assert_eq!(url_join("characters/a/", "//img/x.png"), "characters/a/img/x.png");
    assert_eq!(url_join("c\\a", "i\\x.png"), "c/a/i/x.png");
    assert_eq!(url_join("/", "x"), "x");
    assert_eq!(url_join("a/", "/"), "a");
    for (a, b, c) in [("a/", "/b/", "/c"), ("", "//", "c"), ("a", "\\", ""), ("/", "/b", "c/")] {
        assert_eq!(url_join(&url_join(a, b), c), url_join(a, &url_join(b, c)));
    }
    assert_eq!(encode_uri("\u{e9}%/?"), "%C3%A9%25/?");
    assert_eq!(encode_uri("a \u{e9}"), format!("{}{}", encode_uri("a "), encode_uri("\u{e9}")));
    assert!(encode_uri("\u{1f600}\"<>").is_ascii());
}

#[test]
fn broken_charx_archives_are_told() {
    let error = |v: Vec<ArchiveEntry>| parse_charx(&v).unwrap_err();
    assert_eq!(error(Vec::new()), "Failed to extract card.json from CharX file");
    assert_eq!(error(vec![entry("card.json", None)]), "Invalid CharX card file");
    assert_eq!(
        error(vec![entry("card.json", Some(Json::no_members()))]),
        "Invalid CharX card file: missing spec field"
    );
}

#[test]
fn charx_assets_are_found() {
    assert_eq!(
        get_embedded_zip_path_from_uri("embeded://assets/a.png"),
        Some("assets/a.png".to_string())
    );
    assert_eq!(get_embedded_zip_path_from_uri("https://h/a.png"), None);
    assert!(shares_base_name("joy.png", "joy"));
    assert!(!shares_base_name("joys.png", "joy"));
    let named = import_from_charx(&member("name", Json::text("A/B")), "now");
    assert_eq!(named.name, "AB");
    assert_eq!(named.card.str_at("create_date"), Some("now"));
}

#[test]
fn extensions_are_stripped() {
    assert_eq!(strip_trailing_image_extension("x.\u{c4}", "\u{e4}"), "x");
    assert_eq!(strip_trailing_image_extension("joy.PNG", "jpg"), "joy");
    assert_eq!(strip_trailing_image_extension("joy.png.jpg", "png"), "joy.png");
    assert_eq!(strip_trailing_image_extension("joy.txt", ""), "joy.txt");
    assert_eq!(strip_trailing_image_extension("", "png"), "");
    assert_eq!(strip_trailing_image_extension("\u{e9}.gif", "gif"), "\u{e9}");
    assert_eq!(strip_image_extension_or_keep("x.\u{c4}", "\u{e4}"), "x");
    assert_eq!(strip_image_extension_or_keep("x.\u{212a}", "k"), "x.\u{212a}");
}

#[test]
fn files_are_imported_by_kind() {
    let of = |kind: &str| member("file_type", Json::text(kind));
    let data = vec![1u8];
    assert!(matches!(import_character(&of("yml"), Some(&data)), Ok(ImportKind::Yaml)));
    assert!(matches!(import_character(&of("byaf"), Some(&data)), Ok(ImportKind::Byaf)));
    assert!(import_character(&of("exe"), Some(&data)).is_err());
    assert!(import_character(&of("png"), None).is_err());
    assert_eq!(exports_picture("png").unwrap(), true);
    assert_eq!(exports_picture("json").unwrap(), false);
    assert!(exports_picture("txt").is_err());
}

#[test]
fn characters_are_made_and_moved() {
    let extras = FormExtras {
        base: None,
        extensions: None,
        talkativeness: Json::float((0.5f64).to_bits(), "0.5"),
        depth: Json::natural(4),
    };
    let none = create_character(&Json::no_members(), &extras, "s", &Vec::new());
    assert_eq!(none.unwrap_err().status, 400);
    let form = member("ch_name", Json::text("A/nn"));
    let files = vec!["Ann.png".to_string()];
    let made = create_character(&form, &extras, "s", &files).unwrap();
    assert_eq!(made.file_name, "Ann1");
    assert_eq!(made.card.str_at("name"), Some("Ann"));
    let rename = |to: &str| RenameRequest {
        avatar_url: "Ann.png".to_string(),
        new_name: to.to_string(),
    };
    assert!(rename_character(&rename("//"), &files).is_err());
    let moved = rename_character(&rename("Bob"), &files).unwrap();
    assert_eq!(moved.old_internal_name, "Ann");
    assert_eq!(moved.new_internal_name, "Bob");
    let copy = |a: &str| DuplicateRequest { avatar_url: a.to_string() };
    assert!(duplicate_character(&copy("a/b.png")).is_err());
    assert_eq!(duplicate_file("Ann.png", &files), "Ann_1.png");
    assert_eq!(duplicate_file("Ann_1.png", &vec!["Ann_2.png".to_string()]), "Ann_3.png");
    let gone = |a: &str| DeleteRequest { avatar_url: a.to_string(), delete_chats: false };
    assert!(delete_character(&gone("")).is_err());
    assert!(delete_character(&gone("Ann.png")).is_ok());
}

#[test]
fn cards_are_validated() {
    let empty = Json::no_members();
    let mut none = TavernCardValidator::new(&empty, None);
    assert_eq!(none.validate(), None);
    assert!(none.last_error().is_some());
    let mut f = Fields::new();
    for key in ["name", "description", "personality", "scenario", "first_mes", "mes_example"] {
        f.push(key, Json::text("x"));
    }
    let first = f.done();
    assert_eq!(TavernCardValidator::new(&first, None).validate(), Some(1));
}
