//! Characters in CharX archives: a card and the pictures that belong to it.

use crate::characters::archive;
use crate::characters::archive::{ArchiveEntry, Buffer};
use crate::characters::helpers;
use crate::json;
use crate::json::Json;
use crate::paths;
use crate::sanitize;
use crate::secrets;
use crate::text;
use vstd::prelude::*;

verus! {

/// The beginnings of the addresses of files in the archive.
pub open spec fn embedded_prefixes() -> Seq<Seq<char>> {
    seq!["embeded://"@, "embedded://"@, "__asset:"@]
}

/// The extensions of pictures.
pub open spec fn image_extensions() -> Seq<Seq<char>> {
    seq![
        "png"@,
        "jpg"@,
        "jpeg"@,
        "webp"@,
        "gif"@,
        "apng"@,
        "avif"@,
        "bmp"@,
        "jfif"@,
    ]
}

/// The extensions of pictures.
fn image_extension_list() -> (r: [&'static str; 9])
    ensures
        helpers::slices(r@) == image_extensions(),
{
    let r = ["png", "jpg", "jpeg", "webp", "gif", "apng", "avif", "bmp", "jfif"];
    assert(helpers::slices(r@) =~= image_extensions());
    r
}

/// An asset as a card lists it.
#[derive(Debug)]
pub struct CharXAssetRaw {
    pub kind: String,
    pub name: String,
    pub ext: String,
    pub zip_path: String,
    pub order: usize,
}

/// What a [`CharXAssetRaw`] is.
pub struct RawView {
    pub kind: Seq<char>,
    pub name: Seq<char>,
    pub ext: Seq<char>,
    pub zip_path: Seq<char>,
    pub order: int,
}

impl CharXAssetRaw {
    pub open spec fn view(&self) -> RawView {
        RawView {
            kind: self.kind@,
            name: self.name@,
            ext: self.ext@,
            zip_path: self.zip_path@,
            order: self.order as int,
        }
    }

    fn copy(&self) -> (r: CharXAssetRaw)
        ensures
            r@ == self@,
    {
        CharXAssetRaw {
            kind: self.kind.clone(),
            name: self.name.clone(),
            ext: self.ext.clone(),
            zip_path: self.zip_path.clone(),
            order: self.order,
        }
    }
}

/// The views of assets.
pub open spec fn raws_view(v: Seq<CharXAssetRaw>) -> Seq<RawView> {
    Seq::new(v.len(), |i: int| v[i]@)
}

/// Where a picture is stored.
#[derive(Clone, Copy, Debug, PartialEq, Eq, Structural)]
pub enum CharXStorageCategory {
    Sprite,
    Background,
    Misc,
}

/// An asset to be stored.
#[derive(Debug)]
pub struct CharXAsset {
    pub zip_path: String,
    pub ext: String,
    pub storage: CharXStorageCategory,
    pub base_name: String,
}

/// What a [`CharXAsset`] is.
pub struct AssetView {
    pub zip_path: Seq<char>,
    pub ext: Seq<char>,
    pub storage: CharXStorageCategory,
    pub base_name: Seq<char>,
}

impl CharXAsset {
    pub open spec fn view(&self) -> AssetView {
        AssetView {
            zip_path: self.zip_path@,
            ext: self.ext@,
            storage: self.storage,
            base_name: self.base_name@,
        }
    }
}

/// The views of assets.
pub open spec fn assets_view(v: Seq<CharXAsset>) -> Seq<AssetView> {
    Seq::new(v.len(), |i: int| v[i]@)
}

/// Whether files with the extension are pictures.
pub open spec fn is_image(ext: Seq<char>) -> bool {
    image_extensions().contains(text::lowercase(ext))
}

/// Whether files with the extension, in lower case, are pictures.
pub fn is_image_ext(lower: &str) -> (r: bool)
    ensures
        r == image_extensions().contains(lower@),
{
    let list = image_extension_list();
    let ghost all = image_extensions();
    let mut i: usize = 0;
    while i < 9
        invariant
            all == image_extensions(),
            helpers::slices(list@) == all,
            i <= 9,
            forall|j: int| 0 <= j < i ==> all[j] != lower@,
        decreases 9 - i,
    {
        assert(all[i as int] == list@[i as int]@);
        if text::same(list[i], lower) {
            assert(all[i as int] == lower@);
            return true;
        }
        i += 1;
    }
    false
}

/// Whether files with the extension are pictures.
pub fn is_charx_image_ext(ext: &str) -> (r: bool)
    ensures
        r == is_image(ext@),
{
    is_image_ext(&text::to_lowercase(ext))
}

/// Whether assets of the type are sprites.
pub fn is_charx_sprite_type(ty: &str) -> (r: bool)
    ensures
        r == (ty@ == "emotion"@ || ty@ == "expression"@),
{
    text::same(ty, "emotion") || text::same(ty, "expression")
}

/// Whether assets of the type are backgrounds.
pub fn is_charx_background_type(ty: &str) -> (r: bool)
    ensures
        r == (ty@ == "background"@),
{
    text::same(ty, "background")
}

/// The path in the archive that the rest of an address names, whichever beginning it has
/// from the `i`th on.
pub open spec fn embedded_from(address: Seq<char>, i: int) -> Option<Seq<char>>
    decreases 3 - i,
{
    if i < 0 || i >= 3 {
        None
    } else if text::begins(text::ascii_lower(address), embedded_prefixes()[i]) {
        archive::normalized(address.skip(embedded_prefixes()[i].len() as int))
    } else {
        embedded_from(address, i + 1)
    }
}

/// The path of a file in the archive that an address names. The letters of its beginning may
/// be large or small.
pub open spec fn embedded_path(uri: Seq<char>) -> Option<Seq<char>> {
    embedded_from(text::trimmed(uri), 0)
}

/// The path of a file in the archive that an address names.
pub fn get_embedded_zip_path_from_uri(uri: &str) -> (r: Option<String>)
    ensures
        json::string_opt(r) == embedded_path(uri@),
{
    let address = text::trim(uri);
    let lower = text::to_ascii_lowercase(&address);
    let prefixes = ["embeded://", "embedded://", "__asset:"];
    assert(helpers::slices(prefixes@) =~= embedded_prefixes());
    let a = text::chars_of(&address);
    let mut i: usize = 0;
    while i < 3
        invariant
            i <= 3,
            a@ == address@,
            lower@ == text::ascii_lower(address@),
            helpers::slices(prefixes@) == embedded_prefixes(),
            embedded_from(address@, 0) == embedded_from(address@, i as int),
            address@ == text::trimmed(uri@),
        decreases 3 - i,
    {
        assert(embedded_prefixes()[i as int] == prefixes@[i as int]@);
        if text::starts_with(&lower, prefixes[i]) {
            let n: usize = text::chars_of(prefixes[i]).len();
            assert(a@.subrange(n as int, a@.len() as int) =~= address@.skip(n as int));
            return archive::normalize_zip_entry_path(&text::slice_text(&a, n, a.len()));
        }
        i += 1;
    }
    None
}

/// The extension of an asset: the one that the card gives, or that of its file.
pub open spec fn asset_extension(given: Seq<char>, zip_path: Seq<char>) -> Seq<char> {
    let meta = text::lowercase(text::drop_leading(text::trimmed(given), '.'));
    if meta.len() > 0 {
        meta
    } else {
        text::lowercase(path_extension(zip_path))
    }
}

/// The extension of the file at the end of a path; empty where it has none.
pub open spec fn path_extension(path: Seq<char>) -> Seq<char> {
    match paths::last_name(path) {
        Some(name) => secrets::or_empty(paths::extension_of(name)),
        None => Seq::empty(),
    }
}

/// The extension of the file at the end of a path.
pub fn extension_at(path: &str) -> (r: Option<String>)
    ensures
        json::string_opt(r) == (match paths::last_name(path@) {
            Some(name) => paths::extension_of(name),
            None => None,
        }),
{
    match paths::file_name(path) {
        Some(name) => paths::extension(&name),
        None => None,
    }
}

/// The extension of an asset.
pub fn derive_charx_asset_extension(asset_ext: &str, zip_path: &str) -> (r: String)
    ensures
        r@ == asset_extension(asset_ext@, zip_path@),
{
    let meta = text::to_lowercase(&text::trim_start_char(&text::trim(asset_ext), '.'));
    if !meta.as_str().is_empty() {
        return meta;
    }
    text::to_lowercase(&secrets::unwrap_or_empty(extension_at(zip_path)))
}

/// Whether a name ends with the extension, whatever the case of its letters.
pub open spec fn has_extension(name: Seq<char>, ext: Seq<char>) -> bool {
    text::ends(text::lowercase(name), "."@ + ext)
}

/// The first of the extensions of pictures from the `i`th on that a name ends with.
pub open spec fn image_extension_from(name: Seq<char>, i: int) -> Option<Seq<char>>
    decreases 9 - i,
{
    if i < 0 || i >= 9 {
        None
    } else if has_extension(name, image_extensions()[i]) {
        Some(image_extensions()[i])
    } else {
        image_extension_from(name, i + 1)
    }
}

/// The extension that a name ends with: the one that is expected, or else that of a picture.
pub open spec fn trailing_extension(name: Seq<char>, expected: Seq<char>) -> Option<Seq<char>> {
    if name.len() == 0 {
        None
    } else if expected.len() > 0 && has_extension(name, expected) {
        Some(expected)
    } else {
        image_extension_from(name, 0)
    }
}

/// A name without as many bytes at its end as the extension and its dot take, where a character
/// ends there.
pub open spec fn without_extension(name: Seq<char>, ext: Seq<char>) -> Option<Seq<char>> {
    let n = vstd::utf8::encode_utf8(name).len() - vstd::utf8::encode_utf8(ext).len() - 1;
    text::first_bytes(
        name,
        if n < 0 {
            0
        } else {
            n
        },
    )
}

/// A name without the extension that is expected, or else without that of a picture; none where
/// it cannot be cut there.
pub open spec fn bare_name(name: Seq<char>, expected: Seq<char>) -> Option<Seq<char>> {
    match trailing_extension(name, expected) {
        Some(ext) => without_extension(name, ext),
        None => Some(name),
    }
}

fn find_extension(name: &str, expected_ext: &str) -> (r: Option<String>)
    ensures
        json::string_opt(r) == trailing_extension(name@, expected_ext@),
{
    if name.is_empty() {
        return None;
    }
    let lower = text::to_lowercase(name);
    if !expected_ext.is_empty() && text::ends_with(&lower, &text::join2(".", expected_ext)) {
        return Some(expected_ext.to_owned());
    }
    let list = image_extension_list();
    let mut i: usize = 0;
    while i < 9
        invariant
            i <= 9,
            name@.len() > 0,
            lower@ == text::lowercase(name@),
            helpers::slices(list@) == image_extensions(),
            image_extension_from(name@, 0) == image_extension_from(name@, i as int),
            !(expected_ext@.len() > 0 && has_extension(name@, expected_ext@)),
        decreases 9 - i,
    {
        assert(image_extensions()[i as int] == list@[i as int]@);
        if text::ends_with(&lower, &text::join2(".", list[i])) {
            return Some(list[i].to_owned());
        }
        i += 1;
    }
    None
}

fn cut_extension(name: &str, ext: &str) -> (r: Option<String>)
    ensures
        json::string_opt(r) == without_extension(name@, ext@),
{
    let n: usize = name.as_bytes().len();
    let m: usize = ext.as_bytes().len();
    text::take_bytes(
        name,
        if n > m {
            n - m - 1
        } else {
            0
        },
    )
}

/// A name without the extension that is expected, or else without that of a picture. The
/// extension that is expected is in lower case, and the name can be cut there.
pub fn strip_trailing_image_extension(name: &str, expected_ext: &str) -> (r: String)
    requires
        bare_name(name@, expected_ext@) is Some,
    ensures
        bare_name(name@, expected_ext@) == Some(r@),
{
    match find_extension(name, expected_ext) {
        Some(ext) => match cut_extension(name, &ext) {
            Some(s) => s,
            None => name.to_owned(),
        },
        None => name.to_owned(),
    }
}

/// A name without its extension, or the whole name where it cannot be cut.
pub open spec fn bare_or_whole(name: Seq<char>, expected: Seq<char>) -> Seq<char> {
    match bare_name(name, expected) {
        Some(s) => s,
        None => name,
    }
}

/// A name without the extension that is expected, or else without that of a picture. It stays as
/// it is where the extension ends within a character.
pub fn strip_image_extension_or_keep(name: &str, expected_ext: &str) -> (r: String)
    ensures
        r@ == bare_or_whole(name@, expected_ext@),
{
    let cut = match find_extension(name, expected_ext) {
        Some(ext) => cut_extension(name, &ext).is_some(),
        None => true,
    };
    if cut {
        strip_trailing_image_extension(name, expected_ext)
    } else {
        name.to_owned()
    }
}

/// Whether the character is a letter or a digit of ASCII.
pub open spec fn is_word(c: char) -> bool {
    'a' <= c <= 'z' || '0' <= c <= '9'
}

/// The letters and digits of `s`, small, with one separator for each run of other
/// characters.
pub open spec fn slug(s: Seq<char>, sep: char) -> Seq<char>
    decreases s.len(),
{
    if s.len() == 0 {
        Seq::empty()
    } else {
        let rest = slug(s.drop_last(), sep);
        let c = text::small(s.last());
        if is_word(c) {
            rest.push(c)
        } else if rest.len() > 0 && rest.last() == sep {
            rest
        } else {
            rest.push(sep)
        }
    }
}

/// The separator in the names of assets.
pub open spec fn separator(use_hyphens: bool) -> char {
    if use_hyphens {
        '-'
    } else {
        '_'
    }
}

/// The name that an asset is stored under before it is made safe: the slug of its name, or
/// `fallback` where that is empty.
pub open spec fn asset_slug(name: Seq<char>, fallback: Seq<char>, sep: char) -> Seq<char> {
    let base = text::drop_trailing(text::drop_leading(slug(text::trimmed(name), sep), sep), sep);
    if base.len() == 0 {
        text::lowercase(fallback)
    } else {
        base
    }
}

/// The name that an asset is stored under.
pub open spec fn asset_base(name: Seq<char>, fallback: Seq<char>, use_hyphens: bool) -> Seq<char> {
    if text::trimmed(name).len() == 0 {
        text::lowercase(fallback)
    } else {
        let safe = sanitize::sanitized(
            asset_slug(name, fallback, separator(use_hyphens)),
            ""@,
        );
        if safe.len() == 0 {
            text::lowercase(fallback)
        } else {
            text::lowercase(safe)
        }
    }
}

fn make_slug(s: &str, sep: char) -> (r: String)
    ensures
        r@ == slug(s@, sep),
{
    let a = text::chars_of(s);
    let mut out: Vec<char> = Vec::new();
    let mut i: usize = 0;
    assert(a@.take(0) =~= Seq::<char>::empty());
    while i < a.len()
        invariant
            i <= a@.len(),
            out@ == slug(a@.take(i as int), sep),
        decreases a@.len() - i,
    {
        assert(a@.take(i as int + 1).drop_last() =~= a@.take(i as int));
        let c = text::small_char(a[i]);
        if ('a' <= c && c <= 'z') || ('0' <= c && c <= '9') {
            out.push(c);
        } else if out.len() > 0 && out[out.len() - 1] == sep {
        } else {
            out.push(sep);
        }
        i += 1;
    }
    assert(a@.take(a@.len() as int) =~= a@);
    text::text_of(&out)
}

/// The name that an asset is stored under.
pub fn get_charx_asset_base_name(name: &str, fallback: &str, use_hyphens: bool) -> (r: String)
    ensures
        r@ == asset_base(name@, fallback@, use_hyphens),
{
    let cleaned = text::trim(name);
    if cleaned.as_str().is_empty() {
        return text::to_lowercase(fallback);
    }
    let sep = if use_hyphens {
        '-'
    } else {
        '_'
    };
    let s = make_slug(&cleaned, sep);
    let stripped = text::trim_end_char(&text::trim_start_char(&s, sep), sep);
    let base = if stripped.as_str().is_empty() {
        text::to_lowercase(fallback)
    } else {
        stripped
    };
    let safe = sanitize::sanitize_filename_strip(&base);
    if safe.as_str().is_empty() {
        text::to_lowercase(fallback)
    } else {
        text::to_lowercase(&safe)
    }
}

/// The assets that a card lists.
pub open spec fn listed_assets(card: json::Tree) -> Seq<json::Tree> {
    match card.get("data"@) {
        Some(d) => match d.items_at("assets"@) {
            Some(a) => a,
            None => Seq::empty(),
        },
        None => Seq::empty(),
    }
}

/// Those of the assets that lie in the archive.
pub open spec fn embedded_assets(assets: Seq<json::Tree>) -> Seq<RawView>
    decreases assets.len(),
{
    if assets.len() == 0 {
        Seq::empty()
    } else {
        let rest = embedded_assets(assets.drop_last());
        let a = assets.last();
        match embedded_path(a.text_or("uri"@, ""@)) {
            Some(path) => rest.push(
                RawView {
                    kind: text::lowercase(a.text_or("type"@, ""@)),
                    name: a.text_or("name"@, ""@),
                    ext: asset_extension(a.text_or("ext"@, ""@), path),
                    zip_path: path,
                    order: assets.len() - 1,
                },
            ),
            None => rest,
        }
    }
}

/// Those of the assets of a card that lie in the archive.
pub fn collect_charx_assets(card: &Json) -> (r: Vec<CharXAssetRaw>)
    ensures
        raws_view(r@) == embedded_assets(listed_assets(card@)),
{
    let mut out: Vec<CharXAssetRaw> = Vec::new();
    assert(raws_view(out@) =~= Seq::empty());
    let data = match card.get("data") {
        Some(d) => d,
        None => return out,
    };
    let assets = match data.array_at("assets") {
        Some(a) => a,
        None => return out,
    };
    let ghost all = json::trees(assets@);
    let mut i: usize = 0;
    assert(raws_view(out@) =~= embedded_assets(all.take(0)));
    while i < assets.len()
        invariant
            all == json::trees(assets@),
            i <= assets@.len(),
            raws_view(out@) == embedded_assets(all.take(i as int)),
        decreases assets@.len() - i,
    {
        assert(all.take(i as int + 1).drop_last() =~= all.take(i as int));
        assert(all.take(i as int + 1).last() == assets@[i as int]@);
        let ghost before = out@;
        let a = &assets[i];
        match get_embedded_zip_path_from_uri(a.str_or("uri", "")) {
            Some(path) => {
                let raw = CharXAssetRaw {
                    kind: text::to_lowercase(a.str_or("type", "")),
                    name: a.str_or("name", "").to_owned(),
                    ext: derive_charx_asset_extension(a.str_or("ext", ""), &path),
                    zip_path: path,
                    order: i,
                };
                out.push(raw);
                assert(raws_view(out@) =~= raws_view(before).push(raw@));
            },
            None => {},
        }
        i += 1;
    }
    assert(all.take(all.len() as int) =~= all);
    out
}

/// Whether an asset is an icon.
pub open spec fn is_icon(a: RawView) -> bool {
    a.kind == "icon"@ && is_image(a.ext)
}

/// The position of the first icon at or after `i`, of the name `main` where `main` is asked
/// for; the number of assets where there is none.
pub open spec fn icon_from(assets: Seq<RawView>, main: bool, i: int) -> int
    decreases assets.len() - i,
{
    if i >= assets.len() {
        assets.len() as int
    } else if is_icon(assets[i]) && (main ==> text::lowercase(assets[i].name) == "main"@) {
        i
    } else {
        icon_from(assets, main, i + 1)
    }
}

/// The icon of a character: the one of the name `main`, or else the first.
pub open spec fn icon_of(assets: Seq<RawView>) -> Option<RawView> {
    let m = icon_from(assets, true, 0);
    let f = icon_from(assets, false, 0);
    if 0 <= m < assets.len() {
        Some(assets[m])
    } else if 0 <= f < assets.len() {
        Some(assets[f])
    } else {
        None
    }
}

fn find_icon(assets: &Vec<CharXAssetRaw>, main: bool) -> (r: usize)
    ensures
        r == icon_from(raws_view(assets@), main, 0),
        r <= assets@.len(),
{
    let ghost all = raws_view(assets@);
    let mut i: usize = 0;
    while i < assets.len()
        invariant
            all == raws_view(assets@),
            i <= assets@.len(),
            icon_from(all, main, 0) == icon_from(all, main, i as int),
        decreases assets@.len() - i,
    {
        assert(all[i as int] == assets@[i as int]@);
        if text::same(&assets[i].kind, "icon") && is_charx_image_ext(&assets[i].ext) && (!main
            || text::same(&text::to_lowercase(&assets[i].name), "main")) {
            return i;
        }
        i += 1;
    }
    i
}

/// The view behind an optional asset.
pub open spec fn raw_opt(o: Option<CharXAssetRaw>) -> Option<RawView> {
    match o {
        Some(a) => Some(a@),
        None => None,
    }
}

/// The icon of a character.
pub fn pick_charx_icon_asset(assets: &Vec<CharXAssetRaw>) -> (r: Option<CharXAssetRaw>)
    ensures
        raw_opt(r) == icon_of(raws_view(assets@)),
{
    let m = find_icon(assets, true);
    if m < assets.len() {
        return Some(assets[m].copy());
    }
    let f = find_icon(assets, false);
    if f < assets.len() {
        return Some(assets[f].copy());
    }
    None
}

/// Where an asset of the type is stored.
pub open spec fn storage_of(kind: Seq<char>) -> CharXStorageCategory {
    if kind == "emotion"@ || kind == "expression"@ {
        CharXStorageCategory::Sprite
    } else if kind == "background"@ {
        CharXStorageCategory::Background
    } else {
        CharXStorageCategory::Misc
    }
}

/// The name of a kind of storage.
pub open spec fn storage_name(s: CharXStorageCategory) -> Seq<char> {
    match s {
        CharXStorageCategory::Sprite => "sprite"@,
        CharXStorageCategory::Background => "background"@,
        CharXStorageCategory::Misc => "misc"@,
    }
}

/// An asset as it is stored.
pub open spec fn stored(a: RawView) -> AssetView {
    let storage = storage_of(a.kind);
    AssetView {
        zip_path: a.zip_path,
        ext: a.ext,
        storage,
        base_name: asset_base(
            bare_or_whole(a.name, a.ext),
            storage_name(storage) + "-"@ + text::decimal(a.order as nat),
            storage == CharXStorageCategory::Sprite,
        ),
    }
}

/// The assets that are stored: the pictures that are no icons.
pub open spec fn stored_assets(assets: Seq<RawView>) -> Seq<AssetView>
    decreases assets.len(),
{
    if assets.len() == 0 {
        Seq::empty()
    } else {
        let rest = stored_assets(assets.drop_last());
        let a = assets.last();
        if is_image(a.ext) && a.kind != "icon"@ && a.kind != "user_icon"@ {
            rest.push(stored(a))
        } else {
            rest
        }
    }
}

fn store(a: &CharXAssetRaw) -> (r: CharXAsset)
    ensures
        r@ == stored(a@),
{
    let storage = if is_charx_sprite_type(&a.kind) {
        CharXStorageCategory::Sprite
    } else if is_charx_background_type(&a.kind) {
        CharXStorageCategory::Background
    } else {
        CharXStorageCategory::Misc
    };
    let label = match storage {
        CharXStorageCategory::Sprite => "sprite",
        CharXStorageCategory::Background => "background",
        CharXStorageCategory::Misc => "misc",
    };
    let fallback = text::join3(label, "-", &text::decimal_text(a.order as u128));
    let bare = strip_image_extension_or_keep(&a.name, &a.ext);
    let hyphens = match storage {
        CharXStorageCategory::Sprite => true,
        _ => false,
    };
    CharXAsset {
        zip_path: a.zip_path.clone(),
        ext: a.ext.clone(),
        storage,
        base_name: get_charx_asset_base_name(&bare, &fallback, hyphens),
    }
}

/// The assets that are stored.
pub fn map_charx_assets_for_storage(assets: &Vec<CharXAssetRaw>) -> (r: Vec<CharXAsset>)
    ensures
        assets_view(r@) == stored_assets(raws_view(assets@)),
{
    let ghost all = raws_view(assets@);
    let mut out: Vec<CharXAsset> = Vec::new();
    let mut i: usize = 0;
    assert(assets_view(out@) =~= stored_assets(all.take(0)));
    while i < assets.len()
        invariant
            all == raws_view(assets@),
            i <= assets@.len(),
            assets_view(out@) == stored_assets(all.take(i as int)),
        decreases assets@.len() - i,
    {
        assert(all.take(i as int + 1).drop_last() =~= all.take(i as int));
        assert(all.take(i as int + 1).last() == assets@[i as int]@);
        let ghost before = out@;
        if is_charx_image_ext(&assets[i].ext) && !text::same(&assets[i].kind, "icon")
            && !text::same(&assets[i].kind, "user_icon") {
            let s = store(&assets[i]);
            out.push(s);
            assert(assets_view(out@) =~= assets_view(before).push(s@));
        }
        i += 1;
    }
    assert(all.take(all.len() as int) =~= all);
    out
}

/// What a CharX archive holds.
#[derive(Debug)]
pub struct CharXParseResult {
    pub card: Json,
    pub avatar: Option<Vec<u8>>,
    pub assets: Vec<CharXAsset>,
    pub buffers: Vec<Buffer>,
}

/// The paths of the files that the icon and the assets are in.
pub open spec fn asset_paths(icon: Option<RawView>, assets: Seq<AssetView>) -> Seq<Seq<char>> {
    let rest = Seq::new(assets.len(), |i: int| assets[i].zip_path);
    match icon {
        Some(a) => seq![a.zip_path] + rest,
        None => rest,
    }
}

/// The contents of the file of that path.
pub open spec fn buffer_at(v: Seq<(Seq<char>, Seq<u8>)>, path: Seq<char>, i: int) -> Option<
    Seq<u8>,
>
    decreases v.len() - i,
{
    if i < 0 || i >= v.len() {
        None
    } else if v[i].0 == path {
        Some(v[i].1)
    } else {
        buffer_at(v, path, i + 1)
    }
}

proof fn buffer_at_is(v: Seq<(Seq<char>, Seq<u8>)>, path: Seq<char>, i: int, p: int)
    requires
        0 <= i <= p <= v.len(),
        p < v.len() ==> v[p].0 == path,
        forall|j: int| 0 <= j < p ==> (#[trigger] v[j]).0 != path,
    ensures
        p < v.len() ==> buffer_at(v, path, i) == Some(v[p].1),
        p == v.len() ==> buffer_at(v, path, i) is None,
    decreases p - i,
{
    if i < p {
        assert(v[i].0 != path);
        buffer_at_is(v, path, i + 1, p);
    }
}

/// A copy of the contents of the file of that path.
pub fn buffer_copy(buffers: &Vec<Buffer>, path: &str) -> (r: Option<Vec<u8>>)
    ensures
        archive::bytes_opt(r) == buffer_at(archive::buffers_view(buffers@), path@, 0),
{
    let ghost v = archive::buffers_view(buffers@);
    match archive::find_buffer(buffers, path) {
        Some(p) => {
            proof {
                assert forall|j: int| 0 <= j < p implies (#[trigger] v[j]).0 != path@ by {
                    assert(buffers@[j].path@ != path@);
                }
                assert(v[p as int] == (buffers@[p as int].path@, buffers@[p as int].data@));
                buffer_at_is(v, path@, 0, p as int);
            }
            Some(archive::copy_bytes(&buffers[p].data))
        },
        None => {
            proof {
                assert forall|j: int| 0 <= j < v.len() implies (#[trigger] v[j]).0 != path@ by {
                    if v[j].0 == path@ {
                        assert(archive::has_path(v, path@));
                    }
                }
                buffer_at_is(v, path@, 0, v.len() as int);
            }
            None
        },
    }
}

/// The error where an archive has no card.
pub open spec fn charx_error(
    entries: Seq<(Option<Seq<char>>, Option<Seq<u8>>)>,
    card: Option<json::Tree>,
) -> Option<Seq<char>> {
    if archive::entry_from(entries, "card.json"@, 0) is None {
        Some("Failed to extract card.json from CharX file"@)
    } else {
        match card {
            Some(c) => if c.get("spec"@) is None {
                Some("Invalid CharX card file: missing spec field"@)
            } else {
                None
            },
            None => Some("Invalid CharX card file"@),
        }
    }
}

/// The JSON value of the entry whose name ends with `suffix`.
pub open spec fn json_of_entry(entries: Seq<ArchiveEntry>, suffix: Seq<char>) -> Option<
    json::Tree,
> {
    match archive::entry_from(archive::names_and_contents(entries), suffix, 0) {
        Some(p) => match entries[p].json {
            Some(j) => Some(j@),
            None => None,
        },
        None => None,
    }
}

/// The JSON value of the entry whose name ends with `suffix`.
pub fn entry_json<'a>(entries: &'a Vec<ArchiveEntry>, suffix: &str) -> (r: Option<&'a Json>)
    ensures
        json::tree_opt(r) == json_of_entry(entries@, suffix@),
{
    match archive::find_entry(entries, suffix) {
        Some(p) => match &entries[p].json {
            Some(j) => Some(j),
            None => None,
        },
        None => None,
    }
}

/// The card and the pictures in a CharX archive, of whose entries the JSON values are known.
pub fn parse_charx(entries: &Vec<ArchiveEntry>) -> (r: Result<CharXParseResult, String>)
    ensures
        match r {
            Ok(x) => {
                let raws = embedded_assets(listed_assets(x.card@));
                let paths = asset_paths(icon_of(raws), stored_assets(raws));
                &&& charx_error(
                    archive::names_and_contents(entries@),
                    json_of_entry(entries@, "card.json"@),
                ) is None
                &&& json_of_entry(entries@, "card.json"@) == Some(x.card@)
                &&& assets_view(x.assets@) == stored_assets(raws)
                &&& archive::buffers_view(x.buffers@) == archive::gathered(
                    archive::names_and_contents(entries@),
                    paths,
                )
                &&& archive::bytes_opt(x.avatar) == (match icon_of(raws) {
                    Some(icon) => buffer_at(
                        archive::buffers_view(x.buffers@),
                        icon.zip_path,
                        0,
                    ),
                    None => None,
                })
            },
            Err(e) => charx_error(
                archive::names_and_contents(entries@),
                json_of_entry(entries@, "card.json"@),
            ) == Some(e@),
        },
{
    if archive::find_entry(entries, "card.json").is_none() {
        return Err("Failed to extract card.json from CharX file".to_owned());
    }
    let card = match entry_json(entries, "card.json") {
        Some(j) => j,
        None => return Err("Invalid CharX card file".to_owned()),
    };
    if card.get("spec").is_none() {
        return Err("Invalid CharX card file: missing spec field".to_owned());
    }
    let raws = collect_charx_assets(card);
    let icon = pick_charx_icon_asset(&raws);
    let assets = map_charx_assets_for_storage(&raws);
    let mut names: Vec<String> = Vec::new();
    match &icon {
        Some(a) => names.push(a.zip_path.clone()),
        None => {},
    }
    let ghost start = json::texts(names@);
    let mut i: usize = 0;
    while i < assets.len()
        invariant
            i <= assets@.len(),
            json::texts(names@) =~= start + Seq::new(i as nat, |k: int| assets@[k]@.zip_path),
        decreases assets@.len() - i,
    {
        let ghost before = names@;
        names.push(assets[i].zip_path.clone());
        assert(json::texts(names@) =~= json::texts(before).push(assets@[i as int]@.zip_path));
        assert(start + Seq::new((i + 1) as nat, |k: int| assets@[k]@.zip_path) =~= (start
            + Seq::new(i as nat, |k: int| assets@[k]@.zip_path)).push(assets@[i as int]@.zip_path));
        i += 1;
    }
    assert(json::texts(names@) =~= asset_paths(raw_opt(icon), assets_view(assets@)));
    let buffers = archive::gather_files(entries, &names);
    let avatar = match &icon {
        Some(a) => buffer_copy(&buffers, &a.zip_path),
        None => None,
    };
    Ok(CharXParseResult { card: card.copy(), avatar, assets, buffers })
}

/// A picture to be written: the directory, which is made where there is none, the name of
/// the file, and whether files that differ in the extension alone are deleted first.
#[derive(Debug)]
pub struct AssetWrite {
    pub directory: String,
    pub base_name: String,
    pub path: String,
    pub replaces: bool,
    pub data: Vec<u8>,
}

/// What an [`AssetWrite`] is.
pub struct WriteView {
    pub directory: Seq<char>,
    pub base_name: Seq<char>,
    pub path: Seq<char>,
    pub replaces: bool,
    pub data: Seq<u8>,
}

impl AssetWrite {
    pub open spec fn view(&self) -> WriteView {
        WriteView {
            directory: self.directory@,
            base_name: self.base_name@,
            path: self.path@,
            replaces: self.replaces,
            data: self.data@,
        }
    }
}

/// The views of writes.
pub open spec fn writes_view(v: Seq<AssetWrite>) -> Seq<WriteView> {
    Seq::new(v.len(), |i: int| v[i]@)
}

/// The directory that a kind of picture of a character is kept in.
pub open spec fn storage_directory(
    s: CharXStorageCategory,
    characters: Seq<char>,
    images: Seq<char>,
    folder: Seq<char>,
) -> Seq<char> {
    match s {
        CharXStorageCategory::Sprite => paths::joined_path(characters, folder),
        CharXStorageCategory::Background => paths::joined_path(
            paths::joined_path(characters, folder),
            "backgrounds"@,
        ),
        CharXStorageCategory::Misc => paths::joined_path(images, folder),
    }
}

/// How a picture is written.
pub open spec fn write_of(
    a: AssetView,
    data: Seq<u8>,
    characters: Seq<char>,
    images: Seq<char>,
    folder: Seq<char>,
) -> WriteView {
    let directory = storage_directory(a.storage, characters, images, folder);
    let ext = if a.ext.len() == 0 {
        "png"@
    } else {
        a.ext
    };
    WriteView {
        directory,
        base_name: a.base_name,
        path: paths::joined_path(directory, a.base_name + "."@ + ext),
        replaces: a.storage != CharXStorageCategory::Misc,
        data,
    }
}

/// How the pictures are written whose files are in the archive.
pub open spec fn asset_writes(
    assets: Seq<AssetView>,
    buffers: Seq<(Seq<char>, Seq<u8>)>,
    characters: Seq<char>,
    images: Seq<char>,
    folder: Seq<char>,
) -> Seq<WriteView>
    decreases assets.len(),
{
    if assets.len() == 0 {
        Seq::empty()
    } else {
        let rest = asset_writes(assets.drop_last(), buffers, characters, images, folder);
        match buffer_at(buffers, assets.last().zip_path, 0) {
            Some(data) => rest.push(write_of(assets.last(), data, characters, images, folder)),
            None => rest,
        }
    }
}

/// How the pictures of a character are written: sprites and backgrounds below its directory,
/// others below the one for images. A picture whose file is not in the archive is passed
/// over.
pub fn persist_charx_assets(
    assets: &Vec<CharXAsset>,
    buffers: &Vec<Buffer>,
    characters: &str,
    images: &str,
    character_folder: &str,
) -> (r: Vec<AssetWrite>)
    ensures
        writes_view(r@) == asset_writes(
            assets_view(assets@),
            archive::buffers_view(buffers@),
            characters@,
            images@,
            character_folder@,
        ),
{
    let ghost all = assets_view(assets@);
    let ghost files = archive::buffers_view(buffers@);
    let mut out: Vec<AssetWrite> = Vec::new();
    let mut i: usize = 0;
    assert(writes_view(out@) =~= asset_writes(
        all.take(0),
        files,
        characters@,
        images@,
        character_folder@,
    ));
    while i < assets.len()
        invariant
            all == assets_view(assets@),
            files == archive::buffers_view(buffers@),
            i <= assets@.len(),
            writes_view(out@) == asset_writes(
                all.take(i as int),
                files,
                characters@,
                images@,
                character_folder@,
            ),
        decreases assets@.len() - i,
    {
        assert(all.take(i as int + 1).drop_last() =~= all.take(i as int));
        assert(all.take(i as int + 1).last() == assets@[i as int]@);
        let ghost before = out@;
        let a = &assets[i];
        match buffer_copy(buffers, &a.zip_path) {
            Some(data) => {
                let directory = match a.storage {
                    CharXStorageCategory::Sprite => paths::join(characters, character_folder),
                    CharXStorageCategory::Background => paths::join(
                        &paths::join(characters, character_folder),
                        "backgrounds",
                    ),
                    CharXStorageCategory::Misc => paths::join(images, character_folder),
                };
                let ext = if a.ext.as_str().is_empty() {
                    "png"
                } else {
                    a.ext.as_str()
                };
                let file = text::join3(&a.base_name, ".", ext);
                let replaces = match a.storage {
                    CharXStorageCategory::Misc => false,
                    _ => true,
                };
                let w = AssetWrite {
                    path: paths::join(&directory, &file),
                    directory,
                    base_name: a.base_name.clone(),
                    replaces,
                    data,
                };
                out.push(w);
                assert(writes_view(out@) =~= writes_view(before).push(w@));
            },
            None => {},
        }
        i += 1;
    }
    assert(all.take(all.len() as int) =~= all);
    out
}

/// Whether a file of that name differs from `base_name` in the extension alone.
pub fn shares_base_name(file_name: &str, base_name: &str) -> (r: bool)
    ensures
        r == (paths::stem_of(file_name@) == base_name@),
{
    text::same(&paths::stem(file_name), base_name)
}

/// A card from an archive as it is stored, and the name of its character made safe.
#[derive(Debug)]
pub struct NamedCard {
    pub card: Json,
    pub name: String,
}

/// The name that a card from an archive is stored under.
pub open spec fn archived_name(card: json::Tree, now: Seq<char>) -> Seq<char> {
    let dated = member_set(helpers::published(card), "create_date"@, json::txt(now));
    sanitize::sanitized(dated.text_or("name"@, ""@), ""@)
}

/// A card from an archive as it is stored.
pub open spec fn archived_card(card: json::Tree, now: Seq<char>) -> json::Tree {
    let dated = member_set(helpers::published(card), "create_date"@, json::txt(now));
    member_set(dated, "name"@, json::txt(archived_name(card, now)))
}

/// A card from an archive, already of the second format, as it is stored: without what is
/// private, dated, and with its name made safe.
pub fn import_from_charx(card: &Json, now: &str) -> (r: NamedCard)
    ensures
        r.name@ == archived_name(card@, now@),
        r.card@ == archived_card(card@, now@),
{
    let mut out = card.copy();
    helpers::unset_private_fields(&mut out);
    helpers::set_val(&mut out, "create_date", Json::text(now));
    let name = sanitize::sanitize_filename_strip(out.str_or("name", ""));
    helpers::set_val(&mut out, "name", Json::text(&name));
    NamedCard { card: out, name }
}

/// `t` with `v` under the key `k`, where it is an object.
pub open spec fn member_set(t: json::Tree, k: Seq<char>, v: json::Tree) -> json::Tree {
    match t {
        json::Tree::Object(f) => json::Tree::Object(json::put(f, k, v)),
        x => x,
    }
}

} // verus!
