//! What is known of a user's images: an index that is filled as images are asked for.

use crate::json;
use crate::json::{Double, Fields, Json, Number};
use crate::numbers;
use crate::outside;
use crate::secrets;
use crate::text;
use crate::web;
use crate::web::Reply;
use vstd::prelude::*;

verus! {

/// The name of the file that keeps the index.
pub const METADATA_FILE: &'static str = "image-metadata.json";

/// The colour of images without one of their own.
pub const GRAY: &'static str = "#808080";

/// What is known of an image.
#[derive(Debug)]
pub struct ImageMetadata {
    pub hash: String,
    pub aspect_ratio: Double,
    pub is_animated: bool,
    pub dominant_color: String,
    pub folder_ids: Vec<String>,
    pub added_timestamp: i64,
    pub thumbnail_resolution: u32,
    /// When the file had changed when it was looked at.
    pub mtime: Option<Double>,
}

/// What an [`ImageMetadata`] is.
pub struct MetadataView {
    pub hash: Seq<char>,
    pub aspect_ratio: (u64, Seq<char>),
    pub is_animated: bool,
    pub dominant_color: Seq<char>,
    pub folder_ids: Seq<Seq<char>>,
    pub added_timestamp: i64,
    pub thumbnail_resolution: u32,
    pub mtime: Option<(u64, Seq<char>)>,
}

/// The bits and the text of a double.
pub open spec fn double_view(d: Double) -> (u64, Seq<char>) {
    (d.bits, d.text@)
}

/// The bits and the text of an optional double.
pub open spec fn double_opt(o: Option<Double>) -> Option<(u64, Seq<char>)> {
    match o {
        Some(d) => Some(double_view(d)),
        None => None,
    }
}

fn copy_double(d: &Double) -> (r: Double)
    ensures
        double_view(r) == double_view(*d),
{
    Double { bits: d.bits, text: d.text.clone() }
}

fn copy_texts(v: &Vec<String>) -> (r: Vec<String>)
    ensures
        json::texts(r@) == json::texts(v@),
{
    let mut out: Vec<String> = Vec::new();
    let mut i: usize = 0;
    while i < v.len()
        invariant
            i <= v@.len(),
            out@.len() == i,
            forall|j: int| 0 <= j < i ==> #[trigger] out@[j]@ == v@[j]@,
        decreases v@.len() - i,
    {
        out.push(v[i].clone());
        i += 1;
    }
    assert(json::texts(out@) =~= json::texts(v@));
    out
}

/// A whole number as JSON.
pub open spec fn integer_tree(n: i64) -> json::Tree {
    json::Tree::Number(
        if n >= 0 {
            Number::Pos(n as u64)
        } else {
            Number::Neg(n)
        },
    )
}

fn integer(n: i64) -> (r: Json)
    ensures
        r@ == integer_tree(n),
{
    if n >= 0 {
        Json::Number(Number::Pos(n as u64))
    } else {
        Json::Number(Number::Neg(n))
    }
}

impl MetadataView {
    /// What is known of an image as JSON.
    pub open spec fn tree(self) -> json::Tree {
        let start = json::members()
            .push(("hash"@, json::txt(self.hash)))
            .push(("aspectRatio"@, json::Tree::Float(self.aspect_ratio.0, self.aspect_ratio.1)))
            .push(("isAnimated"@, json::Tree::Bool(self.is_animated)))
            .push(("dominantColor"@, json::txt(self.dominant_color)))
            .push(("folderIds"@, json::Tree::Array(json::text_items(self.folder_ids))))
            .push(("addedTimestamp"@, integer_tree(self.added_timestamp)))
            .push(("thumbnailResolution"@, json::num(self.thumbnail_resolution as u64)));
        json::Tree::Object(
            match self.mtime {
                Some(t) => start.push(("mtime"@, json::Tree::Float(t.0, t.1))),
                None => start,
            },
        )
    }
}

impl ImageMetadata {
    pub open spec fn view(&self) -> MetadataView {
        MetadataView {
            hash: self.hash@,
            aspect_ratio: double_view(self.aspect_ratio),
            is_animated: self.is_animated,
            dominant_color: self.dominant_color@,
            folder_ids: json::texts(self.folder_ids@),
            added_timestamp: self.added_timestamp,
            thumbnail_resolution: self.thumbnail_resolution,
            mtime: double_opt(self.mtime),
        }
    }

    /// A copy.
    pub fn copy(&self) -> (r: ImageMetadata)
        ensures
            r@ == self@,
    {
        let mtime = match &self.mtime {
            Some(t) => Some(copy_double(t)),
            None => None,
        };
        ImageMetadata {
            hash: self.hash.clone(),
            aspect_ratio: copy_double(&self.aspect_ratio),
            is_animated: self.is_animated,
            dominant_color: self.dominant_color.clone(),
            folder_ids: copy_texts(&self.folder_ids),
            added_timestamp: self.added_timestamp,
            thumbnail_resolution: self.thumbnail_resolution,
            mtime,
        }
    }

    /// What is known of an image as JSON.
    pub fn to_json(&self) -> (r: Json)
        ensures
            r@ == self@.tree(),
    {
        let mut f = Fields::new()
            .with("hash", Json::text(&self.hash))
            .with(
                "aspectRatio",
                Json::float(self.aspect_ratio.bits, &self.aspect_ratio.text),
            )
            .with("isAnimated", Json::Bool(self.is_animated))
            .with("dominantColor", Json::text(&self.dominant_color))
            .with("folderIds", json::texts_json(&self.folder_ids))
            .with("addedTimestamp", integer(self.added_timestamp))
            .with("thumbnailResolution", Json::natural(self.thumbnail_resolution as u64));
        match &self.mtime {
            Some(t) => f.push("mtime", Json::float(t.bits, &t.text)),
            None => {},
        }
        f.done()
    }
}

/// A virtual folder.
#[derive(Debug)]
pub struct MetadataFolder {
    pub id: String,
    pub name: String,
    pub thumbnail_file: String,
}

impl MetadataFolder {
    /// The folder as JSON.
    pub open spec fn tree(&self) -> json::Tree {
        json::Tree::Object(
            json::members()
                .push(("id"@, json::txt(self.id@)))
                .push(("name"@, json::txt(self.name@)))
                .push(("thumbnailFile"@, json::txt(self.thumbnail_file@))),
        )
    }

    /// The folder as JSON.
    pub fn to_json(&self) -> (r: Json)
        ensures
            r@ == self.tree(),
    {
        Fields::new()
            .with("id", Json::text(&self.id))
            .with("name", Json::text(&self.name))
            .with("thumbnailFile", Json::text(&self.thumbnail_file))
            .done()
    }
}

/// An image in the index, by its path from the user's directory.
#[derive(Debug)]
pub struct IndexedImage {
    pub path: String,
    pub metadata: ImageMetadata,
}

/// What is known of a user's images.
#[derive(Debug)]
pub struct MetadataIndex {
    pub version: u32,
    pub images: Vec<IndexedImage>,
    pub folders: Vec<MetadataFolder>,
}

/// The paths of images and what is known of them.
pub open spec fn images_view(v: Seq<IndexedImage>) -> Seq<(Seq<char>, MetadataView)> {
    Seq::new(v.len(), |i: int| (v[i].path@, v[i].metadata@))
}

/// Whether no path occurs twice.
pub open spec fn paths_distinct(images: Seq<(Seq<char>, MetadataView)>) -> bool {
    forall|i: int, j: int|
        0 <= i < j < images.len() ==> (#[trigger] images[i]).0 != (#[trigger] images[j]).0
}

impl Default for MetadataIndex {
    /// An index that knows of no image.
    fn default() -> (r: MetadataIndex)
        ensures
            r.version == 1,
            r.images@.len() == 0,
            r.folders@.len() == 0,
    {
        MetadataIndex { version: 1, images: Vec::new(), folders: Vec::new() }
    }
}

/// Where a path stands among the images from the `i`th on; the number of images where it
/// does not.
pub open spec fn place(images: Seq<(Seq<char>, MetadataView)>, path: Seq<char>, i: int) -> int
    decreases images.len() - i,
{
    if i >= images.len() {
        images.len() as int
    } else if images[i].0 == path {
        i
    } else {
        place(images, path, i + 1)
    }
}

/// What is known of the image at a path.
pub open spec fn known(images: Seq<(Seq<char>, MetadataView)>, path: Seq<char>) -> Option<
    MetadataView,
> {
    let p = place(images, path, 0);
    if 0 <= p < images.len() {
        Some(images[p].1)
    } else {
        None
    }
}

/// The images with what is now known of the one at a path.
pub open spec fn learned(
    images: Seq<(Seq<char>, MetadataView)>,
    path: Seq<char>,
    m: MetadataView,
) -> Seq<(Seq<char>, MetadataView)> {
    let p = place(images, path, 0);
    if 0 <= p < images.len() {
        images.update(p, (path, m))
    } else {
        images.push((path, m))
    }
}

proof fn place_is_first(images: Seq<(Seq<char>, MetadataView)>, path: Seq<char>, i: int)
    requires
        0 <= i <= images.len(),
    ensures
        i <= place(images, path, i) <= images.len(),
        place(images, path, i) < images.len() ==> images[place(images, path, i)].0 == path,
        forall|j: int|
            i <= j < place(images, path, i) ==> (#[trigger] images[j]).0 != path,
    decreases images.len() - i,
{
    if i < images.len() && images[i].0 != path {
        place_is_first(images, path, i + 1);
    }
}

proof fn place_is(images: Seq<(Seq<char>, MetadataView)>, path: Seq<char>, p: int, i: int)
    requires
        0 <= i <= p < images.len(),
        images[p].0 == path,
        forall|j: int| i <= j < p ==> (#[trigger] images[j]).0 != path,
    ensures
        place(images, path, i) == p,
    decreases p - i,
{
    if i < p {
        place_is(images, path, p, i + 1);
    }
}

/// What was learned of an image is known.
pub proof fn learned_is_known(
    images: Seq<(Seq<char>, MetadataView)>,
    path: Seq<char>,
    m: MetadataView,
)
    ensures
        known(learned(images, path, m), path) == Some(m),
{
    let p = place(images, path, 0);
    place_is_first(images, path, 0);
    place_is(learned(images, path, m), path, p, 0);
}

/// Learning of an image changes nothing of what is known of the others.
pub proof fn others_are_kept(
    images: Seq<(Seq<char>, MetadataView)>,
    path: Seq<char>,
    m: MetadataView,
    other: Seq<char>,
)
    requires
        other != path,
    ensures
        known(learned(images, path, m), other) == known(images, other),
{
    let p = place(images, path, 0);
    let q = place(images, other, 0);
    let after = learned(images, path, m);
    place_is_first(images, path, 0);
    place_is_first(images, other, 0);
    place_is_first(after, other, 0);
    if q < images.len() {
        place_is(after, other, q, 0);
    } else {
        let r = place(after, other, 0);
        if r < after.len() {
            assert(after[r].0 == other);
        }
    }
}

/// Learning of an image keeps the paths distinct.
pub proof fn learning_keeps_paths_distinct(
    images: Seq<(Seq<char>, MetadataView)>,
    path: Seq<char>,
    m: MetadataView,
)
    requires
        paths_distinct(images),
    ensures
        paths_distinct(learned(images, path, m)),
{
    place_is_first(images, path, 0);
    let p = place(images, path, 0);
    let after = learned(images, path, m);
    assert forall|i: int, j: int| 0 <= i < j < after.len() implies (#[trigger] after[i]).0 != (
    #[trigger] after[j]).0 by {
        if j < images.len() {
            assert(images[i].0 == after[i].0);
            assert(images[j].0 == after[j].0);
        } else {
            assert(images[i].0 == after[i].0);
        }
    }
}

impl MetadataIndex {
    /// Where a path stands among the images.
    fn find(&self, path: &str) -> (r: usize)
        ensures
            r == place(images_view(self.images@), path@, 0),
            r <= self.images@.len(),
    {
        let ghost all = images_view(self.images@);
        let mut i: usize = 0;
        while i < self.images.len()
            invariant
                all == images_view(self.images@),
                i <= self.images@.len(),
                place(all, path@, 0) == place(all, path@, i as int),
            decreases self.images@.len() - i,
        {
            if text::same(&self.images[i].path, path) {
                return i;
            }
            i += 1;
        }
        i
    }

    /// Learns of the image at a path.
    fn learn(&mut self, path: String, metadata: ImageMetadata)
        ensures
            images_view(final(self).images@) == learned(
                images_view(old(self).images@),
                path@,
                metadata@,
            ),
            final(self).version == old(self).version,
            final(self).folders == old(self).folders,
    {
        let p = self.find(&path);
        let ghost before = images_view(self.images@);
        let entry = IndexedImage { path, metadata };
        if p < self.images.len() {
            self.images.set(p, entry);
            assert(images_view(self.images@) =~= before.update(p as int, (path@, metadata@)));
        } else {
            self.images.push(entry);
            assert(images_view(self.images@) =~= before.push((path@, metadata@)));
        }
    }
}

/// The sizes of thumbnails, each as its width and its height.
#[derive(Debug)]
pub struct ThumbnailDimensions {
    pub bg: (u32, u32),
    pub avatar: (u32, u32),
    pub persona: (u32, u32),
}

/// The number of pixels of a thumbnail of a kind; none for a kind that has no thumbnails.
pub open spec fn pixels(d: ThumbnailDimensions, kind: Seq<char>) -> int {
    if kind == "bg"@ {
        d.bg.0 * d.bg.1
    } else if kind == "avatar"@ {
        d.avatar.0 * d.avatar.1
    } else if kind == "persona"@ {
        d.persona.0 * d.persona.1
    } else {
        0
    }
}

/// The number of pixels of a thumbnail of a kind.
pub fn get_thumbnail_resolution(dimensions: &ThumbnailDimensions, kind: &str) -> (r: u32)
    requires
        pixels(*dimensions, kind@) <= u32::MAX,
    ensures
        r == pixels(*dimensions, kind@),
{
    let size: (u32, u32) = if text::same(kind, "bg") {
        dimensions.bg
    } else if text::same(kind, "avatar") {
        dimensions.avatar
    } else if text::same(kind, "persona") {
        dimensions.persona
    } else {
        (0, 0)
    };
    size.0 * size.1
}

/// Whether four bytes stand somewhere among the first 200.
pub open spec fn stands_early(data: Seq<u8>, mark: Seq<u8>) -> bool {
    exists|i: int|
        0 <= i <= data.len() - 4 && i <= 196 && #[trigger] data.subrange(i, i + 4) == mark
}

fn find_early(data: &[u8], a: u8, b: u8, c: u8, d: u8) -> (r: bool)
    ensures
        r == stands_early(data@, seq![a, b, c, d]),
{
    let n: usize = if data.len() < 200 {
        data.len()
    } else {
        200
    };
    let mut i: usize = 0;
    while i + 4 <= n
        invariant
            n <= 200,
            n <= data@.len(),
            n == data@.len() || n == 200,
            i <= n,
            forall|j: int|
                0 <= j < i && j + 4 <= n ==> #[trigger] data@.subrange(j, j + 4) != seq![
                    a,
                    b,
                    c,
                    d,
                ],
        decreases n - i,
    {
        if data[i] == a && data[i + 1] == b && data[i + 2] == c && data[i + 3] == d {
            assert(data@.subrange(i as int, i + 4) =~= seq![a, b, c, d]);
            return true;
        }
        assert(data@.subrange(i as int, i + 4) != seq![a, b, c, d]) by {
            let w = data@.subrange(i as int, i + 4);
            assert(w[0] == data@[i as int]);
            assert(w[1] == data@[i + 1]);
            assert(w[2] == data@[i + 2]);
            assert(w[3] == data@[i + 3]);
        }
        i += 1;
    }
    false
}

/// `acTL`, which marks an animated PNG.
pub open spec fn apng_mark() -> Seq<u8> {
    seq![97u8, 99u8, 84u8, 76u8]
}

/// Whether a PNG is animated.
pub fn is_animated_apng(buffer: &[u8]) -> (r: bool)
    ensures
        r == stands_early(buffer@, apng_mark()),
{
    find_early(buffer, 97, 99, 84, 76)
}

/// `ANIM` or `ANMF`, one of which marks an animated WebP.
pub open spec fn webp_marked(data: Seq<u8>) -> bool {
    stands_early(data, seq![65u8, 78u8, 73u8, 77u8]) || stands_early(
        data,
        seq![65u8, 78u8, 77u8, 70u8],
    )
}

/// Whether a WebP image is animated.
pub fn is_animated_webp(buffer: &[u8]) -> (r: bool)
    ensures
        r == webp_marked(buffer@),
{
    find_early(buffer, 65, 78, 73, 77) || find_early(buffer, 65, 78, 77, 70)
}

/// Whether an image of a media type is animated: a GIF always, a PNG or a WebP image where
/// it is marked so.
pub open spec fn animated(kind: Seq<char>, data: Seq<u8>) -> bool {
    if kind == "image/gif"@ {
        true
    } else if kind == "image/png"@ {
        stands_early(data, apng_mark())
    } else if kind == "image/webp"@ {
        webp_marked(data)
    } else {
        false
    }
}

/// Whether an image of a media type is animated.
pub fn is_animated(kind: &str, buffer: &[u8]) -> (r: bool)
    ensures
        r == animated(kind@, buffer@),
{
    if text::same(kind, "image/gif") {
        true
    } else if text::same(kind, "image/png") {
        is_animated_apng(buffer)
    } else if text::same(kind, "image/webp") {
        is_animated_webp(buffer)
    } else {
        false
    }
}

/// A small hexadecimal digit.
pub open spec fn hex_small(d: int) -> char {
    if d < 10 {
        (48 + d) as char
    } else {
        (87 + d) as char
    }
}

/// A byte in two small hexadecimal digits.
pub open spec fn hex_byte(b: u8) -> Seq<char> {
    seq![hex_small(b as int / 16), hex_small(b as int % 16)]
}

/// A colour as text: `#` and two digits each for red, green and blue.
pub open spec fn color_text(c: (u8, u8, u8)) -> Seq<char> {
    "#"@ + hex_byte(c.0) + hex_byte(c.1) + hex_byte(c.2)
}

fn push_hex(s: &mut String, b: u8)
    ensures
        final(s)@ == old(s)@ + hex_byte(b),
{
    let high: u8 = b / 16;
    let low: u8 = b % 16;
    s.push(
        if high < 10 {
            (48 + high) as char
        } else {
            (87 + high) as char
        },
    );
    s.push(
        if low < 10 {
            (48 + low) as char
        } else {
            (87 + low) as char
        },
    );
    assert(s@ =~= old(s)@ + hex_byte(b));
}

/// The colour to show for an image: that of its average pixel, where there is one.
pub fn show_color(pixel: Option<(u8, u8, u8)>) -> (r: String)
    ensures
        r@ == match pixel {
            Some(c) => color_text(c),
            None => GRAY@,
        },
{
    match pixel {
        Some(c) => {
            let mut s = "#".to_owned();
            push_hex(&mut s, c.0);
            push_hex(&mut s, c.1);
            push_hex(&mut s, c.2);
            s
        },
        None => GRAY.to_owned(),
    }
}

/// Whether a text is the colour of a pixel that an image may be shrunk to.
pub open spec fn is_color_of(s: Seq<char>, data: Seq<u8>) -> bool {
    exists|c: (u8, u8, u8)| #[trigger] outside::may_shrink_to(data, c) && s == color_text(c)
}

/// The colour of an image: gray where it is animated or cannot be decoded, and otherwise that of
/// the pixel that it is shrunk to. What the machine makes of the filter's sine decides between
/// pixels; [`show_color`] says what is shown for each.
pub fn get_dominant_color(buffer: &[u8], is_animated: bool) -> (r: String)
    ensures
        is_animated || outside::image_size(buffer@) is None ==> r@ == GRAY@,
        !is_animated && outside::image_size(buffer@) is Some ==> is_color_of(r@, buffer@),
{
    if is_animated {
        return GRAY.to_owned();
    }
    show_color(outside::average_pixel(buffer))
}

/// The size of an image, or why there is none: its kind and its size have to be known, and
/// neither side may be zero.
pub open spec fn sized(kind_known: bool, size: Option<(u32, u32)>) -> Option<(u32, u32)> {
    if !kind_known {
        None
    } else {
        match size {
            Some(s) => if s.0 == 0 || s.1 == 0 {
                None
            } else {
                Some(s)
            },
            None => None,
        }
    }
}

/// The size of an image whose kind is known or not.
pub fn checked_size(kind_known: bool, size: Option<(u32, u32)>) -> (r: Option<(u32, u32)>)
    ensures
        r == sized(kind_known, size),
{
    if !kind_known {
        return None;
    }
    match size {
        Some(s) => if s.0 == 0 || s.1 == 0 {
            None
        } else {
            Some(s)
        },
        None => None,
    }
}

/// The size of the image that a file holds.
pub open spec fn size_of(data: Seq<u8>) -> Option<(u32, u32)> {
    sized(outside::image_media_type(data) is Some, outside::image_size(data))
}

/// The size of the image that a file holds.
pub fn image_dimensions(buffer: &[u8]) -> (r: Option<(u32, u32)>)
    ensures
        r == size_of(buffer@),
{
    let kind = outside::guess_image_type(buffer);
    checked_size(kind.is_some(), outside::measure(buffer))
}

/// What is known of the image that a file holds, given the ratio of its sides and when it was
/// added, or why nothing is.
pub fn generate_image_metadata(
    buffer: &[u8],
    aspect_ratio: Double,
    added_timestamp: i64,
    dimensions: &ThumbnailDimensions,
    kind: &str,
) -> (r: Result<ImageMetadata, String>)
    requires
        pixels(*dimensions, kind@) <= u32::MAX,
    ensures
        match r {
            Ok(m) => {
                let media = outside::image_media_type(buffer@);
                &&& size_of(buffer@) is Some
                &&& m.hash@ == outside::sha256_of(buffer@)
                &&& m.aspect_ratio == aspect_ratio
                &&& m.is_animated == animated(media->0, buffer@)
                &&& m.is_animated ==> m.dominant_color@ == GRAY@
                &&& !m.is_animated ==> is_color_of(m.dominant_color@, buffer@)
                &&& m.folder_ids@.len() == 0
                &&& m.added_timestamp == added_timestamp
                &&& m.thumbnail_resolution == pixels(*dimensions, kind@)
                &&& m.mtime is None
            },
            Err(e) => size_of(buffer@) is None && e@ == "Could not determine image dimensions."@,
        },
{
    let media = outside::guess_image_type(buffer);
    let size = checked_size(media.is_some(), outside::measure(buffer));
    match (media, size) {
        (Some(t), Some(_)) => {
            let is_animated = is_animated(&t, buffer);
            Ok(
                ImageMetadata {
                    hash: outside::sha256_digest(buffer),
                    aspect_ratio,
                    is_animated,
                    dominant_color: get_dominant_color(buffer, is_animated),
                    folder_ids: Vec::new(),
                    added_timestamp,
                    thumbnail_resolution: get_thumbnail_resolution(dimensions, kind),
                    mtime: None,
                },
            )
        },
        _ => Err("Could not determine image dimensions.".to_owned()),
    }
}

/// A path with slashes for backslashes.
pub fn to_posix_path(path: &str) -> (r: String)
    ensures
        r@ == text::replaced(path@, "\\"@, "/"@),
{
    proof {
        reveal_strlit("\\");
        assert("\\"@.len() == 1);
    }
    text::replace(path, "\\", "/")
}

/// A path with slashes for backslashes.
pub open spec fn posix(path: Seq<char>) -> Seq<char> {
    text::replaced(path, "\\"@, "/"@)
}

/// A file that was asked for: its path, when it changed where there is one, and what could
/// be found out about it where that was tried.
#[derive(Debug)]
pub struct ImageFile {
    pub path: String,
    pub mtime: Option<Double>,
    pub fresh: Option<ImageMetadata>,
}

/// What an [`ImageFile`] is.
pub struct FileView {
    pub path: Seq<char>,
    pub mtime: Option<(u64, Seq<char>)>,
    pub fresh: Option<MetadataView>,
}

/// What is known of an optional image.
pub open spec fn metadata_opt(o: Option<ImageMetadata>) -> Option<MetadataView> {
    match o {
        Some(m) => Some(m@),
        None => None,
    }
}

impl ImageFile {
    pub open spec fn view(&self) -> FileView {
        FileView {
            path: self.path@,
            mtime: double_opt(self.mtime),
            fresh: metadata_opt(self.fresh),
        }
    }
}

/// What files are.
pub open spec fn files_view(v: Seq<ImageFile>) -> Seq<FileView> {
    Seq::new(v.len(), |i: int| v[i]@)
}

/// What is known of the image at a path that last changed at the time, and did not change
/// since it was looked at.
pub open spec fn current(
    images: Seq<(Seq<char>, MetadataView)>,
    path: Seq<char>,
    mtime: u64,
) -> Option<MetadataView> {
    match known(images, posix(path)) {
        Some(m) => match m.mtime {
            Some(t) => if numbers::equal(t.0, mtime) {
                Some(m)
            } else {
                None
            },
            None => None,
        },
        None => None,
    }
}

/// What came of a batch: the images known, what is told of each path, and how many images
/// were looked at anew.
pub struct BatchView {
    pub images: Seq<(Seq<char>, MetadataView)>,
    pub results: Seq<(Seq<char>, json::Tree)>,
    pub generated: nat,
}

/// What was found out anew about an image, with the folders that it was in before.
pub open spec fn renewed(
    images: Seq<(Seq<char>, MetadataView)>,
    path: Seq<char>,
    mtime: (u64, Seq<char>),
    fresh: MetadataView,
) -> MetadataView {
    let dated = MetadataView { mtime: Some(mtime), ..fresh };
    match known(images, posix(path)) {
        Some(m) => if m.folder_ids.len() > 0 {
            MetadataView { folder_ids: m.folder_ids, ..dated }
        } else {
            dated
        },
        None => dated,
    }
}

/// A batch after one more file: one that is not there is passed over; what is known and
/// current is told; anything else is told as it was found out anew, and kept.
pub open spec fn batch_step(b: BatchView, f: FileView) -> BatchView {
    match f.mtime {
        Some(t) => match current(b.images, f.path, t.0) {
            Some(m) => BatchView { results: json::put(b.results, f.path, m.tree()), ..b },
            None => match f.fresh {
                Some(fresh) => {
                    let m = renewed(b.images, f.path, t, fresh);
                    BatchView {
                        images: learned(b.images, posix(f.path), m),
                        results: json::put(b.results, f.path, m.tree()),
                        generated: b.generated + 1,
                    }
                },
                None => b,
            },
        },
        None => b,
    }
}

/// What comes of a batch of files.
pub open spec fn batched(
    images: Seq<(Seq<char>, MetadataView)>,
    files: Seq<FileView>,
) -> BatchView
    decreases files.len(),
{
    if files.len() == 0 {
        BatchView { images, results: Seq::empty(), generated: 0 }
    } else {
        batch_step(batched(images, files.drop_last()), files.last())
    }
}

/// What came of a batch: what is told of each path, and how many images were looked at anew.
/// The index is to be written where there are any.
#[derive(Debug)]
pub struct MetadataBatch {
    pub results: Fields,
    pub generated: usize,
}

impl MetadataIndex {
    /// Whether what is known of the image at a path is current. If it is not, the file has to
    /// be looked at before a batch.
    pub fn is_current(&self, path: &str, mtime: &Double) -> (r: bool)
        ensures
            r == (current(images_view(self.images@), path@, mtime.bits) is Some),
    {
        let p = self.find(&to_posix_path(path));
        if p < self.images.len() {
            match &self.images[p].metadata.mtime {
                Some(t) => numbers::is_equal(t.bits, mtime.bits),
                None => false,
            }
        } else {
            false
        }
    }
}

/// Tells of each file what is known of its image, and learns what was found out anew.
pub fn get_or_generate_metadata_batch(index: &mut MetadataIndex, files: &Vec<ImageFile>) -> (r:
    MetadataBatch)
    ensures
        ({
            let b = batched(images_view(old(index).images@), files_view(files@));
            &&& images_view(final(index).images@) == b.images
            &&& r.results@ == b.results
            &&& r.generated == b.generated
        }),
        final(index).version == old(index).version,
        final(index).folders == old(index).folders,
{
    let ghost start = images_view(index.images@);
    let ghost all = files_view(files@);
    let mut results = Fields::new();
    let mut generated: usize = 0;
    let mut i: usize = 0;
    assert(results@ =~= batched(start, all.take(0)).results);
    while i < files.len()
        invariant
            all == files_view(files@),
            i <= files@.len(),
            generated <= i,
            images_view(index.images@) == batched(start, all.take(i as int)).images,
            results@ == batched(start, all.take(i as int)).results,
            generated == batched(start, all.take(i as int)).generated,
            index.version == old(index).version,
            index.folders == old(index).folders,
        decreases files@.len() - i,
    {
        let ghost b = batched(start, all.take(i as int));
        assert(all.take(i as int + 1).drop_last() =~= all.take(i as int));
        assert(all.take(i as int + 1).last() == files@[i as int]@);
        let f = &files[i];
        i += 1;
        match &f.mtime {
            Some(t) => {
                let key = to_posix_path(&f.path);
                let p = index.find(&key);
                if index.is_current(&f.path, t) {
                    let told = index.images[p].metadata.to_json();
                    results.insert(&f.path, told);
                } else {
                    match &f.fresh {
                        Some(fresh) => {
                            let mut m = fresh.copy();
                            m.mtime = Some(copy_double(t));
                            if p < index.images.len() {
                                let ids = &index.images[p].metadata.folder_ids;
                                if ids.len() > 0 {
                                    m.folder_ids = copy_texts(ids);
                                }
                            }
                            assert(m@ == renewed(b.images, f.path@, double_view(*t), fresh@));
                            results.insert(&f.path, m.to_json());
                            index.learn(key, m);
                            generated += 1;
                        },
                        None => {},
                    }
                }
            },
            None => {},
        }
    }
    assert(all.take(all.len() as int) =~= all);
    MetadataBatch { results, generated }
}

/// What was found out anew about an image is kept: as long as its file does not change, it
/// is told again without another look.
pub proof fn renewed_is_current(b: BatchView, f: FileView)
    requires
        f.mtime matches Some(t) && numbers::is_number(t.0),
        f.fresh is Some,
    ensures
        current(batch_step(b, f).images, f.path, (f.mtime->0).0) is Some,
        batch_step(batch_step(b, f), f).generated == batch_step(b, f).generated,
{
    let t = f.mtime->0;
    if current(b.images, f.path, t.0) is None {
        let m = renewed(b.images, f.path, t, f.fresh->0);
        learned_is_known(b.images, posix(f.path), m);
    }
}

/// An image that is looked at anew stays in the folders that it was in.
pub proof fn folders_are_kept(b: BatchView, f: FileView, path: Seq<char>)
    requires
        known(b.images, path) matches Some(m) && m.folder_ids.len() > 0,
    ensures
        known(batch_step(b, f).images, path) is Some,
        known(batch_step(b, f).images, path)->0.folder_ids == known(b.images, path)->0.folder_ids,
{
    match f.mtime {
        Some(t) => match f.fresh {
            Some(fresh) => {
                let m = renewed(b.images, f.path, t, fresh);
                if posix(f.path) == path {
                    learned_is_known(b.images, posix(f.path), m);
                } else {
                    others_are_kept(b.images, posix(f.path), m, path);
                }
            },
            None => {},
        },
        None => {},
    }
}

/// A batch never looks at more images than it is asked for, and keeps paths distinct.
pub proof fn batch_is_sound(images: Seq<(Seq<char>, MetadataView)>, files: Seq<FileView>)
    requires
        paths_distinct(images),
    ensures
        batched(images, files).generated <= files.len(),
        paths_distinct(batched(images, files).images),
    decreases files.len(),
{
    if files.len() > 0 {
        batch_is_sound(images, files.drop_last());
        let b = batched(images, files.drop_last());
        let f = files.last();
        match (f.mtime, f.fresh) {
            (Some(t), Some(fresh)) => {
                let m = renewed(b.images, f.path, t, fresh);
                learning_keeps_paths_distinct(b.images, posix(f.path), m);
            },
            _ => {},
        }
    }
}

/// Whether the file of an indexed image lies in the user's directory, and is there.
#[derive(Debug)]
pub struct EntryCheck {
    pub inside: bool,
    pub found: bool,
}

/// The images whose files are where they should be.
pub open spec fn kept_images(
    images: Seq<(Seq<char>, MetadataView)>,
    checks: Seq<EntryCheck>,
) -> Seq<(Seq<char>, MetadataView)>
    decreases images.len(),
{
    if images.len() == 0 {
        Seq::empty()
    } else {
        let rest = kept_images(images.drop_last(), checks);
        let c = checks[images.len() - 1];
        if c.inside && c.found {
            rest.push(images.last())
        } else {
            rest
        }
    }
}

/// The paths of the images whose files are not where they should be.
pub open spec fn orphaned_paths(
    images: Seq<(Seq<char>, MetadataView)>,
    checks: Seq<EntryCheck>,
) -> Seq<Seq<char>>
    decreases images.len(),
{
    if images.len() == 0 {
        Seq::empty()
    } else {
        let rest = orphaned_paths(images.drop_last(), checks);
        let c = checks[images.len() - 1];
        if c.inside && c.found {
            rest
        } else {
            rest.push(images.last().0)
        }
    }
}

/// Forgets the images whose files are not where they should be, and tells their paths. The
/// index is to be written where there are any.
pub fn cleanup_orphaned_metadata(index: &mut MetadataIndex, checks: &Vec<EntryCheck>) -> (r: Vec<
    String,
>)
    requires
        checks@.len() == old(index).images@.len(),
    ensures
        json::texts(r@) == orphaned_paths(images_view(old(index).images@), checks@),
        images_view(final(index).images@) == kept_images(
            images_view(old(index).images@),
            checks@,
        ),
        final(index).version == old(index).version,
        final(index).folders == old(index).folders,
{
    let ghost all = images_view(index.images@);
    let mut kept: Vec<IndexedImage> = Vec::new();
    let mut gone: Vec<String> = Vec::new();
    let mut i: usize = 0;
    assert(images_view(kept@) =~= kept_images(all.take(0), checks@));
    assert(json::texts(gone@) =~= orphaned_paths(all.take(0), checks@));
    while i < index.images.len()
        invariant
            all == images_view(index.images@),
            checks@.len() == index.images@.len(),
            i <= index.images@.len(),
            images_view(kept@) == kept_images(all.take(i as int), checks@),
            json::texts(gone@) == orphaned_paths(all.take(i as int), checks@),
            *index == *old(index),
        decreases index.images@.len() - i,
    {
        assert(all.take(i as int + 1).drop_last() =~= all.take(i as int));
        assert(all.take(i as int + 1).last() == all[i as int]);
        let image = &index.images[i];
        if checks[i].inside && checks[i].found {
            let ghost before = kept@;
            let copy = IndexedImage { path: image.path.clone(), metadata: image.metadata.copy() };
            kept.push(copy);
            assert(images_view(kept@) =~= images_view(before).push(all[i as int]));
        } else {
            let ghost before = gone@;
            gone.push(image.path.clone());
            assert(json::texts(gone@) =~= json::texts(before).push(all[i as int].0));
        }
        i += 1;
    }
    assert(all.take(all.len() as int) =~= all);
    index.images = kept;
    gone
}

proof fn kept_are_images(images: Seq<(Seq<char>, MetadataView)>, checks: Seq<EntryCheck>, j: int)
    requires
        0 <= j < kept_images(images, checks).len(),
    ensures
        exists|i: int|
            0 <= i < images.len() && #[trigger] images[i] == kept_images(images, checks)[j]
                && checks[i].inside && checks[i].found,
    decreases images.len(),
{
    let rest = kept_images(images.drop_last(), checks);
    if j < rest.len() {
        kept_are_images(images.drop_last(), checks, j);
        let i = choose|i: int|
            0 <= i < images.drop_last().len() && #[trigger] images.drop_last()[i] == rest[j]
                && checks[i].inside && checks[i].found;
        assert(images[i] == kept_images(images, checks)[j]);
    } else {
        assert(images[images.len() - 1] == kept_images(images, checks)[j]);
    }
}

proof fn orphans_are_images(images: Seq<(Seq<char>, MetadataView)>, checks: Seq<EntryCheck>, j: int)
    requires
        0 <= j < orphaned_paths(images, checks).len(),
    ensures
        exists|i: int|
            0 <= i < images.len() && (#[trigger] images[i]).0 == orphaned_paths(images, checks)[j]
                && !(checks[i].inside && checks[i].found),
    decreases images.len(),
{
    let rest = orphaned_paths(images.drop_last(), checks);
    if j < rest.len() {
        orphans_are_images(images.drop_last(), checks, j);
        let i = choose|i: int|
            0 <= i < images.drop_last().len() && (#[trigger] images.drop_last()[i]).0 == rest[j]
                && !(checks[i].inside && checks[i].found);
        assert(images[i].0 == orphaned_paths(images, checks)[j]);
    } else {
        assert(images[images.len() - 1].0 == orphaned_paths(images, checks)[j]);
    }
}

/// After a cleanup, no path that was told of is left, and every image is either left or told
/// of.
pub proof fn orphans_are_gone(images: Seq<(Seq<char>, MetadataView)>, checks: Seq<EntryCheck>)
    requires
        paths_distinct(images),
        checks.len() == images.len(),
    ensures
        forall|i: int, j: int|
            0 <= i < kept_images(images, checks).len() && 0 <= j < orphaned_paths(
                images,
                checks,
            ).len() ==> (#[trigger] kept_images(images, checks)[i]).0
                != #[trigger] orphaned_paths(images, checks)[j],
        kept_images(images, checks).len() + orphaned_paths(images, checks).len() == images.len(),
{
    let kept = kept_images(images, checks);
    let gone = orphaned_paths(images, checks);
    assert forall|i: int, j: int| 0 <= i < kept.len() && 0 <= j < gone.len() implies (
    #[trigger] kept[i]).0 != #[trigger] gone[j] by {
        kept_are_images(images, checks, i);
        orphans_are_images(images, checks, j);
        let a = choose|a: int|
            0 <= a < images.len() && #[trigger] images[a] == kept[i] && checks[a].inside
                && checks[a].found;
        let b = choose|b: int|
            0 <= b < images.len() && (#[trigger] images[b]).0 == gone[j] && !(checks[b].inside
                && checks[b].found);
        assert(a != b);
        if a < b {
            assert(images[a].0 != images[b].0);
        } else {
            assert(images[b].0 != images[a].0);
        }
    }
    kept_and_gone(images, checks);
}

proof fn kept_and_gone(images: Seq<(Seq<char>, MetadataView)>, checks: Seq<EntryCheck>)
    ensures
        kept_images(images, checks).len() + orphaned_paths(images, checks).len() == images.len(),
    decreases images.len(),
{
    if images.len() > 0 {
        kept_and_gone(images.drop_last(), checks);
    }
}

/// The answer after a cleanup.
pub fn cleanup_image_metadata(removed: &Vec<String>) -> (r: Reply)
    ensures
        r@ == web::json_reply(
            200,
            json::Tree::Object(
                json::members()
                    .push(("removed"@, json::Tree::Array(json::text_items(json::texts(removed@)))))
                    .push(("count"@, json::num(removed@.len() as u64))),
            ),
        ),
{
    let f = Fields::new()
        .with("removed", json::texts_json(removed))
        .with("count", Json::natural(removed.len() as u64));
    Reply::json(200, f.done())
}

/// Asks what is known of one image or of several, by their paths from the user's directory.
#[derive(Debug)]
pub struct GetMetadataRequest {
    pub path: Option<String>,
    pub paths: Option<Vec<String>>,
    pub thumbnail_type: Option<String>,
}

/// Asks for the whole index, or for the images whose paths begin in a way.
#[derive(Debug)]
pub struct GetAllMetadataRequest {
    pub prefix: Option<String>,
}

/// What a request is about.
#[derive(Debug)]
pub enum MetadataPlan<'a> {
    /// One image.
    One(&'a String),
    /// Several images.
    Many(&'a Vec<String>),
}

/// What a request is about: several images where it lists some, otherwise one; it is refused
/// where it names none.
pub fn get_image_metadata(body: &GetMetadataRequest) -> (r: Result<MetadataPlan, Reply>)
    ensures
        match r {
            Ok(MetadataPlan::Many(v)) => body.paths == Some(*v),
            Ok(MetadataPlan::One(p)) => body.paths is None && body.path == Some(*p),
            Err(e) => {
                &&& body.paths is None && body.path is None
                &&& e@ == web::json_reply(
                    400,
                    web::error_tree("Either \"path\" or \"paths\" is required."@),
                )
            },
        },
{
    match &body.paths {
        Some(v) => Ok(MetadataPlan::Many(v)),
        None => match &body.path {
            Some(p) => Ok(MetadataPlan::One(p)),
            None => Err(Reply::error(400, "Either \"path\" or \"paths\" is required.")),
        },
    }
}

/// The kind of thumbnail that a request is about.
pub fn thumbnail_kind(body: &GetMetadataRequest) -> (r: String)
    ensures
        r@ == secrets::text_or(json::string_opt(body.thumbnail_type), "bg"@),
{
    secrets::unwrap_or(&body.thumbnail_type, "bg")
}

/// Why a path that leads out of the user's directory is refused.
pub open spec fn outside_message(path: Seq<char>) -> Seq<char> {
    "Path \""@ + path + "\" is outside the user data directory."@
}

fn outside_text(path: &str) -> (r: String)
    ensures
        r@ == outside_message(path@),
{
    text::join3("Path \"", path, "\" is outside the user data directory.")
}

/// Whether one image can be told of: its path has to lie in the user's directory, and its
/// file to be there.
pub fn single_check(path: &str, inside: bool, found: bool) -> (r: Result<(), Reply>)
    ensures
        match r {
            Ok(_) => inside && found,
            Err(e) => !(inside && found) && e@ == if !inside {
                web::json_reply(400, web::error_tree(outside_message(path@)))
            } else {
                web::json_reply(404, web::error_tree("File not found."@))
            },
        },
{
    if !inside {
        Err(Reply::error(400, &outside_text(path)))
    } else if !found {
        Err(Reply::error(404, "File not found."))
    } else {
        Ok(())
    }
}

/// The answer about one image.
pub fn single_reply(results: &Fields, path: &str) -> (r: Reply)
    ensures
        r@ == match json::lookup(results@, path@) {
            Some(t) => web::json_reply(200, t),
            None => web::json_reply(
                404,
                web::error_tree("Could not generate metadata for file."@),
            ),
        },
{
    match results.get(path) {
        Some(j) => Reply::json(200, j.copy()),
        None => Reply::error(404, "Could not generate metadata for file."),
    }
}

/// A path that was asked for, and whether it lies in the user's directory.
#[derive(Debug)]
pub struct RequestedPath {
    pub path: String,
    pub inside: bool,
}

/// The paths that lie in the user's directory, in their order.
pub open spec fn inside_paths(v: Seq<RequestedPath>) -> Seq<Seq<char>>
    decreases v.len(),
{
    if v.len() == 0 {
        Seq::empty()
    } else if v.last().inside {
        inside_paths(v.drop_last()).push(v.last().path@)
    } else {
        inside_paths(v.drop_last())
    }
}

/// The paths that lie in the user's directory: those that a batch is to be made of.
pub fn valid_paths(requested: &Vec<RequestedPath>) -> (r: Vec<String>)
    ensures
        json::texts(r@) == inside_paths(requested@),
{
    let mut out: Vec<String> = Vec::new();
    let mut i: usize = 0;
    assert(json::texts(out@) =~= inside_paths(requested@.take(0)));
    while i < requested.len()
        invariant
            i <= requested@.len(),
            json::texts(out@) == inside_paths(requested@.take(i as int)),
        decreases requested@.len() - i,
    {
        assert(requested@.take(i as int + 1).drop_last() =~= requested@.take(i as int));
        assert(requested@.take(i as int + 1).last() == requested@[i as int]);
        if requested[i].inside {
            let ghost before = out@;
            out.push(requested[i].path.clone());
            assert(json::texts(out@) =~= json::texts(before).push(requested@[i as int].path@));
        }
        i += 1;
    }
    assert(requested@.take(requested@.len() as int) =~= requested@);
    out
}

/// The refusals of the paths that lead out of the user's directory.
pub open spec fn refusals(v: Seq<RequestedPath>) -> Seq<(Seq<char>, json::Tree)>
    decreases v.len(),
{
    if v.len() == 0 {
        Seq::empty()
    } else if v.last().inside {
        refusals(v.drop_last())
    } else {
        json::put(
            refusals(v.drop_last()),
            v.last().path@,
            web::error_tree(outside_message(v.last().path@)),
        )
    }
}

/// What is told of the image at a path.
pub open spec fn told(results: Seq<(Seq<char>, json::Tree)>, path: Seq<char>) -> json::Tree {
    match json::lookup(results, path) {
        Some(t) => t,
        None => web::error_tree("File not found or could not process."@),
    }
}

/// What is told of several images, behind `start`.
pub open spec fn told_of(
    start: Seq<(Seq<char>, json::Tree)>,
    results: Seq<(Seq<char>, json::Tree)>,
    v: Seq<RequestedPath>,
) -> Seq<(Seq<char>, json::Tree)>
    decreases v.len(),
{
    if v.len() == 0 {
        start
    } else {
        let rest = told_of(start, results, v.drop_last());
        if v.last().inside {
            json::put(rest, v.last().path@, told(results, v.last().path@))
        } else {
            rest
        }
    }
}

/// The answer about several images: of each path that leads out of the user's directory the
/// refusal, and of each other what a batch told of it.
pub fn handle_multi_paths(requested: &Vec<RequestedPath>, results: &Fields) -> (r: Reply)
    ensures
        r@ == web::json_reply(
            200,
            json::Tree::Object(told_of(refusals(requested@), results@, requested@)),
        ),
{
    let mut out = Fields::new();
    let mut i: usize = 0;
    assert(out@ =~= refusals(requested@.take(0)));
    while i < requested.len()
        invariant
            i <= requested@.len(),
            out@ == refusals(requested@.take(i as int)),
        decreases requested@.len() - i,
    {
        assert(requested@.take(i as int + 1).drop_last() =~= requested@.take(i as int));
        assert(requested@.take(i as int + 1).last() == requested@[i as int]);
        if !requested[i].inside {
            let message = Json::Text(outside_text(&requested[i].path));
            out.insert(&requested[i].path, Fields::new().with("error", message).done());
        }
        i += 1;
    }
    assert(requested@.take(requested@.len() as int) =~= requested@);
    let ghost start = out@;
    let mut k: usize = 0;
    assert(out@ =~= told_of(start, results@, requested@.take(0)));
    while k < requested.len()
        invariant
            k <= requested@.len(),
            out@ == told_of(start, results@, requested@.take(k as int)),
        decreases requested@.len() - k,
    {
        assert(requested@.take(k as int + 1).drop_last() =~= requested@.take(k as int));
        assert(requested@.take(k as int + 1).last() == requested@[k as int]);
        if requested[k].inside {
            let path = &requested[k].path;
            let found = match results.get(path) {
                Some(j) => j.copy(),
                None => {
                    let f = Fields::new().with(
                        "error",
                        Json::text("File not found or could not process."),
                    );
                    f.done()
                },
            };
            out.insert(path, found);
        }
        k += 1;
    }
    assert(requested@.take(requested@.len() as int) =~= requested@);
    Reply::json(200, out.done())
}

/// The images whose paths begin with `prefix`, as JSON.
pub open spec fn images_tree(
    images: Seq<(Seq<char>, MetadataView)>,
    prefix: Seq<char>,
) -> Seq<(Seq<char>, json::Tree)>
    decreases images.len(),
{
    if images.len() == 0 {
        Seq::empty()
    } else {
        let rest = images_tree(images.drop_last(), prefix);
        if text::begins(images.last().0, prefix) {
            rest.push((images.last().0, images.last().1.tree()))
        } else {
            rest
        }
    }
}

fn image_members(images: &Vec<IndexedImage>, prefix: &str) -> (r: Fields)
    ensures
        r@ == images_tree(images_view(images@), prefix@),
{
    let ghost all = images_view(images@);
    let mut out = Fields::new();
    let mut i: usize = 0;
    assert(out@ =~= images_tree(all.take(0), prefix@));
    while i < images.len()
        invariant
            all == images_view(images@),
            i <= images@.len(),
            out@ == images_tree(all.take(i as int), prefix@),
        decreases images@.len() - i,
    {
        assert(all.take(i as int + 1).drop_last() =~= all.take(i as int));
        assert(all.take(i as int + 1).last() == all[i as int]);
        if text::starts_with(&images[i].path, prefix) {
            out.push(&images[i].path, images[i].metadata.to_json());
        }
        i += 1;
    }
    assert(all.take(all.len() as int) =~= all);
    out
}

/// What is told of the images whose path begins with a prefix, and of the folders where there is
/// no prefix.
pub open spec fn index_tree(index: MetadataIndex, prefix: Seq<char>) -> json::Tree {
    let images = images_tree(images_view(index.images@), prefix);
    let start = json::members()
        .push(("version"@, json::num(index.version as u64)))
        .push(("images"@, json::Tree::Object(images)));
    json::Tree::Object(
        if prefix.len() > 0 {
            start
        } else {
            start.push(
                (
                    "folders"@,
                    json::Tree::Array(
                        Seq::new(index.folders@.len(), |i: int| index.folders@[i].tree()),
                    ),
                ),
            )
        },
    )
}

/// The answer with the index: the images whose paths begin in the way that is asked for, or
/// everything where none is asked for.
pub fn get_all_image_metadata(body: &GetAllMetadataRequest, index: &MetadataIndex) -> (r: Reply)
    ensures
        r@ == web::json_reply(
            200,
            index_tree(*index, secrets::or_empty(json::string_opt(body.prefix))),
        ),
{
    let prefix = secrets::unwrap_or(&body.prefix, "");
    proof {
        reveal_strlit("");
        assert(""@ =~= Seq::<char>::empty());
    }
    let mut f = Fields::new()
        .with("version", Json::natural(index.version as u64))
        .with("images", image_members(&index.images, &prefix).done());
    if prefix.as_str().is_empty() {
        let mut folders: Vec<Json> = Vec::new();
        let mut i: usize = 0;
        while i < index.folders.len()
            invariant
                i <= index.folders@.len(),
                folders@.len() == i,
                forall|j: int|
                    0 <= j < i ==> #[trigger] folders@[j]@ == index.folders@[j].tree(),
            decreases index.folders@.len() - i,
        {
            folders.push(index.folders[i].to_json());
            i += 1;
        }
        assert(json::trees(folders@) =~= Seq::new(
            index.folders@.len(),
            |k: int| index.folders@[k].tree(),
        ));
        f.push("folders", Json::array(folders));
    }
    Reply::json(200, f.done())
}

} // verus!
