//! The images that a user keeps.

use crate::base64_text;
use crate::js_number;
use crate::json;
use crate::json::{Fields, Json};
use crate::naming;
use crate::numbers::TextNumber;
use crate::paths;
use crate::sanitize;
use crate::secrets;
use crate::text;
use crate::web;
use crate::web::Reply;
use vstd::prelude::*;

pub use crate::base64_text::decode_base64_loose;
pub use crate::js_number::{js_to_int32, parse_js_number, parse_js_number_string};
pub use crate::paths::client_relative_path;

verus! {

/// The flag for images among the kinds of media.
pub const MEDIA_IMAGE: u32 = 1;

/// Asks for the images of a folder.
#[derive(Debug)]
pub struct ListImagesRequest {
    pub folder: Option<String>,
    pub media_type: Option<Json>,
    pub sort_field: Option<String>,
    pub sort_order: Option<String>,
}

/// Brings an image, its bytes in base64.
#[derive(Debug)]
pub struct UploadImageRequest {
    pub image: String,
    pub format: String,
    pub filename: Option<String>,
    pub ch_name: Option<String>,
}

/// Asks for an image to be deleted, by its path from the user's directory.
#[derive(Debug)]
pub struct DeleteImageRequest {
    pub path: String,
}

/// The kinds of media that a request asks for: images where it does not say, and otherwise
/// the number that JavaScript makes of what it says, as flags; none where that is no finite
/// number.
pub open spec fn media_flags(value: Option<json::Tree>, table: Seq<TextNumber>) -> u32 {
    match value {
        None => MEDIA_IMAGE,
        Some(json::Tree::Null) => MEDIA_IMAGE,
        Some(v) => match js_number::number_of(v, table) {
            Some(b) => crate::numbers::as_int32(b),
            None => 0,
        },
    }
}

/// The kinds of media that a request asks for. `table` gives the numbers that texts stand
/// for.
pub fn parse_media_type(value: Option<&Json>, table: &Vec<TextNumber>) -> (r: u32)
    ensures
        r == media_flags(json::tree_opt(value), table@),
{
    match value {
        None => MEDIA_IMAGE,
        Some(v) => if v.is_null() {
            MEDIA_IMAGE
        } else {
            match parse_js_number(v, table) {
                Some(b) => js_to_int32(b),
                None => 0,
            }
        },
    }
}

/// What to list: the media of these kinds in the directory, sorted as said.
#[derive(Debug)]
pub struct Listing {
    pub directory: String,
    pub media_type: u32,
    pub sort_field: String,
    pub sort_order: String,
}

/// What to list for a request, or the refusal where it names no folder.
pub fn list_images(body: &ListImagesRequest, images: &str, table: &Vec<TextNumber>) -> (r: Result<
    Listing,
    Reply,
>)
    ensures
        match r {
            Ok(x) => {
                &&& secrets::filled(json::string_opt(body.folder)) matches Some(f)
                    && x.directory@ == paths::joined_path(images@, sanitize::sanitized(f, ""@))
                &&& x.media_type == media_flags(web::owned_tree(body.media_type), table@)
                &&& x.sort_field@ == secrets::text_or(json::string_opt(body.sort_field), "date"@)
                &&& x.sort_order@ == secrets::text_or(json::string_opt(body.sort_order), "asc"@)
            },
            Err(e) => {
                &&& secrets::filled(json::string_opt(body.folder)) is None
                &&& e@ == web::json_reply(400, web::error_tree("No folder specified"@))
            },
        },
{
    let folder = match secrets::non_empty(&body.folder) {
        Some(f) => f,
        None => return Err(Reply::error(400, "No folder specified")),
    };
    let directory = paths::join(images, &sanitize::sanitize_filename_strip(folder));
    let media_type = match &body.media_type {
        Some(v) => parse_media_type(Some(v), table),
        None => parse_media_type(None, table),
    };
    Ok(
        Listing {
            directory,
            media_type,
            sort_field: secrets::unwrap_or(&body.sort_field, "date"),
            sort_order: secrets::unwrap_or(&body.sort_order, "asc"),
        },
    )
}

/// The request with the folder of the address, or the refusal where the body names one too.
pub fn list_images_with_folder(folder: &str, body: ListImagesRequest) -> (r: Result<
    ListImagesRequest,
    Reply,
>)
    ensures
        match r {
            Ok(x) => {
                &&& body.folder is None
                &&& json::string_opt(x.folder) == Some(folder@)
                &&& x.media_type == body.media_type
                &&& x.sort_field == body.sort_field
                &&& x.sort_order == body.sort_order
            },
            Err(e) => {
                &&& body.folder is Some
                &&& e@ == web::json_reply(
                    400,
                    web::error_tree("Folder specified in both URL and body"@),
                )
            },
        },
{
    if body.folder.is_some() {
        return Err(Reply::error(400, "Folder specified in both URL and body"));
    }
    Ok(
        ListImagesRequest {
            folder: Some(folder.to_owned()),
            media_type: body.media_type,
            sort_field: body.sort_field,
            sort_order: body.sort_order,
        },
    )
}

/// An array of texts.
pub open spec fn text_array(s: Seq<Seq<char>>) -> json::Tree {
    json::Tree::Array(json::text_items(s))
}

/// The answer that lists the names that were found, in their order or the other way round;
/// an internal error where there is no directory to look into.
pub fn listing_reply(names: Option<&Vec<String>>, descending: bool) -> (r: Reply)
    ensures
        r@ == match names {
            Some(v) => web::json_reply(
                200,
                text_array(
                    if descending {
                        json::texts(v@).reverse()
                    } else {
                        json::texts(v@)
                    },
                ),
            ),
            None => web::json_reply(500, web::error_tree("Unable to retrieve files"@)),
        },
{
    let list = match names {
        Some(v) => v,
        None => return Reply::error(500, "Unable to retrieve files"),
    };
    let n = list.len();
    let ghost want = if descending {
        json::texts(list@).reverse()
    } else {
        json::texts(list@)
    };
    let mut out: Vec<Json> = Vec::new();
    let mut i: usize = 0;
    while i < n
        invariant
            n == list@.len(),
            i <= n,
            want == (if descending {
                json::texts(list@).reverse()
            } else {
                json::texts(list@)
            }),
            out@.len() == i,
            forall|j: int| 0 <= j < i ==> #[trigger] out@[j]@ == json::txt(want[j]),
        decreases n - i,
    {
        let k: usize = if descending {
            n - 1 - i
        } else {
            i
        };
        assert(json::texts(list@)[k as int] == list@[k as int]@);
        out.push(Json::text(&list[k]));
        i += 1;
    }
    assert(json::trees(out@) =~= text_array(want)->Array_0);
    Reply::json(200, Json::array(out))
}

/// What a directory holds: a name, and whether it is that of a directory.
#[derive(Debug)]
pub struct DirectoryEntry {
    pub name: String,
    pub is_directory: bool,
}

/// The names of the directories among the entries, in their order.
pub open spec fn folder_names(entries: Seq<DirectoryEntry>) -> Seq<Seq<char>>
    decreases entries.len(),
{
    if entries.len() == 0 {
        Seq::empty()
    } else if entries.last().is_directory {
        folder_names(entries.drop_last()).push(entries.last().name@)
    } else {
        folder_names(entries.drop_last())
    }
}

/// The answer that lists the folders for images; an internal error where they cannot be
/// looked at.
pub fn list_image_folders(entries: Option<&Vec<DirectoryEntry>>) -> (r: Reply)
    ensures
        r@ == match entries {
            Some(v) => web::json_reply(200, text_array(folder_names(v@))),
            None => web::json_reply(500, web::error_tree("Unable to retrieve folders"@)),
        },
{
    let list = match entries {
        Some(v) => v,
        None => return Reply::error(500, "Unable to retrieve folders"),
    };
    let mut out: Vec<Json> = Vec::new();
    let mut i: usize = 0;
    assert(json::trees(out@) =~= text_array(folder_names(list@.take(0)))->Array_0);
    while i < list.len()
        invariant
            i <= list@.len(),
            json::trees(out@) == text_array(folder_names(list@.take(i as int)))->Array_0,
        decreases list@.len() - i,
    {
        assert(list@.take(i as int + 1).drop_last() =~= list@.take(i as int));
        assert(list@.take(i as int + 1).last() == list@[i as int]);
        if list[i].is_directory {
            let ghost before = out@;
            let ghost names = folder_names(list@.take(i as int));
            out.push(Json::text(&list[i].name));
            assert(json::trees(out@) =~= json::trees(before).push(
                json::txt(list@[i as int].name@),
            ));
            assert(json::trees(out@) =~= text_array(
                names.push(list@[i as int].name@),
            )->Array_0);
        }
        i += 1;
    }
    assert(list@.take(list@.len() as int) =~= list@);
    Reply::json(200, Json::array(out))
}

/// A file name without its extension.
pub fn remove_file_extension(filename: &str) -> (r: String)
    ensures
        r@ == paths::stem_of(filename@),
{
    paths::stem(filename)
}

/// The name of the file for an image: the one given with the extension of the format, or
/// the time in milliseconds where none is given.
pub open spec fn image_name(filename: Option<Seq<char>>, format: Seq<char>, millis: u128) -> Seq<char> {
    let base = match secrets::filled(filename) {
        Some(n) => paths::stem_of(n),
        None => text::decimal(millis as nat),
    };
    base + "."@ + format
}

/// The path of the file for an image: in the directory for images, or in that of a character
/// in it.
pub open spec fn image_path(
    images: Seq<char>,
    character: Option<Seq<char>>,
    name: Seq<char>,
) -> Seq<char> {
    let folder = match secrets::filled(character) {
        Some(c) => paths::joined_path(images, sanitize::sanitized(c, ""@)),
        None => images,
    };
    paths::joined_path(folder, sanitize::sanitized(name, ""@))
}

/// An image to be written, and where, and the answer once it is.
#[derive(Debug)]
pub struct ImageUpload {
    pub path: String,
    pub bytes: Vec<u8>,
    pub reply: Reply,
}

/// Why an image is refused: its format is none that may be kept, or it is empty.
pub open spec fn upload_refusal(body: UploadImageRequest, formats: Seq<String>) -> Option<
    web::ReplyView,
> {
    if !json::texts(formats).contains(body.format@) {
        Some(web::json_reply(400, web::error_tree("Invalid image format"@)))
    } else if body.image@.len() == 0 {
        Some(web::json_reply(400, web::error_tree("No image data provided"@)))
    } else {
        None
    }
}

/// The image to be written into the directory `images` below `root`. `formats` are the
/// extensions of the media that may be kept, and `millis` is the time.
pub fn upload_image(
    body: &UploadImageRequest,
    formats: &Vec<String>,
    root: &str,
    images: &str,
    millis: u128,
) -> (r: Result<ImageUpload, Reply>)
    ensures
        match r {
            Ok(u) => {
                &&& upload_refusal(*body, formats@) is None
                &&& u.path@ == image_path(
                    images@,
                    json::string_opt(body.ch_name),
                    image_name(json::string_opt(body.filename), body.format@, millis),
                )
                &&& images@.len() > 0 ==> paths::lies_under(u.path@, images@)
                &&& u.bytes@ == base64_text::loose(body.image@)
                &&& forall|b: Seq<u8>|
                    #![trigger base64_text::base64_of(b)]
                    base64_text::stands_for(body.image@, b) ==> u.bytes@ == b
                &&& u.reply@ == web::json_reply(
                    200,
                    json::Tree::Object(
                        json::members().push(
                            ("path"@, json::txt(paths::client_path(root@, u.path@))),
                        ),
                    ),
                )
            },
            Err(e) => upload_refusal(*body, formats@) == Some(e@),
        },
{
    if !naming::is_taken(&body.format, formats) {
        return Err(Reply::error(400, "Invalid image format"));
    }
    if body.image.as_str().is_empty() {
        return Err(Reply::error(400, "No image data provided"));
    }
    let base = match secrets::non_empty(&body.filename) {
        Some(n) => remove_file_extension(n),
        None => text::decimal_text(millis),
    };
    let name = sanitize::sanitize_filename_strip(&text::join3(&base, ".", &body.format));
    let folder = match secrets::non_empty(&body.ch_name) {
        Some(c) => paths::join(images, &sanitize::sanitize_filename_strip(c)),
        None => images.to_owned(),
    };
    let path = paths::join(&folder, &name);
    proof {
        if images@.len() > 0 {
            image_lies_inside(
                images@,
                json::string_opt(body.ch_name),
                image_name(json::string_opt(body.filename), body.format@, millis),
            );
        }
    }
    let bytes = decode_base64_loose(&body.image);
    let shown = client_relative_path(root, &path);
    let reply = Reply::json(200, Fields::new().with("path", Json::Text(shown)).done());
    Ok(ImageUpload { path, bytes, reply })
}

/// The answer where an image could not be written.
pub fn upload_failed() -> (r: Reply)
    ensures
        r@ == web::json_reply(500, web::error_tree("Failed to save the image"@)),
{
    Reply::error(500, "Failed to save the image")
}

/// The path of the image to be deleted, or the refusal where none is given.
pub fn delete_image(body: &DeleteImageRequest, root: &str) -> (r: Result<String, Reply>)
    ensures
        match r {
            Ok(p) => body.path@.len() > 0 && p@ == paths::joined_path(root@, body.path@),
            Err(e) => body.path@.len() == 0 && e@ == web::text_reply(400, "No path specified"@),
        },
{
    if body.path.as_str().is_empty() {
        return Err(Reply::text(400, "No path specified"));
    }
    Ok(paths::join(root, &body.path))
}

/// Whether an image may be deleted: it has to lie in the directory for images, and to be
/// there.
pub fn delete_check(inside: bool, found: bool) -> (r: Result<(), Reply>)
    ensures
        match r {
            Ok(_) => inside && found,
            Err(e) => !(inside && found) && e@ == if !inside {
                web::text_reply(400, "Invalid path"@)
            } else {
                web::text_reply(404, "File not found"@)
            },
        },
{
    if !inside {
        Err(Reply::text(400, "Invalid path"))
    } else if !found {
        Err(Reply::text(404, "File not found"))
    } else {
        Ok(())
    }
}

/// The answer once an image was to be deleted.
pub fn deletion_reply(removed: bool) -> (r: Reply)
    ensures
        r@ == if removed {
            web::text_reply(200, "OK"@)
        } else {
            web::status_only(500)
        },
{
    if removed {
        Reply::text(200, "OK")
    } else {
        Reply::empty(500)
    }
}

/// Whether a name may be that of a file.
pub open spec fn is_safe(name: Seq<char>) -> bool {
    sanitize::legal(name) && name != "."@ && name != ".."@
}

proof fn safe_name_has_no_separator(name: Seq<char>)
    requires
        sanitize::legal(name),
    ensures
        !name.contains('/'),
{
    if name.contains('/') {
        let i = choose|i: int| 0 <= i < name.len() && name[i] == '/';
        assert(sanitize::illegal(name[i]));
    }
}

/// An image goes into the directory for images, by whatever names: no name that is safe leads
/// out of it.
pub proof fn image_lies_inside(images: Seq<char>, character: Option<Seq<char>>, name: Seq<char>)
    requires
        images.len() > 0,
        is_safe(sanitize::sanitized(name, ""@)),
        secrets::filled(character) matches Some(c) ==> is_safe(sanitize::sanitized(c, ""@)),
    ensures
        paths::lies_under(image_path(images, character, name), images),
{
    let file = sanitize::sanitized(name, ""@);
    safe_name_has_no_separator(file);
    let b = paths::normal_names(images);
    match secrets::filled(character) {
        Some(c) => {
            let dir = sanitize::sanitized(c, ""@);
            safe_name_has_no_separator(dir);
            let folder = paths::joined_path(images, dir);
            paths::joined_name_is_last(images, dir);
            paths::joined_name_is_last(folder, file);
            assert(b.push(dir).push(file).take(b.len() as int) =~= b);
            assert(b.push(dir).take(b.len() as int) =~= b);
            assert(b.push(file).take(b.len() as int) =~= b);
            assert(b.take(b.len() as int) =~= b);
        },
        None => {
            paths::joined_name_is_last(images, file);
            assert(b.push(file).take(b.len() as int) =~= b);
            assert(b.take(b.len() as int) =~= b);
        },
    }
}

} // verus!
