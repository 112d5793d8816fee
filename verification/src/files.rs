//! The files that a user keeps.

use crate::base64_text;
use crate::json;
use crate::json::{Fields, Json};
use crate::paths;
use crate::sanitize;
use crate::sanitize::FilenameCheck;
use crate::text;
use crate::web;
use crate::web::Reply;
use vstd::prelude::*;

pub use crate::base64_text::decode_base64_loose;
pub use crate::paths::client_relative_path;

verus! {

/// Asks for a file name that is safe.
#[derive(Debug)]
pub struct SanitizeFilenameRequest {
    pub file_name: String,
}

/// A file name that is safe.
#[derive(Debug)]
pub struct SanitizeFilenameResponse {
    pub file_name: String,
}

impl SanitizeFilenameResponse {
    /// The answer as JSON.
    pub fn to_json(&self) -> (r: Json)
        ensures
            r@ == json::Tree::Object(
                json::members().push(("fileName"@, json::txt(self.file_name@))),
            ),
    {
        Fields::new().with("fileName", Json::text(&self.file_name)).done()
    }
}

/// Brings a file, its bytes in base64.
#[derive(Debug)]
pub struct UploadFileRequest {
    pub name: String,
    pub data: String,
}

/// Where a file was put, as a client names it.
#[derive(Debug)]
pub struct UploadFileResponse {
    pub path: String,
}

impl UploadFileResponse {
    /// The answer as JSON.
    pub fn to_json(&self) -> (r: Json)
        ensures
            r@ == json::Tree::Object(json::members().push(("path"@, json::txt(self.path@)))),
    {
        Fields::new().with("path", Json::text(&self.path)).done()
    }
}

/// Asks for a file to be deleted, by its path from the user's directory.
#[derive(Debug)]
pub struct DeleteFileRequest {
    pub path: String,
}

/// Asks which of some files there are, by their paths from the user's directory.
#[derive(Debug)]
pub struct VerifyFilesRequest {
    pub urls: Vec<String>,
}

/// A file name that is safe, or the refusal where none is given.
pub fn sanitize_filename_handler(body: &SanitizeFilenameRequest) -> (r: Result<
    SanitizeFilenameResponse,
    Reply,
>)
    ensures
        match r {
            Ok(x) => body.file_name@.len() > 0 && x.file_name@ == sanitize::sanitized(
                body.file_name@,
                ""@,
            ),
            Err(e) => body.file_name@.len() == 0 && e@ == web::text_reply(
                400,
                "No fileName specified"@,
            ),
        },
{
    if body.file_name.as_str().is_empty() {
        return Err(Reply::text(400, "No fileName specified"));
    }
    Ok(
        SanitizeFilenameResponse { file_name: sanitize::sanitize_filename_strip(&body.file_name) },
    )
}

/// A file to be written, and the answer once it is.
#[derive(Debug)]
pub struct Upload {
    pub path: String,
    pub bytes: Vec<u8>,
    pub response: UploadFileResponse,
}

/// Why an upload is refused: no name, no data, or a name that may not be used.
pub open spec fn upload_refusal(body: UploadFileRequest, check: FilenameCheck) -> Option<
    web::ReplyView,
> {
    if body.name@.len() == 0 {
        Some(web::text_reply(400, "No upload name specified"@))
    } else if body.data@.len() == 0 {
        Some(web::text_reply(400, "No upload data specified"@))
    } else if !check.valid {
        Some(web::text_reply(400, check.reason()))
    } else {
        None
    }
}

/// The file to be written into the directory `files` below `root` for an upload.
pub fn upload_file(body: &UploadFileRequest, check: &FilenameCheck, root: &str, files: &str) -> (r:
    Result<Upload, Reply>)
    ensures
        match r {
            Ok(u) => {
                &&& upload_refusal(*body, *check) is None
                &&& u.path@ == paths::joined_path(files@, body.name@)
                &&& u.bytes@ == base64_text::loose(body.data@)
                &&& forall|b: Seq<u8>|
                    #![trigger base64_text::base64_of(b)]
                    base64_text::stands_for(body.data@, b) ==> u.bytes@ == b
                &&& u.response.path@ == paths::client_path(root@, u.path@)
            },
            Err(e) => upload_refusal(*body, *check) == Some(e@),
        },
{
    if body.name.as_str().is_empty() {
        return Err(Reply::text(400, "No upload name specified"));
    }
    if body.data.as_str().is_empty() {
        return Err(Reply::text(400, "No upload data specified"));
    }
    if !check.valid {
        return Err(Reply::text(400, &check.reason_text()));
    }
    let path = paths::join(files, &body.name);
    let bytes = base64_text::decode_base64_loose(&body.data);
    let response = UploadFileResponse { path: paths::client_relative_path(root, &path) };
    Ok(Upload { path, bytes, response })
}

/// The path of the file to be deleted, or the refusal: once it is normalized, it has to lie below
/// the directory `files`.
pub fn delete_file(body: &DeleteFileRequest, root: &str, files: &str) -> (r: Result<String, Reply>)
    ensures
        match r {
            Ok(p) => {
                &&& body.path@.len() > 0
                &&& p@ == paths::joined_path(root@, body.path@)
                &&& paths::lies_under(p@, files@)
            },
            Err(e) => if body.path@.len() == 0 {
                e@ == web::html_reply(400, "No path specified"@)
            } else {
                e@ == web::html_reply(400, "Invalid path"@) && !paths::lies_under(
                    paths::joined_path(root@, body.path@),
                    files@,
                )
            },
        },
{
    if body.path.as_str().is_empty() {
        return Err(Reply::html(400, "No path specified"));
    }
    let path = paths::join(root, &body.path);
    if !paths::is_under(&path, files) {
        return Err(Reply::html(400, "Invalid path"));
    }
    Ok(path)
}

/// The answer once a file was to be deleted: whether there was one, and whether it is gone.
pub fn deletion_reply(found: bool, removed: bool) -> (r: Reply)
    ensures
        r@ == if !found {
            web::html_reply(404, "File not found"@)
        } else if !removed {
            web::status_only(500)
        } else {
            web::text_reply(200, "OK"@)
        },
{
    if !found {
        Reply::html(404, "File not found")
    } else if !removed {
        Reply::empty(500)
    } else {
        Reply::text(200, "OK")
    }
}

/// A file to look for: how the client names it, and its path.
#[derive(Debug)]
pub struct Target {
    pub url: String,
    pub path: String,
}

/// The names and paths of files to look for.
pub open spec fn targets_view(v: Seq<Target>) -> Seq<(Seq<char>, Seq<char>)> {
    Seq::new(v.len(), |i: int| (v[i].url@, v[i].path@))
}

/// Those of the named files that lie below `files` once their paths are normalized, in their
/// order.
pub open spec fn targets_of(
    urls: Seq<Seq<char>>,
    root: Seq<char>,
    files: Seq<char>,
) -> Seq<(Seq<char>, Seq<char>)>
    decreases urls.len(),
{
    if urls.len() == 0 {
        Seq::empty()
    } else {
        let rest = targets_of(urls.drop_last(), root, files);
        let path = paths::joined_path(root, urls.last());
        if paths::lies_under(path, files) {
            rest.push((urls.last(), path))
        } else {
            rest
        }
    }
}

/// Those of the named files that lie below `files`. The others are passed over.
pub fn verify_targets(body: &VerifyFilesRequest, root: &str, files: &str) -> (r: Vec<Target>)
    ensures
        targets_view(r@) == targets_of(json::texts(body.urls@), root@, files@),
{
    let ghost all = json::texts(body.urls@);
    let mut out: Vec<Target> = Vec::new();
    let mut i: usize = 0;
    assert(targets_view(out@) =~= targets_of(all.take(0), root@, files@));
    while i < body.urls.len()
        invariant
            all == json::texts(body.urls@),
            i <= body.urls@.len(),
            targets_view(out@) == targets_of(all.take(i as int), root@, files@),
        decreases body.urls@.len() - i,
    {
        assert(all.take(i as int + 1).drop_last() =~= all.take(i as int));
        assert(all.take(i as int + 1).last() == body.urls@[i as int]@);
        let path = paths::join(root, &body.urls[i]);
        if paths::is_under(&path, files) {
            let ghost before = out@;
            let t = Target { url: body.urls[i].clone(), path };
            out.push(t);
            assert(targets_view(out@) =~= targets_view(before).push((t.url@, t.path@)));
        }
        i += 1;
    }
    assert(all.take(all.len() as int) =~= all);
    out
}

/// Whether there is each of the files that were looked for.
pub open spec fn verified(
    targets: Seq<(Seq<char>, Seq<char>)>,
    found: Seq<bool>,
) -> Seq<(Seq<char>, json::Tree)>
    decreases targets.len(),
{
    if targets.len() == 0 {
        Seq::empty()
    } else {
        json::put(
            verified(targets.drop_last(), found),
            targets.last().0,
            json::Tree::Bool(found[targets.len() - 1]),
        )
    }
}

/// The answer that tells of each file that was looked for whether there is one.
pub fn verify_files(targets: &Vec<Target>, found: &Vec<bool>) -> (r: Reply)
    requires
        found@.len() == targets@.len(),
    ensures
        r@ == web::json_reply(
            200,
            json::Tree::Object(verified(targets_view(targets@), found@)),
        ),
{
    let ghost all = targets_view(targets@);
    let mut f = Fields::new();
    let mut i: usize = 0;
    assert(f@ =~= verified(all.take(0), found@));
    while i < targets.len()
        invariant
            all == targets_view(targets@),
            found@.len() == targets@.len(),
            i <= targets@.len(),
            f@ == verified(all.take(i as int), found@),
        decreases targets@.len() - i,
    {
        assert(all.take(i as int + 1).drop_last() =~= all.take(i as int));
        f.insert(&targets[i].url, Json::Bool(found[i]));
        i += 1;
    }
    assert(all.take(all.len() as int) =~= all);
    Reply::json(200, f.done())
}

} // verus!
