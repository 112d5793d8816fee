//! The backups of chats.

use crate::json;
use crate::paths;
use crate::sanitize;
use crate::secrets;
use crate::text;
use crate::web;
use crate::web::Reply;
use vstd::prelude::*;

verus! {

/// Names a backup.
#[derive(Debug)]
pub struct ChatBackupRequest {
    pub name: Option<String>,
}

/// Whether a file of that name is the backup of a chat; the names of those begin with
/// `prefix`.
pub open spec fn is_backup(name: Seq<char>, prefix: Seq<char>) -> bool {
    text::ends(name, ".jsonl"@) && text::begins(name, prefix)
}

/// The names of the backups of chats among `names`.
pub open spec fn backup_names(names: Seq<Seq<char>>, prefix: Seq<char>) -> Seq<Seq<char>>
    decreases names.len(),
{
    if names.len() == 0 {
        Seq::empty()
    } else if is_backup(names.last(), prefix) {
        backup_names(names.drop_last(), prefix).push(names.last())
    } else {
        backup_names(names.drop_last(), prefix)
    }
}

/// The names of the backups of chats among the files of the backup directory.
pub fn get_chat_backups(names: &Vec<String>, prefix: &str) -> (r: Vec<String>)
    ensures
        json::texts(r@) == backup_names(json::texts(names@), prefix@),
{
    let ghost all = json::texts(names@);
    let mut out: Vec<String> = Vec::new();
    let mut i: usize = 0;
    assert(json::texts(out@) =~= backup_names(all.take(0), prefix@));
    while i < names.len()
        invariant
            all == json::texts(names@),
            i <= names@.len(),
            json::texts(out@) == backup_names(all.take(i as int), prefix@),
        decreases names@.len() - i,
    {
        assert(all.take(i as int + 1).drop_last() =~= all.take(i as int));
        assert(all.take(i as int + 1).last() == names@[i as int]@);
        let ghost before = out@;
        if text::ends_with(&names[i], ".jsonl") && text::starts_with(&names[i], prefix) {
            out.push(names[i].clone());
            assert(json::texts(out@) =~= json::texts(before).push(names@[i as int]@));
        }
        i += 1;
    }
    assert(all.take(all.len() as int) =~= all);
    out
}

/// The backup that a request is about.
#[derive(Debug)]
pub struct BackupTarget {
    pub path: String,
    pub base_name: String,
}

/// The backup that a request is about, or the refusal where no name is given or it is not
/// that of the backup of a chat.
pub fn find_chat_backup(body: &ChatBackupRequest, backups: &str, prefix: &str) -> (r: Result<
    BackupTarget,
    Reply,
>)
    ensures
        match secrets::filled(json::string_opt(body.name)) {
            Some(name) => {
                let path = paths::joined_path(backups@, sanitize::sanitized(name, ""@));
                let base = secrets::or_empty(paths::last_name(path));
                if text::begins(base, prefix@) {
                    r matches Ok(t) && t.path@ == path && t.base_name@ == base
                } else {
                    r matches Err(e) && e@ == web::status_only(400)
                }
            },
            None => r matches Err(e) && e@ == web::status_only(400),
        },
{
    let name = match secrets::non_empty(&body.name) {
        Some(n) => n,
        None => return Err(Reply::empty(400)),
    };
    let path = paths::join(backups, &sanitize::sanitize_filename_strip(name));
    let base_name = secrets::unwrap_or_empty(paths::file_name(&path));
    if !text::starts_with(&base_name, prefix) {
        return Err(Reply::empty(400));
    }
    Ok(BackupTarget { path, base_name })
}

/// The answer once a backup was to be deleted: whether there was one, and whether it is
/// gone.
pub fn delete_chat_backup(found: bool, removed: bool) -> (r: Reply)
    ensures
        r@ == if !found {
            web::status_only(404)
        } else if !removed {
            web::status_only(500)
        } else {
            web::text_reply(200, "OK"@)
        },
{
    if !found {
        Reply::empty(404)
    } else if !removed {
        Reply::empty(500)
    } else {
        Reply::text(200, "OK")
    }
}

/// The header that has a client save what it gets under the name.
pub open spec fn attachment(name: Seq<char>) -> Seq<char> {
    "attachment; filename=\""@ + text::replaced(name, "\""@, "\\\""@) + "\""@
}

/// The answer with a backup: it is saved under its name. Where the file could not be read
/// the answer is an error.
pub fn download_chat_backup(target: &BackupTarget, data: Option<Vec<u8>>) -> (r: Reply)
    ensures
        r@ == (match data {
            Some(b) => web::ReplyView {
                status: 200,
                headers: Seq::empty().push(
                    ("Content-Disposition"@, attachment(target.base_name@)),
                ),
                payload: web::PayloadView::Bytes("application/octet-stream"@, b@),
            },
            None => web::status_only(500),
        }),
{
    match data {
        Some(b) => {
            proof {
                reveal_strlit("\"");
            }
            let quoted = text::replace(&target.base_name, "\"", "\\\"");
            let value = text::join3("attachment; filename=\"", &quoted, "\"");
            Reply::bytes(200, "application/octet-stream", b).header("Content-Disposition", &value)
        },
        None => Reply::empty(500),
    }
}

} // verus!
