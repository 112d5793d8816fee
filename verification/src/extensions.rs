//! Extensions that are kept as Git repositories.

use crate::json;
use crate::json::{Fields, Json};
use crate::naming;
use crate::numbers;
use crate::sanitize;
use crate::secrets;
use crate::text;
use crate::web;
use crate::web::Reply;
use vstd::prelude::*;

verus! {

/// An extension to be installed.
#[derive(Debug)]
pub struct InstallRequest {
    pub url: Option<String>,
    pub global: Option<bool>,
    pub branch: Option<String>,
}

/// Names an extension.
#[derive(Debug)]
pub struct ExtensionNameRequest {
    pub extension_name: Option<String>,
    pub global: Option<bool>,
}

/// A branch that an extension is to be switched to.
#[derive(Debug)]
pub struct SwitchRequest {
    pub extension_name: Option<String>,
    pub branch: Option<String>,
    pub global: Option<bool>,
}

/// Where an extension is to be moved.
#[derive(Debug)]
pub struct MoveRequest {
    pub extension_name: Option<String>,
    pub source: Option<String>,
    pub destination: Option<String>,
}

/// The directory that extensions are in: that of all users, or that of one.
pub fn resolve_base_path<'a>(user_extensions: &'a str, global_extensions: &'a str, global: bool) -> (r:
    &'a str)
    ensures
        r@ == if global {
            global_extensions@
        } else {
            user_extensions@
        },
{
    if global {
        global_extensions
    } else {
        user_extensions
    }
}

/// The arguments that Git clones a repository by.
pub open spec fn clone_arguments(url: Seq<char>, dest: Seq<char>, branch: Option<Seq<char>>) -> Seq<
    Seq<char>,
> {
    let begin = Seq::empty().push("clone"@).push("--depth"@).push("1"@);
    (match branch {
        Some(b) => begin.push("--branch"@).push(b),
        None => begin,
    }).push(url).push(dest)
}

fn push_text(v: &mut Vec<String>, s: &str)
    ensures
        json::texts(final(v)@) == json::texts(old(v)@).push(s@),
{
    let ghost before = v@;
    v.push(s.to_owned());
    assert(json::texts(v@) =~= json::texts(before).push(s@));
}

/// The arguments that Git clones a repository by.
pub fn git_clone(url: &str, dest: &str, branch: Option<&str>) -> (r: Vec<String>)
    ensures
        json::texts(r@) == clone_arguments(url@, dest@, json::text_opt(branch)),
{
    let mut v: Vec<String> = Vec::new();
    assert(json::texts(v@) =~= Seq::empty());
    push_text(&mut v, "clone");
    push_text(&mut v, "--depth");
    push_text(&mut v, "1");
    match branch {
        Some(b) => {
            push_text(&mut v, "--branch");
            push_text(&mut v, b);
        },
        None => {},
    }
    push_text(&mut v, url);
    push_text(&mut v, dest);
    v
}

/// What a run of Git came to: it could not be started, or it ended with success or without, and
/// wrote what it found and what went wrong.
#[derive(Debug)]
pub enum GitRun {
    NotStarted(String),
    Ended(bool, String, String),
}

/// What Git found in a directory, or what went wrong there.
pub fn git_in_dir(args: &Vec<String>, run: &GitRun) -> (r: Result<String, String>)
    ensures
        match *run {
            GitRun::NotStarted(e) => r matches Err(x) && x@ == "Failed to run git: "@ + e@,
            GitRun::Ended(success, out, err) => if success {
                r matches Ok(x) && x@ == text::trimmed(out@)
            } else {
                r matches Err(x) && x@ == "git "@ + text::joined(json::texts(args@), " "@) + ": "@
                    + text::trimmed(err@)
            },
        },
{
    match run {
        GitRun::NotStarted(e) => Err(text::join2("Failed to run git: ", e)),
        GitRun::Ended(success, out, err) => if *success {
            Ok(text::trim(out))
        } else {
            let said = text::join3("git ", &text::join(args, " "), ": ");
            Err(text::join2(&said, &text::trim(err)))
        },
    }
}

/// Why a repository could not be cloned; nothing where it was.
pub fn clone_error(run: &GitRun) -> (r: Option<Reply>)
    ensures
        match *run {
            GitRun::NotStarted(e) => r matches Some(x) && x@ == web::text_reply(
                500,
                "Server Error: "@ + ("Failed to run git clone: "@ + e@),
            ),
            GitRun::Ended(success, _, err) => if success {
                r is None
            } else {
                r matches Some(x) && x@ == web::text_reply(
                    500,
                    "Server Error: "@ + ("git clone failed: "@ + text::trimmed(err@)),
                )
            },
        },
{
    match run {
        GitRun::NotStarted(e) => Some(server_error(&text::join2("Failed to run git clone: ", e))),
        GitRun::Ended(success, _, err) => if *success {
            None
        } else {
            Some(server_error(&text::join2("git clone failed: ", &text::trim(err))))
        },
    }
}

/// The commits that a branch is behind its remote by, as Git counts them.
pub fn behind_range(commit: &str, branch: &str) -> (r: String)
    ensures
        r@ == commit@ + "..origin/"@ + branch@,
{
    text::join3(commit, "..origin/", branch)
}

/// The address of the first of the lines from the `i`th on that tells where is fetched from.
pub open spec fn fetch_address(lines: Seq<Seq<char>>, i: int) -> Seq<char>
    decreases lines.len() - i,
{
    if i < 0 || i >= lines.len() {
        Seq::empty()
    } else if text::occurs(lines[i], "(fetch)"@) {
        let words = text::words_from(lines[i], 0);
        if words.len() > 1 {
            words[1]
        } else {
            Seq::empty()
        }
    } else {
        fetch_address(lines, i + 1)
    }
}

fn find_fetch_address(lines: &Vec<String>) -> (r: String)
    ensures
        r@ == fetch_address(json::texts(lines@), 0),
{
    let ghost all = json::texts(lines@);
    let mut i: usize = 0;
    while i < lines.len()
        invariant
            all == json::texts(lines@),
            i <= lines@.len(),
            fetch_address(all, 0) == fetch_address(all, i as int),
        decreases lines@.len() - i,
    {
        assert(all[i as int] == lines@[i as int]@);
        if text::contains(&lines[i], "(fetch)") {
            let words = text::split_whitespace(&lines[i]);
            assert(json::texts(words@).len() == words@.len());
            if words.len() > 1 {
                assert(json::texts(words@)[1] == words@[1]@);
                return words[1].clone();
            }
            return String::new();
        }
        i += 1;
    }
    String::new()
}

/// Whether a count says that there is nothing new; a text that is no count says so too.
pub open spec fn nothing_new(count: Seq<char>) -> bool {
    match numbers::u64_value(text::trimmed(count)) {
        Some(n) => n == 0,
        None => true,
    }
}

/// Whether a repository is up to date, and where it is fetched from: by the list of its
/// remotes and the count of the commits that it is behind by.
pub open spec fn repo_state(remotes: Seq<char>, count: Seq<char>) -> (bool, Seq<char>) {
    if remotes.len() == 0 {
        (true, Seq::empty())
    } else {
        (nothing_new(count), fetch_address(text::lines(remotes), 0))
    }
}

/// The state of a repository: whether it is up to date, and where it is fetched from.
#[derive(Debug)]
pub struct RepoState {
    pub is_up_to_date: bool,
    pub remote_url: String,
}

/// The state of a repository, by the list of its remotes and the count of the commits that it
/// is behind by.
fn state_of(remotes: &str, count: &str) -> (r: RepoState)
    ensures
        (r.is_up_to_date, r.remote_url@) == repo_state(remotes@, count@),
{
    if remotes.is_empty() {
        return RepoState { is_up_to_date: true, remote_url: String::new() };
    }
    let is_up_to_date = match numbers::parse_u64(&text::trim(count)) {
        Some(n) => n == 0,
        None => true,
    };
    let remote_url = find_fetch_address(&text::split_lines(remotes));
    RepoState { is_up_to_date, remote_url }
}

/// What Git answers when a repository is looked at: that it fetched, the branch, the commit, the
/// remotes, and how many commits the repository is behind by.
#[derive(Debug)]
pub struct RepoAnswers {
    pub fetched: Result<String, String>,
    pub branch: Result<String, String>,
    pub commit: Result<String, String>,
    pub remotes: Result<String, String>,
    pub count: Result<String, String>,
}

/// What keeps the state of a repository from being known: Git could not fetch, or could not tell
/// the branch or the commit.
pub open spec fn repo_fault(answers: RepoAnswers) -> Option<Seq<char>> {
    match answers.fetched {
        Err(e) => Some(e@),
        Ok(_) => match answers.branch {
            Err(e) => Some(e@),
            Ok(_) => match answers.commit {
                Err(e) => Some(e@),
                Ok(_) => None,
            },
        },
    }
}

/// An answer of Git, or what stands for it where it gave none.
pub open spec fn answer_or(answer: Result<String, String>, default: Seq<char>) -> Seq<char> {
    match answer {
        Ok(s) => s@,
        Err(_) => default,
    }
}

fn read_answer<'a>(answer: &'a Result<String, String>, default: &'a str) -> (r: &'a str)
    ensures
        r@ == answer_or(*answer, default@),
{
    match answer {
        Ok(s) => s.as_str(),
        Err(_) => default,
    }
}

/// The state of a repository. Where Git cannot list the remotes there are none, and where it
/// cannot count the commits there is nothing new.
pub fn check_if_repo_is_up_to_date(answers: &RepoAnswers) -> (r: Result<RepoState, String>)
    ensures
        match repo_fault(*answers) {
            Some(m) => r matches Err(e) && e@ == m,
            None => r matches Ok(s) && (s.is_up_to_date, s.remote_url@) == repo_state(
                answer_or(answers.remotes, ""@),
                answer_or(answers.count, "0"@),
            ),
        },
{
    match &answers.fetched {
        Err(e) => return Err(e.clone()),
        Ok(_) => {},
    }
    match &answers.branch {
        Err(e) => return Err(e.clone()),
        Ok(_) => {},
    }
    match &answers.commit {
        Err(e) => return Err(e.clone()),
        Ok(_) => {},
    }
    Ok(state_of(read_answer(&answers.remotes, ""), read_answer(&answers.count, "0")))
}

/// An extension that is to be installed: from where, under which name, for all users or for
/// one, and at which branch.
#[derive(Debug)]
pub struct Installation {
    pub url: String,
    pub name: String,
    pub global: bool,
    pub branch: Option<String>,
}

/// The name of a repository.
pub open spec fn repo_name(url: Seq<char>) -> Seq<char> {
    text::drop_suffixes(text::pieces(text::drop_trailing(url, '/'), '/').last(), ".git"@)
}

fn find_repo_name(url: &str) -> (r: String)
    ensures
        r@ == repo_name(url@),
{
    let trimmed = text::trim_end_char(url, '/');
    let parts = text::split(&trimmed, '/');
    let n: usize = parts.len();
    proof {
        text::pieces_not_empty(trimmed@, '/', 0);
        assert(json::texts(parts@).len() == n);
        assert(text::pieces(trimmed@, '/').last() == parts@[n as int - 1]@);
    }
    text::trim_end_text(&parts[n - 1], ".git")
}

/// Why an extension is not installed.
pub open spec fn install_error(url: Option<Seq<char>>, global: Option<bool>, is_admin: bool) ->
    Option<web::ReplyView> {
    if secrets::filled(url) is None {
        Some(web::text_reply(400, "Bad Request: URL is required in the request body."@))
    } else if global == Some(true) && !is_admin {
        Some(web::text_reply(403, "Forbidden: No permission to install global extensions."@))
    } else {
        None
    }
}

/// What is to be installed, or the refusal.
pub fn install_extension(body: &InstallRequest, is_admin: bool) -> (r: Result<Installation, Reply>)
    ensures
        match r {
            Ok(x) => {
                &&& install_error(json::string_opt(body.url), body.global, is_admin) is None
                &&& x.url@ == body.url->Some_0@
                &&& x.name@ == sanitize::sanitized(repo_name(x.url@), ""@)
                &&& x.global == (body.global == Some(true))
                &&& json::string_opt(x.branch) == json::string_opt(body.branch)
            },
            Err(e) => install_error(json::string_opt(body.url), body.global, is_admin) == Some(e@),
        },
{
    let url = match secrets::non_empty(&body.url) {
        Some(u) => u,
        None => {
            return Err(Reply::text(400, "Bad Request: URL is required in the request body."));
        },
    };
    let global = match body.global {
        Some(b) => b,
        None => false,
    };
    if global && !is_admin {
        return Err(
            Reply::text(403, "Forbidden: No permission to install global extensions."),
        );
    }
    let branch = match &body.branch {
        Some(b) => Some(b.clone()),
        None => None,
    };
    Ok(
        Installation {
            url: url.to_owned(),
            name: sanitize::sanitize_filename_strip(&find_repo_name(url)),
            global,
            branch,
        },
    )
}

/// The answer that an extension is installed already.
pub fn install_conflict(path: &str) -> (r: Reply)
    ensures
        r@ == web::text_reply(409, "Directory already exists at "@ + path@),
{
    Reply::text(409, &text::join2("Directory already exists at ", path))
}

/// The answer that something went wrong.
pub fn server_error(message: &str) -> (r: Reply)
    ensures
        r@ == web::text_reply(500, "Server Error: "@ + message@),
{
    Reply::text(500, &text::join2("Server Error: ", message))
}

/// What the manifest of an extension came to.
#[derive(Debug)]
pub enum ManifestRead {
    Missing,
    Unreadable(String),
    Malformed(String),
    Found(Json),
}

/// What is said of a manifest that is of no use; nothing of one that was found.
pub open spec fn manifest_fault(path: Seq<char>, read: ManifestRead) -> Option<Seq<char>> {
    match read {
        ManifestRead::Missing => Some("Manifest file not found at "@ + path),
        ManifestRead::Unreadable(e) => Some("Failed to read manifest: "@ + e@),
        ManifestRead::Malformed(e) => Some("Failed to parse manifest: "@ + e@),
        ManifestRead::Found(_) => None,
    }
}

/// The manifest of an extension, which is looked for at the path, or the answer where there is
/// none that can be used.
pub fn get_manifest(path: &str, read: ManifestRead) -> (r: Result<Json, Reply>)
    ensures
        match manifest_fault(path@, read) {
            Some(m) => r matches Err(e) && e@ == web::text_reply(500, "Server Error: "@ + m),
            None => r matches Ok(j) && read == ManifestRead::Found(j),
        },
{
    match read {
        ManifestRead::Missing => Err(
            server_error(&text::join2("Manifest file not found at ", path)),
        ),
        ManifestRead::Unreadable(e) => Err(
            server_error(&text::join2("Failed to read manifest: ", &e)),
        ),
        ManifestRead::Malformed(e) => Err(
            server_error(&text::join2("Failed to parse manifest: ", &e)),
        ),
        ManifestRead::Found(j) => Ok(j),
    }
}

/// What is told of an extension that was installed.
pub open spec fn installed_tree(manifest: json::Tree, path: Seq<char>) -> json::Tree {
    json::Tree::Object(
        json::members()
            .push(("version"@, json::tree_or(manifest.get("version"@), json::Tree::Null)))
            .push(("author"@, json::tree_or(manifest.get("author"@), json::Tree::Null)))
            .push(("display_name"@, json::tree_or(manifest.get("display_name"@), json::Tree::Null)))
            .push(("extensionPath"@, json::txt(path))),
    )
}

/// The answer once an extension was installed, by its manifest.
pub fn install_reply(manifest: &Json, path: &str) -> (r: Reply)
    ensures
        r@ == web::json_reply(200, installed_tree(manifest@, path@)),
{
    Reply::json(
        200,
        Fields::new()
            .with("version", manifest.get_or("version", Json::Null))
            .with("author", manifest.get_or("author", Json::Null))
            .with("display_name", manifest.get_or("display_name", Json::Null))
            .with("extensionPath", Json::text(path))
            .done(),
    )
}

/// What is done with an extension that is named.
#[derive(Clone, Copy, Debug, PartialEq, Eq, Structural)]
pub enum ExtensionAction {
    Update,
    ListBranches,
    Version,
    Delete,
}

/// An extension: its name, and whether it is one of all users.
#[derive(Debug)]
pub struct ExtensionTarget {
    pub name: String,
    pub global: bool,
}

/// The refusal of an action on an extension of all users.
pub open spec fn refusal(action: ExtensionAction) -> Seq<char> {
    match action {
        ExtensionAction::Update => "Forbidden: No permission to update global extensions."@,
        ExtensionAction::ListBranches =>
            "Forbidden: No permission to list branches of global extensions."@,
        ExtensionAction::Version => Seq::empty(),
        ExtensionAction::Delete => "Forbidden: No permission to delete global extensions."@,
    }
}

/// Why an action on an extension is refused: it has to be named, and to change one of all
/// users is for administrators.
pub open spec fn target_error(
    name: Option<Seq<char>>,
    global: Option<bool>,
    is_admin: bool,
    action: ExtensionAction,
) -> Option<web::ReplyView> {
    if secrets::filled(name) is None {
        Some(
            web::text_reply(
                400,
                "Bad Request: extensionName is required in the request body."@,
            ),
        )
    } else if global == Some(true) && !is_admin && action != ExtensionAction::Version {
        Some(web::text_reply(403, refusal(action)))
    } else {
        None
    }
}

/// The extension that an action is on, or the refusal.
pub fn extension_target(body: &ExtensionNameRequest, is_admin: bool, action: ExtensionAction) -> (r:
    Result<ExtensionTarget, Reply>)
    ensures
        ({
            let error = target_error(
                json::string_opt(body.extension_name),
                body.global,
                is_admin,
                action,
            );
            match r {
                Ok(t) => error is None && t.name@ == sanitize::sanitized(
                    body.extension_name->Some_0@,
                    ""@,
                ) && t.global == (body.global == Some(true)),
                Err(e) => error == Some(e@),
            }
        }),
{
    let name = match secrets::non_empty(&body.extension_name) {
        Some(n) => n,
        None => {
            return Err(
                Reply::text(400, "Bad Request: extensionName is required in the request body."),
            );
        },
    };
    let global = match body.global {
        Some(b) => b,
        None => false,
    };
    if global && !is_admin {
        match action {
            ExtensionAction::Update => {
                return Err(
                    Reply::text(403, "Forbidden: No permission to update global extensions."),
                );
            },
            ExtensionAction::ListBranches => {
                return Err(
                    Reply::text(
                        403,
                        "Forbidden: No permission to list branches of global extensions.",
                    ),
                );
            },
            ExtensionAction::Version => {},
            ExtensionAction::Delete => {
                return Err(
                    Reply::text(403, "Forbidden: No permission to delete global extensions."),
                );
            },
        }
    }
    Ok(ExtensionTarget { name: sanitize::sanitize_filename_strip(name), global })
}

/// The answer that there is no extension at a path.
pub fn not_installed(path: &str) -> (r: Reply)
    ensures
        r@ == web::text_reply(404, "Directory does not exist at "@ + path@),
{
    Reply::text(404, &text::join2("Directory does not exist at ", path))
}

/// Whether Git said yes; `answer` is nothing where it failed.
pub fn said_true(answer: Option<&str>) -> (r: bool)
    ensures
        r == match answer {
            Some(s) => text::trimmed(s@) == "true"@,
            None => false,
        },
{
    match answer {
        Some(s) => text::same(&text::trim(s), "true"),
        None => false,
    }
}

/// The answer that an extension is no repository.
pub fn not_a_repository(path: &str) -> (r: Reply)
    ensures
        r@ == web::text_reply(500, "Directory is not a Git repository at "@ + path@),
{
    Reply::text(500, &text::join2("Directory is not a Git repository at ", path))
}

/// The answer that something went wrong that only the log tells of.
pub fn internal_error() -> (r: Reply)
    ensures
        r@ == web::text_reply(
            500,
            "Internal Server Error. Check the server logs for more details."@,
        ),
{
    Reply::text(500, "Internal Server Error. Check the server logs for more details.")
}

/// The bytes that a character takes in UTF-8.
pub open spec fn width(c: char) -> nat {
    let n = c as u32;
    if n < 0x80 {
        1
    } else if n < 0x800 {
        2
    } else if n < 0x10000 {
        3
    } else {
        4
    }
}

/// The bytes that characters take in UTF-8.
pub open spec fn byte_length(s: Seq<char>) -> nat
    decreases s.len(),
{
    if s.len() == 0 {
        0
    } else {
        byte_length(s.drop_last()) + width(s.last())
    }
}

/// The first position from the `i`th on before which there are seven bytes or more; the end
/// where there is none.
pub open spec fn seven_bytes(s: Seq<char>, i: int) -> int
    decreases s.len() - i,
{
    if i >= s.len() || byte_length(s.take(i)) >= 7 {
        i
    } else {
        seven_bytes(s, i + 1)
    }
}

/// The first seven bytes of the hash of a commit, or all where there are fewer.
pub open spec fn short_hash(hash: Seq<char>) -> Seq<char> {
    hash.take(seven_bytes(hash, 0))
}

fn shorten_hash(hash: &str) -> (r: String)
    ensures
        r@ == short_hash(hash@),
{
    let a = text::chars_of(hash);
    let mut i: usize = 0;
    let mut total: usize = 0;
    assert(a@.take(0) =~= Seq::empty());
    while i < a.len() && total < 7
        invariant
            i <= a@.len(),
            total == byte_length(a@.take(i as int)),
            total <= 10,
            seven_bytes(a@, 0) == seven_bytes(a@, i as int),
        decreases a@.len() - i,
    {
        assert(a@.take(i as int + 1).drop_last() =~= a@.take(i as int));
        let n: u32 = a[i] as u32;
        total += if n < 0x80 {
            1
        } else if n < 0x800 {
            2
        } else if n < 0x10000 {
            3
        } else {
            4
        };
        i += 1;
    }
    assert(a@.subrange(0, i as int) =~= a@.take(i as int));
    text::slice_text(&a, 0, i)
}

/// What is told of an extension that was updated.
pub open spec fn updated_tree(path: Seq<char>, state: RepoState, hash: Seq<char>) -> json::Tree {
    json::Tree::Object(
        json::members()
            .push(("shortCommitHash"@, json::txt(short_hash(hash))))
            .push(("extensionPath"@, json::txt(path)))
            .push(("isUpToDate"@, json::Tree::Bool(state.is_up_to_date)))
            .push(("remoteUrl"@, json::txt(state.remote_url@))),
    )
}

/// The answer once an extension was updated. The hash is that of the commit that it is at now;
/// no character of it may lie across its seventh byte.
pub fn update_extension(path: &str, state: &RepoState, hash: &str) -> (r: Reply)
    requires
        byte_length(short_hash(hash@)) <= 7,
    ensures
        r@ == web::json_reply(200, updated_tree(path@, *state, hash@)),
{
    Reply::json(
        200,
        Fields::new()
            .with("shortCommitHash", Json::Text(shorten_hash(hash)))
            .with("extensionPath", Json::text(path))
            .with("isUpToDate", Json::Bool(state.is_up_to_date))
            .with("remoteUrl", Json::text(&state.remote_url))
            .done(),
    )
}

/// What is told of the branches that lines list, each with its commit. `current` is the branch
/// that is checked out; none of those of the remote is.
pub open spec fn branches_in(lines: Seq<Seq<char>>, current: Option<Seq<char>>) -> Seq<json::Tree>
    decreases lines.len(),
{
    if lines.len() == 0 {
        Seq::empty()
    } else {
        let rest = branches_in(lines.drop_last(), current);
        let words = text::words_from(lines.last(), 0);
        if words.len() >= 2 {
            rest.push(
                json::Tree::Object(
                    json::members()
                        .push(("current"@, json::Tree::Bool(current == Some(words[0]))))
                        .push(("commit"@, json::txt(words[1])))
                        .push(("name"@, json::txt(words[0])))
                        .push(("label"@, json::txt(words[0] + " "@ + words[1]))),
                ),
            )
        } else {
            rest
        }
    }
}

fn push_branches(out: &mut Vec<Json>, listing: &str, current: Option<&str>)
    ensures
        json::trees(final(out)@) == json::trees(old(out)@) + branches_in(
            text::lines(listing@),
            json::text_opt(current),
        ),
{
    let lines = text::split_lines(listing);
    let ghost all = json::texts(lines@);
    let ghost start = json::trees(out@);
    let ghost now = json::text_opt(current);
    let mut i: usize = 0;
    assert(start =~= start + branches_in(all.take(0), now));
    while i < lines.len()
        invariant
            all == json::texts(lines@),
            now == json::text_opt(current),
            i <= lines@.len(),
            json::trees(out@) == start + branches_in(all.take(i as int), now),
        decreases lines@.len() - i,
    {
        assert(all.take(i as int + 1).drop_last() =~= all.take(i as int));
        assert(all.take(i as int + 1).last() == lines@[i as int]@);
        let words = text::split_whitespace(&lines[i]);
        assert(json::texts(words@).len() == words@.len());
        let ghost before = json::trees(out@);
        if words.len() >= 2 {
            assert(json::texts(words@)[0] == words@[0]@ && json::texts(words@)[1] == words@[1]@);
            let is_current = match current {
                Some(c) => text::same(c, &words[0]),
                None => false,
            };
            let j = Fields::new()
                .with("current", Json::Bool(is_current))
                .with("commit", Json::text(&words[1]))
                .with("name", Json::text(&words[0]))
                .with("label", Json::Text(text::join3(&words[0], " ", &words[1])))
                .done();
            out.push(j);
            assert(json::trees(out@) =~= before.push(j@));
            assert(before.push(j@) =~= start + branches_in(all.take(i as int), now).push(j@));
        }
        i += 1;
    }
    assert(all.take(all.len() as int) =~= all);
}

/// The branches of a repository: those at hand, and behind them those of the remote.
pub open spec fn all_branches(local: Seq<char>, remote: Seq<char>, current: Seq<char>) -> Seq<
    json::Tree,
> {
    branches_in(text::lines(local), Some(current)) + branches_in(text::lines(remote), None)
}

/// The branches of an extension: its own, and those of its remote.
pub fn list_branches(local: &str, remote: &str, current: &str) -> (r: Vec<Json>)
    ensures
        json::trees(r@) == all_branches(local@, remote@, current@),
{
    let mut out: Vec<Json> = Vec::new();
    push_branches(&mut out, local, Some(current));
    push_branches(&mut out, remote, None);
    assert(json::trees(out@) =~= branches_in(text::lines(local@), Some(current@)) + branches_in(
        text::lines(remote@),
        None,
    ));
    out
}

/// The extension and the branch that it is to be switched to, or the refusal.
#[derive(Debug)]
pub struct Switch {
    pub name: String,
    pub global: bool,
    pub branch: String,
}

/// Why an extension is not switched to another branch.
pub open spec fn switch_error(body: SwitchRequest, is_admin: bool) -> Option<web::ReplyView> {
    if secrets::filled(json::string_opt(body.extension_name)) is None || secrets::filled(
        json::string_opt(body.branch),
    ) is None {
        Some(
            web::text_reply(
                400,
                "Bad Request: extensionName and branch are required in the request body."@,
            ),
        )
    } else if body.global == Some(true) && !is_admin {
        Some(
            web::text_reply(
                403,
                "Forbidden: No permission to switch branches of global extensions."@,
            ),
        )
    } else {
        None
    }
}

/// The extension and the branch that it is to be switched to, or the refusal.
pub fn switch_branch(body: &SwitchRequest, is_admin: bool) -> (r: Result<Switch, Reply>)
    ensures
        match r {
            Ok(s) => switch_error(*body, is_admin) is None && s.name@ == sanitize::sanitized(
                body.extension_name->Some_0@,
                ""@,
            ) && s.global == (body.global == Some(true)) && s.branch@ == body.branch->Some_0@,
            Err(e) => switch_error(*body, is_admin) == Some(e@),
        },
{
    let missing = "Bad Request: extensionName and branch are required in the request body.";
    let name = match secrets::non_empty(&body.extension_name) {
        Some(n) => n,
        None => return Err(Reply::text(400, missing)),
    };
    let branch = match secrets::non_empty(&body.branch) {
        Some(b) => b,
        None => return Err(Reply::text(400, missing)),
    };
    let global = match body.global {
        Some(b) => b,
        None => false,
    };
    if global && !is_admin {
        return Err(
            Reply::text(
                403,
                "Forbidden: No permission to switch branches of global extensions.",
            ),
        );
    }
    Ok(
        Switch {
            name: sanitize::sanitize_filename_strip(name),
            global,
            branch: branch.to_owned(),
        },
    )
}

/// Whether a branch is among those that lines list.
pub open spec fn branch_listed(listing: Seq<char>, branch: Seq<char>) -> bool {
    exists|i: int|
        0 <= i < text::lines(listing).len() && text::trimmed(#[trigger] text::lines(listing)[i])
            == branch
}

fn is_listed(listing: &str, branch: &str) -> (r: bool)
    ensures
        r == branch_listed(listing@, branch@),
{
    let lines = text::split_lines(listing);
    let ghost all = text::lines(listing@);
    let mut i: usize = 0;
    while i < lines.len()
        invariant
            all == json::texts(lines@),
            all == text::lines(listing@),
            i <= lines@.len(),
            forall|j: int| 0 <= j < i ==> text::trimmed(#[trigger] all[j]) != branch@,
        decreases lines@.len() - i,
    {
        assert(all[i as int] == lines@[i as int]@);
        if text::same(&text::trim(&lines[i]), branch) {
            assert(text::trimmed(all[i as int]) == branch@);
            return true;
        }
        i += 1;
    }
    assert(all.len() == lines@.len());
    false
}

/// What Git is to do to switch to a branch.
#[derive(Debug)]
pub enum SwitchStep {
    /// To check out by these arguments.
    CheckOut(Vec<String>),
    /// Nothing: the branch is checked out.
    Stay,
    /// There is no such branch.
    Missing,
}

/// What a [`SwitchStep`] is.
pub enum StepView {
    CheckOut(Seq<Seq<char>>),
    Stay,
    Missing,
}

impl SwitchStep {
    pub open spec fn view(&self) -> StepView {
        match self {
            SwitchStep::CheckOut(v) => StepView::CheckOut(json::texts(v@)),
            SwitchStep::Stay => StepView::Stay,
            SwitchStep::Missing => StepView::Missing,
        }
    }
}

/// What Git is to do to switch to a branch: one of the remote is checked out under its own
/// name, which is made where it is not there yet.
pub open spec fn step_to(branch: Seq<char>, local: Seq<char>, current: Seq<char>) -> StepView {
    match text::after_prefix(branch, "origin/"@) {
        Some(name) => StepView::CheckOut(
            if branch_listed(local, name) {
                Seq::empty().push("checkout"@).push(name)
            } else {
                Seq::empty().push("checkout"@).push("-b"@).push(name).push(branch)
            },
        ),
        None => if !branch_listed(local, branch) {
            StepView::Missing
        } else if current == branch {
            StepView::Stay
        } else {
            StepView::CheckOut(Seq::empty().push("checkout"@).push(branch))
        },
    }
}

/// What Git is to do to switch to a branch, given the list of the branches that are there and
/// the one that is checked out.
pub fn switch_step(branch: &str, local: &str, current: &str) -> (r: SwitchStep)
    ensures
        r@ == step_to(branch@, local@, current@),
{
    let mut v: Vec<String> = Vec::new();
    assert(json::texts(v@) =~= Seq::empty());
    push_text(&mut v, "checkout");
    match text::strip_prefix(branch, "origin/") {
        Some(name) => {
            if is_listed(local, &name) {
                push_text(&mut v, &name);
            } else {
                push_text(&mut v, "-b");
                push_text(&mut v, &name);
                push_text(&mut v, branch);
            }
            SwitchStep::CheckOut(v)
        },
        None => if !is_listed(local, branch) {
            SwitchStep::Missing
        } else if text::same(current, branch) {
            SwitchStep::Stay
        } else {
            push_text(&mut v, branch);
            SwitchStep::CheckOut(v)
        },
    }
}

/// The answer that there is no branch.
pub fn branch_missing(branch: &str) -> (r: Reply)
    ensures
        r@ == web::text_reply(404, "Branch "@ + branch@ + " does not exist locally"@),
{
    Reply::text(404, &text::join3("Branch ", branch, " does not exist locally"))
}

/// The answer once an extension was to be switched to another branch.
pub fn switch_reply(done: bool) -> (r: Reply)
    ensures
        r@ == if done {
            web::status_only(204)
        } else {
            web::text_reply(
                500,
                "Internal Server Error. Check the server logs for more details."@,
            )
        },
{
    if done {
        Reply::empty(204)
    } else {
        internal_error()
    }
}

/// An extension that is to be moved: from where and to where, whether to the extensions of all
/// users, and whether both are named the same.
#[derive(Debug)]
pub struct Move {
    pub name: String,
    pub from_global: bool,
    pub to_global: bool,
    pub same: bool,
}

/// Why an extension is not moved.
pub open spec fn move_error(body: MoveRequest, is_admin: bool) -> Option<web::ReplyView> {
    if secrets::filled(json::string_opt(body.extension_name)) is None || secrets::filled(
        json::string_opt(body.source),
    ) is None || secrets::filled(json::string_opt(body.destination)) is None {
        Some(
            web::text_reply(400, "Bad Request. Not all required parameters are provided."@),
        )
    } else if !is_admin {
        Some(web::text_reply(403, "Forbidden: No permission to move extensions."@))
    } else {
        None
    }
}

/// What is done with an extension once it was to be copied: whether the one that was copied is
/// removed, and the answer. It stays where the copy failed.
#[derive(Debug)]
pub struct MoveEnd {
    pub remove_source: bool,
    pub reply: Reply,
}

/// What is done with an extension once it was to be copied.
pub fn move_reply(copied: bool) -> (r: MoveEnd)
    ensures
        r.remove_source == copied,
        r.reply@ == if copied {
            web::status_only(204)
        } else {
            web::text_reply(
                500,
                "Internal Server Error. Check the server logs for more details."@,
            )
        },
{
    MoveEnd { remove_source: copied, reply: switch_reply(copied) }
}

/// Where an extension is to be moved, or the refusal.
pub fn move_extension(body: &MoveRequest, is_admin: bool) -> (r: Result<Move, Reply>)
    ensures
        match r {
            Ok(m) => {
                &&& move_error(*body, is_admin) is None
                &&& m.name@ == sanitize::sanitized(body.extension_name->Some_0@, ""@)
                &&& m.from_global == (body.source->Some_0@ == "global"@)
                &&& m.to_global == (body.destination->Some_0@ == "global"@)
                &&& m.same == (body.source->Some_0@ == body.destination->Some_0@)
            },
            Err(e) => move_error(*body, is_admin) == Some(e@),
        },
{
    let missing = "Bad Request. Not all required parameters are provided.";
    let name = match secrets::non_empty(&body.extension_name) {
        Some(n) => n,
        None => return Err(Reply::text(400, missing)),
    };
    let source = match secrets::non_empty(&body.source) {
        Some(s) => s,
        None => return Err(Reply::text(400, missing)),
    };
    let destination = match secrets::non_empty(&body.destination) {
        Some(d) => d,
        None => return Err(Reply::text(400, missing)),
    };
    if !is_admin {
        return Err(Reply::text(403, "Forbidden: No permission to move extensions."));
    }
    Ok(
        Move {
            name: sanitize::sanitize_filename_strip(name),
            from_global: text::same(source, "global"),
            to_global: text::same(destination, "global"),
            same: text::same(source, destination),
        },
    )
}

/// Why an extension cannot be moved: it has to be there, the place that it is moved to has to
/// be free, and the two have to differ.
pub fn move_obstacle(source_is_directory: bool, destination_exists: bool, same: bool) -> (r: Option<
    Reply,
>)
    ensures
        match r {
            Some(e) => if !source_is_directory {
                e@ == web::text_reply(404, "Source directory does not exist."@)
            } else if destination_exists {
                e@ == web::text_reply(409, "Destination directory already exists."@)
            } else {
                same && e@ == web::text_reply(
                    409,
                    "Source and destination directories are the same."@,
                )
            },
            None => source_is_directory && !destination_exists && !same,
        },
{
    if !source_is_directory {
        Some(Reply::text(404, "Source directory does not exist."))
    } else if destination_exists {
        Some(Reply::text(409, "Destination directory already exists."))
    } else if same {
        Some(Reply::text(409, "Source and destination directories are the same."))
    } else {
        None
    }
}

/// What is told of the version of an extension.
pub open spec fn version_tree(branch: Seq<char>, commit: Seq<char>, current: bool, url: Seq<char>) ->
    json::Tree {
    json::Tree::Object(
        json::members()
            .push(("currentBranchName"@, json::txt(branch)))
            .push(("currentCommitHash"@, json::txt(commit)))
            .push(("isUpToDate"@, json::Tree::Bool(current)))
            .push(("remoteUrl"@, json::txt(url))),
    )
}

/// The answer with the version of an extension; one without commits is up to date.
pub fn get_version(commit: Option<&str>, branch: &str, state: &RepoState) -> (r: Reply)
    ensures
        r@ == web::json_reply(
            200,
            match commit {
                Some(c) => version_tree(branch@, c@, state.is_up_to_date, state.remote_url@),
                None => version_tree(Seq::empty(), Seq::empty(), true, Seq::empty()),
            },
        ),
{
    let f = match commit {
        Some(c) => Fields::new()
            .with("currentBranchName", Json::text(branch))
            .with("currentCommitHash", Json::text(c))
            .with("isUpToDate", Json::Bool(state.is_up_to_date))
            .with("remoteUrl", Json::text(&state.remote_url)),
        None => Fields::new()
            .with("currentBranchName", Json::Text(String::new()))
            .with("currentCommitHash", Json::Text(String::new()))
            .with("isUpToDate", Json::Bool(true))
            .with("remoteUrl", Json::Text(String::new())),
    };
    Reply::json(200, f.done())
}

/// The answer once an extension was to be deleted; `error` says why it is not.
pub fn delete_extension(path: &str, error: Option<&str>) -> (r: Reply)
    ensures
        r@ == match error {
            Some(e) => web::text_reply(500, "Server Error: "@ + e@),
            None => web::text_reply(200, "Extension has been deleted at "@ + path@),
        },
{
    match error {
        Some(e) => server_error(e),
        None => Reply::text(200, &text::join2("Extension has been deleted at ", path)),
    }
}

/// What is told of an extension of a kind.
pub open spec fn extension_tree(kind: Seq<char>, name: Seq<char>) -> json::Tree {
    json::Tree::Object(
        json::members().push(("type"@, json::txt(kind))).push(("name"@, json::txt(name))),
    )
}

/// The extensions that come with the program.
pub open spec fn built_in(folders: Seq<Seq<char>>) -> Seq<json::Tree>
    decreases folders.len(),
{
    if folders.len() == 0 {
        Seq::empty()
    } else {
        let rest = built_in(folders.drop_last());
        if folders.last() == "third-party"@ {
            rest
        } else {
            rest.push(extension_tree("system"@, folders.last()))
        }
    }
}

/// The extensions of a kind that others made, but for those that are known.
pub open spec fn third_party(
    kind: Seq<char>,
    folders: Seq<Seq<char>>,
    known: Seq<Seq<char>>,
) -> Seq<json::Tree>
    decreases folders.len(),
{
    if folders.len() == 0 {
        Seq::empty()
    } else {
        let rest = third_party(kind, folders.drop_last(), known);
        if known.contains(folders.last()) {
            rest
        } else {
            rest.push(extension_tree(kind, "third-party/"@ + folders.last()))
        }
    }
}

fn push_extension(out: &mut Vec<Json>, kind: &str, name: String)
    ensures
        json::trees(final(out)@) == json::trees(old(out)@).push(extension_tree(kind@, name@)),
{
    let ghost before = json::trees(out@);
    let j = Fields::new().with("type", Json::text(kind)).with("name", Json::Text(name)).done();
    out.push(j);
    assert(json::trees(out@) =~= before.push(j@));
}

fn push_third_party(out: &mut Vec<Json>, kind: &str, folders: &Vec<String>, known: &Vec<String>)
    ensures
        json::trees(final(out)@) == json::trees(old(out)@) + third_party(
            kind@,
            json::texts(folders@),
            json::texts(known@),
        ),
{
    let ghost all = json::texts(folders@);
    let ghost k = json::texts(known@);
    let ghost start = json::trees(out@);
    let mut i: usize = 0;
    assert(start =~= start + third_party(kind@, all.take(0), k));
    while i < folders.len()
        invariant
            all == json::texts(folders@),
            k == json::texts(known@),
            i <= folders@.len(),
            json::trees(out@) == start + third_party(kind@, all.take(i as int), k),
        decreases folders@.len() - i,
    {
        assert(all.take(i as int + 1).drop_last() =~= all.take(i as int));
        assert(all.take(i as int + 1).last() == folders@[i as int]@);
        if !naming::is_taken(&folders[i], known) {
            push_extension(out, kind, text::join2("third-party/", &folders[i]));
            assert(json::trees(out@) =~= start + third_party(kind@, all.take(i as int + 1), k));
        }
        i += 1;
    }
    assert(all.take(all.len() as int) =~= all);
}

/// The extensions in the folders: the built-in ones, those of the user, and those of everyone that
/// the user has not.
pub open spec fn discovered(
    system: Seq<Seq<char>>,
    user: Seq<Seq<char>>,
    global: Seq<Seq<char>>,
) -> Seq<json::Tree> {
    built_in(system) + third_party("local"@, user, Seq::empty()) + third_party(
        "global"@,
        global,
        user,
    )
}

/// The extensions that there are, given the directories of those that come with the program, of
/// those of the user and of those of all users: one of all users that the user has too is left
/// out.
pub fn discover_extensions(system: &Vec<String>, user: &Vec<String>, global: &Vec<String>) -> (r: Vec<
    Json,
>)
    ensures
        json::trees(r@) == discovered(
            json::texts(system@),
            json::texts(user@),
            json::texts(global@),
        ),
{
    let mut out: Vec<Json> = Vec::new();
    let ghost all = json::texts(system@);
    let mut i: usize = 0;
    assert(json::trees(out@) =~= built_in(all.take(0)));
    while i < system.len()
        invariant
            all == json::texts(system@),
            i <= system@.len(),
            json::trees(out@) == built_in(all.take(i as int)),
        decreases system@.len() - i,
    {
        assert(all.take(i as int + 1).drop_last() =~= all.take(i as int));
        assert(all.take(i as int + 1).last() == system@[i as int]@);
        if !text::same(&system[i], "third-party") {
            push_extension(&mut out, "system", system[i].clone());
        }
        i += 1;
    }
    assert(all.take(all.len() as int) =~= all);
    let none: Vec<String> = Vec::new();
    assert(json::texts(none@) =~= Seq::empty());
    push_third_party(&mut out, "local", user, &none);
    push_third_party(&mut out, "global", global, user);
    out
}

/// An extension of all users is told of only where the user does not have it too.
pub proof fn user_extensions_come_first(
    folders: Seq<Seq<char>>,
    known: Seq<Seq<char>>,
    name: Seq<char>,
)
    requires
        known.contains(name),
    ensures
        !third_party("global"@, folders, known).contains(
            extension_tree("global"@, "third-party/"@ + name),
        ),
    decreases folders.len(),
{
    if folders.len() > 0 {
        user_extensions_come_first(folders.drop_last(), known, name);
        let rest = third_party("global"@, folders.drop_last(), known);
        let all = third_party("global"@, folders, known);
        let t = extension_tree("global"@, "third-party/"@ + name);
        if all.contains(t) {
            let i = choose|i: int| 0 <= i < all.len() && all[i] == t;
            if i < rest.len() {
                assert(rest[i] == t);
            } else {
                let last = folders.last();
                let p = "third-party/"@;
                let a = json::members().push(("type"@, json::txt("global"@)));
                assert(a.push(("name"@, json::txt(p + last)))[1] == a.push(
                    ("name"@, json::txt(p + name)),
                )[1]);
                assert((p + last).skip(p.len() as int) =~= last);
                assert((p + name).skip(p.len() as int) =~= name);
            }
        }
    }
}

} // verus!
