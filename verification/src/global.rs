//! Which version of the program this is.

use crate::json;
use crate::json::{Fields, Json};
use crate::secrets;
use crate::text;
use crate::web;
use crate::web::Reply;
use vstd::prelude::*;

verus! {

/// The header that names the program that answers.
pub const BACKEND_HEADER: &'static str = "x-st-backend";

/// What is known of the version.
#[derive(Debug)]
pub struct VersionInfo {
    pub agent: String,
    pub pkg_version: String,
    pub git_revision: Option<String>,
    pub git_branch: Option<String>,
    pub commit_date: Option<String>,
    pub is_latest: bool,
}

/// What a `git` command printed: its text without the white space around it, where it
/// succeeded and printed any.
pub open spec fn printed(succeeded: bool, stdout: Seq<char>) -> Option<Seq<char>> {
    if succeeded {
        secrets::filled(Some(text::trimmed(stdout)))
    } else {
        None
    }
}

/// What a `git` command printed.
pub fn git_output(succeeded: bool, stdout: &str) -> (r: Option<String>)
    ensures
        json::string_opt(r) == printed(succeeded, stdout@),
{
    if !succeeded {
        return None;
    }
    let s = text::trim(stdout);
    if s.as_str().is_empty() {
        None
    } else {
        Some(s)
    }
}

/// What was found out about the version: the overrides, which come first, and what the
/// package and `git` say.
#[derive(Debug)]
pub struct VersionSources {
    pub version_override: Option<String>,
    pub package_version: Option<String>,
    pub revision_override: Option<String>,
    pub revision: Option<String>,
    pub branch_override: Option<String>,
    pub branch: Option<String>,
    pub commit_date: Option<String>,
    pub local_latest: Option<String>,
    pub remote_latest: Option<String>,
}

/// The first of two texts that there is.
pub open spec fn either(a: Option<Seq<char>>, b: Option<Seq<char>>) -> Option<Seq<char>> {
    if a is Some {
        a
    } else {
        b
    }
}

fn first_of(a: &Option<String>, b: &Option<String>) -> (r: Option<String>)
    ensures
        json::string_opt(r) == either(json::string_opt(*a), json::string_opt(*b)),
{
    match a {
        Some(s) => Some(s.clone()),
        None => match b {
            Some(s) => Some(s.clone()),
            None => None,
        },
    }
}

/// The version: the override, or that of the package, or `UNKNOWN`.
pub open spec fn version_text(s: VersionSources) -> Seq<char> {
    secrets::text_or(
        either(json::string_opt(s.version_override), json::string_opt(s.package_version)),
        "UNKNOWN"@,
    )
}

/// The revision: the override, or what `git` says.
pub open spec fn revision_of(s: VersionSources) -> Option<Seq<char>> {
    either(json::string_opt(s.revision_override), json::string_opt(s.revision))
}

/// What is known of the version.
pub fn compute_version_info(s: &VersionSources) -> (r: VersionInfo)
    ensures
        r.pkg_version@ == version_text(*s),
        r.agent@ == "SillyTavern:"@ + version_text(*s) + ":Cohee#1207"@,
        json::string_opt(r.git_revision) == revision_of(*s),
        json::string_opt(r.git_branch) == either(
            json::string_opt(s.branch_override),
            json::string_opt(s.branch),
        ),
        json::string_opt(r.commit_date) == (match (
            revision_of(*s),
            json::string_opt(s.commit_date),
        ) {
            (Some(_), Some(d)) => Some(text::trimmed(d)),
            _ => None,
        }),
        r.is_latest == (match (
            json::string_opt(s.local_latest),
            json::string_opt(s.remote_latest),
        ) {
            (Some(a), Some(b)) => a == b,
            _ => true,
        }),
{
    let version = first_of(&s.version_override, &s.package_version);
    let pkg_version = secrets::unwrap_or(&version, "UNKNOWN");
    let git_revision = first_of(&s.revision_override, &s.revision);
    let commit_date = match (&git_revision, &s.commit_date) {
        (Some(_), Some(d)) => Some(text::trim(d)),
        _ => None,
    };
    let is_latest = match (&s.local_latest, &s.remote_latest) {
        (Some(a), Some(b)) => text::same(a, b),
        _ => true,
    };
    VersionInfo {
        agent: text::join3("SillyTavern:", &pkg_version, ":Cohee#1207"),
        pkg_version,
        git_revision,
        git_branch: first_of(&s.branch_override, &s.branch),
        commit_date,
        is_latest,
    }
}

/// The version that a package says it has.
pub fn read_pkg_version(package: Option<&Json>) -> (r: Option<String>)
    ensures
        json::string_opt(r) == match package {
            Some(p) => p@.text_at("version"@),
            None => None,
        },
{
    match package {
        Some(p) => match p.str_at("version") {
            Some(v) => Some(v.to_owned()),
            None => None,
        },
        None => None,
    }
}

/// A text, or `null` where there is none.
pub open spec fn nullable(o: Option<Seq<char>>) -> json::Tree {
    match o {
        Some(s) => json::txt(s),
        None => json::Tree::Null,
    }
}

fn text_or_null(o: &Option<String>) -> (r: Json)
    ensures
        r@ == nullable(json::string_opt(*o)),
{
    match o {
        Some(s) => Json::text(s),
        None => Json::Null,
    }
}

/// An answer, with the name of the program that gives it where that is wanted.
pub open spec fn labelled(r: web::ReplyView, wanted: bool) -> web::ReplyView {
    if wanted {
        web::ReplyView { headers: r.headers.push((BACKEND_HEADER@, "rust"@)), ..r }
    } else {
        r
    }
}

fn label(reply: Reply, wanted: bool) -> (r: Reply)
    ensures
        r@ == labelled(reply@, wanted),
{
    if wanted {
        reply.header(BACKEND_HEADER, "rust")
    } else {
        reply
    }
}

/// What the client is told of the version.
pub open spec fn version_tree(info: VersionInfo) -> json::Tree {
    json::Tree::Object(
        json::members()
            .push(("agent"@, json::txt(info.agent@)))
            .push(("pkgVersion"@, json::txt(info.pkg_version@)))
            .push(("gitRevision"@, nullable(json::string_opt(info.git_revision))))
            .push(("gitBranch"@, nullable(json::string_opt(info.git_branch))))
            .push(("commitDate"@, nullable(json::string_opt(info.commit_date))))
            .push(("isLatest"@, json::Tree::Bool(info.is_latest))),
    )
}

/// The answer with what is known of the version.
pub fn version_handler(info: &VersionInfo, backend_header: bool) -> (r: Reply)
    ensures
        r@ == labelled(
            (web::ReplyView {
                headers: Seq::empty().push(("content-type"@, "application/json; charset=utf-8"@)),
                ..web::json_reply(200, version_tree(*info))
            }),
            backend_header,
        ),
{
    let body = Fields::new()
        .with("agent", Json::text(&info.agent))
        .with("pkgVersion", Json::text(&info.pkg_version))
        .with("gitRevision", text_or_null(&info.git_revision))
        .with("gitBranch", text_or_null(&info.git_branch))
        .with("commitDate", text_or_null(&info.commit_date))
        .with("isLatest", Json::Bool(info.is_latest));
    let done = Reply::json(200, body.done())
        .header("content-type", "application/json; charset=utf-8");
    label(done, backend_header)
}

/// The answer to a client that asks whether anybody is there.
pub fn ping_handler(backend_header: bool) -> (r: Reply)
    ensures
        r@ == labelled(web::status_only(204), backend_header),
{
    label(Reply::empty(204), backend_header)
}

} // verus!
