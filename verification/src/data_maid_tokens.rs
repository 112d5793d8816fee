//! The tokens by which users look at and delete the files that nothing refers to.

use crate::data_maid;
use crate::data_maid::{RawReport, TokenRequest, ViewQuery};
use crate::json;
use crate::outside;
use crate::paths;
use crate::secrets;
use crate::text;
use crate::web;
use crate::web::Reply;
use vstd::prelude::*;

verus! {

/// A path and its mark.
#[derive(Debug)]
pub struct PathEntry {
    pub path: String,
    pub hash: String,
}

/// A token, the user that it was given to, and the files that may be deleted by it.
#[derive(Debug)]
pub struct TokenEntry {
    pub token: String,
    pub handle: String,
    pub paths: Vec<PathEntry>,
}

/// What a [`TokenEntry`] is: the marks and paths of its files in their order.
pub struct EntryView {
    pub token: Seq<char>,
    pub handle: Seq<char>,
    pub paths: Seq<(Seq<char>, Seq<char>)>,
}

/// The paths and marks of files.
pub open spec fn paths_view(v: Seq<PathEntry>) -> Seq<(Seq<char>, Seq<char>)> {
    Seq::new(v.len(), |i: int| (v[i].path@, v[i].hash@))
}

impl TokenEntry {
    pub open spec fn view(&self) -> EntryView {
        EntryView { token: self.token@, handle: self.handle@, paths: paths_view(self.paths@) }
    }
}

/// The tokens that were given out.
#[derive(Debug)]
pub struct TokenStore {
    entries: Vec<TokenEntry>,
}

/// The entries other than those of a user.
pub open spec fn without_user(s: Seq<EntryView>, handle: Seq<char>) -> Seq<EntryView>
    decreases s.len(),
{
    if s.len() == 0 {
        Seq::empty()
    } else {
        let rest = without_user(s.drop_last(), handle);
        if s.last().handle == handle {
            rest
        } else {
            rest.push(s.last())
        }
    }
}

/// The position of the first entry from the `i`th on with a token; the number of entries where
/// there is none.
pub open spec fn token_from(s: Seq<EntryView>, token: Seq<char>, i: int) -> int
    decreases s.len() - i,
{
    if i < 0 || i >= s.len() {
        s.len() as int
    } else if s[i].token == token {
        i
    } else {
        token_from(s, token, i + 1)
    }
}

/// The entry with a token.
pub open spec fn entry_of(s: Seq<EntryView>, token: Seq<char>) -> Option<EntryView> {
    let p = token_from(s, token, 0);
    if 0 <= p < s.len() {
        Some(s[p])
    } else {
        None
    }
}

/// The path of the first file from the `i`th on with a mark.
pub open spec fn path_from(v: Seq<(Seq<char>, Seq<char>)>, hash: Seq<char>, i: int) -> Option<
    Seq<char>,
>
    decreases v.len() - i,
{
    if i < 0 || i >= v.len() {
        None
    } else if v[i].1 == hash {
        Some(v[i].0)
    } else {
        path_from(v, hash, i + 1)
    }
}

/// Files with their marks.
pub open spec fn marked(v: Seq<Seq<char>>) -> Seq<(Seq<char>, Seq<char>)> {
    Seq::new(v.len(), |i: int| (v[i], data_maid::mark(v[i])))
}

/// The store once a user was given a token for files: tokens that the user had before are
/// gone.
pub open spec fn issued(
    s: Seq<EntryView>,
    handle: Seq<char>,
    files: Seq<Seq<char>>,
    token: Seq<char>,
) -> Seq<EntryView> {
    let rest = without_user(s, handle);
    let p = token_from(rest, token, 0);
    let entry = EntryView { token, handle, paths: marked(files) };
    if 0 <= p < rest.len() {
        rest.update(p, entry)
    } else {
        rest.push(entry)
    }
}

/// Whether a text is a token: sixty-four small hexadecimal digits.
pub open spec fn is_token(s: Seq<char>) -> bool {
    s.len() == 64 && forall|i: int| 0 <= i < s.len() ==> text::is_small_hex(#[trigger] s[i])
}

/// The token that two draws of sixteen bytes make.
pub fn token_text(first: Vec<u8>, second: Vec<u8>) -> (r: String)
    requires
        first@.len() == 16,
        second@.len() == 16,
    ensures
        r@ == text::hexed(first@ + second@),
        is_token(r@),
{
    let mut bytes = first;
    let mut more = second;
    bytes.append(&mut more);
    text::hex_text(&bytes)
}

/// The files that may be deleted of those with the marks.
pub open spec fn paths_named(v: Seq<(Seq<char>, Seq<char>)>, hashes: Seq<Seq<char>>) -> Seq<
    Seq<char>,
>
    decreases hashes.len(),
{
    if hashes.len() == 0 {
        Seq::empty()
    } else {
        let rest = paths_named(v, hashes.drop_last());
        match path_from(v, hashes.last(), 0) {
            Some(p) => rest.push(p),
            None => rest,
        }
    }
}

fn find_path(v: &Vec<PathEntry>, hash: &str) -> (r: Option<String>)
    ensures
        json::string_opt(r) == path_from(paths_view(v@), hash@, 0),
{
    let ghost all = paths_view(v@);
    let mut i: usize = 0;
    while i < v.len()
        invariant
            all == paths_view(v@),
            i <= v@.len(),
            path_from(all, hash@, 0) == path_from(all, hash@, i as int),
        decreases v@.len() - i,
    {
        assert(all[i as int] == (v@[i as int].path@, v@[i as int].hash@));
        if text::same(&v[i].hash, hash) {
            return Some(v[i].path.clone());
        }
        i += 1;
    }
    None
}

fn push_marked(out: &mut Vec<PathEntry>, files: &Vec<String>)
    ensures
        paths_view(final(out)@) == paths_view(old(out)@) + marked(json::texts(files@)),
{
    let ghost start = paths_view(out@);
    let ghost all = marked(json::texts(files@));
    let mut i: usize = 0;
    assert(start =~= start + all.take(0));
    while i < files.len()
        invariant
            all == marked(json::texts(files@)),
            i <= files@.len(),
            paths_view(out@) == start + all.take(i as int),
        decreases files@.len() - i,
    {
        let ghost before = paths_view(out@);
        let e = PathEntry { hash: data_maid::sha256_hex(&files[i]), path: files[i].clone() };
        out.push(e);
        assert(all[i as int] == (e.path@, e.hash@));
        assert(paths_view(out@) =~= before.push((e.path@, e.hash@)));
        assert(start + all.take(i as int + 1) =~= (start + all.take(i as int)).push(all[i as int]));
        i += 1;
    }
    assert(all.take(all.len() as int) =~= all);
}

fn mark_report(report: &RawReport) -> (r: Vec<PathEntry>)
    ensures
        paths_view(r@) == marked(report.all()),
{
    let mut out: Vec<PathEntry> = Vec::new();
    push_marked(&mut out, &report.images);
    push_marked(&mut out, &report.files);
    push_marked(&mut out, &report.chats);
    push_marked(&mut out, &report.group_chats);
    push_marked(&mut out, &report.avatar_thumbnails);
    push_marked(&mut out, &report.background_thumbnails);
    push_marked(&mut out, &report.persona_thumbnails);
    push_marked(&mut out, &report.chat_backups);
    push_marked(&mut out, &report.settings_backups);
    assert(paths_view(out@) =~= marked(report.all()));
    out
}

/// The entry that a user may use by a token.
pub open spec fn usable(s: Seq<EntryView>, token: Seq<char>, handle: Seq<char>) -> Option<EntryView> {
    match entry_of(s, token) {
        Some(e) => if e.handle == handle {
            Some(e)
        } else {
            None
        },
        None => None,
    }
}

/// What a request to look at a file comes to: its path, or the refusal.
pub open spec fn view_of(
    s: Seq<EntryView>,
    query: ViewQuery,
    handle: Seq<char>,
) -> Result<Seq<char>, web::ReplyView> {
    match (query.token, query.hash) {
        (Some(token), Some(hash)) => match usable(s, token@, handle) {
            Some(e) => match path_from(e.paths, hash@, 0) {
                Some(p) => Ok(p),
                None => Err(web::status_only(404)),
            },
            None => Err(web::status_only(403)),
        },
        _ => Err(web::status_only(400)),
    }
}

/// What a request to delete files comes to: their paths, or the refusal.
pub open spec fn deletion_of(
    s: Seq<EntryView>,
    body: TokenRequest,
    handle: Seq<char>,
) -> Result<Seq<Seq<char>>, web::ReplyView> {
    match (body.token, body.hashes) {
        (Some(token), Some(hashes)) => if hashes@.len() == 0 {
            Err(web::status_only(400))
        } else {
            match usable(s, token@, handle) {
                Some(e) => Ok(paths_named(e.paths, json::texts(hashes@))),
                None => Err(web::status_only(403)),
            }
        },
        _ => Err(web::status_only(400)),
    }
}

impl TokenStore {
    pub closed spec fn view(&self) -> Seq<EntryView> {
        Seq::new(self.entries@.len(), |i: int| self.entries@[i]@)
    }

    /// No tokens.
    pub fn new() -> (r: TokenStore)
        ensures
            r@ == Seq::<EntryView>::empty(),
    {
        let r = TokenStore { entries: Vec::new() };
        assert(r@ =~= Seq::empty());
        r
    }

    fn find(&self, token: &str) -> (r: usize)
        ensures
            r == token_from(self@, token@, 0),
            r <= self@.len(),
            self@.len() == self.entries@.len(),
            r < self@.len() ==> self@[r as int] == self.entries@[r as int]@,
    {
        let mut i: usize = 0;
        while i < self.entries.len()
            invariant
                i <= self.entries@.len(),
                self@.len() == self.entries@.len(),
                token_from(self@, token@, 0) == token_from(self@, token@, i as int),
            decreases self.entries@.len() - i,
        {
            assert(self@[i as int] == self.entries@[i as int]@);
            if text::same(&self.entries[i].token, token) {
                return i;
            }
            i += 1;
        }
        i
    }

    /// Gives a user a new token for the files of a report; tokens that the user had before are
    /// gone.
    pub fn generate_token(self, handle: &str, report: &RawReport) -> (r: (TokenStore, String))
        ensures
            is_token(r.1@),
            (r.0)@ == issued(self@, handle@, report.all(), r.1@),
    {
        let token = token_text(outside::random_uuid(), outside::random_uuid());
        (self.issue(handle, report, &token), token)
    }

    /// Gives a user this token for the files of a report; tokens that the user had before are
    /// gone.
    pub fn issue(self, handle: &str, report: &RawReport, token: &str) -> (r: TokenStore)
        ensures
            r@ == issued(self@, handle@, report.all(), token@),
    {
        let ghost all = self@;
        let n: usize = self.entries.len();
        let old = self.entries;
        let mut kept = TokenStore { entries: Vec::new() };
        assert(kept@ =~= without_user(all.take(0), handle@));
        let mut i: usize = 0;
        while i < old.len()
            invariant
                old@.len() == n,
                i <= n,
                all.len() == n,
                forall|j: int| 0 <= j < n ==> all[j] == (#[trigger] old@[j])@,
                kept@ == without_user(all.take(i as int), handle@),
            decreases n - i,
        {
            assert(all.take(i as int + 1).drop_last() =~= all.take(i as int));
            assert(all[i as int] == old@[i as int]@);
            let ghost before = kept@;
            if !text::same(&old[i].handle, handle) {
                let e = copy_entry(&old[i]);
                kept.entries.push(e);
                assert(kept@ =~= before.push(e@));
            }
            i += 1;
        }
        assert(all.take(n as int) =~= all);
        let entry = TokenEntry {
            token: token.to_owned(),
            handle: handle.to_owned(),
            paths: mark_report(report),
        };
        let p = kept.find(token);
        let ghost rest = kept@;
        if p < kept.entries.len() {
            kept.entries.set(p, entry);
            assert(kept@ =~= rest.update(p as int, entry@));
        } else {
            kept.entries.push(entry);
            assert(kept@ =~= rest.push(entry@));
        }
        kept
    }

    /// Makes a token of a user invalid.
    pub fn finalize_token(&mut self, body: &TokenRequest, handle: &str) -> (r: Reply)
        ensures
            match body.token {
                Some(token) => if usable(old(self)@, token@, handle@) is Some {
                    r@ == web::status_only(204) && final(self)@ == old(self)@.remove(
                        token_from(old(self)@, token@, 0),
                    )
                } else {
                    r@ == web::status_only(403) && final(self)@ == old(self)@
                },
                None => r@ == web::status_only(400) && final(self)@ == old(self)@,
            },
    {
        let token = match &body.token {
            Some(t) => t,
            None => return Reply::empty(400),
        };
        let p = self.find(token);
        if p >= self.entries.len() {
            return Reply::empty(403);
        }
        if !text::same(&self.entries[p].handle, handle) {
            return Reply::empty(403);
        }
        let ghost before = self@;
        let _gone = self.entries.remove(p);
        assert(self@ =~= before.remove(p as int));
        Reply::empty(204)
    }

    /// The path of the file that a user wants to look at by a token, or the refusal.
    pub fn view_file(&self, query: &ViewQuery, handle: &str) -> (r: Result<String, Reply>)
        ensures
            match r {
                Ok(p) => view_of(self@, *query, handle@) == Ok::<_, web::ReplyView>(p@),
                Err(e) => view_of(self@, *query, handle@) == Err::<Seq<char>, _>(e@),
            },
    {
        let (token, hash) = match (&query.token, &query.hash) {
            (Some(t), Some(h)) => (t, h),
            _ => return Err(Reply::empty(400)),
        };
        let p = self.find(token);
        if p >= self.entries.len() {
            return Err(Reply::empty(403));
        }
        if !text::same(&self.entries[p].handle, handle) {
            return Err(Reply::empty(403));
        }
        match find_path(&self.entries[p].paths, hash) {
            Some(path) => Ok(path),
            None => Err(Reply::empty(404)),
        }
    }

    /// The paths of the files that a user wants to delete by a token, or the refusal; marks of
    /// no file are passed over.
    pub fn delete_files(&self, body: &TokenRequest, handle: &str) -> (r: Result<Vec<String>, Reply>)
        ensures
            match r {
                Ok(v) => deletion_of(self@, *body, handle@) == Ok::<_, web::ReplyView>(
                    json::texts(v@),
                ),
                Err(e) => deletion_of(self@, *body, handle@) == Err::<Seq<Seq<char>>, _>(e@),
            },
    {
        let token = match &body.token {
            Some(t) => t,
            None => return Err(Reply::empty(400)),
        };
        let hashes = match &body.hashes {
            Some(h) => h,
            None => return Err(Reply::empty(400)),
        };
        if hashes.len() == 0 {
            return Err(Reply::empty(400));
        }
        let p = self.find(token);
        if p >= self.entries.len() {
            return Err(Reply::empty(403));
        }
        if !text::same(&self.entries[p].handle, handle) {
            return Err(Reply::empty(403));
        }
        Ok(find_paths(&self.entries[p].paths, hashes))
    }
}

fn copy_entry(e: &TokenEntry) -> (r: TokenEntry)
    ensures
        r@ == e@,
{
    let mut out: Vec<PathEntry> = Vec::new();
    let mut i: usize = 0;
    while i < e.paths.len()
        invariant
            i <= e.paths@.len(),
            out@.len() == i,
            forall|j: int|
                0 <= j < i ==> (#[trigger] out@[j]).path@ == e.paths@[j].path@ && out@[j].hash@
                    == e.paths@[j].hash@,
        decreases e.paths@.len() - i,
    {
        out.push(PathEntry { path: e.paths[i].path.clone(), hash: e.paths[i].hash.clone() });
        i += 1;
    }
    assert(paths_view(out@) =~= paths_view(e.paths@));
    TokenEntry { token: e.token.clone(), handle: e.handle.clone(), paths: out }
}

fn find_paths(v: &Vec<PathEntry>, hashes: &Vec<String>) -> (r: Vec<String>)
    ensures
        json::texts(r@) == paths_named(paths_view(v@), json::texts(hashes@)),
{
    let ghost all = json::texts(hashes@);
    let mut out: Vec<String> = Vec::new();
    let mut i: usize = 0;
    assert(json::texts(out@) =~= paths_named(paths_view(v@), all.take(0)));
    while i < hashes.len()
        invariant
            all == json::texts(hashes@),
            i <= hashes@.len(),
            json::texts(out@) == paths_named(paths_view(v@), all.take(i as int)),
        decreases hashes@.len() - i,
    {
        assert(all.take(i as int + 1).drop_last() =~= all.take(i as int));
        assert(all.take(i as int + 1).last() == hashes@[i as int]@);
        let ghost before = out@;
        match find_path(v, &hashes[i]) {
            Some(p) => {
                out.push(p);
                assert(json::texts(out@) =~= json::texts(before).push(p@));
            },
            None => {},
        }
        i += 1;
    }
    assert(all.take(all.len() as int) =~= all);
    out
}

/// A path, and what it is with links followed.
#[derive(Debug)]
pub struct ResolvedPath {
    pub path: String,
    pub resolved: String,
}

/// The paths that lie under the root with links followed.
pub open spec fn within(root: Seq<char>, v: Seq<ResolvedPath>) -> Seq<Seq<char>>
    decreases v.len(),
{
    if v.len() == 0 {
        Seq::empty()
    } else {
        let rest = within(root, v.drop_last());
        if paths::lies_under(v.last().resolved@, root) {
            rest.push(v.last().path@)
        } else {
            rest
        }
    }
}

/// The paths that lie under the root with links followed: no others are deleted.
pub fn keep_within(root: &str, v: &Vec<ResolvedPath>) -> (r: Vec<String>)
    ensures
        json::texts(r@) == within(root@, v@),
{
    let mut out: Vec<String> = Vec::new();
    let mut i: usize = 0;
    assert(json::texts(out@) =~= within(root@, v@.take(0)));
    while i < v.len()
        invariant
            i <= v@.len(),
            json::texts(out@) == within(root@, v@.take(i as int)),
        decreases v@.len() - i,
    {
        assert(v@.take(i as int + 1).drop_last() =~= v@.take(i as int));
        let ghost before = out@;
        if data_maid::is_path_under_parent(root, &v[i].resolved) {
            out.push(v[i].path.clone());
            assert(json::texts(out@) =~= json::texts(before).push(v@[i as int].path@));
        }
        i += 1;
    }
    assert(v@.take(v@.len() as int) =~= v@);
    out
}

/// The answer with a file that a user looks at: it has to lie under the root of the user, to be
/// there, and to be readable. `data` is nothing where it could not be read.
pub fn view_reply(path: &str, within_root: bool, found: bool, data: Option<Vec<u8>>) -> (r: Reply)
    ensures
        r@ == if !within_root {
            web::status_only(403)
        } else if !found {
            web::status_only(404)
        } else {
            match data {
                Some(b) => web::ReplyView {
                    status: 200,
                    headers: Seq::empty(),
                    payload: web::PayloadView::Bytes(
                        secrets::text_or(outside::known_media_type(path@), "text/plain"@),
                        b@,
                    ),
                },
                None => web::status_only(500),
            }
        },
{
    if !within_root {
        return Reply::empty(403);
    }
    if !found {
        return Reply::empty(404);
    }
    match data {
        Some(b) => {
            let media = secrets::unwrap_or(&outside::guess_known_media_type(path), "text/plain");
            Reply::bytes(200, &media, b)
        },
        None => Reply::empty(500),
    }
}

/// The answer once files were deleted.
pub fn deletion_reply() -> (r: Reply)
    ensures
        r@ == web::status_only(204),
{
    Reply::empty(204)
}

/// Whether no user has two tokens, and no token is there twice.
pub open spec fn one_each(s: Seq<EntryView>) -> bool {
    forall|i: int, j: int|
        0 <= i < j < s.len() ==> (#[trigger] s[i]).handle != (#[trigger] s[j]).handle && s[i].token
            != s[j].token
}

proof fn token_from_is_first(s: Seq<EntryView>, token: Seq<char>, i: int)
    requires
        0 <= i <= s.len(),
    ensures
        i <= token_from(s, token, i) <= s.len(),
        token_from(s, token, i) < s.len() ==> s[token_from(s, token, i)].token == token,
        forall|j: int| i <= j < token_from(s, token, i) ==> (#[trigger] s[j]).token != token,
    decreases s.len() - i,
{
    if i < s.len() && s[i].token != token {
        token_from_is_first(s, token, i + 1);
    }
}

proof fn without_user_keeps(s: Seq<EntryView>, handle: Seq<char>)
    ensures
        one_each(s) ==> one_each(without_user(s, handle)),
        forall|i: int|
            0 <= i < without_user(s, handle).len() ==> (#[trigger] without_user(s, handle)[i]).handle
                != handle && s.contains(without_user(s, handle)[i]),
    decreases s.len(),
{
    if s.len() > 0 {
        let d = s.drop_last();
        without_user_keeps(d, handle);
        let rest = without_user(d, handle);
        let all = without_user(s, handle);
        assert forall|i: int| 0 <= i < all.len() implies (#[trigger] all[i]).handle != handle
            && s.contains(all[i]) by {
            if i < rest.len() {
                assert(all[i] == rest[i]);
                let k = choose|k: int| 0 <= k < d.len() && d[k] == rest[i];
                assert(s[k] == all[i]);
            } else {
                assert(s[s.len() - 1] == all[i]);
            }
        }
        if one_each(s) {
            assert forall|i: int, j: int| 0 <= i < j < d.len() implies (#[trigger] d[i]).handle != (
            #[trigger] d[j]).handle && d[i].token != d[j].token by {
                assert(d[i] == s[i] && d[j] == s[j]);
            }
            assert forall|i: int, j: int| 0 <= i < j < all.len() implies (#[trigger] all[i]).handle
                != (#[trigger] all[j]).handle && all[i].token != all[j].token by {
                if j < rest.len() {
                    assert(all[i] == rest[i] && all[j] == rest[j]);
                } else {
                    assert(all[j] == s.last());
                    assert(all[i] == rest[i]);
                    let k = choose|k: int| 0 <= k < d.len() && d[k] == rest[i];
                    assert(s[k] == rest[i]);
                    assert(s[s.len() - 1] == s.last());
                }
            }
        }
    }
}

/// A new token, which nobody has yet, takes the place of those of the user and leaves all others
/// as they were. Every user has one token at most afterwards, and the new one is the one that the
/// user may use, for the files of the report.
pub proof fn issuing_keeps_one_each(
    s: Seq<EntryView>,
    handle: Seq<char>,
    files: Seq<Seq<char>>,
    token: Seq<char>,
)
    requires
        one_each(s),
        entry_of(s, token) is None,
    ensures
        issued(s, handle, files, token) == without_user(s, handle).push(
            EntryView { token, handle, paths: marked(files) },
        ),
        one_each(issued(s, handle, files, token)),
        usable(issued(s, handle, files, token), token, handle) matches Some(e) && e.paths == marked(
            files,
        ),
{
    let rest = without_user(s, handle);
    without_user_keeps(s, handle);
    token_from_is_first(rest, token, 0);
    token_from_is_first(s, token, 0);
    let p = token_from(rest, token, 0);
    if p < rest.len() {
        assert(s.contains(rest[p]));
        let k = choose|k: int| 0 <= k < s.len() && s[k] == rest[p];
        assert(s[k].token == token);
    }
    let out = issued(s, handle, files, token);
    token_from_is_first(out, token, 0);
    assert(out[rest.len() as int].token == token);
    assert forall|i: int, j: int| 0 <= i < j < out.len() implies (#[trigger] out[i]).handle != (
    #[trigger] out[j]).handle && out[i].token != out[j].token by {
        if j == rest.len() {
            assert(out[i] == rest[i]);
        } else {
            assert(out[i] == rest[i] && out[j] == rest[j]);
        }
    }
    let q = token_from(out, token, 0);
    if q < rest.len() {
        assert(out[q] == rest[q]);
    }
}

/// Once a token is made invalid nobody may use it.
pub proof fn finalized_token_is_gone(s: Seq<EntryView>, token: Seq<char>, handle: Seq<char>)
    requires
        one_each(s),
        entry_of(s, token) is Some,
    ensures
        entry_of(s.remove(token_from(s, token, 0)), token) is None,
        one_each(s.remove(token_from(s, token, 0))),
        usable(s.remove(token_from(s, token, 0)), token, handle) is None,
{
    token_from_is_first(s, token, 0);
    let p = token_from(s, token, 0);
    let t = s.remove(p);
    token_from_is_first(t, token, 0);
    let q = token_from(t, token, 0);
    if q < t.len() {
        let k = if q < p {
            q
        } else {
            q + 1
        };
        assert(t[q] == s[k]);
        if k < p {
            assert(s[k].token != s[p].token);
        } else {
            assert(s[p].token != s[k].token);
        }
    }
    assert forall|i: int, j: int| 0 <= i < j < t.len() implies (#[trigger] t[i]).handle != (
    #[trigger] t[j]).handle && t[i].token != t[j].token by {
        let a = if i < p {
            i
        } else {
            i + 1
        };
        let b = if j < p {
            j
        } else {
            j + 1
        };
        assert(t[i] == s[a] && t[j] == s[b]);
    }
}

/// Nobody may look at or delete files by the token of another user.
pub proof fn token_is_personal(
    s: Seq<EntryView>,
    query: ViewQuery,
    body: TokenRequest,
    owner: Seq<char>,
    other: Seq<char>,
)
    requires
        owner != other,
        query.token is Some,
        query.hash is Some,
        body.token is Some,
        body.hashes matches Some(h) && h@.len() > 0,
        usable(s, query.token->Some_0@, owner) is Some,
        usable(s, body.token->Some_0@, owner) is Some,
    ensures
        view_of(s, query, other) == Err::<Seq<char>, _>(web::status_only(403)),
        deletion_of(s, body, other) == Err::<Seq<Seq<char>>, _>(web::status_only(403)),
{
}

/// Every path that is deleted by a token is one that it was given out for.
pub proof fn deleted_paths_are_listed(
    v: Seq<(Seq<char>, Seq<char>)>,
    hashes: Seq<Seq<char>>,
    p: Seq<char>,
)
    requires
        paths_named(v, hashes).contains(p),
    ensures
        exists|i: int| 0 <= i < v.len() && (#[trigger] v[i]).0 == p && hashes.contains(v[i].1),
    decreases hashes.len(),
{
    let d = hashes.drop_last();
    let rest = paths_named(v, d);
    if hashes.len() > 0 {
        if rest.contains(p) {
            deleted_paths_are_listed(v, d, p);
            let i = choose|i: int| 0 <= i < v.len() && (#[trigger] v[i]).0 == p && d.contains(v[i].1);
            let k = choose|k: int| 0 <= k < d.len() && d[k] == v[i].1;
            assert(hashes[k] == v[i].1);
        } else {
            let h = hashes.last();
            path_is_listed(v, h, 0);
            let all = paths_named(v, hashes);
            let w = choose|w: int| 0 <= w < all.len() && all[w] == p;
            if w < rest.len() {
                assert(rest[w] == p);
            }
            assert(path_from(v, h, 0) == Some(p));
            assert(hashes[hashes.len() - 1] == h);
        }
    }
}

proof fn path_is_listed(v: Seq<(Seq<char>, Seq<char>)>, hash: Seq<char>, i: int)
    requires
        0 <= i,
    ensures
        path_from(v, hash, i) matches Some(p) ==> exists|k: int|
            i <= k < v.len() && (#[trigger] v[k]).0 == p && v[k].1 == hash,
    decreases v.len() - i,
{
    if i < v.len() && v[i].1 != hash {
        path_is_listed(v, hash, i + 1);
    } else if i < v.len() {
        assert(v[i].1 == hash);
    }
}

} // verus!
