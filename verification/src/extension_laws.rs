//! What holds of extensions: which ones are found, how their repositories are cloned and followed,
//! and what the client is told of them.

use crate::extensions;
use crate::json;
use crate::json::Tree;
use crate::text;
use crate::text_laws;
use vstd::prelude::*;

verus! {

/// Whether an extension of a kind and a name is among those told.
pub open spec fn told(v: Seq<Tree>, kind: Seq<char>, name: Seq<char>) -> bool {
    exists|i: int|
        0 <= i < v.len() && (#[trigger] v[i]).text_at("type"@) == Some(kind) && v[i].text_at(
            "name"@,
        ) == Some(name)
}

proof fn extension_reads(kind: Seq<char>, name: Seq<char>)
    ensures
        extensions::extension_tree(kind, name).text_at("type"@) == Some(kind),
        extensions::extension_tree(kind, name).text_at("name"@) == Some(name),
{
    reveal_strlit("name");
    reveal_strlit("type");
    assert("name"@.len() == 4 && "name"@[0] == 'n');
    assert("type"@.len() == 4 && "type"@[0] == 't');
    reveal_with_fuel(json::position, 3);
}

proof fn built_in_are_told(folders: Seq<Seq<char>>, i: int)
    requires
        0 <= i < folders.len(),
        folders[i] != "third-party"@,
    ensures
        told(extensions::built_in(folders), "system"@, folders[i]),
    decreases folders.len(),
{
    let all = extensions::built_in(folders);
    let rest = extensions::built_in(folders.drop_last());
    extension_reads("system"@, folders.last());
    if i == folders.len() - 1 {
        assert(all.last().text_at("name"@) == Some(folders[i]));
    } else {
        built_in_are_told(folders.drop_last(), i);
        let k = choose|k: int|
            0 <= k < rest.len() && (#[trigger] rest[k]).text_at("type"@) == Some("system"@)
                && rest[k].text_at("name"@) == Some(folders[i]);
        assert(all[k] == rest[k]);
    }
}

proof fn third_party_are_told(
    kind: Seq<char>,
    folders: Seq<Seq<char>>,
    known: Seq<Seq<char>>,
    i: int,
)
    requires
        0 <= i < folders.len(),
        !known.contains(folders[i]),
    ensures
        told(extensions::third_party(kind, folders, known), kind, "third-party/"@ + folders[i]),
    decreases folders.len(),
{
    let all = extensions::third_party(kind, folders, known);
    let rest = extensions::third_party(kind, folders.drop_last(), known);
    let name = "third-party/"@ + folders[i];
    extension_reads(kind, "third-party/"@ + folders.last());
    if i == folders.len() - 1 {
        assert(all.last().text_at("name"@) == Some(name));
    } else {
        third_party_are_told(kind, folders.drop_last(), known, i);
        let k = choose|k: int|
            0 <= k < rest.len() && (#[trigger] rest[k]).text_at("type"@) == Some(kind)
                && rest[k].text_at("name"@) == Some(name);
        assert(all[k] == rest[k]);
    }
}

/// Every built-in extension is told as one of the system, every one of the user as a local one, and
/// every one of everyone that the user has not as a global one.
pub proof fn extensions_are_found(
    system: Seq<Seq<char>>,
    user: Seq<Seq<char>>,
    global: Seq<Seq<char>>,
    i: int,
)
    ensures
        0 <= i < system.len() && system[i] != "third-party"@ ==> told(
            extensions::discovered(system, user, global),
            "system"@,
            system[i],
        ),
        0 <= i < user.len() ==> told(
            extensions::discovered(system, user, global),
            "local"@,
            "third-party/"@ + user[i],
        ),
        0 <= i < global.len() && !user.contains(global[i]) ==> told(
            extensions::discovered(system, user, global),
            "global"@,
            "third-party/"@ + global[i],
        ),
{
    let a = extensions::built_in(system);
    let b = extensions::third_party("local"@, user, Seq::empty());
    let c = extensions::third_party("global"@, global, user);
    let all = extensions::discovered(system, user, global);
    if 0 <= i < system.len() && system[i] != "third-party"@ {
        built_in_are_told(system, i);
        let k = choose|k: int|
            0 <= k < a.len() && (#[trigger] a[k]).text_at("type"@) == Some("system"@)
                && a[k].text_at("name"@) == Some(system[i]);
        assert(all[k] == a[k]);
    }
    if 0 <= i < user.len() {
        third_party_are_told("local"@, user, Seq::empty(), i);
        let k = choose|k: int|
            0 <= k < b.len() && (#[trigger] b[k]).text_at("type"@) == Some("local"@)
                && b[k].text_at("name"@) == Some("third-party/"@ + user[i]);
        assert(all[a.len() + k] == b[k]);
    }
    if 0 <= i < global.len() && !user.contains(global[i]) {
        third_party_are_told("global"@, global, user, i);
        let k = choose|k: int|
            0 <= k < c.len() && (#[trigger] c[k]).text_at("type"@) == Some("global"@)
                && c[k].text_at("name"@) == Some("third-party/"@ + global[i]);
        assert(all[a.len() + b.len() + k] == c[k]);
    }
}

proof fn built_in_are_folders(folders: Seq<Seq<char>>, k: int)
    requires
        0 <= k < extensions::built_in(folders).len(),
    ensures
        exists|i: int|
            0 <= i < folders.len() && #[trigger] folders[i] != "third-party"@
                && extensions::built_in(folders)[k] == extensions::extension_tree(
                "system"@,
                folders[i],
            ),
    decreases folders.len(),
{
    let rest = extensions::built_in(folders.drop_last());
    if k < rest.len() {
        built_in_are_folders(folders.drop_last(), k);
        let i = choose|i: int|
            0 <= i < folders.drop_last().len() && #[trigger] folders.drop_last()[i]
                != "third-party"@ && rest[k] == extensions::extension_tree(
                "system"@,
                folders.drop_last()[i],
            );
        assert(folders[i] != "third-party"@);
    } else {
        assert(folders[folders.len() - 1] == folders.last());
    }
}

proof fn third_party_are_folders(
    kind: Seq<char>,
    folders: Seq<Seq<char>>,
    known: Seq<Seq<char>>,
    k: int,
)
    requires
        0 <= k < extensions::third_party(kind, folders, known).len(),
    ensures
        exists|i: int|
            0 <= i < folders.len() && !known.contains(#[trigger] folders[i])
                && extensions::third_party(kind, folders, known)[k] == extensions::extension_tree(
                kind,
                "third-party/"@ + folders[i],
            ),
    decreases folders.len(),
{
    let rest = extensions::third_party(kind, folders.drop_last(), known);
    if k < rest.len() {
        third_party_are_folders(kind, folders.drop_last(), known, k);
        let i = choose|i: int|
            0 <= i < folders.drop_last().len() && !known.contains(
                #[trigger] folders.drop_last()[i],
            ) && rest[k] == extensions::extension_tree(
                kind,
                "third-party/"@ + folders.drop_last()[i],
            );
        assert(!known.contains(folders[i]));
    } else {
        assert(folders[folders.len() - 1] == folders.last());
    }
}

/// Whether an extension that is told stands in a folder of its kind.
pub open spec fn stands(
    e: Tree,
    system: Seq<Seq<char>>,
    user: Seq<Seq<char>>,
    global: Seq<Seq<char>>,
) -> bool {
    ||| exists|i: int|
        0 <= i < system.len() && #[trigger] system[i] != "third-party"@ && e.text_at("type"@)
            == Some("system"@) && e.text_at("name"@) == Some(system[i])
    ||| exists|i: int|
        0 <= i < user.len() && e.text_at("type"@) == Some("local"@) && e.text_at("name"@) == Some(
            "third-party/"@ + #[trigger] user[i],
        )
    ||| exists|i: int|
        0 <= i < global.len() && !user.contains(#[trigger] global[i]) && e.text_at("type"@) == Some(
            "global"@,
        ) && e.text_at("name"@) == Some("third-party/"@ + global[i])
}

/// Nothing else is told: each extension that is told stands in a folder of its kind.
pub proof fn only_folders_are_found(
    system: Seq<Seq<char>>,
    user: Seq<Seq<char>>,
    global: Seq<Seq<char>>,
    k: int,
)
    requires
        0 <= k < extensions::discovered(system, user, global).len(),
    ensures
        stands(extensions::discovered(system, user, global)[k], system, user, global),
{
    let a = extensions::built_in(system);
    let b = extensions::third_party("local"@, user, Seq::empty());
    let c = extensions::third_party("global"@, global, user);
    let all = extensions::discovered(system, user, global);
    if k < a.len() {
        built_in_are_folders(system, k);
        let i = choose|i: int|
            0 <= i < system.len() && #[trigger] system[i] != "third-party"@ && a[k]
                == extensions::extension_tree("system"@, system[i]);
        extension_reads("system"@, system[i]);
        assert(all[k] == a[k]);
    } else if k < a.len() + b.len() {
        let known = Seq::<Seq<char>>::empty();
        third_party_are_folders("local"@, user, known, k - a.len());
        let i = choose|i: int|
            0 <= i < user.len() && !known.contains(#[trigger] user[i]) && b[k - a.len()]
                == extensions::extension_tree("local"@, "third-party/"@ + user[i]);
        extension_reads("local"@, "third-party/"@ + user[i]);
        assert(all[k] == b[k - a.len()]);
    } else {
        let n = k - a.len() - b.len();
        third_party_are_folders("global"@, global, user, n);
        let i = choose|i: int|
            0 <= i < global.len() && !user.contains(#[trigger] global[i]) && c[n]
                == extensions::extension_tree("global"@, "third-party/"@ + global[i]);
        extension_reads("global"@, "third-party/"@ + global[i]);
        assert(all[k] == c[n]);
    }
}

/// Whether a branch is told with its commit.
pub open spec fn branch_told(
    v: Seq<Tree>,
    name: Seq<char>,
    commit: Seq<char>,
    current: bool,
) -> bool {
    exists|i: int|
        0 <= i < v.len() && (#[trigger] v[i]).text_at("name"@) == Some(name) && v[i].text_at(
            "commit"@,
        ) == Some(commit) && v[i].text_at("label"@) == Some(name + " "@ + commit) && v[i].flag_at(
            "current"@,
        ) == Some(current)
}

proof fn branch_in_lines(lines: Seq<Seq<char>>, current: Option<Seq<char>>, i: int)
    requires
        0 <= i < lines.len(),
        text::words_from(lines[i], 0).len() >= 2,
    ensures
        branch_told(
            extensions::branches_in(lines, current),
            text::words_from(lines[i], 0)[0],
            text::words_from(lines[i], 0)[1],
            current == Some(text::words_from(lines[i], 0)[0]),
        ),
    decreases lines.len(),
{
    let all = extensions::branches_in(lines, current);
    let rest = extensions::branches_in(lines.drop_last(), current);
    let name = text::words_from(lines[i], 0)[0];
    let commit = text::words_from(lines[i], 0)[1];
    if i == lines.len() - 1 {
        reveal_strlit("commit");
        reveal_strlit("current");
        reveal_strlit("label");
        reveal_strlit("name");
        assert("commit"@.len() == 6);
        assert("current"@.len() == 7);
        assert("label"@.len() == 5);
        assert("name"@.len() == 4);
        reveal_with_fuel(json::position, 5);
        assert(all.last().text_at("name"@) == Some(name));
        assert(all.last().text_at("commit"@) == Some(commit));
    } else {
        branch_in_lines(lines.drop_last(), current, i);
        let k = choose|k: int|
            0 <= k < rest.len() && (#[trigger] rest[k]).text_at("name"@) == Some(name)
                && rest[k].text_at("commit"@) == Some(commit) && rest[k].text_at("label"@) == Some(
                name + " "@ + commit,
            ) && rest[k].flag_at("current"@) == Some(current == Some(name));
        assert(all[k] == rest[k]);
    }
}

/// A branch at hand is told with its name and its commit, and whether it is checked out; a branch
/// of the remote is told too and is never the one that is checked out.
pub proof fn branches_are_told(local: Seq<char>, remote: Seq<char>, current: Seq<char>, i: int)
    ensures
        0 <= i < text::lines(local).len() ==> {
            let words = text::words_from(text::lines(local)[i], 0);
            words.len() >= 2 ==> branch_told(
                extensions::all_branches(local, remote, current),
                words[0],
                words[1],
                words[0] == current,
            )
        },
        0 <= i < text::lines(remote).len() ==> {
            let words = text::words_from(text::lines(remote)[i], 0);
            words.len() >= 2 ==> branch_told(
                extensions::all_branches(local, remote, current),
                words[0],
                words[1],
                false,
            )
        },
{
    let a = extensions::branches_in(text::lines(local), Some(current));
    let b = extensions::branches_in(text::lines(remote), None);
    let all = extensions::all_branches(local, remote, current);
    if 0 <= i < text::lines(local).len() {
        let words = text::words_from(text::lines(local)[i], 0);
        if words.len() >= 2 {
            branch_in_lines(text::lines(local), Some(current), i);
            let k = choose|k: int|
                0 <= k < a.len() && (#[trigger] a[k]).text_at("name"@) == Some(words[0])
                    && a[k].text_at("commit"@) == Some(words[1]) && a[k].text_at("label"@) == Some(
                    words[0] + " "@ + words[1],
                ) && a[k].flag_at("current"@) == Some(Some(current) == Some(words[0]));
            assert(all[k] == a[k]);
        }
    }
    if 0 <= i < text::lines(remote).len() {
        let words = text::words_from(text::lines(remote)[i], 0);
        if words.len() >= 2 {
            let none: Option<Seq<char>> = None;
            branch_in_lines(text::lines(remote), none, i);
            let k = choose|k: int|
                0 <= k < b.len() && (#[trigger] b[k]).text_at("name"@) == Some(words[0])
                    && b[k].text_at("commit"@) == Some(words[1]) && b[k].text_at("label"@) == Some(
                    words[0] + " "@ + words[1],
                ) && b[k].flag_at("current"@) == Some(none == Some(words[0]));
            assert(all[a.len() + k] == b[k]);
        }
    }
}

proof fn address_of_first(lines: Seq<Seq<char>>, k: int, i: int)
    requires
        0 <= i <= k < lines.len(),
        text::occurs(lines[k], "(fetch)"@),
        forall|j: int| i <= j < k ==> !text::occurs(#[trigger] lines[j], "(fetch)"@),
        text::words_from(lines[k], 0).len() > 1,
    ensures
        extensions::fetch_address(lines, i) == text::words_from(lines[k], 0)[1],
    decreases k - i,
{
    if i < k {
        address_of_first(lines, k, i + 1);
    }
}

/// The remote of a repository is the second word of the first line that it is fetched by, and the
/// repository is current where nothing is counted behind it.
pub proof fn repository_is_followed(remotes: Seq<char>, count: Seq<char>, n: u64, k: int)
    requires
        0 <= k < text::lines(remotes).len(),
        text::occurs(text::lines(remotes)[k], "(fetch)"@),
        forall|j: int|
            0 <= j < k ==> !text::occurs(#[trigger] text::lines(remotes)[j], "(fetch)"@),
        text::words_from(text::lines(remotes)[k], 0).len() > 1,
        remotes.len() > 0,
        crate::numbers::u64_value(text::trimmed(count)) == Some(n),
    ensures
        extensions::repo_state(remotes, count) == (
            n == 0,
            text::words_from(text::lines(remotes)[k], 0)[1],
        ),
{
    address_of_first(text::lines(remotes), k, 0);
}

/// An extension is named after its repository, whether the address ends in the suffix of
/// repositories, in slashes, or in neither.
pub proof fn extension_is_named_after_repository(a: Seq<char>, name: Seq<char>, n: nat)
    requires
        name.len() > 0,
        !name.contains('/'),
        !text::ends(name, ".git"@),
    ensures
        extensions::repo_name(a + seq!['/'] + name + Seq::new(n, |i: int| '/')) == name,
        extensions::repo_name(a + seq!['/'] + (name + ".git"@) + Seq::new(n, |i: int| '/')) == name,
{
    reveal_strlit(".git");
    let slashes = Seq::new(n, |i: int| '/');
    let s = a + seq!['/'] + name;
    assert(s.last() == name.last());
    assert(name.contains(name.last()));
    text_laws::trailing_is_dropped(s, '/', n);
    text_laws::last_piece_is_cut(a, '/', name);
    let long = name + ".git"@;
    let t = a + seq!['/'] + long;
    assert(t.last() == 't');
    text_laws::trailing_is_dropped(t, '/', n);
    assert forall|i: int| 0 <= i < long.len() implies long[i] != '/' by {
        if i < name.len() {
            assert(name.contains(name[i]));
        }
    }
    text_laws::last_piece_is_cut(a, '/', long);
    assert(long.subrange(name.len() as int, (name.len() + 4) as int) =~= ".git"@);
    assert(text::ends(long, ".git"@));
    assert(long.take(long.len() - 4) =~= name);
    reveal_with_fuel(text::drop_suffixes, 2);
}

/// A repository is cloned from its address into its folder, and only its branch where one is named.
pub proof fn clone_is_asked_for(url: Seq<char>, dest: Seq<char>, branch: Seq<char>)
    ensures
        extensions::clone_arguments(url, dest, None) == seq!["clone"@, "--depth"@, "1"@, url, dest],
        extensions::clone_arguments(url, dest, Some(branch)) == seq![
            "clone"@,
            "--depth"@,
            "1"@,
            "--branch"@,
            branch,
            url,
            dest,
        ],
{
}

proof fn ascii_length(s: Seq<char>)
    requires
        forall|i: int| 0 <= i < s.len() ==> (#[trigger] s[i]) as u32 <= 0x7f,
    ensures
        extensions::byte_length(s) == s.len(),
    decreases s.len(),
{
    if s.len() > 0 {
        ascii_length(s.drop_last());
    }
}

proof fn seven_of(hash: Seq<char>, i: int)
    requires
        0 <= i <= 7,
        i <= hash.len(),
        forall|k: int| 0 <= k < hash.len() ==> (#[trigger] hash[k]) as u32 <= 0x7f,
    ensures
        extensions::seven_bytes(hash, i) == if hash.len() < 7 {
            hash.len() as int
        } else {
            7
        },
    decreases 7 - i,
{
    ascii_length(hash.take(i));
    if i < 7 && i < hash.len() {
        seven_of(hash, i + 1);
    }
}

/// The short form of a commit is its first seven characters.
pub proof fn commit_is_shortened(hash: Seq<char>)
    requires
        forall|i: int| 0 <= i < hash.len() ==> (#[trigger] hash[i]) as u32 <= 0x7f,
    ensures
        hash.len() >= 7 ==> extensions::short_hash(hash) == hash.take(7),
        hash.len() < 7 ==> extensions::short_hash(hash) == hash,
{
    seven_of(hash, 0);
}

/// What the client is told of an extension that was installed, updated or asked about.
pub proof fn extension_is_described(
    manifest: Tree,
    path: Seq<char>,
    state: extensions::RepoState,
    hash: Seq<char>,
    branch: Seq<char>,
    v: Tree,
)
    ensures
        ({
            let i = extensions::installed_tree(manifest, path);
            &&& i.text_at("extensionPath"@) == Some(path)
            &&& manifest.get("version"@) == Some(v) ==> i.get("version"@) == Some(v)
            &&& manifest.get("author"@) == Some(v) ==> i.get("author"@) == Some(v)
            &&& manifest.get("display_name"@) == Some(v) ==> i.get("display_name"@) == Some(v)
        }),
        ({
            let u = extensions::updated_tree(path, state, hash);
            &&& u.text_at("extensionPath"@) == Some(path)
            &&& u.text_at("shortCommitHash"@) == Some(extensions::short_hash(hash))
            &&& u.flag_at("isUpToDate"@) == Some(state.is_up_to_date)
            &&& u.text_at("remoteUrl"@) == Some(state.remote_url@)
        }),
        ({
            let t = extensions::version_tree(branch, hash, state.is_up_to_date, path);
            &&& t.text_at("currentBranchName"@) == Some(branch)
            &&& t.text_at("currentCommitHash"@) == Some(hash)
            &&& t.flag_at("isUpToDate"@) == Some(state.is_up_to_date)
            &&& t.text_at("remoteUrl"@) == Some(path)
        }),
{
    reveal_strlit("author");
    reveal_strlit("currentBranchName");
    reveal_strlit("currentCommitHash");
    reveal_strlit("display_name");
    reveal_strlit("extensionPath");
    reveal_strlit("isUpToDate");
    reveal_strlit("remoteUrl");
    reveal_strlit("shortCommitHash");
    reveal_strlit("version");
    assert("author"@.len() == 6);
    assert("currentBranchName"@.len() == 17 && "currentBranchName"@[7] == 'B');
    assert("currentCommitHash"@.len() == 17 && "currentCommitHash"@[7] == 'C');
    assert("display_name"@.len() == 12);
    assert("extensionPath"@.len() == 13);
    assert("isUpToDate"@.len() == 10);
    assert("remoteUrl"@.len() == 9);
    assert("shortCommitHash"@.len() == 15);
    assert("version"@.len() == 7);
    reveal_with_fuel(json::position, 5);
}

/// A branch of the remote is checked out under its own name, as a new branch where none of that
/// name is at hand; a branch at hand is checked out unless it is already, and any other is missing.
pub proof fn branch_is_switched_to(
    name: Seq<char>,
    branch: Seq<char>,
    local: Seq<char>,
    current: Seq<char>,
)
    requires
        !text::begins(branch, "origin/"@),
    ensures
        extensions::step_to("origin/"@ + name, local, current) == extensions::StepView::CheckOut(
            if extensions::branch_listed(local, name) {
                seq!["checkout"@, name]
            } else {
                seq!["checkout"@, "-b"@, name, "origin/"@ + name]
            },
        ),
        extensions::branch_listed(local, branch) && branch != current ==> extensions::step_to(
            branch,
            local,
            current,
        ) == extensions::StepView::CheckOut(seq!["checkout"@, branch]),
        extensions::branch_listed(local, branch) && branch == current ==> extensions::step_to(
            branch,
            local,
            current,
        ) == extensions::StepView::Stay,
        !extensions::branch_listed(local, branch) ==> extensions::step_to(branch, local, current)
            == extensions::StepView::Missing,
{
    reveal_strlit("origin/");
    let b = "origin/"@ + name;
    assert(b.subrange(0, 7) =~= "origin/"@);
    assert(b.skip(7) =~= name);
    assert(Seq::empty().push("checkout"@).push(name) =~= seq!["checkout"@, name]);
    assert(Seq::empty().push("checkout"@).push("-b"@).push(name).push(b) =~= seq![
        "checkout"@,
        "-b"@,
        name,
        b,
    ]);
    assert(Seq::empty().push("checkout"@).push(branch) =~= seq!["checkout"@, branch]);
}

} // verus!
