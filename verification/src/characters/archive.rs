//! The ZIP archives that characters come in.

use crate::json;
use crate::json::Json;
use crate::outside;
use crate::text;
use vstd::prelude::*;

verus! {

/// What an archive begins with.
pub open spec fn zip_signature() -> Seq<u8> {
    seq![0x50u8, 0x4Bu8, 0x03u8, 0x04u8]
}

/// The first position at or after `i` where an archive begins; the number of bytes where
/// there is none.
pub open spec fn signature_from(data: Seq<u8>, i: int) -> int
    decreases data.len() - i,
{
    if i < 0 || i + 4 > data.len() {
        data.len() as int
    } else if data.subrange(i, i + 4) == zip_signature() {
        i
    } else {
        signature_from(data, i + 1)
    }
}

/// The archive in the bytes: from where one begins on, or all of them where none does.
pub open spec fn payload(data: Seq<u8>) -> Seq<u8> {
    let p = signature_from(data, 0);
    if p < data.len() {
        data.skip(p)
    } else {
        data
    }
}

/// A copy of `data[from..]`.
fn tail(data: &[u8], from: usize) -> (r: Vec<u8>)
    requires
        from <= data@.len(),
    ensures
        r@ == data@.skip(from as int),
{
    let mut out: Vec<u8> = Vec::new();
    let mut i: usize = from;
    assert(out@ =~= data@.subrange(from as int, from as int));
    while i < data.len()
        invariant
            from <= i <= data@.len(),
            out@ == data@.subrange(from as int, i as int),
        decreases data@.len() - i,
    {
        out.push(data[i]);
        assert(out@ =~= data@.subrange(from as int, i as int + 1));
        i += 1;
    }
    assert(data@.subrange(from as int, data@.len() as int) =~= data@.skip(from as int));
    out
}

/// The archive in the bytes.
pub fn zip_payload(data: &[u8]) -> (r: Vec<u8>)
    ensures
        r@ == payload(data@),
{
    let n: usize = data.len();
    let mut i: usize = 0;
    while i < n && n - i >= 4
        invariant
            n == data@.len(),
            i <= n,
            signature_from(data@, 0) == signature_from(data@, i as int),
        decreases n - i,
    {
        if data[i] == 0x50 && data[i + 1] == 0x4B && data[i + 2] == 0x03 && data[i + 3] == 0x04 {
            assert(data@.subrange(i as int, i + 4) =~= zip_signature());
            return tail(data, i);
        }
        assert(data@.subrange(i as int, i + 4) != zip_signature()) by {
            let w = data@.subrange(i as int, i + 4);
            assert(w[0] == data@[i as int] && w[1] == data@[i + 1] && w[2] == data@[i + 2] && w[3]
                == data@[i + 3]);
            let z = zip_signature();
            assert(z[0] == 0x50 && z[1] == 0x4B && z[2] == 0x03 && z[3] == 0x04);
        }
        i += 1;
    }
    assert(data@.skip(0) =~= data@);
    tail(data, 0)
}

/// An entry of an archive: its name where the entry can be opened, its contents where they
/// can be read, and the JSON value that they are, where they are one.
#[derive(Debug)]
pub struct ArchiveEntry {
    pub name: Option<String>,
    pub data: Option<Vec<u8>>,
    pub json: Option<Json>,
}

/// The bytes behind an option.
pub open spec fn bytes_opt(o: Option<Vec<u8>>) -> Option<Seq<u8>> {
    match o {
        Some(v) => Some(v@),
        None => None,
    }
}

/// The names and contents of the entries of an archive. What their JSON values are is said by
/// [`charx::json_of_entry`](crate::characters::charx::json_of_entry).
pub open spec fn names_and_contents(v: Seq<ArchiveEntry>) -> Seq<
    (Option<Seq<char>>, Option<Seq<u8>>),
> {
    Seq::new(v.len(), |i: int| (json::string_opt(v[i].name), bytes_opt(v[i].data)))
}

/// The names and contents of the entries of the archive in the bytes.
pub open spec fn archive_of(data: Seq<u8>) -> Option<
    Seq<(Option<Seq<char>>, Option<Seq<u8>>)>,
> {
    let z = payload(data);
    match outside::zip_count(z) {
        Some(n) => Some(
            Seq::new(
                n as nat,
                |i: int| (outside::zip_name(z, i as usize), outside::zip_content(z, i as usize)),
            ),
        ),
        None => None,
    }
}

/// The entries of the archive in the bytes. Their JSON values are not looked for.
pub fn read_archive(data: &[u8]) -> (r: Option<Vec<ArchiveEntry>>)
    ensures
        r matches Some(v) ==> archive_of(data@) == Some(names_and_contents(v@)),
        r matches Some(v) ==> forall|i: int| 0 <= i < v@.len() ==> (#[trigger] v@[i]).json is None,
        r is None ==> archive_of(data@) is None,
{
    let z = zip_payload(data);
    let n: usize = match outside::count_zip_entries(&z) {
        Some(n) => n,
        None => return None,
    };
    let mut out: Vec<ArchiveEntry> = Vec::new();
    let mut i: usize = 0;
    while i < n
        invariant
            i <= n,
            out@.len() == i,
            forall|j: int|
                0 <= j < i ==> json::string_opt((#[trigger] out@[j]).name) == outside::zip_name(
                    z@,
                    j as usize,
                ) && bytes_opt(out@[j].data) == outside::zip_content(z@, j as usize)
                    && out@[j].json is None,
        decreases n - i,
    {
        let name = outside::zip_entry_name(&z, i);
        let content = outside::zip_entry_content(&z, i);
        out.push(ArchiveEntry { name, data: content, json: None });
        i += 1;
    }
    assert(names_and_contents(out@) =~= archive_of(data@)->Some_0);
    Some(out)
}

/// The position at or after `i` of the first entry whose name ends with `suffix` and that can
/// be read; the search passes over what macOS adds and ends at an entry that cannot be
/// opened.
pub open spec fn entry_from(
    entries: Seq<(Option<Seq<char>>, Option<Seq<u8>>)>,
    suffix: Seq<char>,
    i: int,
) -> Option<int>
    decreases entries.len() - i,
{
    if i < 0 || i >= entries.len() {
        None
    } else {
        match entries[i].0 {
            Some(name) => if !text::begins(name, "__MACOSX"@) && text::ends(name, suffix)
                && entries[i].1 is Some {
                Some(i)
            } else {
                entry_from(entries, suffix, i + 1)
            },
            None => None,
        }
    }
}

/// The entry whose name ends with `suffix`.
pub fn find_entry(entries: &Vec<ArchiveEntry>, suffix: &str) -> (r: Option<usize>)
    ensures
        match r {
            Some(p) => entry_from(names_and_contents(entries@), suffix@, 0) == Some(p as int) && p
                < entries@.len() && entries@[p as int].data is Some,
            None => entry_from(names_and_contents(entries@), suffix@, 0) is None,
        },
{
    let ghost all = names_and_contents(entries@);
    let mut i: usize = 0;
    while i < entries.len()
        invariant
            all == names_and_contents(entries@),
            i <= entries@.len(),
            entry_from(all, suffix@, 0) == entry_from(all, suffix@, i as int),
        decreases entries@.len() - i,
    {
        assert(all[i as int] == (
            json::string_opt(entries@[i as int].name),
            bytes_opt(entries@[i as int].data),
        ));
        match &entries[i].name {
            Some(name) => {
                if !text::starts_with(name, "__MACOSX") && text::ends_with(name, suffix)
                    && entries[i].data.is_some() {
                    return Some(i);
                }
            },
            None => return None,
        }
        i += 1;
    }
    None
}

/// The contents of the entry whose name ends with `suffix`.
pub open spec fn content_of(
    entries: Seq<(Option<Seq<char>>, Option<Seq<u8>>)>,
    suffix: Seq<char>,
) -> Option<Seq<u8>> {
    match entry_from(entries, suffix, 0) {
        Some(p) => entries[p].1,
        None => None,
    }
}

/// A copy of bytes.
pub fn copy_bytes(data: &Vec<u8>) -> (r: Vec<u8>)
    ensures
        r@ == data@,
{
    let mut out: Vec<u8> = Vec::new();
    let mut i: usize = 0;
    while i < data.len()
        invariant
            i <= data@.len(),
            out@ == data@.take(i as int),
        decreases data@.len() - i,
    {
        out.push(data[i]);
        assert(out@ =~= data@.take(i as int + 1));
        i += 1;
    }
    assert(data@.take(data@.len() as int) =~= data@);
    out
}

/// A copy of the contents of the entry whose name ends with `suffix`.
pub fn entry_content(entries: &Vec<ArchiveEntry>, suffix: &str) -> (r: Option<Vec<u8>>)
    ensures
        bytes_opt(r) == content_of(names_and_contents(entries@), suffix@),
{
    match find_entry(entries, suffix) {
        Some(p) => match &entries[p].data {
            Some(d) => Some(copy_bytes(d)),
            None => None,
        },
        None => None,
    }
}

/// The contents of the entry whose name ends with `suffix` of the archive in the bytes.
pub fn extract_file_from_zip_buffer(archive_data: &[u8], suffix: &str) -> (r: Option<Vec<u8>>)
    ensures
        bytes_opt(r) == (match archive_of(archive_data@) {
            Some(entries) => content_of(entries, suffix@),
            None => None,
        }),
{
    match read_archive(archive_data) {
        Some(entries) => entry_content(&entries, suffix),
        None => None,
    }
}

/// The components of a path with `.` and `..` worked out; none where `..` leads out of it.
pub open spec fn resolved(parts: Seq<Seq<char>>) -> Option<Seq<Seq<char>>>
    decreases parts.len(),
{
    if parts.len() == 0 {
        Some(Seq::empty())
    } else {
        match resolved(parts.drop_last()) {
            Some(stack) => if parts.last().len() == 0 || parts.last() == "."@ {
                Some(stack)
            } else if parts.last() == ".."@ {
                if stack.len() == 0 {
                    None
                } else {
                    Some(stack.drop_last())
                }
            } else {
                Some(stack.push(parts.last()))
            },
            None => None,
        }
    }
}

/// The path of an entry with `.` and `..` worked out; none where it is empty or leads out of
/// the archive.
pub open spec fn normalized(name: Seq<char>) -> Option<Seq<char>> {
    match resolved(text::pieces(text::trimmed(text::replaced(name, "\\"@, "/"@)), '/')) {
        Some(stack) => if stack.len() == 0 {
            None
        } else {
            Some(text::joined(stack, "/"@))
        },
        None => None,
    }
}

/// The path of an entry with `.` and `..` worked out.
pub fn normalize_zip_entry_path(entry_name: &str) -> (r: Option<String>)
    ensures
        json::string_opt(r) == normalized(entry_name@),
{
    proof {
        reveal_strlit("\\");
    }
    let slashed = text::replace(entry_name, "\\", "/");
    let parts = text::split(&text::trim(&slashed), '/');
    let ghost all = json::texts(parts@);
    let mut stack: Vec<String> = Vec::new();
    let mut i: usize = 0;
    assert(json::texts(stack@) =~= Seq::empty());
    while i < parts.len()
        invariant
            all == json::texts(parts@),
            all == text::pieces(text::trimmed(text::replaced(entry_name@, "\\"@, "/"@)), '/'),
            i <= parts@.len(),
            resolved(all.take(i as int)) == Some(json::texts(stack@)),
        decreases parts@.len() - i,
    {
        assert(all.take(i as int + 1).drop_last() =~= all.take(i as int));
        assert(all.take(i as int + 1).last() == parts@[i as int]@);
        let ghost before = stack@;
        if parts[i].as_str().is_empty() || text::same(&parts[i], ".") {
        } else if text::same(&parts[i], "..") {
            if stack.len() == 0 {
                proof {
                    no_way_back(all, i as int + 1);
                }
                return None;
            }
            let last = stack.pop();
            assert(json::texts(stack@) =~= json::texts(before).drop_last());
        } else {
            stack.push(parts[i].clone());
            assert(json::texts(stack@) =~= json::texts(before).push(parts@[i as int]@));
        }
        i += 1;
    }
    assert(all.take(all.len() as int) =~= all);
    if stack.len() == 0 {
        None
    } else {
        Some(text::join(&stack, "/"))
    }
}

/// A path that leads out of the archive does so however it goes on.
proof fn no_way_back(parts: Seq<Seq<char>>, i: int)
    requires
        0 <= i <= parts.len(),
        resolved(parts.take(i)) is None,
    ensures
        resolved(parts) is None,
    decreases parts.len(),
{
    if i == parts.len() {
        assert(parts.take(i) =~= parts);
    } else {
        assert(parts.drop_last().take(i) =~= parts.take(i));
        no_way_back(parts.drop_last(), i);
    }
}

/// The components of a path that was worked out name files and directories: none is empty,
/// `.` or `..`.
pub proof fn resolved_stays_inside(parts: Seq<Seq<char>>)
    ensures
        resolved(parts) matches Some(stack) ==> forall|i: int|
            0 <= i < stack.len() ==> (#[trigger] stack[i]).len() > 0 && stack[i] != "."@
                && stack[i] != ".."@ && parts.contains(stack[i]),
    decreases parts.len(),
{
    if parts.len() > 0 {
        let h = parts.drop_last();
        resolved_stays_inside(h);
        match resolved(parts) {
            Some(stack) => {
                let before = resolved(h)->Some_0;
                assert forall|i: int| 0 <= i < stack.len() implies (#[trigger] stack[i]).len() > 0
                    && stack[i] != "."@ && stack[i] != ".."@ && parts.contains(stack[i]) by {
                    if i < before.len() && stack[i] == before[i] {
                        assert(h.contains(before[i]));
                        let j = choose|j: int| 0 <= j < h.len() && h[j] == before[i];
                        assert(parts[j] == before[i]);
                    } else {
                        assert(parts[parts.len() - 1] == stack[i]);
                    }
                }
            },
            None => {},
        }
    }
}

/// A file taken out of an archive, under its path with `.` and `..` worked out.
#[derive(Debug)]
pub struct Buffer {
    pub path: String,
    pub data: Vec<u8>,
}

/// The paths and contents of files.
pub open spec fn buffers_view(v: Seq<Buffer>) -> Seq<(Seq<char>, Seq<u8>)> {
    Seq::new(v.len(), |i: int| (v[i].path@, v[i].data@))
}

/// Whether there is a file of that path.
pub open spec fn has_path(v: Seq<(Seq<char>, Seq<u8>)>, path: Seq<char>) -> bool {
    exists|i: int| 0 <= i < v.len() && (#[trigger] v[i]).0 == path
}

/// The paths that are looked for: those of the names that lie in the archive.
pub open spec fn wanted(names: Seq<Seq<char>>) -> Set<Seq<char>> {
    Set::new(|p: Seq<char>| exists|i: int| 0 <= i < names.len() && normalized(#[trigger] names[i]) == Some(p))
}

/// The files that are looked for, in the order of the archive; of several of one path the
/// first that can be read.
pub open spec fn gathered(
    entries: Seq<(Option<Seq<char>>, Option<Seq<u8>>)>,
    names: Seq<Seq<char>>,
) -> Seq<(Seq<char>, Seq<u8>)>
    decreases entries.len(),
{
    if entries.len() == 0 {
        Seq::empty()
    } else {
        let rest = gathered(entries.drop_last(), names);
        match (entries.last().0, entries.last().1) {
            (Some(name), Some(data)) => match normalized(name) {
                Some(path) => if wanted(names).contains(path) && !has_path(rest, path) {
                    rest.push((path, data))
                } else {
                    rest
                },
                None => rest,
            },
            _ => rest,
        }
    }
}

fn is_wanted(names: &Vec<String>, path: &str) -> (r: bool)
    ensures
        r == wanted(json::texts(names@)).contains(path@),
{
    let ghost all = json::texts(names@);
    let mut i: usize = 0;
    while i < names.len()
        invariant
            all == json::texts(names@),
            i <= names@.len(),
            forall|j: int| 0 <= j < i ==> normalized(#[trigger] all[j]) != Some(path@),
        decreases names@.len() - i,
    {
        assert(all[i as int] == names@[i as int]@);
        match normalize_zip_entry_path(&names[i]) {
            Some(p) => if text::same(&p, path) {
                assert(normalized(all[i as int]) == Some(path@));
                return true;
            },
            None => {},
        }
        i += 1;
    }
    false
}

/// The position of the file of that path.
pub fn find_buffer(buffers: &Vec<Buffer>, path: &str) -> (r: Option<usize>)
    ensures
        match r {
            Some(p) => p < buffers@.len() && buffers@[p as int].path@ == path@ && forall|j: int|
                0 <= j < p ==> (#[trigger] buffers@[j]).path@ != path@,
            None => !has_path(buffers_view(buffers@), path@),
        },
{
    let mut i: usize = 0;
    while i < buffers.len()
        invariant
            i <= buffers@.len(),
            forall|j: int| 0 <= j < i ==> (#[trigger] buffers@[j]).path@ != path@,
        decreases buffers@.len() - i,
    {
        if text::same(&buffers[i].path, path) {
            return Some(i);
        }
        i += 1;
    }
    assert forall|j: int| 0 <= j < buffers@.len() implies (#[trigger] buffers_view(buffers@)[j]).0
        != path@ by {
        assert(buffers@[j].path@ != path@);
    }
    None
}

/// The files of an archive that are looked for.
pub fn gather_files(entries: &Vec<ArchiveEntry>, file_names: &Vec<String>) -> (r: Vec<Buffer>)
    ensures
        buffers_view(r@) == gathered(names_and_contents(entries@), json::texts(file_names@)),
{
    let ghost all = names_and_contents(entries@);
    let ghost names = json::texts(file_names@);
    let mut out: Vec<Buffer> = Vec::new();
    let mut i: usize = 0;
    assert(buffers_view(out@) =~= gathered(all.take(0), names));
    while i < entries.len()
        invariant
            all == names_and_contents(entries@),
            names == json::texts(file_names@),
            i <= entries@.len(),
            buffers_view(out@) == gathered(all.take(i as int), names),
        decreases entries@.len() - i,
    {
        assert(all.take(i as int + 1).drop_last() =~= all.take(i as int));
        assert(all.take(i as int + 1).last() == (
            json::string_opt(entries@[i as int].name),
            bytes_opt(entries@[i as int].data),
        ));
        let ghost before = out@;
        match (&entries[i].name, &entries[i].data) {
            (Some(name), Some(data)) => match normalize_zip_entry_path(name) {
                Some(path) => if is_wanted(file_names, &path) {
                    match find_buffer(&out, &path) {
                        Some(p) => {
                            assert(buffers_view(out@)[p as int].0 == path@);
                        },
                        None => {
                            let b = Buffer { path, data: copy_bytes(data) };
                            out.push(b);
                            assert(buffers_view(out@) =~= buffers_view(before).push(
                                (b.path@, b.data@),
                            ));
                        },
                    }
                },
                None => {},
            },
            _ => {},
        }
        i += 1;
    }
    assert(all.take(all.len() as int) =~= all);
    out
}

/// The files of the archive in the bytes that are looked for.
pub fn extract_files_from_zip_buffer(archive_data: &[u8], file_names: &Vec<String>) -> (r: Vec<
    Buffer,
>)
    ensures
        buffers_view(r@) == (match archive_of(archive_data@) {
            Some(entries) => gathered(entries, json::texts(file_names@)),
            None => Seq::empty(),
        }),
{
    match read_archive(archive_data) {
        Some(entries) => gather_files(&entries, file_names),
        None => {
            let none: Vec<Buffer> = Vec::new();
            assert(buffers_view(none@) =~= Seq::empty());
            none
        },
    }
}

} // verus!
