//! What holds of the metadata of images: what is told of an image, which pictures move, how colours
//! are written, and when metadata are made anew.

use crate::image_metadata as meta;
use crate::image_metadata::MetadataView;
use crate::json;
use crate::json::Tree;
use crate::numbers;
use crate::text;
use crate::web;
use vstd::prelude::*;

verus! {

/// What is told of an image is told under its own name each.
pub proof fn metadata_are_told(m: MetadataView)
    ensures
        ({
            let t = m.tree();
            &&& t.text_at("hash"@) == Some(m.hash)
            &&& t.get("aspectRatio"@) == Some(Tree::Float(m.aspect_ratio.0, m.aspect_ratio.1))
            &&& t.flag_at("isAnimated"@) == Some(m.is_animated)
            &&& t.text_at("dominantColor"@) == Some(m.dominant_color)
            &&& t.items_at("folderIds"@) == Some(json::text_items(m.folder_ids))
            &&& m.added_timestamp >= 0 ==> t.get("addedTimestamp"@) == Some(
                json::num(m.added_timestamp as u64),
            )
            &&& t.get("thumbnailResolution"@) == Some(json::num(m.thumbnail_resolution as u64))
            &&& m.mtime matches Some(x) ==> t.get("mtime"@) == Some(Tree::Float(x.0, x.1))
            &&& m.mtime is None ==> t.get("mtime"@) is None
        }),
{
    reveal_strlit("addedTimestamp");
    reveal_strlit("aspectRatio");
    reveal_strlit("dominantColor");
    reveal_strlit("folderIds");
    reveal_strlit("hash");
    reveal_strlit("isAnimated");
    reveal_strlit("mtime");
    reveal_strlit("thumbnailResolution");
    assert("addedTimestamp"@.len() == 14);
    assert("aspectRatio"@.len() == 11);
    assert("dominantColor"@.len() == 13);
    assert("folderIds"@.len() == 9);
    assert("hash"@.len() == 4);
    assert("isAnimated"@.len() == 10);
    assert("mtime"@.len() == 5);
    assert("thumbnailResolution"@.len() == 19);
    reveal_with_fuel(json::position, 9);
}

/// A folder is told with its identifier, its name and its picture.
pub proof fn folder_is_told(f: meta::MetadataFolder)
    ensures
        f.tree().text_at("id"@) == Some(f.id@),
        f.tree().text_at("name"@) == Some(f.name@),
        f.tree().text_at("thumbnailFile"@) == Some(f.thumbnail_file@),
{
    reveal_strlit("id");
    reveal_strlit("name");
    reveal_strlit("thumbnailFile");
    assert("id"@.len() == 2);
    assert("name"@.len() == 4);
    assert("thumbnailFile"@.len() == 13);
    reveal_with_fuel(json::position, 4);
}

/// A thumbnail has as many pixels as its kind of picture.
pub proof fn thumbnail_is_sized_by_kind(d: meta::ThumbnailDimensions)
    ensures
        meta::pixels(d, "bg"@) == d.bg.0 * d.bg.1,
        meta::pixels(d, "avatar"@) == d.avatar.0 * d.avatar.1,
        meta::pixels(d, "persona"@) == d.persona.0 * d.persona.1,
{
    reveal_strlit("avatar");
    reveal_strlit("bg");
    reveal_strlit("persona");
    assert("avatar"@.len() == 6);
    assert("bg"@.len() == 2);
    assert("persona"@.len() == 7);
}

/// Every GIF moves; a PNG or a WebP picture moves where the mark of moving ones stands among its
/// first bytes; no other picture moves.
pub proof fn moving_pictures_are_marked(a: Seq<u8>, b: Seq<u8>, kind: Seq<char>)
    requires
        a.len() <= 196,
    ensures
        meta::animated("image/gif"@, a),
        meta::animated("image/png"@, a + seq![97u8, 99u8, 84u8, 76u8] + b),
        meta::animated("image/webp"@, a + seq![65u8, 78u8, 73u8, 77u8] + b),
        meta::animated("image/webp"@, a + seq![65u8, 78u8, 77u8, 70u8] + b),
        kind != "image/gif"@ && kind != "image/png"@ && kind != "image/webp"@ ==> !meta::animated(
            kind,
            a,
        ),
        a.len() < 4 ==> !meta::animated("image/png"@, a) && !meta::animated("image/webp"@, a),
{
    reveal_strlit("image/gif");
    reveal_strlit("image/png");
    reveal_strlit("image/webp");
    assert("image/gif"@.len() == 9 && "image/gif"@[6] == 'g');
    assert("image/png"@.len() == 9 && "image/png"@[6] == 'p');
    assert("image/webp"@.len() == 10);
    let n = a.len() as int;
    let x = seq![97u8, 99u8, 84u8, 76u8];
    assert((a + x + b).subrange(n, n + 4) =~= x);
    let y = seq![65u8, 78u8, 73u8, 77u8];
    assert((a + y + b).subrange(n, n + 4) =~= y);
    let z = seq![65u8, 78u8, 77u8, 70u8];
    assert((a + z + b).subrange(n, n + 4) =~= z);
}

/// The value of a small hexadecimal digit.
pub open spec fn digit_value(c: char) -> int {
    if '0' <= c <= '9' {
        c as int - 48
    } else {
        c as int - 87
    }
}

/// A colour is written with a hash and two digits each for red, green and blue.
pub proof fn colour_is_read_back(c: (u8, u8, u8))
    ensures
        ({
            let s = meta::color_text(c);
            &&& s.len() == 7 && s[0] == '#'
            &&& 16 * digit_value(s[1]) + digit_value(s[2]) == c.0
            &&& 16 * digit_value(s[3]) + digit_value(s[4]) == c.1
            &&& 16 * digit_value(s[5]) + digit_value(s[6]) == c.2
        }),
{
    reveal_strlit("#");
}

/// An image is looked at where its file has changed since, or was not looked at before; what is
/// told of it is what is known then, with the time of its file.
pub proof fn stale_images_are_looked_at(
    b: meta::BatchView,
    f: meta::FileView,
    t: (u64, Seq<char>),
    fresh: MetadataView,
    m: MetadataView,
)
    requires
        f.mtime == Some(t),
    ensures
        meta::known(b.images, meta::posix(f.path)) is None && f.fresh == Some(fresh) ==> {
            let after = meta::batch_step(b, f);
            let told = MetadataView { mtime: Some(t), ..fresh };
            &&& after.generated == b.generated + 1
            &&& meta::known(after.images, meta::posix(f.path)) == Some(told)
            &&& Tree::Object(after.results).get(f.path) == Some(told.tree())
        },
        meta::known(b.images, meta::posix(f.path)) == Some(m) && m.mtime == Some(t)
            && numbers::is_number(t.0) ==> {
            let after = meta::batch_step(b, f);
            &&& after.generated == b.generated
            &&& after.images == b.images
            &&& Tree::Object(after.results).get(f.path) == Some(m.tree())
        },
{
    if f.fresh == Some(fresh) {
        let told = MetadataView { mtime: Some(t), ..fresh };
        meta::learned_is_known(b.images, meta::posix(f.path), told);
        json::put_reads(b.results, f.path, told.tree(), f.path);
    }
    json::put_reads(b.results, f.path, m.tree(), f.path);
}

/// A file that is gone is not told of.
pub proof fn missing_files_are_passed_over(b: meta::BatchView, f: meta::FileView)
    requires
        f.mtime is None,
    ensures
        meta::batch_step(b, f) == b,
{
}

/// An entry is kept where its file lies inside and is found.
pub proof fn found_entries_are_kept(
    images: Seq<(Seq<char>, MetadataView)>,
    checks: Seq<meta::EntryCheck>,
    e: (Seq<char>, MetadataView),
    c: meta::EntryCheck,
)
    requires
        checks.len() == images.len(),
    ensures
        c.inside && c.found ==> meta::kept_images(images.push(e), checks.push(c))
            == meta::kept_images(images, checks).push(e) && meta::orphaned_paths(
            images.push(e),
            checks.push(c),
        ) == meta::orphaned_paths(images, checks),
        !(c.inside && c.found) ==> meta::kept_images(images.push(e), checks.push(c))
            == meta::kept_images(images, checks) && meta::orphaned_paths(
            images.push(e),
            checks.push(c),
        ) == meta::orphaned_paths(images, checks).push(e.0),
{
    assert(images.push(e).drop_last() =~= images);
    checks_before(images, checks, checks.push(c));
}

proof fn checks_before(
    images: Seq<(Seq<char>, MetadataView)>,
    a: Seq<meta::EntryCheck>,
    b: Seq<meta::EntryCheck>,
)
    requires
        images.len() <= a.len() <= b.len(),
        forall|i: int| 0 <= i < images.len() ==> a[i] == b[i],
    ensures
        meta::kept_images(images, a) == meta::kept_images(images, b),
        meta::orphaned_paths(images, a) == meta::orphaned_paths(images, b),
    decreases images.len(),
{
    if images.len() > 0 {
        checks_before(images.drop_last(), a, b);
    }
}

/// For every path the client is told what is known, that it lies outside, or that nothing is known.
pub proof fn every_path_is_answered(
    v: Seq<meta::RequestedPath>,
    results: Seq<(Seq<char>, Tree)>,
    p: meta::RequestedPath,
    known: Tree,
)
    ensures
        ({
            let t = Tree::Object(meta::told_of(meta::refusals(v.push(p)), results, v.push(p)));
            &&& p.inside && Tree::Object(results).get(p.path@) == Some(known) ==> t.get(p.path@)
                == Some(known)
            &&& p.inside && Tree::Object(results).get(p.path@) is None ==> t.get(p.path@) == Some(
                web::error_tree("File not found or could not process."@),
            )
            &&& meta::inside_paths(v.push(p)) == if p.inside {
                meta::inside_paths(v).push(p.path@)
            } else {
                meta::inside_paths(v)
            }
            &&& !p.inside ==> Tree::Object(meta::refusals(v.push(p))).get(p.path@) == Some(
                web::error_tree(
                    "Path \""@ + p.path@ + "\" is outside the user data directory."@,
                ),
            )
        }),
{
    assert(v.push(p).drop_last() =~= v);
    let start = meta::refusals(v.push(p));
    let rest = meta::told_of(start, results, v);
    json::put_reads(rest, p.path@, meta::told(results, p.path@), p.path@);
    json::put_reads(
        meta::refusals(v),
        p.path@,
        web::error_tree(meta::outside_message(p.path@)),
        p.path@,
    );
}

/// The images are told whose path begins with the prefix, each under its path; the folders are told
/// where there is no prefix.
pub proof fn images_are_told_by_prefix(
    images: Seq<(Seq<char>, MetadataView)>,
    e: (Seq<char>, MetadataView),
    prefix: Seq<char>,
    index: meta::MetadataIndex,
)
    ensures
        text::begins(e.0, prefix) ==> meta::images_tree(images.push(e), prefix)
            == meta::images_tree(images, prefix).push((e.0, e.1.tree())),
        !text::begins(e.0, prefix) ==> meta::images_tree(images.push(e), prefix)
            == meta::images_tree(images, prefix),
        ({
            let t = meta::index_tree(index, prefix);
            &&& t.get("version"@) == Some(json::num(index.version as u64))
            &&& t.get("images"@) == Some(
                Tree::Object(meta::images_tree(meta::images_view(index.images@), prefix)),
            )
            &&& prefix.len() > 0 ==> t.get("folders"@) is None
            &&& prefix.len() == 0 ==> (t.items_at("folders"@) matches Some(f) && f.len()
                == index.folders@.len())
        }),
{
    assert(images.push(e).drop_last() =~= images);
    reveal_strlit("folders");
    reveal_strlit("images");
    reveal_strlit("version");
    assert("folders"@.len() == 7 && "folders"@[0] == 'f');
    assert("images"@.len() == 6);
    assert("version"@.len() == 7 && "version"@[0] == 'v');
    reveal_with_fuel(json::position, 4);
}

} // verus!
