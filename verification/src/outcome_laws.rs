//! What holds of outcomes: what the client is told when something ended well or not, which names
//! are free, and what stands in for what is missing.

use crate::assets;
use crate::avatars;
use crate::backends_chat_completions as cc;
use crate::backends_text_completions as tc;
use crate::backgrounds;
use crate::characters::archive;
use crate::characters::byaf;
use crate::characters::byaf_import;
use crate::characters::charx;
use crate::characters::helpers;
use crate::characters::writes;
use crate::content;
use crate::extensions;
use crate::files;
use crate::global;
use crate::google;
use crate::horde;
use crate::images;
use crate::json;
use crate::json::Json;
use crate::json::Tree;
use crate::minimax;
use crate::naming;
use crate::numbers::TextNumber;
use crate::paths;
use crate::sanitize;
use crate::text;
use crate::web;
use crate::web::Reply;
use vstd::prelude::*;

verus! {

/// A name that is free is taken as it is; otherwise the first number behind it that makes it free.
pub proof fn free_name_is_first(
    name: Seq<char>,
    base: Seq<char>,
    suffix: Seq<char>,
    taken: Seq<Seq<char>>,
)
    requires
        naming::is_first_free(name, base, suffix, taken),
    ensures
        !taken.contains(name + suffix),
        !taken.contains(base + suffix) ==> name == base,
        taken.contains(base + suffix) ==> exists|n: nat|
            n >= 1 && name == #[trigger] (base + text::decimal(n)) && forall|m: nat|
                1 <= m < n ==> taken.contains(#[trigger] (base + text::decimal(m)) + suffix),
{
    let i = choose|i: nat|
        {
            &&& name == #[trigger] naming::numbered(base, i)
            &&& !taken.contains(name + suffix)
            &&& forall|j: nat|
                j < i ==> taken.contains(#[trigger] naming::numbered(base, j) + suffix)
        };
    assert(naming::numbered(base, 0) == base);
    if taken.contains(base + suffix) {
        assert(i >= 1);
        assert(name == base + text::decimal(i));
        assert forall|m: nat| 1 <= m < i implies taken.contains(
            #[trigger] (base + text::decimal(m)) + suffix,
        ) by {
            assert(naming::numbered(base, m) == base + text::decimal(m));
        }
    }
}

/// A copy has the first free number from where the counting starts.
pub proof fn free_number_is_first(
    name: Seq<char>,
    prefix: Seq<char>,
    start: nat,
    suffix: Seq<char>,
    taken: Seq<Seq<char>>,
)
    requires
        naming::is_first_numbered(name, prefix, start, suffix, taken),
    ensures
        !taken.contains(name + suffix),
        !taken.contains(prefix + text::decimal(start) + suffix) ==> name == prefix + text::decimal(
            start,
        ),
{
    let i = choose|i: nat|
        {
            &&& name == #[trigger] naming::numbered_from(prefix, start, i)
            &&& !taken.contains(name + suffix)
            &&& forall|j: nat|
                j < i ==> taken.contains(#[trigger] naming::numbered_from(prefix, start, j) + suffix)
        };
    assert(naming::numbered_from(prefix, start, 0) == prefix + text::decimal(start));
}

/// A file of an archive is stored under its name with the first free number behind it, in brackets.
pub proof fn free_file_is_first(
    base: &str,
    extension: &str,
    taken: &Vec<String>,
    r: Option<String>,
)
    requires
        call_ensures(byaf_import::free_file, (base, extension, taken), r),
    ensures
        r matches Some(f) ==> !json::texts(taken@).contains(f@),
        !json::texts(taken@).contains(
            base@ + " ("@ + text::decimal(1) + ")"@ + extension@,
        ) ==> (r matches Some(f) && f@ == base@ + " ("@ + text::decimal(1) + ")"@ + extension@),
{
    let first = byaf_import::candidate(base@, 1) + extension@;
    assert(first == base@ + " ("@ + text::decimal(1) + ")"@ + extension@);
    if let Some(f) = r {
        let i = choose|i: nat|
            {
                &&& 1 <= i <= byaf_import::MAX_TRIES
                &&& f@ == #[trigger] byaf_import::candidate(base@, i) + extension@
                &&& !json::texts(taken@).contains(f@)
                &&& forall|j: nat|
                    1 <= j < i ==> json::texts(taken@).contains(
                        #[trigger] byaf_import::candidate(base@, j) + extension@,
                    )
            };
        if i > 1 {
            assert(json::texts(taken@).contains(byaf_import::candidate(base@, 1) + extension@));
        }
    } else {
        assert(json::texts(taken@).contains(byaf_import::candidate(base@, 1) + extension@));
    }
}

/// A background bears the name of its character and the extension of its file, an icon its label
/// and the extension of its file.
pub proof fn stored_pictures_are_named(
    background: &byaf::ByafChatBackground,
    name: &str,
    icon: &byaf::ByafImage,
    replacement: &str,
    taken: &Vec<String>,
    a: Option<String>,
    b: Option<String>,
    ext: Seq<char>,
    label: Seq<char>,
)
    requires
        call_ensures(byaf_import::background_file, (background, name, taken), a),
        call_ensures(byaf_import::icon_file, (icon, replacement, taken), b),
        taken@.len() == 0,
        background.paths@.len() > 0,
        paths::path_extension(background.paths@[0]@) == Some(ext),
        paths::path_extension(icon.filename@) == Some(ext),
        sanitize::sanitized(icon.label@, replacement@) == label,
        label.len() > 0,
    ensures
        a matches Some(f) && f@ == name@ + "_bg"@ + " ("@ + text::decimal(1) + ")"@ + ("."@ + ext),
        b matches Some(f) && f@ == label + " ("@ + text::decimal(1) + ")"@ + ("."@ + ext),
{
    let none = json::texts(taken@);
    assert(json::texts(background.paths@)[0] == background.paths@[0]@);
    first_of_empty(a, name@ + "_bg"@, "."@ + ext, none);
    first_of_empty(b, label, "."@ + ext, none);
}

proof fn first_of_empty(r: Option<String>, base: Seq<char>, ext: Seq<char>, none: Seq<Seq<char>>)
    requires
        none.len() == 0,
        match r {
            Some(f) => byaf_import::first_in_folder(f@, base, ext, none),
            None => byaf_import::folder_full(base, ext, none),
        },
    ensures
        r matches Some(f) && f@ == base + " ("@ + text::decimal(1) + ")"@ + ext,
{
    if let Some(f) = r {
        let i = choose|i: nat|
            {
                &&& 1 <= i <= byaf_import::MAX_TRIES
                &&& f@ == #[trigger] byaf_import::candidate(base, i) + ext
                &&& !none.contains(f@)
                &&& forall|j: nat|
                    1 <= j < i ==> none.contains(#[trigger] byaf_import::candidate(base, j) + ext)
            };
        if i > 1 {
            assert(none.contains(byaf_import::candidate(base, 1) + ext));
        }
    } else {
        assert(none.contains(byaf_import::candidate(base, 1) + ext));
    }
}

/// An archive of Backyard AI gives the card, the scenarios, the pictures and the backgrounds of the
/// character that its index names.
pub proof fn archive_gives_character(
    entries: &Vec<archive::ArchiveEntry>,
    index: &str,
    default_avatar: &Vec<u8>,
    now: &str,
    r: Result<byaf::ByafParseResult, String>,
    listed: Tree,
    path: Seq<char>,
    character: Tree,
)
    requires
        call_ensures(byaf::parse_byaf, (entries, index, default_avatar, now), r),
        archive::entry_from(archive::names_and_contents(entries@), index@, 0) is Some,
        charx::json_of_entry(entries@, index@) == Some(listed),
        byaf::character_path(listed) == Some(path),
        archive::entry_from(archive::names_and_contents(entries@), path, 0) is Some,
        charx::json_of_entry(entries@, path) == Some(character),
    ensures
        r matches Ok(x) && x.character@ == character && json::trees(x.scenarios@)
            == byaf::scenarios_of(entries@, listed) && x.card@ == byaf::card_of(
            listed,
            character,
            byaf::scenarios_of(entries@, listed),
            now@,
        ) && byaf::images_view(x.images@) == byaf::images_of(
            archive::names_and_contents(entries@),
            path,
            character,
            default_avatar@,
        ),
{
}

/// The scenarios are those that the index lists and that can be read; without any there is an empty
/// one.
pub proof fn scenarios_are_those_listed(
    entries: Seq<archive::ArchiveEntry>,
    listed: Tree,
    list: Seq<Tree>,
)
    ensures
        listed.items_at("scenarios"@) == Some(list) && byaf::scenarios_at(entries, list).len() > 0
            ==> byaf::scenarios_of(entries, listed) == byaf::scenarios_at(entries, list),
        listed.items_at("scenarios"@) is None ==> byaf::scenarios_of(entries, listed) == seq![
            Tree::Object(Seq::empty()),
        ],
{
    assert(json::items().push(Tree::Object(Seq::empty())) =~= seq![Tree::Object(Seq::empty())]);
}

/// What stands in a record stands there under its own name.
pub proof fn records_are_what_they_say(
    image: &byaf::ByafImage,
    background: &byaf::ByafChatBackground,
    asset: &charx::CharXAsset,
    raw: &charx::CharXAssetRaw,
    write: &charx::AssetWrite,
)
    ensures
        image@.filename == image.filename@ && image@.image == image.image@ && image@.label
            == image.label@,
        background@.name == background.name@ && background@.data == background.data@,
        asset@.zip_path == asset.zip_path@ && asset@.ext == asset.ext@ && asset@.base_name
            == asset.base_name@ && asset@.storage == asset.storage,
        raw@.kind == raw.kind@ && raw@.name == raw.name@ && raw@.ext == raw.ext@ && raw@.zip_path
            == raw.zip_path@,
        write@.directory == write.directory@ && write@.path == write.path@ && write@.data
            == write.data@ && write@.base_name == write.base_name@ && write@.replaces
            == write.replaces,
{
}

/// A file that could not be fetched is not handed out; one from anywhere is named after its address
/// and has the type that it says.
pub proof fn fetched_file_is_handed_on(
    file: content::FetchedFile,
    r: Result<content::DownloadResult, Reply>,
)
    requires
        call_ensures(content::download_generic_png, (Some(file),), r),
    ensures
        !(200 <= file.status < 300) ==> (r matches Err(e) && e@.status == 500),
        file.data is None ==> (r matches Err(e) && e@.status == 500),
        200 <= file.status < 300 && file.data is Some ==> {
            let kind = match file.media_type {
                Some(t) => t@,
                None => "image/png"@,
            };
            &&& r is Ok
            &&& r->Ok_0.buffer@ == file.data->0@
            &&& json::string_opt(r->Ok_0.file_type) == Some(kind)
            &&& r->Ok_0.file_name@ == content::generic_name(file.final_url@, kind)
        },
{
}

/// A repository is not judged where it could not be asked.
pub proof fn repository_must_answer(
    answers: &extensions::RepoAnswers,
    r: Result<extensions::RepoState, String>,
)
    requires
        call_ensures(extensions::check_if_repo_is_up_to_date, (answers,), r),
    ensures
        r is Ok <==> answers.fetched is Ok && answers.branch is Ok && answers.commit is Ok,
        answers.fetched matches Err(e) ==> (r matches Err(x) && x@ == e@),
        answers.remotes is Err && r is Ok ==> r->Ok_0.is_up_to_date && r->Ok_0.remote_url@.len()
            == 0,
{
    reveal_strlit("");
}

/// A description that could be read is taken, and the fault is told where it could not.
pub proof fn description_is_read(
    path: &str,
    j: Json,
    why: String,
    a: Result<Json, Reply>,
    b: Result<Json, Reply>,
    c: Result<Json, Reply>,
)
    requires
        call_ensures(extensions::get_manifest, (path, extensions::ManifestRead::Found(j)), a),
        call_ensures(extensions::get_manifest, (path, extensions::ManifestRead::Missing), b),
        call_ensures(extensions::get_manifest, (path, extensions::ManifestRead::Malformed(why)), c),
    ensures
        a == Ok::<Json, Reply>(j),
        b matches Err(e) && e@ == web::text_reply(
            500,
            "Server Error: "@ + ("Manifest file not found at "@ + path@),
        ),
        c matches Err(e) && e@ == web::text_reply(
            500,
            "Server Error: "@ + ("Failed to parse manifest: "@ + why@),
        ),
{
}

/// What a service says of its models is told; its errors are passed on, but for those of Anthropic,
/// Google and Azure.
pub proof fn errors_of_models_are_told(
    names: &cc::AnthropicNames,
    body: &cc::StatusRequest,
    u: web::Upstream,
    r: Reply,
    source: Seq<char>,
    s: u16,
    t: Seq<char>,
    j: Option<Tree>,
)
    requires
        call_ensures(cc::status_reply, (names, body, u), r),
        json::string_opt(body.chat_completion_source) == Some(source),
        u@ == web::UpstreamView::Got(s, t, j),
        400 <= s < 600,
    ensures
        source != names.source@ && source != "makersuite"@ && source != "google"@ && source
            != "azure_openai"@ ==> r@ == web::text_reply(s, t),
        source == names.source@ || source == "makersuite"@ || source == "google"@ || source
            == "azure_openai"@ ==> r@.status == 500,
{
}

/// A request for a text that failed is told with the reason.
pub proof fn failure_is_told(refused: bool, why: &str, r: Reply)
    requires
        call_ensures(tc::generate_failed, (refused, why), r),
    ensures
        r@.status == 502 && r@.payload is Json,
        r@.payload->Json_0.get("error"@) matches Some(e) && e.text_at("message"@) == Some(
            if refused {
                "Connection refused: "@ + why@
            } else {
                why@
            },
        ),
{
    reveal_with_fuel(json::position, 2);
}

/// Speech comes at the rate that the client asks for, or at the usual one, out of the answer of the
/// service.
pub proof fn speech_comes_at_its_rate(
    body: &google::GenerateNativeTtsRequest,
    u: &web::Upstream,
    r: Option<Reply>,
    s: u16,
    t: Seq<char>,
    j: Tree,
    encoded: Seq<char>,
    pcm: Seq<u8>,
    rate: u32,
)
    requires
        call_ensures(google::native_tts_reply, (body, u), r),
        u@ == web::UpstreamView::Got(s, t, Some(j)),
        200 <= s < 300,
        google::audio_in(j) == Some(encoded),
        crate::outside::base64_strict(encoded) == Some(pcm),
        body.sample_rate == Some(rate) || body.sample_rate is None && rate == 24000,
    ensures
        r matches Some(x) ==> x@ == google::sounded(Some(pcm), rate),
{
}

/// A poll that has no answer is made again until none is left, and then the client is told that it
/// took too long.
pub proof fn polls_time_out(
    answer: &Json,
    left: u32,
    a: horde::PollStep,
    b: horde::PollStep,
    c: horde::PollStep,
)
    requires
        call_ensures(horde::caption_next, (Some(answer), left), a),
        call_ensures(horde::image_next, (Some(answer), left), b),
        call_ensures(google::video_next, (Some(answer), left), c),
        answer@ == Tree::Object(Seq::empty()),
    ensures
        left > 0 ==> a == horde::PollStep::Again((left - 1) as u32) && b == horde::PollStep::Again(
            (left - 1) as u32,
        ) && c == horde::PollStep::Again((left - 1) as u32),
        left == 0 ==> (a matches horde::PollStep::Done(x) && x@.status == 408) && (
        b matches horde::PollStep::Done(x) && x@.status == 408) && (
        c matches horde::PollStep::Done(x) && x@.status == 408),
{
    reveal_strlit("");
    reveal_strlit("done");
    reveal_strlit("faulted");
    reveal_strlit("cancelled");
    assert(""@.len() == 0 && "done"@.len() == 4 && "faulted"@.len() == 7
        && "cancelled"@.len() == 9);
    assert(answer@.get("state"@) is None && answer@.get("done"@) is None && answer@.get(
        "faulted"@,
    ) is None && answer@.get("error"@) is None);
}

/// A sound from MiniMax that was fetched is given in its format.
pub proof fn fetched_speech_is_given(
    answer: &Json,
    format: &str,
    s: u16,
    data: Vec<u8>,
    r: Reply,
)
    requires
        call_ensures(minimax::voice_fetched, (answer, format, web::Download::Got(s, Some(data))), r),
    ensures
        200 <= s < 300 ==> r@.status == 200 && r@.payload is Bytes && r@.payload->Bytes_1 == data@,
        200 <= s < 300 && format@ == "wav"@ ==> r@.payload->Bytes_0 == "audio/wav"@,
        s >= 400 ==> r@ == web::json_reply(200, answer@),
{
}

/// How talkative a character is: as the client says, or half.
pub proof fn talkativeness_is_read(
    data: &Json,
    table: &Vec<TextNumber>,
    r: Json,
    b: u64,
    s: Seq<char>,
)
    requires
        call_ensures(helpers::read_talkativeness, (data, table), r),
    ensures
        data@.get("talkativeness"@) == Some(Tree::Float(b, s)) ==> r@ == Tree::Float(b, s),
        data@.get("talkativeness"@) is None ==> r@ == helpers::half(),
        helpers::half() == Tree::Float(0x3FE0000000000000, "0.5"@),
{
}

/// How deep a prompt stands: as the client says, or four messages deep.
pub proof fn depth_is_read(
    value: &Json,
    table: &Vec<TextNumber>,
    a: Json,
    b: Json,
    bits: u64,
    s: Seq<char>,
)
    requires
        call_ensures(helpers::parse_depth_prompt_depth, (Some(value), table), a),
        call_ensures(helpers::parse_depth_prompt_depth, (None, table), b),
    ensures
        value@ == Tree::Float(bits, s) ==> a@ == Tree::Float(bits, s),
        b@ == Tree::Float(0x4010000000000000, "4.0"@),
{
}

/// A picture is taken where one is sent, and the default one where none is.
pub proof fn sent_picture_is_taken(
    image: Option<Vec<u8>>,
    default: Option<Vec<u8>>,
    r: Result<Vec<u8>, Reply>,
)
    requires
        call_ensures(helpers::read_image_source, (image, default), r),
    ensures
        image is Some && image->0@.len() > 0 ==> (r matches Ok(b) && Some(b) == image),
        image is None && default is Some ==> (r matches Ok(b) && Some(b) == default),
        image is None && default is None ==> (r matches Err(e) && e@.status == 500),
{
}

/// Images are meant where nothing is said of media.
pub proof fn media_are_images_by_default(table: &Vec<TextNumber>, a: u32, none: &Json, b: u32)
    requires
        call_ensures(images::parse_media_type, (None, table), a),
        call_ensures(images::parse_media_type, (Some(none), table), b),
        none@ is Null,
    ensures
        a == 1 && b == 1,
{
}

/// A file of a character that is imported over another keeps its name, and a copy has the extension
/// of its original.
pub proof fn names_are_preserved(
    body: &Json,
    r: Option<String>,
    wished: Seq<char>,
    preserved: &str,
    name: &str,
    taken: &Vec<String>,
    f: String,
)
    requires
        call_ensures(writes::preserved_name, (body,), r),
        call_ensures(writes::import_file_name, (Some(preserved), name, taken), f),
    ensures
        body@.text_at("preserved_name"@) == Some(wished) && wished.len() > 0 ==> json::string_opt(r)
            == paths::path_stem(wished),
        body@.get("preserved_name"@) is None ==> r is None,
        f@ == preserved@,
{
}

/// What a command printed counts where it succeeded, without the white space around it.
pub proof fn printed_text_counts(succeeded: bool, out: &str, r: Option<String>)
    requires
        call_ensures(global::git_output, (succeeded, out), r),
    ensures
        !succeeded ==> r is None,
        succeeded && text::trimmed(out@).len() > 0 ==> json::string_opt(r) == Some(
            text::trimmed(out@),
        ),
        text::trimmed(out@).len() == 0 ==> r is None,
{
}

/// Which server answers is told where that is asked for.
pub proof fn server_is_told(wanted: bool, r: Reply)
    requires
        call_ensures(global::ping_handler, (wanted,), r),
    ensures
        r@.status == 204,
        wanted ==> r@.headers == seq![("x-st-backend"@, "rust"@)],
        !wanted ==> r@.headers.len() == 0,
{
    assert(wanted ==> r@.headers =~= seq![("x-st-backend"@, "rust"@)]);
}

/// What is deleted is told as such: what was not there, what could not be removed, and what is
/// gone.
pub proof fn deletions_are_told(
    found: bool,
    removed: bool,
    a: Reply,
    b: Reply,
    c: Reply,
    d: Reply,
)
    requires
        call_ensures(assets::deletion_reply, (found, removed), a),
        call_ensures(avatars::deletion_reply, (found, removed), b),
        call_ensures(backgrounds::deletion_reply, (found, removed), c),
        call_ensures(files::deletion_reply, (found, removed), d),
    ensures
        found && removed ==> a@.status == 200 && b@.status == 200 && c@.status == 200 && d@.status
            == 200,
        found && !removed ==> a@.status == 500 && b@.status == 500 && c@.status == 500 && d@.status
            == 500,
        !found ==> a@.status == 400 && b@.status == 404 && c@.status == 400 && d@.status == 404,
{
}

/// A background is uploaded with its name and its bytes.
pub proof fn background_is_uploaded(
    data: Option<Vec<u8>>,
    name: Option<String>,
    r: Result<(String, Vec<u8>), Reply>,
)
    requires
        call_ensures(backgrounds::upload_background, (data, name), r),
    ensures
        r is Ok <==> data is Some && name is Some && data->0@.len() > 0 && name->0@.len() > 0,
        r matches Ok(x) ==> Some(x.0) == name && Some(x.1) == data,
        r matches Err(e) ==> e@.status == 400,
{
}

/// An asset that was downloaded well is kept with its bytes.
pub proof fn downloaded_asset_is_kept(s: u16, b: Vec<u8>, r: Result<Vec<u8>, Reply>)
    requires
        call_ensures(assets::downloaded, (web::Download::Got(s, Some(b)),), r),
    ensures
        200 <= s < 300 ==> (r matches Ok(x) && x@ == b@),
        !(200 <= s < 300) ==> (r matches Err(e) && e@.status == 500),
{
}

} // verus!
