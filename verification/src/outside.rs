//! Calls into other crates. What each is relied on for stands in its contract.

use vstd::prelude::*;

verus! {

/// What `Regex::replace_all` makes of `text` with the expression `pattern` and the
/// replacement `with`; nothing where `pattern` is no expression.
pub uninterp spec fn regex_replaced(
    pattern: Seq<char>,
    text: Seq<char>,
    with: Seq<char>,
) -> Option<Seq<char>>;

/// `regex::Regex::new` and `Regex::replace_all`: the text with every match of the expression
/// replaced, where the expression is valid. The result is a function of the expression, the
/// text and the replacement.
#[verifier::external_body]
pub(crate) fn replace_matches(pattern: &str, text: &str, with: &str) -> (r: Option<String>)
    ensures
        crate::json::string_opt(r) == regex_replaced(pattern@, text@, with@),
{
    regex::Regex::new(pattern).ok().map(|e| e.replace_all(text, with).into_owned())
}

/// Whether the expression `pattern` matches somewhere in `text`, ignoring case; nothing
/// where `pattern` is no expression.
pub uninterp spec fn regex_found(pattern: Seq<char>, text: Seq<char>) -> Option<bool>;

/// `regex::RegexBuilder` with `case_insensitive`, and `Regex::is_match`: whether the
/// expression matches somewhere in the text, where the expression is valid. The result is a
/// function of the expression and the text.
#[verifier::external_body]
pub(crate) fn matches_ignoring_case(pattern: &str, text: &str) -> (r: Option<bool>)
    ensures
        r == regex_found(pattern@, text@),
{
    let built = regex::RegexBuilder::new(pattern).case_insensitive(true).build();
    built.ok().map(|e| e.is_match(text))
}

/// The bytes that a base64 text stands for, read leniently; nothing where it stands for
/// none.
pub uninterp spec fn base64_lenient(text: Seq<char>) -> Option<Seq<u8>>;

/// `base64`'s `GeneralPurpose` engine with the standard alphabet, trailing bits allowed and
/// padding optional: the bytes that the text stands for, where it stands for some. The
/// result is a function of the text, and the base64 text of bytes, with its padding, stands for
/// those bytes.
#[verifier::external_body]
pub(crate) fn decode_base64_lenient(text: &str) -> (r: Option<Vec<u8>>)
    ensures
        r matches Some(v) ==> base64_lenient(text@) == Some(v@),
        r is None ==> base64_lenient(text@) is None,
        crate::base64_text::reads_back(text@, r),
{
    let config = base64::engine::general_purpose::GeneralPurposeConfig::new()
        .with_decode_allow_trailing_bits(true)
        .with_decode_padding_mode(base64::engine::DecodePaddingMode::Indifferent);
    let engine = base64::engine::GeneralPurpose::new(&base64::alphabet::STANDARD, config);
    base64::Engine::decode(&engine, text).ok()
}

/// The bytes that a base64 text stands for, read strictly; nothing where it stands for none.
pub uninterp spec fn base64_strict(text: Seq<char>) -> Option<Seq<u8>>;

/// `base64`'s engine `STANDARD`: the bytes that the text stands for, where it is padded
/// base64 of the standard alphabet. The result is a function of the text.
#[verifier::external_body]
pub(crate) fn decode_base64_strict(text: &str) -> (r: Option<Vec<u8>>)
    ensures
        r matches Some(v) ==> base64_strict(text@) == Some(v@),
        r is None ==> base64_strict(text@) is None,
{
    base64::Engine::decode(&base64::engine::general_purpose::STANDARD, text).ok()
}

/// The host of an address, where it has one; nothing where the text is no address.
pub uninterp spec fn url_host(text: Seq<char>) -> Option<Option<Seq<char>>>;

/// The text inside two options.
pub open spec fn nested_text(o: Option<Option<String>>) -> Option<Option<Seq<char>>> {
    match o {
        Some(h) => Some(crate::json::string_opt(h)),
        None => None,
    }
}

/// `url::Url::parse` and `Url::host_str`: the host of the address, where the text is an
/// address. The result is a function of the text.
#[verifier::external_body]
pub(crate) fn parse_url(text: &str) -> (r: Option<Option<String>>)
    ensures
        nested_text(r) == url_host(text@),
{
    url::Url::parse(text).ok().map(|u| u.host_str().map(|h| h.to_owned()))
}

/// The media type that the name of a file suggests.
pub uninterp spec fn media_type(path: Seq<char>) -> Seq<char>;

/// `mime_guess::from_path` and `first_or_octet_stream`: the media type that the extension of
/// the path suggests. The result is a function of the path.
#[verifier::external_body]
pub(crate) fn guess_media_type(path: &str) -> (r: String)
    ensures
        r@ == media_type(path@),
{
    mime_guess::from_path(path).first_or_octet_stream().to_string()
}

/// The number of entries of a ZIP archive; nothing where the bytes are no archive.
pub uninterp spec fn zip_count(data: Seq<u8>) -> Option<usize>;

/// `zip::ZipArchive::new` and `len`: the number of entries, where the bytes are an archive.
/// The result is a function of the bytes.
#[verifier::external_body]
pub(crate) fn count_zip_entries(data: &[u8]) -> (r: Option<usize>)
    ensures
        r == zip_count(data@),
{
    zip::ZipArchive::new(std::io::Cursor::new(data)).ok().map(|a| a.len())
}

/// The name of an entry of a ZIP archive, where the entry can be opened.
pub uninterp spec fn zip_name(data: Seq<u8>, index: usize) -> Option<Seq<char>>;

/// `zip::ZipArchive::by_index` and `ZipFile::name`: the name of the entry, where the bytes are
/// an archive with such an entry and it can be opened. The result is a function of the bytes
/// and the number of the entry.
#[verifier::external_body]
pub(crate) fn zip_entry_name(data: &[u8], index: usize) -> (r: Option<String>)
    ensures
        crate::json::string_opt(r) == zip_name(data@, index),
{
    let mut archive = zip::ZipArchive::new(std::io::Cursor::new(data)).ok()?;
    let entry = archive.by_index(index).ok()?;
    Some(entry.name().to_owned())
}

/// The contents of an entry of a ZIP archive, where they can be read.
pub uninterp spec fn zip_content(data: Seq<u8>, index: usize) -> Option<Seq<u8>>;

/// `zip::ZipArchive::by_index` and reading the `ZipFile` to its end: the contents of the
/// entry, where the bytes are an archive with such an entry and it can be read. The result is
/// a function of the bytes and the number of the entry.
#[verifier::external_body]
pub(crate) fn zip_entry_content(data: &[u8], index: usize) -> (r: Option<Vec<u8>>)
    ensures
        r matches Some(v) ==> zip_content(data@, index) == Some(v@),
        r is None ==> zip_content(data@, index) is None,
{
    let mut archive = zip::ZipArchive::new(std::io::Cursor::new(data)).ok()?;
    let mut entry = archive.by_index(index).ok()?;
    let mut content = Vec::new();
    std::io::Read::read_to_end(&mut entry, &mut content).ok()?;
    Some(content)
}

/// The milliseconds since 1970 of a date and time in the format of RFC 3339; nothing where
/// the text is none.
pub uninterp spec fn rfc3339_millis(text: Seq<char>) -> Option<i64>;

/// `chrono::DateTime::parse_from_rfc3339` and `timestamp_millis`: the milliseconds since 1970,
/// where the text is a date and time. The result is a function of the text.
#[verifier::external_body]
pub(crate) fn parse_rfc3339(text: &str) -> (r: Option<i64>)
    ensures
        r == rfc3339_millis(text@),
{
    chrono::DateTime::parse_from_rfc3339(text).ok().map(|d| d.timestamp_millis())
}

/// The time `secs` seconds and `nanos` nanoseconds after the beginning of 1970 in the format
/// of RFC 3339, to the millisecond and in UTC; nothing where it is out of range.
pub uninterp spec fn rfc3339_text(secs: i64, nanos: u32) -> Option<Seq<char>>;

/// `chrono::DateTime::from_timestamp` and `to_rfc3339_opts`, to the millisecond and with `Z`
/// for UTC: the text of the time, where it is in range. The result is a function of the
/// seconds and nanoseconds.
#[verifier::external_body]
pub(crate) fn format_rfc3339(secs: i64, nanos: u32) -> (r: Option<String>)
    ensures
        crate::json::string_opt(r) == rfc3339_text(secs, nanos),
{
    let time = chrono::DateTime::from_timestamp(secs, nanos)?;
    Some(time.to_rfc3339_opts(chrono::SecondsFormat::Millis, true))
}

/// The time that many milliseconds after the beginning of 1970 in the format of RFC 3339 and
/// in UTC; nothing where it is out of range.
pub uninterp spec fn millis_text(millis: i64) -> Option<Seq<char>>;

/// `chrono::DateTime::from_timestamp_millis` and `to_rfc3339`: the text of the time, where it
/// is in range. The result is a function of the milliseconds.
#[verifier::external_body]
pub(crate) fn format_millis(millis: i64) -> (r: Option<String>)
    ensures
        crate::json::string_opt(r) == millis_text(millis),
{
    chrono::DateTime::from_timestamp_millis(millis).map(|d| d.to_rfc3339())
}

/// The groups of the first match of the expression `pattern` in `text`, the whole match
/// first; nothing where there is no match or `pattern` is no expression.
pub uninterp spec fn regex_groups(pattern: Seq<char>, text: Seq<char>) -> Option<
    Seq<Option<Seq<char>>>,
>;

/// The texts behind options.
pub open spec fn groups_view(v: Seq<Option<String>>) -> Seq<Option<Seq<char>>> {
    Seq::new(v.len(), |i: int| crate::json::string_opt(v[i]))
}

/// `regex::Regex::new`, `Regex::captures` and `Captures::iter`: the groups of the first match,
/// the whole match first, where the expression is valid and matches. The result is a function
/// of the expression and the text; the whole match is among the groups.
#[verifier::external_body]
pub(crate) fn capture_groups(pattern: &str, text: &str) -> (r: Option<Vec<Option<String>>>)
    ensures
        r matches Some(v) ==> regex_groups(pattern@, text@) == Some(groups_view(v@)) && v@.len()
            > 0 && v@[0] is Some,
        r is None ==> regex_groups(pattern@, text@) is None,
{
    let expression = regex::Regex::new(pattern).ok()?;
    let captures = expression.captures(text)?;
    Some(captures.iter().map(|g| g.map(|m| m.as_str().to_owned())).collect())
}

/// Whether `urlencoding::encode` leaves a byte as it is: letters, digits and `-`, `_`, `.`,
/// `~`.
pub open spec fn unreserved(b: u8) -> bool {
    48 <= b <= 57 || 65 <= b <= 90 || 97 <= b <= 122 || b == 45 || b == 95 || b == 46 || b == 126
}

/// Bytes with those that are not left as they are written in hexadecimal behind a percent
/// sign.
pub open spec fn percent_encoded(s: Seq<u8>) -> Seq<char>
    decreases s.len(),
{
    if s.len() == 0 {
        Seq::empty()
    } else {
        let b = s.last();
        percent_encoded(s.drop_last()) + if unreserved(b) {
            seq![b as char]
        } else {
            seq![
                '%',
                crate::text::hex_char(b as int / 16),
                crate::text::hex_char(b as int % 16),
            ]
        }
    }
}

/// `urlencoding::encode`: the UTF-8 bytes of the text, each that is no letter, digit, `-`,
/// `_`, `.` or `~` written as a percent sign and two large hexadecimal digits.
#[verifier::external_body]
pub(crate) fn url_encode(text: &str) -> (r: String)
    ensures
        r@ == percent_encoded(vstd::utf8::encode_utf8(text@)),
{
    urlencoding::encode(text).into_owned()
}

/// The text that gzipped bytes hold; nothing where they hold none.
pub uninterp spec fn gunzipped(data: Seq<u8>) -> Option<Seq<char>>;

/// `flate2::read::GzDecoder` read to its end as text: the text that the bytes hold, where
/// they are gzipped UTF-8. The result is a function of the bytes.
#[verifier::external_body]
pub(crate) fn gunzip_text(data: &[u8]) -> (r: Option<String>)
    ensures
        crate::json::string_opt(r) == gunzipped(data@),
{
    let mut decoder = flate2::read::GzDecoder::new(data);
    let mut out = String::new();
    std::io::Read::read_to_string(&mut decoder, &mut out).ok()?;
    Some(out)
}

/// The SHA-256 digest of bytes in hexadecimal.
pub uninterp spec fn sha256_of(data: Seq<u8>) -> Seq<char>;

/// `sha2::Sha256`'s `Digest::digest`, shown with small hexadecimal digits: the digest of the
/// bytes. The result is a function of the bytes.
#[verifier::external_body]
pub(crate) fn sha256_digest(data: &[u8]) -> (r: String)
    ensures
        r@ == sha256_of(data@),
{
    format!("{:x}", <sha2::Sha256 as sha2::Digest>::digest(data))
}

/// `uuid::Uuid::new_v4`, as its bytes: sixteen bytes that the operating system draws at random,
/// but for the version, which is four, in the upper half of the seventh and the variant, two, in
/// the upper two bits of the ninth. Which bytes they are is left to chance. Where
/// the operating system has no random bytes to give, the call panics.
#[verifier::external_body]
pub(crate) fn random_uuid() -> (r: Vec<u8>)
    ensures
        r@.len() == 16,
        r@[6] as int / 16 == 4,
        r@[8] as int / 64 == 2,
{
    uuid::Uuid::new_v4().into_bytes().to_vec()
}

/// The media type that the name of a file suggests, where it suggests one.
pub uninterp spec fn known_media_type(path: Seq<char>) -> Option<Seq<char>>;

/// `mime_guess::from_path` and `first_raw`: the media type that the extension of the path
/// suggests, where it suggests one. The result is a function of the path.
#[verifier::external_body]
pub(crate) fn guess_known_media_type(path: &str) -> (r: Option<String>)
    ensures
        crate::json::string_opt(r) == known_media_type(path@),
{
    mime_guess::from_path(path).first_raw().map(|t| t.to_owned())
}

/// Whether a byte may stand in the value of a header: it is no control character but the tab.
pub open spec fn header_byte(b: u8) -> bool {
    b >= 32 && b != 127 || b == 9
}

/// `reqwest::header::HeaderValue::from_str`: whether the text can be the value of a header,
/// which it can where each of its UTF-8 bytes is one that may stand there.
#[verifier::external_body]
pub(crate) fn is_header_value(text: &str) -> (r: bool)
    ensures
        r == forall|i: int|
            0 <= i < vstd::utf8::encode_utf8(text@).len() ==> header_byte(
                #[trigger] vstd::utf8::encode_utf8(text@)[i],
            ),
{
    reqwest::header::HeaderValue::from_str(text).is_ok()
}

/// The media type of the kind of image that bytes begin like; nothing where they begin like
/// none.
pub uninterp spec fn image_media_type(data: Seq<u8>) -> Option<Seq<char>>;

/// `image::guess_format` and `ImageFormat::to_mime_type`: the media type of the kind of image
/// that the bytes begin like, where they begin like one. The result is a function of the
/// bytes.
#[verifier::external_body]
pub(crate) fn guess_image_type(data: &[u8]) -> (r: Option<String>)
    ensures
        crate::json::string_opt(r) == image_media_type(data@),
{
    image::guess_format(data).ok().map(|f| f.to_mime_type().to_owned())
}

/// The width and the height of the image that bytes hold; nothing where they hold none.
pub uninterp spec fn image_size(data: Seq<u8>) -> Option<(u32, u32)>;

/// `image::load_from_memory`: the width and the height of the image that the bytes hold,
/// where it can be decoded. The result is a function of the bytes.
#[verifier::external_body]
pub(crate) fn measure(data: &[u8]) -> (r: Option<(u32, u32)>)
    ensures
        r == image_size(data@),
{
    image::load_from_memory(data).ok().map(|i| (i.width(), i.height()))
}

/// Whether the image that bytes hold may come out as a pixel, in parts of red, green and blue,
/// when it is shrunk to one. It is no function of the bytes: the filter works with the floating
/// point of the machine.
pub uninterp spec fn may_shrink_to(data: Seq<u8>, pixel: (u8, u8, u8)) -> bool;

/// `image::DynamicImage::resize_exact` to a single pixel with the Lanczos filter: the
/// parts of red, green and blue of that pixel, where the image can be decoded. The pixel is one
/// that the image may be shrunk to; which of them is not stated, since the precision of the
/// filter's sine is left to the machine.
#[verifier::external_body]
pub(crate) fn average_pixel(data: &[u8]) -> (r: Option<(u8, u8, u8)>)
    ensures
        r is Some <==> image_size(data@) is Some,
        r matches Some(p) ==> may_shrink_to(data@, p),
{
    let picture = image::load_from_memory(data).ok()?;
    let tiny = picture.resize_exact(1, 1, image::imageops::FilterType::Lanczos3).to_rgb8();
    let pixel = tiny.get_pixel(0, 0);
    Some((pixel[0], pixel[1], pixel[2]))
}

} // verus!
