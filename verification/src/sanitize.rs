//! File names that are safe to use as one component of a path.

use vstd::prelude::*;

verus! {

/// What the `sanitize-filename` crate makes of the file name `name`, with `replacement`
/// in the place of what it takes out.
pub uninterp spec fn sanitized(name: Seq<char>, replacement: Seq<char>) -> Seq<char>;

/// Whether a file name may not hold the character: `/ ? < > \ : * | "` or a control
/// character.
pub open spec fn illegal(c: char) -> bool {
    c == '/' || c == '?' || c == '<' || c == '>' || c == '\\' || c == ':' || c == '*' || c == '|'
        || c == '"' || c <= '\u{1f}' || '\u{80}' <= c <= '\u{9f}'
}

/// Whether the text holds no character that a file name may not hold.
pub open spec fn legal(s: Seq<char>) -> bool {
    forall|i: int| 0 <= i < s.len() ==> !illegal(#[trigger] s[i])
}

/// `sanitize_filename::sanitize_with_options`, with truncation and by the rules of
/// systems other than Windows: every illegal character, and a name made of dots alone, is
/// replaced, and a name of more than 255 bytes is cut. The result is a function of the name
/// and the replacement; where the replacement is legal and holds no `$`, which the crate
/// would expand, so is the result, and with an empty replacement the result is neither `.`
/// nor `..`.
#[verifier::external_body]
pub(crate) fn sanitize_filename(name: &str, replacement: &str) -> (r: String)
    ensures
        r@ == sanitized(name@, replacement@),
        legal(replacement@) && !replacement@.contains('$') ==> legal(r@),
        replacement@.len() == 0 ==> r@ != "."@ && r@ != ".."@,
{
    let options = sanitize_filename::Options { windows: false, truncate: true, replacement };
    sanitize_filename::sanitize_with_options(name, options)
}

/// The file name without the characters that a file name may not hold.
pub fn sanitize_filename_strip(name: &str) -> (r: String)
    ensures
        r@ == sanitized(name@, ""@),
        legal(r@),
        r@ != "."@,
        r@ != ".."@,
{
    proof {
        reveal_strlit("");
    }
    sanitize_filename(name, "")
}

/// Whether a file name may be used for an asset, and why not.
#[derive(Debug)]
pub struct FilenameCheck {
    pub valid: bool,
    pub message: Option<String>,
}

impl FilenameCheck {
    /// Why the name may not be used; empty where no reason is given.
    pub open spec fn reason(&self) -> Seq<char> {
        crate::secrets::or_empty(crate::json::string_opt(self.message))
    }

    /// Why the name may not be used.
    pub fn reason_text(&self) -> (r: String)
        ensures
            r@ == self.reason(),
    {
        match &self.message {
            Some(m) => m.clone(),
            None => String::new(),
        }
    }
}

} // verus!
