//! Media types of stored files, as `mime_guess` guesses them from a file
//! extension or a path.
use vstd::prelude::*;

verus! {

/// A media type such as `image/png`: its full text, and its top-level type
/// (`image`).
#[derive(Debug, PartialEq, Eq)]
pub struct MimeType {
    /// The media type as it is written, `mime::Mime`'s `to_string()`.
    pub text: String,
    /// The part before the `/`, `mime::Mime`'s `type_()`.
    pub top: String,
}

impl MimeType {
    pub open spec fn spec_pair(&self) -> (Seq<char>, Seq<char>) {
        (self.text@, self.top@)
    }
}

/// What `mime_guess::from_ext(ext).first()` gives for `ext`: the text and
/// the top-level type of the first media type guessed, if any.
pub uninterp spec fn mime_guess_for_ext(ext: Seq<char>) -> Option<(Seq<char>, Seq<char>)>;

/// What `mime_guess::from_path(path).first_or_octet_stream()` gives for
/// `path`, as text and top-level type.
pub uninterp spec fn mime_guess_for_path(path: Seq<char>) -> (Seq<char>, Seq<char>);

/// Calls `mime_guess::from_ext(ext).first()`, which looks the extension up
/// in the crate's fixed table. Claimed: the result is `mime_guess_for_ext`
/// of the extension, and there is none for the empty extension (`from_ext`
/// returns an empty guess for it).
#[verifier::external_body]
fn mime_for_ext(ext: &str) -> (res: Option<MimeType>)
    ensures
        res is Some <==> mime_guess_for_ext(ext@) is Some,
        res is Some ==> mime_guess_for_ext(ext@) == Some(res->0.spec_pair()),
        ext@.len() == 0 ==> res is None,
{
    match mime_guess::from_ext(ext).first() {
        Some(m) => Some(MimeType { text: m.to_string(), top: m.type_().as_str().to_string() }),
        None => None,
    }
}

/// Calls `mime_guess::from_path(path).first_or_octet_stream()`, which guesses
/// from the path's extension and falls back to `application/octet-stream`.
/// Claimed: the result is `mime_guess_for_path` of the path.
#[verifier::external_body]
fn mime_for_path(path: &str) -> (res: MimeType)
    ensures
        res.spec_pair() == mime_guess_for_path(path@),
{
    let m = mime_guess::from_path(path).first_or_octet_stream();
    MimeType { text: m.to_string(), top: m.type_().as_str().to_string() }
}

/// The media type that a stored file is served with: the one guessed from
/// its recorded extension, or else the one guessed from its path.
pub open spec fn spec_select_mime(ext: Seq<char>, path: Seq<char>) -> (Seq<char>, Seq<char>) {
    match mime_guess_for_ext(ext) {
        Some(m) => m,
        None => mime_guess_for_path(path),
    }
}

/// The media type of a stored file with extension `ext` at `path`.
pub fn select_mime(ext: &str, path: &str) -> (res: MimeType)
    ensures
        res.spec_pair() == spec_select_mime(ext@, path@),
{
    match mime_for_ext(ext) {
        Some(m) => m,
        None => mime_for_path(path),
    }
}

} // verus!
