//! How a stored file is served: the names looked up for a request, and the
//! choice between the raw file and an HTML page that embeds it.
use vstd::prelude::*;
use vstd::string::*;
use vstd::utf8::{encode_utf8, is_ascii_chars};

use crate::media::MimeType;
use crate::text::{
    ascii_lower, before_first, before_first_chars, lemma_before_first_excludes, lemma_replace_absent,
    lemma_replace_then_pattern, lemma_split_on_join, chars_of, contains_seq, eq_ignore_ascii_case,
    occurs_at, replace_all, replace_str, split_chars, split_on, string_of, to_ascii_lowercase, trim,
    trim_chars, utf8_len_over_two, views,
};

verus! {

/// How a request asks for a file.
#[derive(Debug, Clone, Copy, PartialEq, Eq)]
pub enum ServeType {
    /// `/{id}`: raw or embedded, depending on the client.
    Default,
    /// `/{id}/preview`: always the embedding page.
    Preview,
    /// `/{id}/raw`: always the file itself.
    Raw,
}

/// What `str::to_lowercase` makes of `s`.
pub uninterp spec fn unicode_lowercase(s: Seq<char>) -> Seq<char>;

/// Calls `str::to_lowercase`, which lower-cases by the Unicode `Lowercase`
/// mapping. Claimed: the result is `unicode_lowercase` of the text, and an
/// ASCII text is lower-cased letter by letter as ASCII.
#[verifier::external_body]
fn to_lowercase(s: &str) -> (res: String)
    ensures
        res@ == unicode_lowercase(s@),
        is_ascii_chars(s@) ==> res@ == ascii_lower(s@),
{
    s.to_lowercase()
}

/// Whether `p` is a regular expression made of lower-case letters and digits
/// separated by `|`: a choice between literal words.
pub open spec fn is_literal_alternation(p: Seq<char>) -> bool {
    forall|i: int|
        0 <= i < p.len() ==> ('a' <= #[trigger] p[i] <= 'z' || '0' <= p[i] <= '9' || p[i] == '|')
}

/// Whether one of the `|`-separated words of `pattern` occurs in `text`.
pub open spec fn matches_alternation(pattern: Seq<char>, text: Seq<char>) -> bool {
    exists|i: int|
        0 <= i < split_on(pattern, '|').len() && contains_seq(
            text,
            #[trigger] split_on(pattern, '|')[i],
        )
}

/// Calls `regex::Regex::new(pattern)` and `is_match(text)`, which searches
/// `text` for a match anywhere. Claimed: for a choice between literal words
/// the search succeeds exactly when one of the words occurs in the text.
/// A pattern of at most 100 such characters always compiles: its words stay
/// within the literal limit of `regex-syntax`, far below the size limit on
/// the compiled automaton that longer patterns can exceed.
#[verifier::external_body]
fn regex_is_match(pattern: &str, text: &str) -> (res: bool)
    requires
        is_literal_alternation(pattern@),
        pattern@.len() <= 100,
    ensures
        res == matches_alternation(pattern@, text@),
{
    match regex::Regex::new(pattern) {
        Ok(re) => re.is_match(text),
        Err(_) => false,
    }
}

/// One entry of an `Accept` header as it is compared: the part before any
/// `;` parameters and before any `+` suffix, trimmed and lower-cased (an
/// ASCII entry letter by letter, any other by `str::to_lowercase`).
pub open spec fn accept_entry(piece: Seq<char>) -> Seq<char> {
    let main = trim(before_first(before_first(piece, ';'), '+'));
    if is_ascii_chars(main) {
        ascii_lower(main)
    } else {
        unicode_lowercase(main)
    }
}

/// Whether the `Accept` header names the media type `mime_text` itself
/// (entries of at most two bytes, such as `*/`, are left out; `*/*` is not a
/// match).
pub open spec fn spec_mime_supported(accept: Seq<char>, mime_text: Seq<char>) -> bool {
    exists|i: int|
        0 <= i < split_on(accept, ',').len() && encode_utf8(
            accept_entry(#[trigger] split_on(accept, ',')[i]),
        ).len() > 2 && ascii_lower(accept_entry(split_on(accept, ',')[i])) == ascii_lower(
            mime_text,
        )
}

/// Whether the client accepts the media type `mime_text` by name.
pub fn mime_supported(accept: &str, mime_text: &str) -> (res: bool)
    ensures
        res == spec_mime_supported(accept@, mime_text@),
{
    let text = chars_of(accept);
    let target = chars_of(mime_text);
    let pieces = split_chars(&text, ',');
    let ghost ps = split_on(accept@, ',');
    assert(pieces@.len() == ps.len() && forall|k: int|
        0 <= k < ps.len() ==> #[trigger] ps[k] == pieces@[k]@) by {
        assert forall|k: int| 0 <= k < ps.len() implies #[trigger] ps[k] == pieces@[k]@ by {
            assert(views(pieces@)[k] == pieces@[k]@);
        }
    }
    let mut i: usize = 0;
    while i < pieces.len()
        invariant
            ps == split_on(accept@, ','),
            pieces@.len() == ps.len(),
            forall|k: int| 0 <= k < ps.len() ==> #[trigger] ps[k] == pieces@[k]@,
            target@ == mime_text@,
            i <= pieces.len(),
            forall|k: int|
                0 <= k < i ==> !(encode_utf8(accept_entry(#[trigger] ps[k])).len() > 2
                    && ascii_lower(accept_entry(ps[k])) == ascii_lower(mime_text@)),
        decreases pieces.len() - i,
    {
        let main = before_first_chars(&pieces[i], ';');
        let main = before_first_chars(&main, '+');
        let main = trim_chars(&main);
        let main = string_of(&main);
        let lowered = to_lowercase(main.as_str());
        let entry = chars_of(lowered.as_str());
        assert(ps[i as int] == pieces@[i as int]@);
        assert(entry@ == accept_entry(ps[i as int]));
        if utf8_len_over_two(&entry) && eq_ignore_ascii_case(&entry, &target) {
            return true;
        }
        i = i + 1;
    }
    false
}

/// Whether a request is answered with the raw file rather than with the page
/// that embeds it.
///
/// A preview is never raw and a raw request always is. Otherwise the client
/// is known by its lower-cased `User-Agent` (`default` when there is none):
/// Discord gets videos and images raw; WhatsApp and Halloy get images raw;
/// any other client gets the file raw when its `Accept` header (`*/*` when
/// there is none) names the file's media type and it is not a web browser.
pub open spec fn spec_is_raw(
    serve_type: ServeType,
    user_agent: Option<Seq<char>>,
    accept: Option<Seq<char>>,
    mime: (Seq<char>, Seq<char>),
) -> bool {
    match serve_type {
        ServeType::Preview => false,
        ServeType::Raw => true,
        ServeType::Default => {
            let agent = ascii_lower(
                match user_agent {
                    Some(u) => u,
                    None => "default"@,
                },
            );
            let accepted = match accept {
                Some(a) => a,
                None => "*/*"@,
            };
            let top = ascii_lower(mime.1);
            if matches_alternation("discordbot"@, agent) {
                top == "video"@ || top == "image"@
            } else if matches_alternation("whatsapp|halloy"@, agent) {
                top == "image"@
            } else {
                spec_mime_supported(accepted, mime.0) && !matches_alternation(
                    "mozilla|firefox|chrome|chromium"@,
                    agent,
                )
            }
        },
    }
}

/// Whether a request for a file of media type `mime` is answered with the raw
/// file, given the request's `User-Agent` and `Accept` headers.
pub fn is_raw(
    serve_type: ServeType,
    user_agent: Option<&str>,
    accept: Option<&str>,
    mime: &MimeType,
) -> (res: bool)
    ensures
        res == spec_is_raw(
            serve_type,
            match user_agent {
                Some(u) => Some(u@),
                None => None,
            },
            match accept {
                Some(a) => Some(a@),
                None => None,
            },
            mime.spec_pair(),
        ),
{
    match serve_type {
        ServeType::Preview => false,
        ServeType::Raw => true,
        ServeType::Default => {
            let agent = match user_agent {
                Some(u) => to_ascii_lowercase(u),
                None => to_ascii_lowercase("default"),
            };
            let supported = match accept {
                Some(a) => mime_supported(a, mime.text.as_str()),
                None => mime_supported("*/*", mime.text.as_str()),
            };
            let top = to_ascii_lowercase(mime.top.as_str());
            proof {
                reveal_strlit("discordbot");
                reveal_strlit("whatsapp|halloy");
                reveal_strlit("mozilla|firefox|chrome|chromium");
            }
            if regex_is_match("discordbot", agent.as_str()) {
                top == String::from_str("video") || top == String::from_str("image")
            } else if regex_is_match("whatsapp|halloy", agent.as_str()) {
                top == String::from_str("image")
            } else {
                supported && !regex_is_match("mozilla|firefox|chrome|chromium", agent.as_str())
            }
        },
    }
}

/// The page address of a file, from the full address of the request: the
/// request address with every `/preview` removed.
pub open spec fn spec_page_url(full_url: Seq<char>) -> Seq<char> {
    replace_all(full_url, "/preview"@, ""@)
}

/// The addresses of a file's page and of its raw content, from the full
/// address of the request.
pub fn serve_urls(full_url: &str) -> (res: (String, String))
    ensures
        res.0@ == spec_page_url(full_url@),
        res.1@ == spec_page_url(full_url@) + "/raw"@,
{
    proof {
        reveal_strlit("/preview");
    }
    let url = replace_str(full_url, "/preview", "");
    let mut raw = url.clone();
    raw.append("/raw");
    (url, raw)
}

/// The hash that names a stored file, from the requested id: the part before
/// the first `.`, so that `hash` and `hash.ext` name the same file.
pub fn hash_of_id(id: &str) -> (res: String)
    ensures
        res@ == before_first(id@, '.'),
{
    let v = chars_of(id);
    let h = before_first_chars(&v, '.');
    string_of(&h)
}

/// The name of the metadata file kept beside a stored file.
pub open spec fn spec_meta_file_name(hash: Seq<char>) -> Seq<char> {
    hash + ".meta.toml"@
}

/// The name of the metadata file of the file named by `hash`.
pub fn meta_file_name(hash: &str) -> (res: String)
    ensures
        res@ == spec_meta_file_name(hash@),
{
    let mut res = String::from_str(hash);
    res.append(".meta.toml");
    res
}

/// A web browser (an agent naming Mozilla, Firefox, Chrome or Chromium that
/// is not Discord, WhatsApp or Halloy) is always shown the embedding page for
/// a plain request, whatever its `Accept` header says.
pub proof fn lemma_browsers_get_page(
    user_agent: Seq<char>,
    accept: Option<Seq<char>>,
    mime: (Seq<char>, Seq<char>),
)
    requires
        matches_alternation("mozilla|firefox|chrome|chromium"@, ascii_lower(user_agent)),
        !matches_alternation("discordbot"@, ascii_lower(user_agent)),
        !matches_alternation("whatsapp|halloy"@, ascii_lower(user_agent)),
    ensures
        !spec_is_raw(ServeType::Default, Some(user_agent), accept, mime),
{
}

/// The hash read from a requested id holds no `.`, so the metadata file name
/// made from it cannot hold a `..` that leads out of the media directory.
pub proof fn lemma_hash_has_no_dot(id: Seq<char>)
    ensures
        forall|i: int|
            0 <= i < before_first(id, '.').len() ==> #[trigger] before_first(id, '.')[i] != '.',
        !contains_seq(before_first(id, '.'), ".."@),
{
    reveal_strlit("..");
    lemma_before_first_excludes(id, '.');
    let h = before_first(id, '.');
    if contains_seq(h, ".."@) {
        let i = choose|i: int| #[trigger] occurs_at(h, ".."@, i);
        assert(h.subrange(i, i + 2)[0] == h[i]);
    }
}

/// The `Accept` check looks at every entry: a header made of two parts
/// joined at a comma names the media type exactly when one of the parts
/// does, so an entry naming it counts wherever it stands in the list.
pub proof fn lemma_mime_supported_any_entry(a: Seq<char>, b: Seq<char>, mime_text: Seq<char>)
    ensures
        spec_mime_supported(a + seq![','] + b, mime_text) == (spec_mime_supported(a, mime_text)
            || spec_mime_supported(b, mime_text)),
{
    lemma_split_on_join(a, b, ',');
    let pa = split_on(a, ',');
    let pb = split_on(b, ',');
    let ps = split_on(a + seq![','] + b, ',');
    assert(ps == pa + pb);
    if spec_mime_supported(a + seq![','] + b, mime_text) {
        let i = choose|i: int|
            0 <= i < ps.len() && encode_utf8(accept_entry(#[trigger] ps[i])).len() > 2
                && ascii_lower(accept_entry(ps[i])) == ascii_lower(mime_text);
        if i < pa.len() {
            assert(ps[i] == pa[i]);
        } else {
            assert(ps[i] == pb[i - pa.len()]);
        }
    }
    if spec_mime_supported(a, mime_text) {
        let i = choose|i: int|
            0 <= i < pa.len() && encode_utf8(accept_entry(#[trigger] pa[i])).len() > 2
                && ascii_lower(accept_entry(pa[i])) == ascii_lower(mime_text);
        assert(ps[i] == pa[i]);
    }
    if spec_mime_supported(b, mime_text) {
        let i = choose|i: int|
            0 <= i < pb.len() && encode_utf8(accept_entry(#[trigger] pb[i])).len() > 2
                && ascii_lower(accept_entry(pb[i])) == ascii_lower(mime_text);
        assert(ps[pa.len() + i] == pb[i]);
    }
}

/// A request address holding no `/preview` is its own page address, and its
/// raw address is that with `/raw` appended.
pub proof fn lemma_page_url_plain(full_url: Seq<char>)
    requires
        !contains_seq(full_url, "/preview"@),
    ensures
        spec_page_url(full_url) == full_url,
        spec_page_url(full_url) + "/raw"@ == full_url + "/raw"@,
{
    reveal_strlit("/preview");
    lemma_replace_absent(full_url, "/preview"@, ""@);
}

/// Asking for the preview of an address gives the same page address as
/// asking for the address itself.
pub proof fn lemma_page_url_preview(full_url: Seq<char>)
    ensures
        spec_page_url(full_url + "/preview"@) == spec_page_url(full_url),
{
    reveal_strlit("/preview");
    reveal_strlit("");
    let pat = "/preview"@;
    assert forall|k: int| 0 < k < pat.len() implies #[trigger] pat[k] != pat[0] by {}
    lemma_replace_then_pattern(full_url, pat, ""@);
    assert(spec_page_url(full_url) + ""@ =~= spec_page_url(full_url));
}

} // verus!
