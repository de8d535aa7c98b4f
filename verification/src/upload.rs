//! How an upload is named and stored: the file name the uploader sent, the
//! temporary file, the content hash that names the stored file, and the
//! extension it is stored under.
use rand::TryRng;
use sha2::Digest;
use vstd::prelude::*;
use vstd::string::*;

use crate::encoding::{
    base64_url_encode, base64_url_nopad, hex_encode, hex_lower, is_base64_url_char,
    lemma_base64_url_nopad,
};
use crate::extensions::{all_visible_ascii, ascii_text, header_to_str, spec_with_ext, StringExtraTrait};
use crate::serve::spec_meta_file_name;
use crate::text::{ascii_lower, before_first, lemma_before_first_take, chars_of, slice_chars, string_of, to_ascii_lowercase};

verus! {

#[verifier::external_type_specification]
#[verifier::external_body]
pub struct ExSha256(sha2::Sha256);

/// The bytes a `sha2::Sha256` hasher has been fed so far.
pub uninterp spec fn sha256_input(h: sha2::Sha256) -> Seq<u8>;

/// The SHA-256 digest of `data`.
pub uninterp spec fn sha256(data: Seq<u8>) -> Seq<u8>;

/// Calls `sha2::Sha256::new`. Claimed: the new hasher has been fed nothing.
#[verifier::external_body]
fn sha256_new() -> (h: sha2::Sha256)
    ensures
        sha256_input(h) == Seq::<u8>::empty(),
{
    sha2::Sha256::new()
}

/// Calls `Digest::update` on a `sha2::Sha256`. Claimed: the hasher has now
/// been fed `data` after what it had before.
#[verifier::external_body]
fn sha256_update(h: &mut sha2::Sha256, data: &[u8])
    ensures
        sha256_input(*final(h)) == sha256_input(*old(h)) + data@,
{
    h.update(data);
}

/// Calls `Digest::finalize` on a `sha2::Sha256`. Claimed: the result is the
/// 32-byte SHA-256 digest of all the bytes the hasher was fed.
#[verifier::external_body]
fn sha256_finalize(h: sha2::Sha256) -> (res: Vec<u8>)
    ensures
        res@ == sha256(sha256_input(h)),
        res@.len() == 32,
{
    h.finalize().to_vec()
}

/// The name of stored content with the given digest: the first twelve
/// characters of the digest's URL-safe base64.
pub open spec fn spec_content_id(digest: Seq<u8>) -> Seq<char> {
    base64_url_nopad(digest).take(12)
}

/// The name of stored content with the given digest. The digest must be long
/// enough to give twelve characters.
pub fn content_id(digest: &[u8]) -> (res: String)
    requires
        9 <= digest@.len() <= usize::MAX / 2,
    ensures
        res@ == spec_content_id(digest@),
{
    proof {
        lemma_base64_url_nopad(digest@);
    }
    let encoded = base64_url_encode(digest);
    let chars = chars_of(encoded.as_str());
    let head = slice_chars(&chars, 0, 12);
    string_of(&head)
}

/// The SHA-256 hash of an upload, fed chunk by chunk as the upload arrives.
pub struct ContentHasher {
    hasher: sha2::Sha256,
}

impl ContentHasher {
    /// All the bytes fed so far.
    pub closed spec fn data(&self) -> Seq<u8> {
        sha256_input(self.hasher)
    }

    /// A hasher that has been fed nothing.
    pub fn new() -> (res: ContentHasher)
        ensures
            res.data() == Seq::<u8>::empty(),
    {
        ContentHasher { hasher: sha256_new() }
    }

    /// Feeds the next chunk of the upload.
    pub fn update(&mut self, chunk: &[u8])
        ensures
            final(self).data() == old(self).data() + chunk@,
    {
        sha256_update(&mut self.hasher, chunk);
    }

    /// The name of the content fed: the content id of its 32-byte SHA-256
    /// digest, twelve URL-safe base64 characters.
    pub fn finish(self) -> (res: String)
        ensures
            res@ == spec_content_id(sha256(self.data())),
            sha256(self.data()).len() == 32,
            res@.len() == 12,
            forall|i: int|
                0 <= i < 12 ==> is_base64_url_char(#[trigger] res@[i]) && res@[i] != '.',
    {
        let digest = sha256_finalize(self.hasher);
        proof {
            lemma_content_id_chars(digest@);
        }
        content_id(digest.as_slice())
    }
}

/// Fills eight bytes from `rand::rngs::SysRng` with `TryRng::try_fill_bytes`,
/// which reads the operating system's random source and reports its failure
/// as an error instead of panicking. Nothing is claimed of the bytes, nor of
/// whether the source answers.
#[verifier::external_body]
fn random_bytes() -> (res: Option<[u8; 8]>) {
    let mut bytes = [0u8; 8];
    match rand::rngs::SysRng.try_fill_bytes(&mut bytes) {
        Ok(()) => Some(bytes),
        Err(_) => None,
    }
}

/// The path of the temporary file that an upload is written to, named by
/// eight random bytes in hex.
pub open spec fn spec_temp_file_path(random: Seq<u8>) -> Seq<char> {
    "./media/"@ + hex_lower(random) + ".tmp"@
}

/// The path of the temporary file named by the given random bytes.
pub fn temp_file_path(random: &[u8; 8]) -> (res: String)
    ensures
        res@ == spec_temp_file_path(random@),
{
    let mut res = String::from_str("./media/");
    let hex = hex_encode(random.as_slice());
    res.append(hex.as_str());
    res.append(".tmp");
    res
}

/// A fresh path for the temporary file of an upload, named by eight random
/// bytes; `None` when the system's random source fails.
pub fn new_temp_file_path() -> (res: Option<String>)
    ensures
        res matches Some(p) ==> exists|random: Seq<u8>|
            random.len() == 8 && p@ == spec_temp_file_path(random),
{
    match random_bytes() {
        Some(random) => Some(temp_file_path(&random)),
        None => None,
    }
}

/// What `bytesize` shows for a size in bytes, in SI units
/// (`ByteSize::b(n).display().si()`).
pub uninterp spec fn si_size_text(size_bytes: u64) -> Seq<char>;

/// Calls `ByteSize::b(size_bytes).display().si().to_string()`, which writes
/// the size in SI units. Claimed: the text is `si_size_text` of the size.
#[verifier::external_body]
fn bytesize_si(size_bytes: u64) -> (res: String)
    ensures
        res@ == si_size_text(size_bytes),
{
    bytesize::ByteSize::b(size_bytes).display().si().to_string()
}

/// The size of an upload as it is reported, in SI units.
pub fn size_text(size_bytes: u64) -> (res: String)
    ensures
        res@ == si_size_text(size_bytes),
{
    bytesize_si(size_bytes)
}

/// What `infer::get(bytes)` recognises the bytes as, by its extension.
pub uninterp spec fn inferred_extension(bytes: Seq<u8>) -> Option<Seq<char>>;

/// Calls `infer::get(bytes)` and takes the extension of the type found,
/// which `infer` decides from the bytes' magic numbers. Claimed: the result
/// is `inferred_extension` of the bytes, and the call returns on every input.
/// For bytes with the OLE signature `infer` opens them with
/// `cfb::CompoundFile::open`, whose reading path (header, DIFAT, FAT,
/// directory and MiniFAT) answers malformed data with an error, not a
/// panic: it checks every sector and entry index before use, rejects chains
/// and trees that revisit a sector or entry, and only `debug_assert`s
/// conditions that its own checks already guarantee. The claim needs a
/// 64-bit `usize`, which `requires` asks for: the ZSTD and LZ4 matchers add
/// a 32-bit frame length read from the input to 8 in `usize`, which with a
/// 32-bit `usize` overflows on crafted input (a panic, or a loop that never
/// ends when overflow wraps).
#[verifier::external_body]
fn infer_extension(bytes: &[u8]) -> (res: Option<String>)
    requires
        usize::MAX == 0xffff_ffff_ffff_ffff,
    ensures
        res is Some <==> inferred_extension(bytes@) is Some,
        res is Some ==> inferred_extension(bytes@) == Some(res->0@),
{
    match infer::get(bytes) {
        Some(kind) => Some(kind.extension().to_string()),
        None => None,
    }
}

/// The extension an upload is stored under: the one the uploader gave, or,
/// when it gave none and the upload could be read back, the one recognised
/// from its content (none if nothing is recognised).
pub open spec fn spec_resolve_extension(declared: Seq<char>, content: Option<Seq<u8>>) -> Seq<char> {
    if declared.len() == 0 && content is Some {
        match inferred_extension(content->0) {
            Some(e) => e,
            None => Seq::empty(),
        }
    } else {
        declared
    }
}

/// The extension an upload is stored under. Content recognition needs a
/// 64-bit target (see `infer_extension`).
pub fn resolve_extension(declared: String, content: Option<&[u8]>) -> (res: String)
    requires
        usize::MAX == 0xffff_ffff_ffff_ffff,
    ensures
        res@ == spec_resolve_extension(
            declared@,
            match content {
                Some(c) => Some(c@),
                None => None,
            },
        ),
{
    if declared.as_str().is_empty() {
        match content {
            Some(bytes) => match infer_extension(bytes) {
                Some(e) => e,
                None => String::new(),
            },
            None => declared,
        }
    } else {
        declared
    }
}

/// The index of the last `c` in `s`, or -1 when there is none.
pub open spec fn last_index_of(s: Seq<char>, c: char) -> int
    decreases s.len(),
{
    if s.len() == 0 {
        -1
    } else if s.last() == c {
        s.len() - 1
    } else {
        last_index_of(s.drop_last(), c)
    }
}

/// A file name without its last `.` and what follows it (empty when the
/// name has no `.`).
pub open spec fn file_stem(f: Seq<char>) -> Seq<char> {
    if last_index_of(f, '.') < 0 {
        Seq::empty()
    } else {
        f.take(last_index_of(f, '.'))
    }
}

/// What follows the last `.` of a file name (the whole name when it has no `.`).
pub open spec fn file_suffix(f: Seq<char>) -> Seq<char> {
    f.skip(last_index_of(f, '.') + 1)
}

/// Whether `res` is the file name `f` split at its last `.`, the part after
/// it present.
pub open spec fn splits_file_name(res: Option<(String, Option<String>)>, f: Seq<char>) -> bool {
    res matches Some((stem, Some(suffix))) && stem@ == file_stem(f) && suffix@ == file_suffix(f)
}

/// The `filename` parameter that `content_disposition` reads from a
/// `Content-Disposition` header, if there is one.
pub uninterp spec fn disposition_filename_param(header: Seq<char>) -> Option<Seq<char>>;

/// Calls `content_disposition::parse_content_disposition(header).filename()`.
/// Claimed: when the header has a `filename` parameter (as
/// `disposition_filename_param` names it), the result splits it at its last
/// `.` into the part before and the part after, the latter always present
/// (the crate splits at every `.`, pops the last piece and joins the rest
/// with `.`); with no such parameter there is no result.
#[verifier::external_body]
fn disposition_filename(header: &str) -> (res: Option<(String, Option<String>)>)
    ensures
        disposition_filename_param(header@) is None ==> res is None,
        disposition_filename_param(header@) is Some ==> splits_file_name(
            res,
            disposition_filename_param(header@)->0,
        ),
{
    content_disposition::parse_content_disposition(header).filename()
}

/// The name and extension an uploader gave, from the bytes of the
/// `Content-Disposition` header: the file name's part before its last `.`,
/// and the part after it made lower-case. Both are empty when the header is
/// missing, is not visible ASCII, or has no file name.
pub open spec fn spec_upload_file_name(disposition: Option<Seq<u8>>) -> (Seq<char>, Seq<char>) {
    match disposition {
        Some(b) => if all_visible_ascii(b) {
            match disposition_filename_param(ascii_text(b)) {
                Some(f) => (file_stem(f), ascii_lower(file_suffix(f))),
                None => (Seq::empty(), Seq::empty()),
            }
        } else {
            (Seq::empty(), Seq::empty())
        },
        None => (Seq::empty(), Seq::empty()),
    }
}

/// The name and extension an uploader gave.
pub fn upload_file_name(disposition: Option<&[u8]>) -> (res: (String, String))
    ensures
        (res.0@, res.1@) == spec_upload_file_name(
            match disposition {
                Some(d) => Some(d@),
                None => None,
            },
        ),
{
    let mut name = String::new();
    let mut ext = String::new();
    if let Some(bytes) = disposition {
        if let Some(text) = header_to_str(bytes) {
            if let Some((stem, suffix)) = disposition_filename(text.as_str()) {
                name = stem;
                if let Some(s) = suffix {
                    ext = to_ascii_lowercase(s.as_str());
                }
            }
        }
    }
    (name, ext)
}

/// Where the files of an upload go.
pub struct UploadNames {
    /// The stored file's name: the content id with the extension.
    pub final_name: String,
    /// The stored file's path.
    pub final_path: String,
    /// The path of the stored file's metadata.
    pub meta_path: String,
}

/// The path of a file of the media directory.
pub open spec fn spec_media_path(name: Seq<char>) -> Seq<char> {
    "./media/"@ + name
}

/// Where the files of the upload named `hash` with extension `ext` go.
pub fn upload_names(hash: &String, ext: &str) -> (res: UploadNames)
    ensures
        res.final_name@ == spec_with_ext(hash@, ext@),
        res.final_path@ == spec_media_path(spec_with_ext(hash@, ext@)),
        res.meta_path@ == spec_media_path(hash@ + ".meta.toml"@),
{
    let final_name = hash.with_ext(ext);
    let mut final_path = String::from_str("./media/");
    final_path.append(final_name.as_str());
    let mut meta_path = String::from_str("./media/");
    meta_path.append(hash.as_str());
    meta_path.append(".meta.toml");
    UploadNames { final_name, final_path, meta_path }
}

/// The address at which an upload can be fetched: `scheme://host/hash`.
pub fn upload_location(scheme: &str, host: &str, hash: &str) -> (res: String)
    ensures
        res@ == scheme@ + "://"@ + host@ + "/"@ + hash@,
{
    let mut res = String::from_str(scheme);
    res.append("://");
    res.append(host);
    res.append("/");
    res.append(hash);
    res
}

/// A content id holds only URL-safe base64 characters, so never a `.`.
pub proof fn lemma_content_id_chars(digest: Seq<u8>)
    requires
        digest.len() >= 9,
    ensures
        spec_content_id(digest).len() == 12,
        forall|i: int|
            0 <= i < 12 ==> is_base64_url_char(#[trigger] spec_content_id(digest)[i])
                && spec_content_id(digest)[i] != '.',
{
    lemma_base64_url_nopad(digest);
    assert forall|i: int| 0 <= i < 12 implies is_base64_url_char(
        #[trigger] spec_content_id(digest)[i],
    ) && spec_content_id(digest)[i] != '.' by {
        assert(spec_content_id(digest)[i] == base64_url_nopad(digest)[i]);
    }
}

/// An upload is found again by the address it was given: a request for its
/// content id, with or without the extension it was stored under, reads the
/// content id back as the hash, so the metadata file and the stored file that
/// are looked up are the ones the upload wrote.
pub proof fn lemma_upload_found_by_id(digest: Seq<u8>, ext: Seq<char>)
    requires
        digest.len() >= 9,
    ensures
        before_first(spec_content_id(digest), '.') == spec_content_id(digest),
        before_first(spec_with_ext(spec_content_id(digest), ext), '.') == spec_content_id(digest),
        spec_media_path(spec_content_id(digest) + ".meta.toml"@) == spec_media_path(
            spec_meta_file_name(before_first(spec_with_ext(spec_content_id(digest), ext), '.')),
        ),
        spec_with_ext(before_first(spec_with_ext(spec_content_id(digest), ext), '.'), ext)
            == spec_with_ext(spec_content_id(digest), ext),
{
    let id = spec_content_id(digest);
    lemma_content_id_chars(digest);
    assert forall|j: int| 0 <= j < 12 implies #[trigger] id[j] != '.' by {}
    lemma_before_first_take(id, '.', 12);
    assert(id.take(12) =~= id);
    let named = spec_with_ext(id, ext);
    if ext.len() > 0 {
        assert forall|j: int| 0 <= j < 12 implies #[trigger] named[j] != '.' by {
            assert(named[j] == id[j]);
        }
        assert(named[12] == '.');
        lemma_before_first_take(named, '.', 12);
        assert(named.take(12) =~= id);
    }
}

/// An extension the uploader gave is kept whatever the content; without
/// content read back the given extension stands; and content that is not
/// recognised gives no extension.
pub proof fn lemma_declared_extension_kept(declared: Seq<char>, content: Option<Seq<u8>>)
    ensures
        declared.len() > 0 ==> spec_resolve_extension(declared, content) == declared,
        spec_resolve_extension(declared, None) == declared,
        declared.len() == 0 && content is Some && inferred_extension(content->0) is None
            ==> spec_resolve_extension(declared, content).len() == 0,
{
}

} // verus!
