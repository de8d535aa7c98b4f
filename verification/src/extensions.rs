use vstd::prelude::*;
use vstd::string::*;
use vstd::utf8::{
    decode_utf8, encode_utf8, encode_utf8_decode_utf8, encode_utf8_valid_utf8, is_ascii_chars,
    is_ascii_chars_encode_utf8, valid_utf8,
};

use crate::text::push_char;

verus! {

/// The file name `name` with the extension `ext` appended, or `name` alone
/// when there is no extension.
pub open spec fn spec_with_ext(name: Seq<char>, ext: Seq<char>) -> Seq<char> {
    if ext.len() == 0 {
        name
    } else {
        name + seq!['.'] + ext
    }
}

pub trait StringExtraTrait: Sized {
    /// Appends `.{ext}` unless `ext` is empty.
    fn with_ext(&self, ext: &str) -> Self;
}

impl StringExtraTrait for String {
    fn with_ext(&self, ext: &str) -> (res: String)
        ensures
            res@ == spec_with_ext(self@, ext@),
    {
        if !ext.is_empty() {
            let mut res = self.clone();
            res.append(".");
            res.append(ext);
            proof {
                reveal_strlit(".");
            }
            res
        } else {
            self.clone()
        }
    }
}

/// What `String::from_utf8_lossy` makes of `bytes`.
pub uninterp spec fn utf8_lossy(bytes: Seq<u8>) -> Seq<char>;

/// Calls `String::from_utf8_lossy`, which reads `bytes` as UTF-8 and puts
/// U+FFFD in place of each invalid sequence. Claimed: the result is
/// `utf8_lossy` of the bytes, and when the bytes are valid UTF-8 it is their
/// plain decoding, as the function's documentation says.
#[verifier::external_body]
fn from_utf8_lossy(bytes: &[u8]) -> (res: String)
    ensures
        res@ == utf8_lossy(bytes@),
        valid_utf8(bytes@) ==> res@ == decode_utf8(bytes@),
{
    String::from_utf8_lossy(bytes).into_owned()
}

/// Whether a header byte is one that a header value may show as text:
/// visible ASCII or a tab.
pub open spec fn is_visible_ascii(b: u8) -> bool {
    (32 <= b && b < 127) || b == 9
}

/// The characters whose codes are the given ASCII bytes.
pub open spec fn ascii_text(bytes: Seq<u8>) -> Seq<char> {
    bytes.map_values(|b: u8| b as char)
}

/// Whether every byte of a header value is visible ASCII or a tab.
pub open spec fn all_visible_ascii(bytes: Seq<u8>) -> bool {
    forall|i: int| 0 <= i < bytes.len() ==> is_visible_ascii(#[trigger] bytes[i])
}

/// The text of a header value when it is visible ASCII, as
/// `HeaderValue::to_str` gives it; `None` otherwise.
pub fn header_to_str(bytes: &[u8]) -> (res: Option<String>)
    ensures
        res is Some <==> all_visible_ascii(bytes@),
        res is Some ==> res->0@ == ascii_text(bytes@),
{
    let mut i: usize = 0;
    while i < bytes.len()
        invariant
            i <= bytes.len(),
            forall|j: int| 0 <= j < i ==> is_visible_ascii(#[trigger] bytes@[j]),
        decreases bytes.len() - i,
    {
        let b = bytes[i];
        if !((b >= 32 && b < 127) || b == 9) {
            assert(!is_visible_ascii(bytes@[i as int]));
            return None;
        }
        i = i + 1;
    }
    let mut res = String::new();
    let mut k: usize = 0;
    while k < bytes.len()
        invariant
            k <= bytes.len(),
            res@ == ascii_text(bytes@.take(k as int)),
        decreases bytes.len() - k,
    {
        let c = bytes[k] as char;
        push_char(&mut res, c);
        assert(ascii_text(bytes@.take(k + 1)) =~= ascii_text(bytes@.take(k as int)).push(c));
        k = k + 1;
    }
    assert(bytes@.take(bytes.len() as int) =~= bytes@);
    Some(res)
}

/// The text of a header value: the value itself when it is visible ASCII,
/// else its lossy UTF-8 reading.
pub fn header_value_string(bytes: &[u8]) -> (res: String)
    ensures
        all_visible_ascii(bytes@) ==> res@ == ascii_text(bytes@),
        !all_visible_ascii(bytes@) ==> res@ == utf8_lossy(bytes@),
        valid_utf8(bytes@) ==> res@ == decode_utf8(bytes@),
{
    match header_to_str(bytes) {
        Some(s) => {
            proof {
                lemma_ascii_text_decodes(bytes@);
            }
            s
        },
        None => from_utf8_lossy(bytes),
    }
}

/// Visible ASCII bytes are valid UTF-8, and decode to the characters with
/// the same codes.
proof fn lemma_ascii_text_decodes(bytes: Seq<u8>)
    requires
        all_visible_ascii(bytes),
    ensures
        valid_utf8(bytes),
        decode_utf8(bytes) == ascii_text(bytes),
{
    let chars = ascii_text(bytes);
    assert(is_ascii_chars(chars)) by {
        assert forall|i: int| 0 <= i < chars.len() implies '\0' <= #[trigger] chars[i] <= '\u{7f}' by {
            assert(is_visible_ascii(bytes[i]));
            assert(chars[i] == bytes[i] as char);
        }
    }
    is_ascii_chars_encode_utf8(chars);
    assert forall|i: int| 0 <= i < bytes.len() implies #[trigger] encode_utf8(chars)[i] == bytes[i] by {
        assert(chars[i] as u8 == encode_utf8(chars)[i]);
        assert(chars[i] == bytes[i] as char);
    }
    assert(encode_utf8(chars) =~= bytes);
    encode_utf8_valid_utf8(chars);
    encode_utf8_decode_utf8(chars);
}

} // verus!
