//! The text encodings of bytes that name uploaded files: lower-case hex
//! (`hex::encode`) and URL-safe base64 without padding (`base64`).
use base64::Engine;
use vstd::prelude::*;

verus! {

/// The hex digit of a value below 16, in lower case.
pub open spec fn hex_digit(v: int) -> char {
    if v < 10 {
        (48 + v) as char
    } else {
        (87 + v) as char
    }
}

/// Two lower-case hex digits per byte, high half first.
pub open spec fn hex_lower(bytes: Seq<u8>) -> Seq<char>
    decreases bytes.len(),
{
    if bytes.len() == 0 {
        Seq::empty()
    } else {
        seq![hex_digit((bytes[0] as int) / 16), hex_digit((bytes[0] as int) % 16)] + hex_lower(bytes.drop_first())
    }
}

/// The character of a value below 64 in the URL-safe base64 alphabet
/// `A-Z a-z 0-9 - _`.
pub open spec fn base64_digit(v: int) -> char {
    if v < 26 {
        (65 + v) as char
    } else if v < 52 {
        (71 + v) as char
    } else if v < 62 {
        (v - 4) as char
    } else if v == 62 {
        '-'
    } else {
        '_'
    }
}

/// URL-safe base64 of `b` without padding: each group of three bytes gives
/// four characters, a final group of two gives three, one gives two.
pub open spec fn base64_url_nopad(b: Seq<u8>) -> Seq<char>
    decreases b.len(),
{
    if b.len() == 0 {
        Seq::empty()
    } else if b.len() == 1 {
        seq![base64_digit((b[0] as int) / 4), base64_digit(((b[0] as int) % 4) * 16)]
    } else if b.len() == 2 {
        seq![
            base64_digit((b[0] as int) / 4),
            base64_digit(((b[0] as int) % 4) * 16 + (b[1] as int) / 16),
            base64_digit(((b[1] as int) % 16) * 4),
        ]
    } else {
        seq![
            base64_digit((b[0] as int) / 4),
            base64_digit(((b[0] as int) % 4) * 16 + (b[1] as int) / 16),
            base64_digit(((b[1] as int) % 16) * 4 + (b[2] as int) / 64),
            base64_digit((b[2] as int) % 64),
        ] + base64_url_nopad(b.skip(3))
    }
}

/// Whether `c` belongs to the URL-safe base64 alphabet.
pub open spec fn is_base64_url_char(c: char) -> bool {
    ||| 'A' <= c <= 'Z'
    ||| 'a' <= c <= 'z'
    ||| '0' <= c <= '9'
    ||| c == '-'
    ||| c == '_'
}

pub proof fn lemma_base64_digit(v: int)
    requires
        0 <= v < 64,
    ensures
        is_base64_url_char(base64_digit(v)),
{
}

/// Unpadded URL-safe base64 has `ceil(4n / 3)` characters, all of the alphabet.
pub proof fn lemma_base64_url_nopad(b: Seq<u8>)
    ensures
        base64_url_nopad(b).len() == (4 * b.len() + 2) / 3,
        forall|i: int|
            0 <= i < base64_url_nopad(b).len() ==> is_base64_url_char(
                #[trigger] base64_url_nopad(b)[i],
            ),
    decreases b.len(),
{
    if b.len() == 0 {
    } else if b.len() == 1 {
        lemma_base64_digit((b[0] as int) / 4);
        lemma_base64_digit(((b[0] as int) % 4) * 16);
    } else if b.len() == 2 {
        lemma_base64_digit((b[0] as int) / 4);
        lemma_base64_digit(((b[0] as int) % 4) * 16 + (b[1] as int) / 16);
        lemma_base64_digit(((b[1] as int) % 16) * 4);
    } else {
        lemma_base64_digit((b[0] as int) / 4);
        lemma_base64_digit(((b[0] as int) % 4) * 16 + (b[1] as int) / 16);
        lemma_base64_digit(((b[1] as int) % 16) * 4 + (b[2] as int) / 64);
        lemma_base64_digit((b[2] as int) % 64);
        lemma_base64_url_nopad(b.skip(3));
        let head = seq![
            base64_digit((b[0] as int) / 4),
            base64_digit(((b[0] as int) % 4) * 16 + (b[1] as int) / 16),
            base64_digit(((b[1] as int) % 16) * 4 + (b[2] as int) / 64),
            base64_digit((b[2] as int) % 64),
        ];
        let tail = base64_url_nopad(b.skip(3));
        assert forall|i: int| 0 <= i < (head + tail).len() implies is_base64_url_char(
            #[trigger] (head + tail)[i],
        ) by {
            if i >= 4 {
                assert((head + tail)[i] == tail[i - 4]);
            }
        }
    }
}

/// Calls `hex::encode`, which writes each byte as two lower-case hex digits,
/// high half first (its table is `0123456789abcdef`). Claimed: the result is
/// `hex_lower` of the bytes.
#[verifier::external_body]
pub(crate) fn hex_encode(data: &[u8]) -> (res: String)
    ensures
        res@ == hex_lower(data@),
{
    hex::encode(data)
}

/// Calls `encode` of the `URL_SAFE_NO_PAD` engine of `base64`. Claimed: the
/// result is the unpadded URL-safe base64 of the bytes. The bound on the
/// length keeps the engine's computation of the output size from
/// overflowing, where it would panic.
#[verifier::external_body]
pub(crate) fn base64_url_encode(data: &[u8]) -> (res: String)
    requires
        data@.len() <= usize::MAX / 2,
    ensures
        res@ == base64_url_nopad(data@),
{
    base64::engine::general_purpose::URL_SAFE_NO_PAD.encode(data)
}

} // verus!
