//! Encodings of bytes and texts that requests and replies use.
use vstd::prelude::*;
use vstd::utf8::{decode_utf8, encode_utf8, valid_utf8};

verus! {

// ---------------------------------------------------------------------------
// Base64
// ---------------------------------------------------------------------------
/// The bytes that a text in URL-safe Base64 without padding stands for, or what
/// is wrong with the text.
pub uninterp spec fn base64_url_bytes(text: Seq<char>) -> Result<Seq<u8>, Seq<char>>;

/// The bytes that a text in URL-safe Base64 with padding stands for, or what is
/// wrong with the text.
pub uninterp spec fn base64_url_padded_bytes(text: Seq<char>) -> Result<Seq<u8>, Seq<char>>;

/// The views of the outcome of decoding.
pub open spec fn bytes_result(r: Result<Vec<u8>, String>) -> Result<Seq<u8>, Seq<char>> {
    match r {
        Ok(bytes) => Ok(bytes@),
        Err(e) => Err(e@),
    }
}

/// `base64`: decoding by the engine `URL_SAFE_NO_PAD`.
#[verifier::external_body]
pub(crate) fn base64_url_decode(text: &str) -> (r: Result<Vec<u8>, String>)
    ensures
        bytes_result(r) == base64_url_bytes(text@),
{
    base64::Engine::decode(&base64::engine::general_purpose::URL_SAFE_NO_PAD, text).map_err(
        |e| e.to_string(),
    )
}

/// `base64`: decoding by the engine `URL_SAFE`.
#[verifier::external_body]
pub(crate) fn base64_url_padded_decode(text: &str) -> (r: Result<Vec<u8>, String>)
    ensures
        bytes_result(r) == base64_url_padded_bytes(text@),
{
    base64::Engine::decode(&base64::engine::general_purpose::URL_SAFE, text).map_err(
        |e| e.to_string(),
    )
}

/// A text stands in URL-safe Base64 without padding for the bytes.
pub open spec fn stands_for(text: Seq<char>, bytes: Seq<u8>) -> bool {
    base64_url_bytes(text) == Ok::<Seq<u8>, Seq<char>>(bytes)
}

/// The text in URL-safe Base64 without padding for some bytes.
pub uninterp spec fn base64_url_text(bytes: Seq<u8>) -> Seq<char>;

/// `base64`: encoding by the engine `URL_SAFE_NO_PAD`. The same engine decodes
/// the text to the bytes that were encoded. The text, four characters for three
/// bytes, has to fit in memory.
#[verifier::external_body]
pub(crate) fn base64_url_encode(bytes: &[u8]) -> (r: String)
    requires
        bytes@.len() / 3 * 4 + 4 <= isize::MAX,
    ensures
        r@ == base64_url_text(bytes@),
        stands_for(r@, bytes@),
{
    base64::Engine::encode(&base64::engine::general_purpose::URL_SAFE_NO_PAD, bytes)
}

/// The bytes of a text in URL-safe Base64, with or without padding, or what is
/// wrong with it as a text with padding.
pub open spec fn url_bytes(text: Seq<char>) -> Result<Seq<u8>, Seq<char>> {
    match base64_url_bytes(text) {
        Ok(bytes) => Ok(bytes),
        Err(_) => base64_url_padded_bytes(text),
    }
}

/// Computes [`url_bytes`].
pub fn decode_url_bytes(text: &str) -> (r: Result<Vec<u8>, String>)
    ensures
        bytes_result(r) == url_bytes(text@),
{
    match base64_url_decode(text) {
        Ok(bytes) => Ok(bytes),
        Err(_) => base64_url_padded_decode(text),
    }
}

// ---------------------------------------------------------------------------
// UTF-8
// ---------------------------------------------------------------------------
/// The text that some bytes stand for in UTF-8, with replacement characters where
/// they are no UTF-8.
pub uninterp spec fn utf8_lossy(bytes: Seq<u8>) -> Seq<char>;

/// `String::from_utf8_lossy` of the standard library. Bytes that are UTF-8
/// give the text that they encode.
#[verifier::external_body]
pub(crate) fn lossy_text(bytes: &[u8]) -> (r: String)
    ensures
        r@ == utf8_lossy(bytes@),
        valid_utf8(bytes@) ==> r@ == decode_utf8(bytes@),
{
    String::from_utf8_lossy(bytes).into_owned()
}

// ---------------------------------------------------------------------------
// Percent encoding
// ---------------------------------------------------------------------------
/// A byte that stands for itself in a URL: an ASCII letter or digit, or one of
/// `-`, `_`, `.` and `~`.
pub open spec fn unreserved(b: u8) -> bool {
    ||| 0x30 <= b <= 0x39
    ||| 0x41 <= b <= 0x5a
    ||| 0x61 <= b <= 0x7a
    ||| b == 0x2d
    ||| b == 0x5f
    ||| b == 0x2e
    ||| b == 0x7e
}

/// A hexadecimal digit in upper case.
pub open spec fn hex_digit(d: int) -> char {
    if d < 10 {
        (d + 48) as char
    } else {
        (d + 55) as char
    }
}

/// A byte in a URL.
pub open spec fn percent_byte(b: u8) -> Seq<char> {
    if unreserved(b) {
        seq![b as char]
    } else {
        seq!['%', hex_digit(b as int / 16), hex_digit(b as int % 16)]
    }
}

/// Bytes in a URL.
pub open spec fn percent_bytes(bytes: Seq<u8>) -> Seq<char>
    decreases bytes.len(),
{
    if bytes.len() == 0 {
        Seq::empty()
    } else {
        percent_bytes(bytes.drop_last()) + percent_byte(bytes.last())
    }
}

/// A text in a URL: its UTF-8 bytes, percent-encoded.
pub open spec fn percent_encoded(text: Seq<char>) -> Seq<char> {
    percent_bytes(encode_utf8(text))
}

/// `urlencoding::encode`: percent-encodes every byte of the text in UTF-8 but for
/// ASCII letters and digits, `-`, `_`, `.` and `~`.
#[verifier::external_body]
pub(crate) fn url_encode(text: &str) -> (r: String)
    ensures
        r@ == percent_encoded(text@),
{
    urlencoding::encode(text).into_owned()
}

/// A character that stands in percent-encoded text: one that stands for itself,
/// or the percent sign.
pub open spec fn url_safe(c: char) -> bool {
    c == '%' || ((c as int) < 128 && unreserved(c as u8))
}

/// Law: percent-encoded text holds nothing that has a meaning of its own in a
/// URL, such as `&`, `=`, `#` or a space.
pub proof fn encoded_text_is_url_safe(bytes: Seq<u8>)
    ensures
        forall|i: int| 0 <= i < percent_bytes(bytes).len() ==> url_safe(#[trigger] percent_bytes(bytes)[i]),
    decreases bytes.len(),
{
    if bytes.len() > 0 {
        let front = percent_bytes(bytes.drop_last());
        encoded_text_is_url_safe(bytes.drop_last());
        let all = percent_bytes(bytes);
        assert forall|i: int| 0 <= i < all.len() implies url_safe(#[trigger] all[i]) by {
            if i < front.len() {
                assert(all[i] == front[i]);
            } else {
                assert(all[i] == percent_byte(bytes.last())[i - front.len()]);
            }
        }
    }
}

/// Law: a text that is Base64 without padding stands for the same bytes whatever it
/// would be with padding; any other text is read as one with padding.
pub proof fn padding_is_optional(text: Seq<char>, bytes: Seq<u8>)
    ensures
        stands_for(text, bytes) ==> url_bytes(text) == Ok::<Seq<u8>, Seq<char>>(bytes),
        base64_url_bytes(text) is Err ==> url_bytes(text) == base64_url_padded_bytes(text),
{
}

} // verus!
