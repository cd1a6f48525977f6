//! Message authentication, digests and text encodings.
use base64::engine::general_purpose::{STANDARD, URL_SAFE_NO_PAD};
use base64::Engine;
use hmac::{Hmac, Mac};
use sha1::Sha1;
use sha2::{Digest, Sha256};
use vstd::prelude::*;

verus! {

/// The HMAC-SHA-256 tag of `data` under `key`.
pub uninterp spec fn hmac_sha256_tag(key: Seq<u8>, data: Seq<u8>) -> Seq<u8>;

/// Calls `hmac::Hmac::<sha2::Sha256>::new_from_slice`, `update` and `finalize`. HMAC takes a key of
/// any length, and its tag has 32 bytes, which depend on the key and the data alone.
#[verifier::external_body]
pub(crate) fn hmac_sha256(key: &[u8], data: &[u8]) -> (result: [u8; 32])
    ensures
        result@ == hmac_sha256_tag(key@, data@),
{
    let mut mac = <Hmac<Sha256> as Mac>::new_from_slice(key).expect("a key of any length fits");
    mac.update(data);
    mac.finalize().into_bytes().into()
}

/// The HMAC-SHA-1 tag of `data` under `key`.
pub uninterp spec fn hmac_sha1_tag(key: Seq<u8>, data: Seq<u8>) -> Seq<u8>;

/// Calls `hmac::Hmac::<sha1::Sha1>::new_from_slice`, `update` and `finalize`. HMAC takes a key of
/// any length, and its tag has 20 bytes, which depend on the key and the data alone.
#[verifier::external_body]
pub(crate) fn hmac_sha1(key: &[u8], data: &[u8]) -> (result: [u8; 20])
    ensures
        result@ == hmac_sha1_tag(key@, data@),
{
    let mut mac = <Hmac<Sha1> as Mac>::new_from_slice(key).expect("a key of any length fits");
    mac.update(data);
    mac.finalize().into_bytes().into()
}

/// The SHA-1 digest of `data`.
pub uninterp spec fn sha1_digest(data: Seq<u8>) -> Seq<u8>;

/// Calls `sha1::Sha1::digest`: 20 bytes that depend on the data alone.
#[verifier::external_body]
pub(crate) fn sha1(data: &[u8]) -> (result: [u8; 20])
    ensures
        result@ == sha1_digest(data@),
{
    Sha1::digest(data).into()
}

/// The SHA-256 digest of `data`.
pub uninterp spec fn sha256_digest(data: Seq<u8>) -> Seq<u8>;

/// Calls `sha2::Sha256::digest`: 32 bytes that depend on the data alone.
#[verifier::external_body]
pub(crate) fn sha256(data: &[u8]) -> (result: [u8; 32])
    ensures
        result@ == sha256_digest(data@),
{
    Sha256::digest(data).into()
}

/// Calls `hmac::Hmac::<sha2::Sha256>::new_from_slice`, `update` and `verify_slice`, which compares
/// the tag of the data with the given one in constant time.
#[verifier::external_body]
pub(crate) fn hmac_sha256_verify(key: &[u8], data: &[u8], tag: &[u8]) -> (result: bool)
    ensures
        result == (hmac_sha256_tag(key@, data@) == tag@),
{
    let mut mac = <Hmac<Sha256> as Mac>::new_from_slice(key).expect("a key of any length fits");
    mac.update(data);
    mac.verify_slice(tag).is_ok()
}

/// Calls `hmac::Hmac::<sha1::Sha1>::new_from_slice`, `update` and `verify_slice`, which compares the
/// tag of the data with the given one in constant time.
#[verifier::external_body]
pub(crate) fn hmac_sha1_verify(key: &[u8], data: &[u8], tag: &[u8]) -> (result: bool)
    ensures
        result == (hmac_sha1_tag(key@, data@) == tag@),
{
    let mut mac = <Hmac<Sha1> as Mac>::new_from_slice(key).expect("a key of any length fits");
    mac.update(data);
    mac.verify_slice(tag).is_ok()
}

// ---------------------------------------------------------------------------
// Base64
// ---------------------------------------------------------------------------

/// The character for six bits: letters, digits, and two that differ between the alphabets.
pub open spec fn base64_char(value: int, url: bool) -> char {
    if value < 26 {
        (value + 65) as char
    } else if value < 52 {
        (value + 71) as char
    } else if value < 62 {
        (value - 4) as char
    } else if value == 62 {
        if url {
            '-'
        } else {
            '+'
        }
    } else if url {
        '_'
    } else {
        '/'
    }
}

/// Three bytes are four characters; of what is left over, the last character is filled up with
/// zero bits.
pub open spec fn base64_chars(bytes: Seq<u8>, url: bool) -> Seq<char>
    decreases bytes.len(),
{
    if bytes.len() == 0 {
        Seq::empty()
    } else if bytes.len() == 1 {
        seq![base64_char(bytes[0] as int / 4, url), base64_char(bytes[0] % 4 * 16, url)]
    } else if bytes.len() == 2 {
        seq![
            base64_char(bytes[0] as int / 4, url),
            base64_char(bytes[0] % 4 * 16 + bytes[1] / 16, url),
            base64_char(bytes[1] % 16 * 4, url),
        ]
    } else {
        seq![
            base64_char(bytes[0] as int / 4, url),
            base64_char(bytes[0] % 4 * 16 + bytes[1] / 16, url),
            base64_char(bytes[1] % 16 * 4 + bytes[2] / 64, url),
            base64_char(bytes[2] as int % 64, url),
        ] + base64_chars(bytes.skip(3), url)
    }
}

/// The base64 text of the bytes, padded to a multiple of four characters.
pub open spec fn base64_text(bytes: Seq<u8>) -> Seq<char> {
    base64_chars(bytes, false) + (if bytes.len() % 3 == 1 {
        seq!['=', '=']
    } else if bytes.len() % 3 == 2 {
        seq!['=']
    } else {
        Seq::empty()
    })
}

/// Calls `base64::engine::general_purpose::STANDARD.encode`: the standard alphabet, with padding.
#[verifier::external_body]
pub(crate) fn base64_encode(bytes: &[u8]) -> (result: String)
    ensures
        result@ == base64_text(bytes@),
{
    STANDARD.encode(bytes)
}

/// The base64 text of the bytes in the alphabet for URLs, without padding.
pub open spec fn base64_url_text(bytes: Seq<u8>) -> Seq<char> {
    base64_chars(bytes, true)
}

/// Calls `base64::engine::general_purpose::URL_SAFE_NO_PAD.encode`: the alphabet for URLs, without
/// padding.
#[verifier::external_body]
pub(crate) fn base64_url_encode(bytes: &[u8]) -> (result: String)
    ensures
        result@ == base64_url_text(bytes@),
{
    URL_SAFE_NO_PAD.encode(bytes)
}

/// The bytes that a base64 text in the alphabet for URLs, without padding, stands for: those that
/// are encoded as the text, where there are any.
pub open spec fn base64_url_bytes(text: Seq<char>) -> Option<Seq<u8>> {
    if exists|bytes: Seq<u8>| #[trigger] base64_url_text(bytes) == text {
        Some(choose|bytes: Seq<u8>| #[trigger] base64_url_text(bytes) == text)
    } else {
        None
    }
}

pub open spec fn vec_view(bytes: Option<Vec<u8>>) -> Option<Seq<u8>> {
    match bytes {
        Some(content) => Some(content@),
        None => None,
    }
}

/// Calls `base64::engine::general_purpose::URL_SAFE_NO_PAD.decode`. It accepts what encoding gives
/// and nothing else: padding, other characters and bits that are set behind the last byte are
/// refused.
#[verifier::external_body]
pub(crate) fn base64_url_decode(text: &str) -> (result: Option<Vec<u8>>)
    ensures
        vec_view(result) == base64_url_bytes(text@),
{
    URL_SAFE_NO_PAD.decode(text).ok()
}

proof fn lemma_base64_char(value: int, other: int, url: bool)
    requires
        0 <= value < 64,
        0 <= other < 64,
    ensures
        base64_char(value, url) == base64_char(other, url) ==> value == other,
        base64_char(value, url) != '.',
{
}

proof fn lemma_base64_length(bytes: Seq<u8>, url: bool)
    ensures
        base64_chars(bytes, url).len() == bytes.len() / 3 * 4 + (if bytes.len() % 3 == 0 {
            0
        } else {
            bytes.len() % 3 + 1
        }),
    decreases bytes.len(),
{
    if bytes.len() >= 3 {
        lemma_base64_length(bytes.skip(3), url);
    }
}

proof fn lemma_base64_head(a: Seq<u8>, b: Seq<u8>, url: bool)
    requires
        a.len() == b.len() >= 1,
        base64_chars(a, url) == base64_chars(b, url),
    ensures
        a[0] == b[0],
        a.len() >= 2 ==> a[1] == b[1],
        a.len() >= 3 ==> a[2] == b[2] && base64_chars(a.skip(3), url) == base64_chars(
            b.skip(3),
            url,
        ),
{
    let s = base64_chars(a, url);
    let t = base64_chars(b, url);
    assert(s[0] == t[0] && s[1] == t[1]);
    lemma_base64_char(a[0] as int / 4, b[0] as int / 4, url);
    if a.len() == 1 {
        lemma_base64_char(a[0] % 4 * 16, b[0] % 4 * 16, url);
    } else {
        assert(s[2] == t[2]);
        lemma_base64_char(a[0] % 4 * 16 + a[1] / 16, b[0] % 4 * 16 + b[1] / 16, url);
        if a.len() == 2 {
            lemma_base64_char(a[1] % 16 * 4, b[1] % 16 * 4, url);
        } else {
            assert(s[3] == t[3]);
            lemma_base64_char(a[1] % 16 * 4 + a[2] / 64, b[1] % 16 * 4 + b[2] / 64, url);
            lemma_base64_char(a[2] as int % 64, b[2] as int % 64, url);
            assert(s.skip(4) =~= base64_chars(a.skip(3), url));
            assert(t.skip(4) =~= base64_chars(b.skip(3), url));
        }
    }
}

/// Bytes that are encoded alike are the same.
pub proof fn law_base64_is_injective(a: Seq<u8>, b: Seq<u8>, url: bool)
    requires
        base64_chars(a, url) == base64_chars(b, url),
    ensures
        a == b,
    decreases a.len(),
{
    lemma_base64_length(a, url);
    lemma_base64_length(b, url);
    assert(a.len() == b.len());
    if a.len() >= 1 {
        lemma_base64_head(a, b, url);
    }
    if a.len() >= 3 {
        law_base64_is_injective(a.skip(3), b.skip(3), url);
        assert forall|i: int| 0 <= i < a.len() implies a[i] == b[i] by {
            if i >= 3 {
                assert(a.skip(3)[i - 3] == b.skip(3)[i - 3]);
            }
        }
    }
    assert(a =~= b);
}

/// Decoding undoes encoding.
pub proof fn law_base64_decodes(bytes: Seq<u8>)
    ensures
        base64_url_bytes(base64_url_text(bytes)) == Some(bytes),
{
    let text = base64_url_text(bytes);
    let found = choose|found: Seq<u8>| #[trigger] base64_url_text(found) == text;
    law_base64_is_injective(found, bytes, true);
}

/// No dot stands in a base64 text.
pub proof fn lemma_base64_has_no_dot(bytes: Seq<u8>, url: bool)
    ensures
        !base64_chars(bytes, url).contains('.'),
    decreases bytes.len(),
{
    let text = base64_chars(bytes, url);
    if bytes.len() >= 3 {
        lemma_base64_has_no_dot(bytes.skip(3), url);
    }
    if text.contains('.') {
        let i = choose|i: int| 0 <= i < text.len() && text[i] == '.';
        if i >= 4 {
            assert(base64_chars(bytes.skip(3), url)[i - 4] == '.');
        }
    }
}

// ---------------------------------------------------------------------------
// Hexadecimal digits
// ---------------------------------------------------------------------------

/// The lower-case hexadecimal digit of a value below sixteen.
pub open spec fn hex_char(value: int) -> char {
    if value < 10 {
        (value + 48) as char
    } else {
        (value + 87) as char
    }
}

/// Two lower-case hexadecimal digits for each byte, the high one first.
pub open spec fn hex_text(bytes: Seq<u8>) -> Seq<char> {
    Seq::new(
        2 * bytes.len(),
        |i: int|
            if i % 2 == 0 {
                hex_char(bytes[i / 2] as int / 16)
            } else {
                hex_char(bytes[i / 2] as int % 16)
            },
    )
}

fn to_hex_char(value: u8) -> (result: char)
    requires
        value < 16,
    ensures
        result == hex_char(value as int),
{
    if value < 10 {
        (value + 48) as char
    } else {
        (value + 87) as char
    }
}

pub(crate) fn hex_encode(bytes: &[u8]) -> (result: String)
    ensures
        result@ == hex_text(bytes@),
{
    let mut result = String::new();
    let mut i: usize = 0;
    while i < bytes.len()
        invariant
            i <= bytes@.len(),
            result@ == hex_text(bytes@.take(i as int)),
        decreases bytes.len() - i,
    {
        result.push(to_hex_char(bytes[i] / 16));
        result.push(to_hex_char(bytes[i] % 16));
        i += 1;
        assert(result@ =~= hex_text(bytes@.take(i as int)));
    }
    assert(bytes@.take(i as int) =~= bytes@);
    result
}

/// The value of a hexadecimal digit, given as an ASCII character of either case.
pub open spec fn hex_digit(byte: u8) -> Option<int> {
    if 48 <= byte <= 57 {
        Some(byte - 48)
    } else if 97 <= byte <= 102 {
        Some(byte - 87)
    } else if 65 <= byte <= 70 {
        Some(byte - 55)
    } else {
        None
    }
}

/// The bytes that pairs of hexadecimal digits stand for.
pub open spec fn hex_bytes(digits: Seq<u8>) -> Option<Seq<u8>> {
    if digits.len() % 2 == 0 && forall|i: int|
        0 <= i < digits.len() ==> hex_digit(#[trigger] digits[i]) is Some {
        Some(
            Seq::new(
                (digits.len() / 2) as nat,
                |i: int|
                    (hex_digit(digits[2 * i])->Some_0 * 16 + hex_digit(digits[2 * i + 1])->Some_0)
                        as u8,
            ),
        )
    } else {
        None
    }
}

/// Calls `hex::decode`: each pair of digits is one byte; a text of odd length or with another
/// character in it is refused.
#[verifier::external_body]
pub(crate) fn hex_decode(text: &str) -> (result: Option<Vec<u8>>)
    ensures
        vec_view(result) == hex_bytes(vstd::utf8::encode_utf8(text@)),
{
    hex::decode(text).ok()
}

/// Two hexadecimal digits stand for each byte, and read back as it, in either case.
pub proof fn law_hexadecimal_digits_read_back(bytes: Seq<u8>, i: int)
    requires
        0 <= i < bytes.len(),
    ensures
        hex_text(bytes).len() == 2 * bytes.len(),
        hex_digit(hex_text(bytes)[2 * i] as u8) is Some,
        hex_digit(hex_text(bytes)[2 * i + 1] as u8) is Some,
        hex_digit(hex_text(bytes)[2 * i] as u8)->Some_0 * 16 + hex_digit(
            hex_text(bytes)[2 * i + 1] as u8,
        )->Some_0 == bytes[i],
{
    let high = bytes[i] as int / 16;
    let low = bytes[i] as int % 16;
    assert((2 * i) / 2 == i && (2 * i) % 2 == 0 && (2 * i + 1) / 2 == i && (2 * i + 1) % 2 == 1);
    assert(hex_text(bytes)[2 * i] == hex_char(high));
    assert(hex_text(bytes)[2 * i + 1] == hex_char(low));
    lemma_hex_char_reads_back(high);
    lemma_hex_char_reads_back(low);
}

proof fn lemma_hex_char_reads_back(value: int)
    requires
        0 <= value < 16,
    ensures
        hex_digit(hex_char(value) as u8) == Some(value),
{
}

/// Digits of either case stand for the same bytes; a text of odd length, or with another character,
/// stands for none.
pub proof fn law_hexadecimal_bytes_are_read(digits: Seq<u8>, i: int)
    ensures
        digits.len() % 2 == 1 ==> hex_bytes(digits) is None,
        0 <= i < digits.len() && hex_digit(digits[i]) is None ==> hex_bytes(digits) is None,
        hex_bytes(digits) matches Some(bytes) ==> 2 * bytes.len() == digits.len() && (0 <= i
            < bytes.len() ==> bytes[i] == hex_digit(digits[2 * i])->Some_0 * 16 + hex_digit(
            digits[2 * i + 1],
        )->Some_0),
        forall|byte: u8|
            97 <= byte <= 102 ==> #[trigger] hex_digit(byte) == hex_digit((byte - 32) as u8),
{
    if hex_bytes(digits) is Some && 0 <= i < hex_bytes(digits)->Some_0.len() {
        assert(hex_digit(digits[2 * i]) is Some);
        assert(hex_digit(digits[2 * i + 1]) is Some);
    }
}

} // verus!
