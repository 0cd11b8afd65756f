//! The cryptographic and text-encoding primitives the crate takes from outside: SHA-256,
//! HMAC-SHA-256, unpadded URL-safe base64, hexadecimal and lossy UTF-8.

use base64::Engine;
use hmac::Mac;
use sha2::Digest;
use vstd::prelude::*;

verus! {

/// The SHA-256 digest of a message.
pub uninterp spec fn sha256(message: Seq<u8>) -> Seq<u8>;

/// The HMAC-SHA-256 tag of a message under a key.
pub uninterp spec fn hmac_sha256(key: Seq<u8>, message: Seq<u8>) -> Seq<u8>;

/// The URL-safe base64 digit for a value below 64.
pub open spec fn base64url_digit(v: int) -> char {
    if v < 26 {
        (65 + v) as char
    } else if v < 52 {
        (71 + v) as char
    } else if v < 62 {
        (v - 4) as char
    } else if v == 62 {
        '-'
    } else {
        '_'
    }
}

/// The byte at `i`, or zero past the end.
pub open spec fn byte_at(bytes: Seq<u8>, i: int) -> int {
    if i < bytes.len() {
        bytes[i] as int
    } else {
        0
    }
}

/// The `i`th group of six bits, zero bits filling up the last one.
pub open spec fn sextet(bytes: Seq<u8>, i: int) -> int {
    let j = i / 4 * 3;
    if i % 4 == 0 {
        byte_at(bytes, j) / 4
    } else if i % 4 == 1 {
        byte_at(bytes, j) % 4 * 16 + byte_at(bytes, j + 1) / 16
    } else if i % 4 == 2 {
        byte_at(bytes, j + 1) % 16 * 4 + byte_at(bytes, j + 2) / 64
    } else {
        byte_at(bytes, j + 2) % 64
    }
}

/// The unpadded URL-safe base64 text of some bytes: a digit per six bits.
pub open spec fn base64url(bytes: Seq<u8>) -> Seq<char> {
    Seq::new((4 * bytes.len() + 2) / 3, |i: int| base64url_digit(sextet(bytes, i)))
}

/// The bytes that an unpadded URL-safe base64 text stands for, or `None` for any other text.
pub open spec fn base64url_bytes(text: Seq<char>) -> Option<Seq<u8>> {
    if exists|bytes: Seq<u8>| text == #[trigger] base64url(bytes) {
        Some(choose|bytes: Seq<u8>| text == #[trigger] base64url(bytes))
    } else {
        None
    }
}

/// The text that bytes read as, with replacement characters where they are not valid UTF-8.
pub uninterp spec fn utf8_lossy(bytes: Seq<u8>) -> Seq<char>;

/// The lower-case hexadecimal digit for a value below sixteen.
pub open spec fn hex_digit(v: int) -> char {
    if v < 10 {
        (48 + v) as char
    } else {
        (87 + v) as char
    }
}

/// Lower-case hexadecimal: two digits per byte, the high half first.
pub open spec fn hex(bytes: Seq<u8>) -> Seq<char> {
    Seq::new(
        2 * bytes.len(),
        |i: int|
            hex_digit(
                if i % 2 == 0 {
                    bytes[i / 2] as int / 16
                } else {
                    bytes[i / 2] as int % 16
                },
            ),
    )
}

/// Whether `c` is a hexadecimal digit of either case.
pub open spec fn is_hex_digit(c: char) -> bool {
    ||| '0' <= c && c <= '9'
    ||| 'a' <= c && c <= 'f'
    ||| 'A' <= c && c <= 'F'
}

/// Whether `c` is one of the digits that [`hex`] writes.
pub open spec fn is_lower_hex_digit(c: char) -> bool {
    ||| '0' <= c && c <= '9'
    ||| 'a' <= c && c <= 'f'
}

/// The value of a hexadecimal digit of either case.
pub open spec fn hex_value(c: char) -> int {
    if '0' <= c && c <= '9' {
        c as int - 48
    } else if 'a' <= c && c <= 'f' {
        c as int - 87
    } else {
        c as int - 55
    }
}

/// The bytes that a text of hexadecimal digits stands for.
pub open spec fn unhex(text: Seq<char>) -> Seq<u8> {
    Seq::new(
        text.len() / 2,
        |i: int| (16 * hex_value(text[2 * i]) + hex_value(text[2 * i + 1])) as u8,
    )
}

/// `sha2::Sha256::digest` returns the SHA-256 digest of its argument, which is 32 bytes long.
#[verifier::external_body]
pub(crate) fn sha256_digest(message: &[u8]) -> (res: [u8; 32])
    ensures
        res@ == sha256(message@),
{
    sha2::Sha256::digest(message).into()
}

/// `hmac::Hmac::<Sha256>` keyed by `key` (which may have any length), fed `message` and
/// finalized, gives the HMAC-SHA-256 tag, which is 32 bytes long.
#[verifier::external_body]
pub(crate) fn hmac_sha256_tag(key: &[u8], message: &[u8]) -> (res: [u8; 32])
    ensures
        res@ == hmac_sha256(key@, message@),
{
    let mut mac = hmac::Hmac::<sha2::Sha256>::new_from_slice(key).expect("any key length");
    mac.update(message);
    mac.finalize().into_bytes().into()
}

/// `hmac::Mac::verify_slice` accepts a tag exactly when it is the whole HMAC-SHA-256 tag of
/// what was fed; it compares in constant time.
#[verifier::external_body]
pub(crate) fn hmac_sha256_verify(key: &[u8], message: &[u8], tag: &[u8]) -> (res: bool)
    ensures
        res == (tag@ == hmac_sha256(key@, message@)),
{
    let mut mac = hmac::Hmac::<sha2::Sha256>::new_from_slice(key).expect("any key length");
    mac.update(message);
    mac.verify_slice(tag).is_ok()
}

/// `base64::Engine::encode` of the engine `URL_SAFE_NO_PAD` writes a digit of the URL-safe
/// alphabet per six bits, and no padding. The bound keeps the length of the text within what
/// one allocation can hold.
#[verifier::external_body]
pub(crate) fn base64url_encode(bytes: &[u8]) -> (res: String)
    requires
        (bytes@.len() + 2) / 3 * 4 <= isize::MAX,
    ensures
        res@ == base64url(bytes@),
{
    base64::engine::general_purpose::URL_SAFE_NO_PAD.encode(bytes)
}

/// `base64::Engine::decode` of the engine `URL_SAFE_NO_PAD` returns the bytes that encode to
/// the text, or an error where there are none: it refuses padding, foreign characters, a lone
/// last digit and bits that do not fill a byte.
#[verifier::external_body]
pub(crate) fn base64url_decode(text: &str) -> (res: Option<Vec<u8>>)
    ensures
        match res {
            Some(bytes) => text@ == base64url(bytes@),
            None => forall|bytes: Seq<u8>| text@ != #[trigger] base64url(bytes),
        },
{
    base64::engine::general_purpose::URL_SAFE_NO_PAD.decode(text).ok()
}

/// `hex::encode` writes two lower-case hexadecimal digits per byte.
#[verifier::external_body]
pub(crate) fn hex_encode(bytes: &[u8; 32]) -> (res: String)
    ensures
        res@ == hex(bytes@),
{
    hex::encode(bytes)
}

/// `hex::decode_to_slice` into 32 bytes succeeds exactly on 64 hexadecimal digits of either
/// case, and then writes the bytes that they stand for.
#[verifier::external_body]
pub(crate) fn hex_decode_32(text: &str) -> (res: Option<[u8; 32]>)
    ensures
        match res {
            Some(bytes) => {
                &&& text@.len() == 64
                &&& forall|i: int| 0 <= i < 64 ==> is_hex_digit(#[trigger] text@[i])
                &&& bytes@ == unhex(text@)
            },
            None => text@.len() != 64 || exists|i: int|
                0 <= i < 64 && !is_hex_digit(#[trigger] text@[i]),
        },
{
    let mut bytes = [0u8; 32];
    match hex::decode_to_slice(text, &mut bytes) {
        Ok(()) => Some(bytes),
        Err(_) => None,
    }
}

/// Why a text is not the hexadecimal form of some bytes.
#[derive(Debug, Clone, Copy, PartialEq, Eq)]
pub enum HexError {
    /// The byte `c` at `index` is no hexadecimal digit.
    InvalidHexCharacter { c: char, index: usize },
    /// The length is odd.
    OddLength,
    /// The length does not fit a fixed-size output.
    InvalidStringLength,
}

/// What decoding the hexadecimal text `text` (as UTF-8 bytes) gives: an odd length is an
/// error, then the first byte that is no digit is one, and else every two digits are a byte.
pub open spec fn hex_decoding(text: Seq<u8>) -> Result<Seq<u8>, HexError> {
    if text.len() % 2 != 0 {
        Err(HexError::OddLength)
    } else if exists|i: int| 0 <= i < text.len() && !is_hex_digit(#[trigger] text[i] as char) {
        let i = choose|i: int|
            0 <= i < text.len() && !is_hex_digit(#[trigger] text[i] as char) && forall|j: int|
                0 <= j < i ==> is_hex_digit(#[trigger] text[j] as char);
        Err(HexError::InvalidHexCharacter { c: text[i] as char, index: i as usize })
    } else {
        Ok(unhex(Seq::new(text.len(), |i: int| text[i] as char)))
    }
}

/// `hex::decode` refuses a text of odd length, then names the first byte that is no
/// hexadecimal digit, and else returns the bytes that the digits stand for.
#[verifier::external_body]
pub(crate) fn hex_decode(text: &str) -> (res: Result<Vec<u8>, HexError>)
    ensures
        match res {
            Ok(bytes) => hex_decoding(vstd::utf8::encode_utf8(text@)) == Ok::<Seq<u8>, HexError>(bytes@),
            Err(e) => hex_decoding(vstd::utf8::encode_utf8(text@)) == Err::<Seq<u8>, HexError>(e),
        },
{
    match hex::decode(text) {
        Ok(bytes) => Ok(bytes),
        Err(hex::FromHexError::InvalidHexCharacter { c, index }) => Err(HexError::InvalidHexCharacter { c, index }),
        Err(hex::FromHexError::OddLength) => Err(HexError::OddLength),
        Err(hex::FromHexError::InvalidStringLength) => Err(HexError::InvalidStringLength),
    }
}

/// `String::from_utf8_lossy`, owned: a text that depends on the bytes alone, and is what they
/// decode to where they are valid UTF-8. What invalid bytes are replaced by is not stated.
#[verifier::external_body]
pub(crate) fn from_utf8_lossy(bytes: &[u8]) -> (res: String)
    ensures
        res@ == utf8_lossy(bytes@),
        vstd::utf8::valid_utf8(bytes@) ==> res@ == vstd::utf8::decode_utf8(bytes@),
{
    String::from_utf8_lossy(bytes).into_owned()
}

/// [`hex`] is inverted by [`unhex`].
pub proof fn lemma_unhex_hex(bytes: Seq<u8>)
    ensures
        unhex(hex(bytes)) == bytes,
        forall|i: int| 0 <= i < hex(bytes).len() ==> is_lower_hex_digit(#[trigger] hex(bytes)[i]),
{
    assert(hex(bytes).len() / 2 == bytes.len());
    assert forall|i: int| 0 <= i < bytes.len() implies unhex(hex(bytes))[i] == bytes[i] by {
        let b = bytes[i] as int;
        assert((2 * i) / 2 == i && (2 * i) % 2 == 0);
        assert((2 * i + 1) / 2 == i && (2 * i + 1) % 2 == 1);
        assert(hex_value(hex_digit(b / 16)) == b / 16);
        assert(hex_value(hex_digit(b % 16)) == b % 16);
    }
    assert(unhex(hex(bytes)) =~= bytes);
}

/// A text of lower-case digits is what [`hex`] makes of its bytes; one with an upper-case digit
/// is not.
pub proof fn lemma_hex_unhex(text: Seq<char>)
    requires
        text.len() % 2 == 0,
        forall|i: int| 0 <= i < text.len() ==> is_hex_digit(#[trigger] text[i]),
    ensures
        hex(unhex(text)) == text <==> forall|i: int|
            0 <= i < text.len() ==> is_lower_hex_digit(#[trigger] text[i]),
{
    lemma_unhex_hex(unhex(text));
    assert(2 * unhex(text).len() == text.len());
    if forall|i: int| 0 <= i < text.len() ==> is_lower_hex_digit(#[trigger] text[i]) {
        assert forall|i: int| 0 <= i < text.len() implies hex(unhex(text))[i] == text[i] by {
            let k = i / 2;
            assert(is_lower_hex_digit(text[2 * k]) && is_lower_hex_digit(text[2 * k + 1]));
            let hi = hex_value(text[2 * k]);
            let lo = hex_value(text[2 * k + 1]);
            assert(0 <= hi < 16 && 0 <= lo < 16);
            assert(unhex(text)[k] as int == 16 * hi + lo);
            assert((16 * hi + lo) / 16 == hi && (16 * hi + lo) % 16 == lo);
            assert(i == 2 * k || i == 2 * k + 1);
        }
        assert(hex(unhex(text)) =~= text);
    }
}

proof fn lemma_base64url_digit_injective(v: int, w: int)
    requires
        0 <= v < 64,
        0 <= w < 64,
        base64url_digit(v) == base64url_digit(w),
    ensures
        v == w,
{
}

proof fn lemma_sextet_range(bytes: Seq<u8>, i: int)
    requires
        0 <= i,
    ensures
        0 <= sextet(bytes, i) < 64,
{
}

/// Texts in base64url hold neither `.` nor `=`.
pub proof fn lemma_base64url_alphabet(bytes: Seq<u8>)
    ensures
        !base64url(bytes).contains('.'),
        !base64url(bytes).contains('='),
{
    assert forall|i: int| 0 <= i < base64url(bytes).len() implies {
        &&& (#[trigger] base64url(bytes)[i]) != '.'
        &&& base64url(bytes)[i] != '='
    } by {
        lemma_sextet_range(bytes, i);
    }
}

/// Different bytes have different base64url texts.
#[verifier::spinoff_prover]
pub proof fn lemma_base64url_injective(a: Seq<u8>, b: Seq<u8>)
    requires
        base64url(a) == base64url(b),
    ensures
        a == b,
{
    let n = base64url(a).len() as int;
    assert(n == base64url(b).len());
    assert(a.len() == b.len());
    assert forall|i: int| 0 <= i < n implies #[trigger] sextet(a, i) == sextet(b, i) by {
        lemma_sextet_range(a, i);
        lemma_sextet_range(b, i);
        assert(base64url(a)[i] == base64url_digit(sextet(a, i)));
        assert(base64url(b)[i] == base64url_digit(sextet(b, i)));
        lemma_base64url_digit_injective(sextet(a, i), sextet(b, i));
    }
    assert forall|k: int| 0 <= k < a.len() implies a[k] == b[k] by {
        let q = k / 3;
        let i = 4 * q + k % 3;
        assert(0 <= i && i + 1 < n);
        assert(sextet(a, i) == sextet(b, i));
        assert(sextet(a, i + 1) == sextet(b, i + 1));
        assert(i / 4 == q && i % 4 == k % 3 && (i + 1) / 4 == q && (i + 1) % 4 == k % 3 + 1);
        assert(byte_at(a, k) == a[k] && byte_at(b, k) == b[k]);
        assert(k == 3 * q + k % 3);
    }
    assert(a =~= b);
}

/// [`base64url`] is inverted by [`base64url_bytes`].
pub proof fn lemma_base64url_inverse(bytes: Seq<u8>)
    ensures
        base64url_bytes(base64url(bytes)) == Some(bytes),
{
    let text = base64url(bytes);
    let found = choose|b: Seq<u8>| text == #[trigger] base64url(b);
    lemma_base64url_injective(found, bytes);
}

/// Hexadecimal spells each byte in two lower-case digits, the high half first.
#[verifier::spinoff_prover]
pub proof fn law_hex_spells_each_byte(bytes: Seq<u8>, i: int)
    requires
        0 <= i < bytes.len(),
    ensures
        hex(bytes).len() == 2 * bytes.len(),
        16 * hex_value(hex(bytes)[2 * i]) + hex_value(hex(bytes)[2 * i + 1]) == bytes[i],
        '0' <= hex(bytes)[2 * i] <= '9' || 'a' <= hex(bytes)[2 * i] <= 'f',
        '0' <= hex(bytes)[2 * i + 1] <= '9' || 'a' <= hex(bytes)[2 * i + 1] <= 'f',
        hex_value('0') == 0,
        hex_value('9') == 9,
        hex_value('a') == 10,
        hex_value('f') == 15,
        hex_value('A') == 10,
        hex_value('F') == 15,
{
    assert((2 * i) / 2 == i && (2 * i + 1) / 2 == i && (2 * i) % 2 == 0 && (2 * i + 1) % 2 == 1);
}

/// Three bytes and the four base64url digits for them stand for the same number.
#[verifier::spinoff_prover]
pub proof fn law_four_digits_stand_for_three_bytes(bytes: Seq<u8>, g: int)
    requires
        0 <= g,
        3 * g + 3 <= bytes.len(),
    ensures
        sextet(bytes, 4 * g) * 262144 + sextet(bytes, 4 * g + 1) * 4096 + sextet(bytes, 4 * g + 2)
            * 64 + sextet(bytes, 4 * g + 3) == bytes[3 * g] * 65536 + bytes[3 * g + 1] * 256
            + bytes[3 * g + 2],
        base64url(bytes)[4 * g] == base64url_digit(sextet(bytes, 4 * g)),
{
    let i = 4 * g;
    assert(i / 4 == g && (i + 1) / 4 == g && (i + 2) / 4 == g && (i + 3) / 4 == g);
    assert(i % 4 == 0 && (i + 1) % 4 == 1 && (i + 2) % 4 == 2 && (i + 3) % 4 == 3);
}

} // verus!
