//! Hexadecimal and UTF-8 text encodings: the `enc:` passwords of the legacy
//! authentication and the content hashes that name cover art.
use vstd::prelude::*;
use vstd::utf8::{valid_utf8, decode_utf8, encode_utf8};

verus! {

/// A hexadecimal digit, in either case.
pub open spec fn is_hex_digit(c: char) -> bool {
    ||| ('0' <= c && c <= '9')
    ||| ('a' <= c && c <= 'f')
    ||| ('A' <= c && c <= 'F')
}

/// The value of a hexadecimal digit.
pub open spec fn hex_value(c: char) -> int {
    if '0' <= c && c <= '9' {
        c as int - '0' as int
    } else if 'a' <= c && c <= 'f' {
        c as int - 'a' as int + 10
    } else {
        c as int - 'A' as int + 10
    }
}

/// Text that decodes as hexadecimal: an even number of hex digits.
pub open spec fn is_hex_text(s: Seq<char>) -> bool {
    &&& s.len() % 2 == 0
    &&& forall|i: int| 0 <= i < s.len() ==> is_hex_digit(#[trigger] s[i])
}

/// The bytes that hexadecimal text stands for: each pair of digits is one
/// byte, the first digit giving the high four bits.
pub open spec fn hex_bytes(s: Seq<char>) -> Seq<u8> {
    Seq::new(
        (s.len() / 2) as nat,
        |i: int| (16 * hex_value(s[2 * i]) + hex_value(s[2 * i + 1])) as u8,
    )
}

/// The lowercase hexadecimal digit of a value below sixteen.
pub open spec fn hex_digit(n: int) -> char {
    if n < 10 {
        ('0' as int + n) as char
    } else {
        ('a' as int + n - 10) as char
    }
}

/// The lowercase hexadecimal text of bytes: two digits per byte, high four
/// bits first.
pub open spec fn hex_text(b: Seq<u8>) -> Seq<char> {
    Seq::new(
        2 * b.len(),
        |i: int|
            if i % 2 == 0 {
                hex_digit(b[i / 2] as int / 16)
            } else {
                hex_digit(b[i / 2] as int % 16)
            },
    )
}

/// Decodes hexadecimal text (`hex::decode`).
///
/// The contract states what the `hex` crate's source does: the input's bytes
/// are taken in pairs, an odd byte count or a byte that is no hex digit fails,
/// and each pair gives the byte `16 * high + low`. Every hex digit is ASCII, so
/// over the characters this reads as `is_hex_text` and `hex_bytes`.
#[verifier::external_body]
pub(crate) fn hex_decode(s: &str) -> (r: Option<Vec<u8>>)
    ensures
        r is Some <==> is_hex_text(s@),
        r is Some ==> r->0@ == hex_bytes(s@),
{
    hex::decode(s).ok()
}

/// Encodes bytes as lowercase hexadecimal text (`hex::encode`).
///
/// The contract states what the `hex` crate's source does: each byte becomes
/// two digits from `0123456789abcdef`, high four bits first.
#[verifier::external_body]
pub(crate) fn hex_encode(data: &[u8]) -> (r: String)
    ensures
        r@ == hex_text(data@),
{
    hex::encode(data)
}

/// The string that UTF-8 bytes encode (`String::from_utf8`).
///
/// The contract states what std documents: the conversion fails exactly
/// when the bytes are not valid UTF-8, and otherwise gives the characters
/// they encode.
#[verifier::external_body]
pub(crate) fn utf8_string(bytes: Vec<u8>) -> (r: Option<String>)
    ensures
        r is Some <==> valid_utf8(bytes@),
        r is Some ==> r->0@ == decode_utf8(bytes@),
{
    String::from_utf8(bytes).ok()
}

/// A byte that is an ASCII hexadecimal digit.
pub open spec fn is_hex_byte(b: u8) -> bool {
    (0x30 <= b && b <= 0x39) || (0x41 <= b && b <= 0x46) || (0x61 <= b && b <= 0x66)
}

/// The value of an ASCII hexadecimal digit byte.
pub open spec fn hex_byte_value(b: u8) -> int {
    if b <= 0x39 {
        b - 0x30
    } else if b <= 0x46 {
        b - 0x41 + 10
    } else {
        b - 0x61 + 10
    }
}

/// Percent-decoding of bytes: `%` followed by two hex digits is the byte
/// they spell; every other byte, a `%` without two hex digits after it and
/// `+` included, stands for itself.
pub open spec fn percent_decoded(b: Seq<u8>) -> Seq<u8>
    decreases b.len(),
{
    if b.len() == 0 {
        Seq::empty()
    } else if b[0] == 0x25 && b.len() >= 3 && is_hex_byte(b[1]) && is_hex_byte(b[2]) {
        seq![(16 * hex_byte_value(b[1]) + hex_byte_value(b[2])) as u8] + percent_decoded(
            b.skip(3),
        )
    } else {
        seq![b[0]] + percent_decoded(b.skip(1))
    }
}

/// Decodes percent-encoded text (`urlencoding::decode`).
///
/// The contract states what the crate's source does: the text's UTF-8 bytes
/// are percent-decoded (`+` stays as it is), and the result must be UTF-8
/// again.
#[verifier::external_body]
pub(crate) fn url_decode(s: &str) -> (r: Option<String>)
    ensures
        r is Some <==> valid_utf8(percent_decoded(encode_utf8(s@))),
        r is Some ==> r->0@ == decode_utf8(percent_decoded(encode_utf8(s@))),
{
    match urlencoding::decode(s) {
        Ok(d) => Some(d.into_owned()),
        Err(_) => None,
    }
}

/// A hexadecimal digit is read back as its value.
pub proof fn lemma_hex_digit_value(n: int)
    requires
        0 <= n < 16,
    ensures
        is_hex_digit(hex_digit(n)),
        hex_value(hex_digit(n)) == n,
{
    if n < 10 {
        assert(('0' as int + n) as char as int == '0' as int + n);
    } else {
        assert(('a' as int + n - 10) as char as int == 'a' as int + n - 10);
    }
}

/// Hexadecimal text decodes to the bytes it was made of.
pub proof fn lemma_hex_round_trip(b: Seq<u8>)
    ensures
        is_hex_text(hex_text(b)),
        hex_bytes(hex_text(b)) == b,
{
    let t = hex_text(b);
    assert forall|i: int| 0 <= i < t.len() implies is_hex_digit(#[trigger] t[i]) by {
        if i % 2 == 0 {
            lemma_hex_digit_value(b[i / 2] as int / 16);
        } else {
            lemma_hex_digit_value(b[i / 2] as int % 16);
        }
    }
    assert forall|k: int| 0 <= k < b.len() implies #[trigger] hex_bytes(t)[k] == b[k] by {
        lemma_hex_digit_value(b[k] as int / 16);
        lemma_hex_digit_value(b[k] as int % 16);
        assert(t[2 * k] == hex_digit(b[k] as int / 16));
        assert(t[2 * k + 1] == hex_digit(b[k] as int % 16));
        assert(16 * (b[k] as int / 16) + b[k] as int % 16 == b[k] as int);
    }
    assert(hex_bytes(t) =~= b);
}

} // verus!
