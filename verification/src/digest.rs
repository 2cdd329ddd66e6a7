//! SHA-256 digests, hexadecimal text and RFC 3339 timestamps, computed by the
//! `sha2`, `hex` and `chrono` crates.
use sha2::Digest;
use vstd::prelude::*;

verus! {

/// The SHA-256 digest of a byte string, as `sha2::Sha256` computes it.
pub uninterp spec fn spec_sha256(data: Seq<u8>) -> Seq<u8>;

/// The lowercase hexadecimal digit for a value below 16.
pub open spec fn hex_digit(n: int) -> char {
    if n < 10 {
        (('0' as u32) + n) as char
    } else {
        (('a' as u32) + n - 10) as char
    }
}

/// Lowercase hexadecimal text of a byte string: two digits per byte, high nibble first.
pub open spec fn hex_lower(b: Seq<u8>) -> Seq<char> {
    Seq::new(
        2 * b.len(),
        |i: int|
            if i % 2 == 0 {
                hex_digit(b[i / 2] as int / 16)
            } else {
                hex_digit(b[i / 2] as int % 16)
            },
    )
}

pub open spec fn is_hex_byte(c: u8) -> bool {
    (48 <= c && c <= 57) || (97 <= c && c <= 102) || (65 <= c && c <= 70)
}

pub open spec fn hex_value(c: u8) -> int {
    if 48 <= c && c <= 57 {
        c - 48
    } else if 97 <= c && c <= 102 {
        c - 97 + 10
    } else {
        c - 65 + 10
    }
}

/// The bytes hexadecimal text denotes (either case accepted), `None` for an odd
/// length or a non-hexadecimal byte.
pub open spec fn hex_decoded(s: Seq<u8>) -> Option<Seq<u8>> {
    if s.len() % 2 == 0 && forall|i: int| 0 <= i < s.len() ==> is_hex_byte(#[trigger] s[i]) {
        Some(Seq::new((s.len() / 2) as nat, |i: int| (hex_value(s[2 * i]) * 16 + hex_value(s[2 * i + 1])) as u8))
    } else {
        None
    }
}

/// The UTC rendering, with nanoseconds and a `Z` suffix, of an RFC 3339 timestamp,
/// `None` when the text is not RFC 3339 with a time zone.
pub uninterp spec fn spec_rfc3339_utc(s: Seq<char>) -> Option<Seq<char>>;

/// `sha2::Sha256::digest`: the 32-byte SHA-256 digest of `data`.
#[verifier::external_body]
pub(crate) fn sha256(data: &[u8]) -> (r: Vec<u8>)
    ensures
        r@ == spec_sha256(data@),
        r@.len() == 32,
{
    sha2::Sha256::digest(data).to_vec()
}

/// `hex::encode`: lowercase hexadecimal text, two digits per byte.
#[verifier::external_body]
pub(crate) fn hex_encode(data: &[u8]) -> (r: String)
    ensures
        r@ == hex_lower(data@),
{
    hex::encode(data)
}

/// `hex::decode`: the bytes of hexadecimal text of even length; upper and lower case
/// digits are both accepted; anything else is an error.
#[verifier::external_body]
pub(crate) fn hex_decode(text: &[u8]) -> (r: Option<Vec<u8>>)
    ensures
        match hex_decoded(text@) {
            Some(b) => r matches Some(v) && v@ == b,
            None => r is None,
        },
{
    hex::decode(text).ok()
}

/// `chrono::DateTime::parse_from_rfc3339`, converted to UTC and rendered with
/// `to_rfc3339_opts(SecondsFormat::Nanos, true)`; `None` when parsing fails.
#[verifier::external_body]
pub(crate) fn rfc3339_utc(text: &str) -> (r: Option<String>)
    ensures
        match spec_rfc3339_utc(text@) {
            Some(t) => r matches Some(v) && v@ == t,
            None => r is None,
        },
{
    match chrono::DateTime::parse_from_rfc3339(text) {
        Ok(t) => Some(t.with_timezone(&chrono::Utc).to_rfc3339_opts(chrono::SecondsFormat::Nanos, true)),
        Err(_) => None,
    }
}

/// SHA-256 of `data` as lowercase hexadecimal text (64 characters).
pub fn sha256_hex(data: &[u8]) -> (r: String)
    ensures
        r@ == hex_lower(spec_sha256(data@)),
        r@.len() == 64,
{
    let d = sha256(data);
    hex_encode(d.as_slice())
}

} // verus!
