//! Identifiers given to newly created shares.
use vstd::prelude::*;

use crate::text::is_ascii_digit;

verus! {

pub open spec fn is_lower_hex(c: char) -> bool {
    is_ascii_digit(c) || ('a' <= c && c <= 'f')
}

pub open spec fn is_uuid_hyphen_pos(i: int) -> bool {
    i == 8 || i == 13 || i == 18 || i == 23
}

/// The text of a random (version 4, RFC 4122 variant) UUID in lowercase
/// hyphenated form: `xxxxxxxx-xxxx-4xxx-Nxxx-xxxxxxxxxxxx` with `N` one of
/// `8`, `9`, `a`, `b`.
pub open spec fn is_v4_uuid_text(s: Seq<char>) -> bool {
    &&& s.len() == 36
    &&& forall|i: int|
        0 <= i < 36 ==> if is_uuid_hyphen_pos(i) {
            #[trigger] s[i] == '-'
        } else {
            is_lower_hex(s[i])
        }
    &&& s[14] == '4'
    &&& (s[19] == '8' || s[19] == '9' || s[19] == 'a' || s[19] == 'b')
}

/// The error text where the operating system gives no random bytes.
pub const NO_RANDOM_SOURCE_MSG: &'static str = "the operating system's random source is unavailable";

/// The lowercase hexadecimal digit of `n` (below 16).
pub open spec fn hex_digit(n: int) -> char {
    if n == 0 {
        '0'
    } else if n == 1 {
        '1'
    } else if n == 2 {
        '2'
    } else if n == 3 {
        '3'
    } else if n == 4 {
        '4'
    } else if n == 5 {
        '5'
    } else if n == 6 {
        '6'
    } else if n == 7 {
        '7'
    } else if n == 8 {
        '8'
    } else if n == 9 {
        '9'
    } else if n == 10 {
        'a'
    } else if n == 11 {
        'b'
    } else if n == 12 {
        'c'
    } else if n == 13 {
        'd'
    } else if n == 14 {
        'e'
    } else {
        'f'
    }
}

/// Byte `k` of a version 4 UUID made from random bytes `b`: byte 6 gets
/// the version nibble 4 (`(b & 0x0f) | 0x40`), byte 8 the variant bits `10`
/// (`(b & 0x3f) | 0x80`); the others are kept.
pub open spec fn v4_byte(b: Seq<u8>, k: int) -> int {
    if k == 6 {
        64 + b[6] % 16
    } else if k == 8 {
        128 + b[8] % 64
    } else {
        b[k] as int
    }
}

/// How many hyphens stand before position `i` of the hyphenated text.
pub open spec fn hyphens_before(i: int) -> int {
    (if i > 8 { 1int } else { 0 }) + (if i > 13 { 1int } else { 0 }) + (if i > 18 { 1int } else { 0 })
        + (if i > 23 { 1int } else { 0 })
}

/// Character `i` of the hyphenated text: two hex digits per byte, high
/// nibble first, with hyphens after the 4th, 6th, 8th and 10th byte.
pub open spec fn uuid_char(b: Seq<u8>, i: int) -> char {
    if is_uuid_hyphen_pos(i) {
        '-'
    } else {
        let j = i - hyphens_before(i);
        let v = v4_byte(b, j / 2);
        hex_digit(if j % 2 == 0 { v / 16 } else { v % 16 })
    }
}

/// The lowercase hyphenated text of the version 4 UUID made from `b`.
pub open spec fn v4_uuid_text(b: Seq<u8>) -> Seq<char> {
    Seq::new(36, |i: int| uuid_char(b, i))
}

proof fn lemma_hex_digit(n: int)
    requires
        0 <= n < 16,
    ensures
        is_lower_hex(hex_digit(n)),
{
}

/// The text made from any 16 bytes has the shape of a v4 UUID.
pub proof fn lemma_v4_uuid_text(b: Seq<u8>)
    requires
        b.len() == 16,
    ensures
        is_v4_uuid_text(v4_uuid_text(b)),
{
    let t = v4_uuid_text(b);
    assert forall|i: int|
        0 <= i < 36 implies if is_uuid_hyphen_pos(i) {
            #[trigger] t[i] == '-'
        } else {
            is_lower_hex(t[i])
        } by {
        if !is_uuid_hyphen_pos(i) {
            let j = i - hyphens_before(i);
            assert(0 <= j < 32);
            let v = v4_byte(b, j / 2);
            assert(0 <= v < 256);
            lemma_hex_digit(if j % 2 == 0 { v / 16 } else { v % 16 });
        }
    }
    assert(v4_byte(b, 6) / 16 == 4);
    assert(t[14] == '4');
    let v8 = v4_byte(b, 8);
    assert(8 <= v8 / 16 < 12);
    assert(t[19] == hex_digit(v8 / 16));
}

/// Calls `TryRngCore::try_fill_bytes` on `rand::rngs::OsRng` (the
/// operating system's random source, `getrandom`) for 16 bytes; `None`
/// where the source fails. Trusted: nothing is claimed of the bytes, which
/// are random, nor of when the source fails.
#[verifier::external_body]
fn os_random_bytes() -> (r: Option<[u8; 16]>) {
    let mut bytes = [0u8; 16];
    match rand::TryRngCore::try_fill_bytes(&mut rand::rngs::OsRng, &mut bytes) {
        Ok(()) => Some(bytes),
        Err(_) => None,
    }
}

/// Calls `uuid::Builder::from_random_bytes` and formats the UUID with
/// `to_string`. Trusted: `from_random_bytes` keeps the bytes but sets the
/// version nibble of byte 6 to 4 and the variant bits of byte 8 to `10`, and
/// the `Display` impl writes the 16 bytes in order as lowercase hex with
/// hyphens after the 4th, 6th, 8th and 10th byte.
#[verifier::external_body]
fn uuid_text_from_random_bytes(bytes: [u8; 16]) -> (r: String)
    ensures
        r@ == v4_uuid_text(bytes@),
{
    uuid::Builder::from_random_bytes(bytes).into_uuid().to_string()
}

/// A fresh random share id, or `None` where the operating system gives no
/// random bytes.
pub(crate) fn new_share_id() -> (r: Option<String>)
    ensures
        r matches Some(s) ==> is_v4_uuid_text(s@),
{
    match os_random_bytes() {
        Some(b) => {
            let s = uuid_text_from_random_bytes(b);
            proof {
                lemma_v4_uuid_text(b@);
            }
            Some(s)
        },
        None => None,
    }
}

} // verus!
