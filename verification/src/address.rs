//! The mixed-case checksummed form of an account address.
//!
//! An address is written as 40 hexadecimal digits. Its checksummed form
//! carries the same digits; the case of each letter is taken from the
//! Keccak-256 digest of the lowercase text, so that a mistyped address is
//! unlikely to keep a consistent casing.

use crate::hex::{hex_encode, hex_value, is_hex, lemma_hex_encode_digits, nibble};
use crate::keccak::{keccak256, keccak256_digest};
use vstd::prelude::*;
use vstd::utf8::encode_utf8;

verus! {

/// The lowercase form of an ASCII letter; any other character is kept.
pub open spec fn to_lower(c: char) -> char {
    if 'A' <= c && c <= 'Z' {
        (c as int + 32) as char
    } else {
        c
    }
}

/// The uppercase form of an ASCII letter; any other character is kept.
pub open spec fn to_upper(c: char) -> char {
    if 'a' <= c && c <= 'z' {
        (c as int - 32) as char
    } else {
        c
    }
}

/// `text` with every ASCII letter in lowercase.
pub open spec fn lowercase(text: Seq<char>) -> Seq<char> {
    Seq::new(text.len(), |i: int| to_lower(text[i]))
}

/// `text` is an address: 40 hexadecimal digits, letters in either case.
pub open spec fn is_address(text: Seq<char>) -> bool {
    &&& text.len() == 40
    &&& forall|i: int| 0 <= i < text.len() ==> is_hex(#[trigger] text[i])
}

/// `address` cased by `digest`: position `i` is in uppercase where the `i`-th
/// digit of the digest's hexadecimal text is greater than 7, and is left as
/// it is elsewhere.
pub open spec fn checksum_case(address: Seq<char>, digest: Seq<u8>) -> Seq<char> {
    Seq::new(
        address.len(),
        |i: int|
            if hex_value(hex_encode(digest)[i]) > 7 {
                to_upper(address[i])
            } else {
                address[i]
            },
    )
}

/// The checksummed form of `address`: its lowercase text, cased by the
/// Keccak-256 digest of that text's bytes.
pub open spec fn checksummed(address: Seq<char>) -> Seq<char> {
    let lower = lowercase(address);
    checksum_case(lower, keccak256(encode_utf8(lower)))
}

/// The uppercase form of an ASCII letter.
pub fn upper_char(c: char) -> (upper: char)
    ensures
        upper == to_upper(c),
{
    if c >= 'a' && c <= 'z' {
        (c as u8 - 32) as char
    } else {
        c
    }
}

/// The lowercase form of an ASCII letter.
pub fn lower_char(c: char) -> (lower: char)
    ensures
        lower == to_lower(c),
{
    if c >= 'A' && c <= 'Z' {
        (c as u8 + 32) as char
    } else {
        c
    }
}

/// `text` with every ASCII letter in lowercase.
pub fn ascii_lowercase(text: &str) -> (lower: String)
    ensures
        lower@ == lowercase(text@),
{
    let length = text.unicode_len();
    let mut lower = String::new();
    let mut i: usize = 0;
    while i < length
        invariant
            length == text@.len(),
            i <= length,
            lower@.len() == i,
            forall|j: int| 0 <= j < i ==> #[trigger] lower@[j] == to_lower(text@[j]),
        decreases length - i,
    {
        lower.push(lower_char(text.get_char(i)));
        i += 1;
    }
    assert(lower@ =~= lowercase(text@));
    lower
}

/// Whether `text` is an address: 40 hexadecimal digits, letters in either case.
pub fn is_valid_address(text: &str) -> (valid: bool)
    ensures
        valid == is_address(text@),
{
    if text.unicode_len() != 40 {
        return false;
    }
    let mut i: usize = 0;
    while i < 40
        invariant
            text@.len() == 40,
            i <= 40,
            forall|j: int| 0 <= j < i ==> is_hex(#[trigger] text@[j]),
        decreases 40 - i,
    {
        let c = text.get_char(i);
        let digit = c >= '0' && c <= '9';
        let letter = (c >= 'a' && c <= 'f') || (c >= 'A' && c <= 'F');
        if !(digit || letter) {
            return false;
        }
        i += 1;
    }
    true
}

/// Cases `address` by a digest: the character at position `i` is put in
/// uppercase where the `i`-th hexadecimal digit of `digest` is greater than 7.
/// A 32-byte digest has 64 digits, so the address may not be longer.
pub fn apply_checksum_case(address: &str, digest: &[u8; 32]) -> (cased: String)
    requires
        address@.len() <= 64,
    ensures
        cased@ == checksum_case(address@, digest@),
{
    let length = address.unicode_len();
    let mut cased = String::new();
    let mut i: usize = 0;
    proof {
        lemma_hex_encode_digits(digest@);
    }
    while i < length
        invariant
            length == address@.len(),
            length <= 64,
            i <= length,
            cased@.len() == i,
            forall|j: int|
                0 <= j < i ==> #[trigger] cased@[j] == checksum_case(address@, digest@)[j],
            forall|j: int|
                0 <= j < 64 ==> hex_value(#[trigger] hex_encode(digest@)[j]) == nibble(digest@, j),
        decreases length - i,
    {
        let c = address.get_char(i);
        let byte = digest[i / 2];
        let digit = if i % 2 == 0 {
            byte / 16
        } else {
            byte % 16
        };
        assert(digit == hex_value(hex_encode(digest@)[i as int]));
        if digit > 7 {
            cased.push(upper_char(c));
        } else {
            cased.push(c);
        }
        i += 1;
    }
    assert(cased@ =~= checksum_case(address@, digest@));
    cased
}

/// The checksummed form of an address. The address is lowercased first, so
/// the case in which its letters come does not matter. What is not an address
/// is to be turned away beforehand, with [`is_valid_address`].
pub fn checksum(address: &str) -> (cased: String)
    requires
        is_address(address@),
    ensures
        cased@ == checksummed(address@),
        is_address(cased@),
{
    let lower = ascii_lowercase(address);
    let digest = keccak256_digest(lower.as_str().as_bytes());
    let cased = apply_checksum_case(lower.as_str(), &digest);
    proof {
        lemma_checksummed_is_address(address@);
    }
    cased
}

/// The checksummed form keeps the digits of the address: it has the same
/// length, the same lowercase text, and is an address whenever its input is.
pub proof fn lemma_checksummed_is_address(address: Seq<char>)
    ensures
        checksummed(address).len() == address.len(),
        lowercase(checksummed(address)) == lowercase(address),
        is_address(address) ==> is_address(checksummed(address)),
{
    assert(lowercase(checksummed(address)) =~= lowercase(address));
}

/// Checksumming the lowercase form of an already checksummed address gives
/// the same checksummed address again, and so does checksumming it as it is.
pub proof fn lemma_checksum_round_trip(address: Seq<char>)
    ensures
        checksummed(lowercase(checksummed(address))) == checksummed(address),
        checksummed(checksummed(address)) == checksummed(address),
{
    lemma_checksummed_is_address(address);
    let lower = lowercase(address);
    assert(lowercase(lower) =~= lower);
}

/// The checksummed form is a function of the address's digits alone: the case
/// in which the input's letters are written does not matter, and equal inputs
/// give equal results.
pub proof fn lemma_checksum_deterministic(first: Seq<char>, second: Seq<char>)
    requires
        lowercase(first) == lowercase(second),
    ensures
        checksummed(first) == checksummed(second),
{
}

} // verus!
