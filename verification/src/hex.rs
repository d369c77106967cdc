//! Hexadecimal digits and the hexadecimal text of byte strings.

use vstd::prelude::*;

verus! {

/// Trusted: `String::push` of the standard library. It appends exactly the
/// given character and leaves what the string held before in place.
pub assume_specification[ String::push ](text: &mut String, ch: char)
    ensures
        final(text)@ == old(text)@.push(ch),
;

/// `c` is one of `0123456789abcdef`.
pub open spec fn is_lower_hex(c: char) -> bool {
    ('0' <= c && c <= '9') || ('a' <= c && c <= 'f')
}

/// `c` is a hexadecimal digit, letters in either case.
pub open spec fn is_hex(c: char) -> bool {
    is_lower_hex(c) || ('A' <= c && c <= 'F')
}

/// The lowercase hexadecimal digit that stands for `value`, for `0 <= value < 16`.
pub open spec fn hex_digit(value: int) -> char {
    if value < 10 {
        ('0' as int + value) as char
    } else {
        ('a' as int + value - 10) as char
    }
}

/// The number a hexadecimal digit stands for.
pub open spec fn hex_value(c: char) -> int {
    if '0' <= c && c <= '9' {
        c as int - '0' as int
    } else if 'a' <= c && c <= 'f' {
        c as int - 'a' as int + 10
    } else {
        c as int - 'A' as int + 10
    }
}

/// The `i`-th four-bit half of `bytes`, the high half of each byte first.
pub open spec fn nibble(bytes: Seq<u8>, i: int) -> int {
    if i % 2 == 0 {
        bytes[i / 2] as int / 16
    } else {
        bytes[i / 2] as int % 16
    }
}

/// The lowercase hexadecimal text of `bytes`: two digits for each byte, in order.
pub open spec fn hex_encode(bytes: Seq<u8>) -> Seq<char> {
    Seq::new(2 * bytes.len(), |i: int| hex_digit(nibble(bytes, i)))
}

/// The bytes that `text` spells: each pair of hexadecimal digits is one byte,
/// the high half first.
pub open spec fn hex_decode(text: Seq<char>) -> Seq<u8> {
    Seq::new(
        text.len() / 2,
        |k: int| (16 * hex_value(text[2 * k]) + hex_value(text[2 * k + 1])) as u8,
    )
}

/// Every character of `text` is one of `0123456789abcdef`.
pub open spec fn all_lower_hex(text: Seq<char>) -> bool {
    forall|i: int| 0 <= i < text.len() ==> is_lower_hex(#[trigger] text[i])
}

/// Reading a digit back gives the value it was written for.
pub proof fn lemma_hex_digit_value(value: int)
    requires
        0 <= value < 16,
    ensures
        is_lower_hex(hex_digit(value)),
        hex_value(hex_digit(value)) == value,
{
}

/// The text of a byte string is twice as long as the string, is made of
/// lowercase digits only, and its `i`-th digit reads as the `i`-th nibble.
pub proof fn lemma_hex_encode_digits(bytes: Seq<u8>)
    ensures
        hex_encode(bytes).len() == 2 * bytes.len(),
        all_lower_hex(hex_encode(bytes)),
        forall|i: int|
            0 <= i < 2 * bytes.len() ==> hex_value(#[trigger] hex_encode(bytes)[i]) == nibble(
                bytes,
                i,
            ),
{
    assert forall|i: int| 0 <= i < 2 * bytes.len() implies is_lower_hex(
        #[trigger] hex_encode(bytes)[i],
    ) && hex_value(hex_encode(bytes)[i]) == nibble(bytes, i) by {
        lemma_hex_digit_value(nibble(bytes, i));
    }
}

/// Reading a text of digits back gives the bytes it was written for.
pub proof fn lemma_hex_decode_encode(bytes: Seq<u8>)
    ensures
        hex_decode(hex_encode(bytes)) == bytes,
{
    lemma_hex_encode_digits(bytes);
    let text = hex_encode(bytes);
    assert forall|k: int| 0 <= k < bytes.len() implies hex_decode(text)[k] == bytes[k] by {
        assert(hex_value(text[2 * k]) == nibble(bytes, 2 * k));
        assert(hex_value(text[2 * k + 1]) == nibble(bytes, 2 * k + 1));
    }
    assert(hex_decode(text) =~= bytes);
}

/// The lowercase digit for a value below sixteen.
pub fn hex_char(value: u8) -> (c: char)
    requires
        value < 16,
    ensures
        c == hex_digit(value as int),
{
    if value < 10 {
        ('0' as u8 + value) as char
    } else {
        ('a' as u8 + (value - 10)) as char
    }
}

/// Writes `bytes` as lowercase hexadecimal text, two digits a byte.
pub fn to_hex(bytes: &[u8]) -> (text: String)
    ensures
        text@ == hex_encode(bytes@),
{
    let mut text = String::new();
    let mut i: usize = 0;
    while i < bytes.len()
        invariant
            i <= bytes@.len(),
            text@.len() == 2 * i,
            forall|j: int| 0 <= j < 2 * i ==> #[trigger] text@[j] == hex_digit(nibble(bytes@, j)),
        decreases bytes@.len() - i,
    {
        let byte = bytes[i];
        text.push(hex_char(byte / 16));
        text.push(hex_char(byte % 16));
        i += 1;
    }
    assert(text@ =~= hex_encode(bytes@));
    text
}

} // verus!
