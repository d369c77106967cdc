//! Matching a candidate address against the wanted pattern.

use crate::hex::is_lower_hex;
use vstd::prelude::*;
use vstd::string::is_ascii;

verus! {

/// How many of the first `n` positions hold the same character in `candidate`
/// and in `pattern`.
pub open spec fn matches_in(candidate: Seq<char>, pattern: Seq<char>, n: nat) -> nat
    decreases n,
{
    if n == 0 {
        0
    } else {
        let before = matches_in(candidate, pattern, (n - 1) as nat);
        if candidate[n - 1] == pattern[n - 1] {
            before + 1
        } else {
            before
        }
    }
}

/// How many positions of `pattern` hold the character that `candidate` holds
/// at the same position. Case counts.
pub open spec fn match_count(candidate: Seq<char>, pattern: Seq<char>) -> nat {
    matches_in(candidate, pattern, pattern.len())
}

/// `candidate` begins with `pattern`, character for character.
pub open spec fn full_match(candidate: Seq<char>, pattern: Seq<char>) -> bool {
    &&& pattern.len() <= candidate.len()
    &&& forall|i: int| 0 <= i < pattern.len() ==> candidate[i] == pattern[i]
}

/// Every character of `pattern` is one of `0123456789abcdef`.
pub open spec fn possible_pattern(pattern: Seq<char>) -> bool {
    forall|i: int| 0 <= i < pattern.len() ==> is_lower_hex(#[trigger] pattern[i])
}

/// Among the first `n` positions at most `n` match, and all `n` do exactly
/// when each of them holds the same character on both sides.
pub proof fn lemma_matches_in(candidate: Seq<char>, pattern: Seq<char>, n: nat)
    ensures
        matches_in(candidate, pattern, n) <= n,
        matches_in(candidate, pattern, n) == n <==> forall|i: int|
            0 <= i < n ==> candidate[i] == pattern[i],
    decreases n,
{
    if n > 0 {
        lemma_matches_in(candidate, pattern, (n - 1) as nat);
    }
}

/// The score of a candidate lies between zero and the pattern's length, and
/// reaches the length exactly when the candidate begins with the pattern.
/// This holds of patterns of any length, also of those whose score no longer
/// fits in the 32 bits that [`score`] returns.
pub proof fn lemma_score_bounds(candidate: Seq<char>, pattern: Seq<char>)
    requires
        pattern.len() <= candidate.len(),
    ensures
        0 <= match_count(candidate, pattern) <= pattern.len(),
        match_count(candidate, pattern) == pattern.len() <==> full_match(candidate, pattern),
{
    lemma_matches_in(candidate, pattern, pattern.len());
}

/// Counts the positions of pattern `s` at which candidate `a` holds the same
/// character. The candidate must be at least as long as the pattern.
pub fn score(a: &str, s: &String) -> (count: i32)
    requires
        s@.len() <= a@.len(),
        s@.len() <= i32::MAX,
    ensures
        count == match_count(a@, s@),
        0 <= count <= s@.len(),
        count == s@.len() <==> full_match(a@, s@),
{
    let pattern = s.as_str();
    let length = pattern.unicode_len();
    let mut count: i32 = 0;
    let mut i: usize = 0;
    while i < length
        invariant
            length == pattern@.len(),
            pattern@ == s@,
            length <= a@.len(),
            length <= i32::MAX,
            i <= length,
            count == matches_in(a@, s@, i as nat),
            count <= i,
        decreases length - i,
    {
        if a.get_char(i) == pattern.get_char(i) {
            count += 1;
        }
        i += 1;
    }
    proof {
        lemma_score_bounds(a@, s@);
    }
    count
}

/// Whether `candidate` begins with `pattern`. A pattern longer than the
/// candidate never matches.
pub fn is_full_match(candidate: &str, pattern: &str) -> (matched: bool)
    ensures
        matched == full_match(candidate@, pattern@),
{
    let length = pattern.unicode_len();
    if length > candidate.unicode_len() {
        return false;
    }
    let mut i: usize = 0;
    while i < length
        invariant
            length == pattern@.len(),
            length <= candidate@.len(),
            i <= length,
            forall|j: int| 0 <= j < i ==> candidate@[j] == pattern@[j],
        decreases length - i,
    {
        if candidate.get_char(i) != pattern.get_char(i) {
            return false;
        }
        i += 1;
    }
    true
}

/// Whether a search for pattern `x` can succeed at all: every character has to
/// be a lowercase hexadecimal digit. The empty pattern is possible.
pub fn is_possible_pattern(x: &str) -> (possible: bool)
    ensures
        possible == possible_pattern(x@),
{
    if !x.is_ascii() {
        assert(!possible_pattern(x@)) by {
            if possible_pattern(x@) {
                assert forall|i: int| 0 <= i < x@.len() implies '\0' <= #[trigger] x@[i]
                    <= '\u{7f}' by {
                    assert(is_lower_hex(x@[i]));
                }
                assert(is_ascii(x));
            }
        }
        return false;
    }
    let bytes = x.as_bytes();
    proof {
        vstd::string::is_ascii_spec_bytes(x);
    }
    let mut i: usize = 0;
    while i < bytes.len()
        invariant
            is_ascii(x),
            bytes@.len() == x@.len(),
            forall|j: int| 0 <= j < x@.len() ==> bytes@[j] == x@[j] as u8,
            i <= bytes@.len(),
            forall|j: int| 0 <= j < i ==> is_lower_hex(#[trigger] x@[j]),
        decreases bytes@.len() - i,
    {
        let byte = bytes[i];
        let digit = '0' as u8 <= byte && byte <= '9' as u8;
        let letter = 'a' as u8 <= byte && byte <= 'f' as u8;
        if !(digit || letter) {
            assert(!is_lower_hex(x@[i as int]));
            return false;
        }
        assert(is_lower_hex(x@[i as int]));
        i += 1;
    }
    true
}

} // verus!
