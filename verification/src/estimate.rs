//! Cost and time estimates for a search, for progress reporting.

use vstd::arithmetic::power::{lemma_pow_increases, lemma_pow_positive, pow};
use vstd::prelude::*;

verus! {

/// How many symbols a position of the pattern can be told apart into: the 16
/// hexadecimal digits, or about 22 where the case of the letters counts too.
pub open spec fn alphabet_size(case_sensitive: bool) -> nat {
    if case_sensitive {
        22
    } else {
        16
    }
}

/// The expected number of attempts to find an address that matches a pattern of
/// `length` characters: the alphabet's size to the power of the length.
pub open spec fn difficulty(length: nat, case_sensitive: bool) -> nat {
    pow(alphabet_size(case_sensitive) as int, length) as nat
}

/// The longest pattern whose difficulty still fits in 64 bits.
pub open spec fn longest_countable(case_sensitive: bool) -> nat {
    if case_sensitive {
        14
    } else {
        15
    }
}

/// The difficulty is never zero, and a longer pattern is never easier than a
/// shorter one.
pub proof fn lemma_difficulty_grows(shorter: nat, longer: nat, case_sensitive: bool)
    requires
        shorter <= longer,
    ensures
        1 <= difficulty(shorter, case_sensitive) <= difficulty(longer, case_sensitive),
{
    let base = alphabet_size(case_sensitive);
    lemma_pow_positive(base as int, shorter);
    lemma_pow_positive(base as int, longer);
    lemma_pow_increases(base, shorter, longer);
}

/// The difficulty of a pattern fits in 64 bits exactly when the pattern is no
/// longer than `longest_countable`.
pub proof fn lemma_difficulty_fits(length: nat, case_sensitive: bool)
    ensures
        length <= longest_countable(case_sensitive) <==> difficulty(length, case_sensitive)
            <= u64::MAX,
{
    let base = alphabet_size(case_sensitive);
    let longest = longest_countable(case_sensitive);
    assert(pow(16, 15) == 0x1000_0000_0000_0000) by {
        reveal_with_fuel(pow, 16);
    }
    assert(pow(22, 14) == 6221821273427820544) by {
        reveal_with_fuel(pow, 15);
    }
    assert(pow(base as int, longest + 1) > u64::MAX) by {
        reveal(pow);
    }
    if length <= longest {
        lemma_difficulty_grows(length, longest, case_sensitive);
    } else {
        lemma_difficulty_grows(longest + 1, length, case_sensitive);
    }
}

/// Seconds a search is expected to take: `difficulty` attempts at `speed`
/// attempts per second. A speed of zero means "unknown" and gives zero.
pub open spec fn estimated_time(speed: nat, difficulty: nat) -> nat {
    if speed == 0 {
        0
    } else {
        difficulty / speed
    }
}

/// Time still to go, never negative.
pub open spec fn remaining_time(estimated: nat, elapsed: nat) -> nat {
    if elapsed > estimated {
        0
    } else {
        (estimated - elapsed) as nat
    }
}

/// The expected number of attempts to find an address that matches pattern
/// `s`. The pattern may have at most `longest_countable` characters: the
/// difficulty of a longer one does not fit in the result.
pub fn calculate_difficulty(s: &str, case_sensitive: bool) -> (attempts: u64)
    requires
        s@.len() <= longest_countable(case_sensitive),
    ensures
        attempts == difficulty(s@.len(), case_sensitive),
{
    let length = s.unicode_len();
    let base: u64 = if case_sensitive {
        22
    } else {
        16
    };
    let mut attempts: u64 = 1;
    let mut i: usize = 0;
    proof {
        reveal(pow);
    }
    while i < length
        invariant
            length == s@.len(),
            length <= longest_countable(case_sensitive),
            base == alphabet_size(case_sensitive),
            i <= length,
            attempts == pow(base as int, i as nat),
        decreases length - i,
    {
        proof {
            reveal(pow);
            lemma_difficulty_fits((i + 1) as nat, case_sensitive);
        }
        attempts = attempts * base;
        i += 1;
    }
    attempts
}

/// The expected number of attempts to find an address that matches pattern
/// `s`, for a pattern of any length: the difficulty where it fits in 64 bits,
/// and nothing where the pattern is longer than `longest_countable` and its
/// difficulty does not fit.
pub fn checked_difficulty(s: &str, case_sensitive: bool) -> (attempts: Option<u64>)
    ensures
        match attempts {
            Some(count) => {
                &&& s@.len() <= longest_countable(case_sensitive)
                &&& count == difficulty(s@.len(), case_sensitive)
            },
            None => {
                &&& s@.len() > longest_countable(case_sensitive)
                &&& difficulty(s@.len(), case_sensitive) > u64::MAX
            },
        },
{
    let longest: usize = if case_sensitive {
        14
    } else {
        15
    };
    if s.unicode_len() > longest {
        proof {
            lemma_difficulty_fits(s@.len(), case_sensitive);
        }
        None
    } else {
        Some(calculate_difficulty(s, case_sensitive))
    }
}

/// The time a search is expected to take, from its difficulty and the number
/// of attempts made per second. With a speed of zero the time is unknown, and
/// zero is returned.
pub fn calculate_estimated_time(speed: u64, difficulty: u64) -> (seconds: u64)
    ensures
        seconds == estimated_time(speed as nat, difficulty as nat),
{
    if speed == 0 {
        0
    } else {
        difficulty / speed
    }
}

/// The time still to go after `elapsed_time`; zero once the search is overdue.
pub fn time_left(estimated_time: u64, elapsed_time: u64) -> (left: u64)
    ensures
        left == remaining_time(estimated_time as nat, elapsed_time as nat),
{
    if elapsed_time > estimated_time {
        return 0;
    }
    estimated_time - elapsed_time
}

} // verus!
