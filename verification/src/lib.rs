//! Brute-force search for an account key pair whose checksummed address
//! starts with a wanted run of hexadecimal digits.

pub mod address;
pub mod estimate;
pub mod hex;
pub mod keccak;
pub mod keys;
pub mod pattern;
pub mod search;

pub use address::{checksum, is_valid_address};
pub use estimate::{
    calculate_difficulty, calculate_estimated_time, checked_difficulty, time_left,
};
pub use keys::{generate_key_address, Wallet};
pub use pattern::{is_full_match, is_possible_pattern, score};
pub use search::{judge, worker_step, SearchState, Step};
