use vanity_address::{
    calculate_difficulty, calculate_estimated_time, checked_difficulty, time_left,
};

#[test]
fn difficulty_of_one_digit() {
    assert_eq!(calculate_difficulty("a", false), 16);
    assert_eq!(calculate_difficulty("a", true), 22);
}

#[test]
fn difficulty_of_empty_pattern_is_one() {
    assert_eq!(calculate_difficulty("", false), 1);
    assert_eq!(calculate_difficulty("", true), 1);
}

#[test]
fn difficulty_is_a_power_of_the_alphabet_size() {
    assert_eq!(calculate_difficulty("abc", false), 4096);
    assert_eq!(calculate_difficulty("abc", true), 10648);
    assert_eq!(calculate_difficulty("dead", false), 65536);
    assert_eq!(calculate_difficulty("dEaD", true), 234256);
}

#[test]
fn difficulty_of_longest_patterns() {
    assert_eq!(calculate_difficulty("0123456789abcde", false), 1152921504606846976);
    assert_eq!(calculate_difficulty("0123456789abcd", true), 6221821273427820544);
}

#[test]
fn difficulty_counts_characters() {
    assert_eq!(calculate_difficulty("zz", false), 256);
    assert_eq!(calculate_difficulty("--", true), 484);
}

#[test]
fn estimated_time_of_unknown_speed_is_zero() {
    assert_eq!(calculate_estimated_time(0, 1000), 0);
    assert_eq!(calculate_estimated_time(0, 0), 0);
}

#[test]
fn estimated_time_divides_difficulty_by_speed() {
    assert_eq!(calculate_estimated_time(100, 1000), 10);
    assert_eq!(calculate_estimated_time(3, 10), 3);
    assert_eq!(calculate_estimated_time(1000, 100), 0);
    assert_eq!(calculate_estimated_time(1, u64::MAX), u64::MAX);
}

#[test]
fn time_left_is_zero_when_overdue() {
    assert_eq!(time_left(100, 150), 0);
    assert_eq!(time_left(0, 1), 0);
}

#[test]
fn time_left_subtracts_elapsed() {
    assert_eq!(time_left(100, 40), 60);
    assert_eq!(time_left(100, 100), 0);
    assert_eq!(time_left(100, 0), 100);
    assert_eq!(time_left(u64::MAX, 1), u64::MAX - 1);
}

#[test]
fn checked_difficulty_agrees_where_the_count_fits() {
    assert_eq!(checked_difficulty("", false), Some(1));
    assert_eq!(checked_difficulty("a", false), Some(16));
    assert_eq!(checked_difficulty("a", true), Some(22));
    for pattern in ["abc", "dead", "0123456789abcd"] {
        for case_sensitive in [false, true] {
            assert_eq!(
                checked_difficulty(pattern, case_sensitive),
                Some(calculate_difficulty(pattern, case_sensitive))
            );
        }
    }
}

#[test]
fn checked_difficulty_of_longest_patterns() {
    assert_eq!(checked_difficulty("0123456789abcde", false), Some(1152921504606846976));
    assert_eq!(checked_difficulty("0123456789abcd", true), Some(6221821273427820544));
}

#[test]
fn checked_difficulty_is_none_beyond_the_longest() {
    assert_eq!(checked_difficulty("0123456789abcdef", false), None);
    assert_eq!(checked_difficulty("0123456789abcde", true), None);
    assert_eq!(checked_difficulty("5aaeb6053f3e94c9b9a09f33669435e7ef1beaed", false), None);
    assert_eq!(checked_difficulty("5aAeb6053F3E94C9b9A09f33669435E7Ef1BeAed", true), None);
}

#[test]
fn checked_difficulty_grows_with_the_length() {
    let pattern = "0123456789abcde";
    for case_sensitive in [false, true] {
        let mut last = 0;
        for length in 0..=14 {
            let count = checked_difficulty(&pattern[..length], case_sensitive).unwrap();
            assert!(count >= 1);
            assert!(count > last);
            last = count;
        }
    }
}
