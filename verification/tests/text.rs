use role_manager::text::{i64_to_string, join, str_lt, u64_to_padded_string, u64_to_string};

#[test]
fn decimal_of_zero_and_of_the_largest_number() {
    assert_eq!(u64_to_string(0), "0");
    assert_eq!(u64_to_string(7), "7");
    assert_eq!(u64_to_string(1905), "1905");
    assert_eq!(u64_to_string(u64::MAX), "18446744073709551615");
}

#[test]
fn signed_decimal_has_a_minus_sign() {
    assert_eq!(i64_to_string(0), "0");
    assert_eq!(i64_to_string(-42), "-42");
    assert_eq!(i64_to_string(i64::MIN), "-9223372036854775808");
    assert_eq!(i64_to_string(i64::MAX), "9223372036854775807");
}

#[test]
fn padding_adds_zeros_in_front() {
    assert_eq!(u64_to_padded_string(5, 2), "05");
    assert_eq!(u64_to_padded_string(5, 3), "005");
    assert_eq!(u64_to_padded_string(123, 2), "123");
    assert_eq!(u64_to_padded_string(0, 0), "0");
}

#[test]
fn join_puts_the_separator_between_neighbours() {
    let none: Vec<String> = vec![];
    assert_eq!(join(&none, ", "), "");
    assert_eq!(join(&vec!["a".to_string()], ", "), "a");
    assert_eq!(join(&vec!["a".to_string(), "b".to_string(), "".to_string()], ", "), "a, b, ");
}

#[test]
fn order_of_strings_is_the_order_of_their_bytes() {
    assert!(str_lt("a", "b"));
    assert!(!str_lt("b", "a"));
    assert!(!str_lt("a", "a"));
    assert!(str_lt("", "a"));
    assert!(str_lt("ab", "abc"));
    assert!(str_lt("Z", "a"));
    assert!(str_lt("z", "\u{e9}"));
    assert_eq!(str_lt("abc", "abd"), "abc" < "abd");
}
