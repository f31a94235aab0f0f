use tanoshi::text::{i64_to_string, last_or_empty_of, u64_to_string};

#[test]
fn unsigned_numbers_in_decimal() {
    assert_eq!(u64_to_string(0), "0");
    assert_eq!(u64_to_string(7), "7");
    assert_eq!(u64_to_string(10), "10");
    assert_eq!(u64_to_string(1905), "1905");
    assert_eq!(u64_to_string(u64::MAX), "18446744073709551615");
}

#[test]
fn signed_numbers_in_decimal() {
    assert_eq!(i64_to_string(0), "0");
    assert_eq!(i64_to_string(42), "42");
    assert_eq!(i64_to_string(-1), "-1");
    assert_eq!(i64_to_string(-120), "-120");
    assert_eq!(i64_to_string(i64::MAX), "9223372036854775807");
    assert_eq!(i64_to_string(i64::MIN), "-9223372036854775808");
}

#[test]
fn decimal_agrees_with_the_standard_rendering() {
    let mut n: u64 = 1;
    for _ in 0..19 {
        assert_eq!(u64_to_string(n), format!("{}", n));
        assert_eq!(u64_to_string(n - 1), format!("{}", n - 1));
        n *= 10;
    }
}

#[test]
fn last_of_a_list_or_empty() {
    assert_eq!(last_or_empty_of(&vec![]), "");
    assert_eq!(last_or_empty_of(&vec!["a".to_string()]), "a");
    assert_eq!(last_or_empty_of(&vec!["a".to_string(), "b".to_string()]), "b");
}
