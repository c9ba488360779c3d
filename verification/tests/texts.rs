use sqlite_vector_store::text::{chars_of, contains, push_decimal, signed_decimal_string};

#[test]
fn decimal_of_small_numbers() {
    assert_eq!(signed_decimal_string(0), "0");
    assert_eq!(signed_decimal_string(7), "7");
    assert_eq!(signed_decimal_string(10), "10");
    assert_eq!(signed_decimal_string(12345), "12345");
    assert_eq!(signed_decimal_string(1000000), "1000000");
}

#[test]
fn decimal_of_negative_numbers() {
    assert_eq!(signed_decimal_string(-1), "-1");
    assert_eq!(signed_decimal_string(-9070), "-9070");
}

#[test]
fn decimal_of_the_extremes() {
    assert_eq!(signed_decimal_string(i64::MAX), "9223372036854775807");
    assert_eq!(signed_decimal_string(i64::MIN), "-9223372036854775808");
}

#[test]
fn decimal_agrees_with_the_standard_rendering() {
    for i in [-1001i64, -10, -9, 0, 9, 10, 11, 99, 100, 101, 4096, 65535] {
        assert_eq!(signed_decimal_string(i), format!("{}", i));
    }
}

#[test]
fn decimal_is_appended() {
    let mut s = String::from("float[");
    push_decimal(&mut s, 1536);
    assert_eq!(s, "float[1536");
    push_decimal(&mut s, u64::MAX);
    assert_eq!(s, "float[153618446744073709551615");
}

#[test]
fn characters_of_a_text() {
    assert_eq!(chars_of("a\u{e9}z"), vec!['a', '\u{e9}', 'z']);
    assert!(chars_of("").is_empty());
}

#[test]
fn runs_are_found() {
    assert!(contains("CREATE VIRTUAL TABLE vec_docs USING vec0(text_embedding float[3])", "float[3]"));
    assert!(contains("abc", ""));
    assert!(contains("", ""));
    assert!(contains("abc", "abc"));
    assert!(contains("abc", "c"));
    assert!(contains("aab", "ab"));
}

#[test]
fn runs_are_not_invented() {
    assert!(!contains("float[30]", "float[3]"));
    assert!(!contains("float[13]", "float[3]"));
    assert!(!contains("", "a"));
    assert!(!contains("ab", "abc"));
    assert!(!contains("abab", "aa"));
}
