use link_review::text::{
    chars_eq, i64_to_string, join_ids, join_strings, parse_trimmed_i64, split_words, trimmed_string, usize_to_string,
};

#[test]
fn integer_to_string() {
    assert_eq!(i64_to_string(0), "0");
    assert_eq!(i64_to_string(-42), "-42");
    assert_eq!(i64_to_string(i64::MIN), "-9223372036854775808");
    assert_eq!(i64_to_string(i64::MAX), "9223372036854775807");
    assert_eq!(usize_to_string(1234), "1234");
}

#[test]
fn integer_parse_like_str_parse() {
    assert_eq!(parse_trimmed_i64("  12 "), Some(12));
    assert_eq!(parse_trimmed_i64("+5"), Some(5));
    assert_eq!(parse_trimmed_i64("-0"), Some(0));
    assert_eq!(parse_trimmed_i64("-9223372036854775808"), Some(i64::MIN));
    assert_eq!(parse_trimmed_i64("9223372036854775808"), None);
    assert_eq!(parse_trimmed_i64("1 2"), None);
    assert_eq!(parse_trimmed_i64("-"), None);
    assert_eq!(parse_trimmed_i64(""), None);
    assert_eq!(parse_trimmed_i64("1e3"), None);
}

#[test]
fn parse_after_to_string_roundtrip() {
    for v in [0i64, 1, -1, 99, -12345, i64::MIN, i64::MAX, 1 << 40] {
        assert_eq!(parse_trimmed_i64(&i64_to_string(v)), Some(v));
    }
}

#[test]
fn trimming_and_words() {
    assert_eq!(trimmed_string("\t hi there \n"), "hi there");
    assert_eq!(trimmed_string("   "), "");
    let chars: Vec<char> = "  a  bc d ".chars().collect();
    let words: Vec<String> = split_words(&chars).iter().map(|w| w.iter().collect()).collect();
    assert_eq!(words, vec!["a", "bc", "d"]);
}

#[test]
fn joining() {
    assert_eq!(join_ids(&[1, 2, 3]), "1, 2, 3");
    assert_eq!(join_ids(&[-4]), "-4");
    assert_eq!(join_ids(&[]), "");
    assert_eq!(join_strings(&["a".to_string(), "b".to_string()], " + "), "a + b");
}

#[test]
fn char_equality() {
    let a: Vec<char> = "abc".chars().collect();
    let b: Vec<char> = "abd".chars().collect();
    assert!(chars_eq(&a, &a));
    assert!(!chars_eq(&a, &b));
    assert!(!chars_eq(&a, &a[..2]));
}
