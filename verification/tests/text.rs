use extract_transform_load::text::{find_sub, lex_le_impl, split_ws, str_eq, u64_to_string};

#[test]
fn find_sub_test() {
    assert!(find_sub("javascript", "script"));
    assert!(find_sub("javascript", "java"));
    assert!(find_sub("abc", ""));
    assert!(!find_sub("javascript", "js"));
    assert!(!find_sub("webpack", "back"));
    assert!(!find_sub("ab", "abc"));
}

#[test]
fn str_eq_test() {
    assert!(str_eq("abc", "abc"));
    assert!(!str_eq("abc", "abd"));
    assert!(!str_eq("abc", "ab"));
    assert!(str_eq("", ""));
}

#[test]
fn lex_le_test() {
    assert!(lex_le_impl("abc", "abd"));
    assert!(!lex_le_impl("abd", "abc"));
    assert!(lex_le_impl("ab", "abc"));
    assert!(!lex_le_impl("abc", "ab"));
    assert!(lex_le_impl("abc", "abc"));
    assert!(lex_le_impl("1c", "back"));
}

#[test]
fn u64_to_string_test() {
    assert_eq!(u64_to_string(0), "0");
    assert_eq!(u64_to_string(9), "9");
    assert_eq!(u64_to_string(10), "10");
    assert_eq!(u64_to_string(210), "210");
    assert_eq!(u64_to_string(18446744073709551615), "18446744073709551615");
}

#[test]
fn split_ws_test() {
    assert_eq!(split_ws("senior backend developer"), vec!["senior", "backend", "developer"]);
    assert_eq!(split_ws("one"), vec!["one"]);
    assert_eq!(split_ws(""), vec![""]);
    assert_eq!(split_ws("a  b"), vec!["a", "", "b"]);
}
