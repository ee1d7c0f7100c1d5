use bitwarden_rofi::text::{dec_i32, join_char, split_char, str_eq, str_starts_with};

#[test]
fn decimal_rendering() {
    assert_eq!(dec_i32(0), "0");
    assert_eq!(dec_i32(7), "7");
    assert_eq!(dec_i32(12345), "12345");
    assert_eq!(dec_i32(-12), "-12");
    assert_eq!(dec_i32(i32::MAX), "2147483647");
    assert_eq!(dec_i32(i32::MIN), "-2147483648");
}

#[test]
fn split_keeps_empty_pieces() {
    assert_eq!(split_char("A/B", '/'), vec!["A".to_string(), "B".to_string()]);
    assert_eq!(split_char("", '/'), vec!["".to_string()]);
    assert_eq!(split_char("A//B", '/'), vec!["A".to_string(), "".to_string(), "B".to_string()]);
    assert_eq!(split_char("/x/", '/'), vec!["".to_string(), "x".to_string(), "".to_string()]);
}

#[test]
fn join_inverts_split_on_these() {
    let parts = split_char("a/b/c", '/');
    assert_eq!(join_char(&parts, '/'), "a/b/c");
    assert_eq!(join_char(&vec![], '/'), "");
    assert_eq!(join_char(&vec!["only".to_string()], '/'), "only");
}

#[test]
fn string_predicates() {
    assert!(str_eq("abc", "abc"));
    assert!(!str_eq("abc", "abd"));
    assert!(!str_eq("abc", "ab"));
    assert!(str_starts_with("Failed to decrypt. x", "Failed to decrypt."));
    assert!(!str_starts_with("Fail", "Failed"));
}
