use rustdesk_server_pro::text::{join_strings, matches_word, signed_text, unsigned_text};

#[test]
fn decimal_rendering() {
    assert_eq!(unsigned_text(0), "0");
    assert_eq!(unsigned_text(1234567890), "1234567890");
    assert_eq!(unsigned_text(u128::MAX), u128::MAX.to_string());
    assert_eq!(signed_text(-42), "-42");
    assert_eq!(signed_text(i128::MIN), i128::MIN.to_string());
    assert_eq!(signed_text(7), "7");
}

#[test]
fn keyword_matching() {
    assert!(matches_word("AdMiN", "admin"));
    assert!(!matches_word("admins", "admin"));
    assert!(!matches_word("ädmin", "admin"));
    assert!(matches_word("", ""));
}

#[test]
fn joining() {
    let parts = vec!["a".to_string(), "b".to_string(), "c".to_string()];
    assert_eq!(join_strings(&parts, ", "), "a, b, c");
    assert_eq!(join_strings(&Vec::new(), ", "), "");
}
