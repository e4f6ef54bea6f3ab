use baml_core::tracing::{log_str, truncate_string, truncate_with_marker};

#[test]
fn test_truncate_string() {
    assert_eq!(truncate_string("1234567890", 10), "1234567890".to_string());
    assert_eq!(
        truncate_string("12345678901", 10),
        format!("1234{}78901", log_str())
    );
    assert_eq!(truncate_string("12345678901", 0), "12345678901".to_string());
}

#[test]
fn test_unicode_truncate_string() {
    assert_eq!(
        truncate_string(r#"👍👍👍👍👍👍👍"#, 4),
        format!(r#"👍{}👍👍"#, log_str())
    );
}

#[test]
fn log_str_contains_the_marker_text() {
    let s = log_str();
    assert!(s.contains("...[log trimmed]..."));
}

#[test]
fn truncate_with_marker_exact_values() {
    assert_eq!(
        truncate_with_marker("12345678901", 10, "|"),
        "1234|78901".to_string()
    );
    assert_eq!(truncate_with_marker("abcdef", 3, "+"), "+f".to_string());
    assert_eq!(
        truncate_with_marker("ab", 1, "<cut>"),
        "<cut>".to_string()
    );
    assert_eq!(truncate_with_marker("abc", 3, "|"), "abc".to_string());
    assert_eq!(truncate_with_marker("anything", 0, "|"), "anything".to_string());
}
