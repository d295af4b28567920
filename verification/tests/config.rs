use knowledgeos_backend::config::{
    parse_max_markdown_bytes, MarkdownLimitError, DEFAULT_MAX_MARKDOWN_BYTES,
};

#[test]
fn uses_five_mib_as_the_default_markdown_limit() {
    assert_eq!(
        parse_max_markdown_bytes(None).expect("default should be valid"),
        5 * 1024 * 1024
    );
    assert_eq!(DEFAULT_MAX_MARKDOWN_BYTES, 5 * 1024 * 1024);
}

#[test]
fn accepts_a_positive_custom_markdown_limit() {
    assert_eq!(
        parse_max_markdown_bytes(Some("8192")).expect("positive limit should be valid"),
        8192
    );
}

#[test]
fn rejects_zero_and_non_numeric_markdown_limits() {
    assert!(matches!(
        parse_max_markdown_bytes(Some("0")),
        Err(MarkdownLimitError::Zero)
    ));
    assert!(matches!(
        parse_max_markdown_bytes(Some("invalid")),
        Err(MarkdownLimitError::Invalid(_))
    ));
}
