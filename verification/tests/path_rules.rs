use knowledgeos_backend::domain::path::{
    CanonicalPath, MarkdownPath, PathError, MAX_PATH_BYTES, MAX_SEGMENT_BYTES,
};

#[test]
fn accepts_nested_unicode_and_spaces() {
    let path = MarkdownPath::parse("프로젝트/지식 운영체제.md").expect("path should be valid");

    assert_eq!(path.as_str(), "프로젝트/지식 운영체제.md");
}

#[test]
fn accepts_underscore_system_directories() {
    let path = MarkdownPath::parse("_trash/2026-07-12/deleted-note.md")
        .expect("underscore directories should be valid");

    assert_eq!(path.as_str(), "_trash/2026-07-12/deleted-note.md");
}

#[test]
fn canonical_path_can_represent_a_directory() {
    let path = CanonicalPath::parse("projects/knowledgeos").expect("directory should be valid");

    assert_eq!(path.segments(), ["projects", "knowledgeos"]);
}

#[test]
fn rejects_empty_and_absolute_paths() {
    assert_eq!(CanonicalPath::parse(""), Err(PathError::EmptyPath));
    assert_eq!(
        CanonicalPath::parse("/etc/passwd"),
        Err(PathError::AbsolutePath)
    );
    assert_eq!(
        CanonicalPath::parse("C:/notes/private.md"),
        Err(PathError::AbsolutePath)
    );
}

#[test]
fn rejects_current_and_parent_directory_segments() {
    assert_eq!(
        CanonicalPath::parse("projects/./note.md"),
        Err(PathError::CurrentDirectorySegment)
    );
    assert_eq!(
        CanonicalPath::parse("projects/../secret.md"),
        Err(PathError::ParentDirectorySegment)
    );
}

#[test]
fn rejects_empty_segments_instead_of_normalizing_them() {
    assert_eq!(
        CanonicalPath::parse("projects//note.md"),
        Err(PathError::EmptySegment)
    );
    assert_eq!(
        CanonicalPath::parse("projects/note.md/"),
        Err(PathError::EmptySegment)
    );
}

#[test]
fn rejects_windows_separators() {
    assert_eq!(
        CanonicalPath::parse("projects\\note.md"),
        Err(PathError::WindowsSeparator)
    );
}

#[test]
fn rejects_hidden_segments() {
    assert_eq!(
        CanonicalPath::parse("projects/.private/note.md"),
        Err(PathError::HiddenSegment(".private".to_owned()))
    );
}

#[test]
fn rejects_encoded_traversal_left_after_one_decode() {
    assert_eq!(
        CanonicalPath::parse("%2e%2e/secret.md"),
        Err(PathError::AmbiguousPercentEncoding)
    );
    assert_eq!(
        CanonicalPath::parse("projects%2fnote.md"),
        Err(PathError::AmbiguousPercentEncoding)
    );
}

#[test]
fn rejects_nul_and_control_characters() {
    assert_eq!(
        CanonicalPath::parse("projects/note\0.md"),
        Err(PathError::NulCharacter)
    );
    assert_eq!(
        CanonicalPath::parse("projects/note\n.md"),
        Err(PathError::ControlCharacter)
    );
}

#[test]
fn enforces_utf8_byte_length_limits() {
    let oversized_segment = "a".repeat(MAX_SEGMENT_BYTES + 1);
    assert_eq!(
        CanonicalPath::parse(&oversized_segment),
        Err(PathError::SegmentTooLong {
            actual: MAX_SEGMENT_BYTES + 1,
            maximum: MAX_SEGMENT_BYTES,
        })
    );

    let segment = "a".repeat(200);
    let oversized_path = (0..6)
        .map(|_| segment.as_str())
        .collect::<Vec<_>>()
        .join("/");
    assert!(oversized_path.len() > MAX_PATH_BYTES);
    assert_eq!(
        CanonicalPath::parse(&oversized_path),
        Err(PathError::PathTooLong {
            actual: oversized_path.len(),
            maximum: MAX_PATH_BYTES,
        })
    );
}

#[test]
fn markdown_path_requires_lowercase_md_extension() {
    assert_eq!(
        MarkdownPath::parse("projects/readme.txt"),
        Err(PathError::MarkdownExtensionRequired)
    );
    assert_eq!(
        MarkdownPath::parse("projects/README.MD"),
        Err(PathError::MarkdownExtensionRequired)
    );
    assert!(MarkdownPath::parse("projects/README.md").is_ok());
}
