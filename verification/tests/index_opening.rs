use std::io;
use std::path::PathBuf;

use knowledgeos_backend::api::error::{from_read, from_search_request, from_tree, from_write, ErrorDetails};
use knowledgeos_backend::api::search::validate_search_query;
use knowledgeos_backend::infrastructure::index_sync::{scan_counts, ScanOutcome};
use knowledgeos_backend::infrastructure::markdown::MarkdownReadError;
use knowledgeos_backend::infrastructure::markdown_writer::MarkdownWriteError;
use knowledgeos_backend::infrastructure::search_index::{
    check_canonical_state_root, check_no_symlink, schema_on_check, schema_on_version,
    schema_tables_valid, state_root_step, PathProbe, SchemaAction, SearchIndexError,
    StateRootStep, SCHEMA_VERSION,
};
use knowledgeos_backend::infrastructure::tree::TreeReadError;
use knowledgeos_backend::infrastructure::vault::VaultError;

#[test]
fn scan_counts_tally_each_outcome() {
    let outcomes = vec![
        ScanOutcome::UnreadableName,
        ScanOutcome::Ignored,
        ScanOutcome::Special,
        ScanOutcome::InvalidDirectory,
        ScanOutcome::Descended,
        ScanOutcome::NotMarkdown,
        ScanOutcome::InvalidMarkdownPath,
        ScanOutcome::Unreadable,
        ScanOutcome::Indexed { malformed: true },
        ScanOutcome::Indexed { malformed: false },
    ];
    let counts = scan_counts(&outcomes);
    assert_eq!(counts.discovered, 4);
    assert_eq!(counts.skipped, 5);
    assert_eq!(counts.malformed_frontmatter, 1);

    let empty = scan_counts(&Vec::new());
    assert_eq!((empty.discovered, empty.skipped, empty.malformed_frontmatter), (0, 0, 0));
}

#[test]
fn the_state_root_is_created_kept_or_refused() {
    let configured = PathBuf::from("/state");
    assert!(matches!(
        state_root_step(configured.clone(), PathProbe::Missing),
        StateRootStep::Create
    ));
    assert!(matches!(
        state_root_step(
            configured.clone(),
            PathProbe::Found { is_symlink: false, is_directory: true }
        ),
        StateRootStep::Canonicalize
    ));
    match state_root_step(
        configured.clone(),
        PathProbe::Found { is_symlink: false, is_directory: false },
    ) {
        StateRootStep::Fail(SearchIndexError::StateRootNotDirectory(path)) => {
            assert_eq!(path, configured)
        }
        other => panic!("unexpected step: {other:?}"),
    }
    assert!(matches!(
        state_root_step(configured.clone(), PathProbe::Failed(io::Error::other("denied"))),
        StateRootStep::Fail(SearchIndexError::Io { .. })
    ));
    assert!(check_canonical_state_root(configured.clone(), true).is_ok());
    assert!(matches!(
        check_canonical_state_root(configured, false),
        Err(SearchIndexError::StateRootNotDirectory(_))
    ));
}

#[test]
fn database_symlinks_are_refused() {
    let path = PathBuf::from("/state/index.sqlite");
    assert!(check_no_symlink(path.clone(), PathProbe::Missing).is_ok());
    assert!(check_no_symlink(
        path.clone(),
        PathProbe::Found { is_symlink: false, is_directory: false }
    )
    .is_ok());
    match check_no_symlink(path.clone(), PathProbe::Found { is_symlink: true, is_directory: false }) {
        Err(SearchIndexError::SymlinkNotAllowed(found)) => assert_eq!(found, path),
        other => panic!("unexpected result: {other:?}"),
    }
}

#[test]
fn the_schema_is_kept_only_when_its_version_and_tables_match() {
    assert!(matches!(schema_on_version(SCHEMA_VERSION), SchemaAction::Verify));
    assert!(matches!(schema_on_version(0), SchemaAction::Recreate));
    assert!(matches!(schema_on_check(Ok(())), SchemaAction::Keep));
    assert!(matches!(
        schema_on_check(Err(SearchIndexError::InvalidSchema)),
        SchemaAction::Recreate
    ));
    assert!(matches!(
        schema_on_check(Err(SearchIndexError::LifecycleLockPoisoned)),
        SchemaAction::Fail(SearchIndexError::LifecycleLockPoisoned)
    ));
    let fts = "CREATE VIRTUAL TABLE search_documents USING fts5(path)";
    assert!(schema_tables_valid(Some("CREATE TABLE documents"), Some(fts)));
    assert!(!schema_tables_valid(None, Some(fts)));
    assert!(!schema_tables_valid(Some("CREATE TABLE documents"), None));
    assert!(!schema_tables_valid(
        Some("CREATE TABLE documents"),
        Some("CREATE TABLE search_documents (path TEXT)")
    ));
}

#[test]
fn error_answers_carry_relative_details_only() {
    let answer = from_read(MarkdownReadError::Vault(VaultError::TargetNotFound("a.md".to_owned())));
    assert_eq!(answer.message, "Markdown file was not found");
    assert!(matches!(answer.details, ErrorDetails::Path(ref p) if p == "a.md"));

    let answer = from_read(MarkdownReadError::Vault(VaultError::ParentNotFound("a".to_owned())));
    assert_eq!(answer.status, 500);
    assert!(matches!(answer.details, ErrorDetails::Empty));

    let answer = from_write(MarkdownWriteError::Vault(VaultError::ParentNotFound("a".to_owned())));
    assert_eq!(answer.status, 404);
    assert_eq!(answer.message, "Parent directory was not found");
    assert!(matches!(answer.details, ErrorDetails::Path(ref p) if p == "a"));

    let answer = from_tree(TreeReadError::Vault(VaultError::TargetNotFound("docs".to_owned())));
    assert_eq!(answer.message, "Directory was not found");
    assert!(matches!(answer.details, ErrorDetails::Path(ref p) if p == "docs"));
}

fn search_refusal(query: Option<&str>, path_prefix: Option<&str>, limit: Option<&str>) -> (u16, String) {
    let error = validate_search_query(query, path_prefix, limit)
        .expect_err("the request must be refused");
    let answer = from_search_request(&error);
    (answer.status, answer.code.to_owned())
}

#[test]
fn validates_query_prefix_and_limit_with_json_errors() {
    let cases: [(Option<&str>, Option<&str>, Option<&str>, &str); 6] = [
        (None, None, None, "invalid_search_query"),
        (Some("  "), None, None, "invalid_search_query"),
        (Some("test"), None, Some("0"), "invalid_search_limit"),
        (Some("test"), None, Some("101"), "invalid_search_limit"),
        (Some("test"), None, Some("many"), "invalid_search_limit"),
        (Some("test"), Some(".."), None, "invalid_path"),
    ];
    for (query, path_prefix, limit, expected_code) in cases {
        let (status, code) = search_refusal(query, path_prefix, limit);
        assert_eq!(status, 400, "query: {query:?}");
        assert_eq!(code, expected_code, "query: {query:?}");
    }

    let oversized = "가".repeat(180);
    let (status, code) = search_refusal(Some(&oversized), None, None);
    assert_eq!(status, 400);
    assert_eq!(code, "invalid_search_query");
}
