use std::time::{Duration, SystemTime};

use knowledgeos_backend::api::error::{from_read, from_update, internal};
use knowledgeos_backend::api::files::{is_valid_sha256_hash, json_body_limit};
use knowledgeos_backend::api::health::HealthResponse;
use knowledgeos_backend::api::search::{validate_search_query, SearchRequestError};
use knowledgeos_backend::domain::document::MarkdownDocument;
use knowledgeos_backend::domain::path::{CanonicalPath, MarkdownPath};
use knowledgeos_backend::domain::tree::{TreeEntry, TreeEntryKind};
use knowledgeos_backend::infrastructure::digest::content_hash;
use knowledgeos_backend::infrastructure::index_sync::{
    index_document, is_searchable, md_extension, scan_step, ScanStep,
};
use knowledgeos_backend::infrastructure::markdown::{
    admit_file, finish_snapshot, with_single_retry, MarkdownReadError, ReadAttemptError,
};
use knowledgeos_backend::infrastructure::markdown_writer::{
    check_create_size, enforce_base_hash, MarkdownUpdateError, MarkdownWriteError,
};
use knowledgeos_backend::infrastructure::search_index::{
    check_unique_paths, reconcile_plan, tags_text, tally_reconciliation, upsert_plan,
    IndexMutation, SearchIndexError, StoredFtsDocument, StoredIndexDocument,
};
use knowledgeos_backend::infrastructure::tree::{plan_entry, sort_entries, EntryPlan};
use knowledgeos_backend::infrastructure::vault::{check_walked_segment, walked_display, VaultError};

fn markdown_path(value: &str) -> MarkdownPath {
    MarkdownPath::parse(value).expect("test Markdown path must be valid")
}

fn canonical(value: &str) -> CanonicalPath {
    CanonicalPath::parse(value).expect("test path must be valid")
}

fn document(path: &str, content: &str) -> MarkdownDocument {
    MarkdownDocument {
        path: markdown_path(path),
        content: content.to_owned(),
        hash: content_hash(content.as_bytes()),
        size: content.len() as u64,
        modified_at: SystemTime::UNIX_EPOCH,
    }
}

#[test]
fn content_hash_is_the_prefixed_standard_digest() {
    let hash = content_hash(b"abc");
    assert_eq!(
        hash,
        "sha256:ba7816bf8f01cfea414140de5dae2223b00361a396177a9cb410ff61f20015ad"
    );
    assert!(is_valid_sha256_hash(&hash));
    assert_eq!(
        content_hash(b""),
        "sha256:e3b0c44298fc1c149afbf4c8996fb92427ae41e4649b934ca495991b7852b855"
    );
}

#[test]
fn base_hash_validation_requires_prefix_and_lowercase_hex() {
    let digest = "a".repeat(64);
    assert!(is_valid_sha256_hash(&format!("sha256:{digest}")));
    assert!(!is_valid_sha256_hash(&format!("sha256:{}", "A".repeat(64))));
    assert!(!is_valid_sha256_hash(&format!("sha1:{digest}")));
    assert!(!is_valid_sha256_hash(&format!("sha256:{}", "a".repeat(63))));
    assert!(!is_valid_sha256_hash(""));
}

#[test]
fn body_limit_allows_json_escaping_and_saturates() {
    assert_eq!(json_body_limit(1024), 1024 * 6 + 64 * 1024);
    assert_eq!(json_body_limit(0), 64 * 1024);
    assert_eq!(json_body_limit(u64::MAX), usize::MAX);
}

#[test]
fn base_hash_conflict_reports_both_hashes() {
    let path = markdown_path("notes/a.md");
    assert!(enforce_base_hash(&path, "sha256:x", "sha256:x").is_ok());
    match enforce_base_hash(&path, "sha256:old", "sha256:new") {
        Err(MarkdownUpdateError::HashConflict {
            path,
            expected,
            actual,
        }) => {
            assert_eq!(path, "notes/a.md");
            assert_eq!(expected, "sha256:old");
            assert_eq!(actual, "sha256:new");
        }
        other => panic!("unexpected result: {other:?}"),
    }
}

#[test]
fn create_size_limit_is_inclusive() {
    let path = markdown_path("a.md");
    assert!(check_create_size(&path, "abcd", 4).is_ok());
    assert!(matches!(
        check_create_size(&path, "abcde", 4),
        Err(MarkdownWriteError::FileTooLarge {
            observed: 5,
            maximum: 4,
            ..
        })
    ));
}

#[test]
fn metadata_read_failures_become_unknown_path_update_errors() {
    let error = MarkdownUpdateError::from_read(MarkdownReadError::Metadata(std::io::Error::other(
        "denied",
    )));
    assert!(matches!(error, MarkdownUpdateError::Metadata { ref path, .. } if path == "unknown"));
    assert!(matches!(
        MarkdownUpdateError::from_read(MarkdownReadError::ReadConflict),
        MarkdownUpdateError::ReadConflict
    ));
}

#[test]
fn admits_only_regular_files_within_the_limit() {
    let path = markdown_path("a.md");
    assert!(admit_file(&path, true, 32, 32).is_ok());
    assert!(matches!(
        admit_file(&path, false, 1, 32),
        Err(MarkdownReadError::NotRegularFile(p)) if p == "a.md"
    ));
    assert!(matches!(
        admit_file(&path, true, 33, 32),
        Err(MarkdownReadError::FileTooLarge { observed: 33, .. })
    ));
}

#[test]
fn snapshots_detect_changes_invalid_text_and_build_documents() {
    let path = markdown_path("note.md");
    let epoch = SystemTime::UNIX_EPOCH;
    let later = epoch + Duration::from_secs(5);

    assert!(matches!(
        finish_snapshot(&path, b"abc".to_vec(), 3, &epoch, 3, &later),
        Err(ReadAttemptError::Changed)
    ));
    assert!(matches!(
        finish_snapshot(&path, b"abc".to_vec(), 3, &epoch, 4, &epoch),
        Err(ReadAttemptError::Changed)
    ));
    assert!(matches!(
        finish_snapshot(&path, vec![0xff, 0xfe], 2, &epoch, 2, &epoch),
        Err(ReadAttemptError::Read(MarkdownReadError::InvalidUtf8(_)))
    ));
    let document = finish_snapshot(&path, "# 지식\n".as_bytes().to_vec(), 9, &later, 9, &later)
        .expect("consistent snapshot should be accepted");
    assert_eq!(document.content, "# 지식\n");
    assert_eq!(document.size, 9);
    assert_eq!(document.hash, content_hash("# 지식\n".as_bytes()));
    assert_eq!(document.modified_at, later);
}

#[test]
fn retries_stop_after_a_success_or_a_read_error() {
    let mut calls = 0;
    let result = with_single_retry(|| {
        calls += 1;
        Ok::<_, ReadAttemptError>(calls)
    });
    assert_eq!(result.expect("first attempt succeeds"), 1);
    assert_eq!(calls, 1);

    let mut calls = 0;
    let result: Result<(), MarkdownReadError> = with_single_retry(|| {
        calls += 1;
        Err(ReadAttemptError::Read(MarkdownReadError::NotFound(
            "gone.md".to_owned(),
        )))
    });
    assert!(matches!(result, Err(MarkdownReadError::NotFound(_))));
    assert_eq!(calls, 1);
}

#[test]
fn walked_prefixes_and_segment_rules() {
    let path = canonical("projects/notes/today.md");
    assert_eq!(walked_display(&path, 1), "projects");
    assert_eq!(walked_display(&path, 2), "projects/notes");
    assert_eq!(walked_display(&path, 3), path.as_str());

    let display = "projects".to_owned();
    assert!(check_walked_segment(&display, false, true, false).is_ok());
    assert!(check_walked_segment(&display, false, false, true).is_ok());
    assert!(matches!(
        check_walked_segment(&display, true, true, false),
        Err(VaultError::SymlinkNotAllowed(p)) if p == "projects"
    ));
    assert!(matches!(
        check_walked_segment(&display, false, false, false),
        Err(VaultError::NonDirectoryAncestor(p)) if p == "projects"
    ));
}

#[test]
fn segments_join_back_to_the_path() {
    let path = canonical("프로젝트/지식 운영체제/note.md");
    assert_eq!(path.segments().join("/"), path.as_str());
}

#[test]
fn tree_children_are_planned_by_name_kind_and_path_rules() {
    let parent = canonical("projects");
    assert!(matches!(
        plan_entry(Some(&parent), ".hidden", false, true, false, 0),
        EntryPlan::Skip
    ));
    assert!(matches!(
        plan_entry(Some(&parent), "link.md", true, false, true, 3),
        EntryPlan::Skip
    ));
    assert!(matches!(
        plan_entry(Some(&parent), "notes.txt", false, false, true, 3),
        EntryPlan::Skip
    ));
    match plan_entry(Some(&parent), "note.md", false, false, true, 42) {
        EntryPlan::File(path, size) => {
            assert_eq!(path.as_str(), "projects/note.md");
            assert_eq!(size, 42);
        }
        other => panic!("unexpected plan: {other:?}"),
    }
    match plan_entry(None, "archive", false, true, false, 0) {
        EntryPlan::Directory(path) => assert_eq!(path.as_str(), "archive"),
        other => panic!("unexpected plan: {other:?}"),
    }
}

fn entry(kind: TreeEntryKind, name: &str) -> TreeEntry {
    TreeEntry {
        kind,
        name: name.to_owned(),
        path: canonical(name),
        size: None,
        modified_at: SystemTime::UNIX_EPOCH,
    }
}

#[test]
fn listings_put_directories_first_then_sort_by_name() {
    let sorted = sort_entries(vec![
        entry(TreeEntryKind::File, "b.md"),
        entry(TreeEntryKind::Directory, "z"),
        entry(TreeEntryKind::File, "a.md"),
        entry(TreeEntryKind::Directory, "a"),
        entry(TreeEntryKind::File, "가.md"),
    ]);
    let names: Vec<&str> = sorted.iter().map(|entry| entry.name.as_str()).collect();
    assert_eq!(names, ["a", "z", "a.md", "b.md", "가.md"]);
}

#[test]
fn trash_is_not_searchable_and_scans_skip_hidden_entries() {
    assert!(!is_searchable(&markdown_path("_trash/2026/old.md")));
    assert!(is_searchable(&markdown_path("notes/_trash.md")));
    assert!(is_searchable(&markdown_path("trash/a.md")));

    assert_eq!(scan_step(".git", true, false, true, false), ScanStep::Ignore);
    assert_eq!(scan_step("_trash", true, false, true, false), ScanStep::Ignore);
    assert_eq!(scan_step("_trash", false, false, true, false), ScanStep::Descend);
    assert_eq!(scan_step("link", false, true, true, false), ScanStep::Skip);
    assert_eq!(scan_step("note.md", false, false, false, true), ScanStep::File);
    assert_eq!(scan_step("fifo", false, false, false, false), ScanStep::Skip);

    assert!(md_extension("note.md"));
    assert!(!md_extension("note.MD"));
    assert!(!md_extension("md"));
}

#[test]
fn upserts_skip_unchanged_hashes_unless_forced() {
    let hash = "sha256:1".to_owned();
    let other = "sha256:2".to_owned();
    assert_eq!(upsert_plan(Some(&hash), &hash, false), IndexMutation::Unchanged);
    assert_eq!(upsert_plan(Some(&hash), &hash, true), IndexMutation::Updated);
    assert_eq!(upsert_plan(Some(&other), &hash, false), IndexMutation::Updated);
    assert_eq!(upsert_plan(None, &hash, false), IndexMutation::Inserted);
}

#[test]
fn reconciliation_counts_every_document_once() {
    assert_eq!(reconcile_plan(false, false), IndexMutation::Inserted);
    assert_eq!(reconcile_plan(true, true), IndexMutation::Unchanged);
    assert_eq!(reconcile_plan(true, false), IndexMutation::Updated);

    let report = tally_reconciliation(
        &vec![
            IndexMutation::Inserted,
            IndexMutation::Unchanged,
            IndexMutation::Updated,
            IndexMutation::Inserted,
        ],
        &vec![true, false, true],
    );
    assert_eq!(report.inserted, 2);
    assert_eq!(report.updated, 1);
    assert_eq!(report.unchanged, 1);
    assert_eq!(report.deleted, 2);
}

#[test]
fn duplicate_projection_paths_are_refused() {
    let first = index_document(&document("a.md", "one"));
    let second = index_document(&document("b.md", "two"));
    let again = index_document(&document("a.md", "three"));
    assert!(check_unique_paths(&vec![first.clone(), second.clone()]).is_ok());
    assert!(matches!(
        check_unique_paths(&vec![first, second, again]),
        Err(SearchIndexError::DuplicateProjectionPath(p)) if p == "a.md"
    ));
}

#[test]
fn stored_rows_match_only_identical_projections() {
    let indexed = index_document(&document("tags.md", "#alpha #beta\n본문"));
    assert_eq!(tags_text(&indexed.projection.tags), "alpha beta");
    let stored = StoredIndexDocument {
        title: indexed.projection.title.clone(),
        body: indexed.projection.body.clone(),
        content_hash: indexed.projection.content_hash.clone(),
        modified_at: "1970-01-01T00:00:00Z".to_owned(),
        frontmatter_json: None,
        fts_rows: vec![StoredFtsDocument {
            title: indexed.projection.title.clone(),
            body: indexed.projection.body.clone(),
            tags: "alpha beta".to_owned(),
        }],
    };
    assert!(stored.matches(&indexed, &"1970-01-01T00:00:00Z".to_owned()));
    assert!(!stored.matches(&indexed, &"1970-01-01T00:00:01Z".to_owned()));
}

#[test]
fn projections_never_repeat_tags_or_links() {
    let indexed = index_document(&document(
        "dup.md",
        "#Alpha #alpha #ALPHA [x](a.md) [y](a.md) [[a]] [[ a ]]",
    ));
    assert_eq!(indexed.projection.tags, ["alpha"]);
    assert_eq!(indexed.projection.links.len(), 2);
}

#[test]
fn search_queries_are_trimmed_and_limited() {
    let query = validate_search_query(Some("  지식 검색 "), Some(""), None).expect("valid query");
    assert_eq!(query.text, "지식 검색");
    assert_eq!(query.limit, 20);
    assert!(query.path_prefix.is_none());

    let query = validate_search_query(Some("a"), Some("notes"), Some("100")).expect("valid query");
    assert_eq!(query.limit, 100);
    assert_eq!(query.path_prefix.map(|p| p.as_str().to_owned()), Some("notes".to_owned()));

    assert!(matches!(validate_search_query(None, None, None), Err(SearchRequestError::InvalidQuery)));
    assert!(matches!(validate_search_query(Some("   "), None, None), Err(SearchRequestError::InvalidQuery)));
    assert!(matches!(
        validate_search_query(Some(&"a".repeat(513)), None, None),
        Err(SearchRequestError::InvalidQuery)
    ));
    assert!(matches!(
        validate_search_query(Some("a"), Some("../x"), None),
        Err(SearchRequestError::InvalidPath(_))
    ));
    for limit in ["0", "101", "x", "-1"] {
        assert!(matches!(
            validate_search_query(Some("a"), None, Some(limit)),
            Err(SearchRequestError::InvalidLimit)
        ));
    }
}

#[test]
fn failures_map_to_public_statuses() {
    assert_eq!(from_read(MarkdownReadError::NotFound("a.md".to_owned())).status, 404);
    assert_eq!(from_read(MarkdownReadError::ReadConflict).status, 409);
    assert_eq!(
        from_read(MarkdownReadError::Vault(VaultError::SymlinkNotAllowed("a".to_owned()))).status,
        403
    );
    let conflict = from_update(MarkdownUpdateError::HashConflict {
        path: "a.md".to_owned(),
        expected: "sha256:old".to_owned(),
        actual: "sha256:new".to_owned(),
    });
    assert_eq!(conflict.status, 409);
    assert_eq!(conflict.code, "write_conflict");
    assert_eq!(internal().status, 500);
}

#[test]
fn health_reports_ok() {
    let response = HealthResponse::new("1.2.3", "/vault".to_owned());
    assert_eq!(response.status(), "ok");
    assert_eq!(response.version(), "1.2.3");
    assert_eq!(response.knowledge_root(), "/vault");
}
