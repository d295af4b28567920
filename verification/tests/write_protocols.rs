use std::io;
use std::time::{Duration, SystemTime};

use knowledgeos_backend::domain::path::MarkdownPath;
use knowledgeos_backend::infrastructure::markdown::{
    IoFailure, MarkdownReadError, ReadAction, ReadAttemptError, ReadEvent, ReadProtocol,
};
use knowledgeos_backend::infrastructure::markdown_writer::{
    CreateAction, CreateEvent, CreateFailure, CreateProtocol, MarkdownUpdateError,
    MarkdownWriteError, UpdateAction, UpdateEvent, UpdateProtocol, written_document,
};
use knowledgeos_backend::infrastructure::vault::VaultError;

fn markdown_path(value: &str) -> MarkdownPath {
    MarkdownPath::parse(value).expect("test Markdown path must be valid")
}

const BASE: &str = "sha256:base";

fn update_until_persisted() -> UpdateProtocol {
    let (mut protocol, action) = UpdateProtocol::start(&markdown_path("a.md"), "new", BASE, 1024);
    assert!(matches!(action, UpdateAction::AcquireLock));
    assert!(matches!(protocol.step(UpdateEvent::Locked(true)), UpdateAction::ReadCurrent));
    assert!(matches!(
        protocol.step(UpdateEvent::CurrentHash(Ok(BASE.to_owned()))),
        UpdateAction::ResolveTarget
    ));
    assert!(matches!(protocol.step(UpdateEvent::TargetResolved(Ok(()))), UpdateAction::NameTemporary));
    assert!(matches!(protocol.step(UpdateEvent::TemporaryNamed(true)), UpdateAction::OpenTemporary));
    assert!(matches!(protocol.step(UpdateEvent::TemporaryOpened(Ok(()))), UpdateAction::Persist));
    assert!(matches!(protocol.step(UpdateEvent::Persisted(Ok(()))), UpdateAction::ReadLatest));
    protocol
}

#[test]
fn an_update_renames_only_after_both_hash_checks() {
    let mut protocol = update_until_persisted();
    assert!(matches!(
        protocol.step(UpdateEvent::LatestHash(Ok(BASE.to_owned()))),
        UpdateAction::ReadMetadata
    ));
    let written_at = SystemTime::UNIX_EPOCH + Duration::from_secs(7);
    assert!(matches!(
        protocol.step(UpdateEvent::MetadataRead(Ok((3, written_at)))),
        UpdateAction::Rename
    ));
    match protocol.step(UpdateEvent::Renamed(Ok(()))) {
        UpdateAction::Succeed { size, modified_at } => {
            assert_eq!(size, 3);
            assert_eq!(modified_at, written_at);
        }
        other => panic!("unexpected action: {other:?}"),
    }
}

#[test]
fn a_concurrent_change_during_the_write_removes_the_temporary_file() {
    let mut protocol = update_until_persisted();
    match protocol.step(UpdateEvent::LatestHash(Ok("sha256:other".to_owned()))) {
        UpdateAction::Fail {
            error: MarkdownUpdateError::HashConflict { actual, expected, .. },
            remove_temporary,
        } => {
            assert!(remove_temporary);
            assert_eq!(actual, "sha256:other");
            assert_eq!(expected, BASE);
        }
        other => panic!("unexpected action: {other:?}"),
    }
}

#[test]
fn a_stale_base_hash_fails_before_any_write() {
    let (mut protocol, _) = UpdateProtocol::start(&markdown_path("a.md"), "new", BASE, 1024);
    protocol.step(UpdateEvent::Locked(true));
    assert!(matches!(
        protocol.step(UpdateEvent::CurrentHash(Ok("sha256:newer".to_owned()))),
        UpdateAction::Fail {
            error: MarkdownUpdateError::HashConflict { .. },
            remove_temporary: false,
        }
    ));
}

#[test]
fn update_failures_before_and_after_the_temporary_file() {
    let (mut protocol, _) = UpdateProtocol::start(&markdown_path("a.md"), "new", BASE, 1024);
    assert!(matches!(
        protocol.step(UpdateEvent::Locked(false)),
        UpdateAction::Fail {
            error: MarkdownUpdateError::LockPoisoned,
            remove_temporary: false,
        }
    ));

    let (mut protocol, _) = UpdateProtocol::start(&markdown_path("a.md"), "new", BASE, 1024);
    protocol.step(UpdateEvent::Locked(true));
    assert!(matches!(
        protocol.step(UpdateEvent::CurrentHash(Err(MarkdownReadError::ReadConflict))),
        UpdateAction::Fail {
            error: MarkdownUpdateError::ReadConflict,
            remove_temporary: false,
        }
    ));

    let mut protocol = update_until_persisted();
    protocol.step(UpdateEvent::LatestHash(Ok(BASE.to_owned())));
    protocol.step(UpdateEvent::MetadataRead(Ok((3, SystemTime::UNIX_EPOCH))));
    assert!(matches!(
        protocol.step(UpdateEvent::Renamed(Err(io::Error::other("busy")))),
        UpdateAction::Fail {
            error: MarkdownUpdateError::Io { .. },
            remove_temporary: true,
        }
    ));

    let (mut protocol, _) = UpdateProtocol::start(&markdown_path("a.md"), "new", BASE, 1024);
    protocol.step(UpdateEvent::Locked(true));
    protocol.step(UpdateEvent::CurrentHash(Ok(BASE.to_owned())));
    assert!(matches!(
        protocol.step(UpdateEvent::TargetResolved(Err(VaultError::TargetNotFound("a.md".to_owned())))),
        UpdateAction::Fail {
            error: MarkdownUpdateError::Vault(VaultError::TargetNotFound(_)),
            remove_temporary: false,
        }
    ));
}

#[test]
fn oversized_updates_fail_before_locking() {
    let (_, action) = UpdateProtocol::start(&markdown_path("a.md"), "too long", BASE, 3);
    assert!(matches!(
        action,
        UpdateAction::Fail {
            error: MarkdownUpdateError::FileTooLarge {
                observed: 8,
                maximum: 3,
                ..
            },
            remove_temporary: false,
        }
    ));
}

#[test]
fn creation_succeeds_after_persisting_and_reading_metadata() {
    let mut protocol = CreateProtocol::start(&markdown_path("a.md"), "body", 1024);
    assert!(matches!(protocol.step(CreateEvent::Locked(true)), CreateAction::ResolveParent));
    assert!(matches!(protocol.step(CreateEvent::ParentResolved(Ok(()))), CreateAction::CreateFile));
    assert!(matches!(protocol.step(CreateEvent::FileCreated(Ok(()))), CreateAction::Persist));
    assert!(matches!(protocol.step(CreateEvent::Persisted(Ok(()))), CreateAction::ReadMetadata));
    match protocol.step(CreateEvent::MetadataRead(Ok((4, SystemTime::UNIX_EPOCH)))) {
        CreateAction::Succeed { size, modified_at } => {
            assert_eq!(size, 4);
            assert_eq!(modified_at, SystemTime::UNIX_EPOCH);
        }
        other => panic!("unexpected action: {other:?}"),
    }
}

#[test]
fn an_existing_target_is_reported_and_never_removed() {
    let mut protocol = CreateProtocol::start(&markdown_path("a.md"), "body", 1024);
    protocol.step(CreateEvent::Locked(true));
    protocol.step(CreateEvent::ParentResolved(Ok(())));
    assert!(matches!(
        protocol.step(CreateEvent::FileCreated(Err(CreateFailure::AlreadyExists))),
        CreateAction::Fail {
            error: MarkdownWriteError::AlreadyExists(_),
            remove_incomplete: false,
        }
    ));
}

#[test]
fn an_incomplete_created_file_is_removed() {
    let mut protocol = CreateProtocol::start(&markdown_path("a.md"), "body", 1024);
    protocol.step(CreateEvent::Locked(true));
    protocol.step(CreateEvent::ParentResolved(Ok(())));
    protocol.step(CreateEvent::FileCreated(Ok(())));
    assert!(matches!(
        protocol.step(CreateEvent::Persisted(Err(io::Error::other("disk full")))),
        CreateAction::Fail {
            error: MarkdownWriteError::Io { .. },
            remove_incomplete: true,
        }
    ));
}

#[test]
fn oversized_creations_fail_after_locking() {
    let mut protocol = CreateProtocol::start(&markdown_path("a.md"), "too long", 3);
    assert!(matches!(
        protocol.step(CreateEvent::Locked(true)),
        CreateAction::Fail {
            error: MarkdownWriteError::FileTooLarge {
                observed: 8,
                maximum: 3,
                ..
            },
            remove_incomplete: false,
        }
    ));
}

#[test]
fn a_read_attempt_reads_only_admitted_files_within_the_limit() {
    let path = markdown_path("note.md");
    let (mut protocol, action) = ReadProtocol::start(&path, 8);
    assert!(matches!(action, ReadAction::Resolve));
    assert!(matches!(protocol.step(ReadEvent::Resolved(Ok(()))), ReadAction::Open));
    assert!(matches!(protocol.step(ReadEvent::Opened(Ok(()))), ReadAction::ReadMetadataBefore));
    assert!(matches!(
        protocol.step(ReadEvent::MetadataBefore(Ok((true, 5)))),
        ReadAction::ReadBytes(9)
    ));
    assert!(matches!(
        protocol.step(ReadEvent::BytesRead(Ok(b"hello".to_vec()))),
        ReadAction::ReadMetadataAfter
    ));
    assert!(matches!(protocol.step(ReadEvent::MetadataAfter(Ok(5))), ReadAction::ReadModifiedTimes));
    let time = SystemTime::UNIX_EPOCH + Duration::from_secs(1);
    match protocol.step(ReadEvent::ModifiedTimes(Ok((time, time)))) {
        ReadAction::Finish(Ok(document)) => {
            assert_eq!(document.content, "hello");
            assert_eq!(document.size, 5);
        }
        other => panic!("unexpected action: {other:?}"),
    }

    let (mut protocol, _) = ReadProtocol::start(&path, 8);
    protocol.step(ReadEvent::Resolved(Ok(())));
    assert!(matches!(
        protocol.step(ReadEvent::Opened(Err(IoFailure::NotFound))),
        ReadAction::Finish(Err(ReadAttemptError::Read(MarkdownReadError::NotFound(_))))
    ));

    let (mut protocol, _) = ReadProtocol::start(&path, 8);
    protocol.step(ReadEvent::Resolved(Ok(())));
    protocol.step(ReadEvent::Opened(Ok(())));
    assert!(matches!(
        protocol.step(ReadEvent::MetadataBefore(Ok((false, 5)))),
        ReadAction::Finish(Err(ReadAttemptError::Read(MarkdownReadError::NotRegularFile(_))))
    ));

    let (mut protocol, _) = ReadProtocol::start(&path, 4);
    protocol.step(ReadEvent::Resolved(Ok(())));
    protocol.step(ReadEvent::Opened(Ok(())));
    protocol.step(ReadEvent::MetadataBefore(Ok((true, 4))));
    assert!(matches!(
        protocol.step(ReadEvent::BytesRead(Ok(b"grown".to_vec()))),
        ReadAction::Finish(Err(ReadAttemptError::Read(MarkdownReadError::FileTooLarge {
            observed: 5,
            maximum: 4,
            ..
        })))
    ));
}

#[test]
fn a_written_document_carries_the_content_hash_and_reported_metadata() {
    let path = markdown_path("프로젝트/지식 노트.md");
    let document = written_document(&path, "# 지식\n".to_owned(), 9, SystemTime::UNIX_EPOCH);
    assert_eq!(document.path, path);
    assert_eq!(document.content, "# 지식\n");
    assert_eq!(
        document.hash,
        "sha256:ffd30acf622b825a0aaa5746605037fc761033187d2e8abeb5cba8982e06cc28"
    );
    assert_eq!(document.size, 9);
    assert_eq!(document.modified_at, SystemTime::UNIX_EPOCH);
}

#[test]
fn oversized_creation_fails_after_locking_without_removal() {
    let mut protocol = CreateProtocol::start(&markdown_path("large.md"), "123456789", 8);
    match protocol.step(CreateEvent::Locked(true)) {
        CreateAction::Fail {
            error: MarkdownWriteError::FileTooLarge { path, observed, maximum },
            remove_incomplete,
        } => {
            assert_eq!(path, "large.md");
            assert_eq!(observed, 9);
            assert_eq!(maximum, 8);
            assert!(!remove_incomplete);
        }
        other => panic!("unexpected action: {other:?}"),
    }
    let mut exact = CreateProtocol::start(&markdown_path("exact.md"), "12345678", 8);
    assert!(matches!(exact.step(CreateEvent::Locked(true)), CreateAction::ResolveParent));
}

#[test]
fn a_failed_persist_removes_the_incomplete_file() {
    let mut protocol = CreateProtocol::start(&markdown_path("incomplete.md"), "body", 1024);
    protocol.step(CreateEvent::Locked(true));
    protocol.step(CreateEvent::ParentResolved(Ok(())));
    protocol.step(CreateEvent::FileCreated(Ok(())));
    match protocol.step(CreateEvent::Persisted(Err(io::Error::other("injected")))) {
        CreateAction::Fail {
            error: MarkdownWriteError::Io { path, .. },
            remove_incomplete,
        } => {
            assert_eq!(path, "incomplete.md");
            assert!(remove_incomplete);
        }
        other => panic!("unexpected action: {other:?}"),
    }
}
