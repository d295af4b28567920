use knowledgeos_backend::domain::path::MarkdownPath;
use std::time::{Duration, SystemTime};

use knowledgeos_backend::infrastructure::markdown::{
    enforce_size, with_single_retry, MarkdownReadError, ReadAction, ReadAttemptError, ReadEvent,
    ReadNext, ReadSession,
};

fn markdown_path(value: &str) -> MarkdownPath {
    MarkdownPath::parse(value).expect("test Markdown path must be valid")
}

#[test]
fn rejects_an_observed_growth_beyond_the_limit() {
    let error = enforce_size(&markdown_path("growing.md"), 33, 32)
        .expect_err("growth beyond the limit should be rejected");

    assert!(matches!(
        error,
        MarkdownReadError::FileTooLarge {
            observed: 33,
            maximum: 32,
            ..
        }
    ));
}

#[test]
fn retries_one_changed_snapshot_then_returns_success() {
    let mut calls = 0;
    let result = with_single_retry(|| {
        calls += 1;
        if calls == 1 {
            Err(ReadAttemptError::Changed)
        } else {
            Ok("stable")
        }
    });

    assert_eq!(result.expect("second snapshot should succeed"), "stable");
    assert_eq!(calls, 2);
}

#[test]
fn returns_conflict_after_two_changed_snapshots() {
    let result: Result<(), MarkdownReadError> =
        with_single_retry(|| Err(ReadAttemptError::Changed));

    assert!(matches!(result, Err(MarkdownReadError::ReadConflict)));
}

fn read_through(
    session: &mut ReadSession,
    bytes: &[u8],
    first: SystemTime,
    last: SystemTime,
) -> ReadNext {
    let length = bytes.len() as u64;
    for event in [
        ReadEvent::Resolved(Ok(())),
        ReadEvent::Opened(Ok(())),
        ReadEvent::MetadataBefore(Ok((true, length))),
        ReadEvent::BytesRead(Ok(bytes.to_vec())),
        ReadEvent::MetadataAfter(Ok(length)),
    ] {
        match session.step(event) {
            ReadNext::Act(_) => {}
            other => return other,
        }
    }
    session.step(ReadEvent::ModifiedTimes(Ok((first, last))))
}

#[test]
fn a_whole_read_of_a_stable_file_gives_its_document() {
    let time = SystemTime::UNIX_EPOCH + Duration::from_secs(5);
    let (mut session, action) = ReadSession::start(&markdown_path("note.md"), 32);
    assert!(matches!(action, ReadAction::Resolve));
    match read_through(&mut session, b"abc", time, time) {
        ReadNext::Done(Ok(document)) => {
            assert_eq!(document.content, "abc");
            assert_eq!(document.size, 3);
            assert_eq!(
                document.hash,
                "sha256:ba7816bf8f01cfea414140de5dae2223b00361a396177a9cb410ff61f20015ad"
            );
            assert_eq!(document.modified_at, time);
        }
        other => panic!("unexpected step: {other:?}"),
    }
}

#[test]
fn a_whole_read_retries_once_then_reports_a_conflict() {
    let first = SystemTime::UNIX_EPOCH;
    let later = first + Duration::from_secs(1);
    let (mut session, _) = ReadSession::start(&markdown_path("note.md"), 32);
    assert!(matches!(
        read_through(&mut session, b"abc", first, later),
        ReadNext::Act(ReadAction::Resolve)
    ));
    assert!(matches!(
        read_through(&mut session, b"abc", first, later),
        ReadNext::Done(Err(MarkdownReadError::ReadConflict))
    ));
}

#[test]
fn a_whole_read_refuses_a_file_above_the_limit() {
    let (mut session, _) = ReadSession::start(&markdown_path("large.md"), 32);
    session.step(ReadEvent::Resolved(Ok(())));
    session.step(ReadEvent::Opened(Ok(())));
    match session.step(ReadEvent::MetadataBefore(Ok((true, 33)))) {
        ReadNext::Done(Err(MarkdownReadError::FileTooLarge { path, observed, maximum })) => {
            assert_eq!(path, "large.md");
            assert_eq!(observed, 33);
            assert_eq!(maximum, 32);
        }
        other => panic!("unexpected step: {other:?}"),
    }
}
