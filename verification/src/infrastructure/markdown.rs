//! Stable UTF-8 snapshots of Markdown files.
//!
//! Reading a file is outside work; what the library decides is whether an
//! observed file may be read, whether what was read is a consistent snapshot,
//! what document it gives, and when a changed snapshot is retried.

use std::time::SystemTime;

use vstd::prelude::*;
use vstd::utf8::{decode_utf8, valid_utf8};

use crate::domain::document::MarkdownDocument;
use crate::domain::path::MarkdownPath;
use crate::infrastructure::digest::{content_hash, content_hash_spec, decode_text};
use crate::infrastructure::vault::{VaultError, VaultRoot};

verus! {

/// Reads stable UTF-8 Markdown snapshots inside one Vault, refusing files
/// larger than `max_bytes`.
#[derive(Debug)]
pub struct MarkdownReader {
    vault: VaultRoot,
    max_bytes: u64,
}

impl MarkdownReader {
    /// The Vault the reader reads from.
    pub closed spec fn vault_spec(&self) -> VaultRoot {
        self.vault
    }

    /// The largest file the reader accepts, in bytes.
    pub closed spec fn max_bytes_spec(&self) -> u64 {
        self.max_bytes
    }

    /// A reader over `vault` that accepts files of at most `max_bytes` bytes.
    pub fn new(vault: VaultRoot, max_bytes: u64) -> (reader: Self)
        ensures
            reader.vault_spec() == vault,
            reader.max_bytes_spec() == max_bytes,
    {
        MarkdownReader { vault, max_bytes }
    }

    /// The Vault the reader reads from.
    pub fn vault(&self) -> (vault: &VaultRoot)
        ensures
            *vault == self.vault_spec(),
    {
        &self.vault
    }

    /// Starts reading a stable snapshot of `path` with this reader's size
    /// limit: the first attempt begins by resolving the path in the Vault.
    pub fn read(&self, path: &MarkdownPath) -> (r: (ReadSession, ReadAction))
        ensures
            r.0.inv(),
            r.0.path_spec() == path@,
            r.0.max_bytes_spec() == self.max_bytes_spec(),
            r.0.attempts_spec() == 1,
            r.0.attempt_spec().stage_spec() == ReadStage::Resolve,
            !r.0.is_done(),
            r.1 is Resolve,
    {
        ReadSession::start(path, self.max_bytes)
    }

    /// The largest file the reader accepts, in bytes.
    pub fn max_bytes(&self) -> (max_bytes: u64)
        ensures
            max_bytes == self.max_bytes_spec(),
    {
        self.max_bytes
    }
}

impl Clone for MarkdownReader {
    fn clone(&self) -> (copy: Self)
        ensures
            copy == *self,
    {
        MarkdownReader { vault: self.vault.clone(), max_bytes: self.max_bytes }
    }
}

/// Why a Markdown file could not be read.
#[derive(Debug)]
pub enum MarkdownReadError {
    Vault(VaultError),
    NotFound(String),
    NotRegularFile(String),
    FileTooLarge { path: String, observed: u64, maximum: u64 },
    InvalidUtf8(String),
    ReadConflict,
    Io { path: String, source: std::io::Error },
    Metadata(std::io::Error),
}

/// How one read attempt ended without a document: the file changed while it
/// was read, or reading failed.
#[derive(Debug)]
pub enum ReadAttemptError {
    Changed,
    Read(MarkdownReadError),
}

/// The error for a size above the limit.
pub open spec fn too_large(path: Seq<char>, observed: u64, maximum: u64, e: MarkdownReadError) -> bool {
    e matches MarkdownReadError::FileTooLarge { path: p, observed: o, maximum: m } && p@ == path
        && o == observed && m == maximum
}

/// Refuses a size above the limit.
pub fn enforce_size(path: &MarkdownPath, observed: u64, maximum: u64) -> (r: Result<(), MarkdownReadError>)
    ensures
        r is Ok <==> observed <= maximum,
        r matches Err(e) ==> too_large(path@, observed, maximum, e),
{
    if observed > maximum {
        return Err(
            MarkdownReadError::FileTooLarge { path: path.as_str().to_owned(), observed, maximum },
        );
    }
    Ok(())
}

/// The outcome of reading with one retry: the first attempt's document or
/// error stands, except that a changed snapshot is retried once, and a
/// second changed snapshot is a conflict.
pub open spec fn retry_outcome<T>(
    first: Result<T, ReadAttemptError>,
    second: Result<T, ReadAttemptError>,
) -> Result<T, MarkdownReadError> {
    match first {
        Ok(v) => Ok(v),
        Err(ReadAttemptError::Read(e)) => Err(e),
        Err(ReadAttemptError::Changed) => match second {
            Ok(v) => Ok(v),
            Err(ReadAttemptError::Read(e)) => Err(e),
            Err(ReadAttemptError::Changed) => Err(MarkdownReadError::ReadConflict),
        },
    }
}

/// Runs `attempt`, and runs it once more only when the first attempt saw the
/// file change. The second attempt's result is kept only in that case.
pub fn with_single_retry<T, F: FnMut() -> Result<T, ReadAttemptError>>(mut attempt: F) -> (r: Result<
    T,
    MarkdownReadError,
>)
    requires
        call_requires(attempt, ()),
    ensures
        exists|first: Result<T, ReadAttemptError>, second: Result<T, ReadAttemptError>|
            call_ensures(attempt, (), first) && (first matches Err(ReadAttemptError::Changed)
                ==> call_ensures(attempt, (), second)) && r == retry_outcome(first, second),
{
    let first = attempt();
    let ghost first_outcome = first;
    match first {
        Ok(value) => {
            let r = Ok(value);
            assert(r == retry_outcome(first_outcome, first_outcome));
            r
        },
        Err(ReadAttemptError::Read(error)) => {
            let r = Err(error);
            assert(r == retry_outcome(first_outcome, first_outcome));
            r
        },
        Err(ReadAttemptError::Changed) => {
            let second = attempt();
            let ghost second_outcome = second;
            let r = match second {
                Ok(value) => Ok(value),
                Err(ReadAttemptError::Read(error)) => Err(error),
                Err(ReadAttemptError::Changed) => Err(MarkdownReadError::ReadConflict),
            };
            assert(r == retry_outcome(first_outcome, second_outcome));
            r
        },
    }
}

/// Whether a file may be read: it must be a regular file within the size limit.
pub fn admit_file(path: &MarkdownPath, is_regular_file: bool, length: u64, maximum: u64) -> (r: Result<(), MarkdownReadError>)
    ensures
        !is_regular_file ==> (r matches Err(MarkdownReadError::NotRegularFile(p)) && p@ == path@),
        is_regular_file ==> (r is Ok <==> length <= maximum),
        is_regular_file && r is Err ==> too_large(path@, length, maximum, r->Err_0),
{
    if !is_regular_file {
        return Err(MarkdownReadError::NotRegularFile(path.as_str().to_owned()));
    }
    enforce_size(path, length, maximum)
}

/// A read is no consistent snapshot when the file length changed, the bytes
/// read differ from the length, or the modification time changed.
pub open spec fn snapshot_changed_spec(
    before_len: u64,
    after_len: u64,
    bytes_read: u64,
    before_modified: SystemTime,
    after_modified: SystemTime,
) -> bool {
    before_len != after_len || after_len != bytes_read || before_modified != after_modified
}

/// Whether the metadata seen before and after reading shows a changed file.
pub fn snapshot_changed(
    before_len: u64,
    after_len: u64,
    bytes_read: u64,
    before_modified: &SystemTime,
    after_modified: &SystemTime,
) -> (changed: bool)
    ensures
        changed == snapshot_changed_spec(before_len, after_len, bytes_read, *before_modified, *after_modified),
{
    before_len != after_len || after_len != bytes_read || !(*before_modified == *after_modified)
}

/// Turns the bytes of one consistent read into a document: a changed
/// snapshot is reported for a retry, bytes that are not UTF-8 are refused,
/// and otherwise the document carries the text, its content hash, its size
/// and the modification time seen after reading.
pub fn finish_snapshot(
    path: &MarkdownPath,
    bytes: Vec<u8>,
    before_len: u64,
    before_modified: &SystemTime,
    after_len: u64,
    after_modified: &SystemTime,
) -> (r: Result<MarkdownDocument, ReadAttemptError>)
    ensures
        snapshot_changed_spec(before_len, after_len, bytes@.len() as u64, *before_modified, *after_modified)
            ==> r matches Err(ReadAttemptError::Changed),
        !snapshot_changed_spec(before_len, after_len, bytes@.len() as u64, *before_modified, *after_modified)
            ==> match r {
            Ok(doc) => valid_utf8(bytes@) && doc.path@ == path@ && doc.content@ == decode_utf8(bytes@)
                && doc.hash@ == content_hash_spec(bytes@) && doc.size == bytes@.len()
                && doc.modified_at == *after_modified,
            Err(e) => !valid_utf8(bytes@) && (e matches ReadAttemptError::Read(
                MarkdownReadError::InvalidUtf8(p),
            ) && p@ == path@),
        },
{
    let size = bytes.len() as u64;
    if snapshot_changed(before_len, after_len, size, before_modified, after_modified) {
        return Err(ReadAttemptError::Changed);
    }
    let hash = content_hash(bytes.as_slice());
    let content = match decode_text(bytes) {
        Some(text) => text,
        None => {
            return Err(
                ReadAttemptError::Read(MarkdownReadError::InvalidUtf8(path.as_str().to_owned())),
            );
        },
    };
    Ok(MarkdownDocument { path: path.clone(), content, hash, size, modified_at: after_modified.clone() })
}

// ----- one read attempt -----

/// Why a filesystem call of a read failed.
#[derive(Debug)]
pub enum IoFailure {
    NotFound,
    Other(std::io::Error),
}

/// Where a read attempt stands.
#[derive(Clone, Copy, Debug, Eq, PartialEq, Structural)]
pub enum ReadStage {
    Resolve,
    Open,
    MetadataBefore,
    ReadBytes,
    MetadataAfter,
    ModifiedTimes,
    Finished,
}

/// What the outside work reported.
#[derive(Debug)]
pub enum ReadEvent {
    Resolved(Result<(), VaultError>),
    Opened(Result<(), IoFailure>),
    /// Whether the opened file is a regular file, and its length.
    MetadataBefore(Result<(bool, u64), IoFailure>),
    /// The bytes read, at most one more than the limit.
    BytesRead(Result<Vec<u8>, IoFailure>),
    /// The length of the file after reading.
    MetadataAfter(Result<u64, IoFailure>),
    /// The modification times before and after reading.
    ModifiedTimes(Result<(SystemTime, SystemTime), std::io::Error>),
}

/// What to do next.
#[derive(Debug)]
pub enum ReadAction {
    Resolve,
    Open,
    ReadMetadataBefore,
    /// Read at most this many bytes.
    ReadBytes(u64),
    ReadMetadataAfter,
    ReadModifiedTimes,
    /// The attempt ended with this document or error.
    Finish(Result<MarkdownDocument, ReadAttemptError>),
}

/// The decisions of one read attempt: only a regular file within the size
/// limit is read, at most one byte past the limit, and a document comes only
/// from bytes within the limit whose file did not change while they were read.
pub struct ReadProtocol {
    path: MarkdownPath,
    max_bytes: u64,
    stage: ReadStage,
    before_len: u64,
    bytes: Vec<u8>,
    after_len: u64,
    admitted: Ghost<bool>,
    bytes_within_limit: Ghost<bool>,
}

/// The report that each read stage waits for.
pub open spec fn read_event_fits(stage: ReadStage, event: ReadEvent) -> bool {
    match (stage, event) {
        (ReadStage::Resolve, ReadEvent::Resolved(_)) => true,
        (ReadStage::Open, ReadEvent::Opened(_)) => true,
        (ReadStage::MetadataBefore, ReadEvent::MetadataBefore(_)) => true,
        (ReadStage::ReadBytes, ReadEvent::BytesRead(_)) => true,
        (ReadStage::MetadataAfter, ReadEvent::MetadataAfter(_)) => true,
        (ReadStage::ModifiedTimes, ReadEvent::ModifiedTimes(_)) => true,
        _ => false,
    }
}

/// The read error for a failed filesystem call on `path`.
pub open spec fn io_failure_error(path: Seq<char>, failure: IoFailure, e: MarkdownReadError) -> bool {
    match failure {
        IoFailure::NotFound => e matches MarkdownReadError::NotFound(p) && p@ == path,
        IoFailure::Other(source) => e matches MarkdownReadError::Io { path: p, source: s } && p@ == path
            && s == source,
    }
}

/// The number of bytes one attempt reads: one past the limit, so that a file
/// that grew is noticed.
pub open spec fn read_limit(max_bytes: u64) -> u64 {
    if max_bytes < u64::MAX {
        (max_bytes + 1) as u64
    } else {
        u64::MAX
    }
}

/// What a consistent or changed snapshot of `bytes` gives.
pub open spec fn snapshot_outcome(
    path: Seq<char>,
    bytes: Seq<u8>,
    before_len: u64,
    before_modified: SystemTime,
    after_len: u64,
    after_modified: SystemTime,
    r: Result<MarkdownDocument, ReadAttemptError>,
) -> bool {
    if snapshot_changed_spec(before_len, after_len, bytes.len() as u64, before_modified, after_modified) {
        r matches Err(ReadAttemptError::Changed)
    } else {
        match r {
            Ok(doc) => valid_utf8(bytes) && doc.path@ == path && doc.content@ == decode_utf8(bytes)
                && doc.hash@ == content_hash_spec(bytes) && doc.size == bytes.len()
                && doc.modified_at == after_modified,
            Err(e) => !valid_utf8(bytes) && (e matches ReadAttemptError::Read(
                MarkdownReadError::InvalidUtf8(p),
            ) && p@ == path),
        }
    }
}

/// One step of a read attempt: the next stage, what it records and the
/// action, for each report of the stage it waited in.
pub open spec fn read_step_spec(
    before: ReadProtocol,
    event: ReadEvent,
    after: ReadProtocol,
    action: ReadAction,
) -> bool {
    let path = before.path_spec();
    let max = before.max_bytes_spec();
    let finished = after.stage_spec() == ReadStage::Finished;
    &&& after.path_spec() == path
    &&& after.max_bytes_spec() == max
    &&& match event {
        ReadEvent::Resolved(Ok(())) => after.stage_spec() == ReadStage::Open && action is Open,
        ReadEvent::Resolved(Err(e)) => finished && action == ReadAction::Finish(
            Err(ReadAttemptError::Read(MarkdownReadError::Vault(e))),
        ),
        ReadEvent::Opened(Ok(())) => after.stage_spec() == ReadStage::MetadataBefore
            && action is ReadMetadataBefore,
        ReadEvent::Opened(Err(f)) => finished && (action matches ReadAction::Finish(
            Err(ReadAttemptError::Read(e)),
        ) && io_failure_error(path, f, e)),
        ReadEvent::MetadataBefore(Ok((regular, length))) => if !regular {
            finished && (action matches ReadAction::Finish(
                Err(ReadAttemptError::Read(MarkdownReadError::NotRegularFile(p))),
            ) && p@ == path)
        } else if length > max {
            finished && (action matches ReadAction::Finish(Err(ReadAttemptError::Read(e)))
                && too_large(path, length, max, e))
        } else {
            after.stage_spec() == ReadStage::ReadBytes && after.before_len_spec() == length
                && action == ReadAction::ReadBytes(read_limit(max))
        },
        ReadEvent::MetadataBefore(Err(f)) => finished && (action matches ReadAction::Finish(
            Err(ReadAttemptError::Read(e)),
        ) && io_failure_error(path, f, e)),
        ReadEvent::BytesRead(Ok(bytes)) => if bytes@.len() > max {
            finished && (action matches ReadAction::Finish(Err(ReadAttemptError::Read(e)))
                && too_large(path, bytes@.len() as u64, max, e))
        } else {
            after.stage_spec() == ReadStage::MetadataAfter && after.bytes_spec() == bytes@
                && after.before_len_spec() == before.before_len_spec() && action is ReadMetadataAfter
        },
        ReadEvent::BytesRead(Err(f)) => finished && (action matches ReadAction::Finish(
            Err(ReadAttemptError::Read(e)),
        ) && io_failure_error(path, f, e)),
        ReadEvent::MetadataAfter(Ok(length)) => after.stage_spec() == ReadStage::ModifiedTimes
            && after.after_len_spec() == length && after.bytes_spec() == before.bytes_spec()
            && after.before_len_spec() == before.before_len_spec() && action is ReadModifiedTimes,
        ReadEvent::MetadataAfter(Err(f)) => finished && (action matches ReadAction::Finish(
            Err(ReadAttemptError::Read(e)),
        ) && io_failure_error(path, f, e)),
        ReadEvent::ModifiedTimes(Ok((before_modified, after_modified))) => finished && (action matches ReadAction::Finish(r)
            && snapshot_outcome(
            path,
            before.bytes_spec(),
            before.before_len_spec(),
            before_modified,
            before.after_len_spec(),
            after_modified,
            r,
        )),
        ReadEvent::ModifiedTimes(Err(source)) => finished && action == ReadAction::Finish(
            Err(ReadAttemptError::Read(MarkdownReadError::Metadata(source))),
        ),
    }
}

fn io_read_error(path: &MarkdownPath, failure: IoFailure) -> (e: ReadAttemptError)
    ensures
        e matches ReadAttemptError::Read(r) && io_failure_error(path@, failure, r),
{
    match failure {
        IoFailure::NotFound => ReadAttemptError::Read(MarkdownReadError::NotFound(path.as_str().to_owned())),
        IoFailure::Other(source) => ReadAttemptError::Read(
            MarkdownReadError::Io { path: path.as_str().to_owned(), source },
        ),
    }
}

impl ReadProtocol {
    /// The stage the attempt waits in.
    pub closed spec fn stage_spec(&self) -> ReadStage {
        self.stage
    }

    /// Whether the file was admitted: a regular file within the limit.
    pub closed spec fn admitted(&self) -> bool {
        self.admitted@
    }

    /// The size limit of the attempt.
    pub closed spec fn max_bytes_spec(&self) -> u64 {
        self.max_bytes
    }

    /// Whether the bytes read stayed within the limit.
    pub closed spec fn bytes_within_limit(&self) -> bool {
        self.bytes_within_limit@
    }

    /// The path the attempt reads.
    pub closed spec fn path_spec(&self) -> Seq<char> {
        self.path@
    }

    /// The file length seen before reading.
    pub closed spec fn before_len_spec(&self) -> u64 {
        self.before_len
    }

    /// The bytes read so far.
    pub closed spec fn bytes_spec(&self) -> Seq<u8> {
        self.bytes@
    }

    /// The file length seen after reading.
    pub closed spec fn after_len_spec(&self) -> u64 {
        self.after_len
    }

    /// The attempt's bookkeeping.
    pub closed spec fn inv(&self) -> bool {
        let st = self.stage;
        &&& (st == ReadStage::Resolve || st == ReadStage::Open || st == ReadStage::MetadataBefore)
            ==> !self.admitted@ && !self.bytes_within_limit@
        &&& st == ReadStage::ReadBytes ==> self.admitted@ && !self.bytes_within_limit@
        &&& (st == ReadStage::MetadataAfter || st == ReadStage::ModifiedTimes) ==> self.admitted@
            && self.bytes_within_limit@ && self.bytes@.len() <= self.max_bytes
    }

    /// Starts an attempt to read `path` with a size limit; the path is
    /// resolved inside the Vault first.
    pub fn start(path: &MarkdownPath, max_bytes: u64) -> (r: (ReadProtocol, ReadAction))
        ensures
            r.0.inv(),
            r.0.stage_spec() == ReadStage::Resolve,
            r.0.path_spec() == path@,
            r.0.max_bytes_spec() == max_bytes,
            r.1 is Resolve,
    {
        let protocol = ReadProtocol {
            path: path.clone(),
            max_bytes,
            stage: ReadStage::Resolve,
            before_len: 0,
            bytes: Vec::new(),
            after_len: 0,
            admitted: Ghost(false),
            bytes_within_limit: Ghost(false),
        };
        (protocol, ReadAction::Resolve)
    }

    fn finish(&mut self, result: Result<MarkdownDocument, ReadAttemptError>) -> (action: ReadAction)
        requires
            old(self).inv(),
        ensures
            final(self).inv(),
            final(self).stage_spec() == ReadStage::Finished,
            action == ReadAction::Finish(result),
            final(self).admitted() == old(self).admitted(),
            final(self).bytes_within_limit() == old(self).bytes_within_limit(),
            final(self).path_spec() == old(self).path_spec(),
            final(self).max_bytes_spec() == old(self).max_bytes_spec(),
    {
        self.stage = ReadStage::Finished;
        ReadAction::Finish(result)
    }

    /// Takes the report of the current step and says what to do next.
    pub fn step(&mut self, event: ReadEvent) -> (action: ReadAction)
        requires
            old(self).inv(),
            read_event_fits(old(self).stage_spec(), event),
        ensures
            final(self).inv(),
            action matches ReadAction::Finish(Ok(_)) ==> old(self).stage_spec() == ReadStage::ModifiedTimes
                && final(self).admitted() && final(self).bytes_within_limit(),
            action matches ReadAction::ReadBytes(limit) ==> final(self).admitted() && limit == (if old(self).max_bytes_spec() < u64::MAX { old(self).max_bytes_spec() + 1 } else { u64::MAX as int }),
            final(self).path_spec() == old(self).path_spec(),
            final(self).max_bytes_spec() == old(self).max_bytes_spec(),
            read_step_spec(*old(self), event, *final(self), action),
    {
        match (self.stage, event) {
            (ReadStage::Resolve, ReadEvent::Resolved(result)) => match result {
                Err(error) => self.finish(Err(ReadAttemptError::Read(MarkdownReadError::Vault(error)))),
                Ok(()) => {
                    self.stage = ReadStage::Open;
                    ReadAction::Open
                },
            },
            (ReadStage::Open, ReadEvent::Opened(result)) => match result {
                Err(failure) => {
                    let error = io_read_error(&self.path, failure);
                    self.finish(Err(error))
                },
                Ok(()) => {
                    self.stage = ReadStage::MetadataBefore;
                    ReadAction::ReadMetadataBefore
                },
            },
            (ReadStage::MetadataBefore, ReadEvent::MetadataBefore(result)) => match result {
                Err(failure) => {
                    let error = io_read_error(&self.path, failure);
                    self.finish(Err(error))
                },
                Ok((is_regular_file, length)) => match admit_file(&self.path, is_regular_file, length, self.max_bytes) {
                    Err(error) => self.finish(Err(ReadAttemptError::Read(error))),
                    Ok(()) => {
                        self.before_len = length;
                        self.stage = ReadStage::ReadBytes;
                        self.admitted = Ghost(true);
                        let limit = if self.max_bytes < u64::MAX {
                            self.max_bytes + 1
                        } else {
                            u64::MAX
                        };
                        ReadAction::ReadBytes(limit)
                    },
                },
            },
            (ReadStage::ReadBytes, ReadEvent::BytesRead(result)) => match result {
                Err(failure) => {
                    let error = io_read_error(&self.path, failure);
                    self.finish(Err(error))
                },
                Ok(bytes) => {
                    let observed = bytes.len() as u64;
                    match enforce_size(&self.path, observed, self.max_bytes) {
                        Err(error) => self.finish(Err(ReadAttemptError::Read(error))),
                        Ok(()) => {
                            self.bytes = bytes;
                            self.stage = ReadStage::MetadataAfter;
                            self.bytes_within_limit = Ghost(true);
                            ReadAction::ReadMetadataAfter
                        },
                    }
                },
            },
            (ReadStage::MetadataAfter, ReadEvent::MetadataAfter(result)) => match result {
                Err(failure) => {
                    let error = io_read_error(&self.path, failure);
                    self.finish(Err(error))
                },
                Ok(length) => {
                    self.after_len = length;
                    self.stage = ReadStage::ModifiedTimes;
                    ReadAction::ReadModifiedTimes
                },
            },
            (ReadStage::ModifiedTimes, ReadEvent::ModifiedTimes(result)) => match result {
                Err(source) => self.finish(Err(ReadAttemptError::Read(MarkdownReadError::Metadata(source)))),
                Ok((before_modified, after_modified)) => {
                    let mut bytes: Vec<u8> = Vec::new();
                    std::mem::swap(&mut bytes, &mut self.bytes);
                    let result = finish_snapshot(
                        &self.path,
                        bytes,
                        self.before_len,
                        &before_modified,
                        self.after_len,
                        &after_modified,
                    );
                    self.stage = ReadStage::Finished;
                    ReadAction::Finish(result)
                },
            },
            (_, event) => {
                assert(false);
                self.finish(Err(ReadAttemptError::Changed))
            },
        }
    }
}


// ----- a whole read -----

/// What a read asks for next: one piece of outside work for the current
/// attempt, or the read's result.
#[derive(Debug)]
pub enum ReadNext {
    Act(ReadAction),
    Done(Result<MarkdownDocument, MarkdownReadError>),
}

/// A whole read: attempts driven one report at a time, where an attempt that
/// saw the file change is followed by exactly one more, and a second change
/// is a read conflict.
pub struct ReadSession {
    path: MarkdownPath,
    max_bytes: u64,
    attempt: ReadProtocol,
    attempts: u8,
    done: bool,
}

/// How a read goes on after its current attempt took one step to `mid` with
/// `action`: a document or a read error ends the read; a changed file starts
/// the second attempt, or ends the read with a conflict after the second;
/// any other action is passed on.
pub open spec fn retry_step_spec(
    before: ReadSession,
    mid: ReadProtocol,
    action: ReadAction,
    after: ReadSession,
    next: ReadNext,
) -> bool {
    match action {
        ReadAction::Finish(Ok(doc)) => after.is_done() && next == ReadNext::Done(Ok(doc)),
        ReadAction::Finish(Err(ReadAttemptError::Read(e))) => after.is_done() && next == ReadNext::Done(Err(e)),
        ReadAction::Finish(Err(ReadAttemptError::Changed)) => if before.attempts_spec() == 1 {
            &&& !after.is_done()
            &&& after.attempts_spec() == 2
            &&& after.attempt_spec().stage_spec() == ReadStage::Resolve
            &&& next == ReadNext::Act(ReadAction::Resolve)
        } else {
            after.is_done() && next == ReadNext::Done(Err(MarkdownReadError::ReadConflict))
        },
        _ => {
            &&& !after.is_done()
            &&& after.attempt_spec() == mid
            &&& after.attempts_spec() == before.attempts_spec()
            &&& next == ReadNext::Act(action)
        },
    }
}

/// One step of a whole read: the current attempt takes the report as
/// `ReadProtocol::step` does, and the read goes on as `retry_step_spec` says.
pub open spec fn session_step_spec(before: ReadSession, event: ReadEvent, after: ReadSession, next: ReadNext) -> bool {
    &&& after.path_spec() == before.path_spec()
    &&& after.max_bytes_spec() == before.max_bytes_spec()
    &&& exists|mid: ReadProtocol, action: ReadAction|
        #[trigger] read_step_spec(before.attempt_spec(), event, mid, action)
            && retry_step_spec(before, mid, action, after, next)
}

impl ReadSession {
    /// The path that is read.
    pub closed spec fn path_spec(&self) -> Seq<char> {
        self.path@
    }

    /// The size limit of every attempt.
    pub closed spec fn max_bytes_spec(&self) -> u64 {
        self.max_bytes
    }

    /// The current attempt.
    pub closed spec fn attempt_spec(&self) -> ReadProtocol {
        self.attempt
    }

    /// How many attempts were started: one, or two after a changed file.
    pub closed spec fn attempts_spec(&self) -> nat {
        self.attempts as nat
    }

    /// Whether the read has its result.
    pub closed spec fn is_done(&self) -> bool {
        self.done
    }

    /// The read's bookkeeping: at most two attempts, each over the read's
    /// path and limit.
    pub closed spec fn inv(&self) -> bool {
        &&& 1 <= self.attempts <= 2
        &&& self.attempt.inv()
        &&& self.attempt.path_spec() == self.path@
        &&& self.attempt.max_bytes_spec() == self.max_bytes
        &&& !self.done ==> self.attempt.stage_spec() != ReadStage::Finished
    }

    /// Starts a read of `path` with a size limit.
    pub fn start(path: &MarkdownPath, max_bytes: u64) -> (r: (ReadSession, ReadAction))
        ensures
            r.0.inv(),
            r.0.path_spec() == path@,
            r.0.max_bytes_spec() == max_bytes,
            r.0.attempts_spec() == 1,
            r.0.attempt_spec().stage_spec() == ReadStage::Resolve,
            !r.0.is_done(),
            r.1 is Resolve,
    {
        let (attempt, action) = ReadProtocol::start(path, max_bytes);
        (ReadSession { path: path.clone(), max_bytes, attempt, attempts: 1, done: false }, action)
    }

    /// Takes the report of the current attempt's outside work and says what
    /// to do next.
    pub fn step(&mut self, event: ReadEvent) -> (next: ReadNext)
        requires
            old(self).inv(),
            !old(self).is_done(),
            read_event_fits(old(self).attempt_spec().stage_spec(), event),
        ensures
            final(self).inv(),
            session_step_spec(*old(self), event, *final(self), next),
    {
        let ghost before = *self;
        let ghost reported = event;
        let action = self.attempt.step(event);
        let ghost mid = self.attempt;
        assert(read_step_spec(before.attempt, reported, mid, action));
        match action {
            ReadAction::Finish(Ok(doc)) => {
                self.done = true;
                ReadNext::Done(Ok(doc))
            },
            ReadAction::Finish(Err(ReadAttemptError::Read(e))) => {
                self.done = true;
                ReadNext::Done(Err(e))
            },
            ReadAction::Finish(Err(ReadAttemptError::Changed)) => {
                if self.attempts == 1 {
                    let (attempt, first) = ReadProtocol::start(&self.path, self.max_bytes);
                    self.attempt = attempt;
                    self.attempts = 2;
                    ReadNext::Act(first)
                } else {
                    self.done = true;
                    ReadNext::Done(Err(MarkdownReadError::ReadConflict))
                }
            },
            other => ReadNext::Act(other),
        }
    }
}


/// A whole read of a file that stays the same while it is read, a regular
/// UTF-8 file within the limit: it asks for the path, the file, its
/// metadata, at most one byte past the limit, the metadata again and the
/// modification times, and gives the file's text with its content hash, its
/// size and its modification time.
pub proof fn lemma_stable_file_is_read(
    s0: ReadSession,
    s1: ReadSession,
    s2: ReadSession,
    s3: ReadSession,
    s4: ReadSession,
    s5: ReadSession,
    s6: ReadSession,
    n1: ReadNext,
    n2: ReadNext,
    n3: ReadNext,
    n4: ReadNext,
    n5: ReadNext,
    n6: ReadNext,
    bytes: Vec<u8>,
    modified: SystemTime,
)
    requires
        bytes@.len() <= s0.max_bytes_spec(),
        valid_utf8(bytes@),
        session_step_spec(s0, ReadEvent::Resolved(Ok(())), s1, n1),
        session_step_spec(s1, ReadEvent::Opened(Ok(())), s2, n2),
        session_step_spec(s2, ReadEvent::MetadataBefore(Ok((true, bytes@.len() as u64))), s3, n3),
        session_step_spec(s3, ReadEvent::BytesRead(Ok(bytes)), s4, n4),
        session_step_spec(s4, ReadEvent::MetadataAfter(Ok(bytes@.len() as u64)), s5, n5),
        session_step_spec(s5, ReadEvent::ModifiedTimes(Ok((modified, modified))), s6, n6),
        s0.inv(),
    ensures
        n1 == ReadNext::Act(ReadAction::Open),
        n2 == ReadNext::Act(ReadAction::ReadMetadataBefore),
        n3 == ReadNext::Act(ReadAction::ReadBytes(read_limit(s0.max_bytes_spec()))),
        n4 == ReadNext::Act(ReadAction::ReadMetadataAfter),
        n5 == ReadNext::Act(ReadAction::ReadModifiedTimes),
        n6 matches ReadNext::Done(Ok(doc)) && doc.path@ == s0.path_spec() && doc.content@ == decode_utf8(bytes@)
            && doc.hash@ == content_hash_spec(bytes@) && doc.size == bytes@.len()
            && doc.modified_at == modified,
        s6.is_done(),
{
    let n = bytes@.len() as u64;
    let (m1, a1) = choose|m: ReadProtocol, a: ReadAction|
        #[trigger] read_step_spec(s0.attempt_spec(), ReadEvent::Resolved(Ok(())), m, a)
            && retry_step_spec(s0, m, a, s1, n1);
    let (m2, a2) = choose|m: ReadProtocol, a: ReadAction|
        #[trigger] read_step_spec(s1.attempt_spec(), ReadEvent::Opened(Ok(())), m, a)
            && retry_step_spec(s1, m, a, s2, n2);
    let (m3, a3) = choose|m: ReadProtocol, a: ReadAction|
        #[trigger] read_step_spec(s2.attempt_spec(), ReadEvent::MetadataBefore(Ok((true, n))), m, a)
            && retry_step_spec(s2, m, a, s3, n3);
    let (m4, a4) = choose|m: ReadProtocol, a: ReadAction|
        #[trigger] read_step_spec(s3.attempt_spec(), ReadEvent::BytesRead(Ok(bytes)), m, a)
            && retry_step_spec(s3, m, a, s4, n4);
    let (m5, a5) = choose|m: ReadProtocol, a: ReadAction|
        #[trigger] read_step_spec(s4.attempt_spec(), ReadEvent::MetadataAfter(Ok(n)), m, a)
            && retry_step_spec(s4, m, a, s5, n5);
    let (m6, a6) = choose|m: ReadProtocol, a: ReadAction|
        #[trigger] read_step_spec(s5.attempt_spec(), ReadEvent::ModifiedTimes(Ok((modified, modified))), m, a)
            && retry_step_spec(s5, m, a, s6, n6);
    assert(s1.attempt_spec() == m1);
    assert(s2.attempt_spec() == m2);
    assert(s3.attempt_spec() == m3);
    assert(s4.attempt_spec() == m4);
    assert(s5.attempt_spec() == m5);
    assert(!snapshot_changed_spec(n, n, bytes@.len() as u64, modified, modified));
}

/// A whole read of a regular file whose length is above the limit fails
/// with the file's length and the limit, before any byte is read.
pub proof fn lemma_oversized_file_is_refused(
    s0: ReadSession,
    s1: ReadSession,
    s2: ReadSession,
    s3: ReadSession,
    n1: ReadNext,
    n2: ReadNext,
    n3: ReadNext,
    length: u64,
)
    requires
        length > s0.max_bytes_spec(),
        session_step_spec(s0, ReadEvent::Resolved(Ok(())), s1, n1),
        session_step_spec(s1, ReadEvent::Opened(Ok(())), s2, n2),
        session_step_spec(s2, ReadEvent::MetadataBefore(Ok((true, length))), s3, n3),
        s0.inv(),
    ensures
        n1 == ReadNext::Act(ReadAction::Open),
        n2 == ReadNext::Act(ReadAction::ReadMetadataBefore),
        n3 matches ReadNext::Done(Err(e)) && too_large(s0.path_spec(), length, s0.max_bytes_spec(), e),
        s3.is_done(),
{
    let (m1, a1) = choose|m: ReadProtocol, a: ReadAction|
        #[trigger] read_step_spec(s0.attempt_spec(), ReadEvent::Resolved(Ok(())), m, a)
            && retry_step_spec(s0, m, a, s1, n1);
    let (m2, a2) = choose|m: ReadProtocol, a: ReadAction|
        #[trigger] read_step_spec(s1.attempt_spec(), ReadEvent::Opened(Ok(())), m, a)
            && retry_step_spec(s1, m, a, s2, n2);
    let (m3, a3) = choose|m: ReadProtocol, a: ReadAction|
        #[trigger] read_step_spec(s2.attempt_spec(), ReadEvent::MetadataBefore(Ok((true, length))), m, a)
            && retry_step_spec(s2, m, a, s3, n3);
    assert(s1.attempt_spec() == m1);
    assert(s2.attempt_spec() == m2);
}

} // verus!
