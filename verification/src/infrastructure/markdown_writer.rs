//! Exclusive creation and optimistic replacement of Markdown files.
//!
//! The filesystem work (exclusive open, persist, atomic rename) runs outside
//! the library. The library holds the writer's configuration and decides the
//! size limit, the base-hash check and how read errors become update errors.

use std::sync::{Arc, Mutex};
use std::time::SystemTime;

use vstd::prelude::*;
use vstd::utf8::encode_utf8;

use crate::domain::document::MarkdownDocument;
use crate::domain::path::MarkdownPath;
use crate::infrastructure::digest::{content_hash, content_hash_spec};
use crate::infrastructure::markdown::MarkdownReadError;
use crate::text::string_from_chars;
use crate::infrastructure::std_types::new_lock;
use crate::infrastructure::vault::{VaultError, VaultRoot};

verus! {

/// Creates and replaces Markdown files inside one Vault; writes in this
/// process are serialized by one shared lock.
#[derive(Debug)]
pub struct MarkdownWriter {
    vault: VaultRoot,
    max_bytes: u64,
    write_lock: Arc<Mutex<()>>,
}

impl MarkdownWriter {
    /// The Vault the writer writes to.
    pub closed spec fn vault_spec(&self) -> VaultRoot {
        self.vault
    }

    /// The largest content the writer accepts, in bytes.
    pub closed spec fn max_bytes_spec(&self) -> u64 {
        self.max_bytes
    }

    /// A writer over `vault` for contents of at most `max_bytes` bytes, with a
    /// fresh write lock.
    pub fn new(vault: VaultRoot, max_bytes: u64) -> (writer: Self)
        ensures
            writer.vault_spec() == vault,
            writer.max_bytes_spec() == max_bytes,
    {
        MarkdownWriter { vault, max_bytes, write_lock: new_lock() }
    }

    /// The Vault the writer writes to.
    pub fn vault(&self) -> (vault: &VaultRoot)
        ensures
            *vault == self.vault_spec(),
    {
        &self.vault
    }

    /// The largest content the writer accepts, in bytes.
    pub fn max_bytes(&self) -> (max_bytes: u64)
        ensures
            max_bytes == self.max_bytes_spec(),
    {
        self.max_bytes
    }

    /// The lock that serializes this writer's writes.
    pub closed spec fn write_lock_spec(&self) -> Arc<Mutex<()>> {
        self.write_lock
    }

    /// The lock that serializes this writer's writes.
    pub fn write_lock(&self) -> (lock: &Arc<Mutex<()>>)
        ensures
            *lock == self.write_lock_spec(),
    {
        &self.write_lock
    }
}

impl Clone for MarkdownWriter {
    fn clone(&self) -> (copy: Self)
        ensures
            copy.vault_spec() == self.vault_spec(),
            copy.max_bytes_spec() == self.max_bytes_spec(),
    {
        MarkdownWriter {
            vault: self.vault.clone(),
            max_bytes: self.max_bytes,
            write_lock: Arc::clone(&self.write_lock),
        }
    }
}

/// Why a new Markdown file could not be created.
#[derive(Debug)]
pub enum MarkdownWriteError {
    Vault(VaultError),
    AlreadyExists(String),
    FileTooLarge { path: String, observed: u64, maximum: u64 },
    Io { path: String, source: std::io::Error },
    Metadata { path: String, source: std::io::Error },
    LockPoisoned,
}

/// Why a Markdown file could not be replaced.
#[derive(Debug)]
pub enum MarkdownUpdateError {
    Vault(VaultError),
    NotFound(String),
    NotRegularFile(String),
    FileTooLarge { path: String, observed: u64, maximum: u64 },
    InvalidUtf8(String),
    ReadConflict,
    HashConflict { path: String, expected: String, actual: String },
    Io { path: String, source: std::io::Error },
    Metadata { path: String, source: std::io::Error },
    LockPoisoned,
    InvalidTarget,
}

/// The byte length of a content as `u64`, saturating at `u64::MAX`.
pub open spec fn content_size(len: usize) -> u64 {
    if len <= u64::MAX {
        len as u64
    } else {
        u64::MAX
    }
}

fn size_of_content(content: &str) -> (size: u64)
    ensures
        size == content_size(content.len()),
{
    let len = content.len();
    if len as u128 <= u64::MAX as u128 {
        len as u64
    } else {
        u64::MAX
    }
}

/// Refuses new content above the writer's limit.
pub fn check_create_size(path: &MarkdownPath, content: &str, maximum: u64) -> (r: Result<(), MarkdownWriteError>)
    ensures
        r is Ok <==> content_size(content.len()) <= maximum,
        r matches Err(e) ==> (e matches MarkdownWriteError::FileTooLarge { path: p, observed: o, maximum: m }
            && p@ == path@ && o == content_size(content.len()) && m == maximum),
{
    let size = size_of_content(content);
    if size > maximum {
        return Err(MarkdownWriteError::FileTooLarge { path: path.as_str().to_owned(), observed: size, maximum });
    }
    Ok(())
}

/// Refuses replacement content above the writer's limit.
pub fn check_update_size(path: &MarkdownPath, content: &str, maximum: u64) -> (r: Result<(), MarkdownUpdateError>)
    ensures
        r is Ok <==> content_size(content.len()) <= maximum,
        r matches Err(e) ==> (e matches MarkdownUpdateError::FileTooLarge { path: p, observed: o, maximum: m }
            && p@ == path@ && o == content_size(content.len()) && m == maximum),
{
    let size = size_of_content(content);
    if size > maximum {
        return Err(MarkdownUpdateError::FileTooLarge { path: path.as_str().to_owned(), observed: size, maximum });
    }
    Ok(())
}

/// Allows a replacement only when the client's base hash is the current hash.
pub fn enforce_base_hash(path: &MarkdownPath, expected: &str, actual: &str) -> (r: Result<(), MarkdownUpdateError>)
    ensures
        r is Ok <==> expected@ == actual@,
        r matches Err(e) ==> (e matches MarkdownUpdateError::HashConflict { path: p, expected: x, actual: a }
            && p@ == path@ && x@ == expected@ && a@ == actual@),
{
    let expected_text = expected.to_owned();
    let actual_text = actual.to_owned();
    if expected_text != actual_text {
        return Err(MarkdownUpdateError::HashConflict {
            path: path.as_str().to_owned(),
            expected: expected_text,
            actual: actual_text,
        });
    }
    Ok(())
}

/// The update error that a read error becomes: the same case, except that a
/// metadata failure names no path.
pub open spec fn update_error_of_read(read: MarkdownReadError, update: MarkdownUpdateError) -> bool {
    match read {
        MarkdownReadError::Vault(v) => update == MarkdownUpdateError::Vault(v),
        MarkdownReadError::NotFound(p) => update == MarkdownUpdateError::NotFound(p),
        MarkdownReadError::NotRegularFile(p) => update == MarkdownUpdateError::NotRegularFile(p),
        MarkdownReadError::FileTooLarge { path, observed, maximum } => update
            == MarkdownUpdateError::FileTooLarge { path, observed, maximum },
        MarkdownReadError::InvalidUtf8(p) => update == MarkdownUpdateError::InvalidUtf8(p),
        MarkdownReadError::ReadConflict => update == MarkdownUpdateError::ReadConflict,
        MarkdownReadError::Io { path, source } => update == MarkdownUpdateError::Io { path, source },
        MarkdownReadError::Metadata(source) => (update matches MarkdownUpdateError::Metadata { path, source: s }
            && path@ == "unknown"@ && s == source),
    }
}

impl MarkdownUpdateError {
    /// Maps a read failure met while checking the current file.
    pub fn from_read(error: MarkdownReadError) -> (update: Self)
        ensures
            update_error_of_read(error, update),
    {
        match error {
            MarkdownReadError::Vault(error) => MarkdownUpdateError::Vault(error),
            MarkdownReadError::NotFound(path) => MarkdownUpdateError::NotFound(path),
            MarkdownReadError::NotRegularFile(path) => MarkdownUpdateError::NotRegularFile(path),
            MarkdownReadError::FileTooLarge { path, observed, maximum } => MarkdownUpdateError::FileTooLarge {
                path,
                observed,
                maximum,
            },
            MarkdownReadError::InvalidUtf8(path) => MarkdownUpdateError::InvalidUtf8(path),
            MarkdownReadError::ReadConflict => MarkdownUpdateError::ReadConflict,
            MarkdownReadError::Io { path, source } => MarkdownUpdateError::Io { path, source },
            MarkdownReadError::Metadata(source) => MarkdownUpdateError::Metadata {
                path: "unknown".to_owned(),
                source,
            },
        }
    }
}

// ----- the creation protocol -----

/// Where a creation stands.
#[derive(Clone, Copy, Debug, Eq, PartialEq, Structural)]
pub enum CreateStage {
    Lock,
    ResolveParent,
    CreateFile,
    Persist,
    ReadMetadata,
    Finished,
}

/// Why the exclusive creation of the file failed.
#[derive(Debug)]
pub enum CreateFailure {
    /// A file or directory already exists at the target.
    AlreadyExists,
    Io(std::io::Error),
}

/// What the outside work reported for the current stage.
#[derive(Debug)]
pub enum CreateEvent {
    Locked(bool),
    ParentResolved(Result<(), VaultError>),
    FileCreated(Result<(), CreateFailure>),
    Persisted(Result<(), std::io::Error>),
    /// The size and modification time of the written file.
    MetadataRead(Result<(u64, SystemTime), std::io::Error>),
}

/// What to do next.
#[derive(Debug)]
pub enum CreateAction {
    ResolveParent,
    CreateFile,
    Persist,
    ReadMetadata,
    /// The file is complete, with this size and modification time.
    Succeed { size: u64, modified_at: SystemTime },
    /// Stop with this error, removing the incomplete file first when this
    /// creation made it.
    Fail { error: MarkdownWriteError, remove_incomplete: bool },
}

/// The decisions of an exclusive creation: the lock comes first, then the
/// size limit; an existing target is reported and never touched, and a file
/// this creation made is removed again when a later step fails.
pub struct CreateProtocol {
    path: String,
    content_size: u64,
    max_bytes: u64,
    stage: CreateStage,
    file_created: bool,
    persisted: Ghost<bool>,
}

/// One step of a creation: for each report of the stage it waited in, the
/// next stage and the action.
pub open spec fn create_step_spec(
    before: CreateProtocol,
    event: CreateEvent,
    after: CreateProtocol,
    action: CreateAction,
) -> bool {
    let path = before.path_spec();
    let finished = after.stage_spec() == CreateStage::Finished;
    match event {
        CreateEvent::Locked(acquired) => if !acquired {
            finished && action == (CreateAction::Fail {
                error: MarkdownWriteError::LockPoisoned,
                remove_incomplete: false,
            })
        } else if before.size_spec() > before.max_spec() {
            finished && (action matches CreateAction::Fail {
                error: MarkdownWriteError::FileTooLarge { path: p, observed, maximum },
                remove_incomplete,
            } && p@ == path && observed == before.size_spec() && maximum == before.max_spec()
                && !remove_incomplete)
        } else {
            after.stage_spec() == CreateStage::ResolveParent && action is ResolveParent
        },
        CreateEvent::ParentResolved(Err(e)) => finished && action == (CreateAction::Fail {
            error: MarkdownWriteError::Vault(e),
            remove_incomplete: false,
        }),
        CreateEvent::ParentResolved(Ok(())) => after.stage_spec() == CreateStage::CreateFile
            && action is CreateFile,
        CreateEvent::FileCreated(Err(CreateFailure::AlreadyExists)) => finished && (action matches CreateAction::Fail {
            error: MarkdownWriteError::AlreadyExists(p),
            remove_incomplete,
        } && p@ == path && !remove_incomplete),
        CreateEvent::FileCreated(Err(CreateFailure::Io(source))) => finished && (action matches CreateAction::Fail {
            error: MarkdownWriteError::Io { path: p, source: s },
            remove_incomplete,
        } && p@ == path && s == source && !remove_incomplete),
        CreateEvent::FileCreated(Ok(())) => after.stage_spec() == CreateStage::Persist && after.file_created()
            && action is Persist,
        CreateEvent::Persisted(Err(source)) => finished && (action matches CreateAction::Fail {
            error: MarkdownWriteError::Io { path: p, source: s },
            remove_incomplete,
        } && p@ == path && s == source && remove_incomplete),
        CreateEvent::Persisted(Ok(())) => after.stage_spec() == CreateStage::ReadMetadata
            && action is ReadMetadata,
        CreateEvent::MetadataRead(Err(source)) => finished && (action matches CreateAction::Fail {
            error: MarkdownWriteError::Metadata { path: p, source: s },
            remove_incomplete,
        } && p@ == path && s == source && remove_incomplete),
        CreateEvent::MetadataRead(Ok((size, modified_at))) => finished && action == (CreateAction::Succeed {
            size,
            modified_at,
        }),
    }
}

/// The report that each creation stage waits for.
pub open spec fn create_event_fits(stage: CreateStage, event: CreateEvent) -> bool {
    match (stage, event) {
        (CreateStage::Lock, CreateEvent::Locked(_)) => true,
        (CreateStage::ResolveParent, CreateEvent::ParentResolved(_)) => true,
        (CreateStage::CreateFile, CreateEvent::FileCreated(_)) => true,
        (CreateStage::Persist, CreateEvent::Persisted(_)) => true,
        (CreateStage::ReadMetadata, CreateEvent::MetadataRead(_)) => true,
        _ => false,
    }
}

impl CreateProtocol {
    /// The stage the protocol waits in.
    pub closed spec fn stage_spec(&self) -> CreateStage {
        self.stage
    }

    /// Whether this creation made the file.
    pub closed spec fn file_created(&self) -> bool {
        self.file_created
    }

    /// Whether the content reached the file.
    pub closed spec fn persisted(&self) -> bool {
        self.persisted@
    }

    /// The path that is created.
    pub closed spec fn path_spec(&self) -> Seq<char> {
        self.path@
    }

    /// The size of the new content in bytes.
    pub closed spec fn size_spec(&self) -> u64 {
        self.content_size
    }

    /// The largest content the creation accepts.
    pub closed spec fn max_spec(&self) -> u64 {
        self.max_bytes
    }

    /// The stages record the work done so far.
    pub closed spec fn inv(&self) -> bool {
        let st = self.stage;
        &&& (st == CreateStage::Lock || st == CreateStage::ResolveParent || st == CreateStage::CreateFile)
            ==> !self.file_created && !self.persisted@
        &&& st == CreateStage::Persist ==> self.file_created && !self.persisted@
        &&& st == CreateStage::ReadMetadata ==> self.file_created && self.persisted@
        &&& (self.persisted@ ==> self.file_created)
    }

    /// Starts the creation of `path` with `content`; the write lock comes first.
    pub fn start(path: &MarkdownPath, content: &str, max_bytes: u64) -> (protocol: CreateProtocol)
        ensures
            protocol.inv(),
            protocol.stage_spec() == CreateStage::Lock,
            protocol.path_spec() == path@,
            protocol.size_spec() == content_size(content.len()),
            protocol.max_spec() == max_bytes,
    {
        let content_size = size_of_content(content);
        CreateProtocol {
            path: path.as_str().to_owned(),
            content_size,
            max_bytes,
            stage: CreateStage::Lock,
            file_created: false,
            persisted: Ghost(false),
        }
    }

    fn fail(&mut self, error: MarkdownWriteError) -> (action: CreateAction)
        requires
            old(self).inv(),
        ensures
            final(self).inv(),
            final(self).stage_spec() == CreateStage::Finished,
            action == (CreateAction::Fail { error, remove_incomplete: old(self).file_created() }),
            final(self).file_created() == old(self).file_created(),
            final(self).path_spec() == old(self).path_spec(),
            final(self).size_spec() == old(self).size_spec(),
            final(self).max_spec() == old(self).max_spec(),
    {
        self.stage = CreateStage::Finished;
        CreateAction::Fail { error, remove_incomplete: self.file_created }
    }

    /// Takes the report of the current stage's work and says what to do next.
    /// Success comes only after the file was created and the content
    /// persisted; an existing target is never removed.
    pub fn step(&mut self, event: CreateEvent) -> (action: CreateAction)
        requires
            old(self).inv(),
            create_event_fits(old(self).stage_spec(), event),
        ensures
            final(self).inv(),
            action is Succeed ==> final(self).file_created() && final(self).persisted(),
            action matches CreateAction::Fail { remove_incomplete, .. } ==> remove_incomplete
                == old(self).file_created() && final(self).stage_spec() == CreateStage::Finished,
            event matches CreateEvent::FileCreated(Err(CreateFailure::AlreadyExists)) ==> action
                matches CreateAction::Fail {
                error: MarkdownWriteError::AlreadyExists(_),
                remove_incomplete: false,
            },
            final(self).path_spec() == old(self).path_spec(),
            final(self).size_spec() == old(self).size_spec(),
            final(self).max_spec() == old(self).max_spec(),
            create_step_spec(*old(self), event, *final(self), action),
    {
        match (self.stage, event) {
            (CreateStage::Lock, CreateEvent::Locked(acquired)) => {
                if !acquired {
                    return self.fail(MarkdownWriteError::LockPoisoned);
                }
                if self.content_size > self.max_bytes {
                    let error = MarkdownWriteError::FileTooLarge {
                        path: self.path.clone(),
                        observed: self.content_size,
                        maximum: self.max_bytes,
                    };
                    return self.fail(error);
                }
                self.stage = CreateStage::ResolveParent;
                CreateAction::ResolveParent
            },
            (CreateStage::ResolveParent, CreateEvent::ParentResolved(result)) => match result {
                Err(error) => self.fail(MarkdownWriteError::Vault(error)),
                Ok(()) => {
                    self.stage = CreateStage::CreateFile;
                    CreateAction::CreateFile
                },
            },
            (CreateStage::CreateFile, CreateEvent::FileCreated(result)) => match result {
                Err(CreateFailure::AlreadyExists) => {
                    let error = MarkdownWriteError::AlreadyExists(self.path.clone());
                    self.fail(error)
                },
                Err(CreateFailure::Io(source)) => {
                    let error = MarkdownWriteError::Io { path: self.path.clone(), source };
                    self.fail(error)
                },
                Ok(()) => {
                    self.stage = CreateStage::Persist;
                    self.file_created = true;
                    CreateAction::Persist
                },
            },
            (CreateStage::Persist, CreateEvent::Persisted(result)) => match result {
                Err(source) => {
                    let error = MarkdownWriteError::Io { path: self.path.clone(), source };
                    self.fail(error)
                },
                Ok(()) => {
                    self.stage = CreateStage::ReadMetadata;
                    self.persisted = Ghost(true);
                    CreateAction::ReadMetadata
                },
            },
            (CreateStage::ReadMetadata, CreateEvent::MetadataRead(result)) => match result {
                Err(source) => {
                    let error = MarkdownWriteError::Metadata { path: self.path.clone(), source };
                    self.fail(error)
                },
                Ok((size, modified_at)) => {
                    self.stage = CreateStage::Finished;
                    CreateAction::Succeed { size, modified_at }
                },
            },
            (_, event) => {
                assert(false);
                self.fail(MarkdownWriteError::LockPoisoned)
            },
        }
    }
}

/// The document a successful creation or replacement returns: the written
/// content with its hash, and the size and modification time the file
/// reported after writing.
pub fn written_document(path: &MarkdownPath, content: String, size: u64, modified_at: SystemTime) -> (doc: MarkdownDocument)
    ensures
        doc.path@ == path@,
        doc.content@ == content@,
        doc.hash@ == content_hash_spec(encode_utf8(content@)),
        doc.size == size,
        doc.modified_at == modified_at,
{
    let hash = content_hash(content.as_str().as_bytes());
    MarkdownDocument { path: path.clone(), content, hash, size, modified_at }
}

// ----- the replacement protocol -----

/// Where a replacement stands: each stage waits for the report of one piece
/// of outside work.
#[derive(Clone, Copy, Debug, Eq, PartialEq, Structural)]
pub enum UpdateStage {
    Lock,
    ReadCurrent,
    ResolveTarget,
    NameTemporary,
    OpenTemporary,
    Persist,
    ReadLatest,
    ReadMetadata,
    Rename,
    Finished,
}

/// What the outside work reported for the current stage.
#[derive(Debug)]
pub enum UpdateEvent {
    /// Whether the write lock was acquired (it is poisoned otherwise).
    Locked(bool),
    /// The hash of the file as it is now, or why it could not be read.
    CurrentHash(Result<String, MarkdownReadError>),
    /// Whether the target resolved inside the Vault.
    TargetResolved(Result<(), VaultError>),
    /// Whether the target has a parent directory for the temporary file.
    TemporaryNamed(bool),
    TemporaryOpened(Result<(), std::io::Error>),
    Persisted(Result<(), std::io::Error>),
    /// The hash of the file just before the rename.
    LatestHash(Result<String, MarkdownReadError>),
    /// The size and modification time of the written temporary file.
    MetadataRead(Result<(u64, SystemTime), std::io::Error>),
    Renamed(Result<(), std::io::Error>),
}

/// What to do next.
#[derive(Debug)]
pub enum UpdateAction {
    AcquireLock,
    ReadCurrent,
    ResolveTarget,
    NameTemporary,
    OpenTemporary,
    Persist,
    ReadLatest,
    ReadMetadata,
    Rename,
    /// The replacement is complete; the new file has this size and
    /// modification time.
    Succeed { size: u64, modified_at: SystemTime },
    /// Stop with this error, removing the temporary file first when one was created.
    Fail { error: MarkdownUpdateError, remove_temporary: bool },
}

/// The decisions of an optimistic replacement: the size limit, the base-hash
/// check before writing and again just before the rename, and the cleanup of
/// the temporary file.
pub struct UpdateProtocol {
    path: String,
    base_hash: String,
    stage: UpdateStage,
    /// The current file had the base hash.
    current_matched: Ghost<bool>,
    /// The temporary file was created.
    temporary_created: bool,
    /// The new content was persisted to the temporary file.
    persisted: Ghost<bool>,
    /// The file still had the base hash after the temporary file was written.
    latest_matched: Ghost<bool>,
    /// The size and modification time of the written temporary file.
    written: Option<(u64, SystemTime)>,
}

impl UpdateProtocol {
    /// The stage the protocol waits in.
    pub closed spec fn stage_spec(&self) -> UpdateStage {
        self.stage
    }

    /// Whether the current file had the base hash.
    pub closed spec fn current_matched(&self) -> bool {
        self.current_matched@
    }

    /// Whether the temporary file exists.
    pub closed spec fn temporary_created(&self) -> bool {
        self.temporary_created
    }

    /// Whether the new content reached the temporary file.
    pub closed spec fn persisted(&self) -> bool {
        self.persisted@
    }

    /// Whether the file still had the base hash after writing.
    pub closed spec fn latest_matched(&self) -> bool {
        self.latest_matched@
    }

    /// The path that is replaced.
    pub closed spec fn path_spec(&self) -> Seq<char> {
        self.path@
    }

    /// The hash the client based its content on.
    pub closed spec fn base_hash_spec(&self) -> Seq<char> {
        self.base_hash@
    }

    /// The size and modification time of the written temporary file, once read.
    pub closed spec fn written_spec(&self) -> Option<(u64, SystemTime)> {
        self.written
    }

    /// The stages record the work done so far: a later stage is reached only
    /// after the earlier checks passed.
    pub closed spec fn inv(&self) -> bool {
        let st = self.stage;
        &&& (st == UpdateStage::Lock || st == UpdateStage::ReadCurrent) ==> !self.current_matched@
            && !self.temporary_created && !self.persisted@ && !self.latest_matched@
        &&& (st == UpdateStage::ResolveTarget || st == UpdateStage::NameTemporary || st
            == UpdateStage::OpenTemporary) ==> self.current_matched@ && !self.temporary_created
            && !self.persisted@ && !self.latest_matched@
        &&& st == UpdateStage::Persist ==> self.current_matched@ && self.temporary_created
            && !self.persisted@ && !self.latest_matched@
        &&& st == UpdateStage::ReadLatest ==> self.current_matched@ && self.temporary_created
            && self.persisted@ && !self.latest_matched@
        &&& (st == UpdateStage::ReadMetadata || st == UpdateStage::Rename) ==> self.current_matched@
            && self.temporary_created && self.persisted@ && self.latest_matched@
        &&& st == UpdateStage::Rename ==> self.written is Some
        &&& (self.persisted@ ==> self.temporary_created)
    }

    /// Starts a replacement of `path` with content of `content_len` bytes
    /// based on `base_hash`: content above the limit fails at once, otherwise
    /// the write lock is acquired first.
    pub fn start(path: &MarkdownPath, content: &str, base_hash: &str, max_bytes: u64) -> (r: (
        UpdateProtocol,
        UpdateAction,
    ))
        ensures
            r.0.inv(),
            r.0.path_spec() == path@,
            r.0.base_hash_spec() == base_hash@,
            content_size(content.len()) > max_bytes ==> (r.1 matches UpdateAction::Fail { error, remove_temporary }
                && !remove_temporary && (error matches MarkdownUpdateError::FileTooLarge { path: p, observed, maximum }
                && p@ == path@ && observed == content_size(content.len()) && maximum == max_bytes)
                && r.0.stage_spec() == UpdateStage::Finished),
            content_size(content.len()) <= max_bytes ==> (r.1 is AcquireLock && r.0.stage_spec() == UpdateStage::Lock),
    {
        let mut protocol = UpdateProtocol {
            path: path.as_str().to_owned(),
            base_hash: base_hash.to_owned(),
            stage: UpdateStage::Lock,
            current_matched: Ghost(false),
            temporary_created: false,
            persisted: Ghost(false),
            latest_matched: Ghost(false),
            written: None,
        };
        match check_update_size(path, content, max_bytes) {
            Ok(()) => (protocol, UpdateAction::AcquireLock),
            Err(error) => {
                protocol.stage = UpdateStage::Finished;
                (protocol, UpdateAction::Fail { error, remove_temporary: false })
            },
        }
    }

    fn fail(&mut self, error: MarkdownUpdateError) -> (action: UpdateAction)
        requires
            old(self).inv(),
        ensures
            final(self).inv(),
            final(self).stage_spec() == UpdateStage::Finished,
            action == (UpdateAction::Fail { error, remove_temporary: old(self).temporary_created() }),
            final(self).temporary_created() == old(self).temporary_created(),
            final(self).path_spec() == old(self).path_spec(),
            final(self).base_hash_spec() == old(self).base_hash_spec(),
            final(self).written_spec() == old(self).written_spec(),
    {
        self.stage = UpdateStage::Finished;
        UpdateAction::Fail { error, remove_temporary: self.temporary_created }
    }

    /// Takes the report of the current stage's work and says what to do next.
    /// The report must be the one the current stage waits for.
    /// The rename is asked for only after the current file had the base hash,
    /// the new content was persisted, and the file still had the base hash;
    /// every failure after the temporary file was created asks for its removal.
    pub fn step(&mut self, event: UpdateEvent) -> (action: UpdateAction)
        requires
            old(self).inv(),
            update_event_fits(old(self).stage_spec(), event),
        ensures
            final(self).inv(),
            final(self).path_spec() == old(self).path_spec(),
            final(self).base_hash_spec() == old(self).base_hash_spec(),
            action is Rename ==> final(self).current_matched() && final(self).persisted()
                && final(self).latest_matched(),
            action is Succeed ==> old(self).stage_spec() == UpdateStage::Rename,
            action matches UpdateAction::Fail { remove_temporary, .. } ==> remove_temporary
                == old(self).temporary_created() && final(self).stage_spec() == UpdateStage::Finished,
            (event matches UpdateEvent::CurrentHash(Ok(h)) && old(self).stage_spec() == UpdateStage::ReadCurrent
                && h@ != old(self).base_hash_spec()) ==> action matches UpdateAction::Fail {
                error: MarkdownUpdateError::HashConflict { .. },
                ..
            },
            (event matches UpdateEvent::LatestHash(Ok(h)) && old(self).stage_spec() == UpdateStage::ReadLatest
                && h@ != old(self).base_hash_spec()) ==> action matches UpdateAction::Fail {
                error: MarkdownUpdateError::HashConflict { .. },
                remove_temporary: true,
            },
            update_step_spec(*old(self), event, *final(self), action),
    {
        let path = &self.path;
        match (self.stage, event) {
            (UpdateStage::Lock, UpdateEvent::Locked(acquired)) => {
                if acquired {
                    self.stage = UpdateStage::ReadCurrent;
                    UpdateAction::ReadCurrent
                } else {
                    self.fail(MarkdownUpdateError::LockPoisoned)
                }
            },
            (UpdateStage::ReadCurrent, UpdateEvent::CurrentHash(result)) => match result {
                Err(error) => self.fail(MarkdownUpdateError::from_read(error)),
                Ok(hash) => {
                    if hash == self.base_hash {
                        self.stage = UpdateStage::ResolveTarget;
                        self.current_matched = Ghost(true);
                        UpdateAction::ResolveTarget
                    } else {
                        let error = MarkdownUpdateError::HashConflict {
                            path: self.path.clone(),
                            expected: self.base_hash.clone(),
                            actual: hash,
                        };
                        self.fail(error)
                    }
                },
            },
            (UpdateStage::ResolveTarget, UpdateEvent::TargetResolved(result)) => match result {
                Err(error) => self.fail(MarkdownUpdateError::Vault(error)),
                Ok(()) => {
                    self.stage = UpdateStage::NameTemporary;
                    UpdateAction::NameTemporary
                },
            },
            (UpdateStage::NameTemporary, UpdateEvent::TemporaryNamed(has_parent)) => {
                if has_parent {
                    self.stage = UpdateStage::OpenTemporary;
                    UpdateAction::OpenTemporary
                } else {
                    self.fail(MarkdownUpdateError::InvalidTarget)
                }
            },
            (UpdateStage::OpenTemporary, UpdateEvent::TemporaryOpened(result)) => match result {
                Err(source) => {
                    let path = path.clone();
                    self.fail(MarkdownUpdateError::Io { path, source })
                },
                Ok(()) => {
                    self.stage = UpdateStage::Persist;
                    self.temporary_created = true;
                    UpdateAction::Persist
                },
            },
            (UpdateStage::Persist, UpdateEvent::Persisted(result)) => match result {
                Err(source) => {
                    let path = path.clone();
                    self.fail(MarkdownUpdateError::Io { path, source })
                },
                Ok(()) => {
                    self.stage = UpdateStage::ReadLatest;
                    self.persisted = Ghost(true);
                    UpdateAction::ReadLatest
                },
            },
            (UpdateStage::ReadLatest, UpdateEvent::LatestHash(result)) => match result {
                Err(error) => self.fail(MarkdownUpdateError::from_read(error)),
                Ok(hash) => {
                    if hash == self.base_hash {
                        self.stage = UpdateStage::ReadMetadata;
                        self.latest_matched = Ghost(true);
                        UpdateAction::ReadMetadata
                    } else {
                        let error = MarkdownUpdateError::HashConflict {
                            path: self.path.clone(),
                            expected: self.base_hash.clone(),
                            actual: hash,
                        };
                        self.fail(error)
                    }
                },
            },
            (UpdateStage::ReadMetadata, UpdateEvent::MetadataRead(result)) => match result {
                Err(source) => {
                    let path = path.clone();
                    self.fail(MarkdownUpdateError::Metadata { path, source })
                },
                Ok((size, modified_at)) => {
                    self.stage = UpdateStage::Rename;
                    self.written = Some((size, modified_at));
                    UpdateAction::Rename
                },
            },
            (UpdateStage::Rename, UpdateEvent::Renamed(result)) => match result {
                Err(source) => {
                    let path = path.clone();
                    self.fail(MarkdownUpdateError::Io { path, source })
                },
                Ok(()) => match self.written.take() {
                    Some((size, modified_at)) => {
                        self.stage = UpdateStage::Finished;
                        UpdateAction::Succeed { size, modified_at }
                    },
                    None => {
                        assert(false);
                        self.fail(MarkdownUpdateError::InvalidTarget)
                    },
                },
            },
            (_, event) => {
                assert(false);
                self.fail(MarkdownUpdateError::InvalidTarget)
            },
        }
    }
}

/// One step of a replacement: for each report of the stage it waited in,
/// the next stage and the action. Failures before the temporary file exists
/// remove nothing; later ones remove it.
pub open spec fn update_step_spec(
    before: UpdateProtocol,
    event: UpdateEvent,
    after: UpdateProtocol,
    action: UpdateAction,
) -> bool {
    let path = before.path_spec();
    let base = before.base_hash_spec();
    let finished = after.stage_spec() == UpdateStage::Finished;
    match event {
        UpdateEvent::Locked(acquired) => if acquired {
            after.stage_spec() == UpdateStage::ReadCurrent && action is ReadCurrent
        } else {
            finished && action == (UpdateAction::Fail {
                error: MarkdownUpdateError::LockPoisoned,
                remove_temporary: false,
            })
        },
        UpdateEvent::CurrentHash(Err(e)) => finished && (action matches UpdateAction::Fail {
            error,
            remove_temporary,
        } && update_error_of_read(e, error) && !remove_temporary),
        UpdateEvent::CurrentHash(Ok(h)) => if h@ == base {
            after.stage_spec() == UpdateStage::ResolveTarget && action is ResolveTarget
        } else {
            finished && (action matches UpdateAction::Fail {
                error: MarkdownUpdateError::HashConflict { path: p, expected, actual },
                remove_temporary,
            } && p@ == path && expected@ == base && actual == h && !remove_temporary)
        },
        UpdateEvent::TargetResolved(Err(e)) => finished && action == (UpdateAction::Fail {
            error: MarkdownUpdateError::Vault(e),
            remove_temporary: false,
        }),
        UpdateEvent::TargetResolved(Ok(())) => after.stage_spec() == UpdateStage::NameTemporary
            && action is NameTemporary,
        UpdateEvent::TemporaryNamed(has_parent) => if has_parent {
            after.stage_spec() == UpdateStage::OpenTemporary && action is OpenTemporary
        } else {
            finished && action == (UpdateAction::Fail {
                error: MarkdownUpdateError::InvalidTarget,
                remove_temporary: false,
            })
        },
        UpdateEvent::TemporaryOpened(Err(source)) => finished && (action matches UpdateAction::Fail {
            error: MarkdownUpdateError::Io { path: p, source: s },
            remove_temporary,
        } && p@ == path && s == source && !remove_temporary),
        UpdateEvent::TemporaryOpened(Ok(())) => after.stage_spec() == UpdateStage::Persist
            && after.temporary_created() && action is Persist,
        UpdateEvent::Persisted(Err(source)) => finished && (action matches UpdateAction::Fail {
            error: MarkdownUpdateError::Io { path: p, source: s },
            remove_temporary,
        } && p@ == path && s == source && remove_temporary),
        UpdateEvent::Persisted(Ok(())) => after.stage_spec() == UpdateStage::ReadLatest
            && action is ReadLatest,
        UpdateEvent::LatestHash(Err(e)) => finished && (action matches UpdateAction::Fail {
            error,
            remove_temporary,
        } && update_error_of_read(e, error) && remove_temporary),
        UpdateEvent::LatestHash(Ok(h)) => if h@ == base {
            after.stage_spec() == UpdateStage::ReadMetadata && action is ReadMetadata
        } else {
            finished && (action matches UpdateAction::Fail {
                error: MarkdownUpdateError::HashConflict { path: p, expected, actual },
                remove_temporary,
            } && p@ == path && expected@ == base && actual == h && remove_temporary)
        },
        UpdateEvent::MetadataRead(Err(source)) => finished && (action matches UpdateAction::Fail {
            error: MarkdownUpdateError::Metadata { path: p, source: s },
            remove_temporary,
        } && p@ == path && s == source && remove_temporary),
        UpdateEvent::MetadataRead(Ok(written)) => after.stage_spec() == UpdateStage::Rename
            && after.written_spec() == Some(written) && action is Rename,
        UpdateEvent::Renamed(Err(source)) => finished && (action matches UpdateAction::Fail {
            error: MarkdownUpdateError::Io { path: p, source: s },
            remove_temporary,
        } && p@ == path && s == source && remove_temporary),
        UpdateEvent::Renamed(Ok(())) => finished && (before.written_spec() matches Some((size, modified_at))
            && action == (UpdateAction::Succeed { size, modified_at })),
    }
}

/// The report that each stage waits for.
pub open spec fn update_event_fits(stage: UpdateStage, event: UpdateEvent) -> bool {
    match (stage, event) {
        (UpdateStage::Lock, UpdateEvent::Locked(_)) => true,
        (UpdateStage::ReadCurrent, UpdateEvent::CurrentHash(_)) => true,
        (UpdateStage::ResolveTarget, UpdateEvent::TargetResolved(_)) => true,
        (UpdateStage::NameTemporary, UpdateEvent::TemporaryNamed(_)) => true,
        (UpdateStage::OpenTemporary, UpdateEvent::TemporaryOpened(_)) => true,
        (UpdateStage::Persist, UpdateEvent::Persisted(_)) => true,
        (UpdateStage::ReadLatest, UpdateEvent::LatestHash(_)) => true,
        (UpdateStage::ReadMetadata, UpdateEvent::MetadataRead(_)) => true,
        (UpdateStage::Rename, UpdateEvent::Renamed(_)) => true,
        _ => false,
    }
}

} // verus!
