//! How failures are answered over HTTP: a status, a stable error code, a
//! fixed message and the details a client may see. Internal failures reveal
//! nothing but `internal_error`.

use vstd::prelude::*;

use crate::api::search::SearchRequestError;
use crate::domain::path::PathError;
use crate::infrastructure::markdown::MarkdownReadError;
use crate::infrastructure::markdown_writer::{MarkdownUpdateError, MarkdownWriteError};
use crate::infrastructure::tree::TreeReadError;
use crate::infrastructure::vault::VaultError;

verus! {

/// What a client is told about a failure besides its code.
#[derive(Debug)]
pub enum ErrorDetails {
    Empty,
    Path(String),
    Size { path: String, observed: u64, maximum: u64 },
    CurrentHash { path: String, current_hash: String },
    /// The text of the violated path rule.
    PathRule,
    /// The configured content limit, for a request body that was too large.
    MaximumContentBytes(u64),
}

/// An HTTP error answer.
#[derive(Debug)]
pub struct ErrorAnswer {
    pub status: u16,
    pub code: &'static str,
    pub message: &'static str,
    pub details: ErrorDetails,
}

/// The answer to any failure a client must not learn more about.
pub fn internal() -> (a: ErrorAnswer)
    ensures
        a.status == 500,
        a.code@ == "internal_error"@,
        a.message@ == "Internal server error"@,
        a.details is Empty,
{
    ErrorAnswer { status: 500, code: "internal_error", message: "Internal server error", details: ErrorDetails::Empty }
}

fn answer(status: u16, code: &'static str, message: &'static str, details: ErrorDetails) -> (a: ErrorAnswer)
    ensures
        a.status == status,
        a.code == code,
        a.message == message,
        a.details == details,
{
    ErrorAnswer { status, code, message, details }
}

/// A Vault failure that carries an absolute filesystem path.
pub open spec fn vault_error_has_absolute_path(v: VaultError) -> bool {
    match v {
        VaultError::RootNotFound(_) => true,
        VaultError::RootNotDirectory(_) => true,
        VaultError::RootUnavailable { .. } => true,
        VaultError::OutsideVault(_) => true,
        VaultError::Io { .. } => true,
        _ => false,
    }
}

/// The status of a read failure: missing targets 404, paths the Vault
/// policy refuses 403, unreadable content 422, too large 413, a conflict
/// 409, anything else 500.
pub open spec fn read_error_status(e: MarkdownReadError) -> u16 {
    match e {
        MarkdownReadError::Vault(v) => read_vault_status(v),
        MarkdownReadError::NotFound(_) => 404,
        MarkdownReadError::NotRegularFile(_) => 422,
        MarkdownReadError::FileTooLarge { .. } => 413,
        MarkdownReadError::InvalidUtf8(_) => 422,
        MarkdownReadError::ReadConflict => 409,
        MarkdownReadError::Io { .. } => 500,
        MarkdownReadError::Metadata(_) => 500,
    }
}

/// The status of a Vault failure met while reading.
pub open spec fn read_vault_status(v: VaultError) -> u16 {
    match v {
        VaultError::TargetNotFound(_) => 404,
        VaultError::SymlinkNotAllowed(_) => 403,
        VaultError::OutsideVault(_) => 403,
        VaultError::NonDirectoryAncestor(_) => 422,
        _ => 500,
    }
}

/// The status of a Vault failure met while creating.
pub open spec fn write_vault_status(v: VaultError) -> u16 {
    match v {
        VaultError::ParentNotFound(_) => 404,
        VaultError::NonDirectoryAncestor(_) => 422,
        VaultError::SymlinkNotAllowed(_) => 403,
        VaultError::OutsideVault(_) => 403,
        _ => 500,
    }
}

/// The code of a Vault failure met while reading.
pub open spec fn read_vault_code(v: VaultError) -> Seq<char> {
    match v {
        VaultError::TargetNotFound(_) => "file_not_found"@,
        VaultError::SymlinkNotAllowed(_) => "path_not_allowed"@,
        VaultError::OutsideVault(_) => "path_not_allowed"@,
        VaultError::NonDirectoryAncestor(_) => "not_a_regular_file"@,
        _ => "internal_error"@,
    }
}

/// The code of a Vault failure met while creating.
pub open spec fn write_vault_code(v: VaultError) -> Seq<char> {
    match v {
        VaultError::ParentNotFound(_) => "parent_not_found"@,
        VaultError::NonDirectoryAncestor(_) => "parent_not_directory"@,
        VaultError::SymlinkNotAllowed(_) => "path_not_allowed"@,
        VaultError::OutsideVault(_) => "path_not_allowed"@,
        _ => "internal_error"@,
    }
}

/// The code of a read failure.
pub open spec fn read_error_code(e: MarkdownReadError) -> Seq<char> {
    match e {
        MarkdownReadError::Vault(v) => read_vault_code(v),
        MarkdownReadError::NotFound(_) => "file_not_found"@,
        MarkdownReadError::NotRegularFile(_) => "not_a_regular_file"@,
        MarkdownReadError::FileTooLarge { .. } => "file_too_large"@,
        MarkdownReadError::InvalidUtf8(_) => "invalid_utf8"@,
        MarkdownReadError::ReadConflict => "read_conflict"@,
        _ => "internal_error"@,
    }
}

/// The code of a failed create.
pub open spec fn write_error_code(e: MarkdownWriteError) -> Seq<char> {
    match e {
        MarkdownWriteError::Vault(v) => write_vault_code(v),
        MarkdownWriteError::AlreadyExists(_) => "file_already_exists"@,
        MarkdownWriteError::FileTooLarge { .. } => "file_too_large"@,
        _ => "internal_error"@,
    }
}

/// The code of a failed replacement.
pub open spec fn update_error_code(e: MarkdownUpdateError) -> Seq<char> {
    match e {
        MarkdownUpdateError::Vault(v) => read_vault_code(v),
        MarkdownUpdateError::NotFound(_) => "file_not_found"@,
        MarkdownUpdateError::NotRegularFile(_) => "not_a_regular_file"@,
        MarkdownUpdateError::FileTooLarge { .. } => "file_too_large"@,
        MarkdownUpdateError::InvalidUtf8(_) => "invalid_utf8"@,
        MarkdownUpdateError::ReadConflict => "write_conflict"@,
        MarkdownUpdateError::HashConflict { .. } => "write_conflict"@,
        _ => "internal_error"@,
    }
}

/// The code of a failed listing.
pub open spec fn tree_error_code(e: TreeReadError) -> Seq<char> {
    match e {
        TreeReadError::Vault(v) => match v {
            VaultError::TargetNotFound(_) => "directory_not_found"@,
            VaultError::NonDirectoryAncestor(_) => "not_a_directory"@,
            _ => read_vault_code(v),
        },
        TreeReadError::NotFound(_) => "directory_not_found"@,
        TreeReadError::NotDirectory(_) => "not_a_directory"@,
        _ => "internal_error"@,
    }
}

/// The details of a Vault failure met while reading or listing: the
/// relative path where the failure names one.
pub open spec fn read_vault_details(v: VaultError) -> ErrorDetails {
    match v {
        VaultError::TargetNotFound(p) => ErrorDetails::Path(p),
        VaultError::SymlinkNotAllowed(p) => ErrorDetails::Path(p),
        VaultError::NonDirectoryAncestor(p) => ErrorDetails::Path(p),
        _ => ErrorDetails::Empty,
    }
}

/// The message of a Vault failure met while reading.
pub open spec fn read_vault_message(v: VaultError) -> Seq<char> {
    match v {
        VaultError::TargetNotFound(_) => "Markdown file was not found"@,
        VaultError::SymlinkNotAllowed(_) => "Path is not allowed by the active Vault policy"@,
        VaultError::OutsideVault(_) => "Path is not allowed by the active Vault policy"@,
        VaultError::NonDirectoryAncestor(_) => "A path segment is not a directory"@,
        _ => "Internal server error"@,
    }
}

/// The details of a Vault failure met while creating.
pub open spec fn write_vault_details(v: VaultError) -> ErrorDetails {
    match v {
        VaultError::ParentNotFound(p) => ErrorDetails::Path(p),
        VaultError::NonDirectoryAncestor(p) => ErrorDetails::Path(p),
        VaultError::SymlinkNotAllowed(p) => ErrorDetails::Path(p),
        _ => ErrorDetails::Empty,
    }
}

/// The message of a Vault failure met while creating.
pub open spec fn write_vault_message(v: VaultError) -> Seq<char> {
    match v {
        VaultError::ParentNotFound(_) => "Parent directory was not found"@,
        VaultError::NonDirectoryAncestor(_) => "A parent path segment is not a directory"@,
        VaultError::SymlinkNotAllowed(_) => "Path is not allowed by the active Vault policy"@,
        VaultError::OutsideVault(_) => "Path is not allowed by the active Vault policy"@,
        _ => "Internal server error"@,
    }
}

/// The details of a failed read.
pub open spec fn read_error_details(e: MarkdownReadError) -> ErrorDetails {
    match e {
        MarkdownReadError::Vault(v) => read_vault_details(v),
        MarkdownReadError::NotFound(p) => ErrorDetails::Path(p),
        MarkdownReadError::NotRegularFile(p) => ErrorDetails::Path(p),
        MarkdownReadError::FileTooLarge { path, observed, maximum } => ErrorDetails::Size { path, observed, maximum },
        MarkdownReadError::InvalidUtf8(p) => ErrorDetails::Path(p),
        _ => ErrorDetails::Empty,
    }
}

/// The message of a failed read.
pub open spec fn read_error_message(e: MarkdownReadError) -> Seq<char> {
    match e {
        MarkdownReadError::Vault(v) => read_vault_message(v),
        MarkdownReadError::NotFound(_) => "Markdown file was not found"@,
        MarkdownReadError::NotRegularFile(_) => "Path does not reference a regular file"@,
        MarkdownReadError::FileTooLarge { .. } => "Markdown file exceeds the configured size limit"@,
        MarkdownReadError::InvalidUtf8(_) => "Markdown file is not valid UTF-8"@,
        MarkdownReadError::ReadConflict => "Markdown file changed repeatedly while being read"@,
        _ => "Internal server error"@,
    }
}

/// The details of a failed create.
pub open spec fn write_error_details(e: MarkdownWriteError) -> ErrorDetails {
    match e {
        MarkdownWriteError::Vault(v) => write_vault_details(v),
        MarkdownWriteError::AlreadyExists(p) => ErrorDetails::Path(p),
        MarkdownWriteError::FileTooLarge { path, observed, maximum } => ErrorDetails::Size { path, observed, maximum },
        _ => ErrorDetails::Empty,
    }
}

/// The message of a failed create.
pub open spec fn write_error_message(e: MarkdownWriteError) -> Seq<char> {
    match e {
        MarkdownWriteError::Vault(v) => write_vault_message(v),
        MarkdownWriteError::AlreadyExists(_) => "A file or directory already exists at the requested path"@,
        MarkdownWriteError::FileTooLarge { .. } => "Markdown content exceeds the configured size limit"@,
        _ => "Internal server error"@,
    }
}

/// The details of a failed replacement; a hash conflict tells the current hash.
pub open spec fn update_error_details(e: MarkdownUpdateError) -> ErrorDetails {
    match e {
        MarkdownUpdateError::Vault(v) => read_vault_details(v),
        MarkdownUpdateError::NotFound(p) => ErrorDetails::Path(p),
        MarkdownUpdateError::NotRegularFile(p) => ErrorDetails::Path(p),
        MarkdownUpdateError::FileTooLarge { path, observed, maximum } => ErrorDetails::Size { path, observed, maximum },
        MarkdownUpdateError::InvalidUtf8(p) => ErrorDetails::Path(p),
        MarkdownUpdateError::HashConflict { path, actual, .. } => ErrorDetails::CurrentHash { path, current_hash: actual },
        _ => ErrorDetails::Empty,
    }
}

/// The message of a failed replacement.
pub open spec fn update_error_message(e: MarkdownUpdateError) -> Seq<char> {
    match e {
        MarkdownUpdateError::Vault(v) => read_vault_message(v),
        MarkdownUpdateError::NotFound(_) => "Markdown file was not found"@,
        MarkdownUpdateError::NotRegularFile(_) => "Path does not reference a regular file"@,
        MarkdownUpdateError::FileTooLarge { .. } => "Markdown content exceeds the configured size limit"@,
        MarkdownUpdateError::InvalidUtf8(_) => "Markdown file is not valid UTF-8"@,
        MarkdownUpdateError::ReadConflict => "Markdown file changed repeatedly while preparing the update"@,
        MarkdownUpdateError::HashConflict { .. } => "Markdown file has changed since it was read"@,
        _ => "Internal server error"@,
    }
}

/// The details of a failed listing.
pub open spec fn tree_error_details(e: TreeReadError) -> ErrorDetails {
    match e {
        TreeReadError::Vault(v) => read_vault_details(v),
        TreeReadError::NotFound(p) => ErrorDetails::Path(p),
        TreeReadError::NotDirectory(p) => ErrorDetails::Path(p),
        _ => ErrorDetails::Empty,
    }
}

/// The message of a failed listing.
pub open spec fn tree_error_message(e: TreeReadError) -> Seq<char> {
    match e {
        TreeReadError::Vault(v) => match v {
            VaultError::TargetNotFound(_) => "Directory was not found"@,
            _ => read_vault_message(v),
        },
        TreeReadError::NotFound(_) => "Directory was not found"@,
        TreeReadError::NotDirectory(_) => "Path is not a directory"@,
        _ => "Internal server error"@,
    }
}

fn from_read_vault(error: VaultError) -> (a: ErrorAnswer)
    ensures
        a.status == read_vault_status(error),
        a.code@ == read_vault_code(error),
        a.message@ == read_vault_message(error),
        a.details == read_vault_details(error),
        vault_error_has_absolute_path(error) ==> a.details is Empty,
{
    match error {
        VaultError::TargetNotFound(path) => answer(404, "file_not_found", "Markdown file was not found", ErrorDetails::Path(path)),
        VaultError::SymlinkNotAllowed(path) => answer(
            403,
            "path_not_allowed",
            "Path is not allowed by the active Vault policy",
            ErrorDetails::Path(path),
        ),
        VaultError::OutsideVault(_) => answer(
            403,
            "path_not_allowed",
            "Path is not allowed by the active Vault policy",
            ErrorDetails::Empty,
        ),
        VaultError::NonDirectoryAncestor(path) => answer(
            422,
            "not_a_regular_file",
            "A path segment is not a directory",
            ErrorDetails::Path(path),
        ),
        _ => internal(),
    }
}

fn from_write_vault(error: VaultError) -> (a: ErrorAnswer)
    ensures
        a.status == write_vault_status(error),
        a.code@ == write_vault_code(error),
        a.message@ == write_vault_message(error),
        a.details == write_vault_details(error),
        vault_error_has_absolute_path(error) ==> a.details is Empty,
{
    match error {
        VaultError::ParentNotFound(path) => answer(404, "parent_not_found", "Parent directory was not found", ErrorDetails::Path(path)),
        VaultError::NonDirectoryAncestor(path) => answer(
            422,
            "parent_not_directory",
            "A parent path segment is not a directory",
            ErrorDetails::Path(path),
        ),
        VaultError::SymlinkNotAllowed(path) => answer(
            403,
            "path_not_allowed",
            "Path is not allowed by the active Vault policy",
            ErrorDetails::Path(path),
        ),
        VaultError::OutsideVault(_) => answer(
            403,
            "path_not_allowed",
            "Path is not allowed by the active Vault policy",
            ErrorDetails::Empty,
        ),
        _ => internal(),
    }
}

/// The answer to a failed read.
pub fn from_read(error: MarkdownReadError) -> (a: ErrorAnswer)
    ensures
        a.status == read_error_status(error),
        a.code@ == read_error_code(error),
        a.message@ == read_error_message(error),
        a.details == read_error_details(error),
        (error matches MarkdownReadError::Vault(v) && vault_error_has_absolute_path(v)) ==> a.details is Empty,
        (error is Io || error is Metadata) ==> a.details is Empty,
{
    match error {
        MarkdownReadError::Vault(error) => from_read_vault(error),
        MarkdownReadError::NotFound(path) => answer(404, "file_not_found", "Markdown file was not found", ErrorDetails::Path(path)),
        MarkdownReadError::NotRegularFile(path) => answer(
            422,
            "not_a_regular_file",
            "Path does not reference a regular file",
            ErrorDetails::Path(path),
        ),
        MarkdownReadError::FileTooLarge { path, observed, maximum } => answer(
            413,
            "file_too_large",
            "Markdown file exceeds the configured size limit",
            ErrorDetails::Size { path, observed, maximum },
        ),
        MarkdownReadError::InvalidUtf8(path) => answer(
            422,
            "invalid_utf8",
            "Markdown file is not valid UTF-8",
            ErrorDetails::Path(path),
        ),
        MarkdownReadError::ReadConflict => answer(
            409,
            "read_conflict",
            "Markdown file changed repeatedly while being read",
            ErrorDetails::Empty,
        ),
        MarkdownReadError::Io { .. } => internal(),
        MarkdownReadError::Metadata(_) => internal(),
    }
}

/// The status of a failed create.
pub open spec fn write_error_status(e: MarkdownWriteError) -> u16 {
    match e {
        MarkdownWriteError::Vault(v) => write_vault_status(v),
        MarkdownWriteError::AlreadyExists(_) => 409,
        MarkdownWriteError::FileTooLarge { .. } => 413,
        _ => 500,
    }
}

/// The answer to a failed create.
pub fn from_write(error: MarkdownWriteError) -> (a: ErrorAnswer)
    ensures
        a.status == write_error_status(error),
        a.code@ == write_error_code(error),
        a.message@ == write_error_message(error),
        a.details == write_error_details(error),
        (error matches MarkdownWriteError::Vault(v) && vault_error_has_absolute_path(v)) ==> a.details is Empty,
        (error is Io || error is Metadata) ==> a.details is Empty,
{
    match error {
        MarkdownWriteError::Vault(error) => from_write_vault(error),
        MarkdownWriteError::AlreadyExists(path) => answer(
            409,
            "file_already_exists",
            "A file or directory already exists at the requested path",
            ErrorDetails::Path(path),
        ),
        MarkdownWriteError::FileTooLarge { path, observed, maximum } => answer(
            413,
            "file_too_large",
            "Markdown content exceeds the configured size limit",
            ErrorDetails::Size { path, observed, maximum },
        ),
        _ => internal(),
    }
}

/// The status of a failed replacement.
pub open spec fn update_error_status(e: MarkdownUpdateError) -> u16 {
    match e {
        MarkdownUpdateError::Vault(v) => read_vault_status(v),
        MarkdownUpdateError::NotFound(_) => 404,
        MarkdownUpdateError::NotRegularFile(_) => 422,
        MarkdownUpdateError::FileTooLarge { .. } => 413,
        MarkdownUpdateError::InvalidUtf8(_) => 422,
        MarkdownUpdateError::ReadConflict => 409,
        MarkdownUpdateError::HashConflict { .. } => 409,
        _ => 500,
    }
}

/// The answer to a failed replacement; a hash conflict tells the client the
/// current hash.
pub fn from_update(error: MarkdownUpdateError) -> (a: ErrorAnswer)
    ensures
        a.status == update_error_status(error),
        a.code@ == update_error_code(error),
        a.message@ == update_error_message(error),
        a.details == update_error_details(error),
        (error matches MarkdownUpdateError::Vault(v) && vault_error_has_absolute_path(v)) ==> a.details is Empty,
        (error is Io || error is Metadata) ==> a.details is Empty,
        error matches MarkdownUpdateError::HashConflict { path, actual, .. } ==> (a.details matches ErrorDetails::CurrentHash { path: p, current_hash: h } && p == path && h == actual),
{
    match error {
        MarkdownUpdateError::Vault(error) => from_read_vault(error),
        MarkdownUpdateError::NotFound(path) => answer(404, "file_not_found", "Markdown file was not found", ErrorDetails::Path(path)),
        MarkdownUpdateError::NotRegularFile(path) => answer(
            422,
            "not_a_regular_file",
            "Path does not reference a regular file",
            ErrorDetails::Path(path),
        ),
        MarkdownUpdateError::FileTooLarge { path, observed, maximum } => answer(
            413,
            "file_too_large",
            "Markdown content exceeds the configured size limit",
            ErrorDetails::Size { path, observed, maximum },
        ),
        MarkdownUpdateError::InvalidUtf8(path) => answer(
            422,
            "invalid_utf8",
            "Markdown file is not valid UTF-8",
            ErrorDetails::Path(path),
        ),
        MarkdownUpdateError::ReadConflict => answer(
            409,
            "write_conflict",
            "Markdown file changed repeatedly while preparing the update",
            ErrorDetails::Empty,
        ),
        MarkdownUpdateError::HashConflict { path, expected: _, actual } => answer(
            409,
            "write_conflict",
            "Markdown file has changed since it was read",
            ErrorDetails::CurrentHash { path, current_hash: actual },
        ),
        _ => internal(),
    }
}

/// The answer to a path that breaks a path rule: 422 for a missing `.md`
/// extension, 400 otherwise, with the rule's text as details.
pub fn from_path(error: &PathError) -> (a: ErrorAnswer)
    ensures
        a.status == (if *error is MarkdownExtensionRequired { 422u16 } else { 400u16 }),
        a.code@ == (if *error is MarkdownExtensionRequired { "not_a_markdown_file"@ } else { "invalid_path"@ }),
        a.message@ == (if *error is MarkdownExtensionRequired { "Path must reference a lowercase .md file"@ } else { "Path is invalid"@ }),
        a.details is PathRule,
{
    match error {
        PathError::MarkdownExtensionRequired => answer(
            422,
            "not_a_markdown_file",
            "Path must reference a lowercase .md file",
            ErrorDetails::PathRule,
        ),
        _ => answer(400, "invalid_path", "Path is invalid", ErrorDetails::PathRule),
    }
}

/// The answer to a refused search request, always 400: a missing, blank or
/// too long query is `invalid_search_query`, a bad limit is
/// `invalid_search_limit`, and a bad path prefix is answered as any path that
/// breaks a path rule.
pub fn from_search_request(error: &SearchRequestError) -> (a: ErrorAnswer)
    ensures
        match *error {
            SearchRequestError::InvalidQuery => a.status == 400 && a.code@ == "invalid_search_query"@
                && a.message@ == "Search query must be non-empty and at most 512 bytes"@ && a.details is Empty,
            SearchRequestError::InvalidLimit => a.status == 400 && a.code@ == "invalid_search_limit"@
                && a.message@ == "Search limit must be a whole number from 1 to 100"@ && a.details is Empty,
            SearchRequestError::InvalidPath(e) => a.status == (if e is MarkdownExtensionRequired { 422u16 } else { 400u16 })
                && a.code@ == (if e is MarkdownExtensionRequired { "not_a_markdown_file"@ } else { "invalid_path"@ })
                && a.details is PathRule,
        },
{
    match error {
        SearchRequestError::InvalidQuery => answer(
            400,
            "invalid_search_query",
            "Search query must be non-empty and at most 512 bytes",
            ErrorDetails::Empty,
        ),
        SearchRequestError::InvalidLimit => answer(
            400,
            "invalid_search_limit",
            "Search limit must be a whole number from 1 to 100",
            ErrorDetails::Empty,
        ),
        SearchRequestError::InvalidPath(e) => from_path(e),
    }
}

/// The answer to a malformed base hash.
pub fn invalid_base_hash() -> (a: ErrorAnswer)
    ensures
        a.status == 400,
        a.code@ == "invalid_base_hash"@,
        a.message@ == "base_hash must use sha256 followed by 64 lowercase hexadecimal characters"@,
        a.details is Empty,
{
    answer(
        400,
        "invalid_base_hash",
        "base_hash must use sha256 followed by 64 lowercase hexadecimal characters",
        ErrorDetails::Empty,
    )
}

/// The answer to a request body that is not the expected JSON.
pub fn invalid_request() -> (a: ErrorAnswer)
    ensures
        a.status == 400,
        a.code@ == "invalid_request"@,
        a.message@ == "Request body must be valid JSON with path and content strings"@,
        a.details is Empty,
{
    answer(400, "invalid_request", "Request body must be valid JSON with path and content strings", ErrorDetails::Empty)
}

/// The answer to a request body above the buffer limit; it names the
/// configured content limit.
pub fn request_too_large(maximum: u64) -> (a: ErrorAnswer)
    ensures
        a.status == 413,
        a.code@ == "file_too_large"@,
        a.message@ == "Request body exceeds the accepted size limit"@,
        a.details == ErrorDetails::MaximumContentBytes(maximum),
{
    answer(
        413,
        "file_too_large",
        "Request body exceeds the accepted size limit",
        ErrorDetails::MaximumContentBytes(maximum),
    )
}

/// The status of a failed listing.
pub open spec fn tree_error_status(e: TreeReadError) -> u16 {
    match e {
        TreeReadError::Vault(v) => match v {
            VaultError::TargetNotFound(_) => 404,
            VaultError::SymlinkNotAllowed(_) => 403,
            VaultError::OutsideVault(_) => 403,
            VaultError::NonDirectoryAncestor(_) => 422,
            _ => 500,
        },
        TreeReadError::NotFound(_) => 404,
        TreeReadError::NotDirectory(_) => 422,
        _ => 500,
    }
}

/// The answer to a failed listing.
pub fn from_tree(error: TreeReadError) -> (a: ErrorAnswer)
    ensures
        a.status == tree_error_status(error),
        a.code@ == tree_error_code(error),
        a.message@ == tree_error_message(error),
        a.details == tree_error_details(error),
        (error matches TreeReadError::Vault(v) && vault_error_has_absolute_path(v)) ==> a.details is Empty,
        (error is ReadDirectory || error is Metadata) ==> a.details is Empty,
{
    match error {
        TreeReadError::Vault(VaultError::TargetNotFound(path)) => answer(
            404,
            "directory_not_found",
            "Directory was not found",
            ErrorDetails::Path(path),
        ),
        TreeReadError::Vault(VaultError::NonDirectoryAncestor(path)) => answer(
            422,
            "not_a_directory",
            "A path segment is not a directory",
            ErrorDetails::Path(path),
        ),
        TreeReadError::Vault(error) => from_read_vault(error),
        TreeReadError::NotFound(path) => answer(404, "directory_not_found", "Directory was not found", ErrorDetails::Path(path)),
        TreeReadError::NotDirectory(path) => answer(422, "not_a_directory", "Path is not a directory", ErrorDetails::Path(path)),
        _ => internal(),
    }
}

} // verus!
