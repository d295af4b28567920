//! One level of the Vault file tree.

use std::time::SystemTime;

use vstd::prelude::*;

use super::path::CanonicalPath;

verus! {

/// The direct children of one directory (`None` is the Vault root).
#[derive(Debug, Eq, PartialEq)]
pub struct DirectoryListing {
    pub path: Option<CanonicalPath>,
    pub entries: Vec<TreeEntry>,
}

/// One directory or Markdown file shown in the file tree.
#[derive(Debug, Eq, PartialEq)]
pub struct TreeEntry {
    pub kind: TreeEntryKind,
    pub name: String,
    pub path: CanonicalPath,
    pub size: Option<u64>,
    pub modified_at: SystemTime,
}

/// Directories and files are told apart by type, not by string.
#[derive(Clone, Copy, Debug, Eq, PartialEq, Structural)]
pub enum TreeEntryKind {
    Directory,
    File,
}

} // verus!
