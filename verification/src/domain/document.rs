//! A stable snapshot of one Markdown document.

use std::time::SystemTime;

use vstd::prelude::*;

use super::path::MarkdownPath;

verus! {

/// `std::time::SystemTime`, carried through as an opaque timestamp.
#[verifier::external_type_specification]
#[verifier::external_body]
pub struct ExSystemTime(SystemTime);

/// `SystemTime` is `Copy`; its `clone` returns the same instant.
pub assume_specification[ <SystemTime as Clone>::clone ](t: &SystemTime) -> (r: SystemTime)
    ensures
        r == *t,
;

/// Two `SystemTime` values compare equal exactly when they are the same instant.
pub assume_specification[ <SystemTime as PartialEq>::eq ](a: &SystemTime, b: &SystemTime) -> (r: bool)
    ensures
        r == (*a == *b),
;

/// The content of one Markdown file together with its integrity metadata.
#[derive(Clone, Debug, Eq, PartialEq)]
pub struct MarkdownDocument {
    /// Where the document lives in the Vault.
    pub path: MarkdownPath,
    /// The full UTF-8 text.
    pub content: String,
    /// `sha256:` followed by the lowercase hex digest of the content bytes.
    pub hash: String,
    /// Number of bytes of the content.
    pub size: u64,
    /// When the file was last modified.
    pub modified_at: SystemTime,
}

} // verus!
