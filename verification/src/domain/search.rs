//! Validated search input.

use vstd::prelude::*;

use super::path::CanonicalPath;

verus! {

/// A search use-case input, validated before it becomes an FTS query.
#[derive(Debug, Eq, PartialEq)]
pub struct SearchQuery {
    pub text: String,
    pub path_prefix: Option<CanonicalPath>,
    pub limit: u32,
}

} // verus!
