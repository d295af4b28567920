//! Markdown writes followed by a best-effort search projection update.
//!
//! The index is a rebuildable cache: once the Markdown write succeeded, a
//! failed projection update never turns the write into a failure; the next
//! reconciliation repairs the projection.

use vstd::prelude::*;

use crate::infrastructure::index_sync::SearchIndexSynchronizer;
use crate::infrastructure::markdown_writer::MarkdownWriter;

verus! {

/// A Markdown writer with an optional search index synchronizer.
#[derive(Debug)]
pub struct IndexedMarkdownWriter {
    writer: MarkdownWriter,
    index_sync: Option<SearchIndexSynchronizer>,
}

impl IndexedMarkdownWriter {
    /// The writer of the Markdown files.
    pub closed spec fn writer_spec(&self) -> MarkdownWriter {
        self.writer
    }

    /// The synchronizer, when the search index is enabled.
    pub closed spec fn index_sync_spec(&self) -> Option<SearchIndexSynchronizer> {
        self.index_sync
    }

    /// Combines a writer with an optional synchronizer.
    pub fn new(writer: MarkdownWriter, index_sync: Option<SearchIndexSynchronizer>) -> (w: Self)
        ensures
            w.writer_spec() == writer,
            w.index_sync_spec() == index_sync,
    {
        IndexedMarkdownWriter { writer, index_sync }
    }

    /// The writer of the Markdown files.
    pub fn writer(&self) -> (writer: &MarkdownWriter)
        ensures
            *writer == self.writer_spec(),
    {
        &self.writer
    }

    /// The synchronizer, when the search index is enabled.
    pub fn index_sync(&self) -> (index_sync: Option<&SearchIndexSynchronizer>)
        ensures
            match index_sync {
                Some(s) => self.index_sync_spec() == Some(*s),
                None => self.index_sync_spec() is None,
            },
    {
        match &self.index_sync {
            Some(s) => Some(s),
            None => None,
        }
    }
}

impl Clone for IndexedMarkdownWriter {
    fn clone(&self) -> (copy: Self)
        ensures
            copy.writer_spec().vault_spec() == self.writer_spec().vault_spec(),
            copy.writer_spec().max_bytes_spec() == self.writer_spec().max_bytes_spec(),
            copy.index_sync_spec() is Some == self.index_sync_spec() is Some,
    {
        IndexedMarkdownWriter {
            writer: self.writer.clone(),
            index_sync: match &self.index_sync {
                Some(s) => Some(s.clone()),
                None => None,
            },
        }
    }
}

} // verus!
