//! Keeping the search projection in step with the Markdown files.
//!
//! Which paths are searchable, which directory entries a Vault scan visits,
//! what document a snapshot is indexed as, and how a scan is reported are
//! decided here; the scan and the index writes run outside the library.

use vstd::prelude::*;

use crate::domain::document::MarkdownDocument;
use crate::domain::path::{markdown_path_error, MarkdownPath};
use crate::domain::projection::FrontmatterStatus;
use crate::infrastructure::markdown::MarkdownReader;
use crate::infrastructure::markdown_projection::{
    frontmatter_status_spec, links_view, markdown_metadata_spec, option_string_view,
    projection_body, projection_json, projection_tags, projection_title, strings_view,
    MarkdownProjectionParser,
};
use crate::infrastructure::search_index::{IndexDocument, IndexReconciliation, SearchIndex};
use crate::infrastructure::vault::VaultRoot;
use crate::text::{chars_of, ends_with, lemma_split_first, split_seq, starts_with};

verus! {

/// The Vault directory whose documents are never searchable.
pub open spec fn trash_root() -> Seq<char> {
    seq!['_', 't', 'r', 'a', 's', 'h']
}

/// What a Vault scan found and what the reconciliation changed.
#[derive(Clone, Copy, Debug, Eq, PartialEq, Structural)]
pub struct IndexSyncReport {
    pub discovered: u64,
    pub skipped: u64,
    pub malformed_frontmatter: u64,
    pub changes: IndexReconciliation,
}

/// Synchronizes the Markdown files of one Vault with the search index.
#[derive(Debug)]
pub struct SearchIndexSynchronizer {
    vault: VaultRoot,
    reader: MarkdownReader,
    index: SearchIndex,
}

impl SearchIndexSynchronizer {
    /// The Vault that is scanned.
    pub closed spec fn vault_spec(&self) -> VaultRoot {
        self.vault
    }

    /// The reader used for scanned files.
    pub closed spec fn reader_spec(&self) -> MarkdownReader {
        self.reader
    }

    /// The index that is kept in step.
    pub closed spec fn index_spec(&self) -> SearchIndex {
        self.index
    }

    /// A synchronizer for `vault` whose reader accepts files of at most
    /// `max_markdown_bytes` bytes.
    pub fn new(vault: VaultRoot, max_markdown_bytes: u64, index: SearchIndex) -> (sync: Self)
        ensures
            sync.vault_spec() == vault,
            sync.reader_spec().vault_spec() == vault,
            sync.reader_spec().max_bytes_spec() == max_markdown_bytes,
            sync.index_spec() == index,
    {
        SearchIndexSynchronizer {
            reader: MarkdownReader::new(vault.clone(), max_markdown_bytes),
            vault,
            index,
        }
    }

    /// The Vault that is scanned.
    pub fn vault(&self) -> (vault: &VaultRoot)
        ensures
            *vault == self.vault_spec(),
    {
        &self.vault
    }

    /// The reader used for scanned files.
    pub fn reader(&self) -> (reader: &MarkdownReader)
        ensures
            *reader == self.reader_spec(),
    {
        &self.reader
    }

    /// The index that is kept in step.
    pub fn index(&self) -> (index: &SearchIndex)
        ensures
            *index == self.index_spec(),
    {
        &self.index
    }
}

impl Clone for SearchIndexSynchronizer {
    fn clone(&self) -> (copy: Self)
        ensures
            copy.vault_spec() == self.vault_spec(),
            copy.reader_spec() == self.reader_spec(),
    {
        SearchIndexSynchronizer {
            vault: self.vault.clone(),
            reader: self.reader.clone(),
            index: self.index.clone(),
        }
    }
}

/// A path is searchable unless its first segment is `_trash`.
pub open spec fn is_searchable_spec(path: Seq<char>) -> bool {
    split_seq(path, '/')[0] != trash_root()
}

proof fn lemma_first_occurrence(s: Seq<char>, c: char) -> (k: int)
    requires
        exists|i: int| 0 <= i < s.len() && s[i] == c,
    ensures
        0 <= k < s.len(),
        s[k] == c,
        forall|i: int| 0 <= i < k ==> s[i] != c,
    decreases s.len(),
{
    let t = s.drop_last();
    if exists|i: int| 0 <= i < t.len() && t[i] == c {
        let k = lemma_first_occurrence(t, c);
        assert forall|i: int| 0 <= i < k implies s[i] != c by {
            assert(s[i] == t[i]);
        }
        k
    } else {
        let i = choose|i: int| 0 <= i < s.len() && s[i] == c;
        if i < t.len() {
            assert(t[i] == s[i]);
        }
        assert forall|j: int| 0 <= j < t.len() implies s[j] != c by {
            assert(s[j] == t[j]);
        }
        t.len() as int
    }
}

/// A path is searchable exactly when it neither is `_trash` nor lies
/// below `_trash/`; every other path, a single-segment one included, is.
pub proof fn lemma_searchable_outside_trash(path: Seq<char>)
    ensures
        is_searchable_spec(path) <==> !(path == trash_root() || starts_with(path, trash_root().push('/'))),
{
    let trash = trash_root();
    let slash = trash.push('/');
    if exists|i: int| 0 <= i < path.len() && path[i] == '/' {
        let k = lemma_first_occurrence(path, '/');
        lemma_split_first(path, '/', k);
        if path.take(k) == trash {
            assert(path.take(k).len() == k);
            assert(k == 6);
            assert forall|i: int| 0 <= i < 6 implies path[i] == slash[i] by {
                assert(path[i] == path.take(k)[i]);
            }
            assert(path.subrange(0, 7) =~= slash);
        }
        if starts_with(path, slash) {
            assert forall|i: int| 0 <= i < 6 implies path[i] != '/' by {
                assert(path[i] == slash[i]);
            }
            assert(path[6] == slash[6]);
            assert(k == 6);
            assert(path.take(k) =~= trash);
        }
        if path == trash {
            assert(path[k] == trash[k]);
        }
    } else {
        lemma_split_first(path, '/', path.len() as int);
        assert(path.take(path.len() as int) == path);
        if starts_with(path, slash) {
            assert(path[6] == slash[6]);
        }
    }
}

/// Whether documents at `path` belong in the search index.
pub fn is_searchable(path: &MarkdownPath) -> (b: bool)
    ensures
        b == is_searchable_spec(path@),
{
    let segments = path.as_canonical().segments();
    proof {
        crate::text::lemma_split_shape(path@, '/');
    }
    let first = chars_of(segments[0].as_str());
    let trash = ['_', 't', 'r', 'a', 's', 'h'];
    assert(trash@ == trash_root());
    if first.len() != 6 {
        assert(first@ != trash_root());
        return true;
    }
    let mut i: usize = 0;
    while i < 6
        invariant
            i <= 6,
            first@.len() == 6,
            trash@ == trash_root(),
            first@ == split_seq(path@, '/')[0],
            forall|k: int| 0 <= k < i ==> first@[k] == trash@[k],
        decreases 6 - i,
    {
        if first[i] != trash[i] {
            assert(first@[i as int] != trash_root()[i as int]);
            return true;
        }
        i = i + 1;
    }
    assert(first@ =~= trash_root());
    false
}

/// The document to index for a snapshot: its projection and modification time.
pub fn index_document(document: &MarkdownDocument) -> (indexed: IndexDocument)
    ensures
        indexed.projection.path@ == document.path@,
        indexed.projection.title@ == projection_title(document.path@, document.content@),
        indexed.projection.body@ == projection_body(document.content@),
        strings_view(indexed.projection.tags@) == projection_tags(document.content@),
        links_view(indexed.projection.links@) == markdown_metadata_spec(projection_body(document.content@)).2,
        indexed.projection.content_hash@ == document.hash@,
        option_string_view(indexed.projection.frontmatter_json) == projection_json(document.content@),
        indexed.projection.frontmatter_status == frontmatter_status_spec(document.content@),
        indexed.modified_at == document.modified_at,
{
    IndexDocument {
        projection: MarkdownProjectionParser::parse(document),
        modified_at: document.modified_at.clone(),
    }
}

/// What a Vault scan does with one directory entry.
#[derive(Clone, Copy, Debug, Eq, PartialEq, Structural)]
pub enum ScanStep {
    /// Not visited and not counted: hidden names, and `_trash` at the root.
    Ignore,
    /// Not visited, counted as skipped: symlinks and special files.
    Skip,
    /// A directory to descend into, if its path is valid.
    Descend,
    /// A file to consider as Markdown.
    File,
}

/// Hidden names, and `_trash` at the root, are not visited at all.
pub open spec fn scan_ignores(name: Seq<char>, at_root: bool) -> bool {
    (name.len() > 0 && name[0] == '.') || (at_root && name == trash_root())
}

/// Whether a scan passes over an entry without looking at it.
pub fn is_scan_ignored(name: &str, at_root: bool) -> (b: bool)
    ensures
        b == scan_ignores(name@, at_root),
{
    let chars = chars_of(name);
    let hidden = chars.len() > 0 && chars[0] == '.';
    let mut is_trash = false;
    if at_root && chars.len() == 6 {
        is_trash = chars[0] == '_' && chars[1] == 't' && chars[2] == 'r' && chars[3] == 'a'
            && chars[4] == 's' && chars[5] == 'h';
        assert(is_trash ==> chars@ =~= trash_root());
        assert(chars@ == trash_root() ==> is_trash);
    }
    assert(at_root && chars@ == trash_root() ==> is_trash);
    hidden || is_trash
}

/// Which entries a scan visits: hidden names and the root `_trash` are
/// ignored, symlinks and entries that are neither directory nor file are
/// skipped.
pub open spec fn scan_step_spec(name: Seq<char>, at_root: bool, is_symlink: bool, is_directory: bool, is_file: bool) -> ScanStep {
    if scan_ignores(name, at_root) {
        ScanStep::Ignore
    } else if is_symlink {
        ScanStep::Skip
    } else if is_directory {
        ScanStep::Descend
    } else if is_file {
        ScanStep::File
    } else {
        ScanStep::Skip
    }
}

/// Decides what a scan does with one directory entry.
pub fn scan_step(name: &str, at_root: bool, is_symlink: bool, is_directory: bool, is_file: bool) -> (step: ScanStep)
    ensures
        step == scan_step_spec(name@, at_root, is_symlink, is_directory, is_file),
{
    if is_scan_ignored(name, at_root) {
        ScanStep::Ignore
    } else if is_symlink {
        ScanStep::Skip
    } else if is_directory {
        ScanStep::Descend
    } else if is_file {
        ScanStep::File
    } else {
        ScanStep::Skip
    }
}

/// A scanned file counts as Markdown when its name has the extension `md`:
/// it ends with `.md` after a non-empty stem.
pub open spec fn has_md_extension(name: Seq<char>) -> bool {
    name.len() > 3 && ends_with(name, seq!['.', 'm', 'd'])
}

/// The text `.md`.
pub open spec fn dot_md() -> Seq<char> {
    seq!['.', 'm', 'd']
}

/// A file name counts as Markdown exactly when it is a non-empty stem,
/// whatever characters it holds, followed by `.md`.
pub proof fn lemma_md_extension_is_md_suffix(name: Seq<char>)
    ensures
        has_md_extension(name) <==> exists|stem: Seq<char>| stem.len() > 0 && name == #[trigger] (stem + dot_md()),
{
    let md = dot_md();
    if has_md_extension(name) {
        let stem = name.take(name.len() - 3);
        assert(name == stem + md);
    }
    if exists|stem: Seq<char>| stem.len() > 0 && name == #[trigger] (stem + md) {
        let stem = choose|stem: Seq<char>| stem.len() > 0 && name == #[trigger] (stem + md);
        assert(name.subrange(name.len() - 3, name.len() as int) =~= md);
    }
}

/// Whether a scanned file name has the `md` extension.
pub fn md_extension(name: &str) -> (b: bool)
    ensures
        b == has_md_extension(name@),
{
    let chars = chars_of(name);
    let suffix = ['.', 'm', 'd'];
    assert(suffix@ == seq!['.', 'm', 'd']);
    chars.len() > 3 && crate::text::ends_with_chars(chars.as_slice(), &suffix)
}

/// The running counts of a Vault scan.
#[derive(Clone, Copy, Debug, Eq, PartialEq, Structural)]
pub struct ScanCounts {
    pub discovered: u64,
    pub skipped: u64,
    pub malformed_frontmatter: u64,
}

/// What a scan made of one directory entry.
#[derive(Clone, Copy, Debug, Eq, PartialEq, Structural)]
pub enum ScanOutcome {
    /// The entry's name is not UTF-8.
    UnreadableName,
    /// A hidden entry, or `_trash` at the root.
    Ignored,
    /// A symlink or a special file.
    Special,
    /// A directory whose path is not a valid Vault path.
    InvalidDirectory,
    /// A directory that was descended into; its entries count for themselves.
    Descended,
    /// A file without the `md` extension.
    NotMarkdown,
    /// A Markdown file whose path is not a valid Markdown path.
    InvalidMarkdownPath,
    /// A Markdown file that could not be read.
    Unreadable,
    /// A Markdown file that was indexed, with or without malformed frontmatter.
    Indexed { malformed: bool },
}

/// Whether an outcome is a discovered Markdown file.
pub open spec fn is_discovered(o: ScanOutcome) -> bool {
    match o {
        ScanOutcome::InvalidMarkdownPath | ScanOutcome::Unreadable | ScanOutcome::Indexed { .. } => true,
        _ => false,
    }
}

/// Whether an outcome counts as skipped.
pub open spec fn is_skipped(o: ScanOutcome) -> bool {
    match o {
        ScanOutcome::UnreadableName | ScanOutcome::Special | ScanOutcome::InvalidDirectory
        | ScanOutcome::InvalidMarkdownPath | ScanOutcome::Unreadable => true,
        _ => false,
    }
}

/// Whether an outcome is an indexed file with malformed frontmatter.
pub open spec fn is_malformed_outcome(o: ScanOutcome) -> bool {
    o matches ScanOutcome::Indexed { malformed: true }
}

/// How many outcomes are discovered Markdown files, skipped entries, and
/// indexed files with malformed frontmatter.
pub open spec fn scan_tally(outcomes: Seq<ScanOutcome>) -> (nat, nat, nat)
    decreases outcomes.len(),
{
    if outcomes.len() == 0 {
        (0, 0, 0)
    } else {
        let t = scan_tally(outcomes.drop_last());
        let o = outcomes.last();
        (
            t.0 + if is_discovered(o) { 1nat } else { 0nat },
            t.1 + if is_skipped(o) { 1nat } else { 0nat },
            t.2 + if is_malformed_outcome(o) { 1nat } else { 0nat },
        )
    }
}

proof fn lemma_scan_tally_bounded(outcomes: Seq<ScanOutcome>)
    ensures
        scan_tally(outcomes).0 <= outcomes.len(),
        scan_tally(outcomes).1 <= outcomes.len(),
        scan_tally(outcomes).2 <= outcomes.len(),
    decreases outcomes.len(),
{
    if outcomes.len() > 0 {
        lemma_scan_tally_bounded(outcomes.drop_last());
    }
}

/// The counts of a scan: the discovered Markdown files, the skipped
/// entries, and the indexed files with malformed frontmatter.
pub fn scan_counts(outcomes: &Vec<ScanOutcome>) -> (counts: ScanCounts)
    ensures
        counts.discovered == scan_tally(outcomes@).0,
        counts.skipped == scan_tally(outcomes@).1,
        counts.malformed_frontmatter == scan_tally(outcomes@).2,
{
    let mut counts = ScanCounts { discovered: 0, skipped: 0, malformed_frontmatter: 0 };
    let mut i: usize = 0;
    while i < outcomes.len()
        invariant
            i <= outcomes@.len(),
            counts.discovered == scan_tally(outcomes@.take(i as int)).0,
            counts.skipped == scan_tally(outcomes@.take(i as int)).1,
            counts.malformed_frontmatter == scan_tally(outcomes@.take(i as int)).2,
        decreases outcomes@.len() - i,
    {
        let o = outcomes[i];
        let ghost next = outcomes@.take(i + 1);
        proof {
            assert(next.drop_last() == outcomes@.take(i as int));
            assert(next.last() == o);
            lemma_scan_tally_bounded(next);
        }
        let (discovered, skipped, malformed) = match o {
            ScanOutcome::UnreadableName => (false, true, false),
            ScanOutcome::Ignored => (false, false, false),
            ScanOutcome::Special => (false, true, false),
            ScanOutcome::InvalidDirectory => (false, true, false),
            ScanOutcome::Descended => (false, false, false),
            ScanOutcome::NotMarkdown => (false, false, false),
            ScanOutcome::InvalidMarkdownPath => (true, true, false),
            ScanOutcome::Unreadable => (true, true, false),
            ScanOutcome::Indexed { malformed } => (true, false, malformed),
        };
        if discovered {
            counts.discovered = counts.discovered + 1;
        }
        if skipped {
            counts.skipped = counts.skipped + 1;
        }
        if malformed {
            counts.malformed_frontmatter = counts.malformed_frontmatter + 1;
        }
        i = i + 1;
    }
    assert(outcomes@.take(outcomes@.len() as int) == outcomes@);
    counts
}

/// The report of a scan and of the reconciliation that followed it.
pub fn sync_report(counts: ScanCounts, changes: IndexReconciliation) -> (report: IndexSyncReport)
    ensures
        report.discovered == counts.discovered,
        report.skipped == counts.skipped,
        report.malformed_frontmatter == counts.malformed_frontmatter,
        report.changes == changes,
{
    IndexSyncReport {
        discovered: counts.discovered,
        skipped: counts.skipped,
        malformed_frontmatter: counts.malformed_frontmatter,
        changes,
    }
}

/// Whether an indexed document's frontmatter was malformed.
pub fn is_malformed(document: &IndexDocument) -> (b: bool)
    ensures
        b == (document.projection.frontmatter_status == FrontmatterStatus::Malformed),
{
    matches!(document.projection.frontmatter_status, FrontmatterStatus::Malformed)
}

} // verus!
