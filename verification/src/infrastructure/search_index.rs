//! The rebuildable SQLite search projection: its location and lock, the
//! values it stores, and the decisions of its incremental updates and of a
//! whole-Vault reconciliation.
//!
//! The SQLite and filesystem work runs outside the library; it asks the
//! functions below what to write, what to delete and what to report.

use std::path::PathBuf;
use std::sync::{Arc, Mutex};
use std::time::SystemTime;

use vstd::prelude::*;

use crate::domain::projection::MarkdownProjection;
use crate::infrastructure::markdown_projection::strings_view;
use crate::infrastructure::std_types::new_lock;
use crate::text::{join_seq, push_char, push_str};

verus! {

/// `rusqlite::Error`, kept as the source of database errors.
#[verifier::external_type_specification]
#[verifier::external_body]
pub struct ExSqliteError(rusqlite::Error);

/// `time::error::Format`, kept as the source of timestamp errors.
#[verifier::external_type_specification]
#[verifier::external_body]
pub struct ExTimeFormatError(time::error::Format);

/// Where the search projection lives: a state directory, the database file
/// inside it, and the lock that serializes its lifecycle in this process.
#[derive(Debug)]
pub struct SearchIndex {
    state_root: PathBuf,
    database_path: PathBuf,
    lifecycle_lock: Arc<Mutex<()>>,
}

impl SearchIndex {
    /// The state directory.
    pub closed spec fn state_root_spec(&self) -> PathBuf {
        self.state_root
    }

    /// The database file.
    pub closed spec fn database_path_spec(&self) -> PathBuf {
        self.database_path
    }

    /// An index over a prepared state directory and its database file, with a
    /// fresh lifecycle lock.
    pub fn from_prepared(state_root: PathBuf, database_path: PathBuf) -> (index: Self)
        ensures
            index.state_root_spec() == state_root,
            index.database_path_spec() == database_path,
    {
        SearchIndex { state_root, database_path, lifecycle_lock: new_lock() }
    }

    /// The state directory that holds the database.
    pub fn state_root(&self) -> (path: &PathBuf)
        ensures
            *path == self.state_root_spec(),
    {
        &self.state_root
    }

    /// The SQLite database file.
    pub fn database_path(&self) -> (path: &PathBuf)
        ensures
            *path == self.database_path_spec(),
    {
        &self.database_path
    }

    /// The lock that serializes lifecycle operations.
    pub closed spec fn lifecycle_lock_spec(&self) -> Arc<Mutex<()>> {
        self.lifecycle_lock
    }

    /// The lock that serializes lifecycle operations.
    pub fn lifecycle_lock(&self) -> (lock: &Arc<Mutex<()>>)
        ensures
            *lock == self.lifecycle_lock_spec(),
    {
        &self.lifecycle_lock
    }
}

impl Clone for SearchIndex {
    fn clone(&self) -> (copy: Self)
        ensures
            copy.state_root_spec() == self.state_root_spec(),
            copy.database_path_spec() == self.database_path_spec(),
    {
        SearchIndex {
            state_root: self.state_root.clone(),
            database_path: self.database_path.clone(),
            lifecycle_lock: Arc::clone(&self.lifecycle_lock),
        }
    }
}

/// The schema version and the number of indexed documents.
#[derive(Clone, Copy, Debug, Eq, PartialEq, Structural)]
pub struct SearchIndexStatus {
    pub schema_version: i32,
    pub document_count: u64,
}

/// A projection to store, with the source file's modification time.
#[derive(Clone, Debug, Eq, PartialEq)]
pub struct IndexDocument {
    pub projection: MarkdownProjection,
    pub modified_at: SystemTime,
}

/// What one incremental update did.
#[derive(Clone, Copy, Debug, Eq, PartialEq, Structural)]
pub enum IndexMutation {
    Inserted,
    Updated,
    Unchanged,
}

/// The changes one reconciliation applied.
#[derive(Clone, Copy, Debug, Eq, PartialEq, Structural)]
pub struct IndexReconciliation {
    pub inserted: u64,
    pub updated: u64,
    pub unchanged: u64,
    pub deleted: u64,
}

impl Default for IndexReconciliation {
    fn default() -> (r: Self)
        ensures
            r == (IndexReconciliation { inserted: 0, updated: 0, unchanged: 0, deleted: 0 }),
    {
        IndexReconciliation { inserted: 0, updated: 0, unchanged: 0, deleted: 0 }
    }
}

/// Why the search index could not be opened, read or changed.
#[derive(Debug)]
pub enum SearchIndexError {
    StateRootNotDirectory(PathBuf),
    SymlinkNotAllowed(PathBuf),
    Io { path: PathBuf, source: std::io::Error },
    Database { path: PathBuf, source: rusqlite::Error },
    InvalidSchema,
    LifecycleLockPoisoned,
    DuplicateProjectionPath(String),
    TimestampFormat(time::error::Format),
}

// ----- opening the projection -----

/// The schema version this library writes and reads.
pub const SCHEMA_VERSION: i32 = 1;

/// What the metadata of a path said.
#[derive(Debug)]
pub enum PathProbe {
    /// Nothing exists at the path.
    Missing,
    /// Something exists: whether it is a symlink, and whether it is a directory.
    Found { is_symlink: bool, is_directory: bool },
    /// Reading the metadata failed otherwise.
    Failed(std::io::Error),
}

/// What to do with the configured state directory.
#[derive(Debug)]
pub enum StateRootStep {
    /// It is missing: create it, then canonicalize it.
    Create,
    /// It is a directory: canonicalize it.
    Canonicalize,
    Fail(SearchIndexError),
}

/// The first step of preparing the state directory from its metadata
/// (symlinks followed): a non-directory is refused, a missing one is
/// created, and any other failure is an I/O error on the configured path.
pub fn state_root_step(configured: PathBuf, probe: PathProbe) -> (step: StateRootStep)
    ensures
        match probe {
            PathProbe::Missing => step is Create,
            PathProbe::Found { is_directory, .. } => if is_directory {
                step is Canonicalize
            } else {
                step == StateRootStep::Fail(SearchIndexError::StateRootNotDirectory(configured))
            },
            PathProbe::Failed(source) => step == StateRootStep::Fail(
                SearchIndexError::Io { path: configured, source },
            ),
        },
{
    match probe {
        PathProbe::Missing => StateRootStep::Create,
        PathProbe::Found { is_directory, .. } => if is_directory {
            StateRootStep::Canonicalize
        } else {
            StateRootStep::Fail(SearchIndexError::StateRootNotDirectory(configured))
        },
        PathProbe::Failed(source) => StateRootStep::Fail(SearchIndexError::Io { path: configured, source }),
    }
}

/// The canonical state directory must still be a directory; the error
/// names the configured path.
pub fn check_canonical_state_root(configured: PathBuf, is_directory: bool) -> (r: Result<(), SearchIndexError>)
    ensures
        is_directory ==> r is Ok,
        !is_directory ==> r == Err::<(), SearchIndexError>(SearchIndexError::StateRootNotDirectory(configured)),
{
    if is_directory {
        Ok(())
    } else {
        Err(SearchIndexError::StateRootNotDirectory(configured))
    }
}

/// A database file, or one of its sidecars, must not be a symlink; a
/// missing one is fine, and any other failure is an I/O error on the path.
pub fn check_no_symlink(path: PathBuf, probe: PathProbe) -> (r: Result<(), SearchIndexError>)
    ensures
        match probe {
            PathProbe::Missing => r is Ok,
            PathProbe::Found { is_symlink, .. } => if is_symlink {
                r == Err::<(), SearchIndexError>(SearchIndexError::SymlinkNotAllowed(path))
            } else {
                r is Ok
            },
            PathProbe::Failed(source) => r == Err::<(), SearchIndexError>(SearchIndexError::Io { path, source }),
        },
{
    match probe {
        PathProbe::Missing => Ok(()),
        PathProbe::Found { is_symlink, .. } => if is_symlink {
            Err(SearchIndexError::SymlinkNotAllowed(path))
        } else {
            Ok(())
        },
        PathProbe::Failed(source) => Err(SearchIndexError::Io { path, source }),
    }
}

/// What to do with an existing database's schema.
#[derive(Debug)]
pub enum SchemaAction {
    /// The version matches: check the tables.
    Verify,
    /// The schema is valid: keep the database.
    Keep,
    /// Remove the database files and create the schema anew.
    Recreate,
    Fail(SearchIndexError),
}

/// A database of another schema version is recreated; one of this version
/// has its tables checked first.
pub fn schema_on_version(version: i32) -> (action: SchemaAction)
    ensures
        version == SCHEMA_VERSION ==> action is Verify,
        version != SCHEMA_VERSION ==> action is Recreate,
{
    if version == SCHEMA_VERSION {
        SchemaAction::Verify
    } else {
        SchemaAction::Recreate
    }
}

/// After the table check: a valid schema is kept, an invalid one is
/// recreated, and any other failure stops the opening.
pub fn schema_on_check(check: Result<(), SearchIndexError>) -> (action: SchemaAction)
    ensures
        match check {
            Ok(()) => action is Keep,
            Err(SearchIndexError::InvalidSchema) => action is Recreate,
            Err(e) => action == SchemaAction::Fail(e),
        },
{
    match check {
        Ok(()) => SchemaAction::Keep,
        Err(SearchIndexError::InvalidSchema) => SchemaAction::Recreate,
        Err(e) => SchemaAction::Fail(e),
    }
}

/// Whether `text` contains `fts5`.
pub open spec fn mentions_fts5(text: Seq<char>) -> bool {
    exists|i: int| 0 <= i && i + 4 <= text.len() && #[trigger] text.subrange(i, i + 4) == seq!['f', 't', 's', '5']
}

/// The schema's tables are valid when the documents table exists and the
/// search table exists as an FTS5 table.
pub fn schema_tables_valid(documents_sql: Option<&str>, search_sql: Option<&str>) -> (valid: bool)
    ensures
        valid == (documents_sql is Some && (search_sql matches Some(sql) && mentions_fts5(sql@))),
{
    if documents_sql.is_none() {
        return false;
    }
    let sql = match search_sql {
        Some(sql) => sql,
        None => return false,
    };
    let chars = crate::text::chars_of(sql);
    let ghost target = seq!['f', 't', 's', '5'];
    let mut i: usize = 0;
    while chars.len() >= 4 && i <= chars.len() - 4
        invariant
            chars@ == sql@,
            i <= chars@.len(),
            target == seq!['f', 't', 's', '5'],
            documents_sql is Some,
            search_sql == Some(sql),
            forall|j: int| 0 <= j < i && j + 4 <= chars@.len() ==> #[trigger] chars@.subrange(j, j + 4) != target,
        decreases chars.len() - i,
    {
        if chars[i] == 'f' && chars[i + 1] == 't' && chars[i + 2] == 's' && chars[i + 3] == '5' {
            let ghost sub = chars@.subrange(i as int, i + 4);
            assert(sub.len() == 4 && sub[0] == 'f' && sub[1] == 't' && sub[2] == 's' && sub[3] == '5');
            assert(sub =~= target);
            assert(mentions_fts5(sql@));
            return true;
        }
        assert(chars@.subrange(i as int, i + 4) != target) by {
            let sub = chars@.subrange(i as int, i + 4);
            assert(sub[0] == chars@[i as int] && sub[1] == chars@[i + 1] && sub[2] == chars@[i + 2]
                && sub[3] == chars@[i + 3]);
        }
        i = i + 1;
    }
    assert(!mentions_fts5(sql@)) by {
        if mentions_fts5(sql@) {
            let j = choose|j: int| 0 <= j && j + 4 <= sql@.len() && #[trigger] sql@.subrange(j, j + 4) == target;
            assert(chars@.subrange(j, j + 4) != target);
        }
    }
    false
}

// ----- incremental update -----

/// What an upsert does given the stored hash: without `force`, a document
/// whose hash is already stored is left unchanged and nothing is written;
/// otherwise it is written and counts as updated when a row existed and as
/// inserted when none did.
pub open spec fn upsert_outcome(current_hash: Option<Seq<char>>, new_hash: Seq<char>, force: bool) -> IndexMutation {
    if !force && current_hash == Some(new_hash) {
        IndexMutation::Unchanged
    } else if current_hash is Some {
        IndexMutation::Updated
    } else {
        IndexMutation::Inserted
    }
}

/// Upserting a document whose hash is already stored changes nothing, while
/// a forced upsert always writes.
pub proof fn lemma_repeated_upsert_is_unchanged(current_hash: Option<Seq<char>>, hash: Seq<char>)
    ensures
        upsert_outcome(Some(hash), hash, false) == IndexMutation::Unchanged,
        upsert_outcome(current_hash, hash, true) != IndexMutation::Unchanged,
{
}

/// Decides an upsert from the hash stored for the path, if any. `Unchanged`
/// means that nothing is written.
pub fn upsert_plan(current_hash: Option<&String>, new_hash: &String, force: bool) -> (mutation: IndexMutation)
    ensures
        mutation == upsert_outcome(
            match current_hash {
                Some(h) => Some(h@),
                None => None,
            },
            new_hash@,
            force,
        ),
{
    match current_hash {
        Some(hash) => {
            if !force && *hash == *new_hash {
                IndexMutation::Unchanged
            } else {
                IndexMutation::Updated
            }
        },
        None => IndexMutation::Inserted,
    }
}

/// The tags column of the full-text table: the tags joined by single spaces.
pub fn tags_text(tags: &Vec<String>) -> (text: String)
    ensures
        text@ == join_seq(strings_view(tags@), ' '),
{
    let mut text = String::new();
    let mut i: usize = 0;
    while i < tags.len()
        invariant
            i <= tags@.len(),
            text@ == join_seq(strings_view(tags@).take(i as int), ' '),
        decreases tags@.len() - i,
    {
        let ghost pieces = strings_view(tags@);
        assert(pieces.take(i + 1).drop_last() == pieces.take(i as int));
        assert(pieces.take(i + 1).last() == tags@[i as int]@);
        if i > 0 {
            push_char(&mut text, ' ');
        }
        push_str(&mut text, tags[i].as_str());
        proof {
            if i == 0 {
                assert(pieces.take(1).len() == 1);
            }
        }
        i = i + 1;
    }
    assert(strings_view(tags@).take(i as int) == strings_view(tags@));
    text
}

// ----- reconciliation -----

/// The paths of the documents to index.
pub open spec fn document_paths(documents: Seq<IndexDocument>) -> Seq<Seq<char>> {
    documents.map_values(|d: IndexDocument| d.projection.path@)
}

/// An earlier entry equals the entry at `from`.
pub open spec fn appears_before(paths: Seq<Seq<char>>, from: int) -> bool {
    exists|k: int| 0 <= k < from && #[trigger] paths[k] == paths[from]
}

/// The first document whose path an earlier document already has.
pub open spec fn first_duplicate(paths: Seq<Seq<char>>, from: int) -> Option<int>
    decreases paths.len() - from,
{
    if from < 0 || from >= paths.len() {
        None
    } else if appears_before(paths, from) {
        Some(from)
    } else {
        first_duplicate(paths, from + 1)
    }
}

/// Refuses a document list that names one path twice, reporting the first
/// repeated path in list order.
pub fn check_unique_paths(documents: &Vec<IndexDocument>) -> (r: Result<(), SearchIndexError>)
    ensures
        match first_duplicate(document_paths(documents@), 0) {
            None => r is Ok,
            Some(k) => r matches Err(SearchIndexError::DuplicateProjectionPath(p)) && p@ == document_paths(
                documents@,
            )[k],
        },
{
    let ghost paths = document_paths(documents@);
    let mut i: usize = 0;
    while i < documents.len()
        invariant
            i <= documents@.len(),
            paths == document_paths(documents@),
            first_duplicate(paths, 0) == first_duplicate(paths, i as int),
        decreases documents@.len() - i,
    {
        let current = documents[i].projection.path.as_str();
        assert(paths[i as int] == documents@[i as int].projection.path@);
        let mut j: usize = 0;
        let mut seen = false;
        while j < i
            invariant
                j <= i < documents@.len(),
                paths == document_paths(documents@),
                current@ == paths[i as int],
                seen <==> exists|k: int| 0 <= k < j && #[trigger] paths[k] == paths[i as int],
            decreases i - j,
        {
            let earlier = documents[j].projection.path.as_str().to_owned();
            let now = current.to_owned();
            assert(paths[j as int] == documents@[j as int].projection.path@);
            assert(paths[i as int] == documents@[i as int].projection.path@);
            if earlier == now {
                assert(paths[j as int] == paths[i as int]);
                seen = true;
            } else {
                assert(paths[j as int] != paths[i as int]);
            }
            assert(seen <==> exists|k: int| 0 <= k < j + 1 && #[trigger] paths[k] == paths[i as int]);
            j = j + 1;
        }
        if seen {
            return Err(SearchIndexError::DuplicateProjectionPath(current.to_owned()));
        }
        i = i + 1;
    }
    Ok(())
}

/// Whether an indexed path is still among the documents to index; a
/// reconciliation deletes the rows of the paths that are not.
pub fn is_desired(path: &str, documents: &Vec<IndexDocument>) -> (b: bool)
    ensures
        b == document_paths(documents@).contains(path@),
{
    let mut i: usize = 0;
    while i < documents.len()
        invariant
            i <= documents@.len(),
            forall|k: int| 0 <= k < i ==> #[trigger] document_paths(documents@)[k] != path@,
        decreases documents@.len() - i,
    {
        let candidate = documents[i].projection.path.as_str().to_owned();
        let wanted = path.to_owned();
        assert(document_paths(documents@)[i as int] == documents@[i as int].projection.path@);
        if candidate == wanted {
            return true;
        }
        i = i + 1;
    }
    proof {
        if document_paths(documents@).contains(path@) {
            let k = choose|k: int| 0 <= k < document_paths(documents@).len() && document_paths(documents@)[k] == path@;
            assert(document_paths(documents@)[k] != path@);
        }
    }
    false
}

/// How many entries of `mutations` are `m`.
pub open spec fn count_of(mutations: Seq<IndexMutation>, m: IndexMutation) -> nat
    decreases mutations.len(),
{
    if mutations.len() == 0 {
        0
    } else {
        count_of(mutations.drop_last(), m) + if mutations.last() == m {
            1nat
        } else {
            0nat
        }
    }
}

/// How many of the deletions removed a row.
pub open spec fn count_true(flags: Seq<bool>) -> nat
    decreases flags.len(),
{
    if flags.len() == 0 {
        0
    } else {
        count_true(flags.drop_last()) + if flags.last() {
            1nat
        } else {
            0nat
        }
    }
}

proof fn lemma_counts_bounded(mutations: Seq<IndexMutation>)
    ensures
        count_of(mutations, IndexMutation::Inserted) + count_of(mutations, IndexMutation::Updated)
            + count_of(mutations, IndexMutation::Unchanged) == mutations.len(),
    decreases mutations.len(),
{
    if mutations.len() > 0 {
        lemma_counts_bounded(mutations.drop_last());
    }
}

/// What one desired document does in a reconciliation: a stored row that
/// matches it is left unchanged, another stored row is updated, and a
/// missing row is inserted.
pub open spec fn reconcile_outcome(stored: bool, matches: bool) -> IndexMutation {
    if !stored {
        IndexMutation::Inserted
    } else if matches {
        IndexMutation::Unchanged
    } else {
        IndexMutation::Updated
    }
}

/// Decides what a reconciliation does with one desired document.
pub fn reconcile_plan(stored: bool, matches: bool) -> (m: IndexMutation)
    ensures
        m == reconcile_outcome(stored, matches),
{
    if !stored {
        IndexMutation::Inserted
    } else if matches {
        IndexMutation::Unchanged
    } else {
        IndexMutation::Updated
    }
}

/// The report of a reconciliation: one count per kind of change, and the
/// number of stale rows that a deletion actually removed.
pub fn tally_reconciliation(mutations: &Vec<IndexMutation>, deletions: &Vec<bool>) -> (r: IndexReconciliation)
    ensures
        r.inserted == count_of(mutations@, IndexMutation::Inserted),
        r.updated == count_of(mutations@, IndexMutation::Updated),
        r.unchanged == count_of(mutations@, IndexMutation::Unchanged),
        r.deleted == count_true(deletions@),
        r.inserted + r.updated + r.unchanged == mutations@.len(),
        r.deleted <= deletions@.len(),
{
    let mut r = IndexReconciliation::default();
    let mut i: usize = 0;
    while i < mutations.len()
        invariant
            i <= mutations@.len(),
            r.inserted == count_of(mutations@.take(i as int), IndexMutation::Inserted),
            r.updated == count_of(mutations@.take(i as int), IndexMutation::Updated),
            r.unchanged == count_of(mutations@.take(i as int), IndexMutation::Unchanged),
            r.deleted == 0,
            r.inserted + r.updated + r.unchanged == i,
        decreases mutations@.len() - i,
    {
        assert(mutations@.take(i + 1).drop_last() == mutations@.take(i as int));
        proof {
            lemma_counts_bounded(mutations@.take(i as int));
        }
        match mutations[i] {
            IndexMutation::Inserted => r.inserted = r.inserted + 1,
            IndexMutation::Updated => r.updated = r.updated + 1,
            IndexMutation::Unchanged => r.unchanged = r.unchanged + 1,
        }
        i = i + 1;
    }
    assert(mutations@.take(i as int) == mutations@);
    let mut k: usize = 0;
    while k < deletions.len()
        invariant
            k <= deletions@.len(),
            r.inserted == count_of(mutations@, IndexMutation::Inserted),
            r.updated == count_of(mutations@, IndexMutation::Updated),
            r.unchanged == count_of(mutations@, IndexMutation::Unchanged),
            r.inserted + r.updated + r.unchanged == mutations@.len(),
            r.deleted == count_true(deletions@.take(k as int)),
            r.deleted <= k,
        decreases deletions@.len() - k,
    {
        assert(deletions@.take(k + 1).drop_last() == deletions@.take(k as int));
        if deletions[k] {
            r.deleted = r.deleted + 1;
        }
        k = k + 1;
    }
    assert(deletions@.take(k as int) == deletions@);
    r
}

// ----- stored rows -----

/// One row of the full-text table as stored.
#[derive(Debug, Eq, PartialEq)]
pub struct StoredFtsDocument {
    pub title: String,
    pub body: String,
    pub tags: String,
}

/// One row of the documents table as stored, with the full-text rows of its path.
#[derive(Debug)]
pub struct StoredIndexDocument {
    pub title: String,
    pub body: String,
    pub content_hash: String,
    pub modified_at: String,
    pub frontmatter_json: Option<String>,
    pub fts_rows: Vec<StoredFtsDocument>,
}

/// Two optional strings with the same characters.
pub open spec fn same_optional_text(a: Option<String>, b: Option<String>) -> bool {
    match (a, b) {
        (Some(x), Some(y)) => x@ == y@,
        (None, None) => true,
        _ => false,
    }
}

fn optional_text_equal(a: &Option<String>, b: &Option<String>) -> (r: bool)
    ensures
        r == same_optional_text(*a, *b),
{
    match (a, b) {
        (Some(x), Some(y)) => *x == *y,
        (None, None) => true,
        _ => false,
    }
}

/// A stored row already holds a document when every stored column equals
/// the projection's value, the stored modification time is the document's
/// formatted one, and exactly one full-text row holds its title, body and
/// space-joined tags.
pub open spec fn stored_matches(stored: StoredIndexDocument, document: IndexDocument, modified_at_text: Seq<char>) -> bool {
    let p = document.projection;
    &&& stored.title@ == p.title@
    &&& stored.body@ == p.body@
    &&& stored.content_hash@ == p.content_hash@
    &&& stored.modified_at@ == modified_at_text
    &&& same_optional_text(stored.frontmatter_json, p.frontmatter_json)
    &&& stored.fts_rows@.len() == 1
    &&& stored.fts_rows@[0].title@ == p.title@
    &&& stored.fts_rows@[0].body@ == p.body@
    &&& stored.fts_rows@[0].tags@ == join_seq(strings_view(p.tags@), ' ')
}

impl StoredIndexDocument {
    /// Whether this stored row already holds `document`, whose modification
    /// time formats as `modified_at_text`.
    pub fn matches(&self, document: &IndexDocument, modified_at_text: &String) -> (r: bool)
        ensures
            r == stored_matches(*self, *document, modified_at_text@),
    {
        let p = &document.projection;
        if !(self.title == p.title && self.body == p.body && self.content_hash == p.content_hash
            && self.modified_at == *modified_at_text) {
            return false;
        }
        if !optional_text_equal(&self.frontmatter_json, &p.frontmatter_json) {
            return false;
        }
        if self.fts_rows.len() != 1 {
            return false;
        }
        let row = &self.fts_rows[0];
        let tags = tags_text(&p.tags);
        row.title == p.title && row.body == p.body && row.tags == tags
    }
}

} // verus!
