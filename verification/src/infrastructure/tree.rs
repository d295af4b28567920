//! One level of the Vault file tree.
//!
//! Reading a directory is outside work. The library decides which children
//! are shown and with what path, and in what order the listing comes:
//! directories first, then files, each group by name.

use std::path::PathBuf;
use std::time::SystemTime;

use vstd::prelude::*;
use vstd::seq_lib::{to_multiset_build, to_multiset_insert};

use crate::domain::path::{canonical_path_error, markdown_path_error, CanonicalPath, MarkdownPath};
use crate::domain::tree::{DirectoryListing, TreeEntry, TreeEntryKind};
use crate::infrastructure::vault::{VaultError, VaultRoot};
use crate::text::{chars_of, push_char, push_str};

verus! {

/// Lists the direct children of Vault directories.
#[derive(Debug)]
pub struct TreeReader {
    vault: VaultRoot,
}

impl TreeReader {
    /// The Vault the reader lists.
    pub closed spec fn vault_spec(&self) -> VaultRoot {
        self.vault
    }

    /// A tree reader over `vault`.
    pub fn new(vault: VaultRoot) -> (reader: Self)
        ensures
            reader.vault_spec() == vault,
    {
        TreeReader { vault }
    }

    /// The Vault the reader lists.
    pub fn vault(&self) -> (vault: &VaultRoot)
        ensures
            *vault == self.vault_spec(),
    {
        &self.vault
    }
}

impl Clone for TreeReader {
    fn clone(&self) -> (copy: Self)
        ensures
            copy == *self,
    {
        TreeReader { vault: self.vault.clone() }
    }
}

/// Why a directory could not be listed.
#[derive(Debug)]
pub enum TreeReadError {
    Vault(VaultError),
    NotFound(String),
    NotDirectory(String),
    ReadDirectory { path: PathBuf, source: std::io::Error },
    Metadata { path: PathBuf, source: std::io::Error },
}

/// Whether a listing target may be listed: it must be a directory and no symlink.
pub fn check_listing_target(public_path: &String, is_symlink: bool, is_directory: bool) -> (r: Result<(), TreeReadError>)
    ensures
        is_symlink ==> (r matches Err(TreeReadError::Vault(VaultError::SymlinkNotAllowed(p))) && p@ == public_path@),
        !is_symlink && !is_directory ==> (r matches Err(TreeReadError::NotDirectory(p)) && p@ == public_path@),
        r is Ok <==> !is_symlink && is_directory,
{
    if is_symlink {
        return Err(TreeReadError::Vault(VaultError::SymlinkNotAllowed(public_path.clone())));
    }
    if !is_directory {
        return Err(TreeReadError::NotDirectory(public_path.clone()));
    }
    Ok(())
}

/// What a child of a listed directory becomes.
#[derive(Debug)]
pub enum EntryPlan {
    /// Not shown: hidden, a symlink, neither directory nor regular file, or
    /// its path breaks a path rule.
    Skip,
    Directory(CanonicalPath),
    /// A Markdown file and its length in bytes.
    File(CanonicalPath, u64),
}

/// The Vault path of a child: the parent path, `/` and the name, or the name
/// alone at the root.
pub open spec fn child_path(parent: Option<Seq<char>>, name: Seq<char>) -> Seq<char> {
    match parent {
        Some(p) => p.push('/') + name,
        None => name,
    }
}

/// Which children are shown: not hidden, not symlinks; directories with a
/// valid path, and regular files with a valid Markdown path.
pub open spec fn entry_plan_spec(
    parent: Option<Seq<char>>,
    name: Seq<char>,
    is_symlink: bool,
    is_directory: bool,
    is_file: bool,
) -> Option<TreeEntryKind> {
    let path = child_path(parent, name);
    if (name.len() > 0 && name[0] == '.') || is_symlink {
        None
    } else if is_directory {
        if canonical_path_error(path) is None {
            Some(TreeEntryKind::Directory)
        } else {
            None
        }
    } else if is_file {
        if markdown_path_error(path) is None {
            Some(TreeEntryKind::File)
        } else {
            None
        }
    } else {
        None
    }
}

/// Decides how a child appears in the listing.
pub fn plan_entry(
    directory: Option<&CanonicalPath>,
    name: &str,
    is_symlink: bool,
    is_directory: bool,
    is_file: bool,
    length: u64,
) -> (plan: EntryPlan)
    ensures
        match entry_plan_spec(
            match directory {
                Some(d) => Some(d@),
                None => None,
            },
            name@,
            is_symlink,
            is_directory,
            is_file,
        ) {
            None => plan is Skip,
            Some(TreeEntryKind::Directory) => plan matches EntryPlan::Directory(p) && p@ == child_path(
                match directory {
                    Some(d) => Some(d@),
                    None => None,
                },
                name@,
            ),
            Some(TreeEntryKind::File) => plan matches EntryPlan::File(p, n) && n == length && p@
                == child_path(
                match directory {
                    Some(d) => Some(d@),
                    None => None,
                },
                name@,
            ),
        },
{
    let name_chars = chars_of(name);
    if (name_chars.len() > 0 && name_chars[0] == '.') || is_symlink {
        return EntryPlan::Skip;
    }
    let mut relative = String::new();
    match directory {
        Some(parent) => {
            push_str(&mut relative, parent.as_str());
            push_char(&mut relative, '/');
        },
        None => {},
    }
    push_str(&mut relative, name);
    assert(relative@ =~= child_path(
        match directory {
            Some(d) => Some(d@),
            None => None,
        },
        name@,
    ));
    if is_directory {
        match CanonicalPath::parse(relative.as_str()) {
            Ok(path) => EntryPlan::Directory(path),
            Err(_) => EntryPlan::Skip,
        }
    } else if is_file {
        match MarkdownPath::parse(relative.as_str()) {
            Ok(path) => EntryPlan::File(path.as_canonical().clone(), length),
            Err(_) => EntryPlan::Skip,
        }
    } else {
        EntryPlan::Skip
    }
}

// ----- listing order -----

/// Directories come before files.
pub open spec fn entry_rank(kind: TreeEntryKind) -> int {
    match kind {
        TreeEntryKind::Directory => 0,
        TreeEntryKind::File => 1,
    }
}

/// Lexicographic order of character sequences by code point; UTF-8 keeps
/// this order, so it is the byte order of the names.
pub open spec fn chars_less(a: Seq<char>, b: Seq<char>) -> bool
    decreases a.len(),
{
    if a.len() == 0 {
        b.len() > 0
    } else if b.len() == 0 {
        false
    } else if a[0] < b[0] {
        true
    } else if a[0] == b[0] {
        chars_less(a.drop_first(), b.drop_first())
    } else {
        false
    }
}

/// `a` comes strictly before `b` in a listing: directories first, then by name.
pub open spec fn entry_less(a: TreeEntry, b: TreeEntry) -> bool {
    entry_rank(a.kind) < entry_rank(b.kind) || (entry_rank(a.kind) == entry_rank(b.kind)
        && chars_less(a.name@, b.name@))
}

/// No entry comes strictly before an earlier one.
pub open spec fn listing_sorted(entries: Seq<TreeEntry>) -> bool {
    forall|i: int, j: int| 0 <= i < j < entries.len() ==> !entry_less(#[trigger] entries[j], #[trigger] entries[i])
}

/// Names are ordered lexicographically by character: `a` comes before `b`
/// exactly when `a` is a proper prefix of `b`, or at the first position where
/// they differ the character of `a` is the smaller.
pub proof fn lemma_chars_less_is_lexicographic(a: Seq<char>, b: Seq<char>)
    ensures
        chars_less(a, b) <==> ((a.len() < b.len() && b.take(a.len() as int) == a) || exists|k: int|
            0 <= k < a.len() && k < b.len() && a.take(k) == b.take(k) && #[trigger] a[k] < #[trigger] b[k]),
    decreases a.len(),
{
    if a.len() > 0 && b.len() > 0 {
        lemma_chars_less_is_lexicographic(a.drop_first(), b.drop_first());
        let a1 = a.drop_first();
        let b1 = b.drop_first();
        if a[0] == b[0] {
            if a1.len() < b1.len() && b1.take(a1.len() as int) == a1 {
                assert forall|i: int| 0 <= i < a.len() implies b.take(a.len() as int)[i] == a[i] by {
                    if i > 0 {
                        assert(a[i] == a1[i - 1]);
                        assert(b[i] == b1[i - 1]);
                        assert(a1[i - 1] == b1.take(a1.len() as int)[i - 1]);
                    }
                }
                assert(b.take(a.len() as int) =~= a);
            }
            if a.len() < b.len() && b.take(a.len() as int) == a {
                assert(b1.take(a1.len() as int) =~= a1);
            }
            if exists|k: int| 0 <= k < a1.len() && k < b1.len() && a1.take(k) == b1.take(k) && #[trigger] a1[k] < #[trigger] b1[k] {
                let k = choose|k: int| 0 <= k < a1.len() && k < b1.len() && a1.take(k) == b1.take(k) && #[trigger] a1[k] < #[trigger] b1[k];
                assert(a.take(k + 1) =~= b.take(k + 1)) by {
                    assert forall|i: int| 0 <= i < k + 1 implies a[i] == b[i] by {
                        if i > 0 {
                            assert(a[i] == a1.take(k)[i - 1] && b[i] == b1.take(k)[i - 1]);
                        }
                    }
                }
                assert(a[k + 1] == a1[k] && b[k + 1] == b1[k]);
            }
            if exists|k: int| 0 <= k < a.len() && k < b.len() && a.take(k) == b.take(k) && #[trigger] a[k] < #[trigger] b[k] {
                let k = choose|k: int| 0 <= k < a.len() && k < b.len() && a.take(k) == b.take(k) && #[trigger] a[k] < #[trigger] b[k];
                assert(k > 0);
                assert(a1.take(k - 1) =~= b1.take(k - 1)) by {
                    assert forall|i: int| 0 <= i < k - 1 implies a1[i] == b1[i] by {
                        assert(a1[i] == a.take(k)[i + 1] && b1[i] == b.take(k)[i + 1]);
                    }
                }
                assert(a1[k - 1] == a[k] && b1[k - 1] == b[k]);
            }
        } else {
            if a[0] < b[0] {
                assert(a.take(0) =~= b.take(0));
                assert(a[0] < b[0]);
            }
            if a.len() < b.len() && b.take(a.len() as int) == a {
                assert(b.take(a.len() as int)[0] == b[0]);
            }
            if exists|k: int| 0 <= k < a.len() && k < b.len() && a.take(k) == b.take(k) && #[trigger] a[k] < #[trigger] b[k] {
                let k = choose|k: int| 0 <= k < a.len() && k < b.len() && a.take(k) == b.take(k) && #[trigger] a[k] < #[trigger] b[k];
                if k > 0 {
                    assert(a.take(k)[0] == b.take(k)[0]);
                }
            }
        }
    } else if a.len() == 0 {
        if b.len() > 0 {
            assert(b.take(0) =~= a);
        }
    }
}

/// The name order is transitive.
pub proof fn lemma_chars_less_transitive(a: Seq<char>, b: Seq<char>, c: Seq<char>)
    requires
        chars_less(a, b),
        chars_less(b, c),
    ensures
        chars_less(a, c),
    decreases a.len(),
{
    if a.len() > 0 && b.len() > 0 && c.len() > 0 && a[0] == b[0] && b[0] == c[0] {
        lemma_chars_less_transitive(a.drop_first(), b.drop_first(), c.drop_first());
    }
}

/// The listing order is transitive.
pub proof fn lemma_entry_less_transitive(a: TreeEntry, b: TreeEntry, c: TreeEntry)
    requires
        entry_less(a, b),
        entry_less(b, c),
    ensures
        entry_less(a, c),
{
    if entry_rank(a.kind) == entry_rank(b.kind) && entry_rank(b.kind) == entry_rank(c.kind) {
        lemma_chars_less_transitive(a.name@, b.name@, c.name@);
    }
}

/// No name comes before itself.
pub proof fn lemma_chars_less_irreflexive(a: Seq<char>)
    ensures
        !chars_less(a, a),
    decreases a.len(),
{
    if a.len() > 0 {
        lemma_chars_less_irreflexive(a.drop_first());
    }
}

fn chars_less_exec(a: &[char], b: &[char]) -> (r: bool)
    ensures
        r == chars_less(a@, b@),
{
    let mut i: usize = 0;
    assert(a@.skip(0) == a@ && b@.skip(0) == b@);
    while i < a.len() && i < b.len() && a[i] == b[i]
        invariant
            i <= a@.len(),
            i <= b@.len(),
            chars_less(a@, b@) == chars_less(a@.skip(i as int), b@.skip(i as int)),
        decreases a@.len() - i,
    {
        assert(a@.skip(i as int).drop_first() == a@.skip(i + 1));
        assert(b@.skip(i as int).drop_first() == b@.skip(i + 1));
        i = i + 1;
    }
    if i == a.len() {
        i < b.len()
    } else if i == b.len() {
        false
    } else {
        assert(a@.skip(i as int)[0] == a@[i as int]);
        assert(b@.skip(i as int)[0] == b@[i as int]);
        a[i] < b[i]
    }
}

fn rank_of(kind: TreeEntryKind) -> (r: u8)
    ensures
        r == entry_rank(kind),
{
    match kind {
        TreeEntryKind::Directory => 0,
        TreeEntryKind::File => 1,
    }
}

fn entry_less_exec(a: &TreeEntry, b: &TreeEntry) -> (r: bool)
    ensures
        r == entry_less(*a, *b),
{
    let ra = rank_of(a.kind);
    let rb = rank_of(b.kind);
    if ra != rb {
        return ra < rb;
    }
    let an = chars_of(a.name.as_str());
    let bn = chars_of(b.name.as_str());
    chars_less_exec(an.as_slice(), bn.as_slice())
}

/// Orders a listing: directories first, then files, each group by name.
pub fn sort_entries(entries: Vec<TreeEntry>) -> (sorted: Vec<TreeEntry>)
    ensures
        listing_sorted(sorted@),
        sorted@.to_multiset() == entries@.to_multiset(),
        sorted@.len() == entries@.len(),
{
    broadcast use vstd::multiset::group_multiset_axioms;
    let mut rest = entries;
    let mut out: Vec<TreeEntry> = Vec::new();
    let ghost initial = rest@;
    proof {
        assert(out@.to_multiset() =~= vstd::multiset::Multiset::empty()) by {
            broadcast use vstd::seq_lib::group_to_multiset_ensures;
        }
    }
    while rest.len() > 0
        invariant
            listing_sorted(out@),
            out@.to_multiset().add(rest@.to_multiset()) == initial.to_multiset(),
            out@.len() + rest@.len() == initial.len(),
        decreases rest@.len(),
    {
        let ghost before_rest = rest@;
        let ghost before_out = out@;
        let e = match rest.pop() {
            Some(e) => e,
            None => {
                return out;
            },
        };
        proof {
            assert(before_rest == rest@.push(e));
            to_multiset_build(rest@, e);
        }
        let mut p: usize = 0;
        while p < out.len() && !entry_less_exec(&e, &out[p])
            invariant
                p <= out@.len(),
                out@ == before_out,
                forall|k: int| 0 <= k < p ==> !entry_less(e, #[trigger] out@[k]),
            decreases out@.len() - p,
        {
            p = p + 1;
        }
        proof {
            to_multiset_insert(out@, p as int, e);
        }
        out.insert(p, e);
        proof {
            let s = out@;
            assert(s == before_out.insert(p as int, e));
            assert forall|i: int, j: int| 0 <= i < j < s.len() implies !entry_less(#[trigger] s[j], #[trigger] s[i]) by {
                if j < p {
                    assert(s[i] == before_out[i] && s[j] == before_out[j]);
                } else if j == p {
                    assert(s[i] == before_out[i]);
                } else if i < p {
                    assert(s[i] == before_out[i] && s[j] == before_out[j - 1]);
                } else if i == p {
                    assert(s[j] == before_out[j - 1]);
                    if entry_less(s[j], e) {
                        assert(p < before_out.len());
                        assert(entry_less(e, before_out[p as int]));
                        lemma_entry_less_transitive(s[j], e, before_out[p as int]);
                        if j - 1 > p {
                            assert(!entry_less(before_out[j - 1], before_out[p as int]));
                        } else {
                            lemma_chars_less_irreflexive(before_out[p as int].name@);
                        }
                    }
                } else {
                    assert(s[i] == before_out[i - 1] && s[j] == before_out[j - 1]);
                }
            }
        }
    }
    proof {
        assert(rest@.len() == 0);
        assert(rest@ == Seq::<TreeEntry>::empty());
        assert(rest@.to_multiset() =~= vstd::multiset::Multiset::empty()) by {
            broadcast use vstd::seq_lib::group_to_multiset_ensures;
        }
        assert(out@.to_multiset().add(rest@.to_multiset()) =~= out@.to_multiset());
    }
    out
}


// ----- a whole listing -----

/// What the metadata of one child said, read without following symlinks.
#[derive(Debug)]
pub enum ChildMetadata {
    /// The child disappeared before its metadata was read.
    Missing,
    Failed(std::io::Error),
    Found {
        is_symlink: bool,
        is_directory: bool,
        is_file: bool,
        length: u64,
        /// The modification time, read only for a child that is shown.
        modified: Result<SystemTime, std::io::Error>,
    },
}

/// One child of a listed directory, as the directory read gave it.
#[derive(Debug)]
pub struct ChildReport {
    /// Where the child lies on disk.
    pub absolute: PathBuf,
    /// Its name, when the name is UTF-8.
    pub name: Option<String>,
    pub metadata: ChildMetadata,
}

/// The parent path of a listing, as characters.
pub open spec fn listing_parent(directory: Option<&CanonicalPath>) -> Option<Seq<char>> {
    match directory {
        Some(d) => Some(d@),
        None => None,
    }
}

/// How a child is shown, if it is.
pub open spec fn child_kind(parent: Option<Seq<char>>, child: ChildReport) -> Option<TreeEntryKind> {
    match (child.name, child.metadata) {
        (Some(name), ChildMetadata::Found { is_symlink, is_directory, is_file, .. }) => entry_plan_spec(
            parent,
            name@,
            is_symlink,
            is_directory,
            is_file,
        ),
        _ => None,
    }
}

/// The error one child gives: its metadata could not be read, or it is
/// shown and its modification time could not be read.
pub open spec fn child_error(parent: Option<Seq<char>>, child: ChildReport) -> Option<TreeReadError> {
    match child.metadata {
        ChildMetadata::Failed(source) => Some(TreeReadError::Metadata { path: child.absolute, source }),
        ChildMetadata::Found { modified: Err(source), .. } => if child_kind(parent, child) is Some {
            Some(TreeReadError::Metadata { path: child.absolute, source })
        } else {
            None
        },
        _ => None,
    }
}

/// The error of the first child, in order, that gives one.
pub open spec fn listing_error(parent: Option<Seq<char>>, children: Seq<ChildReport>) -> Option<TreeReadError>
    decreases children.len(),
{
    if children.len() == 0 {
        None
    } else {
        match listing_error(parent, children.drop_last()) {
            Some(e) => Some(e),
            None => child_error(parent, children.last()),
        }
    }
}

/// The children that are shown, in order.
pub open spec fn shown_children(parent: Option<Seq<char>>, children: Seq<ChildReport>) -> Seq<ChildReport>
    decreases children.len(),
{
    if children.len() == 0 {
        Seq::empty()
    } else {
        let shown = shown_children(parent, children.drop_last());
        if child_kind(parent, children.last()) is Some {
            shown.push(children.last())
        } else {
            shown
        }
    }
}

/// The entry of a shown child: its kind, name, Vault path, the length of a
/// file, and its modification time.
pub open spec fn entry_fits(parent: Option<Seq<char>>, child: ChildReport, e: TreeEntry) -> bool {
    match (child.name, child.metadata) {
        (Some(name), ChildMetadata::Found { length, modified: Ok(t), .. }) => {
            &&& child_kind(parent, child) == Some(e.kind)
            &&& e.name@ == name@
            &&& e.path@ == child_path(parent, name@)
            &&& e.size == (if e.kind is File { Some(length) } else { None::<u64> })
            &&& e.modified_at == t
        },
        _ => false,
    }
}

proof fn lemma_listing_error_stays(parent: Option<Seq<char>>, children: Seq<ChildReport>, j: int)
    requires
        0 <= j <= children.len(),
        listing_error(parent, children.take(j)) is Some,
    ensures
        listing_error(parent, children) == listing_error(parent, children.take(j)),
    decreases children.len() - j,
{
    if j < children.len() {
        let longer = children.take(j + 1);
        assert(longer.drop_last() == children.take(j));
        lemma_listing_error_stays(parent, children, j + 1);
    } else {
        assert(children.take(j) == children);
    }
}

/// The listing of a directory from the reports of its children: the first
/// child whose metadata fails, or that is shown and whose modification time
/// fails, stops it; otherwise it holds an entry for each shown child, and
/// no other, directories first, then files, each group by name.
pub fn list_children(directory: Option<&CanonicalPath>, children: Vec<ChildReport>) -> (r: Result<DirectoryListing, TreeReadError>)
    ensures
        match r {
            Err(e) => listing_error(listing_parent(directory), children@) == Some(e),
            Ok(listing) => {
                &&& listing_error(listing_parent(directory), children@) is None
                &&& listing_parent(directory) == match listing.path {
                    Some(p) => Some(p@),
                    None => None::<Seq<char>>,
                }
                &&& listing_sorted(listing.entries@)
                &&& exists|unsorted: Seq<TreeEntry>| {
                    let shown = shown_children(listing_parent(directory), children@);
                    &&& unsorted.len() == shown.len()
                    &&& forall|k: int| 0 <= k < shown.len() ==> entry_fits(
                        listing_parent(directory),
                        #[trigger] shown[k],
                        unsorted[k],
                    )
                    &&& listing.entries@.to_multiset() == #[trigger] unsorted.to_multiset()
                }
            },
        },
{
    let ghost parent = listing_parent(directory);
    let ghost all = children@;
    let total = children.len();
    let mut rest = children;
    let mut entries: Vec<TreeEntry> = Vec::new();
    let mut i: usize = 0;
    while rest.len() > 0
        invariant
            i <= all.len(),
            rest@ == all.skip(i as int),
            all == children@,
            all.len() == total,
            parent == listing_parent(directory),
            listing_error(parent, all.take(i as int)) is None,
            entries@.len() == shown_children(parent, all.take(i as int)).len(),
            forall|k: int| 0 <= k < entries@.len() ==> entry_fits(
                parent,
                #[trigger] shown_children(parent, all.take(i as int))[k],
                entries@[k],
            ),
        decreases rest@.len(),
    {
        assert(rest@.len() == all.len() - i);
        let child = rest.remove(0);
        let ghost c = child;
        let ghost prefix = all.take(i + 1);
        assert(c == all[i as int]);
        assert(prefix.drop_last() == all.take(i as int));
        assert(prefix.last() == c);
        let ChildReport { absolute, name, metadata } = child;
        match metadata {
            ChildMetadata::Missing => {},
            ChildMetadata::Failed(source) => {
                let error = TreeReadError::Metadata { path: absolute, source };
                proof {
                    assert(listing_error(parent, prefix) == child_error(parent, c));
                    assert(child_error(parent, c) == Some(error));
                    lemma_listing_error_stays(parent, all, i + 1);
                }
                return Err(error);
            },
            ChildMetadata::Found { is_symlink, is_directory, is_file, length, modified } => {
                match name {
                    None => {},
                    Some(name) => {
                        let plan = plan_entry(directory, name.as_str(), is_symlink, is_directory, is_file, length);
                        let shown = match plan {
                            EntryPlan::Skip => None,
                            EntryPlan::Directory(path) => Some((TreeEntryKind::Directory, path, None)),
                            EntryPlan::File(path, size) => Some((TreeEntryKind::File, path, Some(size))),
                        };
                        match shown {
                            None => {},
                            Some((kind, path, size)) => match modified {
                                Err(source) => {
                                    let error = TreeReadError::Metadata { path: absolute, source };
                                    proof {
                                        assert(child_kind(parent, c) is Some);
                                        assert(listing_error(parent, prefix) == child_error(parent, c));
                                        assert(child_error(parent, c) == Some(error));
                                        lemma_listing_error_stays(parent, all, i + 1);
                                    }
                                    return Err(error);
                                },
                                Ok(modified_at) => {
                                    let ghost before = entries@;
                                    entries.push(TreeEntry { kind, name, path, size, modified_at });
                                    assert forall|k: int| 0 <= k < entries@.len() implies entry_fits(
                                        parent,
                                        #[trigger] shown_children(parent, prefix)[k],
                                        entries@[k],
                                    ) by {
                                        if k < before.len() {
                                            assert(entries@[k] == before[k]);
                                            assert(shown_children(parent, prefix)[k] == shown_children(parent, all.take(i as int))[k]);
                                        }
                                    }
                                },
                            },
                        }
                    },
                }
            },
        }
        assert(rest@ == all.skip(i + 1));
        i = i + 1;
    }
    assert(all.take(i as int) == all);
    let ghost unsorted = entries@;
    let sorted = sort_entries(entries);
    let path = match directory {
        Some(d) => Some(d.clone()),
        None => None,
    };
    Ok(DirectoryListing { path, entries: sorted })
}

} // verus!
