use std::io;
use std::path::PathBuf;
use std::time::SystemTime;

use knowledgeos_backend::domain::path::CanonicalPath;
use knowledgeos_backend::domain::tree::TreeEntryKind;
use knowledgeos_backend::infrastructure::tree::{
    list_children, ChildMetadata, ChildReport, TreeReadError,
};

fn child(name: &str, is_symlink: bool, is_directory: bool, is_file: bool, length: u64) -> ChildReport {
    ChildReport {
        absolute: PathBuf::from("/vault/docs").join(name),
        name: Some(name.to_owned()),
        metadata: ChildMetadata::Found {
            is_symlink,
            is_directory,
            is_file,
            length,
            modified: Ok(SystemTime::UNIX_EPOCH),
        },
    }
}

#[test]
fn a_listing_shows_real_directories_and_markdown_files_in_order() {
    let directory = CanonicalPath::parse("docs").expect("valid directory");
    let children = vec![
        child("zeta.md", false, false, true, 5),
        child(".hidden.md", false, false, true, 1),
        child("notes.txt", false, false, true, 1),
        child("link.md", true, false, false, 1),
        child("beta", false, true, false, 0),
        child("alpha.md", false, false, true, 7),
        ChildReport {
            absolute: PathBuf::from("/vault/docs/gone.md"),
            name: Some("gone.md".to_owned()),
            metadata: ChildMetadata::Missing,
        },
    ];
    let listing = list_children(Some(&directory), children).expect("listing succeeds");
    assert_eq!(listing.path, Some(directory));
    let shown: Vec<(TreeEntryKind, &str, &str, Option<u64>)> = listing
        .entries
        .iter()
        .map(|e| (e.kind, e.name.as_str(), e.path.as_str(), e.size))
        .collect();
    assert_eq!(
        shown,
        vec![
            (TreeEntryKind::Directory, "beta", "docs/beta", None),
            (TreeEntryKind::File, "alpha.md", "docs/alpha.md", Some(7)),
            (TreeEntryKind::File, "zeta.md", "docs/zeta.md", Some(5)),
        ]
    );
}

#[test]
fn a_listing_stops_at_the_first_unreadable_child() {
    let children = vec![
        child("a.md", false, false, true, 1),
        ChildReport {
            absolute: PathBuf::from("/vault/b.md"),
            name: Some("b.md".to_owned()),
            metadata: ChildMetadata::Failed(io::Error::other("denied")),
        },
    ];
    match list_children(None, children) {
        Err(TreeReadError::Metadata { path, .. }) => assert_eq!(path, PathBuf::from("/vault/b.md")),
        other => panic!("unexpected result: {other:?}"),
    }

    let skipped_time = ChildReport {
        absolute: PathBuf::from("/vault/notes.txt"),
        name: Some("notes.txt".to_owned()),
        metadata: ChildMetadata::Found {
            is_symlink: false,
            is_directory: false,
            is_file: true,
            length: 1,
            modified: Err(io::Error::other("no time")),
        },
    };
    let listing = list_children(None, vec![skipped_time]).expect("hidden children need no time");
    assert!(listing.entries.is_empty());
}
