use std::io;
use std::path::PathBuf;

use knowledgeos_backend::domain::path::CanonicalPath;
use knowledgeos_backend::infrastructure::vault::{
    VaultError, VaultRoot, VaultWalk, WalkAction, WalkEvent, WalkMode,
};

fn vault() -> VaultRoot {
    VaultRoot::from_resolved(PathBuf::from("/vault"), PathBuf::from("/vault"))
}

fn canonical(value: &str) -> CanonicalPath {
    CanonicalPath::parse(value).expect("test path must be valid")
}

fn directory() -> WalkEvent {
    WalkEvent::Inspected {
        is_symlink: false,
        is_directory: true,
    }
}

fn file() -> WalkEvent {
    WalkEvent::Inspected {
        is_symlink: false,
        is_directory: false,
    }
}

#[test]
fn an_existing_path_is_inspected_segment_by_segment_then_contained() {
    let (mut walk, action) = VaultWalk::start(&vault(), &canonical("a/b/c.md"), WalkMode::Existing);
    assert!(matches!(action, WalkAction::Inspect(1)));
    assert!(matches!(walk.step(directory()), WalkAction::Inspect(2)));
    assert!(matches!(walk.step(directory()), WalkAction::Inspect(3)));
    assert!(matches!(walk.step(file()), WalkAction::CheckContainment));
    assert!(matches!(
        walk.step(WalkEvent::Canonical(PathBuf::from("/vault/a/b/c.md"))),
        WalkAction::Done
    ));
}

#[test]
fn symlinks_non_directories_and_escapes_are_refused() {
    let (mut walk, _) = VaultWalk::start(&vault(), &canonical("a/b.md"), WalkMode::Existing);
    match walk.step(WalkEvent::Inspected {
        is_symlink: true,
        is_directory: true,
    }) {
        WalkAction::Fail(VaultError::SymlinkNotAllowed(path)) => assert_eq!(path, "a"),
        other => panic!("unexpected action: {other:?}"),
    }

    let (mut walk, _) = VaultWalk::start(&vault(), &canonical("a/b.md"), WalkMode::Existing);
    match walk.step(file()) {
        WalkAction::Fail(VaultError::NonDirectoryAncestor(path)) => assert_eq!(path, "a"),
        other => panic!("unexpected action: {other:?}"),
    }

    let (mut walk, _) = VaultWalk::start(&vault(), &canonical("a.md"), WalkMode::Existing);
    walk.step(file());
    assert!(matches!(
        walk.step(WalkEvent::Canonical(PathBuf::from("/elsewhere/a.md"))),
        WalkAction::Fail(VaultError::OutsideVault(_))
    ));
}

#[test]
fn missing_entries_name_the_target_or_the_parent() {
    let (mut walk, _) = VaultWalk::start(&vault(), &canonical("a/b.md"), WalkMode::Existing);
    walk.step(directory());
    match walk.step(WalkEvent::Missing) {
        WalkAction::Fail(VaultError::TargetNotFound(path)) => assert_eq!(path, "a/b.md"),
        other => panic!("unexpected action: {other:?}"),
    }

    let (mut walk, _) = VaultWalk::start(&vault(), &canonical("a/b/c.md"), WalkMode::ParentForCreate);
    walk.step(directory());
    match walk.step(WalkEvent::Missing) {
        WalkAction::Fail(VaultError::ParentNotFound(path)) => assert_eq!(path, "a/b"),
        other => panic!("unexpected action: {other:?}"),
    }
}

#[test]
fn a_new_entry_needs_real_parents_and_no_symlink_at_its_path() {
    let (mut walk, action) = VaultWalk::start(&vault(), &canonical("a/new.md"), WalkMode::ParentForCreate);
    assert!(matches!(action, WalkAction::Inspect(1)));
    assert!(matches!(walk.step(directory()), WalkAction::CheckContainment));
    assert!(matches!(
        walk.step(WalkEvent::Canonical(PathBuf::from("/vault/a"))),
        WalkAction::InspectTarget
    ));
    assert!(matches!(walk.step(WalkEvent::Missing), WalkAction::Done));

    let (mut walk, action) = VaultWalk::start(&vault(), &canonical("new.md"), WalkMode::ParentForCreate);
    assert!(matches!(action, WalkAction::CheckContainment));
    walk.step(WalkEvent::Canonical(PathBuf::from("/vault")));
    match walk.step(WalkEvent::Inspected {
        is_symlink: true,
        is_directory: false,
    }) {
        WalkAction::Fail(VaultError::SymlinkNotAllowed(path)) => assert_eq!(path, "new.md"),
        other => panic!("unexpected action: {other:?}"),
    }

    let (mut walk, _) = VaultWalk::start(&vault(), &canonical("a/new.md"), WalkMode::ParentForCreate);
    assert!(matches!(
        walk.step(WalkEvent::Failed(PathBuf::from("/vault/a"), io::Error::other("denied"))),
        WalkAction::Fail(VaultError::Io { .. })
    ));
}

#[test]
fn containment_compares_whole_path_components() {
    let (mut walk, _) = VaultWalk::start(&vault(), &canonical("a.md"), WalkMode::Existing);
    walk.step(file());
    assert!(matches!(
        walk.step(WalkEvent::Canonical(PathBuf::from("/vaultx/a.md"))),
        WalkAction::Fail(VaultError::OutsideVault(_))
    ));
    let (mut walk, _) = VaultWalk::start(&vault(), &canonical("a.md"), WalkMode::Existing);
    walk.step(file());
    assert!(matches!(
        walk.step(WalkEvent::Canonical(PathBuf::from("/vault/a.md"))),
        WalkAction::Done
    ));
}
