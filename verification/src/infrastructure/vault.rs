//! The single active Vault: its configured and canonical roots, and the rules
//! that each walked path segment must obey.
//!
//! The filesystem walk itself runs outside the library; for every segment it
//! asks `check_walked_segment` what the observed metadata allows.

use std::path::PathBuf;

use vstd::prelude::*;

use crate::domain::path::CanonicalPath;
use crate::text::{join_seq, split_seq, string_from_chars};

verus! {

/// The configured Vault path and the real directory it resolved to at startup.
#[derive(Debug)]
pub struct VaultRoot {
    configured: PathBuf,
    canonical: PathBuf,
}

impl VaultRoot {
    /// The path the Vault was configured with.
    pub closed spec fn configured_spec(&self) -> PathBuf {
        self.configured
    }

    /// The canonical absolute root.
    pub closed spec fn canonical_spec(&self) -> PathBuf {
        self.canonical
    }

    /// A Vault root from its configured path and the canonical directory that
    /// path was checked to resolve to.
    pub fn from_resolved(configured: PathBuf, canonical: PathBuf) -> (vault: Self)
        ensures
            vault.configured_spec() == configured,
            vault.canonical_spec() == canonical,
    {
        VaultRoot { configured, canonical }
    }

    /// The configured Vault path.
    pub fn configured_path(&self) -> (path: &PathBuf)
        ensures
            *path == self.configured_spec(),
    {
        &self.configured
    }

    /// The canonical absolute Vault root resolved at startup.
    pub fn canonical_path(&self) -> (path: &PathBuf)
        ensures
            *path == self.canonical_spec(),
    {
        &self.canonical
    }
}

impl Clone for VaultRoot {
    fn clone(&self) -> (copy: Self)
        ensures
            copy == *self,
    {
        VaultRoot { configured: self.configured.clone(), canonical: self.canonical.clone() }
    }
}

/// Why a Vault root could not be opened or a descendant could not be used.
#[derive(Debug)]
pub enum VaultError {
    RootNotFound(PathBuf),
    RootNotDirectory(PathBuf),
    RootUnavailable { path: PathBuf, source: std::io::Error },
    TargetNotFound(String),
    ParentNotFound(String),
    SymlinkNotAllowed(String),
    NonDirectoryAncestor(String),
    OutsideVault(PathBuf),
    Io { path: PathBuf, source: std::io::Error },
}

/// The relative path walked so far: the first `count` segments joined by `/`.
pub open spec fn walked_prefix(path: Seq<char>, count: int) -> Seq<char> {
    join_seq(split_seq(path, '/').take(count), '/')
}

/// Walking every segment of a Vault path displays the path itself.
pub proof fn lemma_full_prefix_is_path(path: Seq<char>)
    requires
        crate::domain::path::is_canonical_path(path),
    ensures
        walked_prefix(path, split_seq(path, '/').len() as int) == path,
{
    crate::domain::path::lemma_canonical_segments(path);
    assert(split_seq(path, '/').take(split_seq(path, '/').len() as int) == split_seq(path, '/'));
}

/// The display form of the first `count` segments of a Vault path.
pub fn walked_display(path: &CanonicalPath, count: usize) -> (display: String)
    requires
        count <= split_seq(path@, '/').len(),
    ensures
        display@ == walked_prefix(path@, count as int),
{
    let segments = path.segments();
    let mut out: Vec<char> = Vec::new();
    let mut i: usize = 0;
    while i < count
        invariant
            i <= count <= split_seq(path@, '/').len(),
            segments@.len() == split_seq(path@, '/').len(),
            forall|k: int| 0 <= k < segments@.len() ==> #[trigger] segments@[k]@ == split_seq(path@, '/')[k],
            out@ == join_seq(split_seq(path@, '/').take(i as int), '/'),
        decreases count - i,
    {
        let ghost pieces = split_seq(path@, '/');
        assert(pieces.take(i + 1).drop_last() == pieces.take(i as int));
        assert(pieces.take(i + 1).last() == pieces[i as int]);
        if i > 0 {
            out.push('/');
        }
        let segment = crate::text::chars_of(segments[i].as_str());
        let mut j: usize = 0;
        let ghost start = out@;
        while j < segment.len()
            invariant
                j <= segment@.len(),
                out@ == start + segment@.take(j as int),
            decreases segment@.len() - j,
        {
            out.push(segment[j]);
            assert(segment@.take(j + 1) == segment@.take(j as int).push(segment@[j as int]));
            j = j + 1;
        }
        assert(segment@.take(j as int) == segment@);
        proof {
            if i == 0 {
                assert(pieces.take(1) =~= seq![pieces[0]]);
                assert(out@ =~= pieces[0]);
            } else {
                assert(out@ =~= join_seq(pieces.take(i as int), '/').push('/') + pieces[i as int]);
            }
        }
        i = i + 1;
    }
    string_from_chars(out.as_slice())
}

/// What the metadata of one walked segment allows: a symlink is refused
/// outright, and every segment but the last must be a directory.
pub fn check_walked_segment(display: &String, is_symlink: bool, is_directory: bool, is_last: bool) -> (r: Result<(), VaultError>)
    ensures
        is_symlink ==> (r matches Err(VaultError::SymlinkNotAllowed(s)) && s@ == display@),
        !is_symlink && !is_last && !is_directory ==> (r matches Err(VaultError::NonDirectoryAncestor(s)) && s@ == display@),
        r is Ok <==> !is_symlink && (is_last || is_directory),
{
    if is_symlink {
        return Err(VaultError::SymlinkNotAllowed(display.clone()));
    }
    if !is_last && !is_directory {
        return Err(VaultError::NonDirectoryAncestor(display.clone()));
    }
    Ok(())
}

// ----- walking a path below the root -----

/// What a walk resolves: an existing entry, or the place of a new one.
#[derive(Clone, Copy, Debug, Eq, PartialEq, Structural)]
pub enum WalkMode {
    Existing,
    ParentForCreate,
}

/// Where a walk stands.
#[derive(Clone, Copy, Debug, Eq, PartialEq, Structural)]
pub enum WalkStage {
    /// Waiting for the metadata of the next segment.
    Inspect,
    /// Waiting for the canonical form of the walked path.
    Containment,
    /// Waiting for the metadata of the new entry's own path.
    Target,
    Finished,
}

/// What the outside work reported.
#[derive(Debug)]
pub enum WalkEvent {
    /// The metadata of the inspected segment, read without following symlinks.
    Inspected { is_symlink: bool, is_directory: bool },
    /// The inspected path does not exist.
    Missing,
    /// Reading the metadata failed otherwise, at this absolute path.
    Failed(PathBuf, std::io::Error),
    /// The canonical form of the walked path.
    Canonical(PathBuf),
}

/// What to do next.
#[derive(Debug)]
pub enum WalkAction {
    /// Read the metadata of the first `count` segments joined below the root.
    Inspect(usize),
    /// Canonicalize the walked path and compare it with the root.
    CheckContainment,
    /// Read the metadata of the new entry's path.
    InspectTarget,
    /// The walked path is safe to use.
    Done,
    Fail(VaultError),
}

/// The decisions of a walk below the Vault root: every segment is inspected
/// without following symlinks, a symlink is refused, every segment before the
/// last must be a directory, and the result must stay inside the root.
pub struct VaultWalk {
    root: PathBuf,
    relative: CanonicalPath,
    mode: WalkMode,
    /// How many segments are walked: all of them, or all but the new entry.
    count: usize,
    walked: usize,
    stage: WalkStage,
    contained: Ghost<bool>,
}

/// `Path::starts_with` on owned paths: whether the components of `base` are
/// the leading components of `path`.
pub uninterp spec fn path_starts_with(path: PathBuf, base: PathBuf) -> bool;

/// Tells whether `path` lies below `base` with `Path::starts_with`, which
/// compares whole components only.
#[verifier::external_body]
fn starts_with_path(path: &PathBuf, base: &PathBuf) -> (below: bool)
    ensures
        below == path_starts_with(*path, *base),
{
    path.starts_with(base)
}

/// How many segments a walk inspects: every segment of an existing entry,
/// the parents of a new one.
pub open spec fn walk_count(relative: Seq<char>, mode: WalkMode) -> nat {
    let n = split_seq(relative, '/').len();
    match mode {
        WalkMode::Existing => n,
        WalkMode::ParentForCreate => (n - 1) as nat,
    }
}

/// One step of a walk: for each report of the stage it waited in, the
/// next stage, the segments passed and the action.
pub open spec fn walk_step_spec(before: VaultWalk, event: WalkEvent, after: VaultWalk, action: WalkAction) -> bool {
    let relative = before.relative_spec();
    let k = before.walked_spec();
    let finished = after.stage_spec() == WalkStage::Finished;
    match before.stage_spec() {
        WalkStage::Inspect => match event {
            WalkEvent::Inspected { is_symlink, is_directory } => {
                let display = walked_prefix(relative, (k + 1) as int);
                let is_last = k + 1 == split_seq(relative, '/').len();
                if is_symlink {
                    finished && (action matches WalkAction::Fail(VaultError::SymlinkNotAllowed(s)) && s@ == display)
                } else if !is_last && !is_directory {
                    finished && (action matches WalkAction::Fail(VaultError::NonDirectoryAncestor(s))
                        && s@ == display)
                } else if k + 1 == before.count_spec() {
                    after.walked_spec() == k + 1 && after.stage_spec() == WalkStage::Containment
                        && action is CheckContainment
                } else {
                    after.walked_spec() == k + 1 && after.stage_spec() == WalkStage::Inspect
                        && action == WalkAction::Inspect((k + 2) as usize)
                }
            },
            WalkEvent::Missing => finished && match before.mode_spec() {
                WalkMode::Existing => action matches WalkAction::Fail(VaultError::TargetNotFound(s))
                    && s@ == relative,
                WalkMode::ParentForCreate => action matches WalkAction::Fail(VaultError::ParentNotFound(s))
                    && s@ == walked_prefix(relative, (k + 1) as int),
            },
            WalkEvent::Failed(path, source) => finished && action == WalkAction::Fail(
                VaultError::Io { path, source },
            ),
            WalkEvent::Canonical(_) => true,
        },
        WalkStage::Containment => match event {
            WalkEvent::Canonical(canonical) => if !path_starts_with(canonical, before.root_spec()) {
                finished && action == WalkAction::Fail(VaultError::OutsideVault(canonical))
            } else {
                after.contained() && match before.mode_spec() {
                    WalkMode::Existing => finished && action is Done,
                    WalkMode::ParentForCreate => after.stage_spec() == WalkStage::Target
                        && action is InspectTarget,
                }
            },
            WalkEvent::Failed(path, source) => finished && action == WalkAction::Fail(
                VaultError::Io { path, source },
            ),
            _ => true,
        },
        WalkStage::Target => match event {
            WalkEvent::Inspected { is_symlink, .. } => finished && if is_symlink {
                action matches WalkAction::Fail(VaultError::SymlinkNotAllowed(s)) && s@ == relative
            } else {
                action is Done
            },
            WalkEvent::Missing => finished && action is Done,
            WalkEvent::Failed(path, source) => finished && action == WalkAction::Fail(
                VaultError::Io { path, source },
            ),
            WalkEvent::Canonical(_) => true,
        },
        WalkStage::Finished => true,
    }
}

/// The report that each stage waits for.
pub open spec fn walk_event_fits(stage: WalkStage, event: WalkEvent) -> bool {
    match stage {
        WalkStage::Inspect => !(event is Canonical),
        WalkStage::Containment => event is Canonical || event is Failed,
        WalkStage::Target => !(event is Canonical),
        WalkStage::Finished => false,
    }
}

impl VaultWalk {
    /// The stage the walk waits in.
    pub closed spec fn stage_spec(&self) -> WalkStage {
        self.stage
    }

    /// How many segments have passed their checks.
    pub closed spec fn walked_spec(&self) -> nat {
        self.walked as nat
    }

    /// How many segments the walk must pass.
    pub closed spec fn count_spec(&self) -> nat {
        self.count as nat
    }

    /// Whether the walked path was found inside the root.
    pub closed spec fn contained(&self) -> bool {
        self.contained@
    }

    /// The canonical Vault root the walk must stay below.
    pub closed spec fn root_spec(&self) -> PathBuf {
        self.root
    }

    /// The relative path that is walked.
    pub closed spec fn relative_spec(&self) -> Seq<char> {
        self.relative@
    }

    /// What the walk resolves.
    pub closed spec fn mode_spec(&self) -> WalkMode {
        self.mode
    }

    /// The walk's bookkeeping.
    pub closed spec fn inv(&self) -> bool {
        &&& self.walked <= self.count
        &&& self.count <= split_seq(self.relative@, '/').len()
        &&& (self.stage == WalkStage::Inspect ==> self.walked < self.count && !self.contained@)
        &&& (self.stage == WalkStage::Containment ==> self.walked == self.count && !self.contained@)
        &&& (self.stage == WalkStage::Target ==> self.walked == self.count && self.contained@
            && self.mode == WalkMode::ParentForCreate)
    }

    /// Starts a walk for `relative`: an existing entry walks every segment, a
    /// new entry walks its parents.
    pub fn start(vault: &VaultRoot, relative: &CanonicalPath, mode: WalkMode) -> (r: (VaultWalk, WalkAction))
        ensures
            r.0.inv(),
            r.0.root_spec() == vault.canonical_spec(),
            r.0.relative_spec() == relative@,
            r.0.mode_spec() == mode,
            r.0.walked_spec() == 0,
            r.0.count_spec() == walk_count(relative@, mode),
            r.0.count_spec() == 0 ==> r.0.stage_spec() == WalkStage::Containment && r.1 is CheckContainment,
            r.0.count_spec() > 0 ==> r.0.stage_spec() == WalkStage::Inspect && r.1 == WalkAction::Inspect(1),
    {
        let segments = relative.segments();
        proof {
            crate::text::lemma_split_shape(relative@, '/');
        }
        let count = match mode {
            WalkMode::Existing => segments.len(),
            WalkMode::ParentForCreate => segments.len() - 1,
        };
        let mut walk = VaultWalk {
            root: vault.canonical_path().clone(),
            relative: relative.clone(),
            mode,
            count,
            walked: 0,
            stage: WalkStage::Inspect,
            contained: Ghost(false),
        };
        if count == 0 {
            walk.stage = WalkStage::Containment;
            (walk, WalkAction::CheckContainment)
        } else {
            (walk, WalkAction::Inspect(1))
        }
    }

    fn fail(&mut self, error: VaultError) -> (action: WalkAction)
        requires
            old(self).inv(),
        ensures
            final(self).inv(),
            final(self).stage_spec() == WalkStage::Finished,
            action == WalkAction::Fail(error),
            final(self).relative_spec() == old(self).relative_spec(),
            final(self).root_spec() == old(self).root_spec(),
            final(self).mode_spec() == old(self).mode_spec(),
            final(self).count_spec() == old(self).count_spec(),
            final(self).walked_spec() == old(self).walked_spec(),
    {
        self.stage = WalkStage::Finished;
        WalkAction::Fail(error)
    }

    /// Takes the report of the current step and says what to do next. The
    /// walk is done only after every walked segment passed its checks and the
    /// walked path was found inside the root; a new entry's own path must not
    /// be a symlink.
    pub fn step(&mut self, event: WalkEvent) -> (action: WalkAction)
        requires
            old(self).inv(),
            walk_event_fits(old(self).stage_spec(), event),
        ensures
            final(self).inv(),
            action is Done ==> final(self).walked_spec() == final(self).count_spec() && final(self).contained(),
            action matches WalkAction::Inspect(k) ==> k == final(self).walked_spec() + 1 && k <= final(self).count_spec(),
            (event matches WalkEvent::Inspected { is_symlink: true, .. } && old(self).stage_spec() == WalkStage::Inspect)
                ==> action matches WalkAction::Fail(VaultError::SymlinkNotAllowed(_)),
            (event matches WalkEvent::Canonical(c) && !path_starts_with(c, old(self).root_spec()))
                ==> action matches WalkAction::Fail(VaultError::OutsideVault(_)),
            final(self).relative_spec() == old(self).relative_spec(),
            final(self).root_spec() == old(self).root_spec(),
            final(self).mode_spec() == old(self).mode_spec(),
            final(self).count_spec() == old(self).count_spec(),
            walk_step_spec(*old(self), event, *final(self), action),
    {
        match self.stage {
            WalkStage::Inspect => {
                let is_last = self.walked + 1 == split_len(&self.relative);
                match event {
                    WalkEvent::Inspected { is_symlink, is_directory } => {
                        let display = walked_display(&self.relative, self.walked + 1);
                        match check_walked_segment(&display, is_symlink, is_directory, is_last) {
                            Err(error) => self.fail(error),
                            Ok(()) => {
                                self.walked = self.walked + 1;
                                if self.walked == self.count {
                                    self.stage = WalkStage::Containment;
                                    WalkAction::CheckContainment
                                } else {
                                    WalkAction::Inspect(self.walked + 1)
                                }
                            },
                        }
                    },
                    WalkEvent::Missing => {
                        let error = match self.mode {
                            WalkMode::Existing => VaultError::TargetNotFound(
                                self.relative.as_str().to_owned(),
                            ),
                            WalkMode::ParentForCreate => VaultError::ParentNotFound(
                                walked_display(&self.relative, self.walked + 1),
                            ),
                        };
                        self.fail(error)
                    },
                    WalkEvent::Failed(path, source) => self.fail(VaultError::Io { path, source }),
                    WalkEvent::Canonical(_) => {
                        assert(false);
                        self.fail(VaultError::TargetNotFound(self.relative.as_str().to_owned()))
                    },
                }
            },
            WalkStage::Containment => match event {
                WalkEvent::Canonical(canonical) => {
                    if !starts_with_path(&canonical, &self.root) {
                        self.fail(VaultError::OutsideVault(canonical))
                    } else {
                        self.contained = Ghost(true);
                        match self.mode {
                            WalkMode::Existing => {
                                self.stage = WalkStage::Finished;
                                WalkAction::Done
                            },
                            WalkMode::ParentForCreate => {
                                self.stage = WalkStage::Target;
                                WalkAction::InspectTarget
                            },
                        }
                    }
                },
                WalkEvent::Failed(path, source) => self.fail(VaultError::Io { path, source }),
                _ => {
                    assert(false);
                    self.fail(VaultError::TargetNotFound(self.relative.as_str().to_owned()))
                },
            },
            WalkStage::Target => match event {
                WalkEvent::Inspected { is_symlink, .. } => {
                    if is_symlink {
                        self.fail(VaultError::SymlinkNotAllowed(self.relative.as_str().to_owned()))
                    } else {
                        self.stage = WalkStage::Finished;
                        WalkAction::Done
                    }
                },
                WalkEvent::Missing => {
                    self.stage = WalkStage::Finished;
                    WalkAction::Done
                },
                WalkEvent::Failed(path, source) => self.fail(VaultError::Io { path, source }),
                WalkEvent::Canonical(_) => {
                    assert(false);
                    self.fail(VaultError::TargetNotFound(self.relative.as_str().to_owned()))
                },
            },
            WalkStage::Finished => {
                assert(false);
                self.fail(VaultError::TargetNotFound(self.relative.as_str().to_owned()))
            },
        }
    }
}

fn split_len(path: &CanonicalPath) -> (n: usize)
    ensures
        n == split_seq(path@, '/').len(),
{
    path.segments().len()
}

} // verus!
