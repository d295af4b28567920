//! Standard-library types that the adapters hold as opaque values.

use std::path::PathBuf;
use std::sync::{Arc, Mutex};

use vstd::prelude::*;

verus! {

/// `std::path::PathBuf`, an owned filesystem path.
#[verifier::external_type_specification]
#[verifier::external_body]
pub struct ExPathBuf(PathBuf);

/// Cloning a `PathBuf` gives an equal path.
pub assume_specification[ <PathBuf as Clone>::clone ](p: &PathBuf) -> (r: PathBuf)
    ensures
        r == *p,
;

/// `std::io::Error`, kept as the source of filesystem errors.
#[verifier::external_type_specification]
#[verifier::external_body]
pub struct ExIoError(std::io::Error);

/// `std::sync::Mutex`, used only as a process-wide lock.
#[verifier::external_type_specification]
#[verifier::external_body]
#[verifier::reject_recursive_types(T)]
pub struct ExMutex<T: ?Sized>(Mutex<T>);

/// A fresh, unlocked process-wide lock (`Arc::new(Mutex::new(()))`).
#[verifier::external_body]
pub(crate) fn new_lock() -> Arc<Mutex<()>> {
    Arc::new(Mutex::new(()))
}

} // verus!
