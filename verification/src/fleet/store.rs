//! Where the fleet state is persisted between runs.
use std::path::PathBuf;

use vstd::prelude::*;

verus! {

/// `std::path::PathBuf`, a file path, held opaquely: the library carries
/// it through without reading it.
#[verifier::external_type_specification]
#[verifier::external_body]
pub struct ExPathBuf(PathBuf);

/// The file that holds the persisted fleet state.
pub struct FleetStore {
    path: PathBuf,
}

impl FleetStore {
    pub closed spec fn spec_path(&self) -> PathBuf {
        self.path
    }

    /// A store at the given file.
    pub fn new(path: PathBuf) -> (r: FleetStore)
        ensures
            r.spec_path() == path,
    {
        FleetStore { path }
    }

    /// The file of the store.
    pub fn path(&self) -> (r: &PathBuf)
        ensures
            *r == self.spec_path(),
    {
        &self.path
    }
}

} // verus!
