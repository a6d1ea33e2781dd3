//! The run configuration, as the command line hands it over.

use vstd::prelude::*;

verus! {

/// Everything one extraction run is told: the archive, the target directory,
/// and the recognized options.
#[derive(Debug, Clone)]
pub struct Arguments {
    /// The package file to extract.
    pub unity_package: String,
    /// Target directory to extract to.
    pub root_directory: String,
    /// Extract only assets under this path prefix, with their output paths
    /// rewritten relative to it.
    pub prefix: Option<String>,
    /// Whether `.meta` sibling files are written.
    pub meta: bool,
    /// Dry-run mode: decode, group, resolve and account for slots, but never
    /// touch the disk.
    pub dry: bool,
    /// How many write tasks may be in flight at once (positive).
    pub max_concurrency: usize,
}

impl Arguments {
    /// The slot-pool capacity this configuration asks for: one slot per
    /// admitted write task, plus the one the decode loop itself holds.
    pub fn slot_capacity(&self) -> (r: usize)
        requires
            self.max_concurrency < usize::MAX,
        ensures
            r == self.max_concurrency + 1,
    {
        self.max_concurrency + 1
    }
}

} // verus!
