use vstd::prelude::*;

verus! {

/// What one invocation of the shredder is allowed and asked to do.
#[derive(Clone, Copy, Debug)]
pub struct ShredOptions {
    /// Emit progress messages.
    pub verbose: bool,
    /// Remove each file and directory once its contents are destroyed.
    pub deallocate: bool,
    /// Descend into directories.
    pub recursive: bool,
    /// Number of passes that write zeros; they run last.
    pub zero_passes: u8,
    /// Number of passes that write random bytes; they run first.
    pub rand_passes: u8,
}

impl Default for ShredOptions {
    /// Quiet, no removal, no recursion, two random passes and one zero pass.
    /// The library's default is quiet in every build; a program that wants
    /// progress messages in debug builds sets `verbose` itself.
    fn default() -> (r: Self)
        ensures
            !r.verbose,
            !r.deallocate,
            !r.recursive,
            r.zero_passes == 1,
            r.rand_passes == 2,
    {
        ShredOptions { verbose: false, deallocate: false, recursive: false, zero_passes: 1, rand_passes: 2 }
    }
}

/// Why a shred failed.
#[derive(Clone, Copy, Debug, PartialEq, Eq, Structural)]
pub enum ShredError {
    /// The target is a directory and recursion is not enabled.
    DirectoryWithoutRecursive,
    /// The target does not exist.
    PathDoesntExist,
    /// Opening, writing, flushing or drawing random bytes failed, or a write
    /// reported a byte count that cannot be right.
    IoFailure,
}

} // verus!
