//! In-place overwriting of file contents ("shredding").
//!
//! The library decides everything that a shred consists of: which passes run
//! and in what order, what each block of a pass holds and how the write cursor
//! moves, and how a path is treated (refused, shredded as a file, or expanded
//! as a directory and removed afterwards). The file system itself is driven by
//! the caller, which reports back what each write achieved.
pub mod options;
pub mod plan;
pub mod generator;
pub mod writer;
pub mod walker;
pub mod traversal;

pub use options::{ShredError, ShredOptions};
pub use plan::PassKind;
pub use generator::{DataGenerator, BLOCK_SIZE};
pub use writer::{FileShred, OverwritePass};
pub use walker::{Shredder, TargetKind, Visit};
pub use traversal::{TreeWalk, WalkStep};
