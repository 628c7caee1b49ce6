//! Filesystem-backed storage core: the file-lifecycle and write-batching
//! layer of a storage backend, verified over an explicit model of the
//! directory tree it manages.
//!
//! The library captures the rules of the backend — the atomic
//! create-then-finalize protocol for new files, checkpoint-gated cleanup of
//! unfinalized files, vectored write buffering with flush thresholds,
//! positional reads, byte-usage accounting, and the race-tolerant directory
//! operations — as verified state transitions over [`fs::FsModel`], an
//! in-memory picture of the managed directory tree.  A thin unverified shell
//! can mirror each transition onto a real filesystem with POSIX calls.

use vstd::prelude::*;

pub mod backend;
pub mod fs;
pub mod guard;
pub mod laws;
pub mod path;
pub mod reader;
pub mod tracker;
pub mod util;
pub mod writer;

verus! {

/// Flush is forced once this many bytes are queued in a writer.
pub const FLUSH_THRESHOLD: u64 = 1024 * 1024;

/// Flush is forced once this many blocks are queued in a writer, matching
/// the bound on buffers a single vectored write call accepts.
pub const MAX_PENDING_BLOCKS: usize = 1024;

/// The error taxonomy of the storage layer: a missing path, a path of the
/// wrong shape for the attempted operation, and a catch-all for every other
/// I/O failure.
#[derive(Clone, Copy, Debug, PartialEq, Eq, Structural)]
pub enum StorageError {
    /// The path does not exist.
    NotFound,
    /// The path exists but is not a directory where one was needed, or not a
    /// plain file where one was needed.
    NotADirectory,
    /// Any other I/O failure (permissions, device errors, short writes, ...).
    Other,
}

/// What kind of node a path resolves to in the managed tree.
#[derive(Clone, Copy, Debug, PartialEq, Eq, Structural)]
pub enum FileKind {
    /// A regular file with contents.
    Regular,
    /// A directory.
    Directory,
    /// A symbolic link (its target is not modeled).
    Symlink,
    /// Anything else (sockets, devices, ...).
    Special,
}

/// Classification of a directory entry as reported by `list`.
#[derive(Clone, Copy, Debug, PartialEq, Eq, Structural)]
pub enum StorageFileType {
    /// A regular file and its size in bytes.
    File { size: u64 },
    /// A directory.
    Directory,
    /// Anything else.
    Other,
}

/// A positional read request: `size` bytes starting at byte `offset`.
#[derive(Clone, Copy, Debug, PartialEq, Eq, Structural)]
pub struct BlockLocation {
    pub offset: u64,
    pub size: usize,
}

} // verus!
