//! The cleanup guard: the record that couples a file's lifetime to the
//! lifetime of the handle owning it.  When a handle is released, its guard
//! deletes the backing file unless the guard was promoted to "keep", and on
//! a successful deletion the usage tally drops by the guard's committed
//! size.  A failed deletion is swallowed: release never propagates errors.

use crate::fs::{node_of, unique_paths, FsModel};
use crate::path::StoragePath;
use crate::tracker::{clamp_i64, UsageTracker};
use crate::FileKind;
use vstd::prelude::*;

verus! {

/// Per-handle ownership record: the guarded path, the keep flag (false to
/// true only, never back), and the committed size — the bytes known
/// resident for that path.
#[derive(Debug)]
pub struct DeleteOnDrop {
    pub path: StoragePath,
    pub keep: bool,
    pub size: u64,
}

/// Whether releasing guard `g` over tree `s` deletes its file: the guard
/// was not promoted to "keep", and the path resolves to something a plain
/// file deletion succeeds on (anything but a directory).
pub open spec fn release_deletes(g: DeleteOnDrop, s: Seq<crate::fs::FsEntry>) -> bool {
    !g.keep && match node_of(s, g.path@) {
        Some((k, _)) => k != FileKind::Directory,
        None => false,
    }
}

impl DeleteOnDrop {
    pub fn new(path: StoragePath, keep: bool, size: u64) -> (r: Self)
        ensures
            r.path@ == path@,
            r.keep == keep,
            r.size == size,
    {
        DeleteOnDrop { path, keep, size }
    }

    /// Promotes the guard to "keep": idempotent and monotonic.
    pub fn keep(&mut self)
        ensures
            final(self).keep == true,
            final(self).path@ == old(self).path@,
            final(self).size == old(self).size,
    {
        self.keep = true;
    }

    /// Rebinds the guard onto `path` (used once, after the atomic rename
    /// that finalizes a file), keeping its flag and size.
    pub fn with_path(self, path: StoragePath) -> (r: Self)
        ensures
            r.path@ == path@,
            r.keep == self.keep,
            r.size == self.size,
    {
        DeleteOnDrop { path, keep: self.keep, size: self.size }
    }

    /// Releases the guard: unless kept, attempts to delete the guarded path;
    /// on success the tally drops by the committed size; a failure (the path
    /// is gone, or is a directory) is swallowed.
    pub fn release(self, fs: &mut FsModel, tracker: &mut UsageTracker)
        requires
            unique_paths(old(fs).entries@),
        ensures
            unique_paths(final(fs).entries@),
            release_deletes(self, old(fs).entries@) ==> (node_of(final(fs).entries@, self.path@)
                is None && (forall|k2: Seq<Seq<u8>>|
                k2 != self.path@ ==> #[trigger] node_of(final(fs).entries@, k2) == node_of(
                    old(fs).entries@,
                    k2,
                )) && final(tracker).val == clamp_i64(old(tracker).val - self.size)),
            !release_deletes(self, old(fs).entries@) ==> (final(fs).entries@ == old(fs).entries@
                && final(tracker).val == old(tracker).val),
    {
        if !self.keep {
            match fs.get_kind(&self.path) {
                Some(k) => {
                    if !matches!(k, FileKind::Directory) {
                        fs.remove_node(&self.path);
                        tracker.decrement(self.size);
                    }
                },
                None => {},
            }
        }
    }
}

} // verus!
