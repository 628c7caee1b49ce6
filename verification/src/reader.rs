//! The reader: a shared, read-only view of a finalized (or pre-existing)
//! file.  Reads are positional and mutate nothing, so any number of
//! callers may read through the same handle; a short read is an error,
//! never silently accepted.

use crate::backend::PosixBackend;
use crate::fs::node_of;
use crate::guard::{release_deletes, DeleteOnDrop};
use crate::tracker::clamp_i64;
use crate::{BlockLocation, StorageError};
use vstd::prelude::*;

verus! {

/// A read-only handle on one file: its contents, its identity, and the
/// cleanup guard that decides the file's fate when the handle is released.
#[derive(Debug)]
pub struct PosixReader {
    pub bytes: Vec<u8>,
    pub file_id: u64,
    pub drop: DeleteOnDrop,
}

impl PosixReader {
    /// The guard's committed size is exactly the size of the contents.
    pub open spec fn wf(&self) -> bool {
        self.drop.size == self.bytes@.len()
    }

    pub(crate) fn new(bytes: Vec<u8>, file_id: u64, drop: DeleteOnDrop) -> (r: Self)
        requires
            drop.size == bytes@.len(),
        ensures
            r.wf(),
            r.bytes@ == bytes@,
            r.file_id == file_id,
            r.drop == drop,
    {
        PosixReader { bytes, file_id, drop }
    }

    pub fn file_id(&self) -> (r: u64)
        ensures
            r == self.file_id,
    {
        self.file_id
    }

    /// Reads exactly `location.size` bytes at byte offset `location.offset`.
    /// Succeeds if and only if the requested range lies inside the file;
    /// a request past the end is a short read, and an error.
    pub fn read_block(&self, location: BlockLocation) -> (r: Result<Vec<u8>, StorageError>)
        requires
            self.wf(),
        ensures
            location.offset + location.size <= self.bytes@.len() ==> (r matches Ok(b) && b@
                == self.bytes@.subrange(
                location.offset as int,
                location.offset + location.size,
            )),
            location.offset + location.size > self.bytes@.len() ==> (r matches Err(e) && e
                == StorageError::Other),
    {
        let len = self.bytes.len();
        if location.offset > len as u64 {
            return Err(StorageError::Other);
        }
        let off = location.offset as usize;
        if location.size > len - off {
            return Err(StorageError::Other);
        }
        let mut out: Vec<u8> = Vec::new();
        let mut j: usize = 0;
        while j < location.size
            invariant
                j <= location.size,
                off == location.offset,
                len == self.bytes@.len(),
                off + location.size <= len,
                out@ == self.bytes@.subrange(off as int, off + j),
            decreases location.size - j,
        {
            out.push(self.bytes[off + j]);
            assert(self.bytes@.subrange(off as int, off + j) + seq![
                self.bytes@[off + j]
            ] =~= self.bytes@.subrange(off as int, off + j + 1));
            j = j + 1;
        }
        Ok(out)
    }

    /// The committed size of the file behind this handle.
    pub fn get_size(&self) -> (r: Result<u64, StorageError>)
        ensures
            r matches Ok(s) && s == self.drop.size,
    {
        Ok(self.drop.size)
    }

    /// Promotes the guard to "keep": the file is now durable state, and
    /// releasing this handle will no longer delete it.
    pub fn mark_for_checkpoint(&mut self)
        ensures
            final(self).drop.keep == true,
            final(self).drop.path@ == old(self).drop.path@,
            final(self).drop.size == old(self).drop.size,
            final(self).bytes@ == old(self).bytes@,
            final(self).file_id == old(self).file_id,
    {
        self.drop.keep();
    }

    /// Releases the handle: unless the guard was promoted, the backing
    /// file is deleted and the usage tally drops by its committed size.
    pub fn release(self, be: &mut PosixBackend)
        requires
            old(be).wf(),
        ensures
            final(be).wf(),
            final(be).next_id == old(be).next_id,
            final(be).base@ == old(be).base@,
            release_deletes(self.drop, old(be).fs.entries@) ==> (node_of(
                final(be).fs.entries@,
                self.drop.path@,
            ) is None && (forall|k2: Seq<Seq<u8>>|
                k2 != self.drop.path@ ==> #[trigger] node_of(final(be).fs.entries@, k2) == node_of(
                    old(be).fs.entries@,
                    k2,
                )) && final(be).usage.val == clamp_i64(old(be).usage.val - self.drop.size)),
            !release_deletes(self.drop, old(be).fs.entries@) ==> (final(be).fs.entries@ == old(be).fs.entries@ && final(be).usage.val == old(be).usage.val),
    {
        self.drop.release(&mut be.fs, &mut be.usage);
    }
}

} // verus!
