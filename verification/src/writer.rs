//! The writer: the exclusive, append-only producer for one file being
//! created.  Blocks accumulate in a pending queue and are flushed in
//! batches — before accepting a block, the writer flushes if the queued
//! bytes have reached the flush threshold or the queued block count has
//! reached the vectored-write limit.  `complete` flushes the remainder and
//! atomically renames the provisional file to its final name, yielding a
//! reader over the finalized contents.

use crate::backend::PosixBackend;
use crate::fs::node_of;
use crate::guard::DeleteOnDrop;
use crate::path::{provisional_of, lemma_provisional_differs, StoragePath};
use crate::reader::PosixReader;
use crate::tracker::clamp_i64;
use crate::util::{copy_bytes, lemma_views_of_push, views_of};
use crate::{FileKind, StorageError, FLUSH_THRESHOLD, MAX_PENDING_BLOCKS};
use vstd::prelude::*;

verus! {

/// The concatenation of a sequence of blocks, in order.
pub open spec fn concat_blocks(s: Seq<Seq<u8>>) -> Seq<u8>
    decreases s.len(),
{
    if s.len() == 0 {
        Seq::empty()
    } else {
        concat_blocks(s.drop_last()) + s.last()
    }
}

pub proof fn lemma_concat_blocks_push(s: Seq<Seq<u8>>, b: Seq<u8>)
    ensures
        concat_blocks(s.push(b)) == concat_blocks(s) + b,
{
    assert(s.push(b).drop_last() =~= s);
}

/// State kept per file being written: the bytes already handed to the
/// operating system (`file`), the pending blocks not yet flushed
/// (`buffers`), their byte count (`len`), and the cleanup guard bound to
/// the provisional path.
#[derive(Debug)]
pub struct PosixWriter {
    pub file_id: u64,
    pub file: Vec<u8>,
    pub drop: DeleteOnDrop,
    pub name: StoragePath,
    pub buffers: Vec<Vec<u8>>,
    pub len: u128,
}

impl PosixWriter {
    /// The pending blocks, as byte sequences.
    pub open spec fn pending(&self) -> Seq<Seq<u8>> {
        views_of(self.buffers@)
    }

    /// Every byte this writer has accepted, in order: flushed bytes
    /// followed by the pending queue.
    pub open spec fn stream(&self) -> Seq<u8> {
        self.file@ + concat_blocks(self.pending())
    }

    /// Well-formedness: the committed size tracks the flushed bytes, the
    /// pending byte count equals the sum of the queued block lengths, the
    /// guard has not been promoted, and it guards the provisional name.
    pub open spec fn wf(&self) -> bool {
        &&& self.drop.size == self.file@.len()
        &&& self.len == concat_blocks(self.pending()).len()
        &&& self.drop.keep == false
        &&& self.name@.len() > 0
        &&& self.drop.path@ == provisional_of(self.name@)
    }

    pub(crate) fn new(name: StoragePath, path: StoragePath, file_id: u64) -> (r: Self)
        requires
            name@.len() > 0,
            path@ == provisional_of(name@),
        ensures
            r.wf(),
            r.name@ == name@,
            r.file_id == file_id,
            r.stream() == Seq::<u8>::empty(),
            r.file@ == Seq::<u8>::empty(),
            r.pending() == Seq::<Seq<u8>>::empty(),
            r.drop.size == 0,
            r.drop.path@ == path@,
            r.drop.keep == false,
    {
        let r = PosixWriter {
            file_id,
            file: Vec::new(),
            drop: DeleteOnDrop::new(path, false, 0),
            name,
            buffers: Vec::new(),
            len: 0,
        };
        proof {
            assert(r.pending() =~= Seq::<Seq<u8>>::empty());
            assert(r.stream() =~= Seq::<u8>::empty());
        }
        r
    }

    pub fn file_id(&self) -> (r: u64)
        ensures
            r == self.file_id,
    {
        self.file_id
    }

    /// Issues one batched write covering all pending blocks: the flushed
    /// bytes grow by the whole pending queue, the committed size and the
    /// usage tally grow with them, and the queue empties.
    pub fn flush(&mut self, be: &mut PosixBackend)
        requires
            old(self).wf(),
        ensures
            final(self).wf(),
            final(self).name@ == old(self).name@,
            final(self).file_id == old(self).file_id,
            final(self).drop.path@ == old(self).drop.path@,
            final(self).drop.keep == false,
            final(self).file@ == old(self).stream(),
            final(self).pending() == Seq::<Seq<u8>>::empty(),
            final(self).len == 0,
            final(self).drop.size == old(self).stream().len(),
            final(be).fs.entries@ == old(be).fs.entries@,
            final(be).next_id == old(be).next_id,
            final(be).base@ == old(be).base@,
            final(be).usage.val == clamp_i64(
                old(be).usage.val + (old(self).stream().len() - old(self).file@.len()),
            ),
    {
        let ghost pre = *old(self);
        let old_len = self.file.len();
        let n = self.buffers.len();
        let mut i: usize = 0;
        while i < n
            invariant
                i <= n,
                n == self.buffers@.len(),
                self.buffers@ == pre.buffers@,
                self.drop == pre.drop,
                self.name == pre.name,
                self.file_id == pre.file_id,
                self.len == pre.len,
                old_len == pre.file@.len(),
                self.file@ == pre.file@ + concat_blocks(views_of(pre.buffers@).subrange(0, i as int)),
            decreases n - i,
        {
            proof {
                let vs = views_of(pre.buffers@);
                assert(vs.subrange(0, i + 1) =~= vs.subrange(0, i as int).push(vs[i as int]));
                lemma_concat_blocks_push(vs.subrange(0, i as int), vs[i as int]);
                assert(vs[i as int] == pre.buffers@[i as int]@);
            }
            crate::util::copy_bytes_into(&mut self.file, &self.buffers[i]);
            proof {
                let vs = views_of(pre.buffers@);
                assert(pre.file@ + concat_blocks(vs.subrange(0, i as int)) + pre.buffers@[i as int]@
                    =~= pre.file@ + concat_blocks(vs.subrange(0, i + 1)));
            }
            i = i + 1;
        }
        proof {
            assert(views_of(pre.buffers@).subrange(0, n as int) =~= views_of(pre.buffers@));
        }
        self.buffers.clear();
        self.len = 0;
        let new_len = self.file.len();
        self.drop.size = new_len as u64;
        be.usage.increment((new_len - old_len) as u64);
        proof {
            assert(self.pending() =~= Seq::<Seq<u8>>::empty());
            assert(self.stream() =~= self.file@);
        }
    }

    /// Accepts one block: if the queued bytes have reached the flush
    /// threshold or the queued block count has reached the vectored-write
    /// limit, a flush runs first; the block then joins the pending queue,
    /// and a copy of the exact bytes written is handed back to the caller.
    pub fn write_block(&mut self, be: &mut PosixBackend, data: Vec<u8>) -> (r: Result<
        Vec<u8>,
        StorageError,
    >)
        requires
            old(self).wf(),
        ensures
            final(self).wf(),
            r matches Ok(b) && b@ == data@,
            write_block_rel(
                *old(self),
                *final(self),
                old(be).usage.val as int,
                final(be).usage.val as int,
                data@,
            ),
            final(be).fs.entries@ == old(be).fs.entries@,
            final(be).next_id == old(be).next_id,
            final(be).base@ == old(be).base@,
    {
        if self.len >= FLUSH_THRESHOLD as u128 || self.buffers.len() >= MAX_PENDING_BLOCKS {
            self.flush(be);
        }
        let r = copy_bytes(&data);
        let dl = data.len();
        proof {
            lemma_views_of_push(self.buffers@, data);
            lemma_concat_blocks_push(self.pending(), data@);
            assert(self.file@ + (concat_blocks(self.pending()) + data@) =~= self.file@
                + concat_blocks(self.pending()) + data@);
        }
        let ghost d = data@;
        self.len = self.len + dl as u128;
        self.buffers.push(data);
        proof {
            if old(self).len >= FLUSH_THRESHOLD || old(self).buffers@.len() >= MAX_PENDING_BLOCKS {
                assert(self.pending() =~= seq![d]);
                assert(seq![d].drop_last() =~= Seq::<Seq<u8>>::empty());
                assert(concat_blocks(seq![d]) == concat_blocks(Seq::<Seq<u8>>::empty()) + d);
                assert(Seq::<u8>::empty() + d =~= d);
                assert(self.stream() =~= old(self).stream() + d);
            }
        }
        Ok(r)
    }

    /// Finalizes the file: flushes the remainder, forces it durable, and
    /// atomically renames the provisional path to the final logical name.
    /// On success the finalized file holds exactly the written stream and a
    /// reader over it is returned together with the logical name; the
    /// reader's guard still has `keep == false`.  The rename fails with
    /// `NotFound` if the provisional file is gone; the flushed bytes then
    /// remain counted, as they were written before the failure.
    pub fn complete(self, be: &mut PosixBackend) -> (r: Result<
        (PosixReader, StoragePath),
        StorageError,
    >)
        requires
            self.wf(),
            old(be).wf(),
        ensures
            final(be).wf(),
            final(be).next_id == old(be).next_id,
            final(be).base@ == old(be).base@,
            final(be).usage.val == clamp_i64(
                old(be).usage.val + (self.stream().len() - self.file@.len()),
            ),
            node_of(old(be).fs.entries@, provisional_of(self.name@)) is Some ==> (r matches Ok(rn)
                && rn.1@ == self.name@ && rn.0.wf() && rn.0.bytes@ == self.stream()
                && rn.0.drop.keep == false && rn.0.drop.path@ == self.name@ && rn.0.drop.size
                == self.stream().len() && rn.0.file_id == self.file_id && node_of(
                final(be).fs.entries@,
                self.name@,
            ) == Some((FileKind::Regular, self.stream())) && node_of(
                final(be).fs.entries@,
                provisional_of(self.name@),
            ) is None && (forall|k2: Seq<Seq<u8>>|
                k2 != self.name@ && k2 != provisional_of(self.name@) ==> #[trigger] node_of(
                    final(be).fs.entries@,
                    k2,
                ) == node_of(old(be).fs.entries@, k2))),
            node_of(old(be).fs.entries@, provisional_of(self.name@)) is None ==> (r matches Err(e)
                && e == StorageError::NotFound && final(be).fs.entries@ == old(be).fs.entries@),
    {
        let mut w = self;
        w.flush(be);
        proof {
            lemma_provisional_differs(w.name@);
        }
        match be.fs.get_kind(&w.drop.path) {
            None => Err(StorageError::NotFound),
            Some(_) => {
                let ghost mid_fs = be.fs.entries@;
                be.fs.remove_node(&w.drop.path);
                let ghost removed_fs = be.fs.entries@;
                let final_path = w.name.duplicate();
                let content = w.file;
                let reader_bytes = copy_bytes(&content);
                be.fs.set_node(&final_path, FileKind::Regular, content);
                proof {
                    assert forall|k2: Seq<Seq<u8>>|
                        k2 != self.name@ && k2 != provisional_of(self.name@) implies #[trigger] node_of(
                        be.fs.entries@,
                        k2,
                    ) == node_of(mid_fs, k2) by {
                        assert(node_of(be.fs.entries@, k2) == node_of(removed_fs, k2));
                        assert(node_of(removed_fs, k2) == node_of(mid_fs, k2));
                    }
                    assert(node_of(be.fs.entries@, provisional_of(self.name@)) is None);
                }
                let guard = w.drop.with_path(final_path);
                let reader = PosixReader::new(reader_bytes, w.file_id, guard);
                Ok((reader, w.name))
            },
        }
    }

    /// Abandons the writer without finalizing: the guard is released, so
    /// the provisional file is deleted (if still present) and the tally
    /// drops by the committed size.  This is the "cancel" path: a writer
    /// never promoted to a finalized file leaves nothing behind.
    pub fn abandon(self, be: &mut PosixBackend)
        requires
            self.wf(),
            old(be).wf(),
        ensures
            final(be).wf(),
            final(be).next_id == old(be).next_id,
            final(be).base@ == old(be).base@,
            crate::guard::release_deletes(self.drop, old(be).fs.entries@) ==> (node_of(
                final(be).fs.entries@,
                self.drop.path@,
            ) is None && (forall|k2: Seq<Seq<u8>>|
                k2 != self.drop.path@ ==> #[trigger] node_of(final(be).fs.entries@, k2) == node_of(
                    old(be).fs.entries@,
                    k2,
                )) && final(be).usage.val == clamp_i64(old(be).usage.val - self.drop.size)),
            !crate::guard::release_deletes(self.drop, old(be).fs.entries@) ==> (final(be).fs.entries@
                == old(be).fs.entries@ && final(be).usage.val == old(be).usage.val),
    {
        self.drop.release(&mut be.fs, &mut be.usage);
    }
}

/// Spec of one `write_block` step, relating the writer and usage tally
/// before and after: the accepted stream grows by exactly the block, and
/// either a threshold flush ran first (queue emptied into the file, tally
/// incremented) or the block simply joined the queue.
pub open spec fn write_block_rel(
    pre: PosixWriter,
    post: PosixWriter,
    u_pre: int,
    u_post: int,
    data: Seq<u8>,
) -> bool {
    &&& post.name@ == pre.name@
    &&& post.file_id == pre.file_id
    &&& post.drop.path@ == pre.drop.path@
    &&& post.drop.keep == pre.drop.keep
    &&& post.stream() == pre.stream() + data
    &&& if pre.len >= FLUSH_THRESHOLD || pre.buffers@.len() >= MAX_PENDING_BLOCKS {
        &&& post.file@ == pre.stream()
        &&& post.pending() == seq![data]
        &&& post.drop.size == pre.stream().len()
        &&& u_post == clamp_i64(u_pre + (pre.stream().len() - pre.file@.len()))
    } else {
        &&& post.file@ == pre.file@
        &&& post.pending() == pre.pending().push(data)
        &&& post.drop.size == pre.drop.size
        &&& u_post == u_pre
    }
}

} // verus!
