//! The laws of the storage layer that relate several operations: the
//! write/read round trip, usage-accounting restoration and accumulation,
//! the flush-threshold guarantee, and the equivalence of recursive and
//! plain deletion on a plain file.

use crate::backend::delete_rel;
use crate::fs::{node_of, usage_after_subtree_removal, FsEntry};
use crate::path::is_under;
use crate::tracker::clamp_i64;
use crate::writer::{concat_blocks, write_block_rel, PosixWriter};
use crate::{BlockLocation, FileKind, StorageError, FLUSH_THRESHOLD};
use vstd::prelude::*;

verus! {

/// The byte offset at which block `i` starts inside the concatenation of
/// `blocks` — the offset a caller records when `write_block` accepts it.
pub open spec fn block_offset(blocks: Seq<Seq<u8>>, i: int) -> int {
    concat_blocks(blocks.subrange(0, i)).len() as int
}

/// Round-trip: for an ordered sequence of blocks — the stream a writer
/// finalizes into a file — the bytes at block `i`'s recorded offset are
/// byte-identical to block `i`.  With `read_block`'s contract, reading
/// `{block_offset(blocks, i), blocks[i].len()}` from the finalized file
/// returns exactly the block that was written.
pub proof fn lemma_block_round_trip(blocks: Seq<Seq<u8>>, i: int)
    requires
        0 <= i < blocks.len(),
    ensures
        block_offset(blocks, i) + blocks[i].len() <= concat_blocks(blocks).len(),
        concat_blocks(blocks).subrange(
            block_offset(blocks, i),
            block_offset(blocks, i) + blocks[i].len(),
        ) == blocks[i],
    decreases blocks.len(),
{
    let whole = concat_blocks(blocks);
    let off = block_offset(blocks, i);
    if i == blocks.len() - 1 {
        assert(blocks.subrange(0, i) =~= blocks.drop_last());
        assert(whole.subrange(off, off + blocks[i].len()) =~= blocks[i]);
    } else {
        let front = blocks.drop_last();
        lemma_block_round_trip(front, i);
        assert(front.subrange(0, i) =~= blocks.subrange(0, i));
        assert(whole.subrange(off, off + blocks[i].len()) =~= concat_blocks(front).subrange(
            block_offset(front, i),
            block_offset(front, i) + front[i].len(),
        ));
    }
}

/// The sum of a sequence of byte counts.
pub open spec fn sum_of(sizes: Seq<int>) -> int
    decreases sizes.len(),
{
    if sizes.len() == 0 {
        0
    } else {
        sum_of(sizes.drop_last()) + sizes.last()
    }
}

/// The usage tally after successive flushes of the given byte counts.
pub open spec fn tally_after_flushes(u0: int, sizes: Seq<int>) -> int
    decreases sizes.len(),
{
    if sizes.len() == 0 {
        u0
    } else {
        clamp_i64(tally_after_flushes(u0, sizes.drop_last()) + sizes.last())
    }
}

pub proof fn lemma_sum_nonneg(sizes: Seq<int>)
    requires
        forall|i: int| 0 <= i < sizes.len() ==> 0 <= sizes[i],
    ensures
        0 <= sum_of(sizes),
    decreases sizes.len(),
{
    if sizes.len() > 0 {
        lemma_sum_nonneg(sizes.drop_last());
    }
}

/// Usage accounting, accumulation: writing and flushing files totaling
/// `sum_of(sizes)` bytes moves the tally from `u0` to exactly
/// `u0 + sum_of(sizes)`, whenever that total stays inside the counter's
/// range (outside it the advisory counter saturates).
pub proof fn lemma_usage_accumulates(u0: int, sizes: Seq<int>)
    requires
        forall|i: int| 0 <= i < sizes.len() ==> 0 <= sizes[i],
        i64::MIN <= u0,
        u0 + sum_of(sizes) <= i64::MAX as int,
    ensures
        tally_after_flushes(u0, sizes) == u0 + sum_of(sizes),
    decreases sizes.len(),
{
    if sizes.len() > 0 {
        let front = sizes.drop_last();
        lemma_sum_nonneg(front);
        assert(0 <= sizes.last());
        lemma_usage_accumulates(u0, front);
    }
}

/// Usage accounting, restoration: after a flush added `b` bytes to the
/// tally, releasing the unkept handle (which deletes the file and removes
/// its committed `b` bytes) returns the tally to its pre-write value.
pub proof fn lemma_usage_restored(u0: int, b: int)
    requires
        0 <= b,
        i64::MIN <= u0,
        u0 + b <= i64::MAX as int,
    ensures
        clamp_i64(clamp_i64(u0 + b) - b) == u0,
{
}

/// Threshold behavior: a block accepted while the queue already holds at
/// least the flush threshold forces a flush during that very call — the
/// queued bytes move into the file, the committed size catches up, and
/// the usage tally rises by the queued byte count — strictly before any
/// later `complete`.
pub proof fn lemma_threshold_forces_flush(
    pre: PosixWriter,
    post: PosixWriter,
    u_pre: int,
    u_post: int,
    data: Seq<u8>,
)
    requires
        pre.wf(),
        write_block_rel(pre, post, u_pre, u_post, data),
        pre.len >= FLUSH_THRESHOLD,
    ensures
        post.file@ == pre.stream(),
        post.drop.size == pre.stream().len(),
        post.pending() == seq![data],
        u_post == clamp_i64(u_pre + pre.len),
{
    assert(pre.stream().len() == pre.file@.len() + concat_blocks(pre.pending()).len());
}

/// What two positional reads of one file return: each is the exact bytes
/// of its own range, and wherever the ranges overlap the two results hold
/// the same byte.  `read_block` borrows its reader immutably and its
/// result is a function of the contents and the location alone, so reads
/// interfere with nothing: this is the sequential content of the
/// concurrent-reads guarantee (the scheduling half lives outside the
/// model).
pub proof fn lemma_overlapping_reads_agree(bytes: Seq<u8>, a: BlockLocation, b: BlockLocation, i: int)
    requires
        a.offset + a.size <= bytes.len(),
        b.offset + b.size <= bytes.len(),
        a.offset <= i < a.offset + a.size,
        b.offset <= i < b.offset + b.size,
    ensures
        bytes.subrange(a.offset as int, a.offset + a.size)[i - a.offset] == bytes[i],
        bytes.subrange(b.offset as int, b.offset + b.size)[i - b.offset] == bytes[i],
{
}

/// The bytes of the regular files at or below `pref`: what a subtree
/// removal takes out of the usage tally.
pub open spec fn subtree_bytes(s: Seq<FsEntry>, pref: Seq<Seq<u8>>) -> int
    decreases s.len(),
{
    if s.len() == 0 {
        0
    } else {
        subtree_bytes(s.drop_last(), pref) + (
        if is_under(s.last().path@, pref) && s.last().kind == FileKind::Regular {
            s.last().bytes@.len() as int
        } else {
            0
        })
    }
}

pub proof fn lemma_subtree_bytes_nonneg(s: Seq<FsEntry>, pref: Seq<Seq<u8>>)
    ensures
        0 <= subtree_bytes(s, pref),
    decreases s.len(),
{
    if s.len() > 0 {
        lemma_subtree_bytes_nonneg(s.drop_last(), pref);
    }
}

/// Interpretation of the subtree-removal fold: as long as the tally stays
/// inside the counter's range, deleting a subtree subtracts exactly the
/// bytes of the regular files it held.
pub proof fn lemma_subtree_removal_exact(s: Seq<FsEntry>, pref: Seq<Seq<u8>>, u: int)
    requires
        i64::MIN as int <= u - subtree_bytes(s, pref),
        u <= i64::MAX as int,
    ensures
        usage_after_subtree_removal(s, pref, u) == u - subtree_bytes(s, pref),
    decreases s.len(),
{
    if s.len() > 0 {
        let front = s.drop_last();
        lemma_subtree_bytes_nonneg(front, pref);
        lemma_subtree_bytes_nonneg(s, pref);
        lemma_subtree_removal_exact(front, pref, u);
    }
}

/// File/directory equivalence: on a path bound to a regular file, a
/// recursive delete and a plain delete agree — same resulting tree, same
/// tally, and both succeed.  (`delete_recursive` on such a path ensures
/// the same `delete_rel` that `delete` ensures; this lemma states that the
/// relation pins every observation.)
pub proof fn lemma_delete_recursive_file_matches_delete(
    pre_fs: Seq<FsEntry>,
    post1: Seq<FsEntry>,
    post2: Seq<FsEntry>,
    u_pre: int,
    u1: int,
    u2: int,
    name: Seq<Seq<u8>>,
    r1: Result<(), StorageError>,
    r2: Result<(), StorageError>,
)
    requires
        node_of(pre_fs, name) matches Some((k, _)) && k == FileKind::Regular,
        delete_rel(pre_fs, post1, u_pre, u1, name, r1),
        delete_rel(pre_fs, post2, u_pre, u2, name, r2),
    ensures
        u1 == u2,
        r1 is Ok && r2 is Ok,
        forall|k2: Seq<Seq<u8>>| #[trigger] node_of(post1, k2) == node_of(post2, k2),
{
    assert forall|k2: Seq<Seq<u8>>| #[trigger] node_of(post1, k2) == node_of(post2, k2) by {
        if k2 != name {
            assert(node_of(post1, k2) == node_of(pre_fs, k2));
            assert(node_of(post2, k2) == node_of(pre_fs, k2));
        }
    }
}

} // verus!
