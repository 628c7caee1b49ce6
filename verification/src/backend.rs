//! The backend: the entry point that creates and opens files, lists
//! directories, deletes files or whole subtrees, and owns the shared usage
//! tally.  Every operation is a verified transition of the directory-tree
//! model; a thin unverified shell can mirror each transition with the
//! corresponding POSIX call.

use crate::fs::{
    children_of, node_of, unique_paths, usage_after_subtree_removal, FsEntry, FsModel,
};
use crate::guard::DeleteOnDrop;
use crate::path::{is_proper_prefix_of, is_under, provisional, provisional_of, StoragePath};
use crate::reader::PosixReader;
use crate::tracker::{clamp_i64, UsageTracker};
use crate::writer::PosixWriter;
use crate::{FileKind, StorageError, StorageFileType};
use vstd::prelude::*;

verus! {

/// Whether position `j` on the way to `name` is free or already a
/// directory — the condition under which directory creation can succeed
/// there.
pub open spec fn ancestor_ok_at(s: Seq<FsEntry>, name: Seq<Seq<u8>>, j: int) -> bool {
    match node_of(s, name.subrange(0, j)) {
        None => true,
        Some((k, _)) => k == FileKind::Directory,
    }
}

/// Every proper ancestor position of `name` is free or a directory.
pub open spec fn ancestors_ok(s: Seq<FsEntry>, name: Seq<Seq<u8>>) -> bool {
    forall|j: int| 1 <= j < name.len() ==> #[trigger] ancestor_ok_at(s, name, j)
}

/// The creation target itself is free or an existing regular file (which
/// create-with-truncate empties).
pub open spec fn target_ok(s: Seq<FsEntry>, prov: Seq<Seq<u8>>) -> bool {
    match node_of(s, prov) {
        None => true,
        Some((k, _)) => k == FileKind::Regular,
    }
}

/// Spec of deleting the single node `name`: an absent path is `NotFound`,
/// a directory cannot be deleted this way, anything else is removed — and
/// the usage tally drops by the size of a regular file, and only of one.
pub open spec fn delete_rel(
    pre_fs: Seq<FsEntry>,
    post_fs: Seq<FsEntry>,
    u_pre: int,
    u_post: int,
    name: Seq<Seq<u8>>,
    r: Result<(), StorageError>,
) -> bool {
    match node_of(pre_fs, name) {
        None => r matches Err(e) && e == StorageError::NotFound && post_fs == pre_fs && u_post
            == u_pre,
        Some((k, b)) => if k == FileKind::Directory {
            r matches Err(e) && e == StorageError::Other && post_fs == pre_fs && u_post == u_pre
        } else {
            r is Ok && node_of(post_fs, name) is None && (forall|k2: Seq<Seq<u8>>|
                k2 != name ==> #[trigger] node_of(post_fs, k2) == node_of(pre_fs, k2)) && u_post
                == (if k == FileKind::Regular {
                clamp_i64(u_pre - b.len())
            } else {
                u_pre
            })
        },
    }
}

/// State of the backend: the base directory it resolves names under, the
/// picture of the tree it manages, the shared usage tally, and the next
/// file identity to mint.
#[derive(Debug)]
pub struct PosixBackend {
    pub base: StoragePath,
    pub fs: FsModel,
    pub usage: UsageTracker,
    pub next_id: u64,
}

impl PosixBackend {
    pub open spec fn wf(&self) -> bool {
        unique_paths(self.fs.entries@)
    }

    /// Instantiates a new backend over an empty managed tree, rooted at
    /// `base`.
    pub fn new(base: StoragePath) -> (r: Self)
        ensures
            r.wf(),
            r.base@ == base@,
            r.fs.entries@.len() == 0,
            r.usage.val == 0,
            r.next_id == 0,
    {
        PosixBackend { base, fs: FsModel::new(), usage: UsageTracker::new(), next_id: 0 }
    }

    /// The directory in which the backend keeps its files.
    pub fn path(&self) -> (r: &StoragePath)
        ensures
            r@ == self.base@,
    {
        &self.base
    }

    /// The current value of the usage tally.
    pub fn usage(&self) -> (r: i64)
        ensures
            r == self.usage.val,
    {
        self.usage.read()
    }

    fn mint_id(&mut self) -> (r: u64)
        ensures
            r == old(self).next_id,
            final(self).next_id == (if old(self).next_id < u64::MAX {
                old(self).next_id + 1
            } else {
                old(self).next_id as int
            }),
            final(self).fs.entries@ == old(self).fs.entries@,
            final(self).usage.val == old(self).usage.val,
            final(self).base@ == old(self).base@,
    {
        let id = self.next_id;
        if self.next_id < u64::MAX {
            self.next_id = self.next_id + 1;
        }
        id
    }

    /// Creates the file `name` for writing, under its provisional name.
    /// Missing ancestor directories are created (the self-healing
    /// mkdir-and-retry of the create path); an ancestor that exists but is
    /// not a directory fails with `NotADirectory`, and a target that is not
    /// free or a plain file fails with `Other`.  On success the provisional
    /// file exists and is empty, and the returned writer is bound to it
    /// with a fresh file identity.
    pub fn create_named(&mut self, name: &StoragePath) -> (r: Result<PosixWriter, StorageError>)
        requires
            old(self).wf(),
            name@.len() > 0,
        ensures
            final(self).wf(),
            final(self).base@ == old(self).base@,
            final(self).usage.val == old(self).usage.val,
            r is Ok <==> (ancestors_ok(old(self).fs.entries@, name@) && target_ok(
                old(self).fs.entries@,
                provisional_of(name@),
            )),
            !ancestors_ok(old(self).fs.entries@, name@) ==> (r matches Err(e) && e
                == StorageError::NotADirectory),
            (ancestors_ok(old(self).fs.entries@, name@) && !target_ok(
                old(self).fs.entries@,
                provisional_of(name@),
            )) ==> (r matches Err(e) && e == StorageError::Other),
            r matches Ok(w) ==> (w.wf() && w.name@ == name@ && w.file_id == old(self).next_id
                && w.stream() == Seq::<u8>::empty() && w.drop.size == 0 && node_of(
                final(self).fs.entries@,
                provisional_of(name@),
            ) == Some((FileKind::Regular, Seq::<u8>::empty())) && (forall|jj: int|
                1 <= jj < name@.len() && node_of(old(self).fs.entries@, name@.subrange(0, jj))
                    is None ==> #[trigger] node_of(final(self).fs.entries@, name@.subrange(0, jj))
                    == Some((FileKind::Directory, Seq::<u8>::empty()))) && (forall|
                k2: Seq<Seq<u8>>,
            |
                (!(is_proper_prefix_of(k2, name@) && node_of(old(self).fs.entries@, k2) is None)
                    && k2 != provisional_of(name@)) ==> #[trigger] node_of(
                    final(self).fs.entries@,
                    k2,
                ) == node_of(old(self).fs.entries@, k2))),
            r is Ok ==> final(self).next_id == (if old(self).next_id < u64::MAX {
                old(self).next_id + 1
            } else {
                old(self).next_id as int
            }),
            r is Err ==> final(self).next_id == old(self).next_id,
            r is Err ==> (forall|k2: Seq<Seq<u8>>|
                #[trigger] node_of(final(self).fs.entries@, k2) == node_of(
                    old(self).fs.entries@,
                    k2,
                ) || (is_proper_prefix_of(k2, name@) && node_of(old(self).fs.entries@, k2) is None
                    && node_of(final(self).fs.entries@, k2) == Some(
                    (FileKind::Directory, Seq::<u8>::empty()),
                ))),
    {
        let ghost s0 = self.fs.entries@;
        let n = name.len();
        let mut j: usize = 1;
        while j < n
            invariant
                1 <= j <= n,
                n == name@.len(),
                self.wf(),
                self.base@ == old(self).base@,
                self.usage.val == old(self).usage.val,
                self.next_id == old(self).next_id,
                s0 == old(self).fs.entries@,
                forall|jj: int| 1 <= jj < j ==> #[trigger] ancestor_ok_at(s0, name@, jj),
                forall|jj: int|
                    1 <= jj < j && node_of(s0, name@.subrange(0, jj)) is None
                        ==> #[trigger] node_of(self.fs.entries@, name@.subrange(0, jj)) == Some(
                        (FileKind::Directory, Seq::<u8>::empty()),
                    ),
                forall|k2: Seq<Seq<u8>>|
                    #[trigger] node_of(self.fs.entries@, k2) == node_of(s0, k2) || (
                    is_proper_prefix_of(k2, name@) && k2.len() < j && node_of(s0, k2) is None
                        && node_of(self.fs.entries@, k2) == Some(
                        (FileKind::Directory, Seq::<u8>::empty()),
                    )),
            decreases n - j,
        {
            let anc = name.prefix(j);
            proof {
                // `anc` was not visited before: it is the unique prefix of
                // length `j`, and everything created so far is shorter.
                assert(anc@.len() == j);
                assert(node_of(self.fs.entries@, anc@) == node_of(s0, anc@));
            }
            let ghost fs_before = self.fs.entries@;
            match self.fs.get_kind(&anc) {
                None => {
                    self.fs.set_node(&anc, FileKind::Directory, Vec::new());
                    proof {
                        assert(node_of(s0, anc@) is None);
                        assert(ancestor_ok_at(s0, name@, j as int));
                        assert(is_proper_prefix_of(anc@, name@));
                        assert forall|k2: Seq<Seq<u8>>|
                            #[trigger] node_of(self.fs.entries@, k2) == node_of(s0, k2) || (
                            is_proper_prefix_of(k2, name@) && k2.len() < j + 1 && node_of(s0, k2)
                                is None && node_of(self.fs.entries@, k2) == Some(
                                (FileKind::Directory, Seq::<u8>::empty()),
                            )) by {
                            if k2 == anc@ {
                            } else {
                                assert(node_of(self.fs.entries@, k2) == node_of(fs_before, k2));
                            }
                        }
                    }
                },
                Some(k) => {
                    if matches!(k, FileKind::Directory) {
                        proof {
                            assert(ancestor_ok_at(s0, name@, j as int));
                        }
                    } else {
                        proof {
                            assert(!ancestor_ok_at(s0, name@, j as int));
                            assert(!ancestors_ok(s0, name@));
                        }
                        return Err(StorageError::NotADirectory);
                    }
                },
            }
            j = j + 1;
        }
        assert(ancestors_ok(s0, name@));
        let prov = provisional(name);
        proof {
            assert(prov@.len() == name@.len());
            assert(!is_proper_prefix_of(prov@, name@));
            assert(node_of(self.fs.entries@, prov@) == node_of(s0, prov@));
        }
        let ghost fs_before = self.fs.entries@;
        let tk = self.fs.get_kind(&prov);
        let free = match tk {
            None => true,
            Some(k) => matches!(k, FileKind::Regular),
        };
        if !free {
            proof {
                assert(!target_ok(s0, provisional_of(name@)));
            }
            return Err(StorageError::Other);
        }
        assert(target_ok(s0, provisional_of(name@)));
        self.fs.set_node(&prov, FileKind::Regular, Vec::new());
        let ghost fs_after = self.fs.entries@;
        let id = self.mint_id();
        let w = PosixWriter::new(name.duplicate(), prov, id);
        proof {
            assert forall|jj: int|
                1 <= jj < name@.len() && node_of(s0, name@.subrange(0, jj))
                    is None implies #[trigger] node_of(self.fs.entries@, name@.subrange(0, jj))
                == Some((FileKind::Directory, Seq::<u8>::empty())) by {
                assert(name@.subrange(0, jj).len() == jj);
                assert(name@.subrange(0, jj) != provisional_of(name@));
                assert(node_of(fs_after, name@.subrange(0, jj)) == node_of(
                    fs_before,
                    name@.subrange(0, jj),
                ));
            }
            assert forall|k2: Seq<Seq<u8>>|
                (!(is_proper_prefix_of(k2, name@) && node_of(s0, k2) is None) && k2
                    != provisional_of(name@)) implies #[trigger] node_of(self.fs.entries@, k2)
                == node_of(s0, k2) by {
                assert(node_of(fs_after, k2) == node_of(fs_before, k2));
            }
        }
        Ok(w)
    }

    /// Opens the pre-existing file `name` read-only: succeeds if and only
    /// if `name` is a regular file, and the reader's guard starts with
    /// `keep == true` — opening existing data never deletes it merely by
    /// being closed.
    pub fn open(&mut self, name: &StoragePath) -> (r: Result<PosixReader, StorageError>)
        requires
            old(self).wf(),
        ensures
            final(self).wf(),
            final(self).fs.entries@ == old(self).fs.entries@,
            final(self).usage.val == old(self).usage.val,
            final(self).base@ == old(self).base@,
            (node_of(old(self).fs.entries@, name@) matches Some((k, b)) && k == FileKind::Regular)
                ==> (r matches Ok(rd) && rd.wf() && rd.bytes@ == node_of(
                old(self).fs.entries@,
                name@,
            )->Some_0.1 && rd.drop.path@ == name@ && rd.drop.keep == true && rd.file_id == old(self).next_id && final(self).next_id == (if old(self).next_id < u64::MAX {
                old(self).next_id + 1
            } else {
                old(self).next_id as int
            })),
            node_of(old(self).fs.entries@, name@) is None ==> (r matches Err(e) && e
                == StorageError::NotFound && final(self).next_id == old(self).next_id),
            (node_of(old(self).fs.entries@, name@) matches Some((k, _)) && k != FileKind::Regular)
                ==> (r matches Err(e) && e == StorageError::Other && final(self).next_id == old(self).next_id),
    {
        match self.fs.file_bytes(name) {
            Some(bytes) => {
                let size = bytes.len() as u64;
                let id = self.mint_id();
                Ok(PosixReader::new(bytes, id, DeleteOnDrop::new(name.duplicate(), true, size)))
            },
            None => {
                match self.fs.get_kind(name) {
                    None => Err(StorageError::NotFound),
                    Some(_) => Err(StorageError::Other),
                }
            },
        }
    }

    /// Enumerates the direct children of `parent`, each classified as a
    /// file with its size, a directory, or other.  The root always lists;
    /// a missing parent is `NotFound` and a non-directory parent is
    /// `NotADirectory`.
    pub fn list(&self, parent: &StoragePath) -> (r: Result<
        Vec<(Vec<u8>, StorageFileType)>,
        StorageError,
    >)
        requires
            self.wf(),
        ensures
            (parent@.len() == 0 || (node_of(self.fs.entries@, parent@) matches Some((k, _)) && k
                == FileKind::Directory)) ==> (r matches Ok(v) && v@.len() == children_of(
                self.fs.entries@,
                parent@,
            ).len() && (forall|ii: int|
                0 <= ii < v@.len() ==> (#[trigger] v@[ii].0@, v@[ii].1) == children_of(
                    self.fs.entries@,
                    parent@,
                )[ii])),
            (parent@.len() > 0 && node_of(self.fs.entries@, parent@) is None) ==> (r matches Err(e)
                && e == StorageError::NotFound),
            (parent@.len() > 0 && (node_of(self.fs.entries@, parent@) matches Some((k, _)) && k
                != FileKind::Directory)) ==> (r matches Err(e) && e == StorageError::NotADirectory),
    {
        if parent.len() > 0 {
            match self.fs.get_kind(parent) {
                None => {
                    return Err(StorageError::NotFound);
                },
                Some(k) => {
                    if !matches!(k, FileKind::Directory) {
                        return Err(StorageError::NotADirectory);
                    }
                },
            }
        }
        Ok(self.fs.children(parent))
    }

    /// Deletes the single file `name`, decrementing the usage tally by its
    /// size if it was a regular file.
    pub fn delete(&mut self, name: &StoragePath) -> (r: Result<(), StorageError>)
        requires
            old(self).wf(),
        ensures
            final(self).wf(),
            final(self).base@ == old(self).base@,
            final(self).next_id == old(self).next_id,
            delete_rel(
                old(self).fs.entries@,
                final(self).fs.entries@,
                old(self).usage.val as int,
                final(self).usage.val as int,
                name@,
                r,
            ),
    {
        match self.fs.locate(name) {
            None => Err(StorageError::NotFound),
            Some(i) => {
                let kind = self.fs.entries[i].kind;
                match kind {
                    FileKind::Directory => Err(StorageError::Other),
                    FileKind::Regular => {
                        let sz = self.fs.entries[i].bytes.len();
                        self.fs.remove_node(name);
                        self.usage.decrement(sz as u64);
                        Ok(())
                    },
                    _ => {
                        self.fs.remove_node(name);
                        Ok(())
                    },
                }
            },
        }
    }

    /// Deletes `name` and everything beneath it.  A missing path is a
    /// successful no-op; a symlink is unlinked without following it; a
    /// directory is removed depth-first, the tally dropping once per
    /// regular file; and a plain file (or special node) is handled exactly
    /// as `delete` handles it.
    pub fn delete_recursive(&mut self, name: &StoragePath) -> (r: Result<(), StorageError>)
        requires
            old(self).wf(),
        ensures
            final(self).wf(),
            final(self).base@ == old(self).base@,
            final(self).next_id == old(self).next_id,
            node_of(old(self).fs.entries@, name@) is None ==> (r is Ok && final(self).fs.entries@
                == old(self).fs.entries@ && final(self).usage.val == old(self).usage.val),
            (node_of(old(self).fs.entries@, name@) matches Some((k, _)) && k == FileKind::Symlink)
                ==> (r is Ok && node_of(final(self).fs.entries@, name@) is None && (forall|
                k2: Seq<Seq<u8>>,
            |
                k2 != name@ ==> #[trigger] node_of(final(self).fs.entries@, k2) == node_of(
                    old(self).fs.entries@,
                    k2,
                )) && final(self).usage.val == old(self).usage.val),
            (node_of(old(self).fs.entries@, name@) matches Some((k, _)) && k == FileKind::Directory)
                ==> (r is Ok && (forall|k2: Seq<Seq<u8>>|
                is_under(k2, name@) ==> #[trigger] node_of(final(self).fs.entries@, k2) is None)
                && (forall|k2: Seq<Seq<u8>>|
                !is_under(k2, name@) ==> #[trigger] node_of(final(self).fs.entries@, k2) == node_of(
                    old(self).fs.entries@,
                    k2,
                )) && final(self).usage.val == usage_after_subtree_removal(
                old(self).fs.entries@,
                name@,
                old(self).usage.val as int,
            )),
            (node_of(old(self).fs.entries@, name@) matches Some((k, _)) && (k == FileKind::Regular
                || k == FileKind::Special)) ==> delete_rel(
                old(self).fs.entries@,
                final(self).fs.entries@,
                old(self).usage.val as int,
                final(self).usage.val as int,
                name@,
                r,
            ),
    {
        match self.fs.get_kind(name) {
            None => Ok(()),
            Some(FileKind::Symlink) => {
                self.fs.remove_node(name);
                Ok(())
            },
            Some(FileKind::Directory) => {
                self.fs.remove_subtree(name, &mut self.usage);
                Ok(())
            },
            Some(_) => self.delete(name),
        }
    }
}

/// The create path retries at most once, and only after a missing-parent
/// failure — the decision behind the mkdir-and-retry pattern.
pub fn create_should_retry(e: &StorageError) -> (r: bool)
    ensures
        r == (e is NotFound),
{
    matches!(e, StorageError::NotFound)
}

/// While listing a directory, the first per-entry failure is remembered
/// and reported after enumeration of the rest; later failures never
/// displace it.
pub fn record_failure(acc: Option<StorageError>, e: StorageError) -> (r: Option<StorageError>)
    ensures
        r == (if acc is Some {
            acc
        } else {
            Some(e)
        }),
{
    match acc {
        Some(a) => Some(a),
        None => Some(e),
    }
}

} // verus!
