//! The model of the managed directory tree: a flat table of paths, each
//! bound to a node (regular file with contents, directory, symlink, or
//! anything else).  Every backend operation is specified as a transition of
//! this table; `node_of` is the single observation the contracts speak of.

use crate::path::{is_under, StoragePath};
use crate::tracker::{clamp_i64, UsageTracker};
use crate::util::copy_bytes;
use crate::{FileKind, StorageFileType};
use vstd::prelude::*;

verus! {

/// One path of the tree and the node it resolves to.  `bytes` carries the
/// contents of a regular file and is empty for every other kind.
#[derive(Debug)]
pub struct FsEntry {
    pub path: StoragePath,
    pub kind: FileKind,
    pub bytes: Vec<u8>,
}

/// The index of the entry for `k`, or -1 when no entry carries that path.
pub open spec fn find(s: Seq<FsEntry>, k: Seq<Seq<u8>>) -> int
    decreases s.len(),
{
    if s.len() == 0 {
        -1
    } else if s.last().path@ == k {
        s.len() - 1
    } else {
        find(s.drop_last(), k)
    }
}

/// What `k` resolves to: its kind and contents, or `None` when absent.
pub open spec fn node_of(s: Seq<FsEntry>, k: Seq<Seq<u8>>) -> Option<(FileKind, Seq<u8>)> {
    let i = find(s, k);
    if i == -1 {
        None
    } else {
        Some((s[i].kind, s[i].bytes@))
    }
}

/// No two entries carry the same path.
pub open spec fn unique_paths(s: Seq<FsEntry>) -> bool {
    forall|i: int, j: int| 0 <= i < j < s.len() ==> s[i].path@ != s[j].path@
}

pub proof fn lemma_find_props(s: Seq<FsEntry>, k: Seq<Seq<u8>>)
    ensures
        find(s, k) == -1 ==> forall|i: int| 0 <= i < s.len() ==> s[i].path@ != k,
        find(s, k) != -1 ==> 0 <= find(s, k) < s.len() && s[find(s, k)].path@ == k,
    decreases s.len(),
{
    if s.len() > 0 {
        lemma_find_props(s.drop_last(), k);
        assert(forall|i: int| 0 <= i < s.len() - 1 ==> s.drop_last()[i] == s[i]);
    }
}

/// Pushing an entry resolves its own path to the new node and leaves every
/// other path as it was.
pub proof fn lemma_node_of_push(s: Seq<FsEntry>, e: FsEntry)
    ensures
        node_of(s.push(e), e.path@) == Some((e.kind, e.bytes@)),
        forall|k: Seq<Seq<u8>>|
            k != e.path@ ==> #[trigger] node_of(s.push(e), k) == node_of(s, k),
{
    let t = s.push(e);
    assert(t.drop_last() =~= s);
    assert(t.last() == e);
    assert(t[s.len() as int] == e);
    assert forall|k: Seq<Seq<u8>>| k != e.path@ implies #[trigger] node_of(t, k) == node_of(
        s,
        k,
    ) by {
        lemma_find_props(s, k);
        if find(s, k) != -1 {
            assert(t[find(s, k)] == s[find(s, k)]);
        }
    }
}

pub proof fn lemma_unique_push(s: Seq<FsEntry>, e: FsEntry)
    requires
        unique_paths(s),
        find(s, e.path@) == -1,
    ensures
        unique_paths(s.push(e)),
{
    lemma_find_props(s, e.path@);
    let t = s.push(e);
    assert forall|i: int, j: int| 0 <= i < j < t.len() implies t[i].path@ != t[j].path@ by {
        if j < s.len() {
            assert(t[i] == s[i] && t[j] == s[j]);
        } else {
            assert(t[i] == s[i] && t[j] == e);
        }
    }
}

/// In a table without duplicate paths, the entries before position `i` never
/// carry the path of the entry at `i`.
pub proof fn lemma_unique_prefix_absent(s: Seq<FsEntry>, i: int)
    requires
        unique_paths(s),
        0 <= i < s.len(),
    ensures
        find(s.subrange(0, i), s[i].path@) == -1,
{
    let pre = s.subrange(0, i);
    lemma_find_props(pre, s[i].path@);
    if find(pre, s[i].path@) != -1 {
        let f = find(pre, s[i].path@);
        assert(pre[f] == s[f]);
        assert(false);
    }
}

/// The usage tally after deleting the subtree under `pref` from `s`,
/// decremented once per regular file removed, in table order.
pub open spec fn usage_after_subtree_removal(s: Seq<FsEntry>, pref: Seq<Seq<u8>>, u: int) -> int
    decreases s.len(),
{
    if s.len() == 0 {
        u
    } else {
        let u2 = usage_after_subtree_removal(s.drop_last(), pref, u);
        let e = s.last();
        if is_under(e.path@, pref) && e.kind == FileKind::Regular {
            clamp_i64(u2 - e.bytes@.len())
        } else {
            u2
        }
    }
}

/// The classification `list` reports for an entry.
pub open spec fn file_type_of(e: FsEntry) -> StorageFileType {
    match e.kind {
        FileKind::Regular => StorageFileType::File { size: e.bytes@.len() as u64 },
        FileKind::Directory => StorageFileType::Directory,
        _ => StorageFileType::Other,
    }
}

/// The direct children of `parent` in table order: the last component of
/// each child path, with its classification.
pub open spec fn children_of(s: Seq<FsEntry>, parent: Seq<Seq<u8>>) -> Seq<
    (Seq<u8>, StorageFileType),
>
    decreases s.len(),
{
    if s.len() == 0 {
        Seq::empty()
    } else {
        let rest = children_of(s.drop_last(), parent);
        let e = s.last();
        if e.path@.len() == parent.len() + 1 && is_under(e.path@, parent) {
            rest.push((e.path@.last(), file_type_of(e)))
        } else {
            rest
        }
    }
}

/// The in-memory picture of the managed directory tree.
#[derive(Debug)]
pub struct FsModel {
    pub entries: Vec<FsEntry>,
}

impl FsModel {
    /// An empty tree.
    pub fn new() -> (r: Self)
        ensures
            r.entries@.len() == 0,
            unique_paths(r.entries@),
    {
        FsModel { entries: Vec::new() }
    }

    /// The index of the entry for `key`, if any.
    pub fn locate(&self, key: &StoragePath) -> (r: Option<usize>)
        requires
            unique_paths(self.entries@),
        ensures
            match r {
                Some(i) => find(self.entries@, key@) == i && i < self.entries@.len()
                    && self.entries@[i as int].path@ == key@,
                None => find(self.entries@, key@) == -1,
            },
    {
        let n = self.entries.len();
        let mut i: usize = 0;
        while i < n
            invariant
                i <= n,
                n == self.entries@.len(),
                unique_paths(self.entries@),
                forall|j: int| 0 <= j < i ==> self.entries@[j].path@ != key@,
            decreases n - i,
        {
            if self.entries[i].path.path_eq(key) {
                proof {
                    lemma_find_props(self.entries@, key@);
                    if find(self.entries@, key@) == -1 {
                        assert(false);
                    }
                }
                return Some(i);
            }
            i = i + 1;
        }
        proof {
            lemma_find_props(self.entries@, key@);
            if find(self.entries@, key@) != -1 {
                assert(false);
            }
        }
        None
    }

    /// The kind of node `key` resolves to, if any.
    pub fn get_kind(&self, key: &StoragePath) -> (r: Option<FileKind>)
        requires
            unique_paths(self.entries@),
        ensures
            match node_of(self.entries@, key@) {
                Some((k, _)) => r == Some(k),
                None => r is None,
            },
    {
        match self.locate(key) {
            Some(i) => Some(self.entries[i].kind),
            None => None,
        }
    }

    /// A copy of the contents of the regular file at `key`, if that is what
    /// `key` resolves to.
    pub fn file_bytes(&self, key: &StoragePath) -> (r: Option<Vec<u8>>)
        requires
            unique_paths(self.entries@),
        ensures
            match node_of(self.entries@, key@) {
                Some((k, b)) => if k == FileKind::Regular {
                    r matches Some(v) && v@ == b
                } else {
                    r is None
                },
                None => r is None,
            },
    {
        match self.locate(key) {
            Some(i) => {
                if matches!(self.entries[i].kind, FileKind::Regular) {
                    Some(copy_bytes(&self.entries[i].bytes))
                } else {
                    None
                }
            },
            None => None,
        }
    }

    /// Removes the entry for `key`, if present.
    pub fn remove_node(&mut self, key: &StoragePath)
        requires
            unique_paths(old(self).entries@),
        ensures
            unique_paths(final(self).entries@),
            node_of(final(self).entries@, key@) is None,
            forall|k2: Seq<Seq<u8>>|
                k2 != key@ ==> #[trigger] node_of(final(self).entries@, k2) == node_of(
                    old(self).entries@,
                    k2,
                ),
    {
        let ghost s0 = self.entries@;
        let n = self.entries.len();
        let mut kept: Vec<FsEntry> = Vec::new();
        let mut i: usize = 0;
        while i < n
            invariant
                i <= n,
                n == s0.len(),
                unique_paths(s0),
                self.entries@ == s0,
                unique_paths(kept@),
                node_of(kept@, key@) is None,
                forall|k2: Seq<Seq<u8>>|
                    k2 != key@ ==> #[trigger] node_of(kept@, k2) == node_of(
                        s0.subrange(0, i as int),
                        k2,
                    ),
            decreases n - i,
        {
            let ghost pre = s0.subrange(0, i as int);
            proof {
                assert(s0.subrange(0, i + 1).drop_last() =~= pre);
                assert(s0.subrange(0, i + 1).last() == s0[i as int]);
                assert(s0.subrange(0, i + 1) =~= pre.push(s0[i as int]));
                lemma_node_of_push(pre, s0[i as int]);
                lemma_unique_prefix_absent(s0, i as int);
            }
            if !self.entries[i].path.path_eq(key) {
                let e = self.entry_copy(i);
                proof {
                    lemma_node_of_push(kept@, e);
                    lemma_find_props(kept@, e.path@);
                    if find(kept@, e.path@) != -1 {
                        assert(node_of(kept@, e.path@) == node_of(pre, e.path@));
                        assert(false);
                    }
                    lemma_unique_push(kept@, e);
                }
                kept.push(e);
            }
            i = i + 1;
        }
        proof {
            assert(s0.subrange(0, n as int) =~= s0);
        }
        self.entries = kept;
    }

    /// Binds `key` to the given node, replacing whatever it resolved to.
    pub fn set_node(&mut self, key: &StoragePath, kind: FileKind, bytes: Vec<u8>)
        requires
            unique_paths(old(self).entries@),
        ensures
            unique_paths(final(self).entries@),
            node_of(final(self).entries@, key@) == Some((kind, bytes@)),
            forall|k2: Seq<Seq<u8>>|
                k2 != key@ ==> #[trigger] node_of(final(self).entries@, k2) == node_of(
                    old(self).entries@,
                    k2,
                ),
    {
        self.remove_node(key);
        let e = FsEntry { path: key.duplicate(), kind, bytes };
        proof {
            lemma_node_of_push(self.entries@, e);
            lemma_find_props(self.entries@, e.path@);
            if find(self.entries@, e.path@) != -1 {
                assert(false);
            }
            lemma_unique_push(self.entries@, e);
        }
        self.entries.push(e);
    }

    /// Deletes every entry at or below `pref`, decrementing the usage tally
    /// once per regular file removed.
    pub fn remove_subtree(&mut self, pref: &StoragePath, tracker: &mut UsageTracker)
        requires
            unique_paths(old(self).entries@),
        ensures
            unique_paths(final(self).entries@),
            forall|k2: Seq<Seq<u8>>|
                is_under(k2, pref@) ==> #[trigger] node_of(final(self).entries@, k2) is None,
            forall|k2: Seq<Seq<u8>>|
                !is_under(k2, pref@) ==> #[trigger] node_of(final(self).entries@, k2) == node_of(
                    old(self).entries@,
                    k2,
                ),
            final(tracker).val == usage_after_subtree_removal(
                old(self).entries@,
                pref@,
                old(tracker).val as int,
            ),
    {
        let ghost s0 = self.entries@;
        let ghost u0 = tracker.val as int;
        let n = self.entries.len();
        let mut kept: Vec<FsEntry> = Vec::new();
        let mut i: usize = 0;
        while i < n
            invariant
                i <= n,
                n == s0.len(),
                unique_paths(s0),
                self.entries@ == s0,
                unique_paths(kept@),
                forall|k2: Seq<Seq<u8>>|
                    is_under(k2, pref@) ==> #[trigger] node_of(kept@, k2) is None,
                forall|k2: Seq<Seq<u8>>|
                    !is_under(k2, pref@) ==> #[trigger] node_of(kept@, k2) == node_of(
                        s0.subrange(0, i as int),
                        k2,
                    ),
                tracker.val == usage_after_subtree_removal(s0.subrange(0, i as int), pref@, u0),
            decreases n - i,
        {
            let ghost pre = s0.subrange(0, i as int);
            proof {
                assert(s0.subrange(0, i + 1).drop_last() =~= pre);
                assert(s0.subrange(0, i + 1).last() == s0[i as int]);
                assert(s0.subrange(0, i + 1) =~= pre.push(s0[i as int]));
                lemma_node_of_push(pre, s0[i as int]);
                lemma_unique_prefix_absent(s0, i as int);
            }
            if self.entries[i].path.starts_with(pref) {
                if matches!(self.entries[i].kind, FileKind::Regular) {
                    let sz = self.entries[i].bytes.len();
                    tracker.decrement(sz as u64);
                }
            } else {
                let e = self.entry_copy(i);
                proof {
                    lemma_node_of_push(kept@, e);
                    lemma_find_props(kept@, e.path@);
                    if find(kept@, e.path@) != -1 {
                        assert(node_of(kept@, e.path@) == node_of(pre, e.path@));
                        assert(false);
                    }
                    lemma_unique_push(kept@, e);
                }
                kept.push(e);
            }
            i = i + 1;
        }
        proof {
            assert(s0.subrange(0, n as int) =~= s0);
        }
        self.entries = kept;
    }

    /// The direct children of `parent`, each as its name (last component)
    /// and its classification, in table order.
    pub fn children(&self, parent: &StoragePath) -> (r: Vec<(Vec<u8>, StorageFileType)>)
        ensures
            r@.len() == children_of(self.entries@, parent@).len(),
            forall|ii: int|
                0 <= ii < r@.len() ==> (#[trigger] r@[ii].0@, r@[ii].1) == children_of(
                    self.entries@,
                    parent@,
                )[ii],
    {
        let ghost s0 = self.entries@;
        let n = self.entries.len();
        let pl = parent.len();
        let mut r: Vec<(Vec<u8>, StorageFileType)> = Vec::new();
        let mut i: usize = 0;
        while i < n
            invariant
                i <= n,
                n == s0.len(),
                self.entries@ == s0,
                pl == parent@.len(),
                r@.len() == children_of(s0.subrange(0, i as int), parent@).len(),
                forall|ii: int|
                    0 <= ii < r@.len() ==> (#[trigger] r@[ii].0@, r@[ii].1) == children_of(
                        s0.subrange(0, i as int),
                        parent@,
                    )[ii],
            decreases n - i,
        {
            let ghost pre = s0.subrange(0, i as int);
            proof {
                assert(s0.subrange(0, i + 1).drop_last() =~= pre);
                assert(s0.subrange(0, i + 1).last() == s0[i as int]);
            }
            let el = self.entries[i].path.len();
            if el > pl && el - pl == 1 && self.entries[i].path.starts_with(parent) {
                let name = copy_bytes(&self.entries[i].path.parts[el - 1]);
                let ft = match self.entries[i].kind {
                    FileKind::Regular => StorageFileType::File {
                        size: self.entries[i].bytes.len() as u64,
                    },
                    FileKind::Directory => StorageFileType::Directory,
                    _ => StorageFileType::Other,
                };
                proof {
                    assert(name@ == s0[i as int].path@.last());
                    assert(ft == file_type_of(s0[i as int]));
                }
                r.push((name, ft));
            }
            i = i + 1;
        }
        proof {
            assert(s0.subrange(0, n as int) =~= s0);
        }
        r
    }

    /// A copy of the entry at index `i`.
    fn entry_copy(&self, i: usize) -> (r: FsEntry)
        requires
            i < self.entries@.len(),
        ensures
            r.path@ == self.entries@[i as int].path@,
            r.kind == self.entries@[i as int].kind,
            r.bytes@ == self.entries@[i as int].bytes@,
    {
        FsEntry {
            path: self.entries[i].path.duplicate(),
            kind: self.entries[i].kind,
            bytes: copy_bytes(&self.entries[i].bytes),
        }
    }
}

} // verus!
