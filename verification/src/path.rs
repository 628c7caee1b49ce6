//! The logical namespace: a path is an ordered sequence of name components,
//! each a byte string, resolved relative to the backend's base directory.
//!
//! A file being written lives under a provisional name — its final name with
//! a reserved marker appended to the last component — until it is finalized
//! by an atomic rename.

use crate::util::{bytes_eq, copy_bytes, views_of};
use vstd::prelude::*;

verus! {

/// A path in the logical namespace: a sequence of name components.
#[derive(Debug)]
pub struct StoragePath {
    pub parts: Vec<Vec<u8>>,
}

impl View for StoragePath {
    type V = Seq<Seq<u8>>;

    open spec fn view(&self) -> Seq<Seq<u8>> {
        views_of(self.parts@)
    }
}

/// The reserved suffix that marks a file as provisional: ".mut".
pub open spec fn marker() -> Seq<u8> {
    seq![0x2eu8, 0x6du8, 0x75u8, 0x74u8]
}

/// The provisional name of `name`: the marker appended to its last component.
pub open spec fn provisional_of(name: Seq<Seq<u8>>) -> Seq<Seq<u8>>
    recommends
        name.len() > 0,
{
    name.update(name.len() - 1, name.last() + marker())
}

/// `p` lies at or below `pref` in the namespace.
pub open spec fn is_under(p: Seq<Seq<u8>>, pref: Seq<Seq<u8>>) -> bool {
    pref.len() <= p.len() && p.subrange(0, pref.len() as int) == pref
}

/// `p` is a strict ancestor position of `q`: a proper prefix of it.
pub open spec fn is_proper_prefix_of(p: Seq<Seq<u8>>, q: Seq<Seq<u8>>) -> bool {
    p.len() < q.len() && q.subrange(0, p.len() as int) == p
}

/// A provisional name never coincides with the name it was derived from.
pub proof fn lemma_provisional_differs(name: Seq<Seq<u8>>)
    requires
        name.len() > 0,
    ensures
        provisional_of(name) != name,
{
    let last = name.len() - 1;
    assert(provisional_of(name)[last].len() == name[last].len() + 4);
}

impl StoragePath {
    /// The empty path: the backend's base directory itself.
    pub fn root() -> (r: Self)
        ensures
            r@ == Seq::<Seq<u8>>::empty(),
    {
        let r = StoragePath { parts: Vec::new() };
        assert(r@ =~= Seq::<Seq<u8>>::empty());
        r
    }

    /// Derives the child of this path named by `part`.
    pub fn child(&self, part: Vec<u8>) -> (r: Self)
        ensures
            r@ == self@.push(part@),
    {
        let mut parts = self.copy_parts();
        parts.push(part);
        let r = StoragePath { parts };
        assert(r@ =~= self@.push(part@));
        r
    }

    /// A copy of this path.
    pub fn duplicate(&self) -> (r: Self)
        ensures
            r@ == self@,
    {
        StoragePath { parts: self.copy_parts() }
    }

    /// The first `n` components of this path.
    pub fn prefix(&self, n: usize) -> (r: Self)
        requires
            n <= self@.len(),
        ensures
            r@ == self@.subrange(0, n as int),
    {
        let mut parts: Vec<Vec<u8>> = Vec::new();
        let mut i: usize = 0;
        while i < n
            invariant
                i <= n,
                n <= self.parts@.len(),
                parts@.len() == i,
                forall|j: int| 0 <= j < i ==> parts@[j]@ == self.parts@[j]@,
            decreases n - i,
        {
            parts.push(copy_bytes(&self.parts[i]));
            i = i + 1;
        }
        let r = StoragePath { parts };
        assert(r@ =~= self@.subrange(0, n as int));
        r
    }

    /// Component count.
    pub fn len(&self) -> (r: usize)
        ensures
            r == self@.len(),
    {
        self.parts.len()
    }

    /// Component-for-component equality.
    pub fn path_eq(&self, other: &StoragePath) -> (r: bool)
        ensures
            r == (self@ == other@),
    {
        if self.parts.len() != other.parts.len() {
            assert(self@.len() != other@.len());
            return false;
        }
        let n = self.parts.len();
        let mut i: usize = 0;
        while i < n
            invariant
                i <= n,
                n == self.parts@.len(),
                n == other.parts@.len(),
                forall|j: int| 0 <= j < i ==> self.parts@[j]@ == other.parts@[j]@,
            decreases n - i,
        {
            if !bytes_eq(&self.parts[i], &other.parts[i]) {
                assert(self@[i as int] != other@[i as int]);
                return false;
            }
            i = i + 1;
        }
        assert(self@ =~= other@);
        true
    }

    /// Whether this path lies at or below `pref`.
    pub fn starts_with(&self, pref: &StoragePath) -> (r: bool)
        ensures
            r == is_under(self@, pref@),
    {
        if self.parts.len() < pref.parts.len() {
            return false;
        }
        let n = pref.parts.len();
        let mut i: usize = 0;
        while i < n
            invariant
                i <= n,
                n == pref.parts@.len(),
                n <= self.parts@.len(),
                forall|j: int| 0 <= j < i ==> self.parts@[j]@ == pref.parts@[j]@,
            decreases n - i,
        {
            if !bytes_eq(&self.parts[i], &pref.parts[i]) {
                assert(self@.subrange(0, n as int)[i as int] != pref@[i as int]);
                return false;
            }
            i = i + 1;
        }
        assert(self@.subrange(0, n as int) =~= pref@);
        true
    }

    fn copy_parts(&self) -> (r: Vec<Vec<u8>>)
        ensures
            views_of(r@) == views_of(self.parts@),
    {
        let n = self.parts.len();
        let mut r: Vec<Vec<u8>> = Vec::new();
        let mut i: usize = 0;
        while i < n
            invariant
                i <= n,
                n == self.parts@.len(),
                r@.len() == i,
                forall|j: int| 0 <= j < i ==> r@[j]@ == self.parts@[j]@,
            decreases n - i,
        {
            r.push(copy_bytes(&self.parts[i]));
            i = i + 1;
        }
        assert(views_of(r@) =~= views_of(self.parts@));
        r
    }
}

/// The provisional name of `name`: `name` with the marker appended to its
/// last component.
pub fn provisional(name: &StoragePath) -> (r: StoragePath)
    requires
        name@.len() > 0,
    ensures
        r@ == provisional_of(name@),
{
    let n = name.parts.len();
    let mut parts: Vec<Vec<u8>> = Vec::new();
    let mut i: usize = 0;
    while i < n - 1
        invariant
            n == name.parts@.len(),
            n >= 1,
            i <= n - 1,
            parts@.len() == i,
            forall|j: int| 0 <= j < i ==> parts@[j]@ == name.parts@[j]@,
        decreases n - i,
    {
        parts.push(copy_bytes(&name.parts[i]));
        i = i + 1;
    }
    let mut last = copy_bytes(&name.parts[n - 1]);
    last.push(0x2e);
    last.push(0x6d);
    last.push(0x75);
    last.push(0x74);
    assert(last@ =~= name@.last() + marker());
    parts.push(last);
    let r = StoragePath { parts };
    assert(r@ =~= provisional_of(name@));
    r
}

} // verus!
