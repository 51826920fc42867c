//! The buffer cache: a per-device pool of released buffers, keyed by the
//! allocation identity (the node identities of the operation's inputs) and
//! reused only when the requested element count matches exactly.
//!
//! The cache tracks allocation provenance, never data: no operation's
//! contract depends on what a retrieved buffer holds, because every
//! operation overwrites (or zero-fills) each element of its output before
//! the output is handed out.
use vstd::prelude::*;

verus! {

/// One released buffer, remembered under the identity it was requested for.
pub struct CacheEntry<T> {
    pub left: u64,
    pub right: u64,
    pub data: Vec<T>,
}

/// Whether a pooled entry answers a request: the identity and the exact
/// element count both match. There is no partial reuse and no resizing.
pub open spec fn entry_matches<T>(e: CacheEntry<T>, left: u64, right: u64, size: int) -> bool {
    e.left == left && e.right == right && e.data@.len() == size
}

/// A pool of released buffers for one device.
pub struct BufferCache<T> {
    pub entries: Vec<CacheEntry<T>>,
}

impl<T: Copy> BufferCache<T> {
    pub fn new() -> (r: BufferCache<T>)
        ensures
            r.entries@.len() == 0,
    {
        BufferCache { entries: Vec::new() }
    }

    /// Returns a buffer of exactly `size` elements for the allocation
    /// identity `(left, right)`. On a hit — some pooled entry matches the
    /// identity and the size exactly — that entry leaves the pool and its
    /// buffer is returned, stale contents and all; every caller must
    /// therefore overwrite each element it lets anyone read. On a miss the
    /// pool is untouched and the result is a fresh allocation filled with
    /// `fill`.
    pub fn retrieve(&mut self, left: u64, right: u64, size: usize, fill: T) -> (r: Vec<T>)
        ensures
            r@.len() == size,
            (forall|i: int|
                0 <= i < old(self).entries@.len() ==> !entry_matches(
                    #[trigger] old(self).entries@[i],
                    left,
                    right,
                    size as int,
                )) ==> {
                &&& final(self).entries@ == old(self).entries@
                &&& r@ == Seq::new(size as nat, |p: int| fill)
            },
            (exists|i: int|
                0 <= i < old(self).entries@.len() && entry_matches(
                    #[trigger] old(self).entries@[i],
                    left,
                    right,
                    size as int,
                )) ==> (exists|i: int|
                {
                    &&& 0 <= i < old(self).entries@.len()
                    &&& entry_matches(#[trigger] old(self).entries@[i], left, right, size as int)
                    &&& r@ == old(self).entries@[i].data@
                    &&& final(self).entries@ == old(self).entries@.update(
                        i,
                        old(self).entries@.last(),
                    ).drop_last()
                }),
    {
        let mut i: usize = 0;
        while i < self.entries.len()
            invariant
                i <= self.entries@.len(),
                self.entries@ == old(self).entries@,
                forall|j: int|
                    0 <= j < i ==> !entry_matches(
                        #[trigger] old(self).entries@[j],
                        left,
                        right,
                        size as int,
                    ),
            decreases self.entries@.len() - i,
        {
            let hit = self.entries[i].left == left && self.entries[i].right == right
                && self.entries[i].data.len() == size;
            if hit {
                proof {
                    assert(entry_matches(old(self).entries@[i as int], left, right, size as int));
                }
                let entry = self.entries.swap_remove(i);
                return entry.data;
            }
            i += 1;
        }
        let mut fresh: Vec<T> = Vec::new();
        let mut q: usize = 0;
        while q < size
            invariant
                fresh@.len() == q,
                q <= size,
                forall|p: int| 0 <= p < q ==> #[trigger] fresh@[p] == fill,
            decreases size - q,
        {
            fresh.push(fill);
            q += 1;
        }
        proof {
            assert(fresh@ =~= Seq::new(size as nat, |p: int| fill));
        }
        fresh
    }

    /// Hands a released buffer back to the pool under the identity it was
    /// retrieved for, making it eligible for exact-size reuse.
    pub fn hand_back(&mut self, left: u64, right: u64, data: Vec<T>)
        ensures
            final(self).entries@ == old(self).entries@.push((CacheEntry { left, right, data })),
    {
        self.entries.push(CacheEntry { left, right, data });
    }
}

} // verus!
