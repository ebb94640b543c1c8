//! The host's arena allocator, bound to its hierarchical memory regions.
//!
//! The host owns a tree of memory regions. Every allocation belongs to one
//! region and is reclaimed in bulk when that region is reset or deleted; no
//! per-allocation free is required, though one is possible. Exactly one
//! region is "current" at any time, and guest code may temporarily adopt a
//! region as current provided it restores the prior one on every exit path.
//!
//! Here the whole region tree, the allocations, and the "current" register
//! are modeled as one explicit value, [`MemPool`], threaded through every
//! call instead of living in process-wide mutable state. A region is a
//! [`MemPool`] index; an allocation is a chunk index. [`PgMemoryContext`] and
//! [`PgAllocator`] are the guest-side handles to a region, and
//! [`PgAllocated`] is the guest-side owner of one allocation.

use vstd::prelude::*;

verus! {

/// Number of well-known permanent regions that exist from process start:
/// top-level, error-recovery, postmaster, cache, per-statement message,
/// top-transaction, and current-transaction.
pub const PERMANENT_REGIONS: usize = 7;

/// One node of the host's region tree.
#[derive(Clone, Copy, PartialEq, Eq, Structural, Debug)]
pub struct MemRegion {
    /// Index of the parent region; the top region is its own parent.
    pub parent: usize,
    /// False once the region has been deleted.
    pub alive: bool,
}

/// One allocation made from a region.
#[derive(PartialEq, Eq, Debug)]
pub struct MemChunk {
    /// The region this chunk belongs to.
    pub region: usize,
    /// The chunk's bytes, or `None` once it has been freed.
    pub data: Option<Vec<u8>>,
}

/// The host's whole memory state: the region tree, every chunk ever handed
/// out, and the current-region register.
///
/// Chunk handles are indices into `chunks` and are never reused, so a handle
/// stays meaningful after its chunk is freed; a freed chunk simply has no
/// data any more.
pub struct MemPool {
    /// The region tree; index 0 is the top region, indices below
    /// [`PERMANENT_REGIONS`] are the host's permanent regions.
    pub regions: Vec<MemRegion>,
    /// Every allocation, freed ones included.
    pub chunks: Vec<MemChunk>,
    /// The region that implicit allocation currently goes to.
    pub current: usize,
}

impl MemPool {
    /// Basic shape of the region tree: parents precede children, the
    /// permanent regions exist, are alive and sit under the top region, a
    /// live region has a live parent, every chunk names a region, and the
    /// current region is alive.
    pub open spec fn wf(self) -> bool {
        &&& self.regions.len() >= PERMANENT_REGIONS
        &&& self.parents_wf()
        &&& forall|i: int| 0 <= i < PERMANENT_REGIONS ==> (#[trigger] self.regions[i]).alive
        &&& forall|i: int|
            1 <= i < PERMANENT_REGIONS ==> (#[trigger] self.regions[i]).parent == 0
        &&& forall|i: int|
            1 <= i < self.regions.len() && (#[trigger] self.regions[i]).alive
                ==> self.regions[self.regions[i].parent as int].alive
        &&& forall|j: int|
            0 <= j < self.chunks.len() ==> (#[trigger] self.chunks[j]).region
                < self.regions.len()
        &&& self.current < self.regions.len()
        &&& self.regions[self.current as int].alive
    }

    /// The tree shape alone: every parent link points at an earlier region,
    /// and the top region is its own parent. This part of well-formedness
    /// survives deletions, which change only liveness.
    pub open spec fn parents_wf(self) -> bool {
        &&& self.regions.len() >= 1
        &&& self.regions[0].parent == 0
        &&& forall|i: int|
            1 <= i < self.regions.len() ==> (#[trigger] self.regions[i]).parent < i
    }

    /// Whether region `i` lies in the subtree rooted at `root` (following
    /// parent links; a region is in its own subtree).
    pub open spec fn in_subtree(self, i: int, root: int) -> bool
        decreases (if i >= 0 { i } else { 0 }),
    {
        if i == root {
            true
        } else if 0 < i < self.regions.len() && self.regions[i].parent < i {
            self.in_subtree(self.regions[i].parent as int, root)
        } else {
            false
        }
    }

    /// Whether `h` is a chunk handle whose storage is still live.
    pub open spec fn chunk_live(self, h: int) -> bool {
        0 <= h < self.chunks.len() && self.chunks[h].data is Some
    }

    /// The bytes of a live chunk.
    pub open spec fn chunk_bytes(self, h: int) -> Seq<u8>
        recommends
            self.chunk_live(h),
    {
        self.chunks[h].data.unwrap()@
    }

    /// The region a chunk belongs to.
    pub open spec fn chunk_region(self, h: int) -> int
        recommends
            0 <= h < self.chunks.len(),
    {
        self.chunks[h].region as int
    }

    /// True when `self` is `prior` with possibly more chunks appended (some
    /// of which may already be freed again): the regions, the current
    /// register and every old chunk are untouched.
    pub open spec fn mem_extends(self, prior: MemPool) -> bool {
        &&& self.regions == prior.regions
        &&& self.current == prior.current
        &&& self.chunks.len() >= prior.chunks.len()
        &&& forall|j: int|
            0 <= j < prior.chunks.len() ==> self.chunks[j] == #[trigger] prior.chunks[j]
    }

    /// A fresh memory state as found at process start: the permanent regions
    /// and nothing allocated, with the top region current.
    pub fn startup() -> (r: MemPool)
        ensures
            r.wf(),
            r.regions.len() == PERMANENT_REGIONS,
            r.chunks.len() == 0,
            r.current == 0,
    {
        let mut regions: Vec<MemRegion> = Vec::new();
        regions.push(MemRegion { parent: 0, alive: true });
        let mut i: usize = 1;
        while i < PERMANENT_REGIONS
            invariant
                1 <= i <= PERMANENT_REGIONS,
                regions.len() == i,
                regions[0].parent == 0,
                forall|k: int| 0 <= k < i ==> (#[trigger] regions[k]).alive,
                forall|k: int| 1 <= k < i ==> (#[trigger] regions[k]).parent == 0,
            decreases PERMANENT_REGIONS - i,
        {
            regions.push(MemRegion { parent: 0, alive: true });
            i += 1;
        }
        MemPool { regions, chunks: Vec::new(), current: 0 }
    }

    /// Walk the parent chain to decide subtree membership at run time.
    pub fn region_in_subtree(&self, i: usize, root: usize) -> (b: bool)
        requires
            self.parents_wf(),
            i < self.regions.len(),
        ensures
            b == self.in_subtree(i as int, root as int),
    {
        let mut cur = i;
        loop
            invariant
                self.parents_wf(),
                cur < self.regions.len(),
                self.in_subtree(i as int, root as int) == self.in_subtree(
                    cur as int,
                    root as int,
                ),
            decreases cur,
        {
            if cur == root {
                return true;
            }
            if cur == 0 {
                return false;
            }
            cur = self.regions[cur].parent;
        }
    }
}

/// A guest handle to one of the host's memory regions, together with the
/// saved prior current region while this one has been switched to.
pub struct PgMemoryContext {
    /// The region this handle designates.
    pub memcxt: usize,
    /// The region that was current before [`PgMemoryContext::switch_to`],
    /// if a switch is in effect.
    pub savedcxt: Option<usize>,
}

impl PgMemoryContext {
    /// Whether this handle designates a live region of `pool`.
    pub open spec fn valid(self, pool: MemPool) -> bool {
        self.memcxt < pool.regions.len() && pool.regions[self.memcxt as int].alive
    }

    /// Wrap a raw region handle.
    pub fn from_raw(memcxt: usize) -> (r: PgMemoryContext)
        ensures
            r.memcxt == memcxt,
            r.savedcxt is None,
    {
        PgMemoryContext { memcxt, savedcxt: None }
    }

    /// The region that implicit allocation currently goes to.
    pub fn current(pool: &MemPool) -> (r: PgMemoryContext)
        requires
            pool.wf(),
        ensures
            r.memcxt == pool.current,
            r.savedcxt is None,
            r.valid(*pool),
    {
        PgMemoryContext { memcxt: pool.current, savedcxt: None }
    }

    /// The top of the region tree; never reset or deleted, so allocating
    /// here is effectively permanent.
    pub fn top() -> (r: PgMemoryContext)
        ensures
            r.memcxt == 0,
            r.savedcxt is None,
    {
        PgMemoryContext { memcxt: 0, savedcxt: None }
    }

    /// The permanent region reserved for error recovery.
    pub fn error() -> (r: PgMemoryContext)
        ensures
            r.memcxt == 1,
            r.savedcxt is None,
    {
        PgMemoryContext { memcxt: 1, savedcxt: None }
    }

    /// The supervisor process's working region.
    pub fn postmaster() -> (r: PgMemoryContext)
        ensures
            r.memcxt == 2,
            r.savedcxt is None,
    {
        PgMemoryContext { memcxt: 2, savedcxt: None }
    }

    /// Permanent storage for the host's relation and catalog caches.
    pub fn cache() -> (r: PgMemoryContext)
        ensures
            r.memcxt == 3,
            r.savedcxt is None,
    {
        PgMemoryContext { memcxt: 3, savedcxt: None }
    }

    /// Storage tied to the current client command.
    pub fn message() -> (r: PgMemoryContext)
        ensures
            r.memcxt == 4,
            r.savedcxt is None,
    {
        PgMemoryContext { memcxt: 4, savedcxt: None }
    }

    /// Storage that lives until the end of the top-level transaction.
    pub fn top_transaction() -> (r: PgMemoryContext)
        ensures
            r.memcxt == 5,
            r.savedcxt is None,
    {
        PgMemoryContext { memcxt: 5, savedcxt: None }
    }

    /// Storage that lives until the end of the current (sub)transaction.
    pub fn current_transaction() -> (r: PgMemoryContext)
        ensures
            r.memcxt == 6,
            r.savedcxt is None,
    {
        PgMemoryContext { memcxt: 6, savedcxt: None }
    }

    /// Allocate `size` bytes owned by this region and return the chunk
    /// handle. The host reclaims the storage in bulk when the region is
    /// reset or deleted; contents are unspecified.
    ///
    /// Allocation failure is host-fatal (the host aborts the process on true
    /// exhaustion) and therefore not modeled as a guest-visible error.
    pub fn palloc(&self, pool: &mut MemPool, size: usize) -> (h: usize)
        requires
            old(pool).wf(),
            self.valid(*old(pool)),
        ensures
            final(pool).wf(),
            final(pool).mem_extends(*old(pool)),
            h == old(pool).chunks.len(),
            final(pool).chunks.len() == old(pool).chunks.len() + 1,
            final(pool).chunk_live(h as int),
            final(pool).chunk_region(h as int) == self.memcxt,
            final(pool).chunk_bytes(h as int).len() == size,
    {
        let mut data: Vec<u8> = Vec::new();
        let mut i: usize = 0;
        while i < size
            invariant
                data.len() == i,
                i <= size,
            decreases size - i,
        {
            data.push(0);
            i += 1;
        }
        let h = pool.chunks.len();
        pool.chunks.push(MemChunk { region: self.memcxt, data: Some(data) });
        h
    }

    /// Allocate `size` bytes owned by this region, all zeroed.
    pub fn palloc0(&self, pool: &mut MemPool, size: usize) -> (h: usize)
        requires
            old(pool).wf(),
            self.valid(*old(pool)),
        ensures
            final(pool).wf(),
            final(pool).mem_extends(*old(pool)),
            h == old(pool).chunks.len(),
            final(pool).chunks.len() == old(pool).chunks.len() + 1,
            final(pool).chunk_live(h as int),
            final(pool).chunk_region(h as int) == self.memcxt,
            final(pool).chunk_bytes(h as int) == Seq::new(size as nat, |i: int| 0u8),
    {
        let mut data: Vec<u8> = Vec::new();
        let mut i: usize = 0;
        while i < size
            invariant
                data.len() == i,
                i <= size,
                forall|k: int| 0 <= k < i ==> data[k] == 0u8,
            decreases size - i,
        {
            data.push(0);
            i += 1;
        }
        let h = pool.chunks.len();
        pool.chunks.push(MemChunk { region: self.memcxt, data: Some(data) });
        proof {
            assert(pool.chunk_bytes(h as int) =~= Seq::new(size as nat, |i: int| 0u8));
        }
        h
    }

    /// Explicitly release one chunk, wherever it was allocated.
    pub fn pfree(pool: &mut MemPool, h: usize)
        requires
            old(pool).wf(),
            old(pool).chunk_live(h as int),
        ensures
            final(pool).wf(),
            final(pool).regions == old(pool).regions,
            final(pool).current == old(pool).current,
            final(pool).chunks.len() == old(pool).chunks.len(),
            final(pool).chunks[h as int].region == old(pool).chunks[h as int].region,
            final(pool).chunks[h as int].data is None,
            forall|j: int|
                0 <= j < final(pool).chunks.len() && j != h ==> final(pool).chunks[j] == #[trigger] old(pool).chunks[j],
    {
        let region = pool.chunks[h].region;
        pool.chunks.set(h, MemChunk { region, data: None });
    }

    /// Free every chunk allocated in this region or any of its children,
    /// keeping all the regions usable.
    ///
    /// The host's permanent regions must not be reset by guest code.
    pub fn reset(&self, pool: &mut MemPool)
        requires
            old(pool).wf(),
            self.valid(*old(pool)),
            self.memcxt >= PERMANENT_REGIONS,
        ensures
            final(pool).wf(),
            final(pool).regions == old(pool).regions,
            final(pool).current == old(pool).current,
            final(pool).chunks.len() == old(pool).chunks.len(),
            forall|j: int|
                0 <= j < final(pool).chunks.len() ==> (#[trigger] final(pool).chunks[j]).region == old(pool).chunks[j].region,
            forall|j: int|
                0 <= j < final(pool).chunks.len() && old(pool).in_subtree(
                    old(pool).chunks[j].region as int,
                    self.memcxt as int,
                ) ==> (#[trigger] final(pool).chunks[j]).data is None,
            forall|j: int|
                0 <= j < final(pool).chunks.len() && !old(pool).in_subtree(
                    old(pool).chunks[j].region as int,
                    self.memcxt as int,
                ) ==> #[trigger] final(pool).chunks[j] == old(pool).chunks[j],
    {
        let ghost prior = *pool;
        let n = pool.chunks.len();
        let mut j: usize = 0;
        while j < n
            invariant
                pool.wf(),
                prior.wf(),
                self.memcxt < prior.regions.len(),
                pool.regions == prior.regions,
                pool.current == prior.current,
                pool.chunks.len() == n,
                n == prior.chunks.len(),
                j <= n,
                forall|k: int|
                    0 <= k < n ==> (#[trigger] pool.chunks[k]).region
                        == prior.chunks[k].region,
                forall|k: int|
                    0 <= k < j && prior.in_subtree(
                        prior.chunks[k].region as int,
                        self.memcxt as int,
                    ) ==> (#[trigger] pool.chunks[k]).data is None,
                forall|k: int|
                    0 <= k < n && !(k < j && prior.in_subtree(
                        prior.chunks[k].region as int,
                        self.memcxt as int,
                    )) ==> #[trigger] pool.chunks[k] == prior.chunks[k],
            decreases n - j,
        {
            let region = pool.chunks[j].region;
            proof {
                lemma_in_subtree_same_parents(*pool, prior, region as int, self.memcxt as int);
            }
            if pool.region_in_subtree(region, self.memcxt) {
                pool.chunks.set(j, MemChunk { region, data: None });
            }
            j += 1;
        }
    }

    /// Free every chunk allocated in this region only, leaving child
    /// regions' chunks untouched.
    pub fn reset_only(&self, pool: &mut MemPool)
        requires
            old(pool).wf(),
            self.valid(*old(pool)),
            self.memcxt >= PERMANENT_REGIONS,
        ensures
            final(pool).wf(),
            final(pool).regions == old(pool).regions,
            final(pool).current == old(pool).current,
            final(pool).chunks.len() == old(pool).chunks.len(),
            forall|j: int|
                0 <= j < final(pool).chunks.len() && old(pool).chunks[j].region == self.memcxt
                    ==> (#[trigger] final(pool).chunks[j]).data is None,
            forall|j: int|
                0 <= j < final(pool).chunks.len() && old(pool).chunks[j].region != self.memcxt
                    ==> #[trigger] final(pool).chunks[j] == old(pool).chunks[j],
    {
        let ghost prior = *pool;
        let n = pool.chunks.len();
        let mut j: usize = 0;
        while j < n
            invariant
                pool.wf(),
                pool.regions == prior.regions,
                pool.current == prior.current,
                pool.chunks.len() == n,
                n == prior.chunks.len(),
                j <= n,
                forall|k: int|
                    0 <= k < j && prior.chunks[k].region == self.memcxt
                        ==> (#[trigger] pool.chunks[k]).data is None
                            && pool.chunks[k].region == prior.chunks[k].region,
                forall|k: int|
                    0 <= k < n && !(k < j && prior.chunks[k].region == self.memcxt)
                        ==> #[trigger] pool.chunks[k] == prior.chunks[k],
            decreases n - j,
        {
            let region = pool.chunks[j].region;
            if region == self.memcxt {
                pool.chunks.set(j, MemChunk { region, data: None });
            }
            j += 1;
        }
    }

    /// Tear down this region and every child region, freeing all their
    /// chunks. Afterwards none of them is usable.
    ///
    /// The current region must not lie in the deleted subtree, and the
    /// host's permanent regions must not be deleted by guest code.
    #[verifier::rlimit(50)]
    pub fn delete(self, pool: &mut MemPool)
        requires
            old(pool).wf(),
            self.valid(*old(pool)),
            self.memcxt >= PERMANENT_REGIONS,
            !old(pool).in_subtree(old(pool).current as int, self.memcxt as int),
        ensures
            final(pool).wf(),
            final(pool).regions.len() == old(pool).regions.len(),
            final(pool).current == old(pool).current,
            final(pool).chunks.len() == old(pool).chunks.len(),
            forall|i: int|
                0 <= i < final(pool).regions.len() ==> (#[trigger] final(pool).regions[i]).parent == old(pool).regions[i].parent,
            forall|i: int|
                0 <= i < final(pool).regions.len() && old(pool).in_subtree(i, self.memcxt as int)
                    ==> !(#[trigger] final(pool).regions[i]).alive,
            forall|i: int|
                0 <= i < final(pool).regions.len() && !old(pool).in_subtree(i, self.memcxt as int)
                    ==> #[trigger] final(pool).regions[i] == old(pool).regions[i],
            forall|j: int|
                0 <= j < final(pool).chunks.len() && old(pool).in_subtree(
                    old(pool).chunks[j].region as int,
                    self.memcxt as int,
                ) ==> (#[trigger] final(pool).chunks[j]).data is None,
            forall|j: int|
                0 <= j < final(pool).chunks.len() && !old(pool).in_subtree(
                    old(pool).chunks[j].region as int,
                    self.memcxt as int,
                ) ==> #[trigger] final(pool).chunks[j] == old(pool).chunks[j],
    {
        let ghost prior = *pool;
        let nr = pool.regions.len();
        let mut i: usize = 0;
        while i < nr
            invariant
                prior.wf(),
                self.memcxt >= PERMANENT_REGIONS,
                self.memcxt < prior.regions.len(),
                !prior.in_subtree(prior.current as int, self.memcxt as int),
                pool.regions.len() == nr,
                nr == prior.regions.len(),
                pool.chunks == prior.chunks,
                pool.current == prior.current,
                i <= nr,
                pool.parents_wf(),
                forall|k: int|
                    0 <= k < nr ==> (#[trigger] pool.regions[k]).parent
                        == prior.regions[k].parent,
                forall|k: int|
                    0 <= k < i && prior.in_subtree(k, self.memcxt as int)
                        ==> !(#[trigger] pool.regions[k]).alive,
                forall|k: int|
                    0 <= k < nr && !(k < i && prior.in_subtree(k, self.memcxt as int))
                        ==> #[trigger] pool.regions[k] == prior.regions[k],
            decreases nr - i,
        {
            proof {
                // Subtree membership only looks at parent links, which this
                // loop never changes.
                lemma_in_subtree_same_parents(*pool, prior, i as int, self.memcxt as int);
            }
            if pool.region_in_subtree(i, self.memcxt) {
                let parent = pool.regions[i].parent;
                pool.regions.set(i, MemRegion { parent, alive: false });
            }
            i += 1;
        }
        let ghost mid = *pool;
        let nc = pool.chunks.len();
        let mut j: usize = 0;
        while j < nc
            invariant
                prior.wf(),
                self.memcxt < prior.regions.len(),
                pool.parents_wf(),
                pool.regions == mid.regions,
                pool.regions.len() == prior.regions.len(),
                forall|k: int|
                    0 <= k < prior.regions.len() ==> (#[trigger] pool.regions[k]).parent
                        == prior.regions[k].parent,
                pool.current == prior.current,
                pool.chunks.len() == nc,
                nc == prior.chunks.len(),
                j <= nc,
                forall|k: int|
                    0 <= k < nc ==> (#[trigger] pool.chunks[k]).region
                        == prior.chunks[k].region,
                forall|k: int|
                    0 <= k < j && prior.in_subtree(
                        prior.chunks[k].region as int,
                        self.memcxt as int,
                    ) ==> (#[trigger] pool.chunks[k]).data is None,
                forall|k: int|
                    0 <= k < nc && !(k < j && prior.in_subtree(
                        prior.chunks[k].region as int,
                        self.memcxt as int,
                    )) ==> #[trigger] pool.chunks[k] == prior.chunks[k],
            decreases nc - j,
        {
            let region = pool.chunks[j].region;
            proof {
                lemma_in_subtree_same_parents(*pool, prior, region as int, self.memcxt as int);
            }
            if pool.region_in_subtree(region, self.memcxt) {
                pool.chunks.set(j, MemChunk { region, data: None });
            }
            j += 1;
        }
        proof {
            lemma_delete_preserves_wf(prior, *pool, self.memcxt as int);
        }
    }

    /// Make this region current, remembering the prior current region so
    /// that [`PgMemoryContext::restore`] can put it back.
    pub fn switch_to(&mut self, pool: &mut MemPool)
        requires
            old(pool).wf(),
            old(self).valid(*old(pool)),
        ensures
            final(pool).wf(),
            final(pool).regions == old(pool).regions,
            final(pool).chunks == old(pool).chunks,
            final(pool).current == old(self).memcxt,
            final(self).memcxt == old(self).memcxt,
            final(self).savedcxt == Some(old(pool).current),
    {
        self.savedcxt = Some(pool.current);
        pool.current = self.memcxt;
    }

    /// Restore the region that was current before the matching
    /// [`PgMemoryContext::switch_to`]. Does nothing if no switch is in
    /// effect.
    ///
    /// The caller must not have deleted the saved region in the meantime.
    pub fn restore(&mut self, pool: &mut MemPool)
        requires
            old(pool).wf(),
            old(self).savedcxt matches Some(saved) ==> saved < old(pool).regions.len()
                && old(pool).regions[saved as int].alive,
        ensures
            final(pool).wf(),
            final(pool).regions == old(pool).regions,
            final(pool).chunks == old(pool).chunks,
            final(pool).current == if old(self).savedcxt is Some {
                old(self).savedcxt.unwrap()
            } else {
                old(pool).current
            },
            final(self).memcxt == old(self).memcxt,
            final(self).savedcxt is None,
    {
        match self.savedcxt {
            Some(saved) => {
                pool.current = saved;
                self.savedcxt = None;
            },
            None => {},
        }
    }

    /// Run `f` with this region as current, restoring the prior current
    /// region afterwards whatever `f` did to the register. This is the
    /// sanctioned way of temporarily adopting a region.
    pub fn exec_in_context<R, F: FnOnce(MemPool) -> (MemPool, R)>(
        self,
        pool: MemPool,
        f: F,
    ) -> (r: (MemPool, R))
        requires
            pool.wf(),
            self.valid(pool),
            call_requires(f, (MemPool { current: self.memcxt, ..pool },)),
            forall|q: MemPool, x: R|
                #[trigger] call_ensures(f, (MemPool { current: self.memcxt, ..pool },), (q, x))
                    ==> pool.current < q.regions.len() && q.regions[pool.current as int].alive,
        ensures
            r.0.current == pool.current,
            exists|q: MemPool, x: R|
                call_ensures(f, (MemPool { current: self.memcxt, ..pool },), (q, x))
                    && r.0 == (MemPool { current: pool.current, ..q }) && r.1 == x,
    {
        let saved = pool.current;
        let mut p = pool;
        p.current = self.memcxt;
        let (mut q, x) = f(p);
        q.current = saved;
        (q, x)
    }

    /// Derive a named child region of this region with explicit sizing.
    ///
    /// The name and the sizing parameters steer the host's block management
    /// and have no observable effect in this model.
    #[verifier::rlimit(50)]
    pub fn create(
        &self,
        pool: &mut MemPool,
        name: &str,
        min_context_size: usize,
        initial_block_size: usize,
        max_block_size: usize,
    ) -> (r: PgMemoryContext)
        requires
            old(pool).wf(),
            self.valid(*old(pool)),
        ensures
            final(pool).wf(),
            final(pool).chunks == old(pool).chunks,
            final(pool).current == old(pool).current,
            final(pool).regions.len() == old(pool).regions.len() + 1,
            forall|i: int|
                0 <= i < old(pool).regions.len() ==> #[trigger] final(pool).regions[i] == old(pool).regions[i],
            r.memcxt == old(pool).regions.len(),
            r.savedcxt is None,
            final(pool).regions[r.memcxt as int] == (MemRegion { parent: self.memcxt, alive: true }),
            r.memcxt >= PERMANENT_REGIONS,
            r.valid(*final(pool)),
    {
        let child = pool.regions.len();
        pool.regions.push(MemRegion { parent: self.memcxt, alive: true });
        PgMemoryContext { memcxt: child, savedcxt: None }
    }

    /// Derive a named child region with the host's default sizing.
    pub fn create_with_defaults(&self, pool: &mut MemPool, name: &str) -> (r: PgMemoryContext)
        requires
            old(pool).wf(),
            self.valid(*old(pool)),
        ensures
            final(pool).wf(),
            final(pool).chunks == old(pool).chunks,
            final(pool).current == old(pool).current,
            final(pool).regions.len() == old(pool).regions.len() + 1,
            forall|i: int|
                0 <= i < old(pool).regions.len() ==> #[trigger] final(pool).regions[i] == old(pool).regions[i],
            r.memcxt == old(pool).regions.len(),
            r.savedcxt is None,
            final(pool).regions[r.memcxt as int] == (MemRegion { parent: self.memcxt, alive: true }),
            r.memcxt >= PERMANENT_REGIONS,
            r.valid(*final(pool)),
    {
        self.create(pool, name, 0, 8192, 8 * 1024 * 1024)
    }
}

/// An allocator handle designating one region, used by the value-marshaling
/// layer for conversions that own storage.
///
/// This is the same region handle as [`PgMemoryContext`] without the saved
/// switch state; it guarantees that all memory it frees is freed through the
/// region that owns it.
#[derive(Clone, Copy, PartialEq, Eq, Structural, Debug)]
pub struct PgAllocator {
    /// The region allocations are charged to.
    pub context: usize,
}

impl PgAllocator {
    /// Whether this handle designates a live region of `pool`.
    pub open spec fn valid(self, pool: MemPool) -> bool {
        self.context < pool.regions.len() && pool.regions[self.context as int].alive
    }

    /// Wrap a raw region handle.
    pub fn from_raw(context: usize) -> (r: PgAllocator)
        ensures
            r.context == context,
    {
        PgAllocator { context }
    }

    /// An allocator for the region that is current right now.
    pub fn current_context(pool: &MemPool) -> (r: PgAllocator)
        requires
            pool.wf(),
        ensures
            r.context == pool.current,
            r.valid(*pool),
    {
        PgAllocator { context: pool.current }
    }

    /// Run `f` with this allocator's region as current, restoring the prior
    /// current region afterwards whatever `f` did to the register.
    pub fn exec<R, F: FnOnce(MemPool) -> (MemPool, R)>(&self, pool: MemPool, f: F) -> (r: (
        MemPool,
        R,
    ))
        requires
            pool.wf(),
            self.valid(pool),
            call_requires(f, (MemPool { current: self.context, ..pool },)),
            forall|q: MemPool, x: R|
                #[trigger] call_ensures(f, (MemPool { current: self.context, ..pool },), (q, x))
                    ==> pool.current < q.regions.len() && q.regions[pool.current as int].alive,
        ensures
            r.0.current == pool.current,
            exists|q: MemPool, x: R|
                call_ensures(f, (MemPool { current: self.context, ..pool },), (q, x)) && r.0 == (
                MemPool { current: pool.current, ..q }) && r.1 == x,
    {
        let saved = pool.current;
        let mut p = pool;
        p.current = self.context;
        let (mut q, x) = f(p);
        q.current = saved;
        (q, x)
    }

    /// Free one chunk through this region's own free routine. The chunk
    /// must have been allocated in this region's subtree.
    fn dealloc(&self, pool: &mut MemPool, h: usize)
        requires
            old(pool).wf(),
            old(pool).chunk_live(h as int),
            old(pool).in_subtree(old(pool).chunk_region(h as int), self.context as int),
        ensures
            final(pool).wf(),
            final(pool).regions == old(pool).regions,
            final(pool).current == old(pool).current,
            final(pool).chunks.len() == old(pool).chunks.len(),
            final(pool).chunks[h as int].region == old(pool).chunks[h as int].region,
            final(pool).chunks[h as int].data is None,
            forall|j: int|
                0 <= j < final(pool).chunks.len() && j != h ==> final(pool).chunks[j]
                    == #[trigger] old(pool).chunks[j],
    {
        let region = pool.chunks[h].region;
        pool.chunks.set(h, MemChunk { region, data: None });
    }
}

/// Types that stand for a raw pointer into arena memory: they can be built
/// from a chunk handle and give it back.
pub trait RawPtr: Sized {
    /// The chunk handle this value stands for.
    spec fn addr_spec(&self) -> usize;

    /// Instantiate from a chunk handle.
    fn from_raw(ptr: usize) -> (r: Self)
        ensures
            r.addr_spec() == ptr,
    ;

    /// Consume this value and hand the chunk handle back.
    fn into_raw(self) -> (r: usize)
        ensures
            r == self.addr_spec(),
    ;

    /// The chunk handle, without giving up ownership.
    fn as_ptr(&self) -> (r: usize)
        ensures
            r == self.addr_spec(),
    ;
}

/// A plain pointer to an arena-resident buffer, such as a variable-length
/// text or byte-array value.
#[derive(Clone, Copy, PartialEq, Eq, Structural, Debug)]
pub struct BufPtr {
    /// The chunk handle pointed at.
    pub ptr: usize,
}

impl RawPtr for BufPtr {
    open spec fn addr_spec(&self) -> usize {
        self.ptr
    }

    fn from_raw(ptr: usize) -> (r: Self) {
        BufPtr { ptr }
    }

    fn into_raw(self) -> (r: usize) {
        self.ptr
    }

    fn as_ptr(&self) -> (r: usize) {
        self.ptr
    }
}

/// Exclusive guest ownership of one arena allocation.
///
/// The value must not outlive its arena, and releasing it invokes the
/// arena's free routine exactly once: [`PgAllocated::release`] consumes the
/// owner, and [`PgAllocated::take_ptr`] gives the storage back to host
/// management instead.
pub struct PgAllocated<T: RawPtr> {
    inner: Option<T>,
    allocator: PgAllocator,
}

impl<T: RawPtr> PgAllocated<T> {
    /// Whether the storage is still owned by this value (neither taken nor
    /// released).
    pub closed spec fn live(self) -> bool {
        self.inner is Some
    }

    /// The chunk handle of the owned storage.
    pub closed spec fn addr(self) -> usize
        recommends
            self.live(),
    {
        self.inner.unwrap().addr_spec()
    }

    /// The allocator whose region owns the storage.
    pub closed spec fn alloc_of(self) -> PgAllocator {
        self.allocator
    }

    /// Adopt storage that was allocated in `memory_context`'s region. This
    /// does not allocate; it only ties the storage to this owner.
    pub fn from_raw(memory_context: &PgAllocator, ptr: usize) -> (r: PgAllocated<T>)
        ensures
            r.live(),
            r.addr() == ptr,
            r.alloc_of() == *memory_context,
    {
        PgAllocated { inner: Some(T::from_raw(ptr)), allocator: *memory_context }
    }

    /// Consume the ownership and hand the chunk handle back; the storage is
    /// host-managed again and will not be freed through this value.
    pub fn take_ptr(&mut self) -> (r: usize)
        requires
            old(self).live(),
        ensures
            r == old(self).addr(),
            !final(self).live(),
            final(self).alloc_of() == old(self).alloc_of(),
    {
        let inner = self.inner.take().unwrap();
        inner.into_raw()
    }

    /// The chunk handle of the owned storage.
    pub fn as_ptr(&self) -> (r: usize)
        requires
            self.live(),
        ensures
            r == self.addr(),
    {
        self.inner.as_ref().unwrap().as_ptr()
    }

    /// Release the owned storage through the arena's free routine. Taking
    /// `self` by value makes a second release impossible; if the pointer was
    /// already taken, nothing is freed.
    pub fn release(self, pool: &mut MemPool)
        requires
            old(pool).wf(),
            self.live() ==> old(pool).chunk_live(self.addr() as int) && old(pool).in_subtree(
                old(pool).chunk_region(self.addr() as int),
                self.alloc_of().context as int,
            ),
        ensures
            final(pool).wf(),
            final(pool).regions == old(pool).regions,
            final(pool).current == old(pool).current,
            final(pool).chunks.len() == old(pool).chunks.len(),
            self.live() ==> final(pool).chunks[self.addr() as int].data is None,
            forall|j: int|
                0 <= j < final(pool).chunks.len() && !(self.live() && j == self.addr())
                    ==> final(pool).chunks[j] == #[trigger] old(pool).chunks[j],
    {
        let PgAllocated { inner, allocator } = self;
        match inner {
            Some(t) => {
                let h = t.into_raw();
                allocator.dealloc(pool, h);
            },
            None => {},
        }
    }
}

/// Walking parent links can only reach earlier regions, so a region with a
/// smaller index than `root` is never in `root`'s subtree.
proof fn lemma_in_subtree_bound(pool: MemPool, i: int, root: int)
    requires
        pool.parents_wf(),
        0 <= i < root,
    ensures
        !pool.in_subtree(i, root),
    decreases i,
{
    if 0 < i < pool.regions.len() && pool.regions[i].parent < i {
        lemma_in_subtree_bound(pool, pool.regions[i].parent as int, root);
    }
}

/// Subtree membership depends only on the parent links, so it transfers
/// between two pools whose regions agree on parents.
proof fn lemma_in_subtree_same_parents(a: MemPool, b: MemPool, i: int, root: int)
    requires
        a.regions.len() == b.regions.len(),
        forall|k: int|
            0 <= k < a.regions.len() ==> (#[trigger] a.regions[k]).parent
                == b.regions[k].parent,
    ensures
        a.in_subtree(i, root) == b.in_subtree(i, root),
    decreases (if i >= 0 { i } else { 0 }),
{
    if i != root && 0 < i < a.regions.len() && a.regions[i].parent < i {
        lemma_in_subtree_same_parents(a, b, a.regions[i].parent as int, root);
    }
}

/// Deleting a subtree below a live, non-permanent region keeps the pool
/// well-formed: live regions outside the subtree cannot have a parent inside
/// it, because subtrees are closed downward.
proof fn lemma_delete_preserves_wf(prior: MemPool, after: MemPool, root: int)
    requires
        prior.wf(),
        PERMANENT_REGIONS <= root < prior.regions.len(),
        !prior.in_subtree(prior.current as int, root),
        after.regions.len() == prior.regions.len(),
        after.chunks.len() == prior.chunks.len(),
        after.current == prior.current,
        forall|i: int|
            0 <= i < after.regions.len() ==> (#[trigger] after.regions[i]).parent
                == prior.regions[i].parent,
        forall|i: int|
            0 <= i < after.regions.len() && prior.in_subtree(i, root)
                ==> !(#[trigger] after.regions[i]).alive,
        forall|i: int|
            0 <= i < after.regions.len() && !prior.in_subtree(i, root)
                ==> #[trigger] after.regions[i] == prior.regions[i],
        forall|j: int|
            0 <= j < after.chunks.len() ==> (#[trigger] after.chunks[j]).region
                == prior.chunks[j].region,
    ensures
        after.wf(),
{
    assert forall|i: int| 0 <= i < PERMANENT_REGIONS implies (
    #[trigger] after.regions[i]).alive by {
        lemma_in_subtree_bound(prior, i, root);
    }
    assert forall|i: int|
        1 <= i < after.regions.len() && (#[trigger] after.regions[i]).alive implies after.regions[
        after.regions[i].parent as int].alive by {
        let p = prior.regions[i].parent as int;
        assert(!prior.in_subtree(i, root));
        // If the parent were in the subtree, i would be too.
        if prior.in_subtree(p, root) {
            assert(prior.in_subtree(i, root));
        }
        assert(prior.regions[p].alive);
    }
    assert(!prior.in_subtree(prior.current as int, root));
    assert(after.regions[after.current as int].alive);
}

} // verus!
