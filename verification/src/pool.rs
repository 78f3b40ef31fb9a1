//! The pooled device-memory allocator.
//!
//! A pool owns a list of coarse chunks of one memory type and hands out
//! aligned sub-allocations from a first-fit free list.  Freed blocks are
//! appended to the free list without coalescing.  The caller performs the
//! actual driver allocation for each chunk the pool decides to grow; a
//! chunk is identified here by its index, and a handed-out block carries
//! its chunk index, byte offset and size.

use vstd::prelude::*;
use vstd::arithmetic::div_mod::{
    lemma_fundamental_div_mod,
    lemma_mod_bound,
    lemma_mod_multiples_basic,
};

verus! {

/// Upper bound on every size and offset the pool works with; keeps all
/// offset arithmetic inside `u64`.
pub const MAX_POOL_BYTES: u64 = 0x4000_0000_0000_0000;

/// Default minimum size of a coarse chunk: 256 MiB.
pub const MIN_CHUNK_SIZE: u64 = 0x1000_0000;

/// Minimum size of the shared staging buffer: 16 MiB.
pub const MIN_STAGING_SIZE: u64 = 0x100_0000;

/// The mathematical picture of one sub-allocated region: the coarse chunk
/// it lies in and its byte range there.
pub struct RegionModel {
    pub chunk: int,
    pub offset: int,
    pub size: int,
}

/// Two regions do not share a byte.
pub open spec fn regions_disjoint(a: RegionModel, b: RegionModel) -> bool {
    ||| a.chunk != b.chunk
    ||| a.offset + a.size <= b.offset
    ||| b.offset + b.size <= a.offset
}

/// `x` rounded up to the next multiple of `a`.
pub open spec fn spec_align_up(x: int, a: int) -> int {
    ((x + a - 1) / a) * a
}

pub proof fn lemma_align_up(x: int, a: int)
    requires
        x >= 0,
        a >= 1,
    ensures
        spec_align_up(x, a) % a == 0,
        x <= spec_align_up(x, a) <= x + a - 1,
{
    let q = (x + a - 1) / a;
    let m = (x + a - 1) % a;
    lemma_fundamental_div_mod(x + a - 1, a);
    lemma_mod_bound(x + a - 1, a);
    lemma_mod_multiples_basic(q, a);
    assert(x + a - 1 == a * q + m);
    assert(q * a == a * q) by (nonlinear_arith);
}

/// One record of the free list: an unused region of a coarse chunk.
#[derive(Clone, Copy, Debug)]
pub struct FreeRegion {
    pub allocation_index: usize,
    pub offset: u64,
    pub size: u64,
}

impl FreeRegion {
    pub open spec fn region(self) -> RegionModel {
        RegionModel { chunk: self.allocation_index as int, offset: self.offset as int, size: self.size as int }
    }
}

/// A sub-allocation handed out by a pool.  It is owned by exactly one
/// buffer or image and is freed exactly once back to its pool.
#[derive(Clone, Copy, Debug)]
pub struct MemoryBlock {
    pub allocation_index: usize,
    pub offset: u64,
    pub size: u64,
    pub pool_memory_type: u32,
}

impl MemoryBlock {
    pub open spec fn region(self) -> RegionModel {
        RegionModel { chunk: self.allocation_index as int, offset: self.offset as int, size: self.size as int }
    }
}

/// Whether a free region can serve a request, padding for alignment
/// included.
pub open spec fn spec_region_fits(fr: RegionModel, size: int, alignment: int) -> bool {
    fr.size >= spec_align_up(size, alignment) + (spec_align_up(fr.offset, alignment) - fr.offset)
}

/// A memory pool for one memory type: coarse chunk sizes (one driver
/// allocation each, identified by index) and the free list over them.
/// The ghost `live` sequence holds every block handed out and not yet
/// freed; the pool's invariant keeps live blocks and free regions
/// pairwise disjoint.
pub struct MemoryPool {
    pub allocations: Vec<u64>,
    pub free_regions: Vec<FreeRegion>,
    pub allocation_size: u64,
    pub memory_type_index: u32,
    pub total_allocated: usize,
    pub live: Ghost<Seq<RegionModel>>,
}

impl MemoryPool {
    pub open spec fn region_in_bounds(self, r: RegionModel) -> bool {
        &&& 0 <= r.chunk < self.allocations@.len()
        &&& 0 <= r.offset
        &&& 0 <= r.size
        &&& r.offset + r.size <= self.allocations@[r.chunk]
    }

    pub open spec fn wf(self) -> bool {
        &&& self.total_allocated == self.allocations@.len()
        &&& MIN_CHUNK_SIZE <= self.allocation_size <= MAX_POOL_BYTES
        &&& forall|c: int|
            0 <= c < self.allocations@.len() ==> #[trigger] self.allocations@[c] <= MAX_POOL_BYTES
        &&& forall|i: int|
            0 <= i < self.free_regions@.len() ==> self.region_in_bounds(
                #[trigger] self.free_regions@[i].region(),
            )
        &&& forall|i: int|
            0 <= i < self.live@.len() ==> self.region_in_bounds(#[trigger] self.live@[i])
        &&& forall|i: int| 0 <= i < self.live@.len() ==> (#[trigger] self.live@[i]).size >= 1
        &&& forall|i: int, j: int|
            0 <= i < j < self.free_regions@.len() ==> regions_disjoint(
                #[trigger] self.free_regions@[i].region(),
                #[trigger] self.free_regions@[j].region(),
            )
        &&& forall|i: int, j: int|
            0 <= i < self.live@.len() && 0 <= j < self.live@.len() && i != j ==> regions_disjoint(
                #[trigger] self.live@[i],
                #[trigger] self.live@[j],
            )
        &&& forall|i: int, j: int|
            0 <= i < self.free_regions@.len() && 0 <= j < self.live@.len() ==> regions_disjoint(
                #[trigger] self.free_regions@[i].region(),
                #[trigger] self.live@[j],
            )
    }

    /// A fresh, empty pool for one memory type; the configured chunk size
    /// is raised to the 256 MiB minimum.
    pub fn new(memory_type_index: u32, allocation_size: u64) -> (r: MemoryPool)
        requires
            allocation_size <= MAX_POOL_BYTES,
        ensures
            r.wf(),
            r.memory_type_index == memory_type_index,
            r.allocations@.len() == 0,
            r.free_regions@.len() == 0,
            r.live@ == Seq::<RegionModel>::empty(),
            r.allocation_size == if allocation_size >= MIN_CHUNK_SIZE {
                allocation_size
            } else {
                MIN_CHUNK_SIZE
            },
    {
        let chunk = if allocation_size >= MIN_CHUNK_SIZE {
            allocation_size
        } else {
            MIN_CHUNK_SIZE
        };
        MemoryPool {
            allocations: Vec::new(),
            free_regions: Vec::new(),
            allocation_size: chunk,
            memory_type_index,
            total_allocated: 0,
            live: Ghost(Seq::empty()),
        }
    }

    /// First free region that can serve the request, if any.
    pub open spec fn spec_first_fit(self, size: int, alignment: int) -> Option<int> {
        if exists|i: int|
            0 <= i < self.free_regions@.len() && spec_region_fits(
                #[trigger] self.free_regions@[i].region(),
                size,
                alignment,
            ) {
            Some(
                choose|i: int|
                    {
                        &&& 0 <= i < self.free_regions@.len()
                        &&& spec_region_fits(#[trigger] self.free_regions@[i].region(), size, alignment)
                        &&& forall|j: int|
                            0 <= j < i ==> !spec_region_fits(
                                #[trigger] self.free_regions@[j].region(),
                                size,
                                alignment,
                            )
                    },
            )
        } else {
            None
        }
    }

    /// Sub-allocate `size` bytes at a multiple of `alignment`.
    ///
    /// First-fit over the free list; the serving region is split (its
    /// alignment padding is abandoned) or fully consumed.  On a miss
    /// the pool grows one new chunk of `max(allocation_size, aligned
    /// size)`, carves the block from its start and keeps the remainder
    /// as a new free region, so a request never fails (the caller
    /// performs the driver allocation for the new chunk and may abort
    /// on its own failure).  The returned offset is aligned, and the
    /// new block is disjoint from every block already live.
    pub fn allocate(&mut self, size: u64, alignment: u64) -> (r: MemoryBlock)
        requires
            old(self).wf(),
            1 <= size,
            1 <= alignment,
            size + alignment <= MAX_POOL_BYTES,
        ensures
            final(self).wf(),
            final(self).memory_type_index == old(self).memory_type_index,
            final(self).allocation_size == old(self).allocation_size,
            r.pool_memory_type == final(self).memory_type_index,
            r.size == spec_align_up(size as int, alignment as int),
            r.offset % alignment == 0,
            final(self).live@ == old(self).live@.push(r.region()),
            forall|k: int|
                0 <= k < old(self).live@.len() ==> regions_disjoint(
                    #[trigger] old(self).live@[k],
                    r.region(),
                ) && old(self).live@[k] != r.region(),
            old(self).spec_first_fit(size as int, alignment as int) is Some ==> {
                &&& final(self).allocations@ == old(self).allocations@
                &&& exists|i: int|
                    {
                        &&& 0 <= i < old(self).free_regions@.len()
                        &&& spec_region_fits(
                            #[trigger] old(self).free_regions@[i].region(),
                            size as int,
                            alignment as int,
                        )
                        &&& forall|j: int|
                            0 <= j < i ==> !spec_region_fits(
                                #[trigger] old(self).free_regions@[j].region(),
                                size as int,
                                alignment as int,
                            )
                        &&& r.allocation_index == old(self).free_regions@[i].allocation_index
                        &&& r.offset == spec_align_up(
                            old(self).free_regions@[i].offset as int,
                            alignment as int,
                        )
                        &&& ({
                            let asize = spec_align_up(size as int, alignment as int);
                            let ao = spec_align_up(
                                old(self).free_regions@[i].offset as int,
                                alignment as int,
                            );
                            let pad = ao - old(self).free_regions@[i].offset;
                            &&& (old(self).free_regions@[i].size > asize + pad
                                ==> final(self).free_regions@ == old(self).free_regions@.update(
                                i,
                                FreeRegion {
                                    allocation_index: old(
                                        self,
                                    ).free_regions@[i].allocation_index,
                                    offset: (ao + asize) as u64,
                                    size: (old(self).free_regions@[i].size - asize - pad) as u64,
                                },
                            ))
                            &&& (old(self).free_regions@[i].size == asize + pad
                                ==> final(self).free_regions@ == old(self).free_regions@.remove(
                                    i,
                                ))
                        })
                    }
            },
            old(self).spec_first_fit(size as int, alignment as int) is None ==> {
                let asize = spec_align_up(size as int, alignment as int);
                let chunk = if old(self).allocation_size as int >= asize {
                    old(self).allocation_size as int
                } else {
                    asize
                };
                &&& final(self).allocations@ == old(self).allocations@.push(chunk as u64)
                &&& r.allocation_index == old(self).allocations@.len()
                &&& r.offset == 0
                &&& (chunk > asize ==> final(self).free_regions@ == old(self).free_regions@.push(
                    FreeRegion {
                        allocation_index: old(self).allocations@.len() as usize,
                        offset: asize as u64,
                        size: (chunk - asize) as u64,
                    },
                ))
                &&& (chunk == asize ==> final(self).free_regions@ == old(self).free_regions@)
            },
    {
        proof {
            lemma_align_up(size as int, alignment as int);
        }
        let aligned_size = align_up_u64(size, alignment);
        let ghost first_fit = old(self).spec_first_fit(size as int, alignment as int);
        let mut i: usize = 0;
        while i < self.free_regions.len()
            invariant
                self == old(self),
                old(self).wf(),
                1 <= size,
                1 <= alignment,
                size + alignment <= MAX_POOL_BYTES,
                aligned_size == spec_align_up(size as int, alignment as int),
                size <= aligned_size <= size + alignment - 1,
                first_fit == old(self).spec_first_fit(size as int, alignment as int),
                0 <= i <= self.free_regions@.len(),
                forall|j: int|
                    0 <= j < i ==> !spec_region_fits(
                        #[trigger] self.free_regions@[j].region(),
                        size as int,
                        alignment as int,
                    ),
            decreases self.free_regions@.len() - i,
        {
            let region = self.free_regions[i];
            proof {
                assert(self.region_in_bounds(region.region()));
                lemma_align_up(region.offset as int, alignment as int);
            }
            let aligned_offset = align_up_u64(region.offset, alignment);
            let padding = aligned_offset - region.offset;
            if region.size >= aligned_size && region.size - aligned_size >= padding {
                proof {
                    assert(spec_region_fits(
                        old(self).free_regions@[i as int].region(),
                        size as int,
                        alignment as int,
                    ));
                    assert(exists|ii: int|
                        0 <= ii < old(self).free_regions@.len() && spec_region_fits(
                            #[trigger] old(self).free_regions@[ii].region(),
                            size as int,
                            alignment as int,
                        ));
                    assert(first_fit is Some);
                }
                let block = MemoryBlock {
                    allocation_index: region.allocation_index,
                    offset: aligned_offset,
                    size: aligned_size,
                    pool_memory_type: self.memory_type_index,
                };
                if region.size - aligned_size > padding {
                    let replacement = FreeRegion {
                        allocation_index: region.allocation_index,
                        offset: aligned_offset + aligned_size,
                        size: region.size - aligned_size - padding,
                    };
                    self.free_regions.set(i, replacement);
                } else {
                    self.free_regions.remove(i);
                }
                proof {
                    self.live@ = self.live@.push(block.region());
                    assert forall|k: int| 0 <= k < old(self).live@.len() implies regions_disjoint(
                        #[trigger] old(self).live@[k],
                        block.region(),
                    ) && old(self).live@[k] != block.region() by {
                        assert(regions_disjoint(
                            old(self).free_regions@[i as int].region(),
                            old(self).live@[k],
                        ));
                    }
                    assert(self.wf()) by {
                        assert(forall|j: int|
                            0 <= j < self.free_regions@.len() ==> self.region_in_bounds(
                                #[trigger] self.free_regions@[j].region(),
                            ));
                    }
                }
                return block;
            }
            proof {
                assert(!spec_region_fits(region.region(), size as int, alignment as int));
            }
            i = i + 1;
        }
        proof {
            assert(first_fit is None);
        }
        // No free region fits: grow one coarse chunk and carve from its start.
        let chunk_size = if self.allocation_size >= aligned_size {
            self.allocation_size
        } else {
            aligned_size
        };
        let allocation_index = self.allocations.len();
        self.allocations.push(chunk_size);
        self.total_allocated = self.allocations.len();
        let block = MemoryBlock {
            allocation_index,
            offset: 0,
            size: aligned_size,
            pool_memory_type: self.memory_type_index,
        };
        if chunk_size > aligned_size {
            self.free_regions.push(
                FreeRegion {
                    allocation_index,
                    offset: aligned_size,
                    size: chunk_size - aligned_size,
                },
            );
        }
        proof {
            self.live@ = self.live@.push(block.region());
            assert(block.offset as int % alignment as int == 0) by {
                lemma_mod_multiples_basic(0, alignment as int);
            }
            assert forall|k: int| 0 <= k < old(self).live@.len() implies regions_disjoint(
                #[trigger] old(self).live@[k],
                block.region(),
            ) && old(self).live@[k] != block.region() by {
                assert(old(self).live@[k].chunk < old(self).allocations@.len());
            }
        }
        block
    }

    /// Return a block to the pool: its bytes become a new free-list
    /// record.  Adjacent free regions are not coalesced, so long-running
    /// fragmentation is possible.
    pub fn free(&mut self, block: MemoryBlock)
        requires
            old(self).wf(),
            old(self).live@.contains(block.region()),
        ensures
            final(self).wf(),
            final(self).memory_type_index == old(self).memory_type_index,
            final(self).allocation_size == old(self).allocation_size,
            final(self).allocations@ == old(self).allocations@,
            final(self).free_regions@ == old(self).free_regions@.push(
                FreeRegion {
                    allocation_index: block.allocation_index,
                    offset: block.offset,
                    size: block.size,
                },
            ),
            exists|k: int|
                {
                    &&& 0 <= k < old(self).live@.len()
                    &&& old(self).live@[k] == block.region()
                    &&& final(self).live@ == old(self).live@.remove(k)
                },
            forall|r: RegionModel|
                old(self).live@.contains(r) && r != block.region() ==> final(self).live@.contains(r),
            forall|r: RegionModel| final(self).live@.contains(r) ==> old(self).live@.contains(r),
            !final(self).live@.contains(block.region()),
    {
        let freed = FreeRegion {
            allocation_index: block.allocation_index,
            offset: block.offset,
            size: block.size,
        };
        self.free_regions.push(freed);
        proof {
            let k = choose|k: int| 0 <= k < self.live@.len() && self.live@[k] == block.region();
            self.live@ = self.live@.remove(k);
            assert(freed.region() == old(self).live@[k]);
            assert forall|r: RegionModel| self.live@.contains(r) implies old(
                self,
            ).live@.contains(r) by {
                let j = choose|j: int| 0 <= j < self.live@.len() && self.live@[j] == r;
                let oj = if j < k { j } else { j + 1 };
                assert(old(self).live@[oj] == r);
            }
            assert forall|r: RegionModel|
                old(self).live@.contains(r) && r != block.region() implies self.live@.contains(
                r,
            ) by {
                let j = choose|j: int| 0 <= j < old(self).live@.len() && old(self).live@[j] == r;
                if j < k {
                    assert(self.live@[j] == r);
                } else {
                    assert(self.live@[j - 1] == r);
                }
            }
            assert(self.wf()) by {
                assert forall|i: int, j: int|
                    0 <= i < self.live@.len() && 0 <= j < self.live@.len() && i != j
                    implies regions_disjoint(#[trigger] self.live@[i], #[trigger] self.live@[j]) by {
                    let oi = if i < k { i } else { i + 1 };
                    let oj = if j < k { j } else { j + 1 };
                    assert(self.live@[i] == old(self).live@[oi]);
                    assert(self.live@[j] == old(self).live@[oj]);
                }
                assert forall|i: int, j: int|
                    0 <= i < self.free_regions@.len() && 0 <= j < self.live@.len()
                    implies regions_disjoint(
                    #[trigger] self.free_regions@[i].region(),
                    #[trigger] self.live@[j],
                ) by {
                    let oj = if j < k { j } else { j + 1 };
                    assert(self.live@[j] == old(self).live@[oj]);
                    if i < old(self).free_regions@.len() {
                        assert(regions_disjoint(
                            old(self).free_regions@[i].region(),
                            old(self).live@[oj],
                        ));
                    } else {
                        assert(self.free_regions@[i].region() == old(self).live@[k]);
                        assert(regions_disjoint(old(self).live@[k], old(self).live@[oj]));
                    }
                }
                assert forall|i: int, j: int|
                    0 <= i < j < self.free_regions@.len() implies regions_disjoint(
                    #[trigger] self.free_regions@[i].region(),
                    #[trigger] self.free_regions@[j].region(),
                ) by {
                    if j == old(self).free_regions@.len() {
                        assert(self.free_regions@[j].region() == old(self).live@[k]);
                        assert(regions_disjoint(
                            old(self).free_regions@[i].region(),
                            old(self).live@[k],
                        ));
                    }
                }
                assert forall|j: int| 0 <= j < self.live@.len() implies self.region_in_bounds(
                    #[trigger] self.live@[j],
                ) && self.live@[j].size >= 1 by {
                    let oj = if j < k { j } else { j + 1 };
                    assert(self.live@[j] == old(self).live@[oj]);
                }
            }
            assert(!self.live@.contains(block.region())) by {
                if self.live@.contains(block.region()) {
                    let j = choose|j: int|
                        0 <= j < self.live@.len() && self.live@[j] == block.region();
                    let oj = if j < k { j } else { j + 1 };
                    assert(self.live@[j] == old(self).live@[oj]);
                    assert(regions_disjoint(old(self).live@[oj], old(self).live@[k]));
                }
            }
        }
    }
}

/// A prefix sum of chunk counts never exceeds a longer one.
pub proof fn lemma_total_chunks_monotonic(pools: Seq<MemoryPool>, a: int, b: int)
    requires
        0 <= a <= b <= pools.len(),
    ensures
        MemoryPoolManager::spec_total_chunks(pools, a) <= MemoryPoolManager::spec_total_chunks(
            pools,
            b,
        ),
    decreases b - a
{
    if a < b {
        lemma_total_chunks_monotonic(pools, a, b - 1);
    }
}

/// No two blocks simultaneously handed out by one pool share a byte:
/// every returned offset range is private to its owner until freed.
pub proof fn lemma_live_blocks_disjoint(p: MemoryPool, i: int, j: int)
    requires
        p.wf(),
        0 <= i < p.live@.len(),
        0 <= j < p.live@.len(),
        i != j,
    ensures
        regions_disjoint(p.live@[i], p.live@[j]),
{
}

/// The pool never refuses a request: `allocate` always returns a block,
/// growing a fresh chunk of `max(allocation_size, aligned size)` exactly
/// when no free region fits — so a request only fails where the caller's
/// own driver allocation for that one new chunk fails.
pub proof fn lemma_allocate_grows_on_demand(p: MemoryPool, size: u64, alignment: u64)
    requires
        p.wf(),
        1 <= size,
        1 <= alignment,
        size + alignment <= MAX_POOL_BYTES,
    ensures
        p.spec_first_fit(size as int, alignment as int) is None ==> forall|i: int|
            0 <= i < p.free_regions@.len() ==> !spec_region_fits(
                (#[trigger] p.free_regions@[i]).region(),
                size as int,
                alignment as int,
            ),
        (exists|i: int|
            0 <= i < p.free_regions@.len() && spec_region_fits(
                (#[trigger] p.free_regions@[i]).region(),
                size as int,
                alignment as int,
            )) ==> p.spec_first_fit(size as int, alignment as int) is Some,
{
    if p.spec_first_fit(size as int, alignment as int) is None {
        assert forall|i: int| 0 <= i < p.free_regions@.len() implies !spec_region_fits(
            (#[trigger] p.free_regions@[i]).region(),
            size as int,
            alignment as int,
        ) by {
            if spec_region_fits(p.free_regions@[i].region(), size as int, alignment as int) {
                assert(p.spec_first_fit(size as int, alignment as int) is Some);
            }
        }
    }
}

/// Totals reported by the pool manager: how many pools exist and how many
/// coarse driver allocations they hold together.
#[derive(Clone, Copy, Debug, PartialEq, Eq, Structural)]
pub struct PoolStats {
    pub total_pools: usize,
    pub total_allocations: usize,
}

/// All memory pools of the engine, one per memory type encountered, plus
/// the one reusable host-visible staging buffer that serves every upload.
/// The staging buffer is identified by a generation number: it starts at
/// zero (no buffer yet) and each replacement raises it by one.
pub struct MemoryPoolManager {
    pub pools: Vec<MemoryPool>,
    pub staging_size: u64,
    pub staging_generation: u64,
}

impl MemoryPoolManager {
    pub open spec fn wf(self) -> bool {
        &&& forall|p: int| 0 <= p < self.pools@.len() ==> (#[trigger] self.pools@[p]).wf()
        &&& forall|p: int, q: int|
            0 <= p < q < self.pools@.len() ==> (#[trigger] self.pools@[p]).memory_type_index != (
            #[trigger] self.pools@[q]).memory_type_index
    }

    /// A block is currently handed out by the pool of its memory type.
    pub open spec fn block_live(self, b: MemoryBlock) -> bool {
        exists|p: int|
            {
                &&& 0 <= p < self.pools@.len()
                &&& (#[trigger] self.pools@[p]).memory_type_index == b.pool_memory_type
                &&& self.pools@[p].live@.contains(b.region())
            }
    }

    pub fn new() -> (r: MemoryPoolManager)
        ensures
            r.wf(),
            r.pools@.len() == 0,
            r.staging_size == 0,
            r.staging_generation == 0,
    {
        MemoryPoolManager { pools: Vec::new(), staging_size: 0, staging_generation: 0 }
    }

    /// Sub-allocate from the pool of `memory_type_index`, creating that
    /// pool (with the default chunk size) the first time the type is
    /// seen.  The caller binds its buffer to the returned block.
    pub fn allocate_buffer(&mut self, memory_type_index: u32, size: u64, alignment: u64) -> (r:
        MemoryBlock)
        requires
            old(self).wf(),
            1 <= size,
            1 <= alignment,
            size + alignment <= MAX_POOL_BYTES,
        ensures
            final(self).wf(),
            r.pool_memory_type == memory_type_index,
            r.size == spec_align_up(size as int, alignment as int),
            r.offset % alignment == 0,
            final(self).block_live(r),
            !old(self).block_live(r),
            forall|b: MemoryBlock| old(self).block_live(b) ==> final(self).block_live(b),
            forall|b: MemoryBlock|
                old(self).block_live(b) ==> b.pool_memory_type != memory_type_index || b.region()
                    != r.region(),
            final(self).staging_size == old(self).staging_size,
            final(self).staging_generation == old(self).staging_generation,
    {
        let mut p: usize = 0;
        let n = self.pools.len();
        while p < n
            invariant
                self == old(self),
                old(self).wf(),
                n == self.pools@.len(),
                0 <= p <= n,
                forall|q: int|
                    0 <= q < p ==> (#[trigger] self.pools@[q]).memory_type_index
                        != memory_type_index,
            ensures
                self == old(self),
                0 <= p <= n,
                p == n || self.pools@[p as int].memory_type_index == memory_type_index,
                forall|q: int|
                    0 <= q < p ==> (#[trigger] self.pools@[q]).memory_type_index
                        != memory_type_index,
            decreases n - p,
        {
            if self.pools[p].memory_type_index == memory_type_index {
                break;
            }
            p = p + 1;
        }
        if p == n {
            let fresh = MemoryPool::new(memory_type_index, MIN_CHUNK_SIZE);
            self.pools.push(fresh);
        }
        let ghost pools_before_alloc = self.pools@;
        let pool = &mut self.pools[p];
        proof {
            assert(pools_before_alloc[p as int].wf());
        }
        let block = pool.allocate(size, alignment);
        proof {
            assert forall|b: MemoryBlock| old(self).block_live(b) implies final(self).block_live(
                b,
            ) && (b.pool_memory_type != memory_type_index || b.region() != block.region()) by {
                let q = choose|q: int|
                    0 <= q < old(self).pools@.len() && (#[trigger] old(self).pools@[q]).memory_type_index
                        == b.pool_memory_type && old(self).pools@[q].live@.contains(b.region());
                if q == p as int {
                    let k = choose|k: int|
                        0 <= k < old(self).pools@[q].live@.len() && old(self).pools@[q].live@[k]
                            == b.region();
                    assert(self.pools@[q].live@[k] == b.region());
                    assert(self.pools@[q].live@.contains(b.region()));
                } else {
                    assert(self.pools@[q] == old(self).pools@[q]);
                }
            }
            assert(final(self).block_live(block)) by {
                assert(self.pools@[p as int].memory_type_index == block.pool_memory_type);
                assert(self.pools@[p as int].live@.last() == block.region());
                assert(self.pools@[p as int].live@.contains(block.region()));
            }
            assert(!old(self).block_live(block)) by {
                if old(self).block_live(block) {
                    let q = choose|q: int|
                        0 <= q < old(self).pools@.len() && (#[trigger] old(self).pools@[q]).memory_type_index
                            == block.pool_memory_type && old(self).pools@[q].live@.contains(
                            block.region(),
                        );
                    assert(q == p as int);
                }
            }
        }
        block
    }

    /// Sub-allocate for an image; the decision is the same as for a
    /// buffer, only the caller's binding call differs.
    pub fn allocate_image(&mut self, memory_type_index: u32, size: u64, alignment: u64) -> (r:
        MemoryBlock)
        requires
            old(self).wf(),
            1 <= size,
            1 <= alignment,
            size + alignment <= MAX_POOL_BYTES,
        ensures
            final(self).wf(),
            r.pool_memory_type == memory_type_index,
            r.size == spec_align_up(size as int, alignment as int),
            r.offset % alignment == 0,
            final(self).block_live(r),
            !old(self).block_live(r),
            forall|b: MemoryBlock| old(self).block_live(b) ==> final(self).block_live(b),
            final(self).staging_size == old(self).staging_size,
            final(self).staging_generation == old(self).staging_generation,
    {
        self.allocate_buffer(memory_type_index, size, alignment)
    }

    /// Return a block to the pool it came from: its bytes become a new
    /// free-list record of that pool, ready for reuse; no coarse chunk
    /// is released.
    pub fn free_buffer(&mut self, block: MemoryBlock)
        requires
            old(self).wf(),
            old(self).block_live(block),
        ensures
            final(self).wf(),
            forall|b: MemoryBlock|
                old(self).block_live(b) && (b.pool_memory_type != block.pool_memory_type
                    || b.region() != block.region()) ==> final(self).block_live(b),
            !final(self).block_live(block),
            forall|b: MemoryBlock| final(self).block_live(b) ==> old(self).block_live(b),
            // the block's bytes become a new free-list record of its pool,
            // ready for reuse; no chunk is released
            exists|p: int|
                {
                    &&& 0 <= p < old(self).pools@.len()
                    &&& (#[trigger] old(self).pools@[p]).memory_type_index
                        == block.pool_memory_type
                    &&& final(self).pools@ == old(self).pools@.update(p, final(self).pools@[p])
                    &&& final(self).pools@[p].free_regions@ == old(
                        self,
                    ).pools@[p].free_regions@.push(
                        FreeRegion {
                            allocation_index: block.allocation_index,
                            offset: block.offset,
                            size: block.size,
                        },
                    )
                    &&& final(self).pools@[p].allocations@ == old(self).pools@[p].allocations@
                    &&& final(self).pools@[p].memory_type_index == old(
                        self,
                    ).pools@[p].memory_type_index
                },
            final(self).staging_size == old(self).staging_size,
            final(self).staging_generation == old(self).staging_generation,
    {
        let mut p: usize = 0;
        let n = self.pools.len();
        while p < n
            invariant
                self == old(self),
                old(self).wf(),
                old(self).block_live(block),
                n == self.pools@.len(),
                0 <= p <= n,
                forall|q: int|
                    0 <= q < p ==> (#[trigger] self.pools@[q]).memory_type_index
                        != block.pool_memory_type,
            decreases n - p,
        {
            if self.pools[p].memory_type_index == block.pool_memory_type {
                proof {
                    let q = choose|q: int|
                        0 <= q < old(self).pools@.len() && (#[trigger] old(self).pools@[q]).memory_type_index
                            == block.pool_memory_type && old(self).pools@[q].live@.contains(
                            block.region(),
                        );
                    assert(q == p as int);
                }
                let pool = &mut self.pools[p];
                pool.free(block);
                proof {
                    assert forall|b: MemoryBlock| final(self).block_live(b) implies old(
                        self,
                    ).block_live(b) by {
                        let q = choose|q: int|
                            0 <= q < self.pools@.len() && (#[trigger] self.pools@[q]).memory_type_index
                                == b.pool_memory_type && self.pools@[q].live@.contains(b.region());
                        if q == p as int {
                            assert(old(self).pools@[q].live@.contains(b.region()));
                        } else {
                            assert(self.pools@[q] == old(self).pools@[q]);
                        }
                    }
                    assert forall|b: MemoryBlock|
                        old(self).block_live(b) && (b.pool_memory_type != block.pool_memory_type
                            || b.region() != block.region()) implies final(self).block_live(b) by {
                        let q = choose|q: int|
                            0 <= q < old(self).pools@.len() && (#[trigger] old(self).pools@[q]).memory_type_index
                                == b.pool_memory_type && old(self).pools@[q].live@.contains(
                                b.region(),
                            );
                        if q == p as int {
                            assert(b.pool_memory_type == block.pool_memory_type);
                            assert(b.region() != block.region());
                            assert(self.pools@[q].live@.contains(b.region()));
                        } else {
                            assert(self.pools@[q] == old(self).pools@[q]);
                        }
                    }
                }
                return ;
            }
            p = p + 1;
        }
        proof {
            let q = choose|q: int|
                0 <= q < old(self).pools@.len() && (#[trigger] old(self).pools@[q]).memory_type_index
                    == block.pool_memory_type && old(self).pools@[q].live@.contains(block.region());
            assert(false);
        }
    }

    /// Hand out the shared staging buffer for an upload of
    /// `required_size` bytes.  If the current buffer is large enough it
    /// is reused; otherwise it is replaced (the caller destroys the old
    /// one) by a buffer of `max(required_size, 16 MiB)`.  Returns the
    /// generation number identifying the buffer to use.
    pub fn get_staging_buffer(&mut self, required_size: u64) -> (r: u64)
        requires
            old(self).staging_generation < u64::MAX,
        ensures
            old(self).staging_size >= required_size ==> *final(self) == *old(self),
            old(self).staging_size < required_size ==> {
                &&& final(self).staging_size == if required_size >= MIN_STAGING_SIZE {
                    required_size
                } else {
                    MIN_STAGING_SIZE
                }
                &&& final(self).staging_generation == old(self).staging_generation + 1
                &&& final(self).pools == old(self).pools
            },
            r == final(self).staging_generation,
            final(self).staging_size >= required_size,
    {
        if self.staging_size < required_size {
            let size = if required_size >= MIN_STAGING_SIZE {
                required_size
            } else {
                MIN_STAGING_SIZE
            };
            self.staging_size = size;
            self.staging_generation = self.staging_generation + 1;
        }
        self.staging_generation
    }

    /// Total coarse chunks over a prefix of the pools.
    pub open spec fn spec_total_chunks(pools: Seq<MemoryPool>, n: int) -> int
        decreases n when 0 <= n <= pools.len()
    {
        if n <= 0 {
            0
        } else {
            Self::spec_total_chunks(pools, n - 1) + pools[n - 1].allocations@.len()
        }
    }

    /// How many pools exist and how many coarse chunks they hold in all.
    pub fn get_stats(&self) -> (r: PoolStats)
        requires
            self.wf(),
            Self::spec_total_chunks(self.pools@, self.pools@.len() as int) <= usize::MAX,
        ensures
            r.total_pools == self.pools@.len(),
            r.total_allocations == Self::spec_total_chunks(
                self.pools@,
                self.pools@.len() as int,
            ),
    {
        let mut total: usize = 0;
        let mut p: usize = 0;
        while p < self.pools.len()
            invariant
                0 <= p <= self.pools@.len(),
                self.wf(),
                Self::spec_total_chunks(self.pools@, self.pools@.len() as int) <= usize::MAX,
                total == Self::spec_total_chunks(self.pools@, p as int),
            decreases self.pools@.len() - p,
        {
            proof {
                lemma_total_chunks_monotonic(self.pools@, p as int + 1, self.pools@.len() as int);
            }
            let count = self.pools[p].total_allocated;
            total = total + count;
            p = p + 1;
        }
        PoolStats { total_pools: self.pools.len(), total_allocations: total }
    }
}

/// `x` rounded up to the next multiple of `a`.
pub fn align_up_u64(x: u64, a: u64) -> (r: u64)
    requires
        1 <= a,
        x + a <= u64::MAX,
    ensures
        r == spec_align_up(x as int, a as int),
        x <= r,
        r % a == 0,
{
    proof {
        lemma_align_up(x as int, a as int);
    }
    ((x + a - 1) / a) * a
}

} // verus!
