use flo_engine::pool::{MemoryBlock, MemoryPool, MemoryPoolManager};

const MIB: u64 = 1024 * 1024;

fn overlap(a: &MemoryBlock, b: &MemoryBlock) -> bool {
    a.allocation_index == b.allocation_index && a.offset < b.offset + b.size && b.offset < a.offset
        + a.size
}

#[test]
fn empty_pool_grows_one_chunk_of_chunk_size() {
    // A 10 MiB request against an empty pool configured with 256 MiB
    // chunks creates exactly one chunk, sized 256 MiB, not 10 MiB, and
    // one free region holding the rest of the chunk.
    let mut pool = MemoryPool::new(0, 256 * MIB);
    let block = pool.allocate(10 * MIB, 256);
    assert_eq!(pool.allocations.len(), 1);
    assert_eq!(pool.allocations[0], 256 * MIB);
    assert_eq!(pool.total_allocated, 1);
    assert_eq!(block.offset, 0);
    assert_eq!(block.size, 10 * MIB);
    assert_eq!(block.allocation_index, 0);
    assert_eq!(pool.free_regions.len(), 1);
    assert_eq!(pool.free_regions[0].allocation_index, 0);
    assert_eq!(pool.free_regions[0].offset, 10 * MIB);
    assert_eq!(pool.free_regions[0].size, 256 * MIB - 10 * MIB);
}

#[test]
fn chunk_size_is_raised_to_minimum() {
    let pool = MemoryPool::new(3, 1024);
    assert_eq!(pool.allocation_size, 256 * MIB);
    assert_eq!(pool.memory_type_index, 3);
}

#[test]
fn oversized_request_gets_its_own_chunk() {
    let mut pool = MemoryPool::new(0, 256 * MIB);
    let block = pool.allocate(300 * MIB, 256);
    assert_eq!(pool.allocations.len(), 1);
    assert_eq!(pool.allocations[0], 300 * MIB);
    assert_eq!(block.size, 300 * MIB);
}

#[test]
fn offsets_are_aligned_and_blocks_disjoint() {
    let mut pool = MemoryPool::new(0, 256 * MIB);
    let mut blocks = Vec::new();
    for (size, align) in [(100u64, 64u64), (50, 256), (4096, 4096), (1, 2), (777, 128)] {
        let b = pool.allocate(size, align);
        assert_eq!(b.offset % align, 0);
        assert!(b.size >= size);
        blocks.push(b);
    }
    for i in 0..blocks.len() {
        for j in 0..blocks.len() {
            if i != j {
                assert!(!overlap(&blocks[i], &blocks[j]));
            }
        }
    }
}

#[test]
fn aligned_size_is_rounded_up() {
    let mut pool = MemoryPool::new(0, 256 * MIB);
    let b = pool.allocate(100, 64);
    assert_eq!(b.size, 128);
    let b2 = pool.allocate(64, 64);
    assert_eq!(b2.size, 64);
}

#[test]
fn pool_grows_second_chunk_when_first_is_full() {
    // The pool never fails while chunks can still be grown: exhausting
    // the first chunk just adds another.
    let mut pool = MemoryPool::new(0, 256 * MIB);
    let a = pool.allocate(200 * MIB, 256);
    let b = pool.allocate(200 * MIB, 256);
    assert_eq!(pool.allocations.len(), 2);
    assert_eq!(a.allocation_index, 0);
    assert_eq!(b.allocation_index, 1);
    assert!(!overlap(&a, &b));
}

#[test]
fn freed_region_is_reused_first_fit() {
    let mut pool = MemoryPool::new(0, 256 * MIB);
    let a = pool.allocate(1 * MIB, 256);
    let _b = pool.allocate(1 * MIB, 256);
    let a_offset = a.offset;
    pool.free(a);
    // The freed region is appended without coalescing; a same-size
    // request scans first-fit and lands back on the tail region first
    // (the remainder of the chunk precedes the freed record).
    let c = pool.allocate(1 * MIB, 256);
    assert_ne!(c.offset, a_offset);
    pool.free(c);
    // Exhaust the chunk remainder so first-fit reaches the freed records.
    let _d = pool.allocate(253 * MIB, 256);
    let e = pool.allocate(1 * MIB, 256);
    assert_eq!(e.offset, a_offset);
    assert_eq!(pool.allocations.len(), 1);
}

#[test]
fn free_appends_a_free_region() {
    let mut pool = MemoryPool::new(0, 256 * MIB);
    let a = pool.allocate(1 * MIB, 256);
    let regions_before = pool.free_regions.len();
    pool.free(a);
    assert_eq!(pool.free_regions.len(), regions_before + 1);
    let last = pool.free_regions[pool.free_regions.len() - 1];
    assert_eq!(last.offset, 0);
    assert_eq!(last.size, 1 * MIB);
}

#[test]
fn manager_creates_one_pool_per_memory_type() {
    let mut mgr = MemoryPoolManager::new();
    let a = mgr.allocate_buffer(2, 1024, 64);
    let b = mgr.allocate_buffer(7, 1024, 64);
    let c = mgr.allocate_image(2, 2048, 128);
    assert_eq!(a.pool_memory_type, 2);
    assert_eq!(b.pool_memory_type, 7);
    assert_eq!(c.pool_memory_type, 2);
    let stats = mgr.get_stats();
    assert_eq!(stats.total_pools, 2);
    assert_eq!(stats.total_allocations, 2);
}

#[test]
fn manager_free_returns_block_to_its_pool() {
    let mut mgr = MemoryPoolManager::new();
    let a = mgr.allocate_buffer(1, 1024, 64);
    mgr.free_buffer(a);
    assert_eq!(mgr.pools.len(), 1);
    assert_eq!(mgr.pools[0].free_regions.len(), 2);
}

#[test]
fn staging_buffer_grows_to_largest_request_and_never_shrinks() {
    let mut mgr = MemoryPoolManager::new();
    assert_eq!(mgr.staging_size, 0);
    let g1 = mgr.get_staging_buffer(1000);
    assert_eq!(mgr.staging_size, 16 * MIB);
    assert_eq!(g1, 1);
    let g2 = mgr.get_staging_buffer(20 * MIB);
    assert_eq!(mgr.staging_size, 20 * MIB);
    assert_eq!(g2, 2);
    let g3 = mgr.get_staging_buffer(1 * MIB);
    assert_eq!(mgr.staging_size, 20 * MIB);
    assert_eq!(g3, 2);
}
