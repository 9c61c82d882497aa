//! The memory pool and its free list.

use curvine_rdma::free_list::{align_size, free_bytes, insert_free_block, take_first_fit, FreeBlock};
use curvine_rdma::memory_pool::RdmaMemoryPool;
use curvine_rdma::types::{
    AddressRkeyPair, DomainAddress, MemoryRegionDescriptor, MemoryRegionHandle,
};

#[test]
fn test_memory_recycling() {
    let pool_size = 1024 * 1024;
    let mut pool = RdmaMemoryPool::new_mock(pool_size);

    let alloc = pool.allocate(100_000).unwrap();
    let (_, allocs, deallocs, free_blocks, _) = pool.stats();
    assert_eq!(allocs, 1);
    assert_eq!(deallocs, 0);
    assert_eq!(free_blocks, 0);
    pool.deallocate(alloc);

    let (offset1, allocs1, deallocs1, free_blocks1, free_bytes1) = pool.stats();
    assert_eq!(allocs1, 1);
    assert_eq!(deallocs1, 1);
    assert_eq!(free_blocks1, 1);
    assert!(free_bytes1 > 0);

    let _alloc2 = pool.allocate(100_000).unwrap();
    let (offset2, allocs2, deallocs2, free_blocks2, free_bytes2) = pool.stats();
    assert_eq!(allocs2, 2);
    assert_eq!(deallocs2, 1);
    assert_eq!(free_blocks2, 0);
    assert_eq!(free_bytes2, 0);
    assert_eq!(offset2, offset1);
}

#[test]
fn test_multiple_recycling() {
    let mut pool = RdmaMemoryPool::new_mock(1024 * 1024);

    let mut allocations = Vec::new();
    for _ in 0..10 {
        allocations.push(pool.allocate(50_000).unwrap());
    }
    let (offset_after_alloc, _, _, _, _) = pool.stats();

    for alloc in allocations {
        pool.deallocate(alloc);
    }
    let (offset_after_free, _, _, free_blocks, free_total) = pool.stats();
    assert!(free_blocks > 0 && free_blocks <= 10);
    assert!(free_total > 0);
    assert_eq!(offset_after_alloc, offset_after_free);

    let mut again = Vec::new();
    for _ in 0..10 {
        again.push(pool.allocate(50_000).unwrap());
    }
    let (offset_final, _, _, final_free_blocks, final_free_bytes) = pool.stats();
    assert_eq!(final_free_blocks, 0);
    assert_eq!(final_free_bytes, 0);
    assert_eq!(offset_final, offset_after_free);
}

#[test]
fn test_fragmentation_merging() {
    let mut pool = RdmaMemoryPool::new_mock(1024 * 1024);

    let alloc1 = pool.allocate(10_000).unwrap();
    let alloc2 = pool.allocate(10_000).unwrap();
    let alloc3 = pool.allocate(10_000).unwrap();

    pool.deallocate(alloc1);
    pool.deallocate(alloc2);
    pool.deallocate(alloc3);

    let (_, _, _, free_blocks, _) = pool.stats();
    assert_eq!(free_blocks, 1, "Adjacent blocks should merge");
}

#[test]
fn test_memory_pool_creation() {
    let pool_size = 1024 * 1024;
    let pool = RdmaMemoryPool::new_mock(pool_size);
    let (allocated, alloc_count, dealloc_count, _, _) = pool.stats();
    assert_eq!(allocated, 0);
    assert_eq!(alloc_count, 0);
    assert_eq!(dealloc_count, 0);
}

#[test]
fn test_memory_allocation() {
    let mut pool = RdmaMemoryPool::new_mock(1024 * 1024);
    let alloc_size = 64 * 1024;
    let allocation = pool.allocate(alloc_size);
    assert!(allocation.is_ok());
    let alloc = allocation.unwrap();
    assert_eq!(alloc.size(), alloc_size);

    let (allocated, alloc_count, _, _, _) = pool.stats();
    assert!(allocated >= alloc_size);
    assert_eq!(alloc_count, 1);
}

#[test]
fn test_allocation_too_large() {
    let mut pool = RdmaMemoryPool::new_mock(1024 * 1024);
    let result = pool.allocate(2 * 1024 * 1024);
    assert!(result.is_err());
}

#[test]
fn test_multiple_allocations() {
    let mut pool = RdmaMemoryPool::new_mock(1024 * 1024);
    let alloc_size = 200 * 1024;
    let mut allocations = Vec::new();
    for _ in 0..4 {
        let alloc = pool.allocate(alloc_size).unwrap();
        allocations.push(alloc);
    }
    let (_, alloc_count, _, _, _) = pool.stats();
    assert_eq!(alloc_count, 4);
}

#[test]
fn pool_is_exhausted_when_nothing_more_fits() {
    let mut pool = RdmaMemoryPool::new_mock(1024 * 1024);
    let alloc_size = 200 * 1024;
    let mut allocations = Vec::new();
    for _ in 0..5 {
        allocations.push(pool.allocate(alloc_size).unwrap());
    }
    let (_, alloc_count, _, _, _) = pool.stats();
    assert_eq!(alloc_count, 5);
    let refused = pool.allocate(alloc_size).unwrap_err();
    assert_eq!(
        refused.to_string(),
        "RDMA memory pool exhausted (total: 1048576, requested: 204800, current_offset: 1024000)"
    );
    // The refused request moved the unallocated part on all the same.
    let (offset, alloc_count, _, _, _) = pool.stats();
    assert_eq!(offset, 1228800);
    assert_eq!(alloc_count, 5);
    assert_eq!(pool.available_bytes(), 0);
}

#[test]
fn test_allocation_deallocation() {
    let mut pool = RdmaMemoryPool::new_mock(1024 * 1024);
    let alloc_size = 512 * 1024;
    let alloc = pool.allocate(alloc_size).unwrap();
    let (allocated, _, _, _, _) = pool.stats();
    assert!(allocated > 0);
    pool.deallocate(alloc);

    let (_, alloc_count, dealloc_count, _, _) = pool.stats();
    assert_eq!(alloc_count, 1);
    assert_eq!(dealloc_count, 1);
}

#[test]
fn test_pool_reset() {
    let mut pool = RdmaMemoryPool::new_mock(1024 * 1024);
    let _alloc = pool.allocate(100 * 1024).unwrap();
    let (allocated_before, _, _, _, _) = pool.stats();
    assert!(allocated_before > 0);

    pool.reset();
    let (allocated_after, _, _, _, _) = pool.stats();
    assert_eq!(allocated_after, 0);

    let result = pool.allocate(100 * 1024);
    assert!(result.is_ok());
}

#[test]
fn sizes_are_rounded_up_to_64() {
    assert_eq!(align_size(0), 0);
    assert_eq!(align_size(1), 64);
    assert_eq!(align_size(64), 64);
    assert_eq!(align_size(65), 128);
    assert_eq!(align_size(100_000), 100_032);
}

#[test]
fn allocations_are_apart_and_addressable() {
    let mut pool = RdmaMemoryPool::new_mock(4096);
    let a = pool.allocate(100).unwrap();
    let b = pool.allocate(100).unwrap();
    assert_eq!(a.offset(), 0);
    assert_eq!(b.offset(), 128);
    assert_eq!(b.ptr() - a.ptr(), 128);
    assert_eq!(a.ptr(), pool.descriptor().ptr);
    assert_eq!(a.handle(), MemoryRegionHandle { id: 0 });
    a.as_mut_slice(&mut pool).fill(1);
    b.as_mut_slice(&mut pool).fill(2);
    assert_eq!(a.as_slice(&pool), &[1u8; 100][..]);
    assert_eq!(b.as_slice(&pool), &[2u8; 100][..]);
    pool.deallocate(a);
    assert_eq!(b.as_slice(&pool), &[2u8; 100][..]);
}

#[test]
fn registered_pool_names_its_region() {
    let descriptor = MemoryRegionDescriptor::new(
        77,
        vec![AddressRkeyPair { domain_address: DomainAddress { address: vec![4] }, rkey: 8 }],
    );
    let mut pool = RdmaMemoryPool::new(vec![5; 256], descriptor, MemoryRegionHandle { id: 9 });
    assert_eq!(pool.descriptor().ptr, 77);
    assert_eq!(pool.descriptor().addr_rkey_list[0].rkey, 8);
    let a = pool.allocate(10).unwrap();
    assert_eq!(a.handle(), MemoryRegionHandle { id: 9 });
    assert_ne!(a.ptr(), 0);
    assert_eq!(a.as_slice(&pool), &[5u8; 10][..]);
}

#[test]
fn used_and_available_add_up() {
    let mut pool = RdmaMemoryPool::new_mock(1024);
    let a = pool.allocate(200).unwrap();
    let b = pool.allocate(200).unwrap();
    assert_eq!(pool.used_bytes(), 512);
    assert_eq!(pool.available_bytes(), 512);
    pool.deallocate(a);
    assert_eq!(pool.used_bytes(), 256);
    assert_eq!(pool.available_bytes(), 768);
    pool.deallocate(b);
    assert_eq!(pool.used_bytes(), 0);
    assert_eq!(pool.available_bytes(), 1024);
    let (offset, allocs, deallocs, blocks, bytes) = pool.stats();
    assert_eq!((offset, allocs, deallocs, blocks, bytes), (512, 2, 2, 1, 512));
}

#[test]
fn freed_block_is_split_first_fit() {
    let mut pool = RdmaMemoryPool::new_mock(4096);
    let a = pool.allocate(128).unwrap();
    let b = pool.allocate(64).unwrap();
    let c = pool.allocate(256).unwrap();
    let d = pool.allocate(64).unwrap();
    pool.deallocate(a);
    pool.deallocate(c);
    // The first free block is too small, the second is cut.
    let e = pool.allocate(192).unwrap();
    assert_eq!(e.offset(), 192);
    // What is left of it, behind the first block, is not needed yet.
    let f = pool.allocate(64).unwrap();
    assert_eq!(f.offset(), 0);
    let (_, _, _, blocks, bytes) = pool.stats();
    assert_eq!((blocks, bytes), (2, 128));
    assert_eq!(b.offset(), 128);
    assert_eq!(d.offset(), 448);
}

#[test]
fn blocks_merge_in_any_order() {
    for order in [[0, 1, 2], [0, 2, 1], [1, 0, 2], [1, 2, 0], [2, 0, 1], [2, 1, 0]] {
        let mut pool = RdmaMemoryPool::new_mock(1024);
        let mut held = vec![
            Some(pool.allocate(64).unwrap()),
            Some(pool.allocate(100).unwrap()),
            Some(pool.allocate(1).unwrap()),
        ];
        for i in order {
            pool.deallocate(held[i].take().unwrap());
        }
        let (_, _, _, blocks, bytes) = pool.stats();
        assert_eq!((blocks, bytes), (1, 256));
        assert_eq!(pool.used_bytes(), 0);
    }
}

#[test]
fn free_list_alone() {
    let mut list = Vec::new();
    insert_free_block(&mut list, FreeBlock { offset: 128, size: 64 });
    insert_free_block(&mut list, FreeBlock { offset: 0, size: 64 });
    assert_eq!(list.len(), 2);
    assert_eq!(free_bytes(&list), 128);
    assert_eq!(take_first_fit(&mut list, 128), None);
    insert_free_block(&mut list, FreeBlock { offset: 64, size: 64 });
    assert_eq!(list, vec![FreeBlock { offset: 0, size: 192 }]);
    assert_eq!(take_first_fit(&mut list, 128), Some(0));
    assert_eq!(list, vec![FreeBlock { offset: 128, size: 64 }]);
    assert_eq!(take_first_fit(&mut list, 64), Some(128));
    assert!(list.is_empty());
}

#[test]
fn statistics_over_a_history() {
    let mut pool = RdmaMemoryPool::new_mock(64 * 1024);
    let mut live: Vec<curvine_rdma::memory_pool::RdmaAllocation> = Vec::new();
    for i in 0..200usize {
        if i % 3 == 2 {
            let gone = live.swap_remove((i * 7) % live.len());
            pool.deallocate(gone);
        } else {
            live.push(pool.allocate(1 + (i * 37) % 300).unwrap());
        }
        let (offset, allocs, deallocs, _, free) = pool.stats();
        let held: usize = live.iter().map(|a| align_size(a.size())).sum();
        assert_eq!(allocs - deallocs, live.len());
        assert_eq!(offset - free, held);
        assert_eq!(pool.used_bytes(), held);
        assert!(live.iter().all(|a| a.offset() % 64 == 0));
    }
}

#[test]
fn only_blocks_that_touch_are_merged() {
    let mut list = Vec::new();
    insert_free_block(&mut list, FreeBlock { offset: 0, size: 128 });
    // It starts inside the first block, so it stays on its own.
    insert_free_block(&mut list, FreeBlock { offset: 64, size: 128 });
    assert_eq!(
        list,
        vec![FreeBlock { offset: 0, size: 128 }, FreeBlock { offset: 64, size: 128 }]
    );
    assert_eq!(free_bytes(&list), 256);
    // It starts where the second ends.
    insert_free_block(&mut list, FreeBlock { offset: 192, size: 64 });
    assert_eq!(
        list,
        vec![FreeBlock { offset: 0, size: 128 }, FreeBlock { offset: 64, size: 192 }]
    );
    // It goes in front of a block with the same offset, and both remain.
    insert_free_block(&mut list, FreeBlock { offset: 64, size: 64 });
    assert_eq!(list.len(), 3);
    assert_eq!(list[1], FreeBlock { offset: 64, size: 64 });
    assert_eq!(take_first_fit(&mut list, 192), Some(64));
    assert_eq!(
        list,
        vec![FreeBlock { offset: 0, size: 128 }, FreeBlock { offset: 64, size: 64 }]
    );
}

#[test]
fn memory_handed_out_twice_is_free_twice() {
    let mut pool = RdmaMemoryPool::new_mock(1024);
    let a = pool.allocate(64).unwrap();
    pool.reset();
    let b = pool.allocate(64).unwrap();
    assert_eq!((a.offset(), b.offset()), (0, 0));
    pool.deallocate(a);
    assert_eq!(pool.stats(), (64, 2, 1, 1, 64));
    pool.deallocate(b);
    assert_eq!(pool.stats(), (64, 2, 2, 2, 128));
    assert_eq!(pool.used_bytes(), 0);
    assert_eq!(pool.available_bytes(), 1088);
}

#[test]
fn empty_allocations_can_leave_empty_blocks() {
    let mut pool = RdmaMemoryPool::new_mock(1024);
    let empty = pool.allocate(0).unwrap();
    let a = pool.allocate(64).unwrap();
    assert_eq!((empty.offset(), a.offset()), (0, 0));
    pool.deallocate(empty);
    assert_eq!(pool.stats(), (64, 2, 1, 1, 0));
    pool.deallocate(a);
    assert_eq!(pool.stats(), (64, 2, 2, 2, 64));
    // An empty block in front of another one is merged with it.
    let empty = pool.allocate(0).unwrap();
    assert_eq!(empty.offset(), 0);
    pool.deallocate(empty);
    assert_eq!(pool.stats(), (64, 3, 3, 2, 64));
}
