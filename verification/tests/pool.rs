use gpu_core::GpuError;
use gpu_core::pool::{MAX_RESOURCE_COUNT, ResourcePool};

#[test]
fn first_handle_is_one_and_null_is_never_returned() {
    let mut pool: ResourcePool<u64> = ResourcePool::new();
    let h = pool.create(11).unwrap();
    assert_eq!(h, 1);
    assert!(pool.get(0).is_none());
}

#[test]
fn live_handles_are_unique() {
    let mut pool: ResourcePool<u64> = ResourcePool::new();
    let mut handles = Vec::new();
    for v in 0..64u64 {
        handles.push(pool.create(v).unwrap());
    }
    for a in 0..handles.len() {
        for b in (a + 1)..handles.len() {
            assert_ne!(handles[a], handles[b]);
        }
    }
    for (v, h) in handles.iter().enumerate() {
        assert_eq!(pool.get(*h), Some(&(v as u64)));
    }
}

#[test]
fn get_on_freed_handle_fails() {
    let mut pool: ResourcePool<u64> = ResourcePool::new();
    let h = pool.create(5).unwrap();
    assert_eq!(pool.get(h), Some(&5));
    assert_eq!(pool.free(h), Ok(()));
    assert_eq!(pool.get(h), None);
}

#[test]
fn reuse_is_lifo_and_returns_newest_record() {
    let mut pool: ResourcePool<u64> = ResourcePool::new();
    let h1 = pool.create(10).unwrap();
    let h2 = pool.create(20).unwrap();
    pool.free(h1).unwrap();
    pool.free(h2).unwrap();
    // Last freed is reused first.
    let h3 = pool.create(30).unwrap();
    assert_eq!(h3, h2);
    assert_eq!(pool.get(h3), Some(&30));
    let h4 = pool.create(40).unwrap();
    assert_eq!(h4, h1);
    // A reused slot shows only the newest record.
    assert_eq!(pool.get(h4), Some(&40));
    assert_eq!(pool.get(h3), Some(&30));
}

#[test]
fn interleaved_create_and_free_keeps_other_records_intact() {
    let mut pool: ResourcePool<u64> = ResourcePool::new();
    let a = pool.create(1).unwrap();
    let b = pool.create(2).unwrap();
    let c = pool.create(3).unwrap();
    pool.free(b).unwrap();
    let d = pool.create(4).unwrap();
    assert_eq!(d, b);
    assert_eq!(pool.get(a), Some(&1));
    assert_eq!(pool.get(c), Some(&3));
    assert_eq!(pool.get(d), Some(&4));
}

#[test]
fn free_of_invalid_handles_is_a_checked_error() {
    let mut pool: ResourcePool<u64> = ResourcePool::new();
    assert_eq!(pool.free(0), Err(GpuError::InvalidHandle));
    assert_eq!(pool.free(1), Err(GpuError::InvalidHandle));
    assert_eq!(pool.free(123456), Err(GpuError::InvalidHandle));
    let h = pool.create(9).unwrap();
    pool.free(h).unwrap();
    assert_eq!(pool.free(h), Err(GpuError::InvalidHandle));
}

#[test]
fn allocation_crosses_page_boundaries() {
    let mut pool: ResourcePool<u64> = ResourcePool::new();
    let mut handles = Vec::new();
    // Three pages' worth of slots.
    for v in 0..1536u64 {
        handles.push(pool.create(v).unwrap());
    }
    for (v, h) in handles.iter().enumerate() {
        assert_eq!(pool.get(*h), Some(&(v as u64)));
    }
    // Slot 512 sits at the start of the second page.
    assert_eq!(pool.get(512), Some(&511));
}

#[test]
fn capacity_zero_pool_is_always_exhausted() {
    let mut pool: ResourcePool<u64> = ResourcePool::with_capacity(0);
    assert_eq!(pool.create(1), Err(GpuError::Exhausted));
    assert_eq!(pool.create(2), Err(GpuError::Exhausted));
}

#[test]
fn exhaustion_is_reported_and_recoverable() {
    // Slot indices run from 1 to capacity - 1, so capacity 4 holds 3 records.
    let mut pool: ResourcePool<u64> = ResourcePool::with_capacity(4);
    let h1 = pool.create(1).unwrap();
    let h2 = pool.create(2).unwrap();
    let h3 = pool.create(3).unwrap();
    assert_eq!(pool.create(4), Err(GpuError::Exhausted));
    // Exhaustion corrupts nothing.
    assert_eq!(pool.get(h1), Some(&1));
    assert_eq!(pool.get(h2), Some(&2));
    assert_eq!(pool.get(h3), Some(&3));
    // Freeing makes room again: exhaustion is recoverable, not fatal.
    pool.free(h2).unwrap();
    let h4 = pool.create(40).unwrap();
    assert_eq!(h4, h2);
    assert_eq!(pool.get(h4), Some(&40));
}

#[test]
fn allocating_past_the_fixed_slot_capacity_fails() {
    let mut pool: ResourcePool<u32> = ResourcePool::new();
    // Slot indices run from 1 to 2^19 - 1.
    for v in 0..(MAX_RESOURCE_COUNT - 1) {
        assert!(pool.create(v).is_ok());
    }
    assert_eq!(pool.create(0), Err(GpuError::Exhausted));
    // The earlier records are unharmed.
    assert_eq!(pool.get(1), Some(&0));
    assert_eq!(pool.get(MAX_RESOURCE_COUNT - 1), Some(&(MAX_RESOURCE_COUNT - 2)));
}
