use gpu_core::GpuError;
use gpu_core::bindless::{bindless_layout, BindlessTable, DescriptorCategory, DescriptorKind};
use gpu_core::gpu_resource::{register_resource, Image};
use gpu_core::pool::ResourcePool;

#[test]
fn layout_fixes_bindings_by_category_in_creation_order() {
    let layout = bindless_layout(1024);
    assert_eq!(layout.len(), 5);
    let kinds = [
        DescriptorKind::Sampler,
        DescriptorKind::SampledImage,
        DescriptorKind::StorageImage,
        DescriptorKind::StorageBuffer,
        DescriptorKind::StorageBuffer,
    ];
    for (b, info) in layout.iter().enumerate() {
        assert_eq!(info.binding, b as u32);
        assert_eq!(info.kind, kinds[b]);
        assert!(info.update_after_bind);
        assert!(info.partially_bound);
    }
    // Every category holds the configured capacity, except the raw
    // device-address binding, which holds exactly one entry.
    assert_eq!(layout[0].count, 1024);
    assert_eq!(layout[3].count, 1024);
    assert_eq!(layout[4].count, 1);
}

#[test]
fn written_slots_read_back_and_others_stay_unwritten() {
    let mut table = BindlessTable::new(1024);
    assert_eq!(table.read(DescriptorCategory::SampledImage, 7), None);
    table.write(DescriptorCategory::SampledImage, 7, 0xabcd).unwrap();
    assert_eq!(table.read(DescriptorCategory::SampledImage, 7), Some(0xabcd));
    // Same slot of another category is untouched.
    assert_eq!(table.read(DescriptorCategory::StorageImage, 7), None);
    assert_eq!(table.read(DescriptorCategory::SampledImage, 8), None);
    // Overwriting shows the newest descriptor.
    table.write(DescriptorCategory::SampledImage, 7, 0xef01).unwrap();
    assert_eq!(table.read(DescriptorCategory::SampledImage, 7), Some(0xef01));
}

#[test]
fn out_of_range_writes_are_rejected_without_corruption() {
    let mut table = BindlessTable::new(16);
    assert_eq!(
        table.write(DescriptorCategory::Sampler, 16, 1),
        Err(GpuError::InvalidHandle)
    );
    assert_eq!(table.write(DescriptorCategory::Sampler, 15, 1), Ok(()));
    assert_eq!(table.read(DescriptorCategory::Sampler, 15), Some(1));
}

#[test]
fn device_address_category_holds_exactly_one_entry() {
    let mut table = BindlessTable::new(1024);
    assert_eq!(table.write(DescriptorCategory::DeviceAddress, 0, 42), Ok(()));
    assert_eq!(table.read(DescriptorCategory::DeviceAddress, 0), Some(42));
    assert_eq!(
        table.write(DescriptorCategory::DeviceAddress, 1, 43),
        Err(GpuError::InvalidHandle)
    );
}

fn image(handle: u64) -> Image {
    Image {
        usage: 0,
        format: 43,
        width: 256,
        height: 256,
        depth: 1,
        slices: 1,
        levels: 1,
        handle,
    }
}

#[test]
fn registration_round_trips_handle_slot_and_identity() {
    // Writing a binding at the slot a handle produced, then reading the live
    // record back through the handle table, must name the same resource.
    let mut pool: ResourcePool<Image> = ResourcePool::new();
    let mut table = BindlessTable::new(1024);
    let record = image(0x1122);
    let h = register_resource(
        &mut pool,
        &mut table,
        DescriptorCategory::SampledImage,
        record,
        0x1122,
    )
    .unwrap();
    assert_eq!(pool.get(h).unwrap().handle, 0x1122);
    assert_eq!(table.read(DescriptorCategory::SampledImage, h), Some(0x1122));
}

#[test]
fn a_zero_capacity_table_rejects_every_write_but_the_device_address() {
    let mut table = BindlessTable::new(0);
    assert_eq!(table.write(DescriptorCategory::Sampler, 0, 1), Err(GpuError::InvalidHandle));
    assert_eq!(
        table.write(DescriptorCategory::StorageBuffer, 0, 1),
        Err(GpuError::InvalidHandle)
    );
    // The device-address binding always holds its single reserved entry.
    assert_eq!(table.write(DescriptorCategory::DeviceAddress, 0, 9), Ok(()));
    assert_eq!(table.read(DescriptorCategory::DeviceAddress, 0), Some(9));
}

#[test]
fn a_failed_fresh_registration_retires_the_claimed_slot() {
    // Capacity two leaves slot 1 as the only writable image slot. The second
    // registration claims fresh slot 2, fails at the table, and retires the
    // claim; allocating directly afterwards reuses slot 2 from the free list.
    let mut pool: ResourcePool<Image> = ResourcePool::new();
    let mut table = BindlessTable::new(2);
    let h1 = register_resource(
        &mut pool,
        &mut table,
        DescriptorCategory::SampledImage,
        image(1),
        1,
    )
    .unwrap();
    assert_eq!(h1, 1);
    assert_eq!(
        register_resource(&mut pool, &mut table, DescriptorCategory::SampledImage, image(2), 2),
        Err(GpuError::Exhausted)
    );
    let h2 = pool.create(image(3)).unwrap();
    assert_eq!(h2, 2);
    assert_eq!(pool.get(h2).unwrap().handle, 3);
}

#[test]
fn registration_beyond_descriptor_capacity_is_exhaustion() {
    // A table of two descriptor slots per category: slot 1 is usable, then
    // the claimed slot index leaves the category's range.
    let mut pool: ResourcePool<Image> = ResourcePool::new();
    let mut table = BindlessTable::new(2);
    let h1 = register_resource(
        &mut pool,
        &mut table,
        DescriptorCategory::StorageImage,
        image(1),
        1,
    )
    .unwrap();
    assert_eq!(h1, 1);
    assert_eq!(
        register_resource(&mut pool, &mut table, DescriptorCategory::StorageImage, image(2), 2),
        Err(GpuError::Exhausted)
    );
    // The failed registration left no record live; its slot was retired and
    // is reused once room exists again.
    pool.free(h1).unwrap();
    let h2 = register_resource(
        &mut pool,
        &mut table,
        DescriptorCategory::StorageImage,
        image(3),
        3,
    )
    .unwrap();
    assert_eq!(h2, h1);
    assert_eq!(table.read(DescriptorCategory::StorageImage, h2), Some(3));
}
