//! Resource records and the factory step that makes a resource shader
//! visible.
//!
//! The records hold what the renderer core reads of a device object: its
//! dimensions, format and usage, the raw driver handle, and for buffers the
//! device address. Creating and destroying the driver objects themselves is
//! the surrounding layer's work; the verified step is registration, which
//! claims a handle-table slot for the record and writes the resource's
//! identity into the bindless table at that slot.

use vstd::prelude::*;
use crate::GpuError;
use crate::bindless::{BindlessTable, DescriptorCategory, category_capacity};
use crate::pool::ResourcePool;

verus! {

/// What the core reads of a device image.
#[derive(Clone, Copy, PartialEq, Eq, Structural, Debug)]
pub struct Image {
    pub usage: u32,
    pub format: i32,
    pub width: u32,
    pub height: u32,
    pub depth: u32,
    pub slices: u32,
    pub levels: u32,
    /// Raw driver identifier; opaque to this library.
    pub handle: u64,
}

/// What the core reads of an image view.
#[derive(Clone, Copy, PartialEq, Eq, Structural, Debug)]
pub struct ImageView {
    pub format: i32,
    pub subresource_range: crate::command::SubresourceRange,
    /// Raw driver identifier; opaque to this library.
    pub handle: u64,
}

/// What the core reads of a sampler.
#[derive(Clone, Copy, PartialEq, Eq, Structural, Debug)]
pub struct Sampler {
    /// Raw driver identifier; opaque to this library.
    pub handle: u64,
}

/// What the core reads of a device buffer.
#[derive(Clone, Copy, PartialEq, Eq, Structural, Debug)]
pub struct Buffer {
    pub data_size: u64,
    pub device_address: u64,
    /// Raw driver identifier; opaque to this library.
    pub handle: u64,
}

/// Raw identifier of the driver-side descriptor pool.
#[derive(Clone, Copy, PartialEq, Eq, Structural, Debug, Default)]
pub struct DescriptorPool(pub u64);

/// Raw identifier of the driver-side descriptor set layout.
#[derive(Clone, Copy, PartialEq, Eq, Structural, Debug, Default)]
pub struct DescriptorSetLayout(pub u64);

/// Raw identifier of the driver-side descriptor set.
#[derive(Clone, Copy, PartialEq, Eq, Structural, Debug, Default)]
pub struct DescriptorSet(pub u64);

/// The handle table cannot hand out another slot: nothing awaits reuse and
/// the next fresh index would reach the capacity bound.
pub open spec fn pool_exhausted<T>(pool: ResourcePool<T>) -> bool {
    pool.free_list().len() == 0 && pool.high_water() + 1 >= pool.spec_capacity()
}

/// The slot the next allocation will claim: the most recently retired index,
/// else one past the high-water mark.
pub open spec fn spec_claimed_slot<T>(pool: ResourcePool<T>) -> int {
    if pool.free_list().len() > 0 {
        pool.free_list().last() as int
    } else {
        pool.high_water() + 1
    }
}

/// Register a freshly created resource: claim a handle-table slot for its
/// record and write its identity into the bindless table at that slot.
///
/// On success the handle is the claimed slot, fresh among live handles, the
/// record is live under it, and reading the bindless slot it names yields
/// exactly `identity` — the round trip from handle to record and from slot to
/// descriptor agree. Registration fails, with exhaustion, exactly when the
/// handle table is exhausted or the claimed slot lies at or beyond the
/// category's descriptor capacity; no record stays live either way. In the
/// latter case the claimed slot is retired back onto the free list, so a
/// table-side failure still consumes a fresh index's high-water growth.
pub fn register_resource<T>(
    pool: &mut ResourcePool<T>,
    table: &mut BindlessTable,
    category: DescriptorCategory,
    value: T,
    identity: u64,
) -> (r: Result<u32, GpuError>)
    requires
        old(pool).wf(),
        old(table).wf(),
    ensures
        final(pool).wf(),
        final(table).wf(),
        final(pool).spec_capacity() == old(pool).spec_capacity(),
        final(table).spec_capacity() == old(table).spec_capacity(),
        match r {
            Ok(h) => {
                &&& !pool_exhausted(*old(pool))
                &&& h == spec_claimed_slot(*old(pool))
                &&& 1 <= h < old(pool).spec_capacity()
                &&& h < category_capacity(category, old(table).spec_capacity())
                &&& !old(pool).live().contains_key(h)
                &&& final(pool).live() == old(pool).live().insert(h, value)
                &&& final(pool).high_water() == if old(pool).free_list().len() > 0 {
                    old(pool).high_water() as int
                } else {
                    h as int
                }
                &&& final(pool).free_list() == if old(pool).free_list().len() > 0 {
                    old(pool).free_list().drop_last()
                } else {
                    old(pool).free_list()
                }
                &&& final(table).entry(category, h) == Some(identity)
                &&& forall|c2: DescriptorCategory, s2: u32|
                    !(c2 == category && s2 == h) ==> #[trigger] final(table).entry(c2, s2) == old(
                    table,
                    ).entry(c2, s2)
            },
            Err(e) => {
                &&& e == GpuError::Exhausted
                &&& pool_exhausted(*old(pool)) || spec_claimed_slot(*old(pool))
                    >= category_capacity(category, old(table).spec_capacity())
                &&& final(pool).live() == old(pool).live()
                &&& *final(table) == *old(table)
                &&& if pool_exhausted(*old(pool)) || old(pool).free_list().len() > 0 {
                    &&& final(pool).free_list() == old(pool).free_list()
                    &&& final(pool).high_water() == old(pool).high_water()
                } else {
                    &&& final(pool).free_list() == old(pool).free_list().push(
                        spec_claimed_slot(*old(pool)) as u32,
                    )
                    &&& final(pool).high_water() == spec_claimed_slot(*old(pool))
                }
            },
        },
{
    let handle = match pool.create(value) {
        Ok(h) => h,
        Err(_) => {
            return Err(GpuError::Exhausted);
        },
    };
    match table.write(category, handle, identity) {
        Ok(_) => Ok(handle),
        Err(_) => {
            let ghost popped_free = old(pool).free_list().len() > 0;
            let freed = pool.free(handle);
            proof {
                assert(freed is Ok);
                assert(pool.live() =~= old(pool).live());
                if popped_free {
                    assert(pool.free_list() =~= old(pool).free_list());
                }
            }
            Err(GpuError::Exhausted)
        },
    }
}

} // verus!
