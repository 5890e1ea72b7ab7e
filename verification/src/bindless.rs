//! The bindless descriptor table: one shader-visible table of fixed capacity
//! per resource category, written whenever a shader-visible resource is
//! created and indexed directly from shader code by handle slot.
//!
//! Binding indices are fixed by category in creation order; every binding is
//! declared update-after-bind and partially bound, so unused slots need not
//! hold valid descriptors and writes may race with in-flight reads of other
//! slots. Capacity per category is fixed at creation (the raw device-address
//! category holds exactly one entry, reserved for a global address table);
//! growing it would invalidate every issued handle and is out of scope here.

use vstd::prelude::*;
use crate::GpuError;
use crate::pool::MAX_RESOURCE_COUNT;

verus! {

/// The resource categories of the bindless table, in binding order.
#[derive(Clone, Copy, PartialEq, Eq, Structural, Debug)]
pub enum DescriptorCategory {
    Sampler,
    SampledImage,
    StorageImage,
    StorageBuffer,
    DeviceAddress,
}

/// The descriptor types the driver distinguishes; the raw device-address
/// category is backed by a storage buffer.
#[derive(Clone, Copy, PartialEq, Eq, Structural, Debug)]
pub enum DescriptorKind {
    Sampler,
    SampledImage,
    StorageImage,
    StorageBuffer,
}

/// The fixed binding index of a category.
pub open spec fn spec_binding(c: DescriptorCategory) -> int {
    match c {
        DescriptorCategory::Sampler => 0,
        DescriptorCategory::SampledImage => 1,
        DescriptorCategory::StorageImage => 2,
        DescriptorCategory::StorageBuffer => 3,
        DescriptorCategory::DeviceAddress => 4,
    }
}

/// The category bound at a binding index.
pub open spec fn category_at(b: int) -> DescriptorCategory {
    if b == 0 {
        DescriptorCategory::Sampler
    } else if b == 1 {
        DescriptorCategory::SampledImage
    } else if b == 2 {
        DescriptorCategory::StorageImage
    } else if b == 3 {
        DescriptorCategory::StorageBuffer
    } else {
        DescriptorCategory::DeviceAddress
    }
}

/// The descriptor type backing a category.
pub open spec fn spec_kind(c: DescriptorCategory) -> DescriptorKind {
    match c {
        DescriptorCategory::Sampler => DescriptorKind::Sampler,
        DescriptorCategory::SampledImage => DescriptorKind::SampledImage,
        DescriptorCategory::StorageImage => DescriptorKind::StorageImage,
        DescriptorCategory::StorageBuffer => DescriptorKind::StorageBuffer,
        DescriptorCategory::DeviceAddress => DescriptorKind::StorageBuffer,
    }
}

/// The number of slots a category holds in a table of per-category capacity
/// `capacity`: the device-address category holds exactly one.
pub open spec fn category_capacity(c: DescriptorCategory, capacity: u32) -> u32 {
    if c is DeviceAddress {
        1u32
    } else {
        capacity
    }
}

/// The fixed binding index of a category.
pub fn binding_index(c: DescriptorCategory) -> (r: usize)
    ensures
        r == spec_binding(c),
{
    match c {
        DescriptorCategory::Sampler => 0,
        DescriptorCategory::SampledImage => 1,
        DescriptorCategory::StorageImage => 2,
        DescriptorCategory::StorageBuffer => 3,
        DescriptorCategory::DeviceAddress => 4,
    }
}

/// One binding of the table's fixed layout.
#[derive(Clone, Copy, PartialEq, Eq, Structural, Debug)]
pub struct DescriptorBindingInfo {
    pub binding: u32,
    pub kind: DescriptorKind,
    pub count: u32,
    pub update_after_bind: bool,
    pub partially_bound: bool,
}

/// The layout entry for binding `b` of a table with per-category capacity
/// `capacity`.
pub open spec fn spec_layout_entry(b: int, capacity: u32) -> DescriptorBindingInfo {
    DescriptorBindingInfo {
        binding: b as u32,
        kind: spec_kind(category_at(b)),
        count: category_capacity(category_at(b), capacity),
        update_after_bind: true,
        partially_bound: true,
    }
}

/// The fixed binding scheme of the bindless descriptor set: one binding per
/// category in creation order, each update-after-bind and partially bound.
pub fn bindless_layout(capacity: u32) -> (r: Vec<DescriptorBindingInfo>)
    ensures
        r@.len() == 5,
        forall|b: int| 0 <= b < 5 ==> r@[b] == spec_layout_entry(b, capacity),
{
    let mut r: Vec<DescriptorBindingInfo> = Vec::new();
    r.push(
        DescriptorBindingInfo {
            binding: 0,
            kind: DescriptorKind::Sampler,
            count: capacity,
            update_after_bind: true,
            partially_bound: true,
        },
    );
    r.push(
        DescriptorBindingInfo {
            binding: 1,
            kind: DescriptorKind::SampledImage,
            count: capacity,
            update_after_bind: true,
            partially_bound: true,
        },
    );
    r.push(
        DescriptorBindingInfo {
            binding: 2,
            kind: DescriptorKind::StorageImage,
            count: capacity,
            update_after_bind: true,
            partially_bound: true,
        },
    );
    r.push(
        DescriptorBindingInfo {
            binding: 3,
            kind: DescriptorKind::StorageBuffer,
            count: capacity,
            update_after_bind: true,
            partially_bound: true,
        },
    );
    r.push(
        DescriptorBindingInfo {
            binding: 4,
            kind: DescriptorKind::StorageBuffer,
            count: 1,
            update_after_bind: true,
            partially_bound: true,
        },
    );
    r
}

/// The shader-visible table: per category, the resource identity written at
/// each slot, if any.
pub struct BindlessTable {
    /// One row per binding, indexed by [`spec_binding`]; a row entry is the
    /// identity of the resource whose descriptor was written at that slot.
    rows: Vec<Vec<Option<u64>>>,
    /// Slots per category, except the device-address category.
    capacity: u32,
}

impl BindlessTable {
    /// Slots per category, except the device-address category.
    pub closed spec fn spec_capacity(self) -> u32 {
        self.capacity
    }

    /// The identity written at a category's slot, if the slot is in range and
    /// has been written.
    pub closed spec fn entry(self, c: DescriptorCategory, slot: u32) -> Option<u64> {
        if slot < category_capacity(c, self.capacity) {
            self.rows@[spec_binding(c)][slot as int]
        } else {
            None
        }
    }

    /// The table's internal invariant: five whole rows, one per category.
    pub closed spec fn wf(self) -> bool {
        &&& self.rows@.len() == 5
        &&& forall|b: int|
            0 <= b < 5 ==> (#[trigger] self.rows@[b].len()) == category_capacity(
                category_at(b),
                self.capacity,
            )
    }

    /// A table with every slot unwritten.
    ///
    /// Slots are indexed by handle-table slot indices, which bounds the
    /// useful capacity by the handle table's; a zero capacity leaves no
    /// writable slot outside the device-address category.
    pub fn new(capacity: u32) -> (r: Self)
        requires
            capacity <= MAX_RESOURCE_COUNT,
        ensures
            r.wf(),
            r.spec_capacity() == capacity,
            forall|c: DescriptorCategory, s: u32| r.entry(c, s) is None,
    {
        let mut rows: Vec<Vec<Option<u64>>> = Vec::new();
        rows.push(none_row(capacity));
        rows.push(none_row(capacity));
        rows.push(none_row(capacity));
        rows.push(none_row(capacity));
        rows.push(none_row(1));
        let r = BindlessTable { rows, capacity };
        proof {
            assert forall|c: DescriptorCategory, s: u32| r.entry(c, s) is None by {}
        }
        r
    }

    /// Write the descriptor of resource `identity` into a category's slot.
    ///
    /// Succeeds, changing exactly that slot, when the slot is within the
    /// category's capacity; an out-of-range slot is reported and the table
    /// left unchanged. Overwriting a slot that in-flight work may still read
    /// remains the caller's pacing responsibility.
    pub fn write(&mut self, category: DescriptorCategory, slot: u32, identity: u64) -> (r: Result<
        (),
        GpuError,
    >)
        requires
            old(self).wf(),
        ensures
            final(self).wf(),
            final(self).spec_capacity() == old(self).spec_capacity(),
            match r {
                Ok(_) => {
                    &&& slot < category_capacity(category, old(self).spec_capacity())
                    &&& final(self).entry(category, slot) == Some(identity)
                    &&& forall|c2: DescriptorCategory, s2: u32|
                        !(c2 == category && s2 == slot) ==> #[trigger] final(self).entry(c2, s2)
                            == old(self).entry(c2, s2)
                },
                Err(e) => {
                    &&& e == GpuError::InvalidHandle
                    &&& slot >= category_capacity(category, old(self).spec_capacity())
                    &&& *final(self) == *old(self)
                },
            },
    {
        let row_capacity = if matches!(category, DescriptorCategory::DeviceAddress) {
            1u32
        } else {
            self.capacity
        };
        if slot >= row_capacity {
            return Err(GpuError::InvalidHandle);
        }
        let b = binding_index(category);
        proof {
            assert(category_at(spec_binding(category)) == category);
            assert(self.rows@[spec_binding(category)].len() == category_capacity(
                category,
                self.capacity,
            ));
            assert(row_capacity == category_capacity(category, self.capacity));
        }
        let row = &mut self.rows[b];
        row[slot as usize] = Some(identity);
        proof {
            assert forall|c2: DescriptorCategory, s2: u32|
                !(c2 == category && s2 == slot) implies #[trigger] self.entry(c2, s2) == old(
                self,
            ).entry(c2, s2) by {
                if spec_binding(c2) == spec_binding(category) {
                    lemma_binding_injective(c2, category);
                }
            }
        }
        Ok(())
    }

    /// Read back the identity written at a category's slot.
    pub fn read(&self, category: DescriptorCategory, slot: u32) -> (r: Option<u64>)
        requires
            self.wf(),
        ensures
            r == self.entry(category, slot),
    {
        let row_capacity = if matches!(category, DescriptorCategory::DeviceAddress) {
            1u32
        } else {
            self.capacity
        };
        if slot >= row_capacity {
            return None;
        }
        let b = binding_index(category);
        proof {
            assert(category_at(spec_binding(category)) == category);
            assert(self.rows@[spec_binding(category)].len() == category_capacity(
                category,
                self.capacity,
            ));
        }
        self.rows[b][slot as usize]
    }
}

/// Distinct categories have distinct binding indices.
proof fn lemma_binding_injective(a: DescriptorCategory, b: DescriptorCategory)
    requires
        spec_binding(a) == spec_binding(b),
    ensures
        a == b,
{
}

/// A row of `n` unwritten slots.
fn none_row(n: u32) -> (r: Vec<Option<u64>>)
    ensures
        r@.len() == n,
        forall|q: int| 0 <= q < n ==> (#[trigger] r@[q]) is None,
{
    let mut r: Vec<Option<u64>> = Vec::new();
    let mut k: u32 = 0;
    while k < n
        invariant
            k <= n,
            r@.len() == k,
            forall|q: int| 0 <= q < k ==> (#[trigger] r@[q]) is None,
        decreases n - k,
    {
        r.push(None);
        k = k + 1;
    }
    r
}

} // verus!
