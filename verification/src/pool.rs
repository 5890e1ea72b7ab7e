//! The handle table: a paged slot allocator mapping opaque integer handles to
//! live resource records.
//!
//! A pool owns up to [`PAGE_COUNT`] pages of [`PAGE_SIZE`] slots each, for a
//! fixed maximum of [`MAX_RESOURCE_COUNT`] slots. Pages are materialized
//! lazily the first time any index within them is used and are never
//! reclaimed. Allocation prefers indices from the free list (last in, first
//! out) over extending the high-water mark. Handle `0` is reserved as the
//! null handle and is never returned.
//!
//! The pool's abstract state is the map from live handles to their records,
//! given by [`ResourcePool::live`]; every operation's contract is stated over
//! that map, the free list, and the high-water mark.

use vstd::prelude::*;
use vstd::arithmetic::div_mod::lemma_fundamental_div_mod;
use crate::GpuError;

verus! {

/// Fixed maximum number of slots a pool can ever address: 2^19.
pub const MAX_RESOURCE_COUNT: u32 = 524288;

/// Number of slots in one page: 2^9.
pub const PAGE_SIZE: u32 = 512;

/// Number of pages in the page table: 2^19 / 2^9.
pub const PAGE_COUNT: u32 = 1024;

/// The page a slot index falls into.
pub open spec fn page_of(i: u32) -> int {
    i as int / PAGE_SIZE as int
}

/// The offset of a slot index within its page.
pub open spec fn offset_of(i: u32) -> int {
    i as int % PAGE_SIZE as int
}

/// Two slot indices with the same page and offset are the same index.
proof fn lemma_slot_address_injective(i: u32, j: u32)
    requires
        page_of(i) == page_of(j),
        offset_of(i) == offset_of(j),
    ensures
        i == j,
{
    lemma_fundamental_div_mod(i as int, PAGE_SIZE as int);
    lemma_fundamental_div_mod(j as int, PAGE_SIZE as int);
}

/// One storage cell: empty, or holding exactly one live resource record.
pub enum Slot<T> {
    Empty,
    Full(T),
}

/// A paged slot allocator handing out stable integer handles.
pub struct ResourcePool<T> {
    /// The page table; an empty inner vector is a page not yet materialized.
    pages: Vec<Vec<Slot<T>>>,
    /// Retired slot indices, reused last in first out.
    free_indices: Vec<u32>,
    /// The highest slot index ever handed out.
    latest_index: u32,
    /// Slot indices run from 1 to one below this bound.
    capacity: u32,
}

impl<T> ResourcePool<T> {
    /// The slot at index `i` holds a live record.
    pub closed spec fn slot_live(self, i: u32) -> bool {
        let p = page_of(i);
        let o = offset_of(i);
        &&& p < self.pages@.len()
        &&& o < self.pages@[p].len()
        &&& self.pages@[p][o] is Full
    }

    /// The record held at index `i`.
    pub closed spec fn slot_value(self, i: u32) -> T {
        self.pages@[page_of(i)][offset_of(i)]->0
    }

    /// The slot at index `i` sits in a materialized page and is empty.
    spec fn slot_open(self, i: u32) -> bool {
        let p = page_of(i);
        let o = offset_of(i);
        &&& p < self.pages@.len()
        &&& self.pages@[p].len() == PAGE_SIZE
        &&& self.pages@[p][o] is Empty
    }

    /// The abstract state: the map from live handles to their records.
    pub closed spec fn live(self) -> Map<u32, T> {
        Map::new(|i: u32| self.slot_live(i), |i: u32| self.slot_value(i))
    }

    /// The stack of retired slot indices awaiting reuse.
    pub closed spec fn free_list(self) -> Seq<u32> {
        self.free_indices@
    }

    /// The highest slot index ever handed out.
    pub closed spec fn high_water(self) -> u32 {
        self.latest_index
    }

    /// The bound slot indices must stay below.
    pub closed spec fn spec_capacity(self) -> u32 {
        self.capacity
    }

    /// The pool's internal invariant.
    ///
    /// Pages are either absent or whole; live slots lie between the null
    /// handle and the high-water mark; the free list holds distinct retired
    /// indices whose slots are materialized and empty.
    pub closed spec fn wf(self) -> bool {
        &&& self.capacity <= MAX_RESOURCE_COUNT
        &&& (self.latest_index < self.capacity || self.latest_index == 0)
        &&& self.pages@.len() == PAGE_COUNT
        &&& forall|p: int|
            0 <= p < PAGE_COUNT ==> ((#[trigger] self.pages@[p].len()) == 0 || self.pages@[p].len()
                == PAGE_SIZE)
        &&& forall|i: u32| #[trigger] self.slot_live(i) ==> 1 <= i <= self.latest_index
        &&& forall|j: int|
            0 <= j < self.free_indices@.len() ==> {
                let f = #[trigger] self.free_indices@[j];
                &&& 1 <= f <= self.latest_index
                &&& self.slot_open(f)
            }
        &&& forall|j: int, k: int|
            0 <= j < k < self.free_indices@.len() ==> self.free_indices@[j]
                != self.free_indices@[k]
    }

    /// An empty pool able to address a bounded range of slot indices.
    ///
    /// Handles handed out stay strictly below `capacity`; a capacity of zero
    /// or one leaves no usable slot, so every allocation reports exhaustion.
    pub fn with_capacity(capacity: u32) -> (r: Self)
        requires
            capacity <= MAX_RESOURCE_COUNT,
        ensures
            r.wf(),
            r.live() == Map::<u32, T>::empty(),
            r.free_list() == Seq::<u32>::empty(),
            r.high_water() == 0,
            r.spec_capacity() == capacity,
    {
        let mut pages: Vec<Vec<Slot<T>>> = Vec::new();
        let mut p: usize = 0;
        while p < PAGE_COUNT as usize
            invariant
                p <= PAGE_COUNT,
                pages@.len() == p,
                forall|q: int| 0 <= q < p ==> (#[trigger] pages@[q].len()) == 0,
            decreases PAGE_COUNT - p,
        {
            pages.push(Vec::new());
            p = p + 1;
        }
        let r = ResourcePool { pages, free_indices: Vec::new(), latest_index: 0, capacity };
        proof {
            assert(r.live() =~= Map::<u32, T>::empty());
        }
        r
    }

    /// An empty pool with the full fixed slot capacity.
    pub fn new() -> (r: Self)
        ensures
            r.wf(),
            r.live() == Map::<u32, T>::empty(),
            r.free_list() == Seq::<u32>::empty(),
            r.high_water() == 0,
            r.spec_capacity() == MAX_RESOURCE_COUNT,
    {
        Self::with_capacity(MAX_RESOURCE_COUNT)
    }

    /// Store `value` in a slot and hand out its handle.
    ///
    /// The most recently retired index is reused first; only when no retired
    /// index remains does the high-water mark grow. The handle is fresh among
    /// currently-live handles and every other entry is untouched. Exhaustion
    /// is reported, and the pool left unchanged, exactly when the free list is
    /// empty and the next index would reach the capacity bound.
    pub fn create(&mut self, value: T) -> (r: Result<u32, GpuError>)
        requires
            old(self).wf(),
        ensures
            final(self).wf(),
            final(self).spec_capacity() == old(self).spec_capacity(),
            match r {
                Ok(h) => {
                    &&& 1 <= h < old(self).spec_capacity()
                    &&& !old(self).live().contains_key(h)
                    &&& final(self).live() == old(self).live().insert(h, value)
                    &&& if old(self).free_list().len() > 0 {
                        &&& h == old(self).free_list().last()
                        &&& final(self).free_list() == old(self).free_list().drop_last()
                        &&& final(self).high_water() == old(self).high_water()
                    } else {
                        &&& h == old(self).high_water() + 1
                        &&& final(self).free_list() == old(self).free_list()
                        &&& final(self).high_water() == h
                    }
                },
                Err(e) => {
                    &&& e == GpuError::Exhausted
                    &&& *final(self) == *old(self)
                    &&& old(self).free_list().len() == 0
                    &&& old(self).high_water() + 1 >= old(self).spec_capacity()
                },
            },
    {
        let index: u32;
        if self.free_indices.len() == 0 {
            if self.capacity == 0 || self.latest_index + 1 >= self.capacity {
                return Err(GpuError::Exhausted);
            }
            index = self.latest_index + 1;
            self.latest_index = index;
        } else {
            let popped = self.free_indices.pop();
            index = popped.unwrap();
        }
        proof {
            assert(1 <= index < self.capacity);
            assert(page_of(index) < PAGE_COUNT as int && offset_of(index) < PAGE_SIZE as int);
        }
        let page_id = (index / PAGE_SIZE) as usize;
        let page_offset = (index % PAGE_SIZE) as usize;

        if self.pages[page_id].len() == 0 {
            let mut page: Vec<Slot<T>> = Vec::new();
            let mut k: usize = 0;
            while k < PAGE_SIZE as usize
                invariant
                    k <= PAGE_SIZE,
                    page@.len() == k,
                    forall|q: int| 0 <= q < k ==> (#[trigger] page@[q]) is Empty,
                decreases PAGE_SIZE - k,
            {
                page.push(Slot::Empty);
                k = k + 1;
            }
            self.pages[page_id] = page;
        }
        proof {
            assert forall|i: u32|
                #[trigger] self.slot_live(i) == old(self).slot_live(i) && (old(self).slot_open(i)
                    ==> self.slot_open(i)) by {}
            assert(self.pages@[page_of(index)].len() == PAGE_SIZE as int);
            assert(!self.slot_live(index));
            assert(self.live() =~= old(self).live());
        }
        let ghost mid = *self;

        let pg = &mut self.pages[page_id];
        pg[page_offset] = Slot::Full(value);

        proof {
            assert(self.slot_live(index) && self.slot_value(index) == value);
            assert forall|i: u32| i != index implies #[trigger] self.slot_live(i) == mid.slot_live(
                i,
            ) && self.slot_open(i) == mid.slot_open(i) && (self.slot_live(i) ==> self.slot_value(i)
                == mid.slot_value(i)) by {
                if page_of(i) == page_of(index) && offset_of(i) == offset_of(index) {
                    lemma_slot_address_injective(i, index);
                }
            }
            assert(self.live() =~= old(self).live().insert(index, value));
        }
        Ok(index)
    }

    /// Look up the record a handle refers to.
    ///
    /// Returns the record exactly when the handle is live; a null, freed, or
    /// out-of-range handle reports no record rather than reaching a stale one.
    pub fn get(&self, handle: u32) -> (r: Option<&T>)
        requires
            self.wf(),
        ensures
            match r {
                Some(v) => self.live().contains_key(handle) && *v == self.live()[handle],
                None => !self.live().contains_key(handle),
            },
    {
        if handle == 0 || handle > self.latest_index {
            return None;
        }
        let page_id = (handle / PAGE_SIZE) as usize;
        let page_offset = (handle % PAGE_SIZE) as usize;
        if self.pages[page_id].len() == 0 {
            return None;
        }
        match &self.pages[page_id][page_offset] {
            Slot::Full(v) => Some(v),
            Slot::Empty => None,
        }
    }

    /// Retire a handle, emptying its slot and stacking the index for reuse.
    ///
    /// Fails with an invalid-handle error, leaving the pool unchanged, exactly
    /// when the handle is not live; freeing is never undefined behaviour.
    pub fn free(&mut self, handle: u32) -> (r: Result<(), GpuError>)
        requires
            old(self).wf(),
        ensures
            final(self).wf(),
            final(self).spec_capacity() == old(self).spec_capacity(),
            match r {
                Ok(_) => {
                    &&& old(self).live().contains_key(handle)
                    &&& final(self).live() == old(self).live().remove(handle)
                    &&& final(self).free_list() == old(self).free_list().push(handle)
                    &&& final(self).high_water() == old(self).high_water()
                },
                Err(e) => {
                    &&& e == GpuError::InvalidHandle
                    &&& !old(self).live().contains_key(handle)
                    &&& *final(self) == *old(self)
                },
            },
    {
        if handle == 0 || handle > self.latest_index {
            return Err(GpuError::InvalidHandle);
        }
        let page_id = (handle / PAGE_SIZE) as usize;
        let page_offset = (handle % PAGE_SIZE) as usize;
        if self.pages[page_id].len() == 0 {
            return Err(GpuError::InvalidHandle);
        }
        let is_live = match &self.pages[page_id][page_offset] {
            Slot::Full(_) => true,
            Slot::Empty => false,
        };
        if !is_live {
            return Err(GpuError::InvalidHandle);
        }
        let ghost before = *self;

        let pg = &mut self.pages[page_id];
        pg[page_offset] = Slot::Empty;
        self.free_indices.push(handle);

        proof {
            assert(!self.slot_live(handle) && self.slot_open(handle));
            assert forall|i: u32| i != handle implies #[trigger] self.slot_live(i)
                == before.slot_live(i) && self.slot_open(i) == before.slot_open(i) && (
            self.slot_live(i) ==> self.slot_value(i) == before.slot_value(i)) by {
                if page_of(i) == page_of(handle) && offset_of(i) == offset_of(handle) {
                    lemma_slot_address_injective(i, handle);
                }
            }
            assert forall|j: int| 0 <= j < before.free_indices@.len() implies before.free_indices@[j]
                != handle by {}
            assert(self.live() =~= old(self).live().remove(handle));
        }
        Ok(())
    }
}

/// Live handles never alias, and a slot reused after a free shows only the
/// newest record.
///
/// Over the pool's abstract state: a handle fresh at allocation is absent
/// from the live map beforehand, so it is distinct from every currently-live
/// handle; after freeing it, lookups find nothing; after the slot is handed
/// out again for a new record, lookups find exactly the new record, and every
/// other handle is exactly as it started.
pub proof fn lemma_handle_reuse<T>(
    live0: Map<u32, T>,
    h: u32,
    v1: T,
    live1: Map<u32, T>,
    live2: Map<u32, T>,
    v2: T,
    live3: Map<u32, T>,
)
    requires
        !live0.contains_key(h),
        live1 == live0.insert(h, v1),
        live2 == live1.remove(h),
        live3 == live2.insert(h, v2),
    ensures
        live1[h] == v1,
        forall|g: u32| live0.contains_key(g) ==> g != h,
        !live2.contains_key(h),
        live3[h] == v2,
        forall|g: u32|
            g != h ==> #[trigger] live3.contains_key(g) == live0.contains_key(g) && (
            live3.contains_key(g) ==> live3[g] == live0[g]),
{
}

} // verus!
