//! Moving data between the CPU's array of structures and the GPU's structure of arrays.
//!
//! A type that has a structure-of-arrays form implements `SoaCompatible`; the bridge and the
//! iterator here pass its items through that form.

use vstd::prelude::*;

verus! {

/// A type with a structure-of-arrays form for the GPU.
pub trait SoaCompatible: Sized {
    /// The structure of arrays.
    type Arrays;

    /// The structure of arrays of `items`.
    fn to_soa(items: &[Self]) -> Self::Arrays;

    /// The item at `index` of the arrays.
    fn from_soa(arrays: &Self::Arrays, index: usize) -> Self;

    /// Replaces the item at `index` of the arrays.
    fn update_soa(arrays: &mut Self::Arrays, index: usize, item: &Self);

    /// Number of items in the arrays.
    fn soa_count(arrays: &Self::Arrays) -> usize;
}

/// Bridge between the CPU and GPU layouts.
pub struct CpuGpuBridge;

impl CpuGpuBridge {
    /// The GPU layout of `cpu_data`.
    pub fn pack_for_gpu<T: SoaCompatible>(cpu_data: &[T]) -> (r: T::Arrays)
        ensures
            call_ensures(T::to_soa, (cpu_data,), r),
    {
        T::to_soa(cpu_data)
    }

    /// The item at `index` of the GPU layout.
    pub fn unpack_from_gpu<T: SoaCompatible>(gpu_data: &T::Arrays, index: usize) -> (r: T)
        ensures
            call_ensures(T::from_soa, (gpu_data, index), r),
    {
        T::from_soa(gpu_data, index)
    }

    /// Replaces the item at `index` of the GPU layout with `cpu_item` through the type's
    /// `update_soa`: the arrays afterwards are what one call of `update_soa` makes of the
    /// arrays before, with this index and item.
    pub fn update_in_gpu<T: SoaCompatible>(gpu_data: &mut T::Arrays, index: usize, cpu_item: &T)
        ensures
            exists|r: &mut T::Arrays|
                mut_ref_current(r) == *old(gpu_data) && mut_ref_future(r) == *final(gpu_data)
                    && #[trigger] call_ensures(T::update_soa, (r, index, cpu_item), ()),
    {
        T::update_soa(gpu_data, index, cpu_item);
    }

    /// Every item of the GPU layout, in order.
    pub fn unpack_all<T: SoaCompatible>(gpu_data: &T::Arrays) -> (r: Vec<T>)
        ensures
            exists|count: usize|
                call_ensures(T::soa_count, (gpu_data,), count) && r@.len() == count && forall|i: int|
                    0 <= i < count ==> call_ensures(T::from_soa, (gpu_data, i as usize), #[trigger] r@[i]),
    {
        let count = T::soa_count(gpu_data);
        let mut items: Vec<T> = Vec::new();
        let mut i: usize = 0;
        while i < count
            invariant
                i <= count,
                items@.len() == i,
                forall|k: int|
                    0 <= k < i ==> call_ensures(T::from_soa, (gpu_data, k as usize), #[trigger] items@[k]),
            decreases count - i,
        {
            let item = T::from_soa(gpu_data, i);
            items.push(item);
            i += 1;
        }
        items
    }
}

/// Conversion of a collection to its structure of arrays.
pub trait SoaOps<T: SoaCompatible> {
    fn to_soa(&self) -> T::Arrays;
}

impl<T: SoaCompatible> SoaOps<T> for Vec<T> {
    /// The structure of arrays that the type's `to_soa` makes of the vector's items.
    fn to_soa(&self) -> (r: T::Arrays)
        ensures
            exists|items: &[T]| items@ == self@ && call_ensures(T::to_soa, (items,), r),
    {
        let items = self.as_slice();
        let r = CpuGpuBridge::pack_for_gpu(items);
        assert(items@ == self@ && call_ensures(T::to_soa, (items,), r));
        r
    }
}

/// Walks the items of a structure of arrays.
pub struct SoaIterator<'a, T: SoaCompatible> {
    pub data: &'a T::Arrays,
    pub index: usize,
    pub count: usize,
}

impl<'a, T: SoaCompatible> SoaIterator<'a, T> {
    /// A walk from the first item.
    pub fn new(data: &'a T::Arrays) -> (r: Self)
        ensures
            r.data == data,
            r.index == 0,
            call_ensures(T::soa_count, (data,), r.count),
    {
        SoaIterator { data, index: 0, count: T::soa_count(data) }
    }

    /// The next item, where the walk has not ended.
    pub fn next_item(&mut self) -> (r: Option<T>)
        ensures
            final(self).data == old(self).data,
            final(self).count == old(self).count,
            old(self).index < old(self).count ==> {
                &&& final(self).index == old(self).index + 1
                &&& r matches Some(item) && call_ensures(T::from_soa, (old(self).data, old(self).index), item)
            },
            old(self).index >= old(self).count ==> r is None && final(self).index == old(self).index,
    {
        if self.index < self.count {
            let item = T::from_soa(self.data, self.index);
            self.index = self.index + 1;
            Some(item)
        } else {
            None
        }
    }

    /// Number of items left.
    pub fn remaining(&self) -> (r: usize)
        requires
            self.index <= self.count,
        ensures
            r == self.count - self.index,
    {
        self.count - self.index
    }
}

/// Walking the items of a structure of arrays.
pub trait SoaIterExt<T: SoaCompatible> {
    fn iter_soa(&self) -> SoaIterator<'_, T>;
}

} // verus!
