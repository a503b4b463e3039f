//! Pools of preallocated vectors and hash maps, sorted into size classes, so that
//! per-frame code can borrow a container instead of allocating one.

use vstd::prelude::*;
use std::collections::HashMap;
use std::hash::Hash;
use crate::world_types::{BlockId, ChunkPos, VoxelPos};

verus! {

/// The size class a pooled container belongs to.
#[derive(Debug, Clone, Copy, PartialEq, Eq, Structural)]
pub enum SizeClass {
    Small,
    Medium,
    Large,
    Huge,
}

/// Capacity of a small pooled container.
pub const SMALL_CAPACITY: usize = 16;
/// Capacity of a medium pooled container.
pub const MEDIUM_CAPACITY: usize = 64;
/// Capacity of a large pooled container.
pub const LARGE_CAPACITY: usize = 256;
/// Capacity of a huge pooled vector.
pub const HUGE_CAPACITY: usize = 1024;
/// A vector that grew beyond this capacity is not taken back.
pub const MAX_RETURNED_VECTOR_CAPACITY: usize = 1024;
/// A map that grew beyond this capacity is not taken back.
pub const MAX_RETURNED_MAP_CAPACITY: usize = 512;

/// The class a vector for `expected_size` elements is taken from.
pub open spec fn vector_class_of(expected_size: int) -> SizeClass {
    if expected_size <= 16 {
        SizeClass::Small
    } else if expected_size <= 64 {
        SizeClass::Medium
    } else if expected_size <= 256 {
        SizeClass::Large
    } else {
        SizeClass::Huge
    }
}

/// The class a map for `expected_size` entries is taken from (maps have no huge class).
pub open spec fn map_class_of(expected_size: int) -> SizeClass {
    if expected_size <= 16 {
        SizeClass::Small
    } else if expected_size <= 64 {
        SizeClass::Medium
    } else {
        SizeClass::Large
    }
}

/// The capacity a fresh container of a class is made with.
pub open spec fn capacity_of(class: SizeClass) -> usize {
    match class {
        SizeClass::Small => SMALL_CAPACITY,
        SizeClass::Medium => MEDIUM_CAPACITY,
        SizeClass::Large => LARGE_CAPACITY,
        SizeClass::Huge => HUGE_CAPACITY,
    }
}

/// The class a vector for `expected_size` elements is taken from.
pub fn vector_size_class(expected_size: usize) -> (r: SizeClass)
    ensures
        r == vector_class_of(expected_size as int),
{
    if expected_size <= 16 {
        SizeClass::Small
    } else if expected_size <= 64 {
        SizeClass::Medium
    } else if expected_size <= 256 {
        SizeClass::Large
    } else {
        SizeClass::Huge
    }
}

/// The class a map for `expected_size` entries is taken from.
pub fn map_size_class(expected_size: usize) -> (r: SizeClass)
    ensures
        r == map_class_of(expected_size as int),
        r != SizeClass::Huge,
{
    if expected_size <= 16 {
        SizeClass::Small
    } else if expected_size <= 64 {
        SizeClass::Medium
    } else {
        SizeClass::Large
    }
}

/// The capacity a fresh container of `class` is made with.
pub fn class_capacity(class: SizeClass) -> (r: usize)
    ensures
        r == capacity_of(class),
{
    match class {
        SizeClass::Small => SMALL_CAPACITY,
        SizeClass::Medium => MEDIUM_CAPACITY,
        SizeClass::Large => LARGE_CAPACITY,
        SizeClass::Huge => HUGE_CAPACITY,
    }
}

/// `Vec::capacity`: how many elements the vector holds without reallocating. Its
/// documentation promises no less than the length; the number itself is the
/// allocator's and is not stated.
#[verifier::external_body]
fn vec_capacity<T>(v: &Vec<T>) -> (r: usize)
    ensures
        r >= v@.len(),
{
    v.capacity()
}

/// `HashMap::capacity`: a lower bound on how many entries the map holds without
/// reallocating, chosen by the map's allocation policy; nothing is stated of it.
#[verifier::external_body]
fn map_capacity<K, V>(m: &HashMap<K, V>) -> (r: usize) {
    m.capacity()
}

/// `capacity` is a value that a call of `vec_capacity`, and so `Vec::capacity`, returned
/// for `v`.
pub closed spec fn reported_vec_capacity<T>(v: &Vec<T>, capacity: usize) -> bool {
    call_ensures(vec_capacity::<T>, (v,), capacity)
}

/// `capacity` is a value that a call of `map_capacity`, and so `HashMap::capacity`, returned
/// for `m`.
pub closed spec fn reported_map_capacity<K, V>(m: &HashMap<K, V>, capacity: usize) -> bool {
    call_ensures(map_capacity::<K, V>, (m,), capacity)
}

/// Whether every vector of `s` is empty.
pub open spec fn all_empty_vectors<T>(s: Seq<Vec<T>>) -> bool {
    forall|i: int| 0 <= i < s.len() ==> (#[trigger] s[i])@.len() == 0
}

/// Whether every map of `s` is empty.
pub open spec fn all_empty_maps<K, V>(s: Seq<HashMap<K, V>>) -> bool {
    forall|i: int| 0 <= i < s.len() ==> (#[trigger] s[i])@ == Map::<K, V>::empty()
}

/// `count` empty vectors made with room for `capacity` elements.
fn empty_vectors<T>(count: usize, capacity: usize) -> (r: Vec<Vec<T>>)
    ensures
        r@.len() == count,
        all_empty_vectors(r@),
{
    let mut r: Vec<Vec<T>> = Vec::with_capacity(count);
    let mut i: usize = 0;
    while i < count
        invariant
            i <= count,
            r@.len() == i,
            all_empty_vectors(r@),
        decreases count - i,
    {
        r.push(Vec::with_capacity(capacity));
        i = i + 1;
    }
    r
}

/// `count` empty maps made with room for `capacity` entries.
fn empty_maps<K, V>(count: usize, capacity: usize) -> (r: Vec<HashMap<K, V>>)
    ensures
        r@.len() == count,
        all_empty_maps(r@),
{
    let mut r: Vec<HashMap<K, V>> = Vec::with_capacity(count);
    let mut i: usize = 0;
    while i < count
        invariant
            i <= count,
            r@.len() == i,
            all_empty_maps(r@),
        decreases count - i,
    {
        r.push(HashMap::with_capacity(capacity));
        i = i + 1;
    }
    r
}

/// Takes the last vector of `pool`, emptied, or a fresh one when the pool is empty.
fn take_vector<T>(pool: &mut Vec<Vec<T>>, capacity: usize) -> (r: Vec<T>)
    ensures
        r@.len() == 0,
        old(pool)@.len() > 0 ==> final(pool)@ == old(pool)@.drop_last(),
        old(pool)@.len() == 0 ==> final(pool)@ == old(pool)@,
{
    match pool.pop() {
        Some(v) => {
            let mut v = v;
            v.clear();
            v
        },
        None => Vec::with_capacity(capacity),
    }
}

/// Takes the last map of `pool`, emptied, or a fresh one when the pool is empty.
fn take_map<K, V>(pool: &mut Vec<HashMap<K, V>>, capacity: usize) -> (r: HashMap<K, V>)
    ensures
        r@ == Map::<K, V>::empty(),
        old(pool)@.len() > 0 ==> final(pool)@ == old(pool)@.drop_last(),
        old(pool)@.len() == 0 ==> final(pool)@ == old(pool)@,
{
    match pool.pop() {
        Some(m) => {
            let mut m = m;
            m.clear();
            m
        },
        None => HashMap::with_capacity(capacity),
    }
}

/// Preallocated vectors, one pool per size class.
pub struct VectorPool<T> {
    pub small_pool: Vec<Vec<T>>,
    pub medium_pool: Vec<Vec<T>>,
    pub large_pool: Vec<Vec<T>>,
    pub huge_pool: Vec<Vec<T>>,
}

/// A vector borrowed from a [`VectorPool`], with the class it goes back to.
pub struct PooledVector<T> {
    pub vec: Vec<T>,
    pub class: SizeClass,
}

impl<T> PooledVector<T> {
    /// The borrowed vector.
    pub fn as_vec(&self) -> (r: &Vec<T>)
        ensures
            *r == self.vec,
    {
        &self.vec
    }

    /// The borrowed vector, to change it.
    pub fn as_mut_vec(&mut self) -> (r: &mut Vec<T>)
        ensures
            *r == old(self).vec,
            *final(self) == (PooledVector { vec: *final(r), class: old(self).class }),
    {
        &mut self.vec
    }

    /// Number of elements in the borrowed vector.
    pub fn len(&self) -> (r: usize)
        ensures
            r == self.vec@.len(),
    {
        self.vec.len()
    }

    /// Appends `value` to the borrowed vector.
    pub fn push(&mut self, value: T)
        ensures
            final(self).vec@ == old(self).vec@.push(value),
            final(self).class == old(self).class,
    {
        self.vec.push(value);
    }
}

impl<T> VectorPool<T> {
    /// The vectors waiting in the pool of `class`.
    pub open spec fn pool_of(&self, class: SizeClass) -> Seq<Vec<T>> {
        match class {
            SizeClass::Small => self.small_pool@,
            SizeClass::Medium => self.medium_pool@,
            SizeClass::Large => self.large_pool@,
            SizeClass::Huge => self.huge_pool@,
        }
    }

    /// Whether the pool holds 32 small, 16 medium, 8 large and 4 huge vectors, all
    /// empty.
    pub open spec fn is_full(&self) -> bool {
        &&& self.pool_of(SizeClass::Small).len() == 32
        &&& self.pool_of(SizeClass::Medium).len() == 16
        &&& self.pool_of(SizeClass::Large).len() == 8
        &&& self.pool_of(SizeClass::Huge).len() == 4
        &&& forall|c: SizeClass| all_empty_vectors(#[trigger] self.pool_of(c))
    }

    /// A pool holding 32 small, 16 medium, 8 large and 4 huge empty vectors.
    pub fn new() -> (r: Self)
        ensures
            r.is_full(),
    {
        let r = VectorPool {
            small_pool: empty_vectors(32, SMALL_CAPACITY),
            medium_pool: empty_vectors(16, MEDIUM_CAPACITY),
            large_pool: empty_vectors(8, LARGE_CAPACITY),
            huge_pool: empty_vectors(4, HUGE_CAPACITY),
        };
        assert forall|c: SizeClass| all_empty_vectors(#[trigger] r.pool_of(c)) by {
            match c {
                SizeClass::Small => {},
                SizeClass::Medium => {},
                SizeClass::Large => {},
                SizeClass::Huge => {},
            }
        }
        r
    }

    /// Borrows an empty vector of the class for `expected_size`: the last one waiting
    /// in that class's pool, or a fresh one when that pool is empty. The other pools
    /// are left alone.
    pub fn acquire(&mut self, expected_size: usize) -> (r: PooledVector<T>)
        ensures
            r.class == vector_class_of(expected_size as int),
            r.vec@.len() == 0,
            old(self).pool_of(r.class).len() > 0 ==> final(self).pool_of(r.class)
                == old(self).pool_of(r.class).drop_last(),
            old(self).pool_of(r.class).len() == 0 ==> final(self).pool_of(r.class) == old(
                self,
            ).pool_of(r.class),
            forall|c: SizeClass| c != r.class ==> #[trigger] final(self).pool_of(c) == old(
                self,
            ).pool_of(c),
    {
        let class = vector_size_class(expected_size);
        let vec = match class {
            SizeClass::Small => take_vector(&mut self.small_pool, SMALL_CAPACITY),
            SizeClass::Medium => take_vector(&mut self.medium_pool, MEDIUM_CAPACITY),
            SizeClass::Large => take_vector(&mut self.large_pool, LARGE_CAPACITY),
            SizeClass::Huge => take_vector(&mut self.huge_pool, HUGE_CAPACITY),
        };
        PooledVector { vec, class }
    }

    /// Takes back a borrowed vector whose capacity is `capacity`: it joins the end of
    /// its class's pool unless it grew beyond `MAX_RETURNED_VECTOR_CAPACITY`, in
    /// which case it is dropped.
    pub fn return_vector(&mut self, pooled: PooledVector<T>, capacity: usize)
        ensures
            capacity <= MAX_RETURNED_VECTOR_CAPACITY ==> final(self).pool_of(pooled.class)
                == old(self).pool_of(pooled.class).push(pooled.vec),
            capacity > MAX_RETURNED_VECTOR_CAPACITY ==> final(self).pool_of(pooled.class)
                == old(self).pool_of(pooled.class),
            forall|c: SizeClass| c != pooled.class ==> #[trigger] final(self).pool_of(c)
                == old(self).pool_of(c),
    {
        if capacity <= MAX_RETURNED_VECTOR_CAPACITY {
            let PooledVector { vec, class } = pooled;
            match class {
                SizeClass::Small => self.small_pool.push(vec),
                SizeClass::Medium => self.medium_pool.push(vec),
                SizeClass::Large => self.large_pool.push(vec),
                SizeClass::Huge => self.huge_pool.push(vec),
            }
        }
    }

    /// Gives a borrowed vector back: it joins the end of its class's pool, unless
    /// its capacity, as `Vec::capacity` reports it, grew beyond `MAX_RETURNED_VECTOR_CAPACITY`; a vector longer than
    /// that is therefore never kept.
    pub fn release(&mut self, pooled: PooledVector<T>)
        ensures
            final(self).pool_of(pooled.class) == old(self).pool_of(pooled.class).push(pooled.vec)
                || final(self).pool_of(pooled.class) == old(self).pool_of(pooled.class),
            pooled.vec@.len() > MAX_RETURNED_VECTOR_CAPACITY ==> final(self).pool_of(pooled.class)
                == old(self).pool_of(pooled.class),
            exists|capacity: usize|
                #[trigger] reported_vec_capacity(&pooled.vec, capacity) && (capacity
                    <= MAX_RETURNED_VECTOR_CAPACITY ==> final(self).pool_of(pooled.class) == old(
                    self,
                ).pool_of(pooled.class).push(pooled.vec)) && (capacity > MAX_RETURNED_VECTOR_CAPACITY
                    ==> final(self).pool_of(pooled.class) == old(self).pool_of(pooled.class)),
            forall|c: SizeClass| c != pooled.class ==> #[trigger] final(self).pool_of(c)
                == old(self).pool_of(c),
    {
        let capacity = vec_capacity(&pooled.vec);
        assert(reported_vec_capacity(&pooled.vec, capacity));
        self.return_vector(pooled, capacity);
    }
}

/// Preallocated hash maps, one pool per size class (small, medium, large).
pub struct HashMapPool<K, V> {
    pub small_pool: Vec<HashMap<K, V>>,
    pub medium_pool: Vec<HashMap<K, V>>,
    pub large_pool: Vec<HashMap<K, V>>,
}

/// A map borrowed from a [`HashMapPool`], with the class it goes back to.
pub struct PooledHashMap<K, V> {
    pub map: HashMap<K, V>,
    pub class: SizeClass,
}

impl<K, V> PooledHashMap<K, V> {
    /// The borrowed map.
    pub fn as_map(&self) -> (r: &HashMap<K, V>)
        ensures
            *r == self.map,
    {
        &self.map
    }

    /// The borrowed map, to change it.
    pub fn as_mut_map(&mut self) -> (r: &mut HashMap<K, V>)
        ensures
            *r == old(self).map,
            *final(self) == (PooledHashMap { map: *final(r), class: old(self).class }),
    {
        &mut self.map
    }

    /// Number of entries in the borrowed map.
    pub fn len(&self) -> (r: usize)
        ensures
            r == self.map.len(),
    {
        self.map.len()
    }
}

impl<K: Eq + Hash, V> HashMapPool<K, V> {
    /// The maps waiting in the pool of `class` (none for the huge class).
    pub open spec fn pool_of(&self, class: SizeClass) -> Seq<HashMap<K, V>> {
        match class {
            SizeClass::Small => self.small_pool@,
            SizeClass::Medium => self.medium_pool@,
            SizeClass::Large => self.large_pool@,
            SizeClass::Huge => Seq::empty(),
        }
    }

    /// Whether the pool holds 16 small, 8 medium and 4 large maps, all empty.
    pub open spec fn is_full(&self) -> bool {
        &&& self.pool_of(SizeClass::Small).len() == 16
        &&& self.pool_of(SizeClass::Medium).len() == 8
        &&& self.pool_of(SizeClass::Large).len() == 4
        &&& forall|c: SizeClass| all_empty_maps(#[trigger] self.pool_of(c))
    }

    /// A pool holding 16 small, 8 medium and 4 large empty maps.
    pub fn new() -> (r: Self)
        ensures
            r.is_full(),
    {
        let r = HashMapPool {
            small_pool: empty_maps(16, SMALL_CAPACITY),
            medium_pool: empty_maps(8, MEDIUM_CAPACITY),
            large_pool: empty_maps(4, LARGE_CAPACITY),
        };
        assert forall|c: SizeClass| all_empty_maps(#[trigger] r.pool_of(c)) by {
            match c {
                SizeClass::Small => {},
                SizeClass::Medium => {},
                SizeClass::Large => {},
                SizeClass::Huge => {},
            }
        }
        r
    }

    /// Borrows an empty map of the class for `expected_size`: the last one waiting in
    /// that class's pool, or a fresh one when that pool is empty. The other pools are
    /// left alone.
    pub fn acquire(&mut self, expected_size: usize) -> (r: PooledHashMap<K, V>)
        ensures
            r.class == map_class_of(expected_size as int),
            r.map@ == Map::<K, V>::empty(),
            old(self).pool_of(r.class).len() > 0 ==> final(self).pool_of(r.class)
                == old(self).pool_of(r.class).drop_last(),
            old(self).pool_of(r.class).len() == 0 ==> final(self).pool_of(r.class) == old(
                self,
            ).pool_of(r.class),
            forall|c: SizeClass| c != r.class ==> #[trigger] final(self).pool_of(c) == old(
                self,
            ).pool_of(c),
    {
        let class = map_size_class(expected_size);
        let map = match class {
            SizeClass::Small => take_map(&mut self.small_pool, SMALL_CAPACITY),
            SizeClass::Medium => take_map(&mut self.medium_pool, MEDIUM_CAPACITY),
            _ => take_map(&mut self.large_pool, LARGE_CAPACITY),
        };
        PooledHashMap { map, class }
    }

    /// Takes back a borrowed map whose capacity is `capacity`: it joins the end of
    /// its class's pool unless it grew beyond `MAX_RETURNED_MAP_CAPACITY`, in which
    /// case it is dropped. A map marked huge, which `acquire` never hands out, goes
    /// to the large pool.
    pub fn return_map(&mut self, pooled: PooledHashMap<K, V>, capacity: usize)
        requires
            pooled.class != SizeClass::Huge,
        ensures
            capacity <= MAX_RETURNED_MAP_CAPACITY ==> final(self).pool_of(pooled.class)
                == old(self).pool_of(pooled.class).push(pooled.map),
            capacity > MAX_RETURNED_MAP_CAPACITY ==> final(self).pool_of(pooled.class)
                == old(self).pool_of(pooled.class),
            forall|c: SizeClass| c != pooled.class ==> #[trigger] final(self).pool_of(c)
                == old(self).pool_of(c),
    {
        if capacity <= MAX_RETURNED_MAP_CAPACITY {
            let PooledHashMap { map, class } = pooled;
            match class {
                SizeClass::Small => self.small_pool.push(map),
                SizeClass::Medium => self.medium_pool.push(map),
                _ => self.large_pool.push(map),
            }
        }
    }

    /// Gives a borrowed map back: it joins the end of its class's pool, unless its
    /// capacity, as `HashMap::capacity` reports it, grew beyond
    /// `MAX_RETURNED_MAP_CAPACITY`.
    pub fn release(&mut self, pooled: PooledHashMap<K, V>)
        requires
            pooled.class != SizeClass::Huge,
        ensures
            final(self).pool_of(pooled.class) == old(self).pool_of(pooled.class).push(pooled.map)
                || final(self).pool_of(pooled.class) == old(self).pool_of(pooled.class),
            exists|capacity: usize|
                #[trigger] reported_map_capacity(&pooled.map, capacity) && (capacity
                    <= MAX_RETURNED_MAP_CAPACITY ==> final(self).pool_of(pooled.class) == old(
                    self,
                ).pool_of(pooled.class).push(pooled.map)) && (capacity > MAX_RETURNED_MAP_CAPACITY
                    ==> final(self).pool_of(pooled.class) == old(self).pool_of(pooled.class)),
            forall|c: SizeClass| c != pooled.class ==> #[trigger] final(self).pool_of(c)
                == old(self).pool_of(c),
    {
        let capacity = map_capacity(&pooled.map);
        assert(reported_map_capacity(&pooled.map, capacity));
        self.return_map(pooled, capacity);
    }
}

/// Pools for the containers that game code borrows most.
pub struct GameDataPools {
    pub chunk_pos_vectors: VectorPool<ChunkPos>,
    pub voxel_pos_vectors: VectorPool<VoxelPos>,
    pub block_id_vectors: VectorPool<BlockId>,
    pub chunk_pos_maps: HashMapPool<ChunkPos, u32>,
    pub temp_string_pool: VectorPool<String>,
}

impl GameDataPools {
    /// Every pool full, as `VectorPool::new` and `HashMapPool::new` make them.
    pub fn new() -> (r: Self)
        ensures
            r.chunk_pos_vectors.is_full(),
            r.voxel_pos_vectors.is_full(),
            r.block_id_vectors.is_full(),
            r.chunk_pos_maps.is_full(),
            r.temp_string_pool.is_full(),
    {
        GameDataPools {
            chunk_pos_vectors: VectorPool::new(),
            voxel_pos_vectors: VectorPool::new(),
            block_id_vectors: VectorPool::new(),
            chunk_pos_maps: HashMapPool::new(),
            temp_string_pool: VectorPool::new(),
        }
    }
}

} // verus!
