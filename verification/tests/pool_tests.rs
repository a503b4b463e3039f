use hearth_engine::pools::{
    map_size_class, vector_size_class, GameDataPools, HashMapPool, SizeClass, VectorPool,
};

#[test]
fn test_vector_pool() {
    let mut pool = VectorPool::<i32>::new();

    {
        let mut vec1 = pool.acquire(10);
        vec1.push(1);
        vec1.push(2);
        assert_eq!(vec1.len(), 2);
        pool.release(vec1);
    }

    {
        let vec2 = pool.acquire(10);
        // Should get a cleared vector from pool
        assert_eq!(vec2.len(), 0);
        assert!(vec2.as_vec().capacity() >= 10);
        pool.release(vec2);
    }
}

#[test]
fn test_hashmap_pool() {
    let mut pool = HashMapPool::<i32, String>::new();

    {
        let mut map1 = pool.acquire(10);
        map1.as_mut_map().insert(1, "test".to_string());
        assert_eq!(map1.len(), 1);
        pool.release(map1);
    }

    {
        let map2 = pool.acquire(10);
        // Should get a cleared map from pool
        assert_eq!(map2.len(), 0);
        pool.release(map2);
    }
}

#[test]
fn vector_classes_follow_expected_size() {
    assert_eq!(vector_size_class(0), SizeClass::Small);
    assert_eq!(vector_size_class(16), SizeClass::Small);
    assert_eq!(vector_size_class(17), SizeClass::Medium);
    assert_eq!(vector_size_class(64), SizeClass::Medium);
    assert_eq!(vector_size_class(65), SizeClass::Large);
    assert_eq!(vector_size_class(256), SizeClass::Large);
    assert_eq!(vector_size_class(257), SizeClass::Huge);
    assert_eq!(map_size_class(10_000), SizeClass::Large);
}

#[test]
fn acquire_takes_from_its_class_only() {
    let mut pool = VectorPool::<u8>::new();
    assert_eq!(pool.small_pool.len(), 32);
    assert_eq!(pool.huge_pool.len(), 4);
    let big = pool.acquire(1000);
    assert_eq!(big.class, SizeClass::Huge);
    assert_eq!(pool.huge_pool.len(), 3);
    assert_eq!(pool.small_pool.len(), 32);
    assert_eq!(pool.medium_pool.len(), 16);
    assert_eq!(pool.large_pool.len(), 8);
    pool.release(big);
    assert_eq!(pool.huge_pool.len(), 4);
}

#[test]
fn empty_class_pool_makes_a_fresh_vector() {
    let mut pool = VectorPool::<u8>::new();
    let mut held = Vec::new();
    for _ in 0..4 {
        held.push(pool.acquire(300));
    }
    assert_eq!(pool.huge_pool.len(), 0);
    let extra = pool.acquire(300);
    assert_eq!(extra.len(), 0);
    assert!(extra.as_vec().capacity() >= 1024);
    assert_eq!(pool.huge_pool.len(), 0);
}

#[test]
fn grown_vector_is_not_taken_back() {
    let mut pool = VectorPool::<u32>::new();
    let mut v = pool.acquire(1);
    for i in 0..5000u32 {
        v.push(i);
    }
    assert_eq!(pool.small_pool.len(), 31);
    pool.release(v);
    assert_eq!(pool.small_pool.len(), 31);
}

#[test]
fn returned_vector_comes_back_cleared() {
    let mut pool = VectorPool::<u32>::new();
    let mut v = pool.acquire(3);
    v.push(7);
    pool.return_vector(v, 16);
    assert_eq!(pool.small_pool.len(), 32);
    assert_eq!(pool.small_pool[31], vec![7]);
    let again = pool.acquire(3);
    assert_eq!(again.len(), 0);
}

#[test]
fn game_pools_start_full() {
    let pools = GameDataPools::new();
    assert_eq!(pools.chunk_pos_vectors.small_pool.len(), 32);
    assert_eq!(pools.chunk_pos_maps.small_pool.len(), 16);
    assert_eq!(pools.chunk_pos_maps.large_pool.len(), 4);
    assert_eq!(pools.temp_string_pool.huge_pool.len(), 4);
}
