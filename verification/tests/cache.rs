use custos_math::cache::BufferCache;
use custos_math::cpu::Host;
use custos_math::Ident;

#[test]
fn test_cache_reuses_exact_size_and_identity() {
    let mut cache: BufferCache<i32> = BufferCache::new();
    cache.hand_back(7, 0, vec![9, 9, 9]);

    // wrong size: no reuse, fresh allocation
    let fresh = cache.retrieve(7, 0, 4, 0);
    assert_eq!(fresh, vec![0, 0, 0, 0]);
    assert_eq!(cache.entries.len(), 1);

    // wrong identity: no reuse either
    let other = cache.retrieve(8, 0, 3, 1);
    assert_eq!(other, vec![1, 1, 1]);
    assert_eq!(cache.entries.len(), 1);

    // identity and size match: the pooled buffer comes back, stale data and all
    let reused = cache.retrieve(7, 0, 3, 0);
    assert_eq!(reused, vec![9, 9, 9]);
    assert_eq!(cache.entries.len(), 0);
}

#[test]
fn test_sequential_ops_reuse_without_stale_data() {
    let mut device: Host<i32> = Host::new();
    let x = device.matrix(1, 4, vec![10, 20, 30, 40]);

    let a = x.adds(&mut device, 1);
    assert_eq!(a.read(), vec![11, 21, 31, 41]);

    // release the first output; its buffer becomes eligible for reuse
    device.hand_back(a);
    assert_eq!(device.cache.entries.len(), 1);

    // the next same-size operation on the same input takes the pooled buffer
    let b = x.muls(&mut device, 3);
    assert_eq!(device.cache.entries.len(), 0);

    // and its result carries nothing of the first operation's output
    assert_eq!(b.read(), vec![30, 60, 90, 120]);
}

#[test]
fn test_matrix_accessors() {
    let mut device: Host<i32> = Host::new();
    let x = device.matrix(2, 3, vec![1, 2, 3, 4, 5, 6]);
    assert_eq!(x.rows(), 2);
    assert_eq!(x.cols(), 3);
    assert_eq!(x.size(), 6);
    assert_eq!(x.dims(), (2, 3));
    assert_eq!(x.read(), vec![1, 2, 3, 4, 5, 6]);
}

#[test]
fn test_ident_equality() {
    let a = Ident { left: 1, right: 2 };
    let b = Ident { left: 1, right: 2 };
    let c = Ident { left: 1, right: 3 };
    assert_eq!(a, b);
    assert_ne!(a, c);
}
