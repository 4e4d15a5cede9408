use lockfree_object_pool::NoneObjectPool;
use lockfree_object_pool::NoneReusable;

#[test]
fn test_none_01() {
    let pool = NoneObjectPool::<u32>::new(|| Default::default());
    for _ in 0..2 {
        let mut v = pool.pull();
        assert_eq!(*v, 0);
        *v += 1;
        assert_eq!(*v, 1);
    }
}

#[test]
fn test_none_makes_a_new_object_each_time() {
    let pool = NoneObjectPool::<Vec<u8>>::new(|| vec![1, 2, 3]);
    let mut first = pool.pull();
    first.push(4);
    let second = pool.pull();
    assert_eq!(*first, vec![1, 2, 3, 4]);
    assert_eq!(*second, vec![1, 2, 3]);
}

#[test]
fn test_none_reusable_holds_what_it_is_given() {
    let mut guard = NoneReusable::new(41u64);
    assert_eq!(*guard, 41);
    *guard += 1;
    assert_eq!(*guard, 42);
}
