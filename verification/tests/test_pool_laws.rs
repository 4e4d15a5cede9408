use lockfree_object_pool::bitmask::Answer;
use lockfree_object_pool::bitmask::Change;
use lockfree_object_pool::bitmask::Round;
use lockfree_object_pool::LinearObjectPool;
use lockfree_object_pool::LinearPage;
use lockfree_object_pool::MutexObjectPool;
use lockfree_object_pool::Page;
use lockfree_object_pool::SpinLock;
use lockfree_object_pool::SpinLockObjectPool;
use std::sync::atomic::AtomicUsize;
use std::sync::atomic::Ordering;
use std::sync::Arc;

fn address_of(object: &u32) -> String {
    format!("{:p}", object)
}

#[test]
fn test_live_guards_have_distinct_objects() {
    let pool = LinearObjectPool::<u32>::new(|| 0, |v| *v = 0);
    let mut guards = Vec::new();
    let mut addrs = Vec::new();
    for n in 0..100u32 {
        let mut guard = pool.pull();
        *guard = n;
        let addr = address_of(&guard);
        assert!(!addrs.contains(&addr));
        addrs.push(addr);
        guards.push(guard);
    }
    assert_eq!(addrs.len(), 100);
    for (n, guard) in guards.iter().enumerate() {
        assert_eq!(**guard, n as u32);
    }
}

#[test]
fn test_thirty_three_pulls_grow_the_chain_once() {
    let head = LinearPage::<u32>::new(|| 0);
    let mut slots = Vec::new();
    for n in 0..33u8 {
        let (page, id) = head.allocate(|| 0).unwrap();
        if n < 32 {
            assert_eq!(id, n);
        } else {
            assert_eq!(id, 0);
        }
        slots.push((page, id));
    }
    let first = slots[0].0;
    for (page, _) in slots.iter().take(32) {
        assert!(std::ptr::eq(*page, first));
        assert!(page.is_full());
    }
    let second = slots[32].0;
    assert!(!std::ptr::eq(second, first));
    assert!(std::ptr::eq(head.get_or_create_next(|| 0).allocate(|| 0).unwrap().0, second));
    assert_eq!(second.get_mask(), u32::MAX - 3);
    for (n, (page_a, id_a)) in slots.iter().enumerate() {
        for (page_b, id_b) in slots.iter().skip(n + 1) {
            assert!(!(std::ptr::eq(*page_a, *page_b) && id_a == id_b));
        }
    }
}

#[test]
fn test_thirty_three_guards_are_distinct() {
    let pool = LinearObjectPool::<u32>::new(|| 0, |v| *v = 0);
    let mut guards = Vec::new();
    let mut addrs = Vec::new();
    for _ in 0..33 {
        let guard = pool.pull();
        let addr = address_of(&guard);
        assert!(!addrs.contains(&addr));
        addrs.push(addr);
        guards.push(guard);
    }
    assert_eq!(addrs.len(), 33);
}

#[test]
fn test_page_is_full_until_a_slot_is_freed() {
    let page = Page::<u32>::new(|| 0);
    for _ in 0..32 {
        assert!(page.allocate().is_some());
    }
    assert_eq!(page.is_full(), true);
    assert_eq!(page.allocate(), None);
    assert_eq!(page.allocate(), None);
    page.free(&17);
    assert_eq!(page.is_full(), false);
    assert_eq!(page.get_mask(), 1 << 17);
    assert_eq!(page.allocate(), Some(17));
    assert_eq!(page.is_full(), true);
}

#[test]
fn test_page_hands_out_the_lowest_free_slot() {
    let page = Page::<u32>::new(|| 0);
    for _ in 0..8 {
        page.allocate();
    }
    page.free(&5);
    page.free(&2);
    page.free(&7);
    assert_eq!(page.allocate(), Some(2));
    assert_eq!(page.allocate(), Some(5));
    assert_eq!(page.allocate(), Some(7));
    assert_eq!(page.allocate(), Some(8));
}

#[test]
fn test_page_slots_keep_their_objects() {
    let mut page = Page::<u32>::new(|| 9);
    let id = page.allocate().unwrap();
    let mut object = page.take(&id).unwrap();
    assert_eq!(*object, 9);
    assert!(page.take(&id).is_none());
    *object = 10;
    assert_eq!(page.put(&id, object), Ok(None));
    assert_eq!(page.get(&id).unwrap().as_deref(), Some(&10));
    **page.get_mut(&id).as_mut().unwrap() = 11;
    assert_eq!(page.take(&id).as_deref(), Some(&11));
    assert_eq!(page.get(&3).unwrap().as_deref(), Some(&9));
}

#[test]
fn test_reset_runs_before_reuse_linear() {
    let pool = LinearObjectPool::<u32>::new(|| 1, |v| *v += 1000);
    {
        let mut guard = pool.pull();
        assert_eq!(*guard, 1);
        *guard = 5;
    }
    let guard = pool.pull();
    assert_eq!(*guard, 1005);
}

#[test]
fn test_reset_runs_before_reuse_mutex() {
    let pool = MutexObjectPool::<u32>::new(|| 1, |v| *v += 1000);
    {
        let mut guard = pool.pull();
        assert_eq!(*guard, 1);
        *guard = 5;
    }
    let guard = pool.pull();
    assert_eq!(*guard, 1005);
    let other = pool.pull();
    assert_eq!(*other, 1);
}

#[test]
fn test_reset_runs_before_reuse_spin_lock() {
    let pool = SpinLockObjectPool::<u32>::new(|| 1, |v| *v += 1000);
    {
        let mut guard = pool.pull();
        assert_eq!(*guard, 1);
        *guard = 5;
    }
    let guard = pool.pull();
    assert_eq!(*guard, 1005);
    let other = pool.pull();
    assert_eq!(*other, 1);
}

#[test]
fn test_reset_runs_once_per_return() {
    let resets = Arc::new(AtomicUsize::new(0));
    let counted = Arc::clone(&resets);
    let pool = LinearObjectPool::<u32, _, _>::new(
        || 0,
        move |_v: &mut u32| {
            counted.fetch_add(1, Ordering::SeqCst);
        },
    );
    for _ in 0..7 {
        let _guard = pool.pull();
    }
    assert_eq!(resets.load(Ordering::SeqCst), 7);
}

#[test]
fn test_attach_and_detach() {
    let pool = MutexObjectPool::<u32>::new(|| 0, |v| *v = 3);
    assert_eq!(pool.detach(), None);
    pool.attach(10);
    pool.attach(20);
    assert_eq!(pool.detach(), Some(3));
    assert_eq!(pool.detach(), Some(3));
    assert_eq!(pool.detach(), None);

    let pool = SpinLockObjectPool::<Vec<u8>>::new(|| Vec::new(), |v| v.push(0));
    pool.attach(vec![1]);
    pool.attach(vec![2, 2]);
    assert_eq!(pool.detach(), Some(vec![2, 2, 0]));
    assert_eq!(pool.detach(), Some(vec![1, 0]));
    assert_eq!(pool.detach(), None);
}

#[test]
fn test_restore_and_make() {
    let pool = LinearObjectPool::<u32>::new(|| 4, |v| *v *= 2);
    assert_eq!(pool.make(), 4);
    let mut object = 21;
    pool.restore(&mut object);
    assert_eq!(object, 42);
    let mut other = 1;
    (pool.get_reset_callback())(&mut other);
    assert_eq!(other, 2);
}

#[test]
fn test_teardown_releases_every_object() {
    let token = Arc::new(());
    {
        let source = Arc::clone(&token);
        let pool = LinearObjectPool::<Arc<()>, _, _>::new(move || Arc::clone(&source), |_v| {});
        assert_eq!(Arc::strong_count(&token), 2 + 32);
        {
            let mut guards = Vec::new();
            for _ in 0..70 {
                guards.push(pool.pull());
            }
            assert_eq!(Arc::strong_count(&token), 2 + 96);
        }
        assert_eq!(Arc::strong_count(&token), 2 + 96);
    }
    assert_eq!(Arc::strong_count(&token), 1);
}

#[test]
fn test_teardown_of_list_pools() {
    let token = Arc::new(());
    {
        let source = Arc::clone(&token);
        let pool = MutexObjectPool::<Arc<()>, _, _>::new(move || Arc::clone(&source), |_v| {});
        {
            let _a = pool.pull();
            let _b = pool.pull();
            assert_eq!(Arc::strong_count(&token), 4);
        }
        assert_eq!(Arc::strong_count(&token), 4);
    }
    assert_eq!(Arc::strong_count(&token), 1);
    {
        let source = Arc::clone(&token);
        let pool = SpinLockObjectPool::<Arc<()>, _, _>::new(move || Arc::clone(&source), |_v| {});
        {
            let _a = pool.pull();
            let _b = pool.pull();
            assert_eq!(Arc::strong_count(&token), 4);
        }
        assert_eq!(Arc::strong_count(&token), 4);
    }
    assert_eq!(Arc::strong_count(&token), 1);
}

#[test]
fn test_spin_lock_guards_the_data() {
    let lock = SpinLock::new(vec![1u8]);
    {
        let mut guard = lock.lock().unwrap();
        guard.push(2);
        assert_eq!(guard.len(), 2);
        guard.data_mut().push(3);
        assert_eq!(guard.data(), &vec![1, 2, 3]);
    }
    {
        let guard = lock.lock().unwrap();
        assert_eq!(*guard, vec![1, 2, 3]);
    }
    assert_eq!(lock.acquire(), true);
    lock.release();
    assert_eq!(lock.acquire(), true);
    lock.release();
}

#[test]
fn test_spin_lock_gives_up_after_its_attempts() {
    let lock = SpinLock::new(0u8);
    assert_eq!(lock.exchange(false, true, 0), false);
    assert_eq!(lock.exchange(true, false, 5), false);
    assert_eq!(lock.acquire(), true);
    assert_eq!(lock.exchange(false, true, 5), false);
    assert_eq!(lock.exchange(false, true, 1), false);
    lock.release();
    assert_eq!(lock.exchange(false, true, 1000), true);
    assert_eq!(lock.exchange(true, false, 1000), true);
    assert_eq!(lock.exchange(true, false, 1000), false);
}

#[test]
fn test_walk_gives_up_after_its_pages() {
    let head = LinearPage::<u32>::new(|| 0);
    assert!(head.allocate_within(|| 0, 0).is_none());
    for n in 0..32u8 {
        assert_eq!(head.allocate_within(|| 0, 1).unwrap().1, n);
    }
    assert!(head.allocate_within(|| 0, 1).is_none());
    assert!(head.allocate_within(|| 0, 0).is_none());
    let (page, id) = head.allocate_within(|| 0, 2).unwrap();
    assert_eq!(id, 0);
    assert_eq!(page.get_mask(), u32::MAX - 1);
    page.free(&id);
    let (again, id) = head.allocate_within(|| 0, 2).unwrap();
    assert!(std::ptr::eq(page, again));
    assert_eq!(id, 0);
}

#[test]
fn test_losing_page_is_dropped() {
    let token = Arc::new(());
    let source = Arc::clone(&token);
    let head = LinearPage::<Arc<()>>::new(move || Arc::clone(&source));
    assert_eq!(Arc::strong_count(&token), 1 + 32);
    let maker = Arc::clone(&token);
    let next = head.get_or_create_next(move || Arc::clone(&maker));
    assert_eq!(Arc::strong_count(&token), 1 + 64);
    let unused = Arc::clone(&token);
    let again = head.get_or_create_next(move || Arc::clone(&unused));
    assert!(std::ptr::eq(next, again));
    assert_eq!(Arc::strong_count(&token), 1 + 64);
}

#[test]
fn test_detached_guard_is_reset_and_dropped() {
    let resets = Arc::new(AtomicUsize::new(0));
    let counted = Arc::clone(&resets);
    let pool = LinearObjectPool::<u32, _, _>::new(
        || 8,
        move |v: &mut u32| {
            *v = 0;
            counted.fetch_add(1, Ordering::SeqCst);
        },
    );
    {
        let mut guard = lockfree_object_pool::LinearReusable::detached(&pool);
        assert_eq!(*guard, 8);
        *guard = 9;
        assert_eq!(*guard, 9);
    }
    assert_eq!(resets.load(Ordering::SeqCst), 1);
    let guard = pool.pull();
    assert_eq!(*guard, 8);
}

#[test]
fn test_free_of_a_free_slot_changes_nothing() {
    let page = Page::<u32>::new(|| 0);
    page.free(&3);
    assert_eq!(page.get_mask(), u32::MAX);
    assert_eq!(page.allocate(), Some(0));
    page.free(&0);
    page.free(&0);
    assert_eq!(page.get_mask(), u32::MAX);
}

#[test]
fn test_forgotten_guard_keeps_its_slot() {
    let pool = LinearObjectPool::<u32>::new(|| 0, |v| *v = 0);
    let lost = pool.pull();
    let lost_at = address_of(&lost);
    std::mem::forget(lost);
    for _ in 0..40 {
        let guard = pool.pull();
        assert_ne!(address_of(&guard), lost_at);
    }
    let mut guards = Vec::new();
    for _ in 0..40 {
        let guard = pool.pull();
        assert_ne!(address_of(&guard), lost_at);
        guards.push(guard);
    }
}

#[test]
fn test_lend_holds_the_parked_object_or_a_new_one() {
    let pool = LinearObjectPool::<u32>::new(|| 6, |v| *v = 0);
    let page = Page::<u32>::new(|| 1);
    {
        let guard = lockfree_object_pool::LinearReusable::lend(&pool, 4, &page, Some(Box::new(77)));
        assert_eq!(*guard, 77);
    }
    assert_eq!(page.get(&4).unwrap().as_deref(), Some(&0));
    {
        let guard = lockfree_object_pool::LinearReusable::lend(&pool, 5, &page, None);
        assert_eq!(*guard, 6);
    }
    assert_eq!(page.get(&5).unwrap().as_deref(), Some(&0));
    {
        let id = page.allocate().unwrap();
        assert_eq!(id, 0);
        let mut guard = lockfree_object_pool::LinearReusable::new(&pool, id, &page);
        assert_eq!(*guard, 1);
        *guard = 2;
        assert_eq!(page.get_mask(), u32::MAX - 1);
        assert!(page.get(&0).unwrap().is_none());
    }
    assert_eq!(page.get_mask(), u32::MAX);
    assert_eq!(page.get(&0).unwrap().as_deref(), Some(&0));

    let list = MutexObjectPool::<u32>::new(|| 6, |v| *v = 0);
    assert_eq!(*list.lend(Some(9)), 9);
    assert_eq!(*list.lend(None), 6);
    assert_eq!(list.detach(), Some(0));
    assert_eq!(list.detach(), Some(0));
    let list = SpinLockObjectPool::<u32>::new(|| 6, |v| *v = 0);
    assert_eq!(*list.lend(Some(9)), 9);
    assert_eq!(*list.lend(None), 6);
    assert_eq!(list.detach(), Some(0));
    assert_eq!(list.detach(), Some(0));
    assert_eq!(list.detach(), None);
}

#[test]
fn test_list_pools_hand_out_the_last_returned_first() {
    let pool = MutexObjectPool::<Vec<u8>>::new(|| Vec::new(), |v| v.truncate(1));
    {
        let mut a = pool.pull();
        let mut b = pool.pull();
        a.extend([1, 1]);
        b.extend([2, 2]);
        drop(a);
        drop(b);
    }
    assert_eq!(*pool.pull(), vec![2]);
    let first = pool.pull();
    let second = pool.pull();
    let third = pool.pull();
    assert_eq!(*first, vec![2]);
    assert_eq!(*second, vec![1]);
    assert_eq!(*third, Vec::<u8>::new());
}

#[test]
fn test_callbacks_are_called_as_given() {
    let mut object = vec![1u8, 2, 3];
    lockfree_object_pool::callback::reset_in_place(&|v: &mut Vec<u8>| v.clear(), &mut object);
    assert_eq!(object, Vec::<u8>::new());
    let made = lockfree_object_pool::callback::reuse_or_make(None, &|| 7u32);
    assert_eq!(made, 7);
    let kept = lockfree_object_pool::callback::reuse_or_make(Some(3u32), &|| 7u32);
    assert_eq!(kept, 3);
}

#[test]
fn test_spin_lock_is_refused_while_it_is_held() {
    let lock = SpinLock::new(1u8);
    {
        let mut guard = lock.lock().unwrap();
        *guard = 2;
        assert!(lock.lock_within(3).is_none());
        assert!(lock.lock_within(0).is_none());
        assert_eq!(lock.exchange(false, true, 3), false);
    }
    {
        let guard = lock.lock_within(1).unwrap();
        assert_eq!(*guard, 2);
    }
    assert_eq!(lock.exchange(false, true, 3), true);
    assert!(lock.lock_within(3).is_none());
    lock.release();
    lock.release();
    assert!(lock.lock_within(3).is_some());
    assert!(lock.lock_within(3).is_some());
}

#[test]
fn test_locked_cell_is_refused_not_waited_for() {
    let page = Page::<u32>::new(|| 9);
    let held = page.get(&2).unwrap();
    assert!(page.get(&2).is_none());
    assert!(page.get(&3).is_some());
    assert_eq!(page.take(&2), None);
    assert_eq!(page.put(&2, Box::new(5)), Err(Box::new(5)));
    assert_eq!(held.as_deref(), Some(&9));
    drop(held);
    assert_eq!(page.put(&2, Box::new(5)), Ok(Some(Box::new(9))));
    assert_eq!(page.take(&2), Some(Box::new(5)));
    assert_eq!(page.take(&2), None);
}

#[test]
fn test_update_answers_with_the_mask_it_replaced() {
    let page = Page::<u32>::new(|| 0);
    assert_eq!(page.update(Change::Take(3)), Answer::Installed(u32::MAX));
    assert_eq!(page.get_mask(), u32::MAX - 8);
    assert_eq!(page.update(Change::Take(3)), Answer::Refused(u32::MAX - 8));
    assert_eq!(page.update(Change::Give(3)), Answer::Installed(u32::MAX - 8));
    assert_eq!(page.update(Change::Give(3)), Answer::Installed(u32::MAX));
    assert_eq!(page.get_mask(), u32::MAX);
    assert_eq!(page.scan(), Round::Claimed(0));
    assert_eq!(page.scan(), Round::Claimed(1));
    for _ in 2..32 {
        page.allocate();
    }
    assert_eq!(page.scan(), Round::Exhausted);
    assert_eq!(page.update(Change::Take(0)), Answer::Refused(0));
    page.free(&5);
    assert_eq!(page.is_full(), false);
    assert_eq!(page.get_mask(), 0x20);
    assert_eq!(page.scan(), Round::Claimed(5));
}

#[test]
fn test_take_out_empties_the_cell() {
    let mut cell = Some(5u32);
    assert_eq!(lockfree_object_pool::held::take_out(&mut cell), Some(5));
    assert_eq!(cell, None);
    assert_eq!(lockfree_object_pool::held::take_out(&mut cell), None);
    assert_eq!(cell, None);
}

#[test]
fn test_take_last_takes_from_the_end() {
    let mut list = vec![1u8, 2, 3];
    assert_eq!(lockfree_object_pool::held::take_last(&mut list), Some(3));
    assert_eq!(list, vec![1, 2]);
    assert_eq!(lockfree_object_pool::held::take_last(&mut list), Some(2));
    assert_eq!(lockfree_object_pool::held::take_last(&mut list), Some(1));
    assert_eq!(lockfree_object_pool::held::take_last(&mut list), None);
    assert_eq!(list, Vec::<u8>::new());
}

fn counting(count: &Arc<AtomicUsize>) -> impl Fn() -> u32 + Clone {
    let count = Arc::clone(count);
    move || {
        count.fetch_add(1, Ordering::SeqCst);
        0
    }
}

#[test]
fn test_chain_grows_by_one_page_of_new_objects() {
    let made = Arc::new(AtomicUsize::new(0));
    let head = LinearPage::<u32>::new(counting(&made));
    assert_eq!(made.load(Ordering::SeqCst), 32);
    let mut first = None;
    for n in 0..32u8 {
        let (page, id) = head.allocate(counting(&made)).unwrap();
        assert_eq!(id, n);
        assert!(std::ptr::eq(page, *first.get_or_insert(page)));
    }
    assert_eq!(made.load(Ordering::SeqCst), 32);
    let (second, id) = head.allocate(counting(&made)).unwrap();
    assert_eq!(id, 0);
    assert!(!std::ptr::eq(second, first.unwrap()));
    assert_eq!(made.load(Ordering::SeqCst), 64);
    let (again, id) = head.allocate(counting(&made)).unwrap();
    assert_eq!(id, 1);
    assert!(std::ptr::eq(again, second));
    assert_eq!(made.load(Ordering::SeqCst), 64);
}

#[test]
fn test_next_page_is_made_once() {
    let made = Arc::new(AtomicUsize::new(0));
    let head = LinearPage::<u32>::new(counting(&made));
    assert_eq!(made.load(Ordering::SeqCst), 32);
    let next = head.get_or_create_next(counting(&made));
    assert_eq!(made.load(Ordering::SeqCst), 64);
    assert!(!std::ptr::eq(next, &head));
    let (page, id) = next.allocate(counting(&made)).unwrap();
    assert_eq!(id, 0);
    assert_eq!(page.get_mask(), u32::MAX - 1);
    page.free(&0);
    assert_eq!(page.get_mask(), u32::MAX);
    let again = head.get_or_create_next(counting(&made));
    assert!(std::ptr::eq(next, again));
    assert_eq!(made.load(Ordering::SeqCst), 64);
    let third = next.get_or_create_next(counting(&made));
    assert!(!std::ptr::eq(third, next));
    assert_eq!(made.load(Ordering::SeqCst), 96);
}

#[test]
fn test_pool_builds_its_first_page_at_once() {
    let made = Arc::new(AtomicUsize::new(0));
    let resets = Arc::new(AtomicUsize::new(0));
    let counted = Arc::clone(&resets);
    let pool = LinearObjectPool::<u32, _, _>::new(counting(&made), move |_v: &mut u32| {
        counted.fetch_add(1, Ordering::SeqCst);
    });
    assert_eq!(made.load(Ordering::SeqCst), 32);
    assert_eq!(resets.load(Ordering::SeqCst), 0);
    {
        let guard = pool.pull();
        assert_eq!(*guard, 0);
        assert_eq!(made.load(Ordering::SeqCst), 32);
        assert_eq!(resets.load(Ordering::SeqCst), 0);
    }
    assert_eq!(resets.load(Ordering::SeqCst), 1);
}

#[test]
fn test_free_returns_what_it_replaced() {
    let page = Page::<u32>::new(|| 0);
    assert_eq!(page.allocate(), Some(0));
    assert_eq!(page.allocate(), Some(1));
    assert_eq!(page.allocate(), Some(2));
    assert_eq!(page.free(&1), Answer::Installed(0xffff_fff8));
    assert_eq!(page.get_mask(), 0xffff_fffa);
    assert_eq!(page.free(&0), Answer::Installed(0xffff_fffa));
    assert_eq!(page.free(&2), Answer::Installed(0xffff_fffb));
    assert_eq!(page.get_mask(), 0xffff_ffff);
    assert_eq!(page.free(&2), Answer::Installed(0xffff_ffff));
    assert_eq!(page.get_mask(), 0xffff_ffff);
}

#[test]
fn test_shelve_resets_before_it_stores() {
    let mut list = vec![vec![9u8]];
    lockfree_object_pool::held::shelve(&mut list, &|v: &mut Vec<u8>| v.push(0), vec![1, 2]);
    assert_eq!(list, vec![vec![9], vec![1, 2, 0]]);
    lockfree_object_pool::held::shelve(&mut list, &|v: &mut Vec<u8>| v.clear(), vec![3]);
    assert_eq!(list, vec![vec![9], vec![1, 2, 0], vec![]]);
}

#[test]
fn test_park_resets_before_it_stores() {
    let mut cell = None;
    let add = |v: &mut u32| *v += 100;
    let displaced = lockfree_object_pool::held::park(&mut cell, &add, Box::new(5));
    assert_eq!(displaced, None);
    assert_eq!(cell, Some(Box::new(105)));
    let displaced = lockfree_object_pool::held::park(&mut cell, &|v: &mut u32| *v = 0, Box::new(7));
    assert_eq!(displaced, Some(Box::new(105)));
    assert_eq!(cell, Some(Box::new(0)));
}

#[test]
fn test_put_back_resets_unless_the_cell_is_locked() {
    let page = Page::<u32>::new(|| 1);
    assert_eq!(page.take(&4), Some(Box::new(1)));
    assert_eq!(page.put_back(&4, &|v: &mut u32| *v += 10, Box::new(5)), Ok(None));
    assert_eq!(page.take(&4), Some(Box::new(15)));
    let held = page.get(&4).unwrap();
    assert_eq!(page.put_back(&4, &|v: &mut u32| *v += 10, Box::new(5)), Err(Box::new(5)));
    drop(held);
    assert_eq!(page.take(&4), None);
}

#[test]
fn test_way_back_resets_parks_and_frees() {
    let resets = Arc::new(AtomicUsize::new(0));
    let counted = Arc::clone(&resets);
    let reset = move |v: &mut u32| {
        *v = 0;
        counted.fetch_add(1, Ordering::SeqCst);
    };
    let page = Page::<u32>::new(|| 1);
    assert_eq!(page.allocate(), Some(0));
    let object = page.take(&0).unwrap();
    assert_eq!(page.get_mask(), u32::MAX - 1);
    let given = lockfree_object_pool::linear_reusable::way_back(&reset, Some(&page), 0, object);
    assert_eq!(given, Some(Answer::Installed(u32::MAX - 1)));
    assert_eq!(resets.load(Ordering::SeqCst), 1);
    assert_eq!(page.get_mask(), u32::MAX);
    assert_eq!(page.take(&0), Some(Box::new(0)));
    let given = lockfree_object_pool::linear_reusable::way_back(&reset, None, 0, Box::new(8));
    assert_eq!(given, None);
    assert_eq!(resets.load(Ordering::SeqCst), 2);
    assert_eq!(page.get_mask(), u32::MAX);
}

#[test]
fn test_enter_is_refused_by_a_locked_mutex() {
    let mut cell = std::sync::Mutex::new(3u8);
    {
        let first = lockfree_object_pool::held::enter(&cell).unwrap();
        assert_eq!(*first, 3);
        assert!(lockfree_object_pool::held::enter(&cell).is_none());
    }
    *lockfree_object_pool::held::enter(&cell).unwrap() = 4;
    *lockfree_object_pool::held::enter_mut(&mut cell) += 1;
    assert_eq!(*lockfree_object_pool::held::enter(&cell).unwrap(), 5);
}
