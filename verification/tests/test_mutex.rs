use lockfree_object_pool::MutexObjectPool;
use std::sync::mpsc;
use std::sync::Arc;

fn make_pool() -> MutexObjectPool<u32> {
    MutexObjectPool::<u32>::new(
        || Default::default(),
        |v| {
            *v = 0;
        },
    )
}

#[test]
fn test_mutex_01() {
    let pool = make_pool();
    for _ in 0..2 {
        let mut v = pool.pull();
        assert_eq!(*v, 0);
        *v += 1;
    }
}

#[test]
fn test_mutex_02() {
    let pool = make_pool();

    let mut addrs = Vec::new();

    for _ in 0..10 {
        let mut v = pool.pull();
        assert_eq!(*v, 0);
        *v += 1;
        assert_eq!(*v, 1);
        let o = &mut *v;
        *o += 1;
        assert_eq!(*o, 2);
        let addr = format!("{:p}", o);
        if !addrs.contains(&addr) {
            addrs.push(addr);
        }
        std::mem::forget(o);
        assert_eq!(*v, 2);
    }

    assert_eq!(addrs.len(), 1);
    for _ in 0..2 {
        let mut v = pool.pull();
        assert_eq!(*v, 0);
        *v += 1;
    }
}

#[test]
fn test_mutex_03() {
    let pool = make_pool();

    let mut addrs = Vec::new();

    for _ in 0..10 {
        let mut v1 = pool.pull();
        let mut v2 = pool.pull();
        let addr1 = format!("{:p}", &mut *v1);
        let addr2 = format!("{:p}", &mut *v2);

        if !addrs.contains(&addr1) {
            addrs.push(addr1);
        }

        if !addrs.contains(&addr2) {
            addrs.push(addr2);
        }
    }

    assert_eq!(addrs.len(), 2);
}

#[test]
fn test_mutex_handoff_on_one_thread() {
    let pool = Arc::new(make_pool());

    let (tx, rx) = mpsc::channel();

    for id in 0..5 {
        let worker_tx = tx.clone();
        let worker_pool = Arc::clone(&pool);

        let mut msg = worker_pool.pull();
        *msg = id;
        worker_tx.send(*msg).unwrap();
    }

    let mut msgs = Vec::new();
    for _ in 0..5 {
        let msg = rx.recv().unwrap();
        if !msgs.contains(&msg) && msg < 5 {
            msgs.push(msg);
        }
    }
    assert_eq!(msgs.len(), 5);
}

