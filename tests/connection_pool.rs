use stelliberty_ipc::pool::{ConnectionPool, IDLE_TIMEOUT_MS, MAX_POOL_SIZE};

#[test]
fn released_connections_come_back_in_fifo_order() {
    let mut pool: ConnectionPool<u32> = ConnectionPool::new();
    pool.release(1, 1000);
    pool.release(2, 1000);
    assert_eq!(pool.acquire(1100, |_c: &u32| true), Some(1));
    assert_eq!(pool.acquire(1100, |_c: &u32| true), Some(2));
    assert_eq!(pool.acquire(1100, |_c: &u32| true), None);
}

#[test]
fn stale_connection_is_discarded() {
    let mut pool: ConnectionPool<u32> = ConnectionPool::new();
    pool.release(1, 1000);
    assert_eq!(pool.acquire(1000 + IDLE_TIMEOUT_MS, |_c: &u32| true), None);
    assert_eq!(pool.len(), 0);
}

#[test]
fn connection_just_under_timeout_is_reused() {
    let mut pool: ConnectionPool<u32> = ConnectionPool::new();
    pool.release(9, 1000);
    assert_eq!(pool.acquire(1000 + IDLE_TIMEOUT_MS - 1, |_c: &u32| true), Some(9));
}

#[test]
fn stale_front_is_skipped_for_a_fresh_one() {
    let mut pool: ConnectionPool<u32> = ConnectionPool::new();
    pool.release(1, 0);
    pool.release(2, 400);
    assert_eq!(pool.acquire(600, |_c: &u32| true), Some(2));
    assert_eq!(pool.len(), 0);
}

#[test]
fn probe_failure_discards_connection() {
    let mut pool: ConnectionPool<u32> = ConnectionPool::new();
    pool.release(1, 0);
    pool.release(2, 0);
    pool.release(3, 0);
    assert_eq!(pool.acquire(10, |c: &u32| *c != 1), Some(2));
    assert_eq!(pool.len(), 1);
}

#[test]
fn pool_never_exceeds_capacity() {
    let mut pool: ConnectionPool<usize> = ConnectionPool::new();
    for i in 0..(MAX_POOL_SIZE + 20) {
        pool.release(i, 5);
        assert!(pool.len() <= MAX_POOL_SIZE);
    }
    assert_eq!(pool.len(), MAX_POOL_SIZE);
    assert_eq!(pool.acquire(6, |_c: &usize| true), Some(0));
    pool.release(500, 7);
    pool.release(501, 7);
    assert_eq!(pool.len(), MAX_POOL_SIZE);
}

#[test]
fn health_sweep_keeps_order_of_survivors() {
    let mut pool: ConnectionPool<u32> = ConnectionPool::new();
    pool.release(1, 0);
    pool.release(2, 300);
    pool.release(3, 300);
    pool.release(4, 300);
    pool.release(5, 300);
    let removed = pool.health_sweep(600, |c: &u32| *c != 3);
    assert_eq!(removed, 2);
    assert_eq!(pool.len(), 3);
    assert_eq!(pool.acquire(600, |_c: &u32| true), Some(2));
    assert_eq!(pool.acquire(600, |_c: &u32| true), Some(4));
    assert_eq!(pool.acquire(600, |_c: &u32| true), Some(5));
}

#[test]
fn clear_reports_count() {
    let mut pool: ConnectionPool<u32> = ConnectionPool::new();
    pool.release(1, 0);
    pool.release(2, 0);
    assert_eq!(pool.clear(), 2);
    assert_eq!(pool.len(), 0);
}
