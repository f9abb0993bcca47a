use bichon::pool::{Acquire, SessionPool};

#[test]
fn pool_creates_up_to_capacity_then_waits() {
    let mut pool: SessionPool<u32> = SessionPool::new(2);
    assert!(matches!(pool.acquire(), Acquire::Create));
    assert!(matches!(pool.acquire(), Acquire::Create));
    assert!(matches!(pool.acquire(), Acquire::Exhausted));
    assert_eq!(pool.in_use(), 2);
    pool.release(10, true);
    assert_eq!(pool.idle_count(), 1);
    match pool.acquire() {
        Acquire::Reuse(s) => assert_eq!(s, 10),
        _ => panic!("an idle session should be reused"),
    }
}

#[test]
fn failed_session_is_discarded() {
    let mut pool: SessionPool<u32> = SessionPool::new(1);
    assert!(matches!(pool.acquire(), Acquire::Create));
    pool.release(7, false);
    assert_eq!(pool.idle_count(), 0);
    assert_eq!(pool.in_use(), 0);
    assert!(matches!(pool.acquire(), Acquire::Create));
    pool.abandon();
    assert_eq!(pool.in_use(), 0);
    assert_eq!(pool.capacity(), 1);
}
