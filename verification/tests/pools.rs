use deadpool::managed::{PoolError, TimeoutType};
use scry_proxy::proxy::connection_state::PinReason;
use scry_proxy::proxy::pool_manager::{
    AcquireError, AcquireStep, ManagedConnection, PoolManager, PoolManagerConfig,
    StickyConnectionInfo, WaitStep,
};
use scry_proxy::proxy::tcp_pool::{PoolErrorKind, RecycleStep, TcpConnectionPool};
use scry_proxy::proxy::wait_queue::{QueueFullError, WaitQueue};
use scry_proxy::resilience::circuit_breaker::{CircuitBreaker, CircuitBreakerConfig};

fn create_test_pool() -> TcpConnectionPool {
    TcpConnectionPool::new("localhost".to_string(), 5432, "postgres".to_string(), 10, None, false)
}

fn manager(depth: usize) -> PoolManager<&'static str> {
    PoolManager::new(WaitQueue::new(depth), PoolManagerConfig::default())
}

#[test]
fn test_pool_manager_creation() {
    let manager = manager(100);

    assert_eq!(manager.sticky_count(), 0);
    assert_eq!(manager.wait_queue_depth(), 0);
}

#[test]
fn test_config_defaults() {
    let config = PoolManagerConfig::default();

    assert!(config.lifo);
    assert_eq!(config.queue_depth, 100);
    assert_eq!(config.idle_unpin_secs, 300);
    assert_eq!(config.wait_timeout_ms, 30_000);
}

#[test]
fn test_sticky_info_creation() {
    let info = StickyConnectionInfo::new(vec![PinReason::PreparedStatement], 1, 5);

    assert_eq!(info.pin_reasons.len(), 1);
    assert_eq!(info.binding_id, 1);
    assert_eq!(info.last_used, 5);
}

#[test]
fn test_sticky_info_touch() {
    let mut info = StickyConnectionInfo::new(vec![], 1, 100);
    let initial_time = info.last_used;

    info.touch(110);

    assert!(info.last_used > initial_time);
    assert_eq!(info.last_used, 110);
}

#[test]
fn test_has_sticky_initially_false() {
    assert!(!manager(100).has_sticky(12345));
}

#[test]
fn test_managed_connection_is_pinned() {
    let conn: ManagedConnection<&str> =
        ManagedConnection { connection: None, client_id: 42, is_pinned: true, binding_id: Some(1) };

    assert!(conn.is_pinned());
    assert_eq!(conn.client_id(), 42);
}

#[test]
fn test_managed_connection_not_pinned() {
    let conn: ManagedConnection<&str> =
        ManagedConnection { connection: None, client_id: 99, is_pinned: false, binding_id: None };

    assert!(!conn.is_pinned());
    assert_eq!(conn.client_id(), 99);
}

#[test]
fn test_cleanup_idle_with_zero_timeout() {
    let config = PoolManagerConfig {
        idle_unpin_secs: 0, // Disabled
        ..Default::default()
    };
    let mut manager: PoolManager<&str> = PoolManager::new(WaitQueue::new(100), config);

    // Should return 0 when disabled
    assert_eq!(manager.cleanup_idle(u64::MAX).cleaned, 0);
}

#[test]
fn test_acquire_error_display() {
    let err = AcquireError::WaitTimeout;
    assert_eq!(err.message(), "wait timeout");

    let err = AcquireError::QueueFull(QueueFullError);
    assert!(err.message().contains("queue full"));
}

#[test]
fn test_get_sticky_info_none() {
    assert!(manager(100).get_sticky_info(99999).is_none());
}

#[test]
fn test_queue_full_error() {
    let mut wait_queue = WaitQueue::new(1); // Very small queue

    // Fill the queue
    let _waiter1 = wait_queue.enqueue().unwrap();

    // Now try to wait - should get queue full
    let result = wait_queue.enqueue();
    assert!(result.is_err());
}

#[test]
fn test_unpin_nonexistent_client() {
    let mut manager = manager(100);

    // Should not panic
    manager.unpin(99999);
    assert!(!manager.has_sticky(99999));
}

#[test]
fn test_pool_access() {
    let status = create_test_pool().status(0, 0);
    assert_eq!(status.max_size, 10);
}

#[test]
fn test_wait_queue_depth_initially_zero() {
    assert_eq!(manager(100).wait_queue_depth(), 0);
}

#[test]
fn test_wait_queue_depth_increases() {
    let mut wait_queue = WaitQueue::new(100);
    let _waiter = wait_queue.enqueue().unwrap();

    assert_eq!(wait_queue.depth(), 1);
}

#[test]
fn test_sticky_connection_info_clone() {
    let info = StickyConnectionInfo::new(
        vec![PinReason::PreparedStatement, PinReason::SessionVariable],
        42,
        0,
    );

    let cloned = info.copy();

    assert_eq!(cloned.pin_reasons.len(), 2);
    assert_eq!(cloned.binding_id, 42);
}

#[test]
fn test_config_custom_values() {
    let config = PoolManagerConfig {
        lifo: false,
        queue_depth: 50,
        idle_unpin_secs: 600,
        wait_timeout_ms: 5000,
    };

    assert!(!config.lifo);
    assert_eq!(config.queue_depth, 50);
    assert_eq!(config.idle_unpin_secs, 600);
    assert_eq!(config.wait_timeout_ms, 5000);
}

#[test]
fn acquire_errors_have_their_texts() {
    assert_eq!(AcquireError::PoolError("x".to_string()).message(), "pool error: x");
    assert_eq!(
        AcquireError::QueueFull(QueueFullError).message(),
        "queue full: connection pool queue is full"
    );
}

fn taken(step: AcquireStep<&'static str>) -> ManagedConnection<&'static str> {
    match step {
        AcquireStep::Ready(conn) => conn,
        _ => panic!("no connection"),
    }
}

#[test]
fn sticky_connection_comes_back_to_its_client() {
    let mut m = manager(10);
    assert!(matches!(m.acquire(1, true), AcquireStep::AskPool));
    let conn = taken(m.pool_replied(1, Ok("c1")));
    m.pin(1, PinReason::TempTable, conn, 1_000);
    assert!(m.has_sticky(1));
    assert_eq!(m.sticky_count(), 1);
    assert_eq!(m.get_sticky_info(1).unwrap().pin_reasons, vec![PinReason::TempTable]);

    let mut conn = taken(m.acquire(1, true));
    assert!(conn.is_pinned());
    assert_eq!(*conn.stream(), "c1");
    *conn.stream_mut() = "c1 used";
    assert!(m.release(conn, 2_000).is_none());
    assert_eq!(m.get_sticky_info(1).unwrap().last_used, 2_000);

    assert!(m.unpin(1).is_none());
    assert!(!m.has_sticky(1));
}

#[test]
fn connection_that_is_not_pinned_wakes_the_first_waiter() {
    let mut m = manager(10);
    let conn = taken(m.pool_replied(1, Ok("c1")));
    let waiter = match m.pool_replied(2, Err("full".to_string())) {
        AcquireStep::Wait { waiter, timeout_ms } => {
            assert_eq!(timeout_ms, Some(30_000));
            waiter
        }
        _ => panic!("client should wait"),
    };
    assert_eq!(m.wait_queue_depth(), 1);
    let id = waiter.id();
    assert_eq!(m.release(conn, 5), Some(id));
    let waiter = match m.waited(waiter, true) {
        WaitStep::AskPool(w) => w,
        WaitStep::Fail(_) => panic!("waiter was woken"),
    };
    let mut conn = m.pool_replied_to_waiter(waiter, 2, Ok("c2")).unwrap();
    assert_eq!(conn.take_connection(), Some("c2"));
    assert_eq!(m.wait_queue_depth(), 0);
}

#[test]
fn waiter_that_is_not_woken_times_out() {
    let mut m = manager(10);
    let waiter = match m.pool_replied(2, Err("full".to_string())) {
        AcquireStep::Wait { waiter, .. } => waiter,
        _ => panic!("client should wait"),
    };
    assert!(matches!(m.waited(waiter, false), WaitStep::Fail(AcquireError::WaitTimeout)));
    assert_eq!(m.wait_queue_depth(), 0);
    // Nobody waits any more, so nobody is woken.
    let conn = match m.pool_replied(3, Ok("c")) {
        AcquireStep::Ready(c) => c,
        _ => panic!("no connection"),
    };
    assert_eq!(m.release(conn, 5), None);
}

#[test]
fn client_is_turned_away_when_the_queue_is_full() {
    let mut m = manager(0);
    assert!(matches!(
        m.pool_replied(2, Err("full".to_string())),
        AcquireStep::Fail(AcquireError::QueueFull(_))
    ));
}

#[test]
fn sticky_connections_without_use_are_given_up() {
    let second: u64 = 1_000_000_000;
    let config = PoolManagerConfig { idle_unpin_secs: 10, ..Default::default() };
    let mut m: PoolManager<&str> = PoolManager::new(WaitQueue::new(10), config);
    for client in [1, 2] {
        let conn = match m.pool_replied(client, Ok("c")) {
            AcquireStep::Ready(c) => c,
            _ => panic!("no connection"),
        };
        m.pin(client, PinReason::Cursor, conn, client * second);
    }
    assert_eq!(m.cleanup_idle(11 * second).cleaned, 0);
    let cleanup = m.cleanup_idle(12 * second);
    assert_eq!(cleanup.cleaned, 1);
    assert!(cleanup.woken.is_empty());
    assert!(!m.has_sticky(1));
    assert!(m.has_sticky(2));
}

#[test]
fn test_queue_accepts_under_limit() {
    let mut queue = WaitQueue::new(10);

    let result = queue.enqueue();
    assert!(result.is_ok());
}

#[test]
fn test_queue_rejects_over_limit() {
    let mut queue = WaitQueue::new(1);

    // Fill the queue
    let waiter1 = queue.enqueue().unwrap();

    // Second should be rejected
    let result = queue.enqueue();
    assert!(result.is_err());
    assert_eq!(result.err().unwrap().message(), "connection pool queue is full");

    queue.leave(waiter1);
}

#[test]
fn waiter_that_leaves_frees_its_place_and_is_not_woken() {
    let mut queue = WaitQueue::new(2);
    let first = queue.enqueue().unwrap();
    let second = queue.enqueue().unwrap();
    assert!(queue.enqueue().is_err());
    queue.leave(first);
    assert_eq!(queue.depth(), 1);
    let third = queue.enqueue().unwrap();
    assert_eq!(queue.notify_one(), Some(second.id()));
    assert_eq!(queue.depth(), 2);
    queue.leave(second);
    assert_eq!(queue.depth(), 1);
    assert_eq!(queue.notify_one(), Some(third.id()));
    assert_eq!(queue.notify_one(), None);
    queue.leave(third);
    assert_eq!(queue.depth(), 0);
    assert!(queue.can_admit());
    assert!(queue.enqueue().is_ok());
}

#[test]
fn test_waiter_notified() {
    let mut queue = WaitQueue::new(10);
    let waiter = queue.enqueue().unwrap();
    assert_eq!(queue.notify_one(), Some(waiter.id()));
}

#[test]
fn test_queue_depth_metric() {
    let mut queue = WaitQueue::new(10);

    assert_eq!(queue.depth(), 0);

    let _waiter1 = queue.enqueue().unwrap();
    assert_eq!(queue.depth(), 1);

    let _waiter2 = queue.enqueue().unwrap();
    assert_eq!(queue.depth(), 2);
    assert_eq!(queue.max_depth(), 10);
}

#[test]
fn test_fifo_ordering() {
    let mut queue = WaitQueue::new(10);

    let waiter1 = queue.enqueue().unwrap();
    let waiter2 = queue.enqueue().unwrap();

    // The first waiter is woken, and only that one.
    assert_eq!(queue.notify_one(), Some(waiter1.id()));
    assert_eq!(queue.notify_one(), Some(waiter2.id()));
    assert_eq!(queue.notify_one(), None);
}

#[test]
fn several_waiters_are_woken_in_their_order() {
    let mut queue = WaitQueue::new(10);
    let ids: Vec<u64> = (0..3).map(|_| queue.enqueue().unwrap().id()).collect();
    assert_eq!(queue.notify_many(2), ids[..2].to_vec());
    assert_eq!(queue.notify_many(5), ids[2..].to_vec());
}

#[test]
fn test_pool_status() {
    let status = create_test_pool().status(3, 2);

    assert_eq!(status.max_size, 10);
    assert_eq!(status.protocol, "postgres");
    assert_eq!(status.backend_addr, "localhost:5432");
    assert_eq!(status.size, 3);
    assert_eq!(status.available, 2);
}

#[test]
fn test_warmup_zero_count() {
    assert_eq!(TcpConnectionPool::warmed_up(&vec![]), 0);
}

#[test]
fn warmup_counts_what_succeeded() {
    assert_eq!(TcpConnectionPool::warmed_up(&vec![true, false, true]), 2);
}

#[test]
fn test_pool_error_classification() {
    // Permanent errors must not be retried; transient ones should.
    assert!(!TcpConnectionPool::pool_error_is_retryable(&PoolError::Closed));
    assert!(!TcpConnectionPool::pool_error_is_retryable(&PoolError::NoRuntimeSpecified));
    assert!(TcpConnectionPool::pool_error_is_retryable(&PoolError::Backend(anyhow::Error::msg(
        "connection refused"
    ))));
    assert!(TcpConnectionPool::pool_error_is_retryable(&PoolError::Timeout(TimeoutType::Create)));
}

#[test]
fn kinds_of_pool_errors_are_transient_or_not() {
    assert!(PoolErrorKind::Backend.is_transient());
    assert!(PoolErrorKind::Timeout.is_transient());
    assert!(!PoolErrorKind::Closed.is_transient());
    assert!(!PoolErrorKind::NoRuntimeSpecified.is_transient());
    assert!(!PoolErrorKind::PostCreateHook.is_transient());
}

#[test]
fn test_breaker_opens_and_sheds_when_backend_down() {
    let breaker = CircuitBreaker::new_at(
        CircuitBreakerConfig {
            enabled: true,
            failure_threshold: 2,
            success_threshold: 2,
            window_secs: 30,
            open_timeout_secs: 60,
            use_health_monitor: false,
        },
        None,
        1000,
    );
    let mut pool = TcpConnectionPool::new(
        "127.0.0.1".to_string(),
        1,
        "postgres".to_string(),
        4,
        Some(breaker),
        false,
    );
    for _ in 0..2 {
        assert_eq!(pool.begin_get(1000), Ok(false));
        pool.end_get(false, 1000);
    }
    match pool.begin_get(1001) {
        Ok(_) => panic!("breaker should shed the request"),
        Err(e) => assert!(e.contains("Circuit breaker"), "expected breaker shed, got: {e}"),
    }
    pool.report_health(true, 1002);
    assert!(pool.begin_get(1002).is_ok());
}

#[test]
fn pool_without_breaker_is_always_asked() {
    let mut pool = TcpConnectionPool::new("h".to_string(), 1, "postgres".to_string(), 1, None, true);
    for _ in 0..10 {
        assert_eq!(pool.begin_get(0), Ok(true));
        pool.end_get(false, 0);
    }
}

#[test]
fn returned_connection_is_checked_and_reset() {
    assert!(matches!(TcpConnectionPool::health_checked(false, Ok(true)), RecycleStep::Reset));
    assert!(matches!(TcpConnectionPool::session_reset(false, Ok(true)), RecycleStep::Keep));
    match TcpConnectionPool::session_reset(true, Ok(false)) {
        RecycleStep::Discard(m) => {
            assert_eq!(m, "TLS protocol does not support connection reset")
        }
        other => panic!("unexpected {other:?}"),
    }
    match TcpConnectionPool::health_checked(false, Err("broken".to_string())) {
        RecycleStep::Discard(m) => assert!(m.contains("broken")),
        other => panic!("unexpected {other:?}"),
    }
    assert!(matches!(TcpConnectionPool::health_checked(true, Ok(false)), RecycleStep::Discard(_)));
}
