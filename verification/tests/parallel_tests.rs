use ratatui_testlib::parallel::{AcquireStep, IsolatedTerminal, PoolConfig, PoolState, TerminalId, TestContext};
use std::time::Duration;

#[test]
fn test_pool_config() {
    let config = PoolConfig::new()
        .with_max_terminals(8)
        .with_acquire_timeout(Duration::from_secs(5))
        .with_default_size(100, 30);

    assert_eq!(config.max_terminals, 8);
    assert_eq!(config.acquire_timeout, Duration::from_secs(5));
    assert_eq!(config.default_width, 100);
    assert_eq!(config.default_height, 30);
}

#[test]
fn test_test_context_port_allocation() {
    let mut context = TestContext::new();

    let port1 = context.allocate_port();
    let port2 = context.allocate_port();
    let port3 = context.allocate_port();

    assert_ne!(port1, port2);
    assert_ne!(port2, port3);
    assert_ne!(port1, port3);

    assert!(port1 >= 20000);
    assert!(port2 >= 20000);
    assert!(port3 >= 20000);
}

#[test]
fn test_test_context_metadata() {
    let mut context = TestContext::new();

    context.set_metadata("test_name", "my_test");
    context.set_metadata("iteration", "1");

    assert_eq!(context.get_metadata("test_name"), Some("my_test".to_string()));
    assert_eq!(context.get_metadata("iteration"), Some("1".to_string()));
    assert_eq!(context.get_metadata("nonexistent"), None);

    context.remove_metadata("iteration");
    assert_eq!(context.get_metadata("iteration"), None);

    context.clear_metadata();
    assert_eq!(context.get_metadata("test_name"), None);
}

#[test]
fn test_port_allocation_wraps() {
    let mut context = TestContext::new();
    let first = context.allocate_port();
    assert_eq!(first, 20000);
    let mut last = first;
    for _ in 0..40000 {
        last = context.allocate_port();
    }
    assert_eq!(last, 60000);
    assert_eq!(context.allocate_port(), 20000);
}

#[test]
fn test_metadata_overwrite_and_clone() {
    let mut context = TestContext::default();
    context.set_metadata("k", "v1");
    context.set_metadata("k", "v2");
    assert_eq!(context.get_metadata("k"), Some("v2".to_string()));
    let copy = context.clone();
    assert_eq!(copy.get_metadata("k"), Some("v2".to_string()));
}

#[test]
fn test_pool_reuse_and_stats() {
    let mut pool = PoolState::new(2);
    let stats = pool.stats();
    assert_eq!((stats.total, stats.in_use, stats.available, stats.max_capacity), (0, 0, 0, 2));

    let id1 = match pool.acquire_step(80, 24) {
        AcquireStep::Create(id) => id,
        other => panic!("unexpected: {:?}", other),
    };
    pool.record_new(id1, 80, 24);
    let stats = pool.stats();
    assert_eq!((stats.total, stats.in_use, stats.available), (1, 1, 0));

    pool.release(id1).unwrap();
    let stats = pool.stats();
    assert_eq!((stats.total, stats.in_use, stats.available), (1, 0, 1));

    // The released terminal is handed out again for its size.
    assert_eq!(pool.acquire_step(80, 24), AcquireStep::Reused(id1));

    let id2 = match pool.acquire_step(100, 30) {
        AcquireStep::Create(id) => id,
        other => panic!("unexpected: {:?}", other),
    };
    assert_ne!(id1, id2);
    pool.record_new(id2, 100, 30);
    assert_eq!(pool.acquire_step(80, 24), AcquireStep::Full);

    let summary = pool.stats().summary();
    assert_eq!(summary, "Pool Stats: 2/2 in use, 0 available (max: 2)");

    pool.clear();
    assert_eq!(pool.stats().total, 0);
}

#[test]
fn test_release_unknown_terminal() {
    let mut pool = PoolState::new(4);
    let id = match pool.acquire_step(80, 24) {
        AcquireStep::Create(id) => id,
        other => panic!("unexpected: {:?}", other),
    };
    assert_eq!(id.as_usize(), 0);
    match pool.release(id) {
        Err(e) => assert_eq!(e.message(), "PTY error: Terminal ID TerminalId(0) not found in pool"),
        Ok(()) => panic!("expected an error"),
    }
    let _ = TerminalId::clone(&id);
}

#[test]
fn test_pool_next_id_and_handle() {
    let mut pool = PoolState::new(4);
    assert_eq!(pool.next_id(), 0);
    let step = pool.acquire_step(80, 24);
    assert!(matches!(step, AcquireStep::Create(_)));
    assert_eq!(pool.next_id(), 1);
    if let AcquireStep::Create(id) = step {
        let t = IsolatedTerminal::new(id, 80, 24);
        assert_eq!(t.id().as_usize(), 0);
        assert_eq!(t.size(), (80, 24));
    }
}

/// A terminal of the given size from the pool's accounts, as the pool hands one out.
fn take(pool: &mut PoolState, width: u16, height: u16) -> IsolatedTerminal {
    match pool.acquire_step(width, height) {
        AcquireStep::Reused(id) => IsolatedTerminal::new(id, width, height),
        AcquireStep::Create(id) => {
            pool.record_new(id, width, height);
            IsolatedTerminal::new(id, width, height)
        },
        AcquireStep::Full => panic!("pool is full"),
    }
}

fn default_pool() -> PoolState {
    PoolState::new(PoolConfig::default().max_terminals)
}

#[test]
fn test_terminal_pool_creation() {
    let pool = default_pool();
    let stats = pool.stats();
    assert_eq!(stats.total, 0);
    assert_eq!(stats.in_use, 0);
    assert_eq!(stats.available, 0);
}

#[test]
fn test_terminal_acquire_release() {
    let mut pool = default_pool();
    let terminal = take(&mut pool, 80, 24);
    assert_eq!(terminal.size(), (80, 24));
    let stats = pool.stats();
    assert_eq!(stats.total, 1);
    assert_eq!(stats.in_use, 1);
    assert_eq!(stats.available, 0);
    pool.release(terminal.id()).unwrap();
    let stats = pool.stats();
    assert_eq!(stats.total, 1);
    assert_eq!(stats.in_use, 0);
    assert_eq!(stats.available, 1);
}

#[test]
fn test_terminal_pool_reuse() {
    let mut pool = default_pool();
    let terminal1 = take(&mut pool, 80, 24);
    let id1 = terminal1.id();
    pool.release(terminal1.id()).unwrap();
    let terminal2 = take(&mut pool, 80, 24);
    let id2 = terminal2.id();
    assert_eq!(id1, id2);
    pool.release(terminal2.id()).unwrap();
}

#[test]
fn test_pool_stats_summary() {
    let mut pool = default_pool();
    let _t1 = take(&mut pool, 80, 24);
    let _t2 = take(&mut pool, 80, 24);
    let summary = pool.stats().summary();
    assert!(summary.contains("2/2 in use"));
    assert!(summary.contains("0 available"));
}

#[test]
fn test_pool_clear() {
    let mut pool = default_pool();
    let t1 = take(&mut pool, 80, 24);
    let t2 = take(&mut pool, 80, 24);
    pool.release(t1.id()).unwrap();
    pool.release(t2.id()).unwrap();
    assert_eq!(pool.stats().total, 2);
    pool.clear();
    assert_eq!(pool.stats().total, 0);
}

#[test]
fn test_different_terminal_sizes() {
    let mut pool = default_pool();
    let t1 = take(&mut pool, 80, 24);
    let t2 = take(&mut pool, 100, 30);
    let t3 = take(&mut pool, 80, 24);
    assert_eq!(t1.size(), (80, 24));
    assert_eq!(t2.size(), (100, 30));
    assert_eq!(t3.size(), (80, 24));
    assert!(pool.stats().total >= 2);
}

#[test]
fn test_pool_full_at_capacity() {
    let mut pool = PoolState::new(2);
    let _a = take(&mut pool, 80, 24);
    let _b = take(&mut pool, 100, 30);
    assert_eq!(pool.acquire_step(80, 24), AcquireStep::Full);
    assert_eq!(pool.stats().total, 2);
    assert_eq!(pool.stats().max_capacity, 2);
}
