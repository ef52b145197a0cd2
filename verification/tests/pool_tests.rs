use speller_pool::pool::{AcquireOutcome, Pool, PoolError, ReleaseOutcome, SpawnOutcome};

#[test]
fn zero_capacity_rejected() {
    let r = Pool::new(0);
    assert!(matches!(r, Err(PoolError::ZeroCapacity)));
}

#[test]
fn new_pool_is_empty() {
    let p = Pool::new(3).unwrap();
    assert!(p.is_empty());
    assert!(p.below_capacity());
}

#[test]
fn spawn_then_acquire_grants() {
    let mut p = Pool::new(2).unwrap();
    assert!(matches!(p.worker_spawned(), SpawnOutcome::AddedIdle(0)));
    match p.acquire(100) {
        AcquireOutcome::Granted(w) => assert_eq!(w, 0),
        AcquireOutcome::Wait => panic!("expected a grant"),
    }
}

#[test]
fn capacity_one_second_request_waits() {
    // Two concurrent requests against capacity 1: the second must wait until
    // the first releases, then proceed with the same worker.
    let mut p = Pool::new(1).unwrap();
    p.worker_spawned();
    let first = p.acquire(1);
    assert!(matches!(first, AcquireOutcome::Granted(0)));
    let second = p.acquire(2);
    assert!(matches!(second, AcquireOutcome::Wait));
    match p.release(0, false) {
        ReleaseOutcome::HandedTo(q) => assert_eq!(q, 2),
        _ => panic!("expected handoff to the waiter"),
    }
    match p.release(0, false) {
        ReleaseOutcome::Idled => {}
        _ => panic!("expected idle after the last release"),
    }
}

#[test]
fn release_without_waiters_idles() {
    let mut p = Pool::new(2).unwrap();
    p.worker_spawned();
    p.worker_spawned();
    assert!(matches!(p.acquire(7), AcquireOutcome::Granted(_)));
    assert!(matches!(p.release(0, false), ReleaseOutcome::Idled));
}

#[test]
fn fifo_order_of_waiters() {
    let mut p = Pool::new(1).unwrap();
    p.worker_spawned();
    p.acquire(1);
    assert!(matches!(p.acquire(2), AcquireOutcome::Wait));
    assert!(matches!(p.acquire(3), AcquireOutcome::Wait));
    assert!(matches!(p.acquire(4), AcquireOutcome::Wait));
    // Waiters are served strictly in arrival order.
    assert!(matches!(p.release(0, false), ReleaseOutcome::HandedTo(2)));
    assert!(matches!(p.release(0, false), ReleaseOutcome::HandedTo(3)));
    assert!(matches!(p.release(0, false), ReleaseOutcome::HandedTo(4)));
    assert!(matches!(p.release(0, false), ReleaseOutcome::Idled));
}

#[test]
fn dead_worker_discarded_and_replaced() {
    // A worker that dies mid-request is discarded on release; the next
    // acquire after a replacement spawn never yields the dead worker.
    let mut p = Pool::new(1).unwrap();
    p.worker_spawned();
    assert!(matches!(p.acquire(1), AcquireOutcome::Granted(0)));
    assert!(matches!(p.release(0, true), ReleaseOutcome::Discarded));
    assert!(p.is_empty());
    assert!(p.below_capacity());
    match p.worker_spawned() {
        SpawnOutcome::AddedIdle(w) => assert_eq!(w, 1),
        SpawnOutcome::AddedBusy(_, _) => panic!("no waiter was queued"),
    }
    match p.acquire(2) {
        AcquireOutcome::Granted(w) => assert_ne!(w, 0),
        AcquireOutcome::Wait => panic!("expected a grant"),
    }
}

#[test]
fn dead_worker_replacement_goes_to_waiter() {
    let mut p = Pool::new(1).unwrap();
    p.worker_spawned();
    p.acquire(1);
    assert!(matches!(p.acquire(2), AcquireOutcome::Wait));
    assert!(matches!(p.release(0, true), ReleaseOutcome::Discarded));
    // The replacement spawn serves the oldest waiter directly.
    assert!(matches!(p.worker_spawned(), SpawnOutcome::AddedBusy(1, 2)));
}

#[test]
fn cancel_leaves_queue_order_intact() {
    let mut p = Pool::new(1).unwrap();
    p.worker_spawned();
    p.acquire(1);
    p.acquire(2);
    p.acquire(3);
    p.acquire(4);
    p.cancel_wait(3);
    assert!(matches!(p.release(0, false), ReleaseOutcome::HandedTo(2)));
    assert!(matches!(p.release(0, false), ReleaseOutcome::HandedTo(4)));
    assert!(matches!(p.release(0, false), ReleaseOutcome::Idled));
}

#[test]
fn cancel_absent_waiter_changes_nothing() {
    let mut p = Pool::new(1).unwrap();
    p.worker_spawned();
    p.acquire(1);
    p.acquire(2);
    p.cancel_wait(99);
    assert!(matches!(p.release(0, false), ReleaseOutcome::HandedTo(2)));
}

#[test]
fn fail_waiters_reports_in_arrival_order() {
    let mut p = Pool::new(1).unwrap();
    p.worker_spawned();
    p.acquire(1);
    p.acquire(2);
    p.acquire(3);
    p.acquire(4);
    let failed = p.fail_waiters();
    assert_eq!(failed, vec![2, 3, 4]);
    assert!(matches!(p.release(0, false), ReleaseOutcome::Idled));
}

#[test]
fn ten_requests_capacity_four_complete_in_three_rounds() {
    // Ten concurrent requests against capacity 4 with workers that answer
    // after a fixed delay: everything completes, and the last request is
    // served in round ceil(10/4) = 3.
    let mut p = Pool::new(4).unwrap();
    for _ in 0..4 {
        p.worker_spawned();
    }
    let mut served: Vec<u64> = Vec::new();
    let mut holding: Vec<(u64, u64)> = Vec::new();
    for req in 1..=10u64 {
        match p.acquire(req) {
            AcquireOutcome::Granted(w) => {
                served.push(req);
                holding.push((req, w));
            }
            AcquireOutcome::Wait => {}
        }
    }
    assert_eq!(served, vec![1, 2, 3, 4]);
    let mut rounds = 1;
    while !holding.is_empty() {
        let batch = std::mem::take(&mut holding);
        let mut any_handed = false;
        for (_req, w) in batch {
            match p.release(w, false) {
                ReleaseOutcome::HandedTo(q) => {
                    served.push(q);
                    holding.push((q, w));
                    any_handed = true;
                }
                ReleaseOutcome::Idled => {}
                ReleaseOutcome::Discarded => panic!("no worker died"),
            }
        }
        if any_handed {
            rounds += 1;
        }
    }
    assert_eq!(served, vec![1, 2, 3, 4, 5, 6, 7, 8, 9, 10]);
    assert_eq!(rounds, 3);
}
