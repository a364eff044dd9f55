use embed_gate::gate::Gate;
use embed_gate::pool::WorkerPool;

#[test]
fn gate_starts_full() {
    let g = Gate::new(3);
    assert_eq!(g.available_permits(), 3);
    assert_eq!(g.capacity(), 3);
}

#[test]
fn gate_acquire_and_release_cycle() {
    let mut g = Gate::new(2);
    let p1 = g.try_acquire().expect("permit free");
    assert_eq!(g.available_permits(), 1);
    let p2 = g.try_acquire().expect("permit free");
    assert_eq!(g.available_permits(), 0);
    assert!(g.try_acquire().is_none());
    g.release(p1);
    assert_eq!(g.available_permits(), 1);
    g.release(p2);
    assert_eq!(g.available_permits(), 2);
}

#[test]
fn pool_checkout_exhausts_without_blocking() {
    let mut p = WorkerPool::new(2);
    assert_eq!(p.capacity(), 2);
    assert_eq!(p.free_workers(), 2);
    let h1 = p.checkout().expect("worker free");
    let h2 = p.checkout().expect("worker free");
    assert_ne!(h1.worker_id(), h2.worker_id());
    assert!(h1.worker_id() < 2);
    assert!(h2.worker_id() < 2);
    assert!(p.checkout().is_none());
    p.checkin(h1);
    p.checkin(h2);
    assert_eq!(p.free_workers(), 2);
}

#[test]
fn pool_checkin_recycles_the_slot() {
    let mut p = WorkerPool::new(3);
    let h = p.checkout().expect("worker free");
    let id = h.worker_id();
    assert!(!p.is_free(id));
    assert_eq!(p.free_workers(), 2);
    p.checkin(h);
    assert!(p.is_free(id));
    assert_eq!(p.free_workers(), 3);
}

#[test]
fn empty_pool_hands_out_nothing() {
    let mut p = WorkerPool::new(0);
    assert!(p.checkout().is_none());
}
