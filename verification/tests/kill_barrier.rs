use currant::kill_barrier::KillBarrier;

#[test]
fn a_new_barrier_is_closed() {
    let barrier = KillBarrier::new();
    assert!(!barrier.wait());
    assert!(!KillBarrier::default().wait());
}

#[test]
fn wait_after_initiate_kill_passes_at_once() {
    let mut barrier = KillBarrier::new();
    assert_eq!(barrier.initiate_kill(), Ok(()));
    assert!(barrier.wait());
    assert!(barrier.wait());
}

#[test]
fn initiate_kill_twice_is_harmless() {
    let mut barrier = KillBarrier::new();
    assert_eq!(barrier.initiate_kill(), Ok(()));
    let mut once = KillBarrier::new();
    let _ = once.initiate_kill();
    assert_eq!(barrier.initiate_kill(), Ok(()));
    assert_eq!(barrier, once);
    assert!(barrier.wait());
}

#[test]
fn everyone_who_shares_the_barrier_sees_it_open() {
    // The one barrier of a run is reached through references; there is no second copy of
    // it that could stay closed.
    let mut barrier = KillBarrier::new();
    {
        let opener = &mut barrier;
        let _ = opener.initiate_kill();
    }
    let first_waiter = &barrier;
    let second_waiter = &barrier;
    assert!(first_waiter.wait());
    assert!(second_waiter.wait());
}
