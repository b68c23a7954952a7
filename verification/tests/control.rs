use currant::control::{HandleControl, PidSlot, SignalError};
use nix::sys::signal::Signal;
use currant::kill_barrier::KillBarrier;

fn slot(name: &str, pid: Option<u32>) -> PidSlot {
    PidSlot { name: name.to_string(), pid }
}

#[test]
fn signal_one_on_a_name_never_submitted_is_not_found() {
    let control = HandleControl::new(vec![slot("a", Some(2147483647))], KillBarrier::new());
    assert_eq!(
        control.signal_one("never", Signal::SIGTERM),
        Err(SignalError::NotFound("never".to_string()))
    );
}

#[test]
fn signal_one_without_any_command_is_not_found() {
    let control = HandleControl::new(Vec::new(), KillBarrier::new());
    assert_eq!(
        control.signal_one("a", Signal::SIGTERM),
        Err(SignalError::NotFound("a".to_string()))
    );
}

#[test]
fn signal_one_on_a_command_not_yet_started_is_not_found() {
    let control = HandleControl::new(vec![slot("a", None)], KillBarrier::new());
    assert_eq!(
        control.signal_one("a", Signal::SIGCONT),
        Err(SignalError::NotFound("a".to_string()))
    );
}

#[test]
fn signal_one_to_a_process_that_is_gone_fails_in_delivery() {
    // No process has this id: it lies beyond the largest id that Linux hands out.
    let control = HandleControl::new(vec![slot("a", Some(2147483647))], KillBarrier::new());
    match control.signal_one("a", Signal::SIGCONT) {
        Err(SignalError::DeliveryFailed(text)) => assert!(!text.is_empty()),
        other => panic!("expected a failed delivery, got {:?}", other),
    }
}

#[test]
fn ids_that_name_no_single_process_are_never_signalled() {
    let control = HandleControl::new(
        vec![slot("zero", Some(0)), slot("wide", Some(4294967295))],
        KillBarrier::new(),
    );
    assert_eq!(control.find_pid("zero"), None);
    assert_eq!(control.find_pid("wide"), None);
    assert_eq!(
        control.signal_one("zero", Signal::SIGCONT),
        Err(SignalError::NotFound("zero".to_string()))
    );
    assert_eq!(
        control.signal_one("wide", Signal::SIGCONT),
        Err(SignalError::NotFound("wide".to_string()))
    );
    assert_eq!(control.all_pids(), Vec::<u32>::new());
}

#[test]
fn the_first_of_two_commands_with_one_name_is_meant() {
    let control = HandleControl::new(
        vec![slot("a", None), slot("a", Some(77)), slot("b", Some(78))],
        KillBarrier::new(),
    );
    assert_eq!(control.find_pid("a"), None);
    assert_eq!(control.find_pid("b"), Some(78));
}

#[test]
fn record_pid_replaces_the_id_of_the_earlier_start() {
    let mut control =
        HandleControl::new(vec![slot("a", None), slot("b", None)], KillBarrier::new());
    assert_eq!(control.len(), 2);
    control.record_pid(1, 4000);
    assert_eq!(control.find_pid("a"), None);
    assert_eq!(control.find_pid("b"), Some(4000));
    control.record_pid(1, 4001);
    assert_eq!(control.find_pid("b"), Some(4001));
    control.record_pid(0, 5);
    assert_eq!(control.all_pids(), vec![5, 4001]);
}

#[test]
fn all_pids_keeps_the_order_of_the_slots() {
    let control = HandleControl::new(
        vec![slot("a", Some(30)), slot("b", None), slot("c", Some(10)), slot("d", Some(20))],
        KillBarrier::new(),
    );
    assert_eq!(control.all_pids(), vec![30, 10, 20]);
}

#[test]
fn signal_all_goes_on_after_a_failed_delivery() {
    let control = HandleControl::new(
        vec![slot("a", Some(2147483647)), slot("b", None), slot("c", Some(2147483646))],
        KillBarrier::new(),
    );
    control.signal_all(Signal::SIGCONT);
    assert_eq!(control.all_pids(), vec![2147483647, 2147483646]);
}

#[test]
fn signal_all_without_any_process_does_nothing() {
    let control = HandleControl::new(Vec::new(), KillBarrier::new());
    control.signal_all(Signal::SIGTERM);
    assert_eq!(control.len(), 0);
}

#[test]
fn kill_all_with_no_child_spawned_only_opens_the_barrier() {
    let mut control =
        HandleControl::new(vec![slot("a", None), slot("b", None)], KillBarrier::new());
    assert!(!control.is_killed());
    assert_eq!(control.kill_all(), Ok(()));
    assert!(control.is_killed());
    assert_eq!(control.find_pid("a"), None);
    assert_eq!(control.find_pid("b"), None);
    assert_eq!(control.len(), 2);
    assert_eq!(control.kill_all(), Ok(()));
    assert!(control.is_killed());
}

#[test]
fn kill_all_on_an_empty_registry_is_harmless() {
    let mut control = HandleControl::new(Vec::new(), KillBarrier::new());
    assert_eq!(control.kill_all(), Ok(()));
    assert!(control.is_killed());
    assert_eq!(control.len(), 0);
}
