use currant::control::{HandleControl, SignalError};
use currant::line_parse::{ByteStream, LineEnding};
use currant::run::{
    after_read, join, read_stream, run_commands_internal, stream_message, ProcessWorker,
    ReadOutcome, ReadStep, WorkerNext, WorkerStep,
};
use nix::sys::signal::Signal;
use currant::{ExitResult, InnerCommand, Options, OutputMessage, OutputMessagePayload, RestartOptions};

fn command(name: &str) -> InnerCommand {
    InnerCommand::new(name.to_string(), "sh".to_string(), vec!["-c".to_string(), "true".to_string()])
        .unwrap()
}

fn options(restart: RestartOptions) -> Options {
    let mut options = Options::new();
    options.restart(restart);
    options
}

fn message(name: &str, payload: OutputMessagePayload) -> OutputMessage {
    OutputMessage { name: name.to_string(), message: payload }
}

fn finished(step: WorkerStep) -> ExitResult {
    match step.next {
        WorkerNext::Finished(result) => result,
        other => panic!("expected the command to end, got {:?}", other),
    }
}

fn exit_of(restart: RestartOptions, code: Option<i32>) -> WorkerStep {
    let worker = ProcessWorker::new(command("w"), restart);
    match worker.spawned(100).next {
        WorkerNext::Monitor(running) => running.exited(code),
        other => panic!("expected a running process, got {:?}", other),
    }
}

#[test]
fn a_started_process_is_reported_and_monitored() {
    let worker = ProcessWorker::new(command("w"), RestartOptions::Restart);
    assert_eq!(worker.get_command().name(), "w");
    let step = worker.spawned(4242);
    assert_eq!(step.message, message("w", OutputMessagePayload::Start));
    assert!(!step.opens_barrier);
    match step.next {
        WorkerNext::Monitor(running) => {
            assert_eq!(running.pid(), 4242);
            assert_eq!(running.name(), "w");
        }
        other => panic!("expected a running process, got {:?}", other),
    }
}

#[test]
fn continue_ends_with_the_exit_code_whatever_it_is() {
    for code in [Some(0), Some(1), Some(-7), Some(255), None] {
        let step = exit_of(RestartOptions::Continue, code);
        assert_eq!(step.message, message("w", OutputMessagePayload::Done(code)));
        assert!(!step.opens_barrier);
        assert_eq!(finished(step), ("w".to_string(), code));
    }
}

#[test]
fn restart_ends_on_success_only() {
    let step = exit_of(RestartOptions::Restart, Some(0));
    assert_eq!(step.message, message("w", OutputMessagePayload::Done(Some(0))));
    assert!(!step.opens_barrier);
    assert_eq!(finished(step), ("w".to_string(), Some(0)));

    for code in [Some(1), Some(-1), None] {
        let step = exit_of(RestartOptions::Restart, code);
        assert_eq!(step.message, message("w", OutputMessagePayload::Done(code)));
        assert!(!step.opens_barrier);
        match step.next {
            WorkerNext::Respawn(worker) => assert_eq!(worker.get_command(), &command("w")),
            other => panic!("expected a restart, got {:?}", other),
        }
    }
}

#[test]
fn restart_goes_on_without_a_limit() {
    let mut worker = ProcessWorker::new(command("w"), RestartOptions::Restart);
    let mut starts = 0;
    for attempt in 0..50 {
        let running = match worker.spawned(1000 + attempt).next {
            WorkerNext::Monitor(running) => running,
            other => panic!("expected a running process, got {:?}", other),
        };
        starts += 1;
        worker = match running.exited(Some(3)).next {
            WorkerNext::Respawn(worker) => worker,
            other => panic!("expected a restart, got {:?}", other),
        };
    }
    assert_eq!(starts, 50);
    let running = match worker.spawned(7).next {
        WorkerNext::Monitor(running) => running,
        other => panic!("expected a running process, got {:?}", other),
    };
    assert_eq!(finished(running.exited(Some(0))), ("w".to_string(), Some(0)));
}

#[test]
fn kill_opens_the_barrier_on_failure_and_ends_either_way() {
    let step = exit_of(RestartOptions::Kill, Some(0));
    assert!(!step.opens_barrier);
    assert_eq!(finished(step), ("w".to_string(), Some(0)));

    let step = exit_of(RestartOptions::Kill, Some(2));
    assert_eq!(step.message, message("w", OutputMessagePayload::Done(Some(2))));
    assert!(step.opens_barrier);
    assert_eq!(finished(step), ("w".to_string(), Some(2)));

    let step = exit_of(RestartOptions::Kill, None);
    assert!(step.opens_barrier);
    assert_eq!(finished(step), ("w".to_string(), None));
}

#[test]
fn spawn_failure_follows_the_policy() {
    let step = ProcessWorker::new(command("w"), RestartOptions::Continue)
        .spawn_failed("no such file".to_string());
    assert_eq!(step.message, message("w", OutputMessagePayload::Error("no such file".to_string())));
    assert!(!step.opens_barrier);
    assert_eq!(finished(step), ("w".to_string(), None));

    let step = ProcessWorker::new(command("w"), RestartOptions::Kill)
        .spawn_failed("no such file".to_string());
    assert_eq!(step.message, message("w", OutputMessagePayload::Error("no such file".to_string())));
    assert!(step.opens_barrier);
    assert_eq!(finished(step), ("w".to_string(), None));

    let step = ProcessWorker::new(command("w"), RestartOptions::Restart)
        .spawn_failed("no such file".to_string());
    assert_eq!(step.message, message("w", OutputMessagePayload::Error("no such file".to_string())));
    assert!(!step.opens_barrier);
    assert!(matches!(step.next, WorkerNext::Respawn(_)));
}

#[test]
fn wait_failure_ends_the_command_under_every_policy() {
    for restart in [RestartOptions::Continue, RestartOptions::Restart, RestartOptions::Kill] {
        let worker = ProcessWorker::new(command("w"), restart);
        let running = match worker.spawned(9).next {
            WorkerNext::Monitor(running) => running,
            other => panic!("expected a running process, got {:?}", other),
        };
        let step = running.wait_failed("interrupted".to_string());
        assert_eq!(
            step.message,
            message("w", OutputMessagePayload::Error("interrupted".to_string()))
        );
        assert!(!step.opens_barrier);
        assert_eq!(finished(step), ("w".to_string(), None));
    }
}

#[test]
fn n_commands_under_continue_give_n_results_in_submission_order() {
    let names = ["first", "second", "third", "fourth"];
    let codes = [Some(0), Some(3), None, Some(120)];
    let commands: Vec<InnerCommand> = names.iter().map(|n| command(n)).collect();
    let supervisor = run_commands_internal(commands, options(RestartOptions::Continue));
    let (command_names, workers, mut control) = supervisor.into_parts();
    assert_eq!(command_names, names);
    assert_eq!(workers.len(), 4);

    // The workers end in another order than they were submitted in.
    let mut outcomes: Vec<Option<ExitResult>> = vec![None, None, None, None];
    let mut workers: Vec<Option<ProcessWorker>> = workers.into_iter().map(Some).collect();
    for idx in [2usize, 0, 3, 1] {
        let worker = workers[idx].take().unwrap();
        let step = worker.spawned(500 + idx as u32);
        assert_eq!(step.message, message(names[idx], OutputMessagePayload::Start));
        let running = match step.next {
            WorkerNext::Monitor(running) => running,
            other => panic!("expected a running process, got {:?}", other),
        };
        control.record_pid(idx, running.pid());
        let step = running.exited(codes[idx]);
        assert!(!step.opens_barrier);
        outcomes[idx] = Some(finished(step));
    }
    assert!(!control.is_killed());

    let results = join(&command_names, Some(outcomes)).unwrap();
    assert_eq!(
        results,
        vec![
            ("first".to_string(), Some(0)),
            ("second".to_string(), Some(3)),
            ("third".to_string(), None),
            ("fourth".to_string(), Some(120)),
        ]
    );
}

#[test]
fn a_failure_under_kill_ends_the_sleeping_command_for_good() {
    let commands = vec![command("failing"), command("sleeping")];
    let supervisor = run_commands_internal(commands, options(RestartOptions::Kill));
    let (names, workers, mut control) = supervisor.into_parts();
    let mut workers = workers.into_iter();
    let failing = workers.next().unwrap();
    let sleeping = workers.next().unwrap();
    let mut events: Vec<OutputMessage> = Vec::new();

    let step = failing.spawned(11);
    events.push(step.message);
    let failing = match step.next {
        WorkerNext::Monitor(running) => running,
        other => panic!("expected a running process, got {:?}", other),
    };
    control.record_pid(0, failing.pid());
    let step = sleeping.spawned(12);
    events.push(step.message);
    let sleeping = match step.next {
        WorkerNext::Monitor(running) => running,
        other => panic!("expected a running process, got {:?}", other),
    };
    control.record_pid(1, sleeping.pid());

    // The watcher of the sleeping command is turned away while all is well.
    assert!(!control.is_killed());

    let step = failing.exited(Some(1));
    events.push(step.message.clone());
    assert!(step.opens_barrier);
    let _ = control.kill_all();
    let first = finished(step);

    // Now the watcher passes and kills the sleeping process, which ends by a signal.
    assert!(control.is_killed());
    let step = sleeping.exited(None);
    events.push(step.message.clone());
    let second = finished(step);

    let after_failure: Vec<&OutputMessage> = events.iter().skip(2).collect();
    assert_eq!(
        after_failure,
        vec![
            &message("failing", OutputMessagePayload::Done(Some(1))),
            &message("sleeping", OutputMessagePayload::Done(None)),
        ]
    );
    assert!(after_failure.iter().all(|m| m.message != OutputMessagePayload::Start));
    assert_eq!(
        join(&names, Some(vec![Some(first), Some(second)])),
        Ok(vec![("failing".to_string(), Some(1)), ("sleeping".to_string(), None)])
    );
}

#[test]
fn join_fails_with_a_message_when_a_worker_was_lost() {
    let names = vec!["a".to_string(), "b".to_string(), "c".to_string()];
    let outcomes = vec![Some(("a".to_string(), Some(0))), None, Some(("c".to_string(), Some(9)))];
    assert_eq!(join(&names, Some(outcomes)), Err("Thread panic'ed before exit".to_string()));
    let outcomes = vec![None, None, None];
    assert_eq!(join(&names, Some(outcomes)), Err("Thread panic'ed before exit".to_string()));
}

#[test]
fn join_fails_when_a_command_has_no_outcome() {
    let names = vec!["a".to_string(), "b".to_string()];
    assert_eq!(
        join(&names, Some(vec![Some(("a".to_string(), Some(1)))])),
        Err("Thread panic'ed before exit".to_string())
    );
    assert_eq!(join(&names, Some(Vec::new())), Err("Thread panic'ed before exit".to_string()));
}

#[test]
fn join_hands_back_what_the_workers_reported() {
    let names = vec!["a".to_string(), "b".to_string()];
    let outcomes = vec![Some(("a".to_string(), None)), Some(("b".to_string(), Some(-4)))];
    assert_eq!(
        join(&names, Some(outcomes)),
        Ok(vec![("a".to_string(), None), ("b".to_string(), Some(-4))])
    );
}

#[test]
fn join_of_no_commands_is_empty() {
    assert_eq!(join(&Vec::new(), Some(Vec::new())), Ok(Vec::new()));
}

#[test]
fn join_reports_a_lost_overseer_as_a_message() {
    let names = vec!["a".to_string()];
    assert_eq!(join(&names, None), Err("Thread panic'ed before exit".to_string()));
}

#[test]
fn a_run_is_set_up_with_empty_slots_and_a_closed_barrier() {
    let supervisor = run_commands_internal(
        vec![command("a"), command("b")],
        options(RestartOptions::Restart),
    );
    let (names, workers, control) = supervisor.into_parts();
    assert_eq!(names, vec!["a".to_string(), "b".to_string()]);
    assert_eq!(workers[0].get_command(), &command("a"));
    assert_eq!(workers[1].get_command(), &command("b"));
    assert_eq!(control.len(), 2);
    assert_eq!(control.find_pid("a"), None);
    assert_eq!(control.find_pid("b"), None);
    assert!(!control.is_killed());
    assert_eq!(
        control.signal_one("a", Signal::SIGTERM),
        Err(SignalError::NotFound("a".to_string()))
    );
    // The workers carry the policy of the run.
    let mut workers = workers.into_iter();
    let step = workers.next().unwrap().spawn_failed("x".to_string());
    assert!(matches!(step.next, WorkerNext::Respawn(_)));
}

#[test]
fn kill_before_any_child_is_spawned_is_a_safe_no_op() {
    let mut supervisor =
        run_commands_internal(vec![command("a")], options(RestartOptions::Continue));
    supervisor.kill();
    supervisor.kill();
    let (names, workers, control): (Vec<String>, Vec<ProcessWorker>, HandleControl) =
        supervisor.into_parts();
    assert_eq!(names, vec!["a".to_string()]);
    assert_eq!(workers.len(), 1);
    assert_eq!(control.len(), 1);
    assert_eq!(control.find_pid("a"), None);
    assert!(control.is_killed());
}

#[test]
fn kill_on_a_run_without_commands_is_harmless() {
    let mut supervisor = run_commands_internal(Vec::new(), Options::new());
    supervisor.kill();
    let (names, workers, control) = supervisor.into_parts();
    assert!(names.is_empty());
    assert!(workers.is_empty());
    assert!(control.is_killed());
}

#[test]
fn a_stream_is_reported_line_by_line_in_order() {
    let mut reader = ByteStream::new(b"one\ntwo\r\nthree\rfour".to_vec(), 4);
    let messages = read_stream("cmd", &mut reader, true);
    assert_eq!(
        messages,
        vec![
            message("cmd", OutputMessagePayload::Stdout(LineEnding::Lf, b"one".to_vec())),
            message("cmd", OutputMessagePayload::Stdout(LineEnding::Crlf, b"two".to_vec())),
            message("cmd", OutputMessagePayload::Stdout(LineEnding::Cr, b"three".to_vec())),
            message("cmd", OutputMessagePayload::Stdout(LineEnding::Lf, b"four".to_vec())),
        ]
    );
    assert!(reader.fill_buf().is_empty());
}

#[test]
fn standard_error_is_reported_as_such() {
    let mut reader = ByteStream::new(b"oops\n".to_vec(), 16);
    assert_eq!(
        read_stream("cmd", &mut reader, false),
        vec![message("cmd", OutputMessagePayload::Stderr(LineEnding::Lf, b"oops".to_vec()))]
    );
    assert_eq!(
        stream_message("cmd", false, LineEnding::Cr, b"x".to_vec()),
        message("cmd", OutputMessagePayload::Stderr(LineEnding::Cr, b"x".to_vec()))
    );
    assert_eq!(
        stream_message("cmd", true, LineEnding::Crlf, Vec::new()),
        message("cmd", OutputMessagePayload::Stdout(LineEnding::Crlf, Vec::new()))
    );
}

#[test]
fn an_empty_stream_reports_nothing() {
    let mut reader = ByteStream::new(Vec::new(), 16);
    assert_eq!(read_stream("cmd", &mut reader, true), Vec::new());
}

#[test]
fn output_produced_before_a_kill_is_still_delivered() {
    // The process is killed after it wrote a line and a half; the pipe is read to its end.
    let mut control = HandleControl::new(Vec::new(), currant::kill_barrier::KillBarrier::new());
    let _ = control.kill_all();
    let mut reader = ByteStream::new(b"done so far\nhalf a li".to_vec(), 5);
    assert_eq!(
        read_stream("cmd", &mut reader, true),
        vec![
            message("cmd", OutputMessagePayload::Stdout(LineEnding::Lf, b"done so far".to_vec())),
            message("cmd", OutputMessagePayload::Stdout(LineEnding::Lf, b"half a li".to_vec())),
        ]
    );
}

#[test]
fn options_default_to_continue() {
    let mut options = Options::new();
    assert_eq!(options.restart, RestartOptions::Continue);
    assert!(!options.quiet);
    assert!(!options.file_handle_flags);
    options.restart(RestartOptions::Kill);
    assert_eq!(
        options,
        Options { restart: RestartOptions::Kill, quiet: false, file_handle_flags: false }
    );
}

#[test]
fn a_line_is_reported_and_the_reading_goes_on() {
    assert_eq!(
        after_read("cmd", true, ReadOutcome::Line(LineEnding::Crlf, b"x".to_vec())),
        ReadStep {
            message: Some(message(
                "cmd",
                OutputMessagePayload::Stdout(LineEnding::Crlf, b"x".to_vec())
            )),
            goes_on: true,
        }
    );
    assert_eq!(
        after_read("cmd", false, ReadOutcome::Line(LineEnding::Lf, Vec::new())),
        ReadStep {
            message: Some(message("cmd", OutputMessagePayload::Stderr(LineEnding::Lf, Vec::new()))),
            goes_on: true,
        }
    );
}

#[test]
fn the_end_of_a_stream_ends_the_reading_without_a_message() {
    assert_eq!(after_read("cmd", true, ReadOutcome::End), ReadStep { message: None, goes_on: false });
}

#[test]
fn a_failed_read_is_reported_once_and_ends_the_reading() {
    assert_eq!(
        after_read("cmd", true, ReadOutcome::Failed("broken pipe".to_string())),
        ReadStep {
            message: Some(message(
                "cmd",
                OutputMessagePayload::Error("broken pipe".to_string())
            )),
            goes_on: false,
        }
    );
}
