//! The life of one command and of a whole run: what is reported, what is
//! started again and what ends, after each thing that happened to a
//! process.

use crate::control::{HandleControl, PidSlot, SlotView};
use crate::kill_barrier::KillBarrier;
use crate::line_parse::{
    get_line, lemma_first_terminator, lines, next_line, next_line_len, ByteStream, LineEnding,
};
use crate::{
    exit_succeeded, CommandView, ExitResult, InnerCommand, MessageView, Options, OutputMessage,
    OutputMessagePayload, PayloadView, RestartOptions,
};
use vstd::prelude::*;

verus! {

/// What one attempt to run a command came to.
pub enum Attempt {
    /// The process could not be started.
    SpawnFailed,
    /// The process ran and ended, with this exit code if it has one.
    Exited(Option<i32>),
    /// The process ran, but its end could not be awaited.
    WaitFailed,
}

/// Whether a command is started again after an attempt that came to `a`:
/// only under `Restart`, and only where the process could not be started
/// or ended without success.
pub open spec fn attempt_respawns(restart: RestartOptions, a: Attempt) -> bool {
    restart == RestartOptions::Restart && match a {
        Attempt::SpawnFailed => true,
        Attempt::Exited(code) => !exit_succeeded(code),
        Attempt::WaitFailed => false,
    }
}

/// Whether an attempt that came to `a` cancels the whole group: only under
/// `Kill`, and only where the process could not be started or ended
/// without success.
pub open spec fn attempt_opens_barrier(restart: RestartOptions, a: Attempt) -> bool {
    restart == RestartOptions::Kill && match a {
        Attempt::SpawnFailed => true,
        Attempt::Exited(code) => !exit_succeeded(code),
        Attempt::WaitFailed => false,
    }
}

/// The exit code that a command ends with when `a` is its last attempt.
pub open spec fn attempt_code(a: Attempt) -> Option<i32> {
    match a {
        Attempt::Exited(code) => code,
        _ => None,
    }
}

/// What is reported of an attempt that came to `a`: a process that ran to
/// its end is `Done`, with `text` unused; the two failures are `Error`s
/// that carry `text`.
pub open spec fn attempt_report(a: Attempt, text: Seq<char>) -> PayloadView {
    match a {
        Attempt::Exited(code) => PayloadView::Done(code),
        _ => PayloadView::Error(text),
    }
}

/// A command that is about to be started, for the first time or again.
#[derive(Debug)]
pub struct ProcessWorker {
    command: InnerCommand,
    restart: RestartOptions,
}

/// A command whose process is running.
#[derive(Debug)]
pub struct RunningWorker {
    command: InnerCommand,
    restart: RestartOptions,
    pid: u32,
}

/// What becomes of a worker after something happened to its process.
#[derive(Debug)]
pub enum WorkerNext {
    /// Start the process again.
    Respawn(ProcessWorker),
    /// The process runs. Note its id, read its two streams to their ends
    /// while a watcher stands at the barrier, then await its end.
    Monitor(RunningWorker),
    /// The command has ended for good, with this result.
    Finished(ExitResult),
}

/// The mathematical value of a [`WorkerNext`].
pub enum NextView {
    Respawn(CommandView, RestartOptions),
    Monitor(CommandView, RestartOptions, u32),
    Finished(Seq<char>, Option<i32>),
}

impl View for WorkerNext {
    type V = NextView;

    open spec fn view(&self) -> NextView {
        match *self {
            WorkerNext::Respawn(w) => NextView::Respawn(w.command(), w.policy()),
            WorkerNext::Monitor(w) => NextView::Monitor(w.command(), w.policy(), w.process_id()),
            WorkerNext::Finished(result) => NextView::Finished(result.0@, result.1),
        }
    }
}

/// What a worker asks for after something happened to its process.
#[derive(Debug)]
pub struct WorkerStep {
    /// The message to put on the output channel.
    pub message: OutputMessage,
    /// Whether to open the barrier that cancels the group, once the message
    /// is on the channel and before the worker goes on.
    pub opens_barrier: bool,
    /// How the worker goes on.
    pub next: WorkerNext,
}

/// What follows an attempt of `command` under `restart` that came to `a`,
/// once the attempt is over.
pub open spec fn after_attempt(command: CommandView, restart: RestartOptions, a: Attempt)
    -> NextView {
    if attempt_respawns(restart, a) {
        NextView::Respawn(command, restart)
    } else {
        NextView::Finished(command.name, attempt_code(a))
    }
}

impl ProcessWorker {
    /// The command that this worker runs.
    pub closed spec fn command(&self) -> CommandView {
        self.command@
    }

    /// The policy that this worker follows.
    pub closed spec fn policy(&self) -> RestartOptions {
        self.restart
    }

    /// A worker for `command` under the policy `restart`.
    pub fn new(command: InnerCommand, restart: RestartOptions) -> (r: ProcessWorker)
        ensures
            r.command() == command@,
            r.policy() == restart,
    {
        ProcessWorker { command, restart }
    }

    /// The command to start.
    pub fn get_command(&self) -> (r: &InnerCommand)
        ensures
            r@ == self.command(),
    {
        &self.command
    }

    /// The process was started and has the id `pid`: `Start` is reported
    /// and the process is to be monitored. The barrier is left alone.
    pub fn spawned(self, pid: u32) -> (step: WorkerStep)
        ensures
            step.message@ == (MessageView { name: self.command().name, message: PayloadView::Start }),
            !step.opens_barrier,
            step.next@ == NextView::Monitor(self.command(), self.policy(), pid),
    {
        let message = OutputMessage {
            name: self.command.name().clone(),
            message: OutputMessagePayload::Start,
        };
        WorkerStep {
            message,
            opens_barrier: false,
            next: WorkerNext::Monitor(
                RunningWorker { command: self.command, restart: self.restart, pid },
            ),
        }
    }

    /// The process could not be started, for the reason `error`: the
    /// error is reported. Under `Restart` the command is started again;
    /// under `Continue` it ends without an exit code; under `Kill` it ends
    /// so too, and the barrier is opened first.
    pub fn spawn_failed(self, error: String) -> (step: WorkerStep)
        ensures
            step.message@ == (MessageView {
                name: self.command().name,
                message: attempt_report(Attempt::SpawnFailed, error@),
            }),
            step.opens_barrier == attempt_opens_barrier(self.policy(), Attempt::SpawnFailed),
            step.next@ == after_attempt(self.command(), self.policy(), Attempt::SpawnFailed),
    {
        let name = self.command.name().clone();
        let message = OutputMessage {
            name: name.clone(),
            message: OutputMessagePayload::Error(error),
        };
        match self.restart {
            RestartOptions::Restart => WorkerStep {
                message,
                opens_barrier: false,
                next: WorkerNext::Respawn(self),
            },
            RestartOptions::Kill => WorkerStep {
                message,
                opens_barrier: true,
                next: WorkerNext::Finished((name, None)),
            },
            RestartOptions::Continue => WorkerStep {
                message,
                opens_barrier: false,
                next: WorkerNext::Finished((name, None)),
            },
        }
    }
}

impl RunningWorker {
    /// The command that this worker runs.
    pub closed spec fn command(&self) -> CommandView {
        self.command@
    }

    /// The policy that this worker follows.
    pub closed spec fn policy(&self) -> RestartOptions {
        self.restart
    }

    /// The id of the running process.
    pub closed spec fn process_id(&self) -> u32 {
        self.pid
    }

    /// The id of the running process, for the registry.
    pub fn pid(&self) -> (r: u32)
        ensures
            r == self.process_id(),
    {
        self.pid
    }

    /// The name of the command, to label its output with.
    pub fn name(&self) -> (r: &String)
        ensures
            r@ == self.command().name,
    {
        self.command.name()
    }

    /// Both streams were read to their ends and the process ended with
    /// `code`: `Done` is reported with the code. Under `Continue` the
    /// command ends with this code, success or not. Under `Restart` it
    /// ends if the process succeeded and is started again if not. Under
    /// `Kill` it ends with this code, and the barrier is opened if the
    /// process did not succeed.
    pub fn exited(self, code: Option<i32>) -> (step: WorkerStep)
        ensures
            step.message@ == (MessageView {
                name: self.command().name,
                message: attempt_report(Attempt::Exited(code), Seq::empty()),
            }),
            step.opens_barrier == attempt_opens_barrier(self.policy(), Attempt::Exited(code)),
            step.next@ == after_attempt(self.command(), self.policy(), Attempt::Exited(code)),
    {
        let name = self.command.name().clone();
        let message = OutputMessage {
            name: name.clone(),
            message: OutputMessagePayload::Done(code),
        };
        let success = match code {
            Some(c) => c == 0,
            None => false,
        };
        match self.restart {
            RestartOptions::Continue => WorkerStep {
                message,
                opens_barrier: false,
                next: WorkerNext::Finished((name, code)),
            },
            RestartOptions::Restart => if success {
                WorkerStep { message, opens_barrier: false, next: WorkerNext::Finished((name, code)) }
            } else {
                WorkerStep {
                    message,
                    opens_barrier: false,
                    next: WorkerNext::Respawn(
                        ProcessWorker { command: self.command, restart: self.restart },
                    ),
                }
            },
            RestartOptions::Kill => WorkerStep {
                message,
                opens_barrier: !success,
                next: WorkerNext::Finished((name, code)),
            },
        }
    }

    /// The end of the process could not be awaited, for the reason
    /// `error`: the error is reported and the command ends without an exit
    /// code, whatever the policy. The barrier is left alone.
    pub fn wait_failed(self, error: String) -> (step: WorkerStep)
        ensures
            step.message@ == (MessageView {
                name: self.command().name,
                message: attempt_report(Attempt::WaitFailed, error@),
            }),
            step.opens_barrier == attempt_opens_barrier(self.policy(), Attempt::WaitFailed),
            step.next@ == after_attempt(self.command(), self.policy(), Attempt::WaitFailed),
    {
        let name = self.command.name().clone();
        let message = OutputMessage {
            name: name.clone(),
            message: OutputMessagePayload::Error(error),
        };
        WorkerStep { message, opens_barrier: false, next: WorkerNext::Finished((name, None)) }
    }
}

/// Under `Continue` every attempt is the last: the command ends with the
/// exit code of its one process, whether it succeeded or not, nothing is
/// started again, and the barrier is left alone.
pub proof fn lemma_continue_ends_with_the_exit(command: CommandView, a: Attempt)
    ensures
        after_attempt(command, RestartOptions::Continue, a) == NextView::Finished(
            command.name,
            attempt_code(a),
        ),
        !attempt_respawns(RestartOptions::Continue, a),
        !attempt_opens_barrier(RestartOptions::Continue, a),
{
}

/// Under `Kill` every attempt is the last, so that a command whose process
/// has ended is never started again, and the barrier is opened exactly by an
/// attempt that failed: a process that could not be started, or one that
/// ended without success.
pub proof fn lemma_kill_ends_and_cancels_on_failure(command: CommandView, a: Attempt)
    ensures
        after_attempt(command, RestartOptions::Kill, a) == NextView::Finished(
            command.name,
            attempt_code(a),
        ),
        !attempt_respawns(RestartOptions::Kill, a),
        attempt_opens_barrier(RestartOptions::Kill, a) <==> (a is SpawnFailed || (a matches Attempt::Exited(
            code,
        ) && !exit_succeeded(code))),
{
}

/// Under `Kill` the failure of one command lets every watcher pass: the
/// step asks for the barrier to be opened, and on the barrier as
/// `initiate_kill` leaves it every `wait` passes, at once and after any
/// number of further openings, so that the watcher of every other command
/// goes on to kill its process. How soon those processes are then gone is
/// for the threads to bring about; no clause speaks of time.
pub proof fn lemma_failure_under_kill_lets_every_watcher_pass(
    a: Attempt,
    barrier: KillBarrier,
    n: nat,
)
    requires
        a is SpawnFailed || (a matches Attempt::Exited(code) && !exit_succeeded(code)),
    ensures
        attempt_opens_barrier(RestartOptions::Kill, a),
        barrier.after_kill().is_open(),
        barrier.after_kill().after_kills(n).is_open(),
{
    barrier.lemma_kill_opens();
    barrier.after_kill().lemma_open_is_final(n);
}

/// Under `Restart` a command is started again after every failure, with
/// the same command and policy and without a limit, it ends only with a
/// process that succeeded or could not be awaited, and the barrier is left
/// alone.
pub proof fn lemma_restart_until_success(command: CommandView, a: Attempt)
    ensures
        !attempt_opens_barrier(RestartOptions::Restart, a),
        attempt_respawns(RestartOptions::Restart, a) <==> !(a is WaitFailed || (a matches Attempt::Exited(
            code,
        ) && exit_succeeded(code))),
        attempt_respawns(RestartOptions::Restart, a) ==> after_attempt(
            command,
            RestartOptions::Restart,
            a,
        ) == NextView::Respawn(command, RestartOptions::Restart),
        !attempt_respawns(RestartOptions::Restart, a) ==> after_attempt(
            command,
            RestartOptions::Restart,
            a,
        ) == NextView::Finished(command.name, attempt_code(a)),
{
}

/// How many times a command is started when its attempts come to
/// `attempts` in turn: once for each attempt up to the first after which
/// it is not started again.
pub open spec fn starts(restart: RestartOptions, attempts: Seq<Attempt>) -> nat
    decreases attempts.len(),
{
    if attempts.len() == 0 {
        0
    } else if attempt_respawns(restart, attempts[0]) {
        1 + starts(restart, attempts.skip(1))
    } else {
        1
    }
}

/// Under `Continue` and under `Kill` a command is started once at most,
/// however its process ends: after its first attempt nothing of it is
/// started or reported again.
pub proof fn lemma_started_once_without_restart(restart: RestartOptions, attempts: Seq<Attempt>)
    requires
        restart != RestartOptions::Restart,
    ensures
        starts(restart, attempts) <= 1,
{
}

/// Under `Restart` a command whose attempts all fail is started as often
/// as there are attempts: no number of failures makes it give up.
pub proof fn lemma_restart_has_no_limit(attempts: Seq<Attempt>)
    requires
        forall|i: int|
            0 <= i < attempts.len() ==> attempt_respawns(
                RestartOptions::Restart,
                #[trigger] attempts[i],
            ),
    ensures
        starts(RestartOptions::Restart, attempts) == attempts.len(),
    decreases attempts.len(),
{
    if attempts.len() > 0 {
        let rest = attempts.skip(1);
        assert forall|i: int| 0 <= i < rest.len() implies attempt_respawns(
            RestartOptions::Restart,
            #[trigger] rest[i],
        ) by {
            assert(rest[i] == attempts[i + 1]);
        }
        lemma_restart_has_no_limit(rest);
    }
}

/// What one line of a stream is reported as: `Stdout` for standard out,
/// `Stderr` for standard error, with the line's terminator and bytes.
pub open spec fn line_payload(is_stdout: bool, line: (LineEnding, Seq<u8>)) -> PayloadView {
    if is_stdout {
        PayloadView::Stdout(line.0, line.1)
    } else {
        PayloadView::Stderr(line.0, line.1)
    }
}

/// The messages that the lines `ls` of one stream of the command `name`
/// are reported as, in the order of the lines.
pub open spec fn stream_messages(name: Seq<char>, is_stdout: bool, ls: Seq<(LineEnding, Seq<u8>)>)
    -> Seq<MessageView> {
    ls.map_values(
        |line: (LineEnding, Seq<u8>)|
            MessageView { name, message: line_payload(is_stdout, line) },
    )
}

/// The messages of `v` as values.
pub open spec fn messages_view(v: Seq<OutputMessage>) -> Seq<MessageView> {
    v.map_values(|m: OutputMessage| m@)
}

/// The message that reports one line of output of the command `cmd_name`.
pub fn stream_message(cmd_name: &str, is_stdout: bool, ending: LineEnding, bytes: Vec<u8>) -> (m:
    OutputMessage)
    ensures
        m@ == (MessageView {
            name: cmd_name@,
            message: line_payload(is_stdout, (ending, bytes@)),
        }),
{
    OutputMessage {
        name: cmd_name.to_owned(),
        message: if is_stdout {
            OutputMessagePayload::Stdout(ending, bytes)
        } else {
            OutputMessagePayload::Stderr(ending, bytes)
        },
    }
}

/// What one read from a stream of a process came to.
#[derive(Debug, PartialEq, Eq)]
pub enum ReadOutcome {
    /// A line, with its terminator and its bytes.
    Line(LineEnding, Vec<u8>),
    /// The stream is closed and nothing is left of it.
    End,
    /// The read failed; the text says how.
    Failed(String),
}

/// What a reader does after a read.
#[derive(Debug, PartialEq, Eq)]
pub struct ReadStep {
    /// The message to put on the output channel, if any.
    pub message: Option<OutputMessage>,
    /// Whether to read on. Where it is `false` the stream is done with.
    pub goes_on: bool,
}

/// What follows a read from a stream of the command `cmd_name`: a line is
/// reported and the reading goes on; the end of the stream is not reported
/// and ends the reading; a failure is reported as an error and ends the
/// reading too.
pub fn after_read(cmd_name: &str, is_stdout: bool, outcome: ReadOutcome) -> (step: ReadStep)
    ensures
        match outcome {
            ReadOutcome::Line(ending, bytes) => {
                &&& step.goes_on
                &&& step.message matches Some(m)
                &&& m@ == (MessageView {
                    name: cmd_name@,
                    message: line_payload(is_stdout, (ending, bytes@)),
                })
            },
            ReadOutcome::End => !step.goes_on && step.message is None,
            ReadOutcome::Failed(text) => {
                &&& !step.goes_on
                &&& step.message matches Some(m)
                &&& m@ == (MessageView { name: cmd_name@, message: PayloadView::Error(text@) })
            },
        },
{
    match outcome {
        ReadOutcome::Line(ending, bytes) => ReadStep {
            message: Some(stream_message(cmd_name, is_stdout, ending, bytes)),
            goes_on: true,
        },
        ReadOutcome::End => ReadStep { message: None, goes_on: false },
        ReadOutcome::Failed(text) => ReadStep {
            message: Some(
                OutputMessage {
                    name: cmd_name.to_owned(),
                    message: OutputMessagePayload::Error(text),
                },
            ),
            goes_on: false,
        },
    }
}

/// Reads one stream of the command `cmd_name` to its end and reports
/// each line: the messages are those of the stream's lines, in the order
/// of the lines, and nothing of the stream is left over.
pub fn read_stream(cmd_name: &str, reader: &mut ByteStream, is_stdout: bool) -> (messages: Vec<
    OutputMessage,
>)
    requires
        old(reader).wf(),
    ensures
        final(reader).wf(),
        final(reader).remaining() == Seq::<u8>::empty(),
        messages_view(messages@) == stream_messages(
            cmd_name@,
            is_stdout,
            lines(old(reader).remaining()),
        ),
{
    let mut messages: Vec<OutputMessage> = Vec::new();
    let ghost stream = reader.remaining();
    proof {
        assert(messages_view(messages@) + stream_messages(cmd_name@, is_stdout, lines(stream))
            =~= stream_messages(cmd_name@, is_stdout, lines(stream)));
    }
    loop
        invariant
            reader.wf(),
            stream == old(reader).remaining(),
            messages_view(messages@) + stream_messages(
                cmd_name@,
                is_stdout,
                lines(reader.remaining()),
            ) == stream_messages(cmd_name@, is_stdout, lines(stream)),
        decreases reader.remaining().len(),
    {
        let ghost before = reader.remaining();
        let ghost sent = messages_view(messages@);
        proof {
            lemma_first_terminator(before, 0);
        }
        let outcome = match get_line(reader) {
            Some(line) => ReadOutcome::Line(line.0, line.1),
            None => ReadOutcome::End,
        };
        let step = after_read(cmd_name, is_stdout, outcome);
        match step.message {
            Some(message) => {
                messages.push(message);
                proof {
                    let l = next_line(before).unwrap();
                    let rest = lines(before.skip(next_line_len(before)));
                    assert(lines(before) == seq![l] + rest);
                    assert(messages_view(messages@) =~= sent.push(message@));
                    assert(stream_messages(cmd_name@, is_stdout, seq![l] + rest) =~= seq![
                        message@,
                    ] + stream_messages(cmd_name@, is_stdout, rest));
                    assert(messages_view(messages@) + stream_messages(cmd_name@, is_stdout, rest)
                        =~= sent + stream_messages(cmd_name@, is_stdout, lines(before)));
                }
            },
            None => {},
        }
        if !step.goes_on {
            proof {
                assert(before.len() == 0);
                assert(reader.remaining() =~= Seq::<u8>::empty());
                assert(lines(before) =~= Seq::empty());
                assert(messages_view(messages@) =~= stream_messages(
                    cmd_name@,
                    is_stdout,
                    lines(stream),
                ));
            }
            return messages;
        }
    }
}

/// A run that is set up and not yet handed to its threads: one worker for
/// each command, in the order in which the commands were given, and the
/// control surface that they share.
#[derive(Debug)]
pub struct Supervisor {
    command_names: Vec<String>,
    workers: Vec<ProcessWorker>,
    control: HandleControl,
}

/// Whether each of the first `n` workers handed back a result: none of them
/// was lost.
pub open spec fn all_reported(n: nat, outcomes: Seq<Option<(Seq<char>, Option<i32>)>>) -> bool {
    n <= outcomes.len() && forall|i: int| 0 <= i < n ==> (#[trigger] outcomes[i]) is Some
}

/// The results of a run of `n` commands of which no worker was lost: for
/// each command, in the order of submission, what its worker handed back.
pub open spec fn joined_results(n: nat, outcomes: Seq<Option<(Seq<char>, Option<i32>)>>) -> Seq<
    (Seq<char>, Option<i32>),
> {
    Seq::new(n, |i: int| outcomes[i].unwrap())
}

/// A run of which no worker was lost has one result for each command, in
/// the order of submission: there are as many results as commands, and
/// where every worker handed back its result under the name of its
/// command, as workers do, the result at each place carries the name of
/// the command at that place, with the exit code that its worker handed
/// back.
pub proof fn lemma_join_gives_one_result_per_command(
    names: Seq<Seq<char>>,
    outcomes: Seq<Option<(Seq<char>, Option<i32>)>>,
)
    requires
        all_reported(names.len(), outcomes),
        forall|i: int| 0 <= i < names.len() ==> (#[trigger] outcomes[i]).unwrap().0 == names[i],
    ensures
        joined_results(names.len(), outcomes).len() == names.len(),
        forall|i: int|
            0 <= i < names.len() ==> (#[trigger] joined_results(names.len(), outcomes)[i]) == (
                names[i],
                outcomes[i].unwrap().1,
            ),
{
}

/// The results of `v` as values.
pub open spec fn results_view(v: Seq<ExitResult>) -> Seq<(Seq<char>, Option<i32>)> {
    v.map_values(|r: ExitResult| (r.0@, r.1))
}

/// The outcomes of `v` as values.
pub open spec fn outcomes_view(v: Seq<Option<ExitResult>>) -> Seq<Option<(Seq<char>, Option<i32>)>> {
    v.map_values(
        |o: Option<ExitResult>|
            match o {
                Some(r) => Some((r.0@, r.1)),
                None => None,
            },
    )
}

/// The message with which `join` fails when a worker, or the thread that
/// oversees the workers, was lost.
pub open spec fn join_panic_message() -> Seq<char> {
    "Thread panic'ed before exit"@
}

/// Sets up a run of `commands` under `options`: a worker for each command
/// with the run's restart policy, a registry slot for each command that
/// holds its name and no process id yet, and a closed barrier.
pub fn run_commands_internal(commands: Vec<InnerCommand>, options: Options) -> (s: Supervisor)
    ensures
        s.names() == commands@.map_values(|c: InnerCommand| c@.name),
        s.workers().len() == commands@.len(),
        forall|i: int|
            0 <= i < commands@.len() ==> #[trigger] s.workers()[i] == (
                commands@[i]@,
                options.restart,
            ),
        s.control().slots() == commands@.map_values(
            |c: InnerCommand| SlotView { name: c@.name, pid: None },
        ),
        !s.control().barrier().is_open(),
{
    let mut command_names: Vec<String> = Vec::new();
    let mut pid_list: Vec<PidSlot> = Vec::new();
    let mut workers: Vec<ProcessWorker> = Vec::new();
    for command in it: commands
        invariant
            it.seq() == commands@,
            command_names@.len() == it.index(),
            pid_list@.len() == it.index(),
            workers@.len() == it.index(),
            forall|k: int|
                0 <= k < it.index() ==> (#[trigger] workers@[k]).command() == commands@[k]@
                    && workers@[k].policy() == options.restart,
            forall|k: int|
                0 <= k < it.index() ==> (#[trigger] command_names@[k])@ == commands@[k]@.name,
            forall|k: int|
                0 <= k < it.index() ==> (#[trigger] pid_list@[k])@ == (SlotView {
                    name: commands@[k]@.name,
                    pid: None,
                }),
    {
        command_names.push(command.name().clone());
        pid_list.push(PidSlot { name: command.name().clone(), pid: None });
        workers.push(ProcessWorker::new(command, options.restart));
    }
    let control = HandleControl::new(pid_list, KillBarrier::new());
    let s = Supervisor { command_names, workers, control };
    proof {
        assert(s.names() =~= commands@.map_values(|c: InnerCommand| c@.name));
        assert(s.control().slots() =~= commands@.map_values(
            |c: InnerCommand| SlotView { name: c@.name, pid: None },
        ));
    }
    s
}

impl Supervisor {
    /// The names of the commands, in the order of submission.
    pub closed spec fn names(&self) -> Seq<Seq<char>> {
        self.command_names@.map_values(|n: String| n@)
    }

    /// The command and the policy of each worker, in the order of
    /// submission.
    pub closed spec fn workers(&self) -> Seq<(CommandView, RestartOptions)> {
        self.workers@.map_values(|w: ProcessWorker| (w.command(), w.policy()))
    }

    /// The control surface of the run.
    pub closed spec fn control(&self) -> HandleControl {
        self.control
    }

    /// Cancels the run by opening the barrier, whatever the restart policy.
    /// Workers, names and registry stay as they are. With no process
    /// started yet nothing else happens, and a worker that starts its
    /// process later finds the barrier open.
    pub fn kill(&mut self)
        ensures
            final(self).control().barrier().is_open(),
            final(self).control().barrier() == old(self).control().barrier().after_kill(),
            final(self).control().slots() == old(self).control().slots(),
            final(self).names() == old(self).names(),
            final(self).workers() == old(self).workers(),
    {
        let _ = self.control.kill_all();
    }

    /// Takes the run apart for the threads that carry it out: the names
    /// of the commands, their workers, and the control surface.
    pub fn into_parts(self) -> (parts: (Vec<String>, Vec<ProcessWorker>, HandleControl))
        ensures
            parts.0@.map_values(|n: String| n@) == self.names(),
            parts.1@.map_values(|w: ProcessWorker| (w.command(), w.policy())) == self.workers(),
            parts.2 == self.control(),
    {
        (self.command_names, self.workers, self.control)
    }
}

/// The results of a run whose commands are `command_names`.
///
/// `outcomes` is what the thread that oversees the workers handed back:
/// for each command, in the order of submission, the result of its worker,
/// or `None` for a worker that was lost; it is `None` itself if that
/// thread was lost. Where anyone was lost, or a command has no outcome at
/// all, the run fails with a message, and the loss goes no further than
/// that. Otherwise there is exactly one result for each command, in the
/// order of submission and not in the order in which the commands ended.
pub fn join(command_names: &Vec<String>, outcomes: Option<Vec<Option<ExitResult>>>) -> (r: Result<
    Vec<ExitResult>,
    String,
>)
    ensures
        match r {
            Ok(statuses) => outcomes matches Some(list) && all_reported(
                command_names@.len(),
                outcomes_view(list@),
            ) && results_view(statuses@) == joined_results(
                command_names@.len(),
                outcomes_view(list@),
            ),
            Err(text) => text@ == join_panic_message() && !(outcomes matches Some(list)
                && all_reported(command_names@.len(), outcomes_view(list@))),
        },
{
    let mut list = match outcomes {
        Some(list) => list,
        None => {
            return Err("Thread panic'ed before exit".to_owned());
        },
    };
    let ghost given = outcomes_view(list@);
    let ghost handed_back = list;
    let n: usize = command_names.len();
    if list.len() < n {
        return Err("Thread panic'ed before exit".to_owned());
    }
    let mut statuses: Vec<ExitResult> = Vec::new();
    let mut i: usize = 0;
    while i < n
        invariant
            i <= n,
            n == command_names@.len(),
            n <= given.len(),
            outcomes == Some(handed_back),
            given == outcomes_view(handed_back@),
            list@.len() == given.len(),
            forall|k: int| i <= k < list@.len() ==> (#[trigger] outcomes_view(list@)[k]) == given[k],
            statuses@.len() == i,
            forall|k: int| 0 <= k < i ==> (#[trigger] given[k]) is Some,
            forall|k: int|
                0 <= k < i ==> #[trigger] results_view(statuses@)[k] == given[k].unwrap(),
        decreases n - i,
    {
        let ghost done = results_view(statuses@);
        let ghost before = list@;
        let mut outcome: Option<ExitResult> = None;
        std::mem::swap(&mut outcome, &mut list[i]);
        proof {
            assert(outcomes_view(before)[i as int] == given[i as int]);
            assert forall|k: int| i < k < list@.len() implies (#[trigger] outcomes_view(
                list@,
            )[k]) == given[k] by {
                assert(list@[k] == before[k]);
                assert(outcomes_view(before)[k] == given[k]);
            }
        }
        match outcome {
            Some(status) => {
                statuses.push(status);
                proof {
                    assert(results_view(statuses@) =~= done.push((status.0@, status.1)));
                }
            },
            None => {
                proof {
                    assert(given[i as int] is None);
                    assert(!all_reported(n as nat, given));
                }
                return Err("Thread panic'ed before exit".to_owned());
            },
        }
        i = i + 1;
    }
    proof {
        assert(results_view(statuses@) =~= joined_results(n as nat, given));
    }
    Ok(statuses)
}

} // verus!
