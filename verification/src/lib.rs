//! Runs a named set of child processes side by side: the rules by which
//! their output is cut into lines, their exits are judged and the group
//! is cancelled, each stated as a contract and proved.
//!
//! The library computes on plain values and sends signals. Spawning,
//! piping, threads and the writing of bytes belong to the program around
//! it, which asks the library what to do after each thing that happened.

use vstd::prelude::*;

pub mod channel_api;
pub mod color;
pub mod command;
pub mod control;
pub mod currant;
pub mod decimal;
pub mod kill_barrier;
pub mod line_parse;
pub mod name_map;
pub mod run;
pub mod standard_out_api;
pub mod template;
pub mod writer_api;

pub use channel_api::ChannelCommand;
pub use color::Color;
pub use command::{parse_command_string, Command, CommandError, Runner};
pub use line_parse::LineEnding;
pub use name_map::NameMap;
pub use standard_out_api::ConsoleCommand;
pub use writer_api::WriterCommand;

use name_map::{clone_strings, strings_view};

verus! {

/// One process to run: a name to label it by, the executable, its
/// arguments, and where and with what environment it runs.
#[derive(Debug, PartialEq, Eq)]
pub struct InnerCommand {
    name: String,
    command: String,
    args: Vec<String>,
    cur_dir: Option<String>,
    env: NameMap<String>,
}

/// The mathematical value of an [`InnerCommand`].
pub struct CommandView {
    pub name: Seq<char>,
    pub command: Seq<char>,
    pub args: Seq<Seq<char>>,
    pub cur_dir: Option<Seq<char>>,
    pub env_names: Seq<Seq<char>>,
    pub env_values: Seq<Seq<char>>,
}

impl View for InnerCommand {
    type V = CommandView;

    closed spec fn view(&self) -> CommandView {
        CommandView {
            name: self.name@,
            command: self.command@,
            args: strings_view(self.args@),
            cur_dir: match self.cur_dir {
                Some(dir) => Some(dir@),
                None => None,
            },
            env_names: self.env.names(),
            env_values: strings_view(self.env.values()),
        }
    }
}

impl Clone for InnerCommand {
    fn clone(&self) -> (r: InnerCommand)
        ensures
            r@ == self@,
            self.wf() ==> r.wf(),
    {
        InnerCommand {
            name: self.name.clone(),
            command: self.command.clone(),
            args: clone_strings(&self.args),
            cur_dir: match &self.cur_dir {
                Some(dir) => Some(dir.clone()),
                None => None,
            },
            env: self.env.duplicate(),
        }
    }
}

impl InnerCommand {
    /// Name and executable are not empty, and no environment variable is
    /// set twice.
    pub closed spec fn wf(&self) -> bool {
        &&& self.name@.len() > 0
        &&& self.command@.len() > 0
        &&& self.env.wf()
    }

    /// The command `command args..` under the label `name`, in the working
    /// directory and environment of whoever runs it. `None` if the name or
    /// the executable is empty.
    pub fn new(name: String, command: String, args: Vec<String>) -> (r: Option<InnerCommand>)
        ensures
            r is Some <==> name@.len() > 0 && command@.len() > 0,
            r matches Some(cmd) ==> cmd.wf() && cmd@ == (CommandView {
                name: name@,
                command: command@,
                args: strings_view(args@),
                cur_dir: None,
                env_names: Seq::empty(),
                env_values: Seq::empty(),
            }),
    {
        if name.as_str().is_empty() || command.as_str().is_empty() {
            return None;
        }
        let env: NameMap<String> = NameMap::new();
        proof {
            assert(strings_view(env.values()) =~= Seq::<Seq<char>>::empty());
        }
        Some(InnerCommand { name, command, args, cur_dir: None, env })
    }

    /// The label of the command.
    pub fn name(&self) -> (r: &String)
        ensures
            r@ == self@.name,
    {
        &self.name
    }

    /// The executable.
    pub fn command(&self) -> (r: &String)
        ensures
            r@ == self@.command,
    {
        &self.command
    }

    /// The arguments, in order.
    pub fn args(&self) -> (r: &Vec<String>)
        ensures
            strings_view(r@) == self@.args,
    {
        &self.args
    }

    /// The working directory, if one was set.
    pub fn cur_dir(&self) -> (r: &Option<String>)
        ensures
            match *r {
                Some(dir) => self@.cur_dir == Some(dir@),
                None => self@.cur_dir is None,
            },
    {
        &self.cur_dir
    }

    /// The environment variables that are set over those inherited.
    pub fn env(&self) -> (r: &NameMap<String>)
        ensures
            r.names() == self@.env_names,
            strings_view(r.values()) == self@.env_values,
            self.wf() ==> r.wf(),
    {
        &self.env
    }

    /// Sets the working directory.
    pub fn set_cur_dir(&mut self, dir: String)
        ensures
            final(self)@ == (CommandView { cur_dir: Some(dir@), ..old(self)@ }),
            old(self).wf() ==> final(self).wf(),
    {
        self.cur_dir = Some(dir);
    }

    /// Sets the environment variable `key` to `val` for this command. A
    /// variable that was set before keeps its place and gets the new value.
    pub fn set_env(&mut self, key: String, val: String)
        requires
            old(self).wf(),
        ensures
            final(self).wf(),
            final(self)@ == with_env(old(self)@, key@, val@),
    {
        self.env.insert(key, val);
        proof {
            let old_values = old(self).env.values();
            let new_values = self.env.values();
            match old(self).env.position(key@) {
                Some(i) => {
                    assert(strings_view(new_values) =~= strings_view(old_values).update(i, val@));
                },
                None => {
                    assert(strings_view(new_values) =~= strings_view(old_values).push(val@));
                },
            }
        }
    }
}

/// The command `cmd` with the variable `key` set to `val`: a variable that
/// is set already keeps its place and gets the new value, a new one comes
/// last.
pub open spec fn with_env(cmd: CommandView, key: Seq<char>, val: Seq<char>) -> CommandView {
    match env_position(cmd, key) {
        Some(i) => CommandView { env_values: cmd.env_values.update(i, val), ..cmd },
        None => CommandView {
            env_names: cmd.env_names.push(key),
            env_values: cmd.env_values.push(val),
            ..cmd
        },
    }
}

/// The position of the variable `key` among those that `cmd` sets, if it
/// sets it.
pub open spec fn env_position(cmd: CommandView, key: Seq<char>) -> Option<int> {
    if cmd.env_names.contains(key) {
        Some(cmd.env_names.index_of(key))
    } else {
        None
    }
}

/// What to do when a process exits without success.
#[derive(Clone, Copy, Debug, PartialEq, Eq, Structural)]
pub enum RestartOptions {
    /// Let the failed process be and let all others go on. The default.
    Continue,
    /// Start the failed process again, until it succeeds.
    Restart,
    /// End all processes of the group when any one fails.
    Kill,
}

/// The options of one run.
#[derive(Clone, Copy, Debug, PartialEq, Eq, Structural)]
pub struct Options {
    /// What happens when a command exits without success.
    pub restart: RestartOptions,
    /// Leaves out the messages about commands starting and ending.
    pub quiet: bool,
    /// Marks each line of output as standard out, `(o)`, or standard
    /// error, `(e)`.
    pub file_handle_flags: bool,
}

impl Options {
    /// The default options: go on after a failure, report starts and ends,
    /// no stream marks.
    pub fn new() -> (r: Options)
        ensures
            r == (Options {
                restart: RestartOptions::Continue,
                quiet: false,
                file_handle_flags: false,
            }),
    {
        Options { restart: RestartOptions::Continue, quiet: false, file_handle_flags: false }
    }

    /// Sets what happens when a command exits without success.
    pub fn restart(&mut self, restart: RestartOptions)
        ensures
            *final(self) == (Options { restart, ..*old(self) }),
    {
        self.restart = restart;
    }
}

/// What a message from a running command says.
#[derive(Clone, Debug, PartialEq, Eq)]
pub enum OutputMessagePayload {
    /// The command's process has started.
    Start,
    /// The command's process has ended, with its exit code if it has one.
    Done(Option<i32>),
    /// One line of standard out, without its terminator.
    Stdout(LineEnding, Vec<u8>),
    /// One line of standard error, without its terminator.
    Stderr(LineEnding, Vec<u8>),
    /// Starting, reading or awaiting the process failed; the text says how.
    /// A process that runs and exits with a failure is reported by `Done`.
    Error(String),
}

/// The mathematical value of an [`OutputMessagePayload`].
pub enum PayloadView {
    Start,
    Done(Option<i32>),
    Stdout(LineEnding, Seq<u8>),
    Stderr(LineEnding, Seq<u8>),
    Error(Seq<char>),
}

impl View for OutputMessagePayload {
    type V = PayloadView;

    open spec fn view(&self) -> PayloadView {
        match *self {
            OutputMessagePayload::Start => PayloadView::Start,
            OutputMessagePayload::Done(code) => PayloadView::Done(code),
            OutputMessagePayload::Stdout(ending, bytes) => PayloadView::Stdout(ending, bytes@),
            OutputMessagePayload::Stderr(ending, bytes) => PayloadView::Stderr(ending, bytes@),
            OutputMessagePayload::Error(text) => PayloadView::Error(text@),
        }
    }
}

/// One event in the life of a command, labelled with the command's name.
#[derive(Clone, Debug, PartialEq, Eq)]
pub struct OutputMessage {
    /// The name that the command was given when it was made.
    pub name: String,
    /// What happened.
    pub message: OutputMessagePayload,
}

/// The mathematical value of an [`OutputMessage`].
pub struct MessageView {
    pub name: Seq<char>,
    pub message: PayloadView,
}

impl View for OutputMessage {
    type V = MessageView;

    open spec fn view(&self) -> MessageView {
        MessageView { name: self.name@, message: self.message@ }
    }
}

/// How one command ended: its name, and the exit code of its last process
/// if that process was started, awaited and ended with a code.
pub type ExitResult = (String, Option<i32>);

/// Whether a process that ended with `code` succeeded: it exited with
/// code zero. A process ended by a signal has no code and did not succeed.
pub open spec fn exit_succeeded(code: Option<i32>) -> bool {
    code == Some(0i32)
}

/// Whether `s` is the run of `commands` under `options` as it is set up:
/// a worker for each command with the restart policy of the options, a
/// registry slot for each command with its name and no process id, all in
/// the order of the commands, and a closed barrier.
pub open spec fn is_run_of<C: Command>(s: run::Supervisor, commands: Seq<C>, options: Options)
    -> bool {
    &&& s.names() == commands.map_values(|c: C| c.inner()@.name)
    &&& s.workers() == commands.map_values(|c: C| (c.inner()@, options.restart))
    &&& s.control().slots() == commands.map_values(
        |c: C| control::SlotView { name: c.inner()@.name, pid: None },
    )
    &&& !s.control().barrier().is_open()
}

/// Sets up a run of the commands of `runner` under its options.
pub fn run_commands<C: Command>(runner: &Runner<C>) -> (s: run::Supervisor)
    ensures
        is_run_of(s, runner.commands(), runner.options()),
{
    let mut actual_cmds: Vec<InnerCommand> = Vec::new();
    let mut i: usize = 0;
    while i < runner.len()
        invariant
            i <= runner.commands().len(),
            actual_cmds@.len() == i,
            forall|k: int|
                0 <= k < i ==> (#[trigger] actual_cmds@[k])@ == runner.commands()[k].inner()@,
        decreases runner.commands().len() - i,
    {
        actual_cmds.push(runner.command_at(i).get_command().clone());
        i = i + 1;
    }
    let s = run::run_commands_internal(actual_cmds, runner.to_options());
    proof {
        let commands = runner.commands();
        let options = runner.options();
        assert(s.names() =~= commands.map_values(|c: C| c.inner()@.name));
        assert(s.workers() =~= commands.map_values(|c: C| (c.inner()@, options.restart)));
        assert(s.control().slots() =~= commands.map_values(
            |c: C| control::SlotView { name: c.inner()@.name, pid: None },
        ));
    }
    s
}

} // verus!
