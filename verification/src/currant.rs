//! The plain interface: commands as a name, an executable and arguments,
//! with messages in a fixed wording.

use crate::command::{CommandError, CommandErrorView};
use crate::name_map::{clone_strings, strings_view};
use crate::run::{run_commands_internal, Supervisor};
use crate::{CommandView, InnerCommand, Options};
use vstd::prelude::*;

pub mod standard_out_api;
pub mod writer_api;

pub use crate::{OutputMessage, OutputMessagePayload, RestartOptions};

verus! {

/// A process to run: a name to label it by, the executable and its
/// arguments.
#[derive(Clone, Debug, PartialEq, Eq)]
pub struct Command {
    name: String,
    command: String,
    args: Vec<String>,
}

/// The mathematical value of a [`Command`].
pub struct PlainView {
    pub name: Seq<char>,
    pub command: Seq<char>,
    pub args: Seq<Seq<char>>,
}

impl View for Command {
    type V = PlainView;

    closed spec fn view(&self) -> PlainView {
        PlainView { name: self.name@, command: self.command@, args: strings_view(self.args@) }
    }
}

/// The command `c` as a run takes it: in the working directory and
/// environment of whoever runs it. A command whose name or executable is
/// empty is refused as `EmptyCommand`.
pub open spec fn plain_command(c: PlainView) -> Result<CommandView, CommandErrorView> {
    if c.name.len() == 0 || c.command.len() == 0 {
        Err(CommandErrorView::EmptyCommand)
    } else {
        Ok(
            CommandView {
                name: c.name,
                command: c.command,
                args: c.args,
                cur_dir: None,
                env_names: Seq::empty(),
                env_values: Seq::empty(),
            },
        )
    }
}

impl Command {
    /// The command `command args..` under the label `name`.
    pub fn new(name: &str, command: &str, args: Vec<String>) -> (c: Command)
        ensures
            c@ == (PlainView { name: name@, command: command@, args: strings_view(args@) }),
    {
        Command { name: name.to_owned(), command: command.to_owned(), args }
    }

    /// The label of the command.
    pub fn name(&self) -> (r: &String)
        ensures
            r@ == self@.name,
    {
        &self.name
    }

    /// The command as a run takes it.
    pub fn to_inner(&self) -> (r: Result<InnerCommand, CommandError>)
        ensures
            match plain_command(self@) {
                Ok(cmd) => r matches Ok(c) && c@ == cmd,
                Err(e) => r matches Err(err) && err@ == e,
            },
    {
        match InnerCommand::new(self.name.clone(), self.command.clone(), clone_strings(&self.args)) {
            Some(cmd) => Ok(cmd),
            None => Err(CommandError::EmptyCommand),
        }
    }
}

/// Whether `s` is the run of the commands `commands` under `options` as
/// it is set up: a worker for each command with the restart policy of the
/// options, a registry slot for each command with its name and no process
/// id, all in the order of the commands, and a closed barrier.
pub open spec fn is_plain_run(s: Supervisor, commands: Seq<PlainView>, options: Options) -> bool {
    &&& s.names() == commands.map_values(|c: PlainView| c.name)
    &&& s.workers().len() == commands.len()
    &&& forall|i: int|
        0 <= i < commands.len() ==> plain_command(commands[i]) == Ok::<
            CommandView,
            CommandErrorView,
        >((#[trigger] s.workers()[i]).0) && s.workers()[i].1 == options.restart
    &&& s.control().slots() == commands.map_values(
        |c: PlainView| crate::control::SlotView { name: c.name, pid: None },
    )
    &&& !s.control().barrier().is_open()
}

/// The commands of `v` as values.
pub open spec fn commands_view(v: Seq<Command>) -> Seq<PlainView> {
    v.map_values(|c: Command| c@)
}

/// Whether the name and the executable of each command are not empty.
pub open spec fn all_named(commands: Seq<PlainView>) -> bool {
    forall|i: int| 0 <= i < commands.len() ==> (#[trigger] plain_command(commands[i])) is Ok
}

/// Sets up a run of `commands` under `options`. A command whose name or
/// executable is empty is refused as `EmptyCommand`, and then nothing is
/// set up.
pub fn run_commands(commands: Vec<Command>, options: Options) -> (r: Result<
    Supervisor,
    CommandError,
>)
    ensures
        match r {
            Ok(s) => all_named(commands_view(commands@)) && is_plain_run(
                s,
                commands_view(commands@),
                options,
            ),
            Err(e) => !all_named(commands_view(commands@)) && e@
                == CommandErrorView::EmptyCommand,
        },
{
    let ghost given = commands_view(commands@);
    let mut actual_cmds: Vec<InnerCommand> = Vec::new();
    let mut i: usize = 0;
    while i < commands.len()
        invariant
            i <= commands@.len(),
            given == commands_view(commands@),
            actual_cmds@.len() == i,
            forall|k: int|
                0 <= k < i ==> plain_command(given[k]) == Ok::<CommandView, CommandErrorView>(
                    (#[trigger] actual_cmds@[k])@,
                ),
        decreases commands@.len() - i,
    {
        match commands[i].to_inner() {
            Ok(cmd) => {
                actual_cmds.push(cmd);
            },
            Err(e) => {
                proof {
                    assert(plain_command(given[i as int]) is Err);
                }
                return Err(e);
            },
        }
        i = i + 1;
    }
    let s = run_commands_internal(actual_cmds, options);
    proof {
        assert forall|k: int| 0 <= k < given.len() implies (#[trigger] plain_command(given[k]))
            is Ok by {
            assert(plain_command(given[k]) == Ok::<CommandView, CommandErrorView>(
                actual_cmds@[k]@,
            ));
        }
        assert(s.workers().len() == given.len());
        assert(s.names() =~= given.map_values(|c: PlainView| c.name));
        assert(s.control().slots() =~= given.map_values(
            |c: PlainView| crate::control::SlotView { name: c.name, pid: None },
        ));
        assert forall|k: int| 0 <= k < given.len() implies plain_command(given[k]) == Ok::<
            CommandView,
            CommandErrorView,
        >((#[trigger] s.workers()[k]).0) && s.workers()[k].1 == options.restart by {
            assert(actual_cmds@[k]@ == s.workers()[k].0);
        }
    }
    Ok(s)
}

} // verus!
