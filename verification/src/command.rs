//! Making commands, from an argument list or from one command line, and
//! collecting them for a run.

use crate::name_map::strings_view;
use crate::template::TemplateStrings;
use crate::{CommandView, InnerCommand, Options, RestartOptions};
use vstd::prelude::*;

verus! {

/// Why a command could not be made.
#[derive(Clone, Debug, PartialEq, Eq)]
pub enum CommandError {
    /// The name or the executable is empty.
    EmptyCommand,
    /// The executable, which is given back, was not found.
    CommandNotFound(String),
    /// The command line, which is given back, could not be split into
    /// words.
    ParseError(String),
}

/// The mathematical value of a [`CommandError`].
pub enum CommandErrorView {
    EmptyCommand,
    CommandNotFound(Seq<char>),
    ParseError(Seq<char>),
}

impl View for CommandError {
    type V = CommandErrorView;

    open spec fn view(&self) -> CommandErrorView {
        match *self {
            CommandError::EmptyCommand => CommandErrorView::EmptyCommand,
            CommandError::CommandNotFound(name) => CommandErrorView::CommandNotFound(name@),
            CommandError::ParseError(line) => CommandErrorView::ParseError(line@),
        }
    }
}

/// The error with which `shell_words` refuses a command line.
#[verifier::external_type_specification]
#[verifier::external_body]
pub struct ExParseError(shell_words::ParseError);

/// The words into which `shell_words::split` splits the command line `s`
/// by the quoting rules of a shell, or `None` where it refuses `s`.
pub uninterp spec fn shell_split(s: Seq<char>) -> Option<Seq<Seq<char>>>;

/// Calls `shell_words::split`, which depends on nothing but the line it
/// is given. Its answer is told apart as the words or the refusal.
#[verifier::external_body]
fn split_words(s: &str) -> (r: Result<Vec<String>, shell_words::ParseError>)
    ensures
        match r {
            Ok(words) => shell_split(s@) == Some(strings_view(words@)),
            Err(_) => shell_split(s@) is None,
        },
{
    shell_words::split(s)
}

/// The executable and the arguments of the command line `line` whose words
/// are `words`: the first word and the rest. A line that was refused
/// (`None`) is a `ParseError` with the line; a line without words is an
/// `EmptyCommand`.
pub open spec fn command_of_words(line: Seq<char>, words: Option<Seq<Seq<char>>>) -> Result<
    (Seq<char>, Seq<Seq<char>>),
    CommandErrorView,
> {
    match words {
        None => Err(CommandErrorView::ParseError(line)),
        Some(w) => if w.len() == 0 {
            Err(CommandErrorView::EmptyCommand)
        } else {
            Ok((w[0], w.skip(1)))
        },
    }
}

/// The parsed command `r` as a value.
pub open spec fn parsed_view(r: Result<(String, Vec<String>), CommandError>) -> Result<
    (Seq<char>, Seq<Seq<char>>),
    CommandErrorView,
> {
    match r {
        Ok((command, args)) => Ok((command@, strings_view(args@))),
        Err(e) => Err(e@),
    }
}

/// Takes the words of the command line `command_string` apart into the
/// executable and its arguments. `words` is `None` for a line that could
/// not be split.
pub fn command_from_words(command_string: &str, words: Option<Vec<String>>) -> (r: Result<
    (String, Vec<String>),
    CommandError,
>)
    ensures
        parsed_view(r) == command_of_words(
            command_string@,
            match words {
                Some(w) => Some(strings_view(w@)),
                None => None,
            },
        ),
{
    match words {
        None => Err(CommandError::ParseError(command_string.to_owned())),
        Some(w) => {
            let mut w = w;
            if w.len() == 0 {
                return Err(CommandError::EmptyCommand);
            }
            let ghost all = w@;
            let parsed_command = w.remove(0);
            proof {
                assert(strings_view(w@) =~= strings_view(all).skip(1));
            }
            Ok((parsed_command, w))
        },
    }
}

/// Splits a command line into the executable and its arguments, by the
/// quoting rules of a shell.
pub fn parse_command_string(command: &str) -> (r: Result<(String, Vec<String>), CommandError>)
    ensures
        parsed_view(r) == command_of_words(command@, shell_split(command@)),
{
    let words = match split_words(command) {
        Ok(words) => Some(words),
        Err(_) => None,
    };
    command_from_words(command, words)
}

/// What making a command from `name`, `command` and `args` comes to,
/// where `found` says whether the executable was found: `EmptyCommand` for
/// an empty name or executable, else `CommandNotFound` with the executable
/// if it was not found, else the command.
pub open spec fn made_command(
    name: Seq<char>,
    command: Seq<char>,
    args: Seq<Seq<char>>,
    found: bool,
) -> Result<CommandView, CommandErrorView> {
    if name.len() == 0 || command.len() == 0 {
        Err(CommandErrorView::EmptyCommand)
    } else if !found {
        Err(CommandErrorView::CommandNotFound(command))
    } else {
        Ok(
            CommandView {
                name,
                command,
                args,
                cur_dir: None,
                env_names: Seq::empty(),
                env_values: Seq::empty(),
            },
        )
    }
}

/// What making a command from `name` and the command line `line` comes
/// to, where `words` are the words of the line and `found` says whether
/// its executable was found.
pub open spec fn made_from_line(
    name: Seq<char>,
    line: Seq<char>,
    words: Option<Seq<Seq<char>>>,
    found: bool,
) -> Result<CommandView, CommandErrorView> {
    match command_of_words(line, words) {
        Err(e) => Err(e),
        Ok((command, args)) => made_command(name, command, args, found),
    }
}

/// A command in one of the forms in which this library takes commands:
/// what wraps an [`InnerCommand`] and adds what its own way of showing
/// output needs.
pub trait Command: Clone + Sized {
    /// The command that is wrapped.
    spec fn inner(&self) -> InnerCommand;

    /// `self` with `cmd` in the place of the command that is wrapped.
    spec fn with_inner(&self, cmd: InnerCommand) -> Self;

    /// Wraps `cmd`.
    fn insert_command(cmd: InnerCommand) -> (r: Self)
        ensures
            r.inner() == cmd,
    ;

    /// The command that is wrapped.
    fn get_command(&self) -> (r: &InnerCommand)
        ensures
            *r == self.inner(),
    ;

    /// The command that is wrapped, to change it. Nothing but that
    /// command changes.
    fn get_command_mut(&mut self) -> (r: &mut InnerCommand)
        ensures
            *r == old(self).inner(),
            final(self).inner() == *final(r),
            *final(self) == old(self).with_inner(*final(r)),
    ;

    /// The command `command args..` under the label `name`. `found` is the
    /// answer of the check whether the executable exists.
    ///
    /// An empty name or executable is refused as `EmptyCommand`; else an
    /// executable that was not found is refused as `CommandNotFound`.
    fn from_argv(name: &str, command: &str, args: Vec<String>, found: bool) -> (r: Result<
        Self,
        CommandError,
    >)
        ensures
            match made_command(name@, command@, strings_view(args@), found) {
                Ok(cmd) => r matches Ok(c) && c.inner()@ == cmd && c.inner().wf(),
                Err(e) => r matches Err(err) && err@ == e,
            },
    {
        match InnerCommand::new(name.to_owned(), command.to_owned(), args) {
            None => Err(CommandError::EmptyCommand),
            Some(cmd) => if found {
                Ok(Self::insert_command(cmd))
            } else {
                Err(CommandError::CommandNotFound(command.to_owned()))
            },
        }
    }

    /// The command of the command line `command_string` under the label
    /// `name`. The line is split into the executable and its arguments by
    /// the quoting rules of a shell; pipes and other operators of a shell
    /// are not known. `found` is the answer of the check whether the
    /// executable of the line exists; it is not looked at where the line
    /// has none.
    ///
    /// A line that cannot be split is refused as `ParseError`, a line
    /// without words or an empty name as `EmptyCommand`, and else an
    /// executable that was not found as `CommandNotFound`.
    fn from_string(name: &str, command_string: &str, found: bool) -> (r: Result<Self, CommandError>)
        ensures
            match made_from_line(name@, command_string@, shell_split(command_string@), found) {
                Ok(cmd) => r matches Ok(c) && c.inner()@ == cmd && c.inner().wf(),
                Err(e) => r matches Err(err) && err@ == e,
            },
    {
        match parse_command_string(command_string) {
            Err(e) => Err(e),
            Ok((command, args)) => Self::from_argv(name, command.as_str(), args, found),
        }
    }

    /// Sets the directory in which the command runs. Without it the
    /// command runs in the directory of whoever runs it.
    fn cur_dir(&mut self, dir: &str) -> (r: &mut Self)
        ensures
            r.inner()@ == (CommandView { cur_dir: Some(dir@), ..old(self).inner()@ }),
            old(self).inner().wf() ==> r.inner().wf(),
            *final(self) == *final(r),
    {
        self.get_command_mut().set_cur_dir(dir.to_owned());
        self
    }

    /// Sets an environment variable for the command, over what it
    /// inherits. Set twice, a variable has the later value.
    fn env(&mut self, key: &str, val: &str) -> (r: &mut Self)
        requires
            old(self).inner().wf(),
        ensures
            r.inner().wf(),
            r.inner()@ == crate::with_env(old(self).inner()@, key@, val@),
            *final(self) == *final(r),
    {
        self.get_command_mut().set_env(key.to_owned(), val.to_owned());
        self
    }
}

/// A set of commands to run together, with the options of the run.
#[derive(Debug)]
pub struct Runner<C: Command> {
    commands: Vec<C>,
    restart: RestartOptions,
    quiet: bool,
    file_handle_flags: bool,
}

impl<C: Command> Runner<C> {
    /// The commands, in the order in which they were added.
    pub closed spec fn commands(&self) -> Seq<C> {
        self.commands@
    }

    /// The options of the run.
    pub closed spec fn options(&self) -> Options {
        Options {
            restart: self.restart,
            quiet: self.quiet,
            file_handle_flags: self.file_handle_flags,
        }
    }

    /// A runner without commands and with the default options.
    pub fn new() -> (r: Runner<C>)
        ensures
            r.commands() == Seq::<C>::empty(),
            r.options() == (Options {
                restart: RestartOptions::Continue,
                quiet: false,
                file_handle_flags: false,
            }),
    {
        Runner {
            commands: Vec::new(),
            restart: RestartOptions::Continue,
            quiet: false,
            file_handle_flags: false,
        }
    }

    /// Adds a command behind those that are there.
    pub fn command(&mut self, cmd: C) -> (r: &mut Runner<C>)
        ensures
            r.commands() == old(self).commands().push(cmd),
            r.options() == old(self).options(),
            *final(self) == *final(r),
    {
        self.commands.push(cmd);
        self
    }

    /// Sets what happens when a command exits without success.
    pub fn restart(&mut self, restart_opt: RestartOptions) -> (r: &mut Runner<C>)
        ensures
            r.commands() == old(self).commands(),
            r.options() == (Options { restart: restart_opt, ..old(self).options() }),
            *final(self) == *final(r),
    {
        self.restart = restart_opt;
        self
    }

    /// Sets whether the messages about commands starting and ending are
    /// left out.
    pub fn quiet(&mut self, quiet_opt: bool) -> (r: &mut Runner<C>)
        ensures
            r.commands() == old(self).commands(),
            r.options() == (Options { quiet: quiet_opt, ..old(self).options() }),
            *final(self) == *final(r),
    {
        self.quiet = quiet_opt;
        self
    }

    /// Sets whether each line of output is marked with the stream that it
    /// came from.
    pub fn should_show_file_handle(&mut self, file_handle_flag_opt: bool) -> (r: &mut Runner<C>)
        ensures
            r.commands() == old(self).commands(),
            r.options() == (Options { file_handle_flags: file_handle_flag_opt, ..old(self).options() }),
            *final(self) == *final(r),
    {
        self.file_handle_flags = file_handle_flag_opt;
        self
    }

    /// The options of the run.
    pub fn to_options(&self) -> (o: Options)
        ensures
            o == self.options(),
    {
        Options {
            restart: self.restart,
            quiet: self.quiet,
            file_handle_flags: self.file_handle_flags,
        }
    }

    /// The number of commands.
    pub fn len(&self) -> (n: usize)
        ensures
            n == self.commands().len(),
    {
        self.commands.len()
    }

    /// The command at position `i`.
    pub fn command_at(&self, i: usize) -> (c: &C)
        requires
            i < self.commands().len(),
        ensures
            *c == self.commands()[i as int],
    {
        &self.commands[i]
    }

    /// The templates of the messages that are printed for this run.
    pub fn get_template_strings(&self) -> (t: TemplateStrings)
        ensures
            t@ == crate::template::default_template_strings(),
    {
        TemplateStrings::new()
    }
}

impl<C: Command> Default for Runner<C> {
    fn default() -> (r: Runner<C>)
        ensures
            r.commands() == Seq::<C>::empty(),
            r.options() == (Options {
                restart: RestartOptions::Continue,
                quiet: false,
                file_handle_flags: false,
            }),
    {
        Runner::new()
    }
}

} // verus!
