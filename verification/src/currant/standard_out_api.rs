//! The plain interface, with messages printed to the console in one of
//! eight colors.

use crate::command::{
    command_of_words, parse_command_string, shell_split, CommandError, CommandErrorView,
};
use crate::currant::writer_api::{line_of, message_line};
use crate::currant::{all_named, is_plain_run, run_commands, Command, PlainView};
use crate::name_map::{strings_view, NameMap};
use crate::run::Supervisor;
use crate::writer_api::push_bytes;
use crate::{Options, OutputMessage, RestartOptions};
use vstd::prelude::*;

verus! {

/// The color in which the messages of a command are printed.
#[derive(Clone, Copy, Debug, PartialEq, Eq, Structural)]
pub enum Color {
    /// The color that the terminal uses by itself.
    Default,
    Red,
    Green,
    Yellow,
    Blue,
    Magenta,
    Cyan,
    White,
    Black,
}

/// The digit that stands for `color` in the sequence that switches a
/// terminal to it, or `None` for the terminal's own color.
pub open spec fn color_digit(color: Color) -> Option<u8> {
    match color {
        Color::Default => None,
        Color::Black => Some(48u8),
        Color::Red => Some(49u8),
        Color::Green => Some(50u8),
        Color::Yellow => Some(51u8),
        Color::Blue => Some(52u8),
        Color::Magenta => Some(53u8),
        Color::Cyan => Some(54u8),
        Color::White => Some(55u8),
    }
}

/// The bytes that switch a terminal to `color`: `ESC [ 0 ; 3 d m` with
/// the digit `d` of the color, and nothing for the terminal's own color.
pub open spec fn open_bytes(color: Color) -> Seq<u8> {
    match color_digit(color) {
        None => Seq::empty(),
        Some(d) => seq![27u8, 91u8, 48u8, 59u8, 51u8, d, 109u8],
    }
}

/// The bytes that switch a terminal back to its own color: `ESC [ 0 m`.
pub open spec fn close_bytes() -> Seq<u8> {
    seq![27u8, 91u8, 48u8, 109u8]
}

impl Color {
    /// The color for a command that was given none: always black.
    pub fn random() -> (c: Color)
        ensures
            c == Color::Black,
    {
        Color::Black
    }

    /// The bytes that switch a terminal to this color.
    pub fn open_sequence(&self) -> (bytes: Vec<u8>)
        ensures
            bytes@ == open_bytes(*self),
    {
        let digit: u8 = match self {
            Color::Default => {
                return Vec::new();
            },
            Color::Black => 48,
            Color::Red => 49,
            Color::Green => 50,
            Color::Yellow => 51,
            Color::Blue => 52,
            Color::Magenta => 53,
            Color::Cyan => 54,
            Color::White => 55,
        };
        let mut bytes: Vec<u8> = Vec::new();
        bytes.push(27);
        bytes.push(91);
        bytes.push(48);
        bytes.push(59);
        bytes.push(51);
        bytes.push(digit);
        bytes.push(109);
        proof {
            assert(bytes@ =~= open_bytes(*self));
        }
        bytes
    }

    /// The bytes that switch a terminal back to its own color.
    pub fn close_sequence(&self) -> (bytes: Vec<u8>)
        ensures
            bytes@ == close_bytes(),
    {
        let mut bytes: Vec<u8> = Vec::new();
        bytes.push(27);
        bytes.push(91);
        bytes.push(48);
        bytes.push(109);
        proof {
            assert(bytes@ =~= close_bytes());
        }
        bytes
    }
}

/// A command with the color in which its messages are printed.
#[derive(Clone, Debug, PartialEq, Eq)]
pub struct StandardOutCommand {
    inner_command: Command,
    color: Color,
}

/// What making a command from `name` and the command line `line` comes
/// to, where `words` are the words of the line: the executable is the
/// first word and the arguments are the rest. A line that cannot be split
/// is refused as `ParseError`, a line without words as `EmptyCommand`.
pub open spec fn plain_from_line(name: Seq<char>, line: Seq<char>, words: Option<Seq<Seq<char>>>)
    -> Result<PlainView, CommandErrorView> {
    match command_of_words(line, words) {
        Err(e) => Err(e),
        Ok((command, args)) => Ok(PlainView { name, command, args }),
    }
}

impl StandardOutCommand {
    /// The command that is wrapped.
    pub closed spec fn command(&self) -> PlainView {
        self.inner_command@
    }

    /// The color of the command.
    pub closed spec fn color_of(&self) -> Color {
        self.color
    }

    /// The command `command args..` under the label `name`, in the
    /// terminal's own color.
    pub fn new(name: &str, command: &str, args: Vec<String>) -> (c: StandardOutCommand)
        ensures
            c.command() == (PlainView { name: name@, command: command@, args: strings_view(args@) }),
            c.color_of() == Color::Default,
    {
        StandardOutCommand { inner_command: Command::new(name, command, args), color: Color::Default }
    }

    /// The command of the command line `command_string` under the label
    /// `name`, in the terminal's own color.
    pub fn new_command_string(name: &str, command_string: &str) -> (r: Result<
        StandardOutCommand,
        CommandError,
    >)
        ensures
            match plain_from_line(name@, command_string@, shell_split(command_string@)) {
                Ok(cmd) => r matches Ok(c) && c.command() == cmd && c.color_of() == Color::Default,
                Err(e) => r matches Err(err) && err@ == e,
            },
    {
        StandardOutCommand::new_command_string_with_color(name, command_string, Color::Default)
    }

    /// The command of the command line `command_string` under the label
    /// `name`, in the color `color`.
    pub fn new_command_string_with_color(name: &str, command_string: &str, color: Color) -> (r:
        Result<StandardOutCommand, CommandError>)
        ensures
            match plain_from_line(name@, command_string@, shell_split(command_string@)) {
                Ok(cmd) => r matches Ok(c) && c.command() == cmd && c.color_of() == color,
                Err(e) => r matches Err(err) && err@ == e,
            },
    {
        match parse_command_string(command_string) {
            Err(e) => Err(e),
            Ok((command, args)) => Ok(
                StandardOutCommand {
                    inner_command: Command::new(name, command.as_str(), args),
                    color,
                },
            ),
        }
    }

    /// The command `command args..` under the label `name`, in the color
    /// `color`.
    pub fn new_with_color(name: &str, command: &str, args: Vec<String>, color: Color) -> (c:
        StandardOutCommand)
        ensures
            c.command() == (PlainView { name: name@, command: command@, args: strings_view(args@) }),
            c.color_of() == color,
    {
        StandardOutCommand { inner_command: Command::new(name, command, args), color }
    }
}

/// The color under which `color_map` lists the command `name`, or the
/// terminal's own color for a name that it does not list.
pub open spec fn color_for(color_map: NameMap<Color>, name: Seq<char>) -> Color {
    match color_map.lookup(name) {
        Some(c) => c,
        None => Color::Default,
    }
}

/// The bytes to print for `message`: the bytes that switch to the color of
/// its command, its line, a line feed, and the bytes that switch back.
pub fn process_message(message: OutputMessage, color_map: &NameMap<Color>) -> (out: Vec<u8>)
    requires
        color_map.wf(),
    ensures
        out@ == open_bytes(color_for(*color_map, message@.name)) + message_line(message@) + seq![
            10u8,
        ] + close_bytes(),
{
    let output_color: Color = match color_map.get(message.name.as_str()) {
        Some(c) => *c,
        None => Color::Default,
    };
    let mut out = output_color.open_sequence();
    let line = line_of(message);
    push_bytes(&mut out, line.as_slice());
    out.push(10);
    let close = output_color.close_sequence();
    push_bytes(&mut out, close.as_slice());
    out
}

/// A run whose messages are printed to the console, set up and not yet
/// started.
#[derive(Debug)]
pub struct StandardOutRun {
    /// The workers and the control surface.
    pub supervisor: Supervisor,
    /// The color of each command, by its name.
    pub color_map: NameMap<Color>,
}

/// The commands that `v` wraps, as values.
pub open spec fn wrapped_commands(v: Seq<StandardOutCommand>) -> Seq<PlainView> {
    v.map_values(|c: StandardOutCommand| c.command())
}

/// The name and the color of each of the first `n` of `commands` as a map
/// holds them when they are put into it one after the other: each name
/// once, at the place where it first came, with the color that came with
/// it last.
pub open spec fn collected(commands: Seq<StandardOutCommand>, n: int) -> (Seq<Seq<char>>, Seq<Color>)
    decreases n,
{
    if n <= 0 {
        (Seq::empty(), Seq::empty())
    } else {
        let before = collected(commands, n - 1);
        let name = commands[n - 1].command().name;
        let color = commands[n - 1].color_of();
        if before.0.contains(name) {
            (before.0, before.1.update(before.0.index_of(name), color))
        } else {
            (before.0.push(name), before.1.push(color))
        }
    }
}

/// Sets up a run of `commands` under the default options, whose messages
/// are printed to the console.
pub fn run_commands_stdout(commands: Vec<StandardOutCommand>) -> (r: Result<
    StandardOutRun,
    CommandError,
>)
    ensures
        match r {
            Ok(run) => {
                &&& all_named(wrapped_commands(commands@))
                &&& is_plain_run(
                    run.supervisor,
                    wrapped_commands(commands@),
                    Options {
                        restart: RestartOptions::Continue,
                        quiet: false,
                        file_handle_flags: false,
                    },
                )
                &&& run.color_map.wf()
                &&& run.color_map.names() == collected(commands@, commands@.len() as int).0
                &&& run.color_map.values() == collected(commands@, commands@.len() as int).1
            },
            Err(e) => !all_named(wrapped_commands(commands@)) && e@
                == CommandErrorView::EmptyCommand,
        },
{
    run_commands_stdout_with_options(commands, Options::new())
}

/// Sets up a run of `commands` under `options`, whose messages are printed
/// to the console. Each command is listed with its color under its name;
/// of commands that share a name the last one's color counts.
pub fn run_commands_stdout_with_options(commands: Vec<StandardOutCommand>, options: Options) -> (r:
    Result<StandardOutRun, CommandError>)
    ensures
        match r {
            Ok(run) => {
                &&& all_named(wrapped_commands(commands@))
                &&& is_plain_run(run.supervisor, wrapped_commands(commands@), options)
                &&& run.color_map.wf()
                &&& run.color_map.names() == collected(commands@, commands@.len() as int).0
                &&& run.color_map.values() == collected(commands@, commands@.len() as int).1
            },
            Err(e) => !all_named(wrapped_commands(commands@)) && e@
                == CommandErrorView::EmptyCommand,
        },
{
    let mut name_color_hash: NameMap<Color> = NameMap::new();
    let mut inner_commands: Vec<Command> = Vec::new();
    for cmd in it: commands
        invariant
            it.seq() == commands@,
            name_color_hash.wf(),
            name_color_hash.names() == collected(commands@, it.index() as int).0,
            name_color_hash.values() == collected(commands@, it.index() as int).1,
            inner_commands@.len() == it.index(),
            forall|k: int|
                0 <= k < it.index() ==> (#[trigger] inner_commands@[k])@ == commands@[k].command(),
    {
        name_color_hash.insert(cmd.inner_command.name().clone(), cmd.color);
        inner_commands.push(cmd.inner_command);
    }
    proof {
        assert(crate::currant::commands_view(inner_commands@) =~= wrapped_commands(commands@));
    }
    match run_commands(inner_commands, options) {
        Ok(supervisor) => Ok(StandardOutRun { supervisor, color_map: name_color_hash }),
        Err(e) => Err(e),
    }
}

} // verus!
