//! Commands whose messages are printed to the console, each command in a
//! color of its own.

use crate::color::{
    close_sequence, close_sequence_of, count_random, open_sequence, open_sequence_of,
    populate_random_colors, wheel_colors, with_picks, Color,
};
use crate::command::{Command, Runner};
use crate::line_parse::LineEnding;
use crate::name_map::NameMap;
use crate::run::Supervisor;
use crate::template::{executed, Template, TemplateStrings, TemplateStringsView, TemplateView};
use crate::writer_api::push_bytes;
use crate::{run_commands, InnerCommand, MessageView, OutputMessage, OutputMessagePayload, PayloadView};
use vstd::prelude::*;
use vstd::utf8::encode_utf8;

verus! {

/// A command whose messages are printed to the console in the color of
/// the command. Without a color of its own a command gets one when the run
/// starts, chosen to stand out from the colors of the others.
#[derive(Clone, Debug, PartialEq, Eq)]
pub struct ConsoleCommand {
    inner_command: InnerCommand,
    color: Color,
}

impl ConsoleCommand {
    /// The color of the command.
    pub closed spec fn color_of(&self) -> Color {
        self.color
    }

    /// Sets the color in which the messages of the command are printed.
    pub fn color(&mut self, color: Color) -> (r: &mut ConsoleCommand)
        ensures
            r.color_of() == color,
            r.inner() == old(self).inner(),
            *final(self) == *final(r),
    {
        self.color = color;
        self
    }

    /// The color of the command.
    pub fn get_color(&self) -> (c: Color)
        ensures
            c == self.color_of(),
    {
        self.color
    }
}

impl Command for ConsoleCommand {
    closed spec fn inner(&self) -> InnerCommand {
        self.inner_command
    }

    closed spec fn with_inner(&self, cmd: InnerCommand) -> ConsoleCommand {
        ConsoleCommand { inner_command: cmd, color: self.color }
    }

    fn insert_command(cmd: InnerCommand) -> (r: ConsoleCommand)
        ensures
            r.color_of() == Color::Random,
    {
        ConsoleCommand { inner_command: cmd, color: Color::Random }
    }

    fn get_command(&self) -> (r: &InnerCommand) {
        &self.inner_command
    }

    fn get_command_mut(&mut self) -> (r: &mut InnerCommand)
        ensures
            final(self).color_of() == old(self).color_of(),
    {
        proof {
            assert(forall|c: ConsoleCommand, cmd: InnerCommand| #[trigger]
                c.with_inner(cmd) == ConsoleCommand { inner_command: cmd, color: c.color });
        }
        &mut self.inner_command
    }
}

impl AsRef<ConsoleCommand> for ConsoleCommand {
    fn as_ref(&self) -> (r: &ConsoleCommand)
        ensures
            *r == *self,
    {
        self
    }
}

/// The mark of the stream that a line came from: ` (o)` for standard out
/// and ` (e)` for standard error where marks are asked for, else nothing.
pub open spec fn handle_flag(file_handle_flags: bool, is_stdout: bool) -> Seq<char> {
    if !file_handle_flags {
        Seq::empty()
    } else if is_stdout {
        " (o)"@
    } else {
        " (e)"@
    }
}

/// The byte that ends a printed line of output: a carriage return where
/// the line ended in a lone carriage return and its command is the only
/// one of the run, so that a line that a program rewrites in place is
/// rewritten on the console too; else a line feed.
pub open spec fn line_end(num_cmds: int, ending: LineEnding) -> u8 {
    if num_cmds == 1 && ending == LineEnding::Cr {
        13u8
    } else {
        10u8
    }
}

/// What stands before the bytes of a printed line of output: the
/// filled-in payload template, the reset sequence and a blank.
pub open spec fn line_prefix(
    t: TemplateView,
    reset: Seq<char>,
    flag: Seq<char>,
    strings: TemplateStringsView,
) -> Seq<u8> {
    encode_utf8(executed(TemplateView { handle_flag: flag, ..t }, strings.payload_message_template))
        + encode_utf8(reset) + seq![32u8]
}

/// The bytes that are printed for `message` behind the sequence that
/// switches the color on. `t` holds the values of the placeholders for
/// the command and `reset` switches the color off.
///
/// A start and an end are printed as their filled-in templates, the reset
/// sequence and a line feed, and not at all where the run is quiet. A line
/// of output is printed behind its prefix and closed by `line_end`. An
/// error is printed as its filled-in template, the reset sequence and a
/// line feed, quiet or not.
pub open spec fn console_body(
    message: PayloadView,
    t: TemplateView,
    reset: Seq<char>,
    num_cmds: int,
    quiet: bool,
    file_handle_flags: bool,
    strings: TemplateStringsView,
) -> Seq<u8> {
    match message {
        PayloadView::Start => if quiet {
            Seq::empty()
        } else {
            encode_utf8(executed(t, strings.start_message_template)) + encode_utf8(reset) + seq![
                10u8,
            ]
        },
        PayloadView::Done(code) => if quiet {
            Seq::empty()
        } else {
            encode_utf8(
                executed(TemplateView { status_code: code, ..t }, strings.done_message_template),
            ) + encode_utf8(reset) + seq![10u8]
        },
        PayloadView::Stdout(ending, bytes) => line_prefix(
            t,
            reset,
            handle_flag(file_handle_flags, true),
            strings,
        ) + bytes + seq![line_end(num_cmds, ending)],
        PayloadView::Stderr(ending, bytes) => line_prefix(
            t,
            reset,
            handle_flag(file_handle_flags, false),
            strings,
        ) + bytes + seq![line_end(num_cmds, ending)],
        PayloadView::Error(text) => encode_utf8(
            executed(TemplateView { error_message: text, ..t }, strings.error_message_template),
        ) + encode_utf8(reset) + seq![10u8],
    }
}

/// All bytes that are printed for `message`: the sequence `color_open`
/// that switches the color on, then the body, filled in with the name of
/// the command.
pub open spec fn console_bytes(
    message: MessageView,
    color_open: Seq<char>,
    template: TemplateView,
    reset: Seq<char>,
    num_cmds: int,
    quiet: bool,
    file_handle_flags: bool,
    strings: TemplateStringsView,
) -> Seq<u8> {
    encode_utf8(color_open) + console_body(
        message.message,
        TemplateView { name: message.name, ..template },
        reset,
        num_cmds,
        quiet,
        file_handle_flags,
        strings,
    )
}

/// The bytes to print for `message`, given the sequences that switch the
/// color on and off and the values of the placeholders.
pub fn render_message(
    message: OutputMessage,
    color_open: &str,
    template: Template,
    color_reset: &str,
    num_cmds: usize,
    quiet: bool,
    file_handle_flags: bool,
    template_strings: &TemplateStrings,
) -> (out: Vec<u8>)
    ensures
        out@ == console_bytes(
            message@,
            color_open@,
            template@,
            color_reset@,
            num_cmds as int,
            quiet,
            file_handle_flags,
            template_strings@,
        ),
{
    let mut template = template;
    template.name = message.name;
    let std_out_flag = if file_handle_flags {
        " (o)"
    } else {
        ""
    };
    let std_err_flag = if file_handle_flags {
        " (e)"
    } else {
        ""
    };
    proof {
        reveal_strlit("");
        assert(std_out_flag@ =~= handle_flag(file_handle_flags, true));
        assert(std_err_flag@ =~= handle_flag(file_handle_flags, false));
    }
    let mut out: Vec<u8> = Vec::new();
    push_bytes(&mut out, color_open.as_bytes());
    match message.message {
        OutputMessagePayload::Start => {
            if !quiet {
                let text = template.execute(template_strings.start_message_template.as_str());
                push_bytes(&mut out, text.as_str().as_bytes());
                push_bytes(&mut out, color_reset.as_bytes());
                out.push(10);
            }
        },
        OutputMessagePayload::Done(exit_status) => {
            if !quiet {
                template.status_code = exit_status;
                let text = template.execute(template_strings.done_message_template.as_str());
                push_bytes(&mut out, text.as_str().as_bytes());
                push_bytes(&mut out, color_reset.as_bytes());
                out.push(10);
            }
        },
        OutputMessagePayload::Stdout(ending, bytes) => {
            template.handle_flag = std_out_flag.to_owned();
            let text = template.execute(template_strings.payload_message_template.as_str());
            push_bytes(&mut out, text.as_str().as_bytes());
            push_bytes(&mut out, color_reset.as_bytes());
            out.push(32);
            push_bytes(&mut out, bytes.as_slice());
            if num_cmds == 1 && ending.is_carriage_return() {
                out.push(13);
            } else {
                out.push(10);
            }
        },
        OutputMessagePayload::Stderr(ending, bytes) => {
            template.handle_flag = std_err_flag.to_owned();
            let text = template.execute(template_strings.payload_message_template.as_str());
            push_bytes(&mut out, text.as_str().as_bytes());
            push_bytes(&mut out, color_reset.as_bytes());
            out.push(32);
            push_bytes(&mut out, bytes.as_slice());
            if num_cmds == 1 && ending.is_carriage_return() {
                out.push(13);
            } else {
                out.push(10);
            }
        },
        OutputMessagePayload::Error(e) => {
            template.error_message = e;
            let text = template.execute(template_strings.error_message_template.as_str());
            push_bytes(&mut out, text.as_str().as_bytes());
            push_bytes(&mut out, color_reset.as_bytes());
            out.push(10);
        },
    }
    proof {
        assert(out@ =~= console_bytes(
            message@,
            color_open@,
            template@,
            color_reset@,
            num_cmds as int,
            quiet,
            file_handle_flags,
            template_strings@,
        ));
    }
    out
}

/// Whether `out` can be what is printed for `message` in `color`: it is
/// `console_bytes` of the message with color sequences as they are printed
/// for this color, each of which is empty where standard out was no
/// terminal when it was made.
pub open spec fn is_console_output(
    out: Seq<u8>,
    message: MessageView,
    color: Color,
    num_cmds: int,
    quiet: bool,
    file_handle_flags: bool,
    strings: TemplateStringsView,
) -> bool {
    exists|
        open_tty: bool,
        open_picked: (u8, u8, u8),
        begin_tty: bool,
        begin_picked: (u8, u8, u8),
        end_tty: bool,
        reset_tty: bool,
    |
        out == console_bytes(
            message,
            open_sequence_of(color, open_tty, open_picked),
            TemplateView {
                name: Seq::empty(),
                begin_color: open_sequence_of(color, begin_tty, begin_picked),
                reset_color: close_sequence_of(end_tty),
                error_message: Seq::empty(),
                status_code: None,
                handle_flag: Seq::empty(),
            },
            close_sequence_of(reset_tty),
            num_cmds,
            quiet,
            file_handle_flags,
            strings,
        )
}

/// The color under which `color_map` lists the command `name`, or the
/// terminal's own color for a name that it does not list.
pub open spec fn color_for(color_map: NameMap<Color>, name: Seq<char>) -> Color {
    match color_map.lookup(name) {
        Some(c) => c,
        None => Color::Default,
    }
}

/// The bytes to print for `message`, in the color under which
/// `color_map` lists its command.
pub fn process_message(
    message: OutputMessage,
    color_map: &NameMap<Color>,
    num_cmds: usize,
    quiet: bool,
    file_handle_flags: bool,
    template_strings: &TemplateStrings,
) -> (out: Vec<u8>)
    requires
        color_map.wf(),
    ensures
        is_console_output(
            out@,
            message@,
            color_for(*color_map, message.name@),
            num_cmds as int,
            quiet,
            file_handle_flags,
            template_strings@,
        ),
{
    let output_color: Color = match color_map.get(message.name.as_str()) {
        Some(c) => *c,
        None => Color::Default,
    };
    let color_open_sequence = open_sequence(&output_color);
    let template = Template::new(Some(&output_color));
    let color_reset_sequence = close_sequence();
    render_message(
        message,
        color_open_sequence.as_str(),
        template,
        color_reset_sequence.as_str(),
        num_cmds,
        quiet,
        file_handle_flags,
        template_strings,
    )
}

/// The names and colors of `entries` as a map holds them when they are
/// put into it one after the other: each name once, at the place where it
/// first came, with the color that came with it last.
pub open spec fn collected(entries: Seq<(Seq<char>, Color)>) -> (Seq<Seq<char>>, Seq<Color>)
    decreases entries.len(),
{
    if entries.len() == 0 {
        (Seq::empty(), Seq::empty())
    } else {
        let before = collected(entries.drop_last());
        let (name, color) = entries.last();
        if before.0.contains(name) {
            (before.0, before.1.update(before.0.index_of(name), color))
        } else {
            (before.0.push(name), before.1.push(color))
        }
    }
}

/// The name and the color of each of `commands`.
pub open spec fn color_entries(commands: Seq<ConsoleCommand>) -> Seq<(Seq<char>, Color)> {
    commands.map_values(|c: ConsoleCommand| (c.inner()@.name, c.color_of()))
}

/// A run whose messages are printed to the console, set up and not yet
/// started.
#[derive(Debug)]
pub struct ConsoleRun {
    /// The workers and the control surface.
    pub supervisor: Supervisor,
    /// The color of each command, by its name.
    pub color_map: NameMap<Color>,
    /// The number of commands.
    pub num_cmds: usize,
    /// Whether starts and ends are left out.
    pub quiet: bool,
    /// Whether lines are marked with their stream.
    pub file_handle_flags: bool,
    /// The templates of the messages.
    pub template_strings: TemplateStrings,
}

/// Sets up a run of the commands of `runner` whose messages are printed
/// to the console.
///
/// Each command is listed with its color under its name; of commands
/// that share a name the last one's color counts. The commands that have
/// no color of their own are then given colors set evenly around the
/// color wheel, so that none is left without one.
pub fn run_commands_stdout(runner: &Runner<ConsoleCommand>) -> (run: ConsoleRun)
    requires
        runner.commands().len() <= u32::MAX,
    ensures
        crate::is_run_of(run.supervisor, runner.commands(), runner.options()),
        run.num_cmds == runner.commands().len(),
        run.quiet == runner.options().quiet,
        run.file_handle_flags == runner.options().file_handle_flags,
        run.template_strings@ == crate::template::default_template_strings(),
        run.color_map.wf(),
        run.color_map.names() == collected(color_entries(runner.commands())).0,
        exists|start: int|
            0 <= start < 360 && run.color_map.values() == with_picks(
                collected(color_entries(runner.commands())).1,
                wheel_colors(
                    start,
                    count_random(
                        collected(color_entries(runner.commands())).1,
                        collected(color_entries(runner.commands())).1.len() as int,
                    ),
                ),
            ),
        forall|i: int|
            0 <= i < run.color_map.values().len() ==> (#[trigger] run.color_map.values()[i])
                != Color::Random,
{
    let ghost entries = color_entries(runner.commands());
    let mut name_color_hash: NameMap<Color> = NameMap::new();
    let options = runner.to_options();
    let num_cmds: usize = runner.len();
    let mut i: usize = 0;
    proof {
        assert(entries.take(0) =~= Seq::empty());
    }
    while i < num_cmds
        invariant
            i <= num_cmds,
            num_cmds == runner.commands().len(),
            entries == color_entries(runner.commands()),
            name_color_hash.wf(),
            name_color_hash.names() == collected(entries.take(i as int)).0,
            name_color_hash.values() == collected(entries.take(i as int)).1,
            name_color_hash.names().len() <= i,
        decreases num_cmds - i,
    {
        let cmd = runner.command_at(i);
        let ghost before = entries.take(i as int);
        name_color_hash.insert(cmd.get_command().name().clone(), cmd.get_color());
        i = i + 1;
        proof {
            let now = entries.take(i as int);
            assert(now.drop_last() =~= before);
            assert(now.last() == entries[i - 1]);
        }
    }
    proof {
        assert(entries.take(num_cmds as int) =~= entries);
    }
    populate_random_colors(&mut name_color_hash);
    let supervisor = run_commands(runner);
    let template_strings = runner.get_template_strings();
    ConsoleRun {
        supervisor,
        color_map: name_color_hash,
        num_cmds,
        quiet: options.quiet,
        file_handle_flags: options.file_handle_flags,
        template_strings,
    }
}

} // verus!
