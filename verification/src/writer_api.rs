//! Commands whose messages are written, line by line, to one writer.

use crate::command::{Command, Runner};
use crate::run::Supervisor;
use crate::template::{executed, Template, TemplateStrings, TemplateStringsView, TemplateView};
use crate::{run_commands, InnerCommand, MessageView, OutputMessage, OutputMessagePayload, PayloadView};
use vstd::prelude::*;
use vstd::utf8::encode_utf8;

verus! {

/// A command whose messages are written to a writer that it shares with
/// the other commands of its run, such as a log file.
#[derive(Clone, Debug, PartialEq, Eq)]
pub struct WriterCommand {
    inner_command: InnerCommand,
}

impl Command for WriterCommand {
    closed spec fn inner(&self) -> InnerCommand {
        self.inner_command
    }

    closed spec fn with_inner(&self, cmd: InnerCommand) -> WriterCommand {
        WriterCommand { inner_command: cmd }
    }

    fn insert_command(cmd: InnerCommand) -> (r: WriterCommand) {
        WriterCommand { inner_command: cmd }
    }

    fn get_command(&self) -> (r: &InnerCommand) {
        &self.inner_command
    }

    fn get_command_mut(&mut self) -> (r: &mut InnerCommand) {
        proof {
            assert(forall|c: WriterCommand, cmd: InnerCommand| #[trigger]
                c.with_inner(cmd) == WriterCommand { inner_command: cmd });
        }
        &mut self.inner_command
    }
}

impl AsRef<WriterCommand> for WriterCommand {
    fn as_ref(&self) -> (r: &WriterCommand)
        ensures
            *r == *self,
    {
        self
    }
}

/// Appends `bytes` to `out`.
pub fn push_bytes(out: &mut Vec<u8>, bytes: &[u8])
    ensures
        final(out)@ == old(out)@ + bytes@,
{
    let mut i: usize = 0;
    while i < bytes.len()
        invariant
            i <= bytes@.len(),
            out@ == old(out)@ + bytes@.take(i as int),
        decreases bytes@.len() - i,
    {
        out.push(bytes[i]);
        i = i + 1;
        proof {
            assert(out@ =~= old(out)@ + bytes@.take(i as int));
        }
    }
    proof {
        assert(bytes@.take(i as int) =~= bytes@);
    }
}

/// The values of the placeholders before any is set.
pub open spec fn blank_template() -> TemplateView {
    TemplateView {
        name: Seq::empty(),
        begin_color: Seq::empty(),
        reset_color: Seq::empty(),
        error_message: Seq::empty(),
        status_code: None,
        handle_flag: Seq::empty(),
    }
}

/// The bytes that are written for `message`: the filled-in template of
/// its kind and a line feed. For a line of output the filled-in payload
/// template comes first, with ` (o)` or ` (e)` as the mark of the stream,
/// then the bytes of the line as they are, then the line feed, whatever
/// terminator the line had.
pub open spec fn writer_bytes(message: MessageView, strings: TemplateStringsView) -> Seq<u8> {
    let t = TemplateView { name: message.name, ..blank_template() };
    match message.message {
        PayloadView::Start => encode_utf8(executed(t, strings.start_message_template)) + seq![
            10u8,
        ],
        PayloadView::Done(code) => encode_utf8(
            executed(TemplateView { status_code: code, ..t }, strings.done_message_template),
        ) + seq![10u8],
        PayloadView::Stdout(_, bytes) => encode_utf8(
            executed(TemplateView { handle_flag: " (o)"@, ..t }, strings.payload_message_template),
        ) + bytes + seq![10u8],
        PayloadView::Stderr(_, bytes) => encode_utf8(
            executed(TemplateView { handle_flag: " (e)"@, ..t }, strings.payload_message_template),
        ) + bytes + seq![10u8],
        PayloadView::Error(text) => encode_utf8(
            executed(TemplateView { error_message: text, ..t }, strings.error_message_template),
        ) + seq![10u8],
    }
}

/// The bytes to write for `message`.
pub fn process_message(message: OutputMessage, template_strings: &TemplateStrings) -> (out: Vec<u8>)
    ensures
        out@ == writer_bytes(message@, template_strings@),
{
    let mut template = Template::new(None);
    template.name = message.name;
    let mut out: Vec<u8> = Vec::new();
    match message.message {
        OutputMessagePayload::Start => {
            let text = template.execute(template_strings.start_message_template.as_str());
            push_bytes(&mut out, text.as_str().as_bytes());
        },
        OutputMessagePayload::Done(exit_status) => {
            template.status_code = exit_status;
            let text = template.execute(template_strings.done_message_template.as_str());
            push_bytes(&mut out, text.as_str().as_bytes());
        },
        OutputMessagePayload::Stdout(_, bytes) => {
            template.handle_flag = " (o)".to_owned();
            let text = template.execute(template_strings.payload_message_template.as_str());
            push_bytes(&mut out, text.as_str().as_bytes());
            push_bytes(&mut out, bytes.as_slice());
        },
        OutputMessagePayload::Stderr(_, bytes) => {
            template.handle_flag = " (e)".to_owned();
            let text = template.execute(template_strings.payload_message_template.as_str());
            push_bytes(&mut out, text.as_str().as_bytes());
            push_bytes(&mut out, bytes.as_slice());
        },
        OutputMessagePayload::Error(e) => {
            template.error_message = e;
            let text = template.execute(template_strings.error_message_template.as_str());
            push_bytes(&mut out, text.as_str().as_bytes());
        },
    }
    out.push(10);
    proof {
        assert(out@ =~= writer_bytes(message@, template_strings@));
    }
    out
}

/// The bytes to write for `messages`, one after the other.
pub open spec fn channel_bytes(messages: Seq<MessageView>, strings: TemplateStringsView) -> Seq<u8>
    decreases messages.len(),
{
    if messages.len() == 0 {
        Seq::empty()
    } else {
        channel_bytes(messages.drop_last(), strings) + writer_bytes(messages.last(), strings)
    }
}

/// The bytes to write for the messages of a channel that has been
/// drained into `messages`, in the order in which they came.
pub fn process_channel(messages: Vec<OutputMessage>, template_strings: &TemplateStrings) -> (out:
    Vec<u8>)
    ensures
        out@ == channel_bytes(crate::run::messages_view(messages@), template_strings@),
{
    let ghost all = crate::run::messages_view(messages@);
    let mut out: Vec<u8> = Vec::new();
    for message in it: messages
        invariant
            it.seq() == messages@,
            all == crate::run::messages_view(messages@),
            out@ == channel_bytes(all.take(it.index() as int), template_strings@),
    {
        let ghost m = message@;
        let bytes = process_message(message, template_strings);
        push_bytes(&mut out, bytes.as_slice());
        proof {
            let done = all.take(it.index() + 1);
            assert(done.drop_last() =~= all.take(it.index() as int));
            assert(done.last() == m);
        }
    }
    proof {
        assert(all.take(messages@.len() as int) =~= all);
    }
    out
}

/// A run whose messages go to a writer, set up and not yet started.
#[derive(Debug)]
pub struct WriterRun {
    /// The workers and the control surface.
    pub supervisor: Supervisor,
    /// The templates of the messages.
    pub template_strings: TemplateStrings,
}

/// Sets up a run of the commands of `runner` whose messages go to a
/// writer.
pub fn run_commands_writer(runner: &Runner<WriterCommand>) -> (run: WriterRun)
    ensures
        crate::is_run_of(run.supervisor, runner.commands(), runner.options()),
        run.template_strings@ == crate::template::default_template_strings(),
{
    let supervisor = run_commands(runner);
    let template_strings = runner.get_template_strings();
    WriterRun { supervisor, template_strings }
}

} // verus!
