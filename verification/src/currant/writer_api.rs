//! The plain interface, with messages written to one writer.

use crate::command::{CommandError, CommandErrorView};
use crate::currant::{all_named, commands_view, is_plain_run, run_commands, Command};
use crate::decimal::{decimal, decimal_string};
use crate::run::Supervisor;
use crate::writer_api::push_bytes;
use crate::{MessageView, Options, OutputMessage, OutputMessagePayload, PayloadView};
use vstd::prelude::*;
use vstd::utf8::encode_utf8;

verus! {

/// The text that is written for a message of the command `name`, before
/// the bytes of a line of output if it is one.
pub open spec fn message_text(name: Seq<char>, message: PayloadView) -> Seq<char> {
    match message {
        PayloadView::Start => name + ": process started"@,
        PayloadView::Done(Some(code)) => name + ": process exited with status: "@ + decimal(
            code as int,
        ),
        PayloadView::Done(None) => name + ": process exited without exit status"@,
        PayloadView::Stdout(_, _) => name + " (o): "@,
        PayloadView::Stderr(_, _) => name + " (e): "@,
        PayloadView::Error(text) => "currant (e): Encountered error with process "@ + name + ": "@
            + text,
    }
}

/// The bytes of the line that a message carries, if it carries one.
pub open spec fn message_bytes(message: PayloadView) -> Seq<u8> {
    match message {
        PayloadView::Stdout(_, bytes) => bytes,
        PayloadView::Stderr(_, bytes) => bytes,
        _ => Seq::empty(),
    }
}

/// The line that is written for `message`, without the line feed that
/// ends it: the text of the message, encoded, and behind it the bytes of
/// the line of output as they are.
pub open spec fn message_line(message: MessageView) -> Seq<u8> {
    encode_utf8(message_text(message.name, message.message)) + message_bytes(message.message)
}

/// The text that is written for `message`.
pub fn text_of(message: &OutputMessage) -> (text: String)
    ensures
        text@ == message_text(message@.name, message@.message),
{
    let mut text = String::new();
    match &message.message {
        OutputMessagePayload::Start => {
            text = concat3(message.name.as_str(), ": process started", "");
        },
        OutputMessagePayload::Done(Some(exit_status)) => {
            let code = decimal_string(*exit_status);
            text = concat3(message.name.as_str(), ": process exited with status: ", code.as_str());
        },
        OutputMessagePayload::Done(None) => {
            text = concat3(message.name.as_str(), ": process exited without exit status", "");
        },
        OutputMessagePayload::Stdout(_, _) => {
            text = concat3(message.name.as_str(), " (o): ", "");
        },
        OutputMessagePayload::Stderr(_, _) => {
            text = concat3(message.name.as_str(), " (e): ", "");
        },
        OutputMessagePayload::Error(e) => {
            let head = concat3(
                "currant (e): Encountered error with process ",
                message.name.as_str(),
                ": ",
            );
            text = concat3(head.as_str(), e.as_str(), "");
        },
    }
    proof {
        reveal_strlit("");
        assert(text@ =~= message_text(message@.name, message@.message));
    }
    text
}

/// The three strings joined.
pub fn concat3(a: &str, b: &str, c: &str) -> (s: String)
    ensures
        s@ == a@ + b@ + c@,
{
    let mut s = a.to_owned();
    vstd::string::StringExecFns::append(&mut s, b);
    vstd::string::StringExecFns::append(&mut s, c);
    s
}

/// The line to write for `message`, without the line feed that ends it.
pub fn line_of(message: OutputMessage) -> (out: Vec<u8>)
    ensures
        out@ == message_line(message@),
{
    let text = text_of(&message);
    let mut out: Vec<u8> = Vec::new();
    push_bytes(&mut out, text.as_str().as_bytes());
    match message.message {
        OutputMessagePayload::Stdout(_, bytes) => {
            push_bytes(&mut out, bytes.as_slice());
        },
        OutputMessagePayload::Stderr(_, bytes) => {
            push_bytes(&mut out, bytes.as_slice());
        },
        _ => {},
    }
    proof {
        assert(out@ =~= message_line(message@));
    }
    out
}

/// The bytes to write for `message`: its line and a line feed.
pub fn process_message(message: OutputMessage) -> (out: Vec<u8>)
    ensures
        out@ == message_line(message@) + seq![10u8],
{
    let mut out = line_of(message);
    out.push(10);
    out
}

/// Sets up a run of `commands` under the default options, whose messages
/// go to a writer.
pub fn run_commands_writer(commands: Vec<Command>) -> (r: Result<Supervisor, CommandError>)
    ensures
        match r {
            Ok(s) => all_named(commands_view(commands@)) && is_plain_run(
                s,
                commands_view(commands@),
                Options {
                    restart: crate::RestartOptions::Continue,
                    quiet: false,
                    file_handle_flags: false,
                },
            ),
            Err(e) => !all_named(commands_view(commands@)) && e@
                == CommandErrorView::EmptyCommand,
        },
{
    run_commands_writer_with_options(commands, Options::new())
}

/// Sets up a run of `commands` under `options`, whose messages go to a
/// writer.
pub fn run_commands_writer_with_options(commands: Vec<Command>, options: Options) -> (r: Result<
    Supervisor,
    CommandError,
>)
    ensures
        match r {
            Ok(s) => all_named(commands_view(commands@)) && is_plain_run(
                s,
                commands_view(commands@),
                options,
            ),
            Err(e) => !all_named(commands_view(commands@)) && e@
                == CommandErrorView::EmptyCommand,
        },
{
    run_commands(commands, options)
}

} // verus!
