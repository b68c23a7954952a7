//! Commands whose messages are handed to the caller as they are.

use crate::command::Command;
use crate::InnerCommand;
use vstd::prelude::*;

verus! {

/// A command whose output, errors and exit are handed to the caller as
/// messages, to do with them as the caller sees fit.
#[derive(Clone, Debug, PartialEq, Eq)]
pub struct ChannelCommand {
    inner_command: InnerCommand,
}

impl Command for ChannelCommand {
    closed spec fn inner(&self) -> InnerCommand {
        self.inner_command
    }

    closed spec fn with_inner(&self, cmd: InnerCommand) -> ChannelCommand {
        ChannelCommand { inner_command: cmd }
    }

    fn insert_command(cmd: InnerCommand) -> (r: ChannelCommand) {
        ChannelCommand { inner_command: cmd }
    }

    fn get_command(&self) -> (r: &InnerCommand) {
        &self.inner_command
    }

    fn get_command_mut(&mut self) -> (r: &mut InnerCommand) {
        proof {
            assert(forall|c: ChannelCommand, cmd: InnerCommand| #[trigger]
                c.with_inner(cmd) == ChannelCommand { inner_command: cmd });
        }
        &mut self.inner_command
    }
}

impl AsRef<ChannelCommand> for ChannelCommand {
    fn as_ref(&self) -> (r: &ChannelCommand)
        ensures
            *r == *self,
    {
        self
    }
}

} // verus!
