//! Command handlers: the entry of the command pipeline.
//!
//! A terminal handler validates the command, loads the target aggregate,
//! runs domain logic and saves; middleware wraps a handler without the
//! handler knowing.

use vstd::prelude::*;
use crate::command_main::{Command, MyCommand};
use crate::context::Context;

verus! {

/// An error raised while handling a command.
#[derive(Debug)]
pub struct CommandHandlerError {
    pub details: String,
}

impl CommandHandlerError {
    /// Renders the failure as text.
    pub fn message(&self) -> (s: String)
        ensures
            s@ == "CommandHandler error: "@ + self.details@,
    {
        let mut s = String::from_str("CommandHandler error: ");
        s.append(self.details.as_str());
        s
    }

    /// Wraps an error message.
    pub fn new(msg: &str) -> (e: CommandHandlerError)
        ensures
            e.details@ == msg@,
    {
        CommandHandlerError { details: msg.to_owned() }
    }
}

/// A handler of commands, invoked with the request's context.
pub trait CommandHandler {
    fn handle_command(&mut self, ctx: &Context, cmd: &MyCommand) -> Result<
        (),
        CommandHandlerError,
    >;
}

/// A terminal handler that validates the command and records what it
/// accepted; the domain step belongs to the aggregate it targets.
#[derive(Debug)]
pub struct CheckingCommandHandler {
    pub handled: Vec<MyCommand>,
}

impl CheckingCommandHandler {
    /// A handler that has handled nothing yet.
    pub fn new() -> (h: CheckingCommandHandler)
        ensures
            h.handled@.len() == 0,
    {
        CheckingCommandHandler { handled: Vec::new() }
    }
}

impl CommandHandler for CheckingCommandHandler {
    /// Rejects a command addressed to the nil aggregate; accepts and
    /// records any other.
    fn handle_command(&mut self, _ctx: &Context, cmd: &MyCommand) -> (r: Result<
        (),
        CommandHandlerError,
    >)
        ensures
            r is Ok <==> cmd.id.value != 0,
            r is Ok ==> final(self).handled@ == old(self).handled@.push(*cmd),
            r is Err ==> *final(self) == *old(self),
    {
        let id = cmd.aggregate_id();
        match crate::command_check::check_aggregate_id(id) {
            Ok(()) => {
                self.handled.push(*cmd);
                Ok(())
            },
            Err(e) => Err(CommandHandlerError { details: e.field }),
        }
    }
}

} // verus!
