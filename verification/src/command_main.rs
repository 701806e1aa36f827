//! Commands: immutable requests addressed to one aggregate.

use vstd::prelude::*;
use crate::uuid::Uuid;

verus! {

/// A command: which aggregate it addresses and what it asks.
pub trait Command {
    fn aggregate_id(&self) -> Uuid;

    fn aggregate_type(&self) -> String;

    fn command_type(&self) -> String;
}

/// An error raised by command creation or registration.
#[derive(Debug)]
pub struct CommandError {
    pub err: String,
}

impl CommandError {
    /// Renders the failure as text.
    pub fn message(&self) -> (s: String)
        ensures
            s@ == "command error: "@ + self.err@,
    {
        let mut s = String::from_str("command error: ");
        s.append(self.err.as_str());
        s
    }

    /// Wraps an error message.
    pub fn new(err: String) -> (e: CommandError)
        ensures
            e.err == err,
    {
        CommandError { err }
    }
}

/// Copying for commands: the copy equals the original.
pub trait CommandClone: Sized {
    fn clone_command(&self) -> (c: Self)
        ensures
            c == *self,
    ;
}

/// Maps a command type name to the prototype new instances are copied
/// from.
pub struct CommandRegistry<C> {
    pub entries: Vec<(String, C)>,
}

/// The prototype of the first entry registered under `t`, or `None`.
pub open spec fn commands_first<C>(entries: Seq<(String, C)>, t: Seq<char>) -> Option<C>
    decreases entries.len(),
{
    if entries.len() == 0 {
        None
    } else if entries[0].0@ == t {
        Some(entries[0].1)
    } else {
        commands_first(entries.drop_first(), t)
    }
}

/// True if some entry of `entries` carries the command type `t`.
pub open spec fn commands_have_type<C>(entries: Seq<(String, C)>, t: Seq<char>) -> bool {
    exists|i: int| 0 <= i < entries.len() && (#[trigger] entries[i]).0@ == t
}

impl<C: Command + CommandClone> CommandRegistry<C> {
    /// An empty registry.
    pub fn new() -> (r: CommandRegistry<C>)
        ensures
            r.entries@ == Seq::<(String, C)>::empty(),
    {
        CommandRegistry { entries: Vec::new() }
    }
}

/// Registers a command prototype under a type name.  Registering the
/// same name twice is a caller error, kept out by the precondition.
pub fn register_command<C: Command + CommandClone>(
    registry: &mut CommandRegistry<C>,
    command_type: String,
    prototype: C,
)
    requires
        !commands_have_type(old(registry).entries@, command_type@),
    ensures
        final(registry).entries@ == old(registry).entries@.push((command_type, prototype)),
{
    registry.entries.push((command_type, prototype));
}

/// Returns a copy of the prototype registered under `command_type`, or
/// an error if none is registered.
pub fn create_command<C: Command + CommandClone>(
    registry: &CommandRegistry<C>,
    command_type: &str,
) -> (r: Result<C, CommandError>)
    ensures
        r is Ok <==> commands_have_type(registry.entries@, command_type@),
        r is Ok ==> commands_first(registry.entries@, command_type@) == Some(r->Ok_0),
        r is Err ==> r->Err_0.err@ == "Command not registered"@,
{
    let n = registry.entries.len();
    let mut i: usize = 0;
    while i < n
        invariant
            n == registry.entries@.len(),
            i <= n,
            forall|j: int| 0 <= j < i ==> (#[trigger] registry.entries@[j]).0@ != command_type@,
        decreases n - i,
    {
        if crate::event::str_eq(registry.entries[i].0.as_str(), command_type) {
            proof {
                lemma_commands_first_match(registry.entries@, command_type@, i as int);
            }
            return Ok(registry.entries[i].1.clone_command());
        }
        i = i + 1;
    }
    Err(CommandError { err: String::from_str("Command not registered") })
}

proof fn lemma_commands_first_match<C>(entries: Seq<(String, C)>, t: Seq<char>, i: int)
    requires
        0 <= i < entries.len(),
        entries[i].0@ == t,
        forall|j: int| 0 <= j < i ==> (#[trigger] entries[j]).0@ != t,
    ensures
        commands_first(entries, t) == Some(entries[i].1),
    decreases entries.len(),
{
    if i > 0 {
        lemma_commands_first_match(entries.drop_first(), t, i - 1);
    }
}

/// An example command addressed to the example aggregate.
#[derive(Clone, Copy, Debug)]
pub struct MyCommand {
    pub id: Uuid,
}

impl CommandClone for MyCommand {
    fn clone_command(&self) -> (c: Self)
        ensures
            c == *self,
    {
        *self
    }
}

impl MyCommand {
    /// A command addressed to a fresh random aggregate id.
    pub fn new() -> (c: MyCommand) {
        MyCommand { id: crate::uuid::new() }
    }

    /// A command addressed to the given aggregate.
    pub fn with_id(id: Uuid) -> (c: MyCommand)
        ensures
            c.id == id,
    {
        MyCommand { id }
    }
}

impl Command for MyCommand {
    fn aggregate_id(&self) -> (id: Uuid)
        ensures
            id == self.id,
    {
        self.id
    }

    fn aggregate_type(&self) -> (t: String)
        ensures
            t@ == "MyAggregate"@,
    {
        String::from_str("MyAggregate")
    }

    fn command_type(&self) -> (t: String)
        ensures
            t@ == "MyCommand"@,
    {
        String::from_str("MyCommand")
    }
}

} // verus!
