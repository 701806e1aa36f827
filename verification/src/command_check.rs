//! Validation of commands before dispatch: a command must address a
//! non-nil aggregate.

use vstd::prelude::*;
use crate::uuid::Uuid;

verus! {

/// An error naming the missing or zero-valued field of a command.
#[derive(Debug)]
pub struct CommandCheckError {
    pub field: String,
}

impl CommandCheckError {
    /// Renders the failure as text, naming the field at fault.
    pub fn message(&self) -> (s: String)
        ensures
            s@ == "missing field: "@ + self.field@,
    {
        let mut s = String::from_str("missing field: ");
        s.append(self.field.as_str());
        s
    }

    /// Wraps the name of the field at fault.
    pub fn new(field: &str) -> (e: CommandCheckError)
        ensures
            e.field@ == field@,
    {
        CommandCheckError { field: field.to_owned() }
    }
}

/// A command, as far as validation cares: which aggregate it addresses.
pub trait Command {
    fn aggregate_id(&self) -> Uuid;
}

impl Command for crate::command_main::MyCommand {
    fn aggregate_id(&self) -> (id: Uuid)
        ensures
            id == self.id,
    {
        self.id
    }
}

/// A value that has a distinguished zero, used to detect unset fields.
pub trait IsZero {
    /// What counts as zero for this type.
    spec fn spec_is_zero(&self) -> bool;

    fn is_zero(&self) -> (r: bool)
        ensures
            r == self.spec_is_zero(),
    ;
}

impl IsZero for Uuid {
    open spec fn spec_is_zero(&self) -> bool {
        self.value == 0
    }

    fn is_zero(&self) -> (r: bool)
        ensures
            r == self.spec_is_zero(),
    {
        self.value == 0
    }
}

/// Timestamps count the epoch itself as unset.
impl IsZero for u64 {
    open spec fn spec_is_zero(&self) -> bool {
        *self == 0
    }

    fn is_zero(&self) -> (r: bool)
        ensures
            r == self.spec_is_zero(),
    {
        *self == 0
    }
}

/// Accepts an aggregate id exactly when it is not the nil id.
pub fn check_aggregate_id(id: Uuid) -> (r: Result<(), CommandCheckError>)
    ensures
        r is Ok <==> id.value != 0,
        r is Err ==> r->Err_0.field@ == "missing aggregate ID"@,
{
    if id.is_zero() {
        Err(CommandCheckError::new("missing aggregate ID"))
    } else {
        Ok(())
    }
}

/// Checks a command for missing or zero values: it is rejected when the
/// aggregate id it reports is nil.
pub fn check_command<C: Command>(cmd: &C) -> (r: Result<(), CommandCheckError>)
    ensures
        r is Err ==> r->Err_0.field@ == "missing aggregate ID"@,
{
    let id = cmd.aggregate_id();
    check_aggregate_id(id)
}

} // verus!
