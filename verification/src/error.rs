//! Errors of the cyclic tasks.
use crate::command::CommandInterfaceError;
use vstd::prelude::*;

verus! {

/// Why a task failed: something common to every task, or an error of the
/// task itself.
#[derive(Debug, Clone, Copy, PartialEq, Eq, Structural)]
pub enum EcError<E> {
    UnexpectedCommand,
    LostPacket,
    UnexpectedWkc(u16),
    Interface(CommandInterfaceError),
    TaskSpecific(E),
    Timeout,
}

impl<E> From<CommandInterfaceError> for EcError<E> {
    fn from(err: CommandInterfaceError) -> (r: Self) {
        EcError::Interface(err)
    }
}

impl<E> vstd::std_specs::convert::FromSpecImpl<CommandInterfaceError> for EcError<E> {
    open spec fn obeys_from_spec() -> bool {
        true
    }

    open spec fn from_spec(err: CommandInterfaceError) -> EcError<E> {
        EcError::Interface(err)
    }
}

} // verus!
