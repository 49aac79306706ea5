//! Conditions that end a console session.
use vstd::prelude::*;

verus! {

/// Why a command could not be carried out.
#[derive(Debug, Clone, Copy, PartialEq, Eq, Structural)]
pub enum ConsoleError {
    /// The verb is unknown, or it came with the wrong number of arguments.
    Command,
    /// The room reference is neither a canonical id nor an alias.
    Parse,
    /// The alias is not registered in the store.
    Resolution,
}

} // verus!
