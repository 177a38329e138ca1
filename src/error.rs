//! Why bringing a pin into its declared state failed.
use vstd::prelude::*;

verus! {

/// A failure while exporting or unexporting a pin. Outside failures are
/// carried as their messages.
#[derive(Debug, Clone)]
pub enum Error {
    /// The GPIO driver failed.
    Gpio(String),
    /// Changing the owner of a file failed.
    Nix(String),
    /// A filesystem operation failed.
    Io(String),
    /// The named user does not exist.
    UnknownUser(String),
    /// The named group does not exist.
    UnknownGroup(String),
    /// An outcome was reported that does not answer the pending action.
    Unexpected,
}

} // verus!
