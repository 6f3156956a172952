//! The command line's options.
use vstd::prelude::*;

verus! {

/// What was asked for on the command line.
pub struct Cli {
    /// Commit with the generated message.
    pub commit: bool,
    /// Stage all changes first.
    pub all: bool,
    /// How many messages to suggest.
    pub number: u8,
    /// Amend the previous commit.
    pub amend: bool,
    /// The model to use instead of the configured one.
    pub model: Option<String>,
}

} // verus!
