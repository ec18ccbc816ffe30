//! What the program is asked to do.

use vstd::prelude::*;

verus! {

/// The mode to run in.
#[derive(Clone, Copy, Debug, PartialEq, Eq, Structural)]
pub enum Subcommands {
    /// Checks code to verify all conventions are being followed.
    Check,
    /// Formats Solidity and TOML files in the codebase.
    Format,
    /// Generates a specification for the project from test names.
    Spec,
}

/// Options for running the program.
#[derive(Clone, Copy, Debug, PartialEq, Eq, Structural)]
pub struct Opts {
    /// The mode to run in.
    pub subcommand: Subcommands,
}

} // verus!
