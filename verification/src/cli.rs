//! The command-line surface, as plain values.
//!
//! Argument parsing itself lives in the surrounding layer; the
//! library only decides what a parsed invocation means.

use vstd::prelude::*;

verus! {

/// A parsed invocation: a script to run, a subcommand, or neither.
#[derive(Debug)]
pub struct Args {
    pub file_to_run: Option<String>,
    pub command: Option<Commands>,
}

/// The subcommands besides running a script.
#[derive(Debug, PartialEq, Eq)]
pub enum Commands {
    /// Approve the native extensions reachable from a script.
    Bless,
}

impl Args {
    /// Whether the invocation names nothing to do, so only the
    /// version banner is printed.
    pub fn no_args_passed(&self) -> (r: bool)
        ensures
            r == (self.file_to_run is None && self.command is None),
    {
        self.file_to_run.is_none() && self.command.is_none()
    }
}

} // verus!
