//! Invocations of external programs, and what a run of one reports.
//!
//! The library decides which programs to run with which arguments and how to
//! read what they report; running them is left to the caller.
use vstd::prelude::*;

use crate::text::string_from;

verus! {

/// A program and its arguments.
#[derive(Debug)]
pub struct CommandLine {
    pub program: String,
    pub args: Vec<String>,
}

/// What a finished command reported: whether its exit status was success, and
/// its standard output and error as text.
#[derive(Debug)]
pub struct CommandOutput {
    pub success: bool,
    pub stdout: String,
    pub stderr: String,
}

/// The outcome of running a command: its output, or the message of the error
/// that kept it from running.
pub type CommandOutcome = Result<CommandOutput, String>;

/// The views of the arguments of a command.
pub open spec fn args_view(args: Seq<String>) -> Seq<Seq<char>> {
    args.map_values(|a: String| a@)
}

/// A `String` holding the characters of `v`.
pub fn text_arg(v: Vec<char>) -> (s: String)
    ensures
        s@ == v@,
{
    string_from(v.as_slice())
}

} // verus!
