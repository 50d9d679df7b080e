use vstd::prelude::*;

verus! {

/// How an executed command ended.
#[derive(Clone, Copy, Debug, PartialEq, Eq, Structural)]
pub enum Status {
    /// The command ran to its end with this exit code.
    Exited(i32),
    /// The command was ended by this signal number; the flag tells whether a
    /// core dump was written.
    Signaled(i32, bool),
}

/// Every failure that executing a command line can report.
#[derive(Clone, Copy, Debug, PartialEq, Eq, Structural)]
pub enum ShellError {
    /// The text holds no command.
    SyntaxError,
    /// A builtin was given an argument that is not valid text.
    InvalidArgument,
    /// Starting or waiting for a process failed.
    IoError,
    /// Builtins re-entered the engine more often than `MAX_DEPTH` allows.
    RecursionLimitExceeded,
}

} // verus!
