//! The file operations that a logging call asks for, and the errors that
//! their failure means.

use vstd::prelude::*;

verus! {

/// What went wrong, by the step that failed.
#[derive(Clone, Copy, Debug, PartialEq, Eq, Structural)]
pub enum LoggerError {
    /// The first log file could not be opened or created.
    Init,
    /// The replacement log file could not be opened or created.
    Reconfig,
    /// The full log file could not be renamed, or its successor not created.
    Rotate,
    /// The record could not be written.
    Write,
}

/// One file operation for the caller to perform. The operations of one
/// logging call are performed in order, and none after one that failed.
#[derive(Debug, PartialEq, Eq)]
pub enum FileOp {
    /// Rename the file `from` to `to`.
    Rename { from: String, to: String },
    /// Open `path` for appending, create it where it is missing, and make it
    /// the active file.
    Open { path: String },
    /// Append `line` to the active file.
    Append { line: String },
}

/// A file operation as a plain value.
pub enum Op {
    Rename { from: Seq<char>, to: Seq<char> },
    Open { path: Seq<char> },
    Append { line: Seq<char> },
}

impl View for FileOp {
    type V = Op;

    open spec fn view(&self) -> Op {
        match self {
            FileOp::Rename { from, to } => Op::Rename { from: from@, to: to@ },
            FileOp::Open { path } => Op::Open { path: path@ },
            FileOp::Append { line } => Op::Append { line: line@ },
        }
    }
}

impl DeepView for FileOp {
    type V = Op;

    open spec fn deep_view(&self) -> Op {
        self@
    }
}

impl Op {
    /// The error that a failure of this operation means: a record that
    /// cannot be written is a write error, anything else belongs to rotation.
    pub open spec fn failure(self) -> LoggerError {
        match self {
            Op::Append { .. } => LoggerError::Write,
            _ => LoggerError::Rotate,
        }
    }
}

impl FileOp {
    /// The error to report when this operation, asked for by a logging call,
    /// has failed.
    pub fn failure(&self) -> (e: LoggerError)
        ensures
            e == self@.failure(),
    {
        match self {
            FileOp::Append { .. } => LoggerError::Write,
            _ => LoggerError::Rotate,
        }
    }
}

} // verus!
