//! Severity levels and their labels in a record.

use vstd::prelude::*;

verus! {

/// The severity of a message.
#[derive(Clone, Copy, Debug, PartialEq, Eq, Structural)]
pub enum LogLevel {
    Info,
    Warn,
    Error,
}

impl LogLevel {
    /// The label that stands for this level in a record.
    pub open spec fn label(self) -> Seq<char> {
        match self {
            LogLevel::Info => seq!['I', 'N', 'F', 'O'],
            LogLevel::Warn => seq!['W', 'A', 'R', 'N'],
            LogLevel::Error => seq!['E', 'R', 'R', 'O', 'R'],
        }
    }

    /// Returns the label of this level: `INFO`, `WARN` or `ERROR`.
    pub fn as_str(&self) -> (s: &str)
        ensures
            s@ == self.label(),
    {
        proof {
            reveal_strlit("INFO");
            reveal_strlit("WARN");
            reveal_strlit("ERROR");
        }
        match self {
            LogLevel::Info => {
                assert("INFO"@ =~= LogLevel::Info.label());
                "INFO"
            },
            LogLevel::Warn => {
                assert("WARN"@ =~= LogLevel::Warn.label());
                "WARN"
            },
            LogLevel::Error => {
                assert("ERROR"@ =~= LogLevel::Error.label());
                "ERROR"
            },
        }
    }
}

} // verus!
