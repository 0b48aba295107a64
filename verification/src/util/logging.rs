//! How much the program logs.

use vstd::prelude::*;

verus! {

/// How much the program logs.
#[derive(Debug, Clone, Copy, PartialEq, Eq, Structural)]
pub enum LogVerbosity {
    Normal,
    Verbose,
    Debug,
}

impl LogVerbosity {
    /// The verbosity that `count` flags ask for: none is normal, one is
    /// verbose, more is debug.
    pub fn from_count(count: u8) -> (v: Self)
        ensures
            v == if count == 0 {
                LogVerbosity::Normal
            } else if count == 1 {
                LogVerbosity::Verbose
            } else {
                LogVerbosity::Debug
            },
    {
        if count == 0 {
            LogVerbosity::Normal
        } else if count == 1 {
            LogVerbosity::Verbose
        } else {
            LogVerbosity::Debug
        }
    }
}

} // verus!
