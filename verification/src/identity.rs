//! A process, told apart from any other that reuses its number.

use vstd::prelude::*;

verus! {

/// A process: its pid, and when it started.
#[derive(Debug, Clone, Copy, PartialEq, Eq, Structural)]
pub struct ProcessId {
    pub pid: u32,
    pub started: u64,
}

/// What the host answers when asked which process holds a pid.
#[derive(Debug, Clone, Copy, PartialEq, Eq, Structural)]
pub enum Resolved {
    /// This one.
    Found(ProcessId),
    /// No process does.
    Gone,
    /// The host refused to say.
    Unknown,
}

} // verus!
