//! How a child can be asked to stop.

use vstd::prelude::*;

verus! {

/// The route by which a cooperative stop reaches a child. A statement about the route, never an
/// authority on whether a signal will arrive.
#[derive(Debug, Clone, Copy, PartialEq, Eq, Structural)]
pub enum GracefulMechanism {
    /// The child leads no group that a console event could be sent to.
    NoGroup,
    /// The child leads a process group; whether it shares this process's console depends on its
    /// image too.
    ConsoleGroup,
    /// The child leads a process group, in a console of its own or in none.
    OtherConsoleGroup,
    /// A signal to the child itself.
    Process,
    /// The child was created by something else, and nothing is recorded of it.
    Unknown,
}

} // verus!
