//! What a caller asks for when a child is to run elevated.

use vstd::prelude::*;

verus! {

/// What raises a child's privileges.
#[derive(Debug, Clone, Copy, PartialEq, Eq, Structural)]
pub enum Backend {
    /// Whatever the host offers.
    Auto,
    Sudo,
    Doas,
    Run0,
    Pkexec,
    Osascript,
}

/// How the backend is authenticated to.
#[derive(Debug)]
pub enum Auth {
    /// The backend asks the user.
    Interactive,
    /// The backend reads this password from the child's standard input, which it then needs for
    /// itself.
    Stdin(Vec<u8>),
}

/// A request to run a child elevated. `S` filters the environment variables that are forwarded
/// explicitly; `None` is the default filter.
#[derive(Debug)]
pub struct ElevationRequest<S> {
    pub enabled: bool,
    pub backend: Backend,
    pub auth: Auth,
    pub sanitizer: Option<S>,
}

impl<S> ElevationRequest<S> {
    /// No elevation; if it is asked for, it is automatic and interactive.
    pub fn new() -> (r: ElevationRequest<S>)
        ensures
            r == (ElevationRequest::<S> {
                enabled: false,
                backend: Backend::Auto,
                auth: Auth::Interactive,
                sanitizer: None,
            }),
    {
        ElevationRequest {
            enabled: false,
            backend: Backend::Auto,
            auth: Auth::Interactive,
            sanitizer: None,
        }
    }
}

} // verus!
