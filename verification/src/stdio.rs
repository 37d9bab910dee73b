//! Where a child's descriptors lead.

use vstd::prelude::*;

use crate::error::Error;

verus! {

/// The standard input's descriptor.
pub const STDIN: u32 = 0;

/// The standard output's descriptor.
pub const STDOUT: u32 = 1;

/// The standard error's descriptor.
pub const STDERR: u32 = 2;

/// What a caller wires a descriptor to. `F` is an open file.
#[derive(Debug)]
pub enum Stdio<F> {
    /// The parent's own stream.
    Inherit,
    /// Nothing.
    Null,
    /// A pipe, in the direction that the descriptor's number has by convention.
    Pipe,
    /// A pipe that the child reads.
    PipeIn,
    /// A pipe that the child writes.
    PipeOut,
    /// Whatever another descriptor leads to.
    Merge(u32),
    File(F),
}

/// What a descriptor is wired to, its direction settled.
#[derive(Debug)]
pub enum ResolvedStdio<F> {
    Inherit,
    Null,
    /// A pipe that the child reads.
    PipeIn,
    /// A pipe that the child writes.
    PipeOut,
    Merge(u32),
    File(F),
}

impl<F> Stdio<F> {
    /// The target, its direction settled for the descriptor `slot`. A bare pipe is read on the
    /// standard input and written on the other two; on any other descriptor it has no direction.
    pub open spec fn spec_resolve(self, slot: u32) -> Option<ResolvedStdio<F>> {
        match self {
            Stdio::Inherit => Some(ResolvedStdio::Inherit),
            Stdio::Null => Some(ResolvedStdio::Null),
            Stdio::Pipe => if slot == STDIN {
                Some(ResolvedStdio::PipeIn)
            } else if slot == STDOUT || slot == STDERR {
                Some(ResolvedStdio::PipeOut)
            } else {
                None
            },
            Stdio::PipeIn => Some(ResolvedStdio::PipeIn),
            Stdio::PipeOut => Some(ResolvedStdio::PipeOut),
            Stdio::Merge(fd) => Some(ResolvedStdio::Merge(fd)),
            Stdio::File(file) => Some(ResolvedStdio::File(file)),
        }
    }

    /// Settle the target's direction for the descriptor `slot`.
    pub fn resolve(self, slot: u32) -> (r: Result<ResolvedStdio<F>, Error>)
        ensures
            match r {
                Ok(resolved) => self.spec_resolve(slot) == Some(resolved),
                Err(e) => self.spec_resolve(slot) is None && e == (Error::AmbiguousPipe {
                    fd: slot,
                }),
            },
    {
        match self {
            Stdio::Inherit => Ok(ResolvedStdio::Inherit),
            Stdio::Null => Ok(ResolvedStdio::Null),
            Stdio::Pipe => if slot == STDIN {
                Ok(ResolvedStdio::PipeIn)
            } else if slot == STDOUT || slot == STDERR {
                Ok(ResolvedStdio::PipeOut)
            } else {
                Err(Error::AmbiguousPipe { fd: slot })
            },
            Stdio::PipeIn => Ok(ResolvedStdio::PipeIn),
            Stdio::PipeOut => Ok(ResolvedStdio::PipeOut),
            Stdio::Merge(fd) => Ok(ResolvedStdio::Merge(fd)),
            Stdio::File(file) => Ok(ResolvedStdio::File(file)),
        }
    }
}

/// Only a bare pipe takes its direction from the descriptor's number: it is read on 0 and written on 1
/// and 2, and on no other descriptor has one. Every other target resolves on every descriptor, to the
/// same, and keeps what it carries: two of them that resolve alike are alike.
pub proof fn law_only_a_bare_pipe_depends_on_its_descriptor<F>(
    target: Stdio<F>,
    other: Stdio<F>,
    slot: u32,
    elsewhere: u32,
)
    ensures
        target is Pipe ==> {
            &&& target.spec_resolve(slot) is None <==> slot > 2
            &&& slot == 0 ==> (target.spec_resolve(slot) matches Some(r) && r is PipeIn)
            &&& slot == 1 || slot == 2 ==> (target.spec_resolve(slot) matches Some(r) && r is PipeOut)
        },
        !(target is Pipe) ==> {
            &&& target.spec_resolve(slot) == target.spec_resolve(elsewhere)
            &&& target.spec_resolve(slot) matches Some(r) && {
                &&& r is Inherit <==> target is Inherit
                &&& r is Null <==> target is Null
                &&& r is PipeIn <==> target is PipeIn
                &&& r is PipeOut <==> target is PipeOut
                &&& target matches Stdio::Merge(fd) ==> r == ResolvedStdio::<F>::Merge(fd)
                &&& target matches Stdio::File(file) ==> r == ResolvedStdio::<F>::File(file)
            }
        },
        !(target is Pipe) && !(other is Pipe) && target.spec_resolve(slot) == other.spec_resolve(slot)
            ==> target == other,
{
}

} // verus!
