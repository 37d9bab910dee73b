//! The library's error type.

use vstd::prelude::*;

use crate::errno::OsError;

verus! {

/// Why an operation failed.
#[derive(Debug)]
pub enum Error {
    /// An operating-system call failed.
    Io(OsError),
    /// The operation is not offered for this child, or on this platform.
    Unsupported { op: String, platform: String, detail: String },
    /// Containment could not be established or decided.
    Containment { detail: String },
    /// A fact the operation rests on could not be read.
    Unassessable { detail: String },
    /// A bare pipe on a descriptor that has no direction by convention.
    AmbiguousPipe { fd: u32 },
}

impl Error {
    /// Whether the error is `Unsupported` with these parts.
    pub open spec fn is_unsupported(
        self,
        op: Seq<char>,
        platform: Seq<char>,
        detail: Seq<char>,
    ) -> bool {
        self matches Error::Unsupported { op: o, platform: p, detail: d } && o@ == op && p@
            == platform && d@ == detail
    }

    /// Whether the error is `Containment` with this detail.
    pub open spec fn is_containment(self, detail: Seq<char>) -> bool {
        self matches Error::Containment { detail: d } && d@ == detail
    }

    /// Whether the error is `Unassessable` with this detail.
    pub open spec fn is_unassessable(self, detail: Seq<char>) -> bool {
        self matches Error::Unassessable { detail: d } && d@ == detail
    }
}

} // verus!
