//! Errors of the operating system, as plain values, and the errnos the library decides on.

use vstd::prelude::*;

verus! {

/// No such file or directory.
pub const ENOENT: i32 = 2;

/// No such process.
pub const ESRCH: i32 = 3;

/// Interrupted system call.
pub const EINTR: i32 = 4;

/// Input/output error.
pub const EIO: i32 = 5;

/// No child processes.
pub const ECHILD: i32 = 10;

/// Try again.
pub const EAGAIN: i32 = 11;

/// Out of memory.
pub const ENOMEM: i32 = 12;

/// Device or resource busy.
pub const EBUSY: i32 = 16;

/// File exists.
pub const EEXIST: i32 = 17;

/// Cross-device link.
pub const EXDEV: i32 = 18;

/// No such device.
pub const ENODEV: i32 = 19;

/// Broken pipe.
pub const EPIPE: i32 = 32;

/// Message too long.
pub const EMSGSIZE: i32 = 90;

/// Operation canceled.
pub const ECANCELED: i32 = 125;

/// What an [`OsError`] is an instance of.
#[derive(Debug, Clone, Copy, PartialEq, Eq, Structural)]
pub enum ErrorKind {
    /// Whatever the operating system's own error is.
    Os,
    /// Data that is not of the expected form.
    InvalidData,
    /// None of the others.
    Other,
}

/// An error of an operating-system call, or one made in its image: its errno where it has one, and
/// its text.
#[derive(Debug)]
pub struct OsError {
    pub errno: Option<i32>,
    pub kind: ErrorKind,
    pub text: String,
}

/// The text of the operating system's error `errno`, by `std::io::Error::from_raw_os_error` and its
/// `Display`. Nothing is claimed of the text: it is the host's.
#[verifier::external_body]
fn os_error_text(errno: i32) -> String {
    std::io::Error::from_raw_os_error(errno).to_string()
}

/// Whether `text` is one that the host gives for `errno`. A host may give another at another time.
pub closed spec fn is_os_error_text(errno: i32, text: Seq<char>) -> bool {
    exists|given: String| #[trigger] call_ensures(os_error_text, (errno,), given) && given@ == text
}

/// The host's text for `errno`. The call goes through a value, so that what it returned is known to be
/// a result of that call.
pub(crate) fn host_text(errno: i32) -> (text: String)
    ensures
        is_os_error_text(errno, text@),
{
    let ask = os_error_text;
    ask(errno)
}

/// What `nix::errno::Errno::from_raw(errno)` displays.
pub uninterp spec fn nix_errno_text(errno: i32) -> Seq<char>;

/// The name and description of `errno`, from the static table behind `nix::errno::Errno`'s
/// `Display`, a function of the number alone.
#[verifier::external_body]
pub(crate) fn errno_text(errno: i32) -> (text: String)
    ensures
        text@ == nix_errno_text(errno),
{
    nix::errno::Errno::from_raw(errno).to_string()
}

impl OsError {
    /// The operating system's error `errno`.
    pub fn from_raw_os_error(errno: i32) -> (e: OsError)
        ensures
            e.errno == Some(errno),
            e.kind == ErrorKind::Os,
            is_os_error_text(errno, e.text@),
    {
        OsError { errno: Some(errno), kind: ErrorKind::Os, text: host_text(errno) }
    }

    /// An error with a text and no errno.
    pub fn other(text: String) -> (e: OsError)
        ensures
            e.errno is None,
            e.kind == ErrorKind::Other,
            e.text == text,
    {
        OsError { errno: None, kind: ErrorKind::Other, text }
    }

    /// The errno, where the error has one.
    pub fn raw_os_error(&self) -> (errno: Option<i32>)
        ensures
            errno == self.errno,
    {
        self.errno
    }

    /// Whether the error is `errno`.
    pub fn is_errno(&self, errno: i32) -> (r: bool)
        ensures
            r == (self.errno == Some(errno)),
    {
        match self.errno {
            Some(e) => e == errno,
            None => false,
        }
    }
}

/// Whether `e` proves a cgroup leaf gone.
pub open spec fn gone(e: OsError) -> bool {
    e.errno == Some(ENODEV) || e.errno == Some(ENOENT)
}

/// Whether `e` is the kernel's proof that a leaf is already gone: either the whole path was already
/// removed (`ENOENT`, on a fresh open through the unlinked directory), or a descriptor opened before
/// the removal has had its node deactivated (`ENODEV`).
///
/// A cgroup v2 leaf can be removed only once it has no member, so its removal proves that every
/// member had exited. No other errno does.
pub fn removed_after_drain(e: &OsError) -> (r: bool)
    ensures
        r == gone(*e),
{
    e.is_errno(ENODEV) || e.is_errno(ENOENT)
}

/// The two proofs of a leaf's removal, by their numbers: a path that is not there any more, and a node
/// that is. No other errno is one, and an error without an errno is none.
pub proof fn law_two_errnos_prove_a_leaf_gone(e: OsError, other: OsError)
    ensures
        gone(e) <==> (e.errno matches Some(code) && (code == 2 || code == 19)),
        // What else the error says does not matter.
        e.errno == other.errno ==> gone(e) == gone(other),
{
}

} // verus!
