//! What containment means in the words of a Windows spawn: creation flags, and what they settle.

use vstd::prelude::*;

use crate::graceful::GracefulMechanism;

verus! {

pub const DEBUG_PROCESS: u32 = 0x0000_0001;

pub const DEBUG_ONLY_THIS_PROCESS: u32 = 0x0000_0002;

pub const CREATE_SUSPENDED: u32 = 0x0000_0004;

pub const DETACHED_PROCESS: u32 = 0x0000_0008;

pub const CREATE_NEW_CONSOLE: u32 = 0x0000_0010;

pub const CREATE_NEW_PROCESS_GROUP: u32 = 0x0000_0200;

pub const CREATE_UNICODE_ENVIRONMENT: u32 = 0x0000_0400;

pub const EXTENDED_STARTUPINFO_PRESENT: u32 = 0x0008_0000;

pub const CREATE_BREAKAWAY_FROM_JOB: u32 = 0x0100_0000;

pub const CREATE_NO_WINDOW: u32 = 0x0800_0000;

/// The Win32 code of a refused access.
pub const ERROR_ACCESS_DENIED: i32 = 5;

/// The same refusal as an `HRESULT`.
pub const E_ACCESSDENIED: i32 = -2147024891;

/// Whether the job object this process belongs to lets a child break away from it.
#[derive(Debug, Clone, Copy, PartialEq, Eq, Structural)]
pub enum JobBreakaway {
    /// This process is in a job that sets neither breakaway limit.
    Forbidden,
    /// This process is in a job that permits breakaway.
    Permitted,
    /// This process is in no job.
    NotInJob,
    /// The job could not be queried.
    Unknown,
}

/// The flags of a contained root that a job object is to hold: spawned suspended, so that the job is
/// assigned before it runs, and leading a process group.
pub open spec fn spec_root_flags() -> u32 {
    CREATE_SUSPENDED | CREATE_NEW_PROCESS_GROUP
}

/// The flags of a contained root that a job object is to hold.
pub fn root_flags() -> (f: u32)
    ensures
        f == spec_root_flags(),
{
    CREATE_SUSPENDED | CREATE_NEW_PROCESS_GROUP
}

/// The flags of every other contained spawn: it leads a process group.
pub fn group_flags() -> (f: u32)
    ensures
        f == CREATE_NEW_PROCESS_GROUP,
{
    CREATE_NEW_PROCESS_GROUP
}

/// The flags that take a child out of this process's console.
pub open spec fn spec_console_leaving() -> u32 {
    CREATE_NO_WINDOW | DETACHED_PROCESS | CREATE_NEW_CONSOLE
}

/// The mechanism that the creation flags `flags` leave. It reads four bits: the one that makes the
/// child lead a process group, and the three that take it out of this process's console.
pub open spec fn spec_mechanism_from_flags(flags: u32) -> GracefulMechanism {
    if flags & CREATE_NEW_PROCESS_GROUP == 0 {
        GracefulMechanism::NoGroup
    } else if flags & spec_console_leaving() != 0 {
        GracefulMechanism::OtherConsoleGroup
    } else {
        GracefulMechanism::ConsoleGroup
    }
}

/// The mechanism that the creation flags `flags` leave.
pub fn mechanism_from_flags(flags: u32) -> (m: GracefulMechanism)
    ensures
        m == spec_mechanism_from_flags(flags),
{
    if flags & CREATE_NEW_PROCESS_GROUP == 0 {
        GracefulMechanism::NoGroup
    } else if flags & (CREATE_NO_WINDOW | DETACHED_PROCESS | CREATE_NEW_CONSOLE) != 0 {
        GracefulMechanism::OtherConsoleGroup
    } else {
        GracefulMechanism::ConsoleGroup
    }
}

/// The mechanism depends on the four bits alone: whatever else a backend sets or clears in the word
/// leaves it as it was.
pub proof fn law_mechanism_reads_four_bits(a: u32, b: u32)
    requires
        a & (CREATE_NEW_PROCESS_GROUP | spec_console_leaving()) == b & (CREATE_NEW_PROCESS_GROUP
            | spec_console_leaving()),
    ensures
        spec_mechanism_from_flags(a) == spec_mechanism_from_flags(b),
{
    assert(a & CREATE_NEW_PROCESS_GROUP == b & CREATE_NEW_PROCESS_GROUP && a
        & spec_console_leaving() == b & spec_console_leaving()) by (bit_vector)
        requires
            a & (CREATE_NEW_PROCESS_GROUP | spec_console_leaving()) == b & (CREATE_NEW_PROCESS_GROUP
                | spec_console_leaving()),
    ;
}

/// What each of the four bits means, whatever else the word holds. Without the group bit the child
/// leads no group; with it, it leads one. Any one of the three console bits takes a leader out of this
/// process's console, and only they do. No word leaves a mechanism that is not read off its flags.
pub proof fn law_what_the_four_bits_mean(flags: u32)
    ensures
        spec_mechanism_from_flags(flags & !0x200u32) == GracefulMechanism::NoGroup,
        spec_mechanism_from_flags(flags | 0x200) != GracefulMechanism::NoGroup,
        spec_mechanism_from_flags(flags | 0x200 | 0x0800_0000) == GracefulMechanism::OtherConsoleGroup,
        spec_mechanism_from_flags(flags | 0x200 | 0x8) == GracefulMechanism::OtherConsoleGroup,
        spec_mechanism_from_flags(flags | 0x200 | 0x10) == GracefulMechanism::OtherConsoleGroup,
        spec_mechanism_from_flags((flags | 0x200) & !0x0800_0018u32)
            == GracefulMechanism::ConsoleGroup,
        spec_mechanism_from_flags(flags) == GracefulMechanism::NoGroup
            || spec_mechanism_from_flags(flags) == GracefulMechanism::ConsoleGroup
            || spec_mechanism_from_flags(flags) == GracefulMechanism::OtherConsoleGroup,
{
    assert(spec_console_leaving() == 0x0800_0018) by {
        assert(CREATE_NO_WINDOW | DETACHED_PROCESS | CREATE_NEW_CONSOLE == 0x0800_0018u32)
            by (bit_vector);
    }
    assert((flags & !0x200u32) & 0x200 == 0 && (flags | 0x200) & 0x200 != 0) by (bit_vector);
    assert((flags | 0x200 | 0x0800_0000) & 0x200 != 0 && (flags | 0x200 | 0x0800_0000) & 0x0800_0018
        != 0 && (flags | 0x200 | 0x8) & 0x200 != 0 && (flags | 0x200 | 0x8) & 0x0800_0018 != 0 && (
    flags | 0x200 | 0x10) & 0x200 != 0 && (flags | 0x200 | 0x10) & 0x0800_0018 != 0)
        by (bit_vector);
    assert(((flags | 0x200) & !0x0800_0018u32) & 0x200 != 0 && ((flags | 0x200) & !0x0800_0018u32)
        & 0x0800_0018 == 0) by (bit_vector);
}

} // verus!
