//! Removing a leaf once its handle is dropped.
//!
//! A leaf is killed through only where something of the child's may be in it: a final report other
//! than a placement proves that nothing is, and whatever keeps such a leaf from being removed is not
//! this library's to kill. While the report is still in flight nothing proves the child absent. A
//! leaf that outlives its removal is reported, once: nothing revisits a leaf by name.

use vstd::prelude::*;
use vstd::string::*;

use crate::containment::cgroup::degrade::PlacementReport;
use crate::errno;
use crate::errno::{removed_after_drain, OsError};
use crate::report::{Level, Record};

verus! {

/// What is known, at its drop, of whether the child entered its leaf.
#[derive(Debug, Clone, Copy, PartialEq, Eq, Structural)]
pub enum AtDrop {
    /// It is settled whether the child entered.
    Settled(bool),
    /// The exchange was shut with nothing received: a child that has not reported never execs now, and
    /// nothing of its is in the leaf.
    Abandoned,
    /// The child's report is still in flight.
    InFlight,
}

/// What is known of a leaf's child at the drop. `entered` is what the verdict recorded, and stands
/// where the verdict was taken. Before it, `report` is what the channel held: something received is
/// final, whether or not the exchange was shut; nothing received is final only where it was `shut`, so
/// that a child that has not reported can no longer exec.
pub open spec fn spec_at_drop(
    entered: bool,
    report: Option<PlacementReport>,
    shut: bool,
) -> AtDrop {
    match report {
        None => AtDrop::Settled(entered),
        Some(PlacementReport::Placed) => AtDrop::Settled(true),
        Some(PlacementReport::WriteFailed(_)) => AtDrop::Settled(false),
        Some(PlacementReport::NotReported) => if shut {
            AtDrop::Abandoned
        } else {
            AtDrop::InFlight
        },
    }
}

/// What is known of a leaf's child at the drop. See [`spec_at_drop`].
pub fn at_drop(entered: bool, report: Option<PlacementReport>, shut: bool) -> (a: AtDrop)
    ensures
        a == spec_at_drop(entered, report, shut),
{
    match report {
        None => AtDrop::Settled(entered),
        Some(PlacementReport::Placed) => AtDrop::Settled(true),
        Some(PlacementReport::WriteFailed(_)) => AtDrop::Settled(false),
        Some(PlacementReport::NotReported) => if shut {
            AtDrop::Abandoned
        } else {
            AtDrop::InFlight
        },
    }
}

/// What was done to a leaf between the two tries to remove it.
#[derive(Debug)]
pub enum Emptied {
    /// It was killed through, it drained, and its child cgroups were swept.
    Drained,
    /// `cgroup.kill` could not be written.
    KillFailed(OsError),
    /// It was killed through, but its drain could not be watched.
    DrainUnwatched(OsError),
    /// It was killed through and it drained, but a child cgroup could not be removed.
    SweepFailed(OsError),
}

/// Why a leaf stays behind.
#[derive(Debug)]
pub enum LeftBehind {
    /// It could not be removed, and nothing of the child's is in it to be killed.
    NotEntered(OsError),
    /// As before, and a child cgroup of it could not be removed either.
    UnenteredSweep(OsError, OsError),
    /// It could not be removed, and its tree was detached to run on.
    Detached(OsError),
    /// It could not be removed, was emptied, and could not be removed then either.
    Refused { first: OsError, emptied: Emptied, second: OsError },
    /// Its creation failed for `cause`, and it could not be removed.
    Unwound { cause: String, rmdir: OsError },
    /// It could not be removed with the child's report in flight; nothing was left to kill or
    /// remove.
    NothingLeft(OsError),
    /// As before, but whether it was re-entered could not be read.
    ReentryUnread(OsError, OsError),
    /// It could not be removed with the child's report in flight, for another reason than its
    /// members.
    Unkillable(OsError),
    /// As before, and `cgroup.kill` could not be written.
    InFlightKill(OsError, OsError),
    /// As before, and its drain could not be watched.
    InFlightDrain(OsError, OsError),
    /// As before, and a child cgroup could not be removed.
    InFlightSweep(OsError, OsError),
}

/// What the second try met, in words.
pub open spec fn emptied_text(emptied: Emptied) -> Seq<char> {
    match emptied {
        Emptied::Drained => "succeeded"@,
        Emptied::KillFailed(e) => "failed ("@ + e.text@ + ")"@,
        Emptied::DrainUnwatched(e) => "succeeded but its drain could not be watched ("@ + e.text@
            + ")"@,
        Emptied::SweepFailed(e) => "succeeded but a child cgroup could not be removed ("@ + e.text@
            + ")"@,
    }
}

/// What can hold a leaf that drained and was swept.
pub const HOLDERS: &'static str =
    ": a process moved into it after the kill, a child cgroup made in it since, or a mount on it can hold it";

fn push_error(s: &mut String, e: &OsError)
    ensures
        final(s)@ == old(s)@ + "("@ + e.text@ + ")"@,
{
    s.append("(");
    s.append(e.text.as_str());
    s.append(")");
}

impl LeftBehind {
    /// How loudly the leaf is reported. One left for a detached tree is what the caller asked for;
    /// every other is a leak.
    pub open spec fn spec_level(self) -> Level {
        if self is Detached {
            Level::Debug
        } else {
            Level::Warn
        }
    }

    /// What failed, in words.
    pub open spec fn text(self) -> Seq<char> {
        match self {
            LeftBehind::NotEntered(first) => "rmdir failed "@ + "("@ + first.text@ + ")"@
                + "; cgroup.kill not written: nothing of the child's is in it"@,
            LeftBehind::UnenteredSweep(first, e) => "rmdir failed "@ + "("@ + first.text@ + ")"@
                + "; cgroup.kill not written: nothing of the child's is in it"@
                + "; a child cgroup could not be removed "@ + "("@ + e.text@ + ")"@,
            LeftBehind::Detached(first) => "rmdir failed "@ + "("@ + first.text@ + ")"@
                + "; cgroup.kill not written: its tree was detached to run on"@,
            LeftBehind::Refused { first, emptied, second } => "first rmdir failed "@ + "("@
                + first.text@ + ")"@ + ", cgroup.kill "@ + emptied_text(emptied)
                + ", second rmdir failed "@ + "("@ + second.text@ + ")"@ + (if emptied is Drained {
                HOLDERS@
            } else {
                ""@
            }),
            LeftBehind::Unwound { cause, rmdir } => "rmdir failed "@ + "("@ + rmdir.text@ + ")"@
                + " after its creation failed ("@ + cause@ + ")"@,
            LeftBehind::NothingLeft(occupied) => in_flight_text(occupied)
                + "nothing was left to kill or remove"@,
            LeftBehind::ReentryUnread(occupied, e) => in_flight_text(occupied)
                + "whether it was re-entered could not be read "@ + "("@ + e.text@ + ")"@,
            LeftBehind::Unkillable(occupied) => in_flight_text(occupied)
                + "cgroup.kill succeeded"@,
            LeftBehind::InFlightKill(occupied, e) => in_flight_text(occupied)
                + "cgroup.kill failed "@ + "("@ + e.text@ + ")"@,
            LeftBehind::InFlightDrain(occupied, e) => in_flight_text(occupied)
                + "its drain could not be watched "@ + "("@ + e.text@ + ")"@,
            LeftBehind::InFlightSweep(occupied, e) => in_flight_text(occupied)
                + "a child cgroup could not be removed "@ + "("@ + e.text@ + ")"@,
        }
    }

    /// What failed, in words.
    pub fn to_string(&self) -> (s: String)
        ensures
            s@ == self.text(),
    {
        match self {
            LeftBehind::NotEntered(first) => {
                let mut s = "rmdir failed ".to_owned();
                push_error(&mut s, first);
                s.append("; cgroup.kill not written: nothing of the child's is in it");
                s
            },
            LeftBehind::UnenteredSweep(first, e) => {
                let mut s = "rmdir failed ".to_owned();
                push_error(&mut s, first);
                s.append("; cgroup.kill not written: nothing of the child's is in it");
                s.append("; a child cgroup could not be removed ");
                push_error(&mut s, e);
                s
            },
            LeftBehind::Detached(first) => {
                let mut s = "rmdir failed ".to_owned();
                push_error(&mut s, first);
                s.append("; cgroup.kill not written: its tree was detached to run on");
                s
            },
            LeftBehind::Refused { first, emptied, second } => {
                let mut s = "first rmdir failed ".to_owned();
                push_error(&mut s, first);
                s.append(", cgroup.kill ");
                let how = Self::emptied_words(emptied);
                s.append(how.as_str());
                s.append(", second rmdir failed ");
                push_error(&mut s, second);
                let holders = match emptied {
                    Emptied::Drained => HOLDERS,
                    _ => "",
                };
                s.append(holders);
                s
            },
            LeftBehind::Unwound { cause, rmdir } => {
                let mut s = "rmdir failed ".to_owned();
                push_error(&mut s, rmdir);
                s.append(" after its creation failed (");
                s.append(cause.as_str());
                s.append(")");
                s
            },
            LeftBehind::NothingLeft(occupied) => {
                let mut s = Self::in_flight_words(occupied);
                s.append("nothing was left to kill or remove");
                s
            },
            LeftBehind::ReentryUnread(occupied, e) => {
                let mut s = Self::in_flight_words(occupied);
                s.append("whether it was re-entered could not be read ");
                push_error(&mut s, e);
                s
            },
            LeftBehind::Unkillable(occupied) => {
                let mut s = Self::in_flight_words(occupied);
                s.append("cgroup.kill succeeded");
                s
            },
            LeftBehind::InFlightKill(occupied, e) => {
                let mut s = Self::in_flight_words(occupied);
                s.append("cgroup.kill failed ");
                push_error(&mut s, e);
                s
            },
            LeftBehind::InFlightDrain(occupied, e) => {
                let mut s = Self::in_flight_words(occupied);
                s.append("its drain could not be watched ");
                push_error(&mut s, e);
                s
            },
            LeftBehind::InFlightSweep(occupied, e) => {
                let mut s = Self::in_flight_words(occupied);
                s.append("a child cgroup could not be removed ");
                push_error(&mut s, e);
                s
            },
        }
    }

    fn emptied_words(emptied: &Emptied) -> (s: String)
        ensures
            s@ == emptied_text(*emptied),
    {
        match emptied {
            Emptied::Drained => "succeeded".to_owned(),
            Emptied::KillFailed(e) => {
                let mut s = "failed (".to_owned();
                s.append(e.text.as_str());
                s.append(")");
                s
            },
            Emptied::DrainUnwatched(e) => {
                let mut s = "succeeded but its drain could not be watched (".to_owned();
                s.append(e.text.as_str());
                s.append(")");
                s
            },
            Emptied::SweepFailed(e) => {
                let mut s = "succeeded but a child cgroup could not be removed (".to_owned();
                s.append(e.text.as_str());
                s.append(")");
                s
            },
        }
    }

    fn in_flight_words(occupied: &OsError) -> (s: String)
        ensures
            s@ == in_flight_text(*occupied),
    {
        let mut s = "rmdir failed ".to_owned();
        push_error(&mut s, occupied);
        s.append(" with the child's report in flight; ");
        s
    }

    /// The record of a leaf that could not be removed.
    pub fn warn_leaf_left_behind(&self, leaf_path: &str) -> (r: Record)
        ensures
            r.level == self.spec_level(),
            r.message@ == "cgroup leaf "@ + leaf_path@ + " was not removed: "@ + self.text()
                + "; it stays on this host until a cgroup manager reaps it"@,
    {
        let mut message = "cgroup leaf ".to_owned();
        message.append(leaf_path);
        message.append(" was not removed: ");
        let what_failed = self.to_string();
        message.append(what_failed.as_str());
        message.append("; it stays on this host until a cgroup manager reaps it");
        let level = match self {
            LeftBehind::Detached(_) => Level::Debug,
            _ => Level::Warn,
        };
        Record { level, message }
    }
}

/// How a record of a leaf with its child's report in flight begins.
pub open spec fn in_flight_text(occupied: OsError) -> Seq<char> {
    "rmdir failed "@ + "("@ + occupied.text@ + ")"@ + " with the child's report in flight; "@
}

/// What the removal of a leaf goes by.
#[derive(Debug, Clone, Copy, PartialEq, Eq, Structural)]
pub struct LeafFlags {
    /// Whether the child entered the leaf.
    pub entered: bool,
    /// Whether the drop may kill. A detached leaf is disarmed.
    pub armed: bool,
    /// Whether the tree has already been killed through the leaf.
    pub killed: bool,
}

/// The removal of a leaf whose membership is settled: what to do next, or how it ended.
#[derive(Debug)]
pub enum Removing {
    /// Remove the directory.
    First,
    /// Kill through the leaf: removing it failed with this.
    Kill(OsError),
    /// Wait for the leaf to drain.
    Drain(OsError),
    /// Remove the child cgroups.
    Sweep(OsError),
    /// Remove the directory again.
    Second(OsError, Emptied),
    /// Nothing is left behind.
    Gone,
    Left(LeftBehind),
}

/// What the host answered. Every answer is to what was asked last.
#[derive(Debug)]
pub enum RemovalAnswer {
    Removed(Result<(), OsError>),
    Killed(Result<(), OsError>),
    Drained(Result<(), OsError>),
    /// How many child cgroups were removed.
    Swept(Result<usize, OsError>),
    /// Whether the leaf has a member again.
    Repopulated(Result<bool, OsError>),
}

impl Removing {
    /// How the removal goes on. An answer to something that was not asked changes nothing.
    pub open spec fn spec_on(self, flags: LeafFlags, answer: RemovalAnswer) -> Removing {
        match (self, answer) {
            (Removing::First, RemovalAnswer::Removed(Ok(()))) => Removing::Gone,
            (Removing::First, RemovalAnswer::Removed(Err(first))) => if errno::gone(first) {
                Removing::Gone
            } else if !flags.entered {
                Removing::Left(LeftBehind::NotEntered(first))
            } else if flags.armed {
                Removing::Kill(first)
            } else if flags.killed {
                // The caller's own kill is still draining.
                Removing::Drain(first)
            } else {
                Removing::Left(LeftBehind::Detached(first))
            },
            (Removing::Kill(first), RemovalAnswer::Killed(Ok(()))) => Removing::Drain(first),
            (Removing::Kill(first), RemovalAnswer::Killed(Err(e))) => Removing::Second(
                first,
                Emptied::KillFailed(e),
            ),
            (Removing::Drain(first), RemovalAnswer::Drained(Ok(()))) => Removing::Sweep(first),
            (Removing::Drain(first), RemovalAnswer::Drained(Err(e))) => Removing::Second(
                first,
                Emptied::DrainUnwatched(e),
            ),
            (Removing::Sweep(first), RemovalAnswer::Swept(Ok(_))) => Removing::Second(
                first,
                Emptied::Drained,
            ),
            (Removing::Sweep(first), RemovalAnswer::Swept(Err(e))) => Removing::Second(
                first,
                Emptied::SweepFailed(e),
            ),
            (Removing::Second(..), RemovalAnswer::Removed(Ok(()))) => Removing::Gone,
            (Removing::Second(first, emptied), RemovalAnswer::Removed(Err(second))) =>
                // Another party having removed it means that it left nothing behind.
                if errno::gone(second) {
                    Removing::Gone
                } else {
                    Removing::Left(LeftBehind::Refused { first, emptied, second })
                },
            _ => self,
        }
    }

    /// Begin to remove a leaf.
    pub fn start() -> (r: Removing)
        ensures
            r == Removing::First,
    {
        Removing::First
    }

    /// Go on with what the host answered.
    pub fn on(self, flags: LeafFlags, answer: RemovalAnswer) -> (r: Removing)
        ensures
            r == self.spec_on(flags, answer),
    {
        match (self, answer) {
            (Removing::First, RemovalAnswer::Removed(Ok(()))) => Removing::Gone,
            (Removing::First, RemovalAnswer::Removed(Err(first))) => if removed_after_drain(&first) {
                Removing::Gone
            } else if !flags.entered {
                Removing::Left(LeftBehind::NotEntered(first))
            } else if flags.armed {
                Removing::Kill(first)
            } else if flags.killed {
                Removing::Drain(first)
            } else {
                Removing::Left(LeftBehind::Detached(first))
            },
            (Removing::Kill(first), RemovalAnswer::Killed(Ok(()))) => Removing::Drain(first),
            (Removing::Kill(first), RemovalAnswer::Killed(Err(e))) => Removing::Second(
                first,
                Emptied::KillFailed(e),
            ),
            (Removing::Drain(first), RemovalAnswer::Drained(Ok(()))) => Removing::Sweep(first),
            (Removing::Drain(first), RemovalAnswer::Drained(Err(e))) => Removing::Second(
                first,
                Emptied::DrainUnwatched(e),
            ),
            (Removing::Sweep(first), RemovalAnswer::Swept(Ok(_))) => Removing::Second(
                first,
                Emptied::Drained,
            ),
            (Removing::Sweep(first), RemovalAnswer::Swept(Err(e))) => Removing::Second(
                first,
                Emptied::SweepFailed(e),
            ),
            (Removing::Second(..), RemovalAnswer::Removed(Ok(()))) => Removing::Gone,
            (Removing::Second(first, emptied), RemovalAnswer::Removed(Err(second))) =>
                if removed_after_drain(&second) {
                    Removing::Gone
                } else {
                    Removing::Left(LeftBehind::Refused { first, emptied, second })
                },
            (state, _) => state,
        }
    }
}

/// The removal of a leaf whose child's report is still in flight: nothing proves the child absent, so
/// an occupied leaf is killed through, drained, swept and removed, again for as long as anything
/// re-enters it before the removal lands. Once removed, it admits no member.
///
/// `rmdir` refuses a leaf that holds a child cgroup as it refuses a populated one, and killing removes
/// no directory. So a round that killed, drained and removed no child cgroup is progress only if
/// something re-entered the leaf since; otherwise the leaf is reported, not retried.
#[derive(Debug)]
pub enum InFlightRemoving {
    /// Remove the directory. Whether the last round killed, drained and removed no child cgroup.
    Remove(bool),
    /// See whether the leaf was re-entered: removing it failed with this.
    CheckReentry(OsError),
    /// Kill through the leaf.
    Kill(OsError),
    /// Wait for the leaf to drain.
    Drain(OsError),
    /// Remove the child cgroups.
    Sweep(OsError),
    /// Nothing is left behind.
    Gone,
    Left(LeftBehind),
}

impl InFlightRemoving {
    /// How the removal goes on. An answer to something that was not asked changes nothing.
    pub open spec fn spec_on(self, answer: RemovalAnswer) -> InFlightRemoving {
        match (self, answer) {
            (InFlightRemoving::Remove(_), RemovalAnswer::Removed(Ok(()))) => InFlightRemoving::Gone,
            (InFlightRemoving::Remove(stalled), RemovalAnswer::Removed(Err(occupied))) =>
                if errno::gone(occupied) {
                    InFlightRemoving::Gone
                } else if stalled {
                    InFlightRemoving::CheckReentry(occupied)
                } else {
                    InFlightRemoving::Kill(occupied)
                },
            (
                InFlightRemoving::CheckReentry(occupied),
                RemovalAnswer::Repopulated(Ok(populated)),
            ) => if populated {
                InFlightRemoving::Kill(occupied)
            } else {
                InFlightRemoving::Left(LeftBehind::NothingLeft(occupied))
            },
            (InFlightRemoving::CheckReentry(occupied), RemovalAnswer::Repopulated(Err(e))) =>
                InFlightRemoving::Left(LeftBehind::ReentryUnread(occupied, e)),
            (InFlightRemoving::Kill(occupied), RemovalAnswer::Killed(Ok(()))) => if occupied.errno
                == Some(errno::EBUSY) {
                InFlightRemoving::Drain(occupied)
            } else {
                // Not refused for its members: killing again cannot remove it.
                InFlightRemoving::Left(LeftBehind::Unkillable(occupied))
            },
            (InFlightRemoving::Kill(occupied), RemovalAnswer::Killed(Err(e))) =>
                InFlightRemoving::Left(LeftBehind::InFlightKill(occupied, e)),
            (InFlightRemoving::Drain(occupied), RemovalAnswer::Drained(Ok(()))) =>
                InFlightRemoving::Sweep(occupied),
            (InFlightRemoving::Drain(occupied), RemovalAnswer::Drained(Err(e))) =>
                InFlightRemoving::Left(LeftBehind::InFlightDrain(occupied, e)),
            (InFlightRemoving::Sweep(_), RemovalAnswer::Swept(Ok(removed))) =>
                InFlightRemoving::Remove(removed == 0),
            (InFlightRemoving::Sweep(occupied), RemovalAnswer::Swept(Err(e))) =>
                InFlightRemoving::Left(LeftBehind::InFlightSweep(occupied, e)),
            _ => self,
        }
    }

    /// Begin to remove a leaf whose child's report is in flight.
    pub fn remove_with_report_in_flight() -> (r: InFlightRemoving)
        ensures
            r == InFlightRemoving::Remove(false),
    {
        InFlightRemoving::Remove(false)
    }

    /// Go on with what the host answered.
    pub fn on(self, answer: RemovalAnswer) -> (r: InFlightRemoving)
        ensures
            r == self.spec_on(answer),
    {
        match (self, answer) {
            (InFlightRemoving::Remove(_), RemovalAnswer::Removed(Ok(()))) => InFlightRemoving::Gone,
            (InFlightRemoving::Remove(stalled), RemovalAnswer::Removed(Err(occupied))) =>
                if removed_after_drain(&occupied) {
                    InFlightRemoving::Gone
                } else if stalled {
                    InFlightRemoving::CheckReentry(occupied)
                } else {
                    InFlightRemoving::Kill(occupied)
                },
            (
                InFlightRemoving::CheckReentry(occupied),
                RemovalAnswer::Repopulated(Ok(populated)),
            ) => if populated {
                InFlightRemoving::Kill(occupied)
            } else {
                InFlightRemoving::Left(LeftBehind::NothingLeft(occupied))
            },
            (InFlightRemoving::CheckReentry(occupied), RemovalAnswer::Repopulated(Err(e))) =>
                InFlightRemoving::Left(LeftBehind::ReentryUnread(occupied, e)),
            (InFlightRemoving::Kill(occupied), RemovalAnswer::Killed(Ok(()))) =>
                if occupied.is_errno(errno::EBUSY) {
                    InFlightRemoving::Drain(occupied)
                } else {
                    InFlightRemoving::Left(LeftBehind::Unkillable(occupied))
                },
            (InFlightRemoving::Kill(occupied), RemovalAnswer::Killed(Err(e))) =>
                InFlightRemoving::Left(LeftBehind::InFlightKill(occupied, e)),
            (InFlightRemoving::Drain(occupied), RemovalAnswer::Drained(Ok(()))) =>
                InFlightRemoving::Sweep(occupied),
            (InFlightRemoving::Drain(occupied), RemovalAnswer::Drained(Err(e))) =>
                InFlightRemoving::Left(LeftBehind::InFlightDrain(occupied, e)),
            (InFlightRemoving::Sweep(_), RemovalAnswer::Swept(Ok(removed))) =>
                InFlightRemoving::Remove(removed == 0),
            (InFlightRemoving::Sweep(occupied), RemovalAnswer::Swept(Err(e))) =>
                InFlightRemoving::Left(LeftBehind::InFlightSweep(occupied, e)),
            (state, _) => state,
        }
    }
}

/// The removal of a leaf whose exchange was shut with nothing received. Nothing of the child's is in it,
/// so nothing is killed; but `rmdir` refuses a leaf that holds child cgroups, empty as they may be, so
/// those are swept.
#[derive(Debug)]
pub enum AbandonedRemoving {
    /// Remove the directory.
    First,
    /// Remove the child cgroups: removing the leaf failed with this.
    Sweep(OsError),
    /// Child cgroups were removed: remove the directory again.
    Second,
    /// Nothing is left behind.
    Gone,
    Left(LeftBehind),
}

impl AbandonedRemoving {
    /// How the removal goes on. An answer to something that was not asked changes nothing.
    pub open spec fn spec_on(self, answer: RemovalAnswer) -> AbandonedRemoving {
        match (self, answer) {
            (AbandonedRemoving::First, RemovalAnswer::Removed(Ok(()))) => AbandonedRemoving::Gone,
            (AbandonedRemoving::First, RemovalAnswer::Removed(Err(first))) => if errno::gone(first) {
                AbandonedRemoving::Gone
            } else {
                AbandonedRemoving::Sweep(first)
            },
            (AbandonedRemoving::Sweep(first), RemovalAnswer::Swept(Ok(removed))) => if removed == 0 {
                AbandonedRemoving::Left(LeftBehind::NotEntered(first))
            } else {
                AbandonedRemoving::Second
            },
            (AbandonedRemoving::Sweep(first), RemovalAnswer::Swept(Err(e))) =>
                AbandonedRemoving::Left(LeftBehind::UnenteredSweep(first, e)),
            (AbandonedRemoving::Second, RemovalAnswer::Removed(Ok(()))) => AbandonedRemoving::Gone,
            (AbandonedRemoving::Second, RemovalAnswer::Removed(Err(second))) => if errno::gone(
                second,
            ) {
                AbandonedRemoving::Gone
            } else {
                AbandonedRemoving::Left(LeftBehind::NotEntered(second))
            },
            _ => self,
        }
    }

    /// Begin to remove a leaf whose exchange was shut with nothing received.
    pub fn start() -> (r: AbandonedRemoving)
        ensures
            r == AbandonedRemoving::First,
    {
        AbandonedRemoving::First
    }

    /// Go on with what the host answered.
    pub fn on(self, answer: RemovalAnswer) -> (r: AbandonedRemoving)
        ensures
            r == self.spec_on(answer),
    {
        match (self, answer) {
            (AbandonedRemoving::First, RemovalAnswer::Removed(Ok(()))) => AbandonedRemoving::Gone,
            (AbandonedRemoving::First, RemovalAnswer::Removed(Err(first))) =>
                if removed_after_drain(&first) {
                    AbandonedRemoving::Gone
                } else {
                    AbandonedRemoving::Sweep(first)
                },
            (AbandonedRemoving::Sweep(first), RemovalAnswer::Swept(Ok(removed))) => if removed == 0 {
                AbandonedRemoving::Left(LeftBehind::NotEntered(first))
            } else {
                AbandonedRemoving::Second
            },
            (AbandonedRemoving::Sweep(first), RemovalAnswer::Swept(Err(e))) =>
                AbandonedRemoving::Left(LeftBehind::UnenteredSweep(first, e)),
            (AbandonedRemoving::Second, RemovalAnswer::Removed(Ok(()))) => AbandonedRemoving::Gone,
            (AbandonedRemoving::Second, RemovalAnswer::Removed(Err(second))) =>
                if removed_after_drain(&second) {
                    AbandonedRemoving::Gone
                } else {
                    AbandonedRemoving::Left(LeftBehind::NotEntered(second))
                },
            (state, _) => state,
        }
    }
}

/// Where a removal stands after the host's answers, in turn.
pub open spec fn removal_run(flags: LeafFlags, answers: Seq<RemovalAnswer>) -> Removing
    decreases answers.len(),
{
    if answers.len() == 0 {
        Removing::First
    } else {
        removal_run(flags, answers.drop_last()).spec_on(flags, answers.last())
    }
}

/// A drop kills through a leaf only where its child entered it and it is armed; and it waits for a
/// drain only where the tree has been killed, by it or before it. A leaf that its child never entered,
/// or that was detached to run on, is tried once and otherwise left alone.
pub proof fn law_a_drop_kills_only_an_entered_armed_leaf(
    flags: LeafFlags,
    answers: Seq<RemovalAnswer>,
)
    ensures
        removal_run(flags, answers) is Kill ==> flags.entered && flags.armed,
        removal_run(flags, answers) is Drain || removal_run(flags, answers) is Sweep || removal_run(
            flags,
            answers,
        ) is Second ==> flags.entered && (flags.armed || flags.killed),
        removal_run(flags, answers) matches Removing::Left(left) ==> match left {
            LeftBehind::NotEntered(_) => !flags.entered,
            LeftBehind::Detached(_) => flags.entered && !flags.armed && !flags.killed,
            LeftBehind::Refused { .. } => flags.entered && (flags.armed || flags.killed),
            _ => false,
        },
    decreases answers.len(),
{
    if answers.len() > 0 {
        law_a_drop_kills_only_an_entered_armed_leaf(flags, answers.drop_last());
    }
}

/// An armed leaf that its child entered and that cannot be removed at once is always killed through
/// next: occupied, it is never merely left.
pub proof fn law_an_occupied_armed_leaf_is_killed(flags: LeafFlags, refused: OsError)
    requires
        flags.entered,
        flags.armed,
        !errno::gone(refused),
    ensures
        Removing::First.spec_on(flags, RemovalAnswer::Removed(Err(refused))) == Removing::Kill(
            refused,
        ),
{
}

/// Whether the answer `i` was that the leaf has drained, when that was asked.
pub open spec fn drained_at(flags: LeafFlags, answers: Seq<RemovalAnswer>, i: int) -> bool {
    &&& removal_run(flags, answers.take(i)) is Drain
    &&& answers[i] matches RemovalAnswer::Drained(r) && r is Ok
}

/// After a kill that landed, the directory is removed again only once the leaf has drained: a removal
/// is never past its drain, at the sweep or at the second try of an emptied leaf, without having been
/// answered that the leaf drained. And a kill that landed leads to the drain and nowhere else.
pub proof fn law_no_removal_between_kill_and_drain(flags: LeafFlags, answers: Seq<RemovalAnswer>)
    ensures
        removal_run(flags, answers) is Sweep || (removal_run(flags, answers)
            matches Removing::Second(_, emptied) && (emptied is Drained || emptied
            is SweepFailed)) ==> exists|i: int|
            0 <= i < answers.len() && #[trigger] drained_at(flags, answers, i),
        forall|first: OsError| #[trigger]
            Removing::Kill(first).spec_on(flags, RemovalAnswer::Killed(Ok(()))) == Removing::Drain(
                first,
            ),
    decreases answers.len(),
{
    if answers.len() > 0 {
        let before = answers.drop_last();
        let n = before.len() as int;
        law_no_removal_between_kill_and_drain(flags, before);
        assert(answers.take(n) =~= before);
        if exists|i: int| 0 <= i < before.len() && #[trigger] drained_at(flags, before, i) {
            let i = choose|i: int| 0 <= i < before.len() && #[trigger] drained_at(flags, before, i);
            assert(answers.take(i) =~= before.take(i));
            assert(drained_at(flags, answers, i));
        }
        if removal_run(flags, before) is Drain {
            assert(removal_run(flags, answers) is Sweep ==> drained_at(flags, answers, n));
        }
    }
}

/// How many answers a removal can still take.
pub open spec fn removal_rank(r: Removing) -> nat {
    match r {
        Removing::First => 5,
        Removing::Kill(_) => 4,
        Removing::Drain(_) => 3,
        Removing::Sweep(_) => 2,
        Removing::Second(..) => 1,
        Removing::Gone | Removing::Left(_) => 0,
    }
}

/// Whether `answer` answers what `r` asks.
pub open spec fn removal_answers(r: Removing, answer: RemovalAnswer) -> bool {
    match r {
        Removing::First | Removing::Second(..) => answer is Removed,
        Removing::Kill(_) => answer is Killed,
        Removing::Drain(_) => answer is Drained,
        Removing::Sweep(_) => answer is Swept,
        Removing::Gone | Removing::Left(_) => false,
    }
}

/// Each answer to what a removal asked brings it nearer its end, so nothing is retried: the directory
/// is tried once before the kill and once after the drain.
pub proof fn law_a_removal_ends(flags: LeafFlags, r: Removing, answer: RemovalAnswer)
    requires
        removal_answers(r, answer),
    ensures
        removal_rank(r.spec_on(flags, answer)) < removal_rank(r),
{
}

/// Where the removal of a leaf with its report in flight stands after the host's answers, in turn.
pub open spec fn in_flight_run(answers: Seq<RemovalAnswer>) -> InFlightRemoving
    decreases answers.len(),
{
    if answers.len() == 0 {
        InFlightRemoving::Remove(false)
    } else {
        in_flight_run(answers.drop_last()).spec_on(answers.last())
    }
}

/// Whether the answer `i` ended a round, with how many child cgroups were removed in it.
pub open spec fn round_ended(answers: Seq<RemovalAnswer>, i: int) -> Option<usize> {
    match (in_flight_run(answers.take(i)), answers[i]) {
        (InFlightRemoving::Sweep(_), RemovalAnswer::Swept(Ok(removed))) => Some(removed),
        _ => None,
    }
}

/// Whether the leaf was read to have a member again at the answer `i`, when that was asked.
pub open spec fn reentered_at(answers: Seq<RemovalAnswer>, i: int) -> bool {
    in_flight_run(answers.take(i)) is CheckReentry && answers[i] == RemovalAnswer::Repopulated(
        Ok(true),
    )
}

/// With the report in flight, a leaf is killed through again after a round that removed no child
/// cgroup only if it was read to have a member again since: a round without progress is never
/// repeated.
pub proof fn law_no_round_without_progress(answers: Seq<RemovalAnswer>, ended: int)
    requires
        0 <= ended < answers.len(),
        round_ended(answers, ended) == Some(0usize),
    ensures
        in_flight_run(answers) is Kill ==> exists|i: int|
            ended < i < answers.len() && #[trigger] reentered_at(answers, i),
{
    lemma_stalled(answers, ended);
}

/// Past a round that removed no child cgroup, either the removal has got no further than to look at the
/// leaf again, or it was found re-entered.
proof fn lemma_stalled(answers: Seq<RemovalAnswer>, ended: int)
    requires
        0 <= ended < answers.len(),
        round_ended(answers, ended) == Some(0usize),
    ensures
        (match in_flight_run(answers) {
            InFlightRemoving::Remove(stalled) => stalled,
            InFlightRemoving::CheckReentry(_) => true,
            InFlightRemoving::Gone => true,
            InFlightRemoving::Left(_) => true,
            _ => false,
        }) || exists|i: int| ended < i < answers.len() && #[trigger] reentered_at(answers, i),
    decreases answers.len(),
{
    let before = answers.drop_last();
    let n = before.len() as int;
    assert(answers.take(n) =~= before);
    if ended < n {
        assert(answers.take(ended) =~= before.take(ended));
        assert(round_ended(before, ended) == Some(0usize));
        lemma_stalled(before, ended);
        if exists|i: int| ended < i < before.len() && #[trigger] reentered_at(before, i) {
            let i = choose|i: int| ended < i < before.len() && #[trigger] reentered_at(before, i);
            assert(answers.take(i) =~= before.take(i));
            assert(reentered_at(answers, i));
        } else if in_flight_run(answers) is Kill {
            assert(reentered_at(answers, n));
        }
    }
}

/// A leaf is killed through at its drop only where the child reported a placement or its report is
/// still in flight, which is never taken for an absence. A shut exchange leaves nothing in flight.
pub proof fn law_proof_of_absence_spares_the_leaf(
    entered: bool,
    report: PlacementReport,
    shut: bool,
)
    ensures
        spec_at_drop(entered, Some(report), shut) == AtDrop::Settled(true) <==> report
            == PlacementReport::Placed,
        spec_at_drop(entered, Some(report), shut) == AtDrop::InFlight <==> report
            == PlacementReport::NotReported && !shut,
        spec_at_drop(entered, Some(report), shut) == AtDrop::Abandoned <==> report
            == PlacementReport::NotReported && shut,
        spec_at_drop(entered, None, shut) == AtDrop::Settled(entered),
{
}

/// How many answers the removal of an abandoned leaf can still take.
pub open spec fn abandoned_removal_rank(r: AbandonedRemoving) -> nat {
    match r {
        AbandonedRemoving::First => 3,
        AbandonedRemoving::Sweep(_) => 2,
        AbandonedRemoving::Second => 1,
        AbandonedRemoving::Gone | AbandonedRemoving::Left(_) => 0,
    }
}

/// Whether `answer` answers what `r` asks.
pub open spec fn abandoned_removal_answers(r: AbandonedRemoving, answer: RemovalAnswer) -> bool {
    match r {
        AbandonedRemoving::First | AbandonedRemoving::Second => answer is Removed,
        AbandonedRemoving::Sweep(_) => answer is Swept,
        AbandonedRemoving::Gone | AbandonedRemoving::Left(_) => false,
    }
}

/// Each answer to what the removal of an abandoned leaf asked brings it nearer its end, and the leaf is
/// gone at the end unless a record says what kept it, which is never that its tree was killed.
pub proof fn law_an_abandoned_removal_ends(r: AbandonedRemoving, answer: RemovalAnswer)
    requires
        abandoned_removal_answers(r, answer),
    ensures
        abandoned_removal_rank(r.spec_on(answer)) < abandoned_removal_rank(r),
        r.spec_on(answer) matches AbandonedRemoving::Left(left) ==> left is NotEntered || left
            is UnenteredSweep,
{
}

/// Whether each of `answers`, in turn, answers what the removal asks then.
pub open spec fn removal_asked(flags: LeafFlags, answers: Seq<RemovalAnswer>) -> bool
    decreases answers.len(),
{
    answers.len() == 0 || removal_asked(flags, answers.drop_last()) && removal_answers(
        removal_run(flags, answers.drop_last()),
        answers.last(),
    )
}

/// Whether `answer` is that the leaf is not there any more.
pub open spec fn answers_gone(answer: RemovalAnswer) -> bool {
    answer matches RemovalAnswer::Removed(removed) && match removed {
        Ok(_) => true,
        Err(e) => errno::gone(e),
    }
}

/// Whether `answer` is that the leaf is still there, its removal refused with `e`.
pub open spec fn answers_refused(answer: RemovalAnswer, e: OsError) -> bool {
    answer == RemovalAnswer::Removed(Err(e)) && !errno::gone(e)
}

/// Whether `answer` is what left the leaf emptied like this.
pub open spec fn answers_emptied(answer: RemovalAnswer, emptied: Emptied) -> bool {
    match emptied {
        Emptied::Drained => answer matches RemovalAnswer::Swept(Ok(_)),
        Emptied::KillFailed(e) => answer == RemovalAnswer::Killed(Err(e)),
        Emptied::DrainUnwatched(e) => answer == RemovalAnswer::Drained(Err(e)),
        Emptied::SweepFailed(e) => answer == RemovalAnswer::Swept(Err(e)),
    }
}

/// Where a removal stands is what the host answered. The leaf is gone exactly where a try to remove it
/// said so. A leaf that refuses its first removal is left at once where its child never entered it or
/// its tree was detached unkilled; otherwise it is killed through, unless its tree was detached after a
/// kill of its own, then drained, then swept, each only where the step before succeeded, and tried
/// again. What is said of a leaf that refuses that too is both refusals and what came between.
pub proof fn law_a_removal_ends_as_the_host_answered(flags: LeafFlags, answers: Seq<RemovalAnswer>)
    requires
        removal_asked(flags, answers),
    ensures
        ({
            let n = answers.len();
            let last = answers[n - 1];
            // How many answers come before the drain is asked for.
            let ahead: nat = if flags.armed {
                2
            } else {
                1
            };
            let spent = flags.entered && (flags.armed || flags.killed);
            match removal_run(flags, answers) {
                Removing::First => n == 0,
                Removing::Kill(first) => n == 1 && flags.entered && flags.armed && answers_refused(
                    last,
                    first,
                ),
                Removing::Drain(first) => {
                    &&& n == ahead && spent && answers_refused(answers[0], first)
                    &&& flags.armed ==> (last matches RemovalAnswer::Killed(Ok(_)))
                },
                Removing::Sweep(first) => n == ahead + 1 && spent && answers_refused(
                    answers[0],
                    first,
                ) && (last matches RemovalAnswer::Drained(Ok(_))),
                Removing::Second(first, emptied) => {
                    &&& n > 1 && spent && answers_refused(answers[0], first)
                    &&& answers_emptied(last, emptied)
                    &&& n == match emptied {
                        Emptied::KillFailed(_) => 2,
                        Emptied::DrainUnwatched(_) => ahead + 1,
                        _ => ahead + 2,
                    }
                },
                Removing::Gone => n > 0 && answers_gone(last),
                Removing::Left(left) => n > 0 && match left {
                    LeftBehind::NotEntered(first) => n == 1 && !flags.entered && answers_refused(
                        last,
                        first,
                    ),
                    LeftBehind::Detached(first) => n == 1 && flags.entered && !flags.armed
                        && !flags.killed && answers_refused(last, first),
                    LeftBehind::Refused { first, emptied, second } => n > 2 && spent
                        && answers_refused(answers[0], first) && answers_emptied(
                        answers[n - 2],
                        emptied,
                    ) && answers_refused(last, second),
                    _ => false,
                },
            }
        }),
    decreases answers.len(),
{
    if answers.len() > 0 {
        let before = answers.drop_last();
        law_a_removal_ends_as_the_host_answered(flags, before);
        if before.len() > 0 {
            assert(answers[0] == before[0]);
        }
    }
}

/// An answer to something that the removal did not ask leaves it where it stands.
pub proof fn law_a_removal_takes_only_answers(
    flags: LeafFlags,
    r: Removing,
    f: InFlightRemoving,
    a: AbandonedRemoving,
    answer: RemovalAnswer,
)
    ensures
        !removal_answers(r, answer) ==> r.spec_on(flags, answer) == r,
        !in_flight_answers(f, answer) ==> f.spec_on(answer) == f,
        !abandoned_removal_answers(a, answer) ==> a.spec_on(answer) == a,
{
}

/// Whether `answer` answers what `r` asks.
pub open spec fn in_flight_answers(r: InFlightRemoving, answer: RemovalAnswer) -> bool {
    match r {
        InFlightRemoving::Remove(_) => answer is Removed,
        InFlightRemoving::CheckReentry(_) => answer is Repopulated,
        InFlightRemoving::Kill(_) => answer is Killed,
        InFlightRemoving::Drain(_) => answer is Drained,
        InFlightRemoving::Sweep(_) => answer is Swept,
        InFlightRemoving::Gone | InFlightRemoving::Left(_) => false,
    }
}

/// Whether each of `answers`, in turn, answers what the removal asks then.
pub open spec fn in_flight_asked(answers: Seq<RemovalAnswer>) -> bool
    decreases answers.len(),
{
    answers.len() == 0 || in_flight_asked(answers.drop_last()) && in_flight_answers(
        in_flight_run(answers.drop_last()),
        answers.last(),
    )
}

/// What the last try to remove the leaf among `answers` was refused with; `None` where there was none,
/// or it was not refused.
pub open spec fn last_refusal(answers: Seq<RemovalAnswer>) -> Option<OsError>
    decreases answers.len(),
{
    if answers.len() == 0 {
        None
    } else {
        match answers.last() {
            RemovalAnswer::Removed(Err(e)) => Some(e),
            RemovalAnswer::Removed(Ok(_)) => None,
            _ => last_refusal(answers.drop_last()),
        }
    }
}

/// Where a removal with the report in flight stands is what the host answered. The leaf is gone exactly
/// where a try to remove it said so. One that refuses is killed through, unless the round before
/// removed no child cgroup and the leaf then read as not re-entered; a kill that landed is followed by
/// the drain where the leaf was refused as busy, and by nothing where it was refused for another
/// reason; the drain by the sweep, and the sweep by the next try. What is said of a leaf that stays is
/// its last refusal and what was met after it.
pub proof fn law_an_in_flight_removal_ends_as_the_host_answered(answers: Seq<RemovalAnswer>)
    requires
        in_flight_asked(answers),
    ensures
        ({
            let n = answers.len();
            let last = answers[n - 1];
            let refusal = last_refusal(answers);
            match in_flight_run(answers) {
                InFlightRemoving::Remove(stalled) => {
                    ||| n == 0 && !stalled
                    ||| n > 3 && (last matches RemovalAnswer::Swept(Ok(removed)) && (stalled
                        <==> removed == 0))
                },
                InFlightRemoving::CheckReentry(occupied) => n > 4 && answers_refused(last, occupied)
                    && answers[n - 2] == RemovalAnswer::Swept(Ok(0)),
                InFlightRemoving::Kill(occupied) => {
                    &&& refusal == Some(occupied) && !errno::gone(occupied)
                    &&& {
                        ||| n == 1 && last is Removed
                        ||| n > 4 && last is Removed && (answers[n - 2] matches RemovalAnswer::Swept(
                            Ok(removed),
                        ) && removed > 0)
                        ||| n > 5 && last == RemovalAnswer::Repopulated(Ok(true))
                    }
                },
                InFlightRemoving::Drain(occupied) => n > 1 && refusal == Some(occupied)
                    && occupied.errno == Some(16i32) && (last matches RemovalAnswer::Killed(Ok(_))),
                InFlightRemoving::Sweep(occupied) => n > 2 && refusal == Some(occupied) && (last
                    matches RemovalAnswer::Drained(Ok(_))),
                InFlightRemoving::Gone => n > 0 && answers_gone(last),
                InFlightRemoving::Left(left) => n > 1 && match left {
                    LeftBehind::NothingLeft(occupied) => refusal == Some(occupied) && last
                        == RemovalAnswer::Repopulated(Ok(false)),
                    LeftBehind::ReentryUnread(occupied, e) => refusal == Some(occupied) && last
                        == RemovalAnswer::Repopulated(Err(e)),
                    LeftBehind::Unkillable(occupied) => refusal == Some(occupied) && occupied.errno
                        != Some(16i32) && (last matches RemovalAnswer::Killed(Ok(_))),
                    LeftBehind::InFlightKill(occupied, e) => refusal == Some(occupied) && last
                        == RemovalAnswer::Killed(Err(e)),
                    LeftBehind::InFlightDrain(occupied, e) => refusal == Some(occupied) && last
                        == RemovalAnswer::Drained(Err(e)),
                    LeftBehind::InFlightSweep(occupied, e) => refusal == Some(occupied) && last
                        == RemovalAnswer::Swept(Err(e)),
                    _ => false,
                },
            }
        }),
    decreases answers.len(),
{
    if answers.len() > 0 {
        law_an_in_flight_removal_ends_as_the_host_answered(answers.drop_last());
    }
}

/// Where the removal of an abandoned leaf stands after the host's answers, in turn.
pub open spec fn abandoned_removal_run(answers: Seq<RemovalAnswer>) -> AbandonedRemoving
    decreases answers.len(),
{
    if answers.len() == 0 {
        AbandonedRemoving::First
    } else {
        abandoned_removal_run(answers.drop_last()).spec_on(answers.last())
    }
}

/// Whether each of `answers`, in turn, answers what the removal asks then.
pub open spec fn abandoned_removal_asked(answers: Seq<RemovalAnswer>) -> bool
    decreases answers.len(),
{
    answers.len() == 0 || abandoned_removal_asked(answers.drop_last()) && abandoned_removal_answers(
        abandoned_removal_run(answers.drop_last()),
        answers.last(),
    )
}

/// Where the removal of an abandoned leaf stands is what the host answered. The leaf is gone exactly
/// where a try to remove it said so. A refused leaf is swept, and tried again exactly where the sweep
/// removed something. What is said of one that stays is the refusal that stands, the second where
/// there was one, and the sweep's own error.
pub proof fn law_an_abandoned_removal_ends_as_the_host_answered(answers: Seq<RemovalAnswer>)
    requires
        abandoned_removal_asked(answers),
    ensures
        ({
            let n = answers.len();
            let last = answers[n - 1];
            match abandoned_removal_run(answers) {
                AbandonedRemoving::First => n == 0,
                AbandonedRemoving::Sweep(first) => n == 1 && answers_refused(last, first),
                AbandonedRemoving::Second => n == 2 && (last matches RemovalAnswer::Swept(Ok(removed))
                    && removed > 0),
                AbandonedRemoving::Gone => n > 0 && answers_gone(last),
                AbandonedRemoving::Left(left) => match left {
                    LeftBehind::NotEntered(e) => {
                        ||| n == 2 && answers_refused(answers[0], e) && last == RemovalAnswer::Swept(
                            Ok(0),
                        )
                        ||| n == 3 && answers_refused(last, e)
                    },
                    LeftBehind::UnenteredSweep(first, e) => n == 2 && answers_refused(
                        answers[0],
                        first,
                    ) && last == RemovalAnswer::Swept(Err(e)),
                    _ => false,
                },
            }
        }),
    decreases answers.len(),
{
    if answers.len() > 0 {
        law_an_abandoned_removal_ends_as_the_host_answered(answers.drop_last());
    }
}

/// A leaf that stays behind is reported loudly, but for one that stays because its tree was detached to
/// run on, unkilled: with the report in flight or the exchange abandoned there is none such.
pub proof fn law_only_a_detached_leaf_is_reported_quietly(
    flags: LeafFlags,
    answers: Seq<RemovalAnswer>,
)
    ensures
        removal_asked(flags, answers) ==> (removal_run(flags, answers) matches Removing::Left(left)
            ==> (left.spec_level() == Level::Debug <==> flags.entered && !flags.armed
            && !flags.killed)),
        in_flight_asked(answers) ==> (in_flight_run(answers) matches InFlightRemoving::Left(left)
            ==> left.spec_level() == Level::Warn),
        abandoned_removal_asked(answers) ==> (abandoned_removal_run(answers)
            matches AbandonedRemoving::Left(left) ==> left.spec_level() == Level::Warn),
        forall|cause: String, rmdir: OsError|
            (#[trigger] (LeftBehind::Unwound { cause, rmdir }).spec_level()) == Level::Warn,
{
    if removal_asked(flags, answers) {
        law_a_removal_ends_as_the_host_answered(flags, answers);
    }
    if in_flight_asked(answers) {
        law_an_in_flight_removal_ends_as_the_host_answered(answers);
    }
    if abandoned_removal_asked(answers) {
        law_an_abandoned_removal_ends_as_the_host_answered(answers);
    }
}

/// What is said of a leaf that stays holds the host's own words for everything that was met: each
/// refusal to remove it, and what failed in between.
pub proof fn law_a_left_leaf_says_what_was_met(left: LeftBehind)
    ensures
        ({
            let s = left.text();
            match left {
                LeftBehind::NotEntered(first) => crate::text::mentions(s, first.text@),
                LeftBehind::UnenteredSweep(first, e) => crate::text::mentions(s, first.text@)
                    && crate::text::mentions(s, e.text@),
                LeftBehind::Detached(first) => crate::text::mentions(s, first.text@),
                LeftBehind::Refused { first, emptied, second } => {
                    &&& crate::text::mentions(s, first.text@)
                    &&& crate::text::mentions(s, second.text@)
                    &&& match emptied {
                        Emptied::Drained => crate::text::mentions(s, HOLDERS@),
                        Emptied::KillFailed(e) => crate::text::mentions(s, e.text@),
                        Emptied::DrainUnwatched(e) => crate::text::mentions(s, e.text@),
                        Emptied::SweepFailed(e) => crate::text::mentions(s, e.text@),
                    }
                },
                LeftBehind::Unwound { cause, rmdir } => crate::text::mentions(s, cause@) && crate::text::mentions(
                    s,
                    rmdir.text@,
                ),
                LeftBehind::NothingLeft(occupied) => crate::text::mentions(s, occupied.text@),
                LeftBehind::Unkillable(occupied) => crate::text::mentions(s, occupied.text@),
                LeftBehind::ReentryUnread(occupied, e) => crate::text::mentions(s, occupied.text@)
                    && crate::text::mentions(s, e.text@),
                LeftBehind::InFlightKill(occupied, e) => crate::text::mentions(s, occupied.text@)
                    && crate::text::mentions(s, e.text@),
                LeftBehind::InFlightDrain(occupied, e) => crate::text::mentions(s, occupied.text@)
                    && crate::text::mentions(s, e.text@),
                LeftBehind::InFlightSweep(occupied, e) => crate::text::mentions(s, occupied.text@)
                    && crate::text::mentions(s, e.text@),
            }
        }),
{
    let s = left.text();
    let refused = "rmdir failed "@ + "("@;
    match left {
        LeftBehind::NotEntered(first) => {
            let tail = ")"@ + "; cgroup.kill not written: nothing of the child's is in it"@;
            assert(s =~= refused + first.text@ + tail);
            crate::text::lemma_mentions(s, refused, first.text@, tail);
        },
        LeftBehind::UnenteredSweep(first, e) => {
            let between = ")"@ + "; cgroup.kill not written: nothing of the child's is in it"@
                + "; a child cgroup could not be removed "@ + "("@;
            assert(s =~= refused + first.text@ + (between + e.text@ + ")"@));
            crate::text::lemma_mentions(s, refused, first.text@, between + e.text@ + ")"@);
            assert(s =~= (refused + first.text@ + between) + e.text@ + ")"@);
            crate::text::lemma_mentions(s, refused + first.text@ + between, e.text@, ")"@);
        },
        LeftBehind::Detached(first) => {
            let tail = ")"@ + "; cgroup.kill not written: its tree was detached to run on"@;
            assert(s =~= refused + first.text@ + tail);
            crate::text::lemma_mentions(s, refused, first.text@, tail);
        },
        LeftBehind::Refused { first, emptied, second } => {
            lemma_refused_says(first, emptied, second);
        },
        LeftBehind::Unwound { cause, rmdir } => {
            let between = ")"@ + " after its creation failed ("@;
            assert(s =~= refused + rmdir.text@ + (between + cause@ + ")"@));
            crate::text::lemma_mentions(s, refused, rmdir.text@, between + cause@ + ")"@);
            assert(s =~= (refused + rmdir.text@ + between) + cause@ + ")"@);
            crate::text::lemma_mentions(s, refused + rmdir.text@ + between, cause@, ")"@);
        },
        LeftBehind::NothingLeft(occupied) => {
            lemma_in_flight_says(occupied, "nothing was left to kill or remove"@);
        },
        LeftBehind::Unkillable(occupied) => {
            lemma_in_flight_says(occupied, "cgroup.kill succeeded"@);
        },
        LeftBehind::ReentryUnread(occupied, e) => {
            lemma_in_flight_says_both(
                occupied,
                "whether it was re-entered could not be read "@,
                e,
            );
        },
        LeftBehind::InFlightKill(occupied, e) => {
            lemma_in_flight_says_both(occupied, "cgroup.kill failed "@, e);
        },
        LeftBehind::InFlightDrain(occupied, e) => {
            lemma_in_flight_says_both(occupied, "its drain could not be watched "@, e);
        },
        LeftBehind::InFlightSweep(occupied, e) => {
            lemma_in_flight_says_both(occupied, "a child cgroup could not be removed "@, e);
        },
    }
}

proof fn lemma_refused_says(first: OsError, emptied: Emptied, second: OsError)
    ensures
        ({
            let s = (LeftBehind::Refused { first, emptied, second }).text();
            &&& crate::text::mentions(s, first.text@)
            &&& crate::text::mentions(s, second.text@)
            &&& match emptied {
                Emptied::Drained => crate::text::mentions(s, HOLDERS@),
                Emptied::KillFailed(e) => crate::text::mentions(s, e.text@),
                Emptied::DrainUnwatched(e) => crate::text::mentions(s, e.text@),
                Emptied::SweepFailed(e) => crate::text::mentions(s, e.text@),
            }
        }),
{
    let s = (LeftBehind::Refused { first, emptied, second }).text();
    let head = "first rmdir failed "@ + "("@;
    let how = emptied_text(emptied);
    let before = head + first.text@ + ")"@ + ", cgroup.kill "@;
    let last = ", second rmdir failed "@ + "("@;
    let end = if emptied is Drained {
        HOLDERS@
    } else {
        ""@
    };
    let rest = last + second.text@ + ")"@ + end;
    assert(s =~= before + how + rest);
    assert(s =~= head + first.text@ + (")"@ + ", cgroup.kill "@ + how + rest));
    crate::text::lemma_mentions(s, head, first.text@, ")"@ + ", cgroup.kill "@ + how + rest);
    assert(s =~= (before + how + last) + second.text@ + (")"@ + end));
    crate::text::lemma_mentions(s, before + how + last, second.text@, ")"@ + end);
    match emptied {
        Emptied::Drained => {
            assert(s =~= (before + how + last + second.text@ + ")"@) + HOLDERS@ + Seq::empty());
            crate::text::lemma_mentions(
                s,
                before + how + last + second.text@ + ")"@,
                HOLDERS@,
                Seq::empty(),
            );
        },
        Emptied::KillFailed(e) => {
            assert(s =~= (before + "failed ("@) + e.text@ + (")"@ + rest));
            crate::text::lemma_mentions(s, before + "failed ("@, e.text@, ")"@ + rest);
        },
        Emptied::DrainUnwatched(e) => {
            let words = "succeeded but its drain could not be watched ("@;
            assert(s =~= (before + words) + e.text@ + (")"@ + rest));
            crate::text::lemma_mentions(s, before + words, e.text@, ")"@ + rest);
        },
        Emptied::SweepFailed(e) => {
            let words = "succeeded but a child cgroup could not be removed ("@;
            assert(s =~= (before + words) + e.text@ + (")"@ + rest));
            crate::text::lemma_mentions(s, before + words, e.text@, ")"@ + rest);
        },
    }
}

proof fn lemma_in_flight_says(occupied: OsError, tail: Seq<char>)
    ensures
        crate::text::mentions(in_flight_text(occupied) + tail, occupied.text@),
{
    let s = in_flight_text(occupied) + tail;
    let head = "rmdir failed "@ + "("@;
    let rest = ")"@ + " with the child's report in flight; "@ + tail;
    assert(s =~= head + occupied.text@ + rest);
    crate::text::lemma_mentions(s, head, occupied.text@, rest);
}

proof fn lemma_in_flight_says_both(occupied: OsError, words: Seq<char>, e: OsError)
    ensures
        crate::text::mentions(in_flight_text(occupied) + words + "("@ + e.text@ + ")"@, occupied.text@),
        crate::text::mentions(in_flight_text(occupied) + words + "("@ + e.text@ + ")"@, e.text@),
{
    let s = in_flight_text(occupied) + words + "("@ + e.text@ + ")"@;
    let tail = words + "("@ + e.text@ + ")"@;
    assert(s =~= in_flight_text(occupied) + tail);
    lemma_in_flight_says(occupied, tail);
    crate::text::lemma_mentions(s, in_flight_text(occupied) + words + "("@, e.text@, ")"@);
}

} // verus!
