//! Deciding whether a spawned child entered its leaf.
//!
//! What the child says of itself decides: `cgroup.procs` lists only live tasks, so a placed child that
//! has already exited reads back absent from it. Where the report cannot be waited for, the leaf is
//! closed to the child or the child is found in it; and where neither can be had, the child is killed
//! and the spawn fails. Unknown membership is not absence: undecided fails closed.

use vstd::prelude::*;
use vstd::string::*;

use crate::containment::cgroup::channel;
use crate::containment::cgroup::channel::read_final;
use crate::containment::cgroup::degrade::{NotEntered, NotPlaced, PlacementReport};
use crate::containment::cgroup::parse;
use crate::errno;
use crate::errno::{removed_after_drain, ErrorKind, OsError};
use crate::error::Error;
use crate::report::{Level, Record};
use crate::text;

verus! {

pub const NO_UNIFIED_LINE: &'static str = "no cgroup v2 `0::` line";

/// Whether a process's own cgroup is the leaf `leaf` or nested under it, from the contents of its
/// `/proc/<pid>/cgroup`, or why that could not be read. A leaf with no known unified-hierarchy path
/// holds nothing.
pub fn holds(leaf: Option<&str>, cgroup: Result<String, OsError>) -> (r: Result<bool, OsError>)
    ensures
        match leaf {
            None => r == Ok::<bool, OsError>(false),
            Some(leaf) => match cgroup {
                Err(e) => r == Err::<bool, OsError>(e),
                Ok(contents) => match parse::v2_relative_path(contents@) {
                    Some(path) => r == Ok::<bool, OsError>(parse::at_or_under(path, leaf@)),
                    None => r matches Err(e) && e.errno is None && e.kind == ErrorKind::InvalidData
                        && e.text@ == NO_UNIFIED_LINE@,
                },
            },
        },
{
    let leaf = match leaf {
        None => {
            return Ok(false);
        },
        Some(leaf) => leaf,
    };
    match cgroup {
        Err(e) => Err(e),
        Ok(contents) => match parse::parse_v2_relative_path(contents.as_str()) {
            Some(path) => Ok(parse::is_at_or_under(path, leaf)),
            None => Err(
                OsError {
                    errno: None,
                    kind: ErrorKind::InvalidData,
                    text: NO_UNIFIED_LINE.to_owned(),
                },
            ),
        },
    }
}

/// How the child of an undecidable spawn was signalled.
#[derive(Debug, Clone, Copy, PartialEq, Eq, Structural)]
pub enum Signalled {
    Killed,
    /// It could not be, with this errno. No credentials change before the placement hook, so a child
    /// that may not be signalled has exec'd a program that runs as someone else, and its report, sent
    /// before the exec, is final. Waiting for it would last that program's whole life.
    Denied(i32),
    /// Something else had reaped it.
    NotOurs,
}

/// What became of the child's tree through its leaf.
#[derive(Debug)]
pub enum ThroughLeaf {
    /// The child had not entered, so nothing was done.
    NotEntered,
    /// It was killed through, and it drained.
    Killed,
    /// `cgroup.kill` could not be written.
    KillFailed(OsError),
    /// It was killed through, but its drain could not be watched.
    DrainUnwatched(OsError),
}

/// What became of the child of an undecidable spawn.
#[derive(Debug)]
pub struct Fate {
    pub signalled: Signalled,
    pub through_leaf: ThroughLeaf,
}

/// A failure through the leaf, in words.
pub open spec fn leaf_failure_text(through_leaf: ThroughLeaf) -> Seq<char> {
    match through_leaf {
        ThroughLeaf::KillFailed(e) => "cgroup.kill failed ("@ + e.text@ + ")"@,
        ThroughLeaf::DrainUnwatched(e) =>
            "cgroup.kill succeeded, but its drain could not be watched ("@ + e.text@ + ")"@,
        _ => ""@,
    }
}

impl Fate {
    /// The fate in words.
    pub open spec fn text(self) -> Seq<char> {
        match self.signalled {
            Signalled::Killed => match self.through_leaf {
                ThroughLeaf::NotEntered =>
                    "the child and its process group were killed, and it had not entered its leaf"@,
                ThroughLeaf::Killed =>
                    "the child and its process group were killed, and its leaf was killed through"@,
                _ => "the child and its process group were killed; through its leaf, "@
                    + leaf_failure_text(self.through_leaf),
            },
            Signalled::Denied(code) => "the child could not be signalled ("@ + errno::nix_errno_text(
                code,
            ) + (match self.through_leaf {
                ThroughLeaf::NotEntered =>
                    "): it exec'd a program this process may not kill, and is left running outside its leaf"@,
                ThroughLeaf::Killed => "), but was killed through its leaf"@,
                _ => "); through its leaf, "@ + leaf_failure_text(self.through_leaf),
            }),
            Signalled::NotOurs =>
                "the child was already reaped by something else in this process, so it was not signalled, and "@
                + (match self.through_leaf {
                ThroughLeaf::NotEntered => "it had not entered its leaf"@,
                ThroughLeaf::Killed => "its leaf was killed through"@,
                _ => "through its leaf, "@ + leaf_failure_text(self.through_leaf),
            }),
        }
    }

    fn leaf_failure(through_leaf: &ThroughLeaf) -> (s: String)
        ensures
            s@ == leaf_failure_text(*through_leaf),
    {
        match through_leaf {
            ThroughLeaf::KillFailed(e) => {
                let mut s = "cgroup.kill failed (".to_owned();
                s.append(e.text.as_str());
                s.append(")");
                s
            },
            ThroughLeaf::DrainUnwatched(e) => {
                let mut s = "cgroup.kill succeeded, but its drain could not be watched (".to_owned();
                s.append(e.text.as_str());
                s.append(")");
                s
            },
            _ => "".to_owned(),
        }
    }

    /// The fate in words.
    pub fn to_string(&self) -> (s: String)
        ensures
            s@ == self.text(),
    {
        match self.signalled {
            Signalled::Killed => match &self.through_leaf {
                ThroughLeaf::NotEntered =>
                    "the child and its process group were killed, and it had not entered its leaf".to_owned(),
                ThroughLeaf::Killed =>
                    "the child and its process group were killed, and its leaf was killed through".to_owned(),
                through_leaf => {
                    let mut s =
                        "the child and its process group were killed; through its leaf, ".to_owned();
                    let failure = Self::leaf_failure(through_leaf);
                    s.append(failure.as_str());
                    s
                },
            },
            Signalled::Denied(code) => {
                let mut s = "the child could not be signalled (".to_owned();
                let why = errno::errno_text(code);
                s.append(why.as_str());
                let rest = match &self.through_leaf {
                    ThroughLeaf::NotEntered =>
                        "): it exec'd a program this process may not kill, and is left running outside its leaf".to_owned(),
                    ThroughLeaf::Killed => "), but was killed through its leaf".to_owned(),
                    through_leaf => {
                        let mut rest = "); through its leaf, ".to_owned();
                        let failure = Self::leaf_failure(through_leaf);
                        rest.append(failure.as_str());
                        rest
                    },
                };
                s.append(rest.as_str());
                s
            },
            Signalled::NotOurs => {
                let mut s =
                    "the child was already reaped by something else in this process, so it was not signalled, and ".to_owned();
                let rest = match &self.through_leaf {
                    ThroughLeaf::NotEntered => "it had not entered its leaf".to_owned(),
                    ThroughLeaf::Killed => "its leaf was killed through".to_owned(),
                    through_leaf => {
                        let mut rest = "through its leaf, ".to_owned();
                        let failure = Self::leaf_failure(through_leaf);
                        rest.append(failure.as_str());
                        rest
                    },
                };
                s.append(rest.as_str());
                s
            },
        }
    }
}

/// Failing a spawn whose membership cannot be decided: what to do next, or what became of the child.
///
/// The child is killed as a group, which ends its chance to enter the leaf and makes its report
/// final; then the leaf is killed through, but only on a placement. The group, not only the pid:
/// between the last look at the report and the kill, the child can report, exec and fork, and its
/// descendants start in its process group. The pid too: a child killed before its own `setpgid` leads
/// no group yet.
#[derive(Debug)]
pub enum FailClosed {
    /// See whether the child is still this process's to reap, without reaping it.
    Probe,
    /// Kill the child.
    Kill,
    /// Kill the group it leads. Whether the child itself could be signalled, or the errno.
    KillGroup(Option<i32>),
    /// Wait for its exit, not its reaping: the spawn's error path reaps it.
    AwaitExit,
    /// Read its report: it has exited or exec'd, so the report is final.
    ReadReport(Signalled),
    /// Kill through the leaf.
    KillLeaf(Signalled),
    /// Wait for the leaf to drain.
    Drain(Signalled),
    Done(Fate),
}

/// What the host answered.
#[derive(Debug)]
pub enum FailClosedAnswer {
    /// How asking for the child's status went; the errno where it failed.
    Probed(Option<i32>),
    Signalled(Option<i32>),
    /// How signalling the group went: of no consequence.
    GroupSignalled,
    /// How waiting for the exit went.
    Exited(Option<i32>),
    /// The message that was queued, if any.
    Message(Option<i32>),
    LeafKilled(Result<(), OsError>),
    Drained(Result<(), OsError>),
}

impl FailClosed {
    /// How it goes on. An answer to something that was not asked changes nothing.
    pub open spec fn spec_on(self, answer: FailClosedAnswer) -> FailClosed {
        match (self, answer) {
            (FailClosed::Probe, FailClosedAnswer::Probed(code)) => if code == Some(errno::EINTR) {
                FailClosed::Probe
            } else if code == Some(errno::ECHILD) {
                FailClosed::ReadReport(Signalled::NotOurs)
            } else {
                FailClosed::Kill
            },
            (FailClosed::Kill, FailClosedAnswer::Signalled(code)) => FailClosed::KillGroup(code),
            (FailClosed::KillGroup(code), FailClosedAnswer::GroupSignalled) => match code {
                None => FailClosed::AwaitExit,
                Some(code) => FailClosed::ReadReport(Signalled::Denied(code)),
            },
            (FailClosed::AwaitExit, FailClosedAnswer::Exited(code)) => if code == Some(
                errno::EINTR,
            ) {
                FailClosed::AwaitExit
            } else {
                FailClosed::ReadReport(Signalled::Killed)
            },
            (FailClosed::ReadReport(signalled), FailClosedAnswer::Message(message)) =>
                if channel::report_of(message) == PlacementReport::Placed {
                    FailClosed::KillLeaf(signalled)
                } else {
                    FailClosed::Done(Fate { signalled, through_leaf: ThroughLeaf::NotEntered })
                },
            (FailClosed::KillLeaf(signalled), FailClosedAnswer::LeafKilled(Ok(()))) =>
                FailClosed::Drain(signalled),
            (FailClosed::KillLeaf(signalled), FailClosedAnswer::LeafKilled(Err(e))) =>
                FailClosed::Done(Fate { signalled, through_leaf: ThroughLeaf::KillFailed(e) }),
            (FailClosed::Drain(signalled), FailClosedAnswer::Drained(Ok(()))) => FailClosed::Done(
                Fate { signalled, through_leaf: ThroughLeaf::Killed },
            ),
            (FailClosed::Drain(signalled), FailClosedAnswer::Drained(Err(e))) => FailClosed::Done(
                Fate { signalled, through_leaf: ThroughLeaf::DrainUnwatched(e) },
            ),
            _ => self,
        }
    }

    /// Begin to fail a spawn whose membership cannot be decided.
    pub fn fail_closed() -> (f: FailClosed)
        ensures
            f == FailClosed::Probe,
    {
        FailClosed::Probe
    }

    /// Go on with what the host answered.
    pub fn on(self, answer: FailClosedAnswer) -> (f: FailClosed)
        ensures
            f == self.spec_on(answer),
    {
        match (self, answer) {
            (FailClosed::Probe, FailClosedAnswer::Probed(code)) => match code {
                Some(code) if code == errno::EINTR => FailClosed::Probe,
                Some(code) if code == errno::ECHILD => FailClosed::ReadReport(Signalled::NotOurs),
                _ => FailClosed::Kill,
            },
            (FailClosed::Kill, FailClosedAnswer::Signalled(code)) => FailClosed::KillGroup(code),
            (FailClosed::KillGroup(code), FailClosedAnswer::GroupSignalled) => match code {
                None => FailClosed::AwaitExit,
                Some(code) => FailClosed::ReadReport(Signalled::Denied(code)),
            },
            (FailClosed::AwaitExit, FailClosedAnswer::Exited(code)) => match code {
                Some(code) if code == errno::EINTR => FailClosed::AwaitExit,
                _ => FailClosed::ReadReport(Signalled::Killed),
            },
            (FailClosed::ReadReport(signalled), FailClosedAnswer::Message(message)) =>
                if read_final(message) == PlacementReport::Placed {
                    FailClosed::KillLeaf(signalled)
                } else {
                    FailClosed::Done(Fate { signalled, through_leaf: ThroughLeaf::NotEntered })
                },
            (FailClosed::KillLeaf(signalled), FailClosedAnswer::LeafKilled(Ok(()))) =>
                FailClosed::Drain(signalled),
            (FailClosed::KillLeaf(signalled), FailClosedAnswer::LeafKilled(Err(e))) =>
                FailClosed::Done(Fate { signalled, through_leaf: ThroughLeaf::KillFailed(e) }),
            (FailClosed::Drain(signalled), FailClosedAnswer::Drained(Ok(()))) => FailClosed::Done(
                Fate { signalled, through_leaf: ThroughLeaf::Killed },
            ),
            (FailClosed::Drain(signalled), FailClosedAnswer::Drained(Err(e))) => FailClosed::Done(
                Fate { signalled, through_leaf: ThroughLeaf::DrainUnwatched(e) },
            ),
            (state, _) => state,
        }
    }
}

/// Why membership could not be decided.
#[derive(Debug)]
pub enum Undecided {
    /// The leaf could not be removed.
    Unremovable(OsError),
    /// The leaf is occupied, but not by the child.
    OccupiedByOther(OsError),
    /// The leaf is occupied, and whether by the child could not be read.
    MembershipUnread(OsError, OsError),
}

impl Undecided {
    /// The reason in words.
    pub open spec fn text(self) -> Seq<char> {
        match self {
            Undecided::Unremovable(e) => "its leaf could not be removed ("@ + e.text@ + ")"@,
            Undecided::OccupiedByOther(e) => "its leaf is occupied ("@ + e.text@
                + ") but not by the child"@,
            Undecided::MembershipUnread(e, read) => "its leaf is occupied ("@ + e.text@
                + ") and the child's membership could not be read ("@ + read.text@ + ")"@,
        }
    }

    /// The reason in words.
    pub fn to_string(&self) -> (s: String)
        ensures
            s@ == self.text(),
    {
        match self {
            Undecided::Unremovable(e) => {
                let mut s = "its leaf could not be removed (".to_owned();
                s.append(e.text.as_str());
                s.append(")");
                s
            },
            Undecided::OccupiedByOther(e) => {
                let mut s = "its leaf is occupied (".to_owned();
                s.append(e.text.as_str());
                s.append(") but not by the child");
                s
            },
            Undecided::MembershipUnread(e, read) => {
                let mut s = "its leaf is occupied (".to_owned();
                s.append(e.text.as_str());
                s.append(") and the child's membership could not be read (");
                s.append(read.text.as_str());
                s.append(")");
                s
            },
        }
    }
}

/// Whether a child entered its leaf.
#[derive(Debug)]
pub enum Verdict {
    /// It did.
    Entered,
    /// It did, though its report could not be waited for: it was found in the leaf.
    Found(OsError),
    /// It did not.
    NotPlaced(NotPlaced),
    /// It could not be decided, so the child was killed and the spawn fails.
    Failed { source: OsError, why: Undecided, fate: Fate },
}

/// What is said of a spawn that failed because membership could not be decided.
pub open spec fn undecided_text(pid: u32, why: Seq<char>, fate: Seq<char>) -> Seq<char> {
    "cannot tell whether child "@ + text::decimal(pid as nat) + " entered its cgroup leaf: "@ + why
        + "; "@ + fate
}

/// Why membership could not be decided, with `pidfd_open`'s error.
pub open spec fn pidfd_text(source: OsError, why: Undecided) -> Seq<char> {
    "pidfd_open failed ("@ + source.text@ + ") and "@ + why.text()
}

/// The error that a spawn fails with where membership could not be decided for the reason `why`.
pub fn undecided_error(pid: u32, why: &str, fate: &Fate) -> (e: Error)
    ensures
        e.is_containment(undecided_text(pid, why@, fate.text())),
{
    let mut detail = "cannot tell whether child ".to_owned();
    text::push_decimal(&mut detail, pid as u64);
    detail.append(" entered its cgroup leaf: ");
    detail.append(why);
    detail.append("; ");
    let fate = fate.to_string();
    detail.append(fate.as_str());
    Error::Containment { detail }
}

impl Verdict {
    /// Whether the child's tree is, or was, in the leaf.
    pub open spec fn entered(self) -> bool {
        match self {
            Verdict::Entered | Verdict::Found(_) => true,
            Verdict::NotPlaced(_) => false,
            Verdict::Failed { fate, .. } => !(fate.through_leaf is NotEntered),
        }
    }

    /// Whether the child's tree is, or was, in the leaf. It decides what a drop may kill.
    pub fn child_entered(&self) -> (r: bool)
        ensures
            r == self.entered(),
    {
        match self {
            Verdict::Entered | Verdict::Found(_) => true,
            Verdict::NotPlaced(_) => false,
            Verdict::Failed { fate, .. } => match fate.through_leaf {
                ThroughLeaf::NotEntered => false,
                _ => true,
            },
        }
    }

    /// The record of a child that was found in its leaf though its report could not be waited for.
    pub fn record(&self, pid: u32, leaf_path: &str) -> (r: Option<Record>)
        ensures
            match self {
                Verdict::Found(source) => r matches Some(record) && record.level == Level::Debug
                    && record.message@ == "cgroup v2: pidfd_open failed ("@ + source.text@
                    + "), but child "@ + text::decimal(pid as nat) + " is already in its leaf "@
                    + leaf_path@,
                _ => r is None,
            },
    {
        match self {
            Verdict::Found(source) => {
                let mut message = "cgroup v2: pidfd_open failed (".to_owned();
                message.append(source.text.as_str());
                message.append("), but child ");
                text::push_decimal(&mut message, pid as u64);
                message.append(" is already in its leaf ");
                message.append(leaf_path);
                Some(Record { level: Level::Debug, message })
            },
            _ => None,
        }
    }

    /// The verdict as an attach takes it: whether the child `pid` is in its leaf, or the error that
    /// the spawn fails with.
    pub fn into_result(self, pid: u32) -> (r: Result<Result<(), NotPlaced>, Error>)
        ensures
            match self {
                Verdict::Entered | Verdict::Found(_) => r matches Ok(Ok(_)),
                Verdict::NotPlaced(reason) => r == Ok::<Result<(), NotPlaced>, Error>(Err(reason)),
                Verdict::Failed { source, why, fate } => r matches Err(e) && e.is_containment(
                    undecided_text(pid, pidfd_text(source, why), fate.text()),
                ),
            },
    {
        match self {
            Verdict::Entered | Verdict::Found(_) => Ok(Ok(())),
            Verdict::NotPlaced(reason) => Ok(Err(reason)),
            Verdict::Failed { source, why, fate } => {
                let mut text = "pidfd_open failed (".to_owned();
                text.append(source.text.as_str());
                text.append(") and ");
                let reason = why.to_string();
                text.append(reason.as_str());
                Err(undecided_error(pid, text.as_str(), &fate))
            },
        }
    }
}

/// Taking a placement verdict on the child `pid`: what to do next, or the verdict.
#[derive(Debug)]
pub enum Placing {
    /// Wait for the child's report.
    Wait,
    /// Read the child's `/proc` state, before `cgroup.procs`: a `Z` then means that it had exited
    /// before the file was read.
    ReadState(NotEntered),
    /// Read the leaf's `cgroup.procs`.
    ReadProcs(NotEntered, Option<char>),
    /// The report cannot be waited for, with this error: remove the leaf. It goes only where it has
    /// no live member, and a removed leaf admits none.
    Remove(OsError),
    /// The leaf is busy, with the second error: read the child's own cgroup.
    CheckMembership(OsError, OsError),
    /// The leaf is gone: read the report.
    ReadReport(OsError),
    /// Membership cannot be decided: fail closed.
    FailClosed { source: OsError, why: Undecided, inner: FailClosed },
    Done(Verdict),
}

/// What the host answered.
#[derive(Debug)]
pub enum PlacingAnswer {
    /// The final report, or `pidfd_open`'s error where it could not be waited for.
    Waited(Result<PlacementReport, OsError>),
    /// The child's `/proc` state letter, where it could be read.
    State(Option<char>),
    /// The path of the leaf's `cgroup.procs`, and its contents.
    Procs { path: String, contents: Result<String, OsError> },
    Removed(Result<(), OsError>),
    /// Whether the child's own cgroup is in the leaf.
    Holds(Result<bool, OsError>),
    /// The message that was queued, if any.
    Message(Option<i32>),
    FailClosed(FailClosedAnswer),
}

impl Placing {
    /// How the verdict goes on. An answer to something that was not asked changes nothing.
    pub open spec fn spec_on(self, pid: u32, answer: PlacingAnswer) -> Placing {
        match (self, answer) {
            (Placing::Wait, PlacingAnswer::Waited(Ok(report))) => match report {
                PlacementReport::Placed => Placing::Done(Verdict::Entered),
                PlacementReport::NotReported => Placing::ReadState(NotEntered::NotReported),
                PlacementReport::WriteFailed(code) => Placing::ReadState(
                    NotEntered::WriteFailed(code),
                ),
            },
            (Placing::Wait, PlacingAnswer::Waited(Err(source))) => Placing::Remove(source),
            (Placing::ReadState(report), PlacingAnswer::State(state)) => Placing::ReadProcs(
                report,
                state,
            ),
            (
                Placing::ReadProcs(report, child_state),
                PlacingAnswer::Procs { path, contents },
            ) => Placing::Done(
                Verdict::NotPlaced(
                    match contents {
                        Ok(procs) => NotPlaced::Absent { pid, path, procs, report, child_state },
                        Err(source) => NotPlaced::Unreadable { pid, path, source, report },
                    },
                ),
            ),
            (Placing::Remove(source), PlacingAnswer::Removed(Ok(()))) => Placing::ReadReport(source),
            (Placing::Remove(source), PlacingAnswer::Removed(Err(e))) => if errno::gone(e) {
                Placing::ReadReport(source)
            } else if e.errno == Some(errno::EBUSY) {
                Placing::CheckMembership(source, e)
            } else {
                Placing::FailClosed {
                    source,
                    why: Undecided::Unremovable(e),
                    inner: FailClosed::Probe,
                }
            },
            (Placing::CheckMembership(source, busy), PlacingAnswer::Holds(Ok(holds))) => if holds {
                Placing::Done(Verdict::Found(source))
            } else {
                Placing::FailClosed {
                    source,
                    why: Undecided::OccupiedByOther(busy),
                    inner: FailClosed::Probe,
                }
            },
            (Placing::CheckMembership(source, busy), PlacingAnswer::Holds(Err(read))) =>
                Placing::FailClosed {
                    source,
                    why: Undecided::MembershipUnread(busy, read),
                    inner: FailClosed::Probe,
                },
            (Placing::ReadReport(source), PlacingAnswer::Message(message)) => Placing::Done(
                if channel::report_of(message) == PlacementReport::Placed {
                    Verdict::Entered
                } else {
                    Verdict::NotPlaced(NotPlaced::Unwaitable { pid, source })
                },
            ),
            (Placing::FailClosed { source, why, inner }, PlacingAnswer::FailClosed(answer)) =>
                match inner.spec_on(answer) {
                    FailClosed::Done(fate) => Placing::Done(Verdict::Failed { source, why, fate }),
                    inner => Placing::FailClosed { source, why, inner },
                },
            _ => self,
        }
    }

    /// Begin to take a verdict.
    pub fn take_placement() -> (p: Placing)
        ensures
            p == Placing::Wait,
    {
        Placing::Wait
    }

    /// Begin to decide for a child whose report has not arrived and cannot be waited for:
    /// `pidfd_open` failed with `source`.
    pub fn decide_unwaitable(source: OsError) -> (p: Placing)
        ensures
            p == Placing::Remove(source),
    {
        Placing::Remove(source)
    }

    /// Go on with what the host answered.
    pub fn on(self, pid: u32, answer: PlacingAnswer) -> (p: Placing)
        ensures
            p == self.spec_on(pid, answer),
    {
        match (self, answer) {
            (Placing::Wait, PlacingAnswer::Waited(Ok(report))) => match report {
                PlacementReport::Placed => Placing::Done(Verdict::Entered),
                PlacementReport::NotReported => Placing::ReadState(NotEntered::NotReported),
                PlacementReport::WriteFailed(code) => Placing::ReadState(
                    NotEntered::WriteFailed(code),
                ),
            },
            (Placing::Wait, PlacingAnswer::Waited(Err(source))) => Self::decide_unwaitable(source),
            (Placing::ReadState(report), PlacingAnswer::State(state)) => Placing::ReadProcs(
                report,
                state,
            ),
            (
                Placing::ReadProcs(report, child_state),
                PlacingAnswer::Procs { path, contents },
            ) => {
                let reason = match contents {
                    Ok(procs) => NotPlaced::Absent { pid, path, procs, report, child_state },
                    Err(source) => NotPlaced::Unreadable { pid, path, source, report },
                };
                Placing::Done(Verdict::NotPlaced(reason))
            },
            (Placing::Remove(source), PlacingAnswer::Removed(Ok(()))) => Placing::ReadReport(source),
            (Placing::Remove(source), PlacingAnswer::Removed(Err(e))) => if removed_after_drain(&e) {
                Placing::ReadReport(source)
            } else if e.is_errno(errno::EBUSY) {
                Placing::CheckMembership(source, e)
            } else {
                Placing::FailClosed {
                    source,
                    why: Undecided::Unremovable(e),
                    inner: FailClosed::fail_closed(),
                }
            },
            (Placing::CheckMembership(source, busy), PlacingAnswer::Holds(Ok(holds))) => if holds {
                Placing::Done(Verdict::Found(source))
            } else {
                Placing::FailClosed {
                    source,
                    why: Undecided::OccupiedByOther(busy),
                    inner: FailClosed::fail_closed(),
                }
            },
            (Placing::CheckMembership(source, busy), PlacingAnswer::Holds(Err(read))) =>
                Placing::FailClosed {
                    source,
                    why: Undecided::MembershipUnread(busy, read),
                    inner: FailClosed::fail_closed(),
                },
            (Placing::ReadReport(source), PlacingAnswer::Message(message)) => {
                let verdict = if read_final(message) == PlacementReport::Placed {
                    Verdict::Entered
                } else {
                    Verdict::NotPlaced(NotPlaced::Unwaitable { pid, source })
                };
                Placing::Done(verdict)
            },
            (Placing::FailClosed { source, why, inner }, PlacingAnswer::FailClosed(answer)) =>
                match inner.on(answer) {
                    FailClosed::Done(fate) => Placing::Done(Verdict::Failed { source, why, fate }),
                    inner => Placing::FailClosed { source, why, inner },
                },
            (state, _) => state,
        }
    }
}

/// Where failing closed stands after the host's answers, in turn.
pub open spec fn fail_closed_run(answers: Seq<FailClosedAnswer>) -> FailClosed
    decreases answers.len(),
{
    if answers.len() == 0 {
        FailClosed::Probe
    } else {
        fail_closed_run(answers.drop_last()).spec_on(answers.last())
    }
}

/// Whether the leaf is being, or has been, killed through.
pub open spec fn kills_through(state: FailClosed) -> bool {
    match state {
        FailClosed::KillLeaf(_) | FailClosed::Drain(_) => true,
        FailClosed::Done(fate) => !(fate.through_leaf is NotEntered),
        _ => false,
    }
}

/// Whether the answer `i` was the child's report, read when it was asked for, and a placement.
pub open spec fn read_placed(answers: Seq<FailClosedAnswer>, i: int) -> bool {
    &&& fail_closed_run(answers.take(i)) is ReadReport
    &&& answers[i] matches FailClosedAnswer::Message(message) && channel::report_of(message)
        == PlacementReport::Placed
}

/// A leaf is killed through only when the child's report, read once it was final, is a placement:
/// whatever else is in the leaf did not come from the child.
pub proof fn law_killed_through_only_on_a_placement(answers: Seq<FailClosedAnswer>)
    ensures
        kills_through(fail_closed_run(answers)) <==> exists|i: int|
            0 <= i < answers.len() && #[trigger] read_placed(answers, i),
    decreases answers.len(),
{
    if answers.len() > 0 {
        let before = answers.drop_last();
        let n = before.len() as int;
        law_killed_through_only_on_a_placement(before);
        assert(answers.take(n) =~= before);
        assert forall|i: int| 0 <= i < n implies #[trigger] read_placed(answers, i) == read_placed(
            before,
            i,
        ) by {
            assert(answers.take(i) =~= before.take(i));
        }
        if kills_through(fail_closed_run(before)) {
            let i = choose|i: int| 0 <= i < before.len() && #[trigger] read_placed(before, i);
            assert(read_placed(answers, i));
        } else {
            if exists|i: int| 0 <= i < answers.len() && #[trigger] read_placed(answers, i) {
                let i = choose|i: int| 0 <= i < answers.len() && #[trigger] read_placed(answers, i);
                if i < n {
                    assert(read_placed(before, i));
                }
            }
            if kills_through(fail_closed_run(answers)) {
                assert(read_placed(answers, n));
            }
        }
    }
}

/// Whether the child is being signalled.
pub open spec fn signals(state: FailClosed) -> bool {
    state is Kill || state is KillGroup || state is AwaitExit
}

/// How the child was signalled, where that is settled.
pub open spec fn signalled_in(state: FailClosed) -> Option<Signalled> {
    match state {
        FailClosed::ReadReport(signalled) => Some(signalled),
        FailClosed::KillLeaf(signalled) => Some(signalled),
        FailClosed::Drain(signalled) => Some(signalled),
        FailClosed::Done(fate) => Some(fate.signalled),
        _ => None,
    }
}

/// A child that something else has reaped is never signalled: its pid may be someone else's.
pub proof fn law_a_child_not_ours_is_never_signalled(answers: Seq<FailClosedAnswer>, k: int)
    requires
        signalled_in(fail_closed_run(answers)) == Some(Signalled::NotOurs),
        0 <= k <= answers.len(),
    ensures
        !signals(fail_closed_run(answers.take(k))),
    decreases answers.len(),
{
    let before = answers.drop_last();
    assert(answers.take(answers.len() as int) =~= answers);
    if answers.len() > 0 && k < answers.len() {
        assert(answers.take(k) =~= before.take(k));
        if signalled_in(fail_closed_run(before)) == Some(Signalled::NotOurs) {
            law_a_child_not_ours_is_never_signalled(before, k);
        } else {
            assert(fail_closed_run(before) is Probe);
            lemma_only_probed(before, k);
        }
    }
}

proof fn lemma_only_probed(answers: Seq<FailClosedAnswer>, k: int)
    requires
        fail_closed_run(answers) is Probe,
        0 <= k <= answers.len(),
    ensures
        fail_closed_run(answers.take(k)) is Probe,
    decreases answers.len(),
{
    assert(answers.take(answers.len() as int) =~= answers);
    if k < answers.len() {
        let before = answers.drop_last();
        assert(answers.take(k) =~= before.take(k));
        lemma_only_probed(before, k);
    }
}

/// Where a verdict stands after the host's answers, in turn.
pub open spec fn placing_run(pid: u32, answers: Seq<PlacingAnswer>) -> Placing
    decreases answers.len(),
{
    if answers.len() == 0 {
        Placing::Wait
    } else {
        placing_run(pid, answers.drop_last()).spec_on(pid, answers.last())
    }
}

/// Whether the answer `i` proves the child absent from its leaf: its final report, waited for, is no
/// placement; or the leaf is gone, so that the child can never enter it.
pub open spec fn proves_absence(pid: u32, answers: Seq<PlacingAnswer>, i: int) -> bool {
    let asked = placing_run(pid, answers.take(i));
    match answers[i] {
        PlacingAnswer::Waited(Ok(report)) => asked is Wait && report != PlacementReport::Placed,
        PlacingAnswer::Removed(Ok(_)) => asked is Remove,
        PlacingAnswer::Removed(Err(e)) => asked is Remove && errno::gone(e),
        _ => false,
    }
}

/// A child is found not placed only with proof that it is absent: a final report that is no
/// placement, or a leaf that is gone.
pub proof fn law_not_placed_only_with_proof(pid: u32, answers: Seq<PlacingAnswer>)
    ensures
        placing_run(pid, answers) is ReadState || placing_run(pid, answers) is ReadProcs
            || placing_run(pid, answers) is ReadReport || (placing_run(pid, answers)
            matches Placing::Done(Verdict::NotPlaced(_))) ==> exists|i: int|
            0 <= i < answers.len() && #[trigger] proves_absence(pid, answers, i),
    decreases answers.len(),
{
    if answers.len() > 0 {
        let before = answers.drop_last();
        let n = before.len() as int;
        law_not_placed_only_with_proof(pid, before);
        assert(answers.take(n) =~= before);
        if exists|i: int| 0 <= i < before.len() && #[trigger] proves_absence(pid, before, i) {
            let i = choose|i: int| 0 <= i < before.len() && #[trigger] proves_absence(pid, before, i);
            assert(answers.take(i) =~= before.take(i));
            assert(proves_absence(pid, answers, i));
        }
        if placing_run(pid, before) is Wait || placing_run(pid, before) is Remove {
            assert(placing_run(pid, answers) is ReadState || placing_run(pid, answers) is ReadReport
                ==> proves_absence(pid, answers, n));
        }
    }
}

/// Undecided fails closed: once membership cannot be decided, no verdict but a failed spawn comes
/// of it, whatever the host answers from there on.
pub proof fn law_undecided_fails_closed(pid: u32, answers: Seq<PlacingAnswer>, k: int)
    requires
        0 <= k <= answers.len(),
        placing_run(pid, answers.take(k)) is FailClosed,
    ensures
        placing_run(pid, answers) is FailClosed || (placing_run(pid, answers)
            matches Placing::Done(Verdict::Failed { .. })),
    decreases answers.len(),
{
    assert(answers.take(answers.len() as int) =~= answers);
    if k < answers.len() {
        let before = answers.drop_last();
        assert(before.take(k) =~= answers.take(k));
        law_undecided_fails_closed(pid, before, k);
    }
}

/// Whether `answer` answers what `state` asks of the host.
pub open spec fn fail_closed_answers(state: FailClosed, answer: FailClosedAnswer) -> bool {
    match state {
        FailClosed::Probe => answer is Probed,
        FailClosed::Kill => answer is Signalled,
        FailClosed::KillGroup(_) => answer is GroupSignalled,
        FailClosed::AwaitExit => answer is Exited,
        FailClosed::ReadReport(_) => answer is Message,
        FailClosed::KillLeaf(_) => answer is LeafKilled,
        FailClosed::Drain(_) => answer is Drained,
        FailClosed::Done(_) => false,
    }
}

/// Whether each of `answers`, in turn, answers what failing closed asks then.
pub open spec fn fail_closed_asked(answers: Seq<FailClosedAnswer>) -> bool
    decreases answers.len(),
{
    answers.len() == 0 || fail_closed_asked(answers.drop_last()) && fail_closed_answers(
        fail_closed_run(answers.drop_last()),
        answers.last(),
    )
}

/// Whether `answers` ends with the child signalled like this: not at all where its status said that it
/// is not this process's; with the errno that signalling it met; or killed, once its exit was waited
/// for.
pub open spec fn ends_signalled(answers: Seq<FailClosedAnswer>, signalled: Signalled) -> bool {
    let n = answers.len();
    match signalled {
        Signalled::NotOurs => n > 0 && answers[n - 1] == FailClosedAnswer::Probed(Some(10)),
        Signalled::Denied(code) => n > 2 && answers[n - 1] is GroupSignalled && answers[n - 2]
            == FailClosedAnswer::Signalled(Some(code)),
        Signalled::Killed => n > 3 && (answers[n - 1] matches FailClosedAnswer::Exited(code) && code
            != Some(4i32)),
    }
}

/// Where failing closed stands is what the host answered last. The child is asked about before it is
/// signalled, its group is signalled after it whether or not it could be, and its exit is waited for
/// exactly where it was; only then is its report read. A report of a placement has the leaf killed
/// through and its drain waited for, and any other ends it with the leaf untouched. What became of the
/// child says how it was signalled and what the leaf's own kill and drain met. A question that a signal
/// broke is asked again.
pub proof fn law_failing_closed_ends_as_the_host_answered(answers: Seq<FailClosedAnswer>)
    requires
        fail_closed_asked(answers),
    ensures
        ({
            let n = answers.len();
            let last = answers[n - 1];
            let before = answers.drop_last();
            let earlier = before.drop_last();
            match fail_closed_run(answers) {
                FailClosed::Probe => n == 0 || last == FailClosedAnswer::Probed(Some(4)),
                FailClosed::Kill => n > 0 && (last matches FailClosedAnswer::Probed(code) && code
                    != Some(4i32) && code != Some(10i32)),
                FailClosed::KillGroup(code) => n > 1 && last == FailClosedAnswer::Signalled(code),
                FailClosed::AwaitExit => n > 2 && {
                    ||| last == FailClosedAnswer::Exited(Some(4))
                    ||| last is GroupSignalled && answers[n - 2] == FailClosedAnswer::Signalled(None)
                },
                FailClosed::ReadReport(signalled) => ends_signalled(answers, signalled),
                FailClosed::KillLeaf(signalled) => n > 1 && last == FailClosedAnswer::Message(
                    Some(-1i32),
                ) && ends_signalled(before, signalled),
                FailClosed::Drain(signalled) => n > 2 && (last matches FailClosedAnswer::LeafKilled(
                    Ok(_),
                )) && before.last() == FailClosedAnswer::Message(Some(-1i32)) && ends_signalled(
                    earlier,
                    signalled,
                ),
                FailClosed::Done(fate) => n > 1 && match fate.through_leaf {
                    ThroughLeaf::NotEntered => (last matches FailClosedAnswer::Message(message)
                        && message != Some(-1i32)) && ends_signalled(before, fate.signalled),
                    ThroughLeaf::KillFailed(e) => last == FailClosedAnswer::LeafKilled(Err(e))
                        && before.last() == FailClosedAnswer::Message(Some(-1i32)) && ends_signalled(
                        earlier,
                        fate.signalled,
                    ),
                    ThroughLeaf::Killed => (last matches FailClosedAnswer::Drained(Ok(_))) && (
                    before.last() matches FailClosedAnswer::LeafKilled(Ok(_))) && earlier.last()
                        == FailClosedAnswer::Message(Some(-1i32)) && ends_signalled(
                        earlier.drop_last(),
                        fate.signalled,
                    ),
                    ThroughLeaf::DrainUnwatched(e) => last == FailClosedAnswer::Drained(Err(e)) && (
                    before.last() matches FailClosedAnswer::LeafKilled(Ok(_))) && earlier.last()
                        == FailClosedAnswer::Message(Some(-1i32)) && ends_signalled(
                        earlier.drop_last(),
                        fate.signalled,
                    ),
                },
            }
        }),
    decreases answers.len(),
{
    if answers.len() > 0 {
        law_failing_closed_ends_as_the_host_answered(answers.drop_last());
    }
}

/// An answer to something that was not asked leaves it where it stands.
pub proof fn law_failing_closed_takes_only_answers(state: FailClosed, answer: FailClosedAnswer)
    requires
        !fail_closed_answers(state, answer),
    ensures
        state.spec_on(answer) == state,
{
}

/// Whether `answer` answers what `p` asks of the host.
pub open spec fn placing_answers(p: Placing, answer: PlacingAnswer) -> bool {
    match p {
        Placing::Wait => answer is Waited,
        Placing::ReadState(_) => answer is State,
        Placing::ReadProcs(..) => answer is Procs,
        Placing::Remove(_) => answer is Removed,
        Placing::CheckMembership(..) => answer is Holds,
        Placing::ReadReport(_) => answer is Message,
        Placing::FailClosed { inner, .. } => answer matches PlacingAnswer::FailClosed(a)
            && fail_closed_answers(inner, a),
        Placing::Done(_) => false,
    }
}

/// Whether each of `answers`, in turn, answers what the verdict asks then.
pub open spec fn placing_asked(pid: u32, answers: Seq<PlacingAnswer>) -> bool
    decreases answers.len(),
{
    answers.len() == 0 || placing_asked(pid, answers.drop_last()) && placing_answers(
        placing_run(pid, answers.drop_last()),
        answers.last(),
    )
}

/// Those of `answers` that were given to failing closed.
pub open spec fn fail_closed_part(answers: Seq<PlacingAnswer>) -> Seq<FailClosedAnswer>
    decreases answers.len(),
{
    if answers.len() == 0 {
        Seq::empty()
    } else {
        match answers.last() {
            PlacingAnswer::FailClosed(answer) => fail_closed_part(answers.drop_last()).push(answer),
            _ => fail_closed_part(answers.drop_last()),
        }
    }
}

/// Whether `report`, which is no placement, is the one that was waited for first.
pub open spec fn waited_for(answers: Seq<PlacingAnswer>, report: NotEntered) -> bool {
    answers[0] == PlacingAnswer::Waited(
        Ok(
            match report {
                NotEntered::NotReported => PlacementReport::NotReported,
                NotEntered::WriteFailed(code) => PlacementReport::WriteFailed(code),
            },
        ),
    )
}

/// Whether the host's answers leave membership undecided for the reason `why`.
pub open spec fn leaves_undecided(answers: Seq<PlacingAnswer>, why: Undecided) -> bool {
    let n = answers.len();
    match why {
        Undecided::Unremovable(e) => n > 1 && answers[1] == PlacingAnswer::Removed(Err(e))
            && !errno::gone(e) && e.errno != Some(16i32),
        Undecided::OccupiedByOther(busy) => n > 2 && answers[1] == PlacingAnswer::Removed(Err(busy))
            && busy.errno == Some(16i32) && answers[2] == PlacingAnswer::Holds(Ok(false)),
        Undecided::MembershipUnread(busy, read) => n > 2 && answers[1] == PlacingAnswer::Removed(
            Err(busy),
        ) && busy.errno == Some(16i32) && answers[2] == PlacingAnswer::Holds(Err(read)),
    }
}

/// Whether the host's second answer says that the leaf is gone.
pub open spec fn leaf_gone(answers: Seq<PlacingAnswer>) -> bool {
    answers.len() > 1 && (answers[1] matches PlacingAnswer::Removed(removed) && match removed {
        Ok(_) => true,
        Err(e) => errno::gone(e),
    })
}

/// A verdict is what the host answered. The report that was waited for decides, and where it is no
/// placement the reason carries it, with the child's state and the leaf's members as they were read.
/// Where it could not be waited for, a leaf that is gone leaves the report already sent to decide, a
/// busy one the child's own cgroup, and anything else is undecided: the spawn then fails, with the
/// pidfd's error, what made it undecided, and what became of the child.
pub proof fn law_a_verdict_is_what_the_host_answered(pid: u32, answers: Seq<PlacingAnswer>)
    requires
        placing_asked(pid, answers),
    ensures
        ({
            let n = answers.len();
            let last = answers[n - 1];
            let inner = fail_closed_run(fail_closed_part(answers));
            &&& fail_closed_asked(fail_closed_part(answers))
            &&& match placing_run(pid, answers) {
                Placing::Wait => n == 0,
                Placing::ReadState(report) => n == 1 && waited_for(answers, report),
                Placing::ReadProcs(report, state) => n == 2 && waited_for(answers, report) && last
                    == PlacingAnswer::State(state),
                Placing::Remove(source) => n == 1 && last == PlacingAnswer::Waited(Err(source)),
                Placing::CheckMembership(source, busy) => n == 2 && answers[0]
                    == PlacingAnswer::Waited(Err(source)) && last == PlacingAnswer::Removed(Err(busy))
                    && busy.errno == Some(16i32),
                Placing::ReadReport(source) => n == 2 && answers[0] == PlacingAnswer::Waited(
                    Err(source),
                ) && leaf_gone(answers),
                Placing::FailClosed { source, why, inner: at } => answers[0]
                    == PlacingAnswer::Waited(Err(source)) && leaves_undecided(answers, why) && at
                    == inner && !(inner is Done),
                Placing::Done(verdict) => match verdict {
                    Verdict::Entered => {
                        ||| n == 1 && last == PlacingAnswer::Waited(Ok(PlacementReport::Placed))
                        ||| n == 3 && leaf_gone(answers) && last == PlacingAnswer::Message(Some(-1i32))
                    },
                    Verdict::Found(source) => n == 3 && answers[0] == PlacingAnswer::Waited(
                        Err(source),
                    ) && (answers[1] matches PlacingAnswer::Removed(Err(e)) && e.errno == Some(
                        16i32,
                    )) && last == PlacingAnswer::Holds(Ok(true)),
                    Verdict::NotPlaced(reason) => n == 3 && match reason {
                        NotPlaced::Absent { pid: p, path, procs, report, child_state } => p == pid
                            && waited_for(answers, report) && answers[1] == PlacingAnswer::State(
                            child_state,
                        ) && last == (PlacingAnswer::Procs { path, contents: Ok(procs) }),
                        NotPlaced::Unreadable { pid: p, path, source, report } => p == pid
                            && waited_for(answers, report) && last == (PlacingAnswer::Procs {
                            path,
                            contents: Err(source),
                        }),
                        NotPlaced::Unwaitable { pid: p, source } => p == pid && answers[0]
                            == PlacingAnswer::Waited(Err(source)) && leaf_gone(answers) && (last
                            matches PlacingAnswer::Message(message) && message != Some(-1i32)),
                    },
                    Verdict::Failed { source, why, fate } => answers[0] == PlacingAnswer::Waited(
                        Err(source),
                    ) && leaves_undecided(answers, why) && inner == FailClosed::Done(fate),
                },
            }
            &&& !(placing_run(pid, answers) is FailClosed) && !(placing_run(pid, answers)
                matches Placing::Done(Verdict::Failed { .. })) ==> fail_closed_part(answers).len() == 0
        }),
    decreases answers.len(),
{
    if answers.len() > 0 {
        let before = answers.drop_last();
        law_a_verdict_is_what_the_host_answered(pid, before);
        if answers.last() is FailClosed {
            let part = fail_closed_part(answers);
            assert(part.drop_last() =~= fail_closed_part(before));
        }
    }
}

/// An answer to something that was not asked leaves a verdict where it stands. No run leaves failing
/// closed standing once it is done: its end is the verdict's.
pub proof fn law_a_verdict_takes_only_answers(p: Placing, pid: u32, answer: PlacingAnswer)
    requires
        !placing_answers(p, answer),
        p matches Placing::FailClosed { inner, .. } ==> !(inner is Done),
    ensures
        p.spec_on(pid, answer) == p,
{
    if let Placing::FailClosed { inner, .. } = p {
        if let PlacingAnswer::FailClosed(a) = answer {
            law_failing_closed_takes_only_answers(inner, a);
        }
    }
}

/// Whether `answer` shows the child to be, or to have been, in its leaf.
pub open spec fn shows_entered(answer: PlacingAnswer) -> bool {
    match answer {
        PlacingAnswer::Waited(Ok(report)) => report is Placed,
        PlacingAnswer::Holds(Ok(holds)) => holds,
        PlacingAnswer::Message(message) => message == Some(-1i32),
        PlacingAnswer::FailClosed(FailClosedAnswer::Message(message)) => message == Some(-1i32),
        _ => false,
    }
}

/// A verdict takes the child's tree to be, or to have been, in the leaf exactly where the host showed
/// it: by its report, however it was read, or by the child's own cgroup.
pub proof fn law_entered_exactly_where_the_host_showed_it(pid: u32, answers: Seq<PlacingAnswer>)
    requires
        placing_asked(pid, answers),
    ensures
        placing_run(pid, answers) matches Placing::Done(verdict) ==> (verdict.entered() <==> exists|
            i: int,
        |
            0 <= i < answers.len() && #[trigger] shows_entered(answers[i])),
        placing_run(pid, answers) matches Placing::FailClosed { inner, .. } ==> (kills_through(inner)
            <==> exists|i: int| 0 <= i < answers.len() && #[trigger] shows_entered(answers[i])),
        !(placing_run(pid, answers) is Done) && !(placing_run(pid, answers) is FailClosed) ==> forall|
            i: int,
        |
            0 <= i < answers.len() ==> !#[trigger] shows_entered(answers[i]),
    decreases answers.len(),
{
    if answers.len() > 0 {
        let before = answers.drop_last();
        let n = answers.len();
        law_entered_exactly_where_the_host_showed_it(pid, before);
        assert(forall|i: int| 0 <= i < n - 1 ==> answers[i] == before[i]);
        if exists|i: int| 0 <= i < before.len() && #[trigger] shows_entered(before[i]) {
            let i = choose|i: int| 0 <= i < before.len() && #[trigger] shows_entered(before[i]);
            assert(shows_entered(answers[i]));
        } else {
            assert forall|i: int| 0 <= i < n - 1 implies !#[trigger] shows_entered(answers[i]) by {
                assert(!shows_entered(before[i]));
            }
        }
        if shows_entered(answers.last()) {
            assert(shows_entered(answers[n - 1]));
        }
    }
}

/// What is said of a child's fate holds what failed through its leaf, with the host's own words, and the
/// errno that signalling it met.
pub proof fn law_a_fate_says_what_failed(fate: Fate)
    ensures
        fate.signalled matches Signalled::Denied(code) ==> text::mentions(
            fate.text(),
            errno::nix_errno_text(code),
        ),
        fate.through_leaf matches ThroughLeaf::KillFailed(e) ==> text::mentions(
            fate.text(),
            leaf_failure_text(fate.through_leaf),
        ) && text::mentions(leaf_failure_text(fate.through_leaf), e.text@),
        fate.through_leaf matches ThroughLeaf::DrainUnwatched(e) ==> text::mentions(
            fate.text(),
            leaf_failure_text(fate.through_leaf),
        ) && text::mentions(leaf_failure_text(fate.through_leaf), e.text@),
{
    let s = fate.text();
    let failure = leaf_failure_text(fate.through_leaf);
    let failed = fate.through_leaf is KillFailed || fate.through_leaf is DrainUnwatched;
    match fate.through_leaf {
        ThroughLeaf::KillFailed(e) => {
            text::lemma_mentions(failure, "cgroup.kill failed ("@, e.text@, ")"@);
        },
        ThroughLeaf::DrainUnwatched(e) => {
            text::lemma_mentions(
                failure,
                "cgroup.kill succeeded, but its drain could not be watched ("@,
                e.text@,
                ")"@,
            );
        },
        _ => {},
    }
    match fate.signalled {
        Signalled::Killed => {
            if failed {
                text::lemma_mentions_end(
                    "the child and its process group were killed; through its leaf, "@,
                    failure,
                );
            }
        },
        Signalled::Denied(code) => {
            let head = "the child could not be signalled ("@;
            let why = errno::nix_errno_text(code);
            let rest = match fate.through_leaf {
                ThroughLeaf::NotEntered =>
                    "): it exec'd a program this process may not kill, and is left running outside its leaf"@,
                ThroughLeaf::Killed => "), but was killed through its leaf"@,
                _ => "); through its leaf, "@ + failure,
            };
            text::lemma_mentions(s, head, why, rest);
            if failed {
                assert(s =~= (head + why + "); through its leaf, "@) + failure);
                text::lemma_mentions_end(head + why + "); through its leaf, "@, failure);
            }
        },
        Signalled::NotOurs => {
            if failed {
                let head =
                    "the child was already reaped by something else in this process, so it was not signalled, and "@;
                assert(s =~= (head + "through its leaf, "@) + failure);
                text::lemma_mentions_end(head + "through its leaf, "@, failure);
            }
        },
    }
}

/// What is said of an undecided membership holds each error that left it undecided, the pidfd's among
/// them; and what the spawn fails with holds the child's pid, that reason and the child's fate.
pub proof fn law_an_undecided_spawn_says_why(pid: u32, source: OsError, why: Undecided, fate: Fate)
    ensures
        match why {
            Undecided::Unremovable(e) => text::mentions(why.text(), e.text@),
            Undecided::OccupiedByOther(e) => text::mentions(why.text(), e.text@),
            Undecided::MembershipUnread(e, read) => text::mentions(why.text(), e.text@)
                && text::mentions(why.text(), read.text@),
        },
        text::mentions(pidfd_text(source, why), source.text@),
        text::mentions(pidfd_text(source, why), why.text()),
        ({
            let reason = pidfd_text(source, why);
            let s = undecided_text(pid, reason, fate.text());
            &&& text::mentions(s, text::decimal(pid as nat))
            &&& text::mentions(s, reason)
            &&& text::mentions(s, fate.text())
        }),
{
    let said = why.text();
    match why {
        Undecided::Unremovable(e) => {
            text::lemma_mentions(said, "its leaf could not be removed ("@, e.text@, ")"@);
        },
        Undecided::OccupiedByOther(e) => {
            text::lemma_mentions(said, "its leaf is occupied ("@, e.text@, ") but not by the child"@);
        },
        Undecided::MembershipUnread(e, read) => {
            let head = "its leaf is occupied ("@;
            let between = ") and the child's membership could not be read ("@;
            assert(said =~= head + e.text@ + (between + read.text@ + ")"@));
            text::lemma_mentions(said, head, e.text@, between + read.text@ + ")"@);
            text::lemma_mentions(said, head + e.text@ + between, read.text@, ")"@);
        },
    }
    text::lemma_mentions_both("pidfd_open failed ("@, source.text@, ") and "@, said);
    let reason = pidfd_text(source, why);
    let s = undecided_text(pid, reason, fate.text());
    let who = text::decimal(pid as nat);
    let head = "cannot tell whether child "@;
    let between = " entered its cgroup leaf: "@;
    text::lemma_mentions_both(head + who + between, reason, "; "@, fate.text());
    assert(s =~= head + who + (between + reason + "; "@ + fate.text()));
    text::lemma_mentions(s, head, who, between + reason + "; "@ + fate.text());
}

} // verus!
