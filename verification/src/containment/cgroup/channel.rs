//! The channel the forked child reports its placement outcome through: one `i32`, the errno of its
//! write to `cgroup.procs` or [`REPORT_PLACED`].
//!
//! The report is final not when `spawn` returns but once the child has reported or exited. A wait
//! therefore watches the child itself through a pidfd. The report is always sent before `exec`, so a
//! child that exits without one never exec'd, and nothing of its is in the leaf.

use vstd::prelude::*;

use crate::containment::cgroup::degrade::PlacementReport;
use crate::errno;
use crate::errno::OsError;

verus! {

/// A report of a successful placement. Negative so it can never collide with an errno, which
/// `write(2)` only ever reports as positive.
pub const REPORT_PLACED: i32 = -1;

/// What the child says of its write to `cgroup.procs`, given what `write(2)` returned and the errno
/// it left. Only the whole one-byte write is a placement. A failure without a positive errno is
/// reported as `EIO`, so that it cannot read back as a placement.
pub open spec fn spec_placement_message(ret: isize, code: i32) -> i32 {
    if ret == 1 {
        REPORT_PLACED
    } else if ret == -1 && code > 0 {
        code
    } else {
        errno::EIO
    }
}

/// What the child says of its write to `cgroup.procs`, given what `write(2)` returned and the errno
/// it left. Async-signal-safe: it allocates nothing.
pub fn placement_message(ret: isize, code: i32) -> (m: i32)
    ensures
        m == spec_placement_message(ret, code),
{
    if ret == 1 {
        REPORT_PLACED
    } else if ret == -1 && code > 0 {
        code
    } else {
        errno::EIO
    }
}

/// What a message on the channel reports. No message is no report.
pub open spec fn report_of(message: Option<i32>) -> PlacementReport {
    match message {
        None => PlacementReport::NotReported,
        Some(value) => if value == REPORT_PLACED {
            PlacementReport::Placed
        } else {
            PlacementReport::WriteFailed(value)
        },
    }
}

/// The report sent so far, from the message that was queued, if any: final once the child has
/// reported or can no longer report.
pub fn read_final(message: Option<i32>) -> (r: PlacementReport)
    ensures
        r == report_of(message),
{
    match message {
        None => PlacementReport::NotReported,
        Some(value) => if value == REPORT_PLACED {
            PlacementReport::Placed
        } else {
            PlacementReport::WriteFailed(value)
        },
    }
}

/// How sending one of the child's messages goes on.
#[derive(Debug, Clone, Copy, PartialEq, Eq, Structural)]
pub enum Sending {
    /// It is queued: the parent reads it, whatever it does next.
    Queued,
    /// The parent has decided without it, and let the child go on.
    Decided,
    /// The parent has given the spawn up.
    Abandoned,
    /// Send again.
    Again,
    /// It cannot be sent, and the spawn fails with this errno.
    Failed(i32),
}

/// How sending a message of `len` bytes goes on, given what `send(2)` returned and the errno it left.
/// `proceed` is whether the parent's word to go on was found once the parent no longer listened.
///
/// `EPIPE` by itself is no failure: a parent that decided without the message says so before it
/// closes its end, and that decision already holds for this child; one that says nothing has given
/// the spawn up. A seqpacket socket sends a message whole or not at all, so a short send is a
/// failure. Async-signal-safe: it allocates nothing.
pub fn after_send(sent: isize, len: isize, code: i32, proceed: bool) -> (s: Sending)
    requires
        len > 0,
    ensures
        s == (if sent == len {
            Sending::Queued
        } else if sent == -1 && code == errno::EINTR {
            Sending::Again
        } else if sent == -1 && code == errno::EPIPE {
            if proceed {
                Sending::Decided
            } else {
                Sending::Abandoned
            }
        } else if sent == -1 {
            Sending::Failed(code)
        } else {
            Sending::Failed(errno::EMSGSIZE)
        }),
{
    if sent == len {
        Sending::Queued
    } else if sent == -1 {
        if code == errno::EINTR {
            Sending::Again
        } else if code == errno::EPIPE {
            if proceed {
                Sending::Decided
            } else {
                Sending::Abandoned
            }
        } else {
            Sending::Failed(code)
        }
    } else {
        Sending::Failed(errno::EMSGSIZE)
    }
}

/// The child's pid as the kernel's calls take it. Every pid of a spawned child is a positive `i32`.
pub fn child_pid(pid: u32) -> (p: i32)
    requires
        0 < pid <= i32::MAX,
    ensures
        p == pid,
{
    pid as i32
}

/// A wait for a child's report: what to ask of the host next, or how it ended.
#[derive(Debug)]
pub enum ReportWait {
    /// Open a pidfd of the child.
    OpenPidfd,
    /// There is no pidfd: look at what has been sent, without blocking.
    ReadSent(OsError),
    /// Block until the channel has something to read or the child has exited.
    Poll,
    /// Read the report, if it has arrived. Whether the child had exited when the wait woke: with no
    /// report and no exit, something else woke it, and the wait goes on.
    ReadFinal(bool),
    /// The report is final.
    Final(PlacementReport),
    /// The child's exit cannot be watched, and it has reported nothing yet.
    Unwaitable(OsError),
    /// Polling itself failed. Nothing sound can be concluded.
    Broken(OsError),
}

/// What the host answered.
#[derive(Debug)]
pub enum WaitAnswer {
    Pidfd(Result<(), OsError>),
    /// The report's message, if it has arrived.
    Message(Option<i32>),
    /// Whether the child has exited.
    Polled(Result<bool, OsError>),
}

impl ReportWait {
    /// How the wait goes on. An answer to something that was not asked changes nothing.
    pub open spec fn spec_on(self, answer: WaitAnswer) -> ReportWait {
        match (self, answer) {
            (ReportWait::OpenPidfd, WaitAnswer::Pidfd(Ok(()))) => ReportWait::Poll,
            (ReportWait::OpenPidfd, WaitAnswer::Pidfd(Err(e))) => ReportWait::ReadSent(e),
            (ReportWait::ReadSent(e), WaitAnswer::Message(message)) => if report_of(message)
                == PlacementReport::NotReported {
                ReportWait::Unwaitable(e)
            } else {
                ReportWait::Final(report_of(message))
            },
            (ReportWait::Poll, WaitAnswer::Polled(Ok(exited))) => ReportWait::ReadFinal(exited),
            // A shortage of memory is the kernel's transient state, not an answer.
            (ReportWait::Poll, WaitAnswer::Polled(Err(e))) => if e.errno == Some(errno::EINTR)
                || e.errno == Some(errno::ENOMEM) {
                ReportWait::Poll
            } else {
                ReportWait::Broken(e)
            },
            (ReportWait::ReadFinal(exited), WaitAnswer::Message(message)) => if message is None
                && !exited {
                ReportWait::Poll
            } else {
                ReportWait::Final(report_of(message))
            },
            _ => self,
        }
    }

    /// Begin a wait. The parent's own copy of the child's end is closed first, or the channel would
    /// stay open for good.
    pub fn start() -> (w: ReportWait)
        ensures
            w == ReportWait::OpenPidfd,
    {
        ReportWait::OpenPidfd
    }

    /// Go on with what the host answered.
    pub fn on(self, answer: WaitAnswer) -> (w: ReportWait)
        ensures
            w == self.spec_on(answer),
    {
        match (self, answer) {
            (ReportWait::OpenPidfd, WaitAnswer::Pidfd(Ok(()))) => ReportWait::Poll,
            (ReportWait::OpenPidfd, WaitAnswer::Pidfd(Err(e))) => ReportWait::ReadSent(e),
            (ReportWait::ReadSent(e), WaitAnswer::Message(message)) => {
                let report = read_final(message);
                if report == PlacementReport::NotReported {
                    ReportWait::Unwaitable(e)
                } else {
                    ReportWait::Final(report)
                }
            },
            (ReportWait::Poll, WaitAnswer::Polled(Ok(exited))) => ReportWait::ReadFinal(exited),
            (ReportWait::Poll, WaitAnswer::Polled(Err(e))) => if e.is_errno(errno::EINTR)
                || e.is_errno(errno::ENOMEM) {
                ReportWait::Poll
            } else {
                ReportWait::Broken(e)
            },
            (ReportWait::ReadFinal(exited), WaitAnswer::Message(message)) => if message.is_none()
                && !exited {
                ReportWait::Poll
            } else {
                ReportWait::Final(read_final(message))
            },
            (state, _) => state,
        }
    }
}

/// What the child says reads back as what it did: a placement exactly when the one byte was
/// written, and otherwise a failure with a positive errno, the write's own where it had one and that
/// of an I/O error where it had none. Never as no report.
pub proof fn law_report_round_trip(ret: isize, code: i32)
    ensures
        report_of(Some(spec_placement_message(ret, code))) == PlacementReport::Placed <==> ret == 1,
        ret != 1 ==> (report_of(Some(spec_placement_message(ret, code)))
            matches PlacementReport::WriteFailed(e) && e > 0 && e == (if ret == -1 && code > 0 {
            code
        } else {
            5i32
        })),
{
}

/// Whether the host answered that the child has exited.
pub open spec fn saw_exit(answer: WaitAnswer) -> bool {
    answer == WaitAnswer::Polled(Ok(true))
}

/// Where a wait stands after the host's answers, in turn.
pub open spec fn wait_run(answers: Seq<WaitAnswer>) -> ReportWait
    decreases answers.len(),
{
    if answers.len() == 0 {
        ReportWait::OpenPidfd
    } else {
        wait_run(answers.drop_last()).spec_on(answers.last())
    }
}

/// A wait concludes that the child reported nothing only once it has seen the child's exit. Without a
/// pidfd it never concludes that: only a report already sent is final.
pub proof fn law_absence_is_concluded_only_after_the_wait(answers: Seq<WaitAnswer>)
    requires
        wait_run(answers) == ReportWait::Final(PlacementReport::NotReported),
    ensures
        exists|i: int|
            0 <= i < answers.len() && #[trigger] saw_exit(answers[i]),
    decreases answers.len(),
{
    let before = answers.drop_last();
    if answers.len() > 0 {
        let state = wait_run(before);
        if state == ReportWait::Final(PlacementReport::NotReported) {
            law_absence_is_concluded_only_after_the_wait(before);
        } else {
            assert(state == ReportWait::ReadFinal(true));
            lemma_exit_seen(before);
        }
        let i = choose|i: int|
            0 <= i < before.len() && #[trigger] saw_exit(before[i]);
        assert(saw_exit(answers[i]));
    }
}

proof fn lemma_exit_seen(answers: Seq<WaitAnswer>)
    requires
        wait_run(answers) == ReportWait::ReadFinal(true),
    ensures
        exists|i: int|
            0 <= i < answers.len() && #[trigger] saw_exit(answers[i]),
    decreases answers.len(),
{
    if answers.len() > 0 {
        let before = answers.drop_last();
        if wait_run(before) == ReportWait::ReadFinal(true) {
            lemma_exit_seen(before);
            let i = choose|i: int|
                0 <= i < before.len() && #[trigger] saw_exit(before[i]);
            assert(saw_exit(answers[i]));
        } else {
            assert(saw_exit(answers[answers.len() - 1]));
        }
    }
}

/// Whatever woke the wait and whether or not the child had exited by then, a message that did arrive
/// is the report: the value that stands for a placement is one, and every other value is the errno
/// that the write failed with. Without a pidfd it is no different.
pub proof fn law_a_message_that_arrived_is_the_report(exited: bool, refused: OsError, value: i32)
    ensures
        ReportWait::ReadFinal(exited).spec_on(WaitAnswer::Message(Some(value))) == ReportWait::Final(
            if value == -1 {
                PlacementReport::Placed
            } else {
                PlacementReport::WriteFailed(value)
            },
        ),
        ReportWait::ReadSent(refused).spec_on(WaitAnswer::Message(Some(value)))
            == ReportWait::ReadFinal(exited).spec_on(WaitAnswer::Message(Some(value))),
{
}

/// Whether `answer` answers what `w` asks of the host.
pub open spec fn wait_answers(w: ReportWait, answer: WaitAnswer) -> bool {
    match w {
        ReportWait::OpenPidfd => answer is Pidfd,
        ReportWait::Poll => answer is Polled,
        ReportWait::ReadSent(_) | ReportWait::ReadFinal(_) => answer is Message,
        ReportWait::Final(_) | ReportWait::Unwaitable(_) | ReportWait::Broken(_) => false,
    }
}

/// Whether each of `answers`, in turn, answers what the wait asks then.
pub open spec fn wait_asked(answers: Seq<WaitAnswer>) -> bool
    decreases answers.len(),
{
    answers.len() == 0 || wait_asked(answers.drop_last()) && wait_answers(
        wait_run(answers.drop_last()),
        answers.last(),
    )
}

/// Whether the report `report` is what reading `message` off the channel means.
pub open spec fn means(message: Option<i32>, report: PlacementReport) -> bool {
    match report {
        PlacementReport::NotReported => message is None,
        PlacementReport::Placed => message == Some(-1i32),
        PlacementReport::WriteFailed(code) => message == Some(code) && code != -1,
    }
}

/// Whether a failed poll is the kernel's passing state rather than an answer.
pub open spec fn poll_again(e: OsError) -> bool {
    e.errno == Some(4i32) || e.errno == Some(12i32)
}

/// Where a wait stands is what the host answered last. It ends in the report that the last message
/// read means, and in no report only where the child was seen to have exited and no message was there.
/// With no pidfd and no message it ends with the pidfd's own error, and with any poll's error but a
/// passing one it ends with that. Nothing else ends it: a wake-up with no message and no exit, and a
/// passing failure, poll again.
pub proof fn law_a_wait_ends_as_the_host_answered(answers: Seq<WaitAnswer>)
    requires
        wait_asked(answers),
    ensures
        ({
            let n = answers.len();
            match wait_run(answers) {
                ReportWait::OpenPidfd => n == 0,
                ReportWait::ReadSent(e) => n == 1 && answers[0] == WaitAnswer::Pidfd(Err(e)),
                ReportWait::Poll => {
                    ||| n == 1 && (answers[0] matches WaitAnswer::Pidfd(Ok(_)))
                    ||| n > 1 && (answers[n - 1] matches WaitAnswer::Polled(Err(e)) && poll_again(e))
                    ||| n > 2 && answers[n - 1] == WaitAnswer::Message(None) && answers[n - 2]
                        == WaitAnswer::Polled(Ok(false))
                },
                ReportWait::ReadFinal(exited) => n > 1 && answers[n - 1] == WaitAnswer::Polled(
                    Ok(exited),
                ),
                ReportWait::Final(report) => {
                    &&& n > 1
                    &&& answers[n - 1] matches WaitAnswer::Message(message) && means(message, report)
                    &&& report is NotReported ==> answers[n - 2] == WaitAnswer::Polled(Ok(true))
                },
                ReportWait::Unwaitable(e) => n == 2 && answers[0] == WaitAnswer::Pidfd(Err(e))
                    && answers[1] == WaitAnswer::Message(None),
                ReportWait::Broken(e) => n > 1 && answers[n - 1] == WaitAnswer::Polled(Err(e))
                    && !poll_again(e),
            }
        }),
    decreases answers.len(),
{
    if answers.len() > 0 {
        law_a_wait_ends_as_the_host_answered(answers.drop_last());
    }
}

/// An answer to something that the wait did not ask leaves it where it stands; so an ended wait stays
/// as it ended.
pub proof fn law_a_wait_takes_only_answers(w: ReportWait, answer: WaitAnswer)
    requires
        !wait_answers(w, answer),
    ensures
        w.spec_on(answer) == w,
{
}

} // verus!
