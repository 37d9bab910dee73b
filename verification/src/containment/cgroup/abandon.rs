//! Abandoning a spawn whose placement is undecided: what becomes of the child it may have forked.
//!
//! The exchange with the child is shut first. What the child sent before that is still read, and nothing
//! it sends later is accepted, so what was received is final: a child that had not announced itself
//! exits before it touches the leaf. The child is then signalled through a handle on it alone. A number
//! by itself may name another process by now.

use vstd::prelude::*;
use vstd::string::*;

use crate::containment::cgroup::channel;
use crate::containment::cgroup::channel::read_final;
use crate::containment::cgroup::degrade::PlacementReport;
use crate::errno;
use crate::errno::OsError;
use crate::report::{Level, Record};
use crate::text;

verus! {

/// What was received from the child when the exchange was shut.
#[derive(Debug, Clone, Copy, PartialEq, Eq, Structural)]
pub struct Received {
    /// The pid that its intent gave. `None`: it sent no intent, or no child was forked.
    pub pid: Option<u32>,
    /// Whether the intent carried a pidfd of the child.
    pub pidfd: bool,
    /// Whether the intent carried the child's own `/proc` directory.
    pub proc_dir: bool,
    /// Its report, if any.
    pub report: Option<i32>,
}

/// A message of the child's.
#[derive(Debug, Clone, Copy, PartialEq, Eq, Structural)]
pub enum Incoming {
    /// It is about to place itself: its pid, and the handle on itself that came along, if any.
    Intent { pid: u32, handle: Option<Handle> },
    /// What came of its placement.
    Report(i32),
}

impl Received {
    /// Nothing.
    pub open spec fn spec_nothing() -> Received {
        Received { pid: None, pidfd: false, proc_dir: false, report: None }
    }

    /// Nothing received yet.
    pub fn nothing() -> (r: Received)
        ensures
            r == Self::spec_nothing(),
    {
        Received { pid: None, pidfd: false, proc_dir: false, report: None }
    }

    /// With one more message: the first intent and the first report stand, whoever sent another.
    pub open spec fn with(self, message: Incoming) -> Received {
        match message {
            Incoming::Intent { pid, handle } => if self.pid is Some {
                self
            } else {
                Received {
                    pid: Some(pid),
                    pidfd: handle == Some(Handle::Pidfd),
                    proc_dir: handle == Some(Handle::ProcDir),
                    ..self
                }
            },
            Incoming::Report(report) => if self.report is Some {
                self
            } else {
                Received { report: Some(report), ..self }
            },
        }
    }

    /// Take in one more message.
    pub fn take_in(self, message: Incoming) -> (r: Received)
        ensures
            r == self.with(message),
    {
        match message {
            Incoming::Intent { pid, handle } => if self.pid.is_some() {
                self
            } else {
                let (pidfd, proc_dir) = match handle {
                    Some(Handle::Pidfd) => (true, false),
                    Some(Handle::ProcDir) => (false, true),
                    None => (false, false),
                };
                Received { pid: Some(pid), pidfd, proc_dir, report: self.report }
            },
            Incoming::Report(report) => if self.report.is_some() {
                self
            } else {
                Received {
                    pid: self.pid,
                    pidfd: self.pidfd,
                    proc_dir: self.proc_dir,
                    report: Some(report),
                }
            },
        }
    }

    /// What the child reported of its placement.
    pub fn placement(&self) -> (r: PlacementReport)
        ensures
            r == channel::report_of(self.report),
    {
        read_final(self.report)
    }

    /// The child that the intent names through a handle.
    pub open spec fn named(self) -> Option<Named> {
        match self.pid {
            None => None,
            Some(pid) => if self.pidfd {
                Some(Named { pid, handle: Handle::Pidfd })
            } else if self.proc_dir {
                Some(Named { pid, handle: Handle::ProcDir })
            } else {
                None
            },
        }
    }
}

/// A handle on one process, which can come to name no other.
#[derive(Debug, Clone, Copy, PartialEq, Eq, Structural)]
pub enum Handle {
    Pidfd,
    /// The process's own `/proc` directory, for one that could open no pidfd.
    ProcDir,
}

/// A child, and the handle it is signalled through.
#[derive(Debug, Clone, Copy, PartialEq, Eq, Structural)]
pub struct Named {
    pub pid: u32,
    pub handle: Handle,
}

/// What has been received after `messages`, in turn.
pub open spec fn received_of(messages: Seq<Incoming>) -> Received
    decreases messages.len(),
{
    if messages.len() == 0 {
        Received::spec_nothing()
    } else {
        received_of(messages.drop_last()).with(messages.last())
    }
}

/// The first report sent is the one that is read, and the first intent the one that names the child:
/// messages that come later change neither.
pub proof fn law_the_first_message_of_each_kind_stands(messages: Seq<Incoming>, i: int)
    requires
        0 <= i < messages.len(),
    ensures
        (forall|j: int| 0 <= j < i ==> !(#[trigger] messages[j] is Report)) ==> (messages[i]
            matches Incoming::Report(report) ==> received_of(messages).report == Some(report)),
        (forall|j: int| 0 <= j < i ==> !(#[trigger] messages[j] is Intent)) ==> (messages[i]
            matches Incoming::Intent { pid, handle } ==> {
            &&& received_of(messages).pid == Some(pid)
            &&& received_of(messages).named() == (match handle {
                Some(handle) => Some(Named { pid, handle }),
                None => None,
            })
        }),
    decreases messages.len(),
{
    let before = messages.drop_last();
    if i < before.len() {
        assert(before[i] == messages[i]);
        assert forall|j: int| 0 <= j < i implies before[j] == #[trigger] messages[j] by {}
        assert((forall|j: int| 0 <= j < i ==> !(#[trigger] messages[j] is Report)) ==> (forall|j: int|
            0 <= j < i ==> !(#[trigger] before[j] is Report)));
        assert((forall|j: int| 0 <= j < i ==> !(#[trigger] messages[j] is Intent)) ==> (forall|j: int|
            0 <= j < i ==> !(#[trigger] before[j] is Intent)));
        law_the_first_message_of_each_kind_stands(before, i);
    } else {
        law_nothing_is_received_that_was_not_sent(before);
        assert forall|j: int| 0 <= j < before.len() implies before[j] == #[trigger] messages[j] by {}
    }
}

/// What became of the child of an abandoned spawn.
#[derive(Debug)]
pub enum Abandoned {
    /// It has ended, and is reaped.
    Ended,
    /// It sent no handle on itself: it cannot be signalled without the risk of hitting another.
    OutOfReach,
    /// Nothing was received. A child that exists exits at its first send, but nothing holds its pid
    /// to reap it.
    MaybeUnreaped,
    /// It could not be killed, with this error, and runs on. Whoever holds it reaps it.
    HandedBack { kill: OsError, child: HandedBack },
}

/// A child that could not be killed, handed back to be reaped on its exit.
#[derive(Debug, Clone, Copy, PartialEq, Eq, Structural)]
pub struct HandedBack {
    pub pid: u32,
    /// Whether a pidfd is held to await it through.
    pub holds_pidfd: bool,
}

/// Ending the child of an abandoned spawn: what to do next, or what became of it.
#[derive(Debug)]
pub enum Abandoning {
    /// See, through its handle, whether the child is still unreaped.
    Check(Named),
    /// Kill it through its handle.
    Kill(Named),
    /// Kill the group it leads: what it forked after its exec is in that group, in the leaf or not.
    /// Whether it could be killed itself, or why not.
    KillGroup(Named, Option<OsError>),
    /// It was sent the signal: wait for its exit, and reap it.
    Reap(Named),
    /// It could not be killed: see once, without blocking, whether it has exited, and if so reap it.
    CheckExited(Named, OsError),
    /// It runs on: open a pidfd of it, on the pid that its handle proves its own.
    OpenPidfd(Named, OsError),
    Done(Abandoned),
}

/// What the host answered.
#[derive(Debug)]
pub enum AbandonAnswer {
    /// Whether the child is still unreaped.
    Unreaped(bool),
    Killed(Result<(), OsError>),
    /// How signalling the group went: of no consequence to the child, and worth a record.
    GroupKilled(Result<(), OsError>),
    Reaped,
    /// Whether the child had exited, and is now reaped.
    Exited(bool),
    Pidfd(Result<(), OsError>),
}

impl Abandoning {
    /// How it begins, from what was received.
    pub open spec fn spec_start(received: Received) -> Abandoning {
        match received.pid {
            None => Abandoning::Done(Abandoned::MaybeUnreaped),
            Some(_) => match received.named() {
                None => Abandoning::Done(Abandoned::OutOfReach),
                Some(named) => Abandoning::Check(named),
            },
        }
    }

    /// Begin to end the child of an abandoned spawn.
    pub fn abandon_before_verdict(received: &Received) -> (a: Abandoning)
        ensures
            a == Self::spec_start(*received),
    {
        match received.pid {
            None => Abandoning::Done(Abandoned::MaybeUnreaped),
            Some(pid) => if received.pidfd {
                Abandoning::Check(Named { pid, handle: Handle::Pidfd })
            } else if received.proc_dir {
                Abandoning::Check(Named { pid, handle: Handle::ProcDir })
            } else {
                Abandoning::Done(Abandoned::OutOfReach)
            },
        }
    }

    /// How it goes on. An answer to something that was not asked changes nothing.
    pub open spec fn spec_on(self, answer: AbandonAnswer) -> Abandoning {
        match (self, answer) {
            (Abandoning::Check(named), AbandonAnswer::Unreaped(unreaped)) => if unreaped {
                Abandoning::Kill(named)
            } else {
                Abandoning::Done(Abandoned::Ended)
            },
            (Abandoning::Kill(named), AbandonAnswer::Killed(Ok(()))) => Abandoning::KillGroup(
                named,
                None,
            ),
            (Abandoning::Kill(named), AbandonAnswer::Killed(Err(e))) => if e.errno == Some(
                errno::ESRCH,
            ) {
                // Reaped since: its group's id is no longer its own either.
                Abandoning::Done(Abandoned::Ended)
            } else {
                Abandoning::KillGroup(named, Some(e))
            },
            (Abandoning::KillGroup(named, refused), AbandonAnswer::GroupKilled(_)) => match refused {
                None => Abandoning::Reap(named),
                Some(e) => Abandoning::CheckExited(named, e),
            },
            (Abandoning::Reap(_), AbandonAnswer::Reaped) => Abandoning::Done(Abandoned::Ended),
            (Abandoning::CheckExited(named, kill), AbandonAnswer::Exited(exited)) => if exited {
                Abandoning::Done(Abandoned::Ended)
            } else if named.handle == Handle::Pidfd {
                Abandoning::Done(
                    Abandoned::HandedBack {
                        kill,
                        child: HandedBack { pid: named.pid, holds_pidfd: true },
                    },
                )
            } else {
                Abandoning::OpenPidfd(named, kill)
            },
            (Abandoning::OpenPidfd(named, kill), AbandonAnswer::Pidfd(opened)) => Abandoning::Done(
                Abandoned::HandedBack {
                    kill,
                    child: HandedBack { pid: named.pid, holds_pidfd: opened is Ok },
                },
            ),
            _ => self,
        }
    }

    /// Go on with what the host answered.
    pub fn on(self, answer: AbandonAnswer) -> (a: Abandoning)
        ensures
            a == self.spec_on(answer),
    {
        match (self, answer) {
            (Abandoning::Check(named), AbandonAnswer::Unreaped(unreaped)) => if unreaped {
                Abandoning::Kill(named)
            } else {
                Abandoning::Done(Abandoned::Ended)
            },
            (Abandoning::Kill(named), AbandonAnswer::Killed(Ok(()))) => Abandoning::KillGroup(
                named,
                None,
            ),
            (Abandoning::Kill(named), AbandonAnswer::Killed(Err(e))) => if e.is_errno(
                errno::ESRCH,
            ) {
                Abandoning::Done(Abandoned::Ended)
            } else {
                Abandoning::KillGroup(named, Some(e))
            },
            (Abandoning::KillGroup(named, refused), AbandonAnswer::GroupKilled(_)) => match refused {
                None => Abandoning::Reap(named),
                Some(e) => Abandoning::CheckExited(named, e),
            },
            (Abandoning::Reap(_), AbandonAnswer::Reaped) => Abandoning::Done(Abandoned::Ended),
            (Abandoning::CheckExited(named, kill), AbandonAnswer::Exited(exited)) => if exited {
                Abandoning::Done(Abandoned::Ended)
            } else if named.handle == Handle::Pidfd {
                let child = HandedBack { pid: named.pid, holds_pidfd: true };
                Abandoning::Done(Abandoned::HandedBack { kill, child })
            } else {
                Abandoning::OpenPidfd(named, kill)
            },
            (Abandoning::OpenPidfd(named, kill), AbandonAnswer::Pidfd(opened)) => {
                let child = HandedBack { pid: named.pid, holds_pidfd: opened.is_ok() };
                Abandoning::Done(Abandoned::HandedBack { kill, child })
            },
            (state, _) => state,
        }
    }
}

/// The record of a group that could not be killed. The kill of the child itself stands.
pub fn group_kill_record(pid: u32, e: &OsError) -> (r: Record)
    ensures
        r.level == Level::Debug,
        r.message@ == "killing the process group of abandoned child "@ + text::decimal(pid as nat)
            + " failed ("@ + e.text@ + ")"@,
{
    let mut message = "killing the process group of abandoned child ".to_owned();
    text::push_decimal(&mut message, pid as u64);
    message.append(" failed (");
    message.append(e.text.as_str());
    message.append(")");
    Record { level: Level::Debug, message }
}

impl Abandoned {
    /// What a drop says of the child that it leaves behind. A drop never waits: a child that refused
    /// its kill is leaked, as is one that is out of reach.
    pub fn leaked(&self) -> (r: Option<Record>)
        ensures
            match self {
                Abandoned::HandedBack { kill, child } => r matches Some(record) && record.level
                    == Level::Warn && record.message@ == "leaking unkillable child "@ + text::decimal(
                    child.pid as nat,
                ) + " ("@ + kill.text@ + ")"@,
                Abandoned::OutOfReach => r matches Some(record) && record.level == Level::Warn
                    && record.message@ == OUT_OF_REACH@,
                _ => r is None,
            },
    {
        match self {
            Abandoned::HandedBack { kill, child } => {
                let mut message = "leaking unkillable child ".to_owned();
                text::push_decimal(&mut message, child.pid as u64);
                message.append(" (");
                message.append(kill.text.as_str());
                message.append(")");
                Some(Record { level: Level::Warn, message })
            },
            Abandoned::OutOfReach => Some(
                Record { level: Level::Warn, message: OUT_OF_REACH.to_owned() },
            ),
            _ => None,
        }
    }
}

/// What is said of a child that sent no handle on itself.
pub const OUT_OF_REACH: &'static str =
    "an abandoned child sent no handle on itself; it is out of reach, and was not signalled";

/// Where ending the child stands after the host's answers, in turn.
pub open spec fn abandon_run(received: Received, answers: Seq<AbandonAnswer>) -> Abandoning
    decreases answers.len(),
{
    if answers.len() == 0 {
        Abandoning::spec_start(received)
    } else {
        abandon_run(received, answers.drop_last()).spec_on(answers.last())
    }
}

/// Whether the child, or the group it leads, is being signalled.
pub open spec fn signals(a: Abandoning) -> bool {
    a is Kill || a is KillGroup
}

/// The child that is being dealt with.
pub open spec fn named_in(a: Abandoning) -> Option<Named> {
    match a {
        Abandoning::Check(named) => Some(named),
        Abandoning::Kill(named) => Some(named),
        Abandoning::KillGroup(named, _) => Some(named),
        Abandoning::Reap(named) => Some(named),
        Abandoning::CheckExited(named, _) => Some(named),
        Abandoning::OpenPidfd(named, _) => Some(named),
        Abandoning::Done(_) => None,
    }
}

/// Whether the answer `i` was that the child is unreaped, read through its handle when that was asked.
pub open spec fn found_unreaped(
    received: Received,
    answers: Seq<AbandonAnswer>,
    i: int,
) -> bool {
    abandon_run(received, answers.take(i)) is Check && answers[i] == AbandonAnswer::Unreaped(true)
}

/// A child is only ever dealt with through the handle that its intent carried: one that is signalled,
/// reaped or handed back is the child that the handle names, and one without a handle is never
/// signalled, whatever process its number names.
pub proof fn law_signalled_only_through_a_handle(received: Received, answers: Seq<AbandonAnswer>)
    ensures
        named_in(abandon_run(received, answers)) is Some ==> named_in(abandon_run(received, answers))
            == received.named(),
        abandon_run(received, answers) matches Abandoning::Done(Abandoned::HandedBack { child, .. })
            ==> received.named() is Some && child.pid == received.named()->0.pid,
        received.named() is None ==> abandon_run(received, answers) is Done,
    decreases answers.len(),
{
    if answers.len() > 0 {
        law_signalled_only_through_a_handle(received, answers.drop_last());
    }
}

/// A child that was not found unreaped is never signalled, reaped or handed back: something else
/// reaped it, and nothing of it is left.
pub proof fn law_only_an_unreaped_child_is_signalled(
    received: Received,
    answers: Seq<AbandonAnswer>,
)
    ensures
        (named_in(abandon_run(received, answers)) is Some && !(abandon_run(received, answers)
            is Check)) || (abandon_run(received, answers) matches Abandoning::Done(
            Abandoned::HandedBack { .. },
        )) ==> exists|i: int|
            0 <= i < answers.len() && #[trigger] found_unreaped(received, answers, i),
    decreases answers.len(),
{
    if answers.len() > 0 {
        let before = answers.drop_last();
        let n = before.len() as int;
        law_only_an_unreaped_child_is_signalled(received, before);
        assert(answers.take(n) =~= before);
        if exists|i: int| 0 <= i < before.len() && #[trigger] found_unreaped(received, before, i) {
            let i = choose|i: int|
                0 <= i < before.len() && #[trigger] found_unreaped(received, before, i);
            assert(answers.take(i) =~= before.take(i));
            assert(found_unreaped(received, answers, i));
        }
        if abandon_run(received, before) is Check {
            assert(signals(abandon_run(received, answers)) ==> found_unreaped(received, answers, n));
        }
    }
}

/// Whether the answer `i` was that the child's own kill was sent.
pub open spec fn kill_sent(received: Received, answers: Seq<AbandonAnswer>, i: int) -> bool {
    abandon_run(received, answers.take(i)) is Kill && (answers[i] matches AbandonAnswer::Killed(
        Ok(_),
    ))
}

/// A child is waited for only once its own kill was sent: one that refused it is handed back, or was
/// found exited already, and never waited for, which could last as long as it runs.
pub proof fn law_a_child_that_refused_is_not_waited_for(
    received: Received,
    answers: Seq<AbandonAnswer>,
)
    ensures
        abandon_run(received, answers) is Reap || (abandon_run(received, answers)
            matches Abandoning::KillGroup(_, None)) ==> exists|i: int|
            0 <= i < answers.len() && #[trigger] kill_sent(received, answers, i),
    decreases answers.len(),
{
    if answers.len() > 0 {
        let before = answers.drop_last();
        let n = before.len() as int;
        law_a_child_that_refused_is_not_waited_for(received, before);
        assert(answers.take(n) =~= before);
        if exists|i: int| 0 <= i < before.len() && #[trigger] kill_sent(received, before, i) {
            let i = choose|i: int|
                0 <= i < before.len() && #[trigger] kill_sent(received, before, i);
            assert(answers.take(i) =~= before.take(i));
            assert(kill_sent(received, answers, i));
        }
        if abandon_run(received, before) is Kill {
            assert((abandon_run(received, answers) matches Abandoning::KillGroup(_, None))
                ==> kill_sent(received, answers, n));
        }
    }
}

/// How many answers ending the child can still take.
pub open spec fn abandon_rank(a: Abandoning) -> nat {
    match a {
        Abandoning::Check(_) => 5,
        Abandoning::Kill(_) => 4,
        Abandoning::KillGroup(..) => 3,
        Abandoning::CheckExited(..) => 2,
        Abandoning::Reap(_) | Abandoning::OpenPidfd(..) => 1,
        Abandoning::Done(_) => 0,
    }
}

/// Whether `answer` answers what `a` asks.
pub open spec fn abandon_answers(a: Abandoning, answer: AbandonAnswer) -> bool {
    match a {
        Abandoning::Check(_) => answer is Unreaped,
        Abandoning::Kill(_) => answer is Killed,
        Abandoning::KillGroup(..) => answer is GroupKilled,
        Abandoning::Reap(_) => answer is Reaped,
        Abandoning::CheckExited(..) => answer is Exited,
        Abandoning::OpenPidfd(..) => answer is Pidfd,
        Abandoning::Done(_) => false,
    }
}

/// Each answer to what was asked brings the end nearer: nothing is retried.
pub proof fn law_abandoning_ends(a: Abandoning, answer: AbandonAnswer)
    requires
        abandon_answers(a, answer),
    ensures
        abandon_rank(a.spec_on(answer)) < abandon_rank(a),
{
}

/// Whether each of `answers`, in turn, answers what ending the child asks then.
pub open spec fn abandon_asked(received: Received, answers: Seq<AbandonAnswer>) -> bool
    decreases answers.len(),
{
    answers.len() == 0 || abandon_asked(received, answers.drop_last()) && abandon_answers(
        abandon_run(received, answers.drop_last()),
        answers.last(),
    )
}

/// What becomes of an abandoned child is what the host answered. Nothing is asked about a child that
/// sent no intent, or no handle on itself. Any other is looked at first; one still unreaped is killed,
/// and its group after it whether or not it could be, unless it was reaped in between; one that took
/// the kill is waited for, and one that refused it is looked at once more and, if it runs on, handed
/// back with that refusal: with the pidfd that it sent, or with one opened then, where that succeeded.
pub proof fn law_abandoning_ends_as_the_host_answered(
    received: Received,
    answers: Seq<AbandonAnswer>,
)
    requires
        abandon_asked(received, answers),
    ensures
        ({
            let n = answers.len();
            let last = answers[n - 1];
            let holds_pidfd = received.pidfd;
            match abandon_run(received, answers) {
                Abandoning::Check(named) => n == 0 && received.pid == Some(named.pid) && (named.handle
                    is Pidfd <==> received.pidfd) && (received.pidfd || received.proc_dir),
                Abandoning::Kill(_) => n == 1 && last == AbandonAnswer::Unreaped(true),
                Abandoning::KillGroup(_, refused) => n == 2 && (last matches AbandonAnswer::Killed(
                    killed,
                ) && match refused {
                    None => killed is Ok,
                    Some(e) => killed == Err::<(), OsError>(e) && e.errno != Some(3i32),
                }),
                Abandoning::Reap(_) => n == 3 && last is GroupKilled && (answers[1]
                    matches AbandonAnswer::Killed(Ok(_))),
                Abandoning::CheckExited(_, e) => n == 3 && last is GroupKilled && answers[1]
                    == AbandonAnswer::Killed(Err(e)),
                Abandoning::OpenPidfd(_, e) => n == 4 && last == AbandonAnswer::Exited(false)
                    && answers[1] == AbandonAnswer::Killed(Err(e)) && !holds_pidfd,
                Abandoning::Done(Abandoned::MaybeUnreaped) => n == 0 && received.pid is None,
                Abandoning::Done(Abandoned::OutOfReach) => n == 0 && received.pid is Some
                    && !received.pidfd && !received.proc_dir,
                Abandoning::Done(Abandoned::Ended) => {
                    ||| n == 1 && last == AbandonAnswer::Unreaped(false)
                    ||| n == 2 && (last matches AbandonAnswer::Killed(Err(e)) && e.errno == Some(3i32))
                    ||| n == 4 && last is Reaped
                    ||| n == 4 && last == AbandonAnswer::Exited(true)
                },
                Abandoning::Done(Abandoned::HandedBack { kill, child }) => {
                    &&& n > 3 && answers[1] == AbandonAnswer::Killed(Err(kill))
                    &&& received.pid == Some(child.pid)
                    &&& {
                        ||| n == 4 && last == AbandonAnswer::Exited(false) && holds_pidfd
                            && child.holds_pidfd
                        ||| n == 5 && !holds_pidfd && (last matches AbandonAnswer::Pidfd(opened) && (
                        child.holds_pidfd <==> opened is Ok))
                    }
                },
            }
        }),
    decreases answers.len(),
{
    law_signalled_only_through_a_handle(received, answers);
    if answers.len() > 0 {
        let before = answers.drop_last();
        law_abandoning_ends_as_the_host_answered(received, before);
        law_signalled_only_through_a_handle(received, before);
        if before.len() > 1 {
            assert(answers[1] == before[1]);
        }
    }
}

/// An answer to something that was not asked leaves it where it stands.
pub proof fn law_abandoning_takes_only_answers(a: Abandoning, answer: AbandonAnswer)
    requires
        !abandon_answers(a, answer),
    ensures
        a.spec_on(answer) == a,
{
}

/// What no message said is not received: a child that sent no report has none, and one that sent no
/// intent is not known, nor named by any handle.
pub proof fn law_nothing_is_received_that_was_not_sent(messages: Seq<Incoming>)
    ensures
        (forall|j: int| 0 <= j < messages.len() ==> !(#[trigger] messages[j] is Report))
            ==> received_of(messages).report is None,
        (forall|j: int| 0 <= j < messages.len() ==> !(#[trigger] messages[j] is Intent))
            ==> received_of(messages).pid is None && received_of(messages).named() is None
            && !received_of(messages).pidfd && !received_of(messages).proc_dir,
    decreases messages.len(),
{
    if messages.len() > 0 {
        let before = messages.drop_last();
        law_nothing_is_received_that_was_not_sent(before);
        assert forall|j: int| 0 <= j < before.len() implies before[j] == #[trigger] messages[j] by {}
        assert(messages.last() == messages[messages.len() - 1]);
    }
}

/// A child is named exactly where its pid came with a handle, by that pid; a pidfd comes before a
/// directory where both are there.
pub proof fn law_a_child_is_named_by_its_handle(received: Received)
    ensures
        received.named() is Some <==> received.pid is Some && (received.pidfd || received.proc_dir),
        received.named() matches Some(named) ==> received.pid == Some(named.pid) && (named.handle
            == Handle::Pidfd <==> received.pidfd),
{
}

} // verus!
