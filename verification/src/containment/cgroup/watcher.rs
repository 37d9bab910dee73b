//! A leaf's shared watcher: one watch, one pump, any number of waits.
//!
//! A leaf holds a single inotify instance for its life, and two waits cannot read one: each would
//! consume events the other needs. So one thread reads it, the leaf's pump, and broadcasts every batch
//! of events that bears on the leaf. Waits never touch the descriptor. Each reads the leaf's state
//! first, and answers from it if the leaf has drained or the wait cannot block; only then does it
//! listen, starting the pump, read the leaf again, and wait for the next broadcast.

use vstd::prelude::*;
use vstd::string::*;

use crate::containment::cgroup::drain::{timeout, Timeout};
use crate::containment::cgroup::drain;
use crate::containment::TreeDrain;
use crate::errno;
use crate::errno::{ErrorKind, OsError};

verus! {

/// The pump thread's name: at most 15 bytes, or Linux truncates it.
pub const PUMP_THREAD: &'static str = "cosca-cgrp-pump";

/// Why a pump stopped on its own.
#[derive(Debug)]
pub enum PumpFailure {
    /// It was started with no watch.
    NeverArmed,
    /// Its watch could not be polled.
    Poll(OsError),
    /// Its watch could not be read.
    Read(OsError),
}

impl PumpFailure {
    /// The failure in words.
    pub open spec fn text(self) -> Seq<char> {
        match self {
            PumpFailure::NeverArmed => "its watch was never armed"@,
            PumpFailure::Poll(e) => "its watch could not be polled ("@ + e.text@ + ")"@,
            PumpFailure::Read(e) => "its watch could not be read ("@ + e.text@ + ")"@,
        }
    }

    /// The failure in words.
    pub fn to_string(&self) -> (s: String)
        ensures
            s@ == self.text(),
    {
        match self {
            PumpFailure::NeverArmed => "its watch was never armed".to_owned(),
            PumpFailure::Poll(e) => {
                let mut s = "its watch could not be polled (".to_owned();
                s.append(e.text.as_str());
                s.append(")");
                s
            },
            PumpFailure::Read(e) => {
                let mut s = "its watch could not be read (".to_owned();
                s.append(e.text.as_str());
                s.append(")");
                s
            },
        }
    }

    /// What a wait fails with, once the pump it listens to has stopped on its own.
    pub fn wait_error(&self) -> (e: OsError)
        ensures
            e.errno is None,
            e.kind == ErrorKind::Other,
            e.text@ == "the cgroup leaf can no longer be watched: "@ + self.text(),
    {
        let mut text = "the cgroup leaf can no longer be watched: ".to_owned();
        let why = self.to_string();
        text.append(why.as_str());
        OsError::other(text)
    }
}

/// A pump: what to do next, or how it ended.
#[derive(Debug)]
pub enum Pump {
    /// Block until the watch is readable or the pump is told to stop.
    Poll,
    /// Take in what made the watch readable.
    Consume,
    /// Told to stop.
    Stopped,
    Failed(PumpFailure),
}

/// What the host answered.
#[derive(Debug)]
pub enum PumpAnswer {
    /// Whether the pump was told to stop.
    Polled(Result<bool, OsError>),
    /// Whether anything taken in bears on the leaf, and whether the leaf has been seen removed.
    Consumed(Result<(bool, bool), OsError>),
}

/// What a pump does for the waits as it goes on.
#[derive(Debug, Clone, Copy, PartialEq, Eq, Structural)]
pub struct PumpEffect {
    /// Record that the leaf was seen removed.
    pub mark_gone: bool,
    /// Wake every wait.
    pub notify: bool,
}

impl Pump {
    /// How a pump begins, given whether the leaf has a watch.
    pub open spec fn spec_start(armed: bool) -> Pump {
        if armed {
            Pump::Poll
        } else {
            Pump::Failed(PumpFailure::NeverArmed)
        }
    }

    /// How the pump goes on. An answer to something that was not asked changes nothing.
    pub open spec fn spec_on(self, answer: PumpAnswer) -> Pump {
        match (self, answer) {
            (Pump::Poll, PumpAnswer::Polled(Ok(stop))) => if stop {
                Pump::Stopped
            } else {
                Pump::Consume
            },
            (Pump::Poll, PumpAnswer::Polled(Err(e))) => if e.errno == Some(errno::EINTR) {
                Pump::Poll
            } else {
                Pump::Failed(PumpFailure::Poll(e))
            },
            (Pump::Consume, PumpAnswer::Consumed(Ok(_))) => Pump::Poll,
            (Pump::Consume, PumpAnswer::Consumed(Err(e))) => Pump::Failed(PumpFailure::Read(e)),
            _ => self,
        }
    }

    /// What the pump does for the waits on `answer`: it wakes them when something bears on the leaf,
    /// and when it stops on its own, so that they read why.
    pub open spec fn spec_effect(self, answer: PumpAnswer) -> PumpEffect {
        match (self, answer) {
            (Pump::Consume, PumpAnswer::Consumed(Ok((changed, gone)))) => PumpEffect {
                mark_gone: gone,
                notify: changed,
            },
            _ => PumpEffect {
                mark_gone: false,
                notify: !(self is Failed) && self.spec_on(answer) is Failed,
            },
        }
    }

    /// Begin. A pump without a watch fails, rather than end silently: its waits are to be woken
    /// with the reason.
    pub fn run_pump(armed: bool) -> (r: (Pump, PumpEffect))
        ensures
            r.0 == Self::spec_start(armed),
            !r.1.mark_gone,
            r.1.notify == !armed,
    {
        if armed {
            (Pump::Poll, PumpEffect { mark_gone: false, notify: false })
        } else {
            (
                Pump::Failed(PumpFailure::NeverArmed),
                PumpEffect { mark_gone: false, notify: true },
            )
        }
    }

    /// Go on with what the host answered.
    pub fn on(self, answer: PumpAnswer) -> (r: (Pump, PumpEffect))
        ensures
            r.0 == self.spec_on(answer),
            r.1 == self.spec_effect(answer),
    {
        let quiet = PumpEffect { mark_gone: false, notify: false };
        let loud = PumpEffect { mark_gone: false, notify: true };
        match (self, answer) {
            (Pump::Poll, PumpAnswer::Polled(Ok(stop))) => if stop {
                (Pump::Stopped, quiet)
            } else {
                (Pump::Consume, quiet)
            },
            (Pump::Poll, PumpAnswer::Polled(Err(e))) => if e.is_errno(errno::EINTR) {
                (Pump::Poll, quiet)
            } else {
                (Pump::Failed(PumpFailure::Poll(e)), loud)
            },
            (Pump::Consume, PumpAnswer::Consumed(Ok((changed, gone)))) => (
                Pump::Poll,
                PumpEffect { mark_gone: gone, notify: changed },
            ),
            (Pump::Consume, PumpAnswer::Consumed(Err(e))) => (
                Pump::Failed(PumpFailure::Read(e)),
                loud,
            ),
            (state, _) => (state, quiet),
        }
    }
}

/// A wait through a leaf's watcher: what to do next, or how it ended.
#[derive(Debug)]
pub enum WatchedWait {
    /// Read whether the leaf has a member, listening to nothing yet.
    Look,
    /// See whether the wait can block at all.
    LookTime,
    /// Listen for the pump's next broadcast, starting the pump if it is not running.
    Listen,
    /// Read whether the leaf has a member, now listening.
    Read,
    /// See whether the pump has stopped on its own, and how much time is left.
    CheckTime,
    /// Block until the broadcast, no longer than this. `None` is without limit.
    Block(Option<Timeout>),
    Done(TreeDrain),
    /// The leaf could not be read, or the pump could not be started.
    Failed(OsError),
    /// The pump stopped on its own, and will not broadcast again.
    Unwatched,
}

/// What the host answered.
#[derive(Debug)]
pub enum WatchedAnswer {
    Populated(Result<bool, OsError>),
    /// The seconds and nanoseconds left; `None` where the wait has no deadline.
    TimeLeft(Option<(u64, u32)>),
    Listening(Result<(), OsError>),
    /// The pump has stopped on its own.
    PumpFailed,
    /// The pump broadcast.
    Woken,
    /// The time is up.
    TimedOut,
}

impl WatchedWait {
    /// How the wait goes on. An answer to something that was not asked changes nothing.
    pub open spec fn spec_on(self, answer: WatchedAnswer) -> WatchedWait {
        match (self, answer) {
            (WatchedWait::Look, WatchedAnswer::Populated(Ok(populated))) => if populated {
                WatchedWait::LookTime
            } else {
                WatchedWait::Done(TreeDrain::AllMembersExited)
            },
            (WatchedWait::Look, WatchedAnswer::Populated(Err(e))) => WatchedWait::Failed(e),
            (WatchedWait::LookTime, WatchedAnswer::TimeLeft(left)) => if left == Some((0u64, 0u32)) {
                WatchedWait::Done(TreeDrain::MembersRemain)
            } else {
                WatchedWait::Listen
            },
            (WatchedWait::Listen, WatchedAnswer::Listening(Ok(()))) => WatchedWait::Read,
            (WatchedWait::Listen, WatchedAnswer::Listening(Err(e))) => WatchedWait::Failed(e),
            (WatchedWait::Read, WatchedAnswer::Populated(Ok(populated))) => if populated {
                WatchedWait::CheckTime
            } else {
                WatchedWait::Done(TreeDrain::AllMembersExited)
            },
            (WatchedWait::Read, WatchedAnswer::Populated(Err(e))) => WatchedWait::Failed(e),
            (WatchedWait::CheckTime, WatchedAnswer::PumpFailed) => WatchedWait::Unwatched,
            (WatchedWait::CheckTime, WatchedAnswer::TimeLeft(left)) => match left {
                None => WatchedWait::Block(None),
                Some((seconds, nanoseconds)) => if seconds == 0 && nanoseconds == 0 {
                    WatchedWait::Done(TreeDrain::MembersRemain)
                } else {
                    WatchedWait::Block(Some(drain::spec_timeout(seconds, nanoseconds)))
                },
            },
            (WatchedWait::Block(_), WatchedAnswer::Woken) => WatchedWait::Listen,
            (WatchedWait::Block(_), WatchedAnswer::TimedOut) => WatchedWait::Look,
            _ => self,
        }
    }

    /// Begin a wait.
    pub fn start() -> (w: WatchedWait)
        ensures
            w == WatchedWait::Look,
    {
        WatchedWait::Look
    }

    /// Go on with what the host answered.
    pub fn on(self, answer: WatchedAnswer) -> (w: WatchedWait)
        ensures
            w == self.spec_on(answer),
    {
        match (self, answer) {
            (WatchedWait::Look, WatchedAnswer::Populated(Ok(populated))) => if populated {
                WatchedWait::LookTime
            } else {
                WatchedWait::Done(TreeDrain::AllMembersExited)
            },
            (WatchedWait::Look, WatchedAnswer::Populated(Err(e))) => WatchedWait::Failed(e),
            (WatchedWait::LookTime, WatchedAnswer::TimeLeft(left)) => {
                let none_left = match left {
                    Some((seconds, nanoseconds)) => seconds == 0 && nanoseconds == 0,
                    None => false,
                };
                if none_left {
                    WatchedWait::Done(TreeDrain::MembersRemain)
                } else {
                    WatchedWait::Listen
                }
            },
            (WatchedWait::Listen, WatchedAnswer::Listening(Ok(()))) => WatchedWait::Read,
            (WatchedWait::Listen, WatchedAnswer::Listening(Err(e))) => WatchedWait::Failed(e),
            (WatchedWait::Read, WatchedAnswer::Populated(Ok(populated))) => if populated {
                WatchedWait::CheckTime
            } else {
                WatchedWait::Done(TreeDrain::AllMembersExited)
            },
            (WatchedWait::Read, WatchedAnswer::Populated(Err(e))) => WatchedWait::Failed(e),
            (WatchedWait::CheckTime, WatchedAnswer::PumpFailed) => WatchedWait::Unwatched,
            (WatchedWait::CheckTime, WatchedAnswer::TimeLeft(left)) => match left {
                None => WatchedWait::Block(None),
                Some((seconds, nanoseconds)) => if seconds == 0 && nanoseconds == 0 {
                    WatchedWait::Done(TreeDrain::MembersRemain)
                } else {
                    WatchedWait::Block(Some(timeout(seconds, nanoseconds)))
                },
            },
            (WatchedWait::Block(_), WatchedAnswer::Woken) => WatchedWait::Listen,
            (WatchedWait::Block(_), WatchedAnswer::TimedOut) => WatchedWait::Look,
            (state, _) => state,
        }
    }
}

/// Where a wait stands after the host's answers, in turn.
pub open spec fn watched_run(answers: Seq<WatchedAnswer>) -> WatchedWait
    decreases answers.len(),
{
    if answers.len() == 0 {
        WatchedWait::Look
    } else {
        watched_run(answers.drop_last()).spec_on(answers.last())
    }
}

/// Whether the wait is listening to a broadcast that it has not been woken by.
pub open spec fn listening(w: WatchedWait) -> bool {
    w is Read || w is CheckTime || w is Block
}

/// Whether the wait, after the first `n` answers, has been listening since the answer `listened`.
pub open spec fn listens_since(answers: Seq<WatchedAnswer>, listened: int, n: int) -> bool {
    &&& 0 <= listened < n
    &&& watched_run(answers.take(listened)) is Listen
    &&& forall|k: int| listened < k <= n ==> listening(#[trigger] watched_run(answers.take(k)))
}

/// Whether the answer `at` is a reading of the leaf as populated, taken while listening.
pub open spec fn reads_populated(answers: Seq<WatchedAnswer>, at: int) -> bool {
    watched_run(answers.take(at)) is Read && answers[at] == WatchedAnswer::Populated(Ok(true))
}

/// No lost wake-up: a wait blocks only after it began to listen and then read the leaf as populated,
/// listening all along. A change that the reading missed comes after the listener existed, and wakes
/// it.
pub proof fn law_a_wait_listens_before_the_read_it_blocks_on(answers: Seq<WatchedAnswer>)
    requires
        watched_run(answers) is Block,
    ensures
        exists|listened: int, read: int| #[trigger]
            listens_since(answers, listened, answers.len() as int) && listened < read
                < answers.len() && #[trigger] reads_populated(answers, read),
{
    let n = answers.len() as int;
    assert(answers.take(n) =~= answers);
    let (listened, read) = lemma_listening_since(answers, n);
    assert(listens_since(answers, listened, n) && reads_populated(answers, read));
}

/// While the wait listens, there is a listen that began it; past the reading, there is that too.
proof fn lemma_listening_since(answers: Seq<WatchedAnswer>, n: int) -> (r: (int, int))
    requires
        0 <= n <= answers.len(),
        listening(watched_run(answers.take(n))),
    ensures
        listens_since(answers, r.0, n),
        !(watched_run(answers.take(n)) is Read) ==> r.0 < r.1 < n && reads_populated(answers, r.1),
    decreases n,
{
    if n == 0 {
        assert(answers.take(0).len() == 0);
        (0, 0)
    } else {
        let m = n - 1;
        assert(answers.take(n).drop_last() =~= answers.take(m));
        assert(answers.take(n).last() == answers[m]);
        let before = watched_run(answers.take(m));
        assert(watched_run(answers.take(n)) == before.spec_on(answers[m]));
        if before is Listen {
            assert forall|k: int| m < k <= n implies listening(
                #[trigger] watched_run(answers.take(k)),
            ) by {
                assert(k == n);
            }
            (m, m)
        } else {
            let (listened, read) = lemma_listening_since(answers, m);
            assert forall|k: int| listened < k <= n implies listening(
                #[trigger] watched_run(answers.take(k)),
            ) by {
                if k > m {
                    assert(k == n);
                }
            }
            if before is Read {
                (listened, m)
            } else {
                (listened, read)
            }
        }
    }
}

/// Whether `answer` answers what `w` asks of the host.
pub open spec fn watched_answers(w: WatchedWait, answer: WatchedAnswer) -> bool {
    match w {
        WatchedWait::Look | WatchedWait::Read => answer is Populated,
        WatchedWait::LookTime => answer is TimeLeft,
        WatchedWait::Listen => answer is Listening,
        WatchedWait::CheckTime => answer is TimeLeft || answer is PumpFailed,
        WatchedWait::Block(_) => answer is Woken || answer is TimedOut,
        WatchedWait::Done(_) | WatchedWait::Failed(_) | WatchedWait::Unwatched => false,
    }
}

/// Whether each of `answers`, in turn, answers what the wait asks then.
pub open spec fn watched_asked(answers: Seq<WatchedAnswer>) -> bool
    decreases answers.len(),
{
    answers.len() == 0 || watched_asked(answers.drop_last()) && watched_answers(
        watched_run(answers.drop_last()),
        answers.last(),
    )
}

/// What the last reading of the leaf among `answers` said; `None` where there was none.
pub open spec fn last_watched_reading(answers: Seq<WatchedAnswer>) -> Option<Result<bool, OsError>>
    decreases answers.len(),
{
    if answers.len() == 0 {
        None
    } else {
        match answers.last() {
            WatchedAnswer::Populated(reading) => Some(reading),
            _ => last_watched_reading(answers.drop_last()),
        }
    }
}

/// A watched wait answers from its last reading of the leaf. It ends with every member gone exactly
/// where that reading said so, taken before it began to listen or after; and with members left only
/// where that reading said that there are some and the time left was then read as none.
pub proof fn law_a_watched_wait_answers_from_its_last_reading(answers: Seq<WatchedAnswer>)
    requires
        watched_asked(answers),
    ensures
        watched_run(answers) == WatchedWait::Done(TreeDrain::AllMembersExited)
            <==> last_watched_reading(answers) == Some(Ok::<bool, OsError>(false)),
        watched_run(answers) == WatchedWait::Done(TreeDrain::MembersRemain) ==> {
            &&& last_watched_reading(answers) == Some(Ok::<bool, OsError>(true))
            &&& answers.len() > 1
            &&& answers.last() == WatchedAnswer::TimeLeft(Some((0, 0)))
        },
        // Members left are found nowhere else: no time left, just after such a reading, ends it so.
        answers.len() > 1 && answers.last() == WatchedAnswer::TimeLeft(Some((0, 0)))
            && answers[answers.len() - 2] == WatchedAnswer::Populated(Ok(true)) ==> watched_run(
            answers,
        ) == WatchedWait::Done(TreeDrain::MembersRemain),
        watched_run(answers) != WatchedWait::Done(TreeDrain::AllMarkersClosed),
        // A reading that failed ends it with that error.
        last_watched_reading(answers) matches Some(Err(e)) ==> watched_run(answers)
            == WatchedWait::Failed(e),
    decreases answers.len(),
{
    law_a_watched_wait_ends_as_the_host_answered(answers);
    if answers.len() > 0 {
        let before = answers.drop_last();
        law_a_watched_wait_answers_from_its_last_reading(before);
        if before.len() > 0 {
            reveal_with_fuel(watched_asked, 2);
            law_a_watched_wait_ends_as_the_host_answered(before);
            law_a_watched_wait_answers_from_its_last_reading(before.drop_last());
        }
    }
}

/// Where a watched wait stands is what the host answered last. It looks before it listens, and again
/// whenever a block ran out; it listens once there is time to block and after every broadcast; and it
/// blocks, for what is left of its time and no longer, only on a reading taken while it listened. It
/// fails with the error that was met, and only a pump that stopped on its own leaves it unwatched.
pub proof fn law_a_watched_wait_ends_as_the_host_answered(answers: Seq<WatchedAnswer>)
    requires
        watched_asked(answers),
    ensures
        ({
            let n = answers.len();
            let last = answers[n - 1];
            match watched_run(answers) {
                WatchedWait::Look => n == 0 || last is TimedOut,
                WatchedWait::LookTime => n > 0 && last == WatchedAnswer::Populated(Ok(true)) && (n
                    == 1 || answers[n - 2] is TimedOut),
                WatchedWait::Listen => {
                    ||| n > 0 && last is Woken
                    ||| n > 1 && (last matches WatchedAnswer::TimeLeft(left) && left != Some(
                        (0u64, 0u32),
                    )) && (n == 2 || answers[n - 3] is TimedOut)
                },
                WatchedWait::Read => n > 0 && (last matches WatchedAnswer::Listening(Ok(_))),
                WatchedWait::CheckTime => n > 1 && last == WatchedAnswer::Populated(Ok(true)) && (
                answers[n - 2] matches WatchedAnswer::Listening(Ok(_))),
                WatchedWait::Block(limit) => {
                    &&& n > 2
                    &&& last matches WatchedAnswer::TimeLeft(left) && drain::blocks_for(left, limit)
                    &&& answers[n - 2] == WatchedAnswer::Populated(Ok(true))
                    &&& answers[n - 3] matches WatchedAnswer::Listening(Ok(_))
                },
                WatchedWait::Done(TreeDrain::AllMembersExited) => n > 0 && last
                    == WatchedAnswer::Populated(Ok(false)),
                WatchedWait::Done(TreeDrain::MembersRemain) => n > 1 && last
                    == WatchedAnswer::TimeLeft(Some((0, 0))) && answers[n - 2]
                    == WatchedAnswer::Populated(Ok(true)),
                WatchedWait::Done(TreeDrain::AllMarkersClosed) => false,
                WatchedWait::Failed(e) => n > 0 && (last == WatchedAnswer::Populated(Err(e)) || last
                    == WatchedAnswer::Listening(Err(e))),
                WatchedWait::Unwatched => n > 2 && last is PumpFailed,
            }
        }),
    decreases answers.len(),
{
    if answers.len() > 0 {
        let before = answers.drop_last();
        law_a_watched_wait_ends_as_the_host_answered(before);
        if before.len() > 0 {
            reveal_with_fuel(watched_asked, 2);
            law_a_watched_wait_ends_as_the_host_answered(before.drop_last());
        }
    }
}

/// An answer to something that the wait did not ask leaves it where it stands; so an ended wait stays
/// as it ended.
pub proof fn law_a_watched_wait_takes_only_answers(w: WatchedWait, answer: WatchedAnswer)
    requires
        !watched_answers(w, answer),
    ensures
        w.spec_on(answer) == w,
{
}

/// Where a pump stands after the host's answers, in turn.
pub open spec fn pump_run(armed: bool, answers: Seq<PumpAnswer>) -> Pump
    decreases answers.len(),
{
    if answers.len() == 0 {
        Pump::spec_start(armed)
    } else {
        pump_run(armed, answers.drop_last()).spec_on(answers.last())
    }
}

/// Whether `answer` answers what `pump` asks of the host.
pub open spec fn pump_answers(pump: Pump, answer: PumpAnswer) -> bool {
    match pump {
        Pump::Poll => answer is Polled,
        Pump::Consume => answer is Consumed,
        Pump::Stopped | Pump::Failed(_) => false,
    }
}

/// Whether each of `answers`, in turn, answers what the pump asks then.
pub open spec fn pump_asked(armed: bool, answers: Seq<PumpAnswer>) -> bool
    decreases answers.len(),
{
    answers.len() == 0 || pump_asked(armed, answers.drop_last()) && pump_answers(
        pump_run(armed, answers.drop_last()),
        answers.last(),
    )
}

/// Where a pump stands is what the host answered last. It stops exactly when it was told to, and takes
/// events in exactly when something else woke it; it fails for a watch that it never had, and for what
/// polling or reading that watch met, but not for a signal that broke a poll; and after every batch it
/// polls again.
pub proof fn law_a_pump_ends_as_the_host_answered(armed: bool, answers: Seq<PumpAnswer>)
    requires
        pump_asked(armed, answers),
    ensures
        ({
            let n = answers.len();
            let last = answers[n - 1];
            match pump_run(armed, answers) {
                Pump::Poll => armed && (n == 0 || (last matches PumpAnswer::Consumed(Ok(_))) || (last
                    matches PumpAnswer::Polled(Err(e)) && e.errno == Some(4i32))),
                Pump::Consume => armed && n > 0 && last == PumpAnswer::Polled(Ok(false)),
                Pump::Stopped => armed && n > 0 && last == PumpAnswer::Polled(Ok(true)),
                Pump::Failed(PumpFailure::NeverArmed) => !armed && n == 0,
                Pump::Failed(PumpFailure::Poll(e)) => armed && n > 0 && last == PumpAnswer::Polled(
                    Err(e),
                ) && e.errno != Some(4i32),
                Pump::Failed(PumpFailure::Read(e)) => armed && n > 1 && last
                    == PumpAnswer::Consumed(Err(e)),
            }
        }),
    decreases answers.len(),
{
    if answers.len() > 0 {
        law_a_pump_ends_as_the_host_answered(armed, answers.drop_last());
    }
}

/// The waits are woken exactly by a batch that bears on the leaf and by a pump that ends in failure,
/// and the leaf is recorded as removed exactly by a batch that saw it removed. An answer that was not
/// asked for does neither, and moves nothing.
pub proof fn law_a_pump_wakes_its_waits(pump: Pump, answer: PumpAnswer)
    ensures
        pump_answers(pump, answer) ==> {
            &&& pump.spec_effect(answer).notify <==> answer == PumpAnswer::Consumed(Ok((true, true)))
                || answer == PumpAnswer::Consumed(Ok((true, false))) || pump.spec_on(answer) is Failed
            &&& pump.spec_effect(answer).mark_gone <==> answer == PumpAnswer::Consumed(
                Ok((true, true)),
            ) || answer == PumpAnswer::Consumed(Ok((false, true)))
        },
        !pump_answers(pump, answer) ==> {
            &&& pump.spec_on(answer) == pump
            &&& !pump.spec_effect(answer).notify
            &&& !pump.spec_effect(answer).mark_gone
        },
{
}

/// What is said of a pump that stopped on its own holds the host's words for what stopped it; one that
/// never had a watch is told from both.
pub proof fn law_a_pump_failure_says_what_it_met(e: OsError)
    ensures
        crate::text::mentions(PumpFailure::Poll(e).text(), e.text@),
        crate::text::mentions(PumpFailure::Read(e).text(), e.text@),
        PumpFailure::Poll(e).text() != PumpFailure::Read(e).text(),
        PumpFailure::NeverArmed.text() != PumpFailure::Poll(e).text(),
        PumpFailure::NeverArmed.text() != PumpFailure::Read(e).text(),
{
    let poll = "its watch could not be polled ("@;
    let read = "its watch could not be read ("@;
    reveal_strlit("its watch could not be polled (");
    reveal_strlit("its watch could not be read (");
    reveal_strlit("its watch was never armed");
    crate::text::lemma_mentions(PumpFailure::Poll(e).text(), poll, e.text@, ")"@);
    crate::text::lemma_mentions(PumpFailure::Read(e).text(), read, e.text@, ")"@);
    assert(PumpFailure::Poll(e).text()[23] == poll[23]);
    assert(PumpFailure::Read(e).text()[23] == read[23]);
    assert(PumpFailure::Poll(e).text()[10] == poll[10]);
    assert(PumpFailure::Read(e).text()[10] == read[10]);
    assert("its watch was never armed"@[10] == 'w');
}

} // verus!
