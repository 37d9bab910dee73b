//! Waiting for a cgroup leaf to drain: its `populated` reading 0, or the leaf being removed.
//!
//! A `cgroup.events` notification alone is not enough. The kernel rate-limits them, and removing the
//! cgroup cancels a postponed one without notifying. What a removal does deliver is `IN_DELETE` to its
//! parent directory's watchers. So the watch is one inotify instance holding two watches, both armed
//! before the first read: `IN_MODIFY` on `cgroup.events`, and `IN_DELETE` on the parent, for the
//! leaf's own name.

use vstd::prelude::*;
use vstd::string::*;

use crate::containment::cgroup::parse;
use crate::containment::TreeDrain;
use crate::errno;
use crate::errno::{removed_after_drain, ErrorKind, OsError};

verus! {

pub const NO_POPULATED: &'static str =
    "cgroup.events has no 'populated' field — unexpected kernel format";

/// Whether a leaf still has a member, given what reading its `cgroup.events` from the start gave.
///
/// A leaf removed after every member has exited reads as having none: its removal is itself proof of
/// a full drain. Contents without a readable `populated` field are an error, never a guess.
pub fn read_populated(events: Result<String, OsError>) -> (r: Result<bool, OsError>)
    ensures
        match events {
            Ok(contents) => match parse::populated(contents@) {
                Some(populated) => r == Ok::<bool, OsError>(populated),
                None => r matches Err(e) && e.errno is None && e.kind == ErrorKind::Other && e.text@
                    == NO_POPULATED@,
            },
            Err(e) => r == (if errno::gone(e) {
                Ok(false)
            } else {
                Err(e)
            }),
        },
{
    match events {
        Ok(contents) => match parse::parse_populated(contents.as_str()) {
            Some(populated) => Ok(populated),
            None => Err(OsError::other(NO_POPULATED.to_owned())),
        },
        Err(e) => if removed_after_drain(&e) {
            Ok(false)
        } else {
            Err(e)
        },
    }
}

/// Whether a leaf has a member again, read once from its `cgroup.events`: how opening it went, and what
/// reading it gave. Unlike a failed read, a failed open is never taken for a drain.
pub fn repopulated(opened: Result<Result<String, OsError>, OsError>) -> (r: Result<bool, OsError>)
    ensures
        match opened {
            Err(e) => r == Err::<bool, OsError>(e),
            Ok(Ok(contents)) => match parse::populated(contents@) {
                Some(populated) => r == Ok::<bool, OsError>(populated),
                None => r matches Err(e) && e.errno is None && e.kind == ErrorKind::Other && e.text@
                    == NO_POPULATED@,
            },
            Ok(Err(e)) => r == (if errno::gone(e) {
                Ok(false)
            } else {
                Err(e)
            }),
        },
{
    match opened {
        Err(e) => Err(e),
        Ok(events) => read_populated(events),
    }
}

/// An event of the watch.
#[derive(Debug)]
pub struct WatchEvent {
    /// The watch it belongs to.
    pub wd: i32,
    /// Whether it says that a name was removed from the watched directory.
    pub delete: bool,
    /// Whether it says that the queue overflowed, so that events were lost.
    pub overflow: bool,
    /// The name it is about.
    pub name: Option<Vec<u8>>,
}

/// What a watch on one leaf's drain knows.
#[derive(Debug)]
pub struct DrainWatch {
    /// The parent's watch.
    pub parent: i32,
    /// The leaf's name in its parent.
    pub name: Vec<u8>,
    /// Whether the leaf was seen removed.
    pub gone: bool,
}

/// What to do with an error that taking in events met.
#[derive(Debug)]
pub enum Intake {
    /// Nothing is left to take in.
    End,
    /// Go on.
    Again,
    Failed(OsError),
}

/// What to do with an error that taking in events, without blocking, met.
pub fn after_intake_error(e: OsError) -> (i: Intake)
    ensures
        i == (if e.errno == Some(errno::EAGAIN) {
            Intake::End
        } else if e.errno == Some(errno::EINTR) {
            Intake::Again
        } else {
            Intake::Failed(e)
        }),
{
    if e.is_errno(errno::EAGAIN) {
        Intake::End
    } else if e.is_errno(errno::EINTR) {
        Intake::Again
    } else {
        Intake::Failed(e)
    }
}

/// Whether `a` and `b` are the same bytes.
fn same_bytes(a: &Vec<u8>, b: &Vec<u8>) -> (r: bool)
    ensures
        r == (a@ == b@),
{
    if a.len() != b.len() {
        return false;
    }
    let mut i: usize = 0;
    while i < a.len()
        invariant
            a@.len() == b@.len(),
            i <= a@.len(),
            forall|j: int| 0 <= j < i ==> a@[j] == b@[j],
        decreases a@.len() - i,
    {
        if a[i] != b[i] {
            return false;
        }
        i += 1;
    }
    assert(a@ =~= b@);
    true
}

impl DrainWatch {
    /// Whether `event` says that the leaf was removed.
    pub open spec fn says_removed(&self, event: WatchEvent) -> bool {
        event.wd == self.parent && event.delete && (event.name matches Some(name) && name@
            == self.name@)
    }

    /// Whether `event` bears on the leaf. Everything does but what the parent's watch says of other
    /// names; a queue that overflowed may have lost a change, so it counts as one.
    pub open spec fn bears(&self, event: WatchEvent) -> bool {
        event.overflow || event.wd != self.parent || self.says_removed(event)
    }

    /// A watch whose parent's watch is `parent`, on a leaf not seen removed.
    pub fn new(parent: i32, name: Vec<u8>) -> (w: DrainWatch)
        ensures
            w.parent == parent,
            w.name == name,
            !w.gone,
    {
        DrainWatch { parent, name, gone: false }
    }

    /// Whether an event taken in so far said the leaf was removed.
    pub fn saw_removal(&self) -> (r: bool)
        ensures
            r == self.gone,
    {
        self.gone
    }

    /// Take in one event. Returns whether it bears on the leaf.
    fn take_in(&mut self, event: &WatchEvent) -> (changed: bool)
        ensures
            changed == old(self).bears(*event),
            final(self).gone == (old(self).gone || old(self).says_removed(*event)),
            final(self).parent == old(self).parent,
            final(self).name == old(self).name,
    {
        let named_us = match &event.name {
            Some(name) => same_bytes(name, &self.name),
            None => false,
        };
        let removed = event.wd == self.parent && event.delete && named_us;
        if removed {
            self.gone = true;
        }
        event.overflow || event.wd != self.parent || removed
    }

    /// Take in what made the watch readable. Returns whether anything of it bears on the leaf.
    pub fn consume(&mut self, events: &Vec<WatchEvent>) -> (changed: bool)
        ensures
            changed == exists|i: int| 0 <= i < events@.len() && old(self).bears(#[trigger] events@[i]),
            final(self).gone == (old(self).gone || exists|i: int|
                0 <= i < events@.len() && old(self).says_removed(#[trigger] events@[i])),
            final(self).parent == old(self).parent,
            final(self).name == old(self).name,
    {
        let ghost start = *self;
        let mut changed = false;
        let mut at: usize = 0;
        while at < events.len()
            invariant
                at <= events@.len(),
                self.parent == start.parent,
                self.name == start.name,
                changed == exists|i: int| 0 <= i < at && start.bears(#[trigger] events@[i]),
                self.gone == (start.gone || exists|i: int|
                    0 <= i < at && start.says_removed(#[trigger] events@[i])),
            decreases events@.len() - at,
        {
            let bears = self.take_in(&events[at]);
            proof {
                if start.bears(events@[at as int]) {
                    assert(exists|i: int| 0 <= i < at + 1 && start.bears(#[trigger] events@[i]));
                }
                if start.says_removed(events@[at as int]) {
                    assert(exists|i: int|
                        0 <= i < at + 1 && start.says_removed(#[trigger] events@[i]));
                }
            }
            changed = changed || bears;
            at += 1;
        }
        changed
    }

    /// Whether the leaf still has a member, given what reading its `cgroup.events` gave. A removed
    /// leaf has none.
    pub fn populated(&self, events: Result<String, OsError>) -> (r: Result<bool, OsError>)
        ensures
            self.gone ==> r == Ok::<bool, OsError>(false),
            !self.gone ==> (match events {
                Ok(contents) => match parse::populated(contents@) {
                    Some(populated) => r == Ok::<bool, OsError>(populated),
                    None => r matches Err(e) && e.errno is None && e.kind == ErrorKind::Other
                        && e.text@ == NO_POPULATED@,
                },
                Err(e) => r == (if errno::gone(e) {
                    Ok(false)
                } else {
                    Err(e)
                }),
            }),
    {
        if self.gone {
            return Ok(false);
        }
        read_populated(events)
    }
}

/// A watch being armed: what to do next, or how it ended. Both watches are armed before anything is
/// read, so that a change after the read is always heard.
#[derive(Debug)]
pub enum Arming {
    /// Open the leaf's `cgroup.events`, at fd 3 or above.
    OpenEvents,
    /// Open an inotify instance, at fd 3 or above.
    OpenWatch,
    /// Watch the leaf's parent for removals.
    WatchParent,
    /// Watch `cgroup.events` for changes. The parent's watch is known.
    WatchEvents(i32),
    /// Armed, with the parent's watch.
    Armed(i32),
    /// The leaf is already gone.
    Gone,
    Failed(OsError),
}

impl Arming {
    /// How the arming goes on. `Ok` carries the watch that was added, where one was.
    pub open spec fn spec_on(self, answer: Result<i32, OsError>) -> Arming {
        match (self, answer) {
            (Arming::OpenEvents, Ok(_)) => Arming::OpenWatch,
            (Arming::OpenEvents, Err(e)) => if errno::gone(e) {
                Arming::Gone
            } else {
                Arming::Failed(e)
            },
            (Arming::OpenWatch, Ok(_)) => Arming::WatchParent,
            (Arming::WatchParent, Ok(parent)) => Arming::WatchEvents(parent),
            (Arming::WatchEvents(parent), Ok(_)) => Arming::Armed(parent),
            (Arming::OpenWatch, Err(e)) => Arming::Failed(e),
            (Arming::WatchParent, Err(e)) => Arming::Failed(e),
            (Arming::WatchEvents(_), Err(e)) => Arming::Failed(e),
            _ => self,
        }
    }

    /// Begin to arm a watch.
    pub fn arm() -> (a: Arming)
        ensures
            a == Arming::OpenEvents,
    {
        Arming::OpenEvents
    }

    /// Go on with what the host answered.
    pub fn on(self, answer: Result<i32, OsError>) -> (a: Arming)
        ensures
            a == self.spec_on(answer),
    {
        match (self, answer) {
            (Arming::OpenEvents, Ok(_)) => Arming::OpenWatch,
            (Arming::OpenEvents, Err(e)) => if removed_after_drain(&e) {
                Arming::Gone
            } else {
                Arming::Failed(e)
            },
            (Arming::OpenWatch, Ok(_)) => Arming::WatchParent,
            (Arming::WatchParent, Ok(parent)) => Arming::WatchEvents(parent),
            (Arming::WatchEvents(parent), Ok(_)) => Arming::Armed(parent),
            (Arming::OpenWatch, Err(e)) => Arming::Failed(e),
            (Arming::WatchParent, Err(e)) => Arming::Failed(e),
            (Arming::WatchEvents(_), Err(e)) => Arming::Failed(e),
            (state, _) => state,
        }
    }
}

/// A time span as the host's calls take it.
#[derive(Debug, Clone, Copy, PartialEq, Eq, Structural)]
pub struct Timeout {
    pub seconds: i64,
    pub nanoseconds: u32,
}

/// The span of `seconds` and `nanoseconds`, cut off where the host's clock type ends.
pub open spec fn spec_timeout(seconds: u64, nanoseconds: u32) -> Timeout {
    Timeout {
        seconds: (if seconds > i64::MAX {
            i64::MAX
        } else {
            seconds as i64
        }),
        nanoseconds,
    }
}

/// The span of `seconds` and `nanoseconds`, cut off where the host's clock type ends.
pub fn timeout(seconds: u64, nanoseconds: u32) -> (t: Timeout)
    ensures
        t == spec_timeout(seconds, nanoseconds),
{
    let seconds: i64 = if seconds > i64::MAX as u64 {
        i64::MAX
    } else {
        seconds as i64
    };
    Timeout { seconds, nanoseconds }
}

/// A wait for a leaf to drain: what to do next, or how it ended.
///
/// `populated` is read before every block, not only after: a drain that already happened must be
/// seen on the read, not need an event that will never come again.
#[derive(Debug)]
pub enum DrainWait {
    /// Open the leaf's `cgroup.events`.
    Open,
    /// Read whether the leaf has a member.
    Read,
    /// See how much time is left.
    CheckTime,
    /// Block until the leaf may have changed, no longer than this. `None` is without limit.
    Block(Option<Timeout>),
    /// Take in what woke the wait.
    Consume,
    Done(TreeDrain),
    Failed(OsError),
}

/// What the host answered.
#[derive(Debug)]
pub enum DrainAnswer {
    Opened(Result<(), OsError>),
    Populated(Result<bool, OsError>),
    /// The seconds and nanoseconds left; `None` where the wait has no deadline.
    TimeLeft(Option<(u64, u32)>),
    /// How many descriptors are ready: none means that the time is up.
    Polled(Result<usize, OsError>),
    Consumed(Result<(), OsError>),
}

impl DrainWait {
    /// How the wait goes on. An answer to something that was not asked changes nothing.
    pub open spec fn spec_on(self, answer: DrainAnswer) -> DrainWait {
        match (self, answer) {
            (DrainWait::Open, DrainAnswer::Opened(Ok(()))) => DrainWait::Read,
            (DrainWait::Open, DrainAnswer::Opened(Err(e))) => if errno::gone(e) {
                DrainWait::Done(TreeDrain::AllMembersExited)
            } else {
                DrainWait::Failed(e)
            },
            (DrainWait::Read, DrainAnswer::Populated(Ok(populated))) => if populated {
                DrainWait::CheckTime
            } else {
                DrainWait::Done(TreeDrain::AllMembersExited)
            },
            (DrainWait::Read, DrainAnswer::Populated(Err(e))) => DrainWait::Failed(e),
            (DrainWait::CheckTime, DrainAnswer::TimeLeft(left)) => match left {
                None => DrainWait::Block(None),
                Some((seconds, nanoseconds)) => if seconds == 0 && nanoseconds == 0 {
                    DrainWait::Done(TreeDrain::MembersRemain)
                } else {
                    DrainWait::Block(Some(spec_timeout(seconds, nanoseconds)))
                },
            },
            (DrainWait::Block(_), DrainAnswer::Polled(Ok(ready))) => if ready == 0 {
                DrainWait::Done(TreeDrain::MembersRemain)
            } else {
                DrainWait::Consume
            },
            (DrainWait::Block(_), DrainAnswer::Polled(Err(e))) => if e.errno == Some(errno::EINTR) {
                DrainWait::Read
            } else {
                DrainWait::Failed(e)
            },
            (DrainWait::Consume, DrainAnswer::Consumed(Ok(()))) => DrainWait::Read,
            (DrainWait::Consume, DrainAnswer::Consumed(Err(e))) => DrainWait::Failed(e),
            _ => self,
        }
    }

    /// Begin a wait on a leaf whose `cgroup.events` is not open yet.
    pub fn wait_drained() -> (w: DrainWait)
        ensures
            w == DrainWait::Open,
    {
        DrainWait::Open
    }

    /// Begin a wait on an armed watch.
    pub fn wait() -> (w: DrainWait)
        ensures
            w == DrainWait::Read,
    {
        DrainWait::Read
    }

    /// Go on with what the host answered.
    pub fn on(self, answer: DrainAnswer) -> (w: DrainWait)
        ensures
            w == self.spec_on(answer),
    {
        match (self, answer) {
            (DrainWait::Open, DrainAnswer::Opened(Ok(()))) => DrainWait::Read,
            (DrainWait::Open, DrainAnswer::Opened(Err(e))) => if removed_after_drain(&e) {
                DrainWait::Done(TreeDrain::AllMembersExited)
            } else {
                DrainWait::Failed(e)
            },
            (DrainWait::Read, DrainAnswer::Populated(Ok(populated))) => if populated {
                DrainWait::CheckTime
            } else {
                DrainWait::Done(TreeDrain::AllMembersExited)
            },
            (DrainWait::Read, DrainAnswer::Populated(Err(e))) => DrainWait::Failed(e),
            (DrainWait::CheckTime, DrainAnswer::TimeLeft(left)) => match left {
                None => DrainWait::Block(None),
                Some((seconds, nanoseconds)) => if seconds == 0 && nanoseconds == 0 {
                    DrainWait::Done(TreeDrain::MembersRemain)
                } else {
                    DrainWait::Block(Some(timeout(seconds, nanoseconds)))
                },
            },
            (DrainWait::Block(_), DrainAnswer::Polled(Ok(ready))) => if ready == 0 {
                DrainWait::Done(TreeDrain::MembersRemain)
            } else {
                DrainWait::Consume
            },
            (DrainWait::Block(_), DrainAnswer::Polled(Err(e))) => if e.is_errno(errno::EINTR) {
                DrainWait::Read
            } else {
                DrainWait::Failed(e)
            },
            (DrainWait::Consume, DrainAnswer::Consumed(Ok(()))) => DrainWait::Read,
            (DrainWait::Consume, DrainAnswer::Consumed(Err(e))) => DrainWait::Failed(e),
            (state, _) => state,
        }
    }
}

/// Where a wait stands after the host's answers, in turn.
pub open spec fn drain_run(start: DrainWait, answers: Seq<DrainAnswer>) -> DrainWait
    decreases answers.len(),
{
    if answers.len() == 0 {
        start
    } else {
        drain_run(start, answers.drop_last()).spec_on(answers.last())
    }
}

/// What the last reading of the leaf among `answers` said; `None` where there was none.
pub open spec fn last_reading(answers: Seq<DrainAnswer>) -> Option<bool>
    decreases answers.len(),
{
    if answers.len() == 0 {
        None
    } else {
        match answers.last() {
            DrainAnswer::Populated(Ok(populated)) => Some(populated),
            _ => last_reading(answers.drop_last()),
        }
    }
}

/// Whether `answers` holds only readings that were asked for.
pub open spec fn readings_asked(start: DrainWait, answers: Seq<DrainAnswer>) -> bool {
    forall|i: int|
        0 <= i < answers.len() && #[trigger] answers[i] is Populated ==> drain_run(
            start,
            answers.take(i),
        ) is Read
}

/// A wait on a leaf blocks, and reports that members remain, only while its last reading said so;
/// and it reports that all have exited only when its last reading said that, or the leaf was gone
/// before it could be read at all.
pub proof fn law_a_wait_answers_from_its_last_reading(start: DrainWait, answers: Seq<DrainAnswer>)
    requires
        start is Open || start is Read,
        readings_asked(start, answers),
    ensures
        drain_run(start, answers) is CheckTime || drain_run(start, answers) is Block || drain_run(
            start,
            answers,
        ) is Consume || drain_run(start, answers) == DrainWait::Done(TreeDrain::MembersRemain)
            ==> last_reading(answers) == Some(true),
        drain_run(start, answers) == DrainWait::Done(TreeDrain::AllMembersExited) ==> last_reading(
            answers,
        ) == Some(false) || (last_reading(answers) is None && start is Open),
        drain_run(start, answers) is Open ==> last_reading(answers) is None && start is Open,
        drain_run(start, answers) != DrainWait::Done(TreeDrain::AllMarkersClosed),
    decreases answers.len(),
{
    if answers.len() > 0 {
        let before = answers.drop_last();
        assert(readings_asked(start, before)) by {
            assert forall|i: int|
                0 <= i < before.len() && #[trigger] before[i] is Populated implies drain_run(
                start,
                before.take(i),
            ) is Read by {
                assert(answers[i] == before[i]);
                assert(before.take(i) =~= answers.take(i));
            }
        }
        law_a_wait_answers_from_its_last_reading(start, before);
        if answers.last() is Populated {
            assert(answers[answers.len() - 1] is Populated);
            assert(answers.take(answers.len() - 1) =~= before);
        }
    }
}

/// Whether `answer` answers what `w` asks of the host.
pub open spec fn drain_answers(w: DrainWait, answer: DrainAnswer) -> bool {
    match w {
        DrainWait::Open => answer is Opened,
        DrainWait::Read => answer is Populated,
        DrainWait::CheckTime => answer is TimeLeft,
        DrainWait::Block(_) => answer is Polled,
        DrainWait::Consume => answer is Consumed,
        DrainWait::Done(_) | DrainWait::Failed(_) => false,
    }
}

/// Whether each of `answers`, in turn, answers what the wait asks then.
pub open spec fn drain_asked(start: DrainWait, answers: Seq<DrainAnswer>) -> bool
    decreases answers.len(),
{
    answers.len() == 0 || drain_asked(start, answers.drop_last()) && drain_answers(
        drain_run(start, answers.drop_last()),
        answers.last(),
    )
}

/// Whether a wait with `left` of its time may block no longer than `limit`: without limit exactly
/// where it has no deadline, and otherwise for what is left, to the nanosecond, unless the host's
/// clock type ends before that.
pub open spec fn blocks_for(left: Option<(u64, u32)>, limit: Option<Timeout>) -> bool {
    match (left, limit) {
        (None, None) => true,
        (Some((seconds, nanoseconds)), Some(t)) => {
            &&& seconds > 0 || nanoseconds > 0
            &&& t.nanoseconds == nanoseconds
            &&& t.seconds == seconds || seconds > t.seconds == 0x7fff_ffff_ffff_ffff
        },
        _ => false,
    }
}

/// Where a wait stands is what the host answered last. It ends with every member gone exactly where
/// the leaf read as not populated or was gone when it was to be opened, and with members left exactly
/// where no time was left or a block ran out; it fails with the error that was met, and a block that a
/// signal broke is no error. Every block is followed by a reading before the next.
pub proof fn law_a_drain_ends_as_the_host_answered(start: DrainWait, answers: Seq<DrainAnswer>)
    requires
        start is Open || start is Read,
        drain_asked(start, answers),
    ensures
        ({
            let n = answers.len();
            let last = answers[n - 1];
            match drain_run(start, answers) {
                DrainWait::Open => n == 0 && start is Open,
                DrainWait::Read => {
                    ||| n == 0 && start is Read
                    ||| n == 1 && start is Open && (last matches DrainAnswer::Opened(Ok(_)))
                    ||| n > 0 && (last matches DrainAnswer::Consumed(Ok(_)))
                    ||| n > 0 && (last matches DrainAnswer::Polled(Err(e)) && e.errno == Some(4i32))
                },
                DrainWait::CheckTime => n > 0 && last == DrainAnswer::Populated(Ok(true)),
                DrainWait::Block(limit) => {
                    &&& n > 1
                    &&& last matches DrainAnswer::TimeLeft(left) && blocks_for(left, limit)
                    &&& answers[n - 2] == DrainAnswer::Populated(Ok(true))
                },
                DrainWait::Consume => n > 2 && (last matches DrainAnswer::Polled(Ok(ready)) && ready
                    > 0),
                DrainWait::Done(TreeDrain::AllMembersExited) => {
                    ||| n > 0 && last == DrainAnswer::Populated(Ok(false))
                    ||| n == 1 && (last matches DrainAnswer::Opened(Err(e)) && errno::gone(e))
                },
                DrainWait::Done(TreeDrain::MembersRemain) => {
                    ||| n > 1 && last == DrainAnswer::TimeLeft(Some((0, 0))) && answers[n - 2]
                        == DrainAnswer::Populated(Ok(true))
                    ||| n > 2 && last == DrainAnswer::Polled(Ok(0))
                },
                DrainWait::Done(TreeDrain::AllMarkersClosed) => false,
                DrainWait::Failed(e) => n > 0 && {
                    ||| last == DrainAnswer::Opened(Err(e)) && !errno::gone(e)
                    ||| last == DrainAnswer::Populated(Err(e))
                    ||| last == DrainAnswer::Polled(Err(e)) && e.errno != Some(4i32)
                    ||| last == DrainAnswer::Consumed(Err(e))
                },
            }
        }),
    decreases answers.len(),
{
    if answers.len() > 0 {
        law_a_drain_ends_as_the_host_answered(start, answers.drop_last());
    }
}

/// Where an arming stands after the host's answers, in turn.
pub open spec fn arming_run(answers: Seq<Result<i32, OsError>>) -> Arming
    decreases answers.len(),
{
    if answers.len() == 0 {
        Arming::OpenEvents
    } else {
        arming_run(answers.drop_last()).spec_on(answers.last())
    }
}

/// Whether the first `n` of `answers` are all successes.
pub open spec fn first_succeed(answers: Seq<Result<i32, OsError>>, n: int) -> bool {
    n <= answers.len() && forall|i: int| 0 <= i < n ==> (#[trigger] answers[i]) is Ok
}

/// An arming takes four steps, and nothing that comes after them changes how it ended. It is armed
/// exactly when all four succeeded, with the watch that the third one, the parent's, added: both
/// watches are there before anything is read. It ends at its first failure, with that error, but for a
/// leaf that is gone when its events are to be opened.
pub proof fn law_an_arming_ends_at_its_first_failure(answers: Seq<Result<i32, OsError>>)
    ensures
        first_succeed(answers, 4) ==> (arming_run(answers) matches Arming::Armed(parent)
            && answers[2] == Ok::<i32, OsError>(parent)),
        forall|n: int|
            0 <= n < 4 && n < answers.len() && #[trigger] first_succeed(answers, n) ==> (
            answers[n] matches Err(e) ==> {
                if n == 0 && errno::gone(e) {
                    arming_run(answers) is Gone
                } else {
                    arming_run(answers) == Arming::Failed(e)
                }
            }),
        forall|n: int|
            0 <= n < 4 && n == answers.len() && #[trigger] first_succeed(answers, n) ==> match arming_run(
                answers,
            ) {
                Arming::OpenEvents => n == 0,
                Arming::OpenWatch => n == 1,
                Arming::WatchParent => n == 2,
                Arming::WatchEvents(parent) => n == 3 && answers[2] == Ok::<i32, OsError>(parent),
                _ => false,
            },
    decreases answers.len(),
{
    if answers.len() > 0 {
        let before = answers.drop_last();
        law_an_arming_ends_at_its_first_failure(before);
        assert forall|n: int|
            0 <= n <= before.len() && #[trigger] first_succeed(answers, n) implies first_succeed(
            before,
            n,
        ) by {
            assert forall|i: int| 0 <= i < n implies (#[trigger] before[i]) is Ok by {
                assert(answers[i] is Ok);
            }
        }
        if first_succeed(answers, 4) {
            assert(answers[0] is Ok && answers[1] is Ok && answers[2] is Ok && answers[3] is Ok);
            if before.len() >= 4 {
                assert(first_succeed(before, 4));
            } else {
                assert(first_succeed(answers, 3));
                assert(first_succeed(before, 3));
            }
        }
        assert forall|n: int|
            0 <= n < 4 && n < answers.len() && #[trigger] first_succeed(answers, n) && answers[n]
                is Err implies ({
                let e = answers[n]->Err_0;
                if n == 0 && errno::gone(e) {
                    arming_run(answers) is Gone
                } else {
                    arming_run(answers) == Arming::Failed(e)
                }
            }) by {
            assert(first_succeed(before, n));
            if n < before.len() {
                assert(before[n] == answers[n]);
            }
        }
        assert forall|n: int|
            0 <= n < 4 && n == answers.len() && #[trigger] first_succeed(
                answers,
                n,
            ) implies match arming_run(answers) {
                Arming::OpenEvents => n == 0,
                Arming::OpenWatch => n == 1,
                Arming::WatchParent => n == 2,
                Arming::WatchEvents(parent) => n == 3 && answers[2] == Ok::<i32, OsError>(parent),
                _ => false,
            } by {
            assert(answers[n - 1] is Ok);
            assert(first_succeed(answers, n - 1));
            assert(first_succeed(before, n - 1));
        }
    }
}

/// A removal is told from everything else by all three of its marks: only the parent's watch tells
/// of one, only a deletion is one, and only of the leaf's own name. What the parent's watch says of
/// other names is no news of the leaf; whatever the leaf's own watch says is, and so is a queue that
/// overflowed.
pub proof fn law_only_the_parents_news_of_others_is_passed_over(
    watch: DrainWatch,
    event: WatchEvent,
    other: WatchEvent,
)
    ensures
        watch.says_removed(event) ==> watch.bears(event) && event.delete && event.wd == watch.parent
            && event.name is Some && event.name->0@ == watch.name@,
        event.delete && event.wd == watch.parent && event.name is Some && event.name->0@
            == watch.name@ ==> watch.says_removed(event),
        !watch.bears(event) <==> !event.overflow && event.wd == watch.parent
            && !watch.says_removed(event),
        // Two events that agree on these agree on both.
        event.wd == other.wd && event.delete == other.delete && event.name == other.name
            && event.overflow == other.overflow ==> watch.bears(event) == watch.bears(other)
            && watch.says_removed(event) == watch.says_removed(other),
{
}

/// An answer to something that the wait did not ask leaves it where it stands; so an ended wait stays
/// as it ended.
pub proof fn law_a_drain_takes_only_answers(w: DrainWait, answer: DrainAnswer)
    requires
        !drain_answers(w, answer),
    ensures
        w.spec_on(answer) == w,
{
}

} // verus!
