//! What the forked child does between `fork` and `exec` to place itself in its leaf.
//!
//! It announces itself, writes itself into the leaf, and reports how that went. A parent that has given
//! the spawn up accepts neither message, so a child that could not announce itself never touches the
//! leaf, and one that could not report never execs into it unseen. Async-signal-safe: nothing here
//! allocates.

use vstd::prelude::*;

use crate::containment::cgroup::channel;
use crate::containment::cgroup::channel::{placement_message, Sending};
use crate::errno;

verus! {

/// The child's way to its `exec`: what to do next, or how it ended.
#[derive(Debug, Clone, Copy, PartialEq, Eq, Structural)]
pub enum Hook {
    /// Send the intent: the child's pid, with whatever handle it could open on itself.
    SendIntent,
    /// Write `"0"` to the leaf's `cgroup.procs`.
    Write,
    /// Send the report, this message.
    SendReport(i32),
    /// Go on to `exec`.
    Exec,
    /// The parent gave the spawn up: never exec.
    Abandoned,
    /// A message could not be sent: the spawn fails with this errno.
    Failed(i32),
}

/// What came of what was asked.
#[derive(Debug, Clone, Copy, PartialEq, Eq, Structural)]
pub enum HookAnswer {
    Sent(Sending),
    /// What `write(2)` returned, and the errno it left.
    Written { ret: isize, code: i32 },
}

impl Hook {
    /// How the child goes on. An answer to something that was not asked changes nothing.
    pub open spec fn spec_on(self, answer: HookAnswer) -> Hook {
        match (self, answer) {
            (Hook::SendIntent, HookAnswer::Sent(sent)) => match sent {
                Sending::Queued => Hook::Write,
                // Decided without the child's word: the leaf is no longer its to enter.
                Sending::Decided => Hook::Exec,
                Sending::Abandoned => Hook::Abandoned,
                Sending::Again => Hook::SendIntent,
                Sending::Failed(code) => Hook::Failed(code),
            },
            (Hook::Write, HookAnswer::Written { ret, code }) => Hook::SendReport(
                channel::spec_placement_message(ret, code),
            ),
            (Hook::SendReport(message), HookAnswer::Sent(sent)) => match sent {
                Sending::Queued | Sending::Decided => Hook::Exec,
                Sending::Abandoned => Hook::Abandoned,
                Sending::Again => Hook::SendReport(message),
                Sending::Failed(code) => Hook::Failed(code),
            },
            _ => self,
        }
    }

    /// Begin the child's way to its `exec`.
    pub fn place_self_in_cgroup_pre_exec() -> (h: Hook)
        ensures
            h == Hook::SendIntent,
    {
        Hook::SendIntent
    }

    /// Go on with what came of what was asked.
    pub fn on(self, answer: HookAnswer) -> (h: Hook)
        ensures
            h == self.spec_on(answer),
    {
        match (self, answer) {
            (Hook::SendIntent, HookAnswer::Sent(sent)) => match sent {
                Sending::Queued => Hook::Write,
                Sending::Decided => Hook::Exec,
                Sending::Abandoned => Hook::Abandoned,
                Sending::Again => Hook::SendIntent,
                Sending::Failed(code) => Hook::Failed(code),
            },
            (Hook::Write, HookAnswer::Written { ret, code }) => Hook::SendReport(
                placement_message(ret, code),
            ),
            (Hook::SendReport(message), HookAnswer::Sent(sent)) => match sent {
                Sending::Queued | Sending::Decided => Hook::Exec,
                Sending::Abandoned => Hook::Abandoned,
                Sending::Again => Hook::SendReport(message),
                Sending::Failed(code) => Hook::Failed(code),
            },
            (state, _) => state,
        }
    }

    /// What the hook returns once it has ended: `Ok` lets the child exec, `Err` aborts the spawn with
    /// that errno. A failed placement aborts nothing: the child goes on in the process group it
    /// already leads.
    pub fn outcome(&self) -> (r: Option<Result<(), i32>>)
        ensures
            r == (match *self {
                Hook::Exec => Some(Ok::<(), i32>(())),
                Hook::Abandoned => Some(Err(errno::ECANCELED)),
                Hook::Failed(code) => Some(Err(code)),
                _ => None,
            }),
    {
        match *self {
            Hook::Exec => Some(Ok(())),
            Hook::Abandoned => Some(Err(errno::ECANCELED)),
            Hook::Failed(code) => Some(Err(code)),
            _ => None,
        }
    }
}

/// Where the child stands after what came of what was asked, in turn.
pub open spec fn hook_run(answers: Seq<HookAnswer>) -> Hook
    decreases answers.len(),
{
    if answers.len() == 0 {
        Hook::SendIntent
    } else {
        hook_run(answers.drop_last()).spec_on(answers.last())
    }
}

/// Whether the answer `i` was that the intent is queued.
pub open spec fn announced(answers: Seq<HookAnswer>, i: int) -> bool {
    hook_run(answers.take(i)) is SendIntent && answers[i] == HookAnswer::Sent(Sending::Queued)
}

/// A child touches its leaf only once its intent is queued: a parent that gives the spawn up then
/// knows of every child that may be in the leaf.
pub proof fn law_only_an_announced_child_touches_the_leaf(answers: Seq<HookAnswer>)
    ensures
        hook_run(answers) is Write || hook_run(answers) is SendReport ==> exists|i: int|
            0 <= i < answers.len() && #[trigger] announced(answers, i),
    decreases answers.len(),
{
    if answers.len() > 0 {
        let before = answers.drop_last();
        let n = before.len() as int;
        law_only_an_announced_child_touches_the_leaf(before);
        assert(answers.take(n) =~= before);
        if hook_run(before) is SendIntent {
            assert(hook_run(answers) is Write ==> announced(answers, n));
        } else if hook_run(before) is Write || hook_run(before) is SendReport {
            let i = choose|i: int| 0 <= i < before.len() && #[trigger] announced(before, i);
            assert(answers.take(i) =~= before.take(i));
            assert(announced(answers, i));
        }
    }
}

/// Whether the answer `i` lets the child exec: its report is queued, or the parent decided without a
/// message that it sent.
pub open spec fn released(answers: Seq<HookAnswer>, i: int) -> bool {
    let asked = hook_run(answers.take(i));
    ||| answers[i] == HookAnswer::Sent(Sending::Queued) && asked is SendReport
    ||| answers[i] == HookAnswer::Sent(Sending::Decided) && (asked is SendIntent || asked
        is SendReport)
}

/// A child execs only once its report is queued or the parent has decided without it: one whose
/// parent gave the spawn up, or that could not send, never does.
pub proof fn law_only_a_released_child_execs(answers: Seq<HookAnswer>)
    ensures
        hook_run(answers) is Exec ==> exists|i: int|
            0 <= i < answers.len() && #[trigger] released(answers, i),
    decreases answers.len(),
{
    if answers.len() > 0 {
        let before = answers.drop_last();
        let n = before.len() as int;
        law_only_a_released_child_execs(before);
        assert(answers.take(n) =~= before);
        if hook_run(before) is Exec {
            let i = choose|i: int| 0 <= i < before.len() && #[trigger] released(before, i);
            assert(answers.take(i) =~= before.take(i));
            assert(released(answers, i));
        } else {
            assert(hook_run(answers) is Exec ==> released(answers, n));
        }
    }
}

/// Whether `answer` answers what `h` asks.
pub open spec fn hook_answers(h: Hook, answer: HookAnswer) -> bool {
    match h {
        Hook::SendIntent | Hook::SendReport(_) => answer is Sent,
        Hook::Write => answer is Written,
        Hook::Exec | Hook::Abandoned | Hook::Failed(_) => false,
    }
}

/// Whether each of `answers`, in turn, answers what the child asks then.
pub open spec fn hook_asked(answers: Seq<HookAnswer>) -> bool
    decreases answers.len(),
{
    answers.len() == 0 || hook_asked(answers.drop_last()) && hook_answers(
        hook_run(answers.drop_last()),
        answers.last(),
    )
}

/// What the child's write to its leaf returned, and the errno it left, where it has written.
pub open spec fn wrote(answers: Seq<HookAnswer>) -> Option<(isize, i32)>
    decreases answers.len(),
{
    if answers.len() == 0 {
        None
    } else {
        match answers.last() {
            HookAnswer::Written { ret, code } => Some((ret, code)),
            _ => wrote(answers.drop_last()),
        }
    }
}

/// Whether `message` is what a child says whose write returned `ret` and left `code`: a placement for
/// the one byte written, the errno for a failure that left a positive one, and an I/O error for
/// anything else.
pub open spec fn says_of_write(message: i32, ret: isize, code: i32) -> bool {
    &&& message == -1 <==> ret == 1
    &&& ret == -1 && code > 0 ==> message == code
    &&& ret != 1 && !(ret == -1 && code > 0) ==> message == 5
}

/// Where the child stands is what came of what it asked last. It writes once, when its intent is queued,
/// and what it then reports is how that write went, sent again until it is through; it goes on to exec
/// once the report is queued, or at the parent's decision; it ends without exec where the parent gave
/// the spawn up, and fails with a send's own errno.
pub proof fn law_the_child_goes_on_as_it_was_answered(answers: Seq<HookAnswer>)
    requires
        hook_asked(answers),
    ensures
        ({
            let n = answers.len();
            let last = answers[n - 1];
            match hook_run(answers) {
                Hook::SendIntent => wrote(answers) is None && (n == 0 || last == HookAnswer::Sent(
                    Sending::Again,
                )),
                Hook::Write => n > 0 && wrote(answers) is None && last == HookAnswer::Sent(
                    Sending::Queued,
                ),
                Hook::SendReport(message) => {
                    &&& n > 1
                    &&& last is Written || last == HookAnswer::Sent(Sending::Again)
                    &&& wrote(answers) matches Some((ret, code)) && says_of_write(message, ret, code)
                },
                Hook::Exec => n > 0 && {
                    ||| last == HookAnswer::Sent(Sending::Decided)
                    ||| last == HookAnswer::Sent(Sending::Queued) && wrote(answers) is Some
                },
                Hook::Abandoned => n > 0 && last == HookAnswer::Sent(Sending::Abandoned),
                Hook::Failed(code) => n > 0 && last == HookAnswer::Sent(Sending::Failed(code)),
            }
        }),
    decreases answers.len(),
{
    if answers.len() > 0 {
        law_the_child_goes_on_as_it_was_answered(answers.drop_last());
    }
}

/// An answer to something that the child did not ask leaves it where it stands.
pub proof fn law_the_child_takes_only_answers(h: Hook, answer: HookAnswer)
    requires
        !hook_answers(h, answer),
    ensures
        h.spec_on(answer) == h,
{
}

} // verus!
