//! Creating a containment leaf: where it goes, and the steps that each can fail.

use vstd::prelude::*;
use vstd::string::*;

use crate::containment::cgroup::degrade::LeafError;
use crate::containment::cgroup::dir;
use crate::containment::cgroup::dir::interface_path;
use crate::containment::cgroup::parse;
use crate::containment::cgroup::removal::LeftBehind;
use crate::errno;
use crate::errno::{removed_after_drain, OsError};
use crate::text;

verus! {

/// `s` without the slashes in front.
pub open spec fn without_leading_slashes(s: Seq<char>) -> Seq<char>
    decreases s.len(),
{
    if s.len() > 0 && s[0] == '/' {
        without_leading_slashes(s.skip(1))
    } else {
        s
    }
}

/// `s` without the slashes at its end.
pub open spec fn without_trailing_slashes(s: Seq<char>) -> Seq<char>
    decreases s.len(),
{
    if s.len() > 0 && s.last() == '/' {
        without_trailing_slashes(s.drop_last())
    } else {
        s
    }
}

/// The path of `name` in the directory `dir`.
pub open spec fn joined(dir: Seq<char>, name: Seq<char>) -> Seq<char> {
    if dir.len() == 0 || dir.last() == '/' {
        dir + name
    } else {
        dir + "/"@ + name
    }
}

/// The path of `name` in the directory `dir`.
pub fn join(dir: &str, name: &str) -> (s: String)
    ensures
        s@ == joined(dir@, name@),
{
    let n: usize = dir.unicode_len();
    let mut s = dir.to_owned();
    if n > 0 && dir.get_char(n - 1) != '/' {
        s.append("/");
    }
    s.append(name);
    s
}

/// Where a leaf of this process goes.
#[derive(Debug)]
pub struct LeafParent {
    /// The directory it is made in.
    pub dir: String,
    /// The unified-hierarchy path of that directory, as `/proc/<pid>/cgroup` prints it.
    pub unified: String,
}

impl LeafParent {
    /// The unified-hierarchy path of the leaf `name`.
    pub fn cgroup_path(&self, name: &str) -> (s: String)
        ensures
            s@ == without_trailing_slashes(self.unified@) + "/"@ + name@,
    {
        let unified = self.unified.as_str();
        let n: usize = unified.unicode_len();
        let mut end: usize = n;
        assert(unified@.take(n as int) =~= unified@);
        while end > 0 && unified.get_char(end - 1) == '/'
            invariant
                end <= n,
                n == unified@.len(),
                without_trailing_slashes(unified@) == without_trailing_slashes(
                    unified@.take(end as int),
                ),
            decreases end,
        {
            assert(unified@.take(end as int).last() == unified@[end - 1]);
            assert(unified@.take(end as int).drop_last() =~= unified@.take(end - 1));
            end -= 1;
        }
        proof {
            if end > 0 {
                assert(unified@.take(end as int).last() == unified@[end - 1]);
            }
            assert(unified@.subrange(0, end as int) =~= unified@.take(end as int));
        }
        let mut s = unified.substring_char(0, end).to_owned();
        s.append("/");
        s.append(name);
        s
    }
}

/// Where a leaf of this process goes, from the contents of its `/proc/self/cgroup`. Fails where they
/// could not be read, and where they have no unified line, with a summary of what they have.
pub fn leaf_parent(proc_self_cgroup: Result<String, OsError>) -> (r: Result<LeafParent, LeafError>)
    ensures
        match proc_self_cgroup {
            Err(e) => r == Err::<LeafParent, LeafError>(LeafError::ReadProcSelfCgroup(e)),
            Ok(contents) => match parse::v2_relative_path(contents@) {
                Some(path) => r matches Ok(parent) && parent.unified@ == path && parent.dir@
                    == "/sys/fs/cgroup/"@ + without_leading_slashes(path),
                None => r matches Err(LeafError::NoUnifiedLine { line_count, controllers })
                    && line_count == text::lines(contents@).len() && controllers@
                    == parse::controllers_summary(contents@),
            },
        },
{
    let contents = match proc_self_cgroup {
        Ok(contents) => contents,
        Err(e) => {
            return Err(LeafError::ReadProcSelfCgroup(e));
        },
    };
    let path = match parse::parse_v2_relative_path(contents.as_str()) {
        Some(path) => path,
        None => {
            let (line_count, controllers) = parse::summarize_cgroup_controllers(contents.as_str());
            return Err(LeafError::NoUnifiedLine { line_count, controllers });
        },
    };
    let n: usize = path.unicode_len();
    let mut start: usize = 0;
    assert(path@.skip(0) =~= path@);
    while start < n && path.get_char(start) == '/'
        invariant
            start <= n,
            n == path@.len(),
            without_leading_slashes(path@) == without_leading_slashes(path@.skip(start as int)),
        decreases n - start,
    {
        assert(path@.skip(start as int)[0] == path@[start as int]);
        assert(path@.skip(start as int).skip(1) =~= path@.skip(start + 1));
        start += 1;
    }
    proof {
        if start < n {
            assert(path@.skip(start as int)[0] == path@[start as int]);
        }
        assert(path@.subrange(start as int, n as int) =~= path@.skip(start as int));
    }
    let mut dir = "/sys/fs/cgroup/".to_owned();
    dir.append(path.substring_char(start, n));
    Ok(LeafParent { dir, unified: path.to_owned() })
}

/// The step that a leaf's creation failed at.
#[derive(Debug)]
pub enum CreateFailure {
    MakeDir(OsError),
    /// The leaf has no `cgroup.kill`.
    KillMissing,
    /// Whether it has one could not be determined.
    CheckKill(OsError),
    OpenChannel(OsError),
    OpenProcs(OsError),
    WatchDrain(OsError),
}

/// Whether `error` is `failure`, of a leaf at `leaf_path`.
pub open spec fn is_leaf_error(failure: CreateFailure, leaf_path: Seq<char>, error: LeafError) -> bool {
    match failure {
        CreateFailure::MakeDir(e) => error matches LeafError::CreateLeafDir { path, source } && path@
            == leaf_path && source == e,
        CreateFailure::KillMissing => error matches LeafError::KillUnsupported { path } && path@
            == leaf_path,
        CreateFailure::CheckKill(e) => error matches LeafError::CheckKill { path, source } && path@
            == leaf_path + "/"@ + "cgroup.kill"@ && source == e,
        CreateFailure::OpenChannel(e) => error == LeafError::OpenReportChannel(e),
        CreateFailure::OpenProcs(e) => error matches LeafError::OpenProcs { path, source } && path@
            == leaf_path + "/"@ + "cgroup.procs"@ && source == e,
        CreateFailure::WatchDrain(e) => error matches LeafError::WatchDrain { path, source } && path@
            == leaf_path + "/"@ + "cgroup.events"@ && source == e,
    }
}

impl CreateFailure {
    /// The failure with the path that its step touched.
    pub fn into_leaf_error(self, leaf_path: &str) -> (e: LeafError)
        ensures
            is_leaf_error(self, leaf_path@, e),
    {
        match self {
            CreateFailure::MakeDir(source) => LeafError::CreateLeafDir {
                path: leaf_path.to_owned(),
                source,
            },
            CreateFailure::KillMissing => LeafError::KillUnsupported { path: leaf_path.to_owned() },
            CreateFailure::CheckKill(source) => LeafError::CheckKill {
                path: interface_path(leaf_path, "cgroup.kill"),
                source,
            },
            CreateFailure::OpenChannel(e) => LeafError::OpenReportChannel(e),
            CreateFailure::OpenProcs(source) => LeafError::OpenProcs {
                path: interface_path(leaf_path, "cgroup.procs"),
                source,
            },
            CreateFailure::WatchDrain(source) => LeafError::WatchDrain {
                path: interface_path(leaf_path, "cgroup.events"),
                source,
            },
        }
    }
}

/// A leaf being created: what to do next, or how it ended. Every failure past the `mkdir` removes the
/// leaf it just made.
#[derive(Debug)]
pub enum Creating {
    /// Make the leaf's directory.
    MakeDir,
    /// See whether it has a `cgroup.kill`; without one there is no atomic kill.
    CheckKill,
    /// Open the report channel. Before `cgroup.procs`, so that a failure unwinds nothing but the
    /// directory.
    OpenChannel,
    /// Open `cgroup.procs` for writing, close-on-exec, at fd 3 or above.
    OpenProcs,
    /// Watch the leaf's drain.
    WatchDrain,
    /// Remove the directory again.
    Unwind(CreateFailure),
    Created,
    /// It failed; the directory could not be removed, where there is a second error.
    Failed(CreateFailure, Option<OsError>),
}

/// What the host answered.
#[derive(Debug)]
pub enum CreateAnswer {
    Made(Result<(), OsError>),
    HasKill(Result<bool, OsError>),
    ChannelOpened(Result<(), OsError>),
    ProcsOpened(Result<(), OsError>),
    Watching(Result<(), OsError>),
    Unmade(Result<(), OsError>),
}

impl Creating {
    /// How the creation goes on. An answer to something that was not asked changes nothing.
    pub open spec fn spec_on(self, answer: CreateAnswer) -> Creating {
        match (self, answer) {
            (Creating::MakeDir, CreateAnswer::Made(Ok(()))) => Creating::CheckKill,
            (Creating::MakeDir, CreateAnswer::Made(Err(e))) => Creating::Failed(
                CreateFailure::MakeDir(e),
                None,
            ),
            (Creating::CheckKill, CreateAnswer::HasKill(Ok(present))) => if present {
                Creating::OpenChannel
            } else {
                Creating::Unwind(CreateFailure::KillMissing)
            },
            // A lookup that fails is not an absent file.
            (Creating::CheckKill, CreateAnswer::HasKill(Err(e))) => Creating::Unwind(
                CreateFailure::CheckKill(e),
            ),
            (Creating::OpenChannel, CreateAnswer::ChannelOpened(Ok(()))) => Creating::OpenProcs,
            (Creating::OpenChannel, CreateAnswer::ChannelOpened(Err(e))) => Creating::Unwind(
                CreateFailure::OpenChannel(e),
            ),
            (Creating::OpenProcs, CreateAnswer::ProcsOpened(Ok(()))) => Creating::WatchDrain,
            (Creating::OpenProcs, CreateAnswer::ProcsOpened(Err(e))) => Creating::Unwind(
                CreateFailure::OpenProcs(e),
            ),
            (Creating::WatchDrain, CreateAnswer::Watching(Ok(()))) => Creating::Created,
            (Creating::WatchDrain, CreateAnswer::Watching(Err(e))) => Creating::Unwind(
                CreateFailure::WatchDrain(e),
            ),
            (Creating::Unwind(failure), CreateAnswer::Unmade(Ok(()))) => Creating::Failed(
                failure,
                None,
            ),
            (Creating::Unwind(failure), CreateAnswer::Unmade(Err(e))) => Creating::Failed(
                failure,
                if errno::gone(e) {
                    None
                } else {
                    Some(e)
                },
            ),
            _ => self,
        }
    }

    /// Begin to create a leaf.
    pub fn create_leaf_under() -> (c: Creating)
        ensures
            c == Creating::MakeDir,
    {
        Creating::MakeDir
    }

    /// Go on with what the host answered.
    pub fn on(self, answer: CreateAnswer) -> (c: Creating)
        ensures
            c == self.spec_on(answer),
    {
        match (self, answer) {
            (Creating::MakeDir, CreateAnswer::Made(Ok(()))) => Creating::CheckKill,
            (Creating::MakeDir, CreateAnswer::Made(Err(e))) => Creating::Failed(
                CreateFailure::MakeDir(e),
                None,
            ),
            (Creating::CheckKill, CreateAnswer::HasKill(Ok(present))) => if present {
                Creating::OpenChannel
            } else {
                Creating::Unwind(CreateFailure::KillMissing)
            },
            (Creating::CheckKill, CreateAnswer::HasKill(Err(e))) => Creating::Unwind(
                CreateFailure::CheckKill(e),
            ),
            (Creating::OpenChannel, CreateAnswer::ChannelOpened(Ok(()))) => Creating::OpenProcs,
            (Creating::OpenChannel, CreateAnswer::ChannelOpened(Err(e))) => Creating::Unwind(
                CreateFailure::OpenChannel(e),
            ),
            (Creating::OpenProcs, CreateAnswer::ProcsOpened(Ok(()))) => Creating::WatchDrain,
            (Creating::OpenProcs, CreateAnswer::ProcsOpened(Err(e))) => Creating::Unwind(
                CreateFailure::OpenProcs(e),
            ),
            (Creating::WatchDrain, CreateAnswer::Watching(Ok(()))) => Creating::Created,
            (Creating::WatchDrain, CreateAnswer::Watching(Err(e))) => Creating::Unwind(
                CreateFailure::WatchDrain(e),
            ),
            (Creating::Unwind(failure), CreateAnswer::Unmade(Ok(()))) => Creating::Failed(
                failure,
                None,
            ),
            (Creating::Unwind(failure), CreateAnswer::Unmade(Err(e))) => Creating::Failed(
                failure,
                if removed_after_drain(&e) {
                    None
                } else {
                    Some(e)
                },
            ),
            (state, _) => state,
        }
    }
}

/// Why the leaf that a failed creation made stays behind.
pub fn unwound(error: &LeafError, rmdir: OsError) -> (l: LeftBehind)
    ensures
        l matches LeftBehind::Unwound { cause, rmdir: r } && cause@ == error.text() && r == rmdir,
{
    LeftBehind::Unwound { cause: error.to_string(), rmdir }
}

/// Two creations of one process under one directory, the `i`th and the `j`th past some point of its
/// sequence, use different paths, whatever their random parts; each path is that of a direct child of
/// the directory, whose name says which process it is of. Only a creation that the whole range of the
/// sequence lies before can take a number again.
pub proof fn law_two_creations_use_different_paths(
    current: Seq<char>,
    pid: u32,
    first: u64,
    i: nat,
    j: nat,
    random_i: u64,
    random_j: u64,
)
    requires
        i < j,
        j - i < 0x1_0000_0000_0000_0000,
    ensures
        ({
            let name_i = dir::spec_leaf_name(pid, dir::seq_after(first, i), random_i);
            let name_j = dir::spec_leaf_name(pid, dir::seq_after(first, j), random_j);
            &&& joined(current, name_i) != joined(current, name_j)
            &&& dir::leaf_prefix(pid).is_prefix_of(name_i) && !name_i.contains('/')
            &&& dir::leaf_prefix(pid).is_prefix_of(name_j) && !name_j.contains('/')
        }),
        // The number that a creation leaves in the sequence is the one that the next takes.
        dir::seq_after(dir::seq_after(first, i), 1) == dir::seq_after(first, i + 1),
{
    let name_i = dir::spec_leaf_name(pid, dir::seq_after(first, i), random_i);
    let name_j = dir::spec_leaf_name(pid, dir::seq_after(first, j), random_j);
    dir::lemma_sequence(first, i, j);
    dir::lemma_leaf_name_form(pid, dir::seq_after(first, i), random_i);
    dir::lemma_leaf_name_form(pid, dir::seq_after(first, j), random_j);
    if joined(current, name_i) == joined(current, name_j) {
        let before = joined(current, Seq::empty());
        assert(joined(current, name_i) =~= before + name_i);
        assert(joined(current, name_j) =~= before + name_j);
        assert(name_i =~= (before + name_i).skip(before.len() as int));
        assert(name_j =~= (before + name_j).skip(before.len() as int));
        dir::law_leaf_names_tell_leaves_apart(
            pid,
            dir::seq_after(first, i),
            random_i,
            pid,
            dir::seq_after(first, j),
            random_j,
        );
    }
}

/// Where a creation stands after the host's answers, in turn.
pub open spec fn create_run(answers: Seq<CreateAnswer>) -> Creating
    decreases answers.len(),
{
    if answers.len() == 0 {
        Creating::MakeDir
    } else {
        create_run(answers.drop_last()).spec_on(answers.last())
    }
}

/// Whether a removal of the directory was tried and answered.
pub open spec fn unwound_in(answers: Seq<CreateAnswer>) -> bool {
    exists|i: int|
        0 <= i < answers.len() && #[trigger] answers[i] is Unmade && create_run(answers.take(i))
            is Unwind
}

/// A leaf that was made is never left behind in silence: every creation that fails past its `mkdir`
/// tried to remove the directory, and says so where it could not.
pub proof fn law_a_failed_creation_unwinds(answers: Seq<CreateAnswer>)
    ensures
        create_run(answers) matches Creating::Failed(failure, _) ==> (failure is MakeDir
            <==> !unwound_in(answers)),
        !(create_run(answers) is Failed) ==> !unwound_in(answers),
        create_run(answers) matches Creating::Unwind(failure) ==> !(failure is MakeDir),
    decreases answers.len(),
{
    if answers.len() > 0 {
        let before = answers.drop_last();
        let n = before.len() as int;
        law_a_failed_creation_unwinds(before);
        assert(answers.take(n) =~= before);
        if unwound_in(before) {
            let i = choose|i: int|
                0 <= i < before.len() && #[trigger] before[i] is Unmade && create_run(
                    before.take(i),
                ) is Unwind;
            assert(before.take(i) =~= answers.take(i));
            assert(answers[i] is Unmade);
        }
        if unwound_in(answers) {
            let i = choose|i: int|
                0 <= i < answers.len() && #[trigger] answers[i] is Unmade && create_run(
                    answers.take(i),
                ) is Unwind;
            if i < n {
                assert(before.take(i) =~= answers.take(i));
                assert(before[i] is Unmade);
            }
        }
        if create_run(before) is Unwind && answers.last() is Unmade {
            assert(answers[n] is Unmade && create_run(answers.take(n)) is Unwind);
        }
    }
}

/// Whether `answer` answers what `c` asks of the host.
pub open spec fn create_answers(c: Creating, answer: CreateAnswer) -> bool {
    match c {
        Creating::MakeDir => answer is Made,
        Creating::CheckKill => answer is HasKill,
        Creating::OpenChannel => answer is ChannelOpened,
        Creating::OpenProcs => answer is ProcsOpened,
        Creating::WatchDrain => answer is Watching,
        Creating::Unwind(_) => answer is Unmade,
        Creating::Created | Creating::Failed(..) => false,
    }
}

/// Whether each of `answers`, in turn, answers what the creation asks then.
pub open spec fn create_asked(answers: Seq<CreateAnswer>) -> bool
    decreases answers.len(),
{
    answers.len() == 0 || create_asked(answers.drop_last()) && create_answers(
        create_run(answers.drop_last()),
        answers.last(),
    )
}

/// Whether `answer` is the failure `failure`.
pub open spec fn answers_failure(answer: CreateAnswer, failure: CreateFailure) -> bool {
    match failure {
        CreateFailure::MakeDir(e) => answer == CreateAnswer::Made(Err(e)),
        CreateFailure::KillMissing => answer == CreateAnswer::HasKill(Ok(false)),
        CreateFailure::CheckKill(e) => answer == CreateAnswer::HasKill(Err(e)),
        CreateFailure::OpenChannel(e) => answer == CreateAnswer::ChannelOpened(Err(e)),
        CreateFailure::OpenProcs(e) => answer == CreateAnswer::ProcsOpened(Err(e)),
        CreateFailure::WatchDrain(e) => answer == CreateAnswer::Watching(Err(e)),
    }
}

/// Where a creation stands is what the host answered. Five steps that all succeed create the leaf, in
/// their order: its directory, its kill file, the channel, its list of members, its watch. The first
/// that does not is the failure; past the directory that has the directory removed, once, and where
/// even that fails, for another reason than that it is gone already, the failure says so too.
pub proof fn law_a_creation_ends_as_the_host_answered(answers: Seq<CreateAnswer>)
    requires
        create_asked(answers),
    ensures
        ({
            let n = answers.len();
            let last = answers[n - 1];
            match create_run(answers) {
                Creating::MakeDir => n == 0,
                Creating::CheckKill => n == 1 && (last matches CreateAnswer::Made(Ok(_))),
                Creating::OpenChannel => n == 2 && last == CreateAnswer::HasKill(Ok(true)),
                Creating::OpenProcs => n == 3 && (last matches CreateAnswer::ChannelOpened(Ok(_))),
                Creating::WatchDrain => n == 4 && (last matches CreateAnswer::ProcsOpened(Ok(_))),
                Creating::Created => n == 5 && (last matches CreateAnswer::Watching(Ok(_))),
                Creating::Unwind(failure) => n > 1 && !(failure is MakeDir) && answers_failure(
                    last,
                    failure,
                ),
                Creating::Failed(failure, left) => {
                    ||| n == 1 && failure is MakeDir && answers_failure(last, failure) && left is None
                    ||| n > 2 && !(failure is MakeDir) && answers_failure(answers[n - 2], failure) && (
                    last matches CreateAnswer::Unmade(unmade) && match left {
                        None => unmade is Ok || errno::gone(unmade->Err_0),
                        Some(e) => unmade == Err::<(), OsError>(e) && !errno::gone(e),
                    })
                },
            }
        }),
    decreases answers.len(),
{
    if answers.len() > 0 {
        law_a_creation_ends_as_the_host_answered(answers.drop_last());
    }
}

/// An answer to something that the creation did not ask leaves it where it stands.
pub proof fn law_a_creation_takes_only_answers(c: Creating, answer: CreateAnswer)
    requires
        !create_answers(c, answer),
    ensures
        c.spec_on(answer) == c,
{
}

/// What is said of a failed creation is the step that failed, with the host's own error and the path
/// that the step touched: the leaf's, or that of its file. Two failures with one error are the same
/// failure.
pub proof fn law_a_creation_error_is_its_failure(
    failure: CreateFailure,
    other: CreateFailure,
    leaf_path: Seq<char>,
    error: LeafError,
)
    requires
        is_leaf_error(failure, leaf_path, error),
    ensures
        is_leaf_error(other, leaf_path, error) ==> other == failure,
        failure is MakeDir <==> error is CreateLeafDir,
        failure is KillMissing <==> error is KillUnsupported,
        failure is CheckKill <==> error is CheckKill,
        failure is OpenChannel <==> error is OpenReportChannel,
        failure is OpenProcs <==> error is OpenProcs,
        failure is WatchDrain <==> error is WatchDrain,
        match error {
            LeafError::CreateLeafDir { path, source } => path@ == leaf_path && failure
                == CreateFailure::MakeDir(source),
            LeafError::KillUnsupported { path } => path@ == leaf_path,
            LeafError::CheckKill { path, source } => path@ == leaf_path + "/cgroup.kill"@ && failure
                == CreateFailure::CheckKill(source),
            LeafError::OpenProcs { path, source } => path@ == leaf_path + "/cgroup.procs"@ && failure
                == CreateFailure::OpenProcs(source),
            LeafError::OpenReportChannel(source) => failure == CreateFailure::OpenChannel(source),
            LeafError::WatchDrain { path, source } => path@ == leaf_path + "/cgroup.events"@ && failure
                == CreateFailure::WatchDrain(source),
            _ => false,
        },
{
    reveal_strlit("/");
    reveal_strlit("cgroup.kill");
    reveal_strlit("/cgroup.kill");
    reveal_strlit("cgroup.procs");
    reveal_strlit("/cgroup.procs");
    reveal_strlit("cgroup.events");
    reveal_strlit("/cgroup.events");
    assert(leaf_path + "/"@ + "cgroup.kill"@ =~= leaf_path + "/cgroup.kill"@);
    assert(leaf_path + "/"@ + "cgroup.procs"@ =~= leaf_path + "/cgroup.procs"@);
    assert(leaf_path + "/"@ + "cgroup.events"@ =~= leaf_path + "/cgroup.events"@);
}

/// Whether every character of `s` is a slash.
pub open spec fn all_slashes(s: Seq<char>) -> bool {
    forall|i: int| 0 <= i < s.len() ==> #[trigger] s[i] == '/'
}

/// What is taken off a path's front is slashes, all of them and nothing else; and so it is at its end.
pub proof fn law_only_slashes_are_taken_off(s: Seq<char>)
    ensures
        ({
            let kept = without_leading_slashes(s);
            &&& exists|k: int| 0 <= k <= s.len() && kept == #[trigger] s.skip(k) && all_slashes(s.take(k))
            &&& kept.len() > 0 ==> kept[0] != '/'
        }),
        ({
            let kept = without_trailing_slashes(s);
            &&& exists|k: int| 0 <= k <= s.len() && kept == #[trigger] s.take(k) && all_slashes(s.skip(k))
            &&& kept.len() > 0 ==> kept.last() != '/'
        }),
    decreases s.len(),
{
    if s.len() > 0 && s[0] == '/' {
        let rest = s.skip(1);
        law_only_slashes_are_taken_off(rest);
        let k = choose|k: int|
            0 <= k <= rest.len() && without_leading_slashes(rest) == #[trigger] rest.skip(k)
                && all_slashes(rest.take(k));
        assert(s.skip(k + 1) =~= rest.skip(k));
        assert forall|i: int| 0 <= i < k + 1 implies #[trigger] s.take(k + 1)[i] == '/' by {
            if i > 0 {
                assert(s.take(k + 1)[i] == rest.take(k)[i - 1]);
            }
        }
        assert(without_leading_slashes(s) == s.skip(k + 1) && all_slashes(s.take(k + 1)));
    } else {
        assert(s.skip(0) =~= s);
        assert(without_leading_slashes(s) == s.skip(0) && all_slashes(s.take(0)));
    }
    let n = s.len() as int;
    if s.len() > 0 && s.last() == '/' {
        let rest = s.drop_last();
        law_only_slashes_are_taken_off(rest);
        let k = choose|k: int|
            0 <= k <= rest.len() && without_trailing_slashes(rest) == #[trigger] rest.take(k)
                && all_slashes(rest.skip(k));
        assert(s.take(k) =~= rest.take(k));
        assert forall|i: int| 0 <= i < n - k implies #[trigger] s.skip(k)[i] == '/' by {
            if i < n - k - 1 {
                assert(s.skip(k)[i] == rest.skip(k)[i]);
            }
        }
        assert(without_trailing_slashes(s) == s.take(k) && all_slashes(s.skip(k)));
    } else {
        assert(s.take(n) =~= s);
        assert(without_trailing_slashes(s) == s.take(n) && all_slashes(s.skip(n)));
    }
}

/// A name goes behind its directory, one slash between the two, whether or not the directory was
/// written with one; in no directory it stands alone.
pub proof fn law_one_slash_joins(dir: Seq<char>, name: Seq<char>)
    ensures
        joined(Seq::empty(), name) == name,
        dir.len() > 0 && dir.last() != '/' ==> joined(dir, name) == dir + seq!['/'] + name && joined(
            dir + seq!['/'],
            name,
        ) == joined(dir, name),
        dir.is_prefix_of(joined(dir, name)),
        // Two names in one directory have two paths.
        forall|other: Seq<char>| #[trigger] joined(dir, other) == joined(dir, name) ==> other == name,
{
    reveal_strlit("/");
    assert("/"@ =~= seq!['/']);
    assert(Seq::<char>::empty() + name =~= name);
    assert(dir =~= joined(dir, name).take(dir.len() as int));
    let before = joined(dir, Seq::empty());
    assert(joined(dir, name) =~= before + name);
    assert(name =~= (before + name).skip(before.len() as int));
    assert forall|other: Seq<char>| #[trigger] joined(dir, other) == joined(dir, name) implies other
        == name by {
        assert(joined(dir, other) =~= before + other);
        assert(other =~= (before + other).skip(before.len() as int));
    }
}

} // verus!
