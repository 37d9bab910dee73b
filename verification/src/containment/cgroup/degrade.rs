//! Why a contained spawn got less than it asked for: the reasons, their texts, and how loudly each
//! is reported. Pure data, no OS calls.

use vstd::prelude::*;
use vstd::string::*;

use crate::errno;
use crate::errno::OsError;
use crate::report;
use crate::report::{report_level, Condition, Record, Seen};
use crate::text;

verus! {

/// Why a cgroup v2 leaf could not be created. Each variant names the step that failed, the path it
/// touched, and the kernel's own reason.
#[derive(Debug)]
pub enum LeafError {
    /// `/proc/self/cgroup` could not be read (no procfs, or it is not mounted).
    ReadProcSelfCgroup(OsError),
    /// `/proc/self/cgroup` has no `0::` line: a v1-only host, or no unified hierarchy. Carries a
    /// summary of the file, never the file.
    NoUnifiedLine { line_count: usize, controllers: String },
    /// `mkdir` of the leaf failed.
    CreateLeafDir { path: String, source: OsError },
    /// The leaf exposes no `cgroup.kill`, so there is no atomic, fork-proof kill.
    KillUnsupported { path: String },
    /// Whether the leaf has a `cgroup.kill` could not be determined: the lookup itself failed.
    CheckKill { path: String, source: OsError },
    /// `cgroup.procs` could not be opened for writing, or moved to fd 3 or above.
    OpenProcs { path: String, source: OsError },
    /// The channel the child reports its self-placement outcome through could not be opened, or its
    /// ends moved to fd 3 or above.
    OpenReportChannel(OsError),
    /// The leaf's drain could not be watched.
    WatchDrain { path: String, source: OsError },
}

impl LeafError {
    /// The error in words.
    pub open spec fn text(self) -> Seq<char> {
        match self {
            LeafError::ReadProcSelfCgroup(e) => "could not read /proc/self/cgroup: "@ + e.text@,
            LeafError::NoUnifiedLine { line_count, controllers } =>
                "/proc/self/cgroup has no cgroup v2 unified (`0::`) line — a v1-only host, or the unified hierarchy is not mounted; the file has "@
                + text::decimal(line_count as nat) + " line(s), naming "@ + controllers@
                + " (their paths are dropped: none of them is one cosca touched, and they do not tell these cases apart)"@,
            LeafError::CreateLeafDir { path, source } => "could not create the leaf cgroup "@
                + path@ + ": "@ + source.text@,
            LeafError::KillUnsupported { path } => "the leaf cgroup "@ + path@
                + " has no cgroup.kill — the kernel is older than 5.14, so there is no atomic tree kill to back CgroupV2 containment"@,
            LeafError::CheckKill { path, source } => "could not check for "@ + path@ + ": "@
                + source.text@,
            LeafError::OpenProcs { path, source } => "could not open "@ + path@
                + " for writing: "@ + source.text@,
            LeafError::OpenReportChannel(e) =>
                "could not open the placement-report channel shared with the forked child: "@
                + e.text@,
            LeafError::WatchDrain { path, source } => "could not watch "@ + path@
                + " for the leaf's drain: "@ + source.text@,
        }
    }

    /// The error in words.
    pub fn to_string(&self) -> (s: String)
        ensures
            s@ == self.text(),
    {
        match self {
            LeafError::ReadProcSelfCgroup(e) => {
                let mut s = "could not read /proc/self/cgroup: ".to_owned();
                s.append(e.text.as_str());
                s
            },
            LeafError::NoUnifiedLine { line_count, controllers } => {
                let mut s =
                    "/proc/self/cgroup has no cgroup v2 unified (`0::`) line — a v1-only host, or the unified hierarchy is not mounted; the file has ".to_owned();
                text::push_decimal(&mut s, *line_count as u64);
                s.append(" line(s), naming ");
                s.append(controllers.as_str());
                s.append(
                    " (their paths are dropped: none of them is one cosca touched, and they do not tell these cases apart)",
                );
                s
            },
            LeafError::CreateLeafDir { path, source } => {
                let mut s = "could not create the leaf cgroup ".to_owned();
                s.append(path.as_str());
                s.append(": ");
                s.append(source.text.as_str());
                s
            },
            LeafError::KillUnsupported { path } => {
                let mut s = "the leaf cgroup ".to_owned();
                s.append(path.as_str());
                s.append(
                    " has no cgroup.kill — the kernel is older than 5.14, so there is no atomic tree kill to back CgroupV2 containment",
                );
                s
            },
            LeafError::CheckKill { path, source } => {
                let mut s = "could not check for ".to_owned();
                s.append(path.as_str());
                s.append(": ");
                s.append(source.text.as_str());
                s
            },
            LeafError::OpenProcs { path, source } => {
                let mut s = "could not open ".to_owned();
                s.append(path.as_str());
                s.append(" for writing: ");
                s.append(source.text.as_str());
                s
            },
            LeafError::OpenReportChannel(e) => {
                let mut s =
                    "could not open the placement-report channel shared with the forked child: ".to_owned();
                s.append(e.text.as_str());
                s
            },
            LeafError::WatchDrain { path, source } => {
                let mut s = "could not watch ".to_owned();
                s.append(path.as_str());
                s.append(" for the leaf's drain: ");
                s.append(source.text.as_str());
                s
            },
        }
    }
}

/// What the child's own `pre_exec` self-placement write reported back to the parent.
///
/// The channel belongs to the leaf, not to a child: several children sharing one leaf would share
/// one channel, and the first report written would stand for all of them.
#[derive(Debug, Clone, Copy, PartialEq, Eq, Structural)]
pub enum PlacementReport {
    /// The child exited before reporting its placement outcome: its `pre_exec` did not run, or was
    /// interrupted between the write and the send. It never exec'd either way.
    NotReported,
    /// The child's write to `cgroup.procs` succeeded: at that instant it was a member.
    Placed,
    /// The child's write to `cgroup.procs` failed with this errno.
    WriteFailed(i32),
}

impl PlacementReport {
    /// The report in words, given the host's text for the errno it carries.
    pub open spec fn text(self, os_text: Seq<char>) -> Seq<char> {
        match self {
            PlacementReport::NotReported =>
                "the child exited before reporting its placement outcome (its pre_exec did not run, or was interrupted)"@,
            PlacementReport::Placed => "the child's pre_exec self-placement write succeeded"@,
            PlacementReport::WriteFailed(code) =>
                "the child's pre_exec write to cgroup.procs failed: "@ + os_text + " (errno "@
                + text::signed_decimal(code as int) + ")"@,
        }
    }

    /// The report in words, given the host's text for the errno it carries.
    pub fn render(&self, os_text: &str) -> (s: String)
        ensures
            s@ == self.text(os_text@),
    {
        match self {
            PlacementReport::NotReported =>
                "the child exited before reporting its placement outcome (its pre_exec did not run, or was interrupted)".to_owned(),
            PlacementReport::Placed => "the child's pre_exec self-placement write succeeded".to_owned(),
            PlacementReport::WriteFailed(code) => {
                let mut s = "the child's pre_exec write to cgroup.procs failed: ".to_owned();
                s.append(os_text);
                s.append(" (errno ");
                text::push_signed(&mut s, *code);
                s.append(")");
                s
            },
        }
    }

    /// The report in words.
    pub fn to_string(&self) -> (s: String)
        ensures
            exists|os_text: Seq<char>|
                self.is_os_text(os_text) && s@ == #[trigger] self.text(os_text),
    {
        let os_text = self.os_text();
        self.render(os_text.as_str())
    }

    /// Whether `os_text` is the host's text for the errno that the report carries: a text that the
    /// host gives for it, and no text where there is no errno.
    pub open spec fn is_os_text(self, os_text: Seq<char>) -> bool {
        match self {
            PlacementReport::WriteFailed(code) => errno::is_os_error_text(code, os_text),
            _ => os_text.len() == 0,
        }
    }

    /// The host's text for the errno that a failed write carries.
    fn os_text(&self) -> (s: String)
        ensures
            self.is_os_text(s@),
    {
        match self {
            PlacementReport::WriteFailed(code) => errno::host_text(*code),
            _ => String::new(),
        }
    }
}

/// What a child with nothing in its leaf reported: never a successful write.
#[derive(Debug, Clone, Copy, PartialEq, Eq, Structural)]
pub enum NotEntered {
    /// It exited before reporting its placement outcome.
    NotReported,
    /// Its write to `cgroup.procs` failed with this errno.
    WriteFailed(i32),
}

impl NotEntered {
    /// The report this is.
    pub open spec fn spec_report(self) -> PlacementReport {
        match self {
            NotEntered::NotReported => PlacementReport::NotReported,
            NotEntered::WriteFailed(code) => PlacementReport::WriteFailed(code),
        }
    }

    /// The report this is.
    pub fn report(&self) -> (r: PlacementReport)
        ensures
            r == self.spec_report(),
    {
        match self {
            NotEntered::NotReported => PlacementReport::NotReported,
            NotEntered::WriteFailed(code) => PlacementReport::WriteFailed(*code),
        }
    }

    /// The report in words.
    pub fn to_string(&self) -> (s: String)
        ensures
            exists|os_text: Seq<char>|
                self.spec_report().is_os_text(os_text) && s@
                    == #[trigger] self.spec_report().text(os_text),
    {
        self.report().to_string()
    }
}

/// Why a spawned child is not in its leaf, with every fact the diagnosis rests on.
///
/// The child's own report decides membership. `cgroup.procs` and the child's `/proc` state are read
/// only to diagnose a child that reported no successful write.
#[derive(Debug)]
pub enum NotPlaced {
    /// `cgroup.procs` was read.
    Absent {
        pid: u32,
        /// The `cgroup.procs` that was read.
        path: String,
        /// Its verbatim contents.
        procs: String,
        /// The leaf's placement report.
        report: NotEntered,
        /// The child's `/proc/<pid>` state letter, read before `procs`: `Z` means it had exited
        /// before the file was read.
        child_state: Option<char>,
    },
    /// `cgroup.procs` could not be read.
    Unreadable { pid: u32, path: String, source: OsError, report: NotEntered },
    /// The child's exit could not be watched, so its report could not be waited for, and the leaf
    /// was removed before the child entered it: it never can.
    Unwaitable {
        pid: u32,
        /// `pidfd_open`'s error.
        source: OsError,
    },
}

/// What `format!("{:?}")` writes of a text.
pub uninterp spec fn quoted(text: Seq<char>) -> Seq<char>;

/// `text` between quotes and escaped, as `str`'s `Debug` writes it: a function of the text alone.
#[verifier::external_body]
fn quote(text: &str) -> (r: String)
    ensures
        r@ == quoted(text@),
{
    format!("{:?}", text)
}

/// What a diagnosis says of the contents of `cgroup.procs`.
pub open spec fn listed_text(procs: Seq<char>) -> Seq<char> {
    if text::trim(procs).len() == 0 {
        "empty"@
    } else {
        quoted(text::trim(procs))
    }
}

/// What a diagnosis says of the child's `/proc` state.
pub open spec fn state_text(state: Option<char>) -> Seq<char> {
    match state {
        Some(letter) => if letter == 'Z' {
            "it had already exited when cgroup.procs was read"@
        } else {
            "it is still running (/proc state "@ + seq![letter] + ")"@
        },
        None => "its /proc state could not be read"@,
    }
}

impl NotPlaced {
    /// What the child reported, where it was waited for.
    pub open spec fn placement_report(self) -> Option<PlacementReport> {
        match self {
            NotPlaced::Absent { report, .. } => Some(report.spec_report()),
            NotPlaced::Unreadable { report, .. } => Some(report.spec_report()),
            NotPlaced::Unwaitable { .. } => None,
        }
    }

    /// Whether `os_text` is the host's text for the errno that the report carries, and no text where
    /// there is no report.
    pub open spec fn is_os_text(self, os_text: Seq<char>) -> bool {
        match self.placement_report() {
            Some(report) => report.is_os_text(os_text),
            None => os_text.len() == 0,
        }
    }

    /// The reason in words, given the host's text for the errno that the report carries.
    pub open spec fn text(self, os_text: Seq<char>) -> Seq<char> {
        match self {
            NotPlaced::Absent { pid, path, procs, report, child_state } => "child "@
                + text::decimal(pid as nat)
                + " is not in the leaf cgroup: it never entered, or exited without exec'ing: "@
                + report.spec_report().text(os_text) + "; "@ + path@ + " is "@ + listed_text(
                procs@,
            ) + "; "@ + state_text(child_state),
            NotPlaced::Unreadable { pid, path, source, report } => "child "@ + text::decimal(
                pid as nat,
            ) + " is not in the leaf cgroup: "@ + report.spec_report().text(os_text) + "; "@ + path@
                + " could not be read: "@ + source.text@,
            NotPlaced::Unwaitable { pid, source } => "child "@ + text::decimal(pid as nat)
                + "'s placement report cannot be waited for: pidfd_open failed: "@ + source.text@
                + "; the leaf cgroup was removed before the child entered it"@,
        }
    }

    /// The reason in words, given the host's text for the errno that the report carries.
    pub fn render(&self, os_text: &str) -> (s: String)
        ensures
            s@ == self.text(os_text@),
    {
        let mut s = "child ".to_owned();
        match self {
            NotPlaced::Absent { pid, path, procs, report, child_state } => {
                text::push_decimal(&mut s, *pid as u64);
                s.append(" is not in the leaf cgroup: it never entered, or exited without exec'ing: ");
                let report = report.report().render(os_text);
                s.append(report.as_str());
                s.append("; ");
                s.append(path.as_str());
                s.append(" is ");
                let listed = Self::render_listed(procs);
                s.append(listed.as_str());
                s.append("; ");
                let state = Self::render_state(*child_state);
                s.append(state.as_str());
            },
            NotPlaced::Unreadable { pid, path, source, report } => {
                text::push_decimal(&mut s, *pid as u64);
                s.append(" is not in the leaf cgroup: ");
                let report = report.report().render(os_text);
                s.append(report.as_str());
                s.append("; ");
                s.append(path.as_str());
                s.append(" could not be read: ");
                s.append(source.text.as_str());
            },
            NotPlaced::Unwaitable { pid, source } => {
                text::push_decimal(&mut s, *pid as u64);
                s.append("'s placement report cannot be waited for: pidfd_open failed: ");
                s.append(source.text.as_str());
                s.append("; the leaf cgroup was removed before the child entered it");
            },
        }
        s
    }

    /// The reason in words.
    pub fn to_string(&self) -> (s: String)
        ensures
            exists|os_text: Seq<char>|
                self.is_os_text(os_text) && s@ == #[trigger] self.text(os_text),
    {
        let os_text = match self {
            NotPlaced::Absent { report, .. } | NotPlaced::Unreadable { report, .. } =>
                report.report().os_text(),
            NotPlaced::Unwaitable { .. } => String::new(),
        };
        self.render(os_text.as_str())
    }

    fn render_listed(procs: &String) -> (s: String)
        ensures
            s@ == listed_text(procs@),
    {
        let chars = text::chars_of(procs.as_str());
        let (from, to) = text::trim_range(&chars, 0, chars.len());
        assert(chars@.subrange(0, chars@.len() as int) == chars@);
        if from == to {
            "empty".to_owned()
        } else {
            quote(procs.as_str().substring_char(from, to))
        }
    }

    fn render_state(state: Option<char>) -> (s: String)
        ensures
            s@ == state_text(state),
    {
        match state {
            Some(letter) => if letter == 'Z' {
                "it had already exited when cgroup.procs was read".to_owned()
            } else {
                let mut s = "it is still running (/proc state ".to_owned();
                s.push(letter);
                assert(s@ == "it is still running (/proc state "@ + seq![letter]);
                s.append(")");
                s
            },
            None => "its /proc state could not be read".to_owned(),
        }
    }
}

/// The step a contained spawn degraded at.
#[derive(Debug, Clone, Copy, PartialEq, Eq, PartialOrd, Ord, Structural)]
pub enum DegradeKind {
    ReadProcSelfCgroup,
    NoUnifiedLine,
    CreateLeafDir,
    KillUnsupported,
    CheckKill,
    OpenProcs,
    OpenReportChannel,
    WatchDrain,
    PidfdUnavailable,
    PlacementNotReported,
    PlacementWriteFailed,
}

/// One condition a contained spawn can degrade for: the step, and the errno it failed with where it
/// has one.
///
/// A reason's text varies per spawn; its condition is what an embedder can act on. The errno is part
/// of it because one step fails for different reasons that need different fixes.
#[derive(Debug, Clone, Copy, PartialEq, Eq, PartialOrd, Ord, Structural)]
pub struct DegradeCondition {
    pub kind: DegradeKind,
    pub errno: Option<i32>,
}

impl Condition for DegradeCondition {
    fn same(&self, other: &Self) -> (r: bool) {
        let errno = match (self.errno, other.errno) {
            (Some(a), Some(b)) => a == b,
            (None, None) => true,
            _ => false,
        };
        self.kind == other.kind && errno
    }
}

/// A reason a spawn degraded: its full text, plus which condition it is an instance of.
pub trait DegradeReason {
    /// The condition.
    spec fn spec_condition(&self) -> DegradeCondition;

    /// Whether `words` are the reason in words.
    spec fn reads(&self, words: Seq<char>) -> bool;

    /// Which condition the reason is an instance of.
    fn condition(&self) -> (c: DegradeCondition)
        ensures
            c == self.spec_condition(),
    ;

    /// The reason in words.
    fn describe(&self) -> (s: String)
        ensures
            self.reads(s@),
    ;
}

impl DegradeReason for LeafError {
    open spec fn spec_condition(&self) -> DegradeCondition {
        match self {
            LeafError::ReadProcSelfCgroup(e) => DegradeCondition {
                kind: DegradeKind::ReadProcSelfCgroup,
                errno: e.errno,
            },
            LeafError::NoUnifiedLine { .. } => DegradeCondition {
                kind: DegradeKind::NoUnifiedLine,
                errno: None,
            },
            LeafError::CreateLeafDir { source, .. } => DegradeCondition {
                kind: DegradeKind::CreateLeafDir,
                errno: source.errno,
            },
            LeafError::KillUnsupported { .. } => DegradeCondition {
                kind: DegradeKind::KillUnsupported,
                errno: None,
            },
            LeafError::CheckKill { source, .. } => DegradeCondition {
                kind: DegradeKind::CheckKill,
                errno: source.errno,
            },
            LeafError::OpenProcs { source, .. } => DegradeCondition {
                kind: DegradeKind::OpenProcs,
                errno: source.errno,
            },
            LeafError::OpenReportChannel(e) => DegradeCondition {
                kind: DegradeKind::OpenReportChannel,
                errno: e.errno,
            },
            LeafError::WatchDrain { source, .. } => DegradeCondition {
                kind: DegradeKind::WatchDrain,
                errno: source.errno,
            },
        }
    }

    open spec fn reads(&self, words: Seq<char>) -> bool {
        words == self.text()
    }

    fn condition(&self) -> (c: DegradeCondition) {
        let (kind, errno) = match self {
            LeafError::ReadProcSelfCgroup(e) => (DegradeKind::ReadProcSelfCgroup, e.errno),
            LeafError::NoUnifiedLine { .. } => (DegradeKind::NoUnifiedLine, None),
            LeafError::CreateLeafDir { source, .. } => (DegradeKind::CreateLeafDir, source.errno),
            LeafError::KillUnsupported { .. } => (DegradeKind::KillUnsupported, None),
            LeafError::CheckKill { source, .. } => (DegradeKind::CheckKill, source.errno),
            LeafError::OpenProcs { source, .. } => (DegradeKind::OpenProcs, source.errno),
            LeafError::OpenReportChannel(e) => (DegradeKind::OpenReportChannel, e.errno),
            LeafError::WatchDrain { source, .. } => (DegradeKind::WatchDrain, source.errno),
        };
        DegradeCondition { kind, errno }
    }

    fn describe(&self) -> (s: String) {
        self.to_string()
    }
}

impl DegradeReason for NotPlaced {
    /// The child's own report, never how `cgroup.procs` read: that is diagnosis, not cause.
    open spec fn spec_condition(&self) -> DegradeCondition {
        match self {
            NotPlaced::Absent { report, .. } | NotPlaced::Unreadable { report, .. } => match report {
                NotEntered::NotReported => DegradeCondition {
                    kind: DegradeKind::PlacementNotReported,
                    errno: None,
                },
                NotEntered::WriteFailed(code) => DegradeCondition {
                    kind: DegradeKind::PlacementWriteFailed,
                    errno: Some(*code),
                },
            },
            NotPlaced::Unwaitable { source, .. } => DegradeCondition {
                kind: DegradeKind::PidfdUnavailable,
                errno: source.errno,
            },
        }
    }

    open spec fn reads(&self, words: Seq<char>) -> bool {
        exists|os_text: Seq<char>|
            self.is_os_text(os_text) && words == #[trigger] self.text(os_text)
    }

    fn condition(&self) -> (c: DegradeCondition) {
        match self {
            NotPlaced::Absent { report, .. } | NotPlaced::Unreadable { report, .. } => match report {
                NotEntered::NotReported => DegradeCondition {
                    kind: DegradeKind::PlacementNotReported,
                    errno: None,
                },
                NotEntered::WriteFailed(code) => DegradeCondition {
                    kind: DegradeKind::PlacementWriteFailed,
                    errno: Some(*code),
                },
            },
            NotPlaced::Unwaitable { source, .. } => DegradeCondition {
                kind: DegradeKind::PidfdUnavailable,
                errno: source.errno,
            },
        }
    }

    fn describe(&self) -> (s: String) {
        self.to_string()
    }
}

/// Whether `message` says that the spawn degraded, and why.
pub open spec fn degrade_message<R: DegradeReason>(reason: &R, message: Seq<char>) -> bool {
    exists|words: Seq<char>| #[trigger]
        reason.reads(words) && message
            == "cgroup v2 containment: degrading to a process group — "@ + words
}

/// The record to make of a spawn that does not get the containment it asked for, and why.
///
/// One function for every degrade site, so the wording is composed once. Once per condition at
/// `Warn`, every time after that at `Debug`: nearly every degrade condition is a standing property of
/// the host, and the ten-thousandth report tells an embedder nothing new. A genuinely new condition
/// warns whatever has degraded before it. Repeats carry their own full text.
pub fn log_degrade_into<R: DegradeReason>(warned: &mut Seen<DegradeCondition>, reason: &R) -> (r:
    Record)
    ensures
        r.level == report::level_after(old(warned)@, reason.spec_condition()),
        final(warned)@ == old(warned)@.insert(reason.spec_condition()),
        degrade_message(reason, r.message@),
{
    let level = report_level(warned, reason.condition());
    let mut message = "cgroup v2 containment: degrading to a process group — ".to_owned();
    let words = reason.describe();
    message.append(words.as_str());
    Record { level, message }
}

/// Every step that can fail has a kind of its own: two reasons of one kind failed at the same step,
/// and a leaf that could not be made never shares a kind with a child that is not in one.
pub proof fn law_every_reason_has_its_own_kind(a: LeafError, b: LeafError, c: NotPlaced, d: NotPlaced)
    ensures
        a.spec_condition().kind == b.spec_condition().kind ==> {
            &&& a is ReadProcSelfCgroup <==> b is ReadProcSelfCgroup
            &&& a is NoUnifiedLine <==> b is NoUnifiedLine
            &&& a is CreateLeafDir <==> b is CreateLeafDir
            &&& a is KillUnsupported <==> b is KillUnsupported
            &&& a is CheckKill <==> b is CheckKill
            &&& a is OpenProcs <==> b is OpenProcs
            &&& a is OpenReportChannel <==> b is OpenReportChannel
            &&& a is WatchDrain <==> b is WatchDrain
        },
        a.spec_condition().kind != c.spec_condition().kind,
        c.spec_condition().kind == d.spec_condition().kind ==> (c is Unwaitable <==> d
            is Unwaitable),
{
}

/// What the child reported decides the condition, and nothing else that was read does: two children
/// with one report are one condition, and two reports are two.
pub proof fn law_the_report_is_the_condition(a: NotPlaced, b: NotPlaced)
    requires
        !(a is Unwaitable),
        !(b is Unwaitable),
    ensures
        a.spec_condition() == b.spec_condition() <==> a.placement_report() == b.placement_report(),
{
}

/// The condition of a leaf that could not be made is the step that failed, by its name, with the errno
/// that the step met; the two steps that meet no errno have none.
pub proof fn law_a_condition_is_its_step_and_errno(e: LeafError)
    ensures
        ({
            let c = e.spec_condition();
            match e {
                LeafError::ReadProcSelfCgroup(source) => c.kind == DegradeKind::ReadProcSelfCgroup
                    && c.errno == source.errno,
                LeafError::NoUnifiedLine { .. } => c.kind == DegradeKind::NoUnifiedLine && c.errno
                    is None,
                LeafError::CreateLeafDir { source, .. } => c.kind == DegradeKind::CreateLeafDir
                    && c.errno == source.errno,
                LeafError::KillUnsupported { .. } => c.kind == DegradeKind::KillUnsupported && c.errno
                    is None,
                LeafError::CheckKill { source, .. } => c.kind == DegradeKind::CheckKill && c.errno
                    == source.errno,
                LeafError::OpenProcs { source, .. } => c.kind == DegradeKind::OpenProcs && c.errno
                    == source.errno,
                LeafError::OpenReportChannel(source) => c.kind == DegradeKind::OpenReportChannel
                    && c.errno == source.errno,
                LeafError::WatchDrain { source, .. } => c.kind == DegradeKind::WatchDrain && c.errno
                    == source.errno,
            }
        }),
{
}

/// The condition of a child that is not in its leaf is what it reported, with the errno of its write;
/// or, where its report could not be waited for, that there is no pidfd, with the errno of that.
pub proof fn law_a_condition_is_the_report_and_its_errno(n: NotPlaced)
    ensures
        ({
            let c = n.spec_condition();
            &&& c.kind == DegradeKind::PidfdUnavailable <==> n is Unwaitable
            &&& n matches NotPlaced::Unwaitable { source, .. } ==> c.errno == source.errno
            &&& c.kind == DegradeKind::PlacementNotReported <==> n.placement_report() == Some(
                PlacementReport::NotReported,
            )
            &&& c.kind == DegradeKind::PlacementNotReported ==> c.errno is None
            &&& n.placement_report() matches Some(PlacementReport::WriteFailed(code)) ==> c.kind
                == DegradeKind::PlacementWriteFailed && c.errno == Some(code)
        }),
{
}

/// What a child with nothing in its leaf reported is never a placement, and is the report that it is
/// made of: two of them that stand for one report are one, and a failed write keeps its errno.
pub proof fn law_no_entry_is_never_a_placement(a: NotEntered, b: NotEntered)
    ensures
        !(a.spec_report() is Placed),
        a.spec_report() is NotReported <==> a is NotReported,
        a matches NotEntered::WriteFailed(code) ==> a.spec_report() == PlacementReport::WriteFailed(
            code,
        ),
        a.spec_report() == b.spec_report() ==> a == b,
{
}

/// The reason names no other report than the one it carries, and has none exactly where it could not be
/// waited for.
pub proof fn law_a_reason_keeps_its_report(n: NotPlaced, words: Seq<char>)
    ensures
        n.placement_report() is None <==> n is Unwaitable,
        n matches NotPlaced::Absent { report, .. } ==> n.placement_report() == Some(
            report.spec_report(),
        ),
        n matches NotPlaced::Unreadable { report, .. } ==> n.placement_report() == Some(
            report.spec_report(),
        ),
        n.placement_report() != Some(PlacementReport::Placed),
        // The host's words that it takes are the report's, and none where there is no report.
        n.placement_report() matches Some(report) ==> (n.is_os_text(words) <==> report.is_os_text(
            words,
        )),
        n is Unwaitable ==> (n.is_os_text(words) <==> words == Seq::<char>::empty()),
{
    assert(words.len() == 0 <==> words =~= Seq::<char>::empty());
}

/// What is said of a leaf that could not be made holds the path that the step touched and the host's
/// own words, or what the file has in place of a unified line.
pub proof fn law_a_leaf_error_says_what_it_met(e: LeafError)
    ensures
        match e {
            LeafError::ReadProcSelfCgroup(source) => text::mentions(e.text(), source.text@),
            LeafError::NoUnifiedLine { line_count, controllers } => text::mentions(
                e.text(),
                controllers@,
            ) && text::mentions(e.text(), text::decimal(line_count as nat)),
            LeafError::CreateLeafDir { path, source } => text::mentions(e.text(), path@)
                && text::mentions(e.text(), source.text@),
            LeafError::KillUnsupported { path } => text::mentions(e.text(), path@),
            LeafError::CheckKill { path, source } => text::mentions(e.text(), path@)
                && text::mentions(e.text(), source.text@),
            LeafError::OpenProcs { path, source } => text::mentions(e.text(), path@)
                && text::mentions(e.text(), source.text@),
            LeafError::OpenReportChannel(source) => text::mentions(e.text(), source.text@),
            LeafError::WatchDrain { path, source } => text::mentions(e.text(), path@)
                && text::mentions(e.text(), source.text@),
        },
{
    let s = e.text();
    match e {
        LeafError::ReadProcSelfCgroup(source) => {
            text::lemma_mentions_end("could not read /proc/self/cgroup: "@, source.text@);
        },
        LeafError::NoUnifiedLine { line_count, controllers } => {
            let head =
                "/proc/self/cgroup has no cgroup v2 unified (`0::`) line — a v1-only host, or the unified hierarchy is not mounted; the file has "@;
            let count = text::decimal(line_count as nat);
            let tail =
                " (their paths are dropped: none of them is one cosca touched, and they do not tell these cases apart)"@;
            text::lemma_mentions(s, head + count + " line(s), naming "@, controllers@, tail);
            assert(s =~= head + count + (" line(s), naming "@ + controllers@ + tail));
            text::lemma_mentions(s, head, count, " line(s), naming "@ + controllers@ + tail);
        },
        LeafError::CreateLeafDir { path, source } => {
            text::lemma_mentions_both("could not create the leaf cgroup "@, path@, ": "@, source.text@);
        },
        LeafError::KillUnsupported { path } => {
            text::lemma_mentions(
                s,
                "the leaf cgroup "@,
                path@,
                " has no cgroup.kill — the kernel is older than 5.14, so there is no atomic tree kill to back CgroupV2 containment"@,
            );
        },
        LeafError::CheckKill { path, source } => {
            text::lemma_mentions_both("could not check for "@, path@, ": "@, source.text@);
        },
        LeafError::OpenProcs { path, source } => {
            text::lemma_mentions_both("could not open "@, path@, " for writing: "@, source.text@);
        },
        LeafError::OpenReportChannel(source) => {
            text::lemma_mentions_end(
                "could not open the placement-report channel shared with the forked child: "@,
                source.text@,
            );
        },
        LeafError::WatchDrain { path, source } => {
            text::lemma_mentions_both("could not watch "@, path@, " for the leaf's drain: "@, source.text@);
        },
    }
}

/// What is said of a child that is not in its leaf holds its pid and what it reported, and what was
/// read to diagnose it: the file's path with what it listed and the child's state, or why it could not
/// be read.
pub proof fn law_a_reason_says_what_it_rests_on(n: NotPlaced, os_text: Seq<char>)
    ensures
        match n {
            NotPlaced::Absent { pid, path, procs, report, child_state } => {
                let s = n.text(os_text);
                &&& text::mentions(s, text::decimal(pid as nat))
                &&& text::mentions(s, report.spec_report().text(os_text))
                &&& text::mentions(s, path@)
                &&& text::mentions(s, listed_text(procs@))
                &&& text::mentions(s, state_text(child_state))
            },
            NotPlaced::Unreadable { pid, path, source, report } => {
                let s = n.text(os_text);
                &&& text::mentions(s, text::decimal(pid as nat))
                &&& text::mentions(s, report.spec_report().text(os_text))
                &&& text::mentions(s, path@)
                &&& text::mentions(s, source.text@)
            },
            NotPlaced::Unwaitable { pid, source } => {
                let s = n.text(os_text);
                &&& text::mentions(s, text::decimal(pid as nat))
                &&& text::mentions(s, source.text@)
            },
        },
{
    let s = n.text(os_text);
    match n {
        NotPlaced::Absent { pid, path, procs, report, child_state } => {
            let who = text::decimal(pid as nat);
            let how = report.spec_report().text(os_text);
            let why = " is not in the leaf cgroup: it never entered, or exited without exec'ing: "@;
            let listed = listed_text(procs@);
            let state = state_text(child_state);
            let a = "child "@ + who + why;
            let b = a + how + "; "@;
            let c = b + path@ + " is "@;
            let d = c + listed + "; "@;
            text::lemma_mentions_end(d, state);
            assert(s =~= c + listed + ("; "@ + state));
            text::lemma_mentions(s, c, listed, "; "@ + state);
            assert(s =~= b + path@ + (" is "@ + listed + "; "@ + state));
            text::lemma_mentions(s, b, path@, " is "@ + listed + "; "@ + state);
            let from_path = "; "@ + path@ + " is "@ + listed + "; "@ + state;
            assert(s =~= a + how + from_path);
            text::lemma_mentions(s, a, how, from_path);
            assert(s =~= "child "@ + who + (why + how + from_path));
            text::lemma_mentions(s, "child "@, who, why + how + from_path);
        },
        NotPlaced::Unreadable { pid, path, source, report } => {
            let who = text::decimal(pid as nat);
            let how = report.spec_report().text(os_text);
            let why = " is not in the leaf cgroup: "@;
            let a = "child "@ + who + why;
            let b = a + how + "; "@;
            text::lemma_mentions_both(b, path@, " could not be read: "@, source.text@);
            let from_path = "; "@ + path@ + " could not be read: "@ + source.text@;
            assert(s =~= a + how + from_path);
            text::lemma_mentions(s, a, how, from_path);
            assert(s =~= "child "@ + who + (why + how + from_path));
            text::lemma_mentions(s, "child "@, who, why + how + from_path);
        },
        NotPlaced::Unwaitable { pid, source } => {
            let who = text::decimal(pid as nat);
            let why = "'s placement report cannot be waited for: pidfd_open failed: "@;
            let tail = "; the leaf cgroup was removed before the child entered it"@;
            text::lemma_mentions(s, "child "@ + who + why, source.text@, tail);
            assert(s =~= "child "@ + who + (why + source.text@ + tail));
            text::lemma_mentions(s, "child "@, who, why + source.text@ + tail);
        },
    }
}

/// What is said of a failed write holds the errno and the host's words for it; the other two reports
/// carry no errno, and what is said of them does not depend on any.
pub proof fn law_a_report_says_its_errno(code: i32, os_text: Seq<char>, other: Seq<char>)
    ensures
        text::mentions(PlacementReport::WriteFailed(code).text(os_text), os_text),
        text::mentions(
            PlacementReport::WriteFailed(code).text(os_text),
            text::signed_decimal(code as int),
        ),
        PlacementReport::NotReported.text(os_text) == PlacementReport::NotReported.text(other),
        PlacementReport::Placed.text(os_text) == PlacementReport::Placed.text(other),
        PlacementReport::Placed.text(os_text) != PlacementReport::NotReported.text(os_text),
        PlacementReport::NotReported.is_os_text(other) <==> other.len() == 0,
        PlacementReport::Placed.is_os_text(other) <==> other.len() == 0,
{
    let head = "the child's pre_exec write to cgroup.procs failed: "@;
    let number = text::signed_decimal(code as int);
    let s = PlacementReport::WriteFailed(code).text(os_text);
    text::lemma_mentions(s, head + os_text + " (errno "@, number, ")"@);
    assert(s =~= head + os_text + (" (errno "@ + number + ")"@));
    text::lemma_mentions(s, head, os_text, " (errno "@ + number + ")"@);
    reveal_strlit("the child's pre_exec self-placement write succeeded");
    reveal_strlit(
        "the child exited before reporting its placement outcome (its pre_exec did not run, or was interrupted)",
    );
    assert("the child's pre_exec self-placement write succeeded"@[9] == '\'');
    assert(
        "the child exited before reporting its placement outcome (its pre_exec did not run, or was interrupted)"@[9]
            == ' ');
}

/// A list of members is said to be empty exactly where there is nothing but white space in it; and white
/// space around a list is no part of what is said.
pub proof fn law_only_white_space_is_an_empty_list(procs: Seq<char>, other: Seq<char>)
    ensures
        text::all_white(procs) ==> listed_text(procs) == "empty"@,
        !text::all_white(procs) ==> listed_text(procs) == quoted(text::trim(procs)),
        text::trim(procs) == text::trim(other) ==> listed_text(procs) == listed_text(other),
{
    text::law_trimming_takes_white_space_off_both_ends(procs);
}

/// A child is said to have exited exactly where its state is the zombie's; any other state is said by
/// its letter, and no state at all is told from both.
pub proof fn law_only_a_zombie_has_exited(a: char, b: char)
    ensures
        state_text(Some(a)) == state_text(Some(b)) ==> a == b,
        a != 'Z' ==> text::mentions(state_text(Some(a)), seq![a]),
        state_text(None) != state_text(Some(a)),
        state_text(Some('Z')) == "it had already exited when cgroup.procs was read"@,
{
    reveal_strlit("it had already exited when cgroup.procs was read");
    reveal_strlit("its /proc state could not be read");
    reveal_strlit("it is still running (/proc state ");
    reveal_strlit(")");
    let running = "it is still running (/proc state "@;
    let exited = "it had already exited when cgroup.procs was read"@;
    let unread = "its /proc state could not be read"@;
    assert(exited[3] == 'h');
    assert(running[3] == 'i');
    assert(unread[2] == 's');
    assert(exited[2] == ' ');
    assert(running[2] == ' ');
    if a != 'Z' {
        text::lemma_mentions(state_text(Some(a)), running, seq![a], ")"@);
        assert(state_text(Some(a))[3] == running[3]);
        assert(state_text(Some(a))[2] == running[2]);
        assert(state_text(Some(a))[running.len() as int] == a);
    }
    if b != 'Z' {
        assert(state_text(Some(b))[3] == running[3]);
        assert(state_text(Some(b))[running.len() as int] == b);
    }
}

/// What is said of a degraded spawn holds the reason in its own words; of a leaf that could not be made
/// those are the error's, and of a child that is not in its leaf they are given with the host's text for
/// the errno that it reported.
pub proof fn law_a_degrade_says_its_reason(
    leaf: LeafError,
    child: NotPlaced,
    of_leaf: Seq<char>,
    of_child: Seq<char>,
)
    ensures
        degrade_message(&leaf, of_leaf) ==> text::mentions(of_leaf, leaf.text()),
        degrade_message(&child, of_child) ==> exists|os_text: Seq<char>|
            child.is_os_text(os_text) && text::mentions(of_child, #[trigger] child.text(os_text)),
{
    let head = "cgroup v2 containment: degrading to a process group — "@;
    text::lemma_mentions_end(head, leaf.text());
    if degrade_message(&child, of_child) {
        let words = choose|words: Seq<char>| #[trigger]
            child.reads(words) && of_child
                == "cgroup v2 containment: degrading to a process group — "@ + words;
        let os_text = choose|os_text: Seq<char>|
            child.is_os_text(os_text) && words == #[trigger] child.text(os_text);
        text::lemma_mentions_end(head, words);
        assert(child.is_os_text(os_text) && text::mentions(of_child, child.text(os_text)));
    }
}

} // verus!
