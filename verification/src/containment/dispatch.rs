//! Per-OS containment dispatch, in two phases: prepare before the spawn, attach after it.
//!
//! Every decision is made here from plain values. What only the host can do (read the environment,
//! make a leaf or a marker, resolve an identity, assign a job) is asked for, and its answer handed
//! back.

use vstd::prelude::*;
use vstd::string::*;

use crate::containment::cgroup::degrade::NotPlaced;
use crate::containment::windows;
use crate::containment::{ContainMode, ContainRequest, Containment, Nesting};
use crate::errno::OsError;
use crate::error::Error;
use crate::graceful::GracefulMechanism;
use crate::identity::{ProcessId, Resolved};
use crate::report::{Level, Record};
use crate::text;

verus! {

/// The kind of host a spawn runs on.
#[derive(Debug, Clone, Copy, PartialEq, Eq, Structural)]
pub enum Platform {
    Linux,
    MacOs,
    /// A Unix other than Linux and macOS.
    OtherUnix,
    Windows,
    /// A host with no containment mechanism.
    Unsupported,
}

impl Platform {
    /// Whether the host is a Unix.
    pub open spec fn spec_is_unix(self) -> bool {
        self == Platform::Linux || self == Platform::MacOs || self == Platform::OtherUnix
    }

    /// Whether the host is a Unix.
    pub fn is_unix(&self) -> (r: bool)
        ensures
            r == self.spec_is_unix(),
    {
        match self {
            Platform::Linux | Platform::MacOs | Platform::OtherUnix => true,
            Platform::Windows | Platform::Unsupported => false,
        }
    }
}

/// Whether the current process is a nested member: the environment marker is present.
pub fn is_nested(marker_present: bool) -> (r: bool)
    ensures
        r == marker_present,
{
    marker_present
}

/// Which Unix setup action to apply to a root command for a given mode. Exactly one of them: a
/// session leader refuses a process group.
#[derive(Debug, Clone, Copy, PartialEq, Eq, Structural)]
pub enum UnixSetup {
    /// Apply `setsid` before the exec.
    Session,
    /// Apply a new process group.
    ProcessGroup,
    /// Apply no grouping: a tree walk is there to catch children that leave a process group, so the
    /// root is put in none; teardown is by identity.
    NoGrouping,
}

/// Which Unix mechanism `mode` selects for a root spawn.
pub open spec fn spec_unix_setup_for(mode: Option<ContainMode>) -> UnixSetup {
    match mode {
        Some(ContainMode::Session) => UnixSetup::Session,
        Some(ContainMode::TreeWalk) => UnixSetup::NoGrouping,
        _ => UnixSetup::ProcessGroup,
    }
}

/// Which Unix mechanism `mode` selects for a root spawn.
pub fn unix_setup_for(mode: Option<ContainMode>) -> (s: UnixSetup)
    ensures
        s == spec_unix_setup_for(mode),
{
    match mode {
        Some(ContainMode::Session) => UnixSetup::Session,
        Some(ContainMode::TreeWalk) => UnixSetup::NoGrouping,
        _ => UnixSetup::ProcessGroup,
    }
}

/// The Windows pre-spawn containment decision. The caller applies it.
#[derive(Debug, Clone, Copy, PartialEq, Eq, Structural)]
pub struct WindowsContain {
    /// Creation flags to OR into the spawn; `0` when uncontained.
    pub creation_flags: u32,
    /// Whether this spawn must set the inherited root marker so descendants join this group.
    pub marker_env: bool,
    /// How a child spawned with these flags can be asked to stop.
    pub graceful: GracefulMechanism,
}

/// The creation flags that a contained Windows spawn needs: a root that a job is to hold is spawned
/// suspended and leads a group; a tree-walk root and every nested spawn only leads a group.
pub open spec fn contain_flags(req: ContainRequest, is_root: bool) -> u32 {
    match req.mode {
        None => 0,
        Some(mode) => if is_root && mode != ContainMode::TreeWalk {
            windows::spec_root_flags()
        } else {
            windows::CREATE_NEW_PROCESS_GROUP
        },
    }
}

/// Decide the Windows pre-spawn containment flags and marker.
pub fn windows_contain_setup(req: &ContainRequest, is_root: bool) -> (w: WindowsContain)
    ensures
        w.creation_flags == contain_flags(*req, is_root),
        w.marker_env == (req.mode is Some && is_root && req.nesting == Nesting::Mark),
        w.graceful == windows::spec_mechanism_from_flags(w.creation_flags),
{
    match req.mode {
        None => WindowsContain {
            creation_flags: 0,
            marker_env: false,
            graceful: windows::mechanism_from_flags(0),
        },
        Some(mode) => {
            let creation_flags: u32 = if is_root && mode != ContainMode::TreeWalk {
                windows::root_flags()
            } else {
                windows::group_flags()
            };
            WindowsContain {
                creation_flags,
                marker_env: is_root && req.nesting == Nesting::Mark,
                graceful: windows::mechanism_from_flags(creation_flags),
            }
        },
    }
}

/// Whether a macOS spawn installs the inherited-fd marker: every contained root does, whatever its
/// mode; a nested spawn inherits its root's, and an elevated one's wrapper would close it.
pub fn marker_wanted(mode: Option<ContainMode>, is_root: bool, suppressed: bool) -> (r: bool)
    ensures
        r == (mode is Some && is_root && !suppressed),
{
    mode.is_some() && is_root && !suppressed
}

/// What to do to a command before it is spawned.
#[derive(Debug, Clone, Copy)]
pub struct PreparePlan<'a> {
    pub mode: Option<ContainMode>,
    pub is_root: bool,
    /// Set the inherited root marker in the child's environment, after the caller's own changes to
    /// it.
    pub mark_env: bool,
    /// Apply this grouping.
    pub setup: Option<UnixSetup>,
    /// Try to create a cgroup leaf and, where that succeeds, have the child place itself in it.
    pub create_leaf: bool,
    /// Install the inherited-fd marker, above these descriptors of the child's: what the caller maps
    /// onto one of them would replace a marker that stood there.
    pub install_marker: Option<&'a [i32]>,
    /// Clear the standard handles' inheritance and add these creation flags.
    pub windows: Option<WindowsContain>,
    /// How the child can be asked to stop.
    pub graceful: GracefulMechanism,
}

/// Phase 1, before the spawn: what a spawn with the request `req` needs done. `marker_present` is
/// whether this process's own environment holds the root marker; an uncontained spawn does not
/// depend on it. `reserved_fds` are the child's descriptors that the caller maps; only a marker that is
/// installed depends on them, and is handed all of them.
pub fn prepare<'a>(
    platform: Platform,
    req: &ContainRequest,
    marker_present: bool,
    reserved_fds: &'a [i32],
    marker_suppressed: bool,
) -> (plan: PreparePlan<'a>)
    ensures
        plan.mode == req.mode,
        plan.is_root == (req.mode is Some && !marker_present),
        plan.mark_env == (plan.is_root && req.nesting == Nesting::Mark),
        plan.setup == (if plan.is_root && platform.spec_is_unix() {
            Some(spec_unix_setup_for(req.mode))
        } else {
            None
        }),
        plan.create_leaf == (platform == Platform::Linux && plan.setup == Some(
            UnixSetup::ProcessGroup,
        )),
        plan.install_marker == (if platform == Platform::MacOs && plan.is_root
            && !marker_suppressed {
            Some(reserved_fds)
        } else {
            None
        }),
        plan.windows is Some <==> platform == Platform::Windows && req.mode is Some,
        plan.windows matches Some(w) ==> {
            &&& w.creation_flags == contain_flags(*req, plan.is_root)
            &&& w.marker_env == plan.mark_env
            &&& w.graceful == plan.graceful
        },
        plan.graceful == (if platform == Platform::Windows {
            windows::spec_mechanism_from_flags(contain_flags(*req, plan.is_root))
        } else {
            GracefulMechanism::Process
        }),
{
    let is_root = req.mode.is_some() && !is_nested(marker_present);
    let setup = if is_root && platform.is_unix() {
        Some(unix_setup_for(req.mode))
    } else {
        None
    };
    let groups = match setup {
        Some(UnixSetup::ProcessGroup) => true,
        _ => false,
    };
    let on_windows = platform == Platform::Windows;
    let contained = windows_contain_setup(req, is_root);
    PreparePlan {
        mode: req.mode,
        is_root,
        mark_env: is_root && req.nesting == Nesting::Mark,
        setup,
        create_leaf: platform == Platform::Linux && groups,
        install_marker: if platform == Platform::MacOs && marker_wanted(
            req.mode,
            is_root,
            marker_suppressed,
        ) {
            Some(reserved_fds)
        } else {
            None
        },
        windows: if on_windows && req.mode.is_some() {
            Some(contained)
        } else {
            None
        },
        graceful: if on_windows {
            contained.graceful
        } else {
            GracefulMechanism::Process
        },
    }
}

/// The pre-spawn containment decision, with what was made for it: the leaf `L` the child places
/// itself in, the marker `M` it inherits.
#[derive(Debug)]
pub struct Prepared<L, M> {
    pub mode: Option<ContainMode>,
    pub is_root: bool,
    /// `Some` means the child places itself in the leaf; `None` means the process group is all
    /// there is.
    pub cgroup_leaf: Option<L>,
    /// The marker pipe of a contained macOS root. `None` for a nested member, an uncontained or
    /// elevation-derived spawn, or a failed install (which degrades to the process group).
    pub marker: Option<M>,
    pub graceful: GracefulMechanism,
}

impl<'a> PreparePlan<'a> {
    /// The decision, once what the plan asks for has been tried. A leaf or a marker that the plan
    /// does not ask for is not taken up.
    pub fn complete<L, M>(self, leaf: Option<L>, marker: Option<M>) -> (p: Prepared<L, M>)
        ensures
            p.mode == self.mode,
            p.is_root == self.is_root,
            p.cgroup_leaf == (if self.create_leaf {
                leaf
            } else {
                None
            }),
            p.marker == (if self.install_marker is Some {
                marker
            } else {
                None
            }),
            p.graceful == self.graceful,
    {
        Prepared {
            mode: self.mode,
            is_root: self.is_root,
            cgroup_leaf: if self.create_leaf {
                leaf
            } else {
                None
            },
            marker: if self.install_marker.is_some() {
                marker
            } else {
                None
            },
            graceful: self.graceful,
        }
    }
}

/// The supervisor's side of a macOS inherited-fd marker `M`, with what its sweep can use.
#[derive(Debug)]
pub struct Marker<M> {
    pub prepared: M,
    /// The root's identity, where the host gave it.
    pub root: Option<ProcessId>,
    /// The process group, where the mode created one.
    pub pgid: Option<i32>,
    /// Whether the host refused to identify the root: every sweep is then incomplete.
    pub root_denied: bool,
}

/// Owns the containment resource of a spawned child: a leaf `L`, a job `J`, a marker `M`.
#[derive(Debug)]
pub enum Attached<L, J, M> {
    /// Uncontained: lone-process semantics.
    Uncontained,
    /// A nested member: it joined an ancestor's group or job and owns no teardown mechanism of its
    /// own (the outermost root tears the tree down).
    Delegated,
    /// The process group's id, which is the root's pid.
    ProcessGroup(i32),
    Cgroup(L),
    JobObject(J),
    FdMarker(Marker<M>),
    /// Tree-walk teardown: the tree is enumerated from this root and killed by identity.
    TreeWalk(ProcessId),
}

/// What tearing down a contained tree takes.
#[derive(Debug)]
pub enum Teardown<'a, L, J, M> {
    /// Nothing: this handle owns no mechanism.
    Nothing,
    /// Signal the process group.
    Group(i32),
    /// Go through the leaf.
    Leaf(&'a L),
    /// Go through the job.
    Job(&'a J),
    /// Sweep the marker's holders.
    Marker(&'a Marker<M>),
    /// Walk the tree from its root.
    Walk(ProcessId),
}

/// What `terminate` is called, and says, where it has nothing to act on.
pub const TERMINATE_OP: &'static str = "terminate on a non-actionable mechanism";

pub const TERMINATE_DETAIL: &'static str =
    "internal invariant: a non-actionable mechanism reached terminate";

pub const DRAIN_OP: &'static str = "wait for the contained tree to drain";

pub const DRAIN_DETAIL: &'static str =
    "this child's containment mechanism exposes no kernel edge for tree drain";

impl<L, J, M> Attached<L, J, M> {
    /// Whether this child holds an actionable tree-teardown mechanism.
    pub open spec fn actionable(self) -> bool {
        !(self is Uncontained) && !(self is Delegated)
    }

    /// The mechanism that acts on the tree.
    pub open spec fn spec_teardown(&self) -> Teardown<'_, L, J, M> {
        match self {
            Attached::Uncontained | Attached::Delegated => Teardown::Nothing,
            Attached::ProcessGroup(pgid) => Teardown::Group(*pgid),
            Attached::Cgroup(leaf) => Teardown::Leaf(leaf),
            Attached::JobObject(job) => Teardown::Job(job),
            Attached::FdMarker(m) => Teardown::Marker(m),
            Attached::TreeWalk(root) => Teardown::Walk(*root),
        }
    }

    /// What hard-killing the contained tree takes. A handle with no mechanism has nothing to kill,
    /// and that is no failure; any failure of the mechanism itself is the caller's to return.
    pub fn hard_kill(&self) -> (t: Teardown<'_, L, J, M>)
        ensures
            t == self.spec_teardown(),
    {
        match self {
            Attached::Uncontained | Attached::Delegated => Teardown::Nothing,
            Attached::ProcessGroup(pgid) => Teardown::Group(*pgid),
            Attached::Cgroup(leaf) => Teardown::Leaf(leaf),
            Attached::JobObject(job) => Teardown::Job(job),
            Attached::FdMarker(m) => Teardown::Marker(m),
            Attached::TreeWalk(root) => Teardown::Walk(*root),
        }
    }

    /// What sending the graceful termination signal to the tree takes. A handle with no mechanism
    /// must not get here, and is refused.
    pub fn terminate(&self, os: &str) -> (r: Result<Teardown<'_, L, J, M>, Error>)
        ensures
            match r {
                Ok(t) => self.actionable() && t == self.spec_teardown(),
                Err(e) => !self.actionable() && e.is_unsupported(
                    TERMINATE_OP@,
                    os@,
                    TERMINATE_DETAIL@,
                ),
            },
    {
        if self.is_actionable() {
            Ok(self.hard_kill())
        } else {
            Err(
                Error::Unsupported {
                    op: TERMINATE_OP.to_owned(),
                    platform: os.to_owned(),
                    detail: TERMINATE_DETAIL.to_owned(),
                },
            )
        }
    }

    /// What has to be neutralized so that dropping the handle leaves the tree running: the kill of
    /// a leaf's drop and of a job's close. No other mechanism's drop kills.
    pub fn disarm(&self) -> (t: Teardown<'_, L, J, M>)
        ensures
            t == (match self {
                Attached::Cgroup(leaf) => Teardown::<L, J, M>::Leaf(leaf),
                Attached::JobObject(job) => Teardown::Job(job),
                _ => Teardown::Nothing,
            }),
    {
        match self {
            Attached::Cgroup(leaf) => Teardown::Leaf(leaf),
            Attached::JobObject(job) => Teardown::Job(job),
            _ => Teardown::Nothing,
        }
    }

    /// Whether this mechanism signals a process group whose id can be recycled once its leader is
    /// reaped. A process group always does; a marker does when its mode created one.
    pub fn carries_recyclable_pgid(&self) -> (r: bool)
        ensures
            r == (match self {
                Attached::ProcessGroup(_) => true,
                Attached::FdMarker(m) => m.pgid is Some,
                _ => false,
            }),
    {
        match self {
            Attached::ProcessGroup(_) => true,
            Attached::FdMarker(m) => m.pgid.is_some(),
            _ => false,
        }
    }

    /// Whether this child holds an actionable tree-teardown mechanism.
    pub fn is_actionable(&self) -> (r: bool)
        ensures
            r == self.actionable(),
    {
        match self {
            Attached::Uncontained | Attached::Delegated => false,
            Attached::ProcessGroup(_) => true,
            Attached::Cgroup(_) => true,
            Attached::JobObject(_) => true,
            Attached::FdMarker(_) => true,
            Attached::TreeWalk(_) => true,
        }
    }

    /// The marker whose read end shows the tree draining. `Unsupported` on every other mechanism.
    pub fn wait_drained(&self, os: &str) -> (r: Result<&Marker<M>, Error>)
        ensures
            match r {
                Ok(m) => self == Attached::<L, J, M>::FdMarker(*m),
                Err(e) => !(self is FdMarker) && e.is_unsupported(DRAIN_OP@, os@, DRAIN_DETAIL@),
            },
    {
        match self {
            Attached::FdMarker(m) => Ok(m),
            _ => Err(
                Error::Unsupported {
                    op: DRAIN_OP.to_owned(),
                    platform: os.to_owned(),
                    detail: DRAIN_DETAIL.to_owned(),
                },
            ),
        }
    }
}

pub const TREE_OP: &'static str = "tree teardown (kill_tree / terminate_tree)";

pub const TREE_DETAIL: &'static str =
    "this child holds no actionable tree-teardown mechanism (uncontained, or a nested member of an ancestor's containment group). Use kill() for a lone process, or tear down the tree via the outermost .contain()ed handle.";

/// Guard for the tree operations: they act on the containment group's teardown mechanism, so a child
/// whose mechanism is a no-op has no tree to act on.
pub fn require_contained<L, J, M>(
    containment: Containment,
    attached: &Attached<L, J, M>,
    os: &str,
) -> (r: Result<(), Error>)
    requires
        containment.drives_teardown() == attached.actionable(),
    ensures
        match r {
            Ok(()) => attached.actionable(),
            Err(e) => !attached.actionable() && e.is_unsupported(TREE_OP@, os@, TREE_DETAIL@),
        },
{
    if !attached.is_actionable() {
        return Err(
            Error::Unsupported {
                op: TREE_OP.to_owned(),
                platform: os.to_owned(),
                detail: TREE_DETAIL.to_owned(),
            },
        );
    }
    Ok(())
}

/// What a spawned child is contained by.
#[derive(Debug)]
pub struct Attachment<L, J, M> {
    pub containment: Containment,
    pub attached: Attached<L, J, M>,
    pub graceful: GracefulMechanism,
}

impl<L, J, M> Attachment<L, J, M> {
    /// The reported mechanism drives teardown exactly where the handle owns one.
    pub open spec fn consistent(self) -> bool {
        self.containment.drives_teardown() == self.attached.actionable()
    }

    /// The attachment of a child that a consent prompt launched: this process neither contains it
    /// nor knows how it can be asked to stop.
    pub fn uac_elevated() -> (a: Attachment<L, J, M>)
        ensures
            a.containment == Containment::Uncontained,
            a.attached == Attached::<L, J, M>::Uncontained,
            a.graceful == GracefulMechanism::Unknown,
    {
        Attachment {
            containment: Containment::Uncontained,
            attached: Attached::Uncontained,
            graceful: GracefulMechanism::Unknown,
        }
    }
}

/// Why a mechanism could not be attached. The spawn then fails.
#[derive(Debug)]
pub enum AttachFailure {
    /// The tree-walk root is gone.
    RootVanished,
    /// The host refused to identify the tree-walk root.
    RootUnreadable(u32),
    /// Whether the child entered its leaf could not be decided.
    Placement(Error),
    /// The job object could not be set up.
    Job(OsError),
}

pub const ROOT_VANISHED: &'static str = "tree-walk root vanished before its identity could be read";

/// What is said of a root that the host refused to identify.
pub open spec fn root_unreadable_text(pid: u32) -> Seq<char> {
    "tree-walk root pid "@ + text::decimal(pid as nat) + " identity could not be read"@
}

impl AttachFailure {
    /// The error that the spawn fails with.
    pub fn into_error(self) -> (e: Error)
        ensures
            match self {
                AttachFailure::RootVanished => e.is_containment(ROOT_VANISHED@),
                AttachFailure::RootUnreadable(pid) => e.is_unassessable(root_unreadable_text(pid)),
                AttachFailure::Placement(error) => e == error,
                AttachFailure::Job(error) => e.is_containment(error.text@),
            },
    {
        match self {
            AttachFailure::RootVanished => Error::Containment { detail: ROOT_VANISHED.to_owned() },
            AttachFailure::RootUnreadable(pid) => {
                let mut detail = "tree-walk root pid ".to_owned();
                text::push_decimal(&mut detail, pid as u64);
                detail.append(" identity could not be read");
                Error::Unassessable { detail }
            },
            AttachFailure::Placement(error) => error,
            AttachFailure::Job(error) => Error::Containment { detail: error.text },
        }
    }
}

/// The identity of the spawned root `pid`, from what the host answered. A refusal is not an absence.
pub open spec fn root_id(pid: u32, resolved: Resolved) -> Result<ProcessId, AttachFailure> {
    match resolved {
        Resolved::Found(id) => Ok(id),
        Resolved::Gone => Err(AttachFailure::RootVanished),
        Resolved::Unknown => Err(AttachFailure::RootUnreadable(pid)),
    }
}

/// The identity of the spawned root `pid`, from what the host answered.
pub fn resolve_root_id(pid: u32, resolved: Resolved) -> (r: Result<ProcessId, AttachFailure>)
    ensures
        r == root_id(pid, resolved),
{
    match resolved {
        Resolved::Found(id) => Ok(id),
        Resolved::Gone => Err(AttachFailure::RootVanished),
        Resolved::Unknown => Err(AttachFailure::RootUnreadable(pid)),
    }
}

/// Something worth a record that an attach came across.
#[derive(Debug, Clone, Copy, PartialEq, Eq, Structural)]
pub enum AttachNote {
    /// The marked root exited before it could be identified. Routine: a fast child can be reaped
    /// inside the spawn itself.
    RootExited,
    /// The host refused to identify the marked root.
    RootDenied,
    /// A nested spawn came with a marker of its own, which is discarded.
    NestedMarker,
}

pub const ROOT_EXITED_TEXT: &'static str =
    "fd marker: the root exited before its identity could be read; the sweep runs without its ppid-walk channel (the marker and group channels do not need it)";

pub const ROOT_DENIED_TEXT: &'static str =
    "fd marker: the root's identity could not be read (access denied); the sweep runs without its ppid-walk channel, and every pass reports this marker as incomplete";

pub const NESTED_MARKER_TEXT: &'static str =
    "fd marker: a nested spawn's prepare() unexpectedly produced a marker; a nested member must inherit the root's marker, never create its own — discarding it";

impl AttachNote {
    /// The record to make.
    pub fn record(&self) -> (r: Record)
        ensures
            r.level == (if self is RootExited {
                Level::Debug
            } else {
                Level::Warn
            }),
            r.message@ == (match self {
                AttachNote::RootExited => ROOT_EXITED_TEXT@,
                AttachNote::RootDenied => ROOT_DENIED_TEXT@,
                AttachNote::NestedMarker => NESTED_MARKER_TEXT@,
            }),
    {
        match self {
            AttachNote::RootExited => Record {
                level: Level::Debug,
                message: ROOT_EXITED_TEXT.to_owned(),
            },
            AttachNote::RootDenied => Record {
                level: Level::Warn,
                message: ROOT_DENIED_TEXT.to_owned(),
            },
            AttachNote::NestedMarker => Record {
                level: Level::Warn,
                message: NESTED_MARKER_TEXT.to_owned(),
            },
        }
    }
}

/// How an attach ended.
#[derive(Debug)]
pub struct AttachOutcome<L, J, M> {
    pub result: Result<Attachment<L, J, M>, AttachFailure>,
    pub note: Option<AttachNote>,
    /// Why a Linux child is not in its leaf, where that is why it got a process group.
    pub degraded: Option<NotPlaced>,
    /// A leaf that the child did not enter, or whose membership could not be decided, to be
    /// removed.
    pub released: Option<L>,
}

/// An attach under way: what the host has to answer next, or how it ended.
#[derive(Debug)]
pub enum Attaching<L, J, M> {
    /// Identify the tree-walk root `pid`.
    ResolveRoot { pid: u32, graceful: GracefulMechanism },
    /// Identify the marked root `pid`, whose mode created the process group `group`, if any.
    ResolveMarked { pid: u32, group: Option<i32>, marker: M, graceful: GracefulMechanism },
    /// Ask the leaf whether the child `pid` entered it. It leads the process group `pgid` either way.
    TakePlacement { pid: u32, pgid: i32, leaf: L, graceful: GracefulMechanism },
    /// Assign a job object to the child `pid`.
    AttachJob { pid: u32, graceful: GracefulMechanism },
    Done(AttachOutcome<L, J, M>),
}

/// What the host answered.
#[derive(Debug)]
pub enum AttachAnswer<J> {
    Identity(Resolved),
    /// Whether the child entered its leaf; `Err` is a spawn that must fail.
    Placement(Result<Result<(), NotPlaced>, Error>),
    /// The job, or `None` where the host would not assign one.
    Job(Result<Option<J>, OsError>),
}

/// A finished attach with nothing to add.
pub open spec fn attached_as<L, J, M>(
    containment: Containment,
    attached: Attached<L, J, M>,
    graceful: GracefulMechanism,
) -> AttachOutcome<L, J, M> {
    AttachOutcome {
        result: Ok(Attachment { containment, attached, graceful }),
        note: None,
        degraded: None,
        released: None,
    }
}

/// A finished attach of a tree-walk root.
pub open spec fn walked<L, J, M>(
    pid: u32,
    resolved: Resolved,
    graceful: GracefulMechanism,
) -> AttachOutcome<L, J, M> {
    match root_id(pid, resolved) {
        Ok(id) => attached_as(Containment::TreeWalk, Attached::TreeWalk(id), graceful),
        Err(failure) => AttachOutcome {
            result: Err(failure),
            note: None,
            degraded: None,
            released: None,
        },
    }
}

/// Whether a spawn prepared like this is attached by its process group's id.
pub open spec fn attaches_by_group<L, M>(platform: Platform, prepared: Prepared<L, M>) -> bool {
    platform.spec_is_unix() && prepared.is_root && prepared.mode is Some && prepared.mode != Some(
        ContainMode::TreeWalk,
    )
}

impl<L, J, M> Attaching<L, J, M> {
    /// How an attach of the child `pid` begins.
    pub open spec fn spec_start(platform: Platform, pid: u32, prepared: Prepared<L, M>) -> Self {
        let graceful = prepared.graceful;
        match prepared.mode {
            None => Attaching::Done(
                attached_as(Containment::Uncontained, Attached::Uncontained, graceful),
            ),
            Some(mode) => if platform == Platform::Unsupported {
                Attaching::Done(
                    attached_as(Containment::Uncontained, Attached::Uncontained, graceful),
                )
            } else if !prepared.is_root {
                Attaching::Done(
                    AttachOutcome {
                        note: if platform == Platform::MacOs && prepared.marker is Some {
                            Some(AttachNote::NestedMarker)
                        } else {
                            None
                        },
                        ..attached_as(Containment::Delegated, Attached::Delegated, graceful)
                    },
                )
            } else if platform == Platform::MacOs && prepared.marker is Some {
                Attaching::ResolveMarked {
                    pid,
                    group: if mode == ContainMode::TreeWalk {
                        None
                    } else {
                        Some(pid as i32)
                    },
                    marker: prepared.marker->0,
                    graceful,
                }
            } else if mode == ContainMode::TreeWalk {
                Attaching::ResolveRoot { pid, graceful }
            } else if platform == Platform::Windows {
                Attaching::AttachJob { pid, graceful }
            } else if mode == ContainMode::Session {
                Attaching::Done(
                    attached_as(Containment::Session, Attached::ProcessGroup(pid as i32), graceful),
                )
            } else if platform == Platform::Linux && prepared.cgroup_leaf is Some {
                Attaching::TakePlacement {
                    pid,
                    pgid: pid as i32,
                    leaf: prepared.cgroup_leaf->0,
                    graceful,
                }
            } else {
                Attaching::Done(
                    attached_as(
                        Containment::ProcessGroup,
                        Attached::ProcessGroup(pid as i32),
                        graceful,
                    ),
                )
            },
        }
    }

    /// Phase 2, after the spawn: attach the mechanism to the child `pid`. A pid that a process group
    /// id cannot hold is left out: no Unix hands one out.
    pub fn attach(platform: Platform, pid: u32, prepared: Prepared<L, M>) -> (a: Self)
        requires
            attaches_by_group(platform, prepared) ==> pid <= i32::MAX,
        ensures
            a == Self::spec_start(platform, pid, prepared),
    {
        let graceful = prepared.graceful;
        let mode = match prepared.mode {
            None => {
                return Attaching::Done(
                    Self::finished(Containment::Uncontained, Attached::Uncontained, graceful),
                );
            },
            Some(mode) => mode,
        };
        if platform == Platform::Unsupported {
            return Attaching::Done(
                Self::finished(Containment::Uncontained, Attached::Uncontained, graceful),
            );
        }
        if !prepared.is_root {
            let mut outcome = Self::finished(Containment::Delegated, Attached::Delegated, graceful);
            if platform == Platform::MacOs && prepared.marker.is_some() {
                outcome.note = Some(AttachNote::NestedMarker);
            }
            return Attaching::Done(outcome);
        }
        if platform == Platform::MacOs {
            if let Some(marker) = prepared.marker {
                let group = if mode == ContainMode::TreeWalk {
                    None
                } else {
                    Some(pid as i32)
                };
                return Attaching::ResolveMarked { pid, group, marker, graceful };
            }
        }
        if mode == ContainMode::TreeWalk {
            return Attaching::ResolveRoot { pid, graceful };
        }
        if platform == Platform::Windows {
            return Attaching::AttachJob { pid, graceful };
        }
        if mode == ContainMode::Session {
            return Attaching::Done(
                Self::finished(Containment::Session, Attached::ProcessGroup(pid as i32), graceful),
            );
        }
        if platform == Platform::Linux {
            if let Some(leaf) = prepared.cgroup_leaf {
                return Attaching::TakePlacement { pid, pgid: pid as i32, leaf, graceful };
            }
        }
        Attaching::Done(
            Self::finished(Containment::ProcessGroup, Attached::ProcessGroup(pid as i32), graceful),
        )
    }

    /// How an attach goes on once the host has answered. An answer to something that was not asked
    /// changes nothing.
    pub open spec fn spec_on(self, answer: AttachAnswer<J>) -> Self {
        match (self, answer) {
            (Attaching::ResolveRoot { pid, graceful }, AttachAnswer::Identity(resolved)) =>
                Attaching::Done(walked(pid, resolved, graceful)),
            (
                Attaching::ResolveMarked { group, marker, graceful, .. },
                AttachAnswer::Identity(resolved),
            ) => Attaching::Done(
                AttachOutcome {
                    note: match resolved {
                        Resolved::Found(_) => None,
                        Resolved::Gone => Some(AttachNote::RootExited),
                        Resolved::Unknown => Some(AttachNote::RootDenied),
                    },
                    ..attached_as(
                        Containment::FdMarker,
                        Attached::FdMarker(
                            Marker {
                                prepared: marker,
                                root: match resolved {
                                    Resolved::Found(id) => Some(id),
                                    _ => None,
                                },
                                pgid: group,
                                root_denied: resolved == Resolved::Unknown,
                            },
                        ),
                        graceful,
                    )
                },
            ),
            (
                Attaching::TakePlacement { pgid, leaf, graceful, .. },
                AttachAnswer::Placement(verdict),
            ) => match verdict {
                Ok(Ok(())) => Attaching::Done(
                    attached_as(Containment::CgroupV2, Attached::Cgroup(leaf), graceful),
                ),
                Ok(Err(reason)) => Attaching::Done(
                    AttachOutcome {
                        degraded: Some(reason),
                        released: Some(leaf),
                        ..attached_as(
                            Containment::ProcessGroup,
                            Attached::ProcessGroup(pgid),
                            graceful,
                        )
                    },
                ),
                Err(error) => Attaching::Done(
                    AttachOutcome {
                        result: Err(AttachFailure::Placement(error)),
                        note: None,
                        degraded: None,
                        released: Some(leaf),
                    },
                ),
            },
            (Attaching::AttachJob { pid, graceful }, AttachAnswer::Job(job)) => match job {
                Ok(Some(job)) => Attaching::Done(
                    attached_as(Containment::JobObject, Attached::JobObject(job), graceful),
                ),
                // The tree walk is the universal fallback: a root that no job could be assigned to
                // is not left uncontained.
                Ok(None) => Attaching::ResolveRoot { pid, graceful },
                Err(error) => Attaching::Done(
                    AttachOutcome {
                        result: Err(AttachFailure::Job(error)),
                        note: None,
                        degraded: None,
                        released: None,
                    },
                ),
            },
            _ => self,
        }
    }

    /// Go on with what the host answered.
    pub fn on(self, answer: AttachAnswer<J>) -> (a: Self)
        ensures
            a == self.spec_on(answer),
    {
        match (self, answer) {
            (Attaching::ResolveRoot { pid, graceful }, AttachAnswer::Identity(resolved)) =>
                match resolve_root_id(pid, resolved) {
                    Ok(id) => Attaching::Done(
                        Self::finished(Containment::TreeWalk, Attached::TreeWalk(id), graceful),
                    ),
                    Err(failure) => Attaching::Done(Self::failed(failure, None)),
                },
            (
                Attaching::ResolveMarked { group, marker, graceful, .. },
                AttachAnswer::Identity(resolved),
            ) => {
                let (root, root_denied, note) = match resolved {
                    Resolved::Found(id) => (Some(id), false, None),
                    Resolved::Gone => (None, false, Some(AttachNote::RootExited)),
                    Resolved::Unknown => (None, true, Some(AttachNote::RootDenied)),
                };
                let marker = Marker { prepared: marker, root, pgid: group, root_denied };
                let mut outcome = Self::finished(
                    Containment::FdMarker,
                    Attached::FdMarker(marker),
                    graceful,
                );
                outcome.note = note;
                Attaching::Done(outcome)
            },
            (
                Attaching::TakePlacement { pgid, leaf, graceful, .. },
                AttachAnswer::Placement(verdict),
            ) => match verdict {
                Ok(Ok(())) => Attaching::Done(
                    Self::finished(Containment::CgroupV2, Attached::Cgroup(leaf), graceful),
                ),
                Ok(Err(reason)) => {
                    let mut outcome = Self::finished(
                        Containment::ProcessGroup,
                        Attached::ProcessGroup(pgid),
                        graceful,
                    );
                    outcome.degraded = Some(reason);
                    outcome.released = Some(leaf);
                    Attaching::Done(outcome)
                },
                Err(error) => Attaching::Done(
                    Self::failed(AttachFailure::Placement(error), Some(leaf)),
                ),
            },
            (Attaching::AttachJob { pid, graceful }, AttachAnswer::Job(job)) => match job {
                Ok(Some(job)) => Attaching::Done(
                    Self::finished(Containment::JobObject, Attached::JobObject(job), graceful),
                ),
                Ok(None) => Attaching::ResolveRoot { pid, graceful },
                Err(error) => Attaching::Done(Self::failed(AttachFailure::Job(error), None)),
            },
            (state, _) => state,
        }
    }

    fn finished(
        containment: Containment,
        attached: Attached<L, J, M>,
        graceful: GracefulMechanism,
    ) -> (o: AttachOutcome<L, J, M>)
        ensures
            o == attached_as(containment, attached, graceful),
    {
        AttachOutcome {
            result: Ok(Attachment { containment, attached, graceful }),
            note: None,
            degraded: None,
            released: None,
        }
    }

    fn failed(failure: AttachFailure, released: Option<L>) -> (o: AttachOutcome<L, J, M>)
        ensures
            o == (AttachOutcome::<L, J, M> {
                result: Err(failure),
                note: None,
                degraded: None,
                released,
            }),
    {
        AttachOutcome { result: Err(failure), note: None, degraded: None, released }
    }
}

/// Where an attach stands after the host's answers, in turn.
pub open spec fn attach_run<L, J, M>(
    start: Attaching<L, J, M>,
    answers: Seq<AttachAnswer<J>>,
) -> Attaching<L, J, M>
    decreases answers.len(),
{
    if answers.len() == 0 {
        start
    } else {
        attach_run(start, answers.drop_last()).spec_on(answers.last())
    }
}

/// The attachment that an attach ended in, where it ended in one.
pub open spec fn attachment_of<L, J, M>(a: Attaching<L, J, M>) -> Option<Attachment<L, J, M>> {
    match a {
        Attaching::Done(outcome) => match outcome.result {
            Ok(attachment) => Some(attachment),
            Err(_) => None,
        },
        _ => None,
    }
}

/// Whatever the host answers, the mechanism that an attach reports drives teardown exactly where the
/// handle owns one; and a contained root, on a host that has mechanisms, is never left without one.
pub proof fn law_the_reported_mechanism_is_the_owned_one<L, J, M>(
    platform: Platform,
    pid: u32,
    prepared: Prepared<L, M>,
    answers: Seq<AttachAnswer<J>>,
)
    ensures
        attachment_of(
            attach_run(Attaching::<L, J, M>::spec_start(platform, pid, prepared), answers),
        ) matches Some(a) ==> {
            &&& a.consistent()
            &&& a.graceful == prepared.graceful
            &&& a.attached.actionable() <==> prepared.mode is Some && prepared.is_root && platform
                != Platform::Unsupported
        },
{
    lemma_attach_invariant::<L, J, M>(platform, pid, prepared, answers);
}

/// What every state of an attach keeps.
spec fn attach_invariant<L, J, M>(
    platform: Platform,
    prepared: Prepared<L, M>,
    a: Attaching<L, J, M>,
) -> bool {
    let owns = prepared.mode is Some && prepared.is_root && platform != Platform::Unsupported;
    match a {
        Attaching::Done(outcome) => match outcome.result {
            Ok(attachment) => attachment.consistent() && attachment.graceful == prepared.graceful
                && attachment.attached.actionable() == owns,
            Err(_) => true,
        },
        Attaching::ResolveRoot { graceful, .. } => owns && graceful == prepared.graceful,
        Attaching::ResolveMarked { graceful, .. } => owns && graceful == prepared.graceful,
        Attaching::TakePlacement { graceful, .. } => owns && graceful == prepared.graceful,
        Attaching::AttachJob { graceful, .. } => owns && graceful == prepared.graceful,
    }
}

proof fn lemma_attach_invariant<L, J, M>(
    platform: Platform,
    pid: u32,
    prepared: Prepared<L, M>,
    answers: Seq<AttachAnswer<J>>,
)
    ensures
        attach_invariant(
            platform,
            prepared,
            attach_run(Attaching::<L, J, M>::spec_start(platform, pid, prepared), answers),
        ),
    decreases answers.len(),
{
    if answers.len() > 0 {
        lemma_attach_invariant::<L, J, M>(platform, pid, prepared, answers.drop_last());
    }
}

/// A nested contained spawn is delegated at once, whatever its mode and host: it asks nothing of the
/// host and owns no teardown. An uncontained one asks nothing and owns nothing either.
pub proof fn law_nested_is_delegated<L, J, M>(
    platform: Platform,
    pid: u32,
    prepared: Prepared<L, M>,
)
    requires
        platform != Platform::Unsupported,
        !prepared.is_root,
    ensures
        attachment_of(Attaching::<L, J, M>::spec_start(platform, pid, prepared)) matches Some(a)
            && (if prepared.mode is Some {
            a.containment == Containment::Delegated && a.attached is Delegated
        } else {
            a.containment == Containment::Uncontained && a.attached is Uncontained
        }),
{
}

/// The leaf that a placement was asked of is either what the child is attached by or handed back to
/// be removed, never both and never neither.
pub proof fn law_the_leaf_is_attached_or_released<L, J, M>(
    before: Attaching<L, J, M>,
    answer: AttachAnswer<J>,
)
    requires
        before is TakePlacement,
        answer is Placement,
    ensures
        before.spec_on(answer) matches Attaching::Done(outcome) && {
            let leaf = before->TakePlacement_leaf;
            let attached = outcome.result matches Ok(a) && a.attached == Attached::<L, J, M>::Cgroup(
                leaf,
            );
            attached <==> outcome.released != Some(leaf)
        },
{
}

/// How many answers an attach can still take.
pub open spec fn attach_rank<L, J, M>(a: Attaching<L, J, M>) -> nat {
    match a {
        Attaching::Done(_) => 0,
        Attaching::AttachJob { .. } => 2,
        _ => 1,
    }
}

/// Whether `answer` answers what `a` asks.
pub open spec fn answers<L, J, M>(a: Attaching<L, J, M>, answer: AttachAnswer<J>) -> bool {
    match a {
        Attaching::ResolveRoot { .. } | Attaching::ResolveMarked { .. } => answer is Identity,
        Attaching::TakePlacement { .. } => answer is Placement,
        Attaching::AttachJob { .. } => answer is Job,
        Attaching::Done(_) => false,
    }
}

/// Every answer brings an attach nearer its end: two at most finish it.
pub proof fn law_attach_ends<L, J, M>(a: Attaching<L, J, M>, answer: AttachAnswer<J>)
    requires
        answers(a, answer),
    ensures
        attach_rank(a.spec_on(answer)) < attach_rank(a),
{
}

/// Whether a spawn prepared like this makes a contained root on a host that has mechanisms.
pub open spec fn roots<L, M>(platform: Platform, prepared: Prepared<L, M>) -> bool {
    prepared.mode is Some && prepared.is_root && platform != Platform::Unsupported
}

/// What an attach begins with is fixed by the host, the mode and what was made for the child, and it
/// acts on that child. On Windows every contained root but a tree-walk one asks for a job. On macOS a
/// marker that was installed comes before everything else. On Linux only the strongest mode goes through
/// a leaf, and only where one was made. A tree walk is what is asked for directly, and nothing else
/// begins with one.
pub proof fn law_the_first_mechanism_is_fixed_by_host_and_mode<L, J, M>(
    platform: Platform,
    pid: u32,
    prepared: Prepared<L, M>,
)
    requires
        attaches_by_group(platform, prepared) ==> pid <= i32::MAX,
    ensures
        ({
            let start = Attaching::<L, J, M>::spec_start(platform, pid, prepared);
            let root = roots(platform, prepared);
            let walks = prepared.mode == Some(ContainMode::TreeWalk);
            let marked = platform == Platform::MacOs && prepared.marker is Some;
            &&& start is AttachJob <==> root && platform == Platform::Windows && !walks
            &&& start is ResolveMarked <==> root && marked
            &&& start is ResolveRoot <==> root && walks && !marked
            &&& start is TakePlacement <==> root && platform == Platform::Linux && prepared.mode == Some(
                ContainMode::Strongest,
            ) && prepared.cgroup_leaf is Some
            &&& start matches Attaching::AttachJob { pid: p, graceful } ==> p == pid && graceful
                == prepared.graceful
            &&& start matches Attaching::ResolveRoot { pid: p, graceful } ==> p == pid && graceful
                == prepared.graceful
            &&& start matches Attaching::ResolveMarked { pid: p, group, marker, graceful } ==> {
                &&& p == pid
                &&& graceful == prepared.graceful
                &&& prepared.marker == Some(marker)
                &&& walks ==> group is None
                &&& !walks ==> (group matches Some(g) && g == pid)
            }
            &&& start matches Attaching::TakePlacement { pid: p, pgid, leaf, graceful } ==> {
                &&& p == pid
                &&& pgid == pid
                &&& graceful == prepared.graceful
                &&& prepared.cgroup_leaf == Some(leaf)
            }
            // A nested spawn's own marker is worth a note, and nothing else is.
            &&& start matches Attaching::Done(outcome) ==> outcome.degraded is None
                && outcome.released is None && (outcome.note is Some <==> prepared.mode is Some
                && !prepared.is_root && marked) && (outcome.note is Some ==> outcome.note == Some(
                AttachNote::NestedMarker,
            ))
            // A spawn that asks nothing of the host is one of these.
            &&& start matches Attaching::Done(outcome) ==> (outcome.result matches Ok(a) && match a.containment {
                Containment::Uncontained => a.attached is Uncontained && (prepared.mode is None
                    || platform == Platform::Unsupported),
                Containment::Delegated => a.attached is Delegated && prepared.mode is Some
                    && !prepared.is_root,
                Containment::Session => (a.attached matches Attached::ProcessGroup(g) && g == pid)
                    && root && prepared.mode == Some(ContainMode::Session),
                Containment::ProcessGroup => (a.attached matches Attached::ProcessGroup(g) && g
                    == pid) && root && prepared.mode == Some(ContainMode::Strongest),
                _ => false,
            })
        }),
{
}

/// Whether each of `given`, in turn, answers what the attach asks then.
pub open spec fn attach_asked<L, J, M>(
    start: Attaching<L, J, M>,
    given: Seq<AttachAnswer<J>>,
) -> bool
    decreases given.len(),
{
    given.len() == 0 || attach_asked(start, given.drop_last()) && answers(
        attach_run(start, given.drop_last()),
        given.last(),
    )
}

/// What a child is attached by is what the host answered, and nothing that it did not. A job is the
/// very one that was assigned, and a leaf the one that was made, once the child was found in it. A
/// child found outside its leaf keeps the process group that it leads, with the reason, and the leaf is
/// handed back; so it is where that could not be decided, and then the spawn fails. A tree walk starts
/// at the process that was found, and on Windows, unless it was asked for, follows only a host that
/// assigned no job. A marker is kept whether or not its root was found, and records a refusal. Every
/// failure is the one that was met.
pub proof fn law_an_attach_ends_as_the_host_answered<L, J, M>(
    platform: Platform,
    pid: u32,
    prepared: Prepared<L, M>,
    given: Seq<AttachAnswer<J>>,
)
    requires
        attaches_by_group(platform, prepared) ==> pid <= i32::MAX,
        attach_asked(Attaching::<L, J, M>::spec_start(platform, pid, prepared), given),
    ensures
        ({
            let n = given.len();
            let last = given[n - 1];
            let walks = prepared.mode == Some(ContainMode::TreeWalk);
            // The host was asked for a job and assigned none.
            let jobless = n > 0 && given[0] == AttachAnswer::<J>::Job(Ok(None));
            match attach_run(Attaching::<L, J, M>::spec_start(platform, pid, prepared), given) {
                Attaching::AttachJob { .. } => n == 0 && platform == Platform::Windows && !walks,
                Attaching::ResolveMarked { .. } => n == 0 && platform == Platform::MacOs,
                Attaching::TakePlacement { .. } => n == 0 && platform == Platform::Linux,
                Attaching::ResolveRoot { pid: p, graceful } => {
                    &&& p == pid && graceful == prepared.graceful
                    &&& if walks {
                        n == 0
                    } else {
                        n == 1 && jobless && platform == Platform::Windows
                    }
                },
                Attaching::Done(outcome) => {
                    &&& outcome.degraded is Some <==> n == 1 && (last
                        matches AttachAnswer::Placement(Ok(Err(_))))
                    &&& outcome.degraded matches Some(reason) ==> last == AttachAnswer::<J>::Placement(
                        Ok(Err(reason)),
                    ) && outcome.released is Some
                    &&& outcome.released is Some <==> n == 1 && (last
                        matches AttachAnswer::Placement(answer) && !(answer matches Ok(Ok(_))))
                    &&& outcome.released matches Some(leaf) ==> prepared.cgroup_leaf == Some(leaf)
                    &&& match outcome.result {
                        Ok(a) => {
                            &&& a.graceful == prepared.graceful
                            &&& match a.attached {
                                Attached::Uncontained => n == 0 && a.containment
                                    == Containment::Uncontained && !roots(platform, prepared),
                                Attached::Delegated => n == 0 && a.containment
                                    == Containment::Delegated && prepared.mode is Some
                                    && !prepared.is_root,
                                Attached::JobObject(job) => n == 1 && last == AttachAnswer::<J>::Job(
                                    Ok(Some(job)),
                                ) && a.containment == Containment::JobObject,
                                Attached::Cgroup(leaf) => n == 1 && (last
                                    matches AttachAnswer::Placement(Ok(Ok(_)))) && a.containment
                                    == Containment::CgroupV2 && prepared.cgroup_leaf == Some(leaf),
                                Attached::ProcessGroup(group) => {
                                    &&& group == pid && !walks
                                    &&& n == 0 || outcome.degraded is Some
                                    &&& a.containment == if prepared.mode == Some(
                                        ContainMode::Session,
                                    ) {
                                        Containment::Session
                                    } else {
                                        Containment::ProcessGroup
                                    }
                                },
                                Attached::FdMarker(marker) => {
                                    &&& n == 1 && a.containment == Containment::FdMarker
                                    &&& prepared.marker == Some(marker.prepared)
                                    &&& last matches AttachAnswer::Identity(resolved) && {
                                        &&& marker.root matches Some(id) ==> resolved
                                            == Resolved::Found(id)
                                        &&& marker.root is None <==> !(resolved is Found)
                                        &&& marker.root_denied <==> resolved is Unknown
                                        &&& outcome.note == Some(AttachNote::RootDenied)
                                            <==> resolved is Unknown
                                        &&& outcome.note == Some(AttachNote::RootExited)
                                            <==> resolved is Gone
                                    }
                                    &&& marker.pgid is None <==> walks
                                    &&& marker.pgid matches Some(group) ==> group == pid
                                },
                                Attached::TreeWalk(root) => {
                                    &&& n > 0 && a.containment == Containment::TreeWalk
                                    &&& last == AttachAnswer::<J>::Identity(Resolved::Found(root))
                                    &&& if walks {
                                        n == 1
                                    } else {
                                        n == 2 && jobless && platform == Platform::Windows
                                    }
                                },
                            }
                        },
                        Err(failure) => n > 0 && outcome.note is None && match failure {
                            AttachFailure::RootVanished => last == AttachAnswer::<J>::Identity(
                                Resolved::Gone,
                            ) && (walks || jobless),
                            AttachFailure::RootUnreadable(p) => p == pid && last
                                == AttachAnswer::<J>::Identity(Resolved::Unknown) && (walks
                                || jobless),
                            AttachFailure::Placement(error) => n == 1 && last
                                == AttachAnswer::<J>::Placement(Err(error)),
                            AttachFailure::Job(error) => n == 1 && last == AttachAnswer::<J>::Job(
                                Err(error),
                            ),
                        },
                    }
                },
            }
        }),
    decreases given.len(),
{
    law_the_first_mechanism_is_fixed_by_host_and_mode::<L, J, M>(platform, pid, prepared);
    if given.len() > 0 {
        let before = given.drop_last();
        law_an_attach_ends_as_the_host_answered::<L, J, M>(platform, pid, prepared, before);
        if before.len() > 0 {
            assert(before[0] == given[0]);
        }
    }
}

/// An answer to something that the attach did not ask leaves it where it stands; so a finished attach
/// stays as it ended.
pub proof fn law_an_attach_takes_only_answers<L, J, M>(
    a: Attaching<L, J, M>,
    answer: AttachAnswer<J>,
)
    requires
        !answers(a, answer),
    ensures
        a.spec_on(answer) == a,
{
}

/// A handle that owns a mechanism never tears down by nothing, and what it tears down by is the very
/// resource that it owns: two handles that tear down by the same are the same. A handle that owns
/// none has nothing to tear down.
pub proof fn law_a_handle_tears_down_what_it_owns<L, J, M>(
    handle: Attached<L, J, M>,
    other: Attached<L, J, M>,
)
    ensures
        handle.spec_teardown() is Nothing <==> handle is Uncontained || handle is Delegated,
        handle.actionable() <==> !(handle.spec_teardown() is Nothing),
        handle matches Attached::JobObject(job) ==> (handle.spec_teardown() matches Teardown::Job(j)
            && *j == job),
        handle matches Attached::Cgroup(leaf) ==> (handle.spec_teardown() matches Teardown::Leaf(l)
            && *l == leaf),
        handle matches Attached::FdMarker(marker) ==> (handle.spec_teardown()
            matches Teardown::Marker(m) && *m == marker),
        handle matches Attached::ProcessGroup(pgid) ==> (handle.spec_teardown()
            matches Teardown::Group(p) && p == pgid),
        handle matches Attached::TreeWalk(root) ==> (handle.spec_teardown() matches Teardown::Walk(r)
            && r == root),
        handle.actionable() && handle.spec_teardown() == other.spec_teardown() ==> handle == other,
{
}

/// A Windows spawn is created suspended exactly where its attach will ask for a job, which is where it
/// is a contained root whose mode is not the tree walk: what suspends it is what resumes it. A nested
/// spawn is never suspended. Every contained spawn leads a process group, and containment asks for no
/// other bit; an uncontained spawn gets none at all.
pub proof fn law_suspended_exactly_where_a_job_is_asked_for<L, J, M>(
    req: ContainRequest,
    pid: u32,
    prepared: Prepared<L, M>,
)
    requires
        prepared.mode == req.mode,
    ensures
        ({
            let word = contain_flags(req, prepared.is_root);
            let start = Attaching::<L, J, M>::spec_start(Platform::Windows, pid, prepared);
            &&& word & 0x4 == 0x4 <==> start is AttachJob
            &&& word & 0x4 == 0x4 <==> req.mode is Some && prepared.is_root && req.mode != Some(
                ContainMode::TreeWalk,
            )
            &&& word & 0x4 == 0 <==> !(word & 0x4 == 0x4)
            &&& !prepared.is_root ==> word & 0x4 == 0
            &&& word & 0x200 == 0x200 <==> req.mode is Some
            &&& word | 0x204 == 0x204
            &&& req.mode is None ==> word == 0
        }),
{
    let word = contain_flags(req, prepared.is_root);
    assert(windows::CREATE_SUSPENDED | windows::CREATE_NEW_PROCESS_GROUP == 0x204u32)
        by (bit_vector);
    assert((word & 0x4 == 0x4 <==> word == 0x204) && (word & 0x4 == 0 <==> word != 0x204) && (word
        & 0x200 == 0x200 <==> word != 0) && word | 0x204 == 0x204) by (bit_vector)
        requires
            word == 0 || word == 0x204 || word == 0x200,
    ;
}

/// The grouping that a root is given before its spawn is the one that its attach then counts on: only
/// what is put in a session is attached as one, only what is put in a group of either kind is attached
/// by its group's id, and a tree-walk root is put in none. Nowhere but on a Unix is anything attached
/// so.
pub proof fn law_the_grouping_is_the_one_attached<L, J, M>(
    platform: Platform,
    pid: u32,
    prepared: Prepared<L, M>,
)
    requires
        roots(platform, prepared),
        !(platform == Platform::MacOs && prepared.marker is Some),
    ensures
        ({
            let start = Attaching::<L, J, M>::spec_start(platform, pid, prepared);
            let setup = spec_unix_setup_for(prepared.mode);
            let groups = attachment_of(start) is Some || start is TakePlacement;
            &&& attachment_of(start) matches Some(a) ==> a.attached is ProcessGroup
            &&& groups <==> platform.spec_is_unix() && setup != UnixSetup::NoGrouping
            &&& platform.spec_is_unix() ==> {
                &&& setup == UnixSetup::Session <==> (attachment_of(start) matches Some(a)
                    && a.containment == Containment::Session)
                &&& setup == UnixSetup::NoGrouping <==> start is ResolveRoot
                &&& setup == UnixSetup::ProcessGroup <==> start is TakePlacement || (attachment_of(
                    start,
                ) matches Some(a) && a.containment == Containment::ProcessGroup)
            }
        }),
{
}

/// What is said of a root that the host refused to identify holds its pid: two such texts that are the
/// same are of the same root.
pub proof fn law_an_unreadable_root_is_named(pid: u32, other: u32)
    ensures
        text::mentions(root_unreadable_text(pid), text::decimal(pid as nat)),
        root_unreadable_text(pid) == root_unreadable_text(other) ==> pid == other,
{
    let head = "tree-walk root pid "@;
    let tail = " identity could not be read"@;
    let a = text::decimal(pid as nat);
    let b = text::decimal(other as nat);
    text::lemma_mentions(root_unreadable_text(pid), head, a, tail);
    text::lemma_decimal(pid as nat);
    text::lemma_decimal(other as nat);
    if root_unreadable_text(pid) == root_unreadable_text(other) {
        assert(a.len() == b.len()) by {
            assert(root_unreadable_text(pid).len() == head.len() + a.len() + tail.len());
            assert(root_unreadable_text(other).len() == head.len() + b.len() + tail.len());
        }
        assert forall|i: int| 0 <= i < a.len() implies a[i] == b[i] by {
            assert(root_unreadable_text(pid)[head.len() + i] == a[i]);
            assert(root_unreadable_text(other)[head.len() + i] == b[i]);
        }
        assert(a =~= b);
    }
}

} // verus!
