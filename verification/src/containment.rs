//! Process-tree containment. Spawn a child as a kill-group root and tear the whole tree down as a
//! unit. Mechanisms, strongest first, all best-effort in their own way (the variant names the
//! teardown method, not a quality grade):
//!
//! - [`Containment::CgroupV2`] (Linux): leaf cgroup + `cgroup.kill`, fork-proof.
//! - [`Containment::JobObject`] (Windows): Job + `KILL_ON_JOB_CLOSE`.
//! - [`Containment::ProcessGroup`]/[`Containment::Session`] (Unix): `killpg`.
//! - [`Containment::FdMarker`] (macOS): inherited-fd marker sweep, survives setsid/reparenting.
//! - [`Containment::TreeWalk`] (all): identity-aware descendant kill at teardown.
//! - [`Containment::Delegated`]: a nested member, the outermost root tears it down.
//! - [`Containment::Uncontained`]: not contained, lone-process semantics.
//!
//! This is not a security sandbox: a determined child escapes every mechanism. It reliably tears
//! down cooperative trees and reports the achieved guarantee.

pub mod cgroup;
pub mod dispatch;
pub mod windows;

use vstd::prelude::*;

verus! {

/// The teardown mechanism actually achieved for a spawned child.
#[derive(Debug, Clone, Copy, PartialEq, Eq, Structural)]
#[non_exhaustive]
pub enum Containment {
    /// Linux cgroup v2 leaf + `cgroup.kill`. Fork-proof; a confined child can't leave.
    CgroupV2,
    /// Windows Job Object + `KILL_ON_JOB_CLOSE`. Kernel-enforced for direct descendants.
    JobObject,
    /// Unix process group + `killpg`. A `setsid` child escapes.
    ProcessGroup,
    /// Unix session (`setsid`) + `killpg`. A nested-`setsid` child escapes.
    Session,
    /// macOS inherited-fd marker: membership survives `setsid`, `setpgid`, reparenting and `exec`.
    FdMarker,
    /// Identity-aware descendant enumeration at teardown. Misses reparented orphans.
    TreeWalk,
    /// A nested member of an ancestor's containment: it drives no teardown itself, and its tree
    /// operations are unsupported. The root tears the tree down.
    Delegated,
    /// No containment: kill and drop act on the lone process.
    Uncontained,
}

impl Containment {
    /// Whether a handle with this mechanism can drive tree teardown.
    pub open spec fn drives_teardown(self) -> bool {
        self != Containment::Delegated && self != Containment::Uncontained
    }

    /// Whether this handle can drive tree teardown (`kill_tree`/`terminate_tree` act rather than
    /// being unsupported).
    pub fn can_teardown(&self) -> (r: bool)
        ensures
            r == self.drives_teardown(),
    {
        match self {
            Containment::CgroupV2
            | Containment::JobObject
            | Containment::ProcessGroup
            | Containment::Session
            | Containment::FdMarker
            | Containment::TreeWalk => true,
            Containment::Uncontained | Containment::Delegated => false,
        }
    }

    /// The mechanism in words.
    pub open spec fn text(self) -> Seq<char> {
        match self {
            Containment::CgroupV2 => "cgroup v2"@,
            Containment::JobObject => "job object"@,
            Containment::ProcessGroup => "process group"@,
            Containment::Session => "session"@,
            Containment::FdMarker => "inherited-fd marker"@,
            Containment::TreeWalk => "process-tree walk"@,
            Containment::Delegated => "delegated"@,
            Containment::Uncontained => "none"@,
        }
    }

    /// The mechanism in words.
    pub fn to_string(&self) -> (s: String)
        ensures
            s@ == self.text(),
    {
        match self {
            Containment::CgroupV2 => "cgroup v2".to_owned(),
            Containment::JobObject => "job object".to_owned(),
            Containment::ProcessGroup => "process group".to_owned(),
            Containment::Session => "session".to_owned(),
            Containment::FdMarker => "inherited-fd marker".to_owned(),
            Containment::TreeWalk => "process-tree walk".to_owned(),
            Containment::Delegated => "delegated".to_owned(),
            Containment::Uncontained => "none".to_owned(),
        }
    }
}

/// The teardown strategy a caller requests.
#[derive(Debug, Clone, Copy, PartialEq, Eq, Structural)]
#[non_exhaustive]
pub enum ContainMode {
    /// The strongest kernel container available on this host, falling back (cgroup, job, process
    /// group) to [`ContainMode::TreeWalk`] rather than to no containment.
    Strongest,
    /// Identity-aware process-tree walk at teardown, selectable directly (for a child known to
    /// `setsid` out of a process group).
    TreeWalk,
    /// Unix session containment via `setsid`: the child becomes a session leader and process-group
    /// leader, detached from any controlling terminal.
    ///
    /// `setsid` makes the child a session and process-group leader at once, and `setpgid` on a
    /// session leader fails with `EPERM`. So this applies `setsid` instead of a process group, never
    /// both. On non-Unix platforms this request is treated as `Strongest`.
    Session,
}

/// Whether a kill-group root marks its descendants as already contained.
#[derive(Debug, Clone, Copy, PartialEq, Eq, Structural, Default)]
pub enum Nesting {
    /// Mark descendants (default): nested contained spawns join this group.
    #[default]
    Mark,
    /// Leave descendants unmarked: a contained child's own contained spawns create their own groups
    /// (which nest inside this one on Windows).
    Opaque,
}

/// The resolved containment request carried on a command.
#[derive(Debug, Clone, Copy, PartialEq, Eq, Structural)]
pub struct ContainRequest {
    /// `None` = not contained.
    pub mode: Option<ContainMode>,
    pub nesting: Nesting,
}

impl Default for ContainRequest {
    fn default() -> (r: ContainRequest)
        ensures
            r.mode is None,
            r.nesting == Nesting::Mark,
    {
        ContainRequest { mode: None, nesting: Nesting::Mark }
    }
}

/// How a wait for a contained tree to drain ended.
#[derive(Debug, Clone, Copy, PartialEq, Eq, Structural)]
pub enum TreeDrain {
    /// Every member has exited.
    AllMembersExited,
    /// Every holder of the inherited marker has closed it.
    AllMarkersClosed,
    /// The deadline passed first.
    MembersRemain,
}

/// The reserved, inherited environment marker for kill-group root detection. Windows jobs nest but
/// Unix process groups do not, so only the outermost contained spawn creates a group; descendants
/// inherit this marker and join it. Reserved and load-bearing: nothing outside this crate may set
/// it.
pub const NESTED_ENV: &'static str = "__COSCA_GROUP_ROOT";

/// No two mechanisms go by the same words.
pub proof fn law_each_mechanism_has_its_own_words(a: Containment, b: Containment)
    ensures
        a.text() == b.text() ==> a == b,
{
    reveal_strlit("cgroup v2");
    reveal_strlit("job object");
    reveal_strlit("process group");
    reveal_strlit("session");
    reveal_strlit("inherited-fd marker");
    reveal_strlit("process-tree walk");
    reveal_strlit("delegated");
    reveal_strlit("none");
    assert("cgroup v2"@[0] == 'c');
    assert("job object"@[0] == 'j');
    assert("process group"@.len() == 13);
    assert("process-tree walk"@.len() == 17);
    assert("session"@[0] == 's');
    assert("inherited-fd marker"@[0] == 'i');
    assert("process group"@[0] == 'p');
    assert("process-tree walk"@[0] == 'p');
    assert("delegated"@[0] == 'd');
    assert("none"@[0] == 'n');
}

/// Only two mechanisms leave a handle with nothing to tear down: a nested member's and none at all.
pub proof fn law_all_but_two_drive_teardown(c: Containment)
    ensures
        !c.drives_teardown() <==> c is Delegated || c is Uncontained,
{
}

} // verus!
