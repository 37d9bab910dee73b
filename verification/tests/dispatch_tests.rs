//! Root detection, mechanism selection, and the two phases of containment.

use cosca::containment::cgroup::degrade::{NotEntered, NotPlaced};
use cosca::containment::dispatch::{
    is_nested, marker_wanted, prepare, require_contained, resolve_root_id, unix_setup_for, windows_contain_setup,
    AttachAnswer, AttachNote, AttachOutcome, Attached, Attaching, Attachment, Marker, Platform, Prepared, Teardown,
    UnixSetup,
};
use cosca::containment::{ContainMode, ContainRequest, Containment, Nesting};
use cosca::errno::OsError;
use cosca::error::Error;
use cosca::graceful::GracefulMechanism;
use cosca::identity::{ProcessId, Resolved};
use cosca::report::Level;

type Owned = Attached<&'static str, &'static str, &'static str>;

fn me() -> ProcessId {
    ProcessId {
        pid: 4242,
        started: 1,
    }
}

fn request(mode: Option<ContainMode>) -> ContainRequest {
    ContainRequest {
        mode,
        nesting: Nesting::Mark,
    }
}

fn prepared(mode: Option<ContainMode>, is_root: bool) -> Prepared<&'static str, &'static str> {
    Prepared {
        mode,
        is_root,
        cgroup_leaf: None,
        marker: None,
        graceful: GracefulMechanism::Process,
    }
}

fn attach(
    platform: Platform,
    pid: u32,
    prepared: Prepared<&'static str, &'static str>,
) -> Attaching<&'static str, &'static str, &'static str> {
    Attaching::attach(platform, pid, prepared)
}

fn done(
    a: Attaching<&'static str, &'static str, &'static str>,
) -> AttachOutcome<&'static str, &'static str, &'static str> {
    match a {
        Attaching::Done(outcome) => outcome,
        other => panic!("expected the end, got {other:?}"),
    }
}

const PLATFORMS: [Platform; 4] = [Platform::Linux, Platform::MacOs, Platform::OtherUnix, Platform::Windows];

/// Without the marker the process is the root (not nested).
#[test]
fn is_nested_without_marker_is_false() {
    assert!(!is_nested(false));
}

/// With the marker the process is already inside a contained tree (nested).
#[test]
fn is_nested_with_marker_is_true() {
    assert!(is_nested(true));
}

/// `ContainMode::Session` must select `UnixSetup::Session` (setsid), never `ProcessGroup`: calling
/// both setsid and setpgid on the same command would cause EPERM.
#[test]
fn unix_setup_for_session_selects_setsid() {
    assert_eq!(unix_setup_for(Some(ContainMode::Session)), UnixSetup::Session);
}

/// `ContainMode::Strongest` must select `UnixSetup::ProcessGroup`, never Session.
#[test]
fn unix_setup_for_strongest_selects_process_group() {
    assert_eq!(unix_setup_for(Some(ContainMode::Strongest)), UnixSetup::ProcessGroup);
}

/// `ContainMode::TreeWalk` must select no grouping: it exists to catch children that escape a
/// process group, so the root must not be put in one.
#[test]
fn unix_setup_for_treewalk_selects_none() {
    assert_eq!(unix_setup_for(Some(ContainMode::TreeWalk)), UnixSetup::NoGrouping);
}

/// Uncontained must select `UnixSetup::ProcessGroup`: the prepare path gates on the mode before
/// asking, but the default is well-defined.
#[test]
fn unix_setup_for_none_mode_selects_process_group() {
    assert_eq!(unix_setup_for(None), UnixSetup::ProcessGroup);
}

#[test]
fn attached_is_actionable() {
    // No teardown mechanism -> not actionable (the tree guard rejects these).
    assert!(!Owned::Uncontained.is_actionable());
    assert!(!Owned::Delegated.is_actionable());
    // Every real mechanism is actionable.
    assert!(Owned::TreeWalk(me()).is_actionable());
    assert!(Owned::ProcessGroup(0).is_actionable());
    assert!(Owned::Cgroup("leaf").is_actionable());
    assert!(Owned::JobObject("job").is_actionable());
}

/// A macOS `FdMarker` that carries a pgid must be covered too, since it fires `killpg`
/// unconditionally on pass 1 of every sweep.
#[test]
fn attached_carries_recyclable_pgid() {
    assert!(!Owned::Uncontained.carries_recyclable_pgid());
    assert!(!Owned::Delegated.carries_recyclable_pgid());
    assert!(!Owned::TreeWalk(me()).carries_recyclable_pgid());
    assert!(Owned::ProcessGroup(0).carries_recyclable_pgid());
    assert!(!Owned::Cgroup("leaf").carries_recyclable_pgid());
}

fn marker_with_pgid(pgid: Option<i32>) -> Marker<&'static str> {
    Marker {
        prepared: "pipe",
        root: None,
        pgid,
        root_denied: false,
    }
}

/// An `FdMarker` must track its OWN `pgid`, not the mechanism's mere presence.
#[test]
fn attached_fd_marker_carries_recyclable_pgid_tracks_its_own_pgid() {
    assert!(Owned::FdMarker(marker_with_pgid(Some(1234))).carries_recyclable_pgid());
    assert!(!Owned::FdMarker(marker_with_pgid(None)).carries_recyclable_pgid());
}

/// The marker mechanism is actionable.
#[test]
fn attached_fd_marker_is_actionable() {
    assert!(Owned::FdMarker(marker_with_pgid(None)).is_actionable());
}

/// A nested contained spawn must yield BOTH halves of the delegated pair, for a kernel mechanism
/// (Strongest) and TreeWalk.
#[test]
fn nested_attach_is_delegated() {
    for platform in PLATFORMS {
        for mode in [ContainMode::Strongest, ContainMode::TreeWalk] {
            let outcome = done(attach(platform, 7, prepared(Some(mode), false)));
            let attachment = outcome.result.expect("attach nested");
            let (containment, attached) = (attachment.containment, attachment.attached);
            assert_eq!(
                containment,
                Containment::Delegated,
                "nested member ({mode:?}) must report Containment::Delegated, got {containment:?}"
            );
            assert!(
                matches!(attached, Attached::Delegated),
                "nested member ({mode:?}) must be Attached::Delegated, got {attached:?}"
            );
        }
    }
}

/// The install policy, exhaustively: every mode installs a marker for a ROOT spawn, no
/// nested spawn ever does (it inherits the root's), no uncontained spawn does, and an
/// elevation-derived spawn does not (its `sudo` wrapper closes every descriptor >= 3).
#[test]
fn marker_wanted_installs_for_every_contained_root_and_nothing_else() {
    for mode in [ContainMode::Strongest, ContainMode::Session, ContainMode::TreeWalk] {
        assert!(
            marker_wanted(Some(mode), true, false),
            "{mode:?} root installs a marker"
        );
        assert!(
            !marker_wanted(Some(mode), false, false),
            "{mode:?} nested inherits, never installs"
        );
        assert!(
            !marker_wanted(Some(mode), true, true),
            "{mode:?} elevated root must not install"
        );
    }
    assert!(
        !marker_wanted(None, true, false),
        "an uncontained spawn installs no marker"
    );
}

/// The caller's reserved descriptors are threaded through to the marker's installation, all of them, or
/// a mapping of the caller's would replace the marker in the child.
#[test]
fn prepare_hands_the_callers_reserved_fds_to_the_marker() {
    let reserved = [3, 4, 5, 6, 7, 8, 9, 10];
    let strongest = request(Some(ContainMode::Strongest));
    let plan = prepare(Platform::MacOs, &strongest, false, &reserved, false);
    assert_eq!(plan.install_marker, Some(&reserved[..]));
    assert_eq!(prepare(Platform::MacOs, &strongest, true, &reserved, false).install_marker, None);
    for platform in [Platform::Linux, Platform::OtherUnix, Platform::Windows] {
        assert_eq!(prepare(platform, &strongest, false, &reserved, false).install_marker, None);
    }
}

/// A failed install degrades to the pre-existing mechanism rather than failing the spawn.
#[test]
fn a_failed_marker_install_leaves_prepare_without_one() {
    let plan = prepare(Platform::MacOs, &request(Some(ContainMode::Strongest)), false, &[], false);
    assert!(plan.install_marker.is_some());
    let prepared: Prepared<&str, &str> = plan.complete(None, None);
    assert!(prepared.marker.is_none(), "the forced failure must yield no marker");
    let outcome = done(attach(Platform::MacOs, 9, Prepared { cgroup_leaf: None, marker: None, ..prepared }));
    assert!(matches!(outcome.result.expect("attach").attached, Attached::ProcessGroup(9)));
}

/// An elevation-derived spawn must not install a marker: `sudo` closes every descriptor >= 3.
#[test]
fn prepare_installs_no_marker_for_an_elevation_derived_spawn() {
    let plan = prepare(Platform::MacOs, &request(Some(ContainMode::Strongest)), false, &[], true);
    let prepared: Prepared<&str, &str> = plan.complete(None, Some("stray"));
    assert!(
        prepared.marker.is_none(),
        "an elevated spawn must not claim marker containment"
    );
}

#[test]
fn resolve_root_id_distinguishes_a_denied_pid_from_a_vanished_one() {
    let Err(denied) = resolve_root_id(41, Resolved::Unknown) else {
        panic!("a pid we may not query must not resolve to a root identity");
    };
    let Error::Unassessable { detail } = denied.into_error() else {
        panic!("a pid we may not query must not resolve to a root identity");
    };
    assert!(
        detail.contains("identity could not be read"),
        "denial must not read as vanishing: {detail}"
    );
    assert_eq!(detail, "tree-walk root pid 41 identity could not be read");

    // Contrast: a pid no process holds.
    let Err(vanished) = resolve_root_id(0xFFFF_FFF0, Resolved::Gone) else {
        panic!("a nonexistent pid must not resolve");
    };
    let Error::Containment { detail } = vanished.into_error() else {
        panic!("a nonexistent pid must not resolve");
    };
    assert!(detail.contains("vanished"), "absence must not read as denial: {detail}");
    assert_eq!(resolve_root_id(7, Resolved::Found(me())).expect("found"), me());
}

#[test]
fn wait_drained_is_unsupported_without_a_marker() {
    // A mechanism that cannot answer says so, rather than implying a guarantee it has not got.
    for attached in [Owned::Uncontained, Owned::Delegated] {
        let err = attached
            .wait_drained("macos")
            .expect_err("a mechanism with no drain edge must be Unsupported");
        assert!(matches!(err, Error::Unsupported { .. }), "got {err:?}");
    }
    assert!(Owned::FdMarker(marker_with_pgid(None)).wait_drained("macos").is_ok());
}

/// The three shapes `windows_contain_setup` can produce must not all agree: an uncontained
/// spawn leads no group, while both contained shapes do.
#[test]
fn windows_contain_setup_records_the_mechanism_of_the_flags_it_chose() {
    let uncontained = ContainRequest {
        mode: None,
        nesting: Nesting::Mark,
    };
    let contained = ContainRequest {
        mode: Some(ContainMode::Strongest),
        nesting: Nesting::Mark,
    };
    assert_eq!(
        windows_contain_setup(&uncontained, true).graceful,
        GracefulMechanism::NoGroup,
        "an uncontained spawn passes no flags, so it leads no group"
    );
    assert_eq!(
        windows_contain_setup(&contained, true).graceful,
        GracefulMechanism::ConsoleGroup,
        "a Strongest root spawns suspended into its own group"
    );
    assert_eq!(
        windows_contain_setup(&contained, false).graceful,
        GracefulMechanism::ConsoleGroup,
        "a nested spawn leads its own group too"
    );
}

/// The UAC-elevated attachment bypasses `mechanism_from_flags` entirely, so its three fields are
/// pinned here. `Unknown`, not what a flagless spawn yields nor the `OtherConsoleGroup` a suppressed
/// one does.
#[test]
fn uac_elevated_attachment_has_no_in_process_route() {
    let a: Attachment<&str, &str, &str> = Attachment::uac_elevated();
    assert_eq!(a.containment, Containment::Uncontained);
    assert!(matches!(a.attached, Attached::Uncontained), "got {:?}", a.attached);
    assert_eq!(a.graceful, GracefulMechanism::Unknown);
}

/// What a prepared spawn needs, on each host and in each mode.
#[test]
fn the_plan_follows_the_host_and_the_mode() {
    let strongest = request(Some(ContainMode::Strongest));
    let linux = prepare(Platform::Linux, &strongest, false, &[], false);
    assert!(linux.is_root && linux.mark_env && linux.create_leaf && linux.install_marker.is_none());
    assert_eq!(linux.setup, Some(UnixSetup::ProcessGroup));
    let session = prepare(Platform::Linux, &request(Some(ContainMode::Session)), false, &[], false);
    assert_eq!(session.setup, Some(UnixSetup::Session));
    assert!(!session.create_leaf, "a session uses no cgroup");
    let walk = prepare(Platform::Linux, &request(Some(ContainMode::TreeWalk)), false, &[], false);
    assert_eq!(walk.setup, Some(UnixSetup::NoGrouping));
    assert!(!walk.create_leaf);
    let nested = prepare(Platform::Linux, &strongest, true, &[], false);
    assert!(!nested.is_root && !nested.mark_env && !nested.create_leaf);
    assert_eq!(nested.setup, None);
    let opaque = ContainRequest {
        mode: Some(ContainMode::Strongest),
        nesting: Nesting::Opaque,
    };
    assert!(!prepare(Platform::Linux, &opaque, false, &[], false).mark_env);
    for marker_present in [false, true] {
        let none = prepare(Platform::Linux, &request(None), marker_present, &[], false);
        assert!(!none.is_root && !none.mark_env && !none.create_leaf && none.setup.is_none());
    }
    let windows = prepare(Platform::Windows, &strongest, false, &[], false);
    assert_eq!(windows.setup, None);
    assert_eq!(windows.windows.expect("contained").creation_flags, 0x204);
    assert_eq!(windows.graceful, GracefulMechanism::ConsoleGroup);
    let walked = prepare(Platform::Windows, &request(Some(ContainMode::TreeWalk)), false, &[], false);
    assert_eq!(walked.windows.expect("contained").creation_flags, 0x200);
    assert!(prepare(Platform::Windows, &request(None), false, &[], false).windows.is_none());
}

/// A child that entered its leaf is held by it; one that did not keeps its process group, with the
/// reason and the leaf handed back; an undecided one fails the spawn.
#[test]
fn a_linux_root_is_attached_by_its_placement() {
    let start = || {
        let mut p = prepared(Some(ContainMode::Strongest), true);
        p.cgroup_leaf = Some("leaf");
        attach(Platform::Linux, 33, p)
    };
    let entered = done(start().on(AttachAnswer::Placement(Ok(Ok(())))));
    let attachment = entered.result.expect("attached");
    assert_eq!(attachment.containment, Containment::CgroupV2);
    assert!(matches!(attachment.attached, Attached::Cgroup("leaf")));
    assert!(entered.released.is_none() && entered.degraded.is_none());

    let reason = NotPlaced::Absent {
        pid: 33,
        path: "/cg".to_string(),
        procs: String::new(),
        report: NotEntered::NotReported,
        child_state: None,
    };
    let degraded = done(start().on(AttachAnswer::Placement(Ok(Err(reason)))));
    let attachment = degraded.result.expect("attached");
    assert_eq!(attachment.containment, Containment::ProcessGroup);
    assert!(matches!(attachment.attached, Attached::ProcessGroup(33)));
    assert_eq!(degraded.released, Some("leaf"));
    assert!(degraded.degraded.is_some());

    let error = Error::Containment {
        detail: "undecided".to_string(),
    };
    let failed = done(start().on(AttachAnswer::Placement(Err(error))));
    assert!(matches!(
        failed.result.expect_err("fails").into_error(),
        Error::Containment { detail } if detail == "undecided"
    ));
    assert_eq!(failed.released, Some("leaf"));
}

/// A root without a leaf keeps its process group; a session is held by its group too.
#[test]
fn a_unix_root_without_a_leaf_keeps_its_group() {
    for platform in [Platform::Linux, Platform::OtherUnix] {
        let group = done(attach(platform, 5, prepared(Some(ContainMode::Strongest), true)));
        assert_eq!(group.result.expect("attached").containment, Containment::ProcessGroup);
        let session = done(attach(platform, 5, prepared(Some(ContainMode::Session), true)));
        let session = session.result.expect("attached");
        assert_eq!(session.containment, Containment::Session);
        assert!(matches!(session.attached, Attached::ProcessGroup(5)));
    }
}

/// A tree walk needs its root's identity, and fails without it.
#[test]
fn a_tree_walk_needs_its_roots_identity() {
    for platform in [Platform::Linux, Platform::OtherUnix, Platform::Windows] {
        let start = || attach(platform, 5, prepared(Some(ContainMode::TreeWalk), true));
        let found = done(start().on(AttachAnswer::Identity(Resolved::Found(me()))));
        assert_eq!(found.result.expect("attached").containment, Containment::TreeWalk);
        assert!(done(start().on(AttachAnswer::Identity(Resolved::Gone))).result.is_err());
        assert!(matches!(
            start().on(AttachAnswer::Job(Ok(None))),
            Attaching::ResolveRoot { pid: 5, .. }
        ));
    }
}

/// A marked macOS root is held by its marker whatever its mode, with the identity the host gave.
#[test]
fn a_marked_root_is_held_by_its_marker() {
    let start = |mode: ContainMode| {
        let mut p = prepared(Some(mode), true);
        p.marker = Some("pipe");
        attach(Platform::MacOs, 5, p)
    };
    let found = done(start(ContainMode::Strongest).on(AttachAnswer::Identity(Resolved::Found(me()))));
    assert!(found.note.is_none());
    let Attached::FdMarker(marker) = found.result.expect("attached").attached else {
        panic!("a marker")
    };
    assert_eq!((marker.root, marker.pgid, marker.root_denied), (Some(me()), Some(5), false));

    let gone = done(start(ContainMode::TreeWalk).on(AttachAnswer::Identity(Resolved::Gone)));
    assert_eq!(gone.note, Some(AttachNote::RootExited));
    assert_eq!(gone.note.expect("a note").record().level, Level::Debug);
    let Attached::FdMarker(marker) = gone.result.expect("attached").attached else {
        panic!("a marker")
    };
    assert_eq!((marker.root, marker.pgid, marker.root_denied), (None, None, false));

    let denied = done(start(ContainMode::Session).on(AttachAnswer::Identity(Resolved::Unknown)));
    let record = denied.note.expect("a note").record();
    assert_eq!(record.level, Level::Warn);
    assert!(record.message.contains("access denied"));
    let Attached::FdMarker(marker) = denied.result.expect("attached").attached else {
        panic!("a marker")
    };
    assert!(marker.root_denied);

    let mut stray = prepared(Some(ContainMode::Strongest), false);
    stray.marker = Some("pipe");
    let nested = done(attach(Platform::MacOs, 5, stray));
    assert_eq!(nested.note, Some(AttachNote::NestedMarker));
    assert_eq!(nested.note.expect("a note").record().level, Level::Warn);
}

/// A Windows root is held by its job; where none can be assigned, by a tree walk; a job that fails
/// fails the spawn.
#[test]
fn a_windows_root_falls_back_to_a_tree_walk() {
    let start = || attach(Platform::Windows, 5, prepared(Some(ContainMode::Session), true));
    let job = done(start().on(AttachAnswer::Job(Ok(Some("job")))));
    assert_eq!(job.result.expect("attached").containment, Containment::JobObject);
    let walked = done(
        start()
            .on(AttachAnswer::Job(Ok(None)))
            .on(AttachAnswer::Identity(Resolved::Found(me()))),
    );
    assert_eq!(walked.result.expect("attached").containment, Containment::TreeWalk);
    let failed = done(start().on(AttachAnswer::Job(Err(OsError::other("no job".to_string())))));
    assert!(matches!(
        failed.result.expect_err("fails").into_error(),
        Error::Containment { detail } if detail == "no job"
    ));
}

/// The guard, the kill, the termination and the disarming each act on the mechanism that is owned.
#[test]
fn the_operations_act_on_the_owned_mechanism() {
    assert!(require_contained(Containment::ProcessGroup, &Owned::ProcessGroup(3), "linux").is_ok());
    match require_contained(Containment::Delegated, &Owned::Delegated, "linux") {
        Err(Error::Unsupported { op, platform, detail }) => {
            assert_eq!(op, "tree teardown (kill_tree / terminate_tree)");
            assert_eq!(platform, "linux");
            assert!(detail.starts_with("this child holds no actionable tree-teardown mechanism"));
        }
        other => panic!("expected Unsupported, got {other:?}"),
    }
    assert!(matches!(Owned::Uncontained.hard_kill(), Teardown::Nothing));
    assert!(matches!(Owned::ProcessGroup(3).hard_kill(), Teardown::Group(3)));
    assert!(matches!(Owned::Cgroup("leaf").hard_kill(), Teardown::Leaf(&"leaf")));
    assert!(matches!(Owned::TreeWalk(me()).terminate("linux"), Ok(Teardown::Walk(id)) if id == me()));
    match Owned::Delegated.terminate("linux") {
        Err(Error::Unsupported { op, .. }) => assert_eq!(op, "terminate on a non-actionable mechanism"),
        other => panic!("expected Unsupported, got {other:?}"),
    }
    assert!(matches!(Owned::Cgroup("leaf").disarm(), Teardown::Leaf(&"leaf")));
    assert!(matches!(Owned::JobObject("job").disarm(), Teardown::Job(&"job")));
    assert!(matches!(Owned::ProcessGroup(3).disarm(), Teardown::Nothing));
}

/// Every mechanism but delegation and none drives teardown, and each has its name.
#[test]
fn each_mechanism_has_its_name() {
    let names = [
        (Containment::CgroupV2, "cgroup v2", true),
        (Containment::JobObject, "job object", true),
        (Containment::ProcessGroup, "process group", true),
        (Containment::Session, "session", true),
        (Containment::FdMarker, "inherited-fd marker", true),
        (Containment::TreeWalk, "process-tree walk", true),
        (Containment::Delegated, "delegated", false),
        (Containment::Uncontained, "none", false),
    ];
    for (containment, name, drives) in names {
        assert_eq!(containment.to_string(), name);
        assert_eq!(containment.can_teardown(), drives);
    }
}
