//! A leaf's life, one answer of the host at a time: creating it, killing through it, removing it.

use cosca::containment::cgroup::create::{leaf_parent, join, unwound, CreateAnswer, CreateFailure, Creating};
use cosca::containment::cgroup::degrade::{LeafError, NotEntered, NotPlaced, PlacementReport};
use cosca::containment::cgroup::leaf::CgroupLeaf;
use cosca::containment::cgroup::placement::Verdict;
use cosca::containment::cgroup::removal::{
    at_drop, AbandonedRemoving, AtDrop, Emptied, InFlightRemoving, LeafFlags, LeftBehind, RemovalAnswer, Removing,
};
use cosca::containment::dispatch::{Attached, Teardown};
use cosca::errno::{removed_after_drain, OsError};
use cosca::report::{Level, Record};

fn os(errno: i32) -> OsError {
    OsError::from_raw_os_error(errno)
}

fn text_of(errno: i32) -> String {
    std::io::Error::from_raw_os_error(errno).to_string()
}

// removed_after_drain -----

fn enodev_proves_a_drain() {
    assert!(removed_after_drain(&os(libc::ENODEV)));
}

fn enoent_proves_a_drain() {
    assert!(removed_after_drain(&os(libc::ENOENT)));
}

fn no_other_errno_proves_a_drain() {
    for errno in [libc::EACCES, libc::EIO, libc::EBUSY, libc::EPERM] {
        let e = os(errno);
        assert!(
            !removed_after_drain(&e),
            "errno {errno} must not be classified as proof of drain"
        );
    }
    assert!(!removed_after_drain(&OsError::other("No such file or directory".to_string())));
}

/// `ENODEV` — a syscall through an fd opened before the leaf was removed, once the kernel
/// deactivates the underlying kernfs node — is proof of drain.
#[test]
fn leaf_tests_enodev_is_removed_after_drain() {
    enodev_proves_a_drain();
}

#[test]
fn cgroup_tests_enodev_is_removed_after_drain() {
    enodev_proves_a_drain();
}

/// `ENOENT` — a fresh `open` through the now-unlinked leaf directory — is proof of drain too.
#[test]
fn leaf_tests_enoent_is_removed_after_drain() {
    enoent_proves_a_drain();
}

#[test]
fn cgroup_tests_enoent_is_removed_after_drain() {
    enoent_proves_a_drain();
}

/// Every other errno is a genuine failure, not proof of anything.
#[test]
fn leaf_tests_unrelated_errnos_are_not_removed_after_drain() {
    no_other_errno_proves_a_drain();
}

#[test]
fn cgroup_tests_unrelated_errnos_are_not_removed_after_drain() {
    no_other_errno_proves_a_drain();
}

// Creating a leaf -----

/// Creates a leaf at `leaf_path` on a host that gives `answers`, and returns how that ended, with
/// the records made.
fn create(leaf_path: &str, answers: Vec<CreateAnswer>) -> (Result<(), LeafError>, Vec<Record>) {
    let mut state = Creating::create_leaf_under();
    for answer in answers {
        state = state.on(answer);
    }
    match state {
        Creating::Created => (Ok(()), Vec::new()),
        Creating::Failed(failure, left) => {
            let error = failure.into_leaf_error(leaf_path);
            let records = match left {
                Some(rmdir) => vec![unwound(&error, rmdir).warn_leaf_left_behind(leaf_path)],
                None => Vec::new(),
            };
            (Err(error), records)
        }
        other => panic!("the creation has not ended: {other:?}"),
    }
}

fn refused_mkdir() {
    let (result, records) = create(
        "/tmp/no-such-slice/cosca-1-0",
        vec![CreateAnswer::Made(Err(os(libc::ENOENT)))],
    );
    let err = result.expect_err("creating a leaf under a nonexistent directory must fail");
    assert!(
        matches!(err, LeafError::CreateLeafDir { .. }),
        "expected CreateLeafDir, got {err:?}"
    );
    let rendered = err.to_string();
    assert!(rendered.contains("no-such-slice"), "path missing from {rendered:?}");
    let reason = text_of(libc::ENOENT);
    assert!(rendered.contains(&reason), "errno missing from {rendered:?}");
    assert!(records.is_empty(), "nothing was made, so nothing is left behind");
}

/// A `mkdir` the kernel refuses reports the `mkdir` step, its path and its errno.
#[test]
fn leaf_tests_create_leaf_under_reports_a_refused_mkdir() {
    refused_mkdir();
}

#[test]
fn cgroup_tests_create_leaf_under_reports_a_refused_mkdir() {
    refused_mkdir();
}

fn missing_kill() {
    let (result, records) = create(
        "/tmp/cosca-1-0",
        vec![
            CreateAnswer::Made(Ok(())),
            CreateAnswer::HasKill(Ok(false)),
            CreateAnswer::Unmade(Ok(())),
        ],
    );
    let err = result.expect_err("a plain directory has no cgroup.kill; leaf creation must fail");
    assert!(
        matches!(err, LeafError::KillUnsupported { .. }),
        "expected KillUnsupported, got {err:?}"
    );
    assert!(err.to_string().contains("cgroup.kill"), "got {err:?}");
    assert!(records.is_empty(), "a failed leaf creation left {records:?} behind");
}

/// A leaf with no `cgroup.kill` reports that, and leaves no stray directory behind.
#[test]
fn leaf_tests_create_leaf_under_reports_a_missing_cgroup_kill() {
    missing_kill();
}

#[test]
fn cgroup_tests_create_leaf_under_reports_a_missing_cgroup_kill() {
    missing_kill();
}

fn unwind_refused() {
    let marker = "/tmp/marked/cosca-1-0";
    let (result, records) = create(
        marker,
        vec![
            CreateAnswer::Made(Ok(())),
            CreateAnswer::HasKill(Ok(false)),
            CreateAnswer::Unmade(Err(os(libc::ENOTEMPTY))),
        ],
    );
    let err = result.expect_err("a plain directory has no cgroup.kill; leaf creation must fail");
    assert!(matches!(err, LeafError::KillUnsupported { .. }), "got {err:?}");
    let levels: Vec<Level> = records.iter().map(|r| r.level).collect();
    assert_eq!(
        levels,
        vec![Level::Warn],
        "the unwind left a leaf behind and must say so"
    );
    let enotempty = text_of(libc::ENOTEMPTY);
    assert!(
        records.iter().any(|record| record.message.contains(&enotempty) && record.message.contains(marker)),
        "the record must carry the kernel's reason"
    );
}

/// A degrade whose leaf cannot be removed says so.
#[test]
fn leaf_tests_create_leaf_under_reports_a_leaf_its_unwind_could_not_remove() {
    unwind_refused();
}

#[test]
fn cgroup_tests_create_leaf_under_reports_a_leaf_its_unwind_could_not_remove() {
    unwind_refused();
}

fn unchecked_kill() {
    let (result, records) = create(
        "/tmp/cosca-1-0",
        vec![
            CreateAnswer::Made(Ok(())),
            CreateAnswer::HasKill(Err(os(libc::EACCES))),
            CreateAnswer::Unmade(Ok(())),
        ],
    );
    let err = result.expect_err("leaf creation must fail");
    assert!(
        matches!(err, LeafError::CheckKill { .. }),
        "expected CheckKill, got {err:?}"
    );
    let reason = text_of(libc::EACCES);
    assert!(err.to_string().contains(&reason), "the errno is the diagnosis: {err:?}");
    assert!(err.to_string().contains("/tmp/cosca-1-0/cgroup.kill"));
    assert!(records.is_empty(), "a failed leaf creation left {records:?} behind");
}

/// A `cgroup.kill` the kernel cannot even look up is not a missing one.
#[test]
fn leaf_tests_create_leaf_under_reports_a_cgroup_kill_it_could_not_check() {
    unchecked_kill();
}

#[test]
fn cgroup_tests_create_leaf_under_reports_a_cgroup_kill_it_could_not_check() {
    unchecked_kill();
}

fn unopenable_procs() {
    let (result, records) = create(
        "/tmp/cosca-1-0",
        vec![
            CreateAnswer::Made(Ok(())),
            CreateAnswer::HasKill(Ok(true)),
            CreateAnswer::ChannelOpened(Ok(())),
            CreateAnswer::ProcsOpened(Err(os(libc::ENOENT))),
            CreateAnswer::Unmade(Ok(())),
        ],
    );
    let err = result.expect_err("a plain directory has no cgroup.procs to open; leaf creation must fail");
    assert!(
        matches!(err, LeafError::OpenProcs { .. }),
        "expected OpenProcs, got {err:?}"
    );
    assert!(err.to_string().contains("cgroup.procs"), "got {err:?}");
    assert!(records.is_empty());
}

/// A `cgroup.procs` that cannot be opened reports that step, and takes the leaf with it.
#[test]
fn leaf_tests_create_leaf_under_reports_an_unopenable_cgroup_procs_and_removes_the_leaf() {
    unopenable_procs();
}

#[test]
fn cgroup_tests_create_leaf_under_reports_an_unopenable_cgroup_procs_and_removes_the_leaf() {
    unopenable_procs();
}

fn unopenable_channel() {
    let (result, records) = create(
        "/tmp/cosca-1-0",
        vec![
            CreateAnswer::Made(Ok(())),
            CreateAnswer::HasKill(Ok(true)),
            CreateAnswer::ChannelOpened(Err(os(libc::EMFILE))),
            CreateAnswer::Unmade(Ok(())),
        ],
    );
    let err = result.expect_err("the report channel could not be opened; leaf creation must fail");
    assert!(
        matches!(err, LeafError::OpenReportChannel(_)),
        "expected OpenReportChannel, got {err:?}"
    );
    let reason = text_of(libc::EMFILE);
    assert!(err.to_string().contains(&reason), "got {err:?}");
    assert!(records.is_empty(), "a failed channel left {records:?} behind");
}

/// A report channel that cannot be opened is its own degrade reason, and unwinds the leaf too.
#[test]
fn leaf_tests_create_leaf_under_reports_an_unopenable_report_channel_and_removes_the_leaf() {
    unopenable_channel();
}

#[test]
fn cgroup_tests_create_leaf_under_reports_an_unopenable_report_channel_and_removes_the_leaf() {
    unopenable_channel();
}

/// Without an inotify instance no leaf is created, and the half-made leaf is removed.
#[test]
fn cgroup_a_leaf_whose_drain_cannot_be_watched_is_not_created() {
    let (result, records) = create(
        "/cg/cosca-1-0",
        vec![
            CreateAnswer::Made(Ok(())),
            CreateAnswer::HasKill(Ok(true)),
            CreateAnswer::ChannelOpened(Ok(())),
            CreateAnswer::ProcsOpened(Ok(())),
            CreateAnswer::Watching(Err(os(libc::EMFILE))),
            CreateAnswer::Unmade(Err(os(libc::ENOENT))),
        ],
    );
    match result {
        Err(LeafError::WatchDrain { source, path }) => {
            assert_eq!(source.raw_os_error(), Some(libc::EMFILE));
            assert_eq!(path, "/cg/cosca-1-0/cgroup.events");
        }
        Err(e) => panic!("expected WatchDrain, got {e:?}"),
        Ok(()) => panic!("a leaf whose drain cannot be watched must not be created"),
    }
    assert!(records.is_empty(), "another party removed it: nothing is left behind");
}

/// Where every step succeeds, the leaf is created; an answer nobody asked for changes nothing.
#[test]
fn a_leaf_is_created_step_by_step() {
    let (result, _) = create(
        "/cg/l",
        vec![
            CreateAnswer::Unmade(Ok(())),
            CreateAnswer::Made(Ok(())),
            CreateAnswer::HasKill(Ok(true)),
            CreateAnswer::Made(Ok(())),
            CreateAnswer::ChannelOpened(Ok(())),
            CreateAnswer::ProcsOpened(Ok(())),
            CreateAnswer::Watching(Ok(())),
        ],
    );
    assert!(result.is_ok());
    assert!(matches!(
        CreateFailure::MakeDir(os(1)).into_leaf_error("/cg/l"),
        LeafError::CreateLeafDir { path, .. } if path == "/cg/l"
    ));
}

/// Where a leaf goes, from the file that says where this process is.
#[test]
fn a_leaf_goes_under_this_processs_own_cgroup() {
    let parent = leaf_parent(Ok("12:memory:/a\n0::/user.slice/x.scope\n".to_string())).expect("a unified line");
    assert_eq!(parent.dir, "/sys/fs/cgroup/user.slice/x.scope");
    assert_eq!(parent.cgroup_path("cosca-1-0"), "/user.slice/x.scope/cosca-1-0");
    let root = leaf_parent(Ok("0::/\n".to_string())).expect("a unified line");
    assert_eq!(root.dir, "/sys/fs/cgroup/");
    assert_eq!(root.cgroup_path("cosca-1-0"), "/cosca-1-0");
    assert_eq!(join(&root.dir, "cosca-1-0"), "/sys/fs/cgroup/cosca-1-0");
    assert_eq!(join(&parent.dir, "l"), "/sys/fs/cgroup/user.slice/x.scope/l");
    match leaf_parent(Ok("9:memory:/a\n8:cpu,cpuacct:/b\n".to_string())) {
        Err(LeafError::NoUnifiedLine { line_count, controllers }) => {
            assert_eq!(line_count, 2);
            assert_eq!(controllers, "9:memory, 8:cpu,cpuacct");
        }
        other => panic!("expected NoUnifiedLine, got {other:?}"),
    }
    assert!(matches!(leaf_parent(Err(os(13))), Err(LeafError::ReadProcSelfCgroup(e)) if e.errno == Some(13)));
}

// Killing through a leaf -----

fn leaf_at(path: &str) -> CgroupLeaf {
    CgroupLeaf::new(path.to_string(), None)
}

fn entered_leaf_at(path: &str) -> CgroupLeaf {
    let mut leaf = leaf_at(path);
    leaf.settle(&Verdict::Entered);
    leaf
}

fn refused_kill() {
    let mut leaf = leaf_at("/cg/cosca-refused-kill");
    let err = leaf
        .hard_kill(Err(os(libc::EISDIR)))
        .expect_err("a refused cgroup.kill write must not read as success");
    assert!(
        err.text.contains(&text_of(libc::EISDIR)),
        "the kernel's own reason must reach the caller, got {err:?}"
    );
    assert!(!leaf.flags.killed, "a kill that did not happen is not recorded as one");
}

/// A `cgroup.kill` write the kernel refused must reach the caller.
#[test]
fn leaf_tests_hard_kill_propagates_a_kill_the_kernel_refused() {
    refused_kill();
}

#[test]
fn cgroup_tests_hard_kill_propagates_a_kill_the_kernel_refused() {
    refused_kill();
}

fn kill_of_a_removed_leaf() {
    let mut leaf = leaf_at("/nonexistent/cosca-hard-kill-already-gone");
    let record = leaf
        .hard_kill(Err(os(libc::ENOENT)))
        .expect("an already-removed leaf is a completed teardown, not a failure")
        .expect("it is noted");
    assert_eq!(
        record.level,
        Level::Debug,
        "an already-gone leaf is routine: exactly one record, and not at warn"
    );
    assert_eq!(
        record.message,
        "cgroup.kill: leaf /nonexistent/cosca-hard-kill-already-gone/cgroup.kill is already gone"
    );
    assert!(leaf.hard_kill(Ok(())).expect("killed").is_none());
    assert!(leaf.flags.killed);
}

/// An already-removed leaf is a completed teardown, not a failed kill.
#[test]
fn leaf_tests_hard_kill_reads_an_already_removed_leaf_as_a_completed_teardown() {
    kill_of_a_removed_leaf();
}

#[test]
fn cgroup_tests_hard_kill_reads_an_already_removed_leaf_as_a_completed_teardown() {
    kill_of_a_removed_leaf();
}

/// `terminate` reads an already-removed leaf as a completed teardown, as `hard_kill` does.
#[test]
fn terminate_reads_an_already_removed_leaf_as_a_completed_teardown() {
    let mut leaf = leaf_at("/nonexistent/cosca-terminate-already-gone");
    let pids = CgroupLeaf::terminate(Err(os(libc::ENOENT))).expect("an already-removed leaf has no member left to signal");
    assert!(pids.is_empty());
    let attached: Attached<&str, (), ()> = Attached::Cgroup("leaf");
    assert!(
        matches!(attached.terminate("linux"), Ok(Teardown::Leaf(&"leaf"))),
        "terminate and hard_kill must agree about an already-gone leaf"
    );
    assert!(leaf.hard_kill(Err(os(libc::ENOENT))).is_ok());
}

/// A termination signals exactly the listed pids, in order, and hands any other error back.
#[test]
fn a_termination_signals_the_listed_pids() {
    assert_eq!(
        CgroupLeaf::terminate(Ok("31\n 7 \nno pid\n2147483648\n-3\n12\n".to_string())).expect("read"),
        vec![31, 7, -3, 12]
    );
    assert_eq!(CgroupLeaf::terminate(Err(os(libc::EACCES))).expect_err("refused").errno, Some(libc::EACCES));
    assert_eq!(entered_leaf_at("/cg/l").events_path(), "/cg/l/cgroup.events");
}

// Removing a leaf -----

/// What a drop did to a leaf: its steps, and the record it made, if any.
#[derive(Debug, Default)]
struct Dropped {
    steps: Vec<&'static str>,
    record: Option<Record>,
}

impl Dropped {
    fn killed(&self) -> bool {
        self.steps.contains(&"kill")
    }

    fn levels(&self) -> Vec<Level> {
        self.record.iter().map(|r| r.level).collect()
    }
}

/// The host that a removal meets: how each `rmdir` in turn, the kill, the drain and the sweep go.
struct Host {
    rmdirs: Vec<Result<(), i32>>,
    kill: Result<(), i32>,
    drain: Result<(), i32>,
    sweeps: Vec<Result<usize, i32>>,
    repopulated: Vec<Result<bool, i32>>,
}

/// A host on which a leaf with something in it is never removed.
fn occupied(errno: i32) -> Host {
    Host {
        rmdirs: vec![Err(errno); 9],
        kill: Ok(()),
        drain: Ok(()),
        sweeps: vec![Ok(0); 9],
        repopulated: vec![Ok(false)],
    }
}

fn drop_leaf(leaf: &CgroupLeaf, host: Host) -> Dropped {
    let mut dropped = Dropped::default();
    let mut state = Removing::start();
    let mut rmdirs = host.rmdirs.into_iter();
    let mut sweeps = host.sweeps.into_iter();
    loop {
        let answer = match &state {
            Removing::First | Removing::Second(..) => {
                dropped.steps.push("rmdir");
                RemovalAnswer::Removed(rmdirs.next().expect("a further rmdir").map_err(os))
            }
            Removing::Kill(_) => {
                dropped.steps.push("kill");
                RemovalAnswer::Killed(host.kill.map_err(os))
            }
            Removing::Drain(_) => {
                dropped.steps.push("drain");
                RemovalAnswer::Drained(host.drain.map_err(os))
            }
            Removing::Sweep(_) => {
                dropped.steps.push("sweep");
                RemovalAnswer::Swept(sweeps.next().expect("a sweep").map_err(os))
            }
            Removing::Gone => return dropped,
            Removing::Left(left) => {
                dropped.record = Some(left.warn_leaf_left_behind(&leaf.leaf_path));
                return dropped;
            }
        };
        state = state.on(leaf.flags, answer);
    }
}

fn drop_in_flight(leaf: &CgroupLeaf, host: Host) -> Dropped {
    let mut dropped = Dropped::default();
    let mut state = InFlightRemoving::remove_with_report_in_flight();
    let mut rmdirs = host.rmdirs.into_iter();
    let mut sweeps = host.sweeps.into_iter();
    let mut repopulated = host.repopulated.into_iter();
    loop {
        let answer = match &state {
            InFlightRemoving::Remove(_) => {
                dropped.steps.push("rmdir");
                RemovalAnswer::Removed(rmdirs.next().expect("a further rmdir").map_err(os))
            }
            InFlightRemoving::CheckReentry(_) => {
                dropped.steps.push("reread");
                RemovalAnswer::Repopulated(repopulated.next().expect("a reading").map_err(os))
            }
            InFlightRemoving::Kill(_) => {
                dropped.steps.push("kill");
                RemovalAnswer::Killed(host.kill.map_err(os))
            }
            InFlightRemoving::Drain(_) => {
                dropped.steps.push("drain");
                RemovalAnswer::Drained(host.drain.map_err(os))
            }
            InFlightRemoving::Sweep(_) => {
                dropped.steps.push("sweep");
                RemovalAnswer::Swept(sweeps.next().expect("a sweep").map_err(os))
            }
            InFlightRemoving::Gone => return dropped,
            InFlightRemoving::Left(left) => {
                dropped.record = Some(left.warn_leaf_left_behind(&leaf.leaf_path));
                return dropped;
            }
        };
        state = state.on(answer);
    }
}

fn drop_abandoned(leaf: &CgroupLeaf, host: Host) -> Dropped {
    let mut dropped = Dropped::default();
    let mut state = AbandonedRemoving::start();
    let mut rmdirs = host.rmdirs.into_iter();
    let mut sweeps = host.sweeps.into_iter();
    loop {
        let answer = match &state {
            AbandonedRemoving::First | AbandonedRemoving::Second => {
                dropped.steps.push("rmdir");
                RemovalAnswer::Removed(rmdirs.next().expect("a further rmdir").map_err(os))
            }
            AbandonedRemoving::Sweep(_) => {
                dropped.steps.push("sweep");
                RemovalAnswer::Swept(sweeps.next().expect("a sweep").map_err(os))
            }
            AbandonedRemoving::Gone => return dropped,
            AbandonedRemoving::Left(left) => {
                dropped.record = Some(left.warn_leaf_left_behind(&leaf.leaf_path));
                return dropped;
            }
        };
        state = state.on(answer);
    }
}

fn unremovable_leaf_is_reported() {
    // A file, not a directory: no child-cgroup sweep removes it.
    let dropped = drop_abandoned(&leaf_at("/cg/cosca-undeletable-leaf"), occupied(libc::ENOTEMPTY));
    assert_eq!(
        dropped.levels(),
        vec![Level::Warn],
        "a leaf that outlived its Drop is reported, or never known about"
    );
    assert_eq!(
        dropped.record.expect("reported").message,
        format!(
            "cgroup leaf /cg/cosca-undeletable-leaf was not removed: rmdir failed ({}); cgroup.kill not written: \
             nothing of the child's is in it; it stays on this host until a cgroup manager reaps it",
            text_of(libc::ENOTEMPTY)
        )
    );
}

/// A leaf the host refuses to remove is reported.
#[test]
fn leaf_tests_drop_reports_a_leaf_it_could_not_remove() {
    unremovable_leaf_is_reported();
}

#[test]
fn cgroup_tests_drop_reports_a_leaf_it_could_not_remove() {
    unremovable_leaf_is_reported();
}

/// Every report, whether the verdict on it was taken or not: only a placement is killed through.
fn kills_only_on_a_placement() {
    let reports = [
        PlacementReport::NotReported,
        PlacementReport::WriteFailed(libc::EBADF),
        PlacementReport::Placed,
    ];
    for (report, verdict_taken) in reports.into_iter().flat_map(|report| [(report, false), (report, true)]) {
        let kills = report == PlacementReport::Placed;
        let mut leaf = leaf_at("/cg/cosca-drop-kill-leaf");
        if verdict_taken {
            let verdict = match report {
                PlacementReport::Placed => Verdict::Entered,
                PlacementReport::NotReported => Verdict::NotPlaced(absent(NotEntered::NotReported)),
                PlacementReport::WriteFailed(e) => Verdict::NotPlaced(absent(NotEntered::WriteFailed(e))),
            };
            assert_eq!(verdict.child_entered(), kills);
            leaf.settle(&verdict);
        }
        // Before the verdict the drop abandons the exchange first, so what was received is final.
        let known = if verdict_taken {
            at_drop(leaf.flags.entered, None, false)
        } else {
            at_drop(leaf.flags.entered, Some(report), true)
        };
        let dropped = match known {
            AtDrop::Settled(entered) => {
                leaf.flags.entered = entered;
                drop_leaf(&leaf, occupied(libc::ENOTEMPTY))
            }
            AtDrop::Abandoned => drop_abandoned(&leaf, occupied(libc::ENOTEMPTY)),
            AtDrop::InFlight => panic!("a shut exchange leaves nothing in flight"),
        };
        assert_eq!(
            dropped.killed(),
            kills,
            "a child that reported {report:?} (verdict taken: {verdict_taken}): cgroup.kill written must be {kills}"
        );
        assert_eq!(
            dropped.levels(),
            vec![Level::Warn],
            "the unremoved leaf is reported either way"
        );
    }
}

fn absent(report: NotEntered) -> NotPlaced {
    NotPlaced::Absent {
        pid: 7,
        path: "/cg/cosca-drop-kill-leaf/cgroup.procs".to_string(),
        procs: String::new(),
        report,
        child_state: None,
    }
}

#[test]
fn drop_kills_through_a_leaf_unless_the_child_provably_never_entered() {
    kills_only_on_a_placement();
}

#[test]
fn drop_kills_only_through_a_leaf_its_child_entered() {
    kills_only_on_a_placement();
}

/// A disarmed leaf never writes `cgroup.kill`, and leaves the occupied directory alone.
#[test]
fn a_disarmed_leaf_does_not_kill_the_tree_it_was_detached_from() {
    let mut leaf = entered_leaf_at("/cg/cosca-detached-leaf");
    leaf.disarm();
    let dropped = drop_leaf(&leaf, occupied(libc::ENOTEMPTY));
    assert!(
        !dropped.killed(),
        "a detached tree must not be killed: cgroup.kill must never be written"
    );
    assert_eq!(dropped.steps, vec!["rmdir"], "the detached tree's leaf must survive with it");
    assert_eq!(
        dropped.levels(),
        vec![Level::Debug],
        "a leaf left behind for a detached tree is what the caller asked for, not a leak"
    );
}

/// The same leaf, left armed, does fire `cgroup.kill`.
#[test]
fn an_armed_leaf_still_kills_the_tree_on_drop() {
    let dropped = drop_leaf(&entered_leaf_at("/cg/cosca-armed-leaf"), occupied(libc::ENOTEMPTY));
    assert!(
        dropped.killed(),
        "an occupied leaf that was NOT detached must still be killed on Drop"
    );
}

/// The control: an armed leaf's drop kills through an occupied leaf it cannot remove.
#[test]
fn an_armed_leaf_kills_through_itself_on_drop() {
    assert!(drop_leaf(&entered_leaf_at("/cg/l"), occupied(libc::EBUSY)).killed());
}

/// A detached handle's leaf is disarmed, so its drop neither kills nor waits.
#[test]
fn detach_leaves_a_contained_child_running() {
    let attached: Attached<&str, (), ()> = Attached::Cgroup("leaf");
    assert!(matches!(attached.disarm(), Teardown::Leaf(&"leaf")));
    let mut leaf = entered_leaf_at("/cg/l");
    leaf.disarm();
    let dropped = drop_leaf(&leaf, occupied(libc::EBUSY));
    assert!(!dropped.killed(), "a detached child's leaf must not be killed through");
    assert!(!dropped.steps.contains(&"drain"));
}

/// A disarmed leaf whose tree has already gone still removes the empty directory.
#[test]
fn a_disarmed_leaf_still_removes_itself_once_it_is_empty() {
    let mut leaf = entered_leaf_at("/cg/cosca-detached-empty-leaf");
    leaf.disarm();
    let mut host = occupied(libc::EBUSY);
    host.rmdirs = vec![Ok(())];
    let dropped = drop_leaf(&leaf, host);
    assert_eq!(dropped.steps, vec!["rmdir"]);
    assert!(dropped.record.is_none());
}

/// A disarmed leaf whose tree the caller killed is a leak where it stays, not a detached tree's.
#[test]
fn a_disarmed_leaf_whose_tree_was_killed_warns_that_it_was_not_removed() {
    let mut leaf = entered_leaf_at("/cg/cosca-killed-opted-out-leaf");
    leaf.disarm();
    leaf.hard_kill(Ok(())).expect("kill the tree");
    let dropped = drop_leaf(&leaf, occupied(libc::ENOTEMPTY));
    assert_eq!(dropped.steps, vec!["rmdir", "drain", "sweep", "rmdir"], "it waits for that kill's drain");
    assert_eq!(
        dropped.levels(),
        vec![Level::Warn],
        "a killed tree's leaf that outlived its Drop is a leak, got {:?}",
        dropped.record
    );
    assert!(
        !dropped.record.expect("reported").message.contains("detached"),
        "the caller killed this tree; it was not left running"
    );
}

/// A SIGTERM proves no teardown: a disarmed leaf whose tree ignored it is no leak.
#[test]
fn a_disarmed_leaf_whose_tree_survived_terminate_is_not_reported_as_a_leak() {
    let mut leaf = entered_leaf_at("/cg/cosca-terminate-survivor-leaf");
    leaf.disarm();
    assert_eq!(CgroupLeaf::terminate(Ok("77\n".to_string())).expect("signal the tree"), vec![77]);
    let dropped = drop_leaf(&leaf, occupied(libc::EBUSY));
    assert_eq!(
        dropped.levels(),
        vec![Level::Debug],
        "a tree that survived SIGTERM is left running, not leaked, got {:?}",
        dropped.record
    );
}

/// A disarmed leaf whose directory is already gone leaves nothing behind.
#[test]
fn a_disarmed_leaf_that_is_already_gone_reports_nothing() {
    let mut leaf = entered_leaf_at("/nonexistent/cosca-detached-gone-leaf");
    leaf.disarm();
    assert_eq!(
        drop_leaf(&leaf, occupied(libc::ENOENT)).levels(),
        Vec::<Level>::new(),
        "nothing is left behind for the detached tree, so there is nothing to report"
    );
}

/// All four combinations, each against an occupied leaf: only both-set kills.
#[test]
fn drop_kills_only_a_leaf_its_child_entered_and_that_is_armed() {
    for (entered, armed) in [(true, true), (true, false), (false, true), (false, false)] {
        let mut leaf = leaf_at("/cg/cosca-two-flags-leaf");
        leaf.flags = LeafFlags {
            entered,
            armed,
            killed: false,
        };
        assert_eq!(
            drop_leaf(&leaf, occupied(libc::ENOTEMPTY)).killed(),
            entered && armed,
            "entered={entered}, armed={armed}"
        );
    }
}

/// An armed drop that kills through its leaf removes it only once the leaf has drained.
#[test]
fn an_armed_drop_removes_its_leaf_only_after_it_drains() {
    let mut host = occupied(libc::EBUSY);
    host.rmdirs = vec![Err(libc::EBUSY), Ok(())];
    let dropped = drop_leaf(&entered_leaf_at("/cg/cosca-draining-leaf"), host);
    assert_eq!(
        dropped.steps,
        vec!["rmdir", "kill", "drain", "sweep", "rmdir"],
        "every rmdir after the kill must wait for the drain"
    );
    assert!(dropped.record.is_none(), "the drop must remove the drained leaf");
}

/// A leaf that a third party removes under the drop was not left behind.
#[test]
fn an_armed_drop_whose_leaf_a_third_party_removes_reports_nothing() {
    for gone in [libc::ENOENT, libc::ENODEV] {
        let mut host = occupied(libc::EBUSY);
        host.rmdirs = vec![Err(libc::EBUSY), Err(gone)];
        let dropped = drop_leaf(&entered_leaf_at("/cg/cosca-removed-under-drop"), host);
        assert!(
            !dropped.levels().contains(&Level::Warn),
            "a leaf a third party removed was not left behind, got {:?}",
            dropped.record
        );
    }
}

/// An `rmdir` that fails after the kill, drain and sweep is terminal, and is reported once, naming
/// what can have held the leaf.
#[test]
fn an_armed_drop_reports_an_rmdir_refused_after_its_drain_once_without_retrying() {
    let dropped = drop_leaf(&entered_leaf_at("/cg/cosca-refused-after-drain"), occupied(libc::EBUSY));
    assert_eq!(
        dropped.steps.iter().filter(|s| **s == "rmdir").count(),
        2,
        "one rmdir after the drain, no retry"
    );
    assert_eq!(dropped.levels(), vec![Level::Warn], "reported once");
    let record = dropped.record.expect("reported").message;
    for cause in ["moved into it after the kill", "child cgroup", "mount"] {
        assert!(record.contains(cause), "the report must name {cause:?}: {record}");
    }
}

fn gone_leaf_is_no_leak() {
    for leaf in [leaf_at("/cg/cosca-already-gone-leaf"), entered_leaf_at("/cg/cosca-already-gone-leaf")] {
        let levels = drop_leaf(&leaf, occupied(libc::ENOENT)).levels();
        assert!(
            !levels.contains(&Level::Warn),
            "an already-removed leaf left nothing on this host; reporting one as a leak is narrating a non-event, \
             got {levels:?}"
        );
    }
}

/// A leaf that is already gone is not a leak at all.
#[test]
fn leaf_tests_drop_reports_nothing_for_a_leaf_that_is_already_gone() {
    gone_leaf_is_no_leak();
}

#[test]
fn cgroup_tests_drop_reports_nothing_for_a_leaf_that_is_already_gone() {
    gone_leaf_is_no_leak();
}

/// Each way of emptying a leaf that failed is named, and the leaf is still tried again.
#[test]
fn what_kept_a_leaf_is_named() {
    let leaf = entered_leaf_at("/cg/l");
    let busy = text_of(libc::EBUSY);
    let mut host = occupied(libc::EBUSY);
    host.kill = Err(libc::EROFS);
    let dropped = drop_leaf(&leaf, host);
    assert_eq!(dropped.steps, vec!["rmdir", "kill", "rmdir"]);
    assert!(dropped.record.expect("reported").message.contains(&format!(
        "first rmdir failed ({busy}), cgroup.kill failed ({}), second rmdir failed ({busy});",
        text_of(libc::EROFS)
    )));
    let mut host = occupied(libc::EBUSY);
    host.drain = Err(libc::EMFILE);
    let dropped = drop_leaf(&leaf, host);
    assert_eq!(dropped.steps, vec!["rmdir", "kill", "drain", "rmdir"]);
    assert!(dropped.record.expect("reported").message.contains("succeeded but its drain could not be watched ("));
    let mut host = occupied(libc::EBUSY);
    host.sweeps = vec![Err(libc::EACCES)];
    let dropped = drop_leaf(&leaf, host);
    assert!(dropped.record.expect("reported").message.contains("succeeded but a child cgroup could not be removed ("));
    let refused = LeftBehind::Refused {
        first: OsError::other("a".to_string()),
        emptied: Emptied::Drained,
        second: OsError::other("b".to_string()),
    };
    assert_eq!(
        refused.to_string(),
        "first rmdir failed (a), cgroup.kill succeeded, second rmdir failed (b): a process moved into it after the \
         kill, a child cgroup made in it since, or a mount on it can hold it"
    );
}

// With the report in flight -----

/// What is known at a drop: an unreported child is in flight unless the exchange was shut.
#[test]
fn an_unreported_child_is_in_flight_until_the_exchange_is_shut() {
    assert_eq!(at_drop(false, Some(PlacementReport::NotReported), false), AtDrop::InFlight);
    assert_eq!(at_drop(true, Some(PlacementReport::NotReported), true), AtDrop::Abandoned);
    assert_eq!(at_drop(true, Some(PlacementReport::WriteFailed(1)), true), AtDrop::Settled(false));
    assert_eq!(at_drop(false, Some(PlacementReport::Placed), true), AtDrop::Settled(true));
    assert_eq!(at_drop(false, Some(PlacementReport::Placed), false), AtDrop::Settled(true));
    assert_eq!(at_drop(true, Some(PlacementReport::WriteFailed(1)), false), AtDrop::Settled(false));
    assert_eq!(at_drop(true, None, false), AtDrop::Settled(true));
}

/// A leaf dropped with no report received and nothing in it is removed without a kill.
#[test]
fn drop_removes_an_empty_leaf_whose_report_is_in_flight_without_a_kill() {
    let mut host = occupied(libc::EBUSY);
    host.rmdirs = vec![Ok(())];
    let dropped = drop_in_flight(&leaf_at("/cg/cosca-in-flight-empty"), host);
    assert_eq!(dropped.steps, vec!["rmdir"]);
    assert!(dropped.record.is_none(), "the leaf must be removed");
}

/// A leaf holding child cgroups is emptied of them, rather than killed and retried for ever. Placed:
/// killed through, drained, swept. Nothing received: swept without a kill.
#[test]
fn cgroup_drop_removes_a_leaf_holding_child_cgroups() {
    for placed in [true, false] {
        let mut host = occupied(libc::EBUSY);
        host.rmdirs = vec![Err(libc::EBUSY), Ok(())];
        host.sweeps = vec![Ok(2)];
        let report = if placed { PlacementReport::Placed } else { PlacementReport::NotReported };
        let mut leaf = leaf_at("/cg/l");
        let dropped = match at_drop(leaf.flags.entered, Some(report), true) {
            AtDrop::Settled(entered) => {
                leaf.flags.entered = entered;
                drop_leaf(&leaf, host)
            }
            AtDrop::Abandoned => drop_abandoned(&leaf, host),
            AtDrop::InFlight => panic!("a shut exchange leaves nothing in flight"),
        };
        let steps = if placed {
            vec!["rmdir", "kill", "drain", "sweep", "rmdir"]
        } else {
            vec!["rmdir", "sweep", "rmdir"]
        };
        assert_eq!(dropped.steps, steps);
        assert!(
            dropped.record.is_none(),
            "placed: {placed}: the leaf and its child cgroups must be removed"
        );
    }
}

/// With the report in flight, a leaf holding child cgroups is killed through, drained and swept.
#[test]
fn an_in_flight_leaf_holding_child_cgroups_is_removed() {
    let mut host = occupied(libc::EBUSY);
    host.rmdirs = vec![Err(libc::EBUSY), Ok(())];
    host.sweeps = vec![Ok(3)];
    let dropped = drop_in_flight(&leaf_at("/cg/l"), host);
    assert_eq!(dropped.steps, vec!["rmdir", "kill", "drain", "sweep", "rmdir"]);
    assert!(dropped.record.is_none());
}

/// The leaf of an abandoned spawn is never killed through, and one that stays says why.
#[test]
fn an_abandoned_leaf_reports_what_kept_it() {
    let leaf = leaf_at("/cg/l");
    let mut host = occupied(libc::EBUSY);
    host.sweeps = vec![Ok(1)];
    host.rmdirs = vec![Err(libc::EBUSY), Err(libc::EACCES)];
    let dropped = drop_abandoned(&leaf, host);
    assert_eq!(dropped.steps, vec!["rmdir", "sweep", "rmdir"]);
    assert!(dropped.record.expect("reported").message.contains(&text_of(libc::EACCES)));
    let mut host = occupied(libc::EBUSY);
    host.sweeps = vec![Err(libc::EACCES)];
    let record = drop_abandoned(&leaf, host).record.expect("reported");
    assert_eq!(record.level, Level::Warn);
    assert_eq!(
        record.message,
        format!(
            "cgroup leaf /cg/l was not removed: rmdir failed ({}); cgroup.kill not written: nothing of the child's is \
             in it; a child cgroup could not be removed ({}); it stays on this host until a cgroup manager reaps it",
            text_of(libc::EBUSY),
            text_of(libc::EACCES)
        )
    );
    let mut host = occupied(libc::EBUSY);
    host.rmdirs = vec![Err(libc::ENOENT)];
    assert!(drop_abandoned(&leaf, host).record.is_none(), "a leaf already gone is not left behind");
}

/// A leaf dropped before its verdict, occupied by a process that is not its child: nothing was
/// received, so nothing of the child's is there. The occupant is spared, and the leaf is reported.
#[test]
fn cgroup_drop_of_an_abandoned_spawn_spares_an_occupant_that_is_not_its_child() {
    let leaf = leaf_at("/cg/l");
    assert_eq!(
        at_drop(leaf.flags.entered, Some(PlacementReport::NotReported), true),
        AtDrop::Abandoned
    );
    let dropped = drop_abandoned(&leaf, occupied(libc::EBUSY));
    assert!(!dropped.killed(), "the occupant must still be alive");
    assert_eq!(dropped.levels(), vec![Level::Warn], "an occupied leaf is left, and reported");
}

/// A round that removed nothing is repeated only if the leaf was re-entered.
#[test]
fn a_stalled_round_is_repeated_only_on_a_reentry() {
    let leaf = leaf_at("/cg/l");
    let dropped = drop_in_flight(&leaf, occupied(libc::EBUSY));
    assert_eq!(dropped.steps, vec!["rmdir", "kill", "drain", "sweep", "rmdir", "reread"]);
    assert!(dropped.record.expect("reported").message.contains(
        "with the child's report in flight; nothing was left to kill or remove; it stays"
    ));
    let mut host = occupied(libc::EBUSY);
    host.rmdirs = vec![Err(libc::EBUSY), Err(libc::EBUSY), Err(libc::ENODEV)];
    host.repopulated = vec![Ok(true)];
    let dropped = drop_in_flight(&leaf, host);
    assert_eq!(
        dropped.steps,
        vec!["rmdir", "kill", "drain", "sweep", "rmdir", "reread", "kill", "drain", "sweep", "rmdir"]
    );
    assert!(dropped.record.is_none());
    let mut host = occupied(libc::EBUSY);
    host.repopulated = vec![Err(libc::EACCES)];
    assert!(drop_in_flight(&leaf, host)
        .record
        .expect("reported")
        .message
        .contains("whether it was re-entered could not be read ("));
}

/// A leaf refused for another reason than its members is killed through once and reported.
#[test]
fn an_in_flight_leaf_reports_what_it_could_not_do() {
    let leaf = leaf_at("/cg/l");
    let dropped = drop_in_flight(&leaf, occupied(libc::ENOTEMPTY));
    assert_eq!(dropped.steps, vec!["rmdir", "kill"]);
    assert!(dropped.record.expect("reported").message.contains("in flight; cgroup.kill succeeded;"));
    let mut host = occupied(libc::EBUSY);
    host.kill = Err(libc::EROFS);
    assert!(drop_in_flight(&leaf, host).record.expect("reported").message.contains("in flight; cgroup.kill failed ("));
    let mut host = occupied(libc::EBUSY);
    host.drain = Err(libc::EMFILE);
    assert!(drop_in_flight(&leaf, host)
        .record
        .expect("reported")
        .message
        .contains("in flight; its drain could not be watched ("));
    let mut host = occupied(libc::EBUSY);
    host.sweeps = vec![Err(libc::EACCES)];
    assert!(drop_in_flight(&leaf, host)
        .record
        .expect("reported")
        .message
        .contains("in flight; a child cgroup could not be removed ("));
}
