//! A leaf's directory: its name, holding it, removing it, sweeping what is under it.

use cosca::containment::cgroup::dir::{
    below_stdio_end, fd_path, interface_path, leaf_name, unheld_record, ChildSweep, DirId, Entry, EntryKind, Holding,
    LeafSequence, Rmdir, RmdirAnswer, SweepAnswer, SweepStep,
};
use cosca::errno::OsError;
use cosca::report::Level;

fn os(errno: i32) -> OsError {
    OsError::from_raw_os_error(errno)
}

/// A leaf whose directory was made but could not be held is removed again, not leaked.
#[test]
fn a_leaf_that_cannot_be_held_after_its_mkdir_is_removed() {
    let unheld = || {
        Holding::create()
            .on(Ok(()))
            .on(Ok(()))
            .on(Err(os(libc::EMFILE)))
    };
    assert!(matches!(unheld(), Holding::Unmake(_)), "the made directory must be removed");
    match unheld().on(Ok(())) {
        Holding::Failed(err, None) => assert_eq!(err.raw_os_error(), Some(libc::EMFILE), "got {err:?}"),
        other => panic!("the forced open failure must fail the creation: {other:?}"),
    }
    match unheld().on(Err(os(libc::EBUSY))) {
        Holding::Failed(err, Some(rm)) => {
            let record = unheld_record("cosca-unheld", &err, &rm);
            assert_eq!(record.level, Level::Warn);
            assert_eq!(
                record.message,
                format!(
                    "cgroup leaf cosca-unheld was not removed: rmdir failed ({}) after it could not be opened ({}); \
                     it stays on this host until a cgroup manager reaps it",
                    rm.text, err.text
                )
            );
        }
        other => panic!("a leaf left behind is reported: {other:?}"),
    }
    assert!(matches!(Holding::create().on(Err(os(2))), Holding::Failed(_, None)));
    assert!(matches!(Holding::create().on(Ok(())).on(Err(os(13))), Holding::Failed(_, None)));
    assert!(matches!(Holding::create().on(Ok(())).on(Ok(())).on(Ok(())), Holding::Held));
}

// Removing the held leaf -----

const HELD: DirId = DirId { device: 1, inode: 10 };
const STRANGER: DirId = DirId { device: 1, inode: 11 };

/// Removes a leaf whose name names `named`, and returns how that ended and whether anything was
/// unlinked.
fn rmdir(named: Result<DirId, i32>, live: Result<(), i32>) -> (Result<(), OsError>, bool) {
    let mut state = Rmdir::rmdir();
    let mut unlinked = false;
    let mut named = Some(named);
    loop {
        let answer = match &state {
            Rmdir::StatHeld => RmdirAnswer::Id(Ok(HELD)),
            Rmdir::StatNamed(_) => RmdirAnswer::Id(named.take().expect("asked once").map_err(os)),
            Rmdir::CheckLive => RmdirAnswer::Live(live.map_err(os)),
            Rmdir::Unlink => {
                unlinked = true;
                RmdirAnswer::Unlinked(Ok(()))
            }
            Rmdir::Done(_) => break,
        };
        state = state.on(answer);
    }
    match state {
        Rmdir::Done(result) => (result, unlinked),
        other => panic!("not ended: {other:?}"),
    }
}

/// `rmdir` removes the leaf it holds.
#[test]
fn rmdir_removes_the_held_leaf() {
    let (result, unlinked) = rmdir(Ok(HELD), Ok(()));
    result.expect("rmdir");
    assert!(unlinked);
}

/// A leaf removed by another party is `ENOENT`.
#[test]
fn rmdir_of_a_leaf_removed_since_is_enoent() {
    let (result, unlinked) = rmdir(Err(libc::ENOENT), Ok(()));
    assert_eq!(result.expect_err("gone").raw_os_error(), Some(libc::ENOENT));
    assert!(!unlinked);
}

/// A leaf removed, and its name taken since: `ENOENT`, and the other directory is left alone.
#[test]
fn rmdir_spares_a_directory_that_took_a_removed_leafs_name() {
    for gone in [libc::ENOENT, libc::ENODEV] {
        let (result, unlinked) = rmdir(Ok(STRANGER), Err(gone));
        assert_eq!(result.expect_err("gone").raw_os_error(), Some(libc::ENOENT));
        assert!(!unlinked, "the stranger under the leaf's name must survive");
    }
}

/// A live leaf whose name now names another directory: an error, not `Ok` or `ENOENT`.
#[test]
fn rmdir_spares_a_directory_that_took_a_live_leafs_name() {
    let (result, unlinked) = rmdir(Ok(STRANGER), Ok(()));
    let e = result.expect_err("the leaf is still there");
    assert_ne!(e.raw_os_error(), Some(libc::ENOENT), "{e:?}");
    assert_eq!(e.raw_os_error(), Some(libc::EEXIST));
    assert!(!unlinked, "the stranger under the leaf's name must survive");
}

/// The same holds for a symlink that took the name: it is not followed.
#[test]
fn rmdir_spares_a_symlink_that_took_a_live_leafs_name() {
    let link = DirId { device: 1, inode: 12 };
    let (result, unlinked) = rmdir(Ok(link), Err(libc::EACCES));
    let e = result.expect_err("the leaf is still there");
    assert_ne!(e.raw_os_error(), Some(libc::ENOENT), "{e:?}");
    assert!(!unlinked, "the leaf behind the link must not be removed through it");
}

// Sweeping the children -----

fn entry(name: &str, kind: EntryKind) -> SweepAnswer {
    SweepAnswer::Entry(Some(Ok(Entry {
        name: name.as_bytes().to_vec(),
        kind,
    })))
}

fn end() -> SweepAnswer {
    SweepAnswer::Entry(None)
}

fn sweep(answers: Vec<SweepAnswer>) -> ChildSweep {
    answers
        .into_iter()
        .fold(ChildSweep::remove_children(), |s, a| s.on(a))
}

/// A child-cgroup sweep of a leaf that is already gone removes nothing, and is no failure.
#[test]
fn sweeping_a_leaf_that_is_already_gone_removes_nothing() {
    for gone in [libc::ENOENT, libc::ENODEV] {
        let swept = sweep(vec![SweepAnswer::Listed(Err(os(gone)))]);
        assert_eq!(swept.outcome().expect("ended").expect("sweep"), 0);
    }
}

/// Children go deepest first, and what is no directory is passed over.
#[test]
fn a_sweep_goes_deepest_first() {
    let mut state = ChildSweep::remove_children();
    let mut unlinked_at = Vec::new();
    for answer in vec![
        SweepAnswer::Listed(Ok(())),
        entry(".", EntryKind::Directory),
        entry("..", EntryKind::Unknown),
        entry("cgroup.procs", EntryKind::Other),
        entry("a", EntryKind::Directory),
        SweepAnswer::Entered(Ok(())),
        SweepAnswer::Listed(Ok(())),
        entry("b", EntryKind::Unknown),
        SweepAnswer::Mode(Ok(0o040755)),
        SweepAnswer::Entered(Ok(())),
        SweepAnswer::Listed(Ok(())),
        end(),
        SweepAnswer::Unlinked(Ok(())),
        end(),
        SweepAnswer::Unlinked(Ok(())),
        entry("file", EntryKind::Unknown),
        SweepAnswer::Mode(Ok(0o100644)),
        entry("gone", EntryKind::Unknown),
        SweepAnswer::Mode(Err(os(libc::ENOENT))),
        end(),
    ] {
        if matches!(state.step, SweepStep::Unlink) {
            unlinked_at.push(state.depth);
        }
        state = state.on(answer);
    }
    assert_eq!(unlinked_at, vec![1, 0], "b in a, then a in the leaf");
    assert_eq!(state.outcome().expect("ended").expect("sweep"), 2);
}

/// Mounts are never crossed by the child sweep; a busy child is left; anything else fails it.
#[test]
fn cgroup_the_child_sweep_never_crosses_a_mount() {
    let swept = sweep(vec![
        SweepAnswer::Listed(Ok(())),
        entry("sub", EntryKind::Directory),
        SweepAnswer::Entered(Err(os(libc::EXDEV))),
        end(),
    ]);
    assert_eq!(swept.outcome().expect("ended").expect("the sweep"), 0);
    let busy = sweep(vec![
        SweepAnswer::Listed(Ok(())),
        entry("sub", EntryKind::Directory),
        SweepAnswer::Entered(Ok(())),
        SweepAnswer::Listed(Ok(())),
        end(),
        SweepAnswer::Unlinked(Err(os(libc::EBUSY))),
        end(),
    ]);
    assert_eq!(busy.outcome().expect("ended").expect("the sweep"), 0);
    let refused = sweep(vec![SweepAnswer::Listed(Err(os(libc::EACCES)))]);
    assert_eq!(refused.outcome().expect("ended").expect_err("failed").errno, Some(libc::EACCES));
    assert!(ChildSweep::remove_children().outcome().is_none());
}

/// A directory's contents, and a host that answers as they are.
struct Tree {
    name: &'static str,
    below: Option<Vec<Tree>>,
}

fn dir(name: &'static str, below: Vec<Tree>) -> Tree {
    Tree {
        name,
        below: Some(below),
    }
}

fn file(name: &'static str) -> Tree {
    Tree { name, below: None }
}

/// On a host that answers as its directories are, every directory below the leaf goes, the count is
/// their number, and the files stay.
#[test]
fn a_sweep_removes_every_directory_below_the_leaf() {
    let leaf = vec![
        file("cgroup.procs"),
        dir("a", vec![file("f"), dir("b", vec![dir("c", vec![])]), dir("d", vec![file("g")])]),
        dir("e", vec![]),
        file("cgroup.kill"),
    ];
    // What is pending and what has been passed, in each directory that the sweep is in.
    let mut inside: Vec<(Vec<Tree>, Vec<Tree>)> = vec![(leaf, Vec::new())];
    let mut state = ChildSweep::remove_children();
    while !matches!(state.step, SweepStep::Done | SweepStep::Failed(_)) {
        let (pending, passed) = inside.last_mut().expect("in the leaf");
        let answer = match state.step {
            SweepStep::List => SweepAnswer::Listed(Ok(())),
            SweepStep::Next if pending.is_empty() => {
                if inside.len() > 1 {
                    let (_, kept) = inside.pop().expect("below the leaf");
                    inside.last_mut().and_then(|(_, passed)| passed.last_mut()).expect("entered").below = Some(kept);
                }
                end()
            }
            SweepStep::Next => {
                let next = pending.remove(0);
                let kind = match &next.below {
                    Some(_) => EntryKind::Directory,
                    None => EntryKind::Other,
                };
                let shown = entry(next.name, kind);
                passed.push(next);
                shown
            }
            SweepStep::Enter => {
                let below = passed.last_mut().and_then(|t| t.below.take()).expect("a directory");
                inside.push((below, Vec::new()));
                SweepAnswer::Entered(Ok(()))
            }
            SweepStep::Unlink => {
                let gone = passed.pop().and_then(|t| t.below).expect("a directory");
                assert!(gone.iter().all(|t| t.below.is_none()), "no directory is left in it");
                SweepAnswer::Unlinked(Ok(()))
            }
            _ => panic!("the listing says what everything is"),
        };
        state = state.on(answer);
    }
    assert_eq!(state.outcome().expect("ended").expect("swept"), 5);
    let names: Vec<&str> = inside[0].1.iter().map(|t| t.name).collect();
    assert_eq!(names, vec!["cgroup.procs", "cgroup.kill"]);
}

// Names and paths -----

/// A leaf's name carries 64 random bits past the pid and sequence number.
#[test]
fn leaf_names_carry_random_bits_past_the_pid_and_sequence() {
    let suffix = |name: String| {
        let parts = name.split('-').collect::<Vec<_>>();
        assert_eq!(parts.len(), 4, "cosca-<pid>-<seq>-<random>: {name}");
        assert_eq!((parts[0], parts[1]), ("cosca", "4242"));
        assert!(
            parts[3].len() == 16 && parts[3].bytes().all(|b| b.is_ascii_hexdigit()),
            "{name}"
        );
        parts[3].to_owned()
    };
    let a = suffix(leaf_name(4242, 0, 0x0123_4567_89ab_cdef));
    let b = suffix(leaf_name(4242, 1, 7));
    assert_ne!(a, b);
    assert_eq!(leaf_name(1, 20, 0xbeef), "cosca-1-20-000000000000beef");
    assert_eq!(a, "0123456789abcdef");
}

/// Every leaf of a process takes the next number, so no two share a name, whatever their random bits.
#[test]
fn leaves_of_one_process_take_consecutive_numbers() {
    let mut sequence = LeafSequence::new();
    assert_eq!(sequence.next_name(7, 1), "cosca-7-0-0000000000000001");
    assert_eq!(sequence.next_name(7, 1), "cosca-7-1-0000000000000001");
    assert_eq!((sequence.take_next(), sequence.take_next()), (2, 3));
    let mut last = LeafSequence { next: u64::MAX };
    assert_eq!((last.take_next(), last.take_next()), (u64::MAX, 0));
}

/// Paths through a descriptor name the calling thread's own.
#[test]
fn paths_are_exact() {
    assert_eq!(fd_path(17), "/proc/thread-self/fd/17");
    assert_eq!(fd_path(-1), "/proc/thread-self/fd/-1");
    assert_eq!(interface_path("/cg/l", "cgroup.kill"), "/cg/l/cgroup.kill");
    assert!(below_stdio_end(2) && !below_stdio_end(3));
}
