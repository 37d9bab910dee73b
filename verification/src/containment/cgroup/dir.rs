//! A leaf's directory: its name, holding it, removing it, and sweeping the child cgroups under it.
//!
//! Every operation on a leaf goes through a held descriptor, never through its path: a path is
//! resolved afresh on each use, so a mount over the leaf or its parent would redirect it.

use vstd::prelude::*;
use vstd::string::*;

use crate::errno;
use crate::errno::{removed_after_drain, ErrorKind, OsError};
use crate::report::{Level, Record};
use crate::text;

verus! {

/// The name of the leaf that the process `pid` makes as its `seq`th. The pid and the sequence number
/// repeat across pid namespaces that share a delegated parent, and across processes that reuse a
/// pid; the random part keeps anyone else from taking the name.
pub open spec fn spec_leaf_name(pid: u32, seq: u64, random: u64) -> Seq<char> {
    "cosca-"@ + text::decimal(pid as nat) + "-"@ + text::decimal(seq as nat) + "-"@ + text::hex(
        random as nat,
        16,
    )
}

/// The name of a new leaf: `cosca-<pid>-<seq>-<random>`, the random part in 16 hexadecimal digits.
pub fn leaf_name(pid: u32, seq: u64, random: u64) -> (s: String)
    ensures
        s@ == spec_leaf_name(pid, seq, random),
{
    let mut s = "cosca-".to_owned();
    text::push_decimal(&mut s, pid as u64);
    s.append("-");
    text::push_decimal(&mut s, seq);
    s.append("-");
    text::push_hex(&mut s, random, 16);
    s
}

/// The sequence number that comes `n` after `seq`. The numbers begin anew where the type ends.
pub open spec fn seq_after(seq: u64, n: nat) -> u64 {
    ((seq + n) % 0x1_0000_0000_0000_0000) as u64
}

/// The sequence numbers of one process's leaves: every leaf takes the next.
#[derive(Debug)]
pub struct LeafSequence {
    /// The number that the next leaf takes.
    pub next: u64,
}

impl LeafSequence {
    /// A sequence of which nothing is taken.
    pub fn new() -> (s: LeafSequence)
        ensures
            s.next == 0,
    {
        LeafSequence { next: 0 }
    }

    /// Take the next number.
    pub fn take_next(&mut self) -> (seq: u64)
        ensures
            seq == old(self).next,
            final(self).next == seq_after(old(self).next, 1),
    {
        let seq: u64 = self.next;
        self.next = seq.wrapping_add(1);
        seq
    }

    /// The name of the next leaf of the process `pid`, with the random part `random`.
    pub fn next_name(&mut self, pid: u32, random: u64) -> (s: String)
        ensures
            s@ == spec_leaf_name(pid, old(self).next, random),
            final(self).next == seq_after(old(self).next, 1),
    {
        let seq: u64 = self.take_next();
        leaf_name(pid, seq, random)
    }
}

/// Numbers taken one after another are those that come after the first, and two of them differ unless
/// the whole range of the type lies between them.
pub proof fn lemma_sequence(first: u64, i: nat, j: nat)
    ensures
        seq_after(first, 0) == first,
        seq_after(seq_after(first, i), 1) == seq_after(first, i + 1),
        i < j && j - i < 0x1_0000_0000_0000_0000 ==> seq_after(first, i) != seq_after(first, j),
{
    assert(((first + i) % 0x1_0000_0000_0000_0000 + 1) % 0x1_0000_0000_0000_0000 == (first + i + 1)
        % 0x1_0000_0000_0000_0000);
}

/// How the name of every leaf of the process `pid` begins.
pub open spec fn leaf_prefix(pid: u32) -> Seq<char> {
    "cosca-"@ + text::decimal(pid as nat) + "-"@
}

/// A leaf's name begins with its process's prefix, and is one component of a path.
pub proof fn lemma_leaf_name_form(pid: u32, seq: u64, random: u64)
    ensures
        leaf_prefix(pid).is_prefix_of(spec_leaf_name(pid, seq, random)),
        !spec_leaf_name(pid, seq, random).contains('/'),
{
    reveal_strlit("cosca-");
    reveal_strlit("-");
    let name = spec_leaf_name(pid, seq, random);
    let p = text::decimal(pid as nat);
    let s = text::decimal(seq as nat);
    let r = text::hex(random as nat, 16);
    text::lemma_decimal(pid as nat);
    text::lemma_decimal(seq as nat);
    text::lemma_hex_digits(random as nat, 16);
    let prefix = leaf_prefix(pid);
    assert(name =~= prefix + (s + "-"@ + r));
    assert(name.take(prefix.len() as int) =~= prefix);
    assert forall|i: int| 0 <= i < name.len() implies name[i] != '/' by {
        let a = 6int;
        let b = a + p.len();
        let c = b + 1 + s.len();
        if i < a {
            assert(name[i] == "cosca-"@[i]);
        } else if i < b {
            assert(name[i] == p[i - a]);
        } else if i == b {
            assert(name[i] == '-');
        } else if i < c {
            assert(name[i] == s[i - b - 1]);
        } else if i == c {
            assert(name[i] == '-');
        } else {
            assert(name[i] == r[i - c - 1]);
        }
    }
}

/// No two leaves share a name unless they share all three of its parts: the process, its sequence
/// number and the random part.
pub proof fn law_leaf_names_tell_leaves_apart(
    pid: u32,
    seq: u64,
    random: u64,
    other_pid: u32,
    other_seq: u64,
    other_random: u64,
)
    requires
        spec_leaf_name(pid, seq, random) == spec_leaf_name(other_pid, other_seq, other_random),
    ensures
        pid == other_pid,
        seq == other_seq,
        random == other_random,
{
    let (p, s, r) = lemma_name_parts(pid, seq, random);
    let (q, t, u) = lemma_name_parts(other_pid, other_seq, other_random);
    assert(p == q && s == t && r == u);
    text::lemma_decimal(pid as nat);
    text::lemma_decimal(other_pid as nat);
    text::lemma_decimal(seq as nat);
    text::lemma_decimal(other_seq as nat);
    text::lemma_hex_tells_apart(random as nat, other_random as nat, 16);
    text::lemma_hex_holds_u64(random);
    text::lemma_hex_holds_u64(other_random);
}

/// The parts of a leaf's name, each found in the name itself: what stands between its dashes.
proof fn lemma_name_parts(pid: u32, seq: u64, random: u64) -> (r: (Seq<char>, Seq<char>, Seq<char>))
    ensures
        r == name_parts(spec_leaf_name(pid, seq, random)),
        r.0 == text::decimal(pid as nat),
        r.1 == text::decimal(seq as nat),
        r.2 == text::hex(random as nat, 16),
{
    reveal_strlit("cosca-");
    reveal_strlit("-");
    let name = spec_leaf_name(pid, seq, random);
    let p = text::decimal(pid as nat);
    let s = text::decimal(seq as nat);
    let r = text::hex(random as nat, 16);
    text::lemma_decimal(pid as nat);
    text::lemma_decimal(seq as nat);
    let tail = name.skip(6);
    assert(tail =~= p + seq!['-'] + s + seq!['-'] + r);
    assert forall|i: int| 0 <= i < p.len() implies tail[i] != '-' by {
        assert(tail[i] == p[i]);
    }
    assert(tail[p.len() as int] == '-');
    text::lemma_first_index_is(tail, '-', p.len() as int);
    let rest = tail.skip(p.len() + 1int);
    assert(rest =~= s + seq!['-'] + r);
    assert forall|i: int| 0 <= i < s.len() implies rest[i] != '-' by {
        assert(rest[i] == s[i]);
    }
    assert(rest[s.len() as int] == '-');
    text::lemma_first_index_is(rest, '-', s.len() as int);
    assert(tail.take(p.len() as int) =~= p);
    assert(rest.take(s.len() as int) =~= s);
    assert(rest.skip(s.len() + 1int) =~= r);
    (p, s, r)
}

/// What stands between the dashes of a name, past its first one.
spec fn name_parts(name: Seq<char>) -> (Seq<char>, Seq<char>, Seq<char>) {
    let tail = name.skip(6);
    let first = text::first_index(tail, '-');
    let rest = tail.skip(first + 1);
    let second = text::first_index(rest, '-');
    (tail.take(first), rest.take(second), rest.skip(second + 1))
}

/// A path through which a watch or an open reaches the inode of the descriptor `fd`, whatever is
/// mounted over its path since. `thread-self`, not `self`: a thread can have a descriptor table of
/// its own, and `self` shows the thread-group leader's.
pub fn fd_path(fd: i32) -> (s: String)
    ensures
        s@ == "/proc/thread-self/fd/"@ + text::signed_decimal(fd as int),
{
    let mut s = "/proc/thread-self/fd/".to_owned();
    text::push_signed(&mut s, fd);
    s
}

/// Whether the descriptor `fd` has to be moved to 3 or above. A descriptor that a leaf holds must not
/// share its number with a closed stdio slot: the child's stdio is put into those.
pub fn below_stdio_end(fd: i32) -> (r: bool)
    ensures
        r == (fd < 3),
{
    fd < 3
}

/// The path of the interface file `file` in the leaf at `leaf_path`.
pub fn interface_path(leaf_path: &str, file: &str) -> (s: String)
    ensures
        s@ == leaf_path@ + "/"@ + file@,
{
    let mut s = leaf_path.to_owned();
    s.append("/");
    s.append(file);
    s
}

/// A leaf being created and held: what to do next, or how it ended.
#[derive(Debug)]
pub enum Holding {
    /// Open the parent.
    OpenParent,
    /// Make the leaf's directory.
    MakeDir,
    /// Open the leaf's directory.
    OpenDir,
    /// The directory just made could not be opened, with this error: remove it. It is still empty,
    /// since nothing is placed in a leaf before it is held.
    Unmake(OsError),
    Held,
    /// It failed, with this error; the directory could not be removed, where there is a second.
    Failed(OsError, Option<OsError>),
}

impl Holding {
    /// How the creation goes on.
    pub open spec fn spec_on(self, answer: Result<(), OsError>) -> Holding {
        match (self, answer) {
            (Holding::OpenParent, Ok(())) => Holding::MakeDir,
            (Holding::OpenParent, Err(e)) => Holding::Failed(e, None),
            (Holding::MakeDir, Ok(())) => Holding::OpenDir,
            (Holding::MakeDir, Err(e)) => Holding::Failed(e, None),
            (Holding::OpenDir, Ok(())) => Holding::Held,
            (Holding::OpenDir, Err(e)) => Holding::Unmake(e),
            (Holding::Unmake(source), Ok(())) => Holding::Failed(source, None),
            (Holding::Unmake(source), Err(e)) => Holding::Failed(source, Some(e)),
            _ => self,
        }
    }

    /// Begin to create a leaf's directory and hold it.
    pub fn create() -> (h: Holding)
        ensures
            h == Holding::OpenParent,
    {
        Holding::OpenParent
    }

    /// Go on with what the host answered.
    pub fn on(self, answer: Result<(), OsError>) -> (h: Holding)
        ensures
            h == self.spec_on(answer),
    {
        match (self, answer) {
            (Holding::OpenParent, Ok(())) => Holding::MakeDir,
            (Holding::OpenParent, Err(e)) => Holding::Failed(e, None),
            (Holding::MakeDir, Ok(())) => Holding::OpenDir,
            (Holding::MakeDir, Err(e)) => Holding::Failed(e, None),
            (Holding::OpenDir, Ok(())) => Holding::Held,
            (Holding::OpenDir, Err(e)) => Holding::Unmake(e),
            (Holding::Unmake(source), Ok(())) => Holding::Failed(source, None),
            (Holding::Unmake(source), Err(e)) => Holding::Failed(source, Some(e)),
            (state, _) => state,
        }
    }
}

/// What is said of a leaf that was made, could not be held, and could not be removed.
pub open spec fn unheld_text(name: Seq<char>, source: OsError, rmdir: OsError) -> Seq<char> {
    "cgroup leaf "@ + name + " was not removed: rmdir failed ("@ + rmdir.text@
        + ") after it could not be opened ("@ + source.text@
        + "); it stays on this host until a cgroup manager reaps it"@
}

/// The record of a leaf that was made, could not be held, and could not be removed.
pub fn unheld_record(name: &str, source: &OsError, rmdir: &OsError) -> (r: Record)
    ensures
        r.level == Level::Warn,
        r.message@ == unheld_text(name@, *source, *rmdir),
{
    let mut s = "cgroup leaf ".to_owned();
    s.append(name);
    s.append(" was not removed: rmdir failed (");
    s.append(rmdir.text.as_str());
    s.append(") after it could not be opened (");
    s.append(source.text.as_str());
    s.append("); it stays on this host until a cgroup manager reaps it");
    Record { level: Level::Warn, message: s }
}

/// A directory, told apart from every other: its device and inode.
#[derive(Debug, Clone, Copy, PartialEq, Eq, Structural)]
pub struct DirId {
    pub device: u64,
    pub inode: u64,
}

/// A leaf's removal from its parent: what to do next, or how it ended.
///
/// The removal goes by name, so the name's inode is checked against the held leaf's first. Whatever
/// else holds the name is left alone.
#[derive(Debug)]
pub enum Rmdir {
    /// Identify the held directory.
    StatHeld,
    /// Identify what the leaf's name names, following no link.
    StatNamed(DirId),
    /// The name names something else: see whether the held leaf still answers.
    CheckLive,
    /// Remove the name.
    Unlink,
    Done(Result<(), OsError>),
}

/// What the host answered.
#[derive(Debug)]
pub enum RmdirAnswer {
    Id(Result<DirId, OsError>),
    Live(Result<(), OsError>),
    Unlinked(Result<(), OsError>),
}

impl Rmdir {
    /// Whether the removal goes on to `next` on `answer`. A leaf that is gone while something else
    /// has its name fails with `ENOENT`; one that is still there fails with `EEXIST`.
    pub open spec fn steps(self, answer: RmdirAnswer, next: Rmdir) -> bool {
        match (self, answer) {
            (Rmdir::StatHeld, RmdirAnswer::Id(Ok(held))) => next == Rmdir::StatNamed(held),
            (Rmdir::StatHeld, RmdirAnswer::Id(Err(e))) => next == Rmdir::Done(Err(e)),
            (Rmdir::StatNamed(held), RmdirAnswer::Id(Ok(named))) => next == (if named == held {
                Rmdir::Unlink
            } else {
                Rmdir::CheckLive
            }),
            (Rmdir::StatNamed(_), RmdirAnswer::Id(Err(e))) => next == Rmdir::Done(Err(e)),
            (Rmdir::CheckLive, RmdirAnswer::Live(live)) => next matches Rmdir::Done(Err(e)) && {
                let code = if live matches Err(l) && errno::gone(l) {
                    errno::ENOENT
                } else {
                    errno::EEXIST
                };
                &&& e.errno == Some(code)
                &&& e.kind == ErrorKind::Os
                &&& errno::is_os_error_text(code, e.text@)
            },
            (Rmdir::Unlink, RmdirAnswer::Unlinked(r)) => next == Rmdir::Done(r),
            _ => next == self,
        }
    }

    /// Begin a removal.
    pub fn rmdir() -> (r: Rmdir)
        ensures
            r == Rmdir::StatHeld,
    {
        Rmdir::StatHeld
    }

    /// Go on with what the host answered.
    pub fn on(self, answer: RmdirAnswer) -> (next: Rmdir)
        ensures
            self.steps(answer, next),
    {
        match (self, answer) {
            (Rmdir::StatHeld, RmdirAnswer::Id(Ok(held))) => Rmdir::StatNamed(held),
            (Rmdir::StatHeld, RmdirAnswer::Id(Err(e))) => Rmdir::Done(Err(e)),
            (Rmdir::StatNamed(held), RmdirAnswer::Id(Ok(named))) => if named == held {
                Rmdir::Unlink
            } else {
                Rmdir::CheckLive
            },
            (Rmdir::StatNamed(_), RmdirAnswer::Id(Err(e))) => Rmdir::Done(Err(e)),
            (Rmdir::CheckLive, RmdirAnswer::Live(live)) => {
                let dead = match &live {
                    Err(e) => removed_after_drain(e),
                    Ok(()) => false,
                };
                let errno: i32 = if dead {
                    errno::ENOENT
                } else {
                    errno::EEXIST
                };
                Rmdir::Done(Err(OsError::from_raw_os_error(errno)))
            },
            (Rmdir::Unlink, RmdirAnswer::Unlinked(r)) => Rmdir::Done(r),
            (state, _) => state,
        }
    }
}

/// A stranger is never removed: the name is unlinked only right after it was seen to name the held
/// leaf.
pub proof fn law_only_the_held_leaf_is_unlinked(before: Rmdir, answer: RmdirAnswer, after: Rmdir)
    requires
        before.steps(answer, after),
        after is Unlink,
        !(before is Unlink),
    ensures
        before matches Rmdir::StatNamed(held) && answer == RmdirAnswer::Id(Ok(held)),
{
}

/// Whether the file mode `mode` is a directory's.
pub open spec fn directory_mode(mode: u32) -> bool {
    mode & 0o170000 == 0o040000
}

/// Whether `rustix::fs::FileType::from_raw_mode` reads the mode as a directory's: its file-type bits,
/// under the mask `S_IFMT`, are `S_IFDIR`.
#[verifier::external_body]
fn is_directory_mode(mode: u32) -> (r: bool)
    ensures
        r == directory_mode(mode),
{
    rustix::fs::FileType::from_raw_mode(mode) == rustix::fs::FileType::Directory
}

/// What a directory listing says an entry is.
#[derive(Debug, Clone, Copy, PartialEq, Eq, Structural)]
pub enum EntryKind {
    Directory,
    /// The listing does not say.
    Unknown,
    Other,
}

/// An entry of a directory listing.
#[derive(Debug)]
pub struct Entry {
    pub name: Vec<u8>,
    pub kind: EntryKind,
}

/// Whether `name` is `.` or `..`.
pub open spec fn is_dots(name: Seq<u8>) -> bool {
    name == seq![46u8] || name == seq![46u8, 46u8]
}

fn names_dots(name: &Vec<u8>) -> (r: bool)
    ensures
        r == is_dots(name@),
{
    let one = name.len() == 1 && name[0] == 46;
    let two = name.len() == 2 && name[0] == 46 && name[1] == 46;
    proof {
        if one {
            assert(name@ =~= seq![46u8]);
        }
        if two {
            assert(name@ =~= seq![46u8, 46u8]);
        }
        if name@ == seq![46u8] {
            assert(name@.len() == 1 && name@[0] == 46u8);
        }
        if name@ == seq![46u8, 46u8] {
            assert(name@.len() == 2 && name@[0] == 46u8 && name@[1] == 46u8);
        }
    }
    one || two
}

/// What a sweep does next.
#[derive(Debug)]
pub enum SweepStep {
    /// List the directory the sweep is in.
    List,
    /// Take its next entry.
    Next,
    /// Read the entry's mode, following no link.
    Stat,
    /// Enter the entry, crossing no mount and following no link.
    Enter,
    /// Remove, from the directory the sweep is in, the child it has just come out of.
    Unlink,
    Done,
    Failed(OsError),
}

/// What the host answered.
#[derive(Debug)]
pub enum SweepAnswer {
    Listed(Result<(), OsError>),
    /// The next entry; `None` at the end of the listing.
    Entry(Option<Result<Entry, OsError>>),
    Mode(Result<u32, OsError>),
    Entered(Result<(), OsError>),
    Unlinked(Result<(), OsError>),
}

/// A sweep of the child cgroups under a leaf, deepest first. A child that `rmdir` refuses as busy is
/// left for the caller's next kill; a directory already gone has nothing left to remove.
#[derive(Debug)]
pub struct ChildSweep {
    pub step: SweepStep,
    /// How far below the leaf the sweep is.
    pub depth: usize,
    /// How many children it has removed.
    pub removed: usize,
}

impl ChildSweep {
    /// Out of the directory it is in: at the leaf, the sweep is done; below it, the child just left
    /// is to be removed.
    pub open spec fn leave(self) -> ChildSweep {
        if self.depth == 0 {
            ChildSweep { step: SweepStep::Done, ..self }
        } else {
            ChildSweep { step: SweepStep::Unlink, depth: (self.depth - 1) as usize, ..self }
        }
    }

    /// On to `step`.
    pub open spec fn to(self, step: SweepStep) -> ChildSweep {
        ChildSweep { step, ..self }
    }

    /// How the sweep goes on. An answer to something that was not asked changes nothing.
    pub open spec fn spec_on(self, answer: SweepAnswer) -> ChildSweep {
        match (self.step, answer) {
            (SweepStep::List, SweepAnswer::Listed(Ok(()))) => self.to(SweepStep::Next),
            (SweepStep::List, SweepAnswer::Listed(Err(e))) => if errno::gone(e) {
                self.leave()
            } else {
                self.to(SweepStep::Failed(e))
            },
            (SweepStep::Next, SweepAnswer::Entry(None)) => self.leave(),
            (SweepStep::Next, SweepAnswer::Entry(Some(Err(e)))) => if errno::gone(e) {
                self.leave()
            } else {
                self.to(SweepStep::Failed(e))
            },
            (SweepStep::Next, SweepAnswer::Entry(Some(Ok(entry)))) => if is_dots(entry.name@) {
                self.to(SweepStep::Next)
            } else {
                // A cgroup's own interface files are files; its child cgroups are directories.
                match entry.kind {
                    EntryKind::Directory => self.to(SweepStep::Enter),
                    EntryKind::Unknown => self.to(SweepStep::Stat),
                    EntryKind::Other => self.to(SweepStep::Next),
                }
            },
            (SweepStep::Stat, SweepAnswer::Mode(Ok(mode))) => if directory_mode(mode) {
                self.to(SweepStep::Enter)
            } else {
                self.to(SweepStep::Next)
            },
            (SweepStep::Stat, SweepAnswer::Mode(Err(e))) => if errno::gone(e) {
                self.to(SweepStep::Next)
            } else {
                self.to(SweepStep::Failed(e))
            },
            (SweepStep::Enter, SweepAnswer::Entered(Ok(()))) => ChildSweep {
                step: SweepStep::List,
                depth: (self.depth + 1) as usize,
                ..self
            },
            // A mount on a child cgroup shows some other directory, whose contents are not the
            // leaf's to remove.
            (SweepStep::Enter, SweepAnswer::Entered(Err(e))) => if errno::gone(e) || e.errno == Some(
                errno::EXDEV,
            ) {
                self.to(SweepStep::Next)
            } else {
                self.to(SweepStep::Failed(e))
            },
            (SweepStep::Unlink, SweepAnswer::Unlinked(Ok(()))) => ChildSweep {
                step: SweepStep::Next,
                removed: (self.removed + 1) as usize,
                ..self
            },
            (SweepStep::Unlink, SweepAnswer::Unlinked(Err(e))) => if errno::gone(e) || e.errno
                == Some(errno::EBUSY) {
                self.to(SweepStep::Next)
            } else {
                self.to(SweepStep::Failed(e))
            },
            _ => self,
        }
    }

    /// Begin a sweep of what is under a leaf.
    pub fn remove_children() -> (s: ChildSweep)
        ensures
            s == (ChildSweep { step: SweepStep::List, depth: 0, removed: 0 }),
    {
        ChildSweep { step: SweepStep::List, depth: 0, removed: 0 }
    }

    fn left(self) -> (s: ChildSweep)
        ensures
            s == self.leave(),
    {
        if self.depth == 0 {
            ChildSweep { step: SweepStep::Done, depth: self.depth, removed: self.removed }
        } else {
            ChildSweep { step: SweepStep::Unlink, depth: self.depth - 1, removed: self.removed }
        }
    }

    fn moved(self, step: SweepStep) -> (s: ChildSweep)
        ensures
            s == self.to(step),
    {
        ChildSweep { step, depth: self.depth, removed: self.removed }
    }

    /// Go on with what the host answered. The counts must have room for one more.
    pub fn on(self, answer: SweepAnswer) -> (s: ChildSweep)
        requires
            self.depth < usize::MAX,
            self.removed < usize::MAX,
        ensures
            s == self.spec_on(answer),
    {
        let ChildSweep { step, depth, removed } = self;
        let at = ChildSweep { step: SweepStep::Next, depth, removed };
        match (step, answer) {
            (SweepStep::List, SweepAnswer::Listed(Ok(()))) => at,
            (SweepStep::List, SweepAnswer::Listed(Err(e))) => if removed_after_drain(&e) {
                at.left()
            } else {
                at.moved(SweepStep::Failed(e))
            },
            (SweepStep::Next, SweepAnswer::Entry(None)) => at.left(),
            (SweepStep::Next, SweepAnswer::Entry(Some(Err(e)))) => if removed_after_drain(&e) {
                at.left()
            } else {
                at.moved(SweepStep::Failed(e))
            },
            (SweepStep::Next, SweepAnswer::Entry(Some(Ok(entry)))) => if names_dots(&entry.name) {
                at
            } else {
                match entry.kind {
                    EntryKind::Directory => at.moved(SweepStep::Enter),
                    EntryKind::Unknown => at.moved(SweepStep::Stat),
                    EntryKind::Other => at,
                }
            },
            (SweepStep::Stat, SweepAnswer::Mode(Ok(mode))) => if is_directory_mode(mode) {
                at.moved(SweepStep::Enter)
            } else {
                at
            },
            (SweepStep::Stat, SweepAnswer::Mode(Err(e))) => if removed_after_drain(&e) {
                at
            } else {
                at.moved(SweepStep::Failed(e))
            },
            (SweepStep::Enter, SweepAnswer::Entered(Ok(()))) => ChildSweep {
                step: SweepStep::List,
                depth: depth + 1,
                removed,
            },
            (SweepStep::Enter, SweepAnswer::Entered(Err(e))) => if removed_after_drain(&e)
                || e.is_errno(errno::EXDEV) {
                at
            } else {
                at.moved(SweepStep::Failed(e))
            },
            (SweepStep::Unlink, SweepAnswer::Unlinked(Ok(()))) => ChildSweep {
                step: SweepStep::Next,
                depth,
                removed: removed + 1,
            },
            (SweepStep::Unlink, SweepAnswer::Unlinked(Err(e))) => if removed_after_drain(&e)
                || e.is_errno(errno::EBUSY) {
                at
            } else {
                at.moved(SweepStep::Failed(e))
            },
            (step, _) => ChildSweep { step, depth, removed },
        }
    }

    /// How the sweep ended, once it has: how many children it removed, or why it stopped.
    pub fn outcome(self) -> (r: Option<Result<usize, OsError>>)
        ensures
            r == (match self.step {
                SweepStep::Done => Some(Ok::<usize, OsError>(self.removed)),
                SweepStep::Failed(e) => Some(Err(e)),
                _ => None,
            }),
    {
        match self.step {
            SweepStep::Done => Some(Ok(self.removed)),
            SweepStep::Failed(e) => Some(Err(e)),
            _ => None,
        }
    }
}

/// A sweep removes a child only when it has come out of it, one directory at a time: deepest first.
/// It never goes into one that it could not enter, so it crosses no mount; and the leaf itself, at
/// depth 0, is never what is removed.
pub proof fn law_deepest_first(before: ChildSweep, answer: SweepAnswer)
    requires
        before.depth < usize::MAX,
        before.removed < usize::MAX,
    ensures
        ({
            let after = before.spec_on(answer);
            &&& after.step is Unlink && !(before.step is Unlink) ==> before.depth == after.depth + 1
                && (before.step is List || before.step is Next)
            &&& after.depth > before.depth ==> before.step is Enter && after.depth == before.depth
                + 1 && (answer matches SweepAnswer::Entered(Ok(_)))
            &&& after.depth < before.depth ==> after.step is Unlink
            &&& after.step is Done && !(before.step is Done) ==> before.depth == 0
        }),
{
}

/// Where a sweep stands after the host's answers, in turn.
pub open spec fn sweep_run(answers: Seq<SweepAnswer>) -> ChildSweep
    decreases answers.len(),
{
    if answers.len() == 0 {
        ChildSweep { step: SweepStep::List, depth: 0, removed: 0 }
    } else {
        sweep_run(answers.drop_last()).spec_on(answers.last())
    }
}

/// How many of `answers` are removals that the sweep asked for and got.
pub open spec fn removals(answers: Seq<SweepAnswer>) -> nat
    decreases answers.len(),
{
    if answers.len() == 0 {
        0
    } else {
        let asked = sweep_run(answers.drop_last()).step is Unlink;
        removals(answers.drop_last()) + (if asked && answers.last()
            matches SweepAnswer::Unlinked(Ok(_)) {
            1nat
        } else {
            0
        })
    }
}

/// The count is that of the children removed, no more and no fewer.
pub proof fn law_the_count_is_of_the_removed(answers: Seq<SweepAnswer>)
    requires
        answers.len() <= usize::MAX,
    ensures
        sweep_run(answers).removed == removals(answers),
        removals(answers) <= answers.len(),
    decreases answers.len(),
{
    if answers.len() > 0 {
        law_the_count_is_of_the_removed(answers.drop_last());
    }
}

/// What lies in a directory: an entry as a listing shows it, its file mode, and, of a directory, what
/// lies in it.
#[verifier::ext_equal]
pub struct Node {
    pub entry: Entry,
    pub mode: u32,
    pub below: Seq<Node>,
}

impl Node {
    /// Whether this is a child directory. A listing that does not say what an entry is leaves it to
    /// the mode; `.` and `..` are no children.
    pub open spec fn is_child_dir(self) -> bool {
        !is_dots(self.entry.name@) && match self.entry.kind {
            EntryKind::Directory => true,
            EntryKind::Unknown => directory_mode(self.mode),
            EntryKind::Other => false,
        }
    }

    /// How many child directories this is and holds, at any depth.
    pub open spec fn dirs(self) -> nat
        decreases self,
    {
        if self.is_child_dir() {
            1 + dirs_in(self.below)
        } else {
            0
        }
    }

    /// How many answers a sweep takes over this.
    pub open spec fn steps(self) -> nat
        decreases self,
    {
        let looks: nat = if !is_dots(self.entry.name@) && self.entry.kind == EntryKind::Unknown {
            2
        } else {
            1
        };
        if self.is_child_dir() {
            looks + 2 + steps_in(self.below) + 2
        } else {
            looks
        }
    }
}

/// How many child directories there are among `nodes` and below them.
pub open spec fn dirs_in(nodes: Seq<Node>) -> nat
    decreases nodes,
{
    if nodes.len() == 0 {
        0
    } else {
        nodes[0].dirs() + dirs_in(nodes.subrange(1, nodes.len() as int))
    }
}

/// How many answers a sweep takes over `nodes`.
pub open spec fn steps_in(nodes: Seq<Node>) -> nat
    decreases nodes,
{
    if nodes.len() == 0 {
        0
    } else {
        nodes[0].steps() + steps_in(nodes.subrange(1, nodes.len() as int))
    }
}

/// What is left of `nodes` without the child directories among them.
pub open spec fn without_dirs(nodes: Seq<Node>) -> Seq<Node> {
    nodes.filter(|node: Node| !node.is_child_dir())
}

/// A directory that a sweep is in: what lies in it, split where the listing stands. What the listing
/// showed last is the last before the split.
#[verifier::ext_equal]
pub struct Shown {
    pub passed: Seq<Node>,
    pub pending: Seq<Node>,
}

/// A host that answers a sweep as its directories are: those that the sweep is in, from the leaf down.
#[verifier::ext_equal]
pub struct SweptHost {
    pub inside: Seq<Shown>,
}

impl SweptHost {
    /// A host whose leaf holds `nodes`.
    pub open spec fn new(nodes: Seq<Node>) -> SweptHost {
        SweptHost { inside: seq![Shown { passed: Seq::empty(), pending: nodes }] }
    }

    /// With the innermost directory as `shown`.
    pub open spec fn with_last(self, shown: Shown) -> SweptHost {
        SweptHost { inside: self.inside.drop_last().push(shown) }
    }

    /// What the host answers to `step`. It removes a directory that holds no other, and refuses any
    /// other with `busy`.
    pub open spec fn answer(self, step: SweepStep, busy: OsError) -> SweepAnswer {
        let here = self.inside.last();
        match step {
            SweepStep::List => SweepAnswer::Listed(Ok(())),
            SweepStep::Next => if here.pending.len() == 0 {
                SweepAnswer::Entry(None)
            } else {
                SweepAnswer::Entry(Some(Ok(here.pending[0].entry)))
            },
            SweepStep::Stat => SweepAnswer::Mode(Ok(here.passed.last().mode)),
            SweepStep::Enter => SweepAnswer::Entered(Ok(())),
            _ => if dirs_in(here.passed.last().below) == 0 {
                SweepAnswer::Unlinked(Ok(()))
            } else {
                SweepAnswer::Unlinked(Err(busy))
            },
        }
    }

    /// What becomes of the host's directories as it answers `step`.
    pub open spec fn after(self, step: SweepStep) -> SweptHost {
        let here = self.inside.last();
        match step {
            SweepStep::Next => if here.pending.len() > 0 {
                self.with_last(
                    Shown {
                        passed: here.passed.push(here.pending[0]),
                        pending: here.pending.subrange(1, here.pending.len() as int),
                    },
                )
            } else if self.inside.len() > 1 {
                // The listing is at its end, so the sweep is back in the directory above.
                let above = SweptHost { inside: self.inside.drop_last() };
                let around = above.inside.last();
                let left = Node { below: here.passed, ..around.passed.last() };
                above.with_last(Shown { passed: around.passed.drop_last().push(left), ..around })
            } else {
                self
            },
            SweepStep::Enter => SweptHost {
                inside: self.inside.push(
                    Shown { passed: Seq::empty(), pending: here.passed.last().below },
                ),
            },
            SweepStep::Unlink => if dirs_in(here.passed.last().below) == 0 {
                self.with_last(Shown { passed: here.passed.drop_last(), ..here })
            } else {
                self
            },
            _ => self,
        }
    }
}

/// A sweep and the host it runs on, `n` answers on.
pub open spec fn swept(sweep: ChildSweep, host: SweptHost, busy: OsError, n: nat) -> (
    ChildSweep,
    SweptHost,
)
    decreases n,
{
    if n == 0 {
        (sweep, host)
    } else {
        swept(
            sweep.spec_on(host.answer(sweep.step, busy)),
            host.after(sweep.step),
            busy,
            (n - 1) as nat,
        )
    }
}

proof fn lemma_swept_on(sweep: ChildSweep, host: SweptHost, busy: OsError, m: nat, n: nat)
    ensures
        swept(sweep, host, busy, m + n) == swept(
            swept(sweep, host, busy, m).0,
            swept(sweep, host, busy, m).1,
            busy,
            n,
        ),
    decreases m,
{
    if m > 0 {
        lemma_swept_on(
            sweep.spec_on(host.answer(sweep.step, busy)),
            host.after(sweep.step),
            busy,
            (m - 1) as nat,
            n,
        );
        assert(((m + n) - 1) as nat == (m - 1) as nat + n);
    }
}

proof fn lemma_without_dirs(nodes: Seq<Node>)
    ensures
        dirs_in(without_dirs(nodes)) == 0,
        nodes.len() > 0 ==> without_dirs(nodes) == (if nodes[0].is_child_dir() {
            Seq::empty()
        } else {
            seq![nodes[0]]
        }) + without_dirs(nodes.subrange(1, nodes.len() as int)),
    decreases nodes.len(),
{
    let keep = |node: Node| !node.is_child_dir();
    if nodes.len() > 0 {
        let rest = nodes.subrange(1, nodes.len() as int);
        let first = seq![nodes[0]];
        lemma_without_dirs(rest);
        assert(nodes =~= first + rest);
        Seq::filter_distributes_over_add(first, rest, keep);
        assert(first.drop_last() =~= Seq::<Node>::empty());
        assert(first.filter(keep) =~= (if keep(nodes[0]) { first } else { Seq::empty() })) by {
            reveal_with_fuel(Seq::filter, 2);
        }
        let kept = without_dirs(nodes);
        if nodes[0].is_child_dir() {
            assert(kept =~= without_dirs(rest));
        } else {
            assert(kept =~= first + without_dirs(rest));
            assert(kept[0] == nodes[0]);
            assert(kept.subrange(1, kept.len() as int) =~= without_dirs(rest));
            assert(nodes[0].dirs() == 0);
            assert(dirs_in(kept) == kept[0].dirs() + dirs_in(kept.subrange(1, kept.len() as int)));
        }
    } else {
        reveal_with_fuel(Seq::filter, 1);
        assert(without_dirs(nodes) =~= Seq::<Node>::empty());
    }
}

/// Over what is still to be shown of the directory it is in, a sweep removes the directories, and only
/// those, and counts them.
proof fn lemma_swept_through(
    outer: Seq<Shown>,
    passed: Seq<Node>,
    nodes: Seq<Node>,
    removed: usize,
    busy: OsError,
)
    requires
        outer.len() + dirs_in(nodes) <= usize::MAX,
        removed + dirs_in(nodes) <= usize::MAX,
    ensures
        swept(
            ChildSweep { step: SweepStep::Next, depth: outer.len() as usize, removed },
            SweptHost { inside: outer.push(Shown { passed, pending: nodes }) },
            busy,
            steps_in(nodes),
        ) == (
            ChildSweep {
                step: SweepStep::Next,
                depth: outer.len() as usize,
                removed: (removed + dirs_in(nodes)) as usize,
            },
            SweptHost {
                inside: outer.push(
                    Shown { passed: passed + without_dirs(nodes), pending: Seq::empty() },
                ),
            },
        ),
    decreases nodes,
{
    let depth = outer.len() as usize;
    let start = ChildSweep { step: SweepStep::Next, depth, removed };
    let host = SweptHost { inside: outer.push(Shown { passed, pending: nodes }) };
    if nodes.len() == 0 {
        assert(without_dirs(nodes) =~= Seq::<Node>::empty()) by {
            reveal_with_fuel(Seq::filter, 1);
        }
        assert(passed + without_dirs(nodes) =~= passed);
        assert(nodes =~= Seq::empty());
    } else {
        let first = nodes[0];
        let rest = nodes.subrange(1, nodes.len() as int);
        lemma_without_dirs(nodes);
        lemma_swept_one(outer, passed, first, rest, removed, busy);
        let kept = if first.is_child_dir() {
            passed
        } else {
            passed.push(first)
        };
        let counted = (removed + first.dirs()) as usize;
        lemma_swept_through(outer, kept, rest, counted, busy);
        lemma_swept_on(start, host, busy, first.steps(), steps_in(rest));
        assert(seq![first] + rest =~= nodes);
        assert(kept + without_dirs(rest) =~= passed + without_dirs(nodes));
    }
}

/// The same over the one entry `first`.
proof fn lemma_swept_one(
    outer: Seq<Shown>,
    passed: Seq<Node>,
    first: Node,
    rest: Seq<Node>,
    removed: usize,
    busy: OsError,
)
    requires
        outer.len() + first.dirs() <= usize::MAX,
        removed + first.dirs() <= usize::MAX,
    ensures
        swept(
            ChildSweep { step: SweepStep::Next, depth: outer.len() as usize, removed },
            SweptHost { inside: outer.push(Shown { passed, pending: seq![first] + rest }) },
            busy,
            first.steps(),
        ) == (
            ChildSweep {
                step: SweepStep::Next,
                depth: outer.len() as usize,
                removed: (removed + first.dirs()) as usize,
            },
            SweptHost {
                inside: outer.push(
                    Shown {
                        passed: if first.is_child_dir() {
                            passed
                        } else {
                            passed.push(first)
                        },
                        pending: rest,
                    },
                ),
            },
        ),
    decreases first,
{
    let depth = outer.len() as usize;
    let at = |step: SweepStep| ChildSweep { step, depth, removed };
    let here = Shown { passed: passed.push(first), pending: rest };
    let start = at(SweepStep::Next);
    let nodes = seq![first] + rest;
    let host = SweptHost { inside: outer.push(Shown { passed, pending: nodes }) };
    let shown = SweptHost { inside: outer.push(here) };
    assert(nodes.subrange(1, nodes.len() as int) =~= rest);
    assert(host.inside.drop_last() =~= outer);
    assert(host.after(SweepStep::Next) == shown);
    assert(shown.inside.drop_last() =~= outer);
    let unknown = !is_dots(first.entry.name@) && first.entry.kind == EntryKind::Unknown;
    let looks: nat = if unknown {
        2
    } else {
        1
    };
    reveal_with_fuel(swept, 3);
    let looked = swept(start, host, busy, looks);
    assert(looked == (at(
        if first.is_child_dir() {
            SweepStep::Enter
        } else {
            SweepStep::Next
        },
    ), shown));
    if first.is_child_dir() {
        let within = outer.push(here);
        let below = first.below;
        let entered = SweptHost {
            inside: within.push(Shown { passed: Seq::empty(), pending: below }),
        };
        assert(shown.after(SweepStep::Enter) == entered);
        let deeper = ChildSweep { step: SweepStep::Next, depth: (depth + 1) as usize, removed };
        assert(swept(at(SweepStep::Enter), shown, busy, 2) == (deeper, entered));
        lemma_swept_through(within, Seq::empty(), below, removed, busy);
        let counted = (removed + dirs_in(below)) as usize;
        let kept = without_dirs(below);
        assert(Seq::<Node>::empty() + kept =~= kept);
        let emptied = SweptHost {
            inside: within.push(Shown { passed: kept, pending: Seq::empty() }),
        };
        let ended = ChildSweep { step: SweepStep::Next, depth: (depth + 1) as usize, removed: counted };
        assert(swept(deeper, entered, busy, steps_in(below)) == (ended, emptied));
        // Out of it again, and it goes.
        lemma_without_dirs(below);
        let left = Node { below: kept, ..first };
        let around = SweptHost {
            inside: outer.push(Shown { passed: passed.push(left), pending: rest }),
        };
        assert(emptied.inside.drop_last() =~= within);
        assert(within.drop_last() =~= outer);
        assert(passed.push(first).drop_last() =~= passed);
        assert(emptied.after(SweepStep::Next) == around);
        assert(passed.push(left).drop_last() =~= passed);
        assert(around.inside.drop_last() =~= outer);
        let gone = SweptHost { inside: outer.push(Shown { passed, pending: rest }) };
        assert(around.after(SweepStep::Unlink) == gone);
        let unlink = ChildSweep { step: SweepStep::Unlink, depth, removed: counted };
        assert(ended.spec_on(emptied.answer(SweepStep::Next, busy)) == unlink);
        let done = ChildSweep { step: SweepStep::Next, depth, removed: (counted + 1) as usize };
        assert(unlink.spec_on(around.answer(SweepStep::Unlink, busy)) == done);
        assert(swept(ended, emptied, busy, 2) == (done, gone));
        lemma_swept_on(deeper, entered, busy, steps_in(below), 2);
        lemma_swept_on(at(SweepStep::Enter), shown, busy, 2, steps_in(below) + 2);
        lemma_swept_on(start, host, busy, looks, 2 + (steps_in(below) + 2));
        assert(first.steps() == looks + (2 + (steps_in(below) + 2)));
    }
}

/// On a host that answers as its directories are, a sweep ends having removed every directory below
/// the leaf, at whatever depth; the count is their number; and whatever else lies in the leaf, and the
/// leaf itself, stay. Nothing on the way is refused: each directory is empty of others by its turn.
pub proof fn law_a_sweep_removes_every_directory_below_the_leaf(nodes: Seq<Node>, busy: OsError)
    requires
        dirs_in(nodes) < usize::MAX,
    ensures
        swept(
            ChildSweep { step: SweepStep::List, depth: 0, removed: 0 },
            SweptHost::new(nodes),
            busy,
            steps_in(nodes) + 2,
        ) == (
            ChildSweep { step: SweepStep::Done, depth: 0, removed: dirs_in(nodes) as usize },
            SweptHost {
                inside: seq![Shown { passed: without_dirs(nodes), pending: Seq::empty() }],
            },
        ),
        dirs_in(without_dirs(nodes)) == 0,
{
    let outer = Seq::<Shown>::empty();
    let list = ChildSweep { step: SweepStep::List, depth: 0, removed: 0 };
    let next = ChildSweep { step: SweepStep::Next, depth: 0, removed: 0 };
    let host = SweptHost::new(nodes);
    let inside = outer.push(Shown { passed: Seq::empty(), pending: nodes });
    assert(host.inside =~= inside);
    lemma_swept_through(outer, Seq::empty(), nodes, 0, busy);
    lemma_without_dirs(nodes);
    assert(Seq::<Node>::empty() + without_dirs(nodes) =~= without_dirs(nodes));
    reveal_with_fuel(swept, 2);
    assert(swept(list, host, busy, 1) == (next, host));
    let ended = ChildSweep { step: SweepStep::Next, depth: 0, removed: dirs_in(nodes) as usize };
    let emptied = SweptHost {
        inside: outer.push(Shown { passed: without_dirs(nodes), pending: Seq::empty() }),
    };
    assert(swept(ended, emptied, busy, 1) == (
        ChildSweep { step: SweepStep::Done, depth: 0, removed: dirs_in(nodes) as usize },
        emptied,
    ));
    lemma_swept_on(next, host, busy, steps_in(nodes), 1);
    lemma_swept_on(list, host, busy, 1, steps_in(nodes) + 1);
    assert(emptied.inside =~= seq![Shown { passed: without_dirs(nodes), pending: Seq::empty() }]);
}

/// The numbers are taken one by one, and after the last of the type comes the first.
pub proof fn law_the_next_number_is_one_more(seq: u64)
    ensures
        seq < u64::MAX ==> seq_after(seq, 1) == seq + 1,
        seq == u64::MAX ==> seq_after(seq, 1) == 0,
{
}

/// Where a creation stands after the host's answers, in turn.
pub open spec fn holding_run(answers: Seq<Result<(), OsError>>) -> Holding
    decreases answers.len(),
{
    if answers.len() == 0 {
        Holding::OpenParent
    } else {
        holding_run(answers.drop_last()).spec_on(answers.last())
    }
}

/// Whether each of `answers`, in turn, came before the creation had ended.
pub open spec fn holding_asked(answers: Seq<Result<(), OsError>>) -> bool
    decreases answers.len(),
{
    answers.len() == 0 || holding_asked(answers.drop_last()) && !(holding_run(answers.drop_last())
        is Held) && !(holding_run(answers.drop_last()) is Failed)
}

/// A directory is held after three successes: its parent opened, itself made and itself opened. The
/// first failure is the one that is told. Only where the directory was made and could not be opened is
/// there something to undo, and what undoing it met is told too; and what comes after the end changes
/// nothing.
pub proof fn law_holding_ends_as_the_host_answered(answers: Seq<Result<(), OsError>>)
    requires
        holding_asked(answers),
    ensures
        ({
            let n = answers.len();
            let last = answers[n - 1];
            match holding_run(answers) {
                Holding::OpenParent => n == 0,
                Holding::MakeDir => n == 1 && last is Ok,
                Holding::OpenDir => n == 2 && last is Ok,
                Holding::Held => n == 3 && last is Ok,
                Holding::Unmake(e) => n == 3 && last == Err::<(), OsError>(e),
                Holding::Failed(e, left) => {
                    ||| (n == 1 || n == 2) && last == Err::<(), OsError>(e) && left is None
                    ||| n == 4 && answers[2] == Err::<(), OsError>(e) && match left {
                        None => last is Ok,
                        Some(rmdir) => last == Err::<(), OsError>(rmdir),
                    }
                },
            }
        }),
        forall|more: Result<(), OsError>|
            holding_run(answers) is Held || holding_run(answers) is Failed ==> #[trigger] holding_run(
                answers,
            ).spec_on(more) == holding_run(answers),
    decreases answers.len(),
{
    if answers.len() > 0 {
        law_holding_ends_as_the_host_answered(answers.drop_last());
    }
}

/// Whether `answer` answers what `r` asks of the host.
pub open spec fn rmdir_answers(r: Rmdir, answer: RmdirAnswer) -> bool {
    match r {
        Rmdir::StatHeld | Rmdir::StatNamed(_) => answer is Id,
        Rmdir::CheckLive => answer is Live,
        Rmdir::Unlink => answer is Unlinked,
        Rmdir::Done(_) => false,
    }
}

/// Whether `path` is a removal, from its beginning, with each of `answers` an answer to what it asked
/// at that point.
pub open spec fn rmdir_path(path: Seq<Rmdir>, answers: Seq<RmdirAnswer>) -> bool {
    &&& path.len() == answers.len() + 1
    &&& path[0] == Rmdir::StatHeld
    &&& forall|i: int|
        0 <= i < answers.len() ==> rmdir_answers(path[i], answers[i]) && (#[trigger] path[i]).steps(
            answers[i],
            path[i + 1],
        )
}

/// A removal ends as the host answered. The name is unlinked exactly where it was seen to name the held
/// directory, and that answer is the removal's. Where it was seen to name another, the removal fails
/// without touching it: as a path that is not there, where the held directory proves gone, and as one
/// that is taken, where it does not. Where either could not be identified, it fails with that error.
pub proof fn law_a_removal_by_name_ends_as_the_host_answered(
    path: Seq<Rmdir>,
    answers: Seq<RmdirAnswer>,
)
    requires
        rmdir_path(path, answers),
    ensures
        ({
            let n = answers.len();
            let last = answers[n - 1];
            let seen = n > 1 && answers[0] is Id && answers[1] is Id && answers[0]->Id_0 is Ok
                && answers[1]->Id_0 is Ok;
            let same = answers[0]->Id_0->Ok_0 == answers[1]->Id_0->Ok_0;
            match path[n as int] {
                Rmdir::StatHeld => n == 0,
                Rmdir::StatNamed(held) => n == 1 && last == RmdirAnswer::Id(Ok(held)),
                Rmdir::Unlink => n == 2 && seen && same,
                Rmdir::CheckLive => n == 2 && seen && !same,
                Rmdir::Done(ended) => {
                    ||| (n == 1 || n == 2) && (last matches RmdirAnswer::Id(Err(e)) && ended == Err::<
                        (),
                        OsError,
                    >(e))
                    ||| n == 3 && seen && same && last == RmdirAnswer::Unlinked(ended)
                    ||| n == 3 && seen && !same && (last matches RmdirAnswer::Live(live) && (ended
                        matches Err(e) && e.kind == ErrorKind::Os && e.errno == Some(
                        if live is Err && errno::gone(live->Err_0) {
                            2i32
                        } else {
                            17i32
                        },
                    )))
                },
            }
        }),
    decreases answers.len(),
{
    let n = answers.len() as int;
    if n > 0 {
        let earlier = path.drop_last();
        let before = answers.drop_last();
        assert forall|i: int| 0 <= i < before.len() implies rmdir_answers(earlier[i], before[i]) && (
        #[trigger] earlier[i]).steps(before[i], earlier[i + 1]) by {
            assert(path[i].steps(answers[i], path[i + 1]));
        }
        law_a_removal_by_name_ends_as_the_host_answered(earlier, before);
        assert(path[n - 1].steps(answers[n - 1], path[n]));
        assert(earlier[n - 1] == path[n - 1]);
        if n > 1 {
            assert(before[0] == answers[0]);
        }
        if n > 2 {
            assert(before[1] == answers[1]);
        }
    }
}

/// An answer to something that the removal did not ask leaves it where it stands.
pub proof fn law_a_removal_by_name_takes_only_answers(r: Rmdir, answer: RmdirAnswer, next: Rmdir)
    requires
        !rmdir_answers(r, answer),
        r.steps(answer, next),
    ensures
        next == r,
{
}

/// Whether `answer` answers what a sweep at `step` asks of the host.
pub open spec fn sweep_answers(step: SweepStep, answer: SweepAnswer) -> bool {
    match step {
        SweepStep::List => answer is Listed,
        SweepStep::Next => answer is Entry,
        SweepStep::Stat => answer is Mode,
        SweepStep::Enter => answer is Entered,
        SweepStep::Unlink => answer is Unlinked,
        SweepStep::Done | SweepStep::Failed(_) => false,
    }
}

/// Whether each of `answers`, in turn, answers what the sweep asks then.
pub open spec fn sweep_asked(answers: Seq<SweepAnswer>) -> bool
    decreases answers.len(),
{
    answers.len() == 0 || sweep_asked(answers.drop_last()) && sweep_answers(
        sweep_run(answers.drop_last()).step,
        answers.last(),
    )
}

/// Whether `answer` says that nothing more of a directory is to be had: its listing ended, or it is
/// gone.
pub open spec fn ends_listing(answer: SweepAnswer) -> bool {
    match answer {
        SweepAnswer::Listed(Err(e)) => errno::gone(e),
        SweepAnswer::Entry(None) => true,
        SweepAnswer::Entry(Some(Err(e))) => errno::gone(e),
        _ => false,
    }
}

/// Whether the error `e` in `answer` stops a sweep. What is gone stops none, and neither does a child
/// that is mounted over when it is to be entered or busy when it is to be removed.
pub open spec fn stops_sweep(answer: SweepAnswer, e: OsError) -> bool {
    !errno::gone(e) && match answer {
        SweepAnswer::Listed(r) => r == Err::<(), OsError>(e),
        SweepAnswer::Entry(r) => r == Some(Err::<Entry, OsError>(e)),
        SweepAnswer::Mode(r) => r == Err::<u32, OsError>(e),
        SweepAnswer::Entered(r) => r == Err::<(), OsError>(e) && e.errno != Some(18i32),
        SweepAnswer::Unlinked(r) => r == Err::<(), OsError>(e) && e.errno != Some(16i32),
    }
}

/// Where a sweep stands is what the host answered last. It lists what it has entered, and nothing else
/// but the leaf; it asks for the mode of exactly those entries that the listing leaves open, and enters
/// exactly those that are directories, neither its own nor its parent's; it comes out of a directory at
/// the end of its listing, to remove it, or to end where it is the leaf. It fails with the error that
/// stopped it.
pub proof fn law_a_sweep_goes_on_as_the_host_answered(answers: Seq<SweepAnswer>)
    requires
        sweep_asked(answers),
    ensures
        ({
            let n = answers.len();
            let last = answers[n - 1];
            match sweep_run(answers).step {
                SweepStep::List => n == 0 || (last matches SweepAnswer::Entered(Ok(_))),
                SweepStep::Stat => n > 0 && (last matches SweepAnswer::Entry(Some(Ok(entry)))
                    && entry.kind == EntryKind::Unknown && entry.name@ != seq![46u8] && entry.name@
                    != seq![46u8, 46u8]),
                SweepStep::Enter => n > 0 && {
                    ||| last matches SweepAnswer::Entry(Some(Ok(entry))) && entry.kind
                        == EntryKind::Directory && entry.name@ != seq![46u8] && entry.name@ != seq![
                        46u8,
                        46u8,
                    ]
                    ||| last matches SweepAnswer::Mode(Ok(mode)) && mode & 0o170000 == 0o040000
                },
                SweepStep::Unlink => n > 0 && ends_listing(last),
                SweepStep::Done => n > 0 && ends_listing(last) && sweep_run(answers).depth == 0,
                SweepStep::Failed(e) => n > 0 && stops_sweep(last, e),
                SweepStep::Next => n > 0 && match last {
                    SweepAnswer::Listed(listed) => listed is Ok,
                    SweepAnswer::Entry(entry) => entry matches Some(Ok(entry)) && (entry.kind
                        == EntryKind::Other || entry.name@ == seq![46u8] || entry.name@ == seq![
                        46u8,
                        46u8,
                    ]),
                    SweepAnswer::Mode(mode) => match mode {
                        Ok(mode) => mode & 0o170000 != 0o040000,
                        Err(e) => errno::gone(e),
                    },
                    SweepAnswer::Entered(entered) => entered matches Err(e) && (errno::gone(e)
                        || e.errno == Some(18i32)),
                    SweepAnswer::Unlinked(unlinked) => match unlinked {
                        Ok(_) => true,
                        Err(e) => errno::gone(e) || e.errno == Some(16i32),
                    },
                },
            }
        }),
    decreases answers.len(),
{
    if answers.len() > 0 {
        law_a_sweep_goes_on_as_the_host_answered(answers.drop_last());
    }
}

/// A sweep goes one directory down exactly where it entered one, and one up exactly where a listing
/// below the leaf ended: then, and only then, has it a child to remove. Its count goes up by one
/// exactly where a removal succeeded. An answer that was not asked for moves nothing.
pub proof fn law_a_sweep_keeps_its_depth(before: ChildSweep, answer: SweepAnswer)
    requires
        before.depth < usize::MAX,
        before.removed < usize::MAX,
    ensures
        ({
            let after = before.spec_on(answer);
            let asked = sweep_answers(before.step, answer);
            let up = asked && ends_listing(answer) && before.depth > 0;
            let down = asked && (answer matches SweepAnswer::Entered(Ok(_)));
            let counted = asked && (answer matches SweepAnswer::Unlinked(Ok(_)));
            &&& after.depth == before.depth + (if down {
                1int
            } else if up {
                -1int
            } else {
                0int
            })
            &&& after.removed == before.removed + (if counted {
                1int
            } else {
                0int
            })
            &&& up ==> after.step is Unlink
            &&& !asked ==> after == before
        }),
{
}

/// What is said of a leaf that could be neither held nor removed holds its name and both errors.
pub proof fn law_an_unheld_leaf_says_what_was_met(name: Seq<char>, source: OsError, rmdir: OsError)
    ensures
        text::mentions(unheld_text(name, source, rmdir), name),
        text::mentions(unheld_text(name, source, rmdir), source.text@),
        text::mentions(unheld_text(name, source, rmdir), rmdir.text@),
{
    let s = unheld_text(name, source, rmdir);
    let a = " was not removed: rmdir failed ("@;
    let b = ") after it could not be opened ("@;
    let c = "); it stays on this host until a cgroup manager reaps it"@;
    let head = "cgroup leaf "@;
    text::lemma_mentions(s, head + name + a + rmdir.text@ + b, source.text@, c);
    assert(s =~= (head + name + a) + rmdir.text@ + (b + source.text@ + c));
    text::lemma_mentions(s, head + name + a, rmdir.text@, b + source.text@ + c);
    assert(s =~= head + name + (a + rmdir.text@ + b + source.text@ + c));
    text::lemma_mentions(s, head, name, a + rmdir.text@ + b + source.text@ + c);
}

} // verus!
