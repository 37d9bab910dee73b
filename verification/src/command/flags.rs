//! The creation-flag request a caller records on a command, and the one function that turns it into
//! the `dwCreationFlags` word supplied to a Windows spawn.
//!
//! [`windows_spawn`] returns what this library supplies for a given backend, never what
//! `CreateProcessW` receives: on the std backend std ORs `CREATE_UNICODE_ENVIRONMENT` into the word at
//! spawn, and `EXTENDED_STARTUPINFO_PRESENT` when it holds an attribute list. No predicate may read
//! the returned word as a fact about the child, with one argued exception: `mechanism_from_flags`
//! reads only four bits that std neither adds nor removes.

use vstd::prelude::*;
use vstd::string::*;

use crate::containment::dispatch;
use crate::containment::windows;
use crate::containment::windows::JobBreakaway;
use crate::containment::ContainRequest;
use crate::error::Error;

verus! {

/// What a caller asked for, recorded on the builder and validated at spawn.
///
/// Validation is deliberately not in the setters: a pairwise rule enforced there would give a
/// verdict that depends on builder call order.
#[derive(Debug, Clone, Copy, PartialEq, Eq, Structural)]
pub struct FlagsRequest {
    /// "Do not put a console window on the user's screen", the one portable intent.
    pub no_window: bool,
    pub detached: bool,
    pub breakaway_from_job: bool,
    /// The raw hatch. `0` requests no bits, so there is nothing to refuse and nothing to emit.
    pub raw: u32,
}

impl Default for FlagsRequest {
    fn default() -> (f: FlagsRequest)
        ensures
            !f.no_window,
            !f.detached,
            !f.breakaway_from_job,
            f.raw == 0,
    {
        FlagsRequest { no_window: false, detached: false, breakaway_from_job: false, raw: 0 }
    }
}

/// Which Windows spawn mechanism the word is composed for. The raw `CreateProcessW` backend needs two
/// structural bits it cannot spawn without; std supplies its own.
#[derive(Debug, Clone, Copy, PartialEq, Eq, Structural)]
pub enum SpawnBackend {
    Std,
    Raw,
}

/// Everything decided about a Windows spawn before it happens.
#[derive(Debug, Clone, Copy, PartialEq, Eq, Structural)]
pub struct WindowsSpawn {
    /// The complete word supplied to the backend.
    pub creation_flags: u32,
    /// Whether this spawn must set the inherited root marker so descendants join this group.
    pub marker_env: bool,
}

/// A bit that the raw hatch refuses, and what to reach for instead.
#[derive(Debug, Clone, Copy)]
pub struct Reserved {
    pub bit: u32,
    pub name: &'static str,
    pub remedy: &'static str,
}

pub const DEBUG_PROCESS_REMEDY: &'static str =
    "no replacement: it makes the spawner a debugger, and the child stops on debug events nothing here services, so wait()/wait_tree() would hang";

pub const DEBUG_ONLY_THIS_PROCESS_REMEDY: &'static str =
    "no replacement: same reason as DEBUG_PROCESS";

pub const CREATE_SUSPENDED_REMEDY: &'static str =
    "no replacement yet: cosca suspends and resumes a contained root itself, so a caller's suspend would be resumed silently on a contained spawn and never resumed at all on an uncontained one";

pub const DETACHED_PROCESS_REMEDY: &'static str =
    "use detached()";

pub const CREATE_NEW_CONSOLE_REMEDY: &'static str =
    "no replacement: measured to give the child its own VISIBLE console window, overriding a requested window suppression";

pub const CREATE_NEW_PROCESS_GROUP_REMEDY: &'static str =
    "use contain(), which is what makes the child's group addressable";

pub const CREATE_UNICODE_ENVIRONMENT_REMEDY: &'static str =
    "no replacement: both backends supply it structurally — the raw one always builds a UTF-16 environment block, and std ORs the bit in regardless of what it was given";

pub const EXTENDED_STARTUPINFO_PRESENT_REMEDY: &'static str =
    "no replacement: it announces a structure only the spawn backend can supply";

pub const CREATE_BREAKAWAY_FROM_JOB_REMEDY: &'static str =
    "use breakaway_from_job(), which also classifies the failure a forbidding ambient job produces";

pub const CREATE_NO_WINDOW_REMEDY: &'static str =
    "use no_window()";

/// The reserved bits, each with its name and its remedy, in ascending bit order.
pub open spec fn reserved() -> Seq<(u32, Seq<char>, Seq<char>)> {
    seq![
        (windows::DEBUG_PROCESS, "DEBUG_PROCESS"@, DEBUG_PROCESS_REMEDY@),
        (windows::DEBUG_ONLY_THIS_PROCESS, "DEBUG_ONLY_THIS_PROCESS"@, DEBUG_ONLY_THIS_PROCESS_REMEDY@),
        (windows::CREATE_SUSPENDED, "CREATE_SUSPENDED"@, CREATE_SUSPENDED_REMEDY@),
        (windows::DETACHED_PROCESS, "DETACHED_PROCESS"@, DETACHED_PROCESS_REMEDY@),
        (windows::CREATE_NEW_CONSOLE, "CREATE_NEW_CONSOLE"@, CREATE_NEW_CONSOLE_REMEDY@),
        (windows::CREATE_NEW_PROCESS_GROUP, "CREATE_NEW_PROCESS_GROUP"@, CREATE_NEW_PROCESS_GROUP_REMEDY@),
        (windows::CREATE_UNICODE_ENVIRONMENT, "CREATE_UNICODE_ENVIRONMENT"@, CREATE_UNICODE_ENVIRONMENT_REMEDY@),
        (windows::EXTENDED_STARTUPINFO_PRESENT, "EXTENDED_STARTUPINFO_PRESENT"@, EXTENDED_STARTUPINFO_PRESENT_REMEDY@),
        (windows::CREATE_BREAKAWAY_FROM_JOB, "CREATE_BREAKAWAY_FROM_JOB"@, CREATE_BREAKAWAY_FROM_JOB_REMEDY@),
        (windows::CREATE_NO_WINDOW, "CREATE_NO_WINDOW"@, CREATE_NO_WINDOW_REMEDY@),
    ]
}

impl Reserved {
    /// The row as plain values.
    pub open spec fn row(self) -> (u32, Seq<char>, Seq<char>) {
        (self.bit, self.name@, self.remedy@)
    }
}

/// The reserved set, in ascending bit order so a multi-bit refusal reads in a stable sequence.
pub fn reserved_table() -> (t: [Reserved; 10])
    ensures
        t@.map_values(|r: Reserved| r.row()) == reserved(),
{
    let t = [
        Reserved {
            bit: windows::DEBUG_PROCESS,
            name: "DEBUG_PROCESS",
            remedy: DEBUG_PROCESS_REMEDY,
        },
        Reserved {
            bit: windows::DEBUG_ONLY_THIS_PROCESS,
            name: "DEBUG_ONLY_THIS_PROCESS",
            remedy: DEBUG_ONLY_THIS_PROCESS_REMEDY,
        },
        Reserved {
            bit: windows::CREATE_SUSPENDED,
            name: "CREATE_SUSPENDED",
            remedy: CREATE_SUSPENDED_REMEDY,
        },
        Reserved {
            bit: windows::DETACHED_PROCESS,
            name: "DETACHED_PROCESS",
            remedy: DETACHED_PROCESS_REMEDY,
        },
        Reserved {
            bit: windows::CREATE_NEW_CONSOLE,
            name: "CREATE_NEW_CONSOLE",
            remedy: CREATE_NEW_CONSOLE_REMEDY,
        },
        Reserved {
            bit: windows::CREATE_NEW_PROCESS_GROUP,
            name: "CREATE_NEW_PROCESS_GROUP",
            remedy: CREATE_NEW_PROCESS_GROUP_REMEDY,
        },
        Reserved {
            bit: windows::CREATE_UNICODE_ENVIRONMENT,
            name: "CREATE_UNICODE_ENVIRONMENT",
            remedy: CREATE_UNICODE_ENVIRONMENT_REMEDY,
        },
        Reserved {
            bit: windows::EXTENDED_STARTUPINFO_PRESENT,
            name: "EXTENDED_STARTUPINFO_PRESENT",
            remedy: EXTENDED_STARTUPINFO_PRESENT_REMEDY,
        },
        Reserved {
            bit: windows::CREATE_BREAKAWAY_FROM_JOB,
            name: "CREATE_BREAKAWAY_FROM_JOB",
            remedy: CREATE_BREAKAWAY_FROM_JOB_REMEDY,
        },
        Reserved {
            bit: windows::CREATE_NO_WINDOW,
            name: "CREATE_NO_WINDOW",
            remedy: CREATE_NO_WINDOW_REMEDY,
        },
    ];
    assert(t@.map_values(|r: Reserved| r.row()) =~= reserved());
    t
}

/// The rows among `rows` whose bit `raw` holds.
pub open spec fn held_rows(
    raw: u32,
    rows: Seq<(u32, Seq<char>, Seq<char>)>,
) -> Seq<(u32, Seq<char>, Seq<char>)>
    decreases rows.len(),
{
    if rows.len() == 0 {
        Seq::empty()
    } else if raw & rows.last().0 != 0 {
        held_rows(raw, rows.drop_last()).push(rows.last())
    } else {
        held_rows(raw, rows.drop_last())
    }
}

/// The reserved bits present in `raw`, in ascending bit order.
pub fn reserved_bits_in(raw: u32) -> (hits: Vec<Reserved>)
    ensures
        hits@.map_values(|r: Reserved| r.row()) == held_rows(raw, reserved()),
{
    let table = reserved_table();
    let mut hits: Vec<Reserved> = Vec::new();
    let mut i: usize = 0;
    let ghost rows = reserved();
    assert(rows.take(0) =~= Seq::empty());
    assert(hits@.map_values(|r: Reserved| r.row()) =~= Seq::empty());
    while i < 10
        invariant
            i <= 10,
            rows == reserved(),
            table@.map_values(|r: Reserved| r.row()) == rows,
            rows.len() == 10,
            hits@.map_values(|r: Reserved| r.row()) == held_rows(raw, rows.take(i as int)),
        decreases 10 - i,
    {
        let ghost before = hits@;
        let ghost grown = rows.take(i + 1);
        proof {
            assert(grown.drop_last() =~= rows.take(i as int));
            assert(table@.map_values(|r: Reserved| r.row())[i as int] == table@[i as int].row());
            assert(grown.last() == table@[i as int].row());
        }
        let r = table[i];
        if raw & r.bit != 0 {
            hits.push(r);
            proof {
                assert(hits@.map_values(|r: Reserved| r.row()) =~= before.map_values(
                    |r: Reserved| r.row(),
                ).push(r.row()));
            }
        }
        i += 1;
    }
    assert(rows.take(10) =~= rows);
    hits
}

/// The refused bits in words, each with its remedy.
pub open spec fn named(rows: Seq<(u32, Seq<char>, Seq<char>)>) -> Seq<char>
    decreases rows.len(),
{
    if rows.len() == 0 {
        Seq::empty()
    } else {
        let last = rows.last().1 + " ("@ + rows.last().2 + ")"@;
        if rows.len() == 1 {
            last
        } else {
            named(rows.drop_last()) + "; "@ + last
        }
    }
}

fn name_all(hits: &Vec<Reserved>) -> (s: String)
    ensures
        s@ == named(hits@.map_values(|r: Reserved| r.row())),
{
    let ghost rows = hits@.map_values(|r: Reserved| r.row());
    let mut s = String::new();
    let mut i: usize = 0;
    assert(rows.take(0) =~= Seq::empty());
    assert(s@ =~= named(rows.take(0)));
    while i < hits.len()
        invariant
            i <= hits@.len(),
            rows == hits@.map_values(|r: Reserved| r.row()),
            s@ == named(rows.take(i as int)),
        decreases hits@.len() - i,
    {
        let ghost grown = rows.take(i + 1);
        let ghost last = rows[i as int].1 + " ("@ + rows[i as int].2 + ")"@;
        proof {
            assert(grown.drop_last() =~= rows.take(i as int));
            assert(grown.last() == hits@[i as int].row());
        }
        if i > 0 {
            s.append("; ");
        }
        let mut part = hits[i].name.to_owned();
        part.append(" (");
        part.append(hits[i].remedy);
        part.append(")");
        s.append(part.as_str());
        proof {
            if i == 0 {
                assert(s@ =~= last);
            }
        }
        i += 1;
    }
    assert(rows.take(hits@.len() as int) =~= rows);
    s
}

pub const RESERVED_OP: &'static str = "creation_flags";

pub const BREAKAWAY_OP: &'static str = "breakaway_from_job() with contain()";

pub const BREAKAWAY_DETAIL: &'static str =
    "cosca's containment is a job object the child must be inside for the tree                      teardown it reports to be true, and a nested contained spawn's containment IS                      inheriting the ancestor's job. Drop one of the two.";

/// Why the raw word `raw` is refused.
pub open spec fn reserved_detail(raw: u32) -> Seq<char> {
    "creation flags cosca manages itself cannot be set through the raw hatch: "@ + named(
        held_rows(raw, reserved()),
    )
}

/// `word`, with `bits` where they are wanted.
pub open spec fn with_bits(word: u32, wanted: bool, bits: u32) -> u32 {
    if wanted {
        word | bits
    } else {
        word
    }
}

/// The word for a request that is not refused.
pub open spec fn composed_word(
    contain: ContainRequest,
    flags: FlagsRequest,
    is_root: bool,
    backend: SpawnBackend,
) -> u32 {
    let own = dispatch::contain_flags(contain, is_root) | flags.raw;
    let own = with_bits(own, flags.no_window, windows::CREATE_NO_WINDOW);
    let own = with_bits(own, flags.detached, windows::DETACHED_PROCESS);
    let own = with_bits(own, flags.breakaway_from_job, windows::CREATE_BREAKAWAY_FROM_JOB);
    with_bits(
        own,
        backend == SpawnBackend::Raw,
        windows::CREATE_UNICODE_ENVIRONMENT | windows::EXTENDED_STARTUPINFO_PRESENT,
    )
}

/// Whether a request is refused for reserved bits in its raw word.
pub open spec fn holds_reserved(flags: FlagsRequest) -> bool {
    held_rows(flags.raw, reserved()).len() > 0
}

/// Compose the `dwCreationFlags` word supplied to `backend` for this spawn, and refuse the
/// combinations that cannot be honoured: a reserved bit in the raw word, and a breakaway from the job
/// that containment is.
///
/// Every rule that needs to know about the ambient job is a post-failure classifier instead, so the
/// verdict never depends on process state that could change between the reading and the spawn.
pub fn windows_spawn(
    contain: &ContainRequest,
    flags: FlagsRequest,
    is_root: bool,
    backend: SpawnBackend,
) -> (r: Result<WindowsSpawn, Error>)
    ensures
        match r {
            Ok(w) => {
                &&& !holds_reserved(flags)
                &&& !(flags.breakaway_from_job && contain.mode is Some)
                &&& w.creation_flags == composed_word(*contain, flags, is_root, backend)
                &&& w.marker_env == (contain.mode is Some && is_root && contain.nesting
                    == crate::containment::Nesting::Mark)
            },
            Err(e) => if holds_reserved(flags) {
                e.is_unsupported(RESERVED_OP@, "windows"@, reserved_detail(flags.raw))
            } else {
                &&& flags.breakaway_from_job && contain.mode is Some
                &&& e.is_unsupported(BREAKAWAY_OP@, "windows"@, BREAKAWAY_DETAIL@)
            },
        },
{
    let offending = reserved_bits_in(flags.raw);
    proof {
        assert(offending@.map_values(|r: Reserved| r.row()).len() == offending@.len());
    }
    if offending.len() > 0 {
        let mut detail =
            "creation flags cosca manages itself cannot be set through the raw hatch: ".to_owned();
        let names = name_all(&offending);
        detail.append(names.as_str());
        return Err(
            Error::Unsupported {
                op: RESERVED_OP.to_owned(),
                platform: "windows".to_owned(),
                detail,
            },
        );
    }
    // Both operands are recorded on the builder, and neither is root-ness: the same command must not
    // succeed in one process and fail in a nested one.
    if flags.breakaway_from_job && contain.mode.is_some() {
        return Err(
            Error::Unsupported {
                op: BREAKAWAY_OP.to_owned(),
                platform: "windows".to_owned(),
                detail: BREAKAWAY_DETAIL.to_owned(),
            },
        );
    }
    let setup = dispatch::windows_contain_setup(contain, is_root);
    let mut creation_flags: u32 = setup.creation_flags | flags.raw;
    if flags.no_window {
        creation_flags = creation_flags | windows::CREATE_NO_WINDOW;
    }
    if flags.detached {
        creation_flags = creation_flags | windows::DETACHED_PROCESS;
    }
    // Emitted from the request alone: the flag is a no-op in no job, and a reading could go stale.
    if flags.breakaway_from_job {
        creation_flags = creation_flags | windows::CREATE_BREAKAWAY_FROM_JOB;
    }
    if backend == SpawnBackend::Raw {
        creation_flags = creation_flags | (windows::CREATE_UNICODE_ENVIRONMENT
            | windows::EXTENDED_STARTUPINFO_PRESENT);
    }
    Ok(WindowsSpawn { creation_flags, marker_env: setup.marker_env })
}

pub const DENIED_DETAIL: &'static str =
    "the spawn was refused with ACCESS_DENIED, and this process's job object sets                  neither JOB_OBJECT_LIMIT_BREAKAWAY_OK nor JOB_OBJECT_LIMIT_SILENT_BREAKAWAY_OK,                  so it forbids the breakaway_from_job() this spawn requested. Windows evaluates                  that check before it resolves the image, so this is the FIRST thing refused and                  not necessarily the only problem: dropping the request may reveal a different                  failure rather than making the spawn work. Only whoever created that job can                  permit breakaway — and if this process was itself spawned by cosca with                  contain(), the job is cosca's own, which sets neither limit and whose limits a                  member process cannot relax.";

/// Whether `err` is the refusal of an access: the bare Win32 code, or the same as an `HRESULT`.
pub open spec fn access_denied(err: Error) -> bool {
    err matches Error::Io(e) && (e.errno == Some(windows::ERROR_ACCESS_DENIED) || e.errno == Some(
        windows::E_ACCESSDENIED,
    ))
}

/// Classify a Windows spawn-syscall failure, given what the ambient job says of breakaway.
///
/// With a forbidding job, an emitted breakaway flag guarantees an access-denied failure, so the
/// request is a sufficient cause of the failure the caller got. A cause that was just measured to be
/// false, or could not be measured, is never asserted: every other error is handed back as it is.
pub fn classify_spawn_denial(err: Error, flags: FlagsRequest, job: JobBreakaway) -> (r: Error)
    ensures
        if flags.breakaway_from_job && access_denied(err) && job == JobBreakaway::Forbidden {
            r.is_containment(DENIED_DETAIL@)
        } else {
            r == err
        },
{
    if !flags.breakaway_from_job {
        return err;
    }
    let denied = match &err {
        Error::Io(e) => e.is_errno(windows::ERROR_ACCESS_DENIED) || e.is_errno(
            windows::E_ACCESSDENIED,
        ),
        _ => false,
    };
    if !denied || job != JobBreakaway::Forbidden {
        return err;
    }
    Error::Containment { detail: DENIED_DETAIL.to_owned() }
}

/// Every reserved bit at once.
pub open spec fn reserved_mask() -> u32 {
    windows::DEBUG_PROCESS | windows::DEBUG_ONLY_THIS_PROCESS | windows::CREATE_SUSPENDED
        | windows::DETACHED_PROCESS | windows::CREATE_NEW_CONSOLE
        | windows::CREATE_NEW_PROCESS_GROUP | windows::CREATE_UNICODE_ENVIRONMENT
        | windows::EXTENDED_STARTUPINFO_PRESENT | windows::CREATE_BREAKAWAY_FROM_JOB
        | windows::CREATE_NO_WINDOW
}

proof fn lemma_held_rows(raw: u32, rows: Seq<(u32, Seq<char>, Seq<char>)>)
    ensures
        held_rows(raw, rows).len() > 0 <==> exists|i: int|
            0 <= i < rows.len() && raw & (#[trigger] rows[i]).0 != 0,
    decreases rows.len(),
{
    if rows.len() > 0 {
        let rest = rows.drop_last();
        lemma_held_rows(raw, rest);
        if held_rows(raw, rest).len() > 0 {
            let i = choose|i: int| 0 <= i < rest.len() && raw & (#[trigger] rest[i]).0 != 0;
            assert(raw & rows[i].0 != 0);
        }
        if exists|i: int| 0 <= i < rows.len() && raw & (#[trigger] rows[i]).0 != 0 {
            let i = choose|i: int| 0 <= i < rows.len() && raw & (#[trigger] rows[i]).0 != 0;
            if i < rest.len() {
                assert(raw & rest[i].0 != 0);
            }
        }
    }
}

/// A raw word is refused exactly when it holds one of the ten reserved bits.
pub proof fn law_refused_for_reserved_bits(flags: FlagsRequest)
    ensures
        holds_reserved(flags) <==> flags.raw & reserved_mask() != 0,
{
    let raw = flags.raw;
    let rows = reserved();
    lemma_held_rows(raw, rows);
    assert(raw & reserved_mask() != 0 <==> raw & windows::DEBUG_PROCESS != 0 || raw
        & windows::DEBUG_ONLY_THIS_PROCESS != 0 || raw & windows::CREATE_SUSPENDED != 0 || raw
        & windows::DETACHED_PROCESS != 0 || raw & windows::CREATE_NEW_CONSOLE != 0 || raw
        & windows::CREATE_NEW_PROCESS_GROUP != 0 || raw & windows::CREATE_UNICODE_ENVIRONMENT != 0
        || raw & windows::EXTENDED_STARTUPINFO_PRESENT != 0 || raw
        & windows::CREATE_BREAKAWAY_FROM_JOB != 0 || raw & windows::CREATE_NO_WINDOW != 0)
        by (bit_vector);
    assert(rows.len() == 10);
    assert(rows[0].0 == windows::DEBUG_PROCESS);
    assert(rows[1].0 == windows::DEBUG_ONLY_THIS_PROCESS);
    assert(rows[2].0 == windows::CREATE_SUSPENDED);
    assert(rows[3].0 == windows::DETACHED_PROCESS);
    assert(rows[4].0 == windows::CREATE_NEW_CONSOLE);
    assert(rows[5].0 == windows::CREATE_NEW_PROCESS_GROUP);
    assert(rows[6].0 == windows::CREATE_UNICODE_ENVIRONMENT);
    assert(rows[7].0 == windows::EXTENDED_STARTUPINFO_PRESENT);
    assert(rows[8].0 == windows::CREATE_BREAKAWAY_FROM_JOB);
    assert(rows[9].0 == windows::CREATE_NO_WINDOW);
}

/// The reserved table ascends, so a refusal names its bits in a stable order.
pub proof fn law_reserved_bits_ascend(i: int, j: int)
    requires
        0 <= i < j < reserved().len(),
    ensures
        reserved()[i].0 < reserved()[j].0,
{
}

/// For a request that is not refused, the two backends' words differ by exactly the two structural
/// bits.
pub proof fn law_backends_differ_by_the_structural_bits(
    contain: ContainRequest,
    flags: FlagsRequest,
    is_root: bool,
)
    requires
        !holds_reserved(flags),
    ensures
        composed_word(contain, flags, is_root, SpawnBackend::Raw) ^ composed_word(
            contain,
            flags,
            is_root,
            SpawnBackend::Std,
        ) == windows::CREATE_UNICODE_ENVIRONMENT | windows::EXTENDED_STARTUPINFO_PRESENT,
{
    law_refused_for_reserved_bits(flags);
    let c = dispatch::contain_flags(contain, is_root);
    let raw = flags.raw;
    let w0 = c | raw;
    let w1 = with_bits(w0, flags.no_window, windows::CREATE_NO_WINDOW);
    let w2 = with_bits(w1, flags.detached, windows::DETACHED_PROCESS);
    let w3 = with_bits(w2, flags.breakaway_from_job, windows::CREATE_BREAKAWAY_FROM_JOB);
    let structural = windows::CREATE_UNICODE_ENVIRONMENT | windows::EXTENDED_STARTUPINFO_PRESENT;
    assert(raw & structural == 0) by (bit_vector)
        requires
            raw & reserved_mask() == 0,
            structural == windows::CREATE_UNICODE_ENVIRONMENT
                | windows::EXTENDED_STARTUPINFO_PRESENT,
    ;
    assert(c & structural == 0) by (bit_vector)
        requires
            c == 0 || c == windows::spec_root_flags() || c == windows::CREATE_NEW_PROCESS_GROUP,
            structural == windows::CREATE_UNICODE_ENVIRONMENT
                | windows::EXTENDED_STARTUPINFO_PRESENT,
    ;
    assert(w3 & structural == 0) by (bit_vector)
        requires
            raw & structural == 0,
            c & structural == 0,
            w0 == c | raw,
            w1 == w0 || w1 == w0 | windows::CREATE_NO_WINDOW,
            w2 == w1 || w2 == w1 | windows::DETACHED_PROCESS,
            w3 == w2 || w3 == w2 | windows::CREATE_BREAKAWAY_FROM_JOB,
            structural == windows::CREATE_UNICODE_ENVIRONMENT
                | windows::EXTENDED_STARTUPINFO_PRESENT,
    ;
    assert((w3 | structural) ^ w3 == structural) by (bit_vector)
        requires
            w3 & structural == 0,
    ;
}

/// How a child can be asked to stop does not depend on the backend: what one of them adds to the word
/// is none of the bits that settle it.
pub proof fn law_the_mechanism_is_the_same_on_both_backends(
    contain: ContainRequest,
    flags: FlagsRequest,
    is_root: bool,
)
    ensures
        windows::spec_mechanism_from_flags(
            composed_word(contain, flags, is_root, SpawnBackend::Raw),
        ) == windows::spec_mechanism_from_flags(
            composed_word(contain, flags, is_root, SpawnBackend::Std),
        ),
{
    let own = composed_word(contain, flags, is_root, SpawnBackend::Std);
    let raw = composed_word(contain, flags, is_root, SpawnBackend::Raw);
    assert(raw & (windows::CREATE_NEW_PROCESS_GROUP | windows::spec_console_leaving()) == own & (
    windows::CREATE_NEW_PROCESS_GROUP | windows::spec_console_leaving())) by (bit_vector)
        requires
            raw == own | (windows::CREATE_UNICODE_ENVIRONMENT
                | windows::EXTENDED_STARTUPINFO_PRESENT),
    ;
    windows::law_mechanism_reads_four_bits(raw, own);
}

/// An uncontained word does not depend on root-ness at all.
pub proof fn law_an_uncontained_word_ignores_is_root(
    contain: ContainRequest,
    flags: FlagsRequest,
    backend: SpawnBackend,
)
    requires
        contain.mode is None,
    ensures
        composed_word(contain, flags, true, backend) == composed_word(contain, flags, false, backend),
{
}

/// The word holds every bit that containment, the raw word and the intents ask for.
pub proof fn law_the_word_holds_what_was_asked(
    contain: ContainRequest,
    flags: FlagsRequest,
    is_root: bool,
    backend: SpawnBackend,
)
    ensures
        ({
            let word = composed_word(contain, flags, is_root, backend);
            let contained = dispatch::contain_flags(contain, is_root);
            &&& word & contained == contained
            &&& word & flags.raw == flags.raw
            &&& flags.no_window ==> word & windows::CREATE_NO_WINDOW == windows::CREATE_NO_WINDOW
            &&& flags.detached ==> word & windows::DETACHED_PROCESS == windows::DETACHED_PROCESS
            &&& flags.breakaway_from_job ==> word & windows::CREATE_BREAKAWAY_FROM_JOB
                == windows::CREATE_BREAKAWAY_FROM_JOB
        }),
{
    let c = dispatch::contain_flags(contain, is_root);
    let raw = flags.raw;
    let w0 = c | raw;
    let w1 = with_bits(w0, flags.no_window, windows::CREATE_NO_WINDOW);
    let w2 = with_bits(w1, flags.detached, windows::DETACHED_PROCESS);
    let w3 = with_bits(w2, flags.breakaway_from_job, windows::CREATE_BREAKAWAY_FROM_JOB);
    let structural = windows::CREATE_UNICODE_ENVIRONMENT | windows::EXTENDED_STARTUPINFO_PRESENT;
    let w4 = with_bits(w3, backend == SpawnBackend::Raw, structural);
    let no_window = flags.no_window;
    let detached = flags.detached;
    let breakaway = flags.breakaway_from_job;
    assert(w4 & c == c && w4 & raw == raw && (no_window ==> w4 & windows::CREATE_NO_WINDOW
        == windows::CREATE_NO_WINDOW) && (detached ==> w4 & windows::DETACHED_PROCESS
        == windows::DETACHED_PROCESS) && (breakaway ==> w4 & windows::CREATE_BREAKAWAY_FROM_JOB
        == windows::CREATE_BREAKAWAY_FROM_JOB)) by (bit_vector)
        requires
            w0 == c | raw,
            w1 == (if no_window {
                w0 | windows::CREATE_NO_WINDOW
            } else {
                w0
            }),
            w2 == (if detached {
                w1 | windows::DETACHED_PROCESS
            } else {
                w1
            }),
            w3 == (if breakaway {
                w2 | windows::CREATE_BREAKAWAY_FROM_JOB
            } else {
                w2
            }),
            w4 == w3 || w4 == w3 | structural,
    ;
}

/// The word holds no bit that nothing asked for. For a request that is not refused, each intent's bit
/// is there exactly where the intent is, the structural bits exactly on the raw backend, and the bit
/// that suspends exactly for a contained root that a job is to hold: neither the raw word nor an intent
/// brings it in. So two requests that differ in one intent alone differ in its bit alone.
pub proof fn law_the_word_holds_nothing_else(
    contain: ContainRequest,
    flags: FlagsRequest,
    is_root: bool,
    backend: SpawnBackend,
)
    requires
        !holds_reserved(flags),
    ensures
        ({
            let word = composed_word(contain, flags, is_root, backend);
            let quiet = FlagsRequest {
                no_window: false,
                detached: false,
                breakaway_from_job: false,
                raw: flags.raw,
            };
            let plain = composed_word(contain, quiet, is_root, SpawnBackend::Std);
            &&& plain == dispatch::contain_flags(contain, is_root) | flags.raw
            &&& word & 0x0800_0000 != 0 <==> flags.no_window
            &&& word & 0x8 != 0 <==> flags.detached
            &&& word & 0x0100_0000 != 0 <==> flags.breakaway_from_job
            &&& word & 0x400 != 0 <==> backend == SpawnBackend::Raw
            &&& word & 0x0008_0000 != 0 <==> backend == SpawnBackend::Raw
            &&& word & 0x4 != 0 <==> contain.mode is Some && is_root && contain.mode != Some(
                crate::containment::ContainMode::TreeWalk,
            )
            &&& word & 0x200 != 0 <==> contain.mode is Some
            &&& word & 0x13 == 0
            // All other bits are the raw word's own.
            &&& word & 0xf6f7_f9e0 == flags.raw & 0xf6f7_f9e0
        }),
{
    law_refused_for_reserved_bits(flags);
    let c = dispatch::contain_flags(contain, is_root);
    let raw = flags.raw;
    let w0 = c | raw;
    let w1 = with_bits(w0, flags.no_window, windows::CREATE_NO_WINDOW);
    let w2 = with_bits(w1, flags.detached, windows::DETACHED_PROCESS);
    let w3 = with_bits(w2, flags.breakaway_from_job, windows::CREATE_BREAKAWAY_FROM_JOB);
    let structural = windows::CREATE_UNICODE_ENVIRONMENT | windows::EXTENDED_STARTUPINFO_PRESENT;
    let w4 = with_bits(w3, backend == SpawnBackend::Raw, structural);
    let no_window = flags.no_window;
    let detached = flags.detached;
    let breakaway = flags.breakaway_from_job;
    let on_raw = backend == SpawnBackend::Raw;
    assert(windows::CREATE_SUSPENDED | windows::CREATE_NEW_PROCESS_GROUP == 0x204u32)
        by (bit_vector);
    assert(structural == 0x0008_0400) by {
        assert(windows::CREATE_UNICODE_ENVIRONMENT | windows::EXTENDED_STARTUPINFO_PRESENT
            == 0x0008_0400u32) by (bit_vector);
    }
    assert(raw & 0x0908_061f == 0) by (bit_vector)
        requires
            raw & reserved_mask() == 0,
    ;
    assert((w4 & 0x0800_0000 != 0 <==> no_window) && (w4 & 0x8 != 0 <==> detached) && (w4
        & 0x0100_0000 != 0 <==> breakaway) && (w4 & 0x400 != 0 <==> on_raw) && (w4 & 0x0008_0000
        != 0 <==> on_raw) && (w4 & 0x4 != 0 <==> c == 0x204) && (w4 & 0x200 != 0 <==> c != 0) && w4
        & 0x13 == 0 && w4 & 0xf6f7_f9e0 == raw & 0xf6f7_f9e0) by (bit_vector)
        requires
            c == 0 || c == 0x204 || c == 0x200,
            raw & 0x0908_061f == 0,
            w0 == c | raw,
            w1 == (if no_window {
                w0 | 0x0800_0000
            } else {
                w0
            }),
            w2 == (if detached {
                w1 | 0x8
            } else {
                w1
            }),
            w3 == (if breakaway {
                w2 | 0x0100_0000
            } else {
                w2
            }),
            w4 == (if on_raw {
                w3 | 0x0008_0400
            } else {
                w3
            }),
    ;
}

/// The ten bits that the raw word may not hold, by their values: whoever asks for one of them there is
/// refused, and nobody else is.
pub proof fn law_the_ten_reserved_bits(flags: FlagsRequest)
    ensures
        holds_reserved(flags) <==> flags.raw & 0x0908_061f != 0,
        // What is named in the refusal is each held bit, once, and no other.
        forall|row: (u32, Seq<char>, Seq<char>)| #[trigger]
            held_rows(flags.raw, reserved()).contains(row) <==> reserved().contains(row) && flags.raw
                & row.0 != 0,
        held_rows(flags.raw, reserved()).no_duplicates(),
{
    law_refused_for_reserved_bits(flags);
    let raw = flags.raw;
    assert(reserved_mask() == 0x0908_061f) by {
        assert(windows::DEBUG_PROCESS | windows::DEBUG_ONLY_THIS_PROCESS | windows::CREATE_SUSPENDED
            | windows::DETACHED_PROCESS | windows::CREATE_NEW_CONSOLE
            | windows::CREATE_NEW_PROCESS_GROUP | windows::CREATE_UNICODE_ENVIRONMENT
            | windows::EXTENDED_STARTUPINFO_PRESENT | windows::CREATE_BREAKAWAY_FROM_JOB
            | windows::CREATE_NO_WINDOW == 0x0908_061fu32) by (bit_vector);
    }
    lemma_held_are_the_rows_held(raw, reserved());
}

proof fn lemma_held_are_the_rows_held(raw: u32, rows: Seq<(u32, Seq<char>, Seq<char>)>)
    requires
        forall|i: int, j: int| 0 <= i < j < rows.len() ==> rows[i].0 < rows[j].0,
    ensures
        forall|row: (u32, Seq<char>, Seq<char>)| #[trigger]
            held_rows(raw, rows).contains(row) <==> rows.contains(row) && raw & row.0 != 0,
        held_rows(raw, rows).no_duplicates(),
    decreases rows.len(),
{
    let held = held_rows(raw, rows);
    if rows.len() > 0 {
        let rest = rows.drop_last();
        let earlier = held_rows(raw, rest);
        let last = rows.last();
        lemma_held_are_the_rows_held(raw, rest);
        assert(!rest.contains(last)) by {
            if rest.contains(last) {
                let i = choose|i: int| 0 <= i < rest.len() && rest[i] == last;
                assert(rows[i].0 < rows[rows.len() - 1].0);
            }
        }
        assert(!earlier.contains(last));
        assert forall|row: (u32, Seq<char>, Seq<char>)| #[trigger] held.contains(row) <==> rows.contains(
            row,
        ) && raw & row.0 != 0 by {
            assert(rows =~= rest.push(last));
            if raw & last.0 != 0 {
                assert(held == earlier.push(last));
                if held.contains(row) {
                    let i = choose|i: int| 0 <= i < held.len() && held[i] == row;
                    if i < earlier.len() {
                        assert(earlier[i] == row);
                    } else {
                        assert(rows[rows.len() - 1] == row);
                    }
                }
            }
            if earlier.contains(row) {
                let i = choose|i: int| 0 <= i < earlier.len() && earlier[i] == row;
                assert(held[i] == row);
            }
            if rest.contains(row) {
                let i = choose|i: int| 0 <= i < rest.len() && rest[i] == row;
                assert(rows[i] == row);
            }
            if rows.contains(row) && raw & row.0 != 0 {
                let i = choose|i: int| 0 <= i < rows.len() && rows[i] == row;
                if i < rest.len() {
                    assert(rest[i] == row);
                    assert(rest.contains(row));
                } else {
                    assert(held[held.len() - 1] == row);
                }
            }
        }
        if raw & last.0 != 0 {
            assert forall|i: int, j: int| 0 <= i < j < held.len() implies held[i] != held[j] by {
                if j == earlier.len() {
                    assert(earlier.contains(earlier[i]));
                }
            }
        }
    }
}

/// An access that was refused is known by either of its two codes, and nothing else is taken for one.
pub proof fn law_only_a_refused_access_is_classified(err: Error, e: crate::errno::OsError)
    ensures
        access_denied(err) ==> err is Io,
        err == Error::Io(e) ==> (access_denied(err) <==> e.errno == Some(5i32) || e.errno == Some(
            -2147024891i32,
        )),
{
}

/// A refusal names its bits one after another: what is said of two runs of them is what is said of
/// each, a semicolon between, and one bit by itself is its name and, in brackets, what to use instead.
pub proof fn law_a_refusal_names_each_bit(
    first: Seq<(u32, Seq<char>, Seq<char>)>,
    then: Seq<(u32, Seq<char>, Seq<char>)>,
    row: (u32, Seq<char>, Seq<char>),
)
    requires
        first.len() > 0,
        then.len() > 0,
    ensures
        named(seq![row]) == row.1 + " ("@ + row.2 + ")"@,
        named(first + then) == named(first) + "; "@ + named(then),
    decreases then.len(),
{
    assert(seq![row].last() == row);
    let all = first + then;
    assert(all.last() == then.last());
    assert(all.drop_last() =~= first + then.drop_last());
    if then.len() == 1 {
        assert(all.drop_last() =~= first);
    } else {
        law_a_refusal_names_each_bit(first, then.drop_last(), row);
        let last = then.last().1 + " ("@ + then.last().2 + ")"@;
        assert(named(first) + "; "@ + named(then.drop_last()) + "; "@ + last =~= named(first) + "; "@
            + (named(then.drop_last()) + "; "@ + last));
    }
}

} // verus!
