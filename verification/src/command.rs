//! The `Command` builder: executable, arguments or command line, stdio, environment, working
//! directory, containment and elevation.

pub mod flags;

use std::collections::BTreeMap;

use vstd::prelude::*;
use vstd::string::*;

use crate::command::flags::FlagsRequest;
use crate::containment::{ContainMode, ContainRequest, Nesting};
use crate::elevation::{Auth, Backend, ElevationRequest};
use crate::errno::{ErrorKind, OsError};
use crate::error::Error;
use crate::stdio::{ResolvedStdio, Stdio, STDERR, STDIN, STDOUT};

verus! {

/// A string of the operating system, in its own encoding: an argument, a variable, a path.
pub type OsText = Vec<u8>;

/// Which setter recorded the executable path, and therefore whether it is resolved before the OS sees
/// it. The two overwrite each other: the last call wins.
#[derive(Debug)]
pub enum ExecutableSpec {
    /// From [`Command::executable`]: it is resolved first.
    Search(OsText),
    /// From [`Command::raw_executable`]: never searched for.
    Exact(OsText),
}

impl ExecutableSpec {
    /// The path as written.
    pub open spec fn spec_path(self) -> OsText {
        match self {
            ExecutableSpec::Search(p) => p,
            ExecutableSpec::Exact(p) => p,
        }
    }

    /// The path as written, whichever setter recorded it.
    pub fn path(&self) -> (p: &OsText)
        ensures
            *p == self.spec_path(),
    {
        match self {
            ExecutableSpec::Search(p) => p,
            ExecutableSpec::Exact(p) => p,
        }
    }
}

/// An environment variable operation, recorded in order.
#[derive(Debug)]
pub enum EnvOp {
    Assign(OsText, OsText),
    Remove(OsText),
    Clear,
}

/// The argument source of truth. `Argv` and `CommandLine` are mutually exclusive: the last one set
/// wins.
#[derive(Debug)]
pub enum CommandInput {
    Empty,
    Argv(Vec<OsText>),
    CommandLine(OsText),
}

/// What a [`CommandInput`] says.
#[verifier::ext_equal]
pub enum InputView {
    Empty,
    Argv(Seq<OsText>),
    CommandLine(OsText),
}

impl View for CommandInput {
    type V = InputView;

    open spec fn view(&self) -> InputView {
        match self {
            CommandInput::Empty => InputView::Empty,
            CommandInput::Argv(v) => InputView::Argv(v@),
            CommandInput::CommandLine(line) => InputView::CommandLine(*line),
        }
    }
}

impl InputView {
    /// The input once `more` are appended. Anything but an argv is given up for one.
    pub open spec fn appended(self, more: Seq<OsText>) -> InputView {
        match self {
            InputView::Argv(v) => InputView::Argv(v + more),
            _ => InputView::Argv(more),
        }
    }
}

/// A process to be configured and (later) spawned. `F` is an open file, `S` an environment filter.
#[derive(Debug)]
pub struct Command<F, S> {
    input: CommandInput,
    executable: Option<ExecutableSpec>,
    fds: BTreeMap<u32, ResolvedStdio<F>>,
    env_ops: Vec<EnvOp>,
    cwd: Option<OsText>,
    kill_on_drop: bool,
    contain: ContainRequest,
    elevation: ElevationRequest<S>,
    fd_marker_suppressed: bool,
    flags: FlagsRequest,
    /// Files the spawn needs open until it runs.
    held: Vec<F>,
}

/// What a [`Command`] asks for.
#[verifier::ext_equal]
pub struct CommandView<F, S> {
    pub input: InputView,
    pub executable: Option<ExecutableSpec>,
    pub fds: Map<u32, ResolvedStdio<F>>,
    pub env_ops: Seq<EnvOp>,
    pub cwd: Option<OsText>,
    pub kill_on_drop: bool,
    pub contain: ContainRequest,
    pub elevation: ElevationRequest<S>,
    pub fd_marker_suppressed: bool,
    pub flags: FlagsRequest,
    pub held: Seq<F>,
}

impl<F, S> View for Command<F, S> {
    type V = CommandView<F, S>;

    closed spec fn view(&self) -> CommandView<F, S> {
        CommandView {
            input: self.input@,
            executable: self.executable,
            fds: self.fds@,
            env_ops: self.env_ops@,
            cwd: self.cwd,
            kill_on_drop: self.kill_on_drop,
            contain: self.contain,
            elevation: self.elevation,
            fd_marker_suppressed: self.fd_marker_suppressed,
            flags: self.flags,
            held: self.held@,
        }
    }
}

/// A command that asks for nothing but that its child is torn down with its handle.
pub open spec fn fresh<F, S>() -> CommandView<F, S> {
    CommandView {
        input: InputView::Empty,
        executable: None,
        fds: Map::empty(),
        env_ops: Seq::empty(),
        cwd: None,
        kill_on_drop: true,
        contain: ContainRequest { mode: None, nesting: Nesting::Mark },
        elevation: ElevationRequest {
            enabled: false,
            backend: Backend::Auto,
            auth: Auth::Interactive,
            sanitizer: None,
        },
        fd_marker_suppressed: false,
        flags: FlagsRequest { no_window: false, detached: false, breakaway_from_job: false, raw: 0 },
        held: Seq::empty(),
    }
}

impl<F, S> Command<F, S> {
    /// A fresh command with no arguments. argv is not special: set it via [`Command::args`] and
    /// [`Command::arg`], or [`Command::commandline`].
    pub fn new() -> (c: Command<F, S>)
        ensures
            c@ == fresh::<F, S>(),
    {
        Command {
            input: CommandInput::Empty,
            executable: None,
            fds: BTreeMap::new(),
            env_ops: Vec::new(),
            cwd: None,
            kill_on_drop: true,
            contain: ContainRequest::default(),
            elevation: ElevationRequest::new(),
            fd_marker_suppressed: false,
            flags: FlagsRequest::default(),
            held: Vec::new(),
        }
    }

    /// Append one argument, switching to argv mode if a command line was set.
    pub fn arg(&mut self, a: OsText) -> (r: &mut Command<F, S>)
        ensures
            r@ == (CommandView::<F, S> {
                input: old(self)@.input.appended(seq![a]),
                ..old(self)@
            }),
            *final(self) == *final(r),
    {
        let ghost before = self.input@;
        match &mut self.input {
            CommandInput::Argv(v) => {
                v.push(a);
            },
            _ => {
                self.input = CommandInput::Argv(vec![a]);
            },
        }
        proof {
            match before {
                InputView::Argv(v) => assert(v.push(a) =~= v + seq![a]),
                _ => {},
            }
            assert(self.input@ =~= before.appended(seq![a]));
        }
        self
    }

    /// Append several arguments, switching to argv mode if a command line was set.
    pub fn args(&mut self, args: Vec<OsText>) -> (r: &mut Command<F, S>)
        ensures
            r@ == (CommandView::<F, S> {
                input: old(self)@.input.appended(args@),
                ..old(self)@
            }),
            *final(self) == *final(r),
    {
        let mut args = args;
        match &mut self.input {
            CommandInput::Argv(v) => {
                v.append(&mut args);
            },
            _ => {
                self.input = CommandInput::Argv(args);
            },
        }
        self
    }

    /// Set the argument source to a single command-line string (Windows-native form). Discards any
    /// previously set argv.
    pub fn commandline(&mut self, line: OsText) -> (r: &mut Command<F, S>)
        ensures
            r@ == (CommandView::<F, S> {
                input: InputView::CommandLine(line),
                ..old(self)@
            }),
            *final(self) == *final(r),
    {
        self.input = CommandInput::CommandLine(line);
        self
    }

    /// Override the executable file that the OS loads, independently of `argv[0]`. The name is
    /// resolved before the OS sees it. [`raw_executable`](Self::raw_executable) is the unresolved
    /// alternative; calling either replaces the other.
    pub fn executable(&mut self, path: OsText) -> (r: &mut Command<F, S>)
        ensures
            r@ == (CommandView::<F, S> {
                executable: Some(ExecutableSpec::Search(path)),
                ..old(self)@
            }),
            *final(self) == *final(r),
    {
        self.executable = Some(ExecutableSpec::Search(path));
        self
    }

    /// Load exactly this file, with no resolution of any kind: no search, no extension appended, no
    /// existence check.
    pub fn raw_executable(&mut self, path: OsText) -> (r: &mut Command<F, S>)
        ensures
            r@ == (CommandView::<F, S> {
                executable: Some(ExecutableSpec::Exact(path)),
                ..old(self)@
            }),
            *final(self) == *final(r),
    {
        self.executable = Some(ExecutableSpec::Exact(path));
        self
    }

    /// The argument source.
    pub fn input(&self) -> (i: &CommandInput)
        ensures
            i@ == self@.input,
    {
        &self.input
    }

    /// The executable path as written, whichever setter recorded it.
    pub fn executable_path(&self) -> (p: Option<&OsText>)
        ensures
            match self@.executable {
                Some(spec) => p matches Some(path) && *path == spec.spec_path(),
                None => p is None,
            },
    {
        match &self.executable {
            Some(spec) => Some(spec.path()),
            None => None,
        }
    }

    /// The path together with which setter recorded it.
    pub fn executable_spec(&self) -> (s: Option<&ExecutableSpec>)
        ensures
            match self@.executable {
                Some(spec) => s matches Some(kept) && *kept == spec,
                None => s is None,
            },
    {
        match &self.executable {
            Some(spec) => Some(spec),
            None => None,
        }
    }

    /// Carry another command's executable over whole, setter included.
    pub fn set_executable_spec(&mut self, spec: Option<ExecutableSpec>)
        ensures
            final(self)@ == (CommandView::<F, S> { executable: spec, ..old(self)@ }),
    {
        self.executable = spec;
    }

    /// Keep `file` open for as long as this command, so a path through it stays valid until the
    /// spawn.
    pub fn hold(&mut self, file: F)
        ensures
            final(self)@ == (CommandView::<F, S> {
                held: old(self)@.held.push(file),
                ..old(self)@
            }),
    {
        self.held.push(file);
    }

    /// Wire descriptor `slot` to `target`. Errors now if the target's direction is ambiguous for
    /// `slot` (a bare pipe on a descriptor that is 3 or above), and then changes nothing.
    pub fn fd(&mut self, slot: u32, target: Stdio<F>) -> (r: Result<&mut Command<F, S>, Error>)
        ensures
            match r {
                Ok(c) => {
                    &&& target.spec_resolve(slot) matches Some(resolved) && c@ == (CommandView::<
                        F,
                        S,
                    > {
                        fds: old(self)@.fds.insert(slot, resolved),
                        ..old(self)@
                    })
                    &&& *final(self) == *final(c)
                },
                Err(e) => {
                    &&& target.spec_resolve(slot) is None
                    &&& e == (Error::AmbiguousPipe { fd: slot })
                    &&& final(self)@ == old(self)@
                },
            },
    {
        broadcast use vstd::std_specs::btree::group_btree_axioms;

        match target.resolve(slot) {
            Ok(resolved) => {
                self.fds.insert(slot, resolved);
                Ok(self)
            },
            Err(e) => Err(e),
        }
    }

    /// Wire the standard input to `target`. No target is ambiguous for it.
    pub fn stdin(&mut self, target: Stdio<F>) -> (r: Result<&mut Command<F, S>, Error>)
        ensures
            r matches Ok(c) && (target.spec_resolve(STDIN) matches Some(resolved) && c@ == (
            CommandView::<F, S> { fds: old(self)@.fds.insert(STDIN, resolved), ..old(self)@ }))
                && *final(self) == *final(c),
    {
        self.fd(STDIN, target)
    }

    /// Wire the standard output to `target`. No target is ambiguous for it.
    pub fn stdout(&mut self, target: Stdio<F>) -> (r: Result<&mut Command<F, S>, Error>)
        ensures
            r matches Ok(c) && (target.spec_resolve(STDOUT) matches Some(resolved) && c@ == (
            CommandView::<F, S> { fds: old(self)@.fds.insert(STDOUT, resolved), ..old(self)@ }))
                && *final(self) == *final(c),
    {
        self.fd(STDOUT, target)
    }

    /// Wire the standard error to `target`. No target is ambiguous for it.
    pub fn stderr(&mut self, target: Stdio<F>) -> (r: Result<&mut Command<F, S>, Error>)
        ensures
            r matches Ok(c) && (target.spec_resolve(STDERR) matches Some(resolved) && c@ == (
            CommandView::<F, S> { fds: old(self)@.fds.insert(STDERR, resolved), ..old(self)@ }))
                && *final(self) == *final(c),
    {
        self.fd(STDERR, target)
    }

    /// Set an environment variable.
    pub fn env(&mut self, k: OsText, v: OsText) -> (r: &mut Command<F, S>)
        ensures
            r@ == (CommandView::<F, S> {
                env_ops: old(self)@.env_ops.push(EnvOp::Assign(k, v)),
                ..old(self)@
            }),
            *final(self) == *final(r),
    {
        self.env_ops.push(EnvOp::Assign(k, v));
        self
    }

    /// Set several environment variables, in their order.
    pub fn envs(&mut self, vars: Vec<(OsText, OsText)>) -> (r: &mut Command<F, S>)
        ensures
            r@ == (CommandView::<F, S> {
                env_ops: old(self)@.env_ops + vars@.map_values(
                    |kv: (OsText, OsText)| EnvOp::Assign(kv.0, kv.1),
                ),
                ..old(self)@
            }),
            *final(self) == *final(r),
    {
        let ghost f = |kv: (OsText, OsText)| EnvOp::Assign(kv.0, kv.1);
        let ghost all = vars@;
        let mut ops: Vec<EnvOp> = Vec::new();
        for kv in it: vars
            invariant
                f == (|kv: (OsText, OsText)| EnvOp::Assign(kv.0, kv.1)),
                it.seq() == all,
                ops@ == all.take(it.index() as int).map_values(f),
        {
            let ghost done = it.index() as int;
            assert(all.take(done + 1) =~= all.take(done).push(all[done]));
            let (k, v) = kv;
            ops.push(EnvOp::Assign(k, v));
            assert(ops@ =~= all.take(done + 1).map_values(f));
        }
        assert(all.take(all.len() as int) =~= all);
        self.env_ops.append(&mut ops);
        self
    }

    /// Remove an environment variable.
    pub fn env_remove(&mut self, k: OsText) -> (r: &mut Command<F, S>)
        ensures
            r@ == (CommandView::<F, S> {
                env_ops: old(self)@.env_ops.push(EnvOp::Remove(k)),
                ..old(self)@
            }),
            *final(self) == *final(r),
    {
        self.env_ops.push(EnvOp::Remove(k));
        self
    }

    /// Remove every environment variable.
    pub fn env_clear(&mut self) -> (r: &mut Command<F, S>)
        ensures
            r@ == (CommandView::<F, S> {
                env_ops: old(self)@.env_ops.push(EnvOp::Clear),
                ..old(self)@
            }),
            *final(self) == *final(r),
    {
        self.env_ops.push(EnvOp::Clear);
        self
    }

    /// Run the child in `dir`.
    pub fn current_dir(&mut self, dir: OsText) -> (r: &mut Command<F, S>)
        ensures
            r@ == (CommandView::<F, S> {
                cwd: Some(dir),
                ..old(self)@
            }),
            *final(self) == *final(r),
    {
        self.cwd = Some(dir);
        self
    }

    /// Tear the child down when its handle drops. On by default; `false` opts out for every child of
    /// this command.
    ///
    /// Under [`CgroupV2`](crate::containment::Containment::CgroupV2) the drop waits for the tree to be
    /// gone before it removes the tree's leaf. Opting out can leave the leaf behind: the drop still
    /// removes it if the whole tree has exited, but never kills to empty it itself.
    pub fn kill_on_drop(&mut self, yes: bool) -> (r: &mut Command<F, S>)
        ensures
            r@ == (CommandView::<F, S> {
                kill_on_drop: yes,
                ..old(self)@
            }),
            *final(self) == *final(r),
    {
        self.kill_on_drop = yes;
        self
    }

    /// Contain the child's whole process tree using the strongest mechanism available, so dropping or
    /// killing the tree tears down every descendant.
    pub fn contain(&mut self) -> (r: &mut Command<F, S>)
        ensures
            r@ == (CommandView::<F, S> {
                contain: ContainRequest {
                    mode: Some(ContainMode::Strongest),
                    ..old(self)@.contain
                },
                ..old(self)@
            }),
            *final(self) == *final(r),
    {
        self.contain_with(ContainMode::Strongest)
    }

    /// Contain with a specific [`ContainMode`].
    pub fn contain_with(&mut self, mode: ContainMode) -> (r: &mut Command<F, S>)
        ensures
            r@ == (CommandView::<F, S> {
                contain: ContainRequest { mode: Some(mode), ..old(self)@.contain },
                ..old(self)@
            }),
            *final(self) == *final(r),
    {
        self.contain.mode = Some(mode);
        self
    }

    /// Set how this contained spawn marks its descendants (default [`Nesting::Mark`]).
    pub fn nesting(&mut self, nesting: Nesting) -> (r: &mut Command<F, S>)
        ensures
            r@ == (CommandView::<F, S> {
                contain: ContainRequest { nesting, ..old(self)@.contain },
                ..old(self)@
            }),
            *final(self) == *final(r),
    {
        self.contain.nesting = nesting;
        self
    }

    /// The containment request.
    pub fn contain_request(&self) -> (c: ContainRequest)
        ensures
            c == self@.contain,
    {
        self.contain
    }

    /// Do not put a console window on the user's screen for this child. The intent sits above the
    /// mechanisms: it is lowered onto whichever launch a given spawn uses, and is a no-op on Unix.
    pub fn no_window(&mut self) -> (r: &mut Command<F, S>)
        ensures
            r@ == (CommandView::<F, S> {
                flags: FlagsRequest { no_window: true, ..old(self)@.flags },
                ..old(self)@
            }),
            *final(self) == *final(r),
    {
        self.flags.no_window = true;
        self
    }

    /// Spawn the child with `DETACHED_PROCESS`: it gets no console at all. Its stdio is untouched, and
    /// it leaves no job.
    pub fn detached(&mut self) -> (r: &mut Command<F, S>)
        ensures
            r@ == (CommandView::<F, S> {
                flags: FlagsRequest { detached: true, ..old(self)@.flags },
                ..old(self)@
            }),
            *final(self) == *final(r),
    {
        self.flags.detached = true;
        self
    }

    /// Spawn the child with `CREATE_BREAKAWAY_FROM_JOB`, so it starts outside whatever job object this
    /// process belongs to. Combining it with containment is refused at spawn.
    pub fn breakaway_from_job(&mut self) -> (r: &mut Command<F, S>)
        ensures
            r@ == (CommandView::<F, S> {
                flags: FlagsRequest { breakaway_from_job: true, ..old(self)@.flags },
                ..old(self)@
            }),
            *final(self) == *final(r),
    {
        self.flags.breakaway_from_job = true;
        self
    }

    /// Add arbitrary bits to this spawn's `dwCreationFlags`. Replaces, it does not accumulate: calling
    /// it twice leaves the second word, and `0` clears one set earlier. Reserved bits are refused at
    /// spawn.
    pub fn creation_flags(&mut self, flags: u32) -> (r: &mut Command<F, S>)
        ensures
            r@ == (CommandView::<F, S> {
                flags: FlagsRequest { raw: flags, ..old(self)@.flags },
                ..old(self)@
            }),
            *final(self) == *final(r),
    {
        self.flags.raw = flags;
        self
    }

    /// The creation-flag request.
    pub fn flags_request(&self) -> (f: &FlagsRequest)
        ensures
            *f == self@.flags,
    {
        &self.flags
    }

    /// Run this child elevated (admin/root). Elevation wraps the child, never this process.
    pub fn elevate(&mut self) -> (r: &mut Command<F, S>)
        ensures
            r@ == (CommandView::<F, S> {
                elevation: ElevationRequest { enabled: true, ..old(self)@.elevation },
                ..old(self)@
            }),
            *final(self) == *final(r),
    {
        self.elevation.enabled = true;
        self
    }

    /// Force a specific elevation backend (implies [`elevate`](Self::elevate)).
    pub fn elevation_backend(&mut self, backend: Backend) -> (r: &mut Command<F, S>)
        ensures
            r@ == (CommandView::<F, S> {
                elevation: ElevationRequest { enabled: true, backend, ..old(self)@.elevation },
                ..old(self)@
            }),
            *final(self) == *final(r),
    {
        self.elevation.enabled = true;
        self.elevation.backend = backend;
        self
    }

    /// Choose the elevation auth strategy (implies [`elevate`](Self::elevate)).
    pub fn elevation_auth(&mut self, auth: Auth) -> (r: &mut Command<F, S>)
        ensures
            r@ == (CommandView::<F, S> {
                elevation: ElevationRequest { enabled: true, auth, ..old(self)@.elevation },
                ..old(self)@
            }),
            *final(self) == *final(r),
    {
        self.elevation.enabled = true;
        self.elevation.auth = auth;
        self
    }

    /// Replace the filter of explicitly forwarded variables (implies [`elevate`](Self::elevate)).
    pub fn sanitize_env(&mut self, sanitizer: S) -> (r: &mut Command<F, S>)
        ensures
            r@ == (CommandView::<F, S> {
                elevation: ElevationRequest { enabled: true, sanitizer: Some(sanitizer), ..old(self)@.elevation },
                ..old(self)@
            }),
            *final(self) == *final(r),
    {
        self.elevation.enabled = true;
        self.elevation.sanitizer = Some(sanitizer);
        self
    }

    /// The elevation request.
    pub fn elevation_request(&self) -> (e: &ElevationRequest<S>)
        ensures
            *e == self@.elevation,
    {
        &self.elevation
    }

    /// Set the argv, and forget the executable.
    pub fn set_input_argv(&mut self, argv: Vec<OsText>)
        ensures
            final(self)@ == (CommandView::<F, S> {
                input: InputView::Argv(argv@),
                executable: None,
                ..old(self)@
            }),
    {
        self.input = CommandInput::Argv(argv);
        self.executable = None;
    }

    /// Replace the environment operations.
    pub fn set_env_ops(&mut self, ops: Vec<EnvOp>)
        ensures
            final(self)@ == (CommandView::<F, S> { env_ops: ops@, ..old(self)@ }),
    {
        self.env_ops = ops;
    }

    /// Replace the containment request.
    pub fn set_contain(&mut self, req: ContainRequest)
        ensures
            final(self)@ == (CommandView::<F, S> { contain: req, ..old(self)@ }),
    {
        self.contain = req;
    }

    /// Suppress the macOS fd marker for this spawn: an elevation wrapper closes every descriptor at 3
    /// or above before its exec, so a marker installed here could never reach the tree.
    pub fn suppress_fd_marker(&mut self)
        ensures
            final(self)@ == (CommandView::<F, S> { fd_marker_suppressed: true, ..old(self)@ }),
    {
        self.fd_marker_suppressed = true;
    }

    /// Whether the macOS fd marker is suppressed.
    pub fn fd_marker_suppressed(&self) -> (r: bool)
        ensures
            r == self@.fd_marker_suppressed,
    {
        self.fd_marker_suppressed
    }

    /// What each wired descriptor leads to.
    pub fn fds(&self) -> (f: &BTreeMap<u32, ResolvedStdio<F>>)
        ensures
            f@ == self@.fds,
    {
        &self.fds
    }

    /// What each wired descriptor leads to, to be changed.
    pub fn fds_mut(&mut self) -> (f: &mut BTreeMap<u32, ResolvedStdio<F>>)
        ensures
            f@ == old(self)@.fds,
            final(self)@ == (CommandView::<F, S> { fds: final(f)@, ..old(self)@ }),
    {
        &mut self.fds
    }

    /// The environment operations, in order.
    pub fn env_ops(&self) -> (ops: &Vec<EnvOp>)
        ensures
            ops@ == self@.env_ops,
    {
        &self.env_ops
    }

    /// The working directory, where one was set.
    pub fn cwd(&self) -> (d: Option<&OsText>)
        ensures
            match self@.cwd {
                Some(dir) => d matches Some(kept) && *kept == dir,
                None => d is None,
            },
    {
        match &self.cwd {
            Some(dir) => Some(dir),
            None => None,
        }
    }

    /// Whether the child is torn down with its handle.
    pub fn kill_on_drop_flag(&self) -> (r: bool)
        ensures
            r == self@.kill_on_drop,
    {
        self.kill_on_drop
    }

    /// Set `default` on the standard input unless [`Auth::Stdin`] already claims it: that needs sole
    /// ownership of it to feed the backend the password, and a convenience's own default is not a
    /// caller's intent to preserve.
    fn apply_default_stdin(&mut self, default: Stdio<F>)
        requires
            default.spec_resolve(STDIN) is Some,
        ensures
            final(self)@ == (CommandView::<F, S> {
                fds: with_default_stdin(old(self)@, default.spec_resolve(STDIN)->0),
                ..old(self)@
            }),
    {
        let claimed = match &self.elevation.auth {
            Auth::Stdin(_) => true,
            Auth::Interactive => false,
        };
        if !claimed {
            let _ = self.stdin(default);
        }
    }

    /// Wire the descriptors of a run that captures stdout and stderr: stdin is connected to null
    /// (unless [`Auth::Stdin`] needs it), the other two are piped.
    pub fn output(&mut self)
        ensures
            final(self)@ == (CommandView::<F, S> {
                fds: with_default_stdin(old(self)@, ResolvedStdio::Null).insert(
                    STDOUT,
                    ResolvedStdio::PipeOut,
                ).insert(STDERR, ResolvedStdio::PipeOut),
                ..old(self)@
            }),
    {
        self.apply_default_stdin(Stdio::Null);
        let _ = self.stdout(Stdio::Pipe);
        let _ = self.stderr(Stdio::Pipe);
    }

    /// Wire the descriptors of a run with inherited stdio. Forced, so that a caller who asked for a
    /// pipe before does not get a wait that deadlocks once the pipe's buffer fills.
    pub fn status(&mut self)
        ensures
            final(self)@ == (CommandView::<F, S> {
                fds: with_default_stdin(old(self)@, ResolvedStdio::Inherit).insert(
                    STDOUT,
                    ResolvedStdio::Inherit,
                ).insert(STDERR, ResolvedStdio::Inherit),
                ..old(self)@
            }),
    {
        self.apply_default_stdin(Stdio::Inherit);
        let _ = self.stdout(Stdio::Inherit);
        let _ = self.stderr(Stdio::Inherit);
    }

    /// Wire the descriptors of a run that captures stdout as text: stdin is connected to null (unless
    /// [`Auth::Stdin`] needs it), stdout is piped, stderr is inherited, whatever was configured before.
    pub fn read(&mut self)
        ensures
            final(self)@ == (CommandView::<F, S> {
                fds: with_default_stdin(old(self)@, ResolvedStdio::Null).insert(
                    STDOUT,
                    ResolvedStdio::PipeOut,
                ).insert(STDERR, ResolvedStdio::Inherit),
                ..old(self)@
            }),
    {
        self.apply_default_stdin(Stdio::Null);
        let _ = self.stdout(Stdio::Pipe);
        let _ = self.stderr(Stdio::Inherit);
    }
}

impl<F, S> Default for Command<F, S> {
    fn default() -> (c: Command<F, S>)
        ensures
            c@ == fresh::<F, S>(),
    {
        Command::new()
    }
}

/// The descriptors of `c` once its standard input defaults to `default`: they stay as they are where
/// the password goes through it.
pub open spec fn with_default_stdin<F, S>(
    c: CommandView<F, S>,
    default: ResolvedStdio<F>,
) -> Map<u32, ResolvedStdio<F>> {
    if c.elevation.auth is Stdin {
        c.fds
    } else {
        c.fds.insert(STDIN, default)
    }
}

/// Arguments are kept in the order they are appended in, whether one at a time or several at once.
pub proof fn law_arguments_append_in_order(input: InputView, first: Seq<OsText>, then: Seq<OsText>)
    ensures
        input.appended(first).appended(then) == input.appended(first + then),
{
    match input {
        InputView::Argv(v) => assert((v + first) + then =~= v + (first + then)),
        _ => {},
    }
}

/// An argv and a command line exclude each other, and the last one set wins: arguments appended to a
/// command line are the whole argv, and nothing of the command line is left.
pub proof fn law_the_last_argument_source_wins(line: OsText, args: Seq<OsText>)
    ensures
        InputView::CommandLine(line).appended(args) == InputView::Argv(args),
        InputView::CommandLine(line).appended(args) == InputView::Empty.appended(args),
{
}

/// A default for the standard input touches no other descriptor, and not even that one where a
/// password goes through it.
pub proof fn law_a_default_stdin_touches_nothing_else<F, S>(
    c: CommandView<F, S>,
    default: ResolvedStdio<F>,
    fd: u32,
)
    ensures
        fd != STDIN || c.elevation.auth is Stdin ==> {
            &&& with_default_stdin(c, default).contains_key(fd) <==> c.fds.contains_key(fd)
            &&& c.fds.contains_key(fd) ==> with_default_stdin(c, default)[fd] == c.fds[fd]
        },
{
}

/// The words of the error that `String::from_utf8` gives for `bytes`.
pub uninterp spec fn utf8_error_text(bytes: Seq<u8>) -> Seq<char>;

/// `String::from_utf8`: the text that `bytes` encode, where they are valid UTF-8; where they are not,
/// the words of the error, which says where the first invalid sequence lies: a function of the bytes
/// alone.
#[verifier::external_body]
fn from_utf8(bytes: Vec<u8>) -> (r: Result<String, String>)
    ensures
        match r {
            Ok(s) => vstd::utf8::valid_utf8(bytes@) && s@ == vstd::utf8::decode_utf8(bytes@),
            Err(text) => !vstd::utf8::valid_utf8(bytes@) && text@ == utf8_error_text(bytes@),
        },
{
    match String::from_utf8(bytes) {
        Ok(s) => Ok(s),
        Err(e) => Err(e.to_string()),
    }
}

/// The captured stdout as text, verbatim. Invalid UTF-8 is an error.
pub fn captured_text(stdout: Vec<u8>) -> (r: Result<String, Error>)
    ensures
        match r {
            Ok(s) => vstd::utf8::valid_utf8(stdout@) && s@ == vstd::utf8::decode_utf8(stdout@),
            Err(e) => !vstd::utf8::valid_utf8(stdout@) && (e matches Error::Io(io) && io.errno is None
                && io.kind == ErrorKind::InvalidData && io.text@ == utf8_error_text(stdout@)),
        },
{
    match from_utf8(stdout) {
        Ok(s) => Ok(s),
        Err(text) => Err(Error::Io(OsError { errno: None, kind: ErrorKind::InvalidData, text })),
    }
}

/// Says why this process's working directory was needed as a path, when it cannot be read. Its own
/// error is kept as the source.
#[derive(Debug)]
pub struct CwdUnreadable(pub OsError);

impl CwdUnreadable {
    /// The error in words.
    pub fn to_string(&self) -> (s: String)
        ensures
            s@
                == "elevating raw_executable() needs this process's working directory as a path, and it cannot be read: "@
                + self.0.text@,
    {
        let mut s =
            "elevating raw_executable() needs this process's working directory as a path, and it cannot be read: ".to_owned();
        s.append(self.0.text.as_str());
        s
    }
}

/// What a read of this process's working directory gives, with a failure explained.
pub fn explain_cwd_read(process_cwd: Result<OsText, OsError>) -> (r: Result<OsText, CwdUnreadable>)
    ensures
        match process_cwd {
            Ok(cwd) => r == Ok::<OsText, CwdUnreadable>(cwd),
            Err(e) => r == Err::<OsText, CwdUnreadable>(CwdUnreadable(e)),
        },
{
    match process_cwd {
        Ok(cwd) => Ok(cwd),
        Err(e) => Err(CwdUnreadable(e)),
    }
}

/// A default for the standard input is what it leads to from then on, whatever it led to before, unless
/// a password goes through it; a second default replaces the first.
pub proof fn law_a_default_stdin_stands<F, S>(
    c: CommandView<F, S>,
    first: ResolvedStdio<F>,
    then: ResolvedStdio<F>,
)
    requires
        !(c.elevation.auth is Stdin),
    ensures
        ({
            let wired = CommandView::<F, S> { fds: with_default_stdin(c, first), ..c };
            &&& with_default_stdin(c, first).contains_key(0)
            &&& with_default_stdin(c, first)[0] == first
            &&& with_default_stdin(wired, then) == with_default_stdin(c, then)
        }),
{
    let wired = CommandView::<F, S> { fds: with_default_stdin(c, first), ..c };
    assert(with_default_stdin(wired, then) =~= with_default_stdin(c, then));
}

/// A fresh command asks for nothing: it wires and changes nothing of its child, puts no bit into a
/// Windows spawn's word, root or not, and marks nothing; but its child does not outlive its handle.
pub proof fn law_a_fresh_command_asks_for_nothing<F, S>(is_root: bool)
    ensures
        ({
            let c = fresh::<F, S>();
            &&& c.input is Empty && c.executable is None && c.cwd is None
            &&& c.fds.dom() == Set::<u32>::empty() && c.env_ops.len() == 0 && c.held.len() == 0
            &&& c.kill_on_drop
            &&& c.contain.mode is None && c.contain.nesting == Nesting::Mark
            &&& !c.elevation.enabled && c.elevation.sanitizer is None && !(c.elevation.auth is Stdin)
            &&& c.elevation.backend == Backend::Auto
            &&& !c.fd_marker_suppressed
            &&& !flags::holds_reserved(c.flags)
            &&& flags::composed_word(c.contain, c.flags, is_root, flags::SpawnBackend::Std) == 0
        }),
{
    let c = fresh::<F, S>();
    assert(c.fds.dom() =~= Set::<u32>::empty());
    flags::law_refused_for_reserved_bits(c.flags);
    let mask = flags::reserved_mask();
    assert(0u32 & mask == 0 && 0u32 | 0 == 0u32) by (bit_vector);
}

/// The path that was recorded is the one that was given, whichever setter recorded it.
pub proof fn law_a_path_is_kept_as_written(path: OsText)
    ensures
        ExecutableSpec::Search(path).spec_path() == path,
        ExecutableSpec::Exact(path).spec_path() == path,
{
}

} // verus!
