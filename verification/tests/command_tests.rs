//! The command builder.

use cosca::command::{captured_text, explain_cwd_read, Command, CommandInput, CwdUnreadable, EnvOp, ExecutableSpec};
use cosca::containment::{ContainMode, ContainRequest, Nesting, NESTED_ENV};
use cosca::elevation::{Auth, Backend};
use cosca::errno::{ErrorKind, OsError};
use cosca::error::Error;
use cosca::stdio::{ResolvedStdio, Stdio, STDERR, STDIN, STDOUT};

type Cmd = Command<&'static str, &'static str>;

fn text(s: &str) -> Vec<u8> {
    s.as_bytes().to_vec()
}

fn argv(c: &Cmd) -> Vec<Vec<u8>> {
    match c.input() {
        CommandInput::Argv(v) => v.clone(),
        other => panic!("expected an argv, got {other:?}"),
    }
}

/// A fresh command asks for nothing but a teardown with its handle.
#[test]
fn a_fresh_command_asks_for_nothing() {
    for c in [Cmd::new(), Cmd::default()] {
        assert!(matches!(c.input(), CommandInput::Empty));
        assert!(c.executable_path().is_none() && c.executable_spec().is_none());
        assert!(c.fds().is_empty() && c.env_ops().is_empty() && c.cwd().is_none());
        assert!(c.kill_on_drop_flag());
        assert_eq!(
            c.contain_request(),
            ContainRequest {
                mode: None,
                nesting: Nesting::Mark,
            }
        );
        assert!(!c.flags_request().no_window && c.flags_request().raw == 0);
        assert!(!c.elevation_request().enabled && !c.fd_marker_suppressed());
    }
    assert_eq!(NESTED_ENV, "__COSCA_GROUP_ROOT");
}

/// Arguments append in order; a command line and an argv exclude each other.
#[test]
fn the_last_argument_source_wins() {
    let mut c = Cmd::new();
    c.arg(text("a")).args(vec![text("b"), text("c")]).arg(text("d"));
    assert_eq!(argv(&c), vec![text("a"), text("b"), text("c"), text("d")]);
    c.commandline(text("x y"));
    assert!(matches!(c.input(), CommandInput::CommandLine(line) if *line == text("x y")));
    c.args(vec![text("z")]);
    assert_eq!(argv(&c), vec![text("z")], "nothing of the command line is left");
    c.commandline(text("x")).arg(text("w"));
    assert_eq!(argv(&c), vec![text("w")]);
}

/// The two executable setters overwrite each other.
#[test]
fn the_last_executable_wins() {
    let mut c = Cmd::new();
    c.executable(text("/bin/busybox"));
    assert!(matches!(c.executable_spec(), Some(ExecutableSpec::Search(_))));
    c.raw_executable(text("./tool"));
    assert!(matches!(c.executable_spec(), Some(ExecutableSpec::Exact(_))));
    assert_eq!(c.executable_path(), Some(&text("./tool")));
    c.set_executable_spec(Some(ExecutableSpec::Search(text("t"))));
    assert_eq!(c.executable_path(), Some(&text("t")));
    c.set_input_argv(vec![text("sudo")]);
    assert!(c.executable_spec().is_none(), "a derived argv forgets the executable");
    assert_eq!(argv(&c), vec![text("sudo")]);
}

/// Environment operations are recorded in order.
#[test]
fn environment_operations_keep_their_order() {
    let mut c = Cmd::new();
    c.env_clear()
        .env(text("A"), text("1"))
        .envs(vec![(text("B"), text("2")), (text("C"), text("3"))])
        .env_remove(text("A"));
    let seen: Vec<String> = c
        .env_ops()
        .iter()
        .map(|op| match op {
            EnvOp::Assign(k, v) => format!("{}={}", k[0] as char, v[0] as char),
            EnvOp::Remove(k) => format!("-{}", k[0] as char),
            EnvOp::Clear => "clear".to_string(),
        })
        .collect();
    assert_eq!(seen, vec!["clear", "A=1", "B=2", "C=3", "-A"]);
    c.set_env_ops(vec![EnvOp::Clear]);
    assert_eq!(c.env_ops().len(), 1);
    c.current_dir(text("/tmp"));
    assert_eq!(c.cwd(), Some(&text("/tmp")));
}

/// A bare pipe above the standard descriptors has no direction, and then nothing changes.
#[test]
fn an_ambiguous_pipe_is_refused_at_once() {
    let mut c = Cmd::new();
    assert!(matches!(c.fd(3, Stdio::Pipe), Err(Error::AmbiguousPipe { fd: 3 })));
    assert!(c.fds().is_empty());
    c.fd(3, Stdio::PipeIn).expect("directed");
    c.fd(4, Stdio::Merge(3)).expect("merged").fd(5, Stdio::File("log")).expect("a file");
    c.stdin(Stdio::Pipe).expect("read").stdout(Stdio::Pipe).expect("written").stderr(Stdio::PipeOut).expect("written");
    assert!(matches!(c.fds().get(&STDIN), Some(ResolvedStdio::PipeIn)));
    assert!(matches!(c.fds().get(&STDOUT), Some(ResolvedStdio::PipeOut)));
    assert!(matches!(c.fds().get(&3), Some(ResolvedStdio::PipeIn)));
    assert!(matches!(c.fds().get(&4), Some(ResolvedStdio::Merge(3))));
    assert!(matches!(c.fds().get(&5), Some(ResolvedStdio::File("log"))));
    c.fds_mut().remove(&5);
    assert_eq!(c.fds().len(), 5);
    c.hold("backend");
}

/// Containment, flags and elevation are recorded as they were asked for.
#[test]
fn requests_are_recorded() {
    let mut c = Cmd::new();
    c.contain().nesting(Nesting::Opaque);
    assert_eq!(
        c.contain_request(),
        ContainRequest {
            mode: Some(ContainMode::Strongest),
            nesting: Nesting::Opaque,
        }
    );
    c.contain_with(ContainMode::Session);
    assert_eq!(c.contain_request().mode, Some(ContainMode::Session));
    assert_eq!(c.contain_request().nesting, Nesting::Opaque);
    c.set_contain(ContainRequest::default());
    assert_eq!(c.contain_request().mode, None);
    c.no_window().detached().breakaway_from_job().creation_flags(1).creation_flags(0x40);
    let flags = *c.flags_request();
    assert!(flags.no_window && flags.detached && flags.breakaway_from_job);
    assert_eq!(flags.raw, 0x40, "a raw word replaces, it does not accumulate");
    c.kill_on_drop(false).suppress_fd_marker();
    assert!(!c.kill_on_drop_flag() && c.fd_marker_suppressed());
    c.elevation_backend(Backend::Doas);
    assert!(c.elevation_request().enabled, "a backend implies elevation");
    assert_eq!(c.elevation_request().backend, Backend::Doas);
    let mut c = Cmd::new();
    c.sanitize_env("filter");
    assert!(c.elevation_request().enabled && c.elevation_request().sanitizer == Some("filter"));
    let mut c = Cmd::new();
    c.elevate();
    assert!(c.elevation_request().enabled && matches!(c.elevation_request().auth, Auth::Interactive));
}

/// The conveniences wire the standard descriptors, and leave the input that a password needs alone.
#[test]
fn conveniences_wire_the_standard_descriptors() {
    let mut c = Cmd::new();
    c.output();
    assert!(matches!(c.fds().get(&STDIN), Some(ResolvedStdio::Null)));
    assert!(matches!(c.fds().get(&STDOUT), Some(ResolvedStdio::PipeOut)));
    assert!(matches!(c.fds().get(&STDERR), Some(ResolvedStdio::PipeOut)));
    c.status();
    for fd in [STDIN, STDOUT, STDERR] {
        assert!(matches!(c.fds().get(&fd), Some(ResolvedStdio::Inherit)), "no pipe is left to fill");
    }
    let mut c = Cmd::new();
    c.read();
    assert!(matches!(c.fds().get(&STDIN), Some(ResolvedStdio::Null)));
    assert!(matches!(c.fds().get(&STDOUT), Some(ResolvedStdio::PipeOut)));
    assert!(matches!(c.fds().get(&STDERR), Some(ResolvedStdio::Inherit)));
    let mut c = Cmd::new();
    c.stdin(Stdio::Inherit).expect("stdin");
    c.stdout(Stdio::Null).expect("stdout");
    c.stderr(Stdio::Null).expect("stderr");
    c.read();
    assert!(matches!(c.fds().get(&STDIN), Some(ResolvedStdio::Null)));
    assert!(matches!(c.fds().get(&STDOUT), Some(ResolvedStdio::PipeOut)));
    assert!(
        matches!(c.fds().get(&STDERR), Some(ResolvedStdio::Inherit)),
        "stderr is inherited, whatever was configured before"
    );
    let mut c = Cmd::new();
    c.elevation_auth(Auth::Stdin(text("pw")));
    c.output();
    c.status();
    c.read();
    assert!(c.fds().get(&STDIN).is_none(), "the password needs the standard input for itself");
}

/// The captured text is verbatim, and invalid UTF-8 is an error.
#[test]
fn captured_text_is_verbatim_utf8() {
    assert_eq!(captured_text(text(" é\n\n")).expect("valid"), " é\n\n");
    assert_eq!(captured_text(Vec::new()).expect("valid"), "");
    match captured_text(vec![0x66, 0xff]) {
        Err(Error::Io(e)) => {
            assert_eq!((e.errno, e.kind), (None, ErrorKind::InvalidData));
            assert_eq!(e.text, String::from_utf8(vec![0x66, 0xff]).expect_err("invalid").to_string());
        }
        other => panic!("expected an error, got {other:?}"),
    }
}

/// An unreadable working directory says why a path was needed, and keeps its own error.
#[test]
fn an_unreadable_cwd_is_explained() {
    assert_eq!(explain_cwd_read(Ok(text("/tmp"))).expect("read"), text("/tmp"));
    let CwdUnreadable(source) = explain_cwd_read(Err(OsError::from_raw_os_error(libc::ENOENT))).expect_err("unreadable");
    assert_eq!(source.errno, Some(libc::ENOENT));
    assert_eq!(
        CwdUnreadable(OsError::other("gone".to_string())).to_string(),
        "elevating raw_executable() needs this process's working directory as a path, and it cannot be read: gone"
    );
}
