use contain::config::ContainConfig;
use contain::contain_thread::ContainThread;
use contain::error::{ContainError, OsError, SysError};
use contain::handler::{next_step, HandlerReply, HandlerStep, StopReason};
use contain::ns_ffi::{call_wo_fd, fd_payload, register_request, ByteOrder, NsCall};
use contain::setup::{Access, Action, End, Launch, OpenFlags, Reply, Setup};

const EXIT: i32 = 99;
const NO_ERROR: OsError = OsError { code: 0 };
const ORDER: ByteOrder = ByteOrder::Big;
const ERROR_BIT: usize = 1 << (usize::BITS - 1);

fn config(sandbox: &[&str]) -> ContainConfig {
    ContainConfig {
        pass_schemes: vec!["null".to_string(), "rand".to_string()],
        sandbox_schemes: sandbox.iter().map(|s| s.to_string()).collect(),
        files: vec![],
        dirs: vec![],
        rofiles: vec![],
        rodirs: vec![],
        root: None,
    }
}

fn pipe(read: i32, write: i32) -> Reply {
    Reply::Pipe { rc: 0, read, write, error: NO_ERROR }
}

fn pid(pid: i32) -> Reply {
    Reply::Pid { pid, error: NO_ERROR }
}

/// Gives `replies`, and returns the calls that they answered.
fn drive(setup: &mut Setup, replies: &[Reply]) -> Vec<Action> {
    let mut actions = vec![];
    for reply in replies {
        actions.push(setup.next());
        setup.advance(*reply);
    }
    actions
}

/// The replies up to the fork, for the schemes `file` and `tcp`.
fn replies() -> Vec<Reply> {
    vec![
        Reply::Ns(7),
        Reply::Ns(0),
        Reply::Sys(Ok(20)),
        Reply::Sys(Ok(21)),
        Reply::Sys(Ok(31)),
        Reply::Sys(Ok(0)),
        Reply::Sys(Err(SysError { errno: 9 })),
        Reply::Sys(Ok(22)),
        Reply::Sys(Ok(32)),
        Reply::Sys(Ok(0)),
        Reply::Sys(Ok(0)),
        Reply::Ns(8),
        Reply::Ns(0),
        Reply::Sys(Ok(0)),
        Reply::Sys(Ok(0)),
        Reply::Sys(Ok(0)),
        pipe(40, 41),
        Reply::Sys(Ok(0)),
        pipe(50, 51),
        Reply::Spawned,
    ]
}

fn enter(ens: usize) -> Action {
    Action::Ns(NsCall::SetRens { rns: usize::MAX, ens })
}

fn socket(scheme: usize, path: &str) -> Action {
    Action::OpenSocket {
        scheme,
        capability: 20,
        path: path.to_string(),
        flags: OpenFlags { access: Access::ReadWrite, create: true, close_on_exec: true },
        mode: 0,
    }
}

fn dup(name: &str) -> Action {
    Action::Dup { fd: 7, buf: register_request(&name.to_string(), ORDER) }
}

fn send(register: usize, socket: usize) -> Action {
    Action::Call(call_wo_fd(register, &fd_payload(socket, ORDER)))
}

#[test]
fn the_calls_up_to_the_fork() {
    let mut setup = Setup::new(&config(&["file", "tcp"]), EXIT, ORDER);
    let actions = drive(&mut setup, &replies());
    let expected = vec![
        Action::Ns(NsCall::MkNs {
            names: vec!["null".to_string(), "rand".to_string()],
            flags: 0,
        }),
        enter(7),
        Action::OpenCapability {
            path: "namespace:scheme-creation-cap".to_string(),
            flags: OpenFlags { access: Access::ReadOnly, create: false, close_on_exec: false },
            mode: 0,
        },
        socket(0, ":file"),
        dup("file"),
        send(31, 21),
        Action::CloseFd { fd: 31 },
        socket(1, ":tcp"),
        dup("tcp"),
        send(32, 22),
        Action::CloseFd { fd: 32 },
        Action::Ns(NsCall::GetNs),
        enter(8),
        Action::CreateQueue,
        Action::Subscribe { fd: 21, user_data: 0 },
        Action::Subscribe { fd: 22, user_data: 1 },
        Action::OpenPipe { close_on_exec: true, nonblocking: true },
        Action::Subscribe { fd: 40, user_data: 2 },
        Action::OpenPipe { close_on_exec: false, nonblocking: false },
        Action::SpawnHandler { pipe_index: 2, shutdown_read: 40 },
    ];
    assert_eq!(actions, expected);
    assert_eq!(setup.next(), Action::Fork);
}

#[test]
fn the_child_waits_and_enters_its_namespace() {
    let mut setup = Setup::new(&config(&["file", "tcp"]), EXIT, ORDER);
    drive(&mut setup, &replies());
    let actions = drive(
        &mut setup,
        &[
            pid(0),
            Reply::Count(0),
            Reply::Count(-1),
            Reply::Count(1),
            Reply::Count(0),
            Reply::Ns(0),
        ],
    );
    assert_eq!(
        actions,
        vec![
            Action::Fork,
            Action::Close { fd: 51 },
            Action::Close { fd: 41 },
            Action::ReadByte { fd: 50 },
            Action::Close { fd: 50 },
            enter(7),
        ]
    );
    let launch = Launch { namespace: 7, child_pid: 0, shutdown_pipe: 0, serving: false };
    assert_eq!(setup.next(), Action::Finish(End::Launched(launch)));
    let thread = ContainThread::new("config", &setup, Some("thread")).unwrap();
    assert!(thread.is_child());
    assert_eq!(thread.child_pid(), 0);
    assert_eq!(thread.namespace(), 7);
}

#[test]
fn the_parent_wakes_its_child() {
    let mut setup = Setup::new(&config(&["file", "tcp"]), EXIT, ORDER);
    drive(&mut setup, &replies());
    let actions = drive(
        &mut setup,
        &[pid(1234), Reply::Count(0), Reply::Count(-1), Reply::Count(0)],
    );
    assert_eq!(
        actions,
        vec![
            Action::Fork,
            Action::Close { fd: 50 },
            Action::WriteByte { fd: 51, byte: 1 },
            Action::Close { fd: 51 },
        ]
    );
    let launch = Launch { namespace: 7, child_pid: 1234, shutdown_pipe: 41, serving: true };
    assert_eq!(setup.next(), Action::Finish(End::Launched(launch)));
    let mut thread = ContainThread::new("config", &setup, Some("thread")).unwrap();
    assert!(!thread.is_child());
    assert_eq!(thread.child_pid(), 1234);
    assert_eq!(thread.namespace(), 7);
    assert_eq!(*thread.config(), "config");
    assert_eq!(thread.signal_shutdown(), Action::WriteByte { fd: 41, byte: 0 });
    let signal = Action::WriteByte { fd: 41, byte: 0 };
    assert_eq!(thread.release(), (signal, Some("thread")));
    let signal = Action::WriteByte { fd: 41, byte: 0 };
    assert_eq!(thread.release(), (signal, None));
}

#[test]
fn setup_without_sandboxed_schemes() {
    let mut setup = Setup::new(&config(&[]), EXIT, ORDER);
    let actions = drive(
        &mut setup,
        &[
            Reply::Ns(7),
            Reply::Ns(0),
            Reply::Sys(Ok(20)),
            Reply::Ns(8),
            Reply::Ns(0),
            Reply::Sys(Ok(0)),
            pipe(40, 41),
            Reply::Sys(Ok(0)),
            pipe(50, 51),
            Reply::Spawned,
        ],
    );
    assert_eq!(actions[3], Action::Ns(NsCall::GetNs));
    assert_eq!(actions[7], Action::Subscribe { fd: 40, user_data: 0 });
    assert_eq!(actions[9], Action::SpawnHandler { pipe_index: 0, shutdown_read: 40 });
    assert_eq!(setup.next(), Action::Fork);
}

#[test]
fn setup_is_bounded() {
    let mut setup = Setup::new(&config(&["file", "tcp"]), EXIT, ORDER);
    let mut calls = drive(&mut setup, &replies()).len();
    calls += drive(
        &mut setup,
        &[
            pid(0),
            Reply::Count(0),
            Reply::Count(0),
            Reply::Count(1),
            Reply::Count(0),
            Reply::Ns(0),
        ],
    )
    .len();
    assert_eq!(calls, 5 * 2 + 16);
    assert!(matches!(setup.next(), Action::Finish(_)));
}

#[test]
fn failure_ends_setup() {
    let all = replies();
    for k in 0..all.len() {
        let mut setup = Setup::new(&config(&["file", "tcp"]), EXIT, ORDER);
        drive(&mut setup, &all[..k]);
        let error = OsError { code: 24 };
        let (reply, expected) = match all[k] {
            Reply::Ns(_) => (
                Reply::Ns(ERROR_BIT | 13),
                ContainError::SyscallError(SysError { errno: 13 }),
            ),
            Reply::Sys(_) => (
                Reply::Sys(Err(SysError { errno: 2 })),
                ContainError::SyscallError(SysError { errno: 2 }),
            ),
            Reply::Pipe { .. } => (
                Reply::Pipe { rc: -1, read: 0, write: 0, error },
                ContainError::IoError(error),
            ),
            _ => continue,
        };
        let closes_register = matches!(setup.next(), Action::CloseFd { .. });
        setup.advance(reply);
        if closes_register {
            assert!(!matches!(setup.next(), Action::Finish(_)));
        } else {
            assert_eq!(setup.next(), Action::Finish(End::Failed(expected)));
            assert_eq!(
                ContainThread::<u8, u8>::new(0, &setup, None).err(),
                Some(expected)
            );
        }
    }
}

#[test]
fn a_failed_fork_is_an_error() {
    let mut setup = Setup::new(&config(&["file", "tcp"]), EXIT, ORDER);
    drive(&mut setup, &replies());
    let error = OsError { code: 11 };
    setup.advance(Reply::Pid { pid: -1, error });
    assert_eq!(setup.next(), Action::Finish(End::Failed(ContainError::IoError(error))));
}

#[test]
fn a_child_that_is_not_woken_exits() {
    for count in [0, -1] {
        let mut setup = Setup::new(&config(&["file", "tcp"]), EXIT, ORDER);
        drive(&mut setup, &replies());
        drive(&mut setup, &[pid(0), Reply::Count(0), Reply::Count(0), Reply::Count(count)]);
        assert_eq!(setup.next(), Action::Close { fd: 50 });
        setup.advance(Reply::Count(0));
        assert_eq!(setup.next(), Action::Finish(End::Exited(EXIT)));
    }
}

#[test]
fn a_child_that_cannot_enter_its_namespace_exits() {
    let mut setup = Setup::new(&config(&["file", "tcp"]), EXIT, ORDER);
    drive(&mut setup, &replies());
    drive(
        &mut setup,
        &[
            pid(0),
            Reply::Count(0),
            Reply::Count(0),
            Reply::Count(1),
            Reply::Count(0),
            Reply::Ns(ERROR_BIT | 1),
        ],
    );
    assert_eq!(setup.next(), Action::Finish(End::Exited(EXIT)));
}

#[test]
fn sockets_are_opened_through_the_capability() {
    let mut all = replies();
    all[2] = Reply::Sys(Ok(77));
    let mut setup = Setup::new(&config(&["tcp", "file"]), EXIT, ORDER);
    let mut opened = vec![];
    for action in drive(&mut setup, &all) {
        if let Action::OpenSocket { scheme, capability, path, .. } = action {
            opened.push((scheme, capability, path));
        }
    }
    assert_eq!(opened, vec![(0, 77, ":tcp".to_string()), (1, 77, ":file".to_string())]);
}

#[test]
fn requests_are_in_the_byte_order_of_the_machine() {
    let mut setup = Setup::new(&config(&["file"]), EXIT, ByteOrder::Little);
    drive(&mut setup, &replies()[..4]);
    let mut request = 2usize.to_le_bytes().to_vec();
    request.extend_from_slice(b"file");
    assert_eq!(setup.next(), Action::Dup { fd: 7, buf: request });
    setup.advance(Reply::Sys(Ok(31)));
    let payload = 21usize.to_le_bytes().to_vec();
    assert_eq!(setup.next(), Action::Call(call_wo_fd(31, &payload)));
}

/// The parent's setup, complete, and the calls that it took.
fn parent() -> (Setup, Vec<Action>) {
    let mut setup = Setup::new(&config(&["file", "tcp"]), EXIT, ORDER);
    let mut actions = drive(&mut setup, &replies());
    actions.extend(drive(
        &mut setup,
        &[pid(1234), Reply::Count(0), Reply::Count(1), Reply::Count(0)],
    ));
    (setup, actions)
}

#[test]
fn shutdown_signal_reaches_the_handler() {
    let (setup, actions) = parent();
    let thread = ContainThread::new("config", &setup, Some("thread")).unwrap();
    assert_eq!(thread.signal_shutdown(), Action::WriteByte { fd: 41, byte: 0 });
    assert!(actions.contains(&Action::Subscribe { fd: 40, user_data: 2 }));
    assert!(actions.contains(&Action::SpawnHandler { pipe_index: 2, shutdown_read: 40 }));
    assert_eq!(
        next_step(2, HandlerStep::Wait, HandlerReply::Event(Some(Ok(2)))),
        HandlerStep::Stop(StopReason::Shutdown)
    );
}

#[test]
fn parent_keeps_the_shutdown_pipe_open() {
    let (_, actions) = parent();
    assert!(!actions.contains(&Action::Close { fd: 40 }));
    assert!(!actions.contains(&Action::CloseFd { fd: 40 }));
    assert!(!actions.contains(&Action::Close { fd: 41 }));
}
