//! Setting up a container: the calls that it takes, and in which order.
//!
//! A [`Setup`] says which call comes next, and is told what came of it. The calls are these:
//!
//! 1. create a namespace that holds the passed schemes, and enter it;
//! 2. open the capability to create schemes;
//! 3. for each sandboxed scheme, open a socket through that capability and register it on the
//!    namespace;
//! 4. refresh the namespace;
//! 5. subscribe to the sockets and to the pipe by which the handler is told to stop;
//! 6. open the pipe by which the child is woken, spawn the handler, which from then on owns the
//!    end of its pipe that it is subscribed to, and fork;
//! 7. in the child, wait to be woken and enter the namespace; in the parent, wake the child.
use vstd::prelude::*;

use crate::config::ContainConfig;
use crate::error::{ContainError, OsError, SysError};
use crate::ns_ffi::{call_wo_fd, check, fd_payload, getns, mkns, register_request, setrens};
use crate::ns_ffi::{checked, request_bytes, word_bytes};
use crate::ns_ffi::{ByteOrder, FdCall, NsCall};
use crate::text::texts;

verus! {

/// What an opened file may be used for.
#[derive(Clone, Copy, Debug, PartialEq, Eq, Structural)]
pub enum Access {
    ReadOnly,
    ReadWrite,
}

/// How a file is opened.
#[derive(Clone, Copy, Debug, PartialEq, Eq, Structural)]
pub struct OpenFlags {
    pub access: Access,
    pub create: bool,
    pub close_on_exec: bool,
}

/// A container that has been set up, as one of its two processes sees it.
#[derive(Clone, Copy, Debug, PartialEq, Eq, Structural)]
pub struct Launch {
    /// The container's namespace.
    pub namespace: usize,
    /// The contained process; 0 in that process itself.
    pub child_pid: usize,
    /// Where the handler is told to stop; 0 in the contained process.
    pub shutdown_pipe: usize,
    /// Whether this process runs the handler.
    pub serving: bool,
}

/// How setting up a container ends.
#[derive(Clone, Copy, Debug, PartialEq, Eq)]
pub enum End {
    /// The container is set up.
    Launched(Launch),
    /// It could not be set up.
    Failed(ContainError<OsError>),
    /// The contained process is to exit with this code.
    Exited(i32),
}

/// The next call to make.
#[allow(inconsistent_fields)]
#[derive(Debug, PartialEq, Eq)]
pub enum Action {
    /// Call the namespace interface.
    Ns(NsCall),
    /// Open the capability to create schemes, and keep it open until the end.
    OpenCapability { path: String, flags: OpenFlags, mode: u16 },
    /// Open the socket of a sandboxed scheme through the capability to create schemes, and
    /// keep it for the handler.
    OpenSocket { scheme: usize, capability: usize, path: String, flags: OpenFlags, mode: u16 },
    /// Duplicate a file descriptor, with a request to its scheme.
    Dup { fd: usize, buf: Vec<u8> },
    /// Hand a payload to a scheme.
    Call(FdCall),
    /// Close a file descriptor of the system.
    CloseFd { fd: usize },
    /// Create the event queue.
    CreateQueue,
    /// Have the queue tell when `fd` can be read, under the number `user_data`.
    Subscribe { fd: usize, user_data: usize },
    /// Open a pipe.
    OpenPipe { close_on_exec: bool, nonblocking: bool },
    /// Spawn the handler, with the queue, the sockets, and the end from which it is told to
    /// stop. The handler owns that end: it stays open for as long as the handler may be told.
    SpawnHandler { pipe_index: usize, shutdown_read: i32 },
    /// Fork.
    Fork,
    /// Close a file descriptor of the C library.
    Close { fd: i32 },
    /// Read one byte.
    ReadByte { fd: i32 },
    /// Write one byte.
    WriteByte { fd: i32, byte: u8 },
    /// There is nothing left to do.
    Finish(End),
}

/// What came of a call.
#[derive(Clone, Copy, Debug, PartialEq, Eq)]
pub enum Reply {
    /// The raw result of a call of the namespace interface.
    Ns(usize),
    /// The result of a system call: a file descriptor, where the call makes one.
    Sys(Result<usize, SysError>),
    /// The result code of opening a pipe, its two ends, and the error where there was one.
    Pipe { rc: i32, read: i32, write: i32, error: OsError },
    /// The result of forking, and the error where there was one.
    Pid { pid: i32, error: OsError },
    /// The result of reading, writing or closing a file descriptor of the C library.
    Count(isize),
    /// The handler has been spawned.
    Spawned,
}

/// What a container is set up from.
#[verifier::ext_equal]
pub struct Plan {
    /// The schemes that the contained command reaches directly.
    pub pass: Seq<Seq<char>>,
    /// The schemes that are served to it through a filter.
    pub sandbox: Seq<Seq<char>>,
    /// The exit code of a child that cannot go on.
    pub exec_fail_exit: i32,
    /// The machine's byte order.
    pub order: ByteOrder,
}

/// How far setting up a container has got: the replies so far, and how it ended, if it did.
#[verifier::ext_equal]
pub struct Progress {
    pub plan: Plan,
    pub replies: Seq<Reply>,
    pub end: Option<End>,
}

/// Which kind of reply a call has.
pub enum ReplyKind {
    Ns,
    Sys,
    Pipe,
    Pid,
    Count,
    Spawned,
}

/// The number of the call that asks for the namespace anew, with `n` sandboxed schemes.
pub open spec fn getns_at(n: int) -> int {
    4 * n + 3
}

/// The number of the call that opens the pipe by which the handler is told to stop.
pub open spec fn shutdown_at(n: int) -> int {
    5 * n + 6
}

/// The number of the call that opens the pipe by which the child is woken.
pub open spec fn sync_at(n: int) -> int {
    5 * n + 8
}

/// The number of the call that forks.
pub open spec fn fork_at(n: int) -> int {
    5 * n + 10
}

/// The number of the call that opens the socket of the scheme `i`. The three calls that
/// follow it register that socket.
pub open spec fn socket_at(i: int) -> int {
    4 * i + 3
}

/// The value of a reply that succeeded.
pub open spec fn value(reply: Reply) -> usize {
    match reply {
        Reply::Ns(v) => v,
        Reply::Sys(Ok(v)) => v,
        _ => 0,
    }
}

/// The end from which a pipe is read.
pub open spec fn read_end(reply: Reply) -> i32 {
    match reply {
        Reply::Pipe { read, .. } => read,
        _ => 0,
    }
}

/// The end to which a pipe is written.
pub open spec fn write_end(reply: Reply) -> i32 {
    match reply {
        Reply::Pipe { write, .. } => write,
        _ => 0,
    }
}

/// The process that forking gave.
pub open spec fn forked(replies: Seq<Reply>, n: int) -> i32 {
    match replies[fork_at(n)] {
        Reply::Pid { pid, .. } => pid,
        _ => 0,
    }
}

/// The call `k` closes a capability to register a scheme.
pub open spec fn closes_register(n: int, k: int) -> bool {
    socket_at(0) <= k < getns_at(n) && (k - socket_at(0)) % 4 == 3
}

/// `a` enters the namespace `ns`.
pub open spec fn enters(a: Action, ns: usize) -> bool {
    a == Action::Ns(NsCall::SetRens { rns: usize::MAX, ens: ns })
}

/// `a` is the call `j` of the four that give the sandboxed scheme `i` its socket.
pub open spec fn registers(plan: Plan, replies: Seq<Reply>, i: int, j: int, a: Action) -> bool {
    let name = plan.sandbox[i];
    let socket = value(replies[socket_at(i)]);
    let register = value(replies[socket_at(i) + 1]);
    if j == 0 {
        &&& a matches Action::OpenSocket { scheme, capability, path, flags, mode }
        &&& scheme == i
        &&& capability == value(replies[2])
        &&& path@ == seq![':'] + name
        &&& flags == OpenFlags { access: Access::ReadWrite, create: true, close_on_exec: true }
        &&& mode == 0
    } else if j == 1 {
        &&& a matches Action::Dup { fd, buf }
        &&& fd == value(replies[0])
        &&& buf@ == request_bytes(name, plan.order)
    } else if j == 2 {
        &&& a matches Action::Call(call)
        &&& call.number == 0x2300_CA11
        &&& call.options == 0xA00
        &&& call.fd == register
        &&& call.payload@ == word_bytes(socket, plan.order)
    } else {
        a == Action::CloseFd { fd: register }
    }
}

/// `a` is the call `j` of the child.
pub open spec fn child_calls(replies: Seq<Reply>, n: int, j: int, a: Action) -> bool {
    if j == 0 {
        a == Action::Close { fd: write_end(replies[sync_at(n)]) }
    } else if j == 1 {
        a == Action::Close { fd: write_end(replies[shutdown_at(n)]) }
    } else if j == 2 {
        a == Action::ReadByte { fd: read_end(replies[sync_at(n)]) }
    } else if j == 3 {
        a == Action::Close { fd: read_end(replies[sync_at(n)]) }
    } else {
        enters(a, value(replies[0]))
    }
}

/// `a` is the call `j` of the parent.
pub open spec fn parent_calls(replies: Seq<Reply>, n: int, j: int, a: Action) -> bool {
    if j == 0 {
        a == Action::Close { fd: read_end(replies[sync_at(n)]) }
    } else if j == 1 {
        a == Action::WriteByte { fd: write_end(replies[sync_at(n)]), byte: 1 }
    } else {
        a == Action::Close { fd: write_end(replies[sync_at(n)]) }
    }
}

/// `a` is the call `k`, after the replies to the calls before it.
pub open spec fn is_call(plan: Plan, replies: Seq<Reply>, k: int, a: Action) -> bool {
    let n = plan.sandbox.len() as int;
    if k == 0 {
        &&& a matches Action::Ns(NsCall::MkNs { names, flags })
        &&& texts(names@) == plan.pass
        &&& flags == 0
    } else if k == 1 {
        enters(a, value(replies[0]))
    } else if k == 2 {
        &&& a matches Action::OpenCapability { path, flags, mode }
        &&& path@ == "namespace:scheme-creation-cap"@
        &&& flags == OpenFlags { access: Access::ReadOnly, create: false, close_on_exec: false }
        &&& mode == 0
    } else if k < getns_at(n) {
        registers(plan, replies, (k - socket_at(0)) / 4, (k - socket_at(0)) % 4, a)
    } else if k == getns_at(n) {
        a == Action::Ns(NsCall::GetNs)
    } else if k == getns_at(n) + 1 {
        enters(a, value(replies[getns_at(n)]))
    } else if k == getns_at(n) + 2 {
        a == Action::CreateQueue
    } else if k < shutdown_at(n) {
        let i = k - (getns_at(n) + 3);
        a == Action::Subscribe { fd: value(replies[socket_at(i)]), user_data: i as usize }
    } else if k == shutdown_at(n) {
        a == Action::OpenPipe { close_on_exec: true, nonblocking: true }
    } else if k == shutdown_at(n) + 1 {
        a == Action::Subscribe {
            fd: read_end(replies[shutdown_at(n)]) as usize,
            user_data: n as usize,
        }
    } else if k == sync_at(n) {
        a == Action::OpenPipe { close_on_exec: false, nonblocking: false }
    } else if k == sync_at(n) + 1 {
        a == Action::SpawnHandler {
            pipe_index: n as usize,
            shutdown_read: read_end(replies[shutdown_at(n)]),
        }
    } else if k == fork_at(n) {
        a == Action::Fork
    } else if forked(replies, n) == 0 {
        child_calls(replies, n, k - (fork_at(n) + 1), a)
    } else {
        parent_calls(replies, n, k - (fork_at(n) + 1), a)
    }
}

/// The kind of reply that the call `k` has.
pub open spec fn kind_of(n: int, k: int) -> ReplyKind {
    if k < 2 || k == getns_at(n) || k == getns_at(n) + 1 || k == fork_at(n) + 5 {
        ReplyKind::Ns
    } else if k == shutdown_at(n) || k == sync_at(n) {
        ReplyKind::Pipe
    } else if k == sync_at(n) + 1 {
        ReplyKind::Spawned
    } else if k < fork_at(n) {
        ReplyKind::Sys
    } else if k == fork_at(n) {
        ReplyKind::Pid
    } else {
        ReplyKind::Count
    }
}

/// `reply` can be what came of the call `k`. Opening a pipe gives 0 or -1.
pub open spec fn answers(n: int, k: int, reply: Reply) -> bool {
    match (kind_of(n, k), reply) {
        (ReplyKind::Ns, Reply::Ns(_)) => true,
        (ReplyKind::Sys, Reply::Sys(_)) => true,
        (ReplyKind::Pipe, Reply::Pipe { rc, .. }) => rc == 0 || rc == -1,
        (ReplyKind::Pid, Reply::Pid { .. }) => true,
        (ReplyKind::Count, Reply::Count(_)) => true,
        (ReplyKind::Spawned, Reply::Spawned) => true,
        _ => false,
    }
}

/// The error that a reply tells of.
pub open spec fn error_of(reply: Reply) -> Option<ContainError<OsError>> {
    match reply {
        Reply::Ns(raw) => match checked(raw) {
            Err(e) => Some(ContainError::SyscallError(e)),
            Ok(_) => None,
        },
        Reply::Sys(Err(e)) => Some(ContainError::SyscallError(e)),
        Reply::Pipe { rc, error, .. } => if rc == -1 {
            Some(ContainError::IoError(error))
        } else {
            None
        },
        Reply::Pid { pid, error } => if pid == -1 {
            Some(ContainError::IoError(error))
        } else {
            None
        },
        _ => None,
    }
}

/// What the reply to the call `k` puts an end to, if it does: an error up to the fork is an
/// error of the whole, and in the child it is an exit, as is not being woken by one byte.
/// Whether a capability to register a scheme could be closed does not matter.
pub open spec fn stops(plan: Plan, replies: Seq<Reply>, k: int) -> Option<End> {
    let n = plan.sandbox.len() as int;
    match error_of(replies[k]) {
        Some(_) if closes_register(n, k) => None,
        Some(e) if k <= fork_at(n) => Some(End::Failed(e)),
        Some(_) => Some(End::Exited(plan.exec_fail_exit)),
        None => if k == fork_at(n) + 4 && forked(replies, n) == 0 && replies[fork_at(n) + 3]
            != Reply::Count(1) {
            Some(End::Exited(plan.exec_fail_exit))
        } else {
            None
        },
    }
}

/// The container as it is set up once `k` calls have succeeded, if that is all of them.
pub open spec fn launches(plan: Plan, replies: Seq<Reply>, k: int) -> Option<End> {
    let n = plan.sandbox.len() as int;
    if k <= fork_at(n) {
        None
    } else if forked(replies, n) == 0 {
        if k == fork_at(n) + 6 {
            Some(
                End::Launched(
                    Launch {
                        namespace: value(replies[0]),
                        child_pid: 0,
                        shutdown_pipe: 0,
                        serving: false,
                    },
                ),
            )
        } else {
            None
        }
    } else if k == fork_at(n) + 4 {
        Some(
            End::Launched(
                Launch {
                    namespace: value(replies[0]),
                    child_pid: forked(replies, n) as usize,
                    shutdown_pipe: write_end(replies[shutdown_at(n)]) as usize,
                    serving: true,
                },
            ),
        )
    } else {
        None
    }
}

/// Setting up has gone on past the reply to the call `k`.
pub open spec fn goes_on(plan: Plan, replies: Seq<Reply>, k: int) -> bool {
    &&& answers(plan.sandbox.len() as int, k, replies[k])
    &&& stops(plan, replies, k) is None
    &&& launches(plan, replies, k) is None
}

/// `replies` are replies with which setting up has gone on.
pub open spec fn is_run(plan: Plan, replies: Seq<Reply>) -> bool {
    forall|k: int| 0 <= k < replies.len() ==> #[trigger] goes_on(plan, replies, k)
}

/// Setting up, having had `replies`, ends with `end`: it is complete, or some further reply
/// puts an end to it.
pub open spec fn is_end(plan: Plan, replies: Seq<Reply>, end: End) -> bool {
    let k = replies.len() as int;
    ||| launches(plan, replies, k) == Some(end)
    ||| launches(plan, replies, k) is None && exists|reply: Reply|
        answers(plan.sandbox.len() as int, k, reply) && #[trigger] stops(
            plan,
            replies.push(reply),
            k,
        ) == Some(end)
}

/// `p` is how far setting up can get.
pub open spec fn is_progress(p: Progress) -> bool {
    &&& is_run(p.plan, p.replies)
    &&& match p.end {
        None => launches(p.plan, p.replies, p.replies.len() as int) is None,
        Some(end) => is_end(p.plan, p.replies, end),
    }
}

/// How far setting up has got after one more reply.
pub open spec fn after(p: Progress, reply: Reply) -> Progress {
    let replies = p.replies.push(reply);
    match stops(p.plan, replies, p.replies.len() as int) {
        Some(end) => Progress { end: Some(end), ..p },
        None => Progress {
            plan: p.plan,
            replies,
            end: launches(p.plan, replies, replies.len() as int),
        },
    }
}

/// The call that comes next.
#[derive(Clone, Copy, Debug)]
enum Stage {
    MakeNamespace,
    EnterNamespace,
    OpenCapability,
    OpenSocket,
    IssueRegister,
    SendSocket,
    CloseRegister,
    GetNamespace,
    RefreshNamespace,
    CreateQueue,
    SubscribeSocket,
    OpenShutdownPipe,
    SubscribeShutdownPipe,
    OpenSyncPipe,
    SpawnHandler,
    Fork,
    ChildCloseWake,
    ChildCloseShutdown,
    ChildWait,
    ChildCloseWait,
    ChildEnterNamespace,
    ParentCloseWait,
    ParentWake,
    ParentCloseWake,
    Ended(End),
}

/// The number of the call at `stage`, which for some is about the scheme `i` of `n`.
spec fn number_of(stage: Stage, i: int, n: int) -> int {
    match stage {
        Stage::MakeNamespace => 0,
        Stage::EnterNamespace => 1,
        Stage::OpenCapability => 2,
        Stage::OpenSocket => socket_at(i),
        Stage::IssueRegister => socket_at(i) + 1,
        Stage::SendSocket => socket_at(i) + 2,
        Stage::CloseRegister => socket_at(i) + 3,
        Stage::GetNamespace => getns_at(n),
        Stage::RefreshNamespace => getns_at(n) + 1,
        Stage::CreateQueue => getns_at(n) + 2,
        Stage::SubscribeSocket => getns_at(n) + 3 + i,
        Stage::OpenShutdownPipe => shutdown_at(n),
        Stage::SubscribeShutdownPipe => shutdown_at(n) + 1,
        Stage::OpenSyncPipe => sync_at(n),
        Stage::SpawnHandler => sync_at(n) + 1,
        Stage::Fork => fork_at(n),
        Stage::ChildCloseWake => fork_at(n) + 1,
        Stage::ChildCloseShutdown => fork_at(n) + 2,
        Stage::ChildWait => fork_at(n) + 3,
        Stage::ChildCloseWait => fork_at(n) + 4,
        Stage::ChildEnterNamespace => fork_at(n) + 5,
        Stage::ParentCloseWait => fork_at(n) + 1,
        Stage::ParentWake => fork_at(n) + 2,
        Stage::ParentCloseWake => fork_at(n) + 3,
        Stage::Ended(_) => -1,
    }
}

/// A container that is being set up.
pub struct Setup {
    pass: Vec<String>,
    sandbox: Vec<String>,
    exec_fail_exit: i32,
    order: ByteOrder,
    stage: Stage,
    /// The sandboxed scheme that the stage is about.
    index: usize,
    namespace: usize,
    /// The capability to create schemes.
    capability: usize,
    sockets: Vec<usize>,
    /// The capability to register the scheme at hand.
    register: usize,
    /// The namespace as it is after the schemes have been registered.
    refreshed: usize,
    shutdown_read: i32,
    shutdown_write: i32,
    sync_read: i32,
    sync_write: i32,
    pid: i32,
    /// How many bytes the child was woken with.
    woken: isize,
    replies: Ghost<Seq<Reply>>,
}

impl View for Setup {
    type V = Progress;

    closed spec fn view(&self) -> Progress {
        Progress {
            plan: Plan {
                pass: texts(self.pass@),
                sandbox: texts(self.sandbox@),
                exec_fail_exit: self.exec_fail_exit,
                order: self.order,
            },
            replies: self.replies@,
            end: match self.stage {
                Stage::Ended(end) => Some(end),
                _ => None,
            },
        }
    }
}

impl Setup {
    /// What has been kept of the replies is what they said, and the stage is the one that
    /// they have led to.
    pub closed spec fn wf(&self) -> bool {
        let n = self.sandbox@.len() as int;
        let i = self.index as int;
        let h = self.replies@;
        let k = h.len() as int;
        &&& is_progress(self@)
        &&& self.stage !is Ended ==> {
            &&& k == number_of(self.stage, i, n)
            &&& k > 0 ==> self.namespace == value(h[0])
            &&& k > 2 ==> self.capability == value(h[2])
            &&& self.sockets@.len() <= n
            &&& forall|j: int|
                0 <= j < self.sockets@.len() ==> #[trigger] self.sockets@[j] == value(
                    h[socket_at(j)],
                )
            &&& self.sockets@.len() == if k <= socket_at(0) {
                0
            } else if self.stage is OpenSocket {
                i
            } else if k < getns_at(n) {
                i + 1
            } else {
                n
            }
            &&& (self.stage is OpenSocket || self.stage is IssueRegister || self.stage is SendSocket
                || self.stage is CloseRegister || self.stage is SubscribeSocket) ==> i < n
            &&& (self.stage is SendSocket || self.stage is CloseRegister) ==> self.register
                == value(h[socket_at(i) + 1])
            &&& self.stage is RefreshNamespace ==> self.refreshed == value(h[getns_at(n)])
            &&& k > shutdown_at(n) ==> self.shutdown_read == read_end(h[shutdown_at(n)])
                && self.shutdown_write == write_end(h[shutdown_at(n)])
            &&& k > sync_at(n) ==> self.sync_read == read_end(h[sync_at(n)]) && self.sync_write
                == write_end(h[sync_at(n)])
            &&& k > fork_at(n) ==> self.pid == forked(h, n)
            &&& (self.stage is ChildCloseWake || self.stage is ChildCloseShutdown
                || self.stage is ChildWait || self.stage is ChildCloseWait
                || self.stage is ChildEnterNamespace) ==> self.pid == 0
            &&& (self.stage is ParentCloseWait || self.stage is ParentWake
                || self.stage is ParentCloseWake) ==> self.pid != 0
            &&& self.stage is ChildCloseWait ==> h[fork_at(n) + 3] == Reply::Count(self.woken)
        }
    }

    /// What is known of a container that is being set up holds of how far it can get.
    pub proof fn is_progressing(&self)
        requires
            self.wf(),
        ensures
            is_progress(self@),
    {
    }

    /// The beginning: nothing has been called yet.
    pub fn new(config: &ContainConfig, exec_fail_exit: i32, order: ByteOrder) -> (r: Setup)
        ensures
            r.wf(),
            r@ == (Progress {
                plan: Plan {
                    pass: config@.pass_schemes,
                    sandbox: config@.sandbox_schemes,
                    exec_fail_exit,
                    order,
                },
                replies: Seq::empty(),
                end: None,
            }),
    {
        let pass: Vec<String> = config.pass_schemes.clone();
        let sandbox: Vec<String> = config.sandbox_schemes.clone();
        assert(pass@ =~= config.pass_schemes@);
        assert(sandbox@ =~= config.sandbox_schemes@);
        Setup {
            pass,
            sandbox,
            exec_fail_exit,
            order,
            stage: Stage::MakeNamespace,
            index: 0,
            namespace: 0,
            capability: 0,
            sockets: Vec::new(),
            register: 0,
            refreshed: 0,
            shutdown_read: 0,
            shutdown_write: 0,
            sync_read: 0,
            sync_write: 0,
            pid: 0,
            woken: 0,
            replies: Ghost(Seq::empty()),
        }
    }

    /// The call that comes next.
    pub fn next(&self) -> (a: Action)
        requires
            self.wf(),
        ensures
            match self@.end {
                Some(end) => a == Action::Finish(end),
                None => is_call(self@.plan, self@.replies, self@.replies.len() as int, a),
            },
    {
        match self.stage {
            Stage::MakeNamespace => Action::Ns(mkns(&self.pass)),
            Stage::EnterNamespace => Action::Ns(setrens(usize::MAX, self.namespace)),
            Stage::OpenCapability => Action::OpenCapability {
                path: "namespace:scheme-creation-cap".to_owned(),
                flags: OpenFlags { access: Access::ReadOnly, create: false, close_on_exec: false },
                mode: 0,
            },
            Stage::OpenSocket => {
                let mut path: String = String::new();
                path.append(":");
                path.append(self.sandbox[self.index].as_str());
                proof {
                    reveal_strlit(":");
                    assert(path@ =~= seq![':'] + self@.plan.sandbox[self.index as int]);
                }
                Action::OpenSocket {
                    scheme: self.index,
                    capability: self.capability,
                    path,
                    flags: OpenFlags {
                        access: Access::ReadWrite,
                        create: true,
                        close_on_exec: true,
                    },
                    mode: 0,
                }
            },
            Stage::IssueRegister => Action::Dup {
                fd: self.namespace,
                buf: register_request(&self.sandbox[self.index], self.order),
            },
            Stage::SendSocket => Action::Call(
                call_wo_fd(self.register, &fd_payload(self.sockets[self.index], self.order)),
            ),
            Stage::CloseRegister => Action::CloseFd { fd: self.register },
            Stage::GetNamespace => Action::Ns(getns()),
            Stage::RefreshNamespace => Action::Ns(setrens(usize::MAX, self.refreshed)),
            Stage::CreateQueue => Action::CreateQueue,
            Stage::SubscribeSocket => Action::Subscribe {
                fd: self.sockets[self.index],
                user_data: self.index,
            },
            Stage::OpenShutdownPipe => Action::OpenPipe { close_on_exec: true, nonblocking: true },
            Stage::SubscribeShutdownPipe => Action::Subscribe {
                fd: self.shutdown_read as usize,
                user_data: self.sockets.len(),
            },
            Stage::OpenSyncPipe => Action::OpenPipe { close_on_exec: false, nonblocking: false },
            Stage::SpawnHandler => Action::SpawnHandler {
                pipe_index: self.sockets.len(),
                shutdown_read: self.shutdown_read,
            },
            Stage::Fork => Action::Fork,
            Stage::ChildCloseWake => Action::Close { fd: self.sync_write },
            Stage::ChildCloseShutdown => Action::Close { fd: self.shutdown_write },
            Stage::ChildWait => Action::ReadByte { fd: self.sync_read },
            Stage::ChildCloseWait => Action::Close { fd: self.sync_read },
            Stage::ChildEnterNamespace => Action::Ns(setrens(usize::MAX, self.namespace)),
            Stage::ParentCloseWait => Action::Close { fd: self.sync_read },
            Stage::ParentWake => Action::WriteByte { fd: self.sync_write, byte: 1 },
            Stage::ParentCloseWake => Action::Close { fd: self.sync_write },
            Stage::Ended(end) => Action::Finish(end),
        }
    }

    /// Takes note of what came of the call.
    pub fn advance(&mut self, reply: Reply)
        requires
            old(self).wf(),
            old(self)@.end is None,
            answers(
                old(self)@.plan.sandbox.len() as int,
                old(self)@.replies.len() as int,
                reply,
            ),
        ensures
            final(self).wf(),
            final(self)@ == after(old(self)@, reply),
    {
        let ghost plan = self@.plan;
        let ghost h = self.replies@;
        proof {
            lemma_run_extends(plan, h, reply);
            assert(h.push(reply)[h.len() as int] == reply);
            assert(forall|j: int| 0 <= j < h.len() ==> h.push(reply)[j] == h[j]);
        }
        let count: usize = self.sandbox.len();
        if let Some(error) = error_in(&reply) {
            match self.stage {
                Stage::CloseRegister => {},
                Stage::ChildEnterNamespace => {
                    self.stage = Stage::Ended(End::Exited(self.exec_fail_exit));
                    return ;
                },
                _ => {
                    self.stage = Stage::Ended(End::Failed(error));
                    return ;
                },
            }
        }
        match self.stage {
            Stage::MakeNamespace => {
                self.namespace = value_in(&reply);
                self.stage = Stage::EnterNamespace;
            },
            Stage::EnterNamespace => {
                self.stage = Stage::OpenCapability;
            },
            Stage::OpenCapability => {
                self.capability = value_in(&reply);
                self.index = 0;
                self.stage = if count > 0 {
                    Stage::OpenSocket
                } else {
                    Stage::GetNamespace
                };
            },
            Stage::OpenSocket => {
                self.sockets.push(value_in(&reply));
                self.stage = Stage::IssueRegister;
            },
            Stage::IssueRegister => {
                self.register = value_in(&reply);
                self.stage = Stage::SendSocket;
            },
            Stage::SendSocket => {
                self.stage = Stage::CloseRegister;
            },
            Stage::CloseRegister => {
                self.index = self.index + 1;
                self.stage = if self.index < count {
                    Stage::OpenSocket
                } else {
                    Stage::GetNamespace
                };
            },
            Stage::GetNamespace => {
                self.refreshed = value_in(&reply);
                self.stage = Stage::RefreshNamespace;
            },
            Stage::RefreshNamespace => {
                self.stage = Stage::CreateQueue;
            },
            Stage::CreateQueue => {
                self.index = 0;
                self.stage = if count > 0 {
                    Stage::SubscribeSocket
                } else {
                    Stage::OpenShutdownPipe
                };
            },
            Stage::SubscribeSocket => {
                self.index = self.index + 1;
                self.stage = if self.index < count {
                    Stage::SubscribeSocket
                } else {
                    Stage::OpenShutdownPipe
                };
            },
            Stage::OpenShutdownPipe => {
                if let Reply::Pipe { read, write, .. } = reply {
                    self.shutdown_read = read;
                    self.shutdown_write = write;
                }
                self.stage = Stage::SubscribeShutdownPipe;
            },
            Stage::SubscribeShutdownPipe => {
                self.stage = Stage::OpenSyncPipe;
            },
            Stage::OpenSyncPipe => {
                if let Reply::Pipe { read, write, .. } = reply {
                    self.sync_read = read;
                    self.sync_write = write;
                }
                self.stage = Stage::SpawnHandler;
            },
            Stage::SpawnHandler => {
                self.stage = Stage::Fork;
            },
            Stage::Fork => {
                if let Reply::Pid { pid, .. } = reply {
                    self.pid = pid;
                }
                self.stage = if self.pid == 0 {
                    Stage::ChildCloseWake
                } else {
                    Stage::ParentCloseWait
                };
            },
            Stage::ChildCloseWake => {
                self.stage = Stage::ChildCloseShutdown;
            },
            Stage::ChildCloseShutdown => {
                self.stage = Stage::ChildWait;
            },
            Stage::ChildWait => {
                if let Reply::Count(count) = reply {
                    self.woken = count;
                }
                self.stage = Stage::ChildCloseWait;
            },
            Stage::ChildCloseWait => {
                if self.woken != 1 {
                    self.stage = Stage::Ended(End::Exited(self.exec_fail_exit));
                    return ;
                }
                self.stage = Stage::ChildEnterNamespace;
            },
            Stage::ChildEnterNamespace => {
                self.stage = Stage::Ended(
                    End::Launched(
                        Launch {
                            namespace: self.namespace,
                            child_pid: 0,
                            shutdown_pipe: 0,
                            serving: false,
                        },
                    ),
                );
            },
            Stage::ParentCloseWait => {
                self.stage = Stage::ParentWake;
            },
            Stage::ParentWake => {
                self.stage = Stage::ParentCloseWake;
            },
            Stage::ParentCloseWake => {
                self.stage = Stage::Ended(
                    End::Launched(
                        Launch {
                            namespace: self.namespace,
                            child_pid: self.pid as usize,
                            shutdown_pipe: self.shutdown_write as usize,
                            serving: true,
                        },
                    ),
                );
            },
            Stage::Ended(_) => {},
        }
        self.replies = Ghost(h.push(reply));
    }
}

/// The error that a reply tells of.
fn error_in(reply: &Reply) -> (r: Option<ContainError<OsError>>)
    ensures
        r == error_of(*reply),
{
    match *reply {
        Reply::Ns(raw) => match check(raw) {
            Ok(_) => None,
            Err(e) => Some(ContainError::SyscallError(e)),
        },
        Reply::Sys(Err(e)) => Some(ContainError::SyscallError(e)),
        Reply::Pipe { rc, error, .. } => if rc == -1 {
            Some(ContainError::IoError(error))
        } else {
            None
        },
        Reply::Pid { pid, error } => if pid == -1 {
            Some(ContainError::IoError(error))
        } else {
            None
        },
        _ => None,
    }
}

/// The value of a reply that succeeded.
fn value_in(reply: &Reply) -> (r: usize)
    ensures
        r == value(*reply),
{
    match *reply {
        Reply::Ns(v) => v,
        Reply::Sys(Ok(v)) => v,
        _ => 0,
    }
}

/// A further reply changes nothing about those before it.
proof fn lemma_run_extends(plan: Plan, replies: Seq<Reply>, reply: Reply)
    requires
        is_run(plan, replies),
    ensures
        forall|k: int|
            0 <= k < replies.len() ==> #[trigger] goes_on(plan, replies.push(reply), k),
{
    assert forall|k: int| 0 <= k < replies.len() implies #[trigger] goes_on(
        plan,
        replies.push(reply),
        k,
    ) by {
        assert(goes_on(plan, replies, k));
    }
}

} // verus!
