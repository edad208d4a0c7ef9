//! What holds of each call that setting up a container takes, by the replies to the calls
//! before it, and of what becomes of its own reply.
use vstd::prelude::*;
use vstd::utf8::encode_utf8;

use crate::config::ContainConfig;
use crate::contain_thread::ContainThread;
use crate::error::{ContainError, ContainResult, OsError, SysError};
use crate::laws::launching::{child_is_contained, parent_wakes_and_serves};
use crate::laws::ordering::same_texts;
use crate::ns_ffi::word_bytes;
use crate::ns_ffi::{ByteOrder, NsCall};
use crate::setup::{closes_register, goes_on};
use crate::setup::{Action, End, Launch, Progress, Reply, Setup};

verus! {

/// How many schemes `setup` sandboxes.
pub open spec fn count(setup: Setup) -> int {
    setup@.plan.sandbox.len() as int
}

/// `a` is the call that comes next in `setup`, after `k` replies.
pub open spec fn comes_next(setup: Setup, k: int, a: Action) -> bool {
    &&& setup.wf()
    &&& setup@.end is None
    &&& setup@.replies.len() == k
    &&& call_ensures(Setup::next, (&setup,), a)
}

/// The reply to the call `k` was the descriptor `fd`.
pub open spec fn gave(setup: Setup, k: int, fd: usize) -> bool {
    setup@.replies[k] == Reply::Sys(Ok(fd))
}

/// Forking gave `pid`.
pub open spec fn gave_process(setup: Setup, pid: i32) -> bool {
    setup@.replies[5 * count(setup) + 10] matches Reply::Pid { pid: given, .. } && given == pid
}

/// The pipe that the call `k` opened has the ends `read` and `write`.
pub open spec fn gave_pipe(setup: Setup, k: int, read: i32, write: i32) -> bool {
    setup@.replies[k] matches Reply::Pipe { rc, read: given_read, write: given_write, .. } && rc
        == 0 && given_read == read && given_write == write
}

/// Setting up begins from the lists of the configuration as they are, with no reply.
pub proof fn setup_begins_from_its_configuration(
    config: &ContainConfig,
    exec_fail_exit: i32,
    order: ByteOrder,
    setup: Setup,
)
    requires
        call_ensures(Setup::new, (config, exec_fail_exit, order), setup),
    ensures
        setup.wf(),
        same_texts(setup@.plan.pass, config.pass_schemes@),
        same_texts(setup@.plan.sandbox, config.sandbox_schemes@),
        setup@.plan.exec_fail_exit == exec_fail_exit,
        setup@.plan.order == order,
        setup@.replies.len() == 0,
        setup@.end is None,
{
}

/// The first call makes a namespace with just the passed schemes, in their order.
pub proof fn the_namespace_holds_the_passed_schemes(setup: Setup, a: Action)
    requires
        comes_next(setup, 0, a),
    ensures
        a matches Action::Ns(NsCall::MkNs { names, flags }) && flags == 0 && same_texts(
            setup@.plan.pass,
            names@,
        ),
{
    assert(a matches Action::Ns(NsCall::MkNs { names, .. }) && forall|i: int|
        0 <= i < names@.len() ==> setup@.plan.pass[i] == (#[trigger] names@[i])@);
}

/// The namespace that was made is entered, and then the capability to create schemes is opened
/// for reading.
pub proof fn the_namespace_is_entered_and_asked(setup: Setup, a: Action)
    requires
        comes_next(setup, 1, a) || comes_next(setup, 2, a),
    ensures
        setup@.replies.len() == 1 ==> (setup@.replies[0] matches Reply::Ns(ns) && a == Action::Ns(
            NsCall::SetRens { rns: usize::MAX, ens: ns },
        )),
        setup@.replies.len() == 2 ==> (a matches Action::OpenCapability { path, flags, mode }
            && path@ == "namespace:scheme-creation-cap"@ && flags.access is ReadOnly
            && !flags.create && !flags.close_on_exec && mode == 0),
{
    setup.is_progressing();
    assert(goes_on(setup@.plan, setup@.replies, 0));
}

/// The socket of the scheme `i` is created under a colon and the scheme's name, for reading and
/// writing, through the descriptor that opening the capability gave.
pub proof fn each_socket_is_created_under_its_name(setup: Setup, i: int, a: Action)
    requires
        0 <= i < count(setup),
        comes_next(setup, 4 * i + 3, a),
    ensures
        a matches Action::OpenSocket { scheme, capability, path, flags, mode } && {
            &&& scheme == i
            &&& gave(setup, 2, capability)
            &&& path@.len() == 1 + setup@.plan.sandbox[i].len()
            &&& path@[0] == ':'
            &&& path@.skip(1) == setup@.plan.sandbox[i]
            &&& flags.access is ReadWrite
            &&& flags.create
            &&& flags.close_on_exec
            &&& mode == 0
        },
{
    setup.is_progressing();
    assert(goes_on(setup@.plan, setup@.replies, 2));
    assert((4 * i + 3 - 3) / 4 == i);
    assert((4 * i + 3 - 3) % 4 == 0);
    assert(a->OpenSocket_path@.skip(1) =~= setup@.plan.sandbox[i]);
}

/// The namespace is asked to let the scheme `i` be registered, by the number 2 and the scheme's
/// name.
pub proof fn each_scheme_is_announced_by_its_name(setup: Setup, i: int, a: Action)
    requires
        0 <= i < count(setup),
        comes_next(setup, 4 * i + 4, a),
    ensures
        a matches Action::Dup { fd, buf } && setup@.replies[0] == Reply::Ns(fd) && buf@
            == word_bytes(2, setup@.plan.order) + encode_utf8(setup@.plan.sandbox[i]),
{
    setup.is_progressing();
    assert(goes_on(setup@.plan, setup@.replies, 0));
    assert((4 * i + 4 - 3) / 4 == i);
    assert((4 * i + 4 - 3) % 4 == 1);
}

/// Each scheme is registered with its own socket: what is handed to the capability that the
/// namespace gave out for the scheme `i` is the descriptor that creating the socket of the scheme
/// `i` gave.
pub proof fn each_scheme_is_registered_with_its_own_socket(
    setup: Setup,
    i: int,
    a: Action,
    socket: usize,
    register: usize,
)
    requires
        0 <= i < count(setup),
        comes_next(setup, 4 * i + 5, a),
        gave(setup, 4 * i + 3, socket),
        gave(setup, 4 * i + 4, register),
    ensures
        a matches Action::Call(call) && {
            &&& call.fd == register
            &&& call.payload@ == word_bytes(socket, setup@.plan.order)
            &&& call.number == 0x2000_0000 + 0x0100_0000 + 0x0200_0000 + 0xCA11
            &&& call.options == 0x200 + 0x800
        },
{
    assert((4 * i + 5 - 3) / 4 == i);
    assert((4 * i + 5 - 3) % 4 == 2);
}

/// When the scheme `i` has been registered, the capability to do so is closed.
pub proof fn each_register_capability_is_closed(
    setup: Setup,
    i: int,
    a: Action,
    register: usize,
)
    requires
        0 <= i < count(setup),
        comes_next(setup, 4 * i + 6, a),
        gave(setup, 4 * i + 4, register),
    ensures
        a == (Action::CloseFd { fd: register }),
{
    assert((4 * i + 6 - 3) / 4 == i);
    assert((4 * i + 6 - 3) % 4 == 3);
}

/// Up to where its descriptors are used, each scheme had a socket and a capability given.
pub proof fn each_scheme_was_given_its_descriptors(setup: Setup, i: int)
    requires
        setup.wf(),
        0 <= i < count(setup),
    ensures
        setup@.replies.len() > 4 * i + 3 ==> (setup@.replies[4 * i + 3] matches Reply::Sys(Ok(_))),
        setup@.replies.len() > 4 * i + 4 ==> (setup@.replies[4 * i + 4] matches Reply::Sys(Ok(_))),
{
    setup.is_progressing();
    if setup@.replies.len() > 4 * i + 3 {
        assert(goes_on(setup@.plan, setup@.replies, 4 * i + 3));
    }
    if setup@.replies.len() > 4 * i + 4 {
        assert(goes_on(setup@.plan, setup@.replies, 4 * i + 4));
    }
}

/// When every scheme has been registered, the namespace is asked for anew, what that gives is
/// entered, and the event queue is created.
pub proof fn the_namespace_is_refreshed(setup: Setup, a: Action)
    requires
        comes_next(setup, 4 * count(setup) + 3, a) || comes_next(setup, 4 * count(setup) + 4, a)
            || comes_next(setup, 4 * count(setup) + 5, a),
    ensures
        ({
            let k = 4 * count(setup) + 3;
            let len = setup@.replies.len();
            &&& len == k ==> a == Action::Ns(NsCall::GetNs)
            &&& len == k + 1 ==> (setup@.replies[k] matches Reply::Ns(ns) && a == Action::Ns(
                NsCall::SetRens { rns: usize::MAX, ens: ns },
            ))
            &&& len == k + 2 ==> a is CreateQueue
        }),
{
    setup.is_progressing();
    if setup@.replies.len() > 4 * count(setup) + 3 {
        assert(goes_on(setup@.plan, setup@.replies, 4 * count(setup) + 3));
    }
}

/// The queue tells of the socket of the scheme `i` under the number `i`.
pub proof fn each_socket_is_subscribed_to_under_its_number(
    setup: Setup,
    i: int,
    a: Action,
    socket: usize,
)
    requires
        0 <= i < count(setup),
        comes_next(setup, 4 * count(setup) + 6 + i, a),
        gave(setup, 4 * i + 3, socket),
    ensures
        count(setup) <= usize::MAX ==> (a matches Action::Subscribe { fd, user_data } && fd
            == socket && user_data == i),
{
}

/// Then come the shutdown pipe, which is closed on execution and does not block, a subscription
/// to its end for reading under the number after the last scheme's, the pipe that wakes the
/// child, which is neither, the handler, with that number and that end, and the fork.
pub proof fn pipes_come_before_the_fork(setup: Setup, a: Action)
    requires
        count(setup) <= usize::MAX,
        5 * count(setup) + 6 <= setup@.replies.len() <= 5 * count(setup) + 10,
        comes_next(setup, setup@.replies.len() as int, a),
    ensures
        ({
            let n = count(setup);
            let k = 5 * n + 6;
            let len = setup@.replies.len();
            &&& len == k ==> a == (Action::OpenPipe { close_on_exec: true, nonblocking: true })
            &&& len == k + 1 ==> (a matches Action::Subscribe { fd, user_data } && user_data == n
                && (setup@.replies[k] matches Reply::Pipe { rc, read, .. } && rc == 0 && fd
                == read as usize))
            &&& len == k + 2 ==> a == (Action::OpenPipe {
                close_on_exec: false,
                nonblocking: false,
            })
            &&& len == k + 3 ==> (a matches Action::SpawnHandler { pipe_index, shutdown_read }
                && pipe_index == n && (setup@.replies[k] matches Reply::Pipe { rc, read, .. } && rc
                == 0 && shutdown_read == read))
            &&& len == k + 4 ==> a is Fork
        }),
{
    setup.is_progressing();
    let k = 5 * count(setup) + 6;
    if setup@.replies.len() > k {
        assert(goes_on(setup@.plan, setup@.replies, k));
    }
}

/// The child closes the ends that are the parent's, waits for one byte, closes the end that it
/// waited at, and enters the namespace that was made.
pub proof fn the_child_waits_and_then_enters(
    setup: Setup,
    a: Action,
    ns: usize,
    shutdown_read: i32,
    shutdown_write: i32,
    sync_read: i32,
    sync_write: i32,
)
    requires
        5 * count(setup) + 11 <= setup@.replies.len() <= 5 * count(setup) + 15,
        comes_next(setup, setup@.replies.len() as int, a),
        gave_process(setup, 0),
        setup@.replies[0] == Reply::Ns(ns),
        gave_pipe(setup, 5 * count(setup) + 6, shutdown_read, shutdown_write),
        gave_pipe(setup, 5 * count(setup) + 8, sync_read, sync_write),
    ensures
        ({
            let k = 5 * count(setup) + 11;
            let len = setup@.replies.len();
            &&& len == k ==> a == (Action::Close { fd: sync_write })
            &&& len == k + 1 ==> a == (Action::Close { fd: shutdown_write })
            &&& len == k + 2 ==> a == (Action::ReadByte { fd: sync_read })
            &&& len == k + 3 ==> a == (Action::Close { fd: sync_read })
            &&& len == k + 4 ==> a == Action::Ns(NsCall::SetRens { rns: usize::MAX, ens: ns })
        }),
{
}

/// The parent closes the end that is the child's, writes one byte, and closes the end that it
/// wrote to.
pub proof fn the_parent_writes_one_byte(
    setup: Setup,
    a: Action,
    pid: i32,
    sync_read: i32,
    sync_write: i32,
)
    requires
        5 * count(setup) + 11 <= setup@.replies.len(),
        comes_next(setup, setup@.replies.len() as int, a),
        gave_process(setup, pid),
        pid != 0,
        gave_pipe(setup, 5 * count(setup) + 8, sync_read, sync_write),
    ensures
        ({
            let k = 5 * count(setup) + 11;
            let len = setup@.replies.len();
            &&& len <= k + 2
            &&& len == k ==> a == (Action::Close { fd: sync_read })
            &&& len == k + 1 ==> a == (Action::WriteByte { fd: sync_write, byte: 1 })
            &&& len == k + 2 ==> a == (Action::Close { fd: sync_write })
        }),
{
    setup.is_progressing();
    let k = 5 * count(setup) + 11;
    if setup@.replies.len() > k + 3 {
        assert(goes_on(setup@.plan, setup@.replies, k + 3));
    }
}

/// Up to where their replies are used, the namespace was made, both pipes were opened, and the
/// fork gave a process.
pub proof fn what_comes_before_the_fork_was_given(setup: Setup)
    requires
        setup.wf(),
        setup@.replies.len() >= 5 * count(setup) + 11,
    ensures
        setup@.replies[0] is Ns,
        setup@.replies[5 * count(setup) + 6] matches Reply::Pipe { rc, .. } && rc == 0,
        setup@.replies[5 * count(setup) + 8] matches Reply::Pipe { rc, .. } && rc == 0,
        setup@.replies[5 * count(setup) + 10] matches Reply::Pid { pid, .. } && pid != -1,
{
    setup.is_progressing();
    let n = count(setup);
    let r = setup@.replies;
    assert(goes_on(setup@.plan, r, 0));
    assert(goes_on(setup@.plan, r, 5 * n + 6));
    assert(goes_on(setup@.plan, r, 5 * n + 8));
    assert(goes_on(setup@.plan, r, 5 * n + 10));
}

/// Once setting up has ended, what comes next is to end as it did.
pub proof fn an_end_is_told(setup: Setup, end: End, a: Action)
    requires
        setup.wf(),
        setup@.end == Some(end),
        call_ensures(Setup::next, (&setup,), a),
    ensures
        a == Action::Finish(end),
{
}

/// A reply that tells of no error.
pub open spec fn succeeds(reply: Reply) -> bool {
    match reply {
        Reply::Ns(raw) => raw <= usize::MAX / 2,
        Reply::Sys(result) => result is Ok,
        Reply::Pipe { rc, .. } => rc == 0,
        Reply::Pid { pid, .. } => pid != -1,
        Reply::Count(_) => true,
        Reply::Spawned => true,
    }
}

/// The child has closed the end that it waited at, and what it read was not one byte.
pub open spec fn was_not_woken(p: Progress) -> bool {
    let fork = 5 * p.plan.sandbox.len() as int + 10;
    &&& p.replies.len() == fork + 4
    &&& p.replies[fork] matches Reply::Pid { pid, .. } && pid == 0
    &&& p.replies[fork + 3] != Reply::Count(1)
}

/// The replies are those of a child that has made all its calls.
pub open spec fn is_complete_child(p: Progress) -> bool {
    let fork = 5 * p.plan.sandbox.len() as int + 10;
    &&& p.replies.len() == fork + 6
    &&& p.replies[fork] matches Reply::Pid { pid, .. } && pid == 0
}

/// The replies are those of a parent that has made all its calls.
pub open spec fn is_complete_parent(p: Progress) -> bool {
    let fork = 5 * p.plan.sandbox.len() as int + 10;
    &&& p.replies.len() == fork + 4
    &&& p.replies[fork] matches Reply::Pid { pid, .. } && pid != 0
}

/// A reply that tells of no error is kept, after those before it, and setting up goes on unless
/// that was the last call. A child that was not woken by one byte exits instead.
pub proof fn a_success_is_kept(setup: &mut Setup, reply: Reply)
    requires
        old(setup).wf(),
        old(setup)@.end is None,
        call_ensures(Setup::advance, (setup, reply), ()),
        succeeds(reply),
    ensures
        final(setup).wf(),
        final(setup)@.plan == old(setup)@.plan,
        was_not_woken(old(setup)@) ==> final(setup)@.end == Some(
            End::Exited(old(setup)@.plan.exec_fail_exit),
        ),
        !was_not_woken(old(setup)@) ==> {
            &&& final(setup)@.replies == old(setup)@.replies.push(reply)
            &&& if is_complete_child(final(setup)@) || is_complete_parent(final(setup)@) {
                final(setup)@.end is Some && final(setup)@.end->0 is Launched
            } else {
                final(setup)@.end is None
            }
        },
{
    let p = old(setup)@;
    let fork = 5 * count(*old(setup)) + 10;
    old(setup).is_progressing();
    if p.replies.len() > fork {
        assert(goes_on(p.plan, p.replies, fork));
    }
    let replies = p.replies.push(reply);
    assert(replies[p.replies.len() as int] == reply);
    assert(forall|j: int| 0 <= j < p.replies.len() ==> replies[j] == p.replies[j]);
}

/// The error that a reply tells of is the one that setting up fails with, up to the fork: a
/// system call's own, that in the upper half of a namespace call's results, or the operating
/// system's where a pipe or a process could not be had. The replies stay as they were.
pub proof fn a_failure_is_told_as_it_is(setup: &mut Setup, reply: Reply)
    requires
        old(setup).wf(),
        old(setup)@.end is None,
        old(setup)@.replies.len() <= 5 * count(*old(setup)) + 10,
        forall|i: int|
            0 <= i < count(*old(setup)) ==> old(setup)@.replies.len() != #[trigger] (4 * i) + 6,
        call_ensures(Setup::advance, (setup, reply), ()),
        !succeeds(reply),
        reply matches Reply::Pipe { rc, .. } ==> rc == -1,
    ensures
        final(setup).wf(),
        final(setup)@.plan == old(setup)@.plan,
        final(setup)@.replies == old(setup)@.replies,
        match reply {
            Reply::Ns(raw) => final(setup)@.end == Some(
                End::Failed(
                    ContainError::SyscallError(
                        SysError { errno: (raw - usize::MAX / 2 - 1) as i32 },
                    ),
                ),
            ),
            Reply::Sys(result) => final(setup)@.end == Some(
                End::Failed(ContainError::SyscallError(result->Err_0)),
            ),
            Reply::Pipe { error, .. } => final(setup)@.end == Some(
                End::Failed(ContainError::IoError(error)),
            ),
            Reply::Pid { error, .. } => final(setup)@.end == Some(
                End::Failed(ContainError::IoError(error)),
            ),
            _ => true,
        },
{
    let p = old(setup)@;
    let k = p.replies.len() as int;
    assert(p.replies.push(reply)[k] == reply);
    if closes_register(count(*old(setup)), k) {
        let i = (k - 6) / 4;
        assert(k == 4 * i + 6);
    }
}

/// That a capability to register a scheme could not be closed makes no difference: the reply is
/// kept, and setting up goes on.
pub proof fn a_capability_need_not_be_closed(
    setup: &mut Setup,
    i: int,
    result: Result<usize, SysError>,
)
    requires
        old(setup).wf(),
        old(setup)@.end is None,
        0 <= i < count(*old(setup)),
        old(setup)@.replies.len() == 4 * i + 6,
        call_ensures(Setup::advance, (setup, Reply::Sys(result)), ()),
    ensures
        final(setup).wf(),
        final(setup)@.plan == old(setup)@.plan,
        final(setup)@.replies == old(setup)@.replies.push(Reply::Sys(result)),
        final(setup)@.end is None,
{
    let k = old(setup)@.replies.len() as int;
    assert(old(setup)@.replies.push(Reply::Sys(result))[k] == Reply::Sys(result));
    assert(closes_register(count(*old(setup)), k));
}

/// A child that cannot enter the namespace exits with the code for that.
pub proof fn a_child_outside_the_namespace_exits(setup: &mut Setup, raw: usize)
    requires
        old(setup).wf(),
        old(setup)@.end is None,
        old(setup)@.replies.len() == 5 * count(*old(setup)) + 15,
        raw > usize::MAX / 2,
        call_ensures(Setup::advance, (setup, Reply::Ns(raw)), ()),
    ensures
        final(setup).wf(),
        final(setup)@.end == Some(End::Exited(old(setup)@.plan.exec_fail_exit)),
{
    let k = old(setup)@.replies.len() as int;
    assert(old(setup)@.replies.push(Reply::Ns(raw))[k] == Reply::Ns(raw));
}

/// Whatever comes of the call that is next, setting up takes note of it: the replies fit the
/// calls, and no result of theirs is ruled out, but that a pipe opens with 0 or fails with -1.
pub proof fn every_reply_is_accepted(
    setup: &mut Setup,
    a: Action,
    raw: usize,
    result: Result<usize, SysError>,
    read: i32,
    write: i32,
    pid: i32,
    amount: isize,
    error: OsError,
)
    requires
        comes_next(*old(setup), old(setup)@.replies.len() as int, a),
    ensures
        match a {
            Action::Ns(_) => call_requires(Setup::advance, (setup, Reply::Ns(raw))),
            Action::OpenPipe { .. } => {
                &&& call_requires(
                    Setup::advance,
                    (setup, Reply::Pipe { rc: 0, read, write, error }),
                )
                &&& call_requires(
                    Setup::advance,
                    (setup, Reply::Pipe { rc: -1i32, read, write, error }),
                )
            },
            Action::SpawnHandler { .. } => call_requires(Setup::advance, (setup, Reply::Spawned)),
            Action::Fork => call_requires(Setup::advance, (setup, Reply::Pid { pid, error })),
            Action::Close { .. } | Action::ReadByte { .. } | Action::WriteByte { .. } => {
                call_requires(Setup::advance, (setup, Reply::Count(amount)))
            },
            Action::Finish(_) => false,
            _ => call_requires(Setup::advance, (setup, Reply::Sys(result))),
        },
{
    let s = *old(setup);
    s.is_progressing();
    let n = count(s);
    if s@.replies.len() > 5 * n + 14 {
        assert(goes_on(s@.plan, s@.replies, 5 * n + 14));
    }
    if s@.replies.len() > 5 * n + 16 {
        assert(goes_on(s@.plan, s@.replies, 5 * n + 16));
    }
}

/// What setting up came to is told from the replies: the namespace that was made, the process
/// that was forked, and, but in the child, the end for writing of the shutdown pipe and that the
/// handler runs.
pub proof fn a_launch_is_told_from_the_replies(setup: Setup, launch: Launch)
    requires
        setup.wf(),
        setup@.end == Some(End::Launched(launch)),
    ensures
        ({
            let n = count(setup);
            &&& setup@.replies[0] == Reply::Ns(launch.namespace)
            &&& setup@.replies[5 * n + 10] matches Reply::Pid { pid, .. } && {
                &&& launch.child_pid == pid as usize
                &&& launch.child_pid == 0 <==> pid == 0
                &&& launch.serving <==> pid != 0
                &&& pid == 0 ==> launch.shutdown_pipe == 0
                &&& pid != 0 ==> (setup@.replies[5 * n + 6] matches Reply::Pipe {
                    rc,
                    write,
                    ..
                } && rc == 0 && launch.shutdown_pipe == write as usize)
            }
        }),
{
    setup.is_progressing();
    let n = count(setup);
    if launch.child_pid == 0 {
        child_is_contained(setup@, launch);
    } else {
        parent_wakes_and_serves(setup@, launch);
    }
    assert(goes_on(setup@.plan, setup@.replies, 0));
    assert(goes_on(setup@.plan, setup@.replies, 5 * n + 6));
    assert(goes_on(setup@.plan, setup@.replies, 5 * n + 10));
}

/// A container that has been set up is what the replies say. To the child it is process 0, has no
/// shutdown pipe, and is served by no thread; to the parent it is the process that was forked,
/// its shutdown pipe is the end for writing of the one that was opened for that, and its thread
/// is the one that was spawned. Where setting up failed, the container is that error.
pub proof fn a_container_is_what_setup_came_to<C, H>(
    config: C,
    setup: &Setup,
    handle: Option<H>,
    r: ContainResult<ContainThread<C, H>, OsError>,
)
    requires
        setup.wf(),
        setup@.end is Some,
        setup@.end->0 !is Exited,
        call_ensures(ContainThread::<C, H>::new, (config, setup, handle), r),
    ensures
        setup@.end->0 matches End::Failed(e) ==> r == Err::<
            ContainThread<C, H>,
            ContainError<OsError>,
        >(e),
        setup@.end->0 is Launched ==> {
            let n = count(*setup);
            &&& setup@.replies.len() == if gave_process(*setup, 0) {
                5 * n + 16
            } else {
                5 * n + 14
            }
            &&& r is Ok
            &&& r->Ok_0@.config == config
            &&& setup@.replies[0] == Reply::Ns(r->Ok_0@.namespace)
            &&& setup@.replies[5 * n + 10] matches Reply::Pid { pid, .. } && r->Ok_0@.child_pid
                == pid as usize
            &&& gave_process(*setup, 0) ==> {
                &&& r->Ok_0@.child_pid == 0
                &&& r->Ok_0@.shutdown_pipe == 0
                &&& r->Ok_0@.thread_handle is None
            }
            &&& !gave_process(*setup, 0) ==> {
                &&& r->Ok_0@.child_pid != 0
                &&& setup@.replies[5 * n + 6] matches Reply::Pipe { rc, write, .. } && rc == 0
                    && r->Ok_0@.shutdown_pipe == write as usize
                &&& r->Ok_0@.thread_handle == handle
            }
        },
{
    setup.is_progressing();
    if setup@.end->0 is Launched {
        let launch = setup@.end->0->Launched_0;
        let n = count(*setup);
        if launch.child_pid == 0 {
            child_is_contained(setup@, launch);
        } else {
            parent_wakes_and_serves(setup@, launch);
        }
        assert(goes_on(setup@.plan, setup@.replies, 0));
        assert(goes_on(setup@.plan, setup@.replies, 5 * n + 6));
        assert(goes_on(setup@.plan, setup@.replies, 5 * n + 10));
    }
}

/// Any setup that has ended other than by an exit gives a container, or its error.
pub proof fn an_ended_setup_gives_a_container<C, H>(config: C, setup: &Setup, handle: Option<H>)
    requires
        setup.wf(),
        setup@.end is Some,
        setup@.end->0 !is Exited,
    ensures
        call_requires(ContainThread::<C, H>::new, (config, setup, handle)),
{
}

/// A container tells what it holds, and is the child's just where its process is 0.
pub proof fn a_container_tells_what_it_holds<C, H>(
    thread: ContainThread<C, H>,
    namespace: usize,
    child_pid: usize,
    is_child: bool,
    config: &C,
)
    requires
        call_ensures(ContainThread::<C, H>::namespace, (&thread,), namespace),
        call_ensures(ContainThread::<C, H>::child_pid, (&thread,), child_pid),
        call_ensures(ContainThread::<C, H>::is_child, (&thread,), is_child),
        call_ensures(ContainThread::<C, H>::config, (&thread,), config),
    ensures
        namespace == thread@.namespace,
        child_pid == thread@.child_pid,
        is_child <==> child_pid == 0,
        *config == thread@.config,
{
}

/// Telling the handler to stop writes one byte, 0, to the end for writing of the very pipe whose
/// end for reading the handler was spawned with. Letting go of the container does so too, and
/// gives out the thread, once.
pub proof fn the_handler_is_told_through_its_pipe<C, H>(
    thread: &mut ContainThread<C, H>,
    write: i32,
    signal: Action,
    released: (Action, Option<H>),
)
    requires
        old(thread)@.shutdown_pipe == write as usize,
        call_ensures(ContainThread::<C, H>::signal_shutdown, (&*old(thread),), signal),
        call_ensures(ContainThread::<C, H>::release, (thread,), released),
    ensures
        signal == (Action::WriteByte { fd: write, byte: 0 }),
        released.0 == signal,
        released.1 == old(thread)@.thread_handle,
        final(thread)@.thread_handle is None,
        final(thread)@.config == old(thread)@.config,
        final(thread)@.namespace == old(thread)@.namespace,
        final(thread)@.child_pid == old(thread)@.child_pid,
        final(thread)@.shutdown_pipe == old(thread)@.shutdown_pipe,
{
    assert((write as usize) as i32 == write) by (bit_vector);
}

} // verus!
