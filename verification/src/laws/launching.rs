//! What holds of setting up a container.
use vstd::prelude::*;

use crate::error::{ContainError, OsError, SysError};
use crate::ns_ffi::{checked, error_base};
use crate::ns_ffi::NsCall;
use crate::setup::{after, answers, closes_register, enters, error_of, fork_at, forked, getns_at};
use crate::setup::{goes_on, is_call, is_progress, is_run, launches, read_end, registers};
use crate::setup::{shutdown_at, socket_at, stops, sync_at, value, write_end};
use crate::setup::{Action, End, Launch, Plan, Progress, Reply};
use crate::text::texts;

verus! {

/// A namespace call that hands back an error number with the highest bit set is taken for
/// that error.
pub proof fn errors_are_decoded(errno: i32)
    requires
        0 <= errno,
    ensures
        checked((error_base() + errno) as usize) == Err::<usize, SysError>(SysError { errno }),
{
    assert(error_base() + errno <= usize::MAX);
}

/// What a namespace call hands back without the highest bit is taken for a value as it is.
pub proof fn values_are_kept(result: usize)
    requires
        result < error_base(),
    ensures
        checked(result) == Ok::<usize, SysError>(result),
{
}

/// Setting up begins with no call made.
pub proof fn setup_begins(plan: Plan)
    ensures
        is_progress(Progress { plan, replies: Seq::empty(), end: None }),
{
}

/// A reply to the call that comes next takes setting up to where it can get.
pub proof fn setup_goes_on(p: Progress, reply: Reply)
    requires
        is_progress(p),
        p.end is None,
        answers(p.plan.sandbox.len() as int, p.replies.len() as int, reply),
    ensures
        is_progress(after(p, reply)),
{
    let replies = p.replies.push(reply);
    let k = p.replies.len() as int;
    assert forall|j: int| 0 <= j < k implies #[trigger] goes_on(p.plan, replies, j) by {
        assert(goes_on(p.plan, p.replies, j));
    }
    if stops(p.plan, replies, k) is None {
        assert(launches(p.plan, replies, k) == launches(p.plan, p.replies, k));
        assert(goes_on(p.plan, replies, k));
    }
}

/// Setting up comes to an end: it takes no more than five calls for each sandboxed scheme and
/// sixteen besides.
pub proof fn setup_is_bounded(p: Progress)
    requires
        is_progress(p),
    ensures
        p.replies.len() <= 5 * p.plan.sandbox.len() + 16,
{
    let n = p.plan.sandbox.len() as int;
    if p.replies.len() > fork_at(n) + 6 {
        assert(goes_on(p.plan, p.replies, fork_at(n) + 4));
        assert(goes_on(p.plan, p.replies, fork_at(n) + 6));
    }
}

/// A call up to the fork that fails ends setting up with that call's error, unless all that it
/// does is close a capability to register a scheme.
pub proof fn failure_ends_setup(p: Progress, reply: Reply, e: ContainError<OsError>)
    requires
        is_progress(p),
        p.end is None,
        p.replies.len() <= fork_at(p.plan.sandbox.len() as int),
        !closes_register(p.plan.sandbox.len() as int, p.replies.len() as int),
        error_of(reply) == Some(e),
    ensures
        after(p, reply).end == Some(End::Failed(e)),
        after(p, reply).replies == p.replies,
{
}

/// Where setting up fails, no process has been forked.
pub proof fn failure_comes_before_the_fork(p: Progress, e: ContainError<OsError>)
    requires
        is_progress(p),
        p.end == Some(End::Failed(e)),
    ensures
        p.replies.len() <= fork_at(p.plan.sandbox.len() as int),
{
    lemma_end(p);
}

/// Only a forked child exits, and with the code that it was given for that.
pub proof fn only_the_child_exits(p: Progress, code: i32)
    requires
        is_progress(p),
        p.end == Some(End::Exited(code)),
    ensures
        p.replies.len() > fork_at(p.plan.sandbox.len() as int),
        forked(p.replies, p.plan.sandbox.len() as int) == 0,
        code == p.plan.exec_fail_exit,
{
    lemma_end(p);
}

/// A setup that has ended is complete, or its last call put an end to it.
proof fn lemma_end(p: Progress)
    requires
        is_progress(p),
        p.end is Some,
    ensures
        ({
            let n = p.plan.sandbox.len() as int;
            let k = p.replies.len() as int;
            match p.end->0 {
                End::Failed(_) => k <= fork_at(n),
                End::Exited(code) => {
                    &&& k > fork_at(n)
                    &&& forked(p.replies, n) == 0
                    &&& code == p.plan.exec_fail_exit
                },
                End::Launched(_) => {
                    &&& k > fork_at(n)
                    &&& launches(p.plan, p.replies, k) == p.end
                },
            }
        }),
{
    let n = p.plan.sandbox.len() as int;
    let k = p.replies.len() as int;
    if launches(p.plan, p.replies, k) is None {
        let reply = choose|reply: Reply|
            answers(n, k, reply) && #[trigger] stops(p.plan, p.replies.push(reply), k) == p.end;
        setup_is_bounded(p);
        assert(p.replies.push(reply)[k] == reply);
        if k > fork_at(n) {
            assert(p.replies.push(reply)[fork_at(n)] == p.replies[fork_at(n)]);
            if forked(p.replies, n) != 0 && k > fork_at(n) + 4 {
                assert(goes_on(p.plan, p.replies, fork_at(n) + 4));
            }
        }
    }
}

/// A process that is not 0 is not 0 as a `usize` either.
proof fn lemma_pid(pid: i32)
    ensures
        pid != 0 ==> pid as usize != 0,
{
    assert(pid != 0 ==> pid as usize != 0) by (bit_vector);
}

/// A container whose child process is 0 is seen from that child. It was woken by one byte
/// from the pipe that its parent writes to, and then entered the namespace that was created,
/// which holds the passed schemes and nothing else.
pub proof fn child_is_contained(p: Progress, launch: Launch)
    requires
        is_progress(p),
        p.end == Some(End::Launched(launch)),
        launch.child_pid == 0,
    ensures
        ({
            let n = p.plan.sandbox.len() as int;
            &&& p.replies.len() == fork_at(n) + 6
            &&& forked(p.replies, n) == 0
            &&& !launch.serving
            &&& p.replies[fork_at(n) + 3] == Reply::Count(1)
            &&& forall|a: Action| #[trigger]
                is_call(p.plan, p.replies, fork_at(n) + 3, a) ==> a == (Action::ReadByte {
                    fd: read_end(p.replies[sync_at(n)]),
                })
            &&& error_of(p.replies[0]) is None
            &&& launch.namespace == value(p.replies[0])
            &&& error_of(p.replies[fork_at(n) + 5]) is None
            &&& forall|a: Action| #[trigger]
                is_call(p.plan, p.replies, 0, a) ==> (a matches Action::Ns(
                    NsCall::MkNs { names, .. },
                ) && texts(names@) == p.plan.pass)
            &&& forall|a: Action| #[trigger]
                is_call(p.plan, p.replies, fork_at(n) + 5, a) ==> enters(a, launch.namespace)
        }),
{
    let n = p.plan.sandbox.len() as int;
    lemma_end(p);
    lemma_pid(forked(p.replies, n));
    assert(goes_on(p.plan, p.replies, 0));
    assert(goes_on(p.plan, p.replies, fork_at(n) + 4));
    assert(goes_on(p.plan, p.replies, fork_at(n) + 5));
}

/// A container whose child process is not 0 is seen from the parent. It has written the byte
/// that wakes the child, and its shutdown pipe is the one to which the handler is subscribed
/// under the number after the last scheme's.
pub proof fn parent_wakes_and_serves(p: Progress, launch: Launch)
    requires
        is_progress(p),
        p.end == Some(End::Launched(launch)),
        launch.child_pid != 0,
    ensures
        ({
            let n = p.plan.sandbox.len() as int;
            &&& p.replies.len() == fork_at(n) + 4
            &&& forked(p.replies, n) != 0
            &&& launch.child_pid == forked(p.replies, n) as usize
            &&& launch.serving
            &&& launch.namespace == value(p.replies[0])
            &&& launch.shutdown_pipe as i32 == write_end(p.replies[shutdown_at(n)])
            &&& forall|a: Action| #[trigger]
                is_call(p.plan, p.replies, shutdown_at(n) + 1, a) ==> a == (Action::Subscribe {
                    fd: read_end(p.replies[shutdown_at(n)]) as usize,
                    user_data: n as usize,
                })
            &&& forall|a: Action| #[trigger]
                is_call(p.plan, p.replies, fork_at(n) + 2, a) ==> a == (Action::WriteByte {
                    fd: write_end(p.replies[sync_at(n)]),
                    byte: 1,
                })
        }),
{
    let n = p.plan.sandbox.len() as int;
    lemma_end(p);
    let fd = write_end(p.replies[shutdown_at(n)]);
    assert((fd as usize) as i32 == fd) by (bit_vector);
}

/// Nothing is forked before every sandboxed scheme has its socket: it was opened under the
/// scheme's name, registered on the namespace under that name, and subscribed to under the
/// scheme's number.
pub proof fn schemes_are_registered_before_the_fork(plan: Plan, replies: Seq<Reply>, i: int)
    requires
        is_run(plan, replies),
        replies.len() >= fork_at(plan.sandbox.len() as int),
        0 <= i < plan.sandbox.len(),
    ensures
        ({
            let n = plan.sandbox.len() as int;
            let subscribed = getns_at(n) + 3 + i;
            &&& replies[socket_at(i)] matches Reply::Sys(Ok(_))
            &&& replies[socket_at(i) + 1] matches Reply::Sys(Ok(_))
            &&& replies[socket_at(i) + 2] matches Reply::Sys(Ok(_))
            &&& replies[subscribed] matches Reply::Sys(Ok(_))
            &&& forall|j: int, a: Action|
                0 <= j < 4 ==> (#[trigger] is_call(plan, replies, socket_at(i) + j, a) <==> registers(
                    plan,
                    replies,
                    i,
                    j,
                    a,
                ))
            &&& forall|a: Action| #[trigger]
                is_call(plan, replies, subscribed, a) ==> a == (Action::Subscribe {
                    fd: value(replies[socket_at(i)]),
                    user_data: i as usize,
                })
        }),
{
    let n = plan.sandbox.len() as int;
    assert(goes_on(plan, replies, socket_at(i)));
    assert(goes_on(plan, replies, socket_at(i) + 1));
    assert(goes_on(plan, replies, socket_at(i) + 2));
    assert(goes_on(plan, replies, getns_at(n) + 3 + i));
}

/// Each sandboxed scheme has one socket opened for it, in the order of the schemes, and that
/// socket is opened through the capability to create schemes, which was obtained before.
pub proof fn sockets_are_opened_through_the_capability(
    plan: Plan,
    replies: Seq<Reply>,
    k: int,
    a: Action,
)
    requires
        is_run(plan, replies),
        0 <= k <= replies.len(),
        k < fork_at(plan.sandbox.len() as int) + 6,
        is_call(plan, replies, k, a),
    ensures
        a is OpenSocket <==> exists|i: int|
            0 <= i < plan.sandbox.len() && k == #[trigger] socket_at(i),
        a matches Action::OpenSocket { scheme, capability, path, .. } ==> {
            &&& replies[2] == Reply::Sys(Ok(capability))
            &&& scheme < plan.sandbox.len()
            &&& k == socket_at(scheme as int)
            &&& path@ == seq![':'] + plan.sandbox[scheme as int]
        },
{
    let n = plan.sandbox.len() as int;
    if socket_at(0) <= k < getns_at(n) {
        let i = (k - socket_at(0)) / 4;
        assert(goes_on(plan, replies, 2));
        if (k - socket_at(0)) % 4 == 0 {
            assert(k == socket_at(i));
        }
    }
}

/// The handler is spawned before the fork, and there is one fork.
pub proof fn forks_once_after_spawning(plan: Plan, replies: Seq<Reply>, k: int, a: Action)
    requires
        0 <= k < fork_at(plan.sandbox.len() as int) + 6,
        is_call(plan, replies, k, a),
    ensures
        a == Action::Fork <==> k == fork_at(plan.sandbox.len() as int),
        a is SpawnHandler <==> k == fork_at(plan.sandbox.len() as int) - 1,
{
}

/// No two subscriptions have one number.
pub proof fn subscriptions_are_distinct(
    plan: Plan,
    replies: Seq<Reply>,
    j: int,
    k: int,
    a: Action,
    b: Action,
)
    requires
        plan.sandbox.len() <= usize::MAX,
        0 <= j < k < fork_at(plan.sandbox.len() as int) + 6,
        is_call(plan, replies, j, a),
        is_call(plan, replies, k, b),
        a is Subscribe,
        b is Subscribe,
    ensures
        a->Subscribe_user_data != b->Subscribe_user_data,
{
}

} // verus!
