//! What holds of serving the sandboxed schemes.
use vstd::prelude::*;

use crate::contain_thread::shutdown_signal;
use crate::contain_thread::ThreadView;
use crate::error::SysError;
use crate::handler::{handler_after, next_step, on_event};
use crate::handler::{HandlerReply, HandlerStep, StopReason, REQUESTS};
use crate::laws::launching::parent_wakes_and_serves;
use crate::setup::{fork_at, forked, getns_at, goes_on, is_call, is_progress, read_end};
use crate::setup::{shutdown_at, sync_at, write_end};
use crate::setup::{Action, End, Launch, Plan, Progress, Reply};

verus! {

/// An event of a scheme's socket has the handler read from that scheme.
pub proof fn events_reach_their_scheme(plan: Plan, replies: Seq<Reply>, i: int, a: Action)
    requires
        plan.sandbox.len() <= usize::MAX,
        0 <= i < plan.sandbox.len(),
        is_call(plan, replies, getns_at(plan.sandbox.len() as int) + 3 + i, a),
    ensures
        a matches Action::Subscribe { user_data, .. } && on_event(
            plan.sandbox.len() as usize,
            Some(Ok(user_data)),
        ) == (HandlerStep::Read { scheme: i as usize }),
{
}

/// The number under which the shutdown pipe is subscribed to is the one that the handler is
/// spawned with, and an event under that number stops the handler.
pub proof fn shutdown_number_stops_the_handler(
    plan: Plan,
    replies: Seq<Reply>,
    a: Action,
    b: Action,
)
    requires
        plan.sandbox.len() <= usize::MAX,
        is_call(plan, replies, shutdown_at(plan.sandbox.len() as int) + 1, a),
        is_call(plan, replies, sync_at(plan.sandbox.len() as int) + 1, b),
    ensures
        b matches Action::SpawnHandler { pipe_index, .. } && pipe_index == plan.sandbox.len(),
        a matches Action::Subscribe { user_data, .. } && on_event(
            plan.sandbox.len() as usize,
            Some(Ok(user_data)),
        ) == HandlerStep::Stop(StopReason::Shutdown),
{
}

/// In a container that is seen from the parent, telling the handler to stop writes to one end
/// of the shutdown pipe. The other end of that pipe is the one that is subscribed to, and that
/// the handler is spawned with; an event of it stops the handler.
pub proof fn shutdown_signal_reaches_the_handler<C, H>(
    p: Progress,
    launch: Launch,
    thread: ThreadView<C, H>,
    subscribed: Action,
    spawned: Action,
)
    requires
        p.plan.sandbox.len() <= usize::MAX,
        is_progress(p),
        p.end == Some(End::Launched(launch)),
        launch.child_pid != 0,
        thread.shutdown_pipe == launch.shutdown_pipe,
        is_call(p.plan, p.replies, shutdown_at(p.plan.sandbox.len() as int) + 1, subscribed),
        is_call(p.plan, p.replies, sync_at(p.plan.sandbox.len() as int) + 1, spawned),
    ensures
        ({
            let n = p.plan.sandbox.len() as usize;
            let pipe = p.replies[shutdown_at(n as int)];
            &&& pipe matches Reply::Pipe { rc, .. } && rc == 0
            &&& shutdown_signal(thread) == (Action::WriteByte { fd: write_end(pipe), byte: 0 })
            &&& subscribed == (Action::Subscribe { fd: read_end(pipe) as usize, user_data: n })
            &&& spawned == (Action::SpawnHandler {
                pipe_index: n,
                shutdown_read: read_end(pipe),
            })
            &&& on_event(n, Some(Ok(n))) == HandlerStep::Stop(StopReason::Shutdown)
        }),
{
    parent_wakes_and_serves(p, launch);
    assert(goes_on(p.plan, p.replies, shutdown_at(p.plan.sandbox.len() as int)));
}

/// No call of the parent closes the end of the shutdown pipe that the handler is subscribed
/// to. That the pipe by which the child is woken has other descriptors is for the system to see
/// to: both pipes are open at once.
pub proof fn parent_keeps_the_shutdown_pipe_open(
    plan: Plan,
    replies: Seq<Reply>,
    k: int,
    a: Action,
)
    requires
        shutdown_at(plan.sandbox.len() as int) < k < fork_at(plan.sandbox.len() as int) + 4,
        k > fork_at(plan.sandbox.len() as int) ==> forked(replies, plan.sandbox.len() as int) != 0,
        is_call(plan, replies, k, a),
        ({
            let n = plan.sandbox.len() as int;
            let end = read_end(replies[shutdown_at(n)]);
            end != read_end(replies[sync_at(n)]) && end != write_end(replies[sync_at(n)])
        }),
    ensures
        a !is CloseFd,
        a != (Action::Close { fd: read_end(replies[shutdown_at(plan.sandbox.len() as int)]) }),
{
}

/// What the handler does after its next `done` responses have been written.
pub open spec fn after_responses(count: usize, step: HandlerStep, done: nat) -> HandlerStep
    decreases done,
{
    if done == 0 {
        step
    } else {
        handler_after(
            count,
            after_responses(count, step, (done - 1) as nat),
            HandlerReply::Written(Ok(1)),
        )
    }
}

/// Each request that was read is responded to, in order, before the handler waits again.
pub proof fn every_request_is_answered(count: usize, scheme: usize, total: usize, done: nat)
    requires
        0 < total,
        done <= total,
    ensures
        after_responses(
            count,
            handler_after(
                count,
                HandlerStep::Read { scheme },
                HandlerReply::Requests(Ok(total)),
            ),
            done,
        ) == if done < total {
            HandlerStep::Respond { scheme, request: done as usize, total }
        } else {
            HandlerStep::Wait
        },
    decreases done,
{
    if done > 0 {
        every_request_is_answered(count, scheme, total, (done - 1) as nat);
    }
}

/// After a response the handler goes on only if that response was written.
pub proof fn an_unwritten_response_stops_the_handler(
    count: usize,
    scheme: usize,
    request: usize,
    total: usize,
    reply: HandlerReply,
)
    requires
        reply is Written,
    ensures
        handler_after(count, HandlerStep::Respond { scheme, request, total }, reply) is Stop <==> reply
            != HandlerReply::Written(Ok(1)),
{
}

/// With `count` schemes, an event under a number below that has the handler read from the
/// scheme with that number, and nothing else does. Every other event stops it: one under `count`
/// for the reason that it was told to, the others for what they are.
pub proof fn events_are_told_apart(
    count: usize,
    event: Option<Result<usize, SysError>>,
    r: HandlerStep,
)
    requires
        call_ensures(next_step, (count, HandlerStep::Wait, HandlerReply::Event(event)), r),
    ensures
        match event {
            None => r matches HandlerStep::Stop(why) && why is QueueEnded,
            Some(Err(e)) => r matches HandlerStep::Stop(StopReason::QueueFailed(error)) && error
                == e,
            Some(Ok(number)) => {
                &&& number < count ==> (r matches HandlerStep::Read { scheme } && scheme == number)
                &&& number == count ==> (r matches HandlerStep::Stop(why) && why is Shutdown)
                &&& number > count ==> (r matches HandlerStep::Stop(
                    StopReason::UnexpectedIndex(index),
                ) && index == number)
            },
        },
{
}

/// Requests that were read from a scheme are handled by that scheme, from the first on. Where
/// none was read, or reading failed, the handler stops for that reason.
pub proof fn requests_are_handled_by_their_scheme(
    count: usize,
    scheme: usize,
    read: Result<usize, SysError>,
    r: HandlerStep,
)
    requires
        call_ensures(
            next_step,
            (count, HandlerStep::Read { scheme }, HandlerReply::Requests(read)),
            r,
        ),
    ensures
        match read {
            Err(e) => r matches HandlerStep::Stop(StopReason::ReadFailed(error)) && error == e,
            Ok(total) => if total == 0 {
                r matches HandlerStep::Stop(why) && why is SocketClosed
            } else {
                r == (HandlerStep::Respond { scheme, request: 0, total })
            },
        },
{
}

/// After a response that was written the next request of the same scheme follows, and after the
/// last one the handler waits. A response that was not written stops it, with how many were.
pub proof fn responses_follow_each_other(
    count: usize,
    scheme: usize,
    request: usize,
    total: usize,
    written: Result<usize, SysError>,
    r: HandlerStep,
)
    requires
        request < total,
        call_ensures(
            next_step,
            (
                count,
                HandlerStep::Respond { scheme, request, total },
                HandlerReply::Written(written),
            ),
            r,
        ),
    ensures
        match written {
            Err(e) => r matches HandlerStep::Stop(StopReason::WriteFailed(error)) && error == e,
            Ok(n) => if n != 1 {
                r matches HandlerStep::Stop(StopReason::WriteIncomplete(some)) && some == n
            } else if request + 1 == total {
                r is Wait
            } else {
                r matches HandlerStep::Respond { scheme: same, request: next, total: of } && same
                    == scheme && next == request + 1 && of == total
            },
        },
{
}

/// Requests are read one at a time. Whatever comes of waiting, of reading, or of responding, the
/// handler knows what to do next.
pub proof fn every_outcome_is_handled(
    count: usize,
    scheme: usize,
    event: Option<Result<usize, SysError>>,
    read: Result<usize, SysError>,
    written: Result<usize, SysError>,
)
    requires
        scheme < count,
        read is Ok ==> read->Ok_0 <= 1,
    ensures
        REQUESTS == 1,
        call_requires(next_step, (count, HandlerStep::Wait, HandlerReply::Event(event))),
        call_requires(
            next_step,
            (count, HandlerStep::Read { scheme }, HandlerReply::Requests(read)),
        ),
        call_requires(
            next_step,
            (
                count,
                HandlerStep::Respond { scheme, request: 0, total: 1 },
                HandlerReply::Written(written),
            ),
        ),
{
}

} // verus!
