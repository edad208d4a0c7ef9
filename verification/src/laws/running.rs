//! What holds of running a command contained.
use vstd::prelude::*;

use crate::laws::launching::{child_is_contained, parent_wakes_and_serves};
use crate::error::{ContainError, ContainResult, SysError};
use crate::runner::{first_run_step, next_run_step, run_not_contained};
use crate::runner::{reaping, run_after, run_begins};
use crate::runner::{RunReply, RunStep, WaitCall};
use crate::setup::{enters, error_of, fork_at, forked, is_call, is_progress, value};
use crate::setup::{Action, End, Launch, Progress};

verus! {

/// The command is executed only in the forked child, and only once that has entered the
/// container's namespace.
pub proof fn command_is_executed_contained<E>(
    p: Progress,
    launch: Launch,
)
    requires
        is_progress(p),
        p.end == Some(End::Launched(launch)),
        run_begins(Ok::<usize, ContainError<E>>(launch.child_pid)) == RunStep::<E>::Execute,
    ensures
        ({
            let n = p.plan.sandbox.len() as int;
            &&& forked(p.replies, n) == 0
            &&& launch.namespace == value(p.replies[0])
            &&& error_of(p.replies[fork_at(n) + 5]) is None
            &&& forall|a: Action| #[trigger]
                is_call(p.plan, p.replies, fork_at(n) + 5, a) ==> enters(a, launch.namespace)
        }),
{
    child_is_contained(p, launch);
}

/// The parent waits for the very process that was forked.
pub proof fn parent_waits_for_its_child<E>(
    p: Progress,
    launch: Launch,
)
    requires
        is_progress(p),
        p.end == Some(End::Launched(launch)),
        launch.child_pid != 0,
    ensures
        run_begins(Ok::<usize, ContainError<E>>(launch.child_pid)) == RunStep::<E>::WaitForChild(
            WaitCall {
                pid: forked(p.replies, p.plan.sandbox.len() as int) as usize,
                no_hang: false,
            },
        ),
{
    parent_wakes_and_serves(p, launch);
}

/// The step after a number of processes have been collected.
pub open spec fn after_reaping<E>(
    step: RunStep<E>,
    reaped: Seq<usize>,
    exec_fail_exit: i32,
) -> RunStep<E>
    decreases reaped.len(),
{
    if reaped.len() == 0 {
        step
    } else {
        run_after(
            after_reaping(step, reaped.drop_last(), exec_fail_exit),
            RunReply::Reaped(Ok(reaped.last())),
            exec_fail_exit,
        )
    }
}

/// However many processes are collected, what is returned is the status of the contained
/// one, after the handler has been told to stop.
pub proof fn status_is_that_of_the_child<E>(
    call: WaitCall,
    status: i32,
    reaped: Seq<usize>,
    last: RunReply,
    exec_fail_exit: i32,
)
    requires
        forall|i: int| 0 <= i < reaped.len() ==> #[trigger] reaped[i] != 0,
        last is Reaped,
        last->Reaped_0 is Ok ==> last->Reaped_0->Ok_0 == 0,
    ensures
        ({
            let waited = run_after(
                RunStep::<E>::WaitForChild(call),
                RunReply::Waited(Ok(status)),
                exec_fail_exit,
            );
            let collected = run_after(
                after_reaping(waited, reaped, exec_fail_exit),
                last,
                exec_fail_exit,
            );
            &&& collected == (RunStep::<E>::SignalShutdown { status })
            &&& run_after(collected, RunReply::Signalled, exec_fail_exit) == RunStep::<E>::Return(
                Ok(status),
            )
        }),
{
    lemma_reaping::<E>(status, reaped, exec_fail_exit);
}

proof fn lemma_reaping<E>(status: i32, reaped: Seq<usize>, exec_fail_exit: i32)
    requires
        forall|i: int| 0 <= i < reaped.len() ==> #[trigger] reaped[i] != 0,
    ensures
        after_reaping(reaping::<E>(status), reaped, exec_fail_exit) == reaping::<E>(status),
    decreases reaped.len(),
{
    if reaped.len() > 0 {
        assert forall|i: int| 0 <= i < reaped.drop_last().len() implies #[trigger] reaped.drop_last()[i]
            != 0 by {
            assert(reaped.drop_last()[i] == reaped[i]);
        }
        lemma_reaping::<E>(status, reaped.drop_last(), exec_fail_exit);
        assert(reaped[reaped.len() - 1] != 0);
    }
}

/// A command that is run plainly gives its own exit code, or 1 where it has none, and an error
/// of starting it or waiting for it is given whole.
pub proof fn a_plain_run_gives_the_exit_code<E>(
    waited: Result<Option<i32>, E>,
    r: ContainResult<i32, E>,
)
    requires
        call_ensures(run_not_contained::<E>, (waited,), r),
    ensures
        match waited {
            Ok(Some(code)) => r matches Ok(given) && given == code,
            Ok(None) => r matches Ok(given) && given == 1,
            Err(error) => r matches Err(ContainError::IoError(given)) && given == error,
        },
{
}

/// A container that could not be set up gives its error. Otherwise the command is executed in
/// the contained process, which is 0 to itself, and any other process waits for that one, until
/// it ends.
pub proof fn a_contained_run_begins_by_the_process<E>(
    launched: ContainResult<usize, E>,
    r: RunStep<E>,
)
    requires
        call_ensures(first_run_step::<E>, (launched,), r),
    ensures
        launched matches Err(e) ==> r == RunStep::<E>::Return(Err(e)),
        r is Execute <==> launched is Ok && launched->Ok_0 == 0,
        r is WaitForChild <==> launched is Ok && launched->Ok_0 != 0,
        r matches RunStep::WaitForChild(call) ==> call.pid == launched->Ok_0 && !call.no_hang,
{
}

/// A command that could not be executed exits with the code for that.
pub proof fn a_failed_execution_exits<E>(
    step: RunStep<E>,
    reply: RunReply,
    exec_fail_exit: i32,
    r: RunStep<E>,
)
    requires
        call_ensures(next_run_step::<E>, (step, reply, exec_fail_exit), r),
        step is Execute,
        reply is ExecFailed,
    ensures
        r == RunStep::<E>::Exit(exec_fail_exit),
{
}

/// Once the contained process has ended, whatever its status, processes are collected without
/// waiting: any process, and only if it has ended already. The status is kept. An error of
/// waiting for the contained process is returned.
pub proof fn reaping_begins_without_blocking<E>(
    call: WaitCall,
    waited: Result<i32, SysError>,
    exec_fail_exit: i32,
    r: RunStep<E>,
)
    requires
        call_ensures(
            next_run_step::<E>,
            (RunStep::<E>::WaitForChild(call), RunReply::Waited(waited), exec_fail_exit),
            r,
        ),
    ensures
        waited is Ok <==> r is Reap,
        r matches RunStep::Reap { call: next, status } ==> {
            &&& next.pid == 0
            &&& next.no_hang
            &&& waited == Ok::<i32, SysError>(status)
        },
        waited matches Err(e) ==> r == RunStep::<E>::Return(Err(ContainError::SyscallError(e))),
{
}

/// After each process that was collected the next is collected, again without waiting, and when
/// there is none, or collecting fails, the handler is told to stop. The status is kept.
pub proof fn reaping_goes_on_without_blocking<E>(
    call: WaitCall,
    status: i32,
    reaped: Result<usize, SysError>,
    exec_fail_exit: i32,
    r: RunStep<E>,
)
    requires
        call_ensures(
            next_run_step::<E>,
            (RunStep::<E>::Reap { call, status }, RunReply::Reaped(reaped), exec_fail_exit),
            r,
        ),
    ensures
        r is Reap <==> reaped is Ok && reaped->Ok_0 != 0,
        r matches RunStep::Reap { call: next, status: kept } ==> {
            &&& next.pid == 0
            &&& next.no_hang
            &&& kept == status
        },
        r is SignalShutdown <==> reaped is Err || reaped->Ok_0 == 0,
        r matches RunStep::SignalShutdown { status: kept } ==> kept == status,
{
}

/// When the handler has been told to stop, the status that was kept is returned.
pub proof fn the_kept_status_is_returned<E>(status: i32, exec_fail_exit: i32, r: RunStep<E>)
    requires
        call_ensures(
            next_run_step::<E>,
            (RunStep::<E>::SignalShutdown { status }, RunReply::Signalled, exec_fail_exit),
            r,
        ),
    ensures
        r == RunStep::<E>::Return(Ok(status)),
{
}

/// Whatever comes of a step, the next step can be had.
pub proof fn every_outcome_of_a_step_is_accepted<E>(
    call: WaitCall,
    status: i32,
    waited: Result<i32, SysError>,
    reaped: Result<usize, SysError>,
    exec_fail_exit: i32,
)
    ensures
        call_requires(
            next_run_step::<E>,
            (RunStep::<E>::Execute, RunReply::ExecFailed, exec_fail_exit),
        ),
        call_requires(
            next_run_step::<E>,
            (RunStep::<E>::WaitForChild(call), RunReply::Waited(waited), exec_fail_exit),
        ),
        call_requires(
            next_run_step::<E>,
            (RunStep::<E>::Reap { call, status }, RunReply::Reaped(reaped), exec_fail_exit),
        ),
        call_requires(
            next_run_step::<E>,
            (RunStep::<E>::SignalShutdown { status }, RunReply::Signalled, exec_fail_exit),
        ),
{
}

} // verus!
