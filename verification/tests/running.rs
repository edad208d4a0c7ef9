use contain::error::{ContainError, OsError, SysError};
use contain::handler::{next_step, HandlerReply, HandlerStep, StopReason};
use contain::runner::{first_run_step, next_run_step, RunReply, RunStep, WaitCall};

const EXIT: i32 = 99;
const ERROR: SysError = SysError { errno: 5 };

fn event(count: usize, event: Option<Result<usize, SysError>>) -> HandlerStep {
    next_step(count, HandlerStep::Wait, HandlerReply::Event(event))
}

#[test]
fn events_reach_their_scheme() {
    assert_eq!(event(3, Some(Ok(0))), HandlerStep::Read { scheme: 0 });
    assert_eq!(event(3, Some(Ok(2))), HandlerStep::Read { scheme: 2 });
}

#[test]
fn shutdown_number_stops_the_handler() {
    assert_eq!(event(3, Some(Ok(3))), HandlerStep::Stop(StopReason::Shutdown));
    assert_eq!(event(0, Some(Ok(0))), HandlerStep::Stop(StopReason::Shutdown));
}

#[test]
fn broken_queues_stop_the_handler() {
    assert_eq!(event(3, Some(Ok(4))), HandlerStep::Stop(StopReason::UnexpectedIndex(4)));
    assert_eq!(event(3, Some(Err(ERROR))), HandlerStep::Stop(StopReason::QueueFailed(ERROR)));
    assert_eq!(event(3, None), HandlerStep::Stop(StopReason::QueueEnded));
}

#[test]
fn every_request_is_answered() {
    let read = HandlerStep::Read { scheme: 1 };
    let respond = next_step(2, read, HandlerReply::Requests(Ok(1)));
    assert_eq!(respond, HandlerStep::Respond { scheme: 1, request: 0, total: 1 });
    assert_eq!(next_step(2, respond, HandlerReply::Written(Ok(1))), HandlerStep::Wait);
}

#[test]
fn closed_and_broken_sockets_stop_the_handler() {
    let read = HandlerStep::Read { scheme: 1 };
    assert_eq!(
        next_step(2, read, HandlerReply::Requests(Ok(0))),
        HandlerStep::Stop(StopReason::SocketClosed)
    );
    assert_eq!(
        next_step(2, read, HandlerReply::Requests(Err(ERROR))),
        HandlerStep::Stop(StopReason::ReadFailed(ERROR))
    );
}

#[test]
fn an_unwritten_response_stops_the_handler() {
    let respond = HandlerStep::Respond { scheme: 1, request: 0, total: 1 };
    assert_eq!(
        next_step(2, respond, HandlerReply::Written(Ok(0))),
        HandlerStep::Stop(StopReason::WriteIncomplete(0))
    );
    assert_eq!(
        next_step(2, respond, HandlerReply::Written(Err(ERROR))),
        HandlerStep::Stop(StopReason::WriteFailed(ERROR))
    );
}

#[test]
fn command_is_executed_contained() {
    assert_eq!(first_run_step::<OsError>(Ok(0)), RunStep::Execute);
    assert_eq!(
        next_run_step(RunStep::<OsError>::Execute, RunReply::ExecFailed, EXIT),
        RunStep::Exit(EXIT)
    );
}

#[test]
fn parent_waits_for_its_child() {
    assert_eq!(
        first_run_step::<OsError>(Ok(17)),
        RunStep::WaitForChild(WaitCall { pid: 17, no_hang: false })
    );
}

#[test]
fn a_container_that_was_not_set_up_is_an_error() {
    assert_eq!(
        first_run_step(Err(ContainError::IoError("told apart"))),
        RunStep::Return(Err(ContainError::IoError("told apart")))
    );
}

#[test]
fn status_is_that_of_the_child() {
    for last in [Ok(0), Err(ERROR)] {
        let mut step = first_run_step::<OsError>(Ok(17));
        step = next_run_step(step, RunReply::Waited(Ok(0x300)), EXIT);
        let reap = RunStep::Reap { call: WaitCall { pid: 0, no_hang: true }, status: 0x300 };
        for zombie in [18, 19] {
            assert_eq!(step, reap);
            step = next_run_step(step, RunReply::Reaped(Ok(zombie)), EXIT);
        }
        assert_eq!(step, reap);
        step = next_run_step(step, RunReply::Reaped(last), EXIT);
        assert_eq!(step, RunStep::SignalShutdown { status: 0x300 });
        step = next_run_step(step, RunReply::Signalled, EXIT);
        assert_eq!(step, RunStep::Return(Ok(0x300)));
    }
}

#[test]
fn a_failed_wait_is_an_error() {
    let step = next_run_step(first_run_step::<OsError>(Ok(17)), RunReply::Waited(Err(ERROR)), EXIT);
    assert_eq!(step, RunStep::Return(Err(ContainError::SyscallError(ERROR))));
}
