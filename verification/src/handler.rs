//! Serving the sandboxed schemes: what the handler does, event by event.
use vstd::prelude::*;

use crate::error::SysError;

verus! {

/// How many requests are read at a time.
pub const REQUESTS: usize = 1;

/// Why the handler stops.
#[derive(Clone, Copy, Debug, PartialEq, Eq, Structural)]
pub enum StopReason {
    /// It was told to.
    Shutdown,
    /// An event came from neither a scheme nor the pipe.
    UnexpectedIndex(usize),
    /// The event queue failed.
    QueueFailed(SysError),
    /// The event queue came to its end.
    QueueEnded,
    /// A scheme's socket was closed.
    SocketClosed,
    /// Requests could not be read.
    ReadFailed(SysError),
    /// A response was not written.
    WriteIncomplete(usize),
    /// Writing a response failed.
    WriteFailed(SysError),
}

/// What the handler does next.
#[derive(Clone, Copy, Debug, PartialEq, Eq, Structural)]
pub enum HandlerStep {
    /// Wait for an event.
    Wait,
    /// Read requests from the socket of `scheme`.
    Read { scheme: usize },
    /// Have `scheme` handle the request `request` of the `total` that were read, and write
    /// its response.
    Respond { scheme: usize, request: usize, total: usize },
    /// Stop.
    Stop(StopReason),
}

/// What came of it.
#[derive(Clone, Copy, Debug, PartialEq, Eq)]
pub enum HandlerReply {
    /// The number of the next event, an error, or the end of the queue.
    Event(Option<Result<usize, SysError>>),
    /// How many requests were read.
    Requests(Result<usize, SysError>),
    /// How many responses were written.
    Written(Result<usize, SysError>),
}

/// `reply` can be what came of `step`: what was read fits where it was read to.
pub open spec fn responds(step: HandlerStep, reply: HandlerReply) -> bool {
    match (step, reply) {
        (HandlerStep::Wait, HandlerReply::Event(_)) => true,
        (HandlerStep::Read { .. }, HandlerReply::Requests(Ok(total))) => total <= REQUESTS,
        (HandlerStep::Read { .. }, HandlerReply::Requests(Err(_))) => true,
        (HandlerStep::Respond { .. }, HandlerReply::Written(_)) => true,
        _ => false,
    }
}

/// The handler of `count` schemes waits, reads from one of them, or has one of the requests
/// that it has read left to respond to.
pub open spec fn is_step(count: usize, step: HandlerStep) -> bool {
    match step {
        HandlerStep::Read { scheme } => scheme < count,
        HandlerStep::Respond { scheme, request, total } => {
            &&& scheme < count
            &&& request < total <= REQUESTS
        },
        _ => true,
    }
}

/// What the handler of `count` schemes does about an event: events are numbered by their
/// scheme, and the number after the last scheme's is that of the pipe.
pub open spec fn on_event(count: usize, event: Option<Result<usize, SysError>>) -> HandlerStep {
    match event {
        None => HandlerStep::Stop(StopReason::QueueEnded),
        Some(Err(e)) => HandlerStep::Stop(StopReason::QueueFailed(e)),
        Some(Ok(index)) => if index < count {
            HandlerStep::Read { scheme: index }
        } else if index == count {
            HandlerStep::Stop(StopReason::Shutdown)
        } else {
            HandlerStep::Stop(StopReason::UnexpectedIndex(index))
        },
    }
}

/// What the handler does after `step`, of which `reply` came.
pub open spec fn handler_after(count: usize, step: HandlerStep, reply: HandlerReply) -> HandlerStep {
    match (step, reply) {
        (HandlerStep::Wait, HandlerReply::Event(event)) => on_event(count, event),
        (HandlerStep::Read { scheme }, HandlerReply::Requests(read)) => match read {
            Err(e) => HandlerStep::Stop(StopReason::ReadFailed(e)),
            Ok(0) => HandlerStep::Stop(StopReason::SocketClosed),
            Ok(total) => HandlerStep::Respond { scheme, request: 0, total },
        },
        (
            HandlerStep::Respond { scheme, request, total },
            HandlerReply::Written(written),
        ) => match written {
            Err(e) => HandlerStep::Stop(StopReason::WriteFailed(e)),
            Ok(n) => if n != 1 {
                HandlerStep::Stop(StopReason::WriteIncomplete(n))
            } else if request + 1 < total {
                HandlerStep::Respond { scheme, request: (request + 1) as usize, total }
            } else {
                HandlerStep::Wait
            },
        },
        _ => step,
    }
}

/// What the handler of `count` schemes does after `step`, of which `reply` came.
pub fn next_step(count: usize, step: HandlerStep, reply: HandlerReply) -> (r: HandlerStep)
    requires
        is_step(count, step),
        responds(step, reply),
    ensures
        r == handler_after(count, step, reply),
        is_step(count, r),
{
    match (step, reply) {
        (HandlerStep::Wait, HandlerReply::Event(event)) => match event {
            Some(Ok(index)) => {
                let pipe_index: usize = count;
                if index == pipe_index {
                    HandlerStep::Stop(StopReason::Shutdown)
                } else if index < count {
                    HandlerStep::Read { scheme: index }
                } else {
                    HandlerStep::Stop(StopReason::UnexpectedIndex(index))
                }
            },
            Some(Err(e)) => HandlerStep::Stop(StopReason::QueueFailed(e)),
            None => HandlerStep::Stop(StopReason::QueueEnded),
        },
        (HandlerStep::Read { scheme }, HandlerReply::Requests(read)) => match read {
            Ok(total) => if total == 0 {
                HandlerStep::Stop(StopReason::SocketClosed)
            } else {
                HandlerStep::Respond { scheme, request: 0, total }
            },
            Err(e) => HandlerStep::Stop(StopReason::ReadFailed(e)),
        },
        (
            HandlerStep::Respond { scheme, request, total },
            HandlerReply::Written(written),
        ) => match written {
            Ok(n) => if n == 1 {
                if request + 1 < total {
                    HandlerStep::Respond { scheme, request: request + 1, total }
                } else {
                    HandlerStep::Wait
                }
            } else {
                HandlerStep::Stop(StopReason::WriteIncomplete(n))
            },
            Err(e) => HandlerStep::Stop(StopReason::WriteFailed(e)),
        },
        _ => step,
    }
}

} // verus!
