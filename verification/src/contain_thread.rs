//! A container that is running.
use vstd::prelude::*;

use crate::error::{ContainError, ContainResult, OsError};
use crate::setup::{Action, End, Setup};

verus! {

/// A container, as one of its two processes holds it: `C` is the handle by which its
/// configuration is shared with the handler, `H` the handle of the handler's thread.
#[derive(Debug)]
pub struct ContainThread<C, H> {
    config: C,
    namespace: usize,
    child_pid: usize,
    shutdown_pipe: usize,
    thread_handle: Option<H>,
}

/// What a [`ContainThread`] holds.
pub struct ThreadView<C, H> {
    pub config: C,
    pub namespace: usize,
    pub child_pid: usize,
    pub shutdown_pipe: usize,
    pub thread_handle: Option<H>,
}

impl<C, H> View for ContainThread<C, H> {
    type V = ThreadView<C, H>;

    closed spec fn view(&self) -> ThreadView<C, H> {
        ThreadView {
            config: self.config,
            namespace: self.namespace,
            child_pid: self.child_pid,
            shutdown_pipe: self.shutdown_pipe,
            thread_handle: self.thread_handle,
        }
    }
}

/// The call that tells the handler of the container `thread` to stop.
pub open spec fn shutdown_signal<C, H>(thread: ThreadView<C, H>) -> Action {
    Action::WriteByte { fd: thread.shutdown_pipe as i32, byte: 0 }
}

impl<C, H> ContainThread<C, H> {
    /// The container that `setup` has come to, or the error that it has failed with.
    ///
    /// The child lets go of the handler's thread, which runs in the parent.
    pub fn new(config: C, setup: &Setup, scheme_thread: Option<H>) -> (r: ContainResult<
        Self,
        OsError,
    >)
        requires
            setup.wf(),
            setup@.end is Some,
            setup@.end->0 !is Exited,
        ensures
            match setup@.end->0 {
                End::Failed(e) => r == Err::<Self, ContainError<OsError>>(e),
                End::Launched(launch) => {
                    &&& r matches Ok(thread)
                    &&& thread@ == ThreadView {
                        config,
                        namespace: launch.namespace,
                        child_pid: launch.child_pid,
                        shutdown_pipe: launch.shutdown_pipe,
                        thread_handle: if launch.serving {
                            scheme_thread
                        } else {
                            None
                        },
                    }
                },
                End::Exited(_) => true,
            },
    {
        match setup.next() {
            Action::Finish(End::Launched(launch)) => Ok(
                ContainThread {
                    config,
                    namespace: launch.namespace,
                    child_pid: launch.child_pid,
                    shutdown_pipe: launch.shutdown_pipe,
                    thread_handle: if launch.serving {
                        scheme_thread
                    } else {
                        None
                    },
                },
            ),
            Action::Finish(End::Failed(e)) => Err(e),
            _ => vstd::pervasive::unreached(),
        }
    }

    /// The container's namespace.
    pub fn namespace(&self) -> (r: usize)
        ensures
            r == self@.namespace,
    {
        self.namespace
    }

    /// The contained process; 0 in that process itself.
    pub fn child_pid(&self) -> (r: usize)
        ensures
            r == self@.child_pid,
    {
        self.child_pid
    }

    /// Whether this is the contained process.
    pub fn is_child(&self) -> (r: bool)
        ensures
            r == (self@.child_pid == 0),
    {
        self.child_pid == 0
    }

    /// The handle of the configuration.
    pub fn config(&self) -> (r: &C)
        ensures
            *r == self@.config,
    {
        &self.config
    }

    /// The call that tells the handler to stop.
    pub fn signal_shutdown(&self) -> (r: Action)
        ensures
            r == shutdown_signal(self@),
    {
        Action::WriteByte { fd: self.shutdown_pipe as i32, byte: 0 }
    }

    /// What is left to do when the container is let go of: the call that tells the handler to
    /// stop, and the handler's thread, which is then to be joined. It is given out once.
    pub fn release(&mut self) -> (r: (Action, Option<H>))
        ensures
            r.0 == shutdown_signal(old(self)@),
            r.1 == old(self)@.thread_handle,
            final(self)@ == (ThreadView { thread_handle: None, ..old(self)@ }),
    {
        let signal: Action = self.signal_shutdown();
        let handle: Option<H> = self.thread_handle.take();
        (signal, handle)
    }
}

} // verus!
