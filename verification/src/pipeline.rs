//! Socket configuration outcomes and the driver/consumer pipeline.
//!
//! The socket work itself — setting the strict-check option, binding,
//! polling — is the transport's; this module holds every decision
//! around it: which configuration failures are fatal, how the driver
//! reacts to each poll of the socket, and what the consumer is owed.

use vstd::prelude::*;
use crate::event::{EventModel, InboundEvent};
use crate::queue::{EventQueue, QueuePoll};

verus! {

/// A fatal configuration failure: the bind, with the OS error code.
/// Without a successful bind no kernel broadcast can ever arrive, so
/// this aborts startup.
#[derive(Clone, Copy, PartialEq, Eq, Structural, Debug)]
pub enum SocketError {
    Bind(i32),
}

/// What a successful configuration reports: the bind went through;
/// the strict-check option may still have failed, which is recorded
/// with its OS error code — reduced validation, never fatal.
#[derive(Clone, Copy, PartialEq, Eq, Debug)]
pub struct SetupReport {
    pub strict_check_error: Option<i32>,
}

/// Decide the outcome of socket configuration from the two raw
/// results the transport returned: setting the strict-check option
/// and binding, each an OS error code on failure.
///
/// A strict-check failure is recoverable: it is recorded in the
/// report and subscription continues with reduced validation. A bind
/// failure is fatal and is the only error this returns.
pub fn configure_outcome(strict_result: Result<(), i32>, bind_result: Result<(), i32>) -> (r:
    Result<SetupReport, SocketError>)
    ensures
        bind_result matches Err(code) ==> (r matches Err(e) && e == SocketError::Bind(code)),
        bind_result is Ok ==> (r matches Ok(rep) && rep.strict_check_error == (
        match strict_result {
            Ok(_) => None::<i32>,
            Err(c) => Some(c),
        })),
{
    match bind_result {
        Err(code) => Err(SocketError::Bind(code)),
        Ok(_) => Ok(
            SetupReport {
                strict_check_error: match strict_result {
                    Ok(_) => None,
                    Err(c) => Some(c),
                },
            },
        ),
    }
}

/// The connection driver's two states. It never leaves `Running` on
/// its own; the only transition is to the final `Terminated`, entered
/// when the socket closes or fails.
#[derive(Clone, Copy, PartialEq, Eq, Structural, Debug)]
pub enum DriverState {
    Running,
    Terminated,
}

/// What one poll of the transport socket yielded.
pub enum SocketPoll {
    /// A datagram arrived, already framed by the transport.
    Datagram(InboundEvent),
    /// The socket was closed.
    Closed,
    /// A connection-level failure, with the OS error code.
    Failed(i32),
}

/// The monitoring pipeline once configuration is decided: the driver
/// state, the queue between driver and consumer, and what startup
/// recorded. The consumer never touches the socket; the driver alone
/// feeds and closes the queue.
pub struct Pipeline {
    pub driver: DriverState,
    pub queue: EventQueue,
    pub strict_check_error: Option<i32>,
    pub bind_error: Option<i32>,
}

impl Pipeline {
    /// The standing invariant: the queue is open exactly while the
    /// driver runs, and after a failed bind nothing was ever produced
    /// — the driver never started.
    pub open spec fn wf(self) -> bool {
        &&& (self.driver is Running <==> !self.queue.is_closed())
        &&& (self.bind_error is Some ==> self.driver is Terminated && self.queue.produced()
            == Seq::<EventModel>::empty())
    }

    /// Start the pipeline from the transport's two configuration
    /// results. On a successful bind the driver runs on an open,
    /// empty queue; on a failed bind the driver never starts and the
    /// queue is born closed, so the consumer immediately sees end of
    /// stream. Either way the strict-check outcome is recorded and a
    /// bind failure is surfaced, never swallowed.
    pub fn start(strict_result: Result<(), i32>, bind_result: Result<(), i32>) -> (p: Pipeline)
        ensures
            p.wf(),
            p.queue.produced() == Seq::<EventModel>::empty(),
            p.queue.consumed() == Seq::<EventModel>::empty(),
            p.strict_check_error == (
            match strict_result {
                Ok(_) => None::<i32>,
                Err(c) => Some(c),
            }),
            bind_result matches Err(code) ==> p.bind_error == Some(code) && p.driver
                is Terminated && p.queue.is_closed(),
            bind_result is Ok ==> p.bind_error is None && p.driver is Running
                && !p.queue.is_closed(),
    {
        let mut queue = EventQueue::new();
        match configure_outcome(strict_result, bind_result) {
            Ok(report) => Pipeline {
                driver: DriverState::Running,
                queue,
                strict_check_error: report.strict_check_error,
                bind_error: None,
            },
            Err(SocketError::Bind(code)) => {
                queue.close();
                let strict_check_error = match strict_result {
                    Ok(_) => None,
                    Err(c) => Some(c),
                };
                Pipeline {
                    driver: DriverState::Terminated,
                    queue,
                    strict_check_error,
                    bind_error: Some(code),
                }
            },
        }
    }

    /// The driver's reaction to one poll of the socket. A datagram is
    /// enqueued — in arrival order, never dropped — and the driver
    /// keeps running. A closed socket or a connection failure
    /// terminates the driver and closes the queue; the consumer sees
    /// that as end of stream, never as an error of its own.
    pub fn on_socket_poll(&mut self, poll: SocketPoll)
        requires
            old(self).wf(),
            old(self).driver is Running,
        ensures
            final(self).wf(),
            final(self).queue.consumed() == old(self).queue.consumed(),
            final(self).strict_check_error == old(self).strict_check_error,
            final(self).bind_error == old(self).bind_error,
            poll matches SocketPoll::Datagram(e) ==> (final(self).driver is Running
                && final(self).queue.produced() == old(self).queue.produced().push(e@)),
            !(poll is Datagram) ==> (final(self).driver is Terminated
                && final(self).queue.is_closed()
                && final(self).queue.produced() == old(self).queue.produced()),
    {
        match poll {
            SocketPoll::Datagram(e) => {
                self.queue.push(e);
            },
            SocketPoll::Closed => {
                self.queue.close();
                self.driver = DriverState::Terminated;
            },
            SocketPoll::Failed(_) => {
                self.queue.close();
                self.driver = DriverState::Terminated;
            },
        }
    }

    /// The consumer's pull, in arrival order: each produced event
    /// exactly once, then — once the driver has terminated and the
    /// backlog is drained — end of stream, forever. The driver state
    /// and the production history are untouched.
    pub fn next_event(&mut self) -> (r: QueuePoll)
        requires
            old(self).wf(),
        ensures
            final(self).wf(),
            final(self).driver == old(self).driver,
            final(self).strict_check_error == old(self).strict_check_error,
            final(self).bind_error == old(self).bind_error,
            final(self).queue.produced() == old(self).queue.produced(),
            old(self).queue.pending().len() > 0 ==> (r matches QueuePoll::Event(e)
                && e@ == old(self).queue.pending()[0]
                && final(self).queue.consumed() == old(self).queue.consumed().push(e@)),
            old(self).queue.pending().len() == 0 && !old(self).queue.is_closed() ==> (r is Pending
                && *final(self) == *old(self)),
            old(self).queue.pending().len() == 0 && old(self).queue.is_closed() ==> (r
                is EndOfStream && *final(self) == *old(self)),
    {
        self.queue.next()
    }
}

} // verus!
