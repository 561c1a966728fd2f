//! The failover rules as a transition function on mathematical states.

use crate::connect::{ConnectAddrs, Connection, SockAddr};
use crate::error::ConnectError;
use vstd::prelude::*;

verus! {

/// What the driver reports to the machine. `S` is the type of the sockets
/// that the driver's connect operations yield.
#[derive(Debug)]
pub enum Event<S> {
    /// The scheduler polls the machine. Nothing is known yet of the attempt
    /// in flight, if there is one.
    Wake,
    /// The attempt in flight was polled and has not finished.
    Pending,
    /// The attempt in flight has connected; this is its socket.
    Connected(S),
    /// The attempt in flight has failed with this error.
    Failed(std::io::Error),
}

/// What the machine asks of the driver.
#[derive(Debug)]
pub enum Action<T, S> {
    /// Start a connect operation to this address in the attempt slot,
    /// overwriting what the slot held, poll it at once and report the outcome.
    Connect(SockAddr),
    /// Poll the attempt in flight and report the outcome.
    Poll,
    /// Give control back to the scheduler until the attempt in flight makes
    /// progress.
    Pending,
    /// The machine has finished with this result.
    Ready(Result<Connection<T, S>, ConnectError>),
}

/// The state of one connect request.
pub enum State<T> {
    /// No attempt will be made; the next poll reports this error.
    Failing(ConnectError),
    /// Candidates are being tried.
    Attempting {
        /// The endpoint description, handed back with the socket on success.
        req: T,
        /// The target port.
        port: u16,
        /// The address of the attempt in flight. There is at most one.
        in_flight: Option<SockAddr>,
        /// The candidates not tried yet, the next one in front.
        queue: Seq<SockAddr>,
    },
    /// The result has been handed out.
    Done,
}

impl<T> State<T> {
    /// The state in which a request starts. A single candidate is in flight
    /// from the start; the candidates of a queue wait for the first poll.
    pub open spec fn initial(req: T, port: u16, addr: ConnectAddrs) -> State<T> {
        match addr {
            ConnectAddrs::Unresolved => State::Failing(ConnectError::Unresolved),
            ConnectAddrs::One(addr) => State::Attempting {
                req,
                port,
                in_flight: Some(addr),
                queue: Seq::empty(),
            },
            ConnectAddrs::Multi(addrs) => State::Attempting {
                req,
                port,
                in_flight: None,
                queue: addrs@,
            },
        }
    }

    /// While candidates are being tried there is always something to do: an
    /// attempt is in flight, or a candidate waits in the queue.
    pub open spec fn wf(self) -> bool {
        self matches State::Attempting { in_flight: None, queue, .. } ==> queue.len() > 0
    }

    /// Whether `event` can occur in this state. An outcome can only be
    /// reported of an attempt in flight; without one the machine can only be
    /// woken, and then it needs a candidate to turn to. A finished machine is
    /// not polled again.
    pub open spec fn accepts<S>(self, event: Event<S>) -> bool {
        match self {
            State::Failing(_) => event is Wake,
            State::Attempting { in_flight: Some(_), .. } => true,
            State::Attempting { in_flight: None, queue, .. } => event is Wake && queue.len() > 0,
            State::Done => false,
        }
    }

    /// Takes the candidate in front of the queue and asks for an attempt to it.
    pub open spec fn next_attempt<S>(req: T, port: u16, queue: Seq<SockAddr>) -> (
        State<T>,
        Action<T, S>,
    )
        recommends
            queue.len() > 0,
    {
        (
            State::Attempting { req, port, in_flight: Some(queue[0]), queue: queue.skip(1) },
            Action::Connect(queue[0]),
        )
    }

    /// One transition: the state after `event` and what the driver has to do.
    ///
    /// Only events that the state accepts have a defined transition.
    pub open spec fn step<S>(self, event: Event<S>) -> (State<T>, Action<T, S>) {
        match self {
            State::Failing(err) => (State::Done, Action::Ready(Err(err))),
            State::Attempting { req, port, in_flight: None, queue } => Self::next_attempt(
                req,
                port,
                queue,
            ),
            State::Attempting { req, port, in_flight: Some(_), queue } => match event {
                Event::Wake => (self, Action::Poll),
                Event::Pending => (self, Action::Pending),
                Event::Connected(io) => (
                    State::Done,
                    Action::Ready(Ok(Connection { io, req })),
                ),
                Event::Failed(err) => if queue.len() == 0 {
                    (State::Done, Action::Ready(Err(ConnectError::Io(err))))
                } else {
                    Self::next_attempt(req, port, queue)
                },
            },
            State::Done => arbitrary(),
        }
    }
}

} // verus!
