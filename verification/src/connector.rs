//! The connector service, its factory and the machine that a call returns.

use crate::connect::{Connect, ConnectAddrs, Connection, SockAddr};
use crate::error::ConnectError;
use crate::model::{Action, Event, State};
use std::collections::VecDeque;
use vstd::pervasive::unreached;
use vstd::prelude::*;

verus! {

/// TCP connector service factory.
#[derive(Debug, Copy, Clone)]
pub struct TcpConnectorFactory;

/// TCP connector service.
#[derive(Debug, Copy, Clone)]
pub struct TcpConnector;

impl TcpConnectorFactory {
    /// Creates a TCP connector service.
    pub fn service(&self) -> (connector: TcpConnector)
        ensures
            connector == TcpConnector,
    {
        TcpConnector
    }
}

impl TcpConnector {
    /// The machine that a call returns. It depends on the request alone: the
    /// connector holds no state.
    pub open spec fn spec_call<T>(self, req: Connect<T>) -> TcpConnectorResponse<T> {
        TcpConnectorResponse::spec_new(*req.request(), req.port(), *req.addrs())
    }

    /// Takes the port and the candidates out of the request and builds the
    /// machine that will establish the connection. A call is always accepted
    /// and does no I/O.
    pub fn call<T>(&self, req: Connect<T>) -> (res: TcpConnectorResponse<T>)
        ensures
            res == self.spec_call(req),
            res@ == State::initial(*req.request(), req.port(), *req.addrs()),
            res@.wf(),
    {
        let (req, port, addr) = req.into_parts();

        TcpConnectorResponse::new(req, port, addr)
    }
}

/// The machine that establishes the connection of one request.
///
/// It performs no I/O. The driver keeps the connect operation itself in a
/// slot of its own and tells the machine how polling it went.
pub enum TcpConnectorResponse<T> {
    /// Candidates are being tried, or the result has been handed out.
    Response {
        /// The endpoint description, until it leaves with the connection.
        req: Option<T>,
        /// The target port.
        port: u16,
        /// The candidates not tried yet; absent for a single candidate.
        addrs: Option<VecDeque<SockAddr>>,
        /// The address of the attempt in flight.
        stream: Option<SockAddr>,
    },
    /// No attempt will be made. The error is kept until the first poll
    /// hands it out.
    Error(Option<ConnectError>),
}

impl<T> View for TcpConnectorResponse<T> {
    type V = State<T>;

    open spec fn view(&self) -> State<T> {
        match *self {
            TcpConnectorResponse::Error(Some(err)) => State::Failing(err),
            TcpConnectorResponse::Error(None) => State::Done,
            TcpConnectorResponse::Response { req: None, .. } => State::Done,
            TcpConnectorResponse::Response { req: Some(req), port, addrs, stream } => {
                let queue = match addrs {
                    Some(addrs) => addrs@,
                    None => Seq::empty(),
                };
                if stream is Some || queue.len() > 0 {
                    State::Attempting { req, port, in_flight: stream, queue }
                } else {
                    State::Done
                }
            },
        }
    }
}

impl<T> TcpConnectorResponse<T> {
    /// The machine that `new` builds.
    pub open spec fn spec_new(req: T, port: u16, addr: ConnectAddrs) -> TcpConnectorResponse<T> {
        match addr {
            ConnectAddrs::Unresolved => TcpConnectorResponse::Error(
                Some(ConnectError::Unresolved),
            ),
            ConnectAddrs::One(addr) => TcpConnectorResponse::Response {
                req: Some(req),
                port,
                addrs: None,
                stream: Some(addr),
            },
            ConnectAddrs::Multi(addrs) => TcpConnectorResponse::Response {
                req: Some(req),
                port,
                addrs: Some(addrs),
                stream: None,
            },
        }
    }

    /// Builds the machine for a request. Nothing is attempted here. For a
    /// single candidate no queue is kept and the one attempt is in flight from
    /// the start: the driver has to start its connect operation.
    pub(crate) fn new(req: T, port: u16, addr: ConnectAddrs) -> (res: TcpConnectorResponse<T>)
        requires
            addr.wf(),
        ensures
            res == Self::spec_new(req, port, addr),
            res@ == State::initial(req, port, addr),
            res@.wf(),
    {
        if addr.is_none() {
            return TcpConnectorResponse::Error(Some(ConnectError::Unresolved));
        }
        match addr {
            ConnectAddrs::Unresolved => {
                assert(false);
                unreached()
            },
            ConnectAddrs::One(addr) => TcpConnectorResponse::Response {
                req: Some(req),
                port,
                addrs: None,
                stream: Some(addr),
            },
            // The candidates of a queue leave it from the front, one for each
            // attempt, until one of them connects.
            ConnectAddrs::Multi(addrs) => TcpConnectorResponse::Response {
                req: Some(req),
                port,
                addrs: Some(addrs),
                stream: None,
            },
        }
    }

    /// The address to which a connect operation is under way, if any.
    pub fn in_flight(&self) -> (addr: Option<SockAddr>)
        ensures
            addr == match self@ {
                State::Attempting { in_flight, .. } => in_flight,
                _ => None,
            },
    {
        match self {
            TcpConnectorResponse::Response { req: Some(_), stream, .. } => *stream,
            _ => None,
        }
    }

    /// Whether `event` may be handed to `poll` now.
    pub fn accepts<S>(&self, event: &Event<S>) -> (ok: bool)
        ensures
            ok == self@.accepts(*event),
    {
        match self {
            TcpConnectorResponse::Error(err) => err.is_some() && matches!(event, Event::Wake),
            TcpConnectorResponse::Response { req, addrs, stream, .. } => {
                let waiting = match addrs {
                    Some(addrs) => addrs.len() > 0,
                    None => false,
                };
                req.is_some() && (stream.is_some() || (waiting && matches!(event, Event::Wake)))
            },
        }
    }

    /// Takes one event and says what the driver has to do next.
    ///
    /// The driver starts with `Event::Wake` each time the scheduler polls it,
    /// carries out the action, and comes back with the outcome of polling
    /// the attempt in flight, until the action is `Pending` or `Ready`. A
    /// success ends the machine with the socket and the request. A failure
    /// moves it to the candidate in front of the queue, or ends it with that
    /// failure's error when the queue is empty. While the attempt is pending
    /// nothing changes.
    pub fn poll<S>(&mut self, event: Event<S>) -> (action: Action<T, S>)
        requires
            old(self)@.accepts(event),
        ensures
            (final(self)@, action) == old(self)@.step(event),
            final(self)@.wf(),
    {
        match self {
            TcpConnectorResponse::Error(err) => Action::Ready(Err(err.take().unwrap())),
            TcpConnectorResponse::Response { req, port, addrs, stream } => {
                if stream.is_some() {
                    match event {
                        Event::Wake => {
                            return Action::Poll;
                        },
                        Event::Pending => {
                            return Action::Pending;
                        },
                        Event::Connected(sock) => {
                            *stream = None;
                            let req = req.take().unwrap();
                            return Action::Ready(Ok(Connection::new(sock, req)));
                        },
                        Event::Failed(err) => {
                            if addrs.is_none() || addrs.as_ref().unwrap().len() == 0 {
                                *stream = None;
                                return Action::Ready(Err(ConnectError::Io(err)));
                            }
                        },
                    }
                }
                // No attempt is in flight, or the one that was has failed and
                // candidates are left: turn to the next one.
                let addr = addrs.as_mut().unwrap().pop_front().unwrap();
                *stream = Some(addr);
                Action::Connect(addr)
            },
        }
    }
}

} // verus!
