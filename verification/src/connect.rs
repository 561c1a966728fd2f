//! The data that a connect request carries and the connection it yields.

use std::collections::VecDeque;
use vstd::prelude::*;

verus! {

/// An IPv4 transport address, as plain data.
///
/// The IP address is held as its four bytes read as one big-endian integer,
/// so `127.0.0.1` is `0x7f00_0001`.
#[derive(Clone, Copy, Debug, PartialEq, Eq, Structural, Hash)]
pub struct SockAddrV4 {
    pub ip: u32,
    pub port: u16,
}

/// An IPv6 transport address, as plain data.
///
/// The IP address is held as its sixteen bytes read as one big-endian
/// integer, so `::1` is `1`.
#[derive(Clone, Copy, Debug, PartialEq, Eq, Structural, Hash)]
pub struct SockAddrV6 {
    pub ip: u128,
    pub port: u16,
    pub flowinfo: u32,
    pub scope_id: u32,
}

/// A concrete transport address: where one connect attempt is directed.
#[derive(Clone, Copy, Debug, PartialEq, Eq, Structural, Hash)]
pub enum SockAddr {
    V4(SockAddrV4),
    V6(SockAddrV6),
}

/// What the resolver produced for one logical endpoint.
#[derive(Debug)]
pub enum ConnectAddrs {
    /// Resolution gave nothing.
    Unresolved,
    /// Exactly one candidate.
    One(SockAddr),
    /// Several candidates; the front of the queue has the highest priority.
    Multi(VecDeque<SockAddr>),
}

impl ConnectAddrs {
    /// The candidates in priority order.
    pub open spec fn candidates(self) -> Seq<SockAddr> {
        match self {
            ConnectAddrs::Unresolved => Seq::empty(),
            ConnectAddrs::One(addr) => seq![addr],
            ConnectAddrs::Multi(addrs) => addrs@,
        }
    }

    /// A queue is never empty: an endpoint without candidates is `Unresolved`.
    pub open spec fn wf(self) -> bool {
        self matches ConnectAddrs::Multi(addrs) ==> addrs@.len() > 0
    }

    /// No candidate appears twice.
    pub open spec fn deduplicated(self) -> bool {
        self.candidates().no_duplicates()
    }

    /// Whether resolution gave nothing.
    pub fn is_none(&self) -> (b: bool)
        ensures
            b == (*self is Unresolved),
    {
        match self {
            ConnectAddrs::Unresolved => true,
            _ => false,
        }
    }
}

/// A request to connect to one logical endpoint.
///
/// It holds the caller's description of the endpoint, which this crate never
/// looks into, the port, and what the resolver found for the endpoint.
#[derive(Debug)]
pub struct Connect<T> {
    pub(crate) req: T,
    pub(crate) port: u16,
    pub(crate) addr: ConnectAddrs,
}

impl<T> Connect<T> {
    /// What the resolver found is always well formed.
    #[verifier::type_invariant]
    spec fn inv(self) -> bool {
        self.addr.wf()
    }

    /// The caller's description of the endpoint.
    pub closed spec fn spec_request(&self) -> &T {
        &self.req
    }

    /// The target port.
    pub closed spec fn spec_port(&self) -> u16 {
        self.port
    }

    /// What the resolver found.
    pub closed spec fn spec_addrs(&self) -> &ConnectAddrs {
        &self.addr
    }

    /// A request for an endpoint that is not resolved yet.
    pub fn new(req: T, port: u16) -> (connect: Self)
        ensures
            *connect.request() == req,
            connect.port() == port,
            *connect.addrs() is Unresolved,
    {
        Connect { req, port, addr: ConnectAddrs::Unresolved }
    }

    /// Replaces what the resolver found by at most one candidate.
    pub fn set_addr(self, addr: Option<SockAddr>) -> (connect: Self)
        ensures
            connect.request() == self.request(),
            connect.port() == self.port(),
            *connect.addrs() == match addr {
                Some(addr) => ConnectAddrs::One(addr),
                None => ConnectAddrs::Unresolved,
            },
    {
        let found = match addr {
            Some(addr) => ConnectAddrs::One(addr),
            None => ConnectAddrs::Unresolved,
        };
        Connect { req: self.req, port: self.port, addr: found }
    }

    /// Replaces what the resolver found by these candidates, the one with
    /// the highest priority in front. Without any candidate the request is
    /// unresolved; only two or more are kept as a queue.
    pub fn set_addrs(self, addrs: VecDeque<SockAddr>) -> (connect: Self)
        ensures
            connect.request() == self.request(),
            connect.port() == self.port(),
            *connect.addrs() == if addrs@.len() == 0 {
                ConnectAddrs::Unresolved
            } else if addrs@.len() == 1 {
                ConnectAddrs::One(addrs@[0])
            } else {
                ConnectAddrs::Multi(addrs)
            },
            connect.addrs().wf(),
            connect.addrs().candidates() == addrs@,
    {
        let mut queue = addrs;
        let found = if queue.len() < 2 {
            match queue.pop_front() {
                Some(addr) => ConnectAddrs::One(addr),
                None => ConnectAddrs::Unresolved,
            }
        } else {
            ConnectAddrs::Multi(queue)
        };
        assert(found.candidates() =~= addrs@);
        Connect { req: self.req, port: self.port, addr: found }
    }

    /// Takes the request apart: the description of the endpoint, the port
    /// and what the resolver found.
    pub fn into_parts(self) -> (parts: (T, u16, ConnectAddrs))
        ensures
            parts == (*self.request(), self.port(), *self.addrs()),
            parts.2.wf(),
    {
        proof {
            use_type_invariant(&self);
        }
        let Connect { req, port, addr } = self;
        (req, port, addr)
    }

    /// The target port.
    #[verifier::when_used_as_spec(spec_port)]
    pub fn port(&self) -> (port: u16)
        ensures
            port == self.spec_port(),
    {
        self.port
    }

    /// What the resolver found.
    #[verifier::when_used_as_spec(spec_addrs)]
    pub fn addrs(&self) -> (addrs: &ConnectAddrs)
        ensures
            addrs == self.spec_addrs(),
            addrs.wf(),
    {
        proof {
            use_type_invariant(self);
        }
        &self.addr
    }

    /// The caller's description of the endpoint.
    #[verifier::when_used_as_spec(spec_request)]
    pub fn request(&self) -> (req: &T)
        ensures
            req == self.spec_request(),
    {
        &self.req
    }
}

/// An established connection: the socket together with the endpoint
/// description that asked for it.
#[derive(Debug)]
pub struct Connection<T, U> {
    /// The connected socket.
    pub io: U,
    /// The endpoint description of the request.
    pub req: T,
}

impl<T, U> Connection<T, U> {
    /// Pairs a connected socket with the endpoint description.
    pub fn new(io: U, req: T) -> (conn: Self)
        ensures
            conn == (Connection { io, req }),
    {
        Connection { io, req }
    }

    /// Gives back the socket and the endpoint description.
    pub fn into_parts(self) -> (parts: (U, T))
        ensures
            parts == (self.io, self.req),
    {
        (self.io, self.req)
    }
}

} // verus!
