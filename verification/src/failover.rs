//! What a whole run of the machine comes to, proved from its transitions.

use crate::connect::{Connect, ConnectAddrs, Connection, SockAddr};
use crate::connector::TcpConnector;
use crate::error::ConnectError;
use crate::model::{Action, Event, State};
use vstd::prelude::*;

verus! {

/// What a driver has seen when it stops.
pub struct Run<T, S> {
    /// The addresses to which a connect operation was started, in that order.
    pub attempts: Seq<SockAddr>,
    /// The result of the machine, or nothing if the driver gave up while an
    /// attempt was still pending.
    pub result: Option<Result<Connection<T, S>, ConnectError>>,
}

impl<T, S> Run<T, S> {
    /// The run that made no attempt and has no result yet.
    pub open spec fn unfinished() -> Run<T, S> {
        Run { attempts: Seq::empty(), result: None }
    }

    /// The same run after one earlier attempt to `addr`.
    pub open spec fn after(self, addr: SockAddr) -> Run<T, S> {
        Run { attempts: seq![addr] + self.attempts, result: self.result }
    }
}

/// The event by which a driver reports what a poll of the attempt in flight
/// found: nothing yet, or how the attempt ended.
pub open spec fn report<S>(polled: Option<Result<S, std::io::Error>>) -> Event<S> {
    match polled {
        None => Event::Pending,
        Some(Ok(io)) => Event::Connected(io),
        Some(Err(err)) => Event::Failed(err),
    }
}

/// How the attempts ended, one entry for each attempt of which `polls` holds
/// the end, in the order of the attempts. The polls that found an attempt
/// pending are left out.
pub open spec fn outcomes<S>(
    polls: Seq<Option<Result<S, std::io::Error>>>,
) -> Seq<Result<S, std::io::Error>>
    decreases polls.len(),
{
    if polls.len() == 0 {
        Seq::empty()
    } else {
        match polls[0] {
            None => outcomes(polls.skip(1)),
            Some(outcome) => seq![outcome] + outcomes(polls.skip(1)),
        }
    }
}

/// The first `k` outcomes are failures.
pub open spec fn all_fail<S>(outcomes: Seq<Result<S, std::io::Error>>, k: int) -> bool {
    forall|i: int| 0 <= i < k ==> (#[trigger] outcomes[i]) is Err
}

impl<T> State<T> {
    /// Polls the attempt in flight as a driver does and goes on from what the
    /// poll finds. `polls` holds what each poll finds, in the order of the
    /// polls. A driver that has no entry left abandons the machine while the
    /// attempt is pending.
    pub open spec fn poll_attempt<S>(
        self,
        polls: Seq<Option<Result<S, std::io::Error>>>,
    ) -> Run<T, S>
        decreases polls.len(), 0int,
    {
        if polls.len() == 0 {
            Run::unfinished()
        } else {
            self.drive(report(polls[0]), polls.skip(1))
        }
    }

    /// Reports `event` to the machine and carries out what it asks for,
    /// again and again until the machine is ready or the driver stops. When
    /// the machine suspends, the scheduler wakes it for the next poll.
    pub open spec fn drive<S>(
        self,
        event: Event<S>,
        polls: Seq<Option<Result<S, std::io::Error>>>,
    ) -> Run<T, S>
        decreases polls.len(), (if event is Wake { 1int } else { 2int }),
    {
        let (next, action) = self.step(event);
        match action {
            Action::Ready(result) => Run { attempts: Seq::empty(), result: Some(result) },
            Action::Pending => if event is Wake {
                Run::unfinished()
            } else {
                next.drive(Event::Wake, polls)
            },
            Action::Poll => next.poll_attempt(polls),
            Action::Connect(addr) => next.poll_attempt(polls).after(addr),
        }
    }
}

/// The whole life of one request: the machine is built, the scheduler polls
/// it, and the driver follows it through the attempts, whose polls find what
/// `polls` says. The single candidate of `One` is in flight from the start,
/// so its attempt is counted before the first poll.
pub open spec fn run<T, S>(
    req: T,
    port: u16,
    addr: ConnectAddrs,
    polls: Seq<Option<Result<S, std::io::Error>>>,
) -> Run<T, S> {
    let start = State::initial(req, port, addr);
    let rest = start.drive(Event::Wake, polls);
    match start {
        State::Attempting { in_flight: Some(addr), .. } => rest.after(addr),
        _ => rest,
    }
}

/// While an attempt is pending the machine stands still: it keeps its state,
/// takes no candidate from the queue and asks for no new attempt. A driver
/// that stops polling at this point has started nothing beyond the attempt in
/// flight.
pub proof fn lemma_pending_changes_nothing<T, S>(state: State<T>)
    requires
        state matches State::Attempting { in_flight: Some(_), .. },
    ensures
        state.step::<S>(Event::Pending) == (state, Action::<T, S>::Pending),
        state.step::<S>(Event::Wake) == (state, Action::<T, S>::Poll),
{
}

/// Failover is strictly sequential. The machine asks for a new attempt only
/// when none is in flight or when the one in flight has just failed, so two
/// attempts never overlap. The new attempt goes to the candidate in front of
/// the queue, which leaves the queue for good.
pub proof fn lemma_attempts_never_overlap<T, S>(state: State<T>, event: Event<S>)
    requires
        state.accepts(event),
        state.step(event).1 is Connect,
    ensures
        state is Attempting,
        state->in_flight is None || event is Failed,
        state->queue.len() > 0,
        state.step(event).1 == Action::<T, S>::Connect(state->queue[0]),
        state.step(event).0 == (State::Attempting {
            req: state->req,
            port: state->port,
            in_flight: Some(state->queue[0]),
            queue: state->queue.skip(1),
        }),
{
}

/// A result ends the machine: once it is handed out, for better or worse, no
/// event is accepted any more, so nothing further is ever attempted.
pub proof fn lemma_result_is_final<T, S>(state: State<T>, event: Event<S>, later: Event<S>)
    requires
        state.accepts(event),
        state.step(event).1 is Ready,
    ensures
        state.step(event).0 is Done,
        !state.step(event).0.accepts(later),
{
}

/// The first attempt that connects ends the machine with its socket and the
/// request, whatever is still queued.
pub proof fn lemma_success_short_circuits<T, S>(state: State<T>, io: S)
    requires
        state.accepts(Event::Connected(io)),
    ensures
        state.step(Event::Connected(io)) == (
            State::<T>::Done,
            Action::Ready(Ok(Connection { io, req: state->req })),
        ),
{
}

/// A poll that finds the attempt pending leaves the run as it is: the driver
/// suspends, is woken, and polls the same attempt again.
proof fn lemma_pending_poll_is_skipped<T, S>(
    req: T,
    port: u16,
    addr: SockAddr,
    queue: Seq<SockAddr>,
    polls: Seq<Option<Result<S, std::io::Error>>>,
)
    requires
        polls.len() > 0,
        polls[0] is None,
    ensures
        ({
            let state = State::Attempting { req, port, in_flight: Some(addr), queue };
            state.poll_attempt(polls) == state.poll_attempt(polls.skip(1))
        }),
        outcomes(polls) == outcomes(polls.skip(1)),
{
    let state = State::Attempting { req, port, in_flight: Some(addr), queue };
    let rest = polls.skip(1);
    assert(state.poll_attempt(polls) == state.drive(Event::Pending, rest));
    assert(state.drive(Event::Pending, rest) == state.drive(Event::Wake, rest));
    assert(state.drive(Event::Wake, rest) == state.poll_attempt(rest));
}

/// The outcomes of polls that begin with the end of an attempt are that end
/// followed by the outcomes of the other polls.
proof fn lemma_outcomes_unfold<S>(polls: Seq<Option<Result<S, std::io::Error>>>)
    requires
        polls.len() > 0,
        polls[0] is Some,
    ensures
        outcomes(polls).len() > 0,
        outcomes(polls)[0] == polls[0]->Some_0,
        outcomes(polls).skip(1) == outcomes(polls.skip(1)),
{
    assert(outcomes(polls).skip(1) =~= outcomes(polls.skip(1)));
}

/// A failure among the first `k` outcomes carries over to the outcomes behind
/// the first.
proof fn lemma_all_fail_skips<S>(outcomes: Seq<Result<S, std::io::Error>>, k: int)
    requires
        0 < k <= outcomes.len(),
        all_fail(outcomes, k),
    ensures
        outcomes[0] is Err,
        all_fail(outcomes.skip(1), k - 1),
{
    assert(outcomes[0] is Err);
    assert forall|i: int| 0 <= i < k - 1 implies (#[trigger] outcomes.skip(1)[i]) is Err by {
        assert(outcomes[i + 1] is Err);
    }
}

/// From an attempt in flight with `queue` behind it: if the attempts fail
/// until the one with index `k` connects, exactly the first `k` candidates of
/// the queue are tried after it, and the result is the socket of attempt `k`
/// with the request.
proof fn lemma_poll_success<T, S>(
    req: T,
    port: u16,
    addr: SockAddr,
    queue: Seq<SockAddr>,
    polls: Seq<Option<Result<S, std::io::Error>>>,
    k: int,
)
    requires
        0 <= k <= queue.len(),
        k < outcomes(polls).len(),
        all_fail(outcomes(polls), k),
        outcomes(polls)[k] is Ok,
    ensures
        ({
            let state = State::Attempting { req, port, in_flight: Some(addr), queue };
            state.poll_attempt(polls) == (Run {
                attempts: queue.take(k),
                result: Some(Ok(Connection { io: outcomes(polls)[k]->Ok_0, req })),
            })
        }),
    decreases polls.len(),
{
    let rest = polls.skip(1);
    if polls[0] is None {
        lemma_pending_poll_is_skipped(req, port, addr, queue, polls);
        lemma_poll_success(req, port, addr, queue, rest, k);
    } else {
        lemma_outcomes_unfold(polls);
        if k == 0 {
            assert(queue.take(0) =~= Seq::empty());
        } else {
            lemma_all_fail_skips(outcomes(polls), k);
            lemma_poll_success(req, port, queue[0], queue.skip(1), rest, k - 1);
            assert(seq![queue[0]] + queue.skip(1).take(k - 1) =~= queue.take(k));
        }
    }
}

/// From an attempt in flight with `queue` behind it: if it and every
/// candidate of the queue fail, all of the queue is tried, and the error is
/// the one of the last attempt.
proof fn lemma_poll_exhaustion<T, S>(
    req: T,
    port: u16,
    addr: SockAddr,
    queue: Seq<SockAddr>,
    polls: Seq<Option<Result<S, std::io::Error>>>,
)
    requires
        queue.len() < outcomes(polls).len(),
        all_fail(outcomes(polls), queue.len() as int + 1),
    ensures
        ({
            let state = State::Attempting { req, port, in_flight: Some(addr), queue };
            state.poll_attempt(polls) == (Run::<T, S> {
                attempts: queue,
                result: Some(Err(ConnectError::Io(outcomes(polls)[queue.len() as int]->Err_0))),
            })
        }),
    decreases polls.len(),
{
    let rest = polls.skip(1);
    if polls[0] is None {
        lemma_pending_poll_is_skipped(req, port, addr, queue, polls);
        lemma_poll_exhaustion::<T, S>(req, port, addr, queue, rest);
    } else {
        lemma_outcomes_unfold(polls);
        lemma_all_fail_skips(outcomes(polls), queue.len() as int + 1);
        if queue.len() > 0 {
            lemma_poll_exhaustion::<T, S>(req, port, queue[0], queue.skip(1), rest);
            assert(outcomes(rest)[queue.len() - 1] == outcomes(polls)[queue.len() as int]);
            assert(seq![queue[0]] + queue.skip(1) =~= queue);
        } else {
            assert(queue =~= Seq::empty());
        }
    }
}

/// From an attempt in flight with `queue` behind it: if every attempt of
/// which the driver saw the end failed, and candidates are left, then one
/// more candidate than there are outcomes was tried, and there is no result.
proof fn lemma_poll_abandoned<T, S>(
    req: T,
    port: u16,
    addr: SockAddr,
    queue: Seq<SockAddr>,
    polls: Seq<Option<Result<S, std::io::Error>>>,
)
    requires
        outcomes(polls).len() <= queue.len(),
        all_fail(outcomes(polls), outcomes(polls).len() as int),
    ensures
        ({
            let state = State::Attempting { req, port, in_flight: Some(addr), queue };
            state.poll_attempt(polls) == (Run::<T, S> {
                attempts: queue.take(outcomes(polls).len() as int),
                result: None,
            })
        }),
    decreases polls.len(),
{
    let rest = polls.skip(1);
    if polls.len() == 0 {
        assert(queue.take(0) =~= Seq::empty());
    } else if polls[0] is None {
        lemma_pending_poll_is_skipped(req, port, addr, queue, polls);
        lemma_poll_abandoned::<T, S>(req, port, addr, queue, rest);
    } else {
        lemma_outcomes_unfold(polls);
        lemma_all_fail_skips(outcomes(polls), outcomes(polls).len() as int);
        lemma_poll_abandoned::<T, S>(req, port, queue[0], queue.skip(1), rest);
        assert(seq![queue[0]] + queue.skip(1).take(outcomes(rest).len() as int) =~= queue.take(
            outcomes(polls).len() as int,
        ));
    }
}

/// From an attempt in flight with `queue` behind it, whatever the polls
/// find: what is tried afterwards is a front part of the queue, in its order.
proof fn lemma_poll_in_order<T, S>(
    req: T,
    port: u16,
    addr: SockAddr,
    queue: Seq<SockAddr>,
    polls: Seq<Option<Result<S, std::io::Error>>>,
)
    ensures
        ({
            let state = State::Attempting { req, port, in_flight: Some(addr), queue };
            let tried = state.poll_attempt(polls).attempts;
            tried.len() <= queue.len() && tried == queue.take(tried.len() as int)
        }),
    decreases polls.len(),
{
    let state = State::Attempting { req, port, in_flight: Some(addr), queue };
    let tried = state.poll_attempt(polls).attempts;
    let rest = polls.skip(1);
    if polls.len() > 0 && polls[0] is None {
        lemma_pending_poll_is_skipped(req, port, addr, queue, polls);
        lemma_poll_in_order::<T, S>(req, port, addr, queue, rest);
    } else if polls.len() > 0 && polls[0]->Some_0 is Err && queue.len() > 0 {
        lemma_poll_in_order::<T, S>(req, port, queue[0], queue.skip(1), rest);
        let later = (State::Attempting {
            req,
            port,
            in_flight: Some(queue[0]),
            queue: queue.skip(1),
        }).poll_attempt(rest).attempts;
        assert(tried == seq![queue[0]] + later);
        assert(seq![queue[0]] + queue.skip(1).take(later.len() as int) =~= queue.take(
            tried.len() as int,
        ));
    } else {
        assert(tried =~= Seq::empty());
        assert(queue.take(0) =~= Seq::empty());
    }
}

/// A run from a resolved request is its first candidate's attempt followed by
/// the polls of it, with the other candidates queued behind.
proof fn lemma_run_unfolds<T, S>(
    req: T,
    port: u16,
    addr: ConnectAddrs,
    polls: Seq<Option<Result<S, std::io::Error>>>,
)
    requires
        addr.wf(),
        !(addr is Unresolved),
    ensures
        addr.candidates().len() > 0,
        ({
            let first = addr.candidates()[0];
            let queue = addr.candidates().skip(1);
            let state = State::Attempting { req, port, in_flight: Some(first), queue };
            run(req, port, addr, polls) == state.poll_attempt(polls).after(first)
        }),
{
    match addr {
        ConnectAddrs::One(a) => {
            assert(addr.candidates().skip(1) =~= Seq::empty());
        },
        _ => {},
    }
}

/// An unresolved request fails at the first poll with `Unresolved`, and no
/// connect attempt is made.
pub proof fn lemma_unresolved_fails_at_once<T, S>(
    req: T,
    port: u16,
    polls: Seq<Option<Result<S, std::io::Error>>>,
)
    ensures
        run(req, port, ConnectAddrs::Unresolved, polls) == (Run::<T, S> {
            attempts: Seq::empty(),
            result: Some(Err(ConnectError::Unresolved)),
        }),
{
}

/// The first candidate that connects wins. If the attempts to the candidates
/// before index `k` fail and the one to candidate `k` connects, then exactly
/// the candidates up to `k` are tried, in their order, none behind `k` is ever
/// tried, and the result is the socket of that attempt together with the
/// request. How often an attempt was found pending on the way makes no
/// difference.
pub proof fn lemma_first_success_wins<T, S>(
    req: T,
    port: u16,
    addr: ConnectAddrs,
    polls: Seq<Option<Result<S, std::io::Error>>>,
    k: int,
)
    requires
        addr.wf(),
        0 <= k < addr.candidates().len(),
        k < outcomes(polls).len(),
        all_fail(outcomes(polls), k),
        outcomes(polls)[k] is Ok,
    ensures
        run(req, port, addr, polls) == (Run {
            attempts: addr.candidates().take(k + 1),
            result: Some(Ok(Connection { io: outcomes(polls)[k]->Ok_0, req })),
        }),
{
    let candidates = addr.candidates();
    lemma_run_unfolds(req, port, addr, polls);
    lemma_poll_success(req, port, candidates[0], candidates.skip(1), polls, k);
    assert(seq![candidates[0]] + candidates.skip(1).take(k) =~= candidates.take(k + 1));
}

/// When every candidate fails, each one is tried once, in order, and the
/// error that comes back is the one of the last attempt; the errors of the
/// earlier attempts are dropped.
pub proof fn lemma_exhaustion_yields_last_error<T, S>(
    req: T,
    port: u16,
    addr: ConnectAddrs,
    polls: Seq<Option<Result<S, std::io::Error>>>,
)
    requires
        addr.wf(),
        !(addr is Unresolved),
        addr.candidates().len() <= outcomes(polls).len(),
        all_fail(outcomes(polls), addr.candidates().len() as int),
    ensures
        run(req, port, addr, polls) == (Run::<T, S> {
            attempts: addr.candidates(),
            result: Some(
                Err(ConnectError::Io(outcomes(polls)[addr.candidates().len() - 1]->Err_0)),
            ),
        }),
{
    let candidates = addr.candidates();
    lemma_run_unfolds(req, port, addr, polls);
    lemma_poll_exhaustion::<T, S>(req, port, candidates[0], candidates.skip(1), polls);
    assert(seq![candidates[0]] + candidates.skip(1) =~= candidates);
}

/// A driver that gives up while an attempt is pending has started no attempt
/// beyond that one: after the failures that it saw, with candidates left,
/// exactly one more candidate has been tried, the candidates behind it never
/// are, and there is no result.
pub proof fn lemma_abandoned_run_stops<T, S>(
    req: T,
    port: u16,
    addr: ConnectAddrs,
    polls: Seq<Option<Result<S, std::io::Error>>>,
)
    requires
        addr.wf(),
        outcomes(polls).len() < addr.candidates().len(),
        all_fail(outcomes(polls), outcomes(polls).len() as int),
    ensures
        run(req, port, addr, polls) == (Run::<T, S> {
            attempts: addr.candidates().take(outcomes(polls).len() as int + 1),
            result: None,
        }),
{
    let candidates = addr.candidates();
    lemma_run_unfolds(req, port, addr, polls);
    lemma_poll_abandoned::<T, S>(req, port, candidates[0], candidates.skip(1), polls);
    assert(seq![candidates[0]] + candidates.skip(1).take(outcomes(polls).len() as int)
        =~= candidates.take(outcomes(polls).len() as int + 1));
}

/// With a single candidate there is exactly one attempt, and it goes to that
/// candidate. If it connects, the result is its socket with the request; if
/// it fails, the result is its error. Nothing is tried again.
pub proof fn lemma_single_candidate_is_tried_once<T, S>(
    req: T,
    port: u16,
    addr: SockAddr,
    polls: Seq<Option<Result<S, std::io::Error>>>,
)
    requires
        outcomes(polls).len() > 0,
    ensures
        run(req, port, ConnectAddrs::One(addr), polls) == (Run {
            attempts: seq![addr],
            result: Some(
                match outcomes(polls)[0] {
                    Ok(io) => Ok(Connection { io, req }),
                    Err(err) => Err(ConnectError::Io(err)),
                },
            ),
        }),
{
    let only = ConnectAddrs::One(addr);
    assert(only.candidates().take(1) =~= seq![addr]);
    if outcomes(polls)[0] is Ok {
        lemma_first_success_wins(req, port, only, polls, 0);
    } else {
        lemma_exhaustion_yields_last_error::<T, S>(req, port, only, polls);
    }
}

/// Candidates are tried strictly in the order of their priority, whatever
/// the attempts come to: attempt `i` goes to candidate `i`, so no candidate is
/// skipped and none is tried before one in front of it.
pub proof fn lemma_attempts_follow_priority<T, S>(
    req: T,
    port: u16,
    addr: ConnectAddrs,
    polls: Seq<Option<Result<S, std::io::Error>>>,
)
    requires
        addr.wf(),
    ensures
        run::<T, S>(req, port, addr, polls).attempts.len() <= addr.candidates().len(),
        run::<T, S>(req, port, addr, polls).attempts == addr.candidates().take(
            run::<T, S>(req, port, addr, polls).attempts.len() as int,
        ),
{
    let candidates = addr.candidates();
    let tried = run::<T, S>(req, port, addr, polls).attempts;
    if addr is Unresolved {
        assert(candidates.take(0) =~= tried);
    } else {
        lemma_run_unfolds(req, port, addr, polls);
        lemma_poll_in_order::<T, S>(req, port, candidates[0], candidates.skip(1), polls);
        let later = (State::Attempting {
            req,
            port,
            in_flight: Some(candidates[0]),
            queue: candidates.skip(1),
        }).poll_attempt(polls).attempts;
        assert(tried == seq![candidates[0]] + later);
        assert(seq![candidates[0]] + candidates.skip(1).take(later.len() as int)
            =~= candidates.take(tried.len() as int));
    }
}

/// When the resolver hands over no address twice, no address is tried twice.
pub proof fn lemma_no_address_is_tried_twice<T, S>(
    req: T,
    port: u16,
    addr: ConnectAddrs,
    polls: Seq<Option<Result<S, std::io::Error>>>,
)
    requires
        addr.wf(),
        addr.deduplicated(),
    ensures
        run::<T, S>(req, port, addr, polls).attempts.no_duplicates(),
{
    lemma_attempts_follow_priority::<T, S>(req, port, addr, polls);
}

/// Connectors are interchangeable. Any two of them, however they were made,
/// answer the same request with the same machine, and what a machine does
/// next depends on its own state and the event alone: connectors and machines
/// share nothing.
pub proof fn lemma_connectors_are_interchangeable<T, S>(
    first: TcpConnector,
    second: TcpConnector,
    req: Connect<T>,
    event: Event<S>,
)
    ensures
        first == second,
        first.spec_call(req) == second.spec_call(req),
        first.spec_call(req)@.step(event) == second.spec_call(req)@.step(event),
{
}

} // verus!
