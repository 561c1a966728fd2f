use std::collections::VecDeque;
use std::io;

use tcp_connector::connect::{Connect, Connection, SockAddr, SockAddrV4, SockAddrV6};
use tcp_connector::connector::{TcpConnector, TcpConnectorFactory, TcpConnectorResponse};
use tcp_connector::error::ConnectError;
use tcp_connector::model::{Action, Event};

fn v4(host: u32, port: u16) -> SockAddr {
    SockAddr::V4(SockAddrV4 { ip: 0x0a00_0000 + host, port })
}

fn refused(tag: &str) -> io::Error {
    io::Error::new(io::ErrorKind::ConnectionRefused, tag.to_string())
}

fn request(host: &str, port: u16, addrs: Vec<SockAddr>) -> Connect<String> {
    Connect::new(host.to_string(), port).set_addrs(VecDeque::from(addrs))
}

struct Seen {
    attempts: Vec<SockAddr>,
    result: Option<Result<Connection<String, u32>, ConnectError>>,
}

/// Follows the machine the way a poll loop does. Each poll of the attempt
/// in flight finds what the next entry of `polls` says, `None` for an attempt
/// that is still pending. When the entries run out the machine is left alone
/// with its attempt pending.
fn drive(
    machine: &mut TcpConnectorResponse<String>,
    polls: Vec<Option<Result<u32, io::Error>>>,
) -> Seen {
    let mut attempts = Vec::new();
    if let Some(addr) = machine.in_flight() {
        attempts.push(addr);
    }
    let mut polls = polls.into_iter();
    let mut event = Event::Wake;
    loop {
        assert!(machine.accepts(&event));
        match machine.poll(event) {
            Action::Ready(result) => return Seen { attempts, result: Some(result) },
            Action::Pending => {
                // Suspended. The scheduler wakes the machine for the next poll.
                event = Event::Wake;
                continue;
            }
            Action::Poll => {}
            Action::Connect(addr) => {
                assert_eq!(machine.in_flight(), Some(addr));
                attempts.push(addr);
            }
        }
        event = match polls.next() {
            Some(None) => Event::Pending,
            Some(Some(Ok(sock))) => Event::Connected(sock),
            Some(Some(Err(err))) => Event::Failed(err),
            None => return Seen { attempts, result: None },
        };
    }
}

/// Polls that find every attempt finished at once.
fn at_once(outcomes: Vec<Result<u32, io::Error>>) -> Vec<Option<Result<u32, io::Error>>> {
    outcomes.into_iter().map(Some).collect()
}

/// Polls that find attempt `i` pending `i + 1` times before it ends.
fn with_waits(outcomes: Vec<Result<u32, io::Error>>) -> Vec<Option<Result<u32, io::Error>>> {
    let mut polls = Vec::new();
    for (i, outcome) in outcomes.into_iter().enumerate() {
        for _ in 0..=i {
            polls.push(None);
        }
        polls.push(Some(outcome));
    }
    polls
}

fn io_error_text(result: Option<Result<Connection<String, u32>, ConnectError>>) -> String {
    match result {
        Some(Err(ConnectError::Io(err))) => {
            assert_eq!(err.kind(), io::ErrorKind::ConnectionRefused);
            err.to_string()
        }
        other => panic!("expected an I/O error, got {:?}", other),
    }
}

#[test]
fn unresolved_fails_at_first_poll_without_attempt() {
    let mut machine = TcpConnector.call(Connect::new("example.com".to_string(), 443));
    assert_eq!(machine.in_flight(), None);
    assert!(machine.accepts(&Event::<u32>::Wake));
    match machine.poll::<u32>(Event::Wake) {
        Action::Ready(Err(ConnectError::Unresolved)) => {}
        other => panic!("unexpected action {:?}", other),
    }
    assert!(!machine.accepts(&Event::<u32>::Wake));
}

#[test]
fn unresolved_run_ignores_outcomes() {
    let mut machine = TcpConnector.call(request("example.com", 80, vec![]));
    let seen = drive(&mut machine, at_once(vec![Ok(1), Ok(2)]));
    assert!(seen.attempts.is_empty());
    assert!(matches!(seen.result, Some(Err(ConnectError::Unresolved))));
}

#[test]
fn single_candidate_is_in_flight_from_the_start() {
    let addr = v4(1, 8080);
    let machine = TcpConnector.call(Connect::new("one".to_string(), 8080).set_addr(Some(addr)));
    assert_eq!(machine.in_flight(), Some(addr));
    match machine {
        TcpConnectorResponse::Response { req, port, addrs, stream } => {
            assert_eq!(req, Some("one".to_string()));
            assert_eq!(port, 8080);
            assert!(addrs.is_none());
            assert_eq!(stream, Some(addr));
        }
        TcpConnectorResponse::Error(_) => panic!("a resolved request must be attempted"),
    }
}

#[test]
fn single_candidate_success_wraps_socket_and_request() {
    let addr = v4(1, 8080);
    let mut machine =
        TcpConnector.call(Connect::new("one".to_string(), 8080).set_addr(Some(addr)));
    assert!(matches!(machine.poll::<u32>(Event::Wake), Action::Poll));
    match machine.poll(Event::Connected(17u32)) {
        Action::Ready(Ok(conn)) => {
            let (io, req) = conn.into_parts();
            assert_eq!(io, 17);
            assert_eq!(req, "one");
        }
        other => panic!("unexpected action {:?}", other),
    }
    assert_eq!(machine.in_flight(), None);
    assert!(!machine.accepts(&Event::<u32>::Wake));
    assert!(!machine.accepts(&Event::<u32>::Pending));
}

#[test]
fn single_candidate_failure_yields_its_error() {
    let addr = v4(1, 8080);
    let mut machine =
        TcpConnector.call(Connect::new("one".to_string(), 8080).set_addr(Some(addr)));
    let seen = drive(&mut machine, at_once(vec![Err(refused("only"))]));
    assert_eq!(seen.attempts, vec![addr]);
    assert_eq!(io_error_text(seen.result), "only");
    assert!(!machine.accepts(&Event::<u32>::Wake));
}

#[test]
fn one_address_in_a_list_is_not_queued() {
    let addr = v4(9, 25);
    let machine = TcpConnector.call(request("mail", 25, vec![addr]));
    match machine {
        TcpConnectorResponse::Response { addrs, stream, .. } => {
            assert!(addrs.is_none());
            assert_eq!(stream, Some(addr));
        }
        TcpConnectorResponse::Error(_) => panic!("a resolved request must be attempted"),
    }
}

#[test]
fn queue_waits_for_the_first_poll() {
    let (a1, a2) = (v4(1, 80), v4(2, 80));
    let machine = TcpConnector.call(request("web", 80, vec![a1, a2]));
    assert_eq!(machine.in_flight(), None);
    assert!(machine.accepts(&Event::<u32>::Wake));
    assert!(!machine.accepts(&Event::<u32>::Pending));
    assert!(!machine.accepts(&Event::Connected(1u32)));
    assert!(!machine.accepts(&Event::<u32>::Failed(refused("none"))));
    match machine {
        TcpConnectorResponse::Response { req, port, addrs, stream } => {
            assert_eq!(req, Some("web".to_string()));
            assert_eq!(port, 80);
            assert_eq!(addrs, Some(VecDeque::from(vec![a1, a2])));
            assert_eq!(stream, None);
        }
        TcpConnectorResponse::Error(_) => panic!("a resolved request must be attempted"),
    }
}

#[test]
fn second_of_three_succeeds() {
    let (a1, a2, a3) = (v4(1, 80), v4(2, 80), v4(3, 80));
    let mut machine = TcpConnector.call(request("web", 80, vec![a1, a2, a3]));

    match machine.poll::<u32>(Event::Wake) {
        Action::Connect(addr) => assert_eq!(addr, a1),
        other => panic!("unexpected action {:?}", other),
    }
    match machine.poll::<u32>(Event::Failed(refused("a1"))) {
        Action::Connect(addr) => assert_eq!(addr, a2),
        other => panic!("unexpected action {:?}", other),
    }
    match machine.poll(Event::Connected(22u32)) {
        Action::Ready(Ok(conn)) => {
            assert_eq!(conn.io, 22);
            assert_eq!(conn.req, "web");
        }
        other => panic!("unexpected action {:?}", other),
    }
    // The third candidate is still where it was: nothing took it.
    match machine {
        TcpConnectorResponse::Response { req, addrs, stream, .. } => {
            assert_eq!(req, None);
            assert_eq!(addrs, Some(VecDeque::from(vec![a3])));
            assert_eq!(stream, None);
        }
        TcpConnectorResponse::Error(_) => panic!("a resolved request must be attempted"),
    }
}

#[test]
fn second_of_three_succeeds_makes_two_attempts() {
    let (a1, a2, a3) = (v4(1, 80), v4(2, 80), v4(3, 80));
    let mut machine = TcpConnector.call(request("web", 80, vec![a1, a2, a3]));
    let seen = drive(&mut machine, at_once(vec![Err(refused("a1")), Ok(22), Ok(33)]));
    assert_eq!(seen.attempts, vec![a1, a2]);
    match seen.result {
        Some(Ok(conn)) => assert_eq!(conn.into_parts(), (22, "web".to_string())),
        other => panic!("unexpected result {:?}", other),
    }
}

#[test]
fn all_three_fail_with_the_last_error() {
    let (a1, a2, a3) = (v4(1, 80), v4(2, 80), v4(3, 80));
    let mut machine = TcpConnector.call(request("web", 80, vec![a1, a2, a3]));
    let seen = drive(
        &mut machine,
        at_once(vec![Err(refused("a1")), Err(refused("a2")), Err(refused("a3"))]),
    );
    assert_eq!(seen.attempts, vec![a1, a2, a3]);
    assert_eq!(io_error_text(seen.result), "a3");
    assert_eq!(machine.in_flight(), None);
    assert!(!machine.accepts(&Event::<u32>::Wake));
}

#[test]
fn pending_attempt_changes_nothing() {
    let (a1, a2) = (v4(1, 80), v4(2, 80));
    let mut machine = TcpConnector.call(request("web", 80, vec![a1, a2]));
    assert!(matches!(machine.poll::<u32>(Event::Wake), Action::Connect(addr) if addr == a1));
    for _ in 0..3 {
        assert!(matches!(machine.poll::<u32>(Event::Pending), Action::Pending));
        assert_eq!(machine.in_flight(), Some(a1));
        assert!(matches!(machine.poll::<u32>(Event::Wake), Action::Poll));
        assert_eq!(machine.in_flight(), Some(a1));
    }
    match &machine {
        TcpConnectorResponse::Response { req, addrs, .. } => {
            assert_eq!(req.as_deref(), Some("web"));
            assert_eq!(addrs, &Some(VecDeque::from(vec![a2])));
        }
        TcpConnectorResponse::Error(_) => panic!("a resolved request must be attempted"),
    }
    // The attempt may still complete afterwards.
    assert!(matches!(machine.poll(Event::Connected(5u32)), Action::Ready(Ok(_))));
}

#[test]
fn abandoned_run_tries_nothing_further() {
    let (a1, a2, a3) = (v4(1, 80), v4(2, 80), v4(3, 80));

    let mut machine = TcpConnector.call(request("web", 80, vec![a1, a2, a3]));
    let seen = drive(&mut machine, vec![]);
    assert_eq!(seen.attempts, vec![a1]);
    assert!(seen.result.is_none());
    drop(machine);

    let mut machine = TcpConnector.call(request("web", 80, vec![a1, a2, a3]));
    let seen = drive(&mut machine, vec![None, None, None]);
    assert_eq!(seen.attempts, vec![a1]);
    assert!(seen.result.is_none());
    assert_eq!(machine.in_flight(), Some(a1));
    drop(machine);

    let mut machine = TcpConnector.call(request("web", 80, vec![a1, a2, a3]));
    let seen = drive(&mut machine, vec![None, Some(Err(refused("a1"))), None]);
    assert_eq!(seen.attempts, vec![a1, a2]);
    assert!(seen.result.is_none());
    assert_eq!(machine.in_flight(), Some(a2));
    match &machine {
        TcpConnectorResponse::Response { addrs, .. } => {
            assert_eq!(addrs, &Some(VecDeque::from(vec![a3])));
        }
        TcpConnectorResponse::Error(_) => panic!("a resolved request must be attempted"),
    }
    drop(machine);
}

#[test]
fn abandoned_single_attempt_has_no_result() {
    let addr = v4(1, 8080);
    let mut machine =
        TcpConnector.call(Connect::new("one".to_string(), 8080).set_addr(Some(addr)));
    let seen = drive(&mut machine, vec![None, None]);
    assert_eq!(seen.attempts, vec![addr]);
    assert!(seen.result.is_none());
    assert_eq!(machine.in_flight(), Some(addr));
}

#[test]
fn connectors_share_nothing() {
    let factory = TcpConnectorFactory;
    let first = factory.service();
    let second = factory.service();
    let (a1, a2, b1, b2) = (v4(1, 80), v4(2, 80), v4(3, 81), v4(4, 81));

    let mut m1 = first.call(request("first", 80, vec![a1, a2]));
    let mut m2 = second.call(request("second", 81, vec![b1, b2]));

    assert!(matches!(m1.poll::<u32>(Event::Wake), Action::Connect(a) if a == a1));
    assert!(matches!(m2.poll::<u32>(Event::Wake), Action::Connect(a) if a == b1));
    assert!(matches!(m1.poll::<u32>(Event::Failed(refused("a1"))), Action::Connect(a) if a == a2));
    assert_eq!(m2.in_flight(), Some(b1));
    match m2.poll(Event::Connected(2u32)) {
        Action::Ready(Ok(conn)) => assert_eq!(conn.into_parts(), (2, "second".to_string())),
        other => panic!("unexpected action {:?}", other),
    }
    assert_eq!(m1.in_flight(), Some(a2));
    match m1.poll(Event::Connected(1u32)) {
        Action::Ready(Ok(conn)) => assert_eq!(conn.into_parts(), (1, "first".to_string())),
        other => panic!("unexpected action {:?}", other),
    }
}

#[test]
fn connectors_answer_alike() {
    let factory = TcpConnectorFactory;
    let first = factory.service();
    let second = factory.clone().service();
    let addrs = vec![v4(1, 80), v4(2, 80), v4(3, 80)];
    for failures in 0..=3usize {
        let mut outcomes_a = Vec::new();
        let mut outcomes_b = Vec::new();
        for i in 0..failures {
            outcomes_a.push(Err(refused(&format!("e{}", i))));
            outcomes_b.push(Err(refused(&format!("e{}", i))));
        }
        outcomes_a.push(Ok(7));
        outcomes_b.push(Ok(7));
        let seen_a = drive(&mut first.call(request("h", 80, addrs.clone())), at_once(outcomes_a));
        let seen_b = drive(&mut second.call(request("h", 80, addrs.clone())), at_once(outcomes_b));
        assert_eq!(seen_a.attempts, seen_b.attempts);
        assert_eq!(format!("{:?}", seen_a.result), format!("{:?}", seen_b.result));
    }
}

/// The outcomes in which attempt `i` connects exactly when bit `i` of
/// `pattern` is set.
fn outcomes_of(pattern: u32, n: usize) -> Vec<Result<u32, io::Error>> {
    (0..n)
        .map(|i| {
            if pattern & (1 << i) != 0 {
                Ok(100 + i as u32)
            } else {
                Err(refused(&format!("e{}", i)))
            }
        })
        .collect()
}

fn expect_failover(seen: Seen, addrs: &[SockAddr], pattern: u32) {
    let n = addrs.len();
    match (0..n).find(|i| pattern & (1 << i) != 0) {
        Some(k) => {
            assert_eq!(seen.attempts, addrs[..=k].to_vec());
            match seen.result {
                Some(Ok(conn)) => {
                    assert_eq!(conn.into_parts(), (100 + k as u32, "host".to_string()))
                }
                other => panic!("unexpected result {:?}", other),
            }
        }
        None => {
            assert_eq!(seen.attempts, addrs.to_vec());
            assert_eq!(io_error_text(seen.result), format!("e{}", n - 1));
        }
    }
}

#[test]
fn every_pattern_of_outcomes_up_to_four_candidates() {
    for n in 1..=4usize {
        let addrs: Vec<SockAddr> = (0..n).map(|i| v4(i as u32 + 1, 80)).collect();
        for pattern in 0..(1u32 << n) {
            let mut machine = TcpConnector.call(request("host", 80, addrs.clone()));
            let seen = drive(&mut machine, at_once(outcomes_of(pattern, n)));
            expect_failover(seen, &addrs, pattern);
            assert!(!machine.accepts(&Event::<u32>::Wake));
        }
    }
}

#[test]
fn pending_polls_make_no_difference() {
    for n in 1..=4usize {
        let addrs: Vec<SockAddr> = (0..n).map(|i| v4(i as u32 + 1, 80)).collect();
        for pattern in 0..(1u32 << n) {
            let mut machine = TcpConnector.call(request("host", 80, addrs.clone()));
            let seen = drive(&mut machine, with_waits(outcomes_of(pattern, n)));
            expect_failover(seen, &addrs, pattern);
        }
    }
}

#[test]
fn ipv6_candidates_are_carried_unchanged() {
    let a1 = SockAddr::V6(SockAddrV6 { ip: 1, port: 443, flowinfo: 0, scope_id: 0 });
    let a2 = SockAddr::V6(SockAddrV6 {
        ip: 0xfe80_0000_0000_0000_0000_0000_0000_0001,
        port: 443,
        flowinfo: 7,
        scope_id: 3,
    });
    let a3 = v4(1, 443);
    let mut machine = TcpConnector.call(request("six", 443, vec![a1, a2, a3]));
    let seen = drive(&mut machine, at_once(vec![Err(refused("a1")), Err(refused("a2")), Ok(9)]));
    assert_eq!(seen.attempts, vec![a1, a2, a3]);
    assert!(matches!(seen.result, Some(Ok(_))));
}

#[test]
fn repeated_address_is_tried_again_in_its_place() {
    let (a1, a2) = (v4(1, 80), v4(2, 80));
    let mut machine = TcpConnector.call(request("web", 80, vec![a1, a2, a1]));
    let seen = drive(
        &mut machine,
        at_once(vec![Err(refused("x")), Err(refused("y")), Err(refused("z"))]),
    );
    assert_eq!(seen.attempts, vec![a1, a2, a1]);
    assert_eq!(io_error_text(seen.result), "z");
}
