use dnsqry::decode::decode;
use dnsqry::error::{ArgumentError, DecodeError, TransportError, ValidationError};
use dnsqry::interpret::{validate, Outcome};
use dnsqry::message::{RData, Record};
use dnsqry::name::{parse_dotted, Name};
use dnsqry::query::{encode, Query};
use dnsqry::rtype::{parse_record_type, record_type_from_lookup};
use dnsqry::scheduler::{
    default_policy, escalate, pause, retry, start, step, Backoff, Cursor, Failure, Next, Policy,
};
use dnsqry::transport::{frame, unframe, Protocol, ServerEndpoint};
use dnsqry::ttl::format_ttl;

fn name(text: &str) -> Name {
    parse_dotted(text.as_bytes()).unwrap()
}

fn query() -> Query {
    Query { id: 0xBEEF, name: name("example.com"), rtype: 1, recursion_desired: true }
}

/// A response to `query()`: its question, then the given sections.
fn response(id: u16, flags: u16, answers: &[Vec<u8>], authority: &[Vec<u8>]) -> Vec<u8> {
    let mut out = Vec::new();
    for v in [id, flags, 1, answers.len() as u16, authority.len() as u16, 0] {
        out.extend_from_slice(&v.to_be_bytes());
    }
    out.extend_from_slice(b"\x07example\x03com\x00\x00\x01\x00\x01");
    for r in answers.iter().chain(authority.iter()) {
        out.extend_from_slice(r);
    }
    out
}

fn record(rtype: u16, ttl: u32, payload: &[u8]) -> Vec<u8> {
    let mut out = vec![0xC0, 0x0C];
    out.extend_from_slice(&rtype.to_be_bytes());
    out.extend_from_slice(&[0, 1]);
    out.extend_from_slice(&ttl.to_be_bytes());
    out.extend_from_slice(&(payload.len() as u16).to_be_bytes());
    out.extend_from_slice(payload);
    out
}

fn soa() -> Vec<u8> {
    let mut payload = b"\x02ns\xC0\x0C\x04root\xC0\x0C".to_vec();
    for v in [1u32, 2, 3, 4, 5] {
        payload.extend_from_slice(&v.to_be_bytes());
    }
    record(6, 60, &payload)
}

fn address_record() -> Record {
    Record {
        name: name("example.com"),
        rtype: 1,
        class: 1,
        ttl: 3600,
        data: RData::Address(vec![93, 184, 216, 34]),
    }
}

fn good_reply() -> Vec<u8> {
    response(0xBEEF, 0x8180, &[record(1, 3600, &[93, 184, 216, 34])], &[])
}

#[test]
fn one_address_record_is_returned_with_its_ttl() {
    let m = decode(&good_reply()).unwrap();
    let got = validate(&query(), m);
    assert_eq!(got, Ok(Outcome::Records(vec![address_record()])));
    match got {
        Ok(Outcome::Records(records)) => {
            assert_eq!(records.len(), 1);
            assert_eq!(format_ttl(records[0].ttl), "1h00m00s");
        }
        _ => panic!("no records"),
    }
}

#[test]
fn validating_twice_gives_the_same_verdict() {
    let q = query();
    for bytes in [
        good_reply(),
        response(0xBEEF, 0x8183, &[], &[]),
        response(1, 0x8180, &[], &[]),
        response(0xBEEF, 0x8180, &[], &[soa()]),
    ] {
        let first = validate(&q, decode(&bytes).unwrap());
        let second = validate(&q, decode(&bytes).unwrap());
        assert_eq!(first, second);
    }
}

#[test]
fn other_transaction_id_is_a_mismatch() {
    let m = decode(&response(0xBEEE, 0x8180, &[], &[])).unwrap();
    assert_eq!(validate(&query(), m), Err(ValidationError::Mismatch));
}

#[test]
fn mismatch_is_reported_before_the_response_code() {
    let m = decode(&response(0xBEEE, 0x8183, &[], &[])).unwrap();
    assert_eq!(validate(&query(), m), Err(ValidationError::Mismatch));
}

#[test]
fn other_question_is_a_question_mismatch() {
    let mut q = query();
    q.rtype = 28;
    let m = decode(&good_reply()).unwrap();
    assert_eq!(validate(&q, m), Err(ValidationError::QuestionMismatch));
    let mut q = query();
    q.name = name("example.org");
    let m = decode(&good_reply()).unwrap();
    assert_eq!(validate(&q, m), Err(ValidationError::QuestionMismatch));
}

#[test]
fn absent_question_section_is_accepted() {
    let mut bytes = Vec::new();
    for v in [0xBEEFu16, 0x8180, 0, 0, 0, 0] {
        bytes.extend_from_slice(&v.to_be_bytes());
    }
    let m = decode(&bytes).unwrap();
    assert_eq!(validate(&query(), m), Ok(Outcome::Records(vec![])));
}

#[test]
fn response_codes_are_told_apart() {
    let q = query();
    let verdict = |flags: u16| validate(&q, decode(&response(0xBEEF, flags, &[], &[])).unwrap());
    assert_eq!(verdict(0x8183), Err(ValidationError::NameError));
    assert_eq!(verdict(0x8182), Err(ValidationError::ServerFailure));
    assert_eq!(verdict(0x8181), Err(ValidationError::ResponseCode(1)));
    assert_eq!(verdict(0x8185), Err(ValidationError::ResponseCode(5)));
    assert_eq!(verdict(0x818F), Err(ValidationError::ResponseCode(15)));
    assert_eq!(verdict(0x8180), Ok(Outcome::Records(vec![])));
}

#[test]
fn empty_answer_with_soa_is_authoritative_empty() {
    let m = decode(&response(0xBEEF, 0x8180, &[], &[soa()])).unwrap();
    assert_eq!(validate(&query(), m), Ok(Outcome::EmptyAuthoritative));
    let ns = record(2, 60, b"\x02ns\xC0\x0C");
    let m = decode(&response(0xBEEF, 0x8180, &[], &[ns])).unwrap();
    assert_eq!(validate(&query(), m), Ok(Outcome::Records(vec![])));
    let a = record(1, 3600, &[93, 184, 216, 34]);
    let m = decode(&response(0xBEEF, 0x8180, &[a], &[soa()])).unwrap();
    assert_eq!(validate(&query(), m), Ok(Outcome::Records(vec![address_record()])));
}

fn endpoint(last: u8, protocol: Protocol) -> ServerEndpoint {
    ServerEndpoint { address: vec![192, 0, 2, last], port: 53, protocol }
}

fn endpoints(count: usize) -> Vec<ServerEndpoint> {
    (0..count).map(|i| endpoint(i as u8 + 1, Protocol::Udp)).collect()
}

fn policy(servers: usize, max_attempts: u32) -> Policy {
    Policy {
        servers: endpoints(servers),
        max_attempts,
        tcp_only: false,
        timeout_ms: 2000,
        backoff: Backoff::Immediate,
    }
}

fn udp(server: usize, attempt: u32) -> Cursor {
    Cursor { server, attempt, protocol: Protocol::Udp, delay_ms: 0 }
}

fn tcp(server: usize, attempt: u32) -> Cursor {
    Cursor { server, attempt, protocol: Protocol::Tcp, delay_ms: 0 }
}

#[test]
fn default_policy_is_two_attempts_of_two_seconds() {
    assert_eq!(
        default_policy(endpoints(3)),
        Policy {
            servers: endpoints(3),
            max_attempts: 2,
            tcp_only: false,
            timeout_ms: 2000,
            backoff: Backoff::Immediate,
        }
    );
}

#[test]
fn start_asks_the_first_server() {
    assert_eq!(start(&policy(2, 2)), Next::Send(udp(0, 0)));
    let mut p = policy(2, 2);
    p.tcp_only = true;
    assert_eq!(start(&p), Next::Send(tcp(0, 0)));
    assert_eq!(start(&policy(0, 2)), Next::Done(Err(Failure::NoServers)));
    assert_eq!(start(&policy(2, 0)), Next::Done(Err(Failure::NoServers)));
}

#[test]
fn server_that_prefers_a_stream_is_asked_over_one() {
    let p = Policy {
        servers: vec![endpoint(1, Protocol::Tcp), endpoint(2, Protocol::Udp), endpoint(3, Protocol::Tcp)],
        max_attempts: 2,
        tcp_only: false,
        timeout_ms: 2000,
        backoff: Backoff::Immediate,
    };
    let (sent, result) = run_with(&p, |_| Err(TransportError::Timeout));
    assert_eq!(sent, vec![tcp(0, 0), tcp(0, 1), udp(1, 0), udp(1, 1), tcp(2, 0), tcp(2, 1)]);
    assert_eq!(result, Err(Failure::Transport(TransportError::Timeout)));
}

#[test]
fn stream_only_policy_never_sends_a_datagram() {
    let mut p = policy(2, 2);
    p.tcp_only = true;
    let (sent, _) = run_with(&p, |_| Err(TransportError::ConnectionRefused));
    assert_eq!(sent, vec![tcp(0, 0), tcp(0, 1), tcp(1, 0), tcp(1, 1)]);
}

#[test]
fn truncated_datagram_moves_the_same_server_to_a_stream() {
    let p = policy(2, 2);
    let q = query();
    let truncated = response(0xBEEF, 0x8380, &[], &[]);
    let next = step(&p, &q, udp(0, 0), Ok(truncated));
    assert_eq!(next, Next::Send(tcp(0, 0)));
    // the stream exchange: framed out, unframed back
    let wire = frame(&good_reply()).unwrap();
    let reply = unframe(&wire);
    assert_eq!(
        step(&p, &q, tcp(0, 0), reply),
        Next::Done(Ok(Outcome::Records(vec![address_record()])))
    );
}

#[test]
fn truncation_reported_by_the_transport_escalates_too() {
    let p = policy(1, 1);
    assert_eq!(
        step(&p, &query(), udp(0, 0), Err(TransportError::Truncated)),
        Next::Send(tcp(0, 0))
    );
}

#[test]
fn truncation_flag_over_a_stream_does_not_escalate() {
    let p = policy(1, 1);
    let truncated = response(0xBEEF, 0x8380, &[], &[]);
    assert_eq!(step(&p, &query(), tcp(0, 0), Ok(truncated)), Next::Done(Ok(Outcome::Records(vec![]))));
}

#[test]
fn nonexistent_name_is_a_name_error() {
    let p = policy(2, 2);
    let reply = response(0xBEEF, 0x8183, &[], &[soa()]);
    assert_eq!(
        step(&p, &query(), udp(0, 0), Ok(reply)),
        Next::Done(Err(Failure::Validation(ValidationError::NameError)))
    );
}

#[test]
fn server_failure_is_not_retried() {
    let p = policy(2, 2);
    let reply = response(0xBEEF, 0x8182, &[], &[]);
    assert_eq!(
        step(&p, &query(), udp(0, 0), Ok(reply)),
        Next::Done(Err(Failure::Validation(ValidationError::ServerFailure)))
    );
}

fn run_with(p: &Policy, reply: fn(Cursor) -> Result<Vec<u8>, TransportError>) -> (Vec<Cursor>, Result<Outcome, Failure>) {
    let q = query();
    let mut sent = Vec::new();
    let mut next = start(p);
    loop {
        match next {
            Next::Done(r) => return (sent, r),
            Next::Send(at) => {
                sent.push(at);
                assert!(sent.len() < 1000);
                next = step(p, &q, at, reply(at));
            }
        }
    }
}

#[test]
fn all_timeouts_use_every_attempt_once() {
    for (servers, attempts) in [(1usize, 1u32), (1, 3), (3, 2), (4, 5)] {
        let p = policy(servers, attempts);
        let (sent, result) = run_with(&p, |_| Err(TransportError::Timeout));
        assert_eq!(sent.len(), servers * attempts as usize);
        assert_eq!(result, Err(Failure::Transport(TransportError::Timeout)));
        let mut want = Vec::new();
        for s in 0..servers {
            for a in 0..attempts {
                want.push(udp(s, a));
            }
        }
        assert_eq!(sent, want);
    }
}

#[test]
fn last_error_is_the_one_reported() {
    let p = policy(2, 1);
    let (sent, result) = run_with(&p, |at| {
        if at.server == 0 {
            Err(TransportError::ConnectionRefused)
        } else {
            Ok(vec![1, 2, 3])
        }
    });
    assert_eq!(sent, vec![udp(0, 0), udp(1, 0)]);
    assert_eq!(result, Err(Failure::Decode(DecodeError::Truncated)));
}

#[test]
fn second_server_answers_after_the_first_failed() {
    let p = policy(2, 2);
    let (sent, result) = run_with(&p, |at| {
        if at.server == 0 {
            Err(TransportError::NetworkUnreachable)
        } else {
            Ok(good_reply())
        }
    });
    assert_eq!(sent, vec![udp(0, 0), udp(0, 1), udp(1, 0)]);
    assert_eq!(result, Ok(Outcome::Records(vec![address_record()])));
}

#[test]
fn escalation_does_not_use_up_an_attempt() {
    let p = policy(1, 2);
    let (sent, result) = run_with(&p, |at| match at.protocol {
        Protocol::Udp => Ok(response(0xBEEF, 0x8380, &[], &[])),
        Protocol::Tcp => Err(TransportError::MalformedLength),
    });
    assert_eq!(sent, vec![udp(0, 0), tcp(0, 0), udp(0, 1), tcp(0, 1)]);
    assert_eq!(result, Err(Failure::Transport(TransportError::MalformedLength)));
}

#[test]
fn retry_moves_through_attempts_then_servers() {
    let p = policy(2, 2);
    let f = Failure::Transport(TransportError::Timeout);
    assert_eq!(retry(&p, udp(0, 0), f), Next::Send(udp(0, 1)));
    assert_eq!(retry(&p, tcp(0, 1), f), Next::Send(udp(1, 0)));
    assert_eq!(retry(&p, udp(1, 0), f), Next::Send(udp(1, 1)));
    assert_eq!(retry(&p, udp(1, 1), f), Next::Done(Err(f)));
}

#[test]
fn pause_follows_the_backoff() {
    assert_eq!(pause(Backoff::Immediate, 0), 0);
    assert_eq!(pause(Backoff::Immediate, 3), 0);
    assert_eq!(pause(Backoff::Fixed(250), 0), 0);
    assert_eq!(pause(Backoff::Fixed(250), 1), 250);
    assert_eq!(pause(Backoff::Fixed(250), 9), 250);
    assert_eq!(pause(Backoff::Doubling(100), 0), 0);
    assert_eq!(pause(Backoff::Doubling(100), 1), 100);
    assert_eq!(pause(Backoff::Doubling(100), 2), 200);
    assert_eq!(pause(Backoff::Doubling(100), 3), 400);
    assert_eq!(pause(Backoff::Doubling(100), 11), 102400);
    assert_eq!(pause(Backoff::Doubling(1), 64), 1u64 << 63);
    assert_eq!(pause(Backoff::Doubling(1), 65), u64::MAX);
    assert_eq!(pause(Backoff::Doubling(3), 64), u64::MAX);
    assert_eq!(pause(Backoff::Doubling(0), u32::MAX), 0);
    assert_eq!(pause(Backoff::Doubling(u64::MAX), u32::MAX), u64::MAX);
}

#[test]
fn further_attempts_on_a_server_wait_for_the_pause() {
    let mut p = policy(2, 3);
    p.backoff = Backoff::Doubling(500);
    let (sent, _) = run_with(&p, |_| Err(TransportError::Timeout));
    let delays: Vec<u64> = sent.iter().map(|c| c.delay_ms).collect();
    assert_eq!(delays, vec![0, 500, 1000, 0, 500, 1000]);
    p.backoff = Backoff::Fixed(50);
    let (sent, _) = run_with(&p, |_| Err(TransportError::Timeout));
    let delays: Vec<u64> = sent.iter().map(|c| c.delay_ms).collect();
    assert_eq!(delays, vec![0, 50, 50, 0, 50, 50]);
}

#[test]
fn escalation_starts_at_once() {
    let at = Cursor { server: 1, attempt: 2, protocol: Protocol::Udp, delay_ms: 700 };
    assert_eq!(escalate(at), tcp(1, 2));
}

#[test]
fn record_type_tokens_are_recognised() {
    assert_eq!(parse_record_type("A"), Ok(1));
    assert_eq!(parse_record_type("NS"), Ok(2));
    assert_eq!(parse_record_type("CNAME"), Ok(5));
    assert_eq!(parse_record_type("SOA"), Ok(6));
    assert_eq!(parse_record_type("PTR"), Ok(12));
    assert_eq!(parse_record_type("MX"), Ok(15));
    assert_eq!(parse_record_type("TXT"), Ok(16));
    assert_eq!(parse_record_type("AAAA"), Ok(28));
    assert_eq!(parse_record_type("ANY"), Ok(255));
    assert_eq!(parse_record_type("*"), Ok(255));
}

#[test]
fn unknown_record_type_tokens_are_rejected() {
    assert_eq!(parse_record_type("BOGUS"), Err(ArgumentError::UnknownRecordType));
    assert_eq!(parse_record_type(""), Err(ArgumentError::UnknownRecordType));
    assert_eq!(parse_record_type("a"), Err(ArgumentError::UnknownRecordType));
    assert_eq!(parse_record_type("Mx"), Err(ArgumentError::UnknownRecordType));
    assert_eq!(parse_record_type("A "), Err(ArgumentError::UnknownRecordType));
}

#[test]
fn lookup_result_maps_to_type_or_error() {
    assert_eq!(record_type_from_lookup(Some(15)), Ok(15));
    assert_eq!(record_type_from_lookup(Some(0)), Ok(0));
    assert_eq!(record_type_from_lookup(None), Err(ArgumentError::UnknownRecordType));
}

#[test]
fn ttl_is_rendered_in_hours_minutes_seconds() {
    assert_eq!(format_ttl(0), "0s");
    assert_eq!(format_ttl(7), "7s");
    assert_eq!(format_ttl(59), "59s");
    assert_eq!(format_ttl(60), "1m00s");
    assert_eq!(format_ttl(61), "1m01s");
    assert_eq!(format_ttl(300), "5m00s");
    assert_eq!(format_ttl(3599), "59m59s");
    assert_eq!(format_ttl(3600), "1h00m00s");
    assert_eq!(format_ttl(3661), "1h01m01s");
    assert_eq!(format_ttl(86400), "24h00m00s");
    assert_eq!(format_ttl(360000), "100h00m00s");
    assert_eq!(format_ttl(u32::MAX), "1193046h28m15s");
}

#[test]
fn encoded_query_is_what_a_server_would_echo() {
    let q = query();
    let sent = encode(&q);
    let m = decode(&sent).unwrap();
    assert_eq!(validate(&q, m), Ok(Outcome::Records(vec![])));
}
