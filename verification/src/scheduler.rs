//! The scheduler: which server to ask next, over which protocol, and when to stop.
//! It decides; the caller performs each exchange and reports what came back.

use vstd::prelude::*;
use crate::decode::decode;
use crate::error::{DecodeError, TransportError, ValidationError};
use crate::interpret::{judge, validate, Outcome, OutcomeView};
use crate::message::parse_message;
use crate::query::{Query, QueryView};
use crate::transport::{datagram_truncated, is_truncated, Protocol, ServerEndpoint};

verus! {

/// The pause between two attempts on one server.
#[derive(Clone, Copy, Debug, PartialEq, Eq, Structural)]
pub enum Backoff {
    /// No pause.
    Immediate,
    /// The same number of milliseconds before every further attempt.
    Fixed(u64),
    /// This many milliseconds before the second attempt, and twice the last pause
    /// before each attempt after it.
    Doubling(u64),
}

/// The configuration of one resolution.
#[derive(Clone, Debug, PartialEq, Eq)]
pub struct Policy {
    /// The servers to ask, in the order in which they are asked.
    pub servers: Vec<ServerEndpoint>,
    /// How many attempts each server gets.
    pub max_attempts: u32,
    /// Start every attempt over a stream instead of a datagram.
    pub tcp_only: bool,
    /// The time that one exchange may take, in milliseconds.
    pub timeout_ms: u64,
    /// The pause between attempts on one server.
    pub backoff: Backoff,
}

/// The policy used where none is configured: two attempts of two seconds each,
/// datagrams first, no pause between attempts.
pub fn default_policy(servers: Vec<ServerEndpoint>) -> (p: Policy)
    ensures
        p == (Policy {
            servers,
            max_attempts: 2,
            tcp_only: false,
            timeout_ms: 2000,
            backoff: Backoff::Immediate,
        }),
{
    Policy { servers, max_attempts: 2, tcp_only: false, timeout_ms: 2000, backoff: Backoff::Immediate }
}

/// Two to the power `n`.
pub open spec fn pow2(n: nat) -> nat
    decreases n,
{
    if n == 0 {
        1
    } else {
        2 * pow2((n - 1) as nat)
    }
}

/// A number of milliseconds, cut off at the largest that 64 bits hold.
pub open spec fn capped(ms: int) -> u64 {
    if ms > u64::MAX {
        u64::MAX
    } else {
        ms as u64
    }
}

/// The pause before attempt number `attempt` on a server. The first attempt, number 0,
/// starts at once.
pub open spec fn pause_before(b: Backoff, attempt: u32) -> u64 {
    if attempt == 0 {
        0
    } else {
        match b {
            Backoff::Immediate => 0,
            Backoff::Fixed(ms) => ms,
            Backoff::Doubling(ms) => capped(ms * pow2((attempt - 1) as nat)),
        }
    }
}

proof fn lemma_pow2_grows(a: nat, b: nat)
    requires
        a <= b,
    ensures
        1 <= pow2(a) <= pow2(b),
    decreases b,
{
    if a < b {
        lemma_pow2_grows(a, (b - 1) as nat);
    } else if a > 0 {
        lemma_pow2_grows((a - 1) as nat, (b - 1) as nat);
    }
}

/// Computes the pause before an attempt; see `pause_before`.
pub fn pause(b: Backoff, attempt: u32) -> (ms: u64)
    ensures
        ms == pause_before(b, attempt),
{
    if attempt == 0 {
        return 0;
    }
    match b {
        Backoff::Immediate => 0,
        Backoff::Fixed(ms) => ms,
        Backoff::Doubling(base) => {
            let mut d: u64 = base;
            let mut i: u32 = 1;
            proof {
                let one = pow2(0);
                assert(one == 1);
                assert(base * one == base) by (nonlinear_arith)
                    requires
                        one == 1,
                ;
            }
            while i < attempt && d != 0 && d != u64::MAX
                invariant
                    1 <= i <= attempt,
                    d == capped(base * pow2((i - 1) as nat)),
                decreases attempt - i,
            {
                proof {
                    let before = pow2((i - 1) as nat);
                    assert(pow2(i as nat) == 2 * before);
                    assert(base * (2 * before) == 2 * (base * before)) by (nonlinear_arith);
                }
                d = if d > u64::MAX / 2 {
                    u64::MAX
                } else {
                    d * 2
                };
                i += 1;
            }
            proof {
                let reached = pow2((i - 1) as nat);
                let wanted = pow2((attempt - 1) as nat);
                lemma_pow2_grows((i - 1) as nat, (attempt - 1) as nat);
                if i < attempt {
                    if d == 0 {
                        assert(base == 0) by (nonlinear_arith)
                            requires
                                base * reached <= 0,
                                reached >= 1,
                                base >= 0,
                        ;
                        assert(base * wanted == 0) by (nonlinear_arith)
                            requires
                                base == 0,
                        ;
                    } else {
                        assert(base * wanted >= base * reached) by (nonlinear_arith)
                            requires
                                wanted >= reached,
                                base >= 0,
                        ;
                    }
                }
            }
            d
        },
    }
}

/// Where a resolution stands: the exchange to perform.
#[derive(Clone, Copy, Debug, PartialEq, Eq, Structural)]
pub struct Cursor {
    /// Index of the server in the configured list.
    pub server: usize,
    /// Number of the attempt on that server, from 0.
    pub attempt: u32,
    pub protocol: Protocol,
    /// How long to wait before the exchange, in milliseconds.
    pub delay_ms: u64,
}

/// Why a resolution ended without an answer.
#[derive(Clone, Copy, Debug, PartialEq, Eq, Structural)]
pub enum Failure {
    /// There was no server to ask, or no attempt allowed.
    NoServers,
    /// Every attempt failed; this is what the last exchange reported.
    Transport(TransportError),
    /// Every attempt failed; the last reply could not be decoded.
    Decode(DecodeError),
    /// A server answered, and its answer settles the matter.
    Validation(ValidationError),
}

/// What to do next.
#[derive(Debug, PartialEq, Eq)]
pub enum Next {
    /// Perform this exchange and report what came back.
    Send(Cursor),
    /// The resolution is over.
    Done(Result<Outcome, Failure>),
}

/// A step as the contracts see it.
pub enum NextView {
    Send(Cursor),
    Done(Result<OutcomeView, Failure>),
}

impl View for Next {
    type V = NextView;

    open spec fn view(&self) -> NextView {
        match *self {
            Next::Send(c) => NextView::Send(c),
            Next::Done(Ok(o)) => NextView::Done(Ok(o@)),
            Next::Done(Err(f)) => NextView::Done(Err(f)),
        }
    }
}

/// The protocol that an attempt on a server starts with: a stream where the policy
/// allows nothing else or the server prefers it, else a datagram.
pub open spec fn first_protocol(p: Policy, server: int) -> Protocol {
    if p.tcp_only || (0 <= server < p.servers.len() && p.servers@[server].protocol
        == Protocol::Tcp) {
        Protocol::Tcp
    } else {
        Protocol::Udp
    }
}

/// The cursor names a configured server and an allowed attempt.
pub open spec fn in_range(p: Policy, at: Cursor) -> bool {
    at.server < p.servers.len() && at.attempt < p.max_attempts
}

/// How many attempts are still allowed from `at` on, the one at `at` included.
pub open spec fn attempts_left(p: Policy, at: Cursor) -> int {
    (p.servers.len() - at.server - 1) * p.max_attempts + (p.max_attempts - at.attempt)
}

/// The first step of a resolution.
pub open spec fn first_step(p: Policy) -> NextView {
    if p.servers.len() == 0 || p.max_attempts == 0 {
        NextView::Done(Err(Failure::NoServers))
    } else {
        NextView::Send(Cursor { server: 0, attempt: 0, protocol: first_protocol(p, 0), delay_ms: 0 })
    }
}

/// The step after an attempt failed with `f`: the same server again while it has
/// attempts left, after the pause that the policy sets; then the next server, at once;
/// then the end with `f` as the last error.
pub open spec fn after_failure(p: Policy, at: Cursor, f: Failure) -> NextView {
    if at.attempt + 1 < p.max_attempts {
        NextView::Send(
            Cursor {
                server: at.server,
                attempt: (at.attempt + 1) as u32,
                protocol: first_protocol(p, at.server as int),
                delay_ms: pause_before(p.backoff, (at.attempt + 1) as u32),
            },
        )
    } else if at.server + 1 < p.servers.len() && p.max_attempts > 0 {
        NextView::Send(
            Cursor {
                server: (at.server + 1) as usize,
                attempt: 0,
                protocol: first_protocol(p, at.server + 1),
                delay_ms: 0,
            },
        )
    } else {
        NextView::Done(Err(f))
    }
}

/// The same server and attempt, over a stream, at once.
pub open spec fn escalated(at: Cursor) -> Cursor {
    Cursor { server: at.server, attempt: at.attempt, protocol: Protocol::Tcp, delay_ms: 0 }
}

/// The step after the exchange at `at` came back with `reply`.
/// A truncated datagram moves the same attempt to a stream. A transport error or a
/// reply that cannot be decoded counts as a failed attempt. A reply that decodes ends
/// the resolution with the interpreter's verdict, an answer or a refusal.
pub open spec fn next_step(
    p: Policy,
    q: QueryView,
    at: Cursor,
    reply: Result<Seq<u8>, TransportError>,
) -> NextView {
    match reply {
        Err(e) => if e == TransportError::Truncated && at.protocol == Protocol::Udp {
            NextView::Send(escalated(at))
        } else {
            after_failure(p, at, Failure::Transport(e))
        },
        Ok(bytes) => if at.protocol == Protocol::Udp && datagram_truncated(bytes) {
            NextView::Send(escalated(at))
        } else {
            match parse_message(bytes) {
                Err(e) => after_failure(p, at, Failure::Decode(e)),
                Ok(m) => match judge(q, m) {
                    Ok(o) => NextView::Done(Ok(o)),
                    Err(v) => NextView::Done(Err(Failure::Validation(v))),
                },
            }
        },
    }
}

/// What came back from an exchange, as the contracts see it.
pub open spec fn reply_view(reply: Result<Vec<u8>, TransportError>) -> Result<
    Seq<u8>,
    TransportError,
> {
    match reply {
        Ok(bytes) => Ok(bytes@),
        Err(e) => Err(e),
    }
}

/// Where a resolution stands after `n` attempts in a row failed with `f`, from `at` on.
pub open spec fn after_failures(p: Policy, at: Cursor, f: Failure, n: nat) -> NextView
    decreases n,
{
    if n == 0 {
        NextView::Send(at)
    } else {
        match after_failure(p, at, f) {
            NextView::Send(c) => after_failures(p, c, f, (n - 1) as nat),
            NextView::Done(r) => NextView::Done(r),
        }
    }
}

/// A failed attempt uses up exactly one of the attempts that are left; the failure of
/// the last one ends the resolution with that failure.
pub proof fn failure_uses_one_attempt(p: Policy, at: Cursor, f: Failure)
    requires
        in_range(p, at),
    ensures
        attempts_left(p, at) >= 1,
        attempts_left(p, at) == 1 ==> after_failure(p, at, f) == NextView::Done(Err(f)),
        attempts_left(p, at) > 1 ==> after_failure(p, at, f) is Send && in_range(
            p,
            after_failure(p, at, f)->Send_0,
        ) && attempts_left(p, after_failure(p, at, f)->Send_0) == attempts_left(p, at) - 1,
{
    let s = p.servers.len() - at.server - 1;
    let m = p.max_attempts as int;
    assert(s >= 1 ==> s * m >= m) by (nonlinear_arith)
        requires
            m > 0,
    ;
    assert(s == 0 ==> s * m == 0) by (nonlinear_arith);
    assert((s - 1) * m + m == s * m) by (nonlinear_arith);
}

/// While fewer attempts have failed than were left, there is another exchange to
/// perform; when as many have failed as were left, the resolution ends with the failure.
pub proof fn failures_exhaust_attempts(p: Policy, at: Cursor, f: Failure, n: nat)
    requires
        in_range(p, at),
        n <= attempts_left(p, at),
    ensures
        n < attempts_left(p, at) ==> after_failures(p, at, f, n) is Send,
        n == attempts_left(p, at) ==> after_failures(p, at, f, n) == NextView::Done(Err(f)),
    decreases n,
{
    failure_uses_one_attempt(p, at, f);
    if n > 0 && attempts_left(p, at) > 1 {
        failures_exhaust_attempts(p, after_failure(p, at, f)->Send_0, f, (n - 1) as nat);
    }
}

/// Where every exchange fails, a resolution performs exactly as many exchanges as the
/// policy has servers times attempts, and ends with the failure of the last one.
pub proof fn all_failures_take_every_attempt(p: Policy, f: Failure, n: nat)
    requires
        p.servers.len() > 0,
        p.max_attempts > 0,
        n <= p.servers.len() * p.max_attempts,
    ensures
        first_step(p) is Send,
        n < p.servers.len() * p.max_attempts ==> after_failures(
            p,
            first_step(p)->Send_0,
            f,
            n,
        ) is Send,
        n == p.servers.len() * p.max_attempts ==> after_failures(p, first_step(p)->Send_0, f, n)
            == NextView::Done(Err(f)),
{
    let at = first_step(p)->Send_0;
    let count = p.servers.len() as int;
    let m = p.max_attempts as int;
    assert((count - 1) * m + m == count * m) by (nonlinear_arith);
    failures_exhaust_attempts(p, at, f, n);
}

fn starting_protocol(p: &Policy, server: usize) -> (r: Protocol)
    ensures
        r == first_protocol(*p, server as int),
{
    if p.tcp_only {
        return Protocol::Tcp;
    }
    if server < p.servers.len() {
        match p.servers[server].protocol {
            Protocol::Tcp => Protocol::Tcp,
            Protocol::Udp => Protocol::Udp,
        }
    } else {
        Protocol::Udp
    }
}

/// Moves an attempt from a datagram to a stream.
pub fn escalate(at: Cursor) -> (c: Cursor)
    ensures
        c == escalated(at),
{
    Cursor { server: at.server, attempt: at.attempt, protocol: Protocol::Tcp, delay_ms: 0 }
}

/// Begins a resolution: the first attempt on the first server, or the end where
/// there is no server or no attempt to make.
pub fn start(p: &Policy) -> (n: Next)
    ensures
        n@ == first_step(*p),
        n is Send ==> in_range(*p, n->Send_0) && attempts_left(*p, n->Send_0) == p.servers.len()
            * p.max_attempts,
{
    if p.servers.len() == 0 || p.max_attempts == 0 {
        Next::Done(Err(Failure::NoServers))
    } else {
        proof {
            let count = p.servers.len() as int;
            let m = p.max_attempts as int;
            assert((count - 1) * m + m == count * m) by (nonlinear_arith);
        }
        Next::Send(
            Cursor { server: 0, attempt: 0, protocol: starting_protocol(p, 0), delay_ms: 0 },
        )
    }
}

/// Moves on after a failed attempt; see `after_failure`. Each failed attempt uses up
/// exactly one of the attempts that are left, and the last one ends the resolution
/// with the failure that was handed in.
pub fn retry(p: &Policy, at: Cursor, f: Failure) -> (n: Next)
    ensures
        n@ == after_failure(*p, at, f),
        in_range(*p, at) && attempts_left(*p, at) > 1 ==> n is Send && in_range(*p, n->Send_0)
            && attempts_left(*p, n->Send_0) == attempts_left(*p, at) - 1,
        in_range(*p, at) && attempts_left(*p, at) <= 1 ==> n == Next::Done(Err(f)),
{
    proof {
        if in_range(*p, at) {
            failure_uses_one_attempt(*p, at, f);
        }
    }
    if p.max_attempts > 0 && at.attempt < p.max_attempts - 1 {
        Next::Send(
            Cursor {
                server: at.server,
                attempt: at.attempt + 1,
                protocol: starting_protocol(p, at.server),
                delay_ms: pause(p.backoff, at.attempt + 1),
            },
        )
    } else if p.servers.len() > 0 && at.server < p.servers.len() - 1 && p.max_attempts > 0 {
        Next::Send(
            Cursor {
                server: at.server + 1,
                attempt: 0,
                protocol: starting_protocol(p, at.server + 1),
                delay_ms: 0,
            },
        )
    } else {
        Next::Done(Err(f))
    }
}

/// Decides the step after the exchange at `at` came back with `reply`; see `next_step`.
pub fn step(p: &Policy, q: &Query, at: Cursor, reply: Result<Vec<u8>, TransportError>) -> (n: Next)
    ensures
        n@ == next_step(*p, q@, at, reply_view(reply)),
{
    let over_datagram: bool = match at.protocol {
        Protocol::Udp => true,
        Protocol::Tcp => false,
    };
    match reply {
        Err(e) => {
            let truncated: bool = match e {
                TransportError::Truncated => true,
                _ => false,
            };
            if truncated && over_datagram {
                Next::Send(escalate(at))
            } else {
                retry(p, at, Failure::Transport(e))
            }
        },
        Ok(bytes) => {
            if over_datagram && is_truncated(bytes.as_slice()) {
                return Next::Send(escalate(at));
            }
            match decode(bytes.as_slice()) {
                Err(e) => retry(p, at, Failure::Decode(e)),
                Ok(m) => match validate(q, m) {
                    Ok(o) => Next::Done(Ok(o)),
                    Err(v) => Next::Done(Err(Failure::Validation(v))),
                },
            }
        },
    }
}

} // verus!
