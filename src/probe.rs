//! The retry controller: a state machine over attempt outcomes, and the
//! reading of a reply into an outcome.
use crate::codec::{unframed, DecodeError, PingRecord};
use vstd::prelude::*;

verus! {

/// Attempt budget when none is given.
pub const DEFAULT_ATTEMPTS: u32 = 10;

#[derive(Clone, Copy, Debug, PartialEq, Eq, Structural)]
pub enum TransportError {
    /// The socket could not be bound, or a send or receive failed.
    Io,
    /// A reply arrived that does not decode as a framed ping record.
    Malformed(DecodeError),
    /// A reply's timestamp is so far from the receipt time that the latency
    /// does not fit in 64 bits.
    LatencyOutOfRange,
}

/// What one attempt came to.
#[derive(Clone, Copy, Debug, PartialEq, Eq, Structural)]
pub enum AttemptOutcome {
    /// A reply arrived; the latency in milliseconds.
    Success(i64),
    /// No reply within the attempt's wait.
    Timeout,
}

/// The controller's state. `Attempting(n)` means attempt `n` is next.
#[derive(Clone, Copy, Debug, PartialEq, Eq, Structural)]
pub enum ProbeState {
    Attempting(u32),
    /// Latency in milliseconds, and the attempt that got the reply.
    Succeeded(i64, u32),
    /// Every attempt of the budget timed out; the budget.
    Exhausted(u32),
    Failed(TransportError),
}

pub open spec fn budget_of(requested: Option<u32>) -> u32 {
    match requested {
        Some(n) => n,
        None => DEFAULT_ATTEMPTS,
    }
}

pub open spec fn start(max_attempts: u32) -> ProbeState {
    if max_attempts >= 1 {
        ProbeState::Attempting(1)
    } else {
        ProbeState::Exhausted(0)
    }
}

/// A state that can occur while probing with the given budget.
pub open spec fn well_formed(s: ProbeState, max_attempts: u32) -> bool {
    s is Attempting ==> 1 <= s->Attempting_0 <= max_attempts
}

/// One transition: an attempt's result moves `Attempting` on; every other
/// state is final and stays.
pub open spec fn step(
    s: ProbeState,
    max_attempts: u32,
    event: Result<AttemptOutcome, TransportError>,
) -> ProbeState {
    match s {
        ProbeState::Attempting(n) => match event {
            Err(e) => ProbeState::Failed(e),
            Ok(AttemptOutcome::Success(latency)) => ProbeState::Succeeded(latency, n),
            Ok(AttemptOutcome::Timeout) => if n >= max_attempts {
                ProbeState::Exhausted(max_attempts)
            } else {
                ProbeState::Attempting((n + 1) as u32)
            },
        },
        _ => s,
    }
}

/// The state after feeding `events` one by one for as long as attempts go on.
pub open spec fn run(
    s: ProbeState,
    max_attempts: u32,
    events: Seq<Result<AttemptOutcome, TransportError>>,
) -> ProbeState
    decreases events.len(),
{
    if events.len() == 0 || !(s is Attempting) {
        s
    } else {
        run(step(s, max_attempts, events[0]), max_attempts, events.drop_first())
    }
}

/// How many of `events` are consumed, one per transport attempt.
pub open spec fn attempts_made(
    s: ProbeState,
    max_attempts: u32,
    events: Seq<Result<AttemptOutcome, TransportError>>,
) -> nat
    decreases events.len(),
{
    if events.len() == 0 || !(s is Attempting) {
        0
    } else {
        1 + attempts_made(step(s, max_attempts, events[0]), max_attempts, events.drop_first())
    }
}

/// What a reply datagram, received at `received_at` milliseconds, comes to.
pub open spec fn reply_outcome(reply: Seq<u8>, received_at: i64) -> Result<
    AttemptOutcome,
    TransportError,
> {
    match unframed(reply) {
        Err(e) => Err(TransportError::Malformed(e)),
        Ok(r) => {
            let latency = received_at - r.timestamp;
            if i64::MIN <= latency <= i64::MAX {
                Ok(AttemptOutcome::Success(latency as i64))
            } else {
                Err(TransportError::LatencyOutOfRange)
            }
        },
    }
}

/// The attempt budget: the one requested, else ten.
pub fn attempt_budget(requested: Option<u32>) -> (r: u32)
    ensures
        r == budget_of(requested),
{
    match requested {
        Some(n) => n,
        None => DEFAULT_ATTEMPTS,
    }
}

/// The state before the first attempt; with a budget of zero there is
/// nothing to attempt.
pub fn initial_state(max_attempts: u32) -> (r: ProbeState)
    ensures
        r == start(max_attempts),
        well_formed(r, max_attempts),
{
    if max_attempts >= 1 {
        ProbeState::Attempting(1)
    } else {
        ProbeState::Exhausted(0)
    }
}

/// Moves the controller on by the result of the current attempt.
pub fn advance(
    state: ProbeState,
    max_attempts: u32,
    event: Result<AttemptOutcome, TransportError>,
) -> (r: ProbeState)
    requires
        well_formed(state, max_attempts),
    ensures
        r == step(state, max_attempts, event),
        well_formed(r, max_attempts),
{
    match state {
        ProbeState::Attempting(n) => match event {
            Err(e) => ProbeState::Failed(e),
            Ok(AttemptOutcome::Success(latency)) => ProbeState::Succeeded(latency, n),
            Ok(AttemptOutcome::Timeout) => {
                if n >= max_attempts {
                    ProbeState::Exhausted(max_attempts)
                } else {
                    ProbeState::Attempting(n + 1)
                }
            },
        },
        _ => state,
    }
}

/// Reads a reply datagram: its record's timestamp against the receipt time
/// gives the latency.
pub fn interpret_reply(reply: &[u8], received_at: i64) -> (r: Result<
    AttemptOutcome,
    TransportError,
>)
    ensures
        r == reply_outcome(reply@, received_at),
{
    match PingRecord::unframe(reply) {
        Err(e) => Err(TransportError::Malformed(e)),
        Ok(record) => match received_at.checked_sub(record.timestamp) {
            Some(latency) => Ok(AttemptOutcome::Success(latency)),
            None => Err(TransportError::LatencyOutOfRange),
        },
    }
}

proof fn lemma_attempts_bounded_from(
    s: ProbeState,
    max_attempts: u32,
    events: Seq<Result<AttemptOutcome, TransportError>>,
)
    requires
        well_formed(s, max_attempts),
    ensures
        s is Attempting ==> attempts_made(s, max_attempts, events) <= max_attempts
            - s->Attempting_0 + 1,
        !(s is Attempting) ==> attempts_made(s, max_attempts, events) == 0,
        !(run(s, max_attempts, events) is Attempting) || attempts_made(s, max_attempts, events)
            == events.len(),
    decreases events.len(),
{
    if events.len() > 0 && s is Attempting {
        lemma_attempts_bounded_from(
            step(s, max_attempts, events[0]),
            max_attempts,
            events.drop_first(),
        );
    }
}

/// The transport is invoked at most `max_attempts` times, whatever the
/// attempts come to.
pub proof fn lemma_attempts_bounded(
    max_attempts: u32,
    events: Seq<Result<AttemptOutcome, TransportError>>,
)
    ensures
        attempts_made(start(max_attempts), max_attempts, events) <= max_attempts,
{
    lemma_attempts_bounded_from(start(max_attempts), max_attempts, events);
}

/// Probing stops at the first success: when attempts `1..k` time out and
/// attempt `k + 1` succeeds within the budget, the result is that success,
/// and exactly `k + 1` attempts are made.
pub proof fn lemma_stops_at_first_success(
    max_attempts: u32,
    events: Seq<Result<AttemptOutcome, TransportError>>,
    k: int,
    latency: i64,
)
    requires
        0 <= k < events.len(),
        k < max_attempts,
        forall|j: int| 0 <= j < k ==> events[j] == Ok::<AttemptOutcome, TransportError>(AttemptOutcome::Timeout),
        events[k] == Ok::<AttemptOutcome, TransportError>(AttemptOutcome::Success(latency)),
    ensures
        run(start(max_attempts), max_attempts, events) == ProbeState::Succeeded(latency, (k + 1) as u32),
        attempts_made(start(max_attempts), max_attempts, events) == k + 1,
{
    lemma_success_from(max_attempts, events, k, latency, 1);
}

proof fn lemma_success_from(
    max_attempts: u32,
    events: Seq<Result<AttemptOutcome, TransportError>>,
    k: int,
    latency: i64,
    n: int,
)
    requires
        1 <= n,
        0 <= k < events.len(),
        k + n <= max_attempts,
        forall|j: int| 0 <= j < k ==> events[j] == Ok::<AttemptOutcome, TransportError>(AttemptOutcome::Timeout),
        events[k] == Ok::<AttemptOutcome, TransportError>(AttemptOutcome::Success(latency)),
    ensures
        run(ProbeState::Attempting(n as u32), max_attempts, events) == ProbeState::Succeeded(
            latency,
            (k + n) as u32,
        ),
        attempts_made(ProbeState::Attempting(n as u32), max_attempts, events) == k + 1,
    decreases k,
{
    let s = ProbeState::Attempting(n as u32);
    let rest = events.drop_first();
    if k == 0 {
        assert(run(step(s, max_attempts, events[0]), max_attempts, rest) == step(s, max_attempts, events[0]));
        assert(attempts_made(step(s, max_attempts, events[0]), max_attempts, rest) == 0);
    } else {
        assert(events[0] == Ok::<AttemptOutcome, TransportError>(AttemptOutcome::Timeout));
        assert(step(s, max_attempts, events[0]) == ProbeState::Attempting((n + 1) as u32));
        assert forall|j: int| 0 <= j < k - 1 implies rest[j] == Ok::<AttemptOutcome, TransportError>(AttemptOutcome::Timeout) by {
            assert(rest[j] == events[j + 1]);
        }
        lemma_success_from(max_attempts, rest, k - 1, latency, n + 1);
    }
}

/// When every attempt times out, the budget is exhausted: the result is
/// `Exhausted(max_attempts)`, after exactly `max_attempts` attempts.
pub proof fn lemma_all_timeouts_exhaust(
    max_attempts: u32,
    events: Seq<Result<AttemptOutcome, TransportError>>,
)
    requires
        events.len() >= max_attempts,
        forall|j: int| 0 <= j < events.len() ==> events[j] == Ok::<AttemptOutcome, TransportError>(AttemptOutcome::Timeout),
    ensures
        run(start(max_attempts), max_attempts, events) == ProbeState::Exhausted(max_attempts),
        attempts_made(start(max_attempts), max_attempts, events) == max_attempts,
{
    if max_attempts >= 1 {
        lemma_timeouts_from(max_attempts, events, 1);
    }
}

proof fn lemma_timeouts_from(
    max_attempts: u32,
    events: Seq<Result<AttemptOutcome, TransportError>>,
    n: int,
)
    requires
        1 <= n <= max_attempts,
        events.len() >= max_attempts - n + 1,
        forall|j: int| 0 <= j < events.len() ==> events[j] == Ok::<AttemptOutcome, TransportError>(AttemptOutcome::Timeout),
    ensures
        run(ProbeState::Attempting(n as u32), max_attempts, events) == ProbeState::Exhausted(max_attempts),
        attempts_made(ProbeState::Attempting(n as u32), max_attempts, events) == max_attempts - n + 1,
    decreases max_attempts - n,
{
    let s = ProbeState::Attempting(n as u32);
    let rest = events.drop_first();
    assert(events[0] == Ok::<AttemptOutcome, TransportError>(AttemptOutcome::Timeout));
    if n < max_attempts {
        assert forall|j: int| 0 <= j < rest.len() implies rest[j] == Ok::<AttemptOutcome, TransportError>(AttemptOutcome::Timeout) by {
            assert(rest[j] == events[j + 1]);
        }
        lemma_timeouts_from(max_attempts, rest, n + 1);
    } else {
        assert(step(s, max_attempts, events[0]) == ProbeState::Exhausted(max_attempts));
        assert(run(step(s, max_attempts, events[0]), max_attempts, rest) == ProbeState::Exhausted(max_attempts));
        assert(attempts_made(step(s, max_attempts, events[0]), max_attempts, rest) == 0);
    }
}

} // verus!
