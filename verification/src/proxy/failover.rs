//! The attempt at one server, and what comes after the last one.
//!
//! The relay sends, sleeps and reads; what it does next is decided here. Each function is
//! told what came of the last step and says what is to be recorded and what the next step
//! is.

use vstd::prelude::*;

use crate::circuit_breaker::TripRule;
use crate::proxy::limits;
use crate::proxy::limits::remaining_timeout_ms;
use crate::proxy::refusal::Refusal;
use crate::proxy::rows;
use crate::proxy::rows::{non_stream_row, ttft_row, Effect, LatencySource, LogKind};

verus! {

/// One attempt, as the log shows it. Status 0 stands for one that gave no answer.
#[derive(Debug, Clone, Copy, PartialEq, Eq, Structural)]
pub struct FailoverAttempt {
    pub server_id: u128,
    pub status: u16,
    pub latency_ms: i32,
    /// The log also shows the headers and the body that were sent.
    pub detailed: bool,
}

/// When the circuit of a server trips, and for how long.
#[derive(Debug, Clone, Copy, PartialEq, Eq, Structural)]
pub struct Breaker {
    pub max_failures: i32,
    pub window_seconds: i32,
    pub cooldown_seconds: i32,
}

/// What an attempt at a server goes by.
#[derive(Debug)]
pub struct AttemptRules {
    pub server_id: u128,
    /// The request is billed.
    pub billing: bool,
    /// The server has a circuit breaker.
    pub breaker: Option<Breaker>,
    /// This request is the probe of a half-open circuit.
    pub probe: bool,
    /// The client asked for a stream.
    pub wants_stream: bool,
    /// The time limit for answers that are no stream.
    pub timeout_ms: Option<i32>,
    /// The time limit for the first chunk of a stream.
    pub chunk_limit_ms: Option<u64>,
    /// The statuses on which the next server is tried.
    pub failover_codes: Vec<u16>,
    /// The statuses on which the same server is tried again.
    pub retry_codes: Vec<i32>,
    /// How often it is.
    pub retry_count: i32,
}

/// What came of a request that was sent.
#[derive(Debug, Clone, Copy, PartialEq, Eq, Structural)]
pub enum SendReply {
    /// The connection failed.
    Failed,
    /// No headers came within the budget.
    TimedOut,
    /// The headers of an answer.
    Headers { status: u16, event_stream: bool },
}

/// What came of waiting for the first chunk of a stream.
#[derive(Debug, Clone, Copy, PartialEq, Eq, Structural)]
pub enum ChunkReply {
    /// A chunk came.
    Chunk,
    /// The stream ended or broke before one did.
    Broken,
    /// None came within the budget.
    TimedOut,
}

/// The answer in hand.
#[derive(Debug, Clone, Copy, PartialEq, Eq, Structural)]
pub struct Held {
    pub status: u16,
    pub event_stream: bool,
    /// Time to the headers of the first answer of this server.
    pub latency_ms: i32,
    /// How often the server may still be tried again.
    pub retries_left: i32,
}

/// What the client is answered.
#[derive(Debug, Clone, Copy, PartialEq, Eq, Structural)]
pub enum Answer {
    /// The answer in hand, as it is.
    PassThrough,
    /// The body of the error that was read, with status 400.
    ErrorBody,
    /// The answer in hand, billed on the way.
    Billed,
    /// The body that was read.
    Body,
    /// The stream, of which the first chunk has come; billed on the way or not.
    Stream { billed: bool },
}

/// The next step.
#[derive(Debug, Clone, Copy, PartialEq, Eq, Structural)]
pub enum Step {
    /// Try the next server.
    NextServer,
    /// Wait, and send the same request to the same server again.
    Retry(Held),
    /// Read the body of the answer in hand, which is an error.
    ReadError(Held),
    /// Send the request without its thinking blocks.
    Resend(Held),
    /// Read the body of the answer in hand.
    ReadBody { held: Held, budget_ms: Option<u64> },
    /// Wait for the first chunk of the answer in hand.
    AwaitChunk { held: Held, budget_ms: Option<u64> },
    /// Answer the client.
    Relay(Answer),
}

/// What a step comes to: the attempts so far, what is to be recorded, and the next step.
pub struct Turn {
    pub chain: Seq<FailoverAttempt>,
    pub effects: Seq<Effect>,
    pub step: Step,
}

/// What is to be recorded, and the next step.
#[derive(Debug)]
pub struct Decision {
    pub effects: Vec<Effect>,
    pub step: Step,
}

/// The decision is what the turn says, with these attempts.
pub open spec fn carries_out(
    decision: Decision,
    chain: Seq<FailoverAttempt>,
    turn: Turn,
) -> bool {
    decision.effects@ == turn.effects && decision.step == turn.step && chain == turn.chain
}

/// The attempts with one more. The first one is shown in detail.
pub open spec fn with_attempt(
    chain: Seq<FailoverAttempt>,
    server_id: u128,
    status: u16,
    elapsed_ms: u64,
) -> Seq<FailoverAttempt> {
    chain.push(
        FailoverAttempt {
            server_id,
            status,
            latency_ms: elapsed_ms as i32,
            detailed: chain.len() == 0,
        },
    )
}

fn push_attempt(chain: &mut Vec<FailoverAttempt>, server_id: u128, status: u16, elapsed_ms: u64)
    ensures
        final(chain)@ == with_attempt(old(chain)@, server_id, status, elapsed_ms),
{
    let detailed = chain.len() == 0;
    chain.push(
        FailoverAttempt {
            server_id,
            status,
            latency_ms: #[verifier::truncate] (elapsed_ms as i32),
            detailed,
        },
    );
}

/// The attempts with the last one counted as one that gave no answer.
pub open spec fn last_failed(chain: Seq<FailoverAttempt>) -> Seq<FailoverAttempt> {
    if chain.len() == 0 {
        chain
    } else {
        chain.update(chain.len() - 1, (FailoverAttempt { status: 0, ..chain.last() }))
    }
}

fn fail_last(chain: &mut Vec<FailoverAttempt>)
    ensures
        final(chain)@ == last_failed(old(chain)@),
{
    let n: usize = chain.len();
    if n > 0 {
        let last = chain[n - 1];
        chain.set(n - 1, FailoverAttempt { status: 0, ..last });
    }
}

/// The error that the circuit breaker is told of, where there is one.
pub open spec fn breaker_error(rules: AttemptRules) -> Seq<Effect> {
    match rules.breaker {
        Some(b) => seq![
            Effect::RecordError(
                TripRule {
                    max_failures: b.max_failures,
                    window_seconds: b.window_seconds,
                    cooldown_seconds: b.cooldown_seconds,
                    was_probe: rules.probe,
                },
            ),
        ],
        None => Seq::empty(),
    }
}

fn push_breaker_error(rules: &AttemptRules, effects: &mut Vec<Effect>)
    ensures
        final(effects)@ == old(effects)@ + breaker_error(*rules),
{
    if let Some(b) = rules.breaker {
        effects.push(
            Effect::RecordError(
                TripRule {
                    max_failures: b.max_failures,
                    window_seconds: b.window_seconds,
                    cooldown_seconds: b.cooldown_seconds,
                    was_probe: rules.probe,
                },
            ),
        );
    }
    assert(effects@ =~= old(effects)@ + breaker_error(*rules));
}

/// The effect, where the condition holds.
pub open spec fn only_if(condition: bool, effect: Effect) -> Seq<Effect> {
    if condition {
        seq![effect]
    } else {
        Seq::empty()
    }
}

fn push_if(condition: bool, effect: Effect, effects: &mut Vec<Effect>)
    ensures
        final(effects)@ == old(effects)@ + only_if(condition, effect),
{
    if condition {
        effects.push(effect);
    }
    assert(effects@ =~= old(effects)@ + only_if(condition, effect));
}

/// The server gave no answer: it counts as down, and the next one is tried.
pub open spec fn gave_nothing(
    rules: AttemptRules,
    chain: Seq<FailoverAttempt>,
    rows: Seq<Effect>,
    elapsed_ms: u64,
) -> Turn {
    Turn {
        chain,
        effects: rows + seq![Effect::Uptime { status: 0, latency_ms: elapsed_ms as i32 }]
            + breaker_error(rules),
        step: Step::NextServer,
    }
}

fn give_nothing(rules: &AttemptRules, rows: Vec<Effect>, elapsed_ms: u64) -> (r: Decision)
    ensures
        forall|chain: Seq<FailoverAttempt>|
            carries_out(r, chain, #[trigger] gave_nothing(*rules, chain, rows@, elapsed_ms)),
{
    let mut effects = rows;
    effects.push(
        Effect::Uptime { status: 0, latency_ms: #[verifier::truncate] (elapsed_ms as i32) },
    );
    push_breaker_error(rules, &mut effects);
    assert(effects@ =~= rows@ + seq![Effect::Uptime { status: 0, latency_ms: elapsed_ms as i32 }]
        + breaker_error(*rules));
    Decision { effects, step: Step::NextServer }
}

/// The code is in the list.
fn contains_u16(codes: &Vec<u16>, code: u16) -> (r: bool)
    ensures
        r == codes@.contains(code),
{
    for i in 0..codes.len()
        invariant
            forall|j: int| 0 <= j < i ==> codes@[j] != code,
    {
        if codes[i] == code {
            assert(codes@[i as int] == code);
            return true;
        }
    }
    false
}

/// The code is in the list.
fn contains_i32(codes: &Vec<i32>, code: i32) -> (r: bool)
    ensures
        r == codes@.contains(code),
{
    for i in 0..codes.len()
        invariant
            forall|j: int| 0 <= j < i ==> codes@[j] != code,
    {
        if codes[i] == code {
            assert(codes@[i as int] == code);
            return true;
        }
    }
    false
}

/// The time budget for the headers: none where the client asked to stream, since the kind of
/// the answer is unknown until its headers arrive.
pub fn send_budget_ms(rules: &AttemptRules) -> (r: Option<u64>)
    ensures
        r == (if rules.wants_stream {
            None
        } else {
            limits::time_left(rules.timeout_ms, 0)
        }),
{
    if rules.wants_stream {
        None
    } else {
        remaining_timeout_ms(rules.timeout_ms, 0)
    }
}

/// The time limit for the first chunk of a stream: only where one is configured and there is
/// a server left to try.
pub open spec fn chunk_limit(ttft_timeout_ms: Option<i32>, position: int, servers: int) -> Option<
    u64,
> {
    match ttft_timeout_ms {
        Some(ms) => if servers > 1 && position != servers - 1 {
            Some(ms as u64)
        } else {
            None
        },
        None => None,
    }
}

/// The time limit for the first chunk of a stream from the server at this position.
pub fn chunk_limit_ms(ttft_timeout_ms: Option<i32>, position: usize, servers: usize) -> (r: Option<
    u64,
>)
    ensures
        r == chunk_limit(ttft_timeout_ms, position as int, servers as int),
{
    match ttft_timeout_ms {
        Some(ms) => if servers > 1 && position != servers - 1 {
            Some(#[verifier::truncate] (ms as u64))
        } else {
            None
        },
        None => None,
    }
}

/// No first chunk came in time.
pub open spec fn chunk_was_late(
    rules: AttemptRules,
    chain: Seq<FailoverAttempt>,
    elapsed_ms: u64,
) -> Turn {
    gave_nothing(
        rules,
        last_failed(chain),
        seq![Effect::Latency(rows::ttft(None, true))],
        elapsed_ms,
    )
}

fn chunk_is_late(
    rules: &AttemptRules,
    chain: &mut Vec<FailoverAttempt>,
    elapsed_ms: u64,
) -> (r: Decision)
    ensures
        carries_out(r, final(chain)@, chunk_was_late(*rules, old(chain)@, elapsed_ms)),
{
    fail_last(chain);
    let mut late: Vec<Effect> = Vec::new();
    late.push(Effect::Latency(ttft_row(None, true)));
    assert(late@ =~= seq![Effect::Latency(rows::ttft(None, true))]);
    let r = give_nothing(rules, late, elapsed_ms);
    assert(carries_out(r, chain@, gave_nothing(*rules, chain@, late@, elapsed_ms)));
    r
}

/// What is done with an answer, once it is not tried again.
pub open spec fn judged(
    rules: AttemptRules,
    chain: Seq<FailoverAttempt>,
    held: Held,
    elapsed_ms: u64,
) -> Turn {
    let uptime = Effect::Uptime { status: held.status as i16, latency_ms: held.latency_ms };
    if held.status == 400 && rules.billing {
        Turn { chain, effects: Seq::empty(), step: Step::ReadError(held) }
    } else if rules.failover_codes@.contains(held.status) {
        Turn { chain, effects: seq![uptime] + breaker_error(rules), step: Step::NextServer }
    } else if held.status != 200 {
        Turn {
            chain,
            effects: seq![
                uptime,
                Effect::Log { status: held.status as i16, kind: LogKind::UpstreamError },
            ] + only_if(rules.billing, Effect::Alert { code: held.status }) + only_if(
                rules.probe,
                Effect::ProbeRelease,
            ),
            step: Step::Relay(Answer::PassThrough),
        }
    } else if !held.event_stream {
        Turn {
            chain,
            effects: Seq::empty(),
            step: Step::ReadBody {
                held,
                budget_ms: limits::time_left(rules.timeout_ms, elapsed_ms),
            },
        }
    } else {
        match rules.chunk_limit_ms {
            Some(limit) => if elapsed_ms >= limit {
                chunk_was_late(rules, chain, elapsed_ms)
            } else {
                Turn {
                    chain,
                    effects: Seq::empty(),
                    step: Step::AwaitChunk { held, budget_ms: Some((limit - elapsed_ms) as u64) },
                }
            },
            None => Turn {
                chain,
                effects: Seq::empty(),
                step: Step::AwaitChunk { held, budget_ms: None },
            },
        }
    }
}

fn judge(
    rules: &AttemptRules,
    chain: &mut Vec<FailoverAttempt>,
    held: Held,
    elapsed_ms: u64,
) -> (r: Decision)
    ensures
        carries_out(r, final(chain)@, judged(*rules, old(chain)@, held, elapsed_ms)),
{
    let mut effects: Vec<Effect> = Vec::new();
    let uptime = Effect::Uptime {
        status: #[verifier::truncate] (held.status as i16),
        latency_ms: held.latency_ms,
    };
    assert(effects@ =~= Seq::empty());
    if held.status == 400 && rules.billing {
        return Decision { effects, step: Step::ReadError(held) };
    }
    if contains_u16(&rules.failover_codes, held.status) {
        effects.push(uptime);
        push_breaker_error(rules, &mut effects);
        assert(effects@ =~= seq![uptime] + breaker_error(*rules));
        return Decision { effects, step: Step::NextServer };
    }
    if held.status != 200 {
        effects.push(uptime);
        let log = Effect::Log {
            status: #[verifier::truncate] (held.status as i16),
            kind: LogKind::UpstreamError,
        };
        effects.push(log);
        assert(effects@ =~= seq![uptime, log]);
        push_if(rules.billing, Effect::Alert { code: held.status }, &mut effects);
        push_if(rules.probe, Effect::ProbeRelease, &mut effects);
        return Decision { effects, step: Step::Relay(Answer::PassThrough) };
    }
    if !held.event_stream {
        let budget_ms = remaining_timeout_ms(rules.timeout_ms, elapsed_ms);
        return Decision { effects, step: Step::ReadBody { held, budget_ms } };
    }
    match rules.chunk_limit_ms {
        Some(limit) => {
            if elapsed_ms >= limit {
                chunk_is_late(rules, chain, elapsed_ms)
            } else {
                let left: u64 = limit - elapsed_ms;
                Decision { effects, step: Step::AwaitChunk { held, budget_ms: Some(left) } }
            }
        },
        None => Decision { effects, step: Step::AwaitChunk { held, budget_ms: None } },
    }
}

/// What is done with an answer: it may be tried again.
pub open spec fn answered(
    rules: AttemptRules,
    chain: Seq<FailoverAttempt>,
    held: Held,
    elapsed_ms: u64,
) -> Turn {
    if held.retries_left > 0 && rules.retry_codes@.contains(held.status as i32) {
        Turn {
            chain,
            effects: Seq::empty(),
            step: Step::Retry((Held { retries_left: (held.retries_left - 1) as i32, ..held })),
        }
    } else {
        judged(rules, chain, held, elapsed_ms)
    }
}

fn take_answer(
    rules: &AttemptRules,
    chain: &mut Vec<FailoverAttempt>,
    held: Held,
    elapsed_ms: u64,
) -> (r: Decision)
    ensures
        carries_out(r, final(chain)@, answered(*rules, old(chain)@, held, elapsed_ms)),
{
    if held.retries_left > 0 && contains_i32(&rules.retry_codes, held.status as i32) {
        let effects: Vec<Effect> = Vec::new();
        assert(effects@ =~= Seq::empty());
        let retries_left: i32 = held.retries_left - 1;
        return Decision { effects, step: Step::Retry(Held { retries_left, ..held }) };
    }
    judge(rules, chain, held, elapsed_ms)
}

/// The step after the first request to a server.
pub open spec fn sent(
    rules: AttemptRules,
    chain: Seq<FailoverAttempt>,
    reply: SendReply,
    elapsed_ms: u64,
) -> Turn {
    match reply {
        SendReply::Failed => gave_nothing(
            rules,
            with_attempt(chain, rules.server_id, 0, elapsed_ms),
            Seq::empty(),
            elapsed_ms,
        ),
        SendReply::TimedOut => gave_nothing(
            rules,
            with_attempt(chain, rules.server_id, 0, elapsed_ms),
            seq![Effect::Latency(rows::non_stream(None, true, LatencySource::GroupServer))],
            elapsed_ms,
        ),
        SendReply::Headers { status, event_stream } => answered(
            rules,
            with_attempt(chain, rules.server_id, status, elapsed_ms),
            Held {
                status,
                event_stream,
                latency_ms: elapsed_ms as i32,
                retries_left: rules.retry_count,
            },
            elapsed_ms,
        ),
    }
}

/// Decides after the first request to a server.
pub fn after_send(
    rules: &AttemptRules,
    chain: &mut Vec<FailoverAttempt>,
    reply: SendReply,
    elapsed_ms: u64,
) -> (r: Decision)
    ensures
        carries_out(r, final(chain)@, sent(*rules, old(chain)@, reply, elapsed_ms)),
{
    let mut late: Vec<Effect> = Vec::new();
    match reply {
        SendReply::Headers { status, event_stream } => {
            push_attempt(chain, rules.server_id, status, elapsed_ms);
            let held = Held {
                status,
                event_stream,
                latency_ms: #[verifier::truncate] (elapsed_ms as i32),
                retries_left: rules.retry_count,
            };
            take_answer(rules, chain, held, elapsed_ms)
        },
        SendReply::Failed => {
            push_attempt(chain, rules.server_id, 0, elapsed_ms);
            assert(late@ =~= Seq::empty());
            let r = give_nothing(rules, late, elapsed_ms);
            assert(carries_out(r, chain@, gave_nothing(*rules, chain@, late@, elapsed_ms)));
            r
        },
        SendReply::TimedOut => {
            push_attempt(chain, rules.server_id, 0, elapsed_ms);
            late.push(Effect::Latency(non_stream_row(None, true, LatencySource::GroupServer)));
            assert(late@ =~= seq![
                Effect::Latency(rows::non_stream(None, true, LatencySource::GroupServer)),
            ]);
            let r = give_nothing(rules, late, elapsed_ms);
            assert(carries_out(r, chain@, gave_nothing(*rules, chain@, late@, elapsed_ms)));
            r
        },
    }
}

/// The step after the same server was tried again. Where that failed, the answer in hand
/// stands.
pub open spec fn retried(
    rules: AttemptRules,
    chain: Seq<FailoverAttempt>,
    held: Held,
    reply: SendReply,
    elapsed_ms: u64,
) -> Turn {
    match reply {
        SendReply::Headers { status, event_stream } => answered(
            rules,
            with_later_attempt(chain, rules.server_id, status, elapsed_ms),
            Held { status, event_stream, ..held },
            elapsed_ms,
        ),
        _ => judged(rules, chain, held, elapsed_ms),
    }
}

/// The attempts with one more of the same server, which is not shown in detail.
pub open spec fn with_later_attempt(
    chain: Seq<FailoverAttempt>,
    server_id: u128,
    status: u16,
    elapsed_ms: u64,
) -> Seq<FailoverAttempt> {
    chain.push(
        FailoverAttempt { server_id, status, latency_ms: elapsed_ms as i32, detailed: false },
    )
}

fn push_later_attempt(
    chain: &mut Vec<FailoverAttempt>,
    server_id: u128,
    status: u16,
    elapsed_ms: u64,
)
    ensures
        final(chain)@ == with_later_attempt(old(chain)@, server_id, status, elapsed_ms),
{
    chain.push(
        FailoverAttempt {
            server_id,
            status,
            latency_ms: #[verifier::truncate] (elapsed_ms as i32),
            detailed: false,
        },
    );
}

/// Decides after the same server was tried again.
pub fn after_retry(
    rules: &AttemptRules,
    chain: &mut Vec<FailoverAttempt>,
    held: Held,
    reply: SendReply,
    elapsed_ms: u64,
) -> (r: Decision)
    ensures
        carries_out(r, final(chain)@, retried(*rules, old(chain)@, held, reply, elapsed_ms)),
{
    match reply {
        SendReply::Headers { status, event_stream } => {
            push_later_attempt(chain, rules.server_id, status, elapsed_ms);
            take_answer(rules, chain, Held { status, event_stream, ..held }, elapsed_ms)
        },
        _ => judge(rules, chain, held, elapsed_ms),
    }
}

/// An answer with status 400 is given up: the next server is tried where 400 is one of the
/// statuses for that, else the error is passed on.
pub open spec fn refused(rules: AttemptRules) -> (Seq<Effect>, Step) {
    if rules.failover_codes@.contains(400u16) {
        (breaker_error(rules), Step::NextServer)
    } else {
        (
            seq![
                Effect::Log { status: 400, kind: LogKind::UpstreamError },
                Effect::Alert { code: 400 },
            ] + only_if(rules.probe, Effect::ProbeRelease),
            Step::Relay(Answer::ErrorBody),
        )
    }
}

fn refuse(rules: &AttemptRules, effects: &mut Vec<Effect>) -> (step: Step)
    ensures
        final(effects)@ == old(effects)@ + refused(*rules).0,
        step == refused(*rules).1,
{
    if contains_u16(&rules.failover_codes, 400) {
        push_breaker_error(rules, effects);
        return Step::NextServer;
    }
    effects.push(Effect::Log { status: 400, kind: LogKind::UpstreamError });
    effects.push(Effect::Alert { code: 400 });
    push_if(rules.probe, Effect::ProbeRelease, effects);
    assert(effects@ =~= old(effects)@ + refused(*rules).0);
    Step::Relay(Answer::ErrorBody)
}

/// The step after the body of an error was read. Where the error is one about the signature
/// of a thinking block, and the request has such blocks, it is sent again without them.
pub open spec fn error_read(
    rules: AttemptRules,
    chain: Seq<FailoverAttempt>,
    held: Held,
    can_resend: bool,
) -> Turn {
    let uptime = Effect::Uptime { status: held.status as i16, latency_ms: held.latency_ms };
    if can_resend {
        Turn { chain, effects: seq![uptime], step: Step::Resend(held) }
    } else {
        Turn { chain, effects: seq![uptime] + refused(rules).0, step: refused(rules).1 }
    }
}

/// Decides after the body of an error was read.
pub fn after_error_body(
    rules: &AttemptRules,
    chain: &Vec<FailoverAttempt>,
    held: Held,
    can_resend: bool,
) -> (r: Decision)
    ensures
        carries_out(r, chain@, error_read(*rules, chain@, held, can_resend)),
{
    let mut effects: Vec<Effect> = Vec::new();
    let uptime = Effect::Uptime {
        status: #[verifier::truncate] (held.status as i16),
        latency_ms: held.latency_ms,
    };
    effects.push(uptime);
    assert(effects@ =~= seq![uptime]);
    if can_resend {
        return Decision { effects, step: Step::Resend(held) };
    }
    let step = refuse(rules, &mut effects);
    Decision { effects, step }
}

/// The step after the request was sent without its thinking blocks. A success is billed like
/// any other.
pub open spec fn resent(
    rules: AttemptRules,
    chain: Seq<FailoverAttempt>,
    reply: SendReply,
    elapsed_ms: u64,
) -> Turn {
    match reply {
        SendReply::Headers { status, .. } => {
            let chain = with_later_attempt(chain, rules.server_id, status, elapsed_ms);
            if status == 200 {
                Turn {
                    chain,
                    effects: only_if(rules.probe, Effect::ProbeSuccess).push(
                        Effect::Uptime { status: 200, latency_ms: elapsed_ms as i32 },
                    ),
                    step: Step::Relay(Answer::Billed),
                }
            } else if rules.failover_codes@.contains(status) {
                Turn {
                    chain,
                    effects: only_if(rules.probe, Effect::ProbeRelease),
                    step: Step::NextServer,
                }
            } else {
                Turn {
                    chain,
                    effects: seq![
                        Effect::Log { status: status as i16, kind: LogKind::UpstreamError },
                    ] + only_if(rules.probe, Effect::ProbeRelease),
                    step: Step::Relay(Answer::PassThrough),
                }
            }
        },
        _ => Turn { chain, effects: refused(rules).0, step: refused(rules).1 },
    }
}

/// Decides after the request was sent without its thinking blocks.
pub fn after_resend(
    rules: &AttemptRules,
    chain: &mut Vec<FailoverAttempt>,
    reply: SendReply,
    elapsed_ms: u64,
) -> (r: Decision)
    ensures
        carries_out(r, final(chain)@, resent(*rules, old(chain)@, reply, elapsed_ms)),
{
    let mut effects: Vec<Effect> = Vec::new();
    assert(effects@ =~= Seq::empty());
    match reply {
        SendReply::Headers { status, .. } => {
            push_later_attempt(chain, rules.server_id, status, elapsed_ms);
            if status == 200 {
                push_if(rules.probe, Effect::ProbeSuccess, &mut effects);
                effects.push(
                    Effect::Uptime {
                        status: 200,
                        latency_ms: #[verifier::truncate] (elapsed_ms as i32),
                    },
                );
                let ghost told = resent(*rules, old(chain)@, reply, elapsed_ms);
                assert(effects@ =~= told.effects);
                return Decision { effects, step: Step::Relay(Answer::Billed) };
            }
            if contains_u16(&rules.failover_codes, status) {
                push_if(rules.probe, Effect::ProbeRelease, &mut effects);
                assert(effects@ =~= only_if(rules.probe, Effect::ProbeRelease));
                return Decision { effects, step: Step::NextServer };
            }
            let log = Effect::Log {
                status: #[verifier::truncate] (status as i16),
                kind: LogKind::UpstreamError,
            };
            effects.push(log);
            assert(effects@ =~= seq![log]);
            push_if(rules.probe, Effect::ProbeRelease, &mut effects);
            Decision { effects, step: Step::Relay(Answer::PassThrough) }
        },
        _ => {
            let step = refuse(rules, &mut effects);
            assert(effects@ =~= refused(*rules).0);
            Decision { effects, step }
        },
    }
}

/// The step with an answer that is billed outside the usual way: a stream is billed on its
/// way, any other body is read within what is left of the time limit.
pub fn after_billed_headers(rules: &AttemptRules, event_stream: bool, elapsed_ms: u64) -> (r:
    Option<Option<u64>>)
    ensures
        r == (if event_stream {
            None
        } else {
            Some(limits::time_left(rules.timeout_ms, elapsed_ms))
        }),
{
    if event_stream {
        None
    } else {
        Some(remaining_timeout_ms(rules.timeout_ms, elapsed_ms))
    }
}

/// What is recorded of such a body, and whether the client is refused: there is no other
/// server to try once the stall is seen.
pub open spec fn billed_body(in_time: bool, elapsed_ms: u64) -> (Seq<Effect>, Option<Refusal>) {
    if in_time {
        (
            seq![
                Effect::Latency(
                    rows::non_stream(Some(elapsed_ms as i32), false, LatencySource::GroupServer),
                ),
                Effect::RecordUsage,
            ],
            None,
        )
    } else {
        (
            seq![Effect::Latency(rows::non_stream(None, true, LatencySource::GroupServer))],
            Some(Refusal::AnswerTimedOut),
        )
    }
}

/// Decides after such a body was read, or was not in time.
pub fn after_billed_body(in_time: bool, elapsed_ms: u64) -> (r: (Vec<Effect>, Option<Refusal>))
    ensures
        r.0@ == billed_body(in_time, elapsed_ms).0,
        r.1 == billed_body(in_time, elapsed_ms).1,
{
    let mut effects: Vec<Effect> = Vec::new();
    if !in_time {
        effects.push(Effect::Latency(non_stream_row(None, true, LatencySource::GroupServer)));
        assert(effects@ =~= billed_body(in_time, elapsed_ms).0);
        return (effects, Some(Refusal::AnswerTimedOut));
    }
    let total: i32 = #[verifier::truncate] (elapsed_ms as i32);
    effects.push(
        Effect::Latency(non_stream_row(Some(total), false, LatencySource::GroupServer)),
    );
    effects.push(Effect::RecordUsage);
    assert(effects@ =~= billed_body(in_time, elapsed_ms).0);
    (effects, None)
}

/// The log row of an answer that came after other attempts.
pub open spec fn success_log(chain: Seq<FailoverAttempt>, status: u16) -> Seq<Effect> {
    only_if(
        chain.len() > 1,
        Effect::Log { status: status as i16, kind: LogKind::FailoverSuccess },
    )
}

/// The step after the body of an answer was read, or was not in time.
pub open spec fn body_read(
    rules: AttemptRules,
    chain: Seq<FailoverAttempt>,
    held: Held,
    in_time: bool,
    elapsed_ms: u64,
) -> Turn {
    if in_time {
        Turn {
            chain,
            effects: only_if(rules.probe, Effect::ProbeSuccess) + seq![
                Effect::Uptime { status: held.status as i16, latency_ms: held.latency_ms },
                Effect::Latency(
                    rows::non_stream(Some(elapsed_ms as i32), false, LatencySource::GroupServer),
                ),
            ] + success_log(chain, held.status) + only_if(rules.billing, Effect::RecordUsage),
            step: Step::Relay(Answer::Body),
        }
    } else {
        gave_nothing(
            rules,
            last_failed(chain),
            seq![Effect::Latency(rows::non_stream(None, true, LatencySource::GroupServer))],
            elapsed_ms,
        )
    }
}

/// Decides after the body of an answer was read, or was not in time.
pub fn after_body(
    rules: &AttemptRules,
    chain: &mut Vec<FailoverAttempt>,
    held: Held,
    in_time: bool,
    elapsed_ms: u64,
) -> (r: Decision)
    ensures
        carries_out(r, final(chain)@, body_read(*rules, old(chain)@, held, in_time, elapsed_ms)),
{
    let mut effects: Vec<Effect> = Vec::new();
    assert(effects@ =~= Seq::empty());
    if !in_time {
        fail_last(chain);
        effects.push(Effect::Latency(non_stream_row(None, true, LatencySource::GroupServer)));
        assert(effects@ =~= seq![
            Effect::Latency(rows::non_stream(None, true, LatencySource::GroupServer)),
        ]);
        let r = give_nothing(rules, effects, elapsed_ms);
        assert(carries_out(r, chain@, gave_nothing(*rules, chain@, effects@, elapsed_ms)));
        return r;
    }
    let total: i32 = #[verifier::truncate] (elapsed_ms as i32);
    push_if(rules.probe, Effect::ProbeSuccess, &mut effects);
    effects.push(
        Effect::Uptime {
            status: #[verifier::truncate] (held.status as i16),
            latency_ms: held.latency_ms,
        },
    );
    effects.push(
        Effect::Latency(non_stream_row(Some(total), false, LatencySource::GroupServer)),
    );
    push_if(
        chain.len() > 1,
        Effect::Log {
            status: #[verifier::truncate] (held.status as i16),
            kind: LogKind::FailoverSuccess,
        },
        &mut effects,
    );
    push_if(rules.billing, Effect::RecordUsage, &mut effects);
    assert(effects@ =~= body_read(*rules, chain@, held, in_time, elapsed_ms).effects);
    Decision { effects, step: Step::Relay(Answer::Body) }
}

/// The step after waiting for the first chunk of a stream.
pub open spec fn chunk_awaited(
    rules: AttemptRules,
    chain: Seq<FailoverAttempt>,
    held: Held,
    reply: ChunkReply,
    elapsed_ms: u64,
) -> Turn {
    match reply {
        ChunkReply::Chunk => Turn {
            chain,
            effects: only_if(rules.probe, Effect::ProbeSuccess) + seq![
                Effect::Latency(rows::ttft(Some(elapsed_ms as i32), false)),
                Effect::Uptime { status: held.status as i16, latency_ms: held.latency_ms },
            ] + success_log(chain, held.status),
            step: Step::Relay(Answer::Stream { billed: rules.billing }),
        },
        // Only where another server is waited for is the attempt counted as one that gave
        // no answer.
        ChunkReply::Broken => gave_nothing(
            rules,
            if rules.chunk_limit_ms is Some {
                last_failed(chain)
            } else {
                chain
            },
            seq![Effect::Latency(rows::ttft(None, false))],
            elapsed_ms,
        ),
        ChunkReply::TimedOut => chunk_was_late(rules, chain, elapsed_ms),
    }
}

/// Decides after waiting for the first chunk of a stream.
pub fn after_first_chunk(
    rules: &AttemptRules,
    chain: &mut Vec<FailoverAttempt>,
    held: Held,
    reply: ChunkReply,
    elapsed_ms: u64,
) -> (r: Decision)
    ensures
        carries_out(
            r,
            final(chain)@,
            chunk_awaited(*rules, old(chain)@, held, reply, elapsed_ms),
        ),
{
    let mut effects: Vec<Effect> = Vec::new();
    assert(effects@ =~= Seq::empty());
    match reply {
        ChunkReply::Chunk => {
            let first: i32 = #[verifier::truncate] (elapsed_ms as i32);
            push_if(rules.probe, Effect::ProbeSuccess, &mut effects);
            effects.push(Effect::Latency(ttft_row(Some(first), false)));
            effects.push(
                Effect::Uptime {
                    status: #[verifier::truncate] (held.status as i16),
                    latency_ms: held.latency_ms,
                },
            );
            push_if(
                chain.len() > 1,
                Effect::Log {
                    status: #[verifier::truncate] (held.status as i16),
                    kind: LogKind::FailoverSuccess,
                },
                &mut effects,
            );
            assert(effects@ =~= chunk_awaited(*rules, chain@, held, reply, elapsed_ms).effects);
            Decision { effects, step: Step::Relay(Answer::Stream { billed: rules.billing }) }
        },
        ChunkReply::Broken => {
            if rules.chunk_limit_ms.is_some() {
                fail_last(chain);
            }
            effects.push(Effect::Latency(ttft_row(None, false)));
            assert(effects@ =~= seq![Effect::Latency(rows::ttft(None, false))]);
            let r = give_nothing(rules, effects, elapsed_ms);
            assert(carries_out(r, chain@, gave_nothing(*rules, chain@, effects@, elapsed_ms)));
            r
        },
        ChunkReply::TimedOut => chunk_is_late(rules, chain, elapsed_ms),
    }
}

/// The step after the count-tokens server was asked, before any other. An answer that is an
/// error is passed on, unless its status is one on which the other servers are tried.
pub open spec fn counted(
    rules: AttemptRules,
    chain: Seq<FailoverAttempt>,
    reply: SendReply,
    elapsed_ms: u64,
) -> Turn {
    match reply {
        SendReply::Headers { status, .. } => {
            let chain = with_attempt(chain, rules.server_id, status, elapsed_ms);
            let uptime = Effect::Uptime { status: status as i16, latency_ms: elapsed_ms as i32 };
            if status == 200 {
                Turn {
                    chain,
                    effects: seq![uptime] + success_log(chain, status),
                    step: Step::Relay(Answer::PassThrough),
                }
            } else if !rules.failover_codes@.contains(status) {
                Turn {
                    chain,
                    effects: seq![
                        uptime,
                        Effect::Log { status: status as i16, kind: LogKind::UpstreamError },
                    ],
                    step: Step::Relay(Answer::PassThrough),
                }
            } else {
                Turn { chain, effects: seq![uptime], step: Step::NextServer }
            }
        },
        _ => Turn {
            chain: with_attempt(chain, rules.server_id, 0, elapsed_ms),
            effects: seq![Effect::Uptime { status: 0, latency_ms: elapsed_ms as i32 }],
            step: Step::NextServer,
        },
    }
}

/// Decides after the count-tokens server was asked.
pub fn after_count_tokens(
    rules: &AttemptRules,
    chain: &mut Vec<FailoverAttempt>,
    reply: SendReply,
    elapsed_ms: u64,
) -> (r: Decision)
    ensures
        carries_out(r, final(chain)@, counted(*rules, old(chain)@, reply, elapsed_ms)),
{
    let mut effects: Vec<Effect> = Vec::new();
    let latency_ms: i32 = #[verifier::truncate] (elapsed_ms as i32);
    let ghost told = counted(*rules, old(chain)@, reply, elapsed_ms);
    match reply {
        SendReply::Headers { status, .. } => {
            push_attempt(chain, rules.server_id, status, elapsed_ms);
            let shown: i16 = #[verifier::truncate] (status as i16);
            effects.push(Effect::Uptime { status: shown, latency_ms });
            if status == 200 {
                push_if(
                    chain.len() > 1,
                    Effect::Log { status: shown, kind: LogKind::FailoverSuccess },
                    &mut effects,
                );
                assert(effects@ =~= told.effects);
                return Decision { effects, step: Step::Relay(Answer::PassThrough) };
            }
            if !contains_u16(&rules.failover_codes, status) {
                effects.push(Effect::Log { status: shown, kind: LogKind::UpstreamError });
                assert(effects@ =~= told.effects);
                return Decision { effects, step: Step::Relay(Answer::PassThrough) };
            }
            assert(effects@ =~= told.effects);
            Decision { effects, step: Step::NextServer }
        },
        _ => {
            push_attempt(chain, rules.server_id, 0, elapsed_ms);
            effects.push(Effect::Uptime { status: 0, latency_ms });
            assert(effects@ =~= told.effects);
            Decision { effects, step: Step::NextServer }
        },
    }
}

/// The status of the last attempt that gave an answer.
pub open spec fn last_status(chain: Seq<FailoverAttempt>) -> Option<u16>
    decreases chain.len(),
{
    if chain.len() == 0 {
        None
    } else if chain.last().status != 0 {
        Some(chain.last().status)
    } else {
        last_status(chain.drop_last())
    }
}

fn find_last_status(chain: &Vec<FailoverAttempt>) -> (r: Option<u16>)
    ensures
        r == last_status(chain@),
{
    let mut n: usize = chain.len();
    assert(chain@.take(n as int) =~= chain@);
    while n > 0
        invariant
            n <= chain.len(),
            last_status(chain@) == last_status(chain@.take(n as int)),
        decreases n,
    {
        let ghost part = chain@.take(n as int);
        assert(part.drop_last() =~= chain@.take(n - 1));
        if chain[n - 1].status != 0 {
            return Some(chain[n - 1].status);
        }
        n = n - 1;
    }
    None
}

/// What is recorded and answered when no server is left.
pub open spec fn ended(
    any_attempted: bool,
    any_rate_limited: bool,
    billing: bool,
    chain: Seq<FailoverAttempt>,
) -> (Seq<Effect>, Refusal) {
    if any_attempted {
        let status = match last_status(chain) {
            Some(status) => status as i16,
            None => 429,
        };
        let kind = if last_status(chain) is None {
            LogKind::ConnectionError
        } else {
            LogKind::AllServersExhausted
        };
        (
            seq![Effect::Log { status, kind }] + only_if(
                billing && status != 0,
                Effect::Alert { code: status as u16 },
            ),
            Refusal::Overloaded,
        )
    } else if any_rate_limited {
        (Seq::empty(), Refusal::RateLimited)
    } else {
        (Seq::empty(), Refusal::NoServerKeys)
    }
}

/// What is recorded and answered when no server is left: the log shows the last status that
/// came, or 429 if none did.
pub fn after_last_server(
    any_attempted: bool,
    any_rate_limited: bool,
    billing: bool,
    chain: &Vec<FailoverAttempt>,
) -> (r: (Vec<Effect>, Refusal))
    ensures
        r.0@ == ended(any_attempted, any_rate_limited, billing, chain@).0,
        r.1 == ended(any_attempted, any_rate_limited, billing, chain@).1,
{
    let mut effects: Vec<Effect> = Vec::new();
    assert(effects@ =~= Seq::empty());
    if !any_attempted {
        let refusal = if any_rate_limited {
            Refusal::RateLimited
        } else {
            Refusal::NoServerKeys
        };
        return (effects, refusal);
    }
    let (status, kind): (i16, LogKind) = match find_last_status(chain) {
        Some(status) => (#[verifier::truncate] (status as i16), LogKind::AllServersExhausted),
        None => (429, LogKind::ConnectionError),
    };
    effects.push(Effect::Log { status, kind });
    assert(effects@ =~= seq![Effect::Log { status, kind }]);
    push_if(
        billing && status != 0,
        Effect::Alert { code: #[verifier::truncate] (status as u16) },
        &mut effects,
    );
    (effects, Refusal::Overloaded)
}

/// The server of the last attempt, which the log rows name.
pub fn last_server(chain: &Vec<FailoverAttempt>) -> (r: Option<u128>)
    ensures
        r == (if chain@.len() == 0 {
            None
        } else {
            Some(chain@.last().server_id)
        }),
{
    let n: usize = chain.len();
    if n == 0 {
        None
    } else {
        Some(chain[n - 1].server_id)
    }
}

} // verus!
