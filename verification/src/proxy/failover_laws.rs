//! What holds of every attempt at a server.

use vstd::prelude::*;

use crate::proxy::failover;
use crate::proxy::failover::{
    Answer, AttemptRules, ChunkReply, FailoverAttempt, Held, SendReply, Step, Turn,
};
use crate::proxy::refusal::Refusal;
use crate::proxy::rows;
use crate::proxy::rows::{Effect, LogKind};

verus! {

/// The effects of which this holds.
pub open spec fn count(effects: Seq<Effect>, holds: spec_fn(Effect) -> bool) -> nat
    decreases effects.len(),
{
    if effects.len() == 0 {
        0
    } else {
        count(effects.drop_last(), holds) + (if holds(effects.last()) {
            1nat
        } else {
            0nat
        })
    }
}

proof fn lemma_count_concat(a: Seq<Effect>, b: Seq<Effect>, holds: spec_fn(Effect) -> bool)
    ensures
        count(a + b, holds) == count(a, holds) + count(b, holds),
    decreases b.len(),
{
    if b.len() == 0 {
        assert(a + b =~= a);
    } else {
        assert((a + b).drop_last() =~= a + b.drop_last());
        lemma_count_concat(a, b.drop_last(), holds);
    }
}

proof fn lemma_count_short(effects: Seq<Effect>, holds: spec_fn(Effect) -> bool)
    ensures
        effects.len() == 1 ==> count(effects, holds) == (if holds(effects[0]) {
            1nat
        } else {
            0nat
        }),
        effects.len() == 2 ==> count(effects, holds) == (if holds(effects[0]) {
            1nat
        } else {
            0nat
        }) + (if holds(effects[1]) {
            1nat
        } else {
            0nat
        }),
{
    reveal_with_fuel(count, 3);
}

/// The effect tells the circuit breaker what became of the probe.
pub open spec fn settles_probe() -> spec_fn(Effect) -> bool {
    |e: Effect|
        match e {
            Effect::ProbeSuccess => true,
            Effect::ProbeRelease => true,
            Effect::RecordError(rule) => rule.was_probe,
            _ => false,
        }
}

/// The effect writes an uptime row.
pub open spec fn writes_uptime() -> spec_fn(Effect) -> bool {
    |e: Effect| e is Uptime
}

/// The attempt at the server is over.
pub open spec fn is_over(step: Step) -> bool {
    step is NextServer || step is Relay
}

/// The turn settles a probe exactly when it ends the attempt.
pub open spec fn settled(rules: AttemptRules, turn: Turn) -> bool {
    count(turn.effects, settles_probe()) == if rules.probe && is_over(turn.step) {
        1nat
    } else {
        0nat
    }
}

/// The turn writes an uptime row exactly when it ends the attempt.
pub open spec fn has_uptime(turn: Turn) -> bool {
    count(turn.effects, writes_uptime()) == if is_over(turn.step) {
        1nat
    } else {
        0nat
    }
}

/// Only a server with a circuit breaker is probed.
pub open spec fn probes_breaker(rules: AttemptRules) -> bool {
    rules.probe ==> rules.breaker is Some
}

proof fn lemma_counts_of_parts(rules: AttemptRules, condition: bool, effect: Effect)
    ensures
        count(failover::only_if(condition, effect), settles_probe()) == (if condition
            && settles_probe()(effect) {
            1nat
        } else {
            0nat
        }),
        count(failover::only_if(condition, effect), writes_uptime()) == (if condition
            && writes_uptime()(effect) {
            1nat
        } else {
            0nat
        }),
        count(failover::breaker_error(rules), settles_probe()) == (if rules.breaker is Some
            && rules.probe {
            1nat
        } else {
            0nat
        }),
        count(failover::breaker_error(rules), writes_uptime()) == 0,
{
    reveal_with_fuel(count, 2);
}

proof fn lemma_gave_nothing(
    rules: AttemptRules,
    chain: Seq<FailoverAttempt>,
    rows: Seq<Effect>,
    elapsed_ms: u64,
)
    requires
        rows.len() <= 1,
        rows.len() == 1 ==> rows[0] is Latency,
    ensures
        probes_breaker(rules) ==> settled(rules, failover::gave_nothing(rules, chain, rows, elapsed_ms)),
        count(
            failover::gave_nothing(rules, chain, rows, elapsed_ms).effects,
            writes_uptime(),
        ) == 1,
{
    let uptime = seq![Effect::Uptime { status: 0, latency_ms: elapsed_ms as i32 }];
    let error = failover::breaker_error(rules);
    reveal_with_fuel(count, 2);
    lemma_counts_of_parts(rules, false, Effect::ProbeSuccess);
    lemma_count_concat(rows, uptime, settles_probe());
    lemma_count_concat(rows, uptime, writes_uptime());
    lemma_count_concat(rows + uptime, error, settles_probe());
    lemma_count_concat(rows + uptime, error, writes_uptime());
}

proof fn lemma_judged(
    rules: AttemptRules,
    chain: Seq<FailoverAttempt>,
    held: Held,
    elapsed_ms: u64,
)
    ensures
        probes_breaker(rules) ==> settled(rules, failover::judged(rules, chain, held, elapsed_ms)),
        has_uptime(failover::judged(rules, chain, held, elapsed_ms)),
{
    let uptime = Effect::Uptime { status: held.status as i16, latency_ms: held.latency_ms };
    let log = Effect::Log { status: held.status as i16, kind: LogKind::UpstreamError };
    let alert = failover::only_if(rules.billing, Effect::Alert { code: held.status });
    let release = failover::only_if(rules.probe, Effect::ProbeRelease);
    let error = failover::breaker_error(rules);
    reveal_with_fuel(count, 3);
    lemma_counts_of_parts(rules, rules.billing, Effect::Alert { code: held.status });
    lemma_counts_of_parts(rules, rules.probe, Effect::ProbeRelease);
    lemma_count_concat(seq![uptime], error, settles_probe());
    lemma_count_concat(seq![uptime], error, writes_uptime());
    lemma_count_concat(seq![uptime, log], alert, settles_probe());
    lemma_count_concat(seq![uptime, log], alert, writes_uptime());
    lemma_count_concat(seq![uptime, log] + alert, release, settles_probe());
    lemma_count_concat(seq![uptime, log] + alert, release, writes_uptime());
    lemma_count_short(seq![uptime, log], settles_probe());
    lemma_count_short(seq![uptime, log], writes_uptime());
    lemma_gave_nothing(
        rules,
        failover::last_failed(chain),
        seq![Effect::Latency(rows::ttft(None, true))],
        elapsed_ms,
    );
}

proof fn lemma_refused(rules: AttemptRules)
    ensures
        probes_breaker(rules) ==> count(failover::refused(rules).0, settles_probe()) == (
        if rules.probe {
            1nat
        } else {
            0nat
        }),
        count(failover::refused(rules).0, writes_uptime()) == 0,
        is_over(failover::refused(rules).1),
{
    let told = seq![
        Effect::Log { status: 400, kind: LogKind::UpstreamError },
        Effect::Alert { code: 400 },
    ];
    let release = failover::only_if(rules.probe, Effect::ProbeRelease);
    lemma_counts_of_parts(rules, rules.probe, Effect::ProbeRelease);
    lemma_count_short(told, settles_probe());
    lemma_count_short(told, writes_uptime());
    lemma_count_concat(told, release, settles_probe());
    lemma_count_concat(told, release, writes_uptime());
}

proof fn lemma_resent(
    rules: AttemptRules,
    chain: Seq<FailoverAttempt>,
    reply: SendReply,
    elapsed_ms: u64,
)
    ensures
        probes_breaker(rules) ==> settled(rules, failover::resent(rules, chain, reply, elapsed_ms)),
        count(failover::resent(rules, chain, reply, elapsed_ms).effects, writes_uptime()) == (
        match reply {
            SendReply::Headers { status, .. } => if status == 200 {
                1nat
            } else {
                0nat
            },
            _ => 0nat,
        }),
{
    reveal_with_fuel(count, 2);
    lemma_refused(rules);
    lemma_counts_of_parts(rules, rules.probe, Effect::ProbeRelease);
    lemma_counts_of_parts(rules, rules.probe, Effect::ProbeSuccess);
    if let SendReply::Headers { status, .. } = reply {
        let log = seq![Effect::Log { status: status as i16, kind: LogKind::UpstreamError }];
        let uptime = Effect::Uptime { status: 200, latency_ms: elapsed_ms as i32 };
        let success = failover::only_if(rules.probe, Effect::ProbeSuccess);
        let release = failover::only_if(rules.probe, Effect::ProbeRelease);
        lemma_count_concat(log, release, settles_probe());
        lemma_count_concat(log, release, writes_uptime());
        assert(success.push(uptime).drop_last() =~= success);
    }
}

proof fn lemma_answer_given(
    rules: AttemptRules,
    chain: Seq<FailoverAttempt>,
    held: Held,
    elapsed_ms: u64,
)
    ensures
        probes_breaker(rules) ==> settled(rules, failover::body_read(rules, chain, held, true, elapsed_ms)),
        count(
            failover::body_read(rules, chain, held, true, elapsed_ms).effects,
            writes_uptime(),
        ) == 1,
        probes_breaker(rules) ==> settled(
            rules,
            failover::chunk_awaited(rules, chain, held, ChunkReply::Chunk, elapsed_ms),
        ),
        count(
            failover::chunk_awaited(rules, chain, held, ChunkReply::Chunk, elapsed_ms).effects,
            writes_uptime(),
        ) == 1,
{
    let success = failover::only_if(rules.probe, Effect::ProbeSuccess);
    let log = failover::success_log(chain, held.status);
    let usage = failover::only_if(rules.billing, Effect::RecordUsage);
    let body = failover::body_read(rules, chain, held, true, elapsed_ms).effects;
    let chunk = failover::chunk_awaited(rules, chain, held, ChunkReply::Chunk, elapsed_ms).effects;
    let uptime = Effect::Uptime { status: held.status as i16, latency_ms: held.latency_ms };
    let total = Effect::Latency(
        rows::non_stream(
            Some(elapsed_ms as i32),
            false,
            rows::LatencySource::GroupServer,
        ),
    );
    let first = Effect::Latency(rows::ttft(Some(elapsed_ms as i32), false));
    lemma_counts_of_parts(rules, rules.probe, Effect::ProbeSuccess);
    lemma_counts_of_parts(rules, rules.billing, Effect::RecordUsage);
    lemma_counts_of_parts(
        rules,
        chain.len() > 1,
        Effect::Log { status: held.status as i16, kind: LogKind::FailoverSuccess },
    );
    lemma_count_short(seq![uptime, total], settles_probe());
    lemma_count_short(seq![uptime, total], writes_uptime());
    lemma_count_short(seq![first, uptime], settles_probe());
    lemma_count_short(seq![first, uptime], writes_uptime());
    lemma_count_concat(success, seq![uptime, total], settles_probe());
    lemma_count_concat(success, seq![uptime, total], writes_uptime());
    lemma_count_concat(success + seq![uptime, total], log, settles_probe());
    lemma_count_concat(success + seq![uptime, total], log, writes_uptime());
    lemma_count_concat(success + seq![uptime, total] + log, usage, settles_probe());
    lemma_count_concat(success + seq![uptime, total] + log, usage, writes_uptime());
    lemma_count_concat(success, seq![first, uptime], settles_probe());
    lemma_count_concat(success, seq![first, uptime], writes_uptime());
    lemma_count_concat(success + seq![first, uptime], log, settles_probe());
    lemma_count_concat(success + seq![first, uptime], log, writes_uptime());
}

proof fn lemma_turns(
    rules: AttemptRules,
    chain: Seq<FailoverAttempt>,
    held: Held,
    reply: SendReply,
    can_resend: bool,
    in_time: bool,
    chunk: ChunkReply,
    elapsed_ms: u64,
)
    ensures
        has_uptime(failover::sent(rules, chain, reply, elapsed_ms)),
        has_uptime(failover::retried(rules, chain, held, reply, elapsed_ms)),
        has_uptime(failover::body_read(rules, chain, held, in_time, elapsed_ms)),
        has_uptime(failover::chunk_awaited(rules, chain, held, chunk, elapsed_ms)),
        count(
            failover::error_read(rules, chain, held, can_resend).effects,
            writes_uptime(),
        ) == 1,
        probes_breaker(rules) ==> {
            &&& settled(rules, failover::sent(rules, chain, reply, elapsed_ms))
            &&& settled(rules, failover::retried(rules, chain, held, reply, elapsed_ms))
            &&& settled(rules, failover::error_read(rules, chain, held, can_resend))
            &&& settled(rules, failover::resent(rules, chain, reply, elapsed_ms))
            &&& settled(rules, failover::body_read(rules, chain, held, in_time, elapsed_ms))
            &&& settled(rules, failover::chunk_awaited(rules, chain, held, chunk, elapsed_ms))
        },
{
    let late = Effect::Latency(
        rows::non_stream(None, true, rows::LatencySource::GroupServer),
    );
    let pushed = failover::with_attempt(chain, rules.server_id, 0, elapsed_ms);
    lemma_gave_nothing(rules, pushed, Seq::empty(), elapsed_ms);
    lemma_gave_nothing(rules, pushed, seq![late], elapsed_ms);
    lemma_gave_nothing(rules, failover::last_failed(chain), seq![late], elapsed_ms);
    lemma_gave_nothing(
        rules,
        failover::last_failed(chain),
        seq![Effect::Latency(rows::ttft(None, true))],
        elapsed_ms,
    );
    lemma_gave_nothing(
        rules,
        failover::last_failed(chain),
        seq![Effect::Latency(rows::ttft(None, false))],
        elapsed_ms,
    );
    lemma_gave_nothing(
        rules,
        chain,
        seq![Effect::Latency(rows::ttft(None, false))],
        elapsed_ms,
    );
    lemma_judged(rules, chain, held, elapsed_ms);
    if let SendReply::Headers { status, event_stream } = reply {
        let first = failover::with_attempt(chain, rules.server_id, status, elapsed_ms);
        let later = failover::with_later_attempt(chain, rules.server_id, status, elapsed_ms);
        lemma_judged(
            rules,
            first,
            Held {
                status,
                event_stream,
                latency_ms: elapsed_ms as i32,
                retries_left: rules.retry_count,
            },
            elapsed_ms,
        );
        lemma_judged(rules, later, Held { status, event_stream, ..held }, elapsed_ms);
    }
    lemma_refused(rules);
    lemma_resent(rules, chain, reply, elapsed_ms);
    lemma_answer_given(rules, chain, held, elapsed_ms);
    let uptime = seq![Effect::Uptime { status: held.status as i16, latency_ms: held.latency_ms }];
    lemma_count_short(uptime, settles_probe());
    lemma_count_short(uptime, writes_uptime());
    lemma_count_concat(uptime, failover::refused(rules).0, settles_probe());
    lemma_count_concat(uptime, failover::refused(rules).0, writes_uptime());
}

/// A probe permit is never leaked nor given back twice: of the steps of an attempt, the one
/// that ends it tells the circuit breaker exactly once what became of the probe, and no
/// other step does. Where the request is no probe, none does.
pub proof fn law_probe_is_settled_once(
    rules: AttemptRules,
    chain: Seq<FailoverAttempt>,
    held: Held,
    reply: SendReply,
    can_resend: bool,
    in_time: bool,
    chunk: ChunkReply,
    elapsed_ms: u64,
)
    requires
        probes_breaker(rules),
    ensures
        settled(rules, failover::sent(rules, chain, reply, elapsed_ms)),
        settled(rules, failover::retried(rules, chain, held, reply, elapsed_ms)),
        settled(rules, failover::error_read(rules, chain, held, can_resend)),
        settled(rules, failover::resent(rules, chain, reply, elapsed_ms)),
        settled(rules, failover::body_read(rules, chain, held, in_time, elapsed_ms)),
        settled(rules, failover::chunk_awaited(rules, chain, held, chunk, elapsed_ms)),
{
    lemma_turns(rules, chain, held, reply, can_resend, in_time, chunk, elapsed_ms);
}

/// Every attempt leaves one uptime row: the step that ends it writes the row, unless the
/// body of an error was read, where the row is written then. A second one is written only
/// where the request without its thinking blocks succeeds.
pub proof fn law_every_attempt_has_an_uptime_row(
    rules: AttemptRules,
    chain: Seq<FailoverAttempt>,
    held: Held,
    reply: SendReply,
    can_resend: bool,
    in_time: bool,
    chunk: ChunkReply,
    elapsed_ms: u64,
)
    ensures
        has_uptime(failover::sent(rules, chain, reply, elapsed_ms)),
        has_uptime(failover::retried(rules, chain, held, reply, elapsed_ms)),
        has_uptime(failover::body_read(rules, chain, held, in_time, elapsed_ms)),
        has_uptime(failover::chunk_awaited(rules, chain, held, chunk, elapsed_ms)),
        count(
            failover::error_read(rules, chain, held, can_resend).effects,
            writes_uptime(),
        ) == 1,
        count(failover::resent(rules, chain, reply, elapsed_ms).effects, writes_uptime()) == (
        match reply {
            SendReply::Headers { status, .. } => if status == 200 {
                1nat
            } else {
                0nat
            },
            _ => 0nat,
        }),
{
    lemma_resent(rules, chain, reply, elapsed_ms);
    lemma_turns(rules, chain, held, reply, can_resend, in_time, chunk, elapsed_ms);
}

/// An answer is passed on as it is only where its status is neither a success nor one on
/// which the next server is tried.
pub proof fn law_failover_statuses_are_not_passed_on(
    rules: AttemptRules,
    chain: Seq<FailoverAttempt>,
    held: Held,
    reply: SendReply,
    elapsed_ms: u64,
)
    ensures
        ({
            let turn = failover::sent(rules, chain, reply, elapsed_ms);
            turn.step == Step::Relay(Answer::PassThrough) ==> (reply matches SendReply::Headers {
                status,
                ..
            } && status != 200 && !rules.failover_codes@.contains(status))
        }),
        ({
            let turn = failover::retried(rules, chain, held, reply, elapsed_ms);
            turn.step == Step::Relay(Answer::PassThrough) ==> (match reply {
                SendReply::Headers { status, .. } => status != 200
                    && !rules.failover_codes@.contains(status),
                _ => held.status != 200 && !rules.failover_codes@.contains(held.status),
            })
        }),
        ({
            let turn = failover::resent(rules, chain, reply, elapsed_ms);
            turn.step == Step::Relay(Answer::PassThrough) ==> (reply matches SendReply::Headers {
                status,
                ..
            } && status != 200 && !rules.failover_codes@.contains(status))
        }),
{
}

/// The same server is tried again only so often: each time fewer tries are left.
pub proof fn law_retries_run_out(
    rules: AttemptRules,
    chain: Seq<FailoverAttempt>,
    held: Held,
    reply: SendReply,
    elapsed_ms: u64,
)
    ensures
        failover::sent(rules, chain, reply, elapsed_ms).step matches Step::Retry(next) ==> 0
            <= next.retries_left < rules.retry_count,
        failover::retried(rules, chain, held, reply, elapsed_ms).step matches Step::Retry(next)
            ==> 0 <= next.retries_left < held.retries_left,
{
}

/// The first attempt, and no other, is shown in detail.
pub open spec fn first_is_detailed(chain: Seq<FailoverAttempt>) -> bool {
    forall|i: int| 0 <= i < chain.len() ==> (#[trigger] chain[i]).detailed == (i == 0)
}

/// The attempts are the earlier ones and perhaps more; of the earlier ones only the status
/// of the last may have changed.
pub open spec fn goes_on(before: Seq<FailoverAttempt>, after: Seq<FailoverAttempt>) -> bool {
    &&& before.len() <= after.len()
    &&& forall|i: int|
        0 <= i < before.len() - 1 ==> #[trigger] after[i] == before[i]
    &&& before.len() > 0 ==> after[before.len() - 1] == before.last() || after[before.len() - 1]
        == (FailoverAttempt { status: 0, ..before.last() })
}

/// No attempt is lost from the log, and the first one, and no other, is shown in detail.
pub proof fn law_attempts_are_kept(
    rules: AttemptRules,
    chain: Seq<FailoverAttempt>,
    held: Held,
    reply: SendReply,
    in_time: bool,
    chunk: ChunkReply,
    elapsed_ms: u64,
)
    requires
        first_is_detailed(chain),
    ensures
        ({
            let after = failover::sent(rules, chain, reply, elapsed_ms).chain;
            first_is_detailed(after) && goes_on(chain, after) && after.len() == chain.len() + 1
        }),
        chain.len() > 0 ==> {
            let after = failover::retried(rules, chain, held, reply, elapsed_ms).chain;
            first_is_detailed(after) && goes_on(chain, after)
        },
        chain.len() > 0 ==> {
            let after = failover::resent(rules, chain, reply, elapsed_ms).chain;
            first_is_detailed(after) && goes_on(chain, after)
        },
        ({
            let after = failover::body_read(rules, chain, held, in_time, elapsed_ms).chain;
            first_is_detailed(after) && goes_on(chain, after)
        }),
        ({
            let after = failover::chunk_awaited(rules, chain, held, chunk, elapsed_ms).chain;
            first_is_detailed(after) && goes_on(chain, after)
        }),
{
}

proof fn lemma_last_status(chain: Seq<FailoverAttempt>)
    ensures
        failover::last_status(chain) is None <==> (forall|i: int|
            0 <= i < chain.len() ==> (#[trigger] chain[i]).status == 0),
        failover::last_status(chain) != Some(0u16),
    decreases chain.len(),
{
    if chain.len() > 0 && chain.last().status == 0 {
        lemma_last_status(chain.drop_last());
        let part = chain.drop_last();
        if failover::last_status(chain) is Some {
            let i = choose|i: int| 0 <= i < part.len() && (#[trigger] part[i]).status != 0;
            assert(chain[i].status != 0);
        } else {
            assert forall|i: int| 0 <= i < chain.len() implies (#[trigger] chain[i]).status
                == 0 by {
                if i < part.len() {
                    assert(part[i].status == 0);
                }
            }
        }
    }
}

/// When no server is left the client is told to come back: every such answer is a 429. It is
/// logged as a connection error exactly when no server gave an answer, and not logged when
/// none was tried.
pub proof fn law_no_server_left(
    any_attempted: bool,
    any_rate_limited: bool,
    billing: bool,
    chain: Seq<FailoverAttempt>,
)
    ensures
        failover::ended(any_attempted, any_rate_limited, billing, chain).1.code() == 429,
        ({
            let effects = failover::ended(any_attempted, any_rate_limited, billing, chain).0;
            if any_attempted {
                (effects[0] matches Effect::Log { kind, .. } && kind == if (forall|i: int|
                    0 <= i < chain.len() ==> (#[trigger] chain[i]).status == 0) {
                    LogKind::ConnectionError
                } else {
                    LogKind::AllServersExhausted
                })
            } else {
                effects.len() == 0
            }
        }),
        any_attempted <==> failover::ended(any_attempted, any_rate_limited, billing, chain).1
            == Refusal::Overloaded,
{
    lemma_last_status(chain);
}

/// The last server is waited for: no limit on the first chunk applies to it, so that it is
/// not given up where there is no other to try.
pub proof fn law_last_server_is_waited_for(
    rules: AttemptRules,
    ttft_timeout_ms: Option<i32>,
    servers: int,
    chain: Seq<FailoverAttempt>,
    held: Held,
    elapsed_ms: u64,
)
    requires
        rules.chunk_limit_ms == failover::chunk_limit(ttft_timeout_ms, servers - 1, servers),
        held.status == 200,
        held.event_stream,
        !rules.failover_codes@.contains(200u16),
    ensures
        failover::judged(rules, chain, held, elapsed_ms).step == (Step::AwaitChunk {
            held,
            budget_ms: None,
        }),
{
}

} // verus!
