//! What each reply of a server leads to.

use vstd::prelude::*;

use crate::circuit_breaker::TripRule;
use crate::proxy::failover;
use crate::proxy::failover::{
    Answer, AttemptRules, ChunkReply, FailoverAttempt, Held, SendReply, Step, Turn,
};
use crate::proxy::limits;
use crate::proxy::refusal::Refusal;
use crate::proxy::rows::{Effect, LatencyRow, LatencySource, LogKind};

verus! {

/// The server is tried again on this status.
pub open spec fn retries(rules: AttemptRules, status: u16, left: int) -> bool {
    left > 0 && exists|i: int| 0 <= i < rules.retry_codes@.len() && #[trigger] rules.retry_codes@[i] == status
}

/// The next server is tried on this status.
pub open spec fn fails_over(rules: AttemptRules, status: u16) -> bool {
    exists|i: int|
        0 <= i < rules.failover_codes@.len() && #[trigger] rules.failover_codes@[i] == status
}

/// The breaker of the server, where it has one, is told of an error, and no other effect of
/// this kind is there.
pub open spec fn tells_breaker(effects: Seq<Effect>, rules: AttemptRules) -> bool {
    match rules.breaker {
        Some(b) => effects.contains(
            Effect::RecordError(
                TripRule {
                    max_failures: b.max_failures,
                    window_seconds: b.window_seconds,
                    cooldown_seconds: b.cooldown_seconds,
                    was_probe: rules.probe,
                },
            ),
        ),
        None => forall|i: int|
            0 <= i < effects.len() ==> !(#[trigger] effects[i] matches Effect::RecordError(_)),
    }
}

/// The next server is tried, and this one counts as down: the uptime row has no status, and
/// the breaker is told.
pub open spec fn counts_as_down(turn: Turn, rules: AttemptRules, elapsed_ms: u64) -> bool {
    &&& turn.step == Step::NextServer
    &&& turn.effects.contains(Effect::Uptime { status: 0, latency_ms: elapsed_ms as i32 })
    &&& tells_breaker(turn.effects, rules)
}

/// What is left of a time limit, where one is set.
pub open spec fn is_left(budget_ms: Option<u64>, limit_ms: Option<i32>, elapsed_ms: u64) -> bool {
    match limit_ms {
        Some(limit) if limit > 0 => budget_ms matches Some(left) && left == (if elapsed_ms < limit {
            limit - elapsed_ms
        } else {
            0
        }),
        _ => budget_ms is None,
    }
}

/// What an answer that is not tried again leads to. A success is read or awaited with the
/// answer in hand, within what is left of the time for it; an error that a billed request got
/// is read; an error on which the next server is tried leads there; and any other error is
/// passed on to the client. `chain` holds the attempts, the one of this answer last.
pub open spec fn is_dealt_with(
    turn: Turn,
    rules: AttemptRules,
    chain: Seq<FailoverAttempt>,
    held: Held,
    elapsed_ms: u64,
) -> bool {
    let late = held.event_stream && (rules.chunk_limit_ms matches Some(limit) && elapsed_ms >= limit);
    let shown = Effect::Uptime { status: held.status as i16, latency_ms: held.latency_ms };
    if held.status == 400 && rules.billing {
        turn.chain == chain && turn.effects.len() == 0 && turn.step == Step::ReadError(held)
    } else if fails_over(rules, held.status) {
        &&& turn.chain == chain
        &&& turn.step == Step::NextServer
        &&& turn.effects.contains(shown)
        &&& tells_breaker(turn.effects, rules)
    } else if held.status != 200 {
        &&& turn.chain == chain
        &&& turn.step == Step::Relay(Answer::PassThrough)
        &&& turn.effects.contains(shown)
        &&& turn.effects.contains(
            Effect::Log { status: held.status as i16, kind: LogKind::UpstreamError },
        )
        &&& turn.effects.contains(Effect::Alert { code: held.status }) <==> rules.billing
        &&& turn.effects.contains(Effect::ProbeRelease) <==> rules.probe
    } else if late {
        &&& counts_as_down(turn, rules, elapsed_ms)
        &&& turn.chain.len() == chain.len()
        &&& chain.len() > 0 ==> turn.chain.drop_last() == chain.drop_last()
            && turn.chain.last().status == 0
    } else {
        &&& turn.chain == chain
        &&& turn.effects.len() == 0
        &&& if held.event_stream {
            match turn.step {
                Step::AwaitChunk { held: kept, budget_ms } => kept == held
                    && match rules.chunk_limit_ms {
                    Some(limit) => budget_ms matches Some(left) && left == limit - elapsed_ms,
                    None => budget_ms is None,
                },
                _ => false,
            }
        } else {
            match turn.step {
                Step::ReadBody { held: kept, budget_ms } => kept == held && is_left(
                    budget_ms,
                    rules.timeout_ms,
                    elapsed_ms,
                ),
                _ => false,
            }
        }
    }
}

/// What any answer leads to: where it is one to try again on, the same server is, once less;
/// else it is dealt with.
pub open spec fn is_taken(
    turn: Turn,
    rules: AttemptRules,
    chain: Seq<FailoverAttempt>,
    held: Held,
    elapsed_ms: u64,
) -> bool {
    if retries(rules, held.status, held.retries_left as int) {
        &&& turn.chain == chain
        &&& turn.effects.len() == 0
        &&& turn.step matches Step::Retry(next)
        &&& next == (Held { retries_left: (held.retries_left - 1) as i32, ..held })
    } else {
        is_dealt_with(turn, rules, chain, held, elapsed_ms)
    }
}

proof fn lemma_contains(a: Seq<Effect>, b: Seq<Effect>)
    ensures
        forall|e: Effect| #[trigger] (a + b).contains(e) <==> a.contains(e) || b.contains(e),
{
    assert forall|e: Effect| #[trigger] (a + b).contains(e) <==> a.contains(e) || b.contains(e) by {
        if a.contains(e) {
            let i = choose|i: int| 0 <= i < a.len() && a[i] == e;
            assert((a + b)[i] == e);
        }
        if b.contains(e) {
            let i = choose|i: int| 0 <= i < b.len() && b[i] == e;
            assert((a + b)[a.len() + i] == e);
        }
        if (a + b).contains(e) {
            let i = choose|i: int| 0 <= i < (a + b).len() && (a + b)[i] == e;
            if i < a.len() {
                assert(a[i] == e);
            } else {
                assert(b[i - a.len()] == e);
            }
        }
    }
}

/// Effects that are no errors for the breaker, and then those that are.
proof fn lemma_tells(before: Seq<Effect>, rules: AttemptRules)
    requires
        forall|i: int|
            0 <= i < before.len() ==> !(#[trigger] before[i] matches Effect::RecordError(_)),
    ensures
        tells_breaker(before + failover::breaker_error(rules), rules),
{
    let told = failover::breaker_error(rules);
    lemma_contains(before, told);
    if rules.breaker is Some {
        assert(told.contains(told[0]));
    } else {
        assert(before + told =~= before);
    }
}

proof fn lemma_down(
    rules: AttemptRules,
    chain: Seq<FailoverAttempt>,
    rows: Seq<Effect>,
    elapsed_ms: u64,
)
    requires
        forall|i: int| 0 <= i < rows.len() ==> (#[trigger] rows[i] matches Effect::Latency(_)),
    ensures
        ({
            let turn = failover::gave_nothing(rules, chain, rows, elapsed_ms);
            &&& counts_as_down(turn, rules, elapsed_ms)
            &&& turn.chain == chain
            &&& forall|e: Effect| rows.contains(e) ==> #[trigger] turn.effects.contains(e)
        }),
{
    let down = seq![Effect::Uptime { status: 0, latency_ms: elapsed_ms as i32 }];
    let before = rows + down;
    assert forall|i: int| 0 <= i < before.len() implies !(
    #[trigger] before[i] matches Effect::RecordError(_)) by {
        if i < rows.len() {
            assert(before[i] == rows[i]);
        }
    }
    lemma_tells(before, rules);
    lemma_contains(rows, down);
    lemma_contains(before, failover::breaker_error(rules));
    assert(down.contains(down[0]));
}

proof fn lemma_late(rules: AttemptRules, chain: Seq<FailoverAttempt>, elapsed_ms: u64)
    ensures
        ({
            let turn = failover::chunk_was_late(rules, chain, elapsed_ms);
            &&& counts_as_down(turn, rules, elapsed_ms)
            &&& turn.chain.len() == chain.len()
            &&& chain.len() > 0 ==> turn.chain.drop_last() == chain.drop_last()
                && turn.chain.last().status == 0
        }),
{
    let late = seq![Effect::Latency(crate::proxy::rows::ttft(None, true))];
    lemma_down(rules, failover::last_failed(chain), late, elapsed_ms);
    if chain.len() > 0 {
        assert(failover::last_failed(chain).drop_last() =~= chain.drop_last());
    }
}

proof fn lemma_codes(rules: AttemptRules, status: u16, left: int)
    ensures
        rules.failover_codes@.contains(status) == fails_over(rules, status),
        (left > 0 && rules.retry_codes@.contains(status as i32)) == retries(rules, status, left),
{
    if rules.failover_codes@.contains(status) {
        let i = choose|i: int|
            0 <= i < rules.failover_codes@.len() && rules.failover_codes@[i] == status;
        assert(rules.failover_codes@[i] == status);
    }
    if rules.retry_codes@.contains(status as i32) {
        let i = choose|i: int|
            0 <= i < rules.retry_codes@.len() && rules.retry_codes@[i] == status as i32;
        assert(rules.retry_codes@[i] == status);
    }
    if exists|i: int| 0 <= i < rules.retry_codes@.len() && #[trigger] rules.retry_codes@[i] == status {
        let i = choose|i: int|
            0 <= i < rules.retry_codes@.len() && #[trigger] rules.retry_codes@[i] == status;
        assert(rules.retry_codes@[i] == status as i32);
    }
}

proof fn lemma_judged(
    rules: AttemptRules,
    chain: Seq<FailoverAttempt>,
    held: Held,
    elapsed_ms: u64,
)
    ensures
        is_dealt_with(
            failover::judged(rules, chain, held, elapsed_ms),
            rules,
            chain,
            held,
            elapsed_ms,
        ),
{
    lemma_codes(rules, held.status, 0);
    lemma_late(rules, chain, elapsed_ms);
    let shown = Effect::Uptime { status: held.status as i16, latency_ms: held.latency_ms };
    let log = Effect::Log { status: held.status as i16, kind: LogKind::UpstreamError };
    let alert = failover::only_if(rules.billing, Effect::Alert { code: held.status });
    let release = failover::only_if(rules.probe, Effect::ProbeRelease);
    let one = seq![shown];
    lemma_tells(one, rules);
    lemma_contains(one, failover::breaker_error(rules));
    assert(one.contains(one[0]));
    let two = seq![shown, log];
    lemma_contains(two, alert);
    lemma_contains(two + alert, release);
    assert(two.contains(two[0]) && two.contains(two[1]));
    if rules.billing {
        assert(alert.contains(alert[0]));
    }
    if rules.probe {
        assert(release.contains(release[0]));
    }
}

proof fn lemma_answered(
    rules: AttemptRules,
    chain: Seq<FailoverAttempt>,
    held: Held,
    elapsed_ms: u64,
)
    ensures
        is_taken(
            failover::answered(rules, chain, held, elapsed_ms),
            rules,
            chain,
            held,
            elapsed_ms,
        ),
{
    lemma_codes(rules, held.status, held.retries_left as int);
    lemma_judged(rules, chain, held, elapsed_ms);
}

/// The attempts are those before, and this one.
pub open spec fn adds_attempt(
    chain: Seq<FailoverAttempt>,
    before: Seq<FailoverAttempt>,
    server_id: u128,
    status: u16,
    elapsed_ms: u64,
) -> bool {
    &&& chain.len() == before.len() + 1
    &&& chain.drop_last() == before
    &&& chain.last().server_id == server_id
    &&& chain.last().status == status
    &&& chain.last().latency_ms == elapsed_ms as i32
}

/// The first answer of a server is recorded with its status and taken, with all the retries
/// that the server is given ahead.
pub proof fn law_first_answer_is_taken(
    rules: AttemptRules,
    before: Seq<FailoverAttempt>,
    status: u16,
    event_stream: bool,
    elapsed_ms: u64,
)
    ensures
        ({
            let turn = failover::sent(
                rules,
                before,
                SendReply::Headers { status, event_stream },
                elapsed_ms,
            );
            let held = Held {
                status,
                event_stream,
                latency_ms: elapsed_ms as i32,
                retries_left: rules.retry_count,
            };
            exists|chain: Seq<FailoverAttempt>| #[trigger]
                adds_attempt(chain, before, rules.server_id, status, elapsed_ms)
                    && chain.last().detailed == (before.len() == 0) && is_taken(
                    turn,
                    rules,
                    chain,
                    held,
                    elapsed_ms,
                )
        }),
{
    let chain = failover::with_attempt(before, rules.server_id, status, elapsed_ms);
    assert(chain.drop_last() =~= before);
    assert(adds_attempt(chain, before, rules.server_id, status, elapsed_ms));
    let held = Held {
        status,
        event_stream,
        latency_ms: elapsed_ms as i32,
        retries_left: rules.retry_count,
    };
    lemma_answered(rules, chain, held, elapsed_ms);
}

/// The answer that a server gives when it is tried again is recorded with its own status and
/// taken as a first answer is, with the retries that are left; the answer before it is gone.
pub proof fn law_retried_answer_is_taken(
    rules: AttemptRules,
    before: Seq<FailoverAttempt>,
    held: Held,
    status: u16,
    event_stream: bool,
    elapsed_ms: u64,
)
    ensures
        ({
            let turn = failover::retried(
                rules,
                before,
                held,
                SendReply::Headers { status, event_stream },
                elapsed_ms,
            );
            let now = Held {
                status,
                event_stream,
                latency_ms: held.latency_ms,
                retries_left: held.retries_left,
            };
            exists|chain: Seq<FailoverAttempt>| #[trigger]
                adds_attempt(chain, before, rules.server_id, status, elapsed_ms)
                    && !chain.last().detailed && is_taken(turn, rules, chain, now, elapsed_ms)
        }),
{
    let chain = failover::with_later_attempt(before, rules.server_id, status, elapsed_ms);
    assert(chain.drop_last() =~= before);
    assert(adds_attempt(chain, before, rules.server_id, status, elapsed_ms));
    let now = Held {
        status,
        event_stream,
        latency_ms: held.latency_ms,
        retries_left: held.retries_left,
    };
    lemma_answered(rules, chain, now, elapsed_ms);
}

/// A success is never thrown away, be it the first answer of a server or one to a retry: its
/// body is read or its first chunk is awaited, unless the time for that chunk is spent.
pub proof fn law_success_is_not_thrown_away(
    rules: AttemptRules,
    before: Seq<FailoverAttempt>,
    held: Held,
    event_stream: bool,
    elapsed_ms: u64,
)
    requires
        !fails_over(rules, 200),
        !retries(rules, 200, 1),
        event_stream ==> (rules.chunk_limit_ms matches Some(limit) ==> elapsed_ms < limit),
    ensures
        ({
            let reply = SendReply::Headers { status: 200, event_stream };
            let first = failover::sent(rules, before, reply, elapsed_ms);
            let again = failover::retried(rules, before, held, reply, elapsed_ms);
            &&& has_in_hand(first.step, 200, event_stream)
            &&& has_in_hand(again.step, 200, event_stream)
            &&& adds_attempt(first.chain, before, rules.server_id, 200, elapsed_ms)
            &&& adds_attempt(again.chain, before, rules.server_id, 200, elapsed_ms)
            &&& first.effects.len() == 0
            &&& again.effects.len() == 0
            &&& budget_of(first.step) == budget_of(again.step)
        }),
{
    lemma_codes(rules, 200, 1);
    law_first_answer_is_taken(rules, before, 200, event_stream, elapsed_ms);
    law_retried_answer_is_taken(rules, before, held, 200, event_stream, elapsed_ms);
}

/// The answer in hand is read or awaited.
pub open spec fn has_in_hand(step: Step, status: u16, event_stream: bool) -> bool {
    match step {
        Step::ReadBody { held, .. } => !event_stream && held.status == status && !held.event_stream,
        Step::AwaitChunk { held, .. } => event_stream && held.status == status && held.event_stream,
        _ => false,
    }
}

/// The time that a step has.
pub open spec fn budget_of(step: Step) -> Option<u64> {
    match step {
        Step::ReadBody { budget_ms, .. } => budget_ms,
        Step::AwaitChunk { budget_ms, .. } => budget_ms,
        _ => None,
    }
}

/// A retry that gave nothing leaves the attempts as they were, and the answer that was in hand
/// before it is dealt with.
pub proof fn law_failed_retry_keeps_the_answer(
    rules: AttemptRules,
    chain: Seq<FailoverAttempt>,
    held: Held,
    reply: SendReply,
    elapsed_ms: u64,
)
    requires
        reply == SendReply::Failed || reply == SendReply::TimedOut,
    ensures
        is_dealt_with(
            failover::retried(rules, chain, held, reply, elapsed_ms),
            rules,
            chain,
            held,
            elapsed_ms,
        ),
{
    lemma_judged(rules, chain, held, elapsed_ms);
}

/// A latency row of an answer that is no stream, or of the lack of one.
pub open spec fn whole_row(total_ms: Option<i32>, timed_out: bool) -> Effect {
    Effect::Latency(
        LatencyRow {
            ttft_ms: None,
            total_ms,
            timed_out,
            is_streaming: false,
            source: LatencySource::GroupServer,
        },
    )
}

/// A latency row of a stream, or of the lack of one.
pub open spec fn stream_row(ttft_ms: Option<i32>, timed_out: bool) -> Effect {
    Effect::Latency(
        LatencyRow {
            ttft_ms,
            total_ms: None,
            timed_out,
            is_streaming: true,
            source: LatencySource::GroupServer,
        },
    )
}

/// A server that cannot be reached, or that is too slow, counts as down, and the attempt is
/// recorded as one without an answer; only a server that was too slow has a row for that.
pub proof fn law_silent_server_is_down(
    rules: AttemptRules,
    before: Seq<FailoverAttempt>,
    reply: SendReply,
    elapsed_ms: u64,
)
    requires
        reply == SendReply::Failed || reply == SendReply::TimedOut,
    ensures
        ({
            let turn = failover::sent(rules, before, reply, elapsed_ms);
            &&& counts_as_down(turn, rules, elapsed_ms)
            &&& adds_attempt(turn.chain, before, rules.server_id, 0, elapsed_ms)
            &&& turn.effects.contains(whole_row(None, true)) <==> reply == SendReply::TimedOut
        }),
{
    let chain = failover::with_attempt(before, rules.server_id, 0, elapsed_ms);
    assert(chain.drop_last() =~= before);
    let none = Seq::<Effect>::empty();
    let row = seq![whole_row(None, true)];
    lemma_down(rules, chain, none, elapsed_ms);
    lemma_down(rules, chain, row, elapsed_ms);
    assert(row.contains(row[0]));
    let down = seq![Effect::Uptime { status: 0, latency_ms: elapsed_ms as i32 }];
    lemma_contains(none, down);
    lemma_contains(none + down, failover::breaker_error(rules));
}

/// What was answered in time is passed on, with the full time that it took, and billed where
/// the request is; what was not in time counts as down, with the attempt as one without an
/// answer.
pub proof fn law_body_is_passed_on(
    rules: AttemptRules,
    chain: Seq<FailoverAttempt>,
    held: Held,
    in_time: bool,
    elapsed_ms: u64,
)
    ensures
        ({
            let turn = failover::body_read(rules, chain, held, in_time, elapsed_ms);
            if in_time {
                &&& turn.chain == chain
                &&& turn.step == Step::Relay(Answer::Body)
                &&& turn.effects.contains(
                    Effect::Uptime { status: held.status as i16, latency_ms: held.latency_ms },
                )
                &&& turn.effects.contains(whole_row(Some(elapsed_ms as i32), false))
                &&& turn.effects.contains(Effect::RecordUsage) <==> rules.billing
                &&& turn.effects.contains(Effect::ProbeSuccess) <==> rules.probe
                &&& turn.effects.contains(
                    Effect::Log { status: held.status as i16, kind: LogKind::FailoverSuccess },
                ) <==> chain.len() > 1
            } else {
                &&& counts_as_down(turn, rules, elapsed_ms)
                &&& turn.effects.contains(whole_row(None, true))
                &&& turn.chain.len() == chain.len()
                &&& chain.len() > 0 ==> turn.chain.drop_last() == chain.drop_last()
                    && turn.chain.last().status == 0 && turn.chain.last().server_id
                    == chain.last().server_id
            }
        }),
{
    let row = seq![whole_row(None, true)];
    lemma_down(rules, failover::last_failed(chain), row, elapsed_ms);
    assert(row.contains(row[0]));
    if chain.len() > 0 {
        assert(failover::last_failed(chain).drop_last() =~= chain.drop_last());
    }
    let probe = failover::only_if(rules.probe, Effect::ProbeSuccess);
    let rows = seq![
        Effect::Uptime { status: held.status as i16, latency_ms: held.latency_ms },
        whole_row(Some(elapsed_ms as i32), false),
    ];
    let log = failover::success_log(chain, held.status);
    let bill = failover::only_if(rules.billing, Effect::RecordUsage);
    lemma_contains(probe, rows);
    lemma_contains(probe + rows, log);
    lemma_contains(probe + rows + log, bill);
    assert(rows.contains(rows[0]) && rows.contains(rows[1]));
    if rules.probe {
        assert(probe.contains(probe[0]));
    }
    if chain.len() > 1 {
        assert(log.contains(log[0]));
    }
    if rules.billing {
        assert(bill.contains(bill[0]));
    }
}

/// A stream whose first chunk came is passed on, billed on its way where the request is, with
/// the time to that chunk; one that broke or was late counts as down.
pub proof fn law_stream_is_passed_on(
    rules: AttemptRules,
    chain: Seq<FailoverAttempt>,
    held: Held,
    reply: ChunkReply,
    elapsed_ms: u64,
)
    ensures
        ({
            let turn = failover::chunk_awaited(rules, chain, held, reply, elapsed_ms);
            if reply == ChunkReply::Chunk {
                &&& turn.chain == chain
                &&& turn.step == Step::Relay(Answer::Stream { billed: rules.billing })
                &&& turn.effects.contains(
                    Effect::Uptime { status: held.status as i16, latency_ms: held.latency_ms },
                )
                &&& turn.effects.contains(stream_row(Some(elapsed_ms as i32), false))
                &&& turn.effects.contains(Effect::ProbeSuccess) <==> rules.probe
                &&& turn.effects.contains(
                    Effect::Log { status: held.status as i16, kind: LogKind::FailoverSuccess },
                ) <==> chain.len() > 1
            } else {
                &&& counts_as_down(turn, rules, elapsed_ms)
                &&& turn.effects.contains(stream_row(None, reply == ChunkReply::TimedOut))
                &&& turn.chain.len() == chain.len()
                &&& chain.len() > 0 ==> turn.chain.drop_last() == chain.drop_last() && (reply
                    == ChunkReply::TimedOut || rules.chunk_limit_ms is Some ==> turn.chain.last().status
                    == 0)
            }
        }),
{
    let late = seq![stream_row(None, true)];
    let broken = seq![stream_row(None, false)];
    lemma_down(rules, failover::last_failed(chain), late, elapsed_ms);
    lemma_down(rules, failover::last_failed(chain), broken, elapsed_ms);
    lemma_down(rules, chain, broken, elapsed_ms);
    assert(late.contains(late[0]) && broken.contains(broken[0]));
    if chain.len() > 0 {
        assert(failover::last_failed(chain).drop_last() =~= chain.drop_last());
    }
    let probe = failover::only_if(rules.probe, Effect::ProbeSuccess);
    let rows = seq![
        stream_row(Some(elapsed_ms as i32), false),
        Effect::Uptime { status: held.status as i16, latency_ms: held.latency_ms },
    ];
    let log = failover::success_log(chain, held.status);
    lemma_contains(probe, rows);
    lemma_contains(probe + rows, log);
    assert(rows.contains(rows[0]) && rows.contains(rows[1]));
    if rules.probe {
        assert(probe.contains(probe[0]));
    }
    if chain.len() > 1 {
        assert(log.contains(log[0]));
    }
}

/// An error with status 400 that is given up: the next server is tried where 400 is a status
/// for that, and the breaker is told; else the client gets the error, and the operators an
/// alert.
pub open spec fn is_given_up(effects: Seq<Effect>, step: Step, rules: AttemptRules) -> bool {
    if fails_over(rules, 400) {
        step == Step::NextServer && tells_breaker(effects, rules)
    } else {
        &&& step == Step::Relay(Answer::ErrorBody)
        &&& effects.contains(Effect::Log { status: 400, kind: LogKind::UpstreamError })
        &&& effects.contains(Effect::Alert { code: 400 })
        &&& effects.contains(Effect::ProbeRelease) <==> rules.probe
    }
}

proof fn lemma_refused(before: Seq<Effect>, rules: AttemptRules)
    requires
        forall|i: int| 0 <= i < before.len() ==> (#[trigger] before[i] matches Effect::Uptime { .. }),
    ensures
        is_given_up(before + failover::refused(rules).0, failover::refused(rules).1, rules),
{
    lemma_codes(rules, 400, 0);
    lemma_tells(before, rules);
    let rows = seq![
        Effect::Log { status: 400, kind: LogKind::UpstreamError },
        Effect::Alert { code: 400 },
    ];
    let release = failover::only_if(rules.probe, Effect::ProbeRelease);
    lemma_contains(rows, release);
    lemma_contains(before, rows + release);
    assert(rows.contains(rows[0]) && rows.contains(rows[1]));
    if rules.probe {
        assert(release.contains(release[0]));
    }
}

/// An error that was read is given up, unless the request can be sent again without its
/// thinking blocks, which is then done; either way the answer has its uptime row.
pub proof fn law_read_error_leads_on(
    rules: AttemptRules,
    chain: Seq<FailoverAttempt>,
    held: Held,
    can_resend: bool,
)
    ensures
        ({
            let turn = failover::error_read(rules, chain, held, can_resend);
            &&& turn.chain == chain
            &&& turn.effects.contains(
                Effect::Uptime { status: held.status as i16, latency_ms: held.latency_ms },
            )
            &&& if can_resend {
                turn.effects.len() == 1 && turn.step == Step::Resend(held)
            } else {
                is_given_up(turn.effects, turn.step, rules)
            }
        }),
{
    let one = seq![Effect::Uptime { status: held.status as i16, latency_ms: held.latency_ms }];
    assert(one.contains(one[0]));
    lemma_refused(one, rules);
    lemma_contains(one, failover::refused(rules).0);
}

/// A request that was sent again without its thinking blocks: a success is passed on and
/// billed, another error leads on as its status says, and silence gives the first error up.
pub proof fn law_resent_request_leads_on(
    rules: AttemptRules,
    before: Seq<FailoverAttempt>,
    reply: SendReply,
    elapsed_ms: u64,
)
    ensures
        ({
            let turn = failover::resent(rules, before, reply, elapsed_ms);
            match reply {
                SendReply::Headers { status, .. } => {
                    &&& adds_attempt(turn.chain, before, rules.server_id, status, elapsed_ms)
                    &&& if status == 200 {
                        &&& turn.step == Step::Relay(Answer::Billed)
                        &&& turn.effects.contains(
                            Effect::Uptime { status: 200, latency_ms: elapsed_ms as i32 },
                        )
                        &&& turn.effects.contains(Effect::ProbeSuccess) <==> rules.probe
                    } else {
                        &&& turn.effects.contains(Effect::ProbeRelease) <==> rules.probe
                        &&& if fails_over(rules, status) {
                            turn.step == Step::NextServer
                        } else {
                            turn.step == Step::Relay(Answer::PassThrough) && turn.effects.contains(
                                Effect::Log { status: status as i16, kind: LogKind::UpstreamError },
                            )
                        }
                    }
                },
                _ => turn.chain == before && is_given_up(turn.effects, turn.step, rules),
            }
        }),
{
    let none = Seq::<Effect>::empty();
    lemma_refused(none, rules);
    assert(none + failover::refused(rules).0 =~= failover::refused(rules).0);
    if let SendReply::Headers { status, .. } = reply {
        lemma_codes(rules, status, 0);
        let turn = failover::resent(rules, before, reply, elapsed_ms);
        assert(turn.chain.drop_last() =~= before);
        let probe = failover::only_if(rules.probe, Effect::ProbeSuccess);
        let release = failover::only_if(rules.probe, Effect::ProbeRelease);
        let up = Effect::Uptime { status: 200, latency_ms: elapsed_ms as i32 };
        let log = seq![Effect::Log { status: status as i16, kind: LogKind::UpstreamError }];
        assert(probe.push(up) =~= probe + seq![up]);
        lemma_contains(probe, seq![up]);
        lemma_contains(log, release);
        assert(seq![up].contains(seq![up][0]));
        assert(log.contains(log[0]));
        if rules.probe {
            assert(probe.contains(probe[0]) && release.contains(release[0]));
        }
    }
}

/// The server that counts tokens is asked once: a success is passed on, an error is too unless
/// the others are tried on it, and where it is silent the others are tried.
pub proof fn law_count_is_asked_once(
    rules: AttemptRules,
    before: Seq<FailoverAttempt>,
    reply: SendReply,
    elapsed_ms: u64,
)
    ensures
        ({
            let turn = failover::counted(rules, before, reply, elapsed_ms);
            match reply {
                SendReply::Headers { status, .. } => {
                    &&& adds_attempt(turn.chain, before, rules.server_id, status, elapsed_ms)
                    &&& turn.effects.contains(
                        Effect::Uptime { status: status as i16, latency_ms: elapsed_ms as i32 },
                    )
                    &&& if status == 200 || !fails_over(rules, status) {
                        turn.step == Step::Relay(Answer::PassThrough)
                    } else {
                        turn.step == Step::NextServer
                    }
                    &&& status != 200 && !fails_over(rules, status) ==> turn.effects.contains(
                        Effect::Log { status: status as i16, kind: LogKind::UpstreamError },
                    )
                },
                _ => {
                    &&& adds_attempt(turn.chain, before, rules.server_id, 0, elapsed_ms)
                    &&& turn.effects.contains(
                        Effect::Uptime { status: 0, latency_ms: elapsed_ms as i32 },
                    )
                    &&& turn.step == Step::NextServer
                },
            }
        }),
{
    let turn = failover::counted(rules, before, reply, elapsed_ms);
    assert(turn.chain.drop_last() =~= before);
    assert(turn.effects.contains(turn.effects[0]));
    if let SendReply::Headers { status, .. } = reply {
        lemma_codes(rules, status, 0);
        if status != 200 && !fails_over(rules, status) {
            assert(turn.effects.contains(turn.effects[1]));
        }
    }
}

/// A body that is billed outside the usual way is billed where it came in time, with the time
/// it took; else the client is told that the answer timed out.
pub proof fn law_late_body_is_refused(in_time: bool, elapsed_ms: u64)
    ensures
        ({
            let (effects, refusal) = failover::billed_body(in_time, elapsed_ms);
            &&& in_time ==> refusal is None
            &&& !in_time ==> refusal == Some(Refusal::AnswerTimedOut)
            &&& effects.contains(Effect::RecordUsage) <==> in_time
            &&& effects.contains(whole_row(Some(elapsed_ms as i32), false)) <==> in_time
            &&& effects.contains(whole_row(None, true)) <==> !in_time
        }),
{
    let effects = failover::billed_body(in_time, elapsed_ms).0;
    assert(effects.contains(effects[0]));
    if in_time {
        assert(effects.contains(effects[1]));
    }
}

/// The last attempt that gave an answer, from the end.
pub open spec fn answered_last(chain: Seq<FailoverAttempt>, at: int) -> bool {
    &&& 0 <= at < chain.len()
    &&& chain[at].status != 0
    &&& forall|i: int| at < i < chain.len() ==> (#[trigger] chain[i]).status == 0
}

proof fn lemma_last_status(chain: Seq<FailoverAttempt>)
    ensures
        forall|at: int| #[trigger]
            answered_last(chain, at) ==> failover::last_status(chain) == Some(chain[at].status),
        (forall|i: int| 0 <= i < chain.len() ==> (#[trigger] chain[i]).status == 0)
            ==> failover::last_status(chain) is None,
    decreases chain.len(),
{
    if chain.len() > 0 {
        let rest = chain.drop_last();
        lemma_last_status(rest);
        assert(chain.last() == chain[chain.len() - 1]);
        assert forall|at: int| #[trigger] answered_last(chain, at) implies failover::last_status(
            chain,
        ) == Some(chain[at].status) by {
            if at < rest.len() {
                assert(rest[at] == chain[at]);
                assert forall|i: int| at < i < rest.len() implies (#[trigger] rest[i]).status
                    == 0 by {
                    assert(rest[i] == chain[i]);
                }
                assert(answered_last(rest, at));
                assert(chain[chain.len() - 1].status == 0);
            }
        }
        if forall|i: int| 0 <= i < chain.len() ==> (#[trigger] chain[i]).status == 0 {
            assert forall|i: int| 0 <= i < rest.len() implies (#[trigger] rest[i]).status == 0 by {
                assert(rest[i] == chain[i]);
            }
            assert(chain[chain.len() - 1].status == 0);
        }
    }
}

/// When no server is left, the log shows the status of the last attempt that gave an answer,
/// and 429 where none did.
pub proof fn law_log_shows_the_last_answer(
    any_rate_limited: bool,
    billing: bool,
    chain: Seq<FailoverAttempt>,
    at: int,
)
    ensures
        ({
            let (effects, refusal) = failover::ended(true, any_rate_limited, billing, chain);
            &&& refusal == Refusal::Overloaded
            &&& answered_last(chain, at) ==> effects.contains(
                Effect::Log {
                    status: chain[at].status as i16,
                    kind: LogKind::AllServersExhausted,
                },
            )
            &&& (forall|i: int| 0 <= i < chain.len() ==> (#[trigger] chain[i]).status == 0)
                ==> effects.contains(Effect::Log { status: 429, kind: LogKind::ConnectionError })
        }),
{
    lemma_last_status(chain);
    let effects = failover::ended(true, any_rate_limited, billing, chain).0;
    assert(effects.contains(effects[0]));
}

/// A request that no server was tried for is refused for want of one: as rate limited where
/// one was, and nothing is logged.
pub proof fn law_untried_request_is_refused(
    any_rate_limited: bool,
    billing: bool,
    chain: Seq<FailoverAttempt>,
)
    ensures
        ({
            let (effects, refusal) = failover::ended(false, any_rate_limited, billing, chain);
            &&& effects.len() == 0
            &&& any_rate_limited ==> refusal == Refusal::RateLimited
            &&& !any_rate_limited ==> refusal == Refusal::NoServerKeys
        }),
{
}

/// A stream's first chunk is only waited for within a limit where another server is left to
/// try, and then within the limit that is set.
pub proof fn law_last_server_has_all_the_time(ttft_timeout_ms: Option<i32>, position: int, servers: int)
    requires
        0 <= position < servers,
    ensures
        position == servers - 1 ==> failover::chunk_limit(ttft_timeout_ms, position, servers) is None,
        ttft_timeout_ms is None ==> failover::chunk_limit(ttft_timeout_ms, position, servers) is None,
        position < servers - 1 ==> (ttft_timeout_ms matches Some(ms) ==> (ms >= 0
            ==> failover::chunk_limit(ttft_timeout_ms, position, servers) == Some(ms as u64))),
{
}

/// What is left of a time limit is the limit less the time that went by, and never less than
/// nothing; a limit that is not positive is none.
pub proof fn law_time_is_what_is_left(limit_ms: Option<i32>, elapsed_ms: u64)
    ensures
        is_left(limits::time_left(limit_ms, elapsed_ms), limit_ms, elapsed_ms),
{
}

} // verus!
