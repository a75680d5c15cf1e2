//! What holds of the choice of a server: its limits, hours, address and headers, and the walk
//! from one to the next.

use vstd::prelude::*;

use crate::json::Tree;
use crate::proxy::failover::{SendReply, Step};
use crate::proxy::headers;
use crate::proxy::hours;
use crate::proxy::limits;
use crate::proxy::rows;
use crate::proxy::rows::{LatencySource, LogKind};
use crate::proxy::servers;
use crate::proxy::servers::{Caller, Gate, Query, Server};
use crate::proxy::side;
use crate::proxy::side::{SideStep, UserEndpoint};
use crate::proxy::waterfall;
use crate::proxy::waterfall::{Progress, Task, Walk};
use crate::text;
use crate::translate::ClientProtocol;

verus! {

/// A request is too large for a server above its upper limit and too small below its lower
/// one; on a limit, and where its size is not known, it fits.
pub proof fn law_sizes_are_kept_to(server: Server, tokens: usize)
    requires
        server.max_input_tokens matches Some(limit) ==> limit >= 0,
        server.min_input_tokens matches Some(limit) ==> limit >= 0,
    ensures
        servers::fits(server, None),
        servers::fits(server, Some(tokens)) <==> !(server.max_input_tokens matches Some(limit)
            && tokens > limit) && !(server.min_input_tokens matches Some(limit) && tokens < limit),
{
}

/// A server that lists no models takes all; one with a list takes those on it and those that
/// it maps to others, and no more. A request without a model goes to any server.
pub proof fn law_models_are_kept_to(server: Server, model: Seq<char>, i: int)
    ensures
        servers::supports(server, None),
        server.supported_models@.len() == 0 ==> servers::supports(server, Some(model)),
        0 <= i < server.supported_models@.len() ==> servers::supports(
            server,
            Some(server.supported_models@[i]@),
        ),
        server.model_mappings@.get(model) is Some ==> servers::supports(server, Some(model)),
        server.supported_models@.len() > 0 && server.model_mappings@.get(model) is None && (forall|
            j: int,
        |
            0 <= j < server.supported_models@.len() ==> (#[trigger] server.supported_models@[j])@
                != model) ==> !servers::supports(server, Some(model)),
{
}

/// A key that the request brought along for a server goes before the server's own; of several
/// the first counts, and one for another server never does.
pub proof fn law_brought_keys_come_first(
    keys: Seq<(i32, String)>,
    short_id: i32,
    own: Option<Seq<char>>,
    i: int,
)
    ensures
        0 <= i < keys.len() && keys[i].0 == short_id && (forall|j: int|
            0 <= j < i ==> (#[trigger] keys[j]).0 != short_id) ==> servers::key_for(
            keys,
            short_id,
            own,
        ) == Some(keys[i].1@),
        (forall|j: int| 0 <= j < keys.len() ==> (#[trigger] keys[j]).0 != short_id)
            ==> servers::key_for(keys, short_id, own) == own,
    decreases keys.len(),
{
    if keys.len() > 0 {
        let rest = keys.skip(1);
        law_brought_keys_come_first(rest, short_id, own, i - 1);
        if 0 < i < keys.len() && keys[i].0 == short_id && (forall|j: int|
            0 <= j < i ==> (#[trigger] keys[j]).0 != short_id) {
            assert(keys[0].0 != short_id);
            assert(rest[i - 1] == keys[i]);
            assert forall|j: int| 0 <= j < i - 1 implies (#[trigger] rest[j]).0 != short_id by {
                assert(keys[j + 1].0 != short_id);
            }
        }
        if forall|j: int| 0 <= j < keys.len() ==> (#[trigger] keys[j]).0 != short_id {
            assert(keys[0].0 != short_id);
            assert forall|j: int| 0 <= j < rest.len() implies (#[trigger] rest[j]).0 != short_id by {
                assert(keys[j + 1].0 != short_id);
            }
        }
    }
}

/// A request limit takes both a number and a window; that of a sub-key also a sub-key, which
/// it is asked for. The numbers asked about are the server's own.
pub proof fn law_request_limits_are_complete(server: Server, caller: Caller, n: i32, key_id: u128)
    ensures
        servers::server_rate(server) == Some(n) <==> server.max_requests == Some(n)
            && server.rate_window_seconds is Some,
        servers::key_rate(server, caller) == Some((key_id, n)) <==> server.per_key_max_requests
            == Some(n) && server.per_key_rate_window_seconds is Some && caller.group_key_id == Some(
            key_id,
        ),
        servers::gate_start(server, caller) == Gate::Ask(Query::ServerRate { max_requests: n })
            ==> server.max_requests == Some(n),
        servers::gate_start(server, caller) == Gate::Ask(
            Query::KeyRate { key_id, max_requests: n },
        ) ==> server.per_key_max_requests == Some(n) && caller.group_key_id == Some(key_id),
{
}

/// A server that was asked before, or for which there is no key, is passed over.
pub proof fn law_keyless_servers_are_passed_over(server: Server, caller: Caller)
    ensures
        caller.asked_before == Some(server.server_id) ==> servers::gate_start(server, caller)
            == (Gate::Skip { rate_limited: false }),
        server.api_key is None && (forall|j: int|
            0 <= j < caller.dynamic_keys@.len() ==> (#[trigger] caller.dynamic_keys@[j]).0
                != server.short_id) ==> servers::gate_start(server, caller) == (Gate::Skip {
            rate_limited: false,
        }),
{
    law_brought_keys_come_first(caller.dynamic_keys@, server.short_id, None, 0);
}

/// Only a positive time limit counts.
pub proof fn law_limits_are_positive(ms: Option<i32>, n: i32)
    ensures
        limits::set_limit(ms) == Some(n) <==> ms == Some(n) && n > 0,
{
}

/// A setting is the cached one, whatever is stored; then the stored one; then the default.
pub proof fn law_cached_settings_come_first<T>(a: T, b: T, stored: Option<T>)
    ensures
        limits::setting_of(Some(a), stored, b) == a,
        limits::setting_of(None, Some(a), b) == a,
        limits::setting_of(None, None, a) == a,
{
}

/// The number under a key of the answer's usage.
pub open spec fn used(doc: Tree, key: Seq<char>) -> Option<Tree> {
    match doc.get("usage"@) {
        Some(usage) => usage.get(key),
        None => None,
    }
}

/// The count is the number, where there is one and it is a small one.
pub open spec fn counts(count: Option<i32>, number: Option<Tree>) -> bool {
    match number {
        Some(Tree::Int(n)) => i32::MIN <= n <= i32::MAX ==> (count matches Some(c) && c == n),
        _ => count is None,
    }
}

/// An answer is billed by its own numbers, each for what it counts; it is not billed at all
/// where it does not say how much went in or how much came out.
pub proof fn law_usage_is_the_answers(doc: Tree)
    ensures
        !(used(doc, "input_tokens"@) matches Some(Tree::Int(n))) || !(used(
            doc,
            "output_tokens"@,
        ) matches Some(Tree::Int(n))) ==> limits::usage_tokens(doc) is None,
        (used(doc, "input_tokens"@) matches Some(Tree::Int(n)) && i64::MIN <= n <= i64::MAX) && (
        used(doc, "output_tokens"@) matches Some(Tree::Int(n)) && i64::MIN <= n <= i64::MAX)
            ==> limits::usage_tokens(doc) is Some,
        limits::usage_tokens(doc) matches Some(usage) ==> counts(
            Some(usage.input_tokens),
            used(doc, "input_tokens"@),
        ) && counts(Some(usage.output_tokens), used(doc, "output_tokens"@)) && counts(
            usage.cache_creation_tokens,
            used(doc, "cache_creation_input_tokens"@),
        ) && counts(usage.cache_read_tokens, used(doc, "cache_read_input_tokens"@)),
{
}

/// Slashes at the end of a base address do not matter, however many there are.
pub proof fn law_end_slashes_do_not_matter(base: Seq<char>)
    ensures
        text::without_end_slashes(base.push('/')) == text::without_end_slashes(base),
        base.len() == 0 || base.last() != '/' ==> text::without_end_slashes(base) == base,
{
    assert(base.push('/').drop_last() =~= base);
}

/// A request goes to the path that it came with, and with its query; one that was put into
/// another protocol goes to the messages of the server, without the client's query. No slash
/// is doubled.
pub proof fn law_requests_go_to_their_path(
    base: Seq<char>,
    path: Seq<char>,
    query: Seq<char>,
)
    requires
        base.len() > 0 ==> base.last() != '/',
    ensures
        limits::upstream_url(ClientProtocol::Anthropic, base, path, None) == base + path,
        limits::upstream_url(ClientProtocol::Anthropic, base, path, Some(query)) == base + path
            + "?"@ + query,
        forall|protocol: ClientProtocol, asked: Option<Seq<char>>|
            protocol != ClientProtocol::Anthropic ==> #[trigger] limits::upstream_url(
                protocol,
                base,
                path,
                asked,
            ) == base + "/v1/messages"@,
        forall|protocol: ClientProtocol, asked: Option<Seq<char>>| #[trigger]
            limits::upstream_url(protocol, base.push('/'), path, asked) == limits::upstream_url(
                protocol,
                base,
                path,
                asked,
            ),
{
    law_end_slashes_do_not_matter(base);
}

/// A custom header that is sent stands in the custom headers, with the text given there; no
/// two texts are sent under one name; and a name that one member stands for is sent.
pub proof fn law_custom_headers_are_sent(
    m: Map<Seq<char>, Tree>,
    name: Seq<char>,
    one: Seq<char>,
    other: Seq<char>,
    key: Seq<char>,
)
    ensures
        headers::sends_header(Some(Tree::Obj(m)), name, one) ==> exists|k: Seq<char>| #[trigger]
            m.dom().contains(k) && m[k] == Tree::Str(one) && headers::header_name(
                vstd::utf8::encode_utf8(k),
            ) == Some(name),
        m.dom().contains(key) && m[key] == Tree::Str(one) && headers::header_name(
            vstd::utf8::encode_utf8(key),
        ) == Some(name) && headers::is_header_value(one) && (forall|k: Seq<char>| #[trigger]
            m.dom().contains(k) && k != key ==> headers::header_name(vstd::utf8::encode_utf8(k))
                != Some(name)) ==> headers::sends_header(Some(Tree::Obj(m)), name, one),
        headers::sends_header(Some(Tree::Obj(m)), name, one) && headers::sends_header(
            Some(Tree::Obj(m)),
            name,
            other,
        ) ==> one == other,
        !headers::sends_header(None, name, one),
{
    if headers::sends_header(Some(Tree::Obj(m)), name, one) && headers::sends_header(
        Some(Tree::Obj(m)),
        name,
        other,
    ) {
        let k = choose|k: Seq<char>| #[trigger]
            headers::is_last(m, k, name) && headers::header_of(k, m[k]) == Some((name, one));
        let l = choose|k: Seq<char>| #[trigger]
            headers::is_last(m, k, name) && headers::header_of(k, m[k]) == Some((name, other));
        assert(headers::names_header(m, k, name) && headers::names_header(m, l, name));
        text::lemma_before_once(k, l);
    }
    if headers::sends_header(Some(Tree::Obj(m)), name, one) {
        let k = choose|k: Seq<char>| #[trigger]
            headers::is_last(m, k, name) && headers::header_of(k, m[k]) == Some((name, one));
        assert(m.dom().contains(k));
    }
    if m.dom().contains(key) && m[key] == Tree::Str(one) && headers::header_name(
        vstd::utf8::encode_utf8(key),
    ) == Some(name) && headers::is_header_value(one) && (forall|k: Seq<char>| #[trigger]
        m.dom().contains(k) && k != key ==> headers::header_name(vstd::utf8::encode_utf8(k))
            != Some(name)) {
        assert(headers::is_last(m, key, name));
    }
}

/// A time of day is written with two digits for the hour, a colon and two for the minute;
/// every such writing of a time is read as that time, and nothing else is.
pub proof fn law_times_are_read_as_written(h: nat, m: nat, s: Seq<u8>)
    ensures
        h < 24 && m < 60 ==> hours::time_of_day(
            seq![
                (48 + h / 10) as u8,
                (48 + h % 10) as u8,
                58u8,
                (48 + m / 10) as u8,
                (48 + m % 10) as u8,
            ],
        ) == Some((h, m)),
        hours::time_of_day(s) matches Some(time) ==> time.0 < 24 && time.1 < 60 && s == seq![
            (48 + time.0 / 10) as u8,
            (48 + time.0 % 10) as u8,
            58u8,
            (48 + time.1 / 10) as u8,
            (48 + time.1 % 10) as u8,
        ],
{
    if let Some(time) = hours::time_of_day(s) {
        assert(s =~= seq![
            (48 + time.0 / 10) as u8,
            (48 + time.0 % 10) as u8,
            58u8,
            (48 + time.1 / 10) as u8,
            (48 + time.1 % 10) as u8,
        ]);
    }
}

/// A window within a day is open between its ends, and on them; so is one over midnight.
pub proof fn law_windows_hold_their_ends(start: nat, end: nat, now: nat)
    ensures
        hours::in_window(start, end, start),
        hours::in_window(start, end, end),
        start <= end ==> (hours::in_window(start, end, now) <==> !(now < start) && !(now > end)),
        hours::minutes((start, end)) == 60 * start + end,
{
}

/// The times of a stream and of a whole answer do not stand in one row, and a row says what
/// it is of. No two sources, and no two kinds of log row, share a name.
pub proof fn law_rows_say_what_they_are(ms: Option<i32>, late: bool, source: LatencySource)
    ensures
        ({
            let row = rows::ttft(ms, late);
            row.is_streaming && row.ttft_ms == ms && row.total_ms is None && row.timed_out == late
                && row.source == LatencySource::GroupServer
        }),
        ({
            let row = rows::non_stream(ms, late, source);
            !row.is_streaming && row.total_ms == ms && row.ttft_ms is None && row.timed_out == late
                && row.source == source
        }),
        source.name() == "bonus"@ <==> source == LatencySource::Bonus,
        source.name() == "user_endpoint"@ <==> source == LatencySource::UserEndpoint,
        source.name() == "group_server"@ <==> source == LatencySource::GroupServer,
{
    reveal_strlit("bonus");
    reveal_strlit("user_endpoint");
    reveal_strlit("group_server");
    assert("bonus"@.len() == 5 && "user_endpoint"@.len() == 13 && "group_server"@.len() == 12);
}

/// A kind of log row is told by its name.
pub proof fn law_log_rows_are_told_apart(kind: LogKind)
    ensures
        kind.name() == "failover_success"@ <==> kind == LogKind::FailoverSuccess,
        kind.name() == "upstream_error"@ <==> kind == LogKind::UpstreamError,
        kind.name() == "connection_error"@ <==> kind == LogKind::ConnectionError,
        kind.name() == "all_servers_exhausted"@ <==> kind == LogKind::AllServersExhausted,
{
    reveal_strlit("failover_success");
    reveal_strlit("upstream_error");
    reveal_strlit("connection_error");
    reveal_strlit("all_servers_exhausted");
    assert("failover_success"@.len() == 16 && "upstream_error"@.len() == 14
        && "connection_error"@.len() == 16 && "all_servers_exhausted"@.len() == 21);
    assert("failover_success"@[0] != "connection_error"@[0]);
}

/// An endpoint is tried in the mode that it is stored with, and only for models that it
/// takes.
pub proof fn law_endpoints_have_one_mode(endpoint: UserEndpoint, mode: Seq<char>, other: Seq<char>)
    ensures
        side::in_mode(endpoint, mode) && side::in_mode(endpoint, other) ==> mode == other,
        side::in_mode(endpoint, endpoint.priority_mode@) <==> endpoint.accepts_model,
{
}

/// A bonus server, or an endpoint of the client's, answers the client exactly where it
/// succeeds: its stream is passed on as it comes, and its body is read in what is left of the
/// time. Everything else leads to the next; only a bonus server that is late is written down,
/// as late.
pub proof fn law_side_servers_answer_with_success(
    source: LatencySource,
    reply: SendReply,
    timeout_ms: Option<i32>,
    elapsed_ms: u64,
)
    ensures
        ({
            let step = side::side_sent(source, reply, timeout_ms, elapsed_ms);
            match reply {
                SendReply::Headers { status, event_stream } => if 200 <= status < 300 {
                    if event_stream {
                        step is Stream
                    } else {
                        step matches SideStep::ReadBody { budget_ms } && (match timeout_ms {
                            Some(ms) if ms > 0 => budget_ms matches Some(left) && left + (
                            if elapsed_ms < ms {
                                elapsed_ms as int
                            } else {
                                ms as int
                            }) == ms,
                            _ => budget_ms is None,
                        })
                    }
                } else {
                    step == (SideStep::TryNext { row: None })
                },
                SendReply::TimedOut => step matches SideStep::TryNext { row } && match row {
                    Some(row) => source == LatencySource::Bonus && row.timed_out && row.source
                        == source && !row.is_streaming && row.total_ms is None && row.ttft_ms is None,
                    None => source != LatencySource::Bonus,
                },
                SendReply::Failed => step == (SideStep::TryNext { row: None }),
            }
        }),
{
}

/// The walk remembers that it tried a server, and that it passed one over for a request limit,
/// and forgets neither. It sends the request only to the server in hand, as was decided of it.
pub proof fn law_walk_remembers(walk: Walk, p: Progress, gate: Gate)
    requires
        0 <= p.position < walk.servers@.len(),
    ensures
        ({
            let turnout = waterfall::at_gate(walk, p, gate);
            &&& p.attempted ==> turnout.progress.attempted
            &&& p.rate_limited ==> turnout.progress.rate_limited
            &&& gate == (Gate::Skip { rate_limited: true }) ==> turnout.progress.rate_limited
            &&& turnout.progress.attempted ==> p.attempted || turnout.task is Send
            &&& turnout.task is Send ==> turnout.progress.attempted
            &&& gate matches Gate::Try { probe } ==> turnout.task == (Task::Send { probe })
                && turnout.progress.position == p.position
            &&& gate matches Gate::Ask(query) ==> turnout.task == Task::Ask(query)
                && turnout.progress == p
            &&& gate is Skip ==> turnout.progress.position > p.position
        }),
    decreases walk.servers@.len() - p.position,
{
    if let Gate::Skip { rate_limited } = gate {
        let next = Progress {
            position: p.position + 1,
            rate_limited: p.rate_limited || rate_limited,
            ..p
        };
        if next.position < walk.servers@.len() {
            law_walk_remembers(
                walk,
                next,
                servers::gate_start(walk.servers@[next.position], *walk.caller),
            );
        }
    }
}

/// A server that has answered ends the walk: the answer is passed on as it is, and no other
/// server is asked. Any other step than the next server is taken with the server in hand.
pub proof fn law_answers_end_the_walk(walk: Walk, p: Progress, step: Step)
    ensures
        step matches Step::Relay(answer) ==> waterfall::at_step(walk, p, step).task == Task::Relay(
            answer,
        ),
        !(step is NextServer) ==> waterfall::at_step(walk, p, step).progress == p,
        !(step is NextServer) && !(step is Relay) ==> waterfall::at_step(walk, p, step).task
            == Task::Go(step),
        walk.servers@.len() == 0 ==> waterfall::at_start(walk, p).task is Refuse,
        walk.servers@.len() > 0 ==> waterfall::at_start(walk, p) == waterfall::at_gate(
            walk,
            p,
            servers::gate_start(walk.servers@[0], *walk.caller),
        ),
{
}

/// Before anything is configured, an answer that is no stream is waited for ten minutes; the
/// headers of a client's own endpoint for half a minute, whatever is configured.
pub proof fn law_waits_are_bounded(stored: Option<Option<i32>>)
    ensures
        limits::setting_of(None, None, Some(limits::SEEDED_NON_STREAM_TIMEOUT_MS)) == Some(
            600_000i32,
        ),
        stored matches Some(value) ==> limits::setting_of(
            None,
            stored,
            Some(limits::SEEDED_NON_STREAM_TIMEOUT_MS),
        ) == value,
        2 * side::HEADER_TIMEOUT_SECS == 60,
{
}

} // verus!
