use viber_router::circuit_breaker::{Access, TripRule};
use viber_router::json::Json;
use viber_router::proxy::failover::{
    after_billed_body, after_billed_headers, after_body, after_count_tokens, after_error_body,
    after_first_chunk, after_last_server, after_resend, after_retry, after_send, chunk_limit_ms,
    last_server, send_budget_ms, Answer, AttemptRules, Breaker, ChunkReply, Decision,
    FailoverAttempt, Held, SendReply, Step,
};
use viber_router::proxy::hours::ActiveHours;
use viber_router::proxy::refusal::Refusal;
use viber_router::proxy::rows::{
    non_stream_row, ttft_row, Effect, LatencySource, LogKind,
};
use viber_router::proxy::servers::{
    after_access, after_query, billed_key, counters, resolve_key, start_gate, supports_model,
    Caller, Gate, Query, Retry, Server,
};
use viber_router::proxy::waterfall::{Task, Walk, Waterfall};

const BREAKER: Breaker = Breaker { max_failures: 3, window_seconds: 60, cooldown_seconds: 30 };

fn rules() -> AttemptRules {
    AttemptRules {
        server_id: 7,
        billing: true,
        breaker: None,
        probe: false,
        wants_stream: false,
        timeout_ms: Some(1000),
        chunk_limit_ms: None,
        failover_codes: vec![429, 500, 502, 503],
        retry_codes: vec![],
        retry_count: 0,
    }
}

fn probing() -> AttemptRules {
    AttemptRules { breaker: Some(BREAKER), probe: true, ..rules() }
}

fn error_of(rules: &AttemptRules) -> Effect {
    Effect::RecordError(TripRule {
        max_failures: 3,
        window_seconds: 60,
        cooldown_seconds: 30,
        was_probe: rules.probe,
    })
}

fn headers(status: u16) -> SendReply {
    SendReply::Headers { status, event_stream: false }
}

fn held(status: u16) -> Held {
    Held { status, event_stream: false, latency_ms: 20, retries_left: 0 }
}

fn attempt(status: u16, latency_ms: i32, detailed: bool) -> FailoverAttempt {
    FailoverAttempt { server_id: 7, status, latency_ms, detailed }
}

fn settlings(decision: &Decision) -> usize {
    decision
        .effects
        .iter()
        .filter(|e| match e {
            Effect::ProbeSuccess | Effect::ProbeRelease => true,
            Effect::RecordError(rule) => rule.was_probe,
            _ => false,
        })
        .count()
}

#[test]
fn a_failed_connection_tries_the_next_server() {
    let rules = AttemptRules { breaker: Some(BREAKER), ..rules() };
    let mut chain = vec![];
    let d = after_send(&rules, &mut chain, SendReply::Failed, 12);
    assert_eq!(d.step, Step::NextServer);
    assert_eq!(d.effects, vec![Effect::Uptime { status: 0, latency_ms: 12 }, error_of(&rules)]);
    assert_eq!(chain, vec![attempt(0, 12, true)]);
}

#[test]
fn a_late_server_leaves_a_latency_row() {
    let mut chain = vec![];
    let d = after_send(&rules(), &mut chain, SendReply::TimedOut, 1000);
    assert_eq!(
        d.effects,
        vec![
            Effect::Latency(non_stream_row(None, true, LatencySource::GroupServer)),
            Effect::Uptime { status: 0, latency_ms: 1000 },
        ]
    );
    assert_eq!(d.step, Step::NextServer);
}

#[test]
fn a_failover_status_tries_the_next_server() {
    let mut chain = vec![];
    let d = after_send(&rules(), &mut chain, headers(503), 20);
    assert_eq!(d.step, Step::NextServer);
    assert_eq!(d.effects, vec![Effect::Uptime { status: 503, latency_ms: 20 }]);
    assert_eq!(chain, vec![attempt(503, 20, true)]);
}

#[test]
fn another_error_is_passed_on() {
    let mut chain = vec![];
    let d = after_send(&probing(), &mut chain, headers(404), 20);
    assert_eq!(d.step, Step::Relay(Answer::PassThrough));
    assert_eq!(
        d.effects,
        vec![
            Effect::Uptime { status: 404, latency_ms: 20 },
            Effect::Log { status: 404, kind: LogKind::UpstreamError },
            Effect::Alert { code: 404 },
            Effect::ProbeRelease,
        ]
    );
}

#[test]
fn an_error_that_is_not_billed_raises_no_alert() {
    let rules = AttemptRules { billing: false, ..rules() };
    let d = after_send(&rules, &mut vec![], headers(400), 20);
    assert_eq!(d.step, Step::Relay(Answer::PassThrough));
    assert_eq!(d.effects.len(), 2);
}

#[test]
fn a_success_is_read_within_what_is_left_of_the_limit() {
    let d = after_send(&rules(), &mut vec![], headers(200), 400);
    assert_eq!(
        d.step,
        Step::ReadBody {
            held: Held { status: 200, event_stream: false, latency_ms: 400, retries_left: 0 },
            budget_ms: Some(600),
        }
    );
    assert!(d.effects.is_empty());
}

#[test]
fn retries_are_counted_down() {
    let rules = AttemptRules { retry_codes: vec![529], retry_count: 2, ..rules() };
    let mut chain = vec![];
    let first = after_send(&rules, &mut chain, headers(529), 20);
    let Step::Retry(one) = first.step else { panic!("no retry") };
    assert_eq!(one.retries_left, 1);
    let second = after_retry(&rules, &mut chain, one, headers(529), 40);
    let Step::Retry(two) = second.step else { panic!("no retry") };
    assert_eq!(two.retries_left, 0);
    let third = after_retry(&rules, &mut chain, two, headers(529), 60);
    assert_eq!(third.step, Step::Relay(Answer::PassThrough));
    assert_eq!(
        chain,
        vec![attempt(529, 20, true), attempt(529, 40, false), attempt(529, 60, false)]
    );
}

#[test]
fn a_failed_retry_keeps_the_answer_in_hand() {
    let rules = AttemptRules { retry_codes: vec![503], retry_count: 1, ..rules() };
    let mut chain = vec![];
    let first = after_send(&rules, &mut chain, headers(503), 20);
    let Step::Retry(held) = first.step else { panic!("no retry") };
    let d = after_retry(&rules, &mut chain, held, SendReply::Failed, 50);
    assert_eq!(d.step, Step::NextServer);
    assert_eq!(d.effects, vec![Effect::Uptime { status: 503, latency_ms: 20 }]);
    assert_eq!(chain.len(), 1);
}

#[test]
fn a_400_is_read_before_it_is_judged() {
    let d = after_send(&rules(), &mut vec![], headers(400), 20);
    assert_eq!(d.step, Step::ReadError(held(400)));
}

#[test]
fn a_signature_error_is_sent_again() {
    let d = after_error_body(&rules(), &vec![], held(400), true);
    assert_eq!(d.step, Step::Resend(held(400)));
    assert_eq!(d.effects, vec![Effect::Uptime { status: 400, latency_ms: 20 }]);
}

#[test]
fn another_400_is_passed_on_with_an_alert() {
    let d = after_error_body(&probing(), &vec![], held(400), false);
    assert_eq!(d.step, Step::Relay(Answer::ErrorBody));
    assert_eq!(
        d.effects,
        vec![
            Effect::Uptime { status: 400, latency_ms: 20 },
            Effect::Log { status: 400, kind: LogKind::UpstreamError },
            Effect::Alert { code: 400 },
            Effect::ProbeRelease,
        ]
    );
}

#[test]
fn a_400_may_be_a_failover_status() {
    let rules = AttemptRules { failover_codes: vec![400], ..probing() };
    let d = after_error_body(&rules, &vec![], held(400), false);
    assert_eq!(d.step, Step::NextServer);
    assert_eq!(d.effects[1], error_of(&rules));
}

#[test]
fn a_success_without_thinking_blocks_is_billed() {
    let mut chain = vec![attempt(400, 20, true)];
    let d = after_resend(&probing(), &mut chain, headers(200), 50);
    assert_eq!(d.step, Step::Relay(Answer::Billed));
    assert_eq!(
        d.effects,
        vec![Effect::ProbeSuccess, Effect::Uptime { status: 200, latency_ms: 50 }]
    );
    assert_eq!(chain[1], attempt(200, 50, false));
}

#[test]
fn a_second_failure_without_thinking_blocks_is_judged() {
    let d = after_resend(&probing(), &mut vec![], headers(503), 50);
    assert_eq!((d.step, d.effects), (Step::NextServer, vec![Effect::ProbeRelease]));
    let d = after_resend(&probing(), &mut vec![], headers(404), 50);
    assert_eq!(d.step, Step::Relay(Answer::PassThrough));
    let d = after_resend(&probing(), &mut vec![], SendReply::Failed, 50);
    assert_eq!(d.step, Step::Relay(Answer::ErrorBody));
}

#[test]
fn billed_answers_are_streamed_or_read() {
    assert_eq!(after_billed_headers(&rules(), true, 10), None);
    assert_eq!(after_billed_headers(&rules(), false, 10), Some(Some(990)));
    let (effects, refusal) = after_billed_body(true, 90);
    assert_eq!(refusal, None);
    assert_eq!(
        effects,
        vec![
            Effect::Latency(non_stream_row(Some(90), false, LatencySource::GroupServer)),
            Effect::RecordUsage,
        ]
    );
    let (effects, refusal) = after_billed_body(false, 1000);
    assert_eq!(refusal, Some(Refusal::AnswerTimedOut));
    assert_eq!(effects.len(), 1);
}

#[test]
fn a_body_in_time_is_the_answer() {
    let mut chain = vec![attempt(503, 5, true), attempt(200, 20, false)];
    let d = after_body(&probing(), &mut chain, held(200), true, 300);
    assert_eq!(d.step, Step::Relay(Answer::Body));
    assert_eq!(
        d.effects,
        vec![
            Effect::ProbeSuccess,
            Effect::Uptime { status: 200, latency_ms: 20 },
            Effect::Latency(non_stream_row(Some(300), false, LatencySource::GroupServer)),
            Effect::Log { status: 200, kind: LogKind::FailoverSuccess },
            Effect::RecordUsage,
        ]
    );
}

#[test]
fn a_late_body_counts_as_no_answer() {
    let mut chain = vec![attempt(200, 20, true)];
    let d = after_body(&rules(), &mut chain, held(200), false, 1000);
    assert_eq!(d.step, Step::NextServer);
    assert_eq!(chain, vec![attempt(0, 20, true)]);
}

#[test]
fn a_stream_starts_with_its_first_chunk() {
    let rules = AttemptRules { chunk_limit_ms: Some(500), ..rules() };
    let stream = SendReply::Headers { status: 200, event_stream: true };
    let mut chain = vec![];
    let d = after_send(&rules, &mut chain, stream, 100);
    let Step::AwaitChunk { held, budget_ms } = d.step else { panic!("no stream") };
    assert_eq!(budget_ms, Some(400));
    let d = after_first_chunk(&rules, &mut chain, held, ChunkReply::Chunk, 250);
    assert_eq!(d.step, Step::Relay(Answer::Stream { billed: true }));
    assert_eq!(
        d.effects,
        vec![
            Effect::Latency(ttft_row(Some(250), false)),
            Effect::Uptime { status: 200, latency_ms: 100 },
        ]
    );
}

#[test]
fn a_late_first_chunk_tries_the_next_server() {
    let rules = AttemptRules { chunk_limit_ms: Some(500), ..rules() };
    let stream = SendReply::Headers { status: 200, event_stream: true };
    let mut chain = vec![];
    let d = after_send(&rules, &mut chain, stream, 500);
    assert_eq!(d.step, Step::NextServer);
    assert_eq!(d.effects[0], Effect::Latency(ttft_row(None, true)));
    assert_eq!(chain[0].status, 0);
    let mut chain = vec![attempt(200, 20, true)];
    let d = after_first_chunk(&rules, &mut chain, held(200), ChunkReply::TimedOut, 500);
    assert_eq!(d.step, Step::NextServer);
    assert_eq!(chain[0].status, 0);
}

#[test]
fn a_stream_that_breaks_early_tries_the_next_server() {
    let timed = AttemptRules { chunk_limit_ms: Some(500), ..rules() };
    let mut chain = vec![attempt(200, 20, true)];
    let d = after_first_chunk(&timed, &mut chain, held(200), ChunkReply::Broken, 30);
    assert_eq!(d.step, Step::NextServer);
    assert_eq!(d.effects[0], Effect::Latency(ttft_row(None, false)));
    assert_eq!(chain[0].status, 0);
    let mut chain = vec![attempt(200, 20, true)];
    let d = after_first_chunk(&rules(), &mut chain, held(200), ChunkReply::Broken, 30);
    assert_eq!(d.step, Step::NextServer);
    assert_eq!(chain[0].status, 200);
}

#[test]
fn every_end_of_a_probe_settles_it_once() {
    let rules = AttemptRules { chunk_limit_ms: Some(500), ..probing() };
    let replies = [SendReply::Failed, SendReply::TimedOut, headers(503), headers(404)];
    for reply in replies {
        assert_eq!(settlings(&after_send(&rules, &mut vec![], reply, 5)), 1);
        assert_eq!(settlings(&after_resend(&rules, &mut vec![], reply, 5)), 1);
    }
    for in_time in [true, false] {
        assert_eq!(settlings(&after_body(&rules, &mut vec![], held(200), in_time, 5)), 1);
    }
    for reply in [ChunkReply::Chunk, ChunkReply::Broken, ChunkReply::TimedOut] {
        assert_eq!(settlings(&after_first_chunk(&rules, &mut vec![], held(200), reply, 5)), 1);
    }
    assert_eq!(settlings(&after_error_body(&rules, &vec![], held(400), false)), 1);
    assert_eq!(settlings(&after_error_body(&rules, &vec![], held(400), true)), 0);
    assert_eq!(settlings(&after_send(&rules, &mut vec![], headers(200), 5)), 0);
}

#[test]
fn the_send_budget_is_for_answers_that_are_no_stream() {
    assert_eq!(send_budget_ms(&rules()), Some(1000));
    assert_eq!(send_budget_ms(&AttemptRules { wants_stream: true, ..rules() }), None);
}

#[test]
fn the_last_server_is_waited_for() {
    assert_eq!(chunk_limit_ms(Some(500), 0, 2), Some(500));
    assert_eq!(chunk_limit_ms(Some(500), 1, 2), None);
    assert_eq!(chunk_limit_ms(Some(500), 0, 1), None);
    assert_eq!(chunk_limit_ms(None, 0, 2), None);
}

#[test]
fn the_count_tokens_server_comes_first() {
    let mut chain = vec![];
    let d = after_count_tokens(&rules(), &mut chain, headers(200), 9);
    assert_eq!(d.step, Step::Relay(Answer::PassThrough));
    assert_eq!(d.effects, vec![Effect::Uptime { status: 200, latency_ms: 9 }]);
    let d = after_count_tokens(&rules(), &mut vec![], headers(404), 9);
    assert_eq!(d.step, Step::Relay(Answer::PassThrough));
    assert_eq!(d.effects[1], Effect::Log { status: 404, kind: LogKind::UpstreamError });
    let d = after_count_tokens(&rules(), &mut vec![], headers(500), 9);
    assert_eq!(d.step, Step::NextServer);
    let mut chain = vec![];
    let d = after_count_tokens(&rules(), &mut chain, SendReply::Failed, 9);
    assert_eq!(d.step, Step::NextServer);
    assert_eq!(chain[0].status, 0);
}

#[test]
fn the_end_is_logged_with_the_last_status() {
    let chain = vec![attempt(503, 1, true), attempt(429, 2, false), attempt(0, 3, false)];
    let (effects, refusal) = after_last_server(true, false, true, &chain);
    assert_eq!(refusal, Refusal::Overloaded);
    assert_eq!(
        effects,
        vec![
            Effect::Log { status: 429, kind: LogKind::AllServersExhausted },
            Effect::Alert { code: 429 },
        ]
    );
    let silent = vec![attempt(0, 1, true), attempt(0, 2, false)];
    let (effects, refusal) = after_last_server(true, true, false, &silent);
    assert_eq!(refusal, Refusal::Overloaded);
    assert_eq!(effects, vec![Effect::Log { status: 429, kind: LogKind::ConnectionError }]);
    assert_eq!(last_server(&silent), Some(7));
    assert_eq!(last_server(&vec![]), None);
}

#[test]
fn the_end_without_an_attempt_is_not_logged() {
    assert_eq!(after_last_server(false, true, true, &vec![]), (vec![], Refusal::RateLimited));
    assert_eq!(after_last_server(false, false, true, &vec![]), (vec![], Refusal::NoServerKeys));
}

#[test]
fn log_kinds_and_sources_have_names() {
    assert_eq!(LogKind::FailoverSuccess.as_str(), "failover_success");
    assert_eq!(LogKind::UpstreamError.as_str(), "upstream_error");
    assert_eq!(LogKind::ConnectionError.as_str(), "connection_error");
    assert_eq!(LogKind::AllServersExhausted.as_str(), "all_servers_exhausted");
    assert_eq!(LatencySource::GroupServer.as_str(), "group_server");
    assert_eq!(LatencySource::Bonus.as_str(), "bonus");
    assert_eq!(LatencySource::UserEndpoint.as_str(), "user_endpoint");
}

fn server(id: u128) -> Server {
    Server {
        server_id: id,
        short_id: id as i32,
        server_name: format!("s{id}"),
        base_url: "https://up".to_string(),
        api_key: Some("own".to_string()),
        system_prompt: None,
        remove_thinking: false,
        model_mappings: Json::from_slice(br#"{"mapped":"other"}"#).unwrap(),
        breaker: None,
        max_requests: None,
        rate_window_seconds: None,
        per_key_max_requests: None,
        per_key_rate_window_seconds: None,
        max_input_tokens: None,
        min_input_tokens: None,
        supported_models: vec![],
        active_hours: ActiveHours { start: None, end: None, timezone: None },
        retry: Some(Retry { status_codes: vec![529], count: 1 }),
        custom_headers: None,
        non_stream_timeout_ms: None,
    }
}

fn caller() -> Caller {
    Caller {
        group_key_id: Some(5),
        dynamic_keys: vec![(2, "brought".to_string()), (3, String::new())],
        model: Some("m".to_string()),
        estimated_tokens: Some(100),
        asked_before: None,
    }
}

#[test]
fn keys_brought_along_come_first() {
    let keys = caller().dynamic_keys;
    assert_eq!(resolve_key(&keys, 2, &Some("own".to_string())), Some("brought".to_string()));
    assert_eq!(resolve_key(&keys, 1, &Some("own".to_string())), Some("own".to_string()));
    assert_eq!(resolve_key(&keys, 1, &None), None);
    assert_eq!(billed_key(&keys, 2, &None), (true, Some("brought".to_string())));
    assert_eq!(billed_key(&keys, 3, &Some("own".to_string())), (true, None));
    assert_eq!(billed_key(&keys, 1, &None), (false, None));
}

#[test]
fn a_server_without_a_key_is_skipped() {
    let server = Server { api_key: None, ..server(1) };
    assert_eq!(start_gate(&server, &caller()), Gate::Skip { rate_limited: false });
}

#[test]
fn a_server_is_not_asked_twice() {
    let caller = Caller { asked_before: Some(1), ..caller() };
    assert_eq!(start_gate(&server(1), &caller), Gate::Skip { rate_limited: false });
    assert_eq!(start_gate(&server(2), &caller), Gate::Ask(Query::ActiveHours));
}

#[test]
fn request_limits_are_asked_first() {
    let limited = Server {
        max_requests: Some(10),
        rate_window_seconds: Some(60),
        per_key_max_requests: Some(3),
        per_key_rate_window_seconds: Some(30),
        ..server(1)
    };
    let own = Query::ServerRate { max_requests: 10 };
    let per_key = Query::KeyRate { key_id: 5, max_requests: 3 };
    assert_eq!(start_gate(&limited, &caller()), Gate::Ask(own));
    let skipped = Gate::Skip { rate_limited: true };
    assert_eq!(after_query(&limited, &caller(), own, true), skipped);
    assert_eq!(after_query(&limited, &caller(), own, false), Gate::Ask(per_key));
    assert_eq!(after_query(&limited, &caller(), per_key, true), skipped);
    assert_eq!(
        after_query(&limited, &caller(), per_key, false),
        Gate::Ask(Query::ActiveHours)
    );
    assert_eq!(counters(&limited, &caller()), (Some(60), Some((5, 30))));
    assert_eq!(counters(&server(1), &caller()), (None, None));
}

#[test]
fn the_size_of_a_request_may_keep_it_off() {
    let skip = Gate::Skip { rate_limited: false };
    let small = Server { max_input_tokens: Some(99), ..server(1) };
    assert_eq!(start_gate(&small, &caller()), skip);
    let large = Server { min_input_tokens: Some(101), ..server(1) };
    assert_eq!(start_gate(&large, &caller()), skip);
    let exact =
        Server { max_input_tokens: Some(100), min_input_tokens: Some(100), ..server(1) };
    assert_eq!(start_gate(&exact, &caller()), Gate::Ask(Query::ActiveHours));
    let unknown = Caller { estimated_tokens: None, ..caller() };
    assert_eq!(start_gate(&small, &unknown), Gate::Ask(Query::ActiveHours));
}

#[test]
fn a_list_of_models_keeps_others_off() {
    let server = Server { supported_models: vec!["listed".to_string()], ..server(1) };
    assert!(supports_model(&server, &Some("listed".to_string())));
    assert!(supports_model(&server, &Some("mapped".to_string())));
    assert!(supports_model(&server, &None));
    assert!(!supports_model(&server, &Some("m".to_string())));
}

#[test]
fn the_breaker_is_asked_last() {
    let guarded = Server { breaker: Some(BREAKER), ..server(1) };
    let hours = Query::ActiveHours;
    assert_eq!(
        after_query(&guarded, &caller(), hours, false),
        Gate::Skip { rate_limited: false }
    );
    assert_eq!(after_query(&guarded, &caller(), hours, true), Gate::Ask(Query::Breaker));
    assert_eq!(after_query(&server(1), &caller(), hours, true), Gate::Try { probe: false });
    assert_eq!(after_access(Access::Allow), Gate::Try { probe: false });
    assert_eq!(after_access(Access::Probe), Gate::Try { probe: true });
    assert_eq!(after_access(Access::Skip), Gate::Skip { rate_limited: false });
}

#[test]
fn the_walk_takes_servers_in_order() {
    let servers = vec![
        Server { api_key: None, short_id: 9, ..server(1) },
        server(2),
        Server { supported_models: vec!["x".to_string()], ..server(3) },
        Server { breaker: Some(BREAKER), ..server(4) },
    ];
    let caller = caller();
    let walk = Walk { servers: &servers, caller: &caller, billing: true };
    let mut waterfall = Waterfall::new(false, vec![]);
    assert_eq!(waterfall.start(&walk).1, Task::Ask(Query::ActiveHours));
    assert_eq!(waterfall.position(), 1);
    let (_, task) = waterfall.answer(&walk, Query::ActiveHours, true);
    assert_eq!(task, Task::Send { probe: false });
    let rules = AttemptRules { server_id: 2, ..rules() };
    let d = after_send(&rules, &mut waterfall.chain, headers(503), 5);
    let (_, task) = waterfall.decided(&walk, d.step);
    assert_eq!(waterfall.position(), 3);
    assert_eq!(task, Task::Ask(Query::ActiveHours));
    let (_, task) = waterfall.answer(&walk, Query::ActiveHours, true);
    assert_eq!(task, Task::Ask(Query::Breaker));
    let (effects, task) = waterfall.access(&walk, Access::Skip);
    assert_eq!(task, Task::Refuse(Refusal::Overloaded));
    assert_eq!(waterfall.position(), 4);
    assert_eq!(effects[0], Effect::Log { status: 503, kind: LogKind::AllServersExhausted });
}

#[test]
fn the_walk_ends_with_an_answer() {
    let servers = vec![server(1)];
    let caller = caller();
    let walk = Walk { servers: &servers, caller: &caller, billing: true };
    let mut waterfall = Waterfall::new(false, vec![]);
    waterfall.start(&walk);
    waterfall.answer(&walk, Query::ActiveHours, true);
    let step = Step::ReadError(held(400));
    assert_eq!(waterfall.decided(&walk, step).1, Task::Go(step));
    let (_, task) = waterfall.decided(&walk, Step::Relay(Answer::Body));
    assert_eq!(task, Task::Relay(Answer::Body));
}

#[test]
fn a_walk_past_rate_limited_servers_says_so() {
    let limited =
        Server { max_requests: Some(1), rate_window_seconds: Some(60), ..server(1) };
    let servers = vec![limited];
    let caller = caller();
    let walk = Walk { servers: &servers, caller: &caller, billing: true };
    let mut waterfall = Waterfall::new(false, vec![]);
    let query = Query::ServerRate { max_requests: 1 };
    assert_eq!(waterfall.start(&walk).1, Task::Ask(query));
    let (effects, task) = waterfall.answer(&walk, query, true);
    assert_eq!(task, Task::Refuse(Refusal::RateLimited));
    assert!(effects.is_empty());
    let none = vec![];
    let empty = Walk { servers: &none, caller: &caller, billing: true };
    let (_, task) = Waterfall::new(false, vec![]).start(&empty);
    assert_eq!(task, Task::Refuse(Refusal::NoServerKeys));
}
