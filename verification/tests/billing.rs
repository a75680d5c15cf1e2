use viber_router::json::Json;
use viber_router::proxy::billing::{
    after_bonus, after_check, after_wait, charged, count_plan, estimate_answer, flat_price,
    key_to_charge, price_of, Budget, Charge, CountPlan, CountSettings, Price, SubCheck,
    Subscription, UsageTracking,
};
use viber_router::proxy::failover::SendReply;
use viber_router::proxy::journey::{
    after_bonus_servers, after_fallback, after_priority, after_servers, after_subscriptions,
    after_tokens, Stage,
};
use viber_router::proxy::refusal::Refusal;
use viber_router::proxy::rows::{non_stream_row, LatencySource};
use viber_router::proxy::side::{
    after_side_send, bonus_budget_ms, bonus_url, endpoints_in_turn, late_body_row, side_usage,
    SideStep, UserEndpoint, HEADER_TIMEOUT_SECS,
};

const SUB: Subscription = Subscription { id: 3, limits_requests: true, limits_tokens: false };

#[test]
fn only_billed_requests_of_sub_keys_are_charged() {
    assert_eq!(key_to_charge(true, Some(1)), Some(1));
    assert_eq!(key_to_charge(false, Some(1)), None);
    assert_eq!(key_to_charge(true, None), None);
}

#[test]
fn a_check_decides_how_to_go_on() {
    assert_eq!(after_check(SubCheck::Allowed(SUB)), Budget::WaitForTokens(SUB));
    assert_eq!(
        after_check(SubCheck::Blocked),
        Budget::Refuse(Refusal::SubscriptionExceeded)
    );
    let bonus = SubCheck::Bonus { servers: 2, fallback: Some(SUB) };
    assert_eq!(after_check(bonus), Budget::Proceed);
    assert_eq!(charged(bonus), Some(SUB));
    assert_eq!(charged(SubCheck::Allowed(SUB)), Some(SUB));
    assert_eq!(charged(SubCheck::Blocked), None);
    assert_eq!(after_bonus(bonus), Budget::WaitForTokens(SUB));
    let none = SubCheck::Bonus { servers: 0, fallback: Some(SUB) };
    assert_eq!(after_bonus(none), Budget::Proceed);
}

#[test]
fn waiting_counts_the_request() {
    assert_eq!(after_wait(SUB, true), (Budget::Proceed, true));
    assert_eq!(
        after_wait(SUB, false),
        (Budget::Refuse(Refusal::TokensPerMinuteExceeded), false)
    );
}

#[test]
fn prices_come_from_the_table_or_the_subscription() {
    let kind = Charge::Subscription;
    assert_eq!(price_of(true, false, Charge::Nobody), (Price::Unpriced, false));
    assert_eq!(price_of(true, true, Charge::Nobody), (Price::Table, false));
    assert_eq!(price_of(true, true, Charge::Unknown), (Price::Unpriced, false));
    assert_eq!(price_of(true, true, kind("bonus")), (Price::Table, false));
    assert_eq!(price_of(false, true, kind("bonus")), (Price::TableOrZero, true));
    assert_eq!(price_of(true, true, kind("pay_per_request")), (Price::Flat, true));
    assert_eq!(price_of(false, true, kind("hourly")), (Price::TableOrZero, true));
}

#[test]
fn flat_prices_are_by_model() {
    let costs = Json::from_slice(br#"{"m": 2}"#).unwrap();
    assert_eq!(flat_price(&costs, "m").unwrap().as_i64(), Some(2));
    assert!(flat_price(&costs, "n").is_none());
    assert!(flat_price(&Json::Null, "m").is_none());
}

#[test]
fn a_stream_is_billed_once_and_only_where_it_ends() {
    let open = UsageTracking::Parsing;
    assert!(open.is_open());
    let (done, bill) = open.on_end();
    assert!(bill && !done.is_open());
    assert_eq!(done.on_end(), (UsageTracking::Done, false));
    assert_eq!(open.on_error().on_end(), (UsageTracking::Done, false));
}

#[test]
fn settings_decide_how_tokens_are_counted() {
    let settings = |estimate: bool, base: Option<&str>, key: Option<&str>| {
        Some(CountSettings {
            always_estimate: estimate,
            base_url: base.map(str::to_string),
            api_key: key.map(str::to_string),
        })
    };
    assert!(matches!(count_plan(None), CountPlan::Group));
    assert!(matches!(count_plan(settings(true, Some("b"), Some("k"))), CountPlan::Estimate));
    assert!(matches!(count_plan(settings(false, Some("b"), None)), CountPlan::Group));
    match count_plan(settings(false, Some("https://up/"), Some("k"))) {
        CountPlan::Ask { url, api_key } => {
            assert_eq!(url, "https://up/v1/messages/count_tokens");
            assert_eq!(api_key, "k");
        }
        other => panic!("{other:?}"),
    }
}

#[test]
fn an_estimate_is_an_answer() {
    assert_eq!(estimate_answer(b"not json").to_text(), r#"{"input_tokens":0}"#);
    let body = br#"{"model":"m","messages":[{"role":"user","content":"12345678"}]}"#;
    let answer = estimate_answer(body);
    assert!(answer.get("input_tokens").unwrap().as_i64().unwrap() > 0);
}

#[test]
fn the_way_of_a_request() {
    assert_eq!(after_priority(true, true, Some(1)), Stage::Answered);
    assert_eq!(after_priority(false, true, Some(1)), Stage::Subscriptions(1));
    assert_eq!(after_priority(false, false, Some(1)), Stage::Servers(None));
    assert_eq!(after_subscriptions(SubCheck::Allowed(SUB)), Stage::Tokens(SUB));
    let refused = Stage::Fallback(Refusal::SubscriptionExceeded);
    assert_eq!(after_subscriptions(SubCheck::Blocked), refused);
    let bonus = SubCheck::Bonus { servers: 1, fallback: Some(SUB) };
    assert_eq!(after_subscriptions(bonus), Stage::Bonus(bonus));
    assert_eq!(after_bonus_servers(bonus, true), Stage::Answered);
    assert_eq!(after_bonus_servers(bonus, false), Stage::Tokens(SUB));
    let alone = SubCheck::Bonus { servers: 1, fallback: None };
    assert_eq!(after_bonus_servers(alone, false), Stage::Servers(None));
    assert_eq!(after_tokens(SUB, true), (Stage::Servers(Some(SUB)), true));
    let spent = Stage::Fallback(Refusal::TokensPerMinuteExceeded);
    assert_eq!(after_tokens(SUB, false), (spent, false));
    assert_eq!(after_servers(Refusal::Overloaded), Stage::Fallback(Refusal::Overloaded));
    assert_eq!(
        after_servers(Refusal::AnswerTimedOut),
        Stage::Refused(Refusal::AnswerTimedOut)
    );
    assert_eq!(after_fallback(Refusal::Overloaded, true), Stage::Answered);
    assert_eq!(
        after_fallback(Refusal::Overloaded, false),
        Stage::Refused(Refusal::Overloaded)
    );
}

fn endpoint(id: u128, mode: &str, accepts_model: bool) -> UserEndpoint {
    UserEndpoint {
        id,
        name: String::new(),
        base_url: String::new(),
        api_key: String::new(),
        priority_mode: mode.to_string(),
        model_mappings: Json::Null,
        custom_headers: None,
        non_stream_timeout_ms: None,
        accepts_model,
    }
}

#[test]
fn endpoints_are_tried_in_their_order() {
    let endpoints = vec![
        endpoint(1, "fallback", true),
        endpoint(2, "priority", true),
        endpoint(3, "fallback", false),
        endpoint(4, "fallback", true),
    ];
    assert_eq!(endpoints_in_turn(&endpoints, "fallback"), vec![0, 3]);
    assert_eq!(endpoints_in_turn(&endpoints, "priority"), vec![1]);
    assert!(endpoints_in_turn(&endpoints, "other").is_empty());
    assert_eq!(HEADER_TIMEOUT_SECS, 30);
}

#[test]
fn side_servers_answer_only_with_success() {
    let send = |source, reply| after_side_send(source, reply, Some(100), 40);
    let quiet = SideStep::TryNext { row: None };
    let late = SideStep::TryNext {
        row: Some(non_stream_row(None, true, LatencySource::Bonus)),
    };
    assert_eq!(send(LatencySource::Bonus, SendReply::Failed), quiet);
    assert_eq!(send(LatencySource::Bonus, SendReply::TimedOut), late);
    assert_eq!(send(LatencySource::UserEndpoint, SendReply::TimedOut), quiet);
    let answer = |status, event_stream| SendReply::Headers { status, event_stream };
    assert_eq!(send(LatencySource::Bonus, answer(500, false)), quiet);
    assert_eq!(send(LatencySource::Bonus, answer(200, true)), SideStep::Stream);
    assert_eq!(
        send(LatencySource::UserEndpoint, answer(201, false)),
        SideStep::ReadBody { budget_ms: Some(60) }
    );
    assert_eq!(
        late_body_row(LatencySource::UserEndpoint),
        non_stream_row(None, true, LatencySource::UserEndpoint)
    );
}

#[test]
fn bonus_servers_have_their_own_address_and_budget() {
    assert_eq!(bonus_url("https://b//"), "https://b/v1/messages");
    assert_eq!(bonus_budget_ms(false, Some(50)), Some(50));
    assert_eq!(bonus_budget_ms(true, Some(50)), None);
    assert_eq!(bonus_budget_ms(false, None), None);
}

#[test]
fn side_answers_are_billed() {
    let body = br#"{"usage":{"input_tokens":1,"output_tokens":2}}"#;
    let usage = side_usage(true, body).unwrap();
    assert_eq!((usage.input_tokens, usage.output_tokens), (1, 2));
    assert!(side_usage(false, body).is_none());
    assert!(side_usage(true, b"{}").is_none());
}

#[test]
fn a_stream_hands_on_its_chunks_and_is_billed_at_its_end() {
    let run = |breaks_at: Option<usize>| {
        let chunks = ["a", "b", "c"];
        let mut tracking = UsageTracking::Parsing;
        let mut given = Vec::new();
        let mut billed = 0;
        for asked in 0..6 {
            if !tracking.is_open() {
                given.push("end");
            } else if breaks_at == Some(asked) {
                tracking = tracking.on_error();
                given.push("error");
            } else if asked < chunks.len() {
                given.push(chunks[asked]);
            } else {
                let (next, bill) = tracking.on_end();
                tracking = next;
                billed += usize::from(bill);
                given.push("end");
            }
        }
        (given, billed)
    };
    assert_eq!(run(None), (vec!["a", "b", "c", "end", "end", "end"], 1));
    assert_eq!(run(Some(1)), (vec!["a", "error", "end", "end", "end", "end"], 0));
}
