use serde_json::Value;
use viber_router::json::{Json, Object};
use viber_router::proxy::headers::{custom_headers_to_send, merge_custom_headers_into_log};
use viber_router::proxy::hours::{
    is_active_at_local, is_in_window, is_server_active_at, is_server_active_now, parse_hhmm,
    ActiveHours,
};
use viber_router::proxy::limits::{
    default_non_stream_timeout_ms, log_request_body_enabled, user_endpoints_feature_enabled,
    SEEDED_NON_STREAM_TIMEOUT_MS,
};
use viber_router::proxy::body::{
    estimate_input_tokens, extract_request_model, try_transform_request_body,
};
use viber_router::proxy::request::{
    body_to_log, body_to_resend, body_to_send, headers_to_log, headers_to_send, Headers,
};

fn json(text: &str) -> Json {
    Json::from_slice(text.as_bytes()).unwrap()
}

fn value(bytes: &[u8]) -> Value {
    serde_json::from_slice(bytes).unwrap()
}

fn client_headers() -> Headers {
    [
        ("host", "relay"),
        ("x-api-key", "client"),
        ("authorization", "Bearer client"),
        ("content-length", "3"),
        ("anthropic-version", "2023-06-01"),
    ]
    .iter()
    .map(|(n, v)| (n.to_string(), v.as_bytes().to_vec()))
    .collect()
}

const THINKING: &str = r#"{"model":"m","messages":[{"role":"assistant","content":[
    {"type":"thinking","thinking":"t","signature":"s"},{"type":"text","text":"hi"}]}]}"#;

#[test]
fn the_key_of_the_client_is_withheld() {
    let sent = headers_to_send(&client_headers(), "server");
    assert_eq!(
        sent,
        vec![
            ("anthropic-version".to_string(), b"2023-06-01".to_vec()),
            ("x-api-key".to_string(), b"server".to_vec()),
            ("authorization".to_string(), b"Bearer server".to_vec()),
        ]
    );
}

#[test]
fn the_log_shows_what_was_sent() {
    let custom = json(r#"{"x-team":"a","authorization":"own","n":1}"#);
    let logged = Json::Object(headers_to_log(&client_headers(), "server", Some(&custom)));
    let logged = value(logged.to_text().as_bytes());
    assert_eq!(logged["x-api-key"], "server");
    assert_eq!(logged["authorization"], "own");
    assert_eq!(logged["x-team"], "a");
    assert_eq!(logged["anthropic-version"], "2023-06-01");
    assert!(logged.get("host").is_none() && logged.get("n").is_none());
}

#[test]
fn custom_headers_override_the_log() {
    let mut log = Object::new().with("a", Json::text("old")).with("b", Json::text("kept"));
    merge_custom_headers_into_log(&mut log, Some(&json(r#"{"a":"new"}"#)));
    assert_eq!(log.get("a").unwrap().as_str(), Some("new"));
    assert_eq!(log.get("b").unwrap().as_str(), Some("kept"));
    merge_custom_headers_into_log(&mut log, None);
    assert_eq!(log.get("a").unwrap().as_str(), Some("new"));
}

#[test]
fn custom_headers_are_names_and_values() {
    let custom = json(r#"{"X-Team":"a","bad name":"b","x-nl":"a\nb","n":1}"#);
    let sent = custom_headers_to_send(Some(&custom));
    assert_eq!(sent, vec![("x-team".to_string(), "a".to_string())]);
    assert!(custom_headers_to_send(None).is_empty());
    assert!(custom_headers_to_send(Some(&json("[1]"))).is_empty());
}

#[test]
fn the_log_shows_the_body_on_demand() {
    let off = body_to_log(false, b"not json").unwrap();
    assert_eq!(off.to_text(), "{}");
    let on = body_to_log(true, br#"{"a":1}"#).unwrap();
    assert_eq!(on.to_text(), r#"{"a":1}"#);
    assert!(body_to_log(true, b"not json").is_none());
}

#[test]
fn later_attempts_carry_no_thinking() {
    let mappings = json("{}");
    let send = |first| {
        let body = body_to_send(
            THINKING.as_bytes(),
            &mappings,
            None,
            "/v1/messages",
            false,
            first,
        );
        value(&body.unwrap())["messages"][0]["content"].as_array().unwrap().len()
    };
    assert_eq!(send(true), 2);
    assert_eq!(send(false), 1);
}

#[test]
fn a_prompt_needs_an_object_to_stand_in() {
    let prompt = Some("be brief");
    let mappings = json("{}");
    assert!(body_to_send(b"[1]", &mappings, prompt, "/v1/messages", false, true).is_none());
    assert!(try_transform_request_body(b"[1]", &mappings, None, "/v1/messages", false).is_some());
    let sent = body_to_send(b"not json", &mappings, prompt, "/v1/messages", false, true);
    assert_eq!(sent.unwrap(), b"not json");
}

#[test]
fn signature_errors_strip_the_body() {
    let error = br#"{"error":{"message":"Invalid `signature` in `thinking` block"}}"#;
    let resent = body_to_resend(error, THINKING.as_bytes()).unwrap();
    assert_eq!(value(&resent)["messages"][0]["content"].as_array().unwrap().len(), 1);
    assert!(body_to_resend(b"bad model", THINKING.as_bytes()).is_none());
    assert!(body_to_resend(error, br#"{"messages":[]}"#).is_none());
}

#[test]
fn sent_requests_are_clean() {
    let body = br#"{"model":"m","context_management":{},"thinking":{"type":"enabled"},
        "messages":[{"role":"user","content":[{"type":"text","text":""},
        {"type":"thinking","thinking":"u"}]}]}"#;
    let sent =
        try_transform_request_body(body, &json("{}"), None, "/v1/messages", true).unwrap();
    let sent = value(&sent);
    assert!(sent.get("context_management").is_none());
    assert!(sent.get("thinking").is_none());
    assert_eq!(sent["messages"][0]["content"].as_array().unwrap().len(), 1);
    assert_eq!(sent["messages"][0]["content"][0]["thinking"], "u");
}

#[test]
fn the_model_of_a_request_is_read() {
    assert_eq!(extract_request_model(br#"{"model":"m"}"#), Some("m".to_string()));
    assert_eq!(extract_request_model(br#"{"model":1}"#), None);
    assert_eq!(extract_request_model(b"x"), None);
    assert_eq!(estimate_input_tokens(b"x"), None);
}

#[test]
fn times_of_day_are_read() {
    assert_eq!(parse_hhmm("09:30"), Some((9, 30)));
    assert_eq!(parse_hhmm("23:59"), Some((23, 59)));
    assert_eq!(parse_hhmm("24:00"), None);
    assert_eq!(parse_hhmm("09:60"), None);
    assert_eq!(parse_hhmm("9:30"), None);
    assert_eq!(parse_hhmm("09-30"), None);
    assert_eq!(parse_hhmm("+9:30"), None);
    assert_eq!(parse_hhmm("+1:+2"), None);
    assert_eq!(parse_hhmm("09:+3"), None);
    assert_eq!(parse_hhmm("é9:30"), None);
    assert_eq!(parse_hhmm("é:30"), None);
}

#[test]
fn windows_hold_their_ends() {
    assert!(is_in_window((9, 0), (17, 30), (9, 0)));
    assert!(is_in_window((9, 0), (17, 30), (17, 30)));
    assert!(!is_in_window((9, 0), (17, 30), (17, 31)));
}

#[test]
fn windows_go_over_midnight() {
    assert!(is_in_window((22, 0), (6, 0), (23, 0)));
    assert!(is_in_window((22, 0), (6, 0), (6, 0)));
    assert!(!is_in_window((22, 0), (6, 0), (12, 0)));
}

fn hours(start: &str, end: &str, zone: &str) -> ActiveHours {
    ActiveHours {
        start: Some(start.to_string()),
        end: Some(end.to_string()),
        timezone: Some(zone.to_string()),
    }
}

#[test]
fn hours_are_those_of_the_time_zone() {
    let at_noon_utc: i64 = 1_700_049_600;
    let office = hours("18:30", "19:30", "Asia/Ho_Chi_Minh");
    assert!(is_server_active_at(&office, at_noon_utc));
    let utc = hours("18:30", "19:30", "UTC");
    assert!(!is_server_active_at(&utc, at_noon_utc));
    assert!(is_server_active_at(&hours("12:00", "12:00", "UTC"), at_noon_utc));
}

#[test]
fn malformed_hours_are_open() {
    let at_noon_utc: i64 = 1_700_049_600;
    assert!(is_server_active_at(&hours("+1:00", "+2:00", "UTC"), at_noon_utc));
    assert!(is_server_active_at(&hours("01:00", "2:00", "UTC"), at_noon_utc));
    assert!(!is_server_active_at(&hours("01:00", "02:00", "UTC"), at_noon_utc));
}

#[test]
fn incomplete_hours_are_open() {
    let none = ActiveHours { start: None, end: None, timezone: None };
    assert!(is_server_active_now(&none));
    assert!(is_server_active_at(&hours("00:00", "00:00", "Nowhere/None"), 0));
    assert!(is_server_active_at(&hours("x", "00:00", "UTC"), 5_000_000));
    assert!(is_active_at_local(&hours("09:00", "10:00", "UTC"), None));
    assert!(!is_active_at_local(&hours("09:00", "10:00", "UTC"), Some((8, 59))));
}

#[test]
fn settings_have_defaults() {
    assert!(user_endpoints_feature_enabled(None, None));
    assert!(!user_endpoints_feature_enabled(Some(false), Some(true)));
    assert!(!user_endpoints_feature_enabled(None, Some(false)));
    assert!(!log_request_body_enabled(None, None));
    assert!(log_request_body_enabled(None, Some(true)));
    assert_eq!(default_non_stream_timeout_ms(None, None), Some(SEEDED_NON_STREAM_TIMEOUT_MS));
    assert_eq!(default_non_stream_timeout_ms(None, Some(None)), None);
    assert_eq!(default_non_stream_timeout_ms(Some(Some(5)), Some(None)), Some(5));
    assert_eq!(SEEDED_NON_STREAM_TIMEOUT_MS, 600_000);
}

#[test]
fn the_last_of_two_custom_headers_with_one_name_counts() {
    let own = |name: &str, text: &str| (name.to_string(), text.to_string());
    let custom = json(r#"{"x-team":"b","X-Team":"a","X-TEAM":"c","y":"1"}"#);
    assert_eq!(custom_headers_to_send(Some(&custom)), [own("x-team", "b"), own("y", "1")]);
    let custom = json(r#"{"X-TEAM":"c","X-Team":"a"}"#);
    assert_eq!(custom_headers_to_send(Some(&custom)), [own("x-team", "a")]);
}

#[test]
fn names_of_custom_headers_are_tokens_in_lower_case() {
    let custom = json(
        r#"{"!#$%&'*+-.^_`|~AZ09":"a","":"b","x:y":"c","x@y":"d","x\"y":"e","é":"f","x y":"g"}"#,
    );
    assert_eq!(
        custom_headers_to_send(Some(&custom)),
        [("!#$%&'*+-.^_`|~az09".to_string(), "a".to_string())]
    );
    for (len, sent) in [(1, 1), (64, 1), (65, 1), (65535, 1), (65536, 0)] {
        let custom = json(&format!(r#"{{"{}":"v"}}"#, "N".repeat(len)));
        let headers = custom_headers_to_send(Some(&custom));
        assert_eq!(headers.len(), sent);
        assert!(headers.iter().all(|(name, _)| *name == "n".repeat(len)));
    }
}
