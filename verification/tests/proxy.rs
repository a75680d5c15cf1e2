use serde_json::Value;
use viber_router::json::Json;
use viber_router::proxy::body;
use viber_router::proxy::body::{
    client_wants_stream, is_billing_endpoint, is_thinking_signature_error, strip_thinking_blocks,
};
use viber_router::proxy::limits;
use viber_router::proxy::limits::{
    effective_non_stream_timeout_ms, extract_usage_tokens, remaining_timeout_ms,
};
use viber_router::proxy::seam;
use viber_router::translate;
use viber_router::translate::{ClientProtocol, TranslationContext};

fn val(text: &str) -> Value {
    serde_json::from_str(text).unwrap()
}

fn to_json(v: &Value) -> Json {
    Json::from_slice(&serde_json::to_vec(v).unwrap()).unwrap()
}

fn to_value(j: &Json) -> Value {
    val(&j.to_text())
}

/// A path and its query.
struct Uri {
    path: String,
    query: Option<String>,
}

fn uri(s: &str) -> Uri {
    match s.split_once('?') {
        Some((path, query)) => Uri { path: path.to_string(), query: Some(query.to_string()) },
        None => Uri { path: s.to_string(), query: None },
    }
}

fn upstream_url_for(protocol: ClientProtocol, base_url: &str, uri: &Uri) -> String {
    limits::upstream_url_for(protocol, base_url, &uri.path, uri.query.as_deref())
}

fn error_envelope(protocol: ClientProtocol, error_type: &str, message: &str) -> Value {
    to_value(&translate::error_envelope(protocol, error_type, message))
}

fn translate_success_body(context: &TranslationContext, body: &[u8]) -> Option<Value> {
    seam::translate_success_body(context, body).map(|out| to_value(&out))
}

fn transform_model(body: &[u8], mappings: &Value) -> Vec<u8> {
    body::transform_model(body, &to_json(mappings))
}

fn merge_system_prompts(client: Option<&Value>, server: Option<&str>) -> Option<Value> {
    let client = client.map(to_json);
    body::merge_system_prompts(client.as_ref(), server).map(|out| to_value(&out))
}

fn has_cache_control(system: &Value) -> bool {
    body::has_cache_control(&to_json(system))
}

fn extract_system_text(system: &Value) -> Option<String> {
    body::extract_system_text(&to_json(system))
}

fn transform_request_body(
    body: &[u8],
    mappings: &Value,
    prompt: Option<&str>,
    path: &str,
    remove_thinking: bool,
) -> Vec<u8> {
    body::try_transform_request_body(body, &to_json(mappings), prompt, path, remove_thinking)
        .unwrap()
}

fn chat_ctx(client_model: Option<&str>) -> TranslationContext {
    TranslationContext {
        protocol: ClientProtocol::ChatCompletions,
        include_usage: false,
        json_schema_tool: None,
        client_model: client_model.map(str::to_string),
    }
}

#[test]
fn chat_completions_targets_upstream_messages() {
    let url = upstream_url_for(
        ClientProtocol::ChatCompletions,
        "https://up.example.com",
        &uri("/v1/chat/completions"),
    );
    assert_eq!(url, "https://up.example.com/v1/messages");
}

#[test]
fn responses_targets_upstream_messages_without_double_slash() {
    let url = upstream_url_for(
        ClientProtocol::Responses,
        "https://up.example.com/",
        &uri("/v1/responses"),
    );
    assert_eq!(url, "https://up.example.com/v1/messages");
}

#[test]
fn translated_protocol_drops_client_query_string() {

    let url = upstream_url_for(
        ClientProtocol::ChatCompletions,
        "https://up.example.com",
        &uri("/v1/chat/completions?foo=bar"),
    );
    assert_eq!(url, "https://up.example.com/v1/messages");
}

#[test]
fn anthropic_keeps_path_and_query() {
    let url = upstream_url_for(
        ClientProtocol::Anthropic,
        "https://up.example.com",
        &uri("/v1/messages?beta=true"),
    );
    assert_eq!(url, "https://up.example.com/v1/messages?beta=true");
}

#[test]
fn anthropic_preserves_count_tokens_path() {

    let url = upstream_url_for(
        ClientProtocol::Anthropic,
        "https://up.example.com",
        &uri("/v1/messages/count_tokens"),
    );
    assert_eq!(url, "https://up.example.com/v1/messages/count_tokens");
}

#[test]
fn all_three_client_paths_are_billable() {
    assert!(is_billing_endpoint("/v1/messages"));
    assert!(is_billing_endpoint("/v1/chat/completions"));
    assert!(is_billing_endpoint("/v1/responses"));
    assert!(!is_billing_endpoint("/v1/messages/count_tokens"));
}

#[test]
fn error_envelope_bodies_differ_per_protocol() {
    let anthropic =
        error_envelope(ClientProtocol::Anthropic, "api_error", "boom");
    let chat =
        error_envelope(ClientProtocol::ChatCompletions, "api_error", "boom");
    let responses =
        error_envelope(ClientProtocol::Responses, "api_error", "boom");

    assert_eq!(anthropic["type"], "error");
    assert!(chat.get("type").is_none());
    assert_eq!(responses["object"], "error");
}

#[test]
fn non_json_success_body_is_forwarded_untouched() {

    assert!(translate_success_body(&chat_ctx(None), b"<html>not json</html>").is_none());
}

#[test]
fn anthropic_message_is_translated_by_the_seam() {
    let body = br#"{"id":"msg_1","model":"m","stop_reason":"end_turn",
        "content":[{"type":"text","text":"hi"}],
        "usage":{"input_tokens":1,"output_tokens":1}}"#;
    let out = translate_success_body(&chat_ctx(None), body).expect("translated");
    assert_eq!(out["object"], "chat.completion");
    assert_eq!(out["choices"][0]["message"]["content"], "hi");
}

#[test]
fn seam_echoes_the_client_model_not_the_upstream_one() {

    let body = br#"{"id":"msg_1","model":"sonnet-4-6","stop_reason":"end_turn",
        "content":[{"type":"text","text":"hi"}],
        "usage":{"input_tokens":1,"output_tokens":1}}"#;
    let out = translate_success_body(&chat_ctx(Some("gpt-4o")), body).expect("translated");
    assert_eq!(out["model"], "gpt-4o");
}

#[test]
fn seam_falls_back_to_upstream_model_when_client_sent_none() {
    let body = br#"{"id":"msg_1","model":"sonnet-4-6","stop_reason":"end_turn",
        "content":[{"type":"text","text":"hi"}],
        "usage":{"input_tokens":1,"output_tokens":1}}"#;
    let out = translate_success_body(&chat_ctx(None), body).expect("translated");
    assert_eq!(out["model"], "sonnet-4-6");
}

#[test]
fn test_transform_model_with_mapping() {
    let body = br#"{"model":"opus-4-6","messages":[]}"#;
    let mappings = val(r#"{"opus-4-6": "my-opus"}"#);
    let result = transform_model(body, &mappings);
    let parsed: Value = serde_json::from_slice(&result).unwrap();
    assert_eq!(parsed["model"], "my-opus");
}

#[test]
fn test_transform_model_no_mapping() {
    let body = br#"{"model":"haiku-4-5","messages":[]}"#;
    let mappings = val(r#"{"opus-4-6": "my-opus"}"#);
    let result = transform_model(body, &mappings);
    let parsed: Value = serde_json::from_slice(&result).unwrap();
    assert_eq!(parsed["model"], "haiku-4-5");
}

#[test]
fn test_transform_model_empty_mappings() {
    let body = br#"{"model":"opus-4-6","messages":[]}"#;
    let mappings = val(r#"{}"#);
    let result = transform_model(body, &mappings);
    assert_eq!(result, body);
}

#[test]
fn test_transform_model_no_model_field() {
    let body = br#"{"messages":[]}"#;
    let mappings = val(r#"{"opus-4-6": "my-opus"}"#);
    let result = transform_model(body, &mappings);
    let parsed: Value = serde_json::from_slice(&result).unwrap();
    assert!(parsed.get("model").is_none());
}

#[test]
fn test_transform_model_invalid_json() {
    let body = b"not json";
    let mappings = val(r#"{"opus-4-6": "my-opus"}"#);
    let result = transform_model(body, &mappings);
    assert_eq!(result, body);
}

#[test]
fn test_is_thinking_signature_error_with_signature() {
    let body =
        br#"{"error":{"type":"<nil>","message":"Invalid `signature` in `thinking` block"}}"#;
    assert!(is_thinking_signature_error(body));
}

#[test]
fn test_is_thinking_signature_error_with_thinking() {
    let body = br#"{"error":{"message":"Invalid thinking block content"}}"#;
    assert!(is_thinking_signature_error(body));
}

#[test]
fn test_is_thinking_signature_error_unrelated() {
    let body = br#"{"error":{"message":"Invalid model specified"}}"#;
    assert!(!is_thinking_signature_error(body));
}

#[test]
fn test_strip_thinking_blocks_removes_thinking() {
    let body = serde_json::to_vec(&val(r#"{
        "model": "opus-4-6",
        "messages": [
            {"role": "user", "content": "hello"},
            {"role": "assistant", "content": [
                {"type": "thinking", "thinking": "let me think", "signature": "abc123"},
                {"type": "text", "text": "Hi there"}
            ]},
            {"role": "user", "content": "follow up"}
        ]
    }"#))
    .unwrap();

    let result = strip_thinking_blocks(&body).unwrap();
    let parsed: Value = serde_json::from_slice(&result).unwrap();
    let assistant_content = parsed["messages"][1]["content"].as_array().unwrap();
    assert_eq!(assistant_content.len(), 1);
    assert_eq!(assistant_content[0]["type"], "text");
}

#[test]
fn test_strip_thinking_blocks_no_thinking_returns_none() {
    let body = serde_json::to_vec(&val(r#"{
        "model": "opus-4-6",
        "messages": [
            {"role": "user", "content": "hello"},
            {"role": "assistant", "content": [
                {"type": "text", "text": "Hi there"}
            ]}
        ]
    }"#))
    .unwrap();

    assert!(strip_thinking_blocks(&body).is_none());
}

#[test]
fn test_strip_thinking_blocks_preserves_user_messages() {
    let body = serde_json::to_vec(&val(r#"{
        "model": "opus-4-6",
        "messages": [
            {"role": "user", "content": [
                {"type": "text", "text": "hello"}
            ]},
            {"role": "assistant", "content": [
                {"type": "thinking", "thinking": "hmm", "signature": ""},
                {"type": "text", "text": "response"}
            ]}
        ]
    }"#))
    .unwrap();

    let result = strip_thinking_blocks(&body).unwrap();
    let parsed: Value = serde_json::from_slice(&result).unwrap();

    let user_content = parsed["messages"][0]["content"].as_array().unwrap();
    assert_eq!(user_content.len(), 1);
    assert_eq!(user_content[0]["type"], "text");
}

#[test]
fn test_merge_system_prompts_client_string_server_string() {
    let client = Some(&Value::String("You are a coding assistant".to_string()));
    let server = Some("Always respond in Vietnamese");
    let result = merge_system_prompts(client, server).unwrap();
    assert_eq!(
        result,
        "You are a coding assistant\n\nAlways respond in Vietnamese"
    );
}

#[test]
fn test_merge_system_prompts_client_array_with_cache_control_server_string() {
    let client = Some(&val(r#"[
        {"type": "text", "text": "Block 1", "cache_control": {"type": "ephemeral"}}
    ]"#));
    let server = Some("Always respond in Vietnamese");
    let result = merge_system_prompts(client, server).unwrap();
    let arr = result.as_array().unwrap();
    assert_eq!(arr.len(), 1);
    assert_eq!(arr[0]["text"], "Block 1\n\nAlways respond in Vietnamese");
    assert_eq!(arr[0]["cache_control"]["type"], "ephemeral");
}

#[test]
fn test_merge_system_prompts_client_array_without_cache_control_server_string() {
    let client = Some(&val(r#"[
        {"type": "text", "text": "Block 1"}
    ]"#));
    let server = Some("Always respond in Vietnamese");
    let result = merge_system_prompts(client, server).unwrap();
    assert_eq!(result, "Block 1\n\nAlways respond in Vietnamese");
}

#[test]
fn test_merge_system_prompts_only_server() {
    let client = None;
    let server = Some("Always respond in Vietnamese");
    let result = merge_system_prompts(client, server).unwrap();
    assert_eq!(result, "Always respond in Vietnamese");
}

#[test]
fn test_merge_system_prompts_only_client() {
    let client = Some(&Value::String("You are helpful".to_string()));
    let server = None;
    let result = merge_system_prompts(client, server).unwrap();
    assert_eq!(result, "You are helpful");
}

#[test]
fn test_merge_system_prompts_neither() {
    let client = None;
    let server = None;
    let result = merge_system_prompts(client, server);
    assert!(result.is_none());
}

#[test]
fn test_has_cache_control_true() {
    let system = val(r#"[
        {"type": "text", "text": "Block 1", "cache_control": {"type": "ephemeral"}}
    ]"#);
    assert!(has_cache_control(&system));
}

#[test]
fn test_has_cache_control_false() {
    let system = val(r#"[
        {"type": "text", "text": "Block 1"}
    ]"#);
    assert!(!has_cache_control(&system));
}

#[test]
fn test_extract_system_text() {
    let system = val(r#"[
        {"type": "text", "text": "Block 1"},
        {"type": "text", "text": "Block 2"}
    ]"#);
    let result = extract_system_text(&system).unwrap();
    assert_eq!(result, "Block 1\n\nBlock 2");
}

#[test]
fn test_transform_request_body_with_model_mapping_and_system_merge() {
    let body = br#"{"model":"opus-4-6","system":"You are helpful","messages":[]}"#;
    let mappings = val(r#"{"opus-4-6": "my-opus"}"#);
    let result = transform_request_body(
        body,
        &mappings,
        Some("Always respond in Vietnamese"),
        "/v1/messages",
        false,
    );
    let parsed: Value = serde_json::from_slice(&result).unwrap();
    assert_eq!(parsed["model"], "my-opus");
    assert_eq!(
        parsed["system"],
        "You are helpful\n\nAlways respond in Vietnamese"
    );
}

#[test]
fn test_transform_request_body_no_merge_on_non_messages_endpoint() {
    let body = br#"{"model":"opus-4-6","system":"You are helpful","messages":[]}"#;
    let mappings = val(r#"{}"#);
    let result = transform_request_body(
        body,
        &mappings,
        Some("Always respond in Vietnamese"),
        "/v1/other",
        false,
    );
    let parsed: Value = serde_json::from_slice(&result).unwrap();
    assert_eq!(parsed["system"], "You are helpful");
}

#[test]
fn test_transform_request_body_strips_empty_signature_thinking() {
    let body = serde_json::to_vec(&val(r#"{
        "model": "opus-4-7",
        "messages": [
            {"role": "user", "content": "hi"},
            {"role": "assistant", "content": [
                {"type": "thinking", "thinking": "stale", "signature": ""},
                {"type": "text", "text": "Hello"}
            ]},
            {"role": "user", "content": "again"}
        ]
    }"#))
    .unwrap();
    let result =
        transform_request_body(&body, &val(r#"{}"#), None, "/v1/messages", false);
    let parsed: Value = serde_json::from_slice(&result).unwrap();
    let assistant = parsed["messages"][1]["content"].as_array().unwrap();
    assert_eq!(
        assistant.len(),
        1,
        "empty-signature thinking must be stripped"
    );
    assert_eq!(assistant[0]["type"], "text");
}

#[test]
fn test_transform_request_body_strips_missing_signature_thinking() {
    let body = serde_json::to_vec(&val(r#"{
        "model": "opus-4-7",
        "messages": [
            {"role": "assistant", "content": [
                {"type": "thinking", "thinking": "no sig at all"},
                {"type": "text", "text": "Hi"}
            ]}
        ]
    }"#))
    .unwrap();
    let result =
        transform_request_body(&body, &val(r#"{}"#), None, "/v1/messages", false);
    let parsed: Value = serde_json::from_slice(&result).unwrap();
    let assistant = parsed["messages"][0]["content"].as_array().unwrap();
    assert_eq!(assistant.len(), 1);
    assert_eq!(assistant[0]["type"], "text");
}

#[test]
fn test_transform_request_body_keeps_valid_signature_thinking() {
    let body = serde_json::to_vec(&val(r#"{
        "model": "opus-4-7",
        "messages": [
            {"role": "assistant", "content": [
                {"type": "thinking", "thinking": "valid", "signature": "abc123"},
                {"type": "text", "text": "Hi"}
            ]}
        ]
    }"#))
    .unwrap();
    let result =
        transform_request_body(&body, &val(r#"{}"#), None, "/v1/messages", false);
    let parsed: Value = serde_json::from_slice(&result).unwrap();
    let assistant = parsed["messages"][0]["content"].as_array().unwrap();
    assert_eq!(
        assistant.len(),
        2,
        "valid-signature thinking must be preserved (cache-friendly)"
    );
}

#[test]
fn test_transform_request_body_does_not_touch_user_thinking_like_blocks() {

    let body = serde_json::to_vec(&val(r#"{
        "model": "opus-4-7",
        "messages": [
            {"role": "user", "content": [
                {"type": "thinking", "thinking": "verbatim", "signature": ""}
            ]}
        ]
    }"#))
    .unwrap();
    let result =
        transform_request_body(&body, &val(r#"{}"#), None, "/v1/messages", false);
    let parsed: Value = serde_json::from_slice(&result).unwrap();
    assert_eq!(
        parsed["messages"][0]["content"].as_array().unwrap().len(),
        1
    );
}

#[test]
fn test_transform_request_body_strips_mixed_signatures() {
    let body = serde_json::to_vec(&val(r#"{
        "model": "opus-4-7",
        "messages": [
            {"role": "assistant", "content": [
                {"type": "thinking", "thinking": "first", "signature": "good"},
                {"type": "thinking", "thinking": "second", "signature": ""},
                {"type": "text", "text": "done"}
            ]}
        ]
    }"#))
    .unwrap();
    let result =
        transform_request_body(&body, &val(r#"{}"#), None, "/v1/messages", false);
    let parsed: Value = serde_json::from_slice(&result).unwrap();
    let assistant = parsed["messages"][0]["content"].as_array().unwrap();
    assert_eq!(assistant.len(), 2);
    assert_eq!(assistant[0]["signature"], "good");
    assert_eq!(assistant[1]["type"], "text");
}

#[test]
fn test_transform_request_body_strips_empty_text_blocks() {
    let body = serde_json::to_vec(&val(r#"{
        "model": "opus-4-7",
        "messages": [
            {"role": "assistant", "content": [
                {"type": "text", "text": ""},
                {"type": "tool_use", "id": "tu_1", "name": "Read", "input": {}}
            ]},
            {"role": "user", "content": [
                {"type": "text", "text": "keep me"},
                {"type": "text", "text": ""}
            ]}
        ]
    }"#))
    .unwrap();
    let result =
        transform_request_body(&body, &val(r#"{}"#), None, "/v1/messages", false);
    let parsed: Value = serde_json::from_slice(&result).unwrap();
    let assistant = parsed["messages"][0]["content"].as_array().unwrap();
    assert_eq!(assistant.len(), 1);
    assert_eq!(assistant[0]["type"], "tool_use");
    let user = parsed["messages"][1]["content"].as_array().unwrap();
    assert_eq!(user.len(), 1);
    assert_eq!(user[0]["text"], "keep me");
}

#[test]
fn test_strip_thinking_blocks_full_strip_simulates_failover_path() {

    let body = serde_json::to_vec(&val(r#"{
        "model": "opus-4-7",
        "messages": [
            {"role": "assistant", "content": [
                {"type": "thinking", "thinking": "from account A", "signature": "validForA"},
                {"type": "text", "text": "response"}
            ]}
        ]
    }"#))
    .unwrap();
    let result = strip_thinking_blocks(&body).expect("should strip on failover");
    let parsed: Value = serde_json::from_slice(&result).unwrap();
    let assistant = parsed["messages"][0]["content"].as_array().unwrap();
    assert_eq!(assistant.len(), 1);
    assert_eq!(assistant[0]["type"], "text");
}

#[test]
fn test_client_wants_stream_explicit_true() {
    let body = br#"{"model":"opus-4-7","stream":true}"#;
    assert!(client_wants_stream(body));
}

#[test]
fn test_client_wants_stream_explicit_false() {
    let body = br#"{"model":"opus-4-7","stream":false}"#;
    assert!(!client_wants_stream(body));
}

#[test]
fn test_client_wants_stream_field_absent() {

    let body = br#"{"model":"opus-4-7","messages":[]}"#;
    assert!(!client_wants_stream(body));
}

#[test]
fn test_client_wants_stream_non_bool_value() {

    let body = br#"{"stream":"true"}"#;
    assert!(!client_wants_stream(body));
}

#[test]
fn test_client_wants_stream_invalid_json() {
    assert!(!client_wants_stream(b"not json at all"));
    assert!(!client_wants_stream(b""));
}

#[test]
fn test_remaining_timeout_none_when_unconfigured() {
    assert_eq!(remaining_timeout_ms(None, 0), None);
    assert_eq!(remaining_timeout_ms(None, 5_000), None);
}

#[test]
fn test_remaining_timeout_subtracts_elapsed() {
    assert_eq!(remaining_timeout_ms(Some(30_000), 0), Some(30_000));
    assert_eq!(remaining_timeout_ms(Some(30_000), 10_000), Some(20_000));
}

#[test]
fn test_remaining_timeout_zero_when_budget_spent() {

    assert_eq!(remaining_timeout_ms(Some(30_000), 30_000), Some(0));
    assert_eq!(remaining_timeout_ms(Some(30_000), 45_000), Some(0));
}

#[test]
fn test_remaining_timeout_treats_non_positive_config_as_disabled() {

    assert_eq!(remaining_timeout_ms(Some(0), 0), None);
    assert_eq!(remaining_timeout_ms(Some(-1), 0), None);
}

#[test]
fn test_extract_usage_tokens_anthropic() {
    let body = br#"{"usage":{"input_tokens":100,"output_tokens":50,
        "cache_creation_input_tokens":20,"cache_read_input_tokens":10}}"#;
    let u = extract_usage_tokens(body).expect("anthropic usage");
    assert_eq!(u.input_tokens, 100);
    assert_eq!(u.output_tokens, 50);
    assert_eq!(u.cache_creation_tokens, Some(20));
    assert_eq!(u.cache_read_tokens, Some(10));
}

#[test]
fn test_extract_usage_tokens_anthropic_without_cache_fields() {
    let body = br#"{"usage":{"input_tokens":7,"output_tokens":3}}"#;
    let u = extract_usage_tokens(body).expect("anthropic usage");
    assert_eq!((u.input_tokens, u.output_tokens), (7, 3));
    assert_eq!(u.cache_creation_tokens, None);
    assert_eq!(u.cache_read_tokens, None);
}

#[test]
fn test_extract_usage_tokens_ignores_openai_field_names() {

    let body = br#"{"usage":{"prompt_tokens":200,"completion_tokens":80,
        "prompt_tokens_details":{"cached_tokens":30}}}"#;
    assert!(extract_usage_tokens(body).is_none());
}

#[test]
fn test_effective_timeout_prefers_per_entity_value() {

    assert_eq!(
        effective_non_stream_timeout_ms(Some(15_000), Some(600_000)),
        Some(15_000)
    );

    assert_eq!(
        effective_non_stream_timeout_ms(Some(900_000), Some(600_000)),
        Some(900_000)
    );
}

#[test]
fn test_effective_timeout_falls_back_to_global_default() {

    assert_eq!(
        effective_non_stream_timeout_ms(None, Some(600_000)),
        Some(600_000)
    );
}

#[test]
fn test_effective_timeout_unbounded_only_when_both_absent() {

    assert_eq!(effective_non_stream_timeout_ms(None, None), None);
}

#[test]
fn test_effective_timeout_ignores_non_positive_values() {

    assert_eq!(
        effective_non_stream_timeout_ms(Some(0), Some(600_000)),
        Some(600_000)
    );
    assert_eq!(
        effective_non_stream_timeout_ms(Some(-1), Some(600_000)),
        Some(600_000)
    );
    assert_eq!(effective_non_stream_timeout_ms(Some(0), Some(0)), None);
    assert_eq!(effective_non_stream_timeout_ms(None, Some(-5)), None);
}

#[test]
fn test_non_stream_budget_carries_over_from_send_to_read() {

    let configured = Some(30_000);
    assert_eq!(remaining_timeout_ms(configured, 0), Some(30_000));

    assert_eq!(remaining_timeout_ms(configured, 12_000), Some(18_000));

    assert_eq!(remaining_timeout_ms(configured, 29_999), Some(1));
}

#[test]
fn test_non_stream_budget_absent_leaves_read_unbounded() {

    assert_eq!(remaining_timeout_ms(None, 12_000), None);
}

#[test]
fn test_upstream_ignoring_stream_request_is_still_non_streaming() {

    let body = br#"{"model":"opus-4-7","stream":true}"#;
    assert!(client_wants_stream(body));

    assert_eq!(remaining_timeout_ms(Some(45_000), 5_000), Some(40_000));
}

#[test]
fn test_extract_usage_tokens_missing_or_partial() {

    assert!(extract_usage_tokens(br#"{"id":"msg_1"}"#).is_none());

    assert!(extract_usage_tokens(br#"{"usage":{"input_tokens":5}}"#).is_none());

    assert!(extract_usage_tokens(b"<html>502</html>").is_none());
}

const THINKING_BODY: &str = r#"{"context_management":{},"temperature":0.30000000000000004,"messages":[
    {"role":"user","content":[{"type":"thinking","thinking":"mine"}]},
    {"role":"assistant","content":[
        {"type":"thinking","thinking":"a","signature":"s"},
        {"type":"text","text":""},
        {"type":"thinking","thinking":"b"},
        {"type":"text","text":"hi"}]}]}"#;

#[test]
fn a_stripped_body_needs_no_more_stripping() {
    let stripped = strip_thinking_blocks(THINKING_BODY.as_bytes()).unwrap();
    let read: Value = serde_json::from_slice(&stripped).unwrap();
    let mut expected = val(THINKING_BODY);
    expected["messages"][1]["content"] =
        val(r#"[{"type":"text","text":""},{"type":"text","text":"hi"}]"#);
    assert_eq!(read, expected);
    assert_eq!(strip_thinking_blocks(&stripped), None);
}

#[test]
fn a_transformed_body_is_left_as_it_is() {
    for remove_thinking in [false, true] {
        let once = transform_request_body(
            THINKING_BODY.as_bytes(),
            &val("{}"),
            None,
            "/v1/messages",
            remove_thinking,
        );
        let read: Value = serde_json::from_slice(&once).unwrap();
        assert!(read.get("context_management").is_none());
        assert_eq!(
            read["messages"][1]["content"],
            val(
                r#"[{"type":"thinking","thinking":"a","signature":"s"},{"type":"text","text":"hi"}]"#
            )
        );
        let twice = transform_request_body(&once, &val("{}"), None, "/v1/messages", remove_thinking);
        assert_eq!(twice, once);
    }
    let other = b"not json";
    assert_eq!(transform_request_body(other, &val("{}"), None, "/v1/messages", true), other);
}
