use serde_json::Value;
use viber_router::json::Json;
use viber_router::translate::responses;
use viber_router::translate::{TranslateError, DEFAULT_MAX_TOKENS};

fn val(text: &str) -> Value {
    serde_json::from_str(text).unwrap()
}

/// The document with this value wherever the marker stands.
fn fill(doc: Value, marker: &str, value: impl Into<Value>) -> Value {
    replace(doc, marker, &value.into())
}

fn replace(doc: Value, marker: &str, value: &Value) -> Value {
    match doc {
        Value::String(s) if s == marker => value.clone(),
        Value::Array(items) => items.into_iter().map(|v| replace(v, marker, value)).collect(),
        Value::Object(members) => Value::Object(
            members.into_iter().map(|(k, v)| (k, replace(v, marker, value))).collect(),
        ),
        other => other,
    }
}

fn to_json(v: &Value) -> Json {
    Json::from_slice(&serde_json::to_vec(v).unwrap()).unwrap()
}

fn to_value(j: &Json) -> Value {
    val(&j.to_text())
}

fn request_to_anthropic(src: &Value) -> Result<Value, TranslateError> {
    responses::request_to_anthropic(&to_json(src)).map(|out| to_value(&out))
}

fn anthropic_to_response(message: &Value, model: Option<&str>) -> Value {
    to_value(&responses::anthropic_to_response(&to_json(message), model))
}

fn anthropic_error_to_response(body: &[u8]) -> Value {
    to_value(&responses::anthropic_error_to_response(body))
}

fn simple_request() -> Value {
    val(r#"{"model": "opus-4-6", "input": "hi"}"#)
}

#[test]
fn instructions_becomes_system() {
    let src = val(r#"{"model": "m", "instructions": "Be terse.", "input": "hi"}"#);
    let out = request_to_anthropic(&src).unwrap();
    assert_eq!(out["system"], "Be terse.");
}

#[test]
fn string_input_becomes_one_user_message() {
    let src = val(r#"{"model": "m", "input": "What is 2+2?"}"#);
    let out = request_to_anthropic(&src).unwrap();
    assert_eq!(
        out["messages"],
        val(r#"[{"role": "user", "content": [{"type": "text", "text": "What is 2+2?"}]}]"#)
    );
}

#[test]
fn array_input_with_function_call_and_output() {
    let src = val(r#"{
        "model": "m",
        "input": [
            {"type": "message", "role": "user", "content": [{"type": "input_text", "text": "weather?"}]},
            {"type": "function_call", "call_id": "c1", "name": "get_weather", "arguments": "{\"city\":\"Hanoi\"}"},
            {"type": "function_call_output", "call_id": "c1", "output": "72F"}
        ]
    }"#);
    let out = request_to_anthropic(&src).unwrap();
    let msgs = out["messages"].as_array().unwrap();
    assert_eq!(msgs.len(), 3);
    assert_eq!(msgs[0]["role"], "user");
    assert_eq!(msgs[1]["role"], "assistant");
    assert_eq!(msgs[1]["content"][0]["type"], "tool_use");
    assert_eq!(msgs[2]["role"], "user");
    assert_eq!(msgs[2]["content"][0]["type"], "tool_result");
    assert_eq!(msgs[2]["content"][0]["tool_use_id"], "c1");
}

#[test]
fn input_image_by_url() {
    let src = val(r#"{
        "model": "m",
        "input": [{"type": "message", "role": "user", "content": [
            {"type": "input_image", "image_url": "https://example.com/a.png"}
        ]}]
    }"#);
    let out = request_to_anthropic(&src).unwrap();
    assert_eq!(
        out["messages"][0]["content"][0],
        val(r#"{"type": "image", "source": {"type": "url", "url": "https://example.com/a.png"}}"#)
    );
}

#[test]
fn flat_function_tool_shape_maps_to_anthropic_tool() {
    let mut src = simple_request();
    src["tools"] = val(r#"[{"type": "function", "name": "get_weather", "parameters": {"type": "object"}}]"#);
    let out = request_to_anthropic(&src).unwrap();
    assert_eq!(
        out["tools"][0],
        val(r#"{"name": "get_weather", "input_schema": {"type": "object"}}"#)
    );
}

#[test]
fn max_output_tokens_maps_to_max_tokens() {
    let mut src = simple_request();
    src["max_output_tokens"] = val(r#"2048"#);
    let out = request_to_anthropic(&src).unwrap();
    assert_eq!(out["max_tokens"], 2048);
}

#[test]
fn responses_max_tokens_defaults_when_absent() {
    let out = request_to_anthropic(&simple_request()).unwrap();
    assert_eq!(out["max_tokens"], DEFAULT_MAX_TOKENS);
}

#[test]
fn high_effort_sets_thinking_budget_and_raises_max_tokens() {
    let mut src = simple_request();
    src["reasoning"] = val(r#"{"effort": "high"}"#);
    let out = request_to_anthropic(&src).unwrap();
    assert_eq!(out["thinking"], val(r#"{"type": "enabled", "budget_tokens": 16384}"#));
    assert!(out["max_tokens"].as_i64().unwrap() > 16384);
}

#[test]
fn unrecognized_effort_sets_no_thinking() {
    let mut src = simple_request();
    src["reasoning"] = val(r#"{"effort": "turbo"}"#);
    let out = request_to_anthropic(&src).unwrap();
    assert!(out.get("thinking").is_none());
}

#[test]
fn store_true_errors() {
    let mut src = simple_request();
    src["store"] = val(r#"true"#);
    let err = request_to_anthropic(&src).unwrap_err();
    assert!(err.message.contains("store"));
}

#[test]
fn previous_response_id_errors() {
    let mut src = simple_request();
    src["previous_response_id"] = val(r#""resp_abc""#);
    let err = request_to_anthropic(&src).unwrap_err();
    assert!(err.message.contains("previous_response_id"));
}

#[test]
fn store_false_is_accepted() {
    let mut src = simple_request();
    src["store"] = val(r#"false"#);
    assert!(request_to_anthropic(&src).is_ok());
}

#[test]
fn tool_choice_is_not_set_when_there_are_no_tools() {

    let mut src = simple_request();
    src["tool_choice"] = val(r#""auto""#);
    let out = request_to_anthropic(&src).unwrap();
    assert!(out.get("tool_choice").is_none());
}

#[test]
fn plain_text_response_is_completed_with_message_output() {
    let anthropic = val(r#"{
        "id": "msg_1", "model": "m", "stop_reason": "end_turn",
        "content": [{"type": "text", "text": "4"}],
        "usage": {"input_tokens": 3, "output_tokens": 1}
    }"#);
    let out = anthropic_to_response(&anthropic, None);
    assert_eq!(out["status"], "completed");

    let item = &out["output"][0];
    assert_eq!(out["output"].as_array().unwrap().len(), 1);
    assert_eq!(item["type"], "message");
    assert_eq!(item["role"], "assistant");
    assert_eq!(item["status"], "completed");
    assert_eq!(item["content"], val(r#"[{"type": "output_text", "text": "4"}]"#));

    assert!(item["id"].as_str().unwrap().starts_with("msg_"));
}

#[test]
fn empty_function_call_arguments_are_treated_as_no_arguments() {
    for args in ["", "   "] {
        let src = fill(val(r#"{
            "model": "m",
            "input": [
                {"type": "message", "role": "user", "content": [{"type": "input_text", "text": "go"}]},
                {"type": "function_call", "call_id": "call_1", "name": "get_time", "arguments": "@args"}
            ]
        }"#), "@args", args.clone());
        let out = request_to_anthropic(&src).expect("empty arguments must be accepted");
        let block = &out["messages"][1]["content"][0];
        assert_eq!(block["type"], "tool_use");
        assert_eq!(block["input"], val(r#"{}"#));
    }
}

#[test]
fn responses_tool_use_input_always_serializes_to_a_json_object_string() {
    let cases = [
        (val(r#"{"city": "Hanoi"}"#), val(r#"{"city": "Hanoi"}"#)),
        (val(r#"{}"#), val(r#"{}"#)),
        (Value::Null, val(r#"{}"#)),
    ];
    for (input, expected) in cases {
        let anthropic = fill(val(r#"{
            "id": "msg_1", "model": "m", "stop_reason": "tool_use",
            "content": [{"type": "tool_use", "id": "toolu_1", "name": "f", "input": "@input"}],
            "usage": {"input_tokens": 1, "output_tokens": 1}
        }"#), "@input", input.clone());
        let out = anthropic_to_response(&anthropic, None);
        let args = out["output"][0]["arguments"].as_str().unwrap();
        let parsed: Value = serde_json::from_str(args).expect("arguments must parse");
        assert_eq!(parsed, expected);
        assert!(parsed.is_object(), "arguments must decode to an object");
    }
}

#[test]
fn tool_use_with_no_input_key_serializes_to_empty_object() {
    let anthropic = val(r#"{
        "id": "msg_1", "model": "m", "stop_reason": "tool_use",
        "content": [{"type": "tool_use", "id": "toolu_1", "name": "f"}],
        "usage": {"input_tokens": 1, "output_tokens": 1}
    }"#);
    let out = anthropic_to_response(&anthropic, None);
    assert_eq!(out["output"][0]["arguments"], "{}");
}

#[test]
fn responses_every_stored_arguments_shape_becomes_an_object_input() {
    let cases = [
        ("empty", val(r#""""#)),
        ("whitespace", val(r#""   ""#)),
        ("truncated fragment", val(r#""{\"a\":""#)),
        ("bare null", val(r#""null""#)),
        ("bare number", val(r#""123""#)),
        ("bare string", val(r#""\"hello\"""#)),
        ("array", val(r#""[1,2]""#)),
        ("not even a string", val(r#"42"#)),
        ("outright garbage", val(r#""{not json""#)),
    ];
    for (label, args) in cases {
        let src = fill(val(r#"{
            "model": "m",
            "input": [
                {"type": "message", "role": "user", "content": [{"type": "input_text", "text": "go"}]},
                {"type": "function_call", "call_id": "call_2Yf4", "name": "shell", "arguments": "@args"},
                {"type": "function_call_output", "call_id": "call_2Yf4", "output": "ok"}
            ]
        }"#), "@args", args.clone());
        let out = request_to_anthropic(&src)
            .unwrap_or_else(|e| panic!("{label}: must not be rejected: {}", e.message));

        let block = &out["messages"][1]["content"][0];
        assert_eq!(block["type"], "tool_use", "{label}");
        assert!(
            block["input"].is_object(),
            "{label}: input must be an object, got {}",
            block["input"]
        );
        assert_eq!(block["input"], val(r#"{}"#), "{label}");
    }
}

#[test]
fn function_call_with_no_arguments_key_becomes_an_object_input() {
    let src = val(r#"{
        "model": "m",
        "input": [
            {"type": "function_call", "call_id": "call_1", "name": "f"}
        ]
    }"#);
    let out = request_to_anthropic(&src).expect("must be accepted");
    assert_eq!(out["messages"][1]["content"][0]["input"], val(r#"{}"#));
}

#[test]
fn responses_well_formed_stored_arguments_are_preserved() {
    let src = val(r#"{
        "model": "m",
        "input": [
            {"type": "function_call", "call_id": "call_1", "name": "shell",
             "arguments": "{\"command\":[\"ls\"],\"timeout_ms\":5000}"}
        ]
    }"#);
    let out = request_to_anthropic(&src).unwrap();

    assert_eq!(
        out["messages"][1]["content"][0]["input"],
        val(r#"{"command": ["ls"], "timeout_ms": 5000}"#)
    );
}

#[test]
fn responses_thinking_blocks_produce_no_output_item() {
    let anthropic = val(r#"{
        "id": "msg_1", "model": "m", "stop_reason": "end_turn",
        "content": [
            {"type": "thinking", "thinking": "step one", "signature": "sig"},
            {"type": "redacted_thinking", "data": "opaque"},
            {"type": "text", "text": "answer"}
        ],
        "usage": {"input_tokens": 1, "output_tokens": 1}
    }"#);
    let out = anthropic_to_response(&anthropic, None);
    let output = out["output"].as_array().unwrap();
    assert_eq!(output.len(), 1, "only the text block may produce an item");
    assert_eq!(output[0]["content"][0]["text"], "answer");
}

#[test]
fn each_text_block_becomes_its_own_message_item_in_order() {

    let anthropic = val(r#"{
        "id": "msg_1", "model": "m", "stop_reason": "end_turn",
        "content": [
            {"type": "text", "text": "first"},
            {"type": "tool_use", "id": "toolu_1", "name": "f", "input": {}},
            {"type": "text", "text": "second"}
        ],
        "usage": {"input_tokens": 1, "output_tokens": 1}
    }"#);
    let out = anthropic_to_response(&anthropic, None);
    let output = out["output"].as_array().unwrap();
    assert_eq!(output.len(), 3);
    assert_eq!(output[0]["content"][0]["text"], "first");
    assert_eq!(output[1]["type"], "function_call");
    assert_eq!(output[2]["content"][0]["text"], "second");
}

#[test]
fn max_tokens_stop_reason_is_incomplete() {
    let anthropic = val(r#"{
        "id": "msg_1", "model": "m", "stop_reason": "max_tokens",
        "content": [{"type": "text", "text": "cut off"}],
        "usage": {"input_tokens": 1, "output_tokens": 1}
    }"#);
    let out = anthropic_to_response(&anthropic, None);
    assert_eq!(out["status"], "incomplete");
    assert_eq!(out["incomplete_details"]["reason"], "max_output_tokens");
}

#[test]
fn tool_use_response_becomes_function_call_item() {
    let anthropic = val(r#"{
        "id": "msg_1", "model": "m", "stop_reason": "tool_use",
        "content": [{"type": "tool_use", "id": "toolu_1", "name": "get_weather", "input": {"city": "Hanoi"}}],
        "usage": {"input_tokens": 1, "output_tokens": 1}
    }"#);
    let out = anthropic_to_response(&anthropic, None);
    let item = &out["output"][0];
    assert_eq!(item["type"], "function_call");
    assert_eq!(item["call_id"], "toolu_1");
    assert_eq!(item["name"], "get_weather");
    assert_eq!(item["arguments"], "{\"city\":\"Hanoi\"}");
    assert_eq!(item["status"], "completed");
    assert!(item["id"].as_str().unwrap().starts_with("fc_"));
}

#[test]
fn usage_maps_with_cached_tokens() {
    let anthropic = val(r#"{
        "id": "msg_1", "model": "m", "stop_reason": "end_turn",
        "content": [], "usage": {"input_tokens": 10, "output_tokens": 5, "cache_read_input_tokens": 3}
    }"#);
    let out = anthropic_to_response(&anthropic, None);
    assert_eq!(out["usage"]["input_tokens_details"]["cached_tokens"], 3);
    assert_eq!(out["usage"]["total_tokens"], 15);
}

#[test]
fn error_translates_to_responses_envelope() {
    let body = br#"{"type":"error","error":{"type":"invalid_request_error","message":"bad"}}"#;
    let out = anthropic_error_to_response(body);
    assert_eq!(out["object"], "error");
    assert_eq!(out["error"]["message"], "bad");
}
