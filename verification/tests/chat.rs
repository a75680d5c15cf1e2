use serde_json::Value;
use viber_router::json::Json;
use viber_router::translate::chat;
use viber_router::translate::chat::map_stop_reason;
use viber_router::translate::{TranslateError, DEFAULT_MAX_TOKENS};

fn val(text: &str) -> Value {
    serde_json::from_str(text).unwrap()
}

/// The document with this value wherever the marker stands.
fn fill(doc: Value, marker: &str, value: impl Into<Value>) -> Value {
    replace(doc, marker, &value.into())
}

fn replace(doc: Value, marker: &str, value: &Value) -> Value {
    match doc {
        Value::String(s) if s == marker => value.clone(),
        Value::Array(items) => items.into_iter().map(|v| replace(v, marker, value)).collect(),
        Value::Object(members) => Value::Object(
            members.into_iter().map(|(k, v)| (k, replace(v, marker, value))).collect(),
        ),
        other => other,
    }
}

fn to_json(v: &Value) -> Json {
    Json::from_slice(&serde_json::to_vec(v).unwrap()).unwrap()
}

fn to_value(j: &Json) -> Value {
    val(&j.to_text())
}

fn request_to_anthropic(src: &Value) -> Result<(Value, Option<String>), TranslateError> {
    chat::request_to_anthropic(&to_json(src)).map(|(out, tool)| (to_value(&out), tool))
}

fn anthropic_to_response(message: &Value, tool: Option<&str>, model: Option<&str>) -> Value {
    to_value(&chat::anthropic_to_response(&to_json(message), tool, model))
}

fn build_usage(usage: Option<&Value>) -> Value {
    let usage = usage.map(to_json);
    to_value(&chat::build_usage(usage.as_ref()))
}

fn anthropic_error_to_response(body: &[u8]) -> Value {
    to_value(&chat::anthropic_error_to_response(body))
}

fn simple_request() -> Value {
    val(r#"{"model": "opus-4-6", "messages": [{"role": "user", "content": "hi"}]}"#)
}

#[test]
fn system_message_becomes_top_level_system() {
    let src = val(r#"{
        "model": "m",
        "messages": [
            {"role": "system", "content": "Be terse."},
            {"role": "user", "content": "hi"}
        ]
    }"#);
    let (out, _) = request_to_anthropic(&src).unwrap();
    assert_eq!(out["system"], "Be terse.");
    assert_eq!(out["messages"].as_array().unwrap().len(), 1);
    assert_eq!(out["messages"][0]["role"], "user");
}

#[test]
fn developer_message_not_first_is_still_extracted() {
    let src = val(r#"{
        "model": "m",
        "messages": [
            {"role": "user", "content": "hi"},
            {"role": "developer", "content": "Follow the rules."}
        ]
    }"#);
    let (out, _) = request_to_anthropic(&src).unwrap();
    assert_eq!(out["system"], "Follow the rules.");

    assert_eq!(out["messages"].as_array().unwrap().len(), 1);
}

#[test]
fn multi_turn_preserves_order_and_roles() {
    let src = val(r#"{
        "model": "m",
        "messages": [
            {"role": "user", "content": "1"},
            {"role": "assistant", "content": "2"},
            {"role": "user", "content": "3"}
        ]
    }"#);
    let (out, _) = request_to_anthropic(&src).unwrap();
    let msgs = out["messages"].as_array().unwrap();
    assert_eq!(msgs.len(), 3);
    assert_eq!(msgs[0]["role"], "user");
    assert_eq!(msgs[0]["content"], val(r#"[{"type": "text", "text": "1"}]"#));
    assert_eq!(msgs[1]["role"], "assistant");
    assert_eq!(msgs[2]["role"], "user");
}

#[test]
fn base64_image_part_translates() {
    let src = val(r#"{
        "model": "m",
        "messages": [{"role": "user", "content": [
            {"type": "image_url", "image_url": {"url": "data:image/png;base64,AAAA"}}
        ]}]
    }"#);
    let (out, _) = request_to_anthropic(&src).unwrap();
    assert_eq!(
        out["messages"][0]["content"][0],
        val(r#"{"type": "image", "source": {"type": "base64", "media_type": "image/png", "data": "AAAA"}}"#)
    );
}

#[test]
fn remote_image_url_part_translates() {
    let src = val(r#"{
        "model": "m",
        "messages": [{"role": "user", "content": [
            {"type": "image_url", "image_url": {"url": "https://example.com/a.png"}}
        ]}]
    }"#);
    let (out, _) = request_to_anthropic(&src).unwrap();
    assert_eq!(
        out["messages"][0]["content"][0],
        val(r#"{"type": "image", "source": {"type": "url", "url": "https://example.com/a.png"}}"#)
    );
}

#[test]
fn unparseable_data_url_errors_with_message_index() {
    let src = val(r#"{
        "model": "m",
        "messages": [
            {"role": "user", "content": "ok"},
            {"role": "user", "content": [
                {"type": "image_url", "image_url": {"url": "data:image/png,notbase64"}}
            ]}
        ]
    }"#);
    let err = request_to_anthropic(&src).unwrap_err();
    assert!(err.message.contains("messages[1]"));
}

#[test]
fn assistant_tool_call_becomes_tool_use_block() {
    let src = val(r#"{
        "model": "m",
        "messages": [
            {"role": "user", "content": "weather?"},
            {"role": "assistant", "content": null, "tool_calls": [
                {"id": "call_1", "type": "function", "function": {"name": "get_weather", "arguments": "{\"city\":\"Hanoi\"}"}}
            ]}
        ]
    }"#);
    let (out, _) = request_to_anthropic(&src).unwrap();
    assert_eq!(
        out["messages"][1]["content"],
        val(r#"[{"type": "tool_use", "id": "call_1", "name": "get_weather", "input": {"city": "Hanoi"}}]"#)
    );
}

#[test]
fn text_blocks_come_before_tool_use_blocks() {
    let src = val(r#"{
        "model": "m",
        "messages": [
            {"role": "user", "content": "go"},
            {"role": "assistant", "content": "Sure, checking.", "tool_calls": [
                {"id": "call_1", "type": "function", "function": {"name": "f", "arguments": "{}"}}
            ]}
        ]
    }"#);
    let (out, _) = request_to_anthropic(&src).unwrap();
    let content = out["messages"][1]["content"].as_array().unwrap();
    assert_eq!(content[0]["type"], "text");
    assert_eq!(content[1]["type"], "tool_use");
}

#[test]
fn unparseable_tool_call_arguments_are_coerced_not_rejected() {
    let src = val(r#"{
        "model": "m",
        "messages": [
            {"role": "user", "content": "go"},
            {"role": "assistant", "content": null, "tool_calls": [
                {"id": "call_bad", "type": "function", "function": {"name": "f", "arguments": "{not json"}}
            ]}
        ]
    }"#);
    let (out, _) = request_to_anthropic(&src).expect("must not be rejected");
    assert_eq!(out["messages"][1]["content"][0]["input"], val(r#"{}"#));
}

#[test]
fn chat_every_stored_arguments_shape_becomes_an_object_input() {
    let cases = [
        ("empty", val(r#""""#)),
        ("whitespace", val(r#""   ""#)),
        ("truncated fragment", val(r#""{\"command\":[\"pwsh\",""#)),
        ("bare null", val(r#""null""#)),
        ("bare number", val(r#""123""#)),
        ("bare string", val(r#""\"hello\"""#)),
        ("array", val(r#""[1,2]""#)),
        ("not even a string", val(r#"42"#)),
    ];
    for (label, args) in cases {
        let src = fill(val(r#"{
            "model": "m",
            "messages": [
                {"role": "user", "content": "go"},
                {"role": "assistant", "content": null, "tool_calls": [
                    {"id": "call_1", "type": "function", "function": {"name": "f", "arguments": "@args"}}
                ]},
                {"role": "tool", "tool_call_id": "call_1", "content": "done"}
            ]
        }"#), "@args", args.clone());
        let (out, _) = request_to_anthropic(&src)
            .unwrap_or_else(|e| panic!("{label}: must not be rejected: {}", e.message));
        let block = &out["messages"][1]["content"][0];
        assert_eq!(block["type"], "tool_use", "{label}");
        assert!(
            block["input"].is_object(),
            "{label}: input must be an object, got {}",
            block["input"]
        );
        assert_eq!(block["input"], val(r#"{}"#), "{label}");
    }
}

#[test]
fn chat_well_formed_stored_arguments_are_preserved() {
    let src = val(r#"{
        "model": "m",
        "messages": [
            {"role": "user", "content": "go"},
            {"role": "assistant", "content": null, "tool_calls": [
                {"id": "call_1", "type": "function", "function": {"name": "f", "arguments": "{\"city\":\"Hanoi\",\"n\":2}"}}
            ]}
        ]
    }"#);
    let (out, _) = request_to_anthropic(&src).unwrap();
    assert_eq!(
        out["messages"][1]["content"][0]["input"],
        val(r#"{"city": "Hanoi", "n": 2}"#)
    );
}

#[test]
fn empty_tool_call_arguments_are_treated_as_no_arguments() {
    for args in ["", "   "] {
        let src = fill(val(r#"{
            "model": "m",
            "messages": [
                {"role": "user", "content": "go"},
                {"role": "assistant", "content": null, "tool_calls": [
                    {"id": "call_1", "type": "function", "function": {"name": "f", "arguments": "@args"}}
                ]}
            ]
        }"#), "@args", args.clone());
        let (out, _) = request_to_anthropic(&src).expect("empty arguments must be accepted");
        let block = &out["messages"][1]["content"][0];
        assert_eq!(block["type"], "tool_use");
        assert_eq!(block["input"], val(r#"{}"#), "empty arguments become an empty input");
    }
}

#[test]
fn two_tool_results_merge_into_one_user_message() {
    let src = val(r#"{
        "model": "m",
        "messages": [
            {"role": "user", "content": "go"},
            {"role": "assistant", "content": null, "tool_calls": [
                {"id": "c1", "type": "function", "function": {"name": "f", "arguments": "{}"}},
                {"id": "c2", "type": "function", "function": {"name": "g", "arguments": "{}"}}
            ]},
            {"role": "tool", "tool_call_id": "c1", "content": "result1"},
            {"role": "tool", "tool_call_id": "c2", "content": "result2"}
        ]
    }"#);
    let (out, _) = request_to_anthropic(&src).unwrap();
    let msgs = out["messages"].as_array().unwrap();
    assert_eq!(msgs.len(), 3);
    let merged = &msgs[2];
    assert_eq!(merged["role"], "user");
    let content = merged["content"].as_array().unwrap();
    assert_eq!(content.len(), 2);
    assert_eq!(content[0]["tool_use_id"], "c1");
    assert_eq!(content[0]["content"], "result1");
    assert_eq!(content[1]["tool_use_id"], "c2");
}

#[test]
fn tool_result_string_content_passed_through_as_string() {
    let src = val(r#"{
        "model": "m",
        "messages": [
            {"role": "user", "content": "go"},
            {"role": "tool", "tool_call_id": "c1", "content": "72F and sunny"}
        ]
    }"#);
    let (out, _) = request_to_anthropic(&src).unwrap();
    let msgs = out["messages"].as_array().unwrap();
    assert_eq!(msgs[1]["content"][0]["content"], "72F and sunny");
}

#[test]
fn legacy_function_role_treated_as_tool_result() {
    let src = val(r#"{
        "model": "m",
        "messages": [
            {"role": "user", "content": "go"},
            {"role": "function", "name": "get_weather", "content": "sunny"}
        ]
    }"#);
    let (out, _) = request_to_anthropic(&src).unwrap();
    let msgs = out["messages"].as_array().unwrap();
    assert_eq!(msgs[1]["role"], "user");
    assert_eq!(msgs[1]["content"][0]["type"], "tool_result");
}

#[test]
fn leading_tool_message_gets_synthetic_user_prefix() {

    let src = val(r#"{
        "model": "m",
        "messages": [
            {"role": "tool", "tool_call_id": "c1", "content": "result"}
        ]
    }"#);
    let (out, _) = request_to_anthropic(&src).unwrap();
    let msgs = out["messages"].as_array().unwrap();
    assert_eq!(msgs.len(), 2);
    assert_eq!(msgs[0]["role"], "user");
    assert_eq!(msgs[0]["content"][0]["type"], "text");
}

#[test]
fn stop_as_single_string_becomes_stop_sequences_array() {
    let mut src = simple_request();
    src["stop"] = val(r#""STOP""#);
    let (out, _) = request_to_anthropic(&src).unwrap();
    assert_eq!(out["stop_sequences"], val(r#"["STOP"]"#));
}

#[test]
fn stop_as_array_passes_through() {
    let mut src = simple_request();
    src["stop"] = val(r#"["STOP", "END"]"#);
    let (out, _) = request_to_anthropic(&src).unwrap();
    assert_eq!(out["stop_sequences"], val(r#"["STOP", "END"]"#));
}

#[test]
fn temperature_and_top_p_pass_through() {
    let mut src = simple_request();
    src["temperature"] = val(r#"0.5"#);
    src["top_p"] = val(r#"0.9"#);
    let (out, _) = request_to_anthropic(&src).unwrap();
    assert_eq!(out["temperature"], 0.5);
    assert_eq!(out["top_p"], 0.9);
}

#[test]
fn stream_options_include_usage_does_not_error() {
    let mut src = simple_request();
    src["stream"] = val(r#"true"#);
    src["stream_options"] = val(r#"{"include_usage": true}"#);
    assert!(request_to_anthropic(&src).is_ok());
}

#[test]
fn max_completion_tokens_wins_over_max_tokens() {
    let mut src = simple_request();
    src["max_tokens"] = val(r#"999"#);
    src["max_completion_tokens"] = val(r#"2048"#);
    let (out, _) = request_to_anthropic(&src).unwrap();
    assert_eq!(out["max_tokens"], 2048);
}

#[test]
fn chat_max_tokens_defaults_when_absent() {
    let src = simple_request();
    let (out, _) = request_to_anthropic(&src).unwrap();
    assert_eq!(out["max_tokens"], DEFAULT_MAX_TOKENS);
}

#[test]
fn tool_definition_translates() {
    let mut src = simple_request();
    src["tools"] = val(r#"[{
        "type": "function",
        "function": {"name": "get_weather", "description": "d", "parameters": {"type": "object"}}
    }]"#);
    let (out, _) = request_to_anthropic(&src).unwrap();
    assert_eq!(
        out["tools"][0],
        val(r#"{"name": "get_weather", "description": "d", "input_schema": {"type": "object"}}"#)
    );
}

#[test]
fn named_tool_choice_maps_to_tool_type() {
    let mut src = simple_request();
    src["tools"] = val(r#"[{"type": "function", "function": {"name": "get_weather", "parameters": {}}}]"#);
    src["tool_choice"] = val(r#"{"type": "function", "function": {"name": "get_weather"}}"#);
    let (out, _) = request_to_anthropic(&src).unwrap();
    assert_eq!(out["tool_choice"], val(r#"{"type": "tool", "name": "get_weather"}"#));
}

#[test]
fn required_tool_choice_maps_to_any() {
    let mut src = simple_request();
    src["tools"] = val(r#"[{"type": "function", "function": {"name": "f", "parameters": {}}}]"#);
    src["tool_choice"] = val(r#""required""#);
    let (out, _) = request_to_anthropic(&src).unwrap();
    assert_eq!(out["tool_choice"], val(r#"{"type": "any"}"#));
}

#[test]
fn none_tool_choice_keeps_tools_but_disables_use() {
    let mut src = simple_request();
    src["tools"] = val(r#"[{"type": "function", "function": {"name": "f", "parameters": {}}}]"#);
    src["tool_choice"] = val(r#""none""#);
    let (out, _) = request_to_anthropic(&src).unwrap();
    assert_eq!(out["tool_choice"], val(r#"{"type": "none"}"#));
    assert_eq!(out["tools"].as_array().unwrap().len(), 1);
}

#[test]
fn json_object_appends_system_instruction() {
    let mut src = simple_request();
    src["response_format"] = val(r#"{"type": "json_object"}"#);
    let (out, tool) = request_to_anthropic(&src).unwrap();
    assert!(tool.is_none());
    assert!(out["system"].as_str().unwrap().contains("JSON"));
    assert!(out.get("tools").is_none());
}

#[test]
fn json_schema_with_no_tools_becomes_forced_synthetic_tool() {
    let mut src = simple_request();
    src["response_format"] = val(r#"{
        "type": "json_schema",
        "json_schema": {"name": "x", "schema": {"type": "object", "properties": {"a": {"type": "string"}}}}
    }"#);
    let (out, tool) = request_to_anthropic(&src).unwrap();
    assert_eq!(tool, Some("x".to_string()));
    assert_eq!(out["tools"][0]["name"], "x");
    assert_eq!(out["tool_choice"], val(r#"{"type": "tool", "name": "x"}"#));
}

#[test]
fn json_schema_with_client_tools_errors() {
    let mut src = simple_request();
    src["tools"] = val(r#"[{"type": "function", "function": {"name": "f", "parameters": {}}}]"#);
    src["response_format"] = val(r#"{
        "type": "json_schema",
        "json_schema": {"name": "x", "schema": {}}
    }"#);
    let err = request_to_anthropic(&src).unwrap_err();
    assert!(err.message.contains("json_schema"));
}

#[test]
fn n_greater_than_one_errors() {
    let mut src = simple_request();
    src["n"] = val(r#"2"#);
    let err = request_to_anthropic(&src).unwrap_err();
    assert!(err.message.contains('n'));
}

#[test]
fn n_equal_one_is_accepted() {
    let mut src = simple_request();
    src["n"] = val(r#"1"#);
    assert!(request_to_anthropic(&src).is_ok());
}

#[test]
fn logprobs_errors() {
    let mut src = simple_request();
    src["logprobs"] = val(r#"true"#);
    let err = request_to_anthropic(&src).unwrap_err();
    assert!(err.message.contains("logprobs"));
}

#[test]
fn seed_and_user_are_silently_ignored() {
    let mut src = simple_request();
    src["seed"] = val(r#"42"#);
    src["user"] = val(r#""u1""#);
    assert!(request_to_anthropic(&src).is_ok());
}

#[test]
fn plain_text_response_maps_stop_and_content() {
    let anthropic = val(r#"{
        "id": "msg_1", "model": "opus-4-6", "stop_reason": "end_turn",
        "content": [{"type": "text", "text": "hi"}],
        "usage": {"input_tokens": 3, "output_tokens": 2}
    }"#);
    let out = anthropic_to_response(&anthropic, None, None);
    assert_eq!(out["choices"][0]["finish_reason"], "stop");
    assert_eq!(out["choices"][0]["message"]["content"], "hi");
    assert_eq!(out["choices"][0]["message"]["role"], "assistant");
}

#[test]
fn tool_use_response_maps_to_tool_calls() {
    let anthropic = val(r#"{
        "id": "msg_1", "model": "m", "stop_reason": "tool_use",
        "content": [{"type": "tool_use", "id": "toolu_1", "name": "get_weather", "input": {"city": "Hanoi"}}],
        "usage": {"input_tokens": 1, "output_tokens": 1}
    }"#);
    let out = anthropic_to_response(&anthropic, None, None);
    assert_eq!(out["choices"][0]["finish_reason"], "tool_calls");
    assert_eq!(
        out["choices"][0]["message"]["tool_calls"][0],
        val(r#"{"id": "toolu_1", "type": "function", "function": {"name": "get_weather", "arguments": "{\"city\":\"Hanoi\"}"}}"#)
    );
}

#[test]
fn chat_tool_use_input_always_serializes_to_a_json_object_string() {
    let cases = [
        (Some(val(r#"{"city": "Hanoi"}"#)), val(r#"{"city": "Hanoi"}"#)),
        (Some(val(r#"{}"#)), val(r#"{}"#)),
        (Some(Value::Null), val(r#"{}"#)),
        (None, val(r#"{}"#)),
    ];
    for (input, expected) in cases {
        let mut block = val(r#"{"type": "tool_use", "id": "toolu_1", "name": "f"}"#);
        if let Some(input) = input {
            block["input"] = input;
        }
        let anthropic = fill(val(r#"{
            "id": "msg_1", "model": "m", "stop_reason": "tool_use",
            "content": ["@block"],
            "usage": {"input_tokens": 1, "output_tokens": 1}
        }"#), "@block", block.clone());
        let out = anthropic_to_response(&anthropic, None, None);
        let args = out["choices"][0]["message"]["tool_calls"][0]["function"]["arguments"]
            .as_str()
            .unwrap();
        let parsed: Value = serde_json::from_str(args).expect("arguments must parse");
        assert_eq!(parsed, expected);
        assert!(parsed.is_object());
    }
}

#[test]
fn synthetic_schema_tool_unwraps_to_content_string() {
    let anthropic = val(r#"{
        "id": "msg_1", "model": "m", "stop_reason": "tool_use",
        "content": [{"type": "tool_use", "id": "toolu_1", "name": "x", "input": {"a": "b"}}],
        "usage": {"input_tokens": 1, "output_tokens": 1}
    }"#);
    let out = anthropic_to_response(&anthropic, Some("x"), None);
    assert_eq!(out["choices"][0]["message"]["content"], "{\"a\":\"b\"}");
    assert!(out["choices"][0]["message"].get("tool_calls").is_none());
    assert_eq!(out["choices"][0]["finish_reason"], "stop");
}

#[test]
fn usage_maps_with_cache_read() {
    let usage = build_usage(Some(&val(r#"{
        "input_tokens": 10, "output_tokens": 5, "cache_read_input_tokens": 3
    }"#)));
    assert_eq!(
        usage,
        val(r#"{
            "prompt_tokens": 10, "completion_tokens": 5, "total_tokens": 15,
            "prompt_tokens_details": {"cached_tokens": 3}
        }"#)
    );
}

#[test]
fn usage_omits_cache_details_when_absent() {
    let usage = build_usage(Some(&val(r#"{"input_tokens": 10, "output_tokens": 5}"#)));
    assert!(usage.get("prompt_tokens_details").is_none());
}

#[test]
fn stop_reason_mapping_table() {
    assert_eq!(map_stop_reason(Some("end_turn")), "stop");
    assert_eq!(map_stop_reason(Some("stop_sequence")), "stop");
    assert_eq!(map_stop_reason(Some("max_tokens")), "length");
    assert_eq!(map_stop_reason(Some("tool_use")), "tool_calls");
}

#[test]
fn anthropic_error_translates_to_chat_envelope() {
    let body = br#"{"type":"error","error":{"type":"invalid_request_error","message":"bad model"}}"#;
    let out = anthropic_error_to_response(body);
    assert!(out.get("type").is_none());
    assert_eq!(out["error"]["message"], "bad model");
    assert_eq!(out["error"]["type"], "invalid_request_error");
}

#[test]
fn non_json_error_body_falls_back_to_raw_text() {
    let out = anthropic_error_to_response(b"upstream exploded");
    assert_eq!(out["error"]["message"], "upstream exploded");
}
