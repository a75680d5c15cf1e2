use serde_json::Value;
use viber_router::translate::chat_sse::ChatSseTranslator;

fn val(text: &str) -> Value {
    serde_json::from_str(text).unwrap()
}

/// The document with this value wherever the marker stands.
fn fill(doc: Value, marker: &str, value: impl Into<Value>) -> Value {
    replace(doc, marker, &value.into())
}

fn replace(doc: Value, marker: &str, value: &Value) -> Value {
    match doc {
        Value::String(s) if s == marker => value.clone(),
        Value::Array(items) => items.into_iter().map(|v| replace(v, marker, value)).collect(),
        Value::Object(members) => Value::Object(
            members.into_iter().map(|(k, v)| (k, replace(v, marker, value))).collect(),
        ),
        other => other,
    }
}

fn sse(event_type: &str, data: Value) -> Vec<u8> {
    format!("event: {event_type}\ndata: {data}\n\n").into_bytes()
}

fn parsed_chunks(bytes: &[u8]) -> Vec<Value> {
    let text = std::str::from_utf8(bytes).unwrap();
    text.lines()
        .filter_map(|l| l.strip_prefix("data: "))
        .filter(|d| *d != "[DONE]")
        .map(|d| serde_json::from_str(d).unwrap())
        .collect()
}

#[test]
fn text_only_stream_translates_role_content_and_finish() {
    let mut t = ChatSseTranslator::new(false, None);
    let mut all = Vec::new();
    all.extend(t.feed(&sse(
        "message_start",
        val(r#"{"type": "message_start", "message": {"usage": {"input_tokens": 10}}}"#),
    )));
    all.extend(t.feed(&sse(
        "content_block_start",
        val(r#"{"type": "content_block_start", "index": 0, "content_block": {"type": "text", "text": ""}}"#),
    )));
    for word in ["Hel", "lo", "!"] {
        all.extend(t.feed(&sse(
            "content_block_delta",
            fill(val(r#"{"type": "content_block_delta", "index": 0, "delta": {"type": "text_delta", "text": "@word"}}"#), "@word", word.clone()),
        )));
    }
    all.extend(t.feed(&sse(
        "content_block_stop",
        val(r#"{"type": "content_block_stop", "index": 0}"#),
    )));
    all.extend(t.feed(&sse(
        "message_delta",
        val(r#"{"type": "message_delta", "delta": {"stop_reason": "end_turn"}, "usage": {"output_tokens": 3}}"#),
    )));
    all.extend(t.feed(&sse("message_stop", val(r#"{"type": "message_stop"}"#))));
    all.extend(t.finish());

    let chunks = parsed_chunks(&all);
    assert_eq!(chunks[0]["choices"][0]["delta"]["role"], "assistant");
    let text: String = chunks[1..4]
        .iter()
        .map(|c| c["choices"][0]["delta"]["content"].as_str().unwrap())
        .collect();
    assert_eq!(text, "Hello!");
    assert_eq!(chunks.last().unwrap()["choices"][0]["finish_reason"], "stop");
    assert!(std::str::from_utf8(&all).unwrap().ends_with("data: [DONE]\n\n"));
}

#[test]
fn streaming_tool_call_announces_then_streams_arguments() {
    let mut t = ChatSseTranslator::new(false, None);
    let mut all = Vec::new();
    all.extend(t.feed(&sse("message_start", val(r#"{"type": "message_start", "message": {"usage": {}}}"#))));
    all.extend(t.feed(&sse(
        "content_block_start",
        val(r#"{"type": "content_block_start", "index": 0, "content_block": {"type": "tool_use", "id": "toolu_1", "name": "get_weather"}}"#),
    )));
    all.extend(t.feed(&sse(
        "content_block_delta",
        val(r#"{"type": "content_block_delta", "index": 0, "delta": {"type": "input_json_delta", "partial_json": "{\"city\":"}}"#),
    )));
    all.extend(t.feed(&sse(
        "content_block_delta",
        val(r#"{"type": "content_block_delta", "index": 0, "delta": {"type": "input_json_delta", "partial_json": "\"Hanoi\"}"}}"#),
    )));
    all.extend(t.feed(&sse(
        "message_delta",
        val(r#"{"type": "message_delta", "delta": {"stop_reason": "tool_use"}, "usage": {}}"#),
    )));

    let chunks = parsed_chunks(&all);
    let announce = &chunks[1]["choices"][0]["delta"]["tool_calls"][0];
    assert_eq!(announce["id"], "toolu_1");
    assert_eq!(announce["function"]["name"], "get_weather");
    assert_eq!(announce["function"]["arguments"], "");

    let frag1 = &chunks[2]["choices"][0]["delta"]["tool_calls"][0];
    assert_eq!(frag1["index"], 0);
    assert_eq!(frag1["function"]["arguments"], "{\"city\":");

    assert_eq!(chunks.last().unwrap()["choices"][0]["finish_reason"], "tool_calls");
}

#[test]
fn two_tool_calls_around_a_text_block_get_consecutive_openai_indices() {

    let mut t = ChatSseTranslator::new(false, None);
    let mut all = Vec::new();
    all.extend(t.feed(&sse("message_start", val(r#"{"type": "message_start", "message": {"usage": {}}}"#))));
    all.extend(t.feed(&sse(
        "content_block_start",
        val(r#"{"type": "content_block_start", "index": 0, "content_block": {"type": "tool_use", "id": "c1", "name": "f1"}}"#),
    )));
    all.extend(t.feed(&sse(
        "content_block_start",
        val(r#"{"type": "content_block_start", "index": 1, "content_block": {"type": "text", "text": ""}}"#),
    )));
    all.extend(t.feed(&sse(
        "content_block_start",
        val(r#"{"type": "content_block_start", "index": 2, "content_block": {"type": "tool_use", "id": "c2", "name": "f2"}}"#),
    )));
    all.extend(t.feed(&sse(
        "content_block_delta",
        val(r#"{"type": "content_block_delta", "index": 2, "delta": {"type": "input_json_delta", "partial_json": "{}"}}"#),
    )));

    let chunks = parsed_chunks(&all);

    assert_eq!(chunks[1]["choices"][0]["delta"]["tool_calls"][0]["index"], 0);
    assert_eq!(chunks[2]["choices"][0]["delta"]["tool_calls"][0]["index"], 1);
    assert_eq!(chunks[3]["choices"][0]["delta"]["tool_calls"][0]["index"], 1);
}

#[test]
fn include_usage_true_emits_final_usage_chunk() {
    let mut t = ChatSseTranslator::new(true, None);
    let mut all = Vec::new();
    all.extend(t.feed(&sse(
        "message_start",
        val(r#"{"type": "message_start", "message": {"usage": {"input_tokens": 10}}}"#),
    )));
    all.extend(t.feed(&sse(
        "message_delta",
        val(r#"{"type": "message_delta", "delta": {"stop_reason": "end_turn"}, "usage": {"output_tokens": 5}}"#),
    )));

    let chunks = parsed_chunks(&all);
    let usage_chunk = chunks.iter().find(|c| c.get("usage").is_some()).unwrap();
    assert_eq!(usage_chunk["usage"]["prompt_tokens"], 10);
    assert_eq!(usage_chunk["usage"]["completion_tokens"], 5);
    assert_eq!(usage_chunk["usage"]["total_tokens"], 15);
}

#[test]
fn include_usage_false_emits_no_usage_field() {
    let mut t = ChatSseTranslator::new(false, None);
    let mut all = Vec::new();
    all.extend(t.feed(&sse(
        "message_start",
        val(r#"{"type": "message_start", "message": {"usage": {"input_tokens": 10}}}"#),
    )));
    all.extend(t.feed(&sse(
        "message_delta",
        val(r#"{"type": "message_delta", "delta": {"stop_reason": "end_turn"}, "usage": {"output_tokens": 5}}"#),
    )));

    for chunk in parsed_chunks(&all) {
        assert!(chunk.get("usage").is_none());
    }
}

#[test]
fn mid_stream_error_preserves_prior_content_then_done() {
    let mut t = ChatSseTranslator::new(false, None);
    let mut all = Vec::new();
    all.extend(t.feed(&sse("message_start", val(r#"{"type": "message_start", "message": {"usage": {}}}"#))));
    all.extend(t.feed(&sse(
        "content_block_delta",
        val(r#"{"type": "content_block_delta", "index": 0, "delta": {"type": "text_delta", "text": "partial"}}"#),
    )));
    all.extend(t.feed(&sse(
        "error",
        val(r#"{"type": "error", "error": {"type": "overloaded_error", "message": "upstream overloaded"}}"#),
    )));

    let text = std::str::from_utf8(&all).unwrap();
    assert!(text.contains("partial"));
    let chunks = parsed_chunks(&all);
    let error_chunk = chunks.last().unwrap();
    assert_eq!(error_chunk["error"]["message"], "upstream overloaded");
    assert!(text.trim_end().ends_with("data: [DONE]"));
}

#[test]
fn thinking_blocks_emit_no_chunks() {
    let mut t = ChatSseTranslator::new(false, None);
    let mut all = Vec::new();
    all.extend(t.feed(&sse("message_start", val(r#"{"type": "message_start", "message": {"model": "m", "usage": {}}}"#))));
    let before = parsed_chunks(&all).len();
    all.extend(t.feed(&sse("content_block_start", val(r#"{"type": "content_block_start", "index": 0, "content_block": {"type": "thinking", "thinking": ""}}"#))));
    all.extend(t.feed(&sse("content_block_delta", val(r#"{"type": "content_block_delta", "index": 0, "delta": {"type": "thinking_delta", "thinking": "secret reasoning"}}"#))));
    all.extend(t.feed(&sse("content_block_stop", val(r#"{"type": "content_block_stop", "index": 0}"#))));

    assert_eq!(parsed_chunks(&all).len(), before, "thinking must add no chunks");
    assert!(
        !String::from_utf8(all).unwrap().contains("secret reasoning"),
        "reasoning text must not leak into content"
    );
}

#[test]
fn tool_argument_delta_without_a_start_emits_nothing() {
    let mut t = ChatSseTranslator::new(false, None);
    let mut all = Vec::new();
    all.extend(t.feed(&sse("message_start", val(r#"{"type": "message_start", "message": {"model": "m", "usage": {}}}"#))));
    let before = parsed_chunks(&all).len();

    all.extend(t.feed(&sse("content_block_delta", val(r#"{"type": "content_block_delta", "index": 0, "delta": {"type": "input_json_delta", "partial_json": "{}"}}"#))));

    assert_eq!(
        parsed_chunks(&all).len(),
        before,
        "an unannounced tool index must not be referenced"
    );
}

#[test]
fn choice_index_is_always_zero_because_n_gt_1_is_rejected() {
    let mut t = ChatSseTranslator::new(false, None);
    let mut all = Vec::new();
    all.extend(t.feed(&sse("message_start", val(r#"{"type": "message_start", "message": {"model": "m", "usage": {}}}"#))));
    all.extend(t.feed(&sse("content_block_delta", val(r#"{"type": "content_block_delta", "index": 0, "delta": {"type": "text_delta", "text": "hi"}}"#))));
    all.extend(t.feed(&sse("message_delta", val(r#"{"type": "message_delta", "delta": {"stop_reason": "end_turn"}, "usage": {"output_tokens": 1}}"#))));

    let chunks = parsed_chunks(&all);
    assert!(!chunks.is_empty());
    for chunk in &chunks {
        if let Some(choices) = chunk["choices"].as_array() {
            if !choices.is_empty() {
                assert_eq!(choices.len(), 1);
                assert_eq!(choices[0]["index"], 0);
            }
        }
    }
}

#[test]
fn client_model_is_echoed_on_every_chunk_over_the_upstream_name() {

    let mut t = ChatSseTranslator::new(false, Some("gpt-4o"));
    let mut all = Vec::new();
    all.extend(t.feed(&sse(
        "message_start",
        val(r#"{"type": "message_start", "message": {"model": "sonnet-4-6", "usage": {"input_tokens": 1}}}"#),
    )));
    all.extend(t.feed(&sse(
        "content_block_delta",
        val(r#"{"type": "content_block_delta", "index": 0, "delta": {"type": "text_delta", "text": "hi"}}"#),
    )));

    let chunks = parsed_chunks(&all);
    assert!(!chunks.is_empty());
    for chunk in &chunks {
        assert_eq!(chunk["model"], "gpt-4o");
    }
}

#[test]
fn chat_sse_upstream_model_is_used_when_client_model_is_absent() {
    let mut t = ChatSseTranslator::new(false, None);
    let all = t.feed(&sse(
        "message_start",
        val(r#"{"type": "message_start", "message": {"model": "sonnet-4-6", "usage": {}}}"#),
    ));
    let chunks = parsed_chunks(&all);
    assert_eq!(chunks[0]["model"], "sonnet-4-6");
}

#[test]
fn feed_across_arbitrary_chunk_boundaries_still_parses() {
    let mut t = ChatSseTranslator::new(false, None);
    let full = sse(
        "content_block_delta",
        val(r#"{"type": "content_block_delta", "index": 0, "delta": {"type": "text_delta", "text": "hi"}}"#),
    );
    let mut all = t.feed(&sse("message_start", val(r#"{"type": "message_start", "message": {"usage": {}}}"#)));

    let (first, second) = full.split_at(full.len() / 2);
    all.extend(t.feed(first));
    all.extend(t.feed(second));

    let chunks = parsed_chunks(&all);
    assert_eq!(chunks.last().unwrap()["choices"][0]["delta"]["content"], "hi");
}
