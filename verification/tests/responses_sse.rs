use serde_json::Value;
use viber_router::translate::responses_sse::ResponsesSseTranslator;

fn val(text: &str) -> Value {
    serde_json::from_str(text).unwrap()
}

/// The document with this value wherever the marker stands.
fn fill(doc: Value, marker: &str, value: impl Into<Value>) -> Value {
    replace(doc, marker, &value.into())
}

fn replace(doc: Value, marker: &str, value: &Value) -> Value {
    match doc {
        Value::String(s) if s == marker => value.clone(),
        Value::Array(items) => items.into_iter().map(|v| replace(v, marker, value)).collect(),
        Value::Object(members) => Value::Object(
            members.into_iter().map(|(k, v)| (k, replace(v, marker, value))).collect(),
        ),
        other => other,
    }
}

fn sse(data: Value) -> Vec<u8> {
    format!("event: {}\ndata: {data}\n\n", data["type"].as_str().unwrap()).into_bytes()
}

fn parsed_events(bytes: &[u8]) -> Vec<Value> {
    std::str::from_utf8(bytes)
        .unwrap()
        .lines()
        .filter_map(|l| l.strip_prefix("data: "))
        .map(|d| serde_json::from_str(d).unwrap())
        .collect()
}

#[test]
fn plain_text_stream_emits_expected_event_sequence() {
    let mut t = ResponsesSseTranslator::new(None);
    let mut all = Vec::new();
    all.extend(t.feed(&sse(val(r#"{"type": "message_start", "message": {"usage": {"input_tokens": 10}}}"#))));
    all.extend(t.feed(&sse(val(r#"{"type": "content_block_start", "index": 0, "content_block": {"type": "text", "text": ""}}"#))));
    for word in ["Hel", "lo"] {
        all.extend(t.feed(&sse(fill(val(r#"{"type": "content_block_delta", "index": 0, "delta": {"type": "text_delta", "text": "@word"}}"#), "@word", word.clone()))));
    }
    all.extend(t.feed(&sse(val(r#"{"type": "content_block_stop", "index": 0}"#))));
    all.extend(t.feed(&sse(val(r#"{"type": "message_delta", "delta": {"stop_reason": "end_turn"}, "usage": {"output_tokens": 2}}"#))));
    all.extend(t.finish());

    let events: Vec<String> = parsed_events(&all)
        .iter()
        .map(|e| e["type"].as_str().unwrap().to_string())
        .collect();

    assert_eq!(
        events,
        vec![
            "response.created",
            "response.in_progress",
            "response.output_item.added",
            "response.content_part.added",
            "response.output_text.delta",
            "response.output_text.delta",
            "response.output_text.done",
            "response.content_part.done",
            "response.output_item.done",
            "response.completed"
        ]
    );

    let deltas: String = parsed_events(&all)
        .iter()
        .filter(|e| e["type"] == "response.output_text.delta")
        .map(|e| e["delta"].as_str().unwrap().to_string())
        .collect();
    assert_eq!(deltas, "Hello");

    let completed = parsed_events(&all).into_iter().last().unwrap();
    assert_eq!(completed["response"]["status"], "completed");
    assert_eq!(
        completed["response"]["output"][0]["content"][0]["text"],
        "Hello"
    );
}

#[test]
fn text_deltas_carry_the_announced_item_id_not_the_response_id() {
    let mut t = ResponsesSseTranslator::new(None);
    let mut all = Vec::new();
    all.extend(t.feed(&sse(val(r#"{"type": "message_start", "message": {"usage": {}}}"#))));
    all.extend(t.feed(&sse(val(r#"{"type": "content_block_start", "index": 0, "content_block": {"type": "text", "text": ""}}"#))));
    all.extend(t.feed(&sse(val(r#"{"type": "content_block_delta", "index": 0, "delta": {"type": "text_delta", "text": "hi"}}"#))));

    let events = parsed_events(&all);
    let response_id = events[0]["response"]["id"].as_str().unwrap().to_string();
    let added = events.iter().find(|e| e["type"] == "response.output_item.added").unwrap();
    let announced_id = added["item"]["id"].as_str().unwrap().to_string();

    assert!(announced_id.starts_with("msg_"), "item id was {announced_id}");
    assert_ne!(announced_id, response_id, "item id must not be the response id");

    for kind in [
        "response.content_part.added",
        "response.output_text.delta",
    ] {
        let e = events.iter().find(|e| e["type"] == kind).unwrap();
        assert_eq!(e["item_id"], announced_id.as_str(), "{kind} carried the wrong item_id");
        assert_eq!(e["content_index"], 0, "{kind} is missing content_index");
    }
}

#[test]
fn responses_sse_thinking_blocks_produce_no_output_item() {
    let mut t = ResponsesSseTranslator::new(None);
    let mut all = Vec::new();
    all.extend(t.feed(&sse(val(r#"{"type": "message_start", "message": {"usage": {}}}"#))));

    all.extend(t.feed(&sse(val(r#"{"type": "content_block_start", "index": 0, "content_block": {"type": "thinking", "thinking": ""}}"#))));
    all.extend(t.feed(&sse(val(r#"{"type": "content_block_delta", "index": 0, "delta": {"type": "thinking_delta", "thinking": "step one"}}"#))));
    all.extend(t.feed(&sse(val(r#"{"type": "content_block_stop", "index": 0}"#))));

    all.extend(t.feed(&sse(val(r#"{"type": "content_block_start", "index": 1, "content_block": {"type": "text", "text": ""}}"#))));
    all.extend(t.feed(&sse(val(r#"{"type": "content_block_delta", "index": 1, "delta": {"type": "text_delta", "text": "answer"}}"#))));
    all.extend(t.feed(&sse(val(r#"{"type": "content_block_stop", "index": 1}"#))));
    all.extend(t.feed(&sse(val(r#"{"type": "message_delta", "delta": {"stop_reason": "end_turn"}, "usage": {"output_tokens": 5}}"#))));

    let events = parsed_events(&all);
    let added: Vec<&Value> = events
        .iter()
        .filter(|e| e["type"] == "response.output_item.added")
        .collect();
    assert_eq!(added.len(), 1, "thinking must not announce an item");
    assert_eq!(added[0]["output_index"], 0, "the answer must still be item 0");

    let completed = events.iter().find(|e| e["type"] == "response.completed").unwrap();
    let output = completed["response"]["output"].as_array().unwrap();
    assert_eq!(output.len(), 1, "no empty message item may be emitted");
    assert_eq!(output[0]["content"][0]["text"], "answer");

    assert!(
        !String::from_utf8(all.clone()).unwrap().contains("step one"),
        "reasoning text must not be emitted as output text"
    );
}

#[test]
fn redacted_thinking_and_server_tool_use_also_produce_no_item() {
    for block_type in ["redacted_thinking", "server_tool_use", "some_future_block"] {
        let mut t = ResponsesSseTranslator::new(None);
        let mut all = Vec::new();
        all.extend(t.feed(&sse(val(r#"{"type": "message_start", "message": {"usage": {}}}"#))));
        all.extend(t.feed(&sse(fill(val(r#"{"type": "content_block_start", "index": 0, "content_block": {"type": "@block_type"}}"#), "@block_type", block_type.clone()))));
        all.extend(t.feed(&sse(val(r#"{"type": "content_block_stop", "index": 0}"#))));
        all.extend(t.feed(&sse(val(r#"{"type": "message_delta", "delta": {"stop_reason": "end_turn"}, "usage": {}}"#))));

        let events = parsed_events(&all);
        assert!(
            !events.iter().any(|e| e["type"] == "response.output_item.added"),
            "{block_type} must not announce an item"
        );
        let completed = events.iter().find(|e| e["type"] == "response.completed").unwrap();
        assert_eq!(
            completed["response"]["output"].as_array().unwrap().len(),
            0,
            "{block_type} must not appear in output"
        );
    }
}

#[test]
fn tool_call_with_no_argument_deltas_reports_empty_object() {
    let mut t = ResponsesSseTranslator::new(None);
    let mut all = Vec::new();
    all.extend(t.feed(&sse(val(r#"{"type": "message_start", "message": {"usage": {}}}"#))));
    all.extend(t.feed(&sse(val(r#"{
        "type": "content_block_start", "index": 0,
        "content_block": {"type": "tool_use", "id": "toolu_1", "name": "get_time", "input": {}}
    }"#))));

    all.extend(t.feed(&sse(val(r#"{"type": "content_block_stop", "index": 0}"#))));
    all.extend(t.feed(&sse(val(r#"{"type": "message_delta", "delta": {"stop_reason": "tool_use"}, "usage": {}}"#))));

    let events = parsed_events(&all);
    let done = events.iter().find(|e| e["type"] == "response.function_call_arguments.done").unwrap();
    assert_eq!(done["arguments"], "{}", "arguments must be valid JSON");

    let completed = events.iter().find(|e| e["type"] == "response.completed").unwrap();
    let args = completed["response"]["output"][0]["arguments"].as_str().unwrap();
    assert_eq!(args, "{}");

    serde_json::from_str::<Value>(args).expect("arguments must parse as JSON");
}

#[test]
fn two_text_blocks_are_two_items_each_with_one_part() {
    let mut t = ResponsesSseTranslator::new(None);
    let mut all = Vec::new();
    all.extend(t.feed(&sse(val(r#"{"type": "message_start", "message": {"usage": {}}}"#))));
    all.extend(t.feed(&sse(val(r#"{"type": "content_block_start", "index": 0, "content_block": {"type": "text", "text": ""}}"#))));
    all.extend(t.feed(&sse(val(r#"{"type": "content_block_delta", "index": 0, "delta": {"type": "text_delta", "text": "one"}}"#))));
    all.extend(t.feed(&sse(val(r#"{"type": "content_block_stop", "index": 0}"#))));
    all.extend(t.feed(&sse(val(r#"{"type": "content_block_start", "index": 1, "content_block": {"type": "text", "text": ""}}"#))));
    all.extend(t.feed(&sse(val(r#"{"type": "content_block_delta", "index": 1, "delta": {"type": "text_delta", "text": "two"}}"#))));
    all.extend(t.feed(&sse(val(r#"{"type": "content_block_stop", "index": 1}"#))));
    all.extend(t.feed(&sse(val(r#"{"type": "message_delta", "delta": {"stop_reason": "end_turn"}, "usage": {"output_tokens": 2}}"#))));

    let events = parsed_events(&all);
    let deltas: Vec<&Value> = events.iter().filter(|e| e["type"] == "response.output_text.delta").collect();
    assert_eq!(deltas[0]["output_index"], 0);
    assert_eq!(deltas[0]["content_index"], 0);
    assert_eq!(deltas[1]["output_index"], 1);
    assert_eq!(deltas[1]["content_index"], 0, "second item's part is still its own part 0, not part 1");

    let completed = events.iter().find(|e| e["type"] == "response.completed").unwrap();
    let output = completed["response"]["output"].as_array().unwrap();
    assert_eq!(output.len(), 2, "two blocks must be two items, not one item with two parts");
    assert_eq!(output[0]["content"].as_array().unwrap().len(), 1);
    assert_eq!(output[1]["content"].as_array().unwrap().len(), 1);
}

#[test]
fn output_index_increments_across_text_then_tool_then_text() {
    let mut t = ResponsesSseTranslator::new(None);
    let mut all = Vec::new();
    all.extend(t.feed(&sse(val(r#"{"type": "message_start", "message": {"usage": {}}}"#))));

    all.extend(t.feed(&sse(val(r#"{"type": "content_block_start", "index": 0, "content_block": {"type": "text", "text": ""}}"#))));
    all.extend(t.feed(&sse(val(r#"{"type": "content_block_delta", "index": 0, "delta": {"type": "text_delta", "text": "a"}}"#))));
    all.extend(t.feed(&sse(val(r#"{"type": "content_block_stop", "index": 0}"#))));

    all.extend(t.feed(&sse(val(r#"{"type": "content_block_start", "index": 1, "content_block": {"type": "tool_use", "id": "toolu_1", "name": "f"}}"#))));
    all.extend(t.feed(&sse(val(r#"{"type": "content_block_delta", "index": 1, "delta": {"type": "input_json_delta", "partial_json": "{}"}}"#))));
    all.extend(t.feed(&sse(val(r#"{"type": "content_block_stop", "index": 1}"#))));

    all.extend(t.feed(&sse(val(r#"{"type": "content_block_start", "index": 2, "content_block": {"type": "text", "text": ""}}"#))));
    all.extend(t.feed(&sse(val(r#"{"type": "content_block_delta", "index": 2, "delta": {"type": "text_delta", "text": "b"}}"#))));
    all.extend(t.feed(&sse(val(r#"{"type": "content_block_stop", "index": 2}"#))));
    all.extend(t.feed(&sse(val(r#"{"type": "message_delta", "delta": {"stop_reason": "end_turn"}, "usage": {"output_tokens": 3}}"#))));

    let events = parsed_events(&all);
    let added: Vec<(u64, String)> = events
        .iter()
        .filter(|e| e["type"] == "response.output_item.added")
        .map(|e| {
            (
                e["output_index"].as_u64().unwrap(),
                e["item"]["type"].as_str().unwrap().to_string(),
            )
        })
        .collect();
    assert_eq!(
        added,
        vec![
            (0, "message".to_string()),
            (1, "function_call".to_string()),
            (2, "message".to_string())
        ]
    );

    let fc_id = events
        .iter()
        .find(|e| e["type"] == "response.output_item.added" && e["item"]["type"] == "function_call")
        .unwrap()["item"]["id"]
        .as_str()
        .unwrap()
        .to_string();
    assert!(
        !events
            .iter()
            .any(|e| e["type"].as_str().unwrap().starts_with("response.content_part")
                && e["item_id"] == fc_id.as_str()),
        "function_call must not get content_part events"
    );

    let completed = events.iter().find(|e| e["type"] == "response.completed").unwrap();
    let output = completed["response"]["output"].as_array().unwrap();
    assert_eq!(output.len(), 3);
    assert_eq!(output[0]["content"][0]["text"], "a");
    assert_eq!(output[1]["type"], "function_call");
    assert_eq!(output[2]["content"][0]["text"], "b");
}

#[test]
fn dropped_upstream_stream_still_gets_a_terminal_event() {

    let mut t = ResponsesSseTranslator::new(None);
    let mut all = Vec::new();
    all.extend(t.feed(&sse(val(r#"{"type": "message_start", "message": {"usage": {}}}"#))));
    all.extend(t.feed(&sse(val(r#"{"type": "content_block_start", "index": 0, "content_block": {"type": "text", "text": ""}}"#))));
    all.extend(t.feed(&sse(val(r#"{"type": "content_block_delta", "index": 0, "delta": {"type": "text_delta", "text": "partial"}}"#))));
    all.extend(t.finish());

    let events = parsed_events(&all);
    let last = events.last().unwrap();
    assert_eq!(last["type"], "response.failed");
    assert_eq!(last["response"]["status"], "failed");

    assert_eq!(last["response"]["output"][0]["content"][0]["text"], "partial");
}

#[test]
fn a_completed_stream_gets_no_synthesized_terminal_on_finish() {
    let mut t = ResponsesSseTranslator::new(None);
    let mut all = Vec::new();
    all.extend(t.feed(&sse(val(r#"{"type": "message_start", "message": {"usage": {}}}"#))));
    all.extend(t.feed(&sse(val(r#"{"type": "message_delta", "delta": {"stop_reason": "end_turn"}, "usage": {"output_tokens": 1}}"#))));
    all.extend(t.finish());

    let has_failed = parsed_events(&all).iter().any(|e| e["type"] == "response.failed");
    assert!(!has_failed, "must not synthesize response.failed after a clean completion");
}

#[test]
fn streaming_function_call_emits_delta_then_done_then_completed_output() {
    let mut t = ResponsesSseTranslator::new(None);
    let mut all = Vec::new();
    all.extend(t.feed(&sse(val(r#"{"type": "message_start", "message": {"usage": {}}}"#))));
    all.extend(t.feed(&sse(val(r#"{
        "type": "content_block_start", "index": 0,
        "content_block": {"type": "tool_use", "id": "toolu_1", "name": "get_weather"}
    }"#))));
    all.extend(t.feed(&sse(val(r#"{
        "type": "content_block_delta", "index": 0,
        "delta": {"type": "input_json_delta", "partial_json": "{\"city\":\"Hanoi\"}"}
    }"#))));
    all.extend(t.feed(&sse(val(r#"{"type": "content_block_stop", "index": 0}"#))));
    all.extend(t.feed(&sse(val(r#"{"type": "message_delta", "delta": {"stop_reason": "tool_use"}, "usage": {}}"#))));

    let events = parsed_events(&all);
    let added = events.iter().find(|e| e["type"] == "response.output_item.added").unwrap();
    let item_id = added["item"]["id"].as_str().unwrap().to_string();
    assert!(item_id.starts_with("fc_"));
    assert_eq!(added["item"]["call_id"], "toolu_1");

    let delta = events.iter().find(|e| e["type"] == "response.function_call_arguments.delta").unwrap();
    assert_eq!(delta["item_id"], item_id.as_str());
    assert_eq!(delta["delta"], "{\"city\":\"Hanoi\"}");

    let done = events.iter().find(|e| e["type"] == "response.function_call_arguments.done").unwrap();
    assert_eq!(done["item_id"], item_id.as_str());
    assert_eq!(done["arguments"], "{\"city\":\"Hanoi\"}");

    let item_done = events.iter().find(|e| e["type"] == "response.output_item.done").unwrap();
    assert_eq!(item_done["item"]["status"], "completed");

    let completed = events.iter().find(|e| e["type"] == "response.completed").unwrap();
    assert_eq!(
        completed["response"]["output"][0],
        fill(val(r#"{
            "type": "function_call", "id": "@item_id", "call_id": "toolu_1",
            "name": "get_weather", "arguments": "{\"city\":\"Hanoi\"}", "status": "completed"
        }"#), "@item_id", item_id.clone())
    );
}

#[test]
fn sequence_number_is_contiguous_from_zero() {
    let mut t = ResponsesSseTranslator::new(None);
    let mut all = Vec::new();
    all.extend(t.feed(&sse(val(r#"{"type": "message_start", "message": {"usage": {}}}"#))));
    all.extend(t.feed(&sse(val(r#"{"type": "content_block_delta", "index": 0, "delta": {"type": "text_delta", "text": "hi"}}"#))));
    all.extend(t.feed(&sse(val(r#"{"type": "message_delta", "delta": {"stop_reason": "end_turn"}, "usage": {"output_tokens": 1}}"#))));

    let seqs: Vec<u64> = parsed_events(&all)
        .iter()
        .map(|e| e["sequence_number"].as_u64().unwrap())
        .collect();
    let expected: Vec<u64> = (0..seqs.len() as u64).collect();
    assert_eq!(seqs, expected);
}

#[test]
fn mid_stream_error_emits_failed_and_no_completed() {
    let mut t = ResponsesSseTranslator::new(None);
    let mut all = Vec::new();
    all.extend(t.feed(&sse(val(r#"{"type": "message_start", "message": {"usage": {}}}"#))));
    all.extend(t.feed(&sse(val(r#"{"type": "content_block_delta", "index": 0, "delta": {"type": "text_delta", "text": "partial"}}"#))));
    all.extend(t.feed(&sse(val(r#"{"type": "error", "error": {"type": "overloaded_error", "message": "overloaded"}}"#))));

    let events = parsed_events(&all);
    assert!(events.iter().any(|e| e["type"] == "response.output_text.delta"));
    assert!(!events.iter().any(|e| e["type"] == "response.completed"));
    let failed = events.last().unwrap();
    assert_eq!(failed["type"], "response.failed");
    assert_eq!(failed["response"]["status"], "failed");
    assert_eq!(failed["response"]["error"]["message"], "overloaded");
}

#[test]
fn client_model_is_echoed_on_every_event_over_the_upstream_name() {
    let mut t = ResponsesSseTranslator::new(Some("gpt-4o"));
    let all = t.feed(&sse(val(r#"{
        "type": "message_start",
        "message": {"model": "sonnet-4-6", "usage": {}}
    }"#)));
    for event in parsed_events(&all) {
        assert_eq!(event["response"]["model"], "gpt-4o");
    }
}

#[test]
fn responses_sse_upstream_model_is_used_when_client_model_is_absent() {
    let mut t = ResponsesSseTranslator::new(None);
    let all = t.feed(&sse(val(r#"{
        "type": "message_start",
        "message": {"model": "sonnet-4-6", "usage": {}}
    }"#)));
    let events = parsed_events(&all);
    assert_eq!(events[0]["response"]["model"], "sonnet-4-6");
}

#[test]
fn incomplete_status_on_max_tokens_stop_reason() {
    let mut t = ResponsesSseTranslator::new(None);
    let mut all = Vec::new();
    all.extend(t.feed(&sse(val(r#"{"type": "message_start", "message": {"usage": {}}}"#))));
    all.extend(t.feed(&sse(val(r#"{"type": "message_delta", "delta": {"stop_reason": "max_tokens"}, "usage": {"output_tokens": 1}}"#))));

    let completed = parsed_events(&all).into_iter().last().unwrap();
    assert_eq!(completed["response"]["status"], "incomplete");
    assert_eq!(completed["response"]["incomplete_details"]["reason"], "max_output_tokens");
}
