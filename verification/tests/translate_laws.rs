use serde_json::Value;
use viber_router::json::Json;
use viber_router::translate::chat_sse::ChatSseTranslator;
use viber_router::translate::responses::effort_to_budget;
use viber_router::translate::responses_sse::{settle_arguments, ResponsesSseTranslator};
use viber_router::translate::{
    anthropic_error_message, chat, request_to_anthropic, responses, tool_arguments_from_input,
    tool_input_from_arguments, ClientProtocol, TranslateError,
};

fn json(text: &str) -> Json {
    Json::from_slice(text.as_bytes()).unwrap()
}

fn value(doc: &Json) -> Value {
    serde_json::from_str(&doc.to_text()).unwrap()
}

fn chat_request(text: &str) -> Value {
    value(&chat::request_to_anthropic(&json(text)).unwrap().0)
}

fn responses_request(text: &str) -> Value {
    value(&responses::request_to_anthropic(&json(text)).unwrap())
}

const STREAM: &[&str] = &[
    r#"{"type":"message_start","message":{"model":"up","usage":{"input_tokens":4}}}"#,
    r#"{"type":"content_block_start","index":0,"content_block":{"type":"text","text":""}}"#,
    r#"{"type":"content_block_delta","index":0,"delta":{"type":"text_delta","text":"hé"}}"#,
    r#"{"type":"content_block_stop","index":0}"#,
    r#"{"type":"content_block_start","index":1,"content_block":{"type":"tool_use","id":"t","name":"f"}}"#,
    r#"{"type":"content_block_delta","index":1,"delta":{"type":"input_json_delta","partial_json":"  "}}"#,
    r#"{"type":"content_block_stop","index":1}"#,
    r#"{"type":"message_delta","delta":{"stop_reason":"tool_use"},"usage":{"output_tokens":2}}"#,
    r#"{"type":"message_stop"}"#,
    r#"{"type":"message_delta","delta":{"stop_reason":"end_turn"},"usage":{"output_tokens":9}}"#,
];

fn stream() -> Vec<u8> {
    STREAM.iter().map(|data| format!("event: e\ndata: {data}\n\n")).collect::<String>().into_bytes()
}

fn events(bytes: &[u8]) -> Vec<Value> {
    std::str::from_utf8(bytes)
        .unwrap()
        .lines()
        .filter_map(|l| l.strip_prefix("data: "))
        .filter(|d| *d != "[DONE]")
        .map(|d| serde_json::from_str(d).unwrap())
        .collect()
}

#[test]
fn conversations_open_with_the_user() {
    let out = chat_request(
        r#"{"model":"m","messages":[{"role":"assistant","content":"hi"},{"role":"user","content":"x"}]}"#,
    );
    assert_eq!(out["messages"][0]["role"], "user");
    assert_eq!(out["messages"][1]["role"], "assistant");
    let out = responses_request(
        r#"{"model":"m","input":[{"type":"function_call_output","call_id":"c","output":"r"}]}"#,
    );
    assert_eq!(out["messages"][0]["role"], "user");
}

#[test]
fn system_texts_are_joined_in_order() {
    let out = chat_request(
        r#"{"model":"m","messages":[{"role":"system","content":"a"},{"role":"user","content":"x"},
            {"role":"developer","content":[{"type":"text","text":"b"}]}]}"#,
    );
    assert_eq!(out["system"], "a\n\nb");
}

#[test]
fn other_parameters_change_nothing() {
    let plain = chat_request(r#"{"model":"m","messages":[{"role":"user","content":"x"}]}"#);
    let more = chat_request(
        r#"{"model":"m","messages":[{"role":"user","content":"x"}],"seed":1,"user":"u",
            "presence_penalty":0.5,"metadata":{"a":1}}"#,
    );
    assert_eq!(plain, more);
}

#[test]
fn budgets_stay_below_the_token_limit() {
    for (effort, budget) in [("minimal", 2048), ("low", 2048), ("medium", 8192), (" HIGH ", 16384), ("max", 24576)] {
        assert_eq!(effort_to_budget(effort), Some(budget));
        let out = responses_request(&format!(
            r#"{{"model":"m","input":"x","max_output_tokens":1,"reasoning":{{"effort":"{effort}"}}}}"#
        ));
        assert!(out["max_tokens"].as_i64().unwrap() > budget);
    }
    assert_eq!(effort_to_budget("none"), None);
}

#[test]
fn tool_choice_comes_with_tools() {
    let out = responses_request(
        r#"{"model":"m","input":"x","tool_choice":"required",
            "tools":[{"type":"function","name":"f","parameters":{}}]}"#,
    );
    assert_eq!(out["tool_choice"]["type"], "any");
    let out = responses_request(r#"{"model":"m","input":"x","tool_choice":"required","tools":[]}"#);
    assert!(out.get("tool_choice").is_none());
}

#[test]
fn chat_chunks_do_not_depend_on_framing() {
    let bytes = stream();
    let mut whole = ChatSseTranslator::with_id("id".to_string(), true, Some("asked"));
    let mut at_once = whole.feed(&bytes);
    at_once.extend(whole.finish());
    let mut split = ChatSseTranslator::with_id("id".to_string(), true, Some("asked"));
    let mut piecewise = Vec::new();
    for byte in &bytes {
        piecewise.extend(split.feed(&[*byte]));
    }
    piecewise.extend(split.finish());
    assert_eq!(at_once, piecewise);
    for chunk in events(&at_once) {
        assert_eq!(chunk["model"], "asked");
        assert_eq!(chunk["id"], "id");
    }
}

#[test]
fn responses_events_do_not_depend_on_framing() {
    let bytes = stream();
    let run = |size: usize| {
        let mut t = ResponsesSseTranslator::with_id("resp".to_string(), Some("asked"));
        let mut out = Vec::new();
        for chunk in bytes.chunks(size) {
            out.extend(t.feed(chunk));
        }
        out.extend(t.finish());
        events(&out)
    };
    let kinds = |events: &[Value]| -> Vec<Value> {
        events.iter().map(|e| e["type"].clone()).collect()
    };
    assert_eq!(kinds(&run(1)), kinds(&run(bytes.len())));
    assert_eq!(kinds(&run(3)), kinds(&run(1000)));
}

#[test]
fn responses_events_keep_the_rules_of_the_stream() {
    let mut t = ResponsesSseTranslator::new(Some("asked"));
    let mut out = t.feed(&stream());
    out.extend(t.finish());
    let events = events(&out);
    let mut announced = Vec::new();
    let mut terminal = 0;
    for (i, event) in events.iter().enumerate() {
        assert_eq!(event["sequence_number"], i as u64);
        assert_eq!(terminal, 0);
        if let Some(id) = event["item_id"].as_str() {
            assert!(announced.contains(&id.to_string()));
        }
        match event["type"].as_str().unwrap() {
            "response.output_item.added" => {
                announced.push(event["item"]["id"].as_str().unwrap().to_string());
            }
            "response.function_call_arguments.done" => assert_eq!(event["arguments"], "{}"),
            "response.completed" | "response.failed" => {
                terminal += 1;
                assert_eq!(event["response"]["model"], "asked");
            }
            _ => {}
        }
    }
    assert_eq!((terminal, announced.len()), (1, 2));
}

#[test]
fn a_stream_without_a_start_is_answered_by_a_failure() {
    let mut t = ResponsesSseTranslator::new(None);
    assert!(t.feed(b"event: ping\ndata: {\"type\":\"ping\"}\n\n").is_empty());
    let sent = events(&t.finish());
    assert_eq!(sent.len(), 1);
    assert_eq!(sent[0]["type"], "response.failed");
    let sent = events(&ResponsesSseTranslator::new(None).finish());
    assert_eq!(sent.len(), 1);
    assert_eq!(sent[0]["type"], "response.failed");
    assert_eq!(sent[0]["sequence_number"], 0);
    assert_eq!(sent[0]["response"]["status"], "failed");
    let message = "upstream connection closed unexpectedly";
    assert_eq!(sent[0]["response"]["error"]["message"], message);
}

#[test]
fn a_buffered_partial_event_is_flushed() {
    let partial =
        br#"data: {"type":"content_block_delta","index":0,"delta":{"type":"text_delta","text":"hi"}}"#;
    let mut t = ChatSseTranslator::new(false, None);
    assert!(t.feed(partial).is_empty());
    let out = t.finish();
    assert!(out.ends_with(b"data: [DONE]\n\n"));
    let sent = events(&out);
    assert_eq!(sent.len(), 1);
    assert_eq!(sent[0]["choices"][0]["delta"], value(&json(r#"{"content":"hi"}"#)));

    let mut t = ResponsesSseTranslator::new(None);
    assert!(t.feed(partial).is_empty());
    let sent = events(&t.finish());
    let kinds: Vec<&str> = sent.iter().map(|e| e["type"].as_str().unwrap()).collect();
    assert_eq!(
        kinds,
        [
            "response.output_item.added",
            "response.content_part.added",
            "response.output_text.delta",
            "response.failed"
        ]
    );
    assert_eq!(sent[3]["response"]["output"][0]["content"][0]["text"], "hi");

    let mut t = ChatSseTranslator::new(false, None);
    assert!(t.feed(br#"data: {"type":"message_st"#).is_empty());
    assert_eq!(t.finish(), b"data: [DONE]\n\n");
}

#[test]
fn arguments_of_a_call_that_was_cut_off_are_an_object() {
    let mut t = ResponsesSseTranslator::new(None);
    for data in [
        r#"{"type":"message_start","message":{}}"#,
        r#"{"type":"content_block_start","index":0,"content_block":{"type":"tool_use","id":"t","name":"f"}}"#,
        r#"{"type":"content_block_delta","index":0,"delta":{"type":"input_json_delta","partial_json":"{\"city\":"}}"#,
    ] {
        t.feed(format!("data: {data}\n\n").as_bytes());
    }
    let error = r#"{"type":"error","error":{"type":"overloaded_error","message":"busy"}}"#;
    let sent = events(&t.feed(format!("data: {error}\n\n").as_bytes()));
    assert_eq!(sent[0]["type"], "response.failed");
    assert_eq!(sent[0]["response"]["output"][0]["arguments"], "{}");
    assert_eq!(sent[0]["response"]["output"][0]["status"], "incomplete");
    assert_eq!(settle_arguments("[1]".to_string()), "{}");
    assert_eq!(settle_arguments(r#" {"a": 1} "#.to_string()), r#" {"a": 1} "#);
}

#[test]
fn arguments_read_back_as_the_input() {
    for input in [r#"{"a":[1,{"b":null}],"c":"é\n"}"#, "{}"] {
        let arguments = tool_arguments_from_input(Some(&json(input)));
        let again = tool_input_from_arguments(Some(&Json::text(&arguments)));
        assert_eq!(value(&again), value(&json(input)));
    }
    assert_eq!(tool_arguments_from_input(None), "{}");
    assert_eq!(tool_arguments_from_input(Some(&Json::Null)), "{}");
    assert_eq!(value(&tool_input_from_arguments(Some(&Json::text("[1]")))), value(&json("{}")));
}

#[test]
fn an_image_file_is_named_in_a_note() {
    let out = responses_request(
        r#"{"model":"m","input":[{"type":"message","role":"user","content":[
            {"type":"input_image","file_id":"file-1"}]}]}"#,
    );
    let block = &out["messages"][0]["content"][0];
    assert_eq!(block["type"], "text");
    assert!(block["text"].as_str().unwrap().contains("file-1"));
}

#[test]
fn errors_have_a_type_and_a_message() {
    let error = TranslateError::invalid_request("bad".to_string());
    assert_eq!(error.to_string(), "invalid_request_error: bad");
    let refused = request_to_anthropic(ClientProtocol::Responses, b"{").unwrap_err();
    assert!(refused.message.starts_with("Invalid JSON body: "));
    assert_eq!(anthropic_error_message(b" caf\xe9 "), "caf\u{fffd}");
}

#[test]
fn the_context_remembers_the_request() {
    let body = br#"{"model":"asked","messages":[{"role":"user","content":"x"}],
        "stream":true,"stream_options":{"include_usage":true},
        "response_format":{"type":"json_schema","json_schema":{"name":"shape","schema":{}}}}"#;
    let (_, context) = request_to_anthropic(ClientProtocol::ChatCompletions, body).unwrap();
    assert!(context.include_usage);
    assert_eq!(context.client_model.as_deref(), Some("asked"));
    assert_eq!(context.json_schema_tool.as_deref(), Some("shape"));
}

#[test]
fn a_schema_call_is_the_content_and_nothing_else() {
    let request = json(
        r#"{"model":"m","messages":[{"role":"user","content":"x"}],
            "response_format":{"type":"json_schema","json_schema":{"name":"out","schema":{"type":"object"}}}}"#,
    );
    let (body, tool) = chat::request_to_anthropic(&request).unwrap();
    let body = value(&body);
    assert_eq!(tool.as_deref(), Some("out"));
    assert_eq!(body["tools"].as_array().unwrap().len(), 1);
    assert_eq!(body["tools"][0]["name"], "out");
    assert_eq!(body["tool_choice"]["type"], "tool");
    assert_eq!(body["tool_choice"]["name"], "out");

    let answer = json(
        r#"{"id":"a","model":"up","stop_reason":"tool_use","content":[
            {"type":"tool_use","id":"t1","name":"out","input":{"v":1}},
            {"type":"tool_use","id":"t2","name":"other","input":{}},
            {"type":"tool_use","id":"t3","name":"out","input":{"v":2}},
            {"type":"text","text":"aside"}]}"#,
    );
    let shown = value(&chat::anthropic_to_response(&answer, Some("out"), None));
    let choice = &shown["choices"][0];
    assert_eq!(choice["message"]["content"], r#"{"v":2}"#);
    assert!(choice["message"].get("tool_calls").is_none());
    assert_eq!(choice["finish_reason"], "stop");

    let shown = value(&chat::anthropic_to_response(&answer, None, None));
    let calls = shown["choices"][0]["message"]["tool_calls"].as_array().unwrap().clone();
    let ids: Vec<&str> = calls.iter().map(|c| c["id"].as_str().unwrap()).collect();
    assert_eq!(ids, ["t1", "t2", "t3"]);
}

#[test]
fn every_chat_stream_ends_with_one_terminator() {
    let done = "data: [DONE]\n\n";
    for cut in 0..STREAM.len() {
        let mut t = ChatSseTranslator::with_id("id".to_string(), false, None);
        let mut out = Vec::new();
        for data in &STREAM[..cut] {
            out.extend(t.feed(format!("data: {data}\n\n").as_bytes()));
        }
        out.extend(t.finish());
        let text = String::from_utf8(out).unwrap();
        assert_eq!(text.matches(done).count(), 1);
        assert!(text.ends_with(done));
    }
}

#[test]
fn chat_text_is_that_of_the_upstream() {
    let mut t = ChatSseTranslator::with_id("id".to_string(), true, None);
    let mut out = Vec::new();
    for data in [
        r#"{"type":"message_start","message":{}}"#,
        r#"{"type":"content_block_start","index":0,"content_block":{"type":"thinking","thinking":""}}"#,
        r#"{"type":"content_block_delta","index":0,"delta":{"type":"thinking_delta","thinking":"hm"}}"#,
        r#"{"type":"content_block_delta","index":1,"delta":{"type":"text_delta","text":"one "}}"#,
        r#"{"type":"content_block_delta","index":2,"delta":{"type":"text_delta","text":"two"}}"#,
        r#"{"type":"message_delta","delta":{"stop_reason":"end_turn"}}"#,
    ] {
        out.extend(t.feed(format!("data: {data}\n\n").as_bytes()));
    }
    let mut text = String::new();
    for chunk in events(&out) {
        let choices = chunk["choices"].as_array().unwrap();
        assert!(choices.len() <= 1);
        if let Some(choice) = choices.first() {
            assert_eq!(choice["index"], 0);
            text.push_str(choice["delta"]["content"].as_str().unwrap_or(""));
        }
    }
    assert_eq!(text, "one two");
}

#[test]
fn done_items_stand_at_their_index_in_the_output() {
    let mut t = ResponsesSseTranslator::with_id("resp".to_string(), None);
    let sent = events(&t.feed(&stream()));
    let last = sent.last().unwrap();
    assert_eq!(last["type"], "response.completed");
    let output = last["response"]["output"].as_array().unwrap();
    assert_eq!(output.len(), 2);
    let mut done = 0;
    for event in &sent {
        if let Some(index) = event.get("content_index") {
            assert_eq!(index, 0);
        }
        if event["type"] == "response.output_item.done" {
            let index = event["output_index"].as_u64().unwrap() as usize;
            assert_eq!(event["item"], output[index]);
            done += 1;
        }
    }
    assert_eq!(done, 2);
}

#[test]
fn items_are_alike_whether_streamed_or_not() {
    let mut t = ResponsesSseTranslator::with_id("resp".to_string(), None);
    let sent = events(&t.feed(&stream()));
    let answer = json(
        r#"{"content":[{"type":"text","text":"hé"},{"type":"thinking","thinking":"hm"},
            {"type":"tool_use","id":"t","name":"f","input":{}}]}"#,
    );
    let ids = vec!["a".to_string(), "b".to_string(), "c".to_string()];
    let whole = value(&responses::response_with_ids(&answer, None, &ids));
    assert_eq!(whole["output"][0]["id"], "msg_a");
    assert_eq!(whole["output"][1]["id"], "fc_c");
    let mut streamed = sent.last().unwrap()["response"]["output"].clone();
    streamed[0]["id"] = whole["output"][0]["id"].clone();
    streamed[1]["id"] = whole["output"][1]["id"].clone();
    assert_eq!(streamed, whole["output"]);
}

const CALLS: &[&str] = &[
    r#"{"type":"message_start","message":{}}"#,
    r#"{"type":"content_block_start","index":0,"content_block":{"type":"tool_use","id":"a","name":"f"}}"#,
    r#"{"type":"content_block_delta","index":0,"delta":{"type":"input_json_delta","partial_json":"{\"x\":"}}"#,
    r#"{"type":"content_block_delta","index":0,"delta":{"type":"input_json_delta","partial_json":"1}"}}"#,
    r#"{"type":"content_block_stop","index":0}"#,
    r#"{"type":"content_block_start","index":1,"content_block":{"type":"thinking","thinking":""}}"#,
    r#"{"type":"content_block_delta","index":1,"delta":{"type":"input_json_delta","partial_json":"lost"}}"#,
    r#"{"type":"content_block_start","index":2,"content_block":{"type":"text","text":""}}"#,
    r#"{"type":"content_block_delta","index":2,"delta":{"type":"text_delta","text":"one "}}"#,
    r#"{"type":"content_block_delta","index":2,"delta":{"type":"text_delta","text":"two"}}"#,
    r#"{"type":"content_block_stop","index":2}"#,
    r#"{"type":"content_block_start","index":3,"content_block":{"type":"tool_use","id":"b","name":"g"}}"#,
    r#"{"type":"content_block_delta","index":3,"delta":{"type":"input_json_delta","partial_json":"{\"y\":"}}"#,
];

#[test]
fn calls_of_a_chat_stream_are_counted_from_zero() {
    let mut t = ChatSseTranslator::with_id("id".to_string(), false, None);
    let mut said = Vec::new();
    for data in CALLS {
        for chunk in events(&t.feed(format!("data: {data}\n\n").as_bytes())) {
            for call in chunk["choices"][0]["delta"]["tool_calls"].as_array().into_iter().flatten() {
                said.push((
                    call["index"].as_i64().unwrap(),
                    call["id"].as_str().map(str::to_string),
                    call["function"]["arguments"].as_str().unwrap().to_string(),
                ));
            }
        }
    }
    let piece = |at: i64, text: &str| (at, None, text.to_string());
    let start = |at: i64, id: &str| (at, Some(id.to_string()), String::new());
    assert_eq!(
        said,
        [start(0, "a"), piece(0, "{\"x\":"), piece(0, "1}"), start(1, "b"), piece(1, "{\"y\":")]
    );
}

#[test]
fn the_tail_of_whole_events_is_the_terminator_or_nothing() {
    let done = b"data: [DONE]\n\n".to_vec();
    for (last, tail) in [
        (r#"{"type":"message_stop"}"#, Vec::new()),
        (r#"{"type":"error","error":{"type":"t","message":"m"}}"#, Vec::new()),
        (r#"{"type":"ping"}"#, done.clone()),
    ] {
        let mut t = ChatSseTranslator::with_id("id".to_string(), false, None);
        t.feed(b"data: {\"type\":\"message_start\",\"message\":{}}\n\n");
        t.feed(format!("data: {last}\n\n").as_bytes());
        assert_eq!(t.finish(), tail);
    }
    assert_eq!(ChatSseTranslator::with_id("id".to_string(), false, None).finish(), done);
}

#[test]
fn the_terminal_output_is_what_was_streamed() {
    let mut t = ResponsesSseTranslator::with_id("resp".to_string(), None);
    let mut sent = Vec::new();
    for data in CALLS {
        sent.extend(events(&t.feed(format!("data: {data}\n\n").as_bytes())));
    }
    sent.extend(events(&t.finish()));
    let last = sent.last().unwrap();
    assert_eq!(last["type"], "response.failed");
    let output = last["response"]["output"].as_array().unwrap();
    let added: Vec<&Value> =
        sent.iter().filter(|e| e["type"] == "response.output_item.added").collect();
    assert_eq!(output.len(), 3);
    assert_eq!(added.len(), 3);
    for (at, event) in added.iter().enumerate() {
        assert_eq!(event["output_index"], at);
        assert_eq!(event["item"]["id"], output[at]["id"]);
        assert_eq!(event["item"]["type"], output[at]["type"]);
    }
    let joined = |kind: &str, at: usize| {
        sent.iter()
            .filter(|e| e["type"] == kind && e["output_index"] == at)
            .map(|e| e["delta"].as_str().unwrap())
            .collect::<String>()
    };
    assert_eq!(joined("response.function_call_arguments.delta", 0), "{\"x\":1}");
    assert_eq!(output[0]["arguments"], "{\"x\":1}");
    assert_eq!(joined("response.output_text.delta", 1), "one two");
    assert_eq!(output[1]["content"][0]["text"], "one two");
    assert_eq!(joined("response.function_call_arguments.delta", 2), "{\"y\":");
    assert_eq!(output[2]["arguments"], "{}");
    assert_eq!(output[2]["status"], "incomplete");
}

#[test]
fn every_event_is_one_frame() {
    let data = [
        r#"{"type":"message_start","message":{"model":"a\n\nb"}}"#,
        r#"{"type":"content_block_start","index":0,"content_block":{"type":"text","text":""}}"#,
        r#"{"type":"content_block_delta","index":0,"delta":{"type":"text_delta","text":"one\n\ndata: two\r\n"}}"#,
        r#"{"type":"error","error":{"type":"t\n","message":"m\n\nn"}}"#,
    ];
    let mut chat = ChatSseTranslator::with_id("id\n\n".to_string(), false, None);
    let mut responses = ResponsesSseTranslator::with_id("resp_\n\n".to_string(), None);
    for (bytes, count) in [
        (data.map(|d| chat.feed(format!("data: {d}\n\n").as_bytes())).concat(), 4),
        (data.map(|d| responses.feed(format!("data: {d}\n\n").as_bytes())).concat(), 6),
    ] {
        let text = String::from_utf8(bytes).unwrap();
        let frames: Vec<&str> = text.split_terminator("\n\n").collect();
        assert_eq!(frames.len(), count);
        assert!(text.ends_with("\n\n"));
        for frame in frames {
            assert!(frame.starts_with("data: ") && !frame.contains('\n'));
        }
    }
}

#[test]
fn references_carry_the_id_and_the_index_of_their_item() {
    let mut t = ResponsesSseTranslator::new(None);
    let mut sent = Vec::new();
    for data in CALLS {
        sent.extend(events(&t.feed(format!("data: {data}\n\n").as_bytes())));
    }
    sent.extend(events(&t.finish()));
    let response_id = sent[0]["response"]["id"].as_str().unwrap().to_string();
    assert!(response_id.starts_with("resp_"));
    let mut announced = Vec::new();
    let mut references = 0;
    for event in &sent {
        if event["type"] == "response.output_item.added" {
            assert_ne!(event["item"]["id"], response_id.as_str());
            announced.push((event["item"]["id"].clone(), event["output_index"].clone()));
        }
        if let Some(id) = event.get("item_id") {
            assert_ne!(id, response_id.as_str());
            assert!(announced.contains(&(id.clone(), event["output_index"].clone())));
            references += 1;
        }
        if let Some(response) = event.get("response") {
            assert_eq!(response["id"], response_id.as_str());
            for item in response["output"].as_array().unwrap() {
                assert_ne!(item["id"], response_id.as_str());
            }
        }
    }
    assert_eq!((announced.len(), references), (3, 9));
}
