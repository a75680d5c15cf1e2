use serde_json::Value;
use viber_router::proxy::refusal::Refusal;
use viber_router::proxy::request::{is_event_stream, Headers};
use viber_router::proxy::seam::{
    is_success, passage_for, refusal_bytes, reshape_body, reshape_headers, Passage, TranslatingSse,
};
use viber_router::translate::{ClientProtocol, TranslationContext};

const UPSTREAM_400: &str =
    r#"{"type":"error","error":{"type":"invalid_request_error","message":"model not found"}}"#;

const UPSTREAM_SSE_ERROR: &[&str] = &[
    "event: message_start\n",
    r#"data: {"type":"message_start","message":{"model":"opus-4-6","usage":{"input_tokens":5}}}"#,
    "\n\n",
    "event: content_block_delta\n",
    r#"data: {"type":"content_block_delta","index":0,"delta":{"type":"text_delta","text":"partial"}}"#,
    "\n\n",
    "event: error\n",
    r#"data: {"type":"error","error":{"type":"overloaded_error","message":"upstream overloaded"}}"#,
    "\n\n",
];

const UPSTREAM_SSE_OK: &[&str] = &[
    "event: message_start\n",
    r#"data: {"type":"message_start","message":{"model":"opus-4-6","usage":{"input_tokens":5}}}"#,
    "\n\n",
    "event: content_block_delta\n",
    r#"data: {"type":"content_block_delta","index":0,"delta":{"type":"text_delta","text":"hello"}}"#,
    "\n\n",
    "event: message_delta\n",
    r#"data: {"type":"message_delta","delta":{"stop_reason":"end_turn"},"usage":{"output_tokens":2}}"#,
    "\n\n",
    "event: message_stop\n",
    r#"data: {"type":"message_stop"}"#,
    "\n\n",
];

fn ctx_for(protocol: ClientProtocol) -> TranslationContext {
    TranslationContext { protocol, include_usage: false, json_schema_tool: None, client_model: None }
}

fn content_type(value: &str) -> Headers {
    vec![("content-type".to_string(), value.as_bytes().to_vec())]
}

fn get<'a>(headers: &'a Headers, name: &str) -> Option<&'a [u8]> {
    headers.iter().find(|(n, _)| n == name).map(|(_, v)| v.as_slice())
}

/// What a client is answered: status, headers and body.
fn answer(
    context: &TranslationContext,
    status: u16,
    headers: Headers,
    body: &str,
) -> (u16, Headers, String) {
    match passage_for(context.protocol, status, &headers) {
        Passage::Untouched => (status, headers, body.to_string()),
        Passage::Body => match reshape_body(context, status, body.as_bytes()) {
            Some(bytes) => {
                (status, reshape_headers(&headers, true), String::from_utf8(bytes).unwrap())
            }
            None => (status, reshape_headers(&headers, false), body.to_string()),
        },
        Passage::Stream => {
            let mut translation = TranslatingSse::new(context).unwrap();
            let mut out = Vec::new();
            for chunk in body.as_bytes().chunks(7) {
                out.extend(translation.on_chunk(chunk).unwrap_or_default());
            }
            out.extend(translation.on_end().unwrap_or_default());
            assert!(translation.on_end().is_none());
            assert!(translation.on_chunk(b"event: ping\n\n").is_none());
            (status, reshape_headers(&headers, false), String::from_utf8(out).unwrap())
        }
    }
}

fn json_answer(protocol: ClientProtocol, status: u16, body: &str) -> (u16, Value) {
    let (status, _, body) = answer(&ctx_for(protocol), status, content_type("application/json"), body);
    (status, serde_json::from_str(&body).unwrap())
}

fn stream_answer(protocol: ClientProtocol, body: &[&str]) -> String {
    let headers = content_type("text/event-stream");
    answer(&ctx_for(protocol), 200, headers, &body.concat()).2
}

#[test]
fn upstream_json_error_reaches_chat_client_in_openai_shape() {
    let (status, body) = json_answer(ClientProtocol::ChatCompletions, 400, UPSTREAM_400);
    assert_eq!(status, 400);
    assert!(body.get("type").is_none());
    assert_eq!(body["error"]["message"], "model not found");
    assert_eq!(body["error"]["type"], "invalid_request_error");
    assert!(body["error"].get("code").is_some());
}

#[test]
fn upstream_json_error_reaches_responses_client_in_responses_shape() {
    let (status, body) = json_answer(ClientProtocol::Responses, 401, UPSTREAM_400);
    assert_eq!(status, 401);
    assert_eq!(body["object"], "error");
    assert_eq!(body["error"]["message"], "model not found");
}

#[test]
fn upstream_json_error_reaches_anthropic_client_untouched() {
    let context = ctx_for(ClientProtocol::Anthropic);
    let (status, _, body) = answer(&context, 429, content_type("application/json"), UPSTREAM_400);
    assert_eq!(status, 429);
    assert_eq!(body, UPSTREAM_400);
}

#[test]
fn upstream_429_body_is_reshaped_but_status_is_preserved() {
    for protocol in [ClientProtocol::ChatCompletions, ClientProtocol::Responses] {
        let (status, body) = json_answer(protocol, 429, UPSTREAM_400);
        assert_eq!(status, 429);
        assert_eq!(body["error"]["message"], "model not found");
    }
}

#[test]
fn non_anthropic_error_body_still_reaches_openai_client_shaped() {
    let (status, body) =
        json_answer(ClientProtocol::ChatCompletions, 502, "<html>502 Bad Gateway</html>");
    assert_eq!(status, 502);
    assert_eq!(body["error"]["message"], "<html>502 Bad Gateway</html>");
    assert_eq!(body["error"]["type"], "api_error");
}

#[test]
fn mid_stream_error_reaches_chat_client_as_error_chunk_then_done() {
    let context = ctx_for(ClientProtocol::ChatCompletions);
    let headers = content_type("text/event-stream");
    let (status, _, body) = answer(&context, 200, headers, &UPSTREAM_SSE_ERROR.concat());
    assert_eq!(status, 200);
    assert!(body.contains("partial"));
    assert!(body.contains(r#""message":"upstream overloaded""#));
    assert!(body.trim_end().ends_with("data: [DONE]"));
}

#[test]
fn mid_stream_error_reaches_responses_client_as_response_failed() {
    let body = stream_answer(ClientProtocol::Responses, UPSTREAM_SSE_ERROR);
    assert!(body.contains("response.output_text.delta"));
    assert!(body.contains("response.failed"));
    assert!(!body.contains("response.completed"));
    assert!(!body.contains("[DONE]"));
}

#[test]
fn mid_stream_error_reaches_anthropic_client_untouched() {
    let body = stream_answer(ClientProtocol::Anthropic, UPSTREAM_SSE_ERROR);
    assert_eq!(body, UPSTREAM_SSE_ERROR.concat());
}

#[test]
fn error_status_with_sse_content_type_is_still_reshaped_as_json() {
    let context = ctx_for(ClientProtocol::ChatCompletions);
    let (status, headers, body) =
        answer(&context, 400, content_type("text/event-stream"), UPSTREAM_400);
    assert_eq!(status, 400);
    assert_eq!(get(&headers, "content-type").unwrap(), b"application/json");
    let body: Value = serde_json::from_str(&body).unwrap();
    assert_eq!(body["error"]["message"], "model not found");
}

#[test]
fn successful_stream_reaches_chat_client_translated() {
    let body = stream_answer(ClientProtocol::ChatCompletions, UPSTREAM_SSE_OK);
    assert!(body.contains("chat.completion.chunk"));
    assert!(body.contains(r#""content":"hello""#));
    assert!(body.contains(r#""finish_reason":"stop""#));
    assert!(body.trim_end().ends_with("data: [DONE]"));
}

#[test]
fn a_stream_that_breaks_is_not_terminated() {
    let context = ctx_for(ClientProtocol::Responses);
    let mut translation = TranslatingSse::new(&context).unwrap();
    let start = UPSTREAM_SSE_OK[..3].concat();
    assert!(translation.on_chunk(start.as_bytes()).is_some());
    translation.on_error();
    assert!(translation.on_end().is_none());
}

#[test]
fn part_of_an_event_yields_nothing() {
    let context = ctx_for(ClientProtocol::ChatCompletions);
    let mut translation = TranslatingSse::new(&context).unwrap();
    assert!(translation.on_chunk(b"event: message_start\n").is_none());
}

#[test]
fn the_native_protocol_has_no_translation() {
    assert!(TranslatingSse::new(&ctx_for(ClientProtocol::Anthropic)).is_none());
}

#[test]
fn a_success_that_is_no_json_is_passed_on() {
    let context = ctx_for(ClientProtocol::Responses);
    assert!(reshape_body(&context, 204, b"").is_none());
    let (status, headers, body) = answer(
        &context,
        200,
        vec![
            ("content-length".to_string(), b"2".to_vec()),
            ("content-type".to_string(), b"text/plain".to_vec()),
        ],
        "hi",
    );
    assert_eq!((status, body.as_str()), (200, "hi"));
    assert!(get(&headers, "content-length").is_none());
    assert_eq!(get(&headers, "content-type").unwrap(), b"text/plain");
}

#[test]
fn a_reshaped_body_replaces_length_and_type() {
    let headers = vec![
        ("content-length".to_string(), b"2".to_vec()),
        ("x-request-id".to_string(), b"r1".to_vec()),
        ("content-type".to_string(), b"text/html".to_vec()),
    ];
    assert_eq!(
        reshape_headers(&headers, true),
        vec![
            ("x-request-id".to_string(), b"r1".to_vec()),
            ("content-type".to_string(), b"application/json".to_vec()),
        ]
    );
}

#[test]
fn success_is_the_two_hundreds() {
    assert!(!is_success(199));
    assert!(is_success(200));
    assert!(is_success(299));
    assert!(!is_success(300));
}

#[test]
fn event_streams_are_known_by_their_type() {
    assert!(is_event_stream(&content_type("text/event-stream; charset=utf-8")));
    assert!(!is_event_stream(&content_type("application/json")));
    assert!(!is_event_stream(&Vec::new()));
}

#[test]
fn a_refusal_passes_the_seam_unchanged() {
    for protocol in [ClientProtocol::ChatCompletions, ClientProtocol::Responses] {
        let bytes = refusal_bytes(Refusal::Overloaded, protocol);
        let again = reshape_body(&ctx_for(protocol), Refusal::Overloaded.status(), &bytes);
        assert_eq!(again, Some(bytes));
    }
}

#[test]
fn api_error_envelope_follows_the_calling_path() {
    let refusal = Refusal::InvalidKey;
    assert_eq!(refusal.status(), 401);
    let anthropic = refusal.body(ClientProtocol::from_path("/v1/messages")).to_text();
    let chat = refusal.body(ClientProtocol::from_path("/v1/chat/completions")).to_text();
    let anthropic: Value = serde_json::from_str(&anthropic).unwrap();
    let chat: Value = serde_json::from_str(&chat).unwrap();
    assert_eq!(anthropic["type"], "error");
    assert_eq!(anthropic["error"]["type"], "authentication_error");
    assert!(chat.get("type").is_none());
    assert_eq!(chat["error"]["message"], "Invalid API key");
}

#[test]
fn every_refusal_has_its_words() {
    let table = [
        (Refusal::NotFound, 404, "not_found_error", "Not found"),
        (Refusal::InvalidKey, 401, "authentication_error", "Invalid API key"),
        (Refusal::KeyDisabled, 403, "permission_error", "API key is disabled"),
        (Refusal::AccessDenied, 403, "permission_error", "Access denied"),
        (
            Refusal::BodyTooLarge,
            413,
            "invalid_request_error",
            "Request body too large. Maximum allowed size is 100 MB",
        ),
        (
            Refusal::ModelNotAllowed,
            403,
            "permission_error",
            "Your API key does not have permission to use the specified model.",
        ),
        (Refusal::SubscriptionExceeded, 429, "rate_limit_error", "Subscription limit exceeded"),
        (
            Refusal::TokensPerMinuteExceeded,
            429,
            "rate_limit_error",
            "TPM limit exceeded, please retry later",
        ),
        (Refusal::RateLimited, 429, "rate_limit_error", "Rate limit exceeded"),
        (Refusal::NoServerKeys, 429, "authentication_error", "No server keys configured"),
        (Refusal::Overloaded, 429, "overloaded_error", "All upstream servers unavailable"),
        (Refusal::UnreadableAnswer, 502, "api_error", "Failed to read upstream response body"),
        (
            Refusal::AnswerTimedOut,
            504,
            "api_error",
            "Upstream timed out while sending the response body",
        ),
    ];
    for (refusal, status, error_type, message) in table {
        assert_eq!(refusal.status(), status);
        assert_eq!(refusal.error_type(), error_type);
        assert_eq!(refusal.message(), message);
        assert_eq!(refusal.yields_to_fallback(), status == 429);
        let after = if refusal == Refusal::Overloaded { Some(30) } else { None };
        assert_eq!(refusal.retry_after(), after);
    }
}

#[test]
fn a_translated_stream_is_the_joined_feeds_and_the_tail() {
    let body = UPSTREAM_SSE_OK[..6].concat();
    let run = |size: usize| {
        let context = ctx_for(ClientProtocol::ChatCompletions);
        let mut translation = TranslatingSse::new(&context).unwrap();
        let mut out = Vec::new();
        for chunk in body.as_bytes().chunks(size) {
            if let Some(bytes) = translation.on_chunk(chunk) {
                assert!(!bytes.is_empty());
                out.push(bytes);
            }
        }
        let fed = out.len();
        out.extend(translation.on_end());
        assert_eq!(out.len(), fed + 1);
        assert_eq!(out[fed], b"data: [DONE]\n\n");
        let text = String::from_utf8(out.concat()).unwrap();
        let id = text.split('"').find(|part| part.starts_with("chatcmpl-")).unwrap().to_string();
        text.replace(&id, "ID")
    };
    let whole = run(body.len());
    assert!(whole.contains("hello"));
    assert_eq!(run(1), whole);
    assert_eq!(run(13), whole);
}

#[test]
fn nothing_is_translated_after_an_error_of_the_source() {
    let context = ctx_for(ClientProtocol::ChatCompletions);
    let mut translation = TranslatingSse::new(&context).unwrap();
    assert!(translation.on_chunk(UPSTREAM_SSE_OK[..3].concat().as_bytes()).is_some());
    translation.on_error();
    assert!(translation.on_chunk(UPSTREAM_SSE_OK[3..6].concat().as_bytes()).is_none());
    assert!(translation.on_end().is_none());
}
