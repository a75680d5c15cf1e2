use serde_json::Value;
use viber_router::json::Json;
use viber_router::translate;
use viber_router::translate::{
    anthropic_error_message, anthropic_error_type, request_to_anthropic, wants_stream_usage,
    ClientProtocol,
};

fn val(text: &str) -> Value {
    serde_json::from_str(text).unwrap()
}

fn error_envelope(protocol: ClientProtocol, error_type: &str, message: &str) -> Value {
    let envelope: Json = translate::error_envelope(protocol, error_type, message);
    val(&envelope.to_text())
}

#[test]
fn from_path_classifies_chat_completions() {
    assert_eq!(
        ClientProtocol::from_path("/v1/chat/completions"),
        ClientProtocol::ChatCompletions
    );
}

#[test]
fn from_path_classifies_responses() {
    assert_eq!(
        ClientProtocol::from_path("/v1/responses"),
        ClientProtocol::Responses
    );
}

#[test]
fn from_path_classifies_messages_as_anthropic() {
    assert_eq!(
        ClientProtocol::from_path("/v1/messages"),
        ClientProtocol::Anthropic
    );
}

#[test]
fn from_path_classifies_count_tokens_as_anthropic() {

    assert_eq!(
        ClientProtocol::from_path("/v1/messages/count_tokens"),
        ClientProtocol::Anthropic
    );
}

#[test]
fn from_path_classifies_unknown_v1_path_as_anthropic() {
    assert_eq!(
        ClientProtocol::from_path("/v1/models"),
        ClientProtocol::Anthropic
    );
}

#[test]
fn needs_translation_only_for_openai_protocols() {
    assert!(!ClientProtocol::Anthropic.needs_translation());
    assert!(ClientProtocol::ChatCompletions.needs_translation());
    assert!(ClientProtocol::Responses.needs_translation());
}

#[test]
fn anthropic_error_envelope_uses_top_level_type() {
    let body = error_envelope(ClientProtocol::Anthropic, "not_found_error", "Not found");
    assert_eq!(body["type"], "error");
    assert_eq!(body["error"]["type"], "not_found_error");
    assert_eq!(body["error"]["message"], "Not found");
}

#[test]
fn chat_error_envelope_nests_under_error() {
    let body = error_envelope(
        ClientProtocol::ChatCompletions,
        "authentication_error",
        "Invalid API key",
    );
    assert!(body.get("type").is_none());
    assert_eq!(body["error"]["message"], "Invalid API key");
    assert_eq!(body["error"]["type"], "authentication_error");
    assert!(body["error"]["param"].is_null());
    assert!(body["error"]["code"].is_null());
}

#[test]
fn responses_error_envelope_adds_object_discriminator() {
    let body = error_envelope(ClientProtocol::Responses, "rate_limit_error", "Slow down");
    assert_eq!(body["object"], "error");
    assert_eq!(body["error"]["message"], "Slow down");
    assert_eq!(body["error"]["type"], "rate_limit_error");
}

#[test]
fn anthropic_error_message_reads_nested_message() {
    let body = br#"{"type":"error","error":{"type":"invalid_request_error","message":"bad model"}}"#;
    assert_eq!(anthropic_error_message(body), "bad model");
    assert_eq!(anthropic_error_type(body), "invalid_request_error");
}

#[test]
fn anthropic_error_message_falls_back_to_raw_text() {
    let body = b"  <html>502 Bad Gateway</html>  ";
    assert_eq!(anthropic_error_message(body), "<html>502 Bad Gateway</html>");
    assert_eq!(anthropic_error_type(body), "api_error");
}

#[test]
fn wants_stream_usage_reads_nested_flag() {
    assert!(wants_stream_usage(
        br#"{"stream":true,"stream_options":{"include_usage":true}}"#
    ));
    assert!(!wants_stream_usage(
        br#"{"stream":true,"stream_options":{"include_usage":false}}"#
    ));
    assert!(!wants_stream_usage(br#"{"stream":true}"#));
    assert!(!wants_stream_usage(b"not json"));
}

#[test]
fn anthropic_request_passes_through_untouched() {
    let body = br#"{"model":"opus-4-6","messages":[]}"#;
    let (out, ctx) = request_to_anthropic(ClientProtocol::Anthropic, body).unwrap();
    assert_eq!(out, body.to_vec());
    assert_eq!(ctx.protocol, ClientProtocol::Anthropic);
    assert!(!ctx.include_usage);
    assert!(ctx.json_schema_tool.is_none());
}

#[test]
fn malformed_json_on_translated_protocol_errors() {
    let err = request_to_anthropic(ClientProtocol::ChatCompletions, b"{oh no").unwrap_err();
    assert_eq!(err.error_type, "invalid_request_error");
    assert!(err.message.contains("Invalid JSON"));
}
