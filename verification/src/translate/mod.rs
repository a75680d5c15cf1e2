//! Client-protocol translation for the relay.
//!
//! Upstream servers speak only Anthropic Messages (`/v1/messages`). Clients may
//! speak Anthropic Messages, OpenAI Chat Completions, or the OpenAI Responses
//! API. This module translates the request body on the way in, and the response
//! (JSON or SSE) on the way out.

use vstd::prelude::*;
use vstd::string::*;

use crate::json;
use crate::json::{clone_items, Json, Object, Parsed, Tree};
use crate::text;
use crate::text::{append_text, concat2, from_utf8_lossy, str_eq, trim};
use crate::translate::steps::Outcome;

pub mod chat;
pub mod chat_answer_laws;
pub mod chat_laws;
pub mod chat_message_laws;
pub mod chat_request_laws;
pub mod chat_sse;
pub mod chat_sse_call_laws;
pub mod chat_sse_event_laws;
pub mod chat_sse_laws;
pub mod keys;
pub mod passage_laws;
pub mod refusal_laws;
pub mod responses;
pub mod responses_item_laws;
pub mod responses_laws;
pub mod responses_request_laws;
pub mod responses_sse;
pub mod responses_sse_event_laws;
pub mod responses_sse_item_laws;
pub mod responses_sse_laws;
pub mod responses_sse_replay_laws;
pub mod sse;
pub mod sse_laws;
pub mod steps;
pub mod stream_laws;

verus! {

/// Anthropic requires `max_tokens`; both OpenAI protocols treat their
/// equivalent as optional. This is the fill value when the client omits it.
pub const DEFAULT_MAX_TOKENS: i64 = 4096;

/// Which wire protocol the client is speaking, determined from the request path.
#[derive(Debug, Clone, Copy, PartialEq, Eq, Structural)]
pub enum ClientProtocol {
    /// Native Anthropic Messages, not translated.
    Anthropic,
    /// OpenAI Chat Completions (`/v1/chat/completions`).
    ChatCompletions,
    /// OpenAI Responses API (`/v1/responses`).
    Responses,
}

/// The protocol that a path stands for. Every path but the two of OpenAI, among
/// them `/v1/messages/count_tokens`, passes through untranslated.
pub open spec fn protocol_of_path(path: Seq<char>) -> ClientProtocol {
    if path == "/v1/chat/completions"@ {
        ClientProtocol::ChatCompletions
    } else if path == "/v1/responses"@ {
        ClientProtocol::Responses
    } else {
        ClientProtocol::Anthropic
    }
}

impl ClientProtocol {
    /// Classifies a request by its path alone, before any body is read.
    pub fn from_path(path: &str) -> (r: Self)
        ensures
            r == protocol_of_path(path@),
    {
        if str_eq(path, "/v1/chat/completions") {
            ClientProtocol::ChatCompletions
        } else if str_eq(path, "/v1/responses") {
            ClientProtocol::Responses
        } else {
            ClientProtocol::Anthropic
        }
    }

    /// Whether a request on this protocol needs body and response translation.
    pub fn needs_translation(self) -> (r: bool)
        ensures
            r == (self != ClientProtocol::Anthropic),
    {
        self != ClientProtocol::Anthropic
    }
}

/// A request that cannot be represented as an Anthropic Messages call.
///
/// Carries the pieces an error envelope needs so the caller can render it in
/// whichever protocol the client is speaking.
#[derive(Debug, Clone, PartialEq, Eq)]
pub struct TranslateError {
    pub error_type: String,
    pub message: String,
}

impl TranslateError {
    /// The error is that of an invalid request, with this message.
    pub open spec fn refuses_with(self, message: Seq<char>) -> bool {
        self.error_type@ == "invalid_request_error"@ && self.message@ == message
    }

    pub fn invalid_request(message: String) -> (r: Self)
        ensures
            r.refuses_with(message@),
    {
        TranslateError { error_type: "invalid_request_error".to_owned(), message }
    }

    /// The type and the message, as one line.
    pub fn to_string(&self) -> (r: String)
        ensures
            r@ == self.error_type@ + ": "@ + self.message@,
    {
        let mut out = self.error_type.clone();
        out.append(": ");
        out.append(self.message.as_str());
        out
    }
}

/// The body of an error in the envelope that the protocol expects.
pub open spec fn envelope(
    protocol: ClientProtocol,
    error_type: Seq<char>,
    message: Seq<char>,
) -> Tree {
    let openai = Tree::Obj(
        map![
            "message"@ => Tree::Str(message),
            "type"@ => Tree::Str(error_type),
            "param"@ => Tree::Null,
            "code"@ => Tree::Null,
        ],
    );
    match protocol {
        ClientProtocol::Anthropic => Tree::Obj(
            map![
                "type"@ => Tree::Str("error"@),
                "error"@ => Tree::Obj(
                    map!["type"@ => Tree::Str(error_type), "message"@ => Tree::Str(message)],
                ),
            ],
        ),
        ClientProtocol::ChatCompletions => Tree::Obj(map!["error"@ => openai]),
        ClientProtocol::Responses => Tree::Obj(
            map!["object"@ => Tree::Str("error"@), "error"@ => openai],
        ),
    }
}

/// Builds an error body in the envelope the given protocol expects.
///
/// Anthropic uses a top-level `type` discriminator; both OpenAI protocols nest
/// everything under `error`, and Responses adds an `object` discriminator.
pub fn error_envelope(protocol: ClientProtocol, error_type: &str, message: &str) -> (r: Json)
    ensures
        r@ == envelope(protocol, error_type@, message@),
{
    match protocol {
        ClientProtocol::Anthropic => Json::Object(
            Object::new().with("type", Json::text("error")).with(
                "error",
                Json::Object(
                    Object::new().with("type", Json::text(error_type)).with(
                        "message",
                        Json::text(message),
                    ),
                ),
            ),
        ),
        ClientProtocol::ChatCompletions => Json::Object(
            Object::new().with("error", openai_error(error_type, message)),
        ),
        ClientProtocol::Responses => Json::Object(
            Object::new().with("object", Json::text("error")).with(
                "error",
                openai_error(error_type, message),
            ),
        ),
    }
}

fn openai_error(error_type: &str, message: &str) -> (r: Json)
    ensures
        Some(r@) == envelope(ClientProtocol::ChatCompletions, error_type@, message@).get("error"@),
{
    Json::Object(
        Object::new().with("message", Json::text(message)).with("type", Json::text(error_type)).with(
            "param",
            Json::Null,
        ).with("code", Json::Null),
    )
}

/// A text under `error` of an Anthropic error body.
pub open spec fn error_detail(doc: Tree, field: Seq<char>) -> Option<Seq<char>> {
    json::str_in(json::get_in(doc.get("error"@), field))
}

/// A text under `error` of an Anthropic error body.
pub fn error_detail_in(doc: &Json, field: &str) -> (r: Option<String>)
    ensures
        match r {
            Some(s) => error_detail(doc@, field@) == Some(s@),
            None => error_detail(doc@, field@) is None,
        },
{
    match doc.get("error") {
        Some(error) => match error.get(field) {
            Some(v) => match v.as_str() {
                Some(s) => Some(s.to_owned()),
                None => None,
            },
            None => None,
        },
        None => None,
    }
}

/// The `error.message` of an Anthropic error body; elsewhere the text of the body
/// itself.
pub open spec fn upstream_error_message(body: Seq<u8>) -> Seq<char> {
    match json::parsed(body) {
        Parsed::Doc(doc) => match error_detail(doc, "message"@) {
            Some(message) => message,
            None => text::trimmed(text::lossy_text(body)),
        },
        Parsed::Malformed(_) => text::trimmed(text::lossy_text(body)),
    }
}

/// The `error.type` of an Anthropic error body; elsewhere `api_error`.
pub open spec fn upstream_error_type(body: Seq<u8>) -> Seq<char> {
    match json::parsed(body) {
        Parsed::Doc(doc) => match error_detail(doc, "type"@) {
            Some(error_type) => error_type,
            None => "api_error"@,
        },
        Parsed::Malformed(_) => "api_error"@,
    }
}

/// Pulls an Anthropic error body's `error.message` out, for re-wrapping in
/// another protocol's envelope.
///
/// Falls back to the raw text when the body is not an Anthropic error envelope,
/// so an upstream returning HTML or a bare string still surfaces something
/// actionable rather than being swallowed.
pub fn anthropic_error_message(body: &[u8]) -> (r: String)
    ensures
        r@ == upstream_error_message(body@),
{
    match Json::from_slice(body) {
        Ok(doc) => match error_detail_in(&doc, "message") {
            Some(message) => message,
            None => trim(from_utf8_lossy(body).as_str()).to_owned(),
        },
        Err(_) => trim(from_utf8_lossy(body).as_str()).to_owned(),
    }
}

/// Pulls an Anthropic error body's `error.type` out, defaulting to `api_error`.
pub fn anthropic_error_type(body: &[u8]) -> (r: String)
    ensures
        r@ == upstream_error_type(body@),
{
    match Json::from_slice(body) {
        Ok(doc) => match error_detail_in(&doc, "type") {
            Some(error_type) => error_type,
            None => "api_error".to_owned(),
        },
        Err(_) => "api_error".to_owned(),
    }
}

/// The object that a reader's result holds; `{}` where it holds none.
pub open spec fn object_or_empty(p: Parsed) -> Tree {
    match p {
        Parsed::Doc(Tree::Obj(m)) => Tree::Obj(m),
        _ => Tree::Obj(Map::empty()),
    }
}

/// The `tool_use.input` that stored tool-call `arguments` stand for. Anything that
/// is not the text of a JSON object is `{}`.
pub open spec fn input_of_arguments(arguments: Option<Tree>) -> Tree {
    match json::str_in(arguments) {
        Some(raw) => if text::trimmed(raw).len() == 0 {
            Tree::Obj(Map::empty())
        } else {
            object_or_empty(json::parsed(vstd::utf8::encode_utf8(raw)))
        },
        None => Tree::Obj(Map::empty()),
    }
}

/// The document, where it is an object; `{}` elsewhere.
pub fn keep_object(doc: Json) -> (r: Json)
    ensures
        r@ == object_or_empty(Parsed::Doc(doc@)),
{
    match doc {
        Json::Object(o) => Json::Object(o),
        _ => Json::Object(Object::new()),
    }
}

/// Reads an OpenAI tool call's stored `arguments` back into an Anthropic
/// `tool_use.input` object.
///
/// This never fails: Anthropic requires `tool_use.input` to be an object, and
/// anything that is not one (absent, not a string, empty, unparseable, or parsing
/// to something else) becomes `{}`. An inbound tool call is always history, so
/// nothing executes on the strength of these arguments, and refusing a request
/// over them would block every later turn of the same conversation.
pub fn tool_input_from_arguments(arguments: Option<&Json>) -> (r: Json)
    ensures
        r@ == input_of_arguments(json::view_opt(arguments)),
        r@ is Obj,
{
    match arguments {
        Some(v) => match v.as_str() {
            Some(raw) => {
                if trim(raw).is_empty() {
                    Json::Object(Object::new())
                } else {
                    match Json::from_slice(raw.as_bytes()) {
                        Ok(doc) => keep_object(doc),
                        Err(_) => Json::Object(Object::new()),
                    }
                }
            },
            None => Json::Object(Object::new()),
        },
        None => Json::Object(Object::new()),
    }
}

/// The object that a `tool_use` block's `input` stands for: itself where it is an
/// object, `{}` elsewhere.
pub open spec fn input_object(input: Option<Tree>) -> Tree {
    match input {
        Some(Tree::Obj(m)) => Tree::Obj(m),
        _ => Tree::Obj(Map::empty()),
    }
}

/// The `arguments` text of a `tool_use` block's `input`.
pub open spec fn arguments_of_input(input: Option<Tree>) -> Seq<char> {
    match input {
        Some(Tree::Obj(m)) => if m =~= Map::empty() {
            "{}"@
        } else {
            json::json_text(Tree::Obj(m))
        },
        _ => "{}"@,
    }
}

/// Serializes an Anthropic `tool_use` block's `input` as an OpenAI `arguments`
/// string.
///
/// Anything that is not a populated object (absent, `null`, or `{}`) means "no
/// arguments" and becomes `{}`, never an empty text. What is written for a plain
/// input that nests less than 128 levels deep is the text of a JSON object, and
/// [`tool_input_from_arguments`] reads that very object back from it.
pub fn tool_arguments_from_input(input: Option<&Json>) -> (r: String)
    ensures
        r@ == arguments_of_input(json::view_opt(input)),
        r@.len() > 0,
        json::plain(input_object(json::view_opt(input)), 127) ==> input_of_arguments(Some(Tree::Str(r@)))
            == input_object(json::view_opt(input)),
{
    let text = match input {
        Some(v) => match v.as_object() {
            Some(o) => {
                if o.is_empty() {
                    Json::Object(Object::new()).to_text()
                } else {
                    v.to_text()
                }
            },
            None => Json::Object(Object::new()).to_text(),
        },
        None => Json::Object(Object::new()).to_text(),
    };
    proof {
        text::lemma_trimmed_not_empty(text@);
    }
    text
}

/// The token limit of a request.
pub open spec fn max_tokens_of(primary: Option<Tree>, fallback: Option<Tree>) -> i64 {
    match primary {
        Some(Tree::Int(n)) if i64::MIN <= n <= i64::MAX => n as i64,
        _ => match fallback {
            Some(Tree::Int(n)) if i64::MIN <= n <= i64::MAX => n as i64,
            _ => DEFAULT_MAX_TOKENS,
        },
    }
}

/// Reads a `max_tokens`-like field, falling back to a second field and then to
/// [`DEFAULT_MAX_TOKENS`].
pub fn resolve_max_tokens(primary: Option<&Json>, fallback: Option<&Json>) -> (r: i64)
    ensures
        r == max_tokens_of(json::view_opt(primary), json::view_opt(fallback)),
{
    if let Some(v) = primary {
        if let Some(n) = v.as_i64() {
            return n;
        }
    }
    if let Some(v) = fallback {
        if let Some(n) = v.as_i64() {
            return n;
        }
    }
    DEFAULT_MAX_TOKENS
}

/// The object with a field copied over, unless it is absent or `null`.
pub open spec fn with_field(
    out: Map<Seq<char>, Tree>,
    src: Tree,
    field: Seq<char>,
) -> Map<Seq<char>, Tree> {
    match src.get(field) {
        None => out,
        Some(Tree::Null) => out,
        Some(v) => out.insert(field, v),
    }
}

/// The object with `temperature`, `top_p`, `stream` and `stop` of a request.
pub open spec fn with_sampling(out: Map<Seq<char>, Tree>, src: Tree) -> Map<Seq<char>, Tree> {
    let out = with_field(with_field(out, src, "temperature"@), src, "top_p"@);
    let out = match src.get("stream"@) {
        Some(Tree::Bool(b)) => out.insert("stream"@, Tree::Bool(b)),
        _ => out,
    };
    match src.get("stop"@) {
        Some(Tree::Str(s)) => out.insert("stop_sequences"@, Tree::Arr(seq![Tree::Str(s)])),
        Some(Tree::Arr(a)) => if a.len() > 0 {
            out.insert("stop_sequences"@, Tree::Arr(a))
        } else {
            out
        },
        _ => out,
    }
}

fn copy_field(out: &mut Object, src: &Json, field: &str)
    ensures
        final(out)@ == with_field(old(out)@, src@, field@),
{
    if let Some(v) = src.get(field) {
        if !v.is_null() {
            out.insert(field.to_owned(), v.clone());
        }
    }
}

/// Copies `temperature`, `top_p`, and `stream` across unchanged, and normalises
/// `stop` (string or array) into Anthropic's `stop_sequences`.
pub fn apply_common_sampling(out: &mut Object, src: &Json)
    ensures
        final(out)@ == with_sampling(old(out)@, src@),
{
    copy_field(out, src, "temperature");
    copy_field(out, src, "top_p");
    if let Some(v) = src.get("stream") {
        if let Some(stream) = v.as_bool() {
            out.insert("stream".to_owned(), Json::Bool(stream));
        }
    }
    match src.get("stop") {
        Some(Json::String(s)) => {
            let mut items: Vec<Json> = Vec::new();
            items.push(Json::String(s.clone()));
            assert(json::values_view(items@) =~= seq![Tree::Str(s@)]);
            out.insert("stop_sequences".to_owned(), Json::Array(items));
        },
        Some(Json::Array(a)) => {
            if a.len() > 0 {
                out.insert("stop_sequences".to_owned(), Json::Array(clone_items(a)));
            }
        },
        _ => {},
    }
}

/// Whether a request asks for a usage report in its stream.
pub open spec fn asks_stream_usage(src: Tree) -> bool {
    json::get_in(src.get("stream_options"@), "include_usage"@) == Some(Tree::Bool(true))
}

/// Whether a request asks for a usage report in its stream.
pub fn stream_usage_in(src: &Json) -> (r: bool)
    ensures
        r == asks_stream_usage(src@),
{
    if let Some(options) = src.get("stream_options") {
        if let Some(v) = options.get("include_usage") {
            if let Some(b) = v.as_bool() {
                return b;
            }
        }
    }
    false
}

/// Whether the client asked for a usage report in its stream.
///
/// Anthropic always reports usage, so this is the only signal for whether the
/// translated stream should surface a usage chunk. OpenAI clients that did not
/// ask must not receive one.
pub fn wants_stream_usage(body: &[u8]) -> (r: bool)
    ensures
        r == (match json::parsed(body@) {
            Parsed::Doc(src) => asks_stream_usage(src),
            Parsed::Malformed(_) => false,
        }),
{
    match Json::from_slice(body) {
        Ok(src) => stream_usage_in(&src),
        Err(_) => false,
    }
}

/// What the outbound side needs to remember from the inbound request.
///
/// These facts about the request are only actionable when translating the
/// response, so they are captured once on the way in and carried across:
/// whether the client asked for a streamed usage report, and the name of the
/// synthetic tool standing in for a `json_schema` response format.
#[derive(Debug, Clone, PartialEq, Eq)]
pub struct TranslationContext {
    pub protocol: ClientProtocol,
    pub include_usage: bool,
    pub json_schema_tool: Option<String>,
    /// The model name exactly as the client sent it, captured before per-server
    /// model mappings rewrite it. It is echoed back in the translated response:
    /// OpenAI SDKs and many client-side routers assert that the response `model`
    /// matches what they asked for.
    pub client_model: Option<String>,
}

impl TranslationContext {
    /// The context of a request that is not translated.
    pub fn anthropic() -> (r: Self)
        ensures
            r.protocol == ClientProtocol::Anthropic,
            !r.include_usage,
            r.json_schema_tool is None,
            r.client_model is None,
    {
        TranslationContext {
            protocol: ClientProtocol::Anthropic,
            include_usage: false,
            json_schema_tool: None,
            client_model: None,
        }
    }
}

/// The model of a translation context.
pub struct Context {
    pub protocol: ClientProtocol,
    pub include_usage: bool,
    pub json_schema_tool: Option<Seq<char>>,
    pub client_model: Option<Seq<char>>,
}

impl TranslationContext {
    /// The model of this context.
    pub open spec fn view(&self) -> Context {
        Context {
            protocol: self.protocol,
            include_usage: self.include_usage,
            json_schema_tool: chat::text_opt(self.json_schema_tool),
            client_model: chat::text_opt(self.client_model),
        }
    }
}

/// The Anthropic body of a client's request, with the name of the synthetic tool
/// where one was made.
pub open spec fn translated(protocol: ClientProtocol, src: Tree) -> Outcome<
    (Tree, Option<Seq<char>>),
> {
    match protocol {
        ClientProtocol::Anthropic => Outcome::Done((src, None)),
        ClientProtocol::ChatCompletions => chat::request(src),
        ClientProtocol::Responses => match responses::request(src) {
            Outcome::Done(out) => Outcome::Done((out, None)),
            Outcome::Refused(m) => Outcome::Refused(m),
        },
    }
}

/// What the response side will need of a request. The model is read from the client's
/// own body, before per-server model mappings rewrite it.
pub open spec fn context_of(
    protocol: ClientProtocol,
    src: Tree,
    json_schema_tool: Option<Seq<char>>,
) -> Context {
    Context {
        protocol,
        include_usage: asks_stream_usage(src),
        json_schema_tool,
        client_model: json::str_in(src.get("model"@)),
    }
}

/// Translates a client's request document into an Anthropic Messages document,
/// returning it together with what the response side will need.
pub fn translate_request(protocol: ClientProtocol, src: &Json) -> (r: Result<
    (Json, TranslationContext),
    TranslateError,
>)
    ensures
        match (r, translated(protocol, src@)) {
            (Ok((out, context)), Outcome::Done(o)) => out@ == o.0 && context@ == context_of(
                protocol,
                src@,
                o.1,
            ),
            (Err(e), Outcome::Refused(m)) => e.refuses_with(m),
            _ => false,
        },
{
    let (out, json_schema_tool) = match protocol {
        ClientProtocol::Anthropic => (src.clone(), None),
        ClientProtocol::ChatCompletions => match chat::request_to_anthropic(src) {
            Ok(translated) => translated,
            Err(e) => {
                return Err(e);
            },
        },
        ClientProtocol::Responses => match responses::request_to_anthropic(src) {
            Ok(out) => (out, None),
            Err(e) => {
                return Err(e);
            },
        },
    };
    let client_model = match src.get_str("model") {
        Some(model) => Some(model.to_owned()),
        None => None,
    };
    let context = TranslationContext {
        protocol,
        include_usage: stream_usage_in(src),
        json_schema_tool,
        client_model,
    };
    Ok((out, context))
}

/// Translates a client request body into an Anthropic Messages body, returning
/// the translated bytes together with what the response side will need.
///
/// `Anthropic` returns the bytes untouched, bit for bit.
pub fn request_to_anthropic(protocol: ClientProtocol, body: &[u8]) -> (r: Result<
    (Vec<u8>, TranslationContext),
    TranslateError,
>)
    ensures
        protocol == ClientProtocol::Anthropic ==> (r matches Ok((bytes, context)) && bytes@ == body@
            && context@ == (Context {
            protocol: ClientProtocol::Anthropic,
            include_usage: false,
            json_schema_tool: None,
            client_model: None,
        })),
        protocol != ClientProtocol::Anthropic ==> match json::parsed(body@) {
            Parsed::Malformed(m) => r matches Err(e) && e.refuses_with("Invalid JSON body: "@ + m),
            Parsed::Doc(src) => match (r, translated(protocol, src)) {
                (Ok((bytes, context)), Outcome::Done(o)) => bytes@ == vstd::utf8::encode_utf8(
                    json::json_text(o.0),
                ) && context@ == context_of(protocol, src, o.1),
                (Err(e), Outcome::Refused(m)) => e.refuses_with(m),
                _ => false,
            },
        },
{
    if protocol == ClientProtocol::Anthropic {
        return Ok((vstd::slice::slice_to_vec(body), TranslationContext::anthropic()));
    }
    let src = match Json::from_slice(body) {
        Ok(src) => src,
        Err(message) => {
            return Err(
                TranslateError::invalid_request(concat2("Invalid JSON body: ", message.as_str())),
            );
        },
    };
    match translate_request(protocol, &src) {
        Ok((out, context)) => {
            let mut bytes: Vec<u8> = Vec::new();
            append_text(&mut bytes, out.to_text().as_str());
            assert(bytes@ =~= vstd::utf8::encode_utf8(json::json_text(out@)));
            Ok((bytes, context))
        },
        Err(e) => Err(e),
    }
}

} // verus!
