//! The way back to the client: an Anthropic-shaped answer is reshaped for the protocol that
//! the client speaks.

use vstd::prelude::*;

use crate::ids;
use crate::json;
use crate::json::{Json, Parsed, Tree};
use crate::proxy::body;
use crate::proxy::body::to_bytes;
use crate::proxy::refusal::Refusal;
use crate::proxy::request;
use crate::proxy::request::Headers;
use crate::text::{append_text, str_eq};
use crate::translate;
use crate::translate::chat;
use crate::translate::chat_sse;
use crate::translate::chat_sse::{ChatSseTranslator, ChatState};
use crate::translate::responses;
use crate::translate::responses_sse;
use crate::translate::responses_sse::{ResponsesSseTranslator, ResponsesState};
use crate::translate::sse;
use crate::translate::{ClientProtocol, Context, TranslationContext};

verus! {

/// The status is one of success.
pub open spec fn succeeds(status: u16) -> bool {
    200 <= status < 300
}

/// Whether the status is one of success.
pub fn is_success(status: u16) -> (r: bool)
    ensures
        r == succeeds(status),
{
    200 <= status && status < 300
}

/// What is done with an answer on its way to the client.
#[derive(Debug, Clone, Copy, PartialEq, Eq, Structural)]
pub enum Passage {
    /// It goes back untouched.
    Untouched,
    /// Its events are reshaped one by one, as they come.
    Stream,
    /// Its body is read and reshaped.
    Body,
}

/// What is done with an answer. The shape of its body decides nothing.
pub open spec fn passage(protocol: ClientProtocol, status: u16, event_stream: bool) -> Passage {
    if protocol == ClientProtocol::Anthropic {
        Passage::Untouched
    } else if event_stream && succeeds(status) {
        Passage::Stream
    } else {
        Passage::Body
    }
}

/// Decides what is done with an answer, from the client's protocol, the status and the
/// headers alone.
pub fn passage_for(protocol: ClientProtocol, status: u16, headers: &Headers) -> (r: Passage)
    ensures
        r == passage(protocol, status, request::streams_events(request::header_views(headers@))),
{
    if !protocol.needs_translation() {
        Passage::Untouched
    } else if request::is_event_stream(headers) && is_success(status) {
        Passage::Stream
    } else {
        Passage::Body
    }
}

/// The document is what the protocol's response to an upstream message is. A response of the
/// Responses API holds random ids.
pub open spec fn responds(context: Context, message: Tree, response: Tree) -> bool {
    match context.protocol {
        ClientProtocol::ChatCompletions => response == chat::response(
            message,
            context.json_schema_tool,
            context.client_model,
        ),
        ClientProtocol::Responses => exists|ids: Seq<Seq<char>>| #[trigger]
            ids::are_random_ids(ids) && ids.len() == responses::content_of(message).len()
                && response == responses::response(message, context.client_model, ids),
        ClientProtocol::Anthropic => false,
    }
}

/// Translates a successful non-streaming Anthropic Messages body into the client's protocol.
///
/// `None` means that the body was not JSON at all, or that the client speaks Anthropic; it is
/// forwarded untouched rather than replaced.
pub fn translate_success_body(context: &TranslationContext, body: &[u8]) -> (r: Option<Json>)
    ensures
        match (json::parsed(body@), context.protocol) {
            (Parsed::Malformed(_), _) => r is None,
            (Parsed::Doc(_), ClientProtocol::Anthropic) => r is None,
            (Parsed::Doc(message), _) => r is Some && responds(context@, message, r->0@),
        },
{
    match Json::from_slice(body) {
        Ok(message) => {
            let model: Option<&str> = match &context.client_model {
                Some(model) => Some(model.as_str()),
                None => None,
            };
            match context.protocol {
                ClientProtocol::ChatCompletions => {
                    let tool: Option<&str> = match &context.json_schema_tool {
                        Some(tool) => Some(tool.as_str()),
                        None => None,
                    };
                    Some(chat::anthropic_to_response(&message, tool, model))
                },
                ClientProtocol::Responses => Some(
                    responses::anthropic_to_response(&message, model),
                ),
                ClientProtocol::Anthropic => None,
            }
        },
        Err(_) => None,
    }
}

/// The bytes are the body that a client is given for an upstream body. An error is
/// re-enveloped, whatever it holds; a success that is no JSON is passed on as it is rather
/// than replaced.
pub open spec fn reshapes(
    context: Context,
    status: u16,
    upstream: Seq<u8>,
    bytes: Option<Seq<u8>>,
) -> bool {
    if context.protocol == ClientProtocol::Anthropic {
        bytes is None
    } else if !succeeds(status) {
        bytes == Some(
            body::doc_bytes(
                translate::envelope(
                    context.protocol,
                    translate::upstream_error_type(upstream),
                    translate::upstream_error_message(upstream),
                ),
            ),
        )
    } else {
        match json::parsed(upstream) {
            Parsed::Doc(message) => exists|response: Tree| #[trigger]
                responds(context, message, response) && bytes == Some(body::doc_bytes(response)),
            Parsed::Malformed(_) => bytes is None,
        }
    }
}

/// Reshapes the body of an answer; `None` where it is passed on as it is.
pub fn reshape_body(context: &TranslationContext, status: u16, body: &[u8]) -> (r: Option<Vec<u8>>)
    ensures
        reshapes(context@, status, body@, request::bytes_opt(r)),
{
    let doc = if is_success(status) {
        translate_success_body(context, body)
    } else {
        match context.protocol {
            ClientProtocol::ChatCompletions => Some(chat::anthropic_error_to_response(body)),
            ClientProtocol::Responses => Some(responses::anthropic_error_to_response(body)),
            ClientProtocol::Anthropic => None,
        }
    };
    match doc {
        Some(doc) => {
            assert(succeeds(status) ==> responds(context@, json::parsed(body@)->Doc_0, doc@));
            Some(to_bytes(&doc))
        },
        None => None,
    }
}

/// The headers but those with this name.
pub open spec fn without_header(
    headers: Seq<(Seq<char>, Seq<u8>)>,
    name: Seq<char>,
) -> Seq<(Seq<char>, Seq<u8>)>
    decreases headers.len(),
{
    if headers.len() == 0 {
        Seq::empty()
    } else if headers.last().0 == name {
        without_header(headers.drop_last(), name)
    } else {
        without_header(headers.drop_last(), name).push(headers.last())
    }
}

fn drop_header(headers: &Headers, name: &str) -> (r: Headers)
    ensures
        request::header_views(r@) == without_header(request::header_views(headers@), name@),
{
    let mut out: Headers = Vec::new();
    let ghost all = request::header_views(headers@);
    assert(request::header_views(out@) =~= without_header(all.take(0), name@));
    for i in 0..headers.len()
        invariant
            all == request::header_views(headers@),
            request::header_views(out@) == without_header(all.take(i as int), name@),
    {
        let ghost more = all.take(i + 1);
        assert(more.drop_last() =~= all.take(i as int));
        assert(more.last() == (headers@[i as int].0@, headers@[i as int].1@));
        if !str_eq(headers[i].0.as_str(), name) {
            let ghost before = out@;
            out.push((headers[i].0.clone(), vstd::slice::slice_to_vec(headers[i].1.as_slice())));
            assert(request::header_views(out@) =~= request::header_views(before).push(
                more.last(),
            ));
        }
    }
    assert(all.take(all.len() as int) =~= all);
    out
}

/// The headers of a reshaped answer: those of the upstream answer without its length, which
/// describes a body that is replaced, and with the type of the new body, where it is one.
pub open spec fn reshaped_headers(
    headers: Seq<(Seq<char>, Seq<u8>)>,
    new_body: bool,
) -> Seq<(Seq<char>, Seq<u8>)> {
    let kept = without_header(headers, "content-length"@);
    if new_body {
        without_header(kept, "content-type"@).push(
            ("content-type"@, vstd::utf8::encode_utf8("application/json"@)),
        )
    } else {
        kept
    }
}

/// The headers of a reshaped answer.
pub fn reshape_headers(headers: &Headers, new_body: bool) -> (r: Headers)
    ensures
        request::header_views(r@) == reshaped_headers(request::header_views(headers@), new_body),
{
    let kept = drop_header(headers, "content-length");
    if !new_body {
        return kept;
    }
    let mut out = drop_header(&kept, "content-type");
    let mut value: Vec<u8> = Vec::new();
    append_text(&mut value, "application/json");
    let ghost before = out@;
    assert(value@ =~= vstd::utf8::encode_utf8("application/json"@));
    out.push(("content-type".to_owned(), value));
    assert(request::header_views(out@) =~= request::header_views(before).push(
        ("content-type"@, value@),
    ));
    out
}

/// The translator of a stream.
enum SseTranslator {
    Chat(ChatSseTranslator),
    Responses(ResponsesSseTranslator),
}

/// Where the translation of a stream stands: over, or with what is buffered and what has
/// been told so far.
pub enum SseState {
    Over,
    Chat(Seq<u8>, ChatState),
    Responses(Seq<u8>, ResponsesState),
}

/// The upstream events that a chunk completes.
pub open spec fn completed_by(state: SseState, chunk: Seq<u8>) -> Seq<Tree> {
    match state {
        SseState::Over => Seq::empty(),
        SseState::Chat(buffer, _) => sse::documents(buffer + chunk),
        SseState::Responses(buffer, _) => sse::documents(buffer + chunk),
    }
}

/// The upstream events that come with the end of the stream.
pub open spec fn completed_by_end(state: SseState) -> Seq<Tree> {
    match state {
        SseState::Over => Seq::empty(),
        SseState::Chat(buffer, _) => sse::flushed(buffer),
        SseState::Responses(buffer, _) => sse::flushed(buffer),
    }
}

/// Where the translation stands after a chunk, and the bytes that it is translated to; `ids`
/// gives each event a random part for the id of an item, where the protocol has items.
pub open spec fn translate_chunk(state: SseState, chunk: Seq<u8>, ids: Seq<Seq<char>>) -> (
    SseState,
    Seq<u8>,
) {
    let events = completed_by(state, chunk);
    match state {
        SseState::Over => (SseState::Over, Seq::empty()),
        SseState::Chat(buffer, s) => {
            let run = chat_sse::chat_run(s, events);
            (SseState::Chat(sse::remainder(buffer + chunk), run.0), chat_sse::frames_bytes(run.1))
        },
        SseState::Responses(buffer, s) => {
            let run = responses_sse::responses_run(s, events, ids);
            (
                SseState::Responses(sse::remainder(buffer + chunk), run.state),
                responses_sse::events_bytes(run.sent),
            )
        },
    }
}

/// The bytes that the end of the stream is translated to.
pub open spec fn translate_end(state: SseState, ids: Seq<Seq<char>>) -> Seq<u8> {
    let events = completed_by_end(state);
    match state {
        SseState::Over => Seq::empty(),
        SseState::Chat(_, s) => {
            let run = chat_sse::chat_run(s, events);
            chat_sse::frames_bytes(chat_sse::finished(run.0, run.1))
        },
        SseState::Responses(_, s) => responses_sse::events_bytes(
            responses_sse::finished(responses_sse::responses_run(s, events, ids)),
        ),
    }
}

/// Feeds every chunk of an upstream Anthropic event stream through the translator of a
/// protocol.
pub struct TranslatingSse {
    translator: Option<SseTranslator>,
}

/// What is yielded for these bytes: an empty chunk is not.
pub open spec fn yields(out: Option<Vec<u8>>, bytes: Seq<u8>) -> bool {
    if bytes.len() == 0 {
        out is None
    } else {
        out is Some && out->0@ == bytes
    }
}

fn to_yield(bytes: Vec<u8>) -> (r: Option<Vec<u8>>)
    ensures
        yields(r, bytes@),
{
    if bytes.len() == 0 {
        None
    } else {
        Some(bytes)
    }
}

impl TranslatingSse {
    /// Where the translation stands.
    pub closed spec fn view(&self) -> SseState {
        match self.translator {
            None => SseState::Over,
            Some(SseTranslator::Chat(t)) => SseState::Chat(t.buffered(), t.state()),
            Some(SseTranslator::Responses(t)) => SseState::Responses(t.buffered(), t.state()),
        }
    }

    /// The translation of a stream for a client; `None` where the client is given the stream
    /// untouched.
    pub fn new(context: &TranslationContext) -> (r: Option<Self>)
        ensures
            match context.protocol {
                ClientProtocol::Anthropic => r is None,
                ClientProtocol::ChatCompletions => r is Some && exists|id: Seq<char>| #[trigger]
                    ids::is_random_id(id) && r->0@ == SseState::Chat(
                        Seq::empty(),
                        ChatState::start(
                            "chatcmpl-"@ + id,
                            context.include_usage,
                            chat::text_opt(context.client_model),
                        ),
                    ),
                ClientProtocol::Responses => r is Some && exists|id: Seq<char>| #[trigger]
                    ids::is_random_id(id) && r->0@ == SseState::Responses(
                        Seq::empty(),
                        ResponsesState::start("resp_"@ + id, chat::text_opt(context.client_model)),
                    ),
            },
    {
        let model: Option<&str> = match &context.client_model {
            Some(model) => Some(model.as_str()),
            None => None,
        };
        match context.protocol {
            ClientProtocol::Anthropic => None,
            ClientProtocol::ChatCompletions => {
                let t = ChatSseTranslator::new(context.include_usage, model);
                Some(TranslatingSse { translator: Some(SseTranslator::Chat(t)) })
            },
            ClientProtocol::Responses => {
                let t = ResponsesSseTranslator::new(model);
                Some(TranslatingSse { translator: Some(SseTranslator::Responses(t)) })
            },
        }
    }

    /// Takes a chunk. Where nothing is yielded, as for part of an event, the source is to be
    /// asked again.
    pub fn on_chunk(&mut self, chunk: &[u8]) -> (r: Option<Vec<u8>>)
        ensures
            match old(self)@ {
                SseState::Responses(_, _) => exists|ids: Seq<Seq<char>>| #[trigger]
                    ids::are_random_ids(ids) && ids.len() == completed_by(
                        old(self)@,
                        chunk@,
                    ).len() && final(self)@ == translate_chunk(old(self)@, chunk@, ids).0 && yields(
                        r,
                        translate_chunk(old(self)@, chunk@, ids).1,
                    ),
                _ => {
                    let done = translate_chunk(old(self)@, chunk@, Seq::empty());
                    final(self)@ == done.0 && yields(r, done.1)
                },
            },
            r matches Some(bytes) ==> sse::is_framed(bytes@),
    {
        match self.translator.take() {
            None => None,
            Some(SseTranslator::Chat(t)) => {
                let mut t = t;
                let out = t.feed(chunk);
                self.translator = Some(SseTranslator::Chat(t));
                to_yield(out)
            },
            Some(SseTranslator::Responses(t)) => {
                let mut t = t;
                let out = t.feed(chunk);
                self.translator = Some(SseTranslator::Responses(t));
                to_yield(out)
            },
        }
    }

    /// Takes an error of the source, which is passed on: the translation is over.
    pub fn on_error(&mut self)
        ensures
            final(self)@ == SseState::Over,
    {
        self.translator = None;
    }

    /// Takes the end of the source. Where something is yielded, the source is to be asked
    /// once more, and then nothing is.
    pub fn on_end(&mut self) -> (r: Option<Vec<u8>>)
        ensures
            final(self)@ == SseState::Over,
            match old(self)@ {
                SseState::Responses(_, _) => exists|ids: Seq<Seq<char>>| #[trigger]
                    ids::are_random_ids(ids) && ids.len() == completed_by_end(
                        old(self)@,
                    ).len() && yields(r, translate_end(old(self)@, ids)),
                _ => yields(r, translate_end(old(self)@, Seq::empty())),
            },
            r matches Some(bytes) ==> sse::is_framed(bytes@),
    {
        match self.translator.take() {
            None => None,
            Some(SseTranslator::Chat(t)) => to_yield(t.finish()),
            Some(SseTranslator::Responses(t)) => to_yield(t.finish()),
        }
    }
}

proof fn lemma_envelope_is_plain(
    protocol: ClientProtocol,
    error_type: Seq<char>,
    message: Seq<char>,
)
    ensures
        json::plain(translate::envelope(protocol, error_type, message), 127),
        translate::error_detail(translate::envelope(protocol, error_type, message), "type"@)
            == Some(error_type),
        translate::error_detail(translate::envelope(protocol, error_type, message), "message"@)
            == Some(message),
{
    reveal_strlit("$serde_json::private::RawValue");
    reveal_strlit("message");
    reveal_strlit("type");
    reveal_strlit("param");
    reveal_strlit("code");
    reveal_strlit("error");
    reveal_strlit("object");
    assert(json::reserved_key().len() == 30);
    assert("message"@.len() == 7 && "type"@.len() == 4 && "param"@.len() == 5 && "code"@.len() == 4
        && "error"@.len() == 5 && "object"@.len() == 6);
    assert("type"@[0] == 't' && "code"@[0] == 'c' && "param"@[0] == 'p' && "error"@[0] == 'e');
    reveal_with_fuel(json::plain, 4);
}

/// The body of a refusal. On its way back it stays what it is: reshaping it for the client's
/// protocol gives the same bytes.
pub fn refusal_bytes(refusal: Refusal, protocol: ClientProtocol) -> (r: Vec<u8>)
    ensures
        r@ == body::doc_bytes(translate::envelope(protocol, refusal.kind(), refusal.words())),
        forall|context: Context|
            protocol != ClientProtocol::Anthropic && context.protocol == protocol ==> #[trigger]
            reshapes(context, refusal.code(), r@, Some(r@)),
{
    let doc = refusal.body(protocol);
    proof {
        lemma_envelope_is_plain(protocol, refusal.kind(), refusal.words());
    }
    to_bytes(&doc)
}

/// A client of the relay's native protocol is given every answer untouched, and every other
/// client its errors in the envelope of its own protocol, whatever the upstream body holds.
pub proof fn law_errors_are_enveloped(
    context: Context,
    status: u16,
    event_stream: bool,
    upstream: Seq<u8>,
    bytes: Option<Seq<u8>>,
)
    requires
        reshapes(context, status, upstream, bytes),
    ensures
        context.protocol == ClientProtocol::Anthropic ==> passage(
            context.protocol,
            status,
            event_stream,
        ) == Passage::Untouched && bytes is None,
        context.protocol != ClientProtocol::Anthropic && !succeeds(status) ==> {
            &&& passage(context.protocol, status, event_stream) == Passage::Body
            &&& bytes == Some(
                body::doc_bytes(
                    translate::envelope(
                        context.protocol,
                        translate::upstream_error_type(upstream),
                        translate::upstream_error_message(upstream),
                    ),
                ),
            )
        },
{
}

} // verus!
