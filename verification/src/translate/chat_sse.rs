//! Anthropic Messages SSE stream to OpenAI Chat Completions SSE stream.
//!
//! Bytes are fed in as they arrive, complete events are taken out of an internal
//! buffer, and each translated chunk is returned immediately rather than held until
//! the stream ends.

use vstd::prelude::*;
use vstd::string::*;

use crate::ids;
use crate::ids::random_id;
use crate::json;
use crate::json::{opt_int, opt_int_or_zero, Json, Object, Tree};
use crate::text;
use crate::text::{append_bytes, append_text, concat2};
use crate::translate;
use crate::translate::chat;
use crate::translate::chat::{make_chat_usage, map_stop_reason};
use crate::translate::chat_sse_laws;
use crate::translate::sse;
use crate::translate::sse::{flush_documents, push_data_event, take_documents};

verus! {

/// What is sent to the client.
pub enum Frame {
    /// An event that carries a document.
    Data(Tree),
    /// The end of the stream.
    Done,
}

/// The bytes of one frame.
pub open spec fn frame_bytes(f: Frame) -> Seq<u8> {
    match f {
        Frame::Data(t) => sse::data_event(t),
        Frame::Done => vstd::utf8::encode_utf8("data: [DONE]\n\n"@),
    }
}

/// The bytes of a sequence of frames.
pub open spec fn frames_bytes(frames: Seq<Frame>) -> Seq<u8>
    decreases frames.len(),
{
    if frames.len() == 0 {
        Seq::empty()
    } else {
        frames_bytes(frames.drop_last()) + frame_bytes(frames.last())
    }
}

/// Each of these is one event for the client, and no more.
pub open spec fn are_frames(frames: Seq<Frame>) -> bool {
    forall|i: int| 0 <= i < frames.len() ==> sse::is_frame(frame_bytes(#[trigger] frames[i]))
}

/// What a translator remembers of a stream.
pub struct ChatState {
    pub id: Seq<char>,
    pub model: Seq<char>,
    /// The model is the one that the client asked for.
    pub pinned: bool,
    pub include_usage: bool,
    /// The Anthropic content-block index of each tool call, in the order of their
    /// start. The position is the index that the client sees: text blocks between
    /// tool blocks do not consume one.
    pub calls: Seq<u64>,
    pub input: i32,
    pub cached: Option<i32>,
    pub started: bool,
    pub finished: bool,
}

impl ChatState {
    /// The state before anything came.
    pub open spec fn start(
        id: Seq<char>,
        include_usage: bool,
        client_model: Option<Seq<char>>,
    ) -> ChatState {
        ChatState {
            id,
            model: match client_model {
                Some(model) => model,
                None => Seq::empty(),
            },
            pinned: client_model is Some,
            include_usage,
            calls: Seq::empty(),
            input: 0,
            cached: None,
            started: false,
            finished: false,
        }
    }

    /// A chunk with one choice.
    pub open spec fn chunk(self, delta: Tree, finish_reason: Tree) -> Frame {
        Frame::Data(
            Tree::Obj(
                map![
                    "id"@ => Tree::Str(self.id),
                    "object"@ => Tree::Str("chat.completion.chunk"@),
                    "model"@ => Tree::Str(self.model),
                    "choices"@ => Tree::Arr(
                        seq![
                            Tree::Obj(
                                map![
                                    "index"@ => Tree::Int(0),
                                    "delta"@ => delta,
                                    "finish_reason"@ => finish_reason,
                                ],
                            ),
                        ],
                    ),
                ],
            ),
        )
    }

    /// The trailing chunk that reports usage alone.
    pub open spec fn usage_chunk(self, output: i64) -> Frame {
        Frame::Data(
            Tree::Obj(
                map![
                    "id"@ => Tree::Str(self.id),
                    "object"@ => Tree::Str("chat.completion.chunk"@),
                    "model"@ => Tree::Str(self.model),
                    "choices"@ => Tree::Arr(Seq::empty()),
                    "usage"@ => chat::chat_usage(
                        self.input as i64,
                        output,
                        match self.cached {
                            Some(n) => Some(n as i64),
                            None => None,
                        },
                    ),
                ],
            ),
        )
    }
}

/// The 32 low bits of an integer, as a signed number.
pub open spec fn low_32(n: i64) -> i32 {
    n as i32
}

/// The state after `message_start`.
pub open spec fn after_message_start(s: ChatState, event: Tree) -> ChatState {
    let message = event.get("message"@);
    let usage = json::get_in(message, "usage"@);
    ChatState {
        model: match json::str_in(json::get_in(message, "model"@)) {
            Some(model) => if s.pinned {
                s.model
            } else {
                model
            },
            None => s.model,
        },
        input: if usage is Some {
            low_32(json::int_or_zero(usage, "input_tokens"@))
        } else {
            s.input
        },
        cached: if usage is Some {
            match json::int_in(usage, "cache_read_input_tokens"@) {
                Some(n) => Some(low_32(n)),
                None => None,
            }
        } else {
            s.cached
        },
        started: true,
        ..s
    }
}

/// The last tool call that was started at this content-block index.
pub open spec fn last_call(calls: Seq<u64>, index: u64) -> Option<int>
    decreases calls.len(),
{
    if calls.len() == 0 {
        None
    } else if calls.last() == index {
        Some(calls.len() - 1)
    } else {
        last_call(calls.drop_last(), index)
    }
}

/// The content-block index of an event.
pub open spec fn index_of(event: Tree) -> u64 {
    match event.get("index"@) {
        Some(v) => match v.as_u64() {
            Some(n) => n,
            None => 0,
        },
        None => 0,
    }
}

/// A text of a document that may be absent.
pub open spec fn text_in(t: Option<Tree>, key: Seq<char>) -> Seq<char> {
    match json::str_in(json::get_in(t, key)) {
        Some(s) => s,
        None => ""@,
    }
}

/// The delta that announces a tool call.
pub open spec fn announcement(block: Option<Tree>, at: int) -> Tree {
    Tree::Obj(
        map![
            "tool_calls"@ => Tree::Arr(
                seq![
                    Tree::Obj(
                        map![
                            "index"@ => Tree::Int(at),
                            "id"@ => Tree::Str(text_in(block, "id"@)),
                            "type"@ => Tree::Str("function"@),
                            "function"@ => Tree::Obj(
                                map![
                                    "name"@ => Tree::Str(text_in(block, "name"@)),
                                    "arguments"@ => Tree::Str(""@),
                                ],
                            ),
                        ],
                    ),
                ],
            ),
        ],
    )
}

/// The delta that carries a fragment of a tool call's arguments.
pub open spec fn fragment(at: int, arguments: Seq<char>) -> Tree {
    Tree::Obj(
        map![
            "tool_calls"@ => Tree::Arr(
                seq![
                    Tree::Obj(
                        map![
                            "index"@ => Tree::Int(at),
                            "function"@ => Tree::Obj(map!["arguments"@ => Tree::Str(arguments)]),
                        ],
                    ),
                ],
            ),
        ],
    )
}

/// What one upstream event does to the state, and what is sent for it.
pub open spec fn chat_step(s: ChatState, event: Tree) -> (ChatState, Seq<Frame>) {
    let kind = json::str_in(event.get("type"@));
    let delta = event.get("delta"@);
    if kind == Some("message_start"@) {
        let after = after_message_start(s, event);
        let role = Tree::Obj(
            map!["role"@ => Tree::Str("assistant"@), "content"@ => Tree::Str(""@)],
        );
        if s.started {
            (after, Seq::empty())
        } else {
            (after, seq![after.chunk(role, Tree::Null)])
        }
    } else if kind == Some("content_block_start"@) {
        let block = event.get("content_block"@);
        if json::str_in(json::get_in(block, "type"@)) == Some("tool_use"@) {
            (
                ChatState { calls: s.calls.push(index_of(event)), ..s },
                seq![s.chunk(announcement(block, s.calls.len() as int), Tree::Null)],
            )
        } else {
            (s, Seq::empty())
        }
    } else if kind == Some("content_block_delta"@) {
        let of = json::str_in(json::get_in(delta, "type"@));
        if of == Some("text_delta"@) {
            let said = Tree::Obj(map!["content"@ => Tree::Str(text_in(delta, "text"@))]);
            (s, seq![s.chunk(said, Tree::Null)])
        } else if of == Some("input_json_delta"@) {
            match last_call(s.calls, index_of(event)) {
                Some(at) => (
                    s,
                    seq![s.chunk(fragment(at, text_in(delta, "partial_json"@)), Tree::Null)],
                ),
                None => (s, Seq::empty()),
            }
        } else {
            (s, Seq::empty())
        }
    } else if kind == Some("message_delta"@) {
        let reason = chat::finish_reason_of(json::str_in(json::get_in(delta, "stop_reason"@)));
        let last = s.chunk(Tree::Obj(Map::empty()), Tree::Str(reason));
        if s.include_usage {
            (
                s,
                seq![
                    last,
                    s.usage_chunk(json::int_or_zero(event.get("usage"@), "output_tokens"@)),
                ],
            )
        } else {
            (s, seq![last])
        }
    } else if kind == Some("message_stop"@) {
        (ChatState { finished: true, ..s }, seq![Frame::Done])
    } else if kind == Some("error"@) {
        (ChatState { finished: true, ..s }, seq![Frame::Data(stream_error(event)), Frame::Done])
    } else {
        (s, Seq::empty())
    }
}

/// The message of an error event.
pub open spec fn error_message_of(event: Tree) -> Seq<char> {
    match translate::error_detail(event, "message"@) {
        Some(message) => message,
        None => "upstream error"@,
    }
}

/// The type of an error event.
pub open spec fn error_type_of(event: Tree) -> Seq<char> {
    match translate::error_detail(event, "type"@) {
        Some(error_type) => error_type,
        None => "api_error"@,
    }
}

/// The error that is sent for an upstream error event.
pub open spec fn stream_error(event: Tree) -> Tree {
    translate::envelope(
        translate::ClientProtocol::ChatCompletions,
        error_type_of(event),
        error_message_of(event),
    )
}

/// The state after a sequence of upstream events, and all that is sent for them.
pub open spec fn chat_run(s: ChatState, events: Seq<Tree>) -> (ChatState, Seq<Frame>)
    decreases events.len(),
{
    if events.len() == 0 {
        (s, Seq::empty())
    } else {
        let before = chat_run(s, events.drop_last());
        let step = chat_step(before.0, events.last());
        (step.0, before.1 + step.1)
    }
}

/// All that is sent by the end of a stream: where no terminator came, one is added.
pub open spec fn finished(s: ChatState, frames: Seq<Frame>) -> Seq<Frame> {
    if s.finished {
        frames
    } else {
        frames.push(Frame::Done)
    }
}

/// The bytes of one frame alone.
pub proof fn lemma_one_frame(f: Frame)
    ensures
        frames_bytes(seq![f]) == frame_bytes(f),
{
    reveal_with_fuel(frames_bytes, 2);
    assert(seq![f].drop_last() =~= Seq::empty());
    assert(frames_bytes(seq![f]) =~= frame_bytes(f));
}

/// The bytes of two sequences of frames.
pub proof fn lemma_frames_concat(a: Seq<Frame>, b: Seq<Frame>)
    ensures
        frames_bytes(a + b) == frames_bytes(a) + frames_bytes(b),
    decreases b.len(),
{
    if b.len() == 0 {
        assert(a + b =~= a);
        assert(frames_bytes(a + b) =~= frames_bytes(a) + frames_bytes(b));
    } else {
        lemma_frames_concat(a, b.drop_last());
        assert((a + b).drop_last() =~= a + b.drop_last());
        assert(frames_bytes(a + b) =~= frames_bytes(a) + frames_bytes(b));
    }
}

/// Translates one Anthropic Messages SSE stream into Chat Completions chunks.
pub struct ChatSseTranslator {
    buffer: Vec<u8>,
    completion_id: String,
    /// The model reported on every chunk: the client's requested name when one
    /// was supplied, otherwise filled from the upstream's own
    /// `message_start.message.model`.
    model: String,
    /// When true, `model` is the client's requested name and `message_start`
    /// must not overwrite it with the upstream's (possibly mapped) name.
    client_model_pinned: bool,
    include_usage: bool,
    /// The content-block index of each tool call started so far, most recent last.
    tool_calls: Vec<u64>,
    input_tokens: i32,
    cache_read_tokens: Option<i32>,
    /// Whether the role-announcing first chunk has been emitted yet.
    started: bool,
    finished: bool,
}

impl ChatSseTranslator {
    /// What the translator remembers of the stream.
    pub closed spec fn state(&self) -> ChatState {
        ChatState {
            id: self.completion_id@,
            model: self.model@,
            pinned: self.client_model_pinned,
            include_usage: self.include_usage,
            calls: self.tool_calls@,
            input: self.input_tokens,
            cached: self.cache_read_tokens,
            started: self.started,
            finished: self.finished,
        }
    }

    /// The bytes of an event that is not complete yet.
    pub closed spec fn buffered(&self) -> Seq<u8> {
        self.buffer@
    }

    /// A translator whose chunks carry this completion id.
    ///
    /// `client_model`, when set, is reported as the `model` on every chunk in
    /// place of the upstream's own name, matching the non-streaming translator
    /// so a client sees one consistent model name either way.
    pub fn with_id(completion_id: String, include_usage: bool, client_model: Option<&str>) -> (r:
        Self)
        ensures
            r.buffered() == Seq::<u8>::empty(),
            r.state() == ChatState::start(
                completion_id@,
                include_usage,
                json::str_opt(client_model),
            ),
    {
        let (model, pinned) = match client_model {
            Some(model) => (model.to_owned(), true),
            None => (String::new(), false),
        };
        let r = ChatSseTranslator {
            buffer: Vec::new(),
            completion_id,
            model,
            client_model_pinned: pinned,
            include_usage,
            tool_calls: Vec::new(),
            input_tokens: 0,
            cache_read_tokens: None,
            started: false,
            finished: false,
        };
        assert(r.state().calls =~= Seq::empty());
        r
    }

    /// A translator with a fresh random completion id.
    pub fn new(include_usage: bool, client_model: Option<&str>) -> (r: Self)
        ensures
            r.buffered() == Seq::<u8>::empty(),
            exists|id: Seq<char>| #[trigger]
                ids::is_random_id(id) && r.state() == ChatState::start(
                    "chatcmpl-"@ + id,
                    include_usage,
                    json::str_opt(client_model),
                ),
    {
        let id = random_id();
        assert(ids::is_random_id(id@));
        Self::with_id(concat2("chatcmpl-", id.as_str()), include_usage, client_model)
    }

    fn push_chunk(&self, delta: Json, finish_reason: Json, out: &mut Vec<u8>)
        ensures
            final(out)@ == old(out)@ + frames_bytes(
                seq![self.state().chunk(delta@, finish_reason@)],
            ),
            sse::is_frame(frame_bytes(self.state().chunk(delta@, finish_reason@))),
    {
        let choice = Object::new().with("index", Json::from_i64(0)).with("delta", delta).with(
            "finish_reason",
            finish_reason,
        );
        let mut choices: Vec<Json> = Vec::new();
        choices.push(Json::Object(choice));
        assert(json::values_view(choices@) =~= seq![choices@[0]@]);
        let chunk = Json::Object(
            Object::new().with("id", Json::text(self.completion_id.as_str())).with(
                "object",
                Json::text("chat.completion.chunk"),
            ).with("model", Json::text(self.model.as_str())).with("choices", Json::Array(choices)),
        );
        push_data_event(&chunk, out);
        proof {
            lemma_one_frame(self.state().chunk(delta@, finish_reason@));
        }
    }

    fn push_done(out: &mut Vec<u8>)
        ensures
            final(out)@ == old(out)@ + frames_bytes(seq![Frame::Done]),
            sse::is_frame(frame_bytes(Frame::Done)),
    {
        append_text(out, "data: [DONE]\n\n");
        proof {
            lemma_one_frame(Frame::Done);
            lemma_done_is_frame();
        }
    }

    fn on_message_start(&mut self, event: &Json, out: &mut Vec<u8>)
        requires
            json::str_in(event@.get("type"@)) == Some("message_start"@),
        ensures
            final(self).buffered() == old(self).buffered(),
            final(self).state() == chat_step(old(self).state(), event@).0,
            final(out)@ == old(out)@ + frames_bytes(chat_step(old(self).state(), event@).1),
            are_frames(chat_step(old(self).state(), event@).1),
    {
        let message = event.get("message");
        if !self.client_model_pinned {
            if let Some(m) = message {
                if let Some(model) = m.get_str("model") {
                    self.model = model.to_owned();
                }
            }
        }
        if let Some(m) = message {
            if let Some(usage) = m.get("usage") {
                self.input_tokens = #[verifier::truncate] (opt_int_or_zero(Some(usage), "input_tokens") as i32);
                self.cache_read_tokens = match opt_int(Some(usage), "cache_read_input_tokens") {
                    Some(n) => Some(#[verifier::truncate] (n as i32)),
                    None => None,
                };
            }
        }
        if !self.started {
            self.started = true;
            let role = Json::Object(
                Object::new().with("role", Json::text("assistant")).with("content", Json::text("")),
            );
            self.push_chunk(role, Json::Null, out);
        } else {
            assert(out@ =~= old(out)@ + frames_bytes(Seq::empty()));
        }
    }

    fn on_content_block_start(&mut self, event: &Json, out: &mut Vec<u8>)
        requires
            json::str_in(event@.get("type"@)) == Some("content_block_start"@),
        ensures
            final(self).buffered() == old(self).buffered(),
            final(self).state() == chat_step(old(self).state(), event@).0,
            final(out)@ == old(out)@ + frames_bytes(chat_step(old(self).state(), event@).1),
            are_frames(chat_step(old(self).state(), event@).1),
    {
        proof {
            lemma_kinds();
        }
        if let Some(block) = event.get("content_block") {
            if block.has_type("tool_use") {
                let at: usize = self.tool_calls.len();
                let function = Object::new().with("name", Json::text(block.str_or("name", ""))).with(
                    "arguments",
                    Json::text(""),
                );
                let call = Object::new().with("index", Json::from_u64(at as u64)).with(
                    "id",
                    Json::text(block.str_or("id", "")),
                ).with("type", Json::text("function")).with("function", Json::Object(function));
                let delta = delta_of_call(Json::Object(call));
                self.push_chunk(delta, Json::Null, out);
                self.tool_calls.push(index_of_event(event));
                return;
            }
        }
        assert(out@ =~= old(out)@ + frames_bytes(Seq::empty()));
    }

    /// The position of the last tool call that was started at this content-block
    /// index.
    fn find_call(&self, index: u64) -> (r: Option<usize>)
        ensures
            match r {
                Some(at) => at < self.state().calls.len() && last_call(self.state().calls, index)
                    == Some(at as int),
                None => last_call(self.state().calls, index) is None,
            },
    {
        let mut n: usize = self.tool_calls.len();
        assert(self.tool_calls@.take(n as int) =~= self.tool_calls@);
        while n > 0
            invariant
                n <= self.tool_calls@.len(),
                last_call(self.tool_calls@.take(n as int), index) == last_call(
                    self.tool_calls@,
                    index,
                ),
            decreases n,
        {
            let ghost part = self.tool_calls@.take(n as int);
            if self.tool_calls[n - 1] == index {
                return Some(n - 1);
            }
            assert(part.drop_last() =~= self.tool_calls@.take(n - 1));
            n = n - 1;
        }
        None
    }

    fn on_content_block_delta(&mut self, event: &Json, out: &mut Vec<u8>)
        requires
            json::str_in(event@.get("type"@)) == Some("content_block_delta"@),
        ensures
            final(self).buffered() == old(self).buffered(),
            final(self).state() == chat_step(old(self).state(), event@).0,
            final(out)@ == old(out)@ + frames_bytes(chat_step(old(self).state(), event@).1),
            are_frames(chat_step(old(self).state(), event@).1),
    {
        proof {
            lemma_kinds();
        }
        if let Some(delta) = event.get("delta") {
            if delta.has_type("text_delta") {
                let said = Json::Object(
                    Object::new().with("content", Json::text(delta.str_or("text", ""))),
                );
                self.push_chunk(said, Json::Null, out);
                return;
            } else if delta.has_type("input_json_delta") {
                if let Some(at) = self.find_call(index_of_event(event)) {
                    let function = Object::new().with(
                        "arguments",
                        Json::text(delta.str_or("partial_json", "")),
                    );
                    let call = Object::new().with("index", Json::from_u64(at as u64)).with(
                        "function",
                        Json::Object(function),
                    );
                    let part = delta_of_call(Json::Object(call));
                    self.push_chunk(part, Json::Null, out);
                    return;
                }
            }
        }
        assert(out@ =~= old(out)@ + frames_bytes(Seq::empty()));
    }

    fn on_message_delta(&mut self, event: &Json, out: &mut Vec<u8>)
        requires
            json::str_in(event@.get("type"@)) == Some("message_delta"@),
        ensures
            final(self).buffered() == old(self).buffered(),
            final(self).state() == chat_step(old(self).state(), event@).0,
            final(out)@ == old(out)@ + frames_bytes(chat_step(old(self).state(), event@).1),
            are_frames(chat_step(old(self).state(), event@).1),
    {
        proof {
            lemma_kinds();
        }
        let stop_reason = match event.get("delta") {
            Some(delta) => delta.get_str("stop_reason"),
            None => None,
        };
        let finish_reason = map_stop_reason(stop_reason);
        self.push_chunk(Json::Object(Object::new()), Json::text(finish_reason), out);
        let ghost first = self.state().chunk(Tree::Obj(Map::empty()), Tree::Str(finish_reason@));
        if self.include_usage {
            let output: i64 = opt_int_or_zero(event.get("usage"), "output_tokens");
            let cached = match self.cache_read_tokens {
                Some(n) => Some(n as i64),
                None => None,
            };
            let usage = make_chat_usage(self.input_tokens as i64, output, cached);
            let choices: Vec<Json> = Vec::new();
            assert(json::values_view(choices@) =~= Seq::empty());
            let chunk = Json::Object(
                Object::new().with("id", Json::text(self.completion_id.as_str())).with(
                    "object",
                    Json::text("chat.completion.chunk"),
                ).with("model", Json::text(self.model.as_str())).with(
                    "choices",
                    Json::Array(choices),
                ).with("usage", usage),
            );
            push_data_event(&chunk, out);
            proof {
                let second = self.state().usage_chunk(output);
                lemma_one_frame(second);
                lemma_frames_concat(seq![first], seq![second]);
                assert(seq![first] + seq![second] =~= seq![first, second]);
                assert(out@ =~= old(out)@ + frames_bytes(seq![first, second]));
            }
        }
    }

    fn on_error(&mut self, event: &Json, out: &mut Vec<u8>)
        requires
            json::str_in(event@.get("type"@)) == Some("error"@),
        ensures
            final(self).buffered() == old(self).buffered(),
            final(self).state() == chat_step(old(self).state(), event@).0,
            final(out)@ == old(out)@ + frames_bytes(chat_step(old(self).state(), event@).1),
            are_frames(chat_step(old(self).state(), event@).1),
    {
        proof {
            lemma_kinds();
        }
        let message = error_message_in(event);
        let error_type = error_type_in(event);
        let envelope = translate::error_envelope(
            translate::ClientProtocol::ChatCompletions,
            error_type.as_str(),
            message.as_str(),
        );
        push_data_event(&envelope, out);
        self.finished = true;
        Self::push_done(out);
        proof {
            let first = Frame::Data(stream_error(event@));
            lemma_one_frame(first);
            lemma_frames_concat(seq![first], seq![Frame::Done]);
            assert(seq![first] + seq![Frame::Done] =~= seq![first, Frame::Done]);
            assert(out@ =~= old(out)@ + frames_bytes(seq![first, Frame::Done]));
        }
    }

    /// Handles one upstream event: what it does to the state, and what is sent for it.
    pub fn handle_data(&mut self, event: &Json, out: &mut Vec<u8>)
        ensures
            final(self).buffered() == old(self).buffered(),
            final(self).state() == chat_step(old(self).state(), event@).0,
            final(out)@ == old(out)@ + frames_bytes(chat_step(old(self).state(), event@).1),
            are_frames(chat_step(old(self).state(), event@).1),
    {
        proof {
            lemma_kinds();
        }
        if event.has_type("message_start") {
            self.on_message_start(event, out);
        } else if event.has_type("content_block_start") {
            self.on_content_block_start(event, out);
        } else if event.has_type("content_block_delta") {
            self.on_content_block_delta(event, out);
        } else if event.has_type("message_delta") {
            self.on_message_delta(event, out);
        } else if event.has_type("message_stop") {
            self.finished = true;
            Self::push_done(out);
        } else if event.has_type("error") {
            self.on_error(event, out);
        } else {
            assert(out@ =~= old(out)@ + frames_bytes(Seq::empty()));
        }
    }

    /// Handles upstream events.
    fn handle_documents(&mut self, docs: &Vec<Json>) -> (out: Vec<u8>)
        ensures
            final(self).buffered() == old(self).buffered(),
            ({
                let run = chat_run(old(self).state(), json::values_view(docs@));
                final(self).state() == run.0 && out@ == frames_bytes(run.1) && are_frames(run.1)
            }),
    {
        let mut out: Vec<u8> = Vec::new();
        let ghost start = old(self).state();
        let ghost events = json::values_view(docs@);
        assert(out@ =~= frames_bytes(Seq::empty()));
        for i in 0..docs.len()
            invariant
                events == json::values_view(docs@),
                self.buffered() == old(self).buffered(),
                self.state() == chat_run(start, events.take(i as int)).0,
                out@ == frames_bytes(chat_run(start, events.take(i as int)).1),
                are_frames(chat_run(start, events.take(i as int)).1),
        {
            let ghost before = chat_run(start, events.take(i as int));
            self.handle_data(&docs[i], &mut out);
            proof {
                assert(events.take(i + 1).drop_last() =~= events.take(i as int));
                let step = chat_step(before.0, events[i as int]);
                lemma_frames_concat(before.1, step.1);
                let both = before.1 + step.1;
                assert forall|k: int| 0 <= k < both.len() implies sse::is_frame(
                    frame_bytes(#[trigger] both[k]),
                ) by {
                    if k < before.1.len() {
                        assert(both[k] == before.1[k]);
                    } else {
                        assert(both[k] == step.1[k - before.1.len()]);
                    }
                }
            }
        }
        assert(events.take(events.len() as int) =~= events);
        out
    }

    /// Handles the complete events of the buffer.
    fn drain_events(&mut self) -> (out: Vec<u8>)
        ensures
            final(self).buffered() == sse::remainder(old(self).buffered()),
            ({
                let run = chat_run(old(self).state(), sse::documents(old(self).buffered()));
                final(self).state() == run.0 && out@ == frames_bytes(run.1) && are_frames(run.1)
            }),
    {
        let mut buffer: Vec<u8> = Vec::new();
        std::mem::swap(&mut buffer, &mut self.buffer);
        let docs = take_documents(&mut buffer);
        self.buffer = buffer;
        self.handle_documents(&docs)
    }

    /// Feeds a chunk of raw upstream SSE bytes, returning the translated bytes
    /// to forward to the client (possibly empty, possibly several events).
    pub fn feed(&mut self, chunk: &[u8]) -> (out: Vec<u8>)
        ensures
            sse::is_framed(out@),
            final(self).buffered() == sse::remainder(old(self).buffered() + chunk@),
            ({
                let run = chat_run(old(self).state(), sse::documents(old(self).buffered() + chunk@));
                final(self).state() == run.0 && out@ == frames_bytes(run.1) && are_frames(run.1)
            }),
    {
        append_bytes(&mut self.buffer, chunk);
        let ghost run = chat_run(self.state(), sse::documents(self.buffered()));
        let out = self.drain_events();
        proof {
            chat_sse_laws::law_frames_are_events(run.1);
        }
        out
    }

    /// Flushes any buffered partial event and terminates the stream.
    ///
    /// Anthropic streams always end with `message_stop`, which itself emits
    /// `[DONE]`; this only matters if the upstream connection closed without
    /// one, in which case the client still gets a clean terminator.
    pub fn finish(self) -> (out: Vec<u8>)
        ensures
            sse::is_framed(out@),
            ({
                let run = chat_run(self.state(), sse::flushed(self.buffered()));
                let frames = finished(run.0, run.1);
                out@ == frames_bytes(frames) && are_frames(frames)
            }),
    {
        let mut last = self;
        let mut buffer: Vec<u8> = Vec::new();
        std::mem::swap(&mut buffer, &mut last.buffer);
        let docs = flush_documents(buffer);
        let mut out = last.handle_documents(&docs);
        if !last.finished {
            Self::push_done(&mut out);
            proof {
                let run = chat_run(self.state(), sse::flushed(self.buffered()));
                lemma_frames_concat(run.1, seq![Frame::Done]);
                assert(run.1 + seq![Frame::Done] =~= run.1.push(Frame::Done));
            }
        }
        proof {
            let run = chat_run(self.state(), sse::flushed(self.buffered()));
            chat_sse_laws::law_frames_are_events(finished(run.0, run.1));
        }
        out
    }
}

/// The terminator is one event.
pub proof fn lemma_done_is_frame()
    ensures
        sse::is_frame(frame_bytes(Frame::Done)),
{
    reveal_strlit("data: ");
    reveal_strlit("[DONE]");
    reveal_strlit("\n\n");
    reveal_strlit("data: [DONE]\n\n");
    sse::lemma_frame("[DONE]"@);
    vstd::utf8::is_ascii_chars_encode_utf8("data: "@);
    vstd::utf8::is_ascii_chars_encode_utf8("[DONE]"@);
    vstd::utf8::is_ascii_chars_encode_utf8("\n\n"@);
    vstd::utf8::is_ascii_chars_encode_utf8("data: [DONE]\n\n"@);
    assert(frame_bytes(Frame::Done) =~= sse::data_prefix() + vstd::utf8::encode_utf8("[DONE]"@)
        + vstd::utf8::encode_utf8("\n\n"@));
}

/// The kinds of events and deltas are distinct.
pub proof fn lemma_kinds()
    ensures
        "message_start"@ != "content_block_start"@,
        "message_start"@ != "content_block_delta"@,
        "message_start"@ != "message_delta"@,
        "message_start"@ != "message_stop"@,
        "message_start"@ != "error"@,
        "content_block_start"@ != "content_block_delta"@,
        "content_block_start"@ != "message_delta"@,
        "content_block_start"@ != "message_stop"@,
        "content_block_start"@ != "error"@,
        "content_block_delta"@ != "message_delta"@,
        "content_block_delta"@ != "message_stop"@,
        "content_block_delta"@ != "error"@,
        "message_delta"@ != "message_stop"@,
        "message_delta"@ != "error"@,
        "message_stop"@ != "error"@,
        "text_delta"@ != "input_json_delta"@,
{
    reveal_strlit("message_start");
    reveal_strlit("content_block_start");
    reveal_strlit("content_block_delta");
    reveal_strlit("message_delta");
    reveal_strlit("message_stop");
    reveal_strlit("error");
    reveal_strlit("text_delta");
    reveal_strlit("input_json_delta");
    assert("message_start"@.len() == 13);
    assert("content_block_start"@.len() == 19);
    assert("content_block_delta"@.len() == 19);
    assert("message_delta"@.len() == 13);
    assert("message_stop"@.len() == 12);
    assert("error"@.len() == 5);
    assert("text_delta"@.len() == 10);
    assert("input_json_delta"@.len() == 16);
    assert("content_block_start"@[14] != "content_block_delta"@[14]);
    assert("message_start"@[8] != "message_delta"@[8]);
}

fn delta_of_call(call: Json) -> (r: Json)
    ensures
        r@ == Tree::Obj(map!["tool_calls"@ => Tree::Arr(seq![call@])]),
{
    let mut calls: Vec<Json> = Vec::new();
    calls.push(call);
    assert(json::values_view(calls@) =~= seq![call@]);
    Json::Object(Object::new().with("tool_calls", Json::Array(calls)))
}

/// The content-block index of an event.
pub fn index_of_event(event: &Json) -> (r: u64)
    ensures
        r == index_of(event@),
{
    match event.get("index") {
        Some(v) => match v.as_u64() {
            Some(n) => n,
            None => 0,
        },
        None => 0,
    }
}

/// The message of an error event.
pub fn error_message_in(event: &Json) -> (r: String)
    ensures
        r@ == error_message_of(event@),
{
    match translate::error_detail_in(event, "message") {
        Some(message) => message,
        None => "upstream error".to_owned(),
    }
}

/// The type of an error event.
pub fn error_type_in(event: &Json) -> (r: String)
    ensures
        r@ == error_type_of(event@),
{
    match translate::error_detail_in(event, "type") {
        Some(error_type) => error_type,
        None => "api_error".to_owned(),
    }
}

} // verus!
