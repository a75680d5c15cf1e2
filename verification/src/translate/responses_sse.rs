//! Anthropic Messages SSE stream to OpenAI Responses API named-event stream.
//!
//! The Responses protocol names each event type (`response.output_text.delta`, ...)
//! instead of using one generic chunk shape, carries a running `sequence_number`, and
//! has no `[DONE]` sentinel: the stream simply ends after `response.completed` or
//! `response.failed`.

use vstd::prelude::*;
use vstd::string::*;

use crate::ids;
use crate::ids::random_id;
use crate::json;
use crate::json::{opt_int, opt_int_or_zero, Json, Object, Parsed, Tree};
use crate::text;
use crate::text::{append_bytes, concat2, trim};
use crate::translate::chat::no_blocks;
use crate::translate::chat_sse;
use crate::translate::chat_sse::{error_message_in, error_type_in, index_of_event};
use crate::translate::responses;
use crate::translate::responses::{
    make_call_item, make_message_item, make_output_text, make_responses_usage, response_status,
};
use crate::translate::responses_sse_laws;
use crate::translate::sse;
use crate::translate::sse::{flush_documents, push_data_event, take_documents};

verus! {

/// The output item that is being streamed.
///
/// Responses is item-oriented where Anthropic is block-oriented: each Anthropic
/// content block becomes one `output[]` item, announced with
/// `response.output_item.added` before anything can refer to it and closed with
/// `response.output_item.done`. Only one is ever open at a time, because Anthropic
/// streams its blocks one after another. Every `message` item holds exactly one
/// `output_text` part, so the `content_index` on every event is 0.
pub enum Item {
    Message { item_id: Seq<char>, output_index: int, content_index: u64, text: Seq<char> },
    FunctionCall {
        item_id: Seq<char>,
        output_index: int,
        content_index: u64,
        call_id: Seq<char>,
        name: Seq<char>,
        arguments: Seq<char>,
    },
}

impl Item {
    /// The Anthropic content-block index that the item stands for.
    pub open spec fn block_index(self) -> u64 {
        match self {
            Item::Message { content_index, .. } => content_index,
            Item::FunctionCall { content_index, .. } => content_index,
        }
    }
}

/// What a translator remembers of a stream.
pub struct ResponsesState {
    pub id: Seq<char>,
    pub model: Seq<char>,
    /// The model is the one that the client asked for.
    pub pinned: bool,
    pub sequence_number: u64,
    pub open: Option<Item>,
    /// The items already closed, in order.
    pub closed: Seq<Tree>,
    pub input: i64,
    pub cached: Option<i64>,
    pub started: bool,
    pub ended: bool,
}

impl ResponsesState {
    /// The state before anything came.
    pub open spec fn start(id: Seq<char>, client_model: Option<Seq<char>>) -> ResponsesState {
        ResponsesState {
            id,
            model: match client_model {
                Some(model) => model,
                None => Seq::empty(),
            },
            pinned: client_model is Some,
            sequence_number: 0,
            open: None,
            closed: Seq::empty(),
            input: 0,
            cached: None,
            started: false,
            ended: false,
        }
    }
}

/// A state with what has been sent on the way to it.
pub struct Turn {
    pub state: ResponsesState,
    pub sent: Seq<Tree>,
}

/// An event: the payload with its name and its number.
pub open spec fn event(kind: Seq<char>, payload: Map<Seq<char>, Tree>, number: u64) -> Tree {
    Tree::Obj(
        payload.insert("type"@, Tree::Str(kind)).insert(
            "sequence_number"@,
            Tree::Int(number as int),
        ),
    )
}

impl Turn {
    /// Nothing sent yet.
    pub open spec fn from(state: ResponsesState) -> Turn {
        Turn { state, sent: Seq::empty() }
    }

    /// One more event, under the next number. The numbers wrap around at the end of
    /// the 64-bit range.
    pub open spec fn emit(self, kind: Seq<char>, payload: Map<Seq<char>, Tree>) -> Turn {
        Turn {
            state: ResponsesState {
                sequence_number: self.state.sequence_number.wrapping_add(1),
                ..self.state
            },
            sent: self.sent.push(event(kind, payload, self.state.sequence_number)),
        }
    }

    /// The response as it is announced.
    pub open spec fn announced(self) -> Map<Seq<char>, Tree> {
        map![
            "response"@ => Tree::Obj(
                map![
                    "id"@ => Tree::Str(self.state.id),
                    "object"@ => Tree::Str("response"@),
                    "model"@ => Tree::Str(self.state.model),
                    "status"@ => Tree::Str("in_progress"@),
                    "output"@ => Tree::Arr(Seq::empty()),
                ],
            ),
        ]
    }

    /// A `message` item is opened: the item is announced, then its only text part.
    pub open spec fn open_message(self, content_index: u64, id: Seq<char>) -> Turn {
        let item_id = "msg_"@ + id;
        let output_index = self.state.closed.len() as int;
        let turn = self.emit(
            "response.output_item.added"@,
            map![
                "output_index"@ => Tree::Int(output_index),
                "item"@ => Tree::Obj(
                    map![
                        "type"@ => Tree::Str("message"@),
                        "id"@ => Tree::Str(item_id),
                        "role"@ => Tree::Str("assistant"@),
                        "content"@ => Tree::Arr(Seq::empty()),
                        "status"@ => Tree::Str("in_progress"@),
                    ],
                ),
            ],
        ).emit(
            "response.content_part.added"@,
            map![
                "item_id"@ => Tree::Str(item_id),
                "output_index"@ => Tree::Int(output_index),
                "content_index"@ => Tree::Int(0),
                "part"@ => responses::output_text(""@),
            ],
        );
        Turn {
            state: ResponsesState {
                open: Some(
                    Item::Message { item_id, output_index, content_index, text: Seq::empty() },
                ),
                ..turn.state
            },
            sent: turn.sent,
        }
    }

    /// A `function_call` item is opened: the item is announced.
    pub open spec fn open_function_call(
        self,
        content_index: u64,
        call_id: Seq<char>,
        name: Seq<char>,
        id: Seq<char>,
    ) -> Turn {
        let item_id = "fc_"@ + id;
        let output_index = self.state.closed.len() as int;
        let turn = self.emit(
            "response.output_item.added"@,
            map![
                "output_index"@ => Tree::Int(output_index),
                "item"@ => responses::call_item(
                    item_id,
                    call_id,
                    name,
                    ""@,
                    "in_progress"@,
                ),
            ],
        );
        Turn {
            state: ResponsesState {
                open: Some(
                    Item::FunctionCall {
                        item_id,
                        output_index,
                        content_index,
                        call_id,
                        name,
                        arguments: Seq::empty(),
                    },
                ),
                ..turn.state
            },
            sent: turn.sent,
        }
    }

    /// The item that is open, if any, is closed: the matching `.done` events, then
    /// `response.output_item.done`.
    pub open spec fn close(self) -> Turn {
        match self.state.open {
            None => self,
            Some(Item::Message { item_id, output_index, content_index, text }) => {
                let item = responses::message_item(item_id, "completed"@, text);
                let turn = self.emit(
                    "response.output_text.done"@,
                    map![
                        "item_id"@ => Tree::Str(item_id),
                        "output_index"@ => Tree::Int(output_index),
                        "content_index"@ => Tree::Int(0),
                        "text"@ => Tree::Str(text),
                    ],
                ).emit(
                    "response.content_part.done"@,
                    map![
                        "item_id"@ => Tree::Str(item_id),
                        "output_index"@ => Tree::Int(output_index),
                        "content_index"@ => Tree::Int(0),
                        "part"@ => responses::output_text(text),
                    ],
                ).item_done(output_index, item);
                turn.settled(item)
            },
            Some(
                Item::FunctionCall {
                    item_id,
                    output_index,
                    content_index,
                    call_id,
                    name,
                    arguments,
                },
            ) => {
                let arguments = settled_arguments(arguments);
                let item = responses::call_item(item_id, call_id, name, arguments, "completed"@);
                let turn = self.emit(
                    "response.function_call_arguments.done"@,
                    map![
                        "item_id"@ => Tree::Str(item_id),
                        "output_index"@ => Tree::Int(output_index),
                        "arguments"@ => Tree::Str(arguments),
                    ],
                ).item_done(output_index, item);
                turn.settled(item)
            },
        }
    }

    /// The event that closes an item.
    pub open spec fn item_done(self, output_index: int, item: Tree) -> Turn {
        self.emit(
            "response.output_item.done"@,
            map!["output_index"@ => Tree::Int(output_index), "item"@ => item],
        )
    }

    /// No item is open, and this one is the last of those closed.
    pub open spec fn settled(self, item: Tree) -> Turn {
        Turn {
            state: ResponsesState {
                open: None,
                closed: self.state.closed.push(item),
                ..self.state
            },
            sent: self.sent,
        }
    }
}

/// The arguments that a function call is reported with: `{}` where what came is not the text
/// of a JSON object, as for a call that was cut off. A parameterless tool streams no
/// fragment at all.
pub open spec fn settled_arguments(arguments: Seq<char>) -> Seq<char> {
    if text::trimmed(arguments).len() > 0 && reads_as_object(arguments) {
        arguments
    } else {
        "{}"@
    }
}

/// The text is that of a JSON object.
pub open spec fn reads_as_object(s: Seq<char>) -> bool {
    json::parsed(vstd::utf8::encode_utf8(s)) matches Parsed::Doc(Tree::Obj(_))
}

/// `message_start`: the model and the token counts are noted, and the response is
/// announced once.
pub open spec fn on_message_start(s: ResponsesState, e: Tree) -> Turn {
    let message = e.get("message"@);
    let usage = json::get_in(message, "usage"@);
    let noted = ResponsesState {
        model: match json::str_in(json::get_in(message, "model"@)) {
            Some(model) => if s.pinned {
                s.model
            } else {
                model
            },
            None => s.model,
        },
        input: if usage is Some {
            json::int_or_zero(usage, "input_tokens"@)
        } else {
            s.input
        },
        cached: if usage is Some {
            json::int_in(usage, "cache_read_input_tokens"@)
        } else {
            s.cached
        },
        started: true,
        ..s
    };
    let turn = Turn::from(noted);
    if s.started {
        turn
    } else {
        turn.emit("response.created"@, turn.announced()).emit(
            "response.in_progress"@,
            turn.announced(),
        )
    }
}

/// `content_block_start`: the open item is closed, and the two block types that have
/// a Responses equivalent open one. Every other block type contributes nothing.
pub open spec fn on_block_start(s: ResponsesState, e: Tree, id: Seq<char>) -> Turn {
    let block = e.get("content_block"@);
    let kind = json::str_in(json::get_in(block, "type"@));
    let turn = Turn::from(s).close();
    if kind == Some("text"@) {
        turn.open_message(chat_sse::index_of(e), id)
    } else if kind == Some("tool_use"@) {
        turn.open_function_call(
            chat_sse::index_of(e),
            chat_sse::text_in(block, "id"@),
            chat_sse::text_in(block, "name"@),
            id,
        )
    } else {
        turn
    }
}

/// A piece of text: the item that it belongs to is opened where none is.
pub open spec fn on_text_delta(s: ResponsesState, e: Tree, id: Seq<char>) -> Turn {
    let said = chat_sse::text_in(e.get("delta"@), "text"@);
    let turn = if s.open is None {
        Turn::from(s).open_message(chat_sse::index_of(e), id)
    } else {
        Turn::from(s)
    };
    match turn.state.open {
        Some(Item::Message { item_id, output_index, content_index, text }) => Turn {
            state: ResponsesState {
                open: Some(Item::Message { item_id, output_index, content_index, text: text + said }),
                ..turn.state
            },
            sent: turn.sent,
        }.emit(
            "response.output_text.delta"@,
            map![
                "delta"@ => Tree::Str(said),
                "item_id"@ => Tree::Str(item_id),
                "output_index"@ => Tree::Int(output_index),
                "content_index"@ => Tree::Int(0),
            ],
        ),
        _ => turn,
    }
}

/// A fragment of arguments: passed on where the function call that it belongs to is
/// open.
pub open spec fn on_arguments_delta(s: ResponsesState, e: Tree) -> Turn {
    let part = chat_sse::text_in(e.get("delta"@), "partial_json"@);
    match s.open {
        Some(
            Item::FunctionCall { item_id, output_index, content_index, call_id, name, arguments },
        ) => if content_index == chat_sse::index_of(e) {
            Turn::from(
                ResponsesState {
                    open: Some(
                        Item::FunctionCall {
                            item_id,
                            output_index,
                            content_index,
                            call_id,
                            name,
                            arguments: arguments + part,
                        },
                    ),
                    ..s
                },
            ).emit(
                "response.function_call_arguments.delta"@,
                map![
                    "item_id"@ => Tree::Str(item_id),
                    "output_index"@ => Tree::Int(output_index),
                    "delta"@ => Tree::Str(part),
                ],
            )
        } else {
            Turn::from(s)
        },
        _ => Turn::from(s),
    }
}

/// The terminal response, with all the items.
pub open spec fn completed(s: ResponsesState, e: Tree) -> Tree {
    let stop_reason = json::str_in(json::get_in(e.get("delta"@), "stop_reason"@));
    let response = map![
        "id"@ => Tree::Str(s.id),
        "object"@ => Tree::Str("response"@),
        "model"@ => Tree::Str(s.model),
        "status"@ => Tree::Str(responses::status_of(stop_reason)),
        "output"@ => Tree::Arr(s.closed),
        "usage"@ => responses::responses_usage(
            s.input,
            json::int_or_zero(e.get("usage"@), "output_tokens"@),
            s.cached,
        ),
    ];
    if responses::cut_off(stop_reason) {
        Tree::Obj(response.insert("incomplete_details"@, responses::incomplete_details()))
    } else {
        Tree::Obj(response)
    }
}

/// The state after the terminal event's payload has been made.
pub open spec fn over(s: ResponsesState) -> ResponsesState {
    ResponsesState { closed: Seq::empty(), ended: true, ..s }
}

/// `message_delta`: the open item is closed, and the response is complete.
pub open spec fn on_message_delta(s: ResponsesState, e: Tree) -> Turn {
    let turn = Turn::from(s).close();
    Turn { state: over(turn.state), sent: turn.sent }.emit(
        "response.completed"@,
        map!["response"@ => completed(turn.state, e)],
    )
}

/// The items with the one that never finished streaming, as far as it came.
pub open spec fn with_unfinished(s: ResponsesState) -> Seq<Tree> {
    match s.open {
        None => s.closed,
        Some(Item::Message { item_id, output_index, content_index, text }) => s.closed.push(
            responses::message_item(item_id, "incomplete"@, text),
        ),
        Some(
            Item::FunctionCall { item_id, output_index, content_index, call_id, name, arguments },
        ) => s.closed.push(
            responses::call_item(
                item_id,
                call_id,
                name,
                settled_arguments(arguments),
                "incomplete"@,
            ),
        ),
    }
}

/// The stream has failed.
pub open spec fn failed(s: ResponsesState, error_type: Seq<char>, message: Seq<char>) -> Turn {
    Turn::from(ResponsesState { open: None, ..over(s) }).emit(
        "response.failed"@,
        map![
            "response"@ => Tree::Obj(
                map![
                    "id"@ => Tree::Str(s.id),
                    "object"@ => Tree::Str("response"@),
                    "model"@ => Tree::Str(s.model),
                    "status"@ => Tree::Str("failed"@),
                    "output"@ => Tree::Arr(with_unfinished(s)),
                    "error"@ => Tree::Obj(
                        map![
                            "type"@ => Tree::Str(error_type),
                            "message"@ => Tree::Str(message),
                        ],
                    ),
                ],
            ),
        ],
    )
}

/// What one upstream event does to the state, and what is sent for it; `id` is the
/// random part of the id of the item that it opens, if it opens one. After a terminal
/// event nothing counts any more.
pub open spec fn responses_step(s: ResponsesState, e: Tree, id: Seq<char>) -> Turn {
    let kind = json::str_in(e.get("type"@));
    let of = json::str_in(json::get_in(e.get("delta"@), "type"@));
    if s.ended {
        Turn::from(s)
    } else if kind == Some("message_start"@) {
        on_message_start(s, e)
    } else if kind == Some("content_block_start"@) {
        on_block_start(s, e, id)
    } else if kind == Some("content_block_delta"@) {
        if of == Some("text_delta"@) {
            on_text_delta(s, e, id)
        } else if of == Some("input_json_delta"@) {
            on_arguments_delta(s, e)
        } else {
            Turn::from(s)
        }
    } else if kind == Some("content_block_stop"@) {
        match s.open {
            Some(item) => if item.block_index() == chat_sse::index_of(e) {
                Turn::from(s).close()
            } else {
                Turn::from(s)
            },
            None => Turn::from(s),
        }
    } else if kind == Some("message_delta"@) {
        on_message_delta(s, e)
    } else if kind == Some("error"@) {
        failed(s, chat_sse::error_type_of(e), chat_sse::error_message_of(e))
    } else {
        Turn::from(s)
    }
}

/// The state after a sequence of upstream events, and all that is sent for them;
/// `ids` gives each event a random part for the id of an item.
pub open spec fn responses_run(s: ResponsesState, events: Seq<Tree>, ids: Seq<Seq<char>>) -> Turn
    decreases events.len(),
{
    if events.len() == 0 {
        Turn::from(s)
    } else {
        let before = responses_run(s, events.drop_last(), ids);
        let step = responses_step(before.state, events.last(), ids[events.len() - 1]);
        Turn { state: step.state, sent: before.sent + step.sent }
    }
}

/// The bytes of a sequence of events.
pub open spec fn events_bytes(events: Seq<Tree>) -> Seq<u8>
    decreases events.len(),
{
    if events.len() == 0 {
        Seq::empty()
    } else {
        events_bytes(events.drop_last()) + sse::data_event(events.last())
    }
}

/// Each of these is one event for the client, and no more.
pub open spec fn are_frames(events: Seq<Tree>) -> bool {
    forall|i: int| 0 <= i < events.len() ==> sse::is_frame(sse::data_event(#[trigger] events[i]))
}

/// These bytes are events, one frame each.
pub open spec fn sends(bytes: Seq<u8>, events: Seq<Tree>) -> bool {
    bytes == events_bytes(events) && are_frames(events)
}

/// Frames one after the other.
proof fn lemma_frames_concat(a: Seq<Tree>, b: Seq<Tree>)
    requires
        are_frames(a),
        are_frames(b),
    ensures
        are_frames(a + b),
{
    let both = a + b;
    assert forall|i: int| 0 <= i < both.len() implies sse::is_frame(
        sse::data_event(#[trigger] both[i]),
    ) by {
        if i < a.len() {
            assert(both[i] == a[i]);
        } else {
            assert(both[i] == b[i - a.len()]);
        }
    }
}

/// The bytes of two sequences of events.
pub proof fn lemma_events_concat(a: Seq<Tree>, b: Seq<Tree>)
    ensures
        events_bytes(a + b) == events_bytes(a) + events_bytes(b),
    decreases b.len(),
{
    if b.len() == 0 {
        assert(a + b =~= a);
        assert(events_bytes(a + b) =~= events_bytes(a) + events_bytes(b));
    } else {
        lemma_events_concat(a, b.drop_last());
        assert((a + b).drop_last() =~= a + b.drop_last());
        assert(events_bytes(a + b) =~= events_bytes(a) + events_bytes(b));
    }
}

/// The output item currently being streamed.
enum OpenItem {
    Message {
        /// The item's own id. Deltas must carry this one, not the response id: a
        /// client looks the item up by it.
        item_id: String,
        output_index: usize,
        content_index: u64,
        text: String,
    },
    FunctionCall {
        item_id: String,
        output_index: usize,
        content_index: u64,
        /// Anthropic's `toolu_...` id, which is what the client echoes back as
        /// `call_id` when it returns the tool result. Distinct from `item_id`.
        call_id: String,
        name: String,
        arguments: String,
    },
}

impl OpenItem {
    spec fn model(self) -> Item {
        match self {
            OpenItem::Message { item_id, output_index, content_index, text } => Item::Message {
                item_id: item_id@,
                output_index: output_index as int,
                content_index,
                text: text@,
            },
            OpenItem::FunctionCall {
                item_id,
                output_index,
                content_index,
                call_id,
                name,
                arguments,
            } => Item::FunctionCall {
                item_id: item_id@,
                output_index: output_index as int,
                content_index,
                call_id: call_id@,
                name: name@,
                arguments: arguments@,
            },
        }
    }

    fn content_index(&self) -> (r: u64)
        ensures
            r == self.model().block_index(),
    {
        match self {
            OpenItem::Message { content_index, .. } => *content_index,
            OpenItem::FunctionCall { content_index, .. } => *content_index,
        }
    }
}

/// Translates one Anthropic Messages SSE stream into Responses API events.
pub struct ResponsesSseTranslator {
    buffer: Vec<u8>,
    response_id: String,
    /// The model reported on every event: the client's requested name when one
    /// was supplied, otherwise the upstream's own `message_start.message.model`.
    model: String,
    /// When true, `model` is the client's requested name and `message_start`
    /// must not overwrite it with the upstream's (possibly mapped) name.
    client_model_pinned: bool,
    sequence_number: u64,
    /// The item currently being streamed, if any.
    open: Option<OpenItem>,
    /// Items already closed with `response.output_item.done`, in order.
    closed: Vec<Json>,
    input_tokens: i64,
    cache_read_tokens: Option<i64>,
    started: bool,
    ended: bool,
}

/// The arguments that a function call is reported with: always the text of a JSON object,
/// since that is what a client parses them as.
pub fn settle_arguments(arguments: String) -> (r: String)
    ensures
        r@ == settled_arguments(arguments@),
        reads_as_object(r@),
{
    if !trim(arguments.as_str()).is_empty() {
        if let Ok(Json::Object(_)) = Json::from_slice(arguments.as_str().as_bytes()) {
            return arguments;
        }
    }
    Json::Object(Object::new()).to_text()
}

impl ResponsesSseTranslator {
    /// What the translator remembers of the stream.
    pub closed spec fn state(&self) -> ResponsesState {
        ResponsesState {
            id: self.response_id@,
            model: self.model@,
            pinned: self.client_model_pinned,
            sequence_number: self.sequence_number,
            open: match self.open {
                Some(item) => Some(item.model()),
                None => None,
            },
            closed: json::values_view(self.closed@),
            input: self.input_tokens,
            cached: self.cache_read_tokens,
            started: self.started,
            ended: self.ended,
        }
    }

    /// The bytes of an event that is not complete yet.
    pub closed spec fn buffered(&self) -> Seq<u8> {
        self.buffer@
    }

    /// The state with what has been sent.
    spec fn turn(&self, sent: Seq<Json>) -> Turn {
        Turn { state: self.state(), sent: json::values_view(sent) }
    }

    /// A translator whose response carries this id.
    ///
    /// `client_model`, when set, is reported as the `model` on every event in
    /// place of the upstream's own name.
    pub fn with_id(response_id: String, client_model: Option<&str>) -> (r: Self)
        ensures
            r.buffered() == Seq::<u8>::empty(),
            r.state() == ResponsesState::start(response_id@, json::str_opt(client_model)),
    {
        let (model, pinned) = match client_model {
            Some(model) => (model.to_owned(), true),
            None => (String::new(), false),
        };
        ResponsesSseTranslator {
            buffer: Vec::new(),
            response_id,
            model,
            client_model_pinned: pinned,
            sequence_number: 0,
            open: None,
            closed: no_blocks(),
            input_tokens: 0,
            cache_read_tokens: None,
            started: false,
            ended: false,
        }
    }

    /// A translator with a fresh random response id.
    pub fn new(client_model: Option<&str>) -> (r: Self)
        ensures
            r.buffered() == Seq::<u8>::empty(),
            exists|id: Seq<char>| #[trigger]
                ids::is_random_id(id) && r.state() == ResponsesState::start(
                    "resp_"@ + id,
                    json::str_opt(client_model),
                ),
    {
        let id = random_id();
        assert(ids::is_random_id(id@));
        Self::with_id(concat2("resp_", id.as_str()), client_model)
    }

    fn push_event(&mut self, kind: &str, payload: Object, sent: &mut Vec<Json>)
        ensures
            final(self).buffered() == old(self).buffered(),
            final(self).turn(final(sent)@) == old(self).turn(old(sent)@).emit(kind@, payload@),
    {
        let number: u64 = self.sequence_number;
        self.sequence_number = number.wrapping_add(1);
        let event = Json::Object(
            payload.with("type", Json::text(kind)).with("sequence_number", Json::from_u64(number)),
        );
        let ghost before = sent@;
        sent.push(event);
        assert(json::values_view(sent@) =~= json::values_view(before).push(event@));
    }

    fn in_progress_response(&self) -> (r: Object)
        ensures
            r@ == Turn::from(self.state()).announced(),
    {
        let response = Object::new().with("id", Json::text(self.response_id.as_str())).with(
            "object",
            Json::text("response"),
        ).with("model", Json::text(self.model.as_str())).with(
            "status",
            Json::text("in_progress"),
        ).with("output", Json::Array(no_blocks()));
        Object::new().with("response", Json::Object(response))
    }

    fn message_start(&mut self, event: &Json, sent: &mut Vec<Json>)
        requires
            old(sent)@.len() == 0,
        ensures
            final(self).buffered() == old(self).buffered(),
            final(self).turn(final(sent)@) == on_message_start(old(self).state(), event@),
    {
        assert(json::values_view(sent@) =~= Seq::<Tree>::empty());
        let message = event.get("message");
        if let Some(m) = message {
            if !self.client_model_pinned {
                if let Some(model) = m.get_str("model") {
                    self.model = model.to_owned();
                }
            }
            if let Some(usage) = m.get("usage") {
                self.input_tokens = opt_int_or_zero(Some(usage), "input_tokens");
                self.cache_read_tokens = opt_int(Some(usage), "cache_read_input_tokens");
            }
        }
        if !self.started {
            self.started = true;
            let created = self.in_progress_response();
            let in_progress = self.in_progress_response();
            self.push_event("response.created", created, sent);
            self.push_event("response.in_progress", in_progress, sent);
        }
    }

    /// Opens a `message` item: `response.output_item.added` then
    /// `response.content_part.added` for its (only) text part.
    fn open_message(&mut self, content_index: u64, id: &str, sent: &mut Vec<Json>)
        ensures
            final(self).buffered() == old(self).buffered(),
            final(self).turn(final(sent)@) == old(self).turn(old(sent)@).open_message(
                content_index,
                id@,
            ),
    {
        let item_id = concat2("msg_", id);
        let output_index: usize = self.closed.len();
        let item = Object::new().with("type", Json::text("message")).with(
            "id",
            Json::text(item_id.as_str()),
        ).with("role", Json::text("assistant")).with("content", Json::Array(no_blocks())).with(
            "status",
            Json::text("in_progress"),
        );
        self.push_event(
            "response.output_item.added",
            Object::new().with("output_index", Json::from_u64(output_index as u64)).with(
                "item",
                Json::Object(item),
            ),
            sent,
        );
        self.push_event(
            "response.content_part.added",
            Object::new().with("item_id", Json::text(item_id.as_str())).with(
                "output_index",
                Json::from_u64(output_index as u64),
            ).with("content_index", Json::from_i64(0)).with("part", make_output_text("")),
            sent,
        );
        self.open = Some(
            OpenItem::Message { item_id, output_index, content_index, text: String::new() },
        );
    }

    /// Opens a `function_call` item: just `response.output_item.added`.
    fn open_function_call(
        &mut self,
        content_index: u64,
        call_id: &str,
        name: &str,
        id: &str,
        sent: &mut Vec<Json>,
    )
        ensures
            final(self).buffered() == old(self).buffered(),
            final(self).turn(final(sent)@) == old(self).turn(old(sent)@).open_function_call(
                content_index,
                call_id@,
                name@,
                id@,
            ),
    {
        let item_id = concat2("fc_", id);
        let output_index: usize = self.closed.len();
        let item = make_call_item(item_id.as_str(), call_id, name, "", "in_progress");
        self.push_event(
            "response.output_item.added",
            Object::new().with("output_index", Json::from_u64(output_index as u64)).with(
                "item",
                item,
            ),
            sent,
        );
        self.open = Some(
            OpenItem::FunctionCall {
                item_id,
                output_index,
                content_index,
                call_id: call_id.to_owned(),
                name: name.to_owned(),
                arguments: String::new(),
            },
        );
    }

    fn item_done(&mut self, output_index: usize, item: Json, sent: &mut Vec<Json>)
        ensures
            final(self).buffered() == old(self).buffered(),
            final(self).turn(final(sent)@) == old(self).turn(old(sent)@).item_done(
                output_index as int,
                item@,
            ).settled(item@),
    {
        self.push_event(
            "response.output_item.done",
            Object::new().with("output_index", Json::from_u64(output_index as u64)).with(
                "item",
                item.clone(),
            ),
            sent,
        );
        let ghost before = self.closed@;
        self.closed.push(item);
        assert(json::values_view(self.closed@) =~= json::values_view(before).push(item@));
        self.open = None;
    }

    /// Closes the currently open item: the matching `.done` event(s), then
    /// `response.output_item.done`, then moves it into `closed`.
    fn close_item(&mut self, sent: &mut Vec<Json>)
        ensures
            final(self).buffered() == old(self).buffered(),
            final(self).turn(final(sent)@) == old(self).turn(old(sent)@).close(),
    {
        let open = self.open.take();
        match open {
            Some(OpenItem::Message { item_id, output_index, content_index: _, text }) => {
                self.push_event(
                    "response.output_text.done",
                    Object::new().with("item_id", Json::text(item_id.as_str())).with(
                        "output_index",
                        Json::from_u64(output_index as u64),
                    ).with("content_index", Json::from_i64(0)).with(
                        "text",
                        Json::text(text.as_str()),
                    ),
                    sent,
                );
                self.push_event(
                    "response.content_part.done",
                    Object::new().with("item_id", Json::text(item_id.as_str())).with(
                        "output_index",
                        Json::from_u64(output_index as u64),
                    ).with("content_index", Json::from_i64(0)).with(
                        "part",
                        make_output_text(text.as_str()),
                    ),
                    sent,
                );
                let item = make_message_item(item_id.as_str(), "completed", text.as_str());
                self.item_done(output_index, item, sent);
            },
            Some(
                OpenItem::FunctionCall {
                    item_id,
                    output_index,
                    content_index: _,
                    call_id,
                    name,
                    arguments,
                },
            ) => {
                let arguments = settle_arguments(arguments);
                self.push_event(
                    "response.function_call_arguments.done",
                    Object::new().with("item_id", Json::text(item_id.as_str())).with(
                        "output_index",
                        Json::from_u64(output_index as u64),
                    ).with("arguments", Json::text(arguments.as_str())),
                    sent,
                );
                let item = make_call_item(
                    item_id.as_str(),
                    call_id.as_str(),
                    name.as_str(),
                    arguments.as_str(),
                    "completed",
                );
                self.item_done(output_index, item, sent);
            },
            None => {},
        }
    }

    fn content_block_start(&mut self, event: &Json, id: &str, sent: &mut Vec<Json>)
        requires
            old(sent)@.len() == 0,
        ensures
            final(self).buffered() == old(self).buffered(),
            final(self).turn(final(sent)@) == on_block_start(old(self).state(), event@, id@),
    {
        proof {
            reveal_strlit("text");
            reveal_strlit("tool_use");
            assert("text"@.len() != "tool_use"@.len());
        }
        assert(json::values_view(sent@) =~= Seq::<Tree>::empty());
        self.close_item(sent);
        if let Some(block) = event.get("content_block") {
            let content_index: u64 = index_of_event(event);
            if block.has_type("text") {
                self.open_message(content_index, id, sent);
            } else if block.has_type("tool_use") {
                self.open_function_call(
                    content_index,
                    block.str_or("id", ""),
                    block.str_or("name", ""),
                    id,
                    sent,
                );
            }
        }
    }

    fn text_delta(&mut self, event: &Json, delta: &Json, id: &str, sent: &mut Vec<Json>)
        requires
            old(sent)@.len() == 0,
            event@.get("delta"@) == Some(delta@),
        ensures
            final(self).buffered() == old(self).buffered(),
            final(self).turn(final(sent)@) == on_text_delta(old(self).state(), event@, id@),
    {
        assert(json::values_view(sent@) =~= Seq::<Tree>::empty());
        let said = delta.str_or("text", "");
        if self.open.is_none() {
            self.open_message(index_of_event(event), id, sent);
        }
        let open = self.open.take();
        match open {
            Some(OpenItem::Message { item_id, output_index, content_index, text }) => {
                let payload = Object::new().with("delta", Json::text(said)).with(
                    "item_id",
                    Json::text(item_id.as_str()),
                ).with("output_index", Json::from_u64(output_index as u64)).with(
                    "content_index",
                    Json::from_i64(0),
                );
                let text = concat2(text.as_str(), said);
                self.open = Some(OpenItem::Message { item_id, output_index, content_index, text });
                self.push_event("response.output_text.delta", payload, sent);
            },
            other => {
                self.open = other;
            },
        }
    }

    fn arguments_delta(&mut self, event: &Json, delta: &Json, sent: &mut Vec<Json>)
        requires
            old(sent)@.len() == 0,
            event@.get("delta"@) == Some(delta@),
        ensures
            final(self).buffered() == old(self).buffered(),
            final(self).turn(final(sent)@) == on_arguments_delta(old(self).state(), event@),
    {
        assert(json::values_view(sent@) =~= Seq::<Tree>::empty());
        let part = delta.str_or("partial_json", "");
        let open = self.open.take();
        match open {
            Some(
                OpenItem::FunctionCall {
                    item_id,
                    output_index,
                    content_index,
                    call_id,
                    name,
                    arguments,
                },
            ) => {
                if content_index == index_of_event(event) {
                    let payload = Object::new().with("item_id", Json::text(item_id.as_str())).with(
                        "output_index",
                        Json::from_u64(output_index as u64),
                    ).with("delta", Json::text(part));
                    let arguments = concat2(arguments.as_str(), part);
                    self.open = Some(
                        OpenItem::FunctionCall {
                            item_id,
                            output_index,
                            content_index,
                            call_id,
                            name,
                            arguments,
                        },
                    );
                    self.push_event("response.function_call_arguments.delta", payload, sent);
                } else {
                    self.open = Some(
                        OpenItem::FunctionCall {
                            item_id,
                            output_index,
                            content_index,
                            call_id,
                            name,
                            arguments,
                        },
                    );
                }
            },
            other => {
                self.open = other;
            },
        }
    }

    /// Takes the items closed so far out.
    fn take_closed(&mut self) -> (r: Vec<Json>)
        ensures
            final(self).buffered() == old(self).buffered(),
            json::values_view(r@) == old(self).state().closed,
            final(self).state() == (ResponsesState {
                closed: Seq::empty(),
                ..old(self).state()
            }),
    {
        let mut taken: Vec<Json> = no_blocks();
        std::mem::swap(&mut taken, &mut self.closed);
        taken
    }

    fn message_delta(&mut self, event: &Json, sent: &mut Vec<Json>)
        requires
            old(sent)@.len() == 0,
        ensures
            final(self).buffered() == old(self).buffered(),
            final(self).turn(final(sent)@) == on_message_delta(old(self).state(), event@),
    {
        assert(json::values_view(sent@) =~= Seq::<Tree>::empty());
        let stop_reason = match event.get("delta") {
            Some(delta) => delta.get_str("stop_reason"),
            None => None,
        };
        let output_tokens: i64 = opt_int_or_zero(event.get("usage"), "output_tokens");
        let (status, details) = response_status(stop_reason);
        self.close_item(sent);
        let usage = make_responses_usage(self.input_tokens, output_tokens, self.cache_read_tokens);
        let output = self.take_closed();
        let response = Object::new().with("id", Json::text(self.response_id.as_str())).with(
            "object",
            Json::text("response"),
        ).with("model", Json::text(self.model.as_str())).with("status", Json::text(status)).with(
            "output",
            Json::Array(output),
        ).with("usage", usage);
        let response = match details {
            Some(details) => response.with("incomplete_details", details),
            None => response,
        };
        self.ended = true;
        self.push_event(
            "response.completed",
            Object::new().with("response", Json::Object(response)),
            sent,
        );
    }

    /// Moves whatever item is still open among the closed ones, without emitting its
    /// `.done` events.
    ///
    /// Used only when the stream is ending abnormally: the client gets the item's
    /// partial content in the terminal response's `output[]`, but no
    /// `output_item.done` for an item that never actually finished streaming.
    fn take_open_item_unfinished(&mut self)
        ensures
            final(self).buffered() == old(self).buffered(),
            final(self).state() == (ResponsesState {
                open: None,
                closed: with_unfinished(old(self).state()),
                ..old(self).state()
            }),
    {
        let item = match self.open.take() {
            Some(OpenItem::Message { item_id, output_index: _, content_index: _, text }) => {
                make_message_item(item_id.as_str(), "incomplete", text.as_str())
            },
            Some(
                OpenItem::FunctionCall {
                    item_id,
                    output_index: _,
                    content_index: _,
                    call_id,
                    name,
                    arguments,
                },
            ) => {
                let arguments = settle_arguments(arguments);
                make_call_item(
                    item_id.as_str(),
                    call_id.as_str(),
                    name.as_str(),
                    arguments.as_str(),
                    "incomplete",
                )
            },
            None => {
                return;
            },
        };
        let ghost before = self.closed@;
        self.closed.push(item);
        assert(json::values_view(self.closed@) =~= json::values_view(before).push(item@));
    }

    /// Ends the stream with `response.failed`.
    fn fail(&mut self, error_type: &str, message: &str, sent: &mut Vec<Json>)
        requires
            old(sent)@.len() == 0,
        ensures
            final(self).buffered() == old(self).buffered(),
            final(self).turn(final(sent)@) == failed(old(self).state(), error_type@, message@),
    {
        assert(json::values_view(sent@) =~= Seq::<Tree>::empty());
        self.take_open_item_unfinished();
        let output = self.take_closed();
        let error = Object::new().with("type", Json::text(error_type)).with(
            "message",
            Json::text(message),
        );
        let response = Object::new().with("id", Json::text(self.response_id.as_str())).with(
            "object",
            Json::text("response"),
        ).with("model", Json::text(self.model.as_str())).with("status", Json::text("failed")).with(
            "output",
            Json::Array(output),
        ).with("error", Json::Object(error));
        self.ended = true;
        self.push_event(
            "response.failed",
            Object::new().with("response", Json::Object(response)),
            sent,
        );
    }

    /// Handles one upstream event, `id` being the random part of the id of the item
    /// that it opens, if it opens one: what it does to the state, and the events that
    /// are sent for it.
    pub fn handle_with_id(&mut self, event: &Json, id: &str) -> (sent: Vec<Json>)
        ensures
            final(self).buffered() == old(self).buffered(),
            final(self).state() == responses_step(old(self).state(), event@, id@).state,
            json::values_view(sent@) == responses_step(old(self).state(), event@, id@).sent,
    {
        proof {
            lemma_kinds();
        }
        let mut sent: Vec<Json> = no_blocks();
        if self.ended {
            return sent;
        }
        if event.has_type("message_start") {
            self.message_start(event, &mut sent);
        } else if event.has_type("content_block_start") {
            self.content_block_start(event, id, &mut sent);
        } else if event.has_type("content_block_delta") {
            if let Some(delta) = event.get("delta") {
                if delta.has_type("text_delta") {
                    self.text_delta(event, delta, id, &mut sent);
                } else if delta.has_type("input_json_delta") {
                    self.arguments_delta(event, delta, &mut sent);
                }
            }
        } else if event.has_type("content_block_stop") {
            let closes = match &self.open {
                Some(item) => item.content_index() == index_of_event(event),
                None => false,
            };
            if closes {
                self.close_item(&mut sent);
            }
        } else if event.has_type("message_delta") {
            self.message_delta(event, &mut sent);
        } else if event.has_type("error") {
            let message = error_message_in(event);
            let error_type = error_type_in(event);
            self.fail(error_type.as_str(), message.as_str(), &mut sent);
        }
        sent
    }

    /// Handles one upstream event. An item that it opens gets a fresh random id.
    pub fn handle_data(&mut self, event: &Json, out: &mut Vec<u8>)
        ensures
            final(self).buffered() == old(self).buffered(),
            exists|id: Seq<char>| #[trigger]
                ids::is_random_id(id) && final(self).state() == responses_step(
                    old(self).state(),
                    event@,
                    id,
                ).state && final(out)@ == old(out)@ + events_bytes(
                    responses_step(old(self).state(), event@, id).sent,
                ) && are_frames(responses_step(old(self).state(), event@, id).sent),
    {
        let id = random_id();
        assert(ids::is_random_id(id@));
        let sent = self.handle_with_id(event, id.as_str());
        push_events(&sent, out);
    }

    /// Handles upstream events.
    fn handle_documents(&mut self, docs: &Vec<Json>) -> (out: Vec<u8>)
        ensures
            final(self).buffered() == old(self).buffered(),
            exists|ids: Seq<Seq<char>>| #[trigger]
                ids::are_random_ids(ids) && ids.len() == docs@.len() && final(self).state()
                    == responses_run(old(self).state(), json::values_view(docs@), ids).state && sends(
                    out@,
                    responses_run(old(self).state(), json::values_view(docs@), ids).sent,
                ),
    {
        let mut out: Vec<u8> = Vec::new();
        let ghost start = old(self).state();
        let ghost events = json::values_view(docs@);
        let ghost mut drawn: Seq<Seq<char>> = Seq::empty();
        assert(out@ =~= events_bytes(Seq::empty()));
        for i in 0..docs.len()
            invariant
                events == json::values_view(docs@),
                drawn.len() == i,
                ids::are_random_ids(drawn),
                self.buffered() == old(self).buffered(),
                self.state() == responses_run(start, events.take(i as int), drawn).state,
                sends(out@, responses_run(start, events.take(i as int), drawn).sent),
        {
            let ghost before = responses_run(start, events.take(i as int), drawn);
            let ghost out_before = out@;
            self.handle_data(&docs[i], &mut out);
            proof {
                let id = choose|id: Seq<char>| #[trigger]
                    ids::is_random_id(id) && self.state() == responses_step(
                        before.state,
                        events[i as int],
                        id,
                    ).state && out@ == out_before + events_bytes(
                        responses_step(before.state, events[i as int], id).sent,
                    ) && are_frames(responses_step(before.state, events[i as int], id).sent);
                let more = drawn.push(id);
                assert(ids::are_random_ids(more));
                assert(events.take(i + 1).drop_last() =~= events.take(i as int));
                lemma_run_ids(start, events.take(i as int), drawn, more);
                let step = responses_step(before.state, events[i as int], id);
                lemma_events_concat(before.sent, step.sent);
                lemma_frames_concat(before.sent, step.sent);
                drawn = more;
            }
        }
        assert(events.take(events.len() as int) =~= events);
        assert(ids::are_random_ids(drawn));
        out
    }

    /// Handles the complete events of the buffer.
    fn drain_events(&mut self) -> (out: Vec<u8>)
        ensures
            final(self).buffered() == sse::remainder(old(self).buffered()),
            exists|ids: Seq<Seq<char>>| #[trigger]
                ids::are_random_ids(ids) && ids.len() == sse::documents(
                    old(self).buffered(),
                ).len() && final(self).state() == responses_run(
                    old(self).state(),
                    sse::documents(old(self).buffered()),
                    ids,
                ).state && sends(
                    out@,
                    responses_run(
                        old(self).state(),
                        sse::documents(old(self).buffered()),
                        ids,
                    ).sent,
                ),
    {
        let mut buffer: Vec<u8> = Vec::new();
        std::mem::swap(&mut buffer, &mut self.buffer);
        let docs = take_documents(&mut buffer);
        self.buffer = buffer;
        self.handle_documents(&docs)
    }

    /// Feeds a chunk of raw upstream SSE bytes, returning the translated bytes
    /// to forward to the client (possibly empty, possibly several events).
    pub fn feed(&mut self, chunk: &[u8]) -> (out: Vec<u8>)
        ensures
            sse::is_framed(out@),
            final(self).buffered() == sse::remainder(old(self).buffered() + chunk@),
            exists|ids: Seq<Seq<char>>| #[trigger]
                ids::are_random_ids(ids) && ids.len() == sse::documents(
                    old(self).buffered() + chunk@,
                ).len() && final(self).state() == responses_run(
                    old(self).state(),
                    sse::documents(old(self).buffered() + chunk@),
                    ids,
                ).state && sends(
                    out@,
                    responses_run(
                        old(self).state(),
                        sse::documents(old(self).buffered() + chunk@),
                        ids,
                    ).sent,
                ),
    {
        append_bytes(&mut self.buffer, chunk);
        let ghost start = self.state();
        let ghost events = sse::documents(self.buffered());
        let out = self.drain_events();
        proof {
            let ids = choose|ids: Seq<Seq<char>>| #[trigger]
                ids::are_random_ids(ids) && ids.len() == events.len() && self.state()
                    == responses_run(start, events, ids).state && sends(
                    out@,
                    responses_run(start, events, ids).sent,
                );
            responses_sse_laws::law_frames_are_events(responses_run(start, events, ids).sent);
        }
        out
    }

    /// Flushes any buffered partial event, and synthesizes `response.failed` if the
    /// connection dropped without a proper terminal event.
    ///
    /// Unlike Chat Completions, there is no `[DONE]` sentinel here: a client
    /// normally learns the stream is over from `response.completed` or
    /// `response.failed` alone. If the upstream connection drops before either
    /// arrives, the client is left waiting forever with no signal at all, so this
    /// synthesizes the failure rather than staying silent.
    pub fn finish(self) -> (out: Vec<u8>)
        ensures
            sse::is_framed(out@),
            exists|ids: Seq<Seq<char>>| #[trigger]
                ids::are_random_ids(ids) && ids.len() == sse::flushed(self.buffered()).len()
                    && sends(
                    out@,
                    finished(responses_run(self.state(), sse::flushed(self.buffered()), ids)),
                ),
    {
        let mut last = self;
        let mut buffer: Vec<u8> = Vec::new();
        std::mem::swap(&mut buffer, &mut last.buffer);
        let docs = flush_documents(buffer);
        let mut out = last.handle_documents(&docs);
        let ghost events = sse::flushed(self.buffered());
        let ghost ids = choose|ids: Seq<Seq<char>>| #[trigger]
            ids::are_random_ids(ids) && ids.len() == docs@.len() && last.state() == responses_run(
                self.state(),
                events,
                ids,
            ).state && sends(out@, responses_run(self.state(), events, ids).sent);
        if !last.ended {
            let mut sent: Vec<Json> = no_blocks();
            last.fail("api_error", "upstream connection closed unexpectedly", &mut sent);
            push_events(&sent, &mut out);
            proof {
                let run = responses_run(self.state(), events, ids);
                let failure = failed(
                    run.state,
                    "api_error"@,
                    "upstream connection closed unexpectedly"@,
                );
                lemma_events_concat(run.sent, failure.sent);
                lemma_frames_concat(run.sent, failure.sent);
            }
        }
        assert(ids::are_random_ids(ids));
        proof {
            let run = responses_run(self.state(), events, ids);
            responses_sse_laws::law_frames_are_events(finished(run));
        }
        out
    }
}

/// All that is sent by the end of a stream: where it did not come to a terminal event, its
/// failure last.
pub open spec fn finished(run: Turn) -> Seq<Tree> {
    if run.state.ended {
        run.sent
    } else {
        run.sent + failed(
            run.state,
            "api_error"@,
            "upstream connection closed unexpectedly"@,
        ).sent
    }
}

/// Adds the bytes of events.
fn push_events(sent: &Vec<Json>, out: &mut Vec<u8>)
    ensures
        final(out)@ == old(out)@ + events_bytes(json::values_view(sent@)),
        are_frames(json::values_view(sent@)),
{
    let ghost events = json::values_view(sent@);
    assert(out@ =~= old(out)@ + events_bytes(events.take(0)));
    for i in 0..sent.len()
        invariant
            events == json::values_view(sent@),
            out@ == old(out)@ + events_bytes(events.take(i as int)),
            forall|k: int|
                0 <= k < i ==> sse::is_frame(sse::data_event(#[trigger] events[k])),
    {
        push_data_event(&sent[i], out);
        assert(events.take(i + 1).drop_last() =~= events.take(i as int));
        assert(out@ =~= old(out)@ + events_bytes(events.take(i + 1)));
    }
    assert(events.take(events.len() as int) =~= events);
}

/// Identifiers beyond the events are no matter.
pub proof fn lemma_run_ids(
    s: ResponsesState,
    events: Seq<Tree>,
    a: Seq<Seq<char>>,
    b: Seq<Seq<char>>,
)
    requires
        forall|i: int| 0 <= i < events.len() ==> a[i] == b[i],
    ensures
        responses_run(s, events, a) == responses_run(s, events, b),
    decreases events.len(),
{
    if events.len() > 0 {
        lemma_run_ids(s, events.drop_last(), a, b);
    }
}

/// The kinds of events and deltas are distinct.
proof fn lemma_kinds()
    ensures
        "message_start"@ != "content_block_start"@,
        "message_start"@ != "content_block_delta"@,
        "message_start"@ != "content_block_stop"@,
        "message_start"@ != "message_delta"@,
        "message_start"@ != "error"@,
        "content_block_start"@ != "content_block_delta"@,
        "content_block_start"@ != "content_block_stop"@,
        "content_block_start"@ != "message_delta"@,
        "content_block_start"@ != "error"@,
        "content_block_delta"@ != "content_block_stop"@,
        "content_block_delta"@ != "message_delta"@,
        "content_block_delta"@ != "error"@,
        "content_block_stop"@ != "message_delta"@,
        "content_block_stop"@ != "error"@,
        "message_delta"@ != "error"@,
        "text_delta"@ != "input_json_delta"@,
{
    reveal_strlit("message_start");
    reveal_strlit("content_block_start");
    reveal_strlit("content_block_delta");
    reveal_strlit("content_block_stop");
    reveal_strlit("message_delta");
    reveal_strlit("error");
    reveal_strlit("text_delta");
    reveal_strlit("input_json_delta");
    assert("message_start"@.len() == 13);
    assert("content_block_start"@.len() == 19);
    assert("content_block_delta"@.len() == 19);
    assert("content_block_stop"@.len() == 18);
    assert("message_delta"@.len() == 13);
    assert("error"@.len() == 5);
    assert("text_delta"@.len() == 10);
    assert("input_json_delta"@.len() == 16);
    assert("content_block_start"@[14] != "content_block_delta"@[14]);
    assert("message_start"@[8] != "message_delta"@[8]);
}

} // verus!
