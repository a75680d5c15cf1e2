//! What a Responses client is sent for each upstream event.

use vstd::prelude::*;

use crate::json::Tree;
use crate::translate::chat_sse_event_laws;
use crate::translate::keys;
use crate::translate::responses_sse;
use crate::translate::responses_sse::{Item, ResponsesState, Turn};

verus! {

/// The member of a member of a member.
pub open spec fn deep(t: Tree, a: Seq<char>, b: Seq<char>, c: Seq<char>) -> Option<Tree> {
    match chat_sse_event_laws::inner(t, a, b) {
        Some(v) => v.get(c),
        None => None,
    }
}

/// What a client is told of the tokens that were used.
pub open spec fn is_responses_usage(t: Tree, input: int, output: int, cached: Option<int>) -> bool {
    &&& t.get("input_tokens"@) == Some(Tree::Int(input))
    &&& t.get("output_tokens"@) == Some(Tree::Int(output))
    &&& t.get("total_tokens"@) == Some(Tree::Int(input + output))
    &&& match cached {
        Some(n) => chat_sse_event_laws::inner(t, "input_tokens_details"@, "cached_tokens"@) == Some(
            Tree::Int(n),
        ),
        None => t.get("input_tokens_details"@) is None,
    }
}

/// The status of an answer that stopped for this reason: cut off at its token limit, it is
/// incomplete, and the client is told why.
pub open spec fn tells_status(response: Tree, stop_reason: Option<Tree>) -> bool {
    if stop_reason == Some(Tree::Str("max_tokens"@)) {
        response.get("status"@) == Some(Tree::Str("incomplete"@)) && chat_sse_event_laws::inner(
            response,
            "incomplete_details"@,
            "reason"@,
        ) == Some(Tree::Str("max_output_tokens"@))
    } else {
        response.get("status"@) == Some(Tree::Str("completed"@)) && response.get(
            "incomplete_details"@,
        ) is None
    }
}

/// What an event holds beside its kind and its number is its payload.
proof fn lemma_event(kind: Seq<char>, payload: Map<Seq<char>, Tree>, number: u64)
    ensures
        ({
            let t = responses_sse::event(kind, payload, number);
            &&& chat_sse_event_laws::is_kind(t, kind)
            &&& forall|key: Seq<char>|
                key != "type"@ && key != "sequence_number"@ ==> #[trigger] t.get(key) == Tree::Obj(
                    payload,
                ).get(key)
        }),
{
    keys::lemma_words();
}

/// What is remembered of the tokens, the id and the model, but for the start of a message.
proof fn lemma_step_remembers(s: ResponsesState, e: Tree, id: Seq<char>)
    ensures
        ({
            let after = responses_sse::responses_step(s, e, id).state;
            &&& after.id == s.id
            &&& after.pinned == s.pinned
            &&& !chat_sse_event_laws::is_kind(e, "message_start"@) ==> after.input == s.input
                && after.cached == s.cached && after.model == s.model && after.started == s.started
        }),
{
    keys::lemma_words();
    let start = Turn::from(s);
    let closed = start.close();
    assert(closed.state.id == s.id && closed.state.pinned == s.pinned && closed.state.input
        == s.input && closed.state.cached == s.cached && closed.state.model == s.model
        && closed.state.started == s.started);
}

proof fn lemma_tokens_noted(
    s: ResponsesState,
    events: Seq<Tree>,
    ids: Seq<Seq<char>>,
    at: int,
    input: int,
    cached: Option<int>,
)
    requires
        chat_sse_event_laws::input_was(events, at, input),
        i64::MIN <= input <= i64::MAX,
        chat_sse_event_laws::cached_was(
            chat_sse_event_laws::inner(events[at], "message"@, "usage"@)->0,
            cached,
        ),
        cached matches Some(n) ==> i64::MIN <= n <= i64::MAX,
        !responses_sse::responses_run(s, events, ids).state.ended,
    ensures
        ({
            let after = responses_sse::responses_run(s, events, ids).state;
            after.input == input && match cached {
                Some(n) => after.cached == Some(n as i64),
                None => after.cached is None,
            }
        }),
    decreases events.len(),
{
    keys::lemma_words();
    let rest = events.drop_last();
    let before = responses_sse::responses_run(s, rest, ids).state;
    let event = events.last();
    let id = ids[events.len() - 1];
    assert(event == events[events.len() - 1]);
    lemma_step_remembers(before, event, id);
    assert(!before.ended);
    if at < events.len() - 1 {
        assert(rest[at] == events[at]);
        assert forall|i: int| at < i < rest.len() implies !chat_sse_event_laws::is_kind(
            #[trigger] rest[i],
            "message_start"@,
        ) by {
            assert(rest[i] == events[i]);
        }
        lemma_tokens_noted(s, rest, ids, at, input, cached);
        assert(!chat_sse_event_laws::is_kind(events[events.len() - 1], "message_start"@));
    }
}

/// The terminal event tells what the upstream reported: the input tokens of the start of the
/// message as input tokens, the output tokens of its end as output tokens, and their sum.
pub proof fn law_usage_is_the_upstreams(
    s: ResponsesState,
    events: Seq<Tree>,
    ids: Seq<Seq<char>>,
    at: int,
    event: Tree,
    input: int,
    output: int,
    cached: Option<int>,
)
    requires
        chat_sse_event_laws::input_was(events, at, input),
        i64::MIN <= input <= i64::MAX,
        chat_sse_event_laws::cached_was(
            chat_sse_event_laws::inner(events[at], "message"@, "usage"@)->0,
            cached,
        ),
        cached matches Some(n) ==> i64::MIN <= n <= i64::MAX,
        !responses_sse::responses_run(s, events, ids).state.ended,
        chat_sse_event_laws::is_kind(event, "message_delta"@),
        chat_sse_event_laws::inner(event, "usage"@, "output_tokens"@) == Some(Tree::Int(output)),
        i64::MIN <= output <= i64::MAX,
        i64::MIN <= input + output <= i64::MAX,
    ensures
        ({
            let sent = responses_sse::responses_run(s, events.push(event), ids).sent;
            &&& sent.len() > 0
            &&& chat_sse_event_laws::is_kind(sent.last(), "response.completed"@)
            &&& chat_sse_event_laws::inner(sent.last(), "response"@, "usage"@) matches Some(usage)
            &&& is_responses_usage(usage, input, output, cached)
        }),
{
    keys::lemma_words();
    lemma_tokens_noted(s, events, ids, at, input, cached);
    assert(events.push(event).drop_last() =~= events);
    let before = responses_sse::responses_run(s, events, ids);
    let id = ids[events.len() as int];
    let step = responses_sse::responses_step(before.state, event, id);
    law_completion_is_told(before.state, event, id);
    assert((before.sent + step.sent).last() == step.sent.last());
    let closed = Turn::from(before.state).close();
    assert(closed.state.input == before.state.input && closed.state.cached == before.state.cached);
    let response = responses_sse::completed(closed.state, event);
    assert(step.sent.last().get("response"@) == Some(response));
    assert(response.get("usage"@) matches Some(usage) && is_responses_usage(
        usage,
        input,
        output,
        cached,
    ));
}

/// The end of a message completes the response, and nothing more comes: the terminal event
/// carries the id and the model of the stream, and tells whether the answer was cut off.
pub proof fn law_completion_is_told(s: ResponsesState, event: Tree, id: Seq<char>)
    requires
        !s.ended,
        chat_sse_event_laws::is_kind(event, "message_delta"@),
    ensures
        ({
            let turn = responses_sse::responses_step(s, event, id);
            &&& turn.state.ended
            &&& turn.sent.len() > 0
            &&& chat_sse_event_laws::is_kind(turn.sent.last(), "response.completed"@)
            &&& turn.sent.last().get("response"@) matches Some(response)
            &&& response.get("id"@) == Some(Tree::Str(s.id))
            &&& response.get("object"@) == Some(Tree::Str("response"@))
            &&& response.get("model"@) == Some(Tree::Str(s.model))
            &&& tells_status(
                response,
                chat_sse_event_laws::inner(event, "delta"@, "stop_reason"@),
            )
        }),
{
    keys::lemma_words();
    let closed = Turn::from(s).close();
    assert(closed.state.id == s.id && closed.state.model == s.model);
    let response = responses_sse::completed(closed.state, event);
    let payload = map!["response"@ => response];
    let ended = Turn { state: responses_sse::over(closed.state), sent: closed.sent };
    lemma_event("response.completed"@, payload, ended.state.sequence_number);
    let turn = ended.emit("response.completed"@, payload);
    assert(turn == responses_sse::responses_step(s, event, id));
    assert(turn.sent.last().get("response"@) == Some(response));
}

/// A response that failed is told as one, with this error.
pub open spec fn tells_failure(t: Tree, s: ResponsesState, kind: Seq<char>, message: Seq<char>) -> bool {
    &&& chat_sse_event_laws::is_kind(t, "response.failed"@)
    &&& t.get("response"@) matches Some(response)
    &&& response.get("id"@) == Some(Tree::Str(s.id))
    &&& response.get("object"@) == Some(Tree::Str("response"@))
    &&& response.get("model"@) == Some(Tree::Str(s.model))
    &&& response.get("status"@) == Some(Tree::Str("failed"@))
    &&& chat_sse_event_laws::inner(response, "error"@, "type"@) == Some(Tree::Str(kind))
    &&& chat_sse_event_laws::inner(response, "error"@, "message"@) == Some(Tree::Str(message))
}

proof fn lemma_failed(s: ResponsesState, kind: Seq<char>, message: Seq<char>)
    ensures
        ({
            let turn = responses_sse::failed(s, kind, message);
            turn.state.ended && turn.sent.len() == 1 && tells_failure(turn.sent[0], s, kind, message)
        }),
{
    keys::lemma_words();
    let payload = crate::translate::responses_sse_laws::failure_payload(s, kind, message);
    lemma_event("response.failed"@, payload, s.sequence_number);
    assert(responses_sse::failed(s, kind, message).sent[0] == responses_sse::event(
        "response.failed"@,
        payload,
        s.sequence_number,
    ));
}

/// An error of the upstream fails the response, with the upstream's own type and message.
pub proof fn law_error_is_passed_on(
    s: ResponsesState,
    event: Tree,
    id: Seq<char>,
    kind: Seq<char>,
    message: Seq<char>,
)
    requires
        !s.ended,
        chat_sse_event_laws::is_kind(event, "error"@),
        chat_sse_event_laws::inner(event, "error"@, "type"@) == Some(Tree::Str(kind)),
        chat_sse_event_laws::inner(event, "error"@, "message"@) == Some(Tree::Str(message)),
    ensures
        ({
            let turn = responses_sse::responses_step(s, event, id);
            turn.state.ended && turn.sent.len() == 1 && tells_failure(turn.sent[0], s, kind, message)
        }),
{
    keys::lemma_words();
    lemma_failed(s, kind, message);
}

/// A stream that broke off fails the response, and the client is told so.
pub proof fn law_broken_stream_fails(run: Turn)
    requires
        !run.state.ended,
    ensures
        ({
            let sent = responses_sse::finished(run);
            &&& sent.len() == run.sent.len() + 1
            &&& run.sent.is_prefix_of(sent)
            &&& tells_failure(
                sent.last(),
                run.state,
                "api_error"@,
                "upstream connection closed unexpectedly"@,
            )
        }),
{
    lemma_failed(run.state, "api_error"@, "upstream connection closed unexpectedly"@);
}

/// The response is announced twice by the first start of a message, as created and as in
/// progress, with nothing in it yet.
pub proof fn law_response_is_announced(s: ResponsesState, event: Tree, id: Seq<char>)
    requires
        !s.ended,
        chat_sse_event_laws::is_kind(event, "message_start"@),
    ensures
        ({
            let turn = responses_sse::responses_step(s, event, id);
            &&& turn.state.started
            &&& !turn.state.ended
            &&& turn.state.open == s.open
            &&& turn.state.closed == s.closed
            &&& s.pinned ==> turn.state.model == s.model
            &&& !s.pinned ==> (chat_sse_event_laws::inner(
                event,
                "message"@,
                "model"@,
            ) matches Some(Tree::Str(model)) ==> turn.state.model == model)
            &&& s.started ==> turn.sent.len() == 0
            &&& !s.started ==> turn.sent.len() == 2 && chat_sse_event_laws::is_kind(
                turn.sent[0],
                "response.created"@,
            ) && chat_sse_event_laws::is_kind(turn.sent[1], "response.in_progress"@) && forall|i: int|
                0 <= i < 2 ==> is_announced(#[trigger] turn.sent[i], s.id, turn.state.model)
        }),
{
    keys::lemma_words();
    let turn = responses_sse::responses_step(s, event, id);
    if !s.started {
        let noted = ResponsesState { sequence_number: s.sequence_number, ..turn.state };
        let payload = Turn::from(noted).announced();
        lemma_event("response.created"@, payload, s.sequence_number);
        lemma_event("response.in_progress"@, payload, s.sequence_number.wrapping_add(1));
        assert(is_announced(turn.sent[0], s.id, turn.state.model));
        assert(is_announced(turn.sent[1], s.id, turn.state.model));
    }
}

/// The event announces the response.
pub open spec fn is_announced(t: Tree, id: Seq<char>, model: Seq<char>) -> bool {
    &&& t.get("response"@) matches Some(response)
    &&& response.get("id"@) == Some(Tree::Str(id))
    &&& response.get("object"@) == Some(Tree::Str("response"@))
    &&& response.get("model"@) == Some(Tree::Str(model))
    &&& response.get("status"@) == Some(Tree::Str("in_progress"@))
    &&& response.get("output"@) == Some(Tree::Arr(Seq::empty()))
}

/// A piece of text is sent as it came, at once, for the message that is open or that it opens,
/// and the message keeps it.
pub proof fn law_text_is_sent_at_once(s: ResponsesState, event: Tree, id: Seq<char>, text: Seq<char>)
    requires
        !s.ended,
        !(s.open matches Some(Item::FunctionCall { .. })),
        chat_sse_event_laws::is_kind(event, "content_block_delta"@),
        chat_sse_event_laws::inner(event, "delta"@, "type"@) == Some(Tree::Str("text_delta"@)),
        chat_sse_event_laws::inner(event, "delta"@, "text"@) == Some(Tree::Str(text)),
    ensures
        ({
            let turn = responses_sse::responses_step(s, event, id);
            let told = match s.open {
                Some(item) => item->text,
                None => Seq::empty(),
            };
            &&& turn.sent.len() > 0
            &&& chat_sse_event_laws::is_kind(turn.sent.last(), "response.output_text.delta"@)
            &&& turn.sent.last().get("delta"@) == Some(Tree::Str(text))
            &&& turn.state.open matches Some(Item::Message { item_id, output_index, text: kept, .. })
            &&& turn.sent.last().get("item_id"@) == Some(Tree::Str(item_id))
            &&& turn.sent.last().get("output_index"@) == Some(Tree::Int(output_index))
            &&& kept == told + text
            &&& turn.state.closed == s.closed
        }),
{
    keys::lemma_words();
    let turn = responses_sse::responses_step(s, event, id);
    let start = if s.open is None {
        Turn::from(s).open_message(crate::translate::chat_sse::index_of(event), id)
    } else {
        Turn::from(s)
    };
    let item = start.state.open->0;
    let payload = map![
        "delta"@ => Tree::Str(text),
        "item_id"@ => Tree::Str(item->Message_item_id),
        "output_index"@ => Tree::Int(item->Message_output_index),
        "content_index"@ => Tree::Int(0),
    ];
    lemma_event("response.output_text.delta"@, payload, start.state.sequence_number);
    assert(turn.sent.last() == responses_sse::event(
        "response.output_text.delta"@,
        payload,
        start.state.sequence_number,
    ));
}

/// The event adds an item under the next output index.
pub open spec fn adds_item(t: Tree, item: Tree, output_index: int) -> bool {
    &&& chat_sse_event_laws::is_kind(t, "response.output_item.added"@)
    &&& t.get("output_index"@) == Some(Tree::Int(output_index))
    &&& t.get("item"@) == Some(item)
}

/// The start of a tool call adds a function call of the same name, under the id that the
/// client answers it by, with no arguments yet; what was open before is closed.
pub proof fn law_call_is_added(
    s: ResponsesState,
    event: Tree,
    id: Seq<char>,
    call_id: Seq<char>,
    name: Seq<char>,
)
    requires
        !s.ended,
        chat_sse_event_laws::is_kind(event, "content_block_start"@),
        chat_sse_event_laws::inner(event, "content_block"@, "type"@) == Some(
            Tree::Str("tool_use"@),
        ),
        chat_sse_event_laws::inner(event, "content_block"@, "id"@) == Some(Tree::Str(call_id)),
        chat_sse_event_laws::inner(event, "content_block"@, "name"@) == Some(Tree::Str(name)),
    ensures
        ({
            let turn = responses_sse::responses_step(s, event, id);
            &&& turn.sent.len() > 0
            &&& turn.sent.last().get("item"@) matches Some(item)
            &&& adds_item(turn.sent.last(), item, turn.state.closed.len() as int)
            &&& item.get("type"@) == Some(Tree::Str("function_call"@))
            &&& item.get("call_id"@) == Some(Tree::Str(call_id))
            &&& item.get("name"@) == Some(Tree::Str(name))
            &&& item.get("arguments"@) == Some(Tree::Str(""@))
            &&& item.get("status"@) == Some(Tree::Str("in_progress"@))
            &&& turn.state.closed.len() == s.closed.len() + (if s.open is Some {
                1int
            } else {
                0
            })
        }),
{
    keys::lemma_words();
    let turn = responses_sse::responses_step(s, event, id);
    let closed = Turn::from(s).close();
    let item = crate::translate::responses::call_item(
        "fc_"@ + id,
        call_id,
        name,
        ""@,
        "in_progress"@,
    );
    let payload = map![
        "output_index"@ => Tree::Int(closed.state.closed.len() as int),
        "item"@ => item,
    ];
    lemma_event("response.output_item.added"@, payload, closed.state.sequence_number);
    assert(turn.sent.last() == responses_sse::event(
        "response.output_item.added"@,
        payload,
        closed.state.sequence_number,
    ));
    assert(turn.sent.last().get("item"@) == Some(item));
}

/// The start of a text adds a message of the assistant with nothing in it yet, and then its
/// only part; what was open before is closed.
pub proof fn law_message_is_added(s: ResponsesState, event: Tree, id: Seq<char>)
    requires
        !s.ended,
        chat_sse_event_laws::is_kind(event, "content_block_start"@),
        chat_sse_event_laws::inner(event, "content_block"@, "type"@) == Some(Tree::Str("text"@)),
    ensures
        ({
            let turn = responses_sse::responses_step(s, event, id);
            let n = turn.sent.len();
            &&& n >= 2
            &&& turn.sent[n - 2].get("item"@) matches Some(item)
            &&& adds_item(turn.sent[n - 2], item, turn.state.closed.len() as int)
            &&& item.get("type"@) == Some(Tree::Str("message"@))
            &&& item.get("role"@) == Some(Tree::Str("assistant"@))
            &&& item.get("content"@) == Some(Tree::Arr(Seq::empty()))
            &&& item.get("status"@) == Some(Tree::Str("in_progress"@))
            &&& chat_sse_event_laws::is_kind(turn.sent[n - 1], "response.content_part.added"@)
            &&& chat_sse_event_laws::inner(turn.sent[n - 1], "part"@, "text"@) == Some(
                Tree::Str(""@),
            )
            &&& turn.sent[n - 1].get("item_id"@) == item.get("id"@)
            &&& turn.state.open matches Some(Item::Message { text, .. })
            &&& text.len() == 0
        }),
{
    keys::lemma_words();
    let turn = responses_sse::responses_step(s, event, id);
    let n = turn.sent.len();
    let closed = Turn::from(s).close();
    let output_index = closed.state.closed.len() as int;
    let item = Tree::Obj(
        map![
            "type"@ => Tree::Str("message"@),
            "id"@ => Tree::Str("msg_"@ + id),
            "role"@ => Tree::Str("assistant"@),
            "content"@ => Tree::Arr(Seq::empty()),
            "status"@ => Tree::Str("in_progress"@),
        ],
    );
    let first = map!["output_index"@ => Tree::Int(output_index), "item"@ => item];
    let second = map![
        "item_id"@ => Tree::Str("msg_"@ + id),
        "output_index"@ => Tree::Int(output_index),
        "content_index"@ => Tree::Int(0),
        "part"@ => crate::translate::responses::output_text(""@),
    ];
    let number = closed.state.sequence_number;
    lemma_event("response.output_item.added"@, first, number);
    lemma_event("response.content_part.added"@, second, number.wrapping_add(1));
    assert(turn.sent[n - 2] == responses_sse::event("response.output_item.added"@, first, number));
    assert(turn.sent[n - 1] == responses_sse::event(
        "response.content_part.added"@,
        second,
        number.wrapping_add(1),
    ));
    assert(turn.sent[n - 2].get("item"@) == Some(item));
}

/// A piece of arguments is sent as it came, at once, for the call that is open at its block,
/// and the call keeps it; for any other block it is dropped.
pub proof fn law_arguments_are_sent_at_once(
    s: ResponsesState,
    event: Tree,
    id: Seq<char>,
    part: Seq<char>,
    block: u64,
)
    requires
        !s.ended,
        chat_sse_event_laws::is_kind(event, "content_block_delta"@),
        chat_sse_event_laws::inner(event, "delta"@, "type"@) == Some(
            Tree::Str("input_json_delta"@),
        ),
        chat_sse_event_laws::inner(event, "delta"@, "partial_json"@) == Some(Tree::Str(part)),
        event.get("index"@) == Some(Tree::Int(block as int)),
    ensures
        ({
            let turn = responses_sse::responses_step(s, event, id);
            match s.open {
                Some(
                    Item::FunctionCall {
                        item_id,
                        output_index,
                        content_index,
                        call_id,
                        name,
                        arguments,
                    },
                ) if content_index == block => {
                    &&& turn.sent.len() == 1
                    &&& chat_sse_event_laws::is_kind(
                        turn.sent[0],
                        "response.function_call_arguments.delta"@,
                    )
                    &&& turn.sent[0].get("delta"@) == Some(Tree::Str(part))
                    &&& turn.sent[0].get("item_id"@) == Some(Tree::Str(item_id))
                    &&& turn.sent[0].get("output_index"@) == Some(Tree::Int(output_index))
                    &&& turn.state.open == Some(
                        Item::FunctionCall {
                            item_id,
                            output_index,
                            content_index,
                            call_id,
                            name,
                            arguments: arguments + part,
                        },
                    )
                },
                _ => turn.sent.len() == 0 && turn.state == s,
            }
        }),
{
    keys::lemma_words();
    assert(crate::translate::chat_sse::index_of(event) == block);
    if let Some(Item::FunctionCall { item_id, output_index, content_index, .. }) = s.open {
        let payload = map![
            "item_id"@ => Tree::Str(item_id),
            "output_index"@ => Tree::Int(output_index),
            "delta"@ => Tree::Str(part),
        ];
        lemma_event("response.function_call_arguments.delta"@, payload, s.sequence_number);
        let turn = responses_sse::responses_step(s, event, id);
        if content_index == block {
            assert(turn.sent[0] == responses_sse::event(
                "response.function_call_arguments.delta"@,
                payload,
                s.sequence_number,
            ));
        }
    }
}

/// The end of a block closes the item that is open at it, which is reported as done with all
/// that it gathered; the end of any other block is no matter.
pub proof fn law_item_is_done(s: ResponsesState, event: Tree, id: Seq<char>, block: u64)
    requires
        !s.ended,
        chat_sse_event_laws::is_kind(event, "content_block_stop"@),
        event.get("index"@) == Some(Tree::Int(block as int)),
    ensures
        ({
            let turn = responses_sse::responses_step(s, event, id);
            match s.open {
                Some(Item::Message { item_id, output_index, content_index, text }) if content_index
                    == block => {
                    &&& turn.state.open is None
                    &&& turn.sent.len() == 3
                    &&& chat_sse_event_laws::is_kind(turn.sent[0], "response.output_text.done"@)
                    &&& turn.sent[0].get("text"@) == Some(Tree::Str(text))
                    &&& chat_sse_event_laws::is_kind(turn.sent[1], "response.content_part.done"@)
                    &&& chat_sse_event_laws::inner(turn.sent[1], "part"@, "text"@) == Some(
                        Tree::Str(text),
                    )
                    &&& chat_sse_event_laws::is_kind(turn.sent[2], "response.output_item.done"@)
                    &&& turn.sent[2].get("output_index"@) == Some(Tree::Int(output_index))
                    &&& turn.sent[2].get("item"@) matches Some(item)
                    &&& turn.state.closed == s.closed.push(item)
                    &&& item.get("type"@) == Some(Tree::Str("message"@))
                    &&& item.get("id"@) == Some(Tree::Str(item_id))
                    &&& item.get("role"@) == Some(Tree::Str("assistant"@))
                    &&& item.get("status"@) == Some(Tree::Str("completed"@))
                    &&& item.get("content"@) matches Some(Tree::Arr(parts))
                    &&& parts.len() == 1
                    &&& parts[0].get("type"@) == Some(Tree::Str("output_text"@))
                    &&& parts[0].get("text"@) == Some(Tree::Str(text))
                },
                Some(
                    Item::FunctionCall {
                        item_id,
                        output_index,
                        content_index,
                        call_id,
                        name,
                        arguments,
                    },
                ) if content_index == block => {
                    &&& turn.state.open is None
                    &&& turn.sent.len() == 2
                    &&& chat_sse_event_laws::is_kind(
                        turn.sent[0],
                        "response.function_call_arguments.done"@,
                    )
                    &&& chat_sse_event_laws::is_kind(turn.sent[1], "response.output_item.done"@)
                    &&& turn.sent[1].get("output_index"@) == Some(Tree::Int(output_index))
                    &&& turn.sent[1].get("item"@) matches Some(item)
                    &&& turn.state.closed == s.closed.push(item)
                    &&& item.get("type"@) == Some(Tree::Str("function_call"@))
                    &&& item.get("id"@) == Some(Tree::Str(item_id))
                    &&& item.get("call_id"@) == Some(Tree::Str(call_id))
                    &&& item.get("name"@) == Some(Tree::Str(name))
                    &&& item.get("status"@) == Some(Tree::Str("completed"@))
                    &&& item.get("arguments"@) == turn.sent[0].get("arguments"@)
                    &&& responses_sse::reads_as_object(arguments) && crate::text::trimmed(
                        arguments,
                    ).len() > 0 ==> item.get("arguments"@) == Some(Tree::Str(arguments))
                },
                _ => turn.sent.len() == 0 && turn.state == s,
            }
        }),
{
    keys::lemma_words();
    assert(crate::translate::chat_sse::index_of(event) == block);
    let turn = responses_sse::responses_step(s, event, id);
    let number = s.sequence_number;
    match s.open {
        None => {},
        Some(Item::Message { item_id, output_index, content_index, text }) => {
            let item = crate::translate::responses::message_item(item_id, "completed"@, text);
            let done = map![
                "item_id"@ => Tree::Str(item_id),
                "output_index"@ => Tree::Int(output_index),
                "content_index"@ => Tree::Int(0),
                "text"@ => Tree::Str(text),
            ];
            let part = map![
                "item_id"@ => Tree::Str(item_id),
                "output_index"@ => Tree::Int(output_index),
                "content_index"@ => Tree::Int(0),
                "part"@ => crate::translate::responses::output_text(text),
            ];
            let last = map!["output_index"@ => Tree::Int(output_index), "item"@ => item];
            lemma_event("response.output_text.done"@, done, number);
            lemma_event("response.content_part.done"@, part, number.wrapping_add(1));
            lemma_event(
                "response.output_item.done"@,
                last,
                number.wrapping_add(1).wrapping_add(1),
            );
            if content_index == block {
                assert(turn.sent[2].get("item"@) == Some(item));
            }
        },
        Some(
            Item::FunctionCall { item_id, output_index, content_index, call_id, name, arguments },
        ) => {
            let settled = responses_sse::settled_arguments(arguments);
            let item = crate::translate::responses::call_item(
                item_id,
                call_id,
                name,
                settled,
                "completed"@,
            );
            let done = map![
                "item_id"@ => Tree::Str(item_id),
                "output_index"@ => Tree::Int(output_index),
                "arguments"@ => Tree::Str(settled),
            ];
            let last = map!["output_index"@ => Tree::Int(output_index), "item"@ => item];
            lemma_event("response.function_call_arguments.done"@, done, number);
            lemma_event("response.output_item.done"@, last, number.wrapping_add(1));
            if content_index == block {
                assert(turn.sent[1].get("item"@) == Some(item));
            }
        },
    }
}

} // verus!
