//! What holds of the output items of every Responses stream.

use vstd::prelude::*;

use crate::json;
use crate::json::Tree;
use crate::translate;
use crate::translate::chat_sse;
use crate::translate::chat_sse_laws;
use crate::translate::responses;
use crate::translate::responses_sse;
use crate::translate::responses_sse::{Item, ResponsesState, Turn};
use crate::translate::responses_sse_laws;

verus! {

/// The item that an event reports as done, with its output index.
pub open spec fn done_item(t: Tree) -> Option<(int, Tree)> {
    if json::str_in(t.get("type"@)) == Some("response.output_item.done"@) {
        match (t.get("output_index"@), t.get("item"@)) {
            (Some(Tree::Int(n)), Some(item)) => Some((n, item)),
            _ => None,
        }
    } else {
        None
    }
}

/// The event speaks of the first content part alone, and an item that it reports as
/// done has no other.
pub open spec fn one_part(t: Tree) -> bool {
    &&& t.get("content_index"@) matches Some(n) ==> n == Tree::Int(0)
    &&& done_item(t) matches Some((n, item)) ==> (item.get("content"@) matches Some(parts)
        ==> parts matches Tree::Arr(list) && list.len() == 1)
}

/// An item that the event reports as done stands at its index among these.
pub open spec fn has_place(t: Tree, output: Seq<Tree>) -> bool {
    done_item(t) matches Some((n, item)) ==> 0 <= n < output.len() && output[n] == item
}

/// All the events are in order with these items.
pub open spec fn all_placed(sent: Seq<Tree>, output: Seq<Tree>) -> bool {
    forall|i: int|
        0 <= i < sent.len() ==> one_part(#[trigger] sent[i]) && has_place(sent[i], output)
}

/// The open item comes next after those closed.
pub open spec fn is_next(s: ResponsesState) -> bool {
    match s.open {
        Some(Item::Message { output_index, .. }) => output_index == s.closed.len(),
        Some(Item::FunctionCall { output_index, .. }) => output_index == s.closed.len(),
        None => true,
    }
}

/// The items that a terminal event carries.
pub open spec fn terminal_output(t: Tree) -> Seq<Tree> {
    match json::get_in(t.get("response"@), "output"@) {
        Some(Tree::Arr(items)) => items,
        _ => Seq::empty(),
    }
}

/// The items of a stream: those closed so far, or those of its terminal event.
pub open spec fn output_of(turn: Turn) -> Seq<Tree> {
    if turn.state.ended {
        terminal_output(turn.sent.last())
    } else {
        turn.state.closed
    }
}

/// Nothing is lost of the items before, and all that was sent is in order.
pub open spec fn tidy(turn: Turn, before: Seq<Tree>) -> bool {
    &&& !turn.state.ended ==> is_next(turn.state)
    &&& before.is_prefix_of(output_of(turn))
    &&& all_placed(turn.sent, output_of(turn))
}

pub proof fn lemma_keys()
    ensures
        "content_index"@ != "type"@,
        "content_index"@ != "sequence_number"@,
        "content_index"@ != "output_index"@,
        "content_index"@ != "item"@,
        "content_index"@ != "item_id"@,
        "content_index"@ != "response"@,
        "content_index"@ != "delta"@,
        "content_index"@ != "text"@,
        "content_index"@ != "part"@,
        "content_index"@ != "arguments"@,
        "output_index"@ != "type"@,
        "output_index"@ != "sequence_number"@,
        "output_index"@ != "item"@,
        "item"@ != "type"@,
        "item"@ != "sequence_number"@,
        "response"@ != "type"@,
        "response"@ != "sequence_number"@,
        "content"@ != "type"@,
        "content"@ != "id"@,
        "content"@ != "call_id"@,
        "content"@ != "role"@,
        "content"@ != "status"@,
        "content"@ != "name"@,
        "content"@ != "arguments"@,
        "output"@ != "usage"@,
        "output"@ != "incomplete_details"@,
        "output"@ != "error"@,
{
    reveal_strlit("content_index");
    reveal_strlit("type");
    reveal_strlit("sequence_number");
    reveal_strlit("output_index");
    reveal_strlit("item");
    reveal_strlit("item_id");
    reveal_strlit("response");
    reveal_strlit("delta");
    reveal_strlit("text");
    reveal_strlit("part");
    reveal_strlit("arguments");
    reveal_strlit("content");
    reveal_strlit("id");
    reveal_strlit("call_id");
    reveal_strlit("role");
    reveal_strlit("status");
    reveal_strlit("name");
    reveal_strlit("output");
    reveal_strlit("usage");
    reveal_strlit("incomplete_details");
    reveal_strlit("error");
    assert("content_index"@.len() == 13);
    assert("type"@.len() == 4);
    assert("sequence_number"@.len() == 15);
    assert("output_index"@.len() == 12);
    assert("item"@.len() == 4);
    assert("item_id"@.len() == 7);
    assert("response"@.len() == 8);
    assert("delta"@.len() == 5);
    assert("text"@.len() == 4);
    assert("part"@.len() == 4);
    assert("arguments"@.len() == 9);
    assert("content"@.len() == 7);
    assert("id"@.len() == 2);
    assert("call_id"@.len() == 7);
    assert("role"@.len() == 4);
    assert("status"@.len() == 6);
    assert("name"@.len() == 4);
    assert("output"@.len() == 6);
    assert("usage"@.len() == 5);
    assert("incomplete_details"@.len() == 18);
    assert("error"@.len() == 5);
    assert("item"@[0] != "type"@[0]);
    assert("content"@[1] != "call_id"@[1]);
}

proof fn lemma_done_kind()
    ensures
        "response.output_item.done"@ != "response.created"@,
        "response.output_item.done"@ != "response.in_progress"@,
        "response.output_item.done"@ != "response.output_item.added"@,
        "response.output_item.done"@ != "response.content_part.added"@,
        "response.output_item.done"@ != "response.output_text.delta"@,
        "response.output_item.done"@ != "response.output_text.done"@,
        "response.output_item.done"@ != "response.content_part.done"@,
        "response.output_item.done"@ != "response.function_call_arguments.delta"@,
        "response.output_item.done"@ != "response.function_call_arguments.done"@,
        "response.output_item.done"@ != "response.completed"@,
        "response.output_item.done"@ != "response.failed"@,
{
    reveal_strlit("response.output_item.done");
    reveal_strlit("response.created");
    reveal_strlit("response.in_progress");
    reveal_strlit("response.output_item.added");
    reveal_strlit("response.content_part.added");
    reveal_strlit("response.output_text.delta");
    reveal_strlit("response.output_text.done");
    reveal_strlit("response.content_part.done");
    reveal_strlit("response.function_call_arguments.delta");
    reveal_strlit("response.function_call_arguments.done");
    reveal_strlit("response.completed");
    reveal_strlit("response.failed");
    assert("response.output_item.done"@.len() == 25);
    assert("response.output_text.done"@.len() == 25);
    assert("response.output_item.done"@[16] != "response.output_text.done"@[16]);
    assert("response.created"@.len() == 16);
    assert("response.in_progress"@.len() == 20);
    assert("response.output_item.added"@.len() == 26);
    assert("response.content_part.added"@.len() == 27);
    assert("response.output_text.delta"@.len() == 26);
    assert("response.content_part.done"@.len() == 26);
    assert("response.function_call_arguments.delta"@.len() == 38);
    assert("response.function_call_arguments.done"@.len() == 37);
    assert("response.completed"@.len() == 18);
    assert("response.failed"@.len() == 15);
}

/// An event that reports no item as done keeps everything in order.
proof fn lemma_emit_placed()
    ensures
        forall|turn: Turn, kind: Seq<char>, payload: Map<Seq<char>, Tree>, output: Seq<Tree>|
            #![trigger all_placed(turn.emit(kind, payload).sent, output)]
            all_placed(turn.sent, output) && kind != "response.output_item.done"@ && (
            Tree::Obj(payload).get("content_index"@) matches Some(n) ==> n == Tree::Int(0))
                ==> all_placed(turn.emit(kind, payload).sent, output),
{
    lemma_keys();
    assert forall|turn: Turn, kind: Seq<char>, payload: Map<Seq<char>, Tree>, output: Seq<Tree>|
        #![trigger all_placed(turn.emit(kind, payload).sent, output)]
        all_placed(turn.sent, output) && kind != "response.output_item.done"@ && (
        Tree::Obj(payload).get("content_index"@) matches Some(n) ==> n == Tree::Int(0))
            implies all_placed(turn.emit(kind, payload).sent, output) by {
        responses_sse_laws::lemma_event_fields(kind, payload, turn.state.sequence_number);
        let after = turn.emit(kind, payload);
        assert forall|i: int| 0 <= i < after.sent.len() implies one_part(#[trigger] after.sent[i])
            && has_place(after.sent[i], output) by {
            if i < turn.sent.len() {
                assert(after.sent[i] == turn.sent[i]);
            }
        }
    }
}

/// An item that is reported as done and takes the next place keeps everything in order.
proof fn lemma_item_done_placed(turn: Turn, item: Tree)
    requires
        all_placed(turn.sent, turn.state.closed),
        item.get("content"@) matches Some(parts) ==> parts matches Tree::Arr(list) && list.len() == 1,
    ensures
        all_placed(
            turn.item_done(turn.state.closed.len() as int, item).sent,
            turn.state.closed.push(item),
        ),
{
    lemma_keys();
    let n = turn.state.closed.len() as int;
    let payload = map!["output_index"@ => Tree::Int(n), "item"@ => item];
    responses_sse_laws::lemma_event_fields(
        "response.output_item.done"@,
        payload,
        turn.state.sequence_number,
    );
    let after = turn.item_done(n, item);
    let output = turn.state.closed.push(item);
    assert forall|i: int| 0 <= i < after.sent.len() implies one_part(#[trigger] after.sent[i])
        && has_place(after.sent[i], output) by {
        if i < turn.sent.len() {
            assert(after.sent[i] == turn.sent[i]);
            assert(has_place(turn.sent[i], turn.state.closed));
        } else {
            assert(done_item(after.sent[i]) == Some((n, item)));
        }
    }
}

proof fn lemma_close_tidy(turn: Turn, before: Seq<Tree>)
    requires
        !turn.state.ended,
        tidy(turn, before),
    ensures
        !turn.close().state.ended,
        turn.close().state.open is None,
        tidy(turn.close(), before),
{
    lemma_keys();
    lemma_done_kind();
    let closed = turn.state.closed;
    match turn.state.open {
        None => {},
        Some(Item::Message { item_id, output_index, content_index, text }) => {
            let item = responses::message_item(item_id, "completed"@, text);
            let done = map![
                "item_id"@ => Tree::Str(item_id),
                "output_index"@ => Tree::Int(output_index),
                "content_index"@ => Tree::Int(0),
                "text"@ => Tree::Str(text),
            ];
            let part = map![
                "item_id"@ => Tree::Str(item_id),
                "output_index"@ => Tree::Int(output_index),
                "content_index"@ => Tree::Int(0),
                "part"@ => responses::output_text(text),
            ];
            lemma_emit_placed();
            let one = turn.emit("response.output_text.done"@, done);
            assert(all_placed(one.sent, closed));
            let two = one.emit("response.content_part.done"@, part);
            assert(all_placed(two.sent, closed));
            assert(item.get("content"@) == Some(Tree::Arr(seq![responses::output_text(text)])));
            lemma_item_done_placed(two, item);
            assert(turn.close() == two.item_done(output_index, item).settled(item));
        },
        Some(
            Item::FunctionCall { item_id, output_index, content_index, call_id, name, arguments },
        ) => {
            let settled = responses_sse::settled_arguments(arguments);
            let item = responses::call_item(item_id, call_id, name, settled, "completed"@);
            let done = map![
                "item_id"@ => Tree::Str(item_id),
                "output_index"@ => Tree::Int(output_index),
                "arguments"@ => Tree::Str(settled),
            ];
            lemma_emit_placed();
            let one = turn.emit("response.function_call_arguments.done"@, done);
            assert(all_placed(one.sent, closed));
            assert(item.get("content"@) is None);
            lemma_item_done_placed(one, item);
            assert(turn.close() == one.item_done(output_index, item).settled(item));
        },
    }
}

proof fn lemma_open_tidy(turn: Turn, before: Seq<Tree>, at: u64, id: Seq<char>)
    requires
        !turn.state.ended,
        turn.state.open is None,
        tidy(turn, before),
    ensures
        !turn.open_message(at, id).state.ended,
        tidy(turn.open_message(at, id), before),
{
    lemma_keys();
    lemma_done_kind();
    lemma_emit_placed();
    let closed = turn.state.closed;
    let item_id = "msg_"@ + id;
    let output_index = closed.len() as int;
    let first = map![
        "output_index"@ => Tree::Int(output_index),
        "item"@ => Tree::Obj(
            map![
                "type"@ => Tree::Str("message"@),
                "id"@ => Tree::Str(item_id),
                "role"@ => Tree::Str("assistant"@),
                "content"@ => Tree::Arr(Seq::empty()),
                "status"@ => Tree::Str("in_progress"@),
            ],
        ),
    ];
    let second = map![
        "item_id"@ => Tree::Str(item_id),
        "output_index"@ => Tree::Int(output_index),
        "content_index"@ => Tree::Int(0),
        "part"@ => responses::output_text(""@),
    ];
    let one = turn.emit("response.output_item.added"@, first);
    assert(all_placed(one.sent, closed));
    let two = one.emit("response.content_part.added"@, second);
    assert(all_placed(two.sent, closed));
    assert(turn.open_message(at, id).sent == two.sent);
}

proof fn lemma_open_call_tidy(
    turn: Turn,
    before: Seq<Tree>,
    at: u64,
    call_id: Seq<char>,
    name: Seq<char>,
    id: Seq<char>,
)
    requires
        !turn.state.ended,
        turn.state.open is None,
        tidy(turn, before),
    ensures
        !turn.open_function_call(at, call_id, name, id).state.ended,
        tidy(turn.open_function_call(at, call_id, name, id), before),
{
    lemma_keys();
    lemma_done_kind();
    lemma_emit_placed();
    let closed = turn.state.closed;
    let item = responses::call_item("fc_"@ + id, call_id, name, ""@, "in_progress"@);
    let first = map!["output_index"@ => Tree::Int(closed.len() as int), "item"@ => item];
    let one = turn.emit("response.output_item.added"@, first);
    assert(all_placed(one.sent, closed));
    assert(turn.open_function_call(at, call_id, name, id).sent == one.sent);
}

proof fn lemma_text_delta_tidy(s: ResponsesState, e: Tree, id: Seq<char>)
    requires
        !s.ended,
        is_next(s),
    ensures
        !responses_sse::on_text_delta(s, e, id).state.ended,
        tidy(responses_sse::on_text_delta(s, e, id), s.closed),
{
    lemma_keys();
    lemma_done_kind();
    lemma_emit_placed();
    let start = Turn::from(s);
    assert(tidy(start, s.closed));
    let at = chat_sse::index_of(e);
    let said = chat_sse::text_in(e.get("delta"@), "text"@);
    let turn = if s.open is None {
        lemma_open_tidy(start, s.closed, at, id);
        start.open_message(at, id)
    } else {
        start
    };
    match turn.state.open {
        Some(Item::Message { item_id, output_index, content_index, text }) => {
            let state = ResponsesState {
                open: Some(
                    Item::Message { item_id, output_index, content_index, text: text + said },
                ),
                ..turn.state
            };
            let payload = map![
                "delta"@ => Tree::Str(said),
                "item_id"@ => Tree::Str(item_id),
                "output_index"@ => Tree::Int(output_index),
                "content_index"@ => Tree::Int(0),
            ];
            let noted = Turn { state, sent: turn.sent };
            let after = noted.emit("response.output_text.delta"@, payload);
            assert(all_placed(after.sent, turn.state.closed));
            assert(after == responses_sse::on_text_delta(s, e, id));
        },
        _ => {},
    }
}

proof fn lemma_arguments_delta_tidy(s: ResponsesState, e: Tree)
    requires
        !s.ended,
        is_next(s),
    ensures
        !responses_sse::on_arguments_delta(s, e).state.ended,
        tidy(responses_sse::on_arguments_delta(s, e), s.closed),
{
    lemma_keys();
    lemma_done_kind();
    lemma_emit_placed();
    let part = chat_sse::text_in(e.get("delta"@), "partial_json"@);
    match s.open {
        Some(
            Item::FunctionCall { item_id, output_index, content_index, call_id, name, arguments },
        ) => {
            let state = ResponsesState {
                open: Some(
                    Item::FunctionCall {
                        item_id,
                        output_index,
                        content_index,
                        call_id,
                        name,
                        arguments: arguments + part,
                    },
                ),
                ..s
            };
            let payload = map![
                "item_id"@ => Tree::Str(item_id),
                "output_index"@ => Tree::Int(output_index),
                "delta"@ => Tree::Str(part),
            ];
            let after = Turn::from(state).emit("response.function_call_arguments.delta"@, payload);
            assert(all_placed(after.sent, s.closed));
        },
        _ => {},
    }
}

proof fn lemma_start_tidy(s: ResponsesState, e: Tree)
    requires
        !s.ended,
        is_next(s),
    ensures
        !responses_sse::on_message_start(s, e).state.ended,
        tidy(responses_sse::on_message_start(s, e), s.closed),
{
    lemma_keys();
    lemma_done_kind();
    lemma_emit_placed();
    let after = responses_sse::on_message_start(s, e);
    if !s.started {
        let noted = ResponsesState { sequence_number: s.sequence_number, ..after.state };
        let turn = Turn::from(noted);
        let one = turn.emit("response.created"@, turn.announced());
        assert(all_placed(one.sent, s.closed));
        let two = one.emit("response.in_progress"@, turn.announced());
        assert(all_placed(two.sent, s.closed));
        assert(after == two);
    }
}

proof fn lemma_end_tidy(s: ResponsesState, e: Tree)
    requires
        !s.ended,
        is_next(s),
    ensures
        tidy(responses_sse::on_message_delta(s, e), s.closed),
{
    lemma_keys();
    lemma_done_kind();
    lemma_emit_placed();
    assert(tidy(Turn::from(s), s.closed));
    lemma_close_tidy(Turn::from(s), s.closed);
    let turn = Turn::from(s).close();
    let output = turn.state.closed;
    let payload = map!["response"@ => responses_sse::completed(turn.state, e)];
    let ended = Turn { state: responses_sse::over(turn.state), sent: turn.sent };
    let after = ended.emit("response.completed"@, payload);
    assert(all_placed(after.sent, output));
    assert(after == responses_sse::on_message_delta(s, e));
    assert(after.sent.last().get("response"@) == Some(responses_sse::completed(turn.state, e)));
    assert(terminal_output(after.sent.last()) == output);
}

proof fn lemma_failed_tidy(s: ResponsesState, error_type: Seq<char>, message: Seq<char>)
    requires
        !s.ended,
        is_next(s),
    ensures
        tidy(responses_sse::failed(s, error_type, message), s.closed),
{
    lemma_keys();
    lemma_done_kind();
    lemma_emit_placed();
    let output = responses_sse::with_unfinished(s);
    let payload = responses_sse_laws::failure_payload(s, error_type, message);
    let turn = Turn::from(ResponsesState { open: None, ..responses_sse::over(s) });
    let after = turn.emit("response.failed"@, payload);
    assert(all_placed(after.sent, output));
    assert(after == responses_sse::failed(s, error_type, message));
    assert(terminal_output(after.sent.last()) == output);
}

proof fn lemma_step_tidy(s: ResponsesState, e: Tree, id: Seq<char>)
    requires
        !s.ended,
        is_next(s),
    ensures
        tidy(responses_sse::responses_step(s, e, id), s.closed),
{
    let start = Turn::from(s);
    assert(tidy(start, s.closed));
    lemma_start_tidy(s, e);
    lemma_text_delta_tidy(s, e, id);
    lemma_arguments_delta_tidy(s, e);
    lemma_end_tidy(s, e);
    lemma_failed_tidy(s, chat_sse::error_type_of(e), chat_sse::error_message_of(e));
    lemma_close_tidy(start, s.closed);
    let at = chat_sse::index_of(e);
    let block = e.get("content_block"@);
    lemma_open_tidy(start.close(), s.closed, at, id);
    lemma_open_call_tidy(
        start.close(),
        s.closed,
        at,
        chat_sse::text_in(block, "id"@),
        chat_sse::text_in(block, "name"@),
        id,
    );
}

proof fn lemma_tidy_concat(before: Turn, step: Turn, base: Seq<Tree>)
    requires
        !before.state.ended,
        tidy(before, base),
        tidy(step, before.state.closed),
        step.state.ended ==> step.sent.len() > 0,
    ensures
        tidy(Turn { state: step.state, sent: before.sent + step.sent }, base),
{
    let both = Turn { state: step.state, sent: before.sent + step.sent };
    if step.state.ended {
        assert(both.sent.last() == step.sent.last());
    }
    let output = output_of(both);
    assert(output == output_of(step));
    assert forall|i: int| 0 <= i < both.sent.len() implies one_part(#[trigger] both.sent[i])
        && has_place(both.sent[i], output) by {
        if i < before.sent.len() {
            assert(both.sent[i] == before.sent[i]);
            assert(has_place(before.sent[i], before.state.closed));
        } else {
            assert(both.sent[i] == step.sent[i - before.sent.len()]);
        }
    }
}

proof fn lemma_run_tidy(s: ResponsesState, events: Seq<Tree>, ids: Seq<Seq<char>>)
    requires
        !s.ended,
        s.open is None,
    ensures
        tidy(responses_sse::responses_run(s, events, ids), s.closed),
    decreases events.len(),
{
    if events.len() > 0 {
        lemma_run_tidy(s, events.drop_last(), ids);
        let before = responses_sse::responses_run(s, events.drop_last(), ids);
        let id = ids[events.len() - 1];
        let step = responses_sse::responses_step(before.state, events.last(), id);
        if before.state.ended {
            assert(before.sent + step.sent =~= before.sent);
        } else {
            lemma_step_tidy(before.state, events.last(), id);
            lemma_tidy_concat(before, step, s.closed);
        }
    }
}

/// Every item has one content part: the `content_index` of an event is always zero, and
/// a message that is reported as done holds one part.
pub proof fn law_items_have_one_part(s: ResponsesState, events: Seq<Tree>, ids: Seq<Seq<char>>)
    requires
        !s.ended,
        s.open is None,
    ensures
        forall|i: int|
            0 <= i < responses_sse::responses_run(s, events, ids).sent.len() ==> one_part(
                #[trigger] responses_sse::responses_run(s, events, ids).sent[i],
            ),
{
    lemma_run_tidy(s, events, ids);
}

/// Every item that was reported as done stands at its `output_index` among the items of
/// the stream, and at the end among those of the terminal event.
pub proof fn law_done_items_keep_their_place(
    s: ResponsesState,
    events: Seq<Tree>,
    ids: Seq<Seq<char>>,
)
    requires
        !s.ended,
        s.open is None,
    ensures
        ({
            let run = responses_sse::responses_run(s, events, ids);
            forall|i: int|
                0 <= i < run.sent.len() ==> has_place(#[trigger] run.sent[i], output_of(run))
        }),
{
    lemma_run_tidy(s, events, ids);
}

/// Only text and tool calls are passed on: where no item is open, the start of any other
/// block, such as one of thinking, changes nothing and sends nothing; nor does a delta of
/// any other kind.
pub proof fn law_other_blocks_are_silent(s: ResponsesState, e: Tree, id: Seq<char>)
    requires
        ({
            let kind = json::str_in(e.get("type"@));
            let block = json::str_in(json::get_in(e.get("content_block"@), "type"@));
            let delta = json::str_in(json::get_in(e.get("delta"@), "type"@));
            ||| kind == Some("content_block_start"@) && s.open is None && block != Some("text"@)
                && block != Some("tool_use"@)
            ||| kind == Some("content_block_delta"@) && delta != Some("text_delta"@) && delta
                != Some("input_json_delta"@)
        }),
    ensures
        responses_sse::responses_step(s, e, id) == Turn::from(s),
{
    chat_sse::lemma_kinds();
}

/// The event is a piece of text.
pub open spec fn is_text_event(e: Tree) -> bool {
    json::str_in(e.get("type"@)) == Some("content_block_delta"@) && json::str_in(
        json::get_in(e.get("delta"@), "type"@),
    ) == Some("text_delta"@)
}

/// A message gathers the pieces of text that come while it is open, one event being sent
/// for each: it is closed with the text that was streamed.
pub proof fn law_text_is_gathered(s: ResponsesState, events: Seq<Tree>, ids: Seq<Seq<char>>)
    requires
        !s.ended,
        s.open matches Some(Item::Message { .. }),
        forall|i: int| 0 <= i < events.len() ==> is_text_event(#[trigger] events[i]),
    ensures
        ({
            let run = responses_sse::responses_run(s, events, ids);
            let item = s.open->0;
            &&& run.sent.len() == events.len()
            &&& run.state.open == Some(
                Item::Message {
                    item_id: item->Message_item_id,
                    output_index: item->Message_output_index,
                    content_index: item->Message_content_index,
                    text: item->text + chat_sse_laws::text_of_events(events),
                },
            )
            &&& !run.state.ended
        }),
    decreases events.len(),
{
    chat_sse::lemma_kinds();
    let item = s.open->0;
    if events.len() == 0 {
        assert(item->text + chat_sse_laws::text_of_events(events) =~= item->text);
    } else {
        let fewer = events.drop_last();
        assert forall|i: int| 0 <= i < fewer.len() implies is_text_event(#[trigger] fewer[i]) by {
            assert(fewer[i] == events[i]);
        }
        law_text_is_gathered(s, fewer, ids);
        assert(is_text_event(events[events.len() - 1]));
        let told = chat_sse_laws::text_of_events(fewer);
        let said = chat_sse_laws::text_of_event(events.last());
        assert(item->text + told + said =~= item->text + (told + said));
    }
}

/// A client sees the same item whichever way it called: the item with which a stream
/// closes a message or a function call is the one that the whole answer has for the same
/// block, given the same id.
pub proof fn law_items_are_alike_either_way(turn: Turn, block: Tree, id: Seq<char>)
    requires
        match turn.state.open {
            Some(Item::Message { item_id, text, .. }) => item_id == "msg_"@ + id && json::str_in(
                block.get("type"@),
            ) == Some("text"@) && json::str_in(block.get("text"@)) == Some(text),
            Some(Item::FunctionCall { item_id, call_id, name, arguments, .. }) => item_id == "fc_"@
                + id && json::str_in(block.get("type"@)) == Some("tool_use"@) && call_id
                == json::str_or(block, "id"@, ""@) && name == json::str_or(block, "name"@, ""@)
                && responses_sse::settled_arguments(arguments) == translate::arguments_of_input(
                block.get("input"@),
            ),
            None => false,
        },
    ensures
        responses::item_of(block, id) == Some(turn.close().state.closed.last()),
{
    reveal_strlit("text");
    reveal_strlit("tool_use");
    assert("text"@.len() != "tool_use"@.len());
}

} // verus!
