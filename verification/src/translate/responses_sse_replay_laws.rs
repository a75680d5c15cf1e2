//! What a client can make of the items of a Responses stream as it reads along.

use vstd::prelude::*;

use crate::json;
use crate::json::Tree;
use crate::translate::chat_sse;
use crate::translate::responses;
use crate::translate::responses_sse;
use crate::translate::responses_sse::{Item, ResponsesState, Turn};
use crate::translate::responses_sse_item_laws;
use crate::translate::responses_sse_laws;

verus! {

/// An item as a client has put it together from the events.
pub enum Read {
    Message { id: Seq<char>, text: Seq<char> },
    Call { id: Seq<char>, call_id: Seq<char>, name: Seq<char>, arguments: Seq<char> },
}

/// What an event tells of the items.
pub enum Note {
    /// An item is added at this output index.
    Added { at: int, read: Read },
    /// The text of the item at this output index goes on with this piece.
    Text { at: int, id: Seq<char>, piece: Seq<char> },
    /// The arguments of the item at this output index go on with this piece.
    Arguments { at: int, id: Seq<char>, piece: Seq<char> },
    /// An event of one of these kinds that names no output index.
    Astray,
    /// Any other event.
    Other,
}

/// An item as it is announced, with nothing in it yet.
pub open spec fn first_read(item: Option<Tree>) -> Read {
    if json::str_in(json::get_in(item, "type"@)) == Some("message"@) {
        Read::Message { id: chat_sse::text_in(item, "id"@), text: Seq::empty() }
    } else {
        Read::Call {
            id: chat_sse::text_in(item, "id"@),
            call_id: chat_sse::text_in(item, "call_id"@),
            name: chat_sse::text_in(item, "name"@),
            arguments: Seq::empty(),
        }
    }
}

/// What an event tells of the items.
pub open spec fn note_of(t: Tree) -> Note {
    let kind = json::str_in(t.get("type"@));
    let id = chat_sse::text_in(Some(t), "item_id"@);
    let piece = chat_sse::text_in(Some(t), "delta"@);
    if kind != Some("response.output_item.added"@) && kind != Some("response.output_text.delta"@)
        && kind != Some("response.function_call_arguments.delta"@) {
        Note::Other
    } else {
        match t.get("output_index"@) {
            Some(Tree::Int(at)) => if kind == Some("response.output_item.added"@) {
                Note::Added { at, read: first_read(t.get("item"@)) }
            } else if kind == Some("response.output_text.delta"@) {
                Note::Text { at, id, piece }
            } else {
                Note::Arguments { at, id, piece }
            },
            _ => Note::Astray,
        }
    }
}

/// The items after one more event. A client that takes them in order is lost where an item
/// is not added at the end, or where a piece is not for the item at the end.
pub open spec fn follow(known: Option<Seq<Read>>, note: Note) -> Option<Seq<Read>> {
    match known {
        None => None,
        Some(items) => match note {
            Note::Added { at, read } => if at == items.len() {
                Some(items.push(read))
            } else {
                None
            },
            Note::Text { at, id, piece } => if items.len() > 0 && at == items.len() - 1 {
                match items.last() {
                    Read::Message { id: own, text } => if own == id {
                        Some(items.drop_last().push(Read::Message { id, text: text + piece }))
                    } else {
                        None
                    },
                    Read::Call { .. } => None,
                }
            } else {
                None
            },
            Note::Arguments { at, id, piece } => if items.len() > 0 && at == items.len() - 1 {
                match items.last() {
                    Read::Call { id: own, call_id, name, arguments } => if own == id {
                        Some(
                            items.drop_last().push(
                                Read::Call { id, call_id, name, arguments: arguments + piece },
                            ),
                        )
                    } else {
                        None
                    },
                    Read::Message { .. } => None,
                }
            } else {
                None
            },
            Note::Astray => None,
            Note::Other => Some(items),
        },
    }
}

/// The items after a sequence of events.
pub open spec fn replay(known: Option<Seq<Read>>, sent: Seq<Tree>) -> Option<Seq<Read>>
    decreases sent.len(),
{
    if sent.len() == 0 {
        known
    } else {
        follow(replay(known, sent.drop_last()), note_of(sent.last()))
    }
}

/// The item that stands for what a client has put together.
pub open spec fn item_for(read: Read, status: Seq<char>) -> Tree {
    match read {
        Read::Message { id, text } => responses::message_item(id, status, text),
        Read::Call { id, call_id, name, arguments } => responses::call_item(
            id,
            call_id,
            name,
            responses_sse::settled_arguments(arguments),
            status,
        ),
    }
}

/// These items are, one for one, those that a client has put together.
pub open spec fn stand_for(output: Seq<Tree>, items: Seq<Read>) -> bool {
    output.len() == items.len() && forall|i: int|
        0 <= i < output.len() ==> #[trigger] output[i] == item_for(items[i], "completed"@)
            || output[i] == item_for(items[i], "incomplete"@)
}

/// The open item, as a client has put it together.
pub open spec fn read_of(item: Item) -> Read {
    match item {
        Item::Message { item_id, text, .. } => Read::Message { id: item_id, text },
        Item::FunctionCall { item_id, call_id, name, arguments, .. } => Read::Call {
            id: item_id,
            call_id,
            name,
            arguments,
        },
    }
}

/// The client has put together the items of the state, with the one that is open.
pub open spec fn knows_items(s: ResponsesState, items: Seq<Read>) -> bool {
    match s.open {
        None => stand_for(s.closed, items),
        Some(item) => items.len() > 0 && items.last() == read_of(item) && stand_for(
            s.closed,
            items.drop_last(),
        ),
    }
}

/// A client that knew these items has followed the events, and knows the items of the state,
/// or those of the terminal event.
pub open spec fn followed(turn: Turn, known: Seq<Read>) -> bool {
    match replay(Some(known), turn.sent) {
        Some(items) => if turn.state.ended {
            turn.sent.len() > 0 && stand_for(
                responses_sse_item_laws::terminal_output(turn.sent.last()),
                items,
            )
        } else {
            responses_sse_item_laws::is_next(turn.state) && knows_items(turn.state, items)
        },
        None => false,
    }
}

proof fn lemma_keys()
    ensures
        "output_index"@ != "type"@,
        "output_index"@ != "sequence_number"@,
        "output_index"@ != "item"@,
        "output_index"@ != "item_id"@,
        "output_index"@ != "delta"@,
        "output_index"@ != "content_index"@,
        "item"@ != "type"@,
        "item"@ != "sequence_number"@,
        "item_id"@ != "type"@,
        "item_id"@ != "sequence_number"@,
        "item_id"@ != "delta"@,
        "item_id"@ != "content_index"@,
        "delta"@ != "type"@,
        "delta"@ != "sequence_number"@,
        "delta"@ != "content_index"@,
        "response"@ != "type"@,
        "response"@ != "sequence_number"@,
        "message"@ != "function_call"@,
        ""@ == Seq::<char>::empty(),
{
    reveal_strlit("output_index");
    reveal_strlit("type");
    reveal_strlit("sequence_number");
    reveal_strlit("item");
    reveal_strlit("item_id");
    reveal_strlit("delta");
    reveal_strlit("content_index");
    reveal_strlit("response");
    reveal_strlit("message");
    reveal_strlit("function_call");
    reveal_strlit("");
    assert("output_index"@.len() == 12);
    assert("type"@.len() == 4);
    assert("sequence_number"@.len() == 15);
    assert("item"@.len() == 4);
    assert("item_id"@.len() == 7);
    assert("delta"@.len() == 5);
    assert("content_index"@.len() == 13);
    assert("response"@.len() == 8);
    assert("message"@.len() == 7);
    assert("function_call"@.len() == 13);
    assert("item"@[0] != "type"@[0]);
    assert(""@ =~= Seq::<char>::empty());
}

/// The kinds of events that tell nothing of the items.
proof fn lemma_other_kinds()
    ensures
        is_other("response.created"@),
        is_other("response.in_progress"@),
        is_other("response.content_part.added"@),
        is_other("response.output_text.done"@),
        is_other("response.content_part.done"@),
        is_other("response.function_call_arguments.done"@),
        is_other("response.output_item.done"@),
        is_other("response.completed"@),
        is_other("response.failed"@),
        "response.output_item.added"@ != "response.output_text.delta"@,
        "response.output_item.added"@ != "response.function_call_arguments.delta"@,
        "response.output_text.delta"@ != "response.function_call_arguments.delta"@,
{
    reveal_strlit("response.created");
    reveal_strlit("response.in_progress");
    reveal_strlit("response.content_part.added");
    reveal_strlit("response.output_text.done");
    reveal_strlit("response.content_part.done");
    reveal_strlit("response.function_call_arguments.done");
    reveal_strlit("response.output_item.done");
    reveal_strlit("response.completed");
    reveal_strlit("response.failed");
    reveal_strlit("response.output_item.added");
    reveal_strlit("response.output_text.delta");
    reveal_strlit("response.function_call_arguments.delta");
    assert("response.created"@.len() == 16);
    assert("response.in_progress"@.len() == 20);
    assert("response.content_part.added"@.len() == 27);
    assert("response.output_text.done"@.len() == 25);
    assert("response.content_part.done"@.len() == 26);
    assert("response.function_call_arguments.done"@.len() == 37);
    assert("response.output_item.done"@.len() == 25);
    assert("response.completed"@.len() == 18);
    assert("response.failed"@.len() == 15);
    assert("response.output_item.added"@.len() == 26);
    assert("response.output_text.delta"@.len() == 26);
    assert("response.function_call_arguments.delta"@.len() == 38);
    assert("response.output_item.added"@[16] != "response.output_text.delta"@[16]);
    assert("response.content_part.done"@[9] != "response.output_item.added"@[9]);
    assert("response.content_part.done"@[9] != "response.output_text.delta"@[9]);
}

/// An event of this kind tells nothing of the items.
spec fn is_other(kind: Seq<char>) -> bool {
    kind != "response.output_item.added"@ && kind != "response.output_text.delta"@ && kind
        != "response.function_call_arguments.delta"@
}

proof fn lemma_replay_emit(
    known: Option<Seq<Read>>,
    turn: Turn,
    kind: Seq<char>,
    payload: Map<Seq<char>, Tree>,
)
    ensures
        replay(known, turn.emit(kind, payload).sent) == follow(
            replay(known, turn.sent),
            note_of(responses_sse::event(kind, payload, turn.state.sequence_number)),
        ),
        is_other(kind) ==> replay(known, turn.emit(kind, payload).sent) == replay(known, turn.sent),
{
    let after = turn.emit(kind, payload);
    assert(after.sent.drop_last() =~= turn.sent);
    responses_sse_laws::lemma_event_fields(kind, payload, turn.state.sequence_number);
}

proof fn lemma_replay_concat(known: Option<Seq<Read>>, a: Seq<Tree>, b: Seq<Tree>)
    ensures
        replay(known, a + b) == replay(replay(known, a), b),
    decreases b.len(),
{
    if b.len() == 0 {
        assert(a + b =~= a);
    } else {
        lemma_replay_concat(known, a, b.drop_last());
        assert((a + b).drop_last() =~= a + b.drop_last());
    }
}

/// One more item stands for one more that the client knows.
proof fn lemma_stand_for_push(output: Seq<Tree>, items: Seq<Read>, item: Tree, status: Seq<char>)
    requires
        items.len() > 0,
        stand_for(output, items.drop_last()),
        status == "completed"@ || status == "incomplete"@,
        item == item_for(items.last(), status),
    ensures
        stand_for(output.push(item), items),
{
    let more = output.push(item);
    assert forall|i: int| 0 <= i < more.len() implies #[trigger] more[i] == item_for(
        items[i],
        "completed"@,
    ) || more[i] == item_for(items[i], "incomplete"@) by {
        if i < output.len() {
            assert(more[i] == output[i]);
            assert(items.drop_last()[i] == items[i]);
        }
    }
}

proof fn lemma_close_followed(turn: Turn, known: Seq<Read>)
    requires
        !turn.state.ended,
        followed(turn, known),
    ensures
        followed(turn.close(), known),
        !turn.close().state.ended,
        turn.close().state.open is None,
{
    lemma_other_kinds();
    let start = Some(known);
    let items = replay(start, turn.sent)->0;
    match turn.state.open {
        None => {},
        Some(Item::Message { item_id, output_index, content_index, text }) => {
            let item = responses::message_item(item_id, "completed"@, text);
            let done = map![
                "item_id"@ => Tree::Str(item_id),
                "output_index"@ => Tree::Int(output_index),
                "content_index"@ => Tree::Int(0),
                "text"@ => Tree::Str(text),
            ];
            let part = map![
                "item_id"@ => Tree::Str(item_id),
                "output_index"@ => Tree::Int(output_index),
                "content_index"@ => Tree::Int(0),
                "part"@ => responses::output_text(text),
            ];
            let last = map!["output_index"@ => Tree::Int(output_index), "item"@ => item];
            lemma_replay_emit(start, turn, "response.output_text.done"@, done);
            let one = turn.emit("response.output_text.done"@, done);
            lemma_replay_emit(start, one, "response.content_part.done"@, part);
            let two = one.emit("response.content_part.done"@, part);
            lemma_replay_emit(start, two, "response.output_item.done"@, last);
            assert(turn.close() == two.item_done(output_index, item).settled(item));
            lemma_stand_for_push(turn.state.closed, items, item, "completed"@);
        },
        Some(
            Item::FunctionCall { item_id, output_index, content_index, call_id, name, arguments },
        ) => {
            let settled = responses_sse::settled_arguments(arguments);
            let item = responses::call_item(item_id, call_id, name, settled, "completed"@);
            let done = map![
                "item_id"@ => Tree::Str(item_id),
                "output_index"@ => Tree::Int(output_index),
                "arguments"@ => Tree::Str(settled),
            ];
            let last = map!["output_index"@ => Tree::Int(output_index), "item"@ => item];
            lemma_replay_emit(start, turn, "response.function_call_arguments.done"@, done);
            let one = turn.emit("response.function_call_arguments.done"@, done);
            lemma_replay_emit(start, one, "response.output_item.done"@, last);
            assert(turn.close() == one.item_done(output_index, item).settled(item));
            lemma_stand_for_push(turn.state.closed, items, item, "completed"@);
        },
    }
}

proof fn lemma_open_followed(turn: Turn, known: Seq<Read>, at: u64, id: Seq<char>)
    requires
        !turn.state.ended,
        turn.state.open is None,
        followed(turn, known),
    ensures
        followed(turn.open_message(at, id), known),
        !turn.open_message(at, id).state.ended,
{
    lemma_keys();
    lemma_other_kinds();
    responses_sse_item_laws::lemma_keys();
    let start = Some(known);
    let items = replay(start, turn.sent)->0;
    let item_id = "msg_"@ + id;
    let output_index = turn.state.closed.len() as int;
    let item = Tree::Obj(
        map![
            "type"@ => Tree::Str("message"@),
            "id"@ => Tree::Str(item_id),
            "role"@ => Tree::Str("assistant"@),
            "content"@ => Tree::Arr(Seq::empty()),
            "status"@ => Tree::Str("in_progress"@),
        ],
    );
    let first = map!["output_index"@ => Tree::Int(output_index), "item"@ => item];
    let second = map![
        "item_id"@ => Tree::Str(item_id),
        "output_index"@ => Tree::Int(output_index),
        "content_index"@ => Tree::Int(0),
        "part"@ => responses::output_text(""@),
    ];
    let read = Read::Message { id: item_id, text: Seq::empty() };
    lemma_item_keys();
    let told = responses_sse::event(
        "response.output_item.added"@,
        first,
        turn.state.sequence_number,
    );
    assert(told.get("item"@) == Some(item));
    assert(told.get("output_index"@) == Some(Tree::Int(output_index)));
    responses_sse_laws::lemma_event_fields(
        "response.output_item.added"@,
        first,
        turn.state.sequence_number,
    );
    assert(first_read(Some(item)) == read);
    lemma_replay_emit(start, turn, "response.output_item.added"@, first);
    let one = turn.emit("response.output_item.added"@, first);
    lemma_replay_emit(start, one, "response.content_part.added"@, second);
    let two = one.emit("response.content_part.added"@, second);
    assert(turn.open_message(at, id).sent == two.sent);
    assert(items.push(read).drop_last() =~= items);
}

/// The fields of an item are distinct.
proof fn lemma_item_keys()
    ensures
        "id"@ != "type"@,
        "id"@ != "role"@,
        "id"@ != "content"@,
        "id"@ != "status"@,
        "id"@ != "call_id"@,
        "id"@ != "name"@,
        "id"@ != "arguments"@,
        "type"@ != "role"@,
        "type"@ != "content"@,
        "type"@ != "status"@,
        "type"@ != "call_id"@,
        "type"@ != "name"@,
        "type"@ != "arguments"@,
        "call_id"@ != "name"@,
        "call_id"@ != "arguments"@,
        "call_id"@ != "status"@,
        "name"@ != "arguments"@,
        "name"@ != "status"@,
        "arguments"@ != "status"@,
{
    reveal_strlit("type");
    reveal_strlit("id");
    reveal_strlit("role");
    reveal_strlit("content");
    reveal_strlit("status");
    reveal_strlit("call_id");
    reveal_strlit("name");
    reveal_strlit("arguments");
    assert("id"@.len() == 2);
    assert("type"@.len() == 4);
    assert("role"@.len() == 4);
    assert("content"@.len() == 7);
    assert("status"@.len() == 6);
    assert("call_id"@.len() == 7);
    assert("name"@.len() == 4);
    assert("arguments"@.len() == 9);
    assert("type"@[0] != "role"@[0]);
    assert("type"@[0] != "name"@[0]);
}

proof fn lemma_open_call_followed(
    turn: Turn,
    known: Seq<Read>,
    at: u64,
    call_id: Seq<char>,
    name: Seq<char>,
    id: Seq<char>,
)
    requires
        !turn.state.ended,
        turn.state.open is None,
        followed(turn, known),
    ensures
        followed(turn.open_function_call(at, call_id, name, id), known),
        !turn.open_function_call(at, call_id, name, id).state.ended,
{
    lemma_keys();
    lemma_other_kinds();
    lemma_item_keys();
    let start = Some(known);
    let items = replay(start, turn.sent)->0;
    let output_index = turn.state.closed.len() as int;
    let item = responses::call_item("fc_"@ + id, call_id, name, ""@, "in_progress"@);
    let first = map!["output_index"@ => Tree::Int(output_index), "item"@ => item];
    let read = Read::Call { id: "fc_"@ + id, call_id, name, arguments: Seq::empty() };
    let told = responses_sse::event(
        "response.output_item.added"@,
        first,
        turn.state.sequence_number,
    );
    assert(told.get("item"@) == Some(item));
    assert(told.get("output_index"@) == Some(Tree::Int(output_index)));
    responses_sse_laws::lemma_event_fields(
        "response.output_item.added"@,
        first,
        turn.state.sequence_number,
    );
    assert(first_read(Some(item)) == read);
    lemma_replay_emit(start, turn, "response.output_item.added"@, first);
    assert(items.push(read).drop_last() =~= items);
}

proof fn lemma_text_delta_followed(s: ResponsesState, known: Seq<Read>, e: Tree, id: Seq<char>)
    requires
        !s.ended,
        followed(Turn::from(s), known),
    ensures
        followed(responses_sse::on_text_delta(s, e, id), known),
        !responses_sse::on_text_delta(s, e, id).state.ended,
{
    lemma_keys();
    lemma_other_kinds();
    let start = Turn::from(s);
    let at = chat_sse::index_of(e);
    let said = chat_sse::text_in(e.get("delta"@), "text"@);
    let turn = if s.open is None {
        lemma_open_followed(start, known, at, id);
        start.open_message(at, id)
    } else {
        start
    };
    let items = replay(Some(known), turn.sent)->0;
    match turn.state.open {
        Some(Item::Message { item_id, output_index, content_index, text }) => {
            let state = ResponsesState {
                open: Some(
                    Item::Message { item_id, output_index, content_index, text: text + said },
                ),
                ..turn.state
            };
            let payload = map![
                "delta"@ => Tree::Str(said),
                "item_id"@ => Tree::Str(item_id),
                "output_index"@ => Tree::Int(output_index),
                "content_index"@ => Tree::Int(0),
            ];
            let noted = Turn { state, sent: turn.sent };
            let kind = "response.output_text.delta"@;
            responses_sse_laws::lemma_event_fields(kind, payload, state.sequence_number);
            let told = responses_sse::event(kind, payload, state.sequence_number);
            assert(told.get("delta"@) == Some(Tree::Str(said)));
            assert(told.get("item_id"@) == Some(Tree::Str(item_id)));
            assert(told.get("output_index"@) == Some(Tree::Int(output_index)));
            lemma_replay_emit(Some(known), noted, kind, payload);
            let read = Read::Message { id: item_id, text: text + said };
            assert(items.drop_last().push(read).drop_last() =~= items.drop_last());
            assert(noted.emit(kind, payload) == responses_sse::on_text_delta(s, e, id));
        },
        _ => {},
    }
}

proof fn lemma_arguments_delta_followed(s: ResponsesState, known: Seq<Read>, e: Tree)
    requires
        !s.ended,
        followed(Turn::from(s), known),
    ensures
        followed(responses_sse::on_arguments_delta(s, e), known),
        !responses_sse::on_arguments_delta(s, e).state.ended,
{
    lemma_keys();
    lemma_other_kinds();
    let part = chat_sse::text_in(e.get("delta"@), "partial_json"@);
    match s.open {
        Some(
            Item::FunctionCall { item_id, output_index, content_index, call_id, name, arguments },
        ) => {
            let state = ResponsesState {
                open: Some(
                    Item::FunctionCall {
                        item_id,
                        output_index,
                        content_index,
                        call_id,
                        name,
                        arguments: arguments + part,
                    },
                ),
                ..s
            };
            let payload = map![
                "item_id"@ => Tree::Str(item_id),
                "output_index"@ => Tree::Int(output_index),
                "delta"@ => Tree::Str(part),
            ];
            let kind = "response.function_call_arguments.delta"@;
            responses_sse_laws::lemma_event_fields(kind, payload, state.sequence_number);
            let told = responses_sse::event(kind, payload, state.sequence_number);
            assert(told.get("delta"@) == Some(Tree::Str(part)));
            assert(told.get("item_id"@) == Some(Tree::Str(item_id)));
            assert(told.get("output_index"@) == Some(Tree::Int(output_index)));
            lemma_replay_emit(Some(known), Turn::from(state), kind, payload);
            let read = Read::Call { id: item_id, call_id, name, arguments: arguments + part };
            assert(known.drop_last().push(read).drop_last() =~= known.drop_last());
        },
        _ => {},
    }
}

proof fn lemma_start_followed(s: ResponsesState, known: Seq<Read>, e: Tree)
    requires
        !s.ended,
        followed(Turn::from(s), known),
    ensures
        followed(responses_sse::on_message_start(s, e), known),
        !responses_sse::on_message_start(s, e).state.ended,
{
    lemma_other_kinds();
    let after = responses_sse::on_message_start(s, e);
    if !s.started {
        let noted = ResponsesState { sequence_number: s.sequence_number, ..after.state };
        let turn = Turn::from(noted);
        lemma_replay_emit(Some(known), turn, "response.created"@, turn.announced());
        let one = turn.emit("response.created"@, turn.announced());
        lemma_replay_emit(Some(known), one, "response.in_progress"@, turn.announced());
        assert(after == one.emit("response.in_progress"@, turn.announced()));
    }
}

proof fn lemma_end_followed(s: ResponsesState, known: Seq<Read>, e: Tree)
    requires
        !s.ended,
        followed(Turn::from(s), known),
    ensures
        followed(responses_sse::on_message_delta(s, e), known),
{
    lemma_keys();
    lemma_other_kinds();
    responses_sse_item_laws::lemma_keys();
    lemma_close_followed(Turn::from(s), known);
    let turn = Turn::from(s).close();
    let payload = map!["response"@ => responses_sse::completed(turn.state, e)];
    let ended = Turn { state: responses_sse::over(turn.state), sent: turn.sent };
    lemma_replay_emit(Some(known), ended, "response.completed"@, payload);
    let after = ended.emit("response.completed"@, payload);
    assert(after == responses_sse::on_message_delta(s, e));
    assert(after.sent.last().get("response"@) == Some(responses_sse::completed(turn.state, e)));
    assert(responses_sse_item_laws::terminal_output(after.sent.last()) == turn.state.closed);
}

proof fn lemma_failed_followed(
    s: ResponsesState,
    known: Seq<Read>,
    error_type: Seq<char>,
    message: Seq<char>,
)
    requires
        !s.ended,
        followed(Turn::from(s), known),
    ensures
        followed(responses_sse::failed(s, error_type, message), known),
{
    lemma_keys();
    lemma_other_kinds();
    responses_sse_item_laws::lemma_keys();
    let payload = responses_sse_laws::failure_payload(s, error_type, message);
    let turn = Turn::from(ResponsesState { open: None, ..responses_sse::over(s) });
    lemma_replay_emit(Some(known), turn, "response.failed"@, payload);
    let after = turn.emit("response.failed"@, payload);
    assert(after == responses_sse::failed(s, error_type, message));
    let output = responses_sse::with_unfinished(s);
    assert(responses_sse_item_laws::terminal_output(after.sent.last()) == output);
    if s.open is Some {
        lemma_stand_for_push(s.closed, known, output.last(), "incomplete"@);
    }
}

proof fn lemma_step_followed(s: ResponsesState, known: Seq<Read>, e: Tree, id: Seq<char>)
    requires
        !s.ended,
        followed(Turn::from(s), known),
    ensures
        followed(responses_sse::responses_step(s, e, id), known),
{
    let start = Turn::from(s);
    lemma_start_followed(s, known, e);
    lemma_text_delta_followed(s, known, e, id);
    lemma_arguments_delta_followed(s, known, e);
    lemma_end_followed(s, known, e);
    lemma_failed_followed(s, known, chat_sse::error_type_of(e), chat_sse::error_message_of(e));
    lemma_close_followed(start, known);
    let at = chat_sse::index_of(e);
    let block = e.get("content_block"@);
    lemma_open_followed(start.close(), known, at, id);
    lemma_open_call_followed(
        start.close(),
        known,
        at,
        chat_sse::text_in(block, "id"@),
        chat_sse::text_in(block, "name"@),
        id,
    );
}

/// One turn after another.
proof fn lemma_followed_concat(before: Turn, step: Turn, known: Seq<Read>)
    requires
        !before.state.ended,
        followed(before, known),
        followed(step, replay(Some(known), before.sent)->0),
    ensures
        followed(Turn { state: step.state, sent: before.sent + step.sent }, known),
{
    lemma_replay_concat(Some(known), before.sent, step.sent);
    if step.state.ended {
        assert((before.sent + step.sent).last() == step.sent.last());
    }
}

proof fn lemma_run_followed(
    s: ResponsesState,
    known: Seq<Read>,
    events: Seq<Tree>,
    ids: Seq<Seq<char>>,
)
    requires
        !s.ended,
        followed(Turn::from(s), known),
    ensures
        followed(responses_sse::responses_run(s, events, ids), known),
    decreases events.len(),
{
    if events.len() > 0 {
        lemma_run_followed(s, known, events.drop_last(), ids);
        let before = responses_sse::responses_run(s, events.drop_last(), ids);
        let id = ids[events.len() - 1];
        let step = responses_sse::responses_step(before.state, events.last(), id);
        if before.state.ended {
            assert(before.sent + step.sent =~= before.sent);
        } else {
            let items = replay(Some(known), before.sent)->0;
            lemma_step_followed(before.state, items, events.last(), id);
            lemma_followed_concat(before, step, known);
        }
    }
}

/// The output indices of the items that events add, in order.
pub open spec fn added_at(sent: Seq<Tree>) -> Seq<int>
    decreases sent.len(),
{
    if sent.len() == 0 {
        Seq::empty()
    } else {
        match note_of(sent.last()) {
            Note::Added { at, .. } => added_at(sent.drop_last()).push(at),
            _ => added_at(sent.drop_last()),
        }
    }
}

/// The pieces of text that events bring for the item at an output index, joined.
pub open spec fn joined_text(sent: Seq<Tree>, index: int) -> Seq<char>
    decreases sent.len(),
{
    if sent.len() == 0 {
        Seq::empty()
    } else {
        let before = joined_text(sent.drop_last(), index);
        match note_of(sent.last()) {
            Note::Text { at, piece, .. } => if at == index {
                before + piece
            } else {
                before
            },
            _ => before,
        }
    }
}

/// The pieces of arguments that events bring for the item at an output index, joined.
pub open spec fn joined_arguments(sent: Seq<Tree>, index: int) -> Seq<char>
    decreases sent.len(),
{
    if sent.len() == 0 {
        Seq::empty()
    } else {
        let before = joined_arguments(sent.drop_last(), index);
        match note_of(sent.last()) {
            Note::Arguments { at, piece, .. } => if at == index {
                before + piece
            } else {
                before
            },
            _ => before,
        }
    }
}

/// What a client has put together are the pieces, joined.
proof fn lemma_replay_joins(sent: Seq<Tree>)
    requires
        replay(Some(Seq::empty()), sent) is Some,
    ensures
        ({
            let items = replay(Some(Seq::empty()), sent)->0;
            &&& added_at(sent) == Seq::new(items.len(), |i: int| i)
            &&& forall|i: int|
                0 <= i < items.len() ==> (match #[trigger] items[i] {
                    Read::Message { text, .. } => text == joined_text(sent, i),
                    Read::Call { arguments, .. } => arguments == joined_arguments(sent, i),
                })
            &&& forall|i: int|
                i >= items.len() ==> #[trigger] joined_text(sent, i) == Seq::<char>::empty()
            &&& forall|i: int|
                i >= items.len() ==> #[trigger] joined_arguments(sent, i) == Seq::<char>::empty()
        }),
    decreases sent.len(),
{
    let start = Some(Seq::<Read>::empty());
    let items = replay(start, sent)->0;
    if sent.len() > 0 {
        let rest = sent.drop_last();
        lemma_replay_joins(rest);
        let before = replay(start, rest)->0;
        let note = note_of(sent.last());
        assert forall|i: int| 0 <= i < items.len() implies (match #[trigger] items[i] {
            Read::Message { text, .. } => text == joined_text(sent, i),
            Read::Call { arguments, .. } => arguments == joined_arguments(sent, i),
        }) by {
            if i < before.len() {
                let told = before[i];
            } else {
                assert(joined_text(rest, i) == Seq::<char>::empty());
                assert(joined_arguments(rest, i) == Seq::<char>::empty());
            }
        }
        assert forall|i: int| i >= items.len() implies #[trigger] joined_text(sent, i) == Seq::<
            char,
        >::empty() by {
            assert(joined_text(rest, i) == Seq::<char>::empty());
        }
        assert forall|i: int| i >= items.len() implies #[trigger] joined_arguments(sent, i)
            == Seq::<char>::empty() by {
            assert(joined_arguments(rest, i) == Seq::<char>::empty());
        }
        assert(added_at(sent) =~= Seq::new(items.len(), |i: int| i));
    } else {
        assert(added_at(sent) =~= Seq::new(items.len(), |i: int| i));
    }
}

/// The item, as the terminal event reports it, that was made of these pieces of text or of
/// arguments.
pub open spec fn is_made_of(item: Tree, text: Seq<char>, arguments: Seq<char>) -> bool {
    exists|read: Read, status: Seq<char>| #[trigger]
        item_for(read, status) == item && (match read {
            Read::Message { text: own, .. } => own == text,
            Read::Call { arguments: own, .. } => own == arguments,
        })
}

/// The items of a stream are added at the output indices 0, 1, 2 and so on; a client that
/// follows the events is never lost; and the terminal event holds one item for each that was
/// added, in the same order, with its pieces joined.
pub proof fn law_terminal_output_is_what_was_streamed(
    s: ResponsesState,
    events: Seq<Tree>,
    ids: Seq<Seq<char>>,
)
    requires
        !s.ended,
        s.open is None,
        s.closed.len() == 0,
    ensures
        ({
            let sent = responses_sse::finished(responses_sse::responses_run(s, events, ids));
            let output = responses_sse_item_laws::terminal_output(sent.last());
            &&& added_at(sent) == Seq::new(output.len(), |i: int| i)
            &&& replay(Some(Seq::empty()), sent) matches Some(items) && stand_for(output, items)
            &&& forall|i: int|
                0 <= i < output.len() ==> is_made_of(
                    #[trigger] output[i],
                    joined_text(sent, i),
                    joined_arguments(sent, i),
                )
        }),
{
    let none = Seq::<Read>::empty();
    let run = responses_sse::responses_run(s, events, ids);
    assert(stand_for(s.closed, none));
    lemma_run_followed(s, none, events, ids);
    let failure = responses_sse::failed(
        run.state,
        "api_error"@,
        "upstream connection closed unexpectedly"@,
    );
    if !run.state.ended {
        let items = replay(Some(none), run.sent)->0;
        lemma_failed_followed(
            run.state,
            items,
            "api_error"@,
            "upstream connection closed unexpectedly"@,
        );
        lemma_followed_concat(run, failure, none);
    }
    let sent = responses_sse::finished(run);
    let output = responses_sse_item_laws::terminal_output(sent.last());
    let items = replay(Some(none), sent)->0;
    lemma_replay_joins(sent);
    assert forall|i: int| 0 <= i < output.len() implies is_made_of(
        #[trigger] output[i],
        joined_text(sent, i),
        joined_arguments(sent, i),
    ) by {
        let read = items[i];
        if output[i] == item_for(read, "completed"@) {
        } else {
            assert(output[i] == item_for(read, "incomplete"@));
        }
    }
}

} // verus!
