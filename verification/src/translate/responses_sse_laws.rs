//! What holds of every Responses stream.

use vstd::prelude::*;

use crate::json;
use crate::json::Tree;
use crate::text;
use crate::translate::chat_sse;
use crate::translate::responses;
use crate::translate::responses_sse;
use crate::translate::responses_sse::{Item, ResponsesState, Turn};
use crate::translate::responses_sse_item_laws;
use crate::translate::sse;

verus! {

/// Events one after the other.
#[verifier::rlimit(50)]
#[verifier::spinoff_prover]
pub proof fn lemma_run_concat(
    s: ResponsesState,
    a: Seq<Tree>,
    b: Seq<Tree>,
    ids_a: Seq<Seq<char>>,
    ids_b: Seq<Seq<char>>,
)
    requires
        ids_a.len() == a.len(),
        ids_b.len() == b.len(),
    ensures
        ({
            let first = responses_sse::responses_run(s, a, ids_a);
            let second = responses_sse::responses_run(first.state, b, ids_b);
            responses_sse::responses_run(s, a + b, ids_a + ids_b) == (Turn {
                state: second.state,
                sent: first.sent + second.sent,
            })
        }),
    decreases b.len(),
{
    let ids = ids_a + ids_b;
    let first = responses_sse::responses_run(s, a, ids_a);
    if b.len() == 0 {
        assert(a + b =~= a);
        assert(ids =~= ids_a);
        assert(first.sent + Seq::<Tree>::empty() =~= first.sent);
    } else {
        let fewer = ids_b.drop_last();
        lemma_run_concat(s, a, b.drop_last(), ids_a, fewer);
        assert((a + b).drop_last() =~= a + b.drop_last());
        responses_sse::lemma_run_ids(s, a + b.drop_last(), ids, ids_a + fewer);
        responses_sse::lemma_run_ids(first.state, b.drop_last(), ids_b, fewer);
        let second = responses_sse::responses_run(first.state, b.drop_last(), ids_b);
        let step = responses_sse::responses_step(second.state, b.last(), ids_b[b.len() - 1]);
        assert(first.sent + second.sent + step.sent =~= first.sent + (second.sent + step.sent));
    }
}

/// Chunk boundaries are no matter: feeding `a` and then `b` leaves the translator as
/// feeding both at once does, and sends the same bytes, where the items opened get the
/// same ids.
pub proof fn law_chunk_boundaries_do_not_matter(
    s: ResponsesState,
    buffer: Seq<u8>,
    a: Seq<u8>,
    b: Seq<u8>,
    ids_a: Seq<Seq<char>>,
    ids_b: Seq<Seq<char>>,
)
    requires
        ids_a.len() == sse::documents(buffer + a).len(),
        ids_b.len() == sse::documents(sse::remainder(buffer + a) + b).len(),
    ensures
        ({
            let whole = responses_sse::responses_run(
                s,
                sse::documents(buffer + (a + b)),
                ids_a + ids_b,
            );
            let first = responses_sse::responses_run(s, sse::documents(buffer + a), ids_a);
            let second = responses_sse::responses_run(
                first.state,
                sse::documents(sse::remainder(buffer + a) + b),
                ids_b,
            );
            &&& whole.state == second.state
            &&& responses_sse::events_bytes(whole.sent) == responses_sse::events_bytes(first.sent)
                + responses_sse::events_bytes(second.sent)
            &&& sse::remainder(buffer + (a + b)) == sse::remainder(sse::remainder(buffer + a) + b)
        }),
{
    assert(buffer + (a + b) =~= (buffer + a) + b);
    sse::lemma_documents_concat(buffer + a, b);
    let docs_a = sse::documents(buffer + a);
    let docs_b = sse::documents(sse::remainder(buffer + a) + b);
    let first = responses_sse::responses_run(s, docs_a, ids_a);
    let second = responses_sse::responses_run(first.state, docs_b, ids_b);
    lemma_run_concat(s, docs_a, docs_b, ids_a, ids_b);
    responses_sse::lemma_events_concat(first.sent, second.sent);
}

/// A client that reads what was sent finds one event for each that was, and nothing is left
/// over.
pub proof fn law_frames_are_events(sent: Seq<Tree>)
    requires
        responses_sse::are_frames(sent),
    ensures
        sse::events_in(responses_sse::events_bytes(sent)) == sent.map_values(
            |t: Tree| sse::line_of(sse::data_event(t)),
        ),
        sse::remainder(responses_sse::events_bytes(sent)).len() == 0,
        sse::is_framed(responses_sse::events_bytes(sent)),
{
    let parts = sent.map_values(|t: Tree| sse::data_event(t));
    lemma_joined_events(sent);
    assert forall|i: int| 0 <= i < parts.len() implies sse::is_frame(#[trigger] parts[i]) by {
        assert(sse::is_frame(sse::data_event(sent[i])));
    }
    sse::law_frames_are_events(parts);
    assert(parts.map_values(|frame: Seq<u8>| sse::line_of(frame)) =~= sent.map_values(
        |t: Tree| sse::line_of(sse::data_event(t)),
    ));
}

proof fn lemma_joined_events(sent: Seq<Tree>)
    ensures
        responses_sse::events_bytes(sent) == sse::joined(
            sent.map_values(|t: Tree| sse::data_event(t)),
        ),
    decreases sent.len(),
{
    let parts = sent.map_values(|t: Tree| sse::data_event(t));
    if sent.len() > 0 {
        lemma_joined_events(sent.drop_last());
        assert(parts.drop_last() =~= sent.drop_last().map_values(|t: Tree| sse::data_event(t)));
    }
}

/// The number that follows `base` after `i` events, in 64 bits.
pub open spec fn number_after(base: u64, i: int) -> int {
    (base + i) % 0x1_0000_0000_0000_0000
}

/// What has been sent is numbered from `base` on, and the state holds the next number.
pub open spec fn numbered(turn: Turn, base: u64) -> bool {
    &&& turn.state.sequence_number == number_after(base, turn.sent.len() as int)
    &&& forall|i: int|
        0 <= i < turn.sent.len() ==> (#[trigger] turn.sent[i]).get("sequence_number"@) == Some(
            Tree::Int(number_after(base, i)),
        )
}

/// The kind and the number of an event are those it was made with.
pub proof fn lemma_event_fields(kind: Seq<char>, payload: Map<Seq<char>, Tree>, number: u64)
    ensures
        responses_sse::event(kind, payload, number).get("type"@) == Some(Tree::Str(kind)),
        responses_sse::event(kind, payload, number).get("sequence_number"@) == Some(
            Tree::Int(number as int),
        ),
{
    reveal_strlit("type");
    reveal_strlit("sequence_number");
    assert("type"@.len() != "sequence_number"@.len());
}

proof fn lemma_emit_numbered(turn: Turn, base: u64, kind: Seq<char>, payload: Map<Seq<char>, Tree>)
    requires
        numbered(turn, base),
    ensures
        numbered(turn.emit(kind, payload), base),
{
    lemma_event_fields(kind, payload, turn.state.sequence_number);
    let after = turn.emit(kind, payload);
    assert forall|i: int| 0 <= i < after.sent.len() implies (#[trigger] after.sent[i]).get(
        "sequence_number"@,
    ) == Some(Tree::Int(number_after(base, i))) by {
        if i < turn.sent.len() {
            assert(after.sent[i] == turn.sent[i]);
        }
    }
}

/// Every emission of a turn that is numbered is numbered.
proof fn lemma_all_emit_numbered(base: u64)
    ensures
        forall|turn: Turn, kind: Seq<char>, payload: Map<Seq<char>, Tree>|
            numbered(turn, base) ==> numbered(#[trigger] turn.emit(kind, payload), base),
{
    assert forall|turn: Turn, kind: Seq<char>, payload: Map<Seq<char>, Tree>|
        numbered(turn, base) implies numbered(#[trigger] turn.emit(kind, payload), base) by {
        lemma_emit_numbered(turn, base, kind, payload);
    }
}

proof fn lemma_step_numbered(s: ResponsesState, e: Tree, id: Seq<char>)
    ensures
        numbered(responses_sse::responses_step(s, e, id), s.sequence_number),
{
    let base = s.sequence_number;
    lemma_all_emit_numbered(base);
    assert(number_after(base, 0) == base);
    assert(numbered(Turn::from(s), base));
    assert(numbered(Turn::from(s).close(), base)) by {
        lemma_close_numbered(Turn::from(s), base);
    }
    assert forall|turn: Turn, at: u64, i: Seq<char>| numbered(turn, base) implies numbered(
        #[trigger] turn.open_message(at, i),
        base,
    ) by {
        lemma_open_message_numbered(turn, at, i, base);
    }
}

proof fn lemma_close_numbered(turn: Turn, base: u64)
    requires
        numbered(turn, base),
    ensures
        numbered(turn.close(), base),
{
    lemma_all_emit_numbered(base);
}

proof fn lemma_open_message_numbered(turn: Turn, at: u64, id: Seq<char>, base: u64)
    requires
        numbered(turn, base),
    ensures
        numbered(turn.open_message(at, id), base),
{
    lemma_all_emit_numbered(base);
}

proof fn lemma_numbered_concat(before: Turn, step: Turn, base: u64)
    requires
        numbered(before, base),
        numbered(step, before.state.sequence_number),
    ensures
        numbered(Turn { state: step.state, sent: before.sent + step.sent }, base),
{
    let both = before.sent + step.sent;
    assert forall|i: int| 0 <= i < both.len() implies (#[trigger] both[i]).get("sequence_number"@)
        == Some(Tree::Int(number_after(base, i))) by {
        if i < before.sent.len() {
            assert(both[i] == before.sent[i]);
        } else {
            assert(both[i] == step.sent[i - before.sent.len()]);
        }
    }
}

/// The events of a stream are numbered without a gap, from the number at which it
/// starts: a new translator counts from zero.
pub proof fn law_sequence_numbers_are_contiguous(
    s: ResponsesState,
    events: Seq<Tree>,
    ids: Seq<Seq<char>>,
)
    ensures
        numbered(responses_sse::responses_run(s, events, ids), s.sequence_number),
    decreases events.len(),
{
    if events.len() == 0 {
        assert(number_after(s.sequence_number, 0) == s.sequence_number);
    } else {
        law_sequence_numbers_are_contiguous(s, events.drop_last(), ids);
        let before = responses_sse::responses_run(s, events.drop_last(), ids);
        let id = ids[events.len() - 1];
        lemma_step_numbered(before.state, events.last(), id);
        lemma_numbered_concat(
            before,
            responses_sse::responses_step(before.state, events.last(), id),
            s.sequence_number,
        );
    }
}

/// The name of an event that ends a stream.
pub open spec fn is_terminal_kind(kind: Seq<char>) -> bool {
    kind == "response.completed"@ || kind == "response.failed"@
}

/// The event ends the stream.
pub open spec fn is_terminal(t: Tree) -> bool {
    match json::str_in(t.get("type"@)) {
        Some(kind) => is_terminal_kind(kind),
        None => false,
    }
}

/// The stream goes on, and nothing that was sent ends it.
pub open spec fn goes_on(turn: Turn) -> bool {
    &&& !turn.state.ended
    &&& forall|i: int| 0 <= i < turn.sent.len() ==> !is_terminal(#[trigger] turn.sent[i])
}

/// The stream is over, and of what was sent the last event, and no other, ends it.
pub open spec fn is_over(turn: Turn) -> bool {
    &&& turn.state.ended
    &&& turn.sent.len() > 0
    &&& is_terminal(turn.sent.last())
    &&& forall|i: int| 0 <= i < turn.sent.len() - 1 ==> !is_terminal(#[trigger] turn.sent[i])
}

proof fn lemma_emit_goes_on()
    ensures
        forall|turn: Turn, kind: Seq<char>, payload: Map<Seq<char>, Tree>|
            goes_on(turn) && !is_terminal_kind(kind) ==> goes_on(
                #[trigger] turn.emit(kind, payload),
            ),
{
    assert forall|turn: Turn, kind: Seq<char>, payload: Map<Seq<char>, Tree>|
        goes_on(turn) && !is_terminal_kind(kind) implies goes_on(
        #[trigger] turn.emit(kind, payload),
    ) by {
        lemma_event_fields(kind, payload, turn.state.sequence_number);
        let after = turn.emit(kind, payload);
        assert forall|i: int| 0 <= i < after.sent.len() implies !is_terminal(
            #[trigger] after.sent[i],
        ) by {
            if i < turn.sent.len() {
                assert(after.sent[i] == turn.sent[i]);
            }
        }
    }
}

proof fn lemma_kinds_go_on()
    ensures
        !is_terminal_kind("response.created"@),
        !is_terminal_kind("response.in_progress"@),
        !is_terminal_kind("response.output_item.added"@),
        !is_terminal_kind("response.content_part.added"@),
        !is_terminal_kind("response.output_text.delta"@),
        !is_terminal_kind("response.output_text.done"@),
        !is_terminal_kind("response.content_part.done"@),
        !is_terminal_kind("response.output_item.done"@),
        !is_terminal_kind("response.function_call_arguments.delta"@),
        !is_terminal_kind("response.function_call_arguments.done"@),
{
    reveal_strlit("response.completed");
    reveal_strlit("response.failed");
    reveal_strlit("response.created");
    reveal_strlit("response.in_progress");
    reveal_strlit("response.output_item.added");
    reveal_strlit("response.content_part.added");
    reveal_strlit("response.output_text.delta");
    reveal_strlit("response.output_text.done");
    reveal_strlit("response.content_part.done");
    reveal_strlit("response.output_item.done");
    reveal_strlit("response.function_call_arguments.delta");
    reveal_strlit("response.function_call_arguments.done");
    assert("response.completed"@.len() == 18);
    assert("response.failed"@.len() == 15);
    assert("response.created"@.len() == 16);
    assert("response.in_progress"@.len() == 20);
    assert("response.output_item.added"@.len() == 26);
    assert("response.content_part.added"@.len() == 27);
    assert("response.output_text.delta"@.len() == 26);
    assert("response.output_text.done"@.len() == 25);
    assert("response.content_part.done"@.len() == 26);
    assert("response.output_item.done"@.len() == 25);
    assert("response.function_call_arguments.delta"@.len() == 38);
    assert("response.function_call_arguments.done"@.len() == 37);
}

proof fn lemma_close_goes_on(turn: Turn)
    requires
        goes_on(turn),
    ensures
        goes_on(turn.close()),
{
    lemma_emit_goes_on();
    lemma_kinds_go_on();
}

proof fn lemma_open_goes_on(turn: Turn, at: u64, id: Seq<char>)
    requires
        goes_on(turn),
    ensures
        goes_on(turn.open_message(at, id)),
{
    lemma_emit_goes_on();
    lemma_kinds_go_on();
}

proof fn lemma_open_call_goes_on(
    turn: Turn,
    at: u64,
    call_id: Seq<char>,
    name: Seq<char>,
    id: Seq<char>,
)
    requires
        goes_on(turn),
    ensures
        goes_on(turn.open_function_call(at, call_id, name, id)),
{
    lemma_emit_goes_on();
    lemma_kinds_go_on();
}

/// An event of a terminal kind, after a stream that went on, ends it.
proof fn lemma_emit_over(turn: Turn, kind: Seq<char>, payload: Map<Seq<char>, Tree>)
    requires
        goes_on(Turn { state: ResponsesState { ended: false, ..turn.state }, sent: turn.sent }),
        turn.state.ended,
        is_terminal_kind(kind),
    ensures
        is_over(turn.emit(kind, payload)),
{
    lemma_event_fields(kind, payload, turn.state.sequence_number);
    let calm = Turn { state: ResponsesState { ended: false, ..turn.state }, sent: turn.sent };
    let after = turn.emit(kind, payload);
    assert forall|i: int| 0 <= i < after.sent.len() - 1 implies !is_terminal(
        #[trigger] after.sent[i],
    ) by {
        assert(after.sent[i] == calm.sent[i]);
    }
}

/// The stream fails with one terminal event.
proof fn lemma_failed_is_over(s: ResponsesState, error_type: Seq<char>, message: Seq<char>)
    ensures
        is_over(responses_sse::failed(s, error_type, message)),
        responses_sse::failed(s, error_type, message).sent.len() == 1,
{
    let turn = Turn::from(ResponsesState { open: None, ..responses_sse::over(s) });
    let failure = responses_sse::failed(s, error_type, message);
    reveal_strlit("response.failed");
    lemma_event_fields("response.failed"@, failure_payload(s, error_type, message), s.sequence_number);
    assert(failure == turn.emit("response.failed"@, failure_payload(s, error_type, message)));
    lemma_emit_over(turn, "response.failed"@, failure_payload(s, error_type, message));
}

/// What a failure reports.
pub open spec fn failure_payload(s: ResponsesState, error_type: Seq<char>, message: Seq<char>) -> Map<
    Seq<char>,
    Tree,
> {
    map![
        "response"@ => Tree::Obj(
            map![
                "id"@ => Tree::Str(s.id),
                "object"@ => Tree::Str("response"@),
                "model"@ => Tree::Str(s.model),
                "status"@ => Tree::Str("failed"@),
                "output"@ => Tree::Arr(responses_sse::with_unfinished(s)),
                "error"@ => Tree::Obj(
                    map!["type"@ => Tree::Str(error_type), "message"@ => Tree::Str(message)],
                ),
            ],
        ),
    ]
}

proof fn lemma_step_ends(s: ResponsesState, e: Tree, id: Seq<char>)
    requires
        !s.ended,
    ensures
        goes_on(responses_sse::responses_step(s, e, id)) || is_over(
            responses_sse::responses_step(s, e, id),
        ),
{
    lemma_emit_goes_on();
    lemma_kinds_go_on();
    let start = Turn::from(s);
    assert(goes_on(start));
    lemma_close_goes_on(start);
    let closed = start.close();
    lemma_open_goes_on(start, chat_sse::index_of(e), id);
    lemma_open_goes_on(closed, chat_sse::index_of(e), id);
    lemma_open_call_goes_on(
        closed,
        chat_sse::index_of(e),
        chat_sse::text_in(e.get("content_block"@), "id"@),
        chat_sse::text_in(e.get("content_block"@), "name"@),
        id,
    );
    lemma_failed_is_over(
        s,
        chat_sse::error_type_of(e),
        chat_sse::error_message_of(e),
    );
    let last = Turn { state: responses_sse::over(closed.state), sent: closed.sent };
    lemma_emit_over(
        last,
        "response.completed"@,
        map!["response"@ => responses_sse::completed(closed.state, e)],
    );
}

/// At most one terminal event is sent, as the last of all, and only where the stream
/// is over; what comes after it is ignored.
pub proof fn law_one_terminal_event(s: ResponsesState, events: Seq<Tree>, ids: Seq<Seq<char>>)
    requires
        !s.ended,
    ensures
        goes_on(responses_sse::responses_run(s, events, ids)) || is_over(
            responses_sse::responses_run(s, events, ids),
        ),
    decreases events.len(),
{
    if events.len() > 0 {
        law_one_terminal_event(s, events.drop_last(), ids);
        let before = responses_sse::responses_run(s, events.drop_last(), ids);
        let id = ids[events.len() - 1];
        let step = responses_sse::responses_step(before.state, events.last(), id);
        if before.state.ended {
            assert(before.sent + Seq::<Tree>::empty() =~= before.sent);
        } else {
            lemma_step_ends(before.state, events.last(), id);
            lemma_ends_concat(before, step);
        }
    }
}

proof fn lemma_ends_concat(before: Turn, step: Turn)
    requires
        goes_on(before),
        goes_on(step) || is_over(step),
    ensures
        ({
            let both = Turn { state: step.state, sent: before.sent + step.sent };
            goes_on(both) || is_over(both)
        }),
{
    let both = Turn { state: step.state, sent: before.sent + step.sent };
    assert forall|i: int| 0 <= i < both.sent.len() - 1 implies !is_terminal(
        #[trigger] both.sent[i],
    ) by {
        if i < before.sent.len() {
            assert(both.sent[i] == before.sent[i]);
        } else {
            assert(both.sent[i] == step.sent[i - before.sent.len()]);
        }
    }
    if step.sent.len() > 0 {
        assert(both.sent.last() == step.sent.last());
    } else {
        assert(both.sent =~= before.sent);
    }
}

/// Every stream ends with exactly one terminal event, however the upstream connection went
/// away, and though nothing came at all.
pub proof fn law_every_stream_gets_a_terminal_event(
    s: ResponsesState,
    events: Seq<Tree>,
    ids: Seq<Seq<char>>,
)
    requires
        !s.ended,
    ensures
        ({
            let sent = responses_sse::finished(responses_sse::responses_run(s, events, ids));
            &&& sent.len() > 0
            &&& is_terminal(sent.last())
            &&& forall|i: int| 0 <= i < sent.len() - 1 ==> !is_terminal(#[trigger] sent[i])
        }),
{
    law_one_terminal_event(s, events, ids);
    let run = responses_sse::responses_run(s, events, ids);
    let failure = responses_sse::failed(
        run.state,
        "api_error"@,
        "upstream connection closed unexpectedly"@,
    );
    lemma_failed_is_over(run.state, "api_error"@, "upstream connection closed unexpectedly"@);
    if !run.state.ended {
        lemma_ends_concat(run, failure);
    }
}

/// The event announces the item with this id.
pub open spec fn announces(t: Tree, id: Seq<char>) -> bool {
    json::str_in(t.get("type"@)) == Some("response.output_item.added"@) && json::str_in(
        json::get_in(t.get("item"@), "id"@),
    ) == Some(id)
}

/// The id of the item that an event refers to, if it refers to one.
pub open spec fn refers_to(t: Tree) -> Option<Seq<char>> {
    json::str_in(t.get("item_id"@))
}

/// An item, by its id and its output index.
pub struct Pointer {
    pub id: Seq<char>,
    pub at: Option<Tree>,
}

/// The item with this id at this output index.
pub open spec fn pointer(id: Seq<char>, output_index: int) -> Pointer {
    Pointer { id, at: Some(Tree::Int(output_index)) }
}

/// The item that an event points to, if it refers to one: the id and the output index that
/// it carries.
pub open spec fn points_to(t: Tree) -> Option<Pointer> {
    match refers_to(t) {
        Some(id) => Some(Pointer { id, at: t.get("output_index"@) }),
        None => None,
    }
}

/// The event announces the item with this id at this output index.
pub open spec fn announces_at(t: Tree, to: Pointer) -> bool {
    announces(t, to.id) && t.get("output_index"@) == to.at && to.at matches Some(Tree::Int(_))
}

/// The item that is open.
pub open spec fn open_item(s: ResponsesState) -> Option<Pointer> {
    match s.open {
        Some(Item::Message { item_id, output_index, .. }) => Some(
            pointer(item_id, output_index),
        ),
        Some(Item::FunctionCall { item_id, output_index, .. }) => Some(
            pointer(item_id, output_index),
        ),
        None => None,
    }
}

/// The client knows the item that is pointed to: from before, or from one of these events.
pub open spec fn knows(known: Option<Pointer>, sent: Seq<Tree>, to: Pointer) -> bool {
    known == Some(to) || exists|j: int| 0 <= j < sent.len() && announces_at(#[trigger] sent[j], to)
}

/// Every event refers to an item that the client knew when it came, and the client
/// knows the item that is open.
pub open spec fn grounded(turn: Turn, known: Option<Pointer>) -> bool {
    &&& forall|i: int|
        0 <= i < turn.sent.len() ==> (points_to(#[trigger] turn.sent[i]) matches Some(id) ==> knows(
            known,
            turn.sent.take(i),
            id,
        ))
    &&& open_item(turn.state) matches Some(id) ==> knows(known, turn.sent, id)
}

proof fn lemma_knows_more(known: Option<Pointer>, a: Seq<Tree>, b: Seq<Tree>, to: Pointer)
    requires
        knows(known, a, to),
    ensures
        knows(known, a + b, to),
{
    if known != Some(to) {
        let j = choose|j: int| 0 <= j < a.len() && announces_at(#[trigger] a[j], to);
        assert((a + b)[j] == a[j]);
    }
}

proof fn lemma_keys()
    ensures
        "item_id"@ != "type"@,
        "item_id"@ != "sequence_number"@,
        "item_id"@ != "output_index"@,
        "item_id"@ != "content_index"@,
        "item_id"@ != "text"@,
        "item_id"@ != "part"@,
        "item_id"@ != "delta"@,
        "item_id"@ != "item"@,
        "item_id"@ != "response"@,
        "item_id"@ != "arguments"@,
        "output_index"@ != "type"@,
        "output_index"@ != "sequence_number"@,
        "output_index"@ != "content_index"@,
        "output_index"@ != "text"@,
        "output_index"@ != "part"@,
        "output_index"@ != "delta"@,
        "output_index"@ != "arguments"@,
        "item"@ != "type"@,
        "item"@ != "sequence_number"@,
        "item"@ != "output_index"@,
        "id"@ != "type"@,
        "id"@ != "role"@,
        "id"@ != "content"@,
        "id"@ != "status"@,
        "id"@ != "call_id"@,
        "id"@ != "name"@,
        "id"@ != "arguments"@,
{
    reveal_strlit("item_id");
    reveal_strlit("type");
    reveal_strlit("sequence_number");
    reveal_strlit("output_index");
    reveal_strlit("content_index");
    reveal_strlit("text");
    reveal_strlit("part");
    reveal_strlit("delta");
    reveal_strlit("item");
    reveal_strlit("response");
    reveal_strlit("arguments");
    reveal_strlit("id");
    reveal_strlit("role");
    reveal_strlit("content");
    reveal_strlit("status");
    reveal_strlit("call_id");
    reveal_strlit("name");
    assert("item_id"@.len() == 7);
    assert("type"@.len() == 4);
    assert("sequence_number"@.len() == 15);
    assert("output_index"@.len() == 12);
    assert("content_index"@.len() == 13);
    assert("text"@.len() == 4);
    assert("part"@.len() == 4);
    assert("delta"@.len() == 5);
    assert("item"@.len() == 4);
    assert("response"@.len() == 8);
    assert("arguments"@.len() == 9);
    assert("id"@.len() == 2);
    assert("role"@.len() == 4);
    assert("content"@.len() == 7);
    assert("status"@.len() == 6);
    assert("call_id"@.len() == 7);
    assert("name"@.len() == 4);
    assert("item"@[0] != "type"@[0]);
}

/// An event that refers to nothing, or to an item that the client knows, leaves all
/// references resolvable.
proof fn lemma_emit_grounded(
    turn: Turn,
    known: Option<Pointer>,
    kind: Seq<char>,
    payload: Map<Seq<char>, Tree>,
)
    requires
        grounded(turn, known),
        points_to(Tree::Obj(payload)) matches Some(id) ==> knows(known, turn.sent, id),
    ensures
        grounded(turn.emit(kind, payload), known),
{
    lemma_keys();
    let e = responses_sse::event(kind, payload, turn.state.sequence_number);
    let after = turn.emit(kind, payload);
    assert(points_to(e) == points_to(Tree::Obj(payload)));
    assert(after.sent =~= turn.sent + seq![e]);
    assert forall|i: int| 0 <= i < after.sent.len() implies (points_to(
        #[trigger] after.sent[i],
    ) matches Some(id) ==> knows(known, after.sent.take(i), id)) by {
        if i < turn.sent.len() {
            assert(after.sent[i] == turn.sent[i]);
            assert(after.sent.take(i) =~= turn.sent.take(i));
        } else {
            assert(after.sent.take(i) =~= turn.sent);
        }
    }
    if open_item(turn.state) is Some {
        lemma_knows_more(known, turn.sent, seq![e], open_item(turn.state)->0);
    }
}

/// An event that announces an item makes the client know it.
proof fn lemma_announced(turn: Turn, known: Option<Pointer>, payload: Map<Seq<char>, Tree>, to: Pointer)
    requires
        json::str_in(json::get_in(Tree::Obj(payload).get("item"@), "id"@)) == Some(to.id),
        Tree::Obj(payload).get("output_index"@) == to.at,
        to.at matches Some(Tree::Int(_)),
    ensures
        knows(known, turn.emit("response.output_item.added"@, payload).sent, to),
{
    lemma_keys();
    lemma_event_fields("response.output_item.added"@, payload, turn.state.sequence_number);
    let after = turn.emit("response.output_item.added"@, payload);
    assert(announces_at(after.sent[turn.sent.len() as int], to));
}

proof fn lemma_open_message_grounded(
    turn: Turn,
    known: Option<Pointer>,
    content_index: u64,
    id: Seq<char>,
)
    requires
        grounded(turn, known),
        turn.state.open is None,
    ensures
        grounded(turn.open_message(content_index, id), known),
{
    lemma_keys();
    let item_id = "msg_"@ + id;
    let output_index = turn.state.closed.len() as int;
    let item = Tree::Obj(
        map![
            "type"@ => Tree::Str("message"@),
            "id"@ => Tree::Str(item_id),
            "role"@ => Tree::Str("assistant"@),
            "content"@ => Tree::Arr(Seq::empty()),
            "status"@ => Tree::Str("in_progress"@),
        ],
    );
    assert(item.get("id"@) == Some(Tree::Str(item_id)));
    let first = map!["output_index"@ => Tree::Int(output_index), "item"@ => item];
    assert(Tree::Obj(first).get("item"@) == Some(item));
    assert(Tree::Obj(first).get("item_id"@) is None);
    lemma_emit_grounded(turn, known, "response.output_item.added"@, first);
    lemma_announced(turn, known, first, pointer(item_id, output_index));
    let announced = turn.emit("response.output_item.added"@, first);
    let second = map![
        "item_id"@ => Tree::Str(item_id),
        "output_index"@ => Tree::Int(output_index),
        "content_index"@ => Tree::Int(0),
        "part"@ => responses::output_text(""@),
    ];
    assert(points_to(Tree::Obj(second)) == Some(pointer(item_id, output_index)));
    lemma_emit_grounded(announced, known, "response.content_part.added"@, second);
    let both = announced.emit("response.content_part.added"@, second);
    assert(both.sent =~= announced.sent + seq![both.sent.last()]);
    lemma_knows_more(known, announced.sent, seq![both.sent.last()], pointer(item_id, output_index));
    let opened = turn.open_message(content_index, id);
    assert(opened.sent == both.sent);
    assert(open_item(opened.state) == Some(pointer(item_id, output_index)));
    assert forall|i: int| 0 <= i < opened.sent.len() implies (points_to(
        #[trigger] opened.sent[i],
    ) matches Some(id) ==> knows(known, opened.sent.take(i), id)) by {
        assert(opened.sent[i] == both.sent[i]);
    }
}

proof fn lemma_open_call_grounded(
    turn: Turn,
    known: Option<Pointer>,
    content_index: u64,
    call_id: Seq<char>,
    name: Seq<char>,
    id: Seq<char>,
)
    requires
        grounded(turn, known),
        turn.state.open is None,
    ensures
        grounded(turn.open_function_call(content_index, call_id, name, id), known),
{
    lemma_keys();
    let item_id = "fc_"@ + id;
    let item = responses::call_item(item_id, call_id, name, ""@, "in_progress"@);
    assert(item.get("id"@) == Some(Tree::Str(item_id)));
    let output_index = turn.state.closed.len() as int;
    let first = map!["output_index"@ => Tree::Int(output_index), "item"@ => item];
    assert(Tree::Obj(first).get("item"@) == Some(item));
    assert(Tree::Obj(first).get("item_id"@) is None);
    lemma_emit_grounded(turn, known, "response.output_item.added"@, first);
    lemma_announced(turn, known, first, pointer(item_id, output_index));
    let announced = turn.emit("response.output_item.added"@, first);
    let opened = turn.open_function_call(content_index, call_id, name, id);
    assert(opened.sent == announced.sent);
    assert forall|i: int| 0 <= i < opened.sent.len() implies (points_to(
        #[trigger] opened.sent[i],
    ) matches Some(id) ==> knows(known, opened.sent.take(i), id)) by {
        assert(opened.sent[i] == announced.sent[i]);
    }
}

/// A turn whose last event refers to the open item, or to nothing.
proof fn lemma_emit_open(
    turn: Turn,
    known: Option<Pointer>,
    kind: Seq<char>,
    payload: Map<Seq<char>, Tree>,
)
    requires
        grounded(turn, known),
        points_to(Tree::Obj(payload)) is None || points_to(Tree::Obj(payload)) == open_item(turn.state),
    ensures
        grounded(turn.emit(kind, payload), known),
        open_item(turn.emit(kind, payload).state) == open_item(turn.state),
{
    lemma_emit_grounded(turn, known, kind, payload);
}

proof fn lemma_settled_grounded(turn: Turn, known: Option<Pointer>, item: Tree)
    requires
        grounded(turn, known),
    ensures
        grounded(turn.settled(item), known),
{
    let after = turn.settled(item);
    assert forall|i: int| 0 <= i < after.sent.len() implies (points_to(
        #[trigger] after.sent[i],
    ) matches Some(id) ==> knows(known, after.sent.take(i), id)) by {
        assert(after.sent[i] == turn.sent[i]);
    }
}

proof fn lemma_close_grounded(turn: Turn, known: Option<Pointer>)
    requires
        grounded(turn, known),
    ensures
        grounded(turn.close(), known),
        turn.close().state.open is None,
{
    lemma_keys();
    match turn.state.open {
        None => {},
        Some(Item::Message { item_id, output_index, content_index, text }) => {
            let item = responses::message_item(item_id, "completed"@, text);
            let done = map![
                "item_id"@ => Tree::Str(item_id),
                "output_index"@ => Tree::Int(output_index),
                "content_index"@ => Tree::Int(0),
                "text"@ => Tree::Str(text),
            ];
            let part = map![
                "item_id"@ => Tree::Str(item_id),
                "output_index"@ => Tree::Int(output_index),
                "content_index"@ => Tree::Int(0),
                "part"@ => responses::output_text(text),
            ];
            let last = map!["output_index"@ => Tree::Int(output_index), "item"@ => item];
            assert(points_to(Tree::Obj(done)) == Some(pointer(item_id, output_index)));
            assert(points_to(Tree::Obj(part)) == Some(pointer(item_id, output_index)));
            assert(points_to(Tree::Obj(last)) is None);
            lemma_emit_open(turn, known, "response.output_text.done"@, done);
            let one = turn.emit("response.output_text.done"@, done);
            lemma_emit_open(one, known, "response.content_part.done"@, part);
            let two = one.emit("response.content_part.done"@, part);
            lemma_emit_open(two, known, "response.output_item.done"@, last);
            let three = two.item_done(output_index, item);
            lemma_settled_grounded(three, known, item);
        },
        Some(
            Item::FunctionCall { item_id, output_index, content_index, call_id, name, arguments },
        ) => {
            let settled = responses_sse::settled_arguments(arguments);
            let item = responses::call_item(item_id, call_id, name, settled, "completed"@);
            let done = map![
                "item_id"@ => Tree::Str(item_id),
                "output_index"@ => Tree::Int(output_index),
                "arguments"@ => Tree::Str(settled),
            ];
            let last = map!["output_index"@ => Tree::Int(output_index), "item"@ => item];
            assert(points_to(Tree::Obj(done)) == Some(pointer(item_id, output_index)));
            assert(points_to(Tree::Obj(last)) is None);
            lemma_emit_open(turn, known, "response.function_call_arguments.done"@, done);
            let one = turn.emit("response.function_call_arguments.done"@, done);
            lemma_emit_open(one, known, "response.output_item.done"@, last);
            let two = one.item_done(output_index, item);
            lemma_settled_grounded(two, known, item);
        },
    }
}

/// A change of the state that keeps the open item's id, or leaves none open.
proof fn lemma_same_open(turn: Turn, known: Option<Pointer>, state: ResponsesState)
    requires
        grounded(turn, known),
        open_item(state) is None || open_item(state) == open_item(turn.state),
    ensures
        grounded(Turn { state, sent: turn.sent }, known),
{
    let after = Turn { state, sent: turn.sent };
    assert forall|i: int| 0 <= i < after.sent.len() implies (points_to(
        #[trigger] after.sent[i],
    ) matches Some(id) ==> knows(known, after.sent.take(i), id)) by {
        assert(after.sent[i] == turn.sent[i]);
    }
}

proof fn lemma_text_delta_grounded(s: ResponsesState, e: Tree, id: Seq<char>)
    ensures
        grounded(responses_sse::on_text_delta(s, e, id), open_item(s)),
{
    lemma_keys();
    let known = open_item(s);
    assert(grounded(Turn::from(s), known));
    let at = chat_sse::index_of(e);
    let said = chat_sse::text_in(e.get("delta"@), "text"@);
    let turn = if s.open is None {
        lemma_open_message_grounded(Turn::from(s), known, at, id);
        Turn::from(s).open_message(at, id)
    } else {
        Turn::from(s)
    };
    match turn.state.open {
        Some(Item::Message { item_id, output_index, content_index, text }) => {
            let state = ResponsesState {
                open: Some(
                    Item::Message { item_id, output_index, content_index, text: text + said },
                ),
                ..turn.state
            };
            lemma_same_open(turn, known, state);
            let payload = map![
                "delta"@ => Tree::Str(said),
                "item_id"@ => Tree::Str(item_id),
                "output_index"@ => Tree::Int(output_index),
                "content_index"@ => Tree::Int(0),
            ];
            assert(points_to(Tree::Obj(payload)) == Some(pointer(item_id, output_index)));
            lemma_emit_open(
                Turn { state, sent: turn.sent },
                known,
                "response.output_text.delta"@,
                payload,
            );
        },
        _ => {},
    }
}

proof fn lemma_arguments_delta_grounded(s: ResponsesState, e: Tree)
    ensures
        grounded(responses_sse::on_arguments_delta(s, e), open_item(s)),
{
    lemma_keys();
    let known = open_item(s);
    assert(grounded(Turn::from(s), known));
    let part = chat_sse::text_in(e.get("delta"@), "partial_json"@);
    match s.open {
        Some(
            Item::FunctionCall { item_id, output_index, content_index, call_id, name, arguments },
        ) => {
            let state = ResponsesState {
                open: Some(
                    Item::FunctionCall {
                        item_id,
                        output_index,
                        content_index,
                        call_id,
                        name,
                        arguments: arguments + part,
                    },
                ),
                ..s
            };
            lemma_same_open(Turn::from(s), known, state);
            let payload = map![
                "item_id"@ => Tree::Str(item_id),
                "output_index"@ => Tree::Int(output_index),
                "delta"@ => Tree::Str(part),
            ];
            assert(points_to(Tree::Obj(payload)) == Some(pointer(item_id, output_index)));
            lemma_emit_open(
                Turn::from(state),
                known,
                "response.function_call_arguments.delta"@,
                payload,
            );
        },
        _ => {},
    }
}

proof fn lemma_start_grounded(s: ResponsesState, e: Tree)
    ensures
        grounded(responses_sse::on_message_start(s, e), open_item(s)),
{
    lemma_keys();
    let known = open_item(s);
    let after = responses_sse::on_message_start(s, e);
    if !s.started {
        let noted = ResponsesState { sequence_number: s.sequence_number, ..after.state };
        let turn = Turn::from(noted);
        assert(grounded(turn, known));
        let payload = turn.announced();
        assert(points_to(Tree::Obj(payload)) is None);
        lemma_emit_open(turn, known, "response.created"@, payload);
        let one = turn.emit("response.created"@, payload);
        lemma_emit_open(one, known, "response.in_progress"@, payload);
        assert(after == one.emit("response.in_progress"@, payload));
    }
}

proof fn lemma_block_start_grounded(s: ResponsesState, e: Tree, id: Seq<char>)
    ensures
        grounded(responses_sse::on_block_start(s, e, id), open_item(s)),
{
    let known = open_item(s);
    let block = e.get("content_block"@);
    let at = chat_sse::index_of(e);
    assert(grounded(Turn::from(s), known));
    lemma_close_grounded(Turn::from(s), known);
    let turn = Turn::from(s).close();
    lemma_open_message_grounded(turn, known, at, id);
    lemma_open_call_grounded(
        turn,
        known,
        at,
        chat_sse::text_in(block, "id"@),
        chat_sse::text_in(block, "name"@),
        id,
    );
}

proof fn lemma_end_grounded(s: ResponsesState, e: Tree)
    ensures
        grounded(responses_sse::on_message_delta(s, e), open_item(s)),
{
    lemma_keys();
    let known = open_item(s);
    assert(grounded(Turn::from(s), known));
    lemma_close_grounded(Turn::from(s), known);
    let turn = Turn::from(s).close();
    lemma_same_open(turn, known, responses_sse::over(turn.state));
    let payload = map!["response"@ => responses_sse::completed(turn.state, e)];
    assert(points_to(Tree::Obj(payload)) is None);
    lemma_emit_open(
        Turn { state: responses_sse::over(turn.state), sent: turn.sent },
        known,
        "response.completed"@,
        payload,
    );
}

proof fn lemma_failed_grounded(s: ResponsesState, error_type: Seq<char>, message: Seq<char>)
    ensures
        grounded(responses_sse::failed(s, error_type, message), open_item(s)),
{
    lemma_keys();
    let known = open_item(s);
    let turn = Turn::from(ResponsesState { open: None, ..responses_sse::over(s) });
    assert(grounded(turn, known));
    let payload = failure_payload(s, error_type, message);
    assert(points_to(Tree::Obj(payload)) is None);
    lemma_emit_open(turn, known, "response.failed"@, payload);
}

proof fn lemma_step_grounded(s: ResponsesState, e: Tree, id: Seq<char>)
    ensures
        grounded(responses_sse::responses_step(s, e, id), open_item(s)),
{
    lemma_start_grounded(s, e);
    lemma_block_start_grounded(s, e, id);
    lemma_text_delta_grounded(s, e, id);
    lemma_arguments_delta_grounded(s, e);
    lemma_end_grounded(s, e);
    lemma_failed_grounded(
        s,
        chat_sse::error_type_of(e),
        chat_sse::error_message_of(e),
    );
    assert(grounded(Turn::from(s), open_item(s)));
    lemma_close_grounded(Turn::from(s), open_item(s));
}

proof fn lemma_grounded_concat(before: Turn, step: Turn, known: Option<Pointer>)
    requires
        grounded(before, known),
        grounded(step, open_item(before.state)),
    ensures
        grounded(Turn { state: step.state, sent: before.sent + step.sent }, known),
{
    let both = Turn { state: step.state, sent: before.sent + step.sent };
    assert forall|id: Pointer, n: int|
        0 <= n <= step.sent.len() && #[trigger] knows(
            open_item(before.state),
            step.sent.take(n),
            id,
        ) implies knows(known, before.sent + step.sent.take(n), id) by {
        let part = step.sent.take(n);
        if open_item(before.state) == Some(id) {
            lemma_knows_more(known, before.sent, part, id);
        } else {
            let j = choose|j: int| 0 <= j < part.len() && announces_at(#[trigger] part[j], id);
            assert((before.sent + part)[before.sent.len() + j] == part[j]);
        }
    }
    assert forall|i: int| 0 <= i < both.sent.len() implies (points_to(
        #[trigger] both.sent[i],
    ) matches Some(id) ==> knows(known, both.sent.take(i), id)) by {
        if i < before.sent.len() {
            assert(both.sent[i] == before.sent[i]);
            assert(both.sent.take(i) =~= before.sent.take(i));
        } else {
            let n = i - before.sent.len();
            assert(both.sent[i] == step.sent[n]);
            assert(both.sent.take(i) =~= before.sent + step.sent.take(n));
        }
    }
    assert(step.sent.take(step.sent.len() as int) =~= step.sent);
}

/// No event refers to an item that the client was not told about: each one that names
/// an `item_id` comes after the `response.output_item.added` that announces this id.
pub proof fn law_items_are_announced_before_use(
    s: ResponsesState,
    events: Seq<Tree>,
    ids: Seq<Seq<char>>,
)
    requires
        s.open is None,
    ensures
        ({
            let sent = responses_sse::responses_run(s, events, ids).sent;
            forall|i: int|
                0 <= i < sent.len() ==> (refers_to(#[trigger] sent[i]) matches Some(id) ==> exists|j: int|
                    0 <= j < i && announces(#[trigger] sent[j], id))
        }),
{
    lemma_run_grounded(s, events, ids);
    let sent = responses_sse::responses_run(s, events, ids).sent;
    assert forall|i: int| 0 <= i < sent.len() implies (refers_to(#[trigger] sent[i]) matches Some(
        id,
    ) ==> exists|j: int| 0 <= j < i && announces(#[trigger] sent[j], id)) by {
        if refers_to(sent[i]) is Some {
            let to = points_to(sent[i])->0;
            let part = sent.take(i);
            assert(knows(None, part, to));
            let j = choose|j: int| 0 <= j < part.len() && announces_at(#[trigger] part[j], to);
            assert(sent[j] == part[j]);
        }
    }
}

/// Every event that carries an `item_id` carries the `output_index` of the
/// `response.output_item.added` that announced this id before it.
pub proof fn law_references_carry_the_announced_index(
    s: ResponsesState,
    events: Seq<Tree>,
    ids: Seq<Seq<char>>,
)
    requires
        s.open is None,
    ensures
        ({
            let sent = responses_sse::finished(responses_sse::responses_run(s, events, ids));
            forall|i: int|
                0 <= i < sent.len() ==> (points_to(#[trigger] sent[i]) matches Some(to) ==> exists|j: int|
                    0 <= j < i && announces_at(#[trigger] sent[j], to))
        }),
{
    lemma_run_grounded(s, events, ids);
    let run = responses_sse::responses_run(s, events, ids);
    let failure = responses_sse::failed(
        run.state,
        "api_error"@,
        "upstream connection closed unexpectedly"@,
    );
    lemma_failed_grounded(run.state, "api_error"@, "upstream connection closed unexpectedly"@);
    lemma_grounded_concat(run, failure, None);
    let sent = responses_sse::finished(run);
    assert forall|i: int| 0 <= i < sent.len() implies (points_to(#[trigger] sent[i]) matches Some(
        to,
    ) ==> exists|j: int| 0 <= j < i && announces_at(#[trigger] sent[j], to)) by {
        if points_to(sent[i]) is Some {
            let to = points_to(sent[i])->0;
            let part = sent.take(i);
            if run.state.ended {
                assert(knows(None, part, to));
            } else {
                let whole = Turn { state: failure.state, sent: run.sent + failure.sent };
                assert(whole.sent[i] == sent[i]);
                assert(knows(None, part, to));
            }
            let j = choose|j: int| 0 <= j < part.len() && announces_at(#[trigger] part[j], to);
            assert(sent[j] == part[j]);
        }
    }
}

proof fn lemma_run_grounded(s: ResponsesState, events: Seq<Tree>, ids: Seq<Seq<char>>)
    ensures
        grounded(responses_sse::responses_run(s, events, ids), open_item(s)),
    decreases events.len(),
{
    if events.len() > 0 {
        lemma_run_grounded(s, events.drop_last(), ids);
        let before = responses_sse::responses_run(s, events.drop_last(), ids);
        let id = ids[events.len() - 1];
        lemma_step_grounded(before.state, events.last(), id);
        lemma_grounded_concat(
            before,
            responses_sse::responses_step(before.state, events.last(), id),
            open_item(s),
        );
    }
}

/// The id of an item: a message's or a function call's.
pub open spec fn is_item_id(id: Seq<char>) -> bool {
    "msg_"@.is_prefix_of(id) || "fc_"@.is_prefix_of(id)
}

/// The id of an item, where it has one.
pub open spec fn id_of(item: Option<Tree>) -> Option<Seq<char>> {
    json::str_in(json::get_in(item, "id"@))
}

/// The event names an item by this id: it refers to it, holds it, or holds a response with
/// it in its output.
pub open spec fn names_item(t: Tree, id: Seq<char>) -> bool {
    let output = responses_sse_item_laws::terminal_output(t);
    ||| refers_to(t) == Some(id)
    ||| id_of(t.get("item"@)) == Some(id)
    ||| exists|k: int| 0 <= k < output.len() && id_of(Some(#[trigger] output[k])) == Some(id)
}

/// The items have ids of their own kind.
spec fn have_item_ids(items: Seq<Tree>) -> bool {
    forall|k: int|
        0 <= k < items.len() ==> (id_of(Some(#[trigger] items[k])) matches Some(id) ==> is_item_id(id))
}

/// Items have ids of their own kind, and a response this one.
spec fn has_proper_ids(t: Tree, response_id: Seq<char>) -> bool {
    &&& refers_to(t) matches Some(id) ==> is_item_id(id)
    &&& id_of(t.get("item"@)) matches Some(id) ==> is_item_id(id)
    &&& id_of(t.get("response"@)) matches Some(id) ==> id == response_id
    &&& have_item_ids(responses_sse_item_laws::terminal_output(t))
}

/// All that was sent, and all that is remembered, has proper ids.
spec fn keeps_ids(turn: Turn, response_id: Seq<char>) -> bool {
    &&& turn.state.id == response_id
    &&& open_item(turn.state) matches Some(to) ==> is_item_id(to.id)
    &&& have_item_ids(turn.state.closed)
    &&& forall|i: int|
        0 <= i < turn.sent.len() ==> has_proper_ids(#[trigger] turn.sent[i], response_id)
}

proof fn lemma_id_keys()
    ensures
        "response"@ != "type"@,
        "response"@ != "sequence_number"@,
        "response"@ != "output_index"@,
        "response"@ != "content_index"@,
        "response"@ != "item_id"@,
        "response"@ != "item"@,
        "response"@ != "part"@,
        "response"@ != "text"@,
        "response"@ != "delta"@,
        "response"@ != "arguments"@,
        "item"@ != "content_index"@,
        "item"@ != "text"@,
        "item"@ != "part"@,
        "item"@ != "delta"@,
        "item"@ != "arguments"@,
        "id"@ != "object"@,
        "id"@ != "model"@,
        "id"@ != "output"@,
        "id"@ != "usage"@,
        "id"@ != "error"@,
        "id"@ != "incomplete_details"@,
        "output"@ != "object"@,
        "output"@ != "model"@,
        "output"@ != "status"@,
        "output"@ != "usage"@,
        "output"@ != "error"@,
        "output"@ != "incomplete_details"@,
{
    lemma_response_key();
    reveal_strlit("item");
    reveal_strlit("text");
    reveal_strlit("part");
    reveal_strlit("delta");
    reveal_strlit("arguments");
    reveal_strlit("content_index");
    reveal_strlit("id");
    reveal_strlit("object");
    reveal_strlit("model");
    reveal_strlit("output");
    reveal_strlit("status");
    reveal_strlit("usage");
    reveal_strlit("error");
    reveal_strlit("incomplete_details");
    assert("item"@.len() == 4);
    assert("delta"@.len() == 5);
    assert("arguments"@.len() == 9);
    assert("content_index"@.len() == 13);
    assert("id"@.len() == 2);
    assert("object"@.len() == 6);
    assert("model"@.len() == 5);
    assert("output"@.len() == 6);
    assert("status"@.len() == 6);
    assert("usage"@.len() == 5);
    assert("error"@.len() == 5);
    assert("incomplete_details"@.len() == 18);
    assert("item"@[0] != "text"@[0]);
    assert("item"@[0] != "part"@[0]);
    assert("output"@[1] != "object"@[1]);
    assert("output"@[0] != "status"@[0]);
}

proof fn lemma_emit_keeps_ids(response_id: Seq<char>)
    ensures
        forall|turn: Turn, kind: Seq<char>, payload: Map<Seq<char>, Tree>|
            keeps_ids(turn, response_id) && has_proper_ids(Tree::Obj(payload), response_id)
                ==> keeps_ids(#[trigger] turn.emit(kind, payload), response_id),
{
    lemma_keys();
    lemma_id_keys();
    assert forall|turn: Turn, kind: Seq<char>, payload: Map<Seq<char>, Tree>|
        keeps_ids(turn, response_id) && has_proper_ids(Tree::Obj(payload), response_id)
            implies keeps_ids(#[trigger] turn.emit(kind, payload), response_id) by {
        let after = turn.emit(kind, payload);
        let t = responses_sse::event(kind, payload, turn.state.sequence_number);
        assert(t.get("response"@) == Tree::Obj(payload).get("response"@));
        assert(t.get("item"@) == Tree::Obj(payload).get("item"@));
        assert(t.get("item_id"@) == Tree::Obj(payload).get("item_id"@));
        assert forall|i: int| 0 <= i < after.sent.len() implies has_proper_ids(
            #[trigger] after.sent[i],
            response_id,
        ) by {
            if i < turn.sent.len() {
                assert(after.sent[i] == turn.sent[i]);
            }
        }
    }
}

/// One more item with an id of its kind.
proof fn lemma_push_item(items: Seq<Tree>, item: Tree)
    requires
        have_item_ids(items),
        id_of(Some(item)) matches Some(id) ==> is_item_id(id),
    ensures
        have_item_ids(items.push(item)),
{
    let more = items.push(item);
    assert forall|k: int| 0 <= k < more.len() implies (id_of(Some(#[trigger] more[k])) matches Some(
        id,
    ) ==> is_item_id(id)) by {
        if k < items.len() {
            assert(more[k] == items[k]);
        }
    }
}

proof fn lemma_item_id(id: Seq<char>, response_id: Seq<char>)
    requires
        is_item_id(id),
        "resp_"@.is_prefix_of(response_id),
    ensures
        id != response_id,
{
    reveal_strlit("msg_");
    reveal_strlit("fc_");
    reveal_strlit("resp_");
    assert("msg_"@[0] == id[0] || "fc_"@[0] == id[0]);
    assert("resp_"@[0] == response_id[0]);
}

proof fn lemma_close_keeps_ids(turn: Turn, response_id: Seq<char>)
    requires
        keeps_ids(turn, response_id),
    ensures
        keeps_ids(turn.close(), response_id),
{
    lemma_keys();
    lemma_id_keys();
    lemma_emit_keeps_ids(response_id);
    match turn.state.open {
        None => {},
        Some(Item::Message { item_id, output_index, content_index, text }) => {
            let item = responses::message_item(item_id, "completed"@, text);
            assert(id_of(Some(item)) == Some(item_id));
            let done = map![
                "item_id"@ => Tree::Str(item_id),
                "output_index"@ => Tree::Int(output_index),
                "content_index"@ => Tree::Int(0),
                "text"@ => Tree::Str(text),
            ];
            let part = map![
                "item_id"@ => Tree::Str(item_id),
                "output_index"@ => Tree::Int(output_index),
                "content_index"@ => Tree::Int(0),
                "part"@ => responses::output_text(text),
            ];
            let last = map!["output_index"@ => Tree::Int(output_index), "item"@ => item];
            assert(has_proper_ids(Tree::Obj(done), response_id));
            assert(has_proper_ids(Tree::Obj(part), response_id));
            assert(has_proper_ids(Tree::Obj(last), response_id));
            lemma_push_item(turn.state.closed, item);
            let one = turn.emit("response.output_text.done"@, done);
            let two = one.emit("response.content_part.done"@, part);
            let three = two.item_done(output_index, item);
            assert(keeps_ids(three, response_id));
            assert(turn.close() == three.settled(item));
        },
        Some(
            Item::FunctionCall { item_id, output_index, content_index, call_id, name, arguments },
        ) => {
            let settled = responses_sse::settled_arguments(arguments);
            let item = responses::call_item(item_id, call_id, name, settled, "completed"@);
            assert(id_of(Some(item)) == Some(item_id));
            let done = map![
                "item_id"@ => Tree::Str(item_id),
                "output_index"@ => Tree::Int(output_index),
                "arguments"@ => Tree::Str(settled),
            ];
            let last = map!["output_index"@ => Tree::Int(output_index), "item"@ => item];
            assert(has_proper_ids(Tree::Obj(done), response_id));
            assert(has_proper_ids(Tree::Obj(last), response_id));
            lemma_push_item(turn.state.closed, item);
            let one = turn.emit("response.function_call_arguments.done"@, done);
            let two = one.item_done(output_index, item);
            assert(keeps_ids(two, response_id));
            assert(turn.close() == two.settled(item));
        },
    }
}

proof fn lemma_open_keeps_ids(turn: Turn, response_id: Seq<char>, at: u64, id: Seq<char>)
    requires
        keeps_ids(turn, response_id),
    ensures
        keeps_ids(turn.open_message(at, id), response_id),
{
    lemma_keys();
    lemma_id_keys();
    lemma_emit_keeps_ids(response_id);
    let item_id = "msg_"@ + id;
    assert("msg_"@.is_prefix_of(item_id));
    let output_index = turn.state.closed.len() as int;
    let item = Tree::Obj(
        map![
            "type"@ => Tree::Str("message"@),
            "id"@ => Tree::Str(item_id),
            "role"@ => Tree::Str("assistant"@),
            "content"@ => Tree::Arr(Seq::empty()),
            "status"@ => Tree::Str("in_progress"@),
        ],
    );
    assert(id_of(Some(item)) == Some(item_id));
    let first = map!["output_index"@ => Tree::Int(output_index), "item"@ => item];
    let second = map![
        "item_id"@ => Tree::Str(item_id),
        "output_index"@ => Tree::Int(output_index),
        "content_index"@ => Tree::Int(0),
        "part"@ => responses::output_text(""@),
    ];
    assert(has_proper_ids(Tree::Obj(first), response_id));
    assert(has_proper_ids(Tree::Obj(second), response_id));
    let one = turn.emit("response.output_item.added"@, first);
    let two = one.emit("response.content_part.added"@, second);
    assert(keeps_ids(two, response_id));
    assert(turn.open_message(at, id).sent == two.sent);
}

proof fn lemma_open_call_keeps_ids(
    turn: Turn,
    response_id: Seq<char>,
    at: u64,
    call_id: Seq<char>,
    name: Seq<char>,
    id: Seq<char>,
)
    requires
        keeps_ids(turn, response_id),
    ensures
        keeps_ids(turn.open_function_call(at, call_id, name, id), response_id),
{
    lemma_keys();
    lemma_id_keys();
    lemma_emit_keeps_ids(response_id);
    let item_id = "fc_"@ + id;
    assert("fc_"@.is_prefix_of(item_id));
    let item = responses::call_item(item_id, call_id, name, ""@, "in_progress"@);
    assert(id_of(Some(item)) == Some(item_id));
    let first = map!["output_index"@ => Tree::Int(turn.state.closed.len() as int), "item"@ => item];
    assert(has_proper_ids(Tree::Obj(first), response_id));
    let one = turn.emit("response.output_item.added"@, first);
    assert(keeps_ids(one, response_id));
    assert(turn.open_function_call(at, call_id, name, id).sent == one.sent);
}

proof fn lemma_deltas_keep_ids(s: ResponsesState, response_id: Seq<char>, e: Tree, id: Seq<char>)
    requires
        keeps_ids(Turn::from(s), response_id),
    ensures
        keeps_ids(responses_sse::on_text_delta(s, e, id), response_id),
        keeps_ids(responses_sse::on_arguments_delta(s, e), response_id),
{
    lemma_keys();
    lemma_id_keys();
    lemma_emit_keeps_ids(response_id);
    let start = Turn::from(s);
    let at = chat_sse::index_of(e);
    lemma_open_keeps_ids(start, response_id, at, id);
    let turn = if s.open is None {
        start.open_message(at, id)
    } else {
        start
    };
    let said = chat_sse::text_in(e.get("delta"@), "text"@);
    if let Some(Item::Message { item_id, output_index, content_index, text }) = turn.state.open {
        let state = ResponsesState {
            open: Some(Item::Message { item_id, output_index, content_index, text: text + said }),
            ..turn.state
        };
        let noted = Turn { state, sent: turn.sent };
        assert(keeps_ids(noted, response_id));
        let payload = map![
            "delta"@ => Tree::Str(said),
            "item_id"@ => Tree::Str(item_id),
            "output_index"@ => Tree::Int(output_index),
            "content_index"@ => Tree::Int(0),
        ];
        assert(has_proper_ids(Tree::Obj(payload), response_id));
        assert(keeps_ids(noted.emit("response.output_text.delta"@, payload), response_id));
    }
    let part = chat_sse::text_in(e.get("delta"@), "partial_json"@);
    if let Some(
        Item::FunctionCall { item_id, output_index, content_index, call_id, name, arguments },
    ) = s.open {
        let state = ResponsesState {
            open: Some(
                Item::FunctionCall {
                    item_id,
                    output_index,
                    content_index,
                    call_id,
                    name,
                    arguments: arguments + part,
                },
            ),
            ..s
        };
        assert(keeps_ids(Turn::from(state), response_id));
        let payload = map![
            "item_id"@ => Tree::Str(item_id),
            "output_index"@ => Tree::Int(output_index),
            "delta"@ => Tree::Str(part),
        ];
        assert(has_proper_ids(Tree::Obj(payload), response_id));
        let kind = "response.function_call_arguments.delta"@;
        assert(keeps_ids(Turn::from(state).emit(kind, payload), response_id));
    }
}

proof fn lemma_start_keeps_ids(s: ResponsesState, response_id: Seq<char>, e: Tree)
    requires
        keeps_ids(Turn::from(s), response_id),
    ensures
        keeps_ids(responses_sse::on_message_start(s, e), response_id),
{
    lemma_keys();
    lemma_id_keys();
    lemma_emit_keeps_ids(response_id);
    let after = responses_sse::on_message_start(s, e);
    if !s.started {
        let noted = ResponsesState { sequence_number: s.sequence_number, ..after.state };
        let turn = Turn::from(noted);
        assert(keeps_ids(turn, response_id));
        let payload = turn.announced();
        assert(has_proper_ids(Tree::Obj(payload), response_id));
        let one = turn.emit("response.created"@, payload);
        assert(keeps_ids(one, response_id));
        assert(after == one.emit("response.in_progress"@, payload));
    }
}

proof fn lemma_end_keeps_ids(s: ResponsesState, response_id: Seq<char>, e: Tree)
    requires
        keeps_ids(Turn::from(s), response_id),
    ensures
        keeps_ids(responses_sse::on_message_delta(s, e), response_id),
{
    lemma_keys();
    lemma_id_keys();
    lemma_emit_keeps_ids(response_id);
    lemma_close_keeps_ids(Turn::from(s), response_id);
    let turn = Turn::from(s).close();
    let ended = Turn { state: responses_sse::over(turn.state), sent: turn.sent };
    assert(keeps_ids(ended, response_id));
    let response = responses_sse::completed(turn.state, e);
    assert(response.get("id"@) == Some(Tree::Str(response_id)));
    assert(response.get("output"@) == Some(Tree::Arr(turn.state.closed)));
    let payload = map!["response"@ => response];
    assert(has_proper_ids(Tree::Obj(payload), response_id));
    assert(keeps_ids(ended.emit("response.completed"@, payload), response_id));
}

proof fn lemma_failed_keeps_ids(
    s: ResponsesState,
    response_id: Seq<char>,
    error_type: Seq<char>,
    message: Seq<char>,
)
    requires
        keeps_ids(Turn::from(s), response_id),
    ensures
        keeps_ids(responses_sse::failed(s, error_type, message), response_id),
{
    lemma_keys();
    lemma_id_keys();
    lemma_emit_keeps_ids(response_id);
    let output = responses_sse::with_unfinished(s);
    if s.open is Some {
        assert(id_of(Some(output.last())) == Some(open_item(s)->0.id));
        lemma_push_item(s.closed, output.last());
    }
    assert(have_item_ids(output));
    let turn = Turn::from(ResponsesState { open: None, ..responses_sse::over(s) });
    assert(keeps_ids(turn, response_id));
    let payload = failure_payload(s, error_type, message);
    assert(responses_sse_item_laws::terminal_output(Tree::Obj(payload)) == output);
    assert(has_proper_ids(Tree::Obj(payload), response_id));
    assert(keeps_ids(turn.emit("response.failed"@, payload), response_id));
}

proof fn lemma_step_keeps_ids(s: ResponsesState, response_id: Seq<char>, e: Tree, id: Seq<char>)
    requires
        keeps_ids(Turn::from(s), response_id),
    ensures
        keeps_ids(responses_sse::responses_step(s, e, id), response_id),
{
    let start = Turn::from(s);
    lemma_start_keeps_ids(s, response_id, e);
    lemma_deltas_keep_ids(s, response_id, e, id);
    lemma_end_keeps_ids(s, response_id, e);
    lemma_failed_keeps_ids(s, response_id, chat_sse::error_type_of(e), chat_sse::error_message_of(e));
    lemma_close_keeps_ids(start, response_id);
    let at = chat_sse::index_of(e);
    let block = e.get("content_block"@);
    lemma_open_keeps_ids(start.close(), response_id, at, id);
    lemma_open_call_keeps_ids(
        start.close(),
        response_id,
        at,
        chat_sse::text_in(block, "id"@),
        chat_sse::text_in(block, "name"@),
        id,
    );
}

proof fn lemma_ids_concat(before: Turn, step: Turn, response_id: Seq<char>)
    requires
        keeps_ids(before, response_id),
        keeps_ids(step, response_id),
    ensures
        keeps_ids(Turn { state: step.state, sent: before.sent + step.sent }, response_id),
{
    let both = before.sent + step.sent;
    assert forall|i: int| 0 <= i < both.len() implies has_proper_ids(
        #[trigger] both[i],
        response_id,
    ) by {
        if i < before.sent.len() {
            assert(both[i] == before.sent[i]);
        } else {
            assert(both[i] == step.sent[i - before.sent.len()]);
        }
    }
}

proof fn lemma_run_keeps_ids(s: ResponsesState, events: Seq<Tree>, ids: Seq<Seq<char>>)
    requires
        s.open is None,
        s.closed.len() == 0,
    ensures
        keeps_ids(responses_sse::responses_run(s, events, ids), s.id),
    decreases events.len(),
{
    if events.len() > 0 {
        lemma_run_keeps_ids(s, events.drop_last(), ids);
        let before = responses_sse::responses_run(s, events.drop_last(), ids);
        let id = ids[events.len() - 1];
        assert(keeps_ids(Turn::from(before.state), s.id));
        lemma_step_keeps_ids(before.state, s.id, events.last(), id);
        let step = responses_sse::responses_step(before.state, events.last(), id);
        lemma_ids_concat(before, step, s.id);
    }
}

/// No item has the id of the response: every response that is sent carries the response's
/// id, and no event names an item by it.
pub proof fn law_item_ids_are_not_the_response_id(
    s: ResponsesState,
    events: Seq<Tree>,
    ids: Seq<Seq<char>>,
)
    requires
        s.open is None,
        s.closed.len() == 0,
        "resp_"@.is_prefix_of(s.id),
    ensures
        ({
            let sent = responses_sse::finished(responses_sse::responses_run(s, events, ids));
            &&& forall|i: int|
                0 <= i < sent.len() ==> !names_item(#[trigger] sent[i], s.id)
            &&& forall|i: int|
                0 <= i < sent.len() ==> (id_of((#[trigger] sent[i]).get("response"@)) matches Some(
                    id,
                ) ==> id == s.id)
        }),
{
    lemma_run_keeps_ids(s, events, ids);
    let run = responses_sse::responses_run(s, events, ids);
    let error_type = "api_error"@;
    let message = "upstream connection closed unexpectedly"@;
    let failure = responses_sse::failed(run.state, error_type, message);
    assert(keeps_ids(Turn::from(run.state), s.id));
    lemma_failed_keeps_ids(run.state, s.id, error_type, message);
    lemma_ids_concat(run, failure, s.id);
    let sent = responses_sse::finished(run);
    let whole = Turn { state: failure.state, sent: run.sent + failure.sent };
    assert forall|i: int| 0 <= i < sent.len() implies !names_item(#[trigger] sent[i], s.id) && (
    id_of(sent[i].get("response"@)) matches Some(id) ==> id == s.id) by {
        if run.state.ended {
            assert(has_proper_ids(run.sent[i], s.id));
        } else {
            assert(has_proper_ids(whole.sent[i], s.id));
        }
        if is_item_id(s.id) {
            lemma_item_id(s.id, s.id);
        }
    }
}

/// The response that an event carries, if any, names this model.
pub open spec fn names_model(t: Tree, model: Seq<char>) -> bool {
    t.get("response"@) matches Some(response) ==> response.get("model"@) == Some(Tree::Str(model))
}

/// The model is pinned, and no response that was sent names another.
pub open spec fn keeps_model(turn: Turn, model: Seq<char>) -> bool {
    &&& turn.state.pinned
    &&& turn.state.model == model
    &&& forall|i: int| 0 <= i < turn.sent.len() ==> names_model(#[trigger] turn.sent[i], model)
}

proof fn lemma_response_key()
    ensures
        "response"@ != "type"@,
        "response"@ != "sequence_number"@,
        "response"@ != "output_index"@,
        "response"@ != "content_index"@,
        "response"@ != "item_id"@,
        "response"@ != "item"@,
        "response"@ != "part"@,
        "response"@ != "text"@,
        "response"@ != "delta"@,
        "response"@ != "arguments"@,
        "model"@ != "status"@,
        "model"@ != "output"@,
        "model"@ != "usage"@,
        "model"@ != "error"@,
        "model"@ != "incomplete_details"@,
{
    lemma_keys();
    reveal_strlit("response");
    reveal_strlit("type");
    reveal_strlit("sequence_number");
    reveal_strlit("output_index");
    reveal_strlit("content_index");
    reveal_strlit("item");
    reveal_strlit("part");
    reveal_strlit("text");
    reveal_strlit("delta");
    reveal_strlit("arguments");
    reveal_strlit("model");
    reveal_strlit("status");
    reveal_strlit("output");
    reveal_strlit("usage");
    reveal_strlit("error");
    reveal_strlit("incomplete_details");
    assert("response"@.len() == 8);
    assert("type"@.len() == 4);
    assert("sequence_number"@.len() == 15);
    assert("output_index"@.len() == 12);
    assert("content_index"@.len() == 13);
    assert("item"@.len() == 4);
    assert("part"@.len() == 4);
    assert("text"@.len() == 4);
    assert("delta"@.len() == 5);
    assert("arguments"@.len() == 9);
    assert("model"@.len() == 5);
    assert("status"@.len() == 6);
    assert("output"@.len() == 6);
    assert("incomplete_details"@.len() == 18);
    assert("model"@[0] != "usage"@[0]);
    assert("model"@[0] != "error"@[0]);
}

proof fn lemma_emit_keeps_model(model: Seq<char>)
    ensures
        forall|turn: Turn, kind: Seq<char>, payload: Map<Seq<char>, Tree>|
            keeps_model(turn, model) && names_model(Tree::Obj(payload), model) ==> keeps_model(
                #[trigger] turn.emit(kind, payload),
                model,
            ),
{
    lemma_response_key();
    assert forall|turn: Turn, kind: Seq<char>, payload: Map<Seq<char>, Tree>|
        keeps_model(turn, model) && names_model(Tree::Obj(payload), model) implies keeps_model(
        #[trigger] turn.emit(kind, payload),
        model,
    ) by {
        let after = turn.emit(kind, payload);
        assert forall|i: int| 0 <= i < after.sent.len() implies names_model(
            #[trigger] after.sent[i],
            model,
        ) by {
            if i < turn.sent.len() {
                assert(after.sent[i] == turn.sent[i]);
            }
        }
    }
}

proof fn lemma_close_keeps_model(turn: Turn, model: Seq<char>)
    requires
        keeps_model(turn, model),
    ensures
        keeps_model(turn.close(), model),
{
    lemma_response_key();
    lemma_emit_keeps_model(model);
}

proof fn lemma_open_keeps_model(turn: Turn, model: Seq<char>, at: u64, id: Seq<char>)
    requires
        keeps_model(turn, model),
    ensures
        keeps_model(turn.open_message(at, id), model),
{
    lemma_response_key();
    lemma_emit_keeps_model(model);
}

proof fn lemma_open_call_keeps_model(
    turn: Turn,
    model: Seq<char>,
    at: u64,
    call_id: Seq<char>,
    name: Seq<char>,
    id: Seq<char>,
)
    requires
        keeps_model(turn, model),
    ensures
        keeps_model(turn.open_function_call(at, call_id, name, id), model),
{
    lemma_response_key();
    lemma_emit_keeps_model(model);
}

proof fn lemma_step_keeps_model(s: ResponsesState, e: Tree, id: Seq<char>)
    requires
        s.pinned,
    ensures
        keeps_model(responses_sse::responses_step(s, e, id), s.model),
{
    let model = s.model;
    lemma_response_key();
    lemma_emit_keeps_model(model);
    let start = Turn::from(s);
    assert(keeps_model(start, model));
    lemma_close_keeps_model(start, model);
    let closed = start.close();
    let at = chat_sse::index_of(e);
    lemma_open_keeps_model(start, model, at, id);
    lemma_open_keeps_model(closed, model, at, id);
    lemma_open_call_keeps_model(
        closed,
        model,
        at,
        chat_sse::text_in(e.get("content_block"@), "id"@),
        chat_sse::text_in(e.get("content_block"@), "name"@),
        id,
    );
    assert(names_model(
        Tree::Obj(map!["response"@ => responses_sse::completed(closed.state, e)]),
        model,
    ));
}

/// The model that the client asked for is never overwritten, and every response that
/// is sent names it.
pub proof fn law_pinned_model_is_on_every_response(
    s: ResponsesState,
    events: Seq<Tree>,
    ids: Seq<Seq<char>>,
)
    requires
        s.pinned,
    ensures
        keeps_model(responses_sse::responses_run(s, events, ids), s.model),
    decreases events.len(),
{
    if events.len() > 0 {
        law_pinned_model_is_on_every_response(s, events.drop_last(), ids);
        let before = responses_sse::responses_run(s, events.drop_last(), ids);
        let id = ids[events.len() - 1];
        let step = responses_sse::responses_step(before.state, events.last(), id);
        lemma_step_keeps_model(before.state, events.last(), id);
        lemma_model_concat(before, step, s.model);
    }
}

proof fn lemma_model_concat(before: Turn, step: Turn, model: Seq<char>)
    requires
        keeps_model(before, model),
        keeps_model(step, model),
    ensures
        keeps_model(Turn { state: step.state, sent: before.sent + step.sent }, model),
{
    let both = before.sent + step.sent;
    assert forall|i: int| 0 <= i < both.len() implies names_model(#[trigger] both[i], model) by {
        if i < before.sent.len() {
            assert(both[i] == before.sent[i]);
        } else {
            assert(both[i] == step.sent[i - before.sent.len()]);
        }
    }
}

/// The arguments that a function call is reported with are never blank: they are `{}`, or a
/// text that reads as an object.
pub proof fn law_reported_arguments_are_not_blank(arguments: Seq<char>)
    ensures
        text::trimmed(responses_sse::settled_arguments(arguments)).len() > 0,
        responses_sse::settled_arguments(arguments) == "{}"@ || responses_sse::reads_as_object(
            responses_sse::settled_arguments(arguments),
        ),
{
    reveal_strlit("{}");
    text::lemma_trimmed_not_empty("{}"@);
}

} // verus!
