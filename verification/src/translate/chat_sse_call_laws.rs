//! What holds of the tool calls of every Chat Completions stream.

use vstd::prelude::*;

use crate::json;
use crate::json::Tree;
use crate::translate::chat_sse;
use crate::translate::chat_sse::{ChatState, Frame};
use crate::translate::chat_sse_laws;

verus! {

/// What a client reads of the tool calls.
pub enum Said {
    /// A call was announced at this index, with this id and this name.
    Announced { at: int, id: Seq<char>, name: Seq<char> },
    /// The arguments of the call at this index go on with this text.
    Fragment { at: int, text: Seq<char> },
}

/// What a client reads of the tool calls in a delta.
pub open spec fn said_in_delta(delta: Option<Tree>) -> Seq<Said> {
    match json::get_in(delta, "tool_calls"@) {
        Some(Tree::Arr(calls)) => if calls.len() == 1 {
            let function = calls[0].get("function"@);
            match (calls[0].get("index"@), calls[0].get("id"@)) {
                (Some(Tree::Int(at)), Some(Tree::Str(id))) => seq![
                    Said::Announced { at, id, name: chat_sse::text_in(function, "name"@) },
                ],
                (Some(Tree::Int(at)), None) => seq![
                    Said::Fragment { at, text: chat_sse::text_in(function, "arguments"@) },
                ],
                _ => Seq::empty(),
            }
        } else {
            Seq::empty()
        },
        _ => Seq::empty(),
    }
}

/// What a client reads of the tool calls in a frame.
pub open spec fn said_in_frame(f: Frame) -> Seq<Said> {
    match f {
        Frame::Data(t) => match t.get("choices"@) {
            Some(Tree::Arr(choices)) => if choices.len() == 1 {
                said_in_delta(choices[0].get("delta"@))
            } else {
                Seq::empty()
            },
            _ => Seq::empty(),
        },
        Frame::Done => Seq::empty(),
    }
}

/// What a client reads of the tool calls in a sequence of frames.
pub open spec fn said_in_frames(frames: Seq<Frame>) -> Seq<Said>
    decreases frames.len(),
{
    if frames.len() == 0 {
        Seq::empty()
    } else {
        said_in_frames(frames.drop_last()) + said_in_frame(frames.last())
    }
}

/// The event starts a tool call.
pub open spec fn starts_call(event: Tree) -> bool {
    json::str_in(event.get("type"@)) == Some("content_block_start"@) && json::str_in(
        json::get_in(event.get("content_block"@), "type"@),
    ) == Some("tool_use"@)
}

/// The content-block indices of the tool calls that events start, in the order of their
/// start.
pub open spec fn calls_of(events: Seq<Tree>) -> Seq<u64>
    decreases events.len(),
{
    if events.len() == 0 {
        Seq::empty()
    } else if starts_call(events.last()) {
        calls_of(events.drop_last()).push(chat_sse::index_of(events.last()))
    } else {
        calls_of(events.drop_last())
    }
}

/// What an event says of the tool calls, after those that were started before it.
pub open spec fn said_by_event(started: Seq<u64>, event: Tree) -> Seq<Said> {
    if starts_call(event) {
        let block = event.get("content_block"@);
        seq![
            Said::Announced {
                at: started.len() as int,
                id: chat_sse::text_in(block, "id"@),
                name: chat_sse::text_in(block, "name"@),
            },
        ]
    } else if chat_sse_laws::is_fragment_event(event) {
        match chat_sse::last_call(started, chat_sse::index_of(event)) {
            Some(at) => seq![
                Said::Fragment { at, text: chat_sse::text_in(event.get("delta"@), "partial_json"@) },
            ],
            None => Seq::empty(),
        }
    } else {
        Seq::empty()
    }
}

/// What events say of the tool calls.
pub open spec fn said_by_events(events: Seq<Tree>) -> Seq<Said>
    decreases events.len(),
{
    if events.len() == 0 {
        Seq::empty()
    } else {
        said_by_events(events.drop_last()) + said_by_event(
            calls_of(events.drop_last()),
            events.last(),
        )
    }
}

/// The client reads of the tool calls what the upstream said of them: each start is
/// announced once, at the number of calls started before it; each piece of arguments goes to
/// the call that was started last at its content-block index; and a piece for a block that
/// was not announced as a call is dropped.
pub proof fn law_tool_calls_are_passed_on(s: ChatState, events: Seq<Tree>)
    requires
        s.calls.len() == 0,
    ensures
        said_in_frames(chat_sse::chat_run(s, events).1) == said_by_events(events),
        chat_sse::chat_run(s, events).0.calls == calls_of(events),
    decreases events.len(),
{
    if events.len() > 0 {
        law_tool_calls_are_passed_on(s, events.drop_last());
        let before = chat_sse::chat_run(s, events.drop_last());
        let step = chat_sse::chat_step(before.0, events.last());
        lemma_said_concat(before.1, step.1);
        lemma_step_said(before.0, events.last());
    } else {
        assert(s.calls =~= Seq::empty());
    }
}

/// The indices at which calls were announced.
pub open spec fn announced(said: Seq<Said>) -> Seq<int>
    decreases said.len(),
{
    if said.len() == 0 {
        Seq::empty()
    } else {
        match said.last() {
            Said::Announced { at, .. } => announced(said.drop_last()).push(at),
            Said::Fragment { .. } => announced(said.drop_last()),
        }
    }
}

/// The tool calls of a stream are announced at the indices 0, 1, 2 and so on, one for each
/// start, and a piece of arguments names an index that was announced before it.
pub proof fn law_indices_count_the_calls(s: ChatState, events: Seq<Tree>)
    requires
        s.calls.len() == 0,
    ensures
        ({
            let said = said_in_frames(chat_sse::chat_run(s, events).1);
            &&& announced(said) == Seq::new(calls_of(events).len(), |i: int| i)
            &&& forall|i: int|
                0 <= i < said.len() ==> (#[trigger] said[i] matches Said::Fragment { at, .. } ==> 0
                    <= at < announced(said.take(i)).len())
        }),
{
    law_tool_calls_are_passed_on(s, events);
    lemma_indices(events);
}

proof fn lemma_indices(events: Seq<Tree>)
    ensures
        ({
            let said = said_by_events(events);
            &&& announced(said) == Seq::new(calls_of(events).len(), |i: int| i)
            &&& forall|i: int|
                0 <= i < said.len() ==> (#[trigger] said[i] matches Said::Fragment { at, .. } ==> 0
                    <= at < announced(said.take(i)).len())
        }),
    decreases events.len(),
{
    let said = said_by_events(events);
    if events.len() > 0 {
        let rest = events.drop_last();
        let before = said_by_events(rest);
        lemma_indices(rest);
        let started = calls_of(rest);
        let now = said_by_event(started, events.last());
        chat_sse_laws::lemma_last_call(started, chat_sse::index_of(events.last()));
        if now.len() == 0 {
            assert(said =~= before);
        } else {
            assert(now.len() == 1);
            assert(said.drop_last() =~= before);
            assert(said.take(before.len() as int) =~= before);
            assert forall|i: int| 0 <= i < said.len() implies (
            #[trigger] said[i] matches Said::Fragment { at, .. } ==> 0 <= at < announced(
                said.take(i),
            ).len()) by {
                if i < before.len() {
                    assert(said[i] == before[i]);
                    assert(said.take(i) =~= before.take(i));
                }
            }
        }
        assert(announced(said) =~= Seq::new(calls_of(events).len(), |i: int| i));
    } else {
        assert(announced(said) =~= Seq::new(calls_of(events).len(), |i: int| i));
    }
}

proof fn lemma_said_concat(a: Seq<Frame>, b: Seq<Frame>)
    ensures
        said_in_frames(a + b) == said_in_frames(a) + said_in_frames(b),
    decreases b.len(),
{
    if b.len() == 0 {
        assert(a + b =~= a);
    } else {
        lemma_said_concat(a, b.drop_last());
        assert((a + b).drop_last() =~= a + b.drop_last());
    }
    assert(said_in_frames(a + b) =~= said_in_frames(a) + said_in_frames(b));
}

proof fn lemma_one_said(f: Frame)
    ensures
        said_in_frames(seq![f]) == said_in_frame(f),
{
    reveal_with_fuel(said_in_frames, 2);
    assert(seq![f].drop_last() =~= Seq::empty());
    assert(said_in_frames(seq![f]) =~= said_in_frame(f));
}

/// What a chunk says of the tool calls is what its delta says.
proof fn lemma_chunk_said(s: ChatState, delta: Tree, finish_reason: Tree)
    ensures
        said_in_frame(s.chunk(delta, finish_reason)) == said_in_delta(Some(delta)),
{
    chat_sse_laws::lemma_chunk_fields(s, delta, finish_reason, 0);
    reveal_strlit("index");
    reveal_strlit("delta");
    reveal_strlit("finish_reason");
    assert("index"@[0] != "delta"@[0]);
    assert("delta"@.len() == 5);
    assert("finish_reason"@.len() == 13);
}

/// What the deltas that are sent say of the tool calls.
proof fn lemma_delta_said(block: Option<Tree>, at: int, arguments: Seq<char>, said: Tree)
    ensures
        said_in_delta(Some(chat_sse::announcement(block, at))) == seq![
            Said::Announced {
                at,
                id: chat_sse::text_in(block, "id"@),
                name: chat_sse::text_in(block, "name"@),
            },
        ],
        said_in_delta(Some(chat_sse::fragment(at, arguments))) == seq![
            Said::Fragment { at, text: arguments },
        ],
        said_in_delta(Some(Tree::Obj(map!["content"@ => said]))).len() == 0,
        said_in_delta(Some(Tree::Obj(Map::empty()))).len() == 0,
        said_in_delta(
            Some(
                Tree::Obj(map!["role"@ => Tree::Str("assistant"@), "content"@ => Tree::Str(""@)]),
            ),
        ).len() == 0,
{
    reveal_strlit("tool_calls");
    reveal_strlit("index");
    reveal_strlit("id");
    reveal_strlit("type");
    reveal_strlit("function");
    reveal_strlit("name");
    reveal_strlit("arguments");
    reveal_strlit("content");
    reveal_strlit("role");
    assert("tool_calls"@.len() == 10);
    assert("index"@.len() == 5);
    assert("id"@.len() == 2);
    assert("type"@.len() == 4);
    assert("function"@.len() == 8);
    assert("name"@.len() == 4);
    assert("arguments"@.len() == 9);
    assert("content"@.len() == 7);
    assert("role"@.len() == 4);
}

proof fn lemma_step_said(s: ChatState, event: Tree)
    ensures
        said_in_frames(chat_sse::chat_step(s, event).1) == said_by_event(s.calls, event),
        chat_sse::chat_step(s, event).0.calls == (if starts_call(event) {
            s.calls.push(chat_sse::index_of(event))
        } else {
            s.calls
        }),
{
    chat_sse::lemma_kinds();
    let step = chat_sse::chat_step(s, event);
    let delta = event.get("delta"@);
    assert forall|b: ChatState, d: Tree, reason: Tree|
        #[trigger] said_in_frame(b.chunk(d, reason)) == said_in_delta(Some(d)) by {
        lemma_chunk_said(b, d, reason);
    }
    let at = match chat_sse::last_call(s.calls, chat_sse::index_of(event)) {
        Some(found) => found,
        None => 0,
    };
    let text = Tree::Str(chat_sse::text_in(delta, "text"@));
    lemma_delta_said(
        event.get("content_block"@),
        s.calls.len() as int,
        chat_sse::text_in(delta, "partial_json"@),
        text,
    );
    lemma_delta_said(None, at, chat_sse::text_in(delta, "partial_json"@), text);
    chat_sse_laws::lemma_chunk_fields(
        s,
        Tree::Null,
        Tree::Null,
        json::int_or_zero(event.get("usage"@), "output_tokens"@),
    );
    chat_sse_laws::lemma_error_choices(event);
    if step.1.len() == 1 {
        assert(step.1 =~= seq![step.1[0]]);
        lemma_one_said(step.1[0]);
    } else if step.1.len() == 2 {
        assert(step.1 =~= seq![step.1[0]] + seq![step.1[1]]);
        lemma_said_concat(seq![step.1[0]], seq![step.1[1]]);
        lemma_one_said(step.1[0]);
        lemma_one_said(step.1[1]);
    }
    assert(said_in_frames(step.1) =~= said_by_event(s.calls, event));
}

} // verus!
