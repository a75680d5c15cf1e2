//! What holds of every Chat Completions stream.

use vstd::prelude::*;

use crate::json;
use crate::json::Tree;
use crate::translate::chat_sse;
use crate::translate::chat_sse::{ChatState, Frame};
use crate::translate::sse;

verus! {

/// Events one after the other.
pub proof fn lemma_run_concat(s: ChatState, a: Seq<Tree>, b: Seq<Tree>)
    ensures
        ({
            let first = chat_sse::chat_run(s, a);
            let second = chat_sse::chat_run(first.0, b);
            chat_sse::chat_run(s, a + b) == (second.0, first.1 + second.1)
        }),
    decreases b.len(),
{
    let first = chat_sse::chat_run(s, a);
    if b.len() == 0 {
        assert(a + b =~= a);
        assert(first.1 + Seq::<Frame>::empty() =~= first.1);
    } else {
        lemma_run_concat(s, a, b.drop_last());
        assert((a + b).drop_last() =~= a + b.drop_last());
        let second = chat_sse::chat_run(first.0, b.drop_last());
        let step = chat_sse::chat_step(second.0, b.last());
        assert(first.1 + second.1 + step.1 =~= first.1 + (second.1 + step.1));
    }
}

/// Chunk boundaries are no matter: feeding `a` and then `b` leaves the translator as
/// feeding both at once does, and sends the same bytes.
pub proof fn law_chunk_boundaries_do_not_matter(
    s: ChatState,
    buffer: Seq<u8>,
    a: Seq<u8>,
    b: Seq<u8>,
)
    ensures
        ({
            let whole = chat_sse::chat_run(s, sse::documents(buffer + (a + b)));
            let first = chat_sse::chat_run(s, sse::documents(buffer + a));
            let second = chat_sse::chat_run(
                first.0,
                sse::documents(sse::remainder(buffer + a) + b),
            );
            &&& whole.0 == second.0
            &&& chat_sse::frames_bytes(whole.1) == chat_sse::frames_bytes(first.1)
                + chat_sse::frames_bytes(second.1)
            &&& sse::remainder(buffer + (a + b)) == sse::remainder(sse::remainder(buffer + a) + b)
        }),
{
    assert(buffer + (a + b) =~= (buffer + a) + b);
    sse::lemma_documents_concat(buffer + a, b);
    let first = chat_sse::chat_run(s, sse::documents(buffer + a));
    let second = chat_sse::chat_run(first.0, sse::documents(sse::remainder(buffer + a) + b));
    lemma_run_concat(s, sse::documents(buffer + a), sse::documents(sse::remainder(buffer + a) + b));
    chat_sse::lemma_frames_concat(first.1, second.1);
}

/// A client that reads what was sent finds one event for each frame, and nothing is left
/// over.
pub proof fn law_frames_are_events(frames: Seq<Frame>)
    requires
        chat_sse::are_frames(frames),
    ensures
        sse::events_in(chat_sse::frames_bytes(frames)) == frames.map_values(
            |f: Frame| sse::line_of(chat_sse::frame_bytes(f)),
        ),
        sse::remainder(chat_sse::frames_bytes(frames)).len() == 0,
        sse::is_framed(chat_sse::frames_bytes(frames)),
{
    let parts = frames.map_values(|f: Frame| chat_sse::frame_bytes(f));
    lemma_joined_frames(frames);
    assert forall|i: int| 0 <= i < parts.len() implies sse::is_frame(#[trigger] parts[i]) by {
        assert(sse::is_frame(chat_sse::frame_bytes(frames[i])));
    }
    sse::law_frames_are_events(parts);
    assert(parts.map_values(|frame: Seq<u8>| sse::line_of(frame)) =~= frames.map_values(
        |f: Frame| sse::line_of(chat_sse::frame_bytes(f)),
    ));
}

proof fn lemma_joined_frames(frames: Seq<Frame>)
    ensures
        chat_sse::frames_bytes(frames) == sse::joined(
            frames.map_values(|f: Frame| chat_sse::frame_bytes(f)),
        ),
    decreases frames.len(),
{
    let parts = frames.map_values(|f: Frame| chat_sse::frame_bytes(f));
    if frames.len() > 0 {
        lemma_joined_frames(frames.drop_last());
        assert(parts.drop_last() =~= frames.drop_last().map_values(
            |f: Frame| chat_sse::frame_bytes(f),
        ));
    }
}

/// The frame is the end of the stream, an error, or a chunk with this id and model.
pub open spec fn is_chunk_of(f: Frame, id: Seq<char>, model: Seq<char>) -> bool {
    match f {
        Frame::Done => true,
        Frame::Data(t) => t.get("error"@) is Some || (t.get("id"@) == Some(Tree::Str(id)) && t.get(
            "model"@,
        ) == Some(Tree::Str(model))),
    }
}

pub proof fn lemma_chunk_fields(s: ChatState, delta: Tree, finish_reason: Tree, output: i64)
    ensures
        is_chunk_of(s.chunk(delta, finish_reason), s.id, s.model),
        is_chunk_of(s.usage_chunk(output), s.id, s.model),
        s.chunk(delta, finish_reason)->Data_0.get("usage"@) is None,
        s.chunk(delta, finish_reason)->Data_0.get("choices"@) == Some(
            Tree::Arr(
                seq![
                    Tree::Obj(
                        map![
                            "index"@ => Tree::Int(0),
                            "delta"@ => delta,
                            "finish_reason"@ => finish_reason,
                        ],
                    ),
                ],
            ),
        ),
        s.usage_chunk(output)->Data_0.get("choices"@) == Some(Tree::Arr(Seq::empty())),
{
    reveal_strlit("id");
    reveal_strlit("object");
    reveal_strlit("model");
    reveal_strlit("choices");
    reveal_strlit("usage");
    assert("id"@.len() == 2);
    assert("object"@.len() == 6);
    assert("model"@.len() == 5);
    assert("choices"@.len() == 7);
    assert("usage"@.len() == 5);
    assert("model"@[0] != "usage"@[0]);
}

proof fn lemma_error_fields(event: Tree)
    ensures
        chat_sse::stream_error(event).get("error"@) is Some,
        chat_sse::stream_error(event).get("usage"@) is None,
{
    reveal_strlit("error");
    reveal_strlit("usage");
    assert("error"@[0] != "usage"@[0]);
}

/// The model that the client asked for is never overwritten, and every chunk carries
/// it, with one completion id throughout.
pub proof fn law_pinned_model_is_on_every_chunk(s: ChatState, events: Seq<Tree>)
    requires
        s.pinned,
    ensures
        ({
            let run = chat_sse::chat_run(s, events);
            &&& run.0.pinned
            &&& run.0.model == s.model
            &&& run.0.id == s.id
            &&& forall|i: int|
                0 <= i < run.1.len() ==> is_chunk_of(#[trigger] run.1[i], s.id, s.model)
        }),
    decreases events.len(),
{
    if events.len() > 0 {
        law_pinned_model_is_on_every_chunk(s, events.drop_last());
        let before = chat_sse::chat_run(s, events.drop_last());
        let step = chat_sse::chat_step(before.0, events.last());
        assert forall|i: int| 0 <= i < step.1.len() implies is_chunk_of(
            #[trigger] step.1[i],
            s.id,
            s.model,
        ) by {
            lemma_step_chunks(before.0, events.last(), i);
        }
        let run = chat_sse::chat_run(s, events);
        assert forall|i: int| 0 <= i < run.1.len() implies is_chunk_of(
            #[trigger] run.1[i],
            s.id,
            s.model,
        ) by {
            if i >= before.1.len() {
                assert(run.1[i] == step.1[i - before.1.len()]);
            }
        }
    }
}

/// Every frame of a step names the id and the model of the state after it.
proof fn lemma_step_chunks(s: ChatState, event: Tree, i: int)
    requires
        0 <= i < chat_sse::chat_step(s, event).1.len(),
    ensures
        is_chunk_of(
            chat_sse::chat_step(s, event).1[i],
            chat_sse::chat_step(s, event).0.id,
            chat_sse::chat_step(s, event).0.model,
        ),
{
    let step = chat_sse::chat_step(s, event);
    lemma_error_fields(event);
    assert forall|b: ChatState, delta: Tree, finish_reason: Tree| is_chunk_of(
        #[trigger] b.chunk(delta, finish_reason),
        b.id,
        b.model,
    ) by {
        lemma_chunk_fields(b, delta, finish_reason, 0);
    }
    assert forall|b: ChatState, output: i64| is_chunk_of(
        #[trigger] b.usage_chunk(output),
        b.id,
        b.model,
    ) by {
        lemma_chunk_fields(b, Tree::Null, Tree::Null, output);
    }
}

/// A client that did not ask for usage gets none: no chunk has a `usage`.
pub proof fn law_no_usage_unless_asked(s: ChatState, events: Seq<Tree>)
    requires
        !s.include_usage,
    ensures
        ({
            let run = chat_sse::chat_run(s, events);
            &&& !run.0.include_usage
            &&& forall|i: int|
                0 <= i < run.1.len() ==> (#[trigger] run.1[i] matches Frame::Data(t) ==> t.get(
                    "usage"@,
                ) is None)
        }),
    decreases events.len(),
{
    if events.len() > 0 {
        law_no_usage_unless_asked(s, events.drop_last());
        let before = chat_sse::chat_run(s, events.drop_last());
        let step = chat_sse::chat_step(before.0, events.last());
        lemma_error_fields(events.last());
        assert forall|b: ChatState, delta: Tree, finish_reason: Tree|
            (#[trigger] b.chunk(delta, finish_reason))->Data_0.get("usage"@) is None by {
            lemma_chunk_fields(b, delta, finish_reason, 0);
        }
        let run = chat_sse::chat_run(s, events);
        assert forall|i: int| 0 <= i < run.1.len() implies (#[trigger] run.1[i] matches Frame::Data(t)
            ==> t.get("usage"@) is None) by {
            if i >= before.1.len() {
                assert(run.1[i] == step.1[i - before.1.len()]);
            }
        }
    }
}

/// An argument fragment never names an index that was not announced, and the indices
/// announced count the tool calls alone: each is the number of calls before it.
pub proof fn law_tool_indices_are_announced(s: ChatState, event: Tree)
    ensures
        ({
            let step = chat_sse::chat_step(s, event);
            let kind = json::str_in(event.get("type"@));
            let block = event.get("content_block"@);
            &&& kind == Some("content_block_start"@) && json::str_in(json::get_in(block, "type"@))
                == Some("tool_use"@) ==> step.0.calls.len() == s.calls.len() + 1 && step.1
                == seq![s.chunk(chat_sse::announcement(block, s.calls.len() as int), Tree::Null)]
            &&& !(kind == Some("content_block_start"@) && json::str_in(json::get_in(block, "type"@))
                == Some("tool_use"@)) ==> step.0.calls == s.calls
            &&& is_fragment_event(event) ==> step.1.len() == 0 || exists|at: int|
                0 <= at < s.calls.len() && is_last_at(s.calls, at, chat_sse::index_of(event)) && step.1
                    == seq![
                    #[trigger] s.chunk(
                        chat_sse::fragment(
                            at,
                            chat_sse::text_in(event.get("delta"@), "partial_json"@),
                        ),
                        Tree::Null,
                    ),
                ]
        }),
{
    chat_sse::lemma_kinds();
    lemma_last_call(s.calls, chat_sse::index_of(event));
}

/// The event carries a fragment of a tool call's arguments.
pub open spec fn is_fragment_event(event: Tree) -> bool {
    json::str_in(event.get("type"@)) == Some("content_block_delta"@) && json::str_in(
        json::get_in(event.get("delta"@), "type"@),
    ) == Some("input_json_delta"@)
}

/// The call at this place is the last that was started at this content-block index.
pub open spec fn is_last_at(calls: Seq<u64>, at: int, index: u64) -> bool {
    0 <= at < calls.len() && calls[at] == index && forall|j: int|
        at < j < calls.len() ==> calls[j] != index
}

pub proof fn lemma_last_call(calls: Seq<u64>, index: u64)
    ensures
        chat_sse::last_call(calls, index) matches Some(at) ==> is_last_at(calls, at, index),
        chat_sse::last_call(calls, index) is None ==> forall|i: int|
            0 <= i < calls.len() ==> calls[i] != index,
    decreases calls.len(),
{
    if calls.len() > 0 && calls.last() != index {
        lemma_last_call(calls.drop_last(), index);
        if let Some(at) = chat_sse::last_call(calls, index) {
            assert forall|j: int| at < j < calls.len() implies calls[j] != index by {
                if j < calls.len() - 1 {
                    assert(calls.drop_last()[j] == calls[j]);
                }
            }
        }
        assert forall|i: int|
            chat_sse::last_call(calls, index) is None && 0 <= i < calls.len() implies calls[i]
            != index by {
            if i < calls.len() - 1 {
                assert(calls.drop_last()[i] == calls[i]);
            }
        }
    }
}

/// The client always gets a terminator, and one is added at the end of the upstream
/// connection only where none was sent before.
pub proof fn law_stream_is_terminated(s: ChatState, events: Seq<Tree>)
    requires
        !s.finished,
    ensures
        ({
            let run = chat_sse::chat_run(s, events);
            &&& chat_sse::finished(run.0, run.1).contains(Frame::Done)
            &&& run.1.contains(Frame::Done) ==> chat_sse::finished(run.0, run.1) == run.1
        }),
{
    lemma_finished_frames(s, events);
    let run = chat_sse::chat_run(s, events);
    if !run.0.finished {
        assert(run.1.push(Frame::Done)[run.1.len() as int] == Frame::Done);
    }
}

/// The upstream ends its message with this event.
pub open spec fn ends_stream(event: Tree) -> bool {
    let kind = json::str_in(event.get("type"@));
    kind == Some("message_stop"@) || kind == Some("error"@)
}

/// No frame is the terminator.
pub open spec fn unterminated(frames: Seq<Frame>) -> bool {
    forall|i: int| 0 <= i < frames.len() ==> #[trigger] frames[i] != Frame::Done
}

/// The terminator is the last frame of a stream, and there is one. Where the upstream ended
/// its message, or failed, nothing is added at the end of its connection; else the
/// terminator is, and nothing more.
pub proof fn law_terminator_is_last_and_single(s: ChatState, events: Seq<Tree>)
    requires
        !s.finished,
        forall|i: int| 0 <= i < events.len() - 1 ==> !ends_stream(#[trigger] events[i]),
    ensures
        ({
            let run = chat_sse::chat_run(s, events);
            let all = chat_sse::finished(run.0, run.1);
            let ended = events.len() > 0 && ends_stream(events.last());
            &&& all.len() > 0
            &&& all.last() == Frame::Done
            &&& unterminated(all.drop_last())
            &&& chat_sse::finished(run.0, Seq::empty()) == (if ended {
                Seq::empty()
            } else {
                seq![Frame::Done]
            })
        }),
{
    let run = chat_sse::chat_run(s, events);
    if events.len() > 0 && ends_stream(events.last()) {
        chat_sse::lemma_kinds();
        let rest = events.drop_last();
        assert forall|i: int| 0 <= i < rest.len() implies !ends_stream(#[trigger] rest[i]) by {
            assert(rest[i] == events[i]);
        }
        lemma_unterminated(s, rest);
        let before = chat_sse::chat_run(s, rest);
        let step = chat_sse::chat_step(before.0, events.last());
        assert(step.1.last() == Frame::Done);
        assert forall|i: int| 0 <= i < run.1.len() - 1 implies #[trigger] run.1.drop_last()[i]
            != Frame::Done by {
            if i >= before.1.len() {
                assert(run.1[i] == step.1[i - before.1.len()]);
            } else {
                assert(run.1[i] == before.1[i]);
            }
        }
    } else {
        assert forall|i: int| 0 <= i < events.len() implies !ends_stream(
            #[trigger] events[i],
        ) by {}
        lemma_unterminated(s, events);
        assert(run.1.push(Frame::Done).drop_last() =~= run.1);
        assert(Seq::<Frame>::empty().push(Frame::Done) =~= seq![Frame::Done]);
    }
}

/// Of a stream of whole events, what is sent at the end of the connection is the terminator
/// alone, or nothing where the upstream ended its message or failed; with what was sent
/// before, it makes up the frames of the stream.
pub proof fn law_whole_events_leave_no_tail(s: ChatState, bytes: Seq<u8>)
    requires
        !s.finished,
        sse::remainder(bytes).len() == 0,
        forall|i: int|
            0 <= i < sse::documents(bytes).len() - 1 ==> !ends_stream(
                #[trigger] sse::documents(bytes)[i],
            ),
    ensures
        ({
            let events = sse::documents(bytes);
            let run = chat_sse::chat_run(s, events);
            let last = chat_sse::chat_run(run.0, sse::flushed(sse::remainder(bytes)));
            let tail = chat_sse::frames_bytes(chat_sse::finished(last.0, last.1));
            &&& tail == (if events.len() > 0 && ends_stream(events.last()) {
                Seq::empty()
            } else {
                chat_sse::frame_bytes(Frame::Done)
            })
            &&& chat_sse::frames_bytes(run.1) + tail == chat_sse::frames_bytes(
                chat_sse::finished(run.0, run.1),
            )
        }),
{
    let events = sse::documents(bytes);
    law_terminator_is_last_and_single(s, events);
    let none = Seq::<u8>::empty();
    assert(sse::remainder(bytes) =~= none);
    sse::lemma_nothing_to_flush();
    let run = chat_sse::chat_run(s, events);
    let tail = chat_sse::finished(run.0, Seq::empty());
    chat_sse::lemma_frames_concat(run.1, tail);
    chat_sse::lemma_one_frame(Frame::Done);
    assert(run.1 + tail =~= chat_sse::finished(run.0, run.1));
}

proof fn lemma_unterminated(s: ChatState, events: Seq<Tree>)
    requires
        !s.finished,
        forall|i: int| 0 <= i < events.len() ==> !ends_stream(#[trigger] events[i]),
    ensures
        unterminated(chat_sse::chat_run(s, events).1),
        !chat_sse::chat_run(s, events).0.finished,
    decreases events.len(),
{
    if events.len() > 0 {
        let rest = events.drop_last();
        assert forall|i: int| 0 <= i < rest.len() implies !ends_stream(#[trigger] rest[i]) by {
            assert(rest[i] == events[i]);
        }
        lemma_unterminated(s, rest);
        assert(!ends_stream(events[events.len() - 1]));
        let before = chat_sse::chat_run(s, rest);
        let step = chat_sse::chat_step(before.0, events.last());
        let run = chat_sse::chat_run(s, events);
        assert forall|i: int| 0 <= i < run.1.len() implies #[trigger] run.1[i] != Frame::Done by {
            if i >= before.1.len() {
                assert(run.1[i] == step.1[i - before.1.len()]);
            } else {
                assert(run.1[i] == before.1[i]);
            }
        }
    }
}

proof fn lemma_finished_frames(s: ChatState, events: Seq<Tree>)
    requires
        !s.finished,
    ensures
        ({
            let run = chat_sse::chat_run(s, events);
            run.0.finished <==> run.1.contains(Frame::Done)
        }),
    decreases events.len(),
{
    chat_sse::lemma_kinds();
    let run = chat_sse::chat_run(s, events);
    if events.len() > 0 {
        lemma_finished_frames(s, events.drop_last());
        let before = chat_sse::chat_run(s, events.drop_last());
        let step = chat_sse::chat_step(before.0, events.last());
        if before.0.finished {
            let j = before.1.index_of(Frame::Done);
            assert(run.1[j] == Frame::Done);
        } else if run.0.finished {
            let j = step.1.len() - 1;
            assert(step.1[j] == Frame::Done);
            assert(run.1[before.1.len() + j] == Frame::Done);
        }
        if run.1.contains(Frame::Done) && !before.0.finished {
            let j = run.1.index_of(Frame::Done);
            if j < before.1.len() {
                assert(before.1[j] == Frame::Done);
            } else {
                assert(step.1[j - before.1.len()] == Frame::Done);
            }
        }
    }
}

/// Only text and tool calls are passed on: the start of any other block, and a delta of
/// any other kind, such as those of thinking, changes nothing and sends nothing.
pub proof fn law_other_blocks_are_silent(s: ChatState, event: Tree)
    requires
        ({
            let kind = json::str_in(event.get("type"@));
            let block = json::str_in(json::get_in(event.get("content_block"@), "type"@));
            let delta = json::str_in(json::get_in(event.get("delta"@), "type"@));
            ||| kind == Some("content_block_start"@) && block != Some("tool_use"@)
            ||| kind == Some("content_block_delta"@) && delta != Some("text_delta"@) && delta
                != Some("input_json_delta"@)
        }),
    ensures
        chat_sse::chat_step(s, event) == (s, Seq::<Frame>::empty()),
{
    chat_sse::lemma_kinds();
}

/// The text that a frame adds to the answer.
pub open spec fn text_of_frame(f: Frame) -> Seq<char> {
    match f {
        Frame::Data(t) => match t.get("choices"@) {
            Some(Tree::Arr(choices)) => if choices.len() == 1 {
                match json::str_in(json::get_in(choices[0].get("delta"@), "content"@)) {
                    Some(said) => said,
                    None => Seq::empty(),
                }
            } else {
                Seq::empty()
            },
            _ => Seq::empty(),
        },
        Frame::Done => Seq::empty(),
    }
}

/// The text that a client reads off a sequence of frames.
pub open spec fn text_of_frames(frames: Seq<Frame>) -> Seq<char>
    decreases frames.len(),
{
    if frames.len() == 0 {
        Seq::empty()
    } else {
        text_of_frames(frames.drop_last()) + text_of_frame(frames.last())
    }
}

/// The text that an upstream event brings.
pub open spec fn text_of_event(event: Tree) -> Seq<char> {
    if json::str_in(event.get("type"@)) == Some("content_block_delta"@) && json::str_in(
        json::get_in(event.get("delta"@), "type"@),
    ) == Some("text_delta"@) {
        chat_sse::text_in(event.get("delta"@), "text"@)
    } else {
        Seq::empty()
    }
}

/// The text that the upstream sent.
pub open spec fn text_of_events(events: Seq<Tree>) -> Seq<char>
    decreases events.len(),
{
    if events.len() == 0 {
        Seq::empty()
    } else {
        text_of_events(events.drop_last()) + text_of_event(events.last())
    }
}

/// The text that the client reads is the text that the upstream sent, piece by piece.
pub proof fn law_text_is_passed_on(s: ChatState, events: Seq<Tree>)
    ensures
        text_of_frames(chat_sse::chat_run(s, events).1) == text_of_events(events),
    decreases events.len(),
{
    if events.len() > 0 {
        law_text_is_passed_on(s, events.drop_last());
        let before = chat_sse::chat_run(s, events.drop_last());
        let step = chat_sse::chat_step(before.0, events.last());
        lemma_text_concat(before.1, step.1);
        lemma_step_text(before.0, events.last());
    }
}

proof fn lemma_text_concat(a: Seq<Frame>, b: Seq<Frame>)
    ensures
        text_of_frames(a + b) == text_of_frames(a) + text_of_frames(b),
    decreases b.len(),
{
    if b.len() == 0 {
        assert(a + b =~= a);
        assert(text_of_frames(a + b) =~= text_of_frames(a) + text_of_frames(b));
    } else {
        lemma_text_concat(a, b.drop_last());
        assert((a + b).drop_last() =~= a + b.drop_last());
        assert(text_of_frames(a + b) =~= text_of_frames(a) + text_of_frames(b));
    }
}

proof fn lemma_one_text(f: Frame)
    ensures
        text_of_frames(seq![f]) == text_of_frame(f),
{
    reveal_with_fuel(text_of_frames, 2);
    assert(seq![f].drop_last() =~= Seq::empty());
    assert(text_of_frames(seq![f]) =~= text_of_frame(f));
}

/// The text of a chunk is the `content` of its delta.
proof fn lemma_chunk_text(s: ChatState, delta: Tree, finish_reason: Tree)
    ensures
        text_of_frame(s.chunk(delta, finish_reason)) == (match json::str_in(delta.get("content"@)) {
            Some(said) => said,
            None => Seq::empty(),
        }),
{
    lemma_chunk_fields(s, delta, finish_reason, 0);
    reveal_strlit("index");
    reveal_strlit("delta");
    reveal_strlit("finish_reason");
    assert("index"@[0] != "delta"@[0]);
    assert("delta"@.len() == 5);
    assert("finish_reason"@.len() == 13);
}

proof fn lemma_step_text(s: ChatState, event: Tree)
    ensures
        text_of_frames(chat_sse::chat_step(s, event).1) == text_of_event(event),
{
    chat_sse::lemma_kinds();
    let step = chat_sse::chat_step(s, event);
    reveal_strlit("");
    reveal_strlit("role");
    reveal_strlit("content");
    reveal_strlit("tool_calls");
    assert("role"@.len() == 4);
    assert("content"@.len() == 7);
    assert("tool_calls"@.len() == 10);
    assert(""@ =~= Seq::<char>::empty());
    assert forall|b: ChatState, delta: Tree, reason: Tree|
        #[trigger] text_of_frame(b.chunk(delta, reason)) == (match json::str_in(
            delta.get("content"@),
        ) {
            Some(said) => said,
            None => Seq::empty(),
        }) by {
        lemma_chunk_text(b, delta, reason);
    }
    lemma_chunk_fields(s, Tree::Null, Tree::Null, json::int_or_zero(event.get("usage"@), "output_tokens"@));
    if step.1.len() == 1 {
        assert(step.1 =~= seq![step.1[0]]);
        lemma_one_text(step.1[0]);
    } else if step.1.len() == 2 {
        assert(step.1 =~= seq![step.1[0]] + seq![step.1[1]]);
        lemma_text_concat(seq![step.1[0]], seq![step.1[1]]);
        lemma_one_text(step.1[0]);
        lemma_one_text(step.1[1]);
    }
    lemma_error_choices(event);
}

/// An error holds no choices.
pub proof fn lemma_error_choices(event: Tree)
    ensures
        chat_sse::stream_error(event).get("choices"@) is None,
{
    reveal_strlit("error");
    reveal_strlit("choices");
    assert("error"@.len() != "choices"@.len());
}

/// A chunk has at most one choice, and its index is zero: a request for more than one
/// completion is refused.
pub proof fn law_one_choice(s: ChatState, events: Seq<Tree>)
    ensures
        forall|i: int|
            0 <= i < chat_sse::chat_run(s, events).1.len() ==> has_one_choice(
                #[trigger] chat_sse::chat_run(s, events).1[i],
            ),
    decreases events.len(),
{
    if events.len() > 0 {
        law_one_choice(s, events.drop_last());
        let before = chat_sse::chat_run(s, events.drop_last());
        let step = chat_sse::chat_step(before.0, events.last());
        let run = chat_sse::chat_run(s, events);
        reveal_strlit("index");
        reveal_strlit("delta");
        reveal_strlit("finish_reason");
        assert("index"@[0] != "delta"@[0]);
        assert("index"@.len() == 5);
        assert("finish_reason"@.len() == 13);
        lemma_error_choices(events.last());
        assert forall|b: ChatState, delta: Tree, reason: Tree| has_one_choice(
            #[trigger] b.chunk(delta, reason),
        ) by {
            lemma_chunk_fields(b, delta, reason, 0);
        }
        assert forall|b: ChatState, output: i64| has_one_choice(
            #[trigger] b.usage_chunk(output),
        ) by {
            lemma_chunk_fields(b, Tree::Null, Tree::Null, output);
        }
        assert forall|i: int| 0 <= i < step.1.len() implies has_one_choice(
            #[trigger] step.1[i],
        ) by {}
        assert forall|i: int| 0 <= i < run.1.len() implies has_one_choice(
            #[trigger] run.1[i],
        ) by {
            if i >= before.1.len() {
                assert(run.1[i] == step.1[i - before.1.len()]);
            } else {
                assert(run.1[i] == before.1[i]);
            }
        }
    }
}

/// The frame has no choices, or one with the index zero.
pub open spec fn has_one_choice(f: Frame) -> bool {
    match f {
        Frame::Data(t) => match t.get("choices"@) {
            Some(Tree::Arr(choices)) => choices.len() == 0 || (choices.len() == 1
                && choices[0].get("index"@) == Some(Tree::Int(0))),
            Some(_) => false,
            None => true,
        },
        Frame::Done => true,
    }
}

} // verus!
