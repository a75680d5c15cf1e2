//! What a Chat Completions client is sent for each upstream event.

use vstd::prelude::*;

use crate::json::Tree;
use crate::translate::chat;
use crate::translate::chat_sse;
use crate::translate::chat_sse::{ChatState, Frame};
use crate::translate::keys;

verus! {

/// The event is of this kind.
pub open spec fn is_kind(event: Tree, kind: Seq<char>) -> bool {
    event.get("type"@) == Some(Tree::Str(kind))
}

/// The member of a member.
pub open spec fn inner(t: Tree, outer: Seq<char>, key: Seq<char>) -> Option<Tree> {
    match t.get(outer) {
        Some(v) => v.get(key),
        None => None,
    }
}

/// The frame is a chunk whose only choice has this delta and this finish reason.
pub open spec fn is_choice(f: Frame, delta: Tree, finish_reason: Tree) -> bool {
    &&& f matches Frame::Data(t)
    &&& t.get("object"@) == Some(Tree::Str("chat.completion.chunk"@))
    &&& t.get("choices"@) matches Some(Tree::Arr(choices))
    &&& choices.len() == 1
    &&& choices[0].get("index"@) == Some(Tree::Int(0))
    &&& choices[0].get("delta"@) == Some(delta)
    &&& choices[0].get("finish_reason"@) == Some(finish_reason)
}

/// What a client is told of the end of an answer that stopped for this reason.
pub open spec fn is_finish_reason(told: Seq<char>, stop_reason: Option<Tree>) -> bool {
    &&& stop_reason == Some(Tree::Str("max_tokens"@)) ==> told == "length"@
    &&& stop_reason == Some(Tree::Str("tool_use"@)) ==> told == "tool_calls"@
    &&& stop_reason != Some(Tree::Str("max_tokens"@)) && stop_reason != Some(
        Tree::Str("tool_use"@),
    ) ==> told == "stop"@
}

pub proof fn lemma_chunk(s: ChatState, delta: Tree, finish_reason: Tree)
    ensures
        is_choice(s.chunk(delta, finish_reason), delta, finish_reason),
        s.chunk(delta, finish_reason)->Data_0.get("id"@) == Some(Tree::Str(s.id)),
        s.chunk(delta, finish_reason)->Data_0.get("model"@) == Some(Tree::Str(s.model)),
        s.chunk(delta, finish_reason)->Data_0.get("usage"@) is None,
{
    keys::lemma_words();
}

/// The end of an answer is told as what it was: an answer that was cut off at its token limit
/// has the finish reason `length`, one that calls tools `tool_calls`, and any other `stop`.
pub proof fn law_finish_reason_is_told(s: ChatState, event: Tree)
    requires
        is_kind(event, "message_delta"@),
    ensures
        ({
            let frames = chat_sse::chat_step(s, event).1;
            &&& frames.len() >= 1
            &&& exists|told: Seq<char>| #[trigger]
                is_finish_reason(told, inner(event, "delta"@, "stop_reason"@)) && is_choice(
                    frames[0],
                    Tree::Obj(Map::empty()),
                    Tree::Str(told),
                )
            &&& frames.len() == (if s.include_usage {
                2nat
            } else {
                1
            })
            &&& chat_sse::chat_step(s, event).0 == s
        }),
{
    keys::lemma_words();
    let frames = chat_sse::chat_step(s, event).1;
    let stop_reason = inner(event, "delta"@, "stop_reason"@);
    let told = if stop_reason == Some(Tree::Str("max_tokens"@)) {
        "length"@
    } else if stop_reason == Some(Tree::Str("tool_use"@)) {
        "tool_calls"@
    } else {
        "stop"@
    };
    assert(is_finish_reason(told, stop_reason));
    lemma_chunk(s, Tree::Obj(Map::empty()), Tree::Str(told));
    assert(frames[0] == s.chunk(Tree::Obj(Map::empty()), Tree::Str(told)));
}

/// A whole answer and a stream tell the same finish reason of the same stop reason.
pub proof fn law_finish_reasons_agree(s: ChatState, event: Tree, anthropic: Tree)
    requires
        is_kind(event, "message_delta"@),
        inner(event, "delta"@, "stop_reason"@) == anthropic.get("stop_reason"@),
    ensures
        ({
            let whole = chat::response(anthropic, None, None);
            &&& whole.get("choices"@) matches Some(Tree::Arr(choices)) && choices.len() == 1
            &&& whole.get("choices"@)->0->Arr_0[0].get("finish_reason"@) matches Some(reason)
                && is_choice(
                chat_sse::chat_step(s, event).1[0],
                Tree::Obj(Map::empty()),
                reason,
            )
        }),
{
    keys::lemma_words();
    law_finish_reason_is_told(s, event);
    lemma_no_schema(anthropic);
}

proof fn lemma_no_schema(anthropic: Tree)
    ensures
        chat::reply_of(anthropic, None).schema is None,
{
    if let Some(Tree::Arr(blocks)) = anthropic.get("content"@) {
        lemma_no_schema_in(blocks);
    }
}

proof fn lemma_no_schema_in(blocks: Seq<Tree>)
    ensures
        crate::translate::steps::gather(
            blocks,
            chat::Reply::start(),
            chat::reply_step(None),
        ).schema is None,
    decreases blocks.len(),
{
    if blocks.len() > 0 {
        lemma_no_schema_in(blocks.drop_last());
    }
}

/// The role is announced once, by the first start of a message, with no text.
pub proof fn law_role_is_announced(s: ChatState, event: Tree)
    requires
        is_kind(event, "message_start"@),
    ensures
        ({
            let step = chat_sse::chat_step(s, event);
            &&& s.started ==> step.1.len() == 0
            &&& !s.started ==> step.1.len() == 1 && exists|delta: Tree| #[trigger]
                is_choice(step.1[0], delta, Tree::Null) && delta.get("role"@) == Some(
                    Tree::Str("assistant"@),
                ) && delta.get("content"@) == Some(Tree::Str(""@))
            &&& step.0.started
            &&& step.0.finished == s.finished
        }),
{
    keys::lemma_words();
    let step = chat_sse::chat_step(s, event);
    let delta = Tree::Obj(
        map!["role"@ => Tree::Str("assistant"@), "content"@ => Tree::Str(""@)],
    );
    lemma_chunk(step.0, delta, Tree::Null);
    if !s.started {
        assert(step.1[0] == step.0.chunk(delta, Tree::Null));
        assert(is_choice(step.1[0], delta, Tree::Null));
    }
}

/// A piece of text is sent as it came, at once, in a chunk of its own.
pub proof fn law_text_is_sent_at_once(s: ChatState, event: Tree, text: Seq<char>)
    requires
        is_kind(event, "content_block_delta"@),
        inner(event, "delta"@, "type"@) == Some(Tree::Str("text_delta"@)),
        inner(event, "delta"@, "text"@) == Some(Tree::Str(text)),
    ensures
        ({
            let step = chat_sse::chat_step(s, event);
            &&& step.0 == s
            &&& step.1.len() == 1
            &&& exists|delta: Tree| #[trigger]
                is_choice(step.1[0], delta, Tree::Null) && delta.get("content"@) == Some(
                    Tree::Str(text),
                )
        }),
{
    keys::lemma_words();
    let delta = Tree::Obj(map!["content"@ => Tree::Str(text)]);
    lemma_chunk(s, delta, Tree::Null);
    let frames = chat_sse::chat_step(s, event).1;
    assert(frames[0] == s.chunk(delta, Tree::Null));
    assert(is_choice(frames[0], delta, Tree::Null));
}

/// Every chunk of a step carries the id of the stream and the model that it names; that model
/// is the upstream's own, unless the client asked for one.
pub proof fn law_chunks_carry_id_and_model(s: ChatState, event: Tree)
    ensures
        ({
            let step = chat_sse::chat_step(s, event);
            &&& step.0.id == s.id
            &&& step.0.pinned == s.pinned
            &&& step.0.include_usage == s.include_usage
            &&& s.pinned || !is_kind(event, "message_start"@) ==> step.0.model == s.model
            &&& !s.pinned && is_kind(event, "message_start"@) ==> (inner(
                event,
                "message"@,
                "model"@,
            ) matches Some(Tree::Str(model)) ==> step.0.model == model)
            &&& forall|i: int|
                0 <= i < step.1.len() ==> (#[trigger] step.1[i] matches Frame::Data(t) ==> (t.get(
                    "error"@,
                ) is None ==> t.get("id"@) == Some(Tree::Str(s.id)) && t.get("model"@) == Some(
                    Tree::Str(step.0.model),
                )))
        }),
{
    keys::lemma_words();
    assert forall|b: ChatState, delta: Tree, reason: Tree|
        (#[trigger] b.chunk(delta, reason))->Data_0.get("id"@) == Some(Tree::Str(b.id)) && b.chunk(
            delta,
            reason,
        )->Data_0.get("model"@) == Some(Tree::Str(b.model)) by {
        lemma_chunk(b, delta, reason);
    }
}

/// An error of the upstream reaches the client with its own message and type, and ends the
/// stream.
pub proof fn law_error_is_passed_on(s: ChatState, event: Tree)
    requires
        is_kind(event, "error"@),
    ensures
        ({
            let step = chat_sse::chat_step(s, event);
            &&& step.1.len() == 2
            &&& step.1[1] == Frame::Done
            &&& step.0.finished
            &&& step.1[0] matches Frame::Data(t) && t.get("error"@) is Some
            &&& inner(event, "error"@, "message"@) matches Some(Tree::Str(message)) ==> inner(
                step.1[0]->Data_0,
                "error"@,
                "message"@,
            ) == Some(Tree::Str(message))
            &&& inner(event, "error"@, "type"@) matches Some(Tree::Str(kind)) ==> inner(
                step.1[0]->Data_0,
                "error"@,
                "type"@,
            ) == Some(Tree::Str(kind))
        }),
{
    keys::lemma_words();
}

/// The last `message_start` of these events that reports usage reports these input tokens.
pub open spec fn input_was(events: Seq<Tree>, at: int, input: int) -> bool {
    &&& 0 <= at < events.len()
    &&& is_kind(events[at], "message_start"@)
    &&& inner(events[at], "message"@, "usage"@) matches Some(usage) && usage.get("input_tokens"@)
        == Some(Tree::Int(input))
    &&& forall|i: int| at < i < events.len() ==> !is_kind(#[trigger] events[i], "message_start"@)
}

/// The input tokens read from a cache, as the usage tells them.
pub open spec fn cached_was(usage: Tree, cached: Option<int>) -> bool {
    match cached {
        Some(n) => usage.get("cache_read_input_tokens"@) == Some(Tree::Int(n)),
        None => usage.get("cache_read_input_tokens"@) is None,
    }
}

/// What a client is told of the tokens that were used.
pub open spec fn is_chat_usage(t: Tree, input: int, output: int, cached: Option<int>) -> bool {
    &&& t.get("prompt_tokens"@) == Some(Tree::Int(input))
    &&& t.get("completion_tokens"@) == Some(Tree::Int(output))
    &&& t.get("total_tokens"@) == Some(Tree::Int(input + output))
    &&& match cached {
        Some(n) => inner(t, "prompt_tokens_details"@, "cached_tokens"@) == Some(Tree::Int(n)),
        None => t.get("prompt_tokens_details"@) is None,
    }
}

proof fn lemma_tokens_noted(s: ChatState, events: Seq<Tree>, at: int, input: int, cached: Option<int>)
    requires
        input_was(events, at, input),
        i32::MIN <= input <= i32::MAX,
        cached_was(inner(events[at], "message"@, "usage"@)->0, cached),
        cached matches Some(n) ==> i32::MIN <= n <= i32::MAX,
    ensures
        ({
            let after = chat_sse::chat_run(s, events).0;
            after.input == input && match cached {
                Some(n) => after.cached == Some(n as i32),
                None => after.cached is None,
            }
        }),
    decreases events.len(),
{
    keys::lemma_words();
    let rest = events.drop_last();
    let before = chat_sse::chat_run(s, rest).0;
    let event = events.last();
    assert(event == events[events.len() - 1]);
    if at < events.len() - 1 {
        assert(rest[at] == events[at]);
        assert forall|i: int| at < i < rest.len() implies !is_kind(
            #[trigger] rest[i],
            "message_start"@,
        ) by {
            assert(rest[i] == events[i]);
        }
        lemma_tokens_noted(s, rest, at, input, cached);
        assert(!is_kind(events[events.len() - 1], "message_start"@));
    }
}

/// A client that asked for usage is told at the end what the upstream reported: the input
/// tokens of the start of the message as prompt tokens, the output tokens of its end as
/// completion tokens, and their sum.
pub proof fn law_usage_is_the_upstreams(
    s: ChatState,
    events: Seq<Tree>,
    at: int,
    event: Tree,
    input: int,
    output: int,
    cached: Option<int>,
)
    requires
        s.include_usage,
        input_was(events, at, input),
        i32::MIN <= input <= i32::MAX,
        cached_was(inner(events[at], "message"@, "usage"@)->0, cached),
        cached matches Some(n) ==> i32::MIN <= n <= i32::MAX,
        is_kind(event, "message_delta"@),
        inner(event, "usage"@, "output_tokens"@) == Some(Tree::Int(output)),
        i64::MIN <= output <= i64::MAX,
        i64::MIN <= input + output <= i64::MAX,
    ensures
        ({
            let frames = chat_sse::chat_run(s, events.push(event)).1;
            &&& frames.len() > 0
            &&& frames.last() matches Frame::Data(t)
            &&& t.get("choices"@) == Some(Tree::Arr(Seq::empty()))
            &&& t.get("usage"@) matches Some(usage)
            &&& is_chat_usage(usage, input, output, cached)
        }),
{
    keys::lemma_words();
    lemma_tokens_noted(s, events, at, input, cached);
    lemma_keeps_usage(s, events);
    assert(events.push(event).drop_last() =~= events);
    let before = chat_sse::chat_run(s, events);
    let step = chat_sse::chat_step(before.0, event);
    assert(step.1.len() == 2);
    assert((before.1 + step.1).last() == step.1[1]);
    assert(step.1[1] == before.0.usage_chunk(output as i64));
}

proof fn lemma_keeps_usage(s: ChatState, events: Seq<Tree>)
    ensures
        chat_sse::chat_run(s, events).0.include_usage == s.include_usage,
    decreases events.len(),
{
    if events.len() > 0 {
        lemma_keeps_usage(s, events.drop_last());
    }
}

} // verus!
