//! What a translated stream starts with, what it keeps, and how it ends.

use vstd::prelude::*;

use crate::json::Tree;
use crate::translate::chat_sse;
use crate::translate::chat_sse::{ChatState, Frame};
use crate::translate::chat_sse_event_laws as events;
use crate::translate::keys;
use crate::translate::responses_sse;
use crate::translate::responses_sse::ResponsesState;

verus! {

/// A stream starts with the id that it was given, with the client's model where it is known,
/// and with nothing told: no call, no item, no count.
pub proof fn law_streams_start_with_what_was_asked(
    id: Seq<char>,
    include_usage: bool,
    model: Option<Seq<char>>,
)
    ensures
        ({
            let s = ChatState::start(id, include_usage, model);
            &&& s.id == id
            &&& s.include_usage == include_usage
            &&& s.pinned <==> model is Some
            &&& model is Some ==> s.model == model->0
            &&& model is None ==> s.model.len() == 0
            &&& s.calls.len() == 0
            &&& s.input == 0
            &&& s.cached is None
            &&& !s.started
            &&& !s.finished
        }),
        ({
            let s = ResponsesState::start(id, model);
            &&& s.id == id
            &&& s.pinned <==> model is Some
            &&& model is Some ==> s.model == model->0
            &&& model is None ==> s.model.len() == 0
            &&& s.sequence_number == 0
            &&& s.open is None
            &&& s.closed.len() == 0
            &&& s.input == 0
            &&& s.cached is None
            &&& !s.started
            &&& !s.ended
        }),
{
}

/// What a stream was started with stays: its id, whether usage is reported, and whose model
/// it shows. The counts of what went in come with the start of a message that reports them,
/// and no other event changes them, nor the model.
pub proof fn law_streams_keep_what_they_know(s: ChatState, event: Tree)
    ensures
        ({
            let after = chat_sse::chat_step(s, event).0;
            &&& after.id == s.id
            &&& after.include_usage == s.include_usage
            &&& after.pinned == s.pinned
            &&& s.pinned ==> after.model == s.model
            &&& s.started ==> after.started
            &&& s.finished ==> after.finished
            &&& event.get("type"@) != Some(Tree::Str("message_start"@)) ==> after.input == s.input
                && after.cached == s.cached && after.model == s.model && after.started == s.started
            &&& events::inner(event, "message"@, "usage"@) is None ==> after.input == s.input
                && after.cached == s.cached
            &&& after.finished && !s.finished ==> event.get("type"@) == Some(
                Tree::Str("message_stop"@),
            ) || event.get("type"@) == Some(Tree::Str("error"@))
            &&& event.get("type"@) == Some(Tree::Str("message_stop"@)) ==> after.finished
            &&& event.get("type"@) == Some(Tree::Str("error"@)) ==> after.finished
        }),
{
    keys::lemma_words();
}

/// The same holds of a stream of the Responses API.
pub proof fn law_responses_streams_keep_what_they_know(
    s: ResponsesState,
    event: Tree,
    id: Seq<char>,
)
    ensures
        ({
            let after = responses_sse::responses_step(s, event, id).state;
            &&& after.id == s.id
            &&& after.pinned == s.pinned
            &&& s.pinned ==> after.model == s.model
            &&& s.started ==> after.started
            &&& s.ended ==> after == s
            &&& event.get("type"@) != Some(Tree::Str("message_start"@)) ==> after.input == s.input
                && after.cached == s.cached && after.model == s.model && after.started == s.started
            &&& events::inner(event, "message"@, "usage"@) is None ==> after.input == s.input
                && after.cached == s.cached
            &&& after.ended && !s.ended ==> event.get("type"@) == Some(Tree::Str("message_delta"@))
                || event.get("type"@) == Some(Tree::Str("error"@))
            &&& event.get("type"@) == Some(Tree::Str("message_delta"@)) ==> after.ended
            &&& event.get("type"@) == Some(Tree::Str("error"@)) ==> after.ended
        }),
{
    keys::lemma_words();
}

/// An error in a stream says what the server said, and something in its place where the
/// server said nothing.
pub proof fn law_stream_errors_say_something(event: Tree)
    ensures
        match events::inner(event, "error"@, "message"@) {
            Some(Tree::Str(message)) => chat_sse::error_message_of(event) == message,
            _ => chat_sse::error_message_of(event) == "upstream error"@,
        },
        match events::inner(event, "error"@, "type"@) {
            Some(Tree::Str(kind)) => chat_sse::error_type_of(event) == kind,
            _ => chat_sse::error_type_of(event) == "api_error"@,
        },
{
}

/// The text under a key of a block, or nothing; the place of a block, or the first.
pub proof fn law_missing_texts_are_empty(block: Option<Tree>, event: Tree, key: Seq<char>)
    ensures
        block matches Some(t) ==> (t.get(key) matches Some(Tree::Str(s)) ==> chat_sse::text_in(
            block,
            key,
        ) == s),
        !(block matches Some(t) && t.get(key) matches Some(Tree::Str(s))) ==> chat_sse::text_in(
            block,
            key,
        ).len() == 0,
        event.get("index"@) matches Some(Tree::Int(n)) ==> (0 <= n <= u64::MAX
            ==> chat_sse::index_of(event) == n),
        !(event.get("index"@) matches Some(Tree::Int(n)) && 0 <= n <= u64::MAX)
            ==> chat_sse::index_of(event) == 0,
{
    reveal_strlit("");
    assert(""@.len() == 0);
}

/// A stream of chunks ends with the mark that clients wait for, once: it is added at the end
/// exactly where it has not been sent.
pub proof fn law_streams_end_with_their_mark(s: ChatState, frames: Seq<Frame>)
    ensures
        chat_sse::frame_bytes(Frame::Done) == vstd::utf8::encode_utf8("data: [DONE]\n\n"@),
        s.finished ==> chat_sse::finished(s, frames) == frames,
        !s.finished ==> chat_sse::finished(s, frames) == frames.push(Frame::Done),
{
}

} // verus!
