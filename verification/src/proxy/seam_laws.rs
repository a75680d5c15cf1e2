//! What holds of every stream that is translated on its way to the client.

use vstd::prelude::*;

use crate::json::Tree;
use crate::proxy::billing;
use crate::proxy::billing::Source;
use crate::proxy::seam;
use crate::proxy::seam::SseState;
use crate::translate::chat_sse;
use crate::translate::chat_sse::ChatState;
use crate::translate::chat_sse_laws;
use crate::translate::responses_sse;
use crate::translate::responses_sse::ResponsesState;
use crate::translate::responses_sse_laws;
use crate::translate::sse;

verus! {

/// Where the translation stands after chunks, and all the bytes that they are translated to,
/// joined.
pub open spec fn translate_chunks(
    state: SseState,
    chunks: Seq<Seq<u8>>,
    ids: Seq<Seq<Seq<char>>>,
) -> (SseState, Seq<u8>)
    decreases chunks.len(),
{
    if chunks.len() == 0 {
        (state, Seq::empty())
    } else {
        let before = translate_chunks(state, chunks.drop_last(), ids);
        let now = seam::translate_chunk(before.0, chunks.last(), ids[chunks.len() - 1]);
        (now.0, before.1 + now.1)
    }
}

/// Where the translation stands after what a source gave, and all the bytes that this is
/// translated to, joined. An error of the source ends the translation, and so does its end.
pub open spec fn translate_sources(
    state: SseState,
    sources: Seq<Source>,
    ids: Seq<Seq<Seq<char>>>,
) -> (SseState, Seq<u8>)
    decreases sources.len(),
{
    if sources.len() == 0 {
        (state, Seq::empty())
    } else {
        let before = translate_sources(state, sources.drop_last(), ids);
        let own = ids[sources.len() - 1];
        match sources.last() {
            Source::Chunk(chunk) => {
                let now = seam::translate_chunk(before.0, chunk, own);
                (now.0, before.1 + now.1)
            },
            Source::Error => (SseState::Over, before.1),
            Source::End => (SseState::Over, before.1 + seam::translate_end(before.0, own)),
        }
    }
}

/// The chunks that a source gives before anything else.
pub open spec fn chunks_of(sources: Seq<Source>, n: int) -> Seq<Seq<u8>> {
    Seq::new(n as nat, |i: int| sources[i]->Chunk_0)
}

/// All that the client is given are the translated chunks, joined in order, and, where the
/// source ended, the tail. After an error of the source there is no tail, and after the
/// error or the tail nothing comes.
pub proof fn law_stream_is_the_joined_feeds(
    state: SseState,
    sources: Seq<Source>,
    ids: Seq<Seq<Seq<char>>>,
    n: int,
)
    requires
        billing::chunks_until(sources, n),
    ensures
        ({
            let fed = translate_chunks(state, chunks_of(sources, n), ids);
            translate_sources(state, sources, ids) == (if n == sources.len() {
                fed
            } else if sources[n] is End {
                (SseState::Over, fed.1 + seam::translate_end(fed.0, ids[n]))
            } else {
                (SseState::Over, fed.1)
            })
        }),
    decreases sources.len(),
{
    if sources.len() > 0 {
        let rest = sources.drop_last();
        let m = if n < sources.len() - 1 {
            n
        } else {
            rest.len() as int
        };
        assert forall|i: int| 0 <= i < m implies (#[trigger] rest[i]) is Chunk by {
            assert(rest[i] == sources[i]);
        }
        law_stream_is_the_joined_feeds(state, rest, ids, m);
        assert(chunks_of(rest, m) =~= chunks_of(sources, m));
        assert(sources.last() == sources[sources.len() - 1]);
        if n == sources.len() {
            assert(chunks_of(sources, n).drop_last() =~= chunks_of(sources, m));
        } else if n < sources.len() - 1 {
            let before = translate_sources(state, rest, ids);
            assert(before.1 + Seq::<u8>::empty() =~= before.1);
        }
    } else {
        assert(chunks_of(sources, n) =~= Seq::empty());
    }
}

proof fn lemma_chat_chunks(s: ChatState, chunks: Seq<Seq<u8>>, ids: Seq<Seq<Seq<char>>>)
    ensures
        ({
            let run = chat_sse::chat_run(s, sse::documents(sse::joined(chunks)));
            translate_chunks(SseState::Chat(Seq::empty(), s), chunks, ids) == (
                SseState::Chat(sse::remainder(sse::joined(chunks)), run.0),
                chat_sse::frames_bytes(run.1),
            )
        }),
    decreases chunks.len(),
{
    let none = Seq::<u8>::empty();
    if chunks.len() == 0 {
        let gap = sse::gap();
        crate::text::lemma_find_from(none, gap, 0);
    } else {
        lemma_chat_chunks(s, chunks.drop_last(), ids);
        let before = sse::joined(chunks.drop_last());
        let last = chunks.last();
        assert(none + before =~= before);
        assert(none + (before + last) =~= before + last);
        chat_sse_laws::law_chunk_boundaries_do_not_matter(s, none, before, last);
    }
}

/// What a buffer leaves over holds no complete event.
proof fn lemma_remainder_is_incomplete(buffer: Seq<u8>)
    ensures
        sse::flushed(sse::remainder(buffer)) == sse::event_documents(sse::remainder(buffer)),
        sse::documents(sse::remainder(buffer)).len() == 0,
        sse::remainder(sse::remainder(buffer)) == sse::remainder(buffer),
{
    let none = Seq::<u8>::empty();
    let rest = sse::remainder(buffer);
    sse::lemma_documents_concat(buffer, none);
    assert(buffer + none =~= buffer);
    assert(rest + none =~= rest);
    assert(sse::documents(rest).len() == 0);
    assert(sse::documents(rest) =~= Seq::<Tree>::empty());
    assert(sse::flushed(rest) =~= sse::event_documents(rest));
}

/// A stream of Chat Completions chunks is the translation of the whole upstream stream, to
/// its last event and with its terminator, however it was cut into chunks.
pub proof fn law_chat_stream_is_translated_whole(
    s: ChatState,
    chunks: Seq<Seq<u8>>,
    ids: Seq<Seq<Seq<char>>>,
)
    ensures
        ({
            let fed = translate_chunks(SseState::Chat(Seq::empty(), s), chunks, ids);
            let run = chat_sse::chat_run(s, sse::flushed(sse::joined(chunks)));
            fed.1 + seam::translate_end(fed.0, Seq::empty()) == chat_sse::frames_bytes(
                chat_sse::finished(run.0, run.1),
            )
        }),
{
    lemma_chat_chunks(s, chunks, ids);
    let all = sse::joined(chunks);
    let rest = sse::remainder(all);
    lemma_remainder_is_incomplete(all);
    let first = chat_sse::chat_run(s, sse::documents(all));
    let second = chat_sse::chat_run(first.0, sse::event_documents(rest));
    chat_sse_laws::lemma_run_concat(s, sse::documents(all), sse::event_documents(rest));
    let tail = chat_sse::finished(second.0, second.1);
    chat_sse::lemma_frames_concat(first.1, tail);
    let run = chat_sse::chat_run(s, sse::flushed(all));
    assert(chat_sse::finished(run.0, run.1) =~= first.1 + tail);
}

/// The ids of the items, one sequence for each chunk, in a row.
pub open spec fn all_ids(ids: Seq<Seq<Seq<char>>>) -> Seq<Seq<char>>
    decreases ids.len(),
{
    if ids.len() == 0 {
        Seq::empty()
    } else {
        all_ids(ids.drop_last()) + ids.last()
    }
}

/// There is an id for each event that a chunk completes.
pub open spec fn enough_ids(
    s: ResponsesState,
    chunks: Seq<Seq<u8>>,
    ids: Seq<Seq<Seq<char>>>,
) -> bool {
    ids.len() == chunks.len() && forall|i: int|
        0 <= i < chunks.len() ==> (#[trigger] ids[i]).len() == seam::completed_by(
            translate_chunks(SseState::Responses(Seq::empty(), s), chunks.take(i), ids).0,
            chunks[i],
        ).len()
}

proof fn lemma_chunks_ids(
    state: SseState,
    chunks: Seq<Seq<u8>>,
    a: Seq<Seq<Seq<char>>>,
    b: Seq<Seq<Seq<char>>>,
)
    requires
        forall|i: int| 0 <= i < chunks.len() ==> a[i] == b[i],
    ensures
        translate_chunks(state, chunks, a) == translate_chunks(state, chunks, b),
    decreases chunks.len(),
{
    if chunks.len() > 0 {
        lemma_chunks_ids(state, chunks.drop_last(), a, b);
    }
}

proof fn lemma_responses_chunks(
    s: ResponsesState,
    chunks: Seq<Seq<u8>>,
    ids: Seq<Seq<Seq<char>>>,
)
    requires
        enough_ids(s, chunks, ids),
    ensures
        all_ids(ids).len() == sse::documents(sse::joined(chunks)).len(),
        ({
            let run = responses_sse::responses_run(
                s,
                sse::documents(sse::joined(chunks)),
                all_ids(ids),
            );
            translate_chunks(SseState::Responses(Seq::empty(), s), chunks, ids) == (
                SseState::Responses(sse::remainder(sse::joined(chunks)), run.state),
                responses_sse::events_bytes(run.sent),
            )
        }),
    decreases chunks.len(),
{
    let none = Seq::<u8>::empty();
    let start = SseState::Responses(none, s);
    if chunks.len() == 0 {
        crate::text::lemma_find_from(none, sse::gap(), 0);
    } else {
        let fewer = chunks.drop_last();
        let fewer_ids = ids.drop_last();
        assert forall|i: int| 0 <= i < fewer.len() implies (#[trigger] fewer_ids[i]).len()
            == seam::completed_by(
            translate_chunks(start, fewer.take(i), fewer_ids).0,
            fewer[i],
        ).len() by {
            assert(fewer_ids[i] == ids[i]);
            assert(fewer.take(i) =~= chunks.take(i));
            lemma_chunks_ids(start, fewer.take(i), ids, fewer_ids);
        }
        lemma_responses_chunks(s, fewer, fewer_ids);
        lemma_chunks_ids(start, fewer, ids, fewer_ids);
        let before = sse::joined(fewer);
        let last = chunks.last();
        let at = chunks.len() - 1;
        assert(chunks.take(at) =~= fewer);
        assert(ids[at].len() == sse::documents(sse::remainder(before) + last).len());
        assert(ids.last() == ids[at]);
        assert(none + before =~= before);
        assert(none + (before + last) =~= before + last);
        responses_sse_laws::law_chunk_boundaries_do_not_matter(
            s,
            none,
            before,
            last,
            all_ids(fewer_ids),
            ids[at],
        );
        sse::lemma_documents_concat(before, last);
    }
}

/// A stream of Responses events is the translation of the whole upstream stream, to its last
/// event and with its terminal event, however it was cut into chunks.
pub proof fn law_responses_stream_is_translated_whole(
    s: ResponsesState,
    chunks: Seq<Seq<u8>>,
    ids: Seq<Seq<Seq<char>>>,
    last_ids: Seq<Seq<char>>,
)
    requires
        enough_ids(s, chunks, ids),
        last_ids.len() == seam::completed_by_end(
            translate_chunks(SseState::Responses(Seq::empty(), s), chunks, ids).0,
        ).len(),
    ensures
        ({
            let fed = translate_chunks(SseState::Responses(Seq::empty(), s), chunks, ids);
            let run = responses_sse::responses_run(
                s,
                sse::flushed(sse::joined(chunks)),
                all_ids(ids) + last_ids,
            );
            fed.1 + seam::translate_end(fed.0, last_ids) == responses_sse::events_bytes(
                responses_sse::finished(run),
            )
        }),
{
    lemma_responses_chunks(s, chunks, ids);
    let all = sse::joined(chunks);
    let rest = sse::remainder(all);
    lemma_remainder_is_incomplete(all);
    let first = responses_sse::responses_run(s, sse::documents(all), all_ids(ids));
    let second = responses_sse::responses_run(first.state, sse::event_documents(rest), last_ids);
    responses_sse_laws::lemma_run_concat(
        s,
        sse::documents(all),
        sse::event_documents(rest),
        all_ids(ids),
        last_ids,
    );
    let tail = responses_sse::finished(second);
    responses_sse::lemma_events_concat(first.sent, tail);
    let run = responses_sse::responses_run(s, sse::flushed(all), all_ids(ids) + last_ids);
    assert(responses_sse::finished(run) =~= first.sent + tail);
}

} // verus!
