//! What becomes of a request body on its way to a server, field by field.

use vstd::prelude::*;

use crate::json;
use crate::json::Tree;
use crate::proxy::body;
use crate::proxy::body::{BlockRule, Shape};
use crate::text;
use crate::translate::chat;
use crate::translate::keys;
use crate::translate::steps;

verus! {

/// The block is of this type.
pub open spec fn is_of_type(block: Tree, kind: Seq<char>) -> bool {
    block.get("type"@) == Some(Tree::Str(kind))
}

/// There is some text under the key.
pub open spec fn has_text(block: Tree, key: Seq<char>) -> bool {
    block.get(key) matches Some(Tree::Str(s)) && s.len() > 0
}

/// The message is the assistant's.
pub open spec fn is_assistants(msg: Tree) -> bool {
    msg.get("role"@) == Some(Tree::Str("assistant"@))
}

/// A list of blocks is gone through block by block: what is left of two lists, one behind the
/// other, is what is left of the first and then of the second. Of a single block, thinking is
/// taken out by its type; unsigned thinking also by its signature, empty text by its text,
/// and images by their type.
pub proof fn law_blocks_are_judged_one_by_one(
    rule: BlockRule,
    first: Seq<Tree>,
    then: Seq<Tree>,
    block: Tree,
)
    ensures
        body::kept_blocks(rule, first + then) == body::kept_blocks(rule, first)
            + body::kept_blocks(rule, then),
        body::kept_blocks(rule, seq![block]) == if match rule {
            BlockRule::Thinking => is_of_type(block, "thinking"@),
            BlockRule::UnsignedThinking => is_of_type(block, "thinking"@) && !has_text(
                block,
                "signature"@,
            ),
            BlockRule::EmptyText => is_of_type(block, "text"@) && !has_text(block, "text"@),
            BlockRule::Image => is_of_type(block, "image"@),
        } {
            Seq::empty()
        } else {
            seq![block]
        },
    decreases then.len(),
{
    reveal_with_fuel(body::kept_blocks, 2);
    reveal_strlit("");
    assert(""@.len() == 0);
    assert(seq![block].drop_last() =~= Seq::empty());
    assert(Seq::<Tree>::empty().push(block) =~= seq![block]);
    if then.len() == 0 {
        assert(first + then =~= first);
        assert(body::kept_blocks(rule, first) + body::kept_blocks(rule, then)
            =~= body::kept_blocks(rule, first));
    } else {
        law_blocks_are_judged_one_by_one(rule, first, then.drop_last(), block);
        assert((first + then).drop_last() =~= first + then.drop_last());
        assert(body::kept_blocks(rule, first + then) =~= body::kept_blocks(rule, first)
            + body::kept_blocks(rule, then));
    }
}

/// A rule changes nothing of a request but the blocks of its messages: the messages stay as
/// many as they were, each with its other fields, and a message whose content is not a list
/// stays as it is. Rules on thinking are for the assistant's messages, the others for all.
pub proof fn law_only_blocks_are_taken_out(rule: BlockRule, doc: Tree, key: Seq<char>, i: int)
    requires
        doc.get("messages"@) matches Some(Tree::Arr(messages)) && 0 <= i < messages.len(),
    ensures
        ({
            let left = body::kept_request(rule, doc);
            let before = doc.get("messages"@)->0->Arr_0;
            let after = left.get("messages"@)->0->Arr_0;
            let covered = is_assistants(before[i]) || rule == BlockRule::EmptyText || rule
                == BlockRule::Image;
            &&& key != "messages"@ ==> left.get(key) == doc.get(key)
            &&& left.get("messages"@) == Some(Tree::Arr(after))
            &&& after.len() == before.len()
            &&& key != "content"@ ==> after[i].get(key) == before[i].get(key)
            &&& after[i].get("content"@) == match before[i].get("content"@) {
                Some(Tree::Arr(blocks)) => if covered {
                    Some(Tree::Arr(body::kept_blocks(rule, blocks)))
                } else {
                    Some(Tree::Arr(blocks))
                },
                other => other,
            }
        }),
{
    keys::lemma_words();
}

/// A request without a list of messages has nothing taken out.
pub proof fn law_other_requests_are_left_alone(rule: BlockRule, doc: Tree)
    requires
        !(doc.get("messages"@) matches Some(Tree::Arr(messages))),
    ensures
        body::kept_request(rule, doc) == doc,
        body::without_thinking(doc) is None,
{
}

/// A refused request is sent again without its thinking exactly where there is some: where an
/// assistant's message holds a thinking block.
pub proof fn law_thinking_is_stripped_where_it_is(doc: Tree)
    ensures
        body::without_thinking(doc) is Some <==> (doc.get("messages"@) matches Some(
            Tree::Arr(messages),
        ) && exists|i: int, j: int|
            0 <= i < messages.len() && is_assistants(messages[i]) && 0 <= j < (match messages[i].get(
                "content"@,
            ) {
                Some(Tree::Arr(blocks)) => blocks,
                _ => Seq::empty(),
            }).len() && #[trigger] is_of_type(body::content_blocks(messages[i])[j], "thinking"@)),
        body::without_thinking(doc) matches Some(stripped) ==> stripped == body::kept_request(
            BlockRule::Thinking,
            doc,
        ),
{
    if let Some(Tree::Arr(messages)) = doc.get("messages"@) {
        if body::has_dropped(BlockRule::Thinking, messages) {
            let (i, j) = choose|i: int, j: int|
                0 <= i < messages.len() && body::rule_covers(BlockRule::Thinking, messages[i]) && 0
                    <= j < body::content_blocks(messages[i]).len() && #[trigger] body::rule_drops(
                    BlockRule::Thinking,
                    body::content_blocks(messages[i])[j],
                );
            assert(is_of_type(body::content_blocks(messages[i])[j], "thinking"@));
        }
        assert forall|i: int, j: int|
            0 <= i < messages.len() && is_assistants(messages[i]) && 0 <= j < body::content_blocks(
                messages[i],
            ).len() && #[trigger] is_of_type(
                body::content_blocks(messages[i])[j],
                "thinking"@,
            ) implies body::has_dropped(BlockRule::Thinking, messages) by {
            assert(body::rule_drops(BlockRule::Thinking, body::content_blocks(messages[i])[j]));
        }
    }
}

/// The path is one of those of which requests are billed: messages, chat completions and
/// responses.
pub open spec fn is_of_messages(path: Seq<char>) -> bool {
    path == "/v1/messages"@ || path == "/v1/chat/completions"@ || path == "/v1/responses"@
}

/// Exactly the requests for messages, chat completions and responses are billed.
pub proof fn law_billed_paths(path: Seq<char>)
    ensures
        body::is_billing_path(path) <==> is_of_messages(path),
{
}

/// Only a literal `true` asks for a stream.
pub proof fn law_streams_are_asked_for(doc: Tree)
    ensures
        body::asks_stream(doc) <==> (doc.get("stream"@) matches Some(Tree::Bool(asked)) && asked),
{
}

/// A request is sent with the fields that the client gave it, but for those that a server has
/// a say in: its model, its system prompt and its messages; what it asks for of thinking only
/// where the server wants none, and the management of its context never.
pub proof fn law_other_fields_are_sent(doc: Tree, shape: Shape, key: Seq<char>)
    requires
        doc is Obj,
    ensures
        ({
            let sent = body::shaped(doc, shape);
            &&& sent is Obj
            &&& key != "model"@ && key != "system"@ && key != "messages"@ && key != "thinking"@
                && key != "output_config"@ && key != "context_management"@ ==> sent.get(key)
                == doc.get(key)
            &&& !shape.remove_thinking ==> sent.get("thinking"@) == doc.get("thinking"@)
                && sent.get("output_config"@) == doc.get("output_config"@)
            &&& sent.get("context_management"@) is None
            &&& shape.prompt is None || !is_of_messages(shape.path) ==> sent.get("system"@)
                == doc.get("system"@)
        }),
{
    keys::lemma_words();
}

/// A request is sent with the model that the mapping gives for the client's, and with the
/// client's where it gives none.
pub proof fn law_model_is_mapped(doc: Tree, shape: Shape)
    requires
        doc is Obj,
    ensures
        body::shaped(doc, shape).get("model"@) == (match doc.get("model"@) {
            Some(Tree::Str(model)) => match shape.mappings.get(model) {
                Some(Tree::Str(mapped)) => Some(Tree::Str(mapped)),
                _ => Some(Tree::Str(model)),
            },
            other => other,
        }),
{
    keys::lemma_words();
}

/// The server's prompt stands behind the client's, with a blank line between them, and in its
/// place where the client has none. It is merged only into requests that are billed.
pub proof fn law_prompts_are_joined(doc: Tree, shape: Shape)
    requires
        doc is Obj,
        shape.prompt is Some,
        is_of_messages(shape.path),
    ensures
        ({
            let sent = body::shaped(doc, shape).get("system"@);
            let prompt = shape.prompt->0;
            match doc.get("system"@) {
                None => sent == Some(Tree::Str(prompt)),
                Some(Tree::Str(client)) => sent == Some(Tree::Str(client + "\n\n"@ + prompt)),
                Some(Tree::Arr(blocks)) => if exists|i: int|
                    0 <= i < blocks.len() && #[trigger] blocks[i].get("cache_control"@) is Some {
                    sent matches Some(Tree::Arr(after)) && after.len() == blocks.len()
                        && extends_last(blocks, after, prompt)
                } else {
                    match body::system_text(Tree::Arr(blocks)) {
                        Some(client) => sent == Some(Tree::Str(client + "\n\n"@ + prompt)),
                        None => sent == Some(Tree::Arr(blocks)),
                    }
                },
                Some(other) => sent == Some(other),
            }
        }),
{
    keys::lemma_words();
    if let Some(Tree::Arr(blocks)) = doc.get("system"@) {
        if body::is_cached(Tree::Arr(blocks)) {
            let i = choose|i: int|
                0 <= i < blocks.len() && #[trigger] blocks[i].get("cache_control"@) is Some;
            assert(blocks[i].get("cache_control"@) is Some);
            let after = blocks.drop_last().push(body::with_prompt(blocks.last(), shape.prompt->0));
            assert(body::merged_prompt(Tree::Arr(blocks), shape.prompt->0) == Tree::Arr(after));
            assert(after.drop_last() =~= blocks.drop_last());
            assert(after.last() == body::with_prompt(blocks.last(), shape.prompt->0));
            assert(extends_last(blocks, after, shape.prompt->0));
        }
    }
}

/// The blocks are the same but for the text of the last one, which goes on with the prompt,
/// where it has a text: what is cached of them stays cached.
pub open spec fn extends_last(before: Seq<Tree>, after: Seq<Tree>, prompt: Seq<char>) -> bool {
    &&& after.drop_last() == before.drop_last()
    &&& forall|key: Seq<char>| key != "text"@ ==> #[trigger] after.last().get(key)
        == before.last().get(key)
    &&& match before.last().get("text"@) {
        Some(Tree::Str(s)) => after.last().get("text"@) == Some(Tree::Str(s + "\n\n"@ + prompt)),
        _ => after.last() == before.last(),
    }
}

/// The text of a system prompt that is a list is that of its blocks, in their order, with a
/// blank line between neighbours: one more block adds its text, and none where it has none.
pub proof fn law_system_texts_are_joined(blocks: Seq<Tree>, block: Tree)
    ensures
        body::system_text(Tree::Arr(Seq::empty())) is None,
        body::system_text(Tree::Arr(blocks.push(block))) == (match (
            body::system_text(Tree::Arr(blocks)),
            block.get("text"@),
        ) {
            (None, Some(Tree::Str(s))) => Some(s),
            (Some(before), Some(Tree::Str(s))) => Some(before + "\n\n"@ + s),
            (before, _) => before,
        }),
{
    let texts = steps::gather(blocks, Seq::empty(), chat::text_step());
    let more = steps::gather(blocks.push(block), Seq::empty(), chat::text_step());
    assert(blocks.push(block).drop_last() =~= blocks);
    assert(blocks.push(block).last() == block);
    assert(more == (chat::text_step())(texts, block));
    if let Some(Tree::Str(s)) = block.get("text"@) {
        assert(more == texts.push(s));
        assert(more.drop_last() =~= texts);
        reveal_with_fuel(text::joined, 2);
    }
}

/// A refusal speaks of thinking where the lower case of its text holds one of two words.
pub proof fn law_thinking_errors_are_told(response: Seq<u8>)
    ensures
        body::speaks_of_thinking(response) <==> vstd::utf8::valid_utf8(response) && (exists|
            i: int,
            word: Seq<char>,
        |
            (word == "signature"@ || word == "thinking"@) && #[trigger] text::occurs_at(
                text::lowercase(vstd::utf8::decode_utf8(response)),
                word,
                i,
            )),
{
    let lower = text::lowercase(vstd::utf8::decode_utf8(response));
    text::lemma_find_from(lower, "signature"@, 0);
    text::lemma_find_from(lower, "thinking"@, 0);
}

/// An estimate is a quarter of the length of the text, rounded down, and pictures do not
/// count: a request is estimated as it is without them.
pub proof fn law_pictures_do_not_count(doc: Tree)
    ensures
        ({
            let len = body::doc_bytes(body::kept_request(BlockRule::Image, doc)).len();
            4 * body::estimated_tokens(doc) <= len < 4 * body::estimated_tokens(doc) + 4
        }),
{
}

} // verus!
