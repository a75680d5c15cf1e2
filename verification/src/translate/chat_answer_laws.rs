//! What a Chat Completions client is told of a whole answer.

use vstd::prelude::*;

use crate::json;
use crate::json::Tree;
use crate::text;
use crate::translate::chat;
use crate::translate::chat::Reply;
use crate::translate::chat_laws;
use crate::translate::chat_message_laws;
use crate::translate::chat_sse_event_laws;
use crate::translate::keys;
use crate::translate::steps;

verus! {

/// A block that holds a text.
pub open spec fn is_said() -> spec_fn(Tree) -> bool {
    |block: Tree|
        block.get("type"@) == Some(Tree::Str("text"@)) && (block.get("text"@) matches Some(
            Tree::Str(_),
        ))
}

/// The blocks of an answer.
pub open spec fn blocks_in(anthropic: Tree) -> Seq<Tree> {
    match anthropic.get("content"@) {
        Some(Tree::Arr(blocks)) => blocks,
        _ => Seq::empty(),
    }
}

/// The texts of an answer, in their order.
pub open spec fn said_in(anthropic: Tree) -> Seq<Seq<char>> {
    blocks_in(anthropic).filter(is_said()).map_values(
        |block: Tree| chat_message_laws::text_or(block, "text"@, ""@),
    )
}

/// A block that calls a tool, but not this one.
pub open spec fn is_called(schema_tool: Option<Seq<char>>) -> spec_fn(Tree) -> bool {
    |block: Tree|
        block.get("type"@) == Some(Tree::Str("tool_use"@)) && schema_tool != Some(
            chat_message_laws::text_or(block, "name"@, ""@),
        )
}

/// The arguments that a client reads are the text of the input, and that of an empty object
/// where there is none.
pub open spec fn are_arguments(arguments: Seq<char>, input: Option<Tree>) -> bool {
    match input {
        Some(Tree::Obj(m)) if m != Map::<Seq<char>, Tree>::empty() => arguments == json::json_text(
            Tree::Obj(m),
        ),
        _ => arguments == "{}"@,
    }
}

/// The call is that of the block: the same id, the same name, the same arguments.
pub open spec fn shows_call(call: Tree, block: Tree) -> bool {
    &&& call.get("id"@) == Some(Tree::Str(chat_message_laws::text_or(block, "id"@, ""@)))
    &&& call.get("type"@) == Some(Tree::Str("function"@))
    &&& call.get("function"@) matches Some(function)
    &&& function.get("name"@) == Some(
        Tree::Str(chat_message_laws::text_or(block, "name"@, ""@)),
    )
    &&& function.get("arguments"@) matches Some(Tree::Str(arguments))
    &&& are_arguments(arguments, block.get("input"@))
}

/// The calls are those of the blocks that call tools, in their order.
pub open spec fn are_shown(calls: Seq<Tree>, anthropic: Tree, schema_tool: Option<Seq<char>>) -> bool {
    let called = blocks_in(anthropic).filter(is_called(schema_tool));
    calls.len() == called.len() && forall|k: int|
        0 <= k < called.len() ==> shows_call(#[trigger] calls[k], called[k])
}

proof fn lemma_texts(blocks: Seq<Tree>, schema_tool: Option<Seq<char>>)
    ensures
        steps::gather(blocks, Reply::start(), chat::reply_step(schema_tool)).texts == blocks.filter(
            is_said(),
        ).map_values(|block: Tree| chat_message_laws::text_or(block, "text"@, ""@)),
    decreases blocks.len(),
{
    keys::lemma_words();
    reveal(Seq::filter);
    let said = |block: Tree| chat_message_laws::text_or(block, "text"@, ""@);
    if blocks.len() > 0 {
        let rest = blocks.drop_last();
        lemma_texts(rest, schema_tool);
        let kept = rest.filter(is_said());
        assert(kept.push(blocks.last()).map_values(said) =~= kept.map_values(said).push(
            said(blocks.last()),
        ));
    } else {
        assert(blocks.filter(is_said()).map_values(said) =~= Seq::empty());
    }
}

proof fn lemma_calls(blocks: Seq<Tree>, schema_tool: Option<Seq<char>>)
    ensures
        ({
            let calls = steps::gather(blocks, Reply::start(), chat::reply_step(schema_tool)).calls;
            let called = blocks.filter(is_called(schema_tool));
            calls.len() == called.len() && forall|k: int|
                0 <= k < called.len() ==> shows_call(#[trigger] calls[k], called[k])
        }),
    decreases blocks.len(),
{
    keys::lemma_words();
    reveal(Seq::filter);
    if blocks.len() > 0 {
        let rest = blocks.drop_last();
        lemma_calls(rest, schema_tool);
        let block = blocks.last();
        assert(shows_call(chat::tool_call(block), block));
    }
}

proof fn lemma_schema(blocks: Seq<Tree>, schema_tool: Option<Seq<char>>)
    requires
        forall|k: int|
            0 <= k < blocks.len() ==> !(schema_tool is Some && chat_laws::calls_tool(
                #[trigger] blocks[k],
                schema_tool->0,
            )),
    ensures
        steps::gather(blocks, Reply::start(), chat::reply_step(schema_tool)).schema is None,
    decreases blocks.len(),
{
    keys::lemma_words();
    if blocks.len() > 0 {
        let rest = blocks.drop_last();
        assert forall|k: int| 0 <= k < rest.len() implies !(schema_tool is Some
            && chat_laws::calls_tool(#[trigger] rest[k], schema_tool->0)) by {
            assert(rest[k] == blocks[k]);
        }
        lemma_schema(rest, schema_tool);
        assert(blocks.last() == blocks[blocks.len() - 1]);
    }
}

/// The synthetic tool is not called in the answer.
pub open spec fn calls_no_schema(anthropic: Tree, schema_tool: Option<Seq<char>>) -> bool {
    schema_tool matches Some(name) ==> forall|k: int|
        0 <= k < blocks_in(anthropic).len() ==> !chat_laws::calls_tool(
            #[trigger] blocks_in(anthropic)[k],
            name,
        )
}

/// The answer of the assistant is passed on: all its texts, joined, as the content, and all
/// the tools it called, in their order, with the finish reason of its stop reason. Where it
/// only called tools, there is no content.
pub proof fn law_answer_is_passed_on(
    anthropic: Tree,
    schema_tool: Option<Seq<char>>,
    client_model: Option<Seq<char>>,
)
    requires
        calls_no_schema(anthropic, schema_tool),
    ensures
        ({
            let out = chat::response(anthropic, schema_tool, client_model);
            let said = said_in(anthropic);
            &&& out.get("object"@) == Some(Tree::Str("chat.completion"@))
            &&& out.get("id"@) == Some(
                Tree::Str(chat_message_laws::text_or(anthropic, "id"@, ""@)),
            )
            &&& out.get("model"@) == Some(
                Tree::Str(
                    match client_model {
                        Some(model) => model,
                        None => chat_message_laws::text_or(anthropic, "model"@, ""@),
                    },
                ),
            )
            &&& out.get("choices"@) matches Some(Tree::Arr(choices))
            &&& choices.len() == 1
            &&& choices[0].get("index"@) == Some(Tree::Int(0))
            &&& choices[0].get("finish_reason"@) matches Some(Tree::Str(told))
            &&& chat_sse_event_laws::is_finish_reason(told, anthropic.get("stop_reason"@))
            &&& choices[0].get("message"@) matches Some(message)
            &&& message.get("role"@) == Some(Tree::Str("assistant"@))
            &&& match message.get("tool_calls"@) {
                Some(Tree::Arr(calls)) => {
                    &&& calls.len() > 0
                    &&& are_shown(calls, anthropic, schema_tool)
                    &&& message.get("content"@) == Some(
                        if said.len() == 0 {
                            Tree::Null
                        } else {
                            Tree::Str(text::joined(said, ""@))
                        },
                    )
                },
                Some(_) => false,
                None => {
                    &&& are_shown(Seq::empty(), anthropic, schema_tool)
                    &&& message.get("content"@) == Some(Tree::Str(text::joined(said, ""@)))
                },
            }
        }),
{
    keys::lemma_words();
    let blocks = blocks_in(anthropic);
    lemma_texts(blocks, schema_tool);
    lemma_calls(blocks, schema_tool);
    lemma_schema(blocks, schema_tool);
    let reply = chat::reply_of(anthropic, schema_tool);
    assert(reply == steps::gather(blocks, Reply::start(), chat::reply_step(schema_tool)));
    if reply.calls.len() == 0 {
        assert(reply.calls =~= Seq::empty());
    }
}

/// The tokens that the upstream counted are told: its input tokens as prompt tokens, its
/// output tokens as completion tokens, and their sum.
pub proof fn law_usage_is_passed_on(
    anthropic: Tree,
    schema_tool: Option<Seq<char>>,
    client_model: Option<Seq<char>>,
    input: int,
    output: int,
    cached: Option<int>,
)
    requires
        anthropic.get("usage"@) matches Some(usage) && usage.get("input_tokens"@) == Some(
            Tree::Int(input),
        ) && usage.get("output_tokens"@) == Some(Tree::Int(output))
            && chat_sse_event_laws::cached_was(usage, cached),
        i64::MIN <= input <= i64::MAX,
        i64::MIN <= output <= i64::MAX,
        i64::MIN <= input + output <= i64::MAX,
        cached matches Some(n) ==> i64::MIN <= n <= i64::MAX,
    ensures
        chat::response(anthropic, schema_tool, client_model).get("usage"@) matches Some(told)
            && chat_sse_event_laws::is_chat_usage(told, input, output, cached),
{
    keys::lemma_words();
}

} // verus!
