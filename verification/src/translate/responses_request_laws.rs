//! What the translations of a Responses request and of its answer hold, field by field.

use vstd::prelude::*;

use crate::json::Tree;
use crate::text;
use crate::translate;
use crate::translate::chat_answer_laws;
use crate::translate::chat_message_laws;
use crate::translate::chat_request_laws;
use crate::translate::chat_sse_event_laws;
use crate::translate::keys;
use crate::translate::responses;
use crate::translate::responses_item_laws;
use crate::translate::responses_sse_event_laws;
use crate::translate::steps::Outcome;

verus! {

/// The system texts that a request starts with: its instructions, trimmed, unless blank.
pub open spec fn first_texts(src: Tree) -> Seq<Seq<char>> {
    match src.get("instructions"@) {
        Some(Tree::Str(s)) if text::trimmed(s).len() > 0 => seq![text::trimmed(s)],
        _ => Seq::empty(),
    }
}

/// The messages with a turn of the user at the start, where they start with none.
pub open spec fn are_opened(sent: Seq<Tree>, messages: Seq<Tree>) -> bool {
    if messages.len() == 0 || messages[0].get("role"@) == Some(Tree::Str("user"@)) {
        sent == messages
    } else {
        sent.len() == messages.len() + 1 && sent.skip(1) =~= messages && sent[0].get("role"@) == Some(
            Tree::Str("user"@),
        )
    }
}

/// How many tokens the model may think for, by the effort that is asked for.
pub open spec fn is_budget(budget: Option<int>, effort: Option<Tree>) -> bool {
    match effort {
        Some(Tree::Str(e)) => {
            let level = text::ascii_lower(text::trimmed(e));
            &&& level == "minimal"@ || level == "low"@ ==> budget == Some(2048int)
            &&& level == "medium"@ ==> budget == Some(8192int)
            &&& level == "high"@ ==> budget == Some(16384int)
            &&& level == "xhigh"@ || level == "max"@ ==> budget == Some(24576int)
            &&& level != "minimal"@ && level != "low"@ && level != "medium"@ && level != "high"@
                && level != "xhigh"@ && level != "max"@ ==> budget is None
        },
        _ => budget is None,
    }
}

/// The budget that a body gives for thinking.
pub open spec fn budget_in(body: Tree) -> Option<int> {
    match body.get("thinking"@) {
        Some(t) => match t.get("budget_tokens"@) {
            Some(Tree::Int(n)) => Some(n),
            _ => None,
        },
        None => None,
    }
}

/// The token limit: what is asked for, else 4096; and 4096 above the budget for thinking where
/// that would leave nothing for the answer.
pub open spec fn is_limit(limit: Option<Tree>, asked: Option<Tree>, budget: Option<int>) -> bool {
    let wanted = if chat_request_laws::is_count(asked) {
        asked->0->Int_0
    } else {
        4096
    };
    match budget {
        Some(b) if wanted <= b => limit == Some(Tree::Int(b + 4096)),
        _ => limit == Some(Tree::Int(wanted)),
    }
}

proof fn lemma_levels()
    ensures
        "minimal"@ != "medium"@,
        "minimal"@ != "high"@,
        "minimal"@ != "xhigh"@,
        "minimal"@ != "max"@,
        "low"@ != "medium"@,
        "low"@ != "high"@,
        "low"@ != "xhigh"@,
        "low"@ != "max"@,
        "medium"@ != "high"@,
        "medium"@ != "xhigh"@,
        "medium"@ != "max"@,
        "high"@ != "xhigh"@,
        "high"@ != "max"@,
{
    reveal_strlit("minimal");
    reveal_strlit("low");
    reveal_strlit("medium");
    reveal_strlit("high");
    reveal_strlit("xhigh");
    reveal_strlit("max");
    assert("minimal"@.len() == 7);
    assert("low"@.len() == 3);
    assert("medium"@.len() == 6);
    assert("high"@.len() == 4);
    assert("xhigh"@.len() == 5);
    assert("max"@.len() == 3);
    assert("low"@[0] != "max"@[0]);
}

proof fn lemma_body(
    src: Tree,
    model: Seq<char>,
    messages: Seq<Tree>,
    tools: Seq<Tree>,
    choice: Option<Tree>,
    system: Seq<Seq<char>>,
)
    ensures
        ({
            let body = responses::assembled(src, model, messages, tools, choice, system);
            &&& body.get("model"@) == Some(Tree::Str(model))
            &&& body.get("messages"@) == Some(Tree::Arr(messages))
            &&& is_budget(
                budget_in(body),
                chat_sse_event_laws::inner(src, "reasoning"@, "effort"@),
            )
            &&& body.get("thinking"@) matches Some(t) ==> t.get("type"@) == Some(
                Tree::Str("enabled"@),
            ) && budget_in(body) is Some
            &&& is_limit(body.get("max_tokens"@), src.get("max_output_tokens"@), budget_in(body))
            &&& chat_request_laws::keeps_sampling(body, src)
            &&& chat_request_laws::is_system_prompt(body.get("system"@), system)
            &&& body.get("tools"@) == (if tools.len() > 0 {
                Some(Tree::Arr(tools))
            } else {
                None
            })
            &&& body.get("tool_choice"@) == (if tools.len() > 0 {
                choice
            } else {
                None
            })
        }),
{
    keys::lemma_words();
    lemma_levels();
    let plain = map!["model"@ => Tree::Str(model), "messages"@ => Tree::Arr(messages)];
    let thoughtful = match responses::thinking_budget(src) {
        Some(budget) => plain.insert(
            "thinking"@,
            Tree::Obj(
                map![
                    "type"@ => Tree::Str("enabled"@),
                    "budget_tokens"@ => Tree::Int(budget as int),
                ],
            ),
        ),
        None => plain,
    };
    let start = thoughtful.insert("max_tokens"@, Tree::Int(responses::token_limit(src)));
    chat_request_laws::lemma_sampling(start, src);
    let sampled = Tree::Obj(translate::with_sampling(start, src));
    assert(sampled.get("model"@) == Some(Tree::Str(model)));
    assert(sampled.get("messages"@) == Some(Tree::Arr(messages)));
    assert(sampled.get("max_tokens"@) == Some(Tree::Int(responses::token_limit(src))));
    assert(sampled.get("thinking"@) == Tree::Obj(thoughtful).get("thinking"@));
    assert(sampled.get("system"@) is None);
    assert(sampled.get("tools"@) is None);
    assert(sampled.get("tool_choice"@) is None);
    let body = responses::assembled(src, model, messages, tools, choice, system);
    assert(body.get("temperature"@) == sampled.get("temperature"@));
    assert(body.get("top_p"@) == sampled.get("top_p"@));
    assert(body.get("stream"@) == sampled.get("stream"@));
    assert(body.get("stop_sequences"@) == sampled.get("stop_sequences"@));
    assert(body.get("thinking"@) == sampled.get("thinking"@));
    assert(budget_in(body) == (match responses::thinking_budget(src) {
        Some(b) => Some(b as int),
        None => None,
    }));
}

/// The translation asks for the same model with the same conversation, under the same limit,
/// with thinking by the effort that is asked for, sampled and stopped the same way. The
/// instructions are the system prompt.
pub proof fn law_request_is_kept(src: Tree)
    ensures
        responses::request(src) matches Outcome::Done(body) ==> {
            &&& src.get("model"@) matches Some(Tree::Str(model))
            &&& body.get("model"@) == Some(Tree::Str(model))
            &&& responses::input_of(src.get("input"@), first_texts(src)) matches Outcome::Done(c)
            &&& body.get("messages"@) matches Some(Tree::Arr(sent))
            &&& are_opened(sent, c.1)
            &&& is_budget(
                budget_in(body),
                chat_sse_event_laws::inner(src, "reasoning"@, "effort"@),
            )
            &&& body.get("thinking"@) matches Some(t) ==> t.get("type"@) == Some(
                Tree::Str("enabled"@),
            ) && budget_in(body) is Some
            &&& is_limit(body.get("max_tokens"@), src.get("max_output_tokens"@), budget_in(body))
            &&& chat_request_laws::keeps_sampling(body, src)
            &&& chat_request_laws::is_system_prompt(body.get("system"@), c.0)
        },
{
    keys::lemma_words();
    if let Outcome::Done(body) = responses::request(src) {
        let model = src.get("model"@)->0->Str_0;
        assert(responses::instructions_of(src) == first_texts(src));
        let c = responses::input_of(src.get("input"@), first_texts(src))->Done_0;
        let tools = responses::tools_of(src.get("tools"@))->Done_0;
        let choice = if tools.len() > 0 {
            responses::responses_choice(src.get("tool_choice"@))->Done_0
        } else {
            None
        };
        lemma_body(src, model, responses::opened(c.1), tools, choice, c.0);
        assert(responses::opened(c.1).skip(1) =~= c.1 || responses::opened(c.1) == c.1);
    }
}

/// An entry of `tools` that is passed on. Those of other kinds are left out.
pub open spec fn is_function() -> spec_fn(Tree) -> bool {
    |tool: Tree| tool.get("type"@) == Some(Tree::Str("function"@))
}

/// Every function is defined upstream as the client defined it, in the same order, and no other
/// tool is; a list is refused where a function has no name, and only there.
pub proof fn law_tools_are_defined(tools: Seq<Tree>)
    ensures
        responses::tools_of(Some(Tree::Arr(tools))) is Done <==> are_named(tools),
        responses::tools_of(Some(Tree::Arr(tools))) matches Outcome::Done(out) ==> {
            let functions = tools.filter(is_function());
            out.len() == functions.len() && forall|k: int|
                0 <= k < functions.len() ==> chat_request_laws::defines(
                    #[trigger] out[k],
                    functions[k],
                )
        },
    decreases tools.len(),
{
    keys::lemma_words();
    reveal(Seq::filter);
    if tools.len() > 0 {
        let rest = tools.drop_last();
        law_tools_are_defined(rest);
        let tool = tools.last();
        assert(tool == tools[tools.len() - 1]);
        if let Some(Tree::Str(name)) = tool.get("name"@) {
            chat_request_laws::lemma_entry(name, tool);
        }
        if are_named(tools) {
            assert forall|k: int| 0 <= k < rest.len() implies is_named(#[trigger] rest[k]) by {
                assert(rest[k] == tools[k]);
            }
            assert(is_named(tools[tools.len() - 1]));
        }
        if responses::tools_of(Some(Tree::Arr(tools))) is Done {
            assert forall|k: int| 0 <= k < tools.len() implies is_named(#[trigger] tools[k]) by {
                if k < rest.len() {
                    assert(rest[k] == tools[k]);
                }
            }
        }
    }
}

/// A tool that is no function, or that has a name.
pub open spec fn is_named(tool: Tree) -> bool {
    !is_function()(tool) || (tool.get("name"@) matches Some(Tree::Str(_)))
}

/// Every function has a name.
pub open spec fn are_named(tools: Seq<Tree>) -> bool {
    forall|k: int| 0 <= k < tools.len() ==> is_named(#[trigger] tools[k])
}

/// The choice of tools means the same upstream.
pub proof fn law_tool_choice_is_kept(choice: Option<Tree>)
    ensures
        chat_request_laws::is_choice(
            responses::responses_choice(choice),
            choice,
            match choice {
                Some(c) => match c.get("name"@) {
                    Some(Tree::Str(name)) => Some(name),
                    _ => None,
                },
                None => None,
            },
        ),
{
    keys::lemma_words();
}

/// The request goes with the tools that the client gave, and with its choice where there are
/// any.
pub proof fn law_tools_go_with_the_request(src: Tree)
    ensures
        responses::request(src) matches Outcome::Done(body) ==> {
            &&& responses::tools_of(src.get("tools"@)) matches Outcome::Done(tools)
            &&& if tools.len() > 0 {
                &&& body.get("tools"@) == Some(Tree::Arr(tools))
                &&& responses::responses_choice(src.get("tool_choice"@)) == Outcome::Done(
                    body.get("tool_choice"@),
                )
            } else {
                body.get("tools"@) is None && body.get("tool_choice"@) is None
            }
        },
{
    if let Outcome::Done(body) = responses::request(src) {
        let model = src.get("model"@)->0->Str_0;
        let c = responses::input_of(src.get("input"@), responses::instructions_of(src))->Done_0;
        let tools = responses::tools_of(src.get("tools"@))->Done_0;
        let choice = if tools.len() > 0 {
            responses::responses_choice(src.get("tool_choice"@))->Done_0
        } else {
            None
        };
        lemma_body(src, model, responses::opened(c.1), tools, choice, c.0);
    }
}

/// The tools of a request, of which those that are functions are passed on.
pub open spec fn tools_in(src: Tree) -> Seq<Tree> {
    match src.get("tools"@) {
        Some(Tree::Arr(tools)) => tools,
        _ => Seq::empty(),
    }
}

/// A request that can be translated: it asks for no stored state, names a model, and holds
/// nothing that has no meaning upstream.
pub open spec fn is_sound_request(src: Tree) -> bool {
    &&& src.get("store"@) != Some(Tree::Bool(true))
    &&& src.get("previous_response_id"@) is None || src.get("previous_response_id"@) == Some(
        Tree::Null,
    )
    &&& src.get("model"@) matches Some(Tree::Str(_))
    &&& responses_item_laws::is_sound_input(src.get("input"@))
    &&& are_named(tools_in(src))
    &&& tools_in(src).filter(is_function()).len() == 0 || match src.get("tool_choice"@) {
        None => true,
        Some(Tree::Null) => true,
        Some(Tree::Str(s)) => s == "auto"@ || s == "none"@ || s == "required"@,
        Some(Tree::Obj(m)) => Tree::Obj(m).get("name"@) matches Some(Tree::Str(_)),
        Some(_) => false,
    }
}

/// A request is refused where it cannot be translated, and only there.
pub proof fn law_sound_requests_are_accepted(src: Tree)
    ensures
        responses::request(src) is Done <==> is_sound_request(src),
{
    keys::lemma_words();
    responses_item_laws::law_sound_input_is_accepted(
        src.get("input"@),
        responses::instructions_of(src),
    );
    law_tools_are_defined(tools_in(src));
    law_tool_choice_is_kept(src.get("tool_choice"@));
    if !(src.get("tools"@) matches Some(Tree::Arr(_))) {
        reveal(Seq::filter);
    }
}

/// A block that becomes an item: a text, or a call of a tool.
pub open spec fn is_shown(block: Tree) -> bool {
    (block.get("type"@) == Some(Tree::Str("text"@)) && (block.get("text"@) matches Some(
        Tree::Str(_),
    ))) || block.get("type"@) == Some(Tree::Str("tool_use"@))
}

/// The item stands for the block: a message of the assistant with the same text, or a call of
/// the same tool with the same arguments, under the id by which it is answered.
pub open spec fn stands_for(item: Tree, block: Tree) -> bool {
    &&& item.get("status"@) == Some(Tree::Str("completed"@))
    &&& if block.get("type"@) == Some(Tree::Str("text"@)) {
        &&& item.get("type"@) == Some(Tree::Str("message"@))
        &&& item.get("role"@) == Some(Tree::Str("assistant"@))
        &&& item.get("content"@) matches Some(Tree::Arr(parts))
        &&& parts.len() == 1
        &&& parts[0].get("type"@) == Some(Tree::Str("output_text"@))
        &&& parts[0].get("text"@) == block.get("text"@)
    } else {
        &&& item.get("type"@) == Some(Tree::Str("function_call"@))
        &&& item.get("call_id"@) == Some(
            Tree::Str(chat_message_laws::text_or(block, "id"@, ""@)),
        )
        &&& item.get("name"@) == Some(Tree::Str(chat_message_laws::text_or(block, "name"@, ""@)))
        &&& item.get("arguments"@) matches Some(Tree::Str(arguments))
        &&& chat_answer_laws::are_arguments(arguments, block.get("input"@))
    }
}

/// The items stand for the blocks that are shown, one for each, in their order.
pub open spec fn are_items(items: Seq<Tree>, blocks: Seq<Tree>) -> bool {
    let shown = blocks.filter(|block: Tree| is_shown(block));
    items.len() == shown.len() && forall|k: int|
        0 <= k < shown.len() ==> stands_for(#[trigger] items[k], shown[k])
}

/// The answer of the assistant is passed on block by block, in order: nothing is left out that
/// the client can be shown, and nothing is added.
pub proof fn law_output_is_the_answer(blocks: Seq<Tree>, ids: Seq<Seq<char>>)
    ensures
        are_items(responses::output_of(blocks, ids), blocks),
    decreases blocks.len(),
{
    keys::lemma_words();
    reveal(Seq::filter);
    if blocks.len() > 0 {
        law_output_is_the_answer(blocks.drop_last(), ids);
        let block = blocks.last();
        let id = ids[blocks.len() - 1];
        if let Some(item) = responses::item_of(block, id) {
            assert(stands_for(item, block));
        }
    }
}

/// A whole answer names the model and its own id, tells whether it was cut off, and holds the
/// answer of the assistant.
pub proof fn law_answer_is_passed_on(
    anthropic: Tree,
    client_model: Option<Seq<char>>,
    ids: Seq<Seq<char>>,
)
    ensures
        ({
            let out = responses::response(anthropic, client_model, ids);
            &&& out.get("object"@) == Some(Tree::Str("response"@))
            &&& out.get("id"@) == Some(
                Tree::Str(chat_message_laws::text_or(anthropic, "id"@, ""@)),
            )
            &&& out.get("model"@) == Some(
                Tree::Str(
                    match client_model {
                        Some(model) => model,
                        None => chat_message_laws::text_or(anthropic, "model"@, ""@),
                    },
                ),
            )
            &&& responses_sse_event_laws::tells_status(out, anthropic.get("stop_reason"@))
            &&& out.get("output"@) matches Some(Tree::Arr(items))
            &&& are_items(items, chat_answer_laws::blocks_in(anthropic))
        }),
{
    keys::lemma_words();
    law_output_is_the_answer(chat_answer_laws::blocks_in(anthropic), ids);
}

/// The tokens that the upstream counted are told: its input tokens as input tokens, its output
/// tokens as output tokens, and their sum.
pub proof fn law_usage_is_passed_on(
    anthropic: Tree,
    client_model: Option<Seq<char>>,
    ids: Seq<Seq<char>>,
    input: int,
    output: int,
    cached: Option<int>,
)
    requires
        anthropic.get("usage"@) matches Some(usage) && usage.get("input_tokens"@) == Some(
            Tree::Int(input),
        ) && usage.get("output_tokens"@) == Some(Tree::Int(output))
            && chat_sse_event_laws::cached_was(usage, cached),
        i64::MIN <= input <= i64::MAX,
        i64::MIN <= output <= i64::MAX,
        i64::MIN <= input + output <= i64::MAX,
        cached matches Some(n) ==> i64::MIN <= n <= i64::MAX,
    ensures
        responses::response(anthropic, client_model, ids).get("usage"@) matches Some(told)
            && responses_sse_event_laws::is_responses_usage(told, input, output, cached),
{
    keys::lemma_words();
}

} // verus!
