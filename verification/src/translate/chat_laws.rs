//! What holds of every Chat Completions translation.

use vstd::prelude::*;

use crate::json;
use crate::json::Tree;
use crate::text;
use crate::translate;
use crate::translate::chat;
use crate::translate::chat::{Conversation, Formatted, Reply};
use crate::translate::steps;
use crate::translate::steps::Outcome;

verus! {

/// The role and the content of a message are those it was made with.
proof fn lemma_message_fields(role: Seq<char>, content: Seq<Tree>)
    ensures
        chat::message(role, content).get("role"@) == Some(Tree::Str(role)),
        chat::message(role, content).get("content"@) == Some(Tree::Arr(content)),
{
    reveal_strlit("role");
    reveal_strlit("content");
    assert("role"@.len() != "content"@.len());
}

/// The translated conversation always opens with a user turn that holds more than
/// tool results.
pub proof fn law_conversation_opens_with_user(src: Tree)
    ensures
        chat::request(src) matches Outcome::Done((body, tool)) ==> (body.get(
            "messages"@,
        ) matches Some(Tree::Arr(messages)) && !chat::lacks_opening_turn(messages)),
{
    reveal_strlit("messages");
    reveal_strlit("max_tokens");
    reveal_strlit("temperature");
    reveal_strlit("top_p");
    reveal_strlit("stream");
    reveal_strlit("stop_sequences");
    reveal_strlit("system");
    reveal_strlit("tools");
    reveal_strlit("tool_choice");
    assert("messages"@.len() == 8);
    assert("max_tokens"@.len() == 10);
    assert("temperature"@.len() == 11);
    assert("top_p"@.len() == 5);
    assert("stream"@.len() == 6);
    assert("stop_sequences"@.len() == 14);
    assert("system"@.len() == 6);
    assert("tools"@.len() == 5);
    assert("tool_choice"@.len() == 11);
    if let Some(Tree::Arr(messages)) = src.get("messages"@) {
        lemma_conversation_opens_with_user(messages);
    }
}

proof fn lemma_conversation_opens_with_user(messages: Seq<Tree>)
    ensures
        chat::conversation(messages) matches Outcome::Done(c) ==> !chat::lacks_opening_turn(c.1),
{
    if chat::conversation(messages) is Done {
        let out = chat::conversation(messages)->Done_0.1;
        let blocks = seq![chat::text_block("(continuing the conversation)"@)];
        lemma_message_fields("user"@, blocks);
        reveal_strlit("type");
        reveal_strlit("text");
        reveal_strlit("tool_result");
        assert("text"@.len() != "tool_result"@.len());
        assert("type"@[1] != "text"@[1]);
        assert(!chat::is_tool_result(blocks[0]));
        if out.len() > 0 && out[0] == chat::opening_turn() {
            assert(!chat::lacks_opening_turn(out));
        }
    }
}

/// The system text that one message adds, if any.
pub open spec fn system_step() -> spec_fn(Seq<Seq<char>>, Tree) -> Seq<Seq<char>> {
    |system: Seq<Seq<char>>, msg: Tree|
        if (chat::role_of(msg) == "system"@ || chat::role_of(msg) == "developer"@) && chat::text_of(
            msg.get("content"@),
        ).len() > 0 {
            system.push(chat::text_of(msg.get("content"@)))
        } else {
            system
        }
}

/// The texts of `system` and `developer` messages are extracted in order, wherever
/// in the conversation these stand.
pub proof fn law_system_texts_are_extracted(messages: Seq<Tree>)
    ensures
        steps::run(messages, Conversation::start(), chat::message_step()) matches Outcome::Done(c)
            ==> c.system == steps::gather(messages, Seq::empty(), system_step()),
    decreases messages.len(),
{
    if messages.len() > 0 {
        law_system_texts_are_extracted(messages.drop_last());
        reveal_strlit("system");
        reveal_strlit("developer");
        reveal_strlit("tool");
        reveal_strlit("function");
        assert("system"@.len() != "tool"@.len());
        assert("system"@.len() != "function"@.len());
        assert("developer"@.len() != "tool"@.len());
        assert("developer"@.len() != "function"@.len());
    }
}

/// The tool results of neighbouring tool messages arrive together: after a point at
/// which none waits, any number of tool messages becomes one user message that holds
/// one block for each.
pub proof fn law_tool_results_share_one_message(messages: Seq<Tree>, n: int)
    requires
        0 <= n < messages.len(),
        forall|i: int| n <= i < messages.len() ==> chat::is_tool_message(#[trigger] messages[i]),
        steps::run(messages.take(n), Conversation::start(), chat::message_step()) matches Outcome::Done(
            c,
        ) && c.pending.len() == 0,
    ensures
        steps::run(messages, Conversation::start(), chat::message_step()) matches Outcome::Done(c)
            ==> {
            let before = steps::run(
                messages.take(n),
                Conversation::start(),
                chat::message_step(),
            )->Done_0;
            &&& c.pending.len() == messages.len() - n
            &&& c.out == before.out
            &&& c.flushed().out == before.out.push(chat::message("user"@, c.pending))
        },
    decreases messages.len(),
{
    let rest = messages.drop_last();
    assert(messages.last() == messages[messages.len() - 1]);
    if n < rest.len() {
        assert(rest.take(n) =~= messages.take(n));
        assert forall|i: int| n <= i < rest.len() implies chat::is_tool_message(
            #[trigger] rest[i],
        ) by {
            assert(rest[i] == messages[i]);
        }
        law_tool_results_share_one_message(rest, n);
    } else {
        assert(rest =~= messages.take(n));
    }
}

/// The fields of a Chat Completions request that its translation reads.
pub open spec fn reads(key: Seq<char>) -> bool {
    ||| key == "model"@
    ||| key == "n"@
    ||| key == "logprobs"@
    ||| key == "top_logprobs"@
    ||| key == "messages"@
    ||| key == "max_completion_tokens"@
    ||| key == "max_tokens"@
    ||| key == "temperature"@
    ||| key == "top_p"@
    ||| key == "stream"@
    ||| key == "stop"@
    ||| key == "tools"@
    ||| key == "tool_choice"@
    ||| key == "response_format"@
}

/// Every other parameter is ignored, whatever its value: it neither changes the
/// translation nor refuses the request.
pub proof fn law_other_parameters_are_ignored(m: Map<Seq<char>, Tree>, key: Seq<char>, value: Tree)
    requires
        !reads(key),
    ensures
        chat::request(Tree::Obj(m.insert(key, value))) == chat::request(Tree::Obj(m)),
{
    let a = Tree::Obj(m.insert(key, value));
    let b = Tree::Obj(m);
    assert forall|k: Seq<char>| reads(k) implies a.get(k) == b.get(k) by {}
    assert(a.get("model"@) == b.get("model"@));
    assert(a.get("n"@) == b.get("n"@));
    assert(chat::unsupported(a) == chat::unsupported(b));
    assert(a.get("messages"@) == b.get("messages"@));
    assert(a.get("tools"@) == b.get("tools"@));
    assert(a.get("tool_choice"@) == b.get("tool_choice"@));
    assert(a.get("response_format"@) == b.get("response_format"@));
    assert forall|o: Map<Seq<char>, Tree>|
        #[trigger] translate::with_sampling(o, a) == translate::with_sampling(o, b) by {}
    assert forall|model: Seq<char>, messages: Seq<Tree>, f: Formatted|
        #[trigger] chat::assembled(a, model, messages, f) == chat::assembled(b, model, messages, f) by {}
}

/// The parameters that SDKs send at default values are among the ignored ones.
pub proof fn law_default_parameters_are_ignored(key: Seq<char>)
    requires
        key == "presence_penalty"@ || key == "frequency_penalty"@ || key == "logit_bias"@ || key
            == "seed"@ || key == "user"@,
    ensures
        !reads(key),
{
    reveal_strlit("presence_penalty");
    reveal_strlit("frequency_penalty");
    reveal_strlit("logit_bias");
    reveal_strlit("seed");
    reveal_strlit("user");
    reveal_strlit("model");
    reveal_strlit("n");
    reveal_strlit("logprobs");
    reveal_strlit("top_logprobs");
    reveal_strlit("messages");
    reveal_strlit("max_completion_tokens");
    reveal_strlit("max_tokens");
    reveal_strlit("temperature");
    reveal_strlit("top_p");
    reveal_strlit("stream");
    reveal_strlit("stop");
    reveal_strlit("tools");
    reveal_strlit("tool_choice");
    reveal_strlit("response_format");
    assert("presence_penalty"@.len() == 16);
    assert("frequency_penalty"@.len() == 17);
    assert("logit_bias"@.len() == 10);
    assert("seed"@.len() == 4);
    assert("user"@.len() == 4);
    assert("model"@.len() == 5);
    assert("n"@.len() == 1);
    assert("logprobs"@.len() == 8);
    assert("top_logprobs"@.len() == 12);
    assert("messages"@.len() == 8);
    assert("max_completion_tokens"@.len() == 21);
    assert("max_tokens"@.len() == 10);
    assert("temperature"@.len() == 11);
    assert("top_p"@.len() == 5);
    assert("stream"@.len() == 6);
    assert("stop"@.len() == 4);
    assert("tools"@.len() == 5);
    assert("tool_choice"@.len() == 11);
    assert("response_format"@.len() == 15);
    assert("stop"@[1] == 't');
    assert("seed"@[1] == 'e');
    assert("user"@[0] == 'u');
    assert("max_tokens"@[0] == 'm');
    assert("logit_bias"@[0] == 'l');
}

/// A response names the model that the client asked for, whatever the upstream calls
/// it.
pub proof fn law_client_model_is_echoed(
    anthropic: Tree,
    schema_tool: Option<Seq<char>>,
    client_model: Seq<char>,
)
    ensures
        chat::response(anthropic, schema_tool, Some(client_model)).get("model"@) == Some(
            Tree::Str(client_model),
        ),
{
    reveal_strlit("model");
    reveal_strlit("choices");
    reveal_strlit("usage");
    assert("model"@.len() != "choices"@.len());
    assert("model"@[0] != "usage"@[0]);
}

/// A block that a response shows as a tool call: a `tool_use` block, but not one of the
/// synthetic tool.
pub open spec fn is_call(schema_tool: Option<Seq<char>>) -> spec_fn(Tree) -> bool {
    |block: Tree|
        json::str_in(block.get("type"@)) == Some("tool_use"@) && schema_tool != Some(
            json::str_or(block, "name"@, ""@),
        )
}

/// The tool calls of a response are those of the upstream's blocks, in their order; the
/// synthetic tool is never among them.
pub proof fn law_tool_calls_come_from_blocks(blocks: Seq<Tree>, schema_tool: Option<Seq<char>>)
    ensures
        steps::gather(blocks, Reply::start(), chat::reply_step(schema_tool)).calls == blocks.filter(
            is_call(schema_tool),
        ).map_values(|block: Tree| chat::tool_call(block)),
    decreases blocks.len(),
{
    reveal_strlit("text");
    reveal_strlit("tool_use");
    assert("text"@.len() != "tool_use"@.len());
    let made = |block: Tree| chat::tool_call(block);
    reveal(Seq::filter);
    if blocks.len() > 0 {
        let rest = blocks.drop_last();
        law_tool_calls_come_from_blocks(rest, schema_tool);
        let kept = rest.filter(is_call(schema_tool));
        assert(kept.push(blocks.last()).map_values(made) =~= kept.map_values(made).push(
            made(blocks.last()),
        ));
    } else {
        assert(blocks.filter(is_call(schema_tool)).map_values(made) =~= Seq::empty());
    }
}

/// Where a request asks for a JSON schema, its translation holds one tool, the
/// synthetic one, and forces its use.
pub proof fn law_schema_tool_is_forced(src: Tree)
    ensures
        chat::request(src) matches Outcome::Done((body, Some(name))) ==> {
            &&& body.get("tool_choice"@) == Some(chat::forced_tool(name))
            &&& body.get("tools"@) matches Some(Tree::Arr(tools)) && tools.len() == 1
                && tools[0].get("name"@) == Some(Tree::Str(name))
        },
{
    reveal_strlit("tools");
    reveal_strlit("tool_choice");
    reveal_strlit("name");
    reveal_strlit("input_schema");
    assert("tools"@.len() == 5);
    assert("tool_choice"@.len() == 11);
    assert("name"@.len() == 4);
    assert("input_schema"@.len() == 12);
}

/// A block that calls the tool of this name.
pub open spec fn calls_tool(block: Tree, name: Seq<char>) -> bool {
    json::str_in(block.get("type"@)) == Some("tool_use"@) && json::str_or(block, "name"@, ""@)
        == name
}

/// The synthetic tool stays invisible on the way out: a response that calls it has the
/// input of the last such call as its content, no tool calls, and the finish reason of
/// an ordinary answer.
pub proof fn law_schema_call_becomes_content(
    anthropic: Tree,
    name: Seq<char>,
    client_model: Option<Seq<char>>,
    at: int,
)
    requires
        anthropic.get("content"@) matches Some(Tree::Arr(blocks)) && 0 <= at < blocks.len()
            && calls_tool(blocks[at], name) && forall|i: int|
            at < i < blocks.len() ==> !calls_tool(#[trigger] blocks[i], name),
    ensures
        ({
            let blocks = anthropic.get("content"@)->0->Arr_0;
            let input = match blocks[at].get("input"@) {
                Some(input) => input,
                None => Tree::Obj(Map::empty()),
            };
            let choices = chat::response(anthropic, Some(name), client_model).get("choices"@);
            choices == Some(
                Tree::Arr(
                    seq![
                        Tree::Obj(
                            map![
                                "index"@ => Tree::Int(0),
                                "message"@ => Tree::Obj(
                                    map![
                                        "role"@ => Tree::Str("assistant"@),
                                        "content"@ => Tree::Str(json::json_text(input)),
                                    ],
                                ),
                                "finish_reason"@ => Tree::Str("stop"@),
                            ],
                        ),
                    ],
                ),
            )
        }),
{
    let blocks = anthropic.get("content"@)->0->Arr_0;
    lemma_schema_of_blocks(blocks, name, at);
    reveal_strlit("choices");
    reveal_strlit("usage");
    assert("choices"@.len() != "usage"@.len());
}

proof fn lemma_schema_of_blocks(blocks: Seq<Tree>, name: Seq<char>, at: int)
    requires
        0 <= at < blocks.len(),
        calls_tool(blocks[at], name),
        forall|i: int| at < i < blocks.len() ==> !calls_tool(#[trigger] blocks[i], name),
    ensures
        steps::gather(blocks, Reply::start(), chat::reply_step(Some(name))).schema == Some(
            json::json_text(
                match blocks[at].get("input"@) {
                    Some(input) => input,
                    None => Tree::Obj(Map::empty()),
                },
            ),
        ),
    decreases blocks.len(),
{
    reveal_strlit("text");
    reveal_strlit("tool_use");
    assert("text"@.len() != "tool_use"@.len());
    if at < blocks.len() - 1 {
        let rest = blocks.drop_last();
        assert(blocks.last() == blocks[blocks.len() - 1]);
        assert forall|i: int| at < i < rest.len() implies !calls_tool(
            #[trigger] rest[i],
            name,
        ) by {
            assert(rest[i] == blocks[i]);
        }
        lemma_schema_of_blocks(rest, name, at);
    }
}

} // verus!
