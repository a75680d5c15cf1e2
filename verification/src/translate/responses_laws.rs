//! What holds of every Responses translation.

use vstd::prelude::*;

use crate::json;
use crate::json::Tree;
use crate::translate;
use crate::translate::responses;
use crate::translate::steps::Outcome;

verus! {

proof fn lemma_sampling_leaves(out: Map<Seq<char>, Tree>, src: Tree, key: Seq<char>)
    requires
        key != "temperature"@,
        key != "top_p"@,
        key != "stream"@,
        key != "stop_sequences"@,
    ensures
        Tree::Obj(translate::with_sampling(out, src)).get(key) == Tree::Obj(out).get(key),
{
}

proof fn lemma_keys()
    ensures
        forall|key: Seq<char>|
            #![trigger is_own(key)]
            is_own(key) ==> key != "temperature"@ && key != "top_p"@ && key != "stream"@ && key
                != "stop_sequences"@,
        "messages"@ != "thinking"@,
        "messages"@ != "max_tokens"@,
        "messages"@ != "tools"@,
        "messages"@ != "tool_choice"@,
        "messages"@ != "system"@,
        "thinking"@ != "model"@,
        "thinking"@ != "max_tokens"@,
        "thinking"@ != "tools"@,
        "thinking"@ != "tool_choice"@,
        "thinking"@ != "system"@,
        "max_tokens"@ != "tools"@,
        "max_tokens"@ != "tool_choice"@,
        "max_tokens"@ != "system"@,
        "tools"@ != "model"@,
        "tools"@ != "tool_choice"@,
        "tools"@ != "system"@,
        "tool_choice"@ != "model"@,
        "tool_choice"@ != "system"@,
{
    reveal_strlit("tool_choice");
    reveal_strlit("tools");
    reveal_strlit("temperature");
    reveal_strlit("top_p");
    reveal_strlit("stream");
    reveal_strlit("stop_sequences");
    reveal_strlit("model");
    reveal_strlit("messages");
    reveal_strlit("thinking");
    reveal_strlit("max_tokens");
    reveal_strlit("system");
    assert("tool_choice"@.len() == 11);
    assert("tools"@.len() == 5);
    assert("temperature"@.len() == 11);
    assert("top_p"@.len() == 5);
    assert("stream"@.len() == 6);
    assert("stop_sequences"@.len() == 14);
    assert("model"@.len() == 5);
    assert("messages"@.len() == 8);
    assert("thinking"@.len() == 8);
    assert("max_tokens"@.len() == 10);
    assert("system"@.len() == 6);
    assert("tool_choice"@[1] == 'o' && "temperature"@[1] == 'e');
    assert("tools"@[2] == 'o' && "top_p"@[2] == 'p');
    assert("tools"@[0] == 't' && "model"@[0] == 'm');
    assert("messages"@[0] != "thinking"@[0]);
}

/// A field of the body that has nothing to do with sampling.
spec fn is_own(key: Seq<char>) -> bool {
    key == "messages"@ || key == "thinking"@ || key == "max_tokens"@ || key == "tools"@ || key
        == "tool_choice"@
}

/// The fields of a body are those it was put together from.
proof fn lemma_body_fields(
    src: Tree,
    model: Seq<char>,
    messages: Seq<Tree>,
    tools: Seq<Tree>,
    choice: Option<Tree>,
    system: Seq<Seq<char>>,
)
    ensures
        ({
            let body = responses::assembled(src, model, messages, tools, choice, system);
            &&& body.get("messages"@) == Some(Tree::Arr(messages))
            &&& body.get("max_tokens"@) == Some(Tree::Int(responses::token_limit(src)))
            &&& body.get("thinking"@) == (match responses::thinking_budget(src) {
                Some(budget) => Some(thinking(budget as int)),
                None => None,
            })
            &&& body.get("tools"@) is Some <==> tools.len() > 0
            &&& body.get("tool_choice"@) == (if tools.len() > 0 {
                choice
            } else {
                None
            })
        }),
{
    lemma_keys();
    assert forall|out: Map<Seq<char>, Tree>, key: Seq<char>|
        #![trigger Tree::Obj(translate::with_sampling(out, src)).get(key)]
        is_own(key) implies Tree::Obj(translate::with_sampling(out, src)).get(key) == Tree::Obj(
        out,
    ).get(key) by {
        lemma_sampling_leaves(out, src, key);
    }
    let body = responses::assembled(src, model, messages, tools, choice, system);
    let plain = map!["model"@ => Tree::Str(model), "messages"@ => Tree::Arr(messages)];
    let thoughtful = match responses::thinking_budget(src) {
        Some(budget) => plain.insert("thinking"@, thinking(budget as int)),
        None => plain,
    };
    let limited = thoughtful.insert("max_tokens"@, Tree::Int(responses::token_limit(src)));
    let sampled = Tree::Obj(translate::with_sampling(limited, src));
    assert(is_own("messages"@) && sampled.get("messages"@) == Some(Tree::Arr(messages)));
    assert(is_own("max_tokens"@) && sampled.get("max_tokens"@) == Some(
        Tree::Int(responses::token_limit(src)),
    ));
    assert(is_own("thinking"@) && sampled.get("thinking"@) == Tree::Obj(thoughtful).get(
        "thinking"@,
    ));
    assert(is_own("tools"@) && sampled.get("tools"@) is None);
    assert(is_own("tool_choice"@) && sampled.get("tool_choice"@) is None);
}

/// The `thinking` of a request with this budget.
pub open spec fn thinking(budget: int) -> Tree {
    Tree::Obj(map!["type"@ => Tree::Str("enabled"@), "budget_tokens"@ => Tree::Int(budget)])
}

/// The translated conversation opens with a message from the user, where there is any.
pub proof fn law_conversation_opens_with_user(src: Tree)
    ensures
        responses::request(src) matches Outcome::Done(body) ==> (body.get("messages"@) matches Some(
            Tree::Arr(messages),
        ) && (messages.len() > 0 ==> json::str_in(messages[0].get("role"@)) == Some("user"@))),
{
    reveal_strlit("role");
    reveal_strlit("content");
    assert("role"@.len() != "content"@.len());
    lemma_request_fields(src);
}

/// The token limit is above the thinking budget, as Anthropic requires, and the budget
/// is one that Anthropic accepts.
pub proof fn law_token_limit_exceeds_thinking_budget(src: Tree)
    ensures
        responses::request(src) matches Outcome::Done(body) ==> match (
            body.get("thinking"@),
            body.get("max_tokens"@),
        ) {
            (None, _) => true,
            (Some(t), Some(Tree::Int(limit))) => exists|budget: int|
                t == #[trigger] thinking(budget) && responses::MIN_THINKING_BUDGET <= budget < limit,
            (Some(_), _) => false,
        },
{
    lemma_request_fields(src);
    if responses::thinking_budget(src) is Some {
        let budget = responses::thinking_budget(src)->0 as int;
        assert(thinking(budget) == thinking(budget));
    }
}

/// A tool choice is only ever sent beside tools: Anthropic refuses one without the
/// other.
pub proof fn law_tool_choice_needs_tools(src: Tree)
    ensures
        responses::request(src) matches Outcome::Done(body) ==> (body.get("tool_choice"@) is Some
            ==> body.get("tools"@) is Some),
{
    lemma_request_fields(src);
}

/// What a translated request holds.
proof fn lemma_request_fields(src: Tree)
    ensures
        responses::request(src) matches Outcome::Done(body) ==> {
            &&& body.get("max_tokens"@) == Some(Tree::Int(responses::token_limit(src)))
            &&& body.get("thinking"@) == (match responses::thinking_budget(src) {
                Some(budget) => Some(thinking(budget as int)),
                None => None,
            })
            &&& body.get("tool_choice"@) is Some ==> body.get("tools"@) is Some
            &&& responses::input_of(
                src.get("input"@),
                responses::instructions_of(src),
            ) matches Outcome::Done(c) && body.get("messages"@) == Some(
                Tree::Arr(responses::opened(c.1)),
            )
        },
{
    assert forall|
        model: Seq<char>,
        messages: Seq<Tree>,
        tools: Seq<Tree>,
        choice: Option<Tree>,
        system: Seq<Seq<char>>,
    |
        {
            let body = #[trigger] responses::assembled(src, model, messages, tools, choice, system);
            &&& body.get("messages"@) == Some(Tree::Arr(messages))
            &&& body.get("max_tokens"@) == Some(Tree::Int(responses::token_limit(src)))
            &&& body.get("thinking"@) == (match responses::thinking_budget(src) {
                Some(budget) => Some(thinking(budget as int)),
                None => None,
            })
            &&& body.get("tool_choice"@) is Some ==> body.get("tools"@) is Some
        } by {
        lemma_body_fields(src, model, messages, tools, choice, system);
    }
}

/// A response names the model that the client asked for, whatever the upstream calls
/// it.
pub proof fn law_client_model_is_echoed(
    anthropic: Tree,
    client_model: Seq<char>,
    ids: Seq<Seq<char>>,
)
    ensures
        responses::response(anthropic, Some(client_model), ids).get("model"@) == Some(
            Tree::Str(client_model),
        ),
{
    reveal_strlit("model");
    reveal_strlit("status");
    reveal_strlit("output");
    reveal_strlit("usage");
    reveal_strlit("incomplete_details");
    assert("model"@.len() == 5);
    assert("status"@.len() == 6);
    assert("output"@.len() == 6);
    assert("usage"@.len() == 5);
    assert("incomplete_details"@.len() == 18);
    assert("model"@[0] != "usage"@[0]);
}

} // verus!
