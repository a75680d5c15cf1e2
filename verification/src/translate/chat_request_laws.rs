//! What the translation of a Chat Completions request holds, field by field.

use vstd::prelude::*;

use crate::json::Tree;
use crate::text;
use crate::translate;
use crate::translate::chat;
use crate::translate::chat_message_laws;
use crate::translate::chat_sse_event_laws;
use crate::translate::keys;
use crate::translate::steps::Outcome;

verus! {

/// The document is an integer that fits.
pub open spec fn is_count(v: Option<Tree>) -> bool {
    v matches Some(Tree::Int(n)) && i64::MIN <= n <= i64::MAX
}

/// The token limit: what the first field says, else what the second says, else 4096.
pub open spec fn is_limit(limit: Option<Tree>, first: Option<Tree>, second: Option<Tree>) -> bool {
    if is_count(first) {
        limit == first
    } else if is_count(second) {
        limit == second
    } else {
        limit == Some(Tree::Int(4096))
    }
}

/// The field is taken over as it is, unless it is null.
pub open spec fn is_copied(out: Option<Tree>, src: Option<Tree>) -> bool {
    if src == Some(Tree::Null) {
        out is None
    } else {
        out == src
    }
}

/// How an answer is sampled, streamed and stopped is as the client asked.
pub open spec fn keeps_sampling(body: Tree, src: Tree) -> bool {
    &&& is_copied(body.get("temperature"@), src.get("temperature"@))
    &&& is_copied(body.get("top_p"@), src.get("top_p"@))
    &&& body.get("stream"@) == (match src.get("stream"@) {
        Some(Tree::Bool(b)) => Some(Tree::Bool(b)),
        _ => None,
    })
    &&& match src.get("stop"@) {
        Some(Tree::Str(s)) => body.get("stop_sequences"@) matches Some(Tree::Arr(list)) && list
            =~= seq![Tree::Str(s)],
        Some(Tree::Arr(list)) if list.len() > 0 => body.get("stop_sequences"@) == Some(
            Tree::Arr(list),
        ),
        _ => body.get("stop_sequences"@) is None,
    }
}

pub proof fn lemma_sampling(out: Map<Seq<char>, Tree>, src: Tree)
    requires
        !out.dom().contains("temperature"@),
        !out.dom().contains("top_p"@),
        !out.dom().contains("stream"@),
        !out.dom().contains("stop_sequences"@),
    ensures
        keeps_sampling(Tree::Obj(translate::with_sampling(out, src)), src),
        forall|key: Seq<char>|
            key != "temperature"@ && key != "top_p"@ && key != "stream"@ && key != "stop_sequences"@
                ==> #[trigger] Tree::Obj(translate::with_sampling(out, src)).get(key) == Tree::Obj(
                out,
            ).get(key),
{
    keys::lemma_words();
}

/// The texts are sent as one, with an empty line between each two; none where there is none.
pub open spec fn is_system_prompt(system: Option<Tree>, texts: Seq<Seq<char>>) -> bool {
    if texts.len() == 0 {
        system is None
    } else {
        system == Some(Tree::Str(text::joined(texts, "\n\n"@)))
    }
}

proof fn lemma_body(
    src: Tree,
    model: Seq<char>,
    messages: Seq<Tree>,
    f: chat::Formatted,
)
    ensures
        ({
            let body = chat::assembled(src, model, messages, f);
            &&& body.get("model"@) == Some(Tree::Str(model))
            &&& body.get("messages"@) == Some(Tree::Arr(messages))
            &&& is_limit(
                body.get("max_tokens"@),
                src.get("max_completion_tokens"@),
                src.get("max_tokens"@),
            )
            &&& keeps_sampling(body, src)
            &&& is_system_prompt(body.get("system"@), f.system)
            &&& body.get("tools"@) == (if f.tools.len() > 0 {
                Some(Tree::Arr(f.tools))
            } else {
                None
            })
            &&& body.get("tool_choice"@) == f.choice
        }),
{
    keys::lemma_words();
    let start = map![
        "model"@ => Tree::Str(model),
        "messages"@ => Tree::Arr(messages),
        "max_tokens"@ => Tree::Int(
            translate::max_tokens_of(src.get("max_completion_tokens"@), src.get("max_tokens"@)) as int,
        ),
    ];
    lemma_sampling(start, src);
    let sampled = Tree::Obj(translate::with_sampling(start, src));
    assert(sampled.get("model"@) == Some(Tree::Str(model)));
    assert(sampled.get("messages"@) == Some(Tree::Arr(messages)));
    assert(sampled.get("max_tokens"@) == Tree::Obj(start).get("max_tokens"@));
    assert(sampled.get("system"@) is None);
    assert(sampled.get("tools"@) is None);
    assert(sampled.get("tool_choice"@) is None);
    let body = chat::assembled(src, model, messages, f);
    assert(body.get("temperature"@) == sampled.get("temperature"@));
    assert(body.get("top_p"@) == sampled.get("top_p"@));
    assert(body.get("stream"@) == sampled.get("stream"@));
    assert(body.get("stop_sequences"@) == sampled.get("stop_sequences"@));
}

/// The kind of answer that is asked for.
pub open spec fn format_kind(src: Tree) -> Option<Tree> {
    chat_sse_event_laws::inner(src, "response_format"@, "type"@)
}

/// The translation asks for the same model with the same conversation, under the same limit,
/// sampled and stopped the same way. The instructions are the system prompt, and where a JSON
/// object is asked for, so does the last of them.
pub proof fn law_request_is_kept(src: Tree)
    ensures
        chat::request(src) matches Outcome::Done((body, tool)) ==> {
            &&& src.get("model"@) matches Some(Tree::Str(model))
            &&& body.get("model"@) == Some(Tree::Str(model))
            &&& src.get("messages"@) matches Some(Tree::Arr(messages))
            &&& chat::conversation(messages) matches Outcome::Done(c)
            &&& body.get("messages"@) == Some(Tree::Arr(c.1))
            &&& is_limit(
                body.get("max_tokens"@),
                src.get("max_completion_tokens"@),
                src.get("max_tokens"@),
            )
            &&& keeps_sampling(body, src)
            &&& is_system_prompt(
                body.get("system"@),
                if format_kind(src) == Some(Tree::Str("json_object"@)) {
                    c.0.push(
                        "You must respond with a single valid JSON object and nothing else. Do not wrap it in markdown code fences and do not add any prose."@,
                    )
                } else {
                    c.0
                },
            )
        },
{
    keys::lemma_words();
    assert forall|model: Seq<char>, messages: Seq<Tree>, f: chat::Formatted|
        {
            let body = #[trigger] chat::assembled(src, model, messages, f);
            &&& body.get("model"@) == Some(Tree::Str(model))
            &&& body.get("messages"@) == Some(Tree::Arr(messages))
            &&& is_limit(
                body.get("max_tokens"@),
                src.get("max_completion_tokens"@),
                src.get("max_tokens"@),
            )
            &&& keeps_sampling(body, src)
            &&& is_system_prompt(body.get("system"@), f.system)
        } by {
        lemma_body(src, model, messages, f);
    }
}

/// The entry defines the tool: its name, its description where it has one, and the schema of
/// its parameters, which is that of an object where it has none.
pub open spec fn defines(entry: Tree, tool: Tree) -> bool {
    &&& tool.get("name"@) matches Some(Tree::Str(name))
    &&& entry.get("name"@) == Some(Tree::Str(name))
    &&& entry.get("description"@) == tool.get("description"@)
    &&& match tool.get("parameters"@) {
        Some(schema) => entry.get("input_schema"@) == Some(schema),
        None => chat_sse_event_laws::inner(entry, "input_schema"@, "type"@) == Some(
            Tree::Str("object"@),
        ) && chat_sse_event_laws::inner(entry, "input_schema"@, "properties"@) == Some(
            Tree::Obj(Map::empty()),
        ),
    }
}

pub proof fn lemma_entry(name: Seq<char>, tool: Tree)
    requires
        tool.get("name"@) == Some(Tree::Str(name)),
    ensures
        defines(chat::tool_entry(name, tool), tool),
{
    keys::lemma_words();
}

/// An entry of `tools` that can be translated: it defines a function with a name.
pub open spec fn is_sound_tool(tool: Tree) -> bool {
    chat_sse_event_laws::inner(tool, "function"@, "name"@) matches Some(Tree::Str(_))
}

/// Every tool is defined upstream as the client defined it, in the same order; a list is
/// refused where a tool has no name, and only there.
pub proof fn law_tools_are_defined(tools: Seq<Tree>)
    ensures
        chat::tools_of(Some(Tree::Arr(tools))) is Done <==> forall|k: int|
            0 <= k < tools.len() ==> is_sound_tool(#[trigger] tools[k]),
        chat::tools_of(Some(Tree::Arr(tools))) matches Outcome::Done(out) ==> out.len()
            == tools.len() && forall|k: int|
            0 <= k < tools.len() ==> (tools[k].get("function"@) matches Some(function) && defines(
                #[trigger] out[k],
                function,
            )),
    decreases tools.len(),
{
    keys::lemma_words();
    if tools.len() > 0 {
        let rest = tools.drop_last();
        law_tools_are_defined(rest);
        let tool = tools.last();
        assert(tool == tools[tools.len() - 1]);
        if is_sound_tool(tool) {
            let function = tool.get("function"@)->0;
            lemma_entry(function.get("name"@)->0->Str_0, function);
        }
        if forall|k: int| 0 <= k < tools.len() ==> is_sound_tool(#[trigger] tools[k]) {
            assert forall|k: int| 0 <= k < rest.len() implies is_sound_tool(#[trigger] rest[k]) by {
                assert(rest[k] == tools[k]);
            }
            assert(is_sound_tool(tools[tools.len() - 1]));
        }
        if let Outcome::Done(out) = chat::tools_of(Some(Tree::Arr(tools))) {
            assert forall|k: int| 0 <= k < tools.len() implies is_sound_tool(#[trigger] tools[k]) by {
                if k < rest.len() {
                    assert(rest[k] == tools[k]);
                }
            }
            assert forall|k: int| 0 <= k < tools.len() implies (tools[k].get(
                "function"@,
            ) matches Some(function) && defines(#[trigger] out[k], function)) by {
                if k < rest.len() {
                    assert(rest[k] == tools[k]);
                    assert(out[k] == out.drop_last()[k]);
                }
            }
        }
    }
}

/// The choice is of this kind, and of this tool where it forces one.
pub open spec fn chooses(choice: Tree, kind: Seq<char>, name: Option<Seq<char>>) -> bool {
    choice.get("type"@) == Some(Tree::Str(kind)) && choice.get("name"@) == (match name {
        Some(name) => Some(Tree::Str(name)),
        None => None,
    })
}

/// A choice of tools means the same upstream: free, none, one at least, or this one; `name`
/// is the name that an object gives.
pub open spec fn is_choice(out: Outcome<Option<Tree>>, choice: Option<Tree>, name: Option<Seq<char>>) -> bool {
    match choice {
        None => out == Outcome::Done(None::<Tree>),
        Some(Tree::Null) => out == Outcome::Done(None::<Tree>),
        Some(Tree::Str(s)) => {
            &&& s == "auto"@ ==> (out matches Outcome::Done(Some(c)) && chooses(c, "auto"@, None))
            &&& s == "none"@ ==> (out matches Outcome::Done(Some(c)) && chooses(c, "none"@, None))
            &&& s == "required"@ ==> (out matches Outcome::Done(Some(c)) && chooses(c, "any"@, None))
            &&& s != "auto"@ && s != "none"@ && s != "required"@ ==> out is Refused
        },
        Some(Tree::Obj(_)) => match name {
            Some(name) => out matches Outcome::Done(Some(c)) && chooses(c, "tool"@, Some(name)),
            None => out is Refused,
        },
        Some(_) => out is Refused,
    }
}

/// The choice of tools means the same upstream.
pub proof fn law_tool_choice_is_kept(choice: Option<Tree>)
    ensures
        is_choice(
            chat::chat_choice(choice),
            choice,
            match choice {
                Some(c) => match chat_sse_event_laws::inner(c, "function"@, "name"@) {
                    Some(Tree::Str(name)) => Some(name),
                    _ => None,
                },
                None => None,
            },
        ),
{
    keys::lemma_words();
}

/// The request goes with the tools and the choice that the client gave, unless a JSON schema
/// is asked for.
pub proof fn law_tools_go_with_the_request(src: Tree)
    requires
        format_kind(src) != Some(Tree::Str("json_schema"@)),
    ensures
        chat::request(src) matches Outcome::Done((body, tool)) ==> {
            &&& tool is None
            &&& chat::tools_of(src.get("tools"@)) matches Outcome::Done(tools)
            &&& body.get("tools"@) == (if tools.len() > 0 {
                Some(Tree::Arr(tools))
            } else {
                None
            })
            &&& chat::chat_choice(src.get("tool_choice"@)) == Outcome::Done(
                body.get("tool_choice"@),
            )
        },
{
    keys::lemma_words();
    assert forall|model: Seq<char>, messages: Seq<Tree>, f: chat::Formatted|
        {
            let body = #[trigger] chat::assembled(src, model, messages, f);
            &&& body.get("tools"@) == (if f.tools.len() > 0 {
                Some(Tree::Arr(f.tools))
            } else {
                None
            })
            &&& body.get("tool_choice"@) == f.choice
        } by {
        lemma_body(src, model, messages, f);
    }
}

/// Where an answer by a JSON schema is asked for, the only tool is one of that schema under
/// that name, the model is made to use it, and the translation remembers its name.
pub proof fn law_schema_is_a_tool(src: Tree)
    requires
        format_kind(src) == Some(Tree::Str("json_schema"@)),
    ensures
        chat::request(src) matches Outcome::Done((body, tool)) ==> {
            &&& chat_sse_event_laws::inner(src, "response_format"@, "json_schema"@) matches Some(wanted)
            &&& tool == Some(chat_message_laws::text_or(wanted, "name"@, "structured_output"@))
            &&& body.get("tool_choice"@) matches Some(choice)
            &&& chooses(choice, "tool"@, tool)
            &&& body.get("tools"@) matches Some(Tree::Arr(tools))
            &&& tools.len() == 1
            &&& tools[0].get("name"@) == Some(Tree::Str(tool->0))
            &&& match wanted.get("schema"@) {
                Some(schema) => tools[0].get("input_schema"@) == Some(schema),
                None => chat_sse_event_laws::inner(tools[0], "input_schema"@, "type"@) == Some(
                    Tree::Str("object"@),
                ),
            }
        },
{
    keys::lemma_words();
    assert forall|model: Seq<char>, messages: Seq<Tree>, f: chat::Formatted|
        {
            let body = #[trigger] chat::assembled(src, model, messages, f);
            &&& body.get("tools"@) == (if f.tools.len() > 0 {
                Some(Tree::Arr(f.tools))
            } else {
                None
            })
            &&& body.get("tool_choice"@) == f.choice
        } by {
        lemma_body(src, model, messages, f);
    }
}

/// The request asks for log probabilities.
pub open spec fn wants_log_probabilities(v: Option<Tree>) -> bool {
    v == Some(Tree::Bool(true)) || v matches Some(Tree::Int(_)) || v matches Some(Tree::Float(_))
}

/// The tools of a request can be translated.
pub open spec fn are_sound_tools(tools: Option<Tree>) -> bool {
    tools matches Some(Tree::Arr(list)) ==> forall|k: int|
        0 <= k < list.len() ==> is_sound_tool(#[trigger] list[k])
}

/// The choice of tools of a request can be translated.
pub open spec fn is_sound_choice(choice: Option<Tree>) -> bool {
    match choice {
        None => true,
        Some(Tree::Null) => true,
        Some(Tree::Str(s)) => s == "auto"@ || s == "none"@ || s == "required"@,
        Some(Tree::Obj(m)) => chat_sse_event_laws::inner(
            Tree::Obj(m),
            "function"@,
            "name"@,
        ) matches Some(Tree::Str(_)),
        Some(_) => false,
    }
}

/// The kind of answer that a request asks for can be had.
pub open spec fn is_sound_format(src: Tree) -> bool {
    match format_kind(src) {
        Some(Tree::Str(kind)) => kind == "text"@ || kind == "json_object"@ || (kind
            == "json_schema"@ && chat_sse_event_laws::inner(
            src,
            "response_format"@,
            "json_schema"@,
        ) is Some && !(src.get("tools"@) matches Some(Tree::Arr(list)) && list.len() > 0)),
        _ => true,
    }
}

/// A request that can be translated.
pub open spec fn is_sound_request(src: Tree) -> bool {
    &&& src.get("model"@) matches Some(Tree::Str(_))
    &&& is_count(src.get("n"@)) ==> src.get("n"@) == Some(Tree::Int(1))
    &&& !wants_log_probabilities(src.get("logprobs"@))
    &&& !wants_log_probabilities(src.get("top_logprobs"@))
    &&& src.get("messages"@) matches Some(Tree::Arr(messages))
    &&& forall|k: int|
        0 <= k < messages.len() ==> chat_message_laws::is_sound_message(#[trigger] messages[k])
    &&& are_sound_tools(src.get("tools"@))
    &&& is_sound_choice(src.get("tool_choice"@))
    &&& is_sound_format(src)
}

/// A request is refused where it cannot be translated, and only there.
pub proof fn law_sound_requests_are_accepted(src: Tree)
    ensures
        chat::request(src) is Done <==> is_sound_request(src),
{
    keys::lemma_words();
    if let Some(Tree::Arr(messages)) = src.get("messages"@) {
        chat_message_laws::law_sound_messages_are_accepted(messages);
    }
    if let Some(Tree::Arr(tools)) = src.get("tools"@) {
        law_tools_are_defined(tools);
    }
    law_tool_choice_is_kept(src.get("tool_choice"@));
}

} // verus!
