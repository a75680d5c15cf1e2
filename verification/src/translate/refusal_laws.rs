//! What a client is told of a request that cannot be translated.

use vstd::prelude::*;

use crate::json;
use crate::json::Tree;
use crate::text;
use crate::translate::chat;
use crate::translate::chat_sse_event_laws as events;
use crate::translate::keys;
use crate::translate::responses;
use crate::translate::steps;
use crate::translate::steps::Outcome;

verus! {

/// The request says which model it is for.
pub open spec fn names_model(src: Tree) -> bool {
    src.get("model"@) matches Some(Tree::Str(_))
}

/// More than one completion is asked for, or none.
pub open spec fn asks_for_several(src: Tree) -> bool {
    src.get("n"@) matches Some(Tree::Int(n)) && i64::MIN <= n <= i64::MAX && n != 1
}

/// Log probabilities are asked for under this name: by `true`, or by a number of them.
pub open spec fn asks_for_probabilities(src: Tree, name: Seq<char>) -> bool {
    src.get(name) == Some(Tree::Bool(true)) || (src.get(name) matches Some(Tree::Int(_)))
        || (src.get(name) matches Some(Tree::Float(_)))
}

/// A Chat Completions request is first refused for want of a model, then for what cannot be
/// had, in the order of their names, then for want of messages; the refusal names the field.
pub proof fn law_chat_refusals_name_the_field(src: Tree)
    ensures
        !names_model(src) ==> chat::request(src) == Outcome::<(Tree, Option<Seq<char>>)>::Refused(
            "Missing required field: model"@,
        ),
        names_model(src) && asks_for_several(src) ==> chat::request(src) == Outcome::<
            (Tree, Option<Seq<char>>),
        >::Refused(
            "Unsupported parameter: n = "@ + text::signed_decimal(src.get("n"@)->0->Int_0)
                + ". Anthropic Messages returns a single completion; only n = 1 can be honoured."@,
        ),
        names_model(src) && !asks_for_several(src) && asks_for_probabilities(src, "logprobs"@)
            ==> chat::request(src) == Outcome::<(Tree, Option<Seq<char>>)>::Refused(
            "Unsupported parameter: "@ + "logprobs"@
                + ". Anthropic Messages does not return token log probabilities."@,
        ),
        names_model(src) && !asks_for_several(src) && !asks_for_probabilities(src, "logprobs"@)
            && asks_for_probabilities(src, "top_logprobs"@) ==> chat::request(src) == Outcome::<
            (Tree, Option<Seq<char>>),
        >::Refused(
            "Unsupported parameter: "@ + "top_logprobs"@
                + ". Anthropic Messages does not return token log probabilities."@,
        ),
        names_model(src) && !asks_for_several(src) && !asks_for_probabilities(src, "logprobs"@)
            && !asks_for_probabilities(src, "top_logprobs"@) && !(src.get("messages"@) matches Some(
            Tree::Arr(_),
        )) ==> chat::request(src) == Outcome::<(Tree, Option<Seq<char>>)>::Refused(
            "Missing required field: messages"@,
        ),
{
}

/// A refusal of a message says which message it is, by its place.
pub open spec fn refuses_at<S>(out: Outcome<S>, i: int, why: Seq<char>) -> bool {
    out matches Outcome::Refused(m) && m == "messages["@ + text::decimal(i as nat) + why
}

/// Content that is no text and no list, a part of an unknown type, a picture without an
/// address, one without its data, and a result that answers no call: each is refused with the
/// place of its message, and for its own reason.
pub proof fn law_message_refusals_name_the_message(part: Tree, msg: Tree, content: Tree, i: int)
    ensures
        ({
            let out = chat::blocks_of(Some(Tree::Arr(seq![part])), i);
            let kind = json::str_or(part, "type"@, "text"@);
            let url = events::inner(part, "image_url"@, "url"@);
            &&& kind != "text"@ && kind != "image_url"@ ==> refuses_at(
                out,
                i,
                "]: unsupported content part type '"@ + kind + "'"@,
            )
            &&& kind == "image_url"@ && !(url matches Some(Tree::Str(_))) ==> refuses_at(
                out,
                i,
                "]: image_url part missing image_url.url"@,
            )
            &&& kind == "image_url"@ && (url matches Some(Tree::Str(s)) && "data:"@.is_prefix_of(s)
                && text::find(s.skip("data:"@.len() as int), ";base64,"@) is None) ==> refuses_at(
                out,
                i,
                "]: image_url is a data URL but has no ';base64,' separator"@,
            )
        }),
        !(content is Null) && !(content is Str) && !(content is Arr) ==> refuses_at(
            chat::blocks_of(Some(content), i),
            i,
            "]: content must be a string or an array, got "@ + json::json_text(content),
        ),
        !(msg.get("tool_call_id"@) matches Some(Tree::Str(_))) && !(msg.get("name"@) matches Some(
            Tree::Str(_),
        )) ==> refuses_at(
            chat::result_block(msg, i),
            i,
            "]: tool result message missing tool_call_id"@,
        ),
{
    keys::lemma_words();
    reveal_with_fuel(steps::run, 2);
    assert(seq![part].drop_last() =~= Seq::empty());
}

/// A tool without a function or a name, and a choice or a format that is not known, are each
/// refused for their own reason.
pub proof fn law_tool_refusals_say_why(tool: Tree, choice: Tree)
    ensures
        ({
            let out = chat::tools_of(Some(Tree::Arr(seq![tool])));
            &&& tool.get("function"@) is None ==> out == Outcome::<Seq<Tree>>::Refused(
                "tools[]: entry missing 'function'"@,
            )
            &&& tool.get("function"@) is Some && !(events::inner(tool, "function"@, "name"@) matches
                Some(Tree::Str(_))) ==> out == Outcome::<Seq<Tree>>::Refused(
                "tools[].function: missing name"@,
            )
        }),
        tool.get("type"@) == Some(Tree::Str("function"@)) && !(tool.get("name"@) matches Some(
            Tree::Str(_),
        )) ==> responses::tools_of(Some(Tree::Arr(seq![tool]))) == Outcome::<Seq<Tree>>::Refused(
            "tools[]: function tool missing name"@,
        ),
        choice matches Tree::Str(s) ==> (s != "auto"@ && s != "none"@ && s != "required"@ ==> {
            let refused = Outcome::<Option<Tree>>::Refused(
                "tool_choice: unsupported value '"@ + s + "'"@,
            );
            chat::chat_choice(Some(choice)) == refused && responses::responses_choice(Some(choice))
                == refused
        }),
        !(choice is Str) && !(choice is Obj) && !(choice is Null) ==> {
            let refused = Outcome::<Option<Tree>>::Refused(
                "tool_choice: unsupported value "@ + json::json_text(choice),
            );
            chat::chat_choice(Some(choice)) == refused && responses::responses_choice(Some(choice))
                == refused
        },
        choice is Obj && !(choice.get("name"@) matches Some(Tree::Str(_)))
            ==> responses::responses_choice(Some(choice)) == Outcome::<Option<Tree>>::Refused(
            "tool_choice: object form must be {\"type\":\"function\",\"name\":...}"@,
        ),
        choice is Obj && !(events::inner(choice, "function"@, "name"@) matches Some(Tree::Str(_)))
            ==> chat::chat_choice(Some(choice)) == Outcome::<Option<Tree>>::Refused(
            "tool_choice: object form must be {\"type\":\"function\",\"function\":{\"name\":...}}"@,
        ),
{
    keys::lemma_words();
    reveal_with_fuel(steps::run, 2);
    assert(seq![tool].drop_last() =~= Seq::empty());
}

/// A response format that is not known is refused by its name; one that wants a schema, where
/// it has none, and beside tools of the client's own.
pub proof fn law_format_refusals_say_why(
    format: Tree,
    tools: Seq<Tree>,
    choice: Option<Tree>,
    system: Seq<Seq<char>>,
)
    ensures
        ({
            let out = chat::formatted(Some(format), tools, choice, system);
            &&& format.get("type"@) matches Some(Tree::Str(kind)) ==> (kind != "text"@ && kind
                != "json_object"@ && kind != "json_schema"@ ==> out == Outcome::<
                chat::Formatted,
            >::Refused("response_format: unsupported type '"@ + kind + "'"@))
            &&& format.get("type"@) == Some(Tree::Str("json_schema"@)) && tools.len() == 0
                && format.get("json_schema"@) is None ==> out == Outcome::<
                chat::Formatted,
            >::Refused("response_format: missing json_schema"@)
            &&& format.get("type"@) == Some(Tree::Str("json_schema"@)) && tools.len() > 0 ==> out
                == Outcome::<chat::Formatted>::Refused(
                "response_format: 'json_schema' cannot be combined with the request's own 'tools' — the relay cannot tell the resulting tool call apart from a real one"@,
            )
        }),
{
    keys::lemma_words();
}

/// A Responses request is first refused for state that it wants kept or that it refers to,
/// then for want of a model; the refusal names the field. An input that is no text and no list
/// is refused as it is.
pub proof fn law_responses_refusals_name_the_field(src: Tree, input: Tree)
    ensures
        ({
            let stores = src.get("store"@) == Some(Tree::Bool(true));
            let chains = src.get("previous_response_id"@) is Some
                && src.get("previous_response_id"@) != Some(Tree::Null);
            let out = responses::request(src);
            &&& stores ==> out == Outcome::<Tree>::Refused(
                "Unsupported parameter: store = true. This relay does not persist response state."@,
            )
            &&& !stores && chains ==> out == Outcome::<Tree>::Refused(
                "Unsupported parameter: previous_response_id. This relay does not persist responses, so conversation chaining is not available; send the full conversation in 'input' instead."@,
            )
            &&& !stores && !chains && !names_model(src) ==> out == Outcome::<Tree>::Refused(
                "Missing required field: model"@,
            )
        }),
        !(input is Null) && !(input is Str) && !(input is Arr) ==> responses::input_of(
            Some(input),
            Seq::empty(),
        ) == Outcome::<(Seq<Seq<char>>, Seq<Tree>)>::Refused(
            "input: must be a string or an array, got "@ + json::json_text(input),
        ),
{
}

/// An item of an unknown type, behind items that can be translated, is refused with its place
/// and its type.
pub proof fn law_item_refusals_name_the_item(
    items: Seq<Tree>,
    item: Tree,
    system: Seq<Seq<char>>,
)
    requires
        responses::input_of(Some(Tree::Arr(items)), system) is Done,
        item.get("type"@) matches Some(Tree::Str(kind)) && kind != "message"@ && kind
            != "function_call"@ && kind != "function_call_output"@,
    ensures
        responses::input_of(Some(Tree::Arr(items.push(item))), system) == Outcome::<
            (Seq<Seq<char>>, Seq<Tree>),
        >::Refused(
            "input["@ + text::decimal(items.len()) + ("]: unsupported item type '"@ + item.get(
                "type"@,
            )->0->Str_0 + "'"@),
        ),
{
    assert(items.push(item).drop_last() =~= items);
    assert(items.push(item).last() == item);
}

/// A message whose content is refused, behind messages that can be translated, refuses the
/// conversation for the same reason, and at its own place.
pub proof fn law_message_refusals_refuse_the_conversation(messages: Seq<Tree>, msg: Tree)
    requires
        chat::conversation(messages) is Done,
        msg.get("role"@) == Some(Tree::Str("user"@)) || msg.get("role"@) == Some(
            Tree::Str("assistant"@),
        ),
        chat::blocks_of(msg.get("content"@), messages.len() as int) is Refused,
    ensures
        chat::conversation(messages.push(msg)) is Refused,
        chat::conversation(messages.push(msg))->Refused_0 == chat::blocks_of(
            msg.get("content"@),
            messages.len() as int,
        )->Refused_0,
{
    keys::lemma_words();
    assert(messages.push(msg).drop_last() =~= messages);
    assert(messages.push(msg).last() == msg);
}

} // verus!
