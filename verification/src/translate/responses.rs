//! OpenAI Responses API to and from Anthropic Messages.

use vstd::prelude::*;
use vstd::string::*;

use crate::ids;
use crate::ids::random_ids;
use crate::json;
use crate::json::{opt_int, opt_int_or_zero, Json, Object, Tree};
use crate::text;
use crate::text::{
    concat2, concat3, join, nat_text, split_once, str_eq, strip_prefix, to_ascii_lowercase, trim,
};
use crate::translate;
use crate::translate::chat;
use crate::translate::chat::{
    convert_choice, flush_tool_results, make_message, make_text_block, make_tool_entry, no_blocks,
    Conversation,
};
use crate::translate::steps;
use crate::translate::steps::Outcome;
use crate::translate::{
    apply_common_sampling, resolve_max_tokens, tool_arguments_from_input, tool_input_from_arguments,
    TranslateError, DEFAULT_MAX_TOKENS,
};

verus! {

/// Anthropic's floor for `thinking.budget_tokens`. A budget below this is
/// refused upstream, so a request that resolves lower gets no thinking block.
pub const MIN_THINKING_BUDGET: i64 = 1024;

/// The thinking budget of a `reasoning.effort`, where it is one that is known.
pub open spec fn budget_of(effort: Seq<char>) -> Option<i64> {
    let level = text::ascii_lower(text::trimmed(effort));
    if level == "minimal"@ || level == "low"@ {
        Some(2048)
    } else if level == "medium"@ {
        Some(8192)
    } else if level == "high"@ {
        Some(16384)
    } else if level == "xhigh"@ || level == "max"@ {
        Some(24576)
    } else {
        None
    }
}

/// Maps a Responses `reasoning.effort` to an Anthropic thinking budget.
///
/// `None` means the effort value is not a known one; the caller then omits
/// `thinking` entirely rather than guessing a budget, which would silently
/// suppress `temperature` and `top_p`.
pub fn effort_to_budget(effort: &str) -> (r: Option<i64>)
    ensures
        r == budget_of(effort@),
{
    let lowered = to_ascii_lowercase(trim(effort));
    let level = lowered.as_str();
    if str_eq(level, "minimal") || str_eq(level, "low") {
        Some(2048)
    } else if str_eq(level, "medium") {
        Some(8192)
    } else if str_eq(level, "high") {
        Some(16384)
    } else if str_eq(level, "xhigh") || str_eq(level, "max") {
        Some(24576)
    } else {
        None
    }
}

/// The message with which a request is refused that asks for stored state.
pub open spec fn unsupported(src: Tree) -> Option<Seq<char>> {
    if src.get("store"@) == Some(Tree::Bool(true)) {
        Some(
            "Unsupported parameter: store = true. This relay does not persist response state."@,
        )
    } else {
        match src.get("previous_response_id"@) {
            None => None,
            Some(Tree::Null) => None,
            Some(_) => Some(
                "Unsupported parameter: previous_response_id. This relay does not persist responses, so conversation chaining is not available; send the full conversation in 'input' instead."@,
            ),
        }
    }
}

/// Refuses Responses features the relay cannot honour.
pub fn reject_unsupported(src: &Json) -> (r: Result<(), TranslateError>)
    ensures
        match (r, unsupported(src@)) {
            (Ok(_), None) => true,
            (Err(e), Some(m)) => e.refuses_with(m),
            _ => false,
        },
{
    if let Some(v) = src.get("store") {
        if let Some(true) = v.as_bool() {
            return Err(
                TranslateError::invalid_request(
                    "Unsupported parameter: store = true. This relay does not persist response state.".to_owned(),
                ),
            );
        }
    }
    if let Some(v) = src.get("previous_response_id") {
        if !v.is_null() {
            return Err(
                TranslateError::invalid_request(
                    "Unsupported parameter: previous_response_id. This relay does not persist responses, so conversation chaining is not available; send the full conversation in 'input' instead.".to_owned(),
                ),
            );
        }
    }
    Ok(())
}

/// The image block of an image URL. A `data:` URL without a `;base64,` separator is
/// taken for a fetchable one.
pub open spec fn image_block(url: Seq<char>) -> Tree {
    let rest = url.skip("data:"@.len() as int);
    let source = if "data:"@.is_prefix_of(url) && text::find(rest, ";base64,"@) is Some {
        let at = text::find(rest, ";base64,"@)->0;
        map![
            "type"@ => Tree::Str("base64"@),
            "media_type"@ => Tree::Str(rest.take(at)),
            "data"@ => Tree::Str(rest.skip(at + ";base64,"@.len())),
        ]
    } else {
        map!["type"@ => Tree::Str("url"@), "url"@ => Tree::Str(url)]
    };
    Tree::Obj(map!["type"@ => Tree::Str("image"@), "source"@ => Tree::Obj(source)])
}

fn make_image_block(url: &str) -> (r: Json)
    ensures
        r@ == image_block(url@),
{
    let parts = match strip_prefix(url, "data:") {
        Some(rest) => {
            assert("data:"@.is_prefix_of(url@));
            assert(url@.skip("data:"@.len() as int) =~= rest@);
            split_once(rest, ";base64,")
        },
        None => None,
    };
    let source = match parts {
        Some((media_type, data)) => Object::new().with("type", Json::text("base64")).with(
            "media_type",
            Json::text(media_type),
        ).with("data", Json::text(data)),
        None => Object::new().with("type", Json::text("url")).with("url", Json::text(url)),
    };
    Json::Object(
        Object::new().with("type", Json::text("image")).with("source", Json::Object(source)),
    )
}

/// The note that stands for an image that is given by a file alone.
pub open spec fn file_note(id: Seq<char>) -> Seq<char> {
    "[image file '"@ + id + "' cannot be resolved by this relay]"@
}

/// The block that one content part of an item adds, if any.
pub open spec fn part_step() -> spec_fn(Seq<Tree>, Tree) -> Seq<Tree> {
    |blocks: Seq<Tree>, part: Tree|
        {
            let kind = json::str_in(part.get("type"@));
            if kind == Some("input_text"@) || kind == Some("output_text"@) {
                match json::str_in(part.get("text"@)) {
                    Some(s) => if s.len() > 0 {
                        blocks.push(chat::text_block(s))
                    } else {
                        blocks
                    },
                    None => blocks,
                }
            } else if kind == Some("input_image"@) {
                match (json::str_in(part.get("image_url"@)), json::str_in(part.get("file_id"@))) {
                    (Some(url), _) => blocks.push(image_block(url)),
                    (None, Some(id)) => blocks.push(chat::text_block(file_note(id))),
                    (None, None) => blocks,
                }
            } else {
                blocks
            }
        }
}

/// Translates one `input` item's content parts into Anthropic content blocks.
///
/// `input_text` and `output_text` parts become text blocks; `input_image` becomes
/// an image block, by `image_url` when present or a placeholder note when only
/// `file_id` is given (the relay has no file store to resolve it against).
pub fn message_content_blocks(parts: &Vec<Json>) -> (r: Vec<Json>)
    ensures
        json::values_view(r@) == steps::gather(
            json::values_view(parts@),
            Seq::empty(),
            part_step(),
        ),
{
    let mut blocks: Vec<Json> = no_blocks();
    let ghost items = json::values_view(parts@);
    for i in 0..parts.len()
        invariant
            items == json::values_view(parts@),
            json::values_view(blocks@) == steps::gather(
                items.take(i as int),
                Seq::empty(),
                part_step(),
            ),
    {
        proof {
            steps::lemma_gather_step(items, Seq::empty(), part_step(), i as int);
        }
        let part = &parts[i];
        let ghost before = blocks@;
        if part.has_type("input_text") || part.has_type("output_text") {
            if let Some(s) = part.get_str("text") {
                if !s.is_empty() {
                    blocks.push(make_text_block(s));
                    assert(json::values_view(blocks@) =~= json::values_view(before).push(
                        chat::text_block(s@),
                    ));
                }
            }
        } else if part.has_type("input_image") {
            if let Some(url) = part.get_str("image_url") {
                blocks.push(make_image_block(url));
                assert(json::values_view(blocks@) =~= json::values_view(before).push(
                    image_block(url@),
                ));
            } else if let Some(id) = part.get_str("file_id") {
                let note = concat3("[image file '", id, "' cannot be resolved by this relay]");
                blocks.push(make_text_block(note.as_str()));
                assert(json::values_view(blocks@) =~= json::values_view(before).push(
                    chat::text_block(file_note(id@)),
                ));
            }
        }
    }
    assert(items.take(items.len() as int) =~= items);
    blocks
}

/// A user message with one text.
pub open spec fn user_text(s: Seq<char>) -> Tree {
    chat::message("user"@, seq![chat::text_block(s)])
}

fn make_user_text(s: &str) -> (r: Json)
    ensures
        r@ == user_text(s@),
{
    let mut blocks: Vec<Json> = Vec::new();
    blocks.push(make_text_block(s));
    assert(json::values_view(blocks@) =~= seq![chat::text_block(s@)]);
    make_message("user", blocks)
}

/// The system text that one part adds, if any.
pub open spec fn system_step() -> spec_fn(Seq<Seq<char>>, Tree) -> Seq<Seq<char>> {
    |system: Seq<Seq<char>>, part: Tree|
        match json::str_in(part.get("text"@)) {
            Some(s) => if s.len() > 0 {
                system.push(s)
            } else {
                system
            },
            None => system,
        }
}

/// The system texts after a `system` or `developer` item.
pub open spec fn with_system(system: Seq<Seq<char>>, item: Tree) -> Seq<Seq<char>> {
    match item.get("content"@) {
        Some(Tree::Arr(parts)) => steps::gather(parts, system, system_step()),
        Some(Tree::Str(s)) => if s.len() > 0 {
            system.push(s)
        } else {
            system
        },
        _ => system,
    }
}

/// The blocks of a message item.
pub open spec fn item_blocks(item: Tree) -> Seq<Tree> {
    match item.get("content"@) {
        Some(Tree::Arr(parts)) => steps::gather(parts, Seq::empty(), part_step()),
        Some(Tree::Str(s)) => if s.len() > 0 {
            seq![chat::text_block(s)]
        } else {
            Seq::empty()
        },
        _ => Seq::empty(),
    }
}

/// The assistant message of a stored function call.
pub open spec fn call_message(item: Tree) -> Tree {
    chat::message(
        "assistant"@,
        seq![
            Tree::Obj(
                map![
                    "type"@ => Tree::Str("tool_use"@),
                    "id"@ => Tree::Str(json::str_or(item, "call_id"@, ""@)),
                    "name"@ => Tree::Str(json::str_or(item, "name"@, ""@)),
                    "input"@ => translate::input_of_arguments(item.get("arguments"@)),
                ],
            ),
        ],
    )
}

/// The `tool_result` block of a function call's output.
pub open spec fn output_block(item: Tree) -> Tree {
    Tree::Obj(
        map![
            "type"@ => Tree::Str("tool_result"@),
            "tool_use_id"@ => Tree::Str(json::str_or(item, "call_id"@, ""@)),
            "content"@ => match item.get("output"@) {
                Some(output) => output,
                None => Tree::Str(""@),
            },
        ],
    )
}

/// The conversation with one more message.
pub open spec fn with_message(c: Conversation, message: Tree) -> Conversation {
    let c = c.flushed();
    Conversation { system: c.system, out: c.out.push(message), pending: c.pending }
}

/// One item of `input`.
pub open spec fn item_step() -> spec_fn(Conversation, int, Tree) -> Outcome<Conversation> {
    |c: Conversation, i: int, item: Tree|
        match item {
            Tree::Str(s) => Outcome::Done(with_message(c, user_text(s))),
            _ => {
                let kind = json::str_in(item.get("type"@));
                let role = json::str_or(item, "role"@, "user"@);
                if kind == Some("function_call"@) {
                    Outcome::Done(with_message(c, call_message(item)))
                } else if kind == Some("function_call_output"@) {
                    Outcome::Done(
                        Conversation {
                            system: c.system,
                            out: c.out,
                            pending: c.pending.push(output_block(item)),
                        },
                    )
                } else if kind == Some("message"@) || kind is None {
                    if role == "system"@ || role == "developer"@ {
                        Outcome::Done(
                            Conversation {
                                system: with_system(c.system, item),
                                out: c.out,
                                pending: c.pending,
                            },
                        )
                    } else {
                        Outcome::Done(
                            with_message(
                                c,
                                chat::message(
                                    if role == "assistant"@ {
                                        "assistant"@
                                    } else {
                                        "user"@
                                    },
                                    item_blocks(item),
                                ),
                            ),
                        )
                    }
                } else {
                    Outcome::Refused(
                        "input["@ + text::decimal(i as nat) + ("]: unsupported item type '"@
                            + kind->0 + "'"@),
                    )
                }
            },
        }
}

/// The system texts and the messages of an `input`, the system texts after those that
/// are there already.
pub open spec fn input_of(input: Option<Tree>, system: Seq<Seq<char>>) -> Outcome<
    (Seq<Seq<char>>, Seq<Tree>),
> {
    match input {
        None => Outcome::Done((system, Seq::empty())),
        Some(Tree::Null) => Outcome::Done((system, Seq::empty())),
        Some(Tree::Str(s)) => if s.len() == 0 {
            Outcome::Done((system, Seq::empty()))
        } else {
            Outcome::Done((system, seq![user_text(s)]))
        },
        Some(Tree::Arr(items)) => match steps::run(
            items,
            Conversation { system, out: Seq::empty(), pending: Seq::empty() },
            item_step(),
        ) {
            Outcome::Done(c) => Outcome::Done((c.system, c.flushed().out)),
            Outcome::Refused(m) => Outcome::Refused(m),
        },
        Some(other) => Outcome::Refused(
            "input: must be a string or an array, got "@ + json::json_text(other),
        ),
    }
}

fn push_system_texts(item: &Json, system: &mut Vec<String>)
    ensures
        text::texts(final(system)@) == with_system(text::texts(old(system)@), item@),
{
    match item.get("content") {
        Some(Json::Array(parts)) => {
            let ghost start = text::texts(system@);
            let ghost items = json::values_view(parts@);
            for i in 0..parts.len()
                invariant
                    items == json::values_view(parts@),
                    start == text::texts(old(system)@),
                    text::texts(system@) == steps::gather(
                        items.take(i as int),
                        start,
                        system_step(),
                    ),
            {
                proof {
                    steps::lemma_gather_step(items, start, system_step(), i as int);
                }
                if let Some(s) = parts[i].get_str("text") {
                    if !s.is_empty() {
                        let ghost before = system@;
                        system.push(s.to_owned());
                        assert(text::texts(system@) =~= text::texts(before).push(s@));
                    }
                }
            }
            assert(items.take(items.len() as int) =~= items);
        },
        Some(Json::String(s)) => {
            if !s.as_str().is_empty() {
                let ghost before = system@;
                system.push(s.clone());
                assert(text::texts(system@) =~= text::texts(before).push(s@));
            }
        },
        _ => {},
    }
}

fn make_item_blocks(item: &Json) -> (r: Vec<Json>)
    ensures
        json::values_view(r@) == item_blocks(item@),
{
    match item.get("content") {
        Some(Json::Array(parts)) => message_content_blocks(parts),
        Some(Json::String(s)) => {
            let mut blocks = no_blocks();
            if !s.as_str().is_empty() {
                blocks.push(make_text_block(s.as_str()));
                assert(json::values_view(blocks@) =~= seq![chat::text_block(s@)]);
            }
            blocks
        },
        _ => no_blocks(),
    }
}

fn make_call_message(item: &Json) -> (r: Json)
    ensures
        r@ == call_message(item@),
{
    let block = Json::Object(
        Object::new().with("type", Json::text("tool_use")).with(
            "id",
            Json::text(item.str_or("call_id", "")),
        ).with("name", Json::text(item.str_or("name", ""))).with(
            "input",
            tool_input_from_arguments(item.get("arguments")),
        ),
    );
    let mut blocks: Vec<Json> = Vec::new();
    blocks.push(block);
    assert(json::values_view(blocks@) =~= seq![block@]);
    make_message("assistant", blocks)
}

fn make_output_block(item: &Json) -> (r: Json)
    ensures
        r@ == output_block(item@),
{
    let content = match item.get("output") {
        Some(output) => output.clone(),
        None => Json::text(""),
    };
    Json::Object(
        Object::new().with("type", Json::text("tool_result")).with(
            "tool_use_id",
            Json::text(item.str_or("call_id", "")),
        ).with("content", content),
    )
}

fn push_message(message: Json, out: &mut Vec<Json>, pending: &mut Vec<Json>)
    ensures
        ({
            let c = with_message(
                Conversation {
                    system: Seq::empty(),
                    out: json::values_view(old(out)@),
                    pending: json::values_view(old(pending)@),
                },
                message@,
            );
            json::values_view(final(out)@) == c.out && json::values_view(final(pending)@)
                == c.pending
        }),
{
    flush_tool_results(out, pending);
    let ghost before = out@;
    out.push(message);
    assert(json::values_view(out@) =~= json::values_view(before).push(message@));
}

/// Translates one item of a Responses `input` array.
fn convert_input_item(
    item: &Json,
    i: usize,
    system: &mut Vec<String>,
    out: &mut Vec<Json>,
    pending: &mut Vec<Json>,
) -> (r: Result<(), TranslateError>)
    ensures
        match (
            r,
            item_step()(
                Conversation {
                    system: text::texts(old(system)@),
                    out: json::values_view(old(out)@),
                    pending: json::values_view(old(pending)@),
                },
                i as int,
                item@,
            ),
        ) {
            (Ok(_), Outcome::Done(c)) => {
                &&& text::texts(final(system)@) == c.system
                &&& json::values_view(final(out)@) == c.out
                &&& json::values_view(final(pending)@) == c.pending
            },
            (Err(e), Outcome::Refused(m)) => e.refuses_with(m),
            _ => false,
        },
{
    proof {
        lemma_kinds();
    }
    if let Json::String(s) = item {
        push_message(make_user_text(s.as_str()), out, pending);
        return Ok(());
    }
    if let Some(kind) = item.get_str("type") {
        if str_eq(kind, "function_call") {
            push_message(make_call_message(item), out, pending);
            return Ok(());
        }
        if str_eq(kind, "function_call_output") {
            let block = make_output_block(item);
            pending.push(block);
            assert(json::values_view(pending@) =~= json::values_view(old(pending)@).push(block@));
            return Ok(());
        }
        if !str_eq(kind, "message") {
            return Err(
                TranslateError::invalid_request(
                    concat3(
                        "input[",
                        nat_text(i as u64).as_str(),
                        concat3("]: unsupported item type '", kind, "'").as_str(),
                    ),
                ),
            );
        }
    }
    let role = item.str_or("role", "user");
    if str_eq(role, "system") || str_eq(role, "developer") {
        push_system_texts(item, system);
    } else {
        let to = if str_eq(role, "assistant") {
            "assistant"
        } else {
            "user"
        };
        push_message(make_message(to, make_item_blocks(item)), out, pending);
    }
    Ok(())
}

/// Translates the items of a Responses `input` array, adding the texts of `system`
/// and `developer` items to `system`.
pub fn convert_input_items(items: &Vec<Json>, system: Vec<String>) -> (r: Result<
    (Vec<String>, Vec<Json>),
    TranslateError,
>)
    ensures
        match (
            r,
            input_of(Some(Tree::Arr(json::values_view(items@))), text::texts(system@)),
        ) {
            (Ok((parts, out)), Outcome::Done(c)) => text::texts(parts@) == c.0
                && json::values_view(out@) == c.1,
            (Err(e), Outcome::Refused(m)) => e.refuses_with(m),
            _ => false,
        },
{
    let ghost trees = json::values_view(items@);
    let ghost start = Conversation {
        system: text::texts(system@),
        out: Seq::empty(),
        pending: Seq::empty(),
    };
    let ghost step = item_step();
    let mut system_parts = system;
    let mut out: Vec<Json> = no_blocks();
    let mut pending: Vec<Json> = no_blocks();
    for i in 0..items.len()
        invariant
            trees == json::values_view(items@),
            start == (Conversation {
                system: text::texts(system@),
                out: Seq::empty(),
                pending: Seq::empty(),
            }),
            step == item_step(),
            steps::run(trees.take(i as int), start, step) == Outcome::Done(
                Conversation {
                    system: text::texts(system_parts@),
                    out: json::values_view(out@),
                    pending: json::values_view(pending@),
                },
            ),
    {
        proof {
            steps::lemma_run_step(trees, start, step, i as int);
        }
        assert(trees[i as int] == items@[i as int]@);
        match convert_input_item(&items[i], i, &mut system_parts, &mut out, &mut pending) {
            Ok(_) => {},
            Err(e) => {
                proof {
                    steps::lemma_run_refused(trees, start, step, i + 1);
                }
                return Err(e);
            },
        }
    }
    assert(trees.take(trees.len() as int) =~= trees);
    flush_tool_results(&mut out, &mut pending);
    Ok((system_parts, out))
}

/// The kinds of items are distinct.
proof fn lemma_kinds()
    ensures
        "function_call"@ != "function_call_output"@,
        "function_call"@ != "message"@,
        "function_call_output"@ != "message"@,
{
    reveal_strlit("function_call");
    reveal_strlit("function_call_output");
    reveal_strlit("message");
    assert("function_call"@.len() == 13);
    assert("function_call_output"@.len() == 20);
    assert("message"@.len() == 7);
}

/// Translates the Responses `input` (string or array) into Anthropic messages,
/// adding the texts of `system` and `developer` items to `system`.
pub fn convert_input(input: Option<&Json>, system: Vec<String>) -> (r: Result<
    (Vec<String>, Vec<Json>),
    TranslateError,
>)
    ensures
        match (r, input_of(json::view_opt(input), text::texts(system@))) {
            (Ok((parts, out)), Outcome::Done(c)) => text::texts(parts@) == c.0
                && json::values_view(out@) == c.1,
            (Err(e), Outcome::Refused(m)) => e.refuses_with(m),
            _ => false,
        },
{
    match input {
        None => Ok((system, no_blocks())),
        Some(Json::Null) => Ok((system, no_blocks())),
        Some(Json::String(s)) => {
            let mut out = no_blocks();
            if !s.as_str().is_empty() {
                out.push(make_user_text(s.as_str()));
                assert(json::values_view(out@) =~= seq![user_text(s@)]);
            }
            Ok((system, out))
        },
        Some(Json::Array(items)) => convert_input_items(items, system),
        Some(other) => Err(
            TranslateError::invalid_request(
                concat2("input: must be a string or an array, got ", other.to_text().as_str()),
            ),
        ),
    }
}

/// One entry of `tools`. Hosted tools (`web_search` and the like) have no Anthropic
/// equivalent and are left out.
pub open spec fn tool_step() -> spec_fn(Seq<Tree>, int, Tree) -> Outcome<Seq<Tree>> {
    |tools: Seq<Tree>, i: int, tool: Tree|
        if json::str_in(tool.get("type"@)) != Some("function"@) {
            Outcome::Done(tools)
        } else {
            match json::str_in(tool.get("name"@)) {
                Some(name) => Outcome::Done(tools.push(chat::tool_entry(name, tool))),
                None => Outcome::Refused("tools[]: function tool missing name"@),
            }
        }
}

/// The Anthropic tool definitions of a request.
pub open spec fn tools_of(tools: Option<Tree>) -> Outcome<Seq<Tree>> {
    match tools {
        Some(Tree::Arr(items)) => steps::run(items, Seq::empty(), tool_step()),
        _ => Outcome::Done(Seq::empty()),
    }
}

/// Translates Responses' flat function tool shape
/// (`{"type":"function","name":n,"parameters":p}`) into Anthropic tools.
pub fn convert_tools(tools: Option<&Json>) -> (r: Result<Vec<Json>, TranslateError>)
    ensures
        chat::same_list(r, tools_of(json::view_opt(tools))),
{
    let mut out: Vec<Json> = no_blocks();
    match tools {
        Some(Json::Array(entries)) => {
            let ghost items = json::values_view(entries@);
            for i in 0..entries.len()
                invariant
                    items == json::values_view(entries@),
                    steps::run(items.take(i as int), Seq::empty(), tool_step()) == Outcome::Done(
                        json::values_view(out@),
                    ),
                    tools_of(json::view_opt(tools)) == steps::run(items, Seq::empty(), tool_step()),
            {
                proof {
                    steps::lemma_run_step(items, Seq::empty(), tool_step(), i as int);
                    if steps::run(items.take(i + 1), Seq::empty(), tool_step()) is Refused {
                        steps::lemma_run_refused(items, Seq::empty(), tool_step(), i + 1);
                    }
                }
                let ghost before = out@;
                let tool = &entries[i];
                if tool.has_type("function") {
                    match tool.get_str("name") {
                        Some(name) => {
                            let entry = make_tool_entry(name, tool);
                            out.push(entry);
                            assert(json::values_view(out@) =~= json::values_view(before).push(
                                entry@,
                            ));
                        },
                        None => {
                            return Err(
                                TranslateError::invalid_request(
                                    "tools[]: function tool missing name".to_owned(),
                                ),
                            );
                        },
                    }
                }
            }
            assert(items.take(items.len() as int) =~= items);
        },
        _ => {},
    }
    Ok(out)
}

/// The Anthropic `tool_choice` of a Responses request.
pub open spec fn responses_choice(choice: Option<Tree>) -> Outcome<Option<Tree>> {
    chat::choice_of(
        choice,
        json::str_in(json::get_in(choice, "name"@)),
        "tool_choice: object form must be {\"type\":\"function\",\"name\":...}"@,
    )
}

/// Translates `tool_choice`, by the same mapping as Chat Completions for the string
/// forms; the object form here is already flat (`{"type":"function","name":n}`)
/// rather than nested under a `function` key.
pub fn convert_tool_choice(tool_choice: Option<&Json>) -> (r: Result<Option<Json>, TranslateError>)
    ensures
        chat::same_choice(r, responses_choice(json::view_opt(tool_choice))),
{
    let name = match tool_choice {
        Some(choice) => choice.get_str("name"),
        None => None,
    };
    convert_choice(
        tool_choice,
        name,
        "tool_choice: object form must be {\"type\":\"function\",\"name\":...}",
    )
}

/// The system texts that the `instructions` of a request give.
pub open spec fn instructions_of(src: Tree) -> Seq<Seq<char>> {
    match json::str_in(src.get("instructions"@)) {
        Some(s) => if text::trimmed(s).len() > 0 {
            seq![text::trimmed(s)]
        } else {
            Seq::empty()
        },
        None => Seq::empty(),
    }
}

/// The messages, after a synthetic user turn where the first is not from the user.
pub open spec fn opened(messages: Seq<Tree>) -> Seq<Tree> {
    if messages.len() > 0 && json::str_in(messages[0].get("role"@)) != Some("user"@) {
        seq![chat::opening_turn()] + messages
    } else {
        messages
    }
}

/// The thinking budget that a request asks for.
pub open spec fn thinking_budget(src: Tree) -> Option<i64> {
    match json::str_in(json::get_in(src.get("reasoning"@), "effort"@)) {
        Some(effort) => match budget_of(effort) {
            Some(budget) => if budget >= MIN_THINKING_BUDGET {
                Some(budget)
            } else {
                None
            },
            None => None,
        },
        None => None,
    }
}

/// The token limit of a request: above the thinking budget where there is one, as
/// Anthropic requires.
pub open spec fn token_limit(src: Tree) -> int {
    let asked = translate::max_tokens_of(src.get("max_output_tokens"@), None);
    match thinking_budget(src) {
        Some(budget) => if asked <= budget {
            budget + DEFAULT_MAX_TOKENS
        } else {
            asked as int
        },
        None => asked as int,
    }
}

/// The Anthropic body of a request whose parts have been translated.
pub open spec fn assembled(
    src: Tree,
    model: Seq<char>,
    messages: Seq<Tree>,
    tools: Seq<Tree>,
    choice: Option<Tree>,
    system: Seq<Seq<char>>,
) -> Tree {
    let out = map!["model"@ => Tree::Str(model), "messages"@ => Tree::Arr(messages)];
    let out = match thinking_budget(src) {
        Some(budget) => out.insert(
            "thinking"@,
            Tree::Obj(
                map![
                    "type"@ => Tree::Str("enabled"@),
                    "budget_tokens"@ => Tree::Int(budget as int),
                ],
            ),
        ),
        None => out,
    };
    let out = translate::with_sampling(
        out.insert("max_tokens"@, Tree::Int(token_limit(src))),
        src,
    );
    let out = if tools.len() > 0 {
        let out = out.insert("tools"@, Tree::Arr(tools));
        match choice {
            Some(choice) => out.insert("tool_choice"@, choice),
            None => out,
        }
    } else {
        out
    };
    if system.len() > 0 {
        Tree::Obj(out.insert("system"@, Tree::Str(text::joined(system, "\n\n"@))))
    } else {
        Tree::Obj(out)
    }
}

/// The Anthropic body of a Responses request. The first field that cannot be
/// translated refuses the request. A tool choice is read only beside tools.
pub open spec fn request(src: Tree) -> Outcome<Tree> {
    match unsupported(src) {
        Some(m) => Outcome::Refused(m),
        None => match json::str_in(src.get("model"@)) {
            None => Outcome::Refused("Missing required field: model"@),
            Some(model) => match input_of(src.get("input"@), instructions_of(src)) {
                Outcome::Refused(m) => Outcome::Refused(m),
                Outcome::Done(c) => match tools_of(src.get("tools"@)) {
                    Outcome::Refused(m) => Outcome::Refused(m),
                    Outcome::Done(tools) => {
                        let choice = if tools.len() > 0 {
                            responses_choice(src.get("tool_choice"@))
                        } else {
                            Outcome::Done(None)
                        };
                        match choice {
                            Outcome::Refused(m) => Outcome::Refused(m),
                            Outcome::Done(choice) => Outcome::Done(
                                assembled(src, model, opened(c.1), tools, choice, c.0),
                            ),
                        }
                    },
                },
            },
        },
    }
}

/// The thinking budget that a request asks for.
fn find_thinking_budget(src: &Json) -> (r: Option<i64>)
    ensures
        r == thinking_budget(src@),
{
    if let Some(reasoning) = src.get("reasoning") {
        if let Some(effort) = reasoning.get_str("effort") {
            if let Some(budget) = effort_to_budget(effort) {
                if budget >= MIN_THINKING_BUDGET {
                    return Some(budget);
                }
            }
        }
    }
    None
}

fn open_conversation(messages: Vec<Json>) -> (r: Vec<Json>)
    ensures
        json::values_view(r@) == opened(json::values_view(messages@)),
{
    if messages.len() == 0 {
        return messages;
    }
    assert(json::values_view(messages@)[0] == messages@[0]@);
    let from_user = match messages[0].get_str("role") {
        Some(role) => str_eq(role, "user"),
        None => false,
    };
    if from_user {
        messages
    } else {
        let mut rest = messages;
        let mut out: Vec<Json> = Vec::new();
        out.push(make_user_text("(continuing the conversation)"));
        assert(json::values_view(out@) =~= seq![chat::opening_turn()]);
        proof {
            chat::lemma_values_view_add(out@, rest@);
        }
        out.append(&mut rest);
        out
    }
}

/// Translates a Responses request into an Anthropic Messages request.
pub fn request_to_anthropic(src: &Json) -> (r: Result<Json, TranslateError>)
    ensures
        chat::same_doc(r, request(src@)),
{
    match reject_unsupported(src) {
        Ok(_) => {},
        Err(e) => {
            return Err(e);
        },
    }
    let model = match src.get_str("model") {
        Some(model) => model,
        None => {
            return Err(TranslateError::invalid_request("Missing required field: model".to_owned()));
        },
    };
    let mut system: Vec<String> = Vec::new();
    assert(text::texts(system@) =~= Seq::empty());
    if let Some(instructions) = src.get_str("instructions") {
        let trimmed = trim(instructions);
        if !trimmed.is_empty() {
            system.push(trimmed.to_owned());
            assert(text::texts(system@) =~= seq![trimmed@]);
        }
    }
    let (system_parts, messages) = match convert_input(src.get("input"), system) {
        Ok(converted) => converted,
        Err(e) => {
            return Err(e);
        },
    };
    let mut out = Object::new().with("model", Json::text(model)).with(
        "messages",
        Json::Array(open_conversation(messages)),
    );
    let mut max_tokens: i64 = resolve_max_tokens(src.get("max_output_tokens"), None);
    if let Some(budget) = find_thinking_budget(src) {
        out.insert(
            "thinking".to_owned(),
            Json::Object(
                Object::new().with("type", Json::text("enabled")).with(
                    "budget_tokens",
                    Json::from_i64(budget),
                ),
            ),
        );
        // Headroom above the budget, so the visible answer is not squeezed to nothing.
        if max_tokens <= budget {
            max_tokens = budget + DEFAULT_MAX_TOKENS;
        }
    }
    out.insert("max_tokens".to_owned(), Json::from_i64(max_tokens));
    apply_common_sampling(&mut out, src);
    let tools = match convert_tools(src.get("tools")) {
        Ok(tools) => tools,
        Err(e) => {
            return Err(e);
        },
    };
    if tools.len() > 0 {
        out.insert("tools".to_owned(), Json::Array(tools));
        match convert_tool_choice(src.get("tool_choice")) {
            Ok(Some(choice)) => {
                out.insert("tool_choice".to_owned(), choice);
            },
            Ok(None) => {},
            Err(e) => {
                return Err(e);
            },
        }
    }
    if system_parts.len() > 0 {
        out.insert("system".to_owned(), Json::String(join(&system_parts, "\n\n")));
    }
    Ok(Json::Object(out))
}

/// Whether the answer was cut off at the token limit.
pub open spec fn cut_off(stop_reason: Option<Seq<char>>) -> bool {
    stop_reason == Some("max_tokens"@)
}

/// The status of a response.
pub open spec fn status_of(stop_reason: Option<Seq<char>>) -> Seq<char> {
    if cut_off(stop_reason) {
        "incomplete"@
    } else {
        "completed"@
    }
}

/// What is said of an incomplete response.
pub open spec fn incomplete_details() -> Tree {
    Tree::Obj(map!["reason"@ => Tree::Str("max_output_tokens"@)])
}

/// Maps an Anthropic `stop_reason` to a Responses completion status.
pub fn response_status(stop_reason: Option<&str>) -> (r: (&'static str, Option<Json>))
    ensures
        r.0@ == status_of(json::str_opt(stop_reason)),
        json::view_owned(r.1) == (if cut_off(json::str_opt(stop_reason)) {
            Some(incomplete_details())
        } else {
            None
        }),
{
    let cut = match stop_reason {
        Some(s) => str_eq(s, "max_tokens"),
        None => false,
    };
    if cut {
        (
            "incomplete",
            Some(Json::Object(Object::new().with("reason", Json::text("max_output_tokens")))),
        )
    } else {
        ("completed", None)
    }
}

/// The Responses `usage` of these token counts. The total wraps around at the ends of
/// the 64-bit range.
pub open spec fn responses_usage(input: i64, output: i64, cached: Option<i64>) -> Tree {
    let out = map![
        "input_tokens"@ => Tree::Int(input as int),
        "output_tokens"@ => Tree::Int(output as int),
        "total_tokens"@ => Tree::Int(input.wrapping_add(output) as int),
    ];
    match cached {
        Some(n) => Tree::Obj(
            out.insert(
                "input_tokens_details"@,
                Tree::Obj(map!["cached_tokens"@ => Tree::Int(n as int)]),
            ),
        ),
        None => Tree::Obj(out),
    }
}

/// Builds a Responses `usage` object.
pub fn make_responses_usage(input: i64, output: i64, cached: Option<i64>) -> (r: Json)
    ensures
        r@ == responses_usage(input, output, cached),
{
    let out = Object::new().with("input_tokens", Json::from_i64(input)).with(
        "output_tokens",
        Json::from_i64(output),
    ).with("total_tokens", Json::from_i64(input.wrapping_add(output)));
    match cached {
        Some(n) => Json::Object(
            out.with(
                "input_tokens_details",
                Json::Object(Object::new().with("cached_tokens", Json::from_i64(n))),
            ),
        ),
        None => Json::Object(out),
    }
}

/// The Responses `usage` of an Anthropic `usage`.
pub open spec fn usage_of(usage: Option<Tree>) -> Tree {
    responses_usage(
        json::int_or_zero(usage, "input_tokens"@),
        json::int_or_zero(usage, "output_tokens"@),
        json::int_in(usage, "cache_read_input_tokens"@),
    )
}

/// Builds a Responses `usage` object from an Anthropic `usage` object.
pub fn build_usage(usage: Option<&Json>) -> (r: Json)
    ensures
        r@ == usage_of(json::view_opt(usage)),
{
    make_responses_usage(
        opt_int_or_zero(usage, "input_tokens"),
        opt_int_or_zero(usage, "output_tokens"),
        opt_int(usage, "cache_read_input_tokens"),
    )
}

/// The content part that holds a text.
pub open spec fn output_text(s: Seq<char>) -> Tree {
    Tree::Obj(map!["type"@ => Tree::Str("output_text"@), "text"@ => Tree::Str(s)])
}

/// Builds the content part that holds a text.
pub fn make_output_text(s: &str) -> (r: Json)
    ensures
        r@ == output_text(s@),
{
    Json::Object(Object::new().with("type", Json::text("output_text")).with("text", Json::text(s)))
}

/// An output item that holds one text.
pub open spec fn message_item(id: Seq<char>, status: Seq<char>, s: Seq<char>) -> Tree {
    Tree::Obj(
        map![
            "type"@ => Tree::Str("message"@),
            "id"@ => Tree::Str(id),
            "role"@ => Tree::Str("assistant"@),
            "status"@ => Tree::Str(status),
            "content"@ => Tree::Arr(seq![output_text(s)]),
        ],
    )
}

/// Builds an output item that holds one text.
pub fn make_message_item(id: &str, status: &str, s: &str) -> (r: Json)
    ensures
        r@ == message_item(id@, status@, s@),
{
    let mut parts: Vec<Json> = Vec::new();
    parts.push(make_output_text(s));
    assert(json::values_view(parts@) =~= seq![output_text(s@)]);
    Json::Object(
        Object::new().with("type", Json::text("message")).with("id", Json::text(id)).with(
            "role",
            Json::text("assistant"),
        ).with("status", Json::text(status)).with("content", Json::Array(parts)),
    )
}

/// An output item that holds a function call.
pub open spec fn call_item(
    id: Seq<char>,
    call_id: Seq<char>,
    name: Seq<char>,
    arguments: Seq<char>,
    status: Seq<char>,
) -> Tree {
    Tree::Obj(
        map![
            "type"@ => Tree::Str("function_call"@),
            "id"@ => Tree::Str(id),
            "call_id"@ => Tree::Str(call_id),
            "name"@ => Tree::Str(name),
            "arguments"@ => Tree::Str(arguments),
            "status"@ => Tree::Str(status),
        ],
    )
}

/// Builds an output item that holds a function call.
pub fn make_call_item(id: &str, call_id: &str, name: &str, arguments: &str, status: &str) -> (r:
    Json)
    ensures
        r@ == call_item(id@, call_id@, name@, arguments@, status@),
{
    Json::Object(
        Object::new().with("type", Json::text("function_call")).with("id", Json::text(id)).with(
            "call_id",
            Json::text(call_id),
        ).with("name", Json::text(name)).with("arguments", Json::text(arguments)).with(
            "status",
            Json::text(status),
        ),
    )
}

/// The output item of one content block, if it has one, `id` being the random part of
/// its id.
pub open spec fn item_of(block: Tree, id: Seq<char>) -> Option<Tree> {
    let kind = json::str_in(block.get("type"@));
    if kind == Some("text"@) {
        match json::str_in(block.get("text"@)) {
            Some(s) => Some(message_item("msg_"@ + id, "completed"@, s)),
            None => None,
        }
    } else if kind == Some("tool_use"@) {
        Some(
            call_item(
                "fc_"@ + id,
                json::str_or(block, "id"@, ""@),
                json::str_or(block, "name"@, ""@),
                translate::arguments_of_input(block.get("input"@)),
                "completed"@,
            ),
        )
    } else {
        None
    }
}

/// The output items of content blocks, in the order of the blocks; `ids` gives each
/// block a random part for its id.
pub open spec fn output_of(blocks: Seq<Tree>, ids: Seq<Seq<char>>) -> Seq<Tree>
    decreases blocks.len(),
{
    if blocks.len() == 0 {
        Seq::empty()
    } else {
        let before = output_of(blocks.drop_last(), ids);
        match item_of(blocks.last(), ids[blocks.len() - 1]) {
            Some(item) => before.push(item),
            None => before,
        }
    }
}

/// Builds the output item of one content block, if it has one.
pub fn output_item(block: &Json, id: &str) -> (r: Option<Json>)
    ensures
        json::view_owned(r) == item_of(block@, id@),
{
    proof {
        reveal_strlit("text");
        reveal_strlit("tool_use");
        assert("text"@.len() != "tool_use"@.len());
    }
    if block.has_type("text") {
        match block.get_str("text") {
            Some(s) => Some(make_message_item(concat2("msg_", id).as_str(), "completed", s)),
            None => None,
        }
    } else if block.has_type("tool_use") {
        let arguments = tool_arguments_from_input(block.get("input"));
        Some(
            make_call_item(
                concat2("fc_", id).as_str(),
                block.str_or("id", ""),
                block.str_or("name", ""),
                arguments.as_str(),
                "completed",
            ),
        )
    } else {
        None
    }
}

/// Builds the `output[]` array from Anthropic `content` blocks: one item per
/// block, in the order the blocks arrived. Text blocks become `message` items,
/// `tool_use` blocks become `function_call` items, and other blocks become nothing.
pub fn build_output(blocks: &Vec<Json>, ids: &Vec<String>) -> (r: Vec<Json>)
    requires
        ids@.len() >= blocks@.len(),
    ensures
        json::values_view(r@) == output_of(json::values_view(blocks@), text::texts(ids@)),
{
    let mut output: Vec<Json> = no_blocks();
    let ghost trees = json::values_view(blocks@);
    for i in 0..blocks.len()
        invariant
            ids@.len() >= blocks@.len(),
            trees == json::values_view(blocks@),
            json::values_view(output@) == output_of(trees.take(i as int), text::texts(ids@)),
    {
        let ghost before = output@;
        assert(trees.take(i + 1).drop_last() =~= trees.take(i as int));
        assert(text::texts(ids@)[i as int] == ids@[i as int]@);
        if let Some(item) = output_item(&blocks[i], ids[i].as_str()) {
            output.push(item);
            assert(json::values_view(output@) =~= json::values_view(before).push(item@));
        }
    }
    assert(trees.take(trees.len() as int) =~= trees);
    output
}

/// The content blocks of an Anthropic response.
pub open spec fn content_of(anthropic: Tree) -> Seq<Tree> {
    match anthropic.get("content"@) {
        Some(Tree::Arr(blocks)) => blocks,
        _ => Seq::empty(),
    }
}

/// The Responses response of an Anthropic response, `ids` giving each content block a
/// random part for its id.
pub open spec fn response(
    anthropic: Tree,
    client_model: Option<Seq<char>>,
    ids: Seq<Seq<char>>,
) -> Tree {
    let stop_reason = json::str_in(anthropic.get("stop_reason"@));
    let out = map![
        "id"@ => Tree::Str(json::str_or(anthropic, "id"@, ""@)),
        "object"@ => Tree::Str("response"@),
        "model"@ => Tree::Str(chat::echoed_model(anthropic, client_model)),
        "status"@ => Tree::Str(status_of(stop_reason)),
        "output"@ => Tree::Arr(output_of(content_of(anthropic), ids)),
        "usage"@ => usage_of(anthropic.get("usage"@)),
    ];
    if cut_off(stop_reason) {
        Tree::Obj(out.insert("incomplete_details"@, incomplete_details()))
    } else {
        Tree::Obj(out)
    }
}

/// Translates a non-streaming Anthropic Messages response into a Responses
/// response object whose items carry these ids, one for each content block.
pub fn response_with_ids(anthropic: &Json, client_model: Option<&str>, ids: &Vec<String>) -> (r:
    Json)
    requires
        ids@.len() >= content_of(anthropic@).len(),
    ensures
        r@ == response(anthropic@, json::str_opt(client_model), text::texts(ids@)),
{
    let output = match anthropic.get("content") {
        Some(Json::Array(blocks)) => build_output(blocks, ids),
        _ => no_blocks(),
    };
    let (status, details) = response_status(anthropic.get_str("stop_reason"));
    let model = match client_model {
        Some(model) => model,
        None => anthropic.str_or("model", ""),
    };
    let out = Object::new().with("id", Json::text(anthropic.str_or("id", ""))).with(
        "object",
        Json::text("response"),
    ).with("model", Json::text(model)).with("status", Json::text(status)).with(
        "output",
        Json::Array(output),
    ).with("usage", build_usage(anthropic.get("usage")));
    match details {
        Some(details) => Json::Object(out.with("incomplete_details", details)),
        None => Json::Object(out),
    }
}

/// Translates a non-streaming Anthropic Messages response into a Responses
/// response object. Each item gets a fresh random id.
///
/// `client_model`, when set, is echoed as the response `model` in place of the
/// upstream's own name, so a per-server model mapping stays invisible to the
/// caller.
pub fn anthropic_to_response(anthropic: &Json, client_model: Option<&str>) -> (r: Json)
    ensures
        exists|ids: Seq<Seq<char>>| #[trigger]
            ids::are_random_ids(ids) && ids.len() == content_of(anthropic@).len() && r@ == response(
                anthropic@,
                json::str_opt(client_model),
                ids,
            ),
{
    let count: usize = match anthropic.get("content") {
        Some(Json::Array(blocks)) => blocks.len(),
        _ => 0,
    };
    let ids = random_ids(count);
    assert(ids::are_random_ids(text::texts(ids@)));
    response_with_ids(anthropic, client_model, &ids)
}

/// Translates an upstream Anthropic error body into a Responses error body.
pub fn anthropic_error_to_response(body: &[u8]) -> (r: Json)
    ensures
        r@ == translate::envelope(
            translate::ClientProtocol::Responses,
            translate::upstream_error_type(body@),
            translate::upstream_error_message(body@),
        ),
{
    let message = translate::anthropic_error_message(body);
    let error_type = translate::anthropic_error_type(body);
    translate::error_envelope(
        translate::ClientProtocol::Responses,
        error_type.as_str(),
        message.as_str(),
    )
}

} // verus!
