//! OpenAI Chat Completions to and from Anthropic Messages.

use vstd::prelude::*;
use vstd::string::*;

use crate::json;
use crate::json::{opt_int, opt_int_or_zero, Json, Object, Tree};
use crate::text;
use crate::text::{concat2, concat3, int_text, join, nat_text, split_once, str_eq, strip_prefix};
use crate::translate;
use crate::translate::steps;
use crate::translate::steps::Outcome;
use crate::translate::{
    apply_common_sampling, resolve_max_tokens, tool_arguments_from_input, tool_input_from_arguments,
    TranslateError,
};

verus! {

/// Instruction appended to the system prompt for `response_format: json_object`.
///
/// Anthropic Messages has no native JSON mode, so this is best-effort. The
/// stronger `json_schema` form is implemented as a forced tool call instead.
pub const JSON_OBJECT_INSTRUCTION: &'static str =
    "You must respond with a single valid JSON object and nothing else. Do not wrap it in markdown code fences and do not add any prose.";

/// A list of blocks or a refusal is what the model says.
pub open spec fn same_list(r: Result<Vec<Json>, TranslateError>, o: Outcome<Seq<Tree>>) -> bool {
    match (r, o) {
        (Ok(v), Outcome::Done(s)) => json::values_view(v@) == s,
        (Err(e), Outcome::Refused(m)) => e.refuses_with(m),
        _ => false,
    }
}

/// A block or a refusal is what the model says.
pub open spec fn same_doc(r: Result<Json, TranslateError>, o: Outcome<Tree>) -> bool {
    match (r, o) {
        (Ok(v), Outcome::Done(t)) => v@ == t,
        (Err(e), Outcome::Refused(m)) => e.refuses_with(m),
        _ => false,
    }
}

/// A refusal that names a message by its position.
pub open spec fn at_message(i: int, what: Seq<char>) -> Seq<char> {
    "messages["@ + text::decimal(i as nat) + what
}

fn refuse_message(i: usize, what: &str) -> (r: TranslateError)
    ensures
        r.refuses_with(at_message(i as int, what@)),
{
    TranslateError::invalid_request(concat3("messages[", nat_text(i as u64).as_str(), what))
}

/// The text block of a text.
pub open spec fn text_block(s: Seq<char>) -> Tree {
    Tree::Obj(map!["type"@ => Tree::Str("text"@), "text"@ => Tree::Str(s)])
}

/// Builds a text block.
pub fn make_text_block(s: &str) -> (r: Json)
    ensures
        r@ == text_block(s@),
{
    Json::Object(Object::new().with("type", Json::text("text")).with("text", Json::text(s)))
}

/// The image block of a `data:` URL or of a fetchable URL.
pub open spec fn image_block(url: Seq<char>, i: int) -> Outcome<Tree> {
    if "data:"@.is_prefix_of(url) {
        let rest = url.skip("data:"@.len() as int);
        match text::find(rest, ";base64,"@) {
            Some(at) => Outcome::Done(
                Tree::Obj(
                    map![
                        "type"@ => Tree::Str("image"@),
                        "source"@ => Tree::Obj(
                            map![
                                "type"@ => Tree::Str("base64"@),
                                "media_type"@ => Tree::Str(
                                    if at == 0 {
                                        "application/octet-stream"@
                                    } else {
                                        rest.take(at)
                                    },
                                ),
                                "data"@ => Tree::Str(rest.skip(at + ";base64,"@.len())),
                            ],
                        ),
                    ],
                ),
            ),
            None => Outcome::Refused(
                at_message(i, "]: image_url is a data URL but has no ';base64,' separator"@),
            ),
        }
    } else {
        Outcome::Done(
            Tree::Obj(
                map![
                    "type"@ => Tree::Str("image"@),
                    "source"@ => Tree::Obj(
                        map!["type"@ => Tree::Str("url"@), "url"@ => Tree::Str(url)],
                    ),
                ],
            ),
        )
    }
}

/// Reads a Chat Completions `image_url.url` into an Anthropic image block.
///
/// A `data:` URL becomes a `base64` source; anything else is treated as a
/// fetchable URL. An empty media type falls back to `application/octet-stream`:
/// Anthropic still needs a media type, and guessing a generic one is more useful
/// than refusing a request over a detail the client omitted.
pub fn image_block_from_image_url(url: &str, msg_index: usize) -> (r: Result<Json, TranslateError>)
    ensures
        same_doc(r, image_block(url@, msg_index as int)),
{
    match strip_prefix(url, "data:") {
        Some(rest) => {
            assert("data:"@.is_prefix_of(url@));
            assert(url@.skip("data:"@.len() as int) =~= rest@);
            proof {
                text::lemma_find_from(rest@, ";base64,"@, 0);
            }
            match split_once(rest, ";base64,") {
                Some((media_type, data)) => {
                    let media_type = if media_type.is_empty() {
                        "application/octet-stream"
                    } else {
                        media_type
                    };
                    let source = Object::new().with("type", Json::text("base64")).with(
                        "media_type",
                        Json::text(media_type),
                    ).with("data", Json::text(data));
                    Ok(
                        Json::Object(
                            Object::new().with("type", Json::text("image")).with(
                                "source",
                                Json::Object(source),
                            ),
                        ),
                    )
                },
                None => Err(
                    refuse_message(
                        msg_index,
                        "]: image_url is a data URL but has no ';base64,' separator",
                    ),
                ),
            }
        },
        None => {
            let source = Object::new().with("type", Json::text("url")).with("url", Json::text(url));
            Ok(
                Json::Object(
                    Object::new().with("type", Json::text("image")).with(
                        "source",
                        Json::Object(source),
                    ),
                ),
            )
        },
    }
}

/// The block that one content part adds, if any.
pub open spec fn part_step(i: int) -> spec_fn(Seq<Tree>, int, Tree) -> Outcome<Seq<Tree>> {
    |blocks: Seq<Tree>, at: int, part: Tree|
        {
            let kind = json::str_or(part, "type"@, "text"@);
            if kind == "text"@ {
                match json::str_in(part.get("text"@)) {
                    Some(s) => if s.len() > 0 {
                        Outcome::Done(blocks.push(text_block(s)))
                    } else {
                        Outcome::Done(blocks)
                    },
                    None => Outcome::Done(blocks),
                }
            } else if kind == "image_url"@ {
                match json::str_in(json::get_in(part.get("image_url"@), "url"@)) {
                    Some(url) => match image_block(url, i) {
                        Outcome::Done(block) => Outcome::Done(blocks.push(block)),
                        Outcome::Refused(m) => Outcome::Refused(m),
                    },
                    None => Outcome::Refused(
                        at_message(i, "]: image_url part missing image_url.url"@),
                    ),
                }
            } else {
                Outcome::Refused(
                    at_message(i, "]: unsupported content part type '"@ + kind + "'"@),
                )
            }
        }
}

/// The blocks of a message's content.
pub open spec fn blocks_of(content: Option<Tree>, i: int) -> Outcome<Seq<Tree>> {
    match content {
        None => Outcome::Done(Seq::empty()),
        Some(Tree::Null) => Outcome::Done(Seq::empty()),
        Some(Tree::Str(s)) => if s.len() == 0 {
            Outcome::Done(Seq::empty())
        } else {
            Outcome::Done(seq![text_block(s)])
        },
        Some(Tree::Arr(parts)) => steps::run(parts, Seq::empty(), part_step(i)),
        Some(other) => Outcome::Refused(
            at_message(
                i,
                "]: content must be a string or an array, got "@ + json::json_text(other),
            ),
        ),
    }
}

fn part_block(part: &Json, msg_index: usize) -> (r: Result<Option<Json>, TranslateError>)
    ensures
        forall|blocks: Seq<Tree>, at: int| #[trigger]
            part_step(msg_index as int)(blocks, at, part@) == (match r {
                Ok(Some(block)) => Outcome::Done(blocks.push(block@)),
                Ok(None) => Outcome::Done(blocks),
                Err(e) => Outcome::Refused(e.message@),
            }),
        r matches Err(e) ==> e.refuses_with(e.message@),
{
    let kind = part.str_or("type", "text");
    if str_eq(kind, "text") {
        match part.get_str("text") {
            Some(s) => if s.is_empty() {
                Ok(None)
            } else {
                Ok(Some(make_text_block(s)))
            },
            None => Ok(None),
        }
    } else if str_eq(kind, "image_url") {
        let url = match part.get("image_url") {
            Some(v) => v.get_str("url"),
            None => None,
        };
        match url {
            Some(url) => match image_block_from_image_url(url, msg_index) {
                Ok(block) => Ok(Some(block)),
                Err(e) => Err(e),
            },
            None => Err(refuse_message(msg_index, "]: image_url part missing image_url.url")),
        }
    } else {
        Err(
            refuse_message(
                msg_index,
                concat3("]: unsupported content part type '", kind, "'").as_str(),
            ),
        )
    }
}

/// Translates one `content` value (string or array of parts) into Anthropic
/// content blocks.
pub fn content_blocks(content: Option<&Json>, msg_index: usize) -> (r: Result<
    Vec<Json>,
    TranslateError,
>)
    ensures
        same_list(r, blocks_of(json::view_opt(content), msg_index as int)),
{
    match content {
        None => Ok(no_blocks()),
        Some(Json::Null) => Ok(no_blocks()),
        Some(Json::String(s)) => {
            if s.as_str().is_empty() {
                Ok(no_blocks())
            } else {
                let mut blocks: Vec<Json> = Vec::new();
                blocks.push(make_text_block(s.as_str()));
                assert(json::values_view(blocks@) =~= seq![text_block(s@)]);
                Ok(blocks)
            }
        },
        Some(Json::Array(parts)) => {
            let mut blocks: Vec<Json> = no_blocks();
            let ghost items = json::values_view(parts@);
            let ghost step = part_step(msg_index as int);
            for i in 0..parts.len()
                invariant
                    items == json::values_view(parts@),
                    step == part_step(msg_index as int),
                    steps::run(items.take(i as int), Seq::empty(), step) == Outcome::Done(
                        json::values_view(blocks@),
                    ),
                    content == Some(&Json::Array(*parts)),
            {
                proof {
                    steps::lemma_run_step(items, Seq::empty(), step, i as int);
                }
                let ghost done = blocks@;
                match part_block(&parts[i], msg_index) {
                    Ok(Some(block)) => {
                        blocks.push(block);
                        assert(json::values_view(blocks@) =~= json::values_view(done).push(block@));
                    },
                    Ok(None) => {},
                    Err(e) => {
                        proof {
                            steps::lemma_run_refused(items, Seq::empty(), step, i + 1);
                        }
                        return Err(e);
                    },
                }
            }
            assert(items.take(items.len() as int) =~= items);
            Ok(blocks)
        },
        Some(other) => Err(
            refuse_message(
                msg_index,
                concat2(
                    "]: content must be a string or an array, got ",
                    other.to_text().as_str(),
                ).as_str(),
            ),
        ),
    }
}

/// An empty list of blocks.
pub fn no_blocks() -> (r: Vec<Json>)
    ensures
        r@.len() == 0,
        json::values_view(r@) == Seq::<Tree>::empty(),
{
    let r: Vec<Json> = Vec::new();
    assert(json::values_view(r@) =~= Seq::<Tree>::empty());
    r
}

/// The text of a `system` or `developer` message's content.
pub open spec fn text_of(content: Option<Tree>) -> Seq<char> {
    match content {
        Some(Tree::Str(s)) => s,
        Some(Tree::Arr(parts)) => text::joined(
            steps::gather(parts, Seq::empty(), text_step()),
            "\n"@,
        ),
        _ => Seq::empty(),
    }
}

/// The text that one part adds, if any.
pub open spec fn text_step() -> spec_fn(Seq<Seq<char>>, Tree) -> Seq<Seq<char>> {
    |texts: Seq<Seq<char>>, part: Tree|
        match json::str_in(part.get("text"@)) {
            Some(s) => texts.push(s),
            None => texts,
        }
}

/// Extracts plain text from a `system` or `developer` message's content, which may
/// be a string or an array of `{"text": ...}` parts.
pub fn extract_text(content: Option<&Json>) -> (r: String)
    ensures
        r@ == text_of(json::view_opt(content)),
{
    match content {
        Some(Json::String(s)) => s.clone(),
        Some(Json::Array(parts)) => {
            let mut found: Vec<String> = Vec::new();
            let ghost items = json::values_view(parts@);
            assert(text::texts(found@) =~= Seq::empty());
            for i in 0..parts.len()
                invariant
                    items == json::values_view(parts@),
                    text::texts(found@) == steps::gather(
                        items.take(i as int),
                        Seq::empty(),
                        text_step(),
                    ),
            {
                proof {
                    steps::lemma_gather_step(items, Seq::empty(), text_step(), i as int);
                }
                let ghost before = found@;
                if let Some(s) = parts[i].get_str("text") {
                    found.push(s.to_owned());
                    assert(text::texts(found@) =~= text::texts(before).push(s@));
                }
            }
            assert(items.take(items.len() as int) =~= items);
            join(&found, "\n")
        },
        _ => String::new(),
    }
}

/// The `tool_use` block of one stored tool call.
pub open spec fn tool_use_block(call: Tree) -> Tree {
    let function = call.get("function"@);
    Tree::Obj(
        map![
            "type"@ => Tree::Str("tool_use"@),
            "id"@ => Tree::Str(json::str_or(call, "id"@, ""@)),
            "name"@ => Tree::Str(
                match json::str_in(json::get_in(function, "name"@)) {
                    Some(name) => name,
                    None => ""@,
                },
            ),
            "input"@ => translate::input_of_arguments(json::get_in(function, "arguments"@)),
        ],
    )
}

/// Translates an assistant message's `tool_calls` into Anthropic `tool_use`
/// blocks, preserving call order.
pub fn tool_use_blocks(tool_calls: &Vec<Json>) -> (r: Vec<Json>)
    ensures
        json::values_view(r@) == json::values_view(tool_calls@).map_values(
            |call: Tree| tool_use_block(call),
        ),
{
    let mut blocks: Vec<Json> = Vec::new();
    for i in 0..tool_calls.len()
        invariant
            blocks@.len() == i,
            forall|j: int| 0 <= j < i ==> (#[trigger] blocks@[j])@ == tool_use_block(tool_calls@[j]@),
    {
        let call = &tool_calls[i];
        let id = call.str_or("id", "");
        let (name, input) = match call.get("function") {
            Some(function) => (
                function.str_or("name", ""),
                tool_input_from_arguments(function.get("arguments")),
            ),
            None => ("", tool_input_from_arguments(None)),
        };
        blocks.push(
            Json::Object(
                Object::new().with("type", Json::text("tool_use")).with("id", Json::text(id)).with(
                    "name",
                    Json::text(name),
                ).with("input", input),
            ),
        );
    }
    assert(json::values_view(blocks@) =~= json::values_view(tool_calls@).map_values(
        |call: Tree| tool_use_block(call),
    ));
    blocks
}

/// The `tool_result` block of a `tool` message.
pub open spec fn result_block(msg: Tree, i: int) -> Outcome<Tree> {
    let id = match json::str_in(msg.get("tool_call_id"@)) {
        Some(id) => Some(id),
        None => json::str_in(msg.get("name"@)),
    };
    match id {
        Some(id) => Outcome::Done(
            Tree::Obj(
                map![
                    "type"@ => Tree::Str("tool_result"@),
                    "tool_use_id"@ => Tree::Str(id),
                    "content"@ => match msg.get("content"@) {
                        Some(content) => content,
                        None => Tree::Str(""@),
                    },
                ],
            ),
        ),
        None => Outcome::Refused(at_message(i, "]: tool result message missing tool_call_id"@)),
    }
}

/// Translates a `role: "tool"` (or legacy `role: "function"`) message into one
/// Anthropic `tool_result` block. The content is passed through as it is:
/// Anthropic accepts a plain string there.
pub fn tool_result_block(msg: &Json, msg_index: usize) -> (r: Result<Json, TranslateError>)
    ensures
        same_doc(r, result_block(msg@, msg_index as int)),
{
    let id = match msg.get_str("tool_call_id") {
        Some(id) => Some(id),
        None => msg.get_str("name"),
    };
    match id {
        Some(id) => {
            let content = match msg.get("content") {
                Some(content) => content.clone(),
                None => Json::text(""),
            };
            Ok(
                Json::Object(
                    Object::new().with("type", Json::text("tool_result")).with(
                        "tool_use_id",
                        Json::text(id),
                    ).with("content", content),
                ),
            )
        },
        None => Err(refuse_message(msg_index, "]: tool result message missing tool_call_id")),
    }
}

/// A conversation on its way from Chat Completions to Anthropic: the system texts,
/// the messages so far, and the tool results that wait for their message.
pub struct Conversation {
    pub system: Seq<Seq<char>>,
    pub out: Seq<Tree>,
    pub pending: Seq<Tree>,
}

impl Conversation {
    pub open spec fn start() -> Conversation {
        Conversation { system: Seq::empty(), out: Seq::empty(), pending: Seq::empty() }
    }

    /// The waiting tool results become one user message.
    pub open spec fn flushed(self) -> Conversation {
        if self.pending.len() == 0 {
            self
        } else {
            Conversation {
                system: self.system,
                out: self.out.push(message("user"@, self.pending)),
                pending: Seq::empty(),
            }
        }
    }
}

/// An Anthropic message.
pub open spec fn message(role: Seq<char>, content: Seq<Tree>) -> Tree {
    Tree::Obj(map!["role"@ => Tree::Str(role), "content"@ => Tree::Arr(content)])
}

/// Builds an Anthropic message.
pub fn make_message(role: &str, content: Vec<Json>) -> (r: Json)
    ensures
        r@ == message(role@, json::values_view(content@)),
{
    Json::Object(Object::new().with("role", Json::text(role)).with("content", Json::Array(content)))
}

/// The role of a Chat Completions message.
pub open spec fn role_of(msg: Tree) -> Seq<char> {
    json::str_or(msg, "role"@, "user"@)
}

/// The message answers a tool call.
pub open spec fn is_tool_message(msg: Tree) -> bool {
    role_of(msg) == "tool"@ || role_of(msg) == "function"@
}

/// The content blocks of an assistant message, its tool calls last.
pub open spec fn assistant_blocks(msg: Tree, i: int) -> Outcome<Seq<Tree>> {
    match blocks_of(msg.get("content"@), i) {
        Outcome::Done(blocks) => match msg.get("tool_calls"@) {
            Some(Tree::Arr(calls)) => Outcome::Done(
                blocks + calls.map_values(|call: Tree| tool_use_block(call)),
            ),
            _ => Outcome::Done(blocks),
        },
        Outcome::Refused(m) => Outcome::Refused(m),
    }
}

/// One message of a conversation.
pub open spec fn message_step() -> spec_fn(Conversation, int, Tree) -> Outcome<Conversation> {
    |c: Conversation, i: int, msg: Tree|
        {
            let role = role_of(msg);
            if is_tool_message(msg) {
                match result_block(msg, i) {
                    Outcome::Done(block) => Outcome::Done(
                        Conversation {
                            system: c.system,
                            out: c.out,
                            pending: c.pending.push(block),
                        },
                    ),
                    Outcome::Refused(m) => Outcome::Refused(m),
                }
            } else {
                let c = c.flushed();
                if role == "system"@ || role == "developer"@ {
                    let t = text_of(msg.get("content"@));
                    Outcome::Done(
                        Conversation {
                            system: if t.len() == 0 {
                                c.system
                            } else {
                                c.system.push(t)
                            },
                            out: c.out,
                            pending: c.pending,
                        },
                    )
                } else {
                    let (to, blocks) = if role == "assistant"@ {
                        ("assistant"@, assistant_blocks(msg, i))
                    } else {
                        ("user"@, blocks_of(msg.get("content"@), i))
                    };
                    match blocks {
                        Outcome::Done(blocks) => Outcome::Done(
                            Conversation {
                                system: c.system,
                                out: c.out.push(message(to, blocks)),
                                pending: c.pending,
                            },
                        ),
                        Outcome::Refused(m) => Outcome::Refused(m),
                    }
                }
            }
        }
}

/// A block that answers a tool call.
pub open spec fn is_tool_result(block: Tree) -> bool {
    json::str_in(block.get("type"@)) == Some("tool_result"@)
}

/// Anthropic would refuse these messages for want of an opening user turn: the
/// first one is not from the user, or it holds tool results alone.
pub open spec fn lacks_opening_turn(messages: Seq<Tree>) -> bool {
    messages.len() > 0 && (json::str_in(messages[0].get("role"@)) != Some("user"@) || (
    messages[0].get("content"@) matches Some(Tree::Arr(blocks)) && blocks.len() > 0 && forall|i: int|
        0 <= i < blocks.len() ==> is_tool_result(#[trigger] blocks[i])))
}

/// The synthetic user turn.
pub open spec fn opening_turn() -> Tree {
    message("user"@, seq![text_block("(continuing the conversation)"@)])
}

/// The messages, after a synthetic user turn where they lack one.
pub open spec fn opened(messages: Seq<Tree>) -> Seq<Tree> {
    if lacks_opening_turn(messages) {
        seq![opening_turn()] + messages
    } else {
        messages
    }
}

/// The system texts and the Anthropic messages of a conversation.
pub open spec fn conversation(messages: Seq<Tree>) -> Outcome<(Seq<Seq<char>>, Seq<Tree>)> {
    match steps::run(messages, Conversation::start(), message_step()) {
        Outcome::Done(c) => Outcome::Done((c.system, opened(c.flushed().out))),
        Outcome::Refused(m) => Outcome::Refused(m),
    }
}

/// Whether a synthetic leading user message must be inserted.
///
/// Anthropic requires the first message to be `user`, but that is not sufficient on
/// its own: a conversation that opens with a tool result (a resumed or compacted
/// session) produces a `user` message whose only blocks are `tool_result`s with no
/// preceding `tool_use` to answer, which upstream refuses.
pub fn needs_synthetic_leading_user(messages: &Vec<Json>) -> (r: bool)
    ensures
        r == lacks_opening_turn(json::values_view(messages@)),
{
    if messages.len() == 0 {
        return false;
    }
    let first = &messages[0];
    assert(json::values_view(messages@)[0] == first@);
    match first.get_str("role") {
        Some(role) => {
            if !str_eq(role, "user") {
                return true;
            }
        },
        None => {
            return true;
        },
    }
    match first.get("content") {
        Some(Json::Array(blocks)) => {
            let ghost items = json::values_view(blocks@);
            for i in 0..blocks.len()
                invariant
                    items == json::values_view(blocks@),
                    messages@.len() > 0,
                    json::str_in(json::values_view(messages@)[0].get("role"@)) == Some("user"@),
                    json::values_view(messages@)[0].get("content"@) == Some(Tree::Arr(items)),
                    forall|j: int| 0 <= j < i ==> is_tool_result(#[trigger] items[j]),
                ensures
                    forall|j: int| 0 <= j < items.len() ==> is_tool_result(#[trigger] items[j]),
            {
                assert(items[i as int] == blocks@[i as int]@);
                if !blocks[i].has_type("tool_result") {
                    assert(!is_tool_result(items[i as int]));
                    return false;
                }
            }
            blocks.len() > 0
        },
        _ => false,
    }
}

/// Two lists of documents one after the other.
pub proof fn lemma_values_view_add(a: Seq<Json>, b: Seq<Json>)
    ensures
        json::values_view(a + b) == json::values_view(a) + json::values_view(b),
{
    assert(json::values_view(a + b) =~= json::values_view(a) + json::values_view(b));
}

/// Turns the tool results that wait for their message, if any, into one user message.
pub fn flush_tool_results(out: &mut Vec<Json>, pending: &mut Vec<Json>)
    ensures
        ({
            let c = Conversation {
                system: Seq::empty(),
                out: json::values_view(old(out)@),
                pending: json::values_view(old(pending)@),
            }.flushed();
            json::values_view(final(out)@) == c.out && json::values_view(final(pending)@)
                == c.pending
        }),
{
    if pending.len() > 0 {
        let mut taken: Vec<Json> = no_blocks();
        std::mem::swap(&mut taken, pending);
        let ghost before = out@;
        out.push(make_message("user", taken));
        assert(json::values_view(out@) =~= json::values_view(before).push(out@.last()@));
    }
}

/// The blocks of an assistant or a user message, with the role it gets.
fn turn_blocks(msg: &Json, assistant: bool, msg_index: usize) -> (r: Result<
    Vec<Json>,
    TranslateError,
>)
    ensures
        same_list(
            r,
            if assistant {
                assistant_blocks(msg@, msg_index as int)
            } else {
                blocks_of(msg@.get("content"@), msg_index as int)
            },
        ),
{
    let mut blocks = match content_blocks(msg.get("content"), msg_index) {
        Ok(blocks) => blocks,
        Err(e) => {
            return Err(e);
        },
    };
    if assistant {
        if let Some(Json::Array(calls)) = msg.get("tool_calls") {
            let mut more = tool_use_blocks(calls);
            proof {
                lemma_values_view_add(blocks@, more@);
            }
            blocks.append(&mut more);
        }
    }
    Ok(blocks)
}

/// Translates the Chat Completions `messages` array into Anthropic `system`
/// texts plus an Anthropic `messages` array.
///
/// `system` and `developer` messages are extracted regardless of position.
/// Consecutive `tool` and `function` messages are merged into a single Anthropic
/// `user` message, since Anthropic requires every tool result answering one
/// assistant turn to arrive together. A leading synthetic user message is inserted
/// where the conversation would otherwise not open with a user turn.
pub fn convert_messages(messages: &Vec<Json>) -> (r: Result<
    (Vec<String>, Vec<Json>),
    TranslateError,
>)
    ensures
        match (r, conversation(json::values_view(messages@))) {
            (Ok((system, out)), Outcome::Done(c)) => text::texts(system@) == c.0
                && json::values_view(out@) == c.1,
            (Err(e), Outcome::Refused(m)) => e.refuses_with(m),
            _ => false,
        },
{
    let mut system: Vec<String> = Vec::new();
    let mut out: Vec<Json> = no_blocks();
    let mut pending: Vec<Json> = no_blocks();
    let ghost items = json::values_view(messages@);
    let ghost start = Conversation::start();
    let ghost step = message_step();
    assert(text::texts(system@) =~= Seq::empty());
    for i in 0..messages.len()
        invariant
            items == json::values_view(messages@),
            start == Conversation::start(),
            step == message_step(),
            steps::run(items.take(i as int), start, step) == Outcome::Done(
                Conversation {
                    system: text::texts(system@),
                    out: json::values_view(out@),
                    pending: json::values_view(pending@),
                },
            ),
    {
        proof {
            steps::lemma_run_step(items, start, step, i as int);
        }
        let msg = &messages[i];
        assert(items[i as int] == msg@);
        let role = msg.str_or("role", "user");
        if str_eq(role, "tool") || str_eq(role, "function") {
            let ghost before = pending@;
            match tool_result_block(msg, i) {
                Ok(block) => {
                    pending.push(block);
                    assert(json::values_view(pending@) =~= json::values_view(before).push(block@));
                },
                Err(e) => {
                    proof {
                        steps::lemma_run_refused(items, start, step, i + 1);
                    }
                    return Err(e);
                },
            }
        } else {
            flush_tool_results(&mut out, &mut pending);
            if str_eq(role, "system") || str_eq(role, "developer") {
                let text = extract_text(msg.get("content"));
                if !text.as_str().is_empty() {
                    let ghost before = system@;
                    system.push(text);
                    assert(text::texts(system@) =~= text::texts(before).push(text@));
                }
            } else {
                let assistant = str_eq(role, "assistant");
                match turn_blocks(msg, assistant, i) {
                    Ok(blocks) => {
                        let ghost before = out@;
                        let turn = make_message(
                            if assistant {
                                "assistant"
                            } else {
                                "user"
                            },
                            blocks,
                        );
                        out.push(turn);
                        assert(json::values_view(out@) =~= json::values_view(before).push(turn@));
                    },
                    Err(e) => {
                        proof {
                            steps::lemma_run_refused(items, start, step, i + 1);
                        }
                        return Err(e);
                    },
                }
            }
        }
    }
    assert(items.take(items.len() as int) =~= items);
    flush_tool_results(&mut out, &mut pending);
    if needs_synthetic_leading_user(&out) {
        let mut blocks: Vec<Json> = Vec::new();
        blocks.push(make_text_block("(continuing the conversation)"));
        assert(json::values_view(blocks@) =~= seq![text_block("(continuing the conversation)"@)]);
        let mut opened: Vec<Json> = Vec::new();
        opened.push(make_message("user", blocks));
        assert(json::values_view(opened@) =~= seq![opening_turn()]);
        proof {
            lemma_values_view_add(opened@, out@);
        }
        opened.append(&mut out);
        Ok((system, opened))
    } else {
        Ok((system, out))
    }
}

/// The request asks for this kind of log probabilities.
pub open spec fn asks_for(src: Tree, field: Seq<char>) -> bool {
    match src.get(field) {
        Some(Tree::Bool(b)) => b,
        Some(Tree::Int(_)) => true,
        Some(Tree::Float(_)) => true,
        _ => false,
    }
}

/// The message with which a request is refused that asks for what Anthropic
/// Messages cannot express.
pub open spec fn unsupported(src: Tree) -> Option<Seq<char>> {
    match src.get("n"@) {
        Some(Tree::Int(n)) if i64::MIN <= n <= i64::MAX && n != 1 => Some(
            "Unsupported parameter: n = "@ + text::signed_decimal(n)
                + ". Anthropic Messages returns a single completion; only n = 1 can be honoured."@,
        ),
        _ => if asks_for(src, "logprobs"@) {
            Some(no_log_probabilities("logprobs"@))
        } else if asks_for(src, "top_logprobs"@) {
            Some(no_log_probabilities("top_logprobs"@))
        } else {
            None
        },
    }
}

pub open spec fn no_log_probabilities(field: Seq<char>) -> Seq<char> {
    "Unsupported parameter: "@ + field
        + ". Anthropic Messages does not return token log probabilities."@
}

fn refuse_log_probabilities(src: &Json, field: &str) -> (r: Result<(), TranslateError>)
    ensures
        match r {
            Ok(_) => !asks_for(src@, field@),
            Err(e) => asks_for(src@, field@) && e.refuses_with(no_log_probabilities(field@)),
        },
{
    let requested = match src.get(field) {
        Some(Json::Bool(b)) => *b,
        Some(Json::Number(_)) => true,
        _ => false,
    };
    if requested {
        Err(
            TranslateError::invalid_request(
                concat3(
                    "Unsupported parameter: ",
                    field,
                    ". Anthropic Messages does not return token log probabilities.",
                ),
            ),
        )
    } else {
        Ok(())
    }
}

/// Refuses parameters Anthropic cannot express, so a client is told rather than
/// silently getting different behaviour than it asked for.
///
/// `presence_penalty`, `frequency_penalty`, `logit_bias`, `seed`, and `user` are
/// deliberately not refused: SDKs send them at default values routinely.
pub fn reject_unsupported(src: &Json) -> (r: Result<(), TranslateError>)
    ensures
        match (r, unsupported(src@)) {
            (Ok(_), None) => true,
            (Err(e), Some(m)) => e.refuses_with(m),
            _ => false,
        },
{
    if let Some(v) = src.get("n") {
        if let Some(n) = v.as_i64() {
            if n != 1 {
                return Err(
                    TranslateError::invalid_request(
                        concat3(
                            "Unsupported parameter: n = ",
                            int_text(n).as_str(),
                            ". Anthropic Messages returns a single completion; only n = 1 can be honoured.",
                        ),
                    ),
                );
            }
        }
    }
    match refuse_log_probabilities(src, "logprobs") {
        Ok(_) => refuse_log_probabilities(src, "top_logprobs"),
        Err(e) => Err(e),
    }
}

/// The schema of a tool without one.
pub open spec fn default_schema() -> Tree {
    Tree::Obj(map!["type"@ => Tree::Str("object"@), "properties"@ => Tree::Obj(Map::empty())])
}

/// The Anthropic definition of a tool.
pub open spec fn tool_entry(name: Seq<char>, definition: Tree) -> Tree {
    let entry = map![
        "name"@ => Tree::Str(name),
        "input_schema"@ => match definition.get("parameters"@) {
            Some(schema) => schema,
            None => default_schema(),
        },
    ];
    match definition.get("description"@) {
        Some(description) => Tree::Obj(entry.insert("description"@, description)),
        None => Tree::Obj(entry),
    }
}

/// Builds the Anthropic definition of a tool.
pub fn make_tool_entry(name: &str, definition: &Json) -> (r: Json)
    ensures
        r@ == tool_entry(name@, definition@),
{
    let schema = match definition.get("parameters") {
        Some(schema) => schema.clone(),
        None => Json::Object(
            Object::new().with("type", Json::text("object")).with(
                "properties",
                Json::Object(Object::new()),
            ),
        ),
    };
    let entry = Object::new().with("name", Json::text(name)).with("input_schema", schema);
    match definition.get("description") {
        Some(description) => Json::Object(entry.with("description", description.clone())),
        None => Json::Object(entry),
    }
}

/// One entry of `tools`.
pub open spec fn tool_step() -> spec_fn(Seq<Tree>, int, Tree) -> Outcome<Seq<Tree>> {
    |tools: Seq<Tree>, i: int, tool: Tree|
        match tool.get("function"@) {
            Some(function) => match json::str_in(function.get("name"@)) {
                Some(name) => Outcome::Done(tools.push(tool_entry(name, function))),
                None => Outcome::Refused("tools[].function: missing name"@),
            },
            None => Outcome::Refused("tools[]: entry missing 'function'"@),
        }
}

/// The Anthropic tool definitions of a request.
pub open spec fn tools_of(tools: Option<Tree>) -> Outcome<Seq<Tree>> {
    match tools {
        Some(Tree::Arr(items)) => steps::run(items, Seq::empty(), tool_step()),
        _ => Outcome::Done(Seq::empty()),
    }
}

/// Translates `tools[].function` entries into Anthropic tool definitions.
pub fn convert_tools(tools: Option<&Json>) -> (r: Result<Vec<Json>, TranslateError>)
    ensures
        same_list(r, tools_of(json::view_opt(tools))),
{
    let mut out: Vec<Json> = no_blocks();
    match tools {
        Some(Json::Array(entries)) => {
            let ghost items = json::values_view(entries@);
            for i in 0..entries.len()
                invariant
                    items == json::values_view(entries@),
                    steps::run(items.take(i as int), Seq::empty(), tool_step()) == Outcome::Done(
                        json::values_view(out@),
                    ),
                    tools_of(json::view_opt(tools)) == steps::run(items, Seq::empty(), tool_step()),
            {
                proof {
                    steps::lemma_run_step(items, Seq::empty(), tool_step(), i as int);
                    if steps::run(items.take(i + 1), Seq::empty(), tool_step()) is Refused {
                        steps::lemma_run_refused(items, Seq::empty(), tool_step(), i + 1);
                    }
                }
                let ghost before = out@;
                match entries[i].get("function") {
                    Some(function) => match function.get_str("name") {
                        Some(name) => {
                            let entry = make_tool_entry(name, function);
                            out.push(entry);
                            assert(json::values_view(out@) =~= json::values_view(before).push(
                                entry@,
                            ));
                        },
                        None => {
                            return Err(
                                TranslateError::invalid_request(
                                    "tools[].function: missing name".to_owned(),
                                ),
                            );
                        },
                    },
                    None => {
                        return Err(
                            TranslateError::invalid_request(
                                "tools[]: entry missing 'function'".to_owned(),
                            ),
                        );
                    },
                }
            }
            assert(items.take(items.len() as int) =~= items);
        },
        _ => {},
    }
    Ok(out)
}

/// An object with a `type` alone.
pub open spec fn typed(kind: Seq<char>) -> Tree {
    Tree::Obj(map!["type"@ => Tree::Str(kind)])
}

/// Builds an object with a `type` alone.
pub fn make_typed(kind: &str) -> (r: Json)
    ensures
        r@ == typed(kind@),
{
    Json::Object(Object::new().with("type", Json::text(kind)))
}

/// The choice that forces one tool.
pub open spec fn forced_tool(name: Seq<char>) -> Tree {
    Tree::Obj(map!["type"@ => Tree::Str("tool"@), "name"@ => Tree::Str(name)])
}

/// Builds the choice that forces one tool.
pub fn make_forced_tool(name: &str) -> (r: Json)
    ensures
        r@ == forced_tool(name@),
{
    Json::Object(Object::new().with("type", Json::text("tool")).with("name", Json::text(name)))
}

/// A choice that may be absent or a refusal is what the model says.
pub open spec fn same_choice(
    r: Result<Option<Json>, TranslateError>,
    o: Outcome<Option<Tree>>,
) -> bool {
    match (r, o) {
        (Ok(v), Outcome::Done(t)) => json::view_owned(v) == t,
        (Err(e), Outcome::Refused(m)) => e.refuses_with(m),
        _ => false,
    }
}

/// The Anthropic `tool_choice` of a request, `name_of` being the name that the
/// object form gives.
pub open spec fn choice_of(
    choice: Option<Tree>,
    name_of: Option<Seq<char>>,
    bad_object: Seq<char>,
) -> Outcome<Option<Tree>> {
    match choice {
        None => Outcome::Done(None),
        Some(Tree::Null) => Outcome::Done(None),
        Some(Tree::Str(s)) => if s == "auto"@ {
            Outcome::Done(Some(typed("auto"@)))
        } else if s == "none"@ {
            Outcome::Done(Some(typed("none"@)))
        } else if s == "required"@ {
            Outcome::Done(Some(typed("any"@)))
        } else {
            Outcome::Refused("tool_choice: unsupported value '"@ + s + "'"@)
        },
        Some(Tree::Obj(m)) => match name_of {
            Some(name) => Outcome::Done(Some(forced_tool(name))),
            None => Outcome::Refused(bad_object),
        },
        Some(other) => Outcome::Refused(
            "tool_choice: unsupported value "@ + json::json_text(other),
        ),
    }
}

/// The Anthropic `tool_choice` of a Chat Completions request.
pub open spec fn chat_choice(choice: Option<Tree>) -> Outcome<Option<Tree>> {
    choice_of(
        choice,
        json::str_in(json::get_in(json::get_in(choice, "function"@), "name"@)),
        "tool_choice: object form must be {\"type\":\"function\",\"function\":{\"name\":...}}"@,
    )
}

/// Translates a `tool_choice` whose object form gives `name_of`.
pub fn convert_choice(choice: Option<&Json>, name_of: Option<&str>, bad_object: &str) -> (r: Result<
    Option<Json>,
    TranslateError,
>)
    ensures
        same_choice(r, choice_of(json::view_opt(choice), json::str_opt(name_of), bad_object@)),
{
    match choice {
        None => Ok(None),
        Some(Json::Null) => Ok(None),
        Some(Json::String(s)) => {
            if str_eq(s.as_str(), "auto") {
                Ok(Some(make_typed("auto")))
            } else if str_eq(s.as_str(), "none") {
                Ok(Some(make_typed("none")))
            } else if str_eq(s.as_str(), "required") {
                Ok(Some(make_typed("any")))
            } else {
                Err(
                    TranslateError::invalid_request(
                        concat3("tool_choice: unsupported value '", s.as_str(), "'"),
                    ),
                )
            }
        },
        Some(Json::Object(_)) => match name_of {
            Some(name) => Ok(Some(make_forced_tool(name))),
            None => Err(TranslateError::invalid_request(bad_object.to_owned())),
        },
        Some(other) => Err(
            TranslateError::invalid_request(
                concat2("tool_choice: unsupported value ", other.to_text().as_str()),
            ),
        ),
    }
}

/// Translates `tool_choice` into Anthropic's `tool_choice` shape.
///
/// `"none"` is passed through as `{"type":"none"}` rather than dropped: the
/// caller still keeps the tool definitions so a later turn in the same
/// conversation can use them, only this turn is forced not to.
pub fn convert_tool_choice(tool_choice: Option<&Json>) -> (r: Result<Option<Json>, TranslateError>)
    ensures
        same_choice(r, chat_choice(json::view_opt(tool_choice))),
{
    let name = match tool_choice {
        Some(choice) => match choice.get("function") {
            Some(function) => function.get_str("name"),
            None => None,
        },
        None => None,
    };
    convert_choice(
        tool_choice,
        name,
        "tool_choice: object form must be {\"type\":\"function\",\"function\":{\"name\":...}}",
    )
}

/// Tools, tool choice and system texts after the response format, with the name of
/// the synthetic tool where one was made.
pub struct Formatted {
    pub tools: Seq<Tree>,
    pub choice: Option<Tree>,
    pub system: Seq<Seq<char>>,
    pub schema_tool: Option<Seq<char>>,
}

/// What `response_format` makes of the tools, the tool choice and the system texts.
pub open spec fn formatted(
    format: Option<Tree>,
    tools: Seq<Tree>,
    choice: Option<Tree>,
    system: Seq<Seq<char>>,
) -> Outcome<Formatted> {
    let same = Formatted { tools, choice, system, schema_tool: None };
    match json::str_in(json::get_in(format, "type"@)) {
        None => Outcome::Done(same),
        Some(kind) => if kind == "json_object"@ {
            Outcome::Done(
                Formatted {
                    tools,
                    choice,
                    system: system.push(JSON_OBJECT_INSTRUCTION@),
                    schema_tool: None,
                },
            )
        } else if kind == "json_schema"@ {
            if tools.len() > 0 {
                Outcome::Refused(
                    "response_format: 'json_schema' cannot be combined with the request's own 'tools' — the relay cannot tell the resulting tool call apart from a real one"@,
                )
            } else {
                match json::get_in(format, "json_schema"@) {
                    None => Outcome::Refused("response_format: missing json_schema"@),
                    Some(wanted) => {
                        let name = json::str_or(wanted, "name"@, "structured_output"@);
                        let schema = match wanted.get("schema"@) {
                            Some(schema) => schema,
                            None => typed("object"@),
                        };
                        Outcome::Done(
                            Formatted {
                                tools: tools.push(
                                    Tree::Obj(
                                        map![
                                            "name"@ => Tree::Str(name),
                                            "input_schema"@ => schema,
                                        ],
                                    ),
                                ),
                                choice: Some(forced_tool(name)),
                                system,
                                schema_tool: Some(name),
                            },
                        )
                    },
                }
            }
        } else if kind == "text"@ {
            Outcome::Done(same)
        } else {
            Outcome::Refused("response_format: unsupported type '"@ + kind + "'"@)
        },
    }
}

/// The characters of a text that may be absent.
pub open spec fn text_opt(s: Option<String>) -> Option<Seq<char>> {
    match s {
        Some(s) => Some(s@),
        None => None,
    }
}

/// Applies `response_format` by either appending a system instruction
/// (`json_object`) or forcing a synthetic tool call (`json_schema`).
///
/// Returns the synthetic tool's name when one was created, so the response
/// translator can unwrap its `tool_use.input` back into `message.content`. A
/// refused format leaves everything as it was.
pub fn apply_response_format(
    response_format: Option<&Json>,
    tools: &mut Vec<Json>,
    tool_choice: &mut Option<Json>,
    system_parts: &mut Vec<String>,
) -> (r: Result<Option<String>, TranslateError>)
    ensures
        match (
            r,
            formatted(
                json::view_opt(response_format),
                json::values_view(old(tools)@),
                json::view_owned(*old(tool_choice)),
                text::texts(old(system_parts)@),
            ),
        ) {
            (Ok(name), Outcome::Done(f)) => {
                &&& json::values_view(final(tools)@) == f.tools
                &&& json::view_owned(*final(tool_choice)) == f.choice
                &&& text::texts(final(system_parts)@) == f.system
                &&& text_opt(name) == f.schema_tool
            },
            (Err(e), Outcome::Refused(m)) => e.refuses_with(m) && final(tools)@ == old(tools)@
                && *final(tool_choice) == *old(tool_choice) && final(system_parts)@ == old(
                system_parts,
            )@,
            _ => false,
        },
{
    let format = match response_format {
        Some(format) => format,
        None => {
            return Ok(None);
        },
    };
    let kind = match format.get_str("type") {
        Some(kind) => kind,
        None => {
            return Ok(None);
        },
    };
    if str_eq(kind, "json_object") {
        system_parts.push(JSON_OBJECT_INSTRUCTION.to_owned());
        assert(text::texts(system_parts@) =~= text::texts(old(system_parts)@).push(
            JSON_OBJECT_INSTRUCTION@,
        ));
        Ok(None)
    } else if str_eq(kind, "json_schema") {
        if tools.len() > 0 {
            return Err(
                TranslateError::invalid_request(
                    "response_format: 'json_schema' cannot be combined with the request's own 'tools' — the relay cannot tell the resulting tool call apart from a real one".to_owned(),
                ),
            );
        }
        let wanted = match format.get("json_schema") {
            Some(wanted) => wanted,
            None => {
                return Err(
                    TranslateError::invalid_request("response_format: missing json_schema".to_owned()),
                );
            },
        };
        let name = wanted.str_or("name", "structured_output").to_owned();
        let schema = match wanted.get("schema") {
            Some(schema) => schema.clone(),
            None => make_typed("object"),
        };
        let entry = Json::Object(
            Object::new().with("name", Json::text(name.as_str())).with("input_schema", schema),
        );
        tools.push(entry);
        assert(json::values_view(tools@) =~= json::values_view(old(tools)@).push(entry@));
        *tool_choice = Some(make_forced_tool(name.as_str()));
        Ok(Some(name))
    } else if str_eq(kind, "text") {
        Ok(None)
    } else {
        Err(
            TranslateError::invalid_request(
                concat3("response_format: unsupported type '", kind, "'"),
            ),
        )
    }
}

/// The Anthropic body of a request whose parts have been translated.
pub open spec fn assembled(src: Tree, model: Seq<char>, messages: Seq<Tree>, f: Formatted) -> Tree {
    let out = translate::with_sampling(
        map![
            "model"@ => Tree::Str(model),
            "messages"@ => Tree::Arr(messages),
            "max_tokens"@ => Tree::Int(
                translate::max_tokens_of(
                    src.get("max_completion_tokens"@),
                    src.get("max_tokens"@),
                ) as int,
            ),
        ],
        src,
    );
    let out = if f.system.len() > 0 {
        out.insert("system"@, Tree::Str(text::joined(f.system, "\n\n"@)))
    } else {
        out
    };
    let out = if f.tools.len() > 0 {
        out.insert("tools"@, Tree::Arr(f.tools))
    } else {
        out
    };
    match f.choice {
        Some(choice) => Tree::Obj(out.insert("tool_choice"@, choice)),
        None => Tree::Obj(out),
    }
}

/// The Anthropic body of a Chat Completions request, with the name of the synthetic
/// tool where one was made. The first field that cannot be translated refuses the
/// request.
pub open spec fn request(src: Tree) -> Outcome<(Tree, Option<Seq<char>>)> {
    match json::str_in(src.get("model"@)) {
        None => Outcome::Refused("Missing required field: model"@),
        Some(model) => match unsupported(src) {
            Some(m) => Outcome::Refused(m),
            None => match src.get("messages"@) {
                Some(Tree::Arr(messages)) => match conversation(messages) {
                    Outcome::Refused(m) => Outcome::Refused(m),
                    Outcome::Done(c) => match tools_of(src.get("tools"@)) {
                        Outcome::Refused(m) => Outcome::Refused(m),
                        Outcome::Done(tools) => match chat_choice(src.get("tool_choice"@)) {
                            Outcome::Refused(m) => Outcome::Refused(m),
                            Outcome::Done(choice) => match formatted(
                                src.get("response_format"@),
                                tools,
                                choice,
                                c.0,
                            ) {
                                Outcome::Refused(m) => Outcome::Refused(m),
                                Outcome::Done(f) => Outcome::Done(
                                    (assembled(src, model, c.1, f), f.schema_tool),
                                ),
                            },
                        },
                    },
                },
                _ => Outcome::Refused("Missing required field: messages"@),
            },
        },
    }
}

/// Translates a Chat Completions request into an Anthropic Messages request.
///
/// Returns the Anthropic body plus the name of the synthetic tool created for a
/// `json_schema` response format, which the response translator needs in order
/// to unwrap that tool's arguments back into message content.
pub fn request_to_anthropic(src: &Json) -> (r: Result<(Json, Option<String>), TranslateError>)
    ensures
        match (r, request(src@)) {
            (Ok((out, tool)), Outcome::Done(o)) => out@ == o.0 && text_opt(tool) == o.1,
            (Err(e), Outcome::Refused(m)) => e.refuses_with(m),
            _ => false,
        },
{
    let model = match src.get_str("model") {
        Some(model) => model,
        None => {
            return Err(TranslateError::invalid_request("Missing required field: model".to_owned()));
        },
    };
    match reject_unsupported(src) {
        Ok(_) => {},
        Err(e) => {
            return Err(e);
        },
    }
    let messages = match src.get("messages") {
        Some(Json::Array(messages)) => messages,
        _ => {
            return Err(
                TranslateError::invalid_request("Missing required field: messages".to_owned()),
            );
        },
    };
    let (mut system_parts, anthropic_messages) = match convert_messages(messages) {
        Ok(converted) => converted,
        Err(e) => {
            return Err(e);
        },
    };
    let max_tokens: i64 = resolve_max_tokens(
        src.get("max_completion_tokens"),
        src.get("max_tokens"),
    );
    let mut out = Object::new().with("model", Json::text(model)).with(
        "messages",
        Json::Array(anthropic_messages),
    ).with("max_tokens", Json::from_i64(max_tokens));
    apply_common_sampling(&mut out, src);
    let mut tools = match convert_tools(src.get("tools")) {
        Ok(tools) => tools,
        Err(e) => {
            return Err(e);
        },
    };
    let mut tool_choice = match convert_tool_choice(src.get("tool_choice")) {
        Ok(choice) => choice,
        Err(e) => {
            return Err(e);
        },
    };
    let json_schema_tool = match apply_response_format(
        src.get("response_format"),
        &mut tools,
        &mut tool_choice,
        &mut system_parts,
    ) {
        Ok(name) => name,
        Err(e) => {
            return Err(e);
        },
    };
    if system_parts.len() > 0 {
        out.insert("system".to_owned(), Json::String(join(&system_parts, "\n\n")));
    }
    if tools.len() > 0 {
        out.insert("tools".to_owned(), Json::Array(tools));
    }
    if let Some(choice) = tool_choice {
        out.insert("tool_choice".to_owned(), choice);
    }
    Ok((Json::Object(out), json_schema_tool))
}

/// The Chat Completions `finish_reason` of an Anthropic `stop_reason`.
pub open spec fn finish_reason_of(stop_reason: Option<Seq<char>>) -> Seq<char> {
    match stop_reason {
        Some(s) => if s == "max_tokens"@ {
            "length"@
        } else if s == "tool_use"@ {
            "tool_calls"@
        } else {
            "stop"@
        },
        None => "stop"@,
    }
}

/// Maps an Anthropic `stop_reason` to a Chat Completions `finish_reason`. Every
/// reason but `max_tokens` and `tool_use` is `stop`.
///
/// Shared by the non-streaming and streaming translators so the two paths can
/// never disagree on this table.
pub fn map_stop_reason(stop_reason: Option<&str>) -> (r: &'static str)
    ensures
        r@ == finish_reason_of(json::str_opt(stop_reason)),
{
    match stop_reason {
        Some(s) => {
            if str_eq(s, "max_tokens") {
                "length"
            } else if str_eq(s, "tool_use") {
                "tool_calls"
            } else {
                "stop"
            }
        },
        None => "stop",
    }
}

/// The Chat Completions `usage` of these token counts. The total wraps around at the
/// ends of the 64-bit range.
pub open spec fn chat_usage(input: i64, output: i64, cached: Option<i64>) -> Tree {
    let out = map![
        "prompt_tokens"@ => Tree::Int(input as int),
        "completion_tokens"@ => Tree::Int(output as int),
        "total_tokens"@ => Tree::Int(input.wrapping_add(output) as int),
    ];
    match cached {
        Some(n) => Tree::Obj(
            out.insert(
                "prompt_tokens_details"@,
                Tree::Obj(map!["cached_tokens"@ => Tree::Int(n as int)]),
            ),
        ),
        None => Tree::Obj(out),
    }
}

/// Builds a Chat Completions `usage` object.
pub fn make_chat_usage(input: i64, output: i64, cached: Option<i64>) -> (r: Json)
    ensures
        r@ == chat_usage(input, output, cached),
{
    let out = Object::new().with("prompt_tokens", Json::from_i64(input)).with(
        "completion_tokens",
        Json::from_i64(output),
    ).with("total_tokens", Json::from_i64(input.wrapping_add(output)));
    match cached {
        Some(n) => Json::Object(
            out.with(
                "prompt_tokens_details",
                Json::Object(Object::new().with("cached_tokens", Json::from_i64(n))),
            ),
        ),
        None => Json::Object(out),
    }
}

/// The Chat Completions `usage` of an Anthropic `usage`.
pub open spec fn usage_of(usage: Option<Tree>) -> Tree {
    chat_usage(
        json::int_or_zero(usage, "input_tokens"@),
        json::int_or_zero(usage, "output_tokens"@),
        json::int_in(usage, "cache_read_input_tokens"@),
    )
}

/// Builds a Chat Completions `usage` object from an Anthropic `usage` object.
pub fn build_usage(usage: Option<&Json>) -> (r: Json)
    ensures
        r@ == usage_of(json::view_opt(usage)),
{
    make_chat_usage(
        opt_int_or_zero(usage, "input_tokens"),
        opt_int_or_zero(usage, "output_tokens"),
        opt_int(usage, "cache_read_input_tokens"),
    )
}

/// What the content blocks of an Anthropic response hold.
pub struct Reply {
    pub texts: Seq<Seq<char>>,
    pub calls: Seq<Tree>,
    pub schema: Option<Seq<char>>,
}

impl Reply {
    pub open spec fn start() -> Reply {
        Reply { texts: Seq::empty(), calls: Seq::empty(), schema: None }
    }
}

/// The Chat Completions tool call of a `tool_use` block.
pub open spec fn tool_call(block: Tree) -> Tree {
    Tree::Obj(
        map![
            "id"@ => Tree::Str(json::str_or(block, "id"@, ""@)),
            "type"@ => Tree::Str("function"@),
            "function"@ => Tree::Obj(
                map![
                    "name"@ => Tree::Str(json::str_or(block, "name"@, ""@)),
                    "arguments"@ => Tree::Str(
                        translate::arguments_of_input(block.get("input"@)),
                    ),
                ],
            ),
        ],
    )
}

/// One content block of a response.
pub open spec fn reply_step(schema_tool: Option<Seq<char>>) -> spec_fn(Reply, Tree) -> Reply {
    |reply: Reply, block: Tree|
        {
            let kind = json::str_in(block.get("type"@));
            if kind == Some("text"@) {
                match json::str_in(block.get("text"@)) {
                    Some(s) => Reply {
                        texts: reply.texts.push(s),
                        calls: reply.calls,
                        schema: reply.schema,
                    },
                    None => reply,
                }
            } else if kind == Some("tool_use"@) {
                if schema_tool == Some(json::str_or(block, "name"@, ""@)) {
                    Reply {
                        texts: reply.texts,
                        calls: reply.calls,
                        schema: Some(
                            json::json_text(
                                match block.get("input"@) {
                                    Some(input) => input,
                                    None => Tree::Obj(Map::empty()),
                                },
                            ),
                        ),
                    }
                } else {
                    Reply {
                        texts: reply.texts,
                        calls: reply.calls.push(tool_call(block)),
                        schema: reply.schema,
                    }
                }
            } else {
                reply
            }
        }
}

/// What the content blocks of an Anthropic response hold.
pub open spec fn reply_of(anthropic: Tree, schema_tool: Option<Seq<char>>) -> Reply {
    match anthropic.get("content"@) {
        Some(Tree::Arr(blocks)) => steps::gather(blocks, Reply::start(), reply_step(schema_tool)),
        _ => Reply::start(),
    }
}

/// The assistant message of a response. The arguments of the synthetic tool are its
/// content; where there are tool calls, the content is the text beside them, if any.
pub open spec fn reply_message(reply: Reply) -> Tree {
    let head = map!["role"@ => Tree::Str("assistant"@)];
    let said = text::joined(reply.texts, ""@);
    match reply.schema {
        Some(s) => Tree::Obj(head.insert("content"@, Tree::Str(s))),
        None => if reply.calls.len() > 0 {
            Tree::Obj(
                head.insert(
                    "content"@,
                    if reply.texts.len() == 0 {
                        Tree::Null
                    } else {
                        Tree::Str(said)
                    },
                ).insert("tool_calls"@, Tree::Arr(reply.calls)),
            )
        } else {
            Tree::Obj(head.insert("content"@, Tree::Str(said)))
        },
    }
}

/// The model that a response names: the one that the client asked for, where it
/// asked for one.
pub open spec fn echoed_model(anthropic: Tree, client_model: Option<Seq<char>>) -> Seq<char> {
    match client_model {
        Some(model) => model,
        None => json::str_or(anthropic, "model"@, ""@),
    }
}

/// The Chat Completions response of an Anthropic response.
pub open spec fn response(
    anthropic: Tree,
    schema_tool: Option<Seq<char>>,
    client_model: Option<Seq<char>>,
) -> Tree {
    let reply = reply_of(anthropic, schema_tool);
    Tree::Obj(
        map![
            "id"@ => Tree::Str(json::str_or(anthropic, "id"@, ""@)),
            "object"@ => Tree::Str("chat.completion"@),
            "model"@ => Tree::Str(echoed_model(anthropic, client_model)),
            "choices"@ => Tree::Arr(
                seq![
                    Tree::Obj(
                        map![
                            "index"@ => Tree::Int(0),
                            "message"@ => reply_message(reply),
                            "finish_reason"@ => Tree::Str(
                                if reply.schema is Some {
                                    "stop"@
                                } else {
                                    finish_reason_of(json::str_in(anthropic.get("stop_reason"@)))
                                },
                            ),
                        ],
                    ),
                ],
            ),
            "usage"@ => usage_of(anthropic.get("usage"@)),
        ],
    )
}

fn make_tool_call(block: &Json) -> (r: Json)
    ensures
        r@ == tool_call(block@),
{
    let arguments = tool_arguments_from_input(block.get("input"));
    let function = Object::new().with("name", Json::text(block.str_or("name", ""))).with(
        "arguments",
        Json::String(arguments),
    );
    Json::Object(
        Object::new().with("id", Json::text(block.str_or("id", ""))).with(
            "type",
            Json::text("function"),
        ).with("function", Json::Object(function)),
    )
}

fn make_reply_message(texts: &Vec<String>, calls: Vec<Json>, schema: Option<String>) -> (r: Json)
    ensures
        r@ == reply_message(
            Reply {
                texts: text::texts(texts@),
                calls: json::values_view(calls@),
                schema: text_opt(schema),
            },
        ),
{
    let head = Object::new().with("role", Json::text("assistant"));
    match schema {
        Some(s) => Json::Object(head.with("content", Json::String(s))),
        None => {
            if calls.len() > 0 {
                let content = if texts.len() == 0 {
                    Json::Null
                } else {
                    Json::String(join(texts, ""))
                };
                Json::Object(head.with("content", content).with("tool_calls", Json::Array(calls)))
            } else {
                Json::Object(head.with("content", Json::String(join(texts, ""))))
            }
        },
    }
}

/// Translates a non-streaming Anthropic Messages response into a Chat
/// Completions response.
///
/// `json_schema_tool`, when set, names the synthetic tool `request_to_anthropic`
/// forced for a `json_schema` response format; a matching `tool_use` block is
/// unwrapped back into `message.content` as a JSON string instead of being
/// exposed as a tool call. That is a successful structured completion, not a
/// tool-use turn, so it always reports `stop`.
///
/// `client_model`, when set, is echoed as the response `model` in place of the
/// upstream's own name, so a per-server model mapping stays invisible to a
/// client that asserts on getting back the model it asked for.
pub fn anthropic_to_response(
    anthropic: &Json,
    json_schema_tool: Option<&str>,
    client_model: Option<&str>,
) -> (r: Json)
    ensures
        r@ == response(anthropic@, json::str_opt(json_schema_tool), json::str_opt(client_model)),
{
    let mut texts: Vec<String> = Vec::new();
    let mut calls: Vec<Json> = no_blocks();
    let mut schema: Option<String> = None;
    let ghost tool = json::str_opt(json_schema_tool);
    assert(text::texts(texts@) =~= Seq::empty());
    if let Some(Json::Array(blocks)) = anthropic.get("content") {
        let ghost items = json::values_view(blocks@);
        for i in 0..blocks.len()
            invariant
                items == json::values_view(blocks@),
                tool == json::str_opt(json_schema_tool),
                steps::gather(items.take(i as int), Reply::start(), reply_step(tool)) == (Reply {
                    texts: text::texts(texts@),
                    calls: json::values_view(calls@),
                    schema: text_opt(schema),
                }),
        {
            proof {
                steps::lemma_gather_step(items, Reply::start(), reply_step(tool), i as int);
            }
            let block = &blocks[i];
            if block.has_type("text") {
                if let Some(s) = block.get_str("text") {
                    let ghost before = texts@;
                    texts.push(s.to_owned());
                    assert(text::texts(texts@) =~= text::texts(before).push(s@));
                }
            } else if block.has_type("tool_use") {
                let name = block.str_or("name", "");
                let is_schema = match json_schema_tool {
                    Some(wanted) => str_eq(wanted, name),
                    None => false,
                };
                if is_schema {
                    schema = Some(
                        match block.get("input") {
                            Some(input) => input.to_text(),
                            None => Json::Object(Object::new()).to_text(),
                        },
                    );
                } else {
                    let ghost before = calls@;
                    let call = make_tool_call(block);
                    calls.push(call);
                    assert(json::values_view(calls@) =~= json::values_view(before).push(call@));
                }
            }
        }
        assert(items.take(items.len() as int) =~= items);
    }
    let finish_reason = if schema.is_some() {
        "stop"
    } else {
        map_stop_reason(anthropic.get_str("stop_reason"))
    };
    let model = match client_model {
        Some(model) => model,
        None => anthropic.str_or("model", ""),
    };
    let message = make_reply_message(&texts, calls, schema);
    let choice = Object::new().with("index", Json::from_i64(0)).with("message", message).with(
        "finish_reason",
        Json::text(finish_reason),
    );
    let mut choices: Vec<Json> = Vec::new();
    choices.push(Json::Object(choice));
    assert(json::values_view(choices@) =~= seq![choices@[0]@]);
    Json::Object(
        Object::new().with("id", Json::text(anthropic.str_or("id", ""))).with(
            "object",
            Json::text("chat.completion"),
        ).with("model", Json::text(model)).with("choices", Json::Array(choices)).with(
            "usage",
            build_usage(anthropic.get("usage")),
        ),
    )
}

/// Translates an upstream Anthropic error body into a Chat Completions error
/// body.
pub fn anthropic_error_to_response(body: &[u8]) -> (r: Json)
    ensures
        r@ == translate::envelope(
            translate::ClientProtocol::ChatCompletions,
            translate::upstream_error_type(body@),
            translate::upstream_error_message(body@),
        ),
{
    let message = translate::anthropic_error_message(body);
    let error_type = translate::anthropic_error_type(body);
    translate::error_envelope(
        translate::ClientProtocol::ChatCompletions,
        error_type.as_str(),
        message.as_str(),
    )
}

} // verus!
