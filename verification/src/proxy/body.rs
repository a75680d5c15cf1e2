//! Request bodies: what is read from them, and what is changed before they are sent
//! upstream. Bodies are Anthropic-shaped here: an OpenAI-origin request has been
//! translated before.

use vstd::prelude::*;
use vstd::string::*;

use crate::json;
use crate::json::{Json, Object, Parsed, Tree};
use crate::proxy::body_laws;
use crate::text;
use crate::text::{append_text, concat3, contains, decode, join, str_eq, to_lowercase};
use crate::translate::chat;
use crate::translate::chat::no_blocks;
use crate::translate::steps;

verus! {

/// The paths whose requests are billed.
pub open spec fn is_billing_path(path: Seq<char>) -> bool {
    path == "/v1/messages"@ || path == "/v1/chat/completions"@ || path == "/v1/responses"@
}

pub fn is_billing_endpoint(path: &str) -> (r: bool)
    ensures
        r == is_billing_path(path@),
{
    str_eq(path, "/v1/messages") || str_eq(path, "/v1/chat/completions") || str_eq(
        path,
        "/v1/responses",
    )
}

/// The request asks for a stream.
pub open spec fn asks_stream(doc: Tree) -> bool {
    doc.get("stream"@) == Some(Tree::Bool(true))
}

/// Whether a request document asks for a stream.
pub fn stream_in(doc: &Json) -> (r: bool)
    ensures
        r == asks_stream(doc@),
{
    match doc.get("stream") {
        Some(v) => match v.as_bool() {
            Some(b) => b,
            None => false,
        },
        None => false,
    }
}

/// Whether the client asked for an SSE stream. Both Anthropic and OpenAI use a
/// top-level boolean `stream`, and both default to non-streaming when it is absent.
/// Anything that is not literally `true` counts as non-streaming.
pub fn client_wants_stream(body: &[u8]) -> (r: bool)
    ensures
        r == (match json::parsed(body@) {
            Parsed::Doc(doc) => asks_stream(doc),
            Parsed::Malformed(_) => false,
        }),
{
    match Json::from_slice(body) {
        Ok(doc) => stream_in(&doc),
        Err(_) => false,
    }
}

/// Extracts the `model` field from the request body (before any mapping).
pub fn extract_request_model(body: &[u8]) -> (r: Option<String>)
    ensures
        chat::text_opt(r) == (match json::parsed(body@) {
            Parsed::Doc(doc) => json::str_in(doc.get("model"@)),
            Parsed::Malformed(_) => None,
        }),
{
    match Json::from_slice(body) {
        Ok(doc) => match doc.get_str("model") {
            Some(model) => Some(model.to_owned()),
            None => None,
        },
        Err(_) => None,
    }
}

/// Which content blocks of which messages are taken out.
#[derive(Debug, Clone, Copy, PartialEq, Eq, Structural)]
pub enum BlockRule {
    /// Thinking blocks of assistant messages.
    Thinking,
    /// Thinking blocks of assistant messages whose signature is missing or empty.
    UnsignedThinking,
    /// Text blocks without text.
    EmptyText,
    /// Image blocks.
    Image,
}

/// The rule is for this message.
pub open spec fn rule_covers(rule: BlockRule, msg: Tree) -> bool {
    match rule {
        BlockRule::Thinking => json::str_in(msg.get("role"@)) == Some("assistant"@),
        BlockRule::UnsignedThinking => json::str_in(msg.get("role"@)) == Some("assistant"@),
        BlockRule::EmptyText => true,
        BlockRule::Image => true,
    }
}

/// The rule takes this block out.
pub open spec fn rule_drops(rule: BlockRule, block: Tree) -> bool {
    let kind = json::str_in(block.get("type"@));
    match rule {
        BlockRule::Thinking => kind == Some("thinking"@),
        BlockRule::UnsignedThinking => kind == Some("thinking"@) && json::str_or(
            block,
            "signature"@,
            ""@,
        ).len() == 0,
        BlockRule::EmptyText => kind == Some("text"@) && json::str_or(block, "text"@, ""@).len()
            == 0,
        BlockRule::Image => kind == Some("image"@),
    }
}

/// The blocks that the rule leaves.
pub open spec fn kept_blocks(rule: BlockRule, blocks: Seq<Tree>) -> Seq<Tree>
    decreases blocks.len(),
{
    if blocks.len() == 0 {
        Seq::empty()
    } else {
        let rest = kept_blocks(rule, blocks.drop_last());
        if rule_drops(rule, blocks.last()) {
            rest
        } else {
            rest.push(blocks.last())
        }
    }
}

/// A message without the blocks that the rule takes out.
pub open spec fn kept_message(rule: BlockRule, msg: Tree) -> Tree {
    match (msg, msg.get("content"@)) {
        (Tree::Obj(m), Some(Tree::Arr(blocks))) => if rule_covers(rule, msg) {
            Tree::Obj(m.insert("content"@, Tree::Arr(kept_blocks(rule, blocks))))
        } else {
            msg
        },
        _ => msg,
    }
}

/// A request without the blocks that the rule takes out of its messages.
pub open spec fn kept_request(rule: BlockRule, doc: Tree) -> Tree {
    match (doc, doc.get("messages"@)) {
        (Tree::Obj(m), Some(Tree::Arr(messages))) => Tree::Obj(
            m.insert(
                "messages"@,
                Tree::Arr(messages.map_values(|msg: Tree| kept_message(rule, msg))),
            ),
        ),
        _ => doc,
    }
}

fn drops(rule: BlockRule, block: &Json) -> (r: bool)
    ensures
        r == rule_drops(rule, block@),
{
    match rule {
        BlockRule::Thinking => block.has_type("thinking"),
        BlockRule::UnsignedThinking => block.has_type("thinking") && block.str_or(
            "signature",
            "",
        ).is_empty(),
        BlockRule::EmptyText => block.has_type("text") && block.str_or("text", "").is_empty(),
        BlockRule::Image => block.has_type("image"),
    }
}

fn covers(rule: BlockRule, msg: &Json) -> (r: bool)
    ensures
        r == rule_covers(rule, msg@),
{
    match rule {
        BlockRule::Thinking | BlockRule::UnsignedThinking => match msg.get_str("role") {
            Some(role) => str_eq(role, "assistant"),
            None => false,
        },
        BlockRule::EmptyText | BlockRule::Image => true,
    }
}

fn keep_blocks(rule: BlockRule, blocks: &Vec<Json>) -> (r: Vec<Json>)
    ensures
        json::values_view(r@) == kept_blocks(rule, json::values_view(blocks@)),
{
    let mut out: Vec<Json> = no_blocks();
    let ghost trees = json::values_view(blocks@);
    for i in 0..blocks.len()
        invariant
            trees == json::values_view(blocks@),
            json::values_view(out@) == kept_blocks(rule, trees.take(i as int)),
    {
        assert(trees.take(i + 1).drop_last() =~= trees.take(i as int));
        let ghost before = out@;
        if !drops(rule, &blocks[i]) {
            let block = blocks[i].clone();
            out.push(block);
            assert(json::values_view(out@) =~= json::values_view(before).push(block@));
        }
    }
    assert(trees.take(trees.len() as int) =~= trees);
    out
}

fn keep_message(rule: BlockRule, msg: &Json) -> (r: Json)
    ensures
        r@ == kept_message(rule, msg@),
{
    if covers(rule, msg) {
        if let Json::Object(o) = msg {
            if let Some(Json::Array(blocks)) = o.get("content") {
                let mut out = o.clone();
                out.insert("content".to_owned(), Json::Array(keep_blocks(rule, blocks)));
                return Json::Object(out);
            }
        }
    }
    msg.clone()
}

/// A request without the blocks that the rule takes out of its messages.
pub fn keep_request(rule: BlockRule, doc: &Json) -> (r: Json)
    ensures
        r@ == kept_request(rule, doc@),
{
    if let Json::Object(o) = doc {
        if let Some(Json::Array(messages)) = o.get("messages") {
            let mut kept: Vec<Json> = Vec::new();
            for i in 0..messages.len()
                invariant
                    kept@.len() == i,
                    forall|j: int|
                        0 <= j < i ==> (#[trigger] kept@[j])@ == kept_message(rule, messages@[j]@),
            {
                kept.push(keep_message(rule, &messages[i]));
            }
            assert(json::values_view(kept@) =~= json::values_view(messages@).map_values(
                |msg: Tree| kept_message(rule, msg),
            ));
            let mut out = o.clone();
            out.insert("messages".to_owned(), Json::Array(kept));
            return Json::Object(out);
        }
    }
    doc.clone()
}

/// The request has a block that the rule takes out.
pub open spec fn has_dropped(rule: BlockRule, messages: Seq<Tree>) -> bool {
    exists|i: int, j: int|
        0 <= i < messages.len() && rule_covers(rule, messages[i]) && 0 <= j < content_blocks(
            messages[i],
        ).len() && #[trigger] rule_drops(rule, content_blocks(messages[i])[j])
}

/// The content blocks of a message.
pub open spec fn content_blocks(msg: Tree) -> Seq<Tree> {
    match msg.get("content"@) {
        Some(Tree::Arr(blocks)) => blocks,
        _ => Seq::empty(),
    }
}

fn finds_dropped(rule: BlockRule, messages: &Vec<Json>) -> (r: bool)
    ensures
        r == has_dropped(rule, json::values_view(messages@)),
{
    let ghost trees = json::values_view(messages@);
    for i in 0..messages.len()
        invariant
            trees == json::values_view(messages@),
            forall|m: int, j: int|
                0 <= m < i && rule_covers(rule, trees[m]) && 0 <= j < content_blocks(
                    trees[m],
                ).len() ==> !#[trigger] rule_drops(rule, content_blocks(trees[m])[j]),
    {
        let msg = &messages[i];
        assert(trees[i as int] == msg@);
        if covers(rule, msg) {
            if let Some(Json::Array(blocks)) = msg.get("content") {
                let ghost inner = json::values_view(blocks@);
                for j in 0..blocks.len()
                    invariant
                        inner == json::values_view(blocks@),
                        inner == content_blocks(trees[i as int]),
                        rule_covers(rule, trees[i as int]),
                        0 <= i < trees.len(),
                        trees == json::values_view(messages@),
                        forall|n: int| 0 <= n < j ==> !#[trigger] rule_drops(rule, inner[n]),
                {
                    assert(inner[j as int] == blocks@[j as int]@);
                    if drops(rule, &blocks[j]) {
                        assert(rule_drops(rule, content_blocks(trees[i as int])[j as int]));
                        return true;
                    }
                }
            }
        }
    }
    false
}

/// The request without the thinking blocks of its assistant messages, where it has any.
pub open spec fn without_thinking(doc: Tree) -> Option<Tree> {
    match doc.get("messages"@) {
        Some(Tree::Arr(messages)) => if has_dropped(BlockRule::Thinking, messages) {
            Some(kept_request(BlockRule::Thinking, doc))
        } else {
            None
        },
        _ => None,
    }
}

/// The request without the thinking blocks of its assistant messages, where it has any.
pub fn strip_thinking_in(doc: &Json) -> (r: Option<Json>)
    ensures
        json::view_owned(r) == without_thinking(doc@),
{
    match doc.get("messages") {
        Some(Json::Array(messages)) => {
            if finds_dropped(BlockRule::Thinking, messages) {
                Some(keep_request(BlockRule::Thinking, doc))
            } else {
                None
            }
        },
        _ => None,
    }
}

/// The bytes of a document's text.
pub open spec fn doc_bytes(doc: Tree) -> Seq<u8> {
    vstd::utf8::encode_utf8(json::json_text(doc))
}

/// The bytes of a document's text.
pub fn to_bytes(doc: &Json) -> (r: Vec<u8>)
    ensures
        r@ == doc_bytes(doc@),
        json::plain(doc@, 127) ==> json::parsed(r@) == Parsed::Doc(doc@),
        json::readable(doc@, 127) ==> (json::parsed(r@) matches Parsed::Doc(again) ==> json::alike(
            again,
            doc@,
            127,
        )),
{
    let mut out: Vec<u8> = Vec::new();
    append_text(&mut out, doc.to_text().as_str());
    assert(out@ =~= doc_bytes(doc@));
    out
}

/// The body without the thinking blocks of its assistant messages, where it has any.
pub open spec fn stripped_body(body: Seq<u8>) -> Option<Seq<u8>> {
    match json::parsed(body) {
        Parsed::Doc(doc) => match without_thinking(doc) {
            Some(stripped) => Some(doc_bytes(stripped)),
            None => None,
        },
        Parsed::Malformed(_) => None,
    }
}

/// Strips all thinking content blocks from assistant messages in the request body.
/// Returns the new body if thinking blocks were found and stripped, `None` if no changes
/// are needed.
///
/// The new body reads as the old one without those blocks, but for the values of its
/// floating-point numbers, and needs no more changes.
pub fn strip_thinking_blocks(body: &[u8]) -> (r: Option<Vec<u8>>)
    ensures
        match (r, stripped_body(body@)) {
            (Some(bytes), Some(stripped)) => bytes@ == stripped,
            (None, None) => true,
            _ => false,
        },
        match (r, json::parsed(body@)) {
            (Some(bytes), Parsed::Doc(doc)) => json::readable(doc, 127) ==> {
                let stripped = without_thinking(doc)->0;
                &&& stripped_body(bytes@) is None
                &&& json::parsed(bytes@) matches Parsed::Doc(again) ==> json::alike(
                    again,
                    stripped,
                    127,
                )
                &&& json::plain(stripped, 127) ==> json::parsed(bytes@) == Parsed::Doc(stripped)
            },
            _ => true,
        },
{
    match Json::from_slice(body) {
        Ok(doc) => match strip_thinking_in(&doc) {
            Some(stripped) => {
                let bytes = to_bytes(&stripped);
                proof {
                    if json::readable(doc@, 127) {
                        body_laws::lemma_stripped_readable(doc@);
                        if json::parsed(bytes@) is Doc {
                            body_laws::lemma_like_stripped(doc@, json::parsed(bytes@)->Doc_0);
                        }
                    }
                }
                Some(bytes)
            },
            None => None,
        },
        Err(_) => None,
    }
}

/// The response says that the signature of a thinking block is invalid.
pub open spec fn speaks_of_thinking(response: Seq<u8>) -> bool {
    vstd::utf8::valid_utf8(response) && {
        let lower = text::lowercase(vstd::utf8::decode_utf8(response));
        text::find(lower, "signature"@) is Some || text::find(lower, "thinking"@) is Some
    }
}

/// Checks if a 400 error response body indicates an invalid thinking block signature.
pub fn is_thinking_signature_error(response_body: &[u8]) -> (r: bool)
    ensures
        r == speaks_of_thinking(response_body@),
{
    match decode(response_body) {
        Some(s) => {
            let lower = to_lowercase(s);
            contains(lower.as_str(), "signature") || contains(lower.as_str(), "thinking")
        },
        None => false,
    }
}

/// The estimate of the input tokens of a request: a quarter of the length of its text
/// without images.
pub open spec fn estimated_tokens(doc: Tree) -> nat {
    doc_bytes(kept_request(BlockRule::Image, doc)).len() / 4
}

/// Estimates the number of input tokens of a request document.
pub fn estimate_tokens_in(doc: &Json) -> (r: usize)
    ensures
        r == estimated_tokens(doc@),
{
    let bytes = to_bytes(&keep_request(BlockRule::Image, doc));
    bytes.len() / 4
}

/// Estimates the number of input tokens for a request body: strips image content blocks
/// from messages, serializes the result, and divides the byte length by 4. Returns `None`
/// if the body is not valid JSON (fail open).
pub fn estimate_input_tokens(body: &[u8]) -> (r: Option<usize>)
    ensures
        match json::parsed(body@) {
            Parsed::Doc(doc) => r is Some && r->0 == estimated_tokens(doc),
            Parsed::Malformed(_) => r is None,
        },
{
    match Json::from_slice(body) {
        Ok(doc) => Some(estimate_tokens_in(&doc)),
        Err(_) => None,
    }
}

/// Some block of a system array has `cache_control` metadata.
pub open spec fn is_cached(system: Tree) -> bool {
    system matches Tree::Arr(blocks) && exists|i: int|
        0 <= i < blocks.len() && #[trigger] blocks[i].get("cache_control"@) is Some
}

/// Checks if a system array has `cache_control` metadata in any block.
pub fn has_cache_control(system: &Json) -> (r: bool)
    ensures
        r == is_cached(system@),
{
    match system {
        Json::Array(blocks) => {
            let ghost trees = json::values_view(blocks@);
            for i in 0..blocks.len()
                invariant
                    system@ == Tree::Arr(trees),
                    trees == json::values_view(blocks@),
                    forall|j: int| 0 <= j < i ==> #[trigger] trees[j].get("cache_control"@) is None,
            {
                assert(trees[i as int] == blocks@[i as int]@);
                if blocks[i].get("cache_control").is_some() {
                    assert(trees[i as int].get("cache_control"@) is Some);
                    return true;
                }
            }
            false
        },
        _ => false,
    }
}

/// The texts of the blocks of a system array, one after the other.
pub open spec fn system_text(system: Tree) -> Option<Seq<char>> {
    match system {
        Tree::Arr(blocks) => {
            let texts = steps::gather(blocks, Seq::empty(), chat::text_step());
            if texts.len() == 0 {
                None
            } else {
                Some(text::joined(texts, "\n\n"@))
            }
        },
        _ => None,
    }
}

/// Extracts text from all blocks in a system array and concatenates with a blank line
/// between neighbours.
pub fn extract_system_text(system: &Json) -> (r: Option<String>)
    ensures
        chat::text_opt(r) == system_text(system@),
{
    match system {
        Json::Array(blocks) => {
            let mut found: Vec<String> = Vec::new();
            let ghost trees = json::values_view(blocks@);
            assert(text::texts(found@) =~= Seq::empty());
            for i in 0..blocks.len()
                invariant
                    trees == json::values_view(blocks@),
                    text::texts(found@) == steps::gather(
                        trees.take(i as int),
                        Seq::empty(),
                        chat::text_step(),
                    ),
            {
                proof {
                    steps::lemma_gather_step(trees, Seq::empty(), chat::text_step(), i as int);
                }
                if let Some(s) = blocks[i].get_str("text") {
                    let ghost before = found@;
                    found.push(s.to_owned());
                    assert(text::texts(found@) =~= text::texts(before).push(s@));
                }
            }
            assert(trees.take(trees.len() as int) =~= trees);
            if found.len() == 0 {
                None
            } else {
                Some(join(&found, "\n\n"))
            }
        },
        _ => None,
    }
}

/// Two prompts with a blank line between them.
pub open spec fn joined_prompts(client: Seq<char>, server: Seq<char>) -> Seq<char> {
    client + "\n\n"@ + server
}

/// A block with the server's prompt behind its text, where it has one.
pub open spec fn with_prompt(block: Tree, server: Seq<char>) -> Tree {
    match (block, json::str_in(block.get("text"@))) {
        (Tree::Obj(m), Some(s)) => Tree::Obj(
            m.insert("text"@, Tree::Str(joined_prompts(s, server))),
        ),
        _ => block,
    }
}

/// A client's system prompt with the server's prompt behind it.
pub open spec fn merged_prompt(client: Tree, server: Seq<char>) -> Tree {
    if is_cached(client) {
        let blocks = client->Arr_0;
        Tree::Arr(blocks.drop_last().push(with_prompt(blocks.last(), server)))
    } else {
        match client {
            Tree::Str(s) => Tree::Str(joined_prompts(s, server)),
            _ => match system_text(client) {
                Some(s) => Tree::Str(joined_prompts(s, server)),
                None => client,
            },
        }
    }
}

/// The system prompt of a request with both the client's and the server's.
pub open spec fn merged_system(client: Option<Tree>, server: Option<Seq<char>>) -> Option<Tree> {
    match (client, server) {
        (None, None) => None,
        (None, Some(server)) => Some(Tree::Str(server)),
        (Some(client), None) => Some(client),
        (Some(client), Some(server)) => Some(merged_prompt(client, server)),
    }
}

fn join_prompts(client: &str, server: &str) -> (r: String)
    ensures
        r@ == joined_prompts(client@, server@),
{
    concat3(client, "\n\n", server)
}

fn append_prompt(block: &Json, server: &str) -> (r: Json)
    ensures
        r@ == with_prompt(block@, server@),
{
    if let Json::Object(o) = block {
        if let Some(s) = block.get_str("text") {
            let mut out = o.clone();
            out.insert("text".to_owned(), Json::String(join_prompts(s, server)));
            return Json::Object(out);
        }
    }
    block.clone()
}

/// Merges client system prompt with server system prompt.
/// - If the client's is an array with `cache_control`, the server prompt is merged into the
///   last block's text, which keeps the array.
/// - If the client's is a string or an array without `cache_control`, it is normalized to a
///   string and concatenated.
/// - If only the server has a prompt, it is used as it is.
/// - If only the client has a prompt, it passes through unchanged.
pub fn merge_system_prompts(client_system: Option<&Json>, server_system: Option<&str>) -> (r:
    Option<Json>)
    ensures
        json::view_owned(r) == merged_system(
            json::view_opt(client_system),
            json::str_opt(server_system),
        ),
{
    match (client_system, server_system) {
        (None, None) => None,
        (None, Some(server)) => Some(Json::text(server)),
        (Some(client), None) => Some(client.clone()),
        (Some(client), Some(server)) => {
            if has_cache_control(client) {
                if let Json::Array(blocks) = client {
                    let mut out = json::clone_items(blocks);
                    assert(json::values_view(out@).len() == json::values_view(blocks@).len());
                    let ghost all = out@;
                    if let Some(last) = out.pop() {
                        let ghost rest = out@;
                        let merged = append_prompt(&last, server);
                        out.push(merged);
                        assert(json::values_view(all) == json::values_view(blocks@));
                        assert(json::values_view(all).last() == last@);
                        assert(json::values_view(out@) =~= json::values_view(
                            blocks@,
                        ).drop_last().push(merged@)) by {
                            assert(json::values_view(rest) =~= json::values_view(all).drop_last());
                        }
                    }
                    return Some(Json::Array(out));
                }
            }
            match client {
                Json::String(s) => Some(Json::String(join_prompts(s.as_str(), server))),
                _ => match extract_system_text(client) {
                    Some(s) => Some(Json::String(join_prompts(s.as_str(), server))),
                    None => Some(client.clone()),
                },
            }
        },
    }
}

/// The model that a mapping gives for a request's model, if any.
pub open spec fn mapped_model(doc: Tree, mappings: Tree) -> Option<Seq<char>> {
    match json::str_in(doc.get("model"@)) {
        Some(model) => json::str_in(mappings.get(model)),
        None => None,
    }
}

/// The request with its model mapped.
pub open spec fn with_mapped_model(doc: Tree, mappings: Tree) -> Tree {
    match (doc, mapped_model(doc, mappings)) {
        (Tree::Obj(m), Some(mapped)) => Tree::Obj(m.insert("model"@, Tree::Str(mapped))),
        _ => doc,
    }
}

/// The request with its model mapped.
pub fn map_model(doc: Json, mappings: &Json) -> (r: Json)
    ensures
        r@ == with_mapped_model(doc@, mappings@),
{
    let mapped = match doc.get_str("model") {
        Some(model) => match mappings.get_str(model) {
            Some(mapped) => Some(mapped.to_owned()),
            None => None,
        },
        None => None,
    };
    match (doc, mapped) {
        (Json::Object(o), Some(mapped)) => {
            let mut out = o;
            out.insert("model".to_owned(), Json::String(mapped));
            Json::Object(out)
        },
        (doc, _) => doc,
    }
}

/// Transforms a request body by applying a model mapping alone. A body that is not JSON,
/// and any body under an empty mapping, is passed through byte for byte.
pub fn transform_model(body: &[u8], mappings: &Json) -> (r: Vec<u8>)
    ensures
        r@ == (match (mappings@, json::parsed(body@)) {
            (Tree::Obj(m), Parsed::Doc(doc)) => if m =~= Map::empty() {
                body@
            } else {
                doc_bytes(with_mapped_model(doc, mappings@))
            },
            _ => body@,
        }),
{
    match mappings.as_object() {
        Some(o) => {
            if !o.is_empty() {
                if let Ok(doc) = Json::from_slice(body) {
                    return to_bytes(&map_model(doc, mappings));
                }
            }
        },
        None => {},
    }
    vstd::slice::slice_to_vec(body)
}

/// How a server wants its requests.
pub struct Shape {
    pub mappings: Tree,
    pub prompt: Option<Seq<char>>,
    pub path: Seq<char>,
    pub remove_thinking: bool,
}

/// The system prompt of a server is merged into this request.
pub open spec fn merges_prompt(shape: Shape) -> bool {
    is_billing_path(shape.path) && shape.prompt is Some
}

/// The request can hold a system prompt: it is an object, or `null`, which becomes one.
pub open spec fn can_hold_prompt(doc: Tree) -> bool {
    doc is Obj || doc is Null
}

/// The request with the server's system prompt.
pub open spec fn with_system(doc: Tree, prompt: Option<Seq<char>>) -> Tree {
    let system = merged_system(doc.get("system"@), prompt);
    match (doc, system) {
        (Tree::Obj(m), Some(system)) => Tree::Obj(m.insert("system"@, system)),
        (Tree::Null, Some(system)) => Tree::Obj(map!["system"@ => system]),
        _ => doc,
    }
}

/// The request without one field.
pub open spec fn without_field(doc: Tree, field: Seq<char>) -> Tree {
    match doc {
        Tree::Obj(m) => Tree::Obj(m.remove(field)),
        _ => doc,
    }
}

/// The request as it is sent to a server.
pub open spec fn shaped(doc: Tree, shape: Shape) -> Tree {
    let doc = with_mapped_model(doc, shape.mappings);
    let doc = if merges_prompt(shape) {
        with_system(doc, shape.prompt)
    } else {
        doc
    };
    let doc = if shape.remove_thinking {
        without_field(without_field(doc, "thinking"@), "output_config"@)
    } else {
        doc
    };
    without_field(
        kept_request(BlockRule::EmptyText, kept_request(BlockRule::UnsignedThinking, doc)),
        "context_management"@,
    )
}

fn remove_field(doc: Json, field: &str) -> (r: Json)
    ensures
        r@ == without_field(doc@, field@),
{
    match doc {
        Json::Object(o) => {
            let mut out = o;
            out.remove(field);
            Json::Object(out)
        },
        doc => doc,
    }
}

/// Transforms a request document for a server: applies the model mapping and the system
/// prompt merge, and takes out what upstream refuses.
///
/// Thinking blocks with missing or empty signatures are stripped from assistant messages:
/// some intermediary proxies strip the signature in their responses, and clients then echo
/// the now-invalid block back on the next turn. Empty text blocks are stripped, and so is
/// `context_management`, which is not a valid Anthropic field.
pub fn transform_request(
    doc: Json,
    model_mappings: &Json,
    server_system_prompt: Option<&str>,
    request_path: &str,
    remove_thinking: bool,
) -> (r: Json)
    requires
        is_billing_path(request_path@) && server_system_prompt is Some ==> can_hold_prompt(doc@),
    ensures
        r@ == shaped(
            doc@,
            (Shape {
                mappings: model_mappings@,
                prompt: json::str_opt(server_system_prompt),
                path: request_path@,
                remove_thinking,
            }),
        ),
{
    let mut doc = map_model(doc, model_mappings);
    if is_billing_endpoint(request_path) && server_system_prompt.is_some() {
        let system = merge_system_prompts(doc.get("system"), server_system_prompt);
        if let Some(system) = system {
            doc = match doc {
                Json::Object(o) => {
                    let mut out = o;
                    out.insert("system".to_owned(), system);
                    Json::Object(out)
                },
                _ => Json::Object(Object::new().with("system", system)),
            };
        }
    }
    if remove_thinking {
        doc = remove_field(remove_field(doc, "thinking"), "output_config");
    }
    let signed = keep_request(BlockRule::UnsignedThinking, &doc);
    let filled = keep_request(BlockRule::EmptyText, &signed);
    remove_field(filled, "context_management")
}

/// The body as it is sent to a server.
pub open spec fn transformed(body: Seq<u8>, shape: Shape) -> Seq<u8> {
    match json::parsed(body) {
        Parsed::Doc(doc) => doc_bytes(shaped(doc, shape)),
        Parsed::Malformed(_) => body,
    }
}

/// A second time changes nothing more: what the body holds is left as it is, and where it
/// holds no floating-point number the very bytes are.
pub open spec fn is_transformed(bytes: Seq<u8>, shape: Shape) -> bool {
    match json::parsed(bytes) {
        Parsed::Doc(doc) => shaped(doc, shape) == doc && (json::plain(doc, 127) ==> transformed(
            bytes,
            shape,
        ) == bytes),
        Parsed::Malformed(_) => transformed(bytes, shape) == bytes,
    }
}

/// Transforms a request body for a server; a body that is not JSON is passed through byte
/// for byte. A JSON body that cannot hold the system prompt it is to get is not accepted.
///
/// Where neither the model is mapped nor a prompt is merged, transforming the body once more
/// changes nothing.
pub fn transform_request_body(
    body: &[u8],
    model_mappings: &Json,
    server_system_prompt: Option<&str>,
    request_path: &str,
    remove_thinking: bool,
) -> (r: Vec<u8>)
    requires
        is_billing_path(request_path@) && server_system_prompt is Some ==> (json::parsed(
            body@,
        ) matches Parsed::Doc(doc) ==> can_hold_prompt(doc)),
    ensures
        ({
            let shape = Shape {
                mappings: model_mappings@,
                prompt: json::str_opt(server_system_prompt),
                path: request_path@,
                remove_thinking,
            };
            &&& r@ == transformed(body@, shape)
            &&& match json::parsed(body@) {
                Parsed::Doc(doc) => body_laws::leaves_text(doc, shape) && json::readable(doc, 127)
                    ==> is_transformed(r@, shape),
                Parsed::Malformed(_) => is_transformed(r@, shape),
            }
        }),
{
    let ghost shape = Shape {
        mappings: model_mappings@,
        prompt: json::str_opt(server_system_prompt),
        path: request_path@,
        remove_thinking,
    };
    match Json::from_slice(body) {
        Ok(doc) => {
            let ghost before = doc@;
            let sent = transform_request(
                doc,
                model_mappings,
                server_system_prompt,
                request_path,
                remove_thinking,
            );
            let bytes = to_bytes(&sent);
            proof {
                if body_laws::leaves_text(before, shape) && json::readable(before, 127) {
                    body_laws::lemma_shaped_readable(before, shape);
                    if json::parsed(bytes@) is Doc {
                        let again = json::parsed(bytes@)->Doc_0;
                        body_laws::lemma_like_shaped(before, shape, again);
                        if json::plain(again, 127) {
                            json::lemma_alike_plain(again, sent@, 127);
                        }
                    }
                }
            }
            bytes
        },
        Err(_) => vstd::slice::slice_to_vec(body),
    }
}

/// Whether a request document can hold the system prompt it is to get.
pub fn accepts_prompt(doc: &Json) -> (r: bool)
    ensures
        r == can_hold_prompt(doc@),
{
    match doc {
        Json::Object(_) => true,
        Json::Null => true,
        _ => false,
    }
}

/// Transforms a request body for a server, where that can be done: `None` for a JSON body
/// that cannot hold the system prompt it is to get.
pub fn try_transform_request_body(
    body: &[u8],
    model_mappings: &Json,
    server_system_prompt: Option<&str>,
    request_path: &str,
    remove_thinking: bool,
) -> (r: Option<Vec<u8>>)
    ensures
        ({
            let shape = Shape {
                mappings: model_mappings@,
                prompt: json::str_opt(server_system_prompt),
                path: request_path@,
                remove_thinking,
            };
            if (json::parsed(body@) matches Parsed::Doc(doc) && merges_prompt(shape)
                && !can_hold_prompt(doc)) {
                r is None
            } else {
                r is Some && r->0@ == transformed(body@, shape)
            }
        }),
{
    if is_billing_endpoint(request_path) && server_system_prompt.is_some() {
        if let Ok(doc) = Json::from_slice(body) {
            if !accepts_prompt(&doc) {
                return None;
            }
        }
    }
    Some(
        transform_request_body(
            body,
            model_mappings,
            server_system_prompt,
            request_path,
            remove_thinking,
        ),
    )
}

} // verus!
