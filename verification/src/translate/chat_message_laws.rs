//! What becomes of each message of a Chat Completions conversation.

use vstd::prelude::*;

use crate::json;
use crate::json::{Parsed, Tree};
use crate::text;
use crate::translate::chat;
use crate::translate::chat::Conversation;
use crate::translate::chat_sse_event_laws;
use crate::translate::keys;
use crate::translate::steps;
use crate::translate::steps::Outcome;

verus! {

/// A text under a key, or this one where there is none.
pub open spec fn text_or(t: Tree, key: Seq<char>, other: Seq<char>) -> Seq<char> {
    match t.get(key) {
        Some(Tree::Str(s)) => s,
        _ => other,
    }
}

/// A part of a message that is a text, which a part without a type is.
pub open spec fn is_text_part(part: Tree) -> bool {
    text_or(part, "type"@, "text"@) == "text"@
}

/// A part that is more than an empty text.
pub open spec fn holds_something() -> spec_fn(Tree) -> bool {
    |part: Tree| !is_text_part(part) || (part.get("text"@) matches Some(Tree::Str(s)) && s.len() > 0)
}

/// The block is this text.
pub open spec fn is_text(block: Tree, s: Seq<char>) -> bool {
    block.get("type"@) == Some(Tree::Str("text"@)) && block.get("text"@) == Some(Tree::Str(s))
}

/// The URL carries its data itself.
pub open spec fn carries(url: Seq<char>, media_type: Seq<char>, data: Seq<char>) -> bool {
    url == "data:"@ + media_type + ";base64,"@ + data
}

/// The source of an image is at this URL: it is the URL itself, or what the URL carries.
pub open spec fn shows(source: Tree, url: Seq<char>) -> bool {
    if "data:"@.is_prefix_of(url) {
        &&& source.get("type"@) == Some(Tree::Str("base64"@))
        &&& exists|media_type: Seq<char>, data: Seq<char>| #[trigger]
            carries(url, media_type, data) && source.get("data"@) == Some(Tree::Str(data))
                && source.get("media_type"@) == Some(
                Tree::Str(
                    if media_type.len() == 0 {
                        "application/octet-stream"@
                    } else {
                        media_type
                    },
                ),
            )
    } else {
        &&& source.get("type"@) == Some(Tree::Str("url"@))
        &&& source.get("url"@) == Some(Tree::Str(url))
    }
}

/// The block stands for the part: the same text, or the same image.
pub open spec fn stands_for(block: Tree, part: Tree) -> bool {
    if is_text_part(part) {
        part.get("text"@) matches Some(Tree::Str(s)) && is_text(block, s)
    } else {
        &&& part.get("type"@) == Some(Tree::Str("image_url"@))
        &&& block.get("type"@) == Some(Tree::Str("image"@))
        &&& chat_sse_event_laws::inner(part, "image_url"@, "url"@) matches Some(Tree::Str(url))
        &&& block.get("source"@) matches Some(source)
        &&& shows(source, url)
    }
}

/// The blocks stand for the parts that hold something, one for each, in their order.
pub open spec fn are_parts(blocks: Seq<Tree>, parts: Seq<Tree>) -> bool {
    let kept = parts.filter(holds_something());
    blocks.len() == kept.len() && forall|k: int|
        0 <= k < kept.len() ==> stands_for(#[trigger] blocks[k], kept[k])
}

/// The blocks stand for the content of a message.
pub open spec fn are_content(blocks: Seq<Tree>, content: Option<Tree>) -> bool {
    match content {
        Some(Tree::Str(s)) => if s.len() == 0 {
            blocks.len() == 0
        } else {
            blocks.len() == 1 && is_text(blocks[0], s)
        },
        Some(Tree::Arr(parts)) => are_parts(blocks, parts),
        _ => blocks.len() == 0,
    }
}

proof fn lemma_image(url: Seq<char>, i: int)
    ensures
        chat::image_block(url, i) matches Outcome::Done(block) ==> block.get("type"@) == Some(
            Tree::Str("image"@),
        ) && (block.get("source"@) matches Some(source) && shows(source, url)),
        !"data:"@.is_prefix_of(url) ==> chat::image_block(url, i) is Done,
        forall|media_type: Seq<char>, data: Seq<char>| #[trigger]
            carries(url, media_type, data) ==> chat::image_block(url, i) is Done,
{
    keys::lemma_words();
    let head = "data:"@;
    let mid = ";base64,"@;
    let rest = url.skip(head.len() as int);
    text::lemma_find_from(rest, mid, 0);
    if chat::image_block(url, i) is Done && head.is_prefix_of(url) {
        let at = text::find(rest, mid)->0;
        let media_type = rest.take(at);
        let data = rest.skip(at + mid.len());
        assert(rest.subrange(at, at + mid.len()) == mid);
        assert(rest =~= media_type + mid + data);
        assert(url =~= head + rest);
        assert(carries(url, media_type, data)) by {
            assert(url =~= head + media_type + mid + data);
        }
    }
    assert forall|media_type: Seq<char>, data: Seq<char>| #[trigger]
        carries(url, media_type, data) implies chat::image_block(url, i) is Done by {
        assert(rest =~= media_type + mid + data);
        assert(rest.subrange(media_type.len() as int, (media_type.len() + mid.len()) as int) =~= mid);
        assert(text::occurs_at(rest, mid, media_type.len() as int));
    }
}

/// The parts of a message become blocks in their order: each text that is not empty becomes
/// a block with that text, and each image a block with that image. Nothing else is made and
/// nothing is left out.
pub proof fn law_parts_become_blocks(parts: Seq<Tree>, i: int)
    ensures
        chat::blocks_of(Some(Tree::Arr(parts)), i) matches Outcome::Done(blocks) ==> are_parts(
            blocks,
            parts,
        ),
    decreases parts.len(),
{
    keys::lemma_words();
    reveal(Seq::filter);
    if parts.len() > 0 {
        let rest = parts.drop_last();
        law_parts_become_blocks(rest, i);
        let part = parts.last();
        if let Some(Tree::Str(url)) = chat_sse_event_laws::inner(part, "image_url"@, "url"@) {
            lemma_image(url, i);
        }
    }
}

/// The content of a message becomes its blocks.
pub proof fn law_content_becomes_blocks(content: Option<Tree>, i: int)
    ensures
        chat::blocks_of(content, i) matches Outcome::Done(blocks) ==> are_content(blocks, content),
{
    keys::lemma_words();
    if let Some(Tree::Arr(parts)) = content {
        law_parts_become_blocks(parts, i);
    }
}

/// A part that can be translated: a text, or an image at a URL, or in one.
pub open spec fn is_sound(part: Tree) -> bool {
    is_text_part(part) || (part.get("type"@) == Some(Tree::Str("image_url"@)) && (
    chat_sse_event_laws::inner(part, "image_url"@, "url"@) matches Some(Tree::Str(url)) && (
    !"data:"@.is_prefix_of(url) || exists|media_type: Seq<char>, data: Seq<char>| #[trigger]
        carries(url, media_type, data))))
}

/// Content that can be translated.
pub open spec fn is_sound_content(content: Option<Tree>) -> bool {
    match content {
        None => true,
        Some(Tree::Null) => true,
        Some(Tree::Str(_)) => true,
        Some(Tree::Arr(parts)) => forall|k: int|
            0 <= k < parts.len() ==> is_sound(#[trigger] parts[k]),
        _ => false,
    }
}

/// Content is refused where it cannot be translated, and only there.
pub proof fn law_sound_content_is_accepted(content: Option<Tree>, i: int)
    ensures
        chat::blocks_of(content, i) is Done <==> is_sound_content(content),
{
    if let Some(Tree::Arr(parts)) = content {
        lemma_sound_parts(parts, i);
    }
}

proof fn lemma_sound_parts(parts: Seq<Tree>, i: int)
    ensures
        chat::blocks_of(Some(Tree::Arr(parts)), i) is Done <==> is_sound_content(
            Some(Tree::Arr(parts)),
        ),
    decreases parts.len(),
{
    keys::lemma_words();
    if parts.len() > 0 {
        let rest = parts.drop_last();
        lemma_sound_parts(rest, i);
        let part = parts.last();
        assert(part == parts[parts.len() - 1]);
        if let Some(Tree::Str(url)) = chat_sse_event_laws::inner(part, "image_url"@, "url"@) {
            lemma_image(url, i);
        }
        if is_sound_content(Some(Tree::Arr(parts))) {
            assert forall|k: int| 0 <= k < rest.len() implies is_sound(#[trigger] rest[k]) by {
                assert(rest[k] == parts[k]);
            }
            assert(is_sound(parts[parts.len() - 1]));
        }
        if chat::blocks_of(Some(Tree::Arr(parts)), i) is Done {
            assert(is_sound(part)) by {
                if let Some(Tree::Str(url)) = chat_sse_event_laws::inner(part, "image_url"@, "url"@) {
                    if let Outcome::Done(block) = chat::image_block(url, i) {
                        assert(shows(block.get("source"@)->0, url));
                    }
                }
            }
            assert forall|k: int| 0 <= k < parts.len() implies is_sound(#[trigger] parts[k]) by {
                if k < rest.len() {
                    assert(rest[k] == parts[k]);
                }
            }
        }
    }
}

/// The object that a text of arguments is read as; none where it is not read as one.
pub open spec fn is_input(input: Tree, arguments: Option<Tree>) -> bool {
    &&& input is Obj
    &&& match arguments {
        Some(Tree::Str(raw)) => {
            let read = json::parsed(vstd::utf8::encode_utf8(raw));
            &&& text::trimmed(raw).len() > 0 ==> (read matches Parsed::Doc(Tree::Obj(m)) ==> input
                == Tree::Obj(m))
            &&& !(read matches Parsed::Doc(Tree::Obj(_))) ==> input == Tree::Obj(Map::empty())
        },
        _ => input == Tree::Obj(Map::empty()),
    }
}

/// The block is the tool call: the same id, the same name, and its arguments as an object.
pub open spec fn is_call(block: Tree, call: Tree) -> bool {
    let function = match call.get("function"@) {
        Some(f) => f,
        None => Tree::Null,
    };
    &&& block.get("type"@) == Some(Tree::Str("tool_use"@))
    &&& block.get("id"@) == Some(Tree::Str(text_or(call, "id"@, ""@)))
    &&& block.get("name"@) == Some(Tree::Str(text_or(function, "name"@, ""@)))
    &&& block.get("input"@) matches Some(input)
    &&& is_input(input, function.get("arguments"@))
}

/// The blocks are the tool calls of an assistant message, in their order.
pub open spec fn are_calls(blocks: Seq<Tree>, calls: Option<Tree>) -> bool {
    match calls {
        Some(Tree::Arr(list)) => blocks.len() == list.len() && forall|k: int|
            0 <= k < list.len() ==> is_call(#[trigger] blocks[k], list[k]),
        _ => blocks.len() == 0,
    }
}

/// Who says a message: the assistant what the assistant said, and the user all else.
pub open spec fn speaker(role: Seq<char>) -> Seq<char> {
    if role == "assistant"@ {
        "assistant"@
    } else {
        "user"@
    }
}

/// The role of a message, which is the user's where it has none.
pub open spec fn role(msg: Tree) -> Seq<char> {
    text_or(msg, "role"@, "user"@)
}

/// The message answers a tool call.
pub open spec fn is_tool(msg: Tree) -> bool {
    role(msg) == "tool"@ || role(msg) == "function"@
}

/// The message instructs the model.
pub open spec fn is_system(msg: Tree) -> bool {
    role(msg) == "system"@ || role(msg) == "developer"@
}

/// The first `n` blocks are the content of the message, and the others the tools that the
/// assistant called in it.
pub open spec fn says(blocks: Seq<Tree>, n: int, msg: Tree) -> bool {
    &&& 0 <= n <= blocks.len()
    &&& are_content(blocks.take(n), msg.get("content"@))
    &&& are_calls(
        blocks.skip(n),
        if role(msg) == "assistant"@ {
            msg.get("tool_calls"@)
        } else {
            None
        },
    )
}

/// The turn is what the message says, by the same speaker: its content, and for the assistant
/// the tools it called.
pub open spec fn is_turn(turn: Tree, msg: Tree) -> bool {
    &&& turn.get("role"@) == Some(Tree::Str(speaker(role(msg))))
    &&& turn.get("content"@) matches Some(Tree::Arr(blocks))
    &&& exists|n: int| #[trigger] says(blocks, n, msg)
}

proof fn lemma_message(role: Seq<char>, content: Seq<Tree>)
    ensures
        chat::message(role, content).get("role"@) == Some(Tree::Str(role)),
        chat::message(role, content).get("content"@) == Some(Tree::Arr(content)),
{
    keys::lemma_words();
}

proof fn lemma_call(call: Tree)
    ensures
        is_call(chat::tool_use_block(call), call),
{
    keys::lemma_words();
}

proof fn lemma_turn(msg: Tree, i: int)
    ensures
        ({
            let blocks = if role(msg) == "assistant"@ {
                chat::assistant_blocks(msg, i)
            } else {
                chat::blocks_of(msg.get("content"@), i)
            };
            blocks matches Outcome::Done(list) ==> is_turn(
                chat::message(speaker(role(msg)), list),
                msg,
            )
        }),
{
    keys::lemma_words();
    let content = msg.get("content"@);
    law_content_becomes_blocks(content, i);
    if let Outcome::Done(said) = chat::blocks_of(content, i) {
        let n = said.len() as int;
        let list = if role(msg) == "assistant"@ {
            chat::assistant_blocks(msg, i)->Done_0
        } else {
            said
        };
        lemma_message(speaker(role(msg)), list);
        assert(list.take(n) =~= said);
        assert(are_content(list.take(n), content));
        let calls = list.skip(n);
        if role(msg) == "assistant"@ {
            if let Some(Tree::Arr(stored)) = msg.get("tool_calls"@) {
                assert(calls =~= stored.map_values(|call: Tree| chat::tool_use_block(call)));
                assert forall|k: int| 0 <= k < stored.len() implies is_call(
                    #[trigger] calls[k],
                    stored[k],
                ) by {
                    lemma_call(stored[k]);
                }
            }
        }
        let stored = if role(msg) == "assistant"@ {
            msg.get("tool_calls"@)
        } else {
            None
        };
        assert(are_calls(calls, stored));
        let turn = chat::message(speaker(role(msg)), list);
        assert(turn.get("content"@) == Some(Tree::Arr(list)));
        assert(says(list, n, msg));
        assert(turn.get("role"@) == Some(Tree::Str(speaker(role(msg)))));
        assert(turn.get("content"@) is Some);
        assert(turn.get("content"@)->0 is Arr);
        assert(says(turn.get("content"@)->0->Arr_0, n, msg));
        assert(is_turn(turn, msg));
    } else {
        assert(chat::assistant_blocks(msg, i) is Refused);
    }
}

/// The conversation after all messages but the last, and after the last.
spec fn after(messages: Seq<Tree>) -> Outcome<Conversation> {
    steps::run(messages, Conversation::start(), chat::message_step())
}

/// What waits for its message are the results of the tool messages at the end, and there are
/// some just where the last message is one.
proof fn lemma_waiting(messages: Seq<Tree>)
    ensures
        after(messages) matches Outcome::Done(c) ==> {
            &&& (c.pending.len() > 0 <==> messages.len() > 0 && is_tool(messages.last()))
            &&& forall|k: int|
                0 <= k < c.pending.len() ==> chat::is_tool_result(#[trigger] c.pending[k])
        },
    decreases messages.len(),
{
    keys::lemma_words();
    if messages.len() > 0 {
        lemma_waiting(messages.drop_last());
    }
}

proof fn lemma_push(messages: Seq<Tree>, msg: Tree)
    ensures
        after(messages.push(msg)) == (match after(messages) {
            Outcome::Done(c) => chat::message_step()(c, messages.len() as int, msg),
            Outcome::Refused(m) => Outcome::Refused(m),
        }),
{
    assert(messages.push(msg).drop_last() =~= messages);
}

/// Whether a turn is missing at the start depends on the first message alone.
proof fn lemma_opened_push(messages: Seq<Tree>, more: Tree)
    requires
        messages.len() > 0,
    ensures
        chat::opened(messages.push(more)) == chat::opened(messages).push(more),
{
    assert(messages.push(more)[0] == messages[0]);
    assert(chat::lacks_opening_turn(messages.push(more)) == chat::lacks_opening_turn(messages));
    assert(chat::opened(messages.push(more)) =~= chat::opened(messages).push(more));
}

/// One more message of the user or the assistant is one more turn at the end, said by the
/// same speaker with the same content; nothing else changes.
pub proof fn law_one_more_turn(messages: Seq<Tree>, msg: Tree)
    requires
        !is_tool(msg),
        !is_system(msg),
    ensures
        chat::conversation(messages.push(msg)) matches Outcome::Done(next) ==> {
            &&& chat::conversation(messages) matches Outcome::Done(c)
            &&& next.0 == c.0
            &&& next.1.len() > 0
            &&& is_turn(next.1.last(), msg)
            &&& c.1.len() > 0 ==> next.1.drop_last() == c.1
            &&& c.1.len() == 0 ==> next.1.len() == (if role(msg) == "assistant"@ {
                2nat
            } else {
                1
            })
        },
{
    keys::lemma_words();
    lemma_push(messages, msg);
    let i = messages.len() as int;
    lemma_turn(msg, i);
    if let Outcome::Done(c) = after(messages) {
        let out = c.flushed().out;
        let blocks = if role(msg) == "assistant"@ {
            chat::assistant_blocks(msg, i)
        } else {
            chat::blocks_of(msg.get("content"@), i)
        };
        if let Outcome::Done(list) = blocks {
            let turn = chat::message(speaker(role(msg)), list);
            lemma_message(speaker(role(msg)), list);
            let next = chat::conversation(messages.push(msg))->Done_0;
            if out.len() > 0 {
                lemma_opened_push(out, turn);
                assert(next.1 == chat::opened(out).push(turn));
                assert(next.1.drop_last() =~= chat::opened(out));
            } else {
                assert(out.push(turn) =~= seq![turn]);
                law_content_becomes_blocks(msg.get("content"@), i);
                if role(msg) != "assistant"@ && list.len() > 0 {
                    lemma_no_result(list, msg.get("content"@));
                }
                assert(next.1.last() == turn);
            }
        }
    }
}

/// What a message says is no tool result.
proof fn lemma_no_result(blocks: Seq<Tree>, content: Option<Tree>)
    requires
        blocks.len() > 0,
        are_content(blocks, content),
    ensures
        !chat::is_tool_result(blocks[0]),
{
    keys::lemma_words();
    if let Some(Tree::Arr(parts)) = content {
        assert(stands_for(blocks[0], parts.filter(holds_something())[0]));
    }
}

/// The id that a tool message answers.
pub open spec fn answers(msg: Tree, id: Seq<char>) -> bool {
    match msg.get("tool_call_id"@) {
        Some(Tree::Str(s)) => id == s,
        _ => msg.get("name"@) == Some(Tree::Str(id)),
    }
}

/// The block is the result that the message brings, for the call that it answers.
pub open spec fn is_result(block: Tree, msg: Tree) -> bool {
    &&& block.get("type"@) == Some(Tree::Str("tool_result"@))
    &&& block.get("tool_use_id"@) matches Some(Tree::Str(id))
    &&& answers(msg, id)
    &&& block.get("content"@) == Some(
        match msg.get("content"@) {
            Some(content) => content,
            None => Tree::Str(""@),
        },
    )
}

/// The turn holds these tool results alone.
pub open spec fn holds_results(turn: Tree, results: Seq<Tree>) -> bool {
    turn.get("role"@) == Some(Tree::Str("user"@)) && turn.get("content"@) == Some(
        Tree::Arr(results),
    )
}

/// One more tool message brings one more result, in the turn of the tool messages right
/// before it, or in a turn of its own where there are none; nothing else changes.
pub proof fn law_one_more_result(messages: Seq<Tree>, msg: Tree)
    requires
        is_tool(msg),
    ensures
        chat::conversation(messages.push(msg)) matches Outcome::Done(next) ==> {
            &&& chat::conversation(messages) matches Outcome::Done(c)
            &&& next.0 == c.0
            &&& next.1.len() > 0
            &&& next.1.last().get("content"@) matches Some(Tree::Arr(results))
            &&& results.len() > 0
            &&& holds_results(next.1.last(), results)
            &&& is_result(results.last(), msg)
            &&& if messages.len() > 0 && is_tool(messages.last()) {
                &&& c.1.len() == next.1.len()
                &&& next.1.drop_last() == c.1.drop_last()
                &&& holds_results(c.1.last(), results.drop_last())
            } else {
                &&& results.len() == 1
                &&& c.1.len() > 0 ==> next.1.drop_last() == c.1
                &&& c.1.len() == 0 ==> next.1.len() == 2
            }
        },
{
    keys::lemma_words();
    lemma_push(messages, msg);
    lemma_waiting(messages);
    let i = messages.len() as int;
    if let Outcome::Done(c) = after(messages) {
        if let Outcome::Done(block) = chat::result_block(msg, i) {
            assert(is_result(block, msg));
            let results = c.pending.push(block);
            let turn = chat::message("user"@, results);
            lemma_message("user"@, results);
            lemma_message("user"@, c.pending);
            let next = chat::conversation(messages.push(msg))->Done_0;
            assert(results.drop_last() =~= c.pending);
            let old_out = c.flushed().out;
            assert forall|k: int| 0 <= k < results.len() implies chat::is_tool_result(
                #[trigger] results[k],
            ) by {
                if k < c.pending.len() {
                    assert(results[k] == c.pending[k]);
                }
            }
            if c.out.len() > 0 {
                lemma_opened_push(c.out, turn);
                assert(next.1 == chat::opened(c.out).push(turn));
                assert(next.1.drop_last() =~= chat::opened(c.out));
                if c.pending.len() > 0 {
                    lemma_opened_push(c.out, chat::message("user"@, c.pending));
                    assert(chat::opened(old_out).drop_last() =~= chat::opened(c.out));
                }
            } else {
                let alone = seq![turn];
                assert(c.out.push(turn) =~= alone);
                assert(chat::lacks_opening_turn(alone));
                assert(next.1 =~= seq![chat::opening_turn(), turn]);
                if c.pending.len() > 0 {
                    let before = chat::message("user"@, c.pending);
                    assert(c.out.push(before) =~= seq![before]);
                    assert(chat::lacks_opening_turn(seq![before]));
                    assert(chat::opened(old_out) =~= seq![chat::opening_turn(), before]);
                    assert(next.1.drop_last() =~= chat::opened(old_out).drop_last());
                }
            }
        }
    }
}

/// A part that has a text.
pub open spec fn has_text() -> spec_fn(Tree) -> bool {
    |part: Tree| part.get("text"@) matches Some(Tree::Str(_))
}

/// The text of an instruction: the text itself, or the texts of its parts, one to a line.
pub open spec fn instruction(content: Option<Tree>) -> Seq<char> {
    match content {
        Some(Tree::Str(s)) => s,
        Some(Tree::Arr(parts)) => text::joined(
            parts.filter(has_text()).map_values(|part: Tree| text_or(part, "text"@, ""@)),
            "\n"@,
        ),
        _ => Seq::empty(),
    }
}

proof fn lemma_texts(parts: Seq<Tree>)
    ensures
        steps::gather(parts, Seq::empty(), chat::text_step()) == parts.filter(
            has_text(),
        ).map_values(|part: Tree| text_or(part, "text"@, ""@)),
    decreases parts.len(),
{
    reveal(Seq::filter);
    let said = |part: Tree| text_or(part, "text"@, ""@);
    if parts.len() > 0 {
        let rest = parts.drop_last();
        lemma_texts(rest);
        let kept = rest.filter(has_text());
        assert(kept.push(parts.last()).map_values(said) =~= kept.map_values(said).push(
            said(parts.last()),
        ));
    } else {
        assert(parts.filter(has_text()).map_values(said) =~= Seq::empty());
    }
}

/// One more instruction is one more system text at the end, unless it is empty, and no turn.
pub proof fn law_one_more_instruction(messages: Seq<Tree>, msg: Tree)
    requires
        is_system(msg),
    ensures
        ({
            let said = instruction(msg.get("content"@));
            match (chat::conversation(messages), chat::conversation(messages.push(msg))) {
                (Outcome::Done(c), Outcome::Done(next)) => next.1 == c.1 && next.0 == (if said.len()
                    == 0 {
                    c.0
                } else {
                    c.0.push(said)
                }),
                (Outcome::Refused(a), Outcome::Refused(b)) => a == b,
                _ => false,
            }
        }),
{
    keys::lemma_words();
    lemma_push(messages, msg);
    if let Some(Tree::Arr(parts)) = msg.get("content"@) {
        lemma_texts(parts);
    }
    if let Outcome::Done(c) = after(messages) {
        assert(c.flushed().flushed() == c.flushed());
    }
}

/// A message that can be translated.
pub open spec fn is_sound_message(msg: Tree) -> bool {
    if is_tool(msg) {
        msg.get("tool_call_id"@) matches Some(Tree::Str(_)) || msg.get("name"@) matches Some(
            Tree::Str(_),
        )
    } else if is_system(msg) {
        true
    } else {
        is_sound_content(msg.get("content"@))
    }
}

/// A conversation is refused where one of its messages cannot be translated, and only there.
pub proof fn law_sound_messages_are_accepted(messages: Seq<Tree>)
    ensures
        chat::conversation(messages) is Done <==> forall|k: int|
            0 <= k < messages.len() ==> is_sound_message(#[trigger] messages[k]),
    decreases messages.len(),
{
    keys::lemma_words();
    if messages.len() > 0 {
        let rest = messages.drop_last();
        law_sound_messages_are_accepted(rest);
        let msg = messages.last();
        assert(rest.push(msg) =~= messages);
        lemma_push(rest, msg);
        law_sound_content_is_accepted(msg.get("content"@), rest.len() as int);
        assert(chat::conversation(messages) is Done <==> after(messages) is Done);
        assert(chat::conversation(rest) is Done <==> after(rest) is Done);
        if forall|k: int| 0 <= k < messages.len() ==> is_sound_message(#[trigger] messages[k]) {
            assert forall|k: int| 0 <= k < rest.len() implies is_sound_message(
                #[trigger] rest[k],
            ) by {
                assert(rest[k] == messages[k]);
            }
            assert(is_sound_message(messages[messages.len() - 1]));
        }
        if chat::conversation(messages) is Done {
            assert forall|k: int| 0 <= k < messages.len() implies is_sound_message(
                #[trigger] messages[k],
            ) by {
                if k < rest.len() {
                    assert(rest[k] == messages[k]);
                }
            }
        }
    }
}

} // verus!
