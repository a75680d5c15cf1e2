//! What becomes of each item of a Responses input.

use vstd::prelude::*;

use crate::json::Tree;
use crate::text;
use crate::translate::chat;
use crate::translate::chat::Conversation;
use crate::translate::chat_message_laws;
use crate::translate::chat_sse_event_laws;
use crate::translate::keys;
use crate::translate::responses;
use crate::translate::steps;
use crate::translate::steps::Outcome;

verus! {

/// A part that is a text.
pub open spec fn is_text_part(part: Tree) -> bool {
    part.get("type"@) == Some(Tree::Str("input_text"@)) || part.get("type"@) == Some(
        Tree::Str("output_text"@),
    )
}

/// A part that is an image.
pub open spec fn is_image_part(part: Tree) -> bool {
    part.get("type"@) == Some(Tree::Str("input_image"@))
}

/// A part that is passed on: a text that is not empty, or an image that is at some place.
pub open spec fn holds_something() -> spec_fn(Tree) -> bool {
    |part: Tree|
        {
            ||| is_text_part(part) && (part.get("text"@) matches Some(Tree::Str(s)) && s.len() > 0)
            ||| is_image_part(part) && (part.get("image_url"@) matches Some(Tree::Str(_)))
            ||| is_image_part(part) && (part.get("file_id"@) matches Some(Tree::Str(_)))
        }
}

/// The source of an image is at this URL: it is what the URL carries, or the URL itself where
/// it carries nothing.
pub open spec fn shows(source: Tree, url: Seq<char>) -> bool {
    if exists|media_type: Seq<char>, data: Seq<char>| #[trigger]
        chat_message_laws::carries(url, media_type, data) {
        &&& source.get("type"@) == Some(Tree::Str("base64"@))
        &&& exists|media_type: Seq<char>, data: Seq<char>| #[trigger]
            chat_message_laws::carries(url, media_type, data) && source.get("data"@) == Some(
                Tree::Str(data),
            ) && source.get("media_type"@) == Some(Tree::Str(media_type))
    } else {
        &&& source.get("type"@) == Some(Tree::Str("url"@))
        &&& source.get("url"@) == Some(Tree::Str(url))
    }
}

/// The block stands for the part: the same text, the same image, or a note that names the
/// file of an image that is not at a URL.
pub open spec fn stands_for(block: Tree, part: Tree) -> bool {
    if is_text_part(part) {
        part.get("text"@) matches Some(Tree::Str(s)) && chat_message_laws::is_text(block, s)
    } else {
        match part.get("image_url"@) {
            Some(Tree::Str(url)) => {
                &&& block.get("type"@) == Some(Tree::Str("image"@))
                &&& block.get("source"@) matches Some(source)
                &&& shows(source, url)
            },
            _ => part.get("file_id"@) matches Some(Tree::Str(id)) && chat_message_laws::is_text(
                block,
                "[image file '"@ + id + "' cannot be resolved by this relay]"@,
            ),
        }
    }
}

/// The blocks stand for the parts that are passed on, one for each, in their order.
pub open spec fn are_parts(blocks: Seq<Tree>, parts: Seq<Tree>) -> bool {
    let kept = parts.filter(holds_something());
    blocks.len() == kept.len() && forall|k: int|
        0 <= k < kept.len() ==> stands_for(#[trigger] blocks[k], kept[k])
}

/// The blocks stand for the content of an item.
pub open spec fn are_content(blocks: Seq<Tree>, content: Option<Tree>) -> bool {
    match content {
        Some(Tree::Str(s)) => if s.len() == 0 {
            blocks.len() == 0
        } else {
            blocks.len() == 1 && chat_message_laws::is_text(blocks[0], s)
        },
        Some(Tree::Arr(parts)) => are_parts(blocks, parts),
        _ => blocks.len() == 0,
    }
}

proof fn lemma_image(url: Seq<char>)
    ensures
        ({
            let block = responses::image_block(url);
            &&& block.get("type"@) == Some(Tree::Str("image"@))
            &&& block.get("source"@) matches Some(source)
            &&& shows(source, url)
        }),
{
    keys::lemma_words();
    let head = "data:"@;
    let mid = ";base64,"@;
    let rest = url.skip(head.len() as int);
    text::lemma_find_from(rest, mid, 0);
    if head.is_prefix_of(url) && text::find(rest, mid) is Some {
        let at = text::find(rest, mid)->0;
        let media_type = rest.take(at);
        let data = rest.skip(at + mid.len());
        assert(rest.subrange(at, at + mid.len()) == mid);
        assert(rest =~= media_type + mid + data);
        assert(url =~= head + rest);
        assert(chat_message_laws::carries(url, media_type, data)) by {
            assert(url =~= head + media_type + mid + data);
        }
    } else {
        assert forall|media_type: Seq<char>, data: Seq<char>| !#[trigger]
            chat_message_laws::carries(url, media_type, data) by {
            if chat_message_laws::carries(url, media_type, data) {
                assert(url.take(head.len() as int) =~= head);
                assert(rest =~= media_type + mid + data);
                assert(rest.subrange(
                    media_type.len() as int,
                    (media_type.len() + mid.len()) as int,
                ) =~= mid);
                assert(text::occurs_at(rest, mid, media_type.len() as int));
            }
        }
    }
}

/// The parts of an item become blocks in their order: each text that is not empty becomes a
/// block with that text, and each image a block with that image, or a note of its file.
/// Nothing else is made and nothing is left out.
pub proof fn law_parts_become_blocks(parts: Seq<Tree>)
    ensures
        are_parts(steps::gather(parts, Seq::empty(), responses::part_step()), parts),
    decreases parts.len(),
{
    keys::lemma_words();
    reveal(Seq::filter);
    if parts.len() > 0 {
        let rest = parts.drop_last();
        law_parts_become_blocks(rest);
        if let Some(Tree::Str(url)) = parts.last().get("image_url"@) {
            lemma_image(url);
        }
    }
}

/// The role of an item, which is the user's where it has none.
pub open spec fn role(item: Tree) -> Seq<char> {
    chat_message_laws::text_or(item, "role"@, "user"@)
}

/// The item is a message, as one without a type is.
pub open spec fn is_message(item: Tree) -> bool {
    !(item is Str) && (item.get("type"@) == Some(Tree::Str("message"@)) || !(item.get(
        "type"@,
    ) matches Some(Tree::Str(_))))
}

/// The item instructs the model.
pub open spec fn is_system(item: Tree) -> bool {
    is_message(item) && (role(item) == "system"@ || role(item) == "developer"@)
}

/// The item is a call that the assistant made.
pub open spec fn is_call(item: Tree) -> bool {
    item.get("type"@) == Some(Tree::Str("function_call"@))
}

/// The item is the result of a call.
pub open spec fn is_output(item: Tree) -> bool {
    item.get("type"@) == Some(Tree::Str("function_call_output"@))
}

/// The turn is what the item says, by the same speaker.
pub open spec fn is_turn(turn: Tree, item: Tree) -> bool {
    &&& turn.get("content"@) matches Some(Tree::Arr(blocks))
    &&& match item {
        Tree::Str(s) => turn.get("role"@) == Some(Tree::Str("user"@)) && blocks.len() == 1
            && chat_message_laws::is_text(blocks[0], s),
        _ => if is_call(item) {
            &&& turn.get("role"@) == Some(Tree::Str("assistant"@))
            &&& blocks.len() == 1
            &&& blocks[0].get("type"@) == Some(Tree::Str("tool_use"@))
            &&& blocks[0].get("id"@) == Some(
                Tree::Str(chat_message_laws::text_or(item, "call_id"@, ""@)),
            )
            &&& blocks[0].get("name"@) == Some(
                Tree::Str(chat_message_laws::text_or(item, "name"@, ""@)),
            )
            &&& blocks[0].get("input"@) matches Some(input)
            &&& chat_message_laws::is_input(input, item.get("arguments"@))
        } else {
            &&& turn.get("role"@) == Some(Tree::Str(chat_message_laws::speaker(role(item))))
            &&& are_content(blocks, item.get("content"@))
        },
    }
}

proof fn lemma_message(role: Seq<char>, content: Seq<Tree>)
    ensures
        chat::message(role, content).get("role"@) == Some(Tree::Str(role)),
        chat::message(role, content).get("content"@) == Some(Tree::Arr(content)),
{
    keys::lemma_words();
}

/// What an input comes to before what waits for its message gets it.
spec fn after(items: Seq<Tree>, system: Seq<Seq<char>>) -> Outcome<Conversation> {
    steps::run(
        items,
        Conversation { system, out: Seq::empty(), pending: Seq::empty() },
        responses::item_step(),
    )
}

proof fn lemma_push(items: Seq<Tree>, item: Tree, system: Seq<Seq<char>>)
    ensures
        after(items.push(item), system) == (match after(items, system) {
            Outcome::Done(c) => responses::item_step()(c, items.len() as int, item),
            Outcome::Refused(m) => Outcome::Refused(m),
        }),
{
    assert(items.push(item).drop_last() =~= items);
}

/// One more item that is a text, a message of the user or the assistant, or a call of the
/// assistant is one more turn at the end, by the same speaker with the same content; nothing
/// else changes.
pub proof fn law_one_more_turn(items: Seq<Tree>, item: Tree, system: Seq<Seq<char>>)
    requires
        item is Str || is_call(item) || (is_message(item) && !is_system(item)),
    ensures
        match (
            responses::input_of(Some(Tree::Arr(items)), system),
            responses::input_of(Some(Tree::Arr(items.push(item))), system),
        ) {
            (Outcome::Done(c), Outcome::Done(next)) => {
                &&& next.0 == c.0
                &&& next.1.len() > 0
                &&& next.1.drop_last() == c.1
                &&& is_turn(next.1.last(), item)
            },
            (Outcome::Refused(a), Outcome::Refused(b)) => a == b,
            _ => false,
        },
{
    keys::lemma_words();
    lemma_push(items, item, system);
    if let Outcome::Done(c) = after(items, system) {
        let out = c.flushed().out;
        let turn = match item {
            Tree::Str(s) => responses::user_text(s),
            _ => if is_call(item) {
                responses::call_message(item)
            } else {
                chat::message(chat_message_laws::speaker(role(item)), responses::item_blocks(item))
            },
        };
        let next = responses::input_of(Some(Tree::Arr(items.push(item))), system)->Done_0;
        assert(next.1 == out.push(turn));
        assert(next.1.drop_last() =~= out);
        match item {
            Tree::Str(s) => {
                lemma_message("user"@, seq![chat::text_block(s)]);
            },
            _ => {
                if is_call(item) {
                    let blocks = turn.get("content"@)->0->Arr_0;
                    assert(blocks.len() == 1);
                } else {
                    lemma_message(
                        chat_message_laws::speaker(role(item)),
                        responses::item_blocks(item),
                    );
                    if let Some(Tree::Arr(parts)) = item.get("content"@) {
                        law_parts_become_blocks(parts);
                    }
                }
            },
        }
    }
}

/// The last item that is no instruction is the result of a call.
pub open spec fn waits(items: Seq<Tree>) -> bool
    decreases items.len(),
{
    items.len() > 0 && (is_output(items.last()) || (is_system(items.last()) && waits(
        items.drop_last(),
    )))
}

proof fn lemma_waiting(items: Seq<Tree>, system: Seq<Seq<char>>)
    ensures
        after(items, system) matches Outcome::Done(c) ==> (c.pending.len() > 0 <==> waits(items)),
    decreases items.len(),
{
    keys::lemma_words();
    if items.len() > 0 {
        lemma_waiting(items.drop_last(), system);
    }
}

/// The block is the result that the item brings, for the call that it answers.
pub open spec fn is_result(block: Tree, item: Tree) -> bool {
    &&& block.get("type"@) == Some(Tree::Str("tool_result"@))
    &&& block.get("tool_use_id"@) == Some(
        Tree::Str(chat_message_laws::text_or(item, "call_id"@, ""@)),
    )
    &&& block.get("content"@) == Some(
        match item.get("output"@) {
            Some(output) => output,
            None => Tree::Str(""@),
        },
    )
}

/// One more result of a call comes in the turn of the results right before it, or in a turn
/// of its own where there are none; nothing else changes.
pub proof fn law_one_more_result(items: Seq<Tree>, item: Tree, system: Seq<Seq<char>>)
    requires
        is_output(item),
    ensures
        match (
            responses::input_of(Some(Tree::Arr(items)), system),
            responses::input_of(Some(Tree::Arr(items.push(item))), system),
        ) {
            (Outcome::Done(c), Outcome::Done(next)) => {
                &&& next.0 == c.0
                &&& next.1.len() > 0
                &&& next.1.last().get("content"@) matches Some(Tree::Arr(results))
                &&& results.len() > 0
                &&& chat_message_laws::holds_results(next.1.last(), results)
                &&& is_result(results.last(), item)
                &&& if waits(items) {
                    &&& c.1.len() == next.1.len()
                    &&& next.1.drop_last() == c.1.drop_last()
                    &&& chat_message_laws::holds_results(c.1.last(), results.drop_last())
                } else {
                    results.len() == 1 && next.1.drop_last() == c.1
                }
            },
            (Outcome::Refused(a), Outcome::Refused(b)) => a == b,
            _ => false,
        },
{
    keys::lemma_words();
    lemma_push(items, item, system);
    lemma_waiting(items, system);
    if let Outcome::Done(c) = after(items, system) {
        let block = responses::output_block(item);
        assert(is_result(block, item));
        let results = c.pending.push(block);
        lemma_message("user"@, results);
        lemma_message("user"@, c.pending);
        let next = responses::input_of(Some(Tree::Arr(items.push(item))), system)->Done_0;
        let turn = chat::message("user"@, results);
        assert(next.1 == c.out.push(turn));
        assert(next.1.drop_last() =~= c.out);
        assert(results.drop_last() =~= c.pending);
        if c.pending.len() > 0 {
            assert(c.flushed().out.drop_last() =~= c.out);
        }
    }
}

/// A part that has a text that is not empty.
pub open spec fn has_text() -> spec_fn(Tree) -> bool {
    |part: Tree| part.get("text"@) matches Some(Tree::Str(s)) && s.len() > 0
}

/// The texts of an instruction: the text itself, or those of its parts, but none that is
/// empty.
pub open spec fn instructions(content: Option<Tree>) -> Seq<Seq<char>> {
    match content {
        Some(Tree::Str(s)) => if s.len() == 0 {
            Seq::empty()
        } else {
            seq![s]
        },
        Some(Tree::Arr(parts)) => parts.filter(has_text()).map_values(
            |part: Tree| chat_message_laws::text_or(part, "text"@, ""@),
        ),
        _ => Seq::empty(),
    }
}

proof fn lemma_texts(parts: Seq<Tree>, system: Seq<Seq<char>>)
    ensures
        steps::gather(parts, system, responses::system_step()) == system + instructions(
            Some(Tree::Arr(parts)),
        ),
    decreases parts.len(),
{
    reveal(Seq::filter);
    let said = |part: Tree| chat_message_laws::text_or(part, "text"@, ""@);
    if parts.len() > 0 {
        let rest = parts.drop_last();
        lemma_texts(rest, system);
        let kept = rest.filter(has_text());
        assert(kept.push(parts.last()).map_values(said) =~= kept.map_values(said).push(
            said(parts.last()),
        ));
        let told = instructions(Some(Tree::Arr(rest)));
        if has_text()(parts.last()) {
            assert((system + told).push(said(parts.last())) =~= system + told.push(
                said(parts.last()),
            ));
        }
    } else {
        assert(instructions(Some(Tree::Arr(parts))) =~= Seq::empty());
        assert(system + Seq::<Seq<char>>::empty() =~= system);
    }
}

/// One more instruction adds its texts to the system texts at the end, and no turn.
pub proof fn law_one_more_instruction(items: Seq<Tree>, item: Tree, system: Seq<Seq<char>>)
    requires
        is_system(item),
    ensures
        match (
            responses::input_of(Some(Tree::Arr(items)), system),
            responses::input_of(Some(Tree::Arr(items.push(item))), system),
        ) {
            (Outcome::Done(c), Outcome::Done(next)) => next.1 == c.1 && next.0 == c.0
                + instructions(item.get("content"@)),
            (Outcome::Refused(a), Outcome::Refused(b)) => a == b,
            _ => false,
        },
{
    keys::lemma_words();
    lemma_push(items, item, system);
    if let Outcome::Done(c) = after(items, system) {
        if let Some(Tree::Arr(parts)) = item.get("content"@) {
            lemma_texts(parts, c.system);
        }
        assert(responses::with_system(c.system, item) =~= c.system + instructions(
            item.get("content"@),
        ));
    }
}

/// An item that can be translated.
pub open spec fn is_sound(item: Tree) -> bool {
    item is Str || is_call(item) || is_output(item) || is_message(item)
}

/// Items that can be translated.
pub open spec fn are_sound(items: Seq<Tree>) -> bool {
    forall|k: int| 0 <= k < items.len() ==> is_sound(#[trigger] items[k])
}

/// An input that can be translated.
pub open spec fn is_sound_input(input: Option<Tree>) -> bool {
    match input {
        None => true,
        Some(Tree::Null) => true,
        Some(Tree::Str(_)) => true,
        Some(Tree::Arr(items)) => are_sound(items),
        _ => false,
    }
}

/// An input is refused where it cannot be translated, and only there. A text alone is one turn
/// of the user, and an empty one, or none, is no turn.
pub proof fn law_sound_input_is_accepted(input: Option<Tree>, system: Seq<Seq<char>>)
    ensures
        responses::input_of(input, system) is Done <==> is_sound_input(input),
        match input {
            Some(Tree::Str(s)) if s.len() > 0 => responses::input_of(
                input,
                system,
            ) matches Outcome::Done(c) && c.0 == system && c.1.len() == 1 && is_turn(
                c.1[0],
                Tree::Str(s),
            ),
            Some(Tree::Arr(items)) if items.len() > 0 => true,
            _ => responses::input_of(input, system) matches Outcome::Done(c) ==> c.0 == system
                && c.1.len() == 0,
        },
{
    keys::lemma_words();
    match input {
        Some(Tree::Arr(items)) => {
            lemma_sound_items(items, system);
            assert(responses::input_of(input, system) is Done <==> after(items, system) is Done);
        },
        Some(Tree::Str(s)) => {
            lemma_message("user"@, seq![chat::text_block(s)]);
        },
        _ => {},
    }
}

proof fn lemma_sound_items(items: Seq<Tree>, system: Seq<Seq<char>>)
    ensures
        after(items, system) is Done <==> are_sound(items),
    decreases items.len(),
{
    keys::lemma_words();
    if items.len() > 0 {
        let rest = items.drop_last();
        lemma_sound_items(rest, system);
        let item = items.last();
        assert(item == items[items.len() - 1]);
        if are_sound(items) {
            assert forall|k: int| 0 <= k < rest.len() implies is_sound(#[trigger] rest[k]) by {
                assert(rest[k] == items[k]);
            }
            assert(is_sound(items[items.len() - 1]));
        }
        if after(items, system) is Done {
            assert forall|k: int| 0 <= k < items.len() implies is_sound(#[trigger] items[k]) by {
                if k < rest.len() {
                    assert(rest[k] == items[k]);
                }
            }
        }
    }
}

} // verus!
