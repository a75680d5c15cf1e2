//! What holds of every request body that is sent upstream.

use vstd::prelude::*;

use crate::json;
use crate::json::Tree;
use crate::proxy::body;
use crate::proxy::body::{BlockRule, Shape};

verus! {

/// What the rule leaves are blocks that were there, and none that it takes out.
proof fn lemma_kept_blocks(rule: BlockRule, blocks: Seq<Tree>)
    ensures
        forall|i: int|
            0 <= i < body::kept_blocks(rule, blocks).len() ==> !body::rule_drops(
                rule,
                #[trigger] body::kept_blocks(rule, blocks)[i],
            ) && blocks.contains(body::kept_blocks(rule, blocks)[i]),
    decreases blocks.len(),
{
    if blocks.len() > 0 {
        let rest = blocks.drop_last();
        lemma_kept_blocks(rule, rest);
        let kept = body::kept_blocks(rule, blocks);
        let before = body::kept_blocks(rule, rest);
        assert forall|i: int| 0 <= i < kept.len() implies !body::rule_drops(
            rule,
            #[trigger] kept[i],
        ) && blocks.contains(kept[i]) by {
            if i < before.len() {
                assert(kept[i] == before[i]);
                let j = choose|j: int| 0 <= j < rest.len() && rest[j] == before[i];
                assert(blocks[j] == kept[i]);
            } else {
                assert(kept[i] == blocks[blocks.len() - 1]);
            }
        }
    }
}

proof fn lemma_content_key()
    ensures
        "content"@ != "role"@,
        "messages"@ != "context_management"@,
        "messages"@ != "thinking"@,
        "messages"@ != "output_config"@,
        "messages"@ != "system"@,
        "messages"@ != "model"@,
{
    reveal_strlit("content");
    reveal_strlit("role");
    reveal_strlit("messages");
    reveal_strlit("context_management");
    reveal_strlit("thinking");
    reveal_strlit("output_config");
    reveal_strlit("system");
    reveal_strlit("model");
    assert("content"@.len() == 7);
    assert("role"@.len() == 4);
    assert("messages"@.len() == 8);
    assert("context_management"@.len() == 18);
    assert("thinking"@.len() == 8);
    assert("output_config"@.len() == 13);
    assert("system"@.len() == 6);
    assert("model"@.len() == 5);
    assert("messages"@[0] != "thinking"@[0]);
}

/// The message holds no block that the rule takes out of it.
pub open spec fn is_clean(rule: BlockRule, msg: Tree) -> bool {
    body::rule_covers(rule, msg) ==> forall|j: int|
        0 <= j < body::content_blocks(msg).len() ==> !body::rule_drops(
            rule,
            #[trigger] body::content_blocks(msg)[j],
        )
}

/// A message that has been through a rule is clean of it, keeps its role, and has no block
/// that it did not have before.
proof fn lemma_kept_message(rule: BlockRule, msg: Tree)
    ensures
        is_clean(rule, body::kept_message(rule, msg)),
        body::kept_message(rule, msg).get("role"@) == msg.get("role"@),
        forall|j: int|
            0 <= j < body::content_blocks(body::kept_message(rule, msg)).len()
                ==> body::content_blocks(msg).contains(
                #[trigger] body::content_blocks(body::kept_message(rule, msg))[j],
            ),
{
    lemma_content_key();
    lemma_kept_blocks(rule, body::content_blocks(msg));
    let blocks = body::content_blocks(msg);
    assert forall|j: int| 0 <= j < blocks.len() implies blocks.contains(#[trigger] blocks[j]) by {}
}

/// The messages of a request.
pub open spec fn messages_of(doc: Tree) -> Seq<Tree> {
    match doc.get("messages"@) {
        Some(Tree::Arr(messages)) => messages,
        _ => Seq::empty(),
    }
}

/// A request that is sent upstream has no thinking block without a signature in an
/// assistant message, no empty text block, and no `context_management`.
pub proof fn law_sent_requests_are_clean(doc: Tree, shape: Shape)
    ensures
        ({
            let sent = body::shaped(doc, shape);
            &&& sent.get("context_management"@) is None
            &&& forall|i: int|
                0 <= i < messages_of(sent).len() ==> is_clean(
                    BlockRule::UnsignedThinking,
                    #[trigger] messages_of(sent)[i],
                ) && is_clean(BlockRule::EmptyText, messages_of(sent)[i])
        }),
{
    lemma_content_key();
    let sent = body::shaped(doc, shape);
    assert forall|i: int| 0 <= i < messages_of(sent).len() implies is_clean(
        BlockRule::UnsignedThinking,
        #[trigger] messages_of(sent)[i],
    ) && is_clean(BlockRule::EmptyText, messages_of(sent)[i]) by {
        let doc1 = body::with_mapped_model(doc, shape.mappings);
        let doc2 = if body::merges_prompt(shape) {
            body::with_system(doc1, shape.prompt)
        } else {
            doc1
        };
        let doc3 = if shape.remove_thinking {
            body::without_field(body::without_field(doc2, "thinking"@), "output_config"@)
        } else {
            doc2
        };
        let signed = body::kept_request(BlockRule::UnsignedThinking, doc3);
        let filled = body::kept_request(BlockRule::EmptyText, signed);
        assert(sent == body::without_field(filled, "context_management"@));
        assert(messages_of(sent) == messages_of(filled));
        let before = messages_of(doc3)[i];
        let once = body::kept_message(BlockRule::UnsignedThinking, before);
        let twice = body::kept_message(BlockRule::EmptyText, once);
        assert(messages_of(signed)[i] == once);
        assert(messages_of(filled)[i] == twice);
        lemma_kept_message(BlockRule::UnsignedThinking, before);
        lemma_kept_message(BlockRule::EmptyText, once);
        if body::rule_covers(BlockRule::UnsignedThinking, twice) {
            assert forall|j: int| 0 <= j < body::content_blocks(twice).len() implies !body::rule_drops(
                BlockRule::UnsignedThinking,
                #[trigger] body::content_blocks(twice)[j],
            ) by {
                let n = choose|n: int|
                    0 <= n < body::content_blocks(once).len() && body::content_blocks(once)[n]
                        == body::content_blocks(twice)[j];
                assert(!body::rule_drops(
                    BlockRule::UnsignedThinking,
                    body::content_blocks(once)[n],
                ));
            }
        }
    }
}

/// Where a server wants none, a request that is sent to it asks for no thinking.
pub proof fn law_thinking_is_removed_on_demand(doc: Tree, shape: Shape)
    requires
        shape.remove_thinking,
    ensures
        body::shaped(doc, shape).get("thinking"@) is None,
        body::shaped(doc, shape).get("output_config"@) is None,
{
    lemma_content_key();
    reveal_strlit("messages");
    reveal_strlit("output_config");
    assert("messages"@.len() != "output_config"@.len());
}

/// Thinking blocks of messages that are not the assistant's are left alone.
pub proof fn law_user_thinking_is_untouched(msg: Tree)
    requires
        json::str_in(msg.get("role"@)) != Some("assistant"@),
    ensures
        body::kept_message(BlockRule::Thinking, msg) == msg,
        body::kept_message(BlockRule::UnsignedThinking, msg) == msg,
{
}

/// A request whose thinking blocks have been stripped has none left: stripping it again
/// changes nothing.
pub proof fn law_stripping_thinking_is_final(doc: Tree)
    ensures
        body::without_thinking(doc) matches Some(stripped) ==> body::without_thinking(stripped)
            is None,
{
    lemma_content_key();
    if body::without_thinking(doc) is Some {
        let stripped = body::without_thinking(doc)->0;
        let messages = messages_of(stripped);
        assert forall|i: int, j: int|
            0 <= i < messages.len() && body::rule_covers(BlockRule::Thinking, messages[i]) && 0 <= j
                < body::content_blocks(messages[i]).len() implies !#[trigger] body::rule_drops(
            BlockRule::Thinking,
            body::content_blocks(messages[i])[j],
        ) by {
            lemma_kept_message(BlockRule::Thinking, messages_of(doc)[i]);
            assert(messages[i] == body::kept_message(BlockRule::Thinking, messages_of(doc)[i]));
        }
    }
}

/// A model without a mapping is sent as the client named it.
pub proof fn law_unmapped_model_is_kept(doc: Tree, mappings: Tree)
    requires
        body::mapped_model(doc, mappings) is None,
    ensures
        body::with_mapped_model(doc, mappings) == doc,
{
}

/// Documents that are alike hold the same texts under the same keys.
proof fn lemma_alike_members(a: Tree, b: Tree, depth: nat, key: Seq<char>)
    requires
        json::alike(a, b, depth),
        depth > 0,
    ensures
        a.get(key) is Some <==> b.get(key) is Some,
        a.get(key) is Some ==> json::alike(a.get(key)->0, b.get(key)->0, (depth - 1) as nat) || a
            == b,
        json::str_in(a.get(key)) == json::str_in(b.get(key)),
        a is Obj <==> b is Obj,
{
    reveal_with_fuel(json::alike, 2);
}

/// A message that is like a clean one is clean.
proof fn lemma_alike_clean(rule: BlockRule, a: Tree, b: Tree, depth: nat)
    requires
        json::alike(a, b, depth),
        depth >= 3,
        is_clean(rule, b),
    ensures
        is_clean(rule, a),
{
    lemma_alike_members(a, b, depth, "role"@);
    lemma_alike_members(a, b, depth, "content"@);
    if body::rule_covers(rule, a) {
        let blocks = body::content_blocks(a);
        assert forall|j: int| 0 <= j < blocks.len() implies !body::rule_drops(
            rule,
            #[trigger] blocks[j],
        ) by {
            let other = body::content_blocks(b)[j];
            assert(!body::rule_drops(rule, other));
            if a != b {
                assert(json::alike(blocks[j], other, (depth - 2) as nat));
                lemma_alike_members(blocks[j], other, (depth - 2) as nat, "type"@);
                lemma_alike_members(blocks[j], other, (depth - 2) as nat, "signature"@);
                lemma_alike_members(blocks[j], other, (depth - 2) as nat, "text"@);
            }
        }
    }
}

/// What a rule takes nothing out of, it leaves as it is.
proof fn lemma_clean_blocks(rule: BlockRule, blocks: Seq<Tree>)
    requires
        forall|j: int| 0 <= j < blocks.len() ==> !body::rule_drops(rule, #[trigger] blocks[j]),
    ensures
        body::kept_blocks(rule, blocks) == blocks,
    decreases blocks.len(),
{
    if blocks.len() > 0 {
        let rest = blocks.drop_last();
        assert forall|j: int| 0 <= j < rest.len() implies !body::rule_drops(
            rule,
            #[trigger] rest[j],
        ) by {
            assert(rest[j] == blocks[j]);
        }
        lemma_clean_blocks(rule, rest);
        assert(blocks.last() == blocks[blocks.len() - 1]);
        assert(rest.push(blocks.last()) =~= blocks);
    } else {
        assert(blocks =~= Seq::empty());
    }
}

/// All messages of the request are clean of the rule.
pub open spec fn all_clean(rule: BlockRule, doc: Tree) -> bool {
    forall|i: int| 0 <= i < messages_of(doc).len() ==> is_clean(rule, #[trigger] messages_of(doc)[i])
}

/// A request that is clean of a rule is left as it is.
proof fn lemma_clean_request(rule: BlockRule, doc: Tree)
    requires
        all_clean(rule, doc),
    ensures
        body::kept_request(rule, doc) == doc,
{
    match (doc, doc.get("messages"@)) {
        (Tree::Obj(m), Some(Tree::Arr(messages))) => {
            let kept = messages.map_values(|msg: Tree| body::kept_message(rule, msg));
            assert forall|i: int| 0 <= i < messages.len() implies kept[i] == messages[i] by {
                let msg = messages_of(doc)[i];
                assert(is_clean(rule, msg));
                if body::rule_covers(rule, msg) && msg is Obj && msg.get("content"@) matches Some(
                    Tree::Arr(_),
                ) {
                    lemma_clean_blocks(rule, body::content_blocks(msg));
                    let n = msg->Obj_0;
                    assert(n.insert("content"@, Tree::Arr(body::content_blocks(msg))) =~= n);
                }
            }
            assert(kept =~= messages);
            assert(m.insert("messages"@, Tree::Arr(messages)) =~= m);
        },
        _ => {},
    }
}

/// A request that is like a clean one is clean.
proof fn lemma_alike_all_clean(rule: BlockRule, a: Tree, b: Tree)
    requires
        json::alike(a, b, 127),
        all_clean(rule, b),
    ensures
        all_clean(rule, a),
{
    lemma_alike_members(a, b, 127, "messages"@);
    assert forall|i: int| 0 <= i < messages_of(a).len() implies is_clean(
        rule,
        #[trigger] messages_of(a)[i],
    ) by {
        assert(is_clean(rule, messages_of(b)[i]));
        if a != b {
            lemma_alike_clean(rule, messages_of(a)[i], messages_of(b)[i], 125);
        }
    }
}

/// A request without thinking blocks has none to strip.
proof fn lemma_clean_has_no_thinking(doc: Tree)
    requires
        all_clean(BlockRule::Thinking, doc),
    ensures
        body::without_thinking(doc) is None,
{
    let messages = messages_of(doc);
    assert forall|i: int, j: int|
        0 <= i < messages.len() && body::rule_covers(BlockRule::Thinking, messages[i]) && 0 <= j
            < body::content_blocks(messages[i]).len() implies !#[trigger] body::rule_drops(
        BlockRule::Thinking,
        body::content_blocks(messages[i])[j],
    ) by {
        assert(is_clean(BlockRule::Thinking, messages[i]));
    }
}

/// A request that has been through a rule is clean of it.
proof fn lemma_kept_is_clean(rule: BlockRule, doc: Tree)
    ensures
        doc is Obj ==> all_clean(rule, body::kept_request(rule, doc)),
{
    let kept = body::kept_request(rule, doc);
    if doc is Obj {
        assert forall|i: int| 0 <= i < messages_of(kept).len() implies is_clean(
            rule,
            #[trigger] messages_of(kept)[i],
        ) by {
            lemma_kept_message(rule, messages_of(doc)[i]);
            assert(messages_of(kept)[i] == body::kept_message(rule, messages_of(doc)[i]));
        }
    }
}

/// A request that is like one whose thinking blocks were stripped has none.
pub proof fn lemma_like_stripped(doc: Tree, again: Tree)
    requires
        body::without_thinking(doc) matches Some(stripped) && json::alike(again, stripped, 127),
    ensures
        body::without_thinking(again) is None,
{
    lemma_kept_is_clean(BlockRule::Thinking, doc);
    lemma_alike_all_clean(BlockRule::Thinking, again, body::without_thinking(doc)->0);
    lemma_clean_has_no_thinking(again);
}

/// What a rule leaves of a readable request is readable.
proof fn lemma_kept_readable(rule: BlockRule, doc: Tree)
    requires
        json::readable(doc, 127),
    ensures
        json::readable(body::kept_request(rule, doc), 127),
{
    match (doc, doc.get("messages"@)) {
        (Tree::Obj(m), Some(Tree::Arr(messages))) => {
            let kept = messages.map_values(|msg: Tree| body::kept_message(rule, msg));
            assert(m.dom().contains("messages"@));
            assert(json::readable(Tree::Arr(messages), 126));
            assert forall|i: int| 0 <= i < kept.len() implies json::readable(
                #[trigger] kept[i],
                125,
            ) by {
                let msg = messages[i];
                assert(json::readable(msg, 125));
                if body::kept_message(rule, msg) != msg {
                    let n = msg->Obj_0;
                    let blocks = body::content_blocks(msg);
                    let left = body::kept_blocks(rule, blocks);
                    lemma_kept_blocks(rule, blocks);
                    assert(n.dom().contains("content"@));
                    assert(json::readable(Tree::Arr(blocks), 124));
                    assert forall|j: int| 0 <= j < left.len() implies json::readable(
                        #[trigger] left[j],
                        123,
                    ) by {
                        let k = choose|k: int| 0 <= k < blocks.len() && blocks[k] == left[j];
                        assert(json::readable(blocks[k], 123));
                    }
                    assert(json::readable(Tree::Arr(left), 124));
                    let changed = n.insert("content"@, Tree::Arr(left));
                    assert forall|k: Seq<char>| #[trigger] changed.dom().contains(k) implies k
                        != json::reserved_key() && json::readable(changed[k], 124) by {
                        assert(n.dom().contains(k));
                    }
                    assert(kept[i] == Tree::Obj(changed));
                }
            }
            assert(json::readable(Tree::Arr(kept), 126));
            let changed = m.insert("messages"@, Tree::Arr(kept));
            assert forall|k: Seq<char>| #[trigger] changed.dom().contains(k) implies k
                != json::reserved_key() && json::readable(changed[k], 126) by {
                assert(m.dom().contains(k));
            }
        },
        _ => {},
    }
}

proof fn lemma_without_field_readable(doc: Tree, field: Seq<char>)
    requires
        json::readable(doc, 127),
    ensures
        json::readable(body::without_field(doc, field), 127),
{
    if let Tree::Obj(m) = doc {
        assert forall|k: Seq<char>| #[trigger] m.remove(field).dom().contains(k) implies k
            != json::reserved_key() && json::readable(m.remove(field)[k], 126) by {
            assert(m.dom().contains(k));
        }
    }
}

/// What is left of a readable request without its thinking blocks is readable.
pub proof fn lemma_stripped_readable(doc: Tree)
    requires
        json::readable(doc, 127),
    ensures
        body::without_thinking(doc) matches Some(stripped) ==> json::readable(stripped, 127),
{
    lemma_kept_readable(BlockRule::Thinking, doc);
}

/// A server's shape that neither maps this request's model nor merges a prompt.
pub open spec fn leaves_text(doc: Tree, shape: Shape) -> bool {
    !body::merges_prompt(shape) && body::mapped_model(doc, shape.mappings) is None
}

/// The request as it is sent to a server is readable where it was before.
pub proof fn lemma_shaped_readable(doc: Tree, shape: Shape)
    requires
        json::readable(doc, 127),
        leaves_text(doc, shape),
    ensures
        json::readable(body::shaped(doc, shape), 127),
{
    lemma_without_field_readable(doc, "thinking"@);
    lemma_without_field_readable(body::without_field(doc, "thinking"@), "output_config"@);
    let asked = if shape.remove_thinking {
        body::without_field(body::without_field(doc, "thinking"@), "output_config"@)
    } else {
        doc
    };
    lemma_kept_readable(BlockRule::UnsignedThinking, asked);
    let signed = body::kept_request(BlockRule::UnsignedThinking, asked);
    lemma_kept_readable(BlockRule::EmptyText, signed);
    lemma_without_field_readable(
        body::kept_request(BlockRule::EmptyText, signed),
        "context_management"@,
    );
}

/// The request needs no shaping: it has nothing that is taken out.
pub open spec fn needs_no_shaping(doc: Tree, shape: Shape) -> bool {
    &&& leaves_text(doc, shape)
    &&& doc.get("context_management"@) is None
    &&& shape.remove_thinking ==> doc.get("thinking"@) is None && doc.get("output_config"@) is None
    &&& all_clean(BlockRule::UnsignedThinking, doc)
    &&& all_clean(BlockRule::EmptyText, doc)
}

proof fn lemma_absent_field(doc: Tree, field: Seq<char>)
    requires
        doc.get(field) is None,
    ensures
        body::without_field(doc, field) == doc,
{
    if let Tree::Obj(m) = doc {
        assert(m.remove(field) =~= m);
    }
}

/// A request that needs no shaping is sent as it is.
pub proof fn lemma_unshaped(doc: Tree, shape: Shape)
    requires
        needs_no_shaping(doc, shape),
    ensures
        body::shaped(doc, shape) == doc,
{
    law_unmapped_model_is_kept(doc, shape.mappings);
    lemma_absent_field(doc, "context_management"@);
    if shape.remove_thinking {
        lemma_absent_field(doc, "thinking"@);
        lemma_absent_field(doc, "output_config"@);
    }
    lemma_clean_request(BlockRule::UnsignedThinking, doc);
    lemma_clean_request(BlockRule::EmptyText, doc);
}

/// A request that is like one that needs no shaping needs none.
proof fn lemma_like_unshaped(a: Tree, b: Tree, shape: Shape)
    requires
        json::alike(a, b, 127),
        needs_no_shaping(b, shape),
    ensures
        needs_no_shaping(a, shape),
{
    lemma_alike_members(a, b, 127, "model"@);
    lemma_alike_members(a, b, 127, "context_management"@);
    lemma_alike_members(a, b, 127, "thinking"@);
    lemma_alike_members(a, b, 127, "output_config"@);
    lemma_alike_all_clean(BlockRule::UnsignedThinking, a, b);
    lemma_alike_all_clean(BlockRule::EmptyText, a, b);
}

/// What has been shaped needs no more shaping.
proof fn lemma_shaped_is_settled(doc: Tree, shape: Shape)
    requires
        leaves_text(doc, shape),
    ensures
        needs_no_shaping(body::shaped(doc, shape), shape),
{
    lemma_content_key();
    law_sent_requests_are_clean(doc, shape);
    if shape.remove_thinking {
        law_thinking_is_removed_on_demand(doc, shape);
    }
    reveal_strlit("model");
    reveal_strlit("messages");
    reveal_strlit("context_management");
    reveal_strlit("thinking");
    reveal_strlit("output_config");
    assert("model"@.len() == 5);
    assert("messages"@.len() == 8);
    assert("context_management"@.len() == 18);
    assert("thinking"@.len() == 8);
    assert("output_config"@.len() == 13);
    assert(body::shaped(doc, shape).get("model"@) == doc.get("model"@));
}

/// Shaping is final: where a shape neither maps the model nor merges a prompt, a request that
/// has been shaped by it is left as it is by a second time.
pub proof fn law_shaping_is_final(doc: Tree, shape: Shape)
    requires
        leaves_text(doc, shape),
    ensures
        body::shaped(body::shaped(doc, shape), shape) == body::shaped(doc, shape),
{
    lemma_shaped_is_settled(doc, shape);
    lemma_unshaped(body::shaped(doc, shape), shape);
}

/// A request that is like a shaped one is left as it is by the same shape.
pub proof fn lemma_like_shaped(doc: Tree, shape: Shape, again: Tree)
    requires
        leaves_text(doc, shape),
        json::alike(again, body::shaped(doc, shape), 127),
    ensures
        body::shaped(again, shape) == again,
{
    lemma_shaped_is_settled(doc, shape);
    lemma_like_unshaped(again, body::shaped(doc, shape), shape);
    lemma_unshaped(again, shape);
}

} // verus!
