use vstd::prelude::*;

use crate::protocol::ItemView;
use crate::json::{member, JsonView};
use crate::request::{
    anthropic_messages, message_json, request_json, convert_items, convert_step, flush_pending, image_source, user_blocks,
    BlockView, ConvertModel, MessageView, Role,
};
use crate::text::{first_position, lemma_first_position_unique, split_once, strip_prefix, trim_start_matches};

verus! {

/// Every assistant message has content.
pub open spec fn assistant_messages_have_content(messages: Seq<MessageView>) -> bool {
    forall|i: int|
        0 <= i < messages.len() && (#[trigger] messages[i]).role == Role::Assistant
            ==> messages[i].content.len() > 0
}

/// Messages plus the one being gathered.
pub open spec fn message_count(c: ConvertModel) -> int {
    c.messages.len() + if c.pending is Some { 1int } else { 0int }
}

proof fn lemma_flush_keeps(c: ConvertModel)
    requires
        assistant_messages_have_content(c.messages),
    ensures
        assistant_messages_have_content(flush_pending(c).messages),
        message_count(flush_pending(c)) <= message_count(c),
        flush_pending(c).system == c.system,
        flush_pending(c).pending is None,
{
    let f = flush_pending(c);
    assert forall|i: int|
        0 <= i < f.messages.len() && (#[trigger] f.messages[i]).role == Role::Assistant implies f.messages[i].content.len() > 0 by {
        if i < c.messages.len() {
            assert(f.messages[i] == c.messages[i]);
        }
    }
}

proof fn lemma_step_keeps(c: ConvertModel, item: ItemView)
    requires
        assistant_messages_have_content(c.messages),
    ensures
        assistant_messages_have_content(convert_step(c, item).messages),
        message_count(convert_step(c, item)) <= message_count(c) + 1,
        c.system.is_prefix_of(convert_step(c, item).system),
{
    lemma_flush_keeps(c);
    let f = flush_pending(c);
    let n = convert_step(c, item);
    assert(c.system.is_prefix_of(c.system));
    match item {
        ItemView::Message { role, content, .. } => {
            if role == "developer"@ || role == "system"@ {
                assert(c.system.is_prefix_of(n.system)) by {
                    assert forall|i: int| 0 <= i < c.system.len() implies n.system[i] == c.system[i] by {}
                }
            } else if role == "user"@ {
                assert forall|i: int|
                    0 <= i < n.messages.len() && (#[trigger] n.messages[i]).role == Role::Assistant implies n.messages[i].content.len() > 0 by {
                    if i < f.messages.len() {
                        assert(n.messages[i] == f.messages[i]);
                    }
                }
            }
        },
        ItemView::FunctionCallOutput { .. } => {
            assert forall|i: int|
                0 <= i < n.messages.len() && (#[trigger] n.messages[i]).role == Role::Assistant implies n.messages[i].content.len() > 0 by {
                if i < f.messages.len() {
                    assert(n.messages[i] == f.messages[i]);
                }
            }
        },
        _ => {},
    }
}

proof fn lemma_convert_items(instructions: Seq<char>, items: Seq<ItemView>)
    ensures
        assistant_messages_have_content(convert_items(instructions, items).messages),
        message_count(convert_items(instructions, items)) <= items.len(),
        instructions.is_prefix_of(convert_items(instructions, items).system),
    decreases items.len(),
{
    if items.len() == 0 {
        assert(instructions.is_prefix_of(instructions));
    } else {
        lemma_convert_items(instructions, items.drop_last());
        let c = convert_items(instructions, items.drop_last());
        lemma_step_keeps(c, items.last());
    }
}

/// Law: the conversion of any conversation gives no assistant message
/// without content, at most one message per item, and a system text that
/// begins with the instructions.
pub proof fn law_conversion_shape(instructions: Seq<char>, items: Seq<ItemView>)
    ensures
        ({
            let (system, messages) = anthropic_messages(instructions, items);
            &&& assistant_messages_have_content(messages)
            &&& messages.len() <= items.len()
            &&& instructions.is_prefix_of(system)
        }),
{
    lemma_convert_items(instructions, items);
    lemma_flush_keeps(convert_items(instructions, items));
}

/// Law: a base64 `data:` URI written from a media type with no `;` and data
/// that does not itself start with `base64,` reads back as that media type
/// and that data.
pub proof fn law_data_uri_roundtrip(media_type: Seq<char>, data: Seq<char>)
    requires
        !media_type.contains(';'),
        strip_prefix(data, "base64,"@) is None,
    ensures
        image_source("data:"@ + media_type + ";base64,"@ + data) == Some((media_type, data)),
{
    reveal_strlit("data:");
    reveal_strlit(";base64,");
    reveal_strlit("base64,");
    let marker = "base64,"@;
    let url = "data:"@ + media_type + ";base64,"@ + data;
    let rest = media_type + ";base64,"@ + data;
    assert(url.take(5) =~= "data:"@);
    assert(url.skip(5) =~= rest);
    let k = media_type.len() as int;
    assert(first_position(rest, ';', k)) by {
        assert(rest[k] == ';');
        assert forall|j: int| 0 <= j < k implies rest[j] != ';' by {
            assert(rest[j] == media_type[j]);
        }
    }
    let chosen = choose|p: int| first_position(rest, ';', p);
    lemma_first_position_unique(rest, ';', chosen, k);
    let after = marker + data;
    assert(rest.take(k) =~= media_type);
    assert(rest.skip(k + 1) =~= after);
    assert(split_once(rest, ';') == Some((media_type, after)));
    assert(after.take(7) =~= marker);
    assert(after.skip(7) =~= data);
    assert(strip_prefix(after, marker) == Some(data));
    assert(trim_start_matches(after, marker) == trim_start_matches(data, marker));
    assert(trim_start_matches(data, marker) == data);
}


/// An item that the conversion passes over: one of a kind it does not read,
/// or a message whose role is none of user, assistant, developer and system.
pub open spec fn passed_over(item: ItemView) -> bool {
    match item {
        ItemView::Message { role, .. } => !(role == "user"@ || role == "assistant"@ || role
            == "developer"@ || role == "system"@),
        ItemView::FunctionCall { .. } => false,
        ItemView::FunctionCallOutput { .. } => false,
        _ => true,
    }
}

/// A developer or system message.
pub open spec fn system_message(item: ItemView) -> bool {
    item matches ItemView::Message { role, .. } && (role == "developer"@ || role == "system"@)
}

proof fn lemma_insert_passed_over(instructions: Seq<char>, items: Seq<ItemView>, i: int, x: ItemView)
    requires
        0 <= i <= items.len(),
        passed_over(x),
    ensures
        convert_items(instructions, items.insert(i, x)) == convert_items(instructions, items),
    decreases items.len(),
{
    let with = items.insert(i, x);
    if i == items.len() {
        assert(with.drop_last() =~= items);
        assert(with.last() == x);
    } else {
        lemma_insert_passed_over(instructions, items.drop_last(), i, x);
        assert(with.drop_last() =~= items.drop_last().insert(i, x));
        assert(with.last() == items.last());
    }
}

/// Law: items that the conversion passes over change nothing. With such an
/// item inserted anywhere into a conversation, the system text and the
/// messages are those of the conversation without it.
pub proof fn law_passed_over_ignored(instructions: Seq<char>, items: Seq<ItemView>, i: int, x: ItemView)
    requires
        0 <= i <= items.len(),
        passed_over(x),
    ensures
        anthropic_messages(instructions, items.insert(i, x)) == anthropic_messages(instructions, items),
{
    lemma_insert_passed_over(instructions, items, i, x);
}

/// Two conversion states with the same messages and the same gathered
/// assistant message.
pub open spec fn same_messages(c1: ConvertModel, c2: ConvertModel) -> bool {
    c1.messages == c2.messages && c1.pending == c2.pending
}

proof fn lemma_step_same_messages(c1: ConvertModel, c2: ConvertModel, item: ItemView)
    requires
        same_messages(c1, c2),
    ensures
        same_messages(convert_step(c1, item), convert_step(c2, item)),
{
}

proof fn lemma_insert_system_message(instructions: Seq<char>, items: Seq<ItemView>, i: int, x: ItemView)
    requires
        0 <= i <= items.len(),
        system_message(x),
    ensures
        same_messages(convert_items(instructions, items.insert(i, x)), convert_items(instructions, items)),
    decreases items.len(),
{
    let with = items.insert(i, x);
    if i == items.len() {
        assert(with.drop_last() =~= items);
        assert(with.last() == x);
    } else {
        lemma_insert_system_message(instructions, items.drop_last(), i, x);
        assert(with.drop_last() =~= items.drop_last().insert(i, x));
        assert(with.last() == items.last());
        lemma_step_same_messages(
            convert_items(instructions, items.drop_last().insert(i, x)),
            convert_items(instructions, items.drop_last()),
            items.last(),
        );
    }
}

/// Law: developer and system messages reach only the system text. With such
/// a message inserted anywhere into a conversation, the messages are those of
/// the conversation without it.
pub proof fn law_system_messages_only_reach_system_text(
    instructions: Seq<char>,
    items: Seq<ItemView>,
    i: int,
    x: ItemView,
)
    requires
        0 <= i <= items.len(),
        system_message(x),
    ensures
        anthropic_messages(instructions, items.insert(i, x)).1 == anthropic_messages(instructions, items).1,
{
    lemma_insert_system_message(instructions, items, i, x);
}


proof fn lemma_prefix_trans(a: Seq<MessageView>, b: Seq<MessageView>, c: Seq<MessageView>)
    requires
        a.is_prefix_of(b),
        b.is_prefix_of(c),
    ensures
        a.is_prefix_of(c),
{
    assert forall|i: int| 0 <= i < a.len() implies a[i] == c[i] by {
        assert(a[i] == b[i]);
        assert(b[i] == c[i]);
    }
    assert(a =~= c.subrange(0, a.len() as int));
}

proof fn lemma_flush_extends(c: ConvertModel)
    ensures
        c.messages.is_prefix_of(flush_pending(c).messages),
{
    let f = flush_pending(c);
    assert(c.messages =~= f.messages.subrange(0, c.messages.len() as int));
}

proof fn lemma_step_extends(c: ConvertModel, item: ItemView)
    ensures
        c.messages.is_prefix_of(convert_step(c, item).messages),
{
    lemma_flush_extends(c);
    let f = flush_pending(c);
    let n = convert_step(c, item);
    assert(c.messages.is_prefix_of(c.messages)) by {
        assert(c.messages =~= c.messages.subrange(0, c.messages.len() as int));
    }
    if f.messages.is_prefix_of(n.messages) {
        lemma_prefix_trans(c.messages, f.messages, n.messages);
    } else {
        assert(f.messages =~= f.messages.subrange(0, f.messages.len() as int));
    }
}

/// Law: the conversion only ever adds messages after those it has. The
/// messages of any beginning of a conversation, once its last assistant
/// message is closed or not, stand first in the messages of the whole.
pub proof fn law_conversion_extends(instructions: Seq<char>, items: Seq<ItemView>, k: int)
    requires
        0 <= k <= items.len(),
    ensures
        convert_items(instructions, items.take(k)).messages.is_prefix_of(
            anthropic_messages(instructions, items).1,
        ),
    decreases items.len() - k,
{
    let whole = convert_items(instructions, items);
    lemma_flush_extends(whole);
    if k == items.len() {
        assert(items.take(k) =~= items);
    } else {
        law_conversion_extends(instructions, items, k + 1);
        let c = convert_items(instructions, items.take(k));
        assert(items.take(k + 1).drop_last() =~= items.take(k));
        assert(items.take(k + 1).last() == items[k]);
        lemma_step_extends(c, items[k]);
        lemma_prefix_trans(
            c.messages,
            convert_items(instructions, items.take(k + 1)).messages,
            anthropic_messages(instructions, items).1,
        );
    }
}

/// The message a user message or a tool output becomes.
pub open spec fn user_turn(item: ItemView) -> Option<MessageView> {
    match item {
        ItemView::Message { role, content, .. } => if role == "user"@ {
            Some(MessageView { role: Role::User, content: user_blocks(content) })
        } else {
            None
        },
        ItemView::FunctionCallOutput { call_id, output } => Some(
            MessageView {
                role: Role::User,
                content: seq![BlockView::ToolResult { tool_use_id: call_id, content: output }],
            },
        ),
        _ => None,
    }
}

/// Law: the conversion keeps the order of the conversation. Where an item is
/// a user message or a tool output, the messages of the conversation before
/// it (its last assistant message closed) followed by the message it becomes
/// stand first in the messages of the whole: every message of an earlier
/// item, an assistant reply among them, comes before it, and everything of a
/// later item after it.
pub proof fn law_conversion_keeps_order(instructions: Seq<char>, items: Seq<ItemView>, k: int)
    requires
        0 <= k < items.len(),
        user_turn(items[k]) is Some,
    ensures
        anthropic_messages(instructions, items.take(k)).1.push(user_turn(items[k])->0).is_prefix_of(
            anthropic_messages(instructions, items).1,
        ),
{
    law_conversion_extends(instructions, items, k + 1);
    assert(items.take(k + 1).drop_last() =~= items.take(k));
    assert(items.take(k + 1).last() == items[k]);
    reveal_strlit("user");
    reveal_strlit("developer");
    reveal_strlit("system");
    assert("user"@.len() != "developer"@.len());
    assert("user"@.len() != "system"@.len());
    let c = convert_items(instructions, items.take(k));
    let n = convert_items(instructions, items.take(k + 1));
    assert(n == convert_step(c, items[k]));
    assert(n.messages == flush_pending(c).messages.push(user_turn(items[k])->0));
}


/// Law: the request body holds each of its parts whole under its own name.
/// Its `model`, `max_tokens` and `stream` members are the model's name, the
/// output limit and `true`; its `messages` member is the JSON form of every
/// message, in order; its `system` member is the system text, present only
/// where that text is not empty; and its `tools` member is an array of every
/// given tool, in order, present only where there are tools.
pub proof fn law_request_members(
    model: Seq<char>,
    messages: Seq<MessageView>,
    max_tokens: u64,
    system: Seq<char>,
    tools: Seq<JsonView>,
)
    ensures
        ({
            let body = request_json(model, messages, max_tokens, system, tools);
            &&& body.get("model"@) == Some(JsonView::Str(model))
            &&& body.get("messages"@) == Some(
                JsonView::Array(messages.map_values(|m: MessageView| message_json(m))),
            )
            &&& body.get("max_tokens"@) == Some(JsonView::unsigned(max_tokens))
            &&& body.get("stream"@) == Some(JsonView::Bool(true))
            &&& body.get("system"@) == if system.len() > 0 {
                Some(JsonView::Str(system))
            } else {
                None
            }
            &&& body.get("tools"@) == if tools.len() > 0 {
                Some(JsonView::Array(tools))
            } else {
                None
            }
        }),
{
    reveal_strlit("model");
    reveal_strlit("messages");
    reveal_strlit("max_tokens");
    reveal_strlit("stream");
    reveal_strlit("system");
    reveal_strlit("tools");
    assert("model"@[0] != "tools"@[0]);
    assert("stream"@[1] != "system"@[1]);
    assert("model"@.len() != "messages"@.len());
    assert("model"@.len() != "max_tokens"@.len());
    assert("model"@.len() != "stream"@.len());
    assert("model"@.len() != "system"@.len());
    assert("messages"@.len() != "max_tokens"@.len());
    assert("messages"@.len() != "stream"@.len());
    assert("messages"@.len() != "system"@.len());
    assert("messages"@.len() != "tools"@.len());
    assert("max_tokens"@.len() != "stream"@.len());
    assert("max_tokens"@.len() != "system"@.len());
    assert("max_tokens"@.len() != "tools"@.len());
    assert("stream"@.len() != "tools"@.len());
    assert("system"@.len() != "tools"@.len());
    reveal_with_fuel(member, 7);
}

}
