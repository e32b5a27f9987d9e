use vstd::prelude::*;

use crate::json::{Json, JsonView};
use crate::request_laws::law_request_members;
use crate::json_serde::{json_parse, parse_json};
use crate::protocol::{ContentItem, ContentView, ItemView, ResponseItem, contents_view, items_view};
use crate::text::{
    chars_of, occurs_at, split_once, strip_prefix, string_from_chars, text_is,
    trim_start_matches, first_position, lemma_first_position_unique,
};

verus! {

broadcast use vstd::string::group_string_axioms;

/// One block of an Anthropic message's content.
#[derive(Debug, PartialEq)]
pub enum ContentBlock {
    Text { text: String },
    Image { media_type: String, data: String },
    ToolUse { id: String, name: String, input: Json },
    ToolResult { tool_use_id: String, content: String },
}

pub enum BlockView {
    Text(Seq<char>),
    Image { media_type: Seq<char>, data: Seq<char> },
    ToolUse { id: Seq<char>, name: Seq<char>, input: JsonView },
    ToolResult { tool_use_id: Seq<char>, content: Seq<char> },
}

impl View for ContentBlock {
    type V = BlockView;

    open spec fn view(&self) -> BlockView {
        match self {
            ContentBlock::Text { text } => BlockView::Text(text@),
            ContentBlock::Image { media_type, data } => BlockView::Image {
                media_type: media_type@,
                data: data@,
            },
            ContentBlock::ToolUse { id, name, input } => BlockView::ToolUse {
                id: id@,
                name: name@,
                input: input@,
            },
            ContentBlock::ToolResult { tool_use_id, content } => BlockView::ToolResult {
                tool_use_id: tool_use_id@,
                content: content@,
            },
        }
    }
}

/// The model of a list of blocks.
pub open spec fn blocks_view(blocks: Seq<ContentBlock>) -> Seq<BlockView> {
    blocks.map_values(|b: ContentBlock| b@)
}

/// Who speaks a message.
#[derive(Debug, Clone, Copy, PartialEq, Eq, Structural)]
pub enum Role {
    User,
    Assistant,
}

/// One message of an Anthropic request.
#[derive(Debug, PartialEq)]
pub struct Message {
    pub role: Role,
    pub content: Vec<ContentBlock>,
}

pub struct MessageView {
    pub role: Role,
    pub content: Seq<BlockView>,
}

impl View for Message {
    type V = MessageView;

    open spec fn view(&self) -> MessageView {
        MessageView { role: self.role, content: blocks_view(self.content@) }
    }
}

/// The model of a list of messages.
pub open spec fn messages_view(messages: Seq<Message>) -> Seq<MessageView> {
    messages.map_values(|m: Message| m@)
}

// ---------------------------------------------------------------------------
// The JSON form of a request.

/// A JSON object member whose value is a string.
pub open spec fn text_member(key: Seq<char>, value: Seq<char>) -> (Seq<char>, JsonView) {
    (key, JsonView::Str(value))
}

/// The JSON form of a block.
pub open spec fn block_json(b: BlockView) -> JsonView {
    match b {
        BlockView::Text(t) => JsonView::Object(
            seq![text_member("type"@, "text"@), text_member("text"@, t)],
        ),
        BlockView::Image { media_type, data } => JsonView::Object(
            seq![
                text_member("type"@, "image"@),
                (
                    "source"@,
                    JsonView::Object(
                        seq![
                            text_member("type"@, "base64"@),
                            text_member("media_type"@, media_type),
                            text_member("data"@, data),
                        ],
                    ),
                ),
            ],
        ),
        BlockView::ToolUse { id, name, input } => JsonView::Object(
            seq![
                text_member("type"@, "tool_use"@),
                text_member("id"@, id),
                text_member("name"@, name),
                ("input"@, input),
            ],
        ),
        BlockView::ToolResult { tool_use_id, content } => JsonView::Object(
            seq![
                text_member("type"@, "tool_result"@),
                text_member("tool_use_id"@, tool_use_id),
                text_member("content"@, content),
            ],
        ),
    }
}

/// The name of a role on the wire.
pub open spec fn role_name(r: Role) -> Seq<char> {
    match r {
        Role::User => "user"@,
        Role::Assistant => "assistant"@,
    }
}

/// The JSON form of a message.
pub open spec fn message_json(m: MessageView) -> JsonView {
    JsonView::Object(
        seq![
            text_member("role"@, role_name(m.role)),
            ("content"@, JsonView::Array(m.content.map_values(|b: BlockView| block_json(b)))),
        ],
    )
}

/// Builds an object member.
fn member(key: &str, value: Json) -> (m: (String, Json))
    ensures
        m.0@ == key@,
        m.1 == value,
{
    (key.to_owned(), value)
}

/// Builds a JSON object from its members.
fn object(members: Vec<(String, Json)>) -> (j: Json)
    ensures
        j@ == JsonView::Object(Json::view_members(members@)),
{
    Json::Object(members)
}

proof fn lemma_members_of(members: Seq<(String, Json)>, expected: Seq<(Seq<char>, JsonView)>)
    requires
        members.len() == expected.len(),
        forall|i: int|
            0 <= i < members.len() ==> (#[trigger] members[i]).0@ == expected[i].0
                && members[i].1@ == expected[i].1,
    ensures
        Json::view_members(members) == expected,
{
    Json::lemma_view_members(members);
    assert(Json::view_members(members) =~= expected);
}

impl ContentBlock {
    /// The JSON form of this block.
    pub fn to_json(&self) -> (j: Json)
        ensures
            j@ == block_json(self@),
    {
        match self {
            ContentBlock::Text { text } => {
                let mut m: Vec<(String, Json)> = Vec::new();
                m.push(member("type", Json::string("text")));
                m.push(member("text", Json::string(text.as_str())));
                proof {
                    lemma_members_of(m@, seq![text_member("type"@, "text"@), text_member("text"@, text@)]);
                }
                object(m)
            },
            ContentBlock::Image { media_type, data } => {
                let mut s: Vec<(String, Json)> = Vec::new();
                s.push(member("type", Json::string("base64")));
                s.push(member("media_type", Json::string(media_type.as_str())));
                s.push(member("data", Json::string(data.as_str())));
                proof {
                    lemma_members_of(s@, seq![
                        text_member("type"@, "base64"@),
                        text_member("media_type"@, media_type@),
                        text_member("data"@, data@),
                    ]);
                }
                let source = object(s);
                let ghost sv = source@;
                let mut m: Vec<(String, Json)> = Vec::new();
                m.push(member("type", Json::string("image")));
                m.push(member("source", source));
                proof {
                    lemma_members_of(m@, seq![text_member("type"@, "image"@), ("source"@, sv)]);
                }
                object(m)
            },
            ContentBlock::ToolUse { id, name, input } => {
                let mut m: Vec<(String, Json)> = Vec::new();
                m.push(member("type", Json::string("tool_use")));
                m.push(member("id", Json::string(id.as_str())));
                m.push(member("name", Json::string(name.as_str())));
                m.push(member("input", input.clone_json()));
                proof {
                    lemma_members_of(m@, seq![
                        text_member("type"@, "tool_use"@),
                        text_member("id"@, id@),
                        text_member("name"@, name@),
                        ("input"@, input@),
                    ]);
                }
                object(m)
            },
            ContentBlock::ToolResult { tool_use_id, content } => {
                let mut m: Vec<(String, Json)> = Vec::new();
                m.push(member("type", Json::string("tool_result")));
                m.push(member("tool_use_id", Json::string(tool_use_id.as_str())));
                m.push(member("content", Json::string(content.as_str())));
                proof {
                    lemma_members_of(m@, seq![
                        text_member("type"@, "tool_result"@),
                        text_member("tool_use_id"@, tool_use_id@),
                        text_member("content"@, content@),
                    ]);
                }
                object(m)
            },
        }
    }
}


/// The JSON form of a list of blocks.
pub open spec fn blocks_json(blocks: Seq<BlockView>) -> Seq<JsonView> {
    blocks.map_values(|b: BlockView| block_json(b))
}

/// The JSON forms of `blocks`, in order.
fn blocks_to_json(blocks: &Vec<ContentBlock>) -> (r: Vec<Json>)
    ensures
        Json::view_items(r@) == blocks_json(blocks_view(blocks@)),
{
    let mut out: Vec<Json> = Vec::new();
    let mut i: usize = 0;
    while i < blocks.len()
        invariant
            i <= blocks@.len(),
            Json::view_items(out@) == blocks_json(blocks_view(blocks@.take(i as int))),
        decreases blocks@.len() - i,
    {
        let j = blocks[i].to_json();
        proof {
            Json::lemma_view_items_push(out@, j);
            assert(blocks_json(blocks_view(blocks@.take(i + 1))) =~= blocks_json(
                blocks_view(blocks@.take(i as int)),
            ).push(block_json(blocks@[i as int]@)));
        }
        out.push(j);
        i = i + 1;
    }
    assert(blocks@.take(i as int) =~= blocks@);
    out
}

impl Message {
    /// The JSON form of this message.
    pub fn to_json(&self) -> (j: Json)
        ensures
            j@ == message_json(self@),
    {
        let role = match self.role {
            Role::User => Json::string("user"),
            Role::Assistant => Json::string("assistant"),
        };
        let items = blocks_to_json(&self.content);
        let content = Json::Array(items);
        let ghost cv = content@;
        assert(cv == JsonView::Array(self@.content.map_values(|b: BlockView| block_json(b))));
        let mut m: Vec<(String, Json)> = Vec::new();
        m.push(member("role", role));
        m.push(member("content", content));
        proof {
            lemma_members_of(m@, seq![text_member("role"@, role_name(self.role)), ("content"@, cv)]);
        }
        object(m)
    }
}

/// The JSON forms of `messages`, in order.
pub fn messages_to_json(messages: &Vec<Message>) -> (r: Vec<Json>)
    ensures
        Json::view_items(r@) == messages_view(messages@).map_values(|m: MessageView| message_json(m)),
{
    let mut out: Vec<Json> = Vec::new();
    let mut i: usize = 0;
    while i < messages.len()
        invariant
            i <= messages@.len(),
            Json::view_items(out@) == messages_view(messages@.take(i as int)).map_values(
                |m: MessageView| message_json(m),
            ),
        decreases messages@.len() - i,
    {
        let j = messages[i].to_json();
        proof {
            Json::lemma_view_items_push(out@, j);
            assert(messages_view(messages@.take(i + 1)).map_values(|m: MessageView| message_json(m))
                =~= messages_view(messages@.take(i as int)).map_values(
                |m: MessageView| message_json(m),
            ).push(message_json(messages@[i as int]@)));
        }
        out.push(j);
        i = i + 1;
    }
    assert(messages@.take(i as int) =~= messages@);
    out
}


/// The media type and data of a base64 `data:` URI: after `data:`, the text up to the first `;` is the media type; the rest
/// must start with `base64,`, and with every leading `base64,` removed it is
/// the data.
pub open spec fn image_source(url: Seq<char>) -> Option<(Seq<char>, Seq<char>)> {
    match strip_prefix(url, "data:"@) {
        None => None,
        Some(rest) => match split_once(rest, ';') {
            None => None,
            Some((media_type, after)) => if strip_prefix(after, "base64,"@) is Some {
                Some((media_type, trim_start_matches(after, "base64,"@)))
            } else {
                None
            },
        },
    }
}

/// The image block of a `data:` URI, where it is one.
pub open spec fn image_block(url: Seq<char>) -> Option<BlockView> {
    match image_source(url) {
        Some((media_type, data)) => Some(BlockView::Image { media_type, data }),
        None => None,
    }
}

/// The model of an optional block.
pub open spec fn opt_block(b: Option<ContentBlock>) -> Option<BlockView> {
    match b {
        Some(x) => Some(x@),
        None => None,
    }
}

/// The image block of a base64 `data:` URI; `None` for any other URL.
pub fn parse_image_data_uri(image_url: &str) -> (r: Option<ContentBlock>)
    ensures
        opt_block(r) == image_block(image_url@),
{
    let v = chars_of(image_url);
    let prefix = chars_of("data:");
    if !occurs_at(&v, 0, &prefix) {
        assert(v@.skip(0) =~= v@);
        return None;
    }
    assert(v@.skip(0) =~= v@);
    let n = v.len();
    let start = prefix.len();
    let ghost rest = v@.skip(start as int);
    assert(strip_prefix(image_url@, "data:"@) == Some(rest));
    let mut k = start;
    while k < n && v[k] != ';'
        invariant
            n == v@.len(),
            start <= k <= n,
            rest == v@.skip(start as int),
            forall|j: int| start <= j < k ==> v@[j] != ';',
        decreases n - k,
    {
        k = k + 1;
    }
    if k == n {
        assert(!exists|p: int| first_position(rest, ';', p)) by {
            assert forall|p: int| !first_position(rest, ';', p) by {
                if 0 <= p < rest.len() {
                    assert(rest[p] == v@[start + p]);
                }
            }
        }
        return None;
    }
    let ghost pos = k - start;
    assert(first_position(rest, ';', pos)) by {
        assert forall|j: int| 0 <= j < pos implies rest[j] != ';' by {
            assert(rest[j] == v@[start + j]);
        }
    }
    let ghost after = v@.skip(k + 1);
    proof {
        let chosen = choose|p: int| first_position(rest, ';', p);
        lemma_first_position_unique(rest, ';', chosen, pos);
        assert(rest.take(pos) =~= v@.subrange(start as int, k as int));
        assert(rest.skip(pos + 1) =~= after);
        assert(split_once(rest, ';') == Some((v@.subrange(start as int, k as int), after)));
    }
    let marker = chars_of("base64,");
    proof {
        reveal_strlit("base64,");
    }
    if !occurs_at(&v, k + 1, &marker) {
        return None;
    }
    let mut j = k + 1;
    while occurs_at(&v, j, &marker)
        invariant
            n == v@.len(),
            k + 1 <= j <= n,
            marker@ == "base64,"@,
            marker@.len() == 7,
            after == v@.skip(k + 1),
            trim_start_matches(after, "base64,"@) == trim_start_matches(v@.skip(j as int), "base64,"@),
        decreases n - j,
    {
        proof {
            assert(v@.skip(j as int).skip(7) =~= v@.skip(j + 7));
        }
        j = j + marker.len();
    }
    let media_type = string_from_chars(&v, start, k);
    let data = string_from_chars(&v, j, n);
    assert(data@ =~= v@.skip(j as int));
    Some(ContentBlock::Image { media_type, data })
}


/// The blocks of a user message: texts become text blocks, `data:` image
/// URIs become image blocks, other images are dropped.
pub open spec fn user_blocks(content: Seq<ContentView>) -> Seq<BlockView>
    decreases content.len(),
{
    if content.len() == 0 {
        Seq::empty()
    } else {
        let before = user_blocks(content.drop_last());
        match content.last() {
            ContentView::InputText(t) => before.push(BlockView::Text(t)),
            ContentView::OutputText(t) => before.push(BlockView::Text(t)),
            ContentView::InputImage(url) => match image_block(url) {
                Some(b) => before.push(b),
                None => before,
            },
        }
    }
}

/// The blocks of an assistant message: its output texts.
pub open spec fn assistant_blocks(content: Seq<ContentView>) -> Seq<BlockView>
    decreases content.len(),
{
    if content.len() == 0 {
        Seq::empty()
    } else {
        let before = assistant_blocks(content.drop_last());
        match content.last() {
            ContentView::OutputText(t) => before.push(BlockView::Text(t)),
            _ => before,
        }
    }
}

/// What a system or developer message adds to the system text: a newline and
/// the text of each of its input texts.
pub open spec fn system_part(content: Seq<ContentView>) -> Seq<char>
    decreases content.len(),
{
    if content.len() == 0 {
        Seq::empty()
    } else {
        let before = system_part(content.drop_last());
        match content.last() {
            ContentView::InputText(t) => before + "\n"@ + t,
            _ => before,
        }
    }
}

/// The blocks of a user message.
pub fn convert_content_to_anthropic_blocks(content: &[ContentItem]) -> (blocks: Vec<ContentBlock>)
    ensures
        blocks_view(blocks@) == user_blocks(contents_view(content@)),
{
    let mut blocks: Vec<ContentBlock> = Vec::new();
    let mut i: usize = 0;
    while i < content.len()
        invariant
            i <= content@.len(),
            blocks_view(blocks@) == user_blocks(contents_view(content@.take(i as int))),
        decreases content@.len() - i,
    {
        proof {
            assert(contents_view(content@.take(i + 1)).drop_last() =~= contents_view(content@.take(i as int)));
            assert(contents_view(content@.take(i + 1)).last() == content@[i as int]@);
        }
        match &content[i] {
            ContentItem::InputText { text } => {
                blocks.push(ContentBlock::Text { text: text.clone() });
            },
            ContentItem::OutputText { text } => {
                blocks.push(ContentBlock::Text { text: text.clone() });
            },
            ContentItem::InputImage { image_url } => {
                if let Some(b) = parse_image_data_uri(image_url.as_str()) {
                    blocks.push(b);
                }
            },
        }
        assert(blocks_view(blocks@) =~= user_blocks(contents_view(content@.take(i + 1))));
        i = i + 1;
    }
    assert(content@.take(i as int) =~= content@);
    blocks
}

/// The blocks of an assistant message.
fn assistant_content_blocks(content: &[ContentItem]) -> (blocks: Vec<ContentBlock>)
    ensures
        blocks_view(blocks@) == assistant_blocks(contents_view(content@)),
{
    let mut blocks: Vec<ContentBlock> = Vec::new();
    let mut i: usize = 0;
    while i < content.len()
        invariant
            i <= content@.len(),
            blocks_view(blocks@) == assistant_blocks(contents_view(content@.take(i as int))),
        decreases content@.len() - i,
    {
        proof {
            assert(contents_view(content@.take(i + 1)).drop_last() =~= contents_view(content@.take(i as int)));
            assert(contents_view(content@.take(i + 1)).last() == content@[i as int]@);
        }
        match &content[i] {
            ContentItem::OutputText { text } => {
                blocks.push(ContentBlock::Text { text: text.clone() });
            },
            _ => {},
        }
        assert(blocks_view(blocks@) =~= assistant_blocks(contents_view(content@.take(i + 1))));
        i = i + 1;
    }
    assert(content@.take(i as int) =~= content@);
    blocks
}

/// Appends what a system or developer message adds to the system text.
fn append_system_part(system: &mut String, content: &[ContentItem])
    ensures
        final(system)@ == old(system)@ + system_part(contents_view(content@)),
{
    let mut i: usize = 0;
    while i < content.len()
        invariant
            i <= content@.len(),
            system@ == old(system)@ + system_part(contents_view(content@.take(i as int))),
        decreases content@.len() - i,
    {
        proof {
            assert(contents_view(content@.take(i + 1)).drop_last() =~= contents_view(content@.take(i as int)));
            assert(contents_view(content@.take(i + 1)).last() == content@[i as int]@);
        }
        match &content[i] {
            ContentItem::InputText { text } => {
                system.append("\n");
                system.append(text.as_str());
            },
            _ => {},
        }
        assert(system@ =~= old(system)@ + system_part(contents_view(content@.take(i + 1))));
        i = i + 1;
    }
    assert(content@.take(i as int) =~= content@);
}


/// Where the conversion of a conversation stands: the system text, the
/// messages so far, and the assistant message still being gathered.
pub struct ConvertModel {
    pub system: Seq<char>,
    pub messages: Seq<MessageView>,
    pub pending: Option<Seq<BlockView>>,
}

/// The messages once the gathered assistant message is closed: it is added
/// only where it has content.
pub open spec fn flush_messages(messages: Seq<MessageView>, pending: Option<Seq<BlockView>>) -> Seq<MessageView> {
    match pending {
        Some(b) => if b.len() > 0 {
            messages.push(MessageView { role: Role::Assistant, content: b })
        } else {
            messages
        },
        None => messages,
    }
}

/// Closes the gathered assistant message.
pub open spec fn flush_pending(c: ConvertModel) -> ConvertModel {
    ConvertModel { messages: flush_messages(c.messages, c.pending), pending: None, ..c }
}

/// The input of a tool call: its arguments as JSON, or an empty object where
/// they do not parse.
pub open spec fn tool_input(arguments: Seq<char>) -> JsonView {
    match json_parse(arguments) {
        Some(v) => v,
        None => JsonView::empty_object(),
    }
}

/// One item of the conversation.
pub open spec fn convert_step(c: ConvertModel, item: ItemView) -> ConvertModel {
    match item {
        ItemView::Message { role, content, .. } => if role == "developer"@ || role == "system"@ {
            ConvertModel { system: c.system + system_part(content), ..c }
        } else if role == "user"@ {
            let f = flush_pending(c);
            ConvertModel {
                messages: f.messages.push(
                    MessageView { role: Role::User, content: user_blocks(content) },
                ),
                ..f
            }
        } else if role == "assistant"@ {
            let f = flush_pending(c);
            ConvertModel { pending: Some(assistant_blocks(content)), ..f }
        } else {
            c
        },
        ItemView::FunctionCall { name, arguments, call_id, .. } => match c.pending {
            Some(b) => ConvertModel {
                pending: Some(
                    b.push(BlockView::ToolUse { id: call_id, name, input: tool_input(arguments) }),
                ),
                ..c
            },
            None => c,
        },
        ItemView::FunctionCallOutput { call_id, output } => {
            let f = flush_pending(c);
            ConvertModel {
                messages: f.messages.push(
                    MessageView {
                        role: Role::User,
                        content: seq![BlockView::ToolResult { tool_use_id: call_id, content: output }],
                    },
                ),
                ..f
            }
        },
        _ => c,
    }
}

/// The conversion of `items`, in order, before the last assistant message is
/// closed.
pub open spec fn convert_items(instructions: Seq<char>, items: Seq<ItemView>) -> ConvertModel
    decreases items.len(),
{
    if items.len() == 0 {
        ConvertModel { system: instructions, messages: Seq::empty(), pending: None }
    } else {
        convert_step(convert_items(instructions, items.drop_last()), items.last())
    }
}

/// The system text and the messages of a conversation.
pub open spec fn anthropic_messages(instructions: Seq<char>, items: Seq<ItemView>) -> (Seq<char>, Seq<MessageView>) {
    let c = flush_pending(convert_items(instructions, items));
    (c.system, c.messages)
}

/// The model of the assistant message being gathered.
pub open spec fn pending_view(p: Option<Vec<ContentBlock>>) -> Option<Seq<BlockView>> {
    match p {
        Some(b) => Some(blocks_view(b@)),
        None => None,
    }
}

/// Closes the gathered assistant message.
fn flush_assistant(messages: &mut Vec<Message>, pending: &mut Option<Vec<ContentBlock>>)
    ensures
        messages_view(final(messages)@) == flush_messages(messages_view(old(messages)@), pending_view(*old(pending))),
        final(pending).is_none(),
{
    if let Some(blocks) = pending.take() {
        if blocks.len() > 0 {
            let ghost before = messages@;
            messages.push(Message { role: Role::Assistant, content: blocks });
            assert(messages_view(messages@) =~= messages_view(before).push(messages@.last()@));
        }
    }
}

/// The system text and the messages of the Anthropic request for a
/// conversation.
pub fn convert_input_to_anthropic_messages(input: &[ResponseItem], full_instructions: &str) -> (r: (String, Vec<Message>))
    ensures
        (r.0@, messages_view(r.1@)) == anthropic_messages(full_instructions@, items_view(input@)),
{
    let mut system = full_instructions.to_owned();
    let mut messages: Vec<Message> = Vec::new();
    let mut pending: Option<Vec<ContentBlock>> = None;
    let ghost instructions = full_instructions@;
    let mut i: usize = 0;
    assert(messages_view(messages@) =~= Seq::empty());
    while i < input.len()
        invariant
            i <= input@.len(),
            instructions == full_instructions@,
            convert_items(instructions, items_view(input@.take(i as int))) == (ConvertModel {
                system: system@,
                messages: messages_view(messages@),
                pending: pending_view(pending),
            }),
        decreases input@.len() - i,
    {
        let ghost c0 = ConvertModel {
            system: system@,
            messages: messages_view(messages@),
            pending: pending_view(pending),
        };
        proof {
            assert(items_view(input@.take(i + 1)).drop_last() =~= items_view(input@.take(i as int)));
            assert(items_view(input@.take(i + 1)).last() == input@[i as int]@);
        }
        match &input[i] {
            ResponseItem::Message { role, content, .. } => {
                if text_is(role.as_str(), "developer") || text_is(role.as_str(), "system") {
                    append_system_part(&mut system, content.as_slice());
                } else if text_is(role.as_str(), "user") {
                    flush_assistant(&mut messages, &mut pending);
                    let blocks = convert_content_to_anthropic_blocks(content.as_slice());
                    let ghost before = messages@;
                    messages.push(Message { role: Role::User, content: blocks });
                    assert(messages_view(messages@) =~= messages_view(before).push(messages@.last()@));
                } else if text_is(role.as_str(), "assistant") {
                    flush_assistant(&mut messages, &mut pending);
                    let blocks = assistant_content_blocks(content.as_slice());
                    pending = Some(blocks);
                }
            },
            ResponseItem::FunctionCall { name, arguments, call_id, .. } => {
                let input_value = match parse_json(arguments.as_str()) {
                    Some(v) => v,
                    None => Json::empty_object(),
                };
                let block = ContentBlock::ToolUse {
                    id: call_id.clone(),
                    name: name.clone(),
                    input: input_value,
                };
                if let Some(blocks) = pending.as_mut() {
                    let ghost b0 = blocks@;
                    blocks.push(block);
                    assert(blocks_view(blocks@) =~= blocks_view(b0).push(blocks@.last()@));
                }
            },
            ResponseItem::FunctionCallOutput { call_id, output } => {
                flush_assistant(&mut messages, &mut pending);
                let mut content: Vec<ContentBlock> = Vec::new();
                content.push(ContentBlock::ToolResult { tool_use_id: call_id.clone(), content: output.clone() });
                assert(blocks_view(content@) =~= seq![BlockView::ToolResult { tool_use_id: call_id@, content: output@ }]);
                let ghost before = messages@;
                messages.push(Message { role: Role::User, content });
                assert(messages_view(messages@) =~= messages_view(before).push(messages@.last()@));
            },
            _ => {},
        }
        assert(convert_step(c0, input@[i as int]@) == (ConvertModel {
            system: system@,
            messages: messages_view(messages@),
            pending: pending_view(pending),
        }));
        i = i + 1;
    }
    assert(input@.take(i as int) =~= input@);
    flush_assistant(&mut messages, &mut pending);
    (system, messages)
}


/// The `max_tokens` of a request: the model's output limit, or 4096.
pub open spec fn max_tokens_for(max_output_tokens: Option<u64>) -> u64 {
    match max_output_tokens {
        Some(n) => n,
        None => 4096,
    }
}

/// The JSON body of an Anthropic Messages request: the model, the messages,
/// `max_tokens` and `"stream": true`, then the system text where it is not
/// empty and the tools where there are any.
pub open spec fn request_json(
    model: Seq<char>,
    messages: Seq<MessageView>,
    max_tokens: u64,
    system: Seq<char>,
    tools: Seq<JsonView>,
) -> JsonView {
    let base = seq![
        text_member("model"@, model),
        ("messages"@, JsonView::Array(messages.map_values(|m: MessageView| message_json(m)))),
        ("max_tokens"@, JsonView::unsigned(max_tokens)),
        ("stream"@, JsonView::Bool(true)),
    ];
    let with_system = if system.len() > 0 {
        base.push(text_member("system"@, system))
    } else {
        base
    };
    let members = if tools.len() > 0 {
        with_system.push(("tools"@, JsonView::Array(tools)))
    } else {
        with_system
    };
    JsonView::Object(members)
}

/// The JSON body of the streaming request for a conversation, given the
/// conversation's items, the full instructions, the tools in Anthropic's JSON
/// form, the model's name and its output limit.
pub fn build_anthropic_request(
    input: &[ResponseItem],
    full_instructions: &str,
    tools: Vec<Json>,
    model_slug: &str,
    max_output_tokens: Option<u64>,
) -> (payload: Json)
    ensures
        ({
            let (system, messages) = anthropic_messages(full_instructions@, items_view(input@));
            payload@ == request_json(
                model_slug@,
                messages,
                max_tokens_for(max_output_tokens),
                system,
                Json::view_items(tools@),
            )
        }),
        payload@.get("tools"@) == if tools@.len() > 0 {
            Some(JsonView::Array(Json::view_items(tools@)))
        } else {
            None
        },
{
    let (system_text, messages) = convert_input_to_anthropic_messages(input, full_instructions);
    let max_tokens = match max_output_tokens {
        Some(n) => n,
        None => 4096,
    };
    let messages_json = Json::Array(messages_to_json(&messages));
    let ghost mv = messages_json@;
    let ghost tv = Json::view_items(tools@);
    let mut m: Vec<(String, Json)> = Vec::new();
    m.push(member("model", Json::string(model_slug)));
    m.push(member("messages", messages_json));
    m.push(member("max_tokens", Json::unsigned(max_tokens)));
    m.push(member("stream", Json::Bool(true)));
    let ghost base = seq![
        text_member("model"@, model_slug@),
        ("messages"@, mv),
        ("max_tokens"@, JsonView::unsigned(max_tokens)),
        ("stream"@, JsonView::Bool(true)),
    ];
    proof {
        lemma_members_of(m@, base);
    }
    let ghost mut expected = base;
    if !system_text.as_str().is_empty() {
        let entry = member("system", Json::Str(system_text));
        proof {
            Json::lemma_view_members_push(m@, entry);
            expected = expected.push(("system"@, entry.1@));
        }
        m.push(entry);
    }
    if tools.len() > 0 {
        let entry = member("tools", Json::Array(tools));
        proof {
            Json::lemma_view_members_push(m@, entry);
            expected = expected.push(("tools"@, JsonView::Array(tv)));
        }
        m.push(entry);
    }
    proof {
        Json::lemma_view_items(tools@);
        let (sys, msgs) = anthropic_messages(full_instructions@, items_view(input@));
        law_request_members(model_slug@, msgs, max_tokens_for(max_output_tokens), sys, tv);
    }
    object(m)
}

}
