use vstd::prelude::*;

use crate::json::{opt_json, opt_text, Json, JsonView};
use crate::json_serde::{json_parse, json_text, json_to_string, parse_json};
use crate::protocol::{
    contents_view, events_view, ContentItem, ContentView, EventView, ItemView, ResponseEvent, ResponseItem,
    StreamError, TokenUsage,
};
use crate::text::{text_is, text_or, trim, trimmed};

verus! {

broadcast use vstd::string::group_string_axioms;

/// What a stream of Anthropic server-sent events has built up so far.
#[derive(Debug, Clone, PartialEq)]
pub struct SseState {
    pub assistant_text: String,
    pub reasoning_text: String,
    pub current_item_id: Option<String>,
    pub current_response_id: Option<String>,
    pub current_response_model: Option<String>,
    pub block_type: Option<String>,
    pub block_index: Option<u32>,
    pub tool_use_id: Option<String>,
    pub tool_use_name: Option<String>,
    pub tool_use_input: String,
    pub token_usage: Option<TokenUsage>,
}

/// The model of an [`SseState`].
pub struct SseModel {
    pub assistant_text: Seq<char>,
    pub reasoning_text: Seq<char>,
    pub current_item_id: Option<Seq<char>>,
    pub current_response_id: Option<Seq<char>>,
    pub current_response_model: Option<Seq<char>>,
    pub block_type: Option<Seq<char>>,
    pub block_index: Option<u32>,
    pub tool_use_id: Option<Seq<char>>,
    pub tool_use_name: Option<Seq<char>>,
    pub tool_use_input: Seq<char>,
    pub token_usage: Option<TokenUsage>,
}

impl View for SseState {
    type V = SseModel;

    open spec fn view(&self) -> SseModel {
        SseModel {
            assistant_text: self.assistant_text@,
            reasoning_text: self.reasoning_text@,
            current_item_id: opt_text(self.current_item_id),
            current_response_id: opt_text(self.current_response_id),
            current_response_model: opt_text(self.current_response_model),
            block_type: opt_text(self.block_type),
            block_index: self.block_index,
            tool_use_id: opt_text(self.tool_use_id),
            tool_use_name: opt_text(self.tool_use_name),
            tool_use_input: self.tool_use_input@,
            token_usage: self.token_usage,
        }
    }
}

/// The state a stream starts in.
pub open spec fn initial_model() -> SseModel {
    SseModel {
        assistant_text: Seq::empty(),
        reasoning_text: Seq::empty(),
        current_item_id: None,
        current_response_id: None,
        current_response_model: None,
        block_type: None,
        block_index: None,
        tool_use_id: None,
        tool_use_name: None,
        tool_use_input: Seq::empty(),
        token_usage: None,
    }
}

/// Completing the response: the accumulated assistant text and reasoning
/// text become finished items (each only where it is not empty), then
/// `Completed` carries the response id and the token usage.
pub open spec fn complete_model(s: SseModel) -> (SseModel, Seq<EventView>) {
    let message: Seq<EventView> = if s.assistant_text.len() > 0 {
        seq![
            EventView::OutputItemDone {
                item: ItemView::Message {
                    id: s.current_item_id,
                    role: "assistant"@,
                    content: seq![ContentView::OutputText(s.assistant_text)],
                },
                output_index: None,
            },
        ]
    } else {
        Seq::empty()
    };
    let reasoning: Seq<EventView> = if s.reasoning_text.len() > 0 {
        seq![
            EventView::OutputItemDone {
                item: ItemView::Reasoning {
                    id: text_or(s.current_item_id, Seq::empty()),
                    content: seq![s.reasoning_text],
                },
                output_index: None,
            },
        ]
    } else {
        Seq::empty()
    };
    let done = EventView::Completed {
        response_id: text_or(s.current_response_id, Seq::empty()),
        token_usage: s.token_usage,
    };
    (
        SseModel {
            assistant_text: Seq::empty(),
            reasoning_text: Seq::empty(),
            token_usage: None,
            ..s
        },
        message + reasoning + seq![done],
    )
}

/// `content_block_start`: a new block, its index (cut to 32 bits) and type;
/// a tool-use block takes its id and name and starts with no input, a
/// thinking block starts with no reasoning text.
pub open spec fn block_start(s: SseModel, chunk: JsonView) -> SseModel {
    let index = match chunk.at("index"@).as_u64() {
        Some(v) => Some(v as u32),
        None => None,
    };
    let block = chunk.at("content_block"@);
    let kind = block.at("type"@).as_str();
    let s1 = SseModel { block_index: index, block_type: kind, ..s };
    if kind == Some("tool_use"@) {
        SseModel {
            tool_use_id: block.at("id"@).as_str(),
            tool_use_name: block.at("name"@).as_str(),
            tool_use_input: Seq::empty(),
            ..s1
        }
    } else if kind == Some("thinking"@) {
        SseModel { reasoning_text: Seq::empty(), ..s1 }
    } else {
        s1
    }
}

/// `content_block_delta`: text and thinking deltas are appended and streamed;
/// tool input deltas are appended.
pub open spec fn block_delta(s: SseModel, delta: JsonView) -> (SseModel, Seq<EventView>) {
    let kind = text_or(delta.at("type"@).as_str(), Seq::empty());
    if kind == "text_delta"@ {
        match delta.at("text"@).as_str() {
            Some(t) => (
                SseModel { assistant_text: s.assistant_text + t, ..s },
                seq![
                    EventView::OutputTextDelta {
                        delta: t,
                        item_id: s.current_item_id,
                        output_index: s.block_index,
                    },
                ],
            ),
            None => (s, Seq::empty()),
        }
    } else if kind == "thinking_delta"@ {
        match delta.at("thinking"@).as_str() {
            Some(t) => (
                SseModel { reasoning_text: s.reasoning_text + t, ..s },
                seq![
                    EventView::ReasoningContentDelta {
                        delta: t,
                        item_id: s.current_item_id,
                        output_index: s.block_index,
                        content_index: s.block_index,
                    },
                ],
            ),
            None => (s, Seq::empty()),
        }
    } else if kind == "input_json_delta"@ {
        match delta.at("partial_json"@).as_str() {
            Some(p) => (SseModel { tool_use_input: s.tool_use_input + p, ..s }, Seq::empty()),
            None => (s, Seq::empty()),
        }
    } else {
        (s, Seq::empty())
    }
}

/// The arguments text of a finished tool call: the accumulated input as
/// `serde_json` re-writes it (an empty object where it does not parse), or the
/// input itself where writing fails.
pub open spec fn tool_arguments(input: Seq<char>) -> Seq<char> {
    arguments_or_input(json_text(input_or_empty(json_parse(input))), input)
}

/// The parsed tool input, or an empty object where the input did not parse.
pub open spec fn input_or_empty(parsed: Option<JsonView>) -> JsonView {
    match parsed {
        Some(v) => v,
        None => JsonView::empty_object(),
    }
}

/// The re-written arguments text, or the input itself where writing failed.
pub open spec fn arguments_or_input(written: Option<Seq<char>>, input: Seq<char>) -> Seq<char> {
    match written {
        Some(t) => t,
        None => input,
    }
}

/// The value a tool call's accumulated input stands for, given what parsing
/// it gave: the parsed value, or an empty object.
pub fn tool_input_value(parsed: Option<Json>) -> (v: Json)
    ensures
        v@ == input_or_empty(opt_json(parsed)),
{
    match parsed {
        Some(v) => v,
        None => Json::empty_object(),
    }
}

/// The arguments text of a finished tool call, given what writing its input
/// value gave: that text, or the accumulated input itself.
pub fn tool_arguments_text(written: Option<String>, input: &str) -> (t: String)
    ensures
        t@ == arguments_or_input(opt_text(written), input@),
{
    match written {
        Some(t) => t,
        None => input.to_owned(),
    }
}

/// `content_block_stop`: a tool-use block becomes a finished function call;
/// every block ends with no type and no index.
pub open spec fn block_stop(s: SseModel) -> (SseModel, Seq<EventView>) {
    let s1 = SseModel { block_type: None, block_index: None, ..s };
    if s.block_type == Some("tool_use"@) {
        let item = ItemView::FunctionCall {
            id: s.tool_use_id,
            name: text_or(s.tool_use_name, Seq::empty()),
            arguments: tool_arguments(s.tool_use_input),
            call_id: text_or(s.tool_use_id, Seq::empty()),
        };
        (
            SseModel {
                tool_use_id: None,
                tool_use_name: None,
                tool_use_input: Seq::empty(),
                ..s1
            },
            seq![EventView::OutputItemDone { item, output_index: s.block_index }],
        )
    } else {
        (s1, Seq::empty())
    }
}

/// `o.unwrap_or(0)`.
pub open spec fn count_or_zero(o: Option<u64>) -> u64 {
    match o {
        Some(n) => n,
        None => 0,
    }
}

/// The token usage that a `usage` object reports.
pub open spec fn usage_of(usage: JsonView) -> TokenUsage {
    let input = count_or_zero(usage.at("input_tokens"@).as_u64());
    let output = count_or_zero(usage.at("output_tokens"@).as_u64());
    TokenUsage {
        input_tokens: input,
        cached_input_tokens: 0,
        output_tokens: output,
        reasoning_output_tokens: 0,
        total_tokens: input.wrapping_add(output),
    }
}

/// `message_delta`: a `usage` member replaces the token usage.
pub open spec fn message_delta(s: SseModel, chunk: JsonView) -> SseModel {
    match chunk.get("usage"@) {
        Some(u) => SseModel { token_usage: Some(usage_of(u)), ..s },
        None => s,
    }
}

/// One parsed event: the next state, the events it reports, and whether the
/// stream is complete.
pub open spec fn chunk_step(s: SseModel, chunk: JsonView) -> (SseModel, Seq<EventView>, bool) {
    let kind = text_or(chunk.at("type"@).as_str(), Seq::empty());
    if kind == "message_start"@ {
        let id = chunk.at("message"@).at("id"@).as_str();
        let model = chunk.at("message"@).at("model"@).as_str();
        (
            SseModel { current_response_id: id, current_response_model: model, ..s },
            seq![EventView::Created { response_id: id, response_model: model }],
            false,
        )
    } else if kind == "content_block_start"@ {
        (block_start(s, chunk), Seq::empty(), false)
    } else if kind == "content_block_delta"@ {
        let (s1, events) = block_delta(s, chunk.at("delta"@));
        (s1, events, false)
    } else if kind == "content_block_stop"@ {
        let (s1, events) = block_stop(s);
        (s1, events, false)
    } else if kind == "message_delta"@ {
        (message_delta(s, chunk), Seq::empty(), false)
    } else if kind == "message_stop"@ {
        let (s1, events) = complete_model(s);
        (s1, events, true)
    } else {
        (s, Seq::empty(), false)
    }
}

/// What one server-sent event's data led to.
#[derive(Debug, Clone, PartialEq)]
pub enum SseStep {
    /// The data is blank.
    Skipped,
    /// The data is not JSON.
    Malformed,
    /// The events the data reports; the response goes on.
    Events(Vec<ResponseEvent>),
    /// The events the data reports; the response is complete.
    Completed(Vec<ResponseEvent>),
}

pub enum StepView {
    Skipped,
    Malformed,
    Events(Seq<EventView>),
    Completed(Seq<EventView>),
}

impl View for SseStep {
    type V = StepView;

    open spec fn view(&self) -> StepView {
        match self {
            SseStep::Skipped => StepView::Skipped,
            SseStep::Malformed => StepView::Malformed,
            SseStep::Events(e) => StepView::Events(events_view(e@)),
            SseStep::Completed(e) => StepView::Completed(events_view(e@)),
        }
    }
}

/// One server-sent event, by its data: blank data is skipped, data that is
/// not JSON is passed over, and a JSON event is handled by [`chunk_step`].
pub open spec fn data_step(s: SseModel, data: Seq<char>) -> (SseModel, StepView) {
    let t = trim(data);
    if t.len() == 0 {
        (s, StepView::Skipped)
    } else {
        match json_parse(t) {
            None => (s, StepView::Malformed),
            Some(chunk) => {
                let (s1, events, done) = chunk_step(s, chunk);
                (s1, if done { StepView::Completed(events) } else { StepView::Events(events) })
            },
        }
    }
}

/// The error reported when the transport fails.
pub open spec fn transport_message(detail: Seq<char>) -> Seq<char> {
    "[transport] "@ + detail
}

/// The error reported when no event came within the idle timeout.
pub open spec fn idle_message() -> Seq<char> {
    "[idle] timeout waiting for SSE"@
}

/// How reading the event stream ended without the response completing.
#[derive(Debug, Clone, PartialEq)]
pub enum StreamInterruption {
    /// The transport failed, as `detail` says.
    TransportFailed { detail: String },
    /// No event came within the idle timeout.
    IdleTimeout,
    /// The stream ended.
    Closed,
}

pub enum InterruptionView {
    TransportFailed(Seq<char>),
    IdleTimeout,
    Closed,
}

impl View for StreamInterruption {
    type V = InterruptionView;

    open spec fn view(&self) -> InterruptionView {
        match self {
            StreamInterruption::TransportFailed { detail } => InterruptionView::TransportFailed(detail@),
            StreamInterruption::IdleTimeout => InterruptionView::IdleTimeout,
            StreamInterruption::Closed => InterruptionView::Closed,
        }
    }
}

/// The model of an optional stream error: its message and request id.
pub open spec fn error_view(e: Option<StreamError>) -> Option<(Seq<char>, Seq<char>)> {
    match e {
        Some(e) => Some((e.message@, e.request_id@)),
        None => None,
    }
}

/// What ends the reading of a stream without a completed response: the
/// events to report, and the error to report after them. A stream that ended
/// completes the response with what arrived; a failed transport or an idle
/// timeout reports an error and nothing else. Reading stops in every case.
pub open spec fn interruption_step(
    s: SseModel,
    interruption: InterruptionView,
    request_id: Seq<char>,
) -> (SseModel, Seq<EventView>, Option<(Seq<char>, Seq<char>)>) {
    match interruption {
        InterruptionView::Closed => {
            let (s1, events) = complete_model(s);
            (s1, events, None)
        },
        InterruptionView::TransportFailed(detail) => (
            s,
            Seq::empty(),
            Some((transport_message(detail), request_id)),
        ),
        InterruptionView::IdleTimeout => (s, Seq::empty(), Some((idle_message(), request_id))),
    }
}

/// A copy of an optional text.
fn copy_text(o: &Option<String>) -> (r: Option<String>)
    ensures
        opt_text(r) == opt_text(*o),
{
    match o {
        Some(t) => Some(t.clone()),
        None => None,
    }
}

/// The text at `key` of `j`, copied.
fn text_at(j: &Json, key: &str) -> (r: Option<String>)
    ensures
        opt_text(r) == j@.at(key@).as_str(),
{
    match j.str_at(key) {
        Some(t) => Some(t.clone()),
        None => None,
    }
}

/// Whether an optional text is present and reads `lit`.
fn is_some_text(o: &Option<String>, lit: &str) -> (r: bool)
    ensures
        r == (opt_text(*o) == Some(lit@)),
{
    match o {
        Some(t) => text_is(t.as_str(), lit),
        None => false,
    }
}

/// The value at `key` of `j`, or `Null`.
fn value_at<'a>(j: &'a Json, key: &str, null: &'a Json) -> (r: &'a Json)
    requires
        null@ == JsonView::Null,
    ensures
        r@ == j@.at(key@),
{
    match j.get(key) {
        Some(v) => v,
        None => null,
    }
}

impl SseState {
    /// The state a stream starts in.
    pub fn new() -> (s: SseState)
        ensures
            s@ == initial_model(),
    {
        SseState {
            assistant_text: String::new(),
            reasoning_text: String::new(),
            current_item_id: None,
            current_response_id: None,
            current_response_model: None,
            block_type: None,
            block_index: None,
            tool_use_id: None,
            tool_use_name: None,
            tool_use_input: String::new(),
            token_usage: None,
        }
    }
    /// Completes the response: the finished assistant message and reasoning
    /// item where their texts are not empty, then `Completed`.
    pub fn complete(&mut self) -> (events: Vec<ResponseEvent>)
        ensures
            (final(self)@, events_view(events@)) == complete_model(old(self)@),
    {
        let ghost s0 = self@;
        let ghost (m, evs) = complete_model(s0);
        let mut events: Vec<ResponseEvent> = Vec::new();
        let ghost mut expected: Seq<EventView> = Seq::empty();
        if !self.assistant_text.as_str().is_empty() {
            let text = self.assistant_text.clone();
            self.assistant_text = String::new();
            let mut content: Vec<ContentItem> = Vec::new();
            content.push(ContentItem::OutputText { text });
            assert(contents_view(content@) =~= seq![ContentView::OutputText(s0.assistant_text)]);
            let item = ResponseItem::Message {
                id: copy_text(&self.current_item_id),
                role: "assistant".to_owned(),
                content,
            };
            events.push(ResponseEvent::OutputItemDone { item, output_index: None });
            proof {
                expected = seq![
                    EventView::OutputItemDone {
                        item: ItemView::Message {
                            id: s0.current_item_id,
                            role: "assistant"@,
                            content: seq![ContentView::OutputText(s0.assistant_text)],
                        },
                        output_index: None,
                    },
                ];
            }
        }
        assert(events_view(events@) =~= expected);
        if !self.reasoning_text.as_str().is_empty() {
            let text = self.reasoning_text.clone();
            self.reasoning_text = String::new();
            let id = match &self.current_item_id {
                Some(t) => t.clone(),
                None => String::new(),
            };
            let mut content: Vec<String> = Vec::new();
            content.push(text);
            let item = ResponseItem::Reasoning { id, content };
            assert(item@ == ItemView::Reasoning {
                id: text_or(s0.current_item_id, Seq::empty()),
                content: seq![s0.reasoning_text],
            }) by {
                assert(content@.map_values(|t: String| t@) =~= seq![s0.reasoning_text]);
            }
            events.push(ResponseEvent::OutputItemDone { item, output_index: None });
            proof {
                expected = expected.push(
                    EventView::OutputItemDone {
                        item: ItemView::Reasoning {
                            id: text_or(s0.current_item_id, Seq::empty()),
                            content: seq![s0.reasoning_text],
                        },
                        output_index: None,
                    },
                );
            }
        }
        assert(events_view(events@) =~= expected);
        let response_id = match &self.current_response_id {
            Some(t) => t.clone(),
            None => String::new(),
        };
        let token_usage = self.token_usage.take();
        events.push(ResponseEvent::Completed { response_id, token_usage });
        assert(events_view(events@) =~= evs);
        assert(self.assistant_text@ =~= Seq::<char>::empty());
        assert(self.reasoning_text@ =~= Seq::<char>::empty());
        assert(self@ == m);
        events
    }


    /// `content_block_start`.
    fn start_block(&mut self, chunk: &Json)
        ensures
            final(self)@ == block_start(old(self)@, chunk@),
    {
        let null = Json::Null;
        self.block_index = match value_at(chunk, "index", &null).as_u64() {
            Some(v) => Some(v as u32),
            None => None,
        };
        let block = value_at(chunk, "content_block", &null);
        self.block_type = text_at(block, "type");
        if is_some_text(&self.block_type, "tool_use") {
            self.tool_use_id = text_at(block, "id");
            self.tool_use_name = text_at(block, "name");
            self.tool_use_input = String::new();
        } else if is_some_text(&self.block_type, "thinking") {
            self.reasoning_text = String::new();
        }
    }

    /// `content_block_delta`, given the chunk's `delta` member.
    fn apply_delta(&mut self, delta: &Json) -> (events: Vec<ResponseEvent>)
        ensures
            (final(self)@, events_view(events@)) == block_delta(old(self)@, delta@),
    {
        let mut events: Vec<ResponseEvent> = Vec::new();
        let kind = match text_at(delta, "type") {
            Some(t) => t,
            None => String::new(),
        };
        if text_is(kind.as_str(), "text_delta") {
            if let Some(t) = delta.str_at("text") {
                self.assistant_text.append(t.as_str());
                events.push(
                    ResponseEvent::OutputTextDelta {
                        delta: t.clone(),
                        item_id: copy_text(&self.current_item_id),
                        output_index: self.block_index,
                    },
                );
            }
        } else if text_is(kind.as_str(), "thinking_delta") {
            if let Some(t) = delta.str_at("thinking") {
                self.reasoning_text.append(t.as_str());
                events.push(
                    ResponseEvent::ReasoningContentDelta {
                        delta: t.clone(),
                        item_id: copy_text(&self.current_item_id),
                        output_index: self.block_index,
                        content_index: self.block_index,
                    },
                );
            }
        } else if text_is(kind.as_str(), "input_json_delta") {
            if let Some(p) = delta.str_at("partial_json") {
                self.tool_use_input.append(p.as_str());
            }
        }
        proof {
            let (m, evs) = block_delta(old(self)@, delta@);
            assert(events_view(events@) =~= evs);
        }
        events
    }

    /// `content_block_stop`.
    fn stop_block(&mut self) -> (events: Vec<ResponseEvent>)
        ensures
            (final(self)@, events_view(events@)) == block_stop(old(self)@),
    {
        let mut events: Vec<ResponseEvent> = Vec::new();
        if is_some_text(&self.block_type, "tool_use") {
            let value = tool_input_value(parse_json(self.tool_use_input.as_str()));
            let arguments = tool_arguments_text(json_to_string(&value), self.tool_use_input.as_str());
            let name = match &self.tool_use_name {
                Some(t) => t.clone(),
                None => String::new(),
            };
            let call_id = match &self.tool_use_id {
                Some(t) => t.clone(),
                None => String::new(),
            };
            let item = ResponseItem::FunctionCall {
                id: copy_text(&self.tool_use_id),
                name,
                arguments,
                call_id,
            };
            events.push(ResponseEvent::OutputItemDone { item, output_index: self.block_index });
            self.tool_use_id = None;
            self.tool_use_name = None;
            self.tool_use_input = String::new();
        }
        self.block_type = None;
        self.block_index = None;
        proof {
            let (m, evs) = block_stop(old(self)@);
            assert(events_view(events@) =~= evs);
            assert(self.tool_use_input@ =~= m.tool_use_input);
        }
        events
    }

    /// `message_delta`.
    fn apply_message_delta(&mut self, chunk: &Json)
        ensures
            final(self)@ == message_delta(old(self)@, chunk@),
    {
        if let Some(usage) = chunk.get("usage") {
            let null = Json::Null;
            let input_tokens = match value_at(usage, "input_tokens", &null).as_u64() {
                Some(n) => n,
                None => 0,
            };
            let output_tokens = match value_at(usage, "output_tokens", &null).as_u64() {
                Some(n) => n,
                None => 0,
            };
            self.token_usage = Some(
                TokenUsage {
                    input_tokens,
                    cached_input_tokens: 0,
                    output_tokens,
                    reasoning_output_tokens: 0,
                    total_tokens: input_tokens.wrapping_add(output_tokens),
                },
            );
        }
    }

    /// Handles one parsed event of the stream: the events it reports, and
    /// whether the response is complete (`message_stop`).
    pub fn handle_chunk(&mut self, chunk: &Json) -> (r: (Vec<ResponseEvent>, bool))
        ensures
            (final(self)@, events_view(r.0@), r.1) == chunk_step(old(self)@, chunk@),
    {
        let null = Json::Null;
        let kind = match text_at(chunk, "type") {
            Some(t) => t,
            None => String::new(),
        };
        if text_is(kind.as_str(), "message_start") {
            let message = value_at(chunk, "message", &null);
            let id = text_at(message, "id");
            let model = text_at(message, "model");
            self.current_response_id = copy_text(&id);
            self.current_response_model = copy_text(&model);
            let mut events: Vec<ResponseEvent> = Vec::new();
            events.push(ResponseEvent::Created { response_id: id, response_model: model });
            proof {
                let (m, evs, done) = chunk_step(old(self)@, chunk@);
                assert(events_view(events@) =~= evs);
            }
            (events, false)
        } else if text_is(kind.as_str(), "content_block_start") {
            self.start_block(chunk);
            let events: Vec<ResponseEvent> = Vec::new();
            assert(events_view(events@) =~= Seq::empty());
            (events, false)
        } else if text_is(kind.as_str(), "content_block_delta") {
            let delta = value_at(chunk, "delta", &null);
            (self.apply_delta(delta), false)
        } else if text_is(kind.as_str(), "content_block_stop") {
            (self.stop_block(), false)
        } else if text_is(kind.as_str(), "message_delta") {
            self.apply_message_delta(chunk);
            let events: Vec<ResponseEvent> = Vec::new();
            assert(events_view(events@) =~= Seq::empty());
            (events, false)
        } else if text_is(kind.as_str(), "message_stop") {
            (self.complete(), true)
        } else {
            let events: Vec<ResponseEvent> = Vec::new();
            assert(events_view(events@) =~= Seq::empty());
            (events, false)
        }
    }

    /// Handles the data of one server-sent event.
    pub fn handle_data(&mut self, data: &str) -> (r: SseStep)
        ensures
            (final(self)@, r@) == data_step(old(self)@, data@),
    {
        let text = trimmed(data);
        if text.as_str().is_empty() {
            return SseStep::Skipped;
        }
        match parse_json(text.as_str()) {
            None => SseStep::Malformed,
            Some(chunk) => {
                let (events, done) = self.handle_chunk(&chunk);
                if done {
                    SseStep::Completed(events)
                } else {
                    SseStep::Events(events)
                }
            },
        }
    }

    /// The stream ended before `message_stop`: the response is completed
    /// with what has been received.
    pub fn handle_stream_closed(&mut self) -> (events: Vec<ResponseEvent>)
        ensures
            (final(self)@, events_view(events@)) == complete_model(old(self)@),
    {
        self.complete()
    }

    /// Handles the end of reading without a completed response: the events
    /// to report, then the error to report, if any.
    pub fn handle_interruption(&mut self, interruption: &StreamInterruption, request_id: &str) -> (r: (
        Vec<ResponseEvent>,
        Option<StreamError>,
    ))
        ensures
            (final(self)@, events_view(r.0@), error_view(r.1)) == interruption_step(
                old(self)@,
                interruption@,
                request_id@,
            ),
    {
        match interruption {
            StreamInterruption::Closed => (self.complete(), None),
            StreamInterruption::TransportFailed { detail } => {
                let events: Vec<ResponseEvent> = Vec::new();
                assert(events_view(events@) =~= Seq::empty());
                (events, Some(transport_error(detail.as_str(), request_id)))
            },
            StreamInterruption::IdleTimeout => {
                let events: Vec<ResponseEvent> = Vec::new();
                assert(events_view(events@) =~= Seq::empty());
                (events, Some(idle_timeout_error(request_id)))
            },
        }
    }
}

/// The error reported when the transport fails with `detail`.
pub fn transport_error(detail: &str, request_id: &str) -> (e: StreamError)
    ensures
        e.message@ == transport_message(detail@),
        e.request_id@ == request_id@,
{
    let mut message = "[transport] ".to_owned();
    message.append(detail);
    StreamError { message, request_id: request_id.to_owned() }
}

/// The error reported when no event arrived within the idle timeout.
pub fn idle_timeout_error(request_id: &str) -> (e: StreamError)
    ensures
        e.message@ == idle_message(),
        e.request_id@ == request_id@,
{
    StreamError { message: "[idle] timeout waiting for SSE".to_owned(), request_id: request_id.to_owned() }
}

}
