use vstd::prelude::*;

use crate::json::opt_text;

verus! {

/// One piece of a message's content.
#[derive(Debug, Clone, PartialEq)]
pub enum ContentItem {
    InputText { text: String },
    InputImage { image_url: String },
    OutputText { text: String },
}

pub enum ContentView {
    InputText(Seq<char>),
    InputImage(Seq<char>),
    OutputText(Seq<char>),
}

impl View for ContentItem {
    type V = ContentView;

    open spec fn view(&self) -> ContentView {
        match self {
            ContentItem::InputText { text } => ContentView::InputText(text@),
            ContentItem::InputImage { image_url } => ContentView::InputImage(image_url@),
            ContentItem::OutputText { text } => ContentView::OutputText(text@),
        }
    }
}

/// The model of a list of content items.
pub open spec fn contents_view(c: Seq<ContentItem>) -> Seq<ContentView> {
    c.map_values(|x: ContentItem| x@)
}

/// An item of a conversation: what the model was given and what it answered.
/// `Other` stands for the kinds of item that this library passes over.
#[derive(Debug, Clone, PartialEq)]
#[allow(inconsistent_fields)]
pub enum ResponseItem {
    Message { id: Option<String>, role: String, content: Vec<ContentItem> },
    Reasoning { id: String, content: Vec<String> },
    FunctionCall { id: Option<String>, name: String, arguments: String, call_id: String },
    FunctionCallOutput { call_id: String, output: String },
    Other,
}

#[allow(inconsistent_fields)]
pub enum ItemView {
    Message { id: Option<Seq<char>>, role: Seq<char>, content: Seq<ContentView> },
    Reasoning { id: Seq<char>, content: Seq<Seq<char>> },
    FunctionCall {
        id: Option<Seq<char>>,
        name: Seq<char>,
        arguments: Seq<char>,
        call_id: Seq<char>,
    },
    FunctionCallOutput { call_id: Seq<char>, output: Seq<char> },
    Other,
}

impl View for ResponseItem {
    type V = ItemView;

    open spec fn view(&self) -> ItemView {
        match self {
            ResponseItem::Message { id, role, content } => ItemView::Message {
                id: opt_text(*id),
                role: role@,
                content: contents_view(content@),
            },
            ResponseItem::Reasoning { id, content } => ItemView::Reasoning {
                id: id@,
                content: content@.map_values(|t: String| t@),
            },
            ResponseItem::FunctionCall { id, name, arguments, call_id } => ItemView::FunctionCall {
                id: opt_text(*id),
                name: name@,
                arguments: arguments@,
                call_id: call_id@,
            },
            ResponseItem::FunctionCallOutput { call_id, output } => ItemView::FunctionCallOutput {
                call_id: call_id@,
                output: output@,
            },
            ResponseItem::Other => ItemView::Other,
        }
    }
}

/// The model of a list of items.
pub open spec fn items_view(items: Seq<ResponseItem>) -> Seq<ItemView> {
    items.map_values(|x: ResponseItem| x@)
}

/// Token counts reported for one response.
#[derive(Debug, Clone, Copy, PartialEq, Eq, Structural)]
pub struct TokenUsage {
    pub input_tokens: u64,
    pub cached_input_tokens: u64,
    pub output_tokens: u64,
    pub reasoning_output_tokens: u64,
    pub total_tokens: u64,
}

/// What a response stream reports, in order.
#[derive(Debug, Clone, PartialEq)]
#[allow(inconsistent_fields)]
pub enum ResponseEvent {
    Created { response_id: Option<String>, response_model: Option<String> },
    OutputTextDelta { delta: String, item_id: Option<String>, output_index: Option<u32> },
    ReasoningContentDelta {
        delta: String,
        item_id: Option<String>,
        output_index: Option<u32>,
        content_index: Option<u32>,
    },
    OutputItemDone { item: ResponseItem, output_index: Option<u32> },
    Completed { response_id: String, token_usage: Option<TokenUsage> },
}

#[allow(inconsistent_fields)]
pub enum EventView {
    Created { response_id: Option<Seq<char>>, response_model: Option<Seq<char>> },
    OutputTextDelta { delta: Seq<char>, item_id: Option<Seq<char>>, output_index: Option<u32> },
    ReasoningContentDelta {
        delta: Seq<char>,
        item_id: Option<Seq<char>>,
        output_index: Option<u32>,
        content_index: Option<u32>,
    },
    OutputItemDone { item: ItemView, output_index: Option<u32> },
    Completed { response_id: Seq<char>, token_usage: Option<TokenUsage> },
}

impl View for ResponseEvent {
    type V = EventView;

    open spec fn view(&self) -> EventView {
        match self {
            ResponseEvent::Created { response_id, response_model } => EventView::Created {
                response_id: opt_text(*response_id),
                response_model: opt_text(*response_model),
            },
            ResponseEvent::OutputTextDelta { delta, item_id, output_index } =>
                EventView::OutputTextDelta {
                    delta: delta@,
                    item_id: opt_text(*item_id),
                    output_index: *output_index,
                },
            ResponseEvent::ReasoningContentDelta { delta, item_id, output_index, content_index } =>
                EventView::ReasoningContentDelta {
                delta: delta@,
                item_id: opt_text(*item_id),
                output_index: *output_index,
                content_index: *content_index,
            },
            ResponseEvent::OutputItemDone { item, output_index } => EventView::OutputItemDone {
                item: item@,
                output_index: *output_index,
            },
            ResponseEvent::Completed { response_id, token_usage } => EventView::Completed {
                response_id: response_id@,
                token_usage: *token_usage,
            },
        }
    }
}

/// The model of a list of events.
pub open spec fn events_view(events: Seq<ResponseEvent>) -> Seq<EventView> {
    events.map_values(|e: ResponseEvent| e@)
}

/// A failure of the response stream.
#[derive(Debug, Clone, PartialEq)]
pub struct StreamError {
    pub message: String,
    pub request_id: String,
}

}
