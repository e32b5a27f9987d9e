use vstd::prelude::*;

use crate::protocol::{ContentView, EventView, ItemView};
use crate::json_serde::json_parse;
use crate::sse::{chunk_step, complete_model, data_step, tool_arguments, SseModel, StepView};
use crate::text::trim;
use crate::text::text_or;
use crate::json::JsonView;

verus! {

/// The handling of a sequence of parsed events, which stops at the first
/// that completes the response: the final state, every event reported, and
/// whether the response completed.
pub open spec fn run_chunks(s: SseModel, chunks: Seq<JsonView>) -> (SseModel, Seq<EventView>, bool)
    decreases chunks.len(),
{
    if chunks.len() == 0 {
        (s, Seq::empty(), false)
    } else {
        let (s1, e1, done) = chunk_step(s, chunks[0]);
        if done {
            (s1, e1, true)
        } else {
            let (s2, e2, done2) = run_chunks(s1, chunks.drop_first());
            (s2, e1 + e2, done2)
        }
    }
}

/// The text streamed by the `OutputTextDelta` events of `events`, in order.
pub open spec fn streamed_text(events: Seq<EventView>) -> Seq<char>
    decreases events.len(),
{
    if events.len() == 0 {
        Seq::empty()
    } else {
        let rest = streamed_text(events.drop_first());
        match events[0] {
            EventView::OutputTextDelta { delta, .. } => delta + rest,
            _ => rest,
        }
    }
}

/// The text of the output-text content of a message item.
pub open spec fn output_text(content: Seq<ContentView>) -> Seq<char>
    decreases content.len(),
{
    if content.len() == 0 {
        Seq::empty()
    } else {
        let rest = output_text(content.drop_first());
        match content[0] {
            ContentView::OutputText(t) => t + rest,
            _ => rest,
        }
    }
}

/// The text of the finished message items among `events`, in order.
pub open spec fn finished_text(events: Seq<EventView>) -> Seq<char>
    decreases events.len(),
{
    if events.len() == 0 {
        Seq::empty()
    } else {
        let rest = finished_text(events.drop_first());
        match events[0] {
            EventView::OutputItemDone { item: ItemView::Message { content, .. }, .. } =>
                output_text(content) + rest,
            _ => rest,
        }
    }
}

/// Whether `e` is a `Completed` event.
pub open spec fn is_completed(e: EventView) -> bool {
    e is Completed
}

/// `Completed` is the last of `events` and stands nowhere else.
pub open spec fn completed_last(events: Seq<EventView>) -> bool {
    &&& events.len() > 0
    &&& is_completed(events.last())
    &&& forall|i: int| 0 <= i < events.len() - 1 ==> !is_completed(#[trigger] events[i])
}

/// No event of `events` is `Completed`.
pub open spec fn no_completed(events: Seq<EventView>) -> bool {
    forall|i: int| 0 <= i < events.len() ==> !is_completed(#[trigger] events[i])
}

proof fn lemma_streamed_text_append(a: Seq<EventView>, b: Seq<EventView>)
    ensures
        streamed_text(a + b) == streamed_text(a) + streamed_text(b),
    decreases a.len(),
{
    if a.len() == 0 {
        assert(a + b =~= b);
        assert(streamed_text(a) =~= Seq::<char>::empty());
        assert(streamed_text(a + b) =~= streamed_text(a) + streamed_text(b));
    } else {
        lemma_streamed_text_append(a.drop_first(), b);
        assert((a + b).drop_first() =~= a.drop_first() + b);
        assert((a + b)[0] == a[0]);
        match a[0] {
            EventView::OutputTextDelta { delta, .. } => {
                assert(streamed_text(a + b) =~= streamed_text(a) + streamed_text(b));
            },
            _ => {
                assert(streamed_text(a + b) =~= streamed_text(a) + streamed_text(b));
            },
        }
    }
}

proof fn lemma_finished_text_append(a: Seq<EventView>, b: Seq<EventView>)
    ensures
        finished_text(a + b) == finished_text(a) + finished_text(b),
    decreases a.len(),
{
    if a.len() == 0 {
        assert(a + b =~= b);
        assert(finished_text(a + b) =~= finished_text(a) + finished_text(b));
    } else {
        lemma_finished_text_append(a.drop_first(), b);
        assert((a + b).drop_first() =~= a.drop_first() + b);
        assert((a + b)[0] == a[0]);
        assert(finished_text(a + b) =~= finished_text(a) + finished_text(b));
    }
}

proof fn lemma_text_of_empty()
    ensures
        streamed_text(Seq::<EventView>::empty()) == Seq::<char>::empty(),
        finished_text(Seq::<EventView>::empty()) == Seq::<char>::empty(),
{
}

proof fn lemma_texts_of_one(e: EventView)
    ensures
        streamed_text(seq![e]) == match e {
            EventView::OutputTextDelta { delta, .. } => delta,
            _ => Seq::<char>::empty(),
        },
        finished_text(seq![e]) == match e {
            EventView::OutputItemDone { item: ItemView::Message { content, .. }, .. } =>
                output_text(content),
            _ => Seq::<char>::empty(),
        },
{
    assert(seq![e].drop_first() =~= Seq::<EventView>::empty());
    lemma_text_of_empty();
    assert(streamed_text(seq![e].drop_first()) == Seq::<char>::empty());
    assert(finished_text(seq![e].drop_first()) == Seq::<char>::empty());
    match e {
        EventView::OutputTextDelta { delta, .. } => {
            assert(delta + Seq::<char>::empty() =~= delta);
        },
        EventView::OutputItemDone { item: ItemView::Message { content, .. }, .. } => {
            assert(output_text(content) + Seq::<char>::empty() =~= output_text(content));
        },
        _ => {},
    }
}

/// One step keeps the assistant text: what was pending plus what is streamed
/// equals what is finished plus what is pending after.
proof fn lemma_step_conserves_text(s: SseModel, chunk: JsonView)
    ensures
        ({
            let (s1, events, done) = chunk_step(s, chunk);
            &&& s.assistant_text + streamed_text(events) == finished_text(events)
                + s1.assistant_text
            &&& done ==> s1.assistant_text.len() == 0
        }),
{
    let (s1, events, done) = chunk_step(s, chunk);
    lemma_text_of_empty();
    if events.len() == 0 {
        assert(s.assistant_text + streamed_text(events) =~= s.assistant_text);
        assert(finished_text(events) + s1.assistant_text =~= s1.assistant_text);
    } else if events.len() == 1 {
        assert(events =~= seq![events[0]]);
        lemma_texts_of_one(events[0]);
        assert(s.assistant_text + streamed_text(events) =~= finished_text(events)
            + s1.assistant_text);
    } else {
        // Only completing the response reports more than one event.
        let (m, evs) = complete_model(s);
        assert(events == evs);
        let done_event = EventView::Completed {
            response_id: text_or(s.current_response_id, Seq::empty()),
            token_usage: s.token_usage,
        };
        let message: Seq<EventView> = if s.assistant_text.len() > 0 {
            seq![
                EventView::OutputItemDone {
                    item: ItemView::Message {
                        id: s.current_item_id,
                        role: "assistant"@,
                        content: seq![ContentView::OutputText(s.assistant_text)],
                    },
                    output_index: None,
                },
            ]
        } else {
            Seq::empty()
        };
        let rest = events.subrange(message.len() as int, events.len() as int);
        assert(events =~= message + rest);
        assert forall|i: int| 0 <= i < rest.len() implies !(rest[i] is OutputTextDelta) && !(
        rest[i] matches EventView::OutputItemDone { item: ItemView::Message { .. }, .. }) by {}
        lemma_quiet_texts(rest);
        lemma_streamed_text_append(message, rest);
        lemma_finished_text_append(message, rest);
        if s.assistant_text.len() > 0 {
            lemma_texts_of_one(message[0]);
            assert(message =~= seq![message[0]]);
            let c = seq![ContentView::OutputText(s.assistant_text)];
            assert(c.drop_first() =~= Seq::<ContentView>::empty());
            assert(output_text(c.drop_first()) == Seq::<char>::empty());
            assert(output_text(c) =~= s.assistant_text);
        }
        assert(s.assistant_text + streamed_text(events) =~= finished_text(events)
            + s1.assistant_text);
    }
}

proof fn lemma_quiet_texts(events: Seq<EventView>)
    requires
        forall|i: int| 0 <= i < events.len() ==> !(#[trigger] events[i] is OutputTextDelta) && !(
        events[i] matches EventView::OutputItemDone { item: ItemView::Message { .. }, .. }),
    ensures
        streamed_text(events) == Seq::<char>::empty(),
        finished_text(events) == Seq::<char>::empty(),
    decreases events.len(),
{
    if events.len() > 0 {
        assert(events[0] == events[0]);
        lemma_quiet_texts(events.drop_first());
    }
}

/// Law: the assistant text is never lost nor invented. Over any sequence of
/// events, the text pending before plus the text streamed as deltas equals
/// the text of the finished messages plus the text pending after; and once
/// the response completes, nothing is pending.
pub proof fn law_text_conserved(s: SseModel, chunks: Seq<JsonView>)
    ensures
        ({
            let (s1, events, done) = run_chunks(s, chunks);
            &&& s.assistant_text + streamed_text(events) == finished_text(events)
                + s1.assistant_text
            &&& done ==> s1.assistant_text.len() == 0
        }),
    decreases chunks.len(),
{
    let (s1, events, done) = run_chunks(s, chunks);
    if chunks.len() == 0 {
        lemma_text_of_empty();
        assert(s.assistant_text + streamed_text(events) =~= s.assistant_text);
        assert(finished_text(events) + s1.assistant_text =~= s1.assistant_text);
    } else {
        lemma_step_conserves_text(s, chunks[0]);
        let (t1, e1, d1) = chunk_step(s, chunks[0]);
        if !d1 {
            law_text_conserved(t1, chunks.drop_first());
            let (t2, e2, d2) = run_chunks(t1, chunks.drop_first());
            lemma_streamed_text_append(e1, e2);
            lemma_finished_text_append(e1, e2);
            assert(events == e1 + e2);
            assert(s1 == t2);
            let a = s.assistant_text;
            let st1 = streamed_text(e1);
            let st2 = streamed_text(e2);
            let ft1 = finished_text(e1);
            let ft2 = finished_text(e2);
            assert(a + (st1 + st2) =~= (a + st1) + st2);
            assert((ft1 + t1.assistant_text) + st2 =~= ft1 + (t1.assistant_text + st2));
            assert(ft1 + (ft2 + t2.assistant_text) =~= (ft1 + ft2) + t2.assistant_text);
        }
    }
}


proof fn lemma_step_completion(s: SseModel, chunk: JsonView)
    ensures
        ({
            let (s1, events, done) = chunk_step(s, chunk);
            &&& done ==> completed_last(events)
            &&& !done ==> no_completed(events)
        }),
{
    let (s1, events, done) = chunk_step(s, chunk);
    if done {
        let (m, evs) = complete_model(s);
        assert(events == evs);
        assert(is_completed(events.last()));
        assert forall|i: int| 0 <= i < events.len() - 1 implies !is_completed(
            #[trigger] events[i],
        ) by {}
    } else {
        assert forall|i: int| 0 <= i < events.len() implies !is_completed(#[trigger] events[i]) by {}
    }
}

/// Law: a response reports `Completed` exactly when it completes, and then as
/// its very last event; before that, over any sequence of events, no
/// `Completed` is reported.
pub proof fn law_completed_last(s: SseModel, chunks: Seq<JsonView>)
    ensures
        ({
            let (s1, events, done) = run_chunks(s, chunks);
            &&& done ==> completed_last(events)
            &&& !done ==> no_completed(events)
        }),
    decreases chunks.len(),
{
    let (s1, events, done) = run_chunks(s, chunks);
    if chunks.len() > 0 {
        lemma_step_completion(s, chunks[0]);
        let (t1, e1, d1) = chunk_step(s, chunks[0]);
        if !d1 {
            law_completed_last(t1, chunks.drop_first());
            let (t2, e2, d2) = run_chunks(t1, chunks.drop_first());
            assert(events == e1 + e2);
            if d2 {
                assert(events.last() == e2.last());
                assert forall|i: int| 0 <= i < events.len() - 1 implies !is_completed(
                    #[trigger] events[i],
                ) by {
                    if i >= e1.len() {
                        assert(events[i] == e2[i - e1.len()]);
                    }
                }
            } else {
                assert forall|i: int| 0 <= i < events.len() implies !is_completed(
                    #[trigger] events[i],
                ) by {
                    if i >= e1.len() {
                        assert(events[i] == e2[i - e1.len()]);
                    }
                }
            }
        }
    }
}


/// Law: no event changes the item id of the stream: it keeps the value it
/// started with (none, for a new stream), whatever the events.
pub proof fn law_item_id_kept(s: SseModel, chunks: Seq<JsonView>)
    ensures
        run_chunks(s, chunks).0.current_item_id == s.current_item_id,
    decreases chunks.len(),
{
    if chunks.len() > 0 {
        let (t1, e1, d1) = chunk_step(s, chunks[0]);
        if !d1 {
            law_item_id_kept(t1, chunks.drop_first());
        }
    }
}


/// What one step reports: its events, and whether the response completed.
pub open spec fn step_events(step: StepView) -> (Seq<EventView>, bool) {
    match step {
        StepView::Skipped => (Seq::empty(), false),
        StepView::Malformed => (Seq::empty(), false),
        StepView::Events(e) => (e, false),
        StepView::Completed(e) => (e, true),
    }
}

/// The handling of the data of a sequence of server-sent events, which stops
/// at the first that completes the response: the final state, every event
/// reported, and whether the response completed.
pub open spec fn run_data(s: SseModel, data: Seq<Seq<char>>) -> (SseModel, Seq<EventView>, bool)
    decreases data.len(),
{
    if data.len() == 0 {
        (s, Seq::empty(), false)
    } else {
        let (s1, step) = data_step(s, data[0]);
        let (e1, done) = step_events(step);
        if done {
            (s1, e1, true)
        } else {
            let (s2, e2, done2) = run_data(s1, data.drop_first());
            (s2, e1 + e2, done2)
        }
    }
}

/// The `type` of a parsed event, or the empty text.
pub open spec fn event_kind(chunk: JsonView) -> Seq<char> {
    text_or(chunk.at("type"@).as_str(), Seq::empty())
}

/// A parsed event that the stream passes over: a `ping`, one of no type or of
/// a type it does not handle, a `content_block_delta` of a delta type it does
/// not handle, or a `message_delta` without `usage`.
pub open spec fn quiet_chunk(chunk: JsonView) -> bool {
    let kind = event_kind(chunk);
    let delta_kind = text_or(chunk.at("delta"@).at("type"@).as_str(), Seq::empty());
    ||| kind == "ping"@
    ||| !(kind == "message_start"@ || kind == "content_block_start"@ || kind
        == "content_block_delta"@ || kind == "content_block_stop"@ || kind == "message_delta"@
        || kind == "message_stop"@)
    ||| (kind == "content_block_delta"@ && !(delta_kind == "text_delta"@ || delta_kind
        == "thinking_delta"@ || delta_kind == "input_json_delta"@))
    ||| (kind == "message_delta"@ && chunk.get("usage"@) is None)
}

/// Event data that the stream passes over: blank data, data that is not
/// JSON, or a quiet event.
pub open spec fn quiet_data(data: Seq<char>) -> bool {
    ||| trim(data).len() == 0
    ||| json_parse(trim(data)) is None
    ||| (json_parse(trim(data)) matches Some(chunk) && quiet_chunk(chunk))
}

proof fn lemma_event_kinds_distinct()
    ensures
        "ping"@ != "message_start"@,
        "ping"@ != "content_block_start"@,
        "ping"@ != "content_block_delta"@,
        "ping"@ != "content_block_stop"@,
        "ping"@ != "message_delta"@,
        "ping"@ != "message_stop"@,
        "message_start"@ != "content_block_start"@,
        "message_start"@ != "content_block_delta"@,
        "message_start"@ != "content_block_stop"@,
        "message_start"@ != "message_delta"@,
        "message_start"@ != "message_stop"@,
        "content_block_start"@ != "content_block_delta"@,
        "content_block_start"@ != "content_block_stop"@,
        "content_block_start"@ != "message_delta"@,
        "content_block_start"@ != "message_stop"@,
        "content_block_delta"@ != "content_block_stop"@,
        "content_block_delta"@ != "message_delta"@,
        "content_block_delta"@ != "message_stop"@,
        "content_block_stop"@ != "message_delta"@,
        "content_block_stop"@ != "message_stop"@,
        "message_delta"@ != "message_stop"@,
        "text_delta"@ != "thinking_delta"@,
        "text_delta"@ != "input_json_delta"@,
        "thinking_delta"@ != "input_json_delta"@,
{
    reveal_strlit("ping");
    reveal_strlit("message_start");
    reveal_strlit("content_block_start");
    reveal_strlit("content_block_delta");
    reveal_strlit("content_block_stop");
    reveal_strlit("message_delta");
    reveal_strlit("message_stop");
    reveal_strlit("text_delta");
    reveal_strlit("thinking_delta");
    reveal_strlit("input_json_delta");
    assert("ping"@.len() != "message_start"@.len());
    assert("ping"@.len() != "content_block_start"@.len());
    assert("ping"@.len() != "content_block_delta"@.len());
    assert("ping"@.len() != "content_block_stop"@.len());
    assert("ping"@.len() != "message_delta"@.len());
    assert("ping"@.len() != "message_stop"@.len());
    assert("message_start"@.len() != "content_block_start"@.len());
    assert("message_start"@.len() != "content_block_delta"@.len());
    assert("message_start"@.len() != "content_block_stop"@.len());
    assert("message_start"@[8] != "message_delta"@[8]);
    assert("message_start"@.len() != "message_stop"@.len());
    assert("content_block_start"@[14] != "content_block_delta"@[14]);
    assert("content_block_start"@.len() != "content_block_stop"@.len());
    assert("content_block_start"@.len() != "message_delta"@.len());
    assert("content_block_start"@.len() != "message_stop"@.len());
    assert("content_block_delta"@.len() != "content_block_stop"@.len());
    assert("content_block_delta"@.len() != "message_delta"@.len());
    assert("content_block_delta"@.len() != "message_stop"@.len());
    assert("content_block_stop"@.len() != "message_delta"@.len());
    assert("content_block_stop"@.len() != "message_stop"@.len());
    assert("message_delta"@.len() != "message_stop"@.len());
    assert("text_delta"@.len() != "thinking_delta"@.len());
    assert("text_delta"@.len() != "input_json_delta"@.len());
    assert("thinking_delta"@.len() != "input_json_delta"@.len());
}

proof fn lemma_quiet_data_step(s: SseModel, data: Seq<char>)
    requires
        quiet_data(data),
    ensures
        data_step(s, data).0 == s,
        step_events(data_step(s, data).1) == (Seq::<EventView>::empty(), false),
{
    let t = trim(data);
    if t.len() != 0 {
        if let Some(chunk) = json_parse(t) {
            assert(quiet_chunk(chunk));
            let kind = event_kind(chunk);
            lemma_event_kinds_distinct();
            let (s1, e, d) = chunk_step(s, chunk);
            assert(s1 == s);
            assert(e =~= Seq::<EventView>::empty());
        }
    }
}

/// Law: events that the stream passes over change nothing it reports. With
/// quiet event data inserted anywhere into a stream, the final state, the
/// events reported and whether the response completes are those of the
/// stream without it.
pub proof fn law_quiet_data_ignored(s: SseModel, data: Seq<Seq<char>>, i: int, quiet: Seq<char>)
    requires
        0 <= i <= data.len(),
        quiet_data(quiet),
    ensures
        run_data(s, data.insert(i, quiet)) == run_data(s, data),
    decreases i,
{
    let with = data.insert(i, quiet);
    if i == 0 {
        lemma_quiet_data_step(s, quiet);
        assert(with[0] == quiet);
        assert(with.drop_first() =~= data);
        let (s2, e2, d2) = run_data(s, data);
        assert(Seq::<EventView>::empty() + e2 =~= e2);
    } else {
        let (s1, step) = data_step(s, data[0]);
        let (e1, done) = step_events(step);
        assert(with[0] == data[0]);
        if !done {
            law_quiet_data_ignored(s1, data.drop_first(), i - 1, quiet);
            assert(with.drop_first() =~= data.drop_first().insert(i - 1, quiet));
        }
    }
}


/// The reasoning streamed by the `ReasoningContentDelta` events of `events`,
/// in order.
pub open spec fn streamed_reasoning(events: Seq<EventView>) -> Seq<char>
    decreases events.len(),
{
    if events.len() == 0 {
        Seq::empty()
    } else {
        let rest = streamed_reasoning(events.drop_first());
        match events[0] {
            EventView::ReasoningContentDelta { delta, .. } => delta + rest,
            _ => rest,
        }
    }
}

/// The texts of `texts`, one after another.
pub open spec fn joined(texts: Seq<Seq<char>>) -> Seq<char>
    decreases texts.len(),
{
    if texts.len() == 0 {
        Seq::empty()
    } else {
        texts[0] + joined(texts.drop_first())
    }
}

/// The text of the finished reasoning items among `events`, in order.
pub open spec fn finished_reasoning(events: Seq<EventView>) -> Seq<char>
    decreases events.len(),
{
    if events.len() == 0 {
        Seq::empty()
    } else {
        let rest = finished_reasoning(events.drop_first());
        match events[0] {
            EventView::OutputItemDone { item: ItemView::Reasoning { content, .. }, .. } =>
                joined(content) + rest,
            _ => rest,
        }
    }
}

/// A `content_block_start` of a thinking block, which begins the reasoning
/// afresh.
pub open spec fn starts_thinking(chunk: JsonView) -> bool {
    event_kind(chunk) == "content_block_start"@ && chunk.at("content_block"@).at("type"@).as_str()
        == Some("thinking"@)
}

proof fn lemma_reasoning_append(a: Seq<EventView>, b: Seq<EventView>)
    ensures
        streamed_reasoning(a + b) == streamed_reasoning(a) + streamed_reasoning(b),
        finished_reasoning(a + b) == finished_reasoning(a) + finished_reasoning(b),
    decreases a.len(),
{
    if a.len() == 0 {
        assert(a + b =~= b);
        assert(streamed_reasoning(a + b) =~= streamed_reasoning(a) + streamed_reasoning(b));
        assert(finished_reasoning(a + b) =~= finished_reasoning(a) + finished_reasoning(b));
    } else {
        lemma_reasoning_append(a.drop_first(), b);
        assert((a + b).drop_first() =~= a.drop_first() + b);
        assert((a + b)[0] == a[0]);
        assert(streamed_reasoning(a + b) =~= streamed_reasoning(a) + streamed_reasoning(b));
        assert(finished_reasoning(a + b) =~= finished_reasoning(a) + finished_reasoning(b));
    }
}

proof fn lemma_reasoning_of_one(e: EventView)
    ensures
        streamed_reasoning(seq![e]) == match e {
            EventView::ReasoningContentDelta { delta, .. } => delta,
            _ => Seq::<char>::empty(),
        },
        finished_reasoning(seq![e]) == match e {
            EventView::OutputItemDone { item: ItemView::Reasoning { content, .. }, .. } =>
                joined(content),
            _ => Seq::<char>::empty(),
        },
{
    assert(seq![e].drop_first() =~= Seq::<EventView>::empty());
    assert(streamed_reasoning(seq![e].drop_first()) == Seq::<char>::empty());
    assert(finished_reasoning(seq![e].drop_first()) == Seq::<char>::empty());
    match e {
        EventView::ReasoningContentDelta { delta, .. } => {
            assert(delta + Seq::<char>::empty() =~= delta);
        },
        EventView::OutputItemDone { item: ItemView::Reasoning { content, .. }, .. } => {
            assert(joined(content) + Seq::<char>::empty() =~= joined(content));
        },
        _ => {},
    }
}

proof fn lemma_complete_conserves_reasoning(s: SseModel)
    ensures
        ({
            let (s1, events) = complete_model(s);
            &&& s.reasoning_text + streamed_reasoning(events) == finished_reasoning(events)
                + s1.reasoning_text
            &&& s1.reasoning_text.len() == 0
        }),
{
    let (s1, events) = complete_model(s);
    let message: Seq<EventView> = if s.assistant_text.len() > 0 {
        seq![
            EventView::OutputItemDone {
                item: ItemView::Message {
                    id: s.current_item_id,
                    role: "assistant"@,
                    content: seq![ContentView::OutputText(s.assistant_text)],
                },
                output_index: None,
            },
        ]
    } else {
        Seq::empty()
    };
    let reasoning: Seq<EventView> = if s.reasoning_text.len() > 0 {
        seq![
            EventView::OutputItemDone {
                item: ItemView::Reasoning {
                    id: text_or(s.current_item_id, Seq::empty()),
                    content: seq![s.reasoning_text],
                },
                output_index: None,
            },
        ]
    } else {
        Seq::empty()
    };
    let done = seq![
        EventView::Completed {
            response_id: text_or(s.current_response_id, Seq::empty()),
            token_usage: s.token_usage,
        },
    ];
    assert(events == message + reasoning + done);
    lemma_reasoning_append(message + reasoning, done);
    lemma_reasoning_append(message, reasoning);
    lemma_reasoning_of_one(done[0]);
    assert(done =~= seq![done[0]]);
    if message.len() > 0 {
        lemma_reasoning_of_one(message[0]);
        assert(message =~= seq![message[0]]);
    } else {
        assert(streamed_reasoning(message) == Seq::<char>::empty());
        assert(finished_reasoning(message) == Seq::<char>::empty());
    }
    if reasoning.len() > 0 {
        lemma_reasoning_of_one(reasoning[0]);
        assert(reasoning =~= seq![reasoning[0]]);
        let c = seq![s.reasoning_text];
        assert(c.drop_first() =~= Seq::<Seq<char>>::empty());
        assert(joined(c.drop_first()) == Seq::<char>::empty());
        assert(joined(c) =~= s.reasoning_text);
    } else {
        assert(streamed_reasoning(reasoning) == Seq::<char>::empty());
        assert(finished_reasoning(reasoning) == Seq::<char>::empty());
        assert(s.reasoning_text =~= Seq::<char>::empty());
    }
    assert(s.reasoning_text + streamed_reasoning(events) =~= finished_reasoning(events)
        + s1.reasoning_text);
}

proof fn lemma_step_conserves_reasoning(s: SseModel, chunk: JsonView)
    requires
        !starts_thinking(chunk),
    ensures
        ({
            let (s1, events, done) = chunk_step(s, chunk);
            &&& s.reasoning_text + streamed_reasoning(events) == finished_reasoning(events)
                + s1.reasoning_text
            &&& done ==> s1.reasoning_text.len() == 0
        }),
{
    let (s1, events, done) = chunk_step(s, chunk);
    let kind = event_kind(chunk);
    if kind == "message_stop"@ {
        lemma_event_kinds_distinct();
        lemma_complete_conserves_reasoning(s);
    } else {
        lemma_event_kinds_distinct();
        assert(!done);
        if events.len() == 0 {
            assert(s1.reasoning_text == s.reasoning_text);
            assert(s.reasoning_text + streamed_reasoning(events) =~= s.reasoning_text);
            assert(finished_reasoning(events) + s1.reasoning_text =~= s1.reasoning_text);
        } else {
            assert(events.len() == 1);
            assert(events =~= seq![events[0]]);
            lemma_reasoning_of_one(events[0]);
            assert(s.reasoning_text + streamed_reasoning(events) =~= finished_reasoning(events)
                + s1.reasoning_text);
        }
    }
}

/// Law: the reasoning text is never lost nor invented while no thinking block
/// starts. Over any sequence of events none of which starts a thinking block,
/// the reasoning pending before plus the reasoning streamed as deltas equals
/// the text of the finished reasoning items plus the reasoning pending after;
/// and once the response completes, nothing is pending.
pub proof fn law_reasoning_conserved(s: SseModel, chunks: Seq<JsonView>)
    requires
        forall|i: int| 0 <= i < chunks.len() ==> !starts_thinking(#[trigger] chunks[i]),
    ensures
        ({
            let (s1, events, done) = run_chunks(s, chunks);
            &&& s.reasoning_text + streamed_reasoning(events) == finished_reasoning(events)
                + s1.reasoning_text
            &&& done ==> s1.reasoning_text.len() == 0
        }),
    decreases chunks.len(),
{
    let (s1, events, done) = run_chunks(s, chunks);
    if chunks.len() == 0 {
        assert(s.reasoning_text + streamed_reasoning(events) =~= s.reasoning_text);
        assert(finished_reasoning(events) + s1.reasoning_text =~= s1.reasoning_text);
    } else {
        assert(!starts_thinking(chunks[0]));
        lemma_step_conserves_reasoning(s, chunks[0]);
        let (t1, e1, d1) = chunk_step(s, chunks[0]);
        if !d1 {
            assert forall|i: int| 0 <= i < chunks.drop_first().len() implies !starts_thinking(
                #[trigger] chunks.drop_first()[i],
            ) by {
                assert(chunks.drop_first()[i] == chunks[i + 1]);
            }
            law_reasoning_conserved(t1, chunks.drop_first());
            let (t2, e2, d2) = run_chunks(t1, chunks.drop_first());
            lemma_reasoning_append(e1, e2);
            assert(events == e1 + e2);
            assert(s1 == t2);
            let a = s.reasoning_text;
            let st1 = streamed_reasoning(e1);
            let st2 = streamed_reasoning(e2);
            let ft1 = finished_reasoning(e1);
            let ft2 = finished_reasoning(e2);
            assert(a + (st1 + st2) =~= (a + st1) + st2);
            assert((ft1 + t1.reasoning_text) + st2 =~= ft1 + (t1.reasoning_text + st2));
            assert(ft1 + (ft2 + t2.reasoning_text) =~= (ft1 + ft2) + t2.reasoning_text);
        }
    }
}

/// Law: a thinking block's reasoning is reported whole. From any state, a
/// thinking block that starts and is followed by events none of which starts
/// another thinking block: once the response completes, the finished
/// reasoning items hold exactly the thinking deltas streamed since the block
/// started, in order.
pub proof fn law_thinking_block_reported_whole(s: SseModel, start: JsonView, chunks: Seq<JsonView>)
    requires
        starts_thinking(start),
        forall|i: int| 0 <= i < chunks.len() ==> !starts_thinking(#[trigger] chunks[i]),
    ensures
        ({
            let (s0, e0, d0) = chunk_step(s, start);
            let (s1, events, done) = run_chunks(s0, chunks);
            &&& !d0
            &&& e0.len() == 0
            &&& s0.reasoning_text.len() == 0
            &&& done ==> finished_reasoning(events) == streamed_reasoning(events)
        }),
{
    lemma_event_kinds_distinct();
    reveal_strlit("thinking");
    reveal_strlit("tool_use");
    assert("thinking"@[1] != "tool_use"@[1]);
    let (s0, e0, d0) = chunk_step(s, start);
    law_reasoning_conserved(s0, chunks);
    let (s1, events, done) = run_chunks(s0, chunks);
    if done {
        assert(s0.reasoning_text + streamed_reasoning(events) =~= streamed_reasoning(events));
        assert(finished_reasoning(events) + s1.reasoning_text =~= finished_reasoning(events));
    }
}


/// A `content_block_start` of a tool_use block.
pub open spec fn starts_tool_use(chunk: JsonView) -> bool {
    event_kind(chunk) == "content_block_start"@ && chunk.at("content_block"@).at("type"@).as_str()
        == Some("tool_use"@)
}

/// The tool input streamed by the `input_json_delta` deltas among `chunks`,
/// one after another.
pub open spec fn streamed_input(chunks: Seq<JsonView>) -> Seq<char>
    decreases chunks.len(),
{
    if chunks.len() == 0 {
        Seq::empty()
    } else {
        let delta = chunks[0].at("delta"@);
        let rest = streamed_input(chunks.drop_first());
        if text_or(delta.at("type"@).as_str(), Seq::empty()) == "input_json_delta"@ {
            match delta.at("partial_json"@).as_str() {
                Some(p) => p + rest,
                None => rest,
            }
        } else {
            rest
        }
    }
}

proof fn lemma_deltas_keep_tool_call(s: SseModel, deltas: Seq<JsonView>)
    requires
        forall|i: int| 0 <= i < deltas.len() ==> event_kind(#[trigger] deltas[i])
            == "content_block_delta"@,
    ensures
        ({
            let (s1, events, done) = run_chunks(s, deltas);
            &&& !done
            &&& s1.tool_use_id == s.tool_use_id
            &&& s1.tool_use_name == s.tool_use_name
            &&& s1.block_type == s.block_type
            &&& s1.block_index == s.block_index
            &&& s1.tool_use_input == s.tool_use_input + streamed_input(deltas)
        }),
    decreases deltas.len(),
{
    lemma_event_kinds_distinct();
    if deltas.len() == 0 {
        assert(s.tool_use_input + streamed_input(deltas) =~= s.tool_use_input);
    } else {
        assert(event_kind(deltas[0]) == "content_block_delta"@);
        let (t1, e1, d1) = chunk_step(s, deltas[0]);
        assert(!d1);
        let rest = deltas.drop_first();
        assert forall|i: int| 0 <= i < rest.len() implies event_kind(#[trigger] rest[i])
            == "content_block_delta"@ by {
            assert(rest[i] == deltas[i + 1]);
        }
        lemma_deltas_keep_tool_call(t1, rest);
        let delta = deltas[0].at("delta"@);
        let p = if text_or(delta.at("type"@).as_str(), Seq::empty()) == "input_json_delta"@ {
            match delta.at("partial_json"@).as_str() {
                Some(p) => p,
                None => Seq::<char>::empty(),
            }
        } else {
            Seq::<char>::empty()
        };
        assert(t1.tool_use_input =~= s.tool_use_input + p);
        assert(streamed_input(deltas) =~= p + streamed_input(rest));
        assert(t1.tool_use_input + streamed_input(rest) =~= s.tool_use_input + streamed_input(
            deltas,
        ));
    }
}

/// Law: a tool call is reported under its own block's name, id and input.
/// From any state, a tool_use block that starts, receives any deltas and then
/// stops is reported at its stop as one finished function call whose id and
/// name are those of its own `content_block_start` (an empty name where it
/// had none), whose arguments are the input streamed since the start, and
/// whose output index is the block's; and the stop leaves no tool call
/// pending behind it.
pub proof fn law_tool_call_reported_whole(
    s: SseModel,
    start: JsonView,
    deltas: Seq<JsonView>,
    stop: JsonView,
)
    requires
        starts_tool_use(start),
        forall|i: int| 0 <= i < deltas.len() ==> event_kind(#[trigger] deltas[i])
            == "content_block_delta"@,
        event_kind(stop) == "content_block_stop"@,
    ensures
        ({
            let (s0, e0, d0) = chunk_step(s, start);
            let (s1, e1, d1) = run_chunks(s0, deltas);
            let (s2, e2, d2) = chunk_step(s1, stop);
            let block = start.at("content_block"@);
            let index = match start.at("index"@).as_u64() {
                Some(v) => Some(v as u32),
                None => None,
            };
            &&& !d0 && e0.len() == 0 && !d1 && !d2
            &&& e2 == seq![
                EventView::OutputItemDone {
                    item: ItemView::FunctionCall {
                        id: block.at("id"@).as_str(),
                        name: text_or(block.at("name"@).as_str(), Seq::empty()),
                        arguments: tool_arguments(streamed_input(deltas)),
                        call_id: text_or(block.at("id"@).as_str(), Seq::empty()),
                    },
                    output_index: index,
                },
            ]
            &&& s2.tool_use_id is None
            &&& s2.tool_use_name is None
            &&& s2.tool_use_input.len() == 0
            &&& s2.block_type is None
        }),
{
    lemma_event_kinds_distinct();
    let (s0, e0, d0) = chunk_step(s, start);
    assert(s0.tool_use_input == Seq::<char>::empty());
    lemma_deltas_keep_tool_call(s0, deltas);
    let (s1, e1, d1) = run_chunks(s0, deltas);
    assert(s1.tool_use_input =~= streamed_input(deltas));
}

}
