//! Turning the server-sent events of a chat completion into response events.
//!
//! A stream is a state machine: `ChatCompletionStream` holds what has arrived so
//! far, and `process_chat_completion_sse` takes one thing that happened on the
//! connection and answers with the events to send and whether to go on.

use std::collections::HashMap;
use vstd::prelude::*;
use crate::json::{json_get, json_parsed, json_view, json_views, parse_json, JsonView};
use crate::protocol::{
    CodexErr, CodexErrView, ContentItem, ContentItemView, ReasoningItemReasoningSummary,
    ResponseEvent, ResponseEventView, ResponseItem, ResponseItemView,
};
use crate::text::{lemma_views_push, opt_view, same_text, trimmed, views};

verus! {

broadcast use vstd::std_specs::hash::group_hash_axioms;

pub const CHAT_COMPLETION_REASONING_ID: &'static str = "chatcmpl-reasoning";

pub const CHAT_COMPLETION_MESSAGE_ID: &'static str = "chatcmpl-message";

/// The kind of item that is being streamed.
#[derive(Debug, Clone, Copy, PartialEq, Eq, Structural)]
pub enum ActiveChatCompletionItem {
    Reasoning,
    Message,
}

/// A tool call of which parts have arrived.
#[derive(Debug)]
pub struct StreamingToolCall {
    id: Option<String>,
    name: Option<String>,
    arguments: String,
}

pub struct ToolCallView {
    pub id: Option<Seq<char>>,
    pub name: Option<Seq<char>>,
    pub arguments: Seq<char>,
}

impl View for StreamingToolCall {
    type V = ToolCallView;

    closed spec fn view(&self) -> ToolCallView {
        ToolCallView {
            id: opt_view(self.id),
            name: opt_view(self.name),
            arguments: self.arguments@,
        }
    }
}

/// What has arrived on a stream and has not been handed on as a finished item.
#[derive(Debug)]
pub struct ChatCompletionStream {
    text: String,
    reasoning: String,
    tool_calls: HashMap<usize, StreamingToolCall>,
    active_item: Option<ActiveChatCompletionItem>,
}

pub struct StreamState {
    pub text: Seq<char>,
    pub reasoning: Seq<char>,
    pub tool_calls: Map<usize, ToolCallView>,
    pub active_item: Option<ActiveChatCompletionItem>,
}

impl View for ChatCompletionStream {
    type V = StreamState;

    closed spec fn view(&self) -> StreamState {
        StreamState {
            text: self.text@,
            reasoning: self.reasoning@,
            tool_calls: self.tool_calls@.map_values(|call: StreamingToolCall| call@),
            active_item: self.active_item,
        }
    }
}

/// Something that happened on the connection.
#[derive(Debug)]
pub enum SseInput {
    /// An event arrived; this is its data.
    Data(String),
    /// The connection failed, with a message.
    Failed(String),
    /// The server closed the stream.
    Ended,
    /// Nothing arrived in time.
    TimedOut,
    /// Nobody listens for response events any more.
    ConsumerDropped,
}

pub enum SseInputView {
    Data(Seq<char>),
    Failed(Seq<char>),
    Ended,
    TimedOut,
    ConsumerDropped,
}

impl View for SseInput {
    type V = SseInputView;

    open spec fn view(&self) -> SseInputView {
        match self {
            SseInput::Data(data) => SseInputView::Data(data@),
            SseInput::Failed(message) => SseInputView::Failed(message@),
            SseInput::Ended => SseInputView::Ended,
            SseInput::TimedOut => SseInputView::TimedOut,
            SseInput::ConsumerDropped => SseInputView::ConsumerDropped,
        }
    }
}

/// Whether the stream goes on.
#[derive(Debug, PartialEq)]
pub enum StreamOutcome {
    Continue,
    Finished,
    /// The stream is over, and the caller is to hear of this error last.
    Failed(CodexErr),
}

pub enum StreamOutcomeView {
    Continue,
    Finished,
    Failed(CodexErrView),
}

impl View for StreamOutcome {
    type V = StreamOutcomeView;

    open spec fn view(&self) -> StreamOutcomeView {
        match self {
            StreamOutcome::Continue => StreamOutcomeView::Continue,
            StreamOutcome::Finished => StreamOutcomeView::Finished,
            StreamOutcome::Failed(error) => StreamOutcomeView::Failed(error@),
        }
    }
}

/// The answer to one input: events to send in this order, then the outcome.
#[derive(Debug, PartialEq)]
pub struct StreamStep {
    pub events: Vec<ResponseEvent>,
    pub outcome: StreamOutcome,
}

/// A state, and the events sent on the way to it.
pub struct Progress {
    pub state: StreamState,
    pub events: Seq<ResponseEventView>,
}

/// What one input does: the next state, the events sent and the outcome.
pub struct StepView {
    pub state: StreamState,
    pub events: Seq<ResponseEventView>,
    pub outcome: StreamOutcomeView,
}

/// A reasoning item with this summary.
pub open spec fn reasoning_item(summary: Seq<Seq<char>>) -> ResponseItemView {
    ResponseItemView::Reasoning {
        id: CHAT_COMPLETION_REASONING_ID@,
        summary,
        content: None,
        encrypted_content: None,
    }
}

/// An assistant message with this content.
pub open spec fn message_item(content: Seq<ContentItemView>) -> ResponseItemView {
    ResponseItemView::Message {
        id: Some(CHAT_COMPLETION_MESSAGE_ID@),
        role: "assistant"@,
        content,
        phase: None,
    }
}

/// A finished tool call. What the server never named is empty.
pub open spec fn tool_call_item(call: ToolCallView) -> ResponseItemView {
    ResponseItemView::FunctionCall {
        id: None,
        name: match call.name {
            Some(name) => name,
            None => Seq::empty(),
        },
        namespace: None,
        arguments: call.arguments,
        call_id: match call.id {
            Some(id) => id,
            None => Seq::empty(),
        },
    }
}

pub open spec fn tool_call_done(call: ToolCallView) -> ResponseEventView {
    ResponseEventView::OutputItemDone(tool_call_item(call))
}

/// The last event of a response that came to its end.
pub open spec fn completed_event() -> ResponseEventView {
    ResponseEventView::Completed {
        response_id: Seq::empty(),
        token_usage: None,
        end_turn: Some(true),
    }
}

/// The calls with an index below `bound`, finished in the order of their index.
pub open spec fn tool_calls_done(calls: Map<usize, ToolCallView>, bound: nat) -> Seq<
    ResponseEventView,
>
    decreases bound,
{
    if bound == 0 {
        Seq::empty()
    } else {
        let before = tool_calls_done(calls, (bound - 1) as nat);
        let index = (bound - 1) as usize;
        if bound - 1 <= usize::MAX && calls.contains_key(index) {
            before.push(tool_call_done(calls[index]))
        } else {
            before
        }
    }
}

/// Every call, in the order of its index.
pub open spec fn all_tool_calls_done(calls: Map<usize, ToolCallView>) -> Seq<ResponseEventView> {
    tool_calls_done(calls, usize::MAX as nat + 1)
}

impl StreamState {
    /// The state before anything has arrived.
    pub open spec fn initial() -> StreamState {
        StreamState {
            text: Seq::empty(),
            reasoning: Seq::empty(),
            tool_calls: Map::empty(),
            active_item: None,
        }
    }

    /// Only the active item has text that is not handed on yet, and it has some.
    pub open spec fn well_formed(self) -> bool {
        match self.active_item {
            None => self.text.len() == 0 && self.reasoning.len() == 0,
            Some(ActiveChatCompletionItem::Reasoning) => self.text.len() == 0
                && self.reasoning.len() > 0,
            Some(ActiveChatCompletionItem::Message) => self.reasoning.len() == 0
                && self.text.len() > 0,
        }
    }
}

impl Progress {
    pub open spec fn emit(self, event: ResponseEventView) -> Progress {
        Progress { state: self.state, events: self.events.push(event) }
    }

    /// Hands on the active item, if it has any text, and leaves none active.
    pub open spec fn finish_active(self) -> Progress {
        let idle = StreamState { active_item: None, ..self.state };
        match self.state.active_item {
            Some(ActiveChatCompletionItem::Reasoning) if self.state.reasoning.len() > 0 => Progress {
                state: StreamState { reasoning: Seq::empty(), ..idle },
                events: self.events,
            }.emit(
                ResponseEventView::OutputItemDone(reasoning_item(seq![self.state.reasoning])),
            ),
            Some(ActiveChatCompletionItem::Message) if self.state.text.len() > 0 => Progress {
                state: StreamState { text: Seq::empty(), ..idle },
                events: self.events,
            }.emit(
                ResponseEventView::OutputItemDone(
                    message_item(seq![ContentItemView::OutputText { text: self.state.text }]),
                ),
            ),
            _ => Progress { state: idle, events: self.events },
        }
    }

    /// Makes `kind` the active item, announcing it where it was not.
    pub open spec fn start(self, kind: ActiveChatCompletionItem) -> Progress {
        if self.state.active_item == Some(kind) {
            self
        } else {
            let finished = self.finish_active();
            Progress {
                state: StreamState { active_item: Some(kind), ..finished.state },
                events: finished.events,
            }.emit(
                ResponseEventView::OutputItemAdded(
                    match kind {
                        ActiveChatCompletionItem::Reasoning => reasoning_item(Seq::empty()),
                        ActiveChatCompletionItem::Message => message_item(Seq::empty()),
                    },
                ),
            )
        }
    }

    /// Takes in a piece of reasoning.
    pub open spec fn add_reasoning(self, delta: Seq<char>) -> Progress {
        let started = self.start(ActiveChatCompletionItem::Reasoning);
        Progress {
            state: StreamState { reasoning: started.state.reasoning + delta, ..started.state },
            events: started.events,
        }.emit(ResponseEventView::ReasoningSummaryDelta { delta, summary_index: 0 })
    }

    /// Takes in a piece of the answer.
    pub open spec fn add_text(self, delta: Seq<char>) -> Progress {
        let started = self.start(ActiveChatCompletionItem::Message);
        Progress {
            state: StreamState { text: started.state.text + delta, ..started.state },
            events: started.events,
        }.emit(ResponseEventView::OutputTextDelta(delta))
    }

    /// Takes in pieces of tool calls, which are announced only at the end.
    pub open spec fn add_tool_calls(self, deltas: Seq<JsonView>) -> Progress {
        Progress {
            state: StreamState {
                tool_calls: with_tool_call_deltas(self.state.tool_calls, deltas),
                ..self.state
            },
            events: self.events,
        }
    }

    /// Takes in one delta: reasoning first, then text, then tool calls.
    pub open spec fn add_delta(self, delta: JsonView) -> Progress {
        let reasoned = match reasoning_delta(delta) {
            Some(piece) => self.add_reasoning(piece),
            None => self,
        };
        let spoken = match text_delta(delta) {
            Some(piece) => reasoned.add_text(piece),
            None => reasoned,
        };
        match tool_call_deltas(delta) {
            Some(pieces) => spoken.add_tool_calls(pieces),
            None => spoken,
        }
    }

    /// Takes in the choice of a chunk, without regard to its end.
    pub open spec fn add_choice(self, choice: JsonView) -> Progress {
        match choice.member("delta"@) {
            Some(delta) => self.add_delta(delta),
            None => self,
        }
    }

    /// Hands on everything: the active item, the tool calls, and the end.
    pub open spec fn complete(self) -> Progress {
        let finished = self.finish_active();
        Progress {
            state: StreamState { tool_calls: Map::empty(), ..finished.state },
            events: finished.events + all_tool_calls_done(finished.state.tool_calls),
        }.emit(completed_event())
    }

    pub open spec fn with_outcome(self, outcome: StreamOutcomeView) -> StepView {
        StepView { state: self.state, events: self.events, outcome }
    }
}

/// The first of the choices of a chunk.
pub open spec fn first_choice(chunk: JsonView) -> Option<JsonView> {
    match chunk.member("choices"@) {
        Some(choices) => match choices.as_items() {
            Some(items) => if items.len() > 0 {
                Some(items[0])
            } else {
                None
            },
            None => None,
        },
        None => None,
    }
}

/// The member `key` of a value, where it is a string.
pub open spec fn text_member(value: JsonView, key: Seq<char>) -> Option<Seq<char>> {
    match value.member(key) {
        Some(inner) => inner.as_text(),
        None => None,
    }
}

/// The piece of reasoning in a delta: `reasoning_content`, or `reasoning` where
/// the delta has no `reasoning_content`. An empty piece is none.
pub open spec fn reasoning_delta(delta: JsonView) -> Option<Seq<char>> {
    let piece = if delta.member("reasoning_content"@) is Some {
        text_member(delta, "reasoning_content"@)
    } else {
        text_member(delta, "reasoning"@)
    };
    match piece {
        Some(chars) if chars.len() > 0 => Some(chars),
        _ => None,
    }
}

/// The piece of the answer in a delta. An empty piece is none.
pub open spec fn text_delta(delta: JsonView) -> Option<Seq<char>> {
    match text_member(delta, "content"@) {
        Some(chars) if chars.len() > 0 => Some(chars),
        _ => None,
    }
}

/// The pieces of tool calls in a delta.
pub open spec fn tool_call_deltas(delta: JsonView) -> Option<Seq<JsonView>> {
    match delta.member("tool_calls"@) {
        Some(calls) => calls.as_items(),
        None => None,
    }
}

/// Whether a choice says that it is the last.
pub open spec fn finishes(choice: JsonView) -> bool {
    text_member(choice, "finish_reason"@) is Some
}

/// The index of the call that a piece belongs to: 0 unless it gives one that fits.
pub open spec fn tool_call_index(piece: JsonView) -> usize {
    match piece.member("index"@) {
        Some(index) => match index.as_unsigned() {
            Some(n) if n <= usize::MAX => n as usize,
            _ => 0,
        },
        None => 0,
    }
}

/// A call of which nothing has arrived.
pub open spec fn empty_tool_call() -> ToolCallView {
    ToolCallView { id: None, name: None, arguments: Seq::empty() }
}

/// The member `key` of the function that a piece of a tool call describes.
pub open spec fn function_member(piece: JsonView, key: Seq<char>) -> Option<Seq<char>> {
    match piece.member("function"@) {
        Some(function) => text_member(function, key),
        None => None,
    }
}

/// The first of two that there is.
pub open spec fn first_of(first: Option<Seq<char>>, second: Option<Seq<char>>) -> Option<Seq<char>> {
    if first is Some {
        first
    } else {
        second
    }
}

/// A call with one more piece: the first id and the first name stay, and the
/// arguments grow.
pub open spec fn with_piece(call: ToolCallView, piece: JsonView) -> ToolCallView {
    ToolCallView {
        id: first_of(call.id, text_member(piece, "id"@)),
        name: first_of(call.name, function_member(piece, "name"@)),
        arguments: match function_member(piece, "arguments"@) {
            Some(more) => call.arguments + more,
            None => call.arguments,
        },
    }
}

/// The call at `index`, empty where none has begun.
pub open spec fn call_at(calls: Map<usize, ToolCallView>, index: usize) -> ToolCallView {
    if calls.contains_key(index) {
        calls[index]
    } else {
        empty_tool_call()
    }
}

/// The calls with one more piece.
pub open spec fn with_tool_call_delta(calls: Map<usize, ToolCallView>, piece: JsonView) -> Map<
    usize,
    ToolCallView,
> {
    let index = tool_call_index(piece);
    calls.insert(index, with_piece(call_at(calls, index), piece))
}

/// The calls with more pieces, taken in order.
pub open spec fn with_tool_call_deltas(
    calls: Map<usize, ToolCallView>,
    pieces: Seq<JsonView>,
) -> Map<usize, ToolCallView>
    decreases pieces.len(),
{
    if pieces.len() == 0 {
        calls
    } else {
        with_tool_call_delta(with_tool_call_deltas(calls, pieces.drop_last()), pieces.last())
    }
}

/// What a chunk does. A chunk without a choice does nothing.
pub open spec fn chunk_step(state: StreamState, chunk: JsonView) -> StepView {
    let quiet = Progress { state, events: Seq::empty() };
    match first_choice(chunk) {
        Some(choice) => {
            let added = quiet.add_choice(choice);
            if finishes(choice) {
                added.complete().with_outcome(StreamOutcomeView::Finished)
            } else {
                added.with_outcome(StreamOutcomeView::Continue)
            }
        },
        None => quiet.with_outcome(StreamOutcomeView::Continue),
    }
}

/// What the data of an event does: `[DONE]` ends the stream, a chunk counts, and
/// anything that is not JSON does nothing.
pub open spec fn data_step(state: StreamState, data: Seq<char>) -> StepView {
    let quiet = Progress { state, events: Seq::empty() };
    if trimmed(data) == "[DONE]"@ {
        quiet.complete().with_outcome(StreamOutcomeView::Finished)
    } else {
        match json_parsed(data) {
            Some(chunk) => chunk_step(state, chunk),
            None => quiet.with_outcome(StreamOutcomeView::Continue),
        }
    }
}

/// What one input does.
pub open spec fn stream_step(state: StreamState, input: SseInputView) -> StepView {
    let quiet = Progress { state, events: Seq::empty() };
    match input {
        SseInputView::Data(data) => data_step(state, data),
        SseInputView::Failed(message) => quiet.with_outcome(
            StreamOutcomeView::Failed(CodexErrView::Stream(message)),
        ),
        SseInputView::Ended => quiet.complete().with_outcome(StreamOutcomeView::Finished),
        SseInputView::TimedOut => quiet.with_outcome(
            StreamOutcomeView::Failed(
                CodexErrView::Stream("idle timeout waiting for chat completions SSE"@),
            ),
        ),
        SseInputView::ConsumerDropped => quiet.with_outcome(StreamOutcomeView::Finished),
    }
}

/// Appends one event.
fn emit(events: &mut Vec<ResponseEvent>, event: ResponseEvent)
    ensures
        views(final(events)@) == views(old(events)@).push(event@),
{
    proof {
        lemma_views_push(events@, event);
    }
    events.push(event);
}

impl ChatCompletionStream {
    /// A stream on which nothing has arrived, and the event that announces it.
    pub fn new() -> (r: (ChatCompletionStream, ResponseEvent))
        ensures
            r.0@ == StreamState::initial(),
            r.0@.well_formed(),
            r.1@ == ResponseEventView::Created,
    {
        let stream = ChatCompletionStream {
            text: String::new(),
            reasoning: String::new(),
            tool_calls: HashMap::new(),
            active_item: None,
        };
        assert(stream@.tool_calls =~= Map::empty());
        (stream, ResponseEvent::Created)
    }

    /// Hands on the active item, if it has any text, and leaves none active.
    pub fn finish_active_chat_completion_item(&mut self, events: &mut Vec<ResponseEvent>)
        ensures
            (Progress { state: final(self)@, events: views(final(events)@) }) == (Progress {
                state: old(self)@,
                events: views(old(events)@),
            }).finish_active(),
    {
        match self.active_item.take() {
            Some(ActiveChatCompletionItem::Reasoning) => {
                if !self.reasoning.as_str().is_empty() {
                    let mut text = String::new();
                    std::mem::swap(&mut text, &mut self.reasoning);
                    let mut summary: Vec<ReasoningItemReasoningSummary> = Vec::new();
                    summary.push(ReasoningItemReasoningSummary::SummaryText { text });
                    assert(views(summary@) =~= seq![old(self)@.reasoning]);
                    let item = ResponseItem::Reasoning {
                        id: CHAT_COMPLETION_REASONING_ID.to_string(),
                        summary,
                        content: None,
                        encrypted_content: None,
                    };
                    emit(events, ResponseEvent::OutputItemDone(item));
                }
            },
            Some(ActiveChatCompletionItem::Message) => {
                if !self.text.as_str().is_empty() {
                    let mut text = String::new();
                    std::mem::swap(&mut text, &mut self.text);
                    let mut content: Vec<ContentItem> = Vec::new();
                    content.push(ContentItem::OutputText { text });
                    assert(views(content@) =~= seq![
                        ContentItemView::OutputText { text: old(self)@.text },
                    ]);
                    let item = ResponseItem::Message {
                        id: Some(CHAT_COMPLETION_MESSAGE_ID.to_string()),
                        role: "assistant".to_string(),
                        content,
                        phase: None,
                    };
                    emit(events, ResponseEvent::OutputItemDone(item));
                }
            },
            None => {},
        }
    }

    /// Makes a reasoning item the active one, announcing it where it was not.
    pub fn ensure_chat_reasoning_item_started(&mut self, events: &mut Vec<ResponseEvent>)
        ensures
            (Progress { state: final(self)@, events: views(final(events)@) }) == (Progress {
                state: old(self)@,
                events: views(old(events)@),
            }).start(ActiveChatCompletionItem::Reasoning),
    {
        if let Some(ActiveChatCompletionItem::Reasoning) = self.active_item {
            return ;
        }
        self.finish_active_chat_completion_item(events);
        let summary: Vec<ReasoningItemReasoningSummary> = Vec::new();
        assert(views(summary@) =~= Seq::empty());
        let item = ResponseItem::Reasoning {
            id: CHAT_COMPLETION_REASONING_ID.to_string(),
            summary,
            content: None,
            encrypted_content: None,
        };
        emit(events, ResponseEvent::OutputItemAdded(item));
        self.active_item = Some(ActiveChatCompletionItem::Reasoning);
    }

    /// Makes a message the active item, announcing it where it was not.
    pub fn ensure_chat_message_item_started(&mut self, events: &mut Vec<ResponseEvent>)
        ensures
            (Progress { state: final(self)@, events: views(final(events)@) }) == (Progress {
                state: old(self)@,
                events: views(old(events)@),
            }).start(ActiveChatCompletionItem::Message),
    {
        if let Some(ActiveChatCompletionItem::Message) = self.active_item {
            return ;
        }
        self.finish_active_chat_completion_item(events);
        let content: Vec<ContentItem> = Vec::new();
        assert(views(content@) =~= Seq::empty());
        let item = ResponseItem::Message {
            id: Some(CHAT_COMPLETION_MESSAGE_ID.to_string()),
            role: "assistant".to_string(),
            content,
            phase: None,
        };
        emit(events, ResponseEvent::OutputItemAdded(item));
        self.active_item = Some(ActiveChatCompletionItem::Message);
    }
}

/// Strictly ascending.
pub open spec fn ascending(keys: Seq<usize>) -> bool {
    forall|i: int, j: int| 0 <= i < j < keys.len() ==> keys[i] < keys[j]
}

/// Walking the indexes below a bound, or the ascending sequence of those that
/// have a call, comes to the same.
pub(crate) proof fn lemma_ascending_calls(
    calls: Map<usize, ToolCallView>,
    keys: Seq<usize>,
    bound: nat,
)
    requires
        ascending(keys),
        bound <= usize::MAX + 1,
        forall|k: usize| keys.contains(k) <==> calls.contains_key(k) && k < bound,
    ensures
        tool_calls_done(calls, bound) == keys.map_values(|k: usize| tool_call_done(calls[k])),
    decreases bound,
{
    let done = |k: usize| tool_call_done(calls[k]);
    if bound == 0 {
        if keys.len() > 0 {
            assert(keys.contains(keys[0]));
        }
        assert(keys.map_values(done) =~= Seq::empty());
    } else {
        let top = (bound - 1) as usize;
        if calls.contains_key(top) {
            assert(keys.contains(top));
            let at = keys.index_of(top);
            assert(keys[at] == top);
            assert(at == keys.len() - 1) by {
                if at < keys.len() - 1 {
                    assert(keys.contains(keys[at + 1]));
                }
            }
            let rest = keys.drop_last();
            assert forall|k: usize| rest.contains(k) <==> calls.contains_key(k) && k < top by {
                if rest.contains(k) {
                    let i = rest.index_of(k);
                    assert(keys[i] == k);
                    assert(keys.contains(k));
                }
                if calls.contains_key(k) && k < top {
                    assert(keys.contains(k));
                    let i = keys.index_of(k);
                    assert(rest[i] == k);
                }
            }
            lemma_ascending_calls(calls, rest, top as nat);
            assert(keys.map_values(done) =~= rest.map_values(done).push(done(top)));
        } else {
            assert forall|k: usize| keys.contains(k) <==> calls.contains_key(k) && k < top by {
                if keys.contains(k) {
                    assert(k != top);
                }
            }
            lemma_ascending_calls(calls, keys, top as nat);
        }
    }
}

/// Puts `key` where it belongs in an ascending vector that does not hold it.
fn insert_ascending(keys: &mut Vec<usize>, key: usize)
    requires
        ascending(old(keys)@),
        !old(keys)@.contains(key),
    ensures
        ascending(final(keys)@),
        forall|k: usize| #[trigger]
            final(keys)@.contains(k) <==> old(keys)@.contains(k) || k == key,
{
    let ghost before = keys@;
    let mut at: usize = 0;
    while at < keys.len() && keys[at] < key
        invariant
            keys@ == before,
            at <= keys.len(),
            forall|i: int| 0 <= i < at ==> keys@[i] < key,
        decreases keys.len() - at,
    {
        at = at + 1;
    }
    keys.insert(at, key);
    proof {
        if at < before.len() {
            assert(before.contains(before[at as int]));
            assert(before[at as int] > key);
        }
        assert forall|i: int, j: int| 0 <= i < j < keys@.len() implies keys@[i] < keys@[j] by {
            let old_i = if i < at { i } else { i - 1 };
            let old_j = if j < at { j } else { j - 1 };
            if i != at {
                assert(keys@[i] == before[old_i]);
            }
            if j != at {
                assert(keys@[j] == before[old_j]);
            }
        }
        assert forall|k: usize| keys@.contains(k) <==> before.contains(k) || k == key by {
            if keys@.contains(k) {
                let i = keys@.index_of(k);
                if i < at {
                    assert(before[i] == k);
                } else if i > at {
                    assert(before[i - 1] == k);
                }
            }
            if before.contains(k) {
                let i = before.index_of(k);
                if i < at {
                    assert(keys@[i] == k);
                } else {
                    assert(keys@[i + 1] == k);
                }
            }
            assert(keys@[at as int] == key);
        }
    }
}

/// The keys of a map in ascending order.
fn ascending_keys(calls: &HashMap<usize, StreamingToolCall>) -> (keys: Vec<usize>)
    ensures
        ascending(keys@),
        forall|k: usize| #[trigger] keys@.contains(k) <==> calls@.contains_key(k),
{
    let mut keys: Vec<usize> = Vec::new();
    let ghost walked = vstd::std_specs::iter::IteratorSpec::remaining(
        &vstd::std_specs::hash::spec_keys_iter(calls),
    );
    proof {
        assert forall|k: usize| calls@.contains_key(k) implies exists|i: int|
            0 <= i < walked.len() && *#[trigger] walked[i] == k by {
            assert(walked.unref().to_set().contains(k));
            let i = walked.unref().index_of(k);
            assert(*walked[i] == k);
        }
        assert forall|i: int| 0 <= i < walked.len() implies calls@.contains_key(
            *#[trigger] walked[i],
        ) by {
            assert(walked.unref()[i] == *walked[i]);
            assert(walked.unref().to_set().contains(*walked[i]));
        }
    }
    for key in it: calls.keys()
        invariant
            it.seq() == walked,
            walked.no_duplicates(),
            ascending(keys@),
            forall|i: int| 0 <= i < it.index() ==> keys@.contains(*#[trigger] walked[i]),
            forall|k: usize| #[trigger]
                keys@.contains(k) ==> exists|i: int|
                    0 <= i < it.index() && *#[trigger] walked[i] == k,
    {
        let ghost at = it.index();
        let ghost before = keys@;
        assert(*walked[at] == *key);
        insert_ascending(&mut keys, *key);
        proof {
            assert forall|k: usize| #[trigger] keys@.contains(k) implies exists|i: int|
                0 <= i < at + 1 && *#[trigger] walked[i] == k by {
                if before.contains(k) {
                    let i = choose|i: int| 0 <= i < at && *#[trigger] walked[i] == k;
                    assert(*walked[i] == k);
                }
            }
        }
    }
    keys
}

/// The member `key` of a value, where it is a string.
fn json_text_member<'a>(value: &'a serde_json::Value, key: &str) -> (chars: Option<&'a str>)
    ensures
        match chars {
            Some(text) => text_member(json_view(*value), key@) == Some(text@),
            None => text_member(json_view(*value), key@) is None,
        },
{
    match json_get(value, key) {
        Some(inner) => inner.as_str(),
        None => None,
    }
}

/// The index of the call that a piece belongs to: 0 unless it gives one that fits.
fn json_tool_call_index(piece: &serde_json::Value) -> (index: usize)
    ensures
        index == tool_call_index(json_view(*piece)),
{
    match json_get(piece, "index") {
        Some(index) => match index.as_u64() {
            Some(n) => match usize::try_from(n) {
                Ok(fitting) => fitting,
                Err(_) => 0,
            },
            None => 0,
        },
        None => 0,
    }
}

impl StreamingToolCall {
    fn new() -> (call: StreamingToolCall)
        ensures
            call@ == empty_tool_call(),
    {
        StreamingToolCall { id: None, name: None, arguments: String::new() }
    }

    /// Takes in one piece of the call.
    fn add_piece(&mut self, piece: &serde_json::Value)
        ensures
            final(self)@ == with_piece(old(self)@, json_view(*piece)),
    {
        if self.id.is_none() {
            if let Some(id) = json_text_member(piece, "id") {
                self.id = Some(id.to_string());
            }
        }
        if let Some(function) = json_get(piece, "function") {
            if self.name.is_none() {
                if let Some(name) = json_text_member(function, "name") {
                    self.name = Some(name.to_string());
                }
            }
            if let Some(arguments) = json_text_member(function, "arguments") {
                self.arguments.append(arguments);
            }
        }
    }
}

impl ChatCompletionStream {
    /// Hands on everything: the active item, the tool calls in the order of their
    /// index, and the end.
    pub fn emit_chat_completion_done(&mut self, events: &mut Vec<ResponseEvent>)
        ensures
            (Progress { state: final(self)@, events: views(final(events)@) }) == (Progress {
                state: old(self)@,
                events: views(old(events)@),
            }).complete(),
    {
        self.finish_active_chat_completion_item(events);
        let ghost finished = Progress { state: self@, events: views(events@) };
        let mut calls: HashMap<usize, StreamingToolCall> = HashMap::new();
        std::mem::swap(&mut calls, &mut self.tool_calls);
        assert(self@.tool_calls =~= Map::empty());
        let keys = ascending_keys(&calls);
        let ghost all = finished.state.tool_calls;
        let ghost done = |k: usize| tool_call_done(all[k]);
        let mut at: usize = 0;
        assert(keys@.take(0).map_values(done) =~= Seq::empty());
        assert forall|i: int| 0 <= i < keys.len() implies calls@.contains_key(
            #[trigger] keys@[i],
        ) by {
            assert(keys@.contains(keys@[i]));
        }
        while at < keys.len()
            invariant
                at <= keys.len(),
                ascending(keys@),
                done == (|k: usize| tool_call_done(all[k])),
                forall|i: int|
                    at <= i < keys.len() ==> calls@.contains_key(#[trigger] keys@[i])
                        && calls@[keys@[i]]@ == all[keys@[i]],
                views(events@) == finished.events + keys@.take(at as int).map_values(done),
            decreases keys.len() - at,
        {
            let key = keys[at];
            assert(calls@.contains_key(keys@[at as int]));
            match calls.remove(&key) {
                Some(call) => {
                    let item = ResponseItem::FunctionCall {
                        id: None,
                        name: call.name.unwrap_or_default(),
                        namespace: None,
                        arguments: call.arguments,
                        call_id: call.id.unwrap_or_default(),
                    };
                    emit(events, ResponseEvent::OutputItemDone(item));
                },
                None => {},
            }
            assert(keys@.take(at + 1).map_values(done) =~= keys@.take(at as int).map_values(
                done,
            ).push(done(key)));
            at = at + 1;
        }
        proof {
            assert(keys@.take(keys@.len() as int) == keys@);
            lemma_ascending_calls(all, keys@, usize::MAX as nat + 1);
        }
        emit(
            events,
            ResponseEvent::Completed {
                response_id: String::new(),
                token_usage: None,
                end_turn: Some(true),
            },
        );
    }

    /// Takes in pieces of tool calls, in order.
    fn add_tool_call_pieces(&mut self, pieces: &Vec<serde_json::Value>)
        ensures
            final(self)@ == (StreamState {
                tool_calls: with_tool_call_deltas(old(self)@.tool_calls, json_views(pieces@)),
                ..old(self)@
            }),
    {
        let ghost before = self@;
        let ghost all = json_views(pieces@);
        let mut at: usize = 0;
        assert(all.take(0) =~= Seq::empty());
        while at < pieces.len()
            invariant
                at <= pieces.len(),
                all == json_views(pieces@),
                self@ == (StreamState {
                    tool_calls: with_tool_call_deltas(before.tool_calls, all.take(at as int)),
                    ..before
                }),
            decreases pieces.len() - at,
        {
            let piece = &pieces[at];
            let ghost calls = self.tool_calls@;
            let ghost state = self@;
            let index = json_tool_call_index(piece);
            let mut call = match self.tool_calls.remove(&index) {
                Some(begun) => begun,
                None => StreamingToolCall::new(),
            };
            call.add_piece(piece);
            self.tool_calls.insert(index, call);
            proof {
                assert(self@.tool_calls =~= with_tool_call_delta(
                    state.tool_calls,
                    json_view(*piece),
                ));
                assert(all.take(at + 1).drop_last() =~= all.take(at as int));
                assert(all.take(at + 1).last() == json_view(*piece));
            }
            at = at + 1;
        }
        assert(all.take(all.len() as int) =~= all);
    }

    /// Takes in one delta: reasoning first, then text, then tool calls.
    fn add_delta(&mut self, delta: &serde_json::Value, events: &mut Vec<ResponseEvent>)
        ensures
            (Progress { state: final(self)@, events: views(final(events)@) }) == (Progress {
                state: old(self)@,
                events: views(old(events)@),
            }).add_delta(json_view(*delta)),
    {
        let reasoning = match json_get(delta, "reasoning_content") {
            Some(content) => content.as_str(),
            None => json_text_member(delta, "reasoning"),
        };
        if let Some(piece) = reasoning {
            if !piece.is_empty() {
                self.ensure_chat_reasoning_item_started(events);
                self.reasoning.append(piece);
                emit(
                    events,
                    ResponseEvent::ReasoningSummaryDelta {
                        delta: piece.to_string(),
                        summary_index: 0,
                    },
                );
            }
        }
        if let Some(piece) = json_text_member(delta, "content") {
            if !piece.is_empty() {
                self.ensure_chat_message_item_started(events);
                self.text.append(piece);
                emit(events, ResponseEvent::OutputTextDelta(piece.to_string()));
            }
        }
        if let Some(calls) = json_get(delta, "tool_calls") {
            if let Some(pieces) = calls.as_array() {
                self.add_tool_call_pieces(pieces);
            }
        }
    }

    /// Takes in one chunk of the completion.
    pub fn process_chunk(&mut self, chunk: &serde_json::Value) -> (step: StreamStep)
        ensures
            (StepView {
                state: final(self)@,
                events: views(step.events@),
                outcome: step.outcome@,
            }) == chunk_step(old(self)@, json_view(*chunk)),
            old(self)@.well_formed() ==> final(self)@.well_formed(),
    {
        let mut events: Vec<ResponseEvent> = Vec::new();
        assert(views(events@) =~= Seq::empty());
        let choices = match json_get(chunk, "choices") {
            Some(choices) => choices.as_array(),
            None => None,
        };
        if let Some(choices) = choices {
            if choices.len() > 0 {
                let choice = &choices[0];
                assert(json_views(choices@)[0] == json_view(*choice));
                if let Some(delta) = json_get(choice, "delta") {
                    self.add_delta(delta, &mut events);
                }
                if json_text_member(choice, "finish_reason").is_some() {
                    self.emit_chat_completion_done(&mut events);
                    return StreamStep { events, outcome: StreamOutcome::Finished };
                }
            }
        }
        StreamStep { events, outcome: StreamOutcome::Continue }
    }

    /// Takes in one input: what happened on the connection becomes the events to
    /// send and the decision whether to go on.
    pub fn process_chat_completion_sse(&mut self, input: SseInput) -> (step: StreamStep)
        ensures
            (StepView {
                state: final(self)@,
                events: views(step.events@),
                outcome: step.outcome@,
            }) == stream_step(old(self)@, input@),
            old(self)@.well_formed() ==> final(self)@.well_formed(),
    {
        let mut events: Vec<ResponseEvent> = Vec::new();
        assert(views(events@) =~= Seq::empty());
        match input {
            SseInput::Data(data) => {
                if same_text(data.as_str().trim(), "[DONE]") {
                    self.emit_chat_completion_done(&mut events);
                    return StreamStep { events, outcome: StreamOutcome::Finished };
                }
                match parse_json(data.as_str()) {
                    Ok(chunk) => self.process_chunk(&chunk),
                    Err(_) => StreamStep { events, outcome: StreamOutcome::Continue },
                }
            },
            SseInput::Failed(message) => StreamStep {
                events,
                outcome: StreamOutcome::Failed(CodexErr::Stream(message)),
            },
            SseInput::Ended => {
                self.emit_chat_completion_done(&mut events);
                StreamStep { events, outcome: StreamOutcome::Finished }
            },
            SseInput::TimedOut => StreamStep {
                events,
                outcome: StreamOutcome::Failed(
                    CodexErr::Stream("idle timeout waiting for chat completions SSE".to_string()),
                ),
            },
            SseInput::ConsumerDropped => StreamStep { events, outcome: StreamOutcome::Finished },
        }
    }
}

} // verus!
