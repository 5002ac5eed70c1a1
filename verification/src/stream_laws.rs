//! Laws of the stream: what holds of the events that any run of inputs brings.

use vstd::prelude::*;
use crate::chat_stream::{
    all_tool_calls_done, ascending, call_at, completed_event, first_choice,
    lemma_ascending_calls, message_item, reasoning_delta, reasoning_item, stream_step,
    text_delta, tool_call_deltas, tool_call_done, tool_call_index, tool_calls_done,
    with_tool_call_delta, with_tool_call_deltas, ActiveChatCompletionItem, Progress,
    SseInputView, StepView, StreamOutcomeView, StreamState, ToolCallView,
};
use crate::json::{json_parsed, JsonView};
use crate::protocol::{ContentItemView, ResponseEventView, ResponseItemView};
use crate::request_laws::or_empty;
use crate::text::trimmed;

verus! {

/// An item that has been announced and not been finished, and what has been
/// heard of it.
pub type OpenItem = Option<(ActiveChatCompletionItem, Seq<char>)>;

/// A reasoning item, by all that it holds.
pub open spec fn shown_reasoning(summary: Seq<Seq<char>>) -> ResponseItemView {
    ResponseItemView::Reasoning {
        id: "chatcmpl-reasoning"@,
        summary,
        content: None,
        encrypted_content: None,
    }
}

/// A message of the assistant, by all that it holds.
pub open spec fn shown_message(content: Seq<ContentItemView>) -> ResponseItemView {
    ResponseItemView::Message {
        id: Some("chatcmpl-message"@),
        role: "assistant"@,
        content,
        phase: None,
    }
}

/// The event that says that a response is complete, by all that it holds.
pub open spec fn the_end() -> ResponseEventView {
    ResponseEventView::Completed {
        response_id: Seq::empty(),
        token_usage: None,
        end_turn: Some(true),
    }
}

/// What a listener makes of one event: the item that is open after it, or `None`
/// where the event is out of place. An item opens only when none is open, grows
/// by pieces that are not empty, and closes with exactly the text heard of it;
/// tool calls and the end come only when none is open.
pub open spec fn hear(open: OpenItem, event: ResponseEventView) -> Option<OpenItem> {
    match event {
        ResponseEventView::OutputItemAdded(item) => if open is Some {
            None
        } else if item == shown_reasoning(Seq::empty()) {
            Some(Some((ActiveChatCompletionItem::Reasoning, Seq::empty())))
        } else if item == shown_message(Seq::empty()) {
            Some(Some((ActiveChatCompletionItem::Message, Seq::empty())))
        } else {
            None
        },
        ResponseEventView::ReasoningSummaryDelta { delta, summary_index } => match open {
            Some((ActiveChatCompletionItem::Reasoning, heard)) => if delta.len() > 0
                && summary_index == 0 {
                Some(Some((ActiveChatCompletionItem::Reasoning, heard + delta)))
            } else {
                None
            },
            _ => None,
        },
        ResponseEventView::OutputTextDelta(delta) => match open {
            Some((ActiveChatCompletionItem::Message, heard)) => if delta.len() > 0 {
                Some(Some((ActiveChatCompletionItem::Message, heard + delta)))
            } else {
                None
            },
            _ => None,
        },
        ResponseEventView::OutputItemDone(item) => match open {
            Some((ActiveChatCompletionItem::Reasoning, heard)) => if heard.len() > 0 && item
                == shown_reasoning(seq![heard]) {
                Some(None)
            } else {
                None
            },
            Some((ActiveChatCompletionItem::Message, heard)) => if heard.len() > 0 && item
                == shown_message(seq![ContentItemView::OutputText { text: heard }]) {
                Some(None)
            } else {
                None
            },
            None => if item is FunctionCall {
                Some(None)
            } else {
                None
            },
        },
        ResponseEventView::Completed { .. } => if open is None && event == the_end() {
            Some(None)
        } else {
            None
        },
        ResponseEventView::Created => None,
    }
}

/// What a listener makes of events in order.
pub open spec fn hear_all(open: OpenItem, events: Seq<ResponseEventView>) -> Option<OpenItem>
    decreases events.len(),
{
    if events.len() == 0 {
        Some(open)
    } else {
        match hear_all(open, events.drop_last()) {
            Some(now) => hear(now, events.last()),
            None => None,
        }
    }
}

/// The item that a state holds open.
pub open spec fn open_item(state: StreamState) -> OpenItem {
    match state.active_item {
        None => None,
        Some(ActiveChatCompletionItem::Reasoning) => Some(
            (ActiveChatCompletionItem::Reasoning, state.reasoning),
        ),
        Some(ActiveChatCompletionItem::Message) => Some(
            (ActiveChatCompletionItem::Message, state.text),
        ),
    }
}

/// The inputs taken in one after the other, up to and with the first that ends
/// the stream: the state reached, every event sent, and the last outcome.
pub open spec fn run(state: StreamState, inputs: Seq<SseInputView>) -> StepView
    decreases inputs.len(),
{
    if inputs.len() == 0 {
        StepView { state, events: Seq::empty(), outcome: StreamOutcomeView::Continue }
    } else {
        let before = run(state, inputs.drop_last());
        if before.outcome is Continue {
            let step = stream_step(before.state, inputs.last());
            StepView {
                state: step.state,
                events: before.events + step.events,
                outcome: step.outcome,
            }
        } else {
            before
        }
    }
}

/// Whether every input is taken in: none but the last ends the stream.
pub open spec fn all_taken(state: StreamState, inputs: Seq<SseInputView>) -> bool {
    inputs.len() == 0 || run(state, inputs.drop_last()).outcome is Continue
}

proof fn lemma_hear_push(open: OpenItem, events: Seq<ResponseEventView>, event: ResponseEventView)
    ensures
        hear_all(open, events.push(event)) == (match hear_all(open, events) {
            Some(now) => hear(now, event),
            None => None,
        }),
{
    assert(events.push(event).drop_last() =~= events);
}

proof fn lemma_hear_concat(
    open: OpenItem,
    first: Seq<ResponseEventView>,
    second: Seq<ResponseEventView>,
)
    ensures
        hear_all(open, first + second) == (match hear_all(open, first) {
            Some(now) => hear_all(now, second),
            None => None,
        }),
    decreases second.len(),
{
    if second.len() == 0 {
        assert(first + second =~= first);
    } else {
        lemma_hear_concat(open, first, second.drop_last());
        assert((first + second).drop_last() =~= first + second.drop_last());
        assert((first + second).last() == second.last());
    }
}

/// A listener who knows the open item of the start knows that of the progress.
spec fn followed(open: OpenItem, progress: Progress) -> bool {
    &&& progress.state.well_formed()
    &&& hear_all(open, progress.events) == Some(open_item(progress.state))
}

proof fn lemma_finish_followed(open: OpenItem, progress: Progress)
    requires
        followed(open, progress),
    ensures
        followed(open, progress.finish_active()),
        progress.finish_active().state.active_item is None,
        progress.finish_active().state.tool_calls == progress.state.tool_calls,
{
    match progress.state.active_item {
        Some(ActiveChatCompletionItem::Reasoning) => {
            lemma_hear_push(
                open,
                progress.events,
                ResponseEventView::OutputItemDone(reasoning_item(seq![progress.state.reasoning])),
            );
        },
        Some(ActiveChatCompletionItem::Message) => {
            lemma_hear_push(
                open,
                progress.events,
                ResponseEventView::OutputItemDone(
                    message_item(seq![ContentItemView::OutputText { text: progress.state.text }]),
                ),
            );
        },
        None => {},
    }
}

proof fn lemma_start_heard(open: OpenItem, progress: Progress, kind: ActiveChatCompletionItem)
    requires
        followed(open, progress),
    ensures
        hear_all(open, progress.start(kind).events) == Some(
            open_item(progress.start(kind).state),
        ),
        progress.start(kind).state.active_item == Some(kind),
        kind is Reasoning ==> progress.start(kind).state.text.len() == 0,
        kind is Message ==> progress.start(kind).state.reasoning.len() == 0,
        progress.start(kind).state.tool_calls == progress.state.tool_calls,
{
    if progress.state.active_item != Some(kind) {
        lemma_finish_followed(open, progress);
        let finished = progress.finish_active();
        let item = match kind {
            ActiveChatCompletionItem::Reasoning => reasoning_item(Seq::empty()),
            ActiveChatCompletionItem::Message => message_item(Seq::empty()),
        };
        lemma_hear_push(open, finished.events, ResponseEventView::OutputItemAdded(item));
        assert(finished.state.text =~= Seq::empty());
        assert(finished.state.reasoning =~= Seq::empty());
    }
}

proof fn lemma_add_reasoning_followed(open: OpenItem, progress: Progress, piece: Seq<char>)
    requires
        followed(open, progress),
        piece.len() > 0,
    ensures
        followed(open, progress.add_reasoning(piece)),
        progress.add_reasoning(piece).state.tool_calls == progress.state.tool_calls,
{
    lemma_start_heard(open, progress, ActiveChatCompletionItem::Reasoning);
    lemma_hear_push(
        open,
        progress.start(ActiveChatCompletionItem::Reasoning).events,
        ResponseEventView::ReasoningSummaryDelta { delta: piece, summary_index: 0 },
    );
}

proof fn lemma_add_text_followed(open: OpenItem, progress: Progress, piece: Seq<char>)
    requires
        followed(open, progress),
        piece.len() > 0,
    ensures
        followed(open, progress.add_text(piece)),
        progress.add_text(piece).state.tool_calls == progress.state.tool_calls,
{
    lemma_start_heard(open, progress, ActiveChatCompletionItem::Message);
    lemma_hear_push(
        open,
        progress.start(ActiveChatCompletionItem::Message).events,
        ResponseEventView::OutputTextDelta(piece),
    );
}

proof fn lemma_add_choice_followed(open: OpenItem, progress: Progress, choice: JsonView)
    requires
        followed(open, progress),
    ensures
        followed(open, progress.add_choice(choice)),
{
    if let Some(delta) = choice.member("delta"@) {
        let reasoned = match reasoning_delta(delta) {
            Some(piece) => progress.add_reasoning(piece),
            None => progress,
        };
        if let Some(piece) = reasoning_delta(delta) {
            lemma_add_reasoning_followed(open, progress, piece);
        }
        if let Some(piece) = text_delta(delta) {
            lemma_add_text_followed(open, reasoned, piece);
        }
    }
}

proof fn lemma_tool_calls_heard(calls: Map<usize, ToolCallView>, bound: nat)
    ensures
        hear_all(None, tool_calls_done(calls, bound)) == Some::<OpenItem>(None),
    decreases bound,
{
    if bound > 0 {
        lemma_tool_calls_heard(calls, (bound - 1) as nat);
        let index = (bound - 1) as usize;
        lemma_hear_push(
            None,
            tool_calls_done(calls, (bound - 1) as nat),
            tool_call_done(calls[index]),
        );
    }
}

proof fn lemma_complete_followed(open: OpenItem, progress: Progress)
    requires
        followed(open, progress),
    ensures
        followed(open, progress.complete()),
{
    lemma_finish_followed(open, progress);
    let finished = progress.finish_active();
    let done = all_tool_calls_done(finished.state.tool_calls);
    lemma_tool_calls_heard(finished.state.tool_calls, usize::MAX as nat + 1);
    lemma_hear_concat(open, finished.events, done);
    lemma_hear_push(open, finished.events + done, completed_event());
}

/// Every input keeps the state well formed, and its events are in place for a
/// listener who has heard the stream so far: items open one at a time, close
/// with exactly the text that their pieces brought, and leave nothing open
/// before tool calls or the end.
pub proof fn law_step_heard(state: StreamState, input: SseInputView)
    requires
        state.well_formed(),
    ensures
        stream_step(state, input).state.well_formed(),
        hear_all(open_item(state), stream_step(state, input).events) == Some(
            open_item(stream_step(state, input).state),
        ),
{
    let open = open_item(state);
    let quiet = Progress { state, events: Seq::empty() };
    assert(followed(open, quiet));
    lemma_complete_followed(open, quiet);
    if let SseInputView::Data(data) = input {
        if let Some(chunk) = json_parsed(data) {
            if let Some(choice) = first_choice(chunk) {
                lemma_add_choice_followed(open, quiet, choice);
                lemma_complete_followed(open, quiet.add_choice(choice));
            }
        }
    }
}

/// The events of a whole stream are in place for a listener from the start, who
/// is left with the item that the state holds open.
pub proof fn law_run_heard(inputs: Seq<SseInputView>)
    ensures
        run(StreamState::initial(), inputs).state.well_formed(),
        hear_all(None, run(StreamState::initial(), inputs).events) == Some(
            open_item(run(StreamState::initial(), inputs).state),
        ),
    decreases inputs.len(),
{
    if inputs.len() > 0 {
        law_run_heard(inputs.drop_last());
        let before = run(StreamState::initial(), inputs.drop_last());
        if before.outcome is Continue {
            law_step_heard(before.state, inputs.last());
            lemma_hear_concat(
                None,
                before.events,
                stream_step(before.state, inputs.last()).events,
            );
        }
    }
}

/// The piece of a kind of item that an event brings.
pub open spec fn piece_of(kind: ActiveChatCompletionItem, event: ResponseEventView) -> Seq<char> {
    match (kind, event) {
        (
            ActiveChatCompletionItem::Reasoning,
            ResponseEventView::ReasoningSummaryDelta { delta, .. },
        ) => delta,
        (ActiveChatCompletionItem::Message, ResponseEventView::OutputTextDelta(delta)) => delta,
        _ => Seq::empty(),
    }
}

/// The text of an item of a kind that an event closes.
pub open spec fn closed_text(kind: ActiveChatCompletionItem, event: ResponseEventView) -> Seq<
    char,
> {
    match (kind, event) {
        (
            ActiveChatCompletionItem::Reasoning,
            ResponseEventView::OutputItemDone(ResponseItemView::Reasoning { summary, .. }),
        ) if summary.len() > 0 => summary[0],
        (
            ActiveChatCompletionItem::Message,
            ResponseEventView::OutputItemDone(ResponseItemView::Message { content, .. }),
        ) if content.len() > 0 && content[0] is OutputText => content[0]->OutputText_text,
        _ => Seq::empty(),
    }
}

/// The pieces of a kind that events bring, put together.
pub open spec fn pieces(kind: ActiveChatCompletionItem, events: Seq<ResponseEventView>) -> Seq<char>
    decreases events.len(),
{
    if events.len() == 0 {
        Seq::empty()
    } else {
        pieces(kind, events.drop_last()) + piece_of(kind, events.last())
    }
}

/// The texts of the items of a kind that events close, put together.
pub open spec fn closed_texts(
    kind: ActiveChatCompletionItem,
    events: Seq<ResponseEventView>,
) -> Seq<char>
    decreases events.len(),
{
    if events.len() == 0 {
        Seq::empty()
    } else {
        closed_texts(kind, events.drop_last()) + closed_text(kind, events.last())
    }
}

/// What has been heard of an open item of a kind.
pub open spec fn open_text(kind: ActiveChatCompletionItem, open: OpenItem) -> Seq<char> {
    match open {
        Some((of, heard)) if of == kind => heard,
        _ => Seq::empty(),
    }
}

proof fn lemma_heard_is_kept(
    kind: ActiveChatCompletionItem,
    events: Seq<ResponseEventView>,
)
    requires
        hear_all(None, events) is Some,
    ensures
        pieces(kind, events) == closed_texts(kind, events) + open_text(
            kind,
            hear_all(None, events)->0,
        ),
    decreases events.len(),
{
    if events.len() > 0 {
        lemma_heard_is_kept(kind, events.drop_last());
    }
    assert(pieces(kind, events) =~= closed_texts(kind, events) + open_text(
        kind,
        hear_all(None, events)->0,
    ));
}

/// Nothing is lost on the way: at any point of a stream, the pieces of a kind that
/// were sent are the texts of the closed items of that kind and what is held of
/// the open one. When no item is open, such as after the end, the items hold all
/// of it.
pub proof fn law_pieces_are_kept(kind: ActiveChatCompletionItem, inputs: Seq<SseInputView>)
    ensures
        pieces(kind, run(StreamState::initial(), inputs).events) == closed_texts(
            kind,
            run(StreamState::initial(), inputs).events,
        ) + open_text(kind, open_item(run(StreamState::initial(), inputs).state)),
{
    law_run_heard(inputs);
    lemma_heard_is_kept(kind, run(StreamState::initial(), inputs).events);
}

/// The member `key` of a value that is an object and has it.
pub open spec fn at(value: Option<JsonView>, key: Seq<char>) -> Option<JsonView> {
    match value {
        Some(JsonView::Object(members)) => if members.contains_key(key) {
            Some(members[key])
        } else {
            None
        },
        _ => None,
    }
}

/// The characters of the member `key`, where it is a string.
pub open spec fn text_at(value: Option<JsonView>, key: Seq<char>) -> Option<Seq<char>> {
    match at(value, key) {
        Some(JsonView::Text(chars)) => Some(chars),
        _ => None,
    }
}

/// The first element of an array that has one.
pub open spec fn first_element(value: Option<JsonView>) -> Option<JsonView> {
    match value {
        Some(JsonView::Array(elements)) => if elements.len() > 0 {
            Some(elements[0])
        } else {
            None
        },
        _ => None,
    }
}

/// The choice that an input brings: `choices[0]` of its data.
pub open spec fn input_choice(input: SseInputView) -> Option<JsonView> {
    match input {
        SseInputView::Data(data) => if trimmed(data) == "[DONE]"@ {
            None
        } else {
            first_element(at(json_parsed(data), "choices"@))
        },
        _ => None,
    }
}

/// The delta that an input brings: `choices[0].delta` of its data.
pub open spec fn input_delta(input: SseInputView) -> Option<JsonView> {
    at(input_choice(input), "delta"@)
}

/// The piece of a kind that an input brings: `content` of its delta for a message;
/// for reasoning `reasoning_content`, or `reasoning` where that is missing.
pub open spec fn input_piece(kind: ActiveChatCompletionItem, input: SseInputView) -> Seq<char> {
    let delta = input_delta(input);
    let piece = match kind {
        ActiveChatCompletionItem::Message => text_at(delta, "content"@),
        ActiveChatCompletionItem::Reasoning => if at(delta, "reasoning_content"@) is Some {
            text_at(delta, "reasoning_content"@)
        } else {
            text_at(delta, "reasoning"@)
        },
    };
    match piece {
        Some(chars) => chars,
        None => Seq::empty(),
    }
}

/// The pieces of a kind that inputs bring, put together.
pub open spec fn input_pieces(kind: ActiveChatCompletionItem, inputs: Seq<SseInputView>) -> Seq<
    char,
>
    decreases inputs.len(),
{
    if inputs.len() == 0 {
        Seq::empty()
    } else {
        input_pieces(kind, inputs.drop_last()) + input_piece(kind, inputs.last())
    }
}

proof fn lemma_pieces_push(
    kind: ActiveChatCompletionItem,
    events: Seq<ResponseEventView>,
    event: ResponseEventView,
)
    ensures
        pieces(kind, events.push(event)) == pieces(kind, events) + piece_of(kind, event),
{
    assert(events.push(event).drop_last() =~= events);
}

proof fn lemma_pieces_concat(
    kind: ActiveChatCompletionItem,
    first: Seq<ResponseEventView>,
    second: Seq<ResponseEventView>,
)
    ensures
        pieces(kind, first + second) == pieces(kind, first) + pieces(kind, second),
    decreases second.len(),
{
    if second.len() == 0 {
        assert(first + second =~= first);
    } else {
        lemma_pieces_concat(kind, first, second.drop_last());
        assert((first + second).drop_last() =~= first + second.drop_last());
    }
    assert(pieces(kind, first + second) =~= pieces(kind, first) + pieces(kind, second));
}

proof fn lemma_start_pieces(
    kind: ActiveChatCompletionItem,
    progress: Progress,
    started: ActiveChatCompletionItem,
)
    ensures
        pieces(kind, progress.finish_active().events) == pieces(kind, progress.events),
        pieces(kind, progress.start(started).events) == pieces(kind, progress.events),
{
    let finished = progress.finish_active();
    if finished.events.len() > progress.events.len() {
        lemma_pieces_push(kind, progress.events, finished.events.last());
        assert(finished.events =~= progress.events.push(finished.events.last()));
    }
    assert(pieces(kind, finished.events) =~= pieces(kind, progress.events));
    if progress.state.active_item != Some(started) {
        lemma_pieces_push(kind, finished.events, progress.start(started).events.last());
        assert(progress.start(started).events =~= finished.events.push(
            progress.start(started).events.last(),
        ));
        assert(pieces(kind, progress.start(started).events) =~= pieces(kind, finished.events));
    }
}

proof fn lemma_tool_calls_pieces(
    kind: ActiveChatCompletionItem,
    calls: Map<usize, ToolCallView>,
    bound: nat,
)
    ensures
        pieces(kind, tool_calls_done(calls, bound)) == Seq::<char>::empty(),
    decreases bound,
{
    if bound > 0 {
        lemma_tool_calls_pieces(kind, calls, (bound - 1) as nat);
        let before = tool_calls_done(calls, (bound - 1) as nat);
        lemma_pieces_push(kind, before, tool_call_done(calls[(bound - 1) as usize]));
        assert(pieces(kind, tool_calls_done(calls, bound)) =~= Seq::<char>::empty());
    }
}

proof fn lemma_complete_pieces(kind: ActiveChatCompletionItem, progress: Progress)
    ensures
        pieces(kind, progress.complete().events) == pieces(kind, progress.events),
{
    let finished = progress.finish_active();
    let done = all_tool_calls_done(finished.state.tool_calls);
    lemma_start_pieces(kind, progress, kind);
    lemma_tool_calls_pieces(kind, finished.state.tool_calls, usize::MAX as nat + 1);
    lemma_pieces_concat(kind, finished.events, done);
    lemma_pieces_push(kind, finished.events + done, completed_event());
    assert(pieces(kind, progress.complete().events) =~= pieces(kind, progress.events));
}

proof fn lemma_add_delta_pieces(
    kind: ActiveChatCompletionItem,
    progress: Progress,
    delta: JsonView,
)
    ensures
        pieces(kind, progress.add_delta(delta).events) == pieces(kind, progress.events) + (match (
            kind,
            reasoning_delta(delta),
            text_delta(delta),
        ) {
            (ActiveChatCompletionItem::Reasoning, Some(piece), _) => piece,
            (ActiveChatCompletionItem::Message, _, Some(piece)) => piece,
            _ => Seq::empty(),
        }),
{
    let reasoned = match reasoning_delta(delta) {
        Some(piece) => progress.add_reasoning(piece),
        None => progress,
    };
    if let Some(piece) = reasoning_delta(delta) {
        let started = progress.start(ActiveChatCompletionItem::Reasoning);
        lemma_start_pieces(kind, progress, ActiveChatCompletionItem::Reasoning);
        lemma_pieces_push(
            kind,
            started.events,
            ResponseEventView::ReasoningSummaryDelta { delta: piece, summary_index: 0 },
        );
    }
    if let Some(piece) = text_delta(delta) {
        let started = reasoned.start(ActiveChatCompletionItem::Message);
        lemma_start_pieces(kind, reasoned, ActiveChatCompletionItem::Message);
        lemma_pieces_push(kind, started.events, ResponseEventView::OutputTextDelta(piece));
    }
    assert(pieces(kind, progress.add_delta(delta).events) =~= pieces(kind, progress.events) + (
    match (kind, reasoning_delta(delta), text_delta(delta)) {
        (ActiveChatCompletionItem::Reasoning, Some(piece), _) => piece,
        (ActiveChatCompletionItem::Message, _, Some(piece)) => piece,
        _ => Seq::empty(),
    }));
}

/// An input is answered with exactly the text and the reasoning that it brings.
pub proof fn law_step_pieces(
    kind: ActiveChatCompletionItem,
    state: StreamState,
    input: SseInputView,
)
    ensures
        pieces(kind, stream_step(state, input).events) == input_piece(kind, input),
{
    let quiet = Progress { state, events: Seq::empty() };
    lemma_complete_pieces(kind, quiet);
    if let SseInputView::Data(data) = input {
        if let Some(chunk) = json_parsed(data) {
            if let Some(choice) = first_choice(chunk) {
                if let Some(delta) = choice.member("delta"@) {
                    lemma_add_delta_pieces(kind, quiet, delta);
                }
                lemma_complete_pieces(kind, quiet.add_choice(choice));
            }
        }
    }
    assert(pieces(kind, stream_step(state, input).events) =~= input_piece(kind, input));
}

/// A stream hands on exactly the text and the reasoning that it receives, in order.
pub proof fn law_run_pieces(
    kind: ActiveChatCompletionItem,
    state: StreamState,
    inputs: Seq<SseInputView>,
)
    requires
        all_taken(state, inputs),
    ensures
        pieces(kind, run(state, inputs).events) == input_pieces(kind, inputs),
    decreases inputs.len(),
{
    if inputs.len() > 0 {
        let before = run(state, inputs.drop_last());
        law_run_pieces(kind, state, inputs.drop_last());
        law_step_pieces(kind, before.state, inputs.last());
        lemma_pieces_concat(
            kind,
            before.events,
            stream_step(before.state, inputs.last()).events,
        );
    }
}

/// A stream that comes to its end, other than by a listener's leaving, has put all
/// the text that it received into messages, and all the reasoning into reasoning
/// items.
pub proof fn law_completed_stream_delivers(
    kind: ActiveChatCompletionItem,
    inputs: Seq<SseInputView>,
)
    requires
        inputs.len() > 0,
        all_taken(StreamState::initial(), inputs),
        run(StreamState::initial(), inputs).outcome is Finished,
        !(inputs.last() is ConsumerDropped),
    ensures
        closed_texts(kind, run(StreamState::initial(), inputs).events) == input_pieces(
            kind,
            inputs,
        ),
{
    let ended = run(StreamState::initial(), inputs);
    assert(ended.state.active_item is None);
    law_pieces_are_kept(kind, inputs);
    law_run_pieces(kind, StreamState::initial(), inputs);
    assert(closed_texts(kind, ended.events) + Seq::empty() =~= closed_texts(kind, ended.events));
}

/// Whether an event is about an item of a kind.
pub open spec fn about(kind: ActiveChatCompletionItem, event: ResponseEventView) -> bool {
    match (kind, event) {
        (
            ActiveChatCompletionItem::Reasoning,
            ResponseEventView::OutputItemAdded(ResponseItemView::Reasoning { .. }),
        ) => true,
        (
            ActiveChatCompletionItem::Reasoning,
            ResponseEventView::OutputItemDone(ResponseItemView::Reasoning { .. }),
        ) => true,
        (
            ActiveChatCompletionItem::Reasoning,
            ResponseEventView::ReasoningSummaryDelta { .. },
        ) => true,
        (
            ActiveChatCompletionItem::Message,
            ResponseEventView::OutputItemAdded(ResponseItemView::Message { .. }),
        ) => true,
        (
            ActiveChatCompletionItem::Message,
            ResponseEventView::OutputItemDone(ResponseItemView::Message { .. }),
        ) => true,
        (ActiveChatCompletionItem::Message, ResponseEventView::OutputTextDelta(_)) => true,
        _ => false,
    }
}

/// Whether no event is about an item of a kind.
pub open spec fn none_about(
    kind: ActiveChatCompletionItem,
    events: Seq<ResponseEventView>,
) -> bool {
    forall|i: int| 0 <= i < events.len() ==> !about(kind, #[trigger] events[i])
}

/// Nothing of a kind has come up.
spec fn without(kind: ActiveChatCompletionItem, progress: Progress) -> bool {
    &&& progress.state.active_item != Some(kind)
    &&& none_about(kind, progress.events)
}

proof fn lemma_start_without(
    kind: ActiveChatCompletionItem,
    progress: Progress,
    started: ActiveChatCompletionItem,
)
    requires
        without(kind, progress),
    ensures
        without(kind, progress.finish_active()),
        started != kind ==> without(kind, progress.start(started)),
{
}

proof fn lemma_tool_calls_not_about(
    kind: ActiveChatCompletionItem,
    calls: Map<usize, ToolCallView>,
    bound: nat,
)
    ensures
        none_about(kind, tool_calls_done(calls, bound)),
    decreases bound,
{
    if bound > 0 {
        lemma_tool_calls_not_about(kind, calls, (bound - 1) as nat);
    }
}

proof fn lemma_complete_without(kind: ActiveChatCompletionItem, progress: Progress)
    requires
        without(kind, progress),
    ensures
        without(kind, progress.complete()),
{
    lemma_start_without(kind, progress, kind);
    lemma_tool_calls_not_about(
        kind,
        progress.finish_active().state.tool_calls,
        usize::MAX as nat + 1,
    );
}

proof fn lemma_step_without(
    kind: ActiveChatCompletionItem,
    state: StreamState,
    input: SseInputView,
)
    requires
        state.active_item != Some(kind),
        input_piece(kind, input).len() == 0,
    ensures
        stream_step(state, input).state.active_item != Some(kind),
        none_about(kind, stream_step(state, input).events),
{
    let quiet = Progress { state, events: Seq::empty() };
    assert(without(kind, quiet));
    lemma_complete_without(kind, quiet);
    if let SseInputView::Data(data) = input {
        if trimmed(data) != "[DONE]"@ {
            if let Some(chunk) = json_parsed(data) {
                if let Some(choice) = first_choice(chunk) {
                    if let Some(delta) = choice.member("delta"@) {
                        let reasoned = match reasoning_delta(delta) {
                            Some(piece) => quiet.add_reasoning(piece),
                            None => quiet,
                        };
                        if reasoning_delta(delta) is Some {
                            lemma_start_without(kind, quiet, ActiveChatCompletionItem::Reasoning);
                        }
                        assert(without(kind, reasoned));
                        if text_delta(delta) is Some {
                            lemma_start_without(kind, reasoned, ActiveChatCompletionItem::Message);
                        }
                        assert(without(kind, quiet.add_delta(delta)));
                    }
                    assert(without(kind, quiet.add_choice(choice)));
                    lemma_complete_without(kind, quiet.add_choice(choice));
                }
            }
        }
    }
}

/// A stream that receives no reasoning never shows any: no reasoning item is
/// announced, grown or closed. The same holds of messages.
pub proof fn law_nothing_received_nothing_shown(
    kind: ActiveChatCompletionItem,
    inputs: Seq<SseInputView>,
)
    requires
        forall|i: int| 0 <= i < inputs.len() ==> input_piece(kind, #[trigger] inputs[i]).len() == 0,
    ensures
        none_about(kind, run(StreamState::initial(), inputs).events),
        run(StreamState::initial(), inputs).state.active_item != Some(kind),
    decreases inputs.len(),
{
    if inputs.len() > 0 {
        let rest = inputs.drop_last();
        assert forall|i: int| 0 <= i < rest.len() implies input_piece(
            kind,
            #[trigger] rest[i],
        ).len() == 0 by {
            assert(rest[i] == inputs[i]);
        }
        law_nothing_received_nothing_shown(kind, rest);
        lemma_step_without(
            kind,
            run(StreamState::initial(), rest).state,
            inputs[inputs.len() - 1],
        );
    }
}

/// Whether `Completed` comes nowhere but at the end.
pub open spec fn completed_only_last(events: Seq<ResponseEventView>) -> bool {
    forall|i: int|
        0 <= i < events.len() && (#[trigger] events[i]) is Completed ==> i == events.len() - 1
            && events[i] == the_end()
}

/// Whether `Completed` comes nowhere.
pub open spec fn not_completed(events: Seq<ResponseEventView>) -> bool {
    forall|i: int| 0 <= i < events.len() ==> !((#[trigger] events[i]) is Completed)
}

proof fn lemma_tool_calls_not_completed(calls: Map<usize, ToolCallView>, bound: nat)
    ensures
        not_completed(tool_calls_done(calls, bound)),
    decreases bound,
{
    if bound > 0 {
        lemma_tool_calls_not_completed(calls, (bound - 1) as nat);
    }
}

proof fn lemma_complete_ends(progress: Progress)
    requires
        not_completed(progress.events),
    ensures
        completed_only_last(progress.complete().events),
        progress.complete().events.len() > 0,
        progress.complete().events.last() == the_end(),
{
    lemma_tool_calls_not_completed(
        progress.finish_active().state.tool_calls,
        usize::MAX as nat + 1,
    );
}

/// An input that ends the stream, other than a listener's leaving, is answered
/// with `Completed` as the last event; a failure is answered with no event; and
/// no other input brings `Completed`.
pub proof fn law_step_ends(state: StreamState, input: SseInputView)
    ensures
        completed_only_last(stream_step(state, input).events),
        stream_step(state, input).outcome is Finished && !(input is ConsumerDropped) ==> {
            &&& stream_step(state, input).events.len() > 0
            &&& stream_step(state, input).events.last() == the_end()
        },
        stream_step(state, input).outcome is Failed ==> stream_step(state, input).events.len() == 0,
        stream_step(state, input).outcome is Continue ==> not_completed(
            stream_step(state, input).events,
        ),
{
    let quiet = Progress { state, events: Seq::empty() };
    lemma_complete_ends(quiet);
    if let SseInputView::Data(data) = input {
        if let Some(chunk) = json_parsed(data) {
            if let Some(choice) = first_choice(chunk) {
                assert(not_completed(quiet.add_choice(choice).events));
                lemma_complete_ends(quiet.add_choice(choice));
            }
        }
    }
}

/// `Completed` comes at most once on a stream, and nothing comes after it. A stream
/// that goes on has not brought it.
pub proof fn law_run_ends(state: StreamState, inputs: Seq<SseInputView>)
    ensures
        completed_only_last(run(state, inputs).events),
        run(state, inputs).outcome is Continue ==> not_completed(run(state, inputs).events),
    decreases inputs.len(),
{
    if inputs.len() > 0 {
        law_run_ends(state, inputs.drop_last());
        law_step_ends(run(state, inputs.drop_last()).state, inputs.last());
    }
}

/// Whether data is passed over: it is not the end marker, and it is not JSON or
/// has no choice.
pub open spec fn passed_over(data: Seq<char>) -> bool {
    &&& trimmed(data) != "[DONE]"@
    &&& first_element(at(json_parsed(data), "choices"@)) is None
}

/// Data that is not JSON, or JSON that has no choice, changes nothing, brings no
/// event and does not end the stream.
pub proof fn law_unreadable_data_is_passed_over(state: StreamState, data: Seq<char>)
    requires
        passed_over(data),
    ensures
        stream_step(state, SseInputView::Data(data)) == (StepView {
            state,
            events: Seq::empty(),
            outcome: StreamOutcomeView::Continue,
        }),
{
}

/// The marker `[DONE]`, with white space around it or not, ends a stream as the
/// server's closing it does.
pub proof fn law_done_marker_ends(state: StreamState, data: Seq<char>)
    requires
        trimmed(data) == "[DONE]"@,
    ensures
        stream_step(state, SseInputView::Data(data)) == stream_step(state, SseInputView::Ended),
{
}

/// The index that a piece gives, 0 where it gives none that is a natural number of
/// the machine's size.
pub open spec fn piece_index(piece: JsonView) -> usize {
    match at(Some(piece), "index"@) {
        Some(JsonView::Integer(n)) => if 0 <= n <= u64::MAX && n <= usize::MAX {
            n as usize
        } else {
            0
        },
        _ => 0,
    }
}

/// The pieces that belong to the call at `index`, in order.
pub open spec fn own_pieces(call_pieces: Seq<JsonView>, index: usize) -> Seq<JsonView>
    decreases call_pieces.len(),
{
    if call_pieces.len() == 0 {
        Seq::empty()
    } else {
        let before = own_pieces(call_pieces.drop_last(), index);
        if piece_index(call_pieces.last()) == index {
            before.push(call_pieces.last())
        } else {
            before
        }
    }
}

/// The first `id` that pieces give.
pub open spec fn first_id(call_pieces: Seq<JsonView>) -> Option<Seq<char>>
    decreases call_pieces.len(),
{
    if call_pieces.len() == 0 {
        None
    } else {
        match first_id(call_pieces.drop_last()) {
            Some(id) => Some(id),
            None => text_at(Some(call_pieces.last()), "id"@),
        }
    }
}

/// The first `function.name` that pieces give.
pub open spec fn first_name(call_pieces: Seq<JsonView>) -> Option<Seq<char>>
    decreases call_pieces.len(),
{
    if call_pieces.len() == 0 {
        None
    } else {
        match first_name(call_pieces.drop_last()) {
            Some(name) => Some(name),
            None => text_at(at(Some(call_pieces.last()), "function"@), "name"@),
        }
    }
}

/// Every `function.arguments` that pieces give, put together.
pub open spec fn all_arguments(call_pieces: Seq<JsonView>) -> Seq<char>
    decreases call_pieces.len(),
{
    if call_pieces.len() == 0 {
        Seq::empty()
    } else {
        all_arguments(call_pieces.drop_last()) + or_empty(
            text_at(at(Some(call_pieces.last()), "function"@), "arguments"@),
        )
    }
}

/// Whether some piece belongs to the call at `index`.
pub open spec fn has_piece(call_pieces: Seq<JsonView>, index: usize) -> bool {
    exists|i: int| 0 <= i < call_pieces.len() && piece_index(#[trigger] call_pieces[i]) == index
}

/// The call that pieces make up at `index`: the first id and the first name given
/// for it, and all its arguments in order.
pub open spec fn assembled(call_pieces: Seq<JsonView>, index: usize) -> ToolCallView {
    let own = own_pieces(call_pieces, index);
    ToolCallView { id: first_id(own), name: first_name(own), arguments: all_arguments(own) }
}

proof fn lemma_has_piece(call_pieces: Seq<JsonView>, index: usize)
    ensures
        has_piece(call_pieces, index) <==> own_pieces(call_pieces, index).len() > 0,
    decreases call_pieces.len(),
{
    if call_pieces.len() > 0 {
        let rest = call_pieces.drop_last();
        lemma_has_piece(rest, index);
        if has_piece(rest, index) {
            let i = choose|i: int|
                0 <= i < rest.len() && piece_index(#[trigger] rest[i]) == index;
            assert(piece_index(call_pieces[i]) == index);
        }
        if has_piece(call_pieces, index) && piece_index(call_pieces.last()) != index {
            let i = choose|i: int|
                0 <= i < call_pieces.len() && piece_index(#[trigger] call_pieces[i]) == index;
            assert(piece_index(rest[i]) == index);
        }
        if piece_index(call_pieces.last()) == index {
            assert(piece_index(call_pieces[call_pieces.len() - 1]) == index);
        }
    }
}

/// However the pieces of several calls are mixed, each call is put together from
/// its own: it exists where there is a piece for it, and holds the first id, the
/// first name and all the arguments of its pieces.
pub proof fn law_tool_calls_assembled(call_pieces: Seq<JsonView>, index: usize)
    ensures
        ({
            let calls = with_tool_call_deltas(Map::empty(), call_pieces);
            let own = own_pieces(call_pieces, index);
            &&& calls.contains_key(index) <==> own.len() > 0
            &&& calls.contains_key(index) <==> has_piece(call_pieces, index)
            &&& call_at(calls, index) == assembled(call_pieces, index)
            &&& calls.contains_key(index) ==> {
                &&& calls[index].id == first_id(own)
                &&& calls[index].name == first_name(own)
                &&& calls[index].arguments == all_arguments(own)
            }
        }),
    decreases call_pieces.len(),
{
    lemma_has_piece(call_pieces, index);
    assert(own_pieces(call_pieces, index).len() == 0 ==> assembled(call_pieces, index).arguments
        =~= Seq::empty());
    if call_pieces.len() > 0 {
        let rest = call_pieces.drop_last();
        let piece = call_pieces.last();
        law_tool_calls_assembled(rest, index);
        let before = own_pieces(rest, index);
        assert(tool_call_index(piece) == piece_index(piece));
        assert(before.push(piece).drop_last() =~= before);
        if piece_index(piece) == index {
            let calls = with_tool_call_deltas(Map::empty(), call_pieces);
            assert(call_at(with_tool_call_deltas(Map::empty(), rest), index).arguments
                =~= all_arguments(before));
            assert(calls[index].arguments =~= all_arguments(before.push(piece)));
        }
    }
}

/// A piece leaves every call but its own as it was, and never takes back what is
/// known of its own: an id or a name stays, and the arguments only grow.
pub proof fn law_piece_only_adds(calls: Map<usize, ToolCallView>, piece: JsonView, index: usize)
    ensures
        index != piece_index(piece) ==> with_tool_call_delta(calls, piece).contains_key(index)
            == calls.contains_key(index) && call_at(with_tool_call_delta(calls, piece), index)
            == call_at(calls, index),
        call_at(calls, index).id is Some ==> call_at(with_tool_call_delta(calls, piece), index).id
            == call_at(calls, index).id,
        call_at(calls, index).name is Some ==> call_at(
            with_tool_call_delta(calls, piece),
            index,
        ).name == call_at(calls, index).name,
        call_at(calls, index).arguments.is_prefix_of(
            call_at(with_tool_call_delta(calls, piece), index).arguments,
        ),
{
}

/// The indexes below `bound` that have a call.
pub open spec fn call_indexes(calls: Map<usize, ToolCallView>, bound: nat) -> Seq<usize>
    decreases bound,
{
    if bound == 0 {
        Seq::empty()
    } else {
        let before = call_indexes(calls, (bound - 1) as nat);
        if bound - 1 <= usize::MAX && calls.contains_key((bound - 1) as usize) {
            before.push((bound - 1) as usize)
        } else {
            before
        }
    }
}

proof fn lemma_call_indexes(calls: Map<usize, ToolCallView>, bound: nat)
    ensures
        ascending(call_indexes(calls, bound)),
        forall|k: usize| #[trigger]
            call_indexes(calls, bound).contains(k) <==> calls.contains_key(k) && k < bound,
    decreases bound,
{
    let indexes = call_indexes(calls, bound);
    if bound > 0 {
        lemma_call_indexes(calls, (bound - 1) as nat);
        let before = call_indexes(calls, (bound - 1) as nat);
        assert forall|i: int| 0 <= i < before.len() implies #[trigger] before[i] < bound - 1 by {
            assert(before.contains(before[i]));
        }
        if bound - 1 <= usize::MAX && calls.contains_key((bound - 1) as usize) {
            let top = (bound - 1) as usize;
            assert(indexes == before.push(top));
            assert forall|k: usize| #[trigger] indexes.contains(k) <==> calls.contains_key(k) && k
                < bound by {
                if indexes.contains(k) {
                    let i = indexes.index_of(k);
                    if i < before.len() {
                        assert(before[i] == k);
                        assert(before.contains(k));
                    }
                }
                if calls.contains_key(k) && k < bound {
                    if k == top {
                        assert(indexes[before.len() as int] == k);
                    } else {
                        assert(before.contains(k));
                        let i = before.index_of(k);
                        assert(indexes[i] == k);
                    }
                }
            }
        } else {
            assert forall|k: usize| #[trigger] indexes.contains(k) <==> calls.contains_key(k) && k
                < bound by {
                assert(before.contains(k) <==> calls.contains_key(k) && k < bound - 1);
            }
        }
    }
}

/// At the end every call is handed on once, in ascending order of its index.
pub proof fn law_tool_calls_in_order(calls: Map<usize, ToolCallView>)
    ensures
        ({
            let indexes = call_indexes(calls, usize::MAX as nat + 1);
            &&& ascending(indexes)
            &&& forall|k: usize| #[trigger] indexes.contains(k) <==> calls.contains_key(k)
            &&& all_tool_calls_done(calls) == indexes.map_values(
                |k: usize| tool_call_done(calls[k]),
            )
        }),
{
    let bound = usize::MAX as nat + 1;
    lemma_call_indexes(calls, bound);
    lemma_ascending_calls(calls, call_indexes(calls, bound), bound);
}

/// The pieces of tool calls that an input brings: the elements of `tool_calls` of
/// its delta.
pub open spec fn input_call_pieces(input: SseInputView) -> Seq<JsonView> {
    match at(input_delta(input), "tool_calls"@) {
        Some(JsonView::Array(call_pieces)) => call_pieces,
        _ => Seq::empty(),
    }
}

/// The pieces of tool calls that inputs bring, in order.
pub open spec fn received_call_pieces(inputs: Seq<SseInputView>) -> Seq<JsonView>
    decreases inputs.len(),
{
    if inputs.len() == 0 {
        Seq::empty()
    } else {
        received_call_pieces(inputs.drop_last()) + input_call_pieces(inputs.last())
    }
}

/// The events that hand on tool calls.
pub open spec fn tool_call_events(events: Seq<ResponseEventView>) -> Seq<ResponseEventView>
    decreases events.len(),
{
    if events.len() == 0 {
        Seq::empty()
    } else {
        let before = tool_call_events(events.drop_last());
        match events.last() {
            ResponseEventView::OutputItemDone(ResponseItemView::FunctionCall { .. }) =>
                before.push(events.last()),
            _ => before,
        }
    }
}

proof fn lemma_deltas_concat(
    calls: Map<usize, ToolCallView>,
    first: Seq<JsonView>,
    second: Seq<JsonView>,
)
    ensures
        with_tool_call_deltas(calls, first + second) == with_tool_call_deltas(
            with_tool_call_deltas(calls, first),
            second,
        ),
    decreases second.len(),
{
    if second.len() == 0 {
        assert(first + second =~= first);
    } else {
        lemma_deltas_concat(calls, first, second.drop_last());
        assert((first + second).drop_last() =~= first + second.drop_last());
        assert((first + second).last() == second.last());
    }
}

proof fn lemma_tool_call_events_concat(
    first: Seq<ResponseEventView>,
    second: Seq<ResponseEventView>,
)
    ensures
        tool_call_events(first + second) == tool_call_events(first) + tool_call_events(second),
    decreases second.len(),
{
    if second.len() == 0 {
        assert(first + second =~= first);
        assert(tool_call_events(first) + tool_call_events(second) =~= tool_call_events(first));
    } else {
        lemma_tool_call_events_concat(first, second.drop_last());
        assert((first + second).drop_last() =~= first + second.drop_last());
        assert((first + second).last() == second.last());
        assert(tool_call_events(first + second) =~= tool_call_events(first) + tool_call_events(
            second,
        ));
    }
}

proof fn lemma_tool_call_events_push(events: Seq<ResponseEventView>, event: ResponseEventView)
    ensures
        tool_call_events(events.push(event)) == (match event {
            ResponseEventView::OutputItemDone(ResponseItemView::FunctionCall { .. }) =>
                tool_call_events(events).push(event),
            _ => tool_call_events(events),
        }),
{
    assert(events.push(event).drop_last() =~= events);
}

proof fn lemma_all_tool_call_events(calls: Map<usize, ToolCallView>, bound: nat)
    ensures
        tool_call_events(tool_calls_done(calls, bound)) == tool_calls_done(calls, bound),
    decreases bound,
{
    if bound > 0 {
        lemma_all_tool_call_events(calls, (bound - 1) as nat);
        lemma_tool_call_events_push(
            tool_calls_done(calls, (bound - 1) as nat),
            tool_call_done(calls[(bound - 1) as usize]),
        );
    }
}

proof fn lemma_start_calls(progress: Progress, kind: ActiveChatCompletionItem)
    ensures
        progress.finish_active().state.tool_calls == progress.state.tool_calls,
        tool_call_events(progress.finish_active().events) == tool_call_events(progress.events),
        progress.start(kind).state.tool_calls == progress.state.tool_calls,
        tool_call_events(progress.start(kind).events) == tool_call_events(progress.events),
{
    let finished = progress.finish_active();
    if finished.events.len() > progress.events.len() {
        assert(finished.events =~= progress.events.push(finished.events.last()));
        lemma_tool_call_events_push(progress.events, finished.events.last());
    }
    let started = progress.start(kind);
    if progress.state.active_item != Some(kind) {
        assert(started.events =~= finished.events.push(started.events.last()));
        lemma_tool_call_events_push(finished.events, started.events.last());
    }
}

proof fn lemma_add_choice_calls(progress: Progress, choice: JsonView)
    ensures
        progress.add_choice(choice).state.tool_calls == with_tool_call_deltas(
            progress.state.tool_calls,
            match choice.member("delta"@) {
                Some(delta) => match tool_call_deltas(delta) {
                    Some(call_pieces) => call_pieces,
                    None => Seq::empty(),
                },
                None => Seq::empty(),
            },
        ),
        tool_call_events(progress.add_choice(choice).events) == tool_call_events(progress.events),
{
    if let Some(delta) = choice.member("delta"@) {
        let reasoned = match reasoning_delta(delta) {
            Some(piece) => progress.add_reasoning(piece),
            None => progress,
        };
        if let Some(piece) = reasoning_delta(delta) {
            lemma_start_calls(progress, ActiveChatCompletionItem::Reasoning);
            lemma_tool_call_events_push(
                progress.start(ActiveChatCompletionItem::Reasoning).events,
                ResponseEventView::ReasoningSummaryDelta { delta: piece, summary_index: 0 },
            );
        }
        if let Some(piece) = text_delta(delta) {
            lemma_start_calls(reasoned, ActiveChatCompletionItem::Message);
            lemma_tool_call_events_push(
                reasoned.start(ActiveChatCompletionItem::Message).events,
                ResponseEventView::OutputTextDelta(piece),
            );
        }
    }
}

proof fn lemma_complete_calls(progress: Progress)
    ensures
        tool_call_events(progress.complete().events) == tool_call_events(progress.events)
            + all_tool_calls_done(progress.state.tool_calls),
{
    lemma_start_calls(progress, ActiveChatCompletionItem::Message);
    let finished = progress.finish_active();
    let done = all_tool_calls_done(finished.state.tool_calls);
    lemma_all_tool_call_events(finished.state.tool_calls, usize::MAX as nat + 1);
    lemma_tool_call_events_concat(finished.events, done);
    lemma_tool_call_events_push(finished.events + done, completed_event());
}

proof fn lemma_step_calls(state: StreamState, input: SseInputView)
    ensures
        stream_step(state, input).outcome is Continue ==> {
            &&& stream_step(state, input).state.tool_calls == with_tool_call_deltas(
                state.tool_calls,
                input_call_pieces(input),
            )
            &&& tool_call_events(stream_step(state, input).events) == Seq::<
                ResponseEventView,
            >::empty()
        },
        stream_step(state, input).outcome is Finished && !(input is ConsumerDropped)
            ==> tool_call_events(stream_step(state, input).events) == all_tool_calls_done(
            with_tool_call_deltas(state.tool_calls, input_call_pieces(input)),
        ),
{
    let quiet = Progress { state, events: Seq::empty() };
    let none = Seq::<ResponseEventView>::empty();
    lemma_complete_calls(quiet);
    assert(none + all_tool_calls_done(state.tool_calls) =~= all_tool_calls_done(state.tool_calls));
    if let SseInputView::Data(data) = input {
        if trimmed(data) != "[DONE]"@ {
            if let Some(chunk) = json_parsed(data) {
                if let Some(choice) = first_choice(chunk) {
                    let added = quiet.add_choice(choice);
                    lemma_add_choice_calls(quiet, choice);
                    lemma_complete_calls(added);
                    assert(none + all_tool_calls_done(added.state.tool_calls)
                        =~= all_tool_calls_done(added.state.tool_calls));
                }
            }
        }
    }
}

/// No tool call is handed on before a stream ends. At its end, other than by a
/// listener's leaving or a failure, exactly the calls that the received pieces
/// make up are handed on.
pub proof fn law_run_tool_calls(inputs: Seq<SseInputView>)
    requires
        all_taken(StreamState::initial(), inputs),
    ensures
        run(StreamState::initial(), inputs).outcome is Continue ==> {
            &&& run(StreamState::initial(), inputs).state.tool_calls == with_tool_call_deltas(
                Map::empty(),
                received_call_pieces(inputs),
            )
            &&& tool_call_events(run(StreamState::initial(), inputs).events) == Seq::<
                ResponseEventView,
            >::empty()
        },
        run(StreamState::initial(), inputs).outcome is Finished && !(
        inputs.last() is ConsumerDropped) ==> tool_call_events(
            run(StreamState::initial(), inputs).events,
        ) == all_tool_calls_done(
            with_tool_call_deltas(Map::empty(), received_call_pieces(inputs)),
        ),
    decreases inputs.len(),
{
    let start = StreamState::initial();
    if inputs.len() > 0 {
        let rest = inputs.drop_last();
        let before = run(start, rest);
        law_run_tool_calls(rest);
        lemma_step_calls(before.state, inputs.last());
        lemma_deltas_concat(
            Map::empty(),
            received_call_pieces(rest),
            input_call_pieces(inputs.last()),
        );
        let step = stream_step(before.state, inputs.last());
        lemma_tool_call_events_concat(before.events, step.events);
        assert(Seq::<ResponseEventView>::empty() + tool_call_events(step.events)
            =~= tool_call_events(step.events));
    }
}

/// Data that is passed over, wherever it comes, leaves the whole stream as it is
/// without it: the same events, the same outcome and the same state.
pub proof fn law_run_passes_over(
    state: StreamState,
    before: Seq<SseInputView>,
    data: Seq<char>,
    after: Seq<SseInputView>,
)
    requires
        passed_over(data),
    ensures
        run(state, before.push(SseInputView::Data(data)) + after) == run(state, before + after),
    decreases after.len(),
{
    let longer = before.push(SseInputView::Data(data));
    if after.len() == 0 {
        assert(longer + after =~= longer);
        assert(before + after =~= before);
        assert(longer.drop_last() =~= before);
        law_unreadable_data_is_passed_over(run(state, before).state, data);
        assert(run(state, longer).events =~= run(state, before).events);
    } else {
        law_run_passes_over(state, before, data, after.drop_last());
        assert((longer + after).drop_last() =~= longer + after.drop_last());
        assert((before + after).drop_last() =~= before + after.drop_last());
        assert((longer + after).last() == after.last());
        assert((before + after).last() == after.last());
    }
}

/// Once a stream has ended, nothing that comes later is read.
pub proof fn law_nothing_after_the_end(
    state: StreamState,
    inputs: Seq<SseInputView>,
    later: Seq<SseInputView>,
)
    requires
        !(run(state, inputs).outcome is Continue),
    ensures
        run(state, inputs + later) == run(state, inputs),
    decreases later.len(),
{
    if later.len() == 0 {
        assert(inputs + later =~= inputs);
    } else {
        law_nothing_after_the_end(state, inputs, later.drop_last());
        assert((inputs + later).drop_last() =~= inputs + later.drop_last());
    }
}

/// Whether an input is an end of the stream: its closing, the end marker, or a
/// choice with a finish reason.
pub open spec fn is_end(input: SseInputView) -> bool {
    match input {
        SseInputView::Ended => true,
        SseInputView::Data(data) => trimmed(data) == "[DONE]"@ || (input_choice(input) is Some
            && text_at(input_choice(input), "finish_reason"@) is Some),
        _ => false,
    }
}

/// Whether an input brings no reasoning, no text and no piece of a tool call.
pub open spec fn brings_nothing(input: SseInputView) -> bool {
    &&& input_piece(ActiveChatCompletionItem::Reasoning, input).len() == 0
    &&& input_piece(ActiveChatCompletionItem::Message, input).len() == 0
    &&& input_call_pieces(input).len() == 0
}

proof fn lemma_end_step(state: StreamState, input: SseInputView)
    requires
        is_end(input),
        brings_nothing(input),
    ensures
        stream_step(state, input) == stream_step(state, SseInputView::Ended),
{
    let quiet = Progress { state, events: Seq::empty() };
    if let Some(choice) = input_choice(input) {
        if let Some(delta) = choice.member("delta"@) {
            assert(input_delta(input) == Some(delta));
            assert(reasoning_delta(delta) is None);
            assert(text_delta(delta) is None);
            if let Some(call_pieces) = tool_call_deltas(delta) {
                assert(with_tool_call_deltas(state.tool_calls, call_pieces) == state.tool_calls);
            }
        }
        assert(quiet.add_choice(choice) == quiet);
    }
}

/// The ends of a stream are alike: its closing, the end marker and a finish reason
/// that brings nothing else give the same events, outcome and state.
pub proof fn law_ends_are_alike(
    state: StreamState,
    before: Seq<SseInputView>,
    first: SseInputView,
    second: SseInputView,
)
    requires
        is_end(first),
        brings_nothing(first),
        is_end(second),
        brings_nothing(second),
    ensures
        run(state, before.push(first)) == run(state, before.push(second)),
{
    assert(before.push(first).drop_last() =~= before);
    assert(before.push(second).drop_last() =~= before);
    lemma_end_step(run(state, before).state, first);
    lemma_end_step(run(state, before).state, second);
}

proof fn lemma_complete_after(progress: Progress)
    ensures
        progress.complete().state == (Progress {
            state: progress.state,
            events: Seq::empty(),
        }).complete().state,
        progress.complete().events == progress.events + (Progress {
            state: progress.state,
            events: Seq::empty(),
        }).complete().events,
{
    let quiet = Progress { state: progress.state, events: Seq::empty() };
    assert(progress.finish_active().events =~= progress.events + quiet.finish_active().events);
    assert(progress.complete().events =~= progress.events + quiet.complete().events);
}

/// A finish reason ends a stream after what comes with it: the same delta without
/// the reason, and then the closing of the stream, give the same events, outcome
/// and state.
pub proof fn law_finish_reason_ends(
    state: StreamState,
    before: Seq<SseInputView>,
    last: SseInputView,
    unfinished: SseInputView,
)
    requires
        input_choice(unfinished) is Some,
        text_at(input_choice(last), "finish_reason"@) is Some,
        text_at(input_choice(unfinished), "finish_reason"@) is None,
        input_delta(last) == input_delta(unfinished),
    ensures
        run(state, before.push(last)) == run(
            state,
            before.push(unfinished).push(SseInputView::Ended),
        ),
{
    let reached = run(state, before);
    let open = before.push(unfinished);
    assert(before.push(last).drop_last() =~= before);
    assert(open.drop_last() =~= before);
    assert(open.push(SseInputView::Ended).drop_last() =~= open);
    reveal_with_fuel(run, 3);
    if reached.outcome is Continue {
        let quiet = Progress { state: reached.state, events: Seq::empty() };
        let added = quiet.add_choice(input_choice(last)->0);
        assert(added == quiet.add_choice(input_choice(unfinished)->0));
        lemma_complete_after(added);
        assert(run(state, before.push(last)).events =~= run(
            state,
            open.push(SseInputView::Ended),
        ).events);
    }
}

} // verus!
