//! Laws of delivery: what a listener gets of the members of the chunks that arrive.

use vstd::prelude::*;
use crate::chat_stream::{
    all_tool_calls_done, ascending, chunk_step, lemma_ascending_calls, reasoning_delta,
    stream_step, text_delta, tool_call_index, tool_calls_done, with_tool_call_deltas,
    ActiveChatCompletionItem, Progress, SseInputView, StepView, StreamOutcomeView, StreamState,
    ToolCallView,
};
use crate::json::{json_parsed, JsonView};
use crate::protocol::{CodexErrView, ContentItemView, ResponseEventView, ResponseItemView};
use crate::request_laws::or_empty;
use crate::stream_laws::{
    all_arguments, all_taken, first_id, first_name, input_choice, input_delta, input_piece,
    is_end, law_run_tool_calls, law_step_pieces, law_tool_calls_assembled, own_pieces,
    piece_index, pieces, received_call_pieces, run, shown_message, shown_reasoning,
    the_end, tool_call_events,
};
use crate::text::trimmed;

verus! {

/// A piece of text and the kind of item that it belongs to.
pub type Piece = (ActiveChatCompletionItem, Seq<char>);

/// Data that is the JSON object `chunk` is taken in as that object.
pub proof fn law_chunk_is_taken_in(state: StreamState, data: Seq<char>, chunk: JsonView)
    requires
        trimmed(data) != "[DONE]"@,
        json_parsed(data) == Some(chunk),
    ensures
        stream_step(state, SseInputView::Data(data)) == chunk_step(state, chunk),
{
}

/// Whether data is a chunk in which `choices[0].delta` is the object `delta`.
pub open spec fn is_chunk_with(data: Seq<char>, delta: Map<Seq<char>, JsonView>) -> bool {
    exists|
        chunk: Map<Seq<char>, JsonView>,
        choices: Seq<JsonView>,
        choice: Map<Seq<char>, JsonView>,
    |
        #![trigger chunk["choices"@], choices[0], choice["delta"@]]
        {
            &&& trimmed(data) != "[DONE]"@
            &&& json_parsed(data) == Some(JsonView::Object(chunk))
            &&& chunk.contains_key("choices"@)
            &&& chunk["choices"@] == JsonView::Array(choices)
            &&& choices.len() > 0
            &&& choices[0] == JsonView::Object(choice)
            &&& choice.contains_key("delta"@)
            &&& choice["delta"@] == JsonView::Object(delta)
        }
}

/// The string in `choices[0].delta.content` is sent on as it is, whatever characters
/// it holds and whatever else the delta holds.
pub proof fn law_content_is_sent_on(
    state: StreamState,
    data: Seq<char>,
    delta: Map<Seq<char>, JsonView>,
    content: Seq<char>,
)
    requires
        is_chunk_with(data, delta),
        delta.contains_key("content"@),
        delta["content"@] == JsonView::Text(content),
    ensures
        pieces(
            ActiveChatCompletionItem::Message,
            stream_step(state, SseInputView::Data(data)).events,
        ) == content,
{
    law_step_pieces(ActiveChatCompletionItem::Message, state, SseInputView::Data(data));
}

/// The string in `choices[0].delta.reasoning_content` is sent on as it is, and the
/// string in `choices[0].delta.reasoning` where there is no `reasoning_content`.
pub proof fn law_reasoning_is_sent_on(
    state: StreamState,
    data: Seq<char>,
    delta: Map<Seq<char>, JsonView>,
    reasoning: Seq<char>,
)
    requires
        is_chunk_with(data, delta),
        (delta.contains_key("reasoning_content"@) && delta["reasoning_content"@]
            == JsonView::Text(reasoning)) || (!delta.contains_key("reasoning_content"@)
            && delta.contains_key("reasoning"@) && delta["reasoning"@] == JsonView::Text(
            reasoning,
        )),
    ensures
        pieces(
            ActiveChatCompletionItem::Reasoning,
            stream_step(state, SseInputView::Data(data)).events,
        ) == reasoning,
{
    law_step_pieces(ActiveChatCompletionItem::Reasoning, state, SseInputView::Data(data));
}

/// What a step adds to what is known of a call: the first id and the first name stay,
/// and the arguments grow by those of its own pieces.
pub open spec fn call_grows(
    before: Map<usize, ToolCallView>,
    after: Map<usize, ToolCallView>,
    index: usize,
    own: Seq<JsonView>,
) -> bool {
    &&& after.contains_key(index) <==> before.contains_key(index) || own.len() > 0
    &&& before.contains_key(index) ==> {
        &&& after[index].id == if before[index].id is Some {
            before[index].id
        } else {
            first_id(own)
        }
        &&& after[index].name == if before[index].name is Some {
            before[index].name
        } else {
            first_name(own)
        }
        &&& after[index].arguments == before[index].arguments + all_arguments(own)
    }
    &&& !before.contains_key(index) && own.len() > 0 ==> {
        &&& after[index].id == first_id(own)
        &&& after[index].name == first_name(own)
        &&& after[index].arguments == all_arguments(own)
    }
}

proof fn lemma_calls_grow(
    calls: Map<usize, ToolCallView>,
    call_pieces: Seq<JsonView>,
    index: usize,
)
    ensures
        call_grows(
            calls,
            with_tool_call_deltas(calls, call_pieces),
            index,
            own_pieces(call_pieces, index),
        ),
    decreases call_pieces.len(),
{
    let own = own_pieces(call_pieces, index);
    let after = with_tool_call_deltas(calls, call_pieces);
    if call_pieces.len() == 0 {
        if calls.contains_key(index) {
            assert(calls[index].arguments + all_arguments(own) =~= calls[index].arguments);
        }
    } else {
        let rest = call_pieces.drop_last();
        let piece = call_pieces.last();
        lemma_calls_grow(calls, rest, index);
        let before = own_pieces(rest, index);
        assert(tool_call_index(piece) == piece_index(piece));
        assert(before.push(piece).drop_last() =~= before);
        if piece_index(piece) == index {
            if calls.contains_key(index) {
                assert(after[index].arguments =~= calls[index].arguments + all_arguments(own));
            } else {
                if before.len() == 0 {
                    assert(all_arguments(before) =~= Seq::empty());
                }
                assert(after[index].arguments =~= all_arguments(own));
            }
        }
    }
}

/// The elements of the array in `choices[0].delta.tool_calls` are taken in, each of
/// them and in order, whatever else the delta holds: every call grows by its own,
/// unless the step ends the stream and hands the calls on.
pub proof fn law_tool_call_pieces_are_taken_in(
    state: StreamState,
    data: Seq<char>,
    delta: Map<Seq<char>, JsonView>,
    call_pieces: Seq<JsonView>,
    index: usize,
)
    requires
        is_chunk_with(data, delta),
        delta.contains_key("tool_calls"@),
        delta["tool_calls"@] == JsonView::Array(call_pieces),
        stream_step(state, SseInputView::Data(data)).outcome is Continue,
    ensures
        call_grows(
            state.tool_calls,
            stream_step(state, SseInputView::Data(data)).state.tool_calls,
            index,
            own_pieces(call_pieces, index),
        ),
{
    lemma_calls_grow(state.tool_calls, call_pieces, index);
}

/// A delta without an array in `tool_calls` leaves every call as it is.
pub proof fn law_no_tool_call_pieces(
    state: StreamState,
    data: Seq<char>,
    delta: Map<Seq<char>, JsonView>,
)
    requires
        is_chunk_with(data, delta),
        !delta.contains_key("tool_calls"@) || !(delta["tool_calls"@] is Array),
        stream_step(state, SseInputView::Data(data)).outcome is Continue,
    ensures
        stream_step(state, SseInputView::Data(data)).state.tool_calls == state.tool_calls,
{
}

/// What every input leads to: an error for a failure and for silence, with no event
/// and the state as it was; the end for each of the ends and where nobody listens;
/// and everything else goes on.
pub proof fn law_outcomes(state: StreamState, input: SseInputView)
    ensures
        ({
            let step = stream_step(state, input);
            &&& step.outcome is Finished <==> is_end(input) || input is ConsumerDropped
            &&& step.outcome is Failed <==> input is Failed || input is TimedOut
            &&& input matches SseInputView::Failed(message) ==> step == (StepView {
                state,
                events: Seq::empty(),
                outcome: StreamOutcomeView::Failed(CodexErrView::Stream(message)),
            })
            &&& input is TimedOut ==> step == (StepView {
                state,
                events: Seq::empty(),
                outcome: StreamOutcomeView::Failed(
                    CodexErrView::Stream("idle timeout waiting for chat completions SSE"@),
                ),
            })
            &&& input is ConsumerDropped ==> step.events.len() == 0
        }),
{
}

/// The pieces that an input brings, reasoning before text.
pub open spec fn received(input: SseInputView) -> Seq<Piece> {
    let reasoning = input_piece(ActiveChatCompletionItem::Reasoning, input);
    let text = input_piece(ActiveChatCompletionItem::Message, input);
    let first = if reasoning.len() > 0 {
        seq![(ActiveChatCompletionItem::Reasoning, reasoning)]
    } else {
        Seq::empty()
    };
    if text.len() > 0 {
        first.push((ActiveChatCompletionItem::Message, text))
    } else {
        first
    }
}

/// The pieces that inputs bring, in order.
pub open spec fn all_received(inputs: Seq<SseInputView>) -> Seq<Piece>
    decreases inputs.len(),
{
    if inputs.len() == 0 {
        Seq::empty()
    } else {
        all_received(inputs.drop_last()) + received(inputs.last())
    }
}

/// The pieces that events send on, in order.
pub open spec fn sent(events: Seq<ResponseEventView>) -> Seq<Piece>
    decreases events.len(),
{
    if events.len() == 0 {
        Seq::empty()
    } else {
        let before = sent(events.drop_last());
        match events.last() {
            ResponseEventView::ReasoningSummaryDelta { delta, .. } => before.push(
                (ActiveChatCompletionItem::Reasoning, delta),
            ),
            ResponseEventView::OutputTextDelta(delta) => before.push(
                (ActiveChatCompletionItem::Message, delta),
            ),
            _ => before,
        }
    }
}

/// Pieces with those of the same kind that follow each other put together.
pub open spec fn grouped(all: Seq<Piece>) -> Seq<Piece>
    decreases all.len(),
{
    if all.len() == 0 {
        Seq::empty()
    } else {
        let before = grouped(all.drop_last());
        let (kind, text) = all.last();
        if before.len() > 0 && before.last().0 == kind {
            before.drop_last().push((kind, before.last().1 + text))
        } else {
            before.push((kind, text))
        }
    }
}

/// The item of a piece that is finished, by all that it holds.
pub open spec fn finished_item(piece: Piece) -> ResponseItemView {
    match piece.0 {
        ActiveChatCompletionItem::Reasoning => shown_reasoning(seq![piece.1]),
        ActiveChatCompletionItem::Message => shown_message(
            seq![ContentItemView::OutputText { text: piece.1 }],
        ),
    }
}

/// The items that events finish, other than tool calls.
pub open spec fn finished_items(events: Seq<ResponseEventView>) -> Seq<ResponseItemView>
    decreases events.len(),
{
    if events.len() == 0 {
        Seq::empty()
    } else {
        let before = finished_items(events.drop_last());
        match events.last() {
            ResponseEventView::OutputItemDone(item) => if item is FunctionCall {
                before
            } else {
                before.push(item)
            },
            _ => before,
        }
    }
}

/// The items that events announce.
pub open spec fn announced_items(events: Seq<ResponseEventView>) -> Seq<ResponseItemView>
    decreases events.len(),
{
    if events.len() == 0 {
        Seq::empty()
    } else {
        let before = announced_items(events.drop_last());
        match events.last() {
            ResponseEventView::OutputItemAdded(item) => before.push(item),
            _ => before,
        }
    }
}

/// The finished items of pieces.
pub open spec fn items_of(all: Seq<Piece>) -> Seq<ResponseItemView> {
    Seq::new(all.len(), |i: int| finished_item(all[i]))
}

/// The announcements of the items of pieces.
pub open spec fn announcements_of(all: Seq<Piece>) -> Seq<ResponseItemView> {
    Seq::new(
        all.len(),
        |i: int|
            match all[i].0 {
                ActiveChatCompletionItem::Reasoning => shown_reasoning(Seq::empty()),
                ActiveChatCompletionItem::Message => shown_message(Seq::empty()),
            },
    )
}

/// What a state holds of the item that is open.
pub open spec fn held(state: StreamState) -> Seq<Piece> {
    match state.active_item {
        Some(ActiveChatCompletionItem::Reasoning) => seq![
            (ActiveChatCompletionItem::Reasoning, state.reasoning),
        ],
        Some(ActiveChatCompletionItem::Message) => seq![
            (ActiveChatCompletionItem::Message, state.text),
        ],
        None => Seq::empty(),
    }
}

proof fn lemma_push(events: Seq<ResponseEventView>, event: ResponseEventView)
    ensures
        sent(events.push(event)) == (match event {
            ResponseEventView::ReasoningSummaryDelta { delta, .. } => sent(events).push(
                (ActiveChatCompletionItem::Reasoning, delta),
            ),
            ResponseEventView::OutputTextDelta(delta) => sent(events).push(
                (ActiveChatCompletionItem::Message, delta),
            ),
            _ => sent(events),
        }),
        finished_items(events.push(event)) == (match event {
            ResponseEventView::OutputItemDone(item) => if item is FunctionCall {
                finished_items(events)
            } else {
                finished_items(events).push(item)
            },
            _ => finished_items(events),
        }),
        announced_items(events.push(event)) == (match event {
            ResponseEventView::OutputItemAdded(item) => announced_items(events).push(item),
            _ => announced_items(events),
        }),
{
    assert(events.push(event).drop_last() =~= events);
}

proof fn lemma_grouped_push(all: Seq<Piece>, piece: Piece)
    ensures
        grouped(all.push(piece)) == if grouped(all).len() > 0 && grouped(all).last().0 == piece.0 {
            grouped(all).drop_last().push((piece.0, grouped(all).last().1 + piece.1))
        } else {
            grouped(all).push(piece)
        },
{
    assert(all.push(piece).drop_last() =~= all);
}

/// The groups of what was sent are the finished items and the open one, which stays
/// open until a piece of the other kind comes.
spec fn in_groups(progress: Progress) -> bool {
    let groups = grouped(sent(progress.events));
    let open = held(progress.state);
    &&& progress.state.well_formed()
    &&& groups.len() >= open.len()
    &&& open.len() == 0 ==> groups.len() == 0
    &&& open.len() > 0 ==> groups.last() == open[0]
    &&& finished_items(progress.events) == items_of(groups.take(groups.len() - open.len()))
    &&& announced_items(progress.events) == announcements_of(groups)
}

proof fn lemma_add_piece(progress: Progress, kind: ActiveChatCompletionItem, piece: Seq<char>)
    requires
        in_groups(progress),
        piece.len() > 0,
    ensures
        kind is Reasoning ==> {
            &&& in_groups(progress.add_reasoning(piece))
            &&& sent(progress.add_reasoning(piece).events) == sent(progress.events).push(
                (kind, piece),
            )
        },
        kind is Message ==> {
            &&& in_groups(progress.add_text(piece))
            &&& sent(progress.add_text(piece).events) == sent(progress.events).push((kind, piece))
        },
{
    let groups = grouped(sent(progress.events));
    let open = held(progress.state);
    let finished = progress.finish_active();
    let started = progress.start(kind);
    let added = match kind {
        ActiveChatCompletionItem::Reasoning => progress.add_reasoning(piece),
        ActiveChatCompletionItem::Message => progress.add_text(piece),
    };
    lemma_grouped_push(sent(progress.events), (kind, piece));
    lemma_push(progress.events, finished.events.last());
    lemma_push(finished.events, started.events.last());
    lemma_push(started.events, added.events.last());
    if progress.state.active_item == Some(kind) {
        assert(added.events =~= progress.events.push(added.events.last()));
    } else {
        if progress.state.active_item is Some {
            assert(finished.events =~= progress.events.push(finished.events.last()));
        } else {
            assert(finished.events =~= progress.events);
        }
        assert(started.events =~= finished.events.push(started.events.last()));
        assert(added.events =~= started.events.push(added.events.last()));
    }
    let now = grouped(sent(added.events));
    assert(held(added.state).len() == 1);
    if progress.state.active_item == Some(kind) {
        assert(now.take(now.len() - 1) =~= groups.take(groups.len() - 1));
        assert(announcements_of(now) =~= announcements_of(groups));
        assert(now.last() == held(added.state)[0]);
    } else {
        assert(now =~= groups.push((kind, piece)));
        assert(now.take(now.len() - 1) =~= groups);
        if progress.state.active_item is Some {
            assert(items_of(groups) =~= items_of(groups.take(groups.len() - 1)).push(
                finished_item(groups.last()),
            ));
        } else {
            assert(groups.take(groups.len() as int) =~= groups);
        }
        assert(finished_items(added.events) =~= items_of(now.take(now.len() - 1)));
        assert(announcements_of(now) =~= announcements_of(groups).push(
            announcements_of(now).last(),
        ));
        assert(announced_items(added.events) =~= announcements_of(now));
        assert(held(added.state)[0].1 =~= piece);
    }
}

proof fn lemma_add_choice(progress: Progress, choice: JsonView)
    requires
        in_groups(progress),
    ensures
        in_groups(progress.add_choice(choice)),
{
    if let Some(delta) = choice.member("delta"@) {
        let reasoned = match reasoning_delta(delta) {
            Some(piece) => progress.add_reasoning(piece),
            None => progress,
        };
        if let Some(piece) = reasoning_delta(delta) {
            lemma_add_piece(progress, ActiveChatCompletionItem::Reasoning, piece);
        }
        if let Some(piece) = text_delta(delta) {
            lemma_add_piece(reasoned, ActiveChatCompletionItem::Message, piece);
        }
    }
}

proof fn lemma_calls_push_nothing(
    events: Seq<ResponseEventView>,
    calls: Map<usize, ToolCallView>,
    bound: nat,
)
    ensures
        sent(events + tool_calls_done(calls, bound)) == sent(events),
        finished_items(events + tool_calls_done(calls, bound)) == finished_items(events),
        announced_items(events + tool_calls_done(calls, bound)) == announced_items(events),
    decreases bound,
{
    if bound == 0 {
        assert(events + tool_calls_done(calls, bound) =~= events);
    } else {
        let before = tool_calls_done(calls, (bound - 1) as nat);
        let done = tool_calls_done(calls, bound);
        lemma_calls_push_nothing(events, calls, (bound - 1) as nat);
        if done.len() > before.len() {
            lemma_push(events + before, done.last());
            assert(events + done =~= (events + before).push(done.last()));
        }
    }
}

proof fn lemma_complete(progress: Progress)
    requires
        in_groups(progress),
    ensures
        sent(progress.complete().events) == sent(progress.events),
        finished_items(progress.complete().events) == items_of(
            grouped(sent(progress.events)),
        ),
        announced_items(progress.complete().events) == announcements_of(
            grouped(sent(progress.events)),
        ),
{
    let groups = grouped(sent(progress.events));
    let finished = progress.finish_active();
    lemma_push(progress.events, finished.events.last());
    if progress.state.active_item is Some {
        assert(finished.events =~= progress.events.push(finished.events.last()));
        assert(items_of(groups) =~= items_of(groups.take(groups.len() - 1)).push(
            finished_item(groups.last()),
        ));
    } else {
        assert(finished.events =~= progress.events);
        assert(groups.take(groups.len() as int) =~= groups);
    }
    lemma_calls_push_nothing(
        finished.events,
        finished.state.tool_calls,
        usize::MAX as nat + 1,
    );
    lemma_push(
        finished.events + all_tool_calls_done(finished.state.tool_calls),
        the_end(),
    );
}

/// What progress does to events is to add to them.
proof fn lemma_prefix(prefix: Seq<ResponseEventView>, progress: Progress, choice: JsonView)
    ensures
        ({
            let longer = Progress { state: progress.state, events: prefix + progress.events };
            &&& longer.add_choice(choice).state == progress.add_choice(choice).state
            &&& longer.add_choice(choice).events == prefix + progress.add_choice(choice).events
            &&& longer.complete().state == progress.complete().state
            &&& longer.complete().events == prefix + progress.complete().events
        }),
{
    let longer = Progress { state: progress.state, events: prefix + progress.events };
    if let Some(delta) = choice.member("delta"@) {
        let reasoned = match reasoning_delta(delta) {
            Some(piece) => progress.add_reasoning(piece),
            None => progress,
        };
        let longer_reasoned = match reasoning_delta(delta) {
            Some(piece) => longer.add_reasoning(piece),
            None => longer,
        };
        assert(longer_reasoned.events =~= prefix + reasoned.events);
        if let Some(piece) = text_delta(delta) {
            assert(longer_reasoned.add_text(piece).events =~= prefix + reasoned.add_text(
                piece,
            ).events);
        }
        assert(longer.add_choice(choice).events =~= prefix + progress.add_choice(choice).events);
    }
    assert(longer.finish_active().events =~= prefix + progress.finish_active().events);
    assert(longer.complete().events =~= prefix + progress.complete().events);
}

proof fn lemma_run_in_groups(inputs: Seq<SseInputView>)
    requires
        all_taken(StreamState::initial(), inputs),
    ensures
        ({
            let done = run(StreamState::initial(), inputs);
            let groups = grouped(sent(done.events));
            &&& done.outcome is Continue ==> in_groups(
                Progress { state: done.state, events: done.events },
            )
            &&& done.outcome is Finished && !(inputs.last() is ConsumerDropped) ==> {
                &&& finished_items(done.events) == items_of(groups)
                &&& announced_items(done.events) == announcements_of(groups)
            }
        }),
    decreases inputs.len(),
{
    let start = StreamState::initial();
    if inputs.len() == 0 {
        let quiet = Progress { state: start, events: Seq::empty() };
        assert(finished_items(quiet.events) =~= items_of(Seq::<Piece>::empty().take(0)));
        assert(announced_items(quiet.events) =~= announcements_of(Seq::empty()));
        assert(in_groups(quiet));
    } else {
        let rest = inputs.drop_last();
        let before = run(start, rest);
        lemma_run_in_groups(rest);
        let reached = Progress { state: before.state, events: before.events };
        let quiet = Progress { state: before.state, events: Seq::empty() };
        assert(before.events + quiet.events =~= before.events);
        assert((Progress { state: before.state, events: before.events + quiet.events })
            == reached);
        lemma_prefix(before.events, quiet, JsonView::Null);
        lemma_complete(reached);
        if let Some(choice) = input_choice(inputs.last()) {
            let added = quiet.add_choice(choice);
            lemma_prefix(before.events, quiet, choice);
            lemma_add_choice(reached, choice);
            lemma_complete(reached.add_choice(choice));
            lemma_prefix(before.events, added, choice);
        }
    }
}

proof fn lemma_sent_concat(first: Seq<ResponseEventView>, second: Seq<ResponseEventView>)
    ensures
        sent(first + second) == sent(first) + sent(second),
    decreases second.len(),
{
    if second.len() == 0 {
        assert(first + second =~= first);
        assert(sent(first) + sent(second) =~= sent(first));
    } else {
        lemma_sent_concat(first, second.drop_last());
        assert((first + second).drop_last() =~= first + second.drop_last());
        assert((first + second).last() == second.last());
        assert(sent(first + second) =~= sent(first) + sent(second));
    }
}

proof fn lemma_started_sends_nothing(progress: Progress, kind: ActiveChatCompletionItem)
    ensures
        sent(progress.finish_active().events) == sent(progress.events),
        sent(progress.start(kind).events) == sent(progress.events),
{
    let finished = progress.finish_active();
    let started = progress.start(kind);
    lemma_push(progress.events, finished.events.last());
    lemma_push(finished.events, started.events.last());
    if finished.events.len() > progress.events.len() {
        assert(finished.events =~= progress.events.push(finished.events.last()));
    }
    if progress.state.active_item != Some(kind) {
        assert(started.events =~= finished.events.push(started.events.last()));
    }
}

proof fn lemma_completed_sends_nothing(progress: Progress)
    ensures
        sent(progress.complete().events) == sent(progress.events),
{
    let finished = progress.finish_active();
    lemma_started_sends_nothing(progress, ActiveChatCompletionItem::Message);
    lemma_calls_push_nothing(
        finished.events,
        finished.state.tool_calls,
        usize::MAX as nat + 1,
    );
    lemma_push(finished.events + all_tool_calls_done(finished.state.tool_calls), the_end());
}

/// Every piece that an input brings is sent on as one event of its kind, reasoning
/// before text, and nothing else is.
pub proof fn law_step_sends_what_it_receives(state: StreamState, input: SseInputView)
    ensures
        sent(stream_step(state, input).events) == received(input),
{
    let quiet = Progress { state, events: Seq::empty() };
    lemma_completed_sends_nothing(quiet);
    if let Some(choice) = input_choice(input) {
        if let Some(delta) = input_delta(input) {
            let reasoned = match reasoning_delta(delta) {
                Some(piece) => quiet.add_reasoning(piece),
                None => quiet,
            };
            if let Some(piece) = reasoning_delta(delta) {
                let started = quiet.start(ActiveChatCompletionItem::Reasoning);
                lemma_started_sends_nothing(quiet, ActiveChatCompletionItem::Reasoning);
                lemma_push(
                    started.events,
                    ResponseEventView::ReasoningSummaryDelta { delta: piece, summary_index: 0 },
                );
            }
            if let Some(piece) = text_delta(delta) {
                let started = reasoned.start(ActiveChatCompletionItem::Message);
                lemma_started_sends_nothing(reasoned, ActiveChatCompletionItem::Message);
                lemma_push(started.events, ResponseEventView::OutputTextDelta(piece));
            }
        }
        lemma_completed_sends_nothing(quiet.add_choice(choice));
    }
    assert(sent(stream_step(state, input).events) =~= received(input));
}

/// A stream sends on every piece that it receives as one event of its kind, in the
/// order of arrival, and nothing else.
pub proof fn law_run_sends_what_it_receives(state: StreamState, inputs: Seq<SseInputView>)
    requires
        all_taken(state, inputs),
    ensures
        sent(run(state, inputs).events) == all_received(inputs),
    decreases inputs.len(),
{
    if inputs.len() > 0 {
        let before = run(state, inputs.drop_last());
        law_run_sends_what_it_receives(state, inputs.drop_last());
        law_step_sends_what_it_receives(before.state, inputs.last());
        lemma_sent_concat(before.events, stream_step(before.state, inputs.last()).events);
    }
}

/// The items of a stream are its pieces, with those of one kind that follow each
/// other put together. Each is announced once. While the stream goes on, all but the
/// last are finished, and the state holds the last; once it has come to its end, all
/// are finished.
pub proof fn law_items_are_grouped_pieces(inputs: Seq<SseInputView>)
    requires
        all_taken(StreamState::initial(), inputs),
    ensures
        ({
            let done = run(StreamState::initial(), inputs);
            let groups = grouped(all_received(inputs));
            &&& done.outcome is Continue ==> {
                &&& announced_items(done.events) == announcements_of(groups)
                &&& groups.len() == 0 ==> {
                    &&& done.state.active_item is None
                    &&& finished_items(done.events).len() == 0
                }
                &&& groups.len() > 0 ==> {
                    &&& held(done.state) == seq![groups.last()]
                    &&& finished_items(done.events) == items_of(groups.drop_last())
                }
            }
            &&& done.outcome is Finished && !(inputs.last() is ConsumerDropped) ==> {
                &&& announced_items(done.events) == announcements_of(groups)
                &&& finished_items(done.events) == items_of(groups)
            }
        }),
{
    lemma_run_in_groups(inputs);
    law_run_sends_what_it_receives(StreamState::initial(), inputs);
    let done = run(StreamState::initial(), inputs);
    let groups = grouped(all_received(inputs));
    if done.outcome is Continue && groups.len() > 0 {
        assert(held(done.state) =~= seq![groups.last()]);
        assert(groups.take(groups.len() - 1) =~= groups.drop_last());
    }
}

/// The indexes below `bound` that pieces belong to, ascending.
pub open spec fn piece_indexes(call_pieces: Seq<JsonView>, bound: nat) -> Seq<usize>
    decreases bound,
{
    if bound == 0 {
        Seq::empty()
    } else {
        let before = piece_indexes(call_pieces, (bound - 1) as nat);
        if bound - 1 <= usize::MAX && own_pieces(call_pieces, (bound - 1) as usize).len() > 0 {
            before.push((bound - 1) as usize)
        } else {
            before
        }
    }
}

proof fn lemma_piece_indexes(call_pieces: Seq<JsonView>, bound: nat)
    ensures
        ascending(piece_indexes(call_pieces, bound)),
        forall|k: usize| #[trigger]
            piece_indexes(call_pieces, bound).contains(k) <==> own_pieces(call_pieces, k).len() > 0
                && k < bound,
    decreases bound,
{
    if bound > 0 {
        lemma_piece_indexes(call_pieces, (bound - 1) as nat);
        let indexes = piece_indexes(call_pieces, bound);
        let before = piece_indexes(call_pieces, (bound - 1) as nat);
        assert forall|i: int| 0 <= i < before.len() implies #[trigger] before[i] < bound - 1 by {
            assert(before.contains(before[i]));
        }
        assert forall|k: usize| #[trigger] indexes.contains(k) <==> own_pieces(
            call_pieces,
            k,
        ).len() > 0 && k < bound by {
            if indexes.contains(k) {
                let i = indexes.index_of(k);
                if i < before.len() {
                    assert(before[i] == k);
                    assert(before.contains(k));
                }
            }
            if own_pieces(call_pieces, k).len() > 0 && k < bound {
                if k == bound - 1 {
                    assert(indexes[before.len() as int] == k);
                } else {
                    assert(before.contains(k));
                    let i = before.index_of(k);
                    assert(indexes[i] == k);
                }
            }
        }
    }
}

/// The event that hands on the call that pieces make up, by all that it holds: the
/// first id, the first name and all the arguments of its pieces, empty where the
/// pieces give none.
pub open spec fn call_handed_on(own: Seq<JsonView>) -> ResponseEventView {
    ResponseEventView::OutputItemDone(
        ResponseItemView::FunctionCall {
            id: None,
            name: or_empty(first_name(own)),
            namespace: None,
            arguments: all_arguments(own),
            call_id: or_empty(first_id(own)),
        },
    )
}

/// A stream that comes to its end hands on one call for every index that a received
/// piece belongs to, in ascending order of the indexes, and each is made up of its
/// own pieces. No call is handed on before.
pub proof fn law_calls_are_handed_on(inputs: Seq<SseInputView>)
    requires
        all_taken(StreamState::initial(), inputs),
    ensures
        ({
            let done = run(StreamState::initial(), inputs);
            let arrived = received_call_pieces(inputs);
            let indexes = piece_indexes(arrived, usize::MAX as nat + 1);
            let handed_on = tool_call_events(done.events);
            &&& ascending(indexes)
            &&& forall|k: usize| #[trigger]
                indexes.contains(k) <==> own_pieces(arrived, k).len() > 0
            &&& done.outcome is Continue ==> handed_on.len() == 0
            &&& done.outcome is Finished && !(inputs.last() is ConsumerDropped) ==> {
                &&& handed_on.len() == indexes.len()
                &&& forall|i: int|
                    0 <= i < indexes.len() ==> #[trigger] handed_on[i] == call_handed_on(
                        own_pieces(arrived, indexes[i]),
                    )
            }
        }),
{
    let done = run(StreamState::initial(), inputs);
    let arrived = received_call_pieces(inputs);
    let bound = usize::MAX as nat + 1;
    let indexes = piece_indexes(arrived, bound);
    let calls = with_tool_call_deltas(Map::empty(), arrived);
    law_run_tool_calls(inputs);
    lemma_piece_indexes(arrived, bound);
    assert forall|k: usize| indexes.contains(k) <==> calls.contains_key(k) && k < bound by {
        law_tool_calls_assembled(arrived, k);
    }
    lemma_ascending_calls(calls, indexes, bound);
    assert forall|i: int| 0 <= i < indexes.len() implies #[trigger] all_tool_calls_done(calls)[i]
        == call_handed_on(own_pieces(arrived, indexes[i])) by {
        assert(indexes.contains(indexes[i]));
        law_tool_calls_assembled(arrived, indexes[i]);
    }
}

/// What finishing the open item does, whatever the state: no item is open, what is
/// held of it is handed on as one item where there is any, and all else stays.
pub proof fn law_open_item_is_finished(progress: Progress)
    ensures
        ({
            let finished = progress.finish_active();
            let open = held(progress.state);
            &&& finished.state.active_item is None
            &&& finished.state.tool_calls == progress.state.tool_calls
            &&& open.len() > 0 && open[0].1.len() > 0 ==> finished.events == progress.events.push(
                ResponseEventView::OutputItemDone(finished_item(open[0])),
            )
            &&& open.len() == 0 || open[0].1.len() == 0 ==> finished.events == progress.events
            &&& finished.state.text == if progress.state.active_item == Some(
                ActiveChatCompletionItem::Message,
            ) {
                Seq::empty()
            } else {
                progress.state.text
            }
            &&& finished.state.reasoning == if progress.state.active_item == Some(
                ActiveChatCompletionItem::Reasoning,
            ) {
                Seq::empty()
            } else {
                progress.state.reasoning
            }
        }),
{
    assert(progress.state.text.len() == 0 ==> progress.state.text =~= Seq::empty());
    assert(progress.state.reasoning.len() == 0 ==> progress.state.reasoning =~= Seq::empty());
}

/// What starting an item does, whatever the state: nothing where it is open, and
/// otherwise the open one is finished, and the new one is announced, empty, and open.
pub proof fn law_item_is_started(progress: Progress, kind: ActiveChatCompletionItem)
    ensures
        ({
            let started = progress.start(kind);
            let finished = progress.finish_active();
            &&& started.state.active_item == Some(kind)
            &&& progress.state.active_item == Some(kind) ==> started == progress
            &&& progress.state.active_item != Some(kind) ==> {
                &&& started.events == finished.events.push(
                    ResponseEventView::OutputItemAdded(
                        if kind is Reasoning {
                            shown_reasoning(Seq::empty())
                        } else {
                            shown_message(Seq::empty())
                        },
                    ),
                )
                &&& started.state.text == finished.state.text
                &&& started.state.reasoning == finished.state.reasoning
                &&& started.state.tool_calls == finished.state.tool_calls
            }
        }),
{
}

/// What the end does, whatever the state: the open item is finished, the calls are
/// handed on in ascending order of their indexes, the end is said, and nothing is
/// left.
pub proof fn law_everything_is_handed_on(progress: Progress, indexes: Seq<usize>)
    requires
        ascending(indexes),
        forall|k: usize| #[trigger]
            indexes.contains(k) <==> progress.state.tool_calls.contains_key(k),
    ensures
        ({
            let completed = progress.complete();
            let finished = progress.finish_active();
            let calls = progress.state.tool_calls;
            let handed_on = Seq::new(
                indexes.len(),
                |i: int|
                    ResponseEventView::OutputItemDone(
                        ResponseItemView::FunctionCall {
                            id: None,
                            name: or_empty(calls[indexes[i]].name),
                            namespace: None,
                            arguments: calls[indexes[i]].arguments,
                            call_id: or_empty(calls[indexes[i]].id),
                        },
                    ),
            );
            &&& completed.events == (finished.events + handed_on).push(the_end())
            &&& completed.state.active_item is None
            &&& completed.state.tool_calls == Map::<usize, ToolCallView>::empty()
            &&& completed.state.text == finished.state.text
            &&& completed.state.reasoning == finished.state.reasoning
        }),
{
    let calls = progress.state.tool_calls;
    let bound = usize::MAX as nat + 1;
    assert forall|k: usize| indexes.contains(k) <==> calls.contains_key(k) && k < bound by {}
    lemma_ascending_calls(calls, indexes, bound);
    let handed_on = Seq::new(
        indexes.len(),
        |i: int|
            ResponseEventView::OutputItemDone(
                ResponseItemView::FunctionCall {
                    id: None,
                    name: or_empty(calls[indexes[i]].name),
                    namespace: None,
                    arguments: calls[indexes[i]].arguments,
                    call_id: or_empty(calls[indexes[i]].id),
                },
            ),
    );
    assert(all_tool_calls_done(calls) =~= handed_on);
}

/// A stream starts with nothing: no text, no reasoning, no call and no open item.
pub proof fn law_streams_start_empty()
    ensures
        StreamState::initial().text.len() == 0,
        StreamState::initial().reasoning.len() == 0,
        StreamState::initial().tool_calls == Map::<usize, ToolCallView>::empty(),
        StreamState::initial().active_item is None,
{
}

} // verus!
