use nvidia_nim::chat_stream::{ChatCompletionStream, SseInput, StreamOutcome, StreamStep};
use nvidia_nim::protocol::{
    CodexErr, ContentItem, ReasoningItemReasoningSummary, ResponseEvent, ResponseItem,
};

fn started() -> ChatCompletionStream {
    let (stream, created) = ChatCompletionStream::new();
    assert_eq!(created, ResponseEvent::Created);
    stream
}

fn data(stream: &mut ChatCompletionStream, text: &str) -> StreamStep {
    stream.process_chat_completion_sse(SseInput::Data(text.to_string()))
}

fn chunk(delta: &str) -> String {
    format!("{{\"choices\":[{{\"delta\":{delta}}}]}}")
}

fn message_added() -> ResponseEvent {
    ResponseEvent::OutputItemAdded(ResponseItem::Message {
        id: Some("chatcmpl-message".to_string()),
        role: "assistant".to_string(),
        content: vec![],
        phase: None,
    })
}

fn message_done(text: &str) -> ResponseEvent {
    ResponseEvent::OutputItemDone(ResponseItem::Message {
        id: Some("chatcmpl-message".to_string()),
        role: "assistant".to_string(),
        content: vec![ContentItem::OutputText { text: text.to_string() }],
        phase: None,
    })
}

fn reasoning_added() -> ResponseEvent {
    ResponseEvent::OutputItemAdded(ResponseItem::Reasoning {
        id: "chatcmpl-reasoning".to_string(),
        summary: vec![],
        content: None,
        encrypted_content: None,
    })
}

fn reasoning_done(text: &str) -> ResponseEvent {
    ResponseEvent::OutputItemDone(ResponseItem::Reasoning {
        id: "chatcmpl-reasoning".to_string(),
        summary: vec![ReasoningItemReasoningSummary::SummaryText { text: text.to_string() }],
        content: None,
        encrypted_content: None,
    })
}

fn text_delta(text: &str) -> ResponseEvent {
    ResponseEvent::OutputTextDelta(text.to_string())
}

fn reasoning_delta(text: &str) -> ResponseEvent {
    ResponseEvent::ReasoningSummaryDelta { delta: text.to_string(), summary_index: 0 }
}

fn call_done(call_id: &str, name: &str, arguments: &str) -> ResponseEvent {
    ResponseEvent::OutputItemDone(ResponseItem::FunctionCall {
        id: None,
        name: name.to_string(),
        namespace: None,
        arguments: arguments.to_string(),
        call_id: call_id.to_string(),
    })
}

fn completed() -> ResponseEvent {
    ResponseEvent::Completed {
        response_id: String::new(),
        token_usage: None,
        end_turn: Some(true),
    }
}

fn going_on(events: Vec<ResponseEvent>) -> StreamStep {
    StreamStep { events, outcome: StreamOutcome::Continue }
}

fn finished(events: Vec<ResponseEvent>) -> StreamStep {
    StreamStep { events, outcome: StreamOutcome::Finished }
}

#[test]
fn text_is_streamed_and_closed_with_all_pieces() {
    let mut stream = started();
    assert_eq!(
        data(&mut stream, &chunk("{\"content\":\"Hel\"}")),
        going_on(vec![message_added(), text_delta("Hel")])
    );
    assert_eq!(
        data(&mut stream, &chunk("{\"content\":\"lo\"}")),
        going_on(vec![text_delta("lo")])
    );
    assert_eq!(
        data(&mut stream, "[DONE]"),
        finished(vec![message_done("Hello"), completed()])
    );
}

#[test]
fn thinking_comes_from_reasoning_content() {
    let mut stream = started();
    assert_eq!(
        data(&mut stream, &chunk("{\"reasoning_content\":\"hm\"}")),
        going_on(vec![reasoning_added(), reasoning_delta("hm")])
    );
    assert_eq!(
        data(&mut stream, &chunk("{\"content\":\"yes\"}")),
        going_on(vec![reasoning_done("hm"), message_added(), text_delta("yes")])
    );
    assert_eq!(
        data(&mut stream, &chunk("{\"reasoning\":\"but\"}")),
        going_on(vec![message_done("yes"), reasoning_added(), reasoning_delta("but")])
    );
    assert_eq!(
        stream.process_chat_completion_sse(SseInput::Ended),
        finished(vec![reasoning_done("but"), completed()])
    );
}

#[test]
fn reasoning_and_text_in_one_delta_keep_their_order() {
    let mut stream = started();
    assert_eq!(
        data(&mut stream, &chunk("{\"content\":\"b\",\"reasoning_content\":\"a\"}")),
        going_on(vec![
            reasoning_added(),
            reasoning_delta("a"),
            reasoning_done("a"),
            message_added(),
            text_delta("b"),
        ])
    );
}

#[test]
fn present_reasoning_content_hides_reasoning() {
    let mut stream = started();
    let null = chunk("{\"reasoning_content\":null,\"reasoning\":\"x\"}");
    assert_eq!(data(&mut stream, &null), going_on(vec![]));
    let empty = chunk("{\"reasoning_content\":\"\",\"reasoning\":\"x\"}");
    assert_eq!(data(&mut stream, &empty), going_on(vec![]));
}

#[test]
fn no_thinking_without_reasoning() {
    let mut stream = started();
    assert_eq!(
        data(&mut stream, &chunk("{\"role\":\"assistant\",\"content\":\"\"}")),
        going_on(vec![])
    );
    assert_eq!(
        data(&mut stream, &chunk("{\"content\":\"a\"}")),
        going_on(vec![message_added(), text_delta("a")])
    );
    assert_eq!(
        stream.process_chat_completion_sse(SseInput::Ended),
        finished(vec![message_done("a"), completed()])
    );
}

#[test]
fn tool_calls_are_assembled_and_ordered_by_index() {
    let mut stream = started();
    let later = chunk(
        "{\"tool_calls\":[{\"index\":7,\"id\":\"c7\",\"function\":{\"name\":\"late\",\"arguments\":\"{\"}}]}",
    );
    let earlier = chunk(
        "{\"tool_calls\":[{\"index\":2,\"id\":\"c2\",\"function\":{\"name\":\"early\"}},{\"index\":7,\"id\":\"other\",\"function\":{\"name\":\"other\",\"arguments\":\"}\"}}]}",
    );
    assert_eq!(data(&mut stream, &later), going_on(vec![]));
    assert_eq!(data(&mut stream, &earlier), going_on(vec![]));
    assert_eq!(
        data(&mut stream, "[DONE]"),
        finished(vec![call_done("c2", "early", ""), call_done("c7", "late", "{}"), completed()])
    );
}

#[test]
fn tool_call_without_a_usable_index_is_the_first() {
    let mut stream = started();
    let pieces = chunk(
        "{\"tool_calls\":[{\"id\":\"a\"},{\"index\":-1,\"function\":{\"arguments\":\"1\"}},{\"index\":\"3\",\"function\":{\"arguments\":\"2\"}},{\"index\":0.5,\"function\":{\"arguments\":\"3\"}},{\"index\":1,\"function\":{\"arguments\":\"z\"}}]}",
    );
    assert_eq!(data(&mut stream, &pieces), going_on(vec![]));
    assert_eq!(
        data(&mut stream, "[DONE]"),
        finished(vec![call_done("a", "", "123"), call_done("", "", "z"), completed()])
    );
}

#[test]
fn finish_reason_ends_the_stream_after_its_delta() {
    let mut stream = started();
    let last = "{\"choices\":[{\"delta\":{\"content\":\"x\"},\"finish_reason\":\"stop\"}]}";
    assert_eq!(
        data(&mut stream, last),
        finished(vec![message_added(), text_delta("x"), message_done("x"), completed()])
    );
}

#[test]
fn null_finish_reason_goes_on() {
    let mut stream = started();
    let next = "{\"choices\":[{\"delta\":{},\"finish_reason\":null}]}";
    assert_eq!(data(&mut stream, next), going_on(vec![]));
}

#[test]
fn finish_reason_without_delta_ends_the_stream() {
    let mut stream = started();
    let last = "{\"choices\":[{\"finish_reason\":\"stop\"}]}";
    assert_eq!(data(&mut stream, last), finished(vec![completed()]));
}

#[test]
fn unreadable_data_is_passed_over() {
    let mut stream = started();
    for text in ["", "not json", "[1]", "{\"choices\":[]}", "{\"choices\":{}}", "{\"choices\":3}"] {
        assert_eq!(data(&mut stream, text), going_on(vec![]));
    }
    assert_eq!(data(&mut stream, &chunk("3")), going_on(vec![]));
    assert_eq!(data(&mut stream, &chunk("{\"content\":3,\"tool_calls\":{}}")), going_on(vec![]));
}

#[test]
fn only_the_first_choice_counts() {
    let mut stream = started();
    let two = "{\"choices\":[{\"delta\":{\"content\":\"a\"}},{\"delta\":{\"content\":\"b\"}}]}";
    assert_eq!(data(&mut stream, two), going_on(vec![message_added(), text_delta("a")]));
}

#[test]
fn done_marker_may_have_white_space_around_it() {
    let mut stream = started();
    assert_eq!(data(&mut stream, " \u{2003}[DONE]\r\n"), finished(vec![completed()]));
}

#[test]
fn failures_are_reported_last() {
    let mut stream = started();
    data(&mut stream, &chunk("{\"content\":\"a\"}"));
    assert_eq!(
        stream.process_chat_completion_sse(SseInput::Failed("reset".to_string())),
        StreamStep {
            events: vec![],
            outcome: StreamOutcome::Failed(CodexErr::Stream("reset".to_string())),
        }
    );
    assert_eq!(
        started().process_chat_completion_sse(SseInput::TimedOut),
        StreamStep {
            events: vec![],
            outcome: StreamOutcome::Failed(CodexErr::Stream(
                "idle timeout waiting for chat completions SSE".to_string()
            )),
        }
    );
}

#[test]
fn a_dropped_consumer_hears_nothing() {
    let mut stream = started();
    data(&mut stream, &chunk("{\"content\":\"a\"}"));
    assert_eq!(
        stream.process_chat_completion_sse(SseInput::ConsumerDropped),
        finished(vec![])
    );
}

#[test]
fn chunks_can_be_given_as_values() {
    let mut stream = started();
    let value: serde_json::Value = serde_json::from_str(&chunk("{\"content\":\"v\"}")).unwrap();
    assert_eq!(stream.process_chunk(&value), going_on(vec![message_added(), text_delta("v")]));
}

#[test]
fn items_are_started_once_and_finished_only_with_text() {
    let mut stream = started();
    let mut events = vec![];
    stream.ensure_chat_reasoning_item_started(&mut events);
    stream.ensure_chat_reasoning_item_started(&mut events);
    assert_eq!(events, vec![reasoning_added()]);
    stream.ensure_chat_message_item_started(&mut events);
    stream.ensure_chat_message_item_started(&mut events);
    assert_eq!(events, vec![reasoning_added(), message_added()]);
    stream.finish_active_chat_completion_item(&mut events);
    stream.finish_active_chat_completion_item(&mut events);
    assert_eq!(events, vec![reasoning_added(), message_added()]);
    stream.emit_chat_completion_done(&mut events);
    assert_eq!(events, vec![reasoning_added(), message_added(), completed()]);
}

#[test]
fn everything_received_is_delivered_once() {
    let mut stream = started();
    let mut closed = String::new();
    let mut heard = String::new();
    let mut ends = 0;
    let inputs = [
        chunk("{\"content\":\"a\"}"),
        chunk("{\"reasoning\":\"r\"}"),
        "junk".to_string(),
        chunk("{\"content\":\"b\"}"),
        chunk("{\"content\":\"c\"}"),
        "[DONE]".to_string(),
    ];
    for input in inputs {
        for event in data(&mut stream, &input).events {
            match event {
                ResponseEvent::OutputTextDelta(piece) => heard.push_str(&piece),
                ResponseEvent::OutputItemDone(ResponseItem::Message { content, .. }) => {
                    for part in content {
                        if let ContentItem::OutputText { text } = part {
                            closed.push_str(&text);
                        }
                    }
                }
                ResponseEvent::Completed { .. } => ends += 1,
                _ => {}
            }
        }
    }
    assert_eq!(heard, "abc");
    assert_eq!(closed, "abc");
    assert_eq!(ends, 1);
}

#[test]
fn the_marker_ends_a_stream_as_its_closing_does() {
    let mut marked = started();
    let mut closed = started();
    let piece = chunk("{\"content\":\"a\",\"tool_calls\":[{\"id\":\"c\"}]}");
    assert_eq!(data(&mut marked, &piece), data(&mut closed, &piece));
    assert_eq!(
        data(&mut marked, "[DONE]"),
        closed.process_chat_completion_sse(SseInput::Ended)
    );
}

fn run(inputs: &[&str]) -> Vec<ResponseEvent> {
    let mut stream = started();
    let mut events = vec![];
    for input in inputs {
        let step = data(&mut stream, input);
        events.extend(step.events);
        if step.outcome != StreamOutcome::Continue {
            break;
        }
    }
    events
}

#[test]
fn data_that_is_passed_over_changes_no_event_of_a_stream() {
    let a = chunk("{\"content\":\"a\"}");
    let b = chunk("{\"reasoning\":\"b\"}");
    let plain = run(&[&a, &b, "[DONE]"]);
    assert_eq!(run(&["ping", &a, &b, "[DONE]"]), plain);
    assert_eq!(run(&[&a, "{\"choices\":[]}", &b, "", "[DONE]"]), plain);
    assert_eq!(run(&[&a, &b, "[DONE]", &a, "[DONE]"]), plain);
}

#[test]
fn ends_of_a_stream_are_alike() {
    let a = chunk("{\"content\":\"a\",\"tool_calls\":[{\"id\":\"c\"}]}");
    let marked = run(&[&a, "[DONE]"]);
    assert_eq!(run(&[&a, "{\"choices\":[{\"finish_reason\":\"stop\"}]}"]), marked);
    assert_eq!(
        run(&[&a, "{\"choices\":[{\"delta\":{\"content\":\"\"},\"finish_reason\":\"stop\"}]}"]),
        marked
    );
    let last = "{\"choices\":[{\"delta\":{\"content\":\"a\",\"tool_calls\":[{\"id\":\"c\"}]},\"finish_reason\":\"\"}]}";
    assert_eq!(run(&[last]), marked);
}
