use nvidia_nim::chat_request::{
    append_chat_message_for_response_item, build_chat_completion_request, chat_completion_request_body,
    chat_completions_call, chat_role, content_items_to_text,
    create_tools_json_for_chat_completions_api, function_output_to_text, ChatMessage,
    ChatToolCall, ChatToolCallFunction,
};
use nvidia_nim::chat_stream::{ChatCompletionStream, SseInput};
use nvidia_nim::models::{nvidia_nim_model_info, ModelInfo};
use nvidia_nim::protocol::{
    ContentItem, FunctionCallOutputBody, Prompt, ResponseEvent, ResponseItem, ResponsesApiNamespace,
    ResponsesApiNamespaceTool, ResponsesApiTool, ToolSpec,
};
use serde_json::Value;

fn value(text: &str) -> Value {
    serde_json::from_str(text).unwrap()
}

fn model() -> ModelInfo {
    nvidia_nim_model_info("z-ai/glm-5.1", None, 0, "")
}

fn message(role: &str, content: Vec<ContentItem>) -> ResponseItem {
    ResponseItem::Message { id: None, role: role.to_string(), content, phase: None }
}

fn input(text: &str) -> ContentItem {
    ContentItem::InputText { text: text.to_string() }
}

fn image() -> ContentItem {
    ContentItem::InputImage { image_url: "data:,".to_string() }
}

fn said(role: &str, text: &str) -> ChatMessage {
    ChatMessage {
        role: role.to_string(),
        content: Some(text.to_string()),
        tool_call_id: None,
        tool_calls: None,
    }
}

fn called(call_id: &str, name: &str, arguments: &str) -> ChatMessage {
    ChatMessage {
        role: "assistant".to_string(),
        content: None,
        tool_call_id: None,
        tool_calls: Some(vec![ChatToolCall {
            id: call_id.to_string(),
            kind: "function",
            function: ChatToolCallFunction {
                name: name.to_string(),
                arguments: arguments.to_string(),
            },
        }]),
    }
}

fn answered(call_id: Option<&str>, text: &str) -> ChatMessage {
    ChatMessage {
        role: "tool".to_string(),
        content: Some(text.to_string()),
        tool_call_id: call_id.map(|id| id.to_string()),
        tool_calls: None,
    }
}

fn appended(item: ResponseItem) -> Vec<ChatMessage> {
    let mut messages = vec![said("user", "before")];
    append_chat_message_for_response_item(&mut messages, item);
    assert_eq!(messages.remove(0), said("user", "before"));
    messages
}

fn function(name: &str, strict: bool) -> ResponsesApiTool {
    ResponsesApiTool {
        name: name.to_string(),
        description: format!("does {name}"),
        strict,
        parameters: value("{\"type\":\"object\",\"properties\":{}}"),
    }
}

fn offered(name: &str, strict: bool) -> Value {
    value(&format!(
        "{{\"type\":\"function\",\"function\":{{\"name\":\"{name}\",\"description\":\"does {name}\",\"parameters\":{{\"type\":\"object\",\"properties\":{{}}}},\"strict\":{strict}}}}}"
    ))
}

#[test]
fn roles_are_mapped() {
    assert_eq!(chat_role("assistant"), "assistant");
    assert_eq!(chat_role("system"), "system");
    assert_eq!(chat_role("developer"), "system");
    assert_eq!(chat_role("user"), "user");
    assert_eq!(chat_role("Assistant"), "user");
    assert_eq!(chat_role(""), "user");
    for role in ["assistant", "system", "developer", "tool"] {
        assert_eq!(chat_role(chat_role(role)), chat_role(role));
    }
}

#[test]
fn texts_are_joined_by_lines_without_images() {
    assert_eq!(content_items_to_text(&[]), "");
    assert_eq!(content_items_to_text(&[image()]), "");
    assert_eq!(content_items_to_text(&[input("a")]), "a");
    let mixed = [
        input("a"),
        image(),
        ContentItem::OutputText { text: "b".to_string() },
        input(""),
        input("c"),
    ];
    assert_eq!(content_items_to_text(&mixed), "a\nb\n\nc");
}

#[test]
fn output_without_text_is_empty() {
    let text = FunctionCallOutputBody { text: Some("out".to_string()) };
    assert_eq!(function_output_to_text(&text), "out");
    assert_eq!(function_output_to_text(&FunctionCallOutputBody { text: None }), "");
}

#[test]
fn messages_keep_their_text_untrimmed() {
    assert_eq!(
        appended(message("developer", vec![input(" a "), input("b")])),
        vec![said("system", " a \nb")]
    );
}

#[test]
fn blank_messages_are_dropped() {
    assert_eq!(appended(message("user", vec![])), vec![]);
    assert_eq!(appended(message("user", vec![input(" \t"), input("\u{3000}")])), vec![]);
}

#[test]
fn tool_calls_become_assistant_messages() {
    assert_eq!(
        appended(ResponseItem::FunctionCall {
            id: Some("i".to_string()),
            name: "shell".to_string(),
            namespace: None,
            arguments: "{}".to_string(),
            call_id: "c1".to_string(),
        }),
        vec![called("c1", "shell", "{}")]
    );
    assert_eq!(
        appended(ResponseItem::CustomToolCall {
            name: "patch".to_string(),
            input: "raw".to_string(),
            call_id: "c2".to_string(),
        }),
        vec![called("c2", "patch", "raw")]
    );
}

#[test]
fn tool_outputs_become_tool_messages() {
    assert_eq!(
        appended(ResponseItem::FunctionCallOutput {
            call_id: "c1".to_string(),
            output: FunctionCallOutputBody { text: Some("done".to_string()) },
        }),
        vec![answered(Some("c1"), "done")]
    );
    assert_eq!(
        appended(ResponseItem::CustomToolCallOutput {
            call_id: "c2".to_string(),
            output: FunctionCallOutputBody { text: None },
        }),
        vec![answered(Some("c2"), "")]
    );
}

#[test]
fn tool_search_output_is_sent_as_json_text() {
    assert_eq!(
        appended(ResponseItem::ToolSearchOutput {
            call_id: None,
            status: "ok".to_string(),
            execution: "\"q\"".to_string(),
            tools: vec![value("{\"b\": 1, \"a\": [true, null]}"), value("-2.5")],
        }),
        vec![answered(
            None,
            "{\"execution\":\"\\\"q\\\"\",\"status\":\"ok\",\"tools\":[{\"a\":[true,null],\"b\":1},-2.5]}"
        )]
    );
}

#[test]
fn other_items_have_no_message() {
    let reasoning = ResponseItem::Reasoning {
        id: "r".to_string(),
        summary: vec![],
        content: None,
        encrypted_content: None,
    };
    assert_eq!(appended(reasoning), vec![]);
    for item in [
        ResponseItem::LocalShellCall,
        ResponseItem::ToolSearchCall,
        ResponseItem::WebSearchCall,
        ResponseItem::ImageGenerationCall,
        ResponseItem::Compaction,
        ResponseItem::CompactionTrigger,
        ResponseItem::ContextCompaction,
        ResponseItem::Other,
    ] {
        assert_eq!(appended(item), vec![]);
    }
}

#[test]
fn functions_are_offered_in_order_and_hosted_tools_are_not() {
    let tools = [
        ToolSpec::WebSearch,
        ToolSpec::Function(function("a", true)),
        ToolSpec::Freeform,
        ToolSpec::Namespace(ResponsesApiNamespace {
            name: "n".to_string(),
            description: "d".to_string(),
            tools: vec![
                ResponsesApiNamespaceTool::Function(function("b", false)),
                ResponsesApiNamespaceTool::Function(function("c", true)),
            ],
        }),
        ToolSpec::ToolSearch,
        ToolSpec::ImageGeneration,
        ToolSpec::Function(function("d", false)),
    ];
    let values = create_tools_json_for_chat_completions_api(&tools).unwrap();
    assert_eq!(
        values,
        vec![offered("a", true), offered("b", false), offered("c", true), offered("d", false)]
    );
}

#[test]
fn request_holds_instructions_messages_and_tools() {
    let prompt = Prompt {
        base_instructions: " Be brief.\n".to_string(),
        formatted_input: vec![
            message("user", vec![input("hi")]),
            ResponseItem::Other,
            message("assistant", vec![input("hello")]),
        ],
        tools: vec![ToolSpec::Function(function("a", true))],
    };
    let request = build_chat_completion_request(prompt, &model()).unwrap();
    assert_eq!(request.model, "z-ai/glm-5.1");
    assert_eq!(
        request.messages,
        vec![said("system", " Be brief.\n"), said("user", "hi"), said("assistant", "hello")]
    );
    assert!(request.stream);
    assert_eq!(request.tools, vec![offered("a", true)]);
    assert_eq!(request.tool_choice, Some("auto"));
}

#[test]
fn blank_instructions_and_missing_tools_are_left_out() {
    let prompt = Prompt {
        base_instructions: " \n".to_string(),
        formatted_input: vec![message("user", vec![input("hi")])],
        tools: vec![ToolSpec::WebSearch],
    };
    let request = build_chat_completion_request(prompt, &model()).unwrap();
    assert_eq!(request.messages, vec![said("user", "hi")]);
    assert_eq!(request.tools, Vec::<Value>::new());
    assert_eq!(request.tool_choice, None);
    assert_eq!(
        chat_completion_request_body(request),
        value("{\"model\":\"z-ai/glm-5.1\",\"messages\":[{\"role\":\"user\",\"content\":\"hi\"}],\"stream\":true}")
    );
}

#[test]
fn body_holds_every_part_that_a_message_has() {
    let prompt = Prompt {
        base_instructions: String::new(),
        formatted_input: vec![
            ResponseItem::CustomToolCall {
                name: "patch".to_string(),
                input: "raw".to_string(),
                call_id: "c".to_string(),
            },
            ResponseItem::CustomToolCallOutput {
                call_id: "c".to_string(),
                output: FunctionCallOutputBody { text: Some("ok".to_string()) },
            },
        ],
        tools: vec![ToolSpec::Function(function("a", false))],
    };
    let call = chat_completions_call(prompt, &model()).unwrap();
    assert_eq!(call.method, "POST");
    assert_eq!(call.path, "chat/completions");
    assert_eq!(call.accept, Some("text/event-stream"));
    let body = call.body.unwrap();
    assert_eq!(
        body["messages"],
        value("[{\"role\":\"assistant\",\"tool_calls\":[{\"id\":\"c\",\"type\":\"function\",\"function\":{\"name\":\"patch\",\"arguments\":\"raw\"}}]},{\"role\":\"tool\",\"content\":\"ok\",\"tool_call_id\":\"c\"}]")
    );
    assert_eq!(body["tools"], Value::Array(vec![offered("a", false)]));
    assert_eq!(body["tool_choice"], Value::String("auto".to_string()));
    assert_eq!(body["stream"], Value::Bool(true));
}

#[test]
fn streamed_items_can_be_sent_back() {
    let (mut stream, _) = ChatCompletionStream::new();
    let chunk = "{\"choices\":[{\"delta\":{\"reasoning\":\"r\",\"content\":\" hi\",\"tool_calls\":[{\"id\":\"c\",\"function\":{\"name\":\"f\",\"arguments\":\"{}\"}}]},\"finish_reason\":\"tool_calls\"}]}";
    let step = stream.process_chat_completion_sse(SseInput::Data(chunk.to_string()));
    let mut messages = vec![];
    for event in step.events {
        if let ResponseEvent::OutputItemDone(item) = event {
            append_chat_message_for_response_item(&mut messages, item);
        }
    }
    assert_eq!(messages, vec![said("assistant", " hi"), called("c", "f", "{}")]);
}

#[test]
fn a_longer_conversation_keeps_its_beginning() {
    let ask = || message("user", vec![input("one")]);
    let prompt = |formatted_input| Prompt {
        base_instructions: "Base".to_string(),
        formatted_input,
        tools: vec![],
    };
    let short = build_chat_completion_request(prompt(vec![ask()]), &model()).unwrap();
    let longer = prompt(vec![ask(), message("assistant", vec![input("two")])]);
    let long = build_chat_completion_request(longer, &model()).unwrap();
    assert_eq!(long.messages[..2], short.messages[..]);
    assert_eq!(long.messages[2], said("assistant", "two"));
}

#[test]
fn a_streamed_call_without_a_name_is_sent_back_with_empty_texts() {
    let (mut stream, _) = ChatCompletionStream::new();
    let chunk = "{\"choices\":[{\"delta\":{\"tool_calls\":[{}]},\"finish_reason\":\"stop\"}]}";
    let mut events = stream.process_chat_completion_sse(SseInput::Data(chunk.to_string())).events;
    let mut messages = vec![];
    if let ResponseEvent::OutputItemDone(item) = events.remove(0) {
        append_chat_message_for_response_item(&mut messages, item);
    }
    assert_eq!(messages, vec![called("", "", "")]);
}
