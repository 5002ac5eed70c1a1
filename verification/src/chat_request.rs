//! Building the request of a chat completion from a prompt.

use vstd::prelude::*;
use crate::json::{
    json_array, json_bool, json_display, json_insert, json_members_new, json_object, json_string,
    json_to_string, json_view, json_views, JsonView,
};
use crate::models::ModelInfo;
use crate::protocol::{
    CodexErr, ContentItem, ContentItemView, FunctionCallOutputBody, Prompt, PromptView,
    ResponseItem, ResponseItemView, ResponsesApiNamespaceTool, ResponsesApiTool,
    ResponsesApiToolView, ToolSpec, ToolSpecView,
};
use crate::text::{blank, is_blank, joined, lemma_views_push, opt_view, same_text, views};

verus! {

/// The body of a chat-completions request.
#[derive(Debug, PartialEq)]
pub struct ChatCompletionRequest {
    pub model: String,
    pub messages: Vec<ChatMessage>,
    pub stream: bool,
    pub tools: Vec<serde_json::Value>,
    pub tool_choice: Option<&'static str>,
}

pub struct ChatCompletionRequestView {
    pub model: Seq<char>,
    pub messages: Seq<ChatMessageView>,
    pub stream: bool,
    pub tools: Seq<JsonView>,
    pub tool_choice: Option<Seq<char>>,
}

impl View for ChatCompletionRequest {
    type V = ChatCompletionRequestView;

    open spec fn view(&self) -> ChatCompletionRequestView {
        ChatCompletionRequestView {
            model: self.model@,
            messages: views(self.messages@),
            stream: self.stream,
            tools: json_views(self.tools@),
            tool_choice: opt_view(self.tool_choice),
        }
    }
}

/// One message of a request.
#[derive(Debug, PartialEq)]
pub struct ChatMessage {
    pub role: String,
    pub content: Option<String>,
    pub tool_call_id: Option<String>,
    pub tool_calls: Option<Vec<ChatToolCall>>,
}

pub struct ChatMessageView {
    pub role: Seq<char>,
    pub content: Option<Seq<char>>,
    pub tool_call_id: Option<Seq<char>>,
    pub tool_calls: Option<Seq<ChatToolCallView>>,
}

impl View for ChatMessage {
    type V = ChatMessageView;

    open spec fn view(&self) -> ChatMessageView {
        ChatMessageView {
            role: self.role@,
            content: opt_view(self.content),
            tool_call_id: opt_view(self.tool_call_id),
            tool_calls: match self.tool_calls {
                Some(calls) => Some(views(calls@)),
                None => None,
            },
        }
    }
}

/// A tool call that the assistant made. `kind` is sent as `type`.
#[derive(Debug, PartialEq)]
pub struct ChatToolCall {
    pub id: String,
    pub kind: &'static str,
    pub function: ChatToolCallFunction,
}

#[derive(Debug, PartialEq)]
pub struct ChatToolCallFunction {
    pub name: String,
    pub arguments: String,
}

pub struct ChatToolCallView {
    pub id: Seq<char>,
    pub kind: Seq<char>,
    pub name: Seq<char>,
    pub arguments: Seq<char>,
}

impl View for ChatToolCall {
    type V = ChatToolCallView;

    open spec fn view(&self) -> ChatToolCallView {
        ChatToolCallView {
            id: self.id@,
            kind: self.kind@,
            name: self.function.name@,
            arguments: self.function.arguments@,
        }
    }
}

/// The role that chat completions have for a role of the conversation.
pub open spec fn role_of(role: Seq<char>) -> Seq<char> {
    if role == "assistant"@ {
        "assistant"@
    } else if role == "system"@ || role == "developer"@ {
        "system"@
    } else {
        "user"@
    }
}

/// The text of a part of a message; an image has none.
pub open spec fn content_text(item: ContentItemView) -> Option<Seq<char>> {
    match item {
        ContentItemView::InputText { text } => Some(text),
        ContentItemView::OutputText { text } => Some(text),
        ContentItemView::InputImage { .. } => None,
    }
}

/// The texts of the parts of a message, in order.
pub open spec fn content_texts(content: Seq<ContentItemView>) -> Seq<Seq<char>>
    decreases content.len(),
{
    if content.len() == 0 {
        Seq::empty()
    } else {
        let before = content_texts(content.drop_last());
        match content_text(content.last()) {
            Some(text) => before.push(text),
            None => before,
        }
    }
}

/// The text of a message: its texts, one per line.
pub open spec fn message_text(content: Seq<ContentItemView>) -> Seq<char> {
    joined(content_texts(content), "\n"@)
}

/// A message that is nothing but text.
pub open spec fn text_message(role: Seq<char>, text: Seq<char>) -> ChatMessageView {
    ChatMessageView { role, content: Some(text), tool_call_id: None, tool_calls: None }
}

/// The message with which the assistant makes one tool call.
pub open spec fn tool_call_message(
    name: Seq<char>,
    arguments: Seq<char>,
    call_id: Seq<char>,
) -> ChatMessageView {
    ChatMessageView {
        role: "assistant"@,
        content: None,
        tool_call_id: None,
        tool_calls: Some(
            seq![ChatToolCallView { id: call_id, kind: "function"@, name, arguments }],
        ),
    }
}

/// The message with which a tool answers.
pub open spec fn tool_message(call_id: Option<Seq<char>>, text: Seq<char>) -> ChatMessageView {
    ChatMessageView {
        role: "tool"@,
        content: Some(text),
        tool_call_id: call_id,
        tool_calls: None,
    }
}

/// The text of a tool's output, empty where it has none.
pub open spec fn output_text(output: Option<Seq<char>>) -> Seq<char> {
    match output {
        Some(text) => text,
        None => Seq::empty(),
    }
}

/// What a tool search found, as JSON.
pub open spec fn tool_search_json(
    status: Seq<char>,
    execution: Seq<char>,
    tools: Seq<JsonView>,
) -> JsonView {
    JsonView::Object(
        map![
            "status"@ => JsonView::Text(status),
            "execution"@ => JsonView::Text(execution),
            "tools"@ => JsonView::Array(tools),
        ],
    )
}

/// The message for an item of the conversation, for those that have one.
pub open spec fn message_of(item: ResponseItemView) -> Option<ChatMessageView> {
    match item {
        ResponseItemView::Message { role, content, .. } => if blank(message_text(content)) {
            None
        } else {
            Some(text_message(role_of(role), message_text(content)))
        },
        ResponseItemView::FunctionCall { name, arguments, call_id, .. } => Some(
            tool_call_message(name, arguments, call_id),
        ),
        ResponseItemView::CustomToolCall { name, input, call_id } => Some(
            tool_call_message(name, input, call_id),
        ),
        ResponseItemView::FunctionCallOutput { call_id, output } => Some(
            tool_message(Some(call_id), output_text(output)),
        ),
        ResponseItemView::CustomToolCallOutput { call_id, output } => Some(
            tool_message(Some(call_id), output_text(output)),
        ),
        ResponseItemView::ToolSearchOutput { call_id, status, execution, tools } => Some(
            tool_message(call_id, json_display(tool_search_json(status, execution, tools))),
        ),
        _ => None,
    }
}

/// `messages`, and then the messages for the items.
pub open spec fn with_messages_of(
    messages: Seq<ChatMessageView>,
    items: Seq<ResponseItemView>,
) -> Seq<ChatMessageView>
    decreases items.len(),
{
    if items.len() == 0 {
        messages
    } else {
        let before = with_messages_of(messages, items.drop_last());
        match message_of(items.last()) {
            Some(message) => before.push(message),
            None => before,
        }
    }
}

/// The system message for the base instructions, where they are not blank.
pub open spec fn instruction_messages(base_instructions: Seq<char>) -> Seq<ChatMessageView> {
    if blank(base_instructions) {
        Seq::empty()
    } else {
        seq![text_message("system"@, base_instructions)]
    }
}

/// A function on offer, as JSON.
pub open spec fn function_tool_json(tool: ResponsesApiToolView) -> JsonView {
    JsonView::Object(
        map![
            "type"@ => JsonView::Text("function"@),
            "function"@ => JsonView::Object(
                map![
                    "name"@ => JsonView::Text(tool.name),
                    "description"@ => JsonView::Text(tool.description),
                    "parameters"@ => tool.parameters,
                    "strict"@ => JsonView::Bool(tool.strict),
                ],
            ),
        ],
    )
}

/// The functions that a tool stands for: one, those of a namespace, or none.
pub open spec fn functions_of(tool: ToolSpecView) -> Seq<ResponsesApiToolView> {
    match tool {
        ToolSpecView::Function(function) => seq![function],
        ToolSpecView::Namespace(functions) => functions,
        _ => Seq::empty(),
    }
}

/// The functions of all tools, in order.
pub open spec fn all_functions(tools: Seq<ToolSpecView>) -> Seq<ResponsesApiToolView>
    decreases tools.len(),
{
    if tools.len() == 0 {
        Seq::empty()
    } else {
        all_functions(tools.drop_last()) + functions_of(tools.last())
    }
}

/// The functions on offer, as JSON.
pub open spec fn function_tools_json(functions: Seq<ResponsesApiToolView>) -> Seq<JsonView> {
    functions.map_values(|function: ResponsesApiToolView| function_tool_json(function))
}

/// The request for a prompt.
pub open spec fn request_of(prompt: PromptView, model: Seq<char>) -> ChatCompletionRequestView {
    let functions = all_functions(prompt.tools);
    ChatCompletionRequestView {
        model,
        messages: with_messages_of(
            instruction_messages(prompt.base_instructions),
            prompt.formatted_input,
        ),
        stream: true,
        tools: function_tools_json(functions),
        tool_choice: if functions.len() > 0 {
            Some("auto"@)
        } else {
            None
        },
    }
}

/// The role that chat completions have for a role of the conversation.
pub fn chat_role(role: &str) -> (chat: &'static str)
    ensures
        chat@ == role_of(role@),
{
    if same_text(role, "assistant") {
        "assistant"
    } else if same_text(role, "system") || same_text(role, "developer") {
        "system"
    } else {
        "user"
    }
}

/// The text of a message: its texts, one per line.
pub fn content_items_to_text(content: &[ContentItem]) -> (text: String)
    ensures
        text@ == message_text(views(content@)),
{
    let ghost all = views(content@);
    let mut text = String::new();
    let mut any = false;
    let mut at: usize = 0;
    assert(all.take(0) =~= Seq::empty());
    while at < content.len()
        invariant
            at <= content.len(),
            all == views(content@),
            text@ == joined(content_texts(all.take(at as int)), "\n"@),
            any == (content_texts(all.take(at as int)).len() > 0),
        decreases content.len() - at,
    {
        let ghost before = content_texts(all.take(at as int));
        assert(all.take(at + 1).drop_last() =~= all.take(at as int));
        assert(all.take(at + 1).last() == content[at as int]@);
        let part = match &content[at] {
            ContentItem::InputText { text } => Some(text),
            ContentItem::OutputText { text } => Some(text),
            ContentItem::InputImage { .. } => None,
        };
        if let Some(part) = part {
            assert(before.push(part@).drop_last() =~= before);
            if any {
                text.append("\n");
            }
            text.append(part.as_str());
            any = true;
        }
        at = at + 1;
    }
    assert(all.take(all.len() as int) =~= all);
    text
}

/// The text of a tool's output, empty where it has none.
pub fn function_output_to_text(output: &FunctionCallOutputBody) -> (text: String)
    ensures
        text@ == output_text(output@),
{
    match &output.text {
        Some(text) => text.clone(),
        None => String::new(),
    }
}

fn push_message(messages: &mut Vec<ChatMessage>, message: ChatMessage)
    ensures
        views(final(messages)@) == views(old(messages)@).push(message@),
{
    proof {
        lemma_views_push(messages@, message);
    }
    messages.push(message);
}

fn push_tool_call_message(
    messages: &mut Vec<ChatMessage>,
    name: String,
    arguments: String,
    call_id: String,
)
    ensures
        views(final(messages)@) == views(old(messages)@).push(
            tool_call_message(name@, arguments@, call_id@),
        ),
{
    let mut calls: Vec<ChatToolCall> = Vec::new();
    calls.push(
        ChatToolCall {
            id: call_id,
            kind: "function",
            function: ChatToolCallFunction { name, arguments },
        },
    );
    assert(views(calls@) =~= seq![calls@[0]@]);
    push_message(
        messages,
        ChatMessage {
            role: "assistant".to_string(),
            content: None,
            tool_call_id: None,
            tool_calls: Some(calls),
        },
    );
}

fn push_tool_message(messages: &mut Vec<ChatMessage>, call_id: Option<String>, text: String)
    ensures
        views(final(messages)@) == views(old(messages)@).push(
            tool_message(opt_view(call_id), text@),
        ),
{
    push_message(
        messages,
        ChatMessage {
            role: "tool".to_string(),
            content: Some(text),
            tool_call_id: call_id,
            tool_calls: None,
        },
    );
}

/// What a tool search found, as the text of a JSON object.
fn tool_search_text(status: String, execution: String, tools: Vec<serde_json::Value>) -> (text:
    String)
    ensures
        text@ == json_display(tool_search_json(status@, execution@, json_views(tools@))),
{
    let mut members = json_members_new();
    json_insert(&mut members, "status", json_string(status));
    json_insert(&mut members, "execution", json_string(execution));
    json_insert(&mut members, "tools", json_array(tools));
    json_to_string(&json_object(members))
}

/// Appends the message for an item of the conversation, where it has one.
pub fn append_chat_message_for_response_item(messages: &mut Vec<ChatMessage>, item: ResponseItem)
    ensures
        views(final(messages)@) == (match message_of(item@) {
            Some(message) => views(old(messages)@).push(message),
            None => views(old(messages)@),
        }),
{
    match item {
        ResponseItem::Message { role, content, .. } => {
            let text = content_items_to_text(content.as_slice());
            if is_blank(text.as_str()) {
                return ;
            }
            push_message(
                messages,
                ChatMessage {
                    role: chat_role(role.as_str()).to_string(),
                    content: Some(text),
                    tool_call_id: None,
                    tool_calls: None,
                },
            );
        },
        ResponseItem::FunctionCall { name, arguments, call_id, .. } => {
            push_tool_call_message(messages, name, arguments, call_id);
        },
        ResponseItem::CustomToolCall { name, input, call_id } => {
            push_tool_call_message(messages, name, input, call_id);
        },
        ResponseItem::FunctionCallOutput { call_id, output } => {
            push_tool_message(messages, Some(call_id), function_output_to_text(&output));
        },
        ResponseItem::CustomToolCallOutput { call_id, output } => {
            push_tool_message(messages, Some(call_id), function_output_to_text(&output));
        },
        ResponseItem::ToolSearchOutput { call_id, status, execution, tools } => {
            push_tool_message(messages, call_id, tool_search_text(status, execution, tools));
        },
        ResponseItem::Reasoning { .. } => {},
        ResponseItem::LocalShellCall => {},
        ResponseItem::ToolSearchCall => {},
        ResponseItem::WebSearchCall => {},
        ResponseItem::ImageGenerationCall => {},
        ResponseItem::Compaction => {},
        ResponseItem::CompactionTrigger => {},
        ResponseItem::ContextCompaction => {},
        ResponseItem::Other => {},
    }
}

/// A function on offer, as JSON.
fn function_tool_value(tool: &ResponsesApiTool) -> (value: serde_json::Value)
    ensures
        json_view(value) == function_tool_json(tool@),
{
    let mut function = json_members_new();
    json_insert(&mut function, "name", json_string(tool.name.clone()));
    json_insert(&mut function, "description", json_string(tool.description.clone()));
    json_insert(&mut function, "parameters", tool.parameters.clone());
    json_insert(&mut function, "strict", json_bool(tool.strict));
    let mut members = json_members_new();
    json_insert(&mut members, "type", json_string("function".to_string()));
    json_insert(&mut members, "function", json_object(function));
    json_object(members)
}

/// The functions that the tools stand for, as JSON.
pub fn create_tools_json_for_chat_completions_api(tools: &[ToolSpec]) -> (values: Result<
    Vec<serde_json::Value>,
    CodexErr,
>)
    ensures
        values is Ok,
        json_views(values->Ok_0@) == function_tools_json(all_functions(views(tools@))),
{
    let ghost all = views(tools@);
    let mut out: Vec<serde_json::Value> = Vec::new();
    let mut at: usize = 0;
    assert(all.take(0) =~= Seq::empty());
    assert(json_views(out@) =~= function_tools_json(all_functions(all.take(0))));
    while at < tools.len()
        invariant
            at <= tools.len(),
            all == views(tools@),
            json_views(out@) == function_tools_json(all_functions(all.take(at as int))),
        decreases tools.len() - at,
    {
        let ghost before = out@;
        assert(all.take(at + 1).drop_last() =~= all.take(at as int));
        assert(all.take(at + 1).last() == tools[at as int]@);
        match &tools[at] {
            ToolSpec::Function(tool) => {
                out.push(function_tool_value(tool));
                assert(json_views(out@) =~= json_views(before) + function_tools_json(seq![tool@]));
            },
            ToolSpec::Namespace(namespace) => {
                let ghost functions = views(namespace.tools@);
                let mut inner: usize = 0;
                assert(json_views(out@) =~= json_views(before) + function_tools_json(
                    functions.take(0),
                ));
                while inner < namespace.tools.len()
                    invariant
                        inner <= namespace.tools.len(),
                        functions == views(namespace.tools@),
                        json_views(out@) == json_views(before) + function_tools_json(
                            functions.take(inner as int),
                        ),
                    decreases namespace.tools.len() - inner,
                {
                    let ghost so_far = out@;
                    match &namespace.tools[inner] {
                        ResponsesApiNamespaceTool::Function(tool) => {
                            out.push(function_tool_value(tool));
                        },
                    }
                    assert(json_views(out@) =~= json_views(so_far).push(
                        function_tool_json(functions[inner as int]),
                    ));
                    assert(function_tools_json(functions.take(inner + 1)) =~= function_tools_json(
                        functions.take(inner as int),
                    ).push(function_tool_json(functions[inner as int])));
                    inner = inner + 1;
                }
                assert(functions.take(functions.len() as int) =~= functions);
            },
            ToolSpec::ToolSearch => {},
            ToolSpec::ImageGeneration => {},
            ToolSpec::WebSearch => {},
            ToolSpec::Freeform => {},
        }
        proof {
            let offered = functions_of(tools[at as int]@);
            assert(json_views(out@) =~= json_views(before) + function_tools_json(offered));
            assert(function_tools_json(all_functions(all.take(at as int)) + offered)
                =~= function_tools_json(all_functions(all.take(at as int)))
                + function_tools_json(offered));
        }
        at = at + 1;
    }
    assert(all.take(all.len() as int) =~= all);
    Ok(out)
}

/// The request for a prompt.
pub fn build_chat_completion_request(prompt: Prompt, model_info: &ModelInfo) -> (request: Result<
    ChatCompletionRequest,
    CodexErr,
>)
    ensures
        request is Ok,
        request->Ok_0@ == request_of(prompt@, model_info@.slug),
{
    let mut messages: Vec<ChatMessage> = Vec::new();
    assert(views(messages@) =~= Seq::empty());
    if !is_blank(prompt.base_instructions.as_str()) {
        push_message(
            &mut messages,
            ChatMessage {
                role: "system".to_string(),
                content: Some(prompt.base_instructions.clone()),
                tool_call_id: None,
                tool_calls: None,
            },
        );
    }
    let ghost instructed = views(messages@);
    assert(instructed =~= instruction_messages(prompt@.base_instructions));
    let ghost items = views(prompt.formatted_input@);
    let ghost count = prompt.formatted_input@.len();
    let ghost whole = prompt@;
    assert(items.take(0) =~= Seq::empty());
    let tools = match create_tools_json_for_chat_completions_api(prompt.tools.as_slice()) {
        Ok(tools) => tools,
        Err(error) => {
            return Err(error);
        },
    };
    for item in it: prompt.formatted_input
        invariant
            it.seq().len() == count,
            items == views(it.seq()),
            views(messages@) == with_messages_of(instructed, items.take(it.index())),
    {
        let ghost at = it.index();
        assert(items.take(at + 1).drop_last() =~= items.take(at));
        assert(items.take(at + 1).last() == item@);
        append_chat_message_for_response_item(&mut messages, item);
    }
    assert(items.take(count as int) =~= items);
    assert(json_views(tools@).len() == all_functions(whole.tools).len());
    let tool_choice = if tools.is_empty() {
        None
    } else {
        Some("auto")
    };
    Ok(
        ChatCompletionRequest {
            model: model_info.slug.clone(),
            messages,
            stream: true,
            tools,
            tool_choice,
        },
    )
}

/// Members, and one more where there is a value for it.
pub open spec fn with_optional(
    members: Map<Seq<char>, JsonView>,
    key: Seq<char>,
    value: Option<JsonView>,
) -> Map<Seq<char>, JsonView> {
    match value {
        Some(present) => members.insert(key, present),
        None => members,
    }
}

/// A text as JSON, where there is one.
pub open spec fn optional_text_json(text: Option<Seq<char>>) -> Option<JsonView> {
    match text {
        Some(chars) => Some(JsonView::Text(chars)),
        None => None,
    }
}

/// A tool call as it is sent.
pub open spec fn tool_call_json(call: ChatToolCallView) -> JsonView {
    JsonView::Object(
        map![
            "id"@ => JsonView::Text(call.id),
            "type"@ => JsonView::Text(call.kind),
            "function"@ => JsonView::Object(
                map![
                    "name"@ => JsonView::Text(call.name),
                    "arguments"@ => JsonView::Text(call.arguments),
                ],
            ),
        ],
    )
}

/// Tool calls as they are sent.
pub open spec fn tool_calls_json(calls: Seq<ChatToolCallView>) -> JsonView {
    JsonView::Array(calls.map_values(|call: ChatToolCallView| tool_call_json(call)))
}

/// A message as it is sent: what it does not have is left out.
pub open spec fn message_json(message: ChatMessageView) -> JsonView {
    let role = map!["role"@ => JsonView::Text(message.role)];
    let content = with_optional(role, "content"@, optional_text_json(message.content));
    let answered = with_optional(
        content,
        "tool_call_id"@,
        optional_text_json(message.tool_call_id),
    );
    let calls = match message.tool_calls {
        Some(calls) => Some(tool_calls_json(calls)),
        None => None,
    };
    JsonView::Object(with_optional(answered, "tool_calls"@, calls))
}

/// Messages as they are sent.
pub open spec fn messages_json(messages: Seq<ChatMessageView>) -> JsonView {
    JsonView::Array(messages.map_values(|message: ChatMessageView| message_json(message)))
}

/// A request as it is sent: without `tools` where it has none, and without
/// `tool_choice` where it makes none.
pub open spec fn request_json(request: ChatCompletionRequestView) -> JsonView {
    let fixed = map![
        "model"@ => JsonView::Text(request.model),
        "messages"@ => messages_json(request.messages),
        "stream"@ => JsonView::Bool(request.stream),
    ];
    let tools = if request.tools.len() > 0 {
        Some(JsonView::Array(request.tools))
    } else {
        None
    };
    let offered = with_optional(fixed, "tools"@, tools);
    JsonView::Object(
        with_optional(offered, "tool_choice"@, optional_text_json(request.tool_choice)),
    )
}

fn tool_call_value(call: ChatToolCall) -> (value: serde_json::Value)
    ensures
        json_view(value) == tool_call_json(call@),
{
    let mut function = json_members_new();
    json_insert(&mut function, "name", json_string(call.function.name));
    json_insert(&mut function, "arguments", json_string(call.function.arguments));
    let mut members = json_members_new();
    json_insert(&mut members, "id", json_string(call.id));
    json_insert(&mut members, "type", json_string(call.kind.to_string()));
    json_insert(&mut members, "function", json_object(function));
    json_object(members)
}

fn message_value(message: ChatMessage) -> (value: serde_json::Value)
    ensures
        json_view(value) == message_json(message@),
{
    let mut members = json_members_new();
    json_insert(&mut members, "role", json_string(message.role));
    if let Some(content) = message.content {
        json_insert(&mut members, "content", json_string(content));
    }
    if let Some(call_id) = message.tool_call_id {
        json_insert(&mut members, "tool_call_id", json_string(call_id));
    }
    if let Some(calls) = message.tool_calls {
        let ghost sent = views(calls@).map_values(|call: ChatToolCallView| tool_call_json(call));
        let mut values: Vec<serde_json::Value> = Vec::new();
        assert(json_views(values@) =~= sent.take(0));
        for call in it: calls
            invariant
                sent == views(it.seq()).map_values(|call: ChatToolCallView| tool_call_json(call)),
                json_views(values@) == sent.take(it.index()),
        {
            let ghost before = values@;
            values.push(tool_call_value(call));
            assert(json_views(values@) =~= json_views(before).push(tool_call_json(call@)));
            assert(sent.take(it.index() + 1) =~= sent.take(it.index()).push(
                tool_call_json(call@),
            ));
        }
        assert(json_views(values@) =~= sent);
        json_insert(&mut members, "tool_calls", json_array(values));
    }
    json_object(members)
}

/// The body of a request as it is sent: JSON that leaves out what a message does
/// not have, and the tools and the choice where there are none.
pub fn chat_completion_request_body(request: ChatCompletionRequest) -> (body: serde_json::Value)
    ensures
        json_view(body) == request_json(request@),
{
    let ghost sent = views(request.messages@).map_values(
        |message: ChatMessageView| message_json(message),
    );
    let mut values: Vec<serde_json::Value> = Vec::new();
    assert(json_views(values@) =~= sent.take(0));
    let ghost view = request@;
    for message in it: request.messages
        invariant
            sent == views(it.seq()).map_values(|message: ChatMessageView| message_json(message)),
            json_views(values@) == sent.take(it.index()),
    {
        let ghost before = values@;
        values.push(message_value(message));
        assert(json_views(values@) =~= json_views(before).push(message_json(message@)));
        assert(sent.take(it.index() + 1) =~= sent.take(it.index()).push(message_json(message@)));
    }
    assert(json_views(values@) =~= sent);
    let mut members = json_members_new();
    json_insert(&mut members, "model", json_string(request.model));
    json_insert(&mut members, "messages", json_array(values));
    json_insert(&mut members, "stream", json_bool(request.stream));
    assert(view.tools.len() == request.tools@.len());
    if !request.tools.is_empty() {
        json_insert(&mut members, "tools", json_array(request.tools));
    }
    if let Some(choice) = request.tool_choice {
        json_insert(&mut members, "tool_choice", json_string(choice.to_string()));
    }
    json_object(members)
}

/// A call of the provider's API, relative to its base address.
#[derive(Debug, PartialEq)]
pub struct ApiRequest {
    pub method: &'static str,
    pub path: &'static str,
    pub accept: Option<&'static str>,
    pub body: Option<serde_json::Value>,
}

/// The call that asks for the answer to a prompt, streamed.
pub fn chat_completions_call(prompt: Prompt, model_info: &ModelInfo) -> (call: Result<
    ApiRequest,
    CodexErr,
>)
    ensures
        call is Ok,
        call->Ok_0.method@ == "POST"@,
        call->Ok_0.path@ == "chat/completions"@,
        opt_view(call->Ok_0.accept) == Some("text/event-stream"@),
        call->Ok_0.body is Some,
        json_view(call->Ok_0.body->0) == request_json(request_of(prompt@, model_info@.slug)),
{
    match build_chat_completion_request(prompt, model_info) {
        Ok(request) => Ok(
            ApiRequest {
                method: "POST",
                path: "chat/completions",
                accept: Some("text/event-stream"),
                body: Some(chat_completion_request_body(request)),
            },
        ),
        Err(error) => Err(error),
    }
}

} // verus!
