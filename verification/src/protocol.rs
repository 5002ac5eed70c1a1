//! The conversation items, prompts, tools and stream events that the provider
//! exchanges with its caller, and their views.

use vstd::prelude::*;
use crate::json::{json_view, json_views, JsonView};
use crate::text::{opt_view, views};

verus! {

/// One part of a message.
#[derive(Debug, PartialEq)]
pub enum ContentItem {
    InputText { text: String },
    InputImage { image_url: String },
    OutputText { text: String },
}

pub enum ContentItemView {
    InputText { text: Seq<char> },
    InputImage { image_url: Seq<char> },
    OutputText { text: Seq<char> },
}

impl View for ContentItem {
    type V = ContentItemView;

    open spec fn view(&self) -> ContentItemView {
        match self {
            ContentItem::InputText { text } => ContentItemView::InputText { text: text@ },
            ContentItem::InputImage { image_url } => ContentItemView::InputImage {
                image_url: image_url@,
            },
            ContentItem::OutputText { text } => ContentItemView::OutputText { text: text@ },
        }
    }
}

/// One part of the summary of a reasoning item.
#[derive(Debug, PartialEq)]
pub enum ReasoningItemReasoningSummary {
    SummaryText { text: String },
}

impl View for ReasoningItemReasoningSummary {
    type V = Seq<char>;

    open spec fn view(&self) -> Seq<char> {
        match self {
            ReasoningItemReasoningSummary::SummaryText { text } => text@,
        }
    }
}

/// What a tool returned, in the text form that its payload has, if it has one.
#[derive(Debug, PartialEq)]
pub struct FunctionCallOutputBody {
    pub text: Option<String>,
}

impl View for FunctionCallOutputBody {
    type V = Option<Seq<char>>;

    open spec fn view(&self) -> Option<Seq<char>> {
        opt_view(self.text)
    }
}

/// One item of a conversation. The variants that chat completions have no
/// message for carry nothing.
#[allow(inconsistent_fields)]
#[derive(Debug, PartialEq)]
pub enum ResponseItem {
    Message { id: Option<String>, role: String, content: Vec<ContentItem>, phase: Option<String> },
    Reasoning {
        id: String,
        summary: Vec<ReasoningItemReasoningSummary>,
        content: Option<Vec<String>>,
        encrypted_content: Option<String>,
    },
    FunctionCall {
        id: Option<String>,
        name: String,
        namespace: Option<String>,
        arguments: String,
        call_id: String,
    },
    FunctionCallOutput { call_id: String, output: FunctionCallOutputBody },
    CustomToolCall { name: String, input: String, call_id: String },
    CustomToolCallOutput { call_id: String, output: FunctionCallOutputBody },
    ToolSearchOutput {
        call_id: Option<String>,
        status: String,
        execution: String,
        tools: Vec<serde_json::Value>,
    },
    LocalShellCall,
    ToolSearchCall,
    WebSearchCall,
    ImageGenerationCall,
    Compaction,
    CompactionTrigger,
    ContextCompaction,
    Other,
}

#[allow(inconsistent_fields)]
pub enum ResponseItemView {
    Message {
        id: Option<Seq<char>>,
        role: Seq<char>,
        content: Seq<ContentItemView>,
        phase: Option<Seq<char>>,
    },
    Reasoning {
        id: Seq<char>,
        summary: Seq<Seq<char>>,
        content: Option<Seq<Seq<char>>>,
        encrypted_content: Option<Seq<char>>,
    },
    FunctionCall {
        id: Option<Seq<char>>,
        name: Seq<char>,
        namespace: Option<Seq<char>>,
        arguments: Seq<char>,
        call_id: Seq<char>,
    },
    FunctionCallOutput { call_id: Seq<char>, output: Option<Seq<char>> },
    CustomToolCall { name: Seq<char>, input: Seq<char>, call_id: Seq<char> },
    CustomToolCallOutput { call_id: Seq<char>, output: Option<Seq<char>> },
    ToolSearchOutput {
        call_id: Option<Seq<char>>,
        status: Seq<char>,
        execution: Seq<char>,
        tools: Seq<JsonView>,
    },
    LocalShellCall,
    ToolSearchCall,
    WebSearchCall,
    ImageGenerationCall,
    Compaction,
    CompactionTrigger,
    ContextCompaction,
    Other,
}

impl View for ResponseItem {
    type V = ResponseItemView;

    open spec fn view(&self) -> ResponseItemView {
        match self {
            ResponseItem::Message { id, role, content, phase } => ResponseItemView::Message {
                id: opt_view(*id),
                role: role@,
                content: views(content@),
                phase: opt_view(*phase),
            },
            ResponseItem::Reasoning { id, summary, content, encrypted_content } =>
                ResponseItemView::Reasoning {
                id: id@,
                summary: views(summary@),
                content: match content {
                    Some(parts) => Some(views(parts@)),
                    None => None,
                },
                encrypted_content: opt_view(*encrypted_content),
            },
            ResponseItem::FunctionCall { id, name, namespace, arguments, call_id } =>
                ResponseItemView::FunctionCall {
                id: opt_view(*id),
                name: name@,
                namespace: opt_view(*namespace),
                arguments: arguments@,
                call_id: call_id@,
            },
            ResponseItem::FunctionCallOutput { call_id, output } =>
                ResponseItemView::FunctionCallOutput { call_id: call_id@, output: output@ },
            ResponseItem::CustomToolCall { name, input, call_id } =>
                ResponseItemView::CustomToolCall { name: name@, input: input@, call_id: call_id@ },
            ResponseItem::CustomToolCallOutput { call_id, output } =>
                ResponseItemView::CustomToolCallOutput { call_id: call_id@, output: output@ },
            ResponseItem::ToolSearchOutput { call_id, status, execution, tools } =>
                ResponseItemView::ToolSearchOutput {
                call_id: opt_view(*call_id),
                status: status@,
                execution: execution@,
                tools: json_views(tools@),
            },
            ResponseItem::LocalShellCall => ResponseItemView::LocalShellCall,
            ResponseItem::ToolSearchCall => ResponseItemView::ToolSearchCall,
            ResponseItem::WebSearchCall => ResponseItemView::WebSearchCall,
            ResponseItem::ImageGenerationCall => ResponseItemView::ImageGenerationCall,
            ResponseItem::Compaction => ResponseItemView::Compaction,
            ResponseItem::CompactionTrigger => ResponseItemView::CompactionTrigger,
            ResponseItem::ContextCompaction => ResponseItemView::ContextCompaction,
            ResponseItem::Other => ResponseItemView::Other,
        }
    }
}

/// A function that the model may call. `parameters` is its JSON schema.
#[derive(Debug, PartialEq)]
pub struct ResponsesApiTool {
    pub name: String,
    pub description: String,
    pub strict: bool,
    pub parameters: serde_json::Value,
}

pub struct ResponsesApiToolView {
    pub name: Seq<char>,
    pub description: Seq<char>,
    pub strict: bool,
    pub parameters: JsonView,
}

impl View for ResponsesApiTool {
    type V = ResponsesApiToolView;

    open spec fn view(&self) -> ResponsesApiToolView {
        ResponsesApiToolView {
            name: self.name@,
            description: self.description@,
            strict: self.strict,
            parameters: json_view(self.parameters),
        }
    }
}

/// A tool inside a namespace.
#[derive(Debug, PartialEq)]
pub enum ResponsesApiNamespaceTool {
    Function(ResponsesApiTool),
}

impl View for ResponsesApiNamespaceTool {
    type V = ResponsesApiToolView;

    open spec fn view(&self) -> ResponsesApiToolView {
        match self {
            ResponsesApiNamespaceTool::Function(tool) => tool@,
        }
    }
}

/// A named group of tools.
#[derive(Debug, PartialEq)]
pub struct ResponsesApiNamespace {
    pub name: String,
    pub description: String,
    pub tools: Vec<ResponsesApiNamespaceTool>,
}

/// A tool that a prompt offers. The variants that chat completions cannot offer
/// carry nothing.
#[derive(Debug, PartialEq)]
pub enum ToolSpec {
    Function(ResponsesApiTool),
    Namespace(ResponsesApiNamespace),
    ToolSearch,
    ImageGeneration,
    WebSearch,
    Freeform,
}

pub enum ToolSpecView {
    Function(ResponsesApiToolView),
    Namespace(Seq<ResponsesApiToolView>),
    ToolSearch,
    ImageGeneration,
    WebSearch,
    Freeform,
}

impl View for ToolSpec {
    type V = ToolSpecView;

    open spec fn view(&self) -> ToolSpecView {
        match self {
            ToolSpec::Function(tool) => ToolSpecView::Function(tool@),
            ToolSpec::Namespace(namespace) => ToolSpecView::Namespace(views(namespace.tools@)),
            ToolSpec::ToolSearch => ToolSpecView::ToolSearch,
            ToolSpec::ImageGeneration => ToolSpecView::ImageGeneration,
            ToolSpec::WebSearch => ToolSpecView::WebSearch,
            ToolSpec::Freeform => ToolSpecView::Freeform,
        }
    }
}

/// What the caller wants answered: the base instructions, the conversation so
/// far in the form that is sent to a model, and the tools on offer.
#[derive(Debug, PartialEq)]
pub struct Prompt {
    pub base_instructions: String,
    pub formatted_input: Vec<ResponseItem>,
    pub tools: Vec<ToolSpec>,
}

pub struct PromptView {
    pub base_instructions: Seq<char>,
    pub formatted_input: Seq<ResponseItemView>,
    pub tools: Seq<ToolSpecView>,
}

impl View for Prompt {
    type V = PromptView;

    open spec fn view(&self) -> PromptView {
        PromptView {
            base_instructions: self.base_instructions@,
            formatted_input: views(self.formatted_input@),
            tools: views(self.tools@),
        }
    }
}

/// Token counts of a response.
#[derive(Debug, Clone, Copy, PartialEq, Eq, Structural)]
pub struct TokenUsage {
    pub input_tokens: i64,
    pub cached_input_tokens: i64,
    pub output_tokens: i64,
    pub reasoning_output_tokens: i64,
    pub total_tokens: i64,
}

/// What the caller hears while a response is streamed.
#[derive(Debug, PartialEq)]
pub enum ResponseEvent {
    Created,
    OutputItemAdded(ResponseItem),
    OutputItemDone(ResponseItem),
    OutputTextDelta(String),
    ReasoningSummaryDelta { delta: String, summary_index: i64 },
    Completed { response_id: String, token_usage: Option<TokenUsage>, end_turn: Option<bool> },
}

pub enum ResponseEventView {
    Created,
    OutputItemAdded(ResponseItemView),
    OutputItemDone(ResponseItemView),
    OutputTextDelta(Seq<char>),
    ReasoningSummaryDelta { delta: Seq<char>, summary_index: i64 },
    Completed { response_id: Seq<char>, token_usage: Option<TokenUsage>, end_turn: Option<bool> },
}

impl View for ResponseEvent {
    type V = ResponseEventView;

    open spec fn view(&self) -> ResponseEventView {
        match self {
            ResponseEvent::Created => ResponseEventView::Created,
            ResponseEvent::OutputItemAdded(item) => ResponseEventView::OutputItemAdded(item@),
            ResponseEvent::OutputItemDone(item) => ResponseEventView::OutputItemDone(item@),
            ResponseEvent::OutputTextDelta(delta) => ResponseEventView::OutputTextDelta(delta@),
            ResponseEvent::ReasoningSummaryDelta { delta, summary_index } =>
                ResponseEventView::ReasoningSummaryDelta {
                delta: delta@,
                summary_index: *summary_index,
            },
            ResponseEvent::Completed { response_id, token_usage, end_turn } =>
                ResponseEventView::Completed {
                response_id: response_id@,
                token_usage: *token_usage,
                end_turn: *end_turn,
            },
        }
    }
}

/// Why a request or a stream failed.
#[derive(Debug, PartialEq)]
pub enum CodexErr {
    /// The stream broke off, with a message.
    Stream(String),
    /// No answer came in time.
    Timeout,
    /// The transport failed, with a message.
    Transport(String),
    /// A body could not be read, with a message.
    Json(String),
}

pub enum CodexErrView {
    Stream(Seq<char>),
    Timeout,
    Transport(Seq<char>),
    Json(Seq<char>),
}

impl View for CodexErr {
    type V = CodexErrView;

    open spec fn view(&self) -> CodexErrView {
        match self {
            CodexErr::Stream(message) => CodexErrView::Stream(message@),
            CodexErr::Timeout => CodexErrView::Timeout,
            CodexErr::Transport(message) => CodexErrView::Transport(message@),
            CodexErr::Json(message) => CodexErrView::Json(message@),
        }
    }
}

} // verus!
