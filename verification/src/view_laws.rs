//! Laws of the views: each part of a value is seen as it is.

use vstd::prelude::*;
use crate::chat_request::{ChatCompletionRequest, ChatMessage, ChatToolCall};
use crate::chat_stream::{SseInput, SseInputView, StreamOutcome, StreamOutcomeView};
use crate::json::{json_view, json_views};
use crate::models::{ModelInfo, OpenAiModel};
use crate::protocol::{
    CodexErr, CodexErrView, ContentItem, ContentItemView, FunctionCallOutputBody, Prompt,
    ReasoningItemReasoningSummary, ResponseEvent, ResponseEventView, ResponseItem,
    ResponseItemView, ResponsesApiNamespaceTool, ResponsesApiTool, ToolSpec, ToolSpecView,
};
use crate::provider::ModelProviderInfo;
use crate::text::{opt_view, views};

verus! {

/// A part of a message is seen with its kind and its characters.
pub proof fn law_content_view(item: ContentItem)
    ensures
        match item {
            ContentItem::InputText { text } => item@ == (ContentItemView::InputText {
                text: text@,
            }),
            ContentItem::OutputText { text } => item@ == (ContentItemView::OutputText {
                text: text@,
            }),
            ContentItem::InputImage { image_url } => item@ == (ContentItemView::InputImage {
                image_url: image_url@,
            }),
        },
{
}

/// What a tool returned, and a part of a summary, are seen as their text.
pub proof fn law_text_views(body: FunctionCallOutputBody, part: ReasoningItemReasoningSummary)
    ensures
        body@ == opt_view(body.text),
        part@ == part->text@,
{
}

/// An item of a conversation is seen with its kind and with all that it holds.
pub proof fn law_item_view(item: ResponseItem)
    ensures
        match item {
            ResponseItem::Message { id, role, content, phase } => item@ == (
            ResponseItemView::Message {
                id: opt_view(id),
                role: role@,
                content: views(content@),
                phase: opt_view(phase),
            }),
            ResponseItem::Reasoning { id, summary, content, encrypted_content } => {
                &&& item@ is Reasoning
                &&& item@->Reasoning_id == id@
                &&& item@->summary == views(summary@)
                &&& item@->Reasoning_content is Some <==> content is Some
                &&& content is Some ==> item@->Reasoning_content->0 == views(content->0@)
                &&& item@->encrypted_content == opt_view(encrypted_content)
            },
            ResponseItem::FunctionCall { id, name, namespace, arguments, call_id } => item@ == (
            ResponseItemView::FunctionCall {
                id: opt_view(id),
                name: name@,
                namespace: opt_view(namespace),
                arguments: arguments@,
                call_id: call_id@,
            }),
            ResponseItem::FunctionCallOutput { call_id, output } => item@ == (
            ResponseItemView::FunctionCallOutput { call_id: call_id@, output: output@ }),
            ResponseItem::CustomToolCall { name, input, call_id } => item@ == (
            ResponseItemView::CustomToolCall { name: name@, input: input@, call_id: call_id@ }),
            ResponseItem::CustomToolCallOutput { call_id, output } => item@ == (
            ResponseItemView::CustomToolCallOutput { call_id: call_id@, output: output@ }),
            ResponseItem::ToolSearchOutput { call_id, status, execution, tools } => item@ == (
            ResponseItemView::ToolSearchOutput {
                call_id: opt_view(call_id),
                status: status@,
                execution: execution@,
                tools: json_views(tools@),
            }),
            ResponseItem::LocalShellCall => item@ is LocalShellCall,
            ResponseItem::ToolSearchCall => item@ is ToolSearchCall,
            ResponseItem::WebSearchCall => item@ is WebSearchCall,
            ResponseItem::ImageGenerationCall => item@ is ImageGenerationCall,
            ResponseItem::Compaction => item@ is Compaction,
            ResponseItem::CompactionTrigger => item@ is CompactionTrigger,
            ResponseItem::ContextCompaction => item@ is ContextCompaction,
            ResponseItem::Other => item@ is Other,
        },
{
}

/// A tool is seen with its kind and with the functions that it stands for, and a
/// function with all that it holds.
pub proof fn law_tool_views(
    tool: ToolSpec,
    function: ResponsesApiTool,
    inner: ResponsesApiNamespaceTool,
)
    ensures
        match tool {
            ToolSpec::Function(one) => tool@ == ToolSpecView::Function(one@),
            ToolSpec::Namespace(many) => tool@ == ToolSpecView::Namespace(views(many.tools@)),
            ToolSpec::ToolSearch => tool@ is ToolSearch,
            ToolSpec::ImageGeneration => tool@ is ImageGeneration,
            ToolSpec::WebSearch => tool@ is WebSearch,
            ToolSpec::Freeform => tool@ is Freeform,
        },
        function@.name == function.name@,
        function@.description == function.description@,
        function@.strict == function.strict,
        function@.parameters == json_view(function.parameters),
        inner@ == inner->Function_0@,
{
}

/// A prompt is seen with its instructions, every item and every tool.
pub proof fn law_prompt_view(prompt: Prompt)
    ensures
        prompt@.base_instructions == prompt.base_instructions@,
        prompt@.formatted_input == views(prompt.formatted_input@),
        prompt@.tools == views(prompt.tools@),
{
}

/// An event is seen with its kind and with all that it holds.
pub proof fn law_event_view(event: ResponseEvent)
    ensures
        match event {
            ResponseEvent::Created => event@ is Created,
            ResponseEvent::OutputItemAdded(item) => event@ == ResponseEventView::OutputItemAdded(
                item@,
            ),
            ResponseEvent::OutputItemDone(item) => event@ == ResponseEventView::OutputItemDone(
                item@,
            ),
            ResponseEvent::OutputTextDelta(delta) => event@ == ResponseEventView::OutputTextDelta(
                delta@,
            ),
            ResponseEvent::ReasoningSummaryDelta { delta, summary_index } => event@ == (
            ResponseEventView::ReasoningSummaryDelta { delta: delta@, summary_index }),
            ResponseEvent::Completed { response_id, token_usage, end_turn } => event@ == (
            ResponseEventView::Completed { response_id: response_id@, token_usage, end_turn }),
        },
{
}

/// An error, an input and an outcome are seen with their kind and their message.
pub proof fn law_stream_views(error: CodexErr, input: SseInput, outcome: StreamOutcome)
    ensures
        match error {
            CodexErr::Stream(message) => error@ == CodexErrView::Stream(message@),
            CodexErr::Timeout => error@ is Timeout,
            CodexErr::Transport(message) => error@ == CodexErrView::Transport(message@),
            CodexErr::Json(message) => error@ == CodexErrView::Json(message@),
        },
        match input {
            SseInput::Data(data) => input@ == SseInputView::Data(data@),
            SseInput::Failed(message) => input@ == SseInputView::Failed(message@),
            SseInput::Ended => input@ is Ended,
            SseInput::TimedOut => input@ is TimedOut,
            SseInput::ConsumerDropped => input@ is ConsumerDropped,
        },
        match outcome {
            StreamOutcome::Continue => outcome@ is Continue,
            StreamOutcome::Finished => outcome@ is Finished,
            StreamOutcome::Failed(why) => outcome@ == StreamOutcomeView::Failed(why@),
        },
{
}

/// A request, a message and a call are seen with all that they hold.
pub proof fn law_request_views(
    request: ChatCompletionRequest,
    message: ChatMessage,
    call: ChatToolCall,
)
    ensures
        request@.model == request.model@,
        request@.messages == views(request.messages@),
        request@.stream == request.stream,
        request@.tools == json_views(request.tools@),
        request@.tool_choice == opt_view(request.tool_choice),
        message@.role == message.role@,
        message@.content == opt_view(message.content),
        message@.tool_call_id == opt_view(message.tool_call_id),
        message@.tool_calls is Some <==> message.tool_calls is Some,
        message.tool_calls is Some ==> message@.tool_calls->0 == views(message.tool_calls->0@),
        call@.id == call.id@,
        call@.kind == call.kind@,
        call@.name == call.function.name@,
        call@.arguments == call.function.arguments@,
{
}

/// An entry of a model list, and the configuration of a provider, are seen with all
/// that they hold.
pub proof fn law_provider_views(entry: OpenAiModel, info: ModelProviderInfo)
    ensures
        entry@.id == entry.id@,
        entry@.owned_by == opt_view(entry.owned_by),
        info@.base_url == opt_view(info.base_url),
        info@.env_key == opt_view(info.env_key),
        info@.command_auth == info.command_auth,
{
}

/// A catalog entry is seen with all that it holds.
pub proof fn law_model_view(model: ModelInfo)
    ensures
        model@.slug == model.slug@,
        model@.display_name == model.display_name@,
        model@.description == opt_view(model.description),
        model@.default_reasoning_level == model.default_reasoning_level,
        model@.supported_reasoning_levels == model.supported_reasoning_levels@,
        model@.shell_type == model.shell_type,
        model@.visibility == model.visibility,
        model@.supported_in_api == model.supported_in_api,
        model@.priority == model.priority,
        model@.additional_speed_tiers == views(model.additional_speed_tiers@),
        model@.service_tiers == views(model.service_tiers@),
        model@.availability_nux == opt_view(model.availability_nux),
        model@.upgrade == opt_view(model.upgrade),
        model@.base_instructions == model.base_instructions@,
        model@.model_messages == opt_view(model.model_messages),
        model@.supports_reasoning_summaries == model.supports_reasoning_summaries,
        model@.default_reasoning_summary == model.default_reasoning_summary,
        model@.support_verbosity == model.support_verbosity,
        model@.default_verbosity == model.default_verbosity,
        model@.apply_patch_tool_type == model.apply_patch_tool_type,
        model@.web_search_tool_type == model.web_search_tool_type,
        model@.truncation_policy == model.truncation_policy,
        model@.supports_parallel_tool_calls == model.supports_parallel_tool_calls,
        model@.supports_image_detail_original == model.supports_image_detail_original,
        model@.context_window == model.context_window,
        model@.max_context_window == model.max_context_window,
        model@.auto_compact_token_limit == model.auto_compact_token_limit,
        model@.effective_context_window_percent == model.effective_context_window_percent,
        model@.experimental_supported_tools == views(model.experimental_supported_tools@),
        model@.input_modalities == model.input_modalities@,
        model@.used_fallback_model_metadata == model.used_fallback_model_metadata,
        model@.supports_search_tool == model.supports_search_tool,
{
}

} // verus!
