//! Laws of the requests that prompts become.

use vstd::prelude::*;
use crate::chat_request::{
    all_functions, content_texts, function_tool_json, functions_of, instruction_messages,
    message_json, message_of, message_text, messages_json, optional_text_json, output_text,
    request_json, request_of, role_of, text_message, tool_call_json, tool_call_message,
    tool_calls_json, with_messages_of, ChatCompletionRequestView, ChatMessageView,
    ChatToolCallView,
};
use crate::chat_stream::{message_item, reasoning_item, tool_call_item, ToolCallView};
use crate::json::{json_display, JsonView};
use crate::protocol::{
    ContentItemView, PromptView, ResponseItemView, ResponsesApiToolView, ToolSpecView,
};
use crate::text::{blank, law_blank, law_joined, white_space};

verus! {

/// The roles of chat completions are `assistant`, `system` and `user`, and each
/// stands for itself.
pub proof fn law_roles(role: Seq<char>)
    ensures
        role_of(role) == "assistant"@ || role_of(role) == "system"@ || role_of(role) == "user"@,
        role_of(role_of(role)) == role_of(role),
{
    reveal_strlit("assistant");
    reveal_strlit("system");
    reveal_strlit("developer");
    reveal_strlit("user");
    assert("user"@.len() != "assistant"@.len());
    assert("user"@.len() != "system"@.len());
    assert("user"@.len() != "developer"@.len());
    assert("system"@.len() != "assistant"@.len());
}

/// The messages for a conversation that goes on are those for its beginning,
/// followed by those for the rest.
pub proof fn law_conversation_extends(
    messages: Seq<ChatMessageView>,
    first: Seq<ResponseItemView>,
    second: Seq<ResponseItemView>,
)
    ensures
        with_messages_of(messages, first + second) == with_messages_of(
            with_messages_of(messages, first),
            second,
        ),
        messages.is_prefix_of(with_messages_of(messages, first)),
    decreases second.len(), first.len(),
{
    if second.len() == 0 {
        assert(first + second =~= first);
        if first.len() > 0 {
            law_conversation_extends(messages, first.drop_last(), second);
        }
    } else {
        law_conversation_extends(messages, first, second.drop_last());
        assert((first + second).drop_last() =~= first + second.drop_last());
        assert((first + second).last() == second.last());
    }
}

/// What a server can rely on of a message: it has either text or tool calls. A
/// message with tool calls is the assistant's. Only a tool answers a call. Text
/// that is not a tool's is not blank.
pub open spec fn well_formed_message(message: ChatMessageView) -> bool {
    &&& message.content is Some <==> message.tool_calls is None
    &&& message.tool_calls is Some ==> {
        &&& message.role == "assistant"@
        &&& message.tool_calls->0.len() == 1
        &&& message.tool_calls->0[0].kind == "function"@
    }
    &&& message.tool_call_id is Some ==> message.role == "tool"@
    &&& {
        ||| message.role == "tool"@
        ||| message.role == "assistant"@
        ||| message.role == "system"@
        ||| message.role == "user"@
    }
    &&& message.content is Some && message.role != "tool"@ ==> !blank(message.content->0)
}

proof fn lemma_message_of(item: ResponseItemView)
    ensures
        message_of(item) is Some ==> well_formed_message(message_of(item)->0),
{
    if let ResponseItemView::Message { role, .. } = item {
        law_roles(role);
    }
}

/// Every message of a request is well formed.
pub proof fn law_messages_well_formed(prompt: PromptView, model: Seq<char>, i: int)
    requires
        0 <= i < request_of(prompt, model).messages.len(),
    ensures
        well_formed_message(request_of(prompt, model).messages[i]),
{
    lemma_with_messages_well_formed(
        instruction_messages(prompt.base_instructions),
        prompt.formatted_input,
    );
}

proof fn lemma_with_messages_well_formed(
    messages: Seq<ChatMessageView>,
    items: Seq<ResponseItemView>,
)
    requires
        forall|i: int| 0 <= i < messages.len() ==> well_formed_message(#[trigger] messages[i]),
    ensures
        forall|i: int|
            0 <= i < with_messages_of(messages, items).len() ==> well_formed_message(
                #[trigger] with_messages_of(messages, items)[i],
            ),
    decreases items.len(),
{
    if items.len() > 0 {
        lemma_with_messages_well_formed(messages, items.drop_last());
        lemma_message_of(items.last());
        let before = with_messages_of(messages, items.drop_last());
        let after = with_messages_of(messages, items);
        assert forall|i: int| 0 <= i < after.len() implies well_formed_message(
            #[trigger] after[i],
        ) by {
            if i < before.len() {
                assert(after[i] == before[i]);
            }
        }
    }
}

/// A request opens with the base instructions, as the system's message, unless
/// they are blank; then its messages are those of the conversation alone.
pub proof fn law_instructions_come_first(prompt: PromptView, model: Seq<char>)
    ensures
        !blank(prompt.base_instructions) ==> {
            &&& request_of(prompt, model).messages.len() > 0
            &&& request_of(prompt, model).messages[0] == text_message(
                "system"@,
                prompt.base_instructions,
            )
        },
        blank(prompt.base_instructions) ==> request_of(prompt, model).messages
            == with_messages_of(Seq::empty(), prompt.formatted_input),
{
    law_conversation_extends(
        instruction_messages(prompt.base_instructions),
        prompt.formatted_input,
        Seq::empty(),
    );
    if !blank(prompt.base_instructions) {
        let opening = instruction_messages(prompt.base_instructions);
        let messages = request_of(prompt, model).messages;
        assert(messages.subrange(0, opening.len() as int)[0] == opening[0]);
    }
}

/// A text, empty where there is none.
pub open spec fn or_empty(text: Option<Seq<char>>) -> Seq<char> {
    match text {
        Some(chars) => chars,
        None => Seq::empty(),
    }
}

/// What a stream handed on can be put into the next request as it is: a message
/// that is not blank comes back as the assistant's with the same text, a tool call
/// with the same name, arguments and id, empty where the server gave none, and
/// reasoning is not sent back.
pub proof fn law_streamed_items_are_sent_back(
    text: Seq<char>,
    summary: Seq<Seq<char>>,
    call: ToolCallView,
)
    ensures
        message_of(message_item(seq![ContentItemView::OutputText { text }])) == if blank(text) {
            None
        } else {
            Some(text_message("assistant"@, text))
        },
        message_of(reasoning_item(summary)) is None,
        message_of(tool_call_item(call)) == Some(
            tool_call_message(or_empty(call.name), call.arguments, or_empty(call.id)),
        ),
{
    let content = seq![ContentItemView::OutputText { text }];
    assert(content.drop_last() =~= Seq::empty());
    reveal_with_fuel(content_texts, 2);
    assert(content_texts(content) =~= seq![text]);
}

/// Whether chat completions cannot offer a tool.
pub open spec fn hosted_only(tool: ToolSpecView) -> bool {
    tool is ToolSearch || tool is ImageGeneration || tool is WebSearch || tool is Freeform
}

/// Tools that chat completions cannot offer leave no trace: wherever they stand,
/// the functions on offer are those of the other tools.
pub proof fn law_hosted_tools_are_left_out(
    before: Seq<ToolSpecView>,
    tool: ToolSpecView,
    after: Seq<ToolSpecView>,
)
    requires
        hosted_only(tool),
    ensures
        all_functions(before.push(tool) + after) == all_functions(before + after),
    decreases after.len(),
{
    if after.len() == 0 {
        assert(before.push(tool) + after =~= before.push(tool));
        assert(before + after =~= before);
        assert(before.push(tool).drop_last() =~= before);
        assert(all_functions(before) + functions_of(tool) =~= all_functions(before));
    } else {
        law_hosted_tools_are_left_out(before, tool, after.drop_last());
        assert((before.push(tool) + after).drop_last() =~= before.push(tool)
            + after.drop_last());
        assert((before.push(tool) + after).last() == after.last());
        assert((before + after).drop_last() =~= before + after.drop_last());
        assert((before + after).last() == after.last());
    }
}

proof fn lemma_request_keys()
    ensures
        "model"@ != "messages"@,
        "model"@ != "stream"@,
        "model"@ != "tools"@,
        "model"@ != "tool_choice"@,
        "messages"@ != "stream"@,
        "messages"@ != "tools"@,
        "messages"@ != "tool_choice"@,
        "stream"@ != "tools"@,
        "stream"@ != "tool_choice"@,
        "tools"@ != "tool_choice"@,
{
    reveal_strlit("model");
    reveal_strlit("messages");
    reveal_strlit("stream");
    reveal_strlit("tools");
    reveal_strlit("tool_choice");
    assert("model"@.len() == 5);
    assert("messages"@.len() == 8);
    assert("stream"@.len() == 6);
    assert("tools"@.len() == 5);
    assert("tool_choice"@.len() == 11);
    assert("model"@[0] == 'm');
    assert("tools"@[0] == 't');
}

/// What is sent of a request: the model, the messages and that the answer is to
/// be streamed, always; the tools and the automatic choice among them exactly
/// where there are functions on offer.
pub proof fn law_request_as_sent(prompt: PromptView, model: Seq<char>)
    ensures
        ({
            let request = request_of(prompt, model);
            let body = request_json(request);
            &&& body.member("model"@) == Some(JsonView::Text(model))
            &&& body.member("messages"@) == Some(messages_json(request.messages))
            &&& body.member("stream"@) == Some(JsonView::Bool(true))
            &&& body.member("tools"@) == if all_functions(prompt.tools).len() > 0 {
                Some(JsonView::Array(request.tools))
            } else {
                None
            }
            &&& body.member("tool_choice"@) == if all_functions(prompt.tools).len() > 0 {
                Some(JsonView::Text("auto"@))
            } else {
                None
            }
        }),
{
    lemma_request_keys();
    assert(request_of(prompt, model).tools.len() == all_functions(prompt.tools).len());
}

/// What is sent of a message: its role, always; its text, the call it answers and
/// its tool calls exactly where it has them.
pub proof fn law_message_as_sent(message: ChatMessageView)
    ensures
        message_json(message).member("role"@) == Some(JsonView::Text(message.role)),
        message_json(message).member("content"@) == optional_text_json(message.content),
        message_json(message).member("tool_call_id"@) == optional_text_json(message.tool_call_id),
        message_json(message).member("tool_calls"@) == (match message.tool_calls {
            Some(calls) => Some(tool_calls_json(calls)),
            None => None,
        }),
{
    reveal_strlit("role");
    reveal_strlit("content");
    reveal_strlit("tool_call_id");
    reveal_strlit("tool_calls");
    assert("role"@.len() == 4);
    assert("content"@.len() == 7);
    assert("tool_call_id"@.len() == 12);
    assert("tool_calls"@.len() == 10);
}

/// What is sent of a tool call: its id, its kind, and the name and the arguments
/// of the function.
pub proof fn law_tool_call_as_sent(call: ChatToolCallView)
    ensures
        tool_call_json(call).member("id"@) == Some(JsonView::Text(call.id)),
        tool_call_json(call).member("type"@) == Some(JsonView::Text(call.kind)),
        tool_call_json(call).member("function"@) is Some,
        tool_call_json(call).member("function"@)->0.member("name"@) == Some(
            JsonView::Text(call.name),
        ),
        tool_call_json(call).member("function"@)->0.member("arguments"@) == Some(
            JsonView::Text(call.arguments),
        ),
{
    reveal_strlit("id");
    reveal_strlit("type");
    reveal_strlit("function");
    reveal_strlit("name");
    reveal_strlit("arguments");
    assert("id"@.len() == 2);
    assert("type"@.len() == 4);
    assert("function"@.len() == 8);
    assert("name"@.len() == 4);
    assert("arguments"@.len() == 9);
}

/// What is offered of a function: that it is one, and its name, description,
/// parameters and strictness.
pub proof fn law_function_as_offered(tool: ResponsesApiToolView)
    ensures
        function_tool_json(tool).member("type"@) == Some(JsonView::Text("function"@)),
        function_tool_json(tool).member("function"@) is Some,
        function_tool_json(tool).member("function"@)->0.member("name"@) == Some(
            JsonView::Text(tool.name),
        ),
        function_tool_json(tool).member("function"@)->0.member("description"@) == Some(
            JsonView::Text(tool.description),
        ),
        function_tool_json(tool).member("function"@)->0.member("parameters"@) == Some(
            tool.parameters,
        ),
        function_tool_json(tool).member("function"@)->0.member("strict"@) == Some(
            JsonView::Bool(tool.strict),
        ),
{
    reveal_strlit("type");
    reveal_strlit("function");
    reveal_strlit("name");
    reveal_strlit("description");
    reveal_strlit("parameters");
    reveal_strlit("strict");
    assert("type"@.len() == 4);
    assert("function"@.len() == 8);
    assert("name"@.len() == 4);
    assert("description"@.len() == 11);
    assert("parameters"@.len() == 10);
    assert("strict"@.len() == 6);
}

/// The roles: the assistant stays, the system and the developer speak as the system,
/// and everybody else is the user.
pub proof fn law_role_of(role: Seq<char>)
    ensures
        role == "assistant"@ ==> role_of(role) == "assistant"@,
        role == "system"@ || role == "developer"@ ==> role_of(role) == "system"@,
        role != "assistant"@ && role != "system"@ && role != "developer"@ ==> role_of(role)
            == "user"@,
{
    reveal_strlit("assistant");
    reveal_strlit("system");
    reveal_strlit("developer");
    assert("system"@.len() != "assistant"@.len());
    assert("developer"@[0] != "assistant"@[0]);
}

/// Whether a part of a message is text.
pub open spec fn has_text(content: Seq<ContentItemView>) -> bool {
    exists|i: int| 0 <= i < content.len() && !((#[trigger] content[i]) is InputImage)
}

proof fn lemma_content_texts(first: Seq<ContentItemView>, second: Seq<ContentItemView>)
    ensures
        content_texts(first + second) == content_texts(first) + content_texts(second),
        content_texts(second).len() > 0 <==> has_text(second),
    decreases second.len(),
{
    if second.len() == 0 {
        assert(first + second =~= first);
        assert(content_texts(first) + content_texts(second) =~= content_texts(first));
    } else {
        let rest = second.drop_last();
        lemma_content_texts(first, rest);
        assert((first + second).drop_last() =~= first + rest);
        assert((first + second).last() == second.last());
        assert(content_texts(first + second) =~= content_texts(first) + content_texts(second));
        if has_text(rest) {
            let i = choose|i: int| 0 <= i < rest.len() && !((#[trigger] rest[i]) is InputImage);
            assert(!(second[i] is InputImage));
        }
        if has_text(second) && !has_text(rest) {
            let i = choose|i: int| 0 <= i < second.len() && !((#[trigger] second[i]) is InputImage);
            if i < rest.len() {
                assert(!(rest[i] is InputImage));
            }
        }
        if !(second.last() is InputImage) {
            assert(!(second[second.len() - 1] is InputImage));
        }
    }
}

/// The text of a message: that of a text part is the part itself, an image has none,
/// and parts that have text follow each other on lines of their own.
pub proof fn law_message_text(
    first: Seq<ContentItemView>,
    second: Seq<ContentItemView>,
    text: Seq<char>,
    image_url: Seq<char>,
)
    ensures
        message_text(Seq::empty()).len() == 0,
        message_text(seq![ContentItemView::InputText { text }]) == text,
        message_text(seq![ContentItemView::OutputText { text }]) == text,
        message_text(seq![ContentItemView::InputImage { image_url }]).len() == 0,
        message_text(first + second) == if !has_text(first) {
            message_text(second)
        } else if !has_text(second) {
            message_text(first)
        } else {
            message_text(first) + seq!['\n'] + message_text(second)
        },
{
    reveal_strlit("\n");
    assert("\n"@ =~= seq!['\n']);
    lemma_content_texts(first, second);
    lemma_content_texts(Seq::empty(), first);
    law_joined(content_texts(first), content_texts(second), text, "\n"@);
    if !has_text(first) {
        assert(content_texts(first) + content_texts(second) =~= content_texts(second));
    } else if !has_text(second) {
        assert(content_texts(first) + content_texts(second) =~= content_texts(first));
    }
    reveal_with_fuel(content_texts, 2);
    let input = seq![ContentItemView::InputText { text }];
    let output = seq![ContentItemView::OutputText { text }];
    let image = seq![ContentItemView::InputImage { image_url }];
    assert(input.drop_last() =~= Seq::empty());
    assert(output.drop_last() =~= Seq::empty());
    assert(image.drop_last() =~= Seq::empty());
    assert(content_texts(input) =~= seq![text]);
    assert(content_texts(output) =~= seq![text]);
    assert(content_texts(image) =~= Seq::empty());
}

/// The messages that one item of a conversation is sent as, by all that they hold: a
/// message that has a character that is not white space as one of its role with its
/// text, a call as one of the assistant with that call, an output as one of the tool
/// that answers the call, and nothing for any other item.
pub open spec fn sent_for(item: ResponseItemView) -> Seq<ChatMessageView> {
    match item {
        ResponseItemView::Message { role, content, .. } => {
            let text = message_text(content);
            if exists|i: int| 0 <= i < text.len() && !white_space(#[trigger] text[i]) {
                seq![
                    ChatMessageView {
                        role: if role == "assistant"@ {
                            "assistant"@
                        } else if role == "system"@ || role == "developer"@ {
                            "system"@
                        } else {
                            "user"@
                        },
                        content: Some(text),
                        tool_call_id: None,
                        tool_calls: None,
                    },
                ]
            } else {
                Seq::empty()
            }
        },
        ResponseItemView::FunctionCall { name, arguments, call_id, .. } => seq![
            call_sent(name, arguments, call_id),
        ],
        ResponseItemView::CustomToolCall { name, input, call_id } => seq![
            call_sent(name, input, call_id),
        ],
        ResponseItemView::FunctionCallOutput { call_id, output } => seq![
            answer_sent(Some(call_id), or_empty(output)),
        ],
        ResponseItemView::CustomToolCallOutput { call_id, output } => seq![
            answer_sent(Some(call_id), or_empty(output)),
        ],
        ResponseItemView::ToolSearchOutput { call_id, status, execution, tools } => {
            let found = Map::empty().insert("status"@, JsonView::Text(status)).insert(
                "execution"@,
                JsonView::Text(execution),
            ).insert("tools"@, JsonView::Array(tools));
            seq![answer_sent(call_id, json_display(JsonView::Object(found)))]
        },
        _ => Seq::empty(),
    }
}

/// A message of the assistant that makes one call.
pub open spec fn call_sent(
    name: Seq<char>,
    arguments: Seq<char>,
    call_id: Seq<char>,
) -> ChatMessageView {
    ChatMessageView {
        role: "assistant"@,
        content: None,
        tool_call_id: None,
        tool_calls: Some(
            seq![ChatToolCallView { id: call_id, kind: "function"@, name, arguments }],
        ),
    }
}

/// A message of a tool that answers a call.
pub open spec fn answer_sent(call_id: Option<Seq<char>>, text: Seq<char>) -> ChatMessageView {
    ChatMessageView {
        role: "tool"@,
        content: Some(text),
        tool_call_id: call_id,
        tool_calls: None,
    }
}

proof fn lemma_messages_apart(messages: Seq<ChatMessageView>, items: Seq<ResponseItemView>)
    ensures
        with_messages_of(messages, items) == messages + with_messages_of(Seq::empty(), items),
    decreases items.len(),
{
    if items.len() > 0 {
        lemma_messages_apart(messages, items.drop_last());
    }
    assert(with_messages_of(messages, items) =~= messages + with_messages_of(Seq::empty(), items));
}

/// Adding an item to messages adds what it is sent as, and nothing else changes.
pub proof fn law_item_is_appended(messages: Seq<ChatMessageView>, item: ResponseItemView)
    ensures
        with_messages_of(messages, seq![item]) == messages + sent_for(item),
        message_of(item) is Some ==> sent_for(item) == seq![message_of(item)->0],
        message_of(item) is None ==> sent_for(item).len() == 0,
{
    reveal_with_fuel(with_messages_of, 2);
    let one = seq![item];
    assert(one.drop_last() =~= Seq::empty());
    assert(one.last() == item);
    if let ResponseItemView::Message { role, content, .. } = item {
        law_blank(message_text(content));
        law_role_of(role);
    }
    assert(with_messages_of(messages, one) =~= messages + sent_for(item));
}

/// Every item of the conversation has its place in the request: the messages are
/// those of the request without it and what follows, then what the item is sent as,
/// then those of the items that follow.
pub proof fn law_every_item_has_its_place(prompt: PromptView, model: Seq<char>, i: int)
    requires
        0 <= i < prompt.formatted_input.len(),
    ensures
        ({
            let items = prompt.formatted_input;
            let earlier = PromptView { formatted_input: items.take(i), ..prompt };
            let later = PromptView {
                base_instructions: Seq::empty(),
                formatted_input: items.skip(i + 1),
                ..prompt
            };
            request_of(prompt, model).messages == request_of(earlier, model).messages + sent_for(
                items[i],
            ) + request_of(later, model).messages
        }),
{
    let items = prompt.formatted_input;
    let opening = instruction_messages(prompt.base_instructions);
    let earlier = with_messages_of(opening, items.take(i));
    assert(items =~= items.take(i + 1) + items.skip(i + 1));
    assert(items.take(i + 1) =~= items.take(i) + seq![items[i]]);
    law_conversation_extends(opening, items.take(i + 1), items.skip(i + 1));
    law_conversation_extends(opening, items.take(i), seq![items[i]]);
    law_item_is_appended(earlier, items[i]);
    lemma_messages_apart(earlier + sent_for(items[i]), items.skip(i + 1));
    law_blank(Seq::empty());
}

/// A request without a conversation has the base instructions alone, as the system's
/// message, where they have a character that is not white space.
pub proof fn law_instructions_alone(prompt: PromptView, model: Seq<char>)
    requires
        prompt.formatted_input.len() == 0,
    ensures
        ({
            let text = prompt.base_instructions;
            request_of(prompt, model).messages == if exists|i: int|
                0 <= i < text.len() && !white_space(#[trigger] text[i]) {
                seq![
                    ChatMessageView {
                        role: "system"@,
                        content: Some(text),
                        tool_call_id: None,
                        tool_calls: None,
                    },
                ]
            } else {
                Seq::empty()
            }
        }),
{
    law_blank(prompt.base_instructions);
}

/// The functions on offer: a function is itself, a namespace is its functions in
/// order, any other tool is none, and tools offer what each of them offers, in order.
pub proof fn law_functions_of_tools(
    first: Seq<ToolSpecView>,
    second: Seq<ToolSpecView>,
    function: ResponsesApiToolView,
    functions: Seq<ResponsesApiToolView>,
    tool: ToolSpecView,
)
    ensures
        all_functions(Seq::empty()).len() == 0,
        all_functions(seq![ToolSpecView::Function(function)]) == seq![function],
        all_functions(seq![ToolSpecView::Namespace(functions)]) == functions,
        hosted_only(tool) ==> all_functions(seq![tool]).len() == 0,
        all_functions(first + second) == all_functions(first) + all_functions(second),
    decreases second.len(),
{
    reveal_with_fuel(all_functions, 2);
    let one = seq![ToolSpecView::Function(function)];
    let many = seq![ToolSpecView::Namespace(functions)];
    let other = seq![tool];
    assert(one.drop_last() =~= Seq::empty());
    assert(many.drop_last() =~= Seq::empty());
    assert(other.drop_last() =~= Seq::empty());
    assert(all_functions(one) =~= seq![function]);
    assert(all_functions(many) =~= functions);
    if second.len() == 0 {
        assert(first + second =~= first);
        assert(all_functions(first) + all_functions(second) =~= all_functions(first));
    } else {
        law_functions_of_tools(first, second.drop_last(), function, functions, tool);
        assert((first + second).drop_last() =~= first + second.drop_last());
        assert((first + second).last() == second.last());
        assert(all_functions(first + second) =~= all_functions(first) + all_functions(second));
    }
}

/// The members of a JSON value: there are these and no others.
pub open spec fn has_members(value: JsonView, keys: Set<Seq<char>>) -> bool {
    value is Object && value->Object_0.dom() == keys
}

/// A function is offered as an object of these members and no others.
pub open spec fn offered_as(value: JsonView, tool: ResponsesApiToolView) -> bool {
    &&& has_members(value, set!["type"@, "function"@])
    &&& value->Object_0["type"@] == JsonView::Text("function"@)
    &&& has_members(
        value->Object_0["function"@],
        set!["name"@, "description"@, "parameters"@, "strict"@],
    )
    &&& ({
        let function = value->Object_0["function"@]->Object_0;
        &&& function["name"@] == JsonView::Text(tool.name)
        &&& function["description"@] == JsonView::Text(tool.description)
        &&& function["parameters"@] == tool.parameters
        &&& function["strict"@] == JsonView::Bool(tool.strict)
    })
}

/// The tools of a request are as many as the functions on offer, each of them offered
/// in its place, and the choice among them is automatic where there are any. The
/// model is the one asked for, and the answer is streamed.
pub proof fn law_functions_are_offered(prompt: PromptView, model: Seq<char>)
    ensures
        ({
            let request = request_of(prompt, model);
            let functions = all_functions(prompt.tools);
            &&& request.tools.len() == functions.len()
            &&& forall|i: int|
                0 <= i < functions.len() ==> offered_as(#[trigger] request.tools[i], functions[i])
            &&& request.tool_choice == if functions.len() > 0 {
                Some("auto"@)
            } else {
                None
            }
            &&& request.model == model
            &&& request.stream
        }),
{
    let request = request_of(prompt, model);
    let functions = all_functions(prompt.tools);
    assert forall|i: int| 0 <= i < functions.len() implies offered_as(
        #[trigger] request.tools[i],
        functions[i],
    ) by {
        law_function_as_offered(functions[i]);
        let value = request.tools[i];
        assert(value->Object_0.dom() =~= set!["type"@, "function"@]);
        assert(value->Object_0["function"@]->Object_0.dom() =~= set![
            "name"@,
            "description"@,
            "parameters"@,
            "strict"@,
        ]);
    }
}

/// A call is sent as an object of these members and no others.
pub open spec fn call_sent_as(value: JsonView, call: ChatToolCallView) -> bool {
    &&& has_members(value, set!["id"@, "type"@, "function"@])
    &&& value->Object_0["id"@] == JsonView::Text(call.id)
    &&& value->Object_0["type"@] == JsonView::Text(call.kind)
    &&& has_members(value->Object_0["function"@], set!["name"@, "arguments"@])
    &&& value->Object_0["function"@]->Object_0["name"@] == JsonView::Text(call.name)
    &&& value->Object_0["function"@]->Object_0["arguments"@] == JsonView::Text(call.arguments)
}

/// A message is sent as an object with its role and with those of its text, the call
/// that it answers and its calls that it has, and with nothing else. All its calls are
/// sent, each in its place.
pub open spec fn message_sent_as(value: JsonView, message: ChatMessageView) -> bool {
    let members = value->Object_0;
    &&& value is Object
    &&& forall|key: Seq<char>| #[trigger]
        members.contains_key(key) <==> {
            ||| key == "role"@
            ||| key == "content"@ && message.content is Some
            ||| key == "tool_call_id"@ && message.tool_call_id is Some
            ||| key == "tool_calls"@ && message.tool_calls is Some
        }
    &&& members["role"@] == JsonView::Text(message.role)
    &&& message.content is Some ==> members["content"@] == JsonView::Text(message.content->0)
    &&& message.tool_call_id is Some ==> members["tool_call_id"@] == JsonView::Text(
        message.tool_call_id->0,
    )
    &&& message.tool_calls is Some ==> {
        &&& members["tool_calls"@] is Array
        &&& members["tool_calls"@]->Array_0.len() == message.tool_calls->0.len()
        &&& forall|i: int|
            0 <= i < message.tool_calls->0.len() ==> call_sent_as(
                #[trigger] members["tool_calls"@]->Array_0[i],
                message.tool_calls->0[i],
            )
    }
}

/// What is sent of a message, and nothing else.
pub proof fn law_message_is_sent_whole(message: ChatMessageView)
    ensures
        message_sent_as(message_json(message), message),
{
    let value = message_json(message);
    law_message_as_sent(message);
    if let Some(calls) = message.tool_calls {
        assert forall|i: int| 0 <= i < calls.len() implies call_sent_as(
            #[trigger] value->Object_0["tool_calls"@]->Array_0[i],
            calls[i],
        ) by {
            law_tool_call_as_sent(calls[i]);
            let call = tool_call_json(calls[i]);
            assert(call->Object_0.dom() =~= set!["id"@, "type"@, "function"@]);
            assert(call->Object_0["function"@]->Object_0.dom() =~= set!["name"@, "arguments"@]);
        }
    }
}

/// A request is sent whole, and nothing else is: the model, whether to stream, every
/// message in its place, and the tools, every one in its place, and the choice exactly
/// where there are any.
pub proof fn law_request_is_sent_whole(request: ChatCompletionRequestView)
    ensures
        ({
            let members = request_json(request)->Object_0;
            &&& request_json(request) is Object
            &&& forall|key: Seq<char>| #[trigger]
                members.contains_key(key) <==> {
                    ||| key == "model"@
                    ||| key == "messages"@
                    ||| key == "stream"@
                    ||| key == "tools"@ && request.tools.len() > 0
                    ||| key == "tool_choice"@ && request.tool_choice is Some
                }
            &&& members["model"@] == JsonView::Text(request.model)
            &&& members["stream"@] == JsonView::Bool(request.stream)
            &&& members["messages"@] is Array
            &&& members["messages"@]->Array_0.len() == request.messages.len()
            &&& forall|i: int|
                0 <= i < request.messages.len() ==> message_sent_as(
                    #[trigger] members["messages"@]->Array_0[i],
                    request.messages[i],
                )
            &&& request.tools.len() > 0 ==> members["tools"@] == JsonView::Array(request.tools)
            &&& request.tool_choice is Some ==> members["tool_choice"@] == JsonView::Text(
                request.tool_choice->0,
            )
        }),
{
    lemma_request_keys();
    let members = request_json(request)->Object_0;
    assert forall|i: int| 0 <= i < request.messages.len() implies message_sent_as(
        #[trigger] members["messages"@]->Array_0[i],
        request.messages[i],
    ) by {
        law_message_is_sent_whole(request.messages[i]);
    }
}

/// The text of a tool's output is the output, empty where there is none.
pub proof fn law_output_text(text: Seq<char>)
    ensures
        output_text(Some(text)) == text,
        output_text(None).len() == 0,
{
}

} // verus!
