use deepseek_recipe::conversation::{InputMessage, ResponseFormat, ToolChoice};
use deepseek_recipe::json::JsonValue;
use deepseek_recipe::request::{ConversionError, ConversionOptions, WebSearchBehavior};
use deepseek_recipe::responses_convert::transform_input_items;
use deepseek_recipe::responses_request::{
    ResponsesContentBlock, ResponsesCustomToolCall, ResponsesCustomToolCallOutput, ResponsesFunctionCall,
    ResponsesFunctionCallOutput, ResponsesFunctionTool, ResponsesInput, ResponsesInputItem, ResponsesInputMessage,
    ResponsesMessageContent, ResponsesMessageRole, ResponsesNamedToolChoice, ResponsesNamespaceTool,
    ResponsesReasoningConfig, ResponsesReasoningContent, ResponsesReasoningEffort, ResponsesReasoningItem,
    ResponsesRequest, ResponsesTextConfig, ResponsesTextFormat, ResponsesTool, ResponsesToolCallOutputContent,
    ResponsesToolChoice, ResponsesToolChoiceMode, ResponsesTypedInputItem,
};
use deepseek_recipe::responses_tools::ResponsesToolSet;

fn function(name: &str) -> ResponsesFunctionTool {
    ResponsesFunctionTool { name: name.to_string(), description: None, parameters: None, strict: None }
}

fn detail(error: ConversionError) -> String {
    match error {
        ConversionError::BadRequest { detail } => detail,
        ConversionError::Internal { detail } => panic!("unexpected internal error: {detail}"),
    }
}

fn user(text: &str) -> ResponsesInputItem {
    ResponsesInputItem::Message(ResponsesInputMessage {
        role: ResponsesMessageRole::User,
        content: ResponsesMessageContent::String(text.to_string()),
    })
}

fn assistant(text: &str) -> ResponsesInputItem {
    ResponsesInputItem::Message(ResponsesInputMessage {
        role: ResponsesMessageRole::Assistant,
        content: ResponsesMessageContent::String(text.to_string()),
    })
}

fn call(id: &str, name: &str) -> ResponsesInputItem {
    ResponsesInputItem::Typed(ResponsesTypedInputItem::FunctionCall(ResponsesFunctionCall {
        arguments: "{}".to_string(),
        call_id: id.to_string(),
        name: name.to_string(),
        namespace: None,
    }))
}

fn output(id: &str, text: &str) -> ResponsesInputItem {
    ResponsesInputItem::Typed(ResponsesTypedInputItem::FunctionCallOutput(ResponsesFunctionCallOutput {
        call_id: id.to_string(),
        output: ResponsesToolCallOutputContent::String(text.to_string()),
    }))
}

fn no_tools() -> ResponsesToolSet {
    ResponsesToolSet::convert(None, &ConversionOptions::new()).unwrap()
}

fn request(input: Option<ResponsesInput>) -> ResponsesRequest {
    ResponsesRequest {
        model: "deepseek".to_string(),
        input,
        instructions: None,
        max_output_tokens: None,
        reasoning: None,
        stream: None,
        sampling_error: None,
        text: None,
        tool_choice: None,
        tools: None,
        user: None,
    }
}

fn names(tools: &[deepseek_recipe::conversation::ToolDefinition]) -> Vec<String> {
    tools.iter().map(|t| t.name.clone()).collect()
}

#[test]
fn namespaced_functions_get_joined_names() {
    let tools = vec![
        ResponsesTool::Function(function("read")),
        ResponsesTool::Namespace {
            name: "files".to_string(),
            description: Some("File access".to_string()),
            tools: vec![ResponsesNamespaceTool::Function(function("read")), ResponsesNamespaceTool::Function(function("write"))],
        },
    ];
    let set = ResponsesToolSet::convert(Some(tools), &ConversionOptions::new()).unwrap();
    let (defs, choice) = set.select(None, false, &ConversionOptions::new()).unwrap();
    assert_eq!(names(&defs), vec!["read", "files::read", "files::write"]);
    assert_eq!(defs[1].description.as_deref(), Some("File access\n"));
    assert_eq!(defs[1].parameters, JsonValue::Object(Vec::new()));
    assert_eq!(choice, ToolChoice::Auto);
}

#[test]
fn namespace_errors_name_their_paths() {
    let duplicate = vec![
        ResponsesTool::Namespace { name: "ns".to_string(), description: None, tools: Vec::new() },
        ResponsesTool::Namespace { name: "ns".to_string(), description: None, tools: Vec::new() },
    ];
    let error = ResponsesToolSet::convert(Some(duplicate), &ConversionOptions::new()).err().unwrap();
    assert_eq!(detail(error), "tools[1]: duplicate namespace name 'ns'");

    let custom = vec![ResponsesTool::Namespace {
        name: "ns".to_string(),
        description: None,
        tools: vec![ResponsesNamespaceTool::Custom { name: "x".to_string() }],
    }];
    let error = ResponsesToolSet::convert(Some(custom), &ConversionOptions::new()).err().unwrap();
    assert_eq!(detail(error), "tools[0].tools[0]: custom tools are not supported inside a namespace");

    let repeated = vec![ResponsesTool::Namespace {
        name: "ns".to_string(),
        description: None,
        tools: vec![ResponsesNamespaceTool::Function(function("a")), ResponsesNamespaceTool::Function(function("a"))],
    }];
    let error = ResponsesToolSet::convert(Some(repeated), &ConversionOptions::new()).err().unwrap();
    assert_eq!(detail(error), "tools[0].tools[1]: tool names within a namespace must be unique");

    let bad = vec![ResponsesTool::Function(function("bad name"))];
    let error = ResponsesToolSet::convert(Some(bad), &ConversionOptions::new()).err().unwrap();
    assert_eq!(detail(error), "tools[0].name: expected 1-128 ASCII letters, digits, underscores or hyphens");
}

#[test]
fn only_the_apply_patch_custom_tool_is_supported() {
    let tools = vec![ResponsesTool::Custom { name: "apply_patch".to_string() }];
    let set = ResponsesToolSet::convert(Some(tools), &ConversionOptions::new()).unwrap();
    let (defs, _) = set.select(None, false, &ConversionOptions::new()).unwrap();
    assert_eq!(names(&defs), vec!["apply_patch"]);
    assert!(defs[0].description.as_deref().unwrap().starts_with("Use the `apply_patch` tool to edit files."));

    let tools = vec![ResponsesTool::Custom { name: "shell".to_string() }];
    let error = ResponsesToolSet::convert(Some(tools), &ConversionOptions::new()).err().unwrap();
    assert_eq!(detail(error), "Unsupported custom tool: 'shell'. Only 'apply_patch' is supported");
}

#[test]
fn web_search_follows_the_options() {
    let ignore = ConversionOptions::new();
    let reject = ConversionOptions::new().with_responses_web_search(WebSearchBehavior::Reject);
    let set = ResponsesToolSet::convert(Some(vec![ResponsesTool::WebSearch]), &ignore).unwrap();
    let choice = Some(ResponsesToolChoice::Named(ResponsesNamedToolChoice::WebSearch));
    assert_eq!(set.select(choice, false, &ignore).unwrap().1, ToolChoice::Auto);
    let error = ResponsesToolSet::convert(Some(vec![ResponsesTool::WebSearch]), &reject).err().unwrap();
    assert_eq!(detail(error), "Server tools are not supported");
}

#[test]
fn tool_choices_select_tools() {
    let options = ConversionOptions::new();
    let tools = || Some(vec![ResponsesTool::Function(function("a")), ResponsesTool::Function(function("b"))]);

    let set = ResponsesToolSet::convert(tools(), &options).unwrap();
    let named = Some(ResponsesToolChoice::Named(ResponsesNamedToolChoice::Function { name: "b".to_string() }));
    let (defs, choice) = set.select(named, false, &options).unwrap();
    assert_eq!(names(&defs), vec!["b"]);
    assert_eq!(choice, ToolChoice::Required);

    let set = ResponsesToolSet::convert(tools(), &options).unwrap();
    let missing = Some(ResponsesToolChoice::Named(ResponsesNamedToolChoice::Custom { name: "c".to_string() }));
    assert_eq!(detail(set.select(missing, false, &options).err().unwrap()), "tool_choice: no tool named 'c' was specified");

    let set = ResponsesToolSet::convert(tools(), &options).unwrap();
    let required = Some(ResponsesToolChoice::Mode(ResponsesToolChoiceMode::Required));
    assert_eq!(detail(set.select(required, true, &options).err().unwrap()), "Thinking mode does not support this tool_choice");

    let set = ResponsesToolSet::convert(tools(), &options).unwrap();
    let disabled = Some(ResponsesToolChoice::Mode(ResponsesToolChoiceMode::Disabled));
    let (defs, choice) = set.select(disabled, true, &options).unwrap();
    assert!(defs.is_empty());
    assert_eq!(choice, ToolChoice::Disabled);

    let repeated = Some(vec![ResponsesTool::Function(function("a")), ResponsesTool::Function(function("a"))]);
    let set = ResponsesToolSet::convert(repeated, &options).unwrap();
    assert_eq!(detail(set.select(None, false, &options).err().unwrap()), "Tool names must be unique");
}

#[test]
fn parameter_schemas_must_be_objects() {
    let options = ConversionOptions::new();
    let mut tool = function("a");
    tool.parameters = Some(JsonValue::Array(Vec::new()));
    let set = ResponsesToolSet::convert(Some(vec![ResponsesTool::Function(tool)]), &options).unwrap();
    assert_eq!(
        detail(set.select(None, false, &options).err().unwrap()),
        "Tool 'a' parameters must be a JSON Schema of type object"
    );
}

#[test]
fn historical_namespaced_calls_keep_one_name() {
    let tools = vec![ResponsesTool::Namespace {
        name: "ns".to_string(),
        description: None,
        tools: vec![ResponsesNamespaceTool::Function(function("f"))],
    }];
    let set = ResponsesToolSet::convert(Some(tools), &ConversionOptions::new()).unwrap();
    let mut historical = Vec::new();
    let make = |namespace: &str, name: &str| ResponsesFunctionCall {
        arguments: "{}".to_string(),
        call_id: "c".to_string(),
        name: name.to_string(),
        namespace: Some(namespace.to_string()),
    };
    assert_eq!(set.function_call(make("ns", "f"), &mut historical).name, "ns::f");
    assert!(historical.is_empty());
    let first = set.function_call(make("a", "b::c"), &mut historical);
    let second = set.function_call(make("a::b", "c"), &mut historical);
    let again = set.function_call(make("a", "b::c"), &mut historical);
    assert_eq!(first.name, "a::b::c");
    assert_eq!(second.name, "a::b::c_1");
    assert_eq!(again.name, "a::b::c");
    assert_eq!(historical.len(), 2);
    let plain = set.function_call(
        ResponsesFunctionCall { arguments: "{}".to_string(), call_id: "d".to_string(), name: "g".to_string(), namespace: None },
        &mut historical,
    );
    assert_eq!(plain.name, "g");
}

#[test]
fn tool_calls_are_grouped_and_sorted_by_id() {
    let items = vec![user("hi"), call("b", "f"), call("a", "g"), output("a", "A"), output("b", "B"), assistant("done")];
    let mut messages = Vec::new();
    transform_input_items(&items, &mut messages, &no_tools()).unwrap();
    assert_eq!(messages.len(), 5);
    match &messages[1] {
        InputMessage::Assistant { content, tool_calls: Some(calls), .. } => {
            assert_eq!(content, "");
            assert_eq!(calls.iter().map(|c| c.id.as_str()).collect::<Vec<_>>(), vec!["a", "b"]);
        },
        other => panic!("unexpected message {other:?}"),
    }
    assert!(matches!(&messages[2], InputMessage::Tool { content, tool_call_id, .. } if content == "A" && tool_call_id == "a"));
    assert!(matches!(&messages[3], InputMessage::Tool { content, tool_call_id, .. } if content == "B" && tool_call_id == "b"));
    assert!(matches!(&messages[4], InputMessage::Assistant { content, .. } if content == "done"));
}

#[test]
fn call_ids_are_checked() {
    let cases: Vec<(Vec<ResponsesInputItem>, &str)> = vec![
        (Vec::new(), "Input items array must not be empty"),
        (vec![call("a", "f")], "No tool output found for tool call a."),
        (vec![call("a", "f"), user("x")], "No tool output found for tool call a."),
        (vec![call("a", "f"), call("a", "g")], "Duplicate 'call_id': a."),
        (vec![output("z", "x")], "No tool call found for tool output with call_id z."),
        (vec![call("a", "f"), output("a", "x"), output("a", "y")], "Duplicate tool output for call_id: a."),
        (
            vec![call("", "f")],
            "Invalid 'input[0].call_id': empty string. Expected a string with minimum length 1, but got an empty string instead.",
        ),
    ];
    for (items, expected) in cases {
        let mut messages = Vec::new();
        let error = transform_input_items(&items, &mut messages, &no_tools()).err().unwrap();
        assert_eq!(detail(error), expected);
    }
}

#[test]
fn assistant_text_and_reasoning_merge() {
    let reasoning = |text: &str| {
        ResponsesInputItem::Typed(ResponsesTypedInputItem::Reasoning(ResponsesReasoningItem {
            content: Some(vec![ResponsesReasoningContent { text: text.to_string() }]),
            encrypted_content: None,
        }))
    };
    let items = vec![user("q"), reasoning("think"), reasoning("more"), assistant("one"), assistant("two")];
    let mut messages = Vec::new();
    transform_input_items(&items, &mut messages, &no_tools()).unwrap();
    assert_eq!(messages.len(), 2);
    match &messages[1] {
        InputMessage::Assistant { content, reasoning_content, tool_calls } => {
            assert_eq!(content, "one\n\ntwo");
            assert_eq!(reasoning_content.as_deref(), Some("think\nmore"));
            assert!(tool_calls.is_none());
        },
        other => panic!("unexpected message {other:?}"),
    }
}

#[test]
fn custom_tool_calls_carry_their_input_as_json() {
    let items = vec![
        ResponsesInputItem::Typed(ResponsesTypedInputItem::CustomToolCall(ResponsesCustomToolCall {
            call_id: "c".to_string(),
            name: "apply_patch".to_string(),
            input: "line \"1\"\n".to_string(),
        })),
        ResponsesInputItem::Typed(ResponsesTypedInputItem::CustomToolCallOutput(ResponsesCustomToolCallOutput {
            call_id: "c".to_string(),
            output: None,
        })),
    ];
    let mut messages = Vec::new();
    transform_input_items(&items, &mut messages, &no_tools()).unwrap();
    match &messages[0] {
        InputMessage::Assistant { tool_calls: Some(calls), .. } => {
            assert_eq!(calls[0].arguments, "{\"input\":\"line \\\"1\\\"\\n\"}");
        },
        other => panic!("unexpected message {other:?}"),
    }
    assert!(matches!(&messages[1], InputMessage::Tool { content, .. } if content.is_empty()));
}

#[test]
fn requests_convert_with_instructions_and_effort() {
    let mut req = request(Some(ResponsesInput::String("hello".to_string())));
    req.instructions = Some("be brief".to_string());
    req.reasoning = Some(ResponsesReasoningConfig { effort: Some(ResponsesReasoningEffort::Minimal), summary: None, generate_summary: None });
    req.max_output_tokens = Some(64);
    req.stream = Some(true);
    let out = req.convert(ConversionOptions::new()).unwrap();
    assert_eq!(out.conversation.messages.len(), 2);
    assert!(matches!(&out.conversation.messages[0], InputMessage::System { content } if content == "be brief"));
    assert!(out.conversation.thinking_mode);
    assert_eq!(out.conversation.reasoning_effort, Some(deepseek_recipe::conversation::ReasoningEffort::Low));
    assert_eq!(out.max_tokens, Some(64));
    assert!(out.stream);
    assert_eq!(out.model.as_deref(), Some("deepseek"));

    let mut off = request(Some(ResponsesInput::String("hello".to_string())));
    off.reasoning = Some(ResponsesReasoningConfig { effort: Some(ResponsesReasoningEffort::Off), summary: None, generate_summary: None });
    let out = off.convert(ConversionOptions::new()).unwrap();
    assert!(!out.conversation.thinking_mode);
    assert_eq!(out.conversation.reasoning_effort, None);
}

#[test]
fn request_errors() {
    let error = request(None).convert(ConversionOptions::new()).err().unwrap();
    assert_eq!(detail(error), "Either input or instructions must be provided");

    let mut zero = request(Some(ResponsesInput::String("x".to_string())));
    zero.max_output_tokens = Some(0);
    assert_eq!(detail(zero.convert(ConversionOptions::new()).err().unwrap()), "max_output_tokens must be greater than zero");

    let mut json = request(Some(ResponsesInput::String("x".to_string())));
    json.text = Some(ResponsesTextConfig { format: ResponsesTextFormat::JsonObject, verbosity: None });
    assert_eq!(
        detail(json.convert(ConversionOptions::new()).err().unwrap()),
        "Response input messages must contain the word 'json' to use text.format of type json_object"
    );

    let mut json = request(Some(ResponsesInput::String("answer in JSON".to_string())));
    json.text = Some(ResponsesTextConfig { format: ResponsesTextFormat::JsonObject, verbosity: None });
    let out = json.convert(ConversionOptions::new()).unwrap();
    assert_eq!(out.conversation.response_format, ResponseFormat::JsonObject);
    assert!(out.parsing_options.parse_json_output);

    let token = request(Some(ResponsesInput::String("<｜image｜>".to_string())));
    let error = token.convert(ConversionOptions::new()).err().unwrap();
    assert!(detail(error).contains("is not allowed for this API"));
}

#[test]
fn custom_tool_names_are_listed_once() {
    let mut req = request(None);
    req.tools = Some(vec![
        ResponsesTool::Custom { name: "apply_patch".to_string() },
        ResponsesTool::Function(function("f")),
        ResponsesTool::Custom { name: "apply_patch".to_string() },
    ]);
    assert_eq!(req.custom_tool_names(), vec!["apply_patch".to_string()]);
}

#[test]
fn message_blocks_join_with_blank_lines() {
    let item = ResponsesInputItem::Message(ResponsesInputMessage {
        role: ResponsesMessageRole::Developer,
        content: ResponsesMessageContent::List(vec![
            ResponsesContentBlock::InputText { text: "a".to_string() },
            ResponsesContentBlock::InputText { text: "b".to_string() },
        ]),
    });
    let mut messages = Vec::new();
    transform_input_items(&vec![item], &mut messages, &no_tools()).unwrap();
    assert!(matches!(&messages[0], InputMessage::User { content, .. } if content == "a\n\nb"));
}
