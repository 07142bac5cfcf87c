use deepseek_recipe::chat_completion::{
    ChatCompletionFunctionDefinition, ChatCompletionNamedToolChoice, ChatCompletionReasoningEffort, ChatCompletionRequest,
    ChatCompletionRequestContent, ChatCompletionRequestFunctionCall, ChatCompletionRequestMessage, ChatCompletionRequestToolCall,
    ChatCompletionResponseFormat, ChatCompletionStopSequences, ChatCompletionStreamOptions, ChatCompletionTool,
    ChatCompletionToolChoiceFunction, ChatCompletionToolChoiceOption, ChatCompletionToolType,
};
use deepseek_recipe::conversation::{InputMessage, ReasoningEffort, ResponseFormat, ToolChoice};
use deepseek_recipe::request::{ConversionError, ConversionOptions};

fn text(s: &str) -> ChatCompletionRequestContent {
    ChatCompletionRequestContent::String(s.to_string())
}

fn user(s: &str) -> ChatCompletionRequestMessage {
    ChatCompletionRequestMessage::User { content: text(s) }
}

fn request(messages: Vec<ChatCompletionRequestMessage>) -> ChatCompletionRequest {
    ChatCompletionRequest {
        messages,
        model: "deepseek-chat".to_string(),
        penalty_error: None,
        sampling_error: None,
        max_tokens: None,
        n: None,
        seed: None,
        stop: None,
        stream: None,
        stream_options: None,
        response_format: None,
        tools: None,
        tool_choice: None,
        reasoning_effort: None,
        thinking: None,
        parallel_tool_calls: None,
    }
}

fn detail(r: Result<deepseek_recipe::request::ConversationRequest, ConversionError>) -> String {
    match r.err().expect("conversion fails") {
        ConversionError::BadRequest { detail } => detail,
        ConversionError::Internal { detail } => panic!("internal error {detail}"),
    }
}

fn tool_call(id: &str) -> ChatCompletionRequestToolCall {
    ChatCompletionRequestToolCall {
        id: id.to_string(),
        function: ChatCompletionRequestFunctionCall { name: "f".to_string(), arguments: "{}".to_string() },
    }
}

fn tool_result(id: &str) -> ChatCompletionRequestMessage {
    ChatCompletionRequestMessage::Tool { content: text("ok"), tool_call_id: id.to_string() }
}

fn calls(ids: &[&str]) -> ChatCompletionRequestMessage {
    ChatCompletionRequestMessage::Assistant { content: None, reasoning_content: None, tool_calls: Some(ids.iter().map(|i| tool_call(i)).collect()) }
}

#[test]
fn a_simple_request_converts() {
    let out = request(vec![ChatCompletionRequestMessage::System { content: text("be nice") }, user("hi")])
        .convert(ConversionOptions::new())
        .unwrap();
    assert_eq!(
        out.conversation.messages,
        vec![
            InputMessage::System { content: "be nice".to_string() },
            InputMessage::User { content: "hi".to_string(), image_sources: Vec::new() },
        ]
    );
    assert!(out.conversation.thinking_mode);
    assert_eq!(out.conversation.reasoning_effort, Some(ReasoningEffort::High));
    assert_eq!(out.conversation.tool_choice, ToolChoice::Auto);
    assert!(!out.stream);
}

#[test]
fn empty_system_messages_are_dropped() {
    let out = request(vec![ChatCompletionRequestMessage::System { content: text("") }, user("hi")])
        .convert(ConversionOptions::new().with_default_thinking_mode(false))
        .unwrap();
    assert_eq!(out.conversation.messages.len(), 1);
    assert!(!out.conversation.thinking_mode);
    assert_eq!(out.conversation.reasoning_effort, None);
}

#[test]
fn reasoning_effort_maps_to_levels() {
    let mut req = request(vec![user("hi")]);
    req.reasoning_effort = Some(ChatCompletionReasoningEffort::Minimal);
    let out = req.convert(ConversionOptions::new().with_default_thinking_mode(false)).unwrap();
    assert!(out.conversation.thinking_mode);
    assert_eq!(out.conversation.reasoning_effort, Some(ReasoningEffort::Low));

    let mut req = request(vec![user("hi")]);
    req.reasoning_effort = Some(ChatCompletionReasoningEffort::Off);
    let out = req.convert(ConversionOptions::new()).unwrap();
    assert!(!out.conversation.thinking_mode);
}

#[test]
fn tool_calls_are_followed_by_their_results() {
    let out = request(vec![user("q"), calls(&["a", "b"]), tool_result("b"), tool_result("a")])
        .convert(ConversionOptions::new())
        .unwrap();
    assert_eq!(out.conversation.messages.len(), 4);
    assert!(matches!(&out.conversation.messages[1], InputMessage::Assistant { tool_calls: Some(c), .. } if c.len() == 2));
    assert!(matches!(&out.conversation.messages[2], InputMessage::Tool { tool_call_id, .. } if tool_call_id == "b"));
}

#[test]
fn message_errors() {
    assert_eq!(detail(request(Vec::new()).convert(ConversionOptions::new())), "Empty input messages");
    assert_eq!(
        detail(request(vec![user("q"), tool_result("a")]).convert(ConversionOptions::new())),
        "Messages with role 'tool' must be a response to a preceding message with 'tool_calls'"
    );
    assert_eq!(
        detail(request(vec![user("q"), calls(&["a"])]).convert(ConversionOptions::new())),
        "An assistant message with 'tool_calls' must be followed by tool messages responding to each 'tool_call_id'. (insufficient tool messages following tool_calls message)"
    );
    assert_eq!(
        detail(request(vec![user("q"), calls(&["a"]), tool_result("z")]).convert(ConversionOptions::new())),
        "An assistant message with 'tool_calls' must be followed by tool messages responding to each 'tool_call_id'. Unexpected tool_call_id: z"
    );
    assert_eq!(
        detail(request(vec![user("q"), calls(&["a", "a"])]).convert(ConversionOptions::new())),
        "Duplicate value for 'tool_call_id' of a in message[1]"
    );
    assert_eq!(
        detail(request(vec![user("q"), calls(&[])]).convert(ConversionOptions::new())),
        "Invalid 'messages[1].tool_calls': empty array. Expected an array with minimum length 1, but got an empty array instead."
    );
    let empty_assistant = ChatCompletionRequestMessage::Assistant { content: None, reasoning_content: None, tool_calls: None };
    assert_eq!(
        detail(request(vec![user("q"), empty_assistant]).convert(ConversionOptions::new())),
        "Invalid assistant message: content or tool_calls must be set"
    );
}

#[test]
fn inference_settings_are_checked() {
    let mut req = request(vec![user("q")]);
    req.n = Some(2);
    assert_eq!(detail(req.convert(ConversionOptions::new())), "Invalid n value (currently only n = 1 is supported)");

    let mut req = request(vec![user("q")]);
    req.seed = Some(1u64 << 63);
    assert_eq!(detail(req.convert(ConversionOptions::new())), "seed must be in [0, 2^63)");

    let mut req = request(vec![user("q")]);
    req.max_tokens = Some(0);
    assert_eq!(detail(req.convert(ConversionOptions::new())), "max_tokens must be greater than zero");

    let mut req = request(vec![user("q")]);
    req.stop = Some(ChatCompletionStopSequences::Array((0..17).map(|i| i.to_string()).collect()));
    assert_eq!(detail(req.convert(ConversionOptions::new())), "ChatCompletionStopSequences string array too long: 17");

    let mut req = request(vec![user("q")]);
    req.stream_options = Some(ChatCompletionStreamOptions { include_usage: Some(true) });
    assert_eq!(detail(req.convert(ConversionOptions::new())), "stream_options should be set along with stream = true");
}

#[test]
fn response_formats() {
    let mut req = request(vec![user("q")]);
    req.response_format = Some(ChatCompletionResponseFormat::JsonObject);
    assert_eq!(
        detail(req.convert(ConversionOptions::new())),
        "Prompt must contain the word 'json' in some form to use 'response_format' of type 'json_object'."
    );
    let mut req = request(vec![user("reply in Json")]);
    req.response_format = Some(ChatCompletionResponseFormat::JsonObject);
    assert_eq!(req.convert(ConversionOptions::new()).unwrap().conversation.response_format, ResponseFormat::JsonObject);
    let mut req = request(vec![user("q")]);
    req.response_format = Some(ChatCompletionResponseFormat::Regex { regex: "a+".to_string() });
    assert_eq!(detail(req.convert(ConversionOptions::new())), "response_format: only text and json_object are supported");
}

#[test]
fn named_tool_choice_keeps_one_tool() {
    let tool = |name: &str| ChatCompletionTool {
        tool_type: ChatCompletionToolType::Function,
        function: ChatCompletionFunctionDefinition { name: name.to_string(), description: None, parameters: None, strict: None },
    };
    let mut req = request(vec![user("q")]);
    req.tools = Some(vec![tool("a"), tool("b")]);
    req.tool_choice = Some(ChatCompletionToolChoiceOption::Named(ChatCompletionNamedToolChoice {
        tool_type: ChatCompletionToolType::Function,
        function: ChatCompletionToolChoiceFunction { name: "b".to_string() },
    }));
    let out = req.convert(ConversionOptions::new().with_default_thinking_mode(false)).unwrap();
    assert_eq!(out.conversation.tools.len(), 1);
    assert_eq!(out.conversation.tools[0].name, "b");
    assert_eq!(out.conversation.tool_choice, ToolChoice::Required);
    assert!(out.parsing_options.tool_call_initial_stage);

    let mut req = request(vec![user("q")]);
    req.tools = Some(vec![tool("bad name")]);
    assert_eq!(
        detail(req.convert(ConversionOptions::new())),
        "tools.0.function.name: expected 1-128 ASCII letters, digits, underscores or hyphens"
    );
}
