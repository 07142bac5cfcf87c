use deepseek_recipe::conversation::{InputMessage, ReasoningEffort, ToolChoice};
use deepseek_recipe::json::JsonValue;
use deepseek_recipe::messages::{
    MessagesContent, MessagesContentBlock, MessagesMessage, MessagesOutputConfig, MessagesReasoningEffort, MessagesRequest,
    MessagesTextOrTextBlocks, MessagesThinking, MessagesThinkingType, MessagesTool, MessagesToolChoice,
};
use deepseek_recipe::request::{ConversationRequest, ConversionError, ConversionOptions};

fn request(messages: Vec<MessagesMessage>) -> MessagesRequest {
    MessagesRequest {
        model: "deepseek-chat".to_string(),
        messages,
        system: None,
        max_tokens: Some(100),
        sampling_error: None,
        stop_sequences: None,
        stream: None,
        tools: None,
        tool_choice: None,
        thinking: None,
        output_config: None,
    }
}

fn user(s: &str) -> MessagesMessage {
    MessagesMessage::User(MessagesContent::Raw(s.to_string()))
}

fn detail(r: Result<ConversationRequest, ConversionError>) -> String {
    match r.err().expect("conversion fails") {
        ConversionError::BadRequest { detail } => detail,
        ConversionError::Internal { detail } => panic!("internal error {detail}"),
    }
}

fn tool_use(id: &str) -> MessagesContentBlock {
    MessagesContentBlock::ToolUse {
        id: id.to_string(),
        name: "get".to_string(),
        input: JsonValue::Object(vec![("city".to_string(), JsonValue::String("Paris".to_string()))]),
    }
}

fn tool_result(id: &str) -> MessagesContentBlock {
    MessagesContentBlock::ToolResult {
        tool_use_id: id.to_string(),
        content: Some(MessagesTextOrTextBlocks::Raw("sunny".to_string())),
        is_error: None,
    }
}

#[test]
fn system_text_and_messages_convert() {
    let mut req = request(vec![user("hi"), MessagesMessage::System(MessagesTextOrTextBlocks::Raw("note".to_string()))]);
    req.system = Some(MessagesTextOrTextBlocks::Raw("be kind".to_string()));
    let out = req.convert(ConversionOptions::new().with_default_thinking_mode(false)).unwrap();
    assert_eq!(
        out.conversation.messages,
        vec![
            InputMessage::System { content: "be kind".to_string() },
            InputMessage::User { content: "hi".to_string(), image_sources: Vec::new() },
            InputMessage::User { content: "<system-reminder>\nnote\n</system-reminder>".to_string(), image_sources: Vec::new() },
        ]
    );
    assert!(!out.conversation.thinking_mode);
    assert_eq!(out.max_tokens, Some(100));
}

#[test]
fn tool_use_blocks_become_tool_calls() {
    let req = request(vec![
        user("weather?"),
        MessagesMessage::Assistant(MessagesContent::Blocks(vec![
            MessagesContentBlock::Thinking { signature: None, thinking: "look it up".to_string() },
            tool_use("t1"),
        ])),
        MessagesMessage::User(MessagesContent::Blocks(vec![tool_result("t1")])),
    ]);
    let out = req.convert(ConversionOptions::new()).unwrap();
    match &out.conversation.messages[1] {
        InputMessage::Assistant { content, reasoning_content, tool_calls: Some(calls) } => {
            assert_eq!(content, "");
            assert_eq!(reasoning_content.as_deref(), Some("look it up"));
            assert_eq!(calls[0].arguments, "{\"city\": \"Paris\"}");
        },
        other => panic!("unexpected message {other:?}"),
    }
    assert_eq!(
        out.conversation.messages[2],
        InputMessage::Tool { content: "sunny".to_string(), image_sources: Vec::new(), tool_call_id: "t1".to_string() }
    );
}

#[test]
fn unanswered_tool_uses_are_refused() {
    let req = request(vec![user("q"), MessagesMessage::Assistant(MessagesContent::Blocks(vec![tool_use("t1"), tool_use("t0")]))]);
    assert_eq!(
        detail(req.convert(ConversionOptions::new())),
        "messages.1:`tool_use` ids were found without `tool_result` blocks immediately after: t0, t1. Each `tool_use` block must have a corresponding `tool_result` block in the next message."
    );
    let req = request(vec![user("q"), MessagesMessage::User(MessagesContent::Blocks(vec![tool_result("zz")]))]);
    assert_eq!(
        detail(req.convert(ConversionOptions::new())),
        "unexpected `messages.1.content.0: tool_use_id` found in `tool_result` blocks: zz. Each `tool_result` block must have a corresponding `tool_use` block in the previous message."
    );
}

#[test]
fn message_shape_errors() {
    assert_eq!(detail(request(Vec::new()).convert(ConversionOptions::new())), "messages: at least one message is required");
    let req = request(vec![MessagesMessage::User(MessagesContent::Blocks(Vec::new()))]);
    assert_eq!(detail(req.convert(ConversionOptions::new())), "messages.0: all messages must have non-empty content");
    let req = request(vec![MessagesMessage::User(MessagesContent::Blocks(vec![tool_use("a")]))]);
    assert_eq!(detail(req.convert(ConversionOptions::new())), "messages.0: `tool_use` blocks can only be in `assistant` messages");
    let req = request(vec![MessagesMessage::User(MessagesContent::Blocks(vec![MessagesContentBlock::Unsupported]))]);
    assert_eq!(detail(req.convert(ConversionOptions::new())), "Unsupported content block");
}

#[test]
fn settings_are_checked() {
    let mut req = request(vec![user("q")]);
    req.max_tokens = Some(0);
    assert_eq!(detail(req.convert(ConversionOptions::new())), "max_tokens must be greater than zero");
    let mut req = request(vec![user("q")]);
    req.stop_sequences = Some(vec![String::new()]);
    assert_eq!(detail(req.convert(ConversionOptions::new())), "stop_sequences must contain at most 16 non-empty strings");
}

#[test]
fn thinking_and_effort_resolve() {
    let mut req = request(vec![user("q")]);
    req.output_config = Some(MessagesOutputConfig { effort: Some(MessagesReasoningEffort::Ultra) });
    let out = req.convert(ConversionOptions::new().with_default_thinking_mode(false)).unwrap();
    assert!(out.conversation.thinking_mode);
    assert_eq!(out.conversation.reasoning_effort, Some(ReasoningEffort::Max));

    let mut req = request(vec![user("q")]);
    req.thinking = Some(MessagesThinking { kind: MessagesThinkingType::Disabled, budget_tokens: Some(10) });
    req.output_config = Some(MessagesOutputConfig { effort: Some(MessagesReasoningEffort::Low) });
    let out = req.convert(ConversionOptions::new()).unwrap();
    assert!(!out.conversation.thinking_mode);
    assert_eq!(out.thinking_budget_tokens, Some(10));
}

#[test]
fn tools_and_choices_convert() {
    let tool = MessagesTool {
        name: "get".to_string(),
        description: Some("Get".to_string()),
        input_schema: Some(JsonValue::Object(vec![("type".to_string(), JsonValue::String("object".to_string()))])),
        kind: None,
    };
    let mut req = request(vec![user("q")]);
    req.tools = Some(vec![tool]);
    req.tool_choice = Some(MessagesToolChoice::Any { disable_parallel_tool_use: Some(true) });
    let out = req.convert(ConversionOptions::new().with_default_thinking_mode(false)).unwrap();
    assert_eq!(out.conversation.tools.len(), 1);
    assert_eq!(out.conversation.tool_choice, ToolChoice::Auto);
    assert_eq!(out.disable_parallel_tool_use, Some(true));

    let missing = MessagesTool { name: "get".to_string(), description: None, input_schema: None, kind: None };
    let mut req = request(vec![user("q")]);
    req.tools = Some(vec![missing]);
    assert_eq!(detail(req.convert(ConversionOptions::new())), "tools.0: missing input_schema");
}
