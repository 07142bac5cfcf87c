use deepseek_recipe::conversation::{Conversation, InputMessage, ReasoningEffort, ResponseFormat, ToolCall, ToolChoice, ToolDefinition};
use deepseek_recipe::encoding::{DeepseekV41Encoding, DeepseekV4Encoding, PromptEncoding, Version};
use deepseek_recipe::json::JsonValue;
use deepseek_recipe::normalize::normalize_messages;

fn user(text: &str) -> InputMessage {
    InputMessage::User { content: text.to_string(), image_sources: Vec::new() }
}

fn conversation(messages: Vec<InputMessage>, thinking_mode: bool) -> Conversation {
    let mut c = Conversation::default();
    c.messages = messages;
    c.thinking_mode = thinking_mode;
    c
}

#[test]
fn v4_renders_a_plain_conversation() {
    let c = conversation(
        vec![
            InputMessage::System { content: "S".to_string() },
            user("U"),
            InputMessage::Assistant { content: "A".to_string(), reasoning_content: None, tool_calls: None },
            user("U2"),
        ],
        false,
    );
    let rendered = DeepseekV4Encoding::new().render_conversation(&c);
    assert_eq!(
        rendered.prompt,
        "<｜begin▁of▁sentence｜>S<｜User｜>U<｜Assistant｜></think>A<｜end▁of▁sentence｜><｜User｜>U2<｜Assistant｜></think>"
    );
    assert!(rendered.image_sources.is_empty());
}

#[test]
fn v41_states_the_reasoning_effort_in_a_system_turn() {
    let mut c = conversation(vec![user("hi")], true);
    c.reasoning_effort = Some(ReasoningEffort::Max);
    let rendered = DeepseekV41Encoding::new().render_conversation(&c);
    assert_eq!(
        rendered.prompt,
        "<｜begin▁of▁sentence｜><｜System｜>Reasoning Effort: 100 (range 1-100, the higher the value, the more thorough the reasoning)\n\n<｜User｜>hi<｜Assistant｜><think>"
    );
}

#[test]
fn tool_calls_render_their_arguments() {
    let call = ToolCall { id: "1".to_string(), name: "get".to_string(), arguments: "{\"city\": \"Paris\", \"n\": 2}".to_string() };
    let c = conversation(
        vec![
            user("q"),
            InputMessage::Assistant { content: String::new(), reasoning_content: None, tool_calls: Some(vec![call]) },
            InputMessage::Tool { content: "r".to_string(), image_sources: Vec::new(), tool_call_id: "1".to_string() },
        ],
        false,
    );
    let rendered = DeepseekV4Encoding::new().render_conversation(&c);
    let expected = [
        "<｜begin▁of▁sentence｜><｜User｜>q<｜Assistant｜></think>\n\n<｜DSML｜tool_calls>\n",
        "<｜DSML｜invoke name=\"get\">\n",
        "<｜DSML｜parameter name=\"city\" string=\"true\">Paris</｜DSML｜parameter>\n",
        "<｜DSML｜parameter name=\"n\" string=\"false\">2</｜DSML｜parameter>\n",
        "</｜DSML｜invoke>\n</｜DSML｜tool_calls><｜end▁of▁sentence｜>",
        "<｜User｜><tool_result>r</tool_result><｜Assistant｜></think>",
    ]
    .join("");
    assert_eq!(rendered.prompt, expected);
}

#[test]
fn invalid_arguments_render_as_one_string_parameter() {
    let call = ToolCall { id: "1".to_string(), name: "f".to_string(), arguments: "not json".to_string() };
    let c = conversation(
        vec![user("q"), InputMessage::Assistant { content: String::new(), reasoning_content: None, tool_calls: Some(vec![call]) }],
        false,
    );
    let rendered = DeepseekV41Encoding::new().render_conversation(&c);
    assert!(rendered.prompt.contains("<｜DSML｜ parameter name=\"arguments\" string=\"true\">not json</｜DSML｜ parameter>"));
}

#[test]
fn required_tool_choice_opens_the_call_block() {
    let mut c = conversation(vec![user("q")], false);
    c.tools = vec![ToolDefinition { name: "f".to_string(), description: None, parameters: JsonValue::Object(Vec::new()), strict: None }];
    c.tool_choice = ToolChoice::Required;
    let rendered = DeepseekV4Encoding::new().render_conversation(&c);
    assert!(rendered.prompt.starts_with("<｜begin▁of▁sentence｜>\n\n## Tools\n\n"));
    assert!(rendered.prompt.contains("{\"name\": \"f\", \"description\": \"\", \"parameters\": {}}"));
    assert!(rendered.prompt.ends_with("<｜Assistant｜></think>\n\n<｜DSML｜tool_calls>\n"));
}

#[test]
fn json_output_adds_the_response_format_schema() {
    let mut c = conversation(vec![user("json please")], false);
    c.response_format = ResponseFormat::JsonObject;
    let rendered = DeepseekV4Encoding::new().render_conversation(&c);
    assert_eq!(
        rendered.prompt,
        "<｜begin▁of▁sentence｜>\n\n## Response Format:\n\nYou MUST strictly adhere to the following schema to reply:\n{\"type\": \"json_object\"}<｜User｜>json please<｜Assistant｜></think>"
    );
}

#[test]
fn v4_moves_later_system_messages_into_user_turns() {
    let messages = vec![
        InputMessage::System { content: "a".to_string() },
        InputMessage::System { content: "b".to_string() },
        user("u"),
        InputMessage::System { content: "c".to_string() },
    ];
    let v4 = normalize_messages(Version::V4, &messages);
    assert_eq!(v4, vec![InputMessage::System { content: "a\n\nb".to_string() }, user("u"), user("c")]);
    let v41 = normalize_messages(Version::V41, &messages);
    assert_eq!(v41.len(), 4);
}

#[test]
fn adjacent_user_messages_merge() {
    let v4 = normalize_messages(Version::V4, &vec![user("a"), user("b")]);
    assert_eq!(v4, vec![user("a\n\nb")]);
}

#[test]
fn tool_results_follow_the_order_of_their_calls() {
    let calls = vec![
        ToolCall { id: "x".to_string(), name: "f".to_string(), arguments: "{}".to_string() },
        ToolCall { id: "y".to_string(), name: "g".to_string(), arguments: "{}".to_string() },
    ];
    let tool = |id: &str| InputMessage::Tool { content: id.to_string(), image_sources: Vec::new(), tool_call_id: id.to_string() };
    let messages = vec![
        user("q"),
        InputMessage::Assistant { content: String::new(), reasoning_content: None, tool_calls: Some(calls) },
        tool("y"),
        tool("x"),
    ];
    let normalized = normalize_messages(Version::V41, &messages);
    assert_eq!(normalized[2], tool("x"));
    assert_eq!(normalized[3], tool("y"));
}
