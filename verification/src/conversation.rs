//! A conversation, its messages and tools, and its prompt configuration.

use vstd::prelude::*;

use crate::json::{JsonValue, JsonView, duplicate_json, json_view};
use crate::multimodal::{ImageSource, ImageSourceView, duplicate_sources, same_sources};

verus! {

/// Output format described in the inference prompt.
#[derive(Debug, Clone, Copy, PartialEq, Eq, Structural)]
pub enum ResponseFormat {
    Text,
    JsonObject,
}

impl Default for ResponseFormat {
    fn default() -> (r: ResponseFormat)
        ensures
            r == ResponseFormat::Text,
    {
        ResponseFormat::Text
    }
}

/// Protocol-independent reasoning effort.
#[derive(Debug, Clone, Copy, PartialEq, Eq, Structural)]
pub enum ReasoningEffort {
    Low,
    High,
    Xhigh,
    Max,
}

/// Normalized tool selection for a rendered conversation.
#[derive(Debug, Clone, Copy, PartialEq, Eq, Structural)]
pub enum ToolChoice {
    /// The model may answer or call a tool.
    Auto,
    /// Render the prompt with tool definitions omitted (`none` on the wire).
    Disabled,
    /// Start the assistant output inside a tool-call block.
    Required,
}

impl Default for ToolChoice {
    fn default() -> (r: ToolChoice)
        ensures
            r == ToolChoice::Auto,
    {
        ToolChoice::Auto
    }
}

/// A function the caller may execute after receiving a tool call.
#[derive(Debug)]
pub struct ToolDefinition {
    /// Function name.
    pub name: String,
    /// Human-readable purpose of the function.
    pub description: Option<String>,
    /// JSON Schema describing the input object.
    pub parameters: JsonValue,
    /// Requested strict argument validation. Enforcement belongs to the caller.
    pub strict: Option<bool>,
}

/// The mathematical value of a [`ToolDefinition`].
pub struct ToolDefinitionView {
    pub name: Seq<char>,
    pub description: Option<Seq<char>>,
    pub parameters: JsonView,
    pub strict: Option<bool>,
}

/// The value of an optional string.
pub open spec fn opt_view(s: Option<String>) -> Option<Seq<char>> {
    match s {
        Some(t) => Some(t@),
        None => None,
    }
}

impl View for ToolDefinition {
    type V = ToolDefinitionView;

    open spec fn view(&self) -> ToolDefinitionView {
        ToolDefinitionView {
            name: self.name@,
            description: opt_view(self.description),
            parameters: json_view(self.parameters),
            strict: self.strict,
        }
    }
}

/// Returns a copy of an optional string.
pub fn duplicate_opt(s: &Option<String>) -> (r: Option<String>)
    ensures
        opt_view(r) == opt_view(*s),
{
    match s {
        Some(t) => Some(t.clone()),
        None => None,
    }
}

impl ToolDefinition {
    /// Returns a copy of this definition with the same value.
    pub fn duplicate(&self) -> (r: ToolDefinition)
        ensures
            r@ == self@,
    {
        ToolDefinition {
            name: self.name.clone(),
            description: duplicate_opt(&self.description),
            parameters: duplicate_json(&self.parameters),
            strict: self.strict,
        }
    }
}

/// A historical tool call and its arguments serialized as JSON.
#[derive(Debug, Clone, PartialEq, Eq)]
pub struct ToolCall {
    pub id: String,
    pub name: String,
    pub arguments: String,
}

/// The mathematical value of a [`ToolCall`].
pub struct ToolCallView {
    pub id: Seq<char>,
    pub name: Seq<char>,
    pub arguments: Seq<char>,
}

impl View for ToolCall {
    type V = ToolCallView;

    open spec fn view(&self) -> ToolCallView {
        ToolCallView { id: self.id@, name: self.name@, arguments: self.arguments@ }
    }
}

impl ToolCall {
    /// Returns a copy of this call with the same value.
    pub fn duplicate(&self) -> (r: ToolCall)
        ensures
            r@ == self@,
    {
        ToolCall { id: self.id.clone(), name: self.name.clone(), arguments: self.arguments.clone() }
    }
}

/// The values of a list of tool calls.
pub open spec fn calls_view(calls: Seq<ToolCall>) -> Seq<ToolCallView> {
    Seq::new(calls.len(), |i: int| calls[i]@)
}

/// The values of a list of image sources.
pub open spec fn sources_view(sources: Seq<ImageSource>) -> Seq<ImageSourceView> {
    Seq::new(sources.len(), |i: int| sources[i]@)
}

/// Returns a copy of a list of tool calls.
pub fn duplicate_calls(v: &Vec<ToolCall>) -> (r: Vec<ToolCall>)
    ensures
        calls_view(r@) == calls_view(v@),
{
    let mut r: Vec<ToolCall> = Vec::new();
    let mut i: usize = 0;
    while i < v.len()
        invariant
            i <= v@.len(),
            r@.len() == i,
            forall|k: int| 0 <= k < i ==> #[trigger] r@[k]@ == v@[k]@,
        decreases v.len() - i,
    {
        r.push(v[i].duplicate());
        i += 1;
    }
    assert(calls_view(r@) =~= calls_view(v@));
    r
}

/// A message in the conversation supplied for prompt rendering.
#[derive(Debug, Clone, PartialEq, Eq)]
pub enum InputMessage {
    System { content: String },
    User { content: String, image_sources: Vec<ImageSource> },
    Assistant {
        content: String,
        reasoning_content: Option<String>,
        tool_calls: Option<Vec<ToolCall>>,
    },
    Tool { content: String, image_sources: Vec<ImageSource>, tool_call_id: String },
    LatestReminder { content: String },
}

/// The mathematical value of an [`InputMessage`].
pub enum MessageView {
    System { content: Seq<char> },
    User { content: Seq<char>, image_sources: Seq<ImageSourceView> },
    Assistant {
        content: Seq<char>,
        reasoning_content: Option<Seq<char>>,
        tool_calls: Option<Seq<ToolCallView>>,
    },
    Tool { content: Seq<char>, image_sources: Seq<ImageSourceView>, tool_call_id: Seq<char> },
    LatestReminder { content: Seq<char> },
}

impl View for InputMessage {
    type V = MessageView;

    open spec fn view(&self) -> MessageView {
        match self {
            InputMessage::System { content } => MessageView::System { content: content@ },
            InputMessage::User { content, image_sources } => MessageView::User {
                content: content@,
                image_sources: sources_view(image_sources@),
            },
            InputMessage::Assistant { content, reasoning_content, tool_calls } => MessageView::Assistant {
                content: content@,
                reasoning_content: opt_view(*reasoning_content),
                tool_calls: match tool_calls {
                    Some(calls) => Some(calls_view(calls@)),
                    None => None,
                },
            },
            InputMessage::Tool { content, image_sources, tool_call_id } => MessageView::Tool {
                content: content@,
                image_sources: sources_view(image_sources@),
                tool_call_id: tool_call_id@,
            },
            InputMessage::LatestReminder { content } => MessageView::LatestReminder { content: content@ },
        }
    }
}

/// Returns a copy of a list of image sources with the same values.
pub fn copy_sources(v: &Vec<ImageSource>) -> (r: Vec<ImageSource>)
    ensures
        sources_view(r@) == sources_view(v@),
{
    let r = duplicate_sources(v);
    assert(sources_view(r@) =~= sources_view(v@));
    r
}

impl InputMessage {
    /// Returns a copy of this message with the same value.
    pub fn duplicate(&self) -> (r: InputMessage)
        ensures
            r@ == self@,
    {
        match self {
            InputMessage::System { content } => InputMessage::System { content: content.clone() },
            InputMessage::User { content, image_sources } => InputMessage::User {
                content: content.clone(),
                image_sources: copy_sources(image_sources),
            },
            InputMessage::Assistant { content, reasoning_content, tool_calls } => {
                let calls = match tool_calls {
                    Some(calls) => Some(duplicate_calls(calls)),
                    None => None,
                };
                InputMessage::Assistant {
                    content: content.clone(),
                    reasoning_content: duplicate_opt(reasoning_content),
                    tool_calls: calls,
                }
            },
            InputMessage::Tool { content, image_sources, tool_call_id } => InputMessage::Tool {
                content: content.clone(),
                image_sources: copy_sources(image_sources),
                tool_call_id: tool_call_id.clone(),
            },
            InputMessage::LatestReminder { content } => InputMessage::LatestReminder {
                content: content.clone(),
            },
        }
    }
}

/// The values of a list of messages.
pub open spec fn messages_view(messages: Seq<InputMessage>) -> Seq<MessageView> {
    Seq::new(messages.len(), |i: int| messages[i]@)
}

/// The values of a list of tool definitions.
pub open spec fn tools_view(tools: Seq<ToolDefinition>) -> Seq<ToolDefinitionView> {
    Seq::new(tools.len(), |i: int| tools[i]@)
}

/// A conversation and its prompt configuration.
///
/// Sampling parameters and transport options belong to the caller. Thinking is
/// enabled by default.
#[derive(Debug)]
pub struct Conversation {
    /// Messages in conversation order.
    pub messages: Vec<InputMessage>,
    /// Enable thinking mode for the next assistant turn.
    pub thinking_mode: bool,
    /// Available client tools, in declaration order.
    pub tools: Vec<ToolDefinition>,
    /// Tool selection after protocol-specific normalization.
    pub tool_choice: ToolChoice,
    /// Reasoning effort used when thinking mode is enabled.
    pub reasoning_effort: Option<ReasoningEffort>,
    /// Requested answer format used during prompt rendering.
    pub response_format: ResponseFormat,
}

impl Default for Conversation {
    fn default() -> (r: Conversation)
        ensures
            r.messages@.len() == 0,
            r.thinking_mode,
            r.tools@.len() == 0,
            r.tool_choice == ToolChoice::Auto,
            r.reasoning_effort == None::<ReasoningEffort>,
            r.response_format == ResponseFormat::Text,
    {
        Conversation {
            messages: Vec::new(),
            thinking_mode: true,
            tools: Vec::new(),
            tool_choice: ToolChoice::Auto,
            reasoning_effort: None,
            response_format: ResponseFormat::Text,
        }
    }
}

} // verus!
