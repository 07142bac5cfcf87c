//! Prompt rendering for DeepSeek V4 and V4.1.
//!
//! A conversation is normalized (system messages merged, consecutive user
//! messages joined, tool results ordered by their calls) and rendered into the
//! model's prompt text, with one image placeholder order for the images.

use vstd::prelude::*;

use crate::conversation::{
    Conversation, InputMessage, MessageView, ReasoningEffort, ResponseFormat, ToolCall,
    ToolCallView, ToolChoice, ToolDefinition, ToolDefinitionView, calls_view, messages_view,
    sources_view, tools_view,
};
use crate::json::{JsonValue, JsonView, json_text, json_view, parse_json, parsed_json, write_json};
use crate::multimodal::{ImageSource, ImageSourceView};
use crate::text::{append_chars, append_str, chars_of, decimal, decimal_chars, string_of};

verus! {

/// Marks the start of the prompt.
pub const BOS_TOKEN: &'static str = "<｜begin▁of▁sentence｜>";
/// Starts the reasoning content of an assistant turn.
pub const THINKING_START_TOKEN: &'static str = "<think>";
/// Ends the reasoning content of an assistant turn.
pub const THINKING_END_TOKEN: &'static str = "</think>";
/// Starts a system message in a V4.1 prompt.
pub const SYSTEM_SP_TOKEN: &'static str = "<｜System｜>";
/// Starts a user message.
pub const USER_SP_TOKEN: &'static str = "<｜User｜>";
/// Starts an assistant message.
pub const ASSISTANT_SP_TOKEN: &'static str = "<｜Assistant｜>";
/// Starts the latest reminder message.
pub const LATEST_REMINDER_SP_TOKEN: &'static str = "<｜latest_reminder｜>";
/// Terminates a message.
pub const EOS_TOKEN: &'static str = "<｜end▁of▁sentence｜>";
/// Tag name prefix of the markup that structures tool calls. The angle
/// brackets come from the surrounding template, as in `<｜DSML｜tool_calls>`
/// for V4 and `<｜DSML｜ calls>` for V4.1.
pub const DSML_SP_TOKEN: &'static str = "｜DSML｜";

/// The V4 reasoning effort prompt for high effort.
pub const REASONING_EFFORT_HIGH: &'static str = "Reasoning Effort: Absolute maximum with no shortcuts permitted.\nYou MUST be very thorough in your thinking and comprehensively decompose the problem to resolve the root cause, rigorously stress-testing your logic against all potential paths, edge cases, and adversarial scenarios.\nExplicitly write out your entire deliberation process, documenting every intermediate step, considered alternative, and rejected hypothesis to ensure absolutely no assumption is left unchecked.\n\n";

/// The V4 reasoning effort prompt for maximum effort.
pub const REASONING_EFFORT_MAX: &'static str = "Reasoning Effort: Beyond maximum — exhaustive, relentless, and uncompromising.\nYou MUST reason with the utmost depth and rigor, leaving absolutely nothing to chance: exhaustively decompose the problem into its most fundamental components, trace every causal chain to its root, and resolve the underlying cause rather than any surface symptom.\nDo not stop reasoning until you have independently verified the solution from multiple angles and are certain that no assumption remains unchecked and no error remains undiscovered.\n\n";

// ---------------------------------------------------------------------------
// The two prompt formats

/// The prompt format of a model generation.
#[derive(Debug, Clone, Copy, PartialEq, Eq, Structural)]
pub enum Version {
    /// DeepSeek V4.
    V4,
    /// DeepSeek V4.1.
    V41,
}

/// The opening token of a system message.
pub open spec fn system_token(v: Version) -> Seq<char> {
    match v {
        Version::V4 => Seq::empty(),
        Version::V41 => SYSTEM_SP_TOKEN@,
    }
}

/// The tag name of the tool-call block.
pub open spec fn block_name(v: Version) -> Seq<char> {
    match v {
        Version::V4 => "tool_calls"@,
        Version::V41 => " calls"@,
    }
}

/// The tag name of one tool call.
pub open spec fn call_tag(v: Version) -> Seq<char> {
    match v {
        Version::V4 => "invoke"@,
        Version::V41 => " invoke"@,
    }
}

/// The tag name of one tool call parameter.
pub open spec fn parameter_tag(v: Version) -> Seq<char> {
    match v {
        Version::V4 => "parameter"@,
        Version::V41 => " parameter"@,
    }
}

/// The reasoning effort score of the V4.1 prompt.
pub open spec fn effort_score(effort: Option<ReasoningEffort>) -> nat {
    match effort {
        Some(ReasoningEffort::Low) => 50,
        Some(ReasoningEffort::Max) => 100,
        _ => 75,
    }
}

/// The reasoning effort prompt at the start of the message at `index`.
pub open spec fn reasoning_effort_text(v: Version, index: int, thinking: bool, effort: Option<ReasoningEffort>) -> Seq<char> {
    if index != 0 || !thinking {
        Seq::empty()
    } else {
        match v {
            Version::V4 => match effort {
                Some(ReasoningEffort::Low) => Seq::empty(),
                Some(ReasoningEffort::Max) => REASONING_EFFORT_MAX@,
                _ => REASONING_EFFORT_HIGH@,
            },
            Version::V41 => "Reasoning Effort: "@ + decimal(effort_score(effort))
                + " (range 1-100, the higher the value, the more thorough the reasoning)\n\n"@,
        }
    }
}

// ---------------------------------------------------------------------------
// Tool calls

/// `items` joined by `sep`.
pub open spec fn join(items: Seq<Seq<char>>, sep: Seq<char>) -> Seq<char>
    decreases items.len(),
{
    if items.len() == 0 {
        Seq::empty()
    } else if items.len() == 1 {
        items[0]
    } else {
        join(items.drop_last(), sep) + sep + items.last()
    }
}

/// The members a tool call's arguments render: those of the JSON object the
/// arguments hold, or one `arguments` member holding the text itself.
pub open spec fn argument_members(arguments: Seq<char>) -> Seq<(Seq<char>, JsonView)> {
    match parsed_json(arguments) {
        Some(JsonView::Object(members)) => members,
        _ => seq![("arguments"@, JsonView::Str(arguments))],
    }
}

/// One rendered tool call parameter.
#[verifier::opaque]
pub open spec fn parameter_text(v: Version, key: Seq<char>, value: JsonView) -> Seq<char> {
    let (is_str, text) = match value {
        JsonView::Str(s) => ("true"@, s),
        _ => ("false"@, json_text(value, true)),
    };
    "<"@ + DSML_SP_TOKEN@ + parameter_tag(v) + " name=\""@ + key + "\" string=\""@ + is_str + "\">"@
        + text + "</"@ + DSML_SP_TOKEN@ + parameter_tag(v) + ">"@
}

/// The rendered parameters of a tool call's arguments.
#[verifier::opaque]
pub open spec fn arguments_text(v: Version, arguments: Seq<char>) -> Seq<char> {
    let members = argument_members(arguments);
    join(Seq::new(members.len(), |i: int| parameter_text(v, members[i].0, members[i].1)), "\n"@)
}

/// One rendered tool call.
#[verifier::opaque]
pub open spec fn call_text(v: Version, call: ToolCallView) -> Seq<char> {
    "<"@ + DSML_SP_TOKEN@ + call_tag(v) + " name=\""@ + call.name + "\">\n"@ + arguments_text(v, call.arguments)
        + "\n</"@ + DSML_SP_TOKEN@ + call_tag(v) + ">"@
}

/// The rendered tool-call block of `calls`.
#[verifier::opaque]
pub open spec fn calls_block_text(v: Version, calls: Seq<ToolCallView>) -> Seq<char> {
    "<"@ + DSML_SP_TOKEN@ + block_name(v) + ">\n"@ + join(Seq::new(calls.len(), |i: int| call_text(v, calls[i])), "\n"@)
        + "\n</"@ + DSML_SP_TOKEN@ + block_name(v) + ">"@
}

// ---------------------------------------------------------------------------
// Messages

/// Whether a message is a user message or a tool result.
pub open spec fn is_user_or_tool(m: MessageView) -> bool {
    m is User || m is Tool
}

/// The opening of a user message or tool result: a blank line after another
/// user message or tool result, the user token otherwise.
pub open spec fn user_opening(msgs: Seq<MessageView>, index: int) -> Seq<char> {
    if index > 0 && is_user_or_tool(msgs[index - 1]) {
        "\n\n"@
    } else {
        USER_SP_TOKEN@
    }
}

/// The text of an optional string, empty when absent.
pub open spec fn opt_text(s: Option<Seq<char>>) -> Seq<char> {
    match s {
        Some(t) => t,
        None => Seq::empty(),
    }
}

/// The rendered assistant message at `index`.
#[verifier::opaque]
pub open spec fn assistant_text(
    v: Version,
    index: int,
    thinking: bool,
    content: Seq<char>,
    reasoning_content: Option<Seq<char>>,
    tool_calls: Option<Seq<ToolCallView>>,
) -> Seq<char> {
    let calls_part = match tool_calls {
        Some(calls) => if calls.len() > 0 {
            "\n\n"@ + calls_block_text(v, calls)
        } else {
            Seq::empty()
        },
        None => Seq::empty(),
    };
    let thinking_part = if thinking && index > 0 {
        opt_text(reasoning_content) + THINKING_END_TOKEN@
    } else {
        Seq::empty()
    };
    ASSISTANT_SP_TOKEN@ + (if thinking_part.len() > 0 {
        THINKING_START_TOKEN@
    } else {
        THINKING_END_TOKEN@
    }) + thinking_part + content + calls_part + EOS_TOKEN@
}

/// The rendered message at `index` after its opening and effort prompt.
#[verifier::opaque]
pub open spec fn message_body(v: Version, msgs: Seq<MessageView>, index: int, thinking: bool) -> Seq<char> {
    match msgs[index] {
        MessageView::System { content } => (if index > 0 && v == Version::V41 {
            system_token(v)
        } else {
            Seq::empty()
        }) + content,
        MessageView::User { content, .. } => user_opening(msgs, index) + content,
        MessageView::LatestReminder { content } => LATEST_REMINDER_SP_TOKEN@ + content,
        MessageView::Tool { content, .. } => user_opening(msgs, index) + "<tool_result>"@ + content
            + "</tool_result>"@,
        MessageView::Assistant { content, reasoning_content, tool_calls } => assistant_text(
            v,
            index,
            thinking,
            content,
            reasoning_content,
            tool_calls,
        ),
    }
}

/// The rendered message at `index`.
#[verifier::opaque]
pub open spec fn message_text(
    v: Version,
    msgs: Seq<MessageView>,
    index: int,
    thinking: bool,
    effort: Option<ReasoningEffort>,
) -> Seq<char> {
    let effort_text = reasoning_effort_text(v, index, thinking, effort);
    let head = if index == 0 && (effort_text.len() > 0 || msgs[index] is System) {
        system_token(v)
    } else {
        Seq::empty()
    };
    head + effort_text + message_body(v, msgs, index, thinking)
}

/// The rendered messages `0..n`.
pub open spec fn messages_text(
    v: Version,
    msgs: Seq<MessageView>,
    n: int,
    thinking: bool,
    effort: Option<ReasoningEffort>,
) -> Seq<char>
    decreases n,
{
    if n <= 0 {
        Seq::empty()
    } else {
        messages_text(v, msgs, n - 1, thinking, effort) + message_text(v, msgs, n - 1, thinking, effort)
    }
}

// ---------------------------------------------------------------------------
// Rendering

/// Returns the opening token of a system message.
fn system_token_str(v: Version) -> (r: &'static str)
    ensures
        r@ == system_token(v),
{
    match v {
        Version::V4 => {
            proof {
                reveal_strlit("");
            }
            ""
        },
        Version::V41 => SYSTEM_SP_TOKEN,
    }
}

/// Returns the tag name of the tool-call block.
fn block_name_str(v: Version) -> (r: &'static str)
    ensures
        r@ == block_name(v),
{
    match v {
        Version::V4 => "tool_calls",
        Version::V41 => " calls",
    }
}

/// Returns the tag name of one tool call.
fn call_tag_str(v: Version) -> (r: &'static str)
    ensures
        r@ == call_tag(v),
{
    match v {
        Version::V4 => "invoke",
        Version::V41 => " invoke",
    }
}

/// Returns the tag name of one tool call parameter.
fn parameter_tag_str(v: Version) -> (r: &'static str)
    ensures
        r@ == parameter_tag(v),
{
    match v {
        Version::V4 => "parameter",
        Version::V41 => " parameter",
    }
}

/// Appends the reasoning effort prompt of the message at `index` to `out`.
fn render_reasoning_effort(out: &mut Vec<char>, v: Version, index: usize, thinking: bool, effort: Option<ReasoningEffort>)
    ensures
        final(out)@ == old(out)@ + reasoning_effort_text(v, index as int, thinking, effort),
{
    if index != 0 || !thinking {
        assert(final(out)@ =~= old(out)@ + reasoning_effort_text(v, index as int, thinking, effort));
        return;
    }
    match v {
        Version::V4 => match effort {
            Some(ReasoningEffort::Low) => {
                assert(final(out)@ =~= old(out)@ + reasoning_effort_text(v, index as int, thinking, effort));
            },
            Some(ReasoningEffort::Max) => append_str(out, REASONING_EFFORT_MAX),
            _ => append_str(out, REASONING_EFFORT_HIGH),
        },
        Version::V41 => {
            let score: usize = match effort {
                Some(ReasoningEffort::Low) => 50,
                Some(ReasoningEffort::Max) => 100,
                _ => 75,
            };
            append_str(out, "Reasoning Effort: ");
            let digits = decimal_chars(score);
            append_chars(out, digits.as_slice());
            append_str(out, " (range 1-100, the higher the value, the more thorough the reasoning)\n\n");
            assert(final(out)@ =~= old(out)@ + reasoning_effort_text(v, index as int, thinking, effort));
        },
    }
}

/// Appends one rendered tool call parameter to `out`.
#[verifier::rlimit(40)]
fn push_parameter(out: &mut Vec<char>, v: Version, key: &str, value: &JsonValue)
    ensures
        final(out)@ == old(out)@ + parameter_text(v, key@, json_view(*value)),
{
    append_str(out, "<");
    append_str(out, DSML_SP_TOKEN);
    append_str(out, parameter_tag_str(v));
    append_str(out, " name=\"");
    append_str(out, key);
    append_str(out, "\" string=\"");
    match value {
        JsonValue::String(text) => {
            append_str(out, "true");
            append_str(out, "\">");
            append_str(out, text.as_str());
        },
        _ => {
            append_str(out, "false");
            append_str(out, "\">");
            write_json(out, value, true);
        },
    }
    append_str(out, "</");
    append_str(out, DSML_SP_TOKEN);
    append_str(out, parameter_tag_str(v));
    append_str(out, ">");
    reveal(parameter_text);
    assert(final(out)@ =~= old(out)@ + parameter_text(v, key@, json_view(*value)));
}

/// Appends the separator `sep` to `out` when `needed`.
fn push_sep(out: &mut Vec<char>, needed: bool, sep: &str)
    ensures
        final(out)@ == old(out)@ + (if needed { sep@ } else { Seq::<char>::empty() }),
{
    if needed {
        append_str(out, sep);
    } else {
        assert(final(out)@ =~= old(out)@);
    }
}

pub proof fn lemma_join_push(items: Seq<Seq<char>>, sep: Seq<char>, i: int)
    requires
        0 <= i < items.len(),
    ensures
        join(items.take(i + 1), sep) == join(items.take(i), sep) + (if i > 0 { sep } else { Seq::<char>::empty() })
            + items[i],
{
    let t = items.take(i + 1);
    assert(t.drop_last() =~= items.take(i));
    if i == 0 {
        assert(join(items.take(0), sep) =~= Seq::<char>::empty());
        assert(join(t, sep) == t[0]);
    }
    assert(join(items.take(i + 1), sep) =~= join(items.take(i), sep) + (if i > 0 { sep } else { Seq::<char>::empty() })
        + items[i]);
}

/// Appends the rendered parameters of a tool call's arguments to `out`.
fn render_tool_arguments(out: &mut Vec<char>, v: Version, arguments: &str)
    ensures
        final(out)@ == old(out)@ + arguments_text(v, arguments@),
{
    reveal(arguments_text);
    let parsed = parse_json(arguments);
    match parsed {
        Some(JsonValue::Object(members)) => {
            let ghost views = crate::json::member_views(members@);
            let ghost items = Seq::new(views.len(), |i: int| parameter_text(v, views[i].0, views[i].1));
            proof {
                assert(argument_members(arguments@) == views);
                crate::json::lemma_member_views_len(members@);
            }
            let ghost before = out@;
            let mut i: usize = 0;
            while i < members.len()
                invariant
                    i <= members@.len(),
                    views == crate::json::member_views(members@),
                    views.len() == members@.len(),
                    items == Seq::new(views.len(), |i: int| parameter_text(v, views[i].0, views[i].1)),
                    out@ == before + join(items.take(i as int), "\n"@),
                decreases members@.len() - i,
            {
                proof {
                    lemma_join_push(items, "\n"@, i as int);
                    crate::json::lemma_member_views_index(members@, i as int);
                }
                push_sep(out, i > 0, "\n");
                push_parameter(out, v, members[i].0.as_str(), &members[i].1);
                i += 1;
            }
            assert(items.take(members@.len() as int) =~= items);
        },
        _ => {
            proof {
                match parsed {
                    Some(val) => {
                        assert(parsed_json(arguments@) == Some(json_view(val)));
                        assert(!(json_view(val) is Object));
                    },
                    None => {},
                }
            }
            let value = JsonValue::String(arguments.to_string());
            let ghost items = seq![parameter_text(v, "arguments"@, json_view(value))];
            push_parameter(out, v, "arguments", &value);
            assert(join(items, "\n"@) == items[0]);
        },
    }
}

/// Appends one rendered tool call to `out`.
#[verifier::rlimit(40)]
fn push_call(out: &mut Vec<char>, v: Version, call: &ToolCall)
    ensures
        final(out)@ == old(out)@ + call_text(v, call@),
{
    append_str(out, "<");
    append_str(out, DSML_SP_TOKEN);
    append_str(out, call_tag_str(v));
    append_str(out, " name=\"");
    append_str(out, call.name.as_str());
    append_str(out, "\">\n");
    render_tool_arguments(out, v, call.arguments.as_str());
    append_str(out, "\n</");
    append_str(out, DSML_SP_TOKEN);
    append_str(out, call_tag_str(v));
    append_str(out, ">");
    reveal(call_text);
    assert(final(out)@ =~= old(out)@ + call_text(v, call@));
}

/// Appends the rendered tool-call block of `calls` to `out`.
#[verifier::rlimit(40)]
fn render_tool_calls(out: &mut Vec<char>, v: Version, calls: &Vec<ToolCall>)
    ensures
        final(out)@ == old(out)@ + calls_block_text(v, calls_view(calls@)),
{
    append_str(out, "<");
    append_str(out, DSML_SP_TOKEN);
    append_str(out, block_name_str(v));
    append_str(out, ">\n");
    let ghost cv = calls_view(calls@);
    let ghost items = Seq::new(cv.len(), |i: int| call_text(v, cv[i]));
    let ghost before = out@;
    let mut i: usize = 0;
    while i < calls.len()
        invariant
            i <= calls@.len(),
            items.len() == calls@.len(),
            forall|k: int| 0 <= k < items.len() ==> #[trigger] items[k] == call_text(v, calls@[k]@),
            out@ == before + join(items.take(i as int), "\n"@),
        decreases calls@.len() - i,
    {
        proof {
            lemma_join_push(items, "\n"@, i as int);
        }
        push_sep(out, i > 0, "\n");
        push_call(out, v, &calls[i]);
        i += 1;
    }
    assert(items.take(calls@.len() as int) =~= items);
    append_str(out, "\n</");
    append_str(out, DSML_SP_TOKEN);
    append_str(out, block_name_str(v));
    append_str(out, ">");
    reveal(calls_block_text);
    assert(final(out)@ =~= old(out)@ + calls_block_text(v, calls_view(calls@)));
}

/// Appends the opening of the user message or tool result at `index`.
fn push_user_opening(out: &mut Vec<char>, msgs: &Vec<InputMessage>, index: usize)
    requires
        index < msgs@.len(),
    ensures
        final(out)@ == old(out)@ + user_opening(messages_view(msgs@), index as int),
{
    let after_user = if index > 0 {
        match &msgs[index - 1] {
            InputMessage::User { .. } => true,
            InputMessage::Tool { .. } => true,
            _ => false,
        }
    } else {
        false
    };
    if after_user {
        append_str(out, "\n\n");
    } else {
        append_str(out, USER_SP_TOKEN);
    }
}

/// Appends the rendered assistant message at `index` to `out`.
#[verifier::rlimit(40)]
fn push_assistant(
    out: &mut Vec<char>,
    v: Version,
    index: usize,
    thinking: bool,
    content: &String,
    reasoning_content: &Option<String>,
    tool_calls: &Option<Vec<ToolCall>>,
)
    ensures
        final(out)@ == old(out)@ + assistant_text(
            v,
            index as int,
            thinking,
            content@,
            crate::conversation::opt_view(*reasoning_content),
            match tool_calls {
                Some(calls) => Some(calls_view(calls@)),
                None => None,
            },
        ),
{
    let mut thinking_part: Vec<char> = Vec::new();
    if thinking && index > 0 {
        match reasoning_content {
            Some(r) => append_str(&mut thinking_part, r.as_str()),
            None => {},
        }
        append_str(&mut thinking_part, THINKING_END_TOKEN);
    }
    append_str(out, ASSISTANT_SP_TOKEN);
    if thinking_part.len() > 0 {
        append_str(out, THINKING_START_TOKEN);
    } else {
        append_str(out, THINKING_END_TOKEN);
    }
    append_chars(out, thinking_part.as_slice());
    append_str(out, content.as_str());
    match tool_calls {
        Some(calls) => {
            if calls.len() > 0 {
                append_str(out, "\n\n");
                render_tool_calls(out, v, calls);
            }
        },
        None => {},
    }
    append_str(out, EOS_TOKEN);
    reveal(assistant_text);
    assert(final(out)@ =~= old(out)@ + assistant_text(
        v,
        index as int,
        thinking,
        content@,
        crate::conversation::opt_view(*reasoning_content),
        match tool_calls {
            Some(calls) => Some(calls_view(calls@)),
            None => None,
        },
    ));
}

/// Appends the rendered message at `index`, after its opening and effort
/// prompt, to `out`.
#[verifier::rlimit(40)]
fn push_message_body(out: &mut Vec<char>, v: Version, msgs: &Vec<InputMessage>, index: usize, thinking: bool)
    requires
        index < msgs@.len(),
    ensures
        final(out)@ == old(out)@ + message_body(v, messages_view(msgs@), index as int, thinking),
{
    reveal(message_body);
    match &msgs[index] {
        InputMessage::System { content } => {
            if index > 0 && v == Version::V41 {
                append_str(out, system_token_str(v));
            }
            append_str(out, content.as_str());
        },
        InputMessage::User { content, .. } => {
            push_user_opening(out, msgs, index);
            append_str(out, content.as_str());
        },
        InputMessage::LatestReminder { content } => {
            append_str(out, LATEST_REMINDER_SP_TOKEN);
            append_str(out, content.as_str());
        },
        InputMessage::Tool { content, .. } => {
            push_user_opening(out, msgs, index);
            append_str(out, "<tool_result>");
            append_str(out, content.as_str());
            append_str(out, "</tool_result>");
        },
        InputMessage::Assistant { content, reasoning_content, tool_calls } => {
            push_assistant(out, v, index, thinking, content, reasoning_content, tool_calls);
        },
    }
    assert(final(out)@ =~= old(out)@ + message_body(v, messages_view(msgs@), index as int, thinking));
}

/// Appends the rendered message at `index` to `out`.
#[verifier::rlimit(40)]
fn render_message(
    out: &mut Vec<char>,
    v: Version,
    msgs: &Vec<InputMessage>,
    index: usize,
    thinking: bool,
    effort: Option<ReasoningEffort>,
)
    requires
        index < msgs@.len(),
    ensures
        final(out)@ == old(out)@ + message_text(v, messages_view(msgs@), index as int, thinking, effort),
{
    let mut effort_text: Vec<char> = Vec::new();
    render_reasoning_effort(&mut effort_text, v, index, thinking, effort);
    assert(effort_text@ =~= reasoning_effort_text(v, index as int, thinking, effort));
    let is_system = match &msgs[index] {
        InputMessage::System { .. } => true,
        _ => false,
    };
    if index == 0 && (effort_text.len() > 0 || is_system) {
        append_str(out, system_token_str(v));
    }
    append_chars(out, effort_text.as_slice());
    push_message_body(out, v, msgs, index, thinking);
    reveal(message_text);
    assert(final(out)@ =~= old(out)@ + message_text(v, messages_view(msgs@), index as int, thinking, effort));
}

// ---------------------------------------------------------------------------
// Conversations

/// The JSON schema of one tool in the tools section.
pub open spec fn tool_schema_value(t: ToolDefinitionView) -> JsonView {
    JsonView::Object(
        seq![
            ("name"@, JsonView::Str(t.name)),
            ("description"@, JsonView::Str(opt_text(t.description))),
            ("parameters"@, t.parameters),
        ],
    )
}

/// The schemas of `tools`, one per line.
pub open spec fn tool_schemas_text(tools: Seq<ToolDefinitionView>) -> Seq<char> {
    join(Seq::new(tools.len(), |i: int| json_text(tool_schema_value(tools[i]), true)), "\n"@)
}

/// Part 1 of the tools section before the tool schemas.
pub open spec fn tool_prompt_part1(v: Version) -> Seq<char> {
    "## Tools\n\nYou have access to a set of tools to help answer the user's question. You can invoke tools by writing a \"<"@
        + DSML_SP_TOKEN@
        + block_name(v)
        + ">\" block like the following:\n\n<"@
        + DSML_SP_TOKEN@
        + block_name(v)
        + ">\n<"@
        + DSML_SP_TOKEN@
        + call_tag(v)
        + " name=\"$TOOL_NAME\">\n<"@
}

/// Part 2 of the tools section before the tool schemas.
pub open spec fn tool_prompt_part2(v: Version) -> Seq<char> {
    DSML_SP_TOKEN@
        + parameter_tag(v)
        + " name=\"$PARAMETER_NAME\" string=\"true|false\">$PARAMETER_VALUE</"@
        + DSML_SP_TOKEN@
        + parameter_tag(v)
        + ">\n...\n</"@
        + DSML_SP_TOKEN@
        + call_tag(v)
        + ">\n<"@
}

/// Part 3 of the tools section before the tool schemas.
pub open spec fn tool_prompt_part3(v: Version) -> Seq<char> {
    DSML_SP_TOKEN@
        + call_tag(v)
        + " name=\"$TOOL_NAME2\">\n...\n</"@
        + DSML_SP_TOKEN@
        + call_tag(v)
        + ">\n</"@
        + DSML_SP_TOKEN@
        + block_name(v)
        + ">\n\nString parameters should be specified as is and set `string=\"true\"`. For all other types (numbers, booleans, arrays, objects), pass the value in JSON format and set `string=\"false\"`.\n\nIf thinking_mode is enabled (triggered by "@
}

/// Part 4 of the tools section before the tool schemas.
pub open spec fn tool_prompt_part4(v: Version) -> Seq<char> {
    THINKING_START_TOKEN@
        + "), you MUST output your complete reasoning inside "@
        + THINKING_START_TOKEN@
        + "..."@
        + THINKING_END_TOKEN@
        + " BEFORE any tool calls or final response.\n\nOtherwise, output directly after "@
        + THINKING_END_TOKEN@
        + " with tool calls or final response.\n\n### Available Tool Schemas\n\n"@
}

/// The tools section of the system prompt, with the tool schemas `schemas`.
pub open spec fn tool_prompt_text(v: Version, schemas: Seq<char>) -> Seq<char> {
    tool_prompt_part1(v) + tool_prompt_part2(v) + tool_prompt_part3(v) + tool_prompt_part4(v) + schemas + "\n\nYou MUST strictly follow the above defined tool name and parameter schemas to invoke tool calls.\n"@
}

/// The JSON schema of the JSON object answer format.
pub open spec fn json_object_schema() -> JsonView {
    JsonView::Object(seq![("type"@, JsonView::Str("json_object"@))])
}

/// What is appended to the leading system message: the tools section when
/// tools are rendered, and the answer format when one is requested.
pub open spec fn system_addition(v: Version, has_tools: bool, format: ResponseFormat, tools: Seq<ToolDefinitionView>) -> Seq<char> {
    (if has_tools {
        "\n\n"@ + tool_prompt_text(v, tool_schemas_text(tools))
    } else {
        Seq::empty()
    }) + match format {
        ResponseFormat::Text => Seq::empty(),
        ResponseFormat::JsonObject => "\n\n## Response Format:\n\nYou MUST strictly adhere to the following schema to reply:\n"@
            + json_text(json_object_schema(), true),
    }
}

/// `msgs` with `addition` appended to a leading system message, one being
/// inserted when the first message is not one.
pub open spec fn with_system_addition(msgs: Seq<MessageView>, addition: Seq<char>) -> Seq<MessageView> {
    let m = if msgs.len() > 0 && msgs[0] is System {
        msgs
    } else {
        seq![MessageView::System { content: Seq::empty() }] + msgs
    };
    m.update(0, MessageView::System { content: m[0]->System_content + addition })
}

/// Whether the tools are rendered.
pub open spec fn renders_tools(choice: ToolChoice, tools: Seq<ToolDefinitionView>) -> bool {
    choice != ToolChoice::Disabled && tools.len() > 0
}

/// The messages that a conversation's prompt renders.
pub open spec fn prompt_messages(
    v: Version,
    msgs: Seq<MessageView>,
    tools: Seq<ToolDefinitionView>,
    choice: ToolChoice,
    format: ResponseFormat,
) -> Seq<MessageView> {
    let n = crate::normalize::normalized(v, msgs);
    if renders_tools(choice, tools) || format == ResponseFormat::JsonObject {
        with_system_addition(n, system_addition(v, renders_tools(choice, tools), format, tools))
    } else {
        n
    }
}

/// The prompt of a conversation.
pub open spec fn prompt_text(
    v: Version,
    msgs: Seq<MessageView>,
    tools: Seq<ToolDefinitionView>,
    choice: ToolChoice,
    thinking: bool,
    effort: Option<ReasoningEffort>,
    format: ResponseFormat,
) -> Seq<char> {
    let pm = prompt_messages(v, msgs, tools, choice, format);
    BOS_TOKEN@ + messages_text(v, pm, pm.len() as int, thinking, effort) + ASSISTANT_SP_TOKEN@ + (if thinking {
        THINKING_START_TOKEN@
    } else {
        THINKING_END_TOKEN@
    }) + (if choice == ToolChoice::Required && tools.len() > 0 {
        "\n\n<"@ + DSML_SP_TOKEN@ + block_name(v) + ">\n"@
    } else {
        Seq::empty()
    })
}

/// The image sources of the user messages and tool results of `msgs`, in
/// order.
pub open spec fn image_sources_of(msgs: Seq<MessageView>) -> Seq<ImageSourceView>
    decreases msgs.len(),
{
    if msgs.len() == 0 {
        Seq::empty()
    } else {
        image_sources_of(msgs.drop_last()) + match msgs.last() {
            MessageView::User { image_sources, .. } => image_sources,
            MessageView::Tool { image_sources, .. } => image_sources,
            _ => Seq::empty(),
        }
    }
}

/// The values of the conversation's tools.
pub open spec fn conversation_tools(c: Conversation) -> Seq<ToolDefinitionView> {
    tools_view(c.tools@)
}

/// The prompt of the conversation `c`.
pub open spec fn conversation_prompt(v: Version, c: Conversation) -> Seq<char> {
    prompt_text(
        v,
        messages_view(c.messages@),
        tools_view(c.tools@),
        c.tool_choice,
        c.thinking_mode,
        c.reasoning_effort,
        c.response_format,
    )
}

/// The image sources of the conversation `c`, in placeholder order.
pub open spec fn conversation_images(v: Version, c: Conversation) -> Seq<ImageSourceView> {
    image_sources_of(prompt_messages(v, messages_view(c.messages@), tools_view(c.tools@), c.tool_choice, c.response_format))
}

/// Appends the tool schemas, one per line, to `out`.
fn push_tool_schemas(out: &mut Vec<char>, tools: &Vec<ToolDefinition>)
    ensures
        final(out)@ == old(out)@ + tool_schemas_text(tools_view(tools@)),
{
    let ghost tv = tools_view(tools@);
    let ghost items = Seq::new(tv.len(), |i: int| json_text(tool_schema_value(tv[i]), true));
    let ghost before = out@;
    let mut i: usize = 0;
    while i < tools.len()
        invariant
            i <= tools@.len(),
            tv == tools_view(tools@),
            items == Seq::new(tv.len(), |i: int| json_text(tool_schema_value(tv[i]), true)),
            out@ == before + join(items.take(i as int), "\n"@),
        decreases tools@.len() - i,
    {
        proof {
            lemma_join_push(items, "\n"@, i as int);
        }
        push_sep(out, i > 0, "\n");
        let tool = &tools[i];
        let description = match &tool.description {
            Some(d) => d.clone(),
            None => String::new(),
        };
        let mut members: Vec<(String, JsonValue)> = Vec::new();
        members.push((String::from_str("name"), JsonValue::String(tool.name.clone())));
        members.push((String::from_str("description"), JsonValue::String(description)));
        members.push((String::from_str("parameters"), crate::json::duplicate_json(&tool.parameters)));
        let schema = JsonValue::Object(members);
        proof {
            crate::json::lemma_member_views_index(members@, 0);
            crate::json::lemma_member_views_index(members@, 1);
            crate::json::lemma_member_views_index(members@, 2);
            assert(crate::json::member_views(members@) =~= tool_schema_value(tv[i as int])->Object_0);
        }
        write_json(out, &schema, true);
        i += 1;
    }
    assert(items.take(tools@.len() as int) =~= items);
}

/// Appends part 1 of the tools section before the tool schemas to `out`.
#[verifier::rlimit(40)]
fn push_tool_prompt_part1(out: &mut Vec<char>, v: Version)
    ensures
        final(out)@ == old(out)@ + tool_prompt_part1(v),
{
    append_str(out, "## Tools\n\nYou have access to a set of tools to help answer the user's question. You can invoke tools by writing a \"<");
    append_str(out, DSML_SP_TOKEN);
    append_str(out, block_name_str(v));
    append_str(out, ">\" block like the following:\n\n<");
    append_str(out, DSML_SP_TOKEN);
    append_str(out, block_name_str(v));
    append_str(out, ">\n<");
    append_str(out, DSML_SP_TOKEN);
    append_str(out, call_tag_str(v));
    append_str(out, " name=\"$TOOL_NAME\">\n<");
    assert(final(out)@ =~= old(out)@ + tool_prompt_part1(v));
}

/// Appends part 2 of the tools section before the tool schemas to `out`.
#[verifier::rlimit(40)]
fn push_tool_prompt_part2(out: &mut Vec<char>, v: Version)
    ensures
        final(out)@ == old(out)@ + tool_prompt_part2(v),
{
    append_str(out, DSML_SP_TOKEN);
    append_str(out, parameter_tag_str(v));
    append_str(out, " name=\"$PARAMETER_NAME\" string=\"true|false\">$PARAMETER_VALUE</");
    append_str(out, DSML_SP_TOKEN);
    append_str(out, parameter_tag_str(v));
    append_str(out, ">\n...\n</");
    append_str(out, DSML_SP_TOKEN);
    append_str(out, call_tag_str(v));
    append_str(out, ">\n<");
    assert(final(out)@ =~= old(out)@ + tool_prompt_part2(v));
}

/// Appends part 3 of the tools section before the tool schemas to `out`.
#[verifier::rlimit(40)]
fn push_tool_prompt_part3(out: &mut Vec<char>, v: Version)
    ensures
        final(out)@ == old(out)@ + tool_prompt_part3(v),
{
    append_str(out, DSML_SP_TOKEN);
    append_str(out, call_tag_str(v));
    append_str(out, " name=\"$TOOL_NAME2\">\n...\n</");
    append_str(out, DSML_SP_TOKEN);
    append_str(out, call_tag_str(v));
    append_str(out, ">\n</");
    append_str(out, DSML_SP_TOKEN);
    append_str(out, block_name_str(v));
    append_str(out, ">\n\nString parameters should be specified as is and set `string=\"true\"`. For all other types (numbers, booleans, arrays, objects), pass the value in JSON format and set `string=\"false\"`.\n\nIf thinking_mode is enabled (triggered by ");
    assert(final(out)@ =~= old(out)@ + tool_prompt_part3(v));
}

/// Appends part 4 of the tools section before the tool schemas to `out`.
#[verifier::rlimit(40)]
fn push_tool_prompt_part4(out: &mut Vec<char>, v: Version)
    ensures
        final(out)@ == old(out)@ + tool_prompt_part4(v),
{
    append_str(out, THINKING_START_TOKEN);
    append_str(out, "), you MUST output your complete reasoning inside ");
    append_str(out, THINKING_START_TOKEN);
    append_str(out, "...");
    append_str(out, THINKING_END_TOKEN);
    append_str(out, " BEFORE any tool calls or final response.\n\nOtherwise, output directly after ");
    append_str(out, THINKING_END_TOKEN);
    append_str(out, " with tool calls or final response.\n\n### Available Tool Schemas\n\n");
    assert(final(out)@ =~= old(out)@ + tool_prompt_part4(v));
}

/// Appends the tools section of the system prompt to `out`.
#[verifier::rlimit(40)]
fn render_tool_prompt(out: &mut Vec<char>, v: Version, tools: &Vec<ToolDefinition>)
    ensures
        final(out)@ == old(out)@ + tool_prompt_text(v, tool_schemas_text(tools_view(tools@))),
{
    push_tool_prompt_part1(out, v);
    push_tool_prompt_part2(out, v);
    push_tool_prompt_part3(out, v);
    push_tool_prompt_part4(out, v);
    push_tool_schemas(out, tools);
    append_str(out, "\n\nYou MUST strictly follow the above defined tool name and parameter schemas to invoke tool calls.\n");
    assert(final(out)@ =~= old(out)@ + tool_prompt_text(v, tool_schemas_text(tools_view(tools@))));
}

/// A rendered prompt and the images its placeholders refer to.
#[derive(Debug)]
pub struct RenderedPrompt {
    /// Model input string.
    pub prompt: String,
    /// Image sources in the order their placeholders appear in the prompt.
    pub image_sources: Vec<ImageSource>,
}

/// Appends the image sources of the user messages and tool results of `msgs`
/// to `out`.
fn collect_image_sources(msgs: &Vec<InputMessage>) -> (r: Vec<ImageSource>)
    ensures
        sources_view(r@) == image_sources_of(messages_view(msgs@)),
{
    let ghost mv = messages_view(msgs@);
    let mut out: Vec<ImageSource> = Vec::new();
    let mut i: usize = 0;
    assert(sources_view(out@) =~= image_sources_of(mv.take(0)));
    while i < msgs.len()
        invariant
            i <= msgs@.len(),
            mv == messages_view(msgs@),
            sources_view(out@) == image_sources_of(mv.take(i as int)),
        decreases msgs@.len() - i,
    {
        assert(mv.take(i + 1).drop_last() =~= mv.take(i as int));
        assert(mv.take(i + 1).last() == msgs@[i as int]@);
        match &msgs[i] {
            InputMessage::User { image_sources, .. } => {
                crate::normalize::append_sources(&mut out, image_sources);
            },
            InputMessage::Tool { image_sources, .. } => {
                crate::normalize::append_sources(&mut out, image_sources);
            },
            _ => {
                assert(sources_view(out@) =~= image_sources_of(mv.take(i + 1)));
            },
        }
        i += 1;
    }
    assert(mv.take(msgs@.len() as int) =~= mv);
    out
}

/// Returns the text appended to the leading system message.
fn system_addition_text(v: Version, has_tools: bool, format: ResponseFormat, tools: &Vec<ToolDefinition>) -> (r: Vec<char>)
    ensures
        r@ == system_addition(v, has_tools, format, tools_view(tools@)),
{
    let mut out: Vec<char> = Vec::new();
    if has_tools {
        append_str(&mut out, "\n\n");
        render_tool_prompt(&mut out, v, tools);
    }
    let ghost tools_part = out@;
    match format {
        ResponseFormat::Text => {},
        ResponseFormat::JsonObject => {
            append_str(&mut out, "\n\n## Response Format:\n\nYou MUST strictly adhere to the following schema to reply:\n");
            let mut members: Vec<(String, JsonValue)> = Vec::new();
            members.push((String::from_str("type"), JsonValue::String(String::from_str("json_object"))));
            let schema = JsonValue::Object(members);
            proof {
                crate::json::lemma_member_views_index(members@, 0);
                assert(crate::json::member_views(members@) =~= json_object_schema()->Object_0);
            }
            write_json(&mut out, &schema, true);
        },
    }
    assert(out@ =~= system_addition(v, has_tools, format, tools_view(tools@)));
    out
}

/// Renders a conversation into the prompt of the format `v` and the image
/// sources of its placeholders.
#[verifier::rlimit(80)]
pub fn render_conversation_for(v: Version, conversation: &Conversation) -> (r: RenderedPrompt)
    ensures
        r.prompt@ == conversation_prompt(v, *conversation),
        sources_view(r.image_sources@) == conversation_images(v, *conversation),
{
    let mut messages = crate::normalize::normalize_messages(v, &conversation.messages);
    let ghost tv = tools_view(conversation.tools@);
    let ghost nv = messages_view(messages@);
    let has_tools = conversation.tool_choice != ToolChoice::Disabled && conversation.tools.len() > 0;
    let json_format = conversation.response_format == ResponseFormat::JsonObject;
    if has_tools || json_format {
        let first_is_system = messages.len() > 0 && matches!(messages[0], InputMessage::System { .. });
        if !first_is_system {
            messages.insert(0, InputMessage::System { content: String::new() });
            assert(messages_view(messages@) =~= seq![MessageView::System { content: Seq::empty() }] + nv);
        }
        let ghost m = messages_view(messages@);
        let addition = system_addition_text(v, has_tools, conversation.response_format, &conversation.tools);
        let content = match &messages[0] {
            InputMessage::System { content } => {
                let mut chars = chars_of(content.as_str());
                append_chars(&mut chars, addition.as_slice());
                string_of(chars.as_slice())
            },
            _ => {
                assert(false);
                String::new()
            },
        };
        messages.set(0, InputMessage::System { content });
        assert(messages_view(messages@) =~= with_system_addition(
            nv,
            system_addition(v, has_tools, conversation.response_format, tv),
        ));
    }
    let ghost pm = messages_view(messages@);
    assert(pm == prompt_messages(v, messages_view(conversation.messages@), tv, conversation.tool_choice, conversation.response_format));
    let mut prompt: Vec<char> = Vec::new();
    append_str(&mut prompt, BOS_TOKEN);
    let mut i: usize = 0;
    while i < messages.len()
        invariant
            i <= messages@.len(),
            pm == messages_view(messages@),
            prompt@ == BOS_TOKEN@ + messages_text(v, pm, i as int, conversation.thinking_mode, conversation.reasoning_effort),
        decreases messages@.len() - i,
    {
        render_message(&mut prompt, v, &messages, i, conversation.thinking_mode, conversation.reasoning_effort);
        i += 1;
    }
    append_str(&mut prompt, ASSISTANT_SP_TOKEN);
    if conversation.thinking_mode {
        append_str(&mut prompt, THINKING_START_TOKEN);
    } else {
        append_str(&mut prompt, THINKING_END_TOKEN);
    }
    if conversation.tool_choice == ToolChoice::Required && conversation.tools.len() > 0 {
        append_str(&mut prompt, "\n\n<");
        append_str(&mut prompt, DSML_SP_TOKEN);
        append_str(&mut prompt, block_name_str(v));
        append_str(&mut prompt, ">\n");
    }
    assert(prompt@ =~= conversation_prompt(v, *conversation));
    let image_sources = collect_image_sources(&messages);
    RenderedPrompt { prompt: string_of(prompt.as_slice()), image_sources }
}

// ---------------------------------------------------------------------------
// Encodings

/// Encode text into model token ids.
///
/// Other tokenizers can implement it to back a prompt encoding.
pub trait TokenizerEncoder {
    /// Whether encoding the text `text` may give `r`: the token ids, or the
    /// message of the failure. A tokenizer that states nothing of its
    /// results allows every result.
    closed spec fn encodes(&self, text: Seq<char>, r: Result<Seq<u32>, Seq<char>>) -> bool {
        true
    }

    /// Encode `text` into token ids without added special tokens.
    fn encode_ids(&self, text: &str) -> (r: Result<Vec<u32>, String>)
        ensures
            self.encodes(text@, ids_result(r)),
    ;
}

/// The ids or the failure message of an encoding result.
pub open spec fn ids_result(r: Result<Vec<u32>, String>) -> Result<Seq<u32>, Seq<char>> {
    match r {
        Ok(ids) => Ok(ids@),
        Err(m) => Err(m@),
    }
}

/// `r` hands on what the tokenizer `t` gives for the prompt `prompt`: its
/// ids, or its failure as an encode error.
pub open spec fn hands_on_encoding<T: TokenizerEncoder>(t: T, prompt: Seq<char>, r: Result<Vec<u32>, EncodingError>) -> bool {
    match r {
        Ok(ids) => t.encodes(prompt, Ok(ids@)),
        Err(EncodingError::Encode(m)) => t.encodes(prompt, Err(m@)),
        Err(EncodingError::MissingTokenizer) => false,
    }
}

/// The tokenizer of an encoding that has none attached.
#[derive(Debug, Clone, Copy, PartialEq, Eq, Structural)]
pub struct NoTokenizer;

impl TokenizerEncoder for NoTokenizer {
    open spec fn encodes(&self, text: Seq<char>, r: Result<Seq<u32>, Seq<char>>) -> bool {
        r == Err::<Seq<u32>, Seq<char>>("no tokenizer is attached to the encoding"@)
    }

    fn encode_ids(&self, text: &str) -> (r: Result<Vec<u32>, String>)
        ensures
            r matches Err(m) && m@ == "no tokenizer is attached to the encoding"@,
    {
        Err(String::from_str("no tokenizer is attached to the encoding"))
    }
}

/// Failure to encode a conversation.
#[derive(Debug, Clone, PartialEq, Eq)]
pub enum EncodingError {
    /// The rendered prompt could not be encoded.
    Encode(String),
    /// The encoding has no attached tokenizer.
    MissingTokenizer,
}

/// Render model prompts and encode conversations into token IDs.
pub trait PromptEncoding {
    /// Encode a conversation into model token IDs using the attached
    /// tokenizer; [`EncodingError::MissingTokenizer`] when none is attached.
    fn encode(&self, conversation: &Conversation) -> Result<Vec<u32>, EncodingError>;

    /// Render the conversation and the prefix for the next assistant turn.
    fn render_conversation(&self, conversation: &Conversation) -> RenderedPrompt;
}

/// Encodes the prompt of `conversation` in the format `v` with `tokenizer`.
fn encode_with<T: TokenizerEncoder>(v: Version, tokenizer: &Option<T>, conversation: &Conversation) -> (r: Result<Vec<u32>, EncodingError>)
    ensures
        tokenizer is None ==> r == Err::<Vec<u32>, EncodingError>(EncodingError::MissingTokenizer),
        tokenizer matches Some(t) ==> hands_on_encoding(*t, conversation_prompt(v, *conversation), r),
{
    match tokenizer {
        None => Err(EncodingError::MissingTokenizer),
        Some(t) => {
            let rendered = render_conversation_for(v, conversation);
            match t.encode_ids(rendered.prompt.as_str()) {
                Ok(ids) => Ok(ids),
                Err(message) => Err(EncodingError::Encode(message)),
            }
        },
    }
}

/// Prompt rendering and token encoding for DeepSeek V4.
pub struct DeepseekV4Encoding<T> {
    tokenizer: Option<T>,
}

impl DeepseekV4Encoding<NoTokenizer> {
    /// Create an encoding without an attached tokenizer.
    ///
    /// Token encoding requires a tokenizer, attached with `with_tokenizer`.
    pub fn new() -> (r: DeepseekV4Encoding<NoTokenizer>)
        ensures
            r.tokenizer_spec() is None,
    {
        DeepseekV4Encoding { tokenizer: None }
    }
}

impl<T: TokenizerEncoder> DeepseekV4Encoding<T> {
    /// The attached tokenizer.
    pub closed spec fn tokenizer_spec(self) -> Option<T> {
        self.tokenizer
    }

    /// Attach the tokenizer used by token encoding.
    pub fn with_tokenizer<U: TokenizerEncoder>(self, tokenizer: U) -> (r: DeepseekV4Encoding<U>)
        ensures
            r.tokenizer_spec() == Some(tokenizer),
    {
        DeepseekV4Encoding { tokenizer: Some(tokenizer) }
    }
}

impl<T: TokenizerEncoder> PromptEncoding for DeepseekV4Encoding<T> {
    fn encode(&self, conversation: &Conversation) -> (r: Result<Vec<u32>, EncodingError>)
        ensures
            self.tokenizer_spec() is None ==> r == Err::<Vec<u32>, EncodingError>(EncodingError::MissingTokenizer),
            self.tokenizer_spec() matches Some(t) ==> hands_on_encoding(t, conversation_prompt(Version::V4, *conversation), r),
    {
        encode_with(Version::V4, &self.tokenizer, conversation)
    }

    fn render_conversation(&self, conversation: &Conversation) -> (r: RenderedPrompt)
        ensures
            r.prompt@ == conversation_prompt(Version::V4, *conversation),
            sources_view(r.image_sources@) == conversation_images(Version::V4, *conversation),
    {
        render_conversation_for(Version::V4, conversation)
    }
}

/// Prompt rendering and token encoding for DeepSeek V4.1.
pub struct DeepseekV41Encoding<T> {
    tokenizer: Option<T>,
}

impl DeepseekV41Encoding<NoTokenizer> {
    /// Create an encoding without an attached tokenizer.
    ///
    /// Token encoding requires a tokenizer, attached with `with_tokenizer`.
    pub fn new() -> (r: DeepseekV41Encoding<NoTokenizer>)
        ensures
            r.tokenizer_spec() is None,
    {
        DeepseekV41Encoding { tokenizer: None }
    }
}

impl<T: TokenizerEncoder> DeepseekV41Encoding<T> {
    /// The attached tokenizer.
    pub closed spec fn tokenizer_spec(self) -> Option<T> {
        self.tokenizer
    }

    /// Attach the tokenizer used by token encoding.
    pub fn with_tokenizer<U: TokenizerEncoder>(self, tokenizer: U) -> (r: DeepseekV41Encoding<U>)
        ensures
            r.tokenizer_spec() == Some(tokenizer),
    {
        DeepseekV41Encoding { tokenizer: Some(tokenizer) }
    }
}

impl<T: TokenizerEncoder> PromptEncoding for DeepseekV41Encoding<T> {
    fn encode(&self, conversation: &Conversation) -> (r: Result<Vec<u32>, EncodingError>)
        ensures
            self.tokenizer_spec() is None ==> r == Err::<Vec<u32>, EncodingError>(EncodingError::MissingTokenizer),
            self.tokenizer_spec() matches Some(t) ==> hands_on_encoding(t, conversation_prompt(Version::V41, *conversation), r),
    {
        encode_with(Version::V41, &self.tokenizer, conversation)
    }

    fn render_conversation(&self, conversation: &Conversation) -> (r: RenderedPrompt)
        ensures
            r.prompt@ == conversation_prompt(Version::V41, *conversation),
            sources_view(r.image_sources@) == conversation_images(Version::V41, *conversation),
    {
        render_conversation_for(Version::V41, conversation)
    }
}


// ---------------------------------------------------------------------------
// Earlier reasoning

/// In thinking mode an earlier assistant turn keeps its reasoning: an
/// assistant message after the first with reasoning `r` and no tool calls
/// renders as the assistant token, `<think>`, the reasoning verbatim,
/// `</think>`, the content and the end-of-sentence token. With tool calls,
/// the same opening comes first and the end-of-sentence token last.
pub proof fn lemma_reasoning_kept(
    v: Version,
    index: int,
    content: Seq<char>,
    r: Seq<char>,
    tool_calls: Option<Seq<ToolCallView>>,
)
    requires
        index > 0,
    ensures
        ({
            let text = assistant_text(v, index, true, content, Some(r), tool_calls);
            let opening = ASSISTANT_SP_TOKEN@ + THINKING_START_TOKEN@ + r + THINKING_END_TOKEN@ + content;
            &&& text.len() >= opening.len() + EOS_TOKEN@.len()
            &&& text.take(opening.len() as int) == opening
            &&& text.skip(text.len() - EOS_TOKEN@.len()) == EOS_TOKEN@
            &&& (tool_calls is None ==> text == opening + EOS_TOKEN@)
        }),
{
    reveal(assistant_text);
    reveal_strlit("</think>");
    let text = assistant_text(v, index, true, content, Some(r), tool_calls);
    let calls_part = match tool_calls {
        Some(calls) => if calls.len() > 0 {
            "\n\n"@ + calls_block_text(v, calls)
        } else {
            Seq::empty()
        },
        None => Seq::empty(),
    };
    let opening = ASSISTANT_SP_TOKEN@ + THINKING_START_TOKEN@ + r + THINKING_END_TOKEN@ + content;
    assert(opt_text(Some(r)) == r);
    assert((r + THINKING_END_TOKEN@).len() > 0);
    assert(text =~= opening + calls_part + EOS_TOKEN@);
    assert(text.take(opening.len() as int) =~= opening);
    assert(text.skip(text.len() - EOS_TOKEN@.len()) =~= EOS_TOKEN@);
    if tool_calls is None {
        assert(calls_part =~= Seq::<char>::empty());
        assert(text =~= opening + EOS_TOKEN@);
    }
}

/// The same holds of an assistant message of a conversation: in thinking
/// mode, the message after the first whose reasoning is `r` renders with
/// `<think>`, `r` and `</think>` before its content.
pub proof fn lemma_message_reasoning_kept(v: Version, msgs: Seq<MessageView>, index: int)
    requires
        0 < index < msgs.len(),
        msgs[index] matches MessageView::Assistant { reasoning_content, tool_calls, .. } && reasoning_content is Some
            && tool_calls is None,
    ensures
        ({
            let content = msgs[index]->Assistant_content;
            let r = msgs[index]->Assistant_reasoning_content->Some_0;
            message_body(v, msgs, index, true) == ASSISTANT_SP_TOKEN@ + THINKING_START_TOKEN@ + r + THINKING_END_TOKEN@
                + content + EOS_TOKEN@
        }),
{
    reveal(message_body);
    let content = msgs[index]->Assistant_content;
    let r = msgs[index]->Assistant_reasoning_content->Some_0;
    lemma_reasoning_kept(v, index, content, r, None);
}


/// Outside thinking mode, and for the first message, an assistant turn
/// without tool calls carries no reasoning: it renders as the assistant
/// token, `</think>`, the content and the end-of-sentence token, whatever
/// its reasoning.
pub proof fn lemma_reasoning_dropped(
    v: Version,
    index: int,
    thinking: bool,
    content: Seq<char>,
    reasoning: Option<Seq<char>>,
)
    requires
        !thinking || index <= 0,
    ensures
        assistant_text(v, index, thinking, content, reasoning, None) == ASSISTANT_SP_TOKEN@ + THINKING_END_TOKEN@ + content
            + EOS_TOKEN@,
{
    reveal(assistant_text);
    assert(assistant_text(v, index, thinking, content, reasoning, None) =~= ASSISTANT_SP_TOKEN@ + THINKING_END_TOKEN@
        + content + EOS_TOKEN@);
}

} // verus!
