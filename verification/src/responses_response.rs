//! OpenAI Responses responses: the complete response, its stream events, and
//! the accumulation of events into a response.

use vstd::prelude::*;

use crate::conversation::opt_view;
use crate::request::AppendDelta;
use crate::stream::{CompletionUsage, PromptUsage};
use crate::text::concat;

verus! {

/// Response and output item states generated from parsed output chunks.
#[derive(Debug, Clone, Copy, PartialEq, Eq, Structural)]
pub enum ResponsesStatus {
    InProgress,
    Completed,
    Incomplete,
}

/// Error fields for a complete response. Parsed output chunks contain no
/// error information, so generated responses set `error` to null.
#[derive(Debug, Clone)]
pub struct ResponsesError {
    pub code: String,
    pub message: String,
}

/// Why a response is incomplete.
#[derive(Debug, Clone, Copy, PartialEq, Eq, Structural)]
pub enum ResponsesIncompleteReason {
    MaxOutputTokens,
    ContentFilter,
}

/// The details of an incomplete response.
#[derive(Debug, Clone, Copy, PartialEq, Eq, Structural)]
pub struct ResponsesIncompleteDetails {
    pub reason: ResponsesIncompleteReason,
}

/// The role of a message item.
#[derive(Debug, Clone, Copy, PartialEq, Eq, Structural)]
pub enum ResponsesRole {
    Assistant,
}

/// Answer content immediately before a tool call uses `commentary` in the
/// completed output item.
#[derive(Debug, Clone, Copy, PartialEq, Eq, Structural)]
pub enum ResponsesPhase {
    Commentary,
    FinalAnswer,
}

/// Cached input tokens.
#[derive(Debug, Clone, Copy, PartialEq, Eq, Structural)]
pub struct ResponsesInputTokensDetails {
    pub cached_tokens: usize,
}

/// Reasoning output tokens.
#[derive(Debug, Clone, Copy, PartialEq, Eq, Structural)]
pub struct ResponsesOutputTokensDetails {
    /// Always zero because the backend reports no reasoning token count.
    pub reasoning_tokens: usize,
}

/// Backend prompt counts combined with completion counts accumulated by the
/// stream processor.
#[derive(Debug, Clone, Copy, PartialEq, Eq, Structural)]
pub struct ResponsesUsage {
    pub input_tokens: usize,
    pub input_tokens_details: ResponsesInputTokensDetails,
    pub output_tokens: usize,
    pub output_tokens_details: ResponsesOutputTokensDetails,
    pub total_tokens: usize,
}

/// The usage reported for prompt and completion counts. The total wraps
/// around on overflow, as a release build's addition does.
pub open spec fn usage_of(prompt: PromptUsage, completion: CompletionUsage) -> ResponsesUsage {
    ResponsesUsage {
        input_tokens: prompt.prompt_tokens,
        input_tokens_details: ResponsesInputTokensDetails { cached_tokens: prompt.prompt_cache_hit_tokens },
        output_tokens: completion.completion_tokens,
        output_tokens_details: ResponsesOutputTokensDetails { reasoning_tokens: 0 },
        total_tokens: prompt.prompt_tokens.wrapping_add(completion.completion_tokens),
    }
}

impl From<(PromptUsage, CompletionUsage)> for ResponsesUsage {
    fn from(value: (PromptUsage, CompletionUsage)) -> (r: ResponsesUsage) {
        let (prompt, completion) = value;
        ResponsesUsage {
            input_tokens: prompt.prompt_tokens,
            input_tokens_details: ResponsesInputTokensDetails { cached_tokens: prompt.prompt_cache_hit_tokens },
            output_tokens: completion.completion_tokens,
            output_tokens_details: ResponsesOutputTokensDetails { reasoning_tokens: 0 },
            total_tokens: prompt.prompt_tokens.wrapping_add(completion.completion_tokens),
        }
    }
}

impl vstd::std_specs::convert::FromSpecImpl<(PromptUsage, CompletionUsage)> for ResponsesUsage {
    open spec fn obeys_from_spec() -> bool {
        true
    }

    open spec fn from_spec(v: (PromptUsage, CompletionUsage)) -> ResponsesUsage {
        usage_of(v.0, v.1)
    }
}

/// Content produced from parsed model output. Annotations and log
/// probabilities are emitted as empty arrays.
#[derive(Debug)]
pub enum ResponsesContentPart {
    OutputText { annotations: Vec<()>, logprobs: Vec<()>, text: String },
    ReasoningText { text: String },
}

/// Output items retain their position in the response throughout
/// streaming. Item IDs identify output items in events. Call IDs associate
/// subsequent tool results with their calls.
#[derive(Debug)]
pub enum ResponsesOutputItem {
    Message {
        id: String,
        status: ResponsesStatus,
        role: ResponsesRole,
        phase: ResponsesPhase,
        content: Vec<ResponsesContentPart>,
    },
    Reasoning { id: String, status: ResponsesStatus, content: Vec<ResponsesContentPart>, summary: Vec<()> },
    FunctionCall {
        id: String,
        status: ResponsesStatus,
        call_id: String,
        name: String,
        namespace: Option<String>,
        arguments: String,
    },
    CustomToolCall { id: String, status: ResponsesStatus, call_id: String, name: String, input: String },
}

/// A complete Responses response with event accumulation.
/// Deltas append, done events replace values, and full responses replace
/// state. Incremental events with mismatched indices, IDs, or types are
/// ignored.
#[derive(Debug)]
pub struct ResponsesResponse {
    pub id: String,
    pub object: &'static str,
    pub created_at: u64,
    pub model: String,
    pub status: ResponsesStatus,
    pub completed_at: Option<u64>,
    pub error: Option<ResponsesError>,
    pub incomplete_details: Option<ResponsesIncompleteDetails>,
    pub output: Vec<ResponsesOutputItem>,
    /// Usage is null until `Finish`; constructor token counts are ignored.
    pub usage: Option<ResponsesUsage>,
}

/// A typed Responses SSE event. The `type` field is also the SSE event
/// name. Sequence numbers increase across all event kinds within one
/// response.
#[derive(Debug)]
pub enum ResponsesStreamEvent {
    Created { response: ResponsesResponse, sequence_number: usize },
    InProgress { response: ResponsesResponse, sequence_number: usize },
    OutputItemAdded { item: ResponsesOutputItem, output_index: usize, sequence_number: usize },
    ContentPartAdded {
        content_index: usize,
        item_id: String,
        output_index: usize,
        part: ResponsesContentPart,
        sequence_number: usize,
    },
    OutputTextDelta {
        content_index: usize,
        delta: String,
        item_id: String,
        logprobs: Vec<()>,
        output_index: usize,
        sequence_number: usize,
    },
    OutputTextDone {
        content_index: usize,
        item_id: String,
        logprobs: Vec<()>,
        output_index: usize,
        sequence_number: usize,
        text: String,
    },
    ReasoningTextDelta { content_index: usize, delta: String, item_id: String, output_index: usize, sequence_number: usize },
    ReasoningTextDone { content_index: usize, item_id: String, output_index: usize, sequence_number: usize, text: String },
    FunctionCallArgumentsDelta { delta: String, item_id: String, output_index: usize, sequence_number: usize },
    FunctionCallArgumentsDone { arguments: String, item_id: String, output_index: usize, sequence_number: usize },
    CustomToolCallInputDelta { delta: String, item_id: String, output_index: usize, sequence_number: usize },
    CustomToolCallInputDone { input: String, item_id: String, output_index: usize, sequence_number: usize },
    ContentPartDone {
        content_index: usize,
        item_id: String,
        output_index: usize,
        part: ResponsesContentPart,
        sequence_number: usize,
    },
    OutputItemDone { item: ResponsesOutputItem, output_index: usize, sequence_number: usize },
    Completed { response: ResponsesResponse, sequence_number: usize },
    Incomplete { response: ResponsesResponse, sequence_number: usize },
}

impl ResponsesStreamEvent {
    /// The SSE event name, which is also the `type` field.
    pub fn event_type(&self) -> (r: &'static str)
        ensures
            r@ == event_name(*self),
    {
        match self {
            ResponsesStreamEvent::Created { .. } => "response.created",
            ResponsesStreamEvent::InProgress { .. } => "response.in_progress",
            ResponsesStreamEvent::OutputItemAdded { .. } => "response.output_item.added",
            ResponsesStreamEvent::ContentPartAdded { .. } => "response.content_part.added",
            ResponsesStreamEvent::OutputTextDelta { .. } => "response.output_text.delta",
            ResponsesStreamEvent::OutputTextDone { .. } => "response.output_text.done",
            ResponsesStreamEvent::ReasoningTextDelta { .. } => "response.reasoning_text.delta",
            ResponsesStreamEvent::ReasoningTextDone { .. } => "response.reasoning_text.done",
            ResponsesStreamEvent::FunctionCallArgumentsDelta { .. } => "response.function_call_arguments.delta",
            ResponsesStreamEvent::FunctionCallArgumentsDone { .. } => "response.function_call_arguments.done",
            ResponsesStreamEvent::CustomToolCallInputDelta { .. } => "response.custom_tool_call_input.delta",
            ResponsesStreamEvent::CustomToolCallInputDone { .. } => "response.custom_tool_call_input.done",
            ResponsesStreamEvent::ContentPartDone { .. } => "response.content_part.done",
            ResponsesStreamEvent::OutputItemDone { .. } => "response.output_item.done",
            ResponsesStreamEvent::Completed { .. } => "response.completed",
            ResponsesStreamEvent::Incomplete { .. } => "response.incomplete",
        }
    }
}

/// The SSE event name of an event.
pub open spec fn event_name(e: ResponsesStreamEvent) -> Seq<char> {
    match e {
        ResponsesStreamEvent::Created { .. } => "response.created"@,
        ResponsesStreamEvent::InProgress { .. } => "response.in_progress"@,
        ResponsesStreamEvent::OutputItemAdded { .. } => "response.output_item.added"@,
        ResponsesStreamEvent::ContentPartAdded { .. } => "response.content_part.added"@,
        ResponsesStreamEvent::OutputTextDelta { .. } => "response.output_text.delta"@,
        ResponsesStreamEvent::OutputTextDone { .. } => "response.output_text.done"@,
        ResponsesStreamEvent::ReasoningTextDelta { .. } => "response.reasoning_text.delta"@,
        ResponsesStreamEvent::ReasoningTextDone { .. } => "response.reasoning_text.done"@,
        ResponsesStreamEvent::FunctionCallArgumentsDelta { .. } => "response.function_call_arguments.delta"@,
        ResponsesStreamEvent::FunctionCallArgumentsDone { .. } => "response.function_call_arguments.done"@,
        ResponsesStreamEvent::CustomToolCallInputDelta { .. } => "response.custom_tool_call_input.delta"@,
        ResponsesStreamEvent::CustomToolCallInputDone { .. } => "response.custom_tool_call_input.done"@,
        ResponsesStreamEvent::ContentPartDone { .. } => "response.content_part.done"@,
        ResponsesStreamEvent::OutputItemDone { .. } => "response.output_item.done"@,
        ResponsesStreamEvent::Completed { .. } => "response.completed"@,
        ResponsesStreamEvent::Incomplete { .. } => "response.incomplete"@,
    }
}

// ---------------------------------------------------------------------------
// Values

/// The value of a content part.
pub enum PartView {
    OutputText { annotations: nat, logprobs: nat, text: Seq<char> },
    ReasoningText { text: Seq<char> },
}

/// The value of a content part.
pub open spec fn part_view(p: ResponsesContentPart) -> PartView {
    match p {
        ResponsesContentPart::OutputText { annotations, logprobs, text } => PartView::OutputText {
            annotations: annotations@.len(),
            logprobs: logprobs@.len(),
            text: text@,
        },
        ResponsesContentPart::ReasoningText { text } => PartView::ReasoningText { text: text@ },
    }
}

/// The values of a list of content parts.
pub open spec fn parts_view(ps: Seq<ResponsesContentPart>) -> Seq<PartView> {
    Seq::new(ps.len(), |i: int| part_view(ps[i]))
}

/// The value of an output item.
pub enum ItemView {
    Message { id: Seq<char>, status: ResponsesStatus, role: ResponsesRole, phase: ResponsesPhase, content: Seq<PartView> },
    Reasoning { id: Seq<char>, status: ResponsesStatus, content: Seq<PartView>, summary: nat },
    FunctionCall {
        id: Seq<char>,
        status: ResponsesStatus,
        call_id: Seq<char>,
        name: Seq<char>,
        namespace: Option<Seq<char>>,
        arguments: Seq<char>,
    },
    CustomToolCall { id: Seq<char>, status: ResponsesStatus, call_id: Seq<char>, name: Seq<char>, input: Seq<char> },
}

/// The value of an output item.
pub open spec fn item_view(item: ResponsesOutputItem) -> ItemView {
    match item {
        ResponsesOutputItem::Message { id, status, role, phase, content } => ItemView::Message {
            id: id@,
            status,
            role,
            phase,
            content: parts_view(content@),
        },
        ResponsesOutputItem::Reasoning { id, status, content, summary } => ItemView::Reasoning {
            id: id@,
            status,
            content: parts_view(content@),
            summary: summary@.len(),
        },
        ResponsesOutputItem::FunctionCall { id, status, call_id, name, namespace, arguments } => ItemView::FunctionCall {
            id: id@,
            status,
            call_id: call_id@,
            name: name@,
            namespace: opt_view(namespace),
            arguments: arguments@,
        },
        ResponsesOutputItem::CustomToolCall { id, status, call_id, name, input } => ItemView::CustomToolCall {
            id: id@,
            status,
            call_id: call_id@,
            name: name@,
            input: input@,
        },
    }
}

/// The values of a list of output items.
pub open spec fn items_view(items: Seq<ResponsesOutputItem>) -> Seq<ItemView> {
    Seq::new(items.len(), |i: int| item_view(items[i]))
}

/// The value of a response.
pub struct ResponseView {
    pub id: Seq<char>,
    pub object: Seq<char>,
    pub created_at: u64,
    pub model: Seq<char>,
    pub status: ResponsesStatus,
    pub completed_at: Option<u64>,
    pub error: Option<(Seq<char>, Seq<char>)>,
    pub incomplete_details: Option<ResponsesIncompleteDetails>,
    pub output: Seq<ItemView>,
    pub usage: Option<ResponsesUsage>,
}

/// The value of a response.
pub open spec fn response_view(r: ResponsesResponse) -> ResponseView {
    ResponseView {
        id: r.id@,
        object: r.object@,
        created_at: r.created_at,
        model: r.model@,
        status: r.status,
        completed_at: r.completed_at,
        error: match r.error {
            Some(e) => Some((e.code@, e.message@)),
            None => None,
        },
        incomplete_details: r.incomplete_details,
        output: items_view(r.output@),
        usage: r.usage,
    }
}

/// The value of an event, without its sequence number.
pub enum EventView {
    Response(ResponseView),
    OutputItemAdded(ItemView, usize),
    ContentPartAdded(usize, Seq<char>, usize, PartView),
    OutputTextDelta(usize, Seq<char>, Seq<char>, nat, usize),
    OutputTextDone(usize, Seq<char>, nat, usize, Seq<char>),
    ReasoningTextDelta(usize, Seq<char>, Seq<char>, usize),
    ReasoningTextDone(usize, Seq<char>, usize, Seq<char>),
    FunctionCallArgumentsDelta(Seq<char>, Seq<char>, usize),
    FunctionCallArgumentsDone(Seq<char>, Seq<char>, usize),
    CustomToolCallInputDelta(Seq<char>, Seq<char>, usize),
    CustomToolCallInputDone(Seq<char>, Seq<char>, usize),
    ContentPartDone(usize, Seq<char>, usize, PartView),
    OutputItemDone(ItemView, usize),
}

/// The value of an event for accumulation: response events all replace the
/// response.
pub open spec fn event_view(e: ResponsesStreamEvent) -> EventView {
    match e {
        ResponsesStreamEvent::Created { response, .. } => EventView::Response(response_view(response)),
        ResponsesStreamEvent::InProgress { response, .. } => EventView::Response(response_view(response)),
        ResponsesStreamEvent::Completed { response, .. } => EventView::Response(response_view(response)),
        ResponsesStreamEvent::Incomplete { response, .. } => EventView::Response(response_view(response)),
        ResponsesStreamEvent::OutputItemAdded { item, output_index, .. } => EventView::OutputItemAdded(item_view(item), output_index),
        ResponsesStreamEvent::ContentPartAdded { content_index, item_id, output_index, part, .. } => EventView::ContentPartAdded(
            content_index,
            item_id@,
            output_index,
            part_view(part),
        ),
        ResponsesStreamEvent::OutputTextDelta { content_index, delta, item_id, logprobs, output_index, .. } => EventView::OutputTextDelta(
            content_index,
            delta@,
            item_id@,
            logprobs@.len(),
            output_index,
        ),
        ResponsesStreamEvent::OutputTextDone { content_index, item_id, logprobs, output_index, text, .. } => EventView::OutputTextDone(
            content_index,
            item_id@,
            logprobs@.len(),
            output_index,
            text@,
        ),
        ResponsesStreamEvent::ReasoningTextDelta { content_index, delta, item_id, output_index, .. } => EventView::ReasoningTextDelta(
            content_index,
            delta@,
            item_id@,
            output_index,
        ),
        ResponsesStreamEvent::ReasoningTextDone { content_index, item_id, output_index, text, .. } => EventView::ReasoningTextDone(
            content_index,
            item_id@,
            output_index,
            text@,
        ),
        ResponsesStreamEvent::FunctionCallArgumentsDelta { delta, item_id, output_index, .. } => EventView::FunctionCallArgumentsDelta(
            delta@,
            item_id@,
            output_index,
        ),
        ResponsesStreamEvent::FunctionCallArgumentsDone { arguments, item_id, output_index, .. } => EventView::FunctionCallArgumentsDone(
            arguments@,
            item_id@,
            output_index,
        ),
        ResponsesStreamEvent::CustomToolCallInputDelta { delta, item_id, output_index, .. } => EventView::CustomToolCallInputDelta(
            delta@,
            item_id@,
            output_index,
        ),
        ResponsesStreamEvent::CustomToolCallInputDone { input, item_id, output_index, .. } => EventView::CustomToolCallInputDone(
            input@,
            item_id@,
            output_index,
        ),
        ResponsesStreamEvent::ContentPartDone { content_index, item_id, output_index, part, .. } => EventView::ContentPartDone(
            content_index,
            item_id@,
            output_index,
            part_view(part),
        ),
        ResponsesStreamEvent::OutputItemDone { item, output_index, .. } => EventView::OutputItemDone(item_view(item), output_index),
    }
}

// ---------------------------------------------------------------------------
// Accumulation

/// The id of an output item.
pub open spec fn item_id_of(item: ItemView) -> Seq<char> {
    match item {
        ItemView::Message { id, .. } => id,
        ItemView::Reasoning { id, .. } => id,
        ItemView::FunctionCall { id, .. } => id,
        ItemView::CustomToolCall { id, .. } => id,
    }
}

/// Whether two items are of the same kind.
pub open spec fn same_kind(a: ItemView, b: ItemView) -> bool {
    (a is Message && b is Message) || (a is Reasoning && b is Reasoning) || (a is FunctionCall && b is FunctionCall) || (
    a is CustomToolCall && b is CustomToolCall)
}

/// Whether every part of a message is output text and every part of a
/// reasoning item reasoning text.
pub open spec fn valid_item_content(item: ItemView) -> bool {
    match item {
        ItemView::Message { content, .. } => forall|i: int| 0 <= i < content.len() ==> (#[trigger] content[i]) is OutputText,
        ItemView::Reasoning { content, .. } => forall|i: int| 0 <= i < content.len() ==> (#[trigger] content[i]) is ReasoningText,
        _ => true,
    }
}

/// The parts of an item, if it has parts of the kind of `part`.
pub open spec fn matching_parts(item: ItemView, part: PartView) -> Option<Seq<PartView>> {
    match (item, part) {
        (ItemView::Message { content, .. }, PartView::OutputText { .. }) => Some(content),
        (ItemView::Reasoning { content, .. }, PartView::ReasoningText { .. }) => Some(content),
        _ => None,
    }
}

/// An item with its parts replaced.
pub open spec fn with_parts(item: ItemView, parts: Seq<PartView>) -> ItemView {
    match item {
        ItemView::Message { id, status, role, phase, .. } => ItemView::Message { id, status, role, phase, content: parts },
        ItemView::Reasoning { id, status, summary, .. } => ItemView::Reasoning { id, status, content: parts, summary },
        _ => item,
    }
}

/// Whether the item at `index` has id `id`.
pub open spec fn matches_item(output: Seq<ItemView>, index: usize, id: Seq<char>) -> bool {
    index < output.len() && item_id_of(output[index as int]) == id
}

/// A response with its output item at `index` replaced.
pub open spec fn with_item(r: ResponseView, index: usize, item: ItemView) -> ResponseView {
    ResponseView { output: r.output.update(index as int, item), ..r }
}

/// A text part of a message or a reasoning item after an update: `f` maps
/// the part at `content_index`, if the item and part have the expected
/// kinds.
pub open spec fn update_text(
    r: ResponseView,
    index: usize,
    id: Seq<char>,
    reasoning: bool,
    content_index: usize,
    f: spec_fn(PartView) -> PartView,
) -> ResponseView {
    if matches_item(r.output, index, id) {
        let item = r.output[index as int];
        let kind_ok = if reasoning { item is Reasoning } else { item is Message };
        let parts = match item {
            ItemView::Message { content, .. } => content,
            ItemView::Reasoning { content, .. } => content,
            _ => Seq::empty(),
        };
        if kind_ok && content_index < parts.len() && (if reasoning {
            parts[content_index as int] is ReasoningText
        } else {
            parts[content_index as int] is OutputText
        }) {
            with_item(r, index, with_parts(item, parts.update(content_index as int, f(parts[content_index as int]))))
        } else {
            r
        }
    } else {
        r
    }
}

/// Output text extended by a delta and its log probabilities.
pub open spec fn append_output_text(delta: Seq<char>, logprobs: nat) -> spec_fn(PartView) -> PartView {
    |p: PartView| match p {
        PartView::OutputText { annotations, logprobs: l, text } => PartView::OutputText {
            annotations,
            logprobs: l + logprobs,
            text: text + delta,
        },
        _ => p,
    }
}

/// Output text replaced by its final text and log probabilities.
pub open spec fn set_output_text(text: Seq<char>, logprobs: nat) -> spec_fn(PartView) -> PartView {
    |p: PartView| match p {
        PartView::OutputText { annotations, .. } => PartView::OutputText { annotations, logprobs, text },
        _ => p,
    }
}

/// Reasoning text extended by a delta.
pub open spec fn append_reasoning_text(delta: Seq<char>) -> spec_fn(PartView) -> PartView {
    |p: PartView| match p {
        PartView::ReasoningText { text } => PartView::ReasoningText { text: text + delta },
        _ => p,
    }
}

/// Reasoning text replaced by its final text.
pub open spec fn set_reasoning_text(text: Seq<char>) -> spec_fn(PartView) -> PartView {
    |p: PartView| match p {
        PartView::ReasoningText { .. } => PartView::ReasoningText { text },
        _ => p,
    }
}

/// A tool call item after an update of its arguments or input: `f` maps
/// the text, if the item has the id and the kind.
pub open spec fn update_call(r: ResponseView, index: usize, id: Seq<char>, custom: bool, f: spec_fn(Seq<char>) -> Seq<char>) -> ResponseView {
    if matches_item(r.output, index, id) {
        match r.output[index as int] {
            ItemView::FunctionCall { id, status, call_id, name, namespace, arguments } => if !custom {
                with_item(r, index, ItemView::FunctionCall { id, status, call_id, name, namespace, arguments: f(arguments) })
            } else {
                r
            },
            ItemView::CustomToolCall { id, status, call_id, name, input } => if custom {
                with_item(r, index, ItemView::CustomToolCall { id, status, call_id, name, input: f(input) })
            } else {
                r
            },
            _ => r,
        }
    } else {
        r
    }
}

/// Text extended by `delta`.
pub open spec fn append_text(delta: Seq<char>) -> spec_fn(Seq<char>) -> Seq<char> {
    |t: Seq<char>| t + delta
}

/// Text replaced by `value`.
pub open spec fn set_text(value: Seq<char>) -> spec_fn(Seq<char>) -> Seq<char> {
    |t: Seq<char>| value
}

/// A response after one event, in generation order.
pub open spec fn apply_event(r: ResponseView, e: EventView) -> ResponseView {
    match e {
        EventView::Response(resp) => resp,
        EventView::OutputItemAdded(item, index) => if index == r.output.len() && valid_item_content(item) {
            ResponseView { output: r.output.push(item), ..r }
        } else {
            r
        },
        EventView::OutputItemDone(item, index) => if index < r.output.len() && item_id_of(r.output[index as int])
            == item_id_of(item) && same_kind(r.output[index as int], item) && valid_item_content(item) {
            with_item(r, index, item)
        } else {
            r
        },
        EventView::ContentPartAdded(content_index, id, index, part) => if matches_item(r.output, index, id) {
            match matching_parts(r.output[index as int], part) {
                Some(parts) => if content_index == parts.len() {
                    with_item(r, index, with_parts(r.output[index as int], parts.push(part)))
                } else {
                    r
                },
                None => r,
            }
        } else {
            r
        },
        EventView::ContentPartDone(content_index, id, index, part) => if matches_item(r.output, index, id) {
            match matching_parts(r.output[index as int], part) {
                Some(parts) => if content_index < parts.len() && (parts[content_index as int] is OutputText
                    == part is OutputText) {
                    with_item(r, index, with_parts(r.output[index as int], parts.update(content_index as int, part)))
                } else {
                    r
                },
                None => r,
            }
        } else {
            r
        },
        EventView::OutputTextDelta(ci, delta, id, logprobs, index) => update_text(
            r,
            index,
            id,
            false,
            ci,
            append_output_text(delta, logprobs),
        ),
        EventView::OutputTextDone(ci, id, logprobs, index, text) => update_text(r, index, id, false, ci, set_output_text(text, logprobs)),
        EventView::ReasoningTextDelta(ci, delta, id, index) => update_text(r, index, id, true, ci, append_reasoning_text(delta)),
        EventView::ReasoningTextDone(ci, id, index, text) => update_text(r, index, id, true, ci, set_reasoning_text(text)),
        EventView::FunctionCallArgumentsDelta(delta, id, index) => update_call(r, index, id, false, append_text(delta)),
        EventView::FunctionCallArgumentsDone(args, id, index) => update_call(r, index, id, false, set_text(args)),
        EventView::CustomToolCallInputDelta(delta, id, index) => update_call(r, index, id, true, append_text(delta)),
        EventView::CustomToolCallInputDone(input, id, index) => update_call(r, index, id, true, set_text(input)),
    }
}

/// Returns the id of an output item.
pub fn item_id(item: &ResponsesOutputItem) -> (r: &String)
    ensures
        r@ == item_id_of(item_view(*item)),
{
    match item {
        ResponsesOutputItem::Message { id, .. } => id,
        ResponsesOutputItem::Reasoning { id, .. } => id,
        ResponsesOutputItem::FunctionCall { id, .. } => id,
        ResponsesOutputItem::CustomToolCall { id, .. } => id,
    }
}

/// Returns whether every part of a message is output text and every part
/// of a reasoning item reasoning text.
fn valid_item_content_exec(item: &ResponsesOutputItem) -> (r: bool)
    ensures
        r == valid_item_content(item_view(*item)),
{
    match item {
        ResponsesOutputItem::Message { content, .. } => {
            let ghost pv = parts_view(content@);
            let mut i: usize = 0;
            while i < content.len()
                invariant
                    i <= content@.len(),
                    pv == parts_view(content@),
                    item_view(*item) is Message && item_view(*item)->Message_content == pv,
                    forall|k: int| 0 <= k < i ==> (#[trigger] pv[k]) is OutputText,
                decreases content@.len() - i,
            {
                let ok = match &content[i] {
                    ResponsesContentPart::OutputText { .. } => true,
                    _ => false,
                };
                if !ok {
                    assert(!(pv[i as int] is OutputText));
                    return false;
                }
                i += 1;
            }
            true
        },
        ResponsesOutputItem::Reasoning { content, .. } => {
            let ghost pv = parts_view(content@);
            let mut i: usize = 0;
            while i < content.len()
                invariant
                    i <= content@.len(),
                    pv == parts_view(content@),
                    item_view(*item) is Reasoning && item_view(*item)->Reasoning_content == pv,
                    forall|k: int| 0 <= k < i ==> (#[trigger] pv[k]) is ReasoningText,
                decreases content@.len() - i,
            {
                let ok = match &content[i] {
                    ResponsesContentPart::ReasoningText { .. } => true,
                    _ => false,
                };
                if !ok {
                    assert(!(pv[i as int] is ReasoningText));
                    return false;
                }
                i += 1;
            }
            true
        },
        _ => true,
    }
}

/// Returns whether two items are of the same kind.
fn same_kind_exec(a: &ResponsesOutputItem, b: &ResponsesOutputItem) -> (r: bool)
    ensures
        r == same_kind(item_view(*a), item_view(*b)),
{
    match (a, b) {
        (ResponsesOutputItem::Message { .. }, ResponsesOutputItem::Message { .. }) => true,
        (ResponsesOutputItem::Reasoning { .. }, ResponsesOutputItem::Reasoning { .. }) => true,
        (ResponsesOutputItem::FunctionCall { .. }, ResponsesOutputItem::FunctionCall { .. }) => true,
        (ResponsesOutputItem::CustomToolCall { .. }, ResponsesOutputItem::CustomToolCall { .. }) => true,
        _ => false,
    }
}

/// The update a text event makes to a part.
pub open spec fn text_op(reasoning: bool, append: bool, text: Seq<char>, logprobs: nat) -> spec_fn(PartView) -> PartView {
    if reasoning {
        if append {
            append_reasoning_text(text)
        } else {
            set_reasoning_text(text)
        }
    } else {
        if append {
            append_output_text(text, logprobs)
        } else {
            set_output_text(text, logprobs)
        }
    }
}

/// Returns a part after a text event.
fn apply_text_op(part: ResponsesContentPart, reasoning: bool, append: bool, text: String, logprobs: Vec<()>) -> (r: ResponsesContentPart)
    ensures
        part_view(r) == (text_op(reasoning, append, text@, logprobs@.len()))(part_view(part)),
{
    match part {
        ResponsesContentPart::OutputText { annotations, logprobs: old_logprobs, text: old_text } => {
            if reasoning {
                return ResponsesContentPart::OutputText { annotations, logprobs: old_logprobs, text: old_text };
            }
            if append {
                let mut l = old_logprobs;
                let mut extra = logprobs;
                l.append(&mut extra);
                ResponsesContentPart::OutputText { annotations, logprobs: l, text: concat(old_text.as_str(), text.as_str()) }
            } else {
                ResponsesContentPart::OutputText { annotations, logprobs, text }
            }
        },
        ResponsesContentPart::ReasoningText { text: old_text } => {
            if !reasoning {
                return ResponsesContentPart::ReasoningText { text: old_text };
            }
            if append {
                ResponsesContentPart::ReasoningText { text: concat(old_text.as_str(), text.as_str()) }
            } else {
                ResponsesContentPart::ReasoningText { text }
            }
        },
    }
}

/// Returns parts after a text event at `ci`, if the part there has the
/// expected kind.
fn apply_to_parts(parts: Vec<ResponsesContentPart>, ci: usize, reasoning: bool, append: bool, text: String, logprobs: Vec<()>) -> (r: Vec<ResponsesContentPart>)
    ensures
        ({
            let pv = parts_view(parts@);
            parts_view(r@) == (if ci < pv.len() && (if reasoning {
                pv[ci as int] is ReasoningText
            } else {
                pv[ci as int] is OutputText
            }) {
                pv.update(ci as int, (text_op(reasoning, append, text@, logprobs@.len()))(pv[ci as int]))
            } else {
                pv
            })
        }),
{
    let ghost pv = parts_view(parts@);
    if ci >= parts.len() {
        return parts;
    }
    let kind_ok = match &parts[ci] {
        ResponsesContentPart::OutputText { .. } => !reasoning,
        ResponsesContentPart::ReasoningText { .. } => reasoning,
    };
    if !kind_ok {
        return parts;
    }
    let mut parts = parts;
    let part = parts.remove(ci);
    let ghost before = part_view(part);
    let updated = apply_text_op(part, reasoning, append, text, logprobs);
    parts.insert(ci, updated);
    assert(parts_view(parts@) =~= pv.update(ci as int, (text_op(reasoning, append, text@, logprobs@.len()))(pv[ci as int])));
    parts
}

impl ResponsesResponse {
    /// Construct a response with caller-supplied identity; token counts
    /// are ignored.
    pub fn new(id: String, model: String, created: u64, prompt_tokens: usize, prompt_cache_hit_tokens: usize) -> (r: ResponsesResponse)
        ensures
            response_view(r) == (ResponseView {
                id: id@,
                object: "response"@,
                created_at: created,
                model: model@,
                status: ResponsesStatus::InProgress,
                completed_at: None,
                error: None,
                incomplete_details: None,
                output: Seq::empty(),
                usage: None,
            }),
    {
        let output: Vec<ResponsesOutputItem> = Vec::new();
        assert(items_view(output@) =~= Seq::<ItemView>::empty());
        ResponsesResponse {
            id,
            object: "response",
            created_at: created,
            model,
            status: ResponsesStatus::InProgress,
            completed_at: None,
            error: None,
            incomplete_details: None,
            output,
            usage: None,
        }
    }

    /// Returns whether the item at `index` has id `id`.
    fn matches_item_exec(&self, index: usize, id: &str) -> (r: bool)
        ensures
            r == matches_item(items_view(self.output@), index, id@),
    {
        index < self.output.len() && crate::text::str_eq(item_id(&self.output[index]).as_str(), id)
    }

    /// Apply a text event to the part `ci` of item `index`.
    fn text_event(&mut self, index: usize, id: &str, reasoning: bool, ci: usize, append: bool, text: String, logprobs: Vec<()>)
        ensures
            response_view(*final(self)) == update_text(
                response_view(*old(self)),
                index,
                id@,
                reasoning,
                ci,
                text_op(reasoning, append, text@, logprobs@.len()),
            ),
    {
        let ghost before = response_view(*self);
        if !self.matches_item_exec(index, id) {
            return;
        }
        let item = self.output.remove(index);
        let ghost iv = item_view(item);
        let updated = match item {
            ResponsesOutputItem::Message { id: iid, status, role, phase, content } => {
                let content = if !reasoning {
                    apply_to_parts(content, ci, reasoning, append, text, logprobs)
                } else {
                    content
                };
                ResponsesOutputItem::Message { id: iid, status, role, phase, content }
            },
            ResponsesOutputItem::Reasoning { id: iid, status, content, summary } => {
                let content = if reasoning {
                    apply_to_parts(content, ci, reasoning, append, text, logprobs)
                } else {
                    content
                };
                ResponsesOutputItem::Reasoning { id: iid, status, content, summary }
            },
            other => other,
        };
        let ghost uv = item_view(updated);
        self.output.insert(index, updated);
        proof {
            assert(items_view(self.output@) =~= before.output.update(index as int, uv));
            let parts = match iv {
                ItemView::Message { content, .. } => content,
                ItemView::Reasoning { content, .. } => content,
                _ => Seq::empty(),
            };
            let kind_ok = if reasoning { iv is Reasoning } else { iv is Message };
            if !(kind_ok && ci < parts.len() && (if reasoning {
                parts[ci as int] is ReasoningText
            } else {
                parts[ci as int] is OutputText
            })) {
                assert(uv == iv);
                assert(before.output.update(index as int, iv) =~= before.output);
            }
        }
    }

    /// Apply an arguments or input event to the tool call at `index`.
    fn call_event(&mut self, index: usize, id: &str, custom: bool, append: bool, text: String)
        ensures
            response_view(*final(self)) == update_call(
                response_view(*old(self)),
                index,
                id@,
                custom,
                if append { append_text(text@) } else { set_text(text@) },
            ),
    {
        let ghost before = response_view(*self);
        if !self.matches_item_exec(index, id) {
            return;
        }
        let item = self.output.remove(index);
        let ghost iv = item_view(item);
        let updated = match item {
            ResponsesOutputItem::FunctionCall { id: iid, status, call_id, name, namespace, arguments } => {
                let arguments = if custom {
                    arguments
                } else if append {
                    concat(arguments.as_str(), text.as_str())
                } else {
                    text
                };
                ResponsesOutputItem::FunctionCall { id: iid, status, call_id, name, namespace, arguments }
            },
            ResponsesOutputItem::CustomToolCall { id: iid, status, call_id, name, input } => {
                let input = if !custom {
                    input
                } else if append {
                    concat(input.as_str(), text.as_str())
                } else {
                    text
                };
                ResponsesOutputItem::CustomToolCall { id: iid, status, call_id, name, input }
            },
            other => other,
        };
        let ghost uv = item_view(updated);
        self.output.insert(index, updated);
        proof {
            assert(items_view(self.output@) =~= before.output.update(index as int, uv));
            if uv == iv {
                assert(before.output.update(index as int, iv) =~= before.output);
            }
        }
    }

    /// Apply a part event to the item at `index`: add a part at the end, or
    /// replace a part of the same kind.
    fn part_event(&mut self, index: usize, id: &str, ci: usize, part: ResponsesContentPart, add: bool)
        ensures
            response_view(*final(self)) == apply_event(
                response_view(*old(self)),
                if add {
                    EventView::ContentPartAdded(ci, id@, index, part_view(part))
                } else {
                    EventView::ContentPartDone(ci, id@, index, part_view(part))
                },
            ),
    {
        let ghost before = response_view(*self);
        let ghost pv = part_view(part);
        if !self.matches_item_exec(index, id) {
            return;
        }
        let item = self.output.remove(index);
        let ghost iv = item_view(item);
        let part_is_output = match &part {
            ResponsesContentPart::OutputText { .. } => true,
            _ => false,
        };
        let updated = match item {
            ResponsesOutputItem::Message { id: iid, status, role, phase, content } => {
                let content = if part_is_output {
                    update_parts(content, ci, part, add)
                } else {
                    content
                };
                ResponsesOutputItem::Message { id: iid, status, role, phase, content }
            },
            ResponsesOutputItem::Reasoning { id: iid, status, content, summary } => {
                let content = if !part_is_output {
                    update_parts(content, ci, part, add)
                } else {
                    content
                };
                ResponsesOutputItem::Reasoning { id: iid, status, content, summary }
            },
            other => other,
        };
        let ghost uv = item_view(updated);
        self.output.insert(index, updated);
        proof {
            assert(items_view(self.output@) =~= before.output.update(index as int, uv));
            if uv == iv {
                assert(before.output.update(index as int, iv) =~= before.output);
            }
        }
    }
}

/// Returns parts with `part` added at the end when `ci` is their count, or
/// replacing the part at `ci` when it has the same kind.
fn update_parts(parts: Vec<ResponsesContentPart>, ci: usize, part: ResponsesContentPart, add: bool) -> (r: Vec<ResponsesContentPart>)
    ensures
        ({
            let pv = parts_view(parts@);
            let p = part_view(part);
            parts_view(r@) == (if add {
                if ci == pv.len() {
                    pv.push(p)
                } else {
                    pv
                }
            } else {
                if ci < pv.len() && (pv[ci as int] is OutputText == p is OutputText) {
                    pv.update(ci as int, p)
                } else {
                    pv
                }
            })
        }),
{
    let ghost pv = parts_view(parts@);
    let ghost p = part_view(part);
    let mut parts = parts;
    if add {
        if ci == parts.len() {
            parts.push(part);
            assert(parts_view(parts@) =~= pv.push(p));
        }
        return parts;
    }
    if ci >= parts.len() {
        return parts;
    }
    let same = match (&parts[ci], &part) {
        (ResponsesContentPart::OutputText { .. }, ResponsesContentPart::OutputText { .. }) => true,
        (ResponsesContentPart::ReasoningText { .. }, ResponsesContentPart::ReasoningText { .. }) => true,
        _ => false,
    };
    if !same {
        return parts;
    }
    parts.set(ci, part);
    assert(parts_view(parts@) =~= pv.update(ci as int, p));
    parts
}

impl AppendDelta<ResponsesStreamEvent> for ResponsesResponse {
    /// Apply events in generation order.
    fn append(&mut self, event: ResponsesStreamEvent)
        ensures
            response_view(*final(self)) == apply_event(response_view(*old(self)), event_view(event)),
    {
        let ghost before = response_view(*self);
        match event {
            ResponsesStreamEvent::Created { response, .. }
            | ResponsesStreamEvent::InProgress { response, .. }
            | ResponsesStreamEvent::Completed { response, .. }
            | ResponsesStreamEvent::Incomplete { response, .. } => {
                *self = response;
            },
            ResponsesStreamEvent::OutputItemAdded { item, output_index, .. } => {
                if output_index == self.output.len() && valid_item_content_exec(&item) {
                    let ghost iv = item_view(item);
                    self.output.push(item);
                    assert(items_view(self.output@) =~= before.output.push(iv));
                }
            },
            ResponsesStreamEvent::OutputItemDone { item, output_index, .. } => {
                if output_index < self.output.len() {
                    let same_id = crate::text::str_eq(item_id(&self.output[output_index]).as_str(), item_id(&item).as_str());
                    if same_id && same_kind_exec(&self.output[output_index], &item) && valid_item_content_exec(&item) {
                        let ghost iv = item_view(item);
                        self.output.set(output_index, item);
                        assert(items_view(self.output@) =~= before.output.update(output_index as int, iv));
                    }
                }
            },
            ResponsesStreamEvent::ContentPartAdded { content_index, item_id, output_index, part, .. } => {
                self.part_event(output_index, item_id.as_str(), content_index, part, true);
            },
            ResponsesStreamEvent::ContentPartDone { content_index, item_id, output_index, part, .. } => {
                self.part_event(output_index, item_id.as_str(), content_index, part, false);
            },
            ResponsesStreamEvent::OutputTextDelta { content_index, delta, item_id, logprobs, output_index, .. } => {
                self.text_event(output_index, item_id.as_str(), false, content_index, true, delta, logprobs);
            },
            ResponsesStreamEvent::OutputTextDone { content_index, item_id, logprobs, output_index, text, .. } => {
                self.text_event(output_index, item_id.as_str(), false, content_index, false, text, logprobs);
            },
            ResponsesStreamEvent::ReasoningTextDelta { content_index, delta, item_id, output_index, .. } => {
                self.text_event(output_index, item_id.as_str(), true, content_index, true, delta, Vec::new());
            },
            ResponsesStreamEvent::ReasoningTextDone { content_index, item_id, output_index, text, .. } => {
                self.text_event(output_index, item_id.as_str(), true, content_index, false, text, Vec::new());
            },
            ResponsesStreamEvent::FunctionCallArgumentsDelta { delta, item_id, output_index, .. } => {
                self.call_event(output_index, item_id.as_str(), false, true, delta);
            },
            ResponsesStreamEvent::FunctionCallArgumentsDone { arguments, item_id, output_index, .. } => {
                self.call_event(output_index, item_id.as_str(), false, false, arguments);
            },
            ResponsesStreamEvent::CustomToolCallInputDelta { delta, item_id, output_index, .. } => {
                self.call_event(output_index, item_id.as_str(), true, true, delta);
            },
            ResponsesStreamEvent::CustomToolCallInputDone { input, item_id, output_index, .. } => {
                self.call_event(output_index, item_id.as_str(), true, false, input);
            },
        }
    }
}


impl crate::response::ProtocolResponse for ResponsesResponse {
    type ChunkGenerator = crate::responses_generator::ResponsesChunkGenerator;

    fn new(id: String, model: String, created: u64, prompt_tokens: usize, prompt_cache_hit_tokens: usize) -> (r: ResponsesResponse)
        ensures
            response_view(r) == (ResponseView {
                id: id@,
                object: "response"@,
                created_at: created,
                model: model@,
                status: ResponsesStatus::InProgress,
                completed_at: None,
                error: None,
                incomplete_details: None,
                output: Seq::empty(),
                usage: None,
            }),
    {
        ResponsesResponse::new(id, model, created, prompt_tokens, prompt_cache_hit_tokens)
    }

    fn chunk_event_type(chunk: &ResponsesStreamEvent) -> (r: Option<&'static str>)
        ensures
            r matches Some(n) && n@ == event_name(*chunk),
    {
        Some(chunk.event_type())
    }
}

} // verus!
