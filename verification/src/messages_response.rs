//! Anthropic Messages responses: stream events made of parsed output, and a
//! complete response that accumulates them.

use vstd::prelude::*;

use crate::conversation::opt_view;
use crate::json::{JsonValue, JsonView, json_view, parse_json, parsed_json};
use crate::request::{AppendDelta, ConversationRequest};
use crate::stream::{ChunkGenerator, CompletionUsage, FinishReason, OutputChunk, PromptUsage};
use crate::text::{append_chars, append_str, concat, decimal, decimal_chars, string_of};

verus! {

/// The type of a response object.
#[derive(Debug, Clone, Copy, PartialEq, Eq, Structural)]
pub enum MessagesResponseType {
    Message,
}

/// The role of a response.
#[derive(Debug, Clone, Copy, PartialEq, Eq, Structural)]
pub enum MessagesRole {
    Assistant,
}

/// Why a response stopped.
#[derive(Debug, Clone, Copy, PartialEq, Eq, Structural)]
pub enum MessagesStopReason {
    EndTurn,
    MaxTokens,
    StopSequence,
    ToolUse,
    Refusal,
}

/// The stop reason reported for a stream's finish reason.
pub open spec fn stop_reason_of(reason: FinishReason) -> MessagesStopReason {
    match reason {
        FinishReason::Stop | FinishReason::EndOfStream => MessagesStopReason::EndTurn,
        FinishReason::Length => MessagesStopReason::MaxTokens,
        FinishReason::StopSequence => MessagesStopReason::StopSequence,
        FinishReason::ToolCalls => MessagesStopReason::ToolUse,
        FinishReason::ContentFilter => MessagesStopReason::Refusal,
    }
}

impl From<FinishReason> for MessagesStopReason {
    fn from(reason: FinishReason) -> (r: MessagesStopReason) {
        match reason {
            FinishReason::Stop | FinishReason::EndOfStream => MessagesStopReason::EndTurn,
            FinishReason::Length => MessagesStopReason::MaxTokens,
            FinishReason::StopSequence => MessagesStopReason::StopSequence,
            FinishReason::ToolCalls => MessagesStopReason::ToolUse,
            FinishReason::ContentFilter => MessagesStopReason::Refusal,
        }
    }
}

impl vstd::std_specs::convert::FromSpecImpl<FinishReason> for MessagesStopReason {
    open spec fn obeys_from_spec() -> bool {
        true
    }

    open spec fn from_spec(v: FinishReason) -> MessagesStopReason {
        stop_reason_of(v)
    }
}

/// The service tier of a response.
#[derive(Debug, Clone, Copy, PartialEq, Eq, Structural)]
pub enum MessagesServiceTier {
    Standard,
}

/// Protocol representation of caller-supplied accounting.
#[derive(Debug, Clone, Copy, PartialEq, Eq, Structural)]
pub struct MessagesUsage {
    pub input_tokens: usize,
    pub cache_creation_input_tokens: usize,
    pub cache_read_input_tokens: usize,
    pub output_tokens: usize,
    pub service_tier: MessagesServiceTier,
}

/// The usage reported for prompt and completion counts: uncached input,
/// cached input and output tokens.
pub open spec fn usage_of(prompt: PromptUsage, completion: CompletionUsage) -> MessagesUsage {
    MessagesUsage {
        input_tokens: if prompt.prompt_tokens >= prompt.prompt_cache_hit_tokens {
            (prompt.prompt_tokens - prompt.prompt_cache_hit_tokens) as usize
        } else {
            0
        },
        cache_creation_input_tokens: 0,
        cache_read_input_tokens: prompt.prompt_cache_hit_tokens,
        output_tokens: completion.completion_tokens,
        service_tier: MessagesServiceTier::Standard,
    }
}

impl From<(PromptUsage, CompletionUsage)> for MessagesUsage {
    fn from(value: (PromptUsage, CompletionUsage)) -> (r: MessagesUsage) {
        let (prompt, completion) = value;
        MessagesUsage {
            input_tokens: prompt.prompt_tokens.saturating_sub(prompt.prompt_cache_hit_tokens),
            cache_creation_input_tokens: 0,
            cache_read_input_tokens: prompt.prompt_cache_hit_tokens,
            output_tokens: completion.completion_tokens,
            service_tier: MessagesServiceTier::Standard,
        }
    }
}

impl vstd::std_specs::convert::FromSpecImpl<(PromptUsage, CompletionUsage)> for MessagesUsage {
    open spec fn obeys_from_spec() -> bool {
        true
    }

    open spec fn from_spec(v: (PromptUsage, CompletionUsage)) -> MessagesUsage {
        usage_of(v.0, v.1)
    }
}

/// A complete content block, distinct from the delta applied to it.
#[derive(Debug)]
pub enum MessagesResponseContent {
    Text { text: String },
    Thinking { thinking: String, signature: String },
    ToolUse { id: String, name: String, input: JsonValue },
}

/// An update to a content block.
#[derive(Debug)]
pub enum MessagesDelta {
    TextDelta { text: String },
    ThinkingDelta { thinking: String },
    SignatureDelta { signature: String },
    InputJsonDelta { partial_json: String },
}

/// The stop reason and matched stop sequence of a response.
#[derive(Debug)]
pub struct MessagesStopInfo {
    pub stop_reason: Option<MessagesStopReason>,
    pub stop_sequence: Option<String>,
}

/// A complete Messages response, also usable as an accumulator for
/// generated events.
///
/// Tool argument fragments are parsed when their content block stops.
/// Invalid or truncated JSON produces `{}`. Events with invalid indices or
/// incompatible delta types leave the response unchanged.
#[derive(Debug)]
pub struct MessagesResponse {
    pub id: String,
    /// The object type (`type` on the wire).
    pub response_type: MessagesResponseType,
    pub role: MessagesRole,
    pub model: String,
    pub content: Vec<MessagesResponseContent>,
    pub stop_reason: Option<MessagesStopReason>,
    pub stop_sequence: Option<String>,
    pub usage: MessagesUsage,
    /// Argument fragments of tool use blocks, by content index, awaiting
    /// the stop of their block. Not part of the wire format.
    pub partial_tool_inputs: Vec<(usize, String)>,
}

/// A Messages stream event. The caller supplies SSE framing and transport.
#[derive(Debug)]
pub enum MessagesStreamEvent {
    MessageStart { message: MessagesResponse },
    ContentBlockStart { index: usize, content_block: MessagesResponseContent },
    ContentBlockDelta { index: usize, delta: MessagesDelta },
    ContentBlockStop { index: usize },
    MessageDelta { delta: MessagesStopInfo, usage: MessagesUsage },
    MessageStop,
    Ping,
}

impl MessagesStreamEvent {
    /// Event name used by the SSE transport.
    pub fn event_type(&self) -> (r: &'static str)
        ensures
            r@ == event_name(*self),
    {
        match self {
            MessagesStreamEvent::MessageStart { .. } => "message_start",
            MessagesStreamEvent::ContentBlockStart { .. } => "content_block_start",
            MessagesStreamEvent::ContentBlockDelta { .. } => "content_block_delta",
            MessagesStreamEvent::ContentBlockStop { .. } => "content_block_stop",
            MessagesStreamEvent::MessageDelta { .. } => "message_delta",
            MessagesStreamEvent::MessageStop => "message_stop",
            MessagesStreamEvent::Ping => "ping",
        }
    }
}

/// The SSE event name of an event.
pub open spec fn event_name(e: MessagesStreamEvent) -> Seq<char> {
    match e {
        MessagesStreamEvent::MessageStart { .. } => "message_start"@,
        MessagesStreamEvent::ContentBlockStart { .. } => "content_block_start"@,
        MessagesStreamEvent::ContentBlockDelta { .. } => "content_block_delta"@,
        MessagesStreamEvent::ContentBlockStop { .. } => "content_block_stop"@,
        MessagesStreamEvent::MessageDelta { .. } => "message_delta"@,
        MessagesStreamEvent::MessageStop => "message_stop"@,
        MessagesStreamEvent::Ping => "ping"@,
    }
}

// ---------------------------------------------------------------------------
// Values

/// The value of a content block.
pub enum ContentView {
    Text(Seq<char>),
    Thinking(Seq<char>, Seq<char>),
    ToolUse(Seq<char>, Seq<char>, JsonView),
}

/// The value of a content block.
pub open spec fn content_view(c: MessagesResponseContent) -> ContentView {
    match c {
        MessagesResponseContent::Text { text } => ContentView::Text(text@),
        MessagesResponseContent::Thinking { thinking, signature } => ContentView::Thinking(thinking@, signature@),
        MessagesResponseContent::ToolUse { id, name, input } => ContentView::ToolUse(id@, name@, json_view(input)),
    }
}

/// The values of a list of content blocks.
pub open spec fn contents_view(cs: Seq<MessagesResponseContent>) -> Seq<ContentView> {
    Seq::new(cs.len(), |i: int| content_view(cs[i]))
}

/// The value of a content block update.
pub enum DeltaView {
    Text(Seq<char>),
    Thinking(Seq<char>),
    Signature(Seq<char>),
    InputJson(Seq<char>),
}

/// The value of a content block update.
pub open spec fn delta_view(d: MessagesDelta) -> DeltaView {
    match d {
        MessagesDelta::TextDelta { text } => DeltaView::Text(text@),
        MessagesDelta::ThinkingDelta { thinking } => DeltaView::Thinking(thinking@),
        MessagesDelta::SignatureDelta { signature } => DeltaView::Signature(signature@),
        MessagesDelta::InputJsonDelta { partial_json } => DeltaView::InputJson(partial_json@),
    }
}

/// The value of a response.
pub struct ResponseView {
    pub id: Seq<char>,
    pub model: Seq<char>,
    pub content: Seq<ContentView>,
    pub stop_reason: Option<MessagesStopReason>,
    pub stop_sequence: Option<Seq<char>>,
    pub usage: MessagesUsage,
    pub partial: Seq<(usize, Seq<char>)>,
}

/// The values of argument fragments by content index.
pub open spec fn partial_view(p: Seq<(usize, String)>) -> Seq<(usize, Seq<char>)> {
    Seq::new(p.len(), |i: int| (p[i].0, p[i].1@))
}

impl MessagesResponse {
    /// The argument fragments of tool use blocks, by content index.
    pub open spec fn partial(&self) -> Seq<(usize, Seq<char>)> {
        partial_view(self.partial_tool_inputs@)
    }
}

/// The value of a response.
pub open spec fn response_view(r: MessagesResponse) -> ResponseView {
    ResponseView {
        id: r.id@,
        model: r.model@,
        content: contents_view(r.content@),
        stop_reason: r.stop_reason,
        stop_sequence: opt_view(r.stop_sequence),
        usage: r.usage,
        partial: r.partial(),
    }
}

/// The value of an event.
pub enum EventView {
    MessageStart(ResponseView),
    ContentBlockStart(usize, ContentView),
    ContentBlockDelta(usize, DeltaView),
    ContentBlockStop(usize),
    MessageDelta(Option<MessagesStopReason>, Option<Seq<char>>, MessagesUsage),
    MessageStop,
    Ping,
}

/// The value of an event.
pub open spec fn event_view(e: MessagesStreamEvent) -> EventView {
    match e {
        MessagesStreamEvent::MessageStart { message } => EventView::MessageStart(response_view(message)),
        MessagesStreamEvent::ContentBlockStart { index, content_block } => EventView::ContentBlockStart(
            index,
            content_view(content_block),
        ),
        MessagesStreamEvent::ContentBlockDelta { index, delta } => EventView::ContentBlockDelta(index, delta_view(delta)),
        MessagesStreamEvent::ContentBlockStop { index } => EventView::ContentBlockStop(index),
        MessagesStreamEvent::MessageDelta { delta, usage } => EventView::MessageDelta(
            delta.stop_reason,
            opt_view(delta.stop_sequence),
            usage,
        ),
        MessagesStreamEvent::MessageStop => EventView::MessageStop,
        MessagesStreamEvent::Ping => EventView::Ping,
    }
}

/// The values of a list of events.
pub open spec fn events_view(es: Seq<MessagesStreamEvent>) -> Seq<EventView> {
    Seq::new(es.len(), |i: int| event_view(es[i]))
}

// ---------------------------------------------------------------------------
// Accumulation

/// The position of the first fragment of content block `index`.
pub open spec fn find_partial(p: Seq<(usize, Seq<char>)>, index: usize) -> Option<int>
    decreases p.len(),
{
    if p.len() == 0 {
        None
    } else {
        match find_partial(p.drop_last(), index) {
            Some(k) => Some(k),
            None => if p.last().0 == index {
                Some(p.len() - 1)
            } else {
                None
            },
        }
    }
}

/// A found fragment lies within the list and belongs to the block looked
/// for.
pub proof fn lemma_find_partial_bounds(p: Seq<(usize, Seq<char>)>, index: usize)
    ensures
        find_partial(p, index) matches Some(k) ==> 0 <= k < p.len() && p[k].0 == index,
    decreases p.len(),
{
    if p.len() > 0 {
        lemma_find_partial_bounds(p.drop_last(), index);
    }
}

/// The tool input that complete argument text gives: the parsed JSON, or
/// the empty object for text that does not parse.
pub open spec fn input_of(json: Seq<char>) -> JsonView {
    match parsed_json(json) {
        Some(v) => v,
        None => JsonView::Object(Seq::empty()),
    }
}

/// A content block after an update of a compatible kind; other updates
/// leave it.
pub open spec fn apply_delta(c: ContentView, d: DeltaView) -> ContentView {
    match (c, d) {
        (ContentView::Text(t), DeltaView::Text(v)) => ContentView::Text(t + v),
        (ContentView::Thinking(t, s), DeltaView::Thinking(v)) => ContentView::Thinking(t + v, s),
        (ContentView::Thinking(t, s), DeltaView::Signature(v)) => ContentView::Thinking(t, s + v),
        _ => c,
    }
}

/// A response after one event.
pub open spec fn apply_event(r: ResponseView, e: EventView) -> ResponseView {
    match e {
        EventView::MessageStart(m) => m,
        EventView::ContentBlockStart(index, block) => if index == r.content.len() {
            ResponseView { content: r.content.push(block), ..r }
        } else {
            r
        },
        EventView::ContentBlockDelta(index, d) => if index < r.content.len() {
            match (r.content[index as int], d) {
                (ContentView::ToolUse(..), DeltaView::InputJson(j)) => ResponseView {
                    partial: match find_partial(r.partial, index) {
                        Some(k) => r.partial.update(k, (index, r.partial[k].1 + j)),
                        None => r.partial.push((index, j)),
                    },
                    ..r
                },
                _ => ResponseView { content: r.content.update(index as int, apply_delta(r.content[index as int], d)), ..r },
            }
        } else {
            r
        },
        EventView::ContentBlockStop(index) => match find_partial(r.partial, index) {
            None => r,
            Some(k) => ResponseView {
                partial: r.partial.remove(k),
                content: if index < r.content.len() && r.content[index as int] is ToolUse {
                    match r.content[index as int] {
                        ContentView::ToolUse(id, name, _) => r.content.update(
                            index as int,
                            ContentView::ToolUse(id, name, input_of(r.partial[k].1)),
                        ),
                        _ => r.content,
                    }
                } else {
                    r.content
                },
                ..r
            },
        },
        EventView::MessageDelta(reason, sequence, usage) => ResponseView {
            stop_reason: reason,
            stop_sequence: sequence,
            usage,
            ..r
        },
        EventView::MessageStop | EventView::Ping => r,
    }
}

impl MessagesResponse {
    /// Construct a response with caller-supplied identity and input token
    /// usage.
    pub fn new(id: String, model: String, created: u64, prompt_tokens: usize, prompt_cache_hit_tokens: usize) -> (r: MessagesResponse)
        ensures
            response_view(r) == (ResponseView {
                id: id@,
                model: model@,
                content: Seq::empty(),
                stop_reason: None,
                stop_sequence: None,
                usage: usage_of(
                    PromptUsage { prompt_tokens, prompt_cache_hit_tokens },
                    CompletionUsage { completion_tokens: 0 },
                ),
                partial: Seq::empty(),
            }),
            r.response_type == MessagesResponseType::Message,
            r.role == MessagesRole::Assistant,
    {
        let content: Vec<MessagesResponseContent> = Vec::new();
        let partial: Vec<(usize, String)> = Vec::new();
        assert(contents_view(content@) =~= Seq::<ContentView>::empty());
        assert(partial_view(partial@) =~= Seq::<(usize, Seq<char>)>::empty());
        MessagesResponse {
            id,
            response_type: MessagesResponseType::Message,
            role: MessagesRole::Assistant,
            model,
            content,
            stop_reason: None,
            stop_sequence: None,
            usage: MessagesUsage::from(
                (PromptUsage { prompt_tokens, prompt_cache_hit_tokens }, CompletionUsage { completion_tokens: 0 }),
            ),
            partial_tool_inputs: partial,
        }
    }

    /// Returns the position of the first fragment of content block `index`.
    fn find_partial_exec(&self, index: usize) -> (r: Option<usize>)
        ensures
            match r {
                Some(k) => find_partial(self.partial(), index) == Some(k as int) && k < self.partial().len(),
                None => find_partial(self.partial(), index) is None,
            },
    {
        let ghost pv = self.partial();
        let mut i: usize = 0;
        while i < self.partial_tool_inputs.len()
            invariant
                i <= pv.len(),
                pv == partial_view(self.partial_tool_inputs@),
                find_partial(pv.take(i as int), index) is None,
            decreases pv.len() - i,
        {
            proof {
                assert(pv.take(i + 1).drop_last() =~= pv.take(i as int));
            }
            if self.partial_tool_inputs[i].0 == index {
                proof {
                    lemma_find_partial_prefix(pv, i + 1, index);
                }
                return Some(i);
            }
            i += 1;
        }
        assert(pv.take(pv.len() as int) =~= pv);
        None
    }
}

/// Once found among the first `n` fragments, a fragment stays found.
proof fn lemma_find_partial_prefix(p: Seq<(usize, Seq<char>)>, n: int, index: usize)
    requires
        0 <= n <= p.len(),
        find_partial(p.take(n), index) is Some,
    ensures
        find_partial(p, index) == find_partial(p.take(n), index),
    decreases p.len() - n,
{
    if n < p.len() {
        assert(p.take(n + 1).drop_last() =~= p.take(n));
        lemma_find_partial_prefix(p, n + 1, index);
    } else {
        assert(p.take(n) =~= p);
    }
}

impl AppendDelta<MessagesStreamEvent> for MessagesResponse {
    fn append(&mut self, event: MessagesStreamEvent)
        ensures
            response_view(*final(self)) == apply_event(response_view(*old(self)), event_view(event)),
    {
        let ghost before = response_view(*self);
        let ghost ev = event_view(event);
        match event {
            MessagesStreamEvent::MessageStart { message } => {
                *self = message;
            },
            MessagesStreamEvent::ContentBlockStart { index, content_block } => {
                if index == self.content.len() {
                    let ghost cv = content_view(content_block);
                    self.content.push(content_block);
                    assert(contents_view(self.content@) =~= before.content.push(cv));
                }
                assert(response_view(*self) == apply_event(before, ev));
            },
            MessagesStreamEvent::ContentBlockDelta { index, delta } => {
                if index < self.content.len() {
                    let ghost dv = delta_view(delta);
                    let is_tool = match &self.content[index] {
                        MessagesResponseContent::ToolUse { .. } => true,
                        _ => false,
                    };
                    assert(is_tool == (before.content[index as int] is ToolUse));
                    match delta {
                        MessagesDelta::InputJsonDelta { partial_json } => {
                            if is_tool {
                                proof {
                                    lemma_find_partial_bounds(before.partial, index);
                                }
                                match self.find_partial_exec(index) {
                                    Some(k) => {
                                        let (key, old_json) = self.partial_tool_inputs.remove(k);
                                        let joined = concat(old_json.as_str(), partial_json.as_str());
                                        self.partial_tool_inputs.insert(k, (key, joined));
                                        assert(self.partial() =~= before.partial.update(
                                            k as int,
                                            (index, before.partial[k as int].1 + partial_json@),
                                        ));
                                    },
                                    None => {
                                        self.partial_tool_inputs.push((index, partial_json));
                                        assert(self.partial() =~= before.partial.push((index, dv->InputJson_0)));
                                    },
                                }
                            } else {
                                assert(before.content.update(index as int, before.content[index as int]) =~= before.content);
                            }
                        },
                        other => {
                            let ghost ov = delta_view(other);
                            let block = self.content.remove(index);
                            let updated = match (block, other) {
                                (MessagesResponseContent::Text { text }, MessagesDelta::TextDelta { text: value }) => {
                                    MessagesResponseContent::Text { text: concat(text.as_str(), value.as_str()) }
                                },
                                (
                                    MessagesResponseContent::Thinking { thinking, signature },
                                    MessagesDelta::ThinkingDelta { thinking: value },
                                ) => MessagesResponseContent::Thinking {
                                    thinking: concat(thinking.as_str(), value.as_str()),
                                    signature,
                                },
                                (
                                    MessagesResponseContent::Thinking { thinking, signature },
                                    MessagesDelta::SignatureDelta { signature: value },
                                ) => MessagesResponseContent::Thinking {
                                    thinking,
                                    signature: concat(signature.as_str(), value.as_str()),
                                },
                                (b, _) => b,
                            };
                            assert(content_view(updated) == apply_delta(before.content[index as int], ov));
                            self.content.insert(index, updated);
                            assert(contents_view(self.content@) =~= before.content.update(
                                index as int,
                                apply_delta(before.content[index as int], ov),
                            ));
                        },
                    }
                }
                assert(response_view(*self) == apply_event(before, ev));
            },
            MessagesStreamEvent::ContentBlockStop { index } => {
                proof {
                    lemma_find_partial_bounds(before.partial, index);
                }
                if let Some(k) = self.find_partial_exec(index) {
                    let (_, json) = self.partial_tool_inputs.remove(k);
                    assert(self.partial() =~= before.partial.remove(k as int));
                    if index < self.content.len() {
                        let is_tool = match &self.content[index] {
                            MessagesResponseContent::ToolUse { .. } => true,
                            _ => false,
                        };
                        if is_tool {
                            let block = self.content.remove(index);
                            let updated = match block {
                                MessagesResponseContent::ToolUse { id, name, .. } => {
                                    let input = match parse_json(json.as_str()) {
                                        Some(v) => v,
                                        None => empty_object(),
                                    };
                                    MessagesResponseContent::ToolUse { id, name, input }
                                },
                                b => b,
                            };
                            self.content.insert(index, updated);
                            assert(contents_view(self.content@) =~= before.content.update(
                                index as int,
                                match before.content[index as int] {
                                    ContentView::ToolUse(id, name, _) => ContentView::ToolUse(id, name, input_of(json@)),
                                    _ => before.content[index as int],
                                },
                            ));
                        }
                    }
                }
                assert(response_view(*self) == apply_event(before, ev));
            },
            MessagesStreamEvent::MessageDelta { delta, usage } => {
                self.stop_reason = delta.stop_reason;
                self.stop_sequence = delta.stop_sequence;
                self.usage = usage;
            },
            MessagesStreamEvent::MessageStop | MessagesStreamEvent::Ping => {},
        }
    }
}

/// Returns the empty JSON object.
pub fn empty_object() -> (r: JsonValue)
    ensures
        json_view(r) == JsonView::Object(Seq::empty()),
{
    let members: Vec<(String, JsonValue)> = Vec::new();
    assert(crate::json::member_views(members@) =~= Seq::<(Seq<char>, JsonView)>::empty());
    JsonValue::Object(members)
}

// ---------------------------------------------------------------------------
// Generation

/// The kind of the open content block.
#[derive(Debug, Clone, Copy, PartialEq, Eq, Structural)]
pub enum MessagesContentBlockKind {
    Text,
    Thinking,
    ToolUse,
}

/// The value of a generator's state.
pub struct GeneratorState {
    pub id: Seq<char>,
    pub model: Seq<char>,
    pub thinking_mode: bool,
    pub signature: Seq<char>,
    pub content_index: usize,
    pub tool_call_index: usize,
    pub active: Option<MessagesContentBlockKind>,
    pub prompt_usage: PromptUsage,
    pub started: bool,
    pub finished: bool,
}

/// Closing the open block, if any: a thinking block first gets its
/// signature. The content index moves past the closed block.
pub open spec fn close_spec(st: GeneratorState) -> (GeneratorState, Seq<EventView>) {
    match st.active {
        None => (st, Seq::empty()),
        Some(kind) => {
            let sig: Seq<EventView> = if kind == MessagesContentBlockKind::Thinking {
                seq![EventView::ContentBlockDelta(st.content_index, DeltaView::Signature(st.signature))]
            } else {
                Seq::empty()
            };
            (
                GeneratorState { active: None, content_index: st.content_index.wrapping_add(1), ..st },
                sig.push(EventView::ContentBlockStop(st.content_index)),
            )
        },
    }
}

/// Opening a block of kind `kind` after closing the open one; the first
/// block of a response is followed by a ping.
pub open spec fn open_spec(st: GeneratorState, kind: MessagesContentBlockKind, block: ContentView) -> (GeneratorState, Seq<EventView>) {
    let (s1, e1) = close_spec(st);
    let e2 = e1.push(EventView::ContentBlockStart(s1.content_index, block));
    let e3 = if s1.content_index == 0 {
        e2.push(EventView::Ping)
    } else {
        e2
    };
    (GeneratorState { active: Some(kind), ..s1 }, e3)
}

/// The id of tool use `index` of response `id`.
pub open spec fn tool_use_id_of(id: Seq<char>, index: usize) -> Seq<char> {
    "toolu_"@ + id + "_"@ + decimal(index as nat)
}

/// The input of a tool use with argument text `arguments`: the empty object
/// for no text, else the parsed text or the empty object.
pub open spec fn tool_input_of(arguments: Seq<char>) -> JsonView {
    if arguments.len() == 0 {
        JsonView::Object(Seq::empty())
    } else {
        input_of(arguments)
    }
}

/// The generator state after one parsed output chunk, and the events it
/// emits. Nothing follows the finish of a response, and a second start is
/// ignored.
pub open spec fn generate_spec(st: GeneratorState, chunk: OutputChunk) -> (GeneratorState, Seq<EventView>) {
    if st.finished {
        (st, Seq::empty())
    } else {
        match chunk {
            OutputChunk::Start { usage, .. } => if st.started {
                (st, Seq::empty())
            } else {
                let s1 = GeneratorState { started: true, prompt_usage: usage, ..st };
                let start = seq![
                    EventView::MessageStart(
                        ResponseView {
                            id: st.id,
                            model: st.model,
                            content: Seq::empty(),
                            stop_reason: None,
                            stop_sequence: None,
                            usage: usage_of(usage, CompletionUsage { completion_tokens: 0 }),
                            partial: Seq::empty(),
                        },
                    ),
                ];
                if st.thinking_mode {
                    let (s2, e2) = open_spec(
                        s1,
                        MessagesContentBlockKind::Thinking,
                        ContentView::Thinking(Seq::empty(), Seq::empty()),
                    );
                    (s2, start + e2)
                } else {
                    (s1, start)
                }
            },
            OutputChunk::Raw { content } => {
                let (s1, e1) = if st.active != Some(MessagesContentBlockKind::Text) {
                    open_spec(st, MessagesContentBlockKind::Text, ContentView::Text(Seq::empty()))
                } else {
                    (st, Seq::empty())
                };
                (s1, e1.push(EventView::ContentBlockDelta(s1.content_index, DeltaView::Text(content@))))
            },
            OutputChunk::Reasoning { content } => {
                let (s1, e1) = if st.active != Some(MessagesContentBlockKind::Thinking) {
                    open_spec(st, MessagesContentBlockKind::Thinking, ContentView::Thinking(Seq::empty(), Seq::empty()))
                } else {
                    (st, Seq::empty())
                };
                (s1, e1.push(EventView::ContentBlockDelta(s1.content_index, DeltaView::Thinking(content@))))
            },
            OutputChunk::ToolCall { tool_name, arguments } => {
                let id = tool_use_id_of(st.id, st.tool_call_index);
                let s0 = GeneratorState { tool_call_index: st.tool_call_index.wrapping_add(1), ..st };
                open_spec(
                    s0,
                    MessagesContentBlockKind::ToolUse,
                    ContentView::ToolUse(id, tool_name@, tool_input_of(arguments@)),
                )
            },
            OutputChunk::ToolArgumentsDelta { content } => if st.active == Some(MessagesContentBlockKind::ToolUse) {
                (st, seq![EventView::ContentBlockDelta(st.content_index, DeltaView::InputJson(content@))])
            } else {
                (st, Seq::empty())
            },
            OutputChunk::Finish { reason, stop_sequence, usage } => {
                let (s1, e1) = close_spec(st);
                (
                    GeneratorState { finished: true, ..s1 },
                    e1 + seq![
                        EventView::MessageDelta(
                            Some(stop_reason_of(reason)),
                            opt_view(stop_sequence),
                            usage_of(s1.prompt_usage, usage),
                        ),
                        EventView::MessageStop,
                    ],
                )
            },
            OutputChunk::ToolCallBegin => (st, Seq::empty()),
        }
    }
}

/// Converts parsed inference output to Messages events.
#[derive(Debug)]
pub struct MessagesChunkGenerator {
    id: String,
    model: String,
    thinking_mode: bool,
    signature: String,
    content_index: usize,
    tool_call_index: usize,
    active: Option<MessagesContentBlockKind>,
    prompt_usage: PromptUsage,
    started: bool,
    finished: bool,
}

impl MessagesChunkGenerator {
    /// The value of the generator's state.
    pub closed spec fn state(&self) -> GeneratorState {
        GeneratorState {
            id: self.id@,
            model: self.model@,
            thinking_mode: self.thinking_mode,
            signature: self.signature@,
            content_index: self.content_index,
            tool_call_index: self.tool_call_index,
            active: self.active,
            prompt_usage: self.prompt_usage,
            started: self.started,
            finished: self.finished,
        }
    }

    /// The caller supplies a unique response ID and the public response
    /// model name. Tool IDs are derived from that response ID and the
    /// per-response tool index. The default opaque thinking signature is the
    /// response ID.
    pub fn new(id: String, model: String, thinking_mode: bool) -> (r: MessagesChunkGenerator)
        ensures
            r.state() == (GeneratorState {
                id: id@,
                model: model@,
                thinking_mode,
                signature: id@,
                content_index: 0,
                tool_call_index: 0,
                active: None,
                prompt_usage: PromptUsage { prompt_tokens: 0, prompt_cache_hit_tokens: 0 },
                started: false,
                finished: false,
            }),
    {
        MessagesChunkGenerator {
            signature: id.clone(),
            id,
            model,
            thinking_mode,
            content_index: 0,
            tool_call_index: 0,
            active: None,
            prompt_usage: PromptUsage { prompt_tokens: 0, prompt_cache_hit_tokens: 0 },
            started: false,
            finished: false,
        }
    }

    /// Set the signature emitted at the end of a thinking block.
    pub fn with_signature(self, signature: String) -> (r: MessagesChunkGenerator)
        ensures
            r.state() == (GeneratorState { signature: signature@, ..self.state() }),
    {
        let mut g = self;
        g.signature = signature;
        g
    }

    fn close_block(&mut self, events: &mut Vec<MessagesStreamEvent>)
        ensures
            final(self).state() == close_spec(old(self).state()).0,
            events_view(final(events)@) == events_view(old(events)@) + close_spec(old(self).state()).1,
    {
        let ghost ev0 = events_view(events@);
        if let Some(kind) = self.active {
            if kind == MessagesContentBlockKind::Thinking {
                events.push(MessagesStreamEvent::ContentBlockDelta {
                    index: self.content_index,
                    delta: MessagesDelta::SignatureDelta { signature: self.signature.clone() },
                });
            }
            events.push(MessagesStreamEvent::ContentBlockStop { index: self.content_index });
            self.active = None;
            self.content_index = self.content_index.wrapping_add(1);
        }
        assert(events_view(events@) =~= ev0 + close_spec(old(self).state()).1);
    }

    fn open_block(&mut self, kind: MessagesContentBlockKind, content_block: MessagesResponseContent, events: &mut Vec<MessagesStreamEvent>)
        ensures
            final(self).state() == open_spec(old(self).state(), kind, content_view(content_block)).0,
            events_view(final(events)@) == events_view(old(events)@) + open_spec(
                old(self).state(),
                kind,
                content_view(content_block),
            ).1,
    {
        let ghost ev0 = events_view(events@);
        let ghost cv = content_view(content_block);
        self.close_block(events);
        let ghost ev1 = events_view(events@);
        events.push(MessagesStreamEvent::ContentBlockStart { index: self.content_index, content_block });
        assert(events_view(events@) =~= ev1.push(EventView::ContentBlockStart(self.content_index, cv)));
        if self.content_index == 0 {
            let ghost ev2 = events_view(events@);
            events.push(MessagesStreamEvent::Ping);
            assert(events_view(events@) =~= ev2.push(EventView::Ping));
        }
        self.active = Some(kind);
        assert(events_view(events@) =~= ev0 + open_spec(old(self).state(), kind, cv).1);
    }

    /// Returns the id of the next tool use.
    fn tool_use_id(&self) -> (r: String)
        ensures
            r@ == tool_use_id_of(self.state().id, self.state().tool_call_index),
    {
        let mut out: Vec<char> = Vec::new();
        append_str(&mut out, "toolu_");
        append_str(&mut out, self.id.as_str());
        append_str(&mut out, "_");
        let d = decimal_chars(self.tool_call_index);
        append_chars(&mut out, d.as_slice());
        assert(out@ =~= tool_use_id_of(self.state().id, self.state().tool_call_index));
        string_of(out.as_slice())
    }
}

impl ChunkGenerator for MessagesChunkGenerator {
    type Chunk = MessagesStreamEvent;

    /// The content and tool indices count modulo the word size, as a
    /// release build's arithmetic does.
    fn generate(&mut self, chunk: OutputChunk) -> (r: Vec<MessagesStreamEvent>)
        ensures
            (final(self).state(), events_view(r@)) == generate_spec(old(self).state(), chunk),
    {
        let ghost st = self.state();
        let mut events: Vec<MessagesStreamEvent> = Vec::new();
        assert(events_view(events@) =~= Seq::<EventView>::empty());
        if self.finished {
            return events;
        }
        match chunk {
            OutputChunk::Start { usage, .. } => {
                if self.started {
                    return events;
                }
                self.started = true;
                self.prompt_usage = usage;
                let message = MessagesResponse::new(
                    self.id.clone(),
                    self.model.clone(),
                    0,
                    usage.prompt_tokens,
                    usage.prompt_cache_hit_tokens,
                );
                events.push(MessagesStreamEvent::MessageStart { message });
                assert(events_view(events@) =~= seq![event_view(events@[0])]);
                if self.thinking_mode {
                    let block = MessagesResponseContent::Thinking { thinking: String::new(), signature: String::new() };
                    self.open_block(MessagesContentBlockKind::Thinking, block, &mut events);
                }
            },
            OutputChunk::Raw { content } => {
                if self.active != Some(MessagesContentBlockKind::Text) {
                    self.open_block(MessagesContentBlockKind::Text, MessagesResponseContent::Text { text: String::new() }, &mut events);
                }
                let ghost e1 = events_view(events@);
                events.push(MessagesStreamEvent::ContentBlockDelta { index: self.content_index, delta: MessagesDelta::TextDelta { text: content } });
                assert(events_view(events@) =~= e1.push(event_view(events@[events@.len() - 1])));
            },
            OutputChunk::Reasoning { content } => {
                if self.active != Some(MessagesContentBlockKind::Thinking) {
                    let block = MessagesResponseContent::Thinking { thinking: String::new(), signature: String::new() };
                    self.open_block(MessagesContentBlockKind::Thinking, block, &mut events);
                }
                let ghost e1 = events_view(events@);
                events.push(MessagesStreamEvent::ContentBlockDelta {
                    index: self.content_index,
                    delta: MessagesDelta::ThinkingDelta { thinking: content },
                });
                assert(events_view(events@) =~= e1.push(event_view(events@[events@.len() - 1])));
            },
            OutputChunk::ToolCall { tool_name, arguments } => {
                let id = self.tool_use_id();
                self.tool_call_index = self.tool_call_index.wrapping_add(1);
                let input = if arguments.as_str().is_empty() {
                    empty_object()
                } else {
                    match parse_json(arguments.as_str()) {
                        Some(v) => v,
                        None => empty_object(),
                    }
                };
                self.open_block(
                    MessagesContentBlockKind::ToolUse,
                    MessagesResponseContent::ToolUse { id, name: tool_name, input },
                    &mut events,
                );
            },
            OutputChunk::ToolArgumentsDelta { content } => {
                if self.active == Some(MessagesContentBlockKind::ToolUse) {
                    events.push(MessagesStreamEvent::ContentBlockDelta {
                        index: self.content_index,
                        delta: MessagesDelta::InputJsonDelta { partial_json: content },
                    });
                    assert(events_view(events@) =~= seq![event_view(events@[0])]);
                }
            },
            OutputChunk::Finish { reason, stop_sequence, usage } => {
                self.close_block(&mut events);
                let ghost e1 = events_view(events@);
                events.push(MessagesStreamEvent::MessageDelta {
                    delta: MessagesStopInfo { stop_reason: Some(MessagesStopReason::from(reason)), stop_sequence },
                    usage: MessagesUsage::from((self.prompt_usage, usage)),
                });
                events.push(MessagesStreamEvent::MessageStop);
                assert(events_view(events@) =~= e1 + seq![
                    event_view(events@[events@.len() - 2]),
                    EventView::MessageStop,
                ]);
                self.finished = true;
            },
            OutputChunk::ToolCallBegin => {},
        }
        events
    }
}

/// Construct protocol events using the converted request's resolved
/// settings.
pub fn chunk_generator(request: &ConversationRequest, id: String, model: String) -> (r: MessagesChunkGenerator)
    ensures
        r.state().id == id@,
        r.state().model == model@,
        r.state().thinking_mode == request.conversation.thinking_mode,
        r.state().signature == id@,
        !r.state().started && !r.state().finished,
        r.state().content_index == 0 && r.state().tool_call_index == 0 && r.state().active is None,
{
    MessagesChunkGenerator::new(id, model, request.conversation.thinking_mode)
}


impl crate::response::ProtocolResponse for MessagesResponse {
    type ChunkGenerator = MessagesChunkGenerator;

    fn new(id: String, model: String, created: u64, prompt_tokens: usize, prompt_cache_hit_tokens: usize) -> (r: MessagesResponse)
        ensures
            response_view(r) == (ResponseView {
                id: id@,
                model: model@,
                content: Seq::empty(),
                stop_reason: None,
                stop_sequence: None,
                usage: usage_of(
                    PromptUsage { prompt_tokens, prompt_cache_hit_tokens },
                    CompletionUsage { completion_tokens: 0 },
                ),
                partial: Seq::empty(),
            }),
    {
        MessagesResponse::new(id, model, created, prompt_tokens, prompt_cache_hit_tokens)
    }

    fn chunk_event_type(chunk: &MessagesStreamEvent) -> (r: Option<&'static str>)
        ensures
            r matches Some(n) && n@ == event_name(*chunk),
    {
        Some(chunk.event_type())
    }
}


// ---------------------------------------------------------------------------
// Laws

/// Each finish reason has its own stop reason: tool calls ask the client
/// to run the tools (`tool_use`), the length limit is `max_tokens`, a stop
/// sequence is `stop_sequence`, a filtered output is `refusal`, and only an
/// ordinary end (a stop or the end of the stream) ends the turn.
pub proof fn lemma_stop_reason_kinds(reason: FinishReason)
    ensures
        stop_reason_of(reason) is ToolUse <==> reason is ToolCalls,
        stop_reason_of(reason) is MaxTokens <==> reason is Length,
        stop_reason_of(reason) is StopSequence <==> reason is StopSequence,
        stop_reason_of(reason) is Refusal <==> reason is ContentFilter,
        stop_reason_of(reason) is EndTurn <==> (reason is Stop || reason is EndOfStream),
{
}

/// The end of a stream reports why the output ended: after a finish, the
/// last two events are the message delta carrying the stop reason (tool
/// use exactly for tool calls, max tokens exactly for the length limit,
/// the end of the turn exactly for an ordinary end) and the message stop.
pub proof fn lemma_finish_stop_reason(
    st: GeneratorState,
    reason: FinishReason,
    stop_sequence: Option<String>,
    usage: CompletionUsage,
)
    requires
        !st.finished,
    ensures
        ({
            let es = generate_spec(st, OutputChunk::Finish { reason, stop_sequence, usage }).1;
            &&& es.len() >= 2
            &&& es.last() == EventView::MessageStop
            &&& es[es.len() - 2] matches EventView::MessageDelta(Some(sr), _, _) && {
                &&& (sr is ToolUse <==> reason is ToolCalls)
                &&& (sr is MaxTokens <==> reason is Length)
                &&& (sr is StopSequence <==> reason is StopSequence)
                &&& (sr is Refusal <==> reason is ContentFilter)
                &&& (sr is EndTurn <==> (reason is Stop || reason is EndOfStream))
            }
        }),
        generate_spec(st, OutputChunk::Finish { reason, stop_sequence, usage }).0.finished,
{
    lemma_stop_reason_kinds(reason);
}

} // verus!
