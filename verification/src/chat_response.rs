//! Chat Completions responses: streaming chunks made of parsed output, and
//! a complete response that accumulates them.

use vstd::prelude::*;

use crate::conversation::opt_view;
use crate::request::{AppendDelta, ConversationRequest};
use crate::stream::{ChunkGenerator, CompletionUsage, FinishReason, OutputChunk, PromptUsage};
use crate::text::{append_chars, append_str, concat, decimal, decimal_chars, string_of};

verus! {

/// The object type of a complete response.
pub const CHAT_COMPLETION_OBJECT: &'static str = "chat.completion";

/// The object type of a streaming chunk.
pub const CHAT_COMPLETION_CHUNK_OBJECT: &'static str = "chat.completion.chunk";

/// The role of a response message.
#[derive(Debug, Clone, Copy, PartialEq, Eq, Structural)]
pub enum ChatCompletionRole {
    Assistant,
}

/// The type of a response tool call.
#[derive(Debug, Clone, Copy, PartialEq, Eq, Structural)]
pub enum ChatCompletionToolCallType {
    Function,
}

/// Why a choice finished.
#[derive(Debug, Clone, Copy, PartialEq, Eq, Structural)]
pub enum ChatCompletionFinishReason {
    Stop,
    Length,
    ContentFilter,
    InsufficientSystemResource,
    ToolCalls,
    Aborted,
}

/// The finish reason reported for a stream's finish reason: a matched stop
/// sequence and an ended stream report a stop.
pub open spec fn finish_reason_of(value: FinishReason) -> ChatCompletionFinishReason {
    match value {
        FinishReason::Stop | FinishReason::StopSequence | FinishReason::EndOfStream => ChatCompletionFinishReason::Stop,
        FinishReason::ToolCalls => ChatCompletionFinishReason::ToolCalls,
        FinishReason::ContentFilter => ChatCompletionFinishReason::ContentFilter,
        FinishReason::Length => ChatCompletionFinishReason::Length,
    }
}

impl From<FinishReason> for ChatCompletionFinishReason {
    fn from(value: FinishReason) -> (r: ChatCompletionFinishReason) {
        match value {
            FinishReason::Stop | FinishReason::StopSequence | FinishReason::EndOfStream => ChatCompletionFinishReason::Stop,
            FinishReason::ToolCalls => ChatCompletionFinishReason::ToolCalls,
            FinishReason::ContentFilter => ChatCompletionFinishReason::ContentFilter,
            FinishReason::Length => ChatCompletionFinishReason::Length,
        }
    }
}

impl vstd::std_specs::convert::FromSpecImpl<FinishReason> for ChatCompletionFinishReason {
    open spec fn obeys_from_spec() -> bool {
        true
    }

    open spec fn from_spec(v: FinishReason) -> ChatCompletionFinishReason {
        finish_reason_of(v)
    }
}

/// Cached prompt tokens.
#[derive(Debug, Clone, Copy, PartialEq, Eq, Structural)]
pub struct ChatCompletionInputTokenUsage {
    pub cached_tokens: usize,
}

/// Reasoning tokens of the completion.
#[derive(Debug, Clone, Copy, PartialEq, Eq, Structural)]
pub struct ChatCompletionOutputTokenUsage {
    pub reasoning_tokens: usize,
}

/// Token usage of a response.
#[derive(Debug, Clone, Copy, PartialEq, Eq, Structural)]
pub struct ChatCompletionUsage {
    pub prompt_tokens: usize,
    pub completion_tokens: usize,
    pub total_tokens: usize,
    pub prompt_tokens_details: ChatCompletionInputTokenUsage,
    pub completion_tokens_details: Option<ChatCompletionOutputTokenUsage>,
    pub prompt_cache_hit_tokens: usize,
    pub prompt_cache_miss_tokens: usize,
}

/// The usage reported for prompt and completion counts. The total wraps
/// around on overflow, as a release build's addition does; the miss count
/// stops at zero.
pub open spec fn usage_of(prompt: PromptUsage, completion: CompletionUsage) -> ChatCompletionUsage {
    ChatCompletionUsage {
        prompt_tokens: prompt.prompt_tokens,
        completion_tokens: completion.completion_tokens,
        total_tokens: prompt.prompt_tokens.wrapping_add(completion.completion_tokens),
        prompt_tokens_details: ChatCompletionInputTokenUsage { cached_tokens: prompt.prompt_cache_hit_tokens },
        completion_tokens_details: None,
        prompt_cache_hit_tokens: prompt.prompt_cache_hit_tokens,
        prompt_cache_miss_tokens: if prompt.prompt_tokens >= prompt.prompt_cache_hit_tokens {
            (prompt.prompt_tokens - prompt.prompt_cache_hit_tokens) as usize
        } else {
            0
        },
    }
}

impl From<(PromptUsage, CompletionUsage)> for ChatCompletionUsage {
    fn from(value: (PromptUsage, CompletionUsage)) -> (r: ChatCompletionUsage) {
        let (prompt, completion) = value;
        ChatCompletionUsage {
            prompt_tokens: prompt.prompt_tokens,
            completion_tokens: completion.completion_tokens,
            total_tokens: prompt.prompt_tokens.wrapping_add(completion.completion_tokens),
            prompt_tokens_details: ChatCompletionInputTokenUsage { cached_tokens: prompt.prompt_cache_hit_tokens },
            completion_tokens_details: None,
            prompt_cache_hit_tokens: prompt.prompt_cache_hit_tokens,
            prompt_cache_miss_tokens: prompt.prompt_tokens.saturating_sub(prompt.prompt_cache_hit_tokens),
        }
    }
}

impl vstd::std_specs::convert::FromSpecImpl<(PromptUsage, CompletionUsage)> for ChatCompletionUsage {
    open spec fn obeys_from_spec() -> bool {
        true
    }

    open spec fn from_spec(v: (PromptUsage, CompletionUsage)) -> ChatCompletionUsage {
        usage_of(v.0, v.1)
    }
}

/// The function of a response tool call.
#[derive(Debug)]
pub struct ChatCompletionResponseFunctionCall {
    pub name: String,
    pub arguments: String,
}

/// A complete tool call in an assistant response message.
#[derive(Debug)]
pub struct ChatCompletionResponseToolCall {
    pub id: String,
    /// The call type (`type` on the wire).
    pub tool_type: ChatCompletionToolCallType,
    pub function: ChatCompletionResponseFunctionCall,
}

/// An argument update of a tool call.
#[derive(Debug)]
pub struct ChatCompletionFunctionArgumentsDelta {
    pub arguments: String,
}

/// An initial tool call or an update to its arguments.
#[derive(Debug)]
pub enum ChatCompletionToolCallDelta {
    Start { index: u32, call: ChatCompletionResponseToolCall },
    Arguments { index: u32, function: ChatCompletionFunctionArgumentsDelta },
}

/// An incremental update to an assistant message.
///
/// For `content` and `reasoning_content`, `None` omits the field and
/// `Some(None)` is an explicit null.
#[derive(Debug)]
pub struct ChatCompletionMessageDelta {
    pub role: Option<ChatCompletionRole>,
    pub content: Option<Option<String>>,
    pub reasoning_content: Option<Option<String>>,
    pub tool_calls: Option<Vec<ChatCompletionToolCallDelta>>,
}

impl Default for ChatCompletionMessageDelta {
    fn default() -> (r: ChatCompletionMessageDelta)
        ensures
            r.role is None && r.content is None && r.reasoning_content is None && r.tool_calls is None,
    {
        ChatCompletionMessageDelta { role: None, content: None, reasoning_content: None, tool_calls: None }
    }
}

/// A complete assistant message accumulated from response deltas.
#[derive(Debug)]
pub struct ChatCompletionResponseMessage {
    pub role: ChatCompletionRole,
    pub content: Option<String>,
    pub reasoning_content: Option<String>,
    pub tool_calls: Option<Vec<ChatCompletionResponseToolCall>>,
}

/// One choice of a streaming chunk. Log probabilities are not supplied by
/// the inference contract and are always absent.
#[derive(Debug)]
pub struct ChatCompletionChunkChoice {
    pub index: u32,
    pub delta: ChatCompletionMessageDelta,
    pub finish_reason: Option<ChatCompletionFinishReason>,
}

/// A streaming chunk.
#[derive(Debug)]
pub struct ChatCompletionChunk {
    pub id: String,
    pub object: &'static str,
    pub created: u64,
    pub model: String,
    pub system_fingerprint: Option<String>,
    pub choices: Vec<ChatCompletionChunkChoice>,
    /// `None` omits the field; `Some(None)` is an explicit null.
    pub usage: Option<Option<ChatCompletionUsage>>,
}

/// One choice of a complete response. Log probabilities are always absent.
#[derive(Debug)]
pub struct ChatCompletionChoice {
    pub index: u32,
    pub message: ChatCompletionResponseMessage,
    pub finish_reason: Option<ChatCompletionFinishReason>,
}

/// A complete response, also usable as an accumulator for generated chunks.
/// Chunks are accumulated in inference order. Tool argument deltas extend
/// the tool call identified by their index.
#[derive(Debug)]
pub struct ChatCompletionResponse {
    pub id: String,
    pub object: &'static str,
    pub created: u64,
    pub model: String,
    pub system_fingerprint: Option<String>,
    pub choices: Vec<ChatCompletionChoice>,
    pub usage: Option<ChatCompletionUsage>,
}

// ---------------------------------------------------------------------------
// Values

/// The value of a tool call: id, name and arguments.
pub struct CallView {
    pub id: Seq<char>,
    pub name: Seq<char>,
    pub arguments: Seq<char>,
}

/// The value of a response tool call.
pub open spec fn call_view(c: ChatCompletionResponseToolCall) -> CallView {
    CallView { id: c.id@, name: c.function.name@, arguments: c.function.arguments@ }
}

/// The values of a list of response tool calls.
pub open spec fn calls_view(calls: Seq<ChatCompletionResponseToolCall>) -> Seq<CallView> {
    Seq::new(calls.len(), |i: int| call_view(calls[i]))
}

/// The value of a tool call update.
pub enum ToolDeltaView {
    Start { index: u32, call: CallView },
    Arguments { index: u32, arguments: Seq<char> },
}

/// The value of a tool call update.
pub open spec fn tool_delta_view(d: ChatCompletionToolCallDelta) -> ToolDeltaView {
    match d {
        ChatCompletionToolCallDelta::Start { index, call } => ToolDeltaView::Start { index, call: call_view(call) },
        ChatCompletionToolCallDelta::Arguments { index, function } => ToolDeltaView::Arguments {
            index,
            arguments: function.arguments@,
        },
    }
}

/// The values of a list of tool call updates.
pub open spec fn tool_deltas_view(ds: Seq<ChatCompletionToolCallDelta>) -> Seq<ToolDeltaView> {
    Seq::new(ds.len(), |i: int| tool_delta_view(ds[i]))
}

/// The value of an optional field that may be an explicit null.
pub open spec fn nullable_view(x: Option<Option<String>>) -> Option<Option<Seq<char>>> {
    match x {
        Some(Some(s)) => Some(Some(s@)),
        Some(None) => Some(None),
        None => None,
    }
}

/// The value of a message update.
pub struct DeltaView {
    pub role: Option<ChatCompletionRole>,
    pub content: Option<Option<Seq<char>>>,
    pub reasoning_content: Option<Option<Seq<char>>>,
    pub tool_calls: Option<Seq<ToolDeltaView>>,
}

/// The value of a message update.
pub open spec fn delta_view(d: ChatCompletionMessageDelta) -> DeltaView {
    DeltaView {
        role: d.role,
        content: nullable_view(d.content),
        reasoning_content: nullable_view(d.reasoning_content),
        tool_calls: match d.tool_calls {
            Some(v) => Some(tool_deltas_view(v@)),
            None => None,
        },
    }
}

/// The value of a response message.
pub struct ResponseMessageView {
    pub role: ChatCompletionRole,
    pub content: Option<Seq<char>>,
    pub reasoning_content: Option<Seq<char>>,
    pub tool_calls: Option<Seq<CallView>>,
}

/// The value of a response message.
pub open spec fn message_view(m: ChatCompletionResponseMessage) -> ResponseMessageView {
    ResponseMessageView {
        role: m.role,
        content: opt_view(m.content),
        reasoning_content: opt_view(m.reasoning_content),
        tool_calls: match m.tool_calls {
            Some(v) => Some(calls_view(v@)),
            None => None,
        },
    }
}

/// The value of a response choice.
pub struct ChoiceView {
    pub index: u32,
    pub message: ResponseMessageView,
    pub finish_reason: Option<ChatCompletionFinishReason>,
}

/// The value of a response choice.
pub open spec fn choice_view(c: ChatCompletionChoice) -> ChoiceView {
    ChoiceView { index: c.index, message: message_view(c.message), finish_reason: c.finish_reason }
}

/// The values of a list of response choices.
pub open spec fn choices_view(cs: Seq<ChatCompletionChoice>) -> Seq<ChoiceView> {
    Seq::new(cs.len(), |i: int| choice_view(cs[i]))
}

// ---------------------------------------------------------------------------
// Accumulation

/// Text extended by an optional update: an update of missing text starts it.
pub open spec fn extend_text(text: Option<Seq<char>>, delta: Option<Seq<char>>) -> Option<Seq<char>> {
    match delta {
        None => text,
        Some(d) => match text {
            Some(t) => Some(t + d),
            None => Some(d),
        },
    }
}

/// The update carried by an optional field that may be an explicit null.
pub open spec fn flatten(x: Option<Option<Seq<char>>>) -> Option<Seq<char>> {
    match x {
        Some(Some(s)) => Some(s),
        _ => None,
    }
}

/// Tool calls after one update: a start adds a call, an argument update
/// extends the call at its index, if there is one.
pub open spec fn apply_tool_delta(calls: Seq<CallView>, d: ToolDeltaView) -> Seq<CallView> {
    match d {
        ToolDeltaView::Start { call, .. } => calls.push(call),
        ToolDeltaView::Arguments { index, arguments } => if index < calls.len() {
            calls.update(
                index as int,
                CallView {
                    id: calls[index as int].id,
                    name: calls[index as int].name,
                    arguments: calls[index as int].arguments + arguments,
                },
            )
        } else {
            calls
        },
    }
}

/// Tool calls after the first `n` updates of `ds`.
pub open spec fn apply_tool_deltas(calls: Seq<CallView>, ds: Seq<ToolDeltaView>, n: int) -> Seq<CallView>
    decreases n,
{
    if n <= 0 {
        calls
    } else {
        apply_tool_delta(apply_tool_deltas(calls, ds, n - 1), ds[n - 1])
    }
}

/// A message after one update.
pub open spec fn apply_delta(m: ResponseMessageView, d: DeltaView) -> ResponseMessageView {
    ResponseMessageView {
        role: match d.role {
            Some(r) => r,
            None => m.role,
        },
        content: extend_text(m.content, flatten(d.content)),
        reasoning_content: extend_text(m.reasoning_content, flatten(d.reasoning_content)),
        tool_calls: match d.tool_calls {
            None => m.tool_calls,
            Some(ds) => Some(
                apply_tool_deltas(
                    match m.tool_calls {
                        Some(c) => c,
                        None => Seq::empty(),
                    },
                    ds,
                    ds.len() as int,
                ),
            ),
        },
    }
}

/// A fresh choice with index `index`.
pub open spec fn empty_choice(index: u32) -> ChoiceView {
    ChoiceView {
        index,
        message: ResponseMessageView {
            role: ChatCompletionRole::Assistant,
            content: None,
            reasoning_content: None,
            tool_calls: None,
        },
        finish_reason: None,
    }
}

/// The position of the first choice with index `index`, if any.
pub open spec fn find_choice(choices: Seq<ChoiceView>, index: u32) -> Option<int>
    decreases choices.len(),
{
    if choices.len() == 0 {
        None
    } else {
        match find_choice(choices.drop_last(), index) {
            Some(p) => Some(p),
            None => if choices.last().index == index {
                Some(choices.len() - 1)
            } else {
                None
            },
        }
    }
}

/// A found choice lies within the list and has the index looked for.
pub proof fn lemma_find_choice_bounds(choices: Seq<ChoiceView>, index: u32)
    ensures
        find_choice(choices, index) matches Some(p) ==> 0 <= p < choices.len() && choices[p].index == index,
    decreases choices.len(),
{
    if choices.len() > 0 {
        lemma_find_choice_bounds(choices.drop_last(), index);
    }
}

/// A choice after one chunk choice: its message takes the update, and a
/// reported finish reason replaces the previous one.
pub open spec fn apply_to_choice(c: ChoiceView, d: DeltaView, finish: Option<ChatCompletionFinishReason>) -> ChoiceView {
    ChoiceView {
        index: c.index,
        message: apply_delta(c.message, d),
        finish_reason: if finish is Some {
            finish
        } else {
            c.finish_reason
        },
    }
}

/// Choices after one chunk choice: the choice with the same index takes it,
/// or a fresh choice is added for it.
pub open spec fn apply_chunk_choice(
    choices: Seq<ChoiceView>,
    index: u32,
    d: DeltaView,
    finish: Option<ChatCompletionFinishReason>,
) -> Seq<ChoiceView> {
    match find_choice(choices, index) {
        Some(p) => choices.update(p, apply_to_choice(choices[p], d, finish)),
        None => choices.push(apply_to_choice(empty_choice(index), d, finish)),
    }
}

/// Choices after the first `n` choices of a chunk.
pub open spec fn apply_chunk_choices(choices: Seq<ChoiceView>, cs: Seq<ChatCompletionChunkChoice>, n: int) -> Seq<ChoiceView>
    decreases n,
{
    if n <= 0 {
        choices
    } else {
        let c = cs[n - 1];
        apply_chunk_choice(apply_chunk_choices(choices, cs, n - 1), c.index, delta_view(c.delta), c.finish_reason)
    }
}

/// Returns `text` extended by an optional update.
fn extend_text_exec(text: Option<String>, delta: Option<String>) -> (r: Option<String>)
    ensures
        opt_view(r) == extend_text(opt_view(text), opt_view(delta)),
{
    match delta {
        None => text,
        Some(d) => match text {
            Some(t) => Some(concat(t.as_str(), d.as_str())),
            None => Some(d),
        },
    }
}

/// Returns the update carried by an optional field that may be an explicit
/// null.
fn flatten_exec(x: Option<Option<String>>) -> (r: Option<String>)
    ensures
        opt_view(r) == flatten(nullable_view(x)),
{
    match x {
        Some(Some(s)) => Some(s),
        _ => None,
    }
}

impl AppendDelta<ChatCompletionMessageDelta> for ChatCompletionResponseMessage {
    fn append(&mut self, delta: ChatCompletionMessageDelta)
        ensures
            message_view(*final(self)) == apply_delta(message_view(*old(self)), delta_view(delta)),
    {
        let ghost dv = delta_view(delta);
        let ghost before = message_view(*self);
        let ChatCompletionMessageDelta { role, content, reasoning_content, tool_calls: deltas } = delta;
        if let Some(r) = role {
            self.role = r;
        }
        let mut old_content: Option<String> = None;
        std::mem::swap(&mut old_content, &mut self.content);
        self.content = extend_text_exec(old_content, flatten_exec(content));
        let mut old_reasoning: Option<String> = None;
        std::mem::swap(&mut old_reasoning, &mut self.reasoning_content);
        self.reasoning_content = extend_text_exec(old_reasoning, flatten_exec(reasoning_content));
        if let Some(ds) = deltas {
            let mut taken: Option<Vec<ChatCompletionResponseToolCall>> = None;
            std::mem::swap(&mut taken, &mut self.tool_calls);
            let mut calls = match taken {
                Some(c) => c,
                None => Vec::new(),
            };
            let ghost start = calls_view(calls@);
            let ghost dsv = tool_deltas_view(ds@);
            assert(start == match before.tool_calls {
                Some(c) => c,
                None => Seq::<CallView>::empty(),
            });
            let ghost all = ds@;
            let mut ds = ds;
            let mut k: usize = 0;
            let n = ds.len();
            while k < n
                invariant
                    n == all.len(),
                    k <= n,
                    ds@ == all.subrange(k as int, n as int),
                    dsv == tool_deltas_view(all),
                    calls_view(calls@) == apply_tool_deltas(start, dsv, k as int),
                decreases n - k,
            {
                let d = ds.remove(0);
                proof {
                    assert(d == all[k as int]);
                    assert(tool_delta_view(d) == dsv[k as int]);
                    assert(ds@ =~= all.subrange(k + 1, n as int));
                }
                let ghost cv = calls_view(calls@);
                match d {
                    ChatCompletionToolCallDelta::Start { call, .. } => {
                        calls.push(call);
                        assert(calls_view(calls@) =~= cv.push(call_view(calls@[calls@.len() - 1])));
                    },
                    ChatCompletionToolCallDelta::Arguments { index, function } => {
                        let i = index as usize;
                        if i < calls.len() {
                            let old_call = calls.remove(i);
                            let updated = ChatCompletionResponseToolCall {
                                id: old_call.id,
                                tool_type: old_call.tool_type,
                                function: ChatCompletionResponseFunctionCall {
                                    name: old_call.function.name,
                                    arguments: concat(old_call.function.arguments.as_str(), function.arguments.as_str()),
                                },
                            };
                            calls.insert(i, updated);
                            assert(calls_view(calls@) =~= apply_tool_delta(cv, dsv[k as int]));
                        }
                    },
                }
                k += 1;
            }
            self.tool_calls = Some(calls);
        }
    }
}

/// The choices of a response after a chunk, and its usage and fingerprint.
pub open spec fn appended(before: ChatCompletionResponse, chunk: ChatCompletionChunk, after: ChatCompletionResponse) -> bool {
    &&& after.id == before.id
    &&& after.created == before.created
    &&& after.model == before.model
    &&& after.object == before.object
    &&& after.usage == (match chunk.usage {
        Some(Some(u)) => Some(u),
        _ => before.usage,
    })
    &&& opt_view(after.system_fingerprint) == (if before.system_fingerprint is None {
        opt_view(chunk.system_fingerprint)
    } else {
        opt_view(before.system_fingerprint)
    })
    &&& choices_view(after.choices@) == apply_chunk_choices(
        choices_view(before.choices@),
        chunk.choices@,
        chunk.choices@.len() as int,
    )
}

/// Returns the position of the first choice with index `index`.
fn find_choice_exec(choices: &Vec<ChatCompletionChoice>, index: u32) -> (r: Option<usize>)
    ensures
        match r {
            Some(q) => find_choice(choices_view(choices@), index) == Some(q as int) && q < choices@.len(),
            None => find_choice(choices_view(choices@), index) is None,
        },
{
    let ghost cv = choices_view(choices@);
    let mut i: usize = 0;
    while i < choices.len()
        invariant
            i <= choices@.len(),
            cv == choices_view(choices@),
            find_choice(cv.take(i as int), index) is None,
        decreases choices@.len() - i,
    {
        proof {
            assert(cv.take(i + 1).drop_last() =~= cv.take(i as int));
        }
        if choices[i].index == index {
            proof {
                lemma_find_choice_prefix(cv, i as int + 1);
            }
            return Some(i);
        }
        i += 1;
    }
    assert(cv.take(choices@.len() as int) =~= cv);
    None
}

/// A choice found among the first `n` choices is found among all of them.
proof fn lemma_find_choice_prefix(cv: Seq<ChoiceView>, n: int)
    requires
        0 <= n <= cv.len(),
        find_choice(cv.take(n), cv[n - 1].index) is Some || (n > 0 && find_choice(cv.take(n - 1), cv[n - 1].index) is None),
    ensures
        n > 0 ==> find_choice(cv, cv[n - 1].index) == find_choice(cv.take(n), cv[n - 1].index),
    decreases cv.len() - n,
{
    if n > 0 && n < cv.len() {
        let idx = cv[n - 1].index;
        assert(cv.take(n + 1).drop_last() =~= cv.take(n));
        lemma_find_some_extends(cv, n, idx);
    } else if n == cv.len() {
        assert(cv.take(n) =~= cv);
    }
}

/// Once found among the first `n` choices, a choice stays found.
proof fn lemma_find_some_extends(cv: Seq<ChoiceView>, n: int, index: u32)
    requires
        0 <= n <= cv.len(),
        find_choice(cv.take(n), index) is Some,
    ensures
        find_choice(cv, index) == find_choice(cv.take(n), index),
    decreases cv.len() - n,
{
    if n < cv.len() {
        assert(cv.take(n + 1).drop_last() =~= cv.take(n));
        lemma_find_some_extends(cv, n + 1, index);
    } else {
        assert(cv.take(n) =~= cv);
    }
}

impl AppendDelta<ChatCompletionChunk> for ChatCompletionResponse {
    fn append(&mut self, chunk: ChatCompletionChunk)
        ensures
            appended(*old(self), chunk, *final(self)),
    {
        let ghost ch = chunk;
        let ChatCompletionChunk { system_fingerprint, choices: chunk_choices, usage, .. } = chunk;
        if let Some(Some(u)) = usage {
            self.usage = Some(u);
        }
        if self.system_fingerprint.is_none() {
            self.system_fingerprint = system_fingerprint;
        }
        let ghost start = choices_view(self.choices@);
        let ghost mid = *self;
        let mut chunk_choices = chunk_choices;
        let n = chunk_choices.len();
        let mut k: usize = 0;
        while k < n
            invariant
                n == ch.choices@.len(),
                k <= n,
                chunk_choices@ == ch.choices@.subrange(k as int, n as int),
                choices_view(self.choices@) == apply_chunk_choices(start, ch.choices@, k as int),
                self.id == mid.id,
                self.created == mid.created,
                self.model == mid.model,
                self.object == mid.object,
                self.usage == mid.usage,
                self.system_fingerprint == mid.system_fingerprint,
            decreases n - k,
        {
            let cc = chunk_choices.remove(0);
            assert(cc == ch.choices@[k as int]);
            assert(chunk_choices@ =~= ch.choices@.subrange(k + 1, n as int));
            let ghost cv = choices_view(self.choices@);
            let ChatCompletionChunkChoice { index, delta, finish_reason } = cc;
            let ghost fc = find_choice(cv, index);
            proof {
                lemma_find_choice_bounds(cv, index);
            }
            let ghost dv = delta_view(delta);
            let found = find_choice_exec(&self.choices, index);
            assert(found matches Some(q) ==> fc == Some(q as int));
            assert(found is None ==> fc is None);
            let pos = match found {
                Some(p) => p,
                None => {
                    self.choices.push(ChatCompletionChoice {
                        index,
                        message: ChatCompletionResponseMessage {
                            role: ChatCompletionRole::Assistant,
                            content: None,
                            reasoning_content: None,
                            tool_calls: None,
                        },
                        finish_reason: None,
                    });
                    assert(choices_view(self.choices@) =~= cv.push(empty_choice(index)));
                    self.choices.len() - 1
                },
            };
            let ghost base = choices_view(self.choices@);
            assert(pos < base.len());
            let mut choice = self.choices.remove(pos);
            assert(choice_view(choice) == base[pos as int]);
            choice.message.append(delta);
            if finish_reason.is_some() {
                choice.finish_reason = finish_reason;
            }
            let ghost updated = choice_view(choice);
            assert(updated == apply_to_choice(base[pos as int], dv, finish_reason));
            self.choices.insert(pos, choice);
            proof {
                assert(choices_view(self.choices@) =~= base.update(pos as int, updated));
                match fc {
                    Some(p) => {
                        assert(found is Some);
                        assert(pos as int == p);
                        assert(base == cv);
                        assert(updated == apply_to_choice(cv[p], dv, finish_reason));
                        assert(apply_chunk_choice(cv, index, dv, finish_reason) == cv.update(p, apply_to_choice(cv[p], dv, finish_reason)));
                    },
                    None => {
                        assert(base =~= cv.push(empty_choice(index)));
                        assert(pos as int == cv.len());
                        assert(base.update(pos as int, updated) =~= cv.push(updated));
                        assert(updated == apply_to_choice(empty_choice(index), dv, finish_reason));
                    },
                }
                assert(choices_view(self.choices@) =~= apply_chunk_choice(cv, index, dv, finish_reason));
            }
            k += 1;
        }
    }
}

// ---------------------------------------------------------------------------
// Generation

/// Converts parsed output into Chat Completions streaming chunks.
///
/// The caller supplies an ordered stream for one inference. Tool argument
/// deltas follow the tool call whose arguments they extend.
#[derive(Debug)]
pub struct ChatCompletionChunkGenerator {
    id: String,
    model: String,
    created: u64,
    thinking_mode: bool,
    include_usage: bool,
    tool_call_index: u32,
    prompt_usage: PromptUsage,
    system_fingerprint: Option<String>,
}

impl ChatCompletionChunkGenerator {
    /// The response id.
    pub closed spec fn id_view(&self) -> Seq<char> {
        self.id@
    }

    /// The public model name.
    pub closed spec fn model_view(&self) -> Seq<char> {
        self.model@
    }

    /// The creation time of the chunks.
    pub closed spec fn created_at(&self) -> u64 {
        self.created
    }

    /// Whether thinking output is expected.
    pub closed spec fn thinking(&self) -> bool {
        self.thinking_mode
    }

    /// Whether chunks carry usage.
    pub closed spec fn with_usage(&self) -> bool {
        self.include_usage
    }

    /// The index of the next tool call.
    pub closed spec fn next_tool_index(&self) -> u32 {
        self.tool_call_index
    }

    /// The prompt usage reported by the start of the output.
    pub closed spec fn prompt(&self) -> PromptUsage {
        self.prompt_usage
    }

    /// The backend fingerprint reported by the start of the output.
    pub closed spec fn fingerprint(&self) -> Option<Seq<char>> {
        opt_view(self.system_fingerprint)
    }

    /// The caller supplies a unique response ID and public model name. Tool
    /// call IDs combine the response ID and per-response tool index.
    pub fn new(id: String, model: String, include_usage: bool, thinking_mode: bool) -> (r: ChatCompletionChunkGenerator)
        ensures
            r.id_view() == id@,
            r.model_view() == model@,
            r.with_usage() == include_usage,
            r.thinking() == thinking_mode,
            r.next_tool_index() == 0,
            r.prompt() == (PromptUsage { prompt_tokens: 0, prompt_cache_hit_tokens: 0 }),
            r.fingerprint() is None,
    {
        ChatCompletionChunkGenerator {
            id,
            model,
            created: crate::stream::unix_time_secs(),
            thinking_mode,
            include_usage,
            tool_call_index: 0,
            prompt_usage: PromptUsage { prompt_tokens: 0, prompt_cache_hit_tokens: 0 },
            system_fingerprint: None,
        }
    }

    /// Apply usage settings extracted from the original Chat Completions
    /// request.
    pub fn with_include_usage(self, include_usage: bool) -> (r: ChatCompletionChunkGenerator)
        ensures
            r.with_usage() == include_usage,
            same_stream(self, r),
            r.next_tool_index() == self.next_tool_index(),
            r.prompt() == self.prompt(),
            r.fingerprint() == self.fingerprint(),
    {
        let mut g = self;
        g.include_usage = include_usage;
        g
    }

    fn new_chunk(
        &self,
        delta: ChatCompletionMessageDelta,
        finish_reason: Option<ChatCompletionFinishReason>,
        usage: Option<ChatCompletionUsage>,
    ) -> (r: Vec<ChatCompletionChunk>)
        ensures
            r@.len() == 1,
            chunk_made(*self, r@[0], delta_view(delta), finish_reason, usage),
    {
        // Include null usage before the final snapshot when requested.
        // Otherwise the final chunk includes usage.
        let usage = if self.include_usage {
            Some(usage)
        } else {
            match usage {
                Some(u) => Some(Some(u)),
                None => None,
            }
        };
        let mut choices: Vec<ChatCompletionChunkChoice> = Vec::new();
        choices.push(ChatCompletionChunkChoice { index: 0, delta, finish_reason });
        let mut out: Vec<ChatCompletionChunk> = Vec::new();
        out.push(ChatCompletionChunk {
            id: self.id.clone(),
            object: CHAT_COMPLETION_CHUNK_OBJECT,
            created: self.created,
            model: self.model.clone(),
            system_fingerprint: crate::conversation::duplicate_opt(&self.system_fingerprint),
            choices,
            usage,
        });
        out
    }

    /// Returns the id of tool call `index`: `call_`, the response id, `_`
    /// and the index.
    fn tool_call_id(&self, index: u32) -> (r: String)
        ensures
            r@ == tool_call_id_of(self.id_view(), index),
    {
        let mut out: Vec<char> = Vec::new();
        append_str(&mut out, "call_");
        append_str(&mut out, self.id.as_str());
        append_str(&mut out, "_");
        let d = decimal_chars(index as usize);
        append_chars(&mut out, d.as_slice());
        assert(out@ =~= tool_call_id_of(self.id_view(), index));
        string_of(out.as_slice())
    }
}

/// The id of tool call `index` of response `id`.
pub open spec fn tool_call_id_of(id: Seq<char>, index: u32) -> Seq<char> {
    "call_"@ + id + "_"@ + decimal(index as nat)
}

/// Two generators of the same response: id, model, creation time and
/// thinking mode.
pub open spec fn same_stream(a: ChatCompletionChunkGenerator, b: ChatCompletionChunkGenerator) -> bool {
    &&& a.id_view() == b.id_view()
    &&& a.model_view() == b.model_view()
    &&& a.created_at() == b.created_at()
    &&& a.thinking() == b.thinking()
}

/// `c` is the one-choice chunk of generator `g` with update `d`, finish
/// reason `finish` and usage `usage`. With usage requested, every chunk
/// carries a usage field, null but on the last.
pub open spec fn chunk_made(
    g: ChatCompletionChunkGenerator,
    c: ChatCompletionChunk,
    d: DeltaView,
    finish: Option<ChatCompletionFinishReason>,
    usage: Option<ChatCompletionUsage>,
) -> bool {
    &&& c.id@ == g.id_view()
    &&& c.object@ == CHAT_COMPLETION_CHUNK_OBJECT@
    &&& c.created == g.created_at()
    &&& c.model@ == g.model_view()
    &&& opt_view(c.system_fingerprint) == g.fingerprint()
    &&& c.choices@.len() == 1
    &&& c.choices@[0].index == 0
    &&& delta_view(c.choices@[0].delta) == d
    &&& c.choices@[0].finish_reason == finish
    &&& c.usage == (if g.with_usage() {
        Some(usage)
    } else {
        match usage {
            Some(u) => Some(Some(u)),
            None => None,
        }
    })
}

/// An update with only the given content and reasoning fields.
pub open spec fn text_delta(content: Option<Option<Seq<char>>>, reasoning: Option<Option<Seq<char>>>) -> DeltaView {
    DeltaView { role: None, content, reasoning_content: reasoning, tool_calls: None }
}

/// The reasoning field of an answer update: an explicit null in thinking
/// mode, else absent.
pub open spec fn reasoning_null(thinking: bool) -> Option<Option<Seq<char>>> {
    if thinking {
        Some(None)
    } else {
        None
    }
}

/// The events of one parsed output chunk, and the generator after it.
pub open spec fn generated(
    g: ChatCompletionChunkGenerator,
    chunk: OutputChunk,
    after: ChatCompletionChunkGenerator,
    r: Seq<ChatCompletionChunk>,
) -> bool {
    &&& same_stream(g, after)
    &&& g.with_usage() == after.with_usage()
    &&& match chunk {
        OutputChunk::Start { system_fingerprint, usage } => {
            &&& after.prompt() == usage
            &&& after.fingerprint() == opt_view(system_fingerprint)
            &&& after.next_tool_index() == g.next_tool_index()
            &&& r.len() == 1
            &&& chunk_made(
                after,
                r[0],
                DeltaView {
                    role: Some(ChatCompletionRole::Assistant),
                    content: if g.thinking() { Some(None) } else { Some(Some(Seq::empty())) },
                    reasoning_content: if g.thinking() { Some(Some(Seq::empty())) } else { None },
                    tool_calls: None,
                },
                None,
                None,
            )
        },
        OutputChunk::Raw { content } => {
            &&& unchanged_usage(g, after)
            &&& after.next_tool_index() == g.next_tool_index()
            &&& r.len() == 1
            &&& chunk_made(g, r[0], text_delta(Some(Some(content@)), reasoning_null(g.thinking())), None, None)
        },
        OutputChunk::Reasoning { content } => {
            &&& unchanged_usage(g, after)
            &&& after.next_tool_index() == g.next_tool_index()
            &&& r.len() == 1
            &&& chunk_made(g, r[0], text_delta(Some(None), Some(Some(content@))), None, None)
        },
        OutputChunk::ToolCallBegin => {
            &&& unchanged_usage(g, after)
            &&& after.next_tool_index() == g.next_tool_index()
            &&& r.len() == 0
        },
        OutputChunk::ToolCall { tool_name, arguments } => {
            &&& unchanged_usage(g, after)
            &&& after.next_tool_index() == g.next_tool_index().wrapping_add(1)
            &&& r.len() == 1
            &&& chunk_made(
                g,
                r[0],
                DeltaView {
                    role: None,
                    content: None,
                    reasoning_content: None,
                    tool_calls: Some(
                        seq![
                            ToolDeltaView::Start {
                                index: g.next_tool_index(),
                                call: CallView {
                                    id: tool_call_id_of(g.id_view(), g.next_tool_index()),
                                    name: tool_name@,
                                    arguments: arguments@,
                                },
                            },
                        ],
                    ),
                },
                None,
                None,
            )
        },
        OutputChunk::ToolArgumentsDelta { content } => {
            &&& unchanged_usage(g, after)
            &&& after.next_tool_index() == g.next_tool_index()
            &&& r.len() == 1
            &&& chunk_made(
                g,
                r[0],
                DeltaView {
                    role: None,
                    content: None,
                    reasoning_content: None,
                    tool_calls: Some(
                        seq![ToolDeltaView::Arguments { index: g.next_tool_index().wrapping_sub(1), arguments: content@ }],
                    ),
                },
                None,
                None,
            )
        },
        OutputChunk::Finish { reason, usage, .. } => {
            &&& unchanged_usage(g, after)
            &&& after.next_tool_index() == g.next_tool_index()
            &&& r.len() == 1
            &&& chunk_made(
                g,
                r[0],
                text_delta(Some(Some(Seq::empty())), reasoning_null(g.thinking())),
                Some(finish_reason_of(reason)),
                Some(usage_of(g.prompt(), usage)),
            )
        },
    }
}

/// The prompt usage and fingerprint of a generator stay.
pub open spec fn unchanged_usage(a: ChatCompletionChunkGenerator, b: ChatCompletionChunkGenerator) -> bool {
    a.prompt() == b.prompt() && a.fingerprint() == b.fingerprint()
}

impl ChunkGenerator for ChatCompletionChunkGenerator {
    type Chunk = ChatCompletionChunk;

    /// The tool call index counts modulo 2^32, and an argument update before
    /// any tool call names index 2^32 - 1, as a release build's arithmetic
    /// does.
    fn generate(&mut self, chunk: OutputChunk) -> (r: Vec<ChatCompletionChunk>)
        ensures
            generated(*old(self), chunk, *final(self), r@),
    {
        match chunk {
            OutputChunk::Start { system_fingerprint, usage } => {
                self.prompt_usage = usage;
                self.system_fingerprint = system_fingerprint;
                let delta = ChatCompletionMessageDelta {
                    role: Some(ChatCompletionRole::Assistant),
                    content: if self.thinking_mode { Some(None) } else { Some(Some(String::new())) },
                    reasoning_content: if self.thinking_mode { Some(Some(String::new())) } else { None },
                    tool_calls: None,
                };
                self.new_chunk(delta, None, None)
            },
            OutputChunk::Raw { content } => {
                let delta = ChatCompletionMessageDelta {
                    role: None,
                    content: Some(Some(content)),
                    reasoning_content: if self.thinking_mode { Some(None) } else { None },
                    tool_calls: None,
                };
                self.new_chunk(delta, None, None)
            },
            OutputChunk::Reasoning { content } => {
                let delta = ChatCompletionMessageDelta {
                    role: None,
                    content: Some(None),
                    reasoning_content: Some(Some(content)),
                    tool_calls: None,
                };
                self.new_chunk(delta, None, None)
            },
            OutputChunk::ToolCallBegin => Vec::new(),
            OutputChunk::ToolCall { tool_name, arguments } => {
                let index = self.tool_call_index;
                let id = self.tool_call_id(index);
                let mut calls: Vec<ChatCompletionToolCallDelta> = Vec::new();
                calls.push(ChatCompletionToolCallDelta::Start {
                    index,
                    call: ChatCompletionResponseToolCall {
                        id,
                        tool_type: ChatCompletionToolCallType::Function,
                        function: ChatCompletionResponseFunctionCall { name: tool_name, arguments },
                    },
                });
                assert(tool_deltas_view(calls@) =~= seq![tool_delta_view(calls@[0])]);
                let delta = ChatCompletionMessageDelta { role: None, content: None, reasoning_content: None, tool_calls: Some(calls) };
                let r = self.new_chunk(delta, None, None);
                self.tool_call_index = index.wrapping_add(1);
                r
            },
            OutputChunk::ToolArgumentsDelta { content } => {
                let mut calls: Vec<ChatCompletionToolCallDelta> = Vec::new();
                calls.push(ChatCompletionToolCallDelta::Arguments {
                    index: self.tool_call_index.wrapping_sub(1),
                    function: ChatCompletionFunctionArgumentsDelta { arguments: content },
                });
                assert(tool_deltas_view(calls@) =~= seq![tool_delta_view(calls@[0])]);
                let delta = ChatCompletionMessageDelta { role: None, content: None, reasoning_content: None, tool_calls: Some(calls) };
                self.new_chunk(delta, None, None)
            },
            OutputChunk::Finish { reason, usage, .. } => {
                let delta = ChatCompletionMessageDelta {
                    role: None,
                    content: Some(Some(String::new())),
                    reasoning_content: if self.thinking_mode { Some(None) } else { None },
                    tool_calls: None,
                };
                let u = ChatCompletionUsage::from((self.prompt_usage, usage));
                self.new_chunk(delta, Some(ChatCompletionFinishReason::from(reason)), Some(u))
            },
        }
    }
}

impl ChatCompletionResponse {
    /// Construct a response with caller-supplied identity. Token counts are
    /// reported by the final chunk.
    pub fn new(id: String, model: String, created: u64, prompt_tokens: usize, prompt_cache_hit_tokens: usize) -> (r: ChatCompletionResponse)
        ensures
            r.id == id,
            r.model == model,
            r.created == created,
            r.object@ == CHAT_COMPLETION_OBJECT@,
            r.system_fingerprint is None,
            r.choices@.len() == 0,
            r.usage is None,
    {
        ChatCompletionResponse {
            id,
            object: CHAT_COMPLETION_OBJECT,
            created,
            model,
            system_fingerprint: None,
            choices: Vec::new(),
            usage: None,
        }
    }

    /// The final transport sentinel of a stream.
    pub fn done_message() -> (r: Option<String>)
        ensures
            r matches Some(s) && s@ == "[DONE]"@,
    {
        Some("[DONE]".to_string())
    }
}

/// Construct protocol events using the converted request's resolved
/// settings: usage is included in the chunks of a non-streaming request.
pub fn chunk_generator(request: &ConversationRequest, id: String, model: String) -> (r: ChatCompletionChunkGenerator)
    ensures
        r.id_view() == id@,
        r.model_view() == model@,
        r.with_usage() == !request.stream,
        r.thinking() == request.conversation.thinking_mode,
        r.next_tool_index() == 0,
        r.fingerprint() is None,
{
    ChatCompletionChunkGenerator::new(id, model, !request.stream, request.conversation.thinking_mode)
}


impl crate::response::ProtocolResponse for ChatCompletionResponse {
    type ChunkGenerator = ChatCompletionChunkGenerator;

    fn new(id: String, model: String, created: u64, prompt_tokens: usize, prompt_cache_hit_tokens: usize) -> (r: ChatCompletionResponse)
        ensures
            r.id == id,
            r.model == model,
            r.created == created,
            r.object@ == CHAT_COMPLETION_OBJECT@,
            r.system_fingerprint is None,
            r.choices@.len() == 0,
            r.usage is None,
    {
        ChatCompletionResponse::new(id, model, created, prompt_tokens, prompt_cache_hit_tokens)
    }

    fn done_message() -> (r: Option<String>)
        ensures
            r matches Some(s) && s@ == "[DONE]"@,
    {
        ChatCompletionResponse::done_message()
    }
}


// ---------------------------------------------------------------------------
// Laws

/// The text of the answer chunks among `chunks`, in order.
pub open spec fn answer_text(chunks: Seq<OutputChunk>) -> Seq<char>
    decreases chunks.len(),
{
    if chunks.len() == 0 {
        Seq::empty()
    } else {
        answer_text(chunks.drop_last()) + match chunks.last() {
            OutputChunk::Raw { content } => content@,
            _ => Seq::empty(),
        }
    }
}

/// The text of the reasoning chunks among `chunks`, in order.
pub open spec fn reasoning_text(chunks: Seq<OutputChunk>) -> Seq<char>
    decreases chunks.len(),
{
    if chunks.len() == 0 {
        Seq::empty()
    } else {
        reasoning_text(chunks.drop_last()) + match chunks.last() {
            OutputChunk::Reasoning { content } => content@,
            _ => Seq::empty(),
        }
    }
}

/// Whether an answer chunk or the finish is among `chunks`.
pub open spec fn answers(chunks: Seq<OutputChunk>) -> bool {
    exists|i: int| 0 <= i < chunks.len() && (#[trigger] chunks[i] is Raw || chunks[i] is Finish)
}

/// Whether a reasoning chunk is among `chunks`.
pub open spec fn reasons(chunks: Seq<OutputChunk>) -> bool {
    exists|i: int| 0 <= i < chunks.len() && #[trigger] chunks[i] is Reasoning
}

/// The response after the chunks one output chunk produced: unchanged for
/// none, the chunk appended for one.
pub open spec fn accumulated_step(before: ChatCompletionResponse, events: Seq<ChatCompletionChunk>, after: ChatCompletionResponse) -> bool {
    ||| events.len() == 0 && after == before
    ||| events.len() == 1 && appended(before, events[0], after)
}

/// The message the accumulated stream holds after the first `n` output
/// chunks: in thinking mode the answer starts empty at the first answer
/// chunk or the finish, and the reasoning at the start; otherwise the
/// answer starts at the start and the reasoning at the first reasoning
/// chunk.
pub open spec fn streamed_message(thinking: bool, chunks: Seq<OutputChunk>) -> (Option<Seq<char>>, Option<Seq<char>>) {
    (
        if !thinking || answers(chunks) {
            Some(answer_text(chunks))
        } else {
            None
        },
        if thinking || reasons(chunks) {
            Some(reasoning_text(chunks))
        } else {
            None
        },
    )
}

/// One accumulated chunk of the stream's only choice updates that choice.
proof fn lemma_single_choice_step(
    before: ChatCompletionResponse,
    c: ChatCompletionChunk,
    after: ChatCompletionResponse,
    g: ChatCompletionChunkGenerator,
    d: DeltaView,
    finish: Option<ChatCompletionFinishReason>,
    usage: Option<ChatCompletionUsage>,
)
    requires
        appended(before, c, after),
        chunk_made(g, c, d, finish, usage),
    ensures
        choices_view(after.choices@) == apply_chunk_choice(choices_view(before.choices@), 0, d, finish),
{
    reveal_with_fuel(apply_chunk_choices, 2);
}

/// A chunk choice for index 0 updates the only choice, which has index 0.
proof fn lemma_only_choice(choices: Seq<ChoiceView>)
    requires
        choices.len() == 1,
        choices[0].index == 0,
    ensures
        forall|d: DeltaView, f: Option<ChatCompletionFinishReason>|
            #[trigger] apply_chunk_choice(choices, 0, d, f) == seq![apply_to_choice(choices[0], d, f)],
{
    assert(choices.drop_last() =~= Seq::<ChoiceView>::empty());
    assert(find_choice(choices.drop_last(), 0) is None);
    assert(find_choice(choices, 0) == Some(0int));
    assert forall|d: DeltaView, f: Option<ChatCompletionFinishReason>|
        #[trigger] apply_chunk_choice(choices, 0, d, f) == seq![apply_to_choice(choices[0], d, f)] by {
        assert(choices.update(0, apply_to_choice(choices[0], d, f)) =~= seq![apply_to_choice(choices[0], d, f)]);
    }
}

/// A prefix without answer chunks has no answer text, and one without
/// reasoning chunks has no reasoning text.
proof fn lemma_silent_text(p: Seq<OutputChunk>)
    ensures
        !answers(p) ==> answer_text(p) =~= Seq::<char>::empty(),
        !reasons(p) ==> reasoning_text(p) =~= Seq::<char>::empty(),
    decreases p.len(),
{
    if p.len() > 0 {
        let q = p.drop_last();
        lemma_silent_text(q);
        lemma_push(q, p.last());
        assert(q.push(p.last()) =~= p);
    }
}

/// Adding a chunk to a prefix adds its text and may begin a part.
proof fn lemma_push(p: Seq<OutputChunk>, c: OutputChunk)
    ensures
        p.push(c).drop_last() == p,
        p.push(c).last() == c,
        answers(p.push(c)) == (answers(p) || c is Raw || c is Finish),
        reasons(p.push(c)) == (reasons(p) || c is Reasoning),
{
    let t = p.push(c);
    assert(t.drop_last() =~= p);
    if answers(t) {
        let i = choose|i: int| 0 <= i < t.len() && (#[trigger] t[i] is Raw || t[i] is Finish);
        if i < p.len() {
            assert(p[i] == t[i]);
        }
    }
    if answers(p) {
        let i = choose|i: int| 0 <= i < p.len() && (#[trigger] p[i] is Raw || p[i] is Finish);
        assert(t[i] == p[i]);
    }
    if c is Raw || c is Finish {
        assert(t[p.len() as int] == c);
    }
    if reasons(t) {
        let i = choose|i: int| 0 <= i < t.len() && #[trigger] t[i] is Reasoning;
        if i < p.len() {
            assert(p[i] == t[i]);
        }
    }
    if reasons(p) {
        let i = choose|i: int| 0 <= i < p.len() && #[trigger] p[i] is Reasoning;
        assert(t[i] == p[i]);
    }
    if c is Reasoning {
        assert(t[p.len() as int] == c);
    }
}

/// The single choice of an accumulated stream after one more output chunk,
/// other than the start.
#[verifier::rlimit(40)]
proof fn lemma_stream_step(
    g: ChatCompletionChunkGenerator,
    chunk: OutputChunk,
    g2: ChatCompletionChunkGenerator,
    ev: Seq<ChatCompletionChunk>,
    r0: ChatCompletionResponse,
    r1: ChatCompletionResponse,
    prefix: Seq<OutputChunk>,
)
    requires
        generated(g, chunk, g2, ev),
        accumulated_step(r0, ev, r1),
        !(chunk is Start),
        choices_view(r0.choices@).len() == 1,
        choices_view(r0.choices@)[0].index == 0,
        (choices_view(r0.choices@)[0].message.content, choices_view(r0.choices@)[0].message.reasoning_content)
            == streamed_message(g.thinking(), prefix),
    ensures
        g2.thinking() == g.thinking(),
        choices_view(r1.choices@).len() == 1,
        choices_view(r1.choices@)[0].index == 0,
        (choices_view(r1.choices@)[0].message.content, choices_view(r1.choices@)[0].message.reasoning_content)
            == streamed_message(g.thinking(), prefix.push(chunk)),
{
    lemma_push(prefix, chunk);
    lemma_silent_text(prefix);
    let before = choices_view(r0.choices@);
    lemma_only_choice(before);
    let prev = streamed_message(g.thinking(), prefix);
    match chunk {
        OutputChunk::Raw { content } => {
            lemma_single_choice_step(r0, ev[0], r1, g, text_delta(Some(Some(content@)), reasoning_null(g.thinking())), None, None);
            assert(answer_text(prefix.push(chunk)) =~= answer_text(prefix) + content@);
            assert(reasoning_text(prefix.push(chunk)) =~= reasoning_text(prefix));
        },
        OutputChunk::Reasoning { content } => {
            lemma_single_choice_step(r0, ev[0], r1, g, text_delta(Some(None), Some(Some(content@))), None, None);
            assert(reasoning_text(prefix.push(chunk)) =~= reasoning_text(prefix) + content@);
            assert(answer_text(prefix.push(chunk)) =~= answer_text(prefix));
        },
        OutputChunk::ToolCall { tool_name, arguments } => {
            let d = DeltaView {
                role: None,
                content: None,
                reasoning_content: None,
                tool_calls: Some(
                    seq![
                        ToolDeltaView::Start {
                            index: g.next_tool_index(),
                            call: CallView {
                                id: tool_call_id_of(g.id_view(), g.next_tool_index()),
                                name: tool_name@,
                                arguments: arguments@,
                            },
                        },
                    ],
                ),
            };
            lemma_single_choice_step(r0, ev[0], r1, g, d, None, None);
            assert(answer_text(prefix.push(chunk)) =~= answer_text(prefix));
            assert(reasoning_text(prefix.push(chunk)) =~= reasoning_text(prefix));
        },
        OutputChunk::ToolArgumentsDelta { content } => {
            let d = DeltaView {
                role: None,
                content: None,
                reasoning_content: None,
                tool_calls: Some(seq![ToolDeltaView::Arguments { index: g.next_tool_index().wrapping_sub(1), arguments: content@ }]),
            };
            lemma_single_choice_step(r0, ev[0], r1, g, d, None, None);
            assert(answer_text(prefix.push(chunk)) =~= answer_text(prefix));
            assert(reasoning_text(prefix.push(chunk)) =~= reasoning_text(prefix));
        },
        OutputChunk::ToolCallBegin => {
            assert(answer_text(prefix.push(chunk)) =~= answer_text(prefix));
            assert(reasoning_text(prefix.push(chunk)) =~= reasoning_text(prefix));
        },
        OutputChunk::Finish { reason, usage, .. } => {
            lemma_single_choice_step(
                r0,
                ev[0],
                r1,
                g,
                text_delta(Some(Some(Seq::empty())), reasoning_null(g.thinking())),
                Some(finish_reason_of(reason)),
                Some(usage_of(g.prompt(), usage)),
            );
            assert(answer_text(prefix.push(chunk)) =~= answer_text(prefix));
            assert(reasoning_text(prefix.push(chunk)) =~= reasoning_text(prefix));
            match prev.0 {
                Some(t) => assert(t + Seq::<char>::empty() =~= t),
                None => {},
            }
        },
        OutputChunk::Start { .. } => {},
    }
}

/// The single choice of an accumulated stream after its start.
proof fn lemma_stream_start(
    g: ChatCompletionChunkGenerator,
    chunk: OutputChunk,
    g2: ChatCompletionChunkGenerator,
    ev: Seq<ChatCompletionChunk>,
    r0: ChatCompletionResponse,
    r1: ChatCompletionResponse,
)
    requires
        generated(g, chunk, g2, ev),
        accumulated_step(r0, ev, r1),
        chunk is Start,
        r0.choices@.len() == 0,
    ensures
        g2.thinking() == g.thinking(),
        choices_view(r1.choices@).len() == 1,
        choices_view(r1.choices@)[0].index == 0,
        (choices_view(r1.choices@)[0].message.content, choices_view(r1.choices@)[0].message.reasoning_content)
            == streamed_message(g.thinking(), seq![chunk]),
{
    let thinking = g.thinking();
    let d = DeltaView {
        role: Some(ChatCompletionRole::Assistant),
        content: if thinking { Some(None) } else { Some(Some(Seq::empty())) },
        reasoning_content: if thinking { Some(Some(Seq::empty())) } else { None },
        tool_calls: None,
    };
    lemma_single_choice_step(r0, ev[0], r1, g2, d, None, None);
    assert(choices_view(r0.choices@) =~= Seq::<ChoiceView>::empty());
    lemma_push(Seq::empty(), chunk);
    assert(Seq::<OutputChunk>::empty().push(chunk) =~= seq![chunk]);
    assert(seq![chunk].drop_last() =~= Seq::<OutputChunk>::empty());
    assert(seq![chunk].last() == chunk);
    assert(answer_text(Seq::<OutputChunk>::empty()) =~= Seq::<char>::empty());
    assert(reasoning_text(Seq::<OutputChunk>::empty()) =~= Seq::<char>::empty());
    assert(answer_text(seq![chunk]) =~= Seq::<char>::empty());
    assert(reasoning_text(seq![chunk]) =~= Seq::<char>::empty());
}

/// The accumulation after the first `n` output chunks holds one choice with
/// the streamed message.
proof fn lemma_stream_prefix(
    gs: Seq<ChatCompletionChunkGenerator>,
    chunks: Seq<OutputChunk>,
    events: Seq<Seq<ChatCompletionChunk>>,
    rs: Seq<ChatCompletionResponse>,
    n: int,
)
    requires
        1 <= n <= chunks.len(),
        chunks[0] is Start,
        forall|i: int| 1 <= i < chunks.len() ==> !(#[trigger] chunks[i] is Start),
        gs.len() == chunks.len() + 1,
        events.len() == chunks.len(),
        rs.len() == chunks.len() + 1,
        forall|i: int| 0 <= i < chunks.len() ==> generated(#[trigger] gs[i], chunks[i], gs[i + 1], events[i]),
        forall|i: int| 0 <= i < chunks.len() ==> accumulated_step(#[trigger] rs[i], events[i], rs[i + 1]),
        rs[0].choices@.len() == 0,
    ensures
        gs[n].thinking() == gs[0].thinking(),
        choices_view(rs[n].choices@).len() == 1,
        choices_view(rs[n].choices@)[0].index == 0,
        (choices_view(rs[n].choices@)[0].message.content, choices_view(rs[n].choices@)[0].message.reasoning_content)
            == streamed_message(gs[0].thinking(), chunks.take(n)),
    decreases n,
{
    if n == 1 {
        assert(generated(gs[0], chunks[0], gs[1], events[0]));
        assert(accumulated_step(rs[0], events[0], rs[1]));
        lemma_stream_start(gs[0], chunks[0], gs[1], events[0], rs[0], rs[1]);
        assert(chunks.take(1) =~= seq![chunks[0]]);
    } else {
        let k = n - 1;
        lemma_stream_prefix(gs, chunks, events, rs, k);
        assert(generated(gs[k], chunks[k], gs[k + 1], events[k]));
        assert(accumulated_step(rs[k], events[k], rs[k + 1]));
        assert(!(chunks[k] is Start));
        lemma_stream_step(gs[k], chunks[k], gs[k + 1], events[k], rs[k], rs[k + 1], chunks.take(k));
        assert(chunks.take(k).push(chunks[k]) =~= chunks.take(n));
    }
}

/// Streaming and accumulating agree: the chunks a generator makes of a
/// stream of output chunks that opens with its start, appended in order to
/// a response without choices, leave one choice whose content is the text
/// of the answer chunks and whose reasoning is the text of the reasoning
/// chunks, each present once its part of the stream has begun.
pub proof fn lemma_accumulated_stream_text(
    gs: Seq<ChatCompletionChunkGenerator>,
    chunks: Seq<OutputChunk>,
    events: Seq<Seq<ChatCompletionChunk>>,
    rs: Seq<ChatCompletionResponse>,
)
    requires
        chunks.len() > 0,
        chunks[0] is Start,
        forall|i: int| 1 <= i < chunks.len() ==> !(#[trigger] chunks[i] is Start),
        gs.len() == chunks.len() + 1,
        events.len() == chunks.len(),
        rs.len() == chunks.len() + 1,
        forall|i: int| 0 <= i < chunks.len() ==> generated(#[trigger] gs[i], chunks[i], gs[i + 1], events[i]),
        forall|i: int| 0 <= i < chunks.len() ==> accumulated_step(#[trigger] rs[i], events[i], rs[i + 1]),
        rs[0].choices@.len() == 0,
    ensures
        choices_view(rs.last().choices@).len() == 1,
        choices_view(rs.last().choices@)[0].index == 0,
        (choices_view(rs.last().choices@)[0].message.content, choices_view(rs.last().choices@)[0].message.reasoning_content)
            == streamed_message(gs[0].thinking(), chunks),
{
    lemma_stream_prefix(gs, chunks, events, rs, chunks.len() as int);
    assert(chunks.take(chunks.len() as int) =~= chunks);
}


/// Only the finish carries a usage value: the chunks of every other output
/// chunk carry none (or an explicit null), and the finish chunk carries the
/// usage of the prompt and of the completion.
pub proof fn lemma_usage_only_at_finish(
    g: ChatCompletionChunkGenerator,
    chunk: OutputChunk,
    after: ChatCompletionChunkGenerator,
    r: Seq<ChatCompletionChunk>,
)
    requires
        generated(g, chunk, after, r),
    ensures
        !(chunk is Finish) ==> forall|j: int| 0 <= j < r.len() ==> !(#[trigger] r[j].usage matches Some(Some(_))),
        chunk matches OutputChunk::Finish { usage, .. } ==> r.len() == 1 && r[0].usage == Some(
            Some(usage_of(g.prompt(), usage)),
        ),
{
}

/// The number of tool calls among `chunks`.
pub open spec fn tool_call_count(chunks: Seq<OutputChunk>) -> nat
    decreases chunks.len(),
{
    if chunks.len() == 0 {
        0
    } else {
        tool_call_count(chunks.drop_last()) + if chunks.last() is ToolCall { 1nat } else { 0nat }
    }
}

/// Tool calls are numbered one after another: over a stream from a
/// generator whose next tool index is 0, the tool call at position `k`
/// carries the index of the number of tool calls before it.
pub proof fn lemma_tool_call_indices(
    gs: Seq<ChatCompletionChunkGenerator>,
    chunks: Seq<OutputChunk>,
    events: Seq<Seq<ChatCompletionChunk>>,
    k: int,
)
    requires
        gs.len() == chunks.len() + 1,
        events.len() == chunks.len(),
        forall|i: int| 0 <= i < chunks.len() ==> generated(#[trigger] gs[i], chunks[i], gs[i + 1], events[i]),
        gs[0].next_tool_index() == 0,
        0 <= k < chunks.len(),
        chunks[k] is ToolCall,
        tool_call_count(chunks) <= u32::MAX,
    ensures
        gs[k].next_tool_index() == tool_call_count(chunks.take(k)),
        events[k].len() == 1,
        events[k][0].choices@.len() == 1,
        delta_view(events[k][0].choices@[0].delta).tool_calls matches Some(ds) && ds.len() == 1 && (ds[0] matches ToolDeltaView::Start {
            index,
            ..
        } && index == tool_call_count(chunks.take(k))),
{
    lemma_tool_index_prefix(gs, chunks, events, k);
    assert(generated(gs[k], chunks[k], gs[k + 1], events[k]));
}

proof fn lemma_tool_count_mono(chunks: Seq<OutputChunk>, k: int)
    requires
        0 <= k <= chunks.len(),
    ensures
        tool_call_count(chunks.take(k)) <= tool_call_count(chunks),
    decreases chunks.len() - k,
{
    if k < chunks.len() {
        lemma_tool_count_mono(chunks, k + 1);
        assert(chunks.take(k + 1).drop_last() =~= chunks.take(k));
    } else {
        assert(chunks.take(k) =~= chunks);
    }
}

proof fn lemma_tool_index_prefix(
    gs: Seq<ChatCompletionChunkGenerator>,
    chunks: Seq<OutputChunk>,
    events: Seq<Seq<ChatCompletionChunk>>,
    n: int,
)
    requires
        gs.len() == chunks.len() + 1,
        events.len() == chunks.len(),
        forall|i: int| 0 <= i < chunks.len() ==> generated(#[trigger] gs[i], chunks[i], gs[i + 1], events[i]),
        gs[0].next_tool_index() == 0,
        0 <= n <= chunks.len(),
        tool_call_count(chunks) <= u32::MAX,
    ensures
        gs[n].next_tool_index() == tool_call_count(chunks.take(n)),
    decreases n,
{
    if n == 0 {
        assert(chunks.take(0) =~= Seq::<OutputChunk>::empty());
    } else {
        lemma_tool_index_prefix(gs, chunks, events, n - 1);
        assert(generated(gs[n - 1], chunks[n - 1], gs[n], events[n - 1]));
        assert(chunks.take(n).drop_last() =~= chunks.take(n - 1));
        assert(chunks.take(n).last() == chunks[n - 1]);
        lemma_tool_count_mono(chunks, n);
    }
}


/// Each finish reason has its own protocol reason: an output cut at the
/// length limit is reported as `length`, tool calls as `tool_calls`, a
/// filtered output as `content_filter`, and only an ordinary end (a stop, a
/// stop sequence, or the end of the stream) as `stop`.
pub proof fn lemma_finish_reason_kinds(reason: FinishReason)
    ensures
        finish_reason_of(reason) is Length <==> reason is Length,
        finish_reason_of(reason) is ToolCalls <==> reason is ToolCalls,
        finish_reason_of(reason) is ContentFilter <==> reason is ContentFilter,
        finish_reason_of(reason) is Stop <==> (reason is Stop || reason is StopSequence || reason is EndOfStream),
        !(finish_reason_of(reason) is InsufficientSystemResource) && !(finish_reason_of(reason) is Aborted),
{
}

/// The finish chunk of a stream reports why the output ended: a stream
/// that finishes at the length limit ends with a chunk whose reason is
/// `length`, one that finishes with tool calls with `tool_calls`, a filtered
/// one with `content_filter`, and any other with `stop`.
pub proof fn lemma_finish_chunk_reason(
    g: ChatCompletionChunkGenerator,
    reason: FinishReason,
    stop_sequence: Option<String>,
    usage: CompletionUsage,
    after: ChatCompletionChunkGenerator,
    r: Seq<ChatCompletionChunk>,
)
    requires
        generated(g, OutputChunk::Finish { reason, stop_sequence, usage }, after, r),
    ensures
        r.len() == 1,
        r[0].choices@.len() == 1,
        r[0].choices@[0].finish_reason matches Some(f) && {
            &&& (f is Length <==> reason is Length)
            &&& (f is ToolCalls <==> reason is ToolCalls)
            &&& (f is ContentFilter <==> reason is ContentFilter)
            &&& (f is Stop <==> (reason is Stop || reason is StopSequence || reason is EndOfStream))
        },
{
    lemma_finish_reason_kinds(reason);
}

} // verus!
