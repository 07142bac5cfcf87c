//! Generating OpenAI Responses stream events from parsed output.

use vstd::prelude::*;

use crate::conversation::opt_view;
use crate::custom_tool_input::{ParserView, ResponsesCustomToolInputParser, feed_spec};
use crate::request::ConversationRequest;
use crate::responses_response::{
    EventView, ItemView, PartView, ResponseView, ResponsesContentPart, ResponsesIncompleteDetails,
    ResponsesIncompleteReason, ResponsesOutputItem, ResponsesPhase, ResponsesResponse, ResponsesRole, ResponsesStatus,
    ResponsesStreamEvent, ResponsesUsage, event_name, event_view, item_id_of, item_view, items_view, part_view, parts_view,
    response_view, usage_of, with_item, with_parts,
};
use crate::stream::{ChunkGenerator, FinishReason, OutputChunk, PromptUsage};
use crate::text::{append_chars, append_str, chars_of, concat, decimal, decimal_chars, string_of, strings_view};

verus! {

// ---------------------------------------------------------------------------
// Copies

/// Returns a copy of a content part with the same value.
pub fn duplicate_part(p: &ResponsesContentPart) -> (r: ResponsesContentPart)
    ensures
        part_view(r) == part_view(*p),
{
    match p {
        ResponsesContentPart::OutputText { annotations, logprobs, text } => ResponsesContentPart::OutputText {
            annotations: units(annotations.len()),
            logprobs: units(logprobs.len()),
            text: text.clone(),
        },
        ResponsesContentPart::ReasoningText { text } => ResponsesContentPart::ReasoningText { text: text.clone() },
    }
}

/// Returns `n` units.
fn units(n: usize) -> (r: Vec<()>)
    ensures
        r@.len() == n,
{
    let mut v: Vec<()> = Vec::new();
    let mut i: usize = 0;
    while i < n
        invariant
            i <= n,
            v@.len() == i,
        decreases n - i,
    {
        v.push(());
        i += 1;
    }
    v
}

/// Returns a copy of a list of content parts with the same values.
pub fn duplicate_parts(ps: &Vec<ResponsesContentPart>) -> (r: Vec<ResponsesContentPart>)
    ensures
        parts_view(r@) == parts_view(ps@),
{
    let mut out: Vec<ResponsesContentPart> = Vec::new();
    let mut i: usize = 0;
    while i < ps.len()
        invariant
            i <= ps@.len(),
            parts_view(out@) == parts_view(ps@).take(i as int),
        decreases ps@.len() - i,
    {
        let ghost before = parts_view(out@);
        out.push(duplicate_part(&ps[i]));
        assert(parts_view(out@) =~= before.push(part_view(ps@[i as int])));
        assert(parts_view(ps@).take(i + 1) =~= parts_view(ps@).take(i as int).push(part_view(ps@[i as int])));
        i += 1;
    }
    assert(parts_view(ps@).take(ps@.len() as int) =~= parts_view(ps@));
    out
}

/// Returns a copy of an output item with the same value.
pub fn duplicate_item(item: &ResponsesOutputItem) -> (r: ResponsesOutputItem)
    ensures
        item_view(r) == item_view(*item),
{
    match item {
        ResponsesOutputItem::Message { id, status, role, phase, content } => ResponsesOutputItem::Message {
            id: id.clone(),
            status: *status,
            role: *role,
            phase: *phase,
            content: duplicate_parts(content),
        },
        ResponsesOutputItem::Reasoning { id, status, content, summary } => ResponsesOutputItem::Reasoning {
            id: id.clone(),
            status: *status,
            content: duplicate_parts(content),
            summary: units(summary.len()),
        },
        ResponsesOutputItem::FunctionCall { id, status, call_id, name, namespace, arguments } => ResponsesOutputItem::FunctionCall {
            id: id.clone(),
            status: *status,
            call_id: call_id.clone(),
            name: name.clone(),
            namespace: crate::conversation::duplicate_opt(namespace),
            arguments: arguments.clone(),
        },
        ResponsesOutputItem::CustomToolCall { id, status, call_id, name, input } => ResponsesOutputItem::CustomToolCall {
            id: id.clone(),
            status: *status,
            call_id: call_id.clone(),
            name: name.clone(),
            input: input.clone(),
        },
    }
}

/// Returns a copy of a response with the same value.
pub fn duplicate_response(r: &ResponsesResponse) -> (c: ResponsesResponse)
    ensures
        response_view(c) == response_view(*r),
{
    let mut output: Vec<ResponsesOutputItem> = Vec::new();
    let mut i: usize = 0;
    while i < r.output.len()
        invariant
            i <= r.output@.len(),
            items_view(output@) == items_view(r.output@).take(i as int),
        decreases r.output@.len() - i,
    {
        let ghost before = items_view(output@);
        output.push(duplicate_item(&r.output[i]));
        assert(items_view(output@) =~= before.push(item_view(r.output@[i as int])));
        assert(items_view(r.output@).take(i + 1) =~= items_view(r.output@).take(i as int).push(item_view(r.output@[i as int])));
        i += 1;
    }
    assert(items_view(r.output@).take(r.output@.len() as int) =~= items_view(r.output@));
    let error = match &r.error {
        Some(e) => Some(crate::responses_response::ResponsesError { code: e.code.clone(), message: e.message.clone() }),
        None => None,
    };
    ResponsesResponse {
        id: r.id.clone(),
        object: r.object,
        created_at: r.created_at,
        model: r.model.clone(),
        status: r.status,
        completed_at: r.completed_at,
        error,
        incomplete_details: r.incomplete_details,
        output,
        usage: r.usage,
    }
}

// ---------------------------------------------------------------------------
// Generator state

/// A generated event: its name, its value and its sequence number.
pub struct GenEvent {
    pub name: Seq<char>,
    pub body: EventView,
    pub seq: usize,
}

/// The sequence number of an event.
pub open spec fn seq_of(e: ResponsesStreamEvent) -> usize {
    match e {
        ResponsesStreamEvent::Created { sequence_number, .. } => sequence_number,
        ResponsesStreamEvent::InProgress { sequence_number, .. } => sequence_number,
        ResponsesStreamEvent::OutputItemAdded { sequence_number, .. } => sequence_number,
        ResponsesStreamEvent::ContentPartAdded { sequence_number, .. } => sequence_number,
        ResponsesStreamEvent::OutputTextDelta { sequence_number, .. } => sequence_number,
        ResponsesStreamEvent::OutputTextDone { sequence_number, .. } => sequence_number,
        ResponsesStreamEvent::ReasoningTextDelta { sequence_number, .. } => sequence_number,
        ResponsesStreamEvent::ReasoningTextDone { sequence_number, .. } => sequence_number,
        ResponsesStreamEvent::FunctionCallArgumentsDelta { sequence_number, .. } => sequence_number,
        ResponsesStreamEvent::FunctionCallArgumentsDone { sequence_number, .. } => sequence_number,
        ResponsesStreamEvent::CustomToolCallInputDelta { sequence_number, .. } => sequence_number,
        ResponsesStreamEvent::CustomToolCallInputDone { sequence_number, .. } => sequence_number,
        ResponsesStreamEvent::ContentPartDone { sequence_number, .. } => sequence_number,
        ResponsesStreamEvent::OutputItemDone { sequence_number, .. } => sequence_number,
        ResponsesStreamEvent::Completed { sequence_number, .. } => sequence_number,
        ResponsesStreamEvent::Incomplete { sequence_number, .. } => sequence_number,
    }
}

/// The value of a generated event.
pub open spec fn gen_event(e: ResponsesStreamEvent) -> GenEvent {
    GenEvent { name: event_name(e), body: event_view(e), seq: seq_of(e) }
}

/// The values of generated events.
pub open spec fn gen_events(es: Seq<ResponsesStreamEvent>) -> Seq<GenEvent> {
    Seq::new(es.len(), |i: int| gen_event(es[i]))
}

/// The value of a generator's state.
pub struct GenState {
    pub response: ResponseView,
    pub active: Option<usize>,
    pub seq: usize,
    pub tool_call_index: usize,
    pub custom_tool_names: Seq<Seq<char>>,
    pub parser: Option<ParserView>,
    pub prompt_usage: PromptUsage,
    pub started: bool,
    pub finished: bool,
}

/// The next sequence number.
pub open spec fn next(s: usize) -> usize {
    s.wrapping_add(1)
}

/// An item with its status replaced.
pub open spec fn with_status(item: ItemView, status: ResponsesStatus) -> ItemView {
    match item {
        ItemView::Message { id, role, phase, content, .. } => ItemView::Message { id, status, role, phase, content },
        ItemView::Reasoning { id, content, summary, .. } => ItemView::Reasoning { id, status, content, summary },
        ItemView::FunctionCall { id, call_id, name, namespace, arguments, .. } => ItemView::FunctionCall {
            id,
            status,
            call_id,
            name,
            namespace,
            arguments,
        },
        ItemView::CustomToolCall { id, call_id, name, input, .. } => ItemView::CustomToolCall { id, status, call_id, name, input },
    }
}

/// The text of the first part of a message or reasoning item after a
/// delta.
pub open spec fn with_first_text(item: ItemView, delta: Seq<char>) -> ItemView {
    match item {
        ItemView::Message { content, .. } => with_parts(item, content.update(0, extend_part(content[0], delta))),
        ItemView::Reasoning { content, .. } => with_parts(item, content.update(0, extend_part(content[0], delta))),
        _ => item,
    }
}

/// A part with its text extended by `delta`.
pub open spec fn extend_part(p: PartView, delta: Seq<char>) -> PartView {
    match p {
        PartView::OutputText { annotations, logprobs, text } => PartView::OutputText { annotations, logprobs, text: text + delta },
        PartView::ReasoningText { text } => PartView::ReasoningText { text: text + delta },
    }
}

/// Appending custom tool input `delta` to the item at `idx`, with its event.
pub open spec fn append_custom_spec(st: GenState, idx: usize, delta: Seq<char>) -> (GenState, Seq<GenEvent>) {
    if delta.len() == 0 || idx >= st.response.output.len() {
        (st, Seq::empty())
    } else {
        match st.response.output[idx as int] {
            ItemView::CustomToolCall { id, status, call_id, name, input } => (
                GenState {
                    response: with_item(st.response, idx, ItemView::CustomToolCall { id, status, call_id, name, input: input + delta }),
                    seq: next(st.seq),
                    ..st
                },
                seq![
                    GenEvent {
                        name: "response.custom_tool_call_input.delta"@,
                        body: EventView::CustomToolCallInputDelta(delta, id, idx),
                        seq: st.seq,
                    },
                ],
            ),
            _ => (st, Seq::empty()),
        }
    }
}

/// The done events of the first `n` parts of item `id` at `idx`, from
/// sequence number `s`, with the next sequence number.
pub open spec fn parts_done(id: Seq<char>, idx: usize, parts: Seq<PartView>, n: int, s: usize) -> (Seq<GenEvent>, usize)
    decreases n,
{
    if n <= 0 {
        (Seq::empty(), s)
    } else {
        let (evs, s1) = parts_done(id, idx, parts, n - 1, s);
        let k = (n - 1) as usize;
        let part = parts[n - 1];
        let done = match part {
            PartView::OutputText { logprobs, text, .. } => GenEvent {
                name: "response.output_text.done"@,
                body: EventView::OutputTextDone(k, id, logprobs, idx, text),
                seq: s1,
            },
            PartView::ReasoningText { text } => GenEvent {
                name: "response.reasoning_text.done"@,
                body: EventView::ReasoningTextDone(k, id, idx, text),
                seq: s1,
            },
        };
        (
            evs.push(done).push(
                GenEvent { name: "response.content_part.done"@, body: EventView::ContentPartDone(k, id, idx, part), seq: next(s1) },
            ),
            next(next(s1)),
        )
    }
}

/// Closing the active item with `status`: a custom tool input parser gives
/// up its unfinished text, and done events carry the final values.
pub open spec fn close_spec(st: GenState, status: ResponsesStatus) -> (GenState, Seq<GenEvent>) {
    match st.active {
        None => (st, Seq::empty()),
        Some(idx) => {
            let st1 = GenState { active: None, parser: None, ..st };
            let (st2, e1) = match st.parser {
                Some(p) => append_custom_spec(st1, idx, p.prefix + p.escape),
                None => (st1, Seq::empty()),
            };
            if idx >= st2.response.output.len() {
                (st2, e1)
            } else {
                let item = with_status(st2.response.output[idx as int], status);
                let st3 = GenState { response: with_item(st2.response, idx, item), ..st2 };
                let (e2, s2) = match item {
                    ItemView::Message { id, content, .. } => parts_done(id, idx, content, content.len() as int, st3.seq),
                    ItemView::Reasoning { id, content, .. } => parts_done(id, idx, content, content.len() as int, st3.seq),
                    ItemView::FunctionCall { id, arguments, .. } => (
                        seq![
                            GenEvent {
                                name: "response.function_call_arguments.done"@,
                                body: EventView::FunctionCallArgumentsDone(arguments, id, idx),
                                seq: st3.seq,
                            },
                        ],
                        next(st3.seq),
                    ),
                    ItemView::CustomToolCall { id, input, .. } => (
                        seq![
                            GenEvent {
                                name: "response.custom_tool_call_input.done"@,
                                body: EventView::CustomToolCallInputDone(input, id, idx),
                                seq: st3.seq,
                            },
                        ],
                        next(st3.seq),
                    ),
                };
                (
                    GenState { seq: next(s2), ..st3 },
                    e1 + e2.push(GenEvent { name: "response.output_item.done"@, body: EventView::OutputItemDone(item, idx), seq: s2 }),
                )
            }
        },
    }
}

/// Opening `item` at the end of the output: the added event shows the item
/// without its last part, which follows in its own event.
pub open spec fn open_spec(st: GenState, item: ItemView) -> (GenState, Seq<GenEvent>) {
    let idx = st.response.output.len() as usize;
    let response = ResponseView { output: st.response.output.push(item), ..st.response };
    let parts = match item {
        ItemView::Message { content, .. } => content,
        ItemView::Reasoning { content, .. } => content,
        _ => Seq::empty(),
    };
    let has_part = (item is Message || item is Reasoning) && parts.len() > 0;
    let shown = if has_part {
        with_parts(item, parts.drop_last())
    } else {
        item
    };
    let added = GenEvent { name: "response.output_item.added"@, body: EventView::OutputItemAdded(shown, idx), seq: st.seq };
    if has_part {
        (
            GenState { response, active: Some(idx), seq: next(next(st.seq)), ..st },
            seq![
                added,
                GenEvent {
                    name: "response.content_part.added"@,
                    body: EventView::ContentPartAdded(0, item_id_of(item), idx, parts.last()),
                    seq: next(st.seq),
                },
            ],
        )
    } else {
        (GenState { response, active: Some(idx), seq: next(st.seq), ..st }, seq![added])
    }
}

/// The id of an output item: `prefix`, the response id, `_` and the output
/// index.
pub open spec fn item_id_for(prefix: Seq<char>, response_id: Seq<char>, idx: nat) -> Seq<char> {
    prefix + response_id + "_"@ + decimal(idx)
}

/// Appending answer or reasoning text: the active item of the same kind
/// continues, or a new item opens after the active one closes.
pub open spec fn append_text_spec(st: GenState, delta: Seq<char>, reasoning: bool) -> (GenState, Seq<GenEvent>) {
    let continues = match st.active {
        Some(i) => i < st.response.output.len() && (if reasoning {
            st.response.output[i as int] is Reasoning
        } else {
            st.response.output[i as int] is Message
        }),
        None => false,
    };
    let (st1, e1) = if continues {
        (st, Seq::empty())
    } else {
        let (s, e) = close_spec(st, ResponsesStatus::Completed);
        let idx = s.response.output.len();
        let item = if reasoning {
            ItemView::Reasoning {
                id: item_id_for("rs_"@, s.response.id, idx),
                status: ResponsesStatus::InProgress,
                content: seq![PartView::ReasoningText { text: Seq::empty() }],
                summary: 0,
            }
        } else {
            ItemView::Message {
                id: item_id_for("msg_"@, s.response.id, idx),
                status: ResponsesStatus::InProgress,
                role: ResponsesRole::Assistant,
                phase: ResponsesPhase::FinalAnswer,
                content: seq![PartView::OutputText { annotations: 0, logprobs: 0, text: Seq::empty() }],
            }
        };
        let (s2, e2) = open_spec(s, item);
        (s2, e + e2)
    };
    match st1.active {
        None => (st1, e1),
        Some(idx) => if idx >= st1.response.output.len() {
            (st1, e1)
        } else {
            let item = st1.response.output[idx as int];
            let parts = match item {
                ItemView::Message { content, .. } => content,
                ItemView::Reasoning { content, .. } => content,
                _ => Seq::empty(),
            };
            if !(item is Message || item is Reasoning) || parts.len() == 0 {
                (st1, e1)
            } else {
                let id = item_id_of(item);
                let ev = if reasoning {
                    GenEvent {
                        name: "response.reasoning_text.delta"@,
                        body: EventView::ReasoningTextDelta(0, delta, id, idx),
                        seq: st1.seq,
                    }
                } else {
                    GenEvent {
                        name: "response.output_text.delta"@,
                        body: EventView::OutputTextDelta(0, delta, id, 0, idx),
                        seq: st1.seq,
                    }
                };
                (
                    GenState {
                        response: with_item(st1.response, idx, with_first_text(item, delta)),
                        seq: next(st1.seq),
                        ..st1
                    },
                    e1.push(ev),
                )
            }
        },
    }
}

/// The position of the first `::` at or after `i`.
pub open spec fn separator_from(s: Seq<char>, i: int) -> Option<int>
    decreases s.len() - i,
{
    if i < 0 || i + 2 > s.len() {
        None
    } else if s[i] == ':' && s[i + 1] == ':' {
        Some(i)
    } else {
        separator_from(s, i + 1)
    }
}

/// The call id of tool call `index` of response `id`.
pub open spec fn call_id_for(response_id: Seq<char>, index: usize) -> Seq<char> {
    "call_"@ + response_id + "_"@ + decimal(index as nat)
}

/// A parser at the start of the arguments.
pub open spec fn initial_parser() -> ParserView {
    ParserView {
        state: crate::custom_tool_input::ResponsesCustomToolInputParserState::Prefix,
        prefix: Seq::empty(),
        prefix_part: 0,
        prefix_offset: 0,
        escape: Seq::empty(),
    }
}

/// A tool call: an answer message before it becomes commentary, the active
/// item closes, and a custom tool call or a function call opens. A function
/// name with `::` splits into namespace and name.
pub open spec fn tool_call_spec(st: GenState, tool_name: Seq<char>, arguments: Seq<char>) -> (GenState, Seq<GenEvent>) {
    let st0 = match st.active {
        Some(i) => if i < st.response.output.len() {
            match st.response.output[i as int] {
                ItemView::Message { id, status, role, content, .. } => GenState {
                    response: with_item(
                        st.response,
                        i,
                        ItemView::Message { id, status, role, phase: ResponsesPhase::Commentary, content },
                    ),
                    ..st
                },
                _ => st,
            }
        } else {
            st
        },
        None => st,
    };
    let (s1, e1) = close_spec(st0, ResponsesStatus::Completed);
    let idx = s1.response.output.len();
    let call_id = call_id_for(s1.response.id, s1.tool_call_index);
    let next_index = s1.tool_call_index.wrapping_add(1);
    if s1.custom_tool_names.contains(tool_name) {
        let (p, input) = feed_spec(initial_parser(), arguments, arguments.len() as int);
        let item = ItemView::CustomToolCall {
            id: item_id_for("ctc_"@, s1.response.id, idx),
            status: ResponsesStatus::InProgress,
            call_id,
            name: tool_name,
            input,
        };
        let (s2, e2) = open_spec(GenState { parser: Some(p), tool_call_index: next_index, ..s1 }, item);
        (s2, e1 + e2)
    } else {
        let (name, namespace) = match separator_from(tool_name, 0) {
            Some(k) => (tool_name.skip(k + 2), Some(tool_name.take(k))),
            None => (tool_name, None),
        };
        let item = ItemView::FunctionCall {
            id: item_id_for("fc_"@, s1.response.id, idx),
            status: ResponsesStatus::InProgress,
            call_id,
            name,
            namespace,
            arguments,
        };
        let (s2, e2) = open_spec(GenState { tool_call_index: next_index, ..s1 }, item);
        (s2, e1 + e2)
    }
}

/// An argument update: it extends the active function call, or feeds the
/// custom tool input parser of the active custom tool call.
pub open spec fn arguments_spec(st: GenState, content: Seq<char>) -> (GenState, Seq<GenEvent>) {
    match st.active {
        None => (st, Seq::empty()),
        Some(idx) => if idx < st.response.output.len() && st.response.output[idx as int] is FunctionCall {
            match st.response.output[idx as int] {
                ItemView::FunctionCall { id, status, call_id, name, namespace, arguments } => (
                    GenState {
                        response: with_item(
                            st.response,
                            idx,
                            ItemView::FunctionCall { id, status, call_id, name, namespace, arguments: arguments + content },
                        ),
                        seq: next(st.seq),
                        ..st
                    },
                    seq![
                        GenEvent {
                            name: "response.function_call_arguments.delta"@,
                            body: EventView::FunctionCallArgumentsDelta(content, id, idx),
                            seq: st.seq,
                        },
                    ],
                ),
                _ => (st, Seq::empty()),
            }
        } else {
            match st.parser {
                Some(p) => {
                    let (p2, delta) = feed_spec(p, content, content.len() as int);
                    append_custom_spec(GenState { parser: Some(p2), ..st }, idx, delta)
                },
                None => (st, Seq::empty()),
            }
        },
    }
}

/// The incomplete reason of a finish reason, if any.
pub open spec fn incomplete_reason_of(reason: FinishReason) -> Option<ResponsesIncompleteReason> {
    match reason {
        FinishReason::Length => Some(ResponsesIncompleteReason::MaxOutputTokens),
        FinishReason::ContentFilter => Some(ResponsesIncompleteReason::ContentFilter),
        _ => None,
    }
}

/// The finish of the output at time `now`: the response takes its status,
/// usage and completion time, the active item closes with the response
/// status, and the final response follows.
pub open spec fn finish_spec(st: GenState, reason: FinishReason, usage: crate::stream::CompletionUsage, now: u64) -> (GenState, Seq<GenEvent>) {
    let details = match incomplete_reason_of(reason) {
        Some(r) => Some(ResponsesIncompleteDetails { reason: r }),
        None => None,
    };
    let status = if details is Some {
        ResponsesStatus::Incomplete
    } else {
        ResponsesStatus::Completed
    };
    let r1 = ResponseView {
        incomplete_details: details,
        status,
        usage: Some(usage_of(st.prompt_usage, usage)),
        completed_at: Some(now),
        ..st.response
    };
    let (s2, e2) = close_spec(GenState { response: r1, ..st }, status);
    let name = if status == ResponsesStatus::Incomplete {
        "response.incomplete"@
    } else {
        "response.completed"@
    };
    (
        GenState { seq: next(s2.seq), finished: true, ..s2 },
        e2.push(GenEvent { name, body: EventView::Response(s2.response), seq: s2.seq }),
    )
}

/// The generator state after one parsed output chunk at time `now`, and
/// the events it emits. Chunks before the start or after the finish, and a
/// second start, are ignored.
pub open spec fn generate_spec(st: GenState, chunk: OutputChunk, now: u64) -> (GenState, Seq<GenEvent>) {
    if st.finished || (!st.started && !(chunk is Start)) {
        (st, Seq::empty())
    } else {
        match chunk {
            OutputChunk::Start { usage, .. } => if st.started {
                (st, Seq::empty())
            } else {
                (
                    GenState { started: true, prompt_usage: usage, seq: next(next(st.seq)), ..st },
                    seq![
                        GenEvent { name: "response.created"@, body: EventView::Response(st.response), seq: st.seq },
                        GenEvent { name: "response.in_progress"@, body: EventView::Response(st.response), seq: next(st.seq) },
                    ],
                )
            },
            OutputChunk::Raw { content } => append_text_spec(st, content@, false),
            OutputChunk::Reasoning { content } => append_text_spec(st, content@, true),
            OutputChunk::ToolCall { tool_name, arguments } => tool_call_spec(st, tool_name@, arguments@),
            OutputChunk::ToolArgumentsDelta { content } => arguments_spec(st, content@),
            OutputChunk::Finish { reason, usage, .. } => finish_spec(st, reason, usage, now),
            OutputChunk::ToolCallBegin => (st, Seq::empty()),
        }
    }
}

// ---------------------------------------------------------------------------
// Generator

/// Generate Responses events from one `Start` to `Finish` sequence.
/// Repeated starts and chunks outside this sequence are ignored. Argument
/// deltas extend only the active tool call. Custom tool output requires
/// `with_custom_tool_names`. Other tools retain their model names,
/// including flattened namespaces.
#[derive(Debug)]
pub struct ResponsesChunkGenerator {
    response: ResponsesResponse,
    active: Option<usize>,
    sequence_number: usize,
    tool_call_index: usize,
    custom_tool_names: Vec<String>,
    custom_tool_input: Option<ResponsesCustomToolInputParser>,
    prompt_usage: PromptUsage,
    started: bool,
    finished: bool,
}

/// Returns the id of an output item: `prefix`, the response id, `_` and
/// the output index.
fn item_id_exec(prefix: &str, response_id: &str, idx: usize) -> (r: String)
    ensures
        r@ == item_id_for(prefix@, response_id@, idx as nat),
{
    let mut out: Vec<char> = Vec::new();
    append_str(&mut out, prefix);
    append_str(&mut out, response_id);
    append_str(&mut out, "_");
    let d = decimal_chars(idx);
    append_chars(&mut out, d.as_slice());
    assert(out@ =~= item_id_for(prefix@, response_id@, idx as nat));
    string_of(out.as_slice())
}

/// Returns an item with its status replaced.
fn set_status(item: ResponsesOutputItem, status: ResponsesStatus) -> (r: ResponsesOutputItem)
    ensures
        item_view(r) == with_status(item_view(item), status),
{
    match item {
        ResponsesOutputItem::Message { id, role, phase, content, .. } => ResponsesOutputItem::Message { id, status, role, phase, content },
        ResponsesOutputItem::Reasoning { id, content, summary, .. } => ResponsesOutputItem::Reasoning { id, status, content, summary },
        ResponsesOutputItem::FunctionCall { id, call_id, name, namespace, arguments, .. } => ResponsesOutputItem::FunctionCall {
            id,
            status,
            call_id,
            name,
            namespace,
            arguments,
        },
        ResponsesOutputItem::CustomToolCall { id, call_id, name, input, .. } => ResponsesOutputItem::CustomToolCall {
            id,
            status,
            call_id,
            name,
            input,
        },
    }
}

/// Returns a part with its text extended by `delta`.
fn extend_part_exec(p: ResponsesContentPart, delta: &str) -> (r: ResponsesContentPart)
    ensures
        part_view(r) == extend_part(part_view(p), delta@),
{
    match p {
        ResponsesContentPart::OutputText { annotations, logprobs, text } => ResponsesContentPart::OutputText {
            annotations,
            logprobs,
            text: concat(text.as_str(), delta),
        },
        ResponsesContentPart::ReasoningText { text } => ResponsesContentPart::ReasoningText { text: concat(text.as_str(), delta) },
    }
}

/// Returns parts with the text of the first extended by `delta`.
fn extend_first(parts: Vec<ResponsesContentPart>, delta: &str) -> (r: Vec<ResponsesContentPart>)
    requires
        parts@.len() > 0,
    ensures
        parts_view(r@) == parts_view(parts@).update(0, extend_part(parts_view(parts@)[0], delta@)),
{
    let ghost pv = parts_view(parts@);
    let mut parts = parts;
    let first = parts.remove(0);
    parts.insert(0, extend_part_exec(first, delta));
    assert(parts_view(parts@) =~= pv.update(0, extend_part(pv[0], delta@)));
    parts
}

/// Returns the position of the first `::` at or after `i`.
fn separator_exec(s: &Vec<char>, i: usize) -> (r: Option<usize>)
    ensures
        match separator_from(s@, i as int) {
            Some(k) => r == Some(k as usize) && 0 <= k && k + 2 <= s@.len(),
            None => r is None,
        },
    decreases s@.len() - i,
{
    if i >= s.len() || s.len() - i < 2 {
        return None;
    }
    if s[i] == ':' && s[i + 1] == ':' {
        return Some(i);
    }
    separator_exec(s, i + 1)
}

impl ResponsesChunkGenerator {
    /// The value of the generator's state.
    pub closed spec fn state(&self) -> GenState {
        GenState {
            response: response_view(self.response),
            active: self.active,
            seq: self.sequence_number,
            tool_call_index: self.tool_call_index,
            custom_tool_names: strings_view(self.custom_tool_names@),
            parser: match self.custom_tool_input {
                Some(p) => Some(p.view_state()),
                None => None,
            },
            prompt_usage: self.prompt_usage,
            started: self.started,
            finished: self.finished,
        }
    }

    /// Use a unique response ID and public model name. Item and call IDs
    /// derive from the response ID and indices. The response is created at
    /// `created`.
    pub fn new_at(id: String, model: String, created: u64) -> (r: ResponsesChunkGenerator)
        ensures
            r.state() == (GenState {
                response: ResponseView {
                    id: id@,
                    object: "response"@,
                    created_at: created,
                    model: model@,
                    status: ResponsesStatus::InProgress,
                    completed_at: None,
                    error: None,
                    incomplete_details: None,
                    output: Seq::empty(),
                    usage: None,
                },
                active: None,
                seq: 0,
                tool_call_index: 0,
                custom_tool_names: Seq::empty(),
                parser: None,
                prompt_usage: PromptUsage { prompt_tokens: 0, prompt_cache_hit_tokens: 0 },
                started: false,
                finished: false,
            }),
    {
        let names: Vec<String> = Vec::new();
        assert(strings_view(names@) =~= Seq::<Seq<char>>::empty());
        ResponsesChunkGenerator {
            response: ResponsesResponse::new(id, model, created, 0, 0),
            active: None,
            sequence_number: 0,
            tool_call_index: 0,
            custom_tool_names: names,
            custom_tool_input: None,
            prompt_usage: PromptUsage { prompt_tokens: 0, prompt_cache_hit_tokens: 0 },
            started: false,
            finished: false,
        }
    }

    /// Use a unique response ID and public model name; the response is
    /// created now. Nothing is stated of the creation time.
    pub fn new(id: String, model: String) -> (r: ResponsesChunkGenerator)
        ensures
            r.state().response.id == id@,
            r.state().response.model == model@,
            r.state().response.output.len() == 0,
            !r.state().started && !r.state().finished,
            r.state().seq == 0 && r.state().tool_call_index == 0 && r.state().active is None,
            r.state().custom_tool_names.len() == 0,
    {
        Self::new_at(id, model, crate::stream::unix_time_secs())
    }

    /// Set declared custom tool names whose JSON `input` strings are
    /// decoded. Defaults to none; other tools retain their function
    /// arguments.
    pub fn with_custom_tool_names(self, custom_tool_names: Vec<String>) -> (r: ResponsesChunkGenerator)
        ensures
            r.state() == (GenState { custom_tool_names: strings_view(custom_tool_names@), ..self.state() }),
    {
        let mut g = self;
        g.custom_tool_names = custom_tool_names;
        g
    }

    fn next_sequence_number(&mut self) -> (r: usize)
        ensures
            r == old(self).state().seq,
            final(self).state() == (GenState { seq: next(old(self).state().seq), ..old(self).state() }),
    {
        let n = self.sequence_number;
        self.sequence_number = n.wrapping_add(1);
        n
    }

    fn append_custom_input(&mut self, idx: usize, delta: String, events: &mut Vec<ResponsesStreamEvent>)
        ensures
            final(self).state() == append_custom_spec(old(self).state(), idx, delta@).0,
            gen_events(final(events)@) == gen_events(old(events)@) + append_custom_spec(old(self).state(), idx, delta@).1,
    {
        let ghost ev0 = gen_events(events@);
        let ghost st = self.state();
        if delta.as_str().is_empty() || idx >= self.response.output.len() {
            assert(gen_events(events@) =~= ev0 + Seq::<GenEvent>::empty());
            return;
        }
        let is_custom = match &self.response.output[idx] {
            ResponsesOutputItem::CustomToolCall { .. } => true,
            _ => false,
        };
        if !is_custom {
            assert(gen_events(events@) =~= ev0 + Seq::<GenEvent>::empty());
            return;
        }
        let item = self.response.output.remove(idx);
        let (updated, item_id) = match item {
            ResponsesOutputItem::CustomToolCall { id, status, call_id, name, input } => {
                let item_id = id.clone();
                (ResponsesOutputItem::CustomToolCall { id, status, call_id, name, input: concat(input.as_str(), delta.as_str()) }, item_id)
            },
            other => {
                let item_id = String::new();
                (other, item_id)
            },
        };
        let ghost uv = item_view(updated);
        self.response.output.insert(idx, updated);
        assert(items_view(self.response.output@) =~= st.response.output.update(idx as int, uv));
        let s = self.next_sequence_number();
        events.push(ResponsesStreamEvent::CustomToolCallInputDelta { delta, item_id, output_index: idx, sequence_number: s });
        assert(gen_events(events@) =~= ev0.push(gen_event(events@[events@.len() - 1])));
    }

    fn push_parts_done(&mut self, id: &String, idx: usize, content: &Vec<ResponsesContentPart>, events: &mut Vec<ResponsesStreamEvent>)
        ensures
            gen_events(final(events)@) == gen_events(old(events)@) + parts_done(
                id@,
                idx,
                parts_view(content@),
                content@.len() as int,
                old(self).state().seq,
            ).0,
            final(self).state() == (GenState {
                seq: parts_done(id@, idx, parts_view(content@), content@.len() as int, old(self).state().seq).1,
                ..old(self).state()
            }),
    {
        let ghost ev1 = gen_events(events@);
        let ghost st3 = self.state();
        let ghost s0 = self.sequence_number;
        let ghost pv = parts_view(content@);
        let mut k: usize = 0;
        assert(gen_events(events@) =~= ev1 + parts_done(id@, idx, pv, 0, s0).0);
        while k < content.len()
            invariant
                k <= content@.len(),
                pv == parts_view(content@),
                gen_events(events@) == ev1 + parts_done(id@, idx, pv, k as int, s0).0,
                self.state() == (GenState { seq: parts_done(id@, idx, pv, k as int, s0).1, ..st3 }),
            decreases content@.len() - k,
        {
            let ghost before = gen_events(events@);
            let ghost prev = parts_done(id@, idx, pv, k as int, s0).0;
            let s1 = self.next_sequence_number();
            let done = match &content[k] {
                ResponsesContentPart::OutputText { text, logprobs, .. } => ResponsesStreamEvent::OutputTextDone {
                    content_index: k,
                    item_id: id.clone(),
                    logprobs: units(logprobs.len()),
                    output_index: idx,
                    sequence_number: s1,
                    text: text.clone(),
                },
                ResponsesContentPart::ReasoningText { text } => ResponsesStreamEvent::ReasoningTextDone {
                    content_index: k,
                    item_id: id.clone(),
                    output_index: idx,
                    sequence_number: s1,
                    text: text.clone(),
                },
            };
            events.push(done);
            let s2 = self.next_sequence_number();
            events.push(ResponsesStreamEvent::ContentPartDone {
                content_index: k,
                item_id: id.clone(),
                output_index: idx,
                part: duplicate_part(&content[k]),
                sequence_number: s2,
            });
            proof {
                let x = gen_event(events@[events@.len() - 2]);
                let y = gen_event(events@[events@.len() - 1]);
                assert(gen_events(events@) =~= before.push(x).push(y));
                assert(parts_done(id@, idx, pv, k + 1, s0).0 == prev.push(x).push(y));
                assert(ev1 + prev.push(x).push(y) =~= (ev1 + prev).push(x).push(y));
            }
            k += 1;
        }
    }

    #[verifier::rlimit(30)]
    fn close_item(&mut self, status: ResponsesStatus, events: &mut Vec<ResponsesStreamEvent>)
        ensures
            final(self).state() == close_spec(old(self).state(), status).0,
            gen_events(final(events)@) == gen_events(old(events)@) + close_spec(old(self).state(), status).1,
    {
        let ghost ev0 = gen_events(events@);
        let ghost st = self.state();
        let idx = match self.active {
            None => {
                assert(gen_events(events@) =~= ev0 + Seq::<GenEvent>::empty());
                return;
            },
            Some(i) => i,
        };
        self.active = None;
        let mut taken: Option<ResponsesCustomToolInputParser> = None;
        std::mem::swap(&mut taken, &mut self.custom_tool_input);
        match taken {
            Some(parser) => {
                let mut parser = parser;
                let rest = parser.finish();
                self.append_custom_input(idx, rest, events);
            },
            None => {
                assert(gen_events(events@) =~= ev0 + Seq::<GenEvent>::empty());
            },
        }
        let ghost st2 = self.state();
        let ghost ev1 = gen_events(events@);
        if idx >= self.response.output.len() {
            return;
        }
        let item = self.response.output.remove(idx);
        let item = set_status(item, status);
        let copy = duplicate_item(&item);
        let ghost iv = item_view(item);
        self.response.output.insert(idx, item);
        assert(items_view(self.response.output@) =~= st2.response.output.update(idx as int, iv));
        let ghost st3 = self.state();
        match &copy {
            ResponsesOutputItem::Message { id, content, .. } | ResponsesOutputItem::Reasoning { id, content, .. } => {
                self.push_parts_done(id, idx, content, events);
                assert(gen_events(events@) =~= ev1 + parts_done(id@, idx, parts_view(content@), content@.len() as int, st3.seq).0);
            },
            ResponsesOutputItem::FunctionCall { id, arguments, .. } => {
                let s1 = self.next_sequence_number();
                events.push(ResponsesStreamEvent::FunctionCallArgumentsDone {
                    arguments: arguments.clone(),
                    item_id: id.clone(),
                    output_index: idx,
                    sequence_number: s1,
                });
                assert(gen_events(events@) =~= ev1.push(gen_event(events@[events@.len() - 1])));
            },
            ResponsesOutputItem::CustomToolCall { id, input, .. } => {
                let s1 = self.next_sequence_number();
                events.push(ResponsesStreamEvent::CustomToolCallInputDone {
                    input: input.clone(),
                    item_id: id.clone(),
                    output_index: idx,
                    sequence_number: s1,
                });
                assert(gen_events(events@) =~= ev1.push(gen_event(events@[events@.len() - 1])));
            },
        }
        let ghost ev2 = gen_events(events@);
        let s = self.next_sequence_number();
        events.push(ResponsesStreamEvent::OutputItemDone { item: copy, output_index: idx, sequence_number: s });
        assert(gen_events(events@) =~= ev2.push(gen_event(events@[events@.len() - 1])));
        assert(gen_events(events@) =~= ev0 + close_spec(st, status).1);
    }

    fn open_item(&mut self, item: ResponsesOutputItem, events: &mut Vec<ResponsesStreamEvent>)
        ensures
            final(self).state() == open_spec(old(self).state(), item_view(item)).0,
            gen_events(final(events)@) == gen_events(old(events)@) + open_spec(old(self).state(), item_view(item)).1,
    {
        let ghost ev0 = gen_events(events@);
        let ghost st = self.state();
        let ghost iv = item_view(item);
        let idx = self.response.output.len();
        let copy = duplicate_item(&item);
        self.response.output.push(item);
        assert(items_view(self.response.output@) =~= st.response.output.push(iv));
        let (shown, part) = match copy {
            ResponsesOutputItem::Message { id, status, role, phase, content } => {
                let mut content = content;
                let ghost cv = parts_view(content@);
                let last = content.pop();
                assert(parts_view(content@) =~= if cv.len() > 0 { cv.drop_last() } else { cv });
                let part = match last {
                    Some(p) => Some((id.clone(), p)),
                    None => None,
                };
                (ResponsesOutputItem::Message { id, status, role, phase, content }, part)
            },
            ResponsesOutputItem::Reasoning { id, status, content, summary } => {
                let mut content = content;
                let ghost cv = parts_view(content@);
                let last = content.pop();
                assert(parts_view(content@) =~= if cv.len() > 0 { cv.drop_last() } else { cv });
                let part = match last {
                    Some(p) => Some((id.clone(), p)),
                    None => None,
                };
                (ResponsesOutputItem::Reasoning { id, status, content, summary }, part)
            },
            other => (other, None),
        };
        self.active = Some(idx);
        let s1 = self.next_sequence_number();
        events.push(ResponsesStreamEvent::OutputItemAdded { item: shown, output_index: idx, sequence_number: s1 });
        assert(gen_events(events@) =~= ev0.push(gen_event(events@[events@.len() - 1])));
        if let Some((item_id, part)) = part {
            let ghost ev1 = gen_events(events@);
            let s2 = self.next_sequence_number();
            events.push(ResponsesStreamEvent::ContentPartAdded {
                content_index: 0,
                item_id,
                output_index: idx,
                part,
                sequence_number: s2,
            });
            assert(gen_events(events@) =~= ev1.push(gen_event(events@[events@.len() - 1])));
        }
        assert(gen_events(events@) =~= ev0 + open_spec(st, iv).1);
    }

    #[verifier::rlimit(30)]
    fn append_text(&mut self, delta: String, reasoning: bool, events: &mut Vec<ResponsesStreamEvent>)
        ensures
            final(self).state() == append_text_spec(old(self).state(), delta@, reasoning).0,
            gen_events(final(events)@) == gen_events(old(events)@) + append_text_spec(old(self).state(), delta@, reasoning).1,
    {
        let ghost ev0 = gen_events(events@);
        let ghost st = self.state();
        let continues = match self.active {
            Some(i) => i < self.response.output.len() && match &self.response.output[i] {
                ResponsesOutputItem::Reasoning { .. } => reasoning,
                ResponsesOutputItem::Message { .. } => !reasoning,
                _ => false,
            },
            None => false,
        };
        if !continues {
            self.close_item(ResponsesStatus::Completed, events);
            let idx = self.response.output.len();
            let item = if reasoning {
                let mut content: Vec<ResponsesContentPart> = Vec::new();
                content.push(ResponsesContentPart::ReasoningText { text: String::new() });
                assert(parts_view(content@) =~= seq![PartView::ReasoningText { text: Seq::empty() }]);
                ResponsesOutputItem::Reasoning {
                    id: item_id_exec("rs_", self.response.id.as_str(), idx),
                    status: ResponsesStatus::InProgress,
                    content,
                    summary: Vec::new(),
                }
            } else {
                let mut content: Vec<ResponsesContentPart> = Vec::new();
                content.push(ResponsesContentPart::OutputText { annotations: Vec::new(), logprobs: Vec::new(), text: String::new() });
                assert(parts_view(content@) =~= seq![PartView::OutputText { annotations: 0, logprobs: 0, text: Seq::empty() }]);
                ResponsesOutputItem::Message {
                    id: item_id_exec("msg_", self.response.id.as_str(), idx),
                    status: ResponsesStatus::InProgress,
                    role: ResponsesRole::Assistant,
                    phase: ResponsesPhase::FinalAnswer,
                    content,
                }
            };
            self.open_item(item, events);
        } else {
            assert(gen_events(events@) =~= ev0 + Seq::<GenEvent>::empty());
        }
        let ghost st1 = self.state();
        let ghost ev1 = gen_events(events@);
        let idx = match self.active {
            None => {
                return;
            },
            Some(i) => i,
        };
        if idx >= self.response.output.len() {
            return;
        }
        let item = self.response.output.remove(idx);
        let ghost iv = item_view(item);
        let (updated, item_id, ok) = match item {
            ResponsesOutputItem::Message { id, status, role, phase, content } => {
                if content.len() == 0 {
                    let item_id = id.clone();
                    (ResponsesOutputItem::Message { id, status, role, phase, content }, item_id, false)
                } else {
                    let item_id = id.clone();
                    (ResponsesOutputItem::Message { id, status, role, phase, content: extend_first(content, delta.as_str()) }, item_id, true)
                }
            },
            ResponsesOutputItem::Reasoning { id, status, content, summary } => {
                if content.len() == 0 {
                    let item_id = id.clone();
                    (ResponsesOutputItem::Reasoning { id, status, content, summary }, item_id, false)
                } else {
                    let item_id = id.clone();
                    (ResponsesOutputItem::Reasoning { id, status, content: extend_first(content, delta.as_str()), summary }, item_id, true)
                }
            },
            other => (other, String::new(), false),
        };
        let ghost uv = item_view(updated);
        self.response.output.insert(idx, updated);
        if !ok {
            assert(uv == iv);
            assert(items_view(self.response.output@) =~= st1.response.output);
            return;
        }
        assert(items_view(self.response.output@) =~= st1.response.output.update(idx as int, with_first_text(iv, delta@)));
        let s = self.next_sequence_number();
        if reasoning {
            events.push(ResponsesStreamEvent::ReasoningTextDelta {
                content_index: 0,
                delta,
                item_id,
                output_index: idx,
                sequence_number: s,
            });
        } else {
            events.push(ResponsesStreamEvent::OutputTextDelta {
                content_index: 0,
                delta,
                item_id,
                logprobs: Vec::new(),
                output_index: idx,
                sequence_number: s,
            });
        }
        assert(gen_events(events@) =~= ev1.push(gen_event(events@[events@.len() - 1])));
    }

    #[verifier::rlimit(30)]
    fn tool_call(&mut self, tool_name: String, arguments: String, events: &mut Vec<ResponsesStreamEvent>)
        ensures
            final(self).state() == tool_call_spec(old(self).state(), tool_name@, arguments@).0,
            gen_events(final(events)@) == gen_events(old(events)@) + tool_call_spec(old(self).state(), tool_name@, arguments@).1,
    {
        let ghost ev0 = gen_events(events@);
        let ghost st = self.state();
        if let Some(i) = self.active {
            if i < self.response.output.len() {
                let is_message = match &self.response.output[i] {
                    ResponsesOutputItem::Message { .. } => true,
                    _ => false,
                };
                if is_message {
                    let item = self.response.output.remove(i);
                    let updated = match item {
                        ResponsesOutputItem::Message { id, status, role, content, .. } => ResponsesOutputItem::Message {
                            id,
                            status,
                            role,
                            phase: ResponsesPhase::Commentary,
                            content,
                        },
                        other => other,
                    };
                    let ghost uv = item_view(updated);
                    self.response.output.insert(i, updated);
                    assert(items_view(self.response.output@) =~= st.response.output.update(i as int, uv));
                }
            }
        }
        self.close_item(ResponsesStatus::Completed, events);
        let ghost s1 = self.state();
        let ghost ev1 = gen_events(events@);
        let idx = self.response.output.len();
        let mut call_id_chars: Vec<char> = Vec::new();
        append_str(&mut call_id_chars, "call_");
        append_str(&mut call_id_chars, self.response.id.as_str());
        append_str(&mut call_id_chars, "_");
        let d = decimal_chars(self.tool_call_index);
        append_chars(&mut call_id_chars, d.as_slice());
        assert(call_id_chars@ =~= call_id_for(s1.response.id, s1.tool_call_index));
        let call_id = string_of(call_id_chars.as_slice());
        let next_index = self.tool_call_index.wrapping_add(1);
        if crate::text::strings_contain(&self.custom_tool_names, tool_name.as_str()) {
            let mut parser = ResponsesCustomToolInputParser::new();
            let input = parser.feed(arguments.as_str());
            let item = ResponsesOutputItem::CustomToolCall {
                id: item_id_exec("ctc_", self.response.id.as_str(), idx),
                status: ResponsesStatus::InProgress,
                call_id,
                name: tool_name,
                input,
            };
            self.custom_tool_input = Some(parser);
            self.tool_call_index = next_index;
            self.open_item(item, events);
        } else {
            let chars = chars_of(tool_name.as_str());
            let (name, namespace) = match separator_exec(&chars, 0) {
                Some(k) => {
                    let mut ns: Vec<char> = Vec::new();
                    let mut nm: Vec<char> = Vec::new();
                    let mut j: usize = 0;
                    assert(ns@ =~= chars@.take(0));
                    while j < chars.len()
                        invariant
                            k + 2 <= chars@.len(),
                            j <= chars@.len(),
                            ns@ == chars@.take(if j < k { j as int } else { k as int }),
                            nm@ == (if j <= k + 2 { Seq::<char>::empty() } else { chars@.subrange(k + 2, j as int) }),
                        decreases chars@.len() - j,
                    {
                        if j < k {
                            ns.push(chars[j]);
                            assert(ns@ =~= chars@.take(j + 1));
                        } else if j >= k + 2 {
                            nm.push(chars[j]);
                            assert(nm@ =~= chars@.subrange(k + 2, j + 1));
                        }
                        j += 1;
                    }
                    assert(nm@ =~= chars@.skip(k + 2));
                    (string_of(nm.as_slice()), Some(string_of(ns.as_slice())))
                },
                None => (tool_name, None),
            };
            let item = ResponsesOutputItem::FunctionCall {
                id: item_id_exec("fc_", self.response.id.as_str(), idx),
                status: ResponsesStatus::InProgress,
                call_id,
                name,
                namespace,
                arguments,
            };
            self.tool_call_index = next_index;
            self.open_item(item, events);
        }
        assert(gen_events(events@) =~= ev0 + tool_call_spec(st, tool_name@, arguments@).1);
    }

    fn arguments_delta(&mut self, content: String, events: &mut Vec<ResponsesStreamEvent>)
        ensures
            final(self).state() == arguments_spec(old(self).state(), content@).0,
            gen_events(final(events)@) == gen_events(old(events)@) + arguments_spec(old(self).state(), content@).1,
    {
        let ghost ev0 = gen_events(events@);
        let ghost st = self.state();
        let idx = match self.active {
            None => {
                assert(gen_events(events@) =~= ev0 + Seq::<GenEvent>::empty());
                return;
            },
            Some(i) => i,
        };
        let is_function = idx < self.response.output.len() && match &self.response.output[idx] {
            ResponsesOutputItem::FunctionCall { .. } => true,
            _ => false,
        };
        if is_function {
            let item = self.response.output.remove(idx);
            let (updated, item_id) = match item {
                ResponsesOutputItem::FunctionCall { id, status, call_id, name, namespace, arguments } => {
                    let item_id = id.clone();
                    (
                        ResponsesOutputItem::FunctionCall {
                            id,
                            status,
                            call_id,
                            name,
                            namespace,
                            arguments: concat(arguments.as_str(), content.as_str()),
                        },
                        item_id,
                    )
                },
                other => (other, String::new()),
            };
            let ghost uv = item_view(updated);
            self.response.output.insert(idx, updated);
            assert(items_view(self.response.output@) =~= st.response.output.update(idx as int, uv));
            let s = self.next_sequence_number();
            events.push(ResponsesStreamEvent::FunctionCallArgumentsDelta { delta: content, item_id, output_index: idx, sequence_number: s });
            assert(gen_events(events@) =~= ev0.push(gen_event(events@[events@.len() - 1])));
            return;
        }
        let mut taken: Option<ResponsesCustomToolInputParser> = None;
        std::mem::swap(&mut taken, &mut self.custom_tool_input);
        match taken {
            Some(parser) => {
                let mut parser = parser;
                let delta = parser.feed(content.as_str());
                self.custom_tool_input = Some(parser);
                self.append_custom_input(idx, delta, events);
            },
            None => {
                assert(gen_events(events@) =~= ev0 + Seq::<GenEvent>::empty());
            },
        }
    }

    #[verifier::rlimit(30)]
    fn finish(&mut self, reason: FinishReason, usage: crate::stream::CompletionUsage, now: u64, events: &mut Vec<ResponsesStreamEvent>)
        ensures
            final(self).state() == finish_spec(old(self).state(), reason, usage, now).0,
            gen_events(final(events)@) == gen_events(old(events)@) + finish_spec(old(self).state(), reason, usage, now).1,
    {
        let ghost ev0 = gen_events(events@);
        let ghost st = self.state();
        let details = match reason {
            FinishReason::Length => Some(ResponsesIncompleteDetails { reason: ResponsesIncompleteReason::MaxOutputTokens }),
            FinishReason::ContentFilter => Some(ResponsesIncompleteDetails { reason: ResponsesIncompleteReason::ContentFilter }),
            _ => None,
        };
        let status = if details.is_some() { ResponsesStatus::Incomplete } else { ResponsesStatus::Completed };
        self.response.incomplete_details = details;
        self.response.status = status;
        self.response.usage = Some(ResponsesUsage::from((self.prompt_usage, usage)));
        self.response.completed_at = Some(now);
        self.close_item(status, events);
        let ghost ev1 = gen_events(events@);
        let response = duplicate_response(&self.response);
        let s = self.next_sequence_number();
        if status == ResponsesStatus::Incomplete {
            events.push(ResponsesStreamEvent::Incomplete { response, sequence_number: s });
        } else {
            events.push(ResponsesStreamEvent::Completed { response, sequence_number: s });
        }
        assert(gen_events(events@) =~= ev1.push(gen_event(events@[events@.len() - 1])));
        self.finished = true;
    }

    /// Produce the events of one parsed output chunk at time `now`, which
    /// a finish records as the completion time.
    pub fn generate_at(&mut self, chunk: OutputChunk, now: u64) -> (r: Vec<ResponsesStreamEvent>)
        ensures
            (final(self).state(), gen_events(r@)) == generate_spec(old(self).state(), chunk, now),
    {
        let ghost st = self.state();
        let mut events: Vec<ResponsesStreamEvent> = Vec::new();
        assert(gen_events(events@) =~= Seq::<GenEvent>::empty());
        let is_start = match &chunk {
            OutputChunk::Start { .. } => true,
            _ => false,
        };
        if self.finished || (!self.started && !is_start) {
            return events;
        }
        match chunk {
            OutputChunk::Start { usage, .. } => {
                if self.started {
                    return events;
                }
                self.started = true;
                self.prompt_usage = usage;
                let r1 = duplicate_response(&self.response);
                let s1 = self.next_sequence_number();
                events.push(ResponsesStreamEvent::Created { response: r1, sequence_number: s1 });
                let r2 = duplicate_response(&self.response);
                let s2 = self.next_sequence_number();
                events.push(ResponsesStreamEvent::InProgress { response: r2, sequence_number: s2 });
                assert(gen_events(events@) =~= seq![gen_event(events@[0]), gen_event(events@[1])]);
            },
            OutputChunk::Raw { content } => {
                self.append_text(content, false, &mut events);
                assert(gen_events(events@) =~= append_text_spec(st, content@, false).1);
            },
            OutputChunk::Reasoning { content } => {
                self.append_text(content, true, &mut events);
                assert(gen_events(events@) =~= append_text_spec(st, content@, true).1);
            },
            OutputChunk::ToolCall { tool_name, arguments } => {
                let ghost tn = tool_name@;
                let ghost ar = arguments@;
                self.tool_call(tool_name, arguments, &mut events);
                assert(gen_events(events@) =~= tool_call_spec(st, tn, ar).1);
            },
            OutputChunk::ToolArgumentsDelta { content } => {
                let ghost c = content@;
                self.arguments_delta(content, &mut events);
                assert(gen_events(events@) =~= arguments_spec(st, c).1);
            },
            OutputChunk::Finish { reason, usage, .. } => {
                self.finish(reason, usage, now, &mut events);
                assert(gen_events(events@) =~= finish_spec(st, reason, usage, now).1);
            },
            OutputChunk::ToolCallBegin => {},
        }
        events
    }
}

impl ChunkGenerator for ResponsesChunkGenerator {
    type Chunk = ResponsesStreamEvent;

    /// Produce the events of one parsed output chunk; a finish records the
    /// current time as the completion time.
    fn generate(&mut self, chunk: OutputChunk) -> (r: Vec<ResponsesStreamEvent>)
        ensures
            exists|now: u64| (final(self).state(), gen_events(r@)) == generate_spec(old(self).state(), chunk, now),
    {
        let now = crate::stream::unix_time_secs();
        self.generate_at(chunk, now)
    }
}

/// Construct protocol events for a converted request.
pub fn chunk_generator(request: &ConversationRequest, id: String, model: String) -> (r: ResponsesChunkGenerator)
    ensures
        r.state().response.id == id@,
        r.state().response.model == model@,
        r.state().response.output.len() == 0,
        !r.state().started && !r.state().finished,
        r.state().seq == 0 && r.state().tool_call_index == 0 && r.state().active is None,
        r.state().custom_tool_names.len() == 0,
{
    ResponsesChunkGenerator::new(id, model)
}



// ---------------------------------------------------------------------------
// Sequence numbers

/// The sequence number `n` places after `s`.
pub open spec fn advance(s: usize, n: nat) -> usize
    decreases n,
{
    if n == 0 {
        s
    } else {
        next(advance(s, (n - 1) as nat))
    }
}

/// The events `es` are numbered one after another from `from`, and `to` is
/// the number after the last.
pub open spec fn numbered(from: usize, es: Seq<GenEvent>, to: usize) -> bool {
    &&& forall|i: int| 0 <= i < es.len() ==> #[trigger] es[i].seq == advance(from, i as nat)
    &&& to == advance(from, es.len())
}

proof fn lemma_advance_add(s: usize, a: nat, b: nat)
    ensures
        advance(advance(s, a), b) == advance(s, a + b),
    decreases b,
{
    if b > 0 {
        lemma_advance_add(s, a, (b - 1) as nat);
    }
}

proof fn lemma_numbered_concat(a: usize, e1: Seq<GenEvent>, b: usize, e2: Seq<GenEvent>, c: usize)
    requires
        numbered(a, e1, b),
        numbered(b, e2, c),
    ensures
        numbered(a, e1 + e2, c),
{
    lemma_advance_add(a, e1.len(), e2.len());
    assert forall|i: int| 0 <= i < (e1 + e2).len() implies #[trigger] (e1 + e2)[i].seq == advance(a, i as nat) by {
        if i >= e1.len() {
            lemma_advance_add(a, e1.len(), (i - e1.len()) as nat);
            assert((e1 + e2)[i] == e2[i - e1.len()]);
        }
    }
}

proof fn lemma_numbered_empty(a: usize)
    ensures
        numbered(a, Seq::empty(), a),
{
}

proof fn lemma_numbered_one(a: usize, e: GenEvent)
    requires
        e.seq == a,
    ensures
        numbered(a, seq![e], next(a)),
{
    assert(advance(a, 1) == next(advance(a, 0)));
}

proof fn lemma_numbered_two(a: usize, e: GenEvent, f: GenEvent)
    requires
        e.seq == a,
        f.seq == next(a),
    ensures
        numbered(a, seq![e, f], next(next(a))),
{
    lemma_numbered_one(a, e);
    lemma_numbered_one(next(a), f);
    lemma_numbered_concat(a, seq![e], next(a), seq![f], next(next(a)));
    assert(seq![e] + seq![f] =~= seq![e, f]);
}

proof fn lemma_numbered_push(a: usize, es: Seq<GenEvent>, b: usize, e: GenEvent)
    requires
        numbered(a, es, b),
        e.seq == b,
    ensures
        numbered(a, es.push(e), next(b)),
{
    lemma_numbered_one(b, e);
    lemma_numbered_concat(a, es, b, seq![e], next(b));
    assert(es + seq![e] =~= es.push(e));
}

proof fn lemma_custom_numbered(st: GenState, idx: usize, delta: Seq<char>)
    ensures
        numbered(st.seq, append_custom_spec(st, idx, delta).1, append_custom_spec(st, idx, delta).0.seq),
{
    let (s2, e) = append_custom_spec(st, idx, delta);
    if e.len() == 0 {
        lemma_numbered_empty(st.seq);
    } else {
        lemma_numbered_one(st.seq, e[0]);
        assert(e =~= seq![e[0]]);
    }
}

proof fn lemma_parts_numbered(id: Seq<char>, idx: usize, parts: Seq<PartView>, n: int, s: usize)
    ensures
        numbered(s, parts_done(id, idx, parts, n, s).0, parts_done(id, idx, parts, n, s).1),
    decreases n,
{
    if n <= 0 {
        lemma_numbered_empty(s);
    } else {
        lemma_parts_numbered(id, idx, parts, n - 1, s);
        let (evs, s1) = parts_done(id, idx, parts, n - 1, s);
        let (all, s3) = parts_done(id, idx, parts, n, s);
        assert(all.len() == evs.len() + 2);
        let d = all[all.len() - 2];
        let c = all[all.len() - 1];
        assert(all.drop_last().drop_last() =~= evs);
        lemma_numbered_push(s, evs, s1, d);
        assert(evs.push(d) =~= all.drop_last());
        lemma_numbered_push(s, all.drop_last(), next(s1), c);
        assert(all.drop_last().push(c) =~= all);
    }
}

proof fn lemma_close_numbered(st: GenState, status: ResponsesStatus)
    ensures
        numbered(st.seq, close_spec(st, status).1, close_spec(st, status).0.seq),
{
    match st.active {
        None => lemma_numbered_empty(st.seq),
        Some(idx) => {
            let st1 = GenState { active: None, parser: None, ..st };
            let (st2, e1) = match st.parser {
                Some(p) => append_custom_spec(st1, idx, p.prefix + p.escape),
                None => (st1, Seq::empty()),
            };
            match st.parser {
                Some(p) => lemma_custom_numbered(st1, idx, p.prefix + p.escape),
                None => lemma_numbered_empty(st1.seq),
            }
            if idx < st2.response.output.len() {
                let item = with_status(st2.response.output[idx as int], status);
                let st3 = GenState { response: with_item(st2.response, idx, item), ..st2 };
                let (e2, s2) = match item {
                    ItemView::Message { id, content, .. } => parts_done(id, idx, content, content.len() as int, st3.seq),
                    ItemView::Reasoning { id, content, .. } => parts_done(id, idx, content, content.len() as int, st3.seq),
                    ItemView::FunctionCall { id, arguments, .. } => (
                        seq![
                            GenEvent {
                                name: "response.function_call_arguments.done"@,
                                body: EventView::FunctionCallArgumentsDone(arguments, id, idx),
                                seq: st3.seq,
                            },
                        ],
                        next(st3.seq),
                    ),
                    ItemView::CustomToolCall { id, input, .. } => (
                        seq![
                            GenEvent {
                                name: "response.custom_tool_call_input.done"@,
                                body: EventView::CustomToolCallInputDone(input, id, idx),
                                seq: st3.seq,
                            },
                        ],
                        next(st3.seq),
                    ),
                };
                match item {
                    ItemView::Message { id, content, .. } => lemma_parts_numbered(id, idx, content, content.len() as int, st3.seq),
                    ItemView::Reasoning { id, content, .. } => lemma_parts_numbered(id, idx, content, content.len() as int, st3.seq),
                    _ => lemma_numbered_one(st3.seq, e2[0]),
                }
                let done = GenEvent { name: "response.output_item.done"@, body: EventView::OutputItemDone(item, idx), seq: s2 };
                lemma_numbered_push(st3.seq, e2, s2, done);
                lemma_numbered_concat(st.seq, e1, st2.seq, e2.push(done), next(s2));
            }
        },
    }
}

proof fn lemma_open_numbered(st: GenState, item: ItemView)
    ensures
        numbered(st.seq, open_spec(st, item).1, open_spec(st, item).0.seq),
{
    let (s2, e) = open_spec(st, item);
    if e.len() == 2 {
        lemma_numbered_two(st.seq, e[0], e[1]);
        assert(e =~= seq![e[0], e[1]]);
    } else {
        lemma_numbered_one(st.seq, e[0]);
        assert(e =~= seq![e[0]]);
    }
}

proof fn lemma_text_numbered(st: GenState, delta: Seq<char>, reasoning: bool)
    ensures
        numbered(st.seq, append_text_spec(st, delta, reasoning).1, append_text_spec(st, delta, reasoning).0.seq),
{
    let continues = match st.active {
        Some(i) => i < st.response.output.len() && (if reasoning {
            st.response.output[i as int] is Reasoning
        } else {
            st.response.output[i as int] is Message
        }),
        None => false,
    };
    if continues {
        lemma_numbered_empty(st.seq);
    } else {
        let (s, e) = close_spec(st, ResponsesStatus::Completed);
        lemma_close_numbered(st, ResponsesStatus::Completed);
        let idx = s.response.output.len();
        let item = if reasoning {
            ItemView::Reasoning {
                id: item_id_for("rs_"@, s.response.id, idx),
                status: ResponsesStatus::InProgress,
                content: seq![PartView::ReasoningText { text: Seq::empty() }],
                summary: 0,
            }
        } else {
            ItemView::Message {
                id: item_id_for("msg_"@, s.response.id, idx),
                status: ResponsesStatus::InProgress,
                role: ResponsesRole::Assistant,
                phase: ResponsesPhase::FinalAnswer,
                content: seq![PartView::OutputText { annotations: 0, logprobs: 0, text: Seq::empty() }],
            }
        };
        lemma_open_numbered(s, item);
        let (s2, e2) = open_spec(s, item);
        lemma_numbered_concat(st.seq, e, s.seq, e2, s2.seq);
    }
    let (r, es) = append_text_spec(st, delta, reasoning);
    let (st1, e1) = if continues {
        (st, Seq::<GenEvent>::empty())
    } else {
        let (s, e) = close_spec(st, ResponsesStatus::Completed);
        let idx = s.response.output.len();
        let item = if reasoning {
            ItemView::Reasoning {
                id: item_id_for("rs_"@, s.response.id, idx),
                status: ResponsesStatus::InProgress,
                content: seq![PartView::ReasoningText { text: Seq::empty() }],
                summary: 0,
            }
        } else {
            ItemView::Message {
                id: item_id_for("msg_"@, s.response.id, idx),
                status: ResponsesStatus::InProgress,
                role: ResponsesRole::Assistant,
                phase: ResponsesPhase::FinalAnswer,
                content: seq![PartView::OutputText { annotations: 0, logprobs: 0, text: Seq::empty() }],
            }
        };
        let (s2, e2) = open_spec(s, item);
        (s2, e + e2)
    };
    if es.len() > e1.len() {
        assert(es =~= e1.push(es[es.len() - 1]));
        lemma_numbered_push(st.seq, e1, st1.seq, es[es.len() - 1]);
    }
}

proof fn lemma_tool_call_numbered(st: GenState, tool_name: Seq<char>, arguments: Seq<char>)
    ensures
        numbered(st.seq, tool_call_spec(st, tool_name, arguments).1, tool_call_spec(st, tool_name, arguments).0.seq),
{
    let st0 = match st.active {
        Some(i) => if i < st.response.output.len() {
            match st.response.output[i as int] {
                ItemView::Message { id, status, role, content, .. } => GenState {
                    response: with_item(
                        st.response,
                        i,
                        ItemView::Message { id, status, role, phase: ResponsesPhase::Commentary, content },
                    ),
                    ..st
                },
                _ => st,
            }
        } else {
            st
        },
        None => st,
    };
    lemma_close_numbered(st0, ResponsesStatus::Completed);
    let (s1, e1) = close_spec(st0, ResponsesStatus::Completed);
    let idx = s1.response.output.len();
    let call_id = call_id_for(s1.response.id, s1.tool_call_index);
    let next_index = s1.tool_call_index.wrapping_add(1);
    if s1.custom_tool_names.contains(tool_name) {
        let (p, input) = feed_spec(initial_parser(), arguments, arguments.len() as int);
        let item = ItemView::CustomToolCall {
            id: item_id_for("ctc_"@, s1.response.id, idx),
            status: ResponsesStatus::InProgress,
            call_id,
            name: tool_name,
            input,
        };
        let sp = GenState { parser: Some(p), tool_call_index: next_index, ..s1 };
        lemma_open_numbered(sp, item);
        let (s2, e2) = open_spec(sp, item);
        lemma_numbered_concat(st.seq, e1, s1.seq, e2, s2.seq);
    } else {
        let (name, namespace) = match separator_from(tool_name, 0) {
            Some(k) => (tool_name.skip(k + 2), Some(tool_name.take(k))),
            None => (tool_name, None),
        };
        let item = ItemView::FunctionCall {
            id: item_id_for("fc_"@, s1.response.id, idx),
            status: ResponsesStatus::InProgress,
            call_id,
            name,
            namespace,
            arguments,
        };
        let sp = GenState { tool_call_index: next_index, ..s1 };
        lemma_open_numbered(sp, item);
        let (s2, e2) = open_spec(sp, item);
        lemma_numbered_concat(st.seq, e1, s1.seq, e2, s2.seq);
    }
}

proof fn lemma_arguments_numbered(st: GenState, content: Seq<char>)
    ensures
        numbered(st.seq, arguments_spec(st, content).1, arguments_spec(st, content).0.seq),
{
    let (s2, e) = arguments_spec(st, content);
    match st.active {
        None => lemma_numbered_empty(st.seq),
        Some(idx) => if idx < st.response.output.len() && st.response.output[idx as int] is FunctionCall {
            lemma_numbered_one(st.seq, e[0]);
            assert(e =~= seq![e[0]]);
        } else {
            match st.parser {
                Some(p) => {
                    let (p2, delta) = feed_spec(p, content, content.len() as int);
                    lemma_custom_numbered(GenState { parser: Some(p2), ..st }, idx, delta);
                },
                None => lemma_numbered_empty(st.seq),
            }
        },
    }
}

/// The events of one output chunk are numbered one after another from the
/// generator's next sequence number, which then follows the last of them;
/// so the events of a stream run 0, 1, 2, … from a new generator.
pub proof fn lemma_sequence_numbers(st: GenState, chunk: OutputChunk, now: u64)
    ensures
        numbered(st.seq, generate_spec(st, chunk, now).1, generate_spec(st, chunk, now).0.seq),
{
    if st.finished || (!st.started && !(chunk is Start)) {
        lemma_numbered_empty(st.seq);
    } else {
        match chunk {
            OutputChunk::Start { usage, .. } => if st.started {
                lemma_numbered_empty(st.seq);
            } else {
                let e = generate_spec(st, chunk, now).1;
                lemma_numbered_two(st.seq, e[0], e[1]);
                assert(e =~= seq![e[0], e[1]]);
            },
            OutputChunk::Raw { content } => lemma_text_numbered(st, content@, false),
            OutputChunk::Reasoning { content } => lemma_text_numbered(st, content@, true),
            OutputChunk::ToolCall { tool_name, arguments } => lemma_tool_call_numbered(st, tool_name@, arguments@),
            OutputChunk::ToolArgumentsDelta { content } => lemma_arguments_numbered(st, content@),
            OutputChunk::Finish { reason, usage, .. } => {
                let details = match incomplete_reason_of(reason) {
                    Some(r) => Some(ResponsesIncompleteDetails { reason: r }),
                    None => None,
                };
                let status = if details is Some {
                    ResponsesStatus::Incomplete
                } else {
                    ResponsesStatus::Completed
                };
                let r1 = ResponseView {
                    incomplete_details: details,
                    status,
                    usage: Some(usage_of(st.prompt_usage, usage)),
                    completed_at: Some(now),
                    ..st.response
                };
                let sr = GenState { response: r1, ..st };
                lemma_close_numbered(sr, status);
                let (s2, e2) = close_spec(sr, status);
                let (_, es) = generate_spec(st, chunk, now);
                lemma_numbered_push(st.seq, e2, s2.seq, es[es.len() - 1]);
                assert(es =~= e2.push(es[es.len() - 1]));
            },
            OutputChunk::ToolCallBegin => lemma_numbered_empty(st.seq),
        }
    }
}


// ---------------------------------------------------------------------------
// Accumulating the events

/// A response after the events `es`, applied in order.
pub open spec fn apply_gen_events(r: ResponseView, es: Seq<GenEvent>) -> ResponseView
    decreases es.len(),
{
    if es.len() == 0 {
        r
    } else {
        crate::responses_response::apply_event(apply_gen_events(r, es.drop_last()), es.last().body)
    }
}

/// Accumulating a stream's events reproduces the generator's response:
/// whatever a response accumulated before, applying the events of the
/// finish leaves it equal to the final response of the generator.
pub proof fn lemma_finish_reproduces_response(
    st: GenState,
    reason: FinishReason,
    stop_sequence: Option<String>,
    usage: crate::stream::CompletionUsage,
    now: u64,
    acc: ResponseView,
)
    requires
        st.started,
        !st.finished,
    ensures
        apply_gen_events(
            acc,
            generate_spec(st, OutputChunk::Finish { reason, stop_sequence, usage }, now).1,
        ) == generate_spec(st, OutputChunk::Finish { reason, stop_sequence, usage }, now).0.response,
{
    let (s, es) = generate_spec(st, OutputChunk::Finish { reason, stop_sequence, usage }, now);
    assert(es.len() > 0);
    assert(es.last().body == EventView::Response(s.response));
}


// ---------------------------------------------------------------------------
// Incomplete responses

proof fn lemma_custom_keeps_header(st: GenState, idx: usize, delta: Seq<char>)
    ensures
        append_custom_spec(st, idx, delta).0.response.status == st.response.status,
        append_custom_spec(st, idx, delta).0.response.incomplete_details == st.response.incomplete_details,
{
}

proof fn lemma_close_keeps_header(st: GenState, status: ResponsesStatus)
    ensures
        close_spec(st, status).0.response.status == st.response.status,
        close_spec(st, status).0.response.incomplete_details == st.response.incomplete_details,
{
    match st.active {
        None => {},
        Some(idx) => {
            let st1 = GenState { active: None, parser: None, ..st };
            match st.parser {
                Some(p) => lemma_custom_keeps_header(st1, idx, p.prefix + p.escape),
                None => {},
            }
        },
    }
}

/// A response cut short is reported as incomplete: when a started stream
/// finishes at the length limit, the final response is incomplete with the
/// reason `max_output_tokens` and the last event is `response.incomplete`;
/// a filtered output is incomplete with the reason `content_filter`; any
/// other finish completes the response, with no incomplete details, and
/// the last event is `response.completed`.
pub proof fn lemma_finish_status(
    st: GenState,
    reason: FinishReason,
    stop_sequence: Option<String>,
    usage: crate::stream::CompletionUsage,
    now: u64,
)
    requires
        st.started,
        !st.finished,
    ensures
        ({
            let (s, es) = generate_spec(st, OutputChunk::Finish { reason, stop_sequence, usage }, now);
            &&& s.finished
            &&& es.len() > 0
            &&& es.last().body == EventView::Response(s.response)
            &&& reason is Length ==> {
                &&& s.response.status == ResponsesStatus::Incomplete
                &&& s.response.incomplete_details == Some(
                    ResponsesIncompleteDetails { reason: ResponsesIncompleteReason::MaxOutputTokens },
                )
                &&& es.last().name == "response.incomplete"@
            }
            &&& reason is ContentFilter ==> {
                &&& s.response.status == ResponsesStatus::Incomplete
                &&& s.response.incomplete_details == Some(
                    ResponsesIncompleteDetails { reason: ResponsesIncompleteReason::ContentFilter },
                )
                &&& es.last().name == "response.incomplete"@
            }
            &&& !(reason is Length) && !(reason is ContentFilter) ==> {
                &&& s.response.status == ResponsesStatus::Completed
                &&& s.response.incomplete_details is None
                &&& es.last().name == "response.completed"@
            }
        }),
{
    let details = match incomplete_reason_of(reason) {
        Some(r) => Some(ResponsesIncompleteDetails { reason: r }),
        None => None,
    };
    let status = if details is Some {
        ResponsesStatus::Incomplete
    } else {
        ResponsesStatus::Completed
    };
    let r1 = ResponseView {
        incomplete_details: details,
        status,
        usage: Some(usage_of(st.prompt_usage, usage)),
        completed_at: Some(now),
        ..st.response
    };
    lemma_close_keeps_header(GenState { response: r1, ..st }, status);
}

} // verus!
