//! Conversion of OpenAI Responses input items into conversation messages:
//! messages, plaintext reasoning, and groups of tool calls with their
//! outputs.

use vstd::prelude::*;

use crate::conversation::{
    Conversation, InputMessage, MessageView, ReasoningEffort, ResponseFormat, ToolCall, ToolCallView, ToolChoice, calls_view, messages_view,
    opt_view, sources_view, tools_view,
};
use crate::encoding::join;
use crate::json::{JsonValue, JsonView, json_text, json_view};
use crate::multimodal::{ImageSource, ImageSourceView};
use crate::request::{ConversationRequest, ConversionError, ConversionOptions};
use crate::state_machine::{ParsingOptions, ReasoningStage};
use crate::responses_request::{
    ResponsesInput, ResponsesReasoningEffort, ResponsesRequest, ResponsesTextConfig, ResponsesTextFormat, ResponsesTool,
    contains_image_special_token, input_has_token, ResponsesInputItem, ResponsesInputMessage, ResponsesMessageRole, ResponsesReasoningContent, ResponsesToolCallOutputContent,
    ResponsesTypedInputItem, message_content_spec, message_text_spec, output_content_spec, pair_view,
};
use crate::responses_tools::{ResponsesToolSet, ToolSetView, call_name_spec, select_spec, tool_set_spec, triples_view};
use crate::text::{append_chars, append_str, concat, decimal, decimal_chars, str_le, string_of, strings_view};
use crate::validation::{Failure, fails_as, fails_with, image_token_detail, result_is, validate_max_tokens, validate_tool_text};

verus! {

// ---------------------------------------------------------------------------
// The model of the conversion

/// A group of consecutive tool calls and the outputs received for them.
pub struct GroupView {
    pub calls: Seq<ToolCallView>,
    pub outputs: Seq<(Seq<char>, (Seq<char>, Seq<ImageSourceView>))>,
}

/// The state of the conversion between input items.
pub struct ItemsView {
    pub messages: Seq<MessageView>,
    pub pending: Seq<Seq<char>>,
    pub resolved: Seq<Seq<char>>,
    pub group: Option<GroupView>,
    pub historical: Seq<(Seq<char>, Seq<char>, Seq<char>)>,
}

/// The path of input item `i`.
pub open spec fn input_path(i: int) -> Seq<char> {
    "input["@ + decimal(i as nat) + "]"@
}

/// The error detail of an empty call id at item `i`.
pub open spec fn empty_call_id(i: int) -> Seq<char> {
    "Invalid '"@ + input_path(i) + ".call_id': empty string. Expected a string with minimum length 1, but got an empty string instead."@
}

/// The error of a tool call id, if any.
pub open spec fn call_id_error(i: int, id: Seq<char>, pending: Seq<Seq<char>>, resolved: Seq<Seq<char>>) -> Option<Seq<char>> {
    if id.len() == 0 {
        Some(empty_call_id(i))
    } else if pending.contains(id) || resolved.contains(id) {
        Some("Duplicate 'call_id': "@ + id + "."@)
    } else {
        None
    }
}

/// The error of a tool output id, if any.
pub open spec fn output_id_error(i: int, id: Seq<char>, pending: Seq<Seq<char>>, resolved: Seq<Seq<char>>) -> Option<Seq<char>> {
    if id.len() == 0 {
        Some(empty_call_id(i))
    } else if !pending.contains(id) {
        if resolved.contains(id) {
            Some("Duplicate tool output for call_id: "@ + id + "."@)
        } else {
            Some("No tool call found for tool output with call_id "@ + id + "."@)
        }
    } else {
        None
    }
}

/// The error of calls still waiting for output, naming the earliest.
pub open spec fn pending_error(pending: Seq<Seq<char>>) -> Option<Seq<char>> {
    if pending.len() > 0 {
        Some("No tool output found for tool call "@ + pending[0] + "."@)
    } else {
        None
    }
}

/// `s` without `x`.
pub open spec fn without(s: Seq<Seq<char>>, x: Seq<char>) -> Seq<Seq<char>> {
    s.filter(|y: Seq<char>| y != x)
}

/// The index of the first output for `id` from `i` on, if any.
pub open spec fn output_index_from(outs: Seq<(Seq<char>, (Seq<char>, Seq<ImageSourceView>))>, id: Seq<char>, i: int) -> Option<int>
    decreases outs.len() - i,
{
    if i < 0 || i >= outs.len() {
        None
    } else if outs[i].0 == id {
        Some(i)
    } else {
        output_index_from(outs, id, i + 1)
    }
}

/// The index of the output for `id`, if any.
pub open spec fn output_index(outs: Seq<(Seq<char>, (Seq<char>, Seq<ImageSourceView>))>, id: Seq<char>) -> Option<int> {
    output_index_from(outs, id, 0)
}

/// The outputs with the output for `id` set to `out`.
pub open spec fn set_output(
    outs: Seq<(Seq<char>, (Seq<char>, Seq<ImageSourceView>))>,
    id: Seq<char>,
    out: (Seq<char>, Seq<ImageSourceView>),
) -> Seq<(Seq<char>, (Seq<char>, Seq<ImageSourceView>))> {
    match output_index(outs, id) {
        Some(k) => outs.update(k, (id, out)),
        None => outs.push((id, out)),
    }
}

/// `calls` with `c` inserted after every call whose id sorts before or
/// equal to its id.
pub open spec fn insert_call(t: Seq<ToolCallView>, c: ToolCallView) -> Seq<ToolCallView>
    decreases t.len(),
{
    if t.len() == 0 {
        seq![c]
    } else if str_le(t[0].id, c.id) {
        seq![t[0]] + insert_call(t.skip(1), c)
    } else {
        seq![c] + t
    }
}

/// The calls sorted by id; calls with equal ids keep their order.
pub open spec fn sort_calls(s: Seq<ToolCallView>) -> Seq<ToolCallView>
    decreases s.len(),
{
    if s.len() == 0 {
        Seq::empty()
    } else {
        insert_call(sort_calls(s.drop_last()), s.last())
    }
}

/// The tool messages of the calls, in order, each taking and using up the
/// output stored for its id.
pub open spec fn results_spec(calls: Seq<ToolCallView>, outs: Seq<(Seq<char>, (Seq<char>, Seq<ImageSourceView>))>) -> Seq<MessageView>
    decreases calls.len(),
{
    if calls.len() == 0 {
        Seq::empty()
    } else {
        match output_index(outs, calls[0].id) {
            Some(k) => seq![
                MessageView::Tool { content: outs[k].1.0, image_sources: outs[k].1.1, tool_call_id: calls[0].id },
            ] + results_spec(calls.skip(1), outs.remove(k)),
            None => results_spec(calls.skip(1), outs),
        }
    }
}

/// The empty assistant message.
pub open spec fn empty_assistant() -> MessageView {
    MessageView::Assistant { content: Seq::empty(), reasoning_content: None, tool_calls: None }
}

/// An assistant message with `calls` added to its tool calls.
pub open spec fn with_calls(m: MessageView, calls: Seq<ToolCallView>) -> MessageView {
    match m {
        MessageView::Assistant { content, reasoning_content, tool_calls } => MessageView::Assistant {
            content,
            reasoning_content,
            tool_calls: Some(
                match tool_calls {
                    Some(existing) => existing + calls,
                    None => calls,
                },
            ),
        },
        other => other,
    }
}

/// The messages after a group is written: its calls, sorted by id, join the
/// last assistant message (a new empty one where the last message is not an
/// assistant message), followed by one tool message per answered call.
pub open spec fn flush_messages(messages: Seq<MessageView>, g: GroupView) -> Seq<MessageView> {
    if g.calls.len() == 0 {
        messages
    } else {
        let calls = sort_calls(g.calls);
        let m1 = if messages.len() > 0 && messages.last() is Assistant {
            messages
        } else {
            messages.push(empty_assistant())
        };
        m1.drop_last().push(with_calls(m1.last(), calls)) + results_spec(calls, g.outputs)
    }
}

/// The state after the pending group, if any, is written.
pub open spec fn flush(st: ItemsView) -> ItemsView {
    match st.group {
        None => st,
        Some(g) => ItemsView { messages: flush_messages(st.messages, g), group: None, ..st },
    }
}

/// Whether a message is an assistant message without tool calls.
pub open spec fn is_open_assistant(m: MessageView) -> bool {
    match m {
        MessageView::Assistant { tool_calls, .. } => tool_calls is None,
        _ => false,
    }
}

/// Whether a message is an assistant message without content.
pub open spec fn is_blank_assistant(m: MessageView) -> bool {
    match m {
        MessageView::Assistant { content, .. } => content.len() == 0,
        _ => false,
    }
}

/// An assistant message with `t` added to its content after a blank line.
pub open spec fn with_text(m: MessageView, t: Seq<char>) -> MessageView {
    match m {
        MessageView::Assistant { content, reasoning_content, tool_calls } => MessageView::Assistant {
            content: (if content.len() > 0 { content + "\n\n"@ } else { content }) + t,
            reasoning_content,
            tool_calls,
        },
        other => other,
    }
}

/// The messages after an assistant message with text `t`: it joins a last
/// assistant message without tool calls, separated by a blank line.
pub open spec fn merge_assistant(messages: Seq<MessageView>, t: Seq<char>) -> Seq<MessageView> {
    if messages.len() > 0 && is_open_assistant(messages.last()) {
        if t.len() == 0 {
            messages
        } else {
            messages.drop_last().push(with_text(messages.last(), t))
        }
    } else {
        messages.push(MessageView::Assistant { content: t, reasoning_content: None, tool_calls: None })
    }
}

/// The messages after an input message, or the detail of its error.
pub open spec fn push_message_spec(messages: Seq<MessageView>, msg: ResponsesInputMessage, i: int) -> Result<Seq<MessageView>, Seq<char>> {
    let path = input_path(i);
    match msg.role {
        ResponsesMessageRole::System => match message_text_spec(msg.content, path, "system"@) {
            Err(e) => Err(e),
            Ok(t) => Ok(messages.push(MessageView::System { content: t })),
        },
        ResponsesMessageRole::Assistant => match message_text_spec(msg.content, path, "assistant"@) {
            Err(e) => Err(e),
            Ok(t) => Ok(merge_assistant(messages, t)),
        },
        _ => match message_content_spec(msg.content, path) {
            Err(e) => Err(e),
            Ok((t, images)) => Ok(messages.push(MessageView::User { content: t, image_sources: images })),
        },
    }
}

/// The texts of reasoning content.
pub open spec fn reasoning_texts(content: Seq<ResponsesReasoningContent>) -> Seq<Seq<char>> {
    Seq::new(content.len(), |i: int| content[i].text@)
}

/// The reasoning text of a reasoning item: its texts joined by newlines.
pub open spec fn reasoning_text(content: Option<Vec<ResponsesReasoningContent>>) -> Seq<char> {
    match content {
        Some(v) => join(reasoning_texts(v@), "\n"@),
        None => Seq::empty(),
    }
}

/// An assistant message with `text` added to its reasoning.
pub open spec fn with_reasoning(m: MessageView, text: Seq<char>) -> MessageView {
    match m {
        MessageView::Assistant { content, reasoning_content, tool_calls } => MessageView::Assistant {
            content,
            reasoning_content: Some(
                match reasoning_content {
                    Some(existing) => existing + "\n"@ + text,
                    None => text,
                },
            ),
            tool_calls,
        },
        other => other,
    }
}

/// The messages after reasoning text: non-empty text joins a last assistant
/// message without content, or a new empty assistant message.
pub open spec fn push_reasoning_spec(messages: Seq<MessageView>, text: Seq<char>) -> Seq<MessageView> {
    if text.len() == 0 {
        messages
    } else {
        let m1 = if messages.len() > 0 && is_blank_assistant(messages.last()) {
            messages
        } else {
            messages.push(empty_assistant())
        };
        m1.drop_last().push(with_reasoning(m1.last(), text))
    }
}

/// The arguments of a custom tool call: `{"input": <input>}` as compact JSON.
pub open spec fn custom_arguments(input: Seq<char>) -> Seq<char> {
    crate::json::compact_json(JsonView::Object(seq![("input"@, JsonView::Str(input))]))
}

/// The state after a tool call.
pub open spec fn push_call(st: ItemsView, call: ToolCallView) -> ItemsView {
    ItemsView {
        pending: st.pending.push(call.id),
        group: Some(
            match st.group {
                None => GroupView { calls: seq![call], outputs: Seq::empty() },
                Some(g) => GroupView { calls: g.calls.push(call), outputs: g.outputs },
            },
        ),
        ..st
    }
}

/// The state after the output for `id`: it is stored in the group, which is
/// written once it has as many outputs as calls.
pub open spec fn push_output(st: ItemsView, id: Seq<char>, out: (Seq<char>, Seq<ImageSourceView>)) -> ItemsView {
    match st.group {
        None => ItemsView {
            messages: st.messages.push(MessageView::Tool { content: out.0, image_sources: out.1, tool_call_id: id }),
            ..st
        },
        Some(g) => {
            let g2 = GroupView { calls: g.calls, outputs: set_output(g.outputs, id, out) };
            if g2.outputs.len() >= g2.calls.len() {
                ItemsView { messages: flush_messages(st.messages, g2), group: None, ..st }
            } else {
                ItemsView { group: Some(g2), ..st }
            }
        },
    }
}

/// The state after the id of an output is resolved.
pub open spec fn resolve(st: ItemsView, id: Seq<char>) -> ItemsView {
    ItemsView { pending: without(st.pending, id), resolved: st.resolved.push(id), ..st }
}

/// The state after a message item, or its error.
pub open spec fn message_item(st: ItemsView, msg: ResponsesInputMessage, i: int) -> Result<ItemsView, Seq<char>> {
    match pending_error(st.pending) {
        Some(e) => Err(e),
        None => {
            let f = flush(st);
            match push_message_spec(f.messages, msg, i) {
                Err(e) => Err(e),
                Ok(m) => Ok(ItemsView { messages: m, ..f }),
            }
        },
    }
}

/// The state after the output of a tool call, or its error.
pub open spec fn output_item(st: ItemsView, id: Seq<char>, content: Result<(Seq<char>, Seq<ImageSourceView>), Seq<char>>, i: int) -> Result<ItemsView, Seq<char>> {
    match output_id_error(i, id, st.pending, st.resolved) {
        Some(e) => Err(e),
        None => match content {
            Err(e) => Err(e),
            Ok(out) => Ok(push_output(resolve(st, id), id, out)),
        },
    }
}

/// The state after one input item, or its error.
pub open spec fn item_step(st: ItemsView, item: ResponsesInputItem, i: int, set: ToolSetView) -> Result<ItemsView, Seq<char>> {
    match item {
        ResponsesInputItem::Message(msg) => message_item(st, msg, i),
        ResponsesInputItem::Typed(typed) => match typed {
            ResponsesTypedInputItem::Message(msg) => message_item(st, msg, i),
            ResponsesTypedInputItem::Reasoning(r) => match pending_error(st.pending) {
                Some(e) => Err(e),
                None => {
                    let f = flush(st);
                    Ok(ItemsView { messages: push_reasoning_spec(f.messages, reasoning_text(r.content)), ..f })
                },
            },
            ResponsesTypedInputItem::FunctionCall(fc) => match call_id_error(i, fc.call_id@, st.pending, st.resolved) {
                Some(e) => Err(e),
                None => {
                    let named = call_name_spec(set, st.historical, opt_view(fc.namespace), fc.name@);
                    Ok(
                        push_call(
                            ItemsView { historical: named.1, ..st },
                            ToolCallView { id: fc.call_id@, name: named.0, arguments: fc.arguments@ },
                        ),
                    )
                },
            },
            ResponsesTypedInputItem::FunctionCallOutput(o) => output_item(
                st,
                o.call_id@,
                output_content_spec(o.output, input_path(i) + ".output"@),
                i,
            ),
            ResponsesTypedInputItem::CustomToolCall(c) => match call_id_error(i, c.call_id@, st.pending, st.resolved) {
                Some(e) => Err(e),
                None => Ok(push_call(st, ToolCallView { id: c.call_id@, name: c.name@, arguments: custom_arguments(c.input@) })),
            },
            ResponsesTypedInputItem::CustomToolCallOutput(o) => output_item(
                st,
                o.call_id@,
                match o.output {
                    Some(c) => output_content_spec(c, input_path(i) + ".output"@),
                    None => Ok((Seq::empty(), Seq::empty())),
                },
                i,
            ),
            ResponsesTypedInputItem::Unsupported => Ok(st),
        },
    }
}

/// The state after the first `n` items, or the first error.
pub open spec fn items_fold(items: Seq<ResponsesInputItem>, set: ToolSetView, m0: Seq<MessageView>, n: int) -> Result<ItemsView, Seq<char>>
    decreases n,
{
    if n <= 0 {
        Ok(ItemsView { messages: m0, pending: Seq::empty(), resolved: Seq::empty(), group: None, historical: Seq::empty() })
    } else {
        match items_fold(items, set, m0, n - 1) {
            Err(e) => Err(e),
            Ok(st) => item_step(st, items[n - 1], n - 1, set),
        }
    }
}

/// The messages after the input items, appended to `m0`, or the first
/// error: an empty list, an item's error, or a call without output.
pub open spec fn transform_items_spec(items: Seq<ResponsesInputItem>, set: ToolSetView, m0: Seq<MessageView>) -> Result<Seq<MessageView>, Seq<char>> {
    if items.len() == 0 {
        Err("Input items array must not be empty"@)
    } else {
        match items_fold(items, set, m0, items.len() as int) {
            Err(e) => Err(e),
            Ok(st) => {
                let f = flush(st);
                match pending_error(f.pending) {
                    Some(e) => Err(e),
                    None => Ok(f.messages),
                }
            },
        }
    }
}


// ---------------------------------------------------------------------------
// Tool call groups

/// A group of consecutive tool calls and the outputs received for them,
/// keyed by call id.
struct ToolCallGroup {
    calls: Vec<ToolCall>,
    outputs: Vec<(String, (String, Vec<ImageSource>))>,
}

/// The value of stored outputs.
spec fn outputs_view(o: Seq<(String, (String, Vec<ImageSource>))>) -> Seq<(Seq<char>, (Seq<char>, Seq<ImageSourceView>))> {
    Seq::new(o.len(), |i: int| (o[i].0@, pair_view(o[i].1)))
}

/// The value of a group.
spec fn group_view(g: ToolCallGroup) -> GroupView {
    GroupView { calls: calls_view(g.calls@), outputs: outputs_view(g.outputs@) }
}

/// Returns the index of the output stored for `id`.
fn find_output(outs: &Vec<(String, (String, Vec<ImageSource>))>, id: &str) -> (r: Option<usize>)
    ensures
        match r {
            Some(k) => k < outs@.len() && output_index(outputs_view(outs@), id@) == Some(k as int),
            None => output_index(outputs_view(outs@), id@) is None,
        },
{
    let ghost ov = outputs_view(outs@);
    let mut i: usize = 0;
    while i < outs.len()
        invariant
            i <= outs@.len(),
            ov == outputs_view(outs@),
            output_index(ov, id@) == output_index_from(ov, id@, i as int),
        decreases outs@.len() - i,
    {
        if crate::text::str_eq(outs[i].0.as_str(), id) {
            return Some(i);
        }
        i += 1;
    }
    None
}

/// Inserting after the calls whose ids sort before or equal to its id.
proof fn lemma_insert_call_at(t: Seq<ToolCallView>, c: ToolCallView, p: int)
    requires
        0 <= p <= t.len(),
        forall|k: int| 0 <= k < p ==> str_le(#[trigger] t[k].id, c.id),
        p < t.len() ==> !str_le(t[p].id, c.id),
    ensures
        insert_call(t, c) == t.insert(p, c),
    decreases p,
{
    if t.len() == 0 {
        assert(t.insert(p, c) =~= seq![c]);
    } else if p == 0 {
        assert(t.insert(0, c) =~= seq![c] + t);
    } else {
        assert forall|k: int| 0 <= k < p - 1 implies str_le(#[trigger] t.skip(1)[k].id, c.id) by {
            assert(t.skip(1)[k] == t[k + 1]);
        }
        if p - 1 < t.skip(1).len() {
            assert(t.skip(1)[p - 1] == t[p]);
        }
        lemma_insert_call_at(t.skip(1), c, p - 1);
        assert(seq![t[0]] + t.skip(1).insert(p - 1, c) =~= t.insert(p, c));
    }
}

/// Returns the calls sorted by id, keeping the order of equal ids.
fn sort_calls_exec(calls: &Vec<ToolCall>) -> (r: Vec<ToolCall>)
    ensures
        calls_view(r@) == sort_calls(calls_view(calls@)),
{
    let ghost cv = calls_view(calls@);
    let mut out: Vec<ToolCall> = Vec::new();
    let mut i: usize = 0;
    assert(calls_view(out@) =~= sort_calls(cv.take(0)));
    while i < calls.len()
        invariant
            i <= calls@.len(),
            cv == calls_view(calls@),
            calls_view(out@) == sort_calls(cv.take(i as int)),
        decreases calls@.len() - i,
    {
        let ghost ov = calls_view(out@);
        let mut p: usize = 0;
        while p < out.len() && crate::text::str_le_exec(out[p].id.as_str(), calls[i].id.as_str())
            invariant
                p <= out@.len(),
                ov == calls_view(out@),
                i < calls@.len(),
                cv == calls_view(calls@),
                forall|k: int| 0 <= k < p ==> str_le(#[trigger] ov[k].id, cv[i as int].id),
            decreases out@.len() - p,
        {
            p += 1;
        }
        proof {
            lemma_insert_call_at(ov, cv[i as int], p as int);
            assert(cv.take(i + 1).drop_last() =~= cv.take(i as int));
            assert(cv.take(i + 1).last() == cv[i as int]);
        }
        out.insert(p, calls[i].duplicate());
        assert(calls_view(out@) =~= ov.insert(p as int, cv[i as int]));
        i += 1;
    }
    assert(cv.take(calls@.len() as int) =~= cv);
    out
}

/// Returns the tool messages of the calls, each using up its output.
fn tool_results(calls: &Vec<ToolCall>, outputs: Vec<(String, (String, Vec<ImageSource>))>) -> (r: Vec<InputMessage>)
    ensures
        messages_view(r@) == results_spec(calls_view(calls@), outputs_view(outputs@)),
{
    let ghost cv = calls_view(calls@);
    let ghost total = results_spec(cv, outputs_view(outputs@));
    let mut cur = outputs;
    let mut acc: Vec<InputMessage> = Vec::new();
    let mut i: usize = 0;
    assert(cv.skip(0) =~= cv);
    assert(messages_view(acc@) =~= Seq::<MessageView>::empty());
    while i < calls.len()
        invariant
            i <= calls@.len(),
            cv == calls_view(calls@),
            messages_view(acc@) + results_spec(cv.skip(i as int), outputs_view(cur@)) == total,
        decreases calls@.len() - i,
    {
        let ghost rest = cv.skip(i as int);
        assert(rest[0] == cv[i as int]);
        assert(rest.skip(1) =~= cv.skip(i + 1));
        let ghost before = acc@;
        let ghost cur_v = outputs_view(cur@);
        match find_output(&cur, calls[i].id.as_str()) {
            Some(k) => {
                let (_, (content, images)) = cur.remove(k);
                assert(outputs_view(cur@) =~= cur_v.remove(k as int));
                acc.push(InputMessage::Tool { content, image_sources: images, tool_call_id: calls[i].id.clone() });
                assert(messages_view(acc@) =~= messages_view(before).push(
                    MessageView::Tool { content: cur_v[k as int].1.0, image_sources: cur_v[k as int].1.1, tool_call_id: cv[i as int].id },
                ));
                assert(messages_view(acc@) + results_spec(cv.skip(i + 1), outputs_view(cur@)) =~= messages_view(before)
                    + results_spec(rest, cur_v));
            },
            None => {},
        }
        i += 1;
    }
    assert(cv.skip(i as int) =~= Seq::<ToolCallView>::empty());
    assert(messages_view(acc@) =~= total);
    acc
}

/// Returns `existing` followed by `more`.
fn joined_calls(existing: Vec<ToolCall>, more: Vec<ToolCall>) -> (r: Vec<ToolCall>)
    ensures
        calls_view(r@) == calls_view(existing@) + calls_view(more@),
{
    let mut a = existing;
    let mut b = more;
    let ghost av = calls_view(a@);
    let ghost bv = calls_view(b@);
    a.append(&mut b);
    assert(calls_view(a@) =~= av + bv);
    a
}

/// Write a group: its calls, sorted by id, join the last assistant message,
/// followed by the tool messages of the answered calls.
fn append_messages(messages: &mut Vec<InputMessage>, group: ToolCallGroup)
    ensures
        messages_view(final(messages)@) == flush_messages(messages_view(old(messages)@), group_view(group)),
{
    if group.calls.len() == 0 {
        return;
    }
    let ghost gv = group_view(group);
    let ghost m0 = messages_view(messages@);
    let calls = sort_calls_exec(&group.calls);
    let mut results = tool_results(&calls, group.outputs);
    let n = messages.len();
    let is_assistant = n > 0 && matches!(messages[n - 1], InputMessage::Assistant { .. });
    if !is_assistant {
        messages.push(InputMessage::Assistant { content: String::new(), reasoning_content: None, tool_calls: None });
        assert(messages_view(messages@) =~= m0.push(empty_assistant()));
    } else {
        assert(m0.last() == messages@[n - 1]@);
    }
    let ghost m1 = messages_view(messages@);
    let last = messages.pop().unwrap();
    assert(messages_view(messages@) =~= m1.drop_last());
    let ghost cv = calls_view(calls@);
    let updated = match last {
        InputMessage::Assistant { content, reasoning_content, tool_calls } => {
            let all = match tool_calls {
                Some(existing) => joined_calls(existing, calls),
                None => calls,
            };
            InputMessage::Assistant { content, reasoning_content, tool_calls: Some(all) }
        },
        other => other,
    };
    assert(updated@ == with_calls(m1.last(), cv));
    messages.push(updated);
    let ghost rv = messages_view(results@);
    messages.append(&mut results);
    assert(messages_view(messages@) =~= m1.drop_last().push(with_calls(m1.last(), cv)) + rv);
}


// ---------------------------------------------------------------------------
// Messages and reasoning

/// Returns the path of input item `i`.
fn input_path_exec(i: usize) -> (r: String)
    ensures
        r@ == input_path(i as int),
{
    let mut out: Vec<char> = Vec::new();
    append_str(&mut out, "input[");
    let d = decimal_chars(i);
    append_chars(&mut out, d.as_slice());
    append_str(&mut out, "]");
    assert(out@ =~= input_path(i as int));
    string_of(out.as_slice())
}

/// Add the text of an assistant message, joining a last assistant message
/// without tool calls.
fn merge_assistant_exec(messages: &mut Vec<InputMessage>, t: String)
    ensures
        messages_view(final(messages)@) == merge_assistant(messages_view(old(messages)@), t@),
{
    let ghost m0 = messages_view(messages@);
    let n = messages.len();
    let open = n > 0 && match &messages[n - 1] {
        InputMessage::Assistant { tool_calls, .. } => tool_calls.is_none(),
        _ => false,
    };
    if n > 0 {
        assert(m0.last() == messages@[n - 1]@);
    }
    if open {
        if t.as_str().is_empty() {
            return;
        }
        let last = messages.pop().unwrap();
        assert(messages_view(messages@) =~= m0.drop_last());
        let updated = match last {
            InputMessage::Assistant { content, reasoning_content, tool_calls } => {
                let mut c = crate::text::chars_of(content.as_str());
                if !content.as_str().is_empty() {
                    append_str(&mut c, "\n\n");
                }
                append_str(&mut c, t.as_str());
                assert(c@ =~= (if content@.len() > 0 { content@ + "\n\n"@ } else { content@ }) + t@);
                InputMessage::Assistant { content: string_of(c.as_slice()), reasoning_content, tool_calls }
            },
            other => other,
        };
        assert(updated@ == with_text(m0.last(), t@));
        messages.push(updated);
        assert(messages_view(messages@) =~= m0.drop_last().push(with_text(m0.last(), t@)));
    } else {
        messages.push(InputMessage::Assistant { content: t, reasoning_content: None, tool_calls: None });
        assert(messages_view(messages@) =~= m0.push(MessageView::Assistant { content: t@, reasoning_content: None, tool_calls: None }));
    }
}

/// Convert an input message and add it.
fn push_message(msg: &ResponsesInputMessage, i: usize, messages: &mut Vec<InputMessage>) -> (r: Result<(), ConversionError>)
    ensures
        match push_message_spec(messages_view(old(messages)@), *msg, i as int) {
            Ok(m) => r is Ok && messages_view(final(messages)@) == m,
            Err(d) => fails_with(r, d),
        },
{
    let ghost m0 = messages_view(messages@);
    let path = input_path_exec(i);
    match msg.role {
        ResponsesMessageRole::System => {
            let t = match msg.content.into_text(path.as_str(), "system") {
                Ok(t) => t,
                Err(e) => {
                    return Err(e);
                },
            };
            messages.push(InputMessage::System { content: t });
            assert(messages_view(messages@) =~= m0.push(MessageView::System { content: t@ }));
        },
        ResponsesMessageRole::Assistant => {
            let t = match msg.content.into_text(path.as_str(), "assistant") {
                Ok(t) => t,
                Err(e) => {
                    return Err(e);
                },
            };
            merge_assistant_exec(messages, t);
        },
        _ => {
            let (t, images) = match msg.content.into_content(path.as_str()) {
                Ok(p) => p,
                Err(e) => {
                    return Err(e);
                },
            };
            let ghost iv = sources_view(images@);
            messages.push(InputMessage::User { content: t, image_sources: images });
            assert(messages_view(messages@) =~= m0.push(MessageView::User { content: t@, image_sources: iv }));
        },
    }
    Ok(())
}

/// Returns the reasoning text of a reasoning item.
fn reasoning_text_exec(content: &Option<Vec<ResponsesReasoningContent>>) -> (r: String)
    ensures
        r@ == reasoning_text(*content),
{
    match content {
        Some(v) => {
            let mut texts: Vec<String> = Vec::new();
            let mut i: usize = 0;
            while i < v.len()
                invariant
                    i <= v@.len(),
                    strings_view(texts@) == reasoning_texts(v@).take(i as int),
                decreases v@.len() - i,
            {
                let ghost before = texts@;
                texts.push(v[i].text.clone());
                assert(strings_view(texts@) =~= strings_view(before).push(v@[i as int].text@));
                assert(reasoning_texts(v@).take(i + 1) =~= reasoning_texts(v@).take(i as int).push(v@[i as int].text@));
                i += 1;
            }
            assert(reasoning_texts(v@).take(i as int) =~= reasoning_texts(v@));
            crate::text::join_strings(&texts, "\n")
        },
        None => String::new(),
    }
}

/// Add reasoning text to the last assistant message without content, or to
/// a new empty assistant message.
fn push_reasoning(content: &Option<Vec<ResponsesReasoningContent>>, messages: &mut Vec<InputMessage>)
    ensures
        messages_view(final(messages)@) == push_reasoning_spec(messages_view(old(messages)@), reasoning_text(*content)),
{
    let text = reasoning_text_exec(content);
    if text.as_str().is_empty() {
        return;
    }
    let ghost m0 = messages_view(messages@);
    let n = messages.len();
    let blank = n > 0 && match &messages[n - 1] {
        InputMessage::Assistant { content, .. } => content.as_str().is_empty(),
        _ => false,
    };
    if n > 0 {
        assert(m0.last() == messages@[n - 1]@);
    }
    if !blank {
        messages.push(InputMessage::Assistant { content: String::new(), reasoning_content: None, tool_calls: None });
        assert(messages_view(messages@) =~= m0.push(empty_assistant()));
    }
    let ghost m1 = messages_view(messages@);
    let last = messages.pop().unwrap();
    assert(messages_view(messages@) =~= m1.drop_last());
    let updated = match last {
        InputMessage::Assistant { content, reasoning_content, tool_calls } => {
            let r = match reasoning_content {
                Some(existing) => {
                    let mut c = crate::text::chars_of(existing.as_str());
                    append_str(&mut c, "\n");
                    append_str(&mut c, text.as_str());
                    assert(c@ =~= existing@ + "\n"@ + text@);
                    string_of(c.as_slice())
                },
                None => text,
            };
            InputMessage::Assistant { content, reasoning_content: Some(r), tool_calls }
        },
        other => other,
    };
    assert(updated@ == with_reasoning(m1.last(), reasoning_text(*content)));
    messages.push(updated);
    assert(messages_view(messages@) =~= m1.drop_last().push(with_reasoning(m1.last(), reasoning_text(*content))));
}


// ---------------------------------------------------------------------------
// Input items

/// The state of the conversion between input items.
struct ItemsState {
    messages: Vec<InputMessage>,
    pending: Vec<String>,
    resolved: Vec<String>,
    group: Option<ToolCallGroup>,
    historical: Vec<(String, String, String)>,
}

/// The value of the state.
spec fn items_view(s: ItemsState) -> ItemsView {
    ItemsView {
        messages: messages_view(s.messages@),
        pending: strings_view(s.pending@),
        resolved: strings_view(s.resolved@),
        group: match s.group {
            Some(g) => Some(group_view(g)),
            None => None,
        },
        historical: triples_view(s.historical@),
    }
}

/// Returns the error detail of an empty call id at item `i`.
fn empty_call_id_error(i: usize) -> (r: ConversionError)
    ensures
        crate::validation::bad_request_with(r, empty_call_id(i as int)),
{
    let mut out: Vec<char> = Vec::new();
    append_str(&mut out, "Invalid '");
    let p = input_path_exec(i);
    append_str(&mut out, p.as_str());
    append_str(&mut out, ".call_id': empty string. Expected a string with minimum length 1, but got an empty string instead.");
    assert(out@ =~= empty_call_id(i as int));
    ConversionError::bad_request(string_of(out.as_slice()))
}

/// Returns `prefix`, `id` and a full stop.
fn id_message(prefix: &str, id: &str) -> (r: String)
    ensures
        r@ == prefix@ + id@ + "."@,
{
    crate::validation::concat3(prefix, id, ".")
}

impl ItemsState {
    /// Check the id of a tool call.
    fn check_tool_call_id(&self, i: usize, id: &str) -> (r: Result<(), ConversionError>)
        ensures
            match call_id_error(i as int, id@, items_view(*self).pending, items_view(*self).resolved) {
                Some(d) => fails_with(r, d),
                None => r is Ok,
            },
    {
        if id.is_empty() {
            return Err(empty_call_id_error(i));
        }
        if crate::text::strings_contain(&self.pending, id) || crate::text::strings_contain(&self.resolved, id) {
            return Err(ConversionError::bad_request(id_message("Duplicate 'call_id': ", id)));
        }
        Ok(())
    }

    /// Check the id of a tool output.
    fn check_tool_output_id(&self, i: usize, id: &str) -> (r: Result<(), ConversionError>)
        ensures
            match output_id_error(i as int, id@, items_view(*self).pending, items_view(*self).resolved) {
                Some(d) => fails_with(r, d),
                None => r is Ok,
            },
    {
        if id.is_empty() {
            return Err(empty_call_id_error(i));
        }
        if !crate::text::strings_contain(&self.pending, id) {
            if crate::text::strings_contain(&self.resolved, id) {
                return Err(ConversionError::bad_request(id_message("Duplicate tool output for call_id: ", id)));
            }
            return Err(ConversionError::bad_request(id_message("No tool call found for tool output with call_id ", id)));
        }
        Ok(())
    }

    /// Fail where a call still waits for its output.
    fn check_pending_calls(&self) -> (r: Result<(), ConversionError>)
        ensures
            match pending_error(items_view(*self).pending) {
                Some(d) => fails_with(r, d),
                None => r is Ok,
            },
    {
        if self.pending.len() > 0 {
            return Err(ConversionError::bad_request(id_message("No tool output found for tool call ", self.pending[0].as_str())));
        }
        Ok(())
    }

    /// Write the pending group, if any.
    fn append_tool_call_group(&mut self)
        ensures
            items_view(*final(self)) == flush(items_view(*old(self))),
    {
        let g = self.group.take();
        match g {
            Some(g) => append_messages(&mut self.messages, g),
            None => {},
        }
    }

    /// Add a tool call to the pending group.
    fn push_call_to_group(&mut self, call: ToolCall)
        ensures
            items_view(*final(self)) == push_call(items_view(*old(self)), call@),
    {
        let ghost v0 = items_view(*self);
        let ghost pv = strings_view(self.pending@);
        self.pending.push(call.id.clone());
        assert(strings_view(self.pending@) =~= pv.push(call@.id));
        let g = self.group.take();
        let g2 = match g {
            Some(mut g) => {
                let ghost cv = calls_view(g.calls@);
                g.calls.push(call);
                assert(calls_view(g.calls@) =~= cv.push(call@));
                g
            },
            None => {
                let mut calls: Vec<ToolCall> = Vec::new();
                calls.push(call);
                let outputs: Vec<(String, (String, Vec<ImageSource>))> = Vec::new();
                assert(calls_view(calls@) =~= seq![call@]);
                assert(outputs_view(outputs@) =~= Seq::<(Seq<char>, (Seq<char>, Seq<ImageSourceView>))>::empty());
                ToolCallGroup { calls, outputs }
            },
        };
        self.group = Some(g2);
    }

    /// Move the id of an output from the pending to the resolved ids.
    fn resolve(&mut self, id: &String)
        ensures
            items_view(*final(self)) == resolve(items_view(*old(self)), id@),
    {
        let ghost pv = strings_view(self.pending@);
        let mut kept: Vec<String> = Vec::new();
        let mut i: usize = 0;
        while i < self.pending.len()
            invariant
                i <= self.pending@.len(),
                pv == strings_view(self.pending@),
                strings_view(kept@) == without(pv.take(i as int), id@),
            decreases self.pending@.len() - i,
        {
            let ghost before = kept@;
            proof {
                reveal(Seq::filter);
                assert(pv.take(i + 1).drop_last() =~= pv.take(i as int));
            }
            if !crate::text::str_eq(self.pending[i].as_str(), id.as_str()) {
                kept.push(self.pending[i].clone());
                assert(strings_view(kept@) =~= strings_view(before).push(pv[i as int]));
            }
            i += 1;
        }
        assert(pv.take(i as int) =~= pv);
        self.pending = kept;
        let ghost rv = strings_view(self.resolved@);
        self.resolved.push(id.clone());
        assert(strings_view(self.resolved@) =~= rv.push(id@));
    }

    /// Store the output for `id`, writing the group once it is complete.
    fn push_output_to_group(&mut self, id: String, out: (String, Vec<ImageSource>))
        ensures
            items_view(*final(self)) == push_output(items_view(*old(self)), id@, pair_view(out)),
    {
        let ghost ov = pair_view(out);
        let g = self.group.take();
        match g {
            None => {
                let ghost m0 = messages_view(self.messages@);
                let (content, images) = out;
                self.messages.push(InputMessage::Tool { content, image_sources: images, tool_call_id: id });
                assert(messages_view(self.messages@) =~= m0.push(MessageView::Tool { content: ov.0, image_sources: ov.1, tool_call_id: id@ }));
            },
            Some(mut g) => {
                let ghost gv = group_view(g);
                match find_output(&g.outputs, id.as_str()) {
                    Some(k) => {
                        g.outputs.set(k, (id, out));
                    },
                    None => {
                        g.outputs.push((id, out));
                    },
                }
                assert(outputs_view(g.outputs@) =~= set_output(gv.outputs, id@, ov));
                if g.outputs.len() >= g.calls.len() {
                    append_messages(&mut self.messages, g);
                } else {
                    self.group = Some(g);
                }
            },
        }
    }

    /// Add a message item.
    fn message_item(&mut self, msg: &ResponsesInputMessage, i: usize) -> (r: Result<(), ConversionError>)
        ensures
            match message_item(items_view(*old(self)), *msg, i as int) {
                Ok(s) => r is Ok && items_view(*final(self)) == s,
                Err(d) => fails_with(r, d),
            },
    {
        if let Err(e) = self.check_pending_calls() {
            return Err(e);
        }
        self.append_tool_call_group();
        push_message(msg, i, &mut self.messages)
    }

    /// Add a tool output whose content is `content`.
    fn output_item(&mut self, i: usize, id: &String, content: Option<&ResponsesToolCallOutputContent>) -> (r: Result<(), ConversionError>)
        ensures
            match output_item(
                items_view(*old(self)),
                id@,
                match content {
                    Some(c) => output_content_spec(*c, input_path(i as int) + ".output"@),
                    None => Ok((Seq::empty(), Seq::empty())),
                },
                i as int,
            ) {
                Ok(s) => r is Ok && items_view(*final(self)) == s,
                Err(d) => fails_with(r, d),
            },
    {
        if let Err(e) = self.check_tool_output_id(i, id.as_str()) {
            return Err(e);
        }
        self.resolve(id);
        let out = match content {
            Some(c) => {
                let path = concat(input_path_exec(i).as_str(), ".output");
                match c.into_content(path.as_str()) {
                    Ok(p) => p,
                    Err(e) => {
                        return Err(e);
                    },
                }
            },
            None => {
                let images: Vec<ImageSource> = Vec::new();
                assert(sources_view(images@) =~= Seq::<ImageSourceView>::empty());
                (String::new(), images)
            },
        };
        self.push_output_to_group(id.clone(), out);
        Ok(())
    }

    /// Add one input item.
    fn process_item(&mut self, item: &ResponsesInputItem, i: usize, tools: &ResponsesToolSet) -> (r: Result<(), ConversionError>)
        ensures
            match item_step(items_view(*old(self)), *item, i as int, tools@) {
                Ok(s) => r is Ok && items_view(*final(self)) == s,
                Err(d) => fails_with(r, d),
            },
    {
        match item {
            ResponsesInputItem::Message(msg) => self.message_item(msg, i),
            ResponsesInputItem::Typed(typed) => match typed {
                ResponsesTypedInputItem::Message(msg) => self.message_item(msg, i),
                ResponsesTypedInputItem::Reasoning(reasoning) => {
                    if let Err(e) = self.check_pending_calls() {
                        return Err(e);
                    }
                    self.append_tool_call_group();
                    push_reasoning(&reasoning.content, &mut self.messages);
                    Ok(())
                },
                ResponsesTypedInputItem::FunctionCall(fc) => {
                    if let Err(e) = self.check_tool_call_id(i, fc.call_id.as_str()) {
                        return Err(e);
                    }
                    let call = crate::responses_request::ResponsesFunctionCall {
                        arguments: fc.arguments.clone(),
                        call_id: fc.call_id.clone(),
                        name: fc.name.clone(),
                        namespace: crate::conversation::duplicate_opt(&fc.namespace),
                    };
                    let tool_call = tools.function_call(call, &mut self.historical);
                    self.push_call_to_group(tool_call);
                    Ok(())
                },
                ResponsesTypedInputItem::FunctionCallOutput(o) => self.output_item(i, &o.call_id, Some(&o.output)),
                ResponsesTypedInputItem::CustomToolCall(c) => {
                    if let Err(e) = self.check_tool_call_id(i, c.call_id.as_str()) {
                        return Err(e);
                    }
                    let mut members: Vec<(String, JsonValue)> = Vec::new();
                    members.push(("input".to_string(), JsonValue::String(c.input.clone())));
                    proof {
                        crate::json::lemma_member_views_len(members@);
                        crate::json::lemma_member_views_index(members@, 0);
                    }
                    assert(crate::json::member_views(members@) =~= seq![("input"@, JsonView::Str(c.input@))]);
                    let args = crate::json::to_json_string(&JsonValue::Object(members));
                    self.push_call_to_group(ToolCall { id: c.call_id.clone(), name: c.name.clone(), arguments: args });
                    Ok(())
                },
                ResponsesTypedInputItem::CustomToolCallOutput(o) => self.output_item(i, &o.call_id, o.output.as_ref()),
                ResponsesTypedInputItem::Unsupported => Ok(()),
            },
        }
    }
}

/// Once the fold of the items fails, later items keep the error.
proof fn lemma_items_fold_err(items: Seq<ResponsesInputItem>, set: ToolSetView, m0: Seq<MessageView>, n: int, m: int)
    requires
        0 <= n <= m,
        items_fold(items, set, m0, n) is Err,
    ensures
        items_fold(items, set, m0, m) == items_fold(items, set, m0, n),
    decreases m - n,
{
    if n < m {
        lemma_items_fold_err(items, set, m0, n, m - 1);
    }
}

/// Convert the input items after the messages already in `messages`:
/// messages, plaintext reasoning, and tool calls grouped with their outputs.
/// Every call id must be non-empty and unique, every output must answer a
/// pending call, and every call must get its output before the next message
/// or reasoning item and by the end of the input.
pub fn transform_input_items(items: &Vec<ResponsesInputItem>, messages: &mut Vec<InputMessage>, tools: &ResponsesToolSet) -> (r: Result<
    (),
    ConversionError,
>)
    ensures
        match transform_items_spec(items@, tools@, messages_view(old(messages)@)) {
            Ok(m) => r is Ok && messages_view(final(messages)@) == m,
            Err(d) => fails_with(r, d),
        },
{
    if items.len() == 0 {
        return Err(ConversionError::bad_request("Input items array must not be empty".to_string()));
    }
    let ghost m0 = messages_view(messages@);
    let ghost set = tools@;
    let mut taken: Vec<InputMessage> = Vec::new();
    std::mem::swap(&mut taken, messages);
    let mut st = ItemsState { messages: taken, pending: Vec::new(), resolved: Vec::new(), group: None, historical: Vec::new() };
    assert(strings_view(st.pending@) =~= Seq::<Seq<char>>::empty());
    assert(strings_view(st.resolved@) =~= Seq::<Seq<char>>::empty());
    assert(triples_view(st.historical@) =~= Seq::<(Seq<char>, Seq<char>, Seq<char>)>::empty());
    let n = items.len();
    let mut i: usize = 0;
    while i < n
        invariant
            n == items@.len(),
            i <= n,
            set == tools@,
            n > 0,
            m0 == messages_view(old(messages)@),
            items_fold(items@, set, m0, i as int) == Ok::<ItemsView, Seq<char>>(items_view(st)),
        decreases n - i,
    {
        if let Err(e) = st.process_item(&items[i], i, tools) {
            proof {
                lemma_items_fold_err(items@, set, m0, i + 1, n as int);
            }
            return Err(e);
        }
        i += 1;
    }
    st.append_tool_call_group();
    if let Err(e) = st.check_pending_calls() {
        return Err(e);
    }
    std::mem::swap(&mut st.messages, messages);
    Ok(())
}


// ---------------------------------------------------------------------------
// Requests

/// The requested reasoning effort of a request.
pub open spec fn requested_effort(req: ResponsesRequest) -> Option<ResponsesReasoningEffort> {
    match req.reasoning {
        Some(r) => r.effort,
        None => None,
    }
}

/// The thinking mode and the reasoning effort of a request: an explicit
/// effort decides, `none` disabling thinking; without one, the adapter
/// default decides, with high effort.
pub open spec fn thinking_spec(req: ResponsesRequest, default_thinking: bool) -> (bool, Option<ReasoningEffort>) {
    match requested_effort(req) {
        Some(ResponsesReasoningEffort::Off) => (false, None),
        Some(ResponsesReasoningEffort::Minimal) => (true, Some(ReasoningEffort::Low)),
        Some(ResponsesReasoningEffort::Low) => (true, Some(ReasoningEffort::Low)),
        Some(ResponsesReasoningEffort::Medium) => (true, Some(ReasoningEffort::High)),
        Some(ResponsesReasoningEffort::High) => (true, Some(ReasoningEffort::High)),
        Some(ResponsesReasoningEffort::Xhigh) => (true, Some(ReasoningEffort::Xhigh)),
        Some(ResponsesReasoningEffort::Max) => (true, Some(ReasoningEffort::Max)),
        None => if default_thinking {
            (true, Some(ReasoningEffort::High))
        } else {
            (false, None)
        },
    }
}

/// The first failure of the inference settings of a request.
pub open spec fn inference_failure(req: ResponsesRequest) -> Option<Failure> {
    if req.max_output_tokens == Some(0u32) {
        Some(Failure::Detail("max_output_tokens"@ + " must be greater than zero"@))
    } else if req.sampling_error is Some {
        Some(Failure::Error(req.sampling_error->0))
    } else {
        None
    }
}

/// The tool declarations of a request.
pub open spec fn request_tools(req: ResponsesRequest) -> Seq<ResponsesTool> {
    match req.tools {
        Some(v) => v@,
        None => Seq::empty(),
    }
}

/// The messages before the input: non-empty instructions as a system
/// message.
pub open spec fn initial_messages(req: ResponsesRequest) -> Seq<MessageView> {
    match req.instructions {
        Some(t) => if t@.len() > 0 {
            seq![MessageView::System { content: t@ }]
        } else {
            Seq::empty()
        },
        None => Seq::empty(),
    }
}

/// The messages of a request, or the detail of its error.
pub open spec fn input_messages(req: ResponsesRequest, set: ToolSetView) -> Result<Seq<MessageView>, Seq<char>> {
    let m0 = initial_messages(req);
    match req.input {
        Some(ResponsesInput::String(s)) => Ok(m0.push(MessageView::User { content: s@, image_sources: Seq::empty() })),
        Some(ResponsesInput::Items(items)) => transform_items_spec(items@, set, m0),
        None => if m0.len() == 0 {
            Err("Either input or instructions must be provided"@)
        } else {
            Ok(m0)
        },
    }
}

/// The requested text format of a request.
pub open spec fn text_format(req: ResponsesRequest) -> ResponsesTextFormat {
    match req.text {
        Some(t) => t.format,
        None => ResponsesTextFormat::Text,
    }
}

/// The response format of a text format, or the detail of its error: JSON
/// object output needs the word `json` in the messages.
pub open spec fn text_format_spec(mv: Seq<MessageView>, format: ResponsesTextFormat) -> Result<ResponseFormat, Seq<char>> {
    match format {
        ResponsesTextFormat::JsonObject => if crate::validation::messages_mention_json(mv) {
            Ok(ResponseFormat::JsonObject)
        } else {
            Err("Response input messages must contain the word 'json' to use text.format of type json_object"@)
        },
        _ => Ok(ResponseFormat::Text),
    }
}

/// The first failure of the conversion of a request, if any: the image
/// placeholder in the input, inference settings, tools, input items, the
/// tool choice, the image placeholder in tools and tool calls, and the text
/// format.
pub open spec fn convert_failure(req: ResponsesRequest, options: ConversionOptions) -> Option<Failure> {
    let thinking = thinking_spec(req, options.default_thinking_mode).0;
    if input_has_token(req.input, req.instructions) {
        Some(Failure::Detail(image_token_detail()))
    } else if inference_failure(req) is Some {
        inference_failure(req)
    } else {
        match tool_set_spec(request_tools(req), options.responses_web_search) {
            Err(d) => Some(Failure::Detail(d)),
            Ok(set) => match input_messages(req, set) {
                Err(d) => Some(Failure::Detail(d)),
                Ok(mv) => match select_spec(set, req.tool_choice, thinking, options.responses_web_search) {
                    Err(e) => Some(crate::validation::failure_of(e)),
                    Ok((defs, _)) => if crate::validation::tool_text_bad(defs, mv) {
                        Some(Failure::Detail(image_token_detail()))
                    } else {
                        match text_format_spec(mv, text_format(req)) {
                            Err(d) => Some(Failure::Detail(d)),
                            Ok(_) => None,
                        }
                    },
                },
            },
        }
    }
}

/// The conversation request of a request that converts.
pub open spec fn converted(req: ResponsesRequest, options: ConversionOptions, out: ConversationRequest) -> bool {
    let (thinking, effort) = thinking_spec(req, options.default_thinking_mode);
    let set = tool_set_spec(request_tools(req), options.responses_web_search)->Ok_0;
    let mv = input_messages(req, set)->Ok_0;
    let tools = select_spec(set, req.tool_choice, thinking, options.responses_web_search)->Ok_0;
    let rf = text_format_spec(mv, text_format(req))->Ok_0;
    &&& messages_view(out.conversation.messages@) == mv
    &&& out.conversation.thinking_mode == thinking
    &&& out.conversation.reasoning_effort == effort
    &&& tools_view(out.conversation.tools@) == tools.0
    &&& out.conversation.tool_choice == tools.1
    &&& out.conversation.response_format == rf
    &&& out.parsing_options.parse_tool_calls == (tools.0.len() > 0)
    &&& out.parsing_options.tool_call_initial_stage == (tools.1 == ToolChoice::Required)
    &&& out.parsing_options.parse_json_output == (rf == ResponseFormat::JsonObject)
    &&& out.parsing_options.reasoning_initial_stage == (if thinking { Some(ReasoningStage::Start) } else { None::<ReasoningStage> })
    &&& out.parsing_options.stop_sequences@.len() == 0
    &&& out.max_tokens == req.max_output_tokens
    &&& out.thinking_budget_tokens is None
    &&& out.disable_parallel_tool_use is None
    &&& out.model matches Some(m) && m@ == req.model@
    &&& out.stream == (req.stream == Some(true))
}

/// The names of the custom tools of a list of declarations, each once, in
/// the order they first appear.
pub open spec fn custom_names(tools: Seq<ResponsesTool>) -> Seq<Seq<char>>
    decreases tools.len(),
{
    if tools.len() == 0 {
        Seq::empty()
    } else {
        let before = custom_names(tools.drop_last());
        match tools.last() {
            ResponsesTool::Custom { name } => if before.contains(name@) {
                before
            } else {
                before.push(name@)
            },
            _ => before,
        }
    }
}

/// Returns the response format of a text format.
fn convert_text_format(text: &Option<ResponsesTextConfig>, messages: &Vec<InputMessage>) -> (r: Result<ResponseFormat, ConversionError>)
    ensures
        result_is(
            r,
            text_format_spec(messages_view(messages@), match text { Some(t) => t.format, None => ResponsesTextFormat::Text }),
            |f: ResponseFormat| f,
        ),
{
    let format = match text {
        Some(t) => t.format,
        None => ResponsesTextFormat::Text,
    };
    match format {
        ResponsesTextFormat::JsonObject => {
            if !crate::validation::contains_json_instruction(messages) {
                return Err(
                    ConversionError::bad_request(
                        "Response input messages must contain the word 'json' to use text.format of type json_object".to_string(),
                    ),
                );
            }
            Ok(ResponseFormat::JsonObject)
        },
        _ => Ok(ResponseFormat::Text),
    }
}

impl ResponsesRequest {
    /// The thinking mode and the reasoning effort of the request.
    pub fn resolve_thinking(&self, options: ConversionOptions) -> (r: (bool, Option<ReasoningEffort>))
        ensures
            r == thinking_spec(*self, options.default_thinking_mode),
    {
        let effort = match &self.reasoning {
            Some(r) => r.effort,
            None => None,
        };
        match effort {
            Some(ResponsesReasoningEffort::Off) => (false, None),
            Some(ResponsesReasoningEffort::Minimal) | Some(ResponsesReasoningEffort::Low) => (true, Some(ReasoningEffort::Low)),
            Some(ResponsesReasoningEffort::Medium) | Some(ResponsesReasoningEffort::High) => (true, Some(ReasoningEffort::High)),
            Some(ResponsesReasoningEffort::Xhigh) => (true, Some(ReasoningEffort::Xhigh)),
            Some(ResponsesReasoningEffort::Max) => (true, Some(ReasoningEffort::Max)),
            None => if options.default_thinking_mode {
                (true, Some(ReasoningEffort::High))
            } else {
                (false, None)
            },
        }
    }

    /// Check `max_output_tokens` and the sampling range.
    pub fn inference_options(&self) -> (r: Result<Option<u32>, ConversionError>)
        ensures
            match inference_failure(*self) {
                Some(f) => fails_as(r, f),
                None => r == Ok::<Option<u32>, ConversionError>(self.max_output_tokens),
            },
    {
        if let Err(e) = validate_max_tokens(self.max_output_tokens, "max_output_tokens") {
            return Err(e);
        }
        if let Some(e) = &self.sampling_error {
            return Err(e.duplicate());
        }
        Ok(self.max_output_tokens)
    }

    /// The custom tool names declared in the request, each once. Read them
    /// before `convert` and pass them to
    /// [`ResponsesChunkGenerator::with_custom_tool_names`](crate::responses_generator::ResponsesChunkGenerator::with_custom_tool_names).
    pub fn custom_tool_names(&self) -> (r: Vec<String>)
        ensures
            strings_view(r@) == custom_names(request_tools(*self)),
    {
        let mut names: Vec<String> = Vec::new();
        match &self.tools {
            Some(tools) => {
                let mut i: usize = 0;
                assert(tools@.take(0) =~= Seq::<ResponsesTool>::empty());
                while i < tools.len()
                    invariant
                        i <= tools@.len(),
                        strings_view(names@) == custom_names(tools@.take(i as int)),
                    decreases tools@.len() - i,
                {
                    assert(tools@.take(i + 1).drop_last() =~= tools@.take(i as int));
                    if let ResponsesTool::Custom { name } = &tools[i] {
                        if !crate::text::strings_contain(&names, name.as_str()) {
                            let ghost before = names@;
                            names.push(name.clone());
                            assert(strings_view(names@) =~= strings_view(before).push(name@));
                        }
                    }
                    i += 1;
                }
                assert(tools@.take(i as int) =~= tools@);
            },
            None => {
                assert(strings_view(names@) =~= Seq::<Seq<char>>::empty());
            },
        }
        names
    }

    /// Validate and convert a Responses request into a conversation request.
    pub fn convert(self, options: ConversionOptions) -> (r: Result<ConversationRequest, ConversionError>)
        ensures
            match convert_failure(self, options) {
                Some(f) => fails_as(r, f),
                None => r matches Ok(out) && converted(self, options, out),
            },
    {
        let ghost req = self;
        if contains_image_special_token(self.input.as_ref(), self.instructions.as_ref()) {
            return Err(crate::validation::image_special_token_not_allowed());
        }
        let (thinking_mode, reasoning_effort) = self.resolve_thinking(options);
        let max_tokens = match self.inference_options() {
            Ok(m) => m,
            Err(e) => {
                return Err(e);
            },
        };
        let ResponsesRequest { model, input, instructions, stream, text, tool_choice, tools, .. } = self;
        let tool_set = match ResponsesToolSet::convert(tools, &options) {
            Ok(s) => s,
            Err(e) => {
                return Err(e);
            },
        };
        let ghost set = tool_set@;
        let mut messages: Vec<InputMessage> = Vec::new();
        match instructions {
            Some(t) => if !t.as_str().is_empty() {
                messages.push(InputMessage::System { content: t });
            },
            None => {},
        }
        assert(messages_view(messages@) =~= initial_messages(req));
        match input {
            Some(ResponsesInput::String(s)) => {
                let ghost m0 = messages_view(messages@);
                let images: Vec<ImageSource> = Vec::new();
                assert(sources_view(images@) =~= Seq::<ImageSourceView>::empty());
                messages.push(InputMessage::User { content: s, image_sources: images });
                assert(messages_view(messages@) =~= m0.push(MessageView::User { content: s@, image_sources: Seq::empty() }));
            },
            Some(ResponsesInput::Items(items)) => {
                if let Err(e) = transform_input_items(&items, &mut messages, &tool_set) {
                    return Err(e);
                }
            },
            None => {
                if messages.len() == 0 {
                    return Err(ConversionError::bad_request("Either input or instructions must be provided".to_string()));
                }
            },
        }
        assert(messages_view(messages@) == input_messages(req, set)->Ok_0);
        let (tools, tool_choice) = match tool_set.select(tool_choice, thinking_mode, &options) {
            Ok(p) => p,
            Err(e) => {
                return Err(e);
            },
        };
        if let Err(e) = validate_tool_text(&tools, &messages) {
            return Err(e);
        }
        let response_format = match convert_text_format(&text, &messages) {
            Ok(f) => f,
            Err(e) => {
                return Err(e);
            },
        };
        let parsing_options = ParsingOptions {
            parse_tool_calls: tools.len() > 0,
            tool_call_initial_stage: tool_choice == ToolChoice::Required,
            parse_json_output: response_format == ResponseFormat::JsonObject,
            reasoning_initial_stage: if thinking_mode { Some(ReasoningStage::Start) } else { None },
            stop_sequences: Vec::new(),
        };
        Ok(ConversationRequest {
            conversation: Conversation {
                messages,
                thinking_mode,
                tools,
                tool_choice,
                reasoning_effort,
                response_format,
            },
            parsing_options,
            max_tokens,
            thinking_budget_tokens: None,
            disable_parallel_tool_use: None,
            model: Some(model),
            stream: stream == Some(true),
        })
    }
}

} // verus!
