//! Normalization of a conversation before rendering: system messages are
//! merged or demoted, consecutive user messages are joined, and the tool
//! results that follow an assistant turn are ordered by its calls.

use vstd::prelude::*;

use crate::conversation::{
    InputMessage, MessageView, ToolCallView, calls_view, copy_sources, messages_view, sources_view,
};
use crate::encoding::{Version, is_user_or_tool};
use crate::multimodal::ImageSource;
use crate::text::{append_str, chars_of, concat, string_of, strings_view};

verus! {

// ---------------------------------------------------------------------------
// Merging system and user messages

/// The separator placed between two merged system messages: a blank line
/// when both are non-empty.
pub open spec fn system_separator(head: Seq<char>, content: Seq<char>) -> Seq<char> {
    if head.len() > 0 && content.len() > 0 {
        "\n\n"@
    } else {
        Seq::empty()
    }
}

/// One normalization step: the messages so far and whether a non-system
/// message was seen, after `msg`.
///
/// Where a format has no mid-conversation system messages, a system message
/// before any other message is merged into the leading system message, and a
/// later non-empty one becomes a user message. A user message directly after
/// another is joined to it with a blank line.
pub open spec fn normalize_step(v: Version, out: Seq<MessageView>, seen: bool, msg: MessageView) -> (Seq<MessageView>, bool) {
    if v == Version::V4 && msg is System {
        let content = msg->System_content;
        if !seen {
            if out.len() > 0 && out.last() is System {
                let head = out.last()->System_content;
                (
                    out.update(
                        out.len() - 1,
                        MessageView::System { content: head + system_separator(head, content) + content },
                    ),
                    seen,
                )
            } else {
                (out.push(msg), seen)
            }
        } else if content.len() > 0 {
            (out.push(MessageView::User { content, image_sources: Seq::empty() }), seen)
        } else {
            (out, seen)
        }
    } else if msg is User {
        if out.len() > 0 && out.last() is User {
            let previous = out.last();
            (
                out.update(
                    out.len() - 1,
                    MessageView::User {
                        content: previous->User_content + "\n\n"@ + msg->User_content,
                        image_sources: previous->User_image_sources + msg->User_image_sources,
                    },
                ),
                true,
            )
        } else {
            (out.push(msg), true)
        }
    } else {
        (out.push(msg), seen || !(msg is System))
    }
}

/// The normalization of the first `n` messages of `msgs`.
pub open spec fn merge_prefix(v: Version, msgs: Seq<MessageView>, n: int) -> (Seq<MessageView>, bool)
    decreases n,
{
    if n <= 0 {
        (Seq::empty(), false)
    } else {
        let (out, seen) = merge_prefix(v, msgs, n - 1);
        normalize_step(v, out, seen, msgs[n - 1])
    }
}

// ---------------------------------------------------------------------------
// Ordering tool results

/// The position of `id` in `order` from `i` on, or 0 when it is absent.
pub open spec fn position_from(order: Seq<Seq<char>>, id: Seq<char>, i: int) -> nat
    decreases order.len() - i,
{
    if i < 0 || i >= order.len() {
        0
    } else if order[i] == id {
        i as nat
    } else {
        position_from(order, id, i + 1)
    }
}

/// The sort key of a message: the position of a tool result's call in
/// `order`, or 0.
pub open spec fn tool_key(order: Seq<Seq<char>>, m: MessageView) -> nat {
    match m {
        MessageView::Tool { tool_call_id, .. } => position_from(order, tool_call_id, 0),
        _ => 0,
    }
}

/// Inserts `x` into `sorted` after every element whose key is at most that
/// of `x`.
pub open spec fn insert_by_key(sorted: Seq<(nat, MessageView)>, x: (nat, MessageView)) -> Seq<(nat, MessageView)>
    decreases sorted.len(),
{
    if sorted.len() == 0 {
        seq![x]
    } else if sorted.last().0 <= x.0 {
        sorted.push(x)
    } else {
        insert_by_key(sorted.drop_last(), x).push(sorted.last())
    }
}

/// `s` stably sorted by key.
pub open spec fn sort_by_key(s: Seq<(nat, MessageView)>) -> Seq<(nat, MessageView)>
    decreases s.len(),
{
    if s.len() == 0 {
        Seq::empty()
    } else {
        insert_by_key(sort_by_key(s.drop_last()), s.last())
    }
}

/// The end of the run of user messages and tool results that starts at `i`.
pub open spec fn run_end(msgs: Seq<MessageView>, i: int) -> int
    decreases msgs.len() - i,
{
    if 0 <= i < msgs.len() && is_user_or_tool(msgs[i]) {
        run_end(msgs, i + 1)
    } else {
        i
    }
}

/// The positions of the tool results in `start..end`, in order.
pub open spec fn tool_positions(msgs: Seq<MessageView>, start: int, end: int) -> Seq<int>
    decreases end - start,
{
    if end <= start {
        Seq::empty()
    } else if msgs[end - 1] is Tool {
        tool_positions(msgs, start, end - 1).push(end - 1)
    } else {
        tool_positions(msgs, start, end - 1)
    }
}

/// `msgs` with the `k`-th value of `vals` placed at the `k`-th position of
/// `pos`, for the first `n` of them.
pub open spec fn place(msgs: Seq<MessageView>, pos: Seq<int>, vals: Seq<(nat, MessageView)>, n: int) -> Seq<MessageView>
    decreases n,
{
    if n <= 0 {
        msgs
    } else {
        place(msgs, pos, vals, n - 1).update(pos[n - 1], vals[n - 1].1)
    }
}

/// The run `start..end` with its tool results stably sorted by the position
/// of their calls in `order`, when it holds more than one and `order` is not
/// empty.
pub open spec fn reorder_run(msgs: Seq<MessageView>, start: int, end: int, order: Seq<Seq<char>>) -> Seq<MessageView> {
    let pos = tool_positions(msgs, start, end);
    if pos.len() > 1 && order.len() > 0 {
        let keyed = Seq::new(pos.len(), |k: int| (tool_key(order, msgs[pos[k]]), msgs[pos[k]]));
        place(msgs, pos, sort_by_key(keyed), pos.len() as int)
    } else {
        msgs
    }
}

/// The ids of `calls`.
pub open spec fn call_ids(calls: Seq<ToolCallView>) -> Seq<Seq<char>> {
    Seq::new(calls.len(), |i: int| calls[i].id)
}

/// `msgs` from `idx` on with the tool results of every run ordered by the
/// calls of the latest assistant turn with tool calls, `order` so far.
pub open spec fn order_from(msgs: Seq<MessageView>, idx: int, order: Seq<Seq<char>>) -> Seq<MessageView>
    decreases msgs.len() - idx,
{
    if idx < 0 || idx >= msgs.len() {
        msgs
    } else if msgs[idx] matches MessageView::Assistant { tool_calls: Some(calls), .. } && calls.len() > 0 {
        order_from(msgs, idx + 1, call_ids(msgs[idx]->Assistant_tool_calls->0))
    } else if is_user_or_tool(msgs[idx]) {
        let end = run_end(msgs, idx);
        proof {
            lemma_run_end(msgs, idx);
            lemma_reorder_run_len(msgs, idx, end, order);
        }
        order_from(reorder_run(msgs, idx, end, order), end, order)
    } else {
        order_from(msgs, idx + 1, order)
    }
}

/// The normalized messages of a conversation.
pub open spec fn normalized(v: Version, msgs: Seq<MessageView>) -> Seq<MessageView> {
    order_from(merge_prefix(v, msgs, msgs.len() as int).0, 0, Seq::empty())
}

// ---------------------------------------------------------------------------
// Lemmas

/// A run that starts at a user message or tool result ends after it.
pub proof fn lemma_run_end(msgs: Seq<MessageView>, i: int)
    requires
        0 <= i < msgs.len(),
        is_user_or_tool(msgs[i]),
    ensures
        i < run_end(msgs, i) <= msgs.len(),
        forall|k: int| i <= k < run_end(msgs, i) ==> is_user_or_tool(#[trigger] msgs[k]),
        run_end(msgs, i) < msgs.len() ==> !is_user_or_tool(msgs[run_end(msgs, i)]),
    decreases msgs.len() - i,
{
    assert(run_end(msgs, i) == run_end(msgs, i + 1));
    if i + 1 < msgs.len() && is_user_or_tool(msgs[i + 1]) {
        lemma_run_end(msgs, i + 1);
    } else {
        assert(run_end(msgs, i + 1) == i + 1);
    }
}

/// The tool positions of a run are increasing tool positions inside it.
pub proof fn lemma_tool_positions(msgs: Seq<MessageView>, start: int, end: int)
    requires
        0 <= start <= end <= msgs.len(),
    ensures
        tool_positions(msgs, start, end).len() <= end - start,
        forall|k: int|
            0 <= k < tool_positions(msgs, start, end).len() ==> start <= #[trigger] tool_positions(msgs, start, end)[k]
                < end && msgs[tool_positions(msgs, start, end)[k]] is Tool,
        forall|j: int, k: int|
            0 <= j < k < tool_positions(msgs, start, end).len() ==> #[trigger] tool_positions(msgs, start, end)[j]
                < #[trigger] tool_positions(msgs, start, end)[k],
    decreases end - start,
{
    if end > start {
        lemma_tool_positions(msgs, start, end - 1);
    }
}

/// Placing values keeps the length.
pub proof fn lemma_place_len(msgs: Seq<MessageView>, pos: Seq<int>, vals: Seq<(nat, MessageView)>, n: int)
    requires
        n <= pos.len(),
        forall|k: int| 0 <= k < pos.len() ==> 0 <= #[trigger] pos[k] < msgs.len(),
    ensures
        place(msgs, pos, vals, n).len() == msgs.len(),
    decreases n,
{
    if n > 0 {
        lemma_place_len(msgs, pos, vals, n - 1);
    }
}

/// Reordering a run keeps the length.
pub proof fn lemma_reorder_run_len(msgs: Seq<MessageView>, start: int, end: int, order: Seq<Seq<char>>)
    requires
        0 <= start <= end <= msgs.len(),
    ensures
        reorder_run(msgs, start, end, order).len() == msgs.len(),
{
    lemma_tool_positions(msgs, start, end);
    let pos = tool_positions(msgs, start, end);
    if pos.len() > 1 && order.len() > 0 {
        let keyed = Seq::new(pos.len(), |k: int| (tool_key(order, msgs[pos[k]]), msgs[pos[k]]));
        lemma_place_len(msgs, pos, sort_by_key(keyed), pos.len() as int);
    }
}

/// Inserting into `sorted` at the point `j`, after which every key exceeds
/// that of `x` and before which the last key does not.
pub proof fn lemma_insert_by_key(sorted: Seq<(nat, MessageView)>, x: (nat, MessageView), j: int)
    requires
        0 <= j <= sorted.len(),
        forall|t: int| j <= t < sorted.len() ==> #[trigger] sorted[t].0 > x.0,
        j > 0 ==> sorted[j - 1].0 <= x.0,
    ensures
        insert_by_key(sorted, x) == sorted.take(j) + seq![x] + sorted.skip(j),
    decreases sorted.len(),
{
    if sorted.len() == 0 {
        assert(insert_by_key(sorted, x) =~= sorted.take(j) + seq![x] + sorted.skip(j));
    } else if sorted.last().0 <= x.0 {
        assert(insert_by_key(sorted, x) =~= sorted.take(j) + seq![x] + sorted.skip(j));
    } else {
        let d = sorted.drop_last();
        lemma_insert_by_key(d, x, j);
        assert(insert_by_key(sorted, x) =~= sorted.take(j) + seq![x] + sorted.skip(j));
    }
}

/// Inserting keeps every element and adds one.
pub proof fn lemma_insert_len(sorted: Seq<(nat, MessageView)>, x: (nat, MessageView))
    ensures
        insert_by_key(sorted, x).len() == sorted.len() + 1,
    decreases sorted.len(),
{
    if sorted.len() > 0 && sorted.last().0 > x.0 {
        lemma_insert_len(sorted.drop_last(), x);
    }
}

/// Sorting keeps the length.
pub proof fn lemma_sort_len(s: Seq<(nat, MessageView)>)
    ensures
        sort_by_key(s).len() == s.len(),
    decreases s.len(),
{
    if s.len() > 0 {
        lemma_sort_len(s.drop_last());
        lemma_insert_len(sort_by_key(s.drop_last()), s.last());
    }
}

// ---------------------------------------------------------------------------
// Normalizing

/// Appends copies of the sources `src` to `dst`.
pub(crate) fn append_sources(dst: &mut Vec<ImageSource>, src: &Vec<ImageSource>)
    ensures
        sources_view(final(dst)@) == sources_view(old(dst)@) + sources_view(src@),
{
    let mut i: usize = 0;
    while i < src.len()
        invariant
            i <= src@.len(),
            sources_view(dst@) == sources_view(old(dst)@) + sources_view(src@.take(i as int)),
        decreases src@.len() - i,
    {
        let ghost before = dst@;
        dst.push(src[i].duplicate());
        assert(sources_view(dst@) =~= sources_view(before) + seq![src@[i as int]@]);
        assert(sources_view(src@.take(i + 1)) =~= sources_view(src@.take(i as int)) + seq![src@[i as int]@]);
        i += 1;
    }
    assert(src@.take(src@.len() as int) =~= src@);
}

/// Applies one normalization step for `msg` to `out`.
fn merge_step(v: Version, out: &mut Vec<InputMessage>, seen: &mut bool, msg: &InputMessage)
    ensures
        (messages_view(final(out)@), *final(seen)) == normalize_step(v, messages_view(old(out)@), *old(seen), msg@),
{
    let ghost old_view = messages_view(out@);
    let n = out.len();
    match msg {
        InputMessage::System { content } => {
            if v == Version::V4 {
                if !*seen {
                    let last_is_system = n > 0 && matches!(out[n - 1], InputMessage::System { .. });
                    if last_is_system {
                        let last = out.pop().unwrap();
                        assert(out@ =~= old(out)@.drop_last());
                        match last {
                            InputMessage::System { content: head } => {
                                let merged = if !head.as_str().is_empty() && !content.as_str().is_empty() {
                                    let with_sep = concat(head.as_str(), "\n\n");
                                    concat(with_sep.as_str(), content.as_str())
                                } else {
                                    concat(head.as_str(), content.as_str())
                                };
                                out.push(InputMessage::System { content: merged });
                                assert(messages_view(out@) =~= normalize_step(v, old_view, *old(seen), msg@).0);
                            },
                            _ => {
                                assert(false);
                            },
                        }
                    } else {
                        out.push(msg.duplicate());
                        assert(messages_view(out@) =~= normalize_step(v, old_view, *old(seen), msg@).0);
                    }
                } else if !content.as_str().is_empty() {
                    let no_sources: Vec<ImageSource> = Vec::new();
                    assert(sources_view(no_sources@) =~= Seq::<crate::multimodal::ImageSourceView>::empty());
                    out.push(InputMessage::User { content: content.clone(), image_sources: no_sources });
                    assert(messages_view(out@) =~= normalize_step(v, old_view, *old(seen), msg@).0);
                } else {
                    assert(messages_view(out@) =~= normalize_step(v, old_view, *old(seen), msg@).0);
                }
            } else {
                out.push(msg.duplicate());
                assert(messages_view(out@) =~= normalize_step(v, old_view, *old(seen), msg@).0);
            }
        },
        InputMessage::User { content, image_sources } => {
            let last_is_user = n > 0 && matches!(out[n - 1], InputMessage::User { .. });
            if last_is_user {
                let last = out.pop().unwrap();
                assert(out@ =~= old(out)@.drop_last());
                match last {
                    InputMessage::User { content: previous, image_sources: previous_sources } => {
                        let with_sep = concat(previous.as_str(), "\n\n");
                        let merged = concat(with_sep.as_str(), content.as_str());
                        let mut sources = previous_sources;
                        append_sources(&mut sources, image_sources);
                        out.push(InputMessage::User { content: merged, image_sources: sources });
                        assert(messages_view(out@) =~= normalize_step(v, old_view, *old(seen), msg@).0);
                    },
                    _ => {
                        assert(false);
                    },
                }
            } else {
                out.push(msg.duplicate());
                assert(messages_view(out@) =~= normalize_step(v, old_view, *old(seen), msg@).0);
            }
            *seen = true;
        },
        _ => {
            out.push(msg.duplicate());
            assert(messages_view(out@) =~= normalize_step(v, old_view, *old(seen), msg@).0);
            *seen = true;
        },
    }
    proof {
        assert(messages_view(final(out)@) =~= normalize_step(v, old_view, *old(seen), msg@).0);
    }
}

/// Merges system and user messages as [`normalize_step`] describes.
fn merge_messages(v: Version, messages: &Vec<InputMessage>) -> (r: Vec<InputMessage>)
    ensures
        messages_view(r@) == merge_prefix(v, messages_view(messages@), messages@.len() as int).0,
{
    let ghost mv = messages_view(messages@);
    let mut out: Vec<InputMessage> = Vec::new();
    let mut seen = false;
    let mut i: usize = 0;
    assert(messages_view(out@) =~= Seq::<MessageView>::empty());
    while i < messages.len()
        invariant
            i <= messages@.len(),
            mv == messages_view(messages@),
            (messages_view(out@), seen) == merge_prefix(v, mv, i as int),
        decreases messages@.len() - i,
    {
        merge_step(v, &mut out, &mut seen, &messages[i]);
        i += 1;
    }
    out
}

/// The values of keyed messages.
pub open spec fn keyed_view(v: Seq<(usize, InputMessage)>) -> Seq<(nat, MessageView)> {
    Seq::new(v.len(), |i: int| (v[i].0 as nat, v[i].1@))
}

/// Returns the position of `id` in `order`, or 0 when it is absent.
fn call_position(order: &Vec<String>, id: &String) -> (r: usize)
    ensures
        r as nat == position_from(strings_view(order@), id@, 0),
{
    let ghost ov = strings_view(order@);
    let mut i: usize = 0;
    while i < order.len()
        invariant
            i <= order@.len(),
            ov == strings_view(order@),
            position_from(ov, id@, 0) == position_from(ov, id@, i as int),
        decreases order@.len() - i,
    {
        if order[i] == *id {
            return i;
        }
        i += 1;
    }
    0
}

/// Returns `items` stably sorted by key.
fn sort_keyed(items: Vec<(usize, InputMessage)>) -> (r: Vec<(usize, InputMessage)>)
    ensures
        keyed_view(r@) == sort_by_key(keyed_view(items@)),
{
    let ghost kv = keyed_view(items@);
    let mut sorted: Vec<(usize, InputMessage)> = Vec::new();
    let mut i: usize = 0;
    assert(keyed_view(sorted@) =~= sort_by_key(kv.take(0)));
    while i < items.len()
        invariant
            i <= items@.len(),
            kv == keyed_view(items@),
            keyed_view(sorted@) == sort_by_key(kv.take(i as int)),
        decreases items@.len() - i,
    {
        let key = items[i].0;
        let mut j: usize = sorted.len();
        while j > 0 && sorted[j - 1].0 > key
            invariant
                j <= sorted@.len(),
                forall|t: int| j <= t < sorted@.len() ==> #[trigger] sorted@[t].0 > key,
            decreases j,
        {
            j -= 1;
        }
        let ghost before = keyed_view(sorted@);
        let x = (key, items[i].1.duplicate());
        proof {
            lemma_insert_by_key(before, (key as nat, items@[i as int].1@), j as int);
            assert(kv.take(i + 1).drop_last() =~= kv.take(i as int));
            assert(kv[i as int] == (key as nat, items@[i as int].1@));
        }
        sorted.insert(j, x);
        assert(keyed_view(sorted@) =~= before.take(j as int) + seq![(key as nat, items@[i as int].1@)] + before.skip(j as int));
        i += 1;
    }
    assert(kv.take(items@.len() as int) =~= kv);
    sorted
}

/// The positions of a list of indices.
pub open spec fn positions_view(v: Seq<usize>) -> Seq<int> {
    Seq::new(v.len(), |i: int| v[i] as int)
}

/// Orders the tool results of the run `start..end` as [`reorder_run`]
/// describes.
fn reorder_run_exec(messages: &mut Vec<InputMessage>, start: usize, end: usize, order: &Vec<String>)
    requires
        start <= end <= old(messages)@.len(),
    ensures
        messages_view(final(messages)@) == reorder_run(messages_view(old(messages)@), start as int, end as int, strings_view(order@)),
{
    let ghost mv = messages_view(messages@);
    let ghost ov = strings_view(order@);
    let mut pos: Vec<usize> = Vec::new();
    let mut i: usize = start;
    assert(positions_view(pos@) =~= tool_positions(mv, start as int, start as int));
    while i < end
        invariant
            start <= i <= end <= messages@.len(),
            mv == messages_view(messages@),
            positions_view(pos@) == tool_positions(mv, start as int, i as int),
        decreases end - i,
    {
        if matches!(messages[i], InputMessage::Tool { .. }) {
            pos.push(i);
            assert(positions_view(pos@) =~= tool_positions(mv, start as int, i as int).push(i as int));
        }
        i += 1;
    }
    let ghost pv = positions_view(pos@);
    proof {
        lemma_tool_positions(mv, start as int, end as int);
    }
    if pos.len() > 1 && order.len() > 0 {
        let ghost full = Seq::new(pv.len(), |k: int| (tool_key(ov, mv[pv[k]]), mv[pv[k]]));
        let mut keyed: Vec<(usize, InputMessage)> = Vec::new();
        let mut k: usize = 0;
        while k < pos.len()
            invariant
                k <= pos@.len(),
                mv == messages_view(messages@),
                ov == strings_view(order@),
                pv == positions_view(pos@),
                pv == tool_positions(mv, start as int, end as int),
                full == Seq::new(pv.len(), |k: int| (tool_key(ov, mv[pv[k]]), mv[pv[k]])),
                forall|t: int| 0 <= t < pv.len() ==> start <= #[trigger] pv[t] < end && mv[pv[t]] is Tool,
                end <= messages@.len(),
                keyed_view(keyed@) == full.take(k as int),
            decreases pos@.len() - k,
        {
            let p = pos[k];
            assert(pv[k as int] == p);
            let msg = &messages[p];
            assert(mv[p as int] == msg@);
            let key = match msg {
                InputMessage::Tool { tool_call_id, .. } => call_position(order, tool_call_id),
                _ => 0,
            };
            let copy = msg.duplicate();
            assert(key as nat == tool_key(ov, mv[p as int]));
            assert(full[k as int] == (key as nat, copy@));
            let ghost before = keyed@;
            keyed.push((key, copy));
            assert(keyed_view(keyed@) =~= keyed_view(before).push((key as nat, copy@)));
            assert(keyed_view(keyed@) =~= full.take(k + 1));
            k += 1;
        }
        assert(full.take(pv.len() as int) =~= full);
        let sorted = sort_keyed(keyed);
        let ghost sv = sort_by_key(full);
        proof {
            lemma_sort_len(full);
        }
        let mut k: usize = 0;
        while k < pos.len()
            invariant
                k <= pos@.len(),
                pv == positions_view(pos@),
                keyed_view(sorted@) == sv,
                sv.len() == pv.len(),
                forall|t: int| 0 <= t < pv.len() ==> 0 <= #[trigger] pv[t] < mv.len(),
                messages@.len() == mv.len(),
                messages_view(messages@) == place(mv, pv, sv, k as int),
            decreases pos@.len() - k,
        {
            let p = pos[k];
            assert(pv[k as int] == p);
            let value = sorted[k].1.duplicate();
            assert(keyed_view(sorted@)[k as int] == (sorted@[k as int].0 as nat, sorted@[k as int].1@));
            let ghost before = messages_view(messages@);
            messages.set(p, value);
            assert(messages_view(messages@) =~= before.update(p as int, sv[k as int].1));
            k += 1;
        }
    } else {
        assert(messages_view(messages@) =~= reorder_run(mv, start as int, end as int, ov));
    }
}

/// Orders the tool results that follow every assistant turn with tool calls
/// by the order of its calls, as [`order_from`] describes.
fn sort_tool_results_by_call_order(messages: &mut Vec<InputMessage>)
    ensures
        messages_view(final(messages)@) == order_from(messages_view(old(messages)@), 0, Seq::empty()),
{
    let mut order: Vec<String> = Vec::new();
    let mut idx: usize = 0;
    assert(strings_view(order@) =~= Seq::<Seq<char>>::empty());
    while idx < messages.len()
        invariant
            idx <= messages@.len(),
            order_from(messages_view(old(messages)@), 0, Seq::empty()) == order_from(
                messages_view(messages@),
                idx as int,
                strings_view(order@),
            ),
        decreases messages@.len() - idx,
    {
        let ghost mv = messages_view(messages@);
        let mut ids: Option<Vec<String>> = None;
        match &messages[idx] {
            InputMessage::Assistant { tool_calls: Some(calls), .. } => {
                if calls.len() > 0 {
                    let mut v: Vec<String> = Vec::new();
                    let mut k: usize = 0;
                    while k < calls.len()
                        invariant
                            k <= calls@.len(),
                            strings_view(v@) == call_ids(calls_view(calls@)).take(k as int),
                        decreases calls@.len() - k,
                    {
                        let id = calls[k].id.clone();
                        assert(id@ == calls@[k as int].id@);
                        assert(call_ids(calls_view(calls@))[k as int] == calls@[k as int].id@);
                        let ghost before = v@;
                        v.push(id);
                        assert(strings_view(v@) =~= strings_view(before).push(id@));
                        assert(strings_view(v@) =~= call_ids(calls_view(calls@)).take(k + 1));
                        k += 1;
                    }
                    assert(call_ids(calls_view(calls@)).take(calls@.len() as int) =~= call_ids(calls_view(calls@)));
                    ids = Some(v);
                }
            },
            _ => {},
        }
        match ids {
            Some(v) => {
                order = v;
                idx += 1;
            },
            None => {
                let run = matches!(messages[idx], InputMessage::User { .. } | InputMessage::Tool { .. });
                if run {
                    let start = idx;
                    proof {
                        lemma_run_end(mv, idx as int);
                    }
                    while idx < messages.len() && matches!(messages[idx], InputMessage::User { .. } | InputMessage::Tool { .. })
                        invariant
                            start <= idx <= messages@.len(),
                            mv == messages_view(messages@),
                            idx <= run_end(mv, start as int),
                            run_end(mv, start as int) <= mv.len(),
                            forall|t: int| start <= t < run_end(mv, start as int) ==> is_user_or_tool(#[trigger] mv[t]),
                            run_end(mv, start as int) < mv.len() ==> !is_user_or_tool(mv[run_end(mv, start as int)]),
                        decreases messages@.len() - idx,
                    {
                        assert(mv[idx as int] == messages@[idx as int]@);
                        idx += 1;
                    }
                    if idx < messages.len() {
                        assert(mv[idx as int] == messages@[idx as int]@);
                    }
                    assert(idx == run_end(mv, start as int));
                    reorder_run_exec(messages, start, idx, &order);
                    proof {
                        lemma_reorder_run_len(mv, start as int, idx as int, strings_view(order@));
                    }
                } else {
                    idx += 1;
                }
            },
        }
    }
}

/// Normalizes the messages of a conversation for rendering.
pub fn normalize_messages(v: Version, messages: &Vec<InputMessage>) -> (r: Vec<InputMessage>)
    ensures
        messages_view(r@) == normalized(v, messages_view(messages@)),
{
    let mut merged = merge_messages(v, messages);
    sort_tool_results_by_call_order(&mut merged);
    merged
}

} // verus!
