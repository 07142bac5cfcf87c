//! Turning inference output into parsed chunks for protocol-specific events.
//!
//! The caller runs the stream: it reads backend chunks, feeds their text to a
//! [`StateMachine`](crate::state_machine::StateMachine), hands the segments to
//! [`StashedChunks`], and passes the resulting [`OutputChunk`]s to a
//! protocol's [`ChunkGenerator`]. The decisions of each step are here.

use vstd::prelude::*;
use vstd::string::StringSliceAdditionalSpecFns;

use crate::json::{escaped, quote_json, quoted};
use crate::state_machine::{
    emit_seg,
    state_feed,
    StateView,
    OutputAction, OutputActionSegment, ParsingOptions, StateMachine, action_eq, same_action, total_len,
};
use crate::text::{append_str, chars_of, string_of};

verus! {

/// Prompt-side token counts supplied by the inference backend. Unspecified
/// counts default to zero.
#[derive(Debug, Clone, Copy, PartialEq, Eq, Structural)]
pub struct PromptUsage {
    /// Total input tokens, including tokens read from the prompt cache.
    pub prompt_tokens: usize,
    /// Input tokens read from the prompt cache.
    pub prompt_cache_hit_tokens: usize,
}

impl Default for PromptUsage {
    fn default() -> (r: PromptUsage)
        ensures
            r.prompt_tokens == 0 && r.prompt_cache_hit_tokens == 0,
    {
        PromptUsage { prompt_tokens: 0, prompt_cache_hit_tokens: 0 }
    }
}

/// Completion-side token counts accumulated from processed chunks.
#[derive(Debug, Clone, Copy, PartialEq, Eq, Structural)]
pub struct CompletionUsage {
    /// Tokens accounted for by processed chunks, including discarded markup
    /// and the entire chunk containing a local stop sequence.
    pub completion_tokens: usize,
}

impl Default for CompletionUsage {
    fn default() -> (r: CompletionUsage)
        ensures
            r.completion_tokens == 0,
    {
        CompletionUsage { completion_tokens: 0 }
    }
}

/// Text and metadata received from an inference backend.
#[derive(Debug)]
pub enum InferenceChunk {
    /// Initial metadata reported before the model produces output.
    Ready { system_fingerprint: Option<String>, prompt_usage: PromptUsage },
    /// Text produced by the model, and the tokens that text accounts for.
    Text { content: String, content_tokens: usize },
    /// One generated token id, decoded by the processor's tokenizer.
    Token { token_id: u32 },
    /// Terminal metadata reported after the model stops.
    Finish { finish_reason: InferenceFinishReason },
}

/// The finish reason reported by the inference backend.
#[derive(Debug, Clone, Copy, PartialEq, Eq, Structural)]
pub enum InferenceFinishReason {
    Stop,
    Length,
    ContentFilter,
}

/// Final result after applying the stream parser's tool and stop-sequence
/// rules.
#[derive(Debug, Clone, Copy, PartialEq, Eq, Structural)]
pub enum FinishReason {
    Stop,
    Length,
    ToolCalls,
    StopSequence,
    ContentFilter,
    /// The source ended without an explicit finish reason.
    EndOfStream,
}

/// The finish reason of a stream: a matched stop sequence wins, then the
/// backend's reason, with a stop after tool calls reported as tool calls.
pub open spec fn finish_reason_spec(stopped: bool, backend: Option<InferenceFinishReason>, has_tool_calls: bool) -> FinishReason {
    if stopped {
        FinishReason::StopSequence
    } else {
        match backend {
            Some(InferenceFinishReason::Stop) => if has_tool_calls {
                FinishReason::ToolCalls
            } else {
                FinishReason::Stop
            },
            Some(InferenceFinishReason::Length) => FinishReason::Length,
            Some(InferenceFinishReason::ContentFilter) => FinishReason::ContentFilter,
            None => FinishReason::EndOfStream,
        }
    }
}

/// Returns the finish reason of a stream.
pub fn finish_reason(stopped: bool, backend: Option<InferenceFinishReason>, has_tool_calls: bool) -> (r: FinishReason)
    ensures
        r == finish_reason_spec(stopped, backend, has_tool_calls),
{
    if stopped {
        return FinishReason::StopSequence;
    }
    match backend {
        Some(InferenceFinishReason::Stop) => if has_tool_calls {
            FinishReason::ToolCalls
        } else {
            FinishReason::Stop
        },
        Some(InferenceFinishReason::Length) => FinishReason::Length,
        Some(InferenceFinishReason::ContentFilter) => FinishReason::ContentFilter,
        None => FinishReason::EndOfStream,
    }
}

/// An error that ends stream processing before normal completion.
#[derive(Debug, Clone, PartialEq, Eq)]
pub enum StreamError {
    /// A token-id chunk arrived without an attached tokenizer.
    MissingTokenizer,
    /// The tokenizer failed to decode buffered token ids.
    Decode { detail: String },
}

/// A parsed piece of model output, before protocol-specific event conversion.
#[derive(Debug, Clone, PartialEq, Eq)]
pub enum OutputChunk {
    Start { system_fingerprint: Option<String>, usage: PromptUsage },
    Raw { content: String },
    Reasoning { content: String },
    ToolCallBegin,
    ToolCall { tool_name: String, arguments: String },
    ToolArgumentsDelta { content: String },
    Finish { reason: FinishReason, stop_sequence: Option<String>, usage: CompletionUsage },
}

/// Convert parsed output into a protocol's response events.
pub trait ChunkGenerator {
    /// Event type emitted by this protocol.
    type Chunk;

    /// Produce zero or more events for one parsed output chunk.
    fn generate(&mut self, chunk: OutputChunk) -> Vec<Self::Chunk>;
}

// ---------------------------------------------------------------------------
// Decoding token ids

/// Decode token ids into text.
pub trait TokenizerDecoder {
    /// Whether decoding `ids` may give `r`: the text, or the message of the
    /// failure. A decoder that states nothing of its results allows every
    /// result.
    closed spec fn decodes(&self, ids: Seq<u32>, skip_special_tokens: bool, r: Result<Seq<char>, Seq<char>>) -> bool {
        true
    }

    /// Decode `ids` into text, skipping special tokens when requested.
    fn decode_ids(&self, ids: &[u32], skip_special_tokens: bool) -> (r: Result<String, String>)
        ensures
            self.decodes(ids@, skip_special_tokens, text_result(r)),
    ;
}

/// The text or the failure message of a decoding result.
pub open spec fn text_result(r: Result<String, String>) -> Result<Seq<char>, Seq<char>> {
    match r {
        Ok(t) => Ok(t@),
        Err(m) => Err(m@),
    }
}

/// Whether decoded text is available: it is not empty and does not end with
/// an incomplete character.
pub open spec fn text_complete(text: Seq<char>) -> bool {
    text.len() > 0 && text.last() != REPLACEMENT_CHARACTER
}

/// What a decoding outcome `decoded` means for a step that accounts for `n`
/// ids: a failure is a decode error, incomplete text is no text yet, and
/// complete text is returned with `n`.
pub open spec fn decode_outcome(decoded: Result<Seq<char>, Seq<char>>, n: nat, r: Result<Option<(String, usize)>, StreamError>) -> bool {
    match decoded {
        Err(m) => r matches Err(StreamError::Decode { detail }) && detail@ == m,
        Ok(t) => if text_complete(t) {
            r matches Ok(Some((text, k))) && text@ == t && k == n
        } else {
            r matches Ok(None)
        },
    }
}

/// Turns what the decoder returned for the buffered ids into the step's
/// result, for a step that accounts for `n` ids.
pub fn decoded_step(decoded: Result<String, String>, n: usize) -> (r: Result<Option<(String, usize)>, StreamError>)
    ensures
        decode_outcome(text_result(decoded), n as nat, r),
{
    let content = match decoded {
        Ok(content) => content,
        Err(detail) => {
            return Err(StreamError::Decode { detail });
        },
    };
    let chars = chars_of(content.as_str());
    if chars.len() == 0 || chars[chars.len() - 1] == REPLACEMENT_CHARACTER {
        return Ok(None);
    }
    Ok(Some((content, n)))
}

/// The decoder of a processor that has none attached.
#[derive(Debug, Clone, Copy, PartialEq, Eq, Structural)]
pub struct NoDecoder;

impl TokenizerDecoder for NoDecoder {
    open spec fn decodes(&self, ids: Seq<u32>, skip_special_tokens: bool, r: Result<Seq<char>, Seq<char>>) -> bool {
        r == Err::<Seq<char>, Seq<char>>("no tokenizer is attached to the processor"@)
    }

    fn decode_ids(&self, ids: &[u32], skip_special_tokens: bool) -> (r: Result<String, String>)
        ensures
            r matches Err(m) && m@ == "no tokenizer is attached to the processor"@,
    {
        Err(String::from_str("no tokenizer is attached to the processor"))
    }
}

/// The replacement character a decoder emits for an incomplete character.
pub const REPLACEMENT_CHARACTER: char = '\u{FFFD}';

/// Buffer token ids until they decode into text.
pub struct StreamDecoder<D> {
    decoder: D,
    ids: Vec<u32>,
    pending: usize,
}

impl<D: TokenizerDecoder> StreamDecoder<D> {
    /// The buffered token ids.
    pub closed spec fn ids_spec(self) -> Seq<u32> {
        self.ids@
    }

    /// The number of ids not yet accounted for by returned text.
    pub closed spec fn pending_spec(self) -> nat {
        self.pending as nat
    }

    /// The decoder the ids are handed to.
    pub closed spec fn decoder_spec(self) -> D {
        self.decoder
    }

    /// The number of ids not yet accounted for by returned text.
    pub fn pending(&self) -> (r: usize)
        ensures
            r == self.pending_spec(),
    {
        self.pending
    }

    /// Create a decoder with nothing buffered.
    pub fn new(decoder: D) -> (r: StreamDecoder<D>)
        ensures
            r.decoder_spec() == decoder,
            r.ids_spec() == Seq::<u32>::empty(),
            r.pending_spec() == 0,
    {
        StreamDecoder { decoder, ids: Vec::new(), pending: 0 }
    }

    /// Return the text contributed by the buffered token ids and the number of
    /// ids it accounts for, or `None` while no text is available yet: while
    /// the text is empty or ends with an incomplete character.
    ///
    /// Special tokens drive the parser's state machine, so they stay in the
    /// decoded text. A decoder failure is returned as a stream error.
    pub fn decode(&mut self, token_id: u32) -> (r: Result<Option<(String, usize)>, StreamError>)
        requires
            old(self).pending_spec() < usize::MAX,
        ensures
            final(self).decoder_spec() == old(self).decoder_spec(),
            exists|d: Result<Seq<char>, Seq<char>>|
                #[trigger] old(self).decoder_spec().decodes(old(self).ids_spec().push(token_id), false, d)
                    && decode_outcome(d, old(self).pending_spec() + 1, r),
            match r {
                Ok(Some((text, n))) => {
                    &&& n == old(self).pending_spec() + 1
                    &&& text@.len() > 0
                    &&& text@.last() != REPLACEMENT_CHARACTER
                    &&& final(self).ids_spec() == Seq::<u32>::empty()
                    &&& final(self).pending_spec() == 0
                },
                _ => {
                    &&& final(self).ids_spec() == old(self).ids_spec().push(token_id)
                    &&& final(self).pending_spec() == old(self).pending_spec() + 1
                },
            },
    {
        self.pending = self.pending + 1;
        self.ids.push(token_id);
        let decoded = self.decoder.decode_ids(self.ids.as_slice(), false);
        let ghost d = text_result(decoded);
        assert(self.ids@ == old(self).ids_spec().push(token_id));
        assert(self.decoder.decodes(old(self).ids_spec().push(token_id), false, d));
        let step = decoded_step(decoded, self.pending);
        assert(old(self).decoder_spec().decodes(old(self).ids_spec().push(token_id), false, d)
            && decode_outcome(d, old(self).pending_spec() + 1, step));
        if let Ok(Some(_)) = &step {
            self.ids.clear();
            self.pending = 0;
        }
        step
    }
}

// ---------------------------------------------------------------------------
// Applying segments to the buffered text

/// Calls `String::from_utf8`, which returns the text whose UTF-8 encoding is
/// `bytes`, or an error where `bytes` is not UTF-8.
#[verifier::external_body]
fn string_from_utf8(bytes: Vec<u8>) -> (r: Option<String>)
    ensures
        r is Some <==> vstd::utf8::valid_utf8(bytes@),
        r matches Some(s) ==> s@ == vstd::utf8::decode_utf8(bytes@),
{
    String::from_utf8(bytes).ok()
}

/// A segment ended inside a character of the buffered text.
#[derive(Debug, Clone, Copy, PartialEq, Eq, Structural)]
pub struct CharBoundaryError;

/// The text of one string inside a JSON string literal.
pub open spec fn json_string_body(s: Seq<char>) -> Seq<char> {
    escaped(s)
}

/// Returns `content` escaped as inside a JSON string literal, without the
/// quotes.
pub fn escape_json_string(content: &str) -> (r: String)
    ensures
        r@ == json_string_body(content@),
{
    let quoted_text = quote_json(content);
    let chars = chars_of(quoted_text.as_str());
    let n = chars.len();
    assert(n >= 2);
    let mut inner: Vec<char> = Vec::new();
    let mut i: usize = 1;
    while i < n - 1
        invariant
            n == chars@.len(),
            n >= 2,
            chars@ == quoted(content@),
            1 <= i <= n - 1,
            inner@ == chars@.subrange(1, i as int),
        decreases n - i,
    {
        inner.push(chars[i]);
        assert(chars@.subrange(1, i + 1) =~= chars@.subrange(1, i as int).push(chars@[i as int]));
        i += 1;
    }
    assert(chars@.subrange(1, n - 1) =~= escaped(content@));
    string_of(inner.as_slice())
}

/// Text buffered from the source chunks, consumed by the parser's segments.
pub struct StashedChunks {
    chunks: Vec<Vec<u8>>,
    last_stashed_action: Option<OutputActionSegment>,
    stashed_tool_name: String,
    last_pop_action: OutputAction,
    stop_sequence: Option<String>,
    has_tool_calls: bool,
}

/// The bytes of buffered chunks, in order.
pub open spec fn flatten_bytes(chunks: Seq<Vec<u8>>) -> Seq<u8>
    decreases chunks.len(),
{
    if chunks.len() == 0 {
        Seq::empty()
    } else {
        flatten_bytes(chunks.drop_last()) + chunks.last()@
    }
}

impl StashedChunks {
    /// The buffered bytes not yet consumed by a segment.
    pub closed spec fn buffered(self) -> Seq<u8> {
        flatten_bytes(self.chunks@)
    }

    /// The bytes of a segment that are buffered for the next call.
    pub closed spec fn held(self) -> nat {
        match self.last_stashed_action {
            Some(s) => s.len as nat,
            None => 0,
        }
    }

    /// Whether a tool call has been emitted.
    pub closed spec fn has_tool_calls_spec(self) -> bool {
        self.has_tool_calls
    }

    /// The stop sequence collected and not yet taken.
    pub closed spec fn stop_sequence_spec(self) -> Option<String> {
        self.stop_sequence
    }

    /// An empty buffer.
    pub fn new() -> (r: StashedChunks)
        ensures
            r.buffered() == Seq::<u8>::empty(),
            r.held() == 0,
            !r.has_tool_calls_spec(),
            r.stop_sequence_spec() is None,
    {
        StashedChunks {
            chunks: Vec::new(),
            last_stashed_action: None,
            stashed_tool_name: String::new(),
            last_pop_action: OutputAction::Skip,
            stop_sequence: None,
            has_tool_calls: false,
        }
    }

    /// Whether a tool call has been emitted.
    pub fn has_tool_calls(&self) -> (r: bool)
        ensures
            r == self.has_tool_calls_spec(),
    {
        self.has_tool_calls
    }

    /// Buffer the text of one source chunk.
    pub fn push(&mut self, content: &str)
        ensures
            final(self).buffered() == old(self).buffered() + content.spec_bytes(),
            final(self).held() == old(self).held(),
            final(self).has_tool_calls_spec() == old(self).has_tool_calls_spec(),
            final(self).stop_sequence_spec() == old(self).stop_sequence_spec(),
            final(self).view_stash() == (StashView {
                chunks: old(self).view_stash().chunks.push(content.spec_bytes()),
                ..old(self).view_stash()
            }),
    {
        let bytes = crate::state_machine::bytes_of(content);
        let ghost before = self.chunks@;
        self.chunks.push(bytes);
        assert(self.chunks@.drop_last() =~= before);
        assert(self.chunks@.map_values(|c: Vec<u8>| c@) =~= before.map_values(|c: Vec<u8>| c@).push(content.spec_bytes()));
    }

    /// Take the stop sequence collected so far.
    pub fn take_stop_sequence(&mut self) -> (r: Option<String>)
        ensures
            r == old(self).stop_sequence_spec(),
            final(self).stop_sequence_spec() is None,
            final(self).buffered() == old(self).buffered(),
            final(self).held() == old(self).held(),
            final(self).has_tool_calls_spec() == old(self).has_tool_calls_spec(),
            final(self).view_stash() == (StashView { stop: None, ..old(self).view_stash() }),
    {
        let r = self.stop_sequence.take();
        r
    }
}

/// What popping the text `text` for a segment with action `action` yields,
/// after a pop with action `last`, when the tool name buffered so far is
/// `name`.
pub open spec fn pop_yields(r: Option<OutputChunk>, action: OutputAction, last: OutputAction, text: Seq<char>, name: Seq<char>) -> bool {
    match action {
        OutputAction::Raw => if text.len() == 0 {
            r is None
        } else {
            r matches Some(OutputChunk::Raw { content }) && content@ == text
        },
        OutputAction::Reasoning => if text.len() == 0 {
            r is None
        } else {
            r matches Some(OutputChunk::Reasoning { content }) && content@ == text
        },
        OutputAction::ToSpace => r matches Some(OutputChunk::Raw { content }) && content@ == " "@,
        OutputAction::Skip => r is None,
        OutputAction::SkipInvalid { .. } => r is None,
        OutputAction::StopSequence => r is None,
        OutputAction::ToolCallBegin => if last is ToolCallBegin {
            r is None
        } else {
            r == Some(OutputChunk::ToolCallBegin)
        },
        OutputAction::ToolName => r is None,
        OutputAction::ToolNameEnd => if last is ToolNameEnd {
            r is None
        } else {
            r matches Some(OutputChunk::ToolCall { tool_name, arguments }) && tool_name@ == name
                && arguments@.len() == 0
        },
        OutputAction::LabelToolCallArguments { label, .. } => if same_action(last, action) {
            r is None
        } else {
            r matches Some(OutputChunk::ToolArgumentsDelta { content }) && content@ == label@
        },
        OutputAction::RawToolCallArguments { string } => r matches Some(OutputChunk::ToolArgumentsDelta { content })
            && content@ == (if string { json_string_body(text) } else { text }),
        OutputAction::ToolCallArgumentsEnd { output } => if same_action(last, action) {
            r is None
        } else {
            match output {
                Some(o) => r matches Some(OutputChunk::ToolArgumentsDelta { content }) && content@ == o@,
                None => r is None,
            }
        },
        OutputAction::Label(label) => if same_action(last, action) {
            r is None
        } else {
            r matches Some(OutputChunk::Raw { content }) && content@ == label@
        },
    }
}

/// The value of an output chunk.
pub enum ChunkView {
    Start { system_fingerprint: Option<Seq<char>>, usage: PromptUsage },
    Raw(Seq<char>),
    Reasoning(Seq<char>),
    ToolCallBegin,
    ToolCall { tool_name: Seq<char>, arguments: Seq<char> },
    ToolArgumentsDelta(Seq<char>),
    Finish { reason: FinishReason, stop_sequence: Option<Seq<char>>, usage: CompletionUsage },
}

/// The text of an optional string.
pub open spec fn opt_text(s: Option<String>) -> Option<Seq<char>> {
    match s {
        Some(t) => Some(t@),
        None => None,
    }
}

/// The value of `c`.
pub open spec fn chunk_view(c: OutputChunk) -> ChunkView {
    match c {
        OutputChunk::Start { system_fingerprint, usage } => ChunkView::Start {
            system_fingerprint: opt_text(system_fingerprint),
            usage,
        },
        OutputChunk::Raw { content } => ChunkView::Raw(content@),
        OutputChunk::Reasoning { content } => ChunkView::Reasoning(content@),
        OutputChunk::ToolCallBegin => ChunkView::ToolCallBegin,
        OutputChunk::ToolCall { tool_name, arguments } => ChunkView::ToolCall {
            tool_name: tool_name@,
            arguments: arguments@,
        },
        OutputChunk::ToolArgumentsDelta { content } => ChunkView::ToolArgumentsDelta(content@),
        OutputChunk::Finish { reason, stop_sequence, usage } => ChunkView::Finish {
            reason,
            stop_sequence: opt_text(stop_sequence),
            usage,
        },
    }
}

/// The values of `cs`.
pub open spec fn chunks_view(cs: Seq<OutputChunk>) -> Seq<ChunkView> {
    cs.map_values(|c: OutputChunk| chunk_view(c))
}

/// The value of an optional chunk, as a sequence of at most one.
pub open spec fn opt_chunk(c: Option<OutputChunk>) -> Seq<ChunkView> {
    match c {
        Some(c) => seq![chunk_view(c)],
        None => Seq::empty(),
    }
}

/// The buffer of text between the parser and the output: the buffered
/// chunks, the segment held for more text, the tool name collected, the
/// action of the previous pop, the stop sequence text collected, and
/// whether a tool call was emitted.
pub struct StashView {
    pub chunks: Seq<Seq<u8>>,
    pub held: Option<OutputActionSegment>,
    pub tool_name: Seq<char>,
    pub last_pop: OutputAction,
    pub stop: Option<Seq<char>>,
    pub has_tool_calls: bool,
}

/// What a pop of the text `text` with action `action` does to the buffer
/// `v`, whose chunks become `rest`, and the chunks it yields.
pub open spec fn pop_effect(v: StashView, action: OutputAction, text: Seq<char>, rest: Seq<Seq<u8>>) -> (StashView, Seq<ChunkView>) {
    let base = StashView { chunks: rest, last_pop: action, ..v };
    let last = v.last_pop;
    match action {
        OutputAction::Raw => (base, if text.len() == 0 { Seq::empty() } else { seq![ChunkView::Raw(text)] }),
        OutputAction::Reasoning => (base, if text.len() == 0 { Seq::empty() } else { seq![ChunkView::Reasoning(text)] }),
        OutputAction::ToSpace => (base, seq![ChunkView::Raw(" "@)]),
        OutputAction::Skip => (base, Seq::empty()),
        OutputAction::SkipInvalid { .. } => (base, Seq::empty()),
        OutputAction::StopSequence => (
            StashView {
                stop: Some(
                    match v.stop {
                        Some(t) => t,
                        None => Seq::empty(),
                    } + text,
                ),
                ..base
            },
            Seq::empty(),
        ),
        OutputAction::ToolCallBegin => (base, if last is ToolCallBegin { Seq::empty() } else { seq![ChunkView::ToolCallBegin] }),
        OutputAction::ToolName => (StashView { tool_name: v.tool_name + text, ..base }, Seq::empty()),
        OutputAction::ToolNameEnd => if last is ToolNameEnd {
            (base, Seq::empty())
        } else {
            (
                StashView { tool_name: Seq::empty(), has_tool_calls: true, ..base },
                seq![ChunkView::ToolCall { tool_name: v.tool_name, arguments: Seq::empty() }],
            )
        },
        OutputAction::LabelToolCallArguments { label, .. } => (
            base,
            if same_action(last, action) { Seq::empty() } else { seq![ChunkView::ToolArgumentsDelta(label@)] },
        ),
        OutputAction::RawToolCallArguments { string } => (
            base,
            seq![ChunkView::ToolArgumentsDelta(if string { json_string_body(text) } else { text })],
        ),
        OutputAction::ToolCallArgumentsEnd { output } => (
            base,
            if same_action(last, action) {
                Seq::empty()
            } else {
                match output {
                    Some(o) => seq![ChunkView::ToolArgumentsDelta(o@)],
                    None => Seq::empty(),
                }
            },
        ),
        OutputAction::Label(label) => (
            base,
            if same_action(last, action) { Seq::empty() } else { seq![ChunkView::Raw(label@)] },
        ),
    }
}

/// A pop for the segment `a` from the buffer `v`: the next `a.len` bytes,
/// or the rest of the first chunk when it is shorter, decoded as text, or
/// `None` where they are not UTF-8; nothing happens when nothing is
/// buffered.
pub open spec fn pop_spec(v: StashView, a: OutputActionSegment) -> Option<(StashView, Seq<ChunkView>)> {
    if v.chunks.len() == 0 {
        Some((v, Seq::empty()))
    } else {
        let front = v.chunks[0];
        let taken = if a.len < front.len() { a.len as int } else { front.len() as int };
        let bytes = front.take(taken);
        let rest = if a.len < front.len() {
            v.chunks.update(0, front.skip(a.len as int))
        } else {
            v.chunks.drop_first()
        };
        if vstd::utf8::valid_utf8(bytes) {
            Some(pop_effect(v, a.action, vstd::utf8::decode_utf8(bytes), rest))
        } else {
            None
        }
    }
}

/// The buffer keeps its chunks' order under a pop: only the chunks change.
proof fn lemma_pop_effect_chunks(v: StashView, action: OutputAction, text: Seq<char>, rest: Seq<Seq<u8>>)
    ensures
        pop_effect(v, action, text, rest).0.chunks == rest,
        pop_effect(v, action, text, rest).0.held == v.held,
{
}

/// Applying the segment `a` to the buffered chunks it covers whole: each is
/// popped in turn and `a` shrinks by its length; `None` where one is not
/// UTF-8.
pub open spec fn whole_spec(v: StashView, a: OutputActionSegment) -> Option<(StashView, OutputActionSegment, Seq<ChunkView>)>
    decreases v.chunks.len(),
{
    if v.chunks.len() == 0 || v.chunks[0].len() > a.len {
        Some((v, a, Seq::empty()))
    } else {
        let front = v.chunks[0];
        if !vstd::utf8::valid_utf8(front) {
            None
        } else {
            let (v1, o1) = pop_effect(v, a.action, vstd::utf8::decode_utf8(front), v.chunks.drop_first());
            match whole_spec(v1, OutputActionSegment { action: a.action, len: (a.len - front.len()) as usize }) {
                None => None,
                Some((v2, a2, o2)) => Some((v2, a2, o1 + o2)),
            }
        }
    }
}

/// Applying a segment to whole chunks leaves the waiting segment alone.
proof fn lemma_whole_held(v: StashView, a: OutputActionSegment)
    ensures
        whole_spec(v, a) matches Some((v2, _, _)) ==> v2.held == v.held,
    decreases v.chunks.len(),
{
    if !(v.chunks.len() == 0 || v.chunks[0].len() > a.len) {
        let front = v.chunks[0];
        if vstd::utf8::valid_utf8(front) {
            let (v1, o1) = pop_effect(v, a.action, vstd::utf8::decode_utf8(front), v.chunks.drop_first());
            lemma_pop_effect_chunks(v, a.action, vstd::utf8::decode_utf8(front), v.chunks.drop_first());
            lemma_whole_held(v1, OutputActionSegment { action: a.action, len: (a.len - front.len()) as usize });
        }
    }
}

/// `r` with the chunks `o` before its chunks.
pub open spec fn prepend_whole(o: Seq<ChunkView>, r: Option<(StashView, OutputActionSegment, Seq<ChunkView>)>) -> Option<(StashView, OutputActionSegment, Seq<ChunkView>)> {
    match r {
        None => None,
        Some((v, a, o2)) => Some((v, a, o + o2)),
    }
}

/// One segment from the parser, after the segment `held` (if any) that
/// waits for more: a segment of the same action extends it; one of another
/// action settles it, applying it to the chunks it covers whole and then to
/// what it covers of the next chunk, and waits in its place.
pub open spec fn apply_step(v: StashView, held: Option<OutputActionSegment>, a: OutputActionSegment) -> Option<(StashView, Option<OutputActionSegment>, Seq<ChunkView>)> {
    match held {
        None => Some((v, Some(a), Seq::empty())),
        Some(l) => if same_action(a.action, l.action) {
            Some((v, Some(OutputActionSegment { action: l.action, len: (l.len + a.len) as usize }), Seq::empty()))
        } else {
            match whole_spec(v, l) {
                None => None,
                Some((v1, l1, o1)) => if l1.len > 0 {
                    match pop_spec(v1, l1) {
                        None => None,
                        Some((v2, o2)) => Some((v2, Some(a), o1 + o2)),
                    }
                } else {
                    Some((v1, Some(a), o1))
                },
            }
        },
    }
}

/// The parser's segments `actions`, one by one, after the waiting segment
/// `held`.
pub open spec fn apply_fold(v: StashView, held: Option<OutputActionSegment>, actions: Seq<OutputActionSegment>) -> Option<(StashView, Option<OutputActionSegment>, Seq<ChunkView>)>
    decreases actions.len(),
{
    if actions.len() == 0 {
        Some((v, held, Seq::empty()))
    } else {
        match apply_fold(v, held, actions.drop_last()) {
            None => None,
            Some((v1, h1, o1)) => match apply_step(v1, h1, actions.last()) {
                None => None,
                Some((v2, h2, o2)) => Some((v2, h2, o1 + o2)),
            },
        }
    }
}

/// Applying the parser's segments to the buffer `v`: the buffer after, and
/// the chunks yielded, in order; `None` where a segment ends inside a
/// character. The last segment waits, after it is applied to the chunks it
/// covers whole.
pub open spec fn apply_spec(v: StashView, actions: Seq<OutputActionSegment>) -> Option<(StashView, Seq<ChunkView>)> {
    match apply_fold(StashView { held: None, ..v }, v.held, actions) {
        None => None,
        Some((v1, h, o1)) => match h {
            None => Some((StashView { held: None, ..v1 }, o1)),
            Some(l) => match whole_spec(v1, l) {
                None => None,
                Some((v2, l2, o2)) => Some((StashView { held: Some(l2), ..v2 }, o1 + o2)),
            },
        },
    }
}

proof fn lemma_flatten_front(chunks: Seq<Vec<u8>>)
    requires
        chunks.len() > 0,
    ensures
        flatten_bytes(chunks) == chunks[0]@ + flatten_bytes(chunks.drop_first()),
    decreases chunks.len(),
{
    if chunks.len() > 1 {
        lemma_flatten_front(chunks.drop_last());
        assert(chunks.drop_last().drop_first() =~= chunks.drop_first().drop_last());
    } else {
        assert(chunks.drop_first() =~= Seq::<Vec<u8>>::empty());
        assert(chunks.drop_last() =~= Seq::<Vec<u8>>::empty());
    }
}

impl StashedChunks {
    /// The buffered chunks.
    pub closed spec fn chunk_seq(self) -> Seq<Vec<u8>> {
        self.chunks@
    }

    /// The state of the buffer.
    pub closed spec fn view_stash(self) -> StashView {
        StashView {
            chunks: self.chunks@.map_values(|c: Vec<u8>| c@),
            held: self.last_stashed_action,
            tool_name: self.stashed_tool_name@,
            last_pop: self.last_pop_action,
            stop: opt_text(self.stop_sequence),
            has_tool_calls: self.has_tool_calls,
        }
    }

    /// The action of the previous pop.
    pub closed spec fn last_pop(self) -> OutputAction {
        self.last_pop_action
    }

    /// The tool name buffered so far.
    pub closed spec fn tool_name_spec(self) -> Seq<char> {
        self.stashed_tool_name@
    }

    /// The stop sequence text collected so far, empty when none.
    pub closed spec fn stop_text(self) -> Seq<char> {
        match self.stop_sequence {
            Some(s) => s@,
            None => Seq::empty(),
        }
    }

    /// Consume the next `action.len` buffered bytes, or the rest of the first
    /// buffered chunk when it is shorter, and produce the chunk the action
    /// yields; nothing happens when nothing is buffered.
    pub fn pop(&mut self, action: OutputActionSegment) -> (r: Result<Option<OutputChunk>, CharBoundaryError>)
        ensures
            r is Ok <==> pop_spec(old(self).view_stash(), action) is Some,
            r matches Ok(c) ==> pop_spec(old(self).view_stash(), action) == Some((final(self).view_stash(), opt_chunk(c))),
            final(self).view_stash().held == old(self).view_stash().held,
            final(self).held() == old(self).held(),
            old(self).has_tool_calls_spec() ==> final(self).has_tool_calls_spec(),
            old(self).chunk_seq().len() > 0 && action.len >= old(self).chunk_seq()[0]@.len() ==> final(self).chunk_seq().len() == old(self).chunk_seq().len() - 1,
            (r is Err) ==> is_suffix(final(self).buffered(), old(self).buffered()),
            old(self).chunk_seq().len() == 0 ==> r == Ok::<Option<OutputChunk>, CharBoundaryError>(None)
                && final(self).buffered() == old(self).buffered(),
            all_ascii(old(self).buffered()) ==> r is Ok,
            r is Ok && old(self).chunk_seq().len() > 0 ==> ({
                let front = old(self).chunk_seq()[0]@;
                let taken = if action.len < front.len() { action.len as int } else { front.len() as int };
                let text = vstd::utf8::decode_utf8(front.take(taken));
                &&& final(self).buffered() == old(self).buffered().skip(taken)
                &&& final(self).last_pop() == action.action
                &&& r matches Ok(o) && pop_yields(o, action.action, old(self).last_pop(), text, old(self).tool_name_spec())
                &&& action.action is StopSequence ==> final(self).stop_text() == old(self).stop_text() + text
                &&& !(action.action is StopSequence) ==> final(self).stop_text() == old(self).stop_text()
                &&& action.action is ToolName ==> final(self).tool_name_spec() == old(self).tool_name_spec() + text
                &&& action.action is ToolNameEnd && !(old(self).last_pop() is ToolNameEnd) ==> {
                    &&& final(self).tool_name_spec() == Seq::<char>::empty()
                    &&& final(self).has_tool_calls_spec()
                }
                &&& action.action is ToolNameEnd && old(self).last_pop() is ToolNameEnd ==> final(self).tool_name_spec()
                    == old(self).tool_name_spec()
                &&& !(action.action is ToolName) && !(action.action is ToolNameEnd) ==> final(self).tool_name_spec()
                    == old(self).tool_name_spec()
                &&& !(action.action is ToolNameEnd) ==> final(self).has_tool_calls_spec() == old(self).has_tool_calls_spec()
            }),
    {
        if self.chunks.len() == 0 {
            return Ok(None);
        }
        proof {
            lemma_flatten_front(self.chunks@);
        }
        let ghost old_chunks = self.chunks@;
        let mut front = self.chunks.remove(0);
        assert(self.chunks@ =~= old_chunks.drop_first());
        let front_len = front.len();
        if action.len < front_len {
            let remaining = front.split_off(action.len);
            self.chunks.insert(0, remaining);
            proof {
                lemma_flatten_front(self.chunks@);
                assert(self.chunks@.drop_first() =~= old_chunks.drop_first());
            }
        }
        let ghost taken = front@;
        proof {
            let v0 = old(self).view_stash();
            let f0 = v0.chunks[0];
            assert(f0 == old_chunks[0]@);
            let rest = if action.len < f0.len() {
                v0.chunks.update(0, f0.skip(action.len as int))
            } else {
                v0.chunks.drop_first()
            };
            assert(self.chunks@.map_values(|c: Vec<u8>| c@) =~= rest);
            assert(taken =~= f0.take(if action.len < f0.len() { action.len as int } else { f0.len() as int }));
        }
        assert(taken =~= old_chunks[0]@.take(if action.len < old_chunks[0]@.len() { action.len as int } else { old_chunks[0]@.len() as int }));
        proof {
            if all_ascii(flatten_bytes(old_chunks)) {
                assert forall|i: int| 0 <= i < taken.len() implies #[trigger] taken[i] < 0x80 by {
                    assert(taken[i] == flatten_bytes(old_chunks)[i]);
                }
                lemma_ascii_valid_utf8(taken);
            }
        }
        assert(flatten_bytes(self.chunks@) =~= flatten_bytes(old_chunks).skip(taken.len() as int));
        let text = match string_from_utf8(front) {
            Some(text) => text,
            None => {
                return Err(CharBoundaryError);
            },
        };
        let last = self.last_pop_action;
        self.last_pop_action = action.action;
        match action.action {
            OutputAction::Raw => {
                if text.as_str().is_empty() {
                    Ok(None)
                } else {
                    Ok(Some(OutputChunk::Raw { content: text }))
                }
            },
            OutputAction::Reasoning => {
                if text.as_str().is_empty() {
                    Ok(None)
                } else {
                    Ok(Some(OutputChunk::Reasoning { content: text }))
                }
            },
            OutputAction::ToSpace => Ok(Some(OutputChunk::Raw { content: String::from_str(" ") })),
            OutputAction::Skip => Ok(None),
            OutputAction::SkipInvalid { .. } => Ok(None),
            OutputAction::StopSequence => {
                let previous = match &self.stop_sequence {
                    Some(s) => s.clone(),
                    None => String::new(),
                };
                let joined = crate::text::concat(previous.as_str(), text.as_str());
                self.stop_sequence = Some(joined);
                Ok(None)
            },
            OutputAction::ToolCallBegin => {
                if !matches!(last, OutputAction::ToolCallBegin) {
                    Ok(Some(OutputChunk::ToolCallBegin))
                } else {
                    Ok(None)
                }
            },
            OutputAction::ToolName => {
                let joined = crate::text::concat(self.stashed_tool_name.as_str(), text.as_str());
                self.stashed_tool_name = joined;
                Ok(None)
            },
            OutputAction::ToolNameEnd => {
                if !matches!(last, OutputAction::ToolNameEnd) {
                    self.has_tool_calls = true;
                    let mut tool_name = String::new();
                    std::mem::swap(&mut tool_name, &mut self.stashed_tool_name);
                    Ok(Some(OutputChunk::ToolCall { tool_name, arguments: String::new() }))
                } else {
                    Ok(None)
                }
            },
            OutputAction::LabelToolCallArguments { label, .. } => {
                if !action_eq(&last, &action.action) {
                    Ok(Some(OutputChunk::ToolArgumentsDelta { content: label.to_string() }))
                } else {
                    Ok(None)
                }
            },
            OutputAction::RawToolCallArguments { string } => {
                let content = if string {
                    escape_json_string(text.as_str())
                } else {
                    text
                };
                Ok(Some(OutputChunk::ToolArgumentsDelta { content }))
            },
            OutputAction::ToolCallArgumentsEnd { output } => {
                if action_eq(&last, &action.action) {
                    return Ok(None);
                }
                match output {
                    Some(o) => Ok(Some(OutputChunk::ToolArgumentsDelta { content: o.to_string() })),
                    None => Ok(None),
                }
            },
            OutputAction::Label(label) => {
                if !action_eq(&last, &action.action) {
                    Ok(Some(OutputChunk::Raw { content: label.to_string() }))
                } else {
                    Ok(None)
                }
            },
        }
    }
}

/// `b` ends with `a`.
pub open spec fn is_suffix(a: Seq<u8>, b: Seq<u8>) -> bool {
    a.len() <= b.len() && b.skip(b.len() - a.len()) == a
}

proof fn lemma_skip_suffix(b: Seq<u8>, k: int)
    requires
        0 <= k <= b.len(),
    ensures
        is_suffix(b.skip(k), b),
{
    assert(b.skip(b.len() - b.skip(k).len()) =~= b.skip(k));
}

proof fn lemma_suffix_trans(a: Seq<u8>, b: Seq<u8>, c: Seq<u8>)
    requires
        is_suffix(a, b),
        is_suffix(b, c),
    ensures
        is_suffix(a, c),
{
    assert(c.skip(c.len() - a.len()) =~= c.skip(c.len() - b.len()).skip(b.len() - a.len()));
}

/// Every byte of `b` is ASCII.
pub open spec fn all_ascii(b: Seq<u8>) -> bool {
    forall|i: int| 0 <= i < b.len() ==> #[trigger] b[i] < 0x80
}

/// ASCII bytes are UTF-8.
proof fn lemma_ascii_valid_utf8(b: Seq<u8>)
    requires
        all_ascii(b),
    ensures
        vstd::utf8::valid_utf8(b),
    decreases b.len(),
{
    if b.len() > 0 {
        let x = b[0];
        assert(x & 0x7F <= 0x7F) by (bit_vector);
        let rest = b.subrange(1, b.len() as int);
        assert(all_ascii(rest)) by {
            assert forall|i: int| 0 <= i < rest.len() implies #[trigger] rest[i] < 0x80 by {
                assert(rest[i] == b[i + 1]);
            }
        }
        lemma_ascii_valid_utf8(rest);
        assert(vstd::utf8::pop_first_scalar(b) =~= rest);
    }
}

/// The end of ASCII bytes is ASCII.
proof fn lemma_suffix_ascii(a: Seq<u8>, b: Seq<u8>)
    requires
        is_suffix(a, b),
        all_ascii(b),
    ensures
        all_ascii(a),
{
    assert forall|i: int| 0 <= i < a.len() implies #[trigger] a[i] < 0x80 by {
        assert(a[i] == b.skip(b.len() - a.len())[i]);
    }
}

impl StashedChunks {
    /// Applies `action` to the buffered chunks it covers whole, reducing its
    /// length by theirs.
    fn apply_whole_chunks(&mut self, action: &mut OutputActionSegment, outputs: &mut Vec<OutputChunk>) -> (r: Result<(), CharBoundaryError>)
        ensures
            final(self).held() == old(self).held(),
            is_suffix(final(self).buffered(), old(self).buffered()),
            final(action).action == old(action).action,
            final(action).len <= old(action).len,
            old(self).has_tool_calls_spec() ==> final(self).has_tool_calls_spec(),
            all_ascii(old(self).buffered()) ==> r is Ok,
            match whole_spec(old(self).view_stash(), *old(action)) {
                Some((v2, a2, o)) => {
                    &&& r is Ok
                    &&& final(self).view_stash() == v2
                    &&& *final(action) == a2
                    &&& chunks_view(final(outputs)@) == chunks_view(old(outputs)@) + o
                },
                None => r is Err,
            },
    {
        assert(old(self).buffered().skip(0) =~= old(self).buffered());
        let ghost mut added: Seq<ChunkView> = Seq::empty();
        assert(chunks_view(outputs@) =~= chunks_view(old(outputs)@) + added);
        loop
            invariant
                chunks_view(outputs@) == chunks_view(old(outputs)@) + added,
                whole_spec(old(self).view_stash(), *old(action)) == prepend_whole(
                    added,
                    whole_spec(self.view_stash(), *action),
                ),
                self.held() == old(self).held(),
                is_suffix(self.buffered(), old(self).buffered()),
                all_ascii(old(self).buffered()) ==> all_ascii(self.buffered()),
                action.action == old(action).action,
                action.len <= old(action).len,
                old(self).has_tool_calls_spec() ==> self.has_tool_calls_spec(),
            decreases self.chunks@.len(),
        {
            if self.chunks.len() == 0 {
                assert(added + Seq::<ChunkView>::empty() =~= added);
                return Ok(());
            }
            let front_len = self.chunks[0].len();
            if front_len > action.len {
                assert(added + Seq::<ChunkView>::empty() =~= added);
                return Ok(());
            }
            let ghost v_before = self.view_stash();
            let ghost a_before = *action;
            let ghost outs_before = outputs@;
            proof {
                let f = v_before.chunks[0];
                assert(f == self.chunks@[0]@);
                assert(f.take(f.len() as int) =~= f);
            }
            let ghost before = self.buffered();
            let ghost old_front = self.chunks@[0]@;
            proof {
                lemma_flatten_front(self.chunks@);
            }
            proof {
                if all_ascii(old(self).buffered()) {
                    lemma_suffix_ascii(before, old(self).buffered());
                }
            }
            let popped = self.pop(OutputActionSegment::new(action.action, front_len));
            let ghost pg = popped;
            proof {
                if let Ok(c) = pg {
                    assert(chunks_view(outs_before) + opt_chunk(c) =~= match c {
                        Some(ch) => chunks_view(outs_before.push(ch)),
                        None => chunks_view(outs_before),
                    });
                    assert(chunks_view(old(outputs)@) + added + opt_chunk(c) =~= chunks_view(old(outputs)@) + (added
                        + opt_chunk(c)));
                    assert(forall|o: Seq<ChunkView>| #![auto] added + (opt_chunk(c) + o) =~= (added + opt_chunk(c)) + o);
                    added = added + opt_chunk(c);
                }
            }
            match popped {
                Ok(Some(chunk)) => outputs.push(chunk),
                Ok(None) => {},
                Err(e) => {
                    proof {
                        lemma_suffix_trans(self.buffered(), before, old(self).buffered());
                    }
                    return Err(e);
                },
            }
            proof {
                let front = old_front;
                let taken = if front_len < front.len() { front_len as int } else { front.len() as int };
                lemma_skip_suffix(before, taken);
                lemma_suffix_trans(self.buffered(), before, old(self).buffered());
                if all_ascii(old(self).buffered()) {
                    lemma_suffix_ascii(self.buffered(), old(self).buffered());
                }
            }
            action.len = action.len - front_len;
        }
    }
}

impl StashedChunks {
    /// Apply the parser's segments to the buffered text and return the chunks
    /// they yield. Consecutive segments of one action are merged, and the last
    /// segment is held until a segment of another action or the buffered text
    /// decides it; a segment that ends inside a character is an error.
    pub fn apply_actions(&mut self, actions: Vec<OutputActionSegment>) -> (r: Result<Vec<OutputChunk>, CharBoundaryError>)
        requires
            old(self).held() + total_len(actions@) <= usize::MAX,
        ensures
            is_suffix(final(self).buffered(), old(self).buffered()),
            old(self).has_tool_calls_spec() ==> final(self).has_tool_calls_spec(),
            r is Ok ==> final(self).held() <= old(self).held() + total_len(actions@),
            all_ascii(old(self).buffered()) ==> r is Ok,
            r is Ok <==> apply_spec(old(self).view_stash(), actions@) is Some,
            r matches Ok(v) ==> apply_spec(old(self).view_stash(), actions@) == Some(
                (final(self).view_stash(), chunks_view(v@)),
            ),
    {
        let mut outputs: Vec<OutputChunk> = Vec::new();
        let ghost held0 = old(self).view_stash().held;
        let mut last: Option<OutputActionSegment> = self.last_stashed_action.take();
        let ghost v0 = self.view_stash();
        assert(v0 == (StashView { held: None, ..old(self).view_stash() }));
        assert(old(self).buffered().skip(0) =~= old(self).buffered());
        assert(actions@.take(0) =~= Seq::<OutputActionSegment>::empty());
        assert(chunks_view(outputs@) =~= Seq::<ChunkView>::empty());
        let mut i: usize = 0;
        while i < actions.len()
            invariant
                i <= actions@.len(),
                is_suffix(self.buffered(), old(self).buffered()),
                all_ascii(old(self).buffered()) ==> all_ascii(self.buffered()),
                old(self).has_tool_calls_spec() ==> self.has_tool_calls_spec(),
                self.held() == 0,
                self.view_stash().held is None,
                (match last {
                    Some(l) => l.len as nat,
                    None => 0,
                }) <= old(self).held() + total_len(actions@.take(i as int)),
                old(self).held() + total_len(actions@) <= usize::MAX,
                apply_fold(v0, held0, actions@.take(i as int)) == Some((self.view_stash(), last, chunks_view(outputs@))),
                v0 == (StashView { held: None, ..old(self).view_stash() }),
                held0 == old(self).view_stash().held,
            decreases actions@.len() - i,
        {
            proof {
                lemma_total_len_take(actions@, i as int);
                lemma_total_len_le(actions@, i as int + 1);
                assert(actions@.take(i + 1).drop_last() =~= actions@.take(i as int));
                assert(actions@.take(i + 1).last() == actions@[i as int]);
            }
            let ghost vs = self.view_stash();
            let ghost outs0 = outputs@;
            let action = actions[i];
            match last {
                Some(mut l) => {
                    if action_eq(&action.action, &l.action) {
                        l.len = l.len + action.len;
                        last = Some(l);
                        assert(chunks_view(outputs@) + Seq::<ChunkView>::empty() =~= chunks_view(outputs@));
                    } else {
                        let ghost b0 = self.buffered();
                        let ghost l0 = l;
                        proof {
                            lemma_whole_held(vs, l0);
                        }
                        match self.apply_whole_chunks(&mut l, &mut outputs) {
                            Ok(()) => {},
                            Err(e) => {
                                proof {
                                    lemma_suffix_trans(self.buffered(), b0, old(self).buffered());
                                    assert(apply_step(vs, Some(l0), action) is None);
                                    assert(apply_fold(v0, held0, actions@.take(i + 1)) is None);
                                    lemma_apply_fold_none(v0, held0, actions@, i as int + 1);
                                    assert(apply_spec(old(self).view_stash(), actions@) is None);
                                }
                                return Err(e);
                            },
                        }
                        proof {
                            lemma_suffix_trans(self.buffered(), b0, old(self).buffered());
                        }
                        let ghost outs1 = outputs@;
                        if l.len > 0 {
                            let ghost b1 = self.buffered();
                            let ghost chunks1 = self.chunk_seq();
                            proof {
                                if chunks1.len() > 0 {
                                    lemma_flatten_front(chunks1);
                                }
                            }
                            match self.pop(l) {
                                Ok(Some(chunk)) => {
                                    outputs.push(chunk);
                                    assert(chunks_view(outputs@) =~= chunks_view(outs1) + seq![chunk_view(chunk)]);
                                },
                                Ok(None) => {
                                    assert(chunks_view(outputs@) =~= chunks_view(outs1) + Seq::<ChunkView>::empty());
                                },
                                Err(e) => {
                                    proof {
                                        lemma_suffix_trans(self.buffered(), b1, old(self).buffered());
                                        assert(apply_step(vs, Some(l0), action) is None);
                                        assert(apply_fold(v0, held0, actions@.take(i + 1)) is None);
                                        lemma_apply_fold_none(v0, held0, actions@, i as int + 1);
                                        assert(apply_spec(old(self).view_stash(), actions@) is None);
                                    }
                                    return Err(e);
                                },
                            }
                            proof {
                                if chunks1.len() > 0 {
                                    let front = chunks1[0]@;
                                    let taken = if l.len < front.len() { l.len as int } else { front.len() as int };
                                    lemma_skip_suffix(b1, taken);
                                    lemma_suffix_trans(self.buffered(), b1, old(self).buffered());
                                } else {
                                    assert(self.buffered() == b1);
                                }
                            }
                        }
                        last = Some(action);
                    }
                },
                None => {
                    last = Some(action);
                    assert(chunks_view(outputs@) + Seq::<ChunkView>::empty() =~= chunks_view(outputs@));
                },
            }
            i += 1;
        }
        assert(actions@.take(actions@.len() as int) =~= actions@);
        match last {
            Some(mut l) => {
                let ghost b0 = self.buffered();
                proof {
                    lemma_whole_held(self.view_stash(), l);
                }
                match self.apply_whole_chunks(&mut l, &mut outputs) {
                    Ok(()) => {},
                    Err(e) => {
                        proof {
                            lemma_suffix_trans(self.buffered(), b0, old(self).buffered());
                        }
                        return Err(e);
                    },
                }
                proof {
                    lemma_suffix_trans(self.buffered(), b0, old(self).buffered());
                }
                self.last_stashed_action = Some(l);
            },
            None => {
                self.last_stashed_action = None;
            },
        }
        Ok(outputs)
    }
}

proof fn lemma_apply_fold_none(v: StashView, held: Option<OutputActionSegment>, actions: Seq<OutputActionSegment>, k: int)
    requires
        0 <= k <= actions.len(),
        apply_fold(v, held, actions.take(k)) is None,
    ensures
        apply_fold(v, held, actions) is None,
    decreases actions.len(),
{
    if k < actions.len() {
        assert(actions.drop_last().take(k) =~= actions.take(k));
        lemma_apply_fold_none(v, held, actions.drop_last(), k);
    } else {
        assert(actions.take(k) =~= actions);
    }
}

proof fn lemma_total_len_take(s: Seq<OutputActionSegment>, i: int)
    requires
        0 <= i < s.len(),
    ensures
        total_len(s.take(i + 1)) == total_len(s.take(i)) + s[i].len,
{
    assert(s.take(i + 1).drop_last() =~= s.take(i));
}

proof fn lemma_total_len_le(s: Seq<OutputActionSegment>, i: int)
    requires
        0 <= i <= s.len(),
    ensures
        total_len(s.take(i)) <= total_len(s),
    decreases s.len() - i,
{
    if i < s.len() {
        lemma_total_len_le(s, i + 1);
        lemma_total_len_take(s, i);
    } else {
        assert(s.take(i) =~= s);
    }
}

/// Parse backend inference chunks and produce protocol response events.
///
/// Holds the protocol's event generator, the parsing options and the
/// decoder of token ids; the caller runs the stream.
pub struct StreamProcessor<G, D> {
    generator: G,
    options: ParsingOptions,
    decoder: Option<StreamDecoder<D>>,
}

impl<G: ChunkGenerator> StreamProcessor<G, NoDecoder> {
    /// Combine a protocol event generator with output parsing options.
    pub fn new(generator: G, options: ParsingOptions) -> (r: StreamProcessor<G, NoDecoder>)
        ensures
            r.generator_spec() == generator,
            r.decoder_spec() is None,
    {
        StreamProcessor { generator, options, decoder: None }
    }
}

impl<G: ChunkGenerator, D: TokenizerDecoder> StreamProcessor<G, D> {
    /// The generator.
    pub closed spec fn generator_spec(self) -> G {
        self.generator
    }

    /// The attached decoder.
    pub closed spec fn decoder_spec(self) -> Option<StreamDecoder<D>> {
        self.decoder
    }

    /// Decode `InferenceChunk::Token` ids with the supplied decoder.
    pub fn with_tokenizer<U: TokenizerDecoder>(self, decoder: U) -> (r: StreamProcessor<G, U>)
        ensures
            r.generator_spec() == self.generator_spec(),
            r.decoder_spec() is Some,
    {
        StreamProcessor { generator: self.generator, options: self.options, decoder: Some(StreamDecoder::new(decoder)) }
    }

    /// Split the processor into its generator, options and decoder.
    pub fn into_parts(self) -> (r: (G, ParsingOptions, Option<StreamDecoder<D>>))
        ensures
            r.0 == self.generator_spec(),
            r.2 == self.decoder_spec(),
    {
        (self.generator, self.options, self.decoder)
    }
}

/// The current Unix time in whole seconds, or zero for a clock set before
/// the epoch. Reads the system clock: nothing is stated of the result.
#[verifier::external_body]
pub(crate) fn unix_time_secs() -> u64 {
    std::time::SystemTime::now().duration_since(std::time::UNIX_EPOCH).map(|elapsed| elapsed.as_secs()).unwrap_or(0)
}


// ---------------------------------------------------------------------------
// The decisions of stream processing

/// Where the stream had not started, the chunks begin with the start event
/// without a fingerprint.
pub open spec fn starts_with_start(started: bool, usage: PromptUsage, v: Seq<OutputChunk>) -> bool {
    !started ==> v.len() > 0 && v[0] == OutputChunk::Start { system_fingerprint: None, usage }
}

/// The start event where the stream had not started.
pub open spec fn start_chunks(started: bool, usage: PromptUsage) -> Seq<ChunkView> {
    if started {
        Seq::empty()
    } else {
        seq![ChunkView::Start { system_fingerprint: None, usage }]
    }
}

/// The parser's state and segments after the text `content`.
pub open spec fn text_segments(st: ProcessorState, content: Seq<u8>) -> (StateView, Seq<OutputActionSegment>) {
    state_feed(st.parser_view(), content, st.parser_options())
}

/// The buffer with the text `content` added.
pub open spec fn pushed_stash(st: ProcessorState, content: Seq<u8>) -> StashView {
    StashView { chunks: st.stash_view().chunks.push(content), ..st.stash_view() }
}

/// The chunks of one piece of text: the start event where the stream had
/// not started, then what the parser's segments of the text yield from the
/// buffer with the text added.
pub open spec fn text_chunks(st: ProcessorState, content: Seq<u8>, v: Seq<ChunkView>) -> bool {
    apply_spec(pushed_stash(st, content), text_segments(st, content).1) matches Some((_, o))
        && v == start_chunks(st.started_spec(), st.prompt_usage_spec()) + o
}

/// The stop sequence a stream ends with: the one matched before, followed
/// by the one the held text completes.
pub open spec fn final_stop(before: Option<Seq<char>>, tail: Option<Seq<char>>) -> Option<Seq<char>> {
    match (before, tail) {
        (Some(a), Some(b)) => Some(a + b),
        (Some(a), None) => Some(a),
        (None, t) => t,
    }
}

/// The segments the parser ends with: the held bytes with the unmatched
/// action.
pub open spec fn final_segments(st: ProcessorState) -> Seq<OutputActionSegment> {
    emit_seg(st.parser_view().unmatched, st.parser_view().stashed as int)
}

/// The chunks that end a stream: the start event first where the stream had
/// not started, then what the parser's last segments yield from the
/// buffer, and last the finish event with the stop sequence matched, the
/// completion usage, and the finish reason that the stop sequence, the
/// backend's reason and the tool calls emitted give.
pub open spec fn finished_with(st: ProcessorState, v: Seq<ChunkView>) -> bool {
    match apply_spec(st.stash_view(), final_segments(st)) {
        None => false,
        Some((s2, o)) => {
            let stop = final_stop(opt_text(st.stop_sequence_spec()), s2.stop);
            v == start_chunks(st.started_spec(), st.prompt_usage_spec()) + o + seq![
                ChunkView::Finish {
                    reason: finish_reason_spec(stop is Some, st.backend_finish_spec(), s2.has_tool_calls),
                    stop_sequence: stop,
                    usage: CompletionUsage { completion_tokens: st.completion_tokens_spec() as usize },
                },
            ]
        },
    }
}

/// The state of stream processing between inference chunks: the parser,
/// the buffered text, the usage so far, and whether the start event was
/// emitted. Reading the chunks and handing the output chunks to a protocol
/// generator belong to the caller.
pub struct ProcessorState {
    state_machine: StateMachine,
    stashed: StashedChunks,
    started: bool,
    prompt_usage: PromptUsage,
    completion_usage: CompletionUsage,
    backend_finish: Option<InferenceFinishReason>,
    stop_sequence: Option<String>,
    ended: bool,
    fed: usize,
}

impl ProcessorState {
    /// The parser and the buffer agree with the bytes fed.
    pub closed spec fn inv(self) -> bool {
        &&& self.state_machine.wf()
        &&& self.stashed.held() + self.state_machine.pending() <= self.fed
    }

    /// Whether the start event was emitted.
    pub closed spec fn started_spec(self) -> bool {
        self.started
    }

    /// The prompt usage reported so far.
    pub closed spec fn prompt_usage_spec(self) -> PromptUsage {
        self.prompt_usage
    }

    /// The completion tokens counted so far.
    pub closed spec fn completion_tokens_spec(self) -> nat {
        self.completion_usage.completion_tokens as nat
    }

    /// The finish reason the backend reported, if any.
    pub closed spec fn backend_finish_spec(self) -> Option<InferenceFinishReason> {
        self.backend_finish
    }

    /// The stop sequence matched so far, if any.
    pub closed spec fn stop_sequence_spec(self) -> Option<String> {
        self.stop_sequence
    }

    /// Whether no more input is read: the backend finished or a stop
    /// sequence matched.
    pub closed spec fn ended_spec(self) -> bool {
        self.ended
    }

    /// The bytes of text fed so far.
    pub closed spec fn fed_spec(self) -> nat {
        self.fed as nat
    }

    /// The bytes of text buffered and not yet consumed by a segment.
    pub closed spec fn held_text_spec(self) -> Seq<u8> {
        self.stashed.buffered()
    }

    /// The state of the parser.
    pub closed spec fn parser_view(self) -> StateView {
        self.state_machine.state_view()
    }

    /// The options the parser works with.
    pub closed spec fn parser_options(self) -> ParsingOptions {
        self.state_machine.options_spec()
    }

    /// The state of the text buffer.
    pub closed spec fn stash_view(self) -> StashView {
        self.stashed.view_stash()
    }

    /// The state before any chunk.
    pub fn new(options: ParsingOptions) -> (r: ProcessorState)
        ensures
            r.inv(),
            !r.started_spec(),
            r.prompt_usage_spec() == (PromptUsage { prompt_tokens: 0, prompt_cache_hit_tokens: 0 }),
            r.completion_tokens_spec() == 0,
            r.backend_finish_spec() is None,
            r.stop_sequence_spec() is None,
            !r.ended_spec(),
            r.fed_spec() == 0,
    {
        ProcessorState {
            state_machine: StateMachine::new(options),
            stashed: StashedChunks::new(),
            started: false,
            prompt_usage: PromptUsage { prompt_tokens: 0, prompt_cache_hit_tokens: 0 },
            completion_usage: CompletionUsage { completion_tokens: 0 },
            backend_finish: None,
            stop_sequence: None,
            ended: false,
            fed: 0,
        }
    }

    /// The bytes of text fed so far.
    pub fn fed(&self) -> (r: usize)
        ensures
            r == self.fed_spec(),
    {
        self.fed
    }

    /// The completion tokens counted so far.
    pub fn completion_tokens(&self) -> (r: usize)
        ensures
            r == self.completion_tokens_spec(),
    {
        self.completion_usage.completion_tokens
    }

    /// Whether no more input is to be read.
    pub fn ended(&self) -> (r: bool)
        ensures
            r == self.ended_spec(),
    {
        self.ended
    }

    /// The start event, where it has not been emitted yet, without a
    /// fingerprint.
    fn start(&mut self) -> (r: Vec<OutputChunk>)
        ensures
            final(self).started_spec(),
            old(self).started_spec() ==> r@.len() == 0,
            !old(self).started_spec() ==> r@ == seq![
                OutputChunk::Start { system_fingerprint: None, usage: old(self).prompt_usage_spec() },
            ],
            final(self).completion_tokens_spec() == old(self).completion_tokens_spec(),
            final(self).backend_finish_spec() == old(self).backend_finish_spec(),
            final(self).stop_sequence_spec() == old(self).stop_sequence_spec(),
            final(self).fed_spec() == old(self).fed_spec(),
            old(self).inv() ==> final(self).inv(),
            final(self).ended_spec() == old(self).ended_spec(),
            final(self).held_text_spec() == old(self).held_text_spec(),
            final(self).stash_view() == old(self).stash_view(),
            final(self).parser_view() == old(self).parser_view(),
            final(self).parser_options() == old(self).parser_options(),
            final(self).prompt_usage_spec() == old(self).prompt_usage_spec(),
    {
        let mut out: Vec<OutputChunk> = Vec::new();
        if !self.started {
            out.push(OutputChunk::Start { system_fingerprint: None, usage: self.prompt_usage });
            self.started = true;
        }
        out
    }

    /// A ready chunk: its usage replaces the prompt usage, and the first
    /// chunk of the stream emits the start event with its fingerprint.
    pub fn ready(&mut self, system_fingerprint: Option<String>, usage: PromptUsage) -> (r: Vec<OutputChunk>)
        ensures
            final(self).prompt_usage_spec() == usage,
            final(self).started_spec(),
            old(self).started_spec() ==> r@.len() == 0,
            !old(self).started_spec() ==> r@ == seq![OutputChunk::Start { system_fingerprint, usage }],
            final(self).completion_tokens_spec() == old(self).completion_tokens_spec(),
            final(self).backend_finish_spec() == old(self).backend_finish_spec(),
            final(self).stop_sequence_spec() == old(self).stop_sequence_spec(),
            final(self).fed_spec() == old(self).fed_spec(),
            old(self).inv() ==> final(self).inv(),
            final(self).ended_spec() == old(self).ended_spec(),
    {
        self.prompt_usage = usage;
        let mut out: Vec<OutputChunk> = Vec::new();
        if !self.started {
            out.push(OutputChunk::Start { system_fingerprint, usage });
            self.started = true;
        }
        out
    }

    /// A finish chunk: the stream starts if it has not, the backend's reason
    /// is recorded, and no more input is read.
    pub fn backend_finished(&mut self, reason: InferenceFinishReason) -> (r: Vec<OutputChunk>)
        ensures
            final(self).started_spec(),
            final(self).ended_spec(),
            final(self).backend_finish_spec() == Some(reason),
            old(self).started_spec() ==> r@.len() == 0,
            !old(self).started_spec() ==> r@ == seq![
                OutputChunk::Start { system_fingerprint: None, usage: old(self).prompt_usage_spec() },
            ],
            final(self).completion_tokens_spec() == old(self).completion_tokens_spec(),
            final(self).stop_sequence_spec() == old(self).stop_sequence_spec(),
            final(self).fed_spec() == old(self).fed_spec(),
            final(self).prompt_usage_spec() == old(self).prompt_usage_spec(),
            old(self).inv() ==> final(self).inv(),
    {
        let out = self.start();
        self.backend_finish = Some(reason);
        self.ended = true;
        out
    }

    /// Text and the tokens it accounts for: the stream starts if it has
    /// not, the tokens are counted, the parser's segments are applied to
    /// the buffered text, and a matched stop sequence ends the input.
    pub fn text(&mut self, content: &str, content_tokens: usize) -> (r: Result<Vec<OutputChunk>, CharBoundaryError>)
        requires
            old(self).inv(),
            !old(self).ended_spec(),
            old(self).completion_tokens_spec() + content_tokens <= usize::MAX,
            old(self).fed_spec() + content.spec_bytes().len() <= usize::MAX,
        ensures
            r is Ok ==> final(self).inv(),
            final(self).started_spec(),
            final(self).prompt_usage_spec() == old(self).prompt_usage_spec(),
            final(self).completion_tokens_spec() == old(self).completion_tokens_spec() + content_tokens,
            final(self).backend_finish_spec() == old(self).backend_finish_spec(),
            r is Ok ==> final(self).fed_spec() == old(self).fed_spec() + content.spec_bytes().len(),
            r is Ok ==> final(self).ended_spec() == final(self).stop_sequence_spec() is Some,
            r matches Ok(v) ==> starts_with_start(old(self).started_spec(), old(self).prompt_usage_spec(), v@),
            all_ascii(old(self).held_text_spec() + content.spec_bytes()) ==> r is Ok,
            r is Ok <==> apply_spec(
                pushed_stash(*old(self), content.spec_bytes()),
                text_segments(*old(self), content.spec_bytes()).1,
            ) is Some,
            r matches Ok(v) ==> text_chunks(*old(self), content.spec_bytes(), chunks_view(v@)),
            r is Ok ==> final(self).parser_view() == text_segments(*old(self), content.spec_bytes()).0,
            r is Ok ==> final(self).parser_options() == old(self).parser_options(),
            r is Ok ==> (apply_spec(
                pushed_stash(*old(self), content.spec_bytes()),
                text_segments(*old(self), content.spec_bytes()).1,
            ) matches Some((s2, _)) && final(self).stash_view() == (StashView { stop: None, ..s2 }) && opt_text(
                final(self).stop_sequence_spec(),
            ) == s2.stop),
    {
        let mut out = self.start();
        let ghost out0 = out@;
        self.completion_usage.completion_tokens = self.completion_usage.completion_tokens + content_tokens;
        let n = content.as_bytes().len();
        let actions = self.state_machine.feed(content);
        self.stashed.push(content);
        self.fed = self.fed + n;
        assert(self.stash_view() == pushed_stash(*old(self), content.spec_bytes()));
        assert(actions@ == text_segments(*old(self), content.spec_bytes()).1);
        let mut more = match self.stashed.apply_actions(actions) {
            Ok(v) => v,
            Err(e) => {
                return Err(e);
            },
        };
        let ghost more0 = more@;
        out.append(&mut more);
        assert(chunks_view(out@) =~= chunks_view(out0) + chunks_view(more0));
        assert(chunks_view(out0) =~= start_chunks(old(self).started_spec(), old(self).prompt_usage_spec()));
        self.stop_sequence = self.stashed.take_stop_sequence();
        self.ended = self.stop_sequence.is_some();
        Ok(out)
    }

    /// The end of the input: the stream starts if it has not, the held
    /// text is applied, and the finish event closes the stream with the
    /// stop sequence matched, if any, the completion usage, and the finish
    /// reason: a stop sequence wins, then the backend's reason, a stop after
    /// tool calls being reported as tool calls.
    pub fn finish(self) -> (r: Result<Vec<OutputChunk>, CharBoundaryError>)
        requires
            self.inv(),
        ensures
            r is Ok <==> apply_spec(self.stash_view(), final_segments(self)) is Some,
            r matches Ok(v) ==> finished_with(self, chunks_view(v@)),
            all_ascii(self.held_text_spec()) ==> r is Ok,
    {
        let ghost old_self = self;
        let mut st = self;
        let mut out = st.start();
        let ProcessorState { state_machine, mut stashed, completion_usage, backend_finish, stop_sequence, .. } = st;
        let ghost out0 = out@;
        let actions = state_machine.finish();
        assert(actions@ == final_segments(old_self));
        assert(stashed.view_stash() == old_self.stash_view());
        let mut more = match stashed.apply_actions(actions) {
            Ok(v) => v,
            Err(e) => {
                return Err(e);
            },
        };
        let ghost more0 = more@;
        let ghost s2 = stashed.view_stash();
        out.append(&mut more);
        let ghost out1 = out@;
        assert(chunks_view(out1) =~= chunks_view(out0) + chunks_view(more0));
        assert(chunks_view(out0) =~= start_chunks(old_self.started_spec(), old_self.prompt_usage_spec()));
        let stop = match (stop_sequence, stashed.take_stop_sequence()) {
            (Some(s), Some(tail)) => Some(crate::text::concat(s.as_str(), tail.as_str())),
            (Some(s), None) => Some(s),
            (None, tail) => tail,
        };
        let has_tool_calls = stashed.has_tool_calls();
        let reason = finish_reason(stop.is_some(), backend_finish, has_tool_calls);
        let ghost stopped = stop is Some;
        assert(opt_text(stop) == final_stop(opt_text(old_self.stop_sequence_spec()), s2.stop));
        out.push(OutputChunk::Finish { reason, stop_sequence: stop, usage: completion_usage });
        assert(reason == finish_reason_spec(stopped, old_self.backend_finish_spec(), has_tool_calls));
        assert(chunks_view(out@) =~= chunks_view(out1).push(chunk_view(OutputChunk::Finish { reason, stop_sequence: stop, usage: completion_usage })));
        proof {
            let st0 = old_self;
            let fv = ChunkView::Finish {
                reason: finish_reason_spec(
                    final_stop(opt_text(st0.stop_sequence_spec()), s2.stop) is Some,
                    st0.backend_finish_spec(),
                    s2.has_tool_calls,
                ),
                stop_sequence: final_stop(opt_text(st0.stop_sequence_spec()), s2.stop),
                usage: CompletionUsage { completion_tokens: st0.completion_tokens_spec() as usize },
            };
            assert(apply_spec(st0.stash_view(), final_segments(st0)) == Some((s2, chunks_view(more0))));
            assert(has_tool_calls == s2.has_tool_calls);
            assert(completion_usage == CompletionUsage { completion_tokens: st0.completion_tokens_spec() as usize });
            assert(chunk_view(OutputChunk::Finish { reason, stop_sequence: stop, usage: completion_usage }) == fv);
            assert(chunks_view(out@) =~= start_chunks(st0.started_spec(), st0.prompt_usage_spec()) + chunks_view(more0)
                + seq![fv]);
        }
        Ok(out)
    }
}

} // verus!
