//! Incrementally recognize reasoning, tool-call markup, and stop sequences in
//! inference output.
//!
//! The parser consumes output bytes and emits segments that each assign one
//! action to a number of input bytes. Bytes that may begin a marker are held
//! back until the marker is decided; every byte fed is eventually covered by
//! exactly one segment.

use vstd::prelude::*;
use vstd::string::StringSliceAdditionalSpecFns;

verus! {

/// Position within the reasoning section when parsing begins.
#[derive(Debug, Clone, Copy, PartialEq, Eq, Structural)]
pub enum ReasoningStage {
    /// Begin reasoning while discarding leading newlines.
    Start,
    /// Continue reasoning while preserving leading newlines.
    Reasoning,
    /// Continue answer content while preserving leading newlines.
    Content,
}

impl ReasoningStage {
    /// Whether parsing begins inside the reasoning section.
    pub fn start_from_reasoning(&self) -> (r: bool)
        ensures
            r == (*self is Start || *self is Reasoning),
    {
        match self {
            ReasoningStage::Start => true,
            ReasoningStage::Reasoning => true,
            ReasoningStage::Content => false,
        }
    }
}

/// Closes a JSON fence.
pub const JSON_END_LABEL: &'static str = "\n```";
/// Opens tool-call markup.
pub const DSML_BEGIN_LABEL: &'static str = "<｜DSML｜";
/// Closes one element of tool-call markup.
pub const DSML_END_LABEL: &'static str = "</｜DSML｜";
/// Ends the reasoning section.
pub const REASONING_END_LABEL: &'static str = "</think>";

/// Settings for parsing inference output.
#[derive(Debug, Clone)]
pub struct ParsingOptions {
    /// Parse model-specific tool-call markup.
    pub parse_tool_calls: bool,
    /// Begin parsing inside the tool-call block specified by the prompt.
    /// Takes precedence over `reasoning_initial_stage`.
    pub tool_call_initial_stage: bool,
    /// Recognize JSON fences or a raw `{` or `[` prefix and replace surrounding
    /// text with spaces. This does not validate JSON syntax.
    pub parse_json_output: bool,
    /// Initial reasoning or answer stage. `None` starts answer content with
    /// leading-newline removal.
    pub reasoning_initial_stage: Option<ReasoningStage>,
    /// Match stop sequences in ordinary answer text and detected JSON output.
    /// The state machine discards empty sequences during construction.
    pub stop_sequences: Vec<String>,
}

impl Default for ParsingOptions {
    fn default() -> (r: ParsingOptions)
        ensures
            r.parse_tool_calls,
            !r.tool_call_initial_stage,
            !r.parse_json_output,
            r.reasoning_initial_stage is None,
            r.stop_sequences@.len() == 0,
    {
        ParsingOptions {
            parse_tool_calls: true,
            tool_call_initial_stage: false,
            parse_json_output: false,
            reasoning_initial_stage: None,
            stop_sequences: Vec::new(),
        }
    }
}

/// Markup that the parser discards as invalid.
#[derive(Debug, Clone, Copy, PartialEq, Eq, Structural)]
pub enum InvalidTokenKind {
    ExtraEndOfThinking,
    ContentAfterFinished,
}

/// What the bytes of one segment are.
#[derive(Debug, Clone, Copy, PartialEq, Eq)]
pub enum OutputAction {
    Raw,
    ToSpace,
    SkipInvalid { kind: InvalidTokenKind },
    Skip,
    StopSequence,
    ToolCallBegin,
    ToolName,
    ToolNameEnd,
    LabelToolCallArguments { label: &'static str, id: u32 },
    RawToolCallArguments { string: bool },
    ToolCallArgumentsEnd { output: Option<&'static str> },
    Reasoning,
    Label(&'static str),
}

/// An action applied to the next `len` bytes of input.
#[derive(Debug, Clone, Copy)]
pub struct OutputActionSegment {
    pub action: OutputAction,
    pub len: usize,
}

impl OutputActionSegment {
    /// Create a segment of `len` bytes.
    pub fn new(action: OutputAction, len: usize) -> (r: OutputActionSegment)
        ensures
            r.action == action,
            r.len == len,
    {
        OutputActionSegment { action, len }
    }
}

/// The total length of `segments`.
pub open spec fn total_len(segments: Seq<OutputActionSegment>) -> nat
    decreases segments.len(),
{
    if segments.len() == 0 {
        0
    } else {
        total_len(segments.drop_last()) + segments.last().len as nat
    }
}

/// Every segment covers at least one byte.
pub open spec fn all_nonempty(segments: Seq<OutputActionSegment>) -> bool {
    forall|i: int| 0 <= i < segments.len() ==> #[trigger] segments[i].len > 0
}

// ---------------------------------------------------------------------------
// Matching

/// Whether the first `k` bytes of `s` are the last `k` bytes of `t`.
pub open spec fn ends_with_prefix(s: Seq<u8>, t: Seq<u8>, k: int) -> bool {
    &&& 0 <= k <= s.len()
    &&& k <= t.len()
    &&& s.take(k) == t.skip(t.len() - k)
}

/// `k` is the length of the longest prefix of `s` that ends `t`.
pub open spec fn is_longest_overlap(s: Seq<u8>, t: Seq<u8>, k: int) -> bool {
    &&& ends_with_prefix(s, t, k)
    &&& forall|j: int| k < j <= s.len() ==> !#[trigger] ends_with_prefix(s, t, j)
}

/// `k` is the length of the longest proper prefix of `s[..=i]` that is also
/// its suffix.
pub open spec fn is_failure(s: Seq<u8>, i: int, k: int) -> bool {
    &&& 0 <= k <= i
    &&& ends_with_prefix(s, s.take(i + 1), k)
    &&& forall|j: int| k < j <= i ==> !#[trigger] ends_with_prefix(s, s.take(i + 1), j)
}

/// The failure table of `s`.
pub open spec fn table_wf(s: Seq<u8>, table: Seq<usize>) -> bool {
    &&& table.len() == s.len()
    &&& forall|i: int| 0 <= i < table.len() ==> #[trigger] is_failure(s, i, table[i] as int)
}

/// Of two prefixes of `s` that end `t`, the shorter ends the longer.
proof fn lemma_overlap_of_overlap(s: Seq<u8>, t: Seq<u8>, a: int, b: int)
    requires
        ends_with_prefix(s, t, a),
        0 <= b <= a,
    ensures
        ends_with_prefix(s, t, b) == ends_with_prefix(s, s.take(a), b),
{
    assert forall|x: int| 0 <= x < b implies #[trigger] t.skip(t.len() - b)[x] == s.take(a).skip(a - b)[x] by {
        assert(s.take(a)[a - b + x] == t.skip(t.len() - a)[a - b + x]);
    }
    assert(t.skip(t.len() - b) =~= s.take(a).skip(a - b));
}

/// A prefix of `s` of `k + 1` bytes ends `t` followed by `c` exactly when
/// its last byte is `c` and its first `k` bytes end `t`.
proof fn lemma_overlap_extend(s: Seq<u8>, t: Seq<u8>, c: u8, k: int)
    requires
        0 <= k,
    ensures
        ends_with_prefix(s, t.push(c), k + 1) == (k < s.len() && s[k] == c && ends_with_prefix(s, t, k)),
{
    let u = t.push(c);
    if k < s.len() && k <= t.len() {
        assert(s.take(k + 1) =~= s.take(k).push(s[k]));
        assert(u.skip(u.len() - (k + 1)) =~= t.skip(t.len() - k).push(c));
        if ends_with_prefix(s, u, k + 1) {
            assert(s.take(k + 1).last() == u.skip(u.len() - (k + 1)).last());
            assert(s.take(k) =~= s.take(k + 1).drop_last());
            assert(t.skip(t.len() - k) =~= u.skip(u.len() - (k + 1)).drop_last());
        }
    }
}

/// The empty prefix ends every sequence, and a whole prefix ends itself.
proof fn lemma_overlap_trivial(s: Seq<u8>, t: Seq<u8>, m: int)
    requires
        0 <= m <= s.len(),
    ensures
        ends_with_prefix(s, t, 0),
        ends_with_prefix(s, s.take(m), m),
{
    assert(s.take(0) =~= t.skip(t.len() as int));
    assert(s.take(m).skip(0) =~= s.take(m));
}

/// Returns the failure table of `pattern`: entry `i` is the length of the
/// longest proper prefix of `pattern[..=i]` that is also its suffix.
fn kmp_table(pattern: &Vec<u8>) -> (table: Vec<usize>)
    ensures
        table_wf(pattern@, table@),
{
    let ghost s = pattern@;
    let n = pattern.len();
    let mut table: Vec<usize> = Vec::new();
    let mut k: usize = 0;
    while k < n
        invariant
            k <= n,
            n == pattern@.len(),
            table@.len() == k,
            forall|i: int| 0 <= i < k ==> #[trigger] table@[i] == 0,
        decreases n - k,
    {
        table.push(0);
        k += 1;
    }
    if n > 0 {
        proof {
            lemma_overlap_trivial(s, s.take(1), 1);
            assert(table@[0] == 0);
            assert(is_failure(s, 0, 0));
        }
    }
    let mut len: usize = 0;
    let mut i: usize = 1;
    while i < n
        invariant
            s == pattern@,
            n == s.len(),
            table@.len() == n,
            n > 0 ==> 1 <= i <= n,
            len < i,
            forall|j: int| 0 <= j < i && j < n ==> #[trigger] is_failure(s, j, table@[j] as int),
            n > 0 ==> ends_with_prefix(s, s.take(i as int), len as int),
            forall|j: int|
                len < j < i && i < n && #[trigger] ends_with_prefix(s, s.take(i as int), j) ==> s[j] != s[i as int],
        decreases n - i, len,
    {
        assert(s.take(i + 1) =~= s.take(i as int).push(s[i as int]));
        if pattern[i] == pattern[len] {
            proof {
                lemma_overlap_extend(s, s.take(i as int), s[i as int], len as int);
                assert forall|j: int| len + 1 < j <= i implies !#[trigger] ends_with_prefix(s, s.take(i + 1), j) by {
                    lemma_overlap_extend(s, s.take(i as int), s[i as int], j - 1);
                }
            }
            len += 1;
            table.set(i, len);
            proof {
                assert(is_failure(s, i as int, len as int));
            }
            i += 1;
        } else if len != 0 {
            let f = table[len - 1];
            proof {
                assert(is_failure(s, len - 1, f as int));
                lemma_overlap_of_overlap(s, s.take(i as int), len as int, f as int);
                assert(len as int - 1 + 1 == len);
                assert forall|j: int|
                    f < j < i && i < n && #[trigger] ends_with_prefix(s, s.take(i as int), j) implies s[j] != s[i as int] by {
                    if j < len {
                        lemma_overlap_of_overlap(s, s.take(i as int), len as int, j);
                    }
                }
            }
            len = f;
        } else {
            proof {
                lemma_overlap_trivial(s, s.take(i + 1), 0);
                assert forall|j: int| 0 < j <= i implies !#[trigger] ends_with_prefix(s, s.take(i + 1), j) by {
                    lemma_overlap_extend(s, s.take(i as int), s[i as int], j - 1);
                }
            }
            table.set(i, 0);
            proof {
                assert(is_failure(s, i as int, 0));
            }
            i += 1;
        }
        proof {
            if n > 0 && i < n {
                lemma_overlap_trivial(s, s.take(i as int), 0);
            }
        }
    }
    table
}

/// Advances a match of `s` that has matched `len` bytes by `byte`: returns
/// the length of the longest prefix of `s` that ends the matched bytes
/// followed by `byte`.
fn kmp_next(s: &Vec<u8>, kmp_table: &Vec<usize>, len: usize, byte: u8) -> (r: usize)
    requires
        table_wf(s@, kmp_table@),
        len <= s@.len(),
    ensures
        is_longest_overlap(s@, s@.take(len as int).push(byte), r as int),
{
    let ghost sv = s@;
    let ghost start = len as int;
    let ghost w = sv.take(start);
    proof {
        lemma_overlap_trivial(sv, w, start);
    }
    let mut len = len;
    while len > 0 && (len >= s.len() || s[len] != byte)
        invariant
            sv == s@,
            w == sv.take(start),
            0 <= start <= sv.len(),
            table_wf(s@, kmp_table@),
            len <= start,
            ends_with_prefix(sv, w, len as int),
            forall|j: int|
                len < j <= start && #[trigger] ends_with_prefix(sv, w, j) ==> !(j < sv.len() && sv[j] == byte),
        decreases len,
    {
        let f = kmp_table[len - 1];
        proof {
            assert(is_failure(sv, len - 1, f as int));
            assert(len as int - 1 + 1 == len);
            lemma_overlap_of_overlap(sv, w, len as int, f as int);
            assert forall|j: int| f < j <= start && #[trigger] ends_with_prefix(sv, w, j) implies !(j < sv.len()
                && sv[j] == byte) by {
                if j < len {
                    lemma_overlap_of_overlap(sv, w, len as int, j);
                }
            }
        }
        len = f;
    }
    let ghost u = w.push(byte);
    if len < s.len() && s[len] == byte {
        proof {
            lemma_overlap_extend(sv, w, byte, len as int);
            assert forall|k: int| len + 1 < k <= sv.len() implies !#[trigger] ends_with_prefix(sv, u, k) by {
                lemma_overlap_extend(sv, w, byte, k - 1);
            }
        }
        len += 1;
    } else {
        proof {
            lemma_overlap_trivial(sv, u, 0);
            assert forall|k: int| 0 < k <= sv.len() implies !#[trigger] ends_with_prefix(sv, u, k) by {
                lemma_overlap_extend(sv, w, byte, k - 1);
            }
        }
    }
    len
}

/// The longest prefix of `s` of at most `j` bytes that ends `t`, as a length.
pub open spec fn overlap_from(s: Seq<u8>, t: Seq<u8>, j: int) -> int
    decreases j,
{
    if j <= 0 {
        0
    } else if ends_with_prefix(s, t, j) {
        j
    } else {
        overlap_from(s, t, j - 1)
    }
}

/// The length of the longest prefix of `s` that ends `t`.
pub open spec fn longest_overlap(s: Seq<u8>, t: Seq<u8>) -> int {
    overlap_from(s, t, if s.len() < t.len() { s.len() as int } else { t.len() as int })
}

proof fn lemma_overlap_from(s: Seq<u8>, t: Seq<u8>, j: int)
    requires
        j <= s.len(),
        j <= t.len(),
    ensures
        ends_with_prefix(s, t, overlap_from(s, t, j)),
        forall|k: int| overlap_from(s, t, j) < k <= j ==> !#[trigger] ends_with_prefix(s, t, k),
    decreases j,
{
    if j <= 0 {
        lemma_overlap_trivial(s, t, 0);
    } else if !ends_with_prefix(s, t, j) {
        lemma_overlap_from(s, t, j - 1);
    }
}

/// The longest overlap is the one length that [`is_longest_overlap`] allows.
proof fn lemma_longest_overlap(s: Seq<u8>, t: Seq<u8>, k: int)
    requires
        is_longest_overlap(s, t, k),
    ensures
        k == longest_overlap(s, t),
{
    let m = if s.len() < t.len() { s.len() as int } else { t.len() as int };
    lemma_overlap_from(s, t, m);
    let r = overlap_from(s, t, m);
    if r < k {
        assert(!ends_with_prefix(s, t, k));
    } else if k < r {
        assert(!ends_with_prefix(s, t, r));
    }
}

/// A match's progress, without its failure table: the pattern and the
/// bytes matched of it, with the newlines counted before it, or whether a
/// leading newline is still to be decided and was matched.
pub enum MatchView {
    String { s: Seq<u8>, len: nat },
    NewlinesAndString { s: Seq<u8>, len: nat, newlines: nat },
    LeadingNewline { leading: bool, matched: bool },
}

/// The bytes a match holds back.
pub open spec fn match_len(m: MatchView) -> nat {
    match m {
        MatchView::String { len, .. } => len,
        MatchView::NewlinesAndString { len, newlines, .. } => len + newlines,
        MatchView::LeadingNewline { matched, .. } => if matched { 1 } else { 0 },
    }
}

/// A match after one byte, and whether its pattern is then matched: a
/// string match advances to the longest prefix of the pattern that ends the
/// matched bytes followed by the byte; newlines before a string are counted
/// while no byte of the string is matched, and forgotten when the match
/// falls back; a leading newline is decided by the first byte.
pub open spec fn match_step(m: MatchView, byte: u8) -> (MatchView, bool) {
    match m {
        MatchView::String { s, len } => {
            let l2 = longest_overlap(s, s.take(len as int).push(byte));
            (MatchView::String { s, len: l2 as nat }, l2 == s.len())
        },
        MatchView::NewlinesAndString { s, len, newlines } => if len == 0 && byte == 10u8 {
            (MatchView::NewlinesAndString { s, len: 0, newlines: newlines + 1 }, 0 == s.len())
        } else {
            let l2 = longest_overlap(s, s.take(len as int).push(byte));
            (
                MatchView::NewlinesAndString { s, len: l2 as nat, newlines: if l2 <= len { 0 } else { newlines } },
                l2 == s.len(),
            )
        },
        MatchView::LeadingNewline { leading, matched } => {
            let m2 = if leading { byte == 10u8 } else { matched };
            (MatchView::LeadingNewline { leading: false, matched: m2 }, m2)
        },
    }
}

/// The progress of matching one pattern.
#[derive(Debug)]
enum MatchState {
    String { s: Vec<u8>, kmp_table: Vec<usize>, len: usize },
    NewlinesAndString { s: Vec<u8>, kmp_table: Vec<usize>, len: usize, newline_count: usize },
    LeadingNewline { leading: bool, matched: bool },
}

impl MatchState {
    /// The bytes the match holds back.
    spec fn matching_len_spec(self) -> nat {
        match self {
            MatchState::String { len, .. } => len as nat,
            MatchState::NewlinesAndString { len, newline_count, .. } => (len + newline_count) as nat,
            MatchState::LeadingNewline { matched, .. } => if matched { 1 } else { 0 },
        }
    }

    spec fn view_match(self) -> MatchView {
        match self {
            MatchState::String { s, len, .. } => MatchView::String { s: s@, len: len as nat },
            MatchState::NewlinesAndString { s, len, newline_count, .. } => MatchView::NewlinesAndString {
                s: s@,
                len: len as nat,
                newlines: newline_count as nat,
            },
            MatchState::LeadingNewline { leading, matched } => MatchView::LeadingNewline { leading, matched },
        }
    }

    spec fn wf(self) -> bool {
        match self {
            MatchState::String { s, kmp_table, len } => table_wf(s@, kmp_table@) && len <= s@.len(),
            MatchState::NewlinesAndString { s, kmp_table, len, .. } => table_wf(s@, kmp_table@) && len
                <= s@.len(),
            MatchState::LeadingNewline { leading, matched } => leading ==> !matched,
        }
    }

    /// The state after one byte, and whether the pattern is then matched: a
    /// string match advances to the longest prefix of the pattern that ends
    /// the matched bytes followed by the byte; newlines before a string are
    /// counted while no byte of the string is matched, and forgotten when
    /// the match falls back; a leading newline is decided by the first byte.
    spec fn fed(self, byte: u8, next: MatchState, matched: bool) -> bool {
        match (self, next) {
            (
                MatchState::String { s, kmp_table, len },
                MatchState::String { s: s2, kmp_table: t2, len: l2 },
            ) => {
                &&& s2@ == s@
                &&& t2@ == kmp_table@
                &&& is_longest_overlap(s@, s@.take(len as int).push(byte), l2 as int)
                &&& matched == (l2 == s@.len())
            },
            (
                MatchState::NewlinesAndString { s, kmp_table, len, newline_count },
                MatchState::NewlinesAndString { s: s2, kmp_table: t2, len: l2, newline_count: n2 },
            ) => {
                &&& s2@ == s@
                &&& t2@ == kmp_table@
                &&& if len == 0 && byte == 10u8 {
                    l2 == 0 && n2 == newline_count + 1
                } else {
                    &&& is_longest_overlap(s@, s@.take(len as int).push(byte), l2 as int)
                    &&& n2 == (if l2 <= len { 0 } else { newline_count })
                }
                &&& matched == (l2 == s@.len())
            },
            (
                MatchState::LeadingNewline { leading, matched: m },
                MatchState::LeadingNewline { leading: l2, matched: m2 },
            ) => {
                &&& !l2
                &&& m2 == (if leading { byte == 10u8 } else { m })
                &&& matched == m2
            },
            _ => false,
        }
    }

    /// Feeds one byte; returns whether the pattern is now matched.
    fn feed(&mut self, byte: u8) -> (matched: bool)
        requires
            old(self).wf(),
            old(self).matching_len_spec() < usize::MAX,
        ensures
            old(self).fed(byte, *final(self), matched),
            (final(self).view_match(), matched) == match_step(old(self).view_match(), byte),
            final(self).wf(),
            final(self).matching_len_spec() <= old(self).matching_len_spec() + 1,
    {
        let matched = match self {
            MatchState::String { s, kmp_table, len } => {
                *len = kmp_next(s, kmp_table, *len, byte);
                *len == s.len()
            },
            MatchState::NewlinesAndString { s, kmp_table, len, newline_count } => {
                if *len == 0 && byte == 10u8 {
                    *newline_count = *newline_count + 1;
                } else {
                    let next = kmp_next(s, kmp_table, *len, byte);
                    if next <= *len {
                        *newline_count = 0;
                    }
                    *len = next;
                }
                *len == s.len()
            },
            MatchState::LeadingNewline { leading, matched } => {
                if *leading {
                    *matched = byte == 10u8;
                }
                *leading = false;
                *matched
            },
        };
        proof {
            lemma_fed_view(*old(self), byte, *self, matched);
        }
        matched
    }

    /// Returns the bytes the match holds back.
    fn matching_len(&self) -> (r: usize)
        requires
            self.matching_len_spec() <= usize::MAX,
        ensures
            r == self.matching_len_spec(),
    {
        match self {
            MatchState::String { len, .. } => *len,
            MatchState::NewlinesAndString { len, newline_count, .. } => *len + *newline_count,
            MatchState::LeadingNewline { matched, .. } => if *matched {
                1
            } else {
                0
            },
        }
    }
}

proof fn lemma_fed_view(st: MatchState, byte: u8, next: MatchState, matched: bool)
    requires
        st.fed(byte, next, matched),
    ensures
        (next.view_match(), matched) == match_step(st.view_match(), byte),
{
    match (st, next) {
        (MatchState::String { s, len, .. }, MatchState::String { len: l2, .. }) => {
            lemma_longest_overlap(s@, s@.take(len as int).push(byte), l2 as int);
        },
        (MatchState::NewlinesAndString { s, len, .. }, MatchState::NewlinesAndString { len: l2, .. }) => {
            if !(len == 0 && byte == 10u8) {
                lemma_longest_overlap(s@, s@.take(len as int).push(byte), l2 as int);
            }
        },
        _ => {},
    }
}

/// Returns the bytes of `s`.
pub(crate) fn bytes_of(s: &str) -> (r: Vec<u8>)
    ensures
        r@ == s.spec_bytes(),
{
    let b = s.as_bytes();
    let mut v: Vec<u8> = Vec::new();
    let mut i: usize = 0;
    while i < b.len()
        invariant
            i <= b@.len(),
            v@ == b@.take(i as int),
        decreases b@.len() - i,
    {
        v.push(b[i]);
        assert(b@.take(i + 1) =~= b@.take(i as int).push(b@[i as int]));
        i += 1;
    }
    assert(b@.take(b@.len() as int) =~= b@);
    v
}

/// A fresh match of the bytes `s`.
spec fn fresh_string(st: MatchState, s: Seq<u8>) -> bool {
    st matches MatchState::String { s: b, len, .. } && b@ == s && len == 0
}

/// A fresh match of newlines followed by the bytes `s`.
spec fn fresh_newlines_and_string(st: MatchState, s: Seq<u8>) -> bool {
    st matches MatchState::NewlinesAndString { s: b, len, newline_count, .. } && b@ == s && len == 0
        && newline_count == 0
}

/// A fresh match of one leading newline.
spec fn fresh_leading_newline(st: MatchState) -> bool {
    st == MatchState::LeadingNewline { leading: true, matched: false }
}

/// A match of the string `s`.
fn string_state(s: &str) -> (r: MatchState)
    ensures
        fresh_string(r, s.spec_bytes()),
        r.wf(),
        r.matching_len_spec() == 0,
{
    let bytes = bytes_of(s);
    let kmp_table = kmp_table(&bytes);
    MatchState::String { s: bytes, kmp_table, len: 0 }
}

/// A match of newlines followed by the string `s`.
fn newlines_and_string_state(s: &str) -> (r: MatchState)
    ensures
        fresh_newlines_and_string(r, s.spec_bytes()),
        r.wf(),
        r.matching_len_spec() == 0,
{
    let bytes = bytes_of(s);
    let kmp_table = kmp_table(&bytes);
    MatchState::NewlinesAndString { s: bytes, kmp_table, len: 0, newline_count: 0 }
}

/// A match of one leading newline.
fn leading_newline_state() -> (r: MatchState)
    ensures
        fresh_leading_newline(r),
        r.wf(),
        r.matching_len_spec() == 0,
{
    MatchState::LeadingNewline { leading: true, matched: false }
}

// ---------------------------------------------------------------------------
// Parsing states

/// Where in the output the parser is.
#[derive(Debug, Clone, Copy, PartialEq, Eq, Structural)]
pub enum Stage {
    Common { is_leading: bool },
    Json,
    MatchedJson,
    ToolCalls,
    ToolName,
    ToolCallArguments { is_leading: bool },
    ToolCallParamName,
    ToolCallParamType,
    ToolCallParamValue { string: bool },
    Reasoning { is_leading: bool },
    Finished,
}

/// A pattern, the stage that follows it and the action on its bytes.
#[derive(Debug)]
struct MatchBranch {
    state: MatchState,
    next_stage: Stage,
    action_on_matched: OutputAction,
}

/// A branch of a parser state: its match, the stage that follows a match
/// and the action on the matched bytes.
pub struct BranchView {
    pub pattern: MatchView,
    pub next_stage: Stage,
    pub action: OutputAction,
}

/// A parser state: its stage, its branches in order, the action on bytes
/// no branch matches, and the number of bytes held back.
pub struct StateView {
    pub stage: Stage,
    pub branches: Seq<BranchView>,
    pub unmatched: OutputAction,
    pub stashed: nat,
}

spec fn branch_view(b: MatchBranch) -> BranchView {
    BranchView { pattern: b.state.view_match(), next_stage: b.next_stage, action: b.action_on_matched }
}

spec fn branch_views(bs: Seq<MatchBranch>) -> Seq<BranchView> {
    bs.map_values(|b: MatchBranch| branch_view(b))
}

/// A branch matching the bytes of `label`.
pub open spec fn string_branch(label: Seq<u8>, next_stage: Stage, action: OutputAction) -> BranchView {
    BranchView { pattern: MatchView::String { s: label, len: 0 }, next_stage, action }
}

/// A branch matching newlines followed by the bytes of `label`.
pub open spec fn newlines_branch(label: Seq<u8>, next_stage: Stage, action: OutputAction) -> BranchView {
    BranchView { pattern: MatchView::NewlinesAndString { s: label, len: 0, newlines: 0 }, next_stage, action }
}

/// A branch matching one leading newline.
pub open spec fn leading_branch(next_stage: Stage, action: OutputAction) -> BranchView {
    BranchView { pattern: MatchView::LeadingNewline { leading: true, matched: false }, next_stage, action }
}

/// The branches of the stop sequences, in order.
pub open spec fn stop_branches(stops: Seq<String>) -> Seq<BranchView> {
    stops.map_values(|x: String| string_branch(vstd::utf8::encode_utf8(x@), Stage::Finished, OutputAction::StopSequence))
}

/// The bytes of a label.
pub open spec fn label_bytes(label: &str) -> Seq<u8> {
    label.spec_bytes()
}

/// The branches that close a tool-call block.
pub open spec fn block_end_branches() -> Seq<BranchView> {
    seq![
        string_branch(label_bytes("invoke name=\""), Stage::ToolName, OutputAction::ToolCallBegin),
        string_branch(label_bytes("</｜DSML｜tool_calls>"), Stage::Finished, OutputAction::Skip),
        string_branch(label_bytes("</｜DSML｜ calls>"), Stage::Finished, OutputAction::Skip),
    ]
}

/// The state that begins `stage` under `options`: the markers each stage
/// looks for, in the order they are tried, and what becomes of other bytes.
pub open spec fn new_state_view(stage: Stage, options: ParsingOptions) -> StateView {
    let tool_begin = if options.parse_tool_calls {
        seq![newlines_branch(label_bytes(DSML_BEGIN_LABEL), Stage::ToolCalls, OutputAction::Skip)]
    } else {
        Seq::empty()
    };
    let (branches, unmatched) = match stage {
        Stage::Common { is_leading } => (
            (if options.parse_json_output {
                seq![
                    string_branch(label_bytes("```json\n"), Stage::Json, OutputAction::Skip),
                    string_branch(label_bytes("```\n"), Stage::Json, OutputAction::Skip),
                    string_branch(label_bytes("{"), Stage::Json, OutputAction::Label("{")),
                    string_branch(label_bytes("["), Stage::Json, OutputAction::Label("[")),
                ]
            } else {
                stop_branches(options.stop_sequences@)
            }) + tool_begin + (if is_leading {
                seq![leading_branch(Stage::Common { is_leading: true }, OutputAction::Skip)]
            } else {
                Seq::empty()
            }) + seq![
                string_branch(
                    label_bytes(REASONING_END_LABEL),
                    Stage::Common { is_leading: false },
                    OutputAction::SkipInvalid { kind: InvalidTokenKind::ExtraEndOfThinking },
                ),
            ],
            if options.parse_json_output { OutputAction::ToSpace } else { OutputAction::Raw },
        ),
        Stage::Json => (
            stop_branches(options.stop_sequences@).push(
                string_branch(label_bytes(JSON_END_LABEL), Stage::MatchedJson, OutputAction::Skip),
            ),
            OutputAction::Raw,
        ),
        Stage::MatchedJson => (tool_begin, OutputAction::ToSpace),
        Stage::ToolCalls => (block_end_branches(), OutputAction::Skip),
        Stage::ToolName => (
            seq![string_branch(label_bytes("\""), Stage::ToolCallArguments { is_leading: true }, OutputAction::ToolNameEnd)],
            OutputAction::ToolName,
        ),
        Stage::ToolCallArguments { is_leading } => (
            seq![
                string_branch(
                    label_bytes("parameter name="),
                    Stage::ToolCallParamName,
                    if is_leading {
                        OutputAction::LabelToolCallArguments { label: "{", id: 0 }
                    } else {
                        OutputAction::LabelToolCallArguments { label: ", ", id: 1 }
                    },
                ),
                string_branch(
                    label_bytes(DSML_END_LABEL),
                    Stage::ToolCalls,
                    if is_leading {
                        OutputAction::ToolCallArgumentsEnd { output: Some("{}") }
                    } else {
                        OutputAction::ToolCallArgumentsEnd { output: Some("}") }
                    },
                ),
            ],
            OutputAction::Skip,
        ),
        Stage::ToolCallParamName => (
            seq![
                string_branch(
                    label_bytes(" "),
                    Stage::ToolCallParamType,
                    OutputAction::LabelToolCallArguments { label: ": ", id: 2 },
                ),
            ],
            OutputAction::RawToolCallArguments { string: false },
        ),
        Stage::ToolCallParamType => (
            seq![
                string_branch(
                    label_bytes("true\">"),
                    Stage::ToolCallParamValue { string: true },
                    OutputAction::LabelToolCallArguments { label: "\"", id: 3 },
                ),
                string_branch(label_bytes("false\">"), Stage::ToolCallParamValue { string: false }, OutputAction::Skip),
            ],
            OutputAction::Skip,
        ),
        Stage::ToolCallParamValue { string } => (
            seq![
                string_branch(
                    label_bytes(DSML_END_LABEL),
                    Stage::ToolCallArguments { is_leading: false },
                    if string {
                        OutputAction::LabelToolCallArguments { label: "\"", id: 4 }
                    } else {
                        OutputAction::Skip
                    },
                ),
            ],
            OutputAction::RawToolCallArguments { string },
        ),
        Stage::Reasoning { is_leading } => (
            tool_begin + (if is_leading {
                seq![leading_branch(Stage::Reasoning { is_leading }, OutputAction::Skip)]
            } else {
                Seq::empty()
            }) + seq![newlines_branch(label_bytes(REASONING_END_LABEL), Stage::Common { is_leading: true }, OutputAction::Skip)],
            OutputAction::Reasoning,
        ),
        Stage::Finished => (Seq::empty(), OutputAction::SkipInvalid { kind: InvalidTokenKind::ContentAfterFinished }),
    };
    StateView { stage, branches, unmatched, stashed: 0 }
}

/// Every branch is well formed and holds back at most `stashed` bytes.
spec fn branches_wf(branches: Seq<MatchBranch>, stashed: nat) -> bool {
    forall|i: int|
        0 <= i < branches.len() ==> (#[trigger] branches[i]).state.wf() && branches[i].state.matching_len_spec()
            <= stashed
}

/// The parser state of one stage.
#[derive(Debug)]
struct State {
    stage: Stage,
    match_branches: Vec<MatchBranch>,
    action_on_unmatched: OutputAction,
    stashed_size: usize,
}

impl State {
    spec fn view_state(self) -> StateView {
        StateView {
            stage: self.stage,
            branches: branch_views(self.match_branches@),
            unmatched: self.action_on_unmatched,
            stashed: self.stashed_size as nat,
        }
    }

    spec fn wf(self) -> bool {
        branches_wf(self.match_branches@, self.stashed_size as nat)
    }
}

/// Adds a branch matching the string `label`.
fn add_string(branches: &mut Vec<MatchBranch>, label: &str, next_stage: Stage, action: OutputAction)
    requires
        branches_wf(old(branches)@, 0),
    ensures
        branch_views(final(branches)@) == branch_views(old(branches)@).push(string_branch(label.spec_bytes(), next_stage, action)),
        branches_wf(final(branches)@, 0),
        final(branches)@.len() == old(branches)@.len() + 1,
        forall|i: int| 0 <= i < old(branches)@.len() ==> #[trigger] final(branches)@[i] == old(branches)@[i],
        fresh_string(final(branches)@.last().state, label.spec_bytes()),
        final(branches)@.last().next_stage == next_stage,
        final(branches)@.last().action_on_matched == action,
{
    let state = string_state(label);
    branches.push(MatchBranch { state, next_stage, action_on_matched: action });
    assert(branch_views(branches@) =~= branch_views(old(branches)@).push(string_branch(label.spec_bytes(), next_stage, action)));
    assert(branches_wf(branches@, 0)) by {
        assert forall|i: int| 0 <= i < branches@.len() implies (#[trigger] branches@[i]).state.wf()
            && branches@[i].state.matching_len_spec() <= 0 by {
            if i < branches@.len() - 1 {
                assert(branches@[i] == old(branches)@[i]);
            }
        }
    }
}

/// Adds a branch matching newlines followed by `label`.
fn add_newlines_and_string(branches: &mut Vec<MatchBranch>, label: &str, next_stage: Stage, action: OutputAction)
    requires
        branches_wf(old(branches)@, 0),
    ensures
        branch_views(final(branches)@) == branch_views(old(branches)@).push(newlines_branch(label.spec_bytes(), next_stage, action)),
        branches_wf(final(branches)@, 0),
        final(branches)@.len() == old(branches)@.len() + 1,
        forall|i: int| 0 <= i < old(branches)@.len() ==> #[trigger] final(branches)@[i] == old(branches)@[i],
        fresh_newlines_and_string(final(branches)@.last().state, label.spec_bytes()),
        final(branches)@.last().next_stage == next_stage,
        final(branches)@.last().action_on_matched == action,
{
    let state = newlines_and_string_state(label);
    branches.push(MatchBranch { state, next_stage, action_on_matched: action });
    assert(branch_views(branches@) =~= branch_views(old(branches)@).push(newlines_branch(label.spec_bytes(), next_stage, action)));
    assert(branches_wf(branches@, 0)) by {
        assert forall|i: int| 0 <= i < branches@.len() implies (#[trigger] branches@[i]).state.wf()
            && branches@[i].state.matching_len_spec() <= 0 by {
            if i < branches@.len() - 1 {
                assert(branches@[i] == old(branches)@[i]);
            }
        }
    }
}

/// Adds a branch matching one leading newline.
fn add_leading_newline(branches: &mut Vec<MatchBranch>, next_stage: Stage, action: OutputAction)
    requires
        branches_wf(old(branches)@, 0),
    ensures
        branch_views(final(branches)@) == branch_views(old(branches)@).push(leading_branch(next_stage, action)),
        branches_wf(final(branches)@, 0),
        final(branches)@.len() == old(branches)@.len() + 1,
        forall|i: int| 0 <= i < old(branches)@.len() ==> #[trigger] final(branches)@[i] == old(branches)@[i],
        fresh_leading_newline(final(branches)@.last().state),
        final(branches)@.last().next_stage == next_stage,
        final(branches)@.last().action_on_matched == action,
{
    let state = leading_newline_state();
    branches.push(MatchBranch { state, next_stage, action_on_matched: action });
    assert(branch_views(branches@) =~= branch_views(old(branches)@).push(leading_branch(next_stage, action)));
    assert(branches_wf(branches@, 0)) by {
        assert forall|i: int| 0 <= i < branches@.len() implies (#[trigger] branches@[i]).state.wf()
            && branches@[i].state.matching_len_spec() <= 0 by {
            if i < branches@.len() - 1 {
                assert(branches@[i] == old(branches)@[i]);
            }
        }
    }
}

/// Adds a branch for each stop sequence.
fn add_stop_sequences(branches: &mut Vec<MatchBranch>, options: &ParsingOptions)
    requires
        branches_wf(old(branches)@, 0),
    ensures
        branch_views(final(branches)@) == branch_views(old(branches)@) + stop_branches(options.stop_sequences@),
        branches_wf(final(branches)@, 0),
        final(branches)@.len() == old(branches)@.len() + options.stop_sequences@.len(),
        forall|i: int| 0 <= i < old(branches)@.len() ==> #[trigger] final(branches)@[i] == old(branches)@[i],
        forall|i: int|
            0 <= i < options.stop_sequences@.len() ==> stop_branch(
                #[trigger] final(branches)@[old(branches)@.len() + i],
                options.stop_sequences@[i]@,
            ),
{
    let ghost start = branches@;
    let mut i: usize = 0;
    while i < options.stop_sequences.len()
        invariant
            i <= options.stop_sequences@.len(),
            branches_wf(branches@, 0),
            branches@.len() == start.len() + i,
            branch_views(branches@) == branch_views(start) + stop_branches(options.stop_sequences@.take(i as int)),
            forall|j: int| 0 <= j < start.len() ==> #[trigger] branches@[j] == start[j],
            forall|j: int|
                0 <= j < i ==> stop_branch(#[trigger] branches@[start.len() + j], options.stop_sequences@[j]@),
        decreases options.stop_sequences@.len() - i,
    {
        let ghost before = branches@;
        add_string(branches, options.stop_sequences[i].as_str(), Stage::Finished, OutputAction::StopSequence);
        proof {
            assert(stop_branches(options.stop_sequences@.take(i + 1)) =~= stop_branches(
                options.stop_sequences@.take(i as int),
            ).push(stop_branches(options.stop_sequences@)[i as int]));
            assert(branch_views(branches@) =~= branch_views(start) + stop_branches(options.stop_sequences@.take(i + 1)));
            assert(branches@[start.len() + i] == branches@.last());
            assert forall|j: int| 0 <= j < i + 1 implies stop_branch(
                #[trigger] branches@[start.len() + j],
                options.stop_sequences@[j]@,
            ) by {
                if j < i {
                    assert(branches@[start.len() + j] == before[start.len() + j]);
                }
            }
        }
        i += 1;
    }
    assert(options.stop_sequences@.take(i as int) =~= options.stop_sequences@);
}

/// A branch that matches the stop sequence `stop` and finishes on it.
spec fn stop_branch(b: MatchBranch, stop: Seq<char>) -> bool {
    &&& fresh_string(b.state, vstd::utf8::encode_utf8(stop))
    &&& b.next_stage == Stage::Finished
    &&& b.action_on_matched == OutputAction::StopSequence
}

impl State {
    /// The state that begins `stage`.
    fn new(stage: Stage, options: &ParsingOptions) -> (r: State)
        ensures
            r.wf(),
            r.stashed_size == 0,
            r.stage == stage,
            r.view_state() == new_state_view(stage, *options),
    {
        let mut b: Vec<MatchBranch> = Vec::new();
        assert(branch_views(b@) =~= Seq::<BranchView>::empty());
        let action_on_unmatched = match stage {
            Stage::Common { is_leading } => {
                if options.parse_json_output {
                    add_string(&mut b, "```json\n", Stage::Json, OutputAction::Skip);
                    add_string(&mut b, "```\n", Stage::Json, OutputAction::Skip);
                    add_string(&mut b, "{", Stage::Json, OutputAction::Label("{"));
                    add_string(&mut b, "[", Stage::Json, OutputAction::Label("["));
                } else {
                    add_stop_sequences(&mut b, options);
                }
                if options.parse_tool_calls {
                    add_newlines_and_string(&mut b, DSML_BEGIN_LABEL, Stage::ToolCalls, OutputAction::Skip);
                }
                if is_leading {
                    add_leading_newline(&mut b, Stage::Common { is_leading: true }, OutputAction::Skip);
                }
                add_string(
                    &mut b,
                    REASONING_END_LABEL,
                    Stage::Common { is_leading: false },
                    OutputAction::SkipInvalid { kind: InvalidTokenKind::ExtraEndOfThinking },
                );
                if options.parse_json_output {
                    OutputAction::ToSpace
                } else {
                    OutputAction::Raw
                }
            },
            Stage::Json => {
                add_stop_sequences(&mut b, options);
                add_string(&mut b, JSON_END_LABEL, Stage::MatchedJson, OutputAction::Skip);
                OutputAction::Raw
            },
            Stage::MatchedJson => {
                if options.parse_tool_calls {
                    add_newlines_and_string(&mut b, DSML_BEGIN_LABEL, Stage::ToolCalls, OutputAction::Skip);
                }
                OutputAction::ToSpace
            },
            Stage::ToolCalls => {
                add_string(&mut b, "invoke name=\"", Stage::ToolName, OutputAction::ToolCallBegin);
                add_string(&mut b, "</｜DSML｜tool_calls>", Stage::Finished, OutputAction::Skip);
                add_string(&mut b, "</｜DSML｜ calls>", Stage::Finished, OutputAction::Skip);
                OutputAction::Skip
            },
            Stage::ToolName => {
                add_string(&mut b, "\"", Stage::ToolCallArguments { is_leading: true }, OutputAction::ToolNameEnd);
                OutputAction::ToolName
            },
            Stage::ToolCallArguments { is_leading } => {
                add_string(
                    &mut b,
                    "parameter name=",
                    Stage::ToolCallParamName,
                    if is_leading {
                        OutputAction::LabelToolCallArguments { label: "{", id: 0 }
                    } else {
                        OutputAction::LabelToolCallArguments { label: ", ", id: 1 }
                    },
                );
                add_string(
                    &mut b,
                    DSML_END_LABEL,
                    Stage::ToolCalls,
                    if is_leading {
                        OutputAction::ToolCallArgumentsEnd { output: Some("{}") }
                    } else {
                        OutputAction::ToolCallArgumentsEnd { output: Some("}") }
                    },
                );
                OutputAction::Skip
            },
            Stage::ToolCallParamName => {
                add_string(
                    &mut b,
                    " ",
                    Stage::ToolCallParamType,
                    OutputAction::LabelToolCallArguments { label: ": ", id: 2 },
                );
                OutputAction::RawToolCallArguments { string: false }
            },
            Stage::ToolCallParamType => {
                add_string(
                    &mut b,
                    "true\">",
                    Stage::ToolCallParamValue { string: true },
                    OutputAction::LabelToolCallArguments { label: "\"", id: 3 },
                );
                add_string(&mut b, "false\">", Stage::ToolCallParamValue { string: false }, OutputAction::Skip);
                OutputAction::Skip
            },
            Stage::ToolCallParamValue { string } => {
                add_string(
                    &mut b,
                    DSML_END_LABEL,
                    Stage::ToolCallArguments { is_leading: false },
                    if string {
                        OutputAction::LabelToolCallArguments { label: "\"", id: 4 }
                    } else {
                        OutputAction::Skip
                    },
                );
                OutputAction::RawToolCallArguments { string }
            },
            Stage::Reasoning { is_leading } => {
                if options.parse_tool_calls {
                    add_newlines_and_string(&mut b, DSML_BEGIN_LABEL, Stage::ToolCalls, OutputAction::Skip);
                }
                if is_leading {
                    add_leading_newline(&mut b, Stage::Reasoning { is_leading }, OutputAction::Skip);
                }
                add_newlines_and_string(
                    &mut b,
                    REASONING_END_LABEL,
                    Stage::Common { is_leading: true },
                    OutputAction::Skip,
                );
                OutputAction::Reasoning
            },
            Stage::Finished => OutputAction::SkipInvalid { kind: InvalidTokenKind::ContentAfterFinished },
        };
        assert(branch_views(b@) =~= new_state_view(stage, *options).branches);
        State { stage, match_branches: b, action_on_unmatched, stashed_size: 0 }
    }
}

proof fn lemma_total_len_push(segments: Seq<OutputActionSegment>, s: OutputActionSegment)
    ensures
        total_len(segments.push(s)) == total_len(segments) + s.len,
{
    assert(segments.push(s).drop_last() =~= segments);
}

/// Appends a segment of `len` bytes when `len` is positive.
fn emit(out: &mut Vec<OutputActionSegment>, action: OutputAction, len: usize)
    requires
        all_nonempty(old(out)@),
    ensures
        all_nonempty(final(out)@),
        total_len(final(out)@) == total_len(old(out)@) + len,
        final(out)@ == old(out)@ + emit_seg(action, len as int),
{
    if len > 0 {
        proof {
            lemma_total_len_push(out@, OutputActionSegment { action, len });
        }
        out.push(OutputActionSegment::new(action, len));
    }
    assert(out@ =~= old(out)@ + emit_seg(action, len as int));
}

/// A segment of `len` bytes with `action`, where `len` is positive.
pub open spec fn emit_seg(action: OutputAction, len: int) -> Seq<OutputActionSegment> {
    if len > 0 {
        seq![OutputActionSegment { action, len: len as usize }]
    } else {
        Seq::empty()
    }
}

/// The position of the first branch whose pattern `byte` completes.
pub open spec fn first_hit(bs: Seq<BranchView>, byte: u8) -> Option<int>
    decreases bs.len(),
{
    if bs.len() == 0 {
        None
    } else {
        match first_hit(bs.drop_last(), byte) {
            Some(i) => Some(i),
            None => if match_step(bs.last().pattern, byte).1 {
                Some(bs.len() - 1)
            } else {
                None
            },
        }
    }
}

/// The branches after one byte.
pub open spec fn stepped(bs: Seq<BranchView>, byte: u8) -> Seq<BranchView> {
    bs.map_values(
        |b: BranchView| BranchView { pattern: match_step(b.pattern, byte).0, next_stage: b.next_stage, action: b.action },
    )
}

/// The state after one byte, and the segments it decides: the byte is held
/// back; when it completes the pattern of a branch (the first such branch),
/// the held bytes before the match take the unmatched action, the matched
/// bytes take the branch's action, and the branch's next stage begins;
/// otherwise every branch advances.
pub open spec fn byte_step(v: StateView, byte: u8, options: ParsingOptions) -> (StateView, Seq<OutputActionSegment>) {
    let stashed = v.stashed + 1;
    match first_hit(v.branches, byte) {
        Some(i) => {
            let b = v.branches[i];
            let matched = match_len(match_step(b.pattern, byte).0);
            (
                new_state_view(b.next_stage, options),
                emit_seg(v.unmatched, stashed - matched) + emit_seg(b.action, matched as int),
            )
        },
        None => (
            StateView { stage: v.stage, branches: stepped(v.branches, byte), unmatched: v.unmatched, stashed },
            Seq::empty(),
        ),
    }
}

/// The state after the bytes `bytes`, and the segments they decide.
pub open spec fn feed_bytes(v: StateView, bytes: Seq<u8>, options: ParsingOptions) -> (StateView, Seq<OutputActionSegment>)
    decreases bytes.len(),
{
    if bytes.len() == 0 {
        (v, Seq::empty())
    } else {
        let (v1, o1) = feed_bytes(v, bytes.drop_last(), options);
        let (v2, o2) = byte_step(v1, bytes.last(), options);
        (v2, o1 + o2)
    }
}

/// The most bytes any branch holds back.
pub open spec fn max_match_len(bs: Seq<BranchView>) -> nat
    decreases bs.len(),
{
    if bs.len() == 0 {
        0
    } else {
        let m = max_match_len(bs.drop_last());
        let l = match_len(bs.last().pattern);
        if l > m {
            l
        } else {
            m
        }
    }
}

/// The held bytes that no branch can still match take the unmatched
/// action; the rest stay held.
pub open spec fn release(v: StateView) -> (StateView, Seq<OutputActionSegment>) {
    let m = max_match_len(v.branches);
    if m < v.stashed {
        (
            StateView { stage: v.stage, branches: v.branches, unmatched: v.unmatched, stashed: m },
            emit_seg(v.unmatched, v.stashed - m),
        )
    } else {
        (v, Seq::empty())
    }
}

/// The state after one chunk of input, and the segments it decides: its
/// bytes one by one, then the release of what no marker can still match.
pub open spec fn state_feed(v: StateView, bytes: Seq<u8>, options: ParsingOptions) -> (StateView, Seq<OutputActionSegment>) {
    let (v1, o1) = feed_bytes(v, bytes, options);
    let (v2, o2) = release(v1);
    (v2, o1 + o2)
}

proof fn lemma_first_hit_prefix(bs: Seq<BranchView>, byte: u8, k: int)
    requires
        0 <= k <= bs.len(),
    ensures
        first_hit(bs.take(k), byte) matches Some(i) ==> first_hit(bs, byte) == Some(i),
    decreases bs.len(),
{
    if k < bs.len() {
        lemma_first_hit_prefix(bs.drop_last(), byte, k);
        assert(bs.drop_last().take(k) =~= bs.take(k));
    } else {
        assert(bs.take(k) =~= bs);
    }
}

impl State {
    /// Feeds the bytes of `content`; every byte fed is either covered by a
    /// returned segment or held back.
    fn feed(&mut self, content: &str, options: &ParsingOptions) -> (r: Vec<OutputActionSegment>)
        requires
            old(self).wf(),
            old(self).stashed_size + content.spec_bytes().len() <= usize::MAX,
        ensures
            final(self).wf(),
            all_nonempty(r@),
            total_len(r@) + final(self).stashed_size == old(self).stashed_size + content.spec_bytes().len(),
            (final(self).view_state(), r@) == state_feed(old(self).view_state(), content.spec_bytes(), *options),
    {
        let bytes = content.as_bytes();
        let n = bytes.len();
        let mut out: Vec<OutputActionSegment> = Vec::new();
        let mut k: usize = 0;
        while k < n
            invariant
                n == bytes@.len(),
                bytes@ == content.spec_bytes(),
                k <= n,
                self.wf(),
                all_nonempty(out@),
                total_len(out@) + self.stashed_size == old(self).stashed_size + k,
                old(self).stashed_size + n <= usize::MAX,
                (self.view_state(), out@) == feed_bytes(old(self).view_state(), bytes@.take(k as int), *options),
            decreases n - k,
        {
            let byte = bytes[k];
            let ghost v0 = self.view_state();
            let ghost out0 = out@;
            proof {
                assert(bytes@.take(k + 1).drop_last() =~= bytes@.take(k as int));
                assert(bytes@.take(k + 1).last() == byte);
            }
            self.stashed_size = self.stashed_size + 1;
            let mut pending: Vec<MatchBranch> = Vec::new();
            std::mem::swap(&mut pending, &mut self.match_branches);
            let ghost allv = branch_views(pending@);
            assert(allv == v0.branches);
            assert(branch_views(self.match_branches@) =~= stepped(allv.take(0), byte));
            assert(branch_views(pending@) =~= allv.skip(0));
            let mut matched: Option<(usize, Stage, OutputAction)> = None;
            while pending.len() > 0 && matched.is_none()
                invariant
                    branches_wf(self.match_branches@, self.stashed_size as nat),
                    branches_wf(pending@, (self.stashed_size - 1) as nat),
                    self.stashed_size >= 1,
                    self.stashed_size <= usize::MAX,
                    matched matches Some((m, _, _)) ==> m <= self.stashed_size,
                    total_len(out@) + self.stashed_size == old(self).stashed_size + k + 1,
                    all_nonempty(out@),
                    out@ == out0,
                    self.stage == v0.stage,
                    self.action_on_unmatched == v0.unmatched,
                    self.stashed_size == v0.stashed + 1,
                    pending@.len() <= allv.len(),
                    branch_views(pending@) == allv.skip(allv.len() - pending@.len()),
                    matched is None ==> branch_views(self.match_branches@) == stepped(
                        allv.take(allv.len() - pending@.len()),
                        byte,
                    ),
                    matched is None ==> first_hit(allv.take(allv.len() - pending@.len()), byte) is None,
                    matched matches Some((ml, ns, act)) ==> {
                        &&& first_hit(allv, byte) == Some(allv.len() - pending@.len() - 1)
                        &&& ml == match_len(match_step(allv[allv.len() - pending@.len() - 1].pattern, byte).0)
                        &&& ns == allv[allv.len() - pending@.len() - 1].next_stage
                        &&& act == allv[allv.len() - pending@.len() - 1].action
                    },
                decreases pending@.len(),
            {
                let ghost before_remove = pending@;
                let ghost p = allv.len() - pending@.len();
                let mut branch = pending.remove(0);
                assert(branch == before_remove[0]);
                assert(branch_view(branch) == allv[p]) by {
                    assert(branch_views(before_remove)[0] == allv.skip(p)[0]);
                }
                assert(branch_views(pending@) =~= allv.skip(p + 1)) by {
                    assert forall|q: int| 0 <= q < pending@.len() implies #[trigger] branch_views(pending@)[q]
                        == allv.skip(p + 1)[q] by {
                        assert(pending@[q] == before_remove[q + 1]);
                        assert(branch_views(before_remove)[q + 1] == allv.skip(p)[q + 1]);
                    }
                }
                assert(branches_wf(pending@, (self.stashed_size - 1) as nat)) by {
                    assert forall|i: int| 0 <= i < pending@.len() implies (#[trigger] pending@[i]).state.wf()
                        && pending@[i].state.matching_len_spec() <= (self.stashed_size - 1) as nat by {
                        assert(pending@[i] == before_remove[i + 1]);
                    }
                }
                let hit = branch.state.feed(byte);
                let len = branch.state.matching_len();
                let info = (len, branch.next_stage, branch.action_on_matched);
                let ghost before = self.match_branches@;
                self.match_branches.push(branch);
                assert(branches_wf(self.match_branches@, self.stashed_size as nat)) by {
                    assert forall|i: int| 0 <= i < self.match_branches@.len() implies (
                    #[trigger] self.match_branches@[i]).state.wf()
                        && self.match_branches@[i].state.matching_len_spec() <= self.stashed_size as nat by {
                        if i < before.len() {
                            assert(self.match_branches@[i] == before[i]);
                        }
                    }
                }
                proof {
                    assert(allv.take(p + 1).drop_last() =~= allv.take(p));
                    assert(allv.take(p + 1).last() == allv[p]);
                    if matched is None {
                        assert(branch_views(self.match_branches@) =~= stepped(allv.take(p + 1), byte)) by {
                            assert(branch_views(self.match_branches@) =~= branch_views(before).push(
                                branch_view(branch),
                            ));
                        }
                        if hit {
                            assert(first_hit(allv.take(p + 1), byte) == Some(p));
                            lemma_first_hit_prefix(allv, byte, p + 1);
                        }
                    }
                }
                proof {
                    assert(branch.state.matching_len_spec() == match_len(branch.state.view_match()));
                    assert(info.0 == match_len(match_step(allv[p].pattern, byte).0));
                    assert(info.1 == allv[p].next_stage);
                    assert(info.2 == allv[p].action);
                }
                if hit {
                    matched = Some(info);
                }
            }
            match matched {
                Some((matching_len, next_stage, action_on_matched)) => {
                    emit(&mut out, self.action_on_unmatched, self.stashed_size - matching_len);
                    emit(&mut out, action_on_matched, matching_len);
                    *self = State::new(next_stage, options);
                    assert(out@ =~= out0 + byte_step(v0, byte, *options).1);
                },
                None => {
                    proof {
                        assert(allv.take(allv.len() as int) =~= allv);
                    }
                },
            }
            k += 1;
        }
        let ghost v1 = self.view_state();
        let ghost out1 = out@;
        assert(bytes@.take(n as int) =~= bytes@);
        let mut max_len: usize = 0;
        let mut j: usize = 0;
        while j < self.match_branches.len()
            invariant
                j <= self.match_branches@.len(),
                branches_wf(self.match_branches@, self.stashed_size as nat),
                max_len <= self.stashed_size,
                forall|t: int| 0 <= t < j ==> (#[trigger] self.match_branches@[t]).state.matching_len_spec() <= max_len,
                max_len == max_match_len(branch_views(self.match_branches@).take(j as int)),
            decreases self.match_branches@.len() - j,
        {
            let len = self.match_branches[j].state.matching_len();
            proof {
                let bv = branch_views(self.match_branches@);
                assert(bv.take(j + 1).drop_last() =~= bv.take(j as int));
                assert(bv.take(j + 1).last() == bv[j as int]);
                assert(match_len(bv[j as int].pattern) == self.match_branches@[j as int].state.matching_len_spec());
            }
            if len > max_len {
                max_len = len;
            }
            j += 1;
        }
        assert(branch_views(self.match_branches@).take(j as int) =~= branch_views(self.match_branches@));
        if max_len < self.stashed_size {
            emit(&mut out, self.action_on_unmatched, self.stashed_size - max_len);
            self.stashed_size = max_len;
        }
        out
    }

    /// Emits the bytes held back when the source ends.
    fn finish(self) -> (r: (Stage, Vec<OutputActionSegment>))
        ensures
            all_nonempty(r.1@),
            total_len(r.1@) == self.stashed_size,
            r.0 == self.stage,
            r.1@ == emit_seg(self.action_on_unmatched, self.stashed_size as int),
    {
        let mut out: Vec<OutputActionSegment> = Vec::new();
        emit(&mut out, self.action_on_unmatched, self.stashed_size);
        (self.stage, out)
    }
}

/// The strings of `strings` that are not empty, in order.
pub open spec fn non_empty_strings(strings: Seq<String>) -> Seq<String>
    decreases strings.len(),
{
    if strings.len() == 0 {
        Seq::empty()
    } else if strings.last()@.len() > 0 {
        non_empty_strings(strings.drop_last()).push(strings.last())
    } else {
        non_empty_strings(strings.drop_last())
    }
}

/// The stage parsing begins in: inside the tool-call block when the prompt
/// opens it, else at the configured reasoning stage, else in the answer
/// with leading newlines dropped.
pub open spec fn initial_stage(options: ParsingOptions) -> Stage {
    if options.tool_call_initial_stage {
        Stage::ToolCalls
    } else {
        match options.reasoning_initial_stage {
            Some(ReasoningStage::Start) => Stage::Reasoning { is_leading: true },
            Some(ReasoningStage::Reasoning) => Stage::Reasoning { is_leading: false },
            Some(ReasoningStage::Content) => Stage::Common { is_leading: false },
            None => Stage::Common { is_leading: true },
        }
    }
}

/// An incremental parser whose output segments refer to input byte lengths.
pub struct StateMachine {
    options: ParsingOptions,
    state: State,
}

impl StateMachine {
    /// The number of input bytes held back for a possible marker.
    pub closed spec fn pending(self) -> nat {
        self.state.stashed_size as nat
    }

    /// The parser is in a consistent state.
    pub closed spec fn wf(self) -> bool {
        self.state.wf()
    }

    /// The options the parser works with.
    pub closed spec fn options_spec(self) -> ParsingOptions {
        self.options
    }

    /// The stage the parser is in.
    pub closed spec fn stage_spec(self) -> Stage {
        self.state.stage
    }

    /// The parser's state: its stage, its branches, the action on unmatched
    /// bytes and the bytes held back.
    pub closed spec fn state_view(self) -> StateView {
        self.state.view_state()
    }

    /// Create a parser; empty stop sequences are discarded.
    pub fn new(options: ParsingOptions) -> (r: StateMachine)
        ensures
            r.wf(),
            r.pending() == 0,
            r.options_spec().parse_tool_calls == options.parse_tool_calls,
            r.options_spec().tool_call_initial_stage == options.tool_call_initial_stage,
            r.options_spec().parse_json_output == options.parse_json_output,
            r.options_spec().reasoning_initial_stage == options.reasoning_initial_stage,
            r.options_spec().stop_sequences@ == non_empty_strings(options.stop_sequences@),
            r.stage_spec() == initial_stage(options),
            r.state_view() == new_state_view(initial_stage(options), r.options_spec()),
    {
        let ghost given = options;
        let mut options = options;
        let mut kept: Vec<String> = Vec::new();
        let mut i: usize = 0;
        while i < options.stop_sequences.len()
            invariant
                options == given,
                i <= options.stop_sequences@.len(),
                kept@ == non_empty_strings(options.stop_sequences@.take(i as int)),
            decreases options.stop_sequences@.len() - i,
        {
            assert(options.stop_sequences@.take(i + 1).drop_last() =~= options.stop_sequences@.take(i as int));
            if !options.stop_sequences[i].as_str().is_empty() {
                kept.push(options.stop_sequences[i].clone());
            }
            i += 1;
        }
        assert(options.stop_sequences@.take(i as int) =~= options.stop_sequences@);
        options.stop_sequences = kept;
        let stage = if options.tool_call_initial_stage {
            Stage::ToolCalls
        } else {
            match options.reasoning_initial_stage {
                Some(ReasoningStage::Start) => Stage::Reasoning { is_leading: true },
                Some(ReasoningStage::Reasoning) => Stage::Reasoning { is_leading: false },
                Some(ReasoningStage::Content) => Stage::Common { is_leading: false },
                None => Stage::Common { is_leading: true },
            }
        };
        let state = State::new(stage, &options);
        StateMachine { options, state }
    }

    /// Parse the next source chunk, retaining incomplete markers for later
    /// input. The returned segments and the bytes held back together account
    /// for every byte fed.
    pub fn feed(&mut self, content: &str) -> (r: Vec<OutputActionSegment>)
        requires
            old(self).wf(),
            old(self).pending() + content.spec_bytes().len() <= usize::MAX,
        ensures
            final(self).wf(),
            all_nonempty(r@),
            total_len(r@) + final(self).pending() == old(self).pending() + content.spec_bytes().len(),
            final(self).options_spec() == old(self).options_spec(),
            (final(self).state_view(), r@) == state_feed(old(self).state_view(), content.spec_bytes(), old(self).options_spec()),
    {
        self.state.feed(content, &self.options)
    }

    /// Process buffered input when the source ends: the segments cover the
    /// bytes held back.
    pub fn finish(self) -> (r: Vec<OutputActionSegment>)
        requires
            self.wf(),
        ensures
            all_nonempty(r@),
            total_len(r@) == self.pending(),
            r@ == emit_seg(self.state_view().unmatched, self.state_view().stashed as int),
            r@.len() <= 1,
    {
        self.state.finish().1
    }
}

/// Two actions are the same: same variant and fields, labels compared by
/// their text.
pub open spec fn same_action(a: OutputAction, b: OutputAction) -> bool {
    match (a, b) {
        (OutputAction::Raw, OutputAction::Raw) => true,
        (OutputAction::ToSpace, OutputAction::ToSpace) => true,
        (OutputAction::SkipInvalid { kind: x }, OutputAction::SkipInvalid { kind: y }) => x == y,
        (OutputAction::Skip, OutputAction::Skip) => true,
        (OutputAction::StopSequence, OutputAction::StopSequence) => true,
        (OutputAction::ToolCallBegin, OutputAction::ToolCallBegin) => true,
        (OutputAction::ToolName, OutputAction::ToolName) => true,
        (OutputAction::ToolNameEnd, OutputAction::ToolNameEnd) => true,
        (
            OutputAction::LabelToolCallArguments { label: l1, id: i1 },
            OutputAction::LabelToolCallArguments { label: l2, id: i2 },
        ) => l1@ == l2@ && i1 == i2,
        (OutputAction::RawToolCallArguments { string: x }, OutputAction::RawToolCallArguments { string: y }) => x
            == y,
        (OutputAction::ToolCallArgumentsEnd { output: x }, OutputAction::ToolCallArgumentsEnd { output: y }) => match (
            x,
            y,
        ) {
            (Some(p), Some(q)) => p@ == q@,
            (None, None) => true,
            _ => false,
        },
        (OutputAction::Reasoning, OutputAction::Reasoning) => true,
        (OutputAction::Label(x), OutputAction::Label(y)) => x@ == y@,
        _ => false,
    }
}

/// Returns whether two actions are the same.
pub fn action_eq(a: &OutputAction, b: &OutputAction) -> (r: bool)
    ensures
        r == same_action(*a, *b),
{
    match (a, b) {
        (OutputAction::Raw, OutputAction::Raw) => true,
        (OutputAction::ToSpace, OutputAction::ToSpace) => true,
        (OutputAction::SkipInvalid { kind: x }, OutputAction::SkipInvalid { kind: y }) => *x == *y,
        (OutputAction::Skip, OutputAction::Skip) => true,
        (OutputAction::StopSequence, OutputAction::StopSequence) => true,
        (OutputAction::ToolCallBegin, OutputAction::ToolCallBegin) => true,
        (OutputAction::ToolName, OutputAction::ToolName) => true,
        (OutputAction::ToolNameEnd, OutputAction::ToolNameEnd) => true,
        (
            OutputAction::LabelToolCallArguments { label: l1, id: i1 },
            OutputAction::LabelToolCallArguments { label: l2, id: i2 },
        ) => *i1 == *i2 && crate::text::str_eq(l1, l2),
        (OutputAction::RawToolCallArguments { string: x }, OutputAction::RawToolCallArguments { string: y }) => *x
            == *y,
        (OutputAction::ToolCallArgumentsEnd { output: x }, OutputAction::ToolCallArgumentsEnd { output: y }) => match (
            x,
            y,
        ) {
            (Some(p), Some(q)) => crate::text::str_eq(p, q),
            (None, None) => true,
            _ => false,
        },
        (OutputAction::Reasoning, OutputAction::Reasoning) => true,
        (OutputAction::Label(x), OutputAction::Label(y)) => crate::text::str_eq(x, y),
        _ => false,
    }
}

/// Feeding chunks to a new parser and finishing it covers every byte fed:
/// when each feed emits `emitted[i]` bytes and holds back `pending[i + 1]`
/// of `pending[i] + fed[i]`, and finishing emits what was held back, the
/// bytes emitted in all add up to the bytes fed.
pub proof fn lemma_segments_cover_input(fed: Seq<nat>, emitted: Seq<nat>, pending: Seq<nat>, finished: nat)
    requires
        pending.len() == fed.len() + 1,
        emitted.len() == fed.len(),
        pending[0] == 0,
        forall|i: int| 0 <= i < fed.len() ==> #[trigger] emitted[i] + pending[i + 1] == pending[i] + fed[i],
        finished == pending[fed.len() as int],
    ensures
        sum_nat(emitted) + finished == sum_nat(fed),
    decreases fed.len(),
{
    if fed.len() > 0 {
        let n = fed.len() - 1;
        lemma_segments_cover_input(fed.drop_last(), emitted.drop_last(), pending.drop_last(), pending[n]);
        assert(fed.drop_last().len() == n);
        assert(emitted[n] + pending[n + 1] == pending[n] + fed[n]);
    }
}

/// The sum of `s`.
pub open spec fn sum_nat(s: Seq<nat>) -> nat
    decreases s.len(),
{
    if s.len() == 0 {
        0
    } else {
        sum_nat(s.drop_last()) + s.last()
    }
}


// ---------------------------------------------------------------------------
// Chunking does not matter

/// `n` bytes of the action `a`.
pub open spec fn repeat_action(a: OutputAction, n: nat) -> Seq<OutputAction> {
    Seq::new(n, |i: int| a)
}

/// The action of each byte the segments cover, in order.
pub open spec fn expand(segments: Seq<OutputActionSegment>) -> Seq<OutputAction>
    decreases segments.len(),
{
    if segments.len() == 0 {
        Seq::empty()
    } else {
        expand(segments.drop_last()) + repeat_action(segments.last().action, segments.last().len as nat)
    }
}

/// The action of every byte fed: those of the segments returned, then the
/// held bytes with the unmatched action, as finishing gives them.
pub open spec fn settled(v: StateView, out: Seq<OutputActionSegment>) -> Seq<OutputAction> {
    expand(out) + repeat_action(v.unmatched, v.stashed)
}

/// No branch holds back more bytes than the state holds.
pub open spec fn holds_enough(v: StateView) -> bool {
    max_match_len(v.branches) <= v.stashed
}

proof fn lemma_expand_concat(a: Seq<OutputActionSegment>, b: Seq<OutputActionSegment>)
    ensures
        expand(a + b) == expand(a) + expand(b),
    decreases b.len(),
{
    if b.len() == 0 {
        assert(a + b =~= a);
        assert(expand(a) + expand(b) =~= expand(a));
    } else {
        assert((a + b).drop_last() =~= a + b.drop_last());
        assert((a + b).last() == b.last());
        lemma_expand_concat(a, b.drop_last());
        assert(expand(a) + expand(b.drop_last()) + repeat_action(b.last().action, b.last().len as nat) =~= expand(a)
            + (expand(b.drop_last()) + repeat_action(b.last().action, b.last().len as nat)));
    }
}

proof fn lemma_expand_emit(a: OutputAction, n: int)
    requires
        0 <= n <= usize::MAX,
    ensures
        expand(emit_seg(a, n)) == repeat_action(a, n as nat),
{
    if n > 0 {
        let e = emit_seg(a, n);
        assert(e.drop_last() =~= Seq::<OutputActionSegment>::empty());
        assert(expand(e.drop_last()) == Seq::<OutputAction>::empty());
        assert(e.last().len as nat == n);
        assert(e.last().action == a);
        assert(Seq::<OutputAction>::empty() + repeat_action(a, n as nat) =~= repeat_action(a, n as nat));
    } else {
        assert(emit_seg(a, n) =~= Seq::<OutputActionSegment>::empty());
        assert(expand(emit_seg(a, n)) == Seq::<OutputAction>::empty());
        assert(repeat_action(a, 0) =~= Seq::<OutputAction>::empty());
    }
}

proof fn lemma_step_len(m: MatchView, byte: u8)
    ensures
        match_len(match_step(m, byte).0) <= match_len(m) + 1,
{
    match m {
        MatchView::String { s, len } => {
            let t = s.take(len as int).push(byte);
            if len <= s.len() {
                lemma_overlap_from(s, t, if s.len() < t.len() { s.len() as int } else { t.len() as int });
            } else {
                lemma_overlap_from(s, t, if s.len() < t.len() { s.len() as int } else { t.len() as int });
            }
        },
        MatchView::NewlinesAndString { s, len, newlines } => {
            let t = s.take(len as int).push(byte);
            lemma_overlap_from(s, t, if s.len() < t.len() { s.len() as int } else { t.len() as int });
        },
        MatchView::LeadingNewline { .. } => {},
    }
}

proof fn lemma_stepped_max(bs: Seq<BranchView>, byte: u8)
    ensures
        max_match_len(stepped(bs, byte)) <= max_match_len(bs) + 1,
    decreases bs.len(),
{
    if bs.len() > 0 {
        lemma_stepped_max(bs.drop_last(), byte);
        assert(stepped(bs, byte).drop_last() =~= stepped(bs.drop_last(), byte));
        lemma_step_len(bs.last().pattern, byte);
    }
}

proof fn lemma_max_bound(bs: Seq<BranchView>, i: int)
    requires
        0 <= i < bs.len(),
    ensures
        match_len(bs[i].pattern) <= max_match_len(bs),
    decreases bs.len(),
{
    if i < bs.len() - 1 {
        lemma_max_bound(bs.drop_last(), i);
    }
}

proof fn lemma_max_zero(bs: Seq<BranchView>)
    requires
        forall|i: int| 0 <= i < bs.len() ==> match_len(#[trigger] bs[i].pattern) == 0,
    ensures
        max_match_len(bs) == 0,
    decreases bs.len(),
{
    if bs.len() > 0 {
        lemma_max_zero(bs.drop_last());
    }
}

/// A stage begins with nothing held by any branch.
proof fn lemma_fresh_holds(stage: Stage, options: ParsingOptions)
    ensures
        holds_enough(new_state_view(stage, options)),
{
    let bs = new_state_view(stage, options).branches;
    assert forall|i: int| 0 <= i < bs.len() implies match_len(#[trigger] bs[i].pattern) == 0 by {}
    lemma_max_zero(bs);
}

proof fn lemma_hit_bound(bs: Seq<BranchView>, byte: u8)
    ensures
        first_hit(bs, byte) matches Some(i) ==> 0 <= i < bs.len(),
    decreases bs.len(),
{
    if bs.len() > 0 {
        lemma_hit_bound(bs.drop_last(), byte);
        if let Some(i) = first_hit(bs.drop_last(), byte) {
            assert(bs.drop_last()[i] == bs[i]);
        }
    }
}

/// Held bytes that take the unmatched action and bytes still held agree:
/// `k` bytes of it after `o` are the start of `o`, `s` bytes of it and one
/// more.
proof fn lemma_repeat_take(o: Seq<OutputAction>, u: OutputAction, s: nat, k: int)
    requires
        0 <= k <= s + 1,
    ensures
        o + repeat_action(u, k as nat) == (o + repeat_action(u, s) + seq![u]).take(o.len() + k),
{
    assert(o + repeat_action(u, k as nat) =~= (o + repeat_action(u, s) + seq![u]).take(o.len() + k));
}

/// Two states alike but for the bytes they hold, whose outputs so far
/// settle the same actions.
pub open spec fn alike(x: StateView, ox: Seq<OutputActionSegment>, y: StateView, oy: Seq<OutputActionSegment>) -> bool {
    &&& x.stage == y.stage
    &&& x.branches == y.branches
    &&& x.unmatched == y.unmatched
    &&& holds_enough(x)
    &&& holds_enough(y)
    &&& settled(x, ox) == settled(y, oy)
}

proof fn lemma_step_alike(
    x: StateView,
    ox: Seq<OutputActionSegment>,
    y: StateView,
    oy: Seq<OutputActionSegment>,
    byte: u8,
    options: ParsingOptions,
)
    requires
        alike(x, ox, y, oy),
        x.stashed < usize::MAX,
        y.stashed < usize::MAX,
    ensures
        alike(byte_step(x, byte, options).0, ox + byte_step(x, byte, options).1, byte_step(y, byte, options).0, oy
            + byte_step(y, byte, options).1),
{
    let u = x.unmatched;
    let t = settled(x, ox);
    lemma_stepped_max(x.branches, byte);
    lemma_hit_bound(x.branches, byte);
    match first_hit(x.branches, byte) {
        Some(i) => {
            let b = x.branches[i];
            let ml = match_len(match_step(b.pattern, byte).0);
            lemma_step_len(b.pattern, byte);
            lemma_max_bound(x.branches, i);
            lemma_fresh_holds(b.next_stage, options);
            lemma_expand_concat(ox, emit_seg(u, x.stashed + 1 - ml) + emit_seg(b.action, ml as int));
            lemma_expand_concat(emit_seg(u, x.stashed + 1 - ml), emit_seg(b.action, ml as int));
            lemma_expand_concat(oy, emit_seg(u, y.stashed + 1 - ml) + emit_seg(b.action, ml as int));
            lemma_expand_concat(emit_seg(u, y.stashed + 1 - ml), emit_seg(b.action, ml as int));
            lemma_expand_emit(u, x.stashed + 1 - ml);
            lemma_expand_emit(u, y.stashed + 1 - ml);
            lemma_expand_emit(b.action, ml as int);
            lemma_repeat_take(expand(ox), u, x.stashed, x.stashed + 1 - ml);
            lemma_repeat_take(expand(oy), u, y.stashed, y.stashed + 1 - ml);
            let nv = new_state_view(b.next_stage, options);
            assert(repeat_action(nv.unmatched, 0) =~= Seq::<OutputAction>::empty());
            assert(expand(ox) + repeat_action(u, (x.stashed + 1 - ml) as nat) == expand(oy) + repeat_action(
                u,
                (y.stashed + 1 - ml) as nat,
            ));
            let ex = expand(ox) + (repeat_action(u, (x.stashed + 1 - ml) as nat) + repeat_action(b.action, ml));
            let ey = expand(oy) + (repeat_action(u, (y.stashed + 1 - ml) as nat) + repeat_action(b.action, ml));
            assert(ex =~= expand(ox) + repeat_action(u, (x.stashed + 1 - ml) as nat) + repeat_action(b.action, ml));
            assert(ey =~= expand(oy) + repeat_action(u, (y.stashed + 1 - ml) as nat) + repeat_action(b.action, ml));
            assert(ex + repeat_action(nv.unmatched, 0) =~= ex);
            assert(ey + repeat_action(nv.unmatched, 0) =~= ey);
        },
        None => {
            lemma_expand_concat(ox, Seq::empty());
            lemma_expand_concat(oy, Seq::empty());
            assert(ox + Seq::<OutputActionSegment>::empty() =~= ox);
            assert(oy + Seq::<OutputActionSegment>::empty() =~= oy);
            assert(repeat_action(u, x.stashed + 1) =~= repeat_action(u, x.stashed).push(u));
            assert(repeat_action(u, y.stashed + 1) =~= repeat_action(u, y.stashed).push(u));
            assert(expand(ox) + repeat_action(u, x.stashed).push(u) =~= settled(x, ox).push(u));
            assert(expand(oy) + repeat_action(u, y.stashed).push(u) =~= settled(y, oy).push(u));
        },
    }
}


proof fn lemma_feed_alike(
    x: StateView,
    ox: Seq<OutputActionSegment>,
    y: StateView,
    oy: Seq<OutputActionSegment>,
    bytes: Seq<u8>,
    options: ParsingOptions,
)
    requires
        alike(x, ox, y, oy),
        x.stashed + bytes.len() <= usize::MAX,
        y.stashed + bytes.len() <= usize::MAX,
    ensures
        alike(feed_bytes(x, bytes, options).0, ox + feed_bytes(x, bytes, options).1, feed_bytes(y, bytes, options).0, oy
            + feed_bytes(y, bytes, options).1),
        feed_bytes(x, bytes, options).0.stashed <= x.stashed + bytes.len(),
        feed_bytes(y, bytes, options).0.stashed <= y.stashed + bytes.len(),
    decreases bytes.len(),
{
    if bytes.len() == 0 {
        assert(ox + Seq::<OutputActionSegment>::empty() =~= ox);
        assert(oy + Seq::<OutputActionSegment>::empty() =~= oy);
    } else {
        let rest = bytes.drop_last();
        lemma_feed_alike(x, ox, y, oy, rest, options);
        let (x1, o1) = feed_bytes(x, rest, options);
        let (y1, p1) = feed_bytes(y, rest, options);
        lemma_step_alike(x1, ox + o1, y1, oy + p1, bytes.last(), options);
        let (x2, o2) = byte_step(x1, bytes.last(), options);
        let (y2, p2) = byte_step(y1, bytes.last(), options);
        assert(ox + o1 + o2 =~= ox + (o1 + o2));
        assert(oy + p1 + p2 =~= oy + (p1 + p2));
    }
}

proof fn lemma_release_alike(v: StateView, o: Seq<OutputActionSegment>)
    requires
        holds_enough(v),
        v.stashed <= usize::MAX,
    ensures
        alike(v, o, release(v).0, o + release(v).1),
        release(v).0.stashed <= v.stashed,
{
    let m = max_match_len(v.branches);
    if m < v.stashed {
        lemma_expand_concat(o, emit_seg(v.unmatched, v.stashed - m));
        lemma_expand_emit(v.unmatched, v.stashed - m);
        assert(repeat_action(v.unmatched, (v.stashed - m) as nat) + repeat_action(v.unmatched, m) =~= repeat_action(
            v.unmatched,
            v.stashed,
        ));
        assert(expand(o) + repeat_action(v.unmatched, (v.stashed - m) as nat) + repeat_action(v.unmatched, m) =~= expand(
            o,
        ) + (repeat_action(v.unmatched, (v.stashed - m) as nat) + repeat_action(v.unmatched, m)));
    } else {
        assert(o + Seq::<OutputActionSegment>::empty() =~= o);
    }
}

proof fn lemma_feed_concat(v: StateView, a: Seq<u8>, b: Seq<u8>, options: ParsingOptions)
    ensures
        feed_bytes(v, a + b, options) == (
            feed_bytes(feed_bytes(v, a, options).0, b, options).0,
            feed_bytes(v, a, options).1 + feed_bytes(feed_bytes(v, a, options).0, b, options).1,
        ),
    decreases b.len(),
{
    if b.len() == 0 {
        assert(a + b =~= a);
        assert(feed_bytes(v, a, options).1 + Seq::<OutputActionSegment>::empty() =~= feed_bytes(v, a, options).1);
    } else {
        lemma_feed_concat(v, a, b.drop_last(), options);
        assert((a + b).drop_last() =~= a + b.drop_last());
        assert((a + b).last() == b.last());
        let w = feed_bytes(v, a, options);
        let r = feed_bytes(w.0, b.drop_last(), options);
        let st = byte_step(r.0, b.last(), options);
        assert(w.1 + r.1 + st.1 =~= w.1 + (r.1 + st.1));
    }
}

/// How the output is split into chunks does not change what becomes of its
/// bytes: feeding `a` and then `b` gives every byte the action that feeding
/// them together gives, the bytes still held taking the unmatched action as
/// finishing gives them.
pub proof fn lemma_chunking_irrelevant(v: StateView, a: Seq<u8>, b: Seq<u8>, options: ParsingOptions)
    requires
        holds_enough(v),
        v.stashed + a.len() + b.len() <= usize::MAX,
    ensures
        settled(
            state_feed(state_feed(v, a, options).0, b, options).0,
            state_feed(v, a, options).1 + state_feed(state_feed(v, a, options).0, b, options).1,
        ) == settled(state_feed(v, a + b, options).0, state_feed(v, a + b, options).1),
{
    let e: Seq<OutputActionSegment> = Seq::empty();
    assert(alike(v, e, v, e));
    lemma_feed_alike(v, e, v, e, a, options);
    let (f1, p1) = feed_bytes(v, a, options);
    assert(e + p1 =~= p1);
    lemma_release_alike(f1, p1);
    let (r1, q1) = release(f1);
    lemma_feed_alike(f1, p1, r1, p1 + q1, b, options);
    let (g1, fb1) = feed_bytes(f1, b, options);
    let (g2, fb2) = feed_bytes(r1, b, options);
    lemma_release_alike(g2, p1 + q1 + fb2);
    let (h2, rq2) = release(g2);
    lemma_feed_concat(v, a, b, options);
    lemma_release_alike(g1, p1 + fb1);
    let (h1, rq1) = release(g1);
    assert(p1 + q1 + (fb2 + rq2) =~= p1 + q1 + fb2 + rq2);
    assert(p1 + fb1 + rq1 =~= (p1 + fb1) + rq1);
}

/// The state of a consistent parser holds at least what its branches hold.
pub proof fn lemma_parser_holds_enough(sm: StateMachine)
    requires
        sm.wf(),
    ensures
        holds_enough(sm.state_view()),
{
    let bs = sm.state.match_branches@;
    let vs = branch_views(bs);
    assert forall|i: int| 0 <= i < vs.len() implies match_len(#[trigger] vs[i].pattern) <= sm.state.stashed_size by {
        assert(bs[i].state.wf());
    }
    lemma_max_le(vs, sm.state.stashed_size as nat);
}

proof fn lemma_max_le(bs: Seq<BranchView>, k: nat)
    requires
        forall|i: int| 0 <= i < bs.len() ==> match_len(#[trigger] bs[i].pattern) <= k,
    ensures
        max_match_len(bs) <= k,
    decreases bs.len(),
{
    if bs.len() > 0 {
        lemma_max_le(bs.drop_last(), k);
        assert(match_len(bs[bs.len() - 1].pattern) <= k);
    }
}


// ---------------------------------------------------------------------------
// Tool-call parameters

/// The action emits the quote that opens or closes a string value.
pub open spec fn quote_label(a: OutputAction) -> bool {
    a matches OutputAction::LabelToolCallArguments { label, .. } && label@ == "\""@
}

/// The branch matches `false">` and opens a value that is not a string,
/// emitting no label.
pub open spec fn plain_value_branch(b: BranchView) -> bool {
    &&& b.pattern == MatchView::String { s: label_bytes("false\">"), len: 0 }
    &&& b.next_stage == Stage::ToolCallParamValue { string: false }
    &&& !(b.action is LabelToolCallArguments)
}

/// A branch that opens a value stage emits the opening quote exactly when
/// the value is a string.
pub open spec fn value_opening(b: BranchView) -> bool {
    b.next_stage matches Stage::ToolCallParamValue { string } ==> (string <==> quote_label(b.action))
}

/// A parameter marked `string="false"` passes its value through as JSON:
/// in the parameter-type stage the branch that matches `false">` opens a
/// value stage that is not a string and emits no label, so no quote comes
/// before the value; that stage writes its bytes raw, as not a string, and
/// its closing marker emits no label, so no quote comes after. Only a value
/// stage that is a string is opened with the quote label, and only it
/// closes with one.
pub proof fn lemma_parameter_kinds(options: ParsingOptions)
    ensures
        (exists|i: int|
            0 <= i < new_state_view(Stage::ToolCallParamType, options).branches.len() && plain_value_branch(
                #[trigger] new_state_view(Stage::ToolCallParamType, options).branches[i],
            )),
        (forall|i: int|
            0 <= i < new_state_view(Stage::ToolCallParamType, options).branches.len() ==> value_opening(
                #[trigger] new_state_view(Stage::ToolCallParamType, options).branches[i],
            )),
        new_state_view(Stage::ToolCallParamValue { string: false }, options).unmatched
            == (OutputAction::RawToolCallArguments { string: false }),
        (forall|i: int|
            0 <= i < new_state_view(Stage::ToolCallParamValue { string: false }, options).branches.len() ==> !(
            #[trigger] new_state_view(Stage::ToolCallParamValue { string: false }, options).branches[i].action is LabelToolCallArguments)),
        new_state_view(Stage::ToolCallParamValue { string: true }, options).unmatched
            == (OutputAction::RawToolCallArguments { string: true }),
        (forall|i: int|
            0 <= i < new_state_view(Stage::ToolCallParamValue { string: true }, options).branches.len() ==> quote_label(
                #[trigger] new_state_view(Stage::ToolCallParamValue { string: true }, options).branches[i].action,
            )),
{
    let bs = new_state_view(Stage::ToolCallParamType, options).branches;
    assert(plain_value_branch(bs[1]));
}


// ---------------------------------------------------------------------------
// The markers of each stage

/// Some branch of `bs` matches `pattern`, then begins `next` and gives the
/// matched bytes `action`.
pub open spec fn has_branch(bs: Seq<BranchView>, pattern: MatchView, next: Stage, action: OutputAction) -> bool {
    exists|i: int| 0 <= i < bs.len() && #[trigger] bs[i] == BranchView { pattern, next_stage: next, action }
}

/// What each stage looks for: reasoning ends at `</think>` (after any
/// newlines), which is skipped and starts the answer; the answer writes its
/// bytes as they are (without JSON output), drops a stray `</think>` as
/// invalid, enters the tool-call block at its marker when tool calls are
/// parsed, and ends at each stop sequence; in the tool-call block an
/// `invoke name="` begins a call whose name runs to the next `"`; and after
/// the finish every byte is invalid content.
pub proof fn lemma_stage_markers(options: ParsingOptions, leading: bool)
    ensures
        has_branch(
            new_state_view(Stage::Reasoning { is_leading: leading }, options).branches,
            MatchView::NewlinesAndString { s: label_bytes(REASONING_END_LABEL), len: 0, newlines: 0 },
            Stage::Common { is_leading: true },
            OutputAction::Skip,
        ),
        new_state_view(Stage::Reasoning { is_leading: leading }, options).unmatched == OutputAction::Reasoning,
        !options.parse_json_output ==> new_state_view(Stage::Common { is_leading: leading }, options).unmatched
            == OutputAction::Raw,
        has_branch(
            new_state_view(Stage::Common { is_leading: leading }, options).branches,
            MatchView::String { s: label_bytes(REASONING_END_LABEL), len: 0 },
            Stage::Common { is_leading: false },
            OutputAction::SkipInvalid { kind: InvalidTokenKind::ExtraEndOfThinking },
        ),
        options.parse_tool_calls ==> has_branch(
            new_state_view(Stage::Common { is_leading: leading }, options).branches,
            MatchView::NewlinesAndString { s: label_bytes(DSML_BEGIN_LABEL), len: 0, newlines: 0 },
            Stage::ToolCalls,
            OutputAction::Skip,
        ),
        forall|k: int|
            0 <= k < options.stop_sequences@.len() && !options.parse_json_output ==> has_branch(
                new_state_view(Stage::Common { is_leading: leading }, options).branches,
                MatchView::String { s: vstd::utf8::encode_utf8(#[trigger] options.stop_sequences@[k]@), len: 0 },
                Stage::Finished,
                OutputAction::StopSequence,
            ),
        has_branch(
            new_state_view(Stage::ToolCalls, options).branches,
            MatchView::String { s: label_bytes("invoke name=\""), len: 0 },
            Stage::ToolName,
            OutputAction::ToolCallBegin,
        ),
        has_branch(
            new_state_view(Stage::ToolName, options).branches,
            MatchView::String { s: label_bytes("\""), len: 0 },
            Stage::ToolCallArguments { is_leading: true },
            OutputAction::ToolNameEnd,
        ),
        new_state_view(Stage::ToolName, options).unmatched == OutputAction::ToolName,
        new_state_view(Stage::Finished, options).branches.len() == 0,
        new_state_view(Stage::Finished, options).unmatched
            == (OutputAction::SkipInvalid { kind: InvalidTokenKind::ContentAfterFinished }),
{
    let rb = new_state_view(Stage::Reasoning { is_leading: leading }, options).branches;
    assert(rb[rb.len() - 1] == newlines_branch(label_bytes(REASONING_END_LABEL), Stage::Common { is_leading: true }, OutputAction::Skip));
    let cb = new_state_view(Stage::Common { is_leading: leading }, options).branches;
    assert(cb[cb.len() - 1] == string_branch(
        label_bytes(REASONING_END_LABEL),
        Stage::Common { is_leading: false },
        OutputAction::SkipInvalid { kind: InvalidTokenKind::ExtraEndOfThinking },
    ));
    let head = if options.parse_json_output {
        4int
    } else {
        options.stop_sequences@.len() as int
    };
    if options.parse_tool_calls {
        assert(cb[head] == newlines_branch(label_bytes(DSML_BEGIN_LABEL), Stage::ToolCalls, OutputAction::Skip));
    }
    assert forall|k: int|
        0 <= k < options.stop_sequences@.len() && !options.parse_json_output implies has_branch(
            cb,
            MatchView::String { s: vstd::utf8::encode_utf8(#[trigger] options.stop_sequences@[k]@), len: 0 },
            Stage::Finished,
            OutputAction::StopSequence,
        ) by {
        assert(cb[k] == stop_branches(options.stop_sequences@)[k]);
    }
    let tb = new_state_view(Stage::ToolCalls, options).branches;
    assert(tb[0] == string_branch(label_bytes("invoke name=\""), Stage::ToolName, OutputAction::ToolCallBegin));
    let nb = new_state_view(Stage::ToolName, options).branches;
    assert(nb[0] == string_branch(label_bytes("\""), Stage::ToolCallArguments { is_leading: true }, OutputAction::ToolNameEnd));
}

} // verus!
