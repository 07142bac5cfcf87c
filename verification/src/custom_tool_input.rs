//! Decoding the `input` string of a custom tool call from its streamed JSON
//! arguments.

use vstd::prelude::*;

use crate::image::utf8_len;
use crate::text::{append_chars, chars_of, string_of};

verus! {

/// What `serde_json::from_str::<String>` makes of the JSON text `text`: the
/// decoded string, or nothing for text that is not one JSON string.
pub uninterp spec fn json_string_value(text: Seq<char>) -> Option<Seq<char>>;

/// Calls `serde_json::from_str::<String>`; the result is named by
/// [`json_string_value`].
#[verifier::external_body]
fn decode_json_string(text: &str) -> (r: Option<String>)
    ensures
        match r {
            Some(s) => json_string_value(text@) == Some(s@),
            None => json_string_value(text@) is None,
        },
{
    serde_json::from_str::<String>(text).ok()
}

/// The parser's mode.
#[derive(Debug, Clone, Copy, PartialEq, Eq, Structural)]
pub enum ResponsesCustomToolInputParserState {
    /// Matching the `{"input":"` prefix.
    Prefix,
    /// Decoding the string value.
    Value,
    /// The arguments do not start with the prefix: they pass unchanged.
    Passthrough,
    /// The value ended, or parsing was finished.
    Done,
}

/// Part `i` of the prefix `{"input":"`; whitespace may separate parts.
pub open spec fn prefix_part(i: int) -> Seq<char> {
    if i == 0 {
        "{"@
    } else if i == 1 {
        "\"input\""@
    } else if i == 2 {
        ":"@
    } else {
        "\""@
    }
}

/// Whether `c` is ASCII whitespace.
pub open spec fn is_ascii_ws(c: char) -> bool {
    c == ' ' || c == '\t' || c == '\n' || c == '\x0C' || c == '\r'
}

/// Whether `c` is an ASCII hexadecimal digit.
pub open spec fn is_hex(c: char) -> bool {
    ('0' <= c && c <= '9') || ('a' <= c && c <= 'f') || ('A' <= c && c <= 'F')
}

/// The value of an ASCII hexadecimal digit.
pub open spec fn hex_value(c: char) -> int {
    if '0' <= c && c <= '9' {
        c as int - '0' as int
    } else if 'a' <= c && c <= 'f' {
        c as int - 'a' as int + 10
    } else {
        c as int - 'A' as int + 10
    }
}

/// Whether `raw` can still become a `\uXXXX` escape: a prefix of `\u`, or
/// `\u` and hexadecimal digits, in at most six bytes.
pub open spec fn partial_unicode_escape(raw: Seq<char>) -> bool {
    utf8_len(raw) <= 6 && (raw.len() == 0 || raw == seq!['\\'] || raw == seq!['\\', 'u'] || (raw.len() >= 2
        && raw[0] == '\\' && raw[1] == 'u' && forall|i: int| 2 <= i < raw.len() ==> is_hex(#[trigger] raw[i])))
}

/// Whether `raw` is a complete `\uXXXX` escape.
pub open spec fn full_unicode_escape(raw: Seq<char>) -> bool {
    raw.len() == 6 && raw[0] == '\\' && raw[1] == 'u' && is_hex(raw[2]) && is_hex(raw[3]) && is_hex(raw[4]) && is_hex(raw[5])
}

/// Whether a complete `\uXXXX` escape encodes a high surrogate.
pub open spec fn high_surrogate(raw: Seq<char>) -> bool {
    let v = hex_value(raw[2]) * 4096 + hex_value(raw[3]) * 256 + hex_value(raw[4]) * 16 + hex_value(raw[5]);
    0xD800 <= v && v <= 0xDBFF
}

/// Whether an escape sequence needs more characters: a partial `\uXXXX`
/// escape, or a high surrogate escape waiting for its low surrogate.
pub open spec fn incomplete_escape(raw: Seq<char>) -> bool {
    if utf8_len(raw) < 6 {
        partial_unicode_escape(raw)
    } else if raw.len() >= 6 && full_unicode_escape(raw.take(6)) {
        high_surrogate(raw.take(6)) && utf8_len(raw) < 12 && partial_unicode_escape(raw.skip(6))
    } else {
        false
    }
}

/// The value of the parser's state.
pub struct ParserView {
    pub state: ResponsesCustomToolInputParserState,
    pub prefix: Seq<char>,
    pub prefix_part: int,
    pub prefix_offset: int,
    pub escape: Seq<char>,
}

/// The text a finished escape sequence contributes: its JSON decoding, or
/// the raw text where it does not decode.
pub open spec fn decoded_escape(raw: Seq<char>) -> Seq<char> {
    match json_string_value(seq!['"'] + raw + seq!['"']) {
        Some(d) => d,
        None => raw,
    }
}

/// The parser state and output after one character.
pub open spec fn parser_step(p: ParserView, ch: char) -> (ParserView, Seq<char>) {
    match p.state {
        ResponsesCustomToolInputParserState::Prefix => {
            let prefix = p.prefix.push(ch);
            let part = prefix_part(p.prefix_part);
            if 0 <= p.prefix_offset < part.len() && ch == part[p.prefix_offset] {
                if p.prefix_offset + 1 == part.len() {
                    if p.prefix_part + 1 >= 4 {
                        (
                            ParserView {
                                state: ResponsesCustomToolInputParserState::Value,
                                prefix: Seq::empty(),
                                prefix_part: 4,
                                prefix_offset: 0,
                                ..p
                            },
                            Seq::empty(),
                        )
                    } else {
                        (ParserView { prefix, prefix_part: p.prefix_part + 1, prefix_offset: 0, ..p }, Seq::empty())
                    }
                } else {
                    (ParserView { prefix, prefix_offset: p.prefix_offset + 1, ..p }, Seq::empty())
                }
            } else if p.prefix_offset != 0 || !is_ascii_ws(ch) {
                (ParserView { state: ResponsesCustomToolInputParserState::Passthrough, prefix: Seq::empty(), ..p }, prefix)
            } else {
                (ParserView { prefix, ..p }, Seq::empty())
            }
        },
        ResponsesCustomToolInputParserState::Value => if p.escape.len() == 0 {
            if ch == '\\' {
                (ParserView { escape: seq![ch], ..p }, Seq::empty())
            } else if ch == '"' {
                (ParserView { state: ResponsesCustomToolInputParserState::Done, ..p }, Seq::empty())
            } else {
                (p, seq![ch])
            }
        } else if ch == '"' && p.escape.last() != '\\' {
            (ParserView { state: ResponsesCustomToolInputParserState::Done, escape: Seq::empty(), ..p }, p.escape)
        } else {
            let escape = p.escape.push(ch);
            if incomplete_escape(escape) {
                (ParserView { escape, ..p }, Seq::empty())
            } else {
                (ParserView { escape: Seq::empty(), ..p }, decoded_escape(escape))
            }
        },
        ResponsesCustomToolInputParserState::Passthrough => (p, seq![ch]),
        ResponsesCustomToolInputParserState::Done => (p, Seq::empty()),
    }
}

/// The parser state and output after the first `n` characters of `chars`.
pub open spec fn feed_spec(p: ParserView, chars: Seq<char>, n: int) -> (ParserView, Seq<char>)
    decreases n,
{
    if n <= 0 {
        (p, Seq::empty())
    } else {
        let (q, out) = feed_spec(p, chars, n - 1);
        let (r, more) = parser_step(q, chars[n - 1]);
        (r, out + more)
    }
}

/// Decode the leading JSON `input` string, preserving nonmatching
/// arguments. Content after the closing quote is ignored.
#[derive(Debug)]
pub struct ResponsesCustomToolInputParser {
    state: ResponsesCustomToolInputParserState,
    prefix: Vec<char>,
    prefix_part: usize,
    prefix_offset: usize,
    escape: Vec<char>,
}

/// Returns part `i` of the prefix.
fn prefix_part_exec(i: usize) -> (r: &'static str)
    ensures
        r@ == prefix_part(i as int),
{
    if i == 0 {
        "{"
    } else if i == 1 {
        "\"input\""
    } else if i == 2 {
        ":"
    } else {
        "\""
    }
}

/// Returns whether `c` is an ASCII hexadecimal digit.
fn is_hex_exec(c: char) -> (r: bool)
    ensures
        r == is_hex(c),
{
    ('0' <= c && c <= '9') || ('a' <= c && c <= 'f') || ('A' <= c && c <= 'F')
}

/// Returns the value of an ASCII hexadecimal digit.
fn hex_value_exec(c: char) -> (r: u32)
    requires
        is_hex(c),
    ensures
        r == hex_value(c),
        r < 16,
{
    if '0' <= c && c <= '9' {
        (c as u32) - ('0' as u32)
    } else if 'a' <= c && c <= 'f' {
        (c as u32) - ('a' as u32) + 10
    } else {
        (c as u32) - ('A' as u32) + 10
    }
}

/// Returns whether `raw` can still become a `\uXXXX` escape.
fn partial_unicode_escape_exec(raw: &[char]) -> (r: bool)
    ensures
        r == partial_unicode_escape(raw@),
{
    let text = string_of(raw);
    if text.as_str().len() > 6 {
        return false;
    }
    if raw.len() == 0 {
        return true;
    }
    if raw.len() == 1 {
        if raw[0] == '\\' {
            assert(raw@ =~= seq!['\\']);
            return true;
        }
        assert(raw@ != seq!['\\']);
        return false;
    }
    if raw[0] != '\\' || raw[1] != 'u' {
        assert(raw@ != seq!['\\', 'u']);
        return false;
    }
    let mut i: usize = 2;
    while i < raw.len()
        invariant
            2 <= i <= raw@.len(),
            forall|k: int| 2 <= k < i ==> is_hex(#[trigger] raw@[k]),
        decreases raw@.len() - i,
    {
        if !is_hex_exec(raw[i]) {
            assert(raw@.len() != 2);
            assert(raw@ != seq!['\\', 'u']);
            return false;
        }
        i += 1;
    }
    true
}

/// Returns whether an escape sequence needs more characters.
fn incomplete_escape_exec(raw: &Vec<char>) -> (r: bool)
    ensures
        r == incomplete_escape(raw@),
{
    let text = string_of(raw.as_slice());
    let bytes = text.as_str().len();
    if bytes < 6 {
        return partial_unicode_escape_exec(raw.as_slice());
    }
    if raw.len() < 6 {
        return false;
    }
    let full = raw[0] == '\\' && raw[1] == 'u' && is_hex_exec(raw[2]) && is_hex_exec(raw[3]) && is_hex_exec(raw[4]) && is_hex_exec(raw[5]);
    assert(full == full_unicode_escape(raw@.take(6)));
    if !full {
        return false;
    }
    let v = hex_value_exec(raw[2]) * 4096 + hex_value_exec(raw[3]) * 256 + hex_value_exec(raw[4]) * 16 + hex_value_exec(raw[5]);
    let high = 0xD800 <= v && v <= 0xDBFF;
    assert(high == high_surrogate(raw@.take(6)));
    if !high || bytes >= 12 {
        return false;
    }
    let mut rest: Vec<char> = Vec::new();
    let mut k: usize = 6;
    while k < raw.len()
        invariant
            6 <= k <= raw@.len(),
            rest@ == raw@.subrange(6, k as int),
        decreases raw@.len() - k,
    {
        rest.push(raw[k]);
        assert(rest@ =~= raw@.subrange(6, k + 1));
        k += 1;
    }
    assert(rest@ =~= raw@.skip(6));
    partial_unicode_escape_exec(rest.as_slice())
}

impl ResponsesCustomToolInputParser {
    /// The value of the parser's state.
    pub closed spec fn view_state(&self) -> ParserView {
        ParserView {
            state: self.state,
            prefix: self.prefix@,
            prefix_part: self.prefix_part as int,
            prefix_offset: self.prefix_offset as int,
            escape: self.escape@,
        }
    }

    /// A parser at the start of the arguments.
    pub fn new() -> (r: ResponsesCustomToolInputParser)
        ensures
            r.view_state() == (ParserView {
                state: ResponsesCustomToolInputParserState::Prefix,
                prefix: Seq::empty(),
                prefix_part: 0,
                prefix_offset: 0,
                escape: Seq::empty(),
            }),
    {
        ResponsesCustomToolInputParser {
            state: ResponsesCustomToolInputParserState::Prefix,
            prefix: Vec::new(),
            prefix_part: 0,
            prefix_offset: 0,
            escape: Vec::new(),
        }
    }

    fn step(&mut self, ch: char, output: &mut Vec<char>)
        ensures
            final(self).view_state() == parser_step(old(self).view_state(), ch).0,
            final(output)@ == old(output)@ + parser_step(old(self).view_state(), ch).1,
    {
        let ghost p = self.view_state();
        match self.state {
            ResponsesCustomToolInputParserState::Prefix => {
                self.prefix.push(ch);
                let part = chars_of(prefix_part_exec(self.prefix_part));
                if self.prefix_offset < part.len() && ch == part[self.prefix_offset] {
                    if self.prefix_offset + 1 == part.len() {
                        if self.prefix_part >= 3 {
                            self.prefix = Vec::new();
                            self.prefix_part = 4;
                            self.prefix_offset = 0;
                            self.state = ResponsesCustomToolInputParserState::Value;
                        } else {
                            self.prefix_part = self.prefix_part + 1;
                            self.prefix_offset = 0;
                        }
                    } else {
                        self.prefix_offset = self.prefix_offset + 1;
                    }
                } else if self.prefix_offset != 0 || !(ch == ' ' || ch == '\t' || ch == '\n' || ch == '\x0C' || ch == '\r') {
                    append_chars(output, self.prefix.as_slice());
                    self.prefix = Vec::new();
                    self.state = ResponsesCustomToolInputParserState::Passthrough;
                }
            },
            ResponsesCustomToolInputParserState::Value => {
                if self.escape.len() == 0 {
                    if ch == '\\' {
                        self.escape.push(ch);
                        assert(self.escape@ =~= seq![ch]);
                    } else if ch == '"' {
                        self.state = ResponsesCustomToolInputParserState::Done;
                    } else {
                        output.push(ch);
                    }
                } else {
                    let last = self.escape[self.escape.len() - 1];
                    if ch == '"' && last != '\\' {
                        append_chars(output, self.escape.as_slice());
                        self.escape = Vec::new();
                        self.state = ResponsesCustomToolInputParserState::Done;
                    } else {
                        self.escape.push(ch);
                        if !incomplete_escape_exec(&self.escape) {
                            let mut quoted: Vec<char> = Vec::new();
                            quoted.push('"');
                            append_chars(&mut quoted, self.escape.as_slice());
                            quoted.push('"');
                            let text = string_of(quoted.as_slice());
                            assert(text@ =~= seq!['"'] + self.escape@ + seq!['"']);
                            let ghost before_out = output@;
                            match decode_json_string(text.as_str()) {
                                Some(d) => {
                                    let dc = chars_of(d.as_str());
                                    append_chars(output, dc.as_slice());
                                },
                                None => {
                                    append_chars(output, self.escape.as_slice());
                                },
                            }
                            assert(output@ == before_out + decoded_escape(self.escape@));
                            self.escape = Vec::new();
                        }
                    }
                }
            },
            ResponsesCustomToolInputParserState::Passthrough => {
                output.push(ch);
            },
            ResponsesCustomToolInputParserState::Done => {},
        }
        assert(self.view_state().prefix =~= parser_step(p, ch).0.prefix);
        assert(self.view_state().escape =~= parser_step(p, ch).0.escape);
        assert(output@ =~= old(output)@ + parser_step(p, ch).1);
    }

    /// Decode available value text, retaining incomplete prefixes and
    /// escapes.
    pub fn feed(&mut self, chunk: &str) -> (r: String)
        ensures
            (final(self).view_state(), r@) == feed_spec(old(self).view_state(), chunk@, chunk@.len() as int),
    {
        let chars = chars_of(chunk);
        let ghost p0 = self.view_state();
        let mut output: Vec<char> = Vec::new();
        let mut i: usize = 0;
        while i < chars.len()
            invariant
                i <= chars@.len(),
                chars@ == chunk@,
                (self.view_state(), output@) == feed_spec(p0, chunk@, i as int),
            decreases chars@.len() - i,
        {
            self.step(chars[i], &mut output);
            i += 1;
        }
        string_of(output.as_slice())
    }

    /// End parsing and return any unfinished prefix or escape unchanged.
    /// Repeated calls and subsequent input produce no further output.
    pub fn finish(&mut self) -> (r: String)
        ensures
            r@ == old(self).view_state().prefix + old(self).view_state().escape,
            final(self).view_state() == (ParserView {
                state: ResponsesCustomToolInputParserState::Done,
                prefix: Seq::empty(),
                escape: Seq::empty(),
                ..old(self).view_state()
            }),
    {
        self.state = ResponsesCustomToolInputParserState::Done;
        let mut out: Vec<char> = Vec::new();
        append_chars(&mut out, self.prefix.as_slice());
        append_chars(&mut out, self.escape.as_slice());
        self.prefix = Vec::new();
        self.escape = Vec::new();
        assert(self.view_state().prefix =~= Seq::<char>::empty());
        assert(self.view_state().escape =~= Seq::<char>::empty());
        string_of(out.as_slice())
    }
}


/// Feeding the characters of `a + b` up to the end of `a` is feeding `a`.
proof fn lemma_feed_prefix(p: ParserView, a: Seq<char>, b: Seq<char>, n: int)
    requires
        0 <= n <= a.len(),
    ensures
        feed_spec(p, a + b, n) == feed_spec(p, a, n),
    decreases n,
{
    if n > 0 {
        lemma_feed_prefix(p, a, b, n - 1);
        assert((a + b)[n - 1] == a[n - 1]);
    }
}

/// Where chunks split the arguments does not matter: feeding `a` and then
/// `b` leaves the parser in the state feeding `a + b` at once leaves it in,
/// and the two outputs together are the output of the joined chunk.
pub proof fn lemma_feed_split(p: ParserView, a: Seq<char>, b: Seq<char>)
    ensures
        ({
            let first = feed_spec(p, a, a.len() as int);
            let second = feed_spec(first.0, b, b.len() as int);
            let whole = feed_spec(p, a + b, (a + b).len() as int);
            whole.0 == second.0 && whole.1 == first.1 + second.1
        }),
{
    lemma_feed_split_at(p, a, b, b.len() as int);
}

/// The split law for the first `m` characters of `b`.
proof fn lemma_feed_split_at(p: ParserView, a: Seq<char>, b: Seq<char>, m: int)
    requires
        0 <= m <= b.len(),
    ensures
        ({
            let first = feed_spec(p, a, a.len() as int);
            let second = feed_spec(first.0, b, m);
            let whole = feed_spec(p, a + b, a.len() + m);
            whole.0 == second.0 && whole.1 == first.1 + second.1
        }),
    decreases m,
{
    if m == 0 {
        lemma_feed_prefix(p, a, b, a.len() as int);
        let first = feed_spec(p, a, a.len() as int);
        assert(first.1 + Seq::<char>::empty() =~= first.1);
    } else {
        lemma_feed_split_at(p, a, b, m - 1);
        assert((a + b)[a.len() + m - 1] == b[m - 1]);
        let first = feed_spec(p, a, a.len() as int);
        let second = feed_spec(first.0, b, m - 1);
        let step = parser_step(second.0, b[m - 1]);
        assert(first.1 + second.1 + step.1 =~= first.1 + (second.1 + step.1));
    }
}

/// A finished parser stays finished and outputs nothing more, whatever it
/// is fed.
pub proof fn lemma_done_is_silent(p: ParserView, chars: Seq<char>, n: int)
    requires
        p.state == ResponsesCustomToolInputParserState::Done,
        0 <= n,
    ensures
        feed_spec(p, chars, n) == (p, Seq::<char>::empty()),
    decreases n,
{
    if n > 0 {
        lemma_done_is_silent(p, chars, n - 1);
        assert(Seq::<char>::empty() + Seq::<char>::empty() =~= Seq::<char>::empty());
    }
}

} // verus!
