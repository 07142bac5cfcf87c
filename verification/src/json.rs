//! JSON values and their text, in the compact form of `serde_json` and in the
//! spaced form of Python's `json.dumps`.

use vstd::prelude::*;

use crate::text::{append_chars, append_str, chars_of, decimal, decimal_chars, decimal_digit, string_of};

verus! {

/// A JSON value. A number is held as the text `serde_json` writes for it;
/// object members keep their order.
#[derive(Debug, PartialEq, Eq)]
pub enum JsonValue {
    Null,
    Bool(bool),
    Number(String),
    String(String),
    Array(Vec<JsonValue>),
    Object(Vec<(String, JsonValue)>),
}

/// The mathematical value of a [`JsonValue`].
pub enum JsonView {
    Null,
    Bool(bool),
    Number(Seq<char>),
    Str(Seq<char>),
    Array(Seq<JsonView>),
    Object(Seq<(Seq<char>, JsonView)>),
}

/// The mathematical value of `v`.
pub open spec fn json_view(v: JsonValue) -> JsonView
    decreases v, 1int,
{
    match v {
        JsonValue::Null => JsonView::Null,
        JsonValue::Bool(b) => JsonView::Bool(b),
        JsonValue::Number(n) => JsonView::Number(n@),
        JsonValue::String(s) => JsonView::Str(s@),
        JsonValue::Array(items) => {
            proof {
                assert(decreases_to!(items => items@));
            }
            JsonView::Array(json_views(items@))
        },
        JsonValue::Object(members) => {
            proof {
                assert(decreases_to!(members => members@));
            }
            JsonView::Object(member_views(members@))
        },
    }
}

/// The mathematical values of `items`.
pub open spec fn json_views(items: Seq<JsonValue>) -> Seq<JsonView>
    decreases items, 0int,
{
    if items.len() == 0 {
        Seq::empty()
    } else {
        proof {
            assert(decreases_to!(items => items[items.len() - 1]));
        }
        json_views(items.drop_last()).push(json_view(items.last()))
    }
}

/// The mathematical values of the members `members`.
pub open spec fn member_views(members: Seq<(String, JsonValue)>) -> Seq<(Seq<char>, JsonView)>
    decreases members, 0int,
{
    if members.len() == 0 {
        Seq::empty()
    } else {
        proof {
            assert(decreases_to!(members => members[members.len() - 1]));
            assert(decreases_to!(members[members.len() - 1] => members[members.len() - 1].1));
        }
        member_views(members.drop_last()).push((members.last().0@, json_view(members.last().1)))
    }
}

/// The lower-case hexadecimal digit of `n`, `0 <= n < 16`.
pub open spec fn hex_digit(n: int) -> char {
    if n < 10 {
        (48 + n) as char
    } else {
        (87 + n) as char
    }
}

/// How `serde_json` writes the character `c` inside a string.
pub open spec fn escape_char(c: char) -> Seq<char> {
    if c == '"' {
        seq!['\\', '"']
    } else if c == '\\' {
        seq!['\\', '\\']
    } else if c == '\x08' {
        seq!['\\', 'b']
    } else if c == '\x0c' {
        seq!['\\', 'f']
    } else if c == '\n' {
        seq!['\\', 'n']
    } else if c == '\r' {
        seq!['\\', 'r']
    } else if c == '\t' {
        seq!['\\', 't']
    } else if (c as u32) < 0x20 {
        seq!['\\', 'u', '0', '0', hex_digit((c as u32) as int / 16), hex_digit((c as u32) as int % 16)]
    } else {
        seq![c]
    }
}

/// The characters of `s` as `serde_json` writes them inside a string.
pub open spec fn escaped(s: Seq<char>) -> Seq<char>
    decreases s.len(),
{
    if s.len() == 0 {
        Seq::empty()
    } else {
        escaped(s.drop_last()) + escape_char(s.last())
    }
}

/// The JSON string literal of `s`.
pub open spec fn quoted(s: Seq<char>) -> Seq<char> {
    seq!['"'] + escaped(s) + seq!['"']
}

/// The number of leading `'0'` characters of `s`.
pub open spec fn leading_zeros(s: Seq<char>) -> nat
    decreases s.len(),
{
    if s.len() > 0 && s[0] == '0' {
        1 + leading_zeros(s.drop_first())
    } else {
        0
    }
}

/// `n` written with at least two digits.
pub open spec fn two_digits(n: nat) -> Seq<char> {
    if n < 10 {
        seq!['0', decimal_digit(n as int)]
    } else {
        decimal(n)
    }
}

/// How Python writes the number `serde_json` writes as `n`: a fraction with
/// four or more leading zeros is written with a negative exponent, and a
/// single-digit negative exponent gets a leading zero.
pub open spec fn python_number(n: Seq<char>) -> Seq<char> {
    if !n.contains('e') {
        let negative = n.len() > 0 && n[0] == '-';
        let sign: Seq<char> = if negative { seq!['-'] } else { Seq::empty() };
        let rest = if negative { n.drop_first() } else { n };
        if rest.len() >= 2 && rest[0] == '0' && rest[1] == '.' {
            let fraction = rest.subrange(2, rest.len() as int);
            let zeros = leading_zeros(fraction);
            if zeros >= 4 && zeros < fraction.len() {
                let first = fraction[zeros as int];
                let digits = fraction.subrange(zeros as int + 1, fraction.len() as int);
                let dot: Seq<char> = if digits.len() > 0 { seq!['.'] + digits } else { Seq::empty() };
                sign.push(first) + dot + seq!['e', '-'] + two_digits(zeros + 1)
            } else {
                n
            }
        } else {
            n
        }
    } else if n.len() >= 3 && n[n.len() - 3] == 'e' && n[n.len() - 2] == '-' {
        n.subrange(0, n.len() - 3) + seq!['e', '-', '0', n[n.len() - 1]]
    } else {
        n
    }
}

/// The separator between array items and object members.
pub open spec fn item_separator(spaced: bool) -> Seq<char> {
    if spaced { seq![',', ' '] } else { seq![','] }
}

/// The separator between a member's key and value.
pub open spec fn key_separator(spaced: bool) -> Seq<char> {
    if spaced { seq![':', ' '] } else { seq![':'] }
}

/// The JSON text of `v`: compact as `serde_json` writes it, or spaced as
/// Python writes it.
pub open spec fn json_text(v: JsonView, spaced: bool) -> Seq<char>
    decreases v, 1int,
{
    match v {
        JsonView::Null => seq!['n', 'u', 'l', 'l'],
        JsonView::Bool(b) => if b { seq!['t', 'r', 'u', 'e'] } else { seq!['f', 'a', 'l', 's', 'e'] },
        JsonView::Number(n) => if spaced { python_number(n) } else { n },
        JsonView::Str(s) => quoted(s),
        JsonView::Array(items) => seq!['['] + items_text(items, spaced) + seq![']'],
        JsonView::Object(members) => seq!['{'] + members_text(members, spaced) + seq!['}'],
    }
}

/// The texts of `items` joined by the item separator.
pub open spec fn items_text(items: Seq<JsonView>, spaced: bool) -> Seq<char>
    decreases items, 0int,
{
    if items.len() == 0 {
        Seq::empty()
    } else {
        proof {
            assert(decreases_to!(items => items[items.len() - 1]));
        }
        let last = json_text(items.last(), spaced);
        if items.len() == 1 {
            last
        } else {
            items_text(items.drop_last(), spaced) + item_separator(spaced) + last
        }
    }
}

/// The text of one object member.
pub open spec fn member_text(key: Seq<char>, value: JsonView, spaced: bool) -> Seq<char>
    decreases value, 0int,
{
    quoted(key) + key_separator(spaced) + json_text(value, spaced)
}

/// The texts of `members` joined by the item separator.
pub open spec fn members_text(members: Seq<(Seq<char>, JsonView)>, spaced: bool) -> Seq<char>
    decreases members, 0int,
{
    if members.len() == 0 {
        Seq::empty()
    } else {
        proof {
            assert(decreases_to!(members => members[members.len() - 1]));
            assert(decreases_to!(members[members.len() - 1] => members[members.len() - 1].1));
        }
        let last = quoted(members.last().0) + key_separator(spaced) + json_text(members.last().1, spaced);
        if members.len() == 1 {
            last
        } else {
            members_text(members.drop_last(), spaced) + item_separator(spaced) + last
        }
    }
}

/// Calls `serde_json::to_string` on the string `s`, which writes it as a
/// JSON string literal: quoted, with `"` and `\\` escaped by a backslash,
/// backspace, form feed, line feed, carriage return and tab by their short
/// escapes, other characters below U+0020 as `\\u00` and two lowercase hex
/// digits, and every other character as it is. Serializing a string does
/// not fail.
#[verifier::external_body]
fn serde_quote(s: &str) -> (r: String)
    ensures
        r@ == quoted(s@),
{
    serde_json::to_string(s).unwrap_or_default()
}

/// Appends the JSON string literal of `s` to `out`.
fn push_quoted(out: &mut Vec<char>, s: &str)
    ensures
        final(out)@ == old(out)@ + quoted(s@),
{
    let text = serde_quote(s);
    append_str(out, text.as_str());
}

/// Returns the JSON string literal of `s`, as `serde_json::to_string` writes a
/// string.
pub fn quote_json(s: &str) -> (r: String)
    ensures
        r@ == quoted(s@),
{
    serde_quote(s)
}

/// Returns the number of leading `'0'` characters of `s` from `start` on.
fn count_leading_zeros(s: &[char], start: usize) -> (r: usize)
    requires
        start <= s@.len(),
    ensures
        r == leading_zeros(s@.subrange(start as int, s@.len() as int)),
        start + r <= s@.len(),
    decreases s@.len() - start,
{
    if start < s.len() && s[start] == '0' {
        let rest = count_leading_zeros(s, start + 1);
        assert(s@.subrange(start as int, s@.len() as int).drop_first() =~= s@.subrange(start + 1, s@.len() as int));
        rest + 1
    } else {
        proof {
            rest_is_not_zero(s@, start as int);
        }
        0
    }
}

proof fn rest_is_not_zero(s: Seq<char>, start: int)
    requires
        0 <= start <= s.len(),
        start == s.len() || s[start] != '0',
    ensures
        leading_zeros(s.subrange(start, s.len() as int)) == 0,
{
    let t = s.subrange(start, s.len() as int);
    if t.len() > 0 {
        assert(t[0] == s[start]);
    }
}

/// Appends `n` written with at least two digits to `out`.
fn push_two_digits(out: &mut Vec<char>, n: usize)
    ensures
        final(out)@ == old(out)@ + two_digits(n as nat),
{
    if n < 10 {
        out.push('0');
        out.push(((48 + n) as u8) as char);
        assert(final(out)@ =~= old(out)@ + two_digits(n as nat));
    } else {
        let d = decimal_chars(n);
        append_chars(out, d.as_slice());
    }
}

/// Appends the number `serde_json` writes as `n` to `out`, in Python's form
/// when `spaced`.
#[verifier::rlimit(40)]
fn push_number(out: &mut Vec<char>, n: &[char], spaced: bool)
    ensures
        final(out)@ == old(out)@ + (if spaced { python_number(n@) } else { n@ }),
{
    if !spaced {
        append_chars(out, n);
        return;
    }
    let len = n.len();
    let mut has_e = false;
    let mut i: usize = 0;
    while i < len
        invariant
            len == n@.len(),
            i <= len,
            has_e == (exists|j: int| 0 <= j < i && n@[j] == 'e'),
        decreases len - i,
    {
        if n[i] == 'e' {
            has_e = true;
        }
        i += 1;
    }
    assert(has_e == n@.contains('e'));
    if !has_e {
        let negative = len > 0 && n[0] == '-';
        let start: usize = if negative { 1 } else { 0 };
        let ghost rest = if negative { n@.drop_first() } else { n@ };
        assert(rest =~= n@.subrange(start as int, len as int));
        if len >= start + 2 && n[start] == '0' && n[start + 1] == '.' {
            let ghost fraction = rest.subrange(2, rest.len() as int);
            assert(fraction =~= n@.subrange(start + 2, len as int));
            let zeros = count_leading_zeros(n, start + 2);
            let first_at = start + 2 + zeros;
            if zeros >= 4 && first_at < len {
                let ghost digits = fraction.subrange(zeros as int + 1, fraction.len() as int);
                if negative {
                    out.push('-');
                }
                out.push(n[first_at]);
                if first_at + 1 < len {
                    out.push('.');
                    let mut k: usize = first_at + 1;
                    let ghost before = out@;
                    while k < len
                        invariant
                            first_at + 1 <= k <= len,
                            len == n@.len(),
                            out@ == before + n@.subrange(first_at + 1, k as int),
                        decreases len - k,
                    {
                        out.push(n[k]);
                        assert(n@.subrange(first_at + 1, k + 1) =~= n@.subrange(first_at + 1, k as int).push(n@[k as int]));
                        k += 1;
                    }
                }
                out.push('e');
                out.push('-');
                push_two_digits(out, zeros + 1);
                proof {
                    assert(digits =~= n@.subrange(first_at + 1, len as int));
                    assert(fraction[zeros as int] == n@[first_at as int]);
                    let sign: Seq<char> = if negative { seq!['-'] } else { Seq::<char>::empty() };
                    let dot: Seq<char> = if digits.len() > 0 { seq!['.'] + digits } else { Seq::<char>::empty() };
                    assert(final(out)@ =~= old(out)@ + (sign.push(n@[first_at as int]) + dot + seq!['e', '-'] + two_digits((zeros + 1) as nat)));
                }
                return;
            }
        }
        append_chars(out, n);
        return;
    }
    if len >= 3 && n[len - 3] == 'e' && n[len - 2] == '-' {
        let mut k: usize = 0;
        while k < len - 3
            invariant
                len == n@.len(),
                len >= 3,
                k <= len - 3,
                out@ == old(out)@ + n@.subrange(0, k as int),
            decreases len - 3 - k,
        {
            out.push(n[k]);
            assert(n@.subrange(0, k + 1) =~= n@.subrange(0, k as int).push(n@[k as int]));
            k += 1;
        }
        out.push('e');
        out.push('-');
        out.push('0');
        out.push(n[len - 1]);
        assert(final(out)@ =~= old(out)@ + (n@.subrange(0, len - 3) + seq!['e', '-', '0', n@[len - 1]]));
        return;
    }
    append_chars(out, n);
}

/// Appends the item separator to `out` when `needed`.
fn push_separator(out: &mut Vec<char>, needed: bool, spaced: bool)
    ensures
        final(out)@ == old(out)@ + (if needed { item_separator(spaced) } else { Seq::<char>::empty() }),
{
    if needed {
        if spaced {
            out.push(',');
            out.push(' ');
        } else {
            out.push(',');
        }
    }
    assert(final(out)@ =~= old(out)@ + (if needed { item_separator(spaced) } else { Seq::<char>::empty() }));
}

/// Appends the separator when `needed`, the quoted `key` and the key
/// separator to `out`.
fn push_member_key(out: &mut Vec<char>, key: &str, needed: bool, spaced: bool)
    ensures
        final(out)@ == old(out)@ + (if needed { item_separator(spaced) } else { Seq::<char>::empty() })
            + quoted(key@) + key_separator(spaced),
{
    push_separator(out, needed, spaced);
    push_quoted(out, key);
    if spaced {
        out.push(':');
        out.push(' ');
    } else {
        out.push(':');
    }
    assert(final(out)@ =~= old(out)@ + (if needed { item_separator(spaced) } else { Seq::<char>::empty() })
        + quoted(key@) + key_separator(spaced));
}

/// Appends the JSON text of `v` to `out`: compact, or spaced as Python writes
/// it when `spaced`.
pub fn write_json(out: &mut Vec<char>, v: &JsonValue, spaced: bool)
    ensures
        final(out)@ == old(out)@ + json_text(json_view(*v), spaced),
    decreases v,
{
    match v {
        JsonValue::Null => {
            append_str(out, "null");
            proof {
                reveal_strlit("null");
            }
        },
        JsonValue::Bool(b) => {
            if *b {
                append_str(out, "true");
                proof {
                    reveal_strlit("true");
                }
            } else {
                append_str(out, "false");
                proof {
                    reveal_strlit("false");
                }
            }
        },
        JsonValue::Number(n) => {
            let chars = chars_of(n.as_str());
            push_number(out, chars.as_slice(), spaced);
        },
        JsonValue::String(t) => {
            push_quoted(out, t.as_str());
        },
        JsonValue::Array(items) => {
            out.push('[');
            let ghost before = out@;
            let mut i: usize = 0;
            while i < items.len()
                invariant
                    i <= items@.len(),
                    *v == JsonValue::Array(*items),
                    out@ == before + items_text(json_views(items@.take(i as int)), spaced),
                decreases items@.len() - i,
            {
                assert(items@.take(i + 1).drop_last() =~= items@.take(i as int));
                assert(json_views(items@.take(i + 1)) == json_views(items@.take(i as int)).push(json_view(items@[i as int])));
                push_separator(out, i > 0, spaced);
                proof {
                    assert(decreases_to!(*v => (*v)->Array_0));
                    assert(decreases_to!(*items => items@));
                    assert(decreases_to!(items@ => items@[i as int]));
                    assert(decreases_to!(*v => items@[i as int]));
                }
                write_json(out, &items[i], spaced);
                proof {
                    let prev = json_views(items@.take(i as int));
                    let next = json_views(items@.take(i + 1));
                    assert(next.drop_last() =~= prev);
                    assert(next.last() == json_view(items@[i as int]));
                }
                i += 1;
            }
            assert(items@.take(items@.len() as int) =~= items@);
            out.push(']');
        },
        JsonValue::Object(members) => {
            out.push('{');
            let ghost before = out@;
            let mut i: usize = 0;
            while i < members.len()
                invariant
                    i <= members@.len(),
                    *v == JsonValue::Object(*members),
                    out@ == before + members_text(member_views(members@.take(i as int)), spaced),
                decreases members@.len() - i,
            {
                assert(members@.take(i + 1).drop_last() =~= members@.take(i as int));
                push_member_key(out, members[i].0.as_str(), i > 0, spaced);
                proof {
                    assert(decreases_to!(*members => members@));
                    assert(decreases_to!(members@ => members@[i as int]));
                    assert(decreases_to!(members@[i as int] => members@[i as int].1));
                    assert(decreases_to!(*v => (*v)->Object_0));
                    assert(decreases_to!(*v => members@[i as int].1));
                }
                write_json(out, &members[i].1, spaced);
                proof {
                    let prev = member_views(members@.take(i as int));
                    let next = member_views(members@.take(i + 1));
                    assert(next.drop_last() =~= prev);
                    assert(next.last() == (members@[i as int].0@, json_view(members@[i as int].1)));
                }
                i += 1;
            }
            assert(members@.take(members@.len() as int) =~= members@);
            out.push('}');
        },
    }
}

/// Serialize JSON with spaced separators and Python-style negative float
/// exponents. Non-ASCII text remains unescaped; other string and number
/// formatting follows `serde_json`.
pub fn stringify_python_style(value: &JsonValue) -> (r: String)
    ensures
        r@ == json_text(json_view(*value), true),
{
    let mut out: Vec<char> = Vec::new();
    write_json(&mut out, value, true);
    assert(out@ =~= json_text(json_view(*value), true));
    string_of(out.as_slice())
}

/// The compact JSON text that `serde_json::to_string` writes for the value
/// `v`.
pub uninterp spec fn compact_json(v: JsonView) -> Seq<char>;

/// Calls `serde_json::to_string` on the `serde_json::Value` of `value`,
/// which writes it compactly; the text is named by [`compact_json`].
/// Serializing a value does not fail.
#[verifier::external_body]
fn serde_compact(value: &JsonValue) -> (r: String)
    ensures
        r@ == compact_json(json_view(*value)),
{
    serde_json::to_string(&crate::validation::serde_from_json(value)).unwrap_or_default()
}

/// Serialize JSON compactly, as `serde_json::to_string` does.
pub fn to_json_string(value: &JsonValue) -> (r: String)
    ensures
        r@ == compact_json(json_view(*value)),
{
    serde_compact(value)
}

/// A JSON value parsed by `serde_json`.
#[verifier::external_type_specification]
#[verifier::external_body]
pub struct ExSerdeJsonValue(serde_json::Value);

/// What a `serde_json::Value` holds.
pub uninterp spec fn serde_value_view(v: serde_json::Value) -> JsonView;

/// What `serde_json::from_str` parses from `text`, or `None` where it fails.
pub uninterp spec fn parsed_json(text: Seq<char>) -> Option<JsonView>;

/// Calls `serde_json::from_str`, which parses the JSON text `text`; the
/// result is named by [`parsed_json`].
#[verifier::external_body]
fn parse_serde_value(text: &str) -> (r: Option<serde_json::Value>)
    ensures
        match r {
            Some(v) => parsed_json(text@) == Some(serde_value_view(v)),
            None => parsed_json(text@) is None,
        },
{
    serde_json::from_str::<serde_json::Value>(text).ok()
}

/// Converts a `serde_json::Value` into a [`JsonValue`], one value for one:
/// a number becomes the text its `Display` writes, and members keep their
/// order.
#[verifier::external_body]
fn json_from_serde(value: serde_json::Value) -> (r: JsonValue)
    ensures
        json_view(r) == serde_value_view(value),
{
    match value {
        serde_json::Value::Null => JsonValue::Null,
        serde_json::Value::Bool(b) => JsonValue::Bool(b),
        serde_json::Value::Number(n) => JsonValue::Number(n.to_string()),
        serde_json::Value::String(s) => JsonValue::String(s),
        serde_json::Value::Array(items) => JsonValue::Array(items.into_iter().map(json_from_serde).collect()),
        serde_json::Value::Object(map) => JsonValue::Object(map.into_iter().map(|(k, v)| (k, json_from_serde(v))).collect()),
    }
}

/// Parses the JSON text `text`, or returns `None` where it is not JSON.
pub fn parse_json(text: &str) -> (r: Option<JsonValue>)
    ensures
        match r {
            Some(v) => parsed_json(text@) == Some(json_view(v)),
            None => parsed_json(text@) is None,
        },
{
    match parse_serde_value(text) {
        Some(v) => Some(json_from_serde(v)),
        None => None,
    }
}

/// Returns a copy of `v` with the same value.
pub fn duplicate_json(v: &JsonValue) -> (r: JsonValue)
    ensures
        json_view(r) == json_view(*v),
    decreases v,
{
    match v {
        JsonValue::Null => JsonValue::Null,
        JsonValue::Bool(b) => JsonValue::Bool(*b),
        JsonValue::Number(n) => JsonValue::Number(n.clone()),
        JsonValue::String(t) => JsonValue::String(t.clone()),
        JsonValue::Array(items) => {
            let mut out: Vec<JsonValue> = Vec::new();
            let mut i: usize = 0;
            while i < items.len()
                invariant
                    i <= items@.len(),
                    *v == JsonValue::Array(*items),
                    json_views(out@) == json_views(items@.take(i as int)),
                    out@.len() == i,
                decreases items@.len() - i,
            {
                proof {
                    assert(decreases_to!(*v => (*v)->Array_0));
                    assert(decreases_to!(*items => items@));
                    assert(decreases_to!(items@ => items@[i as int]));
                }
                let item = duplicate_json(&items[i]);
                let ghost prev = out@;
                out.push(item);
                assert(out@.drop_last() =~= prev);
                assert(items@.take(i + 1).drop_last() =~= items@.take(i as int));
                i += 1;
            }
            assert(items@.take(items@.len() as int) =~= items@);
            JsonValue::Array(out)
        },
        JsonValue::Object(members) => {
            let mut out: Vec<(String, JsonValue)> = Vec::new();
            let mut i: usize = 0;
            while i < members.len()
                invariant
                    i <= members@.len(),
                    *v == JsonValue::Object(*members),
                    member_views(out@) == member_views(members@.take(i as int)),
                    out@.len() == i,
                decreases members@.len() - i,
            {
                proof {
                    assert(decreases_to!(*v => (*v)->Object_0));
                    assert(decreases_to!(*members => members@));
                    assert(decreases_to!(members@ => members@[i as int]));
                    assert(decreases_to!(members@[i as int] => members@[i as int].1));
                }
                let value = duplicate_json(&members[i].1);
                let key = members[i].0.clone();
                let ghost prev = out@;
                out.push((key, value));
                assert(out@.drop_last() =~= prev);
                assert(members@.take(i + 1).drop_last() =~= members@.take(i as int));
                i += 1;
            }
            assert(members@.take(members@.len() as int) =~= members@);
            JsonValue::Object(out)
        },
    }
}

/// The value of member `i` of `members`.
pub proof fn lemma_member_views_index(members: Seq<(String, JsonValue)>, i: int)
    requires
        0 <= i < members.len(),
    ensures
        member_views(members).len() == members.len(),
        member_views(members)[i] == (members[i].0@, json_view(members[i].1)),
    decreases members.len(),
{
    lemma_member_views_len(members);
    if i < members.len() - 1 {
        lemma_member_views_index(members.drop_last(), i);
    }
}

/// The values of `members` are as many as the members.
pub proof fn lemma_member_views_len(members: Seq<(String, JsonValue)>)
    ensures
        member_views(members).len() == members.len(),
    decreases members.len(),
{
    if members.len() > 0 {
        lemma_member_views_len(members.drop_last());
    }
}

/// The value of item `i` of `items`.
pub proof fn lemma_json_views_index(items: Seq<JsonValue>, i: int)
    requires
        0 <= i < items.len(),
    ensures
        json_views(items).len() == items.len(),
        json_views(items)[i] == json_view(items[i]),
    decreases items.len(),
{
    lemma_json_views_len(items);
    if i < items.len() - 1 {
        lemma_json_views_index(items.drop_last(), i);
    }
}

/// The values of `items` are as many as the items.
pub proof fn lemma_json_views_len(items: Seq<JsonValue>)
    ensures
        json_views(items).len() == items.len(),
    decreases items.len(),
{
    if items.len() > 0 {
        lemma_json_views_len(items.drop_last());
    }
}

} // verus!
