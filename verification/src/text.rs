//! Character-sequence helpers shared by the rendering and parsing code.

use vstd::prelude::*;

verus! {

/// Returns the characters of `s`.
pub fn chars_of(s: &str) -> (v: Vec<char>)
    ensures
        v@ == s@,
{
    broadcast use vstd::string::axiom_spec_iter;

    let mut v: Vec<char> = Vec::new();
    for c in it: s.chars()
        invariant
            v@ == it.seq().take(it.index() as int),
            it.seq() == s@,
    {
        v.push(c);
    }
    v
}

/// Builds a string from characters.
pub fn string_of(v: &[char]) -> (s: String)
    ensures
        s@ == v@,
{
    let mut s = String::new();
    let mut i: usize = 0;
    while i < v.len()
        invariant
            i <= v@.len(),
            s@ == v@.take(i as int),
        decreases v@.len() - i,
    {
        push_char(&mut s, v[i]);
        assert(v@.take(i + 1) == v@.take(i as int).push(v@[i as int]));
        i = i + 1;
    }
    assert(v@.take(v@.len() as int) == v@);
    s
}

/// Appends one character to a string.
///
/// Wraps `String::push`, which appends `c` to the end of the string.
#[verifier::external_body]
pub fn push_char(s: &mut String, c: char)
    ensures
        final(s)@ == old(s)@.push(c),
{
    s.push(c)
}

/// The ASCII lower-case form of a character; other characters are unchanged.
pub open spec fn ascii_lower(c: char) -> char {
    if 'A' <= c && c <= 'Z' {
        ((c as u8) + 32u8) as char
    } else {
        c
    }
}

/// Two character sequences are equal when ASCII letters are compared without
/// regard to case.
pub open spec fn eq_ignore_ascii_case(a: Seq<char>, b: Seq<char>) -> bool {
    &&& a.len() == b.len()
    &&& forall|i: int| 0 <= i < a.len() ==> ascii_lower(#[trigger] a[i]) == ascii_lower(b[i])
}

/// `needle` occurs in `hay` at position `i`.
pub open spec fn occurs_at(hay: Seq<char>, needle: Seq<char>, i: int) -> bool {
    0 <= i && i + needle.len() <= hay.len() && hay.subrange(i, i + needle.len()) == needle
}

/// `needle` occurs somewhere in `hay`.
pub open spec fn contains_seq(hay: Seq<char>, needle: Seq<char>) -> bool {
    exists|i: int| occurs_at(hay, needle, i)
}

/// The whitespace characters of `char::is_whitespace` (the Unicode
/// `White_Space` property).
pub open spec fn is_unicode_whitespace(c: char) -> bool {
    let u = c as u32;
    (0x09 <= u && u <= 0x0d) || u == 0x20 || u == 0x85 || u == 0xa0 || u == 0x1680 || (0x2000
        <= u && u <= 0x200a) || u == 0x2028 || u == 0x2029 || u == 0x202f || u == 0x205f || u
        == 0x3000
}

pub fn lower_ascii(c: char) -> (r: char)
    ensures
        r == ascii_lower(c),
{
    if 'A' <= c && c <= 'Z' {
        ((c as u8) + 32u8) as char
    } else {
        c
    }
}

pub fn is_whitespace(c: char) -> (r: bool)
    ensures
        r == is_unicode_whitespace(c),
{
    let u = c as u32;
    (0x09 <= u && u <= 0x0d) || u == 0x20 || u == 0x85 || u == 0xa0 || u == 0x1680 || (0x2000
        <= u && u <= 0x200a) || u == 0x2028 || u == 0x2029 || u == 0x202f || u == 0x205f || u
        == 0x3000
}

/// Compares two character sequences, ignoring ASCII case.
pub fn chars_eq_ignore_ascii_case(a: &[char], b: &[char]) -> (r: bool)
    ensures
        r == eq_ignore_ascii_case(a@, b@),
{
    if a.len() != b.len() {
        return false;
    }
    let mut i: usize = 0;
    while i < a.len()
        invariant
            a@.len() == b@.len(),
            i <= a@.len(),
            forall|j: int| 0 <= j < i ==> ascii_lower(#[trigger] a@[j]) == ascii_lower(b@[j]),
        decreases a.len() - i,
    {
        if lower_ascii(a[i]) != lower_ascii(b[i]) {
            return false;
        }
        i += 1;
    }
    true
}

/// Compares two character sequences.
pub fn chars_eq(a: &[char], b: &[char]) -> (r: bool)
    ensures
        r == (a@ == b@),
{
    if a.len() != b.len() {
        return false;
    }
    let mut i: usize = 0;
    while i < a.len()
        invariant
            a@.len() == b@.len(),
            i <= a@.len(),
            forall|j: int| 0 <= j < i ==> a@[j] == b@[j],
        decreases a.len() - i,
    {
        if a[i] != b[i] {
            return false;
        }
        i += 1;
    }
    assert(a@ =~= b@);
    true
}

/// Returns whether `needle` occurs at position `i` of `hay`.
pub fn chars_occur_at(hay: &[char], needle: &[char], i: usize) -> (r: bool)
    ensures
        r == occurs_at(hay@, needle@, i as int),
{
    let hl = hay.len();
    if i > hl || needle.len() > hl - i {
        return false;
    }
    let mut j: usize = 0;
    while j < needle.len()
        invariant
            i + needle@.len() <= hay@.len(),
            hl == hay@.len(),
            i <= hl,
            j <= needle@.len(),
            forall|k: int| 0 <= k < j ==> hay@[i + k] == needle@[k],
        decreases needle.len() - j,
    {
        if hay[i + j] != needle[j] {
            assert(hay@.subrange(i as int, i + needle@.len())[j as int] != needle@[j as int]);
            return false;
        }
        j += 1;
    }
    assert(hay@.subrange(i as int, i + needle@.len()) =~= needle@);
    true
}

/// Returns whether `needle` occurs in `hay`.
pub fn chars_contain(hay: &[char], needle: &[char]) -> (r: bool)
    ensures
        r == contains_seq(hay@, needle@),
{
    if needle.len() > hay.len() {
        return false;
    }
    let last = hay.len() - needle.len();
    let mut i: usize = 0;
    loop
        invariant
            needle@.len() <= hay@.len(),
            last == hay@.len() - needle@.len(),
            i <= last,
            forall|k: int| 0 <= k < i ==> !occurs_at(hay@, needle@, k),
        ensures
            i == last,
            forall|k: int| 0 <= k <= i ==> !occurs_at(hay@, needle@, k),
        decreases last - i,
    {
        if chars_occur_at(hay, needle, i) {
            return true;
        }
        if i == last {
            break;
        }
        i += 1;
    }
    assert forall|k: int| !occurs_at(hay@, needle@, k) by {
        if 0 <= k && k + needle@.len() <= hay@.len() {
            assert(k <= i);
        }
    }
    false
}

/// Returns whether `needle` occurs in `hay`.
pub fn str_contains(hay: &str, needle: &str) -> (r: bool)
    ensures
        r == contains_seq(hay@, needle@),
{
    let h = chars_of(hay);
    let n = chars_of(needle);
    chars_contain(h.as_slice(), n.as_slice())
}

/// Appends the characters `s` to `out`.
pub fn append_chars(out: &mut Vec<char>, s: &[char])
    ensures
        final(out)@ == old(out)@ + s@,
{
    let mut i: usize = 0;
    while i < s.len()
        invariant
            i <= s@.len(),
            out@ == old(out)@ + s@.take(i as int),
        decreases s.len() - i,
    {
        out.push(s[i]);
        assert(s@.take(i + 1) =~= s@.take(i as int).push(s@[i as int]));
        i += 1;
    }
    assert(s@.take(s@.len() as int) =~= s@);
}

/// Appends the characters of `s` to `out`.
pub fn append_str(out: &mut Vec<char>, s: &str)
    ensures
        final(out)@ == old(out)@ + s@,
{
    let v = chars_of(s);
    append_chars(out, v.as_slice());
}

/// Returns the concatenation of `a` and `b`.
pub fn concat(a: &str, b: &str) -> (r: String)
    ensures
        r@ == a@ + b@,
{
    let mut out = chars_of(a);
    append_str(&mut out, b);
    string_of(out.as_slice())
}

/// The decimal digit of `n`, `0 <= n < 10`.
pub open spec fn decimal_digit(n: int) -> char {
    (48 + n) as char
}

/// The decimal text of `n`.
pub open spec fn decimal(n: nat) -> Seq<char>
    decreases n,
{
    if n < 10 {
        seq![decimal_digit(n as int)]
    } else {
        decimal(n / 10).push(decimal_digit((n % 10) as int))
    }
}

/// Returns the decimal text of `n`.
pub fn decimal_chars(n: usize) -> (r: Vec<char>)
    ensures
        r@ == decimal(n as nat),
    decreases n,
{
    let d = ((48 + (n % 10)) as u8) as char;
    if n < 10 {
        let mut v: Vec<char> = Vec::new();
        v.push(d);
        v
    } else {
        let mut v = decimal_chars(n / 10);
        v.push(d);
        v
    }
}

/// Returns whether two strings are equal.
pub fn str_eq(a: &str, b: &str) -> (r: bool)
    ensures
        r == (a@ == b@),
{
    let x = chars_of(a);
    let y = chars_of(b);
    chars_eq(x.as_slice(), y.as_slice())
}

/// The values of a list of strings.
pub open spec fn strings_view(v: Seq<String>) -> Seq<Seq<char>> {
    Seq::new(v.len(), |i: int| v[i]@)
}

/// Returns a copy of a list of strings.
pub fn copy_strings(v: &Vec<String>) -> (r: Vec<String>)
    ensures
        strings_view(r@) == strings_view(v@),
{
    let mut r: Vec<String> = Vec::new();
    let mut i: usize = 0;
    while i < v.len()
        invariant
            i <= v@.len(),
            strings_view(r@) == strings_view(v@).take(i as int),
        decreases v@.len() - i,
    {
        let ghost before = r@;
        r.push(v[i].clone());
        assert(strings_view(r@) =~= strings_view(before).push(v@[i as int]@));
        assert(strings_view(v@).take(i + 1) =~= strings_view(v@).take(i as int).push(v@[i as int]@));
        i += 1;
    }
    assert(strings_view(v@).take(v@.len() as int) =~= strings_view(v@));
    r
}

/// Returns whether a list of strings holds `s`.
pub fn strings_contain(v: &Vec<String>, s: &str) -> (r: bool)
    ensures
        r == strings_view(v@).contains(s@),
{
    let mut i: usize = 0;
    while i < v.len()
        invariant
            i <= v@.len(),
            forall|k: int| 0 <= k < i ==> strings_view(v@)[k] != s@,
        decreases v@.len() - i,
    {
        if str_eq(v[i].as_str(), s) {
            assert(strings_view(v@)[i as int] == s@);
            return true;
        }
        i += 1;
    }
    false
}

/// Whether `a` sorts before or equal to `b`: lexicographic order of code
/// points, which is the order of their UTF-8 bytes, with a prefix first.
pub open spec fn str_le(a: Seq<char>, b: Seq<char>) -> bool
    decreases a.len(),
{
    if a.len() == 0 {
        true
    } else if b.len() == 0 {
        false
    } else if a[0] != b[0] {
        (a[0] as u32) < (b[0] as u32)
    } else {
        str_le(a.skip(1), b.skip(1))
    }
}

/// `x` inserted into `t` before the first element it sorts before or equal
/// to.
pub open spec fn insert_sorted(t: Seq<Seq<char>>, x: Seq<char>) -> Seq<Seq<char>>
    decreases t.len(),
{
    if t.len() == 0 {
        seq![x]
    } else if str_le(x, t[0]) {
        seq![x] + t
    } else {
        seq![t[0]] + insert_sorted(t.skip(1), x)
    }
}

/// The strings of `s` in sorted order.
pub open spec fn sort_strs(s: Seq<Seq<char>>) -> Seq<Seq<char>>
    decreases s.len(),
{
    if s.len() == 0 {
        Seq::empty()
    } else {
        insert_sorted(sort_strs(s.drop_last()), s.last())
    }
}

/// Returns whether `a` sorts before or equal to `b`.
pub fn str_le_exec(a: &str, b: &str) -> (r: bool)
    ensures
        r == str_le(a@, b@),
{
    let x = chars_of(a);
    let y = chars_of(b);
    let mut i: usize = 0;
    assert(a@.skip(0) =~= a@);
    assert(b@.skip(0) =~= b@);
    while i < x.len() && i < y.len() && x[i] == y[i]
        invariant
            i <= x@.len(),
            i <= y@.len(),
            x@ == a@,
            y@ == b@,
            str_le(a@, b@) == str_le(a@.skip(i as int), b@.skip(i as int)),
        decreases x@.len() - i,
    {
        proof {
            let sa = a@.skip(i as int);
            let sb = b@.skip(i as int);
            assert(sa.skip(1) =~= a@.skip(i + 1));
            assert(sb.skip(1) =~= b@.skip(i + 1));
        }
        i += 1;
    }
    if i == x.len() {
        assert(a@.skip(i as int).len() == 0);
        true
    } else if i == y.len() {
        assert(b@.skip(i as int).len() == 0);
        false
    } else {
        assert(a@.skip(i as int)[0] == x@[i as int]);
        assert(b@.skip(i as int)[0] == y@[i as int]);
        (x[i] as u32) < (y[i] as u32)
    }
}

/// Inserting before the first element that `x` sorts before or equal to.
proof fn lemma_insert_sorted_at(t: Seq<Seq<char>>, x: Seq<char>, p: int)
    requires
        0 <= p <= t.len(),
        forall|k: int| 0 <= k < p ==> !str_le(x, #[trigger] t[k]),
        p < t.len() ==> str_le(x, t[p]),
    ensures
        insert_sorted(t, x) == t.insert(p, x),
    decreases p,
{
    if t.len() == 0 {
        assert(t.insert(p, x) =~= seq![x]);
    } else if p == 0 {
        assert(t.insert(0, x) =~= seq![x] + t);
    } else {
        assert forall|k: int| 0 <= k < p - 1 implies !str_le(x, #[trigger] t.skip(1)[k]) by {
            assert(t.skip(1)[k] == t[k + 1]);
        }
        if p - 1 < t.skip(1).len() {
            assert(t.skip(1)[p - 1] == t[p]);
        }
        lemma_insert_sorted_at(t.skip(1), x, p - 1);
        assert(seq![t[0]] + t.skip(1).insert(p - 1, x) =~= t.insert(p, x));
    }
}

/// Returns the strings of `v` in sorted order.
pub fn sorted_strings(v: &Vec<String>) -> (r: Vec<String>)
    ensures
        strings_view(r@) == sort_strs(strings_view(v@)),
{
    let ghost sv = strings_view(v@);
    let mut out: Vec<String> = Vec::new();
    let mut i: usize = 0;
    assert(strings_view(out@) =~= sort_strs(sv.take(0)));
    while i < v.len()
        invariant
            i <= v@.len(),
            sv == strings_view(v@),
            strings_view(out@) == sort_strs(sv.take(i as int)),
        decreases v@.len() - i,
    {
        let ghost ov = strings_view(out@);
        let mut p: usize = 0;
        while p < out.len() && !str_le_exec(v[i].as_str(), out[p].as_str())
            invariant
                p <= out@.len(),
                ov == strings_view(out@),
                i < v@.len(),
                forall|k: int| 0 <= k < p ==> !str_le(v@[i as int]@, #[trigger] ov[k]),
            decreases out@.len() - p,
        {
            p += 1;
        }
        proof {
            if p < out@.len() {
                assert(str_le(v@[i as int]@, ov[p as int]));
            }
            lemma_insert_sorted_at(ov, v@[i as int]@, p as int);
            assert(sv.take(i + 1).drop_last() =~= sv.take(i as int));
            assert(sv.take(i + 1).last() == v@[i as int]@);
        }
        out.insert(p, v[i].clone());
        assert(strings_view(out@) =~= ov.insert(p as int, v@[i as int]@));
        i += 1;
    }
    assert(sv.take(v@.len() as int) =~= sv);
    out
}

/// Returns the strings of `v` joined by `sep`.
pub fn join_strings(v: &Vec<String>, sep: &str) -> (r: String)
    ensures
        r@ == crate::encoding::join(strings_view(v@), sep@),
{
    let ghost items = strings_view(v@);
    let mut out: Vec<char> = Vec::new();
    let mut i: usize = 0;
    assert(out@ =~= crate::encoding::join(items.take(0), sep@));
    while i < v.len()
        invariant
            i <= v@.len(),
            items == strings_view(v@),
            out@ == crate::encoding::join(items.take(i as int), sep@),
        decreases v@.len() - i,
    {
        proof {
            crate::encoding::lemma_join_push(items, sep@, i as int);
        }
        if i > 0 {
            append_str(&mut out, sep);
        }
        append_str(&mut out, v[i].as_str());
        i += 1;
    }
    assert(items.take(v@.len() as int) =~= items);
    string_of(out.as_slice())
}

/// The decimal text of a number has at least one digit, and two from ten
/// on.
pub proof fn lemma_decimal_len(n: nat)
    ensures
        decimal(n).len() >= 1,
        n >= 10 ==> decimal(n).len() >= 2,
    decreases n,
{
    if n >= 10 {
        lemma_decimal_len(n / 10);
    }
}

/// Distinct numbers have distinct decimal texts.
pub proof fn lemma_decimal_injective(a: nat, b: nat)
    requires
        decimal(a) == decimal(b),
    ensures
        a == b,
    decreases a,
{
    lemma_decimal_len(a);
    lemma_decimal_len(b);
    if a < 10 && b < 10 {
        assert(decimal(a)[0] == decimal_digit(a as int));
        assert(decimal(b)[0] == decimal_digit(b as int));
    } else if a >= 10 && b >= 10 {
        let da = decimal(a);
        let db = decimal(b);
        assert(da.last() == decimal_digit((a % 10) as int));
        assert(db.last() == decimal_digit((b % 10) as int));
        assert(da.drop_last() =~= decimal(a / 10));
        assert(db.drop_last() =~= decimal(b / 10));
        lemma_decimal_injective(a / 10, b / 10);
    }
}

/// The name `base`, `_` and the decimal text of `i`.
pub open spec fn numbered(base: Seq<char>, i: nat) -> Seq<char> {
    base + "_"@ + decimal(i)
}

/// Distinct numbers give distinct numbered names.
pub proof fn lemma_numbered_injective(base: Seq<char>, i: nat, j: nat)
    requires
        numbered(base, i) == numbered(base, j),
    ensures
        i == j,
{
    let k = base.len() + "_"@.len();
    assert(numbered(base, i).skip(k as int) =~= decimal(i));
    assert(numbered(base, j).skip(k as int) =~= decimal(j));
    lemma_decimal_injective(i, j);
}

/// If `base` and the numbered names 1 to `m` are all taken, there are more
/// than `m` taken names.
pub proof fn lemma_numbered_pigeonhole(base: Seq<char>, taken: Seq<Seq<char>>, m: nat)
    requires
        taken.contains(base),
        forall|j: nat| 1 <= j <= m ==> taken.contains(#[trigger] numbered(base, j)),
    ensures
        m + 1 <= taken.len(),
{
    let cs = Seq::new(m + 1, |k: int| if k == 0 { base } else { numbered(base, k as nat) });
    assert(cs.no_duplicates()) by {
        assert forall|x: int, y: int| 0 <= x < cs.len() && 0 <= y < cs.len() && x != y implies cs[x] != cs[y] by {
            if cs[x] == cs[y] {
                if x == 0 {
                    assert(numbered(base, y as nat).len() > base.len());
                } else if y == 0 {
                    assert(numbered(base, x as nat).len() > base.len());
                } else {
                    lemma_numbered_injective(base, x as nat, y as nat);
                }
            }
        }
    }
    cs.unique_seq_to_set();
    assert(cs.to_set().subset_of(taken.to_set())) by {
        assert forall|c: Seq<char>| cs.to_set().contains(c) implies taken.to_set().contains(c) by {
            let k = choose|k: int| 0 <= k < cs.len() && cs[k] == c;
            if k > 0 {
                assert(taken.contains(numbered(base, k as nat)));
            }
        }
    }
    vstd::seq_lib::seq_to_set_is_finite(taken);
    vstd::set_lib::lemma_len_subset(cs.to_set(), taken.to_set());
    taken.lemma_cardinality_of_set();
}

/// The first number from `i` on whose numbered name is not taken.
pub open spec fn first_free(base: Seq<char>, taken: Seq<Seq<char>>, i: nat) -> nat
    decreases taken.len() + 2 - i,
{
    if i > taken.len() + 1 || !taken.contains(numbered(base, i)) {
        i
    } else {
        first_free(base, taken, i + 1)
    }
}

/// `base`, or where it is taken, the first numbered name from 1 on that is
/// not taken.
pub open spec fn unique_name_spec(base: Seq<char>, taken: Seq<Seq<char>>) -> Seq<char> {
    if !taken.contains(base) {
        base
    } else {
        numbered(base, first_free(base, taken, 1))
    }
}

/// The first free number is the one found by a search that skipped only
/// taken names.
proof fn lemma_first_free(base: Seq<char>, taken: Seq<Seq<char>>, i: nat, k: nat)
    requires
        1 <= i <= k <= taken.len() + 1,
        forall|j: nat| i <= j < k ==> taken.contains(#[trigger] numbered(base, j)),
        !taken.contains(numbered(base, k)),
    ensures
        first_free(base, taken, i) == k,
    decreases k - i,
{
    if i < k {
        lemma_first_free(base, taken, i + 1, k);
    }
}

/// The search for a free number, started after numbers that are all taken,
/// ends on a number whose name is free.
proof fn lemma_first_free_is_free(base: Seq<char>, taken: Seq<Seq<char>>, i: nat)
    requires
        1 <= i,
        taken.contains(base),
        forall|j: nat| 1 <= j < i ==> taken.contains(#[trigger] numbered(base, j)),
    ensures
        !taken.contains(numbered(base, first_free(base, taken, i))),
    decreases taken.len() + 2 - i,
{
    if i > taken.len() + 1 {
        lemma_numbered_pigeonhole(base, taken, (i - 1) as nat);
    } else if taken.contains(numbered(base, i)) {
        assert forall|j: nat| 1 <= j < i + 1 implies taken.contains(#[trigger] numbered(base, j)) by {
            if j < i {
            } else {
                assert(j == i);
            }
        }
        lemma_first_free_is_free(base, taken, i + 1);
    }
}

/// The name `unique_name` picks is never one of the taken names.
pub proof fn lemma_unique_name_fresh(base: Seq<char>, taken: Seq<Seq<char>>)
    ensures
        !taken.contains(unique_name_spec(base, taken)),
{
    if taken.contains(base) {
        lemma_first_free_is_free(base, taken, 1);
    }
}

/// Returns `base`, or where it is taken, the first numbered name from 1 on
/// that is not taken.
pub fn unique_name(base: String, taken: &Vec<String>) -> (r: String)
    ensures
        r@ == unique_name_spec(base@, strings_view(taken@)),
{
    let ghost tv = strings_view(taken@);
    let n = taken.len();
    if !strings_contain(taken, base.as_str()) {
        return base;
    }
    let mut i: usize = 1;
    loop
        invariant
            n == tv.len(),
            1 <= i <= tv.len(),
            tv == strings_view(taken@),
            tv.contains(base@),
            forall|j: nat| 1 <= j < i ==> tv.contains(#[trigger] numbered(base@, j)),
        decreases tv.len() + 1 - i,
    {
        let mut out: Vec<char> = Vec::new();
        append_str(&mut out, base.as_str());
        append_str(&mut out, "_");
        let d = decimal_chars(i);
        append_chars(&mut out, d.as_slice());
        assert(out@ =~= numbered(base@, i as nat));
        let candidate = string_of(out.as_slice());
        if !strings_contain(taken, candidate.as_str()) {
            proof {
                lemma_first_free(base@, tv, 1, i as nat);
            }
            return candidate;
        }
        proof {
            assert forall|j: nat| 1 <= j <= i implies tv.contains(#[trigger] numbered(base@, j)) by {
                if j < i {
                } else {
                    assert(j == i);
                }
            }
            lemma_numbered_pigeonhole(base@, tv, i as nat);
        }
        i += 1;
    }
}

} // verus!
