//! Character-level helpers shared by the parsers of this crate.

use vstd::prelude::*;

verus! {

/// Appends one character to a `String` (`String::push`).
/// Claimed: the new text is the old text followed by `c`.
#[verifier::external_body]
pub(crate) fn push_char(s: &mut String, c: char)
    ensures
        final(s)@ == old(s)@.push(c),
{
    s.push(c);
}

/// The characters of `s`, in order.
pub fn chars_of(s: &str) -> (out: Vec<char>)
    ensures
        out@ == s@,
{
    let mut out: Vec<char> = Vec::new();
    for c in it: s.chars()
        invariant
            out@ == it.seq().take(it.index() as int),
            it.seq() == s@,
    {
        out.push(c);
    }
    out
}

/// A `String` holding the characters of `cs`, in order.
pub fn string_of(cs: &Vec<char>) -> (out: String)
    ensures
        out@ == cs@,
{
    let mut out = String::new();
    let mut i: usize = 0;
    while i < cs.len()
        invariant
            i <= cs.len(),
            out@ == cs@.take(i as int),
        decreases cs.len() - i,
    {
        push_char(&mut out, cs[i]);
        assert(cs@.take(i as int).push(cs@[i as int]) =~= cs@.take(i + 1));
        i = i + 1;
    }
    assert(cs@.take(cs.len() as int) =~= cs@);
    out
}

/// Unicode `White_Space`, the set `char::is_whitespace` tests.
pub open spec fn is_space(c: char) -> bool {
    ('\u{9}' <= c && c <= '\u{d}') || c == ' ' || c == '\u{85}' || c == '\u{a0}' || c == '\u{1680}'
        || ('\u{2000}' <= c && c <= '\u{200a}') || c == '\u{2028}' || c == '\u{2029}' || c
        == '\u{202f}' || c == '\u{205f}' || c == '\u{3000}'
}

/// Decides [`is_space`].
pub fn is_space_char(c: char) -> (r: bool)
    ensures
        r == is_space(c),
{
    ('\u{9}' <= c && c <= '\u{d}') || c == ' ' || c == '\u{85}' || c == '\u{a0}' || c == '\u{1680}'
        || ('\u{2000}' <= c && c <= '\u{200a}') || c == '\u{2028}' || c == '\u{2029}' || c
        == '\u{202f}' || c == '\u{205f}' || c == '\u{3000}'
}

/// The characters a trim removes: white space, or `/`.
pub open spec fn trimmed_char(c: char, slash: bool) -> bool {
    if slash {
        c == '/'
    } else {
        is_space(c)
    }
}

/// `s` without its leading trimmed characters.
pub open spec fn strip_start(s: Seq<char>, slash: bool) -> Seq<char>
    decreases s.len(),
{
    if s.len() > 0 && trimmed_char(s[0], slash) {
        strip_start(s.drop_first(), slash)
    } else {
        s
    }
}

/// `s` without its trailing trimmed characters.
pub open spec fn strip_end(s: Seq<char>, slash: bool) -> Seq<char>
    decreases s.len(),
{
    if s.len() > 0 && trimmed_char(s.last(), slash) {
        strip_end(s.drop_last(), slash)
    } else {
        s
    }
}

/// `str::trim` (`slash == false`) and `str::trim_matches('/')` (`slash == true`).
pub open spec fn strip(s: Seq<char>, slash: bool) -> Seq<char> {
    strip_end(strip_start(s, slash), slash)
}

/// `s` without leading and trailing white space, as `str::trim`.
pub open spec fn trim(s: Seq<char>) -> Seq<char> {
    strip(s, false)
}

proof fn lemma_strip_start_skip(s: Seq<char>, i: int, slash: bool)
    requires
        0 <= i < s.len(),
        trimmed_char(s[i], slash),
    ensures
        strip_start(s.skip(i), slash) == strip_start(s.skip(i + 1), slash),
{
    assert(s.skip(i).drop_first() =~= s.skip(i + 1));
}

proof fn lemma_strip_end_take(s: Seq<char>, j: int, slash: bool)
    requires
        0 < j <= s.len(),
        trimmed_char(s[j - 1], slash),
    ensures
        strip_end(s.take(j), slash) == strip_end(s.take(j - 1), slash),
{
    assert(s.take(j).drop_last() =~= s.take(j - 1));
}

fn is_trimmed(c: char, slash: bool) -> (r: bool)
    ensures
        r == trimmed_char(c, slash),
{
    if slash {
        c == '/'
    } else {
        is_space_char(c)
    }
}

/// Removes the leading and trailing trimmed characters of `cs`.
pub fn strip_chars(cs: &Vec<char>, slash: bool) -> (r: Vec<char>)
    ensures
        r@ == strip(cs@, slash),
{
    let n = cs.len();
    let mut i: usize = 0;
    assert(cs@.skip(0) =~= cs@);
    while i < n && is_trimmed(cs[i], slash)
        invariant
            i <= n == cs@.len(),
            strip_start(cs@, slash) == strip_start(cs@.skip(i as int), slash),
        decreases n - i,
    {
        proof {
            lemma_strip_start_skip(cs@, i as int, slash);
        }
        i = i + 1;
    }
    let ghost rest = cs@.skip(i as int);
    assert(strip_start(rest, slash) == rest) by {
        if rest.len() > 0 {
            assert(rest[0] == cs@[i as int]);
        }
    }
    let mut j: usize = n;
    assert(rest.take(j - i) =~= rest);
    while j > i && is_trimmed(cs[j - 1], slash)
        invariant
            i <= j <= n == cs@.len(),
            rest == cs@.skip(i as int),
            strip_end(rest, slash) == strip_end(rest.take(j - i), slash),
        decreases j,
    {
        proof {
            assert(rest.take(j - i)[j - i - 1] == cs@[j - 1]);
            lemma_strip_end_take(rest, j - i, slash);
        }
        j = j - 1;
    }
    let ghost kept = rest.take(j - i);
    assert(strip_end(kept, slash) == kept) by {
        if kept.len() > 0 {
            assert(kept.last() == cs@[j - 1]);
        }
    }
    let mut out: Vec<char> = Vec::new();
    let mut k: usize = i;
    while k < j
        invariant
            i <= k <= j <= n == cs@.len(),
            out@ == cs@.subrange(i as int, k as int),
        decreases j - k,
    {
        out.push(cs[k]);
        assert(cs@.subrange(i as int, k + 1) =~= cs@.subrange(i as int, k as int).push(cs@[k as int]));
        k = k + 1;
    }
    assert(out@ =~= kept);
    out
}

/// `cs` equals the text `lit`.
pub fn same_text(cs: &Vec<char>, lit: &str) -> (r: bool)
    ensures
        r == (cs@ == lit@),
{
    let ls = chars_of(lit);
    if cs.len() != ls.len() {
        return false;
    }
    let mut i: usize = 0;
    while i < cs.len()
        invariant
            i <= cs.len() == ls@.len(),
            ls@ == lit@,
            forall|k: int| 0 <= k < i ==> cs@[k] == ls@[k],
        decreases cs.len() - i,
    {
        if cs[i] != ls[i] {
            return false;
        }
        i = i + 1;
    }
    assert(cs@ =~= ls@);
    true
}

pub open spec fn is_ascii_digit(c: char) -> bool {
    '0' <= c && c <= '9'
}

/// The whole number written by the digits `s`, most significant first.
pub open spec fn decimal_value(s: Seq<char>) -> int
    decreases s.len(),
{
    if s.len() == 0 {
        0
    } else {
        decimal_value(s.drop_last()) * 10 + (s.last() as int - '0' as int)
    }
}

/// `s` after an optional leading `+`.
pub open spec fn unsigned_body(s: Seq<char>) -> Seq<char> {
    if s.len() > 0 && s[0] == '+' {
        s.drop_first()
    } else {
        s
    }
}

/// What `str::parse` gives for an unsigned integer type whose largest value
/// is `max`: an optional `+`, then one or more ASCII digits, with the value
/// at most `max`.
pub open spec fn spec_parse_unsigned(s: Seq<char>, max: int) -> Option<int> {
    let body = unsigned_body(s);
    if body.len() == 0 {
        None
    } else if exists|i: int| 0 <= i < body.len() && !is_ascii_digit(#[trigger] body[i]) {
        None
    } else if decimal_value(body) > max {
        None
    } else {
        Some(decimal_value(body))
    }
}

pub(crate) proof fn lemma_decimal_value_nonneg_monotone(s: Seq<char>, k: int)
    requires
        0 <= k <= s.len(),
        forall|i: int| 0 <= i < s.len() ==> is_ascii_digit(#[trigger] s[i]),
    ensures
        0 <= decimal_value(s.take(k)) <= decimal_value(s),
    decreases s.len(),
{
    if s.len() > 0 {
        if k == s.len() {
            assert(s.take(k) =~= s);
            lemma_decimal_value_nonneg_monotone(s.drop_last(), s.len() - 1);
            assert(s.drop_last().take(s.len() - 1) =~= s.drop_last());
        } else {
            lemma_decimal_value_nonneg_monotone(s.drop_last(), k);
            assert(s.drop_last().take(k) =~= s.take(k));
            lemma_decimal_value_nonneg_monotone(s.drop_last(), s.len() - 1);
            assert(s.drop_last().take(s.len() - 1) =~= s.drop_last());
            let v = decimal_value(s.drop_last());
            assert(v * 10 >= v) by (nonlinear_arith)
                requires
                    v >= 0,
            ;
        }
    }
}

/// `str::parse::<u64>` on `s`.
pub fn parse_u64_text(s: &str) -> (r: Option<u64>)
    ensures
        r matches Some(v) ==> spec_parse_unsigned(s@, u64::MAX as int) == Some(v as int),
        r is None ==> spec_parse_unsigned(s@, u64::MAX as int) is None,
{
    let cs = chars_of(s);
    let start: usize = if cs.len() > 0 && cs[0] == '+' {
        1
    } else {
        0
    };
    let ghost body = unsigned_body(s@);
    assert(body =~= cs@.skip(start as int));
    if start == cs.len() {
        return None;
    }
    let mut value: u64 = 0;
    let mut i: usize = start;
    while i < cs.len()
        invariant
            start <= i <= cs.len(),
            cs@ == s@,
            body == cs@.skip(start as int),
            body == unsigned_body(s@),
            body.len() > 0,
            forall|k: int| 0 <= k < i - start ==> is_ascii_digit(#[trigger] body[k]),
            value == decimal_value(body.take(i - start)),
        decreases cs.len() - i,
    {
        let c = cs[i];
        assert(body[i - start] == c);
        if !('0' <= c && c <= '9') {
            assert(!is_ascii_digit(body[i - start]));
            return None;
        }
        let d = (c as u32 - '0' as u32) as u64;
        assert(body.take(i + 1 - start).drop_last() =~= body.take(i - start));
        match value.checked_mul(10) {
            Some(t) => match t.checked_add(d) {
                Some(v) => {
                    value = v;
                },
                None => {
                    proof {
                        lemma_digits_overflow(body, i + 1 - start);
                    }
                    return None;
                },
            },
            None => {
                proof {
                    lemma_digits_overflow(body, i + 1 - start);
                }
                return None;
            },
        }
        i = i + 1;
    }
    assert(body.take(cs.len() - start) =~= body);
    Some(value)
}

/// Once a prefix of the digits exceeds `u64::MAX` the whole digit string
/// does, or it is not all digits.
proof fn lemma_digits_overflow(body: Seq<char>, k: int)
    requires
        0 < k <= body.len(),
        forall|i: int| 0 <= i < k ==> is_ascii_digit(#[trigger] body[i]),
        decimal_value(body.take(k)) > u64::MAX,
    ensures
        spec_parse_unsigned_body_fails(body),
{
    if forall|i: int| 0 <= i < body.len() ==> is_ascii_digit(#[trigger] body[i]) {
        lemma_decimal_value_nonneg_monotone(body, k);
    }
}

pub open spec fn spec_parse_unsigned_body_fails(body: Seq<char>) -> bool {
    (exists|i: int| 0 <= i < body.len() && !is_ascii_digit(#[trigger] body[i])) || decimal_value(
        body,
    ) > u64::MAX
}

} // verus!
