//! Lexical items of the `.wfg` language, over the characters of the input.

use vstd::prelude::*;

use crate::json_text::{json_is_valid, json_text_is_valid};
use crate::text::chars_of;
use crate::wfg_ast::{Rate, RateUnit};
use crate::wfg_grammar::{
    digit_run, digit_value, digits_value, duration_unit, ident_run, is_digit, is_ident_char,
    is_ident_start, is_space, json_scan, kw_at, lit_at, number_trunc,
    quoted_rest, sp_duration, sp_ident, sp_json, sp_number, sp_quoted, sp_rate, sp_uint, ws,
    ws_from,
};


verus! {

broadcast use vstd::string::group_string_axioms;

/// Appends one character (`String::push`).
#[verifier::external_body]
pub(crate) fn push_char(s: &mut String, c: char)
    ensures
        final(s)@ == old(s)@.push(c),
{
    s.push(c);
}

/// The input being parsed: its text and its characters.
pub struct Src<'a> {
    pub text: &'a str,
    pub chars: Vec<char>,
}

impl<'a> Src<'a> {
    pub open spec fn s(&self) -> Seq<char> {
        self.chars@
    }

    pub open spec fn wf(&self) -> bool {
        self.chars@ == self.text@
    }

    pub fn new(text: &'a str) -> (r: Src<'a>)
        ensures
            r.wf(),
            r.s() == text@,
    {
        Src { text, chars: chars_of(text) }
    }

    pub fn len(&self) -> (n: usize)
        ensures
            n == self.s().len(),
    {
        self.chars.len()
    }

    /// The characters from `a` to `b`, as a string.
    pub fn slice(&self, a: usize, b: usize) -> (r: String)
        requires
            self.wf(),
            a <= b <= self.s().len(),
        ensures
            r@ == self.s().subrange(a as int, b as int),
    {
        String::from_str(self.text.substring_char(a, b))
    }
}

pub fn is_space_char(c: char) -> (r: bool)
    ensures
        r == is_space(c),
{
    c == ' ' || c == '\t' || c == '\n' || c == '\r'
}

pub fn is_digit_char(c: char) -> (r: bool)
    ensures
        r == is_digit(c),
{
    '0' <= c && c <= '9'
}

pub fn is_ident_start_char(c: char) -> (r: bool)
    ensures
        r == is_ident_start(c),
{
    ('a' <= c && c <= 'z') || ('A' <= c && c <= 'Z') || c == '_'
}

pub fn is_ident_char_exec(c: char) -> (r: bool)
    ensures
        r == is_ident_char(c),
{
    is_ident_start_char(c) || is_digit_char(c)
}

/// Whether the literal `l` occurs at `p`.
pub fn at_lit(src: &Src, p: usize, l: &str) -> (r: bool)
    requires
        src.wf(),
        p <= src.s().len(),
    ensures
        r == lit_at(src.s(), p as int, l@),
{
    let lc = chars_of(l);
    let n = src.len();
    if lc.len() > n - p {
        return false;
    }
    let mut i: usize = 0;
    while i < lc.len()
        invariant
            src.wf(),
            lc@ == l@,
            n == src.s().len(),
            p + lc@.len() <= n,
            i <= lc@.len(),
            forall|j: int| 0 <= j < i ==> src.s()[p + j] == lc@[j],
        decreases lc.len() - i,
    {
        if src.chars[p + i] != lc[i] {
            assert(src.s().subrange(p as int, p + lc@.len())[i as int] != l@[i as int]);
            return false;
        }
        i = i + 1;
    }
    assert(src.s().subrange(p as int, p + lc@.len()) =~= l@);
    true
}

/// Whether the keyword `w` occurs at `p`.
pub fn at_kw(src: &Src, p: usize, w: &str) -> (r: bool)
    requires
        src.wf(),
        p <= src.s().len(),
    ensures
        r == kw_at(src.s(), p as int, w@),
        r ==> p + w@.len() <= src.s().len(),
{
    if !at_lit(src, p, w) {
        return false;
    }
    let n = src.len();
    let wl = w.unicode_len();
    assert(p + w@.len() <= src.s().len());
    let e = p + wl;
    if e < n && is_ident_char_exec(src.chars[e]) {
        return false;
    }
    true
}

/// Skip whitespace and line comments.
pub fn skip_ws(src: &Src, p: usize) -> (q: usize)
    requires
        src.wf(),
        p <= src.s().len(),
    ensures
        q == ws(src.s(), p as int),
        p <= q <= src.s().len(),
{
    let n = src.len();
    let mut i = p;
    let mut in_comment = false;
    while i < n
        invariant
            src.wf(),
            n == src.s().len(),
            p <= i <= n,
            ws_from(src.s(), i as int, in_comment) == ws(src.s(), p as int),
        decreases n - i,
    {
        let c = src.chars[i];
        if in_comment {
            if c == '\n' {
                in_comment = false;
            }
            i = i + 1;
        } else if is_space_char(c) {
            i = i + 1;
        } else if i + 1 < n && c == '/' && src.chars[i + 1] == '/' {
            in_comment = true;
            i = i + 2;
        } else {
            return i;
        }
    }
    i
}

/// The end of the run of identifier characters at `p`.
pub fn scan_ident_run(src: &Src, p: usize) -> (q: usize)
    requires
        src.wf(),
        p <= src.s().len(),
    ensures
        q == ident_run(src.s(), p as int),
        p <= q <= src.s().len(),
{
    let n = src.len();
    let mut i = p;
    while i < n && is_ident_char_exec(src.chars[i])
        invariant
            src.wf(),
            n == src.s().len(),
            p <= i <= n,
            ident_run(src.s(), i as int) == ident_run(src.s(), p as int),
        decreases n - i,
    {
        i = i + 1;
    }
    i
}

/// The end of the run of digits at `p`.
pub fn scan_digit_run(src: &Src, p: usize) -> (q: usize)
    requires
        src.wf(),
        p <= src.s().len(),
    ensures
        q == digit_run(src.s(), p as int),
        p <= q <= src.s().len(),
{
    let n = src.len();
    let mut i = p;
    while i < n && is_digit_char(src.chars[i])
        invariant
            src.wf(),
            n == src.s().len(),
            p <= i <= n,
            digit_run(src.s(), i as int) == digit_run(src.s(), p as int),
        decreases n - i,
    {
        i = i + 1;
    }
    i
}

/// An identifier at `p`.
pub fn lex_ident(src: &Src, p: usize) -> (r: Option<(String, usize)>)
    requires
        src.wf(),
        p <= src.s().len(),
    ensures
        match r {
            Some((v, q)) => sp_ident(src.s(), p as int) == Some((v@, q as int)) && p < q
                <= src.s().len(),
            None => sp_ident(src.s(), p as int) is None,
        },
{
    if p < src.len() && is_ident_start_char(src.chars[p]) {
        let e = scan_ident_run(src, p + 1);
        Some((src.slice(p, e), e))
    } else {
        None
    }
}

/// Digits are a prefix-monotone value: a longer digit string is worth at least as much.
pub proof fn lemma_digits_value_prefix(d: Seq<char>, k: int)
    requires
        0 <= k <= d.len(),
        forall|j: int| 0 <= j < d.len() ==> is_digit(#[trigger] d[j]),
    ensures
        digits_value(d.subrange(0, k)) <= digits_value(d),
    decreases d.len() - k,
{
    if k < d.len() {
        lemma_digits_value_prefix(d, k + 1);
        assert(d.subrange(0, k + 1).drop_last() =~= d.subrange(0, k));
    } else {
        assert(d.subrange(0, k) =~= d);
    }
}

/// The digits at `[p, i)` of `s` are all digits when `i` is within the run at `p`.
proof fn lemma_run_is_digits(s: Seq<char>, p: int, i: int)
    requires
        0 <= p <= i <= digit_run(s, p),
        digit_run(s, p) <= s.len(),
    ensures
        forall|j: int| p <= j < i ==> is_digit(#[trigger] s[j]),
    decreases i - p,
{
    if i > p {
        if p < s.len() && is_digit(s[p]) {
            lemma_run_is_digits(s, p + 1, i);
        }
    }
}

/// `digit_run` never moves backwards.
proof fn lemma_digit_run_ge(s: Seq<char>, p: int)
    requires
        0 <= p <= s.len(),
    ensures
        p <= digit_run(s, p) <= s.len(),
    decreases s.len() - p,
{
    if p < s.len() && is_digit(s[p]) {
        lemma_digit_run_ge(s, p + 1);
    }
}

/// The value of the digits `[p, d)`; `None` when it exceeds `u64::MAX`.
pub fn digits_u64(src: &Src, p: usize, d: usize) -> (r: Option<u64>)
    requires
        src.wf(),
        p <= d <= src.s().len(),
        forall|j: int| p <= j < d ==> is_digit(#[trigger] src.s()[j]),
    ensures
        match r {
            Some(v) => v == digits_value(src.s().subrange(p as int, d as int)),
            None => digits_value(src.s().subrange(p as int, d as int)) > u64::MAX,
        },
{
    let ghost ds = src.s().subrange(p as int, d as int);
    let mut acc: u64 = 0;
    let mut i = p;
    while i < d
        invariant
            src.wf(),
            p <= i <= d <= src.s().len(),
            ds == src.s().subrange(p as int, d as int),
            forall|j: int| p <= j < d ==> is_digit(#[trigger] src.s()[j]),
            acc == digits_value(src.s().subrange(p as int, i as int)),
        decreases d - i,
    {
        let c = src.chars[i];
        let dv = (c as u32 - '0' as u32) as u64;
        assert(src.s().subrange(p as int, i + 1).drop_last() =~= src.s().subrange(p as int, i as int));
        assert(dv == digit_value(src.s()[i as int])) by {
            assert(is_digit(src.s()[i as int]));
        }
        if acc > (u64::MAX - dv) / 10 {
            proof {
                assert(digits_value(src.s().subrange(p as int, i + 1)) == acc * 10 + dv);
                assert(acc * 10 + dv > u64::MAX) by (nonlinear_arith)
                    requires
                        acc > (u64::MAX - dv) / 10,
                        dv <= 9,
                ;
                assert forall|j: int| 0 <= j < ds.len() implies is_digit(#[trigger] ds[j]) by {
                    assert(ds[j] == src.s()[p + j]);
                }
                lemma_digits_value_prefix(ds, i + 1 - p);
                assert(ds.subrange(0, i + 1 - p) =~= src.s().subrange(p as int, i + 1));
            }
            return None;
        }
        acc = acc * 10 + dv;
        i = i + 1;
    }
    Some(acc)
}

/// A number literal at `p`.
pub fn lex_number(src: &Src, p: usize) -> (r: Option<(String, usize)>)
    requires
        src.wf(),
        p <= src.s().len(),
    ensures
        match r {
            Some((v, q)) => sp_number(src.s(), p as int) == Some((v@, q as int)) && p < q
                <= src.s().len(),
            None => sp_number(src.s(), p as int) is None,
        },
{
    let n = src.len();
    let q = if p < n && src.chars[p] == '-' { p + 1 } else { p };
    let d = scan_digit_run(src, q);
    if d == q {
        return None;
    }
    let e = if d < n && d + 1 < n && src.chars[d] == '.' && is_digit_char(src.chars[d + 1]) {
        scan_digit_run(src, d + 1)
    } else {
        d
    };
    Some((src.slice(p, e), e))
}

/// A non-negative integer at `p` that fits in 64 bits.
pub fn lex_uint(src: &Src, p: usize) -> (r: Option<(u64, usize)>)
    requires
        src.wf(),
        p <= src.s().len(),
    ensures
        match r {
            Some((v, q)) => sp_uint(src.s(), p as int) == Some((v, q as int)) && p < q
                <= src.s().len(),
            None => sp_uint(src.s(), p as int) is None,
        },
{
    let d = scan_digit_run(src, p);
    if d == p {
        return None;
    }
    proof {
        lemma_run_is_digits(src.s(), p as int, d as int);
    }
    match digits_u64(src, p, d) {
        Some(v) => Some((v, d)),
        None => None,
    }
}

/// A duration at `p`, in nanoseconds.
pub fn lex_duration(src: &Src, p: usize) -> (r: Option<(u64, usize)>)
    requires
        src.wf(),
        p <= src.s().len(),
    ensures
        match r {
            Some((v, q)) => sp_duration(src.s(), p as int) == Some((v, q as int)) && p < q
                <= src.s().len(),
            None => sp_duration(src.s(), p as int) is None,
        },
{
    let n = src.len();
    let d = scan_digit_run(src, p);
    if d == p {
        return None;
    }
    proof {
        lemma_run_is_digits(src.s(), p as int, d as int);
    }
    let ghost v = digits_value(src.s().subrange(p as int, d as int));
    proof {
        reveal_strlit("ms");
        reveal_strlit("s");
        reveal_strlit("m");
        reveal_strlit("h");
        reveal_strlit("d");
    }
    let unit: Option<(u64, usize)> = if at_lit(src, d, "ms") {
        Some((1_000_000, 2))
    } else if at_lit(src, d, "s") {
        Some((1_000_000_000, 1))
    } else if at_lit(src, d, "m") {
        Some((60_000_000_000, 1))
    } else if at_lit(src, d, "h") {
        Some((3_600_000_000_000, 1))
    } else if at_lit(src, d, "d") {
        Some((86_400_000_000_000, 1))
    } else {
        None
    };
    assert(match unit {
        Some((mult, len)) => duration_unit(src.s(), d as int) == Some((mult as nat, len as int))
            && d + len <= src.s().len() && mult >= 1,
        None => duration_unit(src.s(), d as int) is None,
    });
    match digits_u64(src, p, d) {
        None => {
            assert(v > u64::MAX);
            match unit {
                Some((mult, len)) => {
                    assert(v * mult >= v) by (nonlinear_arith)
                        requires
                            mult >= 1,
                    ;
                },
                None => {},
            }
            None
        },
        Some(val) => match unit {
            Some((mult, len)) => {
                if val > u64::MAX / mult {
                    assert(val * mult > u64::MAX) by (nonlinear_arith)
                        requires
                            val > u64::MAX / mult,
                            mult >= 1,
                    ;
                    None
                } else {
                    assert(val * mult <= u64::MAX) by (nonlinear_arith)
                        requires
                            val <= u64::MAX / mult,
                            mult >= 1,
                    ;
                    Some((val * mult, d + len))
                }
            },
            None => if val == 0 {
                Some((0, d))
            } else {
                None
            },
        },
    }
}

/// A double-quoted string at `p`.
pub fn lex_quoted(src: &Src, p: usize) -> (r: Option<(String, usize)>)
    requires
        src.wf(),
        p <= src.s().len(),
    ensures
        match r {
            Some((v, q)) => sp_quoted(src.s(), p as int) == Some((v@, q as int)) && p < q
                <= src.s().len(),
            None => sp_quoted(src.s(), p as int) is None,
        },
{
    let n = src.len();
    if !(p < n && src.chars[p] == '"') {
        return None;
    }
    let mut acc = String::new();
    let mut i = p + 1;
    while i < n
        invariant
            src.wf(),
            n == src.s().len(),
            p < i <= n,
            quoted_rest(src.s(), i as int, acc@) == sp_quoted(src.s(), p as int),
        decreases n - i,
    {
        let c = src.chars[i];
        if c == '"' {
            return Some((acc, i + 1));
        } else if c == '\\' {
            if i + 1 >= n {
                return None;
            }
            let e = src.chars[i + 1];
            let u = if e == 'n' {
                '\n'
            } else if e == 't' {
                '\t'
            } else if e == 'r' {
                '\r'
            } else {
                e
            };
            push_char(&mut acc, u);
            i = i + 2;
        } else {
            push_char(&mut acc, c);
            i = i + 1;
        }
    }
    None
}

/// A balanced, valid JSON container at `p`; its text.
pub fn lex_json(src: &Src, p: usize) -> (r: Option<(String, usize)>)
    requires
        src.wf(),
        p <= src.s().len(),
    ensures
        match r {
            Some((v, q)) => sp_json(src.s(), p as int) == Some((v@, q as int)) && p < q
                <= src.s().len(),
            None => sp_json(src.s(), p as int) is None,
        },
{
    let n = src.len();
    if !(p < n && (src.chars[p] == '{' || src.chars[p] == '[')) {
        return None;
    }
    let mut depth: usize = 0;
    let mut in_str = false;
    let mut escaped = false;
    let mut i = p;
    while i < n
        invariant
            src.wf(),
            n == src.s().len(),
            p <= i <= n,
            depth <= i - p,
            p < n,
            src.s()[p as int] == '{' || src.s()[p as int] == '[',
            !in_str ==> !escaped,
            json_scan(src.s(), i as int, depth as int, in_str, escaped) == json_scan(
                src.s(),
                p as int,
                0,
                false,
                false,
            ),
        decreases n - i,
    {
        let c = src.chars[i];
        if in_str {
            if escaped {
                escaped = false;
            } else if c == '\\' {
                escaped = true;
            } else if c == '"' {
                in_str = false;
            }
            i = i + 1;
        } else if c == '"' {
            in_str = true;
            i = i + 1;
        } else if c == '{' || c == '[' {
            depth = depth + 1;
            i = i + 1;
        } else if c == '}' || c == ']' {
            if depth == 1 {
                let end = i + 1;
                assert(json_scan(src.s(), i as int, depth as int, in_str, escaped) == Some(end as int));
                let text = src.slice(p, end);
                if json_is_valid(text.as_str()) {
                    return Some((text, end));
                } else {
                    return None;
                }
            } else if depth == 0 {
                return None;
            } else {
                depth = depth - 1;
                i = i + 1;
            }
        } else {
            i = i + 1;
        }
    }
    None
}

/// `n as u64` for a number literal.
pub fn number_truncate(t: &str) -> (r: u64)
    ensures
        r == number_trunc(t@),
{
    let src = Src::new(t);
    if src.len() > 0 && src.chars[0] == '-' {
        return 0;
    }
    let d = scan_digit_run(&src, 0);
    proof {
        lemma_run_is_digits(src.s(), 0, d as int);
    }
    match digits_u64(&src, 0, d) {
        Some(v) => v,
        None => u64::MAX,
    }
}

/// A rate at `p`.
pub fn lex_rate(src: &Src, p: usize) -> (r: Option<(Rate, usize)>)
    requires
        src.wf(),
        p <= src.s().len(),
    ensures
        match r {
            Some((v, q)) => sp_rate(src.s(), p as int) == Some((v@, q as int)) && p < q
                <= src.s().len(),
            None => sp_rate(src.s(), p as int) is None,
        },
{
    let n = src.len();
    let (t, q) = match lex_number(src, p) {
        Some(x) => x,
        None => return None,
    };
    if !at_lit(src, q, "/") {
        return None;
    }
    proof {
        reveal_strlit("/");
        reveal_strlit("s");
        reveal_strlit("m");
        reveal_strlit("h");
    }
    let unit = if at_lit(src, q + 1, "s") {
        RateUnit::PerSecond
    } else if at_lit(src, q + 1, "m") {
        RateUnit::PerMinute
    } else if at_lit(src, q + 1, "h") {
        RateUnit::PerHour
    } else {
        return None;
    };
    Some((Rate { count: number_truncate(t.as_str()), unit }, q + 2))
}

} // verus!
