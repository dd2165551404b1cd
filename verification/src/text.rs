//! Small character and string utilities shared by the whole crate.

use vstd::prelude::*;

verus! {

broadcast use vstd::string::group_string_axioms;

/// The characters of `s`, in order.
pub fn chars_of(s: &str) -> (v: Vec<char>)
    ensures
        v@ == s@,
{
    let mut v: Vec<char> = Vec::new();
    for c in it: s.chars()
        invariant
            v@ == it.seq().take(it.index() as int),
            it.seq() == s@,
    {
        v.push(c);
    }
    v
}

/// Whether two character sequences are equal.
pub fn chars_eq(a: &[char], b: &[char]) -> (r: bool)
    ensures
        r == (a@ == b@),
{
    if a.len() != b.len() {
        return false;
    }
    let mut i: usize = 0;
    while i < a.len()
        invariant
            a@.len() == b@.len(),
            i <= a@.len(),
            forall|j: int| 0 <= j < i ==> a@[j] == b@[j],
        decreases a.len() - i,
    {
        if a[i] != b[i] {
            return false;
        }
        i = i + 1;
    }
    assert(a@ =~= b@);
    true
}

/// Whether `s` spells exactly `lit`.
pub fn str_is(s: &str, lit: &str) -> (r: bool)
    ensures
        r == (s@ == lit@),
{
    let a = chars_of(s);
    let b = chars_of(lit);
    chars_eq(a.as_slice(), b.as_slice())
}

/// A decimal digit character.
pub open spec fn digit_char(d: nat) -> char {
    (('0' as u32) + d) as char
}

/// The decimal text of `n`.
pub open spec fn dec_text(n: nat) -> Seq<char>
    decreases n,
{
    if n < 10 {
        seq![digit_char(n)]
    } else {
        dec_text(n / 10).push(digit_char(n % 10))
    }
}

/// The character of a decimal digit.
pub fn decimal_digit(d: u64) -> (c: char)
    requires
        d < 10,
    ensures
        c == digit_char(d as nat),
{
    digit_of(d)
}

fn digit_of(d: u64) -> (c: char)
    requires
        d < 10,
    ensures
        c == digit_char(d as nat),
{
    let b = d as u8;
    (48u8 + b) as char
}

/// Appends the decimal text of `n`.
pub fn push_decimal(out: &mut String, n: u64)
    ensures
        final(out)@ == old(out)@ + dec_text(n as nat),
    decreases n,
{
    if n >= 10 {
        push_decimal(out, n / 10);
    }
    crate::wfg_lexer::push_char(out, digit_of(n % 10));
    assert(final(out)@ =~= old(out)@ + dec_text(n as nat));
}

/// The decimal text of `n`.
pub fn decimal(n: u64) -> (r: String)
    ensures
        r@ == dec_text(n as nat),
{
    let mut out = String::new();
    push_decimal(&mut out, n);
    assert(out@ =~= dec_text(n as nat));
    out
}

/// The fraction digits of `f / (10 * div)`, trailing zeros left out.
pub open spec fn frac_digits(f: nat, div: nat) -> Seq<char>
    decreases div,
{
    if f == 0 || div == 0 {
        Seq::empty()
    } else {
        seq![digit_char(f / div)] + frac_digits(f % div, div / 10)
    }
}

/// `.` and the fraction digits, when there is a fraction.
pub open spec fn frac_text(f: nat, div: nat) -> Seq<char> {
    if f == 0 {
        Seq::empty()
    } else {
        seq!['.'] + frac_digits(f, div)
    }
}

/// How `{:?}` writes a `Duration` of `ns` nanoseconds (`7200s`, `1.5s`, `250ms`).
pub open spec fn duration_text(ns: u64) -> Seq<char> {
    let secs = ns / 1_000_000_000;
    let nanos = ns % 1_000_000_000;
    if secs > 0 {
        dec_text(secs as nat) + frac_text(nanos as nat, 100_000_000) + seq!['s']
    } else if nanos >= 1_000_000 {
        dec_text((nanos / 1_000_000) as nat) + frac_text((nanos % 1_000_000) as nat, 100_000) + seq!['m', 's']
    } else if nanos >= 1000 {
        dec_text((nanos / 1000) as nat) + frac_text((nanos % 1000) as nat, 100) + seq!['\u{b5}', 's']
    } else {
        dec_text(nanos as nat) + seq!['n', 's']
    }
}

/// A power of ten up to 10^8.
pub open spec fn small_pow10(d: u64) -> bool {
    d == 1 || d == 10 || d == 100 || d == 1000 || d == 10_000 || d == 100_000 || d == 1_000_000
        || d == 10_000_000 || d == 100_000_000
}

fn push_frac_digits(out: &mut String, f: u64, div: u64)
    requires
        f < div * 10 || div == 0,
        div == 0 || small_pow10(div),
    ensures
        final(out)@ == old(out)@ + frac_digits(f as nat, div as nat),
    decreases div,
{
    if f == 0 || div == 0 {
        assert(final(out)@ =~= old(out)@ + frac_digits(f as nat, div as nat));
        return;
    }
    assert(f / div < 10) by (nonlinear_arith)
        requires
            f < div * 10,
            div > 0,
    ;
    crate::wfg_lexer::push_char(out, digit_of(f / div));
    assert(f % div < div) by (nonlinear_arith)
        requires
            div > 0,
    ;
    push_frac_digits(out, f % div, div / 10);
    assert(final(out)@ =~= old(out)@ + frac_digits(f as nat, div as nat));
}

fn push_frac(out: &mut String, f: u64, div: u64)
    requires
        f < div * 10,
        small_pow10(div),
    ensures
        final(out)@ == old(out)@ + frac_text(f as nat, div as nat),
{
    if f > 0 {
        crate::wfg_lexer::push_char(out, '.');
        push_frac_digits(out, f, div);
    }
    assert(final(out)@ =~= old(out)@ + frac_text(f as nat, div as nat));
}

/// Appends how `{:?}` writes a `Duration` of `ns` nanoseconds.
pub fn push_duration(out: &mut String, ns: u64)
    ensures
        final(out)@ == old(out)@ + duration_text(ns),
{
    let secs = ns / 1_000_000_000;
    let nanos = ns % 1_000_000_000;
    if secs > 0 {
        push_decimal(out, secs);
        push_frac(out, nanos, 100_000_000);
        crate::wfg_lexer::push_char(out, 's');
    } else if nanos >= 1_000_000 {
        push_decimal(out, nanos / 1_000_000);
        push_frac(out, nanos % 1_000_000, 100_000);
        crate::wfg_lexer::push_char(out, 'm');
        crate::wfg_lexer::push_char(out, 's');
    } else if nanos >= 1000 {
        push_decimal(out, nanos / 1000);
        push_frac(out, nanos % 1000, 100);
        crate::wfg_lexer::push_char(out, '\u{b5}');
        crate::wfg_lexer::push_char(out, 's');
    } else {
        push_decimal(out, nanos);
        crate::wfg_lexer::push_char(out, 'n');
        crate::wfg_lexer::push_char(out, 's');
    }
    assert(final(out)@ =~= old(out)@ + duration_text(ns));
}

/// A Unicode `White_Space` character (what `str::trim` removes).
pub open spec fn is_white(c: char) -> bool {
    c == ' ' || ('\t' <= c && c <= '\r') || c == '\u{85}' || c == '\u{a0}' || c == '\u{1680}' || (
    '\u{2000}' <= c && c <= '\u{200a}') || c == '\u{2028}' || c == '\u{2029}' || c == '\u{202f}'
        || c == '\u{205f}' || c == '\u{3000}'
}

pub open spec fn trim_start(s: Seq<char>) -> Seq<char>
    decreases s.len(),
{
    if s.len() > 0 && is_white(s[0]) {
        trim_start(s.drop_first())
    } else {
        s
    }
}

pub open spec fn trim_end(s: Seq<char>) -> Seq<char>
    decreases s.len(),
{
    if s.len() > 0 && is_white(s.last()) {
        trim_end(s.drop_last())
    } else {
        s
    }
}

/// `s` without leading and trailing white space.
pub open spec fn trimmed(s: Seq<char>) -> Seq<char> {
    trim_end(trim_start(s))
}

fn is_white_char(c: char) -> (r: bool)
    ensures
        r == is_white(c),
{
    c == ' ' || ('\t' <= c && c <= '\r') || c == '\u{85}' || c == '\u{a0}' || c == '\u{1680}' || (
    '\u{2000}' <= c && c <= '\u{200a}') || c == '\u{2028}' || c == '\u{2029}' || c == '\u{202f}'
        || c == '\u{205f}' || c == '\u{3000}'
}

/// `s` without leading and trailing white space (`str::trim`).
pub fn trim_text(s: &str) -> (r: String)
    ensures
        r@ == trimmed(s@),
{
    let n = s.unicode_len();
    let mut a: usize = 0;
    assert(s@.subrange(0, n as int) =~= s@);
    while a < n && is_white_char(s.get_char(a))
        invariant
            n == s@.len(),
            a <= n,
            trim_start(s@) == trim_start(s@.subrange(a as int, n as int)),
        decreases n - a,
    {
        assert(s@.subrange(a as int, n as int).drop_first() =~= s@.subrange(a as int + 1, n as int));
        a = a + 1;
    }
    assert(trim_start(s@) == s@.subrange(a as int, n as int)) by {
        if a < n {
            assert(s@.subrange(a as int, n as int)[0] == s@[a as int]);
        }
    }
    let mut b: usize = n;
    while b > a && is_white_char(s.get_char(b - 1))
        invariant
            n == s@.len(),
            a <= b <= n,
            trim_end(s@.subrange(a as int, n as int)) == trim_end(s@.subrange(a as int, b as int)),
        decreases b - a,
    {
        assert(s@.subrange(a as int, b as int).drop_last() =~= s@.subrange(a as int, b as int - 1));
        b = b - 1;
    }
    String::from_str(s.substring_char(a, b))
}

} // verus!
