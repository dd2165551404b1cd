//! The `.wfg` grammar as functions over the input characters.
//!
//! Every function takes the input `s` and a position `p` and says what the
//! parser reads there: a value and the position after it, or a failure.
//! Lexical items give `Option` (they never commit); productions give `Result`
//! with a [`PErr`].

use vstd::prelude::*;

use crate::wfg_ast::{RateUnit, WaveShape, InjectCaseMode};
use crate::json_text::json_text_is_valid;
use crate::wfg_model as m;
use crate::wfg_parse_error::{Expected, PErr, backtrack, commit, cut_plain, cut_with, expected_text};

verus! {

/// A production's outcome: the value and the position after it.
pub type PRes<T> = Result<(T, int), PErr>;

// ---------------------------------------------------------------------------
// Characters
// ---------------------------------------------------------------------------

pub open spec fn is_space(c: char) -> bool {
    c == ' ' || c == '\t' || c == '\n' || c == '\r'
}

pub open spec fn is_digit(c: char) -> bool {
    '0' <= c && c <= '9'
}

pub open spec fn is_ident_start(c: char) -> bool {
    ('a' <= c && c <= 'z') || ('A' <= c && c <= 'Z') || c == '_'
}

pub open spec fn is_ident_char(c: char) -> bool {
    is_ident_start(c) || is_digit(c)
}

pub open spec fn is_ascii_alpha(c: char) -> bool {
    ('a' <= c && c <= 'z') || ('A' <= c && c <= 'Z')
}

/// The value of a decimal digit.
pub open spec fn digit_value(c: char) -> nat {
    ((c as u32) - ('0' as u32)) as nat
}

/// The value of a string of decimal digits.
pub open spec fn digits_value(d: Seq<char>) -> nat
    decreases d.len(),
{
    if d.len() == 0 {
        0
    } else {
        digits_value(d.drop_last()) * 10 + digit_value(d.last())
    }
}

// ---------------------------------------------------------------------------
// Lexical items
// ---------------------------------------------------------------------------

/// `l` occurs in `s` at `p`.
pub open spec fn lit_at(s: Seq<char>, p: int, l: Seq<char>) -> bool {
    0 <= p && p + l.len() <= s.len() && s.subrange(p, p + l.len()) == l
}

/// The keyword `w` occurs at `p`, not followed by an identifier character.
pub open spec fn kw_at(s: Seq<char>, p: int, w: Seq<char>) -> bool {
    lit_at(s, p, w) && !(p + w.len() < s.len() && is_ident_char(s[p + w.len()]))
}

/// Skip whitespace and `// ...` line comments (`in_comment`: inside a comment).
pub open spec fn ws_from(s: Seq<char>, p: int, in_comment: bool) -> int
    decreases s.len() - p,
{
    if p < 0 || p >= s.len() {
        p
    } else if in_comment {
        if s[p] == '\n' {
            ws_from(s, p + 1, false)
        } else {
            ws_from(s, p + 1, true)
        }
    } else if is_space(s[p]) {
        ws_from(s, p + 1, false)
    } else if p + 1 < s.len() && s[p] == '/' && s[p + 1] == '/' {
        ws_from(s, p + 2, true)
    } else {
        p
    }
}

/// The position after the whitespace and comments at `p`.
pub open spec fn ws(s: Seq<char>, p: int) -> int {
    ws_from(s, p, false)
}

/// The end of the run of identifier characters at `p`.
pub open spec fn ident_run(s: Seq<char>, p: int) -> int
    decreases s.len() - p,
{
    if 0 <= p < s.len() && is_ident_char(s[p]) {
        ident_run(s, p + 1)
    } else {
        p
    }
}

/// The end of the run of digits at `p`.
pub open spec fn digit_run(s: Seq<char>, p: int) -> int
    decreases s.len() - p,
{
    if 0 <= p < s.len() && is_digit(s[p]) {
        digit_run(s, p + 1)
    } else {
        p
    }
}

/// An identifier: a letter or `_`, then letters, digits and `_`.
pub open spec fn sp_ident(s: Seq<char>, p: int) -> Option<(Seq<char>, int)> {
    if 0 <= p < s.len() && is_ident_start(s[p]) {
        let e = ident_run(s, p + 1);
        Some((s.subrange(p, e), e))
    } else {
        None
    }
}

/// A number literal: `-`? digits (`.` digits)?, as written.
pub open spec fn sp_number(s: Seq<char>, p: int) -> Option<(Seq<char>, int)> {
    let q = if 0 <= p < s.len() && s[p] == '-' { p + 1 } else { p };
    let d = digit_run(s, q);
    if p < 0 || d == q {
        None
    } else {
        let e = if d + 1 < s.len() && s[d] == '.' && is_digit(s[d + 1]) {
            digit_run(s, d + 1)
        } else {
            d
        };
        Some((s.subrange(p, e), e))
    }
}

/// A non-negative integer that fits in 64 bits.
pub open spec fn sp_uint(s: Seq<char>, p: int) -> Option<(u64, int)> {
    let d = digit_run(s, p);
    if p < 0 || d == p || digits_value(s.subrange(p, d)) > u64::MAX {
        None
    } else {
        Some((digits_value(s.subrange(p, d)) as u64, d))
    }
}

/// Nanoseconds per unit and the unit's length, for the unit at `p`.
pub open spec fn duration_unit(s: Seq<char>, p: int) -> Option<(nat, int)> {
    if lit_at(s, p, "ms"@) {
        Some((1_000_000, 2))
    } else if lit_at(s, p, "s"@) {
        Some((1_000_000_000, 1))
    } else if lit_at(s, p, "m"@) {
        Some((60_000_000_000, 1))
    } else if lit_at(s, p, "h"@) {
        Some((3_600_000_000_000, 1))
    } else if lit_at(s, p, "d"@) {
        Some((86_400_000_000_000, 1))
    } else {
        None
    }
}

/// A duration: digits and a unit (`ms`, `s`, `m`, `h`, `d`), or a bare zero;
/// in nanoseconds, which must fit in 64 bits.
pub open spec fn sp_duration(s: Seq<char>, p: int) -> Option<(u64, int)> {
    let d = digit_run(s, p);
    let v = digits_value(s.subrange(p, d));
    if p < 0 || d == p {
        None
    } else {
        match duration_unit(s, d) {
            Some((mult, len)) => if v * mult <= u64::MAX {
                Some(((v * mult) as u64, d + len))
            } else {
                None
            },
            None => if v == 0 {
                Some((0, d))
            } else {
                None
            },
        }
    }
}

/// A run of digits followed by `d` is that many days: 24 hours of 60 minutes
/// of 60 seconds of 10^9 nanoseconds each (when the total fits in 64 bits).
pub proof fn lemma_days_are_24_hours(s: Seq<char>, p: int)
    requires
        0 <= p,
        digit_run(s, p) > p,
        digit_run(s, p) < s.len(),
        s[digit_run(s, p)] == 'd',
    ensures
        ({
            let d = digit_run(s, p);
            let v = digits_value(s.subrange(p, d));
            let ns: nat = v * 24 * 60 * 60 * 1_000_000_000;
            &&& ns <= u64::MAX ==> sp_duration(s, p) == Some((ns as u64, d + 1))
            &&& ns > u64::MAX ==> sp_duration(s, p) is None
        }),
{
    let d = digit_run(s, p);
    let v = digits_value(s.subrange(p, d));
    reveal_strlit("ms");
    reveal_strlit("s");
    reveal_strlit("m");
    reveal_strlit("h");
    reveal_strlit("d");
    assert(!lit_at(s, d, "ms"@)) by {
        if lit_at(s, d, "ms"@) {
            assert(s.subrange(d, d + 2)[0] == s[d]);
        }
    }
    assert(!lit_at(s, d, "s"@)) by {
        if lit_at(s, d, "s"@) {
            assert(s.subrange(d, d + 1)[0] == s[d]);
        }
    }
    assert(!lit_at(s, d, "m"@)) by {
        if lit_at(s, d, "m"@) {
            assert(s.subrange(d, d + 1)[0] == s[d]);
        }
    }
    assert(!lit_at(s, d, "h"@)) by {
        if lit_at(s, d, "h"@) {
            assert(s.subrange(d, d + 1)[0] == s[d]);
        }
    }
    assert(lit_at(s, d, "d"@)) by {
        assert(s.subrange(d, d + 1) =~= "d"@);
    }
    assert(v * 24 * 60 * 60 * 1_000_000_000 == v * 86_400_000_000_000) by (nonlinear_arith);
}

/// The character an escape `\c` stands for.
pub open spec fn unescape(c: char) -> char {
    if c == 'n' {
        '\n'
    } else if c == 't' {
        '\t'
    } else if c == 'r' {
        '\r'
    } else {
        c
    }
}

/// The rest of a quoted string from `p` (after the opening quote); `acc` holds
/// what was read so far.
pub open spec fn quoted_rest(s: Seq<char>, p: int, acc: Seq<char>) -> Option<(Seq<char>, int)>
    decreases s.len() - p,
{
    if p < 0 || p >= s.len() {
        None
    } else if s[p] == '"' {
        Some((acc, p + 1))
    } else if s[p] == '\\' {
        if p + 1 >= s.len() {
            None
        } else {
            quoted_rest(s, p + 2, acc.push(unescape(s[p + 1])))
        }
    } else {
        quoted_rest(s, p + 1, acc.push(s[p]))
    }
}

/// A double-quoted string with `\` escapes; its content.
pub open spec fn sp_quoted(s: Seq<char>, p: int) -> Option<(Seq<char>, int)> {
    if 0 <= p < s.len() && s[p] == '"' {
        quoted_rest(s, p + 1, Seq::empty())
    } else {
        None
    }
}

/// The end of the balanced JSON container whose scan is at `i` (string and
/// escape state given), or `None` if it never closes.
pub open spec fn json_scan(s: Seq<char>, i: int, depth: int, in_str: bool, escaped: bool) -> Option<int>
    decreases s.len() - i,
{
    if i < 0 || i >= s.len() {
        None
    } else if in_str {
        if escaped {
            json_scan(s, i + 1, depth, true, false)
        } else if s[i] == '\\' {
            json_scan(s, i + 1, depth, true, true)
        } else if s[i] == '"' {
            json_scan(s, i + 1, depth, false, false)
        } else {
            json_scan(s, i + 1, depth, true, false)
        }
    } else if s[i] == '"' {
        json_scan(s, i + 1, depth, true, false)
    } else if s[i] == '{' || s[i] == '[' {
        json_scan(s, i + 1, depth + 1, false, false)
    } else if s[i] == '}' || s[i] == ']' {
        if depth - 1 == 0 {
            Some(i + 1)
        } else if depth - 1 < 0 {
            None
        } else {
            json_scan(s, i + 1, depth - 1, false, false)
        }
    } else {
        json_scan(s, i + 1, depth, false, false)
    }
}

/// A balanced JSON container (`{...}` or `[...]`) that is valid JSON; its text.
pub open spec fn sp_json(s: Seq<char>, p: int) -> Option<(Seq<char>, int)> {
    if 0 <= p < s.len() && (s[p] == '{' || s[p] == '[') {
        match json_scan(s, p, 0, false, false) {
            Some(e) => if json_text_is_valid(s.subrange(p, e)) {
                Some((s.subrange(p, e), e))
            } else {
                None
            },
            None => None,
        }
    } else {
        None
    }
}

/// `n as u64` for a number literal: the integer part, 0 when negative, at most `u64::MAX`.
pub open spec fn number_trunc(t: Seq<char>) -> u64 {
    if t.len() > 0 && t[0] == '-' {
        0
    } else {
        let v = digits_value(t.subrange(0, digit_run(t, 0)));
        if v > u64::MAX { u64::MAX } else { v as u64 }
    }
}

/// The unit letter of a rate.
pub open spec fn rate_unit_at(s: Seq<char>, p: int) -> Option<RateUnit> {
    if lit_at(s, p, "s"@) {
        Some(RateUnit::PerSecond)
    } else if lit_at(s, p, "m"@) {
        Some(RateUnit::PerMinute)
    } else if lit_at(s, p, "h"@) {
        Some(RateUnit::PerHour)
    } else {
        None
    }
}

/// A rate: NUMBER `/` (`s` | `m` | `h`); the count is the number truncated.
pub open spec fn sp_rate(s: Seq<char>, p: int) -> Option<(m::Rate, int)> {
    match sp_number(s, p) {
        Some((t, q)) => if lit_at(s, q, "/"@) {
            match rate_unit_at(s, q + 1) {
                Some(u) => Some((m::Rate { count: number_trunc(t), unit: u }, q + 2)),
                None => None,
            }
        } else {
            None
        },
        None => None,
    }
}


// ---------------------------------------------------------------------------
// Helpers for productions
// ---------------------------------------------------------------------------

/// `cut_err(literal(l))` at `p`, naming `e` when it fails.
pub open spec fn expect_lit(s: Seq<char>, p: int, l: Seq<char>, e: Option<Expected>) -> Result<int, PErr> {
    if lit_at(s, p, l) {
        Ok(p + l.len())
    } else {
        Err(commit(backtrack(), e))
    }
}

/// `cut_err(kw(w))` at `p`, naming `e` when it fails.
pub open spec fn expect_kw(s: Seq<char>, p: int, w: Seq<char>, e: Option<Expected>) -> Result<int, PErr> {
    if kw_at(s, p, w) {
        Ok(p + w.len())
    } else {
        Err(commit(backtrack(), e))
    }
}

/// `cut_err(item)`: a lexical item that must be there.
pub open spec fn require<T>(o: Option<(T, int)>, e: Option<Expected>) -> PRes<T> {
    match o {
        Some(x) => Ok(x),
        None => Err(commit(backtrack(), e)),
    }
}

/// `opt(literal(";"))`
pub open spec fn semi(s: Seq<char>, p: int) -> int {
    if lit_at(s, p, ";"@) {
        p + 1
    } else {
        p
    }
}

/// `opt(kw("then"))`
pub open spec fn then_opt(s: Seq<char>, p: int) -> int {
    if kw_at(s, p, "then"@) {
        p + 4
    } else {
        p
    }
}

// ---------------------------------------------------------------------------
// Values, annotations, predicates
// ---------------------------------------------------------------------------

/// Some character of `t` is an ASCII letter.
pub open spec fn has_ascii_alpha(t: Seq<char>) -> bool {
    exists|i: int| 0 <= i < t.len() && is_ascii_alpha(#[trigger] t[i])
}

/// The value a bare word stands for.
pub open spec fn word_value(w: Seq<char>) -> m::AttrValue {
    if w == "true"@ {
        m::AttrValue::Bool(true)
    } else if w == "false"@ {
        m::AttrValue::Bool(false)
    } else if w == "null"@ {
        m::AttrValue::Json("null"@)
    } else {
        m::AttrValue::String(w)
    }
}

/// A duration whose text holds a letter (a unit): a bare `0` does not count.
pub open spec fn duration_with_unit(s: Seq<char>, p: int) -> Option<(u64, int)> {
    match sp_duration(s, p) {
        Some((d, q)) => if has_ascii_alpha(s.subrange(p, q)) {
            Some((d, q))
        } else {
            None
        },
        None => None,
    }
}

/// An annotation or predicate value: JSON container, quoted string, duration
/// with a unit, number, or bare word.
pub open spec fn sp_attr_value(s: Seq<char>, p: int) -> PRes<m::AttrValue> {
    if 0 <= p < s.len() && (s[p] == '{' || s[p] == '[') {
        match sp_json(s, p) {
            Some((t, q)) => Ok((m::AttrValue::Json(t), q)),
            None => Err(backtrack()),
        }
    } else {
        match sp_quoted(s, p) {
            Some((t, q)) => Ok((m::AttrValue::String(t), q)),
            None => {
                match duration_with_unit(s, p) {
                    Some((d, q)) => Ok((m::AttrValue::Duration(d), q)),
                    None => match sp_number(s, p) {
                        Some((t, q)) => Ok((m::AttrValue::Number(t), q)),
                        None => match sp_ident(s, p) {
                            Some((w, q)) => Ok((word_value(w), q)),
                            None => Err(backtrack()),
                        },
                    },
                }
            },
        }
    }
}

/// `key = value`
pub open spec fn sp_attr(s: Seq<char>, p: int) -> PRes<m::ScenarioAttr> {
    match sp_ident(s, p) {
        None => Err(backtrack()),
        Some((k, q)) => match expect_lit(s, ws(s, q), "="@, Some(Expected::AnnotationEquals)) {
            Err(e) => Err(e),
            Ok(q) => match sp_attr_value(s, ws(s, q)) {
                Err(e) => Err(e),
                Ok((v, r)) => Ok((m::ScenarioAttr { key: k, value: v }, r)),
            },
        },
    }
}

/// More `, key = value` items after the first, collected in `acc`.
pub open spec fn sp_attr_more(s: Seq<char>, p: int, acc: Seq<m::ScenarioAttr>) -> PRes<Seq<m::ScenarioAttr>>
    decreases s.len() - p,
{
    let q = ws(s, p);
    if lit_at(s, q, ","@) {
        match sp_attr(s, ws(s, q + 1)) {
            Err(e) => Err(e),
            Ok((a, r)) => if p < r <= s.len() {
                sp_attr_more(s, r, acc.push(a))
            } else {
                Err(cut_plain())
            },
        }
    } else {
        Ok((acc, q))
    }
}

/// A comma-separated annotation list closed by `end` (which is not consumed).
pub open spec fn sp_attr_list(s: Seq<char>, p: int, end: Seq<char>) -> PRes<Seq<m::ScenarioAttr>> {
    let q = ws(s, p);
    if lit_at(s, q, end) {
        Ok((Seq::empty(), q))
    } else {
        match sp_attr(s, q) {
            Err(e) => Err(e),
            Ok((a, r)) => sp_attr_more(s, r, seq![a]),
        }
    }
}

/// `#[key=value, ...]`
pub open spec fn sp_scenario_attrs(s: Seq<char>, p: int) -> PRes<Seq<m::ScenarioAttr>> {
    match expect_lit(s, ws(s, p), "#["@, Some(Expected::AnnotationOpen)) {
        Err(e) => Err(e),
        Ok(q) => match sp_attr_list(s, q, "]"@) {
            Err(e) => Err(e),
            Ok((attrs, r)) => match expect_lit(s, r, "]"@, Some(Expected::AnnotationClose)) {
                Err(e) => Err(e),
                Ok(r) => Ok((attrs, r)),
            },
        },
    }
}

/// `<key=value, ...>`
pub open spec fn sp_inline_annos(s: Seq<char>, p: int) -> PRes<Seq<m::ScenarioAttr>> {
    match expect_lit(s, ws(s, p), "<"@, Some(Expected::InlineOpen)) {
        Err(e) => Err(e),
        Ok(q) => match sp_attr_list(s, q, ">"@) {
            Err(e) => Err(e),
            Ok((attrs, r)) => match expect_lit(s, r, ">"@, Some(Expected::InlineClose)) {
                Err(e) => Err(e),
                Ok(r) => Ok((attrs, r)),
            },
        },
    }
}

/// `field = value`
pub open spec fn sp_predicate(s: Seq<char>, p: int) -> PRes<m::FieldPredicate> {
    match require(sp_ident(s, p), Some(Expected::PredicateField)) {
        Err(e) => Err(e),
        Ok((f, q)) => match expect_lit(s, ws(s, q), "="@, None) {
            Err(e) => Err(e),
            Ok(q) => match sp_attr_value(s, ws(s, q)) {
                Err(e) => Err(e),
                Ok((v, r)) => Ok((m::FieldPredicate { field: f, value: v }, r)),
            },
        },
    }
}

/// More `, field = value` items after the first, collected in `acc`.
pub open spec fn sp_pred_more(s: Seq<char>, p: int, acc: Seq<m::FieldPredicate>) -> PRes<Seq<m::FieldPredicate>>
    decreases s.len() - p,
{
    let q = ws(s, p);
    if lit_at(s, q, ","@) {
        match sp_predicate(s, ws(s, q + 1)) {
            Err(e) => Err(e),
            Ok((a, r)) => if p < r <= s.len() {
                sp_pred_more(s, r, acc.push(a))
            } else {
                Err(cut_plain())
            },
        }
    } else {
        Ok((acc, q))
    }
}

/// A non-empty comma-separated predicate list.
pub open spec fn sp_predicates(s: Seq<char>, p: int) -> PRes<Seq<m::FieldPredicate>> {
    match sp_predicate(s, p) {
        Err(e) => Err(e),
        Ok((a, r)) => sp_pred_more(s, r, seq![a]),
    }
}

/// `(preds)` / `({json})` / `from "path"`
pub open spec fn sp_value_source(s: Seq<char>, p: int) -> PRes<m::ValueSource> {
    let p = ws(s, p);
    if kw_at(s, p, "from"@) {
        match require(sp_quoted(s, ws(s, p + 4)), Some(Expected::FilePath)) {
            Err(e) => Err(e),
            Ok((t, q)) => Ok((m::ValueSource::File(t), q)),
        }
    } else {
        match expect_lit(s, p, "("@, None) {
            Err(e) => Err(e),
            Ok(q) => {
                let q = ws(s, q);
                let inner: PRes<m::ValueSource> = if lit_at(s, q, "{"@) {
                    match sp_json(s, q) {
                        Some((t, r)) => Ok((m::ValueSource::Json(t), r)),
                        None => Err(backtrack()),
                    }
                } else {
                    match sp_predicates(s, q) {
                        Err(e) => Err(e),
                        Ok((ps, r)) => Ok((m::ValueSource::Predicates(ps), r)),
                    }
                };
                match inner {
                    Err(e) => Err(e),
                    Ok((v, r)) => match expect_lit(s, ws(s, r), ")"@, None) {
                        Err(e) => Err(e),
                        Ok(r) => Ok((v, r)),
                    },
                }
            },
        }
    }
}

// ---------------------------------------------------------------------------
// Injection cases
// ---------------------------------------------------------------------------

/// After `use`: SOURCE `x` N `;`?
pub open spec fn sp_group_tail(s: Seq<char>, p: int) -> PRes<m::UseGroup> {
    match sp_value_source(s, p) {
        Err(e) => Err(e),
        Ok((src, q)) => {
            let q = ws(s, q);
            if kw_at(s, q, "with"@) {
                Err(cut_with(Expected::LegacyWith))
            } else {
                match expect_kw(s, q, "x"@, Some(Expected::StepCount)) {
                    Err(e) => Err(e),
                    Ok(q) => match require(sp_uint(s, ws(s, q)), None) {
                        Err(e) => Err(e),
                        Ok((n, r)) => Ok((m::UseGroup { count: n, source: src }, semi(s, ws(s, r)))),
                    },
                }
            }
        },
    }
}

/// After `without`: `(preds)` (`within` D)? `;`?
pub open spec fn sp_without_tail(s: Seq<char>, p: int) -> PRes<m::WithoutStep> {
    match expect_lit(s, ws(s, p), "("@, None) {
        Err(e) => Err(e),
        Ok(q) => match sp_predicates(s, ws(s, q)) {
            Err(e) => Err(e),
            Ok((ps, r)) => match expect_lit(s, ws(s, r), ")"@, None) {
                Err(e) => Err(e),
                Ok(r) => {
                    let r = ws(s, r);
                    if kw_at(s, r, "within"@) {
                        match require(sp_duration(s, ws(s, r + 6)), None) {
                            Err(e) => Err(e),
                            Ok((d, t)) => Ok(
                                (m::WithoutStep { predicates: ps, within: Some(d) }, semi(s, ws(s, t))),
                            ),
                        }
                    } else {
                        Ok((m::WithoutStep { predicates: ps, within: None }, semi(s, r)))
                    }
                },
            },
        },
    }
}

/// The event groups of a `join` block up to its closing brace.
pub open spec fn sp_join_groups(s: Seq<char>, p: int, acc: Seq<m::UseGroup>) -> PRes<Seq<m::UseGroup>>
    decreases s.len() - p,
{
    let q = ws(s, p);
    if lit_at(s, q, "}"@) {
        Ok((acc, q + 1))
    } else {
        let q = ws(s, then_opt(s, q));
        match expect_kw(s, q, "use"@, Some(Expected::EventGroup)) {
            Err(e) => Err(e),
            Ok(q) => match sp_group_tail(s, q) {
                Err(e) => Err(e),
                Ok((g, r)) => if p < r <= s.len() {
                    sp_join_groups(s, r, acc.push(g))
                } else {
                    Err(cut_plain())
                },
            },
        }
    }
}

/// After `join`: WINDOW `as` KEY `{` groups `}`
pub open spec fn sp_join_tail(s: Seq<char>, p: int) -> PRes<m::JoinStmt> {
    match require(sp_ident(s, ws(s, p)), Some(Expected::JoinWindow)) {
        Err(e) => Err(e),
        Ok((w, q)) => match expect_kw(s, ws(s, q), "as"@, Some(Expected::JoinAs)) {
            Err(e) => Err(e),
            Ok(q) => match require(sp_ident(s, ws(s, q)), Some(Expected::JoinKey)) {
                Err(e) => Err(e),
                Ok((k, q)) => match expect_lit(s, ws(s, q), "{"@, None) {
                    Err(e) => Err(e),
                    Ok(q) => match sp_join_groups(s, q, Seq::empty()) {
                        Err(e) => Err(e),
                        Ok((gs, r)) => Ok((m::JoinStmt { window: w, key_field: k, groups: gs }, r)),
                    },
                },
            },
        },
    }
}

/// What a case body has collected so far.
pub struct CaseBody {
    pub groups: Seq<m::UseGroup>,
    pub withouts: Seq<m::WithoutStep>,
    pub joins: Seq<m::JoinStmt>,
    pub spread: Option<u64>,
}

pub open spec fn empty_case_body() -> CaseBody {
    CaseBody { groups: Seq::empty(), withouts: Seq::empty(), joins: Seq::empty(), spread: None }
}

/// The legacy `<field> seq {` form starts at `p`.
pub open spec fn legacy_seq_at(s: Seq<char>, p: int) -> bool {
    match sp_ident(s, p) {
        Some((_, e)) => kw_at(s, ws(s, e), "seq"@),
        None => false,
    }
}

/// The items of a case body up to its closing brace.
pub open spec fn sp_case_items(s: Seq<char>, p: int, acc: CaseBody) -> PRes<CaseBody>
    decreases s.len() - p,
{
    let q = ws(s, p);
    if lit_at(s, q, "}"@) {
        Ok((acc, q + 1))
    } else if kw_at(s, q, "spread"@) {
        match require(sp_duration(s, ws(s, q + 6)), None) {
            Err(e) => Err(e),
            Ok((d, r)) => {
                let r = semi(s, ws(s, r));
                if p < r <= s.len() {
                    sp_case_items(s, r, CaseBody { spread: Some(d), ..acc })
                } else {
                    Err(cut_plain())
                }
            },
        }
    } else {
        let q = ws(s, then_opt(s, q));
        if kw_at(s, q, "without"@) {
            match sp_without_tail(s, q + 7) {
                Err(e) => Err(e),
                Ok((w, r)) => if p < r <= s.len() {
                    sp_case_items(s, r, CaseBody { withouts: acc.withouts.push(w), ..acc })
                } else {
                    Err(cut_plain())
                },
            }
        } else if kw_at(s, q, "join"@) {
            match sp_join_tail(s, q + 4) {
                Err(e) => Err(e),
                Ok((j, r)) => if p < r <= s.len() {
                    sp_case_items(s, r, CaseBody { joins: acc.joins.push(j), ..acc })
                } else {
                    Err(cut_plain())
                },
            }
        } else if kw_at(s, q, "not"@) {
            Err(cut_with(Expected::LegacyNot))
        } else if legacy_seq_at(s, q) {
            Err(cut_with(Expected::LegacySeq))
        } else {
            match expect_kw(s, q, "use"@, Some(Expected::EventGroup)) {
                Err(e) => Err(e),
                Ok(q) => match sp_group_tail(s, q) {
                    Err(e) => Err(e),
                    Ok((g, r)) => if p < r <= s.len() {
                        sp_case_items(s, r, CaseBody { groups: acc.groups.push(g), ..acc })
                    } else {
                        Err(cut_plain())
                    },
                },
            }
        }
    }
}

/// `for RULE STREAM { items }`
pub open spec fn sp_case_body(
    s: Seq<char>,
    p: int,
    mode: InjectCaseMode,
    n: u64,
    field: Option<Seq<char>>,
) -> PRes<m::InjectCase> {
    match expect_kw(s, ws(s, p), "for"@, Some(Expected::ForRule)) {
        Err(e) => Err(e),
        Ok(q) => match require(sp_ident(s, ws(s, q)), Some(Expected::TargetRule)) {
            Err(e) => Err(e),
            Ok((rule, q)) => match require(sp_ident(s, ws(s, q)), Some(Expected::CaseStream)) {
                Err(e) => Err(e),
                Ok((stream, q)) => match expect_lit(s, ws(s, q), "{"@, None) {
                    Err(e) => Err(e),
                    Ok(q) => match sp_case_items(s, q, empty_case_body()) {
                        Err(e) => Err(e),
                        Ok((b, r)) => Ok(
                            (
                                m::InjectCase {
                                    mode,
                                    entity_count: n,
                                    entity_field: field,
                                    target_rule: rule,
                                    stream,
                                    groups: b.groups,
                                    withouts: b.withouts,
                                    joins: b.joins,
                                    spread: b.spread,
                                },
                                r,
                            ),
                        ),
                    },
                },
            },
        },
    }
}

/// `hit` / `near_miss` / `miss`
pub open spec fn sp_mode(s: Seq<char>, p: int) -> Option<(InjectCaseMode, int)> {
    if kw_at(s, p, "hit"@) {
        Some((InjectCaseMode::Hit, p + 3))
    } else if kw_at(s, p, "near_miss"@) {
        Some((InjectCaseMode::NearMiss, p + 9))
    } else if kw_at(s, p, "miss"@) {
        Some((InjectCaseMode::Miss, p + 4))
    } else {
        None
    }
}

/// The optional `field:` prefix of the entity count.
pub open spec fn sp_entity_field(s: Seq<char>, p: int) -> (Option<Seq<char>>, int) {
    match sp_ident(s, p) {
        Some((name, e)) => {
            let q = ws(s, e);
            if lit_at(s, q, ":"@) {
                (Some(name), ws(s, q + 1))
            } else {
                (None, p)
            }
        },
        None => (None, p),
    }
}

/// MODE `<` [FIELD `:`] N `>` `for` ...
pub open spec fn sp_case(s: Seq<char>, p: int) -> PRes<m::InjectCase> {
    match sp_mode(s, p) {
        None => Err(PErr { cut: false, expected: Some(Expected::InjectionMode) }),
        Some((mode, q)) => match expect_lit(s, ws(s, q), "<"@, None) {
            Err(e) => Err(e),
            Ok(q) => {
                let ef = sp_entity_field(s, ws(s, q));
                match require(sp_uint(s, ef.1), Some(Expected::EntityCount)) {
                    Err(e) => Err(e),
                    Ok((n, q)) => {
                        let q = ws(s, q);
                        if lit_at(s, q, "%"@) {
                            Err(cut_with(Expected::LegacyPercent))
                        } else {
                            match expect_lit(s, ws(s, q), ">"@, None) {
                                Err(e) => Err(e),
                                Ok(q) => sp_case_body(s, q, mode, n, ef.0),
                            }
                        }
                    },
                }
            },
        },
    }
}

/// The cases of an `inject` block up to its closing brace.
pub open spec fn sp_cases(s: Seq<char>, p: int, acc: Seq<m::InjectCase>) -> PRes<Seq<m::InjectCase>>
    decreases s.len() - p,
{
    let q = ws(s, p);
    if lit_at(s, q, "}"@) {
        Ok((acc, q + 1))
    } else {
        match sp_case(s, q) {
            Err(e) => Err(e),
            Ok((c, r)) => if p < r <= s.len() {
                sp_cases(s, r, acc.push(c))
            } else {
                Err(cut_plain())
            },
        }
    }
}

/// After `inject`: `{` cases `}`
pub open spec fn sp_injection_block(s: Seq<char>, p: int) -> PRes<m::SyntaxInjectionBlock> {
    match expect_lit(s, ws(s, p), "{"@, Some(Expected::InjectionOpen)) {
        Err(e) => Err(e),
        Ok(q) => match sp_cases(s, q, Seq::empty()) {
            Err(e) => Err(e),
            Ok((cs, r)) => Ok((m::SyntaxInjectionBlock { cases: cs }, r)),
        },
    }
}

// ---------------------------------------------------------------------------
// Background
// ---------------------------------------------------------------------------

/// `NAME=RATE` after whitespace.
pub open spec fn sp_named_rate(s: Seq<char>, p: int, name: Seq<char>) -> PRes<m::Rate> {
    match expect_kw(s, ws(s, p), name, None) {
        Err(e) => Err(e),
        Ok(q) => match expect_lit(s, q, "="@, None) {
            Err(e) => Err(e),
            Ok(q) => require(sp_rate(s, q), None),
        },
    }
}

/// `NAME=DURATION` after whitespace.
pub open spec fn sp_named_duration(s: Seq<char>, p: int, name: Seq<char>) -> PRes<u64> {
    match expect_kw(s, ws(s, p), name, None) {
        Err(e) => Err(e),
        Ok(q) => match expect_lit(s, q, "="@, None) {
            Err(e) => Err(e),
            Ok(q) => require(sp_duration(s, q), None),
        },
    }
}

/// `,` after whitespace.
pub open spec fn sp_comma(s: Seq<char>, p: int) -> Result<int, PErr> {
    expect_lit(s, ws(s, p), ","@, None)
}

/// The optional `, shape=SHAPE` of a wave (sine when absent).
pub open spec fn sp_wave_shape(s: Seq<char>, p: int) -> PRes<WaveShape> {
    let q = ws(s, p);
    if lit_at(s, q, ","@) {
        match expect_kw(s, ws(s, q + 1), "shape"@, None) {
            Err(e) => Err(e),
            Ok(r) => match expect_lit(s, r, "="@, None) {
                Err(e) => Err(e),
                Ok(r) => if kw_at(s, r, "sine"@) {
                    Ok((WaveShape::Sine, r + 4))
                } else if kw_at(s, r, "triangle"@) {
                    Ok((WaveShape::Triangle, r + 8))
                } else if kw_at(s, r, "square"@) {
                    Ok((WaveShape::Square, r + 6))
                } else {
                    Err(cut_plain())
                },
            },
        }
    } else {
        Ok((WaveShape::Sine, q))
    }
}

/// After `wave`: `(base=R, amp=R, period=D[, shape=S])`
pub open spec fn sp_wave(s: Seq<char>, p: int) -> PRes<m::RateExpr> {
    match expect_lit(s, ws(s, p), "("@, None) {
        Err(e) => Err(e),
        Ok(q) => match sp_named_rate(s, q, "base"@) {
            Err(e) => Err(e),
            Ok((base, q)) => match sp_comma(s, q) {
                Err(e) => Err(e),
                Ok(q) => match sp_named_rate(s, q, "amp"@) {
                    Err(e) => Err(e),
                    Ok((amp, q)) => match sp_comma(s, q) {
                        Err(e) => Err(e),
                        Ok(q) => match sp_named_duration(s, q, "period"@) {
                            Err(e) => Err(e),
                            Ok((period, q)) => match sp_wave_shape(s, q) {
                                Err(e) => Err(e),
                                Ok((shape, q)) => match expect_lit(s, ws(s, q), ")"@, None) {
                                    Err(e) => Err(e),
                                    Ok(q) => Ok((m::RateExpr::Wave { base, amp, period, shape }, q)),
                                },
                            },
                        },
                    },
                },
            },
        },
    }
}

/// After `burst`: `(base=R, peak=R, every=D, hold=D)`
pub open spec fn sp_burst(s: Seq<char>, p: int) -> PRes<m::RateExpr> {
    match expect_lit(s, ws(s, p), "("@, None) {
        Err(e) => Err(e),
        Ok(q) => match sp_named_rate(s, q, "base"@) {
            Err(e) => Err(e),
            Ok((base, q)) => match sp_comma(s, q) {
                Err(e) => Err(e),
                Ok(q) => match sp_named_rate(s, q, "peak"@) {
                    Err(e) => Err(e),
                    Ok((peak, q)) => match sp_comma(s, q) {
                        Err(e) => Err(e),
                        Ok(q) => match sp_named_duration(s, q, "every"@) {
                            Err(e) => Err(e),
                            Ok((every, q)) => match sp_comma(s, q) {
                                Err(e) => Err(e),
                                Ok(q) => match sp_named_duration(s, q, "hold"@) {
                                    Err(e) => Err(e),
                                    Ok((hold, q)) => match expect_lit(s, ws(s, q), ")"@, None) {
                                        Err(e) => Err(e),
                                        Ok(q) => Ok((m::RateExpr::Burst { base, peak, every, hold }, q)),
                                    },
                                },
                            },
                        },
                    },
                },
            },
        },
    }
}

/// One `START..END=RATE` segment (at `p`, whitespace already skipped).
pub open spec fn sp_segment(s: Seq<char>, p: int) -> PRes<m::TimelineSegment> {
    match require(sp_duration(s, p), None) {
        Err(e) => Err(e),
        Ok((start, q)) => match expect_lit(s, ws(s, q), ".."@, None) {
            Err(e) => Err(e),
            Ok(q) => match require(sp_duration(s, ws(s, q)), None) {
                Err(e) => Err(e),
                Ok((end, q)) => match expect_lit(s, ws(s, q), "="@, None) {
                    Err(e) => Err(e),
                    Ok(q) => match require(sp_rate(s, ws(s, q)), None) {
                        Err(e) => Err(e),
                        Ok((rate, q)) => Ok((m::TimelineSegment { start, end, rate }, semi(s, ws(s, q)))),
                    },
                },
            },
        },
    }
}

/// The segments of a timeline up to its closing brace.
pub open spec fn sp_segments(s: Seq<char>, p: int, acc: Seq<m::TimelineSegment>) -> PRes<Seq<m::TimelineSegment>>
    decreases s.len() - p,
{
    let q = ws(s, p);
    if lit_at(s, q, "}"@) {
        Ok((acc, q + 1))
    } else {
        match sp_segment(s, q) {
            Err(e) => Err(e),
            Ok((seg, r)) => if p < r <= s.len() {
                sp_segments(s, r, acc.push(seg))
            } else {
                Err(cut_plain())
            },
        }
    }
}

/// After `timeline`: `{` segments `}`
pub open spec fn sp_timeline(s: Seq<char>, p: int) -> PRes<m::RateExpr> {
    match expect_lit(s, ws(s, p), "{"@, None) {
        Err(e) => Err(e),
        Ok(q) => match sp_segments(s, q, Seq::empty()) {
            Err(e) => Err(e),
            Ok((segs, r)) => Ok((m::RateExpr::Timeline(segs), r)),
        },
    }
}

/// A rate expression: `wave(...)`, `burst(...)`, `timeline {...}` or a constant rate.
pub open spec fn sp_rate_expr(s: Seq<char>, p: int) -> PRes<m::RateExpr> {
    if kw_at(s, p, "wave"@) {
        sp_wave(s, p + 4)
    } else if kw_at(s, p, "burst"@) {
        sp_burst(s, p + 5)
    } else if kw_at(s, p, "timeline"@) {
        sp_timeline(s, p + 8)
    } else {
        match sp_rate(s, p) {
            Some((r, q)) => Ok((m::RateExpr::Constant(r), q)),
            None => Err(backtrack()),
        }
    }
}

/// The zipf parameters read so far.
pub struct ZipfParams {
    pub pool: Option<u64>,
    pub exponent: Seq<char>,
    pub fresh: Seq<char>,
}

/// The parameters of `zipf(...)` up to the closing parenthesis.
pub open spec fn sp_zipf_params(s: Seq<char>, p: int, acc: ZipfParams) -> PRes<ZipfParams>
    decreases s.len() - p,
{
    let q = ws(s, p);
    if lit_at(s, q, ")"@) {
        Ok((acc, q + 1))
    } else {
        match require(sp_ident(s, q), None) {
            Err(e) => Err(e),
            Ok((key, q)) => match expect_lit(s, ws(s, q), "="@, None) {
                Err(e) => Err(e),
                Ok(q) => {
                    let q = ws(s, q);
                    let r: PRes<ZipfParams> = if key == "pool"@ {
                        match require(sp_uint(s, q), None) {
                            Err(e) => Err(e),
                            Ok((v, t)) => Ok((ZipfParams { pool: Some(v), ..acc }, t)),
                        }
                    } else if key == "exponent"@ {
                        match require(sp_number(s, q), None) {
                            Err(e) => Err(e),
                            Ok((v, t)) => Ok((ZipfParams { exponent: v, ..acc }, t)),
                        }
                    } else if key == "fresh"@ {
                        match require(sp_number(s, q), None) {
                            Err(e) => Err(e),
                            Ok((v, t)) => Ok((ZipfParams { fresh: v, ..acc }, t)),
                        }
                    } else {
                        Err(cut_with(Expected::ZipfUnknownParam))
                    };
                    match r {
                        Err(e) => Err(e),
                        Ok((acc2, t)) => {
                            let t = ws(s, t);
                            let t = if lit_at(s, t, ","@) { t + 1 } else { t };
                            if p < t <= s.len() {
                                sp_zipf_params(s, t, acc2)
                            } else {
                                Err(cut_plain())
                            }
                        },
                    }
                },
            },
        }
    }
}

/// After `entity`: WINDOW `.` FIELD `zipf(...)` `;`?
pub open spec fn sp_entity_tail(s: Seq<char>, p: int) -> PRes<m::EntityDistStmt> {
    match require(sp_ident(s, ws(s, p)), Some(Expected::EntityWindow)) {
        Err(e) => Err(e),
        Ok((window, q)) => match expect_lit(s, ws(s, q), "."@, None) {
            Err(e) => Err(e),
            Ok(q) => match require(sp_ident(s, ws(s, q)), Some(Expected::EntityField)) {
                Err(e) => Err(e),
                Ok((field, q)) => match expect_kw(s, ws(s, q), "zipf"@, Some(Expected::EntityZipf)) {
                    Err(e) => Err(e),
                    Ok(q) => match expect_lit(s, ws(s, q), "("@, None) {
                        Err(e) => Err(e),
                        Ok(q) => match sp_zipf_params(
                            s,
                            q,
                            ZipfParams { pool: None, exponent: "1"@, fresh: "0"@ },
                        ) {
                            Err(e) => Err(e),
                            Ok((z, r)) => match z.pool {
                                None => Err(cut_with(Expected::ZipfMissingPool)),
                                Some(pool) => Ok(
                                    (
                                        m::EntityDistStmt {
                                            window,
                                            field,
                                            pool,
                                            exponent: z.exponent,
                                            fresh: z.fresh,
                                        },
                                        semi(s, ws(s, r)),
                                    ),
                                ),
                            },
                        },
                    },
                },
            },
        },
    }
}

/// `stream NAME gen RATE_EXPR ;?` (at `p`, whitespace already skipped).
pub open spec fn sp_stream_decl(s: Seq<char>, p: int) -> PRes<m::SyntaxStreamDecl> {
    match expect_kw(s, p, "stream"@, Some(Expected::StreamKeyword)) {
        Err(e) => Err(e),
        Ok(q) => match require(sp_ident(s, ws(s, q)), Some(Expected::StreamName)) {
            Err(e) => Err(e),
            Ok((name, q)) => match expect_kw(s, ws(s, q), "gen"@, Some(Expected::GenKeyword)) {
                Err(e) => Err(e),
                Ok(q) => match sp_rate_expr(s, ws(s, q)) {
                    Err(e) => Err(commit(e, Some(Expected::RateExpression))),
                    Ok((re, r)) => Ok((m::SyntaxStreamDecl { stream: name, rate: re }, semi(s, ws(s, r)))),
                },
            },
        },
    }
}

/// The items of a background block up to its closing brace.
pub open spec fn sp_bg_items(s: Seq<char>, p: int, acc: m::BackgroundBlock) -> PRes<m::BackgroundBlock>
    decreases s.len() - p,
{
    let q = ws(s, p);
    if kw_at(s, q, "entity"@) {
        match sp_entity_tail(s, q + 6) {
            Err(e) => Err(e),
            Ok((ent, r)) => if p < r <= s.len() {
                sp_bg_items(s, r, m::BackgroundBlock { entities: acc.entities.push(ent), ..acc })
            } else {
                Err(cut_plain())
            },
        }
    } else if lit_at(s, q, "}"@) {
        Ok((acc, q + 1))
    } else {
        match sp_stream_decl(s, q) {
            Err(e) => Err(e),
            Ok((d, r)) => if p < r <= s.len() {
                sp_bg_items(s, r, m::BackgroundBlock { streams: acc.streams.push(d), ..acc })
            } else {
                Err(cut_plain())
            },
        }
    }
}

/// After `background`: `{` items `}`
pub open spec fn sp_background_block(s: Seq<char>, p: int) -> PRes<m::BackgroundBlock> {
    match expect_lit(s, ws(s, p), "{"@, Some(Expected::BackgroundOpen)) {
        Err(e) => Err(e),
        Ok(q) => sp_bg_items(s, q, m::BackgroundBlock { streams: Seq::empty(), entities: Seq::empty() }),
    }
}

// ---------------------------------------------------------------------------
// Replay
// ---------------------------------------------------------------------------

/// After `replay`: WINDOW `{` `use from "file"` `;`? `}`
pub open spec fn sp_replay_tail(s: Seq<char>, p: int) -> PRes<m::ReplayStmt> {
    match require(sp_ident(s, ws(s, p)), Some(Expected::ReplayWindow)) {
        Err(e) => Err(e),
        Ok((w, q)) => match expect_lit(s, ws(s, q), "{"@, Some(Expected::ReplayOpen)) {
            Err(e) => Err(e),
            Ok(q) => match expect_kw(s, ws(s, q), "use"@, Some(Expected::ReplayUse)) {
                Err(e) => Err(e),
                Ok(q) => match sp_value_source(s, ws(s, q)) {
                    Err(e) => Err(commit(e, None)),
                    Ok((m::ValueSource::File(f), q)) => {
                        let q = ws(s, q);
                        if kw_at(s, q, "x"@) {
                            Err(cut_with(Expected::ReplayCount))
                        } else {
                            match expect_lit(s, ws(s, semi(s, q)), "}"@, Some(Expected::ReplayClose)) {
                                Err(e) => Err(e),
                                Ok(r) => Ok((m::ReplayStmt { window: w, file: f, records: None }, r)),
                            }
                        }
                    },
                    Ok(_) => Err(cut_with(Expected::ReplaySource)),
                },
            },
        },
    }
}


// ---------------------------------------------------------------------------
// Scenario body and file
// ---------------------------------------------------------------------------

/// What the scenario body has collected so far (the last `background` and
/// `inject` blocks win; `replay` statements accumulate).
pub struct BodyParts {
    pub background: Option<m::BackgroundBlock>,
    pub injection: Option<m::SyntaxInjectionBlock>,
    pub replays: Seq<m::ReplayStmt>,
}

/// The items of the scenario body up to its closing brace.
pub open spec fn sp_body_items(s: Seq<char>, p: int, acc: BodyParts) -> PRes<BodyParts>
    decreases s.len() - p,
{
    let q = ws(s, p);
    if lit_at(s, q, "}"@) {
        Ok((acc, q + 1))
    } else if kw_at(s, q, "background"@) {
        match sp_background_block(s, q + 10) {
            Err(e) => Err(e),
            Ok((b, r)) => if p < r <= s.len() {
                sp_body_items(s, r, BodyParts { background: Some(b), ..acc })
            } else {
                Err(cut_plain())
            },
        }
    } else if kw_at(s, q, "inject"@) {
        match sp_injection_block(s, q + 6) {
            Err(e) => Err(e),
            Ok((b, r)) => if p < r <= s.len() {
                sp_body_items(s, r, BodyParts { injection: Some(b), ..acc })
            } else {
                Err(cut_plain())
            },
        }
    } else if kw_at(s, q, "replay"@) {
        match sp_replay_tail(s, q + 6) {
            Err(e) => Err(e),
            Ok((st, r)) => if p < r <= s.len() {
                sp_body_items(s, r, BodyParts { replays: acc.replays.push(st), ..acc })
            } else {
                Err(cut_plain())
            },
        }
    } else if kw_at(s, q, "traffic"@) {
        Err(cut_with(Expected::LegacyTraffic))
    } else if kw_at(s, q, "injection"@) {
        Err(cut_with(Expected::LegacyInjection))
    } else {
        Err(cut_with(Expected::BodyItem))
    }
}

/// The value of the first annotation named `key`.
pub open spec fn first_attr(attrs: Seq<m::ScenarioAttr>, key: Seq<char>) -> Option<m::AttrValue>
    decreases attrs.len(),
{
    if attrs.len() == 0 {
        None
    } else if attrs[0].key == key {
        Some(attrs[0].value)
    } else {
        first_attr(attrs.drop_first(), key)
    }
}

/// `seed` from the inline annotations: the first `seed`, when it is a number
/// (truncated, negative → 0); 0 otherwise.
pub open spec fn scenario_seed(annos: Seq<m::ScenarioAttr>) -> u64 {
    match first_attr(annos, "seed"@) {
        Some(m::AttrValue::Number(t)) => number_trunc(t),
        _ => 0,
    }
}

/// One minute, in nanoseconds: the duration of a scenario that names none.
pub open spec fn default_duration() -> u64 {
    60_000_000_000
}

/// `duration` from the `#[...]` attributes: the first `duration`, when it is a
/// duration; one minute otherwise.
pub open spec fn scenario_duration(attrs: Seq<m::ScenarioAttr>) -> u64 {
    match first_attr(attrs, "duration"@) {
        Some(m::AttrValue::Duration(d)) => d,
        _ => default_duration(),
    }
}

/// How many of `u` make an hour.
pub open spec fn units_per_hour(u: RateUnit) -> nat {
    match u {
        RateUnit::PerSecond => 3600,
        RateUnit::PerMinute => 60,
        RateUnit::PerHour => 1,
    }
}

/// Events per hour of a rate.
pub open spec fn events_per_hour(r: m::Rate) -> nat {
    (r.count as nat) * units_per_hour(r.unit)
}

/// The rate a rate expression is budgeted with: the base of a wave or burst,
/// the first segment of a timeline.
pub open spec fn base_rate(e: m::RateExpr) -> Option<m::Rate> {
    match e {
        m::RateExpr::Constant(r) => Some(r),
        m::RateExpr::Wave { base, .. } => Some(base),
        m::RateExpr::Burst { base, .. } => Some(base),
        m::RateExpr::Timeline(segs) => if segs.len() > 0 {
            Some(segs[0].rate)
        } else {
            None
        },
    }
}

/// Events per hour a stream is budgeted with.
pub open spec fn stream_per_hour(d: m::SyntaxStreamDecl) -> nat {
    match base_rate(d.rate) {
        Some(r) => events_per_hour(r),
        None => 0,
    }
}

/// Events per hour of all background streams.
pub open spec fn per_hour_sum(streams: Seq<m::SyntaxStreamDecl>) -> nat
    decreases streams.len(),
{
    if streams.len() == 0 {
        0
    } else {
        per_hour_sum(streams.drop_last()) + stream_per_hour(streams.last())
    }
}

pub open spec fn nanos_per_hour() -> int {
    3_600_000_000_000
}

/// The background event budget: the rate sum times the duration, rounded half
/// up, at least 1 (and at most `u64::MAX`).
pub open spec fn derived_total(bg: m::BackgroundBlock, duration: u64) -> u64 {
    let n = per_hour_sum(bg.streams);
    if n == 0 {
        1
    } else {
        let t = (2 * n * duration + nanos_per_hour()) / (2 * nanos_per_hour());
        if t < 1 {
            1
        } else if t > u64::MAX {
            u64::MAX
        } else {
            t as u64
        }
    }
}

/// The rate of the header stream derived from a rate expression (1/s for an empty timeline).
pub open spec fn legacy_rate(e: m::RateExpr) -> m::Rate {
    match base_rate(e) {
        Some(r) => r,
        None => m::Rate { count: 1, unit: RateUnit::PerSecond },
    }
}

/// The header stream derived from a background stream.
pub open spec fn legacy_stream(d: m::SyntaxStreamDecl) -> m::StreamBlock {
    m::StreamBlock { alias: d.stream, window: d.stream, rate: legacy_rate(d.rate) }
}

/// The start time every scenario gets.
pub open spec fn scenario_start() -> Seq<char> {
    "2026-01-01T00:00:00Z"@
}

/// The scenario header derived from the syntax section.
pub open spec fn scenario_of(
    name: Seq<char>,
    attrs: Seq<m::ScenarioAttr>,
    annos: Seq<m::ScenarioAttr>,
    bg: m::BackgroundBlock,
) -> m::ScenarioDecl {
    let duration = scenario_duration(attrs);
    m::ScenarioDecl {
        name,
        seed: scenario_seed(annos),
        time_clause: m::TimeClause { start: scenario_start(), duration },
        total: derived_total(bg, duration),
        streams: bg.streams.map_values(|d: m::SyntaxStreamDecl| legacy_stream(d)),
    }
}

/// `#[...]`? `scenario` NAME `<...>`? `{` body `}`
pub open spec fn sp_scenario(s: Seq<char>, p: int) -> PRes<(m::ScenarioDecl, m::SyntaxScenario)> {
    let p = ws(s, p);
    let attrs_r: PRes<Seq<m::ScenarioAttr>> = if lit_at(s, p, "#["@) {
        sp_scenario_attrs(s, p)
    } else {
        Ok((Seq::empty(), p))
    };
    match attrs_r {
        Err(e) => Err(e),
        Ok((attrs, q)) => match expect_kw(s, ws(s, q), "scenario"@, Some(Expected::ScenarioKeyword)) {
            Err(e) => Err(e),
            Ok(q) => match require(sp_ident(s, ws(s, q)), Some(Expected::ScenarioName)) {
                Err(e) => Err(e),
                Ok((name, q)) => {
                    let q = ws(s, q);
                    let annos_r: PRes<Seq<m::ScenarioAttr>> = if lit_at(s, q, "<"@) {
                        sp_inline_annos(s, q)
                    } else {
                        Ok((Seq::empty(), q))
                    };
                    match annos_r {
                        Err(e) => Err(e),
                        Ok((annos, q)) => match expect_lit(s, ws(s, q), "{"@, Some(Expected::BodyOpen)) {
                            Err(e) => Err(e),
                            Ok(q) => match sp_body_items(
                                s,
                                q,
                                BodyParts { background: None, injection: None, replays: Seq::empty() },
                            ) {
                                Err(e) => Err(e),
                                Ok((body, r)) => match body.background {
                                    None => Err(cut_with(Expected::BackgroundRequired)),
                                    Some(bg) => Ok(
                                        (
                                            (
                                                scenario_of(name, attrs, annos, bg),
                                                m::SyntaxScenario {
                                                    attrs,
                                                    inline_annos: annos,
                                                    background: bg,
                                                    injection: body.injection,
                                                    replays: body.replays,
                                                },
                                            ),
                                            r,
                                        ),
                                    ),
                                },
                            },
                        },
                    }
                },
            },
        },
    }
}

/// The `use "path"` declarations at the top of the file.
pub open spec fn sp_uses(s: Seq<char>, p: int, acc: Seq<m::UseDecl>) -> PRes<Seq<m::UseDecl>>
    decreases s.len() - p,
{
    let q = ws(s, p);
    if kw_at(s, q, "use"@) {
        match require(sp_quoted(s, ws(s, q + 3)), Some(Expected::UsePath)) {
            Err(e) => Err(e),
            Ok((path, r)) => if p < r <= s.len() {
                sp_uses(s, r, acc.push(m::UseDecl { path }))
            } else {
                Err(cut_plain())
            },
        }
    } else {
        Ok((acc, q))
    }
}

/// A `.wfg` file: `use` declarations, then the scenario.
pub open spec fn sp_wfg_file(s: Seq<char>) -> PRes<m::WfgFile> {
    match sp_uses(s, 0, Seq::empty()) {
        Err(e) => Err(e),
        Ok((uses, q)) => match sp_scenario(s, ws(s, q)) {
            Err(e) => Err(e),
            Ok((sc, r)) => Ok((m::WfgFile { uses, scenario: sc.0, syntax: Some(sc.1) }, r)),
        },
    }
}

/// The message of a parse failure.
pub open spec fn parse_failure_message(e: PErr) -> Seq<char> {
    "parse error: "@ + match e.expected {
        Some(x) => "expected "@ + expected_text(x),
        None => "unexpected input"@,
    }
}

/// How many bytes `c` takes in UTF-8.
pub open spec fn utf8_len(c: char) -> int {
    if (c as u32) < 0x80 {
        1
    } else if (c as u32) < 0x800 {
        2
    } else if (c as u32) < 0x10000 {
        3
    } else {
        4
    }
}

/// The longest prefix of `t` whose UTF-8 encoding takes at most `budget` bytes.
pub open spec fn byte_prefix(t: Seq<char>, budget: int) -> Seq<char>
    decreases t.len(),
{
    if t.len() == 0 || utf8_len(t[0]) > budget {
        Seq::empty()
    } else {
        seq![t[0]] + byte_prefix(t.drop_first(), budget - utf8_len(t[0]))
    }
}

/// A lowercase hexadecimal digit.
pub open spec fn hex_digit(v: int) -> char {
    if v < 10 {
        (('0' as u32) + v) as char
    } else {
        (('a' as u32) + v - 10) as char
    }
}

/// An ASCII control character other than the named escapes.
pub open spec fn is_plain_control(c: char) -> bool {
    ((c as u32) < 0x20 || (c as u32) == 0x7f) && c != '\n' && c != '\r' && c != '\t' && c != '\0'
}

/// How a character is written inside a quoted, escaped string (`{:?}` of a `str`);
/// characters outside ASCII are written as they are.
pub open spec fn escape_char(c: char) -> Seq<char> {
    if c == '"' {
        seq!['\\', '"']
    } else if c == '\\' {
        seq!['\\', '\\']
    } else if c == '\n' {
        seq!['\\', 'n']
    } else if c == '\r' {
        seq!['\\', 'r']
    } else if c == '\t' {
        seq!['\\', 't']
    } else if c == '\0' {
        seq!['\\', '0']
    } else if is_plain_control(c) {
        let v = c as u32 as int;
        let digits = if v < 16 { seq![hex_digit(v)] } else { seq![hex_digit(v / 16), hex_digit(v % 16)] };
        seq!['\\', 'u', '{'] + digits + seq!['}']
    } else {
        seq![c]
    }
}

/// A text with each character escaped.
pub open spec fn escape_text(t: Seq<char>) -> Seq<char>
    decreases t.len(),
{
    if t.len() == 0 {
        Seq::empty()
    } else {
        escape_text(t.drop_last()) + escape_char(t.last())
    }
}

/// The message for input left over after the scenario: its first 60 bytes, quoted and escaped.
pub open spec fn trailing_message(rest: Seq<char>) -> Seq<char> {
    "unexpected trailing content: "@ + seq!['"'] + escape_text(byte_prefix(rest, 60)) + seq!['"']
}

/// What parsing a whole `.wfg` text gives: the file, or the failure message.
pub open spec fn spec_parse_wfg(s: Seq<char>) -> Result<m::WfgFile, Seq<char>> {
    match sp_wfg_file(s) {
        Err(e) => Err(parse_failure_message(e)),
        Ok((f, q)) => {
            let r = ws(s, q);
            if r < s.len() {
                Err(trailing_message(s.subrange(r, s.len() as int)))
            } else {
                Ok(f)
            }
        },
    }
}

} // verus!
