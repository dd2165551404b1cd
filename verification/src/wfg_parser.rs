//! Parser for `.wfg` scenario files (stream-first syntax).
//!
//! Each function reads one production of [`crate::wfg_grammar`] at a position
//! and gives exactly what the grammar says: the value and the position after
//! it, or the failure.

use vstd::prelude::*;

use crate::error::{WfgenError, WfgenReason};
use crate::text::str_is;
use crate::wfg_ast::{
    AttrValue, BackgroundBlock, EntityDistStmt, FieldPredicate, InjectCase, InjectCaseMode,
    JoinStmt, Rate, RateExpr, RateUnit, ReplayStmt, ScenarioAttr, ScenarioDecl, StreamBlock,
    SyntaxInjectionBlock, SyntaxScenario, SyntaxStreamDecl, TimeClause, TimelineSegment, UseDecl,
    UseGroup, ValueSource, WaveShape, WfgFile, WithoutStep, opt_view, views,
};
use crate::wfg_grammar::{
    BodyParts, CaseBody, PRes, ZipfParams, duration_with_unit, empty_case_body, expect_kw,
    expect_lit, has_ascii_alpha, is_ascii_alpha, kw_at, legacy_seq_at, lit_at, semi,
    sp_attr, sp_attr_list, sp_attr_more, sp_attr_value, sp_background_block, sp_bg_items,
    sp_body_items, sp_burst, sp_case, sp_case_body, sp_case_items, sp_cases, sp_comma,
    sp_duration, sp_entity_field, sp_entity_tail, sp_group_tail, sp_ident, sp_inline_annos,
    sp_injection_block, sp_join_groups, sp_join_tail, sp_mode, sp_named_duration, sp_named_rate,
    sp_pred_more, sp_predicate, sp_predicates, sp_rate, sp_rate_expr, sp_replay_tail,
    sp_scenario_attrs, sp_segment, sp_segments, sp_stream_decl, sp_timeline, sp_uint,
    sp_value_source, sp_wave, sp_wave_shape, sp_without_tail, sp_zipf_params, then_opt,
    word_value, ws,
};
use crate::wfg_lexer::{
    Src, at_kw, at_lit, lex_duration, lex_ident, lex_json, lex_number, lex_quoted, lex_rate,
    lex_uint, skip_ws,
};
use crate::wfg_model as m;
use crate::wfg_parse_error::{Expected, PErr, backtrack, commit, cut_plain, cut_with};

verus! {

broadcast use vstd::string::group_string_axioms;

/// A production's outcome, by its model.
pub open spec fn val_res<T: View>(r: Result<(T, usize), PErr>) -> PRes<T::V> {
    match r {
        Ok((v, q)) => Ok((v@, q as int)),
        Err(e) => Err(e),
    }
}

/// A list production's outcome, by the models of its items.
pub open spec fn list_res<T: View>(r: Result<(Vec<T>, usize), PErr>) -> PRes<Seq<T::V>> {
    match r {
        Ok((v, q)) => Ok((views(v@), q as int)),
        Err(e) => Err(e),
    }
}

/// A position outcome.
pub open spec fn pos_res(r: Result<usize, PErr>) -> Result<int, PErr> {
    match r {
        Ok(q) => Ok(q as int),
        Err(e) => Err(e),
    }
}

/// The end position of a successful outcome.
pub open spec fn end_of<T>(r: Result<(T, usize), PErr>) -> int {
    match r {
        Ok((_, q)) => q as int,
        Err(_) => 0,
    }
}

fn bt() -> (e: PErr)
    ensures
        e == backtrack(),
{
    PErr { cut: false, expected: None }
}

pub(crate) fn committed(e: Option<Expected>) -> (r: PErr)
    ensures
        r == commit(backtrack(), e),
{
    PErr { cut: true, expected: e }
}

fn recommit(err: PErr, e: Option<Expected>) -> (r: PErr)
    ensures
        r == commit(err, e),
{
    PErr {
        cut: true,
        expected: match err.expected {
            Some(x) => Some(x),
            None => e,
        },
    }
}

pub(crate) fn cut_at(e: Expected) -> (r: PErr)
    ensures
        r == cut_with(e),
{
    PErr { cut: true, expected: Some(e) }
}

/// `cut_err(literal(l))`.
pub fn expect_lit_e(src: &Src, p: usize, l: &str, e: Option<Expected>) -> (r: Result<usize, PErr>)
    requires
        src.wf(),
        p <= src.s().len(),
    ensures
        pos_res(r) == expect_lit(src.s(), p as int, l@, e),
        r matches Ok(q) ==> q == p + l@.len() && q <= src.s().len(),
{
    let n = src.len();
    if at_lit(src, p, l) {
        let k = l.unicode_len();
        Ok(p + k)
    } else {
        Err(committed(e))
    }
}

/// `cut_err(kw(w))`.
pub fn expect_kw_e(src: &Src, p: usize, w: &str, e: Option<Expected>) -> (r: Result<usize, PErr>)
    requires
        src.wf(),
        p <= src.s().len(),
    ensures
        pos_res(r) == expect_kw(src.s(), p as int, w@, e),
        r matches Ok(q) ==> q == p + w@.len() && q <= src.s().len(),
{
    let n = src.len();
    if at_kw(src, p, w) {
        let k = w.unicode_len();
        Ok(p + k)
    } else {
        Err(committed(e))
    }
}

/// `opt(literal(";"))`.
fn skip_semi(src: &Src, p: usize) -> (q: usize)
    requires
        src.wf(),
        p <= src.s().len(),
    ensures
        q == semi(src.s(), p as int),
        p <= q <= src.s().len(),
{
    let n = src.len();
    proof {
        reveal_strlit(";");
    }
    if at_lit(src, p, ";") {
        p + 1
    } else {
        p
    }
}

/// `opt(kw("then"))`.
fn skip_then(src: &Src, p: usize) -> (q: usize)
    requires
        src.wf(),
        p <= src.s().len(),
    ensures
        q == then_opt(src.s(), p as int),
        p <= q <= src.s().len(),
{
    let n = src.len();
    proof {
        reveal_strlit("then");
    }
    if at_kw(src, p, "then") {
        p + 4
    } else {
        p
    }
}

/// A duration with a unit at `p`.
pub fn lex_duration_with_unit(src: &Src, p: usize) -> (r: Option<(u64, usize)>)
    requires
        src.wf(),
        p <= src.s().len(),
    ensures
        match r {
            Some((v, q)) => duration_with_unit(src.s(), p as int) == Some((v, q as int)) && p < q
                <= src.s().len(),
            None => duration_with_unit(src.s(), p as int) is None,
        },
{
    match lex_duration(src, p) {
        None => None,
        Some((d, q)) => {
            let ghost sub = src.s().subrange(p as int, q as int);
            let mut i = p;
            let mut found = false;
            while i < q
                invariant
                    src.wf(),
                    p <= i <= q <= src.s().len(),
                    sub == src.s().subrange(p as int, q as int),
                    found == exists|j: int| 0 <= j < i - p && is_ascii_alpha(#[trigger] sub[j]),
                decreases q - i,
            {
                let c = src.chars[i];
                if ('a' <= c && c <= 'z') || ('A' <= c && c <= 'Z') {
                    assert(sub[i - p] == c);
                    found = true;
                }
                i = i + 1;
            }
            assert(found == has_ascii_alpha(sub));
            if found {
                Some((d, q))
            } else {
                None
            }
        },
    }
}

/// The value a bare word stands for.
fn word_value_exec(w: String) -> (r: AttrValue)
    ensures
        r@ == word_value(w@),
{
    if str_is(w.as_str(), "true") {
        AttrValue::Bool(true)
    } else if str_is(w.as_str(), "false") {
        AttrValue::Bool(false)
    } else if str_is(w.as_str(), "null") {
        AttrValue::Json(String::from_str("null"))
    } else {
        AttrValue::String(w)
    }
}

/// An annotation or predicate value.
pub fn p_attr_value(src: &Src, p: usize) -> (r: Result<(AttrValue, usize), PErr>)
    requires
        src.wf(),
        p <= src.s().len(),
    ensures
        val_res(r) == sp_attr_value(src.s(), p as int),
        r is Ok ==> p < end_of(r) <= src.s().len(),
{
    let n = src.len();
    if p < n && (src.chars[p] == '{' || src.chars[p] == '[') {
        return match lex_json(src, p) {
            Some((t, q)) => Ok((AttrValue::Json(t), q)),
            None => Err(bt()),
        };
    }
    if let Some((t, q)) = lex_quoted(src, p) {
        return Ok((AttrValue::String(t), q));
    }
    if let Some((d, q)) = lex_duration_with_unit(src, p) {
        return Ok((AttrValue::Duration(d), q));
    }
    if let Some((t, q)) = lex_number(src, p) {
        return Ok((AttrValue::Number(t), q));
    }
    match lex_ident(src, p) {
        Some((w, q)) => Ok((word_value_exec(w), q)),
        None => Err(bt()),
    }
}

/// `key = value`
pub fn p_attr(src: &Src, p: usize) -> (r: Result<(ScenarioAttr, usize), PErr>)
    requires
        src.wf(),
        p <= src.s().len(),
    ensures
        val_res(r) == sp_attr(src.s(), p as int),
        r is Ok ==> p < end_of(r) <= src.s().len(),
{
    let (k, q) = match lex_ident(src, p) {
        Some(x) => x,
        None => return Err(bt()),
    };
    let q = skip_ws(src, q);
    let q = match expect_lit_e(src, q, "=", Some(Expected::AnnotationEquals)) {
        Ok(q) => q,
        Err(e) => return Err(e),
    };
    let q = skip_ws(src, q);
    match p_attr_value(src, q) {
        Ok((v, r)) => Ok((ScenarioAttr { key: k, value: v }, r)),
        Err(e) => Err(e),
    }
}

/// An annotation list closed by `end` (not consumed).
pub fn p_attr_list(src: &Src, p: usize, end: &str) -> (r: Result<(Vec<ScenarioAttr>, usize), PErr>)
    requires
        src.wf(),
        p <= src.s().len(),
    ensures
        list_res(r) == sp_attr_list(src.s(), p as int, end@),
        r is Ok ==> p <= end_of(r) <= src.s().len(),
{
    proof {
        reveal_strlit(",");
    }
    let n = src.len();
    let q = skip_ws(src, p);
    if at_lit(src, q, end) {
        let v: Vec<ScenarioAttr> = Vec::new();
        assert(views(v@) =~= Seq::<m::ScenarioAttr>::empty());
        return Ok((v, q));
    }
    let (a, r) = match p_attr(src, q) {
        Ok(x) => x,
        Err(e) => return Err(e),
    };
    let mut acc: Vec<ScenarioAttr> = Vec::new();
    acc.push(a);
    assert(views(acc@) =~= seq![a@]);
    let mut cur = r;
    loop
        invariant
            src.wf(),
            n == src.s().len(),
            p <= cur <= n,
            sp_attr_more(src.s(), cur as int, views(acc@)) == sp_attr_list(src.s(), p as int, end@),
        decreases n - cur,
    {
        proof {
            reveal_strlit(",");
        }
        let q = skip_ws(src, cur);
        if !at_lit(src, q, ",") {
            return Ok((acc, q));
        }
        let q1 = skip_ws(src, q + 1);
        match p_attr(src, q1) {
            Ok((a, r)) => {
                assert(views(acc@.push(a)) =~= views(acc@).push(a@));
                acc.push(a);
                cur = r;
            },
            Err(e) => return Err(e),
        }
    }
}

/// `#[key=value, ...]`
pub fn p_scenario_attrs(src: &Src, p: usize) -> (r: Result<(Vec<ScenarioAttr>, usize), PErr>)
    requires
        src.wf(),
        p <= src.s().len(),
    ensures
        list_res(r) == sp_scenario_attrs(src.s(), p as int),
        r is Ok ==> p <= end_of(r) <= src.s().len(),
{
    let q = skip_ws(src, p);
    let q = match expect_lit_e(src, q, "#[", Some(Expected::AnnotationOpen)) {
        Ok(q) => q,
        Err(e) => return Err(e),
    };
    let (attrs, r) = match p_attr_list(src, q, "]") {
        Ok(x) => x,
        Err(e) => return Err(e),
    };
    match expect_lit_e(src, r, "]", Some(Expected::AnnotationClose)) {
        Ok(r) => Ok((attrs, r)),
        Err(e) => Err(e),
    }
}

/// `<key=value, ...>`
pub fn p_inline_annos(src: &Src, p: usize) -> (r: Result<(Vec<ScenarioAttr>, usize), PErr>)
    requires
        src.wf(),
        p <= src.s().len(),
    ensures
        list_res(r) == sp_inline_annos(src.s(), p as int),
        r is Ok ==> p <= end_of(r) <= src.s().len(),
{
    let q = skip_ws(src, p);
    let q = match expect_lit_e(src, q, "<", Some(Expected::InlineOpen)) {
        Ok(q) => q,
        Err(e) => return Err(e),
    };
    let (attrs, r) = match p_attr_list(src, q, ">") {
        Ok(x) => x,
        Err(e) => return Err(e),
    };
    match expect_lit_e(src, r, ">", Some(Expected::InlineClose)) {
        Ok(r) => Ok((attrs, r)),
        Err(e) => Err(e),
    }
}

/// `field = value`
pub fn p_predicate(src: &Src, p: usize) -> (r: Result<(FieldPredicate, usize), PErr>)
    requires
        src.wf(),
        p <= src.s().len(),
    ensures
        val_res(r) == sp_predicate(src.s(), p as int),
        r is Ok ==> p < end_of(r) <= src.s().len(),
{
    let (f, q) = match lex_ident(src, p) {
        Some(x) => x,
        None => return Err(committed(Some(Expected::PredicateField))),
    };
    let q = skip_ws(src, q);
    let q = match expect_lit_e(src, q, "=", None) {
        Ok(q) => q,
        Err(e) => return Err(e),
    };
    let q = skip_ws(src, q);
    match p_attr_value(src, q) {
        Ok((v, r)) => Ok((FieldPredicate { field: f, value: v }, r)),
        Err(e) => Err(e),
    }
}

/// A non-empty comma-separated predicate list.
pub fn p_predicates(src: &Src, p: usize) -> (r: Result<(Vec<FieldPredicate>, usize), PErr>)
    requires
        src.wf(),
        p <= src.s().len(),
    ensures
        list_res(r) == sp_predicates(src.s(), p as int),
        r is Ok ==> p < end_of(r) <= src.s().len(),
{
    proof {
        reveal_strlit(",");
    }
    let n = src.len();
    let (a, r) = match p_predicate(src, p) {
        Ok(x) => x,
        Err(e) => return Err(e),
    };
    let mut acc: Vec<FieldPredicate> = Vec::new();
    acc.push(a);
    assert(views(acc@) =~= seq![a@]);
    let mut cur = r;
    loop
        invariant
            src.wf(),
            n == src.s().len(),
            p < cur <= n,
            sp_pred_more(src.s(), cur as int, views(acc@)) == sp_predicates(src.s(), p as int),
        decreases n - cur,
    {
        proof {
            reveal_strlit(",");
        }
        let q = skip_ws(src, cur);
        if !at_lit(src, q, ",") {
            return Ok((acc, q));
        }
        let q1 = skip_ws(src, q + 1);
        match p_predicate(src, q1) {
            Ok((a, r)) => {
                assert(views(acc@.push(a)) =~= views(acc@).push(a@));
                acc.push(a);
                cur = r;
            },
            Err(e) => return Err(e),
        }
    }
}

/// `(preds)` / `({json})` / `from "path"`
pub fn p_value_source(src: &Src, p: usize) -> (r: Result<(ValueSource, usize), PErr>)
    requires
        src.wf(),
        p <= src.s().len(),
    ensures
        val_res(r) == sp_value_source(src.s(), p as int),
        r is Ok ==> p < end_of(r) <= src.s().len(),
{
    proof {
        reveal_strlit("from");
        reveal_strlit("{");
    }
    let n = src.len();
    let p = skip_ws(src, p);
    if at_kw(src, p, "from") {
        let q = skip_ws(src, p + 4);
        return match lex_quoted(src, q) {
            Some((t, r)) => Ok((ValueSource::File(t), r)),
            None => Err(committed(Some(Expected::FilePath))),
        };
    }
    let q = match expect_lit_e(src, p, "(", None) {
        Ok(q) => q,
        Err(e) => return Err(e),
    };
    let q = skip_ws(src, q);
    let inner: Result<(ValueSource, usize), PErr> = if at_lit(src, q, "{") {
        match lex_json(src, q) {
            Some((t, r)) => Ok((ValueSource::Json(t), r)),
            None => Err(bt()),
        }
    } else {
        match p_predicates(src, q) {
            Ok((ps, r)) => Ok((ValueSource::Predicates(ps), r)),
            Err(e) => Err(e),
        }
    };
    match inner {
        Err(e) => Err(e),
        Ok((v, r)) => {
            let r = skip_ws(src, r);
            match expect_lit_e(src, r, ")", None) {
                Ok(r) => Ok((v, r)),
                Err(e) => Err(e),
            }
        },
    }
}


/// After `use`: SOURCE `x` N `;`?
pub fn p_group_tail(src: &Src, p: usize) -> (r: Result<(UseGroup, usize), PErr>)
    requires
        src.wf(),
        p <= src.s().len(),
    ensures
        val_res(r) == sp_group_tail(src.s(), p as int),
        r is Ok ==> p < end_of(r) <= src.s().len(),
{
    let (source, q) = match p_value_source(src, p) {
        Ok(x) => x,
        Err(e) => return Err(e),
    };
    let q = skip_ws(src, q);
    if at_kw(src, q, "with") {
        return Err(cut_at(Expected::LegacyWith));
    }
    let q = match expect_kw_e(src, q, "x", Some(Expected::StepCount)) {
        Ok(q) => q,
        Err(e) => return Err(e),
    };
    let q = skip_ws(src, q);
    match lex_uint(src, q) {
        Some((count, r)) => {
            let r = skip_ws(src, r);
            Ok((UseGroup { count, source }, skip_semi(src, r)))
        },
        None => Err(committed(None)),
    }
}

/// After `without`: `(preds)` (`within` D)? `;`?
pub fn p_without_tail(src: &Src, p: usize) -> (r: Result<(WithoutStep, usize), PErr>)
    requires
        src.wf(),
        p <= src.s().len(),
    ensures
        val_res(r) == sp_without_tail(src.s(), p as int),
        r is Ok ==> p < end_of(r) <= src.s().len(),
{
    let n = src.len();
    proof {
        reveal_strlit("within");
    }
    let q = skip_ws(src, p);
    let q = match expect_lit_e(src, q, "(", None) {
        Ok(q) => q,
        Err(e) => return Err(e),
    };
    let q = skip_ws(src, q);
    let (predicates, r) = match p_predicates(src, q) {
        Ok(x) => x,
        Err(e) => return Err(e),
    };
    let r = skip_ws(src, r);
    let r = match expect_lit_e(src, r, ")", None) {
        Ok(r) => r,
        Err(e) => return Err(e),
    };
    let r = skip_ws(src, r);
    if at_kw(src, r, "within") {
        let t = skip_ws(src, r + 6);
        match lex_duration(src, t) {
            Some((d, t)) => {
                let t = skip_ws(src, t);
                Ok((WithoutStep { predicates, within: Some(d) }, skip_semi(src, t)))
            },
            None => Err(committed(None)),
        }
    } else {
        Ok((WithoutStep { predicates, within: None }, skip_semi(src, r)))
    }
}

/// The groups of a `join` block up to its closing brace.
pub fn p_join_groups(src: &Src, p: usize) -> (r: Result<(Vec<UseGroup>, usize), PErr>)
    requires
        src.wf(),
        p <= src.s().len(),
    ensures
        list_res(r) == sp_join_groups(src.s(), p as int, Seq::empty()),
        r is Ok ==> p < end_of(r) <= src.s().len(),
{
    let n = src.len();
    let mut acc: Vec<UseGroup> = Vec::new();
    assert(views(acc@) =~= Seq::<m::UseGroup>::empty());
    let mut cur = p;
    loop
        invariant
            src.wf(),
            n == src.s().len(),
            p <= cur <= n,
            sp_join_groups(src.s(), cur as int, views(acc@)) == sp_join_groups(
                src.s(),
                p as int,
                Seq::empty(),
            ),
        decreases n - cur,
    {
        proof {
            reveal_strlit("}");
        }
        let q = skip_ws(src, cur);
        if at_lit(src, q, "}") {
            return Ok((acc, q + 1));
        }
        let q = skip_then(src, q);
        let q = skip_ws(src, q);
        let q = match expect_kw_e(src, q, "use", Some(Expected::EventGroup)) {
            Ok(q) => q,
            Err(e) => return Err(e),
        };
        match p_group_tail(src, q) {
            Ok((g, r)) => {
                assert(views(acc@.push(g)) =~= views(acc@).push(g@));
                acc.push(g);
                cur = r;
            },
            Err(e) => return Err(e),
        }
    }
}

/// After `join`: WINDOW `as` KEY `{` groups `}`
pub fn p_join_tail(src: &Src, p: usize) -> (r: Result<(JoinStmt, usize), PErr>)
    requires
        src.wf(),
        p <= src.s().len(),
    ensures
        val_res(r) == sp_join_tail(src.s(), p as int),
        r is Ok ==> p < end_of(r) <= src.s().len(),
{
    let q = skip_ws(src, p);
    let (window, q) = match lex_ident(src, q) {
        Some(x) => x,
        None => return Err(committed(Some(Expected::JoinWindow))),
    };
    let q = skip_ws(src, q);
    let q = match expect_kw_e(src, q, "as", Some(Expected::JoinAs)) {
        Ok(q) => q,
        Err(e) => return Err(e),
    };
    let q = skip_ws(src, q);
    let (key_field, q) = match lex_ident(src, q) {
        Some(x) => x,
        None => return Err(committed(Some(Expected::JoinKey))),
    };
    let q = skip_ws(src, q);
    let q = match expect_lit_e(src, q, "{", None) {
        Ok(q) => q,
        Err(e) => return Err(e),
    };
    match p_join_groups(src, q) {
        Ok((groups, r)) => Ok((JoinStmt { window, key_field, groups }, r)),
        Err(e) => Err(e),
    }
}

/// The legacy `<field> seq {` form starts at `p`.
fn at_legacy_seq(src: &Src, p: usize) -> (r: bool)
    requires
        src.wf(),
        p <= src.s().len(),
    ensures
        r == legacy_seq_at(src.s(), p as int),
{
    match lex_ident(src, p) {
        Some((_, e)) => {
            let q = skip_ws(src, e);
            at_kw(src, q, "seq")
        },
        None => false,
    }
}

/// The items of a case body up to its closing brace.
pub fn p_case_items(src: &Src, p: usize) -> (r: Result<
    (Vec<UseGroup>, Vec<WithoutStep>, Vec<JoinStmt>, Option<u64>, usize),
    PErr,
>)
    requires
        src.wf(),
        p <= src.s().len(),
    ensures
        match r {
            Ok((g, w, j, sp, q)) => sp_case_items(src.s(), p as int, empty_case_body()) == Ok::<
                (CaseBody, int),
                PErr,
            >(
                (
                    CaseBody {
                        groups: views(g@),
                        withouts: views(w@),
                        joins: views(j@),
                        spread: sp,
                    },
                    q as int,
                ),
            ) && p < q <= src.s().len(),
            Err(e) => sp_case_items(src.s(), p as int, empty_case_body()) == Err::<
                (CaseBody, int),
                PErr,
            >(e),
        },
{
    let n = src.len();
    let mut groups: Vec<UseGroup> = Vec::new();
    let mut withouts: Vec<WithoutStep> = Vec::new();
    let mut joins: Vec<JoinStmt> = Vec::new();
    let mut spread: Option<u64> = None;
    assert(views(groups@) =~= Seq::<m::UseGroup>::empty());
    assert(views(withouts@) =~= Seq::<m::WithoutStep>::empty());
    assert(views(joins@) =~= Seq::<m::JoinStmt>::empty());
    let mut cur = p;
    loop
        invariant
            src.wf(),
            n == src.s().len(),
            p <= cur <= n,
            sp_case_items(
                src.s(),
                cur as int,
                CaseBody {
                    groups: views(groups@),
                    withouts: views(withouts@),
                    joins: views(joins@),
                    spread,
                },
            ) == sp_case_items(src.s(), p as int, empty_case_body()),
        decreases n - cur,
    {
        proof {
            reveal_strlit("}");
            reveal_strlit("spread");
            reveal_strlit("without");
            reveal_strlit("join");
        }
        let q = skip_ws(src, cur);
        if at_lit(src, q, "}") {
            return Ok((groups, withouts, joins, spread, q + 1));
        }
        if at_kw(src, q, "spread") {
            let t = skip_ws(src, q + 6);
            match lex_duration(src, t) {
                Some((d, r)) => {
                    let r = skip_ws(src, r);
                    let r = skip_semi(src, r);
                    spread = Some(d);
                    cur = r;
                    continue;
                },
                None => return Err(committed(None)),
            }
        }
        let q = skip_then(src, q);
        let q = skip_ws(src, q);
        if at_kw(src, q, "without") {
            match p_without_tail(src, q + 7) {
                Ok((w, r)) => {
                    assert(views(withouts@.push(w)) =~= views(withouts@).push(w@));
                    withouts.push(w);
                    cur = r;
                    continue;
                },
                Err(e) => return Err(e),
            }
        }
        if at_kw(src, q, "join") {
            match p_join_tail(src, q + 4) {
                Ok((j, r)) => {
                    assert(views(joins@.push(j)) =~= views(joins@).push(j@));
                    joins.push(j);
                    cur = r;
                    continue;
                },
                Err(e) => return Err(e),
            }
        }
        if at_kw(src, q, "not") {
            return Err(cut_at(Expected::LegacyNot));
        }
        if at_legacy_seq(src, q) {
            return Err(cut_at(Expected::LegacySeq));
        }
        let q = match expect_kw_e(src, q, "use", Some(Expected::EventGroup)) {
            Ok(q) => q,
            Err(e) => return Err(e),
        };
        match p_group_tail(src, q) {
            Ok((g, r)) => {
                assert(views(groups@.push(g)) =~= views(groups@).push(g@));
                groups.push(g);
                cur = r;
            },
            Err(e) => return Err(e),
        }
    }
}

/// `for RULE STREAM { items }`
pub fn p_case_body(src: &Src, p: usize, mode: InjectCaseMode, count: u64, field: Option<String>) -> (r:
    Result<(InjectCase, usize), PErr>)
    requires
        src.wf(),
        p <= src.s().len(),
    ensures
        val_res(r) == sp_case_body(src.s(), p as int, mode, count, opt_view(field)),
        r is Ok ==> p < end_of(r) <= src.s().len(),
{
    let q = skip_ws(src, p);
    let q = match expect_kw_e(src, q, "for", Some(Expected::ForRule)) {
        Ok(q) => q,
        Err(e) => return Err(e),
    };
    let q = skip_ws(src, q);
    let (target_rule, q) = match lex_ident(src, q) {
        Some(x) => x,
        None => return Err(committed(Some(Expected::TargetRule))),
    };
    let q = skip_ws(src, q);
    let (stream, q) = match lex_ident(src, q) {
        Some(x) => x,
        None => return Err(committed(Some(Expected::CaseStream))),
    };
    let q = skip_ws(src, q);
    let q = match expect_lit_e(src, q, "{", None) {
        Ok(q) => q,
        Err(e) => return Err(e),
    };
    match p_case_items(src, q) {
        Ok((groups, withouts, joins, spread, r)) => Ok(
            (
                InjectCase {
                    mode,
                    entity_count: count,
                    entity_field: field,
                    target_rule,
                    stream,
                    groups,
                    withouts,
                    joins,
                    spread,
                },
                r,
            ),
        ),
        Err(e) => Err(e),
    }
}

/// `hit` / `near_miss` / `miss`
fn lex_mode(src: &Src, p: usize) -> (r: Option<(InjectCaseMode, usize)>)
    requires
        src.wf(),
        p <= src.s().len(),
    ensures
        match r {
            Some((mode, q)) => sp_mode(src.s(), p as int) == Some((mode, q as int)) && p < q
                <= src.s().len(),
            None => sp_mode(src.s(), p as int) is None,
        },
{
    let n = src.len();
    proof {
        reveal_strlit("hit");
        reveal_strlit("near_miss");
        reveal_strlit("miss");
    }
    if at_kw(src, p, "hit") {
        Some((InjectCaseMode::Hit, p + 3))
    } else if at_kw(src, p, "near_miss") {
        Some((InjectCaseMode::NearMiss, p + 9))
    } else if at_kw(src, p, "miss") {
        Some((InjectCaseMode::Miss, p + 4))
    } else {
        None
    }
}

/// The optional `field:` prefix of the entity count.
fn lex_entity_field(src: &Src, p: usize) -> (r: (Option<String>, usize))
    requires
        src.wf(),
        p <= src.s().len(),
    ensures
        sp_entity_field(src.s(), p as int) == (opt_view(r.0), r.1 as int),
        p <= r.1 <= src.s().len(),
{
    let n = src.len();
    proof {
        reveal_strlit(":");
    }
    match lex_ident(src, p) {
        Some((name, e)) => {
            let q = skip_ws(src, e);
            if at_lit(src, q, ":") {
                let r = skip_ws(src, q + 1);
                (Some(name), r)
            } else {
                (None, p)
            }
        },
        None => (None, p),
    }
}

/// MODE `<` [FIELD `:`] N `>` `for` ...
pub fn p_case(src: &Src, p: usize) -> (r: Result<(InjectCase, usize), PErr>)
    requires
        src.wf(),
        p <= src.s().len(),
    ensures
        val_res(r) == sp_case(src.s(), p as int),
        r is Ok ==> p < end_of(r) <= src.s().len(),
{
    let (mode, q) = match lex_mode(src, p) {
        Some(x) => x,
        None => return Err(PErr { cut: false, expected: Some(Expected::InjectionMode) }),
    };
    let q = skip_ws(src, q);
    let q = match expect_lit_e(src, q, "<", None) {
        Ok(q) => q,
        Err(e) => return Err(e),
    };
    let q = skip_ws(src, q);
    let (field, q) = lex_entity_field(src, q);
    let (count, q) = match lex_uint(src, q) {
        Some(x) => x,
        None => return Err(committed(Some(Expected::EntityCount))),
    };
    let q = skip_ws(src, q);
    if at_lit(src, q, "%") {
        return Err(cut_at(Expected::LegacyPercent));
    }
    let q = skip_ws(src, q);
    let q = match expect_lit_e(src, q, ">", None) {
        Ok(q) => q,
        Err(e) => return Err(e),
    };
    p_case_body(src, q, mode, count, field)
}

/// After `inject`: `{` cases `}`
pub fn p_injection_block(src: &Src, p: usize) -> (r: Result<(SyntaxInjectionBlock, usize), PErr>)
    requires
        src.wf(),
        p <= src.s().len(),
    ensures
        val_res(r) == sp_injection_block(src.s(), p as int),
        r is Ok ==> p < end_of(r) <= src.s().len(),
{
    let n = src.len();
    proof {
        reveal_strlit("{");
    }
    let q = skip_ws(src, p);
    let q = match expect_lit_e(src, q, "{", Some(Expected::InjectionOpen)) {
        Ok(q) => q,
        Err(e) => return Err(e),
    };
    let start = q;
    let mut acc: Vec<InjectCase> = Vec::new();
    assert(views(acc@) =~= Seq::<m::InjectCase>::empty());
    let mut cur = q;
    loop
        invariant
            src.wf(),
            n == src.s().len(),
            p < start <= cur <= n,
            sp_cases(src.s(), cur as int, views(acc@)) == sp_cases(src.s(), start as int, Seq::empty()),
            sp_injection_block(src.s(), p as int) == match sp_cases(src.s(), start as int, Seq::empty()) {
                Err(e) => Err(e),
                Ok((cs, r)) => Ok((m::SyntaxInjectionBlock { cases: cs }, r)),
            },
        decreases n - cur,
    {
        proof {
            reveal_strlit("}");
        }
        let q = skip_ws(src, cur);
        if at_lit(src, q, "}") {
            return Ok((SyntaxInjectionBlock { cases: acc }, q + 1));
        }
        match p_case(src, q) {
            Ok((c, r)) => {
                assert(views(acc@.push(c)) =~= views(acc@).push(c@));
                acc.push(c);
                cur = r;
            },
            Err(e) => return Err(e),
        }
    }
}


/// `NAME=RATE` after whitespace.
fn p_named_rate(src: &Src, p: usize, name: &str) -> (r: Result<(Rate, usize), PErr>)
    requires
        src.wf(),
        p <= src.s().len(),
    ensures
        val_res(r) == sp_named_rate(src.s(), p as int, name@),
        r is Ok ==> p < end_of(r) <= src.s().len(),
{
    let q = skip_ws(src, p);
    let q = match expect_kw_e(src, q, name, None) {
        Ok(q) => q,
        Err(e) => return Err(e),
    };
    let q = match expect_lit_e(src, q, "=", None) {
        Ok(q) => q,
        Err(e) => return Err(e),
    };
    match lex_rate(src, q) {
        Some(x) => Ok(x),
        None => Err(committed(None)),
    }
}

/// `NAME=DURATION` after whitespace.
fn p_named_duration(src: &Src, p: usize, name: &str) -> (r: Result<(u64, usize), PErr>)
    requires
        src.wf(),
        p <= src.s().len(),
    ensures
        val_res(r) == sp_named_duration(src.s(), p as int, name@),
        r is Ok ==> p < end_of(r) <= src.s().len(),
{
    let q = skip_ws(src, p);
    let q = match expect_kw_e(src, q, name, None) {
        Ok(q) => q,
        Err(e) => return Err(e),
    };
    let q = match expect_lit_e(src, q, "=", None) {
        Ok(q) => q,
        Err(e) => return Err(e),
    };
    match lex_duration(src, q) {
        Some(x) => Ok(x),
        None => Err(committed(None)),
    }
}

/// `,` after whitespace.
fn p_comma(src: &Src, p: usize) -> (r: Result<usize, PErr>)
    requires
        src.wf(),
        p <= src.s().len(),
    ensures
        pos_res(r) == sp_comma(src.s(), p as int),
        r matches Ok(q) ==> p <= q <= src.s().len(),
{
    let q = skip_ws(src, p);
    expect_lit_e(src, q, ",", None)
}

/// The optional `, shape=SHAPE` of a wave.
fn p_wave_shape(src: &Src, p: usize) -> (r: Result<(WaveShape, usize), PErr>)
    requires
        src.wf(),
        p <= src.s().len(),
    ensures
        val_res(r) == sp_wave_shape(src.s(), p as int),
        r is Ok ==> p <= end_of(r) <= src.s().len(),
{
    let n = src.len();
    proof {
        reveal_strlit(",");
        reveal_strlit("sine");
        reveal_strlit("triangle");
        reveal_strlit("square");
    }
    let q = skip_ws(src, p);
    if !at_lit(src, q, ",") {
        return Ok((WaveShape::Sine, q));
    }
    let r = skip_ws(src, q + 1);
    let r = match expect_kw_e(src, r, "shape", None) {
        Ok(r) => r,
        Err(e) => return Err(e),
    };
    let r = match expect_lit_e(src, r, "=", None) {
        Ok(r) => r,
        Err(e) => return Err(e),
    };
    if at_kw(src, r, "sine") {
        Ok((WaveShape::Sine, r + 4))
    } else if at_kw(src, r, "triangle") {
        Ok((WaveShape::Triangle, r + 8))
    } else if at_kw(src, r, "square") {
        Ok((WaveShape::Square, r + 6))
    } else {
        Err(PErr { cut: true, expected: None })
    }
}

/// After `wave`: `(base=R, amp=R, period=D[, shape=S])`
fn p_wave(src: &Src, p: usize) -> (r: Result<(RateExpr, usize), PErr>)
    requires
        src.wf(),
        p <= src.s().len(),
    ensures
        val_res(r) == sp_wave(src.s(), p as int),
        r is Ok ==> p <= end_of(r) <= src.s().len(),
{
    let q = skip_ws(src, p);
    let q = match expect_lit_e(src, q, "(", None) {
        Ok(q) => q,
        Err(e) => return Err(e),
    };
    let (base, q) = match p_named_rate(src, q, "base") {
        Ok(x) => x,
        Err(e) => return Err(e),
    };
    let q = match p_comma(src, q) {
        Ok(q) => q,
        Err(e) => return Err(e),
    };
    let (amp, q) = match p_named_rate(src, q, "amp") {
        Ok(x) => x,
        Err(e) => return Err(e),
    };
    let q = match p_comma(src, q) {
        Ok(q) => q,
        Err(e) => return Err(e),
    };
    let (period, q) = match p_named_duration(src, q, "period") {
        Ok(x) => x,
        Err(e) => return Err(e),
    };
    let (shape, q) = match p_wave_shape(src, q) {
        Ok(x) => x,
        Err(e) => return Err(e),
    };
    let q = skip_ws(src, q);
    match expect_lit_e(src, q, ")", None) {
        Ok(q) => Ok((RateExpr::Wave { base, amp, period, shape }, q)),
        Err(e) => Err(e),
    }
}

/// After `burst`: `(base=R, peak=R, every=D, hold=D)`
fn p_burst(src: &Src, p: usize) -> (r: Result<(RateExpr, usize), PErr>)
    requires
        src.wf(),
        p <= src.s().len(),
    ensures
        val_res(r) == sp_burst(src.s(), p as int),
        r is Ok ==> p <= end_of(r) <= src.s().len(),
{
    let q = skip_ws(src, p);
    let q = match expect_lit_e(src, q, "(", None) {
        Ok(q) => q,
        Err(e) => return Err(e),
    };
    let (base, q) = match p_named_rate(src, q, "base") {
        Ok(x) => x,
        Err(e) => return Err(e),
    };
    let q = match p_comma(src, q) {
        Ok(q) => q,
        Err(e) => return Err(e),
    };
    let (peak, q) = match p_named_rate(src, q, "peak") {
        Ok(x) => x,
        Err(e) => return Err(e),
    };
    let q = match p_comma(src, q) {
        Ok(q) => q,
        Err(e) => return Err(e),
    };
    let (every, q) = match p_named_duration(src, q, "every") {
        Ok(x) => x,
        Err(e) => return Err(e),
    };
    let q = match p_comma(src, q) {
        Ok(q) => q,
        Err(e) => return Err(e),
    };
    let (hold, q) = match p_named_duration(src, q, "hold") {
        Ok(x) => x,
        Err(e) => return Err(e),
    };
    let q = skip_ws(src, q);
    match expect_lit_e(src, q, ")", None) {
        Ok(q) => Ok((RateExpr::Burst { base, peak, every, hold }, q)),
        Err(e) => Err(e),
    }
}

/// One `START..END=RATE` segment.
fn p_segment(src: &Src, p: usize) -> (r: Result<(TimelineSegment, usize), PErr>)
    requires
        src.wf(),
        p <= src.s().len(),
    ensures
        val_res(r) == sp_segment(src.s(), p as int),
        r is Ok ==> p < end_of(r) <= src.s().len(),
{
    let (start, q) = match lex_duration(src, p) {
        Some(x) => x,
        None => return Err(committed(None)),
    };
    let q = skip_ws(src, q);
    let q = match expect_lit_e(src, q, "..", None) {
        Ok(q) => q,
        Err(e) => return Err(e),
    };
    let q = skip_ws(src, q);
    let (end, q) = match lex_duration(src, q) {
        Some(x) => x,
        None => return Err(committed(None)),
    };
    let q = skip_ws(src, q);
    let q = match expect_lit_e(src, q, "=", None) {
        Ok(q) => q,
        Err(e) => return Err(e),
    };
    let q = skip_ws(src, q);
    let (rate, q) = match lex_rate(src, q) {
        Some(x) => x,
        None => return Err(committed(None)),
    };
    let q = skip_ws(src, q);
    Ok((TimelineSegment { start, end, rate }, skip_semi(src, q)))
}

/// After `timeline`: `{` segments `}`
fn p_timeline(src: &Src, p: usize) -> (r: Result<(RateExpr, usize), PErr>)
    requires
        src.wf(),
        p <= src.s().len(),
    ensures
        val_res(r) == sp_timeline(src.s(), p as int),
        r is Ok ==> p <= end_of(r) <= src.s().len(),
{
    let n = src.len();
    let q = skip_ws(src, p);
    let q = match expect_lit_e(src, q, "{", None) {
        Ok(q) => q,
        Err(e) => return Err(e),
    };
    let start = q;
    let mut acc: Vec<TimelineSegment> = Vec::new();
    assert(views(acc@) =~= Seq::<m::TimelineSegment>::empty());
    let mut cur = q;
    loop
        invariant
            src.wf(),
            n == src.s().len(),
            p <= start <= cur <= n,
            sp_segments(src.s(), cur as int, views(acc@)) == sp_segments(
                src.s(),
                start as int,
                Seq::empty(),
            ),
            sp_timeline(src.s(), p as int) == match sp_segments(src.s(), start as int, Seq::empty()) {
                Err(e) => Err(e),
                Ok((segs, r)) => Ok((m::RateExpr::Timeline(segs), r)),
            },
        decreases n - cur,
    {
        proof {
            reveal_strlit("}");
        }
        let q = skip_ws(src, cur);
        if at_lit(src, q, "}") {
            let segs = acc;
            return Ok((RateExpr::Timeline(segs), q + 1));
        }
        match p_segment(src, q) {
            Ok((seg, r)) => {
                assert(views(acc@.push(seg)) =~= views(acc@).push(seg@));
                acc.push(seg);
                cur = r;
            },
            Err(e) => return Err(e),
        }
    }
}

/// A rate expression.
fn p_rate_expr(src: &Src, p: usize) -> (r: Result<(RateExpr, usize), PErr>)
    requires
        src.wf(),
        p <= src.s().len(),
    ensures
        val_res(r) == sp_rate_expr(src.s(), p as int),
        r is Ok ==> p <= end_of(r) <= src.s().len(),
{
    let n = src.len();
    proof {
        reveal_strlit("wave");
        reveal_strlit("burst");
        reveal_strlit("timeline");
    }
    if at_kw(src, p, "wave") {
        p_wave(src, p + 4)
    } else if at_kw(src, p, "burst") {
        p_burst(src, p + 5)
    } else if at_kw(src, p, "timeline") {
        p_timeline(src, p + 8)
    } else {
        match lex_rate(src, p) {
            Some((r, q)) => Ok((RateExpr::Constant(r), q)),
            None => Err(bt()),
        }
    }
}

/// The parameters of `zipf(...)` up to the closing parenthesis.
fn p_zipf_params(src: &Src, p: usize) -> (r: Result<(Option<u64>, String, String, usize), PErr>)
    requires
        src.wf(),
        p <= src.s().len(),
    ensures
        match r {
            Ok((pool, exponent, fresh, q)) => sp_zipf_params(
                src.s(),
                p as int,
                ZipfParams { pool: None, exponent: "1"@, fresh: "0"@ },
            ) == Ok::<(ZipfParams, int), PErr>(
                (ZipfParams { pool, exponent: exponent@, fresh: fresh@ }, q as int),
            ) && p < q <= src.s().len(),
            Err(e) => sp_zipf_params(
                src.s(),
                p as int,
                ZipfParams { pool: None, exponent: "1"@, fresh: "0"@ },
            ) == Err::<(ZipfParams, int), PErr>(e),
        },
{
    let n = src.len();
    let mut pool: Option<u64> = None;
    let mut exponent = String::from_str("1");
    let mut fresh = String::from_str("0");
    let mut cur = p;
    loop
        invariant
            src.wf(),
            n == src.s().len(),
            p <= cur <= n,
            sp_zipf_params(
                src.s(),
                cur as int,
                ZipfParams { pool, exponent: exponent@, fresh: fresh@ },
            ) == sp_zipf_params(
                src.s(),
                p as int,
                ZipfParams { pool: None, exponent: "1"@, fresh: "0"@ },
            ),
        decreases n - cur,
    {
        proof {
            reveal_strlit(")");
            reveal_strlit(",");
        }
        let q = skip_ws(src, cur);
        if at_lit(src, q, ")") {
            return Ok((pool, exponent, fresh, q + 1));
        }
        let (key, q) = match lex_ident(src, q) {
            Some(x) => x,
            None => return Err(committed(None)),
        };
        let q = skip_ws(src, q);
        let q = match expect_lit_e(src, q, "=", None) {
            Ok(q) => q,
            Err(e) => return Err(e),
        };
        let q = skip_ws(src, q);
        let t = if str_is(key.as_str(), "pool") {
            match lex_uint(src, q) {
                Some((v, t)) => {
                    pool = Some(v);
                    t
                },
                None => return Err(committed(None)),
            }
        } else if str_is(key.as_str(), "exponent") {
            match lex_number(src, q) {
                Some((v, t)) => {
                    exponent = v;
                    t
                },
                None => return Err(committed(None)),
            }
        } else if str_is(key.as_str(), "fresh") {
            match lex_number(src, q) {
                Some((v, t)) => {
                    fresh = v;
                    t
                },
                None => return Err(committed(None)),
            }
        } else {
            return Err(cut_at(Expected::ZipfUnknownParam));
        };
        let t = skip_ws(src, t);
        let t = if at_lit(src, t, ",") {
            t + 1
        } else {
            t
        };
        cur = t;
    }
}

/// After `entity`: WINDOW `.` FIELD `zipf(...)` `;`?
fn p_entity_tail(src: &Src, p: usize) -> (r: Result<(EntityDistStmt, usize), PErr>)
    requires
        src.wf(),
        p <= src.s().len(),
    ensures
        val_res(r) == sp_entity_tail(src.s(), p as int),
        r is Ok ==> p < end_of(r) <= src.s().len(),
{
    let q = skip_ws(src, p);
    let (window, q) = match lex_ident(src, q) {
        Some(x) => x,
        None => return Err(committed(Some(Expected::EntityWindow))),
    };
    let q = skip_ws(src, q);
    let q = match expect_lit_e(src, q, ".", None) {
        Ok(q) => q,
        Err(e) => return Err(e),
    };
    let q = skip_ws(src, q);
    let (field, q) = match lex_ident(src, q) {
        Some(x) => x,
        None => return Err(committed(Some(Expected::EntityField))),
    };
    let q = skip_ws(src, q);
    let q = match expect_kw_e(src, q, "zipf", Some(Expected::EntityZipf)) {
        Ok(q) => q,
        Err(e) => return Err(e),
    };
    let q = skip_ws(src, q);
    let q = match expect_lit_e(src, q, "(", None) {
        Ok(q) => q,
        Err(e) => return Err(e),
    };
    match p_zipf_params(src, q) {
        Err(e) => Err(e),
        Ok((pool, exponent, fresh, r)) => match pool {
            None => Err(cut_at(Expected::ZipfMissingPool)),
            Some(pool) => {
                let r = skip_ws(src, r);
                Ok((EntityDistStmt { window, field, pool, exponent, fresh }, skip_semi(src, r)))
            },
        },
    }
}

/// `stream NAME gen RATE_EXPR ;?`
fn p_stream_decl(src: &Src, p: usize) -> (r: Result<(SyntaxStreamDecl, usize), PErr>)
    requires
        src.wf(),
        p <= src.s().len(),
    ensures
        val_res(r) == sp_stream_decl(src.s(), p as int),
        r is Ok ==> p < end_of(r) <= src.s().len(),
{
    proof {
        reveal_strlit("stream");
    }
    let q = match expect_kw_e(src, p, "stream", Some(Expected::StreamKeyword)) {
        Ok(q) => q,
        Err(e) => return Err(e),
    };
    let q = skip_ws(src, q);
    let (stream, q) = match lex_ident(src, q) {
        Some(x) => x,
        None => return Err(committed(Some(Expected::StreamName))),
    };
    let q = skip_ws(src, q);
    let q = match expect_kw_e(src, q, "gen", Some(Expected::GenKeyword)) {
        Ok(q) => q,
        Err(e) => return Err(e),
    };
    let q = skip_ws(src, q);
    match p_rate_expr(src, q) {
        Err(e) => Err(recommit(e, Some(Expected::RateExpression))),
        Ok((rate, r)) => {
            let r = skip_ws(src, r);
            Ok((SyntaxStreamDecl { stream, rate }, skip_semi(src, r)))
        },
    }
}

/// After `background`: `{` items `}`
pub fn p_background_block(src: &Src, p: usize) -> (r: Result<(BackgroundBlock, usize), PErr>)
    requires
        src.wf(),
        p <= src.s().len(),
    ensures
        val_res(r) == sp_background_block(src.s(), p as int),
        r is Ok ==> p < end_of(r) <= src.s().len(),
{
    let n = src.len();
    proof {
        reveal_strlit("{");
    }
    let q = skip_ws(src, p);
    let q = match expect_lit_e(src, q, "{", Some(Expected::BackgroundOpen)) {
        Ok(q) => q,
        Err(e) => return Err(e),
    };
    let start = q;
    let mut streams: Vec<SyntaxStreamDecl> = Vec::new();
    let mut entities: Vec<EntityDistStmt> = Vec::new();
    assert(views(streams@) =~= Seq::<m::SyntaxStreamDecl>::empty());
    assert(views(entities@) =~= Seq::<m::EntityDistStmt>::empty());
    let mut cur = q;
    loop
        invariant
            src.wf(),
            n == src.s().len(),
            p < start <= cur <= n,
            sp_bg_items(
                src.s(),
                cur as int,
                m::BackgroundBlock { streams: views(streams@), entities: views(entities@) },
            ) == sp_background_block(src.s(), p as int),
        decreases n - cur,
    {
        proof {
            reveal_strlit("}");
            reveal_strlit("entity");
        }
        let q = skip_ws(src, cur);
        if at_kw(src, q, "entity") {
            match p_entity_tail(src, q + 6) {
                Ok((ent, r)) => {
                    assert(views(entities@.push(ent)) =~= views(entities@).push(ent@));
                    entities.push(ent);
                    cur = r;
                    continue;
                },
                Err(e) => return Err(e),
            }
        }
        if at_lit(src, q, "}") {
            return Ok((BackgroundBlock { streams, entities }, q + 1));
        }
        match p_stream_decl(src, q) {
            Ok((d, r)) => {
                assert(views(streams@.push(d)) =~= views(streams@).push(d@));
                streams.push(d);
                cur = r;
            },
            Err(e) => return Err(e),
        }
    }
}

/// After `replay`: WINDOW `{` `use from "file"` `;`? `}`
pub fn p_replay_tail(src: &Src, p: usize) -> (r: Result<(ReplayStmt, usize), PErr>)
    requires
        src.wf(),
        p <= src.s().len(),
    ensures
        val_res(r) == sp_replay_tail(src.s(), p as int),
        r is Ok ==> p < end_of(r) <= src.s().len(),
{
    let q = skip_ws(src, p);
    let (window, q) = match lex_ident(src, q) {
        Some(x) => x,
        None => return Err(committed(Some(Expected::ReplayWindow))),
    };
    let q = skip_ws(src, q);
    let q = match expect_lit_e(src, q, "{", Some(Expected::ReplayOpen)) {
        Ok(q) => q,
        Err(e) => return Err(e),
    };
    let q = skip_ws(src, q);
    let q = match expect_kw_e(src, q, "use", Some(Expected::ReplayUse)) {
        Ok(q) => q,
        Err(e) => return Err(e),
    };
    let q = skip_ws(src, q);
    match p_value_source(src, q) {
        Err(e) => Err(recommit(e, None)),
        Ok((ValueSource::File(file), q)) => {
            let q = skip_ws(src, q);
            if at_kw(src, q, "x") {
                return Err(cut_at(Expected::ReplayCount));
            }
            let q = skip_semi(src, q);
            let q = skip_ws(src, q);
            match expect_lit_e(src, q, "}", Some(Expected::ReplayClose)) {
                Ok(r) => Ok((ReplayStmt { window, file, records: None }, r)),
                Err(e) => Err(e),
            }
        },
        Ok(_) => Err(cut_at(Expected::ReplaySource)),
    }
}

} // verus!
