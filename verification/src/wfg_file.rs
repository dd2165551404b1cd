//! Scenario-level parsing: the scenario body, the header values derived from
//! it, the `use` lines, and a whole `.wfg` text.

use vstd::prelude::*;

use crate::error::{WfgenError, WfgenReason};
use crate::text::str_is;
use crate::wfg_ast::{
    AttrValue, BackgroundBlock, Rate, RateExpr, RateUnit, ReplayStmt, ScenarioAttr, ScenarioDecl,
    StreamBlock, SyntaxInjectionBlock, SyntaxScenario, SyntaxStreamDecl, TimeClause, UseDecl,
    WfgFile, opt_view, views,
};
use crate::wfg_grammar::{
    BodyParts, base_rate, byte_prefix, derived_total, escape_char, escape_text, events_per_hour,
    first_attr, hex_digit, is_plain_control, legacy_stream, nanos_per_hour, parse_failure_message,
    per_hour_sum, scenario_duration, scenario_of, scenario_seed, sp_body_items, sp_scenario,
    sp_uses, sp_wfg_file, spec_parse_wfg, stream_per_hour, trailing_message, units_per_hour,
    utf8_len, ws,
};
use crate::wfg_lexer::{Src, at_kw, at_lit, lex_ident, lex_quoted, number_truncate, push_char, skip_ws};
use crate::wfg_model as m;
use crate::wfg_parse_error::{Expected, PErr, expected_message};
use crate::wfg_parser::{
    committed, end_of, expect_kw_e, expect_lit_e, list_res, p_background_block, p_inline_annos,
    p_injection_block, p_replay_tail, p_scenario_attrs, val_res,
};

verus! {

broadcast use vstd::string::group_string_axioms;

// ---------------------------------------------------------------------------
// Scenario body
// ---------------------------------------------------------------------------

/// What a scenario body holds once read.
pub struct BodyOut {
    pub background: Option<BackgroundBlock>,
    pub injection: Option<SyntaxInjectionBlock>,
    pub replays: Vec<ReplayStmt>,
}

impl View for BodyOut {
    type V = BodyParts;

    open spec fn view(&self) -> BodyParts {
        BodyParts {
            background: opt_view(self.background),
            injection: opt_view(self.injection),
            replays: views(self.replays@),
        }
    }
}

/// The empty body.
pub open spec fn no_body() -> BodyParts {
    BodyParts { background: None, injection: None, replays: Seq::empty() }
}

/// The items of the scenario body up to its closing brace.
pub fn p_body_items(src: &Src, p: usize) -> (r: Result<(BodyOut, usize), PErr>)
    requires
        src.wf(),
        p <= src.s().len(),
    ensures
        val_res(r) == sp_body_items(src.s(), p as int, no_body()),
        r is Ok ==> p < end_of(r) <= src.s().len(),
{
    let n = src.len();
    let mut background: Option<BackgroundBlock> = None;
    let mut injection: Option<SyntaxInjectionBlock> = None;
    let mut replays: Vec<ReplayStmt> = Vec::new();
    assert(views(replays@) =~= Seq::<m::ReplayStmt>::empty());
    let mut cur = p;
    loop
        invariant
            src.wf(),
            n == src.s().len(),
            p <= cur <= n,
            sp_body_items(
                src.s(),
                cur as int,
                BodyParts {
                    background: opt_view(background),
                    injection: opt_view(injection),
                    replays: views(replays@),
                },
            ) == sp_body_items(src.s(), p as int, no_body()),
        decreases n - cur,
    {
        proof {
            reveal_strlit("}");
            reveal_strlit("background");
            reveal_strlit("inject");
            reveal_strlit("replay");
            reveal_strlit("traffic");
            reveal_strlit("injection");
        }
        let q = skip_ws(src, cur);
        if at_lit(src, q, "}") {
            return Ok((BodyOut { background, injection, replays }, q + 1));
        }
        if at_kw(src, q, "background") {
            match p_background_block(src, q + 10) {
                Ok((b, r)) => {
                    background = Some(b);
                    cur = r;
                    continue ;
                },
                Err(e) => return Err(e),
            }
        }
        if at_kw(src, q, "inject") {
            match p_injection_block(src, q + 6) {
                Ok((b, r)) => {
                    injection = Some(b);
                    cur = r;
                    continue ;
                },
                Err(e) => return Err(e),
            }
        }
        if at_kw(src, q, "replay") {
            match p_replay_tail(src, q + 6) {
                Ok((st, r)) => {
                    assert(views(replays@.push(st)) =~= views(replays@).push(st@));
                    replays.push(st);
                    cur = r;
                    continue ;
                },
                Err(e) => return Err(e),
            }
        }
        if at_kw(src, q, "traffic") {
            return Err(crate::wfg_parser::cut_at(Expected::LegacyTraffic));
        }
        if at_kw(src, q, "injection") {
            return Err(crate::wfg_parser::cut_at(Expected::LegacyInjection));
        }
        return Err(crate::wfg_parser::cut_at(Expected::BodyItem));
    }
}

// ---------------------------------------------------------------------------
// Header values
// ---------------------------------------------------------------------------

/// The index of the first attribute named `key`.
pub fn first_attr_index(attrs: &Vec<ScenarioAttr>, key: &str) -> (r: Option<usize>)
    ensures
        match r {
            Some(i) => i < attrs.len() && first_attr(views(attrs@), key@) == Some(
                attrs@[i as int].value@,
            ),
            None => first_attr(views(attrs@), key@) is None,
        },
{
    let mut i: usize = 0;
    assert(views(attrs@).skip(0) =~= views(attrs@));
    while i < attrs.len()
        invariant
            i <= attrs.len(),
            first_attr(views(attrs@), key@) == first_attr(views(attrs@).skip(i as int), key@),
        decreases attrs.len() - i,
    {
        proof {
            let t = views(attrs@).skip(i as int);
            assert(t.drop_first() =~= views(attrs@).skip(i as int + 1));
            assert(t[0] == attrs@[i as int]@);
        }
        if str_is(attrs[i].key.as_str(), key) {
            return Some(i);
        }
        i = i + 1;
    }
    assert(views(attrs@).skip(i as int) =~= Seq::<m::ScenarioAttr>::empty());
    None
}

/// The scenario seed from the inline annotations.
pub fn seed_of(annos: &Vec<ScenarioAttr>) -> (r: u64)
    ensures
        r == scenario_seed(views(annos@)),
{
    proof {
        reveal_strlit("seed");
    }
    match first_attr_index(annos, "seed") {
        Some(i) => match &annos[i].value {
            AttrValue::Number(t) => number_truncate(t.as_str()),
            _ => 0,
        },
        None => 0,
    }
}

/// The scenario duration from the `#[...]` attributes.
pub fn duration_of(attrs: &Vec<ScenarioAttr>) -> (r: u64)
    ensures
        r == scenario_duration(views(attrs@)),
{
    proof {
        reveal_strlit("duration");
    }
    match first_attr_index(attrs, "duration") {
        Some(i) => match &attrs[i].value {
            AttrValue::Duration(d) => *d,
            _ => 60_000_000_000,
        },
        None => 60_000_000_000,
    }
}

/// The rate a rate expression is budgeted with.
pub fn base_rate_of(e: &RateExpr) -> (r: Option<Rate>)
    ensures
        opt_view(r) == base_rate(e@),
{
    match e {
        RateExpr::Constant(r) => Some(*r),
        RateExpr::Wave { base, .. } => Some(*base),
        RateExpr::Burst { base, .. } => Some(*base),
        RateExpr::Timeline(segs) => {
            if segs.len() > 0 {
                Some(segs[0].rate)
            } else {
                None
            }
        },
    }
}

/// Events per hour a stream is budgeted with.
pub fn stream_per_hour_of(d: &SyntaxStreamDecl) -> (x: u128)
    ensures
        x == stream_per_hour(d@),
        x <= u64::MAX * 3600,
{
    match base_rate_of(&d.rate) {
        Some(r) => {
            let k: u128 = match r.unit {
                RateUnit::PerSecond => 3600,
                RateUnit::PerMinute => 60,
                RateUnit::PerHour => 1,
            };
            assert((r.count as u128) * k <= u64::MAX * 3600) by (nonlinear_arith)
                requires
                    k <= 3600,
                    r.count <= u64::MAX,
            ;
            (r.count as u128) * k
        },
        None => 0,
    }
}

/// An hour in nanoseconds, times 2^64: a rate sum times a duration at or above
/// this makes the event budget exceed `u64::MAX`.
pub open spec fn budget_limit() -> int {
    nanos_per_hour() * 0x1_0000_0000_0000_0000
}

/// A rate sum, held at `budget_limit() + 1` once it exceeds the limit.
pub open spec fn capped_sum(n: nat) -> int {
    if n > budget_limit() {
        budget_limit() + 1
    } else {
        n as int
    }
}

/// The events per hour of all streams, held at `budget_limit() + 1`.
fn per_hour_capped(streams: &Vec<SyntaxStreamDecl>) -> (n: u128)
    ensures
        n == capped_sum(per_hour_sum(views(streams@))),
{
    let lim: u128 = 66408278665354385817600000000000;
    assert(lim == budget_limit());
    let mut acc: u128 = 0;
    let mut i: usize = 0;
    assert(views(streams@).take(0) =~= Seq::<m::SyntaxStreamDecl>::empty());
    while i < streams.len()
        invariant
            i <= streams.len(),
            lim == budget_limit(),
            acc == capped_sum(per_hour_sum(views(streams@).take(i as int))),
        decreases streams.len() - i,
    {
        let x = stream_per_hour_of(&streams[i]);
        proof {
            let t = views(streams@).take(i as int + 1);
            assert(t.drop_last() =~= views(streams@).take(i as int));
            assert(t.last() == streams@[i as int]@);
        }
        let s = acc + x;
        acc = if s > lim {
            lim + 1
        } else {
            s
        };
        i = i + 1;
    }
    assert(views(streams@).take(i as int) =~= views(streams@));
    acc
}

proof fn lemma_budget_over(nn: int, nc: int, d: int)
    requires
        d > 0,
        0 <= nc <= nn,
        nc > budget_limit() / d,
    ensures
        (2 * nn * d + nanos_per_hour()) / (2 * nanos_per_hour()) > u64::MAX,
{
    let l = budget_limit();
    let h = nanos_per_hour();
    vstd::arithmetic::div_mod::lemma_fundamental_div_mod(l, d);
    vstd::arithmetic::div_mod::lemma_mod_bound(l, d);
    assert(nc * d >= (l / d + 1) * d) by (nonlinear_arith)
        requires
            nc >= l / d + 1,
            d > 0,
    ;
    assert(nn * d >= nc * d) by (nonlinear_arith)
        requires
            nn >= nc,
            d > 0,
    ;
    assert((l / d + 1) * d == d * (l / d) + d) by (nonlinear_arith);
    assert(2 * nn * d == 2 * (nn * d)) by (nonlinear_arith);
    assert(l == h * 0x1_0000_0000_0000_0000);
    let x = 2 * nn * d + h;
    assert(x >= 2 * h * 0x1_0000_0000_0000_0000);
    vstd::arithmetic::div_mod::lemma_div_is_ordered(2 * h * 0x1_0000_0000_0000_0000, x, 2 * h);
    vstd::arithmetic::div_mod::lemma_div_by_multiple(0x1_0000_0000_0000_0000, 2 * h);
    assert((2 * h * 0x1_0000_0000_0000_0000) / (2 * h) == 0x1_0000_0000_0000_0000) by {
        vstd::arithmetic::mul::lemma_mul_is_commutative(2 * h, 0x1_0000_0000_0000_0000);
    }
}

proof fn lemma_budget_within(n: int, d: int)
    requires
        d > 0,
        0 <= n <= budget_limit() / d,
    ensures
        n * d <= budget_limit(),
{
    let l = budget_limit();
    vstd::arithmetic::div_mod::lemma_fundamental_div_mod(l, d);
    vstd::arithmetic::div_mod::lemma_mod_bound(l, d);
    assert(n * d <= (l / d) * d) by (nonlinear_arith)
        requires
            n <= l / d,
            d > 0,
    ;
    assert((l / d) * d == d * (l / d)) by (nonlinear_arith);
}

/// The background event budget of a scenario that lasts `duration` nanoseconds.
pub fn derived_total_of(bg: &BackgroundBlock, duration: u64) -> (t: u64)
    ensures
        t == derived_total(bg@, duration),
{
    let nc = per_hour_capped(&bg.streams);
    let ghost nn = per_hour_sum(bg@.streams);
    if nc == 0 {
        return 1;
    }
    let h: u128 = 3_600_000_000_000;
    if duration == 0 {
        assert((2 * nn * 0 + nanos_per_hour()) / (2 * nanos_per_hour()) == 0) by (nonlinear_arith);
        return 1;
    }
    let lim: u128 = 66408278665354385817600000000000;
    assert(lim == budget_limit());
    let d = duration as u128;
    if nc > lim / d {
        proof {
            lemma_budget_over(nn as int, nc as int, d as int);
        }
        return u64::MAX;
    }
    proof {
        lemma_budget_within(nc as int, d as int);
        assert(nc as int == nn);
    }
    let nd = nc * d;
    assert(2 * nn * duration == 2 * (nc * d)) by (nonlinear_arith)
        requires
            nn == nc,
            d == duration,
    ;
    let t = (2 * nd + h) / (2 * h);
    if t < 1 {
        1
    } else if t > 0xffff_ffff_ffff_ffff {
        u64::MAX
    } else {
        t as u64
    }
}

/// The header streams derived from the background streams.
pub fn header_streams(streams: &Vec<SyntaxStreamDecl>) -> (r: Vec<StreamBlock>)
    ensures
        views(r@) == views(streams@).map_values(|d: m::SyntaxStreamDecl| legacy_stream(d)),
{
    let mut out: Vec<StreamBlock> = Vec::new();
    let mut i: usize = 0;
    while i < streams.len()
        invariant
            i <= streams.len(),
            views(out@) == views(streams@).take(i as int).map_values(
                |d: m::SyntaxStreamDecl| legacy_stream(d),
            ),
        decreases streams.len() - i,
    {
        let d = &streams[i];
        let rate = match base_rate_of(&d.rate) {
            Some(r) => r,
            None => Rate { count: 1, unit: RateUnit::PerSecond },
        };
        let b = StreamBlock { alias: d.stream.clone(), window: d.stream.clone(), rate };
        proof {
            assert(b@ == legacy_stream(streams@[i as int]@));
            assert(views(out@.push(b)) =~= views(out@).push(b@));
            assert(views(streams@).take(i as int + 1).map_values(
                |d: m::SyntaxStreamDecl| legacy_stream(d),
            ) =~= views(streams@).take(i as int).map_values(
                |d: m::SyntaxStreamDecl| legacy_stream(d),
            ).push(legacy_stream(streams@[i as int]@)));
        }
        out.push(b);
        i = i + 1;
    }
    assert(views(streams@).take(i as int) =~= views(streams@));
    out
}

// ---------------------------------------------------------------------------
// Scenario and file
// ---------------------------------------------------------------------------

/// `#[...]`? `scenario` NAME `<...>`? `{` body `}`
pub fn p_scenario(src: &Src, p: usize) -> (r: Result<((ScenarioDecl, SyntaxScenario), usize), PErr>)
    requires
        src.wf(),
        p <= src.s().len(),
    ensures
        val_res(r) == sp_scenario(src.s(), p as int),
        r is Ok ==> p < end_of(r) <= src.s().len(),
{
    proof {
        reveal_strlit("#[");
        reveal_strlit("<");
        reveal_strlit("{");
        reveal_strlit("scenario");
    }
    let p = skip_ws(src, p);
    let (attrs, q) = if at_lit(src, p, "#[") {
        match p_scenario_attrs(src, p) {
            Ok(x) => x,
            Err(e) => return Err(e),
        }
    } else {
        (Vec::new(), p)
    };
    assert(attrs@.len() == 0 ==> views(attrs@) =~= Seq::<m::ScenarioAttr>::empty());
    let q = skip_ws(src, q);
    let q = match expect_kw_e(src, q, "scenario", Some(Expected::ScenarioKeyword)) {
        Ok(q) => q,
        Err(e) => return Err(e),
    };
    let q = skip_ws(src, q);
    let (name, q) = match lex_ident(src, q) {
        Some(x) => x,
        None => return Err(committed(Some(Expected::ScenarioName))),
    };
    let q = skip_ws(src, q);
    let (annos, q) = if at_lit(src, q, "<") {
        match p_inline_annos(src, q) {
            Ok(x) => x,
            Err(e) => return Err(e),
        }
    } else {
        (Vec::new(), q)
    };
    assert(annos@.len() == 0 ==> views(annos@) =~= Seq::<m::ScenarioAttr>::empty());
    let q = skip_ws(src, q);
    let q = match expect_lit_e(src, q, "{", Some(Expected::BodyOpen)) {
        Ok(q) => q,
        Err(e) => return Err(e),
    };
    let (body, r) = match p_body_items(src, q) {
        Ok(x) => x,
        Err(e) => return Err(e),
    };
    let BodyOut { background, injection, replays } = body;
    let bg = match background {
        Some(bg) => bg,
        None => return Err(crate::wfg_parser::cut_at(Expected::BackgroundRequired)),
    };
    let duration = duration_of(&attrs);
    let decl = ScenarioDecl {
        name,
        seed: seed_of(&annos),
        time_clause: TimeClause { start: String::from_str("2026-01-01T00:00:00Z"), duration },
        total: derived_total_of(&bg, duration),
        streams: header_streams(&bg.streams),
    };
    let syntax = SyntaxScenario { attrs, inline_annos: annos, background: bg, injection, replays };
    Ok(((decl, syntax), r))
}

/// The `use "path"` declarations at the top of the file.
pub fn p_uses(src: &Src) -> (r: Result<(Vec<UseDecl>, usize), PErr>)
    requires
        src.wf(),
    ensures
        list_res(r) == sp_uses(src.s(), 0, Seq::empty()),
        r is Ok ==> end_of(r) <= src.s().len(),
{
    let n = src.len();
    let mut uses: Vec<UseDecl> = Vec::new();
    assert(views(uses@) =~= Seq::<m::UseDecl>::empty());
    let mut cur: usize = 0;
    loop
        invariant
            src.wf(),
            n == src.s().len(),
            cur <= n,
            sp_uses(src.s(), cur as int, views(uses@)) == sp_uses(src.s(), 0, Seq::empty()),
        decreases n - cur,
    {
        proof {
            reveal_strlit("use");
        }
        let q = skip_ws(src, cur);
        if !at_kw(src, q, "use") {
            return Ok((uses, q));
        }
        let q2 = skip_ws(src, q + 3);
        match lex_quoted(src, q2) {
            Some((path, r)) => {
                let u = UseDecl { path };
                assert(views(uses@.push(u)) =~= views(uses@).push(u@));
                uses.push(u);
                cur = r;
            },
            None => return Err(committed(Some(Expected::UsePath))),
        }
    }
}

/// The message of a parse failure.
pub fn failure_message(e: PErr) -> (r: String)
    ensures
        r@ == parse_failure_message(e),
{
    let mut out = String::from_str("parse error: ");
    match e.expected {
        Some(x) => {
            out.append("expected ");
            out.append(expected_message(x).as_str());
        },
        None => out.append("unexpected input"),
    }
    out
}

/// Appends `c` as it is written inside an escaped, quoted string.
fn push_escaped(out: &mut String, c: char)
    ensures
        final(out)@ == old(out)@ + escape_char(c),
{
    if c == '"' || c == '\\' {
        push_char(out, '\\');
        push_char(out, c);
    } else if c == '\n' {
        push_char(out, '\\');
        push_char(out, 'n');
    } else if c == '\r' {
        push_char(out, '\\');
        push_char(out, 'r');
    } else if c == '\t' {
        push_char(out, '\\');
        push_char(out, 't');
    } else if c == '\0' {
        push_char(out, '\\');
        push_char(out, '0');
    } else if (c as u32) < 0x20 || (c as u32) == 0x7f {
        let v = c as u32;
        push_char(out, '\\');
        push_char(out, 'u');
        push_char(out, '{');
        if v >= 16 {
            push_char(out, hex_char(v / 16));
        }
        push_char(out, hex_char(v % 16));
        push_char(out, '}');
    } else {
        push_char(out, c);
    }
    proof {
        assert(final(out)@ =~= old(out)@ + escape_char(c));
    }
}

fn hex_char(v: u32) -> (c: char)
    requires
        v < 16,
    ensures
        c == hex_digit(v as int),
{
    let b = v as u8;
    if b < 10 {
        (48u8 + b) as char
    } else {
        (87u8 + b) as char
    }
}

/// The message for the input left over from position `r`.
fn trailing_message_of(src: &Src, r: usize) -> (m: String)
    requires
        src.wf(),
        r <= src.s().len(),
    ensures
        m@ == trailing_message(src.s().subrange(r as int, src.s().len() as int)),
{
    let n = src.len();
    let ghost rest = src.s().subrange(r as int, n as int);
    let mut out = String::from_str("unexpected trailing content: ");
    push_char(&mut out, '"');
    let ghost head = out@;
    let mut i = r;
    let mut budget: i64 = 60;
    while i < n
        invariant
            src.wf(),
            n == src.s().len(),
            r <= i <= n,
            0 <= budget <= 60,
            rest == src.s().subrange(r as int, n as int),
            byte_prefix(rest, 60) == src.s().subrange(r as int, i as int) + byte_prefix(
                src.s().subrange(i as int, n as int),
                budget as int,
            ),
            out@ == head + escape_text(src.s().subrange(r as int, i as int)),
        ensures
            r <= i <= n,
            byte_prefix(rest, 60) == src.s().subrange(r as int, i as int),
            out@ == head + escape_text(src.s().subrange(r as int, i as int)),
        decreases n - i,
    {
        let c = src.chars[i];
        let k: i64 = if (c as u32) < 0x80 {
            1
        } else if (c as u32) < 0x800 {
            2
        } else if (c as u32) < 0x10000 {
            3
        } else {
            4
        };
        assert(k == utf8_len(c));
        let ghost t = src.s().subrange(i as int, n as int);
        assert(t[0] == c);
        if k > budget {
            assert(byte_prefix(t, budget as int) =~= Seq::<char>::empty());
            break;
        }
        proof {
            assert(t.drop_first() =~= src.s().subrange(i as int + 1, n as int));
            assert(src.s().subrange(r as int, i as int + 1) =~= src.s().subrange(r as int, i as int).push(c));
            assert(src.s().subrange(r as int, i as int).push(c).drop_last() =~= src.s().subrange(r as int, i as int));
        }
        push_escaped(&mut out, c);
        budget = budget - k;
        i = i + 1;
        proof {
            assert(src.s().subrange(r as int, i as int) + byte_prefix(src.s().subrange(i as int, n as int), budget as int)
                =~= src.s().subrange(r as int, i as int - 1) + (seq![c] + byte_prefix(src.s().subrange(i as int, n as int), budget as int)));
        }
    }
    push_char(&mut out, '"');
    assert(out@ =~= "unexpected trailing content: "@ + seq!['"'] + escape_text(byte_prefix(rest, 60)) + seq!['"']);
    out
}

/// Parses a `.wfg` scenario text.
///
/// Fails with a [`WfgenReason::Parse`] error whose detail is `parse error: ...`
/// when the text is not a scenario, or `unexpected trailing content: "..."`
/// when something other than whitespace and comments follows the scenario.
pub fn parse_wfg(input: &str) -> (r: Result<WfgFile, WfgenError>)
    ensures
        match r {
            Ok(f) => spec_parse_wfg(input@) == Ok::<m::WfgFile, Seq<char>>(f@),
            Err(e) => e.reason == WfgenReason::Parse && spec_parse_wfg(input@) == Err::<
                m::WfgFile,
                Seq<char>,
            >(e.detail@),
        },
{
    let src = Src::new(input);
    let (uses, q) = match p_uses(&src) {
        Ok(x) => x,
        Err(e) => return Err(WfgenError::new(WfgenReason::Parse, failure_message(e))),
    };
    let q = skip_ws(&src, q);
    let ((decl, syntax), r) = match p_scenario(&src, q) {
        Ok(x) => x,
        Err(e) => return Err(WfgenError::new(WfgenReason::Parse, failure_message(e))),
    };
    let file = WfgFile { uses, scenario: decl, syntax: Some(syntax) };
    let r2 = skip_ws(&src, r);
    if r2 < src.len() {
        return Err(WfgenError::new(WfgenReason::Parse, trailing_message_of(&src, r2)));
    }
    Ok(file)
}

/// Sets the scenario duration (as a `--duration` override does) and, when the
/// file has a syntax section, recomputes the background budget for it.
pub fn override_duration(wfg: &mut WfgFile, duration: u64)
    ensures
        final(wfg).scenario.time_clause.duration == duration,
        final(wfg).scenario.time_clause.start == old(wfg).scenario.time_clause.start,
        final(wfg).scenario.name == old(wfg).scenario.name,
        final(wfg).scenario.seed == old(wfg).scenario.seed,
        final(wfg).scenario.streams == old(wfg).scenario.streams,
        final(wfg).uses == old(wfg).uses,
        final(wfg).syntax == old(wfg).syntax,
        final(wfg).scenario.total == match old(wfg).syntax {
            Some(sy) => derived_total(sy.background@, duration),
            None => old(wfg).scenario.total,
        },
{
    wfg.scenario.time_clause.duration = duration;
    let total = match &wfg.syntax {
        Some(sy) => Some(derived_total_of(&sy.background, duration)),
        None => None,
    };
    match total {
        Some(t) => {
            wfg.scenario.total = t;
        },
        None => {},
    }
}

} // verus!
