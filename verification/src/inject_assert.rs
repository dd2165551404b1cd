//! Injection mode assertions at generation time: every entity of a `hit`
//! case must raise at least one alert of its rule (INJ1), and no entity of a
//! `near_miss` / `miss` case may raise one (INJ2).

use vstd::prelude::*;

use crate::error::{WfgenError, WfgenReason};
use crate::text::{dec_text, push_decimal, str_is};
use crate::verify::{OracleAlert, OracleAlertModel};
use crate::wfg_ast::{InjectCaseMode, views};

verus! {

broadcast use vstd::string::group_string_axioms;

/// At most this many failures of each kind are listed.
pub const MAX_EXAMPLES: usize = 5;

/// The count and threshold of an injected entity on one bind.
#[derive(Debug, Clone, PartialEq)]
pub struct InjectStepCount {
    pub bind_alias: String,
    pub count: u64,
    pub threshold: u64,
}

pub struct StepModel {
    pub bind_alias: Seq<char>,
    pub count: u64,
    pub threshold: u64,
}

impl View for InjectStepCount {
    type V = StepModel;

    open spec fn view(&self) -> StepModel {
        StepModel { bind_alias: self.bind_alias@, count: self.count, threshold: self.threshold }
    }
}

/// An injected entity.
#[derive(Debug, Clone, PartialEq)]
pub struct InjectEntityKey {
    /// The target rule.
    pub rule: String,
    pub mode: InjectCaseMode,
    /// 1-based index within its case.
    pub index: u64,
    /// The field that identifies the entity.
    pub field: String,
    /// The entity's value of that field, rendered as the oracle renders entity ids.
    pub entity_id: String,
    /// Counts and thresholds per bind.
    pub steps: Vec<InjectStepCount>,
}

pub struct EntityModel {
    pub rule: Seq<char>,
    pub mode: InjectCaseMode,
    pub index: u64,
    pub field: Seq<char>,
    pub entity_id: Seq<char>,
    pub steps: Seq<StepModel>,
}

impl View for InjectEntityKey {
    type V = EntityModel;

    open spec fn view(&self) -> EntityModel {
        EntityModel {
            rule: self.rule@,
            mode: self.mode,
            index: self.index,
            field: self.field@,
            entity_id: self.entity_id@,
            steps: views(self.steps@),
        }
    }
}

/// The name a mode is written with.
pub open spec fn mode_text(m: InjectCaseMode) -> Seq<char> {
    match m {
        InjectCaseMode::Hit => "hit"@,
        InjectCaseMode::NearMiss => "near_miss"@,
        InjectCaseMode::Miss => "miss"@,
    }
}

/// The name a mode is written with.
pub fn mode_name(mode: InjectCaseMode) -> (r: &'static str)
    ensures
        r@ == mode_text(mode),
{
    match mode {
        InjectCaseMode::Hit => "hit",
        InjectCaseMode::NearMiss => "near_miss",
        InjectCaseMode::Miss => "miss",
    }
}

/// The first alert of `rule` for `entity_id`.
pub open spec fn first_alert(alerts: Seq<OracleAlertModel>, rule: Seq<char>, id: Seq<char>) -> Option<int>
    decreases alerts.len(),
{
    if alerts.len() == 0 {
        None
    } else {
        match first_alert(alerts.drop_last(), rule, id) {
            Some(i) => Some(i),
            None => if alerts.last().rule_name == rule && alerts.last().entity_id == id {
                Some(alerts.len() - 1)
            } else {
                None
            },
        }
    }
}

/// `alias count/threshold`
pub open spec fn step_text(s: StepModel) -> Seq<char> {
    s.bind_alias + seq![' '] + dec_text(s.count as nat) + seq!['/'] + dec_text(s.threshold as nat)
}

/// The texts of the steps, joined by `、`.
pub open spec fn steps_joined(steps: Seq<StepModel>) -> Seq<char>
    decreases steps.len(),
{
    if steps.len() == 0 {
        Seq::empty()
    } else if steps.len() == 1 {
        step_text(steps[0])
    } else {
        steps_joined(steps.drop_last()) + "、"@ + step_text(steps.last())
    }
}

/// The aliases of the steps below their threshold, joined by `、`.
pub open spec fn unmet_joined(steps: Seq<StepModel>) -> Seq<char>
    decreases steps.len(),
{
    if steps.len() == 0 {
        Seq::empty()
    } else {
        let rest = unmet_joined(steps.drop_last());
        let s = steps.last();
        if s.count < s.threshold {
            if !exists_unmet(steps.drop_last()) {
                s.bind_alias
            } else {
                rest + "、"@ + s.bind_alias
            }
        } else {
            rest
        }
    }
}

pub open spec fn exists_unmet(steps: Seq<StepModel>) -> bool {
    exists|i: int| 0 <= i < steps.len() && steps[i].count < steps[i].threshold
}

/// Why a `hit` entity raised nothing: its counts against the thresholds.
pub open spec fn reason_text(steps: Seq<StepModel>) -> Seq<char> {
    if steps.len() == 0 {
        "该规则没有可注入的 bind"@
    } else if !exists_unmet(steps) {
        "条数/阈值 "@ + steps_joined(steps) + "（on event 步均达阈值：可能被 on close / conv top-N 过滤）"@
    } else {
        "条数/阈值 "@ + steps_joined(steps) + "（"@ + unmet_joined(steps) + " 未达阈值）"@
    }
}

fn push_step(out: &mut String, s: &InjectStepCount)
    ensures
        final(out)@ == old(out)@ + step_text(s@),
{
    out.append(s.bind_alias.as_str());
    crate::wfg_lexer::push_char(out, ' ');
    push_decimal(out, s.count);
    crate::wfg_lexer::push_char(out, '/');
    push_decimal(out, s.threshold);
    assert(final(out)@ =~= old(out)@ + step_text(s@));
}

/// Why a `hit` entity raised nothing: its counts against the thresholds on
/// each bind, and which binds fell short.
pub fn missing_reason(steps: &Vec<InjectStepCount>) -> (r: String)
    ensures
        r@ == reason_text(views(steps@)),
{
    if steps.len() == 0 {
        return String::from_str("该规则没有可注入的 bind");
    }
    let ghost ss = views(steps@);
    let mut detail = String::new();
    let mut unmet = String::new();
    let mut any_unmet = false;
    let mut i: usize = 0;
    assert(ss.take(0) =~= Seq::<StepModel>::empty());
    while i < steps.len()
        invariant
            i <= steps.len(),
            ss == views(steps@),
            detail@ == steps_joined(ss.take(i as int)),
            unmet@ == unmet_joined(ss.take(i as int)),
            any_unmet == exists_unmet(ss.take(i as int)),
            !any_unmet ==> unmet@.len() == 0,
        decreases steps.len() - i,
    {
        let s = &steps[i];
        proof {
            let t = ss.take(i as int + 1);
            assert(t.drop_last() =~= ss.take(i as int));
            assert(t.last() == s@);
            if i == 0 {
                assert(t =~= seq![s@]);
            }
        }
        if i > 0 {
            detail.append("、");
        }
        push_step(&mut detail, s);
        let ghost before = unmet@;
        if s.count < s.threshold {
            if any_unmet {
                unmet.append("、");
            }
            unmet.append(s.bind_alias.as_str());
        }
        proof {
            let t = ss.take(i as int + 1);
            if s.count < s.threshold {
                assert(t[i as int].count < t[i as int].threshold);
            } else if exists_unmet(t) {
                let k = choose|k: int| 0 <= k < t.len() && t[k].count < t[k].threshold;
                assert(ss.take(i as int)[k].count < ss.take(i as int)[k].threshold);
            }
            if exists_unmet(ss.take(i as int)) {
                let k = choose|k: int| 0 <= k < i && ss.take(i as int)[k].count < ss.take(i as int)[k].threshold;
                assert(t[k].count < t[k].threshold);
            }
        }
        if s.count < s.threshold {
            any_unmet = true;
        }
        i = i + 1;
    }
    assert(ss.take(i as int) =~= ss);
    let mut out = String::from_str("条数/阈值 ");
    out.append(detail.as_str());
    if !any_unmet {
        out.append("（on event 步均达阈值：可能被 on close / conv top-N 过滤）");
    } else {
        out.append("（");
        out.append(unmet.as_str());
        out.append(" 未达阈值）");
    }
    out
}


/// The `hit` entities (by index) without an alert of their rule.
pub open spec fn missing_of(es: Seq<EntityModel>, alerts: Seq<OracleAlertModel>) -> Seq<int>
    decreases es.len(),
{
    if es.len() == 0 {
        Seq::empty()
    } else {
        let rest = missing_of(es.drop_last(), alerts);
        let e = es.last();
        if e.mode == InjectCaseMode::Hit && first_alert(alerts, e.rule, e.entity_id) is None {
            rest.push(es.len() - 1)
        } else {
            rest
        }
    }
}

/// The `near_miss` / `miss` entities (by index) with an alert of their rule,
/// each with the first such alert.
pub open spec fn spurious_of(es: Seq<EntityModel>, alerts: Seq<OracleAlertModel>) -> Seq<(int, int)>
    decreases es.len(),
{
    if es.len() == 0 {
        Seq::empty()
    } else {
        let rest = spurious_of(es.drop_last(), alerts);
        let e = es.last();
        match first_alert(alerts, e.rule, e.entity_id) {
            Some(k) => if e.mode != InjectCaseMode::Hit {
                rest.push((es.len() - 1, k))
            } else {
                rest
            },
            None => rest,
        }
    }
}

pub open spec fn missing_row(e: EntityModel) -> Seq<char> {
    "  hit 用例第 "@ + dec_text(e.index as nat) + " 个实体（"@ + e.field + "="@ + e.entity_id
        + "）不会触发规则 "@ + e.rule + "："@ + reason_text(e.steps) + "\n"@
}

pub open spec fn spurious_row(e: EntityModel, a: OracleAlertModel) -> Seq<char> {
    "  "@ + mode_text(e.mode) + " 用例第 "@ + dec_text(e.index as nat) + " 个实体（"@ + e.field + "="@
        + e.entity_id + "）会触发规则 "@ + e.rule + "：命中 "@ + a.origin + " 路径（emit_time="@
        + a.emit_time + "）\n"@
}

pub open spec fn missing_rows(es: Seq<EntityModel>, idx: Seq<int>) -> Seq<char>
    decreases idx.len(),
{
    if idx.len() == 0 {
        Seq::empty()
    } else {
        missing_rows(es, idx.drop_last()) + missing_row(es[idx.last()])
    }
}

pub open spec fn spurious_rows(es: Seq<EntityModel>, alerts: Seq<OracleAlertModel>, idx: Seq<(int, int)>) -> Seq<char>
    decreases idx.len(),
{
    if idx.len() == 0 {
        Seq::empty()
    } else {
        spurious_rows(es, alerts, idx.drop_last()) + spurious_row(es[idx.last().0], alerts[idx.last().1])
    }
}

pub open spec fn more_text(total: nat) -> Seq<char> {
    if total > 5 {
        "  …同码合计 "@ + dec_text(total) + " 个实体\n"@
    } else {
        Seq::empty()
    }
}

pub open spec fn listed<A>(s: Seq<A>) -> Seq<A> {
    s.take(if s.len() < 5 { s.len() as int } else { 5 })
}

/// The INJ1 section of the report.
pub open spec fn inj1_text(es: Seq<EntityModel>, missing: Seq<int>) -> Seq<char> {
    if missing.len() > 0 {
        "INJ1: "@ + dec_text(missing.len()) + " hit 实体未产出告警（hit 用例每个实体都必须报警）\n"@
            + missing_rows(es, listed(missing)) + more_text(missing.len())
    } else {
        Seq::empty()
    }
}

/// The INJ2 section of the report.
pub open spec fn inj2_text(es: Seq<EntityModel>, alerts: Seq<OracleAlertModel>, spurious: Seq<(int, int)>) -> Seq<char> {
    if spurious.len() > 0 {
        "INJ2: "@ + dec_text(spurious.len()) + " near_miss/miss 实体产出了告警（必须一条都不报）\n"@
            + spurious_rows(es, alerts, listed(spurious)) + more_text(spurious.len())
    } else {
        Seq::empty()
    }
}

/// The failure report: INJ1 then INJ2, each with at most five examples and the total.
pub open spec fn failures_text(es: Seq<EntityModel>, alerts: Seq<OracleAlertModel>) -> Seq<char> {
    "injection mode assertion failed (§4.2):\n"@ + inj1_text(es, missing_of(es, alerts)) + inj2_text(
        es,
        alerts,
        spurious_of(es, alerts),
    )
}

fn find_alert(alerts: &Vec<OracleAlert>, rule: &String, id: &String) -> (r: Option<usize>)
    ensures
        match r {
            Some(k) => k < alerts.len() && first_alert(views(alerts@), rule@, id@) == Some(k as int),
            None => first_alert(views(alerts@), rule@, id@) is None,
        },
{
    let mut i: usize = 0;
    while i < alerts.len()
        invariant
            i <= alerts.len(),
            first_alert(views(alerts@).take(i as int), rule@, id@) is None,
        decreases alerts.len() - i,
    {
        proof {
            let t = views(alerts@).take(i as int + 1);
            assert(t.drop_last() =~= views(alerts@).take(i as int));
            assert(t.last() == alerts@[i as int]@);
        }
        if alerts[i].rule_name == *rule && alerts[i].entity_id == *id {
            proof {
                lemma_first_alert_prefix(views(alerts@), i as int + 1, rule@, id@);
            }
            return Some(i);
        }
        i = i + 1;
    }
    assert(views(alerts@).take(i as int) =~= views(alerts@));
    None
}

proof fn lemma_first_alert_prefix(alerts: Seq<OracleAlertModel>, n: int, rule: Seq<char>, id: Seq<char>)
    requires
        0 < n <= alerts.len(),
        first_alert(alerts.take(n), rule, id) is Some,
    ensures
        first_alert(alerts, rule, id) == first_alert(alerts.take(n), rule, id),
    decreases alerts.len() - n,
{
    if n < alerts.len() {
        assert(alerts.take(n + 1).drop_last() =~= alerts.take(n));
        lemma_first_alert_prefix(alerts, n + 1, rule, id);
    } else {
        assert(alerts.take(n) =~= alerts);
    }
}

fn push_missing_row(out: &mut String, e: &InjectEntityKey)
    ensures
        final(out)@ == old(out)@ + missing_row(e@),
{
    out.append("  hit 用例第 ");
    push_decimal(out, e.index);
    out.append(" 个实体（");
    out.append(e.field.as_str());
    out.append("=");
    out.append(e.entity_id.as_str());
    out.append("）不会触发规则 ");
    out.append(e.rule.as_str());
    out.append("：");
    out.append(missing_reason(&e.steps).as_str());
    out.append("\n");
    assert(final(out)@ =~= old(out)@ + missing_row(e@));
}

fn push_spurious_row(out: &mut String, e: &InjectEntityKey, a: &OracleAlert)
    ensures
        final(out)@ == old(out)@ + spurious_row(e@, a@),
{
    out.append("  ");
    out.append(mode_name(e.mode));
    out.append(" 用例第 ");
    push_decimal(out, e.index);
    out.append(" 个实体（");
    out.append(e.field.as_str());
    out.append("=");
    out.append(e.entity_id.as_str());
    out.append("）会触发规则 ");
    out.append(e.rule.as_str());
    out.append("：命中 ");
    out.append(a.origin.as_str());
    out.append(" 路径（emit_time=");
    out.append(a.emit_time.as_str());
    out.append("）\n");
    assert(final(out)@ =~= old(out)@ + spurious_row(e@, a@));
}

/// Appends the total when more failures than the examples exist.
pub fn append_more(detail: &mut String, total: usize)
    ensures
        final(detail)@ == old(detail)@ + more_text(total as nat),
{
    if total > MAX_EXAMPLES {
        detail.append("  …同码合计 ");
        push_decimal(detail, total as u64);
        detail.append(" 个实体\n");
    }
    assert(final(detail)@ =~= old(detail)@ + more_text(total as nat));
}

fn push_inj1(detail: &mut String, entities: &Vec<InjectEntityKey>, missing: &Vec<usize>)
    requires
        forall|q: int| 0 <= q < missing.len() ==> #[trigger] missing@[q] < entities.len(),
    ensures
        final(detail)@ == old(detail)@ + inj1_text(views(entities@), missing@.map_values(|i: usize| i as int)),
{
    let ghost es = views(entities@);
    let ghost mi = missing@.map_values(|i: usize| i as int);
    if missing.len() > 0 {
        let ghost head = detail@;
        detail.append("INJ1: ");
        push_decimal(detail, missing.len() as u64);
        detail.append(" hit 实体未产出告警（hit 用例每个实体都必须报警）\n");
        let ghost start = detail@;
        let n = if missing.len() < MAX_EXAMPLES {
            missing.len()
        } else {
            MAX_EXAMPLES
        };
        let mut k: usize = 0;
        assert(mi.take(0) =~= Seq::<int>::empty());
        while k < n
            invariant
                k <= n <= missing.len(),
                es == views(entities@),
                mi == missing@.map_values(|i: usize| i as int),
                forall|q: int| 0 <= q < missing.len() ==> #[trigger] missing@[q] < entities.len(),
                detail@ == start + missing_rows(es, mi.take(k as int)),
            decreases n - k,
        {
            let i = missing[k];
            proof {
                assert(mi.take(k as int + 1).drop_last() =~= mi.take(k as int));
                assert(mi.take(k as int + 1).last() == i as int);
                assert(es[i as int] == entities@[i as int]@);
            }
            push_missing_row(detail, &entities[i]);
            k = k + 1;
        }
        assert(mi.take(k as int) =~= listed(mi));
        append_more(detail, missing.len());
        assert(detail@ =~= head + inj1_text(es, mi));
    } else {
        assert(detail@ =~= detail@ + inj1_text(es, mi));
    }
}

fn push_inj2(detail: &mut String, entities: &Vec<InjectEntityKey>, alerts: &Vec<OracleAlert>, spurious: &Vec<(usize, usize)>)
    requires
        forall|q: int| 0 <= q < spurious.len() ==> #[trigger] spurious@[q].0 < entities.len() && spurious@[q].1 < alerts.len(),
    ensures
        final(detail)@ == old(detail)@ + inj2_text(
            views(entities@),
            views(alerts@),
            spurious@.map_values(|p: (usize, usize)| (p.0 as int, p.1 as int)),
        ),
{
    let ghost es = views(entities@);
    let ghost al = views(alerts@);
    let ghost sp = spurious@.map_values(|p: (usize, usize)| (p.0 as int, p.1 as int));
    if spurious.len() > 0 {
        let ghost head = detail@;
        detail.append("INJ2: ");
        push_decimal(detail, spurious.len() as u64);
        detail.append(" near_miss/miss 实体产出了告警（必须一条都不报）\n");
        let ghost start = detail@;
        let n = if spurious.len() < MAX_EXAMPLES {
            spurious.len()
        } else {
            MAX_EXAMPLES
        };
        let mut k: usize = 0;
        assert(sp.take(0) =~= Seq::<(int, int)>::empty());
        while k < n
            invariant
                k <= n <= spurious.len(),
                es == views(entities@),
                al == views(alerts@),
                sp == spurious@.map_values(|p: (usize, usize)| (p.0 as int, p.1 as int)),
                forall|q: int| 0 <= q < spurious.len() ==> #[trigger] spurious@[q].0 < entities.len() && spurious@[q].1 < alerts.len(),
                detail@ == start + spurious_rows(es, al, sp.take(k as int)),
            decreases n - k,
        {
            let (i, j) = spurious[k];
            proof {
                assert(sp.take(k as int + 1).drop_last() =~= sp.take(k as int));
                assert(sp.take(k as int + 1).last() == (i as int, j as int));
                assert(es[i as int] == entities@[i as int]@);
                assert(al[j as int] == alerts@[j as int]@);
            }
            push_spurious_row(detail, &entities[i], &alerts[j]);
            k = k + 1;
        }
        assert(sp.take(k as int) =~= listed(sp));
        append_more(detail, spurious.len());
        assert(detail@ =~= head + inj2_text(es, al, sp));
    } else {
        assert(detail@ =~= detail@ + inj2_text(es, al, sp));
    }
}

/// The failure report for the `hit` entities without alerts and the
/// `near_miss` / `miss` entities with one (entity index, alert index).
pub fn render_failures(
    entities: &Vec<InjectEntityKey>,
    alerts: &Vec<OracleAlert>,
    missing: &Vec<usize>,
    spurious: &Vec<(usize, usize)>,
) -> (r: String)
    requires
        forall|q: int| 0 <= q < missing.len() ==> #[trigger] missing@[q] < entities.len(),
        forall|q: int| 0 <= q < spurious.len() ==> #[trigger] spurious@[q].0 < entities.len() && spurious@[q].1 < alerts.len(),
    ensures
        r@ == "injection mode assertion failed (§4.2):\n"@ + inj1_text(
            views(entities@),
            missing@.map_values(|i: usize| i as int),
        ) + inj2_text(
            views(entities@),
            views(alerts@),
            spurious@.map_values(|p: (usize, usize)| (p.0 as int, p.1 as int)),
        ),
{
    let mut detail = String::from_str("injection mode assertion failed (§4.2):\n");
    push_inj1(&mut detail, entities, missing);
    push_inj2(&mut detail, entities, alerts, spurious);
    detail
}

/// Checks every injected entity against the alerts: passes with the number
/// of entities checked, or fails with a report of every `hit` entity that
/// raised nothing and every `near_miss` / `miss` entity that raised something
/// (alerts count only for their own rule and entity id).
pub fn assert_inject_modes(entities: &Vec<InjectEntityKey>, alerts: &Vec<OracleAlert>) -> (r: Result<usize, WfgenError>)
    ensures
        match r {
            Ok(n) => n == entities.len() && missing_of(views(entities@), views(alerts@)).len() == 0
                && spurious_of(views(entities@), views(alerts@)).len() == 0,
            Err(e) => e.reason == WfgenReason::Generation && (missing_of(views(entities@), views(alerts@)).len() > 0
                || spurious_of(views(entities@), views(alerts@)).len() > 0) && e.detail@ == failures_text(
                views(entities@),
                views(alerts@),
            ),
        },
{
    let ghost es = views(entities@);
    let ghost al = views(alerts@);
    let mut missing: Vec<usize> = Vec::new();
    let mut spurious: Vec<(usize, usize)> = Vec::new();
    let mut i: usize = 0;
    assert(es.take(0) =~= Seq::<EntityModel>::empty());
    while i < entities.len()
        invariant
            i <= entities.len(),
            es == views(entities@),
            al == views(alerts@),
            missing@.map_values(|x: usize| x as int) == missing_of(es.take(i as int), al),
            spurious@.map_values(|p: (usize, usize)| (p.0 as int, p.1 as int)) == spurious_of(es.take(i as int), al),
            forall|q: int| 0 <= q < missing.len() ==> #[trigger] missing@[q] < i,
            forall|q: int| 0 <= q < spurious.len() ==> #[trigger] spurious@[q].0 < i && spurious@[q].1 < alerts.len(),
        decreases entities.len() - i,
    {
        let e = &entities[i];
        proof {
            let t = es.take(i as int + 1);
            assert(t.drop_last() =~= es.take(i as int));
            assert(t.last() == e@);
        }
        let found = find_alert(alerts, &e.rule, &e.entity_id);
        let ghost m0 = missing@;
        let ghost s0 = spurious@;
        match (e.mode, found) {
            (InjectCaseMode::Hit, None) => {
                missing.push(i);
                assert(missing@.map_values(|x: usize| x as int) =~= m0.map_values(|x: usize| x as int).push(i as int));
            },
            (InjectCaseMode::NearMiss, Some(k)) | (InjectCaseMode::Miss, Some(k)) => {
                spurious.push((i, k));
                assert(spurious@.map_values(|p: (usize, usize)| (p.0 as int, p.1 as int)) =~= s0.map_values(
                    |p: (usize, usize)| (p.0 as int, p.1 as int),
                ).push((i as int, k as int)));
            },
            _ => {},
        }
        i = i + 1;
    }
    assert(es.take(i as int) =~= es);
    if missing.len() == 0 && spurious.len() == 0 {
        return Ok(entities.len());
    }
    let detail = render_failures(entities, alerts, &missing, &spurious);
    Err(WfgenError::new(WfgenReason::Generation, detail))
}

} // verus!
