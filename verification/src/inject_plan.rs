//! Planning of injected events: which rule step each `use ... x N` group
//! feeds, how many events each step gets, and where the clusters start.

use vstd::prelude::*;

use crate::error::{WfgenError, WfgenReason};
use crate::text::{dec_text, push_decimal, str_is};
use crate::wfg_ast::views;

verus! {

broadcast use vstd::string::group_string_axioms;

/// A rule step, as far as planning reads it: its bind alias and the field
/// values its filter requires (each value as compact JSON text).
#[derive(Debug, Clone, PartialEq)]
pub struct StepInfo {
    pub bind_alias: String,
    pub filter_overrides: Vec<(String, String)>,
}

/// One `use ... x N` group: events per entity and the field values it sets
/// (each value as compact JSON text).
#[derive(Debug, Clone, PartialEq)]
pub struct InjectUseStepOverrides {
    pub count: u64,
    pub predicates: Vec<(String, String)>,
}

pub struct UseModel {
    pub count: u64,
    pub predicates: Seq<(Seq<char>, Seq<char>)>,
}

impl View for InjectUseStepOverrides {
    type V = UseModel;

    open spec fn view(&self) -> UseModel {
        UseModel { count: self.count, predicates: views(self.predicates@) }
    }
}

/// A planned group: the rule step it feeds and its events per entity.
#[derive(Debug, Clone, PartialEq)]
pub struct UseStepPlan {
    pub rule_step_idx: usize,
    pub count: u64,
    pub predicates: Vec<(String, String)>,
}

/// The value a list of (field, value) pairs gives a field (its first pair).
pub open spec fn value_of(ps: Seq<(Seq<char>, Seq<char>)>, field: Seq<char>) -> Option<Seq<char>>
    decreases ps.len(),
{
    if ps.len() == 0 {
        None
    } else if ps[0].0 == field {
        Some(ps[0].1)
    } else {
        value_of(ps.drop_first(), field)
    }
}

/// The first filter field of a step whose value the group sets otherwise.
pub open spec fn first_conflict(filters: Seq<(Seq<char>, Seq<char>)>, preds: Seq<(Seq<char>, Seq<char>)>) -> Option<(Seq<char>, Seq<char>, Seq<char>)>
    decreases filters.len(),
{
    if filters.len() == 0 {
        None
    } else {
        match value_of(preds, filters[0].0) {
            Some(actual) => if actual != filters[0].1 {
                Some((filters[0].0, actual, filters[0].1))
            } else {
                first_conflict(filters.drop_first(), preds)
            },
            None => first_conflict(filters.drop_first(), preds),
        }
    }
}

pub open spec fn msg_exceeds(idx: nat, steps: nat) -> Seq<char> {
    "injection use step "@ + dec_text(idx + 1) + " exceeds rule step count "@ + dec_text(steps)
        + "; each use(...) maps to one rule step"@
}

pub open spec fn msg_zero(idx: nat) -> Seq<char> {
    "injection use step "@ + dec_text(idx + 1) + " count must be greater than 0"@
}

pub open spec fn msg_conflict(idx: nat, field: Seq<char>, actual: Seq<char>, expected: Seq<char>) -> Seq<char> {
    "injection use step "@ + dec_text(idx + 1) + " field '"@ + field
        + "' conflicts with rule step filter: use has "@ + actual + ", rule requires "@ + expected
}

/// The first problem with the groups `i..` against the rule steps, if any.
pub open spec fn plan_error(
    filters: Seq<Seq<(Seq<char>, Seq<char>)>>,
    uses: Seq<UseModel>,
    validate: bool,
    i: int,
) -> Option<Seq<char>>
    decreases uses.len() - i,
{
    if i < 0 || i >= uses.len() {
        None
    } else if i >= filters.len() {
        Some(msg_exceeds(i as nat, filters.len()))
    } else if uses[i].count == 0 {
        Some(msg_zero(i as nat))
    } else if validate && first_conflict(filters[i], uses[i].predicates) is Some {
        let c = first_conflict(filters[i], uses[i].predicates).unwrap();
        Some(msg_conflict(i as nat, c.0, c.1, c.2))
    } else {
        plan_error(filters, uses, validate, i + 1)
    }
}

pub open spec fn step_filters(steps: Seq<StepInfo>) -> Seq<Seq<(Seq<char>, Seq<char>)>> {
    steps.map_values(|s: StepInfo| views(s.filter_overrides@))
}

fn value_of_exec(ps: &Vec<(String, String)>, field: &str) -> (r: Option<usize>)
    ensures
        match r {
            Some(k) => k < ps.len() && value_of(views(ps@), field@) == Some(ps@[k as int].1@),
            None => value_of(views(ps@), field@) is None,
        },
{
    let mut i: usize = 0;
    assert(views(ps@).skip(0) =~= views(ps@));
    while i < ps.len()
        invariant
            i <= ps.len(),
            value_of(views(ps@), field@) == value_of(views(ps@).skip(i as int), field@),
        decreases ps.len() - i,
    {
        proof {
            let t = views(ps@).skip(i as int);
            assert(t.drop_first() =~= views(ps@).skip(i as int + 1));
            assert(t[0] == ps@[i as int]@);
        }
        if str_is(ps[i].0.as_str(), field) {
            return Some(i);
        }
        i = i + 1;
    }
    assert(views(ps@).skip(i as int) =~= Seq::<(Seq<char>, Seq<char>)>::empty());
    None
}

fn check_conflicts(idx: usize, use_step: &InjectUseStepOverrides, step: &StepInfo) -> (r: Result<(), String>)
    requires
        idx < u64::MAX,
    ensures
        match r {
            Ok(()) => first_conflict(views(step.filter_overrides@), use_step@.predicates) is None,
            Err(e) => first_conflict(views(step.filter_overrides@), use_step@.predicates) matches Some(c) && e@
                == msg_conflict(idx as nat, c.0, c.1, c.2),
        },
{
    let ghost fs = views(step.filter_overrides@);
    let mut i: usize = 0;
    assert(fs.skip(0) =~= fs);
    while i < step.filter_overrides.len()
        invariant
            i <= step.filter_overrides.len(),
            fs == views(step.filter_overrides@),
            idx < u64::MAX,
            first_conflict(fs, use_step@.predicates) == first_conflict(fs.skip(i as int), use_step@.predicates),
        decreases step.filter_overrides.len() - i,
    {
        let (field, expected) = (&step.filter_overrides[i].0, &step.filter_overrides[i].1);
        proof {
            let t = fs.skip(i as int);
            assert(t.drop_first() =~= fs.skip(i as int + 1));
            assert(t[0] == (field@, expected@));
        }
        match value_of_exec(&use_step.predicates, field.as_str()) {
            Some(k) => {
                let actual = &use_step.predicates[k].1;
                if !str_is(actual.as_str(), expected.as_str()) {
                    let mut m = String::from_str("injection use step ");
                    push_decimal(&mut m, (idx as u64) + 1);
                    m.append(" field '");
                    m.append(field.as_str());
                    m.append("' conflicts with rule step filter: use has ");
                    m.append(actual.as_str());
                    m.append(", rule requires ");
                    m.append(expected.as_str());
                    assert(m@ =~= msg_conflict(idx as nat, field@, actual@, expected@));
                    return Err(m);
                }
            },
            None => {},
        }
        i = i + 1;
    }
    assert(fs.skip(i as int) =~= Seq::<(Seq<char>, Seq<char>)>::empty());
    Ok(())
}

/// A copy of a list of (field, value) pairs.
fn copy_pairs(ps: &Vec<(String, String)>) -> (r: Vec<(String, String)>)
    ensures
        views(r@) == views(ps@),
{
    let mut out: Vec<(String, String)> = Vec::new();
    let mut k: usize = 0;
    while k < ps.len()
        invariant
            k <= ps.len(),
            views(out@) == views(ps@).take(k as int),
        decreases ps.len() - k,
    {
        let p = (ps[k].0.clone(), ps[k].1.clone());
        assert(views(out@.push(p)) =~= views(out@).push(p@));
        assert(views(ps@).take(k as int + 1) =~= views(ps@).take(k as int).push(ps@[k as int]@));
        out.push(p);
        k = k + 1;
    }
    assert(views(ps@).take(k as int) =~= views(ps@));
    out
}

/// Maps each group to the rule step at its position: fails when there are
/// more groups than steps, when a group has a count of 0, or (with
/// `validate_filter_conflicts`) when a group sets a field to another value
/// than the step's filter requires. No steps: nothing is planned.
pub fn plan_use_steps(
    steps: &Vec<StepInfo>,
    use_steps: &Vec<InjectUseStepOverrides>,
    validate_filter_conflicts: bool,
) -> (r: Result<Vec<UseStepPlan>, WfgenError>)
    ensures
        steps.len() == 0 ==> (r matches Ok(v) && v.len() == 0),
        steps.len() > 0 ==> match r {
            Ok(v) => plan_error(step_filters(steps@), views(use_steps@), validate_filter_conflicts, 0) is None
                && v.len() == use_steps.len() && forall|i: int| 0 <= i < v.len() ==> (#[trigger] v@[i]).rule_step_idx
                == i && v@[i].count == use_steps@[i].count && views(v@[i].predicates@) == use_steps@[i]@.predicates,
            Err(e) => e.reason == WfgenReason::Validation && plan_error(
                step_filters(steps@),
                views(use_steps@),
                validate_filter_conflicts,
                0,
            ) == Some(e.detail@),
        },
{
    let mut planned: Vec<UseStepPlan> = Vec::new();
    if steps.len() == 0 {
        return Ok(planned);
    }
    let ghost fl = step_filters(steps@);
    let ghost us = views(use_steps@);
    let mut i: usize = 0;
    while i < use_steps.len()
        invariant
            i <= use_steps.len(),
            fl == step_filters(steps@),
            us == views(use_steps@),
            steps.len() > 0,
            plan_error(fl, us, validate_filter_conflicts, 0) == plan_error(fl, us, validate_filter_conflicts, i as int),
            planned.len() == i,
            forall|k: int| 0 <= k < i ==> (#[trigger] planned@[k]).rule_step_idx == k && planned@[k].count
                == use_steps@[k].count && views(planned@[k].predicates@) == use_steps@[k]@.predicates,
        decreases use_steps.len() - i,
    {
        let u = &use_steps[i];
        assert(us[i as int] == u@);
        if i >= steps.len() {
            let mut m = String::from_str("injection use step ");
            push_decimal(&mut m, (i as u64) + 1);
            m.append(" exceeds rule step count ");
            push_decimal(&mut m, steps.len() as u64);
            m.append("; each use(...) maps to one rule step");
            assert(m@ =~= msg_exceeds(i as nat, fl.len()));
            return Err(WfgenError::new(WfgenReason::Validation, m));
        }
        if u.count == 0 {
            let mut m = String::from_str("injection use step ");
            push_decimal(&mut m, (i as u64) + 1);
            m.append(" count must be greater than 0");
            assert(m@ =~= msg_zero(i as nat));
            return Err(WfgenError::new(WfgenReason::Validation, m));
        }
        if validate_filter_conflicts {
            assert(fl[i as int] == views(steps@[i as int].filter_overrides@));
            match check_conflicts(i, u, &steps[i]) {
                Ok(()) => {},
                Err(m) => return Err(WfgenError::new(WfgenReason::Validation, m)),
            }
        }
        let preds = copy_pairs(&u.predicates);
        planned.push(UseStepPlan { rule_step_idx: i, count: u.count, predicates: preds });
        i = i + 1;
    }
    Ok(planned)
}

/// Events per entity for each rule step: the count of the group at its
/// position, 0 for steps no group feeds (the written numbers, never adjusted).
pub fn compute_use_step_counts(steps: &Vec<StepInfo>, use_steps: &Vec<InjectUseStepOverrides>) -> (r: Result<
    Vec<u64>,
    WfgenError,
>)
    ensures
        match r {
            Ok(v) => (steps.len() == 0 && v.len() == 0) || (steps.len() > 0 && plan_error(
                step_filters(steps@),
                views(use_steps@),
                true,
                0,
            ) is None && v.len() == steps.len() && forall|i: int| 0 <= i < v.len() ==> #[trigger] v@[i] == if i
                < use_steps.len() {
                use_steps@[i].count
            } else {
                0
            }),
            Err(e) => steps.len() > 0 && e.reason == WfgenReason::Validation && plan_error(
                step_filters(steps@),
                views(use_steps@),
                true,
                0,
            ) == Some(e.detail@),
        },
{
    if steps.len() == 0 {
        return Ok(Vec::new());
    }
    let plans = match plan_use_steps(steps, use_steps, true) {
        Ok(p) => p,
        Err(e) => return Err(e),
    };
    proof {
        if use_steps.len() > steps.len() {
            lemma_too_many_groups(step_filters(steps@), views(use_steps@), 0);
        }
    }
    let mut counts: Vec<u64> = Vec::new();
    let mut i: usize = 0;
    while i < steps.len()
        invariant
            i <= steps.len(),
            plans.len() == use_steps.len(),
            use_steps.len() <= steps.len(),
            counts.len() == i,
            forall|k: int| 0 <= k < plans.len() ==> (#[trigger] plans@[k]).count == use_steps@[k].count,
            forall|k: int| 0 <= k < i ==> #[trigger] counts@[k] == if k < use_steps.len() {
                use_steps@[k].count
            } else {
                0
            },
        decreases steps.len() - i,
    {
        if i < plans.len() {
            counts.push(plans[i].count);
        } else {
            counts.push(0);
        }
        i = i + 1;
    }
    Ok(counts)
}

proof fn lemma_too_many_groups(filters: Seq<Seq<(Seq<char>, Seq<char>)>>, uses: Seq<UseModel>, i: int)
    requires
        uses.len() > filters.len(),
        0 <= i <= filters.len(),
    ensures
        plan_error(filters, uses, true, i) is Some,
    decreases filters.len() - i,
{
    if i < filters.len() {
        if uses[i].count != 0 && first_conflict(filters[i], uses[i].predicates) is None {
            lemma_too_many_groups(filters, uses, i + 1);
        }
    }
}

// ---------------------------------------------------------------------------
// Cluster starts
// ---------------------------------------------------------------------------

/// How many events of rule step `j` take the field values of the group at its
/// position: its count, at most the step's events (none when the rule has no
/// steps or no group feeds the step).
pub open spec fn filled_slots(steps_len: nat, uses: Seq<UseModel>, counts: Seq<u64>, j: int) -> int {
    if steps_len > 0 && j < uses.len() {
        if uses[j].count < counts[j] {
            uses[j].count as int
        } else {
            counts[j] as int
        }
    } else {
        0
    }
}

/// The field values event `q` of rule step `j` is built with.
pub open spec fn slot_values(steps_len: nat, uses: Seq<UseModel>, counts: Seq<u64>, j: int, q: int) -> Seq<
    (Seq<char>, Seq<char>),
> {
    if q < filled_slots(steps_len, uses, counts, j) {
        uses[j].predicates
    } else {
        Seq::empty()
    }
}

/// The field values of every event of every rule step, given how many events
/// each step gets: the first events of a step take the values of the group at
/// its position (as many as the group's count allows), the others none. With
/// no groups, each step's list is left empty. Fails as [`plan_use_steps`] does.
pub fn map_use_predicates_to_rule_steps(
    steps: &Vec<StepInfo>,
    use_steps: &Vec<InjectUseStepOverrides>,
    step_event_counts: &Vec<u64>,
    validate_filter_conflicts: bool,
) -> (r: Result<Vec<Vec<Vec<(String, String)>>>, WfgenError>)
    requires
        forall|j: int| 0 <= j < step_event_counts.len() ==> #[trigger] step_event_counts@[j] <= usize::MAX,
    ensures
        match r {
            Ok(v) => v.len() == step_event_counts.len() && (use_steps.len() == 0 ==> forall|j: int|
                0 <= j < v.len() ==> (#[trigger] v@[j]).len() == 0) && (use_steps.len() > 0 ==> (steps.len() > 0
                && step_event_counts.len() > 0 ==> plan_error(
                step_filters(steps@),
                views(use_steps@),
                validate_filter_conflicts,
                0,
            ) is None) && forall|j: int|
                0 <= j < v.len() ==> (#[trigger] v@[j]).len() == step_event_counts@[j] && forall|q: int|
                    0 <= q < v@[j].len() ==> views(#[trigger] v@[j]@[q]@) == slot_values(
                        steps.len() as nat,
                        views(use_steps@),
                        step_event_counts@,
                        j,
                        q,
                    )),
            Err(e) => use_steps.len() > 0 && step_event_counts.len() > 0 && steps.len() > 0 && e.reason
                == WfgenReason::Validation && plan_error(
                step_filters(steps@),
                views(use_steps@),
                validate_filter_conflicts,
                0,
            ) == Some(e.detail@),
        },
{
    let mut out: Vec<Vec<Vec<(String, String)>>> = Vec::new();
    if use_steps.len() == 0 || step_event_counts.len() == 0 {
        let mut j: usize = 0;
        while j < step_event_counts.len()
            invariant
                j <= step_event_counts.len(),
                out.len() == j,
                forall|k: int| 0 <= k < j ==> (#[trigger] out@[k]).len() == 0,
            decreases step_event_counts.len() - j,
        {
            out.push(Vec::new());
            j = j + 1;
        }
        return Ok(out);
    }
    let plans = match plan_use_steps(steps, use_steps, validate_filter_conflicts) {
        Ok(p) => p,
        Err(e) => return Err(e),
    };
    let ghost us = views(use_steps@);
    let ghost cs = step_event_counts@;
    let ghost sl = steps.len() as nat;
    let mut j: usize = 0;
    while j < step_event_counts.len()
        invariant
            j <= step_event_counts.len(),
            us == views(use_steps@),
            cs == step_event_counts@,
            sl == steps.len() as nat,
            use_steps.len() > 0,
            forall|k: int| 0 <= k < step_event_counts.len() ==> #[trigger] step_event_counts@[k] <= usize::MAX,
            sl == 0 ==> plans.len() == 0,
            sl > 0 ==> plans.len() == use_steps.len(),
            forall|k: int| 0 <= k < plans.len() ==> (#[trigger] plans@[k]).count == use_steps@[k].count && views(
                plans@[k].predicates@,
            ) == use_steps@[k]@.predicates,
            out.len() == j,
            forall|k: int| 0 <= k < j ==> (#[trigger] out@[k]).len() == cs[k] && forall|q: int|
                0 <= q < out@[k].len() ==> views(#[trigger] out@[k]@[q]@) == slot_values(sl, us, cs, k, q),
        decreases step_event_counts.len() - j,
    {
        let expected = step_event_counts[j] as usize;
        let fill: usize = if j < plans.len() {
            if plans[j].count < step_event_counts[j] {
                plans[j].count as usize
            } else {
                expected
            }
        } else {
            0
        };
        assert(fill as int == filled_slots(sl, us, cs, j as int));
        let mut slots: Vec<Vec<(String, String)>> = Vec::new();
        let mut q: usize = 0;
        while q < expected
            invariant
                q <= expected,
                expected as int == cs[j as int],
                j < plans.len() ==> views(plans@[j as int].predicates@) == us[j as int].predicates,
                plans.len() <= us.len(),
                fill > 0 ==> j < plans.len(),
                fill as int == filled_slots(sl, us, cs, j as int),
                slots.len() == q,
                forall|t: int| 0 <= t < q ==> views(#[trigger] slots@[t]@) == slot_values(sl, us, cs, j as int, t),
            decreases expected - q,
        {
            if q < fill {
                slots.push(copy_pairs(&plans[j].predicates));
            } else {
                let empty: Vec<(String, String)> = Vec::new();
                assert(views(empty@) =~= Seq::<(Seq<char>, Seq<char>)>::empty());
                slots.push(empty);
            }
            q = q + 1;
        }
        out.push(slots);
        j = j + 1;
    }
    Ok(out)
}

/// Where cluster `index` of `count` starts within `[0, span]`: evenly spaced
/// from 0 to `span`, the middle for a single cluster, 0 when there is no room.
pub open spec fn cluster_start(index: int, count: int, span: int) -> int {
    if span <= 0 {
        0
    } else if count <= 1 {
        span / 2
    } else {
        let v = span * index / (count - 1);
        if v > i64::MAX {
            i64::MAX as int
        } else {
            v
        }
    }
}

/// Where cluster `index` of `count` starts within `[0, span]` (any time unit).
pub fn uniform_cluster_start(index: u64, count: u64, span: i64) -> (r: i64)
    ensures
        r == cluster_start(index as int, count as int, span as int),
{
    if span <= 0 {
        return 0;
    }
    if count <= 1 {
        return span / 2;
    }
    let a = span as u128;
    let b = index as u128;
    assert(a * b <= 0xffff_ffff_ffff_ffff_u128 * 0xffff_ffff_ffff_ffff_u128) by (nonlinear_arith)
        requires
            a <= 0xffff_ffff_ffff_ffff_u128,
            b <= 0xffff_ffff_ffff_ffff_u128,
    ;
    let p: u128 = a * b;
    let v: u128 = p / ((count - 1) as u128);
    if v > 0x7fff_ffff_ffff_ffff {
        i64::MAX
    } else {
        v as i64
    }
}

/// The first cluster starts at 0, the last at `span`, and the starts never
/// decrease: the clusters cover the whole span evenly.
pub proof fn lemma_cluster_starts_cover_span(count: int, span: int, i: int, j: int)
    requires
        count >= 2,
        0 < span <= i64::MAX,
        0 <= i <= j < count,
    ensures
        cluster_start(0, count, span) == 0,
        cluster_start(count - 1, count, span) == span,
        cluster_start(i, count, span) <= cluster_start(j, count, span) <= span,
{
    assert(span * 0 == 0);
    vstd::arithmetic::div_mod::lemma_div_by_multiple(span, count - 1);
    assert(span * (count - 1) / (count - 1) == span) by {
        vstd::arithmetic::mul::lemma_mul_is_commutative(span, count - 1);
    }
    assert(span * i <= span * j) by (nonlinear_arith)
        requires
            0 <= i <= j,
            span > 0,
    ;
    assert(span * j <= span * (count - 1)) by (nonlinear_arith)
        requires
            j <= count - 1,
            span > 0,
    ;
    vstd::arithmetic::div_mod::lemma_div_is_ordered(span * i, span * j, count - 1);
    vstd::arithmetic::div_mod::lemma_div_is_ordered(span * j, span * (count - 1), count - 1);
}

} // verus!
