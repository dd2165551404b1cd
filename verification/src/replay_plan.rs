//! `replay` statements: their records, and where each record lands on the
//! scenario's time axis.

use vstd::prelude::*;

use crate::error::{WfgenError, WfgenReason};
use crate::json_text::{JsonLayout, JsonLayoutModel, json_get, json_get_of, json_layout, json_layout_of, json_top_level_entries, opt_text, top_level_entries};
use crate::text::{dec_text, push_decimal, str_is};
use crate::wfg_ast::{ReplayStmt, opt_view, views};

verus! {

broadcast use vstd::string::group_string_axioms;

// ---------------------------------------------------------------------------
// Records
// ---------------------------------------------------------------------------

/// One replayed record: its fields (internal `_` keys left out), and its
/// `_timestamp`, which is a time source and not a field.
#[derive(Debug, Clone, PartialEq)]
pub struct ReplayRecord {
    /// (field, value as JSON text)
    pub fields: Vec<(String, String)>,
    /// The `_timestamp` value as JSON text.
    pub internal_timestamp: Option<String>,
}

pub struct RecordModel {
    pub fields: Seq<(Seq<char>, Seq<char>)>,
    pub internal_timestamp: Option<Seq<char>>,
}

impl View for ReplayRecord {
    type V = RecordModel;

    open spec fn view(&self) -> RecordModel {
        RecordModel { fields: views(self.fields@), internal_timestamp: opt_text(self.internal_timestamp) }
    }
}

/// The record a JSON item stands for.
pub open spec fn record_of(item: Seq<char>) -> RecordModel {
    RecordModel {
        fields: match top_level_entries(item) {
            Some(es) => es,
            None => Seq::empty(),
        },
        internal_timestamp: json_get(item, "_timestamp"@),
    }
}

/// What the records of a `replay` statement are.
pub open spec fn records_spec(window: Seq<char>, records: Option<Seq<char>>) -> Result<Seq<RecordModel>, Seq<char>> {
    match records {
        None => Err("replay `"@ + window + "` 的值文件尚未解析；请通过 CLI（wfgen gen / lint）加载场景"@),
        Some(t) => match json_layout_of(t) {
            JsonLayoutModel::Object(_) => Ok(seq![record_of(t)]),
            JsonLayoutModel::Array(items) => Ok(items.map_values(|x: Seq<char>| record_of(x))),
            _ => Err("replay `"@ + window + "` 的记录必须是 JSON object 或 object 数组，实际有 "@ + t),
        },
    }
}

/// The record a JSON item stands for.
pub fn replay_record(item: &str) -> (r: ReplayRecord)
    ensures
        r@ == record_of(item@),
{
    let fields = match json_top_level_entries(item) {
        Some(es) => es,
        None => Vec::new(),
    };
    assert(views(fields@) == match top_level_entries(item@) {
        Some(es) => es,
        None => Seq::<(Seq<char>, Seq<char>)>::empty(),
    });
    ReplayRecord { fields, internal_timestamp: json_get_of(item, "_timestamp") }
}

/// The records of a `replay` statement (its file, as the loader read it):
/// one for an object, one per item of an array.
pub fn replay_records(stmt: &ReplayStmt) -> (r: Result<Vec<ReplayRecord>, WfgenError>)
    ensures
        match r {
            Ok(v) => records_spec(stmt.window@, opt_view(stmt.records)) == Ok::<Seq<RecordModel>, Seq<char>>(views(v@)),
            Err(e) => e.reason == WfgenReason::Validation && records_spec(stmt.window@, opt_view(stmt.records))
                == Err::<Seq<RecordModel>, Seq<char>>(e.detail@),
        },
{
    let text = match &stmt.records {
        None => {
            let mut m = String::from_str("replay `");
            m.append(stmt.window.as_str());
            m.append("` 的值文件尚未解析；请通过 CLI（wfgen gen / lint）加载场景");
            return Err(WfgenError::new(WfgenReason::Validation, m));
        },
        Some(t) => t,
    };
    match json_layout(text.as_str()) {
        JsonLayout::Object(_) => {
            let mut v: Vec<ReplayRecord> = Vec::new();
            v.push(replay_record(text.as_str()));
            assert(views(v@) =~= seq![record_of(text@)]);
            Ok(v)
        },
        JsonLayout::Array(items) => {
            let mut v: Vec<ReplayRecord> = Vec::new();
            let mut i: usize = 0;
            while i < items.len()
                invariant
                    i <= items.len(),
                    views(v@) == views(items@).take(i as int).map_values(|x: Seq<char>| record_of(x)),
                decreases items.len() - i,
            {
                let r = replay_record(items[i].as_str());
                proof {
                    assert(views(items@)[i as int] == items@[i as int]@);
                    assert(views(v@.push(r)) =~= views(v@).push(r@));
                    assert(views(items@).take(i as int + 1).map_values(|x: Seq<char>| record_of(x))
                        =~= views(items@).take(i as int).map_values(|x: Seq<char>| record_of(x)).push(
                        record_of(items@[i as int]@),
                    ));
                }
                v.push(r);
                i = i + 1;
            }
            assert(views(items@).take(i as int) =~= views(items@));
            Ok(v)
        },
        _ => {
            let mut m = String::from_str("replay `");
            m.append(stmt.window.as_str());
            m.append("` 的记录必须是 JSON object 或 object 数组，实际有 ");
            m.append(text.as_str());
            Err(WfgenError::new(WfgenReason::Validation, m))
        },
    }
}

// ---------------------------------------------------------------------------
// Time axis
// ---------------------------------------------------------------------------

/// The time fields to look for, in order: `_timestamp`, then the schema's
/// time field when it has another one.
pub fn time_candidates(schema_time_field: Option<&str>) -> (r: Vec<String>)
    ensures
        views(r@) == seq!["_timestamp"@] + match schema_time_field {
            Some(f) => if f@ != "_timestamp"@ {
                seq![f@]
            } else {
                Seq::empty()
            },
            None => Seq::empty(),
        },
{
    let mut v: Vec<String> = Vec::new();
    v.push(String::from_str("_timestamp"));
    match schema_time_field {
        Some(f) => {
            if !str_is(f, "_timestamp") {
                v.push(String::from_str(f));
            }
        },
        None => {},
    }
    assert(views(v@) =~= seq!["_timestamp"@] + match schema_time_field {
        Some(f) => if f@ != "_timestamp"@ {
            seq![f@]
        } else {
            Seq::<Seq<char>>::empty()
        },
        None => Seq::<Seq<char>>::empty(),
    });
    v
}

/// A candidate time field and, per record, its time in nanoseconds (`None`
/// when the record lacks the field or it is no valid timestamp).
#[derive(Debug, Clone, PartialEq)]
pub struct TimeCandidate {
    pub field: String,
    pub times: Vec<Option<i64>>,
}

/// The time plan of a `replay`: the time field used (`None`: spread evenly)
/// and each record's offset from the scenario start, in nanoseconds.
#[derive(Debug, Clone, PartialEq)]
pub struct ReplayTimeline {
    pub time_field: Option<String>,
    pub offsets_nanos: Vec<i64>,
}

/// The signed decimal text of `v`.
pub open spec fn int_text(v: int) -> Seq<char> {
    if v < 0 {
        seq!['-'] + dec_text((-v) as nat)
    } else {
        dec_text(v as nat)
    }
}

fn push_int(out: &mut String, v: i64)
    ensures
        final(out)@ == old(out)@ + int_text(v as int),
{
    if v < 0 {
        crate::wfg_lexer::push_char(out, '-');
        let m: u64 = (-(v as i128)) as u64;
        push_decimal(out, m);
    } else {
        push_decimal(out, v as u64);
    }
    assert(final(out)@ =~= old(out)@ + int_text(v as int));
}

pub open spec fn present_count(times: Seq<Option<i64>>) -> nat
    decreases times.len(),
{
    if times.len() == 0 {
        0
    } else {
        present_count(times.drop_last()) + if times.last() is Some {
            1nat
        } else {
            0nat
        }
    }
}

/// The first `i` with `raw[i + 1] < raw[i]`.
pub open spec fn first_descent(raw: Seq<i64>, i: int) -> Option<int>
    decreases raw.len() - i,
{
    if i < 0 || i + 1 >= raw.len() {
        None
    } else if raw[i + 1] < raw[i] {
        Some(i)
    } else {
        first_descent(raw, i + 1)
    }
}

pub open spec fn sat_sub(v: int, a: int) -> int {
    if v - a > i64::MAX {
        i64::MAX as int
    } else if v - a < i64::MIN {
        i64::MIN as int
    } else {
        v - a
    }
}

pub open spec fn seq_min(raw: Seq<i64>) -> int
    decreases raw.len(),
{
    if raw.len() == 0 {
        0
    } else if raw.len() == 1 {
        raw[0] as int
    } else {
        let m = seq_min(raw.drop_last());
        if (raw.last() as int) < m {
            raw.last() as int
        } else {
            m
        }
    }
}

/// Each time moved so that the earliest is 0.
pub open spec fn rebased(raw: Seq<i64>) -> Seq<int> {
    raw.map_values(|v: i64| sat_sub(v as int, seq_min(raw)))
}

/// Offsets spread evenly over the duration: `duration × i / count`.
pub open spec fn spread_offsets(count: nat, duration: u64) -> Seq<int> {
    let total: int = if duration > i64::MAX {
        i64::MAX as int
    } else {
        duration as int
    };
    Seq::new(count, |i: int| total * i / (count as int))
}

pub open spec fn unwrap_times(times: Seq<Option<i64>>) -> Seq<i64> {
    times.map_values(|t: Option<i64>| t.unwrap())
}

pub open spec fn msg_partial(field: Seq<char>, present: nat, total: nat) -> Seq<char> {
    "replay 记录里的时间字段 '"@ + field + "' 只在 "@ + dec_text(present) + " / "@ + dec_text(total)
        + " 条记录上出现（或不是合法时间戳）；同一份文件的落时间口径必须唯一：要么每条都有，要么都没有"@
}

pub open spec fn msg_descent(field: Seq<char>, i: nat, later: int, earlier: int) -> Seq<char> {
    "replay 记录的时间字段 '"@ + field + "' 不是单调不减：第 "@ + dec_text(i + 2) + " 条（"@ + int_text(
        later,
    ) + "）早于第 "@ + dec_text(i + 1) + " 条（"@ + int_text(earlier)
        + "）。记录按文件顺序发货，下游按时间有序假定处理——请先把文件按时间排序，或去掉时间字段（改为按序号在场景时长内均匀落下）"@
}

/// The time plan, from candidate `k` on.
pub open spec fn timeline_from(cands: Seq<(Seq<char>, Seq<Option<i64>>)>, count: nat, duration: u64, k: int) -> Result<(Option<Seq<char>>, Seq<int>), Seq<char>>
    decreases cands.len() - k,
{
    if k < 0 || k >= cands.len() {
        Ok((None, spread_offsets(count, duration)))
    } else {
        let (field, times) = cands[k];
        let present = present_count(times);
        if present == 0 {
            timeline_from(cands, count, duration, k + 1)
        } else if present != count {
            Err(msg_partial(field, present, count))
        } else {
            let raw = unwrap_times(times);
            match first_descent(raw, 0) {
                Some(i) => Err(msg_descent(field, i as nat, raw[i + 1] as int, raw[i] as int)),
                None => Ok((Some(field), rebased(raw))),
            }
        }
    }
}

pub open spec fn cands_view(c: Seq<TimeCandidate>) -> Seq<(Seq<char>, Seq<Option<i64>>)> {
    c.map_values(|x: TimeCandidate| (x.field@, x.times@))
}

/// The time plan of a `replay`: the first candidate field that some record
/// has decides (every record must have it, in non-decreasing order; the
/// earliest becomes the scenario start); with none, the records are spread
/// evenly over the duration.
pub fn plan_replay_timeline(candidates: &Vec<TimeCandidate>, count: usize, duration_nanos: u64) -> (r: Result<
    ReplayTimeline,
    WfgenError,
>)
    requires
        forall|k: int| 0 <= k < candidates.len() ==> (#[trigger] candidates@[k]).times.len() == count,
    ensures
        match r {
            Ok(t) => timeline_from(cands_view(candidates@), count as nat, duration_nanos, 0) == Ok::<
                (Option<Seq<char>>, Seq<int>),
                Seq<char>,
            >((opt_text(t.time_field), t.offsets_nanos@.map_values(|v: i64| v as int))),
            Err(e) => e.reason == WfgenReason::Validation && timeline_from(
                cands_view(candidates@),
                count as nat,
                duration_nanos,
                0,
            ) == Err::<(Option<Seq<char>>, Seq<int>), Seq<char>>(e.detail@),
        },
{
    let ghost cv = cands_view(candidates@);
    let mut k: usize = 0;
    while k < candidates.len()
        invariant
            k <= candidates.len(),
            cv == cands_view(candidates@),
            forall|q: int| 0 <= q < candidates.len() ==> (#[trigger] candidates@[q]).times.len() == count,
            timeline_from(cv, count as nat, duration_nanos, 0) == timeline_from(cv, count as nat, duration_nanos, k as int),
        decreases candidates.len() - k,
    {
        let c = &candidates[k];
        assert(cv[k as int] == (c.field@, c.times@));
        let present = count_present(&c.times);
        if present > 0 {
            if present != count {
                let mut m = String::from_str("replay 记录里的时间字段 '");
                m.append(c.field.as_str());
                m.append("' 只在 ");
                push_decimal(&mut m, present as u64);
                m.append(" / ");
                push_decimal(&mut m, count as u64);
                m.append(
                    " 条记录上出现（或不是合法时间戳）；同一份文件的落时间口径必须唯一：要么每条都有，要么都没有",
                );
                assert(m@ =~= msg_partial(c.field@, present as nat, count as nat));
                return Err(WfgenError::new(WfgenReason::Validation, m));
            }
            let raw = unwrap_all(&c.times, count);
            match ensure_time_ordered(&raw, c.field.as_str()) {
                Err(e) => return Err(e),
                Ok(()) => {},
            }
            let offsets = rebase_offsets(&raw);
            return Ok(ReplayTimeline { time_field: Some(c.field.clone()), offsets_nanos: offsets });
        }
        k = k + 1;
    }
    Ok(ReplayTimeline { time_field: None, offsets_nanos: spread(count, duration_nanos) })
}

fn count_present(times: &Vec<Option<i64>>) -> (n: usize)
    ensures
        n == present_count(times@),
{
    let mut n: usize = 0;
    let mut i: usize = 0;
    while i < times.len()
        invariant
            i <= times.len(),
            n <= i,
            n == present_count(times@.take(i as int)),
        decreases times.len() - i,
    {
        assert(times@.take(i as int + 1).drop_last() =~= times@.take(i as int));
        if times[i].is_some() {
            n = n + 1;
        }
        i = i + 1;
    }
    assert(times@.take(i as int) =~= times@);
    n
}

proof fn lemma_all_present(times: Seq<Option<i64>>)
    requires
        present_count(times) == times.len(),
    ensures
        forall|i: int| 0 <= i < times.len() ==> (#[trigger] times[i]) is Some,
    decreases times.len(),
{
    if times.len() > 0 {
        lemma_present_le(times.drop_last());
        lemma_all_present(times.drop_last());
        assert forall|i: int| 0 <= i < times.len() implies (#[trigger] times[i]) is Some by {
            if i < times.len() - 1 {
                assert(times.drop_last()[i] is Some);
            }
        }
    }
}

proof fn lemma_present_le(times: Seq<Option<i64>>)
    ensures
        present_count(times) <= times.len(),
    decreases times.len(),
{
    if times.len() > 0 {
        lemma_present_le(times.drop_last());
    }
}

fn unwrap_all(times: &Vec<Option<i64>>, count: usize) -> (raw: Vec<i64>)
    requires
        times.len() == count,
        present_count(times@) == count,
    ensures
        raw@ == unwrap_times(times@),
{
    proof {
        lemma_all_present(times@);
    }
    let mut raw: Vec<i64> = Vec::new();
    let mut i: usize = 0;
    while i < times.len()
        invariant
            i <= times.len(),
            forall|q: int| 0 <= q < times.len() ==> (#[trigger] times@[q]) is Some,
            raw@ == unwrap_times(times@.take(i as int)),
        decreases times.len() - i,
    {
        let t = match times[i] {
            Some(t) => t,
            None => 0,
        };
        assert(unwrap_times(times@.take(i as int + 1)) =~= unwrap_times(times@.take(i as int)).push(t));
        raw.push(t);
        i = i + 1;
    }
    assert(times@.take(i as int) =~= times@);
    raw
}

/// Record times must not decrease (equal times are fine).
pub fn ensure_time_ordered(raw: &Vec<i64>, field: &str) -> (r: Result<(), WfgenError>)
    ensures
        match r {
            Ok(()) => first_descent(raw@, 0) is None,
            Err(e) => e.reason == WfgenReason::Validation && (first_descent(raw@, 0) matches Some(i) && e.detail@
                == msg_descent(field@, i as nat, raw@[i + 1] as int, raw@[i] as int)),
        },
{
    let mut i: usize = 0;
    while i < raw.len() && i + 1 < raw.len()
        invariant
            i <= raw.len(),
            first_descent(raw@, 0) == first_descent(raw@, i as int),
        decreases raw.len() - i,
    {
        if raw[i + 1] < raw[i] {
            let mut m = String::from_str("replay 记录的时间字段 '");
            m.append(field);
            m.append("' 不是单调不减：第 ");
            push_decimal(&mut m, (i as u64) + 2);
            m.append(" 条（");
            push_int(&mut m, raw[i + 1]);
            m.append("）早于第 ");
            push_decimal(&mut m, (i as u64) + 1);
            m.append(" 条（");
            push_int(&mut m, raw[i]);
            m.append(
                "）。记录按文件顺序发货，下游按时间有序假定处理——请先把文件按时间排序，或去掉时间字段（改为按序号在场景时长内均匀落下）",
            );
            assert(m@ =~= msg_descent(field@, i as nat, raw@[i as int + 1] as int, raw@[i as int] as int));
            return Err(WfgenError::new(WfgenReason::Validation, m));
        }
        i = i + 1;
    }
    Ok(())
}

/// Each time moved so that the earliest is 0 (`saturating_sub` of the minimum).
pub fn rebase_offsets(raw: &Vec<i64>) -> (r: Vec<i64>)
    ensures
        r@.map_values(|v: i64| v as int) == rebased(raw@),
{
    let mut anchor: i64 = 0;
    let mut i: usize = 0;
    while i < raw.len()
        invariant
            i <= raw.len(),
            anchor == seq_min(raw@.take(i as int)),
        decreases raw.len() - i,
    {
        assert(raw@.take(i as int + 1).drop_last() =~= raw@.take(i as int));
        if i == 0 || raw[i] < anchor {
            anchor = raw[i];
        }
        i = i + 1;
    }
    assert(raw@.take(i as int) =~= raw@);
    let mut out: Vec<i64> = Vec::new();
    let mut j: usize = 0;
    while j < raw.len()
        invariant
            j <= raw.len(),
            anchor == seq_min(raw@),
            out@.map_values(|v: i64| v as int) == rebased(raw@).take(j as int),
        decreases raw.len() - j,
    {
        let d: i128 = (raw[j] as i128) - (anchor as i128);
        let v: i64 = if d > 0x7fff_ffff_ffff_ffff {
            i64::MAX
        } else if d < -0x8000_0000_0000_0000 {
            i64::MIN
        } else {
            d as i64
        };
        let ghost before = out@;
        out.push(v);
        assert(out@.map_values(|v: i64| v as int) =~= before.map_values(|v: i64| v as int).push(v as int));
        assert(rebased(raw@).take(j as int + 1) =~= rebased(raw@).take(j as int).push(v as int));
        j = j + 1;
    }
    assert(rebased(raw@).take(j as int) =~= rebased(raw@));
    out
}

/// `count` offsets spread evenly over the duration.
fn spread(count: usize, duration_nanos: u64) -> (r: Vec<i64>)
    ensures
        r@.map_values(|v: i64| v as int) == spread_offsets(count as nat, duration_nanos),
{
    let total: u128 = if duration_nanos > 0x7fff_ffff_ffff_ffff {
        0x7fff_ffff_ffff_ffff
    } else {
        duration_nanos as u128
    };
    let mut out: Vec<i64> = Vec::new();
    let mut i: usize = 0;
    while i < count
        invariant
            i <= count,
            total <= i64::MAX,
            total == (if duration_nanos > i64::MAX { i64::MAX as int } else { duration_nanos as int }),
            out@.map_values(|v: i64| v as int) == spread_offsets(count as nat, duration_nanos).take(i as int),
        decreases count - i,
    {
        assert(total * (i as u128) <= total * (count as u128)) by (nonlinear_arith)
            requires
                i < count,
        ;
        assert(total * (count as u128) <= 0x7fff_ffff_ffff_ffff_u128 * 0xffff_ffff_ffff_ffff_u128) by (nonlinear_arith)
            requires
                total <= 0x7fff_ffff_ffff_ffff_u128,
                count <= 0xffff_ffff_ffff_ffff,
        ;
        let p = total * (i as u128);
        let v = p / (count as u128);
        assert(v <= total) by (nonlinear_arith)
            requires
                p == total * (i as u128),
                i < count,
                v == p / (count as u128),
        ;
        let ghost before = out@;
        out.push(v as i64);
        assert(out@.map_values(|v: i64| v as int) =~= before.map_values(|v: i64| v as int).push(v as int));
        assert(spread_offsets(count as nat, duration_nanos).take(i as int + 1) =~= spread_offsets(
            count as nat,
            duration_nanos,
        ).take(i as int).push(v as int));
        i = i + 1;
    }
    assert(spread_offsets(count as nat, duration_nanos).take(i as int) =~= spread_offsets(count as nat, duration_nanos));
    out
}


proof fn lemma_no_descent_sorted(raw: Seq<i64>, k: int)
    requires
        0 <= k,
        first_descent(raw, k) is None,
    ensures
        forall|i: int, j: int| k <= i <= j < raw.len() ==> raw[i] <= raw[j],
    decreases raw.len() - k,
{
    if k + 1 < raw.len() {
        lemma_no_descent_sorted(raw, k + 1);
        assert forall|i: int, j: int| k <= i <= j < raw.len() implies raw[i] <= raw[j] by {
            if i == k && j > k {
                assert(raw[k] <= raw[k + 1]);
            }
        }
    }
}

proof fn lemma_min_below(raw: Seq<i64>)
    ensures
        forall|i: int| 0 <= i < raw.len() ==> seq_min(raw) <= raw[i],
    decreases raw.len(),
{
    if raw.len() > 1 {
        lemma_min_below(raw.drop_last());
        assert forall|i: int| 0 <= i < raw.len() implies seq_min(raw) <= raw[i] by {
            if i < raw.len() - 1 {
                assert(raw.drop_last()[i] == raw[i]);
            }
        }
    }
}

/// A replay's time plan puts every record at a non-negative offset, one per
/// record, and never earlier than the record before it.
pub proof fn lemma_timeline_ordered(cands: Seq<(Seq<char>, Seq<Option<i64>>)>, count: nat, duration: u64, k: int)
    requires
        0 <= k,
        forall|q: int| 0 <= q < cands.len() ==> (#[trigger] cands[q]).1.len() == count,
    ensures
        timeline_from(cands, count, duration, k) matches Ok((_, offs)) ==> offs.len() == count && (forall|i: int|
            0 <= i < offs.len() ==> 0 <= #[trigger] offs[i]) && forall|i: int, j: int|
            0 <= i <= j < offs.len() ==> offs[i] <= offs[j],
    decreases cands.len() - k,
{
    if k >= cands.len() {
        let total: int = if duration > i64::MAX {
            i64::MAX as int
        } else {
            duration as int
        };
        let offs = spread_offsets(count, duration);
        assert forall|i: int| 0 <= i < offs.len() implies 0 <= #[trigger] offs[i] by {
            assert(total * i >= 0) by (nonlinear_arith)
                requires
                    total >= 0,
                    i >= 0,
            ;
            vstd::arithmetic::div_mod::lemma_div_pos_is_pos(total * i, count as int);
        }
        assert forall|i: int, j: int| 0 <= i <= j < offs.len() implies offs[i] <= offs[j] by {
            assert(total * i <= total * j) by (nonlinear_arith)
                requires
                    total >= 0,
                    0 <= i <= j,
            ;
            vstd::arithmetic::div_mod::lemma_div_is_ordered(total * i, total * j, count as int);
        }
    } else {
        let (field, times) = cands[k];
        let present = present_count(times);
        if present == 0 {
            lemma_timeline_ordered(cands, count, duration, k + 1);
        } else if present == count {
            let raw = unwrap_times(times);
            if first_descent(raw, 0) is None {
                lemma_no_descent_sorted(raw, 0);
                lemma_min_below(raw);
                let offs = rebased(raw);
                assert forall|i: int, j: int| 0 <= i <= j < offs.len() implies offs[i] <= offs[j] by {
                    assert(raw[i] <= raw[j]);
                }
            }
        }
    }
}

} // verus!
