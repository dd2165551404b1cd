//! Comparison of the alerts a scenario should raise (the oracle's) with the
//! alerts an engine did raise.
//!
//! Alerts pair up when their rule, entity type and entity id agree; within
//! such a key, each expected alert (in order) takes the nearest unused actual
//! alert by time. A pair whose scores and times are both within tolerance is
//! a match, otherwise a field mismatch. Scores are kept in millionths and
//! times in milliseconds.

use vstd::prelude::*;

use crate::text::{dec_text, push_decimal};
use crate::wfg_ast::{opt_view, views};
use crate::wfg_lexer::push_char;

verus! {

broadcast use vstd::string::group_string_axioms;

// ---------------------------------------------------------------------------
// Alerts
// ---------------------------------------------------------------------------

/// An alert the oracle expects.
#[derive(Debug, Clone, PartialEq)]
pub struct OracleAlert {
    pub rule_name: String,
    /// Millionths.
    pub score: i64,
    pub entity_type: String,
    pub entity_id: String,
    pub origin: String,
    /// ISO 8601, the logical time of the triggering event.
    pub emit_time: String,
    /// Evaluated `yield (...)` field values (name, formatted value).
    pub fields: Vec<(String, String)>,
    /// An intermediate pipeline output: it reaches no sink and is not compared.
    pub intermediate: bool,
}

pub struct OracleAlertModel {
    pub rule_name: Seq<char>,
    pub score: i64,
    pub entity_type: Seq<char>,
    pub entity_id: Seq<char>,
    pub origin: Seq<char>,
    pub emit_time: Seq<char>,
    pub intermediate: bool,
}

impl View for OracleAlert {
    type V = OracleAlertModel;

    open spec fn view(&self) -> OracleAlertModel {
        OracleAlertModel {
            rule_name: self.rule_name@,
            score: self.score,
            entity_type: self.entity_type@,
            entity_id: self.entity_id@,
            origin: self.origin@,
            emit_time: self.emit_time@,
            intermediate: self.intermediate,
        }
    }
}

/// An alert an engine raised.
#[derive(Debug, Clone, PartialEq)]
pub struct ActualAlert {
    pub rule_name: String,
    /// Millionths.
    pub score: i64,
    pub entity_type: String,
    pub entity_id: String,
    pub origin: String,
    pub fired_at: String,
}

pub struct ActualAlertModel {
    pub rule_name: Seq<char>,
    pub score: i64,
    pub entity_type: Seq<char>,
    pub entity_id: Seq<char>,
    pub fired_at: Seq<char>,
}

impl View for ActualAlert {
    type V = ActualAlertModel;

    open spec fn view(&self) -> ActualAlertModel {
        ActualAlertModel {
            rule_name: self.rule_name@,
            score: self.score,
            entity_type: self.entity_type@,
            entity_id: self.entity_id@,
            fired_at: self.fired_at@,
        }
    }
}

// ---------------------------------------------------------------------------
// Times
// ---------------------------------------------------------------------------

/// The milliseconds since the epoch of an RFC 3339 / ISO 8601 timestamp, as
/// `chrono` reads it.
pub uninterp spec fn utc_millis_of(text: Seq<char>) -> Option<i64>;

/// Parses `text` as a `chrono::DateTime<chrono::Utc>` (`str::parse`) and takes
/// `timestamp_millis`; `None` when it does not parse. The contract claims only
/// that the result is a function of the text (named [`utc_millis_of`]).
#[verifier::external_body]
fn parse_utc_millis(text: &str) -> (r: Option<i64>)
    ensures
        r == utc_millis_of(text@),
{
    text.parse::<chrono::DateTime<chrono::Utc>>().ok().map(|dt| dt.timestamp_millis())
}

/// The time of a timestamp in milliseconds, 0 when it does not parse.
pub open spec fn time_of(text: Seq<char>) -> int {
    match utc_millis_of(text) {
        Some(t) => t as int,
        None => 0,
    }
}

/// The time of a timestamp in milliseconds since the epoch (0 when it does not parse).
pub fn parse_time_approx(s: &str) -> (t: i64)
    ensures
        t == time_of(s@),
{
    match parse_utc_millis(s) {
        Some(t) => t,
        None => 0,
    }
}

// ---------------------------------------------------------------------------
// Matching
// ---------------------------------------------------------------------------

pub open spec fn same_key(e: OracleAlertModel, a: ActualAlertModel) -> bool {
    e.rule_name == a.rule_name && e.entity_type == a.entity_type && e.entity_id == a.entity_id
}

pub open spec fn abs_int(x: int) -> int {
    if x < 0 {
        -x
    } else {
        x
    }
}

/// The nearest unused actual alert of the same key from index `j` on, given
/// the best (index, distance) so far; ties go to the lower index.
pub open spec fn nearest_from(
    e: OracleAlertModel,
    et: int,
    acts: Seq<ActualAlertModel>,
    ats: Seq<int>,
    used: Seq<bool>,
    j: int,
    best: Option<(int, int)>,
) -> Option<(int, int)>
    decreases acts.len() - j,
{
    if j < 0 || j >= acts.len() {
        best
    } else if !used[j] && same_key(e, acts[j]) {
        let d = abs_int(et - ats[j]);
        let nb = match best {
            None => Some((j, d)),
            Some((bj, bd)) => if d < bd {
                Some((j, d))
            } else {
                best
            },
        };
        nearest_from(e, et, acts, ats, used, j + 1, nb)
    } else {
        nearest_from(e, et, acts, ats, used, j + 1, best)
    }
}

/// What matching has found so far.
pub struct MatchState {
    /// For each actual alert, whether it was paired.
    pub used: Seq<bool>,
    pub matched: nat,
    /// (expected index, actual index) pairs out of tolerance.
    pub mismatches: Seq<(int, int)>,
    /// Expected alerts left without a partner.
    pub missing: Seq<int>,
}

/// Matching of the first `n` expected alerts.
pub open spec fn match_run(
    es: Seq<OracleAlertModel>,
    acts: Seq<ActualAlertModel>,
    score_tol: int,
    time_tol: int,
    n: int,
) -> MatchState
    decreases n,
{
    if n <= 0 {
        MatchState {
            used: Seq::new(acts.len(), |j: int| false),
            matched: 0,
            mismatches: Seq::empty(),
            missing: Seq::empty(),
        }
    } else {
        let st = match_run(es, acts, score_tol, time_tol, n - 1);
        let i = n - 1;
        let e = es[i];
        if e.intermediate {
            st
        } else {
            let ats = acts.map_values(|a: ActualAlertModel| time_of(a.fired_at));
            match nearest_from(e, time_of(e.emit_time), acts, ats, st.used, 0, None) {
                None => MatchState { missing: st.missing.push(i), ..st },
                Some((j, d)) => {
                    let used = st.used.update(j, true);
                    if abs_int(e.score - acts[j].score) <= score_tol && d <= time_tol {
                        MatchState { used, matched: st.matched + 1, ..st }
                    } else {
                        MatchState { used, mismatches: st.mismatches.push((i, j)), ..st }
                    }
                },
            }
        }
    }
}

/// The indices below `n` whose flag is false, in order.
pub open spec fn unused_indices(used: Seq<bool>, n: int) -> Seq<int>
    decreases n,
{
    if n <= 0 {
        Seq::empty()
    } else if !used[n - 1] {
        unused_indices(used, n - 1).push(n - 1)
    } else {
        unused_indices(used, n - 1)
    }
}

/// The number of expected alerts that take part in the comparison.
pub open spec fn compared_count(es: Seq<OracleAlertModel>, n: int) -> nat
    decreases n,
{
    if n <= 0 {
        0
    } else {
        compared_count(es, n - 1) + if es[n - 1].intermediate {
            0nat
        } else {
            1nat
        }
    }
}

/// The number of true flags below `n`.
pub open spec fn count_true(used: Seq<bool>, n: int) -> nat
    decreases n,
{
    if n <= 0 {
        0
    } else {
        count_true(used, n - 1) + if used[n - 1] {
            1nat
        } else {
            0nat
        }
    }
}

/// The result of matching: counts and indices.
pub struct MatchResult {
    pub matched: usize,
    /// (expected index, actual index) pairs whose score or time is out of tolerance.
    pub mismatches: Vec<(usize, usize)>,
    /// Expected alerts left without a partner.
    pub missing_indices: Vec<usize>,
    /// Actual alerts left without a partner.
    pub unexpected_indices: Vec<usize>,
}

pub open spec fn pairs_view(v: Seq<(usize, usize)>) -> Seq<(int, int)> {
    v.map_values(|p: (usize, usize)| (p.0 as int, p.1 as int))
}

pub open spec fn idx_view(v: Seq<usize>) -> Seq<int> {
    v.map_values(|i: usize| i as int)
}

/// What matching gives: the final state of [`match_run`] over all expected alerts.
pub open spec fn match_spec(
    es: Seq<OracleAlertModel>,
    acts: Seq<ActualAlertModel>,
    score_tol: int,
    time_tol: int,
) -> MatchState {
    match_run(es, acts, score_tol, time_tol, es.len() as int)
}

fn nearest_unused(
    expected: &OracleAlert,
    et: i64,
    actual: &Vec<ActualAlert>,
    act_times: &Vec<i64>,
    used: &Vec<bool>,
) -> (r: Option<(usize, u64)>)
    requires
        act_times.len() == actual.len(),
        used.len() == actual.len(),
    ensures
        match r {
            Some((j, d)) => nearest_from(
                expected@,
                et as int,
                views(actual@),
                act_times@.map_values(|t: i64| t as int),
                used@,
                0,
                None,
            ) == Some((j as int, d as int)) && j < actual.len(),
            None => nearest_from(
                expected@,
                et as int,
                views(actual@),
                act_times@.map_values(|t: i64| t as int),
                used@,
                0,
                None,
            ) is None,
        },
{
    let ghost acts = views(actual@);
    let ghost ats = act_times@.map_values(|t: i64| t as int);
    let mut best: Option<(usize, u64)> = None;
    let mut j: usize = 0;
    while j < actual.len()
        invariant
            j <= actual.len(),
            act_times.len() == actual.len(),
            used.len() == actual.len(),
            acts == views(actual@),
            ats == act_times@.map_values(|t: i64| t as int),
            nearest_from(expected@, et as int, acts, ats, used@, j as int, match best {
                Some((bj, bd)) => Some((bj as int, bd as int)),
                None => None,
            }) == nearest_from(expected@, et as int, acts, ats, used@, 0, None),
            match best {
                Some((bj, _)) => bj < j,
                None => true,
            },
        decreases actual.len() - j,
    {
        let a = &actual[j];
        assert(acts[j as int] == a@);
        assert(ats[j as int] == act_times@[j as int] as int);
        let same = !used[j] && expected.rule_name == a.rule_name && expected.entity_type == a.entity_type
            && expected.entity_id == a.entity_id;
        if same {
            let at = act_times[j];
            let diff: i128 = (et as i128) - (at as i128);
            let d128: i128 = if diff < 0 {
                -diff
            } else {
                diff
            };
            assert(d128 <= u64::MAX);
            let d = d128 as u64;
            let better = match best {
                None => true,
                Some((_, bd)) => d < bd,
            };
            if better {
                best = Some((j, d));
            }
        }
        j = j + 1;
    }
    best
}

proof fn lemma_nearest_bounds(
    e: OracleAlertModel,
    et: int,
    acts: Seq<ActualAlertModel>,
    ats: Seq<int>,
    used: Seq<bool>,
    j: int,
    best: Option<(int, int)>,
)
    requires
        used.len() == acts.len(),
        0 <= j,
        best matches Some((bj, _)) ==> 0 <= bj < acts.len() && !used[bj],
    ensures
        nearest_from(e, et, acts, ats, used, j, best) matches Some((k, _)) ==> 0 <= k < acts.len()
            && !used[k],
    decreases acts.len() - j,
{
    if j < acts.len() {
        if !used[j] && same_key(e, acts[j]) {
            let d = abs_int(et - ats[j]);
            let nb = match best {
                None => Some((j, d)),
                Some((bj, bd)) => if d < bd {
                    Some((j, d))
                } else {
                    best
                },
            };
            lemma_nearest_bounds(e, et, acts, ats, used, j + 1, nb);
        } else {
            lemma_nearest_bounds(e, et, acts, ats, used, j + 1, best);
        }
    }
}

/// Pairs expected and actual alerts of the same key greedily by nearest time
/// (see the module documentation). Intermediate expected alerts take no part.
pub fn greedy_match(
    expected: &Vec<OracleAlert>,
    actual: &Vec<ActualAlert>,
    score_tolerance: i64,
    time_tolerance_ms: i64,
) -> (r: MatchResult)
    ensures
        r.matched == match_spec(views(expected@), views(actual@), score_tolerance as int, time_tolerance_ms as int).matched,
        pairs_view(r.mismatches@) == match_spec(views(expected@), views(actual@), score_tolerance as int, time_tolerance_ms as int).mismatches,
        idx_view(r.missing_indices@) == match_spec(views(expected@), views(actual@), score_tolerance as int, time_tolerance_ms as int).missing,
        idx_view(r.unexpected_indices@) == unused_indices(
            match_spec(views(expected@), views(actual@), score_tolerance as int, time_tolerance_ms as int).used,
            actual@.len() as int,
        ),
{
    let ghost es = views(expected@);
    let ghost acts = views(actual@);
    let ghost stol = score_tolerance as int;
    let ghost ttol = time_tolerance_ms as int;
    let mut act_times: Vec<i64> = Vec::new();
    let mut k: usize = 0;
    while k < actual.len()
        invariant
            k <= actual.len(),
            act_times.len() == k,
            forall|q: int| 0 <= q < k ==> act_times@[q] as int == time_of(actual@[q].fired_at@),
        decreases actual.len() - k,
    {
        act_times.push(parse_time_approx(actual[k].fired_at.as_str()));
        k = k + 1;
    }
    let ghost ats = act_times@.map_values(|t: i64| t as int);
    assert(ats =~= acts.map_values(|a: ActualAlertModel| time_of(a.fired_at)));
    let mut used: Vec<bool> = Vec::new();
    let mut k: usize = 0;
    while k < actual.len()
        invariant
            k <= actual.len(),
            used.len() == k,
            forall|q: int| 0 <= q < k ==> !used@[q],
        decreases actual.len() - k,
    {
        used.push(false);
        k = k + 1;
    }
    assert(used@ =~= Seq::new(acts.len(), |j: int| false));
    let mut matched: usize = 0;
    let mut mismatches: Vec<(usize, usize)> = Vec::new();
    let mut missing: Vec<usize> = Vec::new();
    let mut i: usize = 0;
    while i < expected.len()
        invariant
            i <= expected.len(),
            es == views(expected@),
            acts == views(actual@),
            stol == score_tolerance as int,
            ttol == time_tolerance_ms as int,
            act_times.len() == actual.len(),
            ats == act_times@.map_values(|t: i64| t as int),
            ats == acts.map_values(|a: ActualAlertModel| time_of(a.fired_at)),
            used.len() == actual.len(),
            used@ == match_run(es, acts, stol, ttol, i as int).used,
            matched as int == match_run(es, acts, stol, ttol, i as int).matched,
            matched <= i,
            pairs_view(mismatches@) == match_run(es, acts, stol, ttol, i as int).mismatches,
            idx_view(missing@) == match_run(es, acts, stol, ttol, i as int).missing,
        decreases expected.len() - i,
    {
        let e = &expected[i];
        assert(es[i as int] == e@);
        if !e.intermediate {
            let et = parse_time_approx(e.emit_time.as_str());
            let found = nearest_unused(e, et, actual, &act_times, &used);
            match found {
                None => {
                    let ghost before = missing@;
                    missing.push(i);
                    assert(idx_view(missing@) =~= idx_view(before).push(i as int));
                },
                Some((j, d)) => {
                    proof {
                        lemma_nearest_bounds(e@, et as int, acts, ats, used@, 0, None);
                    }
                    used.set(j, true);
                    let sdiff: i128 = (e.score as i128) - (actual[j].score as i128);
                    let sabs: i128 = if sdiff < 0 {
                        -sdiff
                    } else {
                        sdiff
                    };
                    assert(acts[j as int] == actual@[j as int]@);
                    if sabs <= score_tolerance as i128 && (d as i128) <= time_tolerance_ms as i128 {
                        matched = matched + 1;
                    } else {
                        let ghost before = mismatches@;
                        mismatches.push((i, j));
                        assert(pairs_view(mismatches@) =~= pairs_view(before).push((i as int, j as int)));
                    }
                },
            }
        }
        i = i + 1;
    }
    let mut unexpected: Vec<usize> = Vec::new();
    let mut j: usize = 0;
    while j < actual.len()
        invariant
            j <= actual.len(),
            used.len() == actual.len(),
            idx_view(unexpected@) == unused_indices(used@, j as int),
        decreases actual.len() - j,
    {
        if !used[j] {
            let ghost before = unexpected@;
            unexpected.push(j);
            assert(idx_view(unexpected@) =~= idx_view(before).push(j as int));
        }
        j = j + 1;
    }
    MatchResult { matched, mismatches, missing_indices: missing, unexpected_indices: unexpected }
}


proof fn lemma_count_true_update(used: Seq<bool>, j: int, n: int)
    requires
        0 <= j < n <= used.len(),
        !used[j],
    ensures
        count_true(used.update(j, true), n) == count_true(used, n) + 1,
    decreases n,
{
    if n - 1 > j {
        lemma_count_true_update(used, j, n - 1);
    } else {
        assert forall|q: int| 0 <= q < j implies used.update(j, true)[q] == used[q] by {}
        lemma_count_true_same(used, used.update(j, true), j);
    }
}

proof fn lemma_count_true_same(a: Seq<bool>, b: Seq<bool>, n: int)
    requires
        0 <= n <= a.len(),
        n <= b.len(),
        forall|q: int| 0 <= q < n ==> a[q] == b[q],
    ensures
        count_true(a, n) == count_true(b, n),
    decreases n,
{
    if n > 0 {
        lemma_count_true_same(a, b, n - 1);
    }
}

proof fn lemma_unused_plus_used(used: Seq<bool>, n: int)
    requires
        0 <= n <= used.len(),
    ensures
        unused_indices(used, n).len() + count_true(used, n) == n,
        forall|q: int| 0 <= q < unused_indices(used, n).len() ==> 0 <= #[trigger] unused_indices(used, n)[q] < n,
    decreases n,
{
    if n > 0 {
        lemma_unused_plus_used(used, n - 1);
    }
}

proof fn lemma_match_run_counts(
    es: Seq<OracleAlertModel>,
    acts: Seq<ActualAlertModel>,
    score_tol: int,
    time_tol: int,
    n: int,
)
    requires
        0 <= n <= es.len(),
    ensures
        match_run(es, acts, score_tol, time_tol, n).used.len() == acts.len(),
        match_run(es, acts, score_tol, time_tol, n).matched + match_run(es, acts, score_tol, time_tol, n).mismatches.len()
            + match_run(es, acts, score_tol, time_tol, n).missing.len() == compared_count(es, n),
        count_true(match_run(es, acts, score_tol, time_tol, n).used, acts.len() as int)
            == match_run(es, acts, score_tol, time_tol, n).matched + match_run(es, acts, score_tol, time_tol, n).mismatches.len(),
        forall|q: int| 0 <= q < match_run(es, acts, score_tol, time_tol, n).missing.len()
            ==> 0 <= #[trigger] match_run(es, acts, score_tol, time_tol, n).missing[q] < n,
        forall|q: int| 0 <= q < match_run(es, acts, score_tol, time_tol, n).mismatches.len()
            ==> 0 <= #[trigger] match_run(es, acts, score_tol, time_tol, n).mismatches[q].0 < n
            && 0 <= match_run(es, acts, score_tol, time_tol, n).mismatches[q].1 < acts.len(),
    decreases n,
{
    if n == 0 {
        let used = Seq::new(acts.len(), |j: int| false);
        assert(count_true(used, acts.len() as int) == 0) by {
            lemma_count_false(used, acts.len() as int);
        }
    } else {
        lemma_match_run_counts(es, acts, score_tol, time_tol, n - 1);
        let st = match_run(es, acts, score_tol, time_tol, n - 1);
        let e = es[n - 1];
        if !e.intermediate {
            let ats = acts.map_values(|a: ActualAlertModel| time_of(a.fired_at));
            lemma_nearest_bounds(e, time_of(e.emit_time), acts, ats, st.used, 0, None);
            match nearest_from(e, time_of(e.emit_time), acts, ats, st.used, 0, None) {
                None => {},
                Some((j, d)) => {
                    lemma_count_true_update(st.used, j, acts.len() as int);
                },
            }
        }
    }
}

proof fn lemma_count_false(used: Seq<bool>, n: int)
    requires
        0 <= n <= used.len(),
        forall|q: int| 0 <= q < used.len() ==> !used[q],
    ensures
        count_true(used, n) == 0,
    decreases n,
{
    if n > 0 {
        lemma_count_false(used, n - 1);
    }
}

/// Matching accounts for every alert: each expected alert that takes part is
/// matched, mismatched or missing, and each actual alert is matched,
/// mismatched or unexpected.
pub proof fn lemma_match_accounts_for_all(
    es: Seq<OracleAlertModel>,
    acts: Seq<ActualAlertModel>,
    score_tol: int,
    time_tol: int,
)
    ensures
        match_spec(es, acts, score_tol, time_tol).matched + match_spec(es, acts, score_tol, time_tol).mismatches.len()
            + match_spec(es, acts, score_tol, time_tol).missing.len() == compared_count(es, es.len() as int),
        match_spec(es, acts, score_tol, time_tol).matched + match_spec(es, acts, score_tol, time_tol).mismatches.len()
            + unused_indices(match_spec(es, acts, score_tol, time_tol).used, acts.len() as int).len() == acts.len(),
{
    lemma_match_run_counts(es, acts, score_tol, time_tol, es.len() as int);
    lemma_unused_plus_used(match_spec(es, acts, score_tol, time_tol).used, acts.len() as int);
}

/// The alert nearest in time that is found has the expected alert's rule,
/// entity type and entity id, and is not used yet.
proof fn lemma_nearest_same_key(
    e: OracleAlertModel,
    et: int,
    acts: Seq<ActualAlertModel>,
    ats: Seq<int>,
    used: Seq<bool>,
    j: int,
    best: Option<(int, int)>,
)
    requires
        used.len() == acts.len(),
        0 <= j,
        best matches Some((bj, _)) ==> 0 <= bj < acts.len() && !used[bj] && e.rule_name == acts[bj].rule_name
            && e.entity_type == acts[bj].entity_type && e.entity_id == acts[bj].entity_id,
    ensures
        nearest_from(e, et, acts, ats, used, j, best) matches Some((k, _)) ==> 0 <= k < acts.len() && !used[k]
            && e.rule_name == acts[k].rule_name && e.entity_type == acts[k].entity_type && e.entity_id
            == acts[k].entity_id,
        best is None && (forall|k: int| j <= k < acts.len() ==> !(e.rule_name == #[trigger] acts[k].rule_name
            && e.entity_type == acts[k].entity_type && e.entity_id == acts[k].entity_id)) ==> nearest_from(
            e,
            et,
            acts,
            ats,
            used,
            j,
            best,
        ) is None,
    decreases acts.len() - j,
{
    if j < acts.len() {
        if !used[j] && same_key(e, acts[j]) {
            let d = abs_int(et - ats[j]);
            let nb = match best {
                None => Some((j, d)),
                Some((bj, bd)) => if d < bd {
                    Some((j, d))
                } else {
                    best
                },
            };
            lemma_nearest_same_key(e, et, acts, ats, used, j + 1, nb);
        } else {
            lemma_nearest_same_key(e, et, acts, ats, used, j + 1, best);
        }
    }
}

proof fn lemma_run_pairs_share_key(
    es: Seq<OracleAlertModel>,
    acts: Seq<ActualAlertModel>,
    score_tol: int,
    time_tol: int,
    n: int,
)
    requires
        0 <= n <= es.len(),
    ensures
        ({
            let m = match_run(es, acts, score_tol, time_tol, n);
            &&& m.used.len() == acts.len()
            &&& forall|q: int| 0 <= q < m.mismatches.len() ==> {
                let (i, j) = #[trigger] m.mismatches[q];
                0 <= i < n && 0 <= j < acts.len() && es[i].rule_name == acts[j].rule_name && es[i].entity_type
                    == acts[j].entity_type && es[i].entity_id == acts[j].entity_id
            }
            &&& forall|j: int| 0 <= j < acts.len() && #[trigger] m.used[j] ==> exists|i: int|
                0 <= i < n && !es[i].intermediate && es[i].rule_name == acts[j].rule_name && es[i].entity_type
                    == acts[j].entity_type && es[i].entity_id == acts[j].entity_id
            &&& forall|i: int| 0 <= i < n && !es[i].intermediate && (forall|j: int| 0 <= j < acts.len() ==> !(
                es[i].rule_name == #[trigger] acts[j].rule_name && es[i].entity_type == acts[j].entity_type
                    && es[i].entity_id == acts[j].entity_id)) ==> m.missing.contains(i)
        }),
    decreases n,
{
    if n > 0 {
        lemma_run_pairs_share_key(es, acts, score_tol, time_tol, n - 1);
        let st = match_run(es, acts, score_tol, time_tol, n - 1);
        let m = match_run(es, acts, score_tol, time_tol, n);
        let i = n - 1;
        let e = es[i];
        if !e.intermediate {
            let ats = acts.map_values(|a: ActualAlertModel| time_of(a.fired_at));
            lemma_nearest_same_key(e, time_of(e.emit_time), acts, ats, st.used, 0, None);
            match nearest_from(e, time_of(e.emit_time), acts, ats, st.used, 0, None) {
                None => {
                    assert forall|i2: int| 0 <= i2 < n && !es[i2].intermediate && (forall|j: int|
                        0 <= j < acts.len() ==> !(es[i2].rule_name == #[trigger] acts[j].rule_name
                            && es[i2].entity_type == acts[j].entity_type && es[i2].entity_id
                            == acts[j].entity_id)) implies m.missing.contains(i2) by {
                        if i2 == i {
                            assert(m.missing.last() == i);
                        } else {
                            assert(st.missing.contains(i2));
                            let q = choose|q: int| 0 <= q < st.missing.len() && st.missing[q] == i2;
                            assert(m.missing[q] == i2);
                        }
                    }
                },
                Some((j, d)) => {
                    assert forall|j2: int| 0 <= j2 < acts.len() && #[trigger] m.used[j2] implies exists|i2: int|
                        0 <= i2 < n && !es[i2].intermediate && es[i2].rule_name == acts[j2].rule_name
                            && es[i2].entity_type == acts[j2].entity_type && es[i2].entity_id
                            == acts[j2].entity_id by {
                        if j2 == j {
                            assert(0 <= i < n && !es[i].intermediate);
                        } else {
                            assert(st.used[j2]);
                        }
                    }
                    assert forall|i2: int| 0 <= i2 < n && !es[i2].intermediate && (forall|j3: int|
                        0 <= j3 < acts.len() ==> !(es[i2].rule_name == #[trigger] acts[j3].rule_name
                            && es[i2].entity_type == acts[j3].entity_type && es[i2].entity_id
                            == acts[j3].entity_id)) implies m.missing.contains(i2) by {
                        if i2 == i {
                            assert(es[i].rule_name == acts[j].rule_name);
                        }
                    }
                },
            }
        }
    }
}

/// Matching only ever pairs alerts of one key: every out-of-tolerance pair
/// and every actual alert taken by a pairing share the rule name, entity type
/// and entity id of an expected alert, and an expected alert (not
/// intermediate) for which no actual alert has its rule, entity type and id is
/// reported missing.
pub proof fn lemma_pairs_share_key(es: Seq<OracleAlertModel>, acts: Seq<ActualAlertModel>, score_tol: int, time_tol: int)
    ensures
        ({
            let m = match_spec(es, acts, score_tol, time_tol);
            &&& forall|q: int| 0 <= q < m.mismatches.len() ==> {
                let (i, j) = #[trigger] m.mismatches[q];
                0 <= i < es.len() && 0 <= j < acts.len() && es[i].rule_name == acts[j].rule_name
                    && es[i].entity_type == acts[j].entity_type && es[i].entity_id == acts[j].entity_id
            }
            &&& forall|j: int| 0 <= j < acts.len() && #[trigger] m.used[j] ==> exists|i: int|
                0 <= i < es.len() && !es[i].intermediate && es[i].rule_name == acts[j].rule_name
                    && es[i].entity_type == acts[j].entity_type && es[i].entity_id == acts[j].entity_id
            &&& forall|i: int| 0 <= i < es.len() && !es[i].intermediate && (forall|j: int| 0 <= j < acts.len() ==> !(
                es[i].rule_name == #[trigger] acts[j].rule_name && es[i].entity_type == acts[j].entity_type
                    && es[i].entity_id == acts[j].entity_id)) ==> m.missing.contains(i)
        }),
{
    lemma_run_pairs_share_key(es, acts, score_tol, time_tol, es.len() as int);
}


// ---------------------------------------------------------------------------
// Report
// ---------------------------------------------------------------------------

/// Whether a comparison with no alerts on either side passes.
#[derive(Debug, Clone, Copy, PartialEq, Eq, Structural)]
pub enum EmptyPolicy {
    /// No evidence is a failure (the default).
    Deny,
    /// No evidence passes (`--allow-empty`); the report still says so.
    Allow,
}

/// Summary counts of a comparison.
#[derive(Debug, Clone, PartialEq)]
pub struct VerifySummary {
    pub expected_total: usize,
    /// Expected alerts left out because they are intermediate pipeline outputs.
    pub expected_skipped_intermediate: usize,
    pub actual_total: usize,
    pub matched: usize,
    pub missing: usize,
    pub unexpected: usize,
    pub field_mismatch: usize,
}

/// A missing or unexpected alert.
#[derive(Debug, Clone, PartialEq)]
pub struct AlertDetail {
    pub rule_name: String,
    pub entity_type: String,
    pub entity_id: String,
    /// Millionths.
    pub score: i64,
    pub time: String,
}

pub struct AlertDetailModel {
    pub rule_name: Seq<char>,
    pub entity_type: Seq<char>,
    pub entity_id: Seq<char>,
    pub score: i64,
    pub time: Seq<char>,
}

impl View for AlertDetail {
    type V = AlertDetailModel;

    open spec fn view(&self) -> AlertDetailModel {
        AlertDetailModel {
            rule_name: self.rule_name@,
            entity_type: self.entity_type@,
            entity_id: self.entity_id@,
            score: self.score,
            time: self.time@,
        }
    }
}

/// A pair whose score or time is out of tolerance.
#[derive(Debug, Clone, PartialEq)]
pub struct MismatchDetail {
    pub rule_name: String,
    pub entity_type: String,
    pub entity_id: String,
    /// Millionths.
    pub expected_score: i64,
    /// Millionths.
    pub actual_score: i64,
    pub expected_time: String,
    pub actual_time: String,
}

pub struct MismatchDetailModel {
    pub rule_name: Seq<char>,
    pub entity_type: Seq<char>,
    pub entity_id: Seq<char>,
    pub expected_score: i64,
    pub actual_score: i64,
    pub expected_time: Seq<char>,
    pub actual_time: Seq<char>,
}

impl View for MismatchDetail {
    type V = MismatchDetailModel;

    open spec fn view(&self) -> MismatchDetailModel {
        MismatchDetailModel {
            rule_name: self.rule_name@,
            entity_type: self.entity_type@,
            entity_id: self.entity_id@,
            expected_score: self.expected_score,
            actual_score: self.actual_score,
            expected_time: self.expected_time@,
            actual_time: self.actual_time@,
        }
    }
}

/// The full comparison report.
#[derive(Debug, Clone, PartialEq)]
pub struct VerifyReport {
    /// The report format version.
    pub schema: String,
    /// `pass` or `fail`.
    pub status: String,
    /// Neither side had an alert to compare (no evidence).
    pub empty: bool,
    /// How a comparison without evidence was decided.
    pub note: Option<String>,
    pub summary: VerifySummary,
    pub missing_details: Vec<AlertDetail>,
    pub unexpected_details: Vec<AlertDetail>,
    pub mismatch_details: Vec<MismatchDetail>,
}

pub open spec fn missing_detail(e: OracleAlertModel) -> AlertDetailModel {
    AlertDetailModel {
        rule_name: e.rule_name,
        entity_type: e.entity_type,
        entity_id: e.entity_id,
        score: e.score,
        time: e.emit_time,
    }
}

pub open spec fn unexpected_detail(a: ActualAlertModel) -> AlertDetailModel {
    AlertDetailModel {
        rule_name: a.rule_name,
        entity_type: a.entity_type,
        entity_id: a.entity_id,
        score: a.score,
        time: a.fired_at,
    }
}

pub open spec fn mismatch_detail(e: OracleAlertModel, a: ActualAlertModel) -> MismatchDetailModel {
    MismatchDetailModel {
        rule_name: e.rule_name,
        entity_type: e.entity_type,
        entity_id: e.entity_id,
        expected_score: e.score,
        actual_score: a.score,
        expected_time: e.emit_time,
        actual_time: a.fired_at,
    }
}

/// Why a comparison has no evidence.
pub open spec fn no_evidence_reason(skipped: nat) -> Seq<char> {
    if skipped == 0 {
        "no evidence: no expected and no actual alerts to compare"@
    } else {
        "no evidence: all "@ + dec_text(skipped)
            + " expected alerts are intermediate pipeline outputs (skipped) and there are no actual alerts"@
    }
}

/// The note of a comparison without evidence.
pub open spec fn no_evidence_note(policy: EmptyPolicy, skipped: nat) -> Seq<char> {
    no_evidence_reason(skipped) + match policy {
        EmptyPolicy::Deny => "; rerun with --allow-empty to accept an empty comparison"@,
        EmptyPolicy::Allow => "; passed because of --allow-empty"@,
    }
}

/// The status of a comparison.
pub open spec fn status_of(empty: bool, policy: EmptyPolicy, missing: nat, unexpected: nat, mismatch: nat) -> Seq<char> {
    if empty {
        match policy {
            EmptyPolicy::Allow => "pass"@,
            EmptyPolicy::Deny => "fail"@,
        }
    } else if missing == 0 && unexpected == 0 && mismatch == 0 {
        "pass"@
    } else {
        "fail"@
    }
}

/// The report format version.
pub open spec fn report_schema() -> Seq<char> {
    "wfgen-verify-report/v1"@
}

/// Everything [`verify`] reports, as a function of its inputs.
pub open spec fn report_ok(
    r: VerifyReport,
    es: Seq<OracleAlertModel>,
    acts: Seq<ActualAlertModel>,
    score_tol: int,
    time_tol: int,
    policy: EmptyPolicy,
) -> bool {
    let st = match_spec(es, acts, score_tol, time_tol);
    let unexpected = unused_indices(st.used, acts.len() as int);
    let total = compared_count(es, es.len() as int);
    let empty = total == 0 && acts.len() == 0;
    &&& r.schema@ == report_schema()
    &&& r.summary.expected_total == total
    &&& r.summary.expected_skipped_intermediate == es.len() - total
    &&& r.summary.actual_total == acts.len()
    &&& r.summary.matched == st.matched
    &&& r.summary.missing == st.missing.len()
    &&& r.summary.unexpected == unexpected.len()
    &&& r.summary.field_mismatch == st.mismatches.len()
    &&& r.empty == empty
    &&& r.status@ == status_of(empty, policy, st.missing.len(), unexpected.len(), st.mismatches.len())
    &&& opt_text(r.note) == if empty {
        Some(no_evidence_note(policy, (es.len() - total) as nat))
    } else {
        None
    }
    &&& views(r.missing_details@) == st.missing.map_values(|i: int| missing_detail(es[i]))
    &&& views(r.unexpected_details@) == unexpected.map_values(|j: int| unexpected_detail(acts[j]))
    &&& views(r.mismatch_details@) == st.mismatches.map_values(
        |p: (int, int)| mismatch_detail(es[p.0], acts[p.1]),
    )
}

pub open spec fn opt_text(o: Option<String>) -> Option<Seq<char>> {
    match o {
        Some(s) => Some(s@),
        None => None,
    }
}

proof fn lemma_compared_le(es: Seq<OracleAlertModel>, n: int)
    requires
        0 <= n <= es.len(),
    ensures
        compared_count(es, n) <= n,
    decreases n,
{
    if n > 0 {
        lemma_compared_le(es, n - 1);
    }
}

/// Compares the oracle's expected alerts with the alerts an engine raised.
///
/// `score_tolerance` is in millionths, `time_tolerance_ms` in milliseconds.
/// With no alert to compare on either side the report is marked `empty`,
/// carries a note, and passes only under [`EmptyPolicy::Allow`].
pub fn verify(
    expected: &Vec<OracleAlert>,
    actual: &Vec<ActualAlert>,
    score_tolerance: i64,
    time_tolerance_ms: i64,
    policy: EmptyPolicy,
) -> (r: VerifyReport)
    ensures
        report_ok(r, views(expected@), views(actual@), score_tolerance as int, time_tolerance_ms as int, policy),
{
    let ghost es = views(expected@);
    let ghost acts = views(actual@);
    let ghost st = match_spec(es, acts, score_tolerance as int, time_tolerance_ms as int);
    let res = greedy_match(expected, actual, score_tolerance, time_tolerance_ms);
    proof {
        lemma_match_accounts_for_all(es, acts, score_tolerance as int, time_tolerance_ms as int);
        lemma_match_run_counts(es, acts, score_tolerance as int, time_tolerance_ms as int, es.len() as int);
        lemma_unused_plus_used(st.used, acts.len() as int);
    }
    let mut total: usize = 0;
    let mut i: usize = 0;
    while i < expected.len()
        invariant
            i <= expected.len(),
            es == views(expected@),
            total == compared_count(es, i as int),
            total <= i,
        decreases expected.len() - i,
    {
        assert(es[i as int] == expected@[i as int]@);
        if !expected[i].intermediate {
            total = total + 1;
        }
        i = i + 1;
    }
    let skipped = expected.len() - total;
    let empty = total == 0 && actual.len() == 0;
    let status = if empty {
        match policy {
            EmptyPolicy::Allow => String::from_str("pass"),
            EmptyPolicy::Deny => String::from_str("fail"),
        }
    } else if res.missing_indices.len() == 0 && res.unexpected_indices.len() == 0 && res.mismatches.len() == 0 {
        String::from_str("pass")
    } else {
        String::from_str("fail")
    };
    assert(res.missing_indices@.len() == idx_view(res.missing_indices@).len());
    assert(res.unexpected_indices@.len() == idx_view(res.unexpected_indices@).len());
    assert(res.mismatches@.len() == pairs_view(res.mismatches@).len());
    let note = if empty {
        let mut n = if skipped == 0 {
            String::from_str("no evidence: no expected and no actual alerts to compare")
        } else {
            let mut t = String::from_str("no evidence: all ");
            push_decimal(&mut t, skipped as u64);
            t.append(
                " expected alerts are intermediate pipeline outputs (skipped) and there are no actual alerts",
            );
            t
        };
        match policy {
            EmptyPolicy::Deny => n.append("; rerun with --allow-empty to accept an empty comparison"),
            EmptyPolicy::Allow => n.append("; passed because of --allow-empty"),
        }
        assert(n@ =~= no_evidence_note(policy, skipped as nat));
        Some(n)
    } else {
        None
    };
    let mut missing_details: Vec<AlertDetail> = Vec::new();
    let mut k: usize = 0;
    while k < res.missing_indices.len()
        invariant
            k <= res.missing_indices.len(),
            es == views(expected@),
            idx_view(res.missing_indices@) == st.missing,
            forall|q: int| 0 <= q < st.missing.len() ==> 0 <= #[trigger] st.missing[q] < es.len(),
            views(missing_details@) == st.missing.take(k as int).map_values(|i: int| missing_detail(es[i])),
        decreases res.missing_indices.len() - k,
    {
        let i = res.missing_indices[k];
        assert(st.missing[k as int] == i as int);
        let e = &expected[i];
        let d = AlertDetail {
            rule_name: e.rule_name.clone(),
            entity_type: e.entity_type.clone(),
            entity_id: e.entity_id.clone(),
            score: e.score,
            time: e.emit_time.clone(),
        };
        let ghost before = missing_details@;
        missing_details.push(d);
        assert(views(missing_details@) =~= views(before).push(d@));
        assert(st.missing.take(k as int + 1) =~= st.missing.take(k as int).push(i as int));
        k = k + 1;
    }
    assert(st.missing.take(k as int) =~= st.missing);
    let mut unexpected_details: Vec<AlertDetail> = Vec::new();
    let ghost un = unused_indices(st.used, acts.len() as int);
    let mut k: usize = 0;
    while k < res.unexpected_indices.len()
        invariant
            k <= res.unexpected_indices.len(),
            acts == views(actual@),
            idx_view(res.unexpected_indices@) == un,
            forall|q: int| 0 <= q < un.len() ==> 0 <= #[trigger] un[q] < acts.len(),
            views(unexpected_details@) == un.take(k as int).map_values(|j: int| unexpected_detail(acts[j])),
        decreases res.unexpected_indices.len() - k,
    {
        let j = res.unexpected_indices[k];
        assert(un[k as int] == j as int);
        let a = &actual[j];
        let d = AlertDetail {
            rule_name: a.rule_name.clone(),
            entity_type: a.entity_type.clone(),
            entity_id: a.entity_id.clone(),
            score: a.score,
            time: a.fired_at.clone(),
        };
        let ghost before = unexpected_details@;
        unexpected_details.push(d);
        assert(views(unexpected_details@) =~= views(before).push(d@));
        assert(un.take(k as int + 1) =~= un.take(k as int).push(j as int));
        k = k + 1;
    }
    assert(un.take(k as int) =~= un);
    let mut mismatch_details: Vec<MismatchDetail> = Vec::new();
    let mut k: usize = 0;
    while k < res.mismatches.len()
        invariant
            k <= res.mismatches.len(),
            es == views(expected@),
            acts == views(actual@),
            pairs_view(res.mismatches@) == st.mismatches,
            forall|q: int| 0 <= q < st.mismatches.len() ==> 0 <= #[trigger] st.mismatches[q].0 < es.len()
                && 0 <= st.mismatches[q].1 < acts.len(),
            views(mismatch_details@) == st.mismatches.take(k as int).map_values(
                |p: (int, int)| mismatch_detail(es[p.0], acts[p.1]),
            ),
        decreases res.mismatches.len() - k,
    {
        let (i, j) = res.mismatches[k];
        assert(st.mismatches[k as int] == (i as int, j as int));
        let e = &expected[i];
        let a = &actual[j];
        let d = MismatchDetail {
            rule_name: e.rule_name.clone(),
            entity_type: e.entity_type.clone(),
            entity_id: e.entity_id.clone(),
            expected_score: e.score,
            actual_score: a.score,
            expected_time: e.emit_time.clone(),
            actual_time: a.fired_at.clone(),
        };
        let ghost before = mismatch_details@;
        mismatch_details.push(d);
        assert(views(mismatch_details@) =~= views(before).push(d@));
        assert(st.mismatches.take(k as int + 1) =~= st.mismatches.take(k as int).push((i as int, j as int)));
        k = k + 1;
    }
    assert(st.mismatches.take(k as int) =~= st.mismatches);
    VerifyReport {
        schema: String::from_str("wfgen-verify-report/v1"),
        status,
        empty,
        note,
        summary: VerifySummary {
            expected_total: total,
            expected_skipped_intermediate: skipped,
            actual_total: actual.len(),
            matched: res.matched,
            missing: res.missing_indices.len(),
            unexpected: res.unexpected_indices.len(),
            field_mismatch: res.mismatches.len(),
        },
        missing_details,
        unexpected_details,
        mismatch_details,
    }
}


// ---------------------------------------------------------------------------
// Markdown
// ---------------------------------------------------------------------------

/// The Unicode uppercase of a text, as `str::to_uppercase` maps it.
pub uninterp spec fn uppercase_of(text: Seq<char>) -> Seq<char>;

/// `str::to_uppercase`: the contract claims only that the result is a
/// function of the text (named [`uppercase_of`]).
#[verifier::external_body]
fn to_uppercase_text(s: &str) -> (r: String)
    ensures
        r@ == uppercase_of(s@),
{
    s.to_uppercase()
}

/// Two decimal digits (`05`, `42`).
pub open spec fn two_digits(v: nat) -> Seq<char> {
    seq![crate::text::digit_char(v / 10), crate::text::digit_char(v % 10)]
}

/// A score in millionths with two decimals, rounded half away from zero.
pub open spec fn score_text(v: int) -> Seq<char> {
    let a = abs_int(v);
    let c = (a + 5000) / 10000;
    (if v < 0 {
        seq!['-']
    } else {
        Seq::empty()
    }) + dec_text((c / 100) as nat) + seq!['.'] + two_digits((c % 100) as nat)
}

pub open spec fn detail_row(d: AlertDetailModel) -> Seq<char> {
    "| "@ + d.rule_name + " | "@ + d.entity_type + ":"@ + d.entity_id + " | "@ + score_text(
        d.score as int,
    ) + " | "@ + d.time + " |\n"@
}

pub open spec fn mismatch_row(d: MismatchDetailModel) -> Seq<char> {
    "| "@ + d.rule_name + " | "@ + d.entity_type + ":"@ + d.entity_id + " | "@ + score_text(
        d.expected_score as int,
    ) + " | "@ + score_text(d.actual_score as int) + " | "@ + d.expected_time + " | "@
        + d.actual_time + " |\n"@
}

pub open spec fn detail_rows(ds: Seq<AlertDetailModel>) -> Seq<char>
    decreases ds.len(),
{
    if ds.len() == 0 {
        Seq::empty()
    } else {
        detail_rows(ds.drop_last()) + detail_row(ds.last())
    }
}

pub open spec fn mismatch_rows(ds: Seq<MismatchDetailModel>) -> Seq<char>
    decreases ds.len(),
{
    if ds.len() == 0 {
        Seq::empty()
    } else {
        mismatch_rows(ds.drop_last()) + mismatch_row(ds.last())
    }
}

pub open spec fn count_row(label: Seq<char>, n: nat) -> Seq<char> {
    label + dec_text(n) + " |\n"@
}

pub open spec fn summary_md(s: VerifySummary) -> Seq<char> {
    "### Summary\n\n"@ + "| Metric | Count |\n"@ + "|--------|-------|\n"@ + count_row(
        "| Expected total | "@,
        s.expected_total as nat,
    ) + (if s.expected_skipped_intermediate > 0 {
        count_row("| Expected skipped (intermediate) | "@, s.expected_skipped_intermediate as nat)
    } else {
        Seq::empty()
    }) + count_row("| Actual total | "@, s.actual_total as nat) + count_row(
        "| Matched | "@,
        s.matched as nat,
    ) + count_row("| Missing | "@, s.missing as nat) + count_row(
        "| Unexpected | "@,
        s.unexpected as nat,
    ) + count_row("| Field mismatch | "@, s.field_mismatch as nat)
}

pub open spec fn details_md(title: Seq<char>, ds: Seq<AlertDetailModel>) -> Seq<char> {
    if ds.len() == 0 {
        Seq::empty()
    } else {
        title + dec_text(ds.len()) + ")\n\n"@ + "| Rule | Entity | Score | Time |\n"@
            + "|------|--------|-------|------|\n"@ + detail_rows(ds)
    }
}

pub open spec fn mismatches_md(ds: Seq<MismatchDetailModel>) -> Seq<char> {
    if ds.len() == 0 {
        Seq::empty()
    } else {
        "\n### Field Mismatches ("@ + dec_text(ds.len()) + ")\n\n"@
            + "| Rule | Entity | Expected | Actual | Exp. Time | Act. Time |\n"@
            + "|------|--------|----------|--------|-----------|----------|\n"@ + mismatch_rows(ds)
    }
}

/// The Markdown rendering of a report.
pub open spec fn report_md(r: VerifyReport) -> Seq<char> {
    head_md(r.status@, opt_text(r.note)) + summary_md(r.summary) + details_md("\n### Missing ("@, views(r.missing_details@))
        + details_md("\n### Unexpected ("@, views(r.unexpected_details@)) + mismatches_md(
        views(r.mismatch_details@),
    )
}

fn push_score(out: &mut String, v: i64)
    ensures
        final(out)@ == old(out)@ + score_text(v as int),
{
    let a: u64 = if v < 0 {
        (-(v as i128)) as u64
    } else {
        v as u64
    };
    let c: u64 = a / 10000 + if a % 10000 >= 5000 {
        1
    } else {
        0
    };
    assert(c == (abs_int(v as int) + 5000) / 10000);
    if v < 0 {
        push_char(out, '-');
    }
    push_decimal(out, c / 100);
    push_char(out, '.');
    let f = c % 100;
    push_char(out, crate::text::decimal_digit(f / 10));
    push_char(out, crate::text::decimal_digit(f % 10));
    assert(final(out)@ =~= old(out)@ + score_text(v as int));
}

fn push_count_row(out: &mut String, label: &str, n: usize)
    ensures
        final(out)@ == old(out)@ + count_row(label@, n as nat),
{
    out.append(label);
    push_decimal(out, n as u64);
    out.append(" |\n");
    assert(final(out)@ =~= old(out)@ + count_row(label@, n as nat));
}

fn push_detail_rows(out: &mut String, ds: &Vec<AlertDetail>)
    ensures
        final(out)@ == old(out)@ + detail_rows(views(ds@)),
{
    let ghost start = out@;
    let mut i: usize = 0;
    assert(views(ds@).take(0) =~= Seq::<AlertDetailModel>::empty());
    while i < ds.len()
        invariant
            i <= ds.len(),
            out@ == start + detail_rows(views(ds@).take(i as int)),
        decreases ds.len() - i,
    {
        let d = &ds[i];
        proof {
            let t = views(ds@).take(i as int + 1);
            assert(t.drop_last() =~= views(ds@).take(i as int));
            assert(t.last() == d@);
        }
        let ghost before = out@;
        out.append("| ");
        out.append(d.rule_name.as_str());
        out.append(" | ");
        out.append(d.entity_type.as_str());
        out.append(":");
        out.append(d.entity_id.as_str());
        out.append(" | ");
        push_score(out, d.score);
        out.append(" | ");
        out.append(d.time.as_str());
        out.append(" |\n");
        assert(out@ =~= before + detail_row(d@));
        i = i + 1;
    }
    assert(views(ds@).take(i as int) =~= views(ds@));
}

fn push_mismatch_rows(out: &mut String, ds: &Vec<MismatchDetail>)
    ensures
        final(out)@ == old(out)@ + mismatch_rows(views(ds@)),
{
    let ghost start = out@;
    let mut i: usize = 0;
    assert(views(ds@).take(0) =~= Seq::<MismatchDetailModel>::empty());
    while i < ds.len()
        invariant
            i <= ds.len(),
            out@ == start + mismatch_rows(views(ds@).take(i as int)),
        decreases ds.len() - i,
    {
        let d = &ds[i];
        proof {
            let t = views(ds@).take(i as int + 1);
            assert(t.drop_last() =~= views(ds@).take(i as int));
            assert(t.last() == d@);
        }
        let ghost before = out@;
        out.append("| ");
        out.append(d.rule_name.as_str());
        out.append(" | ");
        out.append(d.entity_type.as_str());
        out.append(":");
        out.append(d.entity_id.as_str());
        out.append(" | ");
        push_score(out, d.expected_score);
        out.append(" | ");
        push_score(out, d.actual_score);
        out.append(" | ");
        out.append(d.expected_time.as_str());
        out.append(" | ");
        out.append(d.actual_time.as_str());
        out.append(" |\n");
        assert(out@ =~= before + mismatch_row(d@));
        i = i + 1;
    }
    assert(views(ds@).take(i as int) =~= views(ds@));
}

fn push_details(out: &mut String, title: &str, ds: &Vec<AlertDetail>)
    ensures
        final(out)@ == old(out)@ + details_md(title@, views(ds@)),
{
    if ds.len() > 0 {
        out.append(title);
        push_decimal(out, ds.len() as u64);
        out.append(")\n\n");
        out.append("| Rule | Entity | Score | Time |\n");
        out.append("|------|--------|-------|------|\n");
        push_detail_rows(out, ds);
    }
    assert(final(out)@ =~= old(out)@ + details_md(title@, views(ds@)));
}

pub open spec fn head_md(status: Seq<char>, note: Option<Seq<char>>) -> Seq<char> {
    "## wfgen Verify Report\n\n"@ + "**Status**: "@ + uppercase_of(status) + "\n\n"@ + (match note {
        Some(n) => "**Note**: "@ + n + "\n\n"@,
        None => Seq::empty(),
    })
}

fn push_head(out: &mut String, status: &String, note: &Option<String>)
    ensures
        final(out)@ == old(out)@ + head_md(status@, opt_text(*note)),
{
    out.append("## wfgen Verify Report\n\n");
    out.append("**Status**: ");
    out.append(to_uppercase_text(status.as_str()).as_str());
    out.append("\n\n");
    match note {
        Some(n) => {
            out.append("**Note**: ");
            out.append(n.as_str());
            out.append("\n\n");
        },
        None => {},
    }
    assert(final(out)@ =~= old(out)@ + head_md(status@, opt_text(*note)));
}

fn push_summary(out: &mut String, s: &VerifySummary)
    ensures
        final(out)@ == old(out)@ + summary_md(*s),
{
    out.append("### Summary\n\n");
    out.append("| Metric | Count |\n");
    out.append("|--------|-------|\n");
    push_count_row(out, "| Expected total | ", s.expected_total);
    if s.expected_skipped_intermediate > 0 {
        push_count_row(out, "| Expected skipped (intermediate) | ", s.expected_skipped_intermediate);
    }
    push_count_row(out, "| Actual total | ", s.actual_total);
    push_count_row(out, "| Matched | ", s.matched);
    push_count_row(out, "| Missing | ", s.missing);
    push_count_row(out, "| Unexpected | ", s.unexpected);
    push_count_row(out, "| Field mismatch | ", s.field_mismatch);
    assert(final(out)@ =~= old(out)@ + summary_md(*s));
}

fn push_mismatches(out: &mut String, ds: &Vec<MismatchDetail>)
    ensures
        final(out)@ == old(out)@ + mismatches_md(views(ds@)),
{
    if ds.len() > 0 {
        out.append("\n### Field Mismatches (");
        push_decimal(out, ds.len() as u64);
        out.append(")\n\n");
        out.append("| Rule | Entity | Expected | Actual | Exp. Time | Act. Time |\n");
        out.append("|------|--------|----------|--------|-----------|----------|\n");
        push_mismatch_rows(out, ds);
    }
    assert(final(out)@ =~= old(out)@ + mismatches_md(views(ds@)));
}

impl VerifyReport {
    /// The report as a Markdown section for a pull request.
    pub fn to_markdown(&self) -> (md: String)
        ensures
            md@ == report_md(*self),
    {
        let mut md = String::new();
        push_head(&mut md, &self.status, &self.note);
        push_summary(&mut md, &self.summary);
        push_details(&mut md, "\n### Missing (", &self.missing_details);
        push_details(&mut md, "\n### Unexpected (", &self.unexpected_details);
        push_mismatches(&mut md, &self.mismatch_details);
        assert(md@ =~= report_md(*self));
        md
    }
}

} // verus!
