use wfgen::inject_plan::{
    InjectUseStepOverrides, StepInfo, compute_use_step_counts, map_use_predicates_to_rule_steps, plan_use_steps,
    uniform_cluster_start,
};

/// Cluster starts in milliseconds, read back as seconds.
fn start_secs(index: u64, count: u64, span_secs: f64) -> f64 {
    uniform_cluster_start(index, count, (span_secs * 1000.0) as i64) as f64 / 1000.0
}

#[test]
fn uniform_cluster_start_is_evenly_spaced() {
    let starts: Vec<f64> = (0..5).map(|i| start_secs(i, 5, 90.0)).collect();
    assert_eq!(starts, vec![0.0, 22.5, 45.0, 67.5, 90.0]);

    assert_eq!(starts[0], 0.0);
    assert_eq!(starts[4], 90.0);

    let step = 90.0 / 4.0;
    for pair in starts.windows(2) {
        assert!((pair[1] - pair[0] - step).abs() < 1e-9, "{starts:?}");
    }
}

#[test]
fn uniform_cluster_start_degenerate_cases() {
    assert_eq!(start_secs(0, 1, 90.0), 45.0);

    assert_eq!(start_secs(3, 5, 0.0), 0.0);
    assert_eq!(start_secs(0, 1, 0.0), 0.0);
    assert_eq!(start_secs(0, 1, -1.0), 0.0);

    assert_eq!(start_secs(0, 0, 90.0), 45.0);
}

fn step(alias: &str, filters: &[(&str, &str)]) -> StepInfo {
    StepInfo {
        bind_alias: alias.to_string(),
        filter_overrides: filters.iter().map(|(k, v)| (k.to_string(), v.to_string())).collect(),
    }
}

fn group(count: u64, preds: &[(&str, &str)]) -> InjectUseStepOverrides {
    InjectUseStepOverrides {
        count,
        predicates: preds.iter().map(|(k, v)| (k.to_string(), v.to_string())).collect(),
    }
}

#[test]
fn use_step_counts_return_empty_for_empty_steps() {
    let counts = compute_use_step_counts(&vec![], &vec![group(1, &[("success", "false")])]).unwrap();
    assert!(counts.is_empty());
}

#[test]
fn planned_use_steps_bind_by_declaration_order() {
    let steps = vec![step("auth_fail", &[("success", "false")]), step("scan", &[])];
    let groups = vec![group(3, &[("success", "false")]), group(1, &[("action", "\"scan\"")])];
    let plan = plan_use_steps(&steps, &groups, true).unwrap();
    assert_eq!(plan.len(), 2);
    assert_eq!(plan[0].rule_step_idx, 0);
    assert_eq!(plan[0].count, 3);
    assert_eq!(plan[1].rule_step_idx, 1);
    assert_eq!(plan[1].count, 1);
}

#[test]
fn one_use_step_does_not_spill_across_rule_steps() {
    let steps = vec![step("a", &[]), step("b", &[])];
    let counts = compute_use_step_counts(&steps, &vec![group(5, &[])]).unwrap();
    assert_eq!(counts, vec![5, 0]);
}

#[test]
fn extra_use_step_errors_when_rule_steps_exhausted() {
    let steps = vec![step("a", &[])];
    let err = plan_use_steps(&steps, &vec![group(1, &[]), group(1, &[])], true).unwrap_err();
    assert_eq!(
        err.detail,
        "injection use step 2 exceeds rule step count 1; each use(...) maps to one rule step"
    );
}

#[test]
fn zero_count_use_step_errors() {
    let steps = vec![step("a", &[])];
    let err = plan_use_steps(&steps, &vec![group(0, &[])], true).unwrap_err();
    assert_eq!(err.detail, "injection use step 1 count must be greater than 0");
}

#[test]
fn conflicting_use_step_predicates_error() {
    let steps = vec![step("a", &[("success", "false")])];
    let groups = vec![group(2, &[("success", "true")])];
    let err = plan_use_steps(&steps, &groups, true).unwrap_err();
    assert_eq!(
        err.detail,
        "injection use step 1 field 'success' conflicts with rule step filter: use has true, rule requires false"
    );
    // Without the filter check the same plan passes.
    assert_eq!(plan_use_steps(&steps, &groups, false).unwrap().len(), 1);
}

#[test]
fn hit_and_near_miss_share_the_same_counts() {
    let steps = vec![step("fail", &[])];
    let counts = compute_use_step_counts(&steps, &vec![group(12, &[])]).unwrap();
    assert_eq!(counts, vec![12], "the written count is never adjusted to a threshold");
}

#[test]
fn cluster_start_saturates_instead_of_overflowing() {
    assert_eq!(uniform_cluster_start(10, 2, i64::MAX), i64::MAX);
    assert_eq!(uniform_cluster_start(1, 2, i64::MAX), i64::MAX);
    assert_eq!(uniform_cluster_start(1, 3, 10), 5);
}

#[test]
fn matched_use_predicates_are_capped_to_step_event_count() {
    let steps = vec![step("auth_fail", &[("success", "false")])];
    let use_steps = vec![group(1_000, &[("success", "false")])];
    let mapped = map_use_predicates_to_rule_steps(&steps, &use_steps, &vec![4], true).unwrap();
    assert_eq!(mapped.len(), 1);
    assert_eq!(mapped[0].len(), 4, "predicates never go beyond the generated event count");
    assert!(mapped[0]
        .iter()
        .all(|predicates| predicates == &vec![("success".to_string(), "false".to_string())]));
}

#[test]
fn near_miss_counts_are_written_counts_not_clamped() {
    let steps = vec![
        step("step0", &[("stage", "\"first\"")]),
        step("step1", &[]),
        step("step2", &[("stage", "\"after\"")]),
    ];
    let groups = vec![group(3, &[("stage", "\"first\"")]), group(4, &[("stage", "\"after\"")])];
    // The second group feeds the second step, whose filter says nothing of `stage`.
    let counts = compute_use_step_counts(&steps, &groups).unwrap();
    assert_eq!(counts, vec![3, 4, 0]);
}

#[test]
fn unfed_step_slots_are_padded_with_empty_values() {
    let steps = vec![step("a", &[]), step("b", &[])];
    let groups = vec![group(2, &[("x", "1")])];
    let mapped = map_use_predicates_to_rule_steps(&steps, &groups, &vec![3, 2], true).unwrap();
    let one = vec![("x".to_string(), "1".to_string())];
    assert_eq!(mapped, vec![vec![one.clone(), one, vec![]], vec![vec![], vec![]]]);
    // No groups: every step's list stays empty.
    let none = map_use_predicates_to_rule_steps(&steps, &vec![], &vec![3, 2], true).unwrap();
    assert_eq!(none, vec![Vec::<Vec<(String, String)>>::new(), vec![]]);
    // A plan error comes through.
    let err = map_use_predicates_to_rule_steps(&steps, &vec![group(0, &[])], &vec![1, 1], true).unwrap_err();
    assert_eq!(err.detail, "injection use step 1 count must be greater than 0");
}
