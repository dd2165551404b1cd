use wfgen::verify::{ActualAlert, EmptyPolicy, OracleAlert, parse_time_approx, verify};

/// A score in millionths.
fn micros(x: f64) -> i64 {
    (x * 1_000_000.0).round() as i64
}

/// Verify with tolerances given as in the CLI: score units and seconds.
fn run(expected: &Vec<OracleAlert>, actual: &Vec<ActualAlert>, score_tol: f64, time_tol_secs: f64, policy: EmptyPolicy) -> wfgen::verify::VerifyReport {
    verify(expected, actual, micros(score_tol), (time_tol_secs * 1000.0) as i64, policy)
}

fn expected_alert(rule: &str, score: f64, id: &str, time: &str, intermediate: bool) -> OracleAlert {
    OracleAlert {
        rule_name: rule.to_string(),
        score: micros(score),
        entity_type: "ip".to_string(),
        entity_id: id.to_string(),
        origin: "event".to_string(),
        emit_time: time.to_string(),
        fields: vec![],
        intermediate,
    }
}

fn actual_alert(rule: &str, score: f64, id: &str, time: &str) -> ActualAlert {
    ActualAlert {
        rule_name: rule.to_string(),
        score: micros(score),
        entity_type: "ip".to_string(),
        entity_id: id.to_string(),
        origin: "event".to_string(),
        fired_at: time.to_string(),
    }
}

#[test]
fn exact_match_passes() {
    let expected = vec![expected_alert("r1", 85.0, "10.0.0.1", "2024-01-01T00:05:00Z", false)];
    let actual = vec![actual_alert("r1", 85.0, "10.0.0.1", "2024-01-01T00:05:00Z")];
    let report = run(&expected, &actual, 0.01, 1.0, EmptyPolicy::Deny);
    assert_eq!(report.status, "pass");
    assert_eq!(report.summary.matched, 1);
    assert_eq!(report.summary.missing, 0);
    assert_eq!(report.summary.unexpected, 0);
    assert_eq!(report.summary.field_mismatch, 0);
}

#[test]
fn missing_alert_fails() {
    let expected = vec![expected_alert("r1", 85.0, "10.0.0.1", "2024-01-01T00:05:00Z", false)];
    let report = run(&expected, &vec![], 0.01, 1.0, EmptyPolicy::Deny);
    assert_eq!(report.status, "fail");
    assert_eq!(report.summary.missing, 1);
}

#[test]
fn unexpected_alert_fails() {
    let actual = vec![actual_alert("r1", 85.0, "10.0.0.1", "2024-01-01T00:05:00Z")];
    let report = run(&vec![], &actual, 0.01, 1.0, EmptyPolicy::Deny);
    assert_eq!(report.status, "fail");
    assert_eq!(report.summary.unexpected, 1);
}

#[test]
fn score_mismatch_fails() {
    let expected = vec![expected_alert("r1", 85.0, "10.0.0.1", "2024-01-01T00:05:00Z", false)];
    let actual = vec![actual_alert("r1", 50.0, "10.0.0.1", "2024-01-01T00:05:00Z")];
    let report = run(&expected, &actual, 0.01, 1.0, EmptyPolicy::Deny);
    assert_eq!(report.status, "fail");
    assert_eq!(report.summary.field_mismatch, 1);
}

#[test]
fn score_within_tolerance_passes() {
    let expected = vec![expected_alert("r1", 85.0, "10.0.0.1", "2024-01-01T00:05:00Z", false)];
    let actual = vec![actual_alert("r1", 85.005, "10.0.0.1", "2024-01-01T00:05:00Z")];
    let report = run(&expected, &actual, 0.01, 1.0, EmptyPolicy::Deny);
    assert_eq!(report.status, "pass");
    assert_eq!(report.summary.matched, 1);
}

#[test]
fn empty_both_is_not_a_pass_by_default() {
    let report = run(&vec![], &vec![], 0.01, 1.0, EmptyPolicy::Deny);
    assert_eq!(report.status, "fail");
    assert!(report.empty);
    assert_eq!(report.summary.matched, 0);
    let note = report.note.as_deref().expect("无证据必须给出说明");
    assert!(note.contains("no evidence"), "note: {note}");
    assert!(note.contains("--allow-empty"), "note: {note}");
}

#[test]
fn empty_both_passes_with_allow_empty() {
    let report = run(&vec![], &vec![], 0.01, 1.0, EmptyPolicy::Allow);
    assert_eq!(report.status, "pass");
    assert!(report.empty);
    let note = report.note.as_deref().expect("放行也要留痕");
    assert!(note.contains("--allow-empty"), "note: {note}");
}

#[test]
fn empty_because_all_expected_are_intermediate_is_not_a_pass() {
    let mut e = expected_alert("q4a", 20.0, "7", "2024-01-01T00:05:00Z", true);
    e.entity_type = "digit".to_string();
    let report = run(&vec![e], &vec![], 0.01, 1.0, EmptyPolicy::Deny);
    assert_eq!(report.status, "fail");
    assert!(report.empty);
    assert_eq!(report.summary.expected_total, 0);
    assert_eq!(report.summary.expected_skipped_intermediate, 1);
    let note = report.note.as_deref().expect("无证据必须给出说明");
    assert!(note.contains("intermediate"), "note: {note}");
}

#[test]
fn actual_only_is_a_real_failure_not_empty() {
    let actual = vec![actual_alert("r1", 85.0, "10.0.0.2", "2024-01-01T00:05:00Z")];
    let report = run(&vec![], &actual, 0.01, 1.0, EmptyPolicy::Allow);
    assert_eq!(report.status, "fail");
    assert!(!report.empty);
    assert_eq!(report.summary.unexpected, 1);
    assert!(report.note.is_none());
}

#[test]
fn missing_alert_has_details() {
    let expected = vec![expected_alert("r1", 85.0, "10.0.0.1", "2024-01-01T00:05:00Z", false)];
    let report = run(&expected, &vec![], 0.01, 1.0, EmptyPolicy::Deny);
    assert_eq!(report.missing_details.len(), 1);
    assert_eq!(report.missing_details[0].rule_name, "r1");
    assert_eq!(report.missing_details[0].entity_id, "10.0.0.1");
}

#[test]
fn unexpected_alert_has_details() {
    let actual = vec![actual_alert("r1", 85.0, "10.0.0.2", "2024-01-01T00:05:00Z")];
    let report = run(&vec![], &actual, 0.01, 1.0, EmptyPolicy::Deny);
    assert_eq!(report.unexpected_details.len(), 1);
    assert_eq!(report.unexpected_details[0].entity_id, "10.0.0.2");
}

#[test]
fn score_mismatch_has_details() {
    let expected = vec![expected_alert("r1", 85.0, "10.0.0.1", "2024-01-01T00:05:00Z", false)];
    let actual = vec![actual_alert("r1", 50.0, "10.0.0.1", "2024-01-01T00:05:00Z")];
    let report = run(&expected, &actual, 0.01, 1.0, EmptyPolicy::Deny);
    assert_eq!(report.mismatch_details.len(), 1);
    assert_eq!(report.mismatch_details[0].expected_score, micros(85.0));
    assert_eq!(report.mismatch_details[0].actual_score, micros(50.0));
}

#[test]
fn test_markdown_report_format() {
    let expected = vec![expected_alert("brute_force", 85.0, "10.0.0.1", "2024-01-01T00:05:00Z", false)];
    let actual = vec![actual_alert("brute_force", 50.0, "10.0.0.1", "2024-01-01T00:05:00Z")];
    let report = run(&expected, &actual, 0.01, 1.0, EmptyPolicy::Deny);
    let md = report.to_markdown();

    assert!(md.contains("## wfgen Verify Report"), "should have header");
    assert!(md.contains("**Status**: FAIL"), "should show FAIL status");
    assert!(md.contains("### Summary"), "should have summary section");
    assert!(md.contains("| Metric | Count |"), "should have summary table");
    assert!(md.contains("### Field Mismatches"), "should have mismatch section");
    assert!(md.contains("brute_force"), "should contain rule name");
    assert!(md.contains("85.00"), "should contain expected score");
    assert!(md.contains("50.00"), "should contain actual score");
}

#[test]
fn test_markdown_pass_report() {
    let report = run(&vec![], &vec![], 0.01, 1.0, EmptyPolicy::Allow);
    let md = report.to_markdown();

    assert!(md.contains("**Status**: PASS"));
    assert!(md.contains("**Note**:"), "空通过必须留痕");
    assert!(!md.contains("### Missing"));
    assert!(!md.contains("### Unexpected"));
    assert!(!md.contains("### Field Mismatches"));
}

#[test]
fn time_mismatch_beyond_tolerance_fails() {
    let expected = vec![expected_alert("r1", 85.0, "10.0.0.1", "2024-01-01T00:05:00Z", false)];
    let actual = vec![actual_alert("r1", 85.0, "10.0.0.1", "2024-01-01T00:05:05Z")];

    let report = run(&expected, &actual, 0.01, 1.0, EmptyPolicy::Deny);
    assert_eq!(report.status, "fail");
    assert_eq!(report.summary.field_mismatch, 1);
    assert_eq!(report.summary.matched, 0);

    let report = run(&expected, &actual, 0.01, 10.0, EmptyPolicy::Deny);
    assert_eq!(report.status, "pass");
    assert_eq!(report.summary.matched, 1);
}

#[test]
fn hot_group_matching_stays_fast_and_correct() {
    const N: usize = 3_000;
    let expected: Vec<OracleAlert> = (0..N)
        .map(|i| {
            let mut e = expected_alert("hot", 1.0, "42", &format!("2024-01-01T00:00:{:02}Z", i % 60), false);
            e.entity_type = "digit".to_string();
            e
        })
        .collect();
    let actual: Vec<ActualAlert> = (0..N)
        .map(|i| {
            let mut a = actual_alert("hot", 1.0, "42", &format!("2024-01-01T00:00:{:02}Z", i % 60));
            a.entity_type = "digit".to_string();
            a
        })
        .collect();

    let report = run(&expected, &actual, 0.01, 1.0, EmptyPolicy::Deny);
    assert_eq!(report.summary.expected_total, N);
    assert_eq!(report.summary.matched, N);
    assert_eq!(report.summary.missing + report.summary.unexpected, 0);
}

#[test]
fn parse_time_approx_reads_rfc3339_and_defaults_to_zero() {
    assert_eq!(parse_time_approx("2024-01-01T00:00:01.500Z"), 1_704_067_201_500);
    assert_eq!(parse_time_approx("1970-01-01T00:00:00+00:00"), 0);
    assert_eq!(parse_time_approx("not a time"), 0);
}

#[test]
fn nearest_time_wins_and_counts_add_up() {
    let expected = vec![
        expected_alert("r", 1.0, "a", "2024-01-01T00:00:10Z", false),
        expected_alert("r", 1.0, "a", "2024-01-01T00:00:20Z", false),
        expected_alert("r", 1.0, "b", "2024-01-01T00:00:20Z", false),
    ];
    let actual = vec![
        actual_alert("r", 1.0, "a", "2024-01-01T00:00:21Z"),
        actual_alert("r", 1.0, "a", "2024-01-01T00:00:11Z"),
        actual_alert("r", 1.0, "c", "2024-01-01T00:00:20Z"),
    ];
    let report = run(&expected, &actual, 0.01, 2.0, EmptyPolicy::Deny);
    assert_eq!(report.summary.matched, 2);
    assert_eq!(report.summary.missing, 1);
    assert_eq!(report.summary.unexpected, 1);
    assert_eq!(report.missing_details[0].entity_id, "b");
    assert_eq!(report.unexpected_details[0].entity_id, "c");
    assert_eq!(
        report.summary.matched + report.summary.field_mismatch + report.summary.missing,
        report.summary.expected_total
    );
    assert_eq!(
        report.summary.matched + report.summary.field_mismatch + report.summary.unexpected,
        report.summary.actual_total
    );
    assert_eq!(report.schema, "wfgen-verify-report/v1");
}

#[test]
fn markdown_rows_round_scores_to_two_decimals() {
    let expected = vec![expected_alert("r", 1.234, "a", "t1", false)];
    let report = run(&expected, &vec![], 0.01, 1.0, EmptyPolicy::Deny);
    let md = report.to_markdown();
    assert!(md.contains("\n### Missing (1)\n\n"), "{md}");
    assert!(md.contains("| r | ip:a | 1.23 | t1 |\n"), "{md}");
}
