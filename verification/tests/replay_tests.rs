use wfgen::error::WfgenReason;
use wfgen::replay_plan::{
    ensure_time_ordered, plan_replay_timeline, rebase_offsets, replay_record, replay_records,
    time_candidates, TimeCandidate,
};
use wfgen::wfg_ast::ReplayStmt;

const NS_PER_SEC: u64 = 1_000_000_000;

fn candidate(field: &str, times: Vec<Option<i64>>) -> TimeCandidate {
    TimeCandidate {
        field: field.to_string(),
        times,
    }
}

#[test]
fn no_time_field_timeline_over_huge_duration_does_not_overflow() {
    // Three records, none with a time field.
    let candidates = vec![candidate("_timestamp", vec![None, None, None])];
    let duration: u64 = 7_200_000_000 * NS_PER_SEC;

    let timeline = plan_replay_timeline(&candidates, 3, duration).expect("spread by index");

    assert_eq!(timeline.time_field, None);
    assert_eq!(timeline.offsets_nanos.len(), 3);
    assert!(
        timeline.offsets_nanos.windows(2).all(|w| w[0] <= w[1]),
        "offsets must not decrease: {:?}",
        timeline.offsets_nanos
    );
    assert!(
        timeline
            .offsets_nanos
            .iter()
            .all(|&offset| offset >= 0 && (offset as u128) < duration as u128),
        "offsets must fall inside the duration: {:?}",
        timeline.offsets_nanos
    );
}

#[test]
fn records_without_time_are_spread_evenly() {
    let candidates = vec![candidate("_timestamp", vec![None; 4])];
    let timeline = plan_replay_timeline(&candidates, 4, 8 * NS_PER_SEC).unwrap();
    assert_eq!(
        timeline.offsets_nanos,
        vec![0, 2 * NS_PER_SEC as i64, 4 * NS_PER_SEC as i64, 6 * NS_PER_SEC as i64]
    );
}

#[test]
fn file_times_are_rebased_onto_the_scenario_start() {
    let candidates = vec![
        candidate("_timestamp", vec![None, None, None]),
        candidate("ts", vec![Some(1_000), Some(1_500), Some(1_500)]),
    ];
    let timeline = plan_replay_timeline(&candidates, 3, NS_PER_SEC).unwrap();
    assert_eq!(timeline.time_field, Some("ts".to_string()));
    assert_eq!(timeline.offsets_nanos, vec![0, 500, 500]);
}

#[test]
fn the_first_candidate_present_decides() {
    let candidates = vec![
        candidate("_timestamp", vec![Some(10), Some(20)]),
        candidate("ts", vec![Some(5), Some(1)]),
    ];
    let timeline = plan_replay_timeline(&candidates, 2, NS_PER_SEC).unwrap();
    assert_eq!(timeline.time_field, Some("_timestamp".to_string()));
    assert_eq!(timeline.offsets_nanos, vec![0, 10]);
}

#[test]
fn partial_time_field_is_rejected() {
    let candidates = vec![candidate("ts", vec![Some(1), None, Some(3)])];
    let err = plan_replay_timeline(&candidates, 3, NS_PER_SEC).unwrap_err();
    assert_eq!(err.reason, WfgenReason::Validation);
    assert!(err.detail.starts_with("replay 记录里的时间字段 'ts' 只在 2 / 3 条记录上出现"), "{}", err.detail);
}

#[test]
fn decreasing_times_are_rejected_with_the_positions() {
    let err = ensure_time_ordered(&vec![5, 7, 6], "ts").unwrap_err();
    assert!(
        err.detail.starts_with("replay 记录的时间字段 'ts' 不是单调不减：第 3 条（6）早于第 2 条（7）"),
        "{}",
        err.detail
    );
    let err = ensure_time_ordered(&vec![-1, -3], "ts").unwrap_err();
    assert!(err.detail.contains("第 2 条（-3）早于第 1 条（-1）"), "{}", err.detail);
    assert!(ensure_time_ordered(&vec![1, 1, 2], "ts").is_ok());
    assert!(ensure_time_ordered(&vec![], "ts").is_ok());
}

#[test]
fn rebase_moves_the_earliest_to_zero() {
    assert_eq!(rebase_offsets(&vec![30, 10, 20]), vec![20, 0, 10]);
    assert_eq!(rebase_offsets(&vec![]), Vec::<i64>::new());
    assert_eq!(rebase_offsets(&vec![i64::MIN, i64::MAX]), vec![0, i64::MAX]);
}

#[test]
fn time_candidates_put_the_internal_field_first() {
    assert_eq!(time_candidates(None), vec!["_timestamp".to_string()]);
    assert_eq!(time_candidates(Some("ts")), vec!["_timestamp".to_string(), "ts".to_string()]);
    assert_eq!(time_candidates(Some("_timestamp")), vec!["_timestamp".to_string()]);
}

#[test]
fn replay_records_follow_the_file_shape() {
    let stmt = ReplayStmt {
        window: "LoginWindow".to_string(),
        file: "raw.ndjson".to_string(),
        records: Some(r#"[{"user": "a", "_timestamp": 1}, {"user": "b"}]"#.to_string()),
    };
    let records = replay_records(&stmt).unwrap();
    assert_eq!(records.len(), 2);
    assert_eq!(records[0].fields, vec![("user".to_string(), "\"a\"".to_string())]);
    assert_eq!(records[0].internal_timestamp, Some("1".to_string()));
    assert_eq!(records[1].internal_timestamp, None);

    let single = replay_record(r#"{"x": 2}"#);
    assert_eq!(single.fields, vec![("x".to_string(), "2".to_string())]);

    let unloaded = ReplayStmt { records: None, ..stmt.clone() };
    let err = replay_records(&unloaded).unwrap_err();
    assert_eq!(
        err.detail,
        "replay `LoginWindow` 的值文件尚未解析；请通过 CLI（wfgen gen / lint）加载场景"
    );
    let scalar = ReplayStmt { records: Some("3".to_string()), ..stmt };
    assert!(replay_records(&scalar).unwrap_err().detail.ends_with("实际有 3"));
}
