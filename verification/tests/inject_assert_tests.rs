use wfgen::error::{WfgenError, WfgenReason};
use wfgen::inject_assert::{
    append_more, assert_inject_modes, missing_reason, mode_name, InjectEntityKey, InjectStepCount,
    MAX_EXAMPLES,
};
use wfgen::verify::OracleAlert;
use wfgen::wfg_ast::InjectCaseMode;

fn detail_of(err: &WfgenError) -> String {
    err.detail.clone()
}

/// An entity whose field value is already rendered as the oracle renders entity ids.
fn entity(rule: &str, mode: InjectCaseMode, index: u64, entity_id: &str) -> InjectEntityKey {
    InjectEntityKey {
        rule: rule.to_string(),
        mode,
        index,
        field: "sip".to_string(),
        entity_id: entity_id.to_string(),
        steps: vec![InjectStepCount {
            bind_alias: "fail".to_string(),
            count: 3,
            threshold: 3,
        }],
    }
}

fn alert(rule: &str, entity_id: &str, origin: &str) -> OracleAlert {
    OracleAlert {
        rule_name: rule.to_string(),
        score: 70_000_000,
        entity_type: "ip".to_string(),
        entity_id: entity_id.to_string(),
        origin: origin.to_string(),
        emit_time: "2024-01-01T00:00:00+00:00".to_string(),
        fields: Vec::new(),
        intermediate: false,
    }
}

#[test]
fn all_modes_satisfied_passes() {
    let entities = vec![
        entity("r", InjectCaseMode::Hit, 1, "10.0.0.1"),
        // `5.0` is rendered as the oracle renders it: `5`.
        entity("r", InjectCaseMode::Hit, 2, "5"),
        entity("r", InjectCaseMode::NearMiss, 1, "10.0.0.9"),
        entity("r", InjectCaseMode::Miss, 1, "10.0.0.8"),
    ];
    let alerts = vec![alert("r", "10.0.0.1", "event"), alert("r", "5", "close:eos")];
    assert_eq!(assert_inject_modes(&entities, &alerts).unwrap(), 4);
}

#[test]
fn no_entities_passes() {
    assert_eq!(
        assert_inject_modes(&vec![], &vec![alert("r", "10.0.0.1", "event")]).unwrap(),
        0
    );
}

#[test]
fn hit_without_alert_reports_inj1() {
    let entities = vec![entity("r", InjectCaseMode::Hit, 7, "10.0.0.6")];
    let err = assert_inject_modes(&entities, &vec![]).unwrap_err();
    let detail = detail_of(&err);
    assert!(detail.contains("INJ1: 1 hit"), "got: {detail}");
    assert!(detail.contains("第 7 个实体（sip=10.0.0.6）"), "got: {detail}");
    assert!(detail.contains("fail 3/3"), "got: {detail}");
}

#[test]
fn inj1_reason_names_unmet_bind() {
    let mut e = entity("r", InjectCaseMode::Hit, 1, "1");
    e.steps = vec![InjectStepCount {
        bind_alias: "scan".to_string(),
        count: 2,
        threshold: 5,
    }];
    let err = assert_inject_modes(&vec![e], &vec![]).unwrap_err();
    assert!(
        detail_of(&err).contains("scan 2/5（scan 未达阈值）"),
        "got: {}",
        detail_of(&err)
    );
}

#[test]
fn near_miss_with_alert_reports_inj2() {
    let entities = vec![entity("data_exfil", InjectCaseMode::NearMiss, 3, "10.0.0.2")];
    let alerts = vec![alert("data_exfil", "10.0.0.2", "close:timeout")];
    let err = assert_inject_modes(&entities, &alerts).unwrap_err();
    let detail = detail_of(&err);
    assert!(detail.contains("INJ2: 1 near_miss/miss"), "got: {detail}");
    assert!(detail.contains("near_miss 用例第 3 个实体（sip=10.0.0.2）"), "got: {detail}");
    assert!(detail.contains("命中 close:timeout 路径"), "got: {detail}");
}

#[test]
fn alerts_are_scoped_per_rule() {
    let entities = vec![entity("r_a", InjectCaseMode::NearMiss, 1, "10.0.0.5")];
    let alerts = vec![alert("r_b", "10.0.0.5", "event")];
    assert_eq!(assert_inject_modes(&entities, &alerts).unwrap(), 1);
}

#[test]
fn failures_are_capped_with_total() {
    let entities: Vec<InjectEntityKey> = (0..50u64)
        .map(|i| entity("r", InjectCaseMode::Hit, i + 1, &i.to_string()))
        .collect();
    let err = assert_inject_modes(&entities, &vec![]).unwrap_err();
    let detail = detail_of(&err);
    assert!(detail.contains("INJ1: 50 hit"), "got: {detail}");
    assert_eq!(detail.matches("不会触发规则").count(), MAX_EXAMPLES);
    assert!(detail.contains("…同码合计 50 个实体"), "got: {detail}");
}

#[test]
fn assertion_failure_is_a_generation_error() {
    let err = assert_inject_modes(&vec![entity("r", InjectCaseMode::Hit, 1, "x")], &vec![]).unwrap_err();
    assert_eq!(err.reason, WfgenReason::Generation);
    assert!(err.detail.starts_with("injection mode assertion failed"));
}

#[test]
fn hit_and_spurious_failures_are_reported_together() {
    let entities = vec![
        entity("r", InjectCaseMode::Hit, 1, "a"),
        entity("r", InjectCaseMode::Miss, 2, "b"),
    ];
    let err = assert_inject_modes(&entities, &vec![alert("r", "b", "event")]).unwrap_err();
    assert!(err.detail.contains("INJ1: 1 hit"));
    assert!(err.detail.contains("INJ2: 1 near_miss/miss"));
    assert!(err.detail.contains("miss 用例第 2 个实体（sip=b）"));
}

#[test]
fn mode_names_and_reasons() {
    assert_eq!(mode_name(InjectCaseMode::Hit), "hit");
    assert_eq!(mode_name(InjectCaseMode::NearMiss), "near_miss");
    assert_eq!(mode_name(InjectCaseMode::Miss), "miss");
    let steps = vec![InjectStepCount {
        bind_alias: "fail".to_string(),
        count: 1,
        threshold: 2,
    }];
    assert!(missing_reason(&steps).contains("fail 1/2（fail 未达阈值）"));
    let mut s = String::new();
    append_more(&mut s, MAX_EXAMPLES);
    assert_eq!(s, "");
    append_more(&mut s, 9);
    assert!(s.contains("…同码合计 9 个实体"));
}
