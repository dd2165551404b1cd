use wfgen::validate::{
    inferred_entity_field, injectable_step_count, validate_wfg, FieldRefInfo, RuleInfo, SchemaInfo,
    ValidationError,
};
use wfgen::wfg_ast::{ValueSource, WfgFile};
use wfgen::wfg_file::parse_wfg;

fn make_schema(name: &str, fields: &[&str]) -> SchemaInfo {
    SchemaInfo {
        name: name.to_string(),
        fields: fields.iter().map(|f| f.to_string()).collect(),
    }
}

/// `rule NAME { events { ALIAS : W } match<sip : 1m> { on event { ALIAS | count >= 1; } } ... entity(ip, ALIAS.sip) }`
fn make_wfl(rule_name: &str, alias: &str) -> RuleInfo {
    make_wfl_match(rule_name, alias, &["sip"], None)
}

/// A single-step `match<KEYS : 1m>` rule with `entity(ip, ALIAS.FIELD)` (`sip` by default).
fn make_wfl_match(rule_name: &str, alias: &str, keys: &[&str], entity_field: Option<&str>) -> RuleInfo {
    RuleInfo {
        name: rule_name.to_string(),
        has_each: false,
        has_stats: false,
        entity_field: Some(FieldRefInfo::Qualified(
            alias.to_string(),
            entity_field.unwrap_or("sip").to_string(),
        )),
        seq_steps: None,
        on_event_steps: 1,
        key_mapping: None,
        keys: keys.iter().map(|k| FieldRefInfo::Simple(k.to_string())).collect(),
    }
}

/// `on each e -> score(1)` with `entity(ip, e.FIELD)`.
fn make_wfl_each(rule_name: &str, entity_field: &str) -> RuleInfo {
    RuleInfo {
        name: rule_name.to_string(),
        has_each: true,
        has_stats: false,
        entity_field: Some(FieldRefInfo::Qualified("e".to_string(), entity_field.to_string())),
        seq_steps: None,
        on_event_steps: 0,
        key_mapping: None,
        keys: vec![],
    }
}

fn has_code(errors: &[ValidationError], code: &str) -> bool {
    errors.iter().any(|e| e.code == code)
}

fn any_vn(errors: &[ValidationError]) -> bool {
    errors.iter().any(|e| e.code.starts_with("VN"))
}

#[test]
fn test_syntax_valid_minimal() {
    let input = r#"
use "schemas/security.wfs"
use "rules/brute_force.wfl"

#[duration=10m]
scenario brute_force_detect<seed=42> {
    background {
        stream auth_events gen 100/s
    }
    inject {
        hit<sip: 500> for brute_force_then_scan auth_events {
            use(login="failed") x 3
        }
        near_miss<sip: 200> for brute_force_then_scan auth_events {
            use(login="failed") x 2
        }
        miss<sip: 100> for brute_force_then_scan auth_events {
            use(login="success") x 1
        }
    }
}
"#;
    let wfg = parse_wfg(input).unwrap();
    let schemas = vec![make_schema("auth_events", &["sip", "login", "action"])];
    let wfl = make_wfl("brute_force_then_scan", "fail");
    let errors = validate_wfg(&wfg, &schemas, &vec![wfl], false);
    assert!(!any_vn(&errors), "unexpected VN errors: {:?}", errors);
}

#[test]
fn test_syntax_legacy_percent_is_rejected_at_parse_time() {
    let input = r#"
#[duration=10m]
scenario s<seed=1> {
    background { stream auth_events gen 100/s }
    inject {
        hit<30%> for rule_a auth_events {
            user seq {
                use(login="failed") with(3)
            }
        }
    }
}
"#;
    let err = parse_wfg(input).unwrap_err().to_string();
    assert!(err.contains("VN20"), "unexpected error: {err}");
}

#[test]
fn test_vn1_empty_background_rejected() {
    let input = r#"
#[duration=10s]
scenario s<seed=1> {
    background { }
}
"#;
    let wfg = parse_wfg(input).unwrap();
    let errors = validate_wfg(&wfg, &vec![], &vec![], false);
    assert!(has_code(&errors, "VN1"), "empty background must give VN1: {errors:?}");
}

#[test]
fn test_vn2_nonpositive_rate_rejected() {
    let input = r#"
#[duration=10s]
scenario s<seed=1> {
    background { stream LoginWindow gen 0/s }
}
"#;
    let wfg = parse_wfg(input).unwrap();
    let errors = validate_wfg(&wfg, &vec![], &vec![], false);
    assert!(has_code(&errors, "VN2"), "rate = 0 must give VN2: {errors:?}");
}

#[test]
fn test_vn29_valid_annotations_pass() {
    let input = r#"
#[duration=2m]
scenario s<seed=42> {
    background { stream auth_events gen 100/s }
}
"#;
    let wfg = parse_wfg(input).unwrap();
    let schemas = vec![make_schema("auth_events", &["sip"])];
    let errors = validate_wfg(&wfg, &schemas, &vec![], false);
    assert!(!has_code(&errors, "VN29"), "valid annotations: {errors:?}");
    assert_eq!(wfg.scenario.seed, 42);
    assert_eq!(wfg.scenario.time_clause.duration, 120_000_000_000);
}

#[test]
fn test_vn28_constant_rate_passes() {
    for decl in ["100/s", "6000/m", "360000/h"] {
        let input = format!(
            r#"
#[duration=10m]
scenario s<seed=1> {{
    background {{ stream auth_events gen {decl} }}
}}
"#
        );
        let wfg = parse_wfg(&input).unwrap();
        let schemas = vec![make_schema("auth_events", &["sip"])];
        let errors = validate_wfg(&wfg, &schemas, &vec![], false);
        assert!(!has_code(&errors, "VN28"), "{decl}: {errors:?}");
    }
}

#[test]
fn test_syntax_stream_missing_in_schema() {
    let input = r#"
#[duration=10m]
scenario s<seed=1> {
    background { stream missing_window gen 100/s }
}
"#;
    let wfg = parse_wfg(input).unwrap();
    let schemas = vec![make_schema("auth_events", &[])];
    let errors = validate_wfg(&wfg, &schemas, &vec![], false);
    assert!(has_code(&errors, "VN3"), "errors: {:?}", errors);
}

#[test]
fn test_syntax_use_step_duplicate_field_rejected() {
    let input = r#"
#[duration=10m]
scenario s<seed=1> {
    background { stream auth_events gen 100/s }
    inject {
        hit<user: 50> for rule_a auth_events {
            use(login="failed", login="success") x 1
        }
    }
}
"#;
    let wfg = parse_wfg(input).unwrap();
    let schemas = vec![make_schema("auth_events", &[])];
    let errors = validate_wfg(&wfg, &schemas, &vec![], false);
    assert!(has_code(&errors, "VN9"), "errors: {:?}", errors);
}

#[test]
fn test_syntax_injection_stream_must_be_declared_in_background() {
    let input = r#"
#[duration=10m]
scenario s<seed=1> {
    background { stream auth_events gen 100/s }
    inject {
        hit<user: 50> for rule_a typo_events {
            use(login="failed") x 1
        }
    }
}
"#;
    let wfg = parse_wfg(input).unwrap();
    let schemas = vec![
        make_schema("auth_events", &["user", "login"]),
        make_schema("typo_events", &["user", "login"]),
    ];
    let errors = validate_wfg(&wfg, &schemas, &vec![], false);
    assert!(has_code(&errors, "VN10"), "errors: {:?}", errors);
}

#[test]
fn test_syntax_injection_fields_must_exist_in_schema() {
    let input = r#"
#[duration=10m]
scenario s<seed=1> {
    background { stream auth_events gen 100/s }
    inject {
        hit<missing_user: 50> for rule_a auth_events {
            use(missing_login="failed") x 1
        }
    }
}
"#;
    let wfg = parse_wfg(input).unwrap();
    let schemas = vec![make_schema("auth_events", &["login"])];
    let errors = validate_wfg(&wfg, &schemas, &vec![], false);
    assert!(has_code(&errors, "VN11"), "errors: {:?}", errors);
}

#[test]
fn test_syntax_entity_field_must_not_be_redeclared_in_use() {
    let input = r#"
#[duration=10m]
scenario s<seed=1> {
    background { stream auth_events gen 100/s }
    inject {
        hit<user: 50> for rule_a auth_events {
            use(user="alice", login="failed") x 1
        }
    }
}
"#;
    let wfg = parse_wfg(input).unwrap();
    let schemas = vec![make_schema("auth_events", &["user", "login"])];
    let errors = validate_wfg(&wfg, &schemas, &vec![], false);
    assert!(has_code(&errors, "VN12"), "errors: {:?}", errors);
}

#[test]
fn test_syntax_non_key_field_in_use_is_allowed() {
    let input = r#"
#[duration=10m]
scenario s<seed=1> {
    background { stream bid_events gen 100/s }
    inject {
        hit<1> for q2_mod_123 bid_events {
            use(price=100, channel="G") x 1
        }
    }
}
"#;
    let wfg = parse_wfg(input).unwrap();
    let schemas = vec![make_schema("bid_events", &["auction", "price", "channel"])];
    let wfl = make_wfl_each("q2_mod_123", "auction");
    let errors = validate_wfg(&wfg, &schemas, &vec![wfl], false);
    assert!(!has_code(&errors, "VN12"), "{:?}", errors);
}

#[test]
fn test_syntax_entity_field_not_in_rule_keys_is_allowed_in_use() {
    let input = r#"
#[duration=10m]
scenario s<seed=1> {
    background { stream bid_events gen 100/s }
    inject {
        hit<1> for rule_j bid_events {
            use(auction=123, price=100) x 1
        }
    }
}
"#;
    let wfg = parse_wfg(input).unwrap();
    let schemas = vec![make_schema("bid_events", &["auction", "seller", "price"])];
    let wfl = make_wfl_match("rule_j", "b", &["seller"], Some("auction"));
    let errors = validate_wfg(&wfg, &schemas, &vec![wfl], false);
    assert!(!has_code(&errors, "VN12"), "{:?}", errors);
}

#[test]
fn test_syntax_explicit_entity_field_must_exist_in_schema() {
    let input = r#"
#[duration=10m]
scenario s<seed=1> {
    background { stream auth_events gen 100/s }
    inject {
        hit<sip: 50> for rule_a auth_events {
            use(login="failed") x 1
        }
    }
}
"#;
    let wfg = parse_wfg(input).unwrap();
    let schemas = vec![make_schema("auth_events", &["login"])];
    let wfl = make_wfl("rule_a", "a");
    let errors = validate_wfg(&wfg, &schemas, &vec![wfl], false);
    assert!(has_code(&errors, "VN22"), "errors: {:?}", errors);
    assert!(!has_code(&errors, "VN23"), "{:?}", errors);
}

#[test]
fn test_syntax_explicit_entity_field_must_match_match_key() {
    let input = r#"
#[duration=10m]
scenario s<seed=1> {
    background { stream auth_events gen 100/s }
    inject {
        hit<user: 50> for rule_a auth_events {
            use(login="failed") x 1
        }
    }
}
"#;
    let wfg = parse_wfg(input).unwrap();
    let schemas = vec![make_schema("auth_events", &["user", "sip", "login"])];
    let wfl = make_wfl("rule_a", "a");
    let errors = validate_wfg(&wfg, &schemas, &vec![wfl], false);
    assert!(has_code(&errors, "VN23"), "errors: {:?}", errors);
    assert!(!has_code(&errors, "VN22"), "{:?}", errors);
}

#[test]
fn test_syntax_explicit_entity_field_must_match_each_entity_expr() {
    let input = r#"
#[duration=10m]
scenario s<seed=1> {
    background { stream LoginWindow gen 20/s }
    inject {
        hit<username: 3> for each_alert LoginWindow {
            use(attempts=500) x 1
        }
    }
}
"#;
    let wfg = parse_wfg(input).unwrap();
    let schemas = vec![make_schema("LoginWindow", &["username", "sip", "attempts"])];
    let wfl = make_wfl_each("each_alert", "sip");
    let errors = validate_wfg(&wfg, &schemas, &vec![wfl], false);
    assert!(has_code(&errors, "VN23"), "errors: {:?}", errors);
    assert!(!has_code(&errors, "VN22"), "{:?}", errors);
}

#[test]
fn test_syntax_explicit_entity_field_allowed_on_multi_key_rule() {
    let input = r#"
#[duration=10m]
scenario s<seed=1> {
    background { stream auth_events gen 100/s }
    inject {
        hit<sip: 20> for rule_a auth_events {
            use(login="failed") x 1
        }
    }
}
"#;
    let wfg = parse_wfg(input).unwrap();
    let schemas = vec![make_schema("auth_events", &["sip", "dport", "login"])];
    let wfl = make_wfl_match("rule_a", "a", &["sip", "dport"], None);
    let errors = validate_wfg(&wfg, &schemas, &vec![wfl], false);
    assert!(!has_code(&errors, "VN22") && !has_code(&errors, "VN23"), "{:?}", errors);
}

#[test]
fn test_syntax_use_groups_must_not_exceed_rule_steps() {
    let input = r#"
#[duration=10m]
scenario s<seed=1> {
    background { stream auth_events gen 100/s }
    inject {
        hit<sip: 5> for rule_a auth_events {
            use(login="failed") x 1
            use(login="failed") x 1
        }
    }
}
"#;
    let wfg = parse_wfg(input).unwrap();
    let schemas = vec![make_schema("auth_events", &["sip", "login"])];
    let wfl = make_wfl("rule_a", "a");
    let errors = validate_wfg(&wfg, &schemas, &vec![wfl], false);
    assert!(has_code(&errors, "VN24"), "errors: {:?}", errors);
}

/// A `for probe_rule` scenario with the given number of `use` groups: whether VN24 is reported.
fn vn24_probe(schemas: &Vec<SchemaInfo>, rule: &RuleInfo, groups: usize) -> bool {
    let win = schemas[0].name.as_str();
    let groups_src: String = (0..groups)
        .map(|i| format!("            use(retry={i}) x 1\n"))
        .collect();
    let wfg_src = format!(
        "#[duration=10m]\nscenario s<seed=1> {{\n    background {{ stream {win} gen 100/s }}\n    inject {{\n        hit<sip: 5> for probe_rule {win} {{\n{groups_src}        }}\n    }}\n}}\n"
    );
    let wfg = parse_wfg(&wfg_src).unwrap();
    let errors = validate_wfg(&wfg, schemas, &vec![rule.clone()], false);
    has_code(&errors, "VN24")
}

#[test]
fn vn24_step_count_matches_compiled_event_steps() {
    let single = make_wfl("probe_rule", "a");
    let mut three = make_wfl("probe_rule", "a");
    three.on_event_steps = 3;
    // `on event seq { has a; not has a; has a within 10m; }`: the negated step is not counted.
    let mut chain = make_wfl("probe_rule", "a");
    chain.seq_steps = Some(vec![false, true, false]);
    let each = make_wfl_each("probe_rule", "sip");
    let cases: Vec<(&str, RuleInfo, usize)> = vec![
        ("match, one step", single, 1),
        ("match, three steps", three, 3),
        ("seq chain with a negated step", chain, 2),
        ("on each", each, 1),
    ];
    for (name, rule, step_count) in cases {
        let schemas = vec![
            make_schema("auth_events", &["sip", "retry", "login"]),
            make_schema("alerts", &[]),
        ];
        assert_eq!(injectable_step_count(&rule), step_count as u64, "{name}");
        assert!(!vn24_probe(&schemas, &rule, step_count), "{name}: {step_count} groups");
        assert!(vn24_probe(&schemas, &rule, step_count + 1), "{name}: {} groups", step_count + 1);
    }
}

#[test]
fn test_syntax_injection_multi_rule_cases_are_allowed() {
    let input = r#"
#[duration=10m]
scenario s<seed=1> {
    background { stream auth_events gen 100/s }
    inject {
        hit<user: 50> for rule_a auth_events {
            use(login="failed") x 1
        }
        hit<user: 20> for rule_b auth_events {
            use(login="failed") x 1
        }
    }
}
"#;
    let wfg = parse_wfg(input).unwrap();
    let schemas = vec![make_schema("auth_events", &["login", "sip"])];
    let rules = vec![make_wfl("rule_a", "a"), make_wfl("rule_b", "b")];
    let errors = validate_wfg(&wfg, &schemas, &rules, false);
    assert!(!has_code(&errors, "VN14"), "errors: {:?}", errors);
}

#[test]
fn test_syntax_injection_target_rule_must_exist() {
    let input = r#"
#[duration=10m]
scenario s<seed=1> {
    background { stream auth_events gen 100/s }
    inject {
        hit<user: 50> for missing_rule auth_events {
            use(login="failed") x 1
        }
    }
}
"#;
    let wfg = parse_wfg(input).unwrap();
    let schemas = vec![make_schema("auth_events", &["login", "sip"])];
    let errors = validate_wfg(&wfg, &schemas, &vec![], false);
    assert!(has_code(&errors, "VN14"), "errors: {:?}", errors);
}

#[test]
fn test_syntax_spread_over_duration_rejected() {
    for (spread, expect_vn25) in [("20m", true), ("10m", false)] {
        let input = format!(
            r#"
#[duration=10m]
scenario spread_case<seed=1> {{
    background {{ stream auth_events gen 100/s }}
    inject {{
        hit<user: 5> for rule_a auth_events {{
            use(login="failed") x 1
            spread {spread}
        }}
    }}
}}
"#
        );
        let wfg = parse_wfg(&input).unwrap();
        let schemas = vec![make_schema("auth_events", &["login", "sip"])];
        let errors = validate_wfg(&wfg, &schemas, &vec![], false);
        assert_eq!(has_code(&errors, "VN25"), expect_vn25, "spread {spread}: {:?}", errors);
    }
}

#[test]
fn test_syntax_explicit_counts_valid() {
    let input = r#"
#[duration=10m]
scenario explicit_ok<seed=1> {
    background { stream auth_events gen 100/s }
    inject {
        hit<500> for brute_force_then_scan auth_events {
            use(login="failed") x 12
        }
    }
}
"#;
    let wfg = parse_wfg(input).unwrap();
    let schemas = vec![make_schema("auth_events", &["sip", "login", "action"])];
    let wfl = make_wfl("brute_force_then_scan", "fail");
    let errors = validate_wfg(&wfg, &schemas, &vec![wfl], false);
    assert!(!any_vn(&errors), "unexpected VN errors: {:?}", errors);
}

#[test]
fn test_syntax_explicit_zero_counts_rejected() {
    for (snippet, expect) in [
        (
            "hit<0> for brute_force_then_scan auth_events { use(login=\"failed\") x 1 }",
            "实体个数必须大于 0",
        ),
        (
            "hit<5> for brute_force_then_scan auth_events { use(login=\"failed\") x 0 }",
            "x 0",
        ),
    ] {
        let input = format!(
            r#"
#[duration=10m]
scenario zero_count<seed=1> {{
    background {{ stream auth_events gen 100/s }}
    inject {{ {snippet} }}
}}
"#
        );
        let wfg = parse_wfg(&input).unwrap();
        let schemas = vec![make_schema("auth_events", &["sip", "login", "action"])];
        let wfl = make_wfl("brute_force_then_scan", "fail");
        let errors = validate_wfg(&wfg, &schemas, &vec![wfl], false);
        assert!(
            errors.iter().any(|e| e.code == "VN21" && e.message.contains(expect)),
            "expected VN21 with {expect:?}: {:?}",
            errors
        );
    }
}

#[test]
fn test_syntax_empty_groups_rejected() {
    let input = r#"
#[duration=10m]
scenario empty_groups<seed=1> {
    background { stream auth_events gen 100/s }
    inject {
        hit<5> for rule_a auth_events { }
    }
}
"#;
    let wfg = parse_wfg(input).unwrap();
    let schemas = vec![make_schema("auth_events", &[])];
    let errors = validate_wfg(&wfg, &schemas, &vec![], false);
    assert!(
        errors.iter().any(|e| e.code == "VN21" && e.message.contains("至少需要一个")),
        "errors: {:?}",
        errors
    );
}

#[test]
fn test_syntax_target_rule_check_skipped_when_skip_wfl() {
    let input = r#"
#[duration=10m]
scenario s<seed=1> {
    background { stream auth_events gen 100/s }
    inject {
        hit<user: 5> for missing_rule auth_events {
            use(login="failed") x 1
        }
    }
}
"#;
    let wfg = parse_wfg(input).unwrap();
    let schemas = vec![make_schema("auth_events", &["login", "sip"])];
    let errs_normal = validate_wfg(&wfg, &schemas, &vec![], false);
    assert!(has_code(&errs_normal, "VN14"), "{:?}", errs_normal);
    let errs_skipped = validate_wfg(&wfg, &schemas, &vec![], true);
    assert!(!has_code(&errs_skipped, "VN14"), "{:?}", errs_skipped);
}

/// One injection case whose value source is replaced by the given JSON text
/// (what `use from` becomes once the file is loaded).
fn wfg_with_inject_json(json: &str) -> WfgFile {
    let input = r#"
#[duration=10m]
scenario s<seed=1> {
    background { stream auth_events gen 100/s }
    inject {
        hit<login: 2> for rule_a auth_events {
            use(login="failed") x 3
        }
    }
}
"#;
    let mut wfg = parse_wfg(input).unwrap();
    let group = &mut wfg
        .syntax
        .as_mut()
        .and_then(|syntax| syntax.injection.as_mut())
        .expect("injection block")
        .cases[0]
        .groups[0];
    group.source = ValueSource::Json(json.to_string());
    wfg
}

#[test]
fn test_use_records_array_is_accepted() {
    let wfg = wfg_with_inject_json(r#"[{"action": "failed"}, {"action": "failed"}]"#);
    let schemas = vec![make_schema("auth_events", &["action", "login"])];
    let errors = validate_wfg(&wfg, &schemas, &vec![], true);
    assert!(!any_vn(&errors), "{:?}", errors);
}

#[test]
fn test_use_records_repeating_a_field_is_not_vn9() {
    let wfg = wfg_with_inject_json(
        r#"[{"action": "a", "sip": "10.0.0.1"}, {"action": "a", "sip": "10.0.0.2"}, {"action": "a", "sip": "10.0.0.3"}]"#,
    );
    let schemas = vec![make_schema("auth_events", &["action", "sip"])];
    let errors = validate_wfg(&wfg, &schemas, &vec![], true);
    assert!(!has_code(&errors, "VN9"), "{:?}", errors);
}

#[test]
fn test_use_records_field_outside_schema_is_vn11() {
    let wfg = wfg_with_inject_json(r#"[{"action": "failed"}, {"action": "failed", "nope": 1}]"#);
    let schemas = vec![make_schema("auth_events", &["action"])];
    let errors = validate_wfg(&wfg, &schemas, &vec![], true);
    assert!(has_code(&errors, "VN11"), "{:?}", errors);
}

#[test]
fn test_use_records_shape_errors_are_vn17() {
    let schemas = vec![make_schema("auth_events", &["action"])];
    for json in [r#"[{"action": "failed"}, "oops"]"#, "[]", "42"] {
        let wfg = wfg_with_inject_json(json);
        let errors = validate_wfg(&wfg, &schemas, &vec![], true);
        assert!(has_code(&errors, "VN17"), "json={json}: {:?}", errors);
    }
}

/// One `use` group and the given `without` clauses; the errors as `CODE: message`.
fn without_probe(schemas: &Vec<SchemaInfo>, rules: &Vec<RuleInfo>, withouts: &str) -> Vec<String> {
    let src = format!(
        "#[duration=10m]\nscenario s<seed=1> {{\n    background {{ stream auth_events gen 100/s }}\n    inject {{\n        hit<user: 5> for probe_rule auth_events {{\n            use(login=\"failed\") x 1\n{withouts}        }}\n    }}\n}}\n"
    );
    let wfg = parse_wfg(&src).unwrap();
    validate_wfg(&wfg, schemas, rules, false)
        .into_iter()
        .map(|e| format!("{}: {}", e.code, e.message))
        .collect()
}

#[test]
fn test_syntax_without_within_over_duration_rejected() {
    let schemas = vec![make_schema("auth_events", &["user", "action"])];
    for (within, expect_vn25) in [("20m", true), ("10m", false)] {
        let errors = without_probe(
            &schemas,
            &vec![],
            &format!("            without(action=\"scan\") within {within}\n"),
        );
        assert_eq!(errors.iter().any(|e| e.starts_with("VN25")), expect_vn25, "{within}: {errors:?}");
    }
}

#[test]
fn test_syntax_without_field_outside_schema_is_vn11() {
    let schemas = vec![make_schema("auth_events", &["user", "action"])];
    let errors = without_probe(&schemas, &vec![], "            without(nope=\"x\")\n");
    assert!(
        errors.iter().any(|e| e.starts_with("VN11") && e.contains("nope")),
        "errors: {errors:?}"
    );
}

#[test]
fn test_syntax_without_duplicate_and_entity_field_rejected() {
    let schemas = vec![make_schema("auth_events", &["user", "action"])];
    let errors = without_probe(
        &schemas,
        &vec![],
        "            without(action=\"a\", action=\"b\", user=\"u\")\n",
    );
    assert!(errors.iter().any(|e| e.starts_with("VN9")), "{errors:?}");
    assert!(errors.iter().any(|e| e.starts_with("VN12")), "{errors:?}");
}

#[test]
fn test_syntax_without_not_counted_toward_rule_steps() {
    let schemas = vec![make_schema("auth_events", &["sip", "login"]), make_schema("alerts", &[])];
    let wfl = make_wfl("probe_rule", "a");
    let src = "#[duration=10m]\nscenario s<seed=1> {\n    background { stream auth_events gen 100/s }\n    inject {\n        hit<sip: 5> for probe_rule auth_events {\n            use(login=\"failed\") x 1\n            without(login=\"ok\")\n            without(login=\"ok2\")\n            without(login=\"ok3\")\n        }\n    }\n}\n";
    let wfg = parse_wfg(src).unwrap();
    let errors = validate_wfg(&wfg, &schemas, &vec![wfl], false);
    assert!(!has_code(&errors, "VN24"), "{:?}", errors);
}

// ---------------------------------------------------------------------------
// Exact messages, order and the rule shape helpers
// ---------------------------------------------------------------------------

#[test]
fn background_errors_come_in_stream_order_with_exact_messages() {
    let input = r#"
#[duration=10s]
scenario s<seed=1> {
    background {
        stream a_events gen 0/s
        stream b_events gen 5/s
    }
}
"#;
    let wfg = parse_wfg(input).unwrap();
    let errors = validate_wfg(&wfg, &vec![make_schema("b_events", &[])], &vec![], false);
    let rendered: Vec<String> = errors.iter().map(|e| e.to_string()).collect();
    assert_eq!(
        rendered,
        vec![
            "[VN2] stream 'a_events': rate must be greater than 0".to_string(),
            "[VN3] stream 'a_events' not found in loaded schemas (.wfs windows)".to_string(),
        ]
    );
}

#[test]
fn missing_rule_message_names_stream_and_rule() {
    let input = r#"
#[duration=10m]
scenario s<seed=1> {
    background { stream auth_events gen 100/s }
    inject {
        hit<5> for nope auth_events { use(login="x") x 1 }
    }
}
"#;
    let wfg = parse_wfg(input).unwrap();
    let errors = validate_wfg(&wfg, &vec![make_schema("auth_events", &["login"])], &vec![], false);
    assert_eq!(errors.len(), 1);
    assert_eq!(errors[0].code, "VN14");
    assert_eq!(
        errors[0].message,
        "injection case 'auth_events' targets rule 'nope' not found in WFL files"
    );
}

#[test]
fn inferred_entity_field_follows_rule_shape() {
    assert_eq!(inferred_entity_field(&make_wfl("r", "a")), Some("sip".to_string()));
    assert_eq!(inferred_entity_field(&make_wfl_match("r", "a", &["sip", "dport"], None)), None);
    assert_eq!(inferred_entity_field(&make_wfl_each("r", "user")), Some("user".to_string()));
    let mut mapped = make_wfl_match("r", "a", &["sip", "dport"], None);
    mapped.key_mapping = Some(vec![FieldRefInfo::Bracketed("a".to_string(), "src".to_string())]);
    assert_eq!(inferred_entity_field(&mapped), Some("src".to_string()));
    let mut stats = make_wfl("r", "a");
    stats.has_stats = true;
    assert_eq!(injectable_step_count(&stats), 0);
}

#[test]
fn skip_wfl_errors_do_not_depend_on_the_rules() {
    let input = r#"
#[duration=10m]
scenario s<seed=1> {
    background { stream auth_events gen 100/s }
    inject {
        hit<user: 5> for rule_a auth_events {
            use(login="failed") x 1
            use(login="failed") x 1
        }
    }
}
"#;
    let wfg = parse_wfg(input).unwrap();
    let schemas = vec![make_schema("auth_events", &["sip", "login"])];
    let with_rules = validate_wfg(&wfg, &schemas, &vec![make_wfl("rule_a", "a")], true);
    let without_rules = validate_wfg(&wfg, &schemas, &vec![], true);
    assert_eq!(with_rules, without_rules);
    // With the rules pipeline on, the same rule gives VN23 and VN24.
    let checked = validate_wfg(&wfg, &schemas, &vec![make_wfl("rule_a", "a")], false);
    assert!(has_code(&checked, "VN23") && has_code(&checked, "VN24"), "{checked:?}");
}
