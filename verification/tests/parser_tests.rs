use wfgen::json_text::json_top_level_entries;
use wfgen::wfg_ast::{AttrValue, InjectCase, InjectCaseMode, RateExpr, ValueSource};
use wfgen::wfg_file::{override_duration, parse_wfg};

const NS_PER_SEC: u64 = 1_000_000_000;

fn json(text: &str) -> serde_json::Value {
    serde_json::from_str(text).unwrap()
}

#[test]
fn test_parse_minimal_syntax_scenario() {
    let input = r#"
#[duration=10m]
scenario brute_force_detect<seed=42> {
  background {
    stream auth_events gen 100/s
  }
}
"#;

    let wfg = parse_wfg(input).unwrap();
    assert_eq!(wfg.scenario.name, "brute_force_detect");
    assert_eq!(wfg.scenario.seed, 42);
    assert!(wfg.syntax.is_some());
    let syntax = wfg.syntax.as_ref().unwrap();
    assert_eq!(syntax.background.streams.len(), 1);
    assert_eq!(syntax.background.streams[0].stream, "auth_events");
    assert!(matches!(syntax.background.streams[0].rate, RateExpr::Constant(_)));
}

#[test]
fn test_parse_use_declarations() {
    let input = r#"
use "../schemas/security.wfs"
use "../rules/brute_force.wfl"

#[duration=10m]
scenario s<seed=1> {
  background { stream auth_events gen 50/s }
}
"#;
    let wfg = parse_wfg(input).unwrap();
    assert_eq!(wfg.uses.len(), 2);
    assert_eq!(wfg.uses[0].path, "../schemas/security.wfs");
    assert_eq!(wfg.uses[1].path, "../rules/brute_force.wfl");
}

#[test]
fn test_parse_rate_expressions_wave_burst_timeline() {
    let input = r#"
#[duration=10m]
scenario rates<seed=2> {
  background {
    stream s1 gen wave(base=80/s, amp=20/s, period=2m, shape=triangle)
    stream s2 gen burst(base=40/s, peak=300/s, every=3m, hold=20s)
    stream s3 gen timeline {
      0m..2m=20/s
      2m..4m=60/s
    }
  }
}
"#;
    let wfg = parse_wfg(input).unwrap();
    let t = &wfg.syntax.as_ref().unwrap().background.streams;
    assert!(matches!(t[0].rate, RateExpr::Wave { .. }));
    assert!(matches!(t[1].rate, RateExpr::Burst { .. }));
    assert!(matches!(t[2].rate, RateExpr::Timeline(_)));
}

#[test]
fn test_parse_entity_distribution() {
    let input = r#"
#[duration=10s]
scenario dist<seed=7> {
    background {
        stream LoginWindow gen 400/s
        entity LoginWindow.src_ip zipf(pool=8, exponent=1.5, fresh=0.2)
    }
}
"#;
    let wfg = parse_wfg(input).unwrap();
    let block = &wfg.syntax.as_ref().unwrap().background;
    assert_eq!(block.streams.len(), 1, "分布声明不占 stream");
    assert_eq!(block.entities.len(), 1);
    let dist = &block.entities[0];
    assert_eq!(dist.window, "LoginWindow");
    assert_eq!(dist.field, "src_ip");
    assert_eq!(dist.pool, 8);
    assert!((dist.exponent.parse::<f64>().unwrap() - 1.5).abs() < 1e-9);
    assert!((dist.fresh.parse::<f64>().unwrap() - 0.2).abs() < 1e-9);

    let input = r#"
#[duration=10s]
scenario dist<seed=7> {
    background {
        stream LoginWindow gen 10/s
        entity LoginWindow.src_ip zipf(pool=4)
    }
}
"#;
    let wfg = parse_wfg(input).unwrap();
    let dist = &wfg.syntax.as_ref().unwrap().background.entities[0];
    assert_eq!(dist.pool, 4);
    assert!((dist.exponent.parse::<f64>().unwrap() - 1.0).abs() < 1e-9);
    assert!(dist.fresh.parse::<f64>().unwrap().abs() < 1e-9);

    let bad = r#"
#[duration=10s]
scenario dist<seed=7> {
    background {
        stream LoginWindow gen 10/s
        entity LoginWindow.src_ip zipf(exponent=1.5)
    }
}
"#;
    assert!(parse_wfg(bad).is_err(), "缺 pool 应报错");
}

#[test]
fn test_parse_join_block() {
    let input = r#"
#[duration=10s]
scenario cross<seed=3> {
    background { stream person_events gen 5/s }
    inject {
        hit<id: 4> for person_creates_auction person_events {
            use(name="p") x 1
            join auction_events as seller {
                use(price=42) x 2
                then use(price=7) x 1
            }
        }
    }
}
"#;
    let case = wfg_case(input);
    assert_eq!(case.groups.len(), 1, "join 块不占事件步骤位");
    assert_eq!(case.joins.len(), 1);
    let join = &case.joins[0];
    assert_eq!(join.window, "auction_events");
    assert_eq!(join.key_field, "seller");
    assert_eq!(join.groups.len(), 2);
    assert_eq!(join.groups[0].count, 2);
    assert_eq!(join.groups[1].count, 1);
}

#[test]
fn test_parse_injection_extensions() {
    let input = r#"
#[duration=30m]
scenario brute_force_detect<seed=7> {
  background {
    stream auth_events gen 200/s
  }

  inject {
    hit<user: 500> for brute_force_then_scan auth_events {
      use(login="failed") x 3
      then use(action="port_scan") x 1
    }
    near_miss<user: 200> for brute_force_then_scan auth_events {
      use(login="failed") x 2
    }
    miss<user: 100> for brute_force_then_scan auth_events {
      use(login="success") x 1
    }
  }
}
"#;

    let wfg = parse_wfg(input).unwrap();
    let syntax = wfg.syntax.as_ref().unwrap();
    let inj = syntax.injection.as_ref().unwrap();
    assert_eq!(inj.cases.len(), 3);
    assert_eq!(inj.cases[0].mode, InjectCaseMode::Hit);
    assert_eq!(inj.cases[1].mode, InjectCaseMode::NearMiss);
    assert_eq!(inj.cases[2].mode, InjectCaseMode::Miss);

    let hit = &inj.cases[0];
    assert_eq!(hit.target_rule, "brute_force_then_scan");
    assert_eq!(hit.stream, "auth_events");
    assert_eq!(hit.entity_field.as_deref(), Some("user"));
    assert_eq!(hit.entity_count, 500);
    assert_eq!(hit.groups.len(), 2);
    assert_eq!(hit.groups[0].count, 3);
    assert_eq!(hit.groups[1].count, 1);
    assert!(matches!(hit.groups[0].source, ValueSource::Predicates(_)));
    assert_eq!(hit.spread, None);
}

#[test]
fn test_parse_then_requires_event_group() {
    let input = r#"
#[duration=10m]
scenario invalid_then<seed=1> {
  background { stream auth_events gen 100/s }
  inject {
    near_miss<user: 10> for rule_a auth_events {
      use(login="failed") x 1
      then 42
    }
  }
}
"#;

    let err = parse_wfg(input).unwrap_err().to_string();
    assert!(err.contains("event group"), "unexpected parse error: {err}");
}

#[test]
fn test_legacy_not_step_is_rejected_with_without_hint() {
    let input = r#"
#[duration=10m]
scenario invalid_then_not<seed=1> {
  background { stream auth_events gen 100/s }
  inject {
    near_miss<user: 10> for rule_a auth_events {
      use(login="failed") x 1
      then not(action="port_scan") within(1m)
    }
  }
}
"#;

    let err = parse_wfg(input).unwrap_err().to_string();
    assert!(err.contains("VN20"), "unexpected parse error: {err}");
    assert!(err.contains("without"), "错误信息应指明新写法 `without(...)`: {err}");
}

#[test]
fn test_parse_injection_case_target_rule() {
    let input = r#"
#[duration=10m]
scenario targeted<seed=1> {
  background { stream auth_events gen 100/s }
  inject {
    hit<user: 30> for brute_force auth_events {
      use(login="failed") x 3
    }
  }
}
"#;

    let case = wfg_case(input);
    assert_eq!(case.target_rule, "brute_force");
    assert_eq!(case.stream, "auth_events");
}

#[test]
fn test_parse_comments_and_optional_semicolon() {
    let input = r#"
// header
#[duration=10m]
scenario s<seed=1> {
  background {
    stream auth_events gen 100/s; // optional semicolon
  }
}
"#;
    let wfg = parse_wfg(input).unwrap();
    assert_eq!(wfg.scenario.name, "s");
}

#[test]
fn test_legacy_syntax_rejected() {
    let input = r#"
scenario legacy seed 1 {
  time "2024-01-01T00:00:00Z" duration 1h
  total 100
  stream s1 : W 10/s
}
"#;
    assert!(parse_wfg(input).is_err());
}

#[test]
fn test_parse_use_whole_json_inline() {
    let input = r#"
#[duration=1s]
scenario obj_inline<seed=1> {
  background { stream sdm_event gen 100/s }
  inject {
    hit<sip: 5> for sdm_rule sdm_event {
      use({
        "tenant_id": "tenant02",
        "source_finding_obj": {
          "title": "自定义威胁情报",
          "rule": { "label": "账号攻击" }
        },
        "tags": ["a", "b"],
        "unmapped": null,
        "_stream": "ignored"
      }) x 2
    }
  }
}
"#;
    let case = wfg_case(input);
    let ValueSource::Json(text) = &case.groups[0].source else {
        panic!("应为 ValueSource::Json，实际 {:?}", case.groups[0].source);
    };
    assert_eq!(case.groups[0].count, 2);

    let entries = json_top_level_entries(text).expect("顶层应为 object");
    let keys: Vec<&str> = entries.iter().map(|(k, _)| k.as_str()).collect();
    assert_eq!(keys.len(), 4, "实际: {keys:?}");
    assert!(!keys.contains(&"_stream"));

    let by_key = |k: &str| entries.iter().find(|(n, _)| n == k).map(|(_, v)| json(v));
    assert_eq!(
        by_key("source_finding_obj").and_then(|v| v.pointer("/rule/label").cloned()),
        Some(json("\"账号攻击\""))
    );
    assert_eq!(by_key("tags"), Some(json(r#"["a", "b"]"#)));
    assert_eq!(by_key("unmapped"), Some(serde_json::Value::Null));
}

#[test]
fn test_parse_use_allows_newline_after_paren() {
    let input = r#"
#[duration=1s]
scenario multi_line<seed=1> {
  background { stream sdm_event gen 100/s }
  inject {
    hit<sip: 1> for sdm_rule sdm_event {
      use(
        tenant_id="tenant02",
        event_id="evt-1"
      ) x 1
    }
  }
}
"#;
    let case = wfg_case(input);
    let ValueSource::Predicates(predicates) = &case.groups[0].source else {
        panic!("应为 Predicates");
    };
    assert_eq!(case.groups[0].count, 1);
    assert_eq!(predicates.len(), 2);
}

#[test]
fn test_parse_predicate_structured_values() {
    let input = r#"
#[duration=1s]
scenario structured<seed=1> {
  background { stream sdm_event gen 100/s }
  inject {
    hit<sip: 1> for sdm_rule sdm_event {
      use(
        obj={"k": {"n": 1}},
        arr=[1, 2, 3],
        none=null
      ) x 1
    }
  }
}
"#;
    let case = wfg_case(input);
    let ValueSource::Predicates(predicates) = &case.groups[0].source else {
        panic!("应为 Predicates");
    };
    let value_of = |name: &str| {
        predicates.iter().find(|p| p.field == name).map(|p| match &p.value {
            AttrValue::Json(t) => json(t),
            other => panic!("应为 AttrValue::Json，实际 {other:?}"),
        })
    };
    assert_eq!(value_of("obj"), Some(json(r#"{"k": {"n": 1}}"#)));
    assert_eq!(value_of("arr"), Some(json("[1, 2, 3]")));
    assert_eq!(value_of("none"), Some(serde_json::Value::Null));
}

#[test]
fn test_reject_use_json_array_toplevel() {
    let input = r#"
#[duration=1s]
scenario arr<seed=1> {
  background { stream sdm_event gen 100/s }
  inject {
    hit<sip: 1> for sdm_rule sdm_event { use([1, 2]) x 1 }
  }
}
"#;
    assert!(parse_wfg(input).is_err());
}

#[test]
fn test_parse_spread_and_use_from_file() {
    let input = r#"
#[duration=10m]
scenario spread_from<seed=1> {
  background { stream sdm_event gen 100/s }
  inject {
    hit<sip: 20> for sdm_rule sdm_event {
      use from "raw/big.ndjson" x 3
      spread 5m
    }
  }
}
"#;
    let case = wfg_case(input);
    assert_eq!(case.groups[0].count, 3);
    assert_eq!(case.groups[0].source, ValueSource::File("raw/big.ndjson".to_string()));
    assert_eq!(case.spread, Some(300 * NS_PER_SEC));
}

#[test]
fn test_inject_block_keyword_is_accepted() {
    let input = r#"
#[duration=10m]
scenario inject_keyword<seed=1> {
  background { stream auth_events gen 100/s }
  inject {
    hit<sip: 3> for rule_a auth_events {
      use(action="failed") x 2
    }
  }
}
"#;

    let wfg = parse_wfg(input).expect("`inject` 块应被接受");
    let cases = &wfg
        .syntax
        .as_ref()
        .and_then(|syntax| syntax.injection.as_ref())
        .expect("injection block")
        .cases;
    assert_eq!(cases.len(), 1);
}

#[test]
fn test_legacy_traffic_keyword_is_rejected_with_vn20() {
    let input = r#"
#[duration=10m]
scenario legacy_traffic<seed=1> {
  traffic { stream auth_events gen 100/s }
}
"#;

    let err = parse_wfg(input).unwrap_err().to_string();
    assert!(err.contains("VN20"), "unexpected parse error: {err}");
    assert!(err.contains("`background`"), "错误信息应指明新关键字: {err}");
}

#[test]
fn test_legacy_injection_keyword_is_rejected_with_vn20() {
    let input = r#"
#[duration=10m]
scenario legacy_keyword<seed=1> {
  background { stream auth_events gen 100/s }
  injection {
    hit<sip: 3> for rule_a auth_events {
      use(action="failed") x 2
    }
  }
}
"#;

    let err = parse_wfg(input).unwrap_err().to_string();
    assert!(err.contains("VN20"), "unexpected parse error: {err}");
    assert!(err.contains("`inject`"), "错误信息应指明新关键字: {err}");
}

#[test]
fn test_legacy_percent_form_is_rejected_with_vn20() {
    let input = r#"
#[duration=10m]
scenario legacy_percent<seed=1> {
  background { stream auth_events gen 100/s }
  inject {
    hit<20%> auth_events {
      user seq {
        use(login="failed") with(3)
      }
    }
  }
}
"#;

    let err = parse_wfg(input).unwrap_err().to_string();
    assert!(err.contains("VN20"), "unexpected parse error: {err}");
    assert!(err.contains("hit<sip: 500>"), "错误信息应给出改写形态: {err}");
}

#[test]
fn test_legacy_percent_form_is_rejected_for_all_modes() {
    for mode in ["hit", "near_miss", "miss"] {
        let input = format!(
            r#"
#[duration=10m]
scenario legacy_{mode}<seed=1> {{
  background {{ stream auth_events gen 100/s }}
  inject {{
    {mode}<20%> auth_events {{ user seq {{ use(login="failed") with(3) }} }}
  }}
}}
"#
        );
        let err = parse_wfg(&input).unwrap_err().to_string();
        assert!(err.contains("VN20"), "[{mode}] unexpected error: {err}");
    }
}

#[test]
fn test_parse_without_step_into_ast() {
    let input = r#"
#[duration=10m]
scenario has_not_step<seed=1> {
  background { stream auth_events gen 100/s }
  inject {
    hit<sip: 20> for scan_then_xfer auth_events {
      use(action="scan") x 3
      without(action="login") within 30s
    }
  }
}
"#;
    let case = wfg_case(input);
    assert_eq!(case.groups.len(), 1, "`without` 不应占 use 步骤位");
    assert_eq!(case.withouts.len(), 1);
    let wa = &case.withouts[0];
    assert_eq!(wa.predicates.len(), 1);
    assert_eq!(wa.predicates[0].field, "action");
    assert_eq!(wa.predicates[0].value, AttrValue::String("login".to_string()));
    assert_eq!(wa.within, Some(30 * NS_PER_SEC));
}

#[test]
fn test_parse_without_within_defaults_to_none() {
    let input = r#"
#[duration=10m]
scenario has_not_step<seed=1> {
  background { stream auth_events gen 100/s }
  inject {
    hit<sip: 20> for scan_then_xfer auth_events {
      use(action="scan") x 3
      without(action="login")
    }
  }
}
"#;
    let case = wfg_case(input);
    assert_eq!(case.withouts.len(), 1);
    assert_eq!(case.withouts[0].within, None);
}

#[test]
fn test_parse_without_accepts_optional_then_and_any_position() {
    let input = r#"
#[duration=10m]
scenario has_not_step<seed=1> {
  background { stream auth_events gen 100/s }
  inject {
    hit<sip: 20> for scan_then_xfer auth_events {
      without(action="login") within 1m
      use(action="scan") x 3
      then use(action="xfer") x 1
      then without(action="logout")
    }
  }
}
"#;
    let case = wfg_case(input);
    assert_eq!(case.groups.len(), 2);
    assert_eq!(case.withouts.len(), 2);
    assert_eq!(case.withouts[0].predicates[0].field, "action");
    assert_eq!(case.withouts[1].predicates[0].field, "action");
    assert_eq!(case.withouts[1].within, None);
}

#[test]
fn test_legacy_field_seq_block_is_rejected_with_vn20() {
    let input = r#"
#[duration=10m]
scenario legacy_seq<seed=1> {
  background { stream auth_events gen 100/s }
  inject {
    hit<sip: 5> for rule_a auth_events {
      user seq {
        use(login="failed") x 3
      }
    }
  }
}
"#;
    let err = parse_wfg(input).unwrap_err().to_string();
    assert!(err.contains("VN20"), "unexpected parse error: {err}");
    assert!(err.contains("seq"), "错误信息应指明旧的 `seq` 块: {err}");
}

#[test]
fn test_legacy_with_count_is_rejected_with_vn20() {
    let input = r#"
#[duration=10m]
scenario legacy_with<seed=1> {
  background { stream auth_events gen 100/s }
  inject {
    hit<sip: 5> for rule_a auth_events {
      use(login="failed") with(3)
    }
  }
}
"#;
    let err = parse_wfg(input).unwrap_err().to_string();
    assert!(err.contains("VN20"), "unexpected parse error: {err}");
    assert!(err.contains("x N"), "错误信息应指明新写法 `x N`: {err}");
}

fn wfg_case(input: &str) -> InjectCase {
    parse_wfg(input)
        .expect("scenario should parse")
        .syntax
        .and_then(|syntax| syntax.injection)
        .expect("inject block")
        .cases
        .into_iter()
        .next()
        .expect("at least one inject case")
}

#[test]
fn test_parse_replay_stmts_into_ast() {
    let input = r#"
#[duration=10m]
scenario replay_case<seed=1> {
  background { stream auth_events gen 100/s }
  replay auth_events { use from "raw/a.ndjson" }
  replay auth_events { use from "raw/b.ndjson"; }
}
"#;
    let wfg = parse_wfg(input).unwrap();
    let syntax = wfg.syntax.as_ref().unwrap();
    assert_eq!(syntax.replays.len(), 2);
    assert_eq!(syntax.replays[0].window, "auth_events");
    assert_eq!(syntax.replays[0].file, "raw/a.ndjson");
    assert!(syntax.replays[0].records.is_none(), "解析期不读文件");
    assert_eq!(syntax.replays[1].file, "raw/b.ndjson");
    assert!(syntax.injection.is_none(), "replay 与 inject 互相独立");
}

#[test]
fn test_replay_coexists_with_inject_block() {
    let input = r#"
#[duration=10m]
scenario both<seed=1> {
  background { stream auth_events gen 100/s }
  replay auth_events { use from "raw/a.ndjson" }
  inject {
    hit<sip: 3> for rule_a auth_events {
      use(action="failed") x 1
    }
  }
}
"#;
    let wfg = parse_wfg(input).unwrap();
    let syntax = wfg.syntax.as_ref().unwrap();
    assert_eq!(syntax.replays.len(), 1);
    assert_eq!(syntax.injection.as_ref().unwrap().cases.len(), 1);
}

#[test]
fn test_replay_count_is_rejected_with_vn20() {
    let input = r#"
#[duration=10m]
scenario replay_count<seed=1> {
  background { stream auth_events gen 100/s }
  replay auth_events { use from "raw/a.ndjson" x 3 }
}
"#;
    let err = parse_wfg(input).unwrap_err().to_string();
    assert!(err.contains("VN20"), "unexpected parse error: {err}");
    assert!(err.contains("条数"), "错误信息应说明条数：{err}");
}

#[test]
fn test_replay_inline_value_is_rejected_with_vn20() {
    let input = r#"
#[duration=10m]
scenario replay_inline<seed=1> {
  background { stream auth_events gen 100/s }
  replay auth_events { use(action="failed") }
}
"#;
    let err = parse_wfg(input).unwrap_err().to_string();
    assert!(err.contains("VN20"), "unexpected parse error: {err}");
    assert!(err.contains("use from"), "错误信息应指明写法：{err}");
}

// ---------------------------------------------------------------------------
// Header values, errors and duration override
// ---------------------------------------------------------------------------

#[test]
fn header_values_are_derived_from_the_syntax_section() {
    let input = r#"
#[duration=10m]
scenario s<seed=9> {
  background {
    stream a gen 100/s
    stream b gen wave(base=60/m, amp=10/m, period=1m)
  }
}
"#;
    let wfg = parse_wfg(input).unwrap();
    assert_eq!(wfg.scenario.time_clause.start, "2026-01-01T00:00:00Z");
    assert_eq!(wfg.scenario.time_clause.duration, 600 * NS_PER_SEC);
    // (100/s + 1/s) × 600 s
    assert_eq!(wfg.scenario.total, 60_600);
    assert_eq!(wfg.scenario.streams.len(), 2);
    assert_eq!(wfg.scenario.streams[1].alias, "b");
    assert_eq!(wfg.scenario.streams[1].rate.count, 60);
}

#[test]
fn duration_defaults_to_one_minute_and_seed_to_zero() {
    let input = "scenario s { background { stream a gen 1/s } }";
    let wfg = parse_wfg(input).unwrap();
    assert_eq!(wfg.scenario.seed, 0);
    assert_eq!(wfg.scenario.time_clause.duration, 60 * NS_PER_SEC);
    assert_eq!(wfg.scenario.total, 60);
}

#[test]
fn budget_is_at_least_one_event() {
    let input = "#[duration=1ms] scenario s { background { stream a gen 1/h } }";
    let wfg = parse_wfg(input).unwrap();
    assert_eq!(wfg.scenario.total, 1);
}

#[test]
fn override_duration_recomputes_the_budget() {
    let input = "#[duration=10s] scenario s { background { stream a gen 10/s } }";
    let mut wfg = parse_wfg(input).unwrap();
    assert_eq!(wfg.scenario.total, 100);
    override_duration(&mut wfg, 60 * NS_PER_SEC);
    assert_eq!(wfg.scenario.time_clause.duration, 60 * NS_PER_SEC);
    assert_eq!(wfg.scenario.total, 600);
}

#[test]
fn missing_background_is_a_parse_error() {
    let err = parse_wfg("scenario s { }").unwrap_err();
    assert_eq!(err.reason, wfgen::error::WfgenReason::Parse);
    assert!(err.to_string().starts_with("parse error: "), "{}", err.to_string());
}

#[test]
fn trailing_content_is_reported_quoted() {
    let err = parse_wfg("scenario s { background { stream a gen 1/s } }\n extra \"stuff\"").unwrap_err();
    assert_eq!(err.to_string(), "unexpected trailing content: \"extra \\\"stuff\\\"\"");
}

#[test]
fn trailing_content_is_cut_at_sixty_bytes() {
    let tail = "x".repeat(80);
    let err = parse_wfg(&format!("scenario s {{ background {{ stream a gen 1/s }} }} {tail}")).unwrap_err();
    assert_eq!(err.to_string(), format!("unexpected trailing content: \"{}\"", "x".repeat(60)));
}
