use wfgen::error::WfgenReason;
use wfgen::loader::{parse_ndjson_records, parse_value_file, resolve_relative, use_kind, validate_records, UseKind};

fn json(text: &str) -> serde_json::Value {
    serde_json::from_str(text).unwrap()
}

#[test]
fn object_value_file_is_kept_as_one_record() {
    let out = parse_value_file(r#"{"sip": "10.0.0.9", "dport": 22}"#, "evt.json", "use from", false).unwrap();
    let v = json(&out);
    assert_eq!(v.get("sip"), Some(&json("\"10.0.0.9\"")));
    assert_eq!(v.get("dport"), Some(&json("22")));
}

#[test]
fn array_value_file_keeps_records() {
    let out = parse_value_file(r#"[{"sip": "10.0.0.1"}, {"sip": "10.0.0.2"}]"#, "evt.json", "use from", false)
        .unwrap();
    assert_eq!(json(&out).as_array().unwrap().len(), 2);
}

#[test]
fn underscore_keys_are_left_in_place() {
    let out = parse_value_file(r#"{"sip": "10.0.0.1", "_stream": "syslog"}"#, "raw/evt.json", "use from", false)
        .unwrap();
    assert!(json(&out).get("_stream").is_some());
}

#[test]
fn ndjson_value_file_becomes_records() {
    let content = "{\"sip\": \"10.0.0.1\"}\n\n// comment line\n{\"sip\": \"10.0.0.2\"}\n";
    let out = parse_value_file(content, "raw.ndjson", "use from", false).unwrap();
    let v = json(&out);
    let items = v.as_array().unwrap();
    assert_eq!(items.len(), 2);
    assert_eq!(items[1].get("sip"), Some(&json("\"10.0.0.2\"")));
}

#[test]
fn ndjson_lines_are_joined_into_one_array() {
    let out = parse_ndjson_records("{\"a\":1}\n  {\"b\":2}  \n").unwrap();
    assert_eq!(json(&out), json(r#"[{"a": 1}, {"b": 2}]"#));
    let empty = parse_ndjson_records("\n// only a comment\n").unwrap();
    assert_eq!(json(&empty), json("[]"));
    assert!(parse_ndjson_records("{\"a\":1}\nnope\n").is_err());
}

#[test]
fn scalar_top_level_value_file_is_rejected() {
    let err = parse_value_file("42", "scalar.json", "use from", false).unwrap_err();
    assert_eq!(err.reason, WfgenReason::Validation);
    assert_eq!(
        err.detail,
        "use from scalar.json 的顶层必须是 JSON object 或 object 数组，实际有 number"
    );
}

#[test]
fn non_object_and_empty_records_are_rejected() {
    let err = parse_value_file(r#"[{"sip": "10.0.0.1"}, "oops"]"#, "mixed.json", "use from", false).unwrap_err();
    assert!(err.detail.contains("元素必须是 JSON object"), "{}", err.detail);
    assert!(err.detail.ends_with("实际有 string"), "{}", err.detail);
    let err = parse_value_file("[]", "empty.json", "use from", false).unwrap_err();
    assert!(err.detail.contains("数组为空"), "{}", err.detail);
    assert_eq!(parse_value_file("[]", "empty.json", "replay", true).unwrap(), "[]");
}

#[test]
fn unparsable_value_file_reports_both_attempts() {
    let err = parse_value_file("not json at all", "broken.json", "use from", false).unwrap_err();
    assert!(err.detail.starts_with("use from broken.json 不是合法 JSON，也不是合法的 NDJSON"), "{}", err.detail);
    assert!(err.detail.contains("单份解析失败"));
    assert!(err.detail.contains("逐行解析失败"));
}

#[test]
fn validate_records_passes_the_text_on() {
    let text = r#"[{"a": 1}]"#.to_string();
    assert_eq!(validate_records(text.clone(), "p", "l", false).unwrap(), text);
    assert!(validate_records("true".to_string(), "p", "l", false).is_err());
}

#[test]
fn relative_paths_resolve_against_the_scenario_dir() {
    assert_eq!(resolve_relative("/data/scen", "raw/evt.json"), "/data/scen/raw/evt.json");
    assert_eq!(resolve_relative("/data/scen/", "raw/evt.json"), "/data/scen/raw/evt.json");
    assert_eq!(resolve_relative("/data/scen", "/abs/evt.json"), "/abs/evt.json");
    assert_eq!(resolve_relative("", "evt.json"), "evt.json");
}

#[test]
fn use_declarations_are_told_apart_by_extension() {
    assert_eq!(use_kind("../schemas/security.wfs").unwrap(), UseKind::Schema);
    assert_eq!(use_kind("rules/brute_force.wfl").unwrap(), UseKind::Rules);
    let err = use_kind("notes/readme.txt").unwrap_err();
    assert_eq!(err.reason, WfgenReason::Validation);
    assert_eq!(
        err.detail,
        "unsupported file extension 'txt' in use declaration: notes/readme.txt"
    );
}

use wfgen::loader::{apply_inject_value_file, apply_replay_value_file, inject_value_files, replay_value_files};
use wfgen::wfg_ast::{ValueSource, WfgFile};
use wfgen::wfg_file::parse_wfg;

/// A scenario with one injection case whose single group is `use_form`.
fn wfg_with_use(use_form: &str) -> WfgFile {
    let source = format!(
        r#"
#[duration=10s]
scenario use_from_probe<seed=42> {{
  background {{
    stream LoginWindow gen 10/s
  }}
  inject {{
    hit<sip: 3> for some_rule LoginWindow {{
      {use_form}
    }}
  }}
}}
"#
    );
    parse_wfg(&source).expect("parse wfg")
}

fn value_source(wfg: &WfgFile) -> &ValueSource {
    &wfg.syntax
        .as_ref()
        .and_then(|syntax| syntax.injection.as_ref())
        .expect("injection block")
        .cases[0]
        .groups[0]
        .source
}

/// Resolves the scenario's value files as the command line does, with the
/// given contents standing for what is on disk.
fn resolve_with(wfg: &mut WfgFile, base_dir: &str, read: &dyn Fn(&str) -> String) -> Result<(), String> {
    for (c, g, path) in inject_value_files(wfg, base_dir) {
        apply_inject_value_file(wfg, c, g, &path, &read(&path)).map_err(|e| e.detail)?;
    }
    Ok(())
}

#[test]
fn object_file_is_inlined() {
    let mut wfg = wfg_with_use("use from \"/data/evt.json\" x 2");
    assert_eq!(inject_value_files(&wfg, "/scen"), vec![(0, 0, "/data/evt.json".to_string())]);
    resolve_with(&mut wfg, "/scen", &|_| r#"{"sip": "10.0.0.9", "dport": 22}"#.to_string()).unwrap();
    match value_source(&wfg) {
        ValueSource::Json(text) => {
            let v = json(text);
            assert_eq!(v.get("sip"), Some(&json("\"10.0.0.9\"")));
            assert_eq!(v.get("dport"), Some(&json("22")));
        }
        other => panic!("expected an inline object, got {other:?}"),
    }
}

#[test]
fn array_file_keeps_records() {
    let mut wfg = wfg_with_use("use from \"evt.json\" x 5");
    resolve_with(&mut wfg, "/scen", &|_| r#"[{"sip": "10.0.0.1"}, {"sip": "10.0.0.2"}]"#.to_string()).unwrap();
    match value_source(&wfg) {
        ValueSource::Json(text) => assert_eq!(json(text).as_array().unwrap().len(), 2),
        other => panic!("expected an inline array, got {other:?}"),
    }
}

#[test]
fn relative_path_resolves_against_scenario_dir() {
    let mut wfg = wfg_with_use("use from \"raw/evt.json\" x 1");
    assert_eq!(inject_value_files(&wfg, "/scen"), vec![(0, 0, "/scen/raw/evt.json".to_string())]);
    resolve_with(&mut wfg, "/scen", &|p| {
        assert_eq!(p, "/scen/raw/evt.json");
        r#"{"sip": "10.0.0.1", "_stream": "syslog"}"#.to_string()
    })
    .unwrap();
    match value_source(&wfg) {
        ValueSource::Json(text) => assert!(json(text).get("_stream").is_some()),
        other => panic!("expected an inline object, got {other:?}"),
    }
}

#[test]
fn ndjson_file_becomes_records() {
    let mut wfg = wfg_with_use("use from \"raw.ndjson\" x 4");
    resolve_with(&mut wfg, "/scen", &|_| "{\"sip\": \"10.0.0.1\"}\n\n// comment\n{\"sip\": \"10.0.0.2\"}\n".to_string())
        .unwrap();
    match value_source(&wfg) {
        ValueSource::Json(text) => {
            let v = json(text);
            assert_eq!(v.as_array().unwrap().len(), 2);
            assert_eq!(v.as_array().unwrap()[1].get("sip"), Some(&json("\"10.0.0.2\"")));
        }
        other => panic!("expected an inline array, got {other:?}"),
    }
}

#[test]
fn bad_value_files_leave_the_scenario_unchanged() {
    let mut wfg = wfg_with_use("use from \"scalar.json\" x 1");
    let before = wfg.clone();
    let err = resolve_with(&mut wfg, "/scen", &|_| "42".to_string()).unwrap_err();
    assert!(err.contains("顶层必须是 JSON object 或 object 数组"), "{err}");
    assert!(err.starts_with("inject value file /scen/scalar.json"), "{err}");
    assert_eq!(wfg, before);
}

#[test]
fn inline_sources_need_no_files() {
    let wfg = wfg_with_use("use(login=\"failed\") x 3");
    assert!(inject_value_files(&wfg, "/scen").is_empty());
}

#[test]
fn replay_files_are_listed_and_filled_in_order() {
    let mut wfg = parse_wfg(
        "#[duration=1m]\nscenario s<seed=1> {\n  background { stream a gen 1/s }\n  replay a { use from \"one.ndjson\" }\n  replay a { use from \"/abs/two.json\" }\n}\n",
    )
    .unwrap();
    let files = replay_value_files(&wfg, "/scen");
    assert_eq!(files, vec!["/scen/one.ndjson".to_string(), "/abs/two.json".to_string()]);
    apply_replay_value_file(&mut wfg, 0, &files[0], "").unwrap();
    apply_replay_value_file(&mut wfg, 1, &files[1], r#"{"user": "a"}"#).unwrap();
    let replays = &wfg.syntax.as_ref().unwrap().replays;
    assert_eq!(replays[0].records, Some("[]".to_string()));
    assert_eq!(replays[1].records, Some(r#"{"user": "a"}"#.to_string()));
    let err = apply_replay_value_file(&mut wfg, 0, &files[0], "nope").unwrap_err();
    assert!(err.detail.starts_with("replay file /scen/one.ndjson 不是合法 JSON"), "{}", err.detail);
}

#[test]
fn resolved_scenarios_read_no_more_files() {
    let mut wfg = parse_wfg(
        "#[duration=1m]\nscenario s<seed=1> {\n  background { stream a gen 1/s }\n  inject {\n    hit<2> for r a { use from \"x.json\" x 1\n use(k=1) x 1 }\n    miss<2> for r a { use from \"y.json\" x 1 }\n  }\n}\n",
    )
    .unwrap();
    let files = inject_value_files(&wfg, "d");
    assert_eq!(
        files,
        vec![(0, 0, "d/x.json".to_string()), (1, 0, "d/y.json".to_string())]
    );
    resolve_with(&mut wfg, "d", &|_| "{\"k\": 2}".to_string()).unwrap();
    assert!(inject_value_files(&wfg, "d").is_empty());
}
