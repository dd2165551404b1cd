use wfgen::scope::Scope;
use wfgen::wfadm::check::{self, Channel, ConfFile, ProjectFacts, Tally};
use wfgen::wfadm::config::{
    self, diff_lines, matches_any_prefix, origins_lines, path_matches_prefix, var_matches, vars_lines, ConfigChange,
    ConfigCommands, LoadArgs, LoadKind, VarEntry,
};
use wfgen::wfadm::engine::{
    self, config_target, expand_home, explicit_target, reload_lines, reload_outcome, reload_url, status_report,
    status_url, target_source, token_target, trim_slashes, EngineCall, EngineCommands, ReloadResponse, TargetSource,
};
use wfgen::wfadm::init::{check_init_target, init_from_remote, init_scope, init_summary};
use wfgen::wfadm::self_update::{detect_target, release_from_json, update_step, Asset, UpdateStep};

fn full_project(conf: ConfFile) -> ProjectFacts {
    ProjectFacts {
        conf,
        rules_wfl: Some(2),
        schemas_wfs: Some(1),
        scenarios_wfg: Some(3),
        sinks_dir: true,
        sinks_business: true,
        sinks_infra: true,
        sinks_defaults: true,
        sources_dir: true,
        connectors_dir: true,
        connectors_sink_d: true,
    }
}

fn empty_project() -> ProjectFacts {
    ProjectFacts {
        conf: ConfFile::Missing,
        rules_wfl: None,
        schemas_wfs: None,
        scenarios_wfg: None,
        sinks_dir: false,
        sinks_business: false,
        sinks_infra: false,
        sinks_defaults: false,
        sources_dir: false,
        connectors_dir: false,
        connectors_sink_d: false,
    }
}

// ---------------------------------------------------------------------------
// check
// ---------------------------------------------------------------------------

#[test]
fn check_of_an_empty_dir_reports_the_missing_conf() {
    let out = check::run(&empty_project());
    assert_eq!(out.result, Err("validation failed with 1 error(s)".to_string()));
    assert_eq!(out.err, 1);
    assert_eq!(out.lines[0].text, "  [ERR] conf/wfusion.toml: not found");
    assert_eq!(out.lines[0].channel, Channel::Stderr);
    assert_eq!(out.lines[0].tally, Tally::Error);
    assert_eq!(
        out.lines.last().unwrap().text,
        format!("Result: 1 error(s), {} warning(s), 0 ok", out.warn)
    );
}

#[test]
fn check_of_a_complete_project_passes() {
    let out = check::run(&full_project(ConfFile::Text("mode = \"daemon\"\n".to_string())));
    assert_eq!(out.result, Ok(()));
    assert_eq!(out.err, 0);
    assert_eq!(out.warn, 0);
    assert!(out.lines.iter().any(|l| l.text == "  [OK] conf/wfusion.toml: valid TOML"));
    assert!(out.lines.iter().any(|l| l.text == "  [OK] models/rules/: 2 .wfl file(s)"));
    assert!(out.lines.iter().any(|l| l.text == "  [OK] models/scenarios/: 3 .wfg file(s)"));
    assert_eq!(
        out.lines.last().unwrap().text,
        format!("Result: all checks passed ({} ok)", out.ok)
    );
}

#[test]
fn check_detects_invalid_toml() {
    let out = check::run(&full_project(ConfFile::Text("not valid toml [[[".to_string())));
    assert_eq!(out.result, Err("validation failed with 1 error(s)".to_string()));
    assert!(out.lines.iter().any(|l| l.text == "  [ERR] conf/wfusion.toml: invalid TOML"));
}

#[test]
fn check_warns_on_empty_model_dirs() {
    let mut facts = full_project(ConfFile::Text("a = 1".to_string()));
    facts.rules_wfl = Some(0);
    facts.sinks_defaults = false;
    let out = check::run(&facts);
    assert_eq!(out.result, Ok(()));
    assert_eq!(out.warn, 2);
    assert!(out.lines.iter().any(|l| l.text == "  [WARN] models/rules/: no .wfl files found"));
    assert_eq!(
        out.lines.last().unwrap().text,
        format!("Result: 2 warning(s), {} ok (no errors)", out.ok)
    );
}

#[test]
fn conf_validity_is_what_the_toml_crate_says() {
    let good = check::run(&full_project(ConfFile::Text("[admin_api]\nenabled = true\n".to_string())));
    assert!(good.lines.iter().any(|l| l.text == "  [OK] conf/wfusion.toml: valid TOML"));
    let bad = check::run(&full_project(ConfFile::Text("a = ".to_string())));
    assert!(bad.lines.iter().any(|l| l.text == "  [ERR] conf/wfusion.toml: invalid TOML"));
    let unreadable = check::run(&full_project(ConfFile::Unreadable("permission denied".to_string())));
    assert_eq!(unreadable.lines[0].text, "  [ERR] conf/wfusion.toml: read error: permission denied");
}

// ---------------------------------------------------------------------------
// config
// ---------------------------------------------------------------------------

fn load(config: &str) -> LoadArgs {
    LoadArgs {
        config: config.to_string(),
        overlays: vec![],
        vars: vec![],
        work_dir: None,
    }
}

#[test]
fn config_subcommands_say_what_to_load() {
    let plan = config::run(ConfigCommands::Render { load: load("a.toml"), raw: true });
    assert_eq!(plan.kind, LoadKind::MergedToml);
    assert_eq!(plan.left, load("a.toml"));
    assert!(plan.right.is_none());
    let plan = config::run(ConfigCommands::Render { load: load("a.toml"), raw: false });
    assert_eq!(plan.kind, LoadKind::ExpandedToml);
    let plan = config::run(ConfigCommands::Vars { load: load("a.toml"), var_prefix: vec![] });
    assert_eq!(plan.kind, LoadKind::Vars);
    let plan = config::run(ConfigCommands::Diff {
        load: load("a.toml"),
        to_config: Some("b.toml".to_string()),
        to_overlays: vec!["o.toml".to_string()],
        to_vars: vec!["K=V".to_string()],
        to_work_dir: None,
        path_prefix: vec![],
        expanded: true,
    });
    assert_eq!(plan.kind, LoadKind::ExpandedRaw);
    let (to_config, right) = plan.right.unwrap();
    assert_eq!(to_config, Some("b.toml".to_string()));
    assert_eq!(right.overlays, vec!["o.toml".to_string()]);
    assert_eq!(right.vars, vec!["K=V".to_string()]);
}

#[test]
fn path_prefixes_match_whole_segments() {
    assert!(path_matches_prefix("admin_api", "admin_api"));
    assert!(path_matches_prefix("admin_api.bind", "admin_api"));
    assert!(path_matches_prefix("sinks[0]", "sinks"));
    assert!(!path_matches_prefix("admin_api_x", "admin_api"));
    assert!(matches_any_prefix("anything", &vec![]));
    assert!(!matches_any_prefix("a.b", &vec!["c".to_string()]));
    assert!(var_matches("HOME_DIR", &vec!["HOME".to_string()]));
    assert!(!var_matches("PATH", &vec!["HOME".to_string()]));
}

#[test]
fn origins_vars_and_diff_lines() {
    let entries = vec![
        ("admin_api.bind".to_string(), "conf/wfusion.toml".to_string()),
        ("mode".to_string(), "overlay.toml".to_string()),
    ];
    assert_eq!(
        origins_lines(&entries, &vec!["admin_api".to_string()]),
        vec!["admin_api.bind\tconf/wfusion.toml".to_string()]
    );
    assert_eq!(
        origins_lines(&entries, &vec!["nope".to_string()]),
        vec!["(no matching paths)".to_string()]
    );
    let vars = vec![VarEntry {
        key: "HOME".to_string(),
        value: "/root".to_string(),
        source: "env".to_string(),
    }];
    assert_eq!(vars_lines(&vars, &vec![]), vec!["HOME\t/root\tenv".to_string()]);
    assert_eq!(vars_lines(&vars, &vec!["X".to_string()]), vec!["(no matching vars)".to_string()]);
    let changes = vec![ConfigChange {
        path: "mode".to_string(),
        old_value: Some("\"daemon\"".to_string()),
        new_value: None,
        old_origin: Some("a.toml".to_string()),
        new_origin: None,
    }];
    assert_eq!(
        diff_lines(&changes, &vec![]),
        vec![
            "path: mode".to_string(),
            "  old: \"daemon\"".to_string(),
            "  new: <none>".to_string(),
            "  old_origin: a.toml".to_string(),
            "  new_origin: <none>".to_string(),
        ]
    );
    assert_eq!(diff_lines(&vec![], &vec![]), vec!["(no changes)".to_string()]);
}

// ---------------------------------------------------------------------------
// engine
// ---------------------------------------------------------------------------

fn reload_command(update: bool, version: Option<&str>, group: Option<&str>) -> EngineCommands {
    EngineCommands::Reload {
        config: "conf/wfusion.toml".to_string(),
        admin_url: None,
        token_file: None,
        wait: true,
        timeout_ms: 5000,
        update,
        version: version.map(|v| v.to_string()),
        group: group.map(|g| g.to_string()),
        reason: None,
        request_id: None,
        json: false,
    }
}

#[test]
fn reload_flags_need_update() {
    assert_eq!(
        engine::run(reload_command(false, Some("1.2.0"), None)).unwrap_err(),
        "--version requires --update"
    );
    assert_eq!(
        engine::run(reload_command(false, None, Some("rules"))).unwrap_err(),
        "--group requires --update"
    );
    match engine::run(reload_command(true, Some("1.2.0"), None)).unwrap() {
        EngineCall::Reload { body, .. } => {
            assert!(body.update);
            assert_eq!(body.version, Some("1.2.0".to_string()));
            assert_eq!(body.timeout_ms, 5000);
        }
        other => panic!("{other:?}"),
    }
}

#[test]
fn engine_target_from_config() {
    let cfg = "[admin_api]\nenabled = true\nbind = \"0.0.0.0:9000\"\n";
    let t = config_target(cfg, &None).unwrap();
    assert_eq!(t.base_url, "http://0.0.0.0:9000");
    assert_eq!(t.token_path, "${HOME}/.wfusion/admin_api.token");
    let t = config_target(cfg, &Some("https://engine.local/".to_string())).unwrap();
    assert_eq!(t.base_url, "https://engine.local");
    assert_eq!(
        config_target("[admin_api]\nenabled = false\n", &None).unwrap_err(),
        "admin_api is not enabled in config"
    );
    assert_eq!(
        config_target("mode = 1\n", &None).unwrap_err(),
        "admin_api section not found in config (is it enabled?)"
    );
    assert!(config_target("[[[", &None).unwrap_err().starts_with("parse config TOML: "));
}

#[test]
fn engine_target_helpers() {
    assert_eq!(trim_slashes("http://h:1///"), "http://h:1");
    assert_eq!(expand_home("${HOME}/.wfusion/t", "/root"), "/root/.wfusion/t");
    assert_eq!(
        target_source(&Some("http://h".to_string()), &Some("/t".to_string())),
        TargetSource::Explicit {
            url: "http://h".to_string(),
            token_file: "/t".to_string()
        }
    );
    assert_eq!(target_source(&Some("http://h".to_string()), &None), TargetSource::FromConfig);
    let t = token_target("http://h".to_string(), "/t", "  secret\n").unwrap();
    assert_eq!(t.token, "secret");
    assert_eq!(token_target("http://h".to_string(), "/t", " \n").unwrap_err(), "token file '/t' is empty");
    let t = explicit_target("http://h/", "/t", "tok").unwrap();
    assert_eq!(t.base_url, "http://h");
    assert_eq!(status_url("http://h"), "http://h/admin/v1/runtime/status");
    assert_eq!(reload_url("http://h"), "http://h/admin/v1/reloads/model");
}

#[test]
fn status_report_shows_present_fields() {
    let body = r#"{"instance_id": "i-1", "version": "0.3.0", "accepting_commands": true, "reloading": false}"#;
    let lines = status_report(200, "200 OK", body, "http://h", false).unwrap();
    assert_eq!(
        lines,
        vec![
            "Engine status".to_string(),
            "  Endpoint  : http://h".to_string(),
            "  Instance  : i-1".to_string(),
            "  Version   : 0.3.0".to_string(),
            "  Accepting : true".to_string(),
            "  Reloading : false".to_string(),
        ]
    );
    assert_eq!(status_report(200, "200 OK", body, "http://h", true).unwrap(), vec![body.to_string()]);
    assert_eq!(
        status_report(503, "503 Service Unavailable", "busy", "http://h", false).unwrap_err(),
        "HTTP 503 Service Unavailable: busy"
    );
    assert!(status_report(200, "200 OK", "{", "http://h", false)
        .unwrap_err()
        .starts_with("parse response JSON: "));
}

#[test]
fn reload_answer_lines_and_outcome() {
    let r = ReloadResponse {
        request_id: "req-1".to_string(),
        accepted: true,
        result: "done".to_string(),
        update: Some(true),
        requested_version: None,
        current_version: Some("1.0".to_string()),
        resolved_tag: None,
        group: None,
        force_replaced: None,
        warning: None,
        error: None,
    };
    assert_eq!(
        reload_lines("http://h", &r),
        vec![
            "Engine reload".to_string(),
            "  Endpoint : http://h".to_string(),
            "  Request  : req-1".to_string(),
            "  Accepted : true".to_string(),
            "  Result   : done".to_string(),
            "  Updated  : true".to_string(),
            "  Current V: 1.0".to_string(),
        ]
    );
    assert_eq!(reload_outcome(202, "202 Accepted"), Ok(()));
    assert_eq!(reload_outcome(409, "409 Conflict"), Err("HTTP 409 Conflict".to_string()));
}

// ---------------------------------------------------------------------------
// init and self-update
// ---------------------------------------------------------------------------

#[test]
fn init_rejects_a_nonempty_dir_and_unknown_scopes() {
    assert_eq!(check_init_target(false, "proj"), Ok(()));
    assert_eq!(
        check_init_target(true, "proj"),
        Err("directory 'proj' already exists and is not empty".to_string())
    );
    assert_eq!(init_scope("full"), Ok(Scope::Normal));
    assert_eq!(init_scope("rules"), Ok(Scope::Rules));
    assert!(init_scope("bogus").unwrap_err().starts_with("invalid scope: "));
    assert_eq!(
        init_summary("/tmp/proj", Scope::Rules, "proj"),
        vec![
            "wf-rules project created at /tmp/proj (scope: Rules)".to_string(),
            "  cd proj && wfusion run".to_string(),
        ]
    );
    assert!(init_from_remote("proj", "https://example.invalid/repo", None).is_err());
}

#[test]
fn self_update_picks_the_asset_for_the_machine() {
    assert_eq!(detect_target("aarch64", "macos"), "aarch64-macos");
    assert_eq!(detect_target("x86_64", "linux"), "x86_64-linux");
    assert_eq!(detect_target("riscv64", "linux"), "x86_64-linux");
    let body = r#"{"tag_name": "v1.4.0", "assets": [
        {"name": "wfusion-aarch64-macos.tar.gz", "size": 10, "browser_download_url": "https://d/a"},
        {"name": "wfusion-x86_64-linux.tar.gz", "size": 12, "browser_download_url": "https://d/b"}
    ]}"#;
    let release = release_from_json(body).unwrap();
    assert_eq!(release.tag_name, "v1.4.0");
    assert_eq!(
        release.assets[1],
        Asset {
            name: "wfusion-x86_64-linux.tar.gz".to_string(),
            size: 12,
            browser_download_url: "https://d/b".to_string()
        }
    );
    assert_eq!(
        update_step(&release.tag_name, "1.3.0", "x86_64-linux", &release.assets),
        Ok(UpdateStep::Download(1))
    );
    assert_eq!(
        update_step(&release.tag_name, "1.4.0", "x86_64-linux", &release.assets),
        Ok(UpdateStep::UpToDate)
    );
    assert_eq!(
        update_step(&release.tag_name, "1.3.0", "arm-none", &release.assets),
        Err("no asset found for target 'arm-none' (expected: wfusion-arm-none.tar.gz)".to_string())
    );
    assert_eq!(release_from_json("{}").unwrap_err(), "missing tag_name in release JSON");
    assert_eq!(
        release_from_json(r#"{"tag_name": "v1"}"#).unwrap_err(),
        "missing assets array in release JSON"
    );
}
